//! Tagged 64-bit values: sixteen tag bits over a 48-bit payload.

use vstd::prelude::*;

verus! {

pub const TAG_NIL: u64 = 0x7ff9_0000_0000_0000;

pub const TAG_UNIT: u64 = 0x7ffa_0000_0000_0000;

pub const TAG_BOOL: u64 = 0x7ffb_0000_0000_0000;

pub const TAG_INT: u64 = 0x7ffc_0000_0000_0000;

pub const TAG_STRING: u64 = 0x7ffd_0000_0000_0000;

pub const TAG_CLOSURE: u64 = 0x7ffe_0000_0000_0000;

/// The number of payload values, `2^48`.
pub const PAYLOAD_SPAN: u64 = 0x1_0000_0000_0000;

/// The payload of a value.
pub open spec fn payload_of(v: u64) -> int {
    v as int % 0x1_0000_0000_0000
}

/// The tag of a value, with a zero payload.
pub open spec fn tag_of(v: u64) -> int {
    v - payload_of(v)
}

/// The 48-bit two's complement number in the payload.
pub open spec fn int_of(v: u64) -> int {
    if payload_of(v) < 0x8000_0000_0000 {
        payload_of(v)
    } else {
        payload_of(v) - 0x1_0000_0000_0000
    }
}

/// The value of an integer; only its low 48 bits are kept.
pub open spec fn int_value(n: int) -> u64 {
    (0x7ffc_0000_0000_0000 + n % 0x1_0000_0000_0000) as u64
}

/// The value of a truth value.
pub open spec fn bool_value(b: bool) -> u64 {
    if b {
        0x7ffb_0000_0000_0001
    } else {
        0x7ffb_0000_0000_0000
    }
}

/// The value of a closure payload; only its low 48 bits are kept.
pub open spec fn closure_value(p: int) -> u64 {
    (0x7ffe_0000_0000_0000 + p % 0x1_0000_0000_0000) as u64
}

/// The value of a string pool index; only its low 48 bits are kept.
pub open spec fn string_value(p: int) -> u64 {
    (0x7ffd_0000_0000_0000 + p % 0x1_0000_0000_0000) as u64
}

pub fn payload(v: u64) -> (r: u64)
    ensures
        r == payload_of(v),
        r < PAYLOAD_SPAN,
{
    v % PAYLOAD_SPAN
}

pub fn tag(v: u64) -> (r: u64)
    ensures
        r == tag_of(v),
{
    v - v % PAYLOAD_SPAN
}

/// Tags the low 48 bits of an integer.
pub fn tag_int(n: i64) -> (r: u64)
    ensures
        r == int_value(n as int),
{
    let low: u64 = if n >= 0 {
        n as u64 % PAYLOAD_SPAN
    } else {
        let m: u64 = (-(n + 1)) as u64 % PAYLOAD_SPAN;
        PAYLOAD_SPAN - 1 - m
    };
    assert(low == n as int % 0x1_0000_0000_0000);
    TAG_INT + low
}

/// The integer in the payload.
pub fn as_int_raw(v: u64) -> (r: i64)
    ensures
        r == int_of(v),
        -0x8000_0000_0000 <= r < 0x8000_0000_0000,
{
    let p: u64 = payload(v);
    if p < 0x8000_0000_0000 {
        p as i64
    } else {
        p as i64 - 0x1_0000_0000_0000
    }
}

/// Whether a value carries the integer tag.
pub fn is_int_raw(v: u64) -> (r: bool)
    ensures
        r == (tag_of(v) == TAG_INT),
{
    tag(v) == TAG_INT
}

pub fn tag_bool(b: bool) -> (r: u64)
    ensures
        r == bool_value(b),
{
    if b {
        0x7ffb_0000_0000_0001
    } else {
        0x7ffb_0000_0000_0000
    }
}

pub fn tag_closure(p: u64) -> (r: u64)
    ensures
        r == closure_value(p as int),
{
    TAG_CLOSURE + p % PAYLOAD_SPAN
}

pub fn tag_string(p: u64) -> (r: u64)
    ensures
        r == string_value(p as int),
{
    TAG_STRING + p % PAYLOAD_SPAN
}

/// Every 48-bit integer survives tagging, and only integers carry its tag.
pub proof fn int_value_round_trip(n: int)
    requires
        -0x8000_0000_0000 <= n < 0x8000_0000_0000,
    ensures
        int_of(int_value(n)) == n,
        tag_of(int_value(n)) == TAG_INT,
{
}

/// Tagging wraps: integers that agree in their low 48 bits have one value.
pub proof fn int_value_wraps(n: int, k: int)
    ensures
        int_value(n + k * 0x1_0000_0000_0000) == int_value(n),
{
    vstd::arithmetic::div_mod::lemma_mod_multiples_vanish(k, n, 0x1_0000_0000_0000);
    assert(k * 0x1_0000_0000_0000 == 0x1_0000_0000_0000 * k) by (nonlinear_arith);
}

/// A string value carries its pool index.
pub proof fn string_value_round_trip(p: int)
    requires
        0 <= p < PAYLOAD_SPAN,
    ensures
        payload_of(string_value(p)) == p,
        tag_of(string_value(p)) == TAG_STRING,
{
}

/// The kinds of values do not overlap: their tags differ and leave the payload
/// free.
pub proof fn tags_do_not_overlap()
    ensures
        ({
            let tags = seq![TAG_NIL, TAG_UNIT, TAG_BOOL, TAG_INT, TAG_STRING, TAG_CLOSURE];
            &&& tags.no_duplicates()
            &&& forall|i: int| 0 <= i < tags.len() ==> payload_of(#[trigger] tags[i]) == 0
        }),
{
}

/// Truth values are told apart by their payload, and a closure keeps its own.
pub proof fn payloads_come_back(b: bool, p: int)
    ensures
        tag_of(bool_value(b)) == TAG_BOOL,
        payload_of(bool_value(b)) == (if b { 1int } else { 0 }),
        tag_of(closure_value(p)) == TAG_CLOSURE,
        0 <= p < 0x1_0000_0000_0000 ==> payload_of(closure_value(p)) == p,
{
}

} // verus!
