//! Reading unsigned numbers in a radix, as the standard library reads them.

use crate::text::{self, chars_of, code_point, text};
use vstd::prelude::*;

verus! {

/// Why a text is no number.
#[derive(Debug, Clone, Copy, PartialEq, Eq, Structural)]
pub enum NumberError {
    Empty,
    InvalidDigit,
    PosOverflow,
}

impl NumberError {
    pub open spec fn spec_text(self) -> Seq<char> {
        match self {
            NumberError::Empty => "cannot parse integer from empty string"@,
            NumberError::InvalidDigit => "invalid digit found in string"@,
            NumberError::PosOverflow => "number too large to fit in target type"@,
        }
    }

    pub fn to_string(&self) -> (r: String)
        ensures
            r@ == self.spec_text(),
    {
        match self {
            NumberError::Empty => text("cannot parse integer from empty string"),
            NumberError::InvalidDigit => text("invalid digit found in string"),
            NumberError::PosOverflow => text("number too large to fit in target type"),
        }
    }
}

/// The value of a digit character in radices up to sixteen.
pub open spec fn digit_value(c: char) -> Option<nat> {
    let u = c as int;
    if 0x30 <= u <= 0x39 {
        Some((u - 0x30) as nat)
    } else if 0x41 <= u <= 0x46 {
        Some((u - 0x41 + 10) as nat)
    } else if 0x61 <= u <= 0x66 {
        Some((u - 0x61 + 10) as nat)
    } else {
        None
    }
}

/// Reads digits from `from` on, `acc` being the value so far.
pub open spec fn digits_from(s: Seq<char>, from: int, acc: nat, radix: nat, max: nat) -> Result<
    nat,
    NumberError,
>
    decreases s.len() - from,
{
    if from < 0 || from >= s.len() {
        Ok(acc)
    } else {
        match digit_value(s[from]) {
            Some(d) => if d >= radix {
                Err(NumberError::InvalidDigit)
            } else if acc * radix + d > max {
                Err(NumberError::PosOverflow)
            } else {
                digits_from(s, from + 1, acc * radix + d, radix, max)
            },
            None => Err(NumberError::InvalidDigit),
        }
    }
}

/// The number that a text stands for: an optional `+`, then digits.
pub open spec fn parsed(s: Seq<char>, radix: nat, max: nat) -> Result<nat, NumberError> {
    if s.len() == 0 {
        Err(NumberError::Empty)
    } else if s.len() == 1 && s[0] == '+' {
        Err(NumberError::InvalidDigit)
    } else if s[0] == '+' {
        digits_from(s, 1, 0, radix, max)
    } else {
        digits_from(s, 0, 0, radix, max)
    }
}

fn digit_of(c: char) -> (r: Option<u64>)
    ensures
        r matches Some(d) ==> digit_value(c) == Some(d as nat) && d < 16,
        r is None ==> digit_value(c) is None,
{
    let u: u32 = code_point(c);
    if 0x30 <= u && u <= 0x39 {
        Some((u - 0x30) as u64)
    } else if 0x41 <= u && u <= 0x46 {
        Some((u - 0x41 + 10) as u64)
    } else if 0x61 <= u && u <= 0x66 {
        Some((u - 0x61 + 10) as u64)
    } else {
        None
    }
}

/// Reads a number of the given radix that is at most `max`.
pub fn parse_radix(s: &str, radix: u64, max: u64) -> (r: Result<u64, NumberError>)
    requires
        2 <= radix <= 16,
    ensures
        match r {
            Ok(n) => parsed(s@, radix as nat, max as nat) == Ok::<nat, NumberError>(n as nat) && n
                <= max,
            Err(e) => parsed(s@, radix as nat, max as nat) == Err::<nat, NumberError>(e),
        },
{
    let v: Vec<char> = chars_of(s);
    if v.len() == 0 {
        return Err(NumberError::Empty);
    }
    if v.len() == 1 && v[0] == '+' {
        return Err(NumberError::InvalidDigit);
    }
    let mut i: usize = if v[0] == '+' {
        1
    } else {
        0
    };
    let mut acc: u64 = 0;
    while i < v.len()
        invariant
            i <= v@.len(),
            v@ == s@,
            2 <= radix <= 16,
            acc <= max,
            parsed(s@, radix as nat, max as nat) == digits_from(
                v@,
                i as int,
                acc as nat,
                radix as nat,
                max as nat,
            ),
        decreases v@.len() - i,
    {
        match digit_of(v[i]) {
            None => {
                return Err(NumberError::InvalidDigit);
            },
            Some(d) => {
                if d >= radix {
                    return Err(NumberError::InvalidDigit);
                }
                assert(acc as u128 * radix as u128 <= 0xffff_ffff_ffff_ffff * 16) by (nonlinear_arith)
                    requires
                        radix <= 16,
                        acc <= 0xffff_ffff_ffff_ffff,
                ;
                let next: u128 = acc as u128 * radix as u128 + d as u128;
                if next > max as u128 {
                    return Err(NumberError::PosOverflow);
                }
                acc = next as u64;
            },
        }
        i += 1;
    }
    Ok(acc)
}

/// Every number reads back from its decimal text.
pub proof fn decimal_round_trip(n: nat, max: nat)
    requires
        n <= max,
    ensures
        parsed(text::dec(n), 10, max) == Ok::<nat, NumberError>(n),
{
    let s = text::dec(n);
    dec_digits(n);
    assert(s.take(s.len() as int) =~= s);
    decimal_prefix(n, s, max);
    assert(s[0] != '+');
}

proof fn dec_digits(n: nat)
    ensures
        text::dec(n).len() > 0,
        forall|i: int| 0 <= i < text::dec(n).len() ==> digit_value(#[trigger] text::dec(n)[i]) is Some
            && digit_value(text::dec(n)[i])->0 < 10,
    decreases n,
{
    if n >= 10 {
        dec_digits(n / 10);
    }
}

/// Reading the first digits of a text that starts with the decimal text of `n`
/// gives `n`.
proof fn decimal_prefix(n: nat, s: Seq<char>, max: nat)
    requires
        n <= max,
        text::dec(n).len() <= s.len(),
        s.take(text::dec(n).len() as int) == text::dec(n),
    ensures
        digits_from(s, 0, 0, 10, max) == digits_from(
            s,
            text::dec(n).len() as int,
            n,
            10,
            max,
        ),
    decreases n,
{
    let t = text::dec(n);
    if n < 10 {
        assert(s[0] == s.take(1)[0]);
        assert(digits_from(s, 0, 0, 10, max) == digits_from(s, 1, n, 10, max));
    } else {
        let head = text::dec(n / 10);
        assert(t =~= head.push(text::digit_char((n % 10) as int)));
        assert(s.take(head.len() as int) =~= head) by {
            assert forall|i: int| 0 <= i < head.len() implies s[i] == head[i] by {
                assert(s.take(t.len() as int)[i] == t[i]);
            }
        }
        decimal_prefix(n / 10, s, max);
        assert(s[head.len() as int] == s.take(t.len() as int)[head.len() as int]);
        assert((n / 10) * 10 + n % 10 == n);
    }
}

} // verus!
