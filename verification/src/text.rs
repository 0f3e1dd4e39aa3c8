//! Text building blocks: exact views of strings, decimal rendering, search and
//! ordered string collections.

use vstd::prelude::*;

verus! {

/// `String::push` appends one character at the end of the string.
pub assume_specification[ std::string::String::push ](s: &mut std::string::String, c: char)
    ensures
        final(s)@ == old(s)@.push(c),
;

/// `str == str` holds exactly when both hold the same characters.
#[verifier::external_body]
pub(crate) fn str_eq(a: &str, b: &str) -> (r: bool)
    ensures
        r == (a@ == b@),
{
    a == b
}

/// The characters of every string of a sequence.
pub open spec fn views(v: Seq<String>) -> Seq<Seq<char>> {
    v.map_values(|s: String| s@)
}

/// The characters of an optional string.
pub open spec fn opt_view(o: Option<String>) -> Option<Seq<char>> {
    match o {
        Some(s) => Some(s@),
        None => None,
    }
}

/// The quoted and escaped form of a text that debug output shows.
pub uninterp spec fn debug_text(s: Seq<char>) -> Seq<char>;

/// The `{:?}` form of a `str`: quoted, with special characters escaped.
#[verifier::external_body]
pub(crate) fn debug_string(s: &str) -> (r: String)
    ensures
        r@ == debug_text(s@),
{
    format!("{:?}", s)
}

/// Owned copy of a string slice.
pub fn text(s: &str) -> (r: String)
    ensures
        r@ == s@,
{
    s.to_owned()
}

/// Concatenation of two pieces of text.
pub fn cat2(a: &str, b: &str) -> (r: String)
    ensures
        r@ == a@ + b@,
{
    let mut out: String = s_new(a);
    out.append(b);
    out
}

/// Concatenation of three pieces of text.
pub fn cat3(a: &str, b: &str, c: &str) -> (r: String)
    ensures
        r@ == a@ + b@ + c@,
{
    let mut out: String = s_new(a);
    out.append(b);
    out.append(c);
    out
}

/// Concatenation of four pieces of text.
pub fn cat4(a: &str, b: &str, c: &str, d: &str) -> (r: String)
    ensures
        r@ == a@ + b@ + c@ + d@,
{
    let mut out: String = cat3(a, b, c);
    out.append(d);
    out
}

/// Concatenation of five pieces of text.
pub fn cat5(a: &str, b: &str, c: &str, d: &str, e: &str) -> (r: String)
    ensures
        r@ == a@ + b@ + c@ + d@ + e@,
{
    let mut out: String = cat4(a, b, c, d);
    out.append(e);
    out
}

fn s_new(a: &str) -> (r: String)
    ensures
        r@ == a@,
{
    a.to_owned()
}

/// The characters of a string as an indexable vector.
pub fn chars_of(s: &str) -> (r: Vec<char>)
    ensures
        r@ == s@,
{
    let mut v: Vec<char> = Vec::new();
    for c in it: s.chars()
        invariant
            it.seq() == s@,
            v@ == s@.take(it.index()),
    {
        v.push(c);
    }
    v
}

/// The string made of a range of characters.
pub fn string_of(v: &Vec<char>, from: usize, to: usize) -> (r: String)
    requires
        from <= to <= v@.len(),
    ensures
        r@ == v@.subrange(from as int, to as int),
{
    let mut out: String = String::new();
    let mut i: usize = from;
    while i < to
        invariant
            from <= i <= to <= v@.len(),
            out@ == v@.subrange(from as int, i as int),
        decreases to - i,
    {
        out.push(v[i]);
        i += 1;
    }
    out
}

/// Copies a vector of strings.
pub fn clone_strings(v: &Vec<String>) -> (r: Vec<String>)
    ensures
        r@ == v@,
{
    let mut out: Vec<String> = Vec::new();
    let mut i: usize = 0;
    while i < v.len()
        invariant
            i <= v@.len(),
            out@ == v@.take(i as int),
        decreases v@.len() - i,
    {
        out.push(v[i].clone());
        i += 1;
    }
    out
}

/// Copies an optional string.
pub fn clone_opt(o: &Option<String>) -> (r: Option<String>)
    ensures
        r == *o,
{
    match o {
        Some(s) => Some(s.clone()),
        None => None,
    }
}

/// Whether two optional strings agree.
pub fn opt_eq(a: &Option<String>, b: &Option<String>) -> (r: bool)
    ensures
        r == (opt_view(*a) == opt_view(*b)),
{
    match (a, b) {
        (Some(x), Some(y)) => str_eq(x.as_str(), y.as_str()),
        (None, None) => true,
        _ => false,
    }
}

/// Whether a vector of strings contains the given text.
pub fn contains_text(v: &Vec<String>, s: &str) -> (r: bool)
    ensures
        r == views(v@).contains(s@),
{
    let mut i: usize = 0;
    while i < v.len()
        invariant
            i <= v@.len(),
            forall|j: int| 0 <= j < i ==> (#[trigger] v@[j])@ != s@,
        decreases v@.len() - i,
    {
        if str_eq(v[i].as_str(), s) {
            assert(views(v@)[i as int] == s@);
            return true;
        }
        i += 1;
    }
    assert forall|j: int| 0 <= j < views(v@).len() implies views(v@)[j] != s@ by {
        assert(v@[j]@ != s@);
    }
    false
}

// ---------------------------------------------------------------------------
// Decimal and hexadecimal rendering
// ---------------------------------------------------------------------------

/// The character of a decimal digit.
pub open spec fn digit_char(d: int) -> char {
    if d == 0 {
        '0'
    } else if d == 1 {
        '1'
    } else if d == 2 {
        '2'
    } else if d == 3 {
        '3'
    } else if d == 4 {
        '4'
    } else if d == 5 {
        '5'
    } else if d == 6 {
        '6'
    } else if d == 7 {
        '7'
    } else if d == 8 {
        '8'
    } else {
        '9'
    }
}

/// Decimal text of a natural number, without leading zeros.
pub open spec fn dec(n: nat) -> Seq<char>
    decreases n,
{
    if n < 10 {
        seq![digit_char(n as int)]
    } else {
        dec(n / 10).push(digit_char((n % 10) as int))
    }
}

/// Decimal text of an integer; negative numbers carry a leading `-`.
pub open spec fn dec_int(n: int) -> Seq<char> {
    if n < 0 {
        seq!['-'] + dec((-n) as nat)
    } else {
        dec(n as nat)
    }
}

fn digit(d: u64) -> (c: char)
    requires
        d < 10,
    ensures
        c == digit_char(d as int),
{
    if d == 0 {
        '0'
    } else if d == 1 {
        '1'
    } else if d == 2 {
        '2'
    } else if d == 3 {
        '3'
    } else if d == 4 {
        '4'
    } else if d == 5 {
        '5'
    } else if d == 6 {
        '6'
    } else if d == 7 {
        '7'
    } else if d == 8 {
        '8'
    } else {
        '9'
    }
}

/// Appends the decimal text of `n`.
pub fn push_dec(out: &mut String, n: u64)
    ensures
        final(out)@ == old(out)@ + dec(n as nat),
    decreases n,
{
    if n >= 10 {
        push_dec(out, n / 10);
    }
    out.push(digit(n % 10));
    assert(out@ =~= old(out)@ + dec(n as nat));
}

/// Decimal text of `n`.
pub fn dec_of(n: u64) -> (r: String)
    ensures
        r@ == dec(n as nat),
{
    let mut out: String = String::new();
    push_dec(&mut out, n);
    assert(out@ =~= dec(n as nat));
    out
}

/// Decimal text of a signed number.
pub fn dec_of_signed(n: i64) -> (r: String)
    ensures
        r@ == dec_int(n as int),
{
    let mut out: String = String::new();
    if n < 0 {
        out.push('-');
        let magnitude: u64 = (-(n + 1)) as u64 + 1;
        push_dec(&mut out, magnitude);
        assert(out@ =~= seq!['-'] + dec((-n) as nat));
    } else {
        push_dec(&mut out, n as u64);
        assert(out@ =~= dec(n as nat));
    }
    out
}

/// Lower-case hexadecimal text of a natural number, without leading zeros.
pub open spec fn hex_num(n: nat) -> Seq<char>
    decreases n,
{
    if n < 16 {
        seq![crate::hashing::hex_char(n as int)]
    } else {
        hex_num(n / 16).push(crate::hashing::hex_char((n % 16) as int))
    }
}

fn hex_digit(d: u64) -> (c: char)
    requires
        d < 16,
    ensures
        c == crate::hashing::hex_char(d as int),
{
    if d == 10 {
        'a'
    } else if d == 11 {
        'b'
    } else if d == 12 {
        'c'
    } else if d == 13 {
        'd'
    } else if d == 14 {
        'e'
    } else if d == 15 {
        'f'
    } else {
        digit(d)
    }
}

/// Appends the hexadecimal text of `n`.
pub fn push_hex(out: &mut String, n: u64)
    ensures
        final(out)@ == old(out)@ + hex_num(n as nat),
    decreases n,
{
    if n >= 16 {
        push_hex(out, n / 16);
    }
    out.push(hex_digit(n % 16));
    assert(out@ =~= old(out)@ + hex_num(n as nat));
}

// ---------------------------------------------------------------------------
// Search
// ---------------------------------------------------------------------------

/// Whether `needle` stands in `hay` at position `at`.
pub open spec fn occurs_at(hay: Seq<char>, needle: Seq<char>, at: int) -> bool {
    0 <= at && at + needle.len() <= hay.len() && hay.subrange(at, at + needle.len()) == needle
}

/// Whether `hay` begins with `needle`.
pub open spec fn begins_with(hay: Seq<char>, needle: Seq<char>) -> bool {
    occurs_at(hay, needle, 0)
}

/// Whether `needle` occurs anywhere in `hay`.
pub open spec fn occurs(hay: Seq<char>, needle: Seq<char>) -> bool {
    exists|at: int| #[trigger] occurs_at(hay, needle, at)
}

/// Whether `needle` stands in `hay` at position `at`.
pub fn matches_at(hay: &Vec<char>, needle: &Vec<char>, at: usize) -> (r: bool)
    ensures
        r == occurs_at(hay@, needle@, at as int),
{
    if at > hay.len() || needle.len() > hay.len() - at {
        return false;
    }
    let n: usize = hay.len();
    let mut i: usize = 0;
    while i < needle.len()
        invariant
            i <= needle@.len(),
            n == hay@.len(),
            at + needle@.len() <= n,
            forall|j: int| 0 <= j < i ==> hay@[at + j] == #[trigger] needle@[j],
        decreases needle@.len() - i,
    {
        if hay[at + i] != needle[i] {
            assert(hay@.subrange(at as int, at + needle@.len())[i as int] != needle@[i as int]);
            return false;
        }
        i += 1;
    }
    assert(hay@.subrange(at as int, at + needle@.len()) =~= needle@);
    true
}

/// Whether `s` begins with `prefix`.
pub fn text_starts_with(s: &str, prefix: &str) -> (r: bool)
    ensures
        r == begins_with(s@, prefix@),
{
    let hay: Vec<char> = chars_of(s);
    let needle: Vec<char> = chars_of(prefix);
    matches_at(&hay, &needle, 0)
}

/// Whether `needle` occurs in `s`.
pub fn text_contains(s: &str, needle: &str) -> (r: bool)
    ensures
        r == occurs(s@, needle@),
{
    let hay: Vec<char> = chars_of(s);
    let pat: Vec<char> = chars_of(needle);
    let mut at: usize = 0;
    loop
        invariant
            hay@ == s@,
            pat@ == needle@,
            at <= hay@.len(),
            forall|k: int| 0 <= k < at ==> !#[trigger] occurs_at(hay@, pat@, k),
        decreases hay@.len() - at,
    {
        if matches_at(&hay, &pat, at) {
            assert(occurs_at(s@, needle@, at as int));
            return true;
        }
        if at == hay.len() {
            assert(forall|k: int| !#[trigger] occurs_at(hay@, pat@, k));
            return false;
        }
        at += 1;
    }
}

/// Position of the first character equal to `c` at or after `from`, or the
/// length when there is none.
pub open spec fn first_char_from(s: Seq<char>, c: char, from: int) -> int
    decreases s.len() - from,
{
    if from < 0 || from >= s.len() {
        s.len() as int
    } else if s[from] == c {
        from
    } else {
        first_char_from(s, c, from + 1)
    }
}

/// Position of the first `c` at or after `from`, or the length.
pub fn find_char(s: &Vec<char>, c: char, from: usize) -> (r: usize)
    requires
        from <= s@.len(),
    ensures
        r == first_char_from(s@, c, from as int),
        from <= r <= s@.len(),
        forall|k: int| from <= k < r ==> s@[k] != c,
        r < s@.len() ==> s@[r as int] == c,
{
    let mut i: usize = from;
    while i < s.len()
        invariant
            from <= i <= s@.len(),
            first_char_from(s@, c, from as int) == first_char_from(s@, c, i as int),
            forall|k: int| from <= k < i ==> s@[k] != c,
        decreases s@.len() - i,
    {
        if s[i] == c {
            return i;
        }
        i += 1;
    }
    i
}

// ---------------------------------------------------------------------------
// White space
// ---------------------------------------------------------------------------

/// The Unicode `White_Space` characters.
pub open spec fn is_white(c: char) -> bool {
    let u = c as u32;
    ||| 0x09 <= u <= 0x0d
    ||| u == 0x20
    ||| u == 0x85
    ||| u == 0xa0
    ||| u == 0x1680
    ||| 0x2000 <= u <= 0x200a
    ||| u == 0x2028
    ||| u == 0x2029
    ||| u == 0x202f
    ||| u == 0x205f
    ||| u == 0x3000
}

/// Whether a text holds nothing but white space.
pub open spec fn is_blank(s: Seq<char>) -> bool {
    forall|i: int| 0 <= i < s.len() ==> is_white(#[trigger] s[i])
}

/// Whether `c` is a Unicode `White_Space` character.
pub fn white(c: char) -> (r: bool)
    ensures
        r == is_white(c),
{
    let u: u32 = c as u32;
    (0x09 <= u && u <= 0x0d) || u == 0x20 || u == 0x85 || u == 0xa0 || u == 0x1680 || (0x2000 <= u
        && u <= 0x200a) || u == 0x2028 || u == 0x2029 || u == 0x202f || u == 0x205f || u == 0x3000
}

/// Whether a text is empty once surrounding white space is removed.
pub fn blank(s: &str) -> (r: bool)
    ensures
        r == is_blank(s@),
{
    for c in it: s.chars()
        invariant
            it.seq() == s@,
            forall|i: int| 0 <= i < it.index() ==> is_white(#[trigger] s@[i]),
    {
        if !white(c) {
            assert(!is_white(s@[it.index()]));
            return false;
        }
    }
    true
}

/// Length of the longest run of white space at the start.
pub open spec fn lead_white(s: Seq<char>) -> nat
    decreases s.len(),
{
    if s.len() == 0 || !is_white(s[0]) {
        0
    } else {
        1 + lead_white(s.skip(1))
    }
}

/// The text without white space at its end.
pub open spec fn end_trimmed(s: Seq<char>) -> Seq<char>
    decreases s.len(),
{
    if s.len() == 0 || !is_white(s.last()) {
        s
    } else {
        end_trimmed(s.drop_last())
    }
}

/// The text without white space around it.
pub open spec fn trimmed(s: Seq<char>) -> Seq<char> {
    end_trimmed(s.skip(lead_white(s) as int))
}

/// The text without white space around it, see [`trimmed`].
pub fn trim(s: &str) -> (r: String)
    ensures
        r@ == trimmed(s@),
{
    let chars: Vec<char> = chars_of(s);
    let mut from: usize = 0;
    assert(s@.skip(0) =~= s@);
    while from < chars.len() && white(chars[from])
        invariant
            chars@ == s@,
            from <= s@.len(),
            lead_white(s@) == from + lead_white(s@.skip(from as int)),
        decreases s@.len() - from,
    {
        assert(s@.skip(from as int).skip(1) =~= s@.skip(from + 1));
        from += 1;
    }
    let mut to: usize = chars.len();
    let ghost tail = s@.skip(from as int);
    assert(s@.subrange(from as int, to as int) =~= tail);
    assert(lead_white(tail) == 0);
    while to > from && white(chars[to - 1])
        invariant
            chars@ == s@,
            from <= to <= s@.len(),
            end_trimmed(tail) == end_trimmed(s@.subrange(from as int, to as int)),
        decreases to,
    {
        let ghost now = s@.subrange(from as int, to as int);
        assert(now.last() == s@[to - 1]);
        assert(now.drop_last() =~= s@.subrange(from as int, to - 1));
        to -= 1;
    }
    string_of(&chars, from, to)
}

/// The pieces of the first `n` characters between separators.
pub open spec fn pieces_upto(s: Seq<char>, sep: char, n: nat) -> Seq<Seq<char>>
    decreases n,
{
    if n == 0 || n > s.len() {
        seq![Seq::empty()]
    } else {
        let before = pieces_upto(s, sep, (n - 1) as nat);
        if s[n - 1] == sep {
            before.push(Seq::empty())
        } else {
            before.drop_last().push(before.last().push(s[n - 1]))
        }
    }
}

/// The pieces of a text between separators.
pub open spec fn pieces(s: Seq<char>, sep: char) -> Seq<Seq<char>> {
    pieces_upto(s, sep, s.len())
}

/// The pieces of a text between separators, see [`pieces`].
pub fn split(s: &str, sep: char) -> (r: Vec<String>)
    ensures
        views(r@) == pieces(s@, sep),
{
    let mut out: Vec<String> = Vec::new();
    let mut cur: String = String::new();
    assert(views(out@).push(cur@) =~= pieces_upto(s@, sep, 0));
    for c in it: s.chars()
        invariant
            it.seq() == s@,
            views(out@).push(cur@) == pieces_upto(s@, sep, it.index() as nat),
    {
        let ghost before = views(out@).push(cur@);
        let ghost done = views(out@);
        assert(before.drop_last() =~= done);
        if c == sep {
            let ghost last = cur@;
            out.push(cur);
            cur = String::new();
            assert(views(out@) =~= done.push(last));
            assert(views(out@).push(cur@) =~= before.push(Seq::empty()));
        } else {
            let ghost last = cur@;
            cur.push(c);
            assert(views(out@).push(cur@) =~= before.drop_last().push(last.push(c)));
        }
    }
    let ghost done = views(out@);
    out.push(cur);
    assert(views(out@) =~= done.push(cur@));
    out
}

/// The first `n` texts without white space around them, but for those that are
/// then empty.
pub open spec fn kept_trimmed(v: Seq<Seq<char>>, n: nat) -> Seq<Seq<char>>
    decreases n,
{
    if n == 0 || n > v.len() {
        Seq::empty()
    } else {
        let before = kept_trimmed(v, (n - 1) as nat);
        if trimmed(v[n - 1]).len() > 0 {
            before.push(trimmed(v[n - 1]))
        } else {
            before
        }
    }
}

/// The entries of a comma-separated list.
pub open spec fn listed(s: Seq<char>) -> Seq<Seq<char>> {
    kept_trimmed(pieces(s, ','), pieces(s, ',').len())
}

/// Appends the entries of a comma-separated list, see [`listed`].
pub fn push_listed(out: &mut Vec<String>, s: &str)
    ensures
        views(final(out)@) == views(old(out)@) + listed(s@),
{
    let parts: Vec<String> = split(s, ',');
    let ghost all = pieces(s@, ',');
    let ghost start = views(out@);
    let mut i: usize = 0;
    assert(start + kept_trimmed(all, 0) =~= start);
    while i < parts.len()
        invariant
            all == views(parts@),
            i <= parts@.len(),
            views(out@) == start + kept_trimmed(all, i as nat),
        decreases parts@.len() - i,
    {
        let ghost before = views(out@);
        assert(all[i as int] == parts@[i as int]@);
        let t: String = trim(parts[i].as_str());
        if t.as_str().unicode_len() > 0 {
            out.push(t);
            assert(views(out@) =~= before.push(t@));
        }
        i += 1;
        assert(views(out@) =~= start + kept_trimmed(all, i as nat));
    }
}

// ---------------------------------------------------------------------------
// Joining
// ---------------------------------------------------------------------------

/// The pieces in order with `sep` between neighbours.
pub open spec fn joined(v: Seq<Seq<char>>, sep: Seq<char>) -> Seq<char>
    decreases v.len(),
{
    if v.len() == 0 {
        Seq::empty()
    } else if v.len() == 1 {
        v[0]
    } else {
        joined(v.drop_last(), sep) + sep + v.last()
    }
}

/// Joins the strings with `sep` between neighbours.
pub fn join(v: &Vec<String>, sep: &str) -> (r: String)
    ensures
        r@ == joined(views(v@), sep@),
{
    let mut out: String = String::new();
    let mut i: usize = 0;
    while i < v.len()
        invariant
            i <= v@.len(),
            out@ == joined(views(v@.take(i as int)), sep@),
        decreases v@.len() - i,
    {
        if i > 0 {
            out.append(sep);
        }
        out.append(v[i].as_str());
        proof {
            let now = views(v@.take(i + 1));
            assert(now.drop_last() =~= views(v@.take(i as int)));
            assert(now.last() == v@[i as int]@);
            if i == 0 {
                assert(out@ =~= now[0]);
            }
        }
        i += 1;
    }
    assert(v@.take(v@.len() as int) =~= v@);
    out
}

/// `n` spaces.
pub open spec fn spaces(n: nat) -> Seq<char> {
    Seq::new(n, |i: int| ' ')
}

/// The text padded with spaces on the right to at least `width` characters.
pub open spec fn padded_right(s: Seq<char>, width: nat) -> Seq<char> {
    if s.len() >= width {
        s
    } else {
        s + spaces((width - s.len()) as nat)
    }
}

/// The text padded with spaces on the left to at least `width` characters.
pub open spec fn padded_left(s: Seq<char>, width: nat) -> Seq<char> {
    if s.len() >= width {
        s
    } else {
        spaces((width - s.len()) as nat) + s
    }
}

fn push_spaces(out: &mut String, n: usize)
    ensures
        final(out)@ == old(out)@ + spaces(n as nat),
{
    let mut i: usize = 0;
    assert(out@ =~= old(out)@ + spaces(0));
    while i < n
        invariant
            i <= n,
            out@ == old(out)@ + spaces(i as nat),
        decreases n - i,
    {
        out.push(' ');
        i += 1;
        assert(out@ =~= old(out)@ + spaces(i as nat));
    }
}

/// Appends the text padded on the right.
pub fn push_padded_right(out: &mut String, s: &str, width: usize)
    ensures
        final(out)@ == old(out)@ + padded_right(s@, width as nat),
{
    let n: usize = s.unicode_len();
    out.append(s);
    if n < width {
        push_spaces(out, width - n);
    }
    assert(out@ =~= old(out)@ + padded_right(s@, width as nat));
}

/// Appends the text padded on the left.
pub fn push_padded_left(out: &mut String, s: &str, width: usize)
    ensures
        final(out)@ == old(out)@ + padded_left(s@, width as nat),
{
    let n: usize = s.unicode_len();
    if n < width {
        push_spaces(out, width - n);
    }
    out.append(s);
    assert(out@ =~= old(out)@ + padded_left(s@, width as nat));
}

// ---------------------------------------------------------------------------
// Ordering
// ---------------------------------------------------------------------------

/// Lexicographic order by code point, which is also the order of the UTF-8
/// bytes.
pub open spec fn lex_lt(a: Seq<char>, b: Seq<char>) -> bool
    decreases a.len(),
{
    if b.len() == 0 {
        false
    } else if a.len() == 0 {
        true
    } else if a[0] != b[0] {
        (a[0] as int) < (b[0] as int)
    } else {
        lex_lt(a.skip(1), b.skip(1))
    }
}

/// No text comes before itself.
pub proof fn lex_irreflexive(a: Seq<char>)
    ensures
        !lex_lt(a, a),
    decreases a.len(),
{
    if a.len() > 0 {
        lex_irreflexive(a.skip(1));
    }
}

/// Two different texts are always ordered.
pub proof fn lex_total(a: Seq<char>, b: Seq<char>)
    ensures
        a == b || lex_lt(a, b) || lex_lt(b, a),
    decreases a.len(),
{
    if a.len() > 0 && b.len() > 0 && a[0] == b[0] {
        lex_total(a.skip(1), b.skip(1));
        if a.skip(1) == b.skip(1) {
            assert(a =~= seq![a[0]] + a.skip(1));
            assert(b =~= seq![b[0]] + b.skip(1));
        }
    } else if a.len() == 0 && b.len() == 0 {
        assert(a =~= b);
    }
}

/// The order of texts is transitive.
pub proof fn lex_transitive(a: Seq<char>, b: Seq<char>, c: Seq<char>)
    requires
        lex_lt(a, b),
        lex_lt(b, c),
    ensures
        lex_lt(a, c),
    decreases a.len(),
{
    if a.len() > 0 && a[0] == b[0] && b[0] == c[0] {
        lex_transitive(a.skip(1), b.skip(1), c.skip(1));
    }
}

/// The code point of a character.
pub fn code_point(c: char) -> (u: u32)
    ensures
        u == c as int,
{
    c as u32
}

/// Whether `a` comes before `b`.
pub fn text_lt(a: &str, b: &str) -> (r: bool)
    ensures
        r == lex_lt(a@, b@),
{
    let x: Vec<char> = chars_of(a);
    let y: Vec<char> = chars_of(b);
    let mut i: usize = 0;
    assert(x@.skip(0) =~= x@);
    assert(y@.skip(0) =~= y@);
    loop
        invariant
            x@ == a@,
            y@ == b@,
            i <= x@.len(),
            i <= y@.len(),
            lex_lt(a@, b@) == lex_lt(x@.skip(i as int), y@.skip(i as int)),
        decreases x@.len() - i,
    {
        if i >= y.len() {
            return false;
        }
        if i >= x.len() {
            return true;
        }
        let p: char = x[i];
        let q: char = y[i];
        if p != q {
            return code_point(p) < code_point(q);
        }
        assert(x@.skip(i as int).skip(1) =~= x@.skip(i + 1));
        assert(y@.skip(i as int).skip(1) =~= y@.skip(i + 1));
        i += 1;
    }
}

/// Whether every text comes strictly before all later ones.
pub open spec fn strictly_sorted(s: Seq<Seq<char>>) -> bool {
    forall|i: int, j: int| 0 <= i < j < s.len() ==> lex_lt(#[trigger] s[i], #[trigger] s[j])
}

/// Two strictly sorted sequences with the same members are equal: an ordered
/// set has one representation.
pub proof fn strictly_sorted_unique(a: Seq<Seq<char>>, b: Seq<Seq<char>>)
    requires
        strictly_sorted(a),
        strictly_sorted(b),
        forall|x: Seq<char>| a.contains(x) == #[trigger] b.contains(x),
    ensures
        a == b,
    decreases a.len() + b.len(),
{
    if a.len() == 0 {
        if b.len() > 0 {
            assert(b.contains(b[0]));
            assert(a.contains(b[0]));
        }
        assert(a =~= b);
    } else if b.len() == 0 {
        assert(a.contains(a[0]));
        assert(b.contains(a[0]));
    } else {
        assert(a.contains(a.last()));
        assert(b.contains(b.last()));
        assert(b.contains(a.last()));
        assert(a.contains(b.last()));
        let i = choose|i: int| 0 <= i < a.len() && a[i] == b.last();
        let j = choose|j: int| 0 <= j < b.len() && b[j] == a.last();
        if a.last() != b.last() {
            assert(lex_lt(a[i], a[a.len() - 1]));
            assert(lex_lt(b[j], b[b.len() - 1]));
            lex_transitive(a.last(), b.last(), a.last());
            lex_irreflexive(a.last());
        }
        let x = a.drop_last();
        let y = b.drop_last();
        assert forall|t: Seq<char>| x.contains(t) == #[trigger] y.contains(t) by {
            lex_irreflexive(a.last());
            assert(b.contains(t) == a.contains(t));
            if x.contains(t) {
                let p = choose|p: int| 0 <= p < x.len() && x[p] == t;
                assert(a[p] == t);
                assert(a.contains(t));
                assert(lex_lt(a[p], a[a.len() - 1]));
                let q = choose|q: int| 0 <= q < b.len() && b[q] == t;
                assert(q != b.len() - 1);
                assert(y[q] == t);
            }
            if y.contains(t) {
                let p = choose|p: int| 0 <= p < y.len() && y[p] == t;
                assert(b[p] == t);
                assert(b.contains(t));
                assert(lex_lt(b[p], b[b.len() - 1]));
                let q = choose|q: int| 0 <= q < a.len() && a[q] == t;
                assert(q != a.len() - 1);
                assert(x[q] == t);
            }
        }
        strictly_sorted_unique(x, y);
        assert(a =~= x.push(a.last()));
        assert(b =~= y.push(b.last()));
    }
}

/// Where `t` belongs in the ordered sequence `s`, looking from `from` on.
pub open spec fn text_slot(s: Seq<Seq<char>>, t: Seq<char>, from: int) -> int
    decreases s.len() - from,
{
    if from < 0 || from >= s.len() || !lex_lt(s[from], t) {
        from
    } else {
        text_slot(s, t, from + 1)
    }
}

proof fn text_slot_bounds(s: Seq<Seq<char>>, t: Seq<char>, from: int)
    requires
        0 <= from <= s.len(),
        forall|j: int| 0 <= j < from ==> lex_lt(#[trigger] s[j], t),
    ensures
        from <= text_slot(s, t, from) <= s.len(),
        forall|j: int| 0 <= j < text_slot(s, t, from) ==> lex_lt(#[trigger] s[j], t),
        text_slot(s, t, from) < s.len() ==> !lex_lt(s[text_slot(s, t, from)], t),
    decreases s.len() - from,
{
    if from < s.len() && lex_lt(s[from], t) {
        text_slot_bounds(s, t, from + 1);
    }
}

proof fn text_insert_keeps_order(before: Seq<Seq<char>>, i: int, t: Seq<char>)
    requires
        strictly_sorted(before),
        0 <= i <= before.len(),
        forall|j: int| 0 <= j < i ==> lex_lt(#[trigger] before[j], t),
        i < before.len() ==> before[i] != t && !lex_lt(before[i], t),
    ensures
        strictly_sorted(before.insert(i, t)),
        forall|x: Seq<char>| #[trigger]
            before.insert(i, t).contains(x) == (before.contains(x) || x == t),
{
    let after = before.insert(i, t);
    if i < before.len() {
        lex_total(before[i], t);
    }
    assert forall|p: int, q: int| 0 <= p < q < after.len() implies lex_lt(
        #[trigger] after[p],
        #[trigger] after[q],
    ) by {
        if p == i {
            if q > i + 1 {
                assert(lex_lt(before[i], before[q - 1]));
                lex_transitive(t, before[i], before[q - 1]);
            }
        } else if p < i && q > i {
            assert(after[q] == before[q - 1]);
            assert(lex_lt(before[p], before[q - 1]));
        } else if p > i {
            assert(lex_lt(before[p - 1], before[q - 1]));
        }
    }
    assert forall|x: Seq<char>| #[trigger]
        after.contains(x) == (before.contains(x) || x == t) by {
        if after.contains(x) {
            let p = choose|p: int| 0 <= p < after.len() && after[p] == x;
            if p < i {
                assert(before[p] == x);
            } else if p > i {
                assert(before[p - 1] == x);
            }
        }
        if before.contains(x) {
            let p = choose|p: int| 0 <= p < before.len() && before[p] == x;
            if p < i {
                assert(after[p] == x);
            } else {
                assert(after[p + 1] == x);
            }
        }
        if x == t {
            assert(after[i] == x);
        }
    }
}

proof fn text_push_contains(prev: Seq<Seq<char>>, t: Seq<char>)
    ensures
        forall|x: Seq<char>| #[trigger] prev.push(t).contains(x) == (prev.contains(x) || x == t),
{
    let next = prev.push(t);
    assert forall|x: Seq<char>| #[trigger] next.contains(x) == (prev.contains(x) || x == t) by {
        if prev.contains(x) {
            let p = choose|p: int| 0 <= p < prev.len() && prev[p] == x;
            assert(next[p] == x);
        }
        if x == t {
            assert(next[prev.len() as int] == x);
        }
        if next.contains(x) {
            let p = choose|p: int| 0 <= p < next.len() && next[p] == x;
            if p < prev.len() {
                assert(prev[p] == x);
            }
        }
    }
}

/// The given items in ascending order, each once.
pub open spec fn sorted_of(v: Seq<Seq<char>>) -> Seq<Seq<char>>
    decreases v.len(),
{
    if v.len() == 0 {
        Seq::empty()
    } else {
        let s = sorted_of(v.drop_last());
        let i = text_slot(s, v.last(), 0);
        if i < s.len() && s[i] == v.last() {
            s
        } else {
            s.insert(i, v.last())
        }
    }
}

/// [`sorted_of`] is ascending and keeps exactly the given items.
pub proof fn sorted_of_holds(v: Seq<Seq<char>>)
    ensures
        is_sorted_set(sorted_of(v), v),
    decreases v.len(),
{
    if v.len() > 0 {
        let s = sorted_of(v.drop_last());
        let t = v.last();
        sorted_of_holds(v.drop_last());
        text_slot_bounds(s, t, 0);
        let i = text_slot(s, t, 0);
        text_push_contains(v.drop_last(), t);
        assert(v =~= v.drop_last().push(t));
        if i < s.len() && s[i] == t {
        } else {
            text_insert_keeps_order(s, i, t);
        }
    }
}

/// Collections with the same members have the same ascending form: order and
/// repetition do not matter.
pub proof fn sorted_of_ignores_order(v: Seq<Seq<char>>, w: Seq<Seq<char>>)
    requires
        forall|x: Seq<char>| v.contains(x) == #[trigger] w.contains(x),
    ensures
        sorted_of(v) == sorted_of(w),
{
    sorted_of_holds(v);
    sorted_of_holds(w);
    let a = sorted_of(v);
    let b = sorted_of(w);
    assert forall|x: Seq<char>| a.contains(x) == #[trigger] b.contains(x) by {
        assert(a.contains(x) == v.contains(x));
        assert(b.contains(x) == w.contains(x));
    }
    strictly_sorted_unique(a, b);
}

/// The strictly sorted sequence that holds exactly the given texts.
pub open spec fn is_sorted_set(r: Seq<Seq<char>>, of: Seq<Seq<char>>) -> bool {
    &&& strictly_sorted(r)
    &&& forall|x: Seq<char>| #[trigger] r.contains(x) == of.contains(x)
}

/// Adds `s` to an ordered set of strings kept as a strictly sorted vector.
pub fn insert_sorted(v: &mut Vec<String>, s: String)
    requires
        strictly_sorted(views(old(v)@)),
    ensures
        strictly_sorted(views(final(v)@)),
        forall|x: Seq<char>| #[trigger]
            views(final(v)@).contains(x) == (views(old(v)@).contains(x) || x == s@),
{
    let ghost before = views(v@);
    let mut i: usize = 0;
    while i < v.len() && text_lt(v[i].as_str(), s.as_str())
        invariant
            i <= v@.len(),
            before == views(v@),
            forall|j: int| 0 <= j < i ==> lex_lt(#[trigger] before[j], s@),
        decreases v@.len() - i,
    {
        i += 1;
    }
    if i < v.len() && str_eq(v[i].as_str(), s.as_str()) {
        assert(before[i as int] == s@);
        return ;
    }
    let ghost t = s@;
    v.insert(i, s);
    proof {
        assert(views(v@) =~= before.insert(i as int, t));
        text_insert_keeps_order(before, i as int, t);
    }
}

/// Sorts strings and drops duplicates.
pub fn sorted_set(v: &Vec<String>) -> (r: Vec<String>)
    ensures
        views(r@) == sorted_of(views(v@)),
        is_sorted_set(views(r@), views(v@)),
{
    let mut out: Vec<String> = Vec::new();
    let mut i: usize = 0;
    while i < v.len()
        invariant
            i <= v@.len(),
            is_sorted_set(views(out@), views(v@.take(i as int))),
        decreases v@.len() - i,
    {
        let ghost prev = views(v@.take(i as int));
        insert_sorted(&mut out, v[i].clone());
        proof {
            let next = views(v@.take(i + 1));
            assert(next =~= prev.push(v@[i as int]@));
            text_push_contains(prev, v@[i as int]@);
        }
        i += 1;
    }
    proof {
        assert(v@.take(v@.len() as int) =~= v@);
        sorted_of_holds(views(v@));
        let a = views(out@);
        let b = sorted_of(views(v@));
        assert forall|x: Seq<char>| a.contains(x) == #[trigger] b.contains(x) by {
            assert(a.contains(x) == views(v@).contains(x));
        }
        strictly_sorted_unique(a, b);
    }
    out
}

// ---------------------------------------------------------------------------
// Laws
// ---------------------------------------------------------------------------

proof fn lead_white_counts(s: Seq<char>)
    ensures
        lead_white(s) <= s.len(),
        forall|i: int| 0 <= i < lead_white(s) ==> is_white(#[trigger] s[i]),
        lead_white(s) < s.len() ==> !is_white(s[lead_white(s) as int]),
    decreases s.len(),
{
    if s.len() > 0 && is_white(s[0]) {
        let rest = s.skip(1);
        lead_white_counts(rest);
        assert forall|i: int| 0 <= i < lead_white(s) implies is_white(#[trigger] s[i]) by {
            if i > 0 {
                assert(rest[i - 1] == s[i]);
            }
        }
        if lead_white(s) < s.len() {
            assert(rest[lead_white(rest) as int] == s[lead_white(s) as int]);
        }
    }
}

proof fn end_trimmed_is_a_front(s: Seq<char>)
    ensures
        end_trimmed(s).len() <= s.len(),
        end_trimmed(s) == s.take(end_trimmed(s).len() as int),
        forall|i: int| end_trimmed(s).len() <= i < s.len() ==> is_white(#[trigger] s[i]),
        end_trimmed(s).len() > 0 ==> !is_white(s[end_trimmed(s).len() - 1]),
    decreases s.len(),
{
    if s.len() > 0 && is_white(s.last()) {
        let rest = s.drop_last();
        end_trimmed_is_a_front(rest);
        let n = end_trimmed(s).len() as int;
        assert(rest.take(n) =~= s.take(n));
        assert forall|i: int| n <= i < s.len() implies is_white(#[trigger] s[i]) by {
            if i < rest.len() {
                assert(rest[i] == s[i]);
            }
        }
        if n > 0 {
            assert(rest[n - 1] == s[n - 1]);
        }
    } else {
        assert(s.take(s.len() as int) =~= s);
    }
}

/// A trimmed text is what stands between the white space at both ends: it begins
/// and ends with something else, and only white space is left out.
pub proof fn trimming_drops_the_white_ends(s: Seq<char>)
    ensures
        exists|a: int, b: int|
            0 <= a <= b <= s.len() && #[trigger] s.subrange(a, b) == trimmed(s) && (forall|i: int|
                0 <= i < s.len() && (i < a || i >= b) ==> is_white(#[trigger] s[i])),
        trimmed(s).len() > 0 ==> !is_white(trimmed(s)[0]) && !is_white(trimmed(s).last()),
{
    let a = lead_white(s) as int;
    lead_white_counts(s);
    let t = s.skip(a);
    end_trimmed_is_a_front(t);
    let n = trimmed(s).len() as int;
    assert(s.subrange(a, a + n) =~= trimmed(s));
    assert forall|i: int| 0 <= i < s.len() && (i < a || i >= a + n) implies is_white(#[trigger] s[i]) by {
        if i >= a {
            assert(t[i - a] == s[i]);
        }
    }
    if n > 0 {
        assert(t[n - 1] == trimmed(s).last());
        assert(t[0] == s[a]);
    }
}

proof fn joined_push(v: Seq<Seq<char>>, last: Seq<char>, sep: Seq<char>)
    requires
        v.len() > 0,
    ensures
        joined(v.push(last), sep) == joined(v, sep) + sep + last,
{
    assert(v.push(last).drop_last() =~= v);
}

proof fn joined_grows_in_the_last(v: Seq<Seq<char>>, c: char, sep: Seq<char>)
    requires
        v.len() > 0,
    ensures
        joined(v.drop_last().push(v.last().push(c)), sep) == joined(v, sep).push(c),
{
    let front = v.drop_last();
    let grown = front.push(v.last().push(c));
    assert(grown.drop_last() =~= front);
    if front.len() > 0 {
        assert(joined(front, sep) + sep + v.last().push(c) =~= (joined(front, sep) + sep
            + v.last()).push(c));
    }
}

/// The pieces of a text, with the separator between them, are the text, and no
/// piece has the separator.
pub proof fn pieces_make_up_the_text(s: Seq<char>, sep: char, n: nat)
    requires
        n <= s.len(),
    ensures
        pieces_upto(s, sep, n).len() > 0,
        joined(pieces_upto(s, sep, n), seq![sep]) == s.take(n as int),
        forall|i: int, k: int|
            0 <= i < pieces_upto(s, sep, n).len() && 0 <= k < pieces_upto(s, sep, n)[i].len()
                ==> #[trigger] pieces_upto(s, sep, n)[i][k] != sep,
    decreases n,
{
    if n > 0 {
        let p = (n - 1) as nat;
        pieces_make_up_the_text(s, sep, p);
        let before = pieces_upto(s, sep, p);
        let now = pieces_upto(s, sep, n);
        assert(s.take(n as int) =~= s.take(p as int).push(s[n - 1]));
        if s[n - 1] == sep {
            joined_push(before, Seq::empty(), seq![sep]);
            assert(s.take(p as int) + seq![sep] + Seq::<char>::empty() =~= s.take(n as int));
            assert forall|i: int, k: int|
                0 <= i < now.len() && 0 <= k < now[i].len() implies #[trigger] now[i][k] != sep by {
                assert(now[i] == before[i]);
            }
        } else {
            joined_grows_in_the_last(before, s[n - 1], seq![sep]);
            assert forall|i: int, k: int|
                0 <= i < now.len() && 0 <= k < now[i].len() implies #[trigger] now[i][k] != sep by {
                if i < now.len() - 1 {
                    assert(now[i] == before[i]);
                } else if k < now[i].len() - 1 {
                    assert(now[i][k] == before[i][k]);
                }
            }
        }
    } else {
        assert(s.take(0) =~= Seq::<char>::empty());
    }
}

/// Padding brings a text to a width without changing it; a longer text stays.
pub proof fn padding_keeps_the_text(s: Seq<char>, width: nat)
    ensures
        padded_right(s, width).len() == (if s.len() < width { width } else { s.len() }),
        padded_left(s, width).len() == padded_right(s, width).len(),
        padded_right(s, width).take(s.len() as int) == s,
        padded_left(s, width).skip(padded_left(s, width).len() - s.len()) == s,
        is_blank(padded_right(s, width).skip(s.len() as int)),
{
    let r = padded_right(s, width);
    let l = padded_left(s, width);
    assert(r.take(s.len() as int) =~= s);
    assert(l.skip(l.len() - s.len()) =~= s);
    assert forall|i: int| 0 <= i < r.skip(s.len() as int).len() implies is_white(
        #[trigger] r.skip(s.len() as int)[i],
    ) by {
        assert(r.skip(s.len() as int)[i] == ' ');
        assert(is_white(' '));
    }
}

} // verus!
