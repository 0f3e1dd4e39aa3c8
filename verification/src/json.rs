//! JSON text.

use crate::text::{self, chars_of, push_dec};
use vstd::prelude::*;

verus! {

/// A JSON document. Numbers keep their kind; one with a fraction is given by
/// its IEEE 754 bits.
#[derive(Debug, PartialEq, Eq)]
pub enum JsonValue {
    Null,
    Bool(bool),
    Int(i64),
    Nat(u64),
    Float(u64),
    Text(String),
    List(Vec<JsonValue>),
    Object(Vec<(String, JsonValue)>),
}

/// Whether a member of an object has this name and value.
pub open spec fn is_member(m: (String, JsonValue), name: Seq<char>, value: JsonValue) -> bool {
    m.0@ == name && m.1 == value
}

/// Whether a member of an object has this name and text.
pub open spec fn is_text_member(m: (String, JsonValue), name: Seq<char>, value: Seq<char>) -> bool {
    m.0@ == name && (m.1 matches JsonValue::Text(t) && t@ == value)
}

/// The JSON string literal of a text.
pub uninterp spec fn json_text(s: Seq<char>) -> Seq<char>;

/// `serde_json::to_string` on a `str`: the quoted and escaped JSON literal.
/// Writing a `str` to memory has no failing case.
#[verifier::external_body]
pub(crate) fn json_string(s: &str) -> (r: String)
    ensures
        r@ == json_text(s@),
{
    serde_json::to_string(s).expect("a text has a JSON literal")
}

/// A named number field.
pub open spec fn number_field(name: Seq<char>, n: nat) -> Seq<char> {
    name + ":"@ + text::dec(n)
}

/// A named text field.
pub open spec fn text_field(name: Seq<char>, s: Seq<char>) -> Seq<char> {
    name + ":"@ + json_text(s)
}

/// Appends a named number field.
pub fn push_number_field(out: &mut String, name: &str, n: u64)
    ensures
        final(out)@ == old(out)@ + number_field(name@, n as nat),
{
    out.append(name);
    out.append(":");
    push_dec(out, n);
    assert(out@ =~= old(out)@ + number_field(name@, n as nat));
}

/// Appends a named text field.
pub fn push_text_field(out: &mut String, name: &str, s: &str)
    ensures
        final(out)@ == old(out)@ + text_field(name@, s@),
{
    out.append(name);
    out.append(":");
    out.append(json_string(s).as_str());
    assert(out@ =~= old(out)@ + text_field(name@, s@));
}

// ---------------------------------------------------------------------------
// Layout
// ---------------------------------------------------------------------------

/// Where a reader of JSON text stands: how many brackets are open, whether it
/// is inside a string literal and behind a backslash there, and whether a
/// bracket was opened just before.
pub struct JsonPlace {
    pub depth: nat,
    pub quoted: bool,
    pub escaped: bool,
    pub fresh: bool,
}

/// The place behind one more character.
pub open spec fn next_place(p: JsonPlace, c: char) -> JsonPlace {
    if p.quoted {
        JsonPlace {
            quoted: p.escaped || c != '"',
            escaped: !p.escaped && c == '\\',
            ..p
        }
    } else if c == '{' || c == '[' {
        JsonPlace { depth: p.depth + 1, fresh: true, ..p }
    } else if c == '}' || c == ']' {
        JsonPlace { depth: outer(p.depth), fresh: false, ..p }
    } else {
        JsonPlace { quoted: c == '"', fresh: false, ..p }
    }
}

/// The depth outside of the innermost open bracket.
pub open spec fn outer(depth: nat) -> nat {
    if depth == 0 {
        0
    } else {
        (depth - 1) as nat
    }
}

/// The place behind the first `n` characters of a text.
pub open spec fn place_after(s: Seq<char>, n: nat) -> JsonPlace
    decreases n,
{
    if n == 0 {
        JsonPlace { depth: 0, quoted: false, escaped: false, fresh: false }
    } else {
        next_place(place_after(s, (n - 1) as nat), s[n - 1])
    }
}

/// A line end and the indent of a line, two blanks for each open bracket.
pub open spec fn line_start(depth: nat) -> Seq<char> {
    seq!['\n'] + Seq::new(2 * depth, |i: int| ' ')
}

/// What is written before a character.
pub open spec fn lead(p: JsonPlace, c: char) -> Seq<char> {
    let closes = c == '}' || c == ']';
    if p.quoted || p.fresh == closes {
        Seq::empty()
    } else if closes {
        line_start(outer(p.depth))
    } else {
        line_start(p.depth)
    }
}

/// What is written behind a character.
pub open spec fn trail(p: JsonPlace, c: char) -> Seq<char> {
    if p.quoted {
        Seq::empty()
    } else if c == ',' {
        line_start(p.depth)
    } else if c == ':' {
        seq![' ']
    } else {
        Seq::empty()
    }
}

/// The first `n` characters of compact JSON laid out in lines: each member and
/// each item stands on a line of its own, empty brackets stay together.
pub open spec fn laid_out(s: Seq<char>, n: nat) -> Seq<char>
    decreases n,
{
    if n == 0 {
        Seq::empty()
    } else {
        let p = place_after(s, (n - 1) as nat);
        let c = s[n - 1];
        laid_out(s, (n - 1) as nat) + lead(p, c) + seq![c] + trail(p, c)
    }
}

/// Compact JSON laid out in lines.
pub open spec fn pretty(s: Seq<char>) -> Seq<char> {
    laid_out(s, s.len())
}

fn push_line_start(out: &mut String, depth: usize)
    ensures
        final(out)@ == old(out)@ + line_start(depth as nat),
{
    let ghost start = out@;
    out.push('\n');
    let mut i: usize = 0;
    assert(out@ =~= start + line_start(0));
    while i < depth
        invariant
            i <= depth,
            out@ == start + line_start(i as nat),
        decreases depth - i,
    {
        out.push(' ');
        out.push(' ');
        i += 1;
        assert(out@ =~= start + line_start(i as nat));
    }
}

/// Lays compact JSON out in lines.
pub fn pretty_json(compact: &str) -> (r: String)
    ensures
        r@ == pretty(compact@),
{
    let chars: Vec<char> = chars_of(compact);
    let mut out: String = String::new();
    let mut depth: usize = 0;
    let mut quoted: bool = false;
    let mut escaped: bool = false;
    let mut fresh: bool = false;
    let mut i: usize = 0;
    assert(out@ =~= laid_out(compact@, 0));
    while i < chars.len()
        invariant
            chars@ == compact@,
            i <= chars@.len(),
            depth <= i,
            out@ == laid_out(compact@, i as nat),
            place_after(compact@, i as nat) == (JsonPlace {
                depth: depth as nat,
                quoted,
                escaped,
                fresh,
            }),
        decreases chars@.len() - i,
    {
        let c: char = chars[i];
        let ghost p = place_after(compact@, i as nat);
        let ghost before = out@;
        let opens: bool = c == '{' || c == '[';
        let closes: bool = c == '}' || c == ']';
        let inner: usize = if closes && depth > 0 {
            depth - 1
        } else {
            depth
        };
        if !quoted && fresh != closes {
            push_line_start(&mut out, inner);
        }
        assert(out@ =~= before + lead(p, c));
        out.push(c);
        if !quoted && c == ',' {
            push_line_start(&mut out, depth);
        } else if !quoted && c == ':' {
            out.push(' ');
        }
        assert(out@ =~= before + lead(p, c) + seq![c] + trail(p, c));
        if quoted {
            quoted = escaped || c != '"';
            escaped = !escaped && c == '\\';
        } else {
            quoted = c == '"';
            fresh = opens;
            depth = if opens {
                depth + 1
            } else {
                inner
            };
        }
        i += 1;
    }
    out
}

/// Whether the end of a text is inside a string literal, and behind a
/// backslash there.
pub open spec fn quote_state(s: Seq<char>) -> (bool, bool)
    decreases s.len(),
{
    if s.len() == 0 {
        (false, false)
    } else {
        let (quoted, escaped) = quote_state(s.drop_last());
        let c = s.last();
        if quoted {
            (escaped || c != '"', !escaped && c == '\\')
        } else {
            (c == '"', false)
        }
    }
}

/// A text without the blanks and line ends outside of its string literals.
pub open spec fn squeezed(s: Seq<char>) -> Seq<char>
    decreases s.len(),
{
    if s.len() == 0 {
        Seq::empty()
    } else {
        let rest = squeezed(s.drop_last());
        let c = s.last();
        if !quote_state(s.drop_last()).0 && (c == ' ' || c == '\n') {
            rest
        } else {
            rest.push(c)
        }
    }
}

proof fn blanks_squeeze_away(s: Seq<char>, blanks: Seq<char>)
    requires
        !quote_state(s).0,
        !quote_state(s).1,
        forall|i: int| 0 <= i < blanks.len() ==> blanks[i] == ' ' || blanks[i] == '\n',
    ensures
        quote_state(s + blanks) == quote_state(s),
        squeezed(s + blanks) == squeezed(s),
    decreases blanks.len(),
{
    if blanks.len() == 0 {
        assert(s + blanks =~= s);
    } else {
        blanks_squeeze_away(s, blanks.drop_last());
        assert((s + blanks).drop_last() =~= s + blanks.drop_last());
        assert((s + blanks).last() == blanks.last());
    }
}

proof fn layout_step_squeezes(s: Seq<char>, n: nat)
    requires
        n <= s.len(),
    ensures
        quote_state(s.take(n as int)) == (place_after(s, n).quoted, place_after(s, n).escaped),
        place_after(s, n).escaped ==> place_after(s, n).quoted,
        quote_state(laid_out(s, n)) == quote_state(s.take(n as int)),
        squeezed(laid_out(s, n)) == squeezed(s.take(n as int)),
    decreases n,
{
    if n == 0 {
        assert(s.take(0) =~= laid_out(s, 0));
    } else {
        let m = (n - 1) as nat;
        layout_step_squeezes(s, m);
        let p = place_after(s, m);
        let c = s[n - 1];
        let start = laid_out(s, m);
        let led = start + lead(p, c);
        if !p.quoted {
            blanks_squeeze_away(start, lead(p, c));
        } else {
            assert(led =~= start);
        }
        let put = led + seq![c];
        assert(put.drop_last() =~= led);
        assert(put.last() == c);
        assert(s.take(n as int).drop_last() =~= s.take(m as int));
        assert(s.take(n as int).last() == c);
        assert(quote_state(put) == quote_state(s.take(n as int)));
        assert(squeezed(put) == squeezed(s.take(n as int)));
        if trail(p, c).len() > 0 {
            blanks_squeeze_away(put, trail(p, c));
        } else {
            assert(put + trail(p, c) =~= put);
        }
    }
}

/// Laying a document out adds blanks and line ends outside of its string
/// literals and changes nothing else.
pub proof fn layout_is_white_space(s: Seq<char>)
    ensures
        squeezed(pretty(s)) == squeezed(s),
{
    layout_step_squeezes(s, s.len());
    assert(s.take(s.len() as int) =~= s);
}

/// Each open bracket indents by two blanks more.
pub proof fn brackets_indent_by_two(depth: nat)
    ensures
        line_start(0) == seq!['\n'],
        line_start(depth + 1) == line_start(depth) + seq![' ', ' '],
{
    assert(line_start(0) =~= seq!['\n']);
    assert(line_start(depth + 1) =~= line_start(depth) + seq![' ', ' ']);
}

} // verus!
