//! Debugger state and its line protocol.
//!
//! Supported commands:
//!   - `setBreakpoints <file> <line>`, or `breakpoint`: set a breakpoint
//!   - `continue`: resume execution until the next breakpoint
//!   - `next`: step over
//!   - `stepIn`, or `step`: step into
//!   - `breakpoints`: list the breakpoints
//!   - `pause`: pause execution

use crate::numbers::{self, parse_radix};
use crate::text::{self, cat2, cat3, cat4, chars_of, dec_of, find_char, join, str_eq, string_of, text};
use vstd::prelude::*;

verus! {

/// A breakpoint at a specific source location.
#[derive(Debug, Clone, PartialEq, Eq, Hash)]
pub struct Breakpoint {
    pub file: String,
    pub line: u32,
}

/// State of the debugger.
#[derive(Debug, Clone, PartialEq, Eq)]
pub struct DebugState {
    /// Active breakpoints.
    pub breakpoints: Vec<Breakpoint>,
    /// Whether execution is paused.
    pub paused: bool,
    /// Whether to step on the next instruction.
    pub step_next: bool,
    /// Whether to step into on the next instruction.
    pub step_into: bool,
}

/// Breakpoints by file and line.
pub open spec fn places(s: Seq<Breakpoint>) -> Seq<(Seq<char>, u32)> {
    s.map_values(|b: Breakpoint| (b.file@, b.line))
}

/// The places other than one.
pub open spec fn without(s: Seq<(Seq<char>, u32)>, p: (Seq<char>, u32)) -> Seq<(Seq<char>, u32)>
    decreases s.len(),
{
    if s.len() == 0 {
        Seq::empty()
    } else if s.last() == p {
        without(s.drop_last(), p)
    } else {
        without(s.drop_last(), p).push(s.last())
    }
}

/// The places and one more, which is not repeated.
pub open spec fn with_place(s: Seq<(Seq<char>, u32)>, p: (Seq<char>, u32)) -> Seq<
    (Seq<char>, u32),
> {
    if s.contains(p) {
        s
    } else {
        s.push(p)
    }
}

/// The text `file:line` of each place.
pub open spec fn place_texts(s: Seq<(Seq<char>, u32)>) -> Seq<Seq<char>> {
    s.map_values(|p: (Seq<char>, u32)| p.0 + ":"@ + text::dec(p.1 as nat))
}

/// What comes before the first blank.
pub open spec fn first_word(s: Seq<char>) -> Seq<char> {
    s.take(text::first_char_from(s, ' ', 0))
}

/// What comes after the first blank, if there is one.
pub open spec fn after_word(s: Seq<char>) -> Option<Seq<char>> {
    let at = text::first_char_from(s, ' ', 0);
    if at < s.len() {
        Some(s.skip(at + 1))
    } else {
        None
    }
}

/// The line number of a text; zero when it is no number.
pub open spec fn line_number(s: Option<Seq<char>>) -> u32 {
    match s {
        Some(t) => match numbers::parsed(t, 10, u32::MAX as nat) {
            Ok(n) => n as u32,
            Err(_) => 0,
        },
        None => 0,
    }
}

/// The arguments of a command line.
pub open spec fn arguments(msg: Seq<char>) -> Seq<char> {
    match after_word(msg) {
        Some(a) => a,
        None => Seq::empty(),
    }
}

/// Whether a word asks for a breakpoint.
pub open spec fn asks_for_breakpoint(word: Seq<char>) -> bool {
    word == "setBreakpoints"@ || word == "breakpoint"@
}

/// Whether a word asks to step into a call.
pub open spec fn asks_to_step_in(word: Seq<char>) -> bool {
    word == "stepIn"@ || word == "step"@
}

/// Splits a text at its first blank.
fn split_word(s: &str) -> (r: (String, Option<String>))
    ensures
        r.0@ == first_word(s@),
        text::opt_view(r.1) == after_word(s@),
{
    let chars: Vec<char> = chars_of(s);
    let at: usize = find_char(&chars, ' ', 0);
    let word: String = string_of(&chars, 0, at);
    assert(word@ =~= first_word(s@));
    if at < chars.len() {
        let rest: String = string_of(&chars, at + 1, chars.len());
        assert(rest@ =~= s@.skip(at + 1));
        (word, Some(rest))
    } else {
        (word, None)
    }
}

impl DebugState {
    pub fn new() -> (r: Self)
        ensures
            r.breakpoints@.len() == 0,
            !r.paused,
            !r.step_next,
            !r.step_into,
    {
        DebugState { breakpoints: Vec::new(), paused: false, step_next: false, step_into: false }
    }

    fn has(&self, file: &str, line: u32) -> (r: bool)
        ensures
            r == places(self.breakpoints@).contains((file@, line)),
    {
        let ghost all = places(self.breakpoints@);
        let mut i: usize = 0;
        while i < self.breakpoints.len()
            invariant
                i <= self.breakpoints@.len(),
                all == places(self.breakpoints@),
                forall|j: int| 0 <= j < i ==> #[trigger] all[j] != (file@, line),
            decreases self.breakpoints@.len() - i,
        {
            if str_eq(self.breakpoints[i].file.as_str(), file) && self.breakpoints[i].line == line {
                assert(all[i as int] == (file@, line));
                return true;
            }
            assert(all[i as int] != (file@, line));
            i += 1;
        }
        false
    }

    /// Check if we should break at the given file and line.
    pub fn should_break(&self, file: &str, line: u32) -> (r: bool)
        ensures
            r == (self.step_next || self.step_into || places(self.breakpoints@).contains(
                (file@, line),
            )),
    {
        if self.step_next || self.step_into {
            return true;
        }
        self.has(file, line)
    }

    /// Add a breakpoint.
    pub fn add_breakpoint(&mut self, file: &str, line: u32)
        ensures
            places(final(self).breakpoints@) == with_place(
                places(old(self).breakpoints@),
                (file@, line),
            ),
            final(self).paused == old(self).paused,
            final(self).step_next == old(self).step_next,
            final(self).step_into == old(self).step_into,
    {
        if !self.has(file, line) {
            self.breakpoints.push(Breakpoint { file: text(file), line });
            assert(places(self.breakpoints@) =~= places(old(self).breakpoints@).push(
                (file@, line),
            ));
        }
    }

    /// Remove a breakpoint.
    pub fn remove_breakpoint(&mut self, file: &str, line: u32)
        ensures
            places(final(self).breakpoints@) == without(
                places(old(self).breakpoints@),
                (file@, line),
            ),
            final(self).paused == old(self).paused,
            final(self).step_next == old(self).step_next,
            final(self).step_into == old(self).step_into,
    {
        let mut kept: Vec<Breakpoint> = Vec::new();
        let ghost all = places(self.breakpoints@);
        let ghost p = (file@, line);
        let mut i: usize = 0;
        assert(places(kept@) =~= without(all.take(0), p));
        while i < self.breakpoints.len()
            invariant
                i <= self.breakpoints@.len(),
                all == places(self.breakpoints@),
                p == (file@, line),
                places(kept@) == without(all.take(i as int), p),
                *self == *old(self),
            decreases self.breakpoints@.len() - i,
        {
            proof {
                let next = all.take(i + 1);
                assert(next.drop_last() =~= all.take(i as int));
                assert(next.last() == all[i as int]);
            }
            let b: &Breakpoint = &self.breakpoints[i];
            if !str_eq(b.file.as_str(), file) || b.line != line {
                let ghost before = kept@;
                kept.push(Breakpoint { file: b.file.clone(), line: b.line });
                assert(places(kept@) =~= places(before).push(all[i as int]));
            }
            i += 1;
        }
        assert(all.take(i as int) =~= all);
        self.breakpoints = kept;
    }

    /// The response to a message.
    pub open spec fn response(self, msg: Seq<char>) -> Seq<char> {
        let word = first_word(msg);
        let args = arguments(msg);
        if asks_for_breakpoint(word) {
            "ok breakpoint set at "@ + first_word(args) + ":"@ + text::dec(
                line_number(after_word(args)) as nat,
            )
        } else if word == "continue"@ {
            "ok continuing"@
        } else if word == "next"@ {
            "ok stepping over"@
        } else if asks_to_step_in(word) {
            "ok stepping into"@
        } else if word == "breakpoints"@ {
            "breakpoints ["@ + text::joined(place_texts(places(self.breakpoints@)), ", "@) + "]"@
        } else if word == "pause"@ {
            "ok paused"@
        } else {
            "error unknown command: "@ + word
        }
    }

    /// The paused, step-over and step-into flags after a message.
    pub open spec fn flags_after(self, msg: Seq<char>) -> (bool, bool, bool) {
        let word = first_word(msg);
        if asks_for_breakpoint(word) {
            (self.paused, self.step_next, self.step_into)
        } else if word == "continue"@ {
            (false, false, false)
        } else if word == "next"@ {
            (false, true, false)
        } else if asks_to_step_in(word) {
            (false, false, true)
        } else if word == "breakpoints"@ {
            (self.paused, self.step_next, self.step_into)
        } else if word == "pause"@ {
            (true, self.step_next, self.step_into)
        } else {
            (self.paused, self.step_next, self.step_into)
        }
    }

    /// The breakpoints after a message.
    pub open spec fn places_after(self, msg: Seq<char>) -> Seq<(Seq<char>, u32)> {
        if asks_for_breakpoint(first_word(msg)) {
            let args = arguments(msg);
            with_place(
                places(self.breakpoints@),
                (first_word(args), line_number(after_word(args))),
            )
        } else {
            places(self.breakpoints@)
        }
    }

    fn list_breakpoints(&self) -> (r: String)
        ensures
            r@ == text::joined(place_texts(places(self.breakpoints@)), ", "@),
    {
        let mut lines: Vec<String> = Vec::new();
        let ghost want = place_texts(places(self.breakpoints@));
        let mut i: usize = 0;
        assert(text::views(lines@) =~= want.take(0));
        while i < self.breakpoints.len()
            invariant
                i <= self.breakpoints@.len(),
                want == place_texts(places(self.breakpoints@)),
                text::views(lines@) == want.take(i as int),
            decreases self.breakpoints@.len() - i,
        {
            let ghost before = text::views(lines@);
            lines.push(
                cat3(
                    self.breakpoints[i].file.as_str(),
                    ":",
                    dec_of(self.breakpoints[i].line as u64).as_str(),
                ),
            );
            i += 1;
            assert(text::views(lines@) =~= before.push(want[i - 1]));
            assert(text::views(lines@) =~= want.take(i as int));
        }
        assert(want.take(i as int) =~= want);
        join(&lines, ", ")
    }

    /// Handle a single message and return a response.
    pub fn handle_message(&mut self, msg: &str) -> (r: String)
        ensures
            r@ == old(self).response(msg@),
            places(final(self).breakpoints@) == old(self).places_after(msg@),
            (final(self).paused, final(self).step_next, final(self).step_into) == old(
                self,
            ).flags_after(msg@),
    {
        let (word, rest) = split_word(msg);
        if str_eq(word.as_str(), "setBreakpoints") || str_eq(word.as_str(), "breakpoint") {
            let args: String = match rest {
                Some(a) => a,
                None => String::new(),
            };
            assert(args@ =~= arguments(msg@));
            let (file, line_text) = split_word(args.as_str());
            let line: u32 = match line_text {
                Some(t) => match parse_radix(t.as_str(), 10, u32::MAX as u64) {
                    Ok(n) => n as u32,
                    Err(_) => 0,
                },
                None => 0,
            };
            self.add_breakpoint(file.as_str(), line);
            cat4("ok breakpoint set at ", file.as_str(), ":", dec_of(line as u64).as_str())
        } else if str_eq(word.as_str(), "continue") {
            self.paused = false;
            self.step_next = false;
            self.step_into = false;
            text("ok continuing")
        } else if str_eq(word.as_str(), "next") {
            self.paused = false;
            self.step_next = true;
            self.step_into = false;
            text("ok stepping over")
        } else if str_eq(word.as_str(), "stepIn") || str_eq(word.as_str(), "step") {
            self.paused = false;
            self.step_next = false;
            self.step_into = true;
            text("ok stepping into")
        } else if str_eq(word.as_str(), "breakpoints") {
            cat3("breakpoints [", self.list_breakpoints().as_str(), "]")
        } else if str_eq(word.as_str(), "pause") {
            self.paused = true;
            text("ok paused")
        } else {
            cat2("error unknown command: ", word.as_str())
        }
    }
}

/// A removed place is gone, and no other place is lost.
pub proof fn removed_place_is_gone(s: Seq<(Seq<char>, u32)>, p: (Seq<char>, u32))
    ensures
        forall|q: (Seq<char>, u32)| #[trigger]
            without(s, p).contains(q) <==> s.contains(q) && q != p,
    decreases s.len(),
{
    if s.len() > 0 {
        removed_place_is_gone(s.drop_last(), p);
        let w = without(s.drop_last(), p);
        assert forall|q: (Seq<char>, u32)| #[trigger]
            without(s, p).contains(q) <==> s.contains(q) && q != p by {
            if s.drop_last().contains(q) {
                let j = s.drop_last().index_of(q);
                assert(s[j] == q);
                if q != p {
                    assert(w.contains(q));
                    let k = w.index_of(q);
                    assert(w[k] == q);
                    if s.last() != p {
                        assert(without(s, p)[k] == q);
                    }
                }
            }
            if s.contains(q) && !s.drop_last().contains(q) {
                let j = s.index_of(q);
                if j < s.len() - 1 {
                    assert(s.drop_last()[j] == q);
                }
                if s.last() != p {
                    assert(without(s, p)[w.len() as int] == q);
                }
            }
            if without(s, p).contains(q) {
                let k = without(s, p).index_of(q);
                if k < w.len() {
                    assert(w[k] == q);
                    assert(w.contains(q));
                } else {
                    assert(s[s.len() - 1] == q);
                }
            }
        }
    }
}

/// Breakpoints are never repeated, whatever is added or removed.
pub proof fn places_stay_distinct(s: Seq<(Seq<char>, u32)>, p: (Seq<char>, u32))
    requires
        s.no_duplicates(),
    ensures
        with_place(s, p).no_duplicates(),
        without(s, p).no_duplicates(),
    decreases s.len(),
{
    if s.len() > 0 {
        let d = s.drop_last();
        assert(d.no_duplicates());
        places_stay_distinct(d, p);
        removed_place_is_gone(d, p);
        assert(!d.contains(s.last())) by {
            if d.contains(s.last()) {
                let j = d.index_of(s.last());
                assert(s[j] == s[s.len() - 1]);
            }
        }
        let w = without(d, p);
        if s.last() != p {
            assert forall|i: int, j: int| 0 <= i < j < without(s, p).len() implies without(s, p)[i]
                != without(s, p)[j] by {
                if j == w.len() {
                    assert(w.contains(w[i]));
                }
            }
        }
    }
}

proof fn first_space(s: Seq<char>, from: int, n: int)
    requires
        0 <= from <= n < s.len(),
        s[n] == ' ',
        forall|i: int| from <= i < n ==> #[trigger] s[i] != ' ',
    ensures
        text::first_char_from(s, ' ', from) == n,
    decreases n - from,
{
    if from < n {
        first_space(s, from + 1, n);
    }
}

proof fn no_space(s: Seq<char>, from: int)
    requires
        0 <= from <= s.len(),
        forall|i: int| from <= i < s.len() ==> #[trigger] s[i] != ' ',
    ensures
        text::first_char_from(s, ' ', from) >= s.len(),
    decreases s.len() - from,
{
    if from < s.len() {
        no_space(s, from + 1);
    }
}

/// A message is a word, a space and its arguments; without a space it is a word
/// without arguments.
pub proof fn messages_are_words_and_arguments(word: Seq<char>, args: Seq<char>)
    requires
        forall|i: int| 0 <= i < word.len() ==> #[trigger] word[i] != ' ',
    ensures
        first_word(word + seq![' '] + args) == word,
        after_word(word + seq![' '] + args) == Some(args),
        first_word(word) == word,
        after_word(word) is None,
{
    let s = word + seq![' '] + args;
    assert forall|i: int| 0 <= i < word.len() implies #[trigger] s[i] != ' ' by {
        assert(s[i] == word[i]);
    }
    assert(s[word.len() as int] == ' ');
    first_space(s, 0, word.len() as int);
    assert(first_word(s) =~= word);
    assert(s.skip(word.len() as int + 1) =~= args);
    no_space(word, 0);
    first_char_bound(word, 0);
    assert(first_word(word) =~= word);
}

proof fn first_char_bound(s: Seq<char>, from: int)
    requires
        0 <= from <= s.len(),
    ensures
        text::first_char_from(s, ' ', from) <= s.len(),
    decreases s.len() - from,
{
    if from < s.len() {
        first_char_bound(s, from + 1);
    }
}

/// The commands steer the run: to continue clears the pause and every step, to
/// step clears the pause and asks for exactly one kind of step, to pause pauses
/// and keeps the step. Setting a breakpoint adds its place and steers nothing;
/// every other message changes nothing.
pub proof fn commands_steer_the_run(d: DebugState, word: Seq<char>, args: Seq<char>)
    requires
        forall|i: int| 0 <= i < word.len() ==> #[trigger] word[i] != ' ',
    ensures
        ({
            let msg = word + seq![' '] + args;
            let (paused, over, into) = d.flags_after(msg);
            let places_now = places(d.breakpoints@);
            &&& word == "continue"@ ==> !paused && !over && !into
            &&& word == "next"@ ==> !paused && over && !into
            &&& word == "step"@ || word == "stepIn"@ ==> !paused && !over && into
            &&& word == "pause"@ ==> paused && over == d.step_next && into == d.step_into
            &&& word != "continue"@ && word != "next"@ && word != "step"@ && word != "stepIn"@
                && word != "pause"@ ==> paused == d.paused && over == d.step_next && into
                == d.step_into
            &&& word == "breakpoint"@ || word == "setBreakpoints"@ ==> d.places_after(msg).contains(
                (first_word(args), line_number(after_word(args))),
            ) && places_now.is_prefix_of(d.places_after(msg)) && d.places_after(msg).len()
                <= places_now.len() + 1
            &&& word != "breakpoint"@ && word != "setBreakpoints"@ ==> d.places_after(msg)
                == places_now
        }),
{
    messages_are_words_and_arguments(word, args);
    reveal_strlit("continue");
    reveal_strlit("next");
    reveal_strlit("step");
    reveal_strlit("stepIn");
    reveal_strlit("pause");
    reveal_strlit("breakpoint");
    reveal_strlit("breakpoints");
    reveal_strlit("setBreakpoints");
    assert("continue"@.len() == 8 && "next"@.len() == 4 && "step"@.len() == 4 && "stepIn"@.len()
        == 6 && "pause"@.len() == 5);
    assert("breakpoint"@.len() == 10 && "breakpoints"@.len() == 11 && "setBreakpoints"@.len()
        == 14);
    assert("next"@[0] != "step"@[0]);
    let s = places(d.breakpoints@);
    let p = (first_word(args), line_number(after_word(args)));
    let t = with_place(s, p);
    if !s.contains(p) {
        assert(t[s.len() as int] == p);
        assert(t.take(s.len() as int) =~= s);
    }
}

/// The reply tells what was done: a known command is never answered with an
/// error, an unknown one is answered with an error that repeats it.
pub proof fn replies_tell_what_was_done(d: DebugState, word: Seq<char>, args: Seq<char>)
    requires
        forall|i: int| 0 <= i < word.len() ==> #[trigger] word[i] != ' ',
    ensures
        ({
            let reply = d.response(word + seq![' '] + args);
            let known = word == "continue"@ || word == "next"@ || word == "step"@ || word
                == "stepIn"@ || word == "pause"@ || word == "breakpoint"@ || word
                == "setBreakpoints"@ || word == "breakpoints"@;
            &&& reply.len() > 0
            &&& reply[0] == 'e' <==> !known
            &&& !known ==> reply.skip(reply.len() - word.len()) == word
            &&& reply[0] == 'b' <==> word == "breakpoints"@
        }),
{
    messages_are_words_and_arguments(word, args);
    reveal_strlit("continue");
    reveal_strlit("next");
    reveal_strlit("step");
    reveal_strlit("stepIn");
    reveal_strlit("pause");
    reveal_strlit("breakpoint");
    reveal_strlit("breakpoints");
    reveal_strlit("setBreakpoints");
    reveal_strlit("ok breakpoint set at ");
    reveal_strlit("ok continuing");
    reveal_strlit("ok stepping over");
    reveal_strlit("ok stepping into");
    reveal_strlit("ok paused");
    reveal_strlit("breakpoints [");
    reveal_strlit("error unknown command: ");
    assert("continue"@.len() == 8 && "next"@.len() == 4 && "step"@.len() == 4 && "stepIn"@.len()
        == 6 && "pause"@.len() == 5);
    assert("breakpoint"@.len() == 10 && "breakpoints"@.len() == 11 && "setBreakpoints"@.len()
        == 14);
    assert("next"@[0] != "step"@[0]);
    let e = "error unknown command: "@ + word;
    assert(e.skip(e.len() - word.len()) =~= word);
}

} // verus!
