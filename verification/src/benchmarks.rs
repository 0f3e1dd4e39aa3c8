//! The actor benchmarks: the programs that they run, what the programs have to
//! compute, how many messages that takes, and the lines of a report.

use vstd::prelude::*;

use crate::text::{self, cat2, push_dec, text};

verus! {

/// One line for each number below `n`: `a`, the number, `b`, the number again or
/// the next one in a ring of `n`, `c`.
pub open spec fn numbered_lines(
    a: Seq<char>,
    b: Seq<char>,
    c: Seq<char>,
    size: nat,
    step: nat,
    n: nat,
) -> Seq<char>
    decreases n,
{
    if n == 0 {
        Seq::empty()
    } else {
        numbered_lines(a, b, c, size, step, (n - 1) as nat) + a + text::dec((n - 1) as nat) + b
            + text::dec(((n - 1 + step) % size as int) as nat) + c
    }
}

fn push_numbered(out: &mut String, a: &str, b: &str, c: &str, size: u32, step: u32)
    requires
        size > 0,
        step <= 1,
    ensures
        final(out)@ == old(out)@ + numbered_lines(
            a@,
            b@,
            c@,
            size as nat,
            step as nat,
            size as nat,
        ),
{
    let ghost start = out@;
    let mut i: u32 = 0;
    assert(start + numbered_lines(a@, b@, c@, size as nat, step as nat, 0) =~= start);
    while i < size
        invariant
            size > 0,
            step <= 1,
            i <= size,
            out@ == start + numbered_lines(
                a@,
                b@,
                c@,
                size as nat,
                step as nat,
                i as nat,
            ),
        decreases size - i,
    {
        let ghost before = out@;
        let second: u64 = (i as u64 + step as u64) % size as u64;
        out.append(a);
        push_dec(out, i as u64);
        out.append(b);
        push_dec(out, second);
        out.append(c);
        i = i + 1;
        assert(out@ =~= start + numbered_lines(
            a@,
            b@,
            c@,
            size as nat,
            step as nat,
            i as nat,
        ));
    }
}

/// One line for each number below `n`: `a`, the number, `b`.
pub open spec fn lines_of(a: Seq<char>, b: Seq<char>, n: nat) -> Seq<char>
    decreases n,
{
    if n == 0 {
        Seq::empty()
    } else {
        lines_of(a, b, (n - 1) as nat) + a + text::dec((n - 1) as nat) + b
    }
}

fn push_lines(out: &mut String, a: &str, b: &str, n: u32)
    ensures
        final(out)@ == old(out)@ + lines_of(a@, b@, n as nat),
{
    let ghost start = out@;
    let mut i: u32 = 0;
    assert(start + lines_of(a@, b@, 0) =~= start);
    while i < n
        invariant
            i <= n,
            out@ == start + lines_of(a@, b@, i as nat),
        decreases n - i,
    {
        out.append(a);
        push_dec(out, i as u64);
        out.append(b);
        i = i + 1;
        assert(out@ =~= start + lines_of(a@, b@, i as nat));
    }
}

/// The head of the ring program: its actors and the sink.
pub open spec fn ring_head() -> Seq<char> {
    "actor Ring {\n    state next = nil\n    state sink = nil\n    behavior setup(n, s) {\n        self.next = n\n        self.sink = s\n    }\n    behavior token(h, c) {\n        if h > 0 then send self.next token(h - 1, c + 1) else send self.sink done(c)\n    }\n}\nactor Sink {\n    state total = -1\n    behavior done(n) { self.total = n }\n}\nlet s = spawn Sink {} in\n"@
}

/// A token that goes round a ring of actors.
pub open spec fn ring_program(ring: nat) -> Seq<char> {
    ring_head() + lines_of("let r"@, " = spawn Ring {} in\n"@, ring) + "{\n"@ + numbered_lines(
        "send r"@,
        " setup(r"@,
        ", s)\n"@,
        ring,
        1,
        ring,
    ) + "r0\n}\n"@
}

/// A token that goes round a ring of actors, see [`ring_program`].
pub fn thread_ring_source(ring: u32) -> (r: String)
    requires
        ring > 0,
    ensures
        r@ == ring_program(ring as nat),
{
    let mut out: String = text(
        "actor Ring {\n    state next = nil\n    state sink = nil\n    behavior setup(n, s) {\n        self.next = n\n        self.sink = s\n    }\n    behavior token(h, c) {\n        if h > 0 then send self.next token(h - 1, c + 1) else send self.sink done(c)\n    }\n}\nactor Sink {\n    state total = -1\n    behavior done(n) { self.total = n }\n}\nlet s = spawn Sink {} in\n",
    );
    push_lines(&mut out, "let r", " = spawn Ring {} in\n", ring);
    out.append("{\n");
    push_numbered(&mut out, "send r", " setup(r", ", s)\n", ring, 1);
    out.append("r0\n}\n");
    out
}

/// The head of the fan-out program: its workers and the sink.
pub open spec fn fork_head() -> Seq<char> {
    "actor Worker {\n    state count = 0\n    state sink = nil\n    behavior wire_worker(s) { self.sink = s }\n    behavior task(n) {\n        self.count = self.count + 1\n        send self.sink ack()\n    }\n}\nactor Sink {\n    state count = 0\n    behavior ack() { self.count = self.count + 1 }\n}\nlet s = spawn Sink {} in\n"@
}

/// Tasks that go to workers, each of which tells a sink.
pub open spec fn fork_program(workers: nat) -> Seq<char> {
    fork_head() + lines_of("let w"@, " = spawn Worker {} in\n"@, workers) + "{\n"@ + lines_of(
        "send w"@,
        " wire_worker(s)\n"@,
        workers,
    ) + "s\n}\n"@
}

/// Tasks that go to workers, see [`fork_program`].
pub fn fork_join_source(workers: u32) -> (r: String)
    ensures
        r@ == fork_program(workers as nat),
{
    let mut out: String = text(
        "actor Worker {\n    state count = 0\n    state sink = nil\n    behavior wire_worker(s) { self.sink = s }\n    behavior task(n) {\n        self.count = self.count + 1\n        send self.sink ack()\n    }\n}\nactor Sink {\n    state count = 0\n    behavior ack() { self.count = self.count + 1 }\n}\nlet s = spawn Sink {} in\n",
    );
    push_lines(&mut out, "let w", " = spawn Worker {} in\n", workers);
    out.append("{\n");
    push_lines(&mut out, "send w", " wire_worker(s)\n", workers);
    out.append("s\n}\n");
    out
}

/// A tree of actors, each with ten children, that adds up its nodes.
pub open spec fn tree_program() -> Seq<char> {
    "actor Skynet {\n    state parent = nil\n    state remaining = 0\n    state acc = 0\n    state total = 0\n    behavior begin(p, lvl) {\n        self.parent = p\n        self.remaining = 10\n        self.acc = 1\n        if lvl > 0 then {\n"@
        + numbered_lines("let c"@, " = spawn Skynet {} in send c"@, " begin(self, lvl - 1)\n"@, 10, 0, 10)
        + "        } else send self.parent result(1)\n    }\n    behavior result(v) {\n        self.acc = self.acc + v\n        self.remaining = self.remaining - 1\n        if self.remaining == 0 then {\n            if self.parent == nil then { self.total = self.acc } else send self.parent result(self.acc)\n        }\n    }\n}\nspawn Skynet {}\n"@
}

/// A tree of actors, see [`tree_program`].
pub fn skynet_source() -> (r: String)
    ensures
        r@ == tree_program(),
{
    let mut out: String = text(
        "actor Skynet {\n    state parent = nil\n    state remaining = 0\n    state acc = 0\n    state total = 0\n    behavior begin(p, lvl) {\n        self.parent = p\n        self.remaining = 10\n        self.acc = 1\n        if lvl > 0 then {\n",
    );
    push_numbered(
        &mut out,
        "let c",
        " = spawn Skynet {} in send c",
        " begin(self, lvl - 1)\n",
        10,
        0,
    );
    out.append(
        "        } else send self.parent result(1)\n    }\n    behavior result(v) {\n        self.acc = self.acc + v\n        self.remaining = self.remaining - 1\n        if self.remaining == 0 then {\n            if self.parent == nil then { self.total = self.acc } else send self.parent result(self.acc)\n        }\n    }\n}\nspawn Skynet {}\n",
    );
    out
}

/// The number of nodes of a tree with ten children at each inner node.
pub open spec fn tree_nodes(depth: nat) -> nat
    decreases depth,
{
    if depth == 0 {
        1
    } else {
        1 + 10 * tree_nodes((depth - 1) as nat)
    }
}

/// The number of nodes of a tree of at most eighteen levels, see
/// [`tree_nodes`]: what the root has to add up to. Every node but the root sends
/// one message.
pub fn skynet_nodes(depth: u32) -> (r: u64)
    requires
        depth <= 18,
    ensures
        r == tree_nodes(depth as nat),
{
    let mut n: u64 = 1;
    let mut i: u32 = 0;
    proof {
        tree_nodes_closed_form(0);
    }
    while i < depth
        invariant
            depth <= 18,
            i <= depth,
            n == tree_nodes(i as nat),
            9 * n + 1 == ten_to((i + 1) as nat),
        decreases depth - i,
    {
        proof {
            ten_grows((i + 1) as nat, 18);
            assert(ten_to(18) <= 1_000_000_000_000_000_000) by {
                reveal_with_fuel(ten_to, 19);
            }
        }
        n = 1 + 10 * n;
        i = i + 1;
    }
    n
}

/// Ten to the power of `n`.
pub open spec fn ten_to(n: nat) -> nat
    decreases n,
{
    if n == 0 {
        1
    } else {
        10 * ten_to((n - 1) as nat)
    }
}

proof fn ten_grows(a: nat, b: nat)
    requires
        a <= b,
    ensures
        0 < ten_to(a) <= ten_to(b),
    decreases b,
{
    if a < b {
        ten_grows(a, (b - 1) as nat);
    } else if a > 0 {
        ten_grows((a - 1) as nat, (b - 1) as nat);
    }
}

/// The closed form of the number of nodes.
pub proof fn tree_nodes_closed_form(depth: nat)
    ensures
        9 * tree_nodes(depth) + 1 == ten_to(depth + 1),
    decreases depth,
{
    if depth > 0 {
        tree_nodes_closed_form((depth - 1) as nat);
    } else {
        reveal_with_fuel(ten_to, 2);
    }
}

/// The number of messages of an exchange: the first one, and one each way for
/// every round.
pub fn ping_pong_messages(rounds: u32) -> (r: u64)
    ensures
        r == 2 * rounds + 1,
{
    2 * rounds as u64 + 1
}

/// The number of messages of a fan-out: each task and its answer.
pub fn fork_join_messages(tasks: u32) -> (r: u64)
    ensures
        r == 2 * tasks,
{
    2 * tasks as u64
}

/// The program of a warm run: a loop, or a loop of calls.
pub open spec fn warm_program(calls: bool, trips: nat) -> Seq<char> {
    if calls {
        "fn add(x: Int, y: Int) -> Int { x + y }; var sum = 0; var i = 0; while i < "@ + text::dec(
            trips,
        ) + " { sum = add(sum, i); i = i + 1; }; sum"@
    } else {
        "var sum = 0; var i = 0; while i < "@ + text::dec(trips)
            + " { sum = sum + i * 3 - i / 7; i = i + 1; }; sum"@
    }
}

/// The program of a warm run, see [`warm_program`].
pub fn warm_source(calls: bool, trips: u64) -> (r: String)
    ensures
        r@ == warm_program(calls, trips as nat),
{
    let mut out: String = text(
        if calls {
            "fn add(x: Int, y: Int) -> Int { x + y }; var sum = 0; var i = 0; while i < "
        } else {
            "var sum = 0; var i = 0; while i < "
        },
    );
    push_dec(&mut out, trips);
    out.append(
        if calls {
            " { sum = add(sum, i); i = i + 1; }; sum"
        } else {
            " { sum = sum + i * 3 - i / 7; i = i + 1; }; sum"
        },
    );
    out
}

/// Why a warm run does not count.
#[derive(Debug, Clone, Copy, PartialEq, Eq, Structural)]
pub enum WarmFault {
    /// The first run did not give what the interpreter gives.
    WarmUp,
    /// Nothing was compiled on the way.
    NothingCompiled,
    /// A later run did not give what the interpreter gives.
    Warmed,
}

/// Whether a warm run counts: every run gives what the interpreter gives, and
/// something was compiled on the way.
pub fn check_warm_run(expected: i64, warm: i64, compiled: usize, last: Option<i64>) -> (r: Result<
    (),
    WarmFault,
>)
    ensures
        r == (if warm != expected {
            Err(WarmFault::WarmUp)
        } else if compiled == 0 {
            Err(WarmFault::NothingCompiled)
        } else if last != Some(expected) {
            Err(WarmFault::Warmed)
        } else {
            Ok(())
        }),
{
    if warm != expected {
        return Err(WarmFault::WarmUp);
    }
    if compiled == 0 {
        return Err(WarmFault::NothingCompiled);
    }
    match last {
        Some(n) => if n == expected {
            Ok(())
        } else {
            Err(WarmFault::Warmed)
        },
        None => Err(WarmFault::Warmed),
    }
}

/// The line of a benchmark that other runtimes have too.
pub open spec fn cross_line(name: Seq<char>, messages: nat, elapsed_ns: nat) -> Seq<char> {
    "[cross-bench] runtime=nulang benchmark="@ + name + " messages="@ + text::dec(messages)
        + " elapsed_ns="@ + text::dec(elapsed_ns)
}

/// The line of a benchmark that other runtimes have too, see [`cross_line`].
pub fn report_cross(name: &str, messages: u64, elapsed_ns: u64) -> (r: String)
    ensures
        r@ == cross_line(name@, messages as nat, elapsed_ns as nat),
{
    let mut out: String = cat2("[cross-bench] runtime=nulang benchmark=", name);
    out.append(" messages=");
    push_dec(&mut out, messages);
    out.append(" elapsed_ns=");
    push_dec(&mut out, elapsed_ns);
    out
}

/// The line of a comparison within this runtime.
pub open spec fn ab_line(name: Seq<char>, operations: nat, elapsed_ns: nat) -> Seq<char> {
    "[ab-bench] benchmark="@ + name + " operations="@ + text::dec(operations) + " elapsed_ns="@
        + text::dec(elapsed_ns)
}

/// The line of a comparison within this runtime, see [`ab_line`].
pub fn report_ab(name: &str, operations: u64, elapsed_ns: u64) -> (r: String)
    ensures
        r@ == ab_line(name@, operations as nat, elapsed_ns as nat),
{
    let mut out: String = cat2("[ab-bench] benchmark=", name);
    out.append(" operations=");
    push_dec(&mut out, operations);
    out.append(" elapsed_ns=");
    push_dec(&mut out, elapsed_ns);
    out
}

/// Whether a text stands in another.
pub open spec fn stands_in(part: Seq<char>, whole: Seq<char>) -> bool {
    exists|at: int| #[trigger] text::occurs_at(whole, part, at)
}

proof fn parts_stay(part: Seq<char>, a: Seq<char>, b: Seq<char>)
    requires
        stands_in(part, a),
    ensures
        stands_in(part, a + b),
{
    let at = choose|at: int| #[trigger] text::occurs_at(a, part, at);
    assert((a + b).subrange(at, at + part.len()) =~= a.subrange(at, at + part.len()));
    assert(text::occurs_at(a + b, part, at));
}

/// Numbered lines link each number with the one that many steps on, around the
/// circle.
pub proof fn numbered_lines_link_around(
    a: Seq<char>,
    b: Seq<char>,
    c: Seq<char>,
    size: nat,
    step: nat,
    n: nat,
    i: nat,
)
    requires
        i < n,
        size > 0,
    ensures
        stands_in(
            a + text::dec(i) + b + text::dec((i + step) as nat % size) + c,
            numbered_lines(a, b, c, size, step, n),
        ),
    decreases n,
{
    let p = (n - 1) as nat;
    let before = numbered_lines(a, b, c, size, step, p);
    let line = a + text::dec(p) + b + text::dec((p + step) as nat % size) + c;
    let all = numbered_lines(a, b, c, size, step, n);
    assert((n - 1 + step) % size as int == (p + step) as nat % size);
    assert(all =~= before + line);
    if i < p {
        numbered_lines_link_around(a, b, c, size, step, p, i);
        parts_stay(
            a + text::dec(i) + b + text::dec((i + step) as nat % size) + c,
            before,
            line,
        );
    } else {
        assert(all.subrange(before.len() as int, before.len() as int + line.len()) =~= line);
        assert(text::occurs_at(all, line, before.len() as int));
    }
}

/// Each number has its line.
pub proof fn every_number_has_its_line(a: Seq<char>, b: Seq<char>, n: nat, i: nat)
    requires
        i < n,
    ensures
        stands_in(a + text::dec(i) + b, lines_of(a, b, n)),
    decreases n,
{
    let p = (n - 1) as nat;
    let before = lines_of(a, b, p);
    let line = a + text::dec(p) + b;
    let all = lines_of(a, b, n);
    assert(all =~= before + line);
    if i < p {
        every_number_has_its_line(a, b, p, i);
        parts_stay(a + text::dec(i) + b, before, line);
    } else {
        assert(all.subrange(before.len() as int, before.len() as int + line.len()) =~= line);
        assert(text::occurs_at(all, line, before.len() as int));
    }
}

} // verus!
