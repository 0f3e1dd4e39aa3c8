//! The command lines of the benchmark programs and the arithmetic of their
//! reports.

use vstd::prelude::*;

use crate::numbers::{self, parse_radix};
use crate::text::{self, cat2, contains_text, str_eq, text};

verus! {

/// How results are shown.
#[derive(Debug, Clone, Copy, PartialEq, Eq, Structural)]
pub enum OutputFormat {
    Human,
    Jsonl,
}

/// What a benchmark program is to run.
#[derive(Debug, PartialEq, Eq)]
pub struct BenchConfig {
    pub format: OutputFormat,
    pub selected: Option<String>,
    pub repeat: u32,
}

/// The content of a [`BenchConfig`].
#[verifier::ext_equal]
pub struct ConfigView {
    pub format: OutputFormat,
    pub selected: Option<Seq<char>>,
    pub repeat: nat,
}

impl View for BenchConfig {
    type V = ConfigView;

    open spec fn view(&self) -> ConfigView {
        ConfigView {
            format: self.format,
            selected: text::opt_view(self.selected),
            repeat: self.repeat as nat,
        }
    }
}

/// What the arguments ask for.
#[derive(Debug, PartialEq, Eq)]
pub enum BenchCommand {
    Run(BenchConfig),
    List,
    Help,
}

/// The content of a [`BenchCommand`].
#[verifier::ext_equal]
pub enum BenchView {
    Run(ConfigView),
    List,
    Help,
}

impl View for BenchCommand {
    type V = BenchView;

    open spec fn view(&self) -> BenchView {
        match self {
            BenchCommand::Run(c) => BenchView::Run(c@),
            BenchCommand::List => BenchView::List,
            BenchCommand::Help => BenchView::Help,
        }
    }
}

/// What the arguments from `i` on ask for, after what was read before. `select`
/// is the flag that names what is to be run.
pub open spec fn bench_from(
    args: Seq<Seq<char>>,
    select: Seq<char>,
    i: int,
    c: ConfigView,
) -> Result<BenchView, Seq<char>>
    decreases args.len() - i,
{
    if i >= args.len() {
        Ok(BenchView::Run(c))
    } else if args[i] == "--format"@ {
        if i + 1 >= args.len() {
            Err("--format requires human or jsonl"@)
        } else if args[i + 1] == "human"@ {
            bench_from(args, select, i + 2, ConfigView { format: OutputFormat::Human, ..c })
        } else if args[i + 1] == "jsonl"@ {
            bench_from(args, select, i + 2, ConfigView { format: OutputFormat::Jsonl, ..c })
        } else {
            Err("unsupported format: "@ + args[i + 1])
        }
    } else if args[i] == select {
        if i + 1 >= args.len() {
            Err(select + " requires a name"@)
        } else {
            bench_from(args, select, i + 2, ConfigView { selected: Some(args[i + 1]), ..c })
        }
    } else if args[i] == "--repeat"@ {
        if i + 1 >= args.len() {
            Err("--repeat requires a positive integer"@)
        } else {
            match numbers::parsed(args[i + 1], 10, u32::MAX as nat) {
                Err(_) => Err("invalid repeat count: "@ + args[i + 1]),
                Ok(n) => if n == 0 {
                    Err("--repeat must be at least 1"@)
                } else {
                    bench_from(args, select, i + 2, ConfigView { repeat: n, ..c })
                },
            }
        }
    } else if args[i] == "--list"@ {
        Ok(BenchView::List)
    } else if args[i] == "-h"@ || args[i] == "--help"@ {
        Ok(BenchView::Help)
    } else {
        Err("unknown argument: "@ + args[i])
    }
}

/// What is run where the arguments say nothing.
pub open spec fn default_config() -> ConfigView {
    ConfigView { format: OutputFormat::Human, selected: None, repeat: 1 }
}

/// What the arguments ask for, see [`bench_from`].
pub fn parse_bench_args(args: &Vec<String>, select: &str) -> (r: Result<BenchCommand, String>)
    ensures
        match r {
            Ok(c) => bench_from(text::views(args@), select@, 0, default_config()) == Ok::<
                BenchView,
                Seq<char>,
            >(c@),
            Err(m) => bench_from(text::views(args@), select@, 0, default_config()) == Err::<
                BenchView,
                Seq<char>,
            >(m@),
        },
{
    let ghost all = text::views(args@);
    let ghost goal = bench_from(all, select@, 0, default_config());
    let mut c: BenchConfig = BenchConfig { format: OutputFormat::Human, selected: None, repeat: 1 };
    let mut i: usize = 0;
    assert(c@ =~= default_config());
    while i < args.len()
        invariant
            all == text::views(args@),
            i <= args@.len(),
            goal == bench_from(all, select@, 0, default_config()),
            goal == bench_from(all, select@, i as int, c@),
        decreases args@.len() - i,
    {
        assert(all[i as int] == args@[i as int]@);
        let arg: &str = args[i].as_str();
        let more: bool = args.len() - i >= 2;
        if more {
            assert(all[i + 1] == args@[i + 1]@);
        }
        if str_eq(arg, "--format") {
            if !more {
                return Err(text("--format requires human or jsonl"));
            }
            let value: &str = args[i + 1].as_str();
            if str_eq(value, "human") {
                c.format = OutputFormat::Human;
            } else if str_eq(value, "jsonl") {
                c.format = OutputFormat::Jsonl;
            } else {
                return Err(cat2("unsupported format: ", value));
            }
            i = i + 2;
        } else if str_eq(arg, select) {
            if !more {
                return Err(cat2(select, " requires a name"));
            }
            c.selected = Some(text(args[i + 1].as_str()));
            i = i + 2;
        } else if str_eq(arg, "--repeat") {
            if !more {
                return Err(text("--repeat requires a positive integer"));
            }
            match parse_radix(args[i + 1].as_str(), 10, 0xffff_ffff) {
                Err(_) => {
                    return Err(cat2("invalid repeat count: ", args[i + 1].as_str()));
                },
                Ok(n) => {
                    if n == 0 {
                        return Err(text("--repeat must be at least 1"));
                    }
                    c.repeat = n as u32;
                },
            }
            i = i + 2;
        } else if str_eq(arg, "--list") {
            return Ok(BenchCommand::List);
        } else if str_eq(arg, "-h") || str_eq(arg, "--help") {
            return Ok(BenchCommand::Help);
        } else {
            return Err(cat2("unknown argument: ", arg));
        }
    }
    Ok(BenchCommand::Run(c))
}

/// Whether a configuration names nothing that is not there.
pub fn is_known(config: &BenchConfig, names: &Vec<String>) -> (r: bool)
    ensures
        r == (config@.selected matches Some(s) ==> text::views(names@).contains(s)),
{
    match &config.selected {
        Some(s) => contains_text(names, s.as_str()),
        None => true,
    }
}

/// Whether a configuration runs what has the given name.
pub fn is_selected(config: &BenchConfig, name: &str) -> (r: bool)
    ensures
        r == (config@.selected matches Some(s) ==> s == name@),
{
    match &config.selected {
        Some(s) => str_eq(s.as_str(), name),
        None => true,
    }
}

/// Counters of a compiler that runs along.
#[derive(Debug, Clone, Copy, PartialEq, Eq, Structural)]
pub struct JitCompileStats {
    pub fast_compiles: u64,
    pub fast_compile_ns: u64,
    pub optimized_compiles: u64,
    pub optimized_compile_ns: u64,
}

/// The difference, but not below zero.
pub open spec fn drop_to(a: u64, b: u64) -> u64 {
    if a < b {
        0
    } else {
        (a - b) as u64
    }
}

fn lowered(a: u64, b: u64) -> (r: u64)
    ensures
        r == drop_to(a, b),
{
    if a < b {
        0
    } else {
        a - b
    }
}

/// What happened between two readings of the counters.
pub fn delta(after: JitCompileStats, before: JitCompileStats) -> (r: JitCompileStats)
    ensures
        r.fast_compiles == drop_to(after.fast_compiles, before.fast_compiles),
        r.fast_compile_ns == drop_to(after.fast_compile_ns, before.fast_compile_ns),
        r.optimized_compiles == drop_to(after.optimized_compiles, before.optimized_compiles),
        r.optimized_compile_ns == drop_to(after.optimized_compile_ns, before.optimized_compile_ns),
{
    JitCompileStats {
        fast_compiles: lowered(after.fast_compiles, before.fast_compiles),
        fast_compile_ns: lowered(after.fast_compile_ns, before.fast_compile_ns),
        optimized_compiles: lowered(after.optimized_compiles, before.optimized_compiles),
        optimized_compile_ns: lowered(after.optimized_compile_ns, before.optimized_compile_ns),
    }
}

/// Each option sets what it names and nothing else; a count of zero and an
/// unknown format are refused.
pub proof fn bench_options_set_what_they_name(
    args: Seq<Seq<char>>,
    select: Seq<char>,
    i: int,
    c: ConfigView,
)
    requires
        0 <= i,
        i + 1 < args.len(),
        select != "--format"@,
        select != "--repeat"@,
    ensures
        args[i] == "--format"@ && args[i + 1] == "human"@ ==> bench_from(args, select, i, c)
            == bench_from(
            args,
            select,
            i + 2,
            (ConfigView { format: OutputFormat::Human, selected: c.selected, repeat: c.repeat }),
        ),
        args[i] == "--format"@ && args[i + 1] == "jsonl"@ ==> bench_from(args, select, i, c)
            == bench_from(
            args,
            select,
            i + 2,
            (ConfigView { format: OutputFormat::Jsonl, selected: c.selected, repeat: c.repeat }),
        ),
        args[i] == "--format"@ && args[i + 1] != "human"@ && args[i + 1] != "jsonl"@
            ==> bench_from(args, select, i, c) is Err,
        args[i] == select ==> bench_from(args, select, i, c) == bench_from(
            args,
            select,
            i + 2,
            (ConfigView { format: c.format, selected: Some(args[i + 1]), repeat: c.repeat }),
        ),
        args[i] == "--repeat"@ ==> match numbers::parsed(args[i + 1], 10, u32::MAX as nat) {
            Ok(n) => if n > 0 {
                bench_from(args, select, i, c) == bench_from(
                    args,
                    select,
                    i + 2,
                    (ConfigView { format: c.format, selected: c.selected, repeat: n }),
                )
            } else {
                bench_from(args, select, i, c) is Err
            },
            Err(_) => bench_from(args, select, i, c) is Err,
        },
{
    reveal_strlit("--format");
    reveal_strlit("--repeat");
    reveal_strlit("human");
    reveal_strlit("jsonl");
    assert("--format"@[2] != "--repeat"@[2]);
    assert("human"@[0] != "jsonl"@[0]);
}

/// A difference that would fall below zero is zero.
pub proof fn differences_stop_at_zero(a: u64, b: u64)
    ensures
        a >= b ==> drop_to(a, b) + b == a,
        a <= b ==> drop_to(a, b) == 0,
{
}

} // verus!
