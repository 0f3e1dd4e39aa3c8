//! The command line of the differential fuzzer.

use vstd::prelude::*;

use crate::numbers::{self, parse_radix};
use crate::text::{self, cat2, cat4, debug_string, str_eq, text, text_starts_with, chars_of, string_of};

verus! {

/// What a campaign is to run.
#[derive(Debug, PartialEq, Eq)]
pub struct CampaignArgs {
    pub seeds: u64,
    pub time_secs: Option<u64>,
    pub seed_base: u64,
    pub crashers: String,
    pub verbose: bool,
}

/// The content of [`CampaignArgs`].
#[verifier::ext_equal]
pub struct CampaignView {
    pub seeds: nat,
    pub time_secs: Option<nat>,
    pub seed_base: nat,
    pub crashers: Seq<char>,
    pub verbose: bool,
}

impl View for CampaignArgs {
    type V = CampaignView;

    open spec fn view(&self) -> CampaignView {
        CampaignView {
            seeds: self.seeds as nat,
            time_secs: match self.time_secs {
                Some(t) => Some(t as nat),
                None => None,
            },
            seed_base: self.seed_base as nat,
            crashers: self.crashers@,
            verbose: self.verbose,
        }
    }
}

/// A number, in hexadecimal behind `0x`, or why the text is none.
pub open spec fn number_of(s: Seq<char>) -> Result<nat, Seq<char>> {
    if text::begins_with(s, "0x"@) {
        match numbers::parsed(s.skip(2), 16, u64::MAX as nat) {
            Ok(n) => Ok(n),
            Err(e) => Err("bad hex value "@ + text::debug_text(s) + ": "@ + e.spec_text()),
        }
    } else {
        match numbers::parsed(s, 10, u64::MAX as nat) {
            Ok(n) => Ok(n),
            Err(e) => Err("bad value "@ + text::debug_text(s) + ": "@ + e.spec_text()),
        }
    }
}

/// A number, see [`number_of`].
pub fn parse_u64(s: &str) -> (r: Result<u64, String>)
    ensures
        match r {
            Ok(n) => number_of(s@) == Ok::<nat, Seq<char>>(n as nat),
            Err(m) => number_of(s@) == Err::<nat, Seq<char>>(m@),
        },
{
    proof {
        reveal_strlit("0x");
    }
    if text_starts_with(s, "0x") {
        let chars: Vec<char> = chars_of(s);
        let digits: String = string_of(&chars, 2, chars.len());
        assert(digits@ =~= s@.skip(2));
        match parse_radix(digits.as_str(), 16, 0xffff_ffff_ffff_ffff) {
            Ok(n) => Ok(n),
            Err(e) => Err(
                cat4(
                    "bad hex value ",
                    debug_string(s).as_str(),
                    ": ",
                    e.to_string().as_str(),
                ),
            ),
        }
    } else {
        match parse_radix(s, 10, 0xffff_ffff_ffff_ffff) {
            Ok(n) => Ok(n),
            Err(e) => Err(
                cat4("bad value ", debug_string(s).as_str(), ": ", e.to_string().as_str()),
            ),
        }
    }
}

/// What is run where the arguments say nothing.
pub open spec fn campaign_defaults() -> CampaignView {
    CampaignView {
        seeds: 10_000,
        time_secs: None,
        seed_base: 0,
        crashers: "fuzz/differential/crashers"@,
        verbose: true,
    }
}

/// What the arguments from `i` on ask for, after what was read before; `None`
/// where they ask for help.
pub open spec fn campaign_from(args: Seq<Seq<char>>, i: int, c: CampaignView) -> Result<
    Option<CampaignView>,
    Seq<char>,
>
    decreases args.len() - i,
{
    if i >= args.len() {
        Ok(Some(c))
    } else if args[i] == "--seeds"@ || args[i] == "--time"@ || args[i] == "--seed-base"@ {
        if i + 1 >= args.len() {
            Err(args[i] + " requires a value"@)
        } else {
            match number_of(args[i + 1]) {
                Err(m) => Err(m),
                Ok(n) => campaign_from(
                    args,
                    i + 2,
                    if args[i] == "--seeds"@ {
                        CampaignView { seeds: n, ..c }
                    } else if args[i] == "--time"@ {
                        CampaignView { time_secs: Some(n), ..c }
                    } else {
                        CampaignView { seed_base: n, ..c }
                    },
                ),
            }
        }
    } else if args[i] == "--crashers"@ {
        if i + 1 >= args.len() {
            Err(args[i] + " requires a value"@)
        } else {
            campaign_from(args, i + 2, CampaignView { crashers: args[i + 1], ..c })
        }
    } else if args[i] == "--quiet"@ {
        campaign_from(args, i + 1, CampaignView { verbose: false, ..c })
    } else if args[i] == "--help"@ || args[i] == "-h"@ {
        Ok(None)
    } else {
        Err("unknown argument "@ + text::debug_text(args[i]))
    }
}

/// The content of an optional request.
pub open spec fn campaign_view(c: Option<CampaignArgs>) -> Option<CampaignView> {
    match c {
        Some(a) => Some(a@),
        None => None,
    }
}

/// What the arguments ask for, see [`campaign_from`].
pub fn parse_campaign_args(args: &Vec<String>) -> (r: Result<Option<CampaignArgs>, String>)
    ensures
        match r {
            Ok(c) => campaign_from(text::views(args@), 0, campaign_defaults()) == Ok::<
                Option<CampaignView>,
                Seq<char>,
            >(campaign_view(c)),
            Err(m) => campaign_from(text::views(args@), 0, campaign_defaults()) == Err::<
                Option<CampaignView>,
                Seq<char>,
            >(m@),
        },
{
    let ghost all = text::views(args@);
    let ghost goal = campaign_from(all, 0, campaign_defaults());
    let mut c: CampaignArgs = CampaignArgs {
        seeds: 10_000,
        time_secs: None,
        seed_base: 0,
        crashers: text("fuzz/differential/crashers"),
        verbose: true,
    };
    let mut i: usize = 0;
    assert(c@ =~= campaign_defaults());
    while i < args.len()
        invariant
            all == text::views(args@),
            i <= args@.len(),
            goal == campaign_from(all, 0, campaign_defaults()),
            goal == campaign_from(all, i as int, c@),
        decreases args@.len() - i,
    {
        assert(all[i as int] == args@[i as int]@);
        let arg: &str = args[i].as_str();
        let more: bool = args.len() - i >= 2;
        if more {
            assert(all[i + 1] == args@[i + 1]@);
        }
        if str_eq(arg, "--seeds") || str_eq(arg, "--time") || str_eq(arg, "--seed-base") {
            if !more {
                return Err(cat2(arg, " requires a value"));
            }
            match parse_u64(args[i + 1].as_str()) {
                Err(m) => {
                    return Err(m);
                },
                Ok(n) => {
                    if str_eq(arg, "--seeds") {
                        c.seeds = n;
                    } else if str_eq(arg, "--time") {
                        c.time_secs = Some(n);
                    } else {
                        c.seed_base = n;
                    }
                },
            }
            i = i + 2;
        } else if str_eq(arg, "--crashers") {
            if !more {
                return Err(cat2(arg, " requires a value"));
            }
            c.crashers = text(args[i + 1].as_str());
            i = i + 2;
        } else if str_eq(arg, "--quiet") {
            c.verbose = false;
            i = i + 1;
        } else if str_eq(arg, "--help") || str_eq(arg, "-h") {
            return Ok(None);
        } else {
            return Err(cat2("unknown argument ", debug_string(arg).as_str()));
        }
    }
    Ok(Some(c))
}

/// Each option sets what it names and nothing else.
pub proof fn campaign_options_set_what_they_name(
    args: Seq<Seq<char>>,
    i: int,
    c: CampaignView,
    n: nat,
)
    requires
        0 <= i,
        i + 1 < args.len(),
        number_of(args[i + 1]) == Ok::<nat, Seq<char>>(n),
    ensures
        args[i] == "--seeds"@ ==> campaign_from(args, i, c) == campaign_from(
            args,
            i + 2,
            (CampaignView {
                seeds: n,
                time_secs: c.time_secs,
                seed_base: c.seed_base,
                crashers: c.crashers,
                verbose: c.verbose,
            }),
        ),
        args[i] == "--time"@ ==> campaign_from(args, i, c) == campaign_from(
            args,
            i + 2,
            (CampaignView {
                seeds: c.seeds,
                time_secs: Some(n),
                seed_base: c.seed_base,
                crashers: c.crashers,
                verbose: c.verbose,
            }),
        ),
        args[i] == "--seed-base"@ ==> campaign_from(args, i, c) == campaign_from(
            args,
            i + 2,
            (CampaignView {
                seeds: c.seeds,
                time_secs: c.time_secs,
                seed_base: n,
                crashers: c.crashers,
                verbose: c.verbose,
            }),
        ),
        args[i] == "--quiet"@ ==> campaign_from(args, i, c) == campaign_from(
            args,
            i + 1,
            (CampaignView {
                seeds: c.seeds,
                time_secs: c.time_secs,
                seed_base: c.seed_base,
                crashers: c.crashers,
                verbose: false,
            }),
        ),
{
    reveal_strlit("--seeds");
    reveal_strlit("--time");
    reveal_strlit("--seed-base");
    reveal_strlit("--quiet");
    reveal_strlit("--crashers");
    assert("--seeds"@.len() == 7 && "--time"@.len() == 6 && "--seed-base"@.len() == 11
        && "--quiet"@.len() == 7 && "--crashers"@.len() == 10);
    assert("--seeds"@[2] != "--quiet"@[2]);
}

/// A number with the hexadecimal prefix is read by that radix, any other by ten.
pub proof fn numbers_are_read_by_their_prefix(n: nat)
    requires
        n <= u64::MAX,
    ensures
        number_of(text::dec(n)) == Ok::<nat, Seq<char>>(n),
{
    reveal_strlit("0x");
    numbers::decimal_round_trip(n, u64::MAX as nat);
    if text::begins_with(text::dec(n), "0x"@) {
        assert(text::dec(n).subrange(0, 2)[1] == 'x');
        assert(text::dec(n)[1] == 'x');
        decimal_digits_only(n, 1);
    }
}

proof fn decimal_digits_only(n: nat, i: int)
    requires
        0 <= i < text::dec(n).len(),
    ensures
        text::dec(n)[i] != 'x',
    decreases n,
{
    if n >= 10 {
        let front = text::dec(n / 10);
        if i < front.len() {
            decimal_digits_only(n / 10, i);
        }
    }
}

} // verus!
