//! The command line of the cache server and its choice of journal.

use vstd::prelude::*;

use crate::text::{self, cat2, cat3, debug_string, str_eq, text};

verus! {

/// How the cache keeps what it holds.
#[derive(Debug, Clone, Copy, PartialEq, Eq, Structural)]
pub enum CacheDurabilityMode {
    Memory,
    BufferedJournal,
    SyncedJournal,
}

/// What the cache server is to do. The address is checked where it is used.
#[derive(Debug, PartialEq, Eq)]
pub struct CacheArgs {
    pub bind: String,
    pub durability: CacheDurabilityMode,
    pub data_dir: Option<String>,
}

/// The content of [`CacheArgs`].
#[verifier::ext_equal]
pub struct CacheView {
    pub bind: Seq<char>,
    pub durability: CacheDurabilityMode,
    pub data_dir: Option<Seq<char>>,
}

impl View for CacheArgs {
    type V = CacheView;

    open spec fn view(&self) -> CacheView {
        CacheView {
            bind: self.bind@,
            durability: self.durability,
            data_dir: text::opt_view(self.data_dir),
        }
    }
}

/// What holds where the arguments say nothing.
pub open spec fn cache_defaults() -> CacheView {
    CacheView {
        bind: "127.0.0.1:6380"@,
        durability: CacheDurabilityMode::Memory,
        data_dir: None,
    }
}

/// What the arguments from `i` on ask for, after what was read before; `None`
/// where they ask for help. A journal needs a directory.
pub open spec fn cache_from(args: Seq<Seq<char>>, i: int, c: CacheView) -> Result<
    Option<CacheView>,
    Seq<char>,
>
    decreases args.len() - i,
{
    if i >= args.len() {
        if c.durability != CacheDurabilityMode::Memory && c.data_dir is None {
            Err("--data-dir is required for buffered or synced durability"@)
        } else {
            Ok(Some(c))
        }
    } else if args[i] == "--bind"@ {
        if i + 1 >= args.len() {
            Err("--bind requires HOST:PORT"@)
        } else {
            cache_from(args, i + 2, CacheView { bind: args[i + 1], ..c })
        }
    } else if args[i] == "--durability"@ {
        if i + 1 >= args.len() {
            Err("--durability requires memory|buffered|synced"@)
        } else if args[i + 1] == "memory"@ {
            cache_from(args, i + 2, CacheView { durability: CacheDurabilityMode::Memory, ..c })
        } else if args[i + 1] == "buffered"@ {
            cache_from(
                args,
                i + 2,
                CacheView { durability: CacheDurabilityMode::BufferedJournal, ..c },
            )
        } else if args[i + 1] == "synced"@ {
            cache_from(
                args,
                i + 2,
                CacheView { durability: CacheDurabilityMode::SyncedJournal, ..c },
            )
        } else {
            Err(
                "invalid --durability "@ + text::debug_text(args[i + 1])
                    + "; expected memory|buffered|synced"@,
            )
        }
    } else if args[i] == "--data-dir"@ {
        if i + 1 >= args.len() {
            Err("--data-dir requires a path"@)
        } else {
            cache_from(args, i + 2, CacheView { data_dir: Some(args[i + 1]), ..c })
        }
    } else if args[i] == "-h"@ || args[i] == "--help"@ {
        Ok(None)
    } else {
        Err("unknown argument: "@ + args[i])
    }
}

/// The content of an optional request.
pub open spec fn cache_view(c: Option<CacheArgs>) -> Option<CacheView> {
    match c {
        Some(a) => Some(a@),
        None => None,
    }
}

/// What the arguments ask for, see [`cache_from`].
pub fn parse_cache_args(args: &Vec<String>) -> (r: Result<Option<CacheArgs>, String>)
    ensures
        match r {
            Ok(c) => cache_from(text::views(args@), 0, cache_defaults()) == Ok::<
                Option<CacheView>,
                Seq<char>,
            >(cache_view(c)),
            Err(m) => cache_from(text::views(args@), 0, cache_defaults()) == Err::<
                Option<CacheView>,
                Seq<char>,
            >(m@),
        },
{
    let ghost all = text::views(args@);
    let ghost goal = cache_from(all, 0, cache_defaults());
    let mut c: CacheArgs = CacheArgs {
        bind: text("127.0.0.1:6380"),
        durability: CacheDurabilityMode::Memory,
        data_dir: None,
    };
    let mut i: usize = 0;
    assert(c@ =~= cache_defaults());
    while i < args.len()
        invariant
            all == text::views(args@),
            i <= args@.len(),
            goal == cache_from(all, 0, cache_defaults()),
            goal == cache_from(all, i as int, c@),
        decreases args@.len() - i,
    {
        assert(all[i as int] == args@[i as int]@);
        let arg: &str = args[i].as_str();
        let more: bool = args.len() - i >= 2;
        if more {
            assert(all[i + 1] == args@[i + 1]@);
        }
        if str_eq(arg, "--bind") {
            if !more {
                return Err(text("--bind requires HOST:PORT"));
            }
            c.bind = text(args[i + 1].as_str());
            i = i + 2;
        } else if str_eq(arg, "--durability") {
            if !more {
                return Err(text("--durability requires memory|buffered|synced"));
            }
            let value: &str = args[i + 1].as_str();
            if str_eq(value, "memory") {
                c.durability = CacheDurabilityMode::Memory;
            } else if str_eq(value, "buffered") {
                c.durability = CacheDurabilityMode::BufferedJournal;
            } else if str_eq(value, "synced") {
                c.durability = CacheDurabilityMode::SyncedJournal;
            } else {
                return Err(
                    cat3(
                        "invalid --durability ",
                        debug_string(value).as_str(),
                        "; expected memory|buffered|synced",
                    ),
                );
            }
            i = i + 2;
        } else if str_eq(arg, "--data-dir") {
            if !more {
                return Err(text("--data-dir requires a path"));
            }
            c.data_dir = Some(text(args[i + 1].as_str()));
            i = i + 2;
        } else if str_eq(arg, "-h") || str_eq(arg, "--help") {
            return Ok(None);
        } else {
            return Err(cat2("unknown argument: ", arg));
        }
    }
    if c.durability != CacheDurabilityMode::Memory && c.data_dir.is_none() {
        return Err(text("--data-dir is required for buffered or synced durability"));
    }
    Ok(Some(c))
}

/// Whether a new journal has to be begun after recovery: there is none, or the
/// snapshot is newer than its last record, and numbers given from there on would
/// be taken for records that the snapshot already holds.
pub fn needs_new_journal(journal_exists: bool, last_record: u64, snapshot: u64) -> (r: bool)
    ensures
        r == (!journal_exists || last_record < snapshot),
{
    !journal_exists || last_record < snapshot
}

/// A journal is never kept without a directory for it.
pub proof fn journals_have_a_directory(args: Seq<Seq<char>>, i: int, c: CacheView)
    ensures
        cache_from(args, i, c) matches Ok(Some(a)) ==> a.durability == CacheDurabilityMode::Memory
            || a.data_dir is Some,
    decreases args.len() - i,
{
    if i < args.len() {
        if i + 1 < args.len() {
            journals_have_a_directory(args, i + 2, CacheView { bind: args[i + 1], ..c });
            journals_have_a_directory(
                args,
                i + 2,
                CacheView { durability: CacheDurabilityMode::Memory, ..c },
            );
            journals_have_a_directory(
                args,
                i + 2,
                CacheView { durability: CacheDurabilityMode::BufferedJournal, ..c },
            );
            journals_have_a_directory(
                args,
                i + 2,
                CacheView { durability: CacheDurabilityMode::SyncedJournal, ..c },
            );
            journals_have_a_directory(args, i + 2, CacheView { data_dir: Some(args[i + 1]), ..c });
        }
    }
}

/// Each option sets what it names and nothing else, and an unknown one is
/// refused.
pub proof fn cache_options_set_what_they_name(args: Seq<Seq<char>>, i: int, c: CacheView)
    requires
        0 <= i,
        i + 1 < args.len(),
    ensures
        args[i] == "--bind"@ ==> cache_from(args, i, c) == cache_from(
            args,
            i + 2,
            (CacheView { bind: args[i + 1], durability: c.durability, data_dir: c.data_dir }),
        ),
        args[i] == "--data-dir"@ ==> cache_from(args, i, c) == cache_from(
            args,
            i + 2,
            (CacheView { bind: c.bind, durability: c.durability, data_dir: Some(args[i + 1]) }),
        ),
        args[i] == "--durability"@ && args[i + 1] == "synced"@ ==> cache_from(args, i, c)
            == cache_from(
            args,
            i + 2,
            (CacheView {
                bind: c.bind,
                durability: CacheDurabilityMode::SyncedJournal,
                data_dir: c.data_dir,
            }),
        ),
        args[i] == "--durability"@ && args[i + 1] == "buffered"@ ==> cache_from(args, i, c)
            == cache_from(
            args,
            i + 2,
            (CacheView {
                bind: c.bind,
                durability: CacheDurabilityMode::BufferedJournal,
                data_dir: c.data_dir,
            }),
        ),
        args[i] == "--durability"@ && args[i + 1] == "memory"@ ==> cache_from(args, i, c)
            == cache_from(
            args,
            i + 2,
            (CacheView {
                bind: c.bind,
                durability: CacheDurabilityMode::Memory,
                data_dir: c.data_dir,
            }),
        ),
{
    reveal_strlit("--bind");
    reveal_strlit("--durability");
    reveal_strlit("--data-dir");
    reveal_strlit("memory");
    reveal_strlit("buffered");
    reveal_strlit("synced");
    assert("--bind"@.len() == 6 && "--durability"@.len() == 12 && "--data-dir"@.len() == 10);
    assert("memory"@.len() == 6 && "buffered"@.len() == 8 && "synced"@.len() == 6);
    assert("memory"@[0] != "synced"@[0]);
}

} // verus!
