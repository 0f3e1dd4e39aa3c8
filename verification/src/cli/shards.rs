//! The shard counts and the fixed workload of the multicore benchmark.

use vstd::prelude::*;

use crate::numbers::{self, parse_radix};
use crate::text::{self, cat3, split, text, trim};

verus! {

/// The positive numbers of the first `n` pieces in ascending order, or why they
/// are not that.
pub open spec fn counts_of(pieces: Seq<Seq<char>>, n: nat) -> Result<Seq<nat>, Seq<char>>
    decreases n,
{
    if n == 0 || n > pieces.len() {
        Ok(Seq::empty())
    } else {
        match counts_of(pieces, (n - 1) as nat) {
            Err(m) => Err(m),
            Ok(before) => match numbers::parsed(
                text::trimmed(pieces[n - 1]),
                10,
                u32::MAX as nat,
            ) {
                Err(_) => Err("invalid shard count '"@ + text::trimmed(pieces[n - 1]) + "'"@),
                Ok(k) => if k == 0 {
                    Err("shard counts must be positive"@)
                } else if before.len() > 0 && before.last() >= k {
                    Err("shard counts must be unique and ascending"@)
                } else {
                    Ok(before.push(k))
                },
            },
        }
    }
}

proof fn wrong_stays_wrong(pieces: Seq<Seq<char>>, m: nat, n: nat)
    requires
        m <= n <= pieces.len(),
        counts_of(pieces, m) is Err,
    ensures
        counts_of(pieces, n) == counts_of(pieces, m),
    decreases n,
{
    if m < n {
        wrong_stays_wrong(pieces, m, (n - 1) as nat);
    }
}

/// The shard counts of a comma-separated list, see [`counts_of`].
pub fn parse_shards(list: &str) -> (r: Result<Vec<usize>, String>)
    ensures
        match r {
            Ok(v) => counts_of(text::pieces(list@, ','), text::pieces(list@, ',').len()) == Ok::<
                Seq<nat>,
                Seq<char>,
            >(v@.map_values(|k: usize| k as nat)),
            Err(m) => counts_of(text::pieces(list@, ','), text::pieces(list@, ',').len()) == Err::<
                Seq<nat>,
                Seq<char>,
            >(m@),
        },
{
    let parts: Vec<String> = split(list, ',');
    let ghost all = text::pieces(list@, ',');
    let mut out: Vec<usize> = Vec::new();
    let mut i: usize = 0;
    assert(out@.map_values(|k: usize| k as nat) =~= Seq::empty());
    while i < parts.len()
        invariant
            all == text::views(parts@),
            all == text::pieces(list@, ','),
            i <= parts@.len(),
            counts_of(all, i as nat) == Ok::<Seq<nat>, Seq<char>>(
                out@.map_values(|k: usize| k as nat),
            ),
        decreases parts@.len() - i,
    {
        let ghost before = out@.map_values(|k: usize| k as nat);
        assert(all[i as int] == parts@[i as int]@);
        let piece: String = trim(parts[i].as_str());
        let k: u64 = match parse_radix(piece.as_str(), 10, 0xffff_ffff) {
            Ok(k) => k,
            Err(_) => {
                proof {
                    wrong_stays_wrong(all, (i + 1) as nat, all.len());
                }
                return Err(cat3("invalid shard count '", piece.as_str(), "'"));
            },
        };
        if k == 0 {
            proof {
                wrong_stays_wrong(all, (i + 1) as nat, all.len());
            }
            return Err(text("shard counts must be positive"));
        }
        if out.len() > 0 && out[out.len() - 1] as u64 >= k {
            proof {
                assert(before.last() == out@.last() as nat);
                wrong_stays_wrong(all, (i + 1) as nat, all.len());
            }
            return Err(text("shard counts must be unique and ascending"));
        }
        proof {
            if before.len() > 0 {
                assert(before.last() == out@.last() as nat);
            }
        }
        out.push(k as usize);
        i = i + 1;
        assert(out@.map_values(|k: usize| k as nat) =~= before.push(k as nat));
    }
    Ok(out)
}

/// The part of the workload of shard `i`: as even as can be, the first shards
/// take what is left over.
pub open spec fn share_of(messages: nat, shards: nat, i: nat) -> nat {
    messages / shards + (if i < messages % shards {
        1nat
    } else {
        0nat
    })
}

/// The parts of the workload, one for each shard.
pub fn shard_workload(messages: u64, shards: usize) -> (r: Vec<u64>)
    requires
        shards > 0,
    ensures
        r@.len() == shards,
        forall|i: int|
            0 <= i < shards ==> #[trigger] r@[i] as nat == share_of(
                messages as nat,
                shards as nat,
                i as nat,
            ),
{
    let each: u64 = messages / shards as u64;
    let left: u64 = messages % shards as u64;
    let mut out: Vec<u64> = Vec::new();
    let mut i: usize = 0;
    assert(left > 0 ==> each < u64::MAX) by (nonlinear_arith)
        requires
            shards > 0,
            each == messages / shards as u64,
            left == messages % shards as u64,
    ;
    while i < shards
        invariant
            shards > 0,
            each == messages / shards as u64,
            left == messages % shards as u64,
            left > 0 ==> each < u64::MAX,
            i <= shards,
            out@.len() == i,
            forall|j: int|
                0 <= j < i ==> #[trigger] out@[j] as nat == share_of(
                    messages as nat,
                    shards as nat,
                    j as nat,
                ),
        decreases shards - i,
    {
        out.push(
            if (i as u64) < left {
                each + 1
            } else {
                each
            },
        );
        i = i + 1;
    }
    out
}

/// The sum of the first `n` parts.
pub open spec fn shares_sum(messages: nat, shards: nat, n: nat) -> nat
    decreases n,
{
    if n == 0 {
        0
    } else {
        shares_sum(messages, shards, (n - 1) as nat) + share_of(messages, shards, (n - 1) as nat)
    }
}

proof fn partial_sum(messages: nat, shards: nat, n: nat)
    requires
        shards > 0,
    ensures
        shares_sum(messages, shards, n) == n * (messages / shards) + (if n < messages % shards {
            n
        } else {
            messages % shards
        }),
    decreases n,
{
    let q = messages / shards;
    if n > 0 {
        partial_sum(messages, shards, (n - 1) as nat);
        assert(n * q == (n - 1) * q + q) by (nonlinear_arith)
            requires
                n > 0,
        ;
    } else {
        assert(0 * q == 0) by (nonlinear_arith);
    }
}

/// The shards together process exactly the workload.
pub proof fn shards_process_the_whole_workload(messages: nat, shards: nat)
    requires
        shards > 0,
    ensures
        shares_sum(messages, shards, shards) == messages,
{
    partial_sum(messages, shards, shards);
    assert(messages % shards < shards && messages == shards * (messages / shards) + messages
        % shards) by (nonlinear_arith)
        requires
            shards > 0,
    ;
}

/// Accepted shard counts are the given numbers, all positive and ascending.
pub proof fn accepted_counts_ascend(pieces: Seq<Seq<char>>, n: nat)
    requires
        n <= pieces.len(),
    ensures
        counts_of(pieces, n) matches Ok(v) ==> v.len() == n && (forall|i: int|
            0 <= i < n ==> #[trigger] v[i] > 0 && numbers::parsed(
                text::trimmed(pieces[i]),
                10,
                u32::MAX as nat,
            ) == Ok::<nat, numbers::NumberError>(v[i])) && (forall|i: int, j: int|
            0 <= i < j < n ==> #[trigger] v[i] < #[trigger] v[j]),
    decreases n,
{
    if n > 0 {
        let p = (n - 1) as nat;
        accepted_counts_ascend(pieces, p);
        if let Ok(v) = counts_of(pieces, n) {
            let before = counts_of(pieces, p)->Ok_0;
            assert forall|i: int, j: int| 0 <= i < j < n implies #[trigger] v[i] < #[trigger] v[j] by {
                if j == n - 1 {
                    assert(v[i] == before[i]);
                    if i < n - 2 {
                        assert(before[i] < before[n - 2]);
                    }
                    assert(before.last() == before[n - 2]);
                }
            }
        }
    }
}

/// Shards share the work evenly: no two shares differ by more than one, and the
/// earlier ones are not smaller.
pub proof fn shares_are_even(messages: nat, shards: nat, i: nat, j: nat)
    requires
        shards > 0,
        i <= j < shards,
    ensures
        share_of(messages, shards, j) <= share_of(messages, shards, i) <= share_of(
            messages,
            shards,
            j,
        ) + 1,
{
}

} // verus!
