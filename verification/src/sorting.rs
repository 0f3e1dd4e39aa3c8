//! Stable sorting and ordered sets, stated for any order.

use vstd::prelude::*;

verus! {

/// Whether `lt` orders like a comparison of keys.
pub open spec fn key_order<T>(lt: spec_fn(T, T) -> bool) -> bool {
    &&& forall|a: T| !#[trigger] lt(a, a)
    &&& forall|a: T, b: T, c: T| #[trigger] lt(a, b) && #[trigger] lt(b, c) ==> lt(a, c)
    &&& forall|a: T, b: T, c: T| !#[trigger] lt(a, b) && !#[trigger] lt(b, c) ==> !lt(a, c)
}

/// Whether `lt` tells any two values apart.
pub open spec fn total_order<T>(lt: spec_fn(T, T) -> bool) -> bool {
    &&& key_order(lt)
    &&& forall|a: T, b: T| !#[trigger] lt(a, b) && !lt(b, a) ==> a == b
}

/// The first position at or after `from` whose value is above `x`.
pub open spec fn slot_after<T>(s: Seq<T>, x: T, lt: spec_fn(T, T) -> bool, from: int) -> int
    decreases s.len() - from,
{
    if from < 0 || from >= s.len() || lt(x, s[from]) {
        from
    } else {
        slot_after(s, x, lt, from + 1)
    }
}

/// Whether no value is above a later one.
pub open spec fn is_ordered<T>(s: Seq<T>, lt: spec_fn(T, T) -> bool) -> bool {
    forall|i: int, j: int| 0 <= i < j < s.len() ==> !lt(#[trigger] s[j], #[trigger] s[i])
}

/// Whether every value is below every later one.
pub open spec fn is_strict<T>(s: Seq<T>, lt: spec_fn(T, T) -> bool) -> bool {
    forall|i: int, j: int| 0 <= i < j < s.len() ==> lt(#[trigger] s[i], #[trigger] s[j])
}

/// The stable sort: values of equal keys keep their order.
pub open spec fn stable_sorted<T>(s: Seq<T>, lt: spec_fn(T, T) -> bool) -> Seq<T>
    decreases s.len(),
{
    if s.len() == 0 {
        Seq::empty()
    } else {
        let t = stable_sorted(s.drop_last(), lt);
        t.insert(slot_after(t, s.last(), lt, 0), s.last())
    }
}

/// The values in ascending order, each once.
pub open spec fn ordered_set<T>(s: Seq<T>, lt: spec_fn(T, T) -> bool) -> Seq<T>
    decreases s.len(),
{
    if s.len() == 0 {
        Seq::empty()
    } else {
        let t = ordered_set(s.drop_last(), lt);
        if t.contains(s.last()) {
            t
        } else {
            t.insert(slot_after(t, s.last(), lt, 0), s.last())
        }
    }
}

pub proof fn slot_bounds<T>(s: Seq<T>, x: T, lt: spec_fn(T, T) -> bool, from: int)
    requires
        0 <= from <= s.len(),
        forall|j: int| 0 <= j < from ==> !lt(x, #[trigger] s[j]),
    ensures
        from <= slot_after(s, x, lt, from) <= s.len(),
        forall|j: int| 0 <= j < slot_after(s, x, lt, from) ==> !lt(x, #[trigger] s[j]),
        slot_after(s, x, lt, from) < s.len() ==> lt(x, s[slot_after(s, x, lt, from)]),
    decreases s.len() - from,
{
    if from < s.len() && !lt(x, s[from]) {
        slot_bounds(s, x, lt, from + 1);
    }
}

/// The slot of a value above every value is the end.
proof fn slot_at_end<T>(s: Seq<T>, x: T, lt: spec_fn(T, T) -> bool, from: int)
    requires
        0 <= from <= s.len(),
        forall|j: int| 0 <= j < s.len() ==> !lt(x, #[trigger] s[j]),
    ensures
        slot_after(s, x, lt, from) == s.len(),
    decreases s.len() - from,
{
    if from < s.len() {
        slot_at_end(s, x, lt, from + 1);
    }
}

proof fn insert_keeps_order<T>(s: Seq<T>, x: T, lt: spec_fn(T, T) -> bool)
    requires
        key_order(lt),
        is_ordered(s, lt),
    ensures
        is_ordered(s.insert(slot_after(s, x, lt, 0), x), lt),
        is_strict(s, lt) && (forall|j: int| 0 <= j < s.len() ==> lt(#[trigger] s[j], x) || lt(
            x,
            s[j],
        )) ==> is_strict(s.insert(slot_after(s, x, lt, 0), x), lt),
        0 <= slot_after(s, x, lt, 0) <= s.len(),
{
    slot_bounds(s, x, lt, 0);
    let k = slot_after(s, x, lt, 0);
    let r = s.insert(k, x);
    assert forall|i: int| k <= i < s.len() implies !lt(#[trigger] s[i], x) && lt(x, s[i]) by {
        if k < i {
            assert(!lt(s[i], s[k]));
            if !lt(x, s[i]) {
                assert(!lt(x, s[k]));
            }
        }
        if lt(s[i], x) {
            assert(lt(s[i], s[i]));
        }
    }
    assert forall|i: int, j: int| 0 <= i < j < r.len() implies !lt(#[trigger] r[j], #[trigger] r[i]) by {
        if j < k {
            assert(!lt(s[j], s[i]));
        } else if j == k {
            assert(r[i] == s[i]);
        } else if i < k {
            assert(r[j] == s[j - 1]);
            assert(!lt(s[j - 1], s[i]));
        } else if i == k {
            assert(r[j] == s[j - 1]);
        } else {
            assert(r[j] == s[j - 1]);
            assert(r[i] == s[i - 1]);
        }
    }
    if is_strict(s, lt) && (forall|j: int|
        0 <= j < s.len() ==> lt(#[trigger] s[j], x) || lt(x, s[j])) {
        assert forall|i: int, j: int| 0 <= i < j < r.len() implies lt(
            #[trigger] r[i],
            #[trigger] r[j],
        ) by {
            if j < k {
                assert(lt(s[i], s[j]));
            } else if j == k {
                assert(r[i] == s[i]);
                assert(!lt(x, s[i]));
            } else if i < k {
                assert(r[j] == s[j - 1]);
                assert(lt(s[i], s[j - 1]));
            } else if i == k {
                assert(r[j] == s[j - 1]);
            } else {
                assert(r[j] == s[j - 1]);
                assert(r[i] == s[i - 1]);
            }
        }
    }
}

/// Sorting orders the values and neither adds nor loses one.
pub proof fn stable_sorted_holds<T>(s: Seq<T>, lt: spec_fn(T, T) -> bool)
    requires
        key_order(lt),
    ensures
        is_ordered(stable_sorted(s, lt), lt),
        stable_sorted(s, lt).to_multiset() == s.to_multiset(),
        stable_sorted(s, lt).len() == s.len(),
    decreases s.len(),
{
    broadcast use vstd::seq_lib::group_to_multiset_ensures;

    if s.len() == 0 {
        assert(stable_sorted(s, lt) =~= s);
    } else {
        let d = s.drop_last();
        let t = stable_sorted(d, lt);
        stable_sorted_holds(d, lt);
        insert_keeps_order(t, s.last(), lt);
        let k = slot_after(t, s.last(), lt, 0);
        assert(s =~= d.push(s.last()));
        assert(s.to_multiset() =~= d.to_multiset().insert(s.last()));
        assert(t.insert(k, s.last()).to_multiset() =~= t.to_multiset().insert(s.last()));
    }
}

/// Sorting leaves what is in order as it is.
pub proof fn stable_sorted_fixed<T>(s: Seq<T>, lt: spec_fn(T, T) -> bool)
    requires
        is_ordered(s, lt),
    ensures
        stable_sorted(s, lt) == s,
    decreases s.len(),
{
    if s.len() == 0 {
        assert(stable_sorted(s, lt) =~= s);
    } else {
        let d = s.drop_last();
        assert(is_ordered(d, lt)) by {
            assert forall|i: int, j: int| 0 <= i < j < d.len() implies !lt(
                #[trigger] d[j],
                #[trigger] d[i],
            ) by {
                assert(!lt(s[j], s[i]));
            }
        }
        stable_sorted_fixed(d, lt);
        assert forall|j: int| 0 <= j < d.len() implies !lt(s.last(), #[trigger] d[j]) by {
            assert(!lt(s[s.len() - 1], s[j]));
        }
        slot_at_end(d, s.last(), lt, 0);
        assert(d.insert(d.len() as int, s.last()) =~= s);
    }
}

/// The ordered set is strictly ascending and has exactly the given values.
pub proof fn ordered_set_holds<T>(s: Seq<T>, lt: spec_fn(T, T) -> bool)
    requires
        total_order(lt),
    ensures
        is_strict(ordered_set(s, lt), lt),
        forall|x: T| #[trigger] ordered_set(s, lt).contains(x) <==> s.contains(x),
    decreases s.len(),
{
    if s.len() > 0 {
        let d = s.drop_last();
        let t = ordered_set(d, lt);
        let x = s.last();
        ordered_set_holds(d, lt);
        let r = ordered_set(s, lt);
        strict_is_ordered(t, lt);
        if !t.contains(x) {
            assert forall|j: int| 0 <= j < t.len() implies lt(#[trigger] t[j], x) || lt(x, t[j]) by {
                if !lt(t[j], x) && !lt(x, t[j]) {
                    assert(t[j] == x);
                }
            }
            insert_keeps_order(t, x, lt);
        }
        let k = slot_after(t, x, lt, 0);
        assert forall|y: T| #[trigger] r.contains(y) <==> s.contains(y) by {
            assert(t.contains(y) <==> d.contains(y));
            if s.contains(y) {
                let i = s.index_of(y);
                if i < d.len() {
                    assert(d[i] == y);
                }
            }
            if d.contains(y) {
                let i = d.index_of(y);
                assert(s[i] == y);
            }
            if y == x {
                assert(s[s.len() - 1] == y);
            }
            if !t.contains(x) {
                if t.contains(y) {
                    let i = t.index_of(y);
                    assert(t[i] == y);
                    assert(r[if i < k {
                        i
                    } else {
                        i + 1
                    }] == y);
                }
                if y == x {
                    assert(r[k] == y);
                }
                if r.contains(y) {
                    let i = r.index_of(y);
                    assert(r[i] == y);
                    if i < k {
                        assert(t[i] == y);
                    } else if i > k {
                        assert(t[i - 1] == y);
                    }
                }
            }
        }
    }
}

pub proof fn strict_is_ordered<T>(s: Seq<T>, lt: spec_fn(T, T) -> bool)
    requires
        key_order(lt),
        is_strict(s, lt),
    ensures
        is_ordered(s, lt),
{
    assert forall|i: int, j: int| 0 <= i < j < s.len() implies !lt(#[trigger] s[j], #[trigger] s[i]) by {
        assert(lt(s[i], s[j]));
        if lt(s[j], s[i]) {
            assert(lt(s[i], s[i]));
        }
    }
}

/// Strictly ascending sequences with the same values are the same.
pub proof fn strict_unique<T>(a: Seq<T>, b: Seq<T>, lt: spec_fn(T, T) -> bool)
    requires
        key_order(lt),
        is_strict(a, lt),
        is_strict(b, lt),
        forall|x: T| a.contains(x) <==> #[trigger] b.contains(x),
    ensures
        a == b,
    decreases a.len() + b.len(),
{
    if a.len() == 0 {
        if b.len() > 0 {
            assert(b.contains(b[0]));
        }
        assert(a =~= b);
    } else if b.len() == 0 {
        assert(a.contains(a[0]));
        assert(b.contains(a[0]));
    } else {
        let x = a.last();
        let y = b.last();
        assert(a.contains(x));
        assert(b.contains(y));
        assert(b.contains(x));
        assert(a.contains(y));
        let i = a.index_of(y);
        let j = b.index_of(x);
        assert(a[i] == y);
        assert(b[j] == x);
        if x != y {
            assert(lt(a[i], a[a.len() - 1]));
            assert(lt(b[j], b[b.len() - 1]));
            assert(lt(x, x));
        }
        let p = a.drop_last();
        let q = b.drop_last();
        assert forall|z: T| p.contains(z) <==> #[trigger] q.contains(z) by {
            assert(a.contains(z) <==> b.contains(z));
            if p.contains(z) {
                let m = p.index_of(z);
                assert(a[m] == z);
                assert(a.contains(z));
                assert(lt(a[m], a[a.len() - 1]));
                let n = b.index_of(z);
                assert(b[n] == z);
                assert(n != b.len() - 1);
                assert(q[n] == z);
            }
            if q.contains(z) {
                let m = q.index_of(z);
                assert(b[m] == z);
                assert(b.contains(z));
                assert(lt(b[m], b[b.len() - 1]));
                let n = a.index_of(z);
                assert(a[n] == z);
                assert(n != a.len() - 1);
                assert(p[n] == z);
            }
        }
        strict_unique(p, q, lt);
        assert(a =~= p.push(x));
        assert(b =~= q.push(y));
    }
}

/// The ordered set depends on the values alone, not on their order or how
/// often they occur.
pub proof fn ordered_set_ignores_order<T>(a: Seq<T>, b: Seq<T>, lt: spec_fn(T, T) -> bool)
    requires
        total_order(lt),
        forall|x: T| a.contains(x) <==> #[trigger] b.contains(x),
    ensures
        ordered_set(a, lt) == ordered_set(b, lt),
{
    ordered_set_holds(a, lt);
    ordered_set_holds(b, lt);
    let p = ordered_set(a, lt);
    let q = ordered_set(b, lt);
    assert forall|x: T| p.contains(x) <==> #[trigger] q.contains(x) by {
        assert(p.contains(x) <==> a.contains(x));
        assert(a.contains(x) <==> b.contains(x));
    }
    strict_unique(p, q, lt);
}

/// An ordered set is left as it is.
pub proof fn ordered_set_fixed<T>(s: Seq<T>, lt: spec_fn(T, T) -> bool)
    requires
        total_order(lt),
        is_strict(s, lt),
    ensures
        ordered_set(s, lt) == s,
{
    ordered_set_holds(s, lt);
    strict_unique(ordered_set(s, lt), s, lt);
}

} // verus!
