//! Ordering records newest first by their time stamp.

use vstd::prelude::*;
use vstd::multiset::Multiset;

verus! {

broadcast use {
    vstd::seq_lib::to_multiset_build,
    vstd::seq_lib::to_multiset_insert,
    vstd::seq_lib::to_multiset_len,
    vstd::multiset::lemma_multiset_empty_len,
    vstd::multiset::group_multiset_axioms,
};

/// A record with a time stamp, in seconds since the Unix epoch.
pub trait Stamped {
    spec fn stamp(&self) -> u64;

    fn stamp_of(&self) -> (r: u64)
        ensures
            r == self.stamp();
}

/// The first `n` elements of `s`, or all of them.
pub open spec fn first_n<T>(s: Seq<T>, n: nat) -> Seq<T> {
    if s.len() <= n {
        s
    } else {
        s.subrange(0, n as int)
    }
}

/// Keeps the first `limit` elements of `v`.
pub fn keep_first<T>(v: &mut Vec<T>, limit: usize)
    ensures
        final(v)@ == first_n(old(v)@, limit as nat),
{
    if limit < v.len() {
        v.truncate(limit);
    }
}

/// Stamps never increase along `s`.
pub open spec fn newest_first<T: Stamped>(s: Seq<T>) -> bool {
    forall|i: int, j: int| 0 <= i < j < s.len() ==> (#[trigger] s[i]).stamp() >= (#[trigger] s[j]).stamp()
}

/// Inserts `x` before the first element stamped at or before it.
fn insert_before_not_newer<T: Stamped>(v: &mut Vec<T>, x: T)
    requires
        newest_first(old(v)@),
    ensures
        newest_first(final(v)@),
        final(v)@.to_multiset() == old(v)@.to_multiset().insert(x),
{
    let t = x.stamp_of();
    let mut i: usize = 0;
    while i < v.len()
        invariant
            i <= v@.len(),
            v@ == old(v)@,
            forall|j: int| 0 <= j < i ==> (#[trigger] v@[j]).stamp() > t,
        ensures
            i <= v@.len(),
            v@ == old(v)@,
            forall|j: int| 0 <= j < i ==> (#[trigger] v@[j]).stamp() > t,
            i == v@.len() || v@[i as int].stamp() <= t,
        decreases v@.len() - i,
    {
        if v[i].stamp_of() <= t {
            break;
        }
        i += 1;
    }
    let ghost before = v@;
    v.insert(i, x);
    assert(v@ == before.insert(i as int, x));
    assert forall|a: int, b: int| 0 <= a < b < v@.len() implies (#[trigger] v@[a]).stamp() >= (#[trigger] v@[b]).stamp() by {
        if b < i {
            assert(v@[a] == before[a] && v@[b] == before[b]);
        } else if b == i {
            assert(v@[a] == before[a]);
        } else if a < i {
            assert(v@[a] == before[a] && v@[b] == before[b - 1]);
        } else if a == i {
            assert(v@[b] == before[b - 1]);
            assert(before[i as int].stamp() <= t);
            assert(before[i as int].stamp() >= before[b - 1].stamp() || i as int == b - 1);
        } else {
            assert(v@[a] == before[a - 1] && v@[b] == before[b - 1]);
        }
    }
}

/// The items ordered newest first; items with equal stamps keep their order.
pub fn sort_newest_first<T: Stamped>(items: Vec<T>) -> (r: Vec<T>)
    ensures
        newest_first(r@),
        r@.to_multiset() == items@.to_multiset(),
{
    let mut rest = items;
    let mut out: Vec<T> = Vec::new();
    assert(out@.to_multiset() =~= Multiset::<T>::empty()) by {
        assert(out@.len() == 0);
        assert(out@.to_multiset().len() == 0);
    }
    while rest.len() > 0
        invariant
            newest_first(out@),
            out@.to_multiset().add(rest@.to_multiset()) == items@.to_multiset(),
        decreases rest@.len(),
    {
        let ghost before = rest@;
        let x = rest.pop().unwrap();
        assert(before == rest@.push(x));
        let ghost out_before = out@;
        insert_before_not_newer(&mut out, x);
        assert(out@.to_multiset().add(rest@.to_multiset()) =~= out_before.to_multiset().add(before.to_multiset()));
    }
    assert(rest@.to_multiset() =~= Multiset::<T>::empty()) by {
        assert(rest@.to_multiset().len() == 0);
    }
    assert(out@.to_multiset() =~= out@.to_multiset().add(rest@.to_multiset()));
    out
}

} // verus!
