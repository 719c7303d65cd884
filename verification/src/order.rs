//! Stable ordering of lists by a numeric key.

use vstd::prelude::*;

verus! {

/// A value with a key by which lists of it are ordered; a lower key comes
/// first.
pub trait Keyed {
    spec fn key(&self) -> u64;

    fn key_of(&self) -> (k: u64)
        ensures
            k == self.key(),
    ;
}

/// Whether the keys stand in ascending order.
pub open spec fn ascending<T: Keyed>(t: Seq<T>) -> bool {
    forall|i: int, j: int| 0 <= i < j < t.len() ==> t[i].key() <= t[j].key()
}

/// The index at or after `from` of the first value with a key above `k`.
pub open spec fn position_after<T: Keyed>(t: Seq<T>, k: u64, from: int) -> int
    decreases t.len() - from,
{
    if 0 <= from < t.len() && t[from].key() <= k {
        position_after(t, k, from + 1)
    } else {
        from
    }
}

/// `t` with `x` put behind the values whose key is not above its own.
pub open spec fn insert_keyed<T: Keyed>(t: Seq<T>, x: T) -> Seq<T> {
    t.insert(position_after(t, x.key(), 0), x)
}

/// The values in ascending order of key, values of equal key in the order
/// they had.
pub open spec fn stable_sort<T: Keyed>(s: Seq<T>) -> Seq<T>
    decreases s.len(),
{
    if s.len() == 0 {
        Seq::empty()
    } else {
        insert_keyed(stable_sort(s.drop_last()), s.last())
    }
}

pub proof fn lemma_position_after<T: Keyed>(t: Seq<T>, k: u64, from: int)
    requires
        0 <= from <= t.len(),
    ensures
        from <= position_after(t, k, from) <= t.len(),
        forall|j: int| from <= j < position_after(t, k, from) ==> t[j].key() <= k,
        position_after(t, k, from) < t.len() ==> t[position_after(t, k, from)].key() > k,
    decreases t.len() - from,
{
    if from < t.len() && t[from].key() <= k {
        lemma_position_after(t, k, from + 1);
    }
}

pub proof fn lemma_position_after_is<T: Keyed>(t: Seq<T>, k: u64, from: int, r: int)
    requires
        0 <= from <= r <= t.len(),
        forall|j: int| from <= j < r ==> t[j].key() <= k,
        r < t.len() ==> t[r].key() > k,
    ensures
        position_after(t, k, from) == r,
    decreases r - from,
{
    if from < r {
        lemma_position_after_is(t, k, from + 1, r);
    }
}

/// Inserting into an ascending list keeps it ascending and adds exactly the
/// value.
pub proof fn lemma_insert_keyed<T: Keyed>(t: Seq<T>, x: T)
    requires
        ascending(t),
    ensures
        ascending(insert_keyed(t, x)),
        insert_keyed(t, x).len() == t.len() + 1,
        insert_keyed(t, x).to_multiset() == t.to_multiset().insert(x),
{
    let k = position_after(t, x.key(), 0);
    lemma_position_after(t, x.key(), 0);
    let r = insert_keyed(t, x);
    assert forall|i: int, j: int| 0 <= i < j < r.len() implies r[i].key() <= r[j].key() by {
        if j < k {
        } else if j == k {
        } else {
            assert(r[j] == t[j - 1]);
            if i < k {
            } else if i == k {
                assert(t[k].key() > x.key());
                assert(t[k].key() <= t[j - 1].key() || k == j - 1);
            } else {
                assert(r[i] == t[i - 1]);
            }
        }
    }
    vstd::seq_lib::to_multiset_insert(t, k, x);
}

/// Sorting gives an ascending list of the same values, each as often as it
/// stood in the list.
pub proof fn lemma_stable_sort<T: Keyed>(s: Seq<T>)
    ensures
        ascending(stable_sort(s)),
        stable_sort(s).len() == s.len(),
        stable_sort(s).to_multiset() == s.to_multiset(),
    decreases s.len(),
{
    if s.len() > 0 {
        lemma_stable_sort(s.drop_last());
        lemma_insert_keyed(stable_sort(s.drop_last()), s.last());
        assert(s.drop_last().push(s.last()) =~= s);
        s.drop_last().to_multiset_ensures();
    } else {
        assert(stable_sort(s) =~= s);
    }
}

/// Puts `v` in ascending order of key; values of equal key keep their
/// order.
pub fn sort_stable<T: Keyed>(v: &mut Vec<T>)
    ensures
        final(v)@ == stable_sort(old(v)@),
{
    let mut rest: Vec<T> = Vec::new();
    core::mem::swap(&mut rest, v);
    let ghost all = rest@;
    let ghost mut k: int = 0;
    assert(all.take(0) =~= Seq::empty());
    while rest.len() > 0
        invariant
            0 <= k <= all.len(),
            rest@ == all.skip(k),
            v@ == stable_sort(all.take(k)),
        decreases rest.len(),
    {
        assert(rest@[0] == all[k]);
        let x = rest.remove(0);
        assert(rest@ =~= all.skip(k + 1));
        let xk = x.key_of();
        let mut i: usize = 0;
        while i < v.len() && v[i].key_of() <= xk
            invariant
                i <= v.len(),
                xk == x.key(),
                forall|j: int| 0 <= j < i ==> v@[j].key() <= xk,
            decreases v.len() - i,
        {
            i += 1;
        }
        proof {
            lemma_position_after_is(v@, xk, 0, i as int);
            assert(all.take(k + 1).drop_last() =~= all.take(k));
            assert(all.take(k + 1).last() == all[k]);
        }
        v.insert(i, x);
        proof {
            k = k + 1;
        }
    }
    assert(all.take(all.len() as int) =~= all);
}

/// The list with the item at `from` moved to the place `to`: the items
/// between the two places move by one, and all others stay.
pub open spec fn moved<T>(s: Seq<T>, from: int, to: int) -> Seq<T> {
    s.remove(from).insert(to, s[from])
}

/// Moves the item at `from` to the place `to`, if both are places of the
/// list, and says whether it did.
pub fn move_item<T>(v: &mut Vec<T>, from: usize, to: usize) -> (done: bool)
    ensures
        done == (from < old(v).len() && to < old(v).len()),
        done ==> final(v)@ == moved(old(v)@, from as int, to as int),
        !done ==> final(v)@ == old(v)@,
{
    if from >= v.len() || to >= v.len() {
        return false;
    }
    let item = v.remove(from);
    v.insert(to, item);
    true
}

} // verus!
