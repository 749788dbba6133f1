//! Stable sorting of records by rank. What comes first is decided by the
//! records' own rank alone; records of equal rank keep the order they came
//! in.

use vstd::prelude::*;

verus! {

/// Records that a rank puts in order. Any two can be compared, and the
/// comparison is transitive; two records may share a rank.
pub trait Ranked: Sized {
    /// Whether `self` may stand before `other`: its rank is not higher.
    spec fn no_later(&self, other: &Self) -> bool;

    /// Of two records, one may stand before the other.
    proof fn total(a: &Self, b: &Self)
        ensures
            a.no_later(b) || b.no_later(a),
    ;

    /// What may stand before a record may stand before whatever that
    /// record may stand before.
    proof fn transitive(a: &Self, b: &Self, c: &Self)
        requires
            a.no_later(b),
            b.no_later(c),
        ensures
            a.no_later(c),
    ;

    /// Whether `self` may stand before `other`.
    fn stands_before(&self, other: &Self) -> (b: bool)
        ensures
            b == self.no_later(other),
    ;
}

impl Ranked for u32 {
    /// Numbers stand in rising order.
    open spec fn no_later(&self, other: &Self) -> bool {
        *self <= *other
    }

    proof fn total(a: &Self, b: &Self) {
    }

    proof fn transitive(a: &Self, b: &Self, c: &Self) {
    }

    fn stands_before(&self, other: &Self) -> (b: bool) {
        *self <= *other
    }
}

/// `sorted`, which is in order, with `x` put in behind every record that
/// may stand before it.
pub open spec fn inserted<T: Ranked>(sorted: Seq<T>, x: T) -> Seq<T>
    decreases sorted.len(),
{
    if sorted.len() == 0 {
        seq![x]
    } else if sorted.last().no_later(&x) {
        sorted.push(x)
    } else {
        inserted(sorted.drop_last(), x).push(sorted.last())
    }
}

/// The records in order of rank; records of equal rank keep the order they
/// came in.
pub open spec fn stably_sorted<T: Ranked>(s: Seq<T>) -> Seq<T>
    decreases s.len(),
{
    if s.len() == 0 {
        Seq::empty()
    } else {
        inserted(stably_sorted(s.drop_last()), s.last())
    }
}

/// Every record may stand before all that follow it.
pub open spec fn in_order<T: Ranked>(s: Seq<T>) -> bool {
    forall|i: int, j: int|
        #![trigger s[i], s[j]]
        0 <= i <= j < s.len() ==> s[i].no_later(&s[j])
}

/// Where `x` comes to stand in `sorted`: at `j`, when no record from `j`
/// on may stand before `x` and the one before `j` may.
pub proof fn lemma_inserted_at<T: Ranked>(sorted: Seq<T>, x: T, j: int)
    requires
        0 <= j <= sorted.len(),
        forall|k: int| j <= k < sorted.len() ==> !(#[trigger] sorted[k]).no_later(&x),
        j == 0 || sorted[j - 1].no_later(&x),
    ensures
        inserted(sorted, x) == sorted.take(j) + seq![x] + sorted.skip(j),
    decreases sorted.len(),
{
    if 0 < sorted.len() && j < sorted.len() {
        lemma_inserted_at(sorted.drop_last(), x, j);
    }
}

/// Putting a record into an ordered list keeps it ordered, makes it one
/// longer, and adds that record and no other.
pub proof fn lemma_inserted_ordered<T: Ranked>(sorted: Seq<T>, x: T)
    requires
        in_order(sorted),
    ensures
        in_order(inserted(sorted, x)),
        inserted(sorted, x).len() == sorted.len() + 1,
        inserted(sorted, x).to_multiset() == sorted.to_multiset().insert(x),
    decreases sorted.len(),
{
    broadcast use vstd::seq_lib::group_to_multiset_ensures;

    T::total(&x, &x);
    if sorted.len() == 0 {
        // a list of the one record
    } else if sorted.last().no_later(&x) {
        let r = sorted.push(x);
        assert forall|i: int, j: int|
            #![trigger r[i], r[j]]
            0 <= i <= j < r.len() implies r[i].no_later(&r[j]) by {
            if j == sorted.len() && i < sorted.len() {
                T::transitive(&sorted[i], &sorted.last(), &x);
            }
        }
    } else {
        let front = sorted.drop_last();
        let last = sorted.last();
        T::total(&last, &x);
        lemma_inserted_ordered(front, x);
        let mid = inserted(front, x);
        assert forall|k: int| 0 <= k < mid.len() implies (#[trigger] mid[k]).no_later(&last) by {
            assert(mid.to_multiset().count(mid[k]) > 0);
        }
        assert(sorted =~= front.push(last));
    }
}

/// Sorting gives every record once, none twice, and none that was not
/// there; and the result is in order.
pub proof fn lemma_stably_sorted<T: Ranked>(s: Seq<T>)
    ensures
        in_order(stably_sorted(s)),
        stably_sorted(s).len() == s.len(),
        stably_sorted(s).to_multiset() == s.to_multiset(),
    decreases s.len(),
{
    broadcast use vstd::seq_lib::group_to_multiset_ensures;

    if s.len() > 0 {
        lemma_stably_sorted(s.drop_last());
        lemma_inserted_ordered(stably_sorted(s.drop_last()), s.last());
        assert(s =~= s.drop_last().push(s.last()));
    }
}

/// The records in order of rank; records of equal rank keep the order they
/// came in.
pub fn sort_stably<T: Ranked>(list: Vec<T>) -> (sorted: Vec<T>)
    ensures
        sorted@ == stably_sorted(list@),
        in_order(sorted@),
        sorted@.len() == list@.len(),
        sorted@.to_multiset() == list@.to_multiset(),
{
    let ghost all = list@;
    let mut rest = list;
    let mut sorted: Vec<T> = Vec::new();
    let ghost mut done: int = 0;
    while rest.len() > 0
        invariant
            0 <= done <= all.len(),
            sorted@ == stably_sorted(all.take(done)),
            rest@ == all.skip(done),
        decreases rest@.len(),
    {
        let x = rest.remove(0);
        let mut j: usize = sorted.len();
        while j > 0 && !sorted[j - 1].stands_before(&x)
            invariant
                j <= sorted@.len(),
                forall|k: int| j <= k < sorted@.len() ==> !(#[trigger] sorted@[k]).no_later(&x),
            decreases j,
        {
            j -= 1;
        }
        proof {
            lemma_inserted_at(sorted@, x, j as int);
            assert(all.take(done + 1).drop_last() =~= all.take(done));
            done = done + 1;
        }
        sorted.insert(j, x);
    }
    proof {
        lemma_stably_sorted(all);
    }
    sorted
}

} // verus!
