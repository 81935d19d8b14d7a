use vstd::prelude::*;
use vstd::seq_lib::to_multiset_update;
use vstd::seq_lib::group_to_multiset_ensures;

verus! {

/// A sequence is in non-decreasing order.
pub open spec fn sorted(s: Seq<i32>) -> bool {
    forall|i: int, j: int| 0 <= i <= j < s.len() ==> s[i] <= s[j]
}

/// Exchanging two positions of a sequence leaves its multiset of elements
/// unchanged.
pub proof fn lemma_swap_multiset(s: Seq<i32>, i: int, j: int)
    requires
        0 <= i < s.len(),
        0 <= j < s.len(),
    ensures
        s.update(i, s[j]).update(j, s[i]).to_multiset() == s.to_multiset(),
{
    broadcast use to_multiset_update;
    broadcast use group_to_multiset_ensures;

    if i == j {
        assert(s.update(i, s[j]).update(j, s[i]) =~= s);
    } else {
        let s1 = s.update(i, s[j]);
        assert(s1[j] == s[j]);
        assert(s1.update(j, s[i]).to_multiset() =~= s.to_multiset());
    }
}

/// An upper bound on every element of a sequence carries over to any
/// rearrangement of it.
pub proof fn lemma_multiset_le_bound(s1: Seq<i32>, s2: Seq<i32>, b: i32)
    requires
        s1.to_multiset() == s2.to_multiset(),
        forall|k: int| 0 <= k < s1.len() ==> s1[k] <= b,
    ensures
        forall|k: int| 0 <= k < s2.len() ==> s2[k] <= b,
{
    broadcast use group_to_multiset_ensures;

    assert forall|k: int| 0 <= k < s2.len() implies s2[k] <= b by {
        assert(s2.contains(s2[k]));
        assert(s2.to_multiset().count(s2[k]) > 0);
        assert(s1.to_multiset().count(s2[k]) > 0);
        assert(s1.contains(s2[k]));
    }
}

/// A strict lower bound on every element of a sequence carries over to any
/// rearrangement of it.
pub proof fn lemma_multiset_gt_bound(s1: Seq<i32>, s2: Seq<i32>, b: i32)
    requires
        s1.to_multiset() == s2.to_multiset(),
        forall|k: int| 0 <= k < s1.len() ==> s1[k] > b,
    ensures
        forall|k: int| 0 <= k < s2.len() ==> s2[k] > b,
{
    broadcast use group_to_multiset_ensures;

    assert forall|k: int| 0 <= k < s2.len() implies s2[k] > b by {
        assert(s2.contains(s2[k]));
        assert(s2.to_multiset().count(s2[k]) > 0);
        assert(s1.to_multiset().count(s2[k]) > 0);
        assert(s1.contains(s2[k]));
    }
}

/// Exchanges the elements at `i` and `j` in place.
pub(crate) fn swap(v: &mut Vec<i32>, i: usize, j: usize)
    requires
        i < old(v)@.len(),
        j < old(v)@.len(),
    ensures
        final(v)@.len() == old(v)@.len(),
        final(v)@[i as int] == old(v)@[j as int],
        final(v)@[j as int] == old(v)@[i as int],
        forall|k: int| 0 <= k < old(v)@.len() && k != i && k != j ==> final(v)@[k] == old(v)@[k],
        final(v)@ == old(v)@.update(i as int, old(v)@[j as int]).update(j as int, old(v)@[i as int]),
        final(v)@.to_multiset() == old(v)@.to_multiset(),
    {
        proof {
            lemma_swap_multiset(v@, i as int, j as int);
        }
        let a = v[i];
        let b = v[j];
        v.set(i, b);
        v.set(j, a);
    }

/// Something that can reorder a vector of numbers into non-decreasing
/// order. Every implementation promises the same thing: afterwards the
/// vector is sorted and holds exactly the elements it held before.
pub trait Sorter {
    /// Sorts `slice` in place without adding or removing elements.
    fn sort(&self, slice: &mut Vec<i32>)
        ensures
            sorted(final(slice)@),
            final(slice)@.to_multiset() == old(slice)@.to_multiset(),
    ;
}

/// Relies on the std slice sort (`<[i32]>::sort`): it reorders the
/// elements in place into non-decreasing order.
#[verifier::external_body]
fn sort_via_std(slice: &mut Vec<i32>)
    ensures
        sorted(final(slice)@),
        final(slice)@.to_multiset() == old(slice)@.to_multiset(),
{
    slice.sort()
}

/// Relies on the std unstable slice sort (`<[i32]>::sort_unstable`): it
/// reorders the elements in place into non-decreasing order.
#[verifier::external_body]
fn sort_unstable_via_std(slice: &mut Vec<i32>)
    ensures
        sorted(final(slice)@),
        final(slice)@.to_multiset() == old(slice)@.to_multiset(),
{
    slice.sort_unstable()
}

/// The std library's stable sort, behind the common [`Sorter`] contract.
pub struct StdSorter;

impl Sorter for StdSorter {
    fn sort(&self, slice: &mut Vec<i32>) {
        sort_via_std(slice)
    }
}

/// The std library's unstable sort, behind the common [`Sorter`] contract.
pub struct StdUnstableSorter;

impl Sorter for StdUnstableSorter {
    fn sort(&self, slice: &mut Vec<i32>) {
        sort_unstable_via_std(slice)
    }
}

} // verus!
