use crate::sort::Sorter;
use crate::sort::lemma_multiset_gt_bound;
use crate::sort::lemma_multiset_le_bound;
use crate::sort::lemma_swap_multiset;
use crate::sort::sorted;
use crate::sort::swap;
use vstd::prelude::*;
use vstd::seq_lib::lemma_multiset_commutative;

verus! {

/// Quicksort: partitions the window around its first element, then sorts
/// the two sides recursively.
pub struct QuickSort;

/// Exchanging two positions inside the window `[lo, hi)` leaves the
/// window's multiset of elements unchanged.
proof fn lemma_swap_subrange_multiset(s1: Seq<i32>, s2: Seq<i32>, lo: int, hi: int, i: int, j: int)
    requires
        0 <= lo <= i < hi <= s1.len(),
        lo <= j < hi,
        s2 == s1.update(i, s1[j]).update(j, s1[i]),
    ensures
        s2.subrange(lo, hi).to_multiset() == s1.subrange(lo, hi).to_multiset(),
{
    let a = s1.subrange(lo, hi);
    let b = s2.subrange(lo, hi);
    assert(b =~= a.update(i - lo, a[j - lo]).update(j - lo, a[i - lo]));
    lemma_swap_multiset(a, i - lo, j - lo);
}

/// Reorders `v[lo..hi)` so that its first element, the pivot, ends up at
/// the returned position with everything below it at most the pivot and
/// everything above it strictly greater. The rest of the vector does not
/// move.
fn partition(v: &mut Vec<i32>, lo: usize, hi: usize) -> (p: usize)
    requires
        lo < hi <= old(v)@.len(),
    ensures
        lo <= p < hi,
        final(v)@.len() == old(v)@.len(),
        forall|k: int| 0 <= k < old(v)@.len() && !(lo <= k < hi) ==> final(v)@[k] == old(v)@[k],
        final(v)@.subrange(lo as int, hi as int).to_multiset() == old(v)@.subrange(
            lo as int,
            hi as int,
        ).to_multiset(),
        forall|k: int| lo <= k < p ==> final(v)@[k] <= final(v)@[p as int],
        forall|k: int| p < k < hi ==> final(v)@[k] > final(v)@[p as int],
    {
        let ghost pre = v@;
        let pivot = v[lo];
        let mut i: usize = lo + 1;
        let mut j: usize = lo + 1;
        while j < hi
            invariant
                lo < hi <= v@.len(),
                v@.len() == pre.len(),
                lo + 1 <= i <= j <= hi,
                v@[lo as int] == pivot,
                forall|k: int| 0 <= k < pre.len() && !(lo <= k < hi) ==> v@[k] == pre[k],
                v@.subrange(lo as int, hi as int).to_multiset() == pre.subrange(
                    lo as int,
                    hi as int,
                ).to_multiset(),
                forall|k: int| lo < k < i ==> v@[k] <= pivot,
                forall|k: int| i <= k < j ==> v@[k] > pivot,
            decreases hi - j,
        {
            if v[j] <= pivot {
                let ghost before = v@;
                swap(v, i, j);
                proof {
                    lemma_swap_subrange_multiset(
                        before,
                        v@,
                        lo as int,
                        hi as int,
                        i as int,
                        j as int,
                    );
                }
                i = i + 1;
            }
            j = j + 1;
        }
        let ghost before = v@;
        swap(v, lo, i - 1);
        proof {
            lemma_swap_subrange_multiset(
                before,
                v@,
                lo as int,
                hi as int,
                lo as int,
                i - 1 as int,
            );
        }
        i - 1
    }

/// Sorts the window `v[lo..hi)` in place; the rest of the vector does not
/// move, and the window keeps exactly its elements.
fn quicksort_range(v: &mut Vec<i32>, lo: usize, hi: usize)
    requires
        lo <= hi <= old(v)@.len(),
    ensures
        final(v)@.len() == old(v)@.len(),
        forall|k: int| 0 <= k < old(v)@.len() && !(lo <= k < hi) ==> final(v)@[k] == old(v)@[k],
        final(v)@.subrange(lo as int, hi as int).to_multiset() == old(v)@.subrange(
            lo as int,
            hi as int,
        ).to_multiset(),
        sorted(final(v)@.subrange(lo as int, hi as int)),
    decreases hi - lo,
{
    if hi - lo <= 1 {
        return;
    }
    let ghost pre = v@;
    let p = partition(v, lo, hi);
    let ghost mid = v@;
    let ghost pivotval = mid[p as int];
    quicksort_range(v, lo, p);
    let ghost left_done = v@;
    quicksort_range(v, p + 1, hi);
    let ghost fin = v@;
    proof {
        let lo = lo as int;
        let hi = hi as int;
        let p = p as int;
        // the pivot was outside both recursive windows
        assert(fin[p] == pivotval);
        // the right recursion left everything up to and including `p` alone
        assert(fin.subrange(lo, p) =~= left_done.subrange(lo, p));
        // the left recursion left everything from `p` on alone
        assert(left_done.subrange(p + 1, hi) =~= mid.subrange(p + 1, hi));
        // the partition bounds survive the permutations of the two sides
        assert(forall|x: int|
            0 <= x < p - lo ==> #[trigger] mid.subrange(lo, p)[x] <= pivotval);
        lemma_multiset_le_bound(mid.subrange(lo, p), left_done.subrange(lo, p), pivotval);
        assert(forall|x: int|
            0 <= x < hi - (p + 1) ==> #[trigger] left_done.subrange(p + 1, hi)[x] > pivotval);
        lemma_multiset_gt_bound(left_done.subrange(p + 1, hi), fin.subrange(p + 1, hi), pivotval);
        // each side is sorted where its recursion left it
        assert(sorted(fin.subrange(lo, p)));
        assert(sorted(fin.subrange(p + 1, hi)));
        // assemble sortedness of the whole window
        let s = fin.subrange(lo, hi);
        assert forall|x: int, y: int| 0 <= x <= y < s.len() implies s[x] <= s[y] by {
            if y < p - lo {
                assert(fin.subrange(lo, p)[x] <= fin.subrange(lo, p)[y]);
            } else if x > p - lo {
                assert(fin.subrange(p + 1, hi)[x - (p - lo) - 1] <= fin.subrange(p + 1, hi)[y - (p
                    - lo) - 1]);
            } else {
                if x < p - lo {
                    assert(fin.subrange(lo, p)[x] <= pivotval);
                }
                if y > p - lo {
                    assert(fin.subrange(p + 1, hi)[y - (p - lo) - 1] > pivotval);
                }
            }
        }
        // the window keeps its elements: split at `p` and at `p + 1`
        assert(left_done.subrange(lo, hi) =~= left_done.subrange(lo, p) + left_done.subrange(
            p,
            hi,
        ));
        assert(mid.subrange(lo, hi) =~= mid.subrange(lo, p) + mid.subrange(p, hi));
        lemma_multiset_commutative(left_done.subrange(lo, p), left_done.subrange(p, hi));
        lemma_multiset_commutative(mid.subrange(lo, p), mid.subrange(p, hi));
        assert(left_done.subrange(p, hi) =~= mid.subrange(p, hi));
        assert(fin.subrange(lo, hi) =~= fin.subrange(lo, p + 1) + fin.subrange(p + 1, hi));
        assert(left_done.subrange(lo, hi) =~= left_done.subrange(lo, p + 1) + left_done.subrange(
            p + 1,
            hi,
        ));
        lemma_multiset_commutative(fin.subrange(lo, p + 1), fin.subrange(p + 1, hi));
        lemma_multiset_commutative(left_done.subrange(lo, p + 1), left_done.subrange(p + 1, hi));
        assert(fin.subrange(lo, p + 1) =~= left_done.subrange(lo, p + 1));
    }
}

/// Sorts the whole vector in place into non-decreasing order, keeping
/// exactly its elements.
pub fn quicksort(slice: &mut Vec<i32>)
    ensures
        sorted(final(slice)@),
        final(slice)@.to_multiset() == old(slice)@.to_multiset(),
{
    let n = slice.len();
    quicksort_range(slice, 0, n);
    proof {
        assert(slice@.subrange(0, n as int) =~= slice@);
        assert(old(slice)@.subrange(0, n as int) =~= old(slice)@);
    }
}

impl Sorter for QuickSort {
    fn sort(&self, slice: &mut Vec<i32>) {
        quicksort(slice)
    }
}

} // verus!
