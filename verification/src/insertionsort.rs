use crate::sort::Sorter;
use crate::sort::sorted;
use crate::sort::swap;
use vstd::prelude::*;

verus! {

/// Insertion sort. With `smart` off, each new element walks down through
/// neighbour swaps until it meets one no larger; with `smart` on, its
/// place in the sorted prefix is found by binary search first and the
/// element is then rotated into it.
pub struct InsertionSort {
    pub smart: bool,
}

/// The position where `x` belongs within the sorted prefix `[0, hi)` of
/// `v`: everything below it is at most `x`, everything from it up to `hi`
/// is at least `x`.
fn insertion_point(v: &Vec<i32>, hi: usize, x: i32) -> (r: usize)
    requires
        hi <= v@.len(),
        sorted(v@.subrange(0, hi as int)),
    ensures
        r <= hi,
        forall|k: int| 0 <= k < r ==> v@[k] <= x,
        forall|k: int| r <= k < hi ==> v@[k] >= x,
{
    let ghost pre = v@.subrange(0, hi as int);
    let mut lo: usize = 0;
    let mut up: usize = hi;
    while lo < up
        invariant
            lo <= up <= hi <= v@.len(),
            pre == v@.subrange(0, hi as int),
            sorted(pre),
            forall|k: int| 0 <= k < lo ==> v@[k] <= x,
            forall|k: int| up <= k < hi ==> v@[k] >= x,
        decreases up - lo,
    {
        let mid = lo + (up - lo) / 2;
        if v[mid] <= x {
            proof {
                assert forall|k: int| 0 <= k < mid + 1 implies v@[k] <= x by {
                    assert(pre[k] == v@[k]);
                    assert(pre[mid as int] == v@[mid as int]);
                }
            }
            lo = mid + 1;
        } else {
            proof {
                assert forall|k: int| mid <= k < hi implies v@[k] >= x by {
                    assert(pre[k] == v@[k]);
                    assert(pre[mid as int] == v@[mid as int]);
                }
            }
            up = mid;
        }
    }
    lo
}

impl Sorter for InsertionSort {
    fn sort(&self, slice: &mut Vec<i32>) {
        let ghost orig: Seq<i32> = slice@;
        let n = slice.len();
        if n <= 1 {
            return;
        }
        let mut unsorted: usize = 1;
        while unsorted < n
            invariant
                n == slice@.len(),
                1 <= unsorted <= n,
                slice@.to_multiset() == orig.to_multiset(),
                forall|a: int, b: int| 0 <= a <= b < unsorted ==> slice@[a] <= slice@[b],
            decreases n - unsorted,
        {
            if !self.smart {
                let mut i: usize = unsorted;
                while i > 0 && slice[i - 1] > slice[i]
                    invariant
                        n == slice@.len(),
                        unsorted < n,
                        i <= unsorted,
                        slice@.to_multiset() == orig.to_multiset(),
                        forall|a: int, b: int|
                            0 <= a <= b <= unsorted && a != i && b != i ==> slice@[a] <= slice@[b],
                        forall|b: int| i < b <= unsorted ==> slice@[i as int] <= slice@[b],
                    decreases i,
                {
                    swap(slice, i - 1, i);
                    i = i - 1;
                }
            } else {
                let x = slice[unsorted];
                proof {
                    assert(sorted(slice@.subrange(0, unsorted as int)));
                }
                let pos = insertion_point(slice, unsorted, x);
                let mut i: usize = unsorted;
                while i > pos
                    invariant
                        n == slice@.len(),
                        unsorted < n,
                        pos <= i <= unsorted,
                        slice@.to_multiset() == orig.to_multiset(),
                        slice@[i as int] == x,
                        forall|k: int| 0 <= k < pos ==> slice@[k] <= x,
                        forall|k: int| pos <= k < i ==> slice@[k] >= x,
                        forall|a: int, b: int|
                            0 <= a <= b <= unsorted && a != i && b != i ==> slice@[a] <= slice@[b],
                        forall|b: int| i < b <= unsorted ==> slice@[i as int] <= slice@[b],
                    decreases i,
                {
                    swap(slice, i - 1, i);
                    i = i - 1;
                }
            }
            unsorted = unsorted + 1;
        }
        proof {
            assert(slice@.subrange(0, n as int) =~= slice@);
        }
    }
}

} // verus!
