use crate::sort::Sorter;
use crate::sort::swap;
use vstd::prelude::*;

verus! {

/// Selection sort: each round finds the smallest element of the unsorted
/// tail and swaps it to the front of that tail.
pub struct SelectionSort;

impl Sorter for SelectionSort {
    fn sort(&self, slice: &mut Vec<i32>) {
        let ghost orig: Seq<i32> = slice@;
        let n = slice.len();
        let mut unsorted: usize = 0;
        while unsorted < n
            invariant
                n == slice@.len(),
                unsorted <= n,
                slice@.to_multiset() == orig.to_multiset(),
                forall|a: int, b: int| 0 <= a <= b < unsorted ==> slice@[a] <= slice@[b],
                forall|a: int, b: int| 0 <= a < unsorted <= b < n ==> slice@[a] <= slice@[b],
            decreases n - unsorted,
        {
            let mut smallest: usize = unsorted;
            let mut j: usize = unsorted + 1;
            while j < n
                invariant
                    n == slice@.len(),
                    unsorted <= smallest < j <= n,
                    forall|k: int| unsorted <= k < j ==> slice@[smallest as int] <= slice@[k],
                decreases n - j,
            {
                if slice[j] < slice[smallest] {
                    smallest = j;
                }
                j = j + 1;
            }
            if unsorted != smallest {
                swap(slice, unsorted, smallest);
            }
            unsorted = unsorted + 1;
        }
    }
}

} // verus!
