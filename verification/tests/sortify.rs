use memprims::insertionsort::InsertionSort;
use memprims::quicksort::QuickSort;
use memprims::quicksort::quicksort;
use memprims::selectionsort::SelectionSort;
use memprims::sort::Sorter;
use memprims::sort::StdSorter;
use memprims::sort::StdUnstableSorter;

fn exercises<S: Sorter>(sorter: S) {
    let mut empty: Vec<i32> = vec![];
    sorter.sort(&mut empty);
    assert_eq!(empty, vec![]);

    let mut single = vec![9];
    sorter.sort(&mut single);
    assert_eq!(single, vec![9]);

    let mut dups = vec![3, 1, 3, -2, 1, 3, 0];
    sorter.sort(&mut dups);
    assert_eq!(dups, vec![-2, 0, 1, 1, 3, 3, 3]);

    let mut reversed = vec![9, 8, 7, 6, 5, 4, 3, 2, 1, 0];
    sorter.sort(&mut reversed);
    assert_eq!(reversed, vec![0, 1, 2, 3, 4, 5, 6, 7, 8, 9]);
}

#[test]
fn std_works() {
    let mut x = vec![4, 3, 1, 2];
    StdSorter.sort(&mut x);
    assert_eq!(x, &[1, 2, 3, 4]);
}

#[test]
fn stdunstable_works() {
    let mut x = vec![4, 2, 3, 1];
    StdUnstableSorter.sort(&mut x);
    assert_eq!(x, &[1, 2, 3, 4]);
}

#[test]
fn it_works_dumb() {
    let mut x = vec![4, 1, 3, 2];
    InsertionSort { smart: false }.sort(&mut x);
    assert_eq!(x, &[1, 2, 3, 4]);
}

#[test]
fn it_works_smart() {
    let mut x = vec![4, 1, 3, 2];
    InsertionSort { smart: true }.sort(&mut x);
    assert_eq!(x, &[1, 2, 3, 4]);
}

#[test]
fn quicksort_it_works() {
    let mut x = vec![4, 1, 3, 2];
    QuickSort.sort(&mut x);
    assert_eq!(x, &[1, 2, 3, 4]);
}

#[test]
fn selectionsort_it_works() {
    let mut x = vec![4, 1, 3, 2];
    SelectionSort.sort(&mut x);
    assert_eq!(x, &[1, 2, 3, 4]);
}

#[test]
fn std_edge_cases() {
    exercises(StdSorter);
    exercises(StdUnstableSorter);
}

#[test]
fn insertion_edge_cases() {
    exercises(InsertionSort { smart: false });
    exercises(InsertionSort { smart: true });
}

#[test]
fn selection_edge_cases() {
    exercises(SelectionSort);
}

#[test]
fn quicksort_edge_cases() {
    exercises(QuickSort);
}

#[test]
fn quicksort_fn_directly() {
    let mut x = vec![12, -5, 7, 7, 0, 100, -5, 3];
    quicksort(&mut x);
    assert_eq!(x, vec![-5, -5, 0, 3, 7, 7, 12, 100]);
}
