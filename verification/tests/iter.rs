use memprims::iter::Flatten;
use memprims::iter::IteratorExt;
use memprims::iter::flatten;

fn drain_front<T>(mut it: Flatten<T>) -> Vec<T> {
    let mut out = Vec::new();
    while let Some(x) = it.next() {
        out.push(x);
    }
    out
}

fn drain_back<T>(mut it: Flatten<T>) -> Vec<T> {
    let mut out = Vec::new();
    while let Some(x) = it.next_back() {
        out.push(x);
    }
    out
}

#[test]
fn empty() {
    assert_eq!(flatten(Vec::<Vec<()>>::new()).count(), 0)
}

#[test]
fn vec_e_vec() {
    assert_eq!(flatten(vec![Vec::<()>::new(), vec![], vec![]]).count(), 0)
}

#[test]
fn one() {
    assert_eq!(flatten(vec![vec!["a"]]).count(), 1)
}

#[test]
fn two() {
    assert_eq!(flatten(vec![vec!["a", "b"]]).count(), 2)
}

#[test]
fn vec_o_vec() {
    assert_eq!(flatten(vec![vec![vec!["a"]]]).count(), 1)
}

#[test]
fn vec_t_vec() {
    assert_eq!(flatten(vec![vec![vec!["a"], vec!["b"]]]).count(), 2)
}

#[test]
fn rev_empty() {
    assert_eq!(drain_back(flatten(Vec::<Vec<()>>::new())), vec![])
}

#[test]
fn rev_two() {
    assert_eq!(drain_back(flatten(vec![vec!["a", "b"]])), vec!["b", "a"])
}

#[test]
fn rev_three() {
    assert_eq!(drain_back(flatten(vec![vec!["a", "b", "c"]])), vec!["c", "b", "a"])
}

#[test]
fn rev_vec_t_vec() {
    assert_eq!(drain_back(flatten(vec![vec!["a"], vec!["b"], vec!["c"]])), vec!["c", "b", "a"])
}

#[test]
fn both_ends() {
    let mut iter = flatten(vec![vec!["a1", "a2", "a3"], vec!["b1", "b2", "b3"]]);
    assert_eq!(iter.next(), Some("a1"));
    assert_eq!(iter.next_back(), Some("b3"));
    assert_eq!(iter.next(), Some("a2"));
    assert_eq!(iter.next_back(), Some("b2"));
    assert_eq!(iter.next(), Some("a3"));
    assert_eq!(iter.next_back(), Some("b1"));
    assert_eq!(iter.next(), None);
    assert_eq!(iter.next_back(), None);
}

#[test]
fn deep() {
    let inner = flatten(vec![vec![vec![0, 1]]]);
    assert_eq!(flatten(drain_front(inner)).count(), 2);
}

#[test]
fn ext() {
    assert_eq!(vec![vec![0, 1]].our_flatten().count(), 2);
}

#[test]
fn forward_order() {
    assert_eq!(
        drain_front(flatten(vec![vec![1, 2], vec![], vec![3], vec![4, 5]])),
        vec![1, 2, 3, 4, 5]
    );
}

#[test]
fn front_stops_without_raiding_back() {
    let mut iter = flatten(vec![vec!["a"], vec!["b"]]);
    assert_eq!(iter.next_back(), Some("b"));
    assert_eq!(iter.next(), Some("a"));
    assert_eq!(iter.next(), None);
    assert_eq!(iter.next_back(), None);
}
