use vstd::prelude::*;

verus! {

/// The inner vectors of a nested vector, as mathematical sequences.
pub open spec fn nested_view<T>(v: Seq<Vec<T>>) -> Seq<Seq<T>> {
    v.map_values(|x: Vec<T>| x@)
}

/// Every inner sequence is empty.
pub open spec fn all_empty<T>(ss: Seq<Seq<T>>) -> bool {
    forall|k: int| 0 <= k < ss.len() ==> ss[k].len() == 0
}

/// `j` is the position of the first inner sequence that still holds
/// something.
pub open spec fn is_first_nonempty<T>(ss: Seq<Seq<T>>, j: int) -> bool {
    0 <= j < ss.len() && ss[j].len() > 0 && forall|k: int| 0 <= k < j ==> ss[k].len() == 0
}

/// `j` is the position of the last inner sequence that still holds
/// something.
pub open spec fn is_last_nonempty<T>(ss: Seq<Seq<T>>, j: int) -> bool {
    0 <= j < ss.len() && ss[j].len() > 0 && forall|k: int| j < k < ss.len() ==> ss[k].len() == 0
}

/// Empty inner sequences at the front contribute nothing to the
/// flattening.
proof fn lemma_flatten_skip_empty<T>(ss: Seq<Seq<T>>, j: int)
    requires
        0 <= j <= ss.len(),
        forall|k: int| 0 <= k < j ==> ss[k].len() == 0,
    ensures
        ss.flatten() == ss.skip(j).flatten(),
    decreases j,
{
    if j > 0 {
        assert(ss.len() > 0);
        assert(ss.first().len() == 0);
        assert(ss.flatten() == ss.first() + ss.drop_first().flatten());
        assert(ss.flatten() =~= ss.drop_first().flatten());
        assert(ss.drop_first() =~= ss.skip(1));
        lemma_flatten_skip_empty(ss.skip(1), j - 1);
        assert(ss.skip(1).skip(j - 1) =~= ss.skip(j));
    } else {
        assert(ss.skip(0) =~= ss);
    }
}

/// Empty inner sequences at the back contribute nothing to the
/// flattening.
proof fn lemma_flatten_take_empty<T>(ss: Seq<Seq<T>>, j: int)
    requires
        0 <= j <= ss.len(),
        forall|k: int| j <= k < ss.len() ==> ss[k].len() == 0,
    ensures
        ss.flatten() == ss.take(j).flatten(),
    decreases ss.len() - j,
{
    if j < ss.len() {
        assert(ss.last().len() == 0);
        ss.lemma_flatten_and_flatten_alt_are_equivalent();
        ss.drop_last().lemma_flatten_and_flatten_alt_are_equivalent();
        assert(ss.flatten_alt() == ss.drop_last().flatten_alt() + ss.last());
        assert(ss.flatten() =~= ss.drop_last().flatten());
        lemma_flatten_take_empty(ss.drop_last(), j);
        assert(ss.drop_last().take(j) =~= ss.take(j));
    } else {
        assert(ss.take(j) =~= ss);
    }
}

/// One flattening step at the front: the first inner sequence, then the
/// flattening of the rest.
proof fn lemma_flatten_step_front<T>(ss: Seq<Seq<T>>)
    requires
        ss.len() > 0,
    ensures
        ss.flatten() == ss[0] + ss.skip(1).flatten(),
{
    assert(ss.flatten() == ss.first() + ss.drop_first().flatten());
    assert(ss.drop_first() =~= ss.skip(1));
}

/// One flattening step at the back: the flattening of the rest, then the
/// last inner sequence.
proof fn lemma_flatten_step_back<T>(ss: Seq<Seq<T>>)
    requires
        ss.len() > 0,
    ensures
        ss.flatten() == ss.take(ss.len() - 1).flatten() + ss[ss.len() - 1],
{
    ss.lemma_flatten_and_flatten_alt_are_equivalent();
    ss.drop_last().lemma_flatten_and_flatten_alt_are_equivalent();
    assert(ss.flatten_alt() == ss.drop_last().flatten_alt() + ss.last());
    assert(ss.drop_last() =~= ss.take(ss.len() - 1));
}

/// An adapter that hands out the elements of a nested vector one at a
/// time, from either end. Each end keeps at most one inner vector as its
/// working stash; an end that has exhausted its stash and finds no further
/// inner vector in the middle stops, without raiding the other end's
/// stash.
pub struct Flatten<T> {
    front: Option<Vec<T>>,
    outer: Vec<Vec<T>>,
    back: Option<Vec<T>>,
}

impl<T> Flatten<T> {
    /// What the front stash still holds.
    pub closed spec fn front_seq(&self) -> Seq<T> {
        match self.front {
            Option::Some(v) => v@,
            Option::None => Seq::empty(),
        }
    }

    /// What the back stash still holds.
    pub closed spec fn back_seq(&self) -> Seq<T> {
        match self.back {
            Option::Some(v) => v@,
            Option::None => Seq::empty(),
        }
    }

    /// The inner sequences neither end has started on.
    pub closed spec fn middle(&self) -> Seq<Seq<T>> {
        nested_view(self.outer@)
    }

    /// Everything still reachable from the front, in order.
    pub open spec fn front_stream(&self) -> Seq<T> {
        self.front_seq() + self.middle().flatten()
    }

    /// Everything still reachable from the back, in order.
    pub open spec fn back_stream(&self) -> Seq<T> {
        self.middle().flatten() + self.back_seq()
    }

    /// A fresh adapter over `iter`; both stashes start empty.
    pub fn new(iter: Vec<Vec<T>>) -> (r: Flatten<T>)
        ensures
            r.front_seq() == Seq::<T>::empty(),
            r.back_seq() == Seq::<T>::empty(),
            r.middle() == nested_view(iter@),
    {
        Flatten { front: None, outer: iter, back: None }
    }

    /// The next element from the front: the front stash is drained first,
    /// then inner vectors are taken from the middle in order, and the
    /// front stops when the middle is exhausted, leaving the back stash
    /// alone.
    pub fn next(&mut self) -> (r: Option<T>)
        ensures
            final(self).back_seq() == old(self).back_seq(),
            old(self).front_seq().len() > 0 ==> (r == Some(old(self).front_seq()[0]) && final(self).front_seq() == old(self).front_seq().drop_first() && final(self).middle() == old(self).middle()),
            old(self).front_seq().len() == 0 ==> forall|j: int|
                is_first_nonempty(old(self).middle(), j) ==> (r == Some(old(self).middle()[j][0])
                    && final(self).front_seq() == old(self).middle()[j].drop_first() && final(self).middle() == old(self).middle().skip(j + 1)),
            (old(self).front_seq().len() == 0 && all_empty(old(self).middle())) ==> (r is None
                && final(self).front_seq().len() == 0 && final(self).middle().len() == 0),
            old(self).front_stream().len() > 0 ==> (r == Some(old(self).front_stream()[0]) && final(self).front_stream() == old(self).front_stream().drop_first()),
            old(self).front_stream().len() == 0 ==> r is None,
    {
        let ghost f0 = self.front_seq();
        let ghost m0 = self.middle();
        match &mut self.front {
            Option::Some(f) => {
                if f.len() > 0 {
                    let x = f.remove(0);
                    proof {
                        assert(f0.drop_first() =~= final(self).front_seq());
                        assert((f0 + m0.flatten()).drop_first() =~= f0.drop_first()
                            + m0.flatten());
                        assert((f0 + m0.flatten())[0] == f0[0]);
                    }
                    return Some(x);
                }
            },
            Option::None => {},
        }
        self.front = None;
        let ghost mut i: int = 0;
        loop
            invariant
                self.front is None,
                self.back_seq() == old(self).back_seq(),
                0 <= i <= m0.len(),
                self.middle() == m0.skip(i),
                forall|k: int| 0 <= k < i ==> m0[k].len() == 0,
                f0.len() == 0,
                m0 == old(self).middle(),
                f0 == old(self).front_seq(),
            decreases m0.len() - i,
        {
            if self.outer.len() == 0 {
                proof {
                    assert(m0.skip(i).len() == 0);
                    assert(i == m0.len());
                    lemma_flatten_skip_empty(m0, i);
                    assert(m0.skip(i).flatten().len() == 0);
                    assert(old(self).front_stream().len() == 0);
                }
                return None;
            }
            let ghost mpre = self.middle();
            let nxt = self.outer.remove(0);
            proof {
                assert(nxt@ == mpre[0]);
                assert(mpre[0] == m0[i]);
                assert(self.middle() =~= mpre.skip(1));
                assert(mpre.skip(1) =~= m0.skip(i + 1));
            }
            if nxt.len() > 0 {
                let mut stash = nxt;
                let x = stash.remove(0);
                self.front = Some(stash);
                proof {
                    assert(is_first_nonempty(m0, i));
                    assert(final(self).front_seq() =~= m0[i].drop_first());
                    // every first-nonempty position is this one
                    assert forall|j: int| is_first_nonempty(m0, j) implies j == i by {
                        if j < i {
                            assert(m0[j].len() == 0);
                        }
                        if i < j {
                            assert(m0[i].len() == 0);
                        }
                    }
                    // the whole stream loses exactly its first element
                    lemma_flatten_skip_empty(m0, i);
                    lemma_flatten_step_front(m0.skip(i));
                    assert(m0.skip(i)[0] == m0[i]);
                    assert(m0.skip(i).skip(1) =~= m0.skip(i + 1));
                    assert(old(self).front_stream() =~= m0[i] + m0.skip(i + 1).flatten());
                    assert(final(self).front_stream() =~= (m0[i] + m0.skip(
                        i + 1,
                    ).flatten()).drop_first());
                }
                return Some(x);
            }
            proof {
                i = i + 1;
            }
        }
    }

    /// The next element from the back: the back stash is drained first,
    /// then inner vectors are taken from the middle in reverse order, and
    /// the back stops when the middle is exhausted, leaving the front
    /// stash alone.
    pub fn next_back(&mut self) -> (r: Option<T>)
        ensures
            final(self).front_seq() == old(self).front_seq(),
            old(self).back_seq().len() > 0 ==> (r == Some(old(self).back_seq().last()) && final(self).back_seq() == old(self).back_seq().drop_last() && final(self).middle() == old(self).middle()),
            old(self).back_seq().len() == 0 ==> forall|j: int|
                is_last_nonempty(old(self).middle(), j) ==> (r == Some(
                    old(self).middle()[j].last(),
                ) && final(self).back_seq() == old(self).middle()[j].drop_last() && final(self).middle() == old(self).middle().take(j)),
            (old(self).back_seq().len() == 0 && all_empty(old(self).middle())) ==> (r is None
                && final(self).back_seq().len() == 0 && final(self).middle().len() == 0),
            old(self).back_stream().len() > 0 ==> (r == Some(old(self).back_stream().last())
                && final(self).back_stream() == old(self).back_stream().drop_last()),
            old(self).back_stream().len() == 0 ==> r is None,
    {
        let ghost b0 = self.back_seq();
        let ghost m0 = self.middle();
        match &mut self.back {
            Option::Some(b) => {
                if b.len() > 0 {
                    let x = b.pop();
                    match x {
                        Option::Some(v) => {
                            proof {
                                assert(b0.drop_last() =~= final(self).back_seq());
                                assert((m0.flatten() + b0).drop_last() =~= m0.flatten()
                                    + b0.drop_last());
                                assert((m0.flatten() + b0).last() == b0.last());
                            }
                            return Some(v);
                        },
                        Option::None => {
                            proof {
                                assert(false);
                            }
                            return None;
                        },
                    }
                }
            },
            Option::None => {},
        }
        self.back = None;
        let ghost mut t: int = m0.len() as int;
        loop
            invariant
                self.back is None,
                self.front_seq() == old(self).front_seq(),
                0 <= t <= m0.len(),
                self.middle() == m0.take(t),
                forall|k: int| t <= k < m0.len() ==> m0[k].len() == 0,
                b0.len() == 0,
                m0 == old(self).middle(),
                b0 == old(self).back_seq(),
            decreases t,
        {
            if self.outer.len() == 0 {
                proof {
                    assert(m0.take(t).len() == 0);
                    assert(t == 0);
                    lemma_flatten_take_empty(m0, t);
                    assert(m0.take(t).flatten().len() == 0);
                    assert(old(self).back_stream().len() == 0);
                }
                return None;
            }
            let ghost mpre = self.middle();
            let popped = self.outer.pop();
            let nxt = match popped {
                Option::Some(v) => v,
                Option::None => {
                    proof {
                        assert(false);
                    }
                    Vec::new()
                },
            };
            proof {
                assert(nxt@ == mpre[mpre.len() - 1]);
                assert(mpre[mpre.len() - 1] == m0[t - 1]);
                assert(self.middle() =~= mpre.take(mpre.len() - 1));
                assert(mpre.take(mpre.len() - 1) =~= m0.take(t - 1));
            }
            if nxt.len() > 0 {
                let mut stash = nxt;
                let x = stash.pop();
                self.back = Some(stash);
                match x {
                    Option::Some(v) => {
                        proof {
                            assert(is_last_nonempty(m0, t - 1));
                            assert(final(self).back_seq() =~= m0[t - 1].drop_last());
                            assert forall|j: int| is_last_nonempty(m0, j) implies j == t - 1 by {
                                if j < t - 1 {
                                    assert(m0[t - 1].len() == 0);
                                }
                                if t - 1 < j {
                                    assert(m0[j].len() == 0);
                                }
                            }
                            lemma_flatten_take_empty(m0, t);
                            lemma_flatten_step_back(m0.take(t));
                            assert(m0.take(t)[t - 1] == m0[t - 1]);
                            assert(m0.take(t).take(t - 1) =~= m0.take(t - 1));
                            assert(old(self).back_stream() =~= m0.take(t - 1).flatten() + m0[t
                                - 1]);
                            assert(final(self).back_stream() =~= (m0.take(t - 1).flatten() + m0[t
                                - 1]).drop_last());
                        }
                        return Some(v);
                    },
                    Option::None => {
                        proof {
                            assert(false);
                        }
                        return None;
                    },
                }
            }
            proof {
                t = t - 1;
            }
        }
    }

    /// How many elements the front would still hand out, draining the
    /// adapter from the front.
    pub fn count(self) -> (r: usize)
        requires
            self.front_stream().len() <= usize::MAX,
        ensures
            r == self.front_stream().len(),
    {
        let mut it = self;
        proof {
            assert(it.front_stream() == self.front_stream());
        }
        count_drain(&mut it)
    }
}

/// Drains `it` from the front, counting what comes out.
fn count_drain<T>(it: &mut Flatten<T>) -> (r: usize)
    requires
        old(it).front_stream().len() <= usize::MAX,
    ensures
        r == old(it).front_stream().len(),
{
    let ghost total: int = old(it).front_stream().len() as int;
    let mut acc: usize = 0;
    loop
        invariant
            total == old(it).front_stream().len() as int,
            acc + it.front_stream().len() == total,
            0 <= total <= usize::MAX,
        decreases it.front_stream().len(),
    {
        let ghost pre = it.front_stream();
        match it.next() {
            Option::Some(_) => {
                proof {
                    assert(pre.len() > 0);
                }
                acc = acc + 1;
            },
            Option::None => {
                proof {
                    assert(pre.len() == 0);
                    assert(acc == total);
                }
                return acc;
            },
        }
    }
}

/// Wraps a nested vector in a [`Flatten`] adapter over its elements.
pub fn flatten<T>(iter: Vec<Vec<T>>) -> (r: Flatten<T>)
    ensures
        r.front_seq() == Seq::<T>::empty(),
        r.back_seq() == Seq::<T>::empty(),
        r.middle() == nested_view(iter@),
{
    Flatten::new(iter)
}

/// Anything that can view itself as a nested vector gains a flattening
/// adapter.
pub trait IteratorExt<T>: Sized {
    /// The nested sequences this value stands for.
    spec fn as_nested(&self) -> Seq<Seq<T>>;

    /// A [`Flatten`] adapter over this value's elements.
    fn our_flatten(self) -> (r: Flatten<T>)
        ensures
            r.front_seq() == Seq::<T>::empty(),
            r.back_seq() == Seq::<T>::empty(),
            r.middle() == self.as_nested(),
    ;
}

impl<T> IteratorExt<T> for Vec<Vec<T>> {
    open spec fn as_nested(&self) -> Seq<Seq<T>> {
        nested_view(self@)
    }

    fn our_flatten(self) -> (r: Flatten<T>) {
        flatten(self)
    }
}

} // verus!
