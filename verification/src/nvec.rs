use vstd::prelude::*;

verus! {

/// The capacity that the doubling policy assigns to a buffer holding `n`
/// elements: zero while the buffer is empty (allocation is deferred), four
/// for the first four elements, and afterwards always the smallest doubling
/// of four that holds `n` elements.
pub open spec fn cap_of(n: nat) -> nat
    decreases n,
{
    if n == 0 {
        0
    } else if n <= 4 {
        4
    } else {
        2 * cap_of(((n + 1) / 2) as nat)
    }
}

/// The number of growth steps (the initial allocation counts as the first)
/// that the policy has performed once `n` elements have been appended.
pub open spec fn growths_of(n: nat) -> nat
    decreases n,
{
    if n == 0 {
        0
    } else if n <= 4 {
        1
    } else {
        1 + growths_of(((n + 1) / 2) as nat)
    }
}

/// Two to the power `k`.
pub open spec fn pow2(k: nat) -> nat
    decreases k,
{
    if k == 0 {
        1
    } else {
        2 * pow2((k - 1) as nat)
    }
}

/// The assigned capacity always has room for all `n` elements, is zero
/// exactly while the buffer is empty, and never falls below four once
/// anything has been appended.
pub proof fn lemma_cap_of_bounds(n: nat)
    ensures
        n <= cap_of(n),
        n == 0 ==> cap_of(n) == 0,
        n >= 1 ==> cap_of(n) >= 4,
    decreases n,
{
    if n > 4 {
        lemma_cap_of_bounds(((n + 1) / 2) as nat);
    }
}

/// How one append moves the capacity: a first append allocates room for
/// four, an append into a full buffer doubles the capacity, and any other
/// append leaves it unchanged.
pub proof fn lemma_cap_of_step(n: nat)
    ensures
        n == 0 ==> cap_of(n + 1) == 4,
        n >= 1 && n == cap_of(n) ==> cap_of(n + 1) == 2 * n,
        n >= 1 && n < cap_of(n) ==> cap_of(n + 1) == cap_of(n),
    decreases n,
{
    lemma_cap_of_bounds(n);
    if n == 4 {
        assert(cap_of(3) == 4);
        assert(cap_of(5) == 2 * cap_of(3));
    }
    if n > 4 {
        let m = ((n + 1) / 2) as nat;
        lemma_cap_of_step(m);
        lemma_cap_of_bounds(m);
        assert(cap_of(n) == 2 * cap_of(m));
        assert(cap_of(n + 1) == 2 * cap_of(((n + 2) / 2) as nat));
        if n == cap_of(n) {
            // `n` is twice a policy capacity, hence even, and `m` is `n / 2`.
            assert(n % 2 == 0);
            assert(m == n / 2);
            assert(cap_of(m) == m);
            assert((n + 2) / 2 == m + 1);
            assert(cap_of((m + 1) as nat) == 2 * m);
        } else {
            if n % 2 == 0 {
                assert(m == n / 2);
                assert(m < cap_of(m));
                assert((n + 2) / 2 == m + 1);
                assert(cap_of((m + 1) as nat) == cap_of(m));
            } else {
                assert((n + 2) / 2 == m);
            }
        }
    }
}

/// Law: after the k-th growth that an append triggered, the capacity is
/// exactly `4 * 2^(k-1)`; equivalently, a buffer of `n >= 1` elements has
/// seen `growths_of(n)` growths and has capacity `4 * 2^(growths_of(n)-1)`.
pub proof fn lemma_capacity_doubling(n: nat)
    requires
        n >= 1,
    ensures
        growths_of(n) >= 1,
        cap_of(n) == 4 * pow2((growths_of(n) - 1) as nat),
    decreases n,
{
    if n > 4 {
        lemma_capacity_doubling(((n + 1) / 2) as nat);
    }
}

/// The view that a run of appends builds, one [`NVec::push`] at a time,
/// starting from an empty buffer: each append extends the view by its
/// value, exactly as the contract of `push` states.
pub open spec fn view_after_pushes<T>(vs: Seq<T>) -> Seq<T>
    decreases vs.len(),
{
    if vs.len() == 0 {
        Seq::empty()
    } else {
        view_after_pushes(vs.drop_last()).push(vs.last())
    }
}

/// Law: appending any sequence of values onto an empty buffer leaves the
/// buffer viewing exactly that sequence, so its length is the number of
/// appends and, by the contract of [`NVec::get`], reading index `i` gives
/// the `i`-th appended value below that length and nothing at or above it.
pub proof fn lemma_view_after_pushes<T>(vs: Seq<T>)
    ensures
        view_after_pushes(vs) == vs,
    decreases vs.len(),
{
    if vs.len() > 0 {
        lemma_view_after_pushes(vs.drop_last());
        assert(vs.drop_last().push(vs.last()) =~= vs);
    }
}

/// A growable contiguous buffer with explicit capacity bookkeeping.
///
/// Elements live in a backing store owned exclusively by the buffer; the
/// `cap` field records how many elements the buffer has reserved room for
/// under its growth policy: nothing is reserved before the first append,
/// the first append reserves room for four elements, and an append into a
/// full buffer doubles the reservation. Allocation sizing and offset
/// arithmetic belong to the backing store, which also releases every live
/// element and then the block itself in one teardown step when the buffer
/// is dropped; the capacity bookkeeping under the doubling policy is what
/// this type itself maintains, and what the contracts below pin down.
pub struct NVec<T> {
    data: Vec<T>,
    cap: usize,
}

impl<T> View for NVec<T> {
    type V = Seq<T>;

    closed spec fn view(&self) -> Seq<T> {
        self.data@
    }
}

impl<T> NVec<T> {
    /// The recorded capacity, in elements.
    pub closed spec fn spec_capacity(&self) -> nat {
        self.cap as nat
    }

    /// A buffer is well formed when its recorded capacity is exactly what
    /// the doubling policy assigns to its length. Constructors establish
    /// this and every method preserves it.
    pub open spec fn wf(&self) -> bool {
        self.spec_capacity() == cap_of(self@.len())
    }

    /// An empty buffer; no room is reserved until the first append.
    pub fn new() -> (r: NVec<T>)
        ensures
            r.wf(),
            r@ == Seq::<T>::empty(),
            r.spec_capacity() == 0,
    {
        NVec { data: Vec::new(), cap: 0 }
    }

    /// The number of elements the buffer has reserved room for.
    pub fn capacity(&self) -> (r: usize)
        ensures
            r as nat == self.spec_capacity(),
    {
        self.cap
    }

    /// The number of elements logically present.
    pub fn len(&self) -> (r: usize)
        ensures
            r as nat == self@.len(),
    {
        self.data.len()
    }

    /// The element at `index`, or nothing when `index` is out of range.
    pub fn get(&self, index: usize) -> (r: Option<&T>)
        ensures
            index < self@.len() ==> (r matches Some(v) && *v == self@[index as int]),
            index >= self@.len() ==> r is None,
    {
        if index >= self.data.len() {
            return None;
        }
        Some(&self.data[index])
    }

    /// Appends `value` at index `len`, reserving room first when none is
    /// left: the first append reserves room for four elements, an append
    /// into a full buffer doubles the reservation, and any other append
    /// leaves it unchanged. A buffer so large that doubling would overflow
    /// the address space is outside the contract.
    pub fn push(&mut self, value: T)
        requires
            old(self).wf(),
            old(self)@.len() < usize::MAX / 2,
        ensures
            final(self).wf(),
            final(self)@ == old(self)@.push(value),
            old(self).spec_capacity() == 0 ==> final(self).spec_capacity() == 4,
            old(self)@.len() == old(self).spec_capacity() && old(self)@.len() >= 1
                ==> final(self).spec_capacity() == 2 * old(self).spec_capacity(),
            old(self)@.len() < old(self).spec_capacity()
                ==> final(self).spec_capacity() == old(self).spec_capacity(),
    {
        proof {
            lemma_cap_of_bounds(self@.len());
            lemma_cap_of_step(self@.len());
        }
        if self.cap == 0 {
            self.cap = 4;
        } else if self.data.len() == self.cap {
            self.cap = self.cap * 2;
        }
        self.data.push(value);
    }
}

} // verus!
