use crate::cell::Cell;
use vstd::prelude::*;

verus! {

/// The borrow state of a [`RefCell`]: no live borrow, `n >= 1` live
/// non-exclusive borrows, or one live exclusive borrow.
#[derive(Clone, Copy)]
pub enum RefState {
    Unshared,
    Shared(usize),
    Exclusive,
}

/// Whether a non-exclusive borrow may start in state `s`: only an
/// exclusive borrow excludes it.
pub open spec fn shared_borrow_allowed(s: RefState) -> bool {
    !(s is Exclusive)
}

/// Whether an exclusive borrow may start in state `s`: any live borrow
/// excludes it.
pub open spec fn exclusive_borrow_allowed(s: RefState) -> bool {
    s is Unshared
}

/// The state after asking for a non-exclusive borrow in state `s`; when
/// the borrow is refused, the state does not move.
pub open spec fn after_shared_borrow(s: RefState) -> RefState {
    match s {
        RefState::Unshared => RefState::Shared(1),
        RefState::Shared(n) => RefState::Shared((n + 1) as usize),
        RefState::Exclusive => RefState::Exclusive,
    }
}

/// The state after asking for an exclusive borrow in state `s`; when the
/// borrow is refused, the state does not move.
pub open spec fn after_exclusive_borrow(s: RefState) -> RefState {
    if s is Unshared {
        RefState::Exclusive
    } else {
        s
    }
}

/// The state after one live non-exclusive borrow ends: the last one
/// standing returns the cell to `Unshared`.
pub open spec fn after_shared_release(s: RefState) -> RefState {
    match s {
        RefState::Shared(n) => if n == 1 {
            RefState::Unshared
        } else {
            RefState::Shared((n - 1) as usize)
        },
        _ => s,
    }
}

/// The number of live non-exclusive borrows recorded in `s`.
pub open spec fn shared_count(s: RefState) -> nat {
    match s {
        RefState::Shared(n) => n as nat,
        _ => 0,
    }
}

/// Law: once an exclusive borrow has started, neither kind of borrow can
/// start until it ends, and after it ends a non-exclusive borrow can start
/// again.
pub proof fn lemma_exclusive_excludes(s: RefState)
    requires
        exclusive_borrow_allowed(s),
    ensures
        !shared_borrow_allowed(after_exclusive_borrow(s)),
        !exclusive_borrow_allowed(after_exclusive_borrow(s)),
        shared_borrow_allowed(RefState::Unshared),
        exclusive_borrow_allowed(RefState::Unshared),
{
}

/// Law: non-exclusive borrows may pile up whenever no exclusive borrow is
/// live; each one raises the count of live borrows by one, each release
/// lowers it by one, and the cell returns to `Unshared` exactly when the
/// last live borrow ends.
pub proof fn lemma_shared_count_tracking(s: RefState)
    requires
        !(s is Exclusive),
        s matches RefState::Shared(n) ==> n >= 1,
        shared_count(s) < usize::MAX,
    ensures
        shared_borrow_allowed(s),
        shared_count(after_shared_borrow(s)) == shared_count(s) + 1,
        s matches RefState::Shared(n) ==> shared_count(after_shared_release(s)) == n - 1,
        s matches RefState::Shared(n) ==> (after_shared_release(s) is Unshared <==> n == 1),
{
}

/// A cell whose one value may be read through transient non-exclusive
/// guards and written through a transient exclusive guard, with the
/// aliasing discipline checked at run time by the [`RefState`] machine:
/// any number of non-exclusive guards may be live at once, one exclusive
/// guard excludes everything else, and a conflicting request is refused
/// with an absence value rather than an error. The state lives in a
/// [`Cell`], and the machine performs no synchronization, so a cell must
/// stay on one thread.
///
/// A guard is returned by a successful borrow and must be given back to
/// the cell it came from, which is the sole trigger for releasing that
/// borrow; the verifier checks every transition against the functions
/// above.
pub struct RefCell<T> {
    value: T,
    state: Cell<RefState>,
}

/// A transient token standing for one live non-exclusive borrow of a
/// [`RefCell`]; giving it back to [`RefCell::release`] ends the borrow.
pub struct Ref {
    token: (),
}

/// A transient token standing for the one live exclusive borrow of a
/// [`RefCell`]; giving it back to [`RefCell::release_mut`] ends the
/// borrow.
pub struct RefMut {
    token: (),
}

impl<T> View for RefCell<T> {
    type V = T;

    closed spec fn view(&self) -> T {
        self.value
    }
}

impl<T> RefCell<T> {
    /// The borrow state the cell currently records.
    pub closed spec fn spec_state(&self) -> RefState {
        self.state@
    }

    /// A cell is well formed when a `Shared` state records at least one
    /// live borrow. Constructors establish this and every method keeps it.
    pub open spec fn wf(&self) -> bool {
        self.spec_state() matches RefState::Shared(n) ==> n >= 1
    }

    /// Wraps `value`; no borrow is live at first.
    pub fn new(value: T) -> (r: RefCell<T>)
        ensures
            r.wf(),
            r@ == value,
            r.spec_state() == RefState::Unshared,
    {
        RefCell { value, state: Cell::new(RefState::Unshared) }
    }

    /// Asks for a non-exclusive borrow: refused exactly while an exclusive
    /// borrow is live, and otherwise answered with a guard while the count
    /// of live borrows goes up by one. The value itself never moves.
    pub fn borrow(&mut self) -> (r: Option<Ref>)
        requires
            old(self).wf(),
            shared_count(old(self).spec_state()) < usize::MAX,
        ensures
            final(self).wf(),
            final(self)@ == old(self)@,
            r is Some <==> shared_borrow_allowed(old(self).spec_state()),
            final(self).spec_state() == after_shared_borrow(old(self).spec_state()),
    {
        match self.state.get() {
            RefState::Unshared => {
                self.state.set(RefState::Shared(1));
                Some(Ref { token: () })
            },
            RefState::Shared(n) => {
                self.state.set(RefState::Shared(n + 1));
                Some(Ref { token: () })
            },
            RefState::Exclusive => None,
        }
    }

    /// Asks for the exclusive borrow: refused exactly while any borrow is
    /// live, and otherwise answered with the one exclusive guard. The
    /// value itself never moves.
    pub fn borrow_mut(&mut self) -> (r: Option<RefMut>)
        requires
            old(self).wf(),
        ensures
            final(self).wf(),
            final(self)@ == old(self)@,
            r is Some <==> exclusive_borrow_allowed(old(self).spec_state()),
            final(self).spec_state() == after_exclusive_borrow(old(self).spec_state()),
    {
        match self.state.get() {
            RefState::Unshared => {
                self.state.set(RefState::Exclusive);
                Some(RefMut { token: () })
            },
            _ => None,
        }
    }

    /// Reads the value through a live non-exclusive guard.
    pub fn read<'a>(&'a self, guard: &Ref) -> (r: &'a T)
        requires
            self.spec_state() matches RefState::Shared(_),
        ensures
            *r == self@,
    {
        let _ = guard;
        &self.value
    }

    /// Reads the value through the live exclusive guard.
    pub fn read_mut<'a>(&'a self, guard: &RefMut) -> (r: &'a T)
        requires
            self.spec_state() is Exclusive,
        ensures
            *r == self@,
    {
        let _ = guard;
        &self.value
    }

    /// Mutable access to the value through the live exclusive guard; the
    /// state does not move while the reference is out.
    pub fn get_mut<'a>(&'a mut self, guard: &RefMut) -> (r: &'a mut T)
        requires
            old(self).wf(),
            old(self).spec_state() is Exclusive,
        ensures
            *r == old(self)@,
            final(self)@ == *final(r),
            final(self).spec_state() == old(self).spec_state(),
            final(self).wf(),
    {
        let _ = guard;
        &mut self.value
    }

    /// Ends the non-exclusive borrow that `guard` stands for: the count of
    /// live borrows goes down by one, and the last release returns the
    /// cell to `Unshared`. Handing back a guard while no non-exclusive
    /// borrow is live would be an internal-consistency failure, which the
    /// precondition rules out.
    pub fn release(&mut self, guard: Ref)
        requires
            old(self).wf(),
            old(self).spec_state() matches RefState::Shared(_),
        ensures
            final(self).wf(),
            final(self)@ == old(self)@,
            final(self).spec_state() == after_shared_release(old(self).spec_state()),
    {
        let _ = guard;
        match self.state.get() {
            RefState::Shared(n) => {
                if n == 1 {
                    self.state.set(RefState::Unshared);
                } else {
                    self.state.set(RefState::Shared(n - 1));
                }
            },
            _ => {},
        }
    }

    /// Ends the exclusive borrow that `guard` stands for, returning the
    /// cell to `Unshared`. Handing back a guard while the state is not
    /// `Exclusive` would be an internal-consistency failure, which the
    /// precondition rules out.
    pub fn release_mut(&mut self, guard: RefMut)
        requires
            old(self).wf(),
            old(self).spec_state() is Exclusive,
        ensures
            final(self).wf(),
            final(self)@ == old(self)@,
            final(self).spec_state() == RefState::Unshared,
    {
        let _ = guard;
        self.state.set(RefState::Unshared);
    }
}

} // verus!
