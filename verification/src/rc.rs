use vstd::prelude::*;

verus! {

/// A reference-counted shared-ownership handle for a single-threaded heap
/// value.
///
/// Every handle points at one shared inner block that pairs the value with
/// a count of the live handles; `clone` raises the count by one without
/// copying or moving the value, dropping a handle lowers it, and the value's
/// destruction routine runs exactly once, when the last handle goes away.
/// The count is kept without any synchronization, so a handle must never
/// cross a thread boundary. The block and its count live behind
/// `std::rc::Rc`, whose unsynchronized counting protocol is exactly this
/// one; what the verifier checks here is stated over the shared value, and
/// the counting is relied on through the two calls documented below.
///
/// A handle never exposes exclusive access to the shared value; exclusive
/// mutation has to be layered on top with a [`crate::refcell::RefCell`].
pub struct Rc<T> {
    inner: std::rc::Rc<T>,
}

impl<T> View for Rc<T> {
    type V = T;

    closed spec fn view(&self) -> T {
        *self.inner
    }
}

/// Relies on std::rc::Rc::clone: it returns a new handle to the same
/// allocation, raising the handle count by one and leaving the shared
/// value untouched.
#[verifier::external_body]
fn clone_handle<T>(rc: &std::rc::Rc<T>) -> (r: std::rc::Rc<T>)
    ensures
        r == *rc,
{
    std::rc::Rc::clone(rc)
}

/// Relies on the std::rc::Rc implementation of Deref: it hands out a shared
/// reference to the value in the allocation.
#[verifier::external_body]
fn deref_handle<T>(rc: &std::rc::Rc<T>) -> (r: &T)
    ensures
        *r == **rc,
{
    &**rc
}

impl<T> Rc<T> {
    /// Moves `value` into a fresh shared allocation whose handle count
    /// starts at one, and returns that first handle.
    pub fn new(value: T) -> (r: Rc<T>)
        ensures
            r@ == value,
    {
        Rc { inner: std::rc::Rc::new(value) }
    }

    /// A shared view of the value; it stays valid for as long as the handle
    /// it was taken from, which the handle count keeps the allocation alive
    /// for.
    pub fn get(&self) -> (r: &T)
        ensures
            *r == self@,
    {
        deref_handle(&self.inner)
    }
}

impl<T> Clone for Rc<T> {
    /// A new handle to the same shared value: the handle count goes up by
    /// one and the value itself is neither copied nor moved.
    fn clone(&self) -> (r: Self)
        ensures
            r@ == self@,
    {
        Rc { inner: clone_handle(&self.inner) }
    }
}

} // verus!
