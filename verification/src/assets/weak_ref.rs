//! Non-owning references to shared values. Each one carries, for the
//! proofs, the value it was made from; only the functions of this file make
//! one, so that value is always the one `Arc::downgrade` was given.
use std::sync::{Arc, Weak};
use vstd::prelude::*;

verus! {

/// The value an `Arc` shares.
pub open spec fn arc_value<T>(a: &Arc<T>) -> T {
    **a
}

/// A `std::sync::Weak` (a type with an allocator parameter, so it is held
/// here as an opaque field).
#[verifier::external_body]
#[verifier::reject_recursive_types(T)]
struct RawWeak<T> {
    inner: Weak<T>,
}

/// A non-owning reference to a shared value, with the value it refers to.
#[verifier::reject_recursive_types(T)]
pub struct WeakRef<T> {
    raw: RawWeak<T>,
    value: Ghost<T>,
}

impl<T> WeakRef<T> {
    /// The value the reference refers to: that of the `Arc` it was made from.
    pub closed spec fn value(&self) -> T {
        self.value@
    }
}

/// `Arc::downgrade`: a weak reference to the allocation that `a` shares,
/// which refers to `a`'s value.
#[verifier::external_body]
pub(crate) fn weak_ref_from<T>(a: &Arc<T>) -> (r: WeakRef<T>)
    ensures
        r.value() == arc_value(a),
{
    WeakRef { raw: RawWeak { inner: Arc::downgrade(a) }, value: Ghost(arc_value(a)) }
}

/// `Weak::clone`: another weak reference to the same allocation.
#[verifier::external_body]
fn weak_ref_clone<T>(w: &WeakRef<T>) -> (r: WeakRef<T>)
    ensures
        r.value() == w.value(),
{
    WeakRef { raw: RawWeak { inner: w.raw.inner.clone() }, value: Ghost(w.value()) }
}

/// `Weak::upgrade`: a strong reference to the allocation if something still
/// keeps it alive; it is the allocation the reference was made from, so it
/// holds that value. Whether it is still alive depends on the strong
/// references held elsewhere, so whether `Some` comes back is not claimed.
#[verifier::external_body]
pub(crate) fn weak_ref_upgrade<T>(w: &WeakRef<T>) -> (r: Option<Arc<T>>)
    ensures
        r matches Some(a) ==> arc_value(&a) == w.value(),
{
    w.raw.inner.upgrade()
}

/// `Weak::strong_count`: how many strong references exist right now.
/// It depends on references held elsewhere; nothing is claimed of it.
#[verifier::external_body]
pub(crate) fn weak_ref_strong_count<T>(w: &WeakRef<T>) -> usize {
    w.raw.inner.strong_count()
}

/// `Weak::weak_count`: how many weak references exist right now.
/// It depends on references held elsewhere; nothing is claimed of it.
#[verifier::external_body]
pub(crate) fn weak_ref_weak_count<T>(w: &WeakRef<T>) -> usize {
    w.raw.inner.weak_count()
}

impl<T> Clone for WeakRef<T> {
    fn clone(&self) -> (r: Self)
        ensures
            r.value() == self.value(),
    {
        weak_ref_clone(self)
    }
}

} // verus!
