//! Handles that refer to shared assets without keeping them alive.
use std::any::Any;
use std::sync::{Arc, Weak};
use vstd::prelude::*;
pub use crate::assets::weak_ref::arc_value;
use crate::assets::weak_ref::{weak_ref_from, weak_ref_strong_count, weak_ref_upgrade, weak_ref_weak_count, WeakRef};
use crate::collections::owned;

verus! {

/// Identifier of a loaded asset.
pub type AssetId = u64;

/// A handle to an asset of type `T`: its identifier, its path and a weak
/// reference to the asset itself.
#[verifier::reject_recursive_types(T)]
pub struct AssetHandle<T> {
    id: AssetId,
    inner: WeakRef<T>,
    path: String,
}

impl<T> Clone for AssetHandle<T> {
    fn clone(&self) -> (r: Self)
        ensures
            r.spec_id() == self.spec_id(),
            r.spec_path() == self.spec_path(),
            r.target() == self.target(),
    {
        AssetHandle { id: self.id, inner: self.inner.clone(), path: self.path.clone() }
    }
}

impl<T> AssetHandle<T> {
    /// The identifier the handle was made with.
    pub closed spec fn spec_id(&self) -> AssetId {
        self.id
    }

    /// The path the handle was made with.
    pub closed spec fn spec_path(&self) -> Seq<char> {
        self.path@
    }

    /// The asset the handle was made from.
    pub closed spec fn target(&self) -> T {
        self.inner.value()
    }

    /// Makes a handle to `resource` under the given identifier and path.
    pub fn new(id: AssetId, resource: &Arc<T>, path: &str) -> (r: Self)
        ensures
            r.spec_id() == id,
            r.spec_path() == path@,
            r.target() == **resource,
    {
        AssetHandle { id, inner: weak_ref_from(resource), path: owned(path) }
    }

    /// The asset's identifier.
    pub fn id(&self) -> (r: AssetId)
        ensures
            r == self.spec_id(),
    {
        self.id
    }

    /// The asset's path.
    pub fn path(&self) -> (r: &str)
        ensures
            r@ == self.spec_path(),
    {
        self.path.as_str()
    }

    /// The asset the handle was made from, if something still keeps it alive.
    pub fn get(&self) -> (r: Option<Arc<T>>)
        ensures
            r matches Some(a) ==> *a == self.target(),
    {
        weak_ref_upgrade(&self.inner)
    }

    /// Whether something still keeps the asset alive.
    pub fn is_valid(&self) -> bool {
        weak_ref_strong_count(&self.inner) > 0
    }

    /// The number of weak references to the asset.
    pub fn weak_count(&self) -> usize {
        weak_ref_weak_count(&self.inner)
    }

    /// The number of strong references to the asset.
    pub fn strong_count(&self) -> usize {
        weak_ref_strong_count(&self.inner)
    }
}

/// Two handles are equal when they name the same asset identifier.
impl<T> PartialEq for AssetHandle<T> {
    fn eq(&self, other: &Self) -> (r: bool) {
        self.id == other.id
    }
}

impl<T> vstd::std_specs::cmp::PartialEqSpecImpl for AssetHandle<T> {
    open spec fn obeys_eq_spec() -> bool {
        true
    }

    open spec fn eq_spec(&self, other: &Self) -> bool {
        self.spec_id() == other.spec_id()
    }
}

impl<T> Eq for AssetHandle<T> {}

/// A weak reference to a value of a type that is only known at run time.
#[verifier::external_body]
pub struct AnyWeakRef {
    inner: Weak<dyn Any + Send + Sync>,
}

/// `Arc::downgrade`, then erasing the type. Nothing is claimed of the result.
#[verifier::external_body]
fn any_weak_from<T: Send + Sync + 'static>(a: &Arc<T>) -> AnyWeakRef {
    let w: Weak<dyn Any + Send + Sync> = Arc::downgrade(a) as Weak<dyn Any + Send + Sync>;
    AnyWeakRef { inner: w }
}

/// `Weak::clone` on a type-erased reference. Nothing is claimed of it.
#[verifier::external_body]
fn any_weak_clone(w: &AnyWeakRef) -> AnyWeakRef {
    AnyWeakRef { inner: w.inner.clone() }
}

/// A strong reference to a value of a type that is only known at run time.
#[verifier::external_body]
pub struct AnyArc {
    inner: Arc<dyn Any + Send + Sync>,
}

/// `Weak::upgrade` on a type-erased reference: a strong reference if the
/// value is still alive. That depends on the strong references held
/// elsewhere; nothing is claimed of the result.
#[verifier::external_body]
fn any_weak_upgrade(w: &AnyWeakRef) -> Option<AnyArc> {
    match w.inner.upgrade() {
        Some(a) => Some(AnyArc { inner: a }),
        None => None,
    }
}

/// `Arc::downcast`: the same allocation as an `Arc<T>`, if the value is of
/// type `T`. The value's type is only known at run time; nothing is claimed
/// of the result.
#[verifier::external_body]
fn any_arc_downcast<T: Send + Sync + 'static>(a: AnyArc) -> Option<Arc<T>> {
    a.inner.downcast::<T>().ok()
}

/// `Weak::strong_count` on a type-erased reference; it depends on
/// references held elsewhere, so nothing is claimed of it.
#[verifier::external_body]
fn any_weak_strong_count(w: &AnyWeakRef) -> usize {
    w.inner.strong_count()
}

impl Clone for AnyWeakRef {
    fn clone(&self) -> Self {
        any_weak_clone(self)
    }
}

/// A handle whose asset type is only known at run time.
pub struct UntypedAssetHandle {
    id: AssetId,
    inner: AnyWeakRef,
    path: String,
    asset_type: &'static str,
}

impl Clone for UntypedAssetHandle {
    fn clone(&self) -> (r: Self)
        ensures
            r.spec_id() == self.spec_id(),
            r.spec_path() == self.spec_path(),
            r.spec_asset_type() == self.spec_asset_type(),
    {
        UntypedAssetHandle {
            id: self.id,
            inner: self.inner.clone(),
            path: self.path.clone(),
            asset_type: self.asset_type,
        }
    }
}

impl UntypedAssetHandle {
    /// The identifier the handle was made with.
    pub closed spec fn spec_id(&self) -> AssetId {
        self.id
    }

    /// The path the handle was made with.
    pub closed spec fn spec_path(&self) -> Seq<char> {
        self.path@
    }

    /// The name of the asset type the handle was made with.
    pub closed spec fn spec_asset_type(&self) -> Seq<char> {
        self.asset_type@
    }

    /// Makes a handle to `resource`, remembering `asset_type`, the name of its type.
    pub fn new<T: Send + Sync + 'static>(id: AssetId, resource: &Arc<T>, path: &str, asset_type: &'static str) -> (r: Self)
        ensures
            r.spec_id() == id,
            r.spec_path() == path@,
            r.spec_asset_type() == asset_type@,
    {
        UntypedAssetHandle {
            id,
            inner: any_weak_from(resource),
            path: owned(path),
            asset_type,
        }
    }

    /// The asset's identifier.
    pub fn id(&self) -> (r: AssetId)
        ensures
            r == self.spec_id(),
    {
        self.id
    }

    /// The asset's path.
    pub fn path(&self) -> (r: &str)
        ensures
            r@ == self.spec_path(),
    {
        self.path.as_str()
    }

    /// The name of the asset's type.
    pub fn asset_type_name(&self) -> (r: &'static str)
        ensures
            r@ == self.spec_asset_type(),
    {
        self.asset_type
    }

    /// A typed handle to the asset, if it is still alive and of type `T`;
    /// otherwise `None`. The handle keeps this handle's identifier and path,
    /// and it refers to the allocation that came back.
    pub fn typed<T: Send + Sync + 'static>(&self) -> (r: Option<AssetHandle<T>>)
        ensures
            r matches Some(h) ==> {
                &&& h.spec_id() == self.spec_id()
                &&& h.spec_path() == self.spec_path()
            },
    {
        match any_weak_upgrade(&self.inner) {
            Some(a) => match any_arc_downcast::<T>(a) {
                Some(arc) => Some(AssetHandle::new(self.id, &arc, self.path.as_str())),
                None => None,
            },
            None => None,
        }
    }

    /// Whether something still keeps the asset alive.
    pub fn is_valid(&self) -> bool {
        any_weak_strong_count(&self.inner) > 0
    }
}

/// Hands out fresh asset identifiers, starting from 1.
pub struct AssetHandleManager {
    next_id: AssetId,
}

impl AssetHandleManager {
    /// The identifier the next request gets.
    pub closed spec fn spec_next_id(&self) -> AssetId {
        self.next_id
    }

    /// A manager whose first identifier is 1.
    pub fn new() -> (r: Self)
        ensures
            r.spec_next_id() == 1,
    {
        AssetHandleManager { next_id: 1 }
    }

    /// The identifier the next request gets.
    pub fn next_id(&self) -> (r: AssetId)
        ensures
            r == self.spec_next_id(),
    {
        self.next_id
    }

    /// Hands out the next identifier.
    pub fn generate_id(&mut self) -> (id: AssetId)
        requires
            old(self).spec_next_id() < u64::MAX,
        ensures
            id == old(self).spec_next_id(),
            final(self).spec_next_id() == id + 1,
    {
        let id = self.next_id;
        self.next_id = self.next_id + 1;
        id
    }

    /// A typed handle to `resource` under a fresh identifier.
    pub fn create_handle<T: Send + Sync + 'static>(&mut self, resource: Arc<T>, path: &str) -> (r: AssetHandle<T>)
        requires
            old(self).spec_next_id() < u64::MAX,
        ensures
            r.spec_id() == old(self).spec_next_id(),
            r.spec_path() == path@,
            r.target() == arc_value(&resource),
            final(self).spec_next_id() == old(self).spec_next_id() + 1,
    {
        let id = self.generate_id();
        AssetHandle::new(id, &resource, path)
    }

    /// An untyped handle to `resource` (of the type named `asset_type`) under a fresh identifier.
    pub fn create_untyped_handle<T: Send + Sync + 'static>(&mut self, resource: Arc<T>, path: &str, asset_type: &'static str) -> (r: UntypedAssetHandle)
        requires
            old(self).spec_next_id() < u64::MAX,
        ensures
            r.spec_id() == old(self).spec_next_id(),
            r.spec_path() == path@,
            r.spec_asset_type() == asset_type@,
            final(self).spec_next_id() == old(self).spec_next_id() + 1,
    {
        let id = self.generate_id();
        UntypedAssetHandle::new(id, &resource, path, asset_type)
    }
}

impl Default for AssetHandleManager {
    fn default() -> (r: Self)
        ensures
            r.spec_next_id() == 1,
    {
        Self::new()
    }
}

} // verus!
