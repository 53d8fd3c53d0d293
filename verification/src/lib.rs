//! A dynamic, runtime-typed property container.
//!
//! Properties are created and removed at runtime and each holds a value of an
//! independently chosen shape; type safety is enforced by runtime tag checks
//! rather than compile-time generics. The crate offers three layers: a single
//! typed cell ([`DynProperty`]), a keyed store of cells ([`InnerDynObject`]),
//! and a reference-counted, interior-mutable handle to a store ([`DynObject`])
//! with a single-borrower access discipline.

pub mod dyn_property;
pub mod inner_dyn_object;
pub mod shared;

pub use dyn_property::DynProperty;
pub use dyn_property::DynTag;
pub use dyn_property::PayloadMut;
pub use dyn_property::DynValue;
pub use dyn_property::UndefinedProperty;
pub use inner_dyn_object::InnerDynObject;

use vstd::prelude::*;
use std::hash::Hash;
use crate::inner_dyn_object::keys_obey_eq;
use crate::shared::clone_slot;
use crate::shared::make_link;
use crate::shared::slot_new;
use crate::shared::slot_take;
use crate::shared::slot_put;
use crate::shared::upgrade_link;
use crate::shared::StoreSlot;

verus! {

/// A reference-counted, interior-mutable owner of one [`InnerDynObject`].
/// Cloning a handle shares the store instead of copying it; at each point of
/// use, [`DynObject::aquire`] takes exclusive access to the store.
#[verifier::reject_recursive_types(Key)]
pub struct DynObject<Key: Eq> {
    inner: StoreSlot<Key>,
}

impl<Key: Eq> DynObject<Key> {
    /// The shared slot this handle owns.
    pub closed spec fn spec_slot(&self) -> StoreSlot<Key> {
        self.inner
    }
}

/// Exclusive access to a shared store, taken with [`DynObject::aquire`].
/// While a guard exists, no other guard for the same store can be taken.
/// The store goes back to its slot on every exit path: dropping the guard
/// releases it, and [`StoreGuard::release`] is the explicit spelling.
#[verifier::reject_recursive_types(Key)]
pub struct StoreGuard<Key: Eq> {
    store: Option<InnerDynObject<Key>>,
    slot: StoreSlot<Key>,
}

impl<Key: Eq> StoreGuard<Key> {
    /// The guard still holds its store; true from `aquire` until the guard
    /// is released or dropped.
    pub closed spec fn holds_store(&self) -> bool {
        self.store is Some
    }

    /// The store the guard holds.
    pub closed spec fn spec_store(&self) -> InnerDynObject<Key>
        recommends
            self.holds_store(),
    {
        self.store.unwrap()
    }

    /// The guard holds the store of this handle's slot.
    pub closed spec fn shares_slot_of(&self, handle: &DynObject<Key>) -> bool {
        self.slot == handle.inner
    }
}

impl<Key: Eq + Hash> StoreGuard<Key> {
    /// A reference to the held store.
    pub fn store(&self) -> (r: &InnerDynObject<Key>)
        requires
            self.holds_store(),
        ensures
            *r == self.spec_store(),
    {
        self.store.as_ref().unwrap()
    }

    /// A mutable reference to the held store, through which properties are
    /// created, read, changed and removed.
    pub fn store_mut(&mut self) -> (r: &mut InnerDynObject<Key>)
        requires
            old(self).holds_store(),
        ensures
            *r == old(self).spec_store(),
            final(self).holds_store(),
            final(self).spec_store() == *final(r),
            forall|h: DynObject<Key>| #[trigger] final(self).shares_slot_of(&h) == old(
                self,
            ).shares_slot_of(&h),
    {
        self.store.as_mut().unwrap()
    }

    /// Hands the store back to the slot the guard was taken from, ending
    /// exclusive access; the next `aquire` on any handle of that slot can
    /// succeed again. Equivalent to letting the guard go out of scope.
    pub fn release(self) {
    }
}

impl<Key: Eq> Drop for StoreGuard<Key> {
    /// Hands the store back on every exit path - normal flow, early return,
    /// or unwinding - so a guard can never leave its slot empty for good.
    fn drop(&mut self)
        opens_invariants none
        no_unwind
    {
        let mut taken: Option<InnerDynObject<Key>> = None;
        core::mem::swap(&mut taken, &mut self.store);
        match taken {
            Some(store) => slot_put(&self.slot, store),
            None => (),
        }
    }
}

impl<Key: Eq + Hash> DynObject<Key> {
    /// Creates a handle owning a fresh empty store, and installs the store's
    /// back-link so the handle can later be rebuilt from the store alone.
    pub fn new() -> (r: DynObject<Key>)
        requires
            keys_obey_eq::<Key>(),
    {
        let slot: StoreSlot<Key> = slot_new();
        let link = make_link(&slot);
        let mut store = InnerDynObject::<Key>::new();
        store.set_uplink(link);
        slot_put(&slot, store);
        DynObject { inner: slot }
    }

    /// Takes exclusive access to the shared store. Returns `None` while
    /// another guard for the same store is outstanding: acquiring twice
    /// without releasing violates the single-borrower discipline. Once the
    /// outstanding guard is released or dropped, acquiring succeeds again.
    pub fn aquire(&self) -> (r: Option<StoreGuard<Key>>)
        ensures
            r matches Some(g) ==> g.shares_slot_of(self) && g.holds_store(),
    {
        match slot_take(&self.inner) {
            Some(store) => Some(StoreGuard { store: Some(store), slot: clone_slot(&self.inner) }),
            None => None,
        }
    }

    /// Rebuilds an owning handle from a borrowed store through the store's
    /// back-link. Yields `None` when no back-link was ever installed, or
    /// when every owning handle has been dropped and the slot is gone; a
    /// recovered handle owns the very slot the back-link points at.
    pub fn create_from(store: &InnerDynObject<Key>) -> (r: Option<DynObject<Key>>)
        ensures
            store.spec_uplink() is None ==> r is None,
            r matches Some(h) ==> (store.spec_uplink() matches Some(link) && h.spec_slot()
                == link.spec_target()),
    {
        match store.get_uplink() {
            Some(link) => match upgrade_link(link) {
                Some(slot) => Some(DynObject { inner: slot }),
                None => None,
            },
            None => None,
        }
    }
}

impl<Key: Eq + Hash> Clone for DynObject<Key> {
    /// Returns a new handle sharing the same store: the share count grows,
    /// nothing is copied, and changes made through any handle are visible
    /// through every other.
    fn clone(&self) -> (r: Self)
        ensures
            r == *self,
    {
        DynObject { inner: clone_slot(&self.inner) }
    }
}

} // verus!
