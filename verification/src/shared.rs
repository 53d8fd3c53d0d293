//! The trusted boundary around `std`'s shared-ownership and interior-mutability
//! primitives. Everything here either holds an outside type opaquely or wraps
//! a single `std` call; nothing in this module carries library logic.

use vstd::prelude::*;
use crate::inner_dyn_object::InnerDynObject;

verus! {

/// The shared slot a handle owns: reference-counted interior mutability
/// around an optional store; `None` marks the window during which a guard
/// holds the store. The slot is opaque to Verus, and its spec value stands
/// for the identity of the shared allocation: the trusted operations that
/// return a handle to the same allocation ([`clone_slot`], [`upgrade_link`])
/// return an equal value, and nothing ever claims two slots distinct. The
/// slot cannot be built from a declared `core::cell::Cell`: the back-link's
/// ghost target places the slot type inside the store itself, a type
/// recursion Verus refuses through a declared cell, so the whole slot is
/// held behind this opaque struct instead.
#[verifier::external_body]
#[verifier::reject_recursive_types(Key)]
pub struct StoreSlot<Key: Eq> {
    rc: std::rc::Rc<core::cell::Cell<Option<InnerDynObject<Key>>>>,
}

/// Relies on `std::rc::Rc::new` and `core::cell::Cell::new`: makes a fresh
/// slot holding no store yet. Nothing is promised of it: the slot's content
/// is runtime cell state that Verus does not model.
#[verifier::external_body]
pub fn slot_new<Key: Eq>() -> StoreSlot<Key> {
    StoreSlot { rc: std::rc::Rc::new(core::cell::Cell::new(None)) }
}

/// Relies on `core::cell::Cell::take`: moves the slot's content out, leaving
/// `None` behind. The call cannot panic or block. Two takes in a row return
/// different things, so nothing is promised of the result.
#[verifier::external_body]
pub fn slot_take<Key: Eq>(slot: &StoreSlot<Key>) -> Option<InnerDynObject<Key>> {
    slot.rc.take()
}

/// Relies on `core::cell::Cell::set`: moves the store into the slot,
/// dropping the previous content. The call is a plain move plus the drop of
/// the old `Option`, which runs no user code that could panic, so the
/// wrapper is `no_unwind`; the guard's destructor depends on that.
#[verifier::external_body]
pub fn slot_put<Key: Eq>(slot: &StoreSlot<Key>, store: InnerDynObject<Key>)
    opens_invariants none
    no_unwind
{
    slot.rc.set(Some(store));
}

/// Relies on `std::rc::Rc::clone`: returns a new owning handle to the same
/// allocation, so the result is the very same slot.
#[verifier::external_body]
pub fn clone_slot<Key: Eq>(slot: &StoreSlot<Key>) -> (r: StoreSlot<Key>)
    ensures
        r == *slot,
{
    StoreSlot { rc: std::rc::Rc::clone(&slot.rc) }
}

/// The raw non-owning pointer behind a [`WeakLink`]: a `std::rc::Weak`,
/// which Verus cannot model directly (its second generic parameter, the
/// allocator, cannot be written on stable Rust), held in an opaque struct.
#[verifier::external_body]
#[verifier::reject_recursive_types(Key)]
pub struct WeakPtr<Key: Eq> {
    ptr: std::rc::Weak<core::cell::Cell<Option<InnerDynObject<Key>>>>,
}

/// Relies on `std::rc::Rc::downgrade`: makes a non-owning pointer to the
/// given slot's allocation. The pointer does not keep the slot alive.
#[verifier::external_body]
fn weak_of<Key: Eq>(slot: &StoreSlot<Key>) -> WeakPtr<Key> {
    WeakPtr { ptr: std::rc::Rc::downgrade(&slot.rc) }
}

/// A non-owning link from a store back to the shared slot that owns it.
/// Beside the raw weak pointer it carries, in ghost state, the slot the
/// link was made from, so contracts can name what a successful upgrade
/// returns. [`make_link`] is the only constructor, and it couples the ghost
/// target to the very slot the pointer is downgraded from.
#[verifier::reject_recursive_types(Key)]
pub struct WeakLink<Key: Eq> {
    raw: WeakPtr<Key>,
    target: Ghost<StoreSlot<Key>>,
}

impl<Key: Eq> WeakLink<Key> {
    /// The slot this link was made from.
    pub closed spec fn spec_target(&self) -> StoreSlot<Key> {
        self.target@
    }
}

/// Makes a non-owning link to the given slot, recording the slot as the
/// link's ghost target.
pub fn make_link<Key: Eq>(slot: &StoreSlot<Key>) -> (r: WeakLink<Key>)
    ensures
        r.spec_target() == *slot,
{
    WeakLink { raw: weak_of(slot), target: Ghost(*slot) }
}

/// Relies on `std::rc::Weak::upgrade`: recovers an owning handle to the
/// linked allocation, or `None` when every owning handle has been dropped.
/// A successful upgrade returns a handle to the very allocation the weak
/// pointer was downgraded from; [`make_link`] is the only constructor of
/// [`WeakLink`] and sets the ghost target to that allocation's slot, so
/// under the slot's identity abstraction the result equals the target.
#[verifier::external_body]
pub fn upgrade_link<Key: Eq>(link: &WeakLink<Key>) -> (r: Option<StoreSlot<Key>>)
    ensures
        r matches Some(s) ==> s == link.spec_target(),
{
    match link.raw.ptr.upgrade() {
        Some(rc) => Some(StoreSlot { rc }),
        None => None,
    }
}

} // verus!
