//! The keyed store of typed cells: a mapping from keys to [`DynProperty`]
//! cells, with create/set/remove/query operations, a shared sentinel cell for
//! absent-key lookups, and an optional non-owning back-link to the shared
//! handle that owns the store.

use vstd::prelude::*;
use vstd::std_specs::cmp::PartialEqSpec;
use std::hash::Hash;
use crate::dyn_property::DynProperty;
use crate::dyn_property::DynTag;
use crate::dyn_property::DynValue;
use crate::dyn_property::UndefinedProperty;
use crate::shared::WeakLink;

verus! {

/// Exec equality on `Key` is usable and agrees with spec equality. The store
/// models itself as a `Map` keyed by spec equality, so the `==` the search
/// runs must mean exactly that.
pub open spec fn keys_obey_eq<Key: PartialEq>() -> bool {
    &&& <Key as PartialEqSpec>::obeys_eq_spec()
    &&& forall|a: Key, b: Key| #[trigger] a.eq_spec(&b) <==> a == b
}

/// No key occurs twice in the association sequence.
pub open spec fn distinct_keys<Key>(s: Seq<(Key, DynProperty)>) -> bool {
    forall|i: int, j: int| 0 <= i < j < s.len() ==> s[i].0 != s[j].0
}

/// The mapping that an association sequence of cells stands for, each entry
/// taken at the value its cell holds.
pub open spec fn assoc_view<Key>(s: Seq<(Key, DynProperty)>) -> Map<Key, DynValue>
    decreases s.len(),
{
    if s.len() == 0 {
        Map::empty()
    } else {
        assoc_view(s.drop_last()).insert(s.last().0, s.last().1@)
    }
}

/// What indexing a store mapped by `m` at `key` yields: the stored value when
/// the key is present, the undefined sentinel value otherwise.
pub open spec fn lookup<Key>(m: Map<Key, DynValue>, key: Key) -> DynValue {
    if m.dom().contains(key) {
        m[key]
    } else {
        DynValue::Undefined(UndefinedProperty)
    }
}

/// What creating `key` with value `v` in a store mapped by `m` does: on a
/// fresh key the entry is added; on an existing key nothing changes and `v`
/// comes back untouched.
pub open spec fn create_in<Key>(m: Map<Key, DynValue>, key: Key, v: DynValue) -> (Map<
    Key,
    DynValue,
>, Result<(), DynValue>) {
    if m.dom().contains(key) {
        (m, Err(v))
    } else {
        (m.insert(key, v), Ok(()))
    }
}

/// What setting `key` to `v` in a store mapped by `m` does: when the key is
/// present and `v` has the entry's tag, the entry is replaced and the old
/// value comes back; otherwise nothing changes and `v` comes back untouched.
pub open spec fn set_in<Key>(m: Map<Key, DynValue>, key: Key, v: DynValue) -> (Map<
    Key,
    DynValue,
>, Result<DynValue, DynValue>) {
    if m.dom().contains(key) && v.spec_tag() == m[key].spec_tag() {
        (m.insert(key, v), Ok(m[key]))
    } else {
        (m, Err(v))
    }
}

/// What removing `key` at type `tag` from a store mapped by `m` does: when
/// the key is present and its entry has that tag, the entry disappears and
/// its value comes back; otherwise nothing changes.
pub open spec fn remove_in<Key>(m: Map<Key, DynValue>, key: Key, tag: DynTag) -> (Map<
    Key,
    DynValue,
>, Result<DynValue, ()>) {
    if m.dom().contains(key) && m[key].spec_tag() == tag {
        (m.remove(key), Ok(m[key]))
    } else {
        (m, Err(()))
    }
}

/// A key is in the domain of an association sequence's mapping exactly when
/// some entry carries it.
pub proof fn lemma_assoc_view_dom<Key>(s: Seq<(Key, DynProperty)>, k: Key)
    ensures
        assoc_view(s).dom().contains(k) <==> exists|i: int| 0 <= i < s.len() && s[i].0 == k,
    decreases s.len(),
{
    if s.len() == 0 {
    } else {
        let dl = s.drop_last();
        lemma_assoc_view_dom(dl, k);
        if s.last().0 == k {
            assert(s[s.len() - 1].0 == k);
        } else {
            if exists|i: int| 0 <= i < s.len() && s[i].0 == k {
                let i = choose|i: int| 0 <= i < s.len() && s[i].0 == k;
                assert(dl[i].0 == k);
            }
            if exists|i: int| 0 <= i < dl.len() && dl[i].0 == k {
                let i = choose|i: int| 0 <= i < dl.len() && dl[i].0 == k;
                assert(s[i].0 == k);
            }
        }
    }
}

/// Dropping the last entry keeps the keys distinct.
pub proof fn lemma_distinct_drop_last<Key>(s: Seq<(Key, DynProperty)>)
    requires
        distinct_keys(s),
        s.len() > 0,
    ensures
        distinct_keys(s.drop_last()),
{
    let dl = s.drop_last();
    assert forall|i: int, j: int| 0 <= i < j < dl.len() implies dl[i].0 != dl[j].0 by {
        assert(dl[i] == s[i]);
        assert(dl[j] == s[j]);
    }
}

/// With distinct keys, the mapping takes each entry to the value its cell
/// holds.
pub proof fn lemma_assoc_view_at<Key>(s: Seq<(Key, DynProperty)>, i: int)
    requires
        distinct_keys(s),
        0 <= i < s.len(),
    ensures
        assoc_view(s).dom().contains(s[i].0),
        assoc_view(s)[s[i].0] == s[i].1@,
    decreases s.len(),
{
    let dl = s.drop_last();
    if i == s.len() - 1 {
    } else {
        lemma_distinct_drop_last(s);
        assert(dl[i] == s[i]);
        lemma_assoc_view_at(dl, i);
        assert(s[i].0 != s[s.len() - 1].0);
    }
}

/// Appending a fresh entry inserts it into the mapping.
pub proof fn lemma_assoc_view_push<Key>(s: Seq<(Key, DynProperty)>, k: Key, p: DynProperty)
    ensures
        assoc_view(s.push((k, p))) == assoc_view(s).insert(k, p@),
{
    let pushed = s.push((k, p));
    assert(pushed.drop_last() =~= s);
    assert(pushed.last() == (k, p));
}

/// Appending a key nobody carries keeps the keys distinct.
pub proof fn lemma_distinct_push<Key>(s: Seq<(Key, DynProperty)>, k: Key, p: DynProperty)
    requires
        distinct_keys(s),
        forall|i: int| 0 <= i < s.len() ==> s[i].0 != k,
    ensures
        distinct_keys(s.push((k, p))),
{
    let pushed = s.push((k, p));
    assert forall|i: int, j: int| 0 <= i < j < pushed.len() implies pushed[i].0 != pushed[j].0 by {
        assert(pushed[i] == s[i]);
        if j < s.len() {
            assert(pushed[j] == s[j]);
        }
    }
}

/// Removing an entry removes exactly its key from the mapping, and keeps the
/// remaining keys distinct.
pub proof fn lemma_assoc_view_remove<Key>(s: Seq<(Key, DynProperty)>, i: int)
    requires
        distinct_keys(s),
        0 <= i < s.len(),
    ensures
        distinct_keys(s.remove(i)),
        assoc_view(s.remove(i)) == assoc_view(s).remove(s[i].0),
    decreases s.len(),
{
    let removed = s.remove(i);
    assert forall|x: int, y: int| 0 <= x < y < removed.len() implies removed[x].0 != removed[y].0 by {
        assert(removed[x] == (if x < i { s[x] } else { s[x + 1] }));
        assert(removed[y] == (if y < i { s[y] } else { s[y + 1] }));
    }
    let dl = s.drop_last();
    lemma_distinct_drop_last(s);
    if i == s.len() - 1 {
        assert(removed =~= dl);
        lemma_assoc_view_dom(dl, s[i].0);
        assert forall|j: int| 0 <= j < dl.len() implies dl[j].0 != s[i].0 by {
            assert(dl[j] == s[j]);
        }
        assert(assoc_view(dl).insert(s[i].0, s[i].1@).remove(s[i].0) =~= assoc_view(dl));
    } else {
        lemma_assoc_view_remove(dl, i);
        assert(removed.drop_last() =~= dl.remove(i));
        assert(removed.last() == s.last());
        assert(s[i].0 != s.last().0);
        assert(assoc_view(dl.remove(i)).insert(s.last().0, s.last().1@) =~= assoc_view(
            dl,
        ).insert(s.last().0, s.last().1@).remove(s[i].0));
    }
}

/// Replacing the cell of an entry changes exactly that entry's value in the
/// mapping, and keeps the keys distinct.
pub proof fn lemma_assoc_view_update<Key>(s: Seq<(Key, DynProperty)>, i: int, p: DynProperty)
    requires
        distinct_keys(s),
        0 <= i < s.len(),
    ensures
        distinct_keys(s.update(i, (s[i].0, p))),
        assoc_view(s.update(i, (s[i].0, p))) == assoc_view(s).insert(s[i].0, p@),
    decreases s.len(),
{
    let u = s.update(i, (s[i].0, p));
    assert forall|x: int| 0 <= x < u.len() implies u[x].0 == s[x].0 by {
        if x != i {
            assert(u[x] == s[x]);
        }
    }
    if i == s.len() - 1 {
        assert(u.drop_last() =~= s.drop_last());
        assert(u.last() == (s[i].0, p));
    } else {
        lemma_distinct_drop_last(s);
        lemma_assoc_view_update(s.drop_last(), i, p);
        assert(s.drop_last()[i] == s[i]);
        assert(u.drop_last() =~= s.drop_last().update(i, (s[i].0, p)));
        assert(u.last() == s.last());
        assert(s[i].0 != s.last().0);
        assert(assoc_view(s.drop_last()).insert(s[i].0, p@).insert(s.last().0, s.last().1@)
            =~= assoc_view(s.drop_last()).insert(s.last().0, s.last().1@).insert(s[i].0, p@));
    }
}

/// After creating a fresh key the key exists, and a second create for the
/// same key fails, handing the second value back unchanged and leaving the
/// store as it was.
pub proof fn lemma_create_conflicts_with_itself<Key>(
    m: Map<Key, DynValue>,
    k: Key,
    v: DynValue,
    w: DynValue,
)
    requires
        !m.dom().contains(k),
    ensures
        create_in(m, k, v) == (m.insert(k, v), Ok::<(), DynValue>(())),
        m.insert(k, v).dom().contains(k),
        create_in(m.insert(k, v), k, w) == (m.insert(k, v), Err::<(), DynValue>(w)),
{
}

/// An absent key indexes to the undefined sentinel value, and set and remove
/// under it fail without changing the store.
pub proof fn lemma_absent_key_is_inert<Key>(m: Map<Key, DynValue>, k: Key, v: DynValue, tag: DynTag)
    requires
        !m.dom().contains(k),
    ensures
        lookup(m, k) == DynValue::Undefined(UndefinedProperty),
        set_in(m, k, v) == (m, Err::<DynValue, DynValue>(v)),
        remove_in(m, k, tag) == (m, Err::<DynValue, ()>(())),
{
}

/// Removing a present key at a type other than its entry's fails, the key
/// stays present with its entry untouched, and the original value is still
/// readable at the correct type.
pub proof fn lemma_remove_mismatch_preserves_entry<Key>(m: Map<Key, DynValue>, k: Key, tag: DynTag)
    requires
        m.dom().contains(k),
        tag != m[k].spec_tag(),
    ensures
        remove_in(m, k, tag) == (m, Err::<DynValue, ()>(())),
        crate::dyn_property::read_cell(m[k], m[k].spec_tag()) == Some(m[k]),
{
}

/// A mutable reference to the cell of the entry at position `i`; the entry's
/// key stays as it is.
fn cell_at<'a, Key>(d: &'a mut Vec<(Key, DynProperty)>, i: usize) -> (r: &'a mut DynProperty)
    requires
        i < old(d)@.len(),
    ensures
        *r == old(d)@[i as int].1,
        final(d)@ == old(d)@.update(i as int, (old(d)@[i as int].0, *final(r))),
    no_unwind
{
    &mut d[i].1
}

/// Hands a mutable cell reference through unchanged.
fn cell_through<'a>(p: &'a mut DynProperty) -> (r: &'a mut DynProperty)
    ensures
        *r == *old(p),
        *final(p) == *final(r),
    no_unwind
{
    p
}

/// Returns a fresh cell holding the undefined sentinel value: the cell that
/// absent-key lookups present.
pub fn undefined_property() -> (r: DynProperty)
    ensures
        r@ == DynValue::Undefined(UndefinedProperty),
{
    DynProperty::new(DynValue::Undefined(UndefinedProperty))
}

/// The keyed store: a collection of typed cells addressed by `Key`, a
/// sentinel cell presented for absent keys, and an optional back-link to the
/// owning shared handle. Viewed as a `Map<Key, DynValue>`.
#[verifier::reject_recursive_types(Key)]
pub struct InnerDynObject<Key: Eq> {
    undefined_property: DynProperty,
    undefined_sink: DynProperty,
    data: Vec<(Key, DynProperty)>,
    uplink: Option<WeakLink<Key>>,
}

impl<Key: Eq> View for InnerDynObject<Key> {
    type V = Map<Key, DynValue>;

    closed spec fn view(&self) -> Map<Key, DynValue> {
        assoc_view(self.data@)
    }
}

impl<Key: Eq> InnerDynObject<Key> {
    #[verifier::type_invariant]
    spec fn inv(self) -> bool {
        &&& distinct_keys(self.data@)
        &&& self.undefined_property@ == DynValue::Undefined(UndefinedProperty)
        &&& keys_obey_eq::<Key>()
    }

    /// The back-link to the owning handle, if one has been installed.
    pub closed spec fn spec_uplink(&self) -> Option<WeakLink<Key>> {
        self.uplink
    }
}

impl<Key: Eq + Hash> InnerDynObject<Key> {
    /// Creates an empty store with no back-link.
    pub fn new() -> (r: InnerDynObject<Key>)
        requires
            keys_obey_eq::<Key>(),
        ensures
            r@ == Map::<Key, DynValue>::empty(),
            r.spec_uplink() is None,
    {
        let r = InnerDynObject {
            undefined_property: undefined_property(),
            undefined_sink: undefined_property(),
            data: Vec::new(),
            uplink: None,
        };
        proof {
            assert(r@ =~= Map::<Key, DynValue>::empty());
        }
        r
    }

    /// The position of `key`'s entry, if any.
    fn find_index(&self, key: &Key) -> (r: Option<usize>)
        ensures
            match r {
                Some(i) => i < self.data@.len() && self.data@[i as int].0 == *key,
                None => forall|j: int| 0 <= j < self.data@.len() ==> self.data@[j].0 != *key,
            },
    {
        proof {
            use_type_invariant(self);
        }
        let n = self.data.len();
        let mut i: usize = 0;
        while i < n
            invariant
                n == self.data@.len(),
                i <= n,
                keys_obey_eq::<Key>(),
                forall|j: int| 0 <= j < i ==> self.data@[j].0 != *key,
            decreases n - i,
        {
            if self.data[i].0 == *key {
                return Some(i);
            }
            i += 1;
        }
        None
    }

    /// True exactly when a property with this key exists.
    pub fn exists_property(&self, key: &Key) -> (r: bool)
        ensures
            r == self@.dom().contains(*key),
    {
        proof {
            lemma_assoc_view_dom(self.data@, *key);
        }
        match self.find_index(key) {
            Some(_) => true,
            None => false,
        }
    }

    /// True exactly when a property with this key exists and its cell holds a
    /// value of type `tag`.
    pub fn exists_property_with_type(&self, key: &Key, tag: DynTag) -> (r: bool)
        ensures
            r == (self@.dom().contains(*key) && self@[*key].spec_tag() == tag),
    {
        proof {
            lemma_assoc_view_dom(self.data@, *key);
        }
        match self.find_index(key) {
            Some(i) => {
                proof {
                    use_type_invariant(self);
                    lemma_assoc_view_at(self.data@, i as int);
                }
                self.data[i].1.is_inner_type(tag)
            },
            None => false,
        }
    }

    /// A reference to the cell stored under `key`, or to the undefined
    /// sentinel cell when the key is absent: downstream access is uniform,
    /// callers always get a cell and test its type.
    pub fn index(&self, key: &Key) -> (r: &DynProperty)
        ensures
            r@ == lookup(self@, *key),
    {
        proof {
            use_type_invariant(self);
            lemma_assoc_view_dom(self.data@, *key);
        }
        match self.find_index(key) {
            Some(i) => {
                proof {
                    lemma_assoc_view_at(self.data@, i as int);
                }
                &self.data[i].1
            },
            None => &self.undefined_property,
        }
    }

    /// Creates a new property under `key` holding `init_value`. When the key
    /// is already taken nothing changes and `init_value` comes back untouched
    /// as `Err`: there is no implicit overwrite.
    pub fn create_property(&mut self, key: Key, init_value: DynValue) -> (r: Result<
        (),
        DynValue,
    >)
        ensures
            ({
                let (m2, res) = create_in(old(self)@, key, init_value);
                final(self)@ == m2 && r == res
            }),
            final(self).spec_uplink() == old(self).spec_uplink(),
    {
        proof {
            use_type_invariant(&*self);
            lemma_assoc_view_dom(old(self).data@, key);
        }
        match self.find_index(&key) {
            Some(_) => Err(init_value),
            None => {
                let prop = DynProperty::new(init_value);
                let mut d: Vec<(Key, DynProperty)> = Vec::new();
                core::mem::swap(&mut d, &mut self.data);
                proof {
                    lemma_distinct_push(d@, key, prop);
                    lemma_assoc_view_push(d@, key, prop);
                }
                d.push((key, prop));
                core::mem::swap(&mut d, &mut self.data);
                Ok(())
            },
        }
    }

    /// Replaces the value of the property under `key`. When the key exists
    /// and `value` has the entry's type, the old value comes back as `Ok`;
    /// when the key is absent or the type differs, nothing changes and
    /// `value` comes back untouched as `Err`.
    pub fn set_property(&mut self, key: &Key, value: DynValue) -> (r: Result<DynValue, DynValue>)
        ensures
            ({
                let (m2, res) = set_in(old(self)@, *key, value);
                final(self)@ == m2 && r == res
            }),
            final(self).spec_uplink() == old(self).spec_uplink(),
    {
        proof {
            use_type_invariant(&*self);
            lemma_assoc_view_dom(old(self).data@, *key);
        }
        match self.find_index(key) {
            None => Err(value),
            Some(i) => {
                proof {
                    lemma_assoc_view_at(old(self).data@, i as int);
                    lemma_assoc_view_remove(old(self).data@, i as int);
                }
                let mut d: Vec<(Key, DynProperty)> = Vec::new();
                core::mem::swap(&mut d, &mut self.data);
                let mut pair = d.remove(i);
                let res = pair.1.set(value);
                proof {
                    let s0 = old(self).data@;
                    let rem = s0.remove(i as int);
                    assert forall|j: int| 0 <= j < rem.len() implies rem[j].0 != pair.0 by {
                        assert(rem[j] == (if j < i as int {
                            s0[j]
                        } else {
                            s0[j + 1]
                        }));
                    }
                    lemma_distinct_push(rem, pair.0, pair.1);
                    lemma_assoc_view_push(rem, pair.0, pair.1);
                    assert(pair == (pair.0, pair.1));
                    if value.spec_tag() == assoc_view(s0)[s0[i as int].0].spec_tag() {
                        assert(assoc_view(s0).remove(s0[i as int].0).insert(s0[i as int].0, value)
                            =~= assoc_view(s0).insert(s0[i as int].0, value));
                    } else {
                        assert(assoc_view(s0).remove(s0[i as int].0).insert(
                            s0[i as int].0,
                            s0[i as int].1@,
                        ) =~= assoc_view(s0));
                    }
                }
                d.push(pair);
                core::mem::swap(&mut d, &mut self.data);
                res
            },
        }
    }

    /// Removes the property under `key` when it exists and its cell holds a
    /// value of type `tag`, handing that value out. When the key is absent
    /// or its type differs, the store is untouched and `Err` is returned: a
    /// failed remove never deletes anything.
    pub fn remove_property(&mut self, key: &Key, tag: DynTag) -> (r: Result<DynValue, ()>)
        ensures
            ({
                let (m2, res) = remove_in(old(self)@, *key, tag);
                final(self)@ == m2 && r == res
            }),
            final(self).spec_uplink() == old(self).spec_uplink(),
    {
        proof {
            use_type_invariant(&*self);
            lemma_assoc_view_dom(old(self).data@, *key);
        }
        match self.find_index(key) {
            None => Err(()),
            Some(i) => {
                proof {
                    lemma_assoc_view_at(old(self).data@, i as int);
                }
                if self.data[i].1.is_inner_type(tag) {
                    proof {
                        lemma_assoc_view_remove(old(self).data@, i as int);
                    }
                    let mut d: Vec<(Key, DynProperty)> = Vec::new();
                    core::mem::swap(&mut d, &mut self.data);
                    let pair = d.remove(i);
                    core::mem::swap(&mut d, &mut self.data);
                    let out = pair.1.destruct(tag);
                    Ok(out.unwrap())
                } else {
                    Err(())
                }
            },
        }
    }

    /// A mutable reference to the cell stored under `key`. An absent key
    /// yields a mutable reference to a cell holding the undefined sentinel
    /// value; writes through that reference do not touch the store's
    /// mapping, mirroring the harmlessness of mutating the shared sentinel.
    pub fn index_mut(&mut self, key: &Key) -> (r: &mut DynProperty)
        ensures
            old(self)@.dom().contains(*key) ==> ((*r)@ == old(self)@[*key] && final(self)@ == old(
                self,
            )@.insert(*key, final(r)@)),
            !old(self)@.dom().contains(*key) ==> ((*r)@ == DynValue::Undefined(UndefinedProperty)
                && final(self)@ == old(self)@),
            final(self).spec_uplink() == old(self).spec_uplink(),
    {
        proof {
            use_type_invariant(&*self);
            lemma_assoc_view_dom(old(self).data@, *key);
        }
        match self.find_index(key) {
            Some(i) => {
                proof {
                    lemma_assoc_view_at(old(self).data@, i as int);
                    assert forall|p: DynProperty|
                        distinct_keys(
                            old(self).data@.update(i as int, (old(self).data@[i as int].0, p)),
                        ) && assoc_view(
                            old(self).data@.update(i as int, (old(self).data@[i as int].0, p)),
                        ) == assoc_view(old(self).data@).insert(
                            old(self).data@[i as int].0,
                            p@,
                        ) by {
                        lemma_assoc_view_update(old(self).data@, i as int, p);
                    }
                }
                cell_at(&mut self.data, i)
            },
            None => {
                self.undefined_sink = undefined_property();
                cell_through(&mut self.undefined_sink)
            },
        }
    }

    /// Installs the back-link to the owning handle. The link can be set only
    /// once: the store-to-handle correspondence must stay unambiguous.
    pub fn set_uplink(&mut self, uplink: WeakLink<Key>)
        requires
            old(self).spec_uplink() is None,
        ensures
            final(self)@ == old(self)@,
            final(self).spec_uplink() == Some(uplink),
    {
        proof {
            use_type_invariant(&*self);
        }
        self.uplink = Some(uplink);
    }

    /// The back-link to the owning handle, for handle reconstruction.
    pub fn get_uplink(&self) -> (r: &Option<WeakLink<Key>>)
        ensures
            *r == self.spec_uplink(),
    {
        &self.uplink
    }
}

} // verus!
