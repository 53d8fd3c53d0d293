use vstd::prelude::*;
use std::rc::Rc;

verus! {

/// Zero-sized marker type: a cell holding it stands for "no value here".
/// It is the payload of the sentinel cell that absent-key lookups return,
/// and ordinary user code never stores it on purpose.
#[derive(Clone, Copy, PartialEq, Eq, Debug, Structural)]
pub struct UndefinedProperty;

/// The runtime type tag of a stored value: one tag per storable shape.
#[derive(Clone, Copy, PartialEq, Eq, Debug, Structural)]
pub enum DynTag {
    Undefined,
    I32,
    I64,
    U16,
    U32,
    Text,
    Pair,
    Triple,
    Shared,
}

/// A dynamically typed value: the closed universe of shapes a property can
/// hold. Each variant carries its payload; `Undefined` carries the marker.
#[derive(Clone, PartialEq, Eq, Debug)]
pub enum DynValue {
    Undefined(UndefinedProperty),
    I32(i32),
    I64(i64),
    U16(u16),
    U32(u32),
    Text(String),
    Pair(i32, i32),
    Triple(i32, i32, i32),
    Shared(Rc<i32>),
}

impl DynValue {
    /// The runtime type tag of this value.
    pub open spec fn spec_tag(&self) -> DynTag {
        match self {
            DynValue::Undefined(_) => DynTag::Undefined,
            DynValue::I32(_) => DynTag::I32,
            DynValue::I64(_) => DynTag::I64,
            DynValue::U16(_) => DynTag::U16,
            DynValue::U32(_) => DynTag::U32,
            DynValue::Text(_) => DynTag::Text,
            DynValue::Pair(_, _) => DynTag::Pair,
            DynValue::Triple(_, _, _) => DynTag::Triple,
            DynValue::Shared(_) => DynTag::Shared,
        }
    }

    #[verifier::when_used_as_spec(spec_tag)]
    pub fn tag(&self) -> (t: DynTag)
        ensures
            t == self.spec_tag(),
    {
        match self {
            DynValue::Undefined(_) => DynTag::Undefined,
            DynValue::I32(_) => DynTag::I32,
            DynValue::I64(_) => DynTag::I64,
            DynValue::U16(_) => DynTag::U16,
            DynValue::U32(_) => DynTag::U32,
            DynValue::Text(_) => DynTag::Text,
            DynValue::Pair(_, _) => DynTag::Pair,
            DynValue::Triple(_, _, _) => DynTag::Triple,
            DynValue::Shared(_) => DynTag::Shared,
        }
    }
}

/// What reading a cell that holds `v` at type `tag` yields: the value when
/// the tag matches, absence otherwise.
pub open spec fn read_cell(v: DynValue, tag: DynTag) -> Option<DynValue> {
    if v.spec_tag() == tag {
        Some(v)
    } else {
        None
    }
}

/// What replacing the content of a cell that holds `v` with `new` does:
/// when the tags agree the cell holds `new` and the old value comes back as
/// `Ok`; otherwise the cell keeps `v` and `new` comes back untouched as `Err`.
pub open spec fn replace_cell(v: DynValue, new: DynValue) -> (DynValue, Result<
    DynValue,
    DynValue,
>) {
    if new.spec_tag() == v.spec_tag() {
        (new, Ok(v))
    } else {
        (v, Err(new))
    }
}

/// A shape-preserving mutable view of a cell's payload: one variant per
/// storable shape, each borrowing that shape's fields and nothing more, so
/// writes through it can never change the cell's runtime type. `Undefined`
/// carries no reference: the marker type has exactly one value, so there is
/// nothing to write.
#[derive(PartialEq, Eq, Debug)]
pub enum PayloadMut<'a> {
    Undefined,
    I32(&'a mut i32),
    I64(&'a mut i64),
    U16(&'a mut u16),
    U32(&'a mut u32),
    Text(&'a mut String),
    Pair(&'a mut i32, &'a mut i32),
    Triple(&'a mut i32, &'a mut i32, &'a mut i32),
    Shared(&'a mut Rc<i32>),
}

/// A single typed storage slot. Its runtime type is fixed at creation:
/// every access checks the requested tag against the stored value's tag, and
/// `set` only swaps in a value of the same tag.
pub struct DynProperty {
    value: DynValue,
}

impl View for DynProperty {
    type V = DynValue;

    closed spec fn view(&self) -> DynValue {
        self.value
    }
}

impl DynProperty {
    /// Creates a new cell holding `initial_value`; the cell's runtime type is
    /// the tag of that value.
    pub fn new(initial_value: DynValue) -> (r: DynProperty)
        ensures
            r@ == initial_value,
    {
        DynProperty { value: initial_value }
    }

    /// Replaces the stored value when `value` has the cell's tag, handing the
    /// old value back as `Ok`; on a tag mismatch the cell is untouched and
    /// `value` comes back unchanged as `Err`, so nothing is ever lost.
    pub fn set(&mut self, value: DynValue) -> (r: Result<DynValue, DynValue>)
        ensures
            ({
                let (stored, returned) = replace_cell(old(self)@, value);
                final(self)@ == stored && r == returned
            }),
    {
        if value.tag() == self.value.tag() {
            let mut swapped = value;
            core::mem::swap(&mut swapped, &mut self.value);
            Ok(swapped)
        } else {
            Err(value)
        }
    }

    /// A reference to the stored value when `tag` is the cell's tag, absence
    /// otherwise. Never mutates.
    pub fn as_ref(&self, tag: DynTag) -> (r: Option<&DynValue>)
        ensures
            match r {
                Some(p) => read_cell(self@, tag) == Some(*p),
                None => read_cell(self@, tag) is None,
            },
    {
        if self.value.tag() == tag {
            Some(&self.value)
        } else {
            None
        }
    }

    /// A mutable view of the stored payload under the same tag-match
    /// condition as `as_ref`. The view borrows the payload's fields only, so
    /// the cell's runtime type can never change through it; replacing the
    /// whole value is what `set` is for.
    pub fn as_mut(&mut self, tag: DynTag) -> (r: Option<PayloadMut>)
        ensures
            final(self)@.spec_tag() == old(self)@.spec_tag(),
            r is Some <==> old(self)@.spec_tag() == tag,
            match r {
                Some(w) => match w {
                    PayloadMut::Undefined => old(self)@ == DynValue::Undefined(UndefinedProperty)
                        && final(self)@ == old(self)@,
                    PayloadMut::I32(p) => old(self)@ == DynValue::I32(*p) && final(self)@
                        == DynValue::I32(*final(p)),
                    PayloadMut::I64(p) => old(self)@ == DynValue::I64(*p) && final(self)@
                        == DynValue::I64(*final(p)),
                    PayloadMut::U16(p) => old(self)@ == DynValue::U16(*p) && final(self)@
                        == DynValue::U16(*final(p)),
                    PayloadMut::U32(p) => old(self)@ == DynValue::U32(*p) && final(self)@
                        == DynValue::U32(*final(p)),
                    PayloadMut::Text(p) => old(self)@ == DynValue::Text(*p) && final(self)@
                        == DynValue::Text(*final(p)),
                    PayloadMut::Pair(a, b) => old(self)@ == DynValue::Pair(*a, *b) && final(self)@
                        == DynValue::Pair(*final(a), *final(b)),
                    PayloadMut::Triple(a, b, c) => old(self)@ == DynValue::Triple(*a, *b, *c)
                        && final(self)@ == DynValue::Triple(*final(a), *final(b), *final(c)),
                    PayloadMut::Shared(p) => old(self)@ == DynValue::Shared(*p) && final(self)@
                        == DynValue::Shared(*final(p)),
                },
                None => final(self)@ == old(self)@,
            },
    {
        if self.value.tag() == tag {
            match &mut self.value {
                DynValue::Undefined(_) => Some(PayloadMut::Undefined),
                DynValue::I32(p) => Some(PayloadMut::I32(p)),
                DynValue::I64(p) => Some(PayloadMut::I64(p)),
                DynValue::U16(p) => Some(PayloadMut::U16(p)),
                DynValue::U32(p) => Some(PayloadMut::U32(p)),
                DynValue::Text(p) => Some(PayloadMut::Text(p)),
                DynValue::Pair(a, b) => Some(PayloadMut::Pair(a, b)),
                DynValue::Triple(a, b, c) => Some(PayloadMut::Triple(a, b, c)),
                DynValue::Shared(p) => Some(PayloadMut::Shared(p)),
            }
        } else {
            None
        }
    }

    /// True exactly when `tag` is the tag of the stored value.
    pub fn is_inner_type(&self, tag: DynTag) -> (r: bool)
        ensures
            r == (self@.spec_tag() == tag),
    {
        self.value.tag() == tag
    }

    /// Consumes the cell. When `tag` matches, the stored value is handed out;
    /// otherwise the cell and its value are still destroyed and absence is
    /// returned: a mismatched value is not recoverable from this call.
    pub fn destruct(self, tag: DynTag) -> (r: Option<DynValue>)
        ensures
            r == read_cell(self@, tag),
    {
        if self.value.tag() == tag {
            Some(self.value)
        } else {
            None
        }
    }
}

/// A value read back at the tag it was stored under is the value itself, and
/// reading at any other tag yields absence.
pub proof fn lemma_read_recovers_value(v: DynValue, other: DynTag)
    ensures
        read_cell(v, v.spec_tag()) == Some(v),
        other != v.spec_tag() ==> read_cell(v, other) is None,
{
}

/// Replacing a cell's value with one of a different shape leaves the cell
/// unchanged and hands the offered value back untouched.
pub proof fn lemma_replace_mismatch_is_harmless(v: DynValue, new: DynValue)
    requires
        new.spec_tag() != v.spec_tag(),
    ensures
        replace_cell(v, new) == (v, Err::<DynValue, DynValue>(new)),
{
}

} // verus!
