//! Reading Dojo schemas and type definitions from felts, as the world
//! contract serializes them.
//!
//! Legacy models serialize keys and values with Cairo serde, where the first
//! variant of an enum is stored as 0. Models on `DojoStore` store the first
//! variant as 1; their keys still use serde, so key columns are always read
//! as legacy.
use std::collections::VecDeque;
use vstd::prelude::*;
use vstd::utf8::is_ascii_chars;
use crate::codec::{
    be_value, byte_array_readable, byte_array_text, byte_array_width, char_bytes, lemma_short_string_value,
    short_string_chars,
};
use crate::error::{DecodeError, DecodeMessage, DecodeResult, SelectorContext};
use crate::felt::Felt;
use crate::outside::{decode_byte_array, entry_point_selector, selector_from_name, short_string};
use crate::selector::{compute_selector_from_namespace_and_name, namespace_name_selector};
use crate::typedef::{
    PrimaryDef, PrimaryTypeDef, TableSchema,
    attributes_view, column_defs_view, member_defs_view, type_defs_view, variant_defs_view,
    ArrayDef, Attribute, AttributeView, ColumnDef, ColumnDefView, EnumDef, EnumDefView,
    FixedArrayDef, MemberDef, MemberDefView, StructDef, StructDefView, TupleDef, TypeDef,
    TypeDefView, VariantDef, VariantDefView,
};

verus! {

/// Reading one felt.
pub open spec fn read_felt(d: Seq<Felt>) -> (Result<Felt, DecodeError>, Seq<Felt>) {
    if d.len() == 0 {
        (Err(DecodeError::Eof), d)
    } else {
        (Ok(d[0]), d.drop_first())
    }
}

/// Reading one felt as a `u32`.
pub open spec fn read_u32(d: Seq<Felt>) -> (Result<nat, DecodeError>, Seq<Felt>) {
    if d.len() == 0 {
        (Err(DecodeError::Eof), d)
    } else if d[0]@ <= u32::MAX {
        (Ok(d[0]@), d.drop_first())
    } else {
        (Err(DecodeError::ValueOutOfRange(d[0])), d.drop_first())
    }
}

/// Reading one felt as a Cairo short string.
pub open spec fn read_short_string(d: Seq<Felt>) -> (Result<Seq<char>, DecodeError>, Seq<Felt>) {
    if d.len() == 0 {
        (Err(DecodeError::Eof), d)
    } else {
        match short_string_chars(d[0]) {
            Some(s) => (Ok(s), d.drop_first()),
            None => (Err(DecodeError::InvalidShortString(d[0])), d.drop_first()),
        }
    }
}

/// Reading a serialized byte array as text; nothing is consumed on failure.
pub open spec fn read_string(d: Seq<Felt>) -> (Result<Seq<char>, DecodeError>, Seq<Felt>) {
    if d.len() == 0 {
        (Err(DecodeError::Eof), d)
    } else {
        match byte_array_text(d) {
            Some(t) => (Ok(t), d.skip(byte_array_width(d) as int)),
            None => (Err(DecodeError::InvalidByteArray), d),
        }
    }
}

/// Reading a `u32` count, then that many felts; on a shortfall every felt is consumed.
pub open spec fn read_felt_list(d: Seq<Felt>) -> (Result<Seq<Felt>, DecodeError>, Seq<Felt>) {
    match read_u32(d) {
        (Err(e), r) => (Err(e), r),
        (Ok(n), d1) => if n <= d1.len() {
            (Ok(d1.take(n as int)), d1.skip(n as int))
        } else {
            (Err(DecodeError::Eof), Seq::empty())
        },
    }
}

/// `d1` where it is no longer than `d`.
pub open spec fn no_longer(d1: Seq<Felt>, d: Seq<Felt>) -> Seq<Felt> {
    if d1.len() <= d.len() {
        d1
    } else {
        d
    }
}

/// `n` attributes, each a short-string name without data.
pub open spec fn read_attribute_list(d: Seq<Felt>, n: nat) -> (Result<Seq<AttributeView>, DecodeError>, Seq<Felt>)
    decreases n,
{
    if n == 0 {
        (Ok(Seq::empty()), d)
    } else {
        match read_attribute_list(d, (n - 1) as nat) {
            (Err(e), r) => (Err(e), r),
            (Ok(attrs), d1) => match read_short_string(d1) {
                (Ok(name), r) => (Ok(attrs.push(AttributeView { name, data: Seq::empty() })), r),
                (Err(e), r) => (Err(e), r),
            },
        }
    }
}

/// A `u32` count, then that many attributes.
pub open spec fn read_attributes(d: Seq<Felt>) -> (Result<Seq<AttributeView>, DecodeError>, Seq<Felt>) {
    match read_u32(d) {
        (Err(e), r) => (Err(e), r),
        (Ok(n), d1) => read_attribute_list(d1, n),
    }
}

/// The primitive type whose short-string kind is `kind`.
pub open spec fn primitive_type_def(kind: Felt) -> Result<TypeDefView, DecodeError> {
    let k = kind@;
    if k == 0x626f6f6c {
        Ok(TypeDefView::Bool)
    } else if k == 0x7538 {
        Ok(TypeDefView::U8)
    } else if k == 0x753136 {
        Ok(TypeDefView::U16)
    } else if k == 0x753332 {
        Ok(TypeDefView::U32)
    } else if k == 0x753634 {
        Ok(TypeDefView::U64)
    } else if k == 0x75313238 {
        Ok(TypeDefView::U128)
    } else if k == 0x75323536 {
        Ok(TypeDefView::U256)
    } else if k == 0x6938 {
        Ok(TypeDefView::I8)
    } else if k == 0x693136 {
        Ok(TypeDefView::I16)
    } else if k == 0x693332 {
        Ok(TypeDefView::I32)
    } else if k == 0x693634 {
        Ok(TypeDefView::I64)
    } else if k == 0x69313238 {
        Ok(TypeDefView::I128)
    } else if k == 0x66656c74323532 {
        Ok(TypeDefView::Felt252)
    } else if k == 0x436c61737348617368 || k == 0x737461726b6e65743a3a436c61737348617368 {
        Ok(TypeDefView::ClassHash)
    } else if k == 0x436f6e747261637441646472657373
        || k == 0x737461726b6e65743a3a436f6e747261637441646472657373 {
        Ok(TypeDefView::ContractAddress)
    } else if k == 0x45746841646472657373 || k == 0x737461726b6e65743a3a45746841646472657373 {
        Ok(TypeDefView::EthAddress)
    } else {
        Err(DecodeError::InvalidEnumSelector(SelectorContext::DojoPrimitive, kind))
    }
}

/// A type definition: a `u32` kind, then the definition of that kind
/// (0 primitive, 1 struct, 2 enum, 3 tuple, 4 array, 5 string, 6 fixed array).
pub open spec fn read_type_def(d: Seq<Felt>, legacy: bool) -> (Result<TypeDefView, DecodeError>, Seq<Felt>)
    decreases d.len(), 0nat,
{
    if d.len() == 0 {
        (Err(DecodeError::Eof), d)
    } else if d[0]@ > u32::MAX {
        (Err(DecodeError::ValueOutOfRange(d[0])), d.drop_first())
    } else {
        let kind = d[0]@;
        let d1 = d.drop_first();
        if kind == 0 {
            match read_felt(d1) {
                (Ok(f), r) => (primitive_type_def(f), r),
                (Err(e), r) => (Err(e), r),
            }
        } else if kind == 1 {
            match read_struct_def(d1, legacy) {
                (Ok(s), r) => (Ok(TypeDefView::Struct(s)), r),
                (Err(e), r) => (Err(e), r),
            }
        } else if kind == 2 {
            match read_enum_def(d1, legacy) {
                (Ok(e), r) => (Ok(TypeDefView::Enum(e)), r),
                (Err(e), r) => (Err(e), r),
            }
        } else if kind == 3 {
            read_tuple_type_def(d1, legacy)
        } else if kind == 4 {
            match read_singleton_span(d1, legacy) {
                (Ok(t), r) => (Ok(TypeDefView::Array(Box::new(t))), r),
                (Err(e), r) => (Err(e), r),
            }
        } else if kind == 5 {
            (Ok(TypeDefView::Utf8String), d1)
        } else if kind == 6 {
            match read_fixed_array_def(d1, legacy) {
                (Ok((t, n)), r) => (Ok(TypeDefView::FixedArray(Box::new(t), n)), r),
                (Err(e), r) => (Err(e), r),
            }
        } else {
            (Err(DecodeError::InvalidEnumSelector(SelectorContext::DojoTypeDef, d[0])), d1)
        }
    }
}

/// A span that must hold exactly one type definition: the felt 1, then the definition.
pub open spec fn read_singleton_span(d: Seq<Felt>, legacy: bool) -> (Result<TypeDefView, DecodeError>, Seq<Felt>)
    decreases d.len(), 1nat,
{
    if d.len() == 0 {
        (Err(DecodeError::Message(DecodeMessage::ExpectedSingletonSpan)), d)
    } else if d[0]@ != 1 {
        (Err(DecodeError::Message(DecodeMessage::ExpectedSingletonSpan)), d.drop_first())
    } else {
        read_type_def(d.drop_first(), legacy)
    }
}

/// A fixed array: a singleton span with the element type, then a `u32` size.
pub open spec fn read_fixed_array_def(d: Seq<Felt>, legacy: bool) -> (
    Result<(TypeDefView, u32), DecodeError>,
    Seq<Felt>,
)
    decreases d.len(), 2nat,
{
    match read_singleton_span(d, legacy) {
        (Err(e), r) => (Err(e), r),
        (Ok(t), d1) => match read_u32(d1) {
            (Ok(n), r) => (Ok((t, n as u32)), r),
            (Err(e), r) => (Err(e), r),
        },
    }
}

/// A tuple: a `u32` size, then that many definitions; size 0 is the unit type.
pub open spec fn read_tuple_type_def(d: Seq<Felt>, legacy: bool) -> (Result<TypeDefView, DecodeError>, Seq<Felt>)
    decreases d.len(), 1nat,
{
    if d.len() == 0 {
        (Err(DecodeError::Eof), d)
    } else if d[0]@ > u32::MAX {
        (Err(DecodeError::ValueOutOfRange(d[0])), d.drop_first())
    } else if d[0]@ == 0 {
        (Ok(TypeDefView::Unit), d.drop_first())
    } else {
        match read_type_def_list(d.drop_first(), d[0]@, legacy) {
            (Ok(ts), r) => (Ok(TypeDefView::Tuple(ts)), r),
            (Err(e), r) => (Err(e), r),
        }
    }
}

/// `n` type definitions, one after the other.
pub open spec fn read_type_def_list(d: Seq<Felt>, n: nat, legacy: bool) -> (
    Result<Seq<TypeDefView>, DecodeError>,
    Seq<Felt>,
)
    decreases d.len(), n + 3,
{
    if n == 0 {
        (Ok(Seq::empty()), d)
    } else {
        match read_type_def_list(d, (n - 1) as nat, legacy) {
            (Err(e), r) => (Err(e), r),
            (Ok(ts), d1) => match read_type_def(no_longer(d1, d), legacy) {
                (Ok(t), r) => (Ok(ts.push(t)), r),
                (Err(e), r) => (Err(e), r),
            },
        }
    }
}

/// A struct: a short-string name, attributes and a `u32`-counted list of members.
pub open spec fn read_struct_def(d: Seq<Felt>, legacy: bool) -> (Result<StructDefView, DecodeError>, Seq<Felt>)
    decreases d.len(), 1nat,
{
    match read_short_string(d) {
        (Err(e), r) => (Err(e), r),
        (Ok(name), d1) => if d.len() == 0 {
            (Err(DecodeError::Eof), d)
        } else {
            match read_attributes(d1) {
                (Err(e), r) => (Err(e), r),
                (Ok(attributes), d2) => {
                    let d2 = no_longer(d2, d.drop_first());
                    if d2.len() == 0 {
                        (Err(DecodeError::Eof), d2)
                    } else if d2[0]@ > u32::MAX {
                        (Err(DecodeError::ValueOutOfRange(d2[0])), d2.drop_first())
                    } else {
                        match read_member_defs(d2.drop_first(), d2[0]@, legacy) {
                            (Ok(members), r) => (Ok(StructDefView { name, attributes, members }), r),
                            (Err(e), r) => (Err(e), r),
                        }
                    }
                },
            }
        },
    }
}

/// `n` members, one after the other.
pub open spec fn read_member_defs(d: Seq<Felt>, n: nat, legacy: bool) -> (
    Result<Seq<MemberDefView>, DecodeError>,
    Seq<Felt>,
)
    decreases d.len(), n + 3,
{
    if n == 0 {
        (Ok(Seq::empty()), d)
    } else {
        match read_member_defs(d, (n - 1) as nat, legacy) {
            (Err(e), r) => (Err(e), r),
            (Ok(ms), d1) => match read_member_def(no_longer(d1, d), legacy) {
                (Ok(m), r) => (Ok(ms.push(m)), r),
                (Err(e), r) => (Err(e), r),
            },
        }
    }
}

/// A member: a short-string name, attributes and a type definition.
pub open spec fn read_member_def(d: Seq<Felt>, legacy: bool) -> (Result<MemberDefView, DecodeError>, Seq<Felt>)
    decreases d.len(), 1nat,
{
    match read_short_string(d) {
        (Err(e), r) => (Err(e), r),
        (Ok(name), d1) => if d.len() == 0 {
            (Err(DecodeError::Eof), d)
        } else {
            match read_attributes(d1) {
                (Err(e), r) => (Err(e), r),
                (Ok(attributes), d2) => match read_type_def(no_longer(d2, d.drop_first()), legacy) {
                    (Ok(type_def), r) => (Ok(MemberDefView { name, attributes, type_def }), r),
                    (Err(e), r) => (Err(e), r),
                },
            }
        },
    }
}

/// The selector of the `i`-th variant: `i` in legacy storage, `i + 1` otherwise.
pub open spec fn variant_selector(i: nat, legacy: bool) -> nat {
    if legacy {
        i
    } else {
        i + 1
    }
}

/// An enum: a short-string name, attributes and a `u32`-counted list of
/// variants, keyed by their selectors.
pub open spec fn read_enum_def(d: Seq<Felt>, legacy: bool) -> (Result<EnumDefView, DecodeError>, Seq<Felt>)
    decreases d.len(), 1nat,
{
    match read_short_string(d) {
        (Err(e), r) => (Err(e), r),
        (Ok(name), d1) => if d.len() == 0 {
            (Err(DecodeError::Eof), d)
        } else {
            match read_attributes(d1) {
                (Err(e), r) => (Err(e), r),
                (Ok(attributes), d2) => {
                    let d2 = no_longer(d2, d.drop_first());
                    if d2.len() == 0 {
                        (Err(DecodeError::Eof), d2)
                    } else if d2[0]@ > u32::MAX {
                        (Err(DecodeError::ValueOutOfRange(d2[0])), d2.drop_first())
                    } else {
                        match read_variant_defs(d2.drop_first(), d2[0]@, legacy) {
                            (Ok(variants), r) => (Ok(EnumDefView { name, attributes, variants }), r),
                            (Err(e), r) => (Err(e), r),
                        }
                    }
                },
            }
        },
    }
}

/// `n` variants, one after the other, the `i`-th keyed by its selector.
pub open spec fn read_variant_defs(d: Seq<Felt>, n: nat, legacy: bool) -> (
    Result<Seq<(nat, VariantDefView)>, DecodeError>,
    Seq<Felt>,
)
    decreases d.len(), n + 3,
{
    if n == 0 {
        (Ok(Seq::empty()), d)
    } else {
        match read_variant_defs(d, (n - 1) as nat, legacy) {
            (Err(e), r) => (Err(e), r),
            (Ok(vs), d1) => match read_variant_def(no_longer(d1, d), legacy) {
                (Ok(v), r) => (Ok(vs.push((variant_selector((n - 1) as nat, legacy), v))), r),
                (Err(e), r) => (Err(e), r),
            },
        }
    }
}

/// A variant: a short-string name and a type definition; it has no attributes.
pub open spec fn read_variant_def(d: Seq<Felt>, legacy: bool) -> (Result<VariantDefView, DecodeError>, Seq<Felt>)
    decreases d.len(), 1nat,
{
    match read_short_string(d) {
        (Err(e), r) => (Err(e), r),
        (Ok(name), d1) => if d.len() == 0 {
            (Err(DecodeError::Eof), d)
        } else {
            match read_type_def(d.drop_first(), legacy) {
                (Ok(type_def), r) => (Ok(VariantDefView { name, attributes: Seq::empty(), type_def }), r),
                (Err(e), r) => (Err(e), r),
            }
        },
    }
}

/// Whether one of the attributes is named `key`.
pub open spec fn has_key_attribute(attrs: Seq<AttributeView>) -> bool {
    exists|i: int| 0 <= i < attrs.len() && #[trigger] attrs[i].name == "key"@
}

/// A column: a short-string name, attributes and a type definition, read as
/// legacy when the model is legacy or the column is a key; its selector is
/// that of its name, which must be ASCII.
pub open spec fn read_column_def(d: Seq<Felt>, legacy: bool) -> (Result<ColumnDefView, DecodeError>, Seq<Felt>) {
    match read_short_string(d) {
        (Err(e), r) => (Err(e), r),
        (Ok(name), d1) => match read_attributes(d1) {
            (Err(e), r) => (Err(e), r),
            (Ok(attributes), d2) => match read_type_def(d2, legacy || has_key_attribute(attributes)) {
                (Err(e), r) => (Err(e), r),
                (Ok(type_def), r) => if is_ascii_chars(name) {
                    (Ok(ColumnDefView { id: entry_point_selector(name), name, attributes, type_def }), r)
                } else {
                    (Err(DecodeError::Message(DecodeMessage::NonAsciiName)), r)
                },
            },
        },
    }
}

/// `n` columns, one after the other.
pub open spec fn read_column_defs(d: Seq<Felt>, n: nat, legacy: bool) -> (
    Result<Seq<ColumnDefView>, DecodeError>,
    Seq<Felt>,
)
    decreases n,
{
    if n == 0 {
        (Ok(Seq::empty()), d)
    } else {
        match read_column_defs(d, (n - 1) as nat, legacy) {
            (Err(e), r) => (Err(e), r),
            (Ok(cs), d1) => match read_column_def(d1, legacy) {
                (Ok(c), r) => (Ok(cs.push(c)), r),
                (Err(e), r) => (Err(e), r),
            },
        }
    }
}

/// The content of a [`DojoSchema`].
pub struct DojoSchemaView {
    pub name: Seq<char>,
    pub attributes: Seq<AttributeView>,
    pub columns: Seq<ColumnDefView>,
}

/// A schema: a short-string name, attributes and a `u32`-counted list of columns.
pub open spec fn read_schema(d: Seq<Felt>, legacy: bool) -> (Result<DojoSchemaView, DecodeError>, Seq<Felt>) {
    match read_short_string(d) {
        (Err(e), r) => (Err(e), r),
        (Ok(name), d1) => match read_attributes(d1) {
            (Err(e), r) => (Err(e), r),
            (Ok(attributes), d2) => match read_u32(d2) {
                (Err(e), r) => (Err(e), r),
                (Ok(n), d3) => match read_column_defs(d3, n, legacy) {
                    (Ok(columns), r) => (Ok(DojoSchemaView { name, attributes, columns }), r),
                    (Err(e), r) => (Err(e), r),
                },
            },
        },
    }
}


// ---------------------------------------------------------------------------
// The reader.
// ---------------------------------------------------------------------------

/// A source of felts with the storage mode that enum selectors follow.
#[derive(Debug)]
pub struct DojoSerde {
    source: VecDeque<Felt>,
    legacy: bool,
    initial: usize,
}

impl DojoSerde {
    #[verifier::type_invariant]
    spec fn within_start(self) -> bool {
        self.source@.len() <= self.initial
    }

    /// The felts not read yet.
    pub closed spec fn felts(&self) -> Seq<Felt> {
        self.source@
    }

    /// Whether enum selectors follow legacy storage.
    pub closed spec fn is_legacy(&self) -> bool {
        self.legacy
    }

    /// How many felts were read so far.
    pub closed spec fn consumed(&self) -> nat {
        (self.initial - self.source@.len()) as nat
    }

    /// A reader over a copy of `slice`.
    pub fn from_slice(slice: &[Felt], legacy: bool) -> (s: Self)
        ensures
            s.felts() == slice@,
            s.is_legacy() == legacy,
            s.consumed() == 0,
    {
        let mut source: VecDeque<Felt> = VecDeque::new();
        let mut i: usize = 0;
        while i < slice.len()
            invariant
                i <= slice.len(),
                source@ == slice@.take(i as int),
            decreases slice.len() - i,
        {
            source.push_back(slice[i]);
            i += 1;
            proof {
                assert(source@ =~= slice@.take(i as int));
            }
        }
        proof {
            assert(slice@.take(slice.len() as int) =~= slice@);
        }
        Self::new(source, legacy)
    }

    /// A reader over `source`.
    pub fn new(source: VecDeque<Felt>, legacy: bool) -> (s: Self)
        ensures
            s.felts() == source@,
            s.is_legacy() == legacy,
            s.consumed() == 0,
    {
        let initial = source.len();
        DojoSerde { source, legacy, initial }
    }

    /// A reader over the felts of `source`, in order.
    pub fn new_from_source(source: Vec<Felt>, legacy: bool) -> (s: Self)
        ensures
            s.felts() == source@,
            s.is_legacy() == legacy,
            s.consumed() == 0,
    {
        Self::from_slice(source.as_slice(), legacy)
    }

    /// Reads the next felt.
    pub fn next(&mut self) -> (r: DecodeResult<Felt>)
        ensures
            r == read_felt(old(self).felts()).0,
            final(self).felts() == read_felt(old(self).felts()).1,
            final(self).is_legacy() == old(self).is_legacy(),
            final(self).consumed() == old(self).consumed() + (old(self).felts().len() - final(self).felts().len()),
    {
        proof {
            use_type_invariant(&*self);
        }
        let mut source: VecDeque<Felt> = VecDeque::new();
        std::mem::swap(&mut source, &mut self.source);
        let popped = source.pop_front();
        std::mem::swap(&mut source, &mut self.source);
        match popped {
            Some(f) => {
                proof {
                    assert(old(self).felts().drop_first() =~= self.felts());
                }
                Ok(f)
            },
            None => Err(DecodeError::Eof),
        }
    }

    /// Whether enum selectors follow legacy storage.
    pub fn is_legacy_mode(&self) -> (b: bool)
        ensures
            b == self.is_legacy(),
    {
        self.legacy
    }

    /// Sets the storage mode that enum selectors follow.
    pub fn set_legacy(&mut self, legacy: bool)
        ensures
            final(self).felts() == old(self).felts(),
            final(self).is_legacy() == legacy,
    {
        proof {
            use_type_invariant(&*self);
        }
        self.legacy = legacy;
    }

    /// The felts not read yet, in order.
    fn remaining(&self) -> (v: Vec<Felt>)
        ensures
            v@ == self.felts(),
    {
        let mut v: Vec<Felt> = Vec::new();
        let mut i: usize = 0;
        while i < self.source.len()
            invariant
                i <= self.source@.len(),
                v@ == self.source@.take(i as int),
            decreases self.source@.len() - i,
        {
            v.push(self.source[i]);
            i += 1;
            proof {
                assert(v@ =~= self.source@.take(i as int));
            }
        }
        proof {
            assert(self.source@.take(self.source@.len() as int) =~= self.source@);
        }
        v
    }

    /// Reads a serialized byte array as text; on failure nothing is consumed.
    pub fn next_string(&mut self) -> (r: DecodeResult<String>)
        requires
            byte_array_readable(old(self).felts()),
        ensures
            (match r {
                Ok(s) => Ok(s@),
                Err(e) => Err(e),
            }) == read_string(old(self).felts()).0,
            final(self).felts() == read_string(old(self).felts()).1,
            final(self).is_legacy() == old(self).is_legacy(),
    {
        if self.source.len() == 0 {
            return Err(DecodeError::Eof);
        }
        let felts = self.remaining();
        let text = match decode_byte_array(felts.as_slice()) {
            Some(t) => t,
            None => return Err(DecodeError::InvalidByteArray),
        };
        let width = match felts[0].to_usize() {
            Some(l) => l + 3,
            None => return Err(DecodeError::InvalidByteArray),
        };
        let ghost d0 = self.felts();
        let mut i: usize = 0;
        while i < width
            invariant
                i <= width,
                width == byte_array_width(d0),
                width <= d0.len(),
                self.felts() == d0.skip(i as int),
                self.is_legacy() == old(self).is_legacy(),
            decreases width - i,
        {
            let _ = self.next();
            i += 1;
            proof {
                assert(d0.skip(i - 1).drop_first() =~= d0.skip(i as int));
            }
        }
        Ok(text)
    }

    /// Reads a `u32` count, then that many felts.
    #[verifier::loop_isolation(false)]
    pub fn next_array(&mut self) -> (r: DecodeResult<Vec<Felt>>)
        ensures
            (match r {
                Ok(v) => Ok(v@),
                Err(e) => Err(e),
            }) == read_felt_list(old(self).felts()).0,
            final(self).felts() == read_felt_list(old(self).felts()).1,
            final(self).is_legacy() == old(self).is_legacy(),
    {
        let n = self.next_u32()?;
        let ghost d1 = self.felts();
        let mut out: Vec<Felt> = Vec::new();
        let mut i: u32 = 0;
        while i < n
            invariant
                i <= n,
                i <= d1.len(),
                self.felts() == d1.skip(i as int),
                out@ == d1.take(i as int),
                self.is_legacy() == old(self).is_legacy(),
            decreases n - i,
        {
            let f = match self.next() {
                Ok(f) => f,
                Err(e) => {
                    proof {
                        assert(d1.skip(i as int).len() == 0);
                        assert(self.felts() =~= Seq::<Felt>::empty());
                    }
                    return Err(e);
                },
            };
            out.push(f);
            i += 1;
            proof {
                assert(d1.skip(i - 1).drop_first() =~= d1.skip(i as int));
                assert(out@ =~= d1.take(i as int));
            }
        }
        Ok(out)
    }

    /// How many felts were read so far.
    pub fn position(&self) -> (p: usize)
        ensures
            p == self.consumed(),
    {
        proof {
            use_type_invariant(self);
        }
        self.initial - self.source.len()
    }

    /// Reads the next felt as a `u32`.
    pub fn next_u32(&mut self) -> (r: DecodeResult<u32>)
        ensures
            (match r {
                Ok(n) => Ok(n as nat),
                Err(e) => Err(e),
            }) == read_u32(old(self).felts()).0,
            final(self).felts() == read_u32(old(self).felts()).1,
            final(self).is_legacy() == old(self).is_legacy(),
    {
        let f = self.next()?;
        match f.to_u32() {
            Some(n) => Ok(n),
            None => Err(DecodeError::ValueOutOfRange(f)),
        }
    }

    /// Reads the next felt as a Cairo short string.
    pub fn next_short_string(&mut self) -> (r: DecodeResult<String>)
        ensures
            (match r {
                Ok(s) => Ok(s@),
                Err(e) => Err(e),
            }) == read_short_string(old(self).felts()).0,
            final(self).felts() == read_short_string(old(self).felts()).1,
            final(self).is_legacy() == old(self).is_legacy(),
    {
        let f = self.next()?;
        match short_string(&f) {
            Some(s) => Ok(s),
            None => Err(DecodeError::InvalidShortString(f)),
        }
    }

    /// Reads a span that must hold one type definition.
    pub fn singleton_span(&mut self) -> (r: DecodeResult<TypeDef>)
        ensures
            type_def_result(r) == read_singleton_span(old(self).felts(), old(self).is_legacy()).0,
            final(self).felts() == read_singleton_span(old(self).felts(), old(self).is_legacy()).1,
            final(self).is_legacy() == old(self).is_legacy(),
            final(self).felts().len() <= old(self).felts().len(),
    {
        deserialize_singleton_span(self)
    }

    /// Reads a tuple definition; the empty tuple is the unit type.
    pub fn next_tuple_def(&mut self) -> (r: DecodeResult<TypeDef>)
        ensures
            type_def_result(r) == read_tuple_type_def(old(self).felts(), old(self).is_legacy()).0,
            final(self).felts() == read_tuple_type_def(old(self).felts(), old(self).is_legacy()).1,
            final(self).is_legacy() == old(self).is_legacy(),
            final(self).felts().len() <= old(self).felts().len(),
    {
        deserialize_tuple_type_def(self)
    }
}

pub open spec fn type_def_result(r: DecodeResult<TypeDef>) -> Result<TypeDefView, DecodeError> {
    match r {
        Ok(t) => Ok(t.view()),
        Err(e) => Err(e),
    }
}

pub open spec fn struct_def_result(r: DecodeResult<StructDef>) -> Result<StructDefView, DecodeError> {
    match r {
        Ok(t) => Ok(t.view()),
        Err(e) => Err(e),
    }
}

pub open spec fn enum_def_result(r: DecodeResult<EnumDef>) -> Result<EnumDefView, DecodeError> {
    match r {
        Ok(t) => Ok(t.view()),
        Err(e) => Err(e),
    }
}

pub open spec fn member_def_result(r: DecodeResult<MemberDef>) -> Result<MemberDefView, DecodeError> {
    match r {
        Ok(t) => Ok(t.view()),
        Err(e) => Err(e),
    }
}

pub open spec fn variant_def_result(r: DecodeResult<VariantDef>) -> Result<VariantDefView, DecodeError> {
    match r {
        Ok(t) => Ok(t.view()),
        Err(e) => Err(e),
    }
}

pub open spec fn column_def_result(r: DecodeResult<ColumnDef>) -> Result<ColumnDefView, DecodeError> {
    match r {
        Ok(t) => Ok(t.view()),
        Err(e) => Err(e),
    }
}

pub open spec fn attributes_result(r: DecodeResult<Vec<Attribute>>) -> Result<Seq<AttributeView>, DecodeError> {
    match r {
        Ok(t) => Ok(attributes_view(t@)),
        Err(e) => Err(e),
    }
}

/// The primitive type whose short-string kind is `kind`.
pub fn dojo_deserialize_primitive(kind: Felt) -> (r: DecodeResult<TypeDef>)
    ensures
        type_def_result(r) == primitive_type_def(kind),
{
    let h = kind.high();
    let k = kind.low();
    proof {
        kind.lemma_limb_value();
    }
    if h == 0 {
        if k == 0x626f6f6c {
            Ok(TypeDef::Bool)
        } else if k == 0x7538 {
            Ok(TypeDef::U8)
        } else if k == 0x753136 {
            Ok(TypeDef::U16)
        } else if k == 0x753332 {
            Ok(TypeDef::U32)
        } else if k == 0x753634 {
            Ok(TypeDef::U64)
        } else if k == 0x75313238 {
            Ok(TypeDef::U128)
        } else if k == 0x75323536 {
            Ok(TypeDef::U256)
        } else if k == 0x6938 {
            Ok(TypeDef::I8)
        } else if k == 0x693136 {
            Ok(TypeDef::I16)
        } else if k == 0x693332 {
            Ok(TypeDef::I32)
        } else if k == 0x693634 {
            Ok(TypeDef::I64)
        } else if k == 0x69313238 {
            Ok(TypeDef::I128)
        } else if k == 0x66656c74323532 {
            Ok(TypeDef::Felt252)
        } else if k == 0x436c61737348617368 {
            Ok(TypeDef::ClassHash)
        } else if k == 0x436f6e747261637441646472657373 {
            Ok(TypeDef::ContractAddress)
        } else if k == 0x45746841646472657373 {
            Ok(TypeDef::EthAddress)
        } else {
            Err(DecodeError::InvalidEnumSelector(SelectorContext::DojoPrimitive, kind))
        }
    } else if h == 0x737461 && k == 0x726b6e65743a3a436c61737348617368 {
        Ok(TypeDef::ClassHash)
    } else if h == 0x737461726b6e65743a && k == 0x3a436f6e747261637441646472657373 {
        Ok(TypeDef::ContractAddress)
    } else if h == 0x73746172 && k == 0x6b6e65743a3a45746841646472657373 {
        Ok(TypeDef::EthAddress)
    } else {
        Err(DecodeError::InvalidEnumSelector(SelectorContext::DojoPrimitive, kind))
    }
}

/// Once reading attributes fails, reading more of them fails the same way.
proof fn lemma_attribute_list_fail(d: Seq<Felt>, i: nat, n: nat)
    requires
        i <= n,
        read_attribute_list(d, i).0 is Err,
    ensures
        read_attribute_list(d, n) == read_attribute_list(d, i),
    decreases n - i,
{
    if i < n {
        lemma_attribute_list_fail(d, i, (n - 1) as nat);
    }
}

proof fn lemma_type_def_list_fail(d: Seq<Felt>, i: nat, n: nat, legacy: bool)
    requires
        i <= n,
        read_type_def_list(d, i, legacy).0 is Err,
    ensures
        read_type_def_list(d, n, legacy) == read_type_def_list(d, i, legacy),
    decreases n - i,
{
    if i < n {
        lemma_type_def_list_fail(d, i, (n - 1) as nat, legacy);
    }
}

proof fn lemma_member_defs_fail(d: Seq<Felt>, i: nat, n: nat, legacy: bool)
    requires
        i <= n,
        read_member_defs(d, i, legacy).0 is Err,
    ensures
        read_member_defs(d, n, legacy) == read_member_defs(d, i, legacy),
    decreases n - i,
{
    if i < n {
        lemma_member_defs_fail(d, i, (n - 1) as nat, legacy);
    }
}

proof fn lemma_variant_defs_fail(d: Seq<Felt>, i: nat, n: nat, legacy: bool)
    requires
        i <= n,
        read_variant_defs(d, i, legacy).0 is Err,
    ensures
        read_variant_defs(d, n, legacy) == read_variant_defs(d, i, legacy),
    decreases n - i,
{
    if i < n {
        lemma_variant_defs_fail(d, i, (n - 1) as nat, legacy);
    }
}

proof fn lemma_column_defs_fail(d: Seq<Felt>, i: nat, n: nat, legacy: bool)
    requires
        i <= n,
        read_column_defs(d, i, legacy).0 is Err,
    ensures
        read_column_defs(d, n, legacy) == read_column_defs(d, i, legacy),
    decreases n - i,
{
    if i < n {
        lemma_column_defs_fail(d, i, (n - 1) as nat, legacy);
    }
}

/// Reads a `u32`-counted list of attributes, each a short-string name.
#[verifier::loop_isolation(false)]
pub fn deserialize_attributes(ds: &mut DojoSerde) -> (r: DecodeResult<Vec<Attribute>>)
    ensures
        attributes_result(r) == read_attributes(old(ds).felts()).0,
        final(ds).felts() == read_attributes(old(ds).felts()).1,
        final(ds).is_legacy() == old(ds).is_legacy(),
        final(ds).felts().len() <= old(ds).felts().len(),
{
    let n = ds.next_u32()?;
    let ghost d1 = ds.felts();
    let mut attrs: Vec<Attribute> = Vec::new();
    proof {
        assert(attributes_view(attrs@) =~= Seq::<AttributeView>::empty());
    }
    let mut i: u32 = 0;
    while i < n
        invariant
            i <= n,
            ds.is_legacy() == old(ds).is_legacy(),
            ds.felts().len() <= d1.len(),
            read_attribute_list(d1, i as nat) == (
                Ok::<Seq<AttributeView>, DecodeError>(attributes_view(attrs@)),
                ds.felts(),
            ),
        decreases n - i,
    {
        let name = match ds.next_short_string() {
            Ok(s) => s,
            Err(e) => {
                proof {
                    lemma_attribute_list_fail(d1, (i + 1) as nat, n as nat);
                }
                return Err(e);
            },
        };
        let ghost prev = attrs@;
        let ghost name_view = name@;
        attrs.push(Attribute::new_empty(name));
        proof {
            assert(attributes_view(attrs@) =~= attributes_view(prev).push(
                AttributeView { name: name_view, data: Seq::empty() },
            ));
        }
        i += 1;
    }
    Ok(attrs)
}

/// Reads a type definition.
pub fn deserialize_type_def(ds: &mut DojoSerde) -> (r: DecodeResult<TypeDef>)
    ensures
        type_def_result(r) == read_type_def(old(ds).felts(), old(ds).is_legacy()).0,
        final(ds).felts() == read_type_def(old(ds).felts(), old(ds).is_legacy()).1,
        final(ds).is_legacy() == old(ds).is_legacy(),
        final(ds).felts().len() <= old(ds).felts().len(),
    decreases old(ds).felts().len(), 0nat,
{
    let first = ds.next()?;
    let kind = match first.to_u32() {
        Some(k) => k,
        None => return Err(DecodeError::ValueOutOfRange(first)),
    };
    if kind == 0 {
        let f = ds.next()?;
        dojo_deserialize_primitive(f)
    } else if kind == 1 {
        let s = deserialize_struct_def(ds)?;
        Ok(TypeDef::Struct(s))
    } else if kind == 2 {
        let e = deserialize_enum_def(ds)?;
        Ok(TypeDef::Enum(e))
    } else if kind == 3 {
        deserialize_tuple_type_def(ds)
    } else if kind == 4 {
        let t = deserialize_singleton_span(ds)?;
        Ok(TypeDef::Array(ArrayDef::new(t)))
    } else if kind == 5 {
        Ok(TypeDef::Utf8String)
    } else if kind == 6 {
        let a = deserialize_fixed_array_def(ds)?;
        Ok(TypeDef::FixedArray(a))
    } else {
        Err(DecodeError::InvalidEnumSelector(SelectorContext::DojoTypeDef, first))
    }
}

/// Reads a span that must hold exactly one type definition.
pub fn deserialize_singleton_span(ds: &mut DojoSerde) -> (r: DecodeResult<TypeDef>)
    ensures
        type_def_result(r) == read_singleton_span(old(ds).felts(), old(ds).is_legacy()).0,
        final(ds).felts() == read_singleton_span(old(ds).felts(), old(ds).is_legacy()).1,
        final(ds).is_legacy() == old(ds).is_legacy(),
        final(ds).felts().len() <= old(ds).felts().len(),
    decreases old(ds).felts().len(), 1nat,
{
    match ds.next() {
        Ok(f) => {
            if !f.is_one() {
                return Err(DecodeError::Message(DecodeMessage::ExpectedSingletonSpan));
            }
        },
        Err(_) => return Err(DecodeError::Message(DecodeMessage::ExpectedSingletonSpan)),
    }
    deserialize_type_def(ds)
}

/// Reads a fixed array definition: a singleton span, then a `u32` size.
pub fn deserialize_fixed_array_def(ds: &mut DojoSerde) -> (r: DecodeResult<FixedArrayDef>)
    ensures
        (match r {
            Ok(a) => Ok((a.type_def.view(), a.size)),
            Err(e) => Err(e),
        }) == read_fixed_array_def(old(ds).felts(), old(ds).is_legacy()).0,
        final(ds).felts() == read_fixed_array_def(old(ds).felts(), old(ds).is_legacy()).1,
        final(ds).is_legacy() == old(ds).is_legacy(),
        final(ds).felts().len() <= old(ds).felts().len(),
    decreases old(ds).felts().len(), 2nat,
{
    let type_def = deserialize_singleton_span(ds)?;
    let size = ds.next_u32()?;
    Ok(FixedArrayDef { type_def: Box::new(type_def), size })
}

/// Reads a tuple definition: a `u32` size, then that many definitions; the
/// empty tuple is the unit type.
#[verifier::loop_isolation(false)]
pub fn deserialize_tuple_type_def(ds: &mut DojoSerde) -> (r: DecodeResult<TypeDef>)
    ensures
        type_def_result(r) == read_tuple_type_def(old(ds).felts(), old(ds).is_legacy()).0,
        final(ds).felts() == read_tuple_type_def(old(ds).felts(), old(ds).is_legacy()).1,
        final(ds).is_legacy() == old(ds).is_legacy(),
        final(ds).felts().len() <= old(ds).felts().len(),
    decreases old(ds).felts().len(), 1nat,
{
    let size = ds.next_u32()?;
    if size == 0 {
        return Ok(TypeDef::Unit);
    }
    let ghost d1 = ds.felts();
    let mut elements: Vec<TypeDef> = Vec::new();
    let mut i: u32 = 0;
    while i < size
        invariant
            i <= size,
            ds.is_legacy() == old(ds).is_legacy(),
            d1.len() < old(ds).felts().len(),
            ds.felts().len() <= d1.len(),
            read_type_def_list(d1, i as nat, old(ds).is_legacy()) == (
                Ok::<Seq<TypeDefView>, DecodeError>(type_defs_view(elements@)),
                ds.felts(),
            ),
        decreases size - i,
    {
        let t = match deserialize_type_def(ds) {
            Ok(t) => t,
            Err(e) => {
                proof {
                    lemma_type_def_list_fail(d1, (i + 1) as nat, size as nat, old(ds).is_legacy());
                }
                return Err(e);
            },
        };
        let ghost prev = elements@;
        elements.push(t);
        proof {
            assert(elements@.drop_last() =~= prev);
        }
        i += 1;
    }
    Ok(TypeDef::Tuple(TupleDef::new(elements)))
}

/// Reads a struct definition.
#[verifier::loop_isolation(false)]
pub fn deserialize_struct_def(ds: &mut DojoSerde) -> (r: DecodeResult<StructDef>)
    ensures
        struct_def_result(r) == read_struct_def(old(ds).felts(), old(ds).is_legacy()).0,
        final(ds).felts() == read_struct_def(old(ds).felts(), old(ds).is_legacy()).1,
        final(ds).is_legacy() == old(ds).is_legacy(),
        final(ds).felts().len() <= old(ds).felts().len(),
    decreases old(ds).felts().len(), 1nat,
{
    let name = ds.next_short_string()?;
    let attributes = deserialize_attributes(ds)?;
    let n = ds.next_u32()?;
    let ghost d3 = ds.felts();
    let mut members: Vec<MemberDef> = Vec::new();
    let mut i: u32 = 0;
    while i < n
        invariant
            i <= n,
            ds.is_legacy() == old(ds).is_legacy(),
            d3.len() < old(ds).felts().len(),
            ds.felts().len() <= d3.len(),
            read_member_defs(d3, i as nat, old(ds).is_legacy()) == (
                Ok::<Seq<MemberDefView>, DecodeError>(member_defs_view(members@)),
                ds.felts(),
            ),
        decreases n - i,
    {
        let m = match deserialize_member_def(ds) {
            Ok(m) => m,
            Err(e) => {
                proof {
                    lemma_member_defs_fail(d3, (i + 1) as nat, n as nat, old(ds).is_legacy());
                }
                return Err(e);
            },
        };
        let ghost prev = members@;
        members.push(m);
        proof {
            assert(members@.drop_last() =~= prev);
        }
        i += 1;
    }
    Ok(StructDef { name, attributes, members })
}

/// Reads a member definition.
pub fn deserialize_member_def(ds: &mut DojoSerde) -> (r: DecodeResult<MemberDef>)
    ensures
        member_def_result(r) == read_member_def(old(ds).felts(), old(ds).is_legacy()).0,
        final(ds).felts() == read_member_def(old(ds).felts(), old(ds).is_legacy()).1,
        final(ds).is_legacy() == old(ds).is_legacy(),
        final(ds).felts().len() <= old(ds).felts().len(),
    decreases old(ds).felts().len(), 1nat,
{
    let name = ds.next_short_string()?;
    let attributes = deserialize_attributes(ds)?;
    let type_def = deserialize_type_def(ds)?;
    Ok(MemberDef { name, attributes, type_def })
}

/// Reads an enum definition; the `i`-th variant gets selector `i` in legacy
/// storage and `i + 1` otherwise.
#[verifier::loop_isolation(false)]
pub fn deserialize_enum_def(ds: &mut DojoSerde) -> (r: DecodeResult<EnumDef>)
    ensures
        enum_def_result(r) == read_enum_def(old(ds).felts(), old(ds).is_legacy()).0,
        final(ds).felts() == read_enum_def(old(ds).felts(), old(ds).is_legacy()).1,
        final(ds).is_legacy() == old(ds).is_legacy(),
        final(ds).felts().len() <= old(ds).felts().len(),
        r matches Ok(e) ==> e.selectors_unique(),
    decreases old(ds).felts().len(), 1nat,
{
    let name = ds.next_short_string()?;
    let attributes = deserialize_attributes(ds)?;
    let legacy_mod: u32 = if ds.legacy { 0 } else { 1 };
    let n = ds.next_u32()?;
    let ghost d3 = ds.felts();
    let mut variants: Vec<(Felt, VariantDef)> = Vec::new();
    let mut i: u32 = 0;
    while i < n
        invariant
            i <= n,
            ds.is_legacy() == old(ds).is_legacy(),
            legacy_mod == (if old(ds).is_legacy() { 0u32 } else { 1u32 }),
            d3.len() < old(ds).felts().len(),
            ds.felts().len() <= d3.len(),
            read_variant_defs(d3, i as nat, old(ds).is_legacy()) == (
                Ok::<Seq<(nat, VariantDefView)>, DecodeError>(variant_defs_view(variants@)),
                ds.felts(),
            ),
        decreases n - i,
    {
        let v = match deserialize_variant_def(ds) {
            Ok(v) => v,
            Err(e) => {
                proof {
                    lemma_variant_defs_fail(d3, (i + 1) as nat, n as nat, old(ds).is_legacy());
                }
                return Err(e);
            },
        };
        let ghost prev = variants@;
        let key = Felt::from_u128(i as u128 + legacy_mod as u128);
        variants.push((key, v));
        proof {
            assert(variants@.drop_last() =~= prev);
        }
        i += 1;
    }
    proof {
        crate::typedef::lemma_variant_defs_view_index(variants@);
        lemma_variant_defs_selectors(d3, n as nat, old(ds).is_legacy());
        let vs = variant_defs_view(variants@);
        assert forall|a: int, b: int| 0 <= a < b < variants@.len() implies #[trigger] variants@[a].0
            != #[trigger] variants@[b].0 by {
            assert(vs[a].0 == variants@[a].0@);
            assert(vs[b].0 == variants@[b].0@);
            assert(vs[a].0 == variant_selector(a as nat, old(ds).is_legacy()));
            assert(vs[b].0 == variant_selector(b as nat, old(ds).is_legacy()));
        }
    }
    Ok(EnumDef::new(name, attributes, variants))
}

/// Reads a variant definition; variants carry no attributes.
pub fn deserialize_variant_def(ds: &mut DojoSerde) -> (r: DecodeResult<VariantDef>)
    ensures
        variant_def_result(r) == read_variant_def(old(ds).felts(), old(ds).is_legacy()).0,
        final(ds).felts() == read_variant_def(old(ds).felts(), old(ds).is_legacy()).1,
        final(ds).is_legacy() == old(ds).is_legacy(),
        final(ds).felts().len() <= old(ds).felts().len(),
    decreases old(ds).felts().len(), 1nat,
{
    let name = ds.next_short_string()?;
    let attributes: Vec<Attribute> = Vec::new();
    proof {
        assert(attributes_view(attributes@) =~= Seq::<AttributeView>::empty());
    }
    let type_def = deserialize_type_def(ds)?;
    Ok(VariantDef { name, attributes, type_def })
}


/// Whether the text of `s` is `lit`.
fn string_is(s: &String, lit: &str) -> (b: bool)
    ensures
        b == (s@ == lit@),
{
    *s == lit.to_owned()
}

/// Whether one of the attributes is named `key`.
fn has_key(attributes: &Vec<Attribute>) -> (b: bool)
    ensures
        b == has_key_attribute(attributes_view(attributes@)),
{
    let mut i: usize = 0;
    while i < attributes.len()
        invariant
            i <= attributes.len(),
            forall|j: int| 0 <= j < i ==> attributes@[j].name@ != "key"@,
        decreases attributes.len() - i,
    {
        if string_is(&attributes[i].name, "key") {
            proof {
                assert(attributes_view(attributes@)[i as int].name == "key"@);
            }
            return true;
        }
        i += 1;
    }
    proof {
        assert forall|j: int| 0 <= j < attributes_view(attributes@).len()
            implies #[trigger] attributes_view(attributes@)[j].name != "key"@ by {
            assert(attributes_view(attributes@)[j] == attributes@[j].view());
        }
    }
    false
}

/// Reads a column definition. Its type is read as legacy when the model is
/// legacy or the column is a key, and the reader's mode is restored after.
pub fn deserialize_column_def(ds: &mut DojoSerde) -> (r: DecodeResult<ColumnDef>)
    ensures
        column_def_result(r) == read_column_def(old(ds).felts(), old(ds).is_legacy()).0,
        final(ds).felts() == read_column_def(old(ds).felts(), old(ds).is_legacy()).1,
        final(ds).is_legacy() == old(ds).is_legacy(),
        final(ds).felts().len() <= old(ds).felts().len(),
{
    let name = ds.next_short_string()?;
    let attributes = deserialize_attributes(ds)?;
    let is_key = has_key(&attributes);
    proof {
        use_type_invariant(&*ds);
    }
    let prev = ds.legacy;
    ds.legacy = prev || is_key;
    let read = deserialize_type_def(ds);
    proof {
        use_type_invariant(&*ds);
    }
    ds.legacy = prev;
    let type_def = read?;
    let id = match selector_from_name(name.as_str()) {
        Some(id) => id,
        None => return Err(DecodeError::Message(DecodeMessage::NonAsciiName)),
    };
    Ok(ColumnDef { id, name, attributes, type_def })
}

/// A Dojo model schema: its name, attributes and columns.
#[derive(Debug)]
pub struct DojoSchema {
    pub name: String,
    pub attributes: Vec<Attribute>,
    pub columns: Vec<ColumnDef>,
}

impl DojoSchema {
    pub open spec fn view(&self) -> DojoSchemaView {
        DojoSchemaView {
            name: self.name@,
            attributes: attributes_view(self.attributes@),
            columns: column_defs_view(self.columns@),
        }
    }
}

pub open spec fn schema_result(r: DecodeResult<DojoSchema>) -> Result<DojoSchemaView, DecodeError> {
    match r {
        Ok(t) => Ok(t.view()),
        Err(e) => Err(e),
    }
}

/// Reads a schema: a short-string name, attributes and a `u32`-counted list of columns.
#[verifier::loop_isolation(false)]
pub fn deserialize_schema(ds: &mut DojoSerde) -> (r: DecodeResult<DojoSchema>)
    ensures
        schema_result(r) == read_schema(old(ds).felts(), old(ds).is_legacy()).0,
        final(ds).felts() == read_schema(old(ds).felts(), old(ds).is_legacy()).1,
        final(ds).is_legacy() == old(ds).is_legacy(),
        final(ds).felts().len() <= old(ds).felts().len(),
{
    let name = ds.next_short_string()?;
    let attributes = deserialize_attributes(ds)?;
    let n = ds.next_u32()?;
    let ghost d3 = ds.felts();
    let mut columns: Vec<ColumnDef> = Vec::new();
    proof {
        assert(column_defs_view(columns@) =~= Seq::<ColumnDefView>::empty());
    }
    let mut i: u32 = 0;
    while i < n
        invariant
            i <= n,
            ds.is_legacy() == old(ds).is_legacy(),
            ds.felts().len() <= d3.len(),
            read_column_defs(d3, i as nat, old(ds).is_legacy()) == (
                Ok::<Seq<ColumnDefView>, DecodeError>(column_defs_view(columns@)),
                ds.felts(),
            ),
        decreases n - i,
    {
        let c = match deserialize_column_def(ds) {
            Ok(c) => c,
            Err(e) => {
                proof {
                    lemma_column_defs_fail(d3, (i + 1) as nat, n as nat, old(ds).is_legacy());
                }
                return Err(e);
            },
        };
        let ghost prev = columns@;
        let ghost cv = c.view();
        columns.push(c);
        proof {
            assert(column_defs_view(columns@) =~= column_defs_view(prev).push(cv));
        }
        i += 1;
    }
    Ok(DojoSchema { name, attributes, columns })
}

// ---------------------------------------------------------------------------
// Copies and the table schema.
// ---------------------------------------------------------------------------

fn clone_felts(v: &Vec<Felt>) -> (r: Vec<Felt>)
    ensures
        r@ == v@,
{
    let mut out: Vec<Felt> = Vec::new();
    let mut i: usize = 0;
    while i < v.len()
        invariant
            i <= v.len(),
            out@ == v@.take(i as int),
        decreases v.len() - i,
    {
        out.push(v[i]);
        i += 1;
        proof {
            assert(out@ =~= v@.take(i as int));
        }
    }
    proof {
        assert(v@.take(v.len() as int) =~= v@);
    }
    out
}

fn clone_attributes(v: &Vec<Attribute>) -> (r: Vec<Attribute>)
    ensures
        attributes_view(r@) == attributes_view(v@),
{
    let mut out: Vec<Attribute> = Vec::new();
    let mut i: usize = 0;
    while i < v.len()
        invariant
            i <= v.len(),
            attributes_view(out@) =~= attributes_view(v@.take(i as int)),
        decreases v.len() - i,
    {
        out.push(Attribute { name: v[i].name.clone(), data: clone_felts(&v[i].data) });
        i += 1;
        proof {
            assert(attributes_view(v@.take(i as int)) =~= attributes_view(v@.take(i - 1)).push(v@[i - 1].view()));
        }
    }
    proof {
        assert(v@.take(v.len() as int) =~= v@);
    }
    out
}

/// A copy of a type definition.
pub fn clone_type_def(t: &TypeDef) -> (r: TypeDef)
    ensures
        r.view() == t.view(),
    decreases t, 0nat,
{
    match t {
        TypeDef::Unit => TypeDef::Unit,
        TypeDef::Bool => TypeDef::Bool,
        TypeDef::U8 => TypeDef::U8,
        TypeDef::U16 => TypeDef::U16,
        TypeDef::U32 => TypeDef::U32,
        TypeDef::U64 => TypeDef::U64,
        TypeDef::U128 => TypeDef::U128,
        TypeDef::U256 => TypeDef::U256,
        TypeDef::I8 => TypeDef::I8,
        TypeDef::I16 => TypeDef::I16,
        TypeDef::I32 => TypeDef::I32,
        TypeDef::I64 => TypeDef::I64,
        TypeDef::I128 => TypeDef::I128,
        TypeDef::Felt252 => TypeDef::Felt252,
        TypeDef::ClassHash => TypeDef::ClassHash,
        TypeDef::ContractAddress => TypeDef::ContractAddress,
        TypeDef::EthAddress => TypeDef::EthAddress,
        TypeDef::Utf8String => TypeDef::Utf8String,
        TypeDef::Struct(s) => TypeDef::Struct(clone_struct_def(s)),
        TypeDef::Enum(e) => TypeDef::Enum(clone_enum_def(e)),
        TypeDef::Tuple(tu) => TypeDef::Tuple(TupleDef { elements: clone_type_defs(&tu.elements) }),
        TypeDef::Array(a) => TypeDef::Array(ArrayDef { type_def: Box::new(clone_type_def(&a.type_def)) }),
        TypeDef::FixedArray(a) => TypeDef::FixedArray(
            FixedArrayDef { type_def: Box::new(clone_type_def(&a.type_def)), size: a.size },
        ),
    }
}

fn clone_type_defs(v: &Vec<TypeDef>) -> (r: Vec<TypeDef>)
    ensures
        type_defs_view(r@) == type_defs_view(v@),
    decreases v, 1nat,
{
    let mut out: Vec<TypeDef> = Vec::new();
    let mut i: usize = 0;
    while i < v.len()
        invariant
            i <= v.len(),
            type_defs_view(out@) == type_defs_view(v@.take(i as int)),
        decreases v.len() - i,
    {
        let ghost prev = out@;
        out.push(clone_type_def(&v[i]));
        proof {
            assert(out@.drop_last() =~= prev);
            assert(v@.take(i + 1).drop_last() =~= v@.take(i as int));
        }
        i += 1;
    }
    proof {
        assert(v@.take(v.len() as int) =~= v@);
    }
    out
}

fn clone_struct_def(s: &StructDef) -> (r: StructDef)
    ensures
        r.view() == s.view(),
    decreases s, 1nat,
{
    let mut members: Vec<MemberDef> = Vec::new();
    let mut i: usize = 0;
    while i < s.members.len()
        invariant
            i <= s.members.len(),
            member_defs_view(members@) == member_defs_view(s.members@.take(i as int)),
        decreases s.members.len() - i,
    {
        let ghost prev = members@;
        let m = &s.members[i];
        members.push(
            MemberDef {
                name: m.name.clone(),
                attributes: clone_attributes(&m.attributes),
                type_def: clone_type_def(&m.type_def),
            },
        );
        proof {
            assert(members@.drop_last() =~= prev);
            assert(s.members@.take(i + 1).drop_last() =~= s.members@.take(i as int));
            assert(s.members@.take(i + 1).last() == s.members@[i as int]);
            assert(members@.last().view() == s.members@[i as int].view());
        }
        i += 1;
    }
    proof {
        assert(s.members@.take(s.members.len() as int) =~= s.members@);
    }
    StructDef { name: s.name.clone(), attributes: clone_attributes(&s.attributes), members }
}

fn clone_enum_def(e: &EnumDef) -> (r: EnumDef)
    ensures
        r.view() == e.view(),
    decreases e, 1nat,
{
    let mut variants: Vec<(Felt, VariantDef)> = Vec::new();
    let mut i: usize = 0;
    while i < e.variants.len()
        invariant
            i <= e.variants.len(),
            variant_defs_view(variants@) == variant_defs_view(e.variants@.take(i as int)),
        decreases e.variants.len() - i,
    {
        let ghost prev = variants@;
        let v = &e.variants[i].1;
        variants.push(
            (
                e.variants[i].0,
                VariantDef {
                    name: v.name.clone(),
                    attributes: clone_attributes(&v.attributes),
                    type_def: clone_type_def(&v.type_def),
                },
            ),
        );
        proof {
            assert(variants@.drop_last() =~= prev);
            assert(e.variants@.take(i + 1).drop_last() =~= e.variants@.take(i as int));
            assert(e.variants@.take(i + 1).last() == e.variants@[i as int]);
            assert(variants@.last().1.view() == e.variants@[i as int].1.view());
        }
        i += 1;
    }
    proof {
        assert(e.variants@.take(e.variants.len() as int) =~= e.variants@);
    }
    EnumDef { name: e.name.clone(), attributes: clone_attributes(&e.attributes), variants }
}

/// A copy of a column definition.
pub fn clone_column_def(c: &ColumnDef) -> (r: ColumnDef)
    ensures
        r.view() == c.view(),
{
    ColumnDef {
        id: c.id,
        name: c.name.clone(),
        attributes: clone_attributes(&c.attributes),
        type_def: clone_type_def(&c.type_def),
    }
}

fn clone_columns(v: &Vec<ColumnDef>) -> (r: Vec<ColumnDef>)
    ensures
        column_defs_view(r@) == column_defs_view(v@),
{
    let mut out: Vec<ColumnDef> = Vec::new();
    let mut i: usize = 0;
    while i < v.len()
        invariant
            i <= v.len(),
            column_defs_view(out@) =~= column_defs_view(v@.take(i as int)),
        decreases v.len() - i,
    {
        out.push(clone_column_def(&v[i]));
        i += 1;
        proof {
            assert(column_defs_view(v@.take(i as int)) =~= column_defs_view(v@.take(i - 1)).push(v@[i - 1].view()));
        }
    }
    proof {
        assert(v@.take(v.len() as int) =~= v@);
    }
    out
}

/// The primary key of every Dojo table: `entity_id`, a felt.
pub open spec fn is_dojo_primary(p: PrimaryDef) -> bool {
    &&& p.name@ == "entity_id"@
    &&& p.attributes@.len() == 0
    &&& p.type_def == PrimaryTypeDef::Felt252
}

/// The primary key of every Dojo table.
fn dojo_primary_def() -> (p: PrimaryDef)
    ensures
        is_dojo_primary(p),
{
    PrimaryDef { name: "entity_id".to_owned(), attributes: Vec::new(), type_def: PrimaryTypeDef::Felt252 }
}

impl DojoSchema {
    /// The table of this model in `namespace`, named `namespace-name`.
    pub fn to_table_schema(&self, namespace: &str, name: &str) -> (t: TableSchema)
        ensures
            t.id@ == namespace_name_selector(namespace@, name@),
            t.name@ == namespace@ + "-"@ + name@,
            attributes_view(t.attributes@) == attributes_view(self.attributes@),
            is_dojo_primary(t.primary),
            column_defs_view(t.columns@) == column_defs_view(self.columns@),
    {
        let mut table_name = namespace.to_owned();
        table_name.append("-");
        table_name.append(name);
        TableSchema {
            id: compute_selector_from_namespace_and_name(namespace, name),
            name: table_name,
            attributes: clone_attributes(&self.attributes),
            primary: dojo_primary_def(),
            columns: clone_columns(&self.columns),
        }
    }
}


/// Whether something is a key of its Dojo model.
pub trait IsDojoKey {
    fn is_dojo_key(&self) -> bool;
}

/// Reading a value from a [`DojoSerde`].
pub trait CairoDeserialize: Sized {
    fn deserialize(deserializer: &mut DojoSerde) -> DecodeResult<Self>;
}

/// Reading a short string as a name-only attribute.
pub open spec fn read_attribute(d: Seq<Felt>, legacy: bool) -> (Result<AttributeView, DecodeError>, Seq<Felt>) {
    match read_short_string(d) {
        (Ok(name), r) => (Ok(AttributeView { name, data: Seq::empty() }), r),
        (Err(e), r) => (Err(e), r),
    }
}

/// Reading a `u32`-counted list of type definitions as a tuple.
pub open spec fn read_tuple_def(d: Seq<Felt>, legacy: bool) -> (Result<Seq<TypeDefView>, DecodeError>, Seq<Felt>) {
    match read_u32(d) {
        (Err(e), r) => (Err(e), r),
        (Ok(n), d1) => read_type_def_list(d1, n, legacy),
    }
}

/// Reads a `u32`-counted list of type definitions as a tuple.
#[verifier::loop_isolation(false)]
pub fn deserialize_tuple_def(ds: &mut DojoSerde) -> (r: DecodeResult<TupleDef>)
    ensures
        (match r {
            Ok(t) => Ok(type_defs_view(t.elements@)),
            Err(e) => Err(e),
        }) == read_tuple_def(old(ds).felts(), old(ds).is_legacy()).0,
        final(ds).felts() == read_tuple_def(old(ds).felts(), old(ds).is_legacy()).1,
        final(ds).is_legacy() == old(ds).is_legacy(),
{
    let size = ds.next_u32()?;
    let ghost d1 = ds.felts();
    let mut elements: Vec<TypeDef> = Vec::new();
    let mut i: u32 = 0;
    while i < size
        invariant
            i <= size,
            ds.is_legacy() == old(ds).is_legacy(),
            ds.felts().len() <= d1.len(),
            read_type_def_list(d1, i as nat, old(ds).is_legacy()) == (
                Ok::<Seq<TypeDefView>, DecodeError>(type_defs_view(elements@)),
                ds.felts(),
            ),
        decreases size - i,
    {
        let t = match deserialize_type_def(ds) {
            Ok(t) => t,
            Err(e) => {
                proof {
                    lemma_type_def_list_fail(d1, (i + 1) as nat, size as nat, old(ds).is_legacy());
                }
                return Err(e);
            },
        };
        let ghost prev = elements@;
        elements.push(t);
        proof {
            assert(elements@.drop_last() =~= prev);
        }
        i += 1;
    }
    Ok(TupleDef::new(elements))
}

/// Reads an attribute: a short-string name, without data.
pub fn deserialize_attribute(ds: &mut DojoSerde) -> (r: DecodeResult<Attribute>)
    ensures
        (match r {
            Ok(a) => Ok(a.view()),
            Err(e) => Err(e),
        }) == read_attribute(old(ds).felts(), old(ds).is_legacy()).0,
        final(ds).felts() == read_attribute(old(ds).felts(), old(ds).is_legacy()).1,
        final(ds).is_legacy() == old(ds).is_legacy(),
{
    let name = ds.next_short_string()?;
    Ok(Attribute::new_empty(name))
}

/// Reads an array definition: a singleton span with the element type.
pub fn deserialize_array_def(ds: &mut DojoSerde) -> (r: DecodeResult<ArrayDef>)
    ensures
        (match r {
            Ok(a) => Ok(a.type_def.view()),
            Err(e) => Err(e),
        }) == read_singleton_span(old(ds).felts(), old(ds).is_legacy()).0,
        final(ds).felts() == read_singleton_span(old(ds).felts(), old(ds).is_legacy()).1,
        final(ds).is_legacy() == old(ds).is_legacy(),
{
    let t = ds.singleton_span()?;
    Ok(ArrayDef::new(t))
}

impl CairoDeserialize for TypeDef {
    fn deserialize(deserializer: &mut DojoSerde) -> (r: DecodeResult<Self>)
        ensures
            type_def_result(r) == read_type_def(old(deserializer).felts(), old(deserializer).is_legacy()).0,
            final(deserializer).felts() == read_type_def(old(deserializer).felts(), old(deserializer).is_legacy()).1,
            final(deserializer).is_legacy() == old(deserializer).is_legacy(),
    {
        deserialize_type_def(deserializer)
    }
}

impl CairoDeserialize for Attribute {
    fn deserialize(deserializer: &mut DojoSerde) -> (r: DecodeResult<Self>)
        ensures
            (match r { Ok(a) => Ok(a.view()), Err(e) => Err(e) }) == read_attribute(old(deserializer).felts(), old(deserializer).is_legacy()).0,
            final(deserializer).felts() == read_attribute(old(deserializer).felts(), old(deserializer).is_legacy()).1,
            final(deserializer).is_legacy() == old(deserializer).is_legacy(),
    {
        deserialize_attribute(deserializer)
    }
}

impl CairoDeserialize for ArrayDef {
    fn deserialize(deserializer: &mut DojoSerde) -> (r: DecodeResult<Self>)
        ensures
            (match r { Ok(a) => Ok(a.type_def.view()), Err(e) => Err(e) }) == read_singleton_span(old(deserializer).felts(), old(deserializer).is_legacy()).0,
            final(deserializer).felts() == read_singleton_span(old(deserializer).felts(), old(deserializer).is_legacy()).1,
            final(deserializer).is_legacy() == old(deserializer).is_legacy(),
    {
        deserialize_array_def(deserializer)
    }
}

impl CairoDeserialize for FixedArrayDef {
    fn deserialize(deserializer: &mut DojoSerde) -> (r: DecodeResult<Self>)
        ensures
            (match r { Ok(a) => Ok((a.type_def.view(), a.size)), Err(e) => Err(e) }) == read_fixed_array_def(old(deserializer).felts(), old(deserializer).is_legacy()).0,
            final(deserializer).felts() == read_fixed_array_def(old(deserializer).felts(), old(deserializer).is_legacy()).1,
            final(deserializer).is_legacy() == old(deserializer).is_legacy(),
    {
        deserialize_fixed_array_def(deserializer)
    }
}

impl CairoDeserialize for TupleDef {
    fn deserialize(deserializer: &mut DojoSerde) -> (r: DecodeResult<Self>)
        ensures
            (match r { Ok(t) => Ok(type_defs_view(t.elements@)), Err(e) => Err(e) }) == read_tuple_def(old(deserializer).felts(), old(deserializer).is_legacy()).0,
            final(deserializer).felts() == read_tuple_def(old(deserializer).felts(), old(deserializer).is_legacy()).1,
            final(deserializer).is_legacy() == old(deserializer).is_legacy(),
    {
        deserialize_tuple_def(deserializer)
    }
}

impl CairoDeserialize for StructDef {
    fn deserialize(deserializer: &mut DojoSerde) -> (r: DecodeResult<Self>)
        ensures
            struct_def_result(r) == read_struct_def(old(deserializer).felts(), old(deserializer).is_legacy()).0,
            final(deserializer).felts() == read_struct_def(old(deserializer).felts(), old(deserializer).is_legacy()).1,
            final(deserializer).is_legacy() == old(deserializer).is_legacy(),
    {
        deserialize_struct_def(deserializer)
    }
}

impl CairoDeserialize for EnumDef {
    fn deserialize(deserializer: &mut DojoSerde) -> (r: DecodeResult<Self>)
        ensures
            enum_def_result(r) == read_enum_def(old(deserializer).felts(), old(deserializer).is_legacy()).0,
            final(deserializer).felts() == read_enum_def(old(deserializer).felts(), old(deserializer).is_legacy()).1,
            final(deserializer).is_legacy() == old(deserializer).is_legacy(),
            r matches Ok(e) ==> e.selectors_unique(),
    {
        deserialize_enum_def(deserializer)
    }
}

impl CairoDeserialize for MemberDef {
    fn deserialize(deserializer: &mut DojoSerde) -> (r: DecodeResult<Self>)
        ensures
            member_def_result(r) == read_member_def(old(deserializer).felts(), old(deserializer).is_legacy()).0,
            final(deserializer).felts() == read_member_def(old(deserializer).felts(), old(deserializer).is_legacy()).1,
            final(deserializer).is_legacy() == old(deserializer).is_legacy(),
    {
        deserialize_member_def(deserializer)
    }
}

impl CairoDeserialize for VariantDef {
    fn deserialize(deserializer: &mut DojoSerde) -> (r: DecodeResult<Self>)
        ensures
            variant_def_result(r) == read_variant_def(old(deserializer).felts(), old(deserializer).is_legacy()).0,
            final(deserializer).felts() == read_variant_def(old(deserializer).felts(), old(deserializer).is_legacy()).1,
            final(deserializer).is_legacy() == old(deserializer).is_legacy(),
    {
        deserialize_variant_def(deserializer)
    }
}

impl CairoDeserialize for ColumnDef {
    fn deserialize(deserializer: &mut DojoSerde) -> (r: DecodeResult<Self>)
        ensures
            column_def_result(r) == read_column_def(old(deserializer).felts(), old(deserializer).is_legacy()).0,
            final(deserializer).felts() == read_column_def(old(deserializer).felts(), old(deserializer).is_legacy()).1,
            final(deserializer).is_legacy() == old(deserializer).is_legacy(),
    {
        deserialize_column_def(deserializer)
    }
}

impl CairoDeserialize for DojoSchema {
    fn deserialize(deserializer: &mut DojoSerde) -> (r: DecodeResult<Self>)
        ensures
            schema_result(r) == read_schema(old(deserializer).felts(), old(deserializer).is_legacy()).0,
            final(deserializer).felts() == read_schema(old(deserializer).felts(), old(deserializer).is_legacy()).1,
            final(deserializer).is_legacy() == old(deserializer).is_legacy(),
    {
        deserialize_schema(deserializer)
    }
}

// ---------------------------------------------------------------------------
// Laws of the layouts.
// ---------------------------------------------------------------------------

proof fn lemma_variant_defs_selectors(d: Seq<Felt>, n: nat, legacy: bool)
    ensures
        read_variant_defs(d, n, legacy).0 matches Ok(vs) ==> vs.len() == n && forall|i: int|
            0 <= i < n ==> (#[trigger] vs[i]).0 == variant_selector(i as nat, legacy),
    decreases n,
{
    if n > 0 {
        lemma_variant_defs_selectors(d, (n - 1) as nat, legacy);
    }
}

/// The variants of an enum definition are keyed by their position: from 0 in
/// the legacy layout, from 1 in the layout that keeps 0 for storage never
/// written.
pub proof fn law_enum_variant_selectors(d: Seq<Felt>, legacy: bool)
    ensures
        read_enum_def(d, legacy).0 matches Ok(e) ==> forall|i: int|
            0 <= i < e.variants.len() ==> (#[trigger] e.variants[i]).0 == if legacy {
                i
            } else {
                i + 1
            },
{
    let (name_r, d1) = read_short_string(d);
    if name_r is Ok && d.len() > 0 {
        let (attrs_r, d2) = read_attributes(d1);
        if attrs_r is Ok {
            let d2 = no_longer(d2, d.drop_first());
            if d2.len() > 0 && d2[0]@ <= u32::MAX {
                lemma_variant_defs_selectors(d2.drop_first(), d2[0]@, legacy);
            }
        }
    }
}

/// A key column is read the same in a legacy model and in one that is not:
/// keys are never stored, so their types keep the legacy layout.
pub proof fn law_key_column_layout(d: Seq<Felt>)
    ensures
        read_column_def(d, false).0 matches Ok(c) && has_key_attribute(c.attributes) ==> read_column_def(
            d,
            true,
        ) == read_column_def(d, false),
{
}

// ---------------------------------------------------------------------------
// The two layouts of enum selectors.
// ---------------------------------------------------------------------------

/// `t` with every enum variant, nested ones included, keyed one higher.
pub open spec fn shift_type_def(t: TypeDefView) -> TypeDefView
    decreases t,
{
    match t {
        TypeDefView::Struct(s) => TypeDefView::Struct(shift_struct_def(s)),
        TypeDefView::Enum(e) => TypeDefView::Enum(shift_enum_def(e)),
        TypeDefView::Tuple(ts) => TypeDefView::Tuple(shift_type_defs(ts)),
        TypeDefView::Array(b) => TypeDefView::Array(Box::new(shift_type_def(*b))),
        TypeDefView::FixedArray(b, n) => TypeDefView::FixedArray(Box::new(shift_type_def(*b)), n),
        _ => t,
    }
}

pub open spec fn shift_type_defs(s: Seq<TypeDefView>) -> Seq<TypeDefView>
    decreases s,
{
    if s.len() == 0 {
        Seq::empty()
    } else {
        shift_type_defs(s.drop_last()).push(shift_type_def(s.last()))
    }
}

pub open spec fn shift_struct_def(s: StructDefView) -> StructDefView
    decreases s,
{
    StructDefView { name: s.name, attributes: s.attributes, members: shift_member_defs(s.members) }
}

pub open spec fn shift_member_defs(s: Seq<MemberDefView>) -> Seq<MemberDefView>
    decreases s,
{
    if s.len() == 0 {
        Seq::empty()
    } else {
        shift_member_defs(s.drop_last()).push(shift_member_def(s.last()))
    }
}

pub open spec fn shift_member_def(m: MemberDefView) -> MemberDefView
    decreases m,
{
    MemberDefView { name: m.name, attributes: m.attributes, type_def: shift_type_def(m.type_def) }
}

/// The enum with each variant keyed one higher and its type shifted alike.
pub open spec fn shift_enum_def(e: EnumDefView) -> EnumDefView
    decreases e,
{
    EnumDefView { name: e.name, attributes: e.attributes, variants: shift_variant_defs(e.variants) }
}

pub open spec fn shift_variant_defs(s: Seq<(nat, VariantDefView)>) -> Seq<(nat, VariantDefView)>
    decreases s,
{
    if s.len() == 0 {
        Seq::empty()
    } else {
        shift_variant_defs(s.drop_last()).push((s.last().0 + 1, shift_variant_def(s.last().1)))
    }
}

pub open spec fn shift_variant_def(v: VariantDefView) -> VariantDefView
    decreases v,
{
    VariantDefView { name: v.name, attributes: v.attributes, type_def: shift_type_def(v.type_def) }
}

proof fn lemma_shift_type_def(d: Seq<Felt>)
    ensures
        read_type_def(d, false).1 == read_type_def(d, true).1,
        read_type_def(d, false).0 == match read_type_def(d, true).0 {
            Ok(t) => Ok(shift_type_def(t)),
            Err(e) => Err(e),
        },
    decreases d.len(), 0nat,
{
    if d.len() > 0 && d[0]@ <= u32::MAX {
        let d1 = d.drop_first();
        let kind = d[0]@;
        if kind == 1 {
            lemma_shift_struct_def(d1);
        } else if kind == 2 {
            lemma_shift_enum_def(d1);
        } else if kind == 3 {
            lemma_shift_tuple_type_def(d1);
        } else if kind == 4 {
            lemma_shift_singleton_span(d1);
        } else if kind == 6 {
            lemma_shift_singleton_span(d1);
        }
    }
}

proof fn lemma_shift_singleton_span(d: Seq<Felt>)
    ensures
        read_singleton_span(d, false).1 == read_singleton_span(d, true).1,
        read_singleton_span(d, false).0 == match read_singleton_span(d, true).0 {
            Ok(t) => Ok(shift_type_def(t)),
            Err(e) => Err(e),
        },
    decreases d.len(), 1nat,
{
    if d.len() > 0 && d[0]@ == 1 {
        lemma_shift_type_def(d.drop_first());
    }
}

proof fn lemma_shift_tuple_type_def(d: Seq<Felt>)
    ensures
        read_tuple_type_def(d, false).1 == read_tuple_type_def(d, true).1,
        read_tuple_type_def(d, false).0 == match read_tuple_type_def(d, true).0 {
            Ok(t) => Ok(shift_type_def(t)),
            Err(e) => Err(e),
        },
    decreases d.len(), 1nat,
{
    if d.len() > 0 && d[0]@ <= u32::MAX && d[0]@ != 0 {
        lemma_shift_type_def_list(d.drop_first(), d[0]@);
    }
}

proof fn lemma_shift_type_def_list(d: Seq<Felt>, n: nat)
    ensures
        read_type_def_list(d, n, false).1 == read_type_def_list(d, n, true).1,
        read_type_def_list(d, n, false).0 == match read_type_def_list(d, n, true).0 {
            Ok(t) => Ok(shift_type_defs(t)),
            Err(e) => Err(e),
        },
    decreases d.len(), n + 3,
{
    if n > 0 {
        lemma_shift_type_def_list(d, (n - 1) as nat);
        if let (Ok(ts), d1) = read_type_def_list(d, (n - 1) as nat, true) {
            lemma_shift_type_def(no_longer(d1, d));
            if let (Ok(t), r) = read_type_def(no_longer(d1, d), true) {
                assert(ts.push(t).drop_last() =~= ts);
            }
        }
    }
}

proof fn lemma_shift_struct_def(d: Seq<Felt>)
    ensures
        read_struct_def(d, false).1 == read_struct_def(d, true).1,
        read_struct_def(d, false).0 == match read_struct_def(d, true).0 {
            Ok(t) => Ok(shift_struct_def(t)),
            Err(e) => Err(e),
        },
    decreases d.len(), 1nat,
{
    if let (Ok(_name), d1) = read_short_string(d) {
        if d.len() > 0 {
            if let (Ok(_attributes), d2) = read_attributes(d1) {
                let d2 = no_longer(d2, d.drop_first());
                if d2.len() > 0 && d2[0]@ <= u32::MAX {
                    lemma_shift_member_defs(d2.drop_first(), d2[0]@);
                }
            }
        }
    }
}

proof fn lemma_shift_member_defs(d: Seq<Felt>, n: nat)
    ensures
        read_member_defs(d, n, false).1 == read_member_defs(d, n, true).1,
        read_member_defs(d, n, false).0 == match read_member_defs(d, n, true).0 {
            Ok(t) => Ok(shift_member_defs(t)),
            Err(e) => Err(e),
        },
    decreases d.len(), n + 3,
{
    if n > 0 {
        lemma_shift_member_defs(d, (n - 1) as nat);
        if let (Ok(ms), d1) = read_member_defs(d, (n - 1) as nat, true) {
            lemma_shift_member_def(no_longer(d1, d));
            if let (Ok(m), r) = read_member_def(no_longer(d1, d), true) {
                assert(ms.push(m).drop_last() =~= ms);
            }
        }
    }
}

proof fn lemma_shift_member_def(d: Seq<Felt>)
    ensures
        read_member_def(d, false).1 == read_member_def(d, true).1,
        read_member_def(d, false).0 == match read_member_def(d, true).0 {
            Ok(t) => Ok(shift_member_def(t)),
            Err(e) => Err(e),
        },
    decreases d.len(), 1nat,
{
    if let (Ok(_name), d1) = read_short_string(d) {
        if d.len() > 0 {
            if let (Ok(_attributes), d2) = read_attributes(d1) {
                lemma_shift_type_def(no_longer(d2, d.drop_first()));
            }
        }
    }
}

proof fn lemma_shift_enum_def(d: Seq<Felt>)
    ensures
        read_enum_def(d, false).1 == read_enum_def(d, true).1,
        read_enum_def(d, false).0 == match read_enum_def(d, true).0 {
            Ok(t) => Ok(shift_enum_def(t)),
            Err(e) => Err(e),
        },
    decreases d.len(), 1nat,
{
    if let (Ok(_name), d1) = read_short_string(d) {
        if d.len() > 0 {
            if let (Ok(_attributes), d2) = read_attributes(d1) {
                let d2 = no_longer(d2, d.drop_first());
                if d2.len() > 0 && d2[0]@ <= u32::MAX {
                    lemma_shift_variant_defs(d2.drop_first(), d2[0]@);
                }
            }
        }
    }
}

proof fn lemma_shift_variant_defs(d: Seq<Felt>, n: nat)
    ensures
        read_variant_defs(d, n, false).1 == read_variant_defs(d, n, true).1,
        read_variant_defs(d, n, false).0 == match read_variant_defs(d, n, true).0 {
            Ok(t) => Ok(shift_variant_defs(t)),
            Err(e) => Err(e),
        },
    decreases d.len(), n + 3,
{
    if n > 0 {
        lemma_shift_variant_defs(d, (n - 1) as nat);
        if let (Ok(vs), d1) = read_variant_defs(d, (n - 1) as nat, true) {
            lemma_shift_variant_def(no_longer(d1, d));
            if let (Ok(v), r) = read_variant_def(no_longer(d1, d), true) {
                let w = vs.push((variant_selector((n - 1) as nat, true), v));
                assert(w.drop_last() =~= vs);
            }
        }
    }
}

proof fn lemma_shift_variant_def(d: Seq<Felt>)
    ensures
        read_variant_def(d, false).1 == read_variant_def(d, true).1,
        read_variant_def(d, false).0 == match read_variant_def(d, true).0 {
            Ok(t) => Ok(shift_variant_def(t)),
            Err(e) => Err(e),
        },
    decreases d.len(), 1nat,
{
    if d.len() > 0 {
        lemma_shift_type_def(d.drop_first());
    }
}

/// A type definition read outside the legacy layout is the one read in the
/// legacy layout with every enum variant, nested ones included, keyed one
/// higher; both reads fail alike and stop at the same felt.
pub proof fn law_type_def_layouts_differ_by_shift(d: Seq<Felt>)
    ensures
        read_type_def(d, false).1 == read_type_def(d, true).1,
        read_type_def(d, false).0 == match read_type_def(d, true).0 {
            Ok(t) => Ok(shift_type_def(t)),
            Err(e) => Err(e),
        },
{
    lemma_shift_type_def(d);
}

/// An enum definition read outside the legacy layout has the name,
/// attributes and variants of the legacy read, each variant keyed one higher
/// (its type shifted alike); both reads fail alike and stop at the same felt.
pub proof fn law_enum_def_layouts_agree(d: Seq<Felt>)
    ensures
        read_enum_def(d, false).1 == read_enum_def(d, true).1,
        read_enum_def(d, false).0 == match read_enum_def(d, true).0 {
            Ok(e) => Ok(shift_enum_def(e)),
            Err(e) => Err(e),
        },
{
    lemma_shift_enum_def(d);
}

proof fn lemma_kind_bool(kind: Felt)
    ensures
        short_string_chars(kind) == Some("bool"@) ==> kind@ == 0x626f6f6c,
{
    if short_string_chars(kind) == Some("bool"@) {
        lemma_short_string_value(kind, "bool"@);
        reveal_strlit("bool");
        assert(char_bytes("bool"@) =~= seq![98u8, 111u8, 111u8, 108u8]);
        assert(be_value(Seq::<u8>::empty()) == 0);
        assert(be_value(seq![98u8]) == 0x62) by {
            assert(seq![98u8].drop_last() =~= seq![]);
        }
        assert(be_value(seq![98u8, 111u8]) == 0x626f) by {
            assert(seq![98u8, 111u8].drop_last() =~= seq![98u8]);
        }
        assert(be_value(seq![98u8, 111u8, 111u8]) == 0x626f6f) by {
            assert(seq![98u8, 111u8, 111u8].drop_last() =~= seq![98u8, 111u8]);
        }
        assert(be_value(seq![98u8, 111u8, 111u8, 108u8]) == 0x626f6f6c) by {
            assert(seq![98u8, 111u8, 111u8, 108u8].drop_last() =~= seq![98u8, 111u8, 111u8]);
        }
    }
}

proof fn lemma_kind_u8(kind: Felt)
    ensures
        short_string_chars(kind) == Some("u8"@) ==> kind@ == 0x7538,
{
    if short_string_chars(kind) == Some("u8"@) {
        lemma_short_string_value(kind, "u8"@);
        reveal_strlit("u8");
        assert(char_bytes("u8"@) =~= seq![117u8, 56u8]);
        assert(be_value(Seq::<u8>::empty()) == 0);
        assert(be_value(seq![117u8]) == 0x75) by {
            assert(seq![117u8].drop_last() =~= seq![]);
        }
        assert(be_value(seq![117u8, 56u8]) == 0x7538) by {
            assert(seq![117u8, 56u8].drop_last() =~= seq![117u8]);
        }
    }
}

proof fn lemma_kind_u16(kind: Felt)
    ensures
        short_string_chars(kind) == Some("u16"@) ==> kind@ == 0x753136,
{
    if short_string_chars(kind) == Some("u16"@) {
        lemma_short_string_value(kind, "u16"@);
        reveal_strlit("u16");
        assert(char_bytes("u16"@) =~= seq![117u8, 49u8, 54u8]);
        assert(be_value(Seq::<u8>::empty()) == 0);
        assert(be_value(seq![117u8]) == 0x75) by {
            assert(seq![117u8].drop_last() =~= seq![]);
        }
        assert(be_value(seq![117u8, 49u8]) == 0x7531) by {
            assert(seq![117u8, 49u8].drop_last() =~= seq![117u8]);
        }
        assert(be_value(seq![117u8, 49u8, 54u8]) == 0x753136) by {
            assert(seq![117u8, 49u8, 54u8].drop_last() =~= seq![117u8, 49u8]);
        }
    }
}

proof fn lemma_kind_u32(kind: Felt)
    ensures
        short_string_chars(kind) == Some("u32"@) ==> kind@ == 0x753332,
{
    if short_string_chars(kind) == Some("u32"@) {
        lemma_short_string_value(kind, "u32"@);
        reveal_strlit("u32");
        assert(char_bytes("u32"@) =~= seq![117u8, 51u8, 50u8]);
        assert(be_value(Seq::<u8>::empty()) == 0);
        assert(be_value(seq![117u8]) == 0x75) by {
            assert(seq![117u8].drop_last() =~= seq![]);
        }
        assert(be_value(seq![117u8, 51u8]) == 0x7533) by {
            assert(seq![117u8, 51u8].drop_last() =~= seq![117u8]);
        }
        assert(be_value(seq![117u8, 51u8, 50u8]) == 0x753332) by {
            assert(seq![117u8, 51u8, 50u8].drop_last() =~= seq![117u8, 51u8]);
        }
    }
}

proof fn lemma_kind_u64(kind: Felt)
    ensures
        short_string_chars(kind) == Some("u64"@) ==> kind@ == 0x753634,
{
    if short_string_chars(kind) == Some("u64"@) {
        lemma_short_string_value(kind, "u64"@);
        reveal_strlit("u64");
        assert(char_bytes("u64"@) =~= seq![117u8, 54u8, 52u8]);
        assert(be_value(Seq::<u8>::empty()) == 0);
        assert(be_value(seq![117u8]) == 0x75) by {
            assert(seq![117u8].drop_last() =~= seq![]);
        }
        assert(be_value(seq![117u8, 54u8]) == 0x7536) by {
            assert(seq![117u8, 54u8].drop_last() =~= seq![117u8]);
        }
        assert(be_value(seq![117u8, 54u8, 52u8]) == 0x753634) by {
            assert(seq![117u8, 54u8, 52u8].drop_last() =~= seq![117u8, 54u8]);
        }
    }
}

proof fn lemma_kind_u128(kind: Felt)
    ensures
        short_string_chars(kind) == Some("u128"@) ==> kind@ == 0x75313238,
{
    if short_string_chars(kind) == Some("u128"@) {
        lemma_short_string_value(kind, "u128"@);
        reveal_strlit("u128");
        assert(char_bytes("u128"@) =~= seq![117u8, 49u8, 50u8, 56u8]);
        assert(be_value(Seq::<u8>::empty()) == 0);
        assert(be_value(seq![117u8]) == 0x75) by {
            assert(seq![117u8].drop_last() =~= seq![]);
        }
        assert(be_value(seq![117u8, 49u8]) == 0x7531) by {
            assert(seq![117u8, 49u8].drop_last() =~= seq![117u8]);
        }
        assert(be_value(seq![117u8, 49u8, 50u8]) == 0x753132) by {
            assert(seq![117u8, 49u8, 50u8].drop_last() =~= seq![117u8, 49u8]);
        }
        assert(be_value(seq![117u8, 49u8, 50u8, 56u8]) == 0x75313238) by {
            assert(seq![117u8, 49u8, 50u8, 56u8].drop_last() =~= seq![117u8, 49u8, 50u8]);
        }
    }
}

proof fn lemma_kind_u256(kind: Felt)
    ensures
        short_string_chars(kind) == Some("u256"@) ==> kind@ == 0x75323536,
{
    if short_string_chars(kind) == Some("u256"@) {
        lemma_short_string_value(kind, "u256"@);
        reveal_strlit("u256");
        assert(char_bytes("u256"@) =~= seq![117u8, 50u8, 53u8, 54u8]);
        assert(be_value(Seq::<u8>::empty()) == 0);
        assert(be_value(seq![117u8]) == 0x75) by {
            assert(seq![117u8].drop_last() =~= seq![]);
        }
        assert(be_value(seq![117u8, 50u8]) == 0x7532) by {
            assert(seq![117u8, 50u8].drop_last() =~= seq![117u8]);
        }
        assert(be_value(seq![117u8, 50u8, 53u8]) == 0x753235) by {
            assert(seq![117u8, 50u8, 53u8].drop_last() =~= seq![117u8, 50u8]);
        }
        assert(be_value(seq![117u8, 50u8, 53u8, 54u8]) == 0x75323536) by {
            assert(seq![117u8, 50u8, 53u8, 54u8].drop_last() =~= seq![117u8, 50u8, 53u8]);
        }
    }
}

proof fn lemma_kind_i8(kind: Felt)
    ensures
        short_string_chars(kind) == Some("i8"@) ==> kind@ == 0x6938,
{
    if short_string_chars(kind) == Some("i8"@) {
        lemma_short_string_value(kind, "i8"@);
        reveal_strlit("i8");
        assert(char_bytes("i8"@) =~= seq![105u8, 56u8]);
        assert(be_value(Seq::<u8>::empty()) == 0);
        assert(be_value(seq![105u8]) == 0x69) by {
            assert(seq![105u8].drop_last() =~= seq![]);
        }
        assert(be_value(seq![105u8, 56u8]) == 0x6938) by {
            assert(seq![105u8, 56u8].drop_last() =~= seq![105u8]);
        }
    }
}

proof fn lemma_kind_i16(kind: Felt)
    ensures
        short_string_chars(kind) == Some("i16"@) ==> kind@ == 0x693136,
{
    if short_string_chars(kind) == Some("i16"@) {
        lemma_short_string_value(kind, "i16"@);
        reveal_strlit("i16");
        assert(char_bytes("i16"@) =~= seq![105u8, 49u8, 54u8]);
        assert(be_value(Seq::<u8>::empty()) == 0);
        assert(be_value(seq![105u8]) == 0x69) by {
            assert(seq![105u8].drop_last() =~= seq![]);
        }
        assert(be_value(seq![105u8, 49u8]) == 0x6931) by {
            assert(seq![105u8, 49u8].drop_last() =~= seq![105u8]);
        }
        assert(be_value(seq![105u8, 49u8, 54u8]) == 0x693136) by {
            assert(seq![105u8, 49u8, 54u8].drop_last() =~= seq![105u8, 49u8]);
        }
    }
}

proof fn lemma_kind_i32(kind: Felt)
    ensures
        short_string_chars(kind) == Some("i32"@) ==> kind@ == 0x693332,
{
    if short_string_chars(kind) == Some("i32"@) {
        lemma_short_string_value(kind, "i32"@);
        reveal_strlit("i32");
        assert(char_bytes("i32"@) =~= seq![105u8, 51u8, 50u8]);
        assert(be_value(Seq::<u8>::empty()) == 0);
        assert(be_value(seq![105u8]) == 0x69) by {
            assert(seq![105u8].drop_last() =~= seq![]);
        }
        assert(be_value(seq![105u8, 51u8]) == 0x6933) by {
            assert(seq![105u8, 51u8].drop_last() =~= seq![105u8]);
        }
        assert(be_value(seq![105u8, 51u8, 50u8]) == 0x693332) by {
            assert(seq![105u8, 51u8, 50u8].drop_last() =~= seq![105u8, 51u8]);
        }
    }
}

proof fn lemma_kind_i64(kind: Felt)
    ensures
        short_string_chars(kind) == Some("i64"@) ==> kind@ == 0x693634,
{
    if short_string_chars(kind) == Some("i64"@) {
        lemma_short_string_value(kind, "i64"@);
        reveal_strlit("i64");
        assert(char_bytes("i64"@) =~= seq![105u8, 54u8, 52u8]);
        assert(be_value(Seq::<u8>::empty()) == 0);
        assert(be_value(seq![105u8]) == 0x69) by {
            assert(seq![105u8].drop_last() =~= seq![]);
        }
        assert(be_value(seq![105u8, 54u8]) == 0x6936) by {
            assert(seq![105u8, 54u8].drop_last() =~= seq![105u8]);
        }
        assert(be_value(seq![105u8, 54u8, 52u8]) == 0x693634) by {
            assert(seq![105u8, 54u8, 52u8].drop_last() =~= seq![105u8, 54u8]);
        }
    }
}

proof fn lemma_kind_i128(kind: Felt)
    ensures
        short_string_chars(kind) == Some("i128"@) ==> kind@ == 0x69313238,
{
    if short_string_chars(kind) == Some("i128"@) {
        lemma_short_string_value(kind, "i128"@);
        reveal_strlit("i128");
        assert(char_bytes("i128"@) =~= seq![105u8, 49u8, 50u8, 56u8]);
        assert(be_value(Seq::<u8>::empty()) == 0);
        assert(be_value(seq![105u8]) == 0x69) by {
            assert(seq![105u8].drop_last() =~= seq![]);
        }
        assert(be_value(seq![105u8, 49u8]) == 0x6931) by {
            assert(seq![105u8, 49u8].drop_last() =~= seq![105u8]);
        }
        assert(be_value(seq![105u8, 49u8, 50u8]) == 0x693132) by {
            assert(seq![105u8, 49u8, 50u8].drop_last() =~= seq![105u8, 49u8]);
        }
        assert(be_value(seq![105u8, 49u8, 50u8, 56u8]) == 0x69313238) by {
            assert(seq![105u8, 49u8, 50u8, 56u8].drop_last() =~= seq![105u8, 49u8, 50u8]);
        }
    }
}

proof fn lemma_kind_felt252(kind: Felt)
    ensures
        short_string_chars(kind) == Some("felt252"@) ==> kind@ == 0x66656c74323532,
{
    if short_string_chars(kind) == Some("felt252"@) {
        lemma_short_string_value(kind, "felt252"@);
        reveal_strlit("felt252");
        assert(char_bytes("felt252"@) =~= seq![102u8, 101u8, 108u8, 116u8, 50u8, 53u8, 50u8]);
        assert(be_value(Seq::<u8>::empty()) == 0);
        assert(be_value(seq![102u8]) == 0x66) by {
            assert(seq![102u8].drop_last() =~= seq![]);
        }
        assert(be_value(seq![102u8, 101u8]) == 0x6665) by {
            assert(seq![102u8, 101u8].drop_last() =~= seq![102u8]);
        }
        assert(be_value(seq![102u8, 101u8, 108u8]) == 0x66656c) by {
            assert(seq![102u8, 101u8, 108u8].drop_last() =~= seq![102u8, 101u8]);
        }
        assert(be_value(seq![102u8, 101u8, 108u8, 116u8]) == 0x66656c74) by {
            assert(seq![102u8, 101u8, 108u8, 116u8].drop_last() =~= seq![102u8, 101u8, 108u8]);
        }
        assert(be_value(seq![102u8, 101u8, 108u8, 116u8, 50u8]) == 0x66656c7432) by {
            assert(seq![102u8, 101u8, 108u8, 116u8, 50u8].drop_last() =~= seq![102u8, 101u8, 108u8, 116u8]);
        }
        assert(be_value(seq![102u8, 101u8, 108u8, 116u8, 50u8, 53u8]) == 0x66656c743235) by {
            assert(seq![102u8, 101u8, 108u8, 116u8, 50u8, 53u8].drop_last() =~= seq![102u8, 101u8, 108u8, 116u8, 50u8]);
        }
        assert(be_value(seq![102u8, 101u8, 108u8, 116u8, 50u8, 53u8, 50u8]) == 0x66656c74323532) by {
            assert(seq![102u8, 101u8, 108u8, 116u8, 50u8, 53u8, 50u8].drop_last() =~= seq![102u8, 101u8, 108u8, 116u8, 50u8, 53u8]);
        }
    }
}

proof fn lemma_kind_classhash(kind: Felt)
    ensures
        short_string_chars(kind) == Some("ClassHash"@) ==> kind@ == 0x436c61737348617368,
{
    if short_string_chars(kind) == Some("ClassHash"@) {
        lemma_short_string_value(kind, "ClassHash"@);
        reveal_strlit("ClassHash");
        assert(char_bytes("ClassHash"@) =~= seq![67u8, 108u8, 97u8, 115u8, 115u8, 72u8, 97u8, 115u8, 104u8]);
        assert(be_value(Seq::<u8>::empty()) == 0);
        assert(be_value(seq![67u8]) == 0x43) by {
            assert(seq![67u8].drop_last() =~= seq![]);
        }
        assert(be_value(seq![67u8, 108u8]) == 0x436c) by {
            assert(seq![67u8, 108u8].drop_last() =~= seq![67u8]);
        }
        assert(be_value(seq![67u8, 108u8, 97u8]) == 0x436c61) by {
            assert(seq![67u8, 108u8, 97u8].drop_last() =~= seq![67u8, 108u8]);
        }
        assert(be_value(seq![67u8, 108u8, 97u8, 115u8]) == 0x436c6173) by {
            assert(seq![67u8, 108u8, 97u8, 115u8].drop_last() =~= seq![67u8, 108u8, 97u8]);
        }
        assert(be_value(seq![67u8, 108u8, 97u8, 115u8, 115u8]) == 0x436c617373) by {
            assert(seq![67u8, 108u8, 97u8, 115u8, 115u8].drop_last() =~= seq![67u8, 108u8, 97u8, 115u8]);
        }
        assert(be_value(seq![67u8, 108u8, 97u8, 115u8, 115u8, 72u8]) == 0x436c61737348) by {
            assert(seq![67u8, 108u8, 97u8, 115u8, 115u8, 72u8].drop_last() =~= seq![67u8, 108u8, 97u8, 115u8, 115u8]);
        }
        assert(be_value(seq![67u8, 108u8, 97u8, 115u8, 115u8, 72u8, 97u8]) == 0x436c6173734861) by {
            assert(seq![67u8, 108u8, 97u8, 115u8, 115u8, 72u8, 97u8].drop_last() =~= seq![67u8, 108u8, 97u8, 115u8, 115u8, 72u8]);
        }
        assert(be_value(seq![67u8, 108u8, 97u8, 115u8, 115u8, 72u8, 97u8, 115u8]) == 0x436c617373486173) by {
            assert(seq![67u8, 108u8, 97u8, 115u8, 115u8, 72u8, 97u8, 115u8].drop_last() =~= seq![67u8, 108u8, 97u8, 115u8, 115u8, 72u8, 97u8]);
        }
        assert(be_value(seq![67u8, 108u8, 97u8, 115u8, 115u8, 72u8, 97u8, 115u8, 104u8]) == 0x436c61737348617368) by {
            assert(seq![67u8, 108u8, 97u8, 115u8, 115u8, 72u8, 97u8, 115u8, 104u8].drop_last() =~= seq![67u8, 108u8, 97u8, 115u8, 115u8, 72u8, 97u8, 115u8]);
        }
    }
}

proof fn lemma_kind_starknet_classhash(kind: Felt)
    ensures
        short_string_chars(kind) == Some("starknet::ClassHash"@) ==> kind@ == 0x737461726b6e65743a3a436c61737348617368,
{
    if short_string_chars(kind) == Some("starknet::ClassHash"@) {
        lemma_short_string_value(kind, "starknet::ClassHash"@);
        reveal_strlit("starknet::ClassHash");
        assert(char_bytes("starknet::ClassHash"@) =~= seq![115u8, 116u8, 97u8, 114u8, 107u8, 110u8, 101u8, 116u8, 58u8, 58u8, 67u8, 108u8, 97u8, 115u8, 115u8, 72u8, 97u8, 115u8, 104u8]);
        assert(be_value(Seq::<u8>::empty()) == 0);
        assert(be_value(seq![115u8]) == 0x73) by {
            assert(seq![115u8].drop_last() =~= seq![]);
        }
        assert(be_value(seq![115u8, 116u8]) == 0x7374) by {
            assert(seq![115u8, 116u8].drop_last() =~= seq![115u8]);
        }
        assert(be_value(seq![115u8, 116u8, 97u8]) == 0x737461) by {
            assert(seq![115u8, 116u8, 97u8].drop_last() =~= seq![115u8, 116u8]);
        }
        assert(be_value(seq![115u8, 116u8, 97u8, 114u8]) == 0x73746172) by {
            assert(seq![115u8, 116u8, 97u8, 114u8].drop_last() =~= seq![115u8, 116u8, 97u8]);
        }
        assert(be_value(seq![115u8, 116u8, 97u8, 114u8, 107u8]) == 0x737461726b) by {
            assert(seq![115u8, 116u8, 97u8, 114u8, 107u8].drop_last() =~= seq![115u8, 116u8, 97u8, 114u8]);
        }
        assert(be_value(seq![115u8, 116u8, 97u8, 114u8, 107u8, 110u8]) == 0x737461726b6e) by {
            assert(seq![115u8, 116u8, 97u8, 114u8, 107u8, 110u8].drop_last() =~= seq![115u8, 116u8, 97u8, 114u8, 107u8]);
        }
        assert(be_value(seq![115u8, 116u8, 97u8, 114u8, 107u8, 110u8, 101u8]) == 0x737461726b6e65) by {
            assert(seq![115u8, 116u8, 97u8, 114u8, 107u8, 110u8, 101u8].drop_last() =~= seq![115u8, 116u8, 97u8, 114u8, 107u8, 110u8]);
        }
        assert(be_value(seq![115u8, 116u8, 97u8, 114u8, 107u8, 110u8, 101u8, 116u8]) == 0x737461726b6e6574) by {
            assert(seq![115u8, 116u8, 97u8, 114u8, 107u8, 110u8, 101u8, 116u8].drop_last() =~= seq![115u8, 116u8, 97u8, 114u8, 107u8, 110u8, 101u8]);
        }
        assert(be_value(seq![115u8, 116u8, 97u8, 114u8, 107u8, 110u8, 101u8, 116u8, 58u8]) == 0x737461726b6e65743a) by {
            assert(seq![115u8, 116u8, 97u8, 114u8, 107u8, 110u8, 101u8, 116u8, 58u8].drop_last() =~= seq![115u8, 116u8, 97u8, 114u8, 107u8, 110u8, 101u8, 116u8]);
        }
        assert(be_value(seq![115u8, 116u8, 97u8, 114u8, 107u8, 110u8, 101u8, 116u8, 58u8, 58u8]) == 0x737461726b6e65743a3a) by {
            assert(seq![115u8, 116u8, 97u8, 114u8, 107u8, 110u8, 101u8, 116u8, 58u8, 58u8].drop_last() =~= seq![115u8, 116u8, 97u8, 114u8, 107u8, 110u8, 101u8, 116u8, 58u8]);
        }
        assert(be_value(seq![115u8, 116u8, 97u8, 114u8, 107u8, 110u8, 101u8, 116u8, 58u8, 58u8, 67u8]) == 0x737461726b6e65743a3a43) by {
            assert(seq![115u8, 116u8, 97u8, 114u8, 107u8, 110u8, 101u8, 116u8, 58u8, 58u8, 67u8].drop_last() =~= seq![115u8, 116u8, 97u8, 114u8, 107u8, 110u8, 101u8, 116u8, 58u8, 58u8]);
        }
        assert(be_value(seq![115u8, 116u8, 97u8, 114u8, 107u8, 110u8, 101u8, 116u8, 58u8, 58u8, 67u8, 108u8]) == 0x737461726b6e65743a3a436c) by {
            assert(seq![115u8, 116u8, 97u8, 114u8, 107u8, 110u8, 101u8, 116u8, 58u8, 58u8, 67u8, 108u8].drop_last() =~= seq![115u8, 116u8, 97u8, 114u8, 107u8, 110u8, 101u8, 116u8, 58u8, 58u8, 67u8]);
        }
        assert(be_value(seq![115u8, 116u8, 97u8, 114u8, 107u8, 110u8, 101u8, 116u8, 58u8, 58u8, 67u8, 108u8, 97u8]) == 0x737461726b6e65743a3a436c61) by {
            assert(seq![115u8, 116u8, 97u8, 114u8, 107u8, 110u8, 101u8, 116u8, 58u8, 58u8, 67u8, 108u8, 97u8].drop_last() =~= seq![115u8, 116u8, 97u8, 114u8, 107u8, 110u8, 101u8, 116u8, 58u8, 58u8, 67u8, 108u8]);
        }
        assert(be_value(seq![115u8, 116u8, 97u8, 114u8, 107u8, 110u8, 101u8, 116u8, 58u8, 58u8, 67u8, 108u8, 97u8, 115u8]) == 0x737461726b6e65743a3a436c6173) by {
            assert(seq![115u8, 116u8, 97u8, 114u8, 107u8, 110u8, 101u8, 116u8, 58u8, 58u8, 67u8, 108u8, 97u8, 115u8].drop_last() =~= seq![115u8, 116u8, 97u8, 114u8, 107u8, 110u8, 101u8, 116u8, 58u8, 58u8, 67u8, 108u8, 97u8]);
        }
        assert(be_value(seq![115u8, 116u8, 97u8, 114u8, 107u8, 110u8, 101u8, 116u8, 58u8, 58u8, 67u8, 108u8, 97u8, 115u8, 115u8]) == 0x737461726b6e65743a3a436c617373) by {
            assert(seq![115u8, 116u8, 97u8, 114u8, 107u8, 110u8, 101u8, 116u8, 58u8, 58u8, 67u8, 108u8, 97u8, 115u8, 115u8].drop_last() =~= seq![115u8, 116u8, 97u8, 114u8, 107u8, 110u8, 101u8, 116u8, 58u8, 58u8, 67u8, 108u8, 97u8, 115u8]);
        }
        assert(be_value(seq![115u8, 116u8, 97u8, 114u8, 107u8, 110u8, 101u8, 116u8, 58u8, 58u8, 67u8, 108u8, 97u8, 115u8, 115u8, 72u8]) == 0x737461726b6e65743a3a436c61737348) by {
            assert(seq![115u8, 116u8, 97u8, 114u8, 107u8, 110u8, 101u8, 116u8, 58u8, 58u8, 67u8, 108u8, 97u8, 115u8, 115u8, 72u8].drop_last() =~= seq![115u8, 116u8, 97u8, 114u8, 107u8, 110u8, 101u8, 116u8, 58u8, 58u8, 67u8, 108u8, 97u8, 115u8, 115u8]);
        }
        assert(be_value(seq![115u8, 116u8, 97u8, 114u8, 107u8, 110u8, 101u8, 116u8, 58u8, 58u8, 67u8, 108u8, 97u8, 115u8, 115u8, 72u8, 97u8]) == 0x737461726b6e65743a3a436c6173734861) by {
            assert(seq![115u8, 116u8, 97u8, 114u8, 107u8, 110u8, 101u8, 116u8, 58u8, 58u8, 67u8, 108u8, 97u8, 115u8, 115u8, 72u8, 97u8].drop_last() =~= seq![115u8, 116u8, 97u8, 114u8, 107u8, 110u8, 101u8, 116u8, 58u8, 58u8, 67u8, 108u8, 97u8, 115u8, 115u8, 72u8]);
        }
        assert(be_value(seq![115u8, 116u8, 97u8, 114u8, 107u8, 110u8, 101u8, 116u8, 58u8, 58u8, 67u8, 108u8, 97u8, 115u8, 115u8, 72u8, 97u8, 115u8]) == 0x737461726b6e65743a3a436c617373486173) by {
            assert(seq![115u8, 116u8, 97u8, 114u8, 107u8, 110u8, 101u8, 116u8, 58u8, 58u8, 67u8, 108u8, 97u8, 115u8, 115u8, 72u8, 97u8, 115u8].drop_last() =~= seq![115u8, 116u8, 97u8, 114u8, 107u8, 110u8, 101u8, 116u8, 58u8, 58u8, 67u8, 108u8, 97u8, 115u8, 115u8, 72u8, 97u8]);
        }
        assert(be_value(seq![115u8, 116u8, 97u8, 114u8, 107u8, 110u8, 101u8, 116u8, 58u8, 58u8, 67u8, 108u8, 97u8, 115u8, 115u8, 72u8, 97u8, 115u8, 104u8]) == 0x737461726b6e65743a3a436c61737348617368) by {
            assert(seq![115u8, 116u8, 97u8, 114u8, 107u8, 110u8, 101u8, 116u8, 58u8, 58u8, 67u8, 108u8, 97u8, 115u8, 115u8, 72u8, 97u8, 115u8, 104u8].drop_last() =~= seq![115u8, 116u8, 97u8, 114u8, 107u8, 110u8, 101u8, 116u8, 58u8, 58u8, 67u8, 108u8, 97u8, 115u8, 115u8, 72u8, 97u8, 115u8]);
        }
    }
}

proof fn lemma_kind_contractaddress(kind: Felt)
    ensures
        short_string_chars(kind) == Some("ContractAddress"@) ==> kind@ == 0x436f6e747261637441646472657373,
{
    if short_string_chars(kind) == Some("ContractAddress"@) {
        lemma_short_string_value(kind, "ContractAddress"@);
        reveal_strlit("ContractAddress");
        assert(char_bytes("ContractAddress"@) =~= seq![67u8, 111u8, 110u8, 116u8, 114u8, 97u8, 99u8, 116u8, 65u8, 100u8, 100u8, 114u8, 101u8, 115u8, 115u8]);
        assert(be_value(Seq::<u8>::empty()) == 0);
        assert(be_value(seq![67u8]) == 0x43) by {
            assert(seq![67u8].drop_last() =~= seq![]);
        }
        assert(be_value(seq![67u8, 111u8]) == 0x436f) by {
            assert(seq![67u8, 111u8].drop_last() =~= seq![67u8]);
        }
        assert(be_value(seq![67u8, 111u8, 110u8]) == 0x436f6e) by {
            assert(seq![67u8, 111u8, 110u8].drop_last() =~= seq![67u8, 111u8]);
        }
        assert(be_value(seq![67u8, 111u8, 110u8, 116u8]) == 0x436f6e74) by {
            assert(seq![67u8, 111u8, 110u8, 116u8].drop_last() =~= seq![67u8, 111u8, 110u8]);
        }
        assert(be_value(seq![67u8, 111u8, 110u8, 116u8, 114u8]) == 0x436f6e7472) by {
            assert(seq![67u8, 111u8, 110u8, 116u8, 114u8].drop_last() =~= seq![67u8, 111u8, 110u8, 116u8]);
        }
        assert(be_value(seq![67u8, 111u8, 110u8, 116u8, 114u8, 97u8]) == 0x436f6e747261) by {
            assert(seq![67u8, 111u8, 110u8, 116u8, 114u8, 97u8].drop_last() =~= seq![67u8, 111u8, 110u8, 116u8, 114u8]);
        }
        assert(be_value(seq![67u8, 111u8, 110u8, 116u8, 114u8, 97u8, 99u8]) == 0x436f6e74726163) by {
            assert(seq![67u8, 111u8, 110u8, 116u8, 114u8, 97u8, 99u8].drop_last() =~= seq![67u8, 111u8, 110u8, 116u8, 114u8, 97u8]);
        }
        assert(be_value(seq![67u8, 111u8, 110u8, 116u8, 114u8, 97u8, 99u8, 116u8]) == 0x436f6e7472616374) by {
            assert(seq![67u8, 111u8, 110u8, 116u8, 114u8, 97u8, 99u8, 116u8].drop_last() =~= seq![67u8, 111u8, 110u8, 116u8, 114u8, 97u8, 99u8]);
        }
        assert(be_value(seq![67u8, 111u8, 110u8, 116u8, 114u8, 97u8, 99u8, 116u8, 65u8]) == 0x436f6e747261637441) by {
            assert(seq![67u8, 111u8, 110u8, 116u8, 114u8, 97u8, 99u8, 116u8, 65u8].drop_last() =~= seq![67u8, 111u8, 110u8, 116u8, 114u8, 97u8, 99u8, 116u8]);
        }
        assert(be_value(seq![67u8, 111u8, 110u8, 116u8, 114u8, 97u8, 99u8, 116u8, 65u8, 100u8]) == 0x436f6e74726163744164) by {
            assert(seq![67u8, 111u8, 110u8, 116u8, 114u8, 97u8, 99u8, 116u8, 65u8, 100u8].drop_last() =~= seq![67u8, 111u8, 110u8, 116u8, 114u8, 97u8, 99u8, 116u8, 65u8]);
        }
        assert(be_value(seq![67u8, 111u8, 110u8, 116u8, 114u8, 97u8, 99u8, 116u8, 65u8, 100u8, 100u8]) == 0x436f6e7472616374416464) by {
            assert(seq![67u8, 111u8, 110u8, 116u8, 114u8, 97u8, 99u8, 116u8, 65u8, 100u8, 100u8].drop_last() =~= seq![67u8, 111u8, 110u8, 116u8, 114u8, 97u8, 99u8, 116u8, 65u8, 100u8]);
        }
        assert(be_value(seq![67u8, 111u8, 110u8, 116u8, 114u8, 97u8, 99u8, 116u8, 65u8, 100u8, 100u8, 114u8]) == 0x436f6e747261637441646472) by {
            assert(seq![67u8, 111u8, 110u8, 116u8, 114u8, 97u8, 99u8, 116u8, 65u8, 100u8, 100u8, 114u8].drop_last() =~= seq![67u8, 111u8, 110u8, 116u8, 114u8, 97u8, 99u8, 116u8, 65u8, 100u8, 100u8]);
        }
        assert(be_value(seq![67u8, 111u8, 110u8, 116u8, 114u8, 97u8, 99u8, 116u8, 65u8, 100u8, 100u8, 114u8, 101u8]) == 0x436f6e74726163744164647265) by {
            assert(seq![67u8, 111u8, 110u8, 116u8, 114u8, 97u8, 99u8, 116u8, 65u8, 100u8, 100u8, 114u8, 101u8].drop_last() =~= seq![67u8, 111u8, 110u8, 116u8, 114u8, 97u8, 99u8, 116u8, 65u8, 100u8, 100u8, 114u8]);
        }
        assert(be_value(seq![67u8, 111u8, 110u8, 116u8, 114u8, 97u8, 99u8, 116u8, 65u8, 100u8, 100u8, 114u8, 101u8, 115u8]) == 0x436f6e7472616374416464726573) by {
            assert(seq![67u8, 111u8, 110u8, 116u8, 114u8, 97u8, 99u8, 116u8, 65u8, 100u8, 100u8, 114u8, 101u8, 115u8].drop_last() =~= seq![67u8, 111u8, 110u8, 116u8, 114u8, 97u8, 99u8, 116u8, 65u8, 100u8, 100u8, 114u8, 101u8]);
        }
        assert(be_value(seq![67u8, 111u8, 110u8, 116u8, 114u8, 97u8, 99u8, 116u8, 65u8, 100u8, 100u8, 114u8, 101u8, 115u8, 115u8]) == 0x436f6e747261637441646472657373) by {
            assert(seq![67u8, 111u8, 110u8, 116u8, 114u8, 97u8, 99u8, 116u8, 65u8, 100u8, 100u8, 114u8, 101u8, 115u8, 115u8].drop_last() =~= seq![67u8, 111u8, 110u8, 116u8, 114u8, 97u8, 99u8, 116u8, 65u8, 100u8, 100u8, 114u8, 101u8, 115u8]);
        }
    }
}

proof fn lemma_kind_starknet_contractaddress(kind: Felt)
    ensures
        short_string_chars(kind) == Some("starknet::ContractAddress"@) ==> kind@ == 0x737461726b6e65743a3a436f6e747261637441646472657373,
{
    if short_string_chars(kind) == Some("starknet::ContractAddress"@) {
        lemma_short_string_value(kind, "starknet::ContractAddress"@);
        reveal_strlit("starknet::ContractAddress");
        assert(char_bytes("starknet::ContractAddress"@) =~= seq![115u8, 116u8, 97u8, 114u8, 107u8, 110u8, 101u8, 116u8, 58u8, 58u8, 67u8, 111u8, 110u8, 116u8, 114u8, 97u8, 99u8, 116u8, 65u8, 100u8, 100u8, 114u8, 101u8, 115u8, 115u8]);
        assert(be_value(Seq::<u8>::empty()) == 0);
        assert(be_value(seq![115u8]) == 0x73) by {
            assert(seq![115u8].drop_last() =~= seq![]);
        }
        assert(be_value(seq![115u8, 116u8]) == 0x7374) by {
            assert(seq![115u8, 116u8].drop_last() =~= seq![115u8]);
        }
        assert(be_value(seq![115u8, 116u8, 97u8]) == 0x737461) by {
            assert(seq![115u8, 116u8, 97u8].drop_last() =~= seq![115u8, 116u8]);
        }
        assert(be_value(seq![115u8, 116u8, 97u8, 114u8]) == 0x73746172) by {
            assert(seq![115u8, 116u8, 97u8, 114u8].drop_last() =~= seq![115u8, 116u8, 97u8]);
        }
        assert(be_value(seq![115u8, 116u8, 97u8, 114u8, 107u8]) == 0x737461726b) by {
            assert(seq![115u8, 116u8, 97u8, 114u8, 107u8].drop_last() =~= seq![115u8, 116u8, 97u8, 114u8]);
        }
        assert(be_value(seq![115u8, 116u8, 97u8, 114u8, 107u8, 110u8]) == 0x737461726b6e) by {
            assert(seq![115u8, 116u8, 97u8, 114u8, 107u8, 110u8].drop_last() =~= seq![115u8, 116u8, 97u8, 114u8, 107u8]);
        }
        assert(be_value(seq![115u8, 116u8, 97u8, 114u8, 107u8, 110u8, 101u8]) == 0x737461726b6e65) by {
            assert(seq![115u8, 116u8, 97u8, 114u8, 107u8, 110u8, 101u8].drop_last() =~= seq![115u8, 116u8, 97u8, 114u8, 107u8, 110u8]);
        }
        assert(be_value(seq![115u8, 116u8, 97u8, 114u8, 107u8, 110u8, 101u8, 116u8]) == 0x737461726b6e6574) by {
            assert(seq![115u8, 116u8, 97u8, 114u8, 107u8, 110u8, 101u8, 116u8].drop_last() =~= seq![115u8, 116u8, 97u8, 114u8, 107u8, 110u8, 101u8]);
        }
        assert(be_value(seq![115u8, 116u8, 97u8, 114u8, 107u8, 110u8, 101u8, 116u8, 58u8]) == 0x737461726b6e65743a) by {
            assert(seq![115u8, 116u8, 97u8, 114u8, 107u8, 110u8, 101u8, 116u8, 58u8].drop_last() =~= seq![115u8, 116u8, 97u8, 114u8, 107u8, 110u8, 101u8, 116u8]);
        }
        assert(be_value(seq![115u8, 116u8, 97u8, 114u8, 107u8, 110u8, 101u8, 116u8, 58u8, 58u8]) == 0x737461726b6e65743a3a) by {
            assert(seq![115u8, 116u8, 97u8, 114u8, 107u8, 110u8, 101u8, 116u8, 58u8, 58u8].drop_last() =~= seq![115u8, 116u8, 97u8, 114u8, 107u8, 110u8, 101u8, 116u8, 58u8]);
        }
        assert(be_value(seq![115u8, 116u8, 97u8, 114u8, 107u8, 110u8, 101u8, 116u8, 58u8, 58u8, 67u8]) == 0x737461726b6e65743a3a43) by {
            assert(seq![115u8, 116u8, 97u8, 114u8, 107u8, 110u8, 101u8, 116u8, 58u8, 58u8, 67u8].drop_last() =~= seq![115u8, 116u8, 97u8, 114u8, 107u8, 110u8, 101u8, 116u8, 58u8, 58u8]);
        }
        assert(be_value(seq![115u8, 116u8, 97u8, 114u8, 107u8, 110u8, 101u8, 116u8, 58u8, 58u8, 67u8, 111u8]) == 0x737461726b6e65743a3a436f) by {
            assert(seq![115u8, 116u8, 97u8, 114u8, 107u8, 110u8, 101u8, 116u8, 58u8, 58u8, 67u8, 111u8].drop_last() =~= seq![115u8, 116u8, 97u8, 114u8, 107u8, 110u8, 101u8, 116u8, 58u8, 58u8, 67u8]);
        }
        assert(be_value(seq![115u8, 116u8, 97u8, 114u8, 107u8, 110u8, 101u8, 116u8, 58u8, 58u8, 67u8, 111u8, 110u8]) == 0x737461726b6e65743a3a436f6e) by {
            assert(seq![115u8, 116u8, 97u8, 114u8, 107u8, 110u8, 101u8, 116u8, 58u8, 58u8, 67u8, 111u8, 110u8].drop_last() =~= seq![115u8, 116u8, 97u8, 114u8, 107u8, 110u8, 101u8, 116u8, 58u8, 58u8, 67u8, 111u8]);
        }
        assert(be_value(seq![115u8, 116u8, 97u8, 114u8, 107u8, 110u8, 101u8, 116u8, 58u8, 58u8, 67u8, 111u8, 110u8, 116u8]) == 0x737461726b6e65743a3a436f6e74) by {
            assert(seq![115u8, 116u8, 97u8, 114u8, 107u8, 110u8, 101u8, 116u8, 58u8, 58u8, 67u8, 111u8, 110u8, 116u8].drop_last() =~= seq![115u8, 116u8, 97u8, 114u8, 107u8, 110u8, 101u8, 116u8, 58u8, 58u8, 67u8, 111u8, 110u8]);
        }
        assert(be_value(seq![115u8, 116u8, 97u8, 114u8, 107u8, 110u8, 101u8, 116u8, 58u8, 58u8, 67u8, 111u8, 110u8, 116u8, 114u8]) == 0x737461726b6e65743a3a436f6e7472) by {
            assert(seq![115u8, 116u8, 97u8, 114u8, 107u8, 110u8, 101u8, 116u8, 58u8, 58u8, 67u8, 111u8, 110u8, 116u8, 114u8].drop_last() =~= seq![115u8, 116u8, 97u8, 114u8, 107u8, 110u8, 101u8, 116u8, 58u8, 58u8, 67u8, 111u8, 110u8, 116u8]);
        }
        assert(be_value(seq![115u8, 116u8, 97u8, 114u8, 107u8, 110u8, 101u8, 116u8, 58u8, 58u8, 67u8, 111u8, 110u8, 116u8, 114u8, 97u8]) == 0x737461726b6e65743a3a436f6e747261) by {
            assert(seq![115u8, 116u8, 97u8, 114u8, 107u8, 110u8, 101u8, 116u8, 58u8, 58u8, 67u8, 111u8, 110u8, 116u8, 114u8, 97u8].drop_last() =~= seq![115u8, 116u8, 97u8, 114u8, 107u8, 110u8, 101u8, 116u8, 58u8, 58u8, 67u8, 111u8, 110u8, 116u8, 114u8]);
        }
        assert(be_value(seq![115u8, 116u8, 97u8, 114u8, 107u8, 110u8, 101u8, 116u8, 58u8, 58u8, 67u8, 111u8, 110u8, 116u8, 114u8, 97u8, 99u8]) == 0x737461726b6e65743a3a436f6e74726163) by {
            assert(seq![115u8, 116u8, 97u8, 114u8, 107u8, 110u8, 101u8, 116u8, 58u8, 58u8, 67u8, 111u8, 110u8, 116u8, 114u8, 97u8, 99u8].drop_last() =~= seq![115u8, 116u8, 97u8, 114u8, 107u8, 110u8, 101u8, 116u8, 58u8, 58u8, 67u8, 111u8, 110u8, 116u8, 114u8, 97u8]);
        }
        assert(be_value(seq![115u8, 116u8, 97u8, 114u8, 107u8, 110u8, 101u8, 116u8, 58u8, 58u8, 67u8, 111u8, 110u8, 116u8, 114u8, 97u8, 99u8, 116u8]) == 0x737461726b6e65743a3a436f6e7472616374) by {
            assert(seq![115u8, 116u8, 97u8, 114u8, 107u8, 110u8, 101u8, 116u8, 58u8, 58u8, 67u8, 111u8, 110u8, 116u8, 114u8, 97u8, 99u8, 116u8].drop_last() =~= seq![115u8, 116u8, 97u8, 114u8, 107u8, 110u8, 101u8, 116u8, 58u8, 58u8, 67u8, 111u8, 110u8, 116u8, 114u8, 97u8, 99u8]);
        }
        assert(be_value(seq![115u8, 116u8, 97u8, 114u8, 107u8, 110u8, 101u8, 116u8, 58u8, 58u8, 67u8, 111u8, 110u8, 116u8, 114u8, 97u8, 99u8, 116u8, 65u8]) == 0x737461726b6e65743a3a436f6e747261637441) by {
            assert(seq![115u8, 116u8, 97u8, 114u8, 107u8, 110u8, 101u8, 116u8, 58u8, 58u8, 67u8, 111u8, 110u8, 116u8, 114u8, 97u8, 99u8, 116u8, 65u8].drop_last() =~= seq![115u8, 116u8, 97u8, 114u8, 107u8, 110u8, 101u8, 116u8, 58u8, 58u8, 67u8, 111u8, 110u8, 116u8, 114u8, 97u8, 99u8, 116u8]);
        }
        assert(be_value(seq![115u8, 116u8, 97u8, 114u8, 107u8, 110u8, 101u8, 116u8, 58u8, 58u8, 67u8, 111u8, 110u8, 116u8, 114u8, 97u8, 99u8, 116u8, 65u8, 100u8]) == 0x737461726b6e65743a3a436f6e74726163744164) by {
            assert(seq![115u8, 116u8, 97u8, 114u8, 107u8, 110u8, 101u8, 116u8, 58u8, 58u8, 67u8, 111u8, 110u8, 116u8, 114u8, 97u8, 99u8, 116u8, 65u8, 100u8].drop_last() =~= seq![115u8, 116u8, 97u8, 114u8, 107u8, 110u8, 101u8, 116u8, 58u8, 58u8, 67u8, 111u8, 110u8, 116u8, 114u8, 97u8, 99u8, 116u8, 65u8]);
        }
        assert(be_value(seq![115u8, 116u8, 97u8, 114u8, 107u8, 110u8, 101u8, 116u8, 58u8, 58u8, 67u8, 111u8, 110u8, 116u8, 114u8, 97u8, 99u8, 116u8, 65u8, 100u8, 100u8]) == 0x737461726b6e65743a3a436f6e7472616374416464) by {
            assert(seq![115u8, 116u8, 97u8, 114u8, 107u8, 110u8, 101u8, 116u8, 58u8, 58u8, 67u8, 111u8, 110u8, 116u8, 114u8, 97u8, 99u8, 116u8, 65u8, 100u8, 100u8].drop_last() =~= seq![115u8, 116u8, 97u8, 114u8, 107u8, 110u8, 101u8, 116u8, 58u8, 58u8, 67u8, 111u8, 110u8, 116u8, 114u8, 97u8, 99u8, 116u8, 65u8, 100u8]);
        }
        assert(be_value(seq![115u8, 116u8, 97u8, 114u8, 107u8, 110u8, 101u8, 116u8, 58u8, 58u8, 67u8, 111u8, 110u8, 116u8, 114u8, 97u8, 99u8, 116u8, 65u8, 100u8, 100u8, 114u8]) == 0x737461726b6e65743a3a436f6e747261637441646472) by {
            assert(seq![115u8, 116u8, 97u8, 114u8, 107u8, 110u8, 101u8, 116u8, 58u8, 58u8, 67u8, 111u8, 110u8, 116u8, 114u8, 97u8, 99u8, 116u8, 65u8, 100u8, 100u8, 114u8].drop_last() =~= seq![115u8, 116u8, 97u8, 114u8, 107u8, 110u8, 101u8, 116u8, 58u8, 58u8, 67u8, 111u8, 110u8, 116u8, 114u8, 97u8, 99u8, 116u8, 65u8, 100u8, 100u8]);
        }
        assert(be_value(seq![115u8, 116u8, 97u8, 114u8, 107u8, 110u8, 101u8, 116u8, 58u8, 58u8, 67u8, 111u8, 110u8, 116u8, 114u8, 97u8, 99u8, 116u8, 65u8, 100u8, 100u8, 114u8, 101u8]) == 0x737461726b6e65743a3a436f6e74726163744164647265) by {
            assert(seq![115u8, 116u8, 97u8, 114u8, 107u8, 110u8, 101u8, 116u8, 58u8, 58u8, 67u8, 111u8, 110u8, 116u8, 114u8, 97u8, 99u8, 116u8, 65u8, 100u8, 100u8, 114u8, 101u8].drop_last() =~= seq![115u8, 116u8, 97u8, 114u8, 107u8, 110u8, 101u8, 116u8, 58u8, 58u8, 67u8, 111u8, 110u8, 116u8, 114u8, 97u8, 99u8, 116u8, 65u8, 100u8, 100u8, 114u8]);
        }
        assert(be_value(seq![115u8, 116u8, 97u8, 114u8, 107u8, 110u8, 101u8, 116u8, 58u8, 58u8, 67u8, 111u8, 110u8, 116u8, 114u8, 97u8, 99u8, 116u8, 65u8, 100u8, 100u8, 114u8, 101u8, 115u8]) == 0x737461726b6e65743a3a436f6e7472616374416464726573) by {
            assert(seq![115u8, 116u8, 97u8, 114u8, 107u8, 110u8, 101u8, 116u8, 58u8, 58u8, 67u8, 111u8, 110u8, 116u8, 114u8, 97u8, 99u8, 116u8, 65u8, 100u8, 100u8, 114u8, 101u8, 115u8].drop_last() =~= seq![115u8, 116u8, 97u8, 114u8, 107u8, 110u8, 101u8, 116u8, 58u8, 58u8, 67u8, 111u8, 110u8, 116u8, 114u8, 97u8, 99u8, 116u8, 65u8, 100u8, 100u8, 114u8, 101u8]);
        }
        assert(be_value(seq![115u8, 116u8, 97u8, 114u8, 107u8, 110u8, 101u8, 116u8, 58u8, 58u8, 67u8, 111u8, 110u8, 116u8, 114u8, 97u8, 99u8, 116u8, 65u8, 100u8, 100u8, 114u8, 101u8, 115u8, 115u8]) == 0x737461726b6e65743a3a436f6e747261637441646472657373) by {
            assert(seq![115u8, 116u8, 97u8, 114u8, 107u8, 110u8, 101u8, 116u8, 58u8, 58u8, 67u8, 111u8, 110u8, 116u8, 114u8, 97u8, 99u8, 116u8, 65u8, 100u8, 100u8, 114u8, 101u8, 115u8, 115u8].drop_last() =~= seq![115u8, 116u8, 97u8, 114u8, 107u8, 110u8, 101u8, 116u8, 58u8, 58u8, 67u8, 111u8, 110u8, 116u8, 114u8, 97u8, 99u8, 116u8, 65u8, 100u8, 100u8, 114u8, 101u8, 115u8]);
        }
    }
}

proof fn lemma_kind_ethaddress(kind: Felt)
    ensures
        short_string_chars(kind) == Some("EthAddress"@) ==> kind@ == 0x45746841646472657373,
{
    if short_string_chars(kind) == Some("EthAddress"@) {
        lemma_short_string_value(kind, "EthAddress"@);
        reveal_strlit("EthAddress");
        assert(char_bytes("EthAddress"@) =~= seq![69u8, 116u8, 104u8, 65u8, 100u8, 100u8, 114u8, 101u8, 115u8, 115u8]);
        assert(be_value(Seq::<u8>::empty()) == 0);
        assert(be_value(seq![69u8]) == 0x45) by {
            assert(seq![69u8].drop_last() =~= seq![]);
        }
        assert(be_value(seq![69u8, 116u8]) == 0x4574) by {
            assert(seq![69u8, 116u8].drop_last() =~= seq![69u8]);
        }
        assert(be_value(seq![69u8, 116u8, 104u8]) == 0x457468) by {
            assert(seq![69u8, 116u8, 104u8].drop_last() =~= seq![69u8, 116u8]);
        }
        assert(be_value(seq![69u8, 116u8, 104u8, 65u8]) == 0x45746841) by {
            assert(seq![69u8, 116u8, 104u8, 65u8].drop_last() =~= seq![69u8, 116u8, 104u8]);
        }
        assert(be_value(seq![69u8, 116u8, 104u8, 65u8, 100u8]) == 0x4574684164) by {
            assert(seq![69u8, 116u8, 104u8, 65u8, 100u8].drop_last() =~= seq![69u8, 116u8, 104u8, 65u8]);
        }
        assert(be_value(seq![69u8, 116u8, 104u8, 65u8, 100u8, 100u8]) == 0x457468416464) by {
            assert(seq![69u8, 116u8, 104u8, 65u8, 100u8, 100u8].drop_last() =~= seq![69u8, 116u8, 104u8, 65u8, 100u8]);
        }
        assert(be_value(seq![69u8, 116u8, 104u8, 65u8, 100u8, 100u8, 114u8]) == 0x45746841646472) by {
            assert(seq![69u8, 116u8, 104u8, 65u8, 100u8, 100u8, 114u8].drop_last() =~= seq![69u8, 116u8, 104u8, 65u8, 100u8, 100u8]);
        }
        assert(be_value(seq![69u8, 116u8, 104u8, 65u8, 100u8, 100u8, 114u8, 101u8]) == 0x4574684164647265) by {
            assert(seq![69u8, 116u8, 104u8, 65u8, 100u8, 100u8, 114u8, 101u8].drop_last() =~= seq![69u8, 116u8, 104u8, 65u8, 100u8, 100u8, 114u8]);
        }
        assert(be_value(seq![69u8, 116u8, 104u8, 65u8, 100u8, 100u8, 114u8, 101u8, 115u8]) == 0x457468416464726573) by {
            assert(seq![69u8, 116u8, 104u8, 65u8, 100u8, 100u8, 114u8, 101u8, 115u8].drop_last() =~= seq![69u8, 116u8, 104u8, 65u8, 100u8, 100u8, 114u8, 101u8]);
        }
        assert(be_value(seq![69u8, 116u8, 104u8, 65u8, 100u8, 100u8, 114u8, 101u8, 115u8, 115u8]) == 0x45746841646472657373) by {
            assert(seq![69u8, 116u8, 104u8, 65u8, 100u8, 100u8, 114u8, 101u8, 115u8, 115u8].drop_last() =~= seq![69u8, 116u8, 104u8, 65u8, 100u8, 100u8, 114u8, 101u8, 115u8]);
        }
    }
}

proof fn lemma_kind_starknet_ethaddress(kind: Felt)
    ensures
        short_string_chars(kind) == Some("starknet::EthAddress"@) ==> kind@ == 0x737461726b6e65743a3a45746841646472657373,
{
    if short_string_chars(kind) == Some("starknet::EthAddress"@) {
        lemma_short_string_value(kind, "starknet::EthAddress"@);
        reveal_strlit("starknet::EthAddress");
        assert(char_bytes("starknet::EthAddress"@) =~= seq![115u8, 116u8, 97u8, 114u8, 107u8, 110u8, 101u8, 116u8, 58u8, 58u8, 69u8, 116u8, 104u8, 65u8, 100u8, 100u8, 114u8, 101u8, 115u8, 115u8]);
        assert(be_value(Seq::<u8>::empty()) == 0);
        assert(be_value(seq![115u8]) == 0x73) by {
            assert(seq![115u8].drop_last() =~= seq![]);
        }
        assert(be_value(seq![115u8, 116u8]) == 0x7374) by {
            assert(seq![115u8, 116u8].drop_last() =~= seq![115u8]);
        }
        assert(be_value(seq![115u8, 116u8, 97u8]) == 0x737461) by {
            assert(seq![115u8, 116u8, 97u8].drop_last() =~= seq![115u8, 116u8]);
        }
        assert(be_value(seq![115u8, 116u8, 97u8, 114u8]) == 0x73746172) by {
            assert(seq![115u8, 116u8, 97u8, 114u8].drop_last() =~= seq![115u8, 116u8, 97u8]);
        }
        assert(be_value(seq![115u8, 116u8, 97u8, 114u8, 107u8]) == 0x737461726b) by {
            assert(seq![115u8, 116u8, 97u8, 114u8, 107u8].drop_last() =~= seq![115u8, 116u8, 97u8, 114u8]);
        }
        assert(be_value(seq![115u8, 116u8, 97u8, 114u8, 107u8, 110u8]) == 0x737461726b6e) by {
            assert(seq![115u8, 116u8, 97u8, 114u8, 107u8, 110u8].drop_last() =~= seq![115u8, 116u8, 97u8, 114u8, 107u8]);
        }
        assert(be_value(seq![115u8, 116u8, 97u8, 114u8, 107u8, 110u8, 101u8]) == 0x737461726b6e65) by {
            assert(seq![115u8, 116u8, 97u8, 114u8, 107u8, 110u8, 101u8].drop_last() =~= seq![115u8, 116u8, 97u8, 114u8, 107u8, 110u8]);
        }
        assert(be_value(seq![115u8, 116u8, 97u8, 114u8, 107u8, 110u8, 101u8, 116u8]) == 0x737461726b6e6574) by {
            assert(seq![115u8, 116u8, 97u8, 114u8, 107u8, 110u8, 101u8, 116u8].drop_last() =~= seq![115u8, 116u8, 97u8, 114u8, 107u8, 110u8, 101u8]);
        }
        assert(be_value(seq![115u8, 116u8, 97u8, 114u8, 107u8, 110u8, 101u8, 116u8, 58u8]) == 0x737461726b6e65743a) by {
            assert(seq![115u8, 116u8, 97u8, 114u8, 107u8, 110u8, 101u8, 116u8, 58u8].drop_last() =~= seq![115u8, 116u8, 97u8, 114u8, 107u8, 110u8, 101u8, 116u8]);
        }
        assert(be_value(seq![115u8, 116u8, 97u8, 114u8, 107u8, 110u8, 101u8, 116u8, 58u8, 58u8]) == 0x737461726b6e65743a3a) by {
            assert(seq![115u8, 116u8, 97u8, 114u8, 107u8, 110u8, 101u8, 116u8, 58u8, 58u8].drop_last() =~= seq![115u8, 116u8, 97u8, 114u8, 107u8, 110u8, 101u8, 116u8, 58u8]);
        }
        assert(be_value(seq![115u8, 116u8, 97u8, 114u8, 107u8, 110u8, 101u8, 116u8, 58u8, 58u8, 69u8]) == 0x737461726b6e65743a3a45) by {
            assert(seq![115u8, 116u8, 97u8, 114u8, 107u8, 110u8, 101u8, 116u8, 58u8, 58u8, 69u8].drop_last() =~= seq![115u8, 116u8, 97u8, 114u8, 107u8, 110u8, 101u8, 116u8, 58u8, 58u8]);
        }
        assert(be_value(seq![115u8, 116u8, 97u8, 114u8, 107u8, 110u8, 101u8, 116u8, 58u8, 58u8, 69u8, 116u8]) == 0x737461726b6e65743a3a4574) by {
            assert(seq![115u8, 116u8, 97u8, 114u8, 107u8, 110u8, 101u8, 116u8, 58u8, 58u8, 69u8, 116u8].drop_last() =~= seq![115u8, 116u8, 97u8, 114u8, 107u8, 110u8, 101u8, 116u8, 58u8, 58u8, 69u8]);
        }
        assert(be_value(seq![115u8, 116u8, 97u8, 114u8, 107u8, 110u8, 101u8, 116u8, 58u8, 58u8, 69u8, 116u8, 104u8]) == 0x737461726b6e65743a3a457468) by {
            assert(seq![115u8, 116u8, 97u8, 114u8, 107u8, 110u8, 101u8, 116u8, 58u8, 58u8, 69u8, 116u8, 104u8].drop_last() =~= seq![115u8, 116u8, 97u8, 114u8, 107u8, 110u8, 101u8, 116u8, 58u8, 58u8, 69u8, 116u8]);
        }
        assert(be_value(seq![115u8, 116u8, 97u8, 114u8, 107u8, 110u8, 101u8, 116u8, 58u8, 58u8, 69u8, 116u8, 104u8, 65u8]) == 0x737461726b6e65743a3a45746841) by {
            assert(seq![115u8, 116u8, 97u8, 114u8, 107u8, 110u8, 101u8, 116u8, 58u8, 58u8, 69u8, 116u8, 104u8, 65u8].drop_last() =~= seq![115u8, 116u8, 97u8, 114u8, 107u8, 110u8, 101u8, 116u8, 58u8, 58u8, 69u8, 116u8, 104u8]);
        }
        assert(be_value(seq![115u8, 116u8, 97u8, 114u8, 107u8, 110u8, 101u8, 116u8, 58u8, 58u8, 69u8, 116u8, 104u8, 65u8, 100u8]) == 0x737461726b6e65743a3a4574684164) by {
            assert(seq![115u8, 116u8, 97u8, 114u8, 107u8, 110u8, 101u8, 116u8, 58u8, 58u8, 69u8, 116u8, 104u8, 65u8, 100u8].drop_last() =~= seq![115u8, 116u8, 97u8, 114u8, 107u8, 110u8, 101u8, 116u8, 58u8, 58u8, 69u8, 116u8, 104u8, 65u8]);
        }
        assert(be_value(seq![115u8, 116u8, 97u8, 114u8, 107u8, 110u8, 101u8, 116u8, 58u8, 58u8, 69u8, 116u8, 104u8, 65u8, 100u8, 100u8]) == 0x737461726b6e65743a3a457468416464) by {
            assert(seq![115u8, 116u8, 97u8, 114u8, 107u8, 110u8, 101u8, 116u8, 58u8, 58u8, 69u8, 116u8, 104u8, 65u8, 100u8, 100u8].drop_last() =~= seq![115u8, 116u8, 97u8, 114u8, 107u8, 110u8, 101u8, 116u8, 58u8, 58u8, 69u8, 116u8, 104u8, 65u8, 100u8]);
        }
        assert(be_value(seq![115u8, 116u8, 97u8, 114u8, 107u8, 110u8, 101u8, 116u8, 58u8, 58u8, 69u8, 116u8, 104u8, 65u8, 100u8, 100u8, 114u8]) == 0x737461726b6e65743a3a45746841646472) by {
            assert(seq![115u8, 116u8, 97u8, 114u8, 107u8, 110u8, 101u8, 116u8, 58u8, 58u8, 69u8, 116u8, 104u8, 65u8, 100u8, 100u8, 114u8].drop_last() =~= seq![115u8, 116u8, 97u8, 114u8, 107u8, 110u8, 101u8, 116u8, 58u8, 58u8, 69u8, 116u8, 104u8, 65u8, 100u8, 100u8]);
        }
        assert(be_value(seq![115u8, 116u8, 97u8, 114u8, 107u8, 110u8, 101u8, 116u8, 58u8, 58u8, 69u8, 116u8, 104u8, 65u8, 100u8, 100u8, 114u8, 101u8]) == 0x737461726b6e65743a3a4574684164647265) by {
            assert(seq![115u8, 116u8, 97u8, 114u8, 107u8, 110u8, 101u8, 116u8, 58u8, 58u8, 69u8, 116u8, 104u8, 65u8, 100u8, 100u8, 114u8, 101u8].drop_last() =~= seq![115u8, 116u8, 97u8, 114u8, 107u8, 110u8, 101u8, 116u8, 58u8, 58u8, 69u8, 116u8, 104u8, 65u8, 100u8, 100u8, 114u8]);
        }
        assert(be_value(seq![115u8, 116u8, 97u8, 114u8, 107u8, 110u8, 101u8, 116u8, 58u8, 58u8, 69u8, 116u8, 104u8, 65u8, 100u8, 100u8, 114u8, 101u8, 115u8]) == 0x737461726b6e65743a3a457468416464726573) by {
            assert(seq![115u8, 116u8, 97u8, 114u8, 107u8, 110u8, 101u8, 116u8, 58u8, 58u8, 69u8, 116u8, 104u8, 65u8, 100u8, 100u8, 114u8, 101u8, 115u8].drop_last() =~= seq![115u8, 116u8, 97u8, 114u8, 107u8, 110u8, 101u8, 116u8, 58u8, 58u8, 69u8, 116u8, 104u8, 65u8, 100u8, 100u8, 114u8, 101u8]);
        }
        assert(be_value(seq![115u8, 116u8, 97u8, 114u8, 107u8, 110u8, 101u8, 116u8, 58u8, 58u8, 69u8, 116u8, 104u8, 65u8, 100u8, 100u8, 114u8, 101u8, 115u8, 115u8]) == 0x737461726b6e65743a3a45746841646472657373) by {
            assert(seq![115u8, 116u8, 97u8, 114u8, 107u8, 110u8, 101u8, 116u8, 58u8, 58u8, 69u8, 116u8, 104u8, 65u8, 100u8, 100u8, 114u8, 101u8, 115u8, 115u8].drop_last() =~= seq![115u8, 116u8, 97u8, 114u8, 107u8, 110u8, 101u8, 116u8, 58u8, 58u8, 69u8, 116u8, 104u8, 65u8, 100u8, 100u8, 114u8, 101u8, 115u8]);
        }
    }
}

/// A primitive kind is the Cairo short string of the primitive's name, and
/// reads as the primitive so named.
pub proof fn law_primitive_kind_names(kind: Felt)
    ensures
        short_string_chars(kind) == Some("bool"@) ==> primitive_type_def(kind) == Ok::<TypeDefView, DecodeError>(TypeDefView::Bool),
        short_string_chars(kind) == Some("u8"@) ==> primitive_type_def(kind) == Ok::<TypeDefView, DecodeError>(TypeDefView::U8),
        short_string_chars(kind) == Some("u16"@) ==> primitive_type_def(kind) == Ok::<TypeDefView, DecodeError>(TypeDefView::U16),
        short_string_chars(kind) == Some("u32"@) ==> primitive_type_def(kind) == Ok::<TypeDefView, DecodeError>(TypeDefView::U32),
        short_string_chars(kind) == Some("u64"@) ==> primitive_type_def(kind) == Ok::<TypeDefView, DecodeError>(TypeDefView::U64),
        short_string_chars(kind) == Some("u128"@) ==> primitive_type_def(kind) == Ok::<TypeDefView, DecodeError>(TypeDefView::U128),
        short_string_chars(kind) == Some("u256"@) ==> primitive_type_def(kind) == Ok::<TypeDefView, DecodeError>(TypeDefView::U256),
        short_string_chars(kind) == Some("i8"@) ==> primitive_type_def(kind) == Ok::<TypeDefView, DecodeError>(TypeDefView::I8),
        short_string_chars(kind) == Some("i16"@) ==> primitive_type_def(kind) == Ok::<TypeDefView, DecodeError>(TypeDefView::I16),
        short_string_chars(kind) == Some("i32"@) ==> primitive_type_def(kind) == Ok::<TypeDefView, DecodeError>(TypeDefView::I32),
        short_string_chars(kind) == Some("i64"@) ==> primitive_type_def(kind) == Ok::<TypeDefView, DecodeError>(TypeDefView::I64),
        short_string_chars(kind) == Some("i128"@) ==> primitive_type_def(kind) == Ok::<TypeDefView, DecodeError>(TypeDefView::I128),
        short_string_chars(kind) == Some("felt252"@) ==> primitive_type_def(kind) == Ok::<TypeDefView, DecodeError>(TypeDefView::Felt252),
        short_string_chars(kind) == Some("ClassHash"@) ==> primitive_type_def(kind) == Ok::<TypeDefView, DecodeError>(TypeDefView::ClassHash),
        short_string_chars(kind) == Some("starknet::ClassHash"@) ==> primitive_type_def(kind) == Ok::<TypeDefView, DecodeError>(TypeDefView::ClassHash),
        short_string_chars(kind) == Some("ContractAddress"@) ==> primitive_type_def(kind) == Ok::<TypeDefView, DecodeError>(TypeDefView::ContractAddress),
        short_string_chars(kind) == Some("starknet::ContractAddress"@) ==> primitive_type_def(kind) == Ok::<TypeDefView, DecodeError>(TypeDefView::ContractAddress),
        short_string_chars(kind) == Some("EthAddress"@) ==> primitive_type_def(kind) == Ok::<TypeDefView, DecodeError>(TypeDefView::EthAddress),
        short_string_chars(kind) == Some("starknet::EthAddress"@) ==> primitive_type_def(kind) == Ok::<TypeDefView, DecodeError>(TypeDefView::EthAddress),
{
    lemma_kind_bool(kind);
    lemma_kind_u8(kind);
    lemma_kind_u16(kind);
    lemma_kind_u32(kind);
    lemma_kind_u64(kind);
    lemma_kind_u128(kind);
    lemma_kind_u256(kind);
    lemma_kind_i8(kind);
    lemma_kind_i16(kind);
    lemma_kind_i32(kind);
    lemma_kind_i64(kind);
    lemma_kind_i128(kind);
    lemma_kind_felt252(kind);
    lemma_kind_classhash(kind);
    lemma_kind_starknet_classhash(kind);
    lemma_kind_contractaddress(kind);
    lemma_kind_starknet_contractaddress(kind);
    lemma_kind_ethaddress(kind);
    lemma_kind_starknet_ethaddress(kind);
}

proof fn lemma_attribute_list_layout(d: Seq<Felt>, n: nat)
    ensures
        read_attribute_list(d, n).0 matches Ok(a) ==> {
            &&& a.len() == n && d.len() >= n
            &&& forall|i: int| 0 <= i < n ==> short_string_chars(d[i]) == Some(#[trigger] a[i].name) && a[i].data.len() == 0
            &&& read_attribute_list(d, n).1 == d.skip(n as int)
        },
    decreases n,
{
    if n > 0 {
        lemma_attribute_list_layout(d, (n - 1) as nat);
        if let (Ok(a), d1) = read_attribute_list(d, (n - 1) as nat) {
            if let (Ok(name), r) = read_short_string(d1) {
                assert(d1[0] == d[n - 1]);
                assert(d1.drop_first() =~= d.skip(n as int));
            }
        }
    }
}

proof fn lemma_variant_defs_count(d: Seq<Felt>, n: nat, legacy: bool)
    ensures
        read_variant_defs(d, n, legacy).0 matches Ok(vs) ==> vs.len() == n,
    decreases n,
{
    if n > 0 {
        lemma_variant_defs_count(d, (n - 1) as nat, legacy);
    }
}

proof fn lemma_member_defs_count(d: Seq<Felt>, n: nat, legacy: bool)
    ensures
        read_member_defs(d, n, legacy).0 matches Ok(ms) ==> ms.len() == n,
    decreases n,
{
    if n > 0 {
        lemma_member_defs_count(d, (n - 1) as nat, legacy);
    }
}

/// The header of a definition is a short-string name, then a count and that
/// many short-string attribute names (without data): an enum, a struct, a
/// member or a column read from `d` has the name of `d[0]`, the attributes
/// named by the felts after the count `d[1]`, and, for an enum or a struct,
/// as many variants or members as the count after them says.
pub proof fn law_definition_headers(d: Seq<Felt>, legacy: bool)
    ensures
        read_enum_def(d, legacy).0 matches Ok(e) ==> {
            &&& d.len() >= 3 + e.attributes.len()
            &&& short_string_chars(d[0]) == Some(e.name)
            &&& d[1]@ == e.attributes.len()
            &&& forall|i: int| 0 <= i < e.attributes.len() ==> short_string_chars(d[2 + i]) == Some(
                #[trigger] e.attributes[i].name,
            ) && e.attributes[i].data.len() == 0
            &&& d[2 + e.attributes.len() as int]@ == e.variants.len()
        },
        read_struct_def(d, legacy).0 matches Ok(s) ==> {
            &&& d.len() >= 3 + s.attributes.len()
            &&& short_string_chars(d[0]) == Some(s.name)
            &&& d[1]@ == s.attributes.len()
            &&& forall|i: int| 0 <= i < s.attributes.len() ==> short_string_chars(d[2 + i]) == Some(
                #[trigger] s.attributes[i].name,
            ) && s.attributes[i].data.len() == 0
            &&& d[2 + s.attributes.len() as int]@ == s.members.len()
        },
        read_member_def(d, legacy).0 matches Ok(m) ==> {
            &&& d.len() >= 2 + m.attributes.len()
            &&& short_string_chars(d[0]) == Some(m.name)
            &&& d[1]@ == m.attributes.len()
            &&& forall|i: int| 0 <= i < m.attributes.len() ==> short_string_chars(d[2 + i]) == Some(
                #[trigger] m.attributes[i].name,
            ) && m.attributes[i].data.len() == 0
        },
        read_column_def(d, legacy).0 matches Ok(c) ==> {
            &&& d.len() >= 2 + c.attributes.len()
            &&& short_string_chars(d[0]) == Some(c.name)
            &&& d[1]@ == c.attributes.len()
            &&& forall|i: int| 0 <= i < c.attributes.len() ==> short_string_chars(d[2 + i]) == Some(
                #[trigger] c.attributes[i].name,
            ) && c.attributes[i].data.len() == 0
        },
{
    if d.len() > 0 {
        let d1 = d.drop_first();
        if d1.len() > 0 && d1[0]@ <= u32::MAX {
            assert(d1[0] == d[1]);
            let n = d1[0]@;
            lemma_attribute_list_layout(d1.drop_first(), n);
            assert(d1.drop_first() =~= d.skip(2));
            if let (Ok(a), d2) = read_attribute_list(d1.drop_first(), n) {
                assert forall|i: int| 0 <= i < n implies d.skip(2)[i] == d[2 + i] by {}
                assert(d2 =~= d.skip(2 + n as int));
                if d2.len() > 0 {
                    assert(d2[0] == d[2 + n as int]);
                    lemma_variant_defs_count(d2.drop_first(), d2[0]@, legacy);
                    lemma_member_defs_count(d2.drop_first(), d2[0]@, legacy);
                }
            }
        }
    }
}

/// The kind felt of a type definition says what follows: 5 is a string with
/// nothing more; 3 then 0 is the unit type; 4 then the span length 1 is an
/// array of the definition after; 6 then 1 is a fixed array of the
/// definition after, sized by the felt after it; 0 is a primitive named by
/// the next felt.
pub proof fn law_type_def_kinds(k: Felt, f: Felt, d: Seq<Felt>, legacy: bool)
    ensures
        k@ == 5 ==> read_type_def(seq![k] + d, legacy) == (Ok::<TypeDefView, DecodeError>(TypeDefView::Utf8String), d),
        k@ == 3 && f@ == 0 ==> read_type_def(seq![k, f] + d, legacy) == (Ok::<TypeDefView, DecodeError>(TypeDefView::Unit), d),
        k@ == 4 && f@ == 1 ==> read_type_def(seq![k, f] + d, legacy) == match read_type_def(d, legacy) {
            (Ok(t), r) => (Ok(TypeDefView::Array(Box::new(t))), r),
            (Err(e), r) => (Err(e), r),
        },
        k@ == 6 && f@ == 1 ==> (read_type_def(seq![k, f] + d, legacy).0 matches Ok(TypeDefView::FixedArray(t, n)) ==> (
            read_type_def(d, legacy).0 == Ok::<TypeDefView, DecodeError>(*t) && read_type_def(d, legacy).1.len() > 0
                && read_type_def(d, legacy).1[0]@ == n)),
        k@ == 0 ==> read_type_def(seq![k, f] + d, legacy) == (primitive_type_def(f), d),
{
    let e1 = seq![k] + d;
    assert(e1[0] == k);
    assert(e1.drop_first() =~= d);
    let e2 = seq![k, f] + d;
    assert(e2[0] == k);
    assert(e2.drop_first() =~= seq![f] + d);
    assert((seq![f] + d)[0] == f);
    assert((seq![f] + d).drop_first() =~= d);
}

} // verus!
