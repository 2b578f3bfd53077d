//! Dojo type definitions as the world contract serializes them, the reading
//! of a definition from felts, and the reading of a value of a definition.
use std::collections::VecDeque;
use vstd::prelude::*;
use crate::codec::{bytes31_max, chunks_text, decimal_chars, word_chunks};
use crate::felt::Felt;
use crate::outside::{byte_array_words_text, felt_decimal};
use crate::types::parsed::{
    members_view, parsed_seq_view, strings_view, Enum, EnumView, Member, MemberView, Parse, Parsed,
    ParsedView, Struct, StructView, U256,
};

verus! {

/// A Dojo type definition.
pub enum DojoTy {
    Unit,
    Primitive(DojoPrimitive),
    Struct(DojoStruct),
    Enum(DojoEnum),
    Tuple(Vec<DojoTy>),
    Array(Box<DojoTy>),
    ByteArray,
    FixedArray((Box<DojoTy>, u32)),
}

/// The primitive Cairo types.
#[derive(Clone, Copy, PartialEq, Eq, Structural, Debug)]
pub enum DojoPrimitive {
    Bool,
    U8,
    U16,
    U32,
    U64,
    U128,
    U256,
    I8,
    I16,
    I32,
    I64,
    I128,
    Felt252,
    ClassHash,
    ContractAddress,
    EthAddress,
}

/// A struct definition: its name, attributes and members.
pub struct DojoStruct {
    pub name: Felt,
    pub attrs: Vec<Felt>,
    pub children: Vec<DojoMember>,
}

/// An enum variant: its name and payload type.
pub struct DojoVariant {
    pub name: String,
    pub ty: DojoTy,
}

/// An enum definition; each variant is keyed by its selector, and no
/// selector occurs twice.
pub struct DojoEnum {
    pub name: Felt,
    pub attrs: Vec<Felt>,
    pub variants: Vec<(Felt, DojoVariant)>,
}

/// A struct member definition.
pub struct DojoMember {
    pub name: Felt,
    pub attrs: Vec<Felt>,
    pub ty: DojoTy,
}

/// The content of a [`DojoTy`].
pub enum TyView {
    Unit,
    Primitive(DojoPrimitive),
    Struct(StructTyView),
    Enum(EnumTyView),
    Tuple(Seq<TyView>),
    Array(Box<TyView>),
    ByteArray,
    FixedArray(Box<TyView>, u32),
}

/// The content of a [`DojoStruct`].
pub struct StructTyView {
    pub name: Felt,
    pub attrs: Seq<Felt>,
    pub children: Seq<MemberTyView>,
}

/// The content of a [`DojoMember`].
pub struct MemberTyView {
    pub name: Felt,
    pub attrs: Seq<Felt>,
    pub ty: TyView,
}

/// The content of a [`DojoVariant`].
pub struct VariantTyView {
    pub name: Seq<char>,
    pub ty: TyView,
}

/// The content of a [`DojoEnum`]: variants with the values of their selectors.
pub struct EnumTyView {
    pub name: Felt,
    pub attrs: Seq<Felt>,
    pub variants: Seq<(nat, VariantTyView)>,
}

pub open spec fn tys_view(s: Seq<DojoTy>) -> Seq<TyView>
    decreases s,
{
    if s.len() == 0 {
        Seq::empty()
    } else {
        tys_view(s.drop_last()).push(s.last().view())
    }
}

pub open spec fn member_tys_view(s: Seq<DojoMember>) -> Seq<MemberTyView>
    decreases s,
{
    if s.len() == 0 {
        Seq::empty()
    } else {
        member_tys_view(s.drop_last()).push(s.last().view())
    }
}

pub open spec fn variant_tys_view(s: Seq<(Felt, DojoVariant)>) -> Seq<(nat, VariantTyView)>
    decreases s,
{
    if s.len() == 0 {
        Seq::empty()
    } else {
        variant_tys_view(s.drop_last()).push((s.last().0@, s.last().1.view()))
    }
}

impl DojoTy {
    pub open spec fn view(&self) -> TyView
        decreases self,
    {
        match self {
            DojoTy::Unit => TyView::Unit,
            DojoTy::Primitive(p) => TyView::Primitive(*p),
            DojoTy::Struct(s) => TyView::Struct(s.view()),
            DojoTy::Enum(e) => TyView::Enum(e.view()),
            DojoTy::Tuple(v) => TyView::Tuple(tys_view(v@)),
            DojoTy::Array(t) => TyView::Array(Box::new(t.view())),
            DojoTy::ByteArray => TyView::ByteArray,
            DojoTy::FixedArray(p) => TyView::FixedArray(Box::new(p.0.view()), p.1),
        }
    }
}

impl DojoStruct {
    pub open spec fn view(&self) -> StructTyView
        decreases self,
    {
        StructTyView { name: self.name, attrs: self.attrs@, children: member_tys_view(self.children@) }
    }
}

impl DojoMember {
    pub open spec fn view(&self) -> MemberTyView
        decreases self,
    {
        MemberTyView { name: self.name, attrs: self.attrs@, ty: self.ty.view() }
    }
}

impl DojoVariant {
    pub open spec fn view(&self) -> VariantTyView
        decreases self,
    {
        VariantTyView { name: self.name@, ty: self.ty.view() }
    }
}

impl DojoEnum {
    pub open spec fn view(&self) -> EnumTyView
        decreases self,
    {
        EnumTyView { name: self.name, attrs: self.attrs@, variants: variant_tys_view(self.variants@) }
    }

    /// No selector keys two variants, as in a map from selectors to variants.
    pub open spec fn selectors_unique(&self) -> bool {
        forall|i: int, j: int|
            0 <= i < j < self.variants@.len() ==> #[trigger] self.variants@[i].0 != #[trigger] self.variants@[j].0
    }
}

// ---------------------------------------------------------------------------
// Reading a definition.
// ---------------------------------------------------------------------------

/// Reading `n` felts; on a shortfall every felt is consumed and none returned.
pub open spec fn take_felts(d: Seq<Felt>, n: nat) -> (Option<Seq<Felt>>, Seq<Felt>) {
    if n <= d.len() {
        (Some(d.take(n as int)), d.skip(n as int))
    } else {
        (None, Seq::empty())
    }
}

/// Reading one felt as a `usize`; the felt is consumed either way.
pub open spec fn take_usize(d: Seq<Felt>) -> (Option<nat>, Seq<Felt>) {
    if d.len() == 0 {
        (None, d)
    } else if d[0]@ <= usize::MAX {
        (Some(d[0]@), d.drop_first())
    } else {
        (None, d.drop_first())
    }
}

/// Reading one felt as a `u32`; the felt is consumed either way.
pub open spec fn take_u32(d: Seq<Felt>) -> (Option<nat>, Seq<Felt>) {
    if d.len() == 0 {
        (None, d)
    } else if d[0]@ <= u32::MAX {
        (Some(d[0]@), d.drop_first())
    } else {
        (None, d.drop_first())
    }
}

/// `d1` where it is no longer than `d`.
pub open spec fn no_longer(d1: Seq<Felt>, d: Seq<Felt>) -> Seq<Felt> {
    if d1.len() <= d.len() {
        d1
    } else {
        d
    }
}

/// The primitive whose name is `s`.
pub open spec fn primitive_named(s: Seq<char>) -> Option<DojoPrimitive> {
    if s == "bool"@ {
        Some(DojoPrimitive::Bool)
    } else if s == "u8"@ {
        Some(DojoPrimitive::U8)
    } else if s == "u16"@ {
        Some(DojoPrimitive::U16)
    } else if s == "u32"@ {
        Some(DojoPrimitive::U32)
    } else if s == "u64"@ {
        Some(DojoPrimitive::U64)
    } else if s == "u128"@ {
        Some(DojoPrimitive::U128)
    } else if s == "u256"@ {
        Some(DojoPrimitive::U256)
    } else if s == "i8"@ {
        Some(DojoPrimitive::I8)
    } else if s == "i16"@ {
        Some(DojoPrimitive::I16)
    } else if s == "i32"@ {
        Some(DojoPrimitive::I32)
    } else if s == "i64"@ {
        Some(DojoPrimitive::I64)
    } else if s == "i128"@ {
        Some(DojoPrimitive::I128)
    } else if s == "felt252"@ {
        Some(DojoPrimitive::Felt252)
    } else if s == "ClassHash"@ || s == "starknet::ClassHash"@ {
        Some(DojoPrimitive::ClassHash)
    } else if s == "ContractAddress"@ || s == "starknet::ContractAddress"@ {
        Some(DojoPrimitive::ContractAddress)
    } else if s == "EthAddress"@ || s == "starknet::EthAddress"@ {
        Some(DojoPrimitive::EthAddress)
    } else {
        None
    }
}

/// A primitive: one felt whose decimal text names it.
pub open spec fn deser_primitive(d: Seq<Felt>) -> (Option<DojoPrimitive>, Seq<Felt>) {
    if d.len() == 0 {
        (None, d)
    } else {
        (primitive_named(decimal_chars(d[0]@)), d.drop_first())
    }
}

/// A type definition: a `u32` kind, then the definition of that kind
/// (0 primitive, 1 struct, 2 enum, 3 tuple, 4 array, 5 byte array,
/// 6 fixed array).
pub open spec fn deser_ty(d: Seq<Felt>, legacy: bool) -> (Option<TyView>, Seq<Felt>)
    decreases d.len(), 0nat,
{
    if d.len() == 0 {
        (None, d)
    } else if d[0]@ > u32::MAX {
        (None, d.drop_first())
    } else {
        let kind = d[0]@;
        let d1 = d.drop_first();
        if kind == 0 {
            match deser_primitive(d1) {
                (Some(p), r) => (Some(TyView::Primitive(p)), r),
                (None, r) => (None, r),
            }
        } else if kind == 1 {
            match deser_struct(d1, legacy) {
                (Some(s), r) => (Some(TyView::Struct(s)), r),
                (None, r) => (None, r),
            }
        } else if kind == 2 {
            match deser_enum(d1, legacy) {
                (Some(e), r) => (Some(TyView::Enum(e)), r),
                (None, r) => (None, r),
            }
        } else if kind == 3 {
            deser_tuple(d1, legacy)
        } else if kind == 4 {
            match deser_array(d1, legacy) {
                (Some(t), r) => (Some(TyView::Array(Box::new(t))), r),
                (None, r) => (None, r),
            }
        } else if kind == 5 {
            (Some(TyView::ByteArray), d1)
        } else if kind == 6 {
            match deser_fixed_array(d1, legacy) {
                (Some((t, n)), r) => (Some(TyView::FixedArray(Box::new(t), n)), r),
                (None, r) => (None, r),
            }
        } else {
            (None, d1)
        }
    }
}

/// A struct: a name felt, a length-prefixed list of attribute felts and a
/// length-prefixed list of members.
pub open spec fn deser_struct(d: Seq<Felt>, legacy: bool) -> (Option<StructTyView>, Seq<Felt>)
    decreases d.len(), 1nat,
{
    if d.len() == 0 {
        (None, d)
    } else {
        let name = d[0];
        match take_usize(d.drop_first()) {
            (None, r) => (None, r),
            (Some(n), d2) => match take_felts(d2, n) {
                (None, r) => (None, r),
                (Some(attrs), d3) => match take_usize(d3) {
                    (None, r) => (None, r),
                    (Some(m), d4) => match deser_members(d4, m, legacy) {
                        (Some(children), r) => (
                            Some(StructTyView { name, attrs, children }),
                            r,
                        ),
                        (None, r) => (None, r),
                    },
                },
            },
        }
    }
}

/// `n` members, one after the other.
pub open spec fn deser_members(d: Seq<Felt>, n: nat, legacy: bool) -> (
    Option<Seq<MemberTyView>>,
    Seq<Felt>,
)
    decreases d.len(), n + 2,
{
    if n == 0 {
        (Some(Seq::empty()), d)
    } else {
        match deser_members(d, (n - 1) as nat, legacy) {
            (None, r) => (None, r),
            (Some(ms), d1) => match deser_member(no_longer(d1, d), legacy) {
                (Some(m), r) => (Some(ms.push(m)), r),
                (None, r) => (None, r),
            },
        }
    }
}

/// A member: a name felt, a length-prefixed list of attribute felts and a type.
pub open spec fn deser_member(d: Seq<Felt>, legacy: bool) -> (Option<MemberTyView>, Seq<Felt>)
    decreases d.len(), 1nat,
{
    if d.len() == 0 {
        (None, d)
    } else {
        let name = d[0];
        match take_usize(d.drop_first()) {
            (None, r) => (None, r),
            (Some(n), d2) => match take_felts(d2, n) {
                (None, r) => (None, r),
                (Some(attrs), d3) => match deser_ty(d3, legacy) {
                    (Some(ty), r) => (Some(MemberTyView { name, attrs, ty }), r),
                    (None, r) => (None, r),
                },
            },
        }
    }
}

/// The selector of the `i`-th variant: `i` in legacy storage, `i + 1` otherwise.
pub open spec fn variant_selector(i: nat, legacy: bool) -> nat {
    if legacy {
        i
    } else {
        i + 1
    }
}

/// An enum: a name felt, a length-prefixed list of attribute felts and a
/// length-prefixed list of variants, keyed by their selectors.
pub open spec fn deser_enum(d: Seq<Felt>, legacy: bool) -> (Option<EnumTyView>, Seq<Felt>)
    decreases d.len(), 1nat,
{
    if d.len() == 0 {
        (None, d)
    } else {
        let name = d[0];
        match take_usize(d.drop_first()) {
            (None, r) => (None, r),
            (Some(n), d2) => match take_felts(d2, n) {
                (None, r) => (None, r),
                (Some(attrs), d3) => match take_usize(d3) {
                    (None, r) => (None, r),
                    (Some(m), d4) => match deser_variants(d4, m, legacy) {
                        (Some(variants), r) => (Some(EnumTyView { name, attrs, variants }), r),
                        (None, r) => (None, r),
                    },
                },
            },
        }
    }
}

/// `n` variants, one after the other, the `i`-th keyed by its selector.
pub open spec fn deser_variants(d: Seq<Felt>, n: nat, legacy: bool) -> (
    Option<Seq<(nat, VariantTyView)>>,
    Seq<Felt>,
)
    decreases d.len(), n + 2,
{
    if n == 0 {
        (Some(Seq::empty()), d)
    } else {
        match deser_variants(d, (n - 1) as nat, legacy) {
            (None, r) => (None, r),
            (Some(vs), d1) => match deser_variant(no_longer(d1, d), legacy) {
                (Some(v), r) => (Some(vs.push((variant_selector((n - 1) as nat, legacy), v))), r),
                (None, r) => (None, r),
            },
        }
    }
}

/// A variant: a name felt, read as its decimal text, and a type.
pub open spec fn deser_variant(d: Seq<Felt>, legacy: bool) -> (Option<VariantTyView>, Seq<Felt>)
    decreases d.len(), 1nat,
{
    if d.len() == 0 {
        (None, d)
    } else {
        match deser_ty(d.drop_first(), legacy) {
            (Some(ty), r) => (Some(VariantTyView { name: decimal_chars(d[0]@), ty }), r),
            (None, r) => (None, r),
        }
    }
}

/// A tuple: a length, then that many types; the empty tuple is the unit type.
pub open spec fn deser_tuple(d: Seq<Felt>, legacy: bool) -> (Option<TyView>, Seq<Felt>)
    decreases d.len(), 1nat,
{
    match take_usize(d) {
        (None, r) => (None, r),
        (Some(n), d1) => if n == 0 {
            (Some(TyView::Unit), d1)
        } else {
            match deser_tys(d1, n, legacy) {
                (Some(ts), r) => (Some(TyView::Tuple(ts)), r),
                (None, r) => (None, r),
            }
        },
    }
}

/// `n` types, one after the other.
pub open spec fn deser_tys(d: Seq<Felt>, n: nat, legacy: bool) -> (Option<Seq<TyView>>, Seq<Felt>)
    decreases d.len(), n + 2,
{
    if n == 0 {
        (Some(Seq::empty()), d)
    } else {
        match deser_tys(d, (n - 1) as nat, legacy) {
            (None, r) => (None, r),
            (Some(ts), d1) => match deser_ty(no_longer(d1, d), legacy) {
                (Some(t), r) => (Some(ts.push(t)), r),
                (None, r) => (None, r),
            },
        }
    }
}

/// `d` without its first felt, if it has one.
pub open spec fn skip_one(d: Seq<Felt>) -> Seq<Felt> {
    if d.len() > 0 {
        d.drop_first()
    } else {
        d
    }
}

/// An array: one felt that is skipped, then the element type.
pub open spec fn deser_array(d: Seq<Felt>, legacy: bool) -> (Option<TyView>, Seq<Felt>)
    decreases d.len(), 1nat,
{
    deser_ty(skip_one(d), legacy)
}

/// A fixed array: one felt that is skipped, the element type and a `u32` size.
pub open spec fn deser_fixed_array(d: Seq<Felt>, legacy: bool) -> (Option<(TyView, u32)>, Seq<Felt>)
    decreases d.len(), 1nat,
{
    match deser_ty(skip_one(d), legacy) {
        (None, r) => (None, r),
        (Some(t), d2) => match take_u32(d2) {
            (Some(n), r) => (Some((t, n as u32)), r),
            (None, r) => (None, r),
        },
    }
}


pub open spec fn ty_opt_view(r: Option<DojoTy>) -> Option<TyView> {
    match r {
        Some(t) => Some(t.view()),
        None => None,
    }
}

pub open spec fn struct_opt_view(r: Option<DojoStruct>) -> Option<StructTyView> {
    match r {
        Some(t) => Some(t.view()),
        None => None,
    }
}

pub open spec fn member_opt_view(r: Option<DojoMember>) -> Option<MemberTyView> {
    match r {
        Some(t) => Some(t.view()),
        None => None,
    }
}

pub open spec fn variant_opt_view(r: Option<DojoVariant>) -> Option<VariantTyView> {
    match r {
        Some(t) => Some(t.view()),
        None => None,
    }
}

pub open spec fn enum_opt_view(r: Option<DojoEnum>) -> Option<EnumTyView> {
    match r {
        Some(t) => Some(t.view()),
        None => None,
    }
}

/// Once reading members fails, reading more of them fails the same way.
proof fn lemma_members_fail(d: Seq<Felt>, i: nat, n: nat, legacy: bool)
    requires
        i <= n,
        deser_members(d, i, legacy).0 is None,
    ensures
        deser_members(d, n, legacy) == deser_members(d, i, legacy),
    decreases n - i,
{
    if i < n {
        lemma_members_fail(d, i, (n - 1) as nat, legacy);
    }
}

/// Once reading variants fails, reading more of them fails the same way.
proof fn lemma_variants_fail(d: Seq<Felt>, i: nat, n: nat, legacy: bool)
    requires
        i <= n,
        deser_variants(d, i, legacy).0 is None,
    ensures
        deser_variants(d, n, legacy) == deser_variants(d, i, legacy),
    decreases n - i,
{
    if i < n {
        lemma_variants_fail(d, i, (n - 1) as nat, legacy);
    }
}

/// Once reading types fails, reading more of them fails the same way.
proof fn lemma_tys_fail(d: Seq<Felt>, i: nat, n: nat, legacy: bool)
    requires
        i <= n,
        deser_tys(d, i, legacy).0 is None,
    ensures
        deser_tys(d, n, legacy) == deser_tys(d, i, legacy),
    decreases n - i,
{
    if i < n {
        lemma_tys_fail(d, i, (n - 1) as nat, legacy);
    }
}

/// Reads one felt as a `usize`.
fn pop_usize(data: &mut VecDeque<Felt>) -> (r: Option<usize>)
    ensures
        take_usize(old(data)@).0 == (match r {
            Some(n) => Some(n as nat),
            None => None::<nat>,
        }),
        take_usize(old(data)@).1 == final(data)@,
{
    let f = data.pop_front()?;
    proof {
        assert(old(data)@.drop_first() =~= data@);
    }
    f.to_usize()
}

/// Reads one felt as a `u32`.
fn pop_u32(data: &mut VecDeque<Felt>) -> (r: Option<u32>)
    ensures
        take_u32(old(data)@).0 == (match r {
            Some(n) => Some(n as nat),
            None => None::<nat>,
        }),
        take_u32(old(data)@).1 == final(data)@,
{
    let f = data.pop_front()?;
    proof {
        assert(old(data)@.drop_first() =~= data@);
    }
    f.to_u32()
}

/// Reads `n` felts.
#[verifier::loop_isolation(false)]
fn read_felts(data: &mut VecDeque<Felt>, n: usize) -> (r: Option<Vec<Felt>>)
    ensures
        take_felts(old(data)@, n as nat).0 == (match r {
            Some(v) => Some(v@),
            None => None::<Seq<Felt>>,
        }),
        take_felts(old(data)@, n as nat).1 == final(data)@,
{
    let ghost d0 = data@;
    let mut out: Vec<Felt> = Vec::new();
    let mut i: usize = 0;
    while i < n
        invariant
            i <= n,
            i <= d0.len(),
            data@ == d0.skip(i as int),
            out@ == d0.take(i as int),
        decreases n - i,
    {
        match data.pop_front() {
            Some(f) => {
                proof {
                    assert(d0.skip(i as int).drop_first() =~= d0.skip(i + 1));
                    assert(d0.take(i as int).push(f) =~= d0.take(i + 1));
                }
                out.push(f);
                i += 1;
            },
            None => {
                proof {
                    assert(d0.skip(i as int).len() == 0);
                    assert(d0.len() == i);
                    assert(data@ =~= Seq::<Felt>::empty());
                }
                return None;
            },
        }
    }
    Some(out)
}

/// Whether the text of `s` is `lit`.
fn string_is(s: &String, lit: &str) -> (b: bool)
    ensures
        b == (s@ == lit@),
{
    *s == lit.to_owned()
}

/// Reads a primitive: one felt whose decimal text names it.
pub fn deserialize_primitive(data: &mut VecDeque<Felt>) -> (r: Option<DojoPrimitive>)
    ensures
        r == deser_primitive(old(data)@).0,
        final(data)@ == deser_primitive(old(data)@).1,
{
    let f = data.pop_front()?;
    proof {
        assert(old(data)@.drop_first() =~= data@);
    }
    let kind = felt_decimal(&f);
    if string_is(&kind, "bool") {
        Some(DojoPrimitive::Bool)
    } else if string_is(&kind, "u8") {
        Some(DojoPrimitive::U8)
    } else if string_is(&kind, "u16") {
        Some(DojoPrimitive::U16)
    } else if string_is(&kind, "u32") {
        Some(DojoPrimitive::U32)
    } else if string_is(&kind, "u64") {
        Some(DojoPrimitive::U64)
    } else if string_is(&kind, "u128") {
        Some(DojoPrimitive::U128)
    } else if string_is(&kind, "u256") {
        Some(DojoPrimitive::U256)
    } else if string_is(&kind, "i8") {
        Some(DojoPrimitive::I8)
    } else if string_is(&kind, "i16") {
        Some(DojoPrimitive::I16)
    } else if string_is(&kind, "i32") {
        Some(DojoPrimitive::I32)
    } else if string_is(&kind, "i64") {
        Some(DojoPrimitive::I64)
    } else if string_is(&kind, "i128") {
        Some(DojoPrimitive::I128)
    } else if string_is(&kind, "felt252") {
        Some(DojoPrimitive::Felt252)
    } else if string_is(&kind, "ClassHash") || string_is(&kind, "starknet::ClassHash") {
        Some(DojoPrimitive::ClassHash)
    } else if string_is(&kind, "ContractAddress") || string_is(&kind, "starknet::ContractAddress") {
        Some(DojoPrimitive::ContractAddress)
    } else if string_is(&kind, "EthAddress") || string_is(&kind, "starknet::EthAddress") {
        Some(DojoPrimitive::EthAddress)
    } else {
        None
    }
}

/// Reads a type definition.
pub fn deserialize_ty(data: &mut VecDeque<Felt>, legacy: bool) -> (r: Option<DojoTy>)
    ensures
        ty_opt_view(r) == deser_ty(old(data)@, legacy).0,
        final(data)@ == deser_ty(old(data)@, legacy).1,
        final(data)@.len() <= old(data)@.len(),
    decreases old(data)@.len(), 0nat,
{
    let kind = pop_u32(data)?;
    if kind == 0 {
        match deserialize_primitive(data) {
            Some(p) => Some(DojoTy::Primitive(p)),
            None => None,
        }
    } else if kind == 1 {
        match deserialize_struct(data, legacy) {
            Some(s) => Some(DojoTy::Struct(s)),
            None => None,
        }
    } else if kind == 2 {
        match deserialize_enum(data, legacy) {
            Some(e) => Some(DojoTy::Enum(e)),
            None => None,
        }
    } else if kind == 3 {
        deserialize_tuple(data, legacy)
    } else if kind == 4 {
        match deserialize_array(data, legacy) {
            Some(t) => Some(DojoTy::Array(t)),
            None => None,
        }
    } else if kind == 5 {
        Some(DojoTy::ByteArray)
    } else if kind == 6 {
        match deserialize_fixed_array(data, legacy) {
            Some(p) => Some(DojoTy::FixedArray(p)),
            None => None,
        }
    } else {
        None
    }
}

/// Reads a struct definition.
#[verifier::loop_isolation(false)]
pub fn deserialize_struct(data: &mut VecDeque<Felt>, legacy: bool) -> (r: Option<DojoStruct>)
    ensures
        struct_opt_view(r) == deser_struct(old(data)@, legacy).0,
        final(data)@ == deser_struct(old(data)@, legacy).1,
        final(data)@.len() <= old(data)@.len(),
    decreases old(data)@.len(), 1nat,
{
    let name = data.pop_front()?;
    proof {
        assert(old(data)@.drop_first() =~= data@);
    }
    let attrs_len = pop_usize(data)?;
    let attrs = read_felts(data, attrs_len)?;
    let children_len = pop_usize(data)?;
    let ghost d4 = data@;
    let mut children: Vec<DojoMember> = Vec::new();
    let mut i: usize = 0;
    while i < children_len
        invariant
            i <= children_len,
            d4.len() < old(data)@.len(),
            data@.len() <= d4.len(),
            deser_members(d4, i as nat, legacy) == (Some(member_tys_view(children@)), data@),
        decreases children_len - i,
    {
        let ghost prev = children@;
        let member = match deserialize_member(data, legacy) {
            Some(m) => m,
            None => {
                proof {
                    assert(deser_members(d4, (i + 1) as nat, legacy).0 is None);
                    lemma_members_fail(d4, (i + 1) as nat, children_len as nat, legacy);
                }
                return None;
            },
        };
        children.push(member);
        proof {
            assert(children@.drop_last() =~= prev);
        }
        i += 1;
    }
    Some(DojoStruct { name, attrs, children })
}

/// Reads a member definition.
pub fn deserialize_member(data: &mut VecDeque<Felt>, legacy: bool) -> (r: Option<DojoMember>)
    ensures
        member_opt_view(r) == deser_member(old(data)@, legacy).0,
        final(data)@ == deser_member(old(data)@, legacy).1,
        final(data)@.len() <= old(data)@.len(),
    decreases old(data)@.len(), 1nat,
{
    let name = data.pop_front()?;
    proof {
        assert(old(data)@.drop_first() =~= data@);
    }
    let attrs_len = pop_usize(data)?;
    let attrs = read_felts(data, attrs_len)?;
    let ty = deserialize_ty(data, legacy)?;
    Some(DojoMember { name, attrs, ty })
}

/// Reads an enum definition; the `i`-th variant gets selector `i`, or `i + 1`
/// outside legacy storage.
#[verifier::loop_isolation(false)]
pub fn deserialize_enum(data: &mut VecDeque<Felt>, legacy: bool) -> (r: Option<DojoEnum>)
    ensures
        enum_opt_view(r) == deser_enum(old(data)@, legacy).0,
        final(data)@ == deser_enum(old(data)@, legacy).1,
        final(data)@.len() <= old(data)@.len(),
        r matches Some(e) ==> e.selectors_unique(),
    decreases old(data)@.len(), 1nat,
{
    let name = data.pop_front()?;
    proof {
        assert(old(data)@.drop_first() =~= data@);
    }
    let attrs_len = pop_usize(data)?;
    let attrs = read_felts(data, attrs_len)?;
    let variants_len = pop_usize(data)?;
    let ghost d4 = data@;
    let legacy_mod: usize = if legacy { 0 } else { 1 };
    let mut variants: Vec<(Felt, DojoVariant)> = Vec::new();
    let mut i: usize = 0;
    while i < variants_len
        invariant
            i <= variants_len,
            legacy_mod == (if legacy { 0usize } else { 1usize }),
            d4.len() < old(data)@.len(),
            data@.len() <= d4.len(),
            deser_variants(d4, i as nat, legacy) == (Some(variant_tys_view(variants@)), data@),
        decreases variants_len - i,
    {
        let ghost prev = variants@;
        let variant = match deserialize_variant(data, legacy) {
            Some(v) => v,
            None => {
                proof {
                    assert(deser_variants(d4, (i + 1) as nat, legacy).0 is None);
                    lemma_variants_fail(d4, (i + 1) as nat, variants_len as nat, legacy);
                }
                return None;
            },
        };
        assert(i + legacy_mod <= u128::MAX);
        let key = Felt::from_u128((i + legacy_mod) as u128);
        variants.push((key, variant));
        proof {
            assert(variants@.drop_last() =~= prev);
        }
        i += 1;
    }
    let e = DojoEnum { name, attrs, variants };
    proof {
        lemma_variant_tys_view_index(e.variants@);
        lemma_variants_selectors(d4, variants_len as nat, legacy);
        let vs = variant_tys_view(e.variants@);
        assert forall|a: int, b: int| 0 <= a < b < e.variants@.len() implies #[trigger] e.variants@[a].0
            != #[trigger] e.variants@[b].0 by {
            assert(vs[a].0 == e.variants@[a].0@);
            assert(vs[b].0 == e.variants@[b].0@);
            assert(vs[a].0 == variant_selector(a as nat, legacy));
            assert(vs[b].0 == variant_selector(b as nat, legacy));
        }
    }
    Some(e)
}

/// Reads a variant definition: its name is the decimal text of a felt.
pub fn deserialize_variant(data: &mut VecDeque<Felt>, legacy: bool) -> (r: Option<DojoVariant>)
    ensures
        variant_opt_view(r) == deser_variant(old(data)@, legacy).0,
        final(data)@ == deser_variant(old(data)@, legacy).1,
        final(data)@.len() <= old(data)@.len(),
    decreases old(data)@.len(), 1nat,
{
    let f = data.pop_front()?;
    proof {
        assert(old(data)@.drop_first() =~= data@);
    }
    let name = felt_decimal(&f);
    let ty = deserialize_ty(data, legacy)?;
    Some(DojoVariant { name, ty })
}

/// Reads a tuple definition; the empty tuple is the unit type.
#[verifier::loop_isolation(false)]
pub fn deserialize_tuple(data: &mut VecDeque<Felt>, legacy: bool) -> (r: Option<DojoTy>)
    ensures
        ty_opt_view(r) == deser_tuple(old(data)@, legacy).0,
        final(data)@ == deser_tuple(old(data)@, legacy).1,
        final(data)@.len() <= old(data)@.len(),
    decreases old(data)@.len(), 1nat,
{
    let len = pop_usize(data)?;
    if len == 0 {
        return Some(DojoTy::Unit);
    }
    let ghost d1 = data@;
    let mut elements: Vec<DojoTy> = Vec::new();
    let mut i: usize = 0;
    while i < len
        invariant
            i <= len,
            d1.len() < old(data)@.len(),
            data@.len() <= d1.len(),
            deser_tys(d1, i as nat, legacy) == (Some(tys_view(elements@)), data@),
        decreases len - i,
    {
        let ghost prev = elements@;
        let t = match deserialize_ty(data, legacy) {
            Some(t) => t,
            None => {
                proof {
                    assert(deser_tys(d1, (i + 1) as nat, legacy).0 is None);
                    lemma_tys_fail(d1, (i + 1) as nat, len as nat, legacy);
                }
                return None;
            },
        };
        elements.push(t);
        proof {
            assert(elements@.drop_last() =~= prev);
        }
        i += 1;
    }
    Some(DojoTy::Tuple(elements))
}

/// Reads an array definition: one felt is skipped, then the element type.
pub fn deserialize_array(data: &mut VecDeque<Felt>, legacy: bool) -> (r: Option<Box<DojoTy>>)
    ensures
        ty_opt_view(match r {
            Some(b) => Some(*b),
            None => None,
        }) == deser_array(old(data)@, legacy).0,
        final(data)@ == deser_array(old(data)@, legacy).1,
        final(data)@.len() <= old(data)@.len(),
    decreases old(data)@.len(), 1nat,
{
    let _ = data.remove(0);
    proof {
        assert(skip_one(old(data)@) =~= data@);
    }
    match deserialize_ty(data, legacy) {
        Some(t) => Some(Box::new(t)),
        None => None,
    }
}

/// Reads a fixed array definition: one felt is skipped, then the element type
/// and a `u32` size.
pub fn deserialize_fixed_array(data: &mut VecDeque<Felt>, legacy: bool) -> (r: Option<(Box<DojoTy>, u32)>)
    ensures
        (match r {
            Some(p) => Some((p.0.view(), p.1)),
            None => None::<(TyView, u32)>,
        }) == deser_fixed_array(old(data)@, legacy).0,
        final(data)@ == deser_fixed_array(old(data)@, legacy).1,
        final(data)@.len() <= old(data)@.len(),
    decreases old(data)@.len(), 1nat,
{
    let _ = data.remove(0);
    proof {
        assert(skip_one(old(data)@) =~= data@);
    }
    let ty = deserialize_ty(data, legacy)?;
    let size = pop_u32(data)?;
    Some((Box::new(ty), size))
}

/// Reading a definition from the front of a felt queue.
pub trait DojoTySerde: Sized {
    fn deserialize(data: &mut VecDeque<Felt>, legacy: bool) -> Option<Self>;
}

impl DojoTySerde for DojoTy {
    fn deserialize(data: &mut VecDeque<Felt>, legacy: bool) -> (r: Option<Self>)
        ensures
            ty_opt_view(r) == deser_ty(old(data)@, legacy).0,
            final(data)@ == deser_ty(old(data)@, legacy).1,
    {
        deserialize_ty(data, legacy)
    }
}

impl DojoTySerde for DojoPrimitive {
    fn deserialize(data: &mut VecDeque<Felt>, legacy: bool) -> (r: Option<Self>)
        ensures
            r == deser_primitive(old(data)@).0,
            final(data)@ == deser_primitive(old(data)@).1,
    {
        deserialize_primitive(data)
    }
}

impl DojoTySerde for DojoStruct {
    fn deserialize(data: &mut VecDeque<Felt>, legacy: bool) -> (r: Option<Self>)
        ensures
            struct_opt_view(r) == deser_struct(old(data)@, legacy).0,
            final(data)@ == deser_struct(old(data)@, legacy).1,
    {
        deserialize_struct(data, legacy)
    }
}

impl DojoTySerde for DojoMember {
    fn deserialize(data: &mut VecDeque<Felt>, legacy: bool) -> (r: Option<Self>)
        ensures
            member_opt_view(r) == deser_member(old(data)@, legacy).0,
            final(data)@ == deser_member(old(data)@, legacy).1,
    {
        deserialize_member(data, legacy)
    }
}

impl DojoTySerde for DojoEnum {
    fn deserialize(data: &mut VecDeque<Felt>, legacy: bool) -> (r: Option<Self>)
        ensures
            enum_opt_view(r) == deser_enum(old(data)@, legacy).0,
            final(data)@ == deser_enum(old(data)@, legacy).1,
            r matches Some(e) ==> e.selectors_unique(),
    {
        deserialize_enum(data, legacy)
    }
}

impl DojoTySerde for DojoVariant {
    fn deserialize(data: &mut VecDeque<Felt>, legacy: bool) -> (r: Option<Self>)
        ensures
            variant_opt_view(r) == deser_variant(old(data)@, legacy).0,
            final(data)@ == deser_variant(old(data)@, legacy).1,
    {
        deserialize_variant(data, legacy)
    }
}


// ---------------------------------------------------------------------------
// Reading a value of a definition.
// ---------------------------------------------------------------------------

/// The outcome of reading a value: the value and the felts left, a failure
/// and the felts left, or a read that panics.
pub enum ParseStep<T> {
    Done(T, Seq<Felt>),
    Failed(Seq<Felt>),
    Aborted,
}

/// The decimal texts of felts, as attribute and type names are printed.
pub open spec fn decimal_texts(fs: Seq<Felt>) -> Seq<Seq<char>> {
    fs.map_values(|f: Felt| decimal_chars(f@))
}

/// One felt, when it is at most `max`.
pub open spec fn read_bounded(d: Seq<Felt>, max: nat) -> ParseStep<nat> {
    if d.len() == 0 {
        ParseStep::Failed(d)
    } else if d[0]@ <= max {
        ParseStep::Done(d[0]@, d.drop_first())
    } else {
        ParseStep::Failed(d.drop_first())
    }
}

/// A primitive value: one felt (two for `u256`) converted to the type;
/// a felt that does not fit fails, and `bool` is true for any nonzero felt.
pub open spec fn parse_primitive(p: DojoPrimitive, d: Seq<Felt>) -> ParseStep<ParsedView> {
    if d.len() == 0 {
        ParseStep::Failed(d)
    } else {
        let f = d[0];
        let r = d.drop_first();
        match p {
            DojoPrimitive::Bool => ParseStep::Done(ParsedView::Bool(f@ != 0), r),
            DojoPrimitive::U8 => if f@ <= u8::MAX {
                ParseStep::Done(ParsedView::U8(f@ as u8), r)
            } else {
                ParseStep::Failed(r)
            },
            DojoPrimitive::U16 => if f@ <= u16::MAX {
                ParseStep::Done(ParsedView::U16(f@ as u16), r)
            } else {
                ParseStep::Failed(r)
            },
            DojoPrimitive::U32 => if f@ <= u32::MAX {
                ParseStep::Done(ParsedView::U32(f@ as u32), r)
            } else {
                ParseStep::Failed(r)
            },
            DojoPrimitive::U64 => if f@ <= u64::MAX {
                ParseStep::Done(ParsedView::U64(f@ as u64), r)
            } else {
                ParseStep::Failed(r)
            },
            DojoPrimitive::U128 => if f@ <= u128::MAX {
                ParseStep::Done(ParsedView::U128(f@ as u128), r)
            } else {
                ParseStep::Failed(r)
            },
            DojoPrimitive::U256 => if f@ > u128::MAX {
                ParseStep::Failed(r)
            } else {
                match read_bounded(r, u128::MAX as nat) {
                    ParseStep::Done(high, r2) => ParseStep::Done(
                        ParsedView::U256(U256 { low: f@ as u128, high: high as u128 }),
                        r2,
                    ),
                    ParseStep::Failed(r2) => ParseStep::Failed(r2),
                    ParseStep::Aborted => ParseStep::Aborted,
                }
            },
            DojoPrimitive::I8 => if f@ <= i8::MAX {
                ParseStep::Done(ParsedView::I8(f@ as i8), r)
            } else {
                ParseStep::Failed(r)
            },
            DojoPrimitive::I16 => if f@ <= i16::MAX {
                ParseStep::Done(ParsedView::I16(f@ as i16), r)
            } else {
                ParseStep::Failed(r)
            },
            DojoPrimitive::I32 => if f@ <= i32::MAX {
                ParseStep::Done(ParsedView::I32(f@ as i32), r)
            } else {
                ParseStep::Failed(r)
            },
            DojoPrimitive::I64 => if f@ <= i64::MAX {
                ParseStep::Done(ParsedView::I64(f@ as i64), r)
            } else {
                ParseStep::Failed(r)
            },
            DojoPrimitive::I128 => if f@ <= i128::MAX {
                ParseStep::Done(ParsedView::I128(f@ as i128), r)
            } else {
                ParseStep::Failed(r)
            },
            DojoPrimitive::Felt252 => ParseStep::Done(ParsedView::Felt252(f), r),
            DojoPrimitive::ClassHash => ParseStep::Done(ParsedView::ClassHash(f), r),
            DojoPrimitive::ContractAddress => ParseStep::Done(ParsedView::ContractAddress(f), r),
            DojoPrimitive::EthAddress => ParseStep::Done(ParsedView::EthAddress(f), r),
        }
    }
}

/// `n` words of at most 31 bytes each; reading stops at the first word that
/// is larger, after taking it.
pub open spec fn take_words(d: Seq<Felt>, n: nat) -> ParseStep<Seq<Felt>>
    decreases n,
{
    if n == 0 {
        ParseStep::Done(Seq::empty(), d)
    } else {
        match take_words(d, (n - 1) as nat) {
            ParseStep::Done(ws, r) => if r.len() == 0 {
                ParseStep::Failed(r)
            } else if r[0]@ > bytes31_max() {
                ParseStep::Failed(r.drop_first())
            } else {
                ParseStep::Done(ws.push(r[0]), r.drop_first())
            },
            other => other,
        }
    }
}

/// A byte array: a word count, the words, a pending word and its length,
/// read as text chunk by chunk. The full words are converted first, so a
/// full word that is not UTF-8 fails the read; once they all convert, a
/// pending length above 32 panics.
pub open spec fn parse_byte_array(d: Seq<Felt>) -> ParseStep<ParsedView> {
    match take_usize(d) {
        (None, r) => ParseStep::Failed(r),
        (Some(n), d1) => match take_words(d1, n) {
            ParseStep::Done(words, d2) => if d2.len() == 0 {
                ParseStep::Failed(d2)
            } else {
                let pending = d2[0];
                match take_usize(d2.drop_first()) {
                    (None, r) => ParseStep::Failed(r),
                    (Some(plen), r) => if plen > 32 {
                        if chunks_text(word_chunks(words, pending, 0)) is Some {
                            ParseStep::Aborted
                        } else {
                            ParseStep::Failed(r)
                        }
                    } else {
                        match chunks_text(word_chunks(words, pending, plen)) {
                            Some(t) => ParseStep::Done(ParsedView::ByteArray(t), r),
                            None => ParseStep::Failed(r),
                        }
                    },
                }
            },
            ParseStep::Failed(r) => ParseStep::Failed(r),
            ParseStep::Aborted => ParseStep::Aborted,
        },
    }
}

/// A value of type `t` at the front of `d`.
pub open spec fn parse_value(t: TyView, d: Seq<Felt>) -> ParseStep<ParsedView>
    decreases t, 0nat,
{
    match t {
        TyView::Unit => ParseStep::Done(ParsedView::Unit, d),
        TyView::Primitive(p) => parse_primitive(p, d),
        TyView::Struct(s) => match parse_struct_value(s, d) {
            ParseStep::Done(v, r) => ParseStep::Done(ParsedView::Struct(v), r),
            ParseStep::Failed(r) => ParseStep::Failed(r),
            ParseStep::Aborted => ParseStep::Aborted,
        },
        TyView::Enum(e) => match parse_enum_value(e, d) {
            ParseStep::Done(v, r) => ParseStep::Done(ParsedView::Enum(Box::new(v)), r),
            ParseStep::Failed(r) => ParseStep::Failed(r),
            ParseStep::Aborted => ParseStep::Aborted,
        },
        TyView::Tuple(ts) => match parse_values(ts, d) {
            ParseStep::Done(vs, r) => ParseStep::Done(ParsedView::Tuple(vs), r),
            ParseStep::Failed(r) => ParseStep::Failed(r),
            ParseStep::Aborted => ParseStep::Aborted,
        },
        TyView::Array(b) => match take_usize(d) {
            (None, r) => ParseStep::Failed(r),
            (Some(n), d1) => match parse_repeated(*b, n, d1) {
                ParseStep::Done(vs, r) => ParseStep::Done(ParsedView::Array(vs), r),
                ParseStep::Failed(r) => ParseStep::Failed(r),
                ParseStep::Aborted => ParseStep::Aborted,
            },
        },
        TyView::ByteArray => parse_byte_array(d),
        TyView::FixedArray(b, n) => match parse_repeated(*b, n as nat, d) {
            ParseStep::Done(vs, r) => ParseStep::Done(ParsedView::FixedArray(vs), r),
            ParseStep::Failed(r) => ParseStep::Failed(r),
            ParseStep::Aborted => ParseStep::Aborted,
        },
    }
}

/// `n` values of type `t`, one after the other.
pub open spec fn parse_repeated(t: TyView, n: nat, d: Seq<Felt>) -> ParseStep<Seq<ParsedView>>
    decreases t, n + 1,
{
    if n == 0 {
        ParseStep::Done(Seq::empty(), d)
    } else {
        match parse_repeated(t, (n - 1) as nat, d) {
            ParseStep::Done(vs, r) => match parse_value(t, r) {
                ParseStep::Done(v, r2) => ParseStep::Done(vs.push(v), r2),
                ParseStep::Failed(r2) => ParseStep::Failed(r2),
                ParseStep::Aborted => ParseStep::Aborted,
            },
            ParseStep::Failed(r) => ParseStep::Failed(r),
            ParseStep::Aborted => ParseStep::Aborted,
        }
    }
}

/// One value of each type of `ts`, in order.
pub open spec fn parse_values(ts: Seq<TyView>, d: Seq<Felt>) -> ParseStep<Seq<ParsedView>>
    decreases ts, 0nat,
{
    if ts.len() == 0 {
        ParseStep::Done(Seq::empty(), d)
    } else {
        match parse_values(ts.drop_last(), d) {
            ParseStep::Done(vs, r) => match parse_value(ts.last(), r) {
                ParseStep::Done(v, r2) => ParseStep::Done(vs.push(v), r2),
                ParseStep::Failed(r2) => ParseStep::Failed(r2),
                ParseStep::Aborted => ParseStep::Aborted,
            },
            ParseStep::Failed(r) => ParseStep::Failed(r),
            ParseStep::Aborted => ParseStep::Aborted,
        }
    }
}

/// A struct value: its members' values in order, named by the decimal text
/// of the definition's felts.
pub open spec fn parse_struct_value(s: StructTyView, d: Seq<Felt>) -> ParseStep<StructView>
    decreases s, 0nat,
{
    match parse_member_values(s.children, d) {
        ParseStep::Done(ms, r) => ParseStep::Done(
            StructView {
                name: decimal_chars(s.name@),
                attrs: decimal_texts(s.attrs),
                children: ms,
            },
            r,
        ),
        ParseStep::Failed(r) => ParseStep::Failed(r),
        ParseStep::Aborted => ParseStep::Aborted,
    }
}

/// The values of members, in order.
pub open spec fn parse_member_values(ms: Seq<MemberTyView>, d: Seq<Felt>) -> ParseStep<
    Seq<MemberView>,
>
    decreases ms, 0nat,
{
    if ms.len() == 0 {
        ParseStep::Done(Seq::empty(), d)
    } else {
        match parse_member_values(ms.drop_last(), d) {
            ParseStep::Done(vs, r) => match parse_member_value(ms.last(), r) {
                ParseStep::Done(v, r2) => ParseStep::Done(vs.push(v), r2),
                ParseStep::Failed(r2) => ParseStep::Failed(r2),
                ParseStep::Aborted => ParseStep::Aborted,
            },
            ParseStep::Failed(r) => ParseStep::Failed(r),
            ParseStep::Aborted => ParseStep::Aborted,
        }
    }
}

/// A member's value.
pub open spec fn parse_member_value(m: MemberTyView, d: Seq<Felt>) -> ParseStep<MemberView>
    decreases m, 0nat,
{
    match parse_value(m.ty, d) {
        ParseStep::Done(v, r) => ParseStep::Done(
            MemberView { name: decimal_chars(m.name@), attrs: decimal_texts(m.attrs), value: v },
            r,
        ),
        ParseStep::Failed(r) => ParseStep::Failed(r),
        ParseStep::Aborted => ParseStep::Aborted,
    }
}

/// The payload of the first variant whose selector is `key`, with the
/// variant's name; no such variant fails.
pub open spec fn parse_variant_value(vs: Seq<(nat, VariantTyView)>, key: nat, d: Seq<Felt>) -> ParseStep<
    (Seq<char>, ParsedView),
>
    decreases vs, 0nat,
{
    if vs.len() == 0 {
        ParseStep::Failed(d)
    } else if vs[0].0 == key {
        match parse_value(vs[0].1.ty, d) {
            ParseStep::Done(v, r) => ParseStep::Done((vs[0].1.name, v), r),
            ParseStep::Failed(r) => ParseStep::Failed(r),
            ParseStep::Aborted => ParseStep::Aborted,
        }
    } else {
        parse_variant_value(vs.drop_first(), key, d)
    }
}

/// An enum value: a selector felt, then the payload of its variant.
pub open spec fn parse_enum_value(e: EnumTyView, d: Seq<Felt>) -> ParseStep<EnumView>
    decreases e, 0nat,
{
    if d.len() == 0 {
        ParseStep::Failed(d)
    } else {
        match parse_variant_value(e.variants, d[0]@, d.drop_first()) {
            ParseStep::Done((variant, v), r) => ParseStep::Done(
                EnumView {
                    name: decimal_chars(e.name@),
                    attrs: decimal_texts(e.attrs),
                    variant,
                    value: v,
                },
                r,
            ),
            ParseStep::Failed(r) => ParseStep::Failed(r),
            ParseStep::Aborted => ParseStep::Aborted,
        }
    }
}


pub open spec fn parsed_step_holds(step: ParseStep<ParsedView>, r: Option<Parsed>, rest: Seq<Felt>) -> bool {
    match step {
        ParseStep::Done(v, d) => r matches Some(p) && p.view() == v && rest == d,
        ParseStep::Failed(d) => r is None && rest == d,
        ParseStep::Aborted => false,
    }
}

pub open spec fn parsed_seq_step_holds(
    step: ParseStep<Seq<ParsedView>>,
    r: Option<Vec<Parsed>>,
    rest: Seq<Felt>,
) -> bool {
    match step {
        ParseStep::Done(v, d) => r matches Some(p) && parsed_seq_view(p@) == v && rest == d,
        ParseStep::Failed(d) => r is None && rest == d,
        ParseStep::Aborted => false,
    }
}

pub open spec fn struct_step_holds(step: ParseStep<StructView>, r: Option<Struct>, rest: Seq<Felt>) -> bool {
    match step {
        ParseStep::Done(v, d) => r matches Some(p) && p.view() == v && rest == d,
        ParseStep::Failed(d) => r is None && rest == d,
        ParseStep::Aborted => false,
    }
}

pub open spec fn member_step_holds(step: ParseStep<MemberView>, r: Option<Member>, rest: Seq<Felt>) -> bool {
    match step {
        ParseStep::Done(v, d) => r matches Some(p) && p.view() == v && rest == d,
        ParseStep::Failed(d) => r is None && rest == d,
        ParseStep::Aborted => false,
    }
}

pub open spec fn enum_step_holds(step: ParseStep<EnumView>, r: Option<Enum>, rest: Seq<Felt>) -> bool {
    match step {
        ParseStep::Done(v, d) => r matches Some(p) && p.view() == v && rest == d,
        ParseStep::Failed(d) => r is None && rest == d,
        ParseStep::Aborted => false,
    }
}

proof fn lemma_tys_view_index(s: Seq<DojoTy>)
    ensures
        tys_view(s).len() == s.len(),
        forall|i: int| 0 <= i < s.len() ==> #[trigger] tys_view(s)[i] == s[i].view(),
    decreases s.len(),
{
    if s.len() > 0 {
        lemma_tys_view_index(s.drop_last());
    }
}

proof fn lemma_member_tys_view_index(s: Seq<DojoMember>)
    ensures
        member_tys_view(s).len() == s.len(),
        forall|i: int| 0 <= i < s.len() ==> #[trigger] member_tys_view(s)[i] == s[i].view(),
    decreases s.len(),
{
    if s.len() > 0 {
        lemma_member_tys_view_index(s.drop_last());
    }
}

proof fn lemma_variant_tys_view_index(s: Seq<(Felt, DojoVariant)>)
    ensures
        variant_tys_view(s).len() == s.len(),
        forall|i: int|
            0 <= i < s.len() ==> #[trigger] variant_tys_view(s)[i] == (s[i].0@, s[i].1.view()),
    decreases s.len(),
{
    if s.len() > 0 {
        lemma_variant_tys_view_index(s.drop_last());
    }
}

/// A read of repeated values that has stopped stays stopped.
proof fn lemma_repeated_stuck(t: TyView, i: nat, n: nat, d: Seq<Felt>)
    requires
        i <= n,
        !(parse_repeated(t, i, d) is Done),
    ensures
        parse_repeated(t, n, d) == parse_repeated(t, i, d),
    decreases n - i,
{
    if i < n {
        lemma_repeated_stuck(t, i, (n - 1) as nat, d);
    }
}

/// A read of a prefix of a tuple that has stopped stops the whole tuple.
proof fn lemma_values_stuck(ts: Seq<TyView>, i: int, d: Seq<Felt>)
    requires
        0 <= i <= ts.len(),
        !(parse_values(ts.take(i), d) is Done),
    ensures
        parse_values(ts, d) == parse_values(ts.take(i), d),
    decreases ts.len() - i,
{
    if i == ts.len() {
        assert(ts.take(i) =~= ts);
    } else {
        assert(ts.drop_last().take(i) =~= ts.take(i));
        lemma_values_stuck(ts.drop_last(), i, d);
    }
}

/// A read of a prefix of a struct's members that has stopped stops the struct.
proof fn lemma_member_values_stuck(ms: Seq<MemberTyView>, i: int, d: Seq<Felt>)
    requires
        0 <= i <= ms.len(),
        !(parse_member_values(ms.take(i), d) is Done),
    ensures
        parse_member_values(ms, d) == parse_member_values(ms.take(i), d),
    decreases ms.len() - i,
{
    if i == ms.len() {
        assert(ms.take(i) =~= ms);
    } else {
        assert(ms.drop_last().take(i) =~= ms.take(i));
        lemma_member_values_stuck(ms.drop_last(), i, d);
    }
}

/// A read of words that has stopped stays stopped.
proof fn lemma_words_stuck(d: Seq<Felt>, i: nat, n: nat)
    requires
        i <= n,
        !(take_words(d, i) is Done),
    ensures
        take_words(d, n) == take_words(d, i),
    decreases n - i,
{
    if i < n {
        lemma_words_stuck(d, i, (n - 1) as nat);
    }
}

/// Finding the variant with a selector among those from position `j` on.
proof fn lemma_variant_value_skip(vs: Seq<(nat, VariantTyView)>, j: int, key: nat, d: Seq<Felt>)
    requires
        0 <= j < vs.len(),
        vs[j].0 != key,
    ensures
        parse_variant_value(vs.skip(j), key, d) == parse_variant_value(vs.skip(j + 1), key, d),
{
    assert(vs.skip(j).drop_first() =~= vs.skip(j + 1));
}

/// The decimal texts of a sequence of felts.
fn felts_decimal(fs: &Vec<Felt>) -> (r: Vec<String>)
    ensures
        strings_view(r@) == decimal_texts(fs@),
{
    let mut out: Vec<String> = Vec::new();
    let mut i: usize = 0;
    while i < fs.len()
        invariant
            i <= fs.len(),
            strings_view(out@) =~= decimal_texts(fs@.take(i as int)),
        decreases fs.len() - i,
    {
        let s = felt_decimal(&fs[i]);
        out.push(s);
        i += 1;
        assert(decimal_texts(fs@.take(i as int)) =~= decimal_texts(fs@.take(i - 1)).push(
            decimal_chars(fs@[i - 1]@),
        ));
    }
    assert(fs@.take(fs@.len() as int) =~= fs@);
    out
}

/// Reads one felt no larger than `u128::MAX`.
fn pop_u128(data: &mut VecDeque<Felt>) -> (r: Option<u128>)
    ensures
        match read_bounded(old(data)@, u128::MAX as nat) {
            ParseStep::Done(v, d) => r == Some(v as u128) && final(data)@ == d,
            ParseStep::Failed(d) => r is None && final(data)@ == d,
            ParseStep::Aborted => false,
        },
{
    let f = data.pop_front()?;
    proof {
        assert(old(data)@.drop_first() =~= data@);
    }
    f.to_u128()
}

/// Reads a primitive value.
pub fn parse_primitive_value(p: &DojoPrimitive, data: &mut VecDeque<Felt>) -> (r: Option<Parsed>)
    ensures
        parsed_step_holds(parse_primitive(*p, old(data)@), r, final(data)@),
{
    let f = data.pop_front()?;
    proof {
        assert(old(data)@.drop_first() =~= data@);
    }
    match p {
        DojoPrimitive::Bool => Some(Parsed::Bool(!f.is_zero())),
        DojoPrimitive::U8 => match f.to_u8() {
            Some(v) => Some(Parsed::U8(v)),
            None => None,
        },
        DojoPrimitive::U16 => match f.to_u16() {
            Some(v) => Some(Parsed::U16(v)),
            None => None,
        },
        DojoPrimitive::U32 => match f.to_u32() {
            Some(v) => Some(Parsed::U32(v)),
            None => None,
        },
        DojoPrimitive::U64 => match f.to_u64() {
            Some(v) => Some(Parsed::U64(v)),
            None => None,
        },
        DojoPrimitive::U128 => match f.to_u128() {
            Some(v) => Some(Parsed::U128(v)),
            None => None,
        },
        DojoPrimitive::U256 => {
            let low = f.to_u128()?;
            let high = pop_u128(data)?;
            Some(Parsed::U256(U256 { low, high }))
        },
        DojoPrimitive::I8 => match f.to_i8() {
            Some(v) => Some(Parsed::I8(v)),
            None => None,
        },
        DojoPrimitive::I16 => match f.to_i16() {
            Some(v) => Some(Parsed::I16(v)),
            None => None,
        },
        DojoPrimitive::I32 => match f.to_i32() {
            Some(v) => Some(Parsed::I32(v)),
            None => None,
        },
        DojoPrimitive::I64 => match f.to_i64() {
            Some(v) => Some(Parsed::I64(v)),
            None => None,
        },
        DojoPrimitive::I128 => match f.to_i128() {
            Some(v) => Some(Parsed::I128(v)),
            None => None,
        },
        DojoPrimitive::Felt252 => Some(Parsed::Felt252(f)),
        DojoPrimitive::ClassHash => Some(Parsed::ClassHash(f)),
        DojoPrimitive::ContractAddress => Some(Parsed::ContractAddress(f)),
        DojoPrimitive::EthAddress => Some(Parsed::EthAddress(f)),
    }
}

/// Reads a byte array value; a pending length above 32 is excluded, as the
/// text conversion panics on it.
#[verifier::loop_isolation(false)]
pub fn parse_byte_array_value(data: &mut VecDeque<Felt>) -> (r: Option<Parsed>)
    requires
        !(parse_byte_array(old(data)@) is Aborted),
    ensures
        parsed_step_holds(parse_byte_array(old(data)@), r, final(data)@),
{
    let len = pop_usize(data)?;
    let ghost d1 = data@;
    let mut words: Vec<Felt> = Vec::new();
    let mut i: usize = 0;
    while i < len
        invariant
            i <= len,
            take_words(d1, i as nat) == ParseStep::Done(words@, data@),
            forall|k: int| 0 <= k < words@.len() ==> #[trigger] words@[k]@ <= bytes31_max(),
        decreases len - i,
    {
        let ghost before = data@;
        let w = match data.pop_front() {
            Some(w) => w,
            None => {
                proof {
                    lemma_words_stuck(d1, (i + 1) as nat, len as nat);
                }
                return None;
            },
        };
        proof {
            assert(before.drop_first() =~= data@);
        }
        if !w.fits_31_bytes() {
            proof {
                lemma_words_stuck(d1, (i + 1) as nat, len as nat);
            }
            return None;
        }
        words.push(w);
        i += 1;
    }
    let ghost d2 = data@;
    let pending = data.pop_front()?;
    proof {
        assert(d2.drop_first() =~= data@);
    }
    let plen = pop_usize(data)?;
    if plen > 32 {
        // The full words are converted before the pending word is sliced;
        // the precondition says that one of them is not UTF-8.
        let full = byte_array_words_text(words.as_slice(), &pending, 0);
        proof {
            assert(full is None);
        }
        return None;
    }
    match byte_array_words_text(words.as_slice(), &pending, plen) {
        Some(s) => Some(Parsed::ByteArray(s)),
        None => None,
    }
}

/// Reads `size` values of one type.
#[verifier::loop_isolation(false)]
pub fn parse_array_internal(ty: &DojoTy, size: usize, data: &mut VecDeque<Felt>) -> (r: Option<Vec<Parsed>>)
    requires
        !(parse_repeated(ty.view(), size as nat, old(data)@) is Aborted),
    ensures
        parsed_seq_step_holds(parse_repeated(ty.view(), size as nat, old(data)@), r, final(data)@),
    decreases ty, 1nat,
{
    let ghost d0 = data@;
    let mut elements: Vec<Parsed> = Vec::new();
    let mut i: usize = 0;
    while i < size
        invariant
            i <= size,
            parse_repeated(ty.view(), i as nat, d0) == ParseStep::Done(parsed_seq_view(elements@), data@),
        decreases size - i,
    {
        proof {
            if parse_value(ty.view(), data@) is Aborted {
                lemma_repeated_stuck(ty.view(), (i + 1) as nat, size as nat, d0);
            }
        }
        let ghost prev = elements@;
        let v = match parse_ty(ty, data) {
            Some(v) => v,
            None => {
                proof {
                    lemma_repeated_stuck(ty.view(), (i + 1) as nat, size as nat, d0);
                }
                return None;
            },
        };
        elements.push(v);
        proof {
            assert(elements@.drop_last() =~= prev);
        }
        i += 1;
    }
    Some(elements)
}

/// Reads an array value: a length, then that many values.
pub fn parse_array(ty: &DojoTy, data: &mut VecDeque<Felt>) -> (r: Option<Vec<Parsed>>)
    requires
        !(parse_value(TyView::Array(Box::new(ty.view())), old(data)@) is Aborted),
    ensures
        match parse_value(TyView::Array(Box::new(ty.view())), old(data)@) {
            ParseStep::Done(ParsedView::Array(vs), d) => r matches Some(p) && parsed_seq_view(p@) == vs
                && final(data)@ == d,
            ParseStep::Failed(d) => r is None && final(data)@ == d,
            _ => false,
        },
    decreases ty, 2nat,
{
    let len = pop_usize(data)?;
    parse_array_internal(ty, len, data)
}

/// Reads a fixed array value: `size` values.
pub fn parse_fixed_array(ty: &DojoTy, size: usize, data: &mut VecDeque<Felt>) -> (r: Option<Vec<Parsed>>)
    requires
        !(parse_repeated(ty.view(), size as nat, old(data)@) is Aborted),
    ensures
        parsed_seq_step_holds(parse_repeated(ty.view(), size as nat, old(data)@), r, final(data)@),
    decreases ty, 2nat,
{
    parse_array_internal(ty, size, data)
}

/// Reads a tuple value: one value of each element type, in order.
#[verifier::loop_isolation(false)]
pub fn parse_tuple(tys: &Vec<DojoTy>, data: &mut VecDeque<Felt>) -> (r: Option<Parsed>)
    requires
        !(parse_values(tys_view(tys@), old(data)@) is Aborted),
    ensures
        match parse_values(tys_view(tys@), old(data)@) {
            ParseStep::Done(vs, d) => r matches Some(p) && p.view() == ParsedView::Tuple(vs)
                && final(data)@ == d,
            ParseStep::Failed(d) => r is None && final(data)@ == d,
            ParseStep::Aborted => false,
        },
    decreases tys, 1nat,
{
    let ghost d0 = data@;
    let ghost ts = tys_view(tys@);
    proof {
        lemma_tys_view_index(tys@);
        assert(ts.take(0) =~= Seq::<TyView>::empty());
    }
    let mut elements: Vec<Parsed> = Vec::new();
    let mut i: usize = 0;
    while i < tys.len()
        invariant
            i <= tys.len(),
            parse_values(ts.take(i as int), d0) == ParseStep::Done(parsed_seq_view(elements@), data@),
        decreases tys.len() - i,
    {
        proof {
            assert(ts.take(i + 1).drop_last() =~= ts.take(i as int));
            assert(ts.take(i + 1).last() == tys@[i as int].view());
            if parse_value(tys@[i as int].view(), data@) is Aborted {
                lemma_values_stuck(ts, i + 1, d0);
            }
        }
        let ghost prev = elements@;
        let v = match parse_ty(&tys[i], data) {
            Some(v) => v,
            None => {
                proof {
                    lemma_values_stuck(ts, i + 1, d0);
                }
                return None;
            },
        };
        elements.push(v);
        proof {
            assert(elements@.drop_last() =~= prev);
        }
        i += 1;
    }
    proof {
        assert(ts.take(tys.len() as int) =~= ts);
    }
    Some(Parsed::Tuple(elements))
}

/// Reads a member value.
pub fn parse_member(m: &DojoMember, data: &mut VecDeque<Felt>) -> (r: Option<Member>)
    requires
        !(parse_member_value(m.view(), old(data)@) is Aborted),
    ensures
        member_step_holds(parse_member_value(m.view(), old(data)@), r, final(data)@),
    decreases m, 1nat,
{
    let name = felt_decimal(&m.name);
    let attrs = felts_decimal(&m.attrs);
    let value = parse_ty(&m.ty, data)?;
    Some(Member { name, attrs, value })
}

/// Reads a struct value: its members' values in order.
#[verifier::loop_isolation(false)]
pub fn parse_struct(st: &DojoStruct, data: &mut VecDeque<Felt>) -> (r: Option<Struct>)
    requires
        !(parse_struct_value(st.view(), old(data)@) is Aborted),
    ensures
        struct_step_holds(parse_struct_value(st.view(), old(data)@), r, final(data)@),
    decreases st, 1nat,
{
    let ghost d0 = data@;
    let ghost ms = member_tys_view(st.children@);
    proof {
        lemma_member_tys_view_index(st.children@);
        assert(ms.take(0) =~= Seq::<MemberTyView>::empty());
    }
    let name = felt_decimal(&st.name);
    let attrs = felts_decimal(&st.attrs);
    let mut children: Vec<Member> = Vec::new();
    let mut i: usize = 0;
    while i < st.children.len()
        invariant
            i <= st.children.len(),
            parse_member_values(ms.take(i as int), d0) == ParseStep::Done(members_view(children@), data@),
        decreases st.children.len() - i,
    {
        proof {
            assert(ms.take(i + 1).drop_last() =~= ms.take(i as int));
            assert(ms.take(i + 1).last() == st.children@[i as int].view());
            if parse_member_value(st.children@[i as int].view(), data@) is Aborted {
                lemma_member_values_stuck(ms, i + 1, d0);
            }
        }
        let ghost prev = children@;
        let m = match parse_member(&st.children[i], data) {
            Some(m) => m,
            None => {
                proof {
                    lemma_member_values_stuck(ms, i + 1, d0);
                }
                return None;
            },
        };
        children.push(m);
        proof {
            assert(children@.drop_last() =~= prev);
        }
        i += 1;
    }
    proof {
        assert(ms.take(st.children.len() as int) =~= ms);
    }
    Some(Struct { name, attrs, children })
}

/// Reads an enum value: a selector, then the payload of the variant with
/// that selector; an unknown selector fails.
#[verifier::loop_isolation(false)]
pub fn parse_enum(en: &DojoEnum, data: &mut VecDeque<Felt>) -> (r: Option<Enum>)
    requires
        !(parse_enum_value(en.view(), old(data)@) is Aborted),
    ensures
        enum_step_holds(parse_enum_value(en.view(), old(data)@), r, final(data)@),
    decreases en, 1nat,
{
    let ghost vs = variant_tys_view(en.variants@);
    proof {
        lemma_variant_tys_view_index(en.variants@);
        assert(vs.skip(0) =~= vs);
    }
    let selector = data.pop_front()?;
    proof {
        assert(old(data)@.drop_first() =~= data@);
    }
    let mut j: usize = 0;
    let mut found = false;
    while j < en.variants.len() && !found
        invariant
            j <= en.variants.len(),
            found ==> j < en.variants.len() && en.variants@[j as int].0 == selector,
            parse_variant_value(vs, selector@, data@) == parse_variant_value(vs.skip(j as int), selector@, data@),
        decreases en.variants.len() - j, if found { 0nat } else { 1nat },
    {
        if en.variants[j].0 == selector {
            found = true;
        } else {
            proof {
                Felt::lemma_value_injective(en.variants@[j as int].0, selector);
                lemma_variant_value_skip(vs, j as int, selector@, data@);
            }
            j += 1;
        }
    }
    if j == en.variants.len() {
        proof {
            assert(vs.skip(j as int) =~= Seq::<(nat, VariantTyView)>::empty());
        }
        return None;
    }
    proof {
        assert(vs.skip(j as int)[0] == vs[j as int]);
    }
    let name = felt_decimal(&en.name);
    let attrs = felts_decimal(&en.attrs);
    let variant = en.variants[j].1.name.clone();
    let value = parse_ty(&en.variants[j].1.ty, data)?;
    Some(Enum { name, attrs, variant, value })
}

/// Reads a value of a type definition. A byte array whose pending length
/// passes 32 is excluded: the text conversion panics on it.
pub fn parse_ty(ty: &DojoTy, data: &mut VecDeque<Felt>) -> (r: Option<Parsed>)
    requires
        !(parse_value(ty.view(), old(data)@) is Aborted),
    ensures
        parsed_step_holds(parse_value(ty.view(), old(data)@), r, final(data)@),
    decreases ty, 0nat,
{
    match ty {
        DojoTy::Unit => Some(Parsed::Unit),
        DojoTy::Primitive(p) => parse_primitive_value(p, data),
        DojoTy::Struct(s) => match parse_struct(s, data) {
            Some(v) => Some(Parsed::Struct(v)),
            None => None,
        },
        DojoTy::Enum(e) => match parse_enum(e, data) {
            Some(v) => Some(Parsed::Enum(Box::new(v))),
            None => None,
        },
        DojoTy::Tuple(tys) => parse_tuple(tys, data),
        DojoTy::Array(t) => match parse_array(t, data) {
            Some(v) => Some(Parsed::Array(v)),
            None => None,
        },
        DojoTy::ByteArray => parse_byte_array_value(data),
        DojoTy::FixedArray(p) => match parse_fixed_array(&p.0, p.1 as usize, data) {
            Some(v) => Some(Parsed::FixedArray(v)),
            None => None,
        },
    }
}

impl Parse for DojoPrimitive {
    type Parsed = Parsed;

    open spec fn parse_readable(&self, data: Seq<Felt>) -> bool {
        true
    }

    fn parse(&self, data: &mut VecDeque<Felt>) -> (r: Option<Parsed>)
        ensures
            parsed_step_holds(parse_primitive(*self, old(data)@), r, final(data)@),
    {
        parse_primitive_value(self, data)
    }
}

impl Parse for DojoStruct {
    type Parsed = Struct;

    open spec fn parse_readable(&self, data: Seq<Felt>) -> bool {
        !(parse_struct_value(self.view(), data) is Aborted)
    }

    fn parse(&self, data: &mut VecDeque<Felt>) -> (r: Option<Struct>)
        ensures
            struct_step_holds(parse_struct_value(self.view(), old(data)@), r, final(data)@),
    {
        parse_struct(self, data)
    }
}

impl Parse for DojoEnum {
    type Parsed = Enum;

    open spec fn parse_readable(&self, data: Seq<Felt>) -> bool {
        !(parse_enum_value(self.view(), data) is Aborted)
    }

    fn parse(&self, data: &mut VecDeque<Felt>) -> (r: Option<Enum>)
        ensures
            enum_step_holds(parse_enum_value(self.view(), old(data)@), r, final(data)@),
    {
        parse_enum(self, data)
    }
}

impl Parse for DojoMember {
    type Parsed = Member;

    open spec fn parse_readable(&self, data: Seq<Felt>) -> bool {
        !(parse_member_value(self.view(), data) is Aborted)
    }

    fn parse(&self, data: &mut VecDeque<Felt>) -> (r: Option<Member>)
        ensures
            member_step_holds(parse_member_value(self.view(), old(data)@), r, final(data)@),
    {
        parse_member(self, data)
    }
}

impl Parse for DojoTy {
    type Parsed = Parsed;

    open spec fn parse_readable(&self, data: Seq<Felt>) -> bool {
        !(parse_value(self.view(), data) is Aborted)
    }

    fn parse(&self, data: &mut VecDeque<Felt>) -> (r: Option<Parsed>)
        ensures
            parsed_step_holds(parse_value(self.view(), old(data)@), r, final(data)@),
    {
        parse_ty(self, data)
    }
}

proof fn lemma_variants_selectors(d: Seq<Felt>, n: nat, legacy: bool)
    ensures
        deser_variants(d, n, legacy).0 matches Some(vs) ==> vs.len() == n && forall|i: int|
            0 <= i < n ==> (#[trigger] vs[i]).0 == variant_selector(i as nat, legacy),
    decreases n,
{
    if n > 0 {
        lemma_variants_selectors(d, (n - 1) as nat, legacy);
    }
}

/// The variants of an enum type are keyed by their position: from 0 in the
/// legacy layout, from 1 otherwise.
pub proof fn law_enum_ty_variant_selectors(d: Seq<Felt>, legacy: bool)
    ensures
        deser_enum(d, legacy).0 matches Some(e) ==> forall|i: int|
            0 <= i < e.variants.len() ==> (#[trigger] e.variants[i]).0 == if legacy {
                i
            } else {
                i + 1
            },
{
    if d.len() > 0 {
        if let (Some(n), d2) = take_usize(d.drop_first()) {
            if let (Some(_attrs), d3) = take_felts(d2, n) {
                if let (Some(m), d4) = take_usize(d3) {
                    lemma_variants_selectors(d4, m, legacy);
                }
            }
        }
    }
}

// ---------------------------------------------------------------------------
// The two layouts of enum selectors.
// ---------------------------------------------------------------------------

/// `t` with every enum variant, nested ones included, keyed one higher.
pub open spec fn shift_ty(t: TyView) -> TyView
    decreases t,
{
    match t {
        TyView::Struct(s) => TyView::Struct(shift_struct(s)),
        TyView::Enum(e) => TyView::Enum(shift_enum(e)),
        TyView::Tuple(ts) => TyView::Tuple(shift_tys(ts)),
        TyView::Array(b) => TyView::Array(Box::new(shift_ty(*b))),
        TyView::FixedArray(b, n) => TyView::FixedArray(Box::new(shift_ty(*b)), n),
        _ => t,
    }
}

pub open spec fn shift_tys(s: Seq<TyView>) -> Seq<TyView>
    decreases s,
{
    if s.len() == 0 {
        Seq::empty()
    } else {
        shift_tys(s.drop_last()).push(shift_ty(s.last()))
    }
}

pub open spec fn shift_struct(s: StructTyView) -> StructTyView
    decreases s,
{
    StructTyView { name: s.name, attrs: s.attrs, children: shift_members(s.children) }
}

pub open spec fn shift_members(s: Seq<MemberTyView>) -> Seq<MemberTyView>
    decreases s,
{
    if s.len() == 0 {
        Seq::empty()
    } else {
        shift_members(s.drop_last()).push(shift_member(s.last()))
    }
}

pub open spec fn shift_member(m: MemberTyView) -> MemberTyView
    decreases m,
{
    MemberTyView { name: m.name, attrs: m.attrs, ty: shift_ty(m.ty) }
}

/// The enum with each variant keyed one higher and its type shifted alike.
pub open spec fn shift_enum(e: EnumTyView) -> EnumTyView
    decreases e,
{
    EnumTyView { name: e.name, attrs: e.attrs, variants: shift_variants(e.variants) }
}

pub open spec fn shift_variants(s: Seq<(nat, VariantTyView)>) -> Seq<(nat, VariantTyView)>
    decreases s,
{
    if s.len() == 0 {
        Seq::empty()
    } else {
        shift_variants(s.drop_last()).push((s.last().0 + 1, shift_variant(s.last().1)))
    }
}

pub open spec fn shift_variant(v: VariantTyView) -> VariantTyView
    decreases v,
{
    VariantTyView { name: v.name, ty: shift_ty(v.ty) }
}

proof fn lemma_shift_ty(d: Seq<Felt>)
    ensures
        deser_ty(d, false).1 == deser_ty(d, true).1,
        deser_ty(d, false).0 == match deser_ty(d, true).0 {
            Some(t) => Some(shift_ty(t)),
            None => None,
        },
    decreases d.len(), 0nat,
{
    if d.len() > 0 && d[0]@ <= u32::MAX {
        let d1 = d.drop_first();
        let kind = d[0]@;
        if kind == 1 {
            lemma_shift_struct(d1);
        } else if kind == 2 {
            lemma_shift_enum(d1);
        } else if kind == 3 {
            lemma_shift_tuple(d1);
        } else if kind == 4 {
            lemma_shift_ty(skip_one(d1));
        } else if kind == 6 {
            lemma_shift_ty(skip_one(d1));
        }
    }
}

proof fn lemma_shift_struct(d: Seq<Felt>)
    ensures
        deser_struct(d, false).1 == deser_struct(d, true).1,
        deser_struct(d, false).0 == match deser_struct(d, true).0 {
            Some(t) => Some(shift_struct(t)),
            None => None,
        },
    decreases d.len(), 1nat,
{
    if d.len() > 0 {
        if let (Some(n), d2) = take_usize(d.drop_first()) {
            if let (Some(_attrs), d3) = take_felts(d2, n) {
                if let (Some(m), d4) = take_usize(d3) {
                    lemma_shift_members(d4, m);
                }
            }
        }
    }
}

proof fn lemma_shift_members(d: Seq<Felt>, n: nat)
    ensures
        deser_members(d, n, false).1 == deser_members(d, n, true).1,
        deser_members(d, n, false).0 == match deser_members(d, n, true).0 {
            Some(t) => Some(shift_members(t)),
            None => None,
        },
    decreases d.len(), n + 2,
{
    if n > 0 {
        lemma_shift_members(d, (n - 1) as nat);
        if let (Some(ms), d1) = deser_members(d, (n - 1) as nat, true) {
            lemma_shift_member(no_longer(d1, d));
            if let (Some(m), r) = deser_member(no_longer(d1, d), true) {
                assert(ms.push(m).drop_last() =~= ms);
            }
        }
    }
}

proof fn lemma_shift_member(d: Seq<Felt>)
    ensures
        deser_member(d, false).1 == deser_member(d, true).1,
        deser_member(d, false).0 == match deser_member(d, true).0 {
            Some(t) => Some(shift_member(t)),
            None => None,
        },
    decreases d.len(), 1nat,
{
    if d.len() > 0 {
        if let (Some(n), d2) = take_usize(d.drop_first()) {
            if let (Some(_attrs), d3) = take_felts(d2, n) {
                lemma_shift_ty(d3);
            }
        }
    }
}

proof fn lemma_shift_enum(d: Seq<Felt>)
    ensures
        deser_enum(d, false).1 == deser_enum(d, true).1,
        deser_enum(d, false).0 == match deser_enum(d, true).0 {
            Some(t) => Some(shift_enum(t)),
            None => None,
        },
    decreases d.len(), 1nat,
{
    if d.len() > 0 {
        if let (Some(n), d2) = take_usize(d.drop_first()) {
            if let (Some(_attrs), d3) = take_felts(d2, n) {
                if let (Some(m), d4) = take_usize(d3) {
                    lemma_shift_variants(d4, m);
                }
            }
        }
    }
}

proof fn lemma_shift_variants(d: Seq<Felt>, n: nat)
    ensures
        deser_variants(d, n, false).1 == deser_variants(d, n, true).1,
        deser_variants(d, n, false).0 == match deser_variants(d, n, true).0 {
            Some(t) => Some(shift_variants(t)),
            None => None,
        },
    decreases d.len(), n + 2,
{
    if n > 0 {
        lemma_shift_variants(d, (n - 1) as nat);
        if let (Some(vs), d1) = deser_variants(d, (n - 1) as nat, true) {
            lemma_shift_variant(no_longer(d1, d));
            if let (Some(v), r) = deser_variant(no_longer(d1, d), true) {
                let w = vs.push((variant_selector((n - 1) as nat, true), v));
                assert(w.drop_last() =~= vs);
            }
        }
    }
}

proof fn lemma_shift_variant(d: Seq<Felt>)
    ensures
        deser_variant(d, false).1 == deser_variant(d, true).1,
        deser_variant(d, false).0 == match deser_variant(d, true).0 {
            Some(t) => Some(shift_variant(t)),
            None => None,
        },
    decreases d.len(), 1nat,
{
    if d.len() > 0 {
        lemma_shift_ty(d.drop_first());
    }
}

proof fn lemma_shift_tuple(d: Seq<Felt>)
    ensures
        deser_tuple(d, false).1 == deser_tuple(d, true).1,
        deser_tuple(d, false).0 == match deser_tuple(d, true).0 {
            Some(t) => Some(shift_ty(t)),
            None => None,
        },
    decreases d.len(), 1nat,
{
    if let (Some(n), d1) = take_usize(d) {
        if n > 0 {
            lemma_shift_tys(d1, n);
        }
    }
}

proof fn lemma_shift_tys(d: Seq<Felt>, n: nat)
    ensures
        deser_tys(d, n, false).1 == deser_tys(d, n, true).1,
        deser_tys(d, n, false).0 == match deser_tys(d, n, true).0 {
            Some(t) => Some(shift_tys(t)),
            None => None,
        },
    decreases d.len(), n + 2,
{
    if n > 0 {
        lemma_shift_tys(d, (n - 1) as nat);
        if let (Some(ts), d1) = deser_tys(d, (n - 1) as nat, true) {
            lemma_shift_ty(no_longer(d1, d));
            if let (Some(t), r) = deser_ty(no_longer(d1, d), true) {
                assert(ts.push(t).drop_last() =~= ts);
            }
        }
    }
}

/// A type definition read outside the legacy layout is the one read in the
/// legacy layout with every enum variant, nested ones included, keyed one
/// higher; both reads stop at the same felt.
pub proof fn law_layouts_differ_by_shift(d: Seq<Felt>)
    ensures
        deser_ty(d, false).1 == deser_ty(d, true).1,
        deser_ty(d, false).0 == match deser_ty(d, true).0 {
            Some(t) => Some(shift_ty(t)),
            None => None,
        },
{
    lemma_shift_ty(d);
}

/// An enum read outside the legacy layout has the name, attributes and
/// variants of the legacy read, each variant keyed one higher (its type
/// shifted alike); both reads stop at the same felt.
pub proof fn law_enum_layouts_agree(d: Seq<Felt>)
    ensures
        deser_enum(d, false).1 == deser_enum(d, true).1,
        deser_enum(d, false).0 == match deser_enum(d, true).0 {
            Some(e) => Some(shift_enum(e)),
            None => None,
        },
{
    lemma_shift_enum(d);
}

/// A primitive value takes the felts at the front: an integer type reads one
/// felt as that integer exactly when its value fits the type, and fails
/// otherwise, consuming it; `bool` is true for a nonzero felt; `u256` reads
/// its low half, then its high half; the felt types keep the felt.
pub proof fn law_primitive_values(f: Felt, g: Felt, rest: Seq<Felt>)
    ensures
        parse_primitive(DojoPrimitive::Bool, seq![f] + rest) == ParseStep::Done(ParsedView::Bool(f@ != 0), rest),
        (f@ <= u8::MAX) == (parse_primitive(DojoPrimitive::U8, seq![f] + rest) matches ParseStep::Done(
            ParsedView::U8(x),
            r,
        ) && x == f@ && r == rest),
        f@ > u8::MAX ==> parse_primitive(DojoPrimitive::U8, seq![f] + rest) == ParseStep::<ParsedView>::Failed(rest),
        (f@ <= u16::MAX) == (parse_primitive(DojoPrimitive::U16, seq![f] + rest) matches ParseStep::Done(
            ParsedView::U16(x),
            r,
        ) && x == f@ && r == rest),
        f@ > u16::MAX ==> parse_primitive(DojoPrimitive::U16, seq![f] + rest) == ParseStep::<ParsedView>::Failed(rest),
        (f@ <= u32::MAX) == (parse_primitive(DojoPrimitive::U32, seq![f] + rest) matches ParseStep::Done(
            ParsedView::U32(x),
            r,
        ) && x == f@ && r == rest),
        f@ > u32::MAX ==> parse_primitive(DojoPrimitive::U32, seq![f] + rest) == ParseStep::<ParsedView>::Failed(rest),
        (f@ <= u64::MAX) == (parse_primitive(DojoPrimitive::U64, seq![f] + rest) matches ParseStep::Done(
            ParsedView::U64(x),
            r,
        ) && x == f@ && r == rest),
        f@ > u64::MAX ==> parse_primitive(DojoPrimitive::U64, seq![f] + rest) == ParseStep::<ParsedView>::Failed(rest),
        (f@ <= u128::MAX) == (parse_primitive(DojoPrimitive::U128, seq![f] + rest) matches ParseStep::Done(
            ParsedView::U128(x),
            r,
        ) && x == f@ && r == rest),
        f@ > u128::MAX ==> parse_primitive(DojoPrimitive::U128, seq![f] + rest) == ParseStep::<ParsedView>::Failed(rest),
        (f@ <= i8::MAX) == (parse_primitive(DojoPrimitive::I8, seq![f] + rest) matches ParseStep::Done(
            ParsedView::I8(x),
            r,
        ) && x == f@ && r == rest),
        f@ > i8::MAX ==> parse_primitive(DojoPrimitive::I8, seq![f] + rest) == ParseStep::<ParsedView>::Failed(rest),
        (f@ <= i16::MAX) == (parse_primitive(DojoPrimitive::I16, seq![f] + rest) matches ParseStep::Done(
            ParsedView::I16(x),
            r,
        ) && x == f@ && r == rest),
        f@ > i16::MAX ==> parse_primitive(DojoPrimitive::I16, seq![f] + rest) == ParseStep::<ParsedView>::Failed(rest),
        (f@ <= i32::MAX) == (parse_primitive(DojoPrimitive::I32, seq![f] + rest) matches ParseStep::Done(
            ParsedView::I32(x),
            r,
        ) && x == f@ && r == rest),
        f@ > i32::MAX ==> parse_primitive(DojoPrimitive::I32, seq![f] + rest) == ParseStep::<ParsedView>::Failed(rest),
        (f@ <= i64::MAX) == (parse_primitive(DojoPrimitive::I64, seq![f] + rest) matches ParseStep::Done(
            ParsedView::I64(x),
            r,
        ) && x == f@ && r == rest),
        f@ > i64::MAX ==> parse_primitive(DojoPrimitive::I64, seq![f] + rest) == ParseStep::<ParsedView>::Failed(rest),
        (f@ <= i128::MAX) == (parse_primitive(DojoPrimitive::I128, seq![f] + rest) matches ParseStep::Done(
            ParsedView::I128(x),
            r,
        ) && x == f@ && r == rest),
        f@ > i128::MAX ==> parse_primitive(DojoPrimitive::I128, seq![f] + rest) == ParseStep::<ParsedView>::Failed(rest),
        parse_primitive(DojoPrimitive::Felt252, seq![f] + rest) == ParseStep::Done(ParsedView::Felt252(f), rest),
        parse_primitive(DojoPrimitive::ClassHash, seq![f] + rest) == ParseStep::Done(ParsedView::ClassHash(f), rest),
        parse_primitive(DojoPrimitive::ContractAddress, seq![f] + rest) == ParseStep::Done(ParsedView::ContractAddress(f), rest),
        parse_primitive(DojoPrimitive::EthAddress, seq![f] + rest) == ParseStep::Done(ParsedView::EthAddress(f), rest),
        (f@ <= u128::MAX && g@ <= u128::MAX) == (parse_primitive(DojoPrimitive::U256, seq![f, g] + rest) matches ParseStep::Done(
            ParsedView::U256(x),
            r,
        ) && x.low == f@ && x.high == g@ && r == rest),
{
    let d = seq![f] + rest;
    assert(d[0] == f);
    assert(d.drop_first() =~= rest);
    let e = seq![f, g] + rest;
    assert(e[0] == f);
    assert(e.drop_first() =~= seq![g] + rest);
    assert((seq![g] + rest)[0] == g);
    assert((seq![g] + rest).drop_first() =~= rest);
}

proof fn lemma_members_count(d: Seq<Felt>, n: nat, legacy: bool)
    ensures
        deser_members(d, n, legacy).0 matches Some(ms) ==> ms.len() == n,
    decreases n,
{
    if n > 0 {
        lemma_members_count(d, (n - 1) as nat, legacy);
    }
}

/// The header of a definition is its name felt, then a count and that many
/// attribute felts: an enum or a struct read from `d` has the name `d[0]`,
/// the attributes that follow the count `d[1]`, and as many variants or
/// members as the count after them says; a member has the same header.
pub proof fn law_definition_headers(d: Seq<Felt>, legacy: bool)
    ensures
        deser_enum(d, legacy).0 matches Some(e) ==> {
            &&& d.len() >= 3 + e.attrs.len()
            &&& e.name == d[0]
            &&& d[1]@ == e.attrs.len()
            &&& e.attrs == d.subrange(2, 2 + e.attrs.len() as int)
            &&& d[2 + e.attrs.len() as int]@ == e.variants.len()
        },
        deser_struct(d, legacy).0 matches Some(s) ==> {
            &&& d.len() >= 3 + s.attrs.len()
            &&& s.name == d[0]
            &&& d[1]@ == s.attrs.len()
            &&& s.attrs == d.subrange(2, 2 + s.attrs.len() as int)
            &&& d[2 + s.attrs.len() as int]@ == s.children.len()
        },
        deser_member(d, legacy).0 matches Some(m) ==> {
            &&& d.len() >= 2 + m.attrs.len()
            &&& m.name == d[0]
            &&& d[1]@ == m.attrs.len()
            &&& m.attrs == d.subrange(2, 2 + m.attrs.len() as int)
        },
{
    if d.len() > 0 {
        let d1 = d.drop_first();
        if let (Some(n), d2) = take_usize(d1) {
            assert(d1[0] == d[1]);
            assert(d2 =~= d.skip(2));
            if let (Some(attrs), d3) = take_felts(d2, n) {
                assert(attrs =~= d.subrange(2, 2 + n as int));
                assert(d3 =~= d.skip(2 + n as int));
                if let (Some(m), d4) = take_usize(d3) {
                    assert(d3[0] == d[2 + n as int]);
                    lemma_variants_selectors(d4, m, legacy);
                    lemma_members_count(d4, m, legacy);
                }
            }
        }
    }
}

proof fn lemma_variant_value_at(vs: Seq<(nat, VariantTyView)>, j: int, d: Seq<Felt>)
    requires
        0 <= j < vs.len(),
        forall|i: int| 0 <= i < j ==> vs[i].0 != vs[j].0,
    ensures
        parse_variant_value(vs, vs[j].0, d) == match parse_value(vs[j].1.ty, d) {
            ParseStep::Done(v, r) => ParseStep::Done((vs[j].1.name, v), r),
            ParseStep::Failed(r) => ParseStep::Failed(r),
            ParseStep::Aborted => ParseStep::Aborted,
        },
    decreases j,
{
    if j > 0 {
        assert(vs[0].0 != vs[j].0);
        assert forall|i: int| 0 <= i < j - 1 implies (#[trigger] vs.drop_first()[i]).0 != vs.drop_first()[j - 1].0 by {
            assert(vs[i + 1].0 != vs[j].0);
        }
        lemma_variant_value_at(vs.drop_first(), j - 1, d);
    }
}

proof fn lemma_variant_value_none(vs: Seq<(nat, VariantTyView)>, key: nat, d: Seq<Felt>)
    requires
        forall|i: int| 0 <= i < vs.len() ==> vs[i].0 != key,
    ensures
        parse_variant_value(vs, key, d) == ParseStep::<(Seq<char>, ParsedView)>::Failed(d),
    decreases vs.len(),
{
    if vs.len() > 0 {
        assert(vs[0].0 != key);
        assert forall|i: int| 0 <= i < vs.drop_first().len() implies (#[trigger] vs.drop_first()[i]).0 != key by {
            assert(vs[i + 1].0 != key);
        }
        lemma_variant_value_none(vs.drop_first(), key, d);
    }
}

/// An enum value is its selector felt, then the payload of the variant keyed
/// by that selector (the first such): it has that variant's name and payload
/// and stops where the payload does; a selector that keys no variant fails,
/// consuming only the selector.
pub proof fn law_enum_value_variant(e: EnumTyView, f: Felt, rest: Seq<Felt>, j: int)
    requires
        0 <= j < e.variants.len(),
        e.variants[j].0 == f@,
        forall|i: int| 0 <= i < j ==> e.variants[i].0 != f@,
    ensures
        parse_value(e.variants[j].1.ty, rest) matches ParseStep::Done(v, r) ==> (parse_enum_value(
            e,
            seq![f] + rest,
        ) matches ParseStep::Done(ev, r2) && ev.variant == e.variants[j].1.name && ev.value == v && r2 == r),
        parse_value(e.variants[j].1.ty, rest) matches ParseStep::Failed(r) ==> parse_enum_value(
            e,
            seq![f] + rest,
        ) == ParseStep::<EnumView>::Failed(r),
{
    let d = seq![f] + rest;
    assert(d[0] == f);
    assert(d.drop_first() =~= rest);
    lemma_variant_value_at(e.variants, j, rest);
}

/// A selector that keys no variant fails the enum value, consuming only the
/// selector.
pub proof fn law_enum_value_unknown(e: EnumTyView, f: Felt, rest: Seq<Felt>)
    requires
        forall|i: int| 0 <= i < e.variants.len() ==> e.variants[i].0 != f@,
    ensures
        parse_enum_value(e, seq![f] + rest) == ParseStep::<EnumView>::Failed(rest),
{
    let d = seq![f] + rest;
    assert(d[0] == f);
    assert(d.drop_first() =~= rest);
    lemma_variant_value_none(e.variants, f@, rest);
}

proof fn lemma_tys_count(d: Seq<Felt>, n: nat, legacy: bool)
    ensures
        deser_tys(d, n, legacy).0 matches Some(ts) ==> ts.len() == n,
    decreases n,
{
    if n > 0 {
        lemma_tys_count(d, (n - 1) as nat, legacy);
    }
}

/// A tuple type is its element count, then that many types; a count of zero
/// is the unit type.
pub proof fn law_tuple_count(d: Seq<Felt>, legacy: bool)
    ensures
        deser_tuple(d, legacy).0 matches Some(TyView::Tuple(ts)) ==> d.len() > 0 && d[0]@ == ts.len() && ts.len() > 0,
        (d.len() > 0 && d[0]@ == 0) ==> deser_tuple(d, legacy) == (Some(TyView::Unit), d.drop_first()),
{
    if d.len() > 0 && d[0]@ <= usize::MAX && d[0]@ > 0 {
        lemma_tys_count(d.drop_first(), d[0]@, legacy);
    }
}

proof fn lemma_member_values_count(ms: Seq<MemberTyView>, d: Seq<Felt>)
    ensures
        parse_member_values(ms, d) matches ParseStep::Done(vs, r) ==> vs.len() == ms.len() && forall|i: int|
            0 <= i < ms.len() ==> (#[trigger] vs[i]).name == decimal_chars(ms[i].name@),
    decreases ms.len(),
{
    if ms.len() > 0 {
        lemma_member_values_count(ms.drop_last(), d);
        if let ParseStep::Done(vs0, r0) = parse_member_values(ms.drop_last(), d) {
            if let ParseStep::Done(v, r2) = parse_member_value(ms.last(), r0) {
                let vs = vs0.push(v);
                assert forall|i: int| 0 <= i < ms.len() implies (#[trigger] vs[i]).name == decimal_chars(
                    ms[i].name@,
                ) by {
                    if i < ms.len() - 1 {
                        assert(vs[i] == vs0[i]);
                        assert(ms.drop_last()[i] == ms[i]);
                    }
                }
            }
        }
    }
}

/// A struct value has one member value per member of the definition, in the
/// order of the definition and named after it.
pub proof fn law_struct_value_members(s: StructTyView, d: Seq<Felt>)
    ensures
        parse_struct_value(s, d) matches ParseStep::Done(v, r) ==> v.children.len() == s.children.len()
            && forall|i: int| 0 <= i < s.children.len() ==> (#[trigger] v.children[i]).name == decimal_chars(
            s.children[i].name@,
        ),
{
    lemma_member_values_count(s.children, d);
}

/// The kind felt of a type says what follows: 5 is a byte array with nothing
/// more; 3 then 0 is the unit type; 4 then one skipped felt is an array of
/// the type after.
pub proof fn law_ty_kinds(k: Felt, f: Felt, d: Seq<Felt>, legacy: bool)
    ensures
        k@ == 5 ==> deser_ty(seq![k] + d, legacy) == (Some(TyView::ByteArray), d),
        k@ == 3 && f@ == 0 ==> deser_ty(seq![k, f] + d, legacy) == (Some(TyView::Unit), d),
        k@ == 4 ==> deser_ty(seq![k, f] + d, legacy) == match deser_ty(d, legacy) {
            (Some(t), r) => (Some(TyView::Array(Box::new(t))), r),
            (None, r) => (None, r),
        },
{
    let e1 = seq![k] + d;
    assert(e1[0] == k);
    assert(e1.drop_first() =~= d);
    let e2 = seq![k, f] + d;
    assert(e2[0] == k);
    assert(e2.drop_first() =~= seq![f] + d);
    assert((seq![f] + d)[0] == f);
    assert((seq![f] + d).drop_first() =~= d);
}

} // verus!
