//! Table and type definitions in the introspection format: the shapes
//! that Dojo schemas are mapped to.
use vstd::prelude::*;
use crate::felt::Felt;

verus! {

/// A type definition.
#[derive(Debug)]
pub enum TypeDef {
    /// The unit type, an empty tuple.
    Unit,
    Bool,
    U8,
    U16,
    U32,
    U64,
    U128,
    U256,
    I8,
    I16,
    I32,
    I64,
    I128,
    Felt252,
    ClassHash,
    ContractAddress,
    EthAddress,
    Utf8String,
    Struct(StructDef),
    Enum(EnumDef),
    Tuple(TupleDef),
    Array(ArrayDef),
    FixedArray(FixedArrayDef),
}

/// An attribute: a name and the felts it carries.
#[derive(Debug)]
pub struct Attribute {
    pub name: String,
    pub data: Vec<Felt>,
}

/// A struct: name, attributes and members.
#[derive(Debug)]
pub struct StructDef {
    pub name: String,
    pub attributes: Vec<Attribute>,
    pub members: Vec<MemberDef>,
}

/// A struct member.
#[derive(Debug)]
pub struct MemberDef {
    pub name: String,
    pub attributes: Vec<Attribute>,
    pub type_def: TypeDef,
}

/// An enum: name, attributes and its variants keyed by selector.
#[derive(Debug)]
pub struct EnumDef {
    pub name: String,
    pub attributes: Vec<Attribute>,
    pub variants: Vec<(Felt, VariantDef)>,
}

/// An enum variant.
#[derive(Debug)]
pub struct VariantDef {
    pub name: String,
    pub attributes: Vec<Attribute>,
    pub type_def: TypeDef,
}

/// A tuple of element types.
#[derive(Debug)]
pub struct TupleDef {
    pub elements: Vec<TypeDef>,
}

/// An array of one element type.
#[derive(Debug)]
pub struct ArrayDef {
    pub type_def: Box<TypeDef>,
}

/// An array of fixed size.
#[derive(Debug)]
pub struct FixedArrayDef {
    pub type_def: Box<TypeDef>,
    pub size: u32,
}

/// A column of a table: its selector, name, attributes and type.
#[derive(Debug)]
pub struct ColumnDef {
    pub id: Felt,
    pub name: String,
    pub attributes: Vec<Attribute>,
    pub type_def: TypeDef,
}

/// The type of a table's primary key.
#[derive(Debug, Clone, Copy, PartialEq, Eq, Structural)]
pub enum PrimaryTypeDef {
    Felt252,
}

/// A table's primary key.
#[derive(Debug)]
pub struct PrimaryDef {
    pub name: String,
    pub attributes: Vec<Attribute>,
    pub type_def: PrimaryTypeDef,
}

/// A table: its selector, name, attributes, primary key and columns.
#[derive(Debug)]
pub struct TableSchema {
    pub id: Felt,
    pub name: String,
    pub attributes: Vec<Attribute>,
    pub primary: PrimaryDef,
    pub columns: Vec<ColumnDef>,
}

impl Attribute {
    /// An attribute with a name and no data.
    pub fn new_empty(name: String) -> (a: Attribute)
        ensures
            a.name@ == name@,
            a.data@ == Seq::<Felt>::empty(),
    {
        Attribute { name, data: Vec::new() }
    }
}

impl TupleDef {
    pub fn new(elements: Vec<TypeDef>) -> (t: TupleDef)
        ensures
            t.elements@ == elements@,
    {
        TupleDef { elements }
    }
}

impl ArrayDef {
    pub fn new(type_def: TypeDef) -> (a: ArrayDef)
        ensures
            *a.type_def == type_def,
    {
        ArrayDef { type_def: Box::new(type_def) }
    }
}

impl EnumDef {
    pub fn new(name: String, attributes: Vec<Attribute>, variants: Vec<(Felt, VariantDef)>) -> (e: EnumDef)
        ensures
            e.name == name,
            e.attributes == attributes,
            e.variants == variants,
    {
        EnumDef { name, attributes, variants }
    }
}

// ---------------------------------------------------------------------------
// Contents.
// ---------------------------------------------------------------------------

/// The content of a [`TypeDef`].
pub enum TypeDefView {
    Unit,
    Bool,
    U8,
    U16,
    U32,
    U64,
    U128,
    U256,
    I8,
    I16,
    I32,
    I64,
    I128,
    Felt252,
    ClassHash,
    ContractAddress,
    EthAddress,
    Utf8String,
    Struct(StructDefView),
    Enum(EnumDefView),
    Tuple(Seq<TypeDefView>),
    Array(Box<TypeDefView>),
    FixedArray(Box<TypeDefView>, u32),
}

/// The content of an [`Attribute`].
pub struct AttributeView {
    pub name: Seq<char>,
    pub data: Seq<Felt>,
}

/// The content of a [`StructDef`].
pub struct StructDefView {
    pub name: Seq<char>,
    pub attributes: Seq<AttributeView>,
    pub members: Seq<MemberDefView>,
}

/// The content of a [`MemberDef`].
pub struct MemberDefView {
    pub name: Seq<char>,
    pub attributes: Seq<AttributeView>,
    pub type_def: TypeDefView,
}

/// The content of an [`EnumDef`]: variants with the values of their selectors.
pub struct EnumDefView {
    pub name: Seq<char>,
    pub attributes: Seq<AttributeView>,
    pub variants: Seq<(nat, VariantDefView)>,
}

/// The content of a [`VariantDef`].
pub struct VariantDefView {
    pub name: Seq<char>,
    pub attributes: Seq<AttributeView>,
    pub type_def: TypeDefView,
}

/// The content of a [`ColumnDef`].
pub struct ColumnDefView {
    pub id: nat,
    pub name: Seq<char>,
    pub attributes: Seq<AttributeView>,
    pub type_def: TypeDefView,
}

impl Attribute {
    pub open spec fn view(&self) -> AttributeView {
        AttributeView { name: self.name@, data: self.data@ }
    }
}

pub open spec fn attributes_view(s: Seq<Attribute>) -> Seq<AttributeView> {
    s.map_values(|a: Attribute| a.view())
}

pub open spec fn type_defs_view(s: Seq<TypeDef>) -> Seq<TypeDefView>
    decreases s,
{
    if s.len() == 0 {
        Seq::empty()
    } else {
        type_defs_view(s.drop_last()).push(s.last().view())
    }
}

pub open spec fn member_defs_view(s: Seq<MemberDef>) -> Seq<MemberDefView>
    decreases s,
{
    if s.len() == 0 {
        Seq::empty()
    } else {
        member_defs_view(s.drop_last()).push(s.last().view())
    }
}

pub open spec fn variant_defs_view(s: Seq<(Felt, VariantDef)>) -> Seq<(nat, VariantDefView)>
    decreases s,
{
    if s.len() == 0 {
        Seq::empty()
    } else {
        variant_defs_view(s.drop_last()).push((s.last().0@, s.last().1.view()))
    }
}

pub proof fn lemma_variant_defs_view_index(s: Seq<(Felt, VariantDef)>)
    ensures
        variant_defs_view(s).len() == s.len(),
        forall|i: int| 0 <= i < s.len() ==> #[trigger] variant_defs_view(s)[i] == (s[i].0@, s[i].1.view()),
    decreases s.len(),
{
    if s.len() > 0 {
        lemma_variant_defs_view_index(s.drop_last());
    }
}

pub open spec fn column_defs_view(s: Seq<ColumnDef>) -> Seq<ColumnDefView> {
    s.map_values(|c: ColumnDef| c.view())
}

impl TypeDef {
    pub open spec fn view(&self) -> TypeDefView
        decreases self,
    {
        match self {
            TypeDef::Unit => TypeDefView::Unit,
            TypeDef::Bool => TypeDefView::Bool,
            TypeDef::U8 => TypeDefView::U8,
            TypeDef::U16 => TypeDefView::U16,
            TypeDef::U32 => TypeDefView::U32,
            TypeDef::U64 => TypeDefView::U64,
            TypeDef::U128 => TypeDefView::U128,
            TypeDef::U256 => TypeDefView::U256,
            TypeDef::I8 => TypeDefView::I8,
            TypeDef::I16 => TypeDefView::I16,
            TypeDef::I32 => TypeDefView::I32,
            TypeDef::I64 => TypeDefView::I64,
            TypeDef::I128 => TypeDefView::I128,
            TypeDef::Felt252 => TypeDefView::Felt252,
            TypeDef::ClassHash => TypeDefView::ClassHash,
            TypeDef::ContractAddress => TypeDefView::ContractAddress,
            TypeDef::EthAddress => TypeDefView::EthAddress,
            TypeDef::Utf8String => TypeDefView::Utf8String,
            TypeDef::Struct(s) => TypeDefView::Struct(s.view()),
            TypeDef::Enum(e) => TypeDefView::Enum(e.view()),
            TypeDef::Tuple(t) => TypeDefView::Tuple(type_defs_view(t.elements@)),
            TypeDef::Array(a) => TypeDefView::Array(Box::new(a.type_def.view())),
            TypeDef::FixedArray(a) => TypeDefView::FixedArray(Box::new(a.type_def.view()), a.size),
        }
    }
}

impl StructDef {
    pub open spec fn view(&self) -> StructDefView
        decreases self,
    {
        StructDefView {
            name: self.name@,
            attributes: attributes_view(self.attributes@),
            members: member_defs_view(self.members@),
        }
    }
}

impl MemberDef {
    pub open spec fn view(&self) -> MemberDefView
        decreases self,
    {
        MemberDefView {
            name: self.name@,
            attributes: attributes_view(self.attributes@),
            type_def: self.type_def.view(),
        }
    }
}

impl EnumDef {
    /// No selector keys two variants, as in a map from selectors to variants.
    pub open spec fn selectors_unique(&self) -> bool {
        forall|i: int, j: int|
            0 <= i < j < self.variants@.len() ==> #[trigger] self.variants@[i].0 != #[trigger] self.variants@[j].0
    }

    pub open spec fn view(&self) -> EnumDefView
        decreases self,
    {
        EnumDefView {
            name: self.name@,
            attributes: attributes_view(self.attributes@),
            variants: variant_defs_view(self.variants@),
        }
    }
}

impl VariantDef {
    pub open spec fn view(&self) -> VariantDefView
        decreases self,
    {
        VariantDefView {
            name: self.name@,
            attributes: attributes_view(self.attributes@),
            type_def: self.type_def.view(),
        }
    }
}

impl ColumnDef {
    pub open spec fn view(&self) -> ColumnDefView {
        ColumnDefView {
            id: self.id@,
            name: self.name@,
            attributes: attributes_view(self.attributes@),
            type_def: self.type_def.view(),
        }
    }
}

} // verus!
