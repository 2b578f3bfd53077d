//! Values read from felts according to a Dojo type.
use std::collections::VecDeque;
use vstd::prelude::*;
use crate::felt::Felt;

verus! {

/// A value of some Dojo type.
#[derive(Debug)]
pub enum Parsed {
    Unit,
    Bool(bool),
    U8(u8),
    U16(u16),
    U32(u32),
    U64(u64),
    U128(u128),
    U256(U256),
    I8(i8),
    I16(i16),
    I32(i32),
    I64(i64),
    I128(i128),
    Felt252(Felt),
    ClassHash(Felt),
    ContractAddress(Felt),
    EthAddress(Felt),
    Struct(Struct),
    Enum(Box<Enum>),
    Tuple(Vec<Parsed>),
    Array(Vec<Parsed>),
    ByteArray(String),
    FixedArray(Vec<Parsed>),
}

/// A 256-bit unsigned integer as its two 128-bit halves.
#[derive(Clone, Copy, PartialEq, Eq, Structural, Debug)]
pub struct U256 {
    pub low: u128,
    pub high: u128,
}

/// A named member of a struct value.
#[derive(Debug)]
pub struct Member {
    pub name: String,
    pub attrs: Vec<String>,
    pub value: Parsed,
}

/// A struct value: its name, attributes and members.
#[derive(Debug)]
pub struct Struct {
    pub name: String,
    pub attrs: Vec<String>,
    pub children: Vec<Member>,
}

/// An enum value: its name, attributes, the chosen variant and its payload.
#[derive(Debug)]
pub struct Enum {
    pub name: String,
    pub attrs: Vec<String>,
    pub variant: String,
    pub value: Parsed,
}

/// Reading a value from the front of a felt queue.
pub trait Parse {
    type Parsed;

    /// Reading from these felts does not panic.
    spec fn parse_readable(&self, data: Seq<Felt>) -> bool;

    fn parse(&self, data: &mut VecDeque<Felt>) -> Option<Self::Parsed>
        requires
            self.parse_readable(old(data)@),
    ;
}

/// The mathematical content of a [`Parsed`] value.
pub enum ParsedView {
    Unit,
    Bool(bool),
    U8(u8),
    U16(u16),
    U32(u32),
    U64(u64),
    U128(u128),
    U256(U256),
    I8(i8),
    I16(i16),
    I32(i32),
    I64(i64),
    I128(i128),
    Felt252(Felt),
    ClassHash(Felt),
    ContractAddress(Felt),
    EthAddress(Felt),
    Struct(StructView),
    Enum(Box<EnumView>),
    Tuple(Seq<ParsedView>),
    Array(Seq<ParsedView>),
    ByteArray(Seq<char>),
    FixedArray(Seq<ParsedView>),
}

/// The content of a [`Member`].
pub struct MemberView {
    pub name: Seq<char>,
    pub attrs: Seq<Seq<char>>,
    pub value: ParsedView,
}

/// The content of a [`Struct`].
pub struct StructView {
    pub name: Seq<char>,
    pub attrs: Seq<Seq<char>>,
    pub children: Seq<MemberView>,
}

/// The content of an [`Enum`].
pub struct EnumView {
    pub name: Seq<char>,
    pub attrs: Seq<Seq<char>>,
    pub variant: Seq<char>,
    pub value: ParsedView,
}

/// The texts of a sequence of strings.
pub open spec fn strings_view(s: Seq<String>) -> Seq<Seq<char>> {
    s.map_values(|x: String| x@)
}

/// The contents of a sequence of values.
pub open spec fn parsed_seq_view(s: Seq<Parsed>) -> Seq<ParsedView>
    decreases s,
{
    if s.len() == 0 {
        Seq::empty()
    } else {
        parsed_seq_view(s.drop_last()).push(s.last().view())
    }
}

/// The contents of a sequence of members.
pub open spec fn members_view(s: Seq<Member>) -> Seq<MemberView>
    decreases s,
{
    if s.len() == 0 {
        Seq::empty()
    } else {
        members_view(s.drop_last()).push(s.last().view())
    }
}

impl Parsed {
    pub open spec fn view(&self) -> ParsedView
        decreases self,
    {
        match self {
            Parsed::Unit => ParsedView::Unit,
            Parsed::Bool(b) => ParsedView::Bool(*b),
            Parsed::U8(v) => ParsedView::U8(*v),
            Parsed::U16(v) => ParsedView::U16(*v),
            Parsed::U32(v) => ParsedView::U32(*v),
            Parsed::U64(v) => ParsedView::U64(*v),
            Parsed::U128(v) => ParsedView::U128(*v),
            Parsed::U256(v) => ParsedView::U256(*v),
            Parsed::I8(v) => ParsedView::I8(*v),
            Parsed::I16(v) => ParsedView::I16(*v),
            Parsed::I32(v) => ParsedView::I32(*v),
            Parsed::I64(v) => ParsedView::I64(*v),
            Parsed::I128(v) => ParsedView::I128(*v),
            Parsed::Felt252(f) => ParsedView::Felt252(*f),
            Parsed::ClassHash(f) => ParsedView::ClassHash(*f),
            Parsed::ContractAddress(f) => ParsedView::ContractAddress(*f),
            Parsed::EthAddress(f) => ParsedView::EthAddress(*f),
            Parsed::Struct(s) => ParsedView::Struct(s.view()),
            Parsed::Enum(e) => ParsedView::Enum(Box::new(e.view())),
            Parsed::Tuple(v) => ParsedView::Tuple(parsed_seq_view(v@)),
            Parsed::Array(v) => ParsedView::Array(parsed_seq_view(v@)),
            Parsed::ByteArray(s) => ParsedView::ByteArray(s@),
            Parsed::FixedArray(v) => ParsedView::FixedArray(parsed_seq_view(v@)),
        }
    }
}

impl Member {
    pub open spec fn view(&self) -> MemberView
        decreases self,
    {
        MemberView { name: self.name@, attrs: strings_view(self.attrs@), value: self.value.view() }
    }
}

impl Struct {
    pub open spec fn view(&self) -> StructView
        decreases self,
    {
        StructView {
            name: self.name@,
            attrs: strings_view(self.attrs@),
            children: members_view(self.children@),
        }
    }
}

impl Enum {
    pub open spec fn view(&self) -> EnumView
        decreases self,
    {
        EnumView {
            name: self.name@,
            attrs: strings_view(self.attrs@),
            variant: self.variant@,
            value: self.value.view(),
        }
    }
}

} // verus!
