//! Decoded results and their mathematical models.

use vstd::prelude::*;

verus! {

/// Mathematical model of a decoded value: one constructor per constructor
/// of [`DecodedValue`], with strings as character sequences and the map
/// collapsed to its final contents.
#[verifier::ext_equal]
pub enum ValModel {
    Unit,
    Bool(bool),
    U8(u8),
    U16(u16),
    U32(u32),
    U64(u64),
    I8(i8),
    I16(i16),
    I32(i32),
    I64(i64),
    F32Text(Seq<char>),
    F64Text(Seq<char>),
    Char(char),
    Str(Seq<char>),
    Bytes(Seq<u8>),
    Absent,
    Present(Box<ValModel>),
    Variant(Seq<char>),
    Values(Seq<ValModel>),
    Record(Seq<(Seq<char>, ValModel)>),
    MapEntries(Map<Seq<char>, ValModel>),
    Tuple(Seq<ValModel>),
}

/// A successfully decoded value.
///
/// Float-shaped leaves are carried as their validated literal text, so that
/// the decoder itself stays free of floating-point arithmetic; callers
/// rebuild the float by parsing the text.  A map is carried as its entries in
/// insertion order; a later entry for the same key supersedes an earlier
/// one.
#[derive(Debug, PartialEq)]
pub enum DecodedValue {
    Unit,
    Bool(bool),
    U8(u8),
    U16(u16),
    U32(u32),
    U64(u64),
    I8(i8),
    I16(i16),
    I32(i32),
    I64(i64),
    F32Text(String),
    F64Text(String),
    Char(char),
    Str(String),
    Bytes(Vec<u8>),
    Absent,
    Present(Box<DecodedValue>),
    Variant(String),
    Values(Vec<DecodedValue>),
    Record(Vec<(String, DecodedValue)>),
    MapEntries(Vec<(String, DecodedValue)>),
    Tuple(Vec<DecodedValue>),
}

/// The model of one decoded value.
pub open spec fn value_model(v: DecodedValue) -> ValModel
    decreases v, 0int,
{
    match v {
        DecodedValue::Unit => ValModel::Unit,
        DecodedValue::Bool(b) => ValModel::Bool(b),
        DecodedValue::U8(n) => ValModel::U8(n),
        DecodedValue::U16(n) => ValModel::U16(n),
        DecodedValue::U32(n) => ValModel::U32(n),
        DecodedValue::U64(n) => ValModel::U64(n),
        DecodedValue::I8(n) => ValModel::I8(n),
        DecodedValue::I16(n) => ValModel::I16(n),
        DecodedValue::I32(n) => ValModel::I32(n),
        DecodedValue::I64(n) => ValModel::I64(n),
        DecodedValue::F32Text(s) => ValModel::F32Text(s@),
        DecodedValue::F64Text(s) => ValModel::F64Text(s@),
        DecodedValue::Char(c) => ValModel::Char(c),
        DecodedValue::Str(s) => ValModel::Str(s@),
        DecodedValue::Bytes(b) => ValModel::Bytes(b@),
        DecodedValue::Absent => ValModel::Absent,
        DecodedValue::Present(inner) => ValModel::Present(Box::new(value_model(*inner))),
        DecodedValue::Variant(s) => ValModel::Variant(s@),
        DecodedValue::Values(items) => ValModel::Values(values_model(items, 0)),
        DecodedValue::Record(entries) => ValModel::Record(entries_model(entries, 0)),
        DecodedValue::MapEntries(entries) => ValModel::MapEntries(
            entries_map_model(entries, entries@.len() as int),
        ),
        DecodedValue::Tuple(items) => ValModel::Tuple(values_model(items, 0)),
    }
}

/// The models of `items[i..]`.
pub open spec fn values_model(items: Vec<DecodedValue>, i: int) -> Seq<ValModel>
    decreases items, items@.len() - i,
{
    if 0 <= i < items@.len() {
        seq![value_model(items[i])] + values_model(items, i + 1)
    } else {
        Seq::empty()
    }
}

/// The models of the named entries `entries[i..]`.
pub open spec fn entries_model(entries: Vec<(String, DecodedValue)>, i: int) -> Seq<
    (Seq<char>, ValModel),
>
    decreases entries, entries@.len() - i,
{
    if 0 <= i < entries@.len() {
        seq![(entries[i].0@, value_model(entries[i].1))] + entries_model(entries, i + 1)
    } else {
        Seq::empty()
    }
}

/// The map built from the first `i` entries, a later entry superseding an
/// earlier one with the same key.
pub open spec fn entries_map_model(entries: Vec<(String, DecodedValue)>, i: int) -> Map<
    Seq<char>,
    ValModel,
>
    decreases entries, i,
{
    if 0 < i <= entries@.len() {
        entries_map_model(entries, i - 1).insert(
            entries[i - 1].0@,
            value_model(entries[i - 1].1),
        )
    } else {
        Map::empty()
    }
}

impl View for DecodedValue {
    type V = ValModel;

    open spec fn view(&self) -> ValModel {
        value_model(*self)
    }
}

} // verus!
