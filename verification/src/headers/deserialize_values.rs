//! Decoding of one attribute's raw string value into a requested leaf
//! shape.
//!
//! [`decode_value_spec`] states what every outcome is; [`deserialize_value`]
//! computes it.  Leaf shapes that would need nested structure (records,
//! maps, tuples, non-unit enum variants) are rejected: a single attribute's
//! string cannot produce them.

use vstd::prelude::*;
use vstd::string::StrSliceExecFns;
use vstd::utf8::encode_utf8;

use super::multivalue::{multi_values, split_multi_values};
use super::numbers::{
    int_error_message, int_error_message_spec, is_float_literal, is_float_literal_str, parse_bool,
    parse_bool_spec, parse_signed, parse_signed_spec, parse_unsigned, parse_unsigned_spec,
};
use super::shapes::{PayloadKind, Shape, VariantShape};
use super::textops::str_eq;
use super::values::{value_model, values_model, DecodedValue, ValModel};
use super::{ErrorModel, HeadersDeserializationError};

verus! {

/// Wrap a primitive parse failure into the decoder's error type, keeping
/// the requested kind and the parser's own message.
pub fn translate_parse_error(source: &'static str, msg: String) -> (e: HeadersDeserializationError)
    ensures
        e@ == (ErrorModel::ParseError { source: source@, msg: msg@ }),
{
    HeadersDeserializationError::ParseError { source, msg }
}

/// What parsing an unsigned width yields: the value, or a `ParseError`
/// naming the requested kind.
pub open spec fn unsigned_result(raw: Seq<char>, max: int, source: Seq<char>) -> Result<
    int,
    ErrorModel,
> {
    match parse_unsigned_spec(raw, max) {
        Ok(v) => Ok(v),
        Err(e) => Err(ErrorModel::ParseError { source: source, msg: int_error_message_spec(e) }),
    }
}

/// What parsing a signed width yields: the value, or a `ParseError` naming
/// the requested kind.
pub open spec fn signed_result(raw: Seq<char>, min: int, max: int, source: Seq<char>) -> Result<
    int,
    ErrorModel,
> {
    match parse_signed_spec(raw, min, max) {
        Ok(v) => Ok(v),
        Err(e) => Err(ErrorModel::ParseError { source: source, msg: int_error_message_spec(e) }),
    }
}

/// The message rejecting an enum variant declared with payload `p`.
pub open spec fn payload_message_spec(p: PayloadKind) -> Seq<char> {
    match p {
        PayloadKind::Unit => ""@,
        PayloadKind::Newtype => "enum variant requires unsuitable type (newtype), expected only unit variants"@,
        PayloadKind::Tuple => "enum variant requires unsuitable type (tuple), expected only unit variants"@,
        PayloadKind::Struct => "enum variant requires unsuitable type (struct), expected only unit variants"@,
    }
}

/// The message rejecting an enum variant declared with payload `p`.
fn payload_message(p: PayloadKind) -> (r: &'static str)
    ensures
        r@ == payload_message_spec(p),
{
    match p {
        PayloadKind::Unit => "",
        PayloadKind::Newtype => "enum variant requires unsuitable type (newtype), expected only unit variants",
        PayloadKind::Tuple => "enum variant requires unsuitable type (tuple), expected only unit variants",
        PayloadKind::Struct => "enum variant requires unsuitable type (struct), expected only unit variants",
    }
}

/// The index of the first candidate variant at or after `i` whose name is
/// `raw`, or `-1` if none matches.
pub open spec fn variant_index(variants: Vec<VariantShape>, raw: Seq<char>, i: int) -> int
    decreases variants@.len() - i,
{
    if i < 0 || i >= variants@.len() {
        -1
    } else if variants[i].name@ == raw {
        i
    } else {
        variant_index(variants, raw, i + 1)
    }
}

/// What decoding `raw` against a unit-variant enum yields.  The raw string
/// is the selected variant token; membership is the consuming caller's
/// concern, but a matched variant that was declared with a payload is
/// rejected here.
pub open spec fn enum_value_spec(raw: Seq<char>, variants: Vec<VariantShape>) -> Result<
    ValModel,
    ErrorModel,
> {
    let i = variant_index(variants, raw, 0);
    if i == -1 || variants[i].payload == PayloadKind::Unit {
        Ok(ValModel::Variant(raw))
    } else {
        Err(ErrorModel::InvalidValueType { msg: payload_message_spec(variants[i].payload) })
    }
}

/// What decoding every segment of a multi-valued attribute yields: the
/// decoded values of `vals[i..]`, or the leftmost error.
pub open spec fn seq_values_spec(vals: Seq<Seq<char>>, inner: Shape, i: int) -> Result<
    Seq<ValModel>,
    ErrorModel,
>
    decreases inner, 1int, vals.len() - i,
{
    if i < 0 || i >= vals.len() {
        Ok(Seq::<ValModel>::empty())
    } else {
        match decode_value_spec(vals[i], inner) {
            Ok(v) => match seq_values_spec(vals, inner, i + 1) {
                Ok(rest) => Ok(seq![v] + rest),
                Err(e) => Err(e),
            },
            Err(e) => Err(e),
        }
    }
}

/// What decoding one attribute's raw string value against `shape` yields.
pub open spec fn decode_value_spec(raw: Seq<char>, shape: Shape) -> Result<ValModel, ErrorModel>
    decreases shape, 0int, 0int,
{
    match shape {
        Shape::Unit => Ok(ValModel::Unit),
        Shape::Wrapper(inner) => decode_value_spec(raw, *inner),
        Shape::Bool => match parse_bool_spec(raw) {
            Some(b) => Ok(ValModel::Bool(b)),
            None => Err(
                ErrorModel::ParseError {
                    source: "deserialize_bool"@,
                    msg: "provided string was not `true` or `false`"@,
                },
            ),
        },
        Shape::U8 => match unsigned_result(raw, 0xff, "deserialize_u8"@) {
            Ok(v) => Ok(ValModel::U8(v as u8)),
            Err(e) => Err(e),
        },
        Shape::U16 => match unsigned_result(raw, 0xffff, "deserialize_u16"@) {
            Ok(v) => Ok(ValModel::U16(v as u16)),
            Err(e) => Err(e),
        },
        Shape::U32 => match unsigned_result(raw, 0xffff_ffff, "deserialize_u32"@) {
            Ok(v) => Ok(ValModel::U32(v as u32)),
            Err(e) => Err(e),
        },
        Shape::U64 => match unsigned_result(raw, 0xffff_ffff_ffff_ffff, "deserialize_u64"@) {
            Ok(v) => Ok(ValModel::U64(v as u64)),
            Err(e) => Err(e),
        },
        Shape::I8 => match signed_result(raw, -0x80, 0x7f, "deserialize_i8"@) {
            Ok(v) => Ok(ValModel::I8(v as i8)),
            Err(e) => Err(e),
        },
        Shape::I16 => match signed_result(raw, -0x8000, 0x7fff, "deserialize_i16"@) {
            Ok(v) => Ok(ValModel::I16(v as i16)),
            Err(e) => Err(e),
        },
        Shape::I32 => match signed_result(raw, -0x8000_0000, 0x7fff_ffff, "deserialize_i32"@) {
            Ok(v) => Ok(ValModel::I32(v as i32)),
            Err(e) => Err(e),
        },
        Shape::I64 => match signed_result(
            raw,
            -0x8000_0000_0000_0000,
            0x7fff_ffff_ffff_ffff,
            "deserialize_i64"@,
        ) {
            Ok(v) => Ok(ValModel::I64(v as i64)),
            Err(e) => Err(e),
        },
        Shape::F32 => if is_float_literal(raw) {
            Ok(ValModel::F32Text(raw))
        } else {
            Err(
                ErrorModel::ParseError {
                    source: "deserialize_f32"@,
                    msg: "invalid float literal"@,
                },
            )
        },
        Shape::F64 => if is_float_literal(raw) {
            Ok(ValModel::F64Text(raw))
        } else {
            Err(
                ErrorModel::ParseError {
                    source: "deserialize_f64"@,
                    msg: "invalid float literal"@,
                },
            )
        },
        Shape::Char => if raw.len() == 0 {
            Err(
                ErrorModel::InvalidState {
                    msg: "empty string provided for HTTP header, unable to extract char value"@,
                },
            )
        } else {
            Ok(ValModel::Char(raw[0]))
        },
        Shape::Str => Ok(ValModel::Str(raw)),
        Shape::Bytes => Ok(ValModel::Bytes(encode_utf8(raw))),
        Shape::Optional(inner) => match decode_value_spec(raw, *inner) {
            Ok(v) => Ok(ValModel::Present(Box::new(v))),
            Err(e) => Err(e),
        },
        Shape::EnumUnit(variants) => enum_value_spec(raw, variants),
        Shape::Sequence(inner) => match seq_values_spec(multi_values(raw), *inner, 0) {
            Ok(items) => Ok(ValModel::Values(items)),
            Err(e) => Err(e),
        },
        Shape::Record(_) => Err(
            ErrorModel::InvalidValueType { msg: "unsuitable type (struct) for attribute value"@ },
        ),
        Shape::Tuple(_) => Err(
            ErrorModel::InvalidValueType { msg: "unsuitable type (tuple) for attribute value"@ },
        ),
        Shape::MapTo(_) => Err(
            ErrorModel::InvalidValueType { msg: "unsuitable type (map) for attribute value"@ },
        ),
        Shape::Any => Err(
            ErrorModel::InvalidValueType { msg: "unsuitable type (any) for attribute value"@ },
        ),
    }
}

proof fn lemma_variant_index_prefix(variants: Vec<VariantShape>, raw: Seq<char>, j: int)
    requires
        0 <= j <= variants@.len(),
        forall|k: int| 0 <= k < j ==> variants[k].name@ != raw,
    ensures
        variant_index(variants, raw, 0) == variant_index(variants, raw, j),
    decreases j,
{
    if j > 0 {
        lemma_variant_index_prefix(variants, raw, j - 1);
    }
}

proof fn lemma_seq_values_err(vals: Seq<Seq<char>>, inner: Shape, i: int, j: int, e: ErrorModel)
    requires
        0 <= i <= j < vals.len(),
        forall|k: int| i <= k < j ==> decode_value_spec(vals[k], inner) is Ok,
        decode_value_spec(vals[j], inner) == Err::<ValModel, ErrorModel>(e),
    ensures
        seq_values_spec(vals, inner, i) == Err::<Seq<ValModel>, ErrorModel>(e),
    decreases j - i,
{
    if i < j {
        lemma_seq_values_err(vals, inner, i + 1, j, e);
    }
}

proof fn lemma_seq_values_ok(vals: Seq<Seq<char>>, inner: Shape, models: Seq<ValModel>, i: int)
    requires
        0 <= i <= vals.len(),
        models.len() == vals.len(),
        forall|k: int| i <= k < vals.len() ==> decode_value_spec(vals[k], inner) == Ok::<
            ValModel,
            ErrorModel,
        >(models[k]),
    ensures
        seq_values_spec(vals, inner, i) == Ok::<Seq<ValModel>, ErrorModel>(
            models.subrange(i, vals.len() as int),
        ),
    decreases vals.len() - i,
{
    if i < vals.len() {
        lemma_seq_values_ok(vals, inner, models, i + 1);
        assert(models.subrange(i, vals.len() as int) =~= seq![models[i]] + models.subrange(
            i + 1,
            vals.len() as int,
        ));
    } else {
        assert(models.subrange(i, vals.len() as int) =~= Seq::<ValModel>::empty());
    }
}

/// The models of the items of `items`, one by one.
pub proof fn lemma_values_model(items: Vec<DecodedValue>, i: int)
    requires
        0 <= i <= items@.len(),
    ensures
        values_model(items, i) == Seq::new((items@.len() - i) as nat, |k: int| value_model(items@[i + k])),
    decreases items@.len() - i,
{
    if i < items@.len() {
        lemma_values_model(items, i + 1);
    }
    assert(values_model(items, i) =~= Seq::new(
        (items@.len() - i) as nat,
        |k: int| value_model(items@[i + k]),
    ));
}

/// Decode one attribute's raw string value against the leaf `shape`.
pub fn deserialize_value(raw: &str, shape: &Shape) -> (r: Result<
    DecodedValue,
    HeadersDeserializationError,
>)
    ensures
        match r {
            Ok(v) => decode_value_spec(raw@, *shape) == Ok::<ValModel, ErrorModel>(v@),
            Err(e) => decode_value_spec(raw@, *shape) == Err::<ValModel, ErrorModel>(e@),
        },
    decreases *shape,
{
    match shape {
        Shape::Unit => Ok(DecodedValue::Unit),
        Shape::Wrapper(inner) => deserialize_value(raw, &**inner),
        Shape::Bool => match parse_bool(raw) {
            Some(b) => Ok(DecodedValue::Bool(b)),
            None => Err(
                translate_parse_error(
                    "deserialize_bool",
                    "provided string was not `true` or `false`".to_owned(),
                ),
            ),
        },
        Shape::U8 => match parse_unsigned(raw, 0xff) {
            Ok(v) => Ok(DecodedValue::U8(v as u8)),
            Err(e) => Err(translate_parse_error("deserialize_u8", int_error_message(e).to_owned())),
        },
        Shape::U16 => match parse_unsigned(raw, 0xffff) {
            Ok(v) => Ok(DecodedValue::U16(v as u16)),
            Err(e) => Err(
                translate_parse_error("deserialize_u16", int_error_message(e).to_owned()),
            ),
        },
        Shape::U32 => match parse_unsigned(raw, 0xffff_ffff) {
            Ok(v) => Ok(DecodedValue::U32(v as u32)),
            Err(e) => Err(
                translate_parse_error("deserialize_u32", int_error_message(e).to_owned()),
            ),
        },
        Shape::U64 => match parse_unsigned(raw, 0xffff_ffff_ffff_ffff) {
            Ok(v) => Ok(DecodedValue::U64(v)),
            Err(e) => Err(
                translate_parse_error("deserialize_u64", int_error_message(e).to_owned()),
            ),
        },
        Shape::I8 => match parse_signed(raw, -0x80, 0x7f) {
            Ok(v) => Ok(DecodedValue::I8(v as i8)),
            Err(e) => Err(translate_parse_error("deserialize_i8", int_error_message(e).to_owned())),
        },
        Shape::I16 => match parse_signed(raw, -0x8000, 0x7fff) {
            Ok(v) => Ok(DecodedValue::I16(v as i16)),
            Err(e) => Err(
                translate_parse_error("deserialize_i16", int_error_message(e).to_owned()),
            ),
        },
        Shape::I32 => match parse_signed(raw, -0x8000_0000, 0x7fff_ffff) {
            Ok(v) => Ok(DecodedValue::I32(v as i32)),
            Err(e) => Err(
                translate_parse_error("deserialize_i32", int_error_message(e).to_owned()),
            ),
        },
        Shape::I64 => match parse_signed(raw, -0x8000_0000_0000_0000, 0x7fff_ffff_ffff_ffff) {
            Ok(v) => Ok(DecodedValue::I64(v)),
            Err(e) => Err(
                translate_parse_error("deserialize_i64", int_error_message(e).to_owned()),
            ),
        },
        Shape::F32 => if is_float_literal_str(raw) {
            Ok(DecodedValue::F32Text(raw.to_owned()))
        } else {
            Err(translate_parse_error("deserialize_f32", "invalid float literal".to_owned()))
        },
        Shape::F64 => if is_float_literal_str(raw) {
            Ok(DecodedValue::F64Text(raw.to_owned()))
        } else {
            Err(translate_parse_error("deserialize_f64", "invalid float literal".to_owned()))
        },
        Shape::Char => if raw.unicode_len() == 0 {
            Err(
                HeadersDeserializationError::InvalidState {
                    msg: "empty string provided for HTTP header, unable to extract char value",
                },
            )
        } else {
            Ok(DecodedValue::Char(raw.get_char(0)))
        },
        Shape::Str => Ok(DecodedValue::Str(raw.to_owned())),
        Shape::Bytes => Ok(DecodedValue::Bytes(raw.as_bytes_vec())),
        Shape::Optional(inner) => match deserialize_value(raw, &**inner) {
            Ok(v) => Ok(DecodedValue::Present(Box::new(v))),
            Err(e) => Err(e),
        },
        Shape::EnumUnit(variants) => {
            let n = variants.len();
            let mut k: usize = 0;
            while k < n
                invariant
                    *shape == Shape::EnumUnit(*variants),
                    k <= n,
                    n == variants@.len(),
                    forall|j: int| 0 <= j < k ==> variants[j].name@ != raw@,
                decreases n - k,
            {
                if str_eq(variants[k].name.as_str(), raw) {
                    proof {
                        lemma_variant_index_prefix(*variants, raw@, k as int);
                    }
                    let p = variants[k].payload;
                    match p {
                        PayloadKind::Unit => {
                            return Ok(DecodedValue::Variant(raw.to_owned()));
                        }
                        PayloadKind::Newtype => {
                            return Err(
                                HeadersDeserializationError::InvalidValueType {
                                    msg: payload_message(p),
                                },
                            );
                        }
                        PayloadKind::Tuple => {
                            return Err(
                                HeadersDeserializationError::InvalidValueType {
                                    msg: payload_message(p),
                                },
                            );
                        }
                        PayloadKind::Struct => {
                            return Err(
                                HeadersDeserializationError::InvalidValueType {
                                    msg: payload_message(p),
                                },
                            );
                        }
                    }
                }
                k = k + 1;
            }
            proof {
                lemma_variant_index_prefix(*variants, raw@, n as int);
            }
            Ok(DecodedValue::Variant(raw.to_owned()))
        },
        Shape::Sequence(inner) => {
            let parts = split_multi_values(raw);
            let ghost vals = multi_values(raw@);
            let mut items: Vec<DecodedValue> = Vec::new();
            let mut idx: usize = 0;
            while idx < parts.len()
                invariant
                    *shape == Shape::Sequence(*inner),
                    idx <= parts.len(),
                    parts.deep_view() == vals,
                    vals == multi_values(raw@),
                    vals.len() == parts@.len(),
                    items@.len() == idx,
                    forall|j: int| 0 <= j < idx ==> decode_value_spec(vals[j], **inner) == Ok::<
                        ValModel,
                        ErrorModel,
                    >(value_model(items@[j])),
                decreases parts.len() - idx,
            {
                proof {
                    assert(parts.deep_view()[idx as int] == parts@[idx as int]@);
                }
                match deserialize_value(parts[idx].as_str(), &**inner) {
                    Ok(v) => {
                        items.push(v);
                    }
                    Err(e) => {
                        proof {
                            lemma_seq_values_err(vals, **inner, 0, idx as int, e@);
                        }
                        return Err(e);
                    }
                }
                idx = idx + 1;
            }
            proof {
                let models = Seq::new(items@.len() as nat, |j: int| value_model(items@[j]));
                lemma_seq_values_ok(vals, **inner, models, 0);
                assert(models.subrange(0, vals.len() as int) =~= models);
                lemma_values_model(items, 0);
                assert(values_model(items, 0) =~= models);
            }
            Ok(DecodedValue::Values(items))
        },
        Shape::Record(_) => Err(
            HeadersDeserializationError::InvalidValueType {
                msg: "unsuitable type (struct) for attribute value",
            },
        ),
        Shape::Tuple(_) => Err(
            HeadersDeserializationError::InvalidValueType {
                msg: "unsuitable type (tuple) for attribute value",
            },
        ),
        Shape::MapTo(_) => Err(
            HeadersDeserializationError::InvalidValueType {
                msg: "unsuitable type (map) for attribute value",
            },
        ),
        Shape::Any => Err(
            HeadersDeserializationError::InvalidValueType {
                msg: "unsuitable type (any) for attribute value",
            },
        ),
    }
}

} // verus!
