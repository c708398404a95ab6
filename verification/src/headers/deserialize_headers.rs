//! Decoding of a whole attribute collection into a composite target shape.
//!
//! [`decode_spec`] states what every outcome is; [`deserialize`] computes
//! it.  Records resolve attribute names case-insensitively, tuples decode
//! every slot independently from the whole collection, and maps take every
//! visible attribute under its lowercased name.  A leaf shape at the top
//! level is rejected: a flat name/value collection has no field-name
//! concept to anchor it.

use vstd::prelude::*;

use super::deserialize_values::{decode_value_spec, deserialize_value};
use super::shapes::{AttributeSet, AttrModel, Field, Shape};
use super::textops::{has_upper, has_uppercase, lower_of, lowercase, str_eq};
use super::values::{
    entries_map_model, entries_model, value_model, values_model, DecodedValue, ValModel,
};
use super::{ErrorModel, HeadersDeserializationError};

verus! {

/// The names of the declared fields, in order.
pub open spec fn field_names(fields: Vec<Field>) -> Seq<Seq<char>> {
    fields@.map_values(|f: Field| f.name@)
}

/// The index of the last field among `fnames[0..i]` that contains an
/// uppercase character and whose lowercased name is `low`, or `-1` if none
/// does.  Only such fields take part in case-insensitive name recovery; an
/// already-lowercase field name is matched by its own text alone.
pub open spec fn mapped_field(fnames: Seq<Seq<char>>, low: Seq<char>, i: int) -> int
    decreases i,
{
    if 0 < i <= fnames.len() {
        if has_upper(fnames[i - 1]) && lower_of(fnames[i - 1]) == low {
            i - 1
        } else {
            mapped_field(fnames, low, i - 1)
        }
    } else {
        -1
    }
}

/// The field key an attribute named `name` produces: the original-cased
/// field name recovered through the lowercase mapping where one exists,
/// else the lowercased attribute name itself.
pub open spec fn derived_key(fnames: Seq<Seq<char>>, name: Seq<char>) -> Seq<char> {
    let low = lower_of(name);
    let j = mapped_field(fnames, low, fnames.len() as int);
    if j == -1 {
        low
    } else {
        fnames[j]
    }
}

/// The index of the last visible attribute among `attrs[0..i]` whose
/// derived key is `fname`, or `-1` if none matches.
pub open spec fn last_match(
    attrs: Seq<AttrModel>,
    fnames: Seq<Seq<char>>,
    fname: Seq<char>,
    i: int,
) -> int
    decreases i,
{
    if 0 < i <= attrs.len() {
        if attrs[i - 1].visible() && derived_key(fnames, attrs[i - 1].name) == fname {
            i - 1
        } else {
            last_match(attrs, fnames, fname, i - 1)
        }
    } else {
        -1
    }
}

/// What one declared field decodes to: the matching attribute's value
/// decoded with the field's leaf shape; absence decodes to nothing for an
/// optional field and is an error for any other.
pub open spec fn field_value_spec(
    attrs: Seq<AttrModel>,
    fnames: Seq<Seq<char>>,
    f: Field,
) -> Result<ValModel, ErrorModel> {
    let j = last_match(attrs, fnames, f.name@, attrs.len() as int);
    if j == -1 {
        if f.shape is Optional {
            Ok(ValModel::Absent)
        } else {
            Err(ErrorModel::InvalidState { msg: "missing value for required attribute"@ })
        }
    } else {
        decode_value_spec(attrs[j].raw(), f.shape)
    }
}

/// What the declared fields `fields[i..]` decode to, in declaration order,
/// or the first failing field's error.
pub open spec fn record_fields_spec(
    attrs: Seq<AttrModel>,
    fnames: Seq<Seq<char>>,
    fields: Vec<Field>,
    i: int,
) -> Result<Seq<(Seq<char>, ValModel)>, ErrorModel>
    decreases fields@.len() - i,
{
    if i < 0 || i >= fields@.len() {
        Ok(Seq::<(Seq<char>, ValModel)>::empty())
    } else {
        match field_value_spec(attrs, fnames, fields[i]) {
            Ok(v) => match record_fields_spec(attrs, fnames, fields, i + 1) {
                Ok(rest) => Ok(seq![(fields[i].name@, v)] + rest),
                Err(e) => Err(e),
            },
            Err(e) => Err(e),
        }
    }
}

/// What the tuple slots `shapes[i..]` decode to, each from the whole
/// attribute collection independently, or the first failing slot's error.
pub open spec fn tuple_values_spec(attrs: Seq<AttrModel>, shapes: Vec<Shape>, i: int) -> Result<
    Seq<ValModel>,
    ErrorModel,
>
    decreases shapes, 0int, shapes@.len() - i,
{
    if i < 0 || i >= shapes@.len() {
        Ok(Seq::<ValModel>::empty())
    } else {
        match decode_spec(attrs, shapes[i]) {
            Ok(v) => match tuple_values_spec(attrs, shapes, i + 1) {
                Ok(rest) => Ok(seq![v] + rest),
                Err(e) => Err(e),
            },
            Err(e) => Err(e),
        }
    }
}

/// What the first `i` attributes contribute to a map decode: every visible
/// attribute's value, decoded with the uniform leaf shape and filed under
/// the lowercased attribute name, a later attribute superseding an earlier
/// one with the same key; or the first failing value's error.
pub open spec fn map_entries_spec(attrs: Seq<AttrModel>, vshape: Shape, i: int) -> Result<
    Map<Seq<char>, ValModel>,
    ErrorModel,
>
    decreases i,
{
    if 0 < i <= attrs.len() {
        match map_entries_spec(attrs, vshape, i - 1) {
            Ok(m) => {
                let a = attrs[i - 1];
                if a.visible() {
                    match decode_value_spec(a.raw(), vshape) {
                        Ok(v) => Ok(m.insert(lower_of(a.name), v)),
                        Err(e) => Err(e),
                    }
                } else {
                    Ok(m)
                }
            }
            Err(e) => Err(e),
        }
    } else {
        Ok(Map::<Seq<char>, ValModel>::empty())
    }
}

/// The diagnostic for a shape that cannot stand at the top level.
pub open spec fn top_level_message_spec(shape: Shape) -> Seq<char> {
    match shape {
        Shape::Bool => "unsuitable scalar type (bool) as top-level user attributes type"@,
        Shape::U8 => "unsuitable scalar type (u8) as top-level user attributes type"@,
        Shape::U16 => "unsuitable scalar type (u16) as top-level user attributes type"@,
        Shape::U32 => "unsuitable scalar type (u32) as top-level user attributes type"@,
        Shape::U64 => "unsuitable scalar type (u64) as top-level user attributes type"@,
        Shape::I8 => "unsuitable scalar type (i8) as top-level user attributes type"@,
        Shape::I16 => "unsuitable scalar type (i16) as top-level user attributes type"@,
        Shape::I32 => "unsuitable scalar type (i32) as top-level user attributes type"@,
        Shape::I64 => "unsuitable scalar type (i64) as top-level user attributes type"@,
        Shape::F32 => "unsuitable scalar type (32-bit float) as top-level user attributes type"@,
        Shape::F64 => "unsuitable scalar type (64-bit float) as top-level user attributes type"@,
        Shape::Char => "unsuitable scalar type (char) as top-level user attributes type"@,
        Shape::Str => "unsuitable type (str) as top-level user attributes type"@,
        Shape::Bytes => "unsuitable type (bytes) as top-level user attributes type"@,
        Shape::Optional(_) => "unsuitable type (Option<_>) as top-level user attributes type"@,
        Shape::EnumUnit(_) => "unsuitable type (enum) as top-level user attributes type"@,
        Shape::Sequence(_) => "unsuitable type (sequence) as top-level user attributes type"@,
        Shape::Any => "unsuitable type (any) as top-level user attributes type"@,
        _ => ""@,
    }
}

/// What decoding the whole attribute collection against `shape` yields.
pub open spec fn decode_spec(attrs: Seq<AttrModel>, shape: Shape) -> Result<ValModel, ErrorModel>
    decreases shape, 0int, 0int,
{
    match shape {
        Shape::Unit => Ok(ValModel::Unit),
        Shape::Wrapper(inner) => decode_spec(attrs, *inner),
        Shape::Record(fields) => match record_fields_spec(attrs, field_names(fields), fields, 0) {
            Ok(entries) => Ok(ValModel::Record(entries)),
            Err(e) => Err(e),
        },
        Shape::Tuple(shapes) => match tuple_values_spec(attrs, shapes, 0) {
            Ok(items) => Ok(ValModel::Tuple(items)),
            Err(e) => Err(e),
        },
        Shape::MapTo(vshape) => match map_entries_spec(attrs, *vshape, attrs.len() as int) {
            Ok(m) => Ok(ValModel::MapEntries(m)),
            Err(e) => Err(e),
        },
        _ => Err(ErrorModel::InvalidTopLevelType { msg: top_level_message_spec(shape) }),
    }
}

/// The diagnostic for a shape that cannot stand at the top level.
fn top_level_message(shape: &Shape) -> (r: &'static str)
    ensures
        r@ == top_level_message_spec(*shape),
{
    match shape {
        Shape::Bool => "unsuitable scalar type (bool) as top-level user attributes type",
        Shape::U8 => "unsuitable scalar type (u8) as top-level user attributes type",
        Shape::U16 => "unsuitable scalar type (u16) as top-level user attributes type",
        Shape::U32 => "unsuitable scalar type (u32) as top-level user attributes type",
        Shape::U64 => "unsuitable scalar type (u64) as top-level user attributes type",
        Shape::I8 => "unsuitable scalar type (i8) as top-level user attributes type",
        Shape::I16 => "unsuitable scalar type (i16) as top-level user attributes type",
        Shape::I32 => "unsuitable scalar type (i32) as top-level user attributes type",
        Shape::I64 => "unsuitable scalar type (i64) as top-level user attributes type",
        Shape::F32 => "unsuitable scalar type (32-bit float) as top-level user attributes type",
        Shape::F64 => "unsuitable scalar type (64-bit float) as top-level user attributes type",
        Shape::Char => "unsuitable scalar type (char) as top-level user attributes type",
        Shape::Str => "unsuitable type (str) as top-level user attributes type",
        Shape::Bytes => "unsuitable type (bytes) as top-level user attributes type",
        Shape::Optional(_) => "unsuitable type (Option<_>) as top-level user attributes type",
        Shape::EnumUnit(_) => "unsuitable type (enum) as top-level user attributes type",
        Shape::Sequence(_) => "unsuitable type (sequence) as top-level user attributes type",
        Shape::Any => "unsuitable type (any) as top-level user attributes type",
        _ => "",
    }
}

/// The field key an attribute named `name` produces for these fields.
fn derived_key_exec(fields: &Vec<Field>, name: &str) -> (r: String)
    ensures
        r@ == derived_key(field_names(*fields), name@),
{
    let low = lowercase(name);
    let mut j = fields.len();
    while j > 0
        invariant
            j <= fields@.len(),
            low@ == lower_of(name@),
            mapped_field(field_names(*fields), lower_of(name@), fields@.len() as int)
                == mapped_field(field_names(*fields), lower_of(name@), j as int),
        decreases j,
    {
        j = j - 1;
        proof {
            assert(field_names(*fields)[j as int] == fields@[j as int].name@);
        }
        if has_uppercase(fields[j].name.as_str()) {
            let fl = lowercase(fields[j].name.as_str());
            if str_eq(fl.as_str(), low.as_str()) {
                return fields[j].name.clone();
            }
        }
    }
    low
}

/// What a non-negative last-match index always is: in range, visible,
/// and carrying the looked-up field name as its derived key.
pub proof fn lemma_last_match_props(
    attrs: Seq<AttrModel>,
    fnames: Seq<Seq<char>>,
    fname: Seq<char>,
    i: int,
)
    requires
        0 <= i <= attrs.len(),
    ensures
        ({
            let r = last_match(attrs, fnames, fname, i);
            r == -1 || (0 <= r < i && attrs[r].visible() && derived_key(fnames, attrs[r].name)
                == fname)
        }),
    decreases i,
{
    if i > 0 {
        lemma_last_match_props(attrs, fnames, fname, i - 1);
    }
}

/// The index of the last visible attribute whose derived key is `fname`.
fn find_last_match(attrs: &AttributeSet, fields: &Vec<Field>, fname: &str) -> (r: Option<usize>)
    ensures
        match r {
            Some(j) => j < attrs@.len() && last_match(
                attrs@,
                field_names(*fields),
                fname@,
                attrs@.len() as int,
            ) == j as int,
            None => last_match(attrs@, field_names(*fields), fname@, attrs@.len() as int) == -1,
        },
{
    let n = attrs.entries.len();
    let mut j = n;
    while j > 0
        invariant
            j <= n,
            n == attrs@.len(),
            attrs@.len() == attrs.entries@.len(),
            last_match(attrs@, field_names(*fields), fname@, n as int) == last_match(
                attrs@,
                field_names(*fields),
                fname@,
                j as int,
            ),
        decreases j,
    {
        j = j - 1;
        proof {
            assert(attrs@[j as int] == attrs.entries@[j as int]@);
        }
        let a = &attrs.entries[j];
        if a.values.len() == 1 {
            let key = derived_key_exec(fields, a.name.as_str());
            if str_eq(key.as_str(), fname) {
                return Some(j);
            }
        }
    }
    None
}

proof fn lemma_record_err(
    attrs: Seq<AttrModel>,
    fnames: Seq<Seq<char>>,
    fields: Vec<Field>,
    i: int,
    j: int,
    e: ErrorModel,
)
    requires
        0 <= i <= j < fields@.len(),
        forall|k: int| i <= k < j ==> field_value_spec(attrs, fnames, fields[k]) is Ok,
        field_value_spec(attrs, fnames, fields[j]) == Err::<ValModel, ErrorModel>(e),
    ensures
        record_fields_spec(attrs, fnames, fields, i) == Err::<Seq<(Seq<char>, ValModel)>, ErrorModel>(e),
    decreases j - i,
{
    if i < j {
        lemma_record_err(attrs, fnames, fields, i + 1, j, e);
    }
}

proof fn lemma_record_ok(
    attrs: Seq<AttrModel>,
    fnames: Seq<Seq<char>>,
    fields: Vec<Field>,
    models: Seq<(Seq<char>, ValModel)>,
    i: int,
)
    requires
        0 <= i <= fields@.len(),
        models.len() == fields@.len(),
        forall|k: int| i <= k < fields@.len() ==> models[k].0 == fields@[k].name@
            && field_value_spec(attrs, fnames, fields[k]) == Ok::<ValModel, ErrorModel>(
            models[k].1,
        ),
    ensures
        record_fields_spec(attrs, fnames, fields, i) == Ok::<
            Seq<(Seq<char>, ValModel)>,
            ErrorModel,
        >(models.subrange(i, fields@.len() as int)),
    decreases fields@.len() - i,
{
    if i < fields@.len() {
        lemma_record_ok(attrs, fnames, fields, models, i + 1);
        assert(models.subrange(i, fields@.len() as int) =~= seq![models[i]] + models.subrange(
            i + 1,
            fields@.len() as int,
        ));
        assert(models[i] == (fields@[i].name@, models[i].1));
    } else {
        assert(models.subrange(i, fields@.len() as int) =~= Seq::<(Seq<char>, ValModel)>::empty());
    }
}

/// The models of the named entries of `entries`, one by one.
pub proof fn lemma_entries_model(entries: Vec<(String, DecodedValue)>, i: int)
    requires
        0 <= i <= entries@.len(),
    ensures
        entries_model(entries, i) == Seq::new(
            (entries@.len() - i) as nat,
            |k: int| (entries@[i + k].0@, value_model(entries@[i + k].1)),
        ),
    decreases entries@.len() - i,
{
    if i < entries@.len() {
        lemma_entries_model(entries, i + 1);
    }
    assert(entries_model(entries, i) =~= Seq::new(
        (entries@.len() - i) as nat,
        |k: int| (entries@[i + k].0@, value_model(entries@[i + k].1)),
    ));
}

/// Decode a record shape: resolve each declared field against the
/// attribute collection and decode its value.
fn deserialize_record(attrs: &AttributeSet, fields: &Vec<Field>) -> (r: Result<
    DecodedValue,
    HeadersDeserializationError,
>)
    ensures
        match r {
            Ok(v) => decode_spec(attrs@, Shape::Record(*fields)) == Ok::<ValModel, ErrorModel>(v@),
            Err(e) => decode_spec(attrs@, Shape::Record(*fields)) == Err::<ValModel, ErrorModel>(
                e@,
            ),
        },
{
    let n = fields.len();
    let mut entries: Vec<(String, DecodedValue)> = Vec::new();
    let mut fi: usize = 0;
    while fi < n
        invariant
            fi <= n,
            n == fields@.len(),
            attrs@.len() == attrs.entries@.len(),
            entries@.len() == fi,
            forall|k: int| 0 <= k < fi ==> entries@[k].0@ == fields@[k].name@
                && field_value_spec(attrs@, field_names(*fields), fields[k]) == Ok::<
                ValModel,
                ErrorModel,
            >(value_model(entries@[k].1)),
        decreases n - fi,
    {
        let ghost fnames = field_names(*fields);
        let f = &fields[fi];
        match find_last_match(attrs, fields, f.name.as_str()) {
            Some(j) => {
                proof {
                    lemma_last_match_props(attrs@, fnames, f.name@, attrs@.len() as int);
                    assert(attrs@[j as int] == attrs.entries@[j as int]@);
                    assert(attrs@[j as int].values.len() == attrs.entries@[j as int].values@.len());
                }
                let raw = &attrs.entries[j].values[0];
                proof {
                    assert(attrs@[j as int].raw() == raw@);
                }
                match deserialize_value(raw.as_str(), &f.shape) {
                    Ok(v) => {
                        entries.push((f.name.clone(), v));
                    }
                    Err(e) => {
                        proof {
                            lemma_record_err(attrs@, fnames, *fields, 0, fi as int, e@);
                        }
                        return Err(e);
                    }
                }
            }
            None => {
                match &f.shape {
                    Shape::Optional(_) => {
                        entries.push((f.name.clone(), DecodedValue::Absent));
                    }
                    _ => {
                        let e = HeadersDeserializationError::InvalidState {
                            msg: "missing value for required attribute",
                        };
                        proof {
                            lemma_record_err(attrs@, fnames, *fields, 0, fi as int, e@);
                        }
                        return Err(e);
                    }
                }
            }
        }
        fi = fi + 1;
    }
    proof {
        let fnames = field_names(*fields);
        let models = Seq::new(
            fields@.len() as nat,
            |k: int| (fields@[k].name@, value_model(entries@[k].1)),
        );
        lemma_record_ok(attrs@, fnames, *fields, models, 0);
        assert(models.subrange(0, fields@.len() as int) =~= models);
        lemma_entries_model(entries, 0);
        assert(entries_model(entries, 0) =~= models);
    }
    Ok(DecodedValue::Record(entries))
}

proof fn lemma_map_err_persists(attrs: Seq<AttrModel>, vshape: Shape, i: int, j: int, e: ErrorModel)
    requires
        0 <= i <= j <= attrs.len(),
        map_entries_spec(attrs, vshape, i) == Err::<Map<Seq<char>, ValModel>, ErrorModel>(e),
    ensures
        map_entries_spec(attrs, vshape, j) == Err::<Map<Seq<char>, ValModel>, ErrorModel>(e),
    decreases j - i,
{
    if i < j {
        lemma_map_err_persists(attrs, vshape, i, j - 1, e);
    }
}

proof fn lemma_map_model_prefix(
    v1: Vec<(String, DecodedValue)>,
    v2: Vec<(String, DecodedValue)>,
    j: int,
)
    requires
        0 <= j <= v1@.len(),
        j <= v2@.len(),
        forall|k: int| 0 <= k < j ==> v1@[k] == v2@[k],
    ensures
        entries_map_model(v1, j) == entries_map_model(v2, j),
    decreases j,
{
    if j > 0 {
        lemma_map_model_prefix(v1, v2, j - 1);
    }
}

/// Decode a map shape: every visible attribute under its lowercased name,
/// each value decoded with the uniform leaf shape.
fn deserialize_map(attrs: &AttributeSet, vshape: &Shape) -> (r: Result<
    DecodedValue,
    HeadersDeserializationError,
>)
    ensures
        match r {
            Ok(v) => map_entries_spec(attrs@, *vshape, attrs@.len() as int) is Ok && v@
                == ValModel::MapEntries(
                map_entries_spec(attrs@, *vshape, attrs@.len() as int)->Ok_0,
            ),
            Err(e) => map_entries_spec(attrs@, *vshape, attrs@.len() as int) == Err::<
                Map<Seq<char>, ValModel>,
                ErrorModel,
            >(e@),
        },
{
    let n = attrs.entries.len();
    let mut entries: Vec<(String, DecodedValue)> = Vec::new();
    let mut i: usize = 0;
    while i < n
        invariant
            i <= n,
            n == attrs@.len(),
            attrs@.len() == attrs.entries@.len(),
            map_entries_spec(attrs@, *vshape, i as int) == Ok::<
                Map<Seq<char>, ValModel>,
                ErrorModel,
            >(entries_map_model(entries, entries@.len() as int)),
        decreases n - i,
    {
        proof {
            assert(attrs@[i as int] == attrs.entries@[i as int]@);
        }
        let a = &attrs.entries[i];
        if a.values.len() == 1 {
            let raw = &a.values[0];
            proof {
                assert(attrs@[i as int].raw() == raw@);
            }
            match deserialize_value(raw.as_str(), vshape) {
                Ok(v) => {
                    let key = lowercase(a.name.as_str());
                    let ghost before = entries;
                    entries.push((key, v));
                    proof {
                        lemma_map_model_prefix(entries, before, before@.len() as int);
                        assert(entries_map_model(entries, entries@.len() as int)
                            == entries_map_model(before, before@.len() as int).insert(
                            lower_of(attrs@[i as int].name),
                            value_model(v),
                        ));
                    }
                }
                Err(e) => {
                    proof {
                        lemma_map_err_persists(attrs@, *vshape, i + 1, attrs@.len() as int, e@);
                    }
                    return Err(e);
                }
            }
        }
        i = i + 1;
    }
    Ok(DecodedValue::MapEntries(entries))
}

proof fn lemma_tuple_err(attrs: Seq<AttrModel>, shapes: Vec<Shape>, i: int, j: int, e: ErrorModel)
    requires
        0 <= i <= j < shapes@.len(),
        forall|k: int| i <= k < j ==> decode_spec(attrs, shapes[k]) is Ok,
        decode_spec(attrs, shapes[j]) == Err::<ValModel, ErrorModel>(e),
    ensures
        tuple_values_spec(attrs, shapes, i) == Err::<Seq<ValModel>, ErrorModel>(e),
    decreases j - i,
{
    if i < j {
        lemma_tuple_err(attrs, shapes, i + 1, j, e);
    }
}

proof fn lemma_tuple_ok(attrs: Seq<AttrModel>, shapes: Vec<Shape>, models: Seq<ValModel>, i: int)
    requires
        0 <= i <= shapes@.len(),
        models.len() == shapes@.len(),
        forall|k: int| i <= k < shapes@.len() ==> decode_spec(attrs, shapes[k]) == Ok::<
            ValModel,
            ErrorModel,
        >(models[k]),
    ensures
        tuple_values_spec(attrs, shapes, i) == Ok::<Seq<ValModel>, ErrorModel>(
            models.subrange(i, shapes@.len() as int),
        ),
    decreases shapes@.len() - i,
{
    if i < shapes@.len() {
        lemma_tuple_ok(attrs, shapes, models, i + 1);
        assert(models.subrange(i, shapes@.len() as int) =~= seq![models[i]] + models.subrange(
            i + 1,
            shapes@.len() as int,
        ));
    } else {
        assert(models.subrange(i, shapes@.len() as int) =~= Seq::<ValModel>::empty());
    }
}

/// Decode the whole attribute collection against the target `shape`.
pub fn deserialize(attrs: &AttributeSet, shape: &Shape) -> (r: Result<
    DecodedValue,
    HeadersDeserializationError,
>)
    ensures
        match r {
            Ok(v) => decode_spec(attrs@, *shape) == Ok::<ValModel, ErrorModel>(v@),
            Err(e) => decode_spec(attrs@, *shape) == Err::<ValModel, ErrorModel>(e@),
        },
    decreases *shape,
{
    match shape {
        Shape::Unit => Ok(DecodedValue::Unit),
        Shape::Wrapper(inner) => deserialize(attrs, &**inner),
        Shape::Record(fields) => deserialize_record(attrs, fields),
        Shape::Tuple(shapes) => {
            let n = shapes.len();
            let mut items: Vec<DecodedValue> = Vec::new();
            let mut idx: usize = 0;
            while idx < n
                invariant
                    *shape == Shape::Tuple(*shapes),
                    idx <= n,
                    n == shapes@.len(),
                    items@.len() == idx,
                    forall|k: int| 0 <= k < idx ==> decode_spec(attrs@, shapes@[k]) == Ok::<
                        ValModel,
                        ErrorModel,
                    >(value_model(items@[k])),
                decreases n - idx,
            {
                match deserialize(attrs, &shapes[idx]) {
                    Ok(v) => {
                        items.push(v);
                    }
                    Err(e) => {
                        proof {
                            lemma_tuple_err(attrs@, *shapes, 0, idx as int, e@);
                        }
                        return Err(e);
                    }
                }
                idx = idx + 1;
            }
            proof {
                let models = Seq::new(items@.len() as nat, |k: int| value_model(items@[k]));
                lemma_tuple_ok(attrs@, *shapes, models, 0);
                assert(models.subrange(0, shapes@.len() as int) =~= models);
                super::deserialize_values::lemma_values_model(items, 0);
                assert(values_model(items, 0) =~= models);
            }
            Ok(DecodedValue::Tuple(items))
        },
        Shape::MapTo(vshape) => deserialize_map(attrs, &**vshape),
        _ => Err(
            HeadersDeserializationError::InvalidTopLevelType { msg: top_level_message(shape) },
        ),
    }
}

} // verus!
