//! The decoder's guarantees, stated and proved once for all inputs: what
//! unmatched attributes, case-insensitive lookup, optional fields, tuple
//! slots, canonical primitive texts and unsuitable shapes do on every
//! decode.

use vstd::prelude::*;

use super::deserialize_headers::{
    decode_spec, derived_key, field_names, field_value_spec, last_match, record_fields_spec,
    top_level_message_spec, tuple_values_spec,
};
use super::deserialize_values::{
    decode_value_spec, enum_value_spec, payload_message_spec, variant_index,
};
use super::numbers::{
    digit_val, is_dec_digit, is_float_literal, parse_signed_spec, parse_unsigned_spec, scan_digits,
    scan_digits_neg, IntParseError,
};
use super::shapes::{AttrModel, Field, PayloadKind, Shape, VariantShape};
use super::textops::{has_upper, lower_of};
use super::values::ValModel;
use super::ErrorModel;

verus! {

// --- Unmatched attributes are ignored -----------------------------------

proof fn lemma_last_match_remove(
    attrs: Seq<AttrModel>,
    fnames: Seq<Seq<char>>,
    fname: Seq<char>,
    i: int,
    j: int,
)
    requires
        0 <= i < attrs.len(),
        !(attrs[i].visible() && derived_key(fnames, attrs[i].name) == fname),
        0 <= j <= attrs.len(),
    ensures
        ({
            let r = last_match(attrs, fnames, fname, j);
            let jj: int = if j <= i {
                j
            } else {
                j - 1
            };
            last_match(attrs.remove(i), fnames, fname, jj) == (if r < i {
                r
            } else {
                r - 1
            })
        }),
    decreases j,
{
    assert forall|k: int| 0 <= k < attrs.len() - 1 implies attrs.remove(i)[k] == (if k < i {
        attrs[k]
    } else {
        attrs[k + 1]
    }) by {
        assert(attrs.remove(i) =~= attrs.subrange(0, i) + attrs.subrange(
            i + 1,
            attrs.len() as int,
        ));
    }
    if j > 0 {
        lemma_last_match_remove(attrs, fnames, fname, i, j - 1);
    }
}

proof fn lemma_record_fields_congruent(
    attrs1: Seq<AttrModel>,
    attrs2: Seq<AttrModel>,
    fnames: Seq<Seq<char>>,
    fields: Vec<Field>,
    i: int,
)
    requires
        0 <= i <= fields@.len(),
        forall|k: int| 0 <= k < fields@.len() ==> field_value_spec(attrs1, fnames, fields[k])
            == field_value_spec(attrs2, fnames, fields[k]),
    ensures
        record_fields_spec(attrs1, fnames, fields, i) == record_fields_spec(
            attrs2,
            fnames,
            fields,
            i,
        ),
    decreases fields@.len() - i,
{
    if i < fields@.len() {
        lemma_record_fields_congruent(attrs1, attrs2, fnames, fields, i + 1);
    }
}

/// An attribute whose derived key names no declared field never changes
/// what a record decode yields: removing it from the collection gives the
/// same result, success and error alike.
pub proof fn lemma_unmatched_attribute_ignored(attrs: Seq<AttrModel>, i: int, fields: Vec<Field>)
    requires
        0 <= i < attrs.len(),
        forall|k: int| 0 <= k < fields@.len() ==> derived_key(field_names(fields), attrs[i].name)
            != fields@[k].name@,
    ensures
        decode_spec(attrs.remove(i), Shape::Record(fields)) == decode_spec(
            attrs,
            Shape::Record(fields),
        ),
{
    let fnames = field_names(fields);
    let attrs2 = attrs.remove(i);
    assert forall|k: int| 0 <= k < fields@.len() implies field_value_spec(attrs2, fnames, fields[k])
        == field_value_spec(attrs, fnames, fields[k]) by {
        let fname = fields@[k].name@;
        assert(fnames[k] == fname);
        lemma_last_match_remove(attrs, fnames, fname, i, attrs.len() as int);
        super::deserialize_headers::lemma_last_match_props(attrs, fnames, fname, attrs.len() as int);
        let r = last_match(attrs, fnames, fname, attrs.len() as int);
        if r >= 0 {
            assert(attrs2 =~= attrs.subrange(0, i) + attrs.subrange(i + 1, attrs.len() as int));
            if r < i {
                assert(attrs2[r] == attrs[r]);
            } else {
                assert(attrs2[r - 1] == attrs[r]);
            }
        }
    }
    lemma_record_fields_congruent(attrs2, attrs, fnames, fields, 0);
}

// --- Case-insensitive field lookup --------------------------------------

proof fn lemma_mapped_field_unique(fnames: Seq<Seq<char>>, low: Seq<char>, i: int, j: int)
    requires
        0 <= i < j <= fnames.len(),
        has_upper(fnames[i]),
        lower_of(fnames[i]) == low,
        forall|k: int| i < k < fnames.len() ==> lower_of(fnames[k]) != low,
    ensures
        super::deserialize_headers::mapped_field(fnames, low, j) == i,
    decreases j,
{
    if j - 1 > i {
        lemma_mapped_field_unique(fnames, low, i, j - 1);
    }
}

/// A declared field name containing an uppercase character is recovered
/// exactly by case-insensitive lookup: an attribute transmitted under the
/// field's own name derives that very field name as its key, provided no
/// other field shares its lowercase form.
pub proof fn lemma_uppercase_field_key(fields: Vec<Field>, i: int)
    requires
        0 <= i < fields@.len(),
        has_upper(fields@[i].name@),
        forall|k: int| 0 <= k < fields@.len() && k != i ==> lower_of(fields@[k].name@) != lower_of(
            fields@[i].name@,
        ),
    ensures
        derived_key(field_names(fields), fields@[i].name@) == fields@[i].name@,
{
    let fnames = field_names(fields);
    assert(fnames[i] == fields@[i].name@);
    assert forall|k: int| i < k < fnames.len() implies lower_of(fnames[k]) != lower_of(
        fields@[i].name@,
    ) by {
        assert(fnames[k] == fields@[k].name@);
    }
    lemma_mapped_field_unique(fnames, lower_of(fields@[i].name@), i, fnames.len() as int);
}

// --- Optional fields ----------------------------------------------------

/// A field declared optional whose attribute is absent decodes to nothing,
/// and never to an error.
pub proof fn lemma_optional_field_absent(
    attrs: Seq<AttrModel>,
    fnames: Seq<Seq<char>>,
    f: Field,
)
    requires
        f.shape is Optional,
        last_match(attrs, fnames, f.name@, attrs.len() as int) == -1,
    ensures
        field_value_spec(attrs, fnames, f) == Ok::<ValModel, ErrorModel>(ValModel::Absent),
{
}

/// A present attribute always decodes an optional shape as "some of the
/// inner decode": presence already implies the value is there.
pub proof fn lemma_optional_present(raw: Seq<char>, inner: Shape)
    ensures
        decode_value_spec(raw, Shape::Optional(Box::new(inner))) == (match decode_value_spec(
            raw,
            inner,
        ) {
            Ok(v) => Ok::<ValModel, ErrorModel>(ValModel::Present(Box::new(v))),
            Err(e) => Err::<ValModel, ErrorModel>(e),
        }),
{
}

// --- Tuple slots decode independently -----------------------------------

proof fn lemma_tuple_values_items(attrs: Seq<AttrModel>, shapes: Vec<Shape>, i: int, items: Seq<ValModel>)
    requires
        0 <= i <= shapes@.len(),
        tuple_values_spec(attrs, shapes, i) == Ok::<Seq<ValModel>, ErrorModel>(items),
    ensures
        items.len() == shapes@.len() - i,
        forall|k: int| i <= k < shapes@.len() ==> decode_spec(attrs, shapes@[k]) == Ok::<
            ValModel,
            ErrorModel,
        >(items[k - i]),
    decreases shapes@.len() - i,
{
    if i < shapes@.len() {
        match decode_spec(attrs, shapes[i]) {
            Ok(v) => {
                match tuple_values_spec(attrs, shapes, i + 1) {
                    Ok(rest) => {
                        lemma_tuple_values_items(attrs, shapes, i + 1, rest);
                        assert(items == seq![v] + rest);
                        assert(items[0] == v);
                        assert forall|k: int| i < k < shapes@.len() implies decode_spec(
                            attrs,
                            shapes@[k],
                        ) == Ok::<ValModel, ErrorModel>(items[k - i]) by {
                            assert(items[k - i] == rest[k - i - 1]);
                        }
                    }
                    Err(_) => {
                        assert(false);
                    }
                }
            }
            Err(_) => {
                assert(false);
            }
        }
    }
}

/// A tuple decodes each slot from the whole attribute collection
/// independently: when the tuple succeeds, every slot's own decode over
/// the same collection succeeds with exactly that slot's value.
pub proof fn lemma_tuple_slots_independent(
    attrs: Seq<AttrModel>,
    shapes: Vec<Shape>,
    items: Seq<ValModel>,
)
    requires
        decode_spec(attrs, Shape::Tuple(shapes)) == Ok::<ValModel, ErrorModel>(
            ValModel::Tuple(items),
        ),
    ensures
        items.len() == shapes@.len(),
        forall|k: int| 0 <= k < shapes@.len() ==> decode_spec(attrs, shapes@[k]) == Ok::<
            ValModel,
            ErrorModel,
        >(items[k]),
{
    match tuple_values_spec(attrs, shapes, 0) {
        Ok(rest) => {
            lemma_tuple_values_items(attrs, shapes, 0, rest);
        }
        Err(_) => {
            assert(false);
        }
    }
}

// --- Canonical primitive texts round-trip -------------------------------

/// The decimal digit character for `d`.
pub open spec fn dec_digit_char(d: int) -> char {
    if d == 0 {
        '0'
    } else if d == 1 {
        '1'
    } else if d == 2 {
        '2'
    } else if d == 3 {
        '3'
    } else if d == 4 {
        '4'
    } else if d == 5 {
        '5'
    } else if d == 6 {
        '6'
    } else if d == 7 {
        '7'
    } else if d == 8 {
        '8'
    } else {
        '9'
    }
}

/// The canonical decimal text of `n >= 0`: no sign, no leading zeros.
pub open spec fn dec_text(n: int) -> Seq<char>
    decreases n,
{
    if n < 10 {
        seq![dec_digit_char(n)]
    } else {
        dec_text(n / 10).push(dec_digit_char(n % 10))
    }
}

/// The canonical decimal text of `n`, with a leading `-` when negative.
pub open spec fn int_text(n: int) -> Seq<char> {
    if n < 0 {
        seq!['-'] + dec_text(-n)
    } else {
        dec_text(n)
    }
}

/// The value the digits of `s[i..]` accumulate onto `acc`.
pub open spec fn ext_val(s: Seq<char>, i: int, acc: int) -> int
    decreases s.len() - i,
{
    if i < 0 || i >= s.len() {
        acc
    } else {
        ext_val(s, i + 1, acc * 10 + digit_val(s[i]))
    }
}

/// The value the digits of `s[i..]` accumulate downward from `acc`.
pub open spec fn ext_val_neg(s: Seq<char>, i: int, acc: int) -> int
    decreases s.len() - i,
{
    if i < 0 || i >= s.len() {
        acc
    } else {
        ext_val_neg(s, i + 1, acc * 10 - digit_val(s[i]))
    }
}

proof fn lemma_dec_text_digits(n: int)
    requires
        n >= 0,
    ensures
        dec_text(n).len() >= 1,
        forall|k: int| 0 <= k < dec_text(n).len() ==> is_dec_digit(#[trigger] dec_text(n)[k]),
    decreases n,
{
    if n >= 10 {
        lemma_dec_text_digits(n / 10);
    }
}

proof fn lemma_ext_val_lower(s: Seq<char>, i: int, acc: int)
    requires
        0 <= i <= s.len(),
        0 <= acc,
        forall|k: int| i <= k < s.len() ==> is_dec_digit(s[k]),
    ensures
        ext_val(s, i, acc) >= acc,
    decreases s.len() - i,
{
    if i < s.len() {
        lemma_ext_val_lower(s, i + 1, acc * 10 + digit_val(s[i]));
    }
}

proof fn lemma_scan_ok(s: Seq<char>, i: int, acc: int, max: int)
    requires
        0 <= i <= s.len(),
        0 <= acc,
        forall|k: int| i <= k < s.len() ==> is_dec_digit(s[k]),
        ext_val(s, i, acc) <= max,
    ensures
        scan_digits(s, i, acc, max) == Ok::<int, IntParseError>(ext_val(s, i, acc)),
    decreases s.len() - i,
{
    if i < s.len() {
        lemma_ext_val_lower(s, i + 1, acc * 10 + digit_val(s[i]));
        lemma_scan_ok(s, i + 1, acc * 10 + digit_val(s[i]), max);
    }
}

proof fn lemma_ext_val_neg_upper(s: Seq<char>, i: int, acc: int)
    requires
        0 <= i <= s.len(),
        acc <= 0,
        forall|k: int| i <= k < s.len() ==> is_dec_digit(s[k]),
    ensures
        ext_val_neg(s, i, acc) <= acc,
    decreases s.len() - i,
{
    if i < s.len() {
        lemma_ext_val_neg_upper(s, i + 1, acc * 10 - digit_val(s[i]));
    }
}

proof fn lemma_scan_neg_ok(s: Seq<char>, i: int, acc: int, min: int)
    requires
        0 <= i <= s.len(),
        acc <= 0,
        forall|k: int| i <= k < s.len() ==> is_dec_digit(s[k]),
        ext_val_neg(s, i, acc) >= min,
    ensures
        scan_digits_neg(s, i, acc, min) == Ok::<int, IntParseError>(ext_val_neg(s, i, acc)),
    decreases s.len() - i,
{
    if i < s.len() {
        lemma_ext_val_neg_upper(s, i + 1, acc * 10 - digit_val(s[i]));
        lemma_scan_neg_ok(s, i + 1, acc * 10 - digit_val(s[i]), min);
    }
}

proof fn lemma_ext_val_push(s: Seq<char>, c: char, i: int, acc: int)
    requires
        0 <= i <= s.len(),
    ensures
        ext_val(s.push(c), i, acc) == ext_val(s, i, acc) * 10 + digit_val(c),
    decreases s.len() - i,
{
    if i < s.len() {
        assert(s.push(c)[i] == s[i]);
        lemma_ext_val_push(s, c, i + 1, acc * 10 + digit_val(s[i]));
        assert(ext_val(s, i, acc) == ext_val(s, i + 1, acc * 10 + digit_val(s[i])));
    } else {
        assert(s.push(c)[i] == c);
        assert(ext_val(s.push(c), i + 1, acc * 10 + digit_val(c)) == acc * 10 + digit_val(c));
    }
}

proof fn lemma_dec_text_val(n: int)
    requires
        n >= 0,
    ensures
        ext_val(dec_text(n), 0, 0) == n,
    decreases n,
{
    if n < 10 {
        assert(dec_text(n)[0] == dec_digit_char(n));
        assert(digit_val(dec_digit_char(n)) == n);
        assert(ext_val(dec_text(n), 1, digit_val(dec_digit_char(n))) == digit_val(
            dec_digit_char(n),
        ));
    } else {
        lemma_dec_text_val(n / 10);
        lemma_ext_val_push(dec_text(n / 10), dec_digit_char(n % 10), 0, 0);
        assert(digit_val(dec_digit_char(n % 10)) == n % 10);
    }
}

proof fn lemma_ext_val_cons(c: char, t: Seq<char>, i: int, acc: int)
    requires
        0 <= i <= t.len(),
    ensures
        ext_val(seq![c] + t, i + 1, acc) == ext_val(t, i, acc),
        ext_val_neg(seq![c] + t, i + 1, acc) == ext_val_neg(t, i, acc),
    decreases t.len() - i,
{
    if i < t.len() {
        assert((seq![c] + t)[i + 1] == t[i]);
        lemma_ext_val_cons(c, t, i + 1, acc * 10 + digit_val(t[i]));
        lemma_ext_val_cons(c, t, i + 1, acc * 10 - digit_val(t[i]));
    }
}

proof fn lemma_ext_val_neg_relation(s: Seq<char>, i: int, acc: int)
    requires
        0 <= i <= s.len(),
    ensures
        ext_val_neg(s, i, acc) == -ext_val(s, i, -acc),
    decreases s.len() - i,
{
    if i < s.len() {
        lemma_ext_val_neg_relation(s, i + 1, acc * 10 - digit_val(s[i]));
    }
}

/// The canonical decimal text of an unsigned value parses back to that
/// value, for every width bound that admits it.
pub proof fn lemma_unsigned_round_trip(n: int, max: int)
    requires
        0 <= n <= max,
    ensures
        parse_unsigned_spec(dec_text(n), max) == Ok::<int, IntParseError>(n),
{
    lemma_dec_text_digits(n);
    lemma_dec_text_val(n);
    let s = dec_text(n);
    assert(is_dec_digit(s[0]));
    assert(s[0] as int != '+' as int && s[0] as int != '-' as int);
    lemma_scan_ok(s, 0, 0, max);
}

/// The canonical decimal text of a signed value parses back to that value,
/// for every width range that admits it.
pub proof fn lemma_signed_round_trip(n: int, min: int, max: int)
    requires
        min <= n <= max,
        min <= 0 <= max,
    ensures
        parse_signed_spec(int_text(n), min, max) == Ok::<int, IntParseError>(n),
{
    if n >= 0 {
        lemma_dec_text_digits(n);
        lemma_dec_text_val(n);
        let s = dec_text(n);
        assert(is_dec_digit(s[0]));
        assert(s[0] as int != '+' as int && s[0] as int != '-' as int);
        lemma_scan_ok(s, 0, 0, max);
    } else {
        let t = dec_text(-n);
        let s = seq!['-'] + t;
        lemma_dec_text_digits(-n);
        lemma_dec_text_val(-n);
        assert(s[0] == '-');
        assert(s.len() == t.len() + 1);
        assert forall|k: int| 1 <= k < s.len() implies is_dec_digit(s[k]) by {
            assert(s[k] == t[k - 1]);
        }
        lemma_ext_val_cons('-', t, 0, 0);
        lemma_ext_val_neg_relation(s, 1, 0);
        assert(ext_val_neg(s, 1, 0) == n);
        lemma_scan_neg_ok(s, 1, 0, min);
    }
}

/// For every supported integer width, the canonical decimal text of a
/// value in range decodes to exactly that value.
pub proof fn lemma_integer_decode_round_trip(n: int)
    ensures
        0 <= n <= 0xff ==> decode_value_spec(dec_text(n), Shape::U8) == Ok::<ValModel, ErrorModel>(
            ValModel::U8(n as u8),
        ),
        0 <= n <= 0xffff ==> decode_value_spec(dec_text(n), Shape::U16) == Ok::<
            ValModel,
            ErrorModel,
        >(ValModel::U16(n as u16)),
        0 <= n <= 0xffff_ffff ==> decode_value_spec(dec_text(n), Shape::U32) == Ok::<
            ValModel,
            ErrorModel,
        >(ValModel::U32(n as u32)),
        0 <= n <= 0xffff_ffff_ffff_ffff ==> decode_value_spec(dec_text(n), Shape::U64) == Ok::<
            ValModel,
            ErrorModel,
        >(ValModel::U64(n as u64)),
        -0x80 <= n <= 0x7f ==> decode_value_spec(int_text(n), Shape::I8) == Ok::<
            ValModel,
            ErrorModel,
        >(ValModel::I8(n as i8)),
        -0x8000 <= n <= 0x7fff ==> decode_value_spec(int_text(n), Shape::I16) == Ok::<
            ValModel,
            ErrorModel,
        >(ValModel::I16(n as i16)),
        -0x8000_0000 <= n <= 0x7fff_ffff ==> decode_value_spec(int_text(n), Shape::I32) == Ok::<
            ValModel,
            ErrorModel,
        >(ValModel::I32(n as i32)),
        -0x8000_0000_0000_0000 <= n <= 0x7fff_ffff_ffff_ffff ==> decode_value_spec(
            int_text(n),
            Shape::I64,
        ) == Ok::<ValModel, ErrorModel>(ValModel::I64(n as i64)),
{
    if 0 <= n <= 0xff {
        lemma_unsigned_round_trip(n, 0xff);
    }
    if 0 <= n <= 0xffff {
        lemma_unsigned_round_trip(n, 0xffff);
    }
    if 0 <= n <= 0xffff_ffff {
        lemma_unsigned_round_trip(n, 0xffff_ffff);
    }
    if 0 <= n <= 0xffff_ffff_ffff_ffff {
        lemma_unsigned_round_trip(n, 0xffff_ffff_ffff_ffff);
    }
    if -0x80 <= n <= 0x7f {
        lemma_signed_round_trip(n, -0x80, 0x7f);
    }
    if -0x8000 <= n <= 0x7fff {
        lemma_signed_round_trip(n, -0x8000, 0x7fff);
    }
    if -0x8000_0000 <= n <= 0x7fff_ffff {
        lemma_signed_round_trip(n, -0x8000_0000, 0x7fff_ffff);
    }
    if -0x8000_0000_0000_0000 <= n <= 0x7fff_ffff_ffff_ffff {
        lemma_signed_round_trip(n, -0x8000_0000_0000_0000, 0x7fff_ffff_ffff_ffff);
    }
}

/// The boolean texts decode to their values, and a single-character text
/// decodes to its character.
pub proof fn lemma_bool_char_round_trip(s: Seq<char>)
    ensures
        decode_value_spec("true"@, Shape::Bool) == Ok::<ValModel, ErrorModel>(ValModel::Bool(true)),
        decode_value_spec("false"@, Shape::Bool) == Ok::<ValModel, ErrorModel>(
            ValModel::Bool(false),
        ),
        s.len() > 0 ==> decode_value_spec(s, Shape::Char) == Ok::<ValModel, ErrorModel>(
            ValModel::Char(s[0]),
        ),
{
    reveal_strlit("true");
    reveal_strlit("false");
    assert("true"@ != "false"@);
}

/// A float-shaped leaf preserves every accepted literal text exactly; the
/// numeric value itself lives outside this crate.
pub proof fn lemma_float_text_round_trip(s: Seq<char>)
    requires
        is_float_literal(s),
    ensures
        decode_value_spec(s, Shape::F32) == Ok::<ValModel, ErrorModel>(ValModel::F32Text(s)),
        decode_value_spec(s, Shape::F64) == Ok::<ValModel, ErrorModel>(ValModel::F64Text(s)),
{
}

// --- Rejections ---------------------------------------------------------

/// Every leaf shape requested at the top level is rejected with
/// `InvalidTopLevelType`, whatever the attribute collection holds.
pub proof fn lemma_top_level_rejects(attrs: Seq<AttrModel>, shape: Shape)
    requires
        !(shape is Unit),
        !(shape is Wrapper),
        !(shape is Record),
        !(shape is Tuple),
        !(shape is MapTo),
    ensures
        decode_spec(attrs, shape) == Err::<ValModel, ErrorModel>(
            ErrorModel::InvalidTopLevelType { msg: top_level_message_spec(shape) },
        ),
{
}

/// Every shape that needs nested structure is rejected as a leaf with
/// `InvalidValueType`, whatever the raw value holds.
pub proof fn lemma_leaf_rejects_nested(raw: Seq<char>, shape: Shape)
    requires
        shape is Record || shape is Tuple || shape is MapTo || shape is Any,
    ensures
        decode_value_spec(raw, shape) is Err,
        decode_value_spec(raw, shape)->Err_0 is InvalidValueType,
{
}

/// A raw value selecting an enum variant declared with a payload is always
/// rejected with `InvalidValueType`: only unit variants can be decoded.
pub proof fn lemma_nonunit_variant_rejected(raw: Seq<char>, variants: Vec<VariantShape>)
    requires
        variant_index(variants, raw, 0) >= 0,
        !(variants@[variant_index(variants, raw, 0)].payload is Unit),
    ensures
        decode_value_spec(raw, Shape::EnumUnit(variants)) == Err::<ValModel, ErrorModel>(
            ErrorModel::InvalidValueType {
                msg: payload_message_spec(variants@[variant_index(variants, raw, 0)].payload),
            },
        ),
{
    assert(enum_value_spec(raw, variants) == Err::<ValModel, ErrorModel>(
        ErrorModel::InvalidValueType {
            msg: payload_message_spec(variants@[variant_index(variants, raw, 0)].payload),
        },
    ));
}

} // verus!
