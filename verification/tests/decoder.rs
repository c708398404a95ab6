use shib_gotham::headers::deserialize;
use shib_gotham::headers::shapes::{AttributeSet, Field, PayloadKind, Shape, VariantShape};
use shib_gotham::headers::values::DecodedValue;

fn set(pairs: &[(&str, &str)]) -> AttributeSet {
    let mut attrs = AttributeSet::new();
    for (name, value) in pairs {
        attrs.set_raw(name.to_string(), value.to_string());
    }
    attrs
}

fn field(name: &str, shape: Shape) -> Field {
    Field { name: name.to_string(), shape }
}

fn unit_variant(name: &str) -> VariantShape {
    VariantShape { name: name.to_string(), payload: PayloadKind::Unit }
}

fn affiliation_shape() -> Shape {
    Shape::EnumUnit(vec![
        unit_variant("faculty"),
        unit_variant("student"),
        unit_variant("staff"),
        unit_variant("employee"),
        unit_variant("member"),
        unit_variant("affiliate"),
        unit_variant("alum"),
        unit_variant("library-walk-in"),
    ])
}

fn record_get<'a>(v: &'a DecodedValue, name: &str) -> &'a DecodedValue {
    match v {
        DecodedValue::Record(entries) => {
            for (k, val) in entries {
                if k == name {
                    return val;
                }
            }
            panic!("no field named {name}");
        }
        other => panic!("expected a record, got {other:?}"),
    }
}

#[test]
fn test_deserialize_unit() {
    let headers = AttributeSet::new();
    assert_eq!(deserialize(&headers, &Shape::Unit).unwrap(), DecodedValue::Unit);
}

#[test]
fn test_deserialize_unit_struct() {
    // A unit struct carries no fields and decodes exactly like the unit shape.
    let headers = AttributeSet::new();
    assert_eq!(deserialize(&headers, &Shape::Unit).unwrap(), DecodedValue::Unit);
}

#[test]
fn test_deserialize_single() {
    let value = "BuyTkNadqZW_wYOeY4ppThkRRYE";

    let headers = set(&[("auEduPersonSharedToken", value)]);
    let shape = Shape::Record(vec![field("auEduPersonSharedToken", Shape::Str)]);

    let attrs = deserialize(&headers, &shape).unwrap();
    assert_eq!(
        record_get(&attrs, "auEduPersonSharedToken"),
        &DecodedValue::Str(value.to_string())
    );
}

#[test]
fn test_ignored_attribute() {
    let value = "BuyTkNadqZW_wYOeY4ppThkRRYE";

    let headers = set(&[
        ("auEduPersonSharedToken", value),
        ("anotherAttribute", "unused_value"),
    ]);
    let shape = Shape::Record(vec![field("auEduPersonSharedToken", Shape::Str)]);

    let attrs = deserialize(&headers, &shape).unwrap();
    assert_eq!(
        record_get(&attrs, "auEduPersonSharedToken"),
        &DecodedValue::Str(value.to_string())
    );
}

#[test]
fn test_newtype_struct() {
    let value = "BuyTkNadqZW_wYOeY4ppThkRRYE";

    let headers = set(&[
        ("auEduPersonSharedToken", value),
        ("anotherAttribute", "unused_value"),
    ]);
    let shape = Shape::Wrapper(Box::new(Shape::Record(vec![field(
        "auEduPersonSharedToken",
        Shape::Str,
    )])));

    let attrs = deserialize(&headers, &shape).unwrap();
    assert_eq!(
        record_get(&attrs, "auEduPersonSharedToken"),
        &DecodedValue::Str(value.to_string())
    );
}

#[test]
fn test_enum_attribute() {
    let shape = Shape::Record(vec![field("eduPersonAffiliation", affiliation_shape())]);

    let headers = set(&[("eduPersonAffiliation", "library-walk-in")]);
    let attrs = deserialize(&headers, &shape).unwrap();
    assert_eq!(
        record_get(&attrs, "eduPersonAffiliation"),
        &DecodedValue::Variant("library-walk-in".to_string())
    );

    let headers = set(&[("eduPersonAffiliation", "employee")]);
    let attrs = deserialize(&headers, &shape).unwrap();
    assert_eq!(
        record_get(&attrs, "eduPersonAffiliation"),
        &DecodedValue::Variant("employee".to_string())
    );
}

#[test]
fn test_multi_valued_attribute() {
    let shape = Shape::Record(vec![field(
        "eduPersonEntitlement",
        Shape::Sequence(Box::new(Shape::Str)),
    )]);

    let headers = set(&[(
        "eduPersonEntitlement",
        "urn:x-aaf:dev:1;urn:x-aaf:dev:2;urn:x-aaf:dev:3",
    )]);
    let attrs = deserialize(&headers, &shape).unwrap();
    assert_eq!(
        record_get(&attrs, "eduPersonEntitlement"),
        &DecodedValue::Values(vec![
            DecodedValue::Str("urn:x-aaf:dev:1".to_string()),
            DecodedValue::Str("urn:x-aaf:dev:2".to_string()),
            DecodedValue::Str("urn:x-aaf:dev:3".to_string()),
        ])
    );

    // `\` is used to escape the `;` characters
    let headers = set(&[("eduPersonEntitlement", r"value1\;value2\;value3\")]);
    let attrs = deserialize(&headers, &shape).unwrap();
    assert_eq!(
        record_get(&attrs, "eduPersonEntitlement"),
        &DecodedValue::Values(vec![DecodedValue::Str(r"value1;value2;value3\".to_string())])
    );
}

#[test]
fn test_optional_attribute() {
    let shape = Shape::Record(vec![field("displayName", Shape::Optional(Box::new(Shape::Str)))]);

    let attrs = deserialize(&AttributeSet::new(), &shape).unwrap();
    assert_eq!(record_get(&attrs, "displayName"), &DecodedValue::Absent);

    let headers = set(&[("displayName", "John Doe")]);
    let attrs = deserialize(&headers, &shape).unwrap();
    assert_eq!(
        record_get(&attrs, "displayName"),
        &DecodedValue::Present(Box::new(DecodedValue::Str("John Doe".to_string())))
    );
}

fn three_part_tuple_shape() -> Shape {
    Shape::Tuple(vec![
        Shape::Record(vec![field("eduPersonAffiliation", affiliation_shape())]),
        Shape::Record(vec![field(
            "eduPersonEntitlement",
            Shape::Sequence(Box::new(Shape::Str)),
        )]),
        Shape::Record(vec![field("displayName", Shape::Optional(Box::new(Shape::Str)))]),
    ])
}

fn assert_three_part_tuple(decoded: &DecodedValue) {
    let items = match decoded {
        DecodedValue::Tuple(items) => items,
        other => panic!("expected a tuple, got {other:?}"),
    };
    assert_eq!(items.len(), 3);

    assert_eq!(
        record_get(&items[0], "eduPersonAffiliation"),
        &DecodedValue::Variant("library-walk-in".to_string())
    );
    assert_eq!(
        record_get(&items[1], "eduPersonEntitlement"),
        &DecodedValue::Values(vec![
            DecodedValue::Str("urn:x-aaf:dev:1".to_string()),
            DecodedValue::Str("urn:x-aaf:dev:2".to_string()),
            DecodedValue::Str("urn:x-aaf:dev:3".to_string()),
        ])
    );
    assert_eq!(
        record_get(&items[2], "displayName"),
        &DecodedValue::Present(Box::new(DecodedValue::Str("John Doe".to_string())))
    );
}

#[test]
fn test_tuple() {
    let headers = set(&[
        ("displayName", "John Doe"),
        ("eduPersonAffiliation", "library-walk-in"),
        ("eduPersonEntitlement", "urn:x-aaf:dev:1;urn:x-aaf:dev:2;urn:x-aaf:dev:3"),
    ]);

    let decoded = deserialize(&headers, &three_part_tuple_shape()).unwrap();
    assert_three_part_tuple(&decoded);
}

#[test]
fn test_tuple_struct() {
    // A tuple struct decodes exactly like the tuple of its slots.
    let headers = set(&[
        ("displayName", "John Doe"),
        ("eduPersonAffiliation", "library-walk-in"),
        ("eduPersonEntitlement", "urn:x-aaf:dev:1;urn:x-aaf:dev:2;urn:x-aaf:dev:3"),
    ]);

    let decoded = deserialize(&headers, &three_part_tuple_shape()).unwrap();
    assert_three_part_tuple(&decoded);
}

#[test]
fn test_map() {
    let headers = set(&[("displayName", "John Doe")]);

    let decoded = deserialize(&headers, &Shape::MapTo(Box::new(Shape::Str))).unwrap();
    let entries = match &decoded {
        DecodedValue::MapEntries(entries) => entries,
        other => panic!("expected a map, got {other:?}"),
    };

    // Map keys are unconditionally the lowercased attribute names.
    assert_eq!(
        entries.iter().find(|(k, _)| k == "displayname").map(|(_, v)| v),
        Some(&DecodedValue::Str("John Doe".to_string()))
    );
    assert!(entries.iter().all(|(k, _)| k != "displayName"));
}

#[test]
fn test_primitive_values() {
    let headers = set(&[
        ("a_u8", "8"),
        ("a_u16", "16"),
        ("a_u32", "32"),
        ("a_u64", "64"),
        ("an_i8", "18"),
        ("an_i16", "116"),
        ("an_i32", "132"),
        ("an_i64", "164"),
        ("a_bool", "true"),
        ("an_f32", "3.14159265359"),
        ("an_f64", "2.71828182846"),
        ("a_char", "\u{39e}"),
    ]);

    let shape = Shape::Record(vec![
        field("a_u8", Shape::U8),
        field("a_u16", Shape::U16),
        field("a_u32", Shape::U32),
        field("a_u64", Shape::U64),
        field("an_i8", Shape::I8),
        field("an_i16", Shape::I16),
        field("an_i32", Shape::I32),
        field("an_i64", Shape::I64),
        field("a_bool", Shape::Bool),
        field("an_f32", Shape::F32),
        field("an_f64", Shape::F64),
        field("a_char", Shape::Char),
    ]);

    let attrs = deserialize(&headers, &shape).unwrap();

    assert_eq!(record_get(&attrs, "a_u8"), &DecodedValue::U8(8));
    assert_eq!(record_get(&attrs, "a_u16"), &DecodedValue::U16(16));
    assert_eq!(record_get(&attrs, "a_u32"), &DecodedValue::U32(32));
    assert_eq!(record_get(&attrs, "a_u64"), &DecodedValue::U64(64));
    assert_eq!(record_get(&attrs, "an_i8"), &DecodedValue::I8(18));
    assert_eq!(record_get(&attrs, "an_i16"), &DecodedValue::I16(116));
    assert_eq!(record_get(&attrs, "an_i32"), &DecodedValue::I32(132));
    assert_eq!(record_get(&attrs, "an_i64"), &DecodedValue::I64(164));
    assert_eq!(record_get(&attrs, "a_bool"), &DecodedValue::Bool(true));
    match record_get(&attrs, "an_f32") {
        DecodedValue::F32Text(text) => {
            assert_eq!(text.parse::<f32>().unwrap(), 3.14159265359);
        }
        other => panic!("expected float text, got {other:?}"),
    }
    match record_get(&attrs, "an_f64") {
        DecodedValue::F64Text(text) => {
            assert_eq!(text.parse::<f64>().unwrap(), 2.71828182846);
        }
        other => panic!("expected float text, got {other:?}"),
    }
    assert_eq!(record_get(&attrs, "a_char"), &DecodedValue::Char('\u{39e}'));
}

#[test]
fn test_bytes() {
    let value = b"BuyTkNadqZW_wYOeY4ppThkRRYE";

    let headers = set(&[(
        "auEduPersonSharedToken",
        std::str::from_utf8(value).unwrap(),
    )]);
    let shape = Shape::Record(vec![field("auEduPersonSharedToken", Shape::Bytes)]);

    let attrs = deserialize(&headers, &shape).unwrap();
    assert_eq!(
        record_get(&attrs, "auEduPersonSharedToken"),
        &DecodedValue::Bytes(value.to_vec())
    );
}
