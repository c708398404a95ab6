use shib_gotham::headers::deserialize;
use shib_gotham::headers::deserialize_values::deserialize_value;
use shib_gotham::headers::multivalue::split_multi_values;
use shib_gotham::headers::shapes::{AttributeSet, Field, PayloadKind, Shape, VariantShape};
use shib_gotham::headers::values::DecodedValue;
use shib_gotham::headers::HeadersDeserializationError;
use shib_gotham::middleware::encode_query_value;
use shib_gotham::{AuthenticatedSession, Shibbleware};

fn set(pairs: &[(&str, &str)]) -> AttributeSet {
    let mut attrs = AttributeSet::new();
    for (name, value) in pairs {
        attrs.set_raw(name.to_string(), value.to_string());
    }
    attrs
}

fn field(name: &str, shape: Shape) -> Field {
    Field { name: name.to_string(), shape }
}

fn record_get<'a>(v: &'a DecodedValue, name: &str) -> &'a DecodedValue {
    match v {
        DecodedValue::Record(entries) => {
            for (k, val) in entries {
                if k == name {
                    return val;
                }
            }
            panic!("no field named {name}");
        }
        other => panic!("expected a record, got {other:?}"),
    }
}

#[test]
fn case_insensitive_attribute_resolves_field() {
    // The attribute arrives in a different case style than the declared
    // field; lowercase comparison still resolves it.
    let headers = set(&[("EDUPERSONAFFILIATION", "staff")]);
    let shape = Shape::Record(vec![field(
        "eduPersonAffiliation",
        Shape::EnumUnit(vec![VariantShape {
            name: "staff".to_string(),
            payload: PayloadKind::Unit,
        }]),
    )]);

    let attrs = deserialize(&headers, &shape).unwrap();
    assert_eq!(
        record_get(&attrs, "eduPersonAffiliation"),
        &DecodedValue::Variant("staff".to_string())
    );
}

#[test]
fn repeated_transport_value_is_skipped() {
    // A name delivered with two transport values is ambiguous and invisible.
    let mut headers = AttributeSet::new();
    headers.append_raw("displayName".to_string(), "John Doe".to_string());
    headers.append_raw("displayName".to_string(), "Jane Doe".to_string());

    let optional = Shape::Record(vec![field("displayName", Shape::Optional(Box::new(Shape::Str)))]);
    let attrs = deserialize(&headers, &optional).unwrap();
    assert_eq!(record_get(&attrs, "displayName"), &DecodedValue::Absent);

    let required = Shape::Record(vec![field("displayName", Shape::Str)]);
    let err = deserialize(&headers, &required).unwrap_err();
    assert!(matches!(err, HeadersDeserializationError::InvalidState { .. }));
}

#[test]
fn missing_required_field_fails() {
    let shape = Shape::Record(vec![field("displayName", Shape::Str)]);
    let err = deserialize(&AttributeSet::new(), &shape).unwrap_err();
    assert!(matches!(err, HeadersDeserializationError::InvalidState { .. }));
}

#[test]
fn top_level_leaf_shapes_are_rejected() {
    let headers = set(&[("displayName", "John Doe")]);
    let rejected = [
        Shape::Bool,
        Shape::U8,
        Shape::I64,
        Shape::F32,
        Shape::F64,
        Shape::Char,
        Shape::Str,
        Shape::Bytes,
        Shape::Optional(Box::new(Shape::Str)),
        Shape::EnumUnit(vec![]),
        Shape::Sequence(Box::new(Shape::Str)),
        Shape::Any,
    ];
    for shape in rejected {
        let err = deserialize(&headers, &shape).unwrap_err();
        assert!(
            matches!(err, HeadersDeserializationError::InvalidTopLevelType { .. }),
            "{shape:?} was not rejected as a top-level shape",
        );
    }
}

#[test]
fn nested_leaf_shapes_are_rejected() {
    let rejected = [
        Shape::Record(vec![]),
        Shape::Tuple(vec![]),
        Shape::MapTo(Box::new(Shape::Str)),
        Shape::Any,
    ];
    for shape in rejected {
        let err = deserialize_value("anything", &shape).unwrap_err();
        assert!(
            matches!(err, HeadersDeserializationError::InvalidValueType { .. }),
            "{shape:?} was not rejected as a leaf shape",
        );
    }
}

#[test]
fn nonunit_enum_variant_is_rejected() {
    let shape = Shape::EnumUnit(vec![
        VariantShape { name: "plain".to_string(), payload: PayloadKind::Unit },
        VariantShape { name: "wrapped".to_string(), payload: PayloadKind::Newtype },
        VariantShape { name: "pair".to_string(), payload: PayloadKind::Tuple },
        VariantShape { name: "full".to_string(), payload: PayloadKind::Struct },
    ]);

    assert_eq!(
        deserialize_value("plain", &shape).unwrap(),
        DecodedValue::Variant("plain".to_string())
    );
    for name in ["wrapped", "pair", "full"] {
        let err = deserialize_value(name, &shape).unwrap_err();
        assert!(matches!(err, HeadersDeserializationError::InvalidValueType { .. }));
    }
    // Membership is not validated here: an unknown token is handed through.
    assert_eq!(
        deserialize_value("unknown", &shape).unwrap(),
        DecodedValue::Variant("unknown".to_string())
    );
}

#[test]
fn integer_parse_errors_carry_kind_and_message() {
    let err = deserialize_value("256", &Shape::U8).unwrap_err();
    assert_eq!(
        err,
        HeadersDeserializationError::ParseError {
            source: "deserialize_u8",
            msg: "number too large to fit in target type".to_string(),
        }
    );

    let err = deserialize_value("-129", &Shape::I8).unwrap_err();
    assert_eq!(
        err,
        HeadersDeserializationError::ParseError {
            source: "deserialize_i8",
            msg: "number too small to fit in target type".to_string(),
        }
    );

    let err = deserialize_value("12x", &Shape::U32).unwrap_err();
    assert_eq!(
        err,
        HeadersDeserializationError::ParseError {
            source: "deserialize_u32",
            msg: "invalid digit found in string".to_string(),
        }
    );

    let err = deserialize_value("", &Shape::I64).unwrap_err();
    assert_eq!(
        err,
        HeadersDeserializationError::ParseError {
            source: "deserialize_i64",
            msg: "cannot parse integer from empty string".to_string(),
        }
    );

    let err = deserialize_value("maybe", &Shape::Bool).unwrap_err();
    assert_eq!(
        err,
        HeadersDeserializationError::ParseError {
            source: "deserialize_bool",
            msg: "provided string was not `true` or `false`".to_string(),
        }
    );

    let err = deserialize_value("not-a-number", &Shape::F64).unwrap_err();
    assert_eq!(
        err,
        HeadersDeserializationError::ParseError {
            source: "deserialize_f64",
            msg: "invalid float literal".to_string(),
        }
    );
}

#[test]
fn integer_edges_parse_exactly() {
    assert_eq!(deserialize_value("255", &Shape::U8).unwrap(), DecodedValue::U8(255));
    assert_eq!(deserialize_value("+17", &Shape::U16).unwrap(), DecodedValue::U16(17));
    assert_eq!(deserialize_value("-128", &Shape::I8).unwrap(), DecodedValue::I8(-128));
    assert_eq!(deserialize_value("-0", &Shape::I32).unwrap(), DecodedValue::I32(0));
    assert_eq!(
        deserialize_value("18446744073709551615", &Shape::U64).unwrap(),
        DecodedValue::U64(u64::MAX)
    );
    assert_eq!(
        deserialize_value("-9223372036854775808", &Shape::I64).unwrap(),
        DecodedValue::I64(i64::MIN)
    );
    assert!(deserialize_value("-1", &Shape::U8).is_err());
    assert!(deserialize_value("+", &Shape::U8).is_err());
    assert!(deserialize_value("-", &Shape::I8).is_err());
}

#[test]
fn primitive_texts_restringify_canonically() {
    // Decoding a canonical text and printing the value reproduces the text.
    for text in ["0", "7", "250", "65535"] {
        match deserialize_value(text, &Shape::U64).unwrap() {
            DecodedValue::U64(v) => assert_eq!(format!("{v}"), text),
            other => panic!("unexpected {other:?}"),
        }
    }
    for text in ["-1", "42", "-32768"] {
        match deserialize_value(text, &Shape::I64).unwrap() {
            DecodedValue::I64(v) => assert_eq!(format!("{v}"), text),
            other => panic!("unexpected {other:?}"),
        }
    }
    match deserialize_value("false", &Shape::Bool).unwrap() {
        DecodedValue::Bool(v) => assert_eq!(format!("{v}"), "false"),
        other => panic!("unexpected {other:?}"),
    }
    match deserialize_value("x", &Shape::Char).unwrap() {
        DecodedValue::Char(c) => assert_eq!(format!("{c}"), "x"),
        other => panic!("unexpected {other:?}"),
    }
    match deserialize_value("2.5", &Shape::F64).unwrap() {
        DecodedValue::F64Text(text) => {
            assert_eq!(format!("{}", text.parse::<f64>().unwrap()), "2.5");
        }
        other => panic!("unexpected {other:?}"),
    }
}

#[test]
fn float_literal_grammar_matches_std() {
    let accepted = [
        "0", "3.5", "-3.5", "+4", "3.", ".5", "1e5", "1.25e-3", "2E+7", "1.e2", "inf",
        "-inf", "Infinity", "NaN", "nan", "1e999",
    ];
    for text in accepted {
        assert!(
            deserialize_value(text, &Shape::F64).is_ok(),
            "{text:?} should be accepted",
        );
        assert!(text.parse::<f64>().is_ok(), "{text:?} disagrees with the std parser");
    }
    let rejected = ["", "+", ".", ".e5", "1.2.3", "0x1", "1_000", " 1", "1 ", "e5", "in"];
    for text in rejected {
        assert!(
            deserialize_value(text, &Shape::F64).is_err(),
            "{text:?} should be rejected",
        );
        assert!(text.parse::<f64>().is_err(), "{text:?} disagrees with the std parser");
    }
}

#[test]
fn empty_char_value_is_invalid_state() {
    let err = deserialize_value("", &Shape::Char).unwrap_err();
    assert!(matches!(err, HeadersDeserializationError::InvalidState { .. }));
    // Extra characters beyond the first are ignored.
    assert_eq!(deserialize_value("abc", &Shape::Char).unwrap(), DecodedValue::Char('a'));
}

#[test]
fn splitter_edges() {
    assert_eq!(split_multi_values(""), vec![""]);
    assert_eq!(split_multi_values(";"), vec!["", ""]);
    assert_eq!(split_multi_values("a;;b"), vec!["a", "", "b"]);
    assert_eq!(split_multi_values(r"a\;b;c"), vec!["a;b", "c"]);
    assert_eq!(split_multi_values(r"a\b"), vec![r"a\b"]);
    // The documented ambiguity: a trailing escaped separator and a trailing
    // literal backslash are indistinguishable.
    assert_eq!(split_multi_values(r"x\;"), vec!["x;"]);
    assert_eq!(split_multi_values(r"x\"), vec![r"x\"]);
}

#[test]
fn map_collisions_resolve_last_write_wins() {
    let mut headers = AttributeSet::new();
    headers.set_raw("Name".to_string(), "first".to_string());
    headers.set_raw("name".to_string(), "second".to_string());

    let decoded = deserialize(&headers, &Shape::MapTo(Box::new(Shape::Str))).unwrap();
    let entries = match &decoded {
        DecodedValue::MapEntries(entries) => entries,
        other => panic!("expected a map, got {other:?}"),
    };
    let last = entries
        .iter()
        .filter(|(k, _)| k == "name")
        .last()
        .map(|(_, v)| v);
    assert_eq!(last, Some(&DecodedValue::Str("second".to_string())));
}

struct PlainSession {
    authenticated: bool,
}

impl AuthenticatedSession for PlainSession {
    fn is_authenticated(&self) -> bool {
        self.authenticated
    }
}

#[test]
fn query_value_encoding_escapes_reserved_bytes() {
    assert_eq!(encode_query_value("plain-text_1.0"), "plain-text_1.0");
    assert_eq!(encode_query_value("a b&c=d;e"), "a%20b%26c%3Dd%3Be");
    assert_eq!(encode_query_value("\"<>#"), "%22%3C%3E%23");
    // Non-ASCII text is escaped byte by byte.
    assert_eq!(encode_query_value("\u{e9}"), "%C3%A9");
    // `?` and `/` stay as they are in a query value.
    assert_eq!(encode_query_value("/path?x=1"), "/path?x%3D1");
}

#[test]
fn unauthenticated_request_is_redirected() {
    let middleware: Shibbleware<PlainSession> = Shibbleware::new("/auth/login");

    let session = PlainSession { authenticated: true };
    assert_eq!(
        middleware.handle_request(session.is_authenticated(), "/secret", None),
        None
    );

    let session = PlainSession { authenticated: false };
    assert_eq!(
        middleware.handle_request(session.is_authenticated(), "/secret", Some("a=b&c=d")),
        Some("/auth/login?return_path=/secret?a%3Db%26c%3Dd".to_string())
    );
    assert_eq!(
        middleware.handle_request(false, "/secret", None),
        Some("/auth/login?return_path=/secret".to_string())
    );
}
