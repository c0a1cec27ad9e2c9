use geoxidated::decimal::Decimal;
use geoxidated::parser::ParseError;
use geoxidated::value::{
    ArrayValue, BooleanValue, NullValue, NumberValue, NumericalValue, ObjectProperty, ObjectValue,
    StringValue, Value, ValueTrait,
};

fn round_trip(text: &str) {
    let value = Value::parse(text).ok().expect("a JSON document");
    assert_eq!(value.to_geo_json(), text);
    let again = Value::parse(&value.to_geo_json()).ok().expect("still a JSON document");
    assert_eq!(again.to_geo_json(), text);
}

#[test]
fn scalars_round_trip() {
    round_trip("null");
    round_trip("true");
    round_trip("false");
    round_trip("0");
    round_trip("-17");
    round_trip("9223372036854775807");
    round_trip("-9223372036854775808");
    round_trip("\"open\"");
    round_trip("\"\"");
}

#[test]
fn fractions_keep_their_kind() {
    round_trip("1.5");
    round_trip("-0.25");
    round_trip("1.0");
    match Value::parse("1.0").ok().unwrap() {
        Value::NumberValue(n) => assert!(matches!(n.value, NumericalValue::Float(_))),
        _ => panic!("a number"),
    }
    match Value::parse("1").ok().unwrap() {
        Value::NumberValue(n) => assert!(matches!(n.value, NumericalValue::Integer(1))),
        _ => panic!("a number"),
    }
}

#[test]
fn integers_beyond_64_bits_are_held_as_decimals() {
    let value = Value::parse("18446744073709551615").ok().unwrap();
    match &value {
        Value::NumberValue(n) => assert!(matches!(n.value, NumericalValue::Float(_))),
        _ => panic!("a number"),
    }
    assert_eq!(value.to_geo_json(), "18446744073709551615");
}

#[test]
fn object_members_keep_their_order() {
    round_trip("{\"zebra\":1,\"apple\":2,\"mango\":[3,{\"b\":null,\"a\":true}]}");
    let value = Value::parse("{\"zebra\":1,\"apple\":2}").ok().unwrap();
    match value {
        Value::ObjectValue(o) => {
            assert_eq!(o.value.len(), 2);
            assert_eq!(o.value[0].name, "zebra");
            assert_eq!(o.value[1].name, "apple");
        }
        _ => panic!("an object"),
    }
}

#[test]
fn strings_are_escaped() {
    let value = Value::StringValue(StringValue::new("a\"b\\c\nd\te\u{1}f".to_string()));
    assert_eq!(value.to_geo_json(), "\"a\\\"b\\\\c\\nd\\te\\u0001f\"");
    match Value::parse(&value.to_geo_json()).ok().unwrap() {
        Value::StringValue(s) => assert_eq!(s.value, "a\"b\\c\nd\te\u{1}f"),
        _ => panic!("a string"),
    }
    round_trip("\"\\b\\f\\n\\r\\t\\\"\\\\\"");
    round_trip("\"\u{e9}\u{4e2d}\"");
}

#[test]
fn malformed_text_is_refused() {
    for text in ["", "{", "[1,]", "{\"a\":}", "nul", "1 2", "'a'"] {
        assert!(matches!(Value::parse(text), Err(ParseError::MalformedJson)));
    }
}

#[test]
fn values_built_by_hand_encode() {
    let object = ObjectValue::new(vec![
        ObjectProperty::new("name".to_string(), Value::StringValue(StringValue::new("x".to_string()))),
        ObjectProperty::new("on".to_string(), Value::BooleanValue(BooleanValue::new(true))),
        ObjectProperty::new("none".to_string(), Value::NullValue(NullValue::new())),
        ObjectProperty::new(
            "list".to_string(),
            Value::ArrayValue(ArrayValue::new(vec![
                Value::NumberValue(NumberValue::new(NumericalValue::Integer(-3))),
                Value::NumberValue(NumberValue::from_decimal(Decimal::parse("2.50").unwrap())),
                Value::NumberValue(NumberValue::from_decimal(Decimal::parse("7").unwrap())),
            ])),
        ),
    ]);
    assert_eq!(
        object.to_geo_json(),
        "{\"name\":\"x\",\"on\":true,\"none\":null,\"list\":[-3,2.50,7]}"
    );
    assert_eq!(ObjectValue::empty().to_geo_json(), "{}");
    assert_eq!(ArrayValue::new(vec![]).to_geo_json(), "[]");
}

#[test]
fn validity_is_checked() {
    assert!(Value::parse("{\"a\":[1,2.5,{\"b\":null}],\"c\":\"x\"}").ok().unwrap().is_valid());
    let twice = Value::ObjectValue(ObjectValue::new(vec![
        ObjectProperty::new("a".to_string(), Value::integer(1)),
        ObjectProperty::new("b".to_string(), Value::integer(2)),
        ObjectProperty::new("a".to_string(), Value::integer(3)),
    ]));
    assert!(!twice.is_valid());
    let nested = Value::array(vec![Value::integer(1), twice]);
    assert!(!nested.is_valid());
    let disguised = Value::NumberValue(NumberValue::new(NumericalValue::Float(
        Decimal::parse("12").unwrap(),
    )));
    assert!(!disguised.is_valid());
    assert!(Value::number(Decimal::parse("12").unwrap()).is_valid());
    assert!(Value::number(Decimal::parse("12.0").unwrap()).is_valid());
}

#[test]
fn members_are_found_by_name() {
    let value = Value::parse("{\"a\":1,\"b\":\"two\"}").ok().unwrap();
    assert_eq!(value.member("b").unwrap().to_geo_json(), "\"two\"");
    assert!(value.member("c").is_none());
    assert!(Value::integer(1).member("a").is_none());
    match &value {
        Value::ObjectValue(o) => {
            assert_eq!(o.position("a"), Some(0));
            assert_eq!(o.position("b"), Some(1));
            assert_eq!(o.position("z"), None);
        }
        _ => panic!("an object"),
    }
    assert_eq!(value.clone().to_geo_json(), value.to_geo_json());
}

#[test]
fn numbers_beyond_the_reader_are_refused() {
    assert!(matches!(Value::parse("1e400"), Err(ParseError::MalformedJson)));
    assert!(matches!(Value::parse("NaN"), Err(ParseError::MalformedJson)));
    assert!(matches!(Value::parse("-"), Err(ParseError::MalformedJson)));
    assert!(matches!(Value::parse("01"), Err(ParseError::MalformedJson)));
}

#[test]
fn nesting_beyond_the_reader_is_refused() {
    let deep = format!("{}{}", "[".repeat(200), "]".repeat(200));
    assert!(matches!(Value::parse(&deep), Err(ParseError::MalformedJson)));
    let shallow = format!("{}{}", "[".repeat(20), "]".repeat(20));
    assert_eq!(Value::parse(&shallow).ok().unwrap().to_geo_json(), shallow);
}

#[test]
fn exponents_are_kept_as_the_reader_writes_them() {
    let value = Value::parse("[1e2,2.5E-3,-0,0.1]").ok().unwrap();
    let text = value.to_geo_json();
    let again = Value::parse(&text).ok().unwrap();
    assert_eq!(again.to_geo_json(), text);
    assert!(value.is_valid());
}

#[test]
fn a_name_written_twice_is_held_once() {
    let value = Value::parse("{\"a\":1,\"b\":2,\"a\":3}").ok().unwrap();
    assert!(value.is_valid());
    assert_eq!(value.to_geo_json(), "{\"a\":3,\"b\":2}");
}

#[test]
fn the_reader_writes_fractions_in_its_own_way() {
    let written = Value::number(Decimal::parse("1.00").unwrap());
    assert_eq!(written.to_geo_json(), "1.00");
    let read = Value::parse("1.00").ok().unwrap();
    assert_eq!(read.to_geo_json(), "1.0");
    let read = Value::parse("0.10").ok().unwrap();
    assert_eq!(read.to_geo_json(), "0.1");
}
