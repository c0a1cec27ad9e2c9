use geoxidated::filter::{And, Element, ElementType, Equals, Expression, Filter, Or};
use geoxidated::filter_data::{compile, IntoSQLQuery};
use geoxidated::json::Json;
use geoxidated::parser::ParseError;
use geoxidated::value::Value;

fn filter_of(text: &str) -> Result<Filter, ParseError> {
    Filter::from_json(&Json::new(text.to_string()))
}

fn fields(names: &[&str]) -> Vec<String> {
    names.iter().map(|name| name.to_string()).collect()
}

fn equals(field: &str, value: &str, e_type: ElementType) -> Expression {
    Expression::Equals(Equals {
        field: field.to_string(),
        value: Element { value: value.to_string(), e_type },
    })
}

#[test]
fn filter_with_one_equals_leaf() {
    let filter = filter_of(
        "{\"collection_id\":5,\"where\":{\"type\":\"equals\",\"field\":\"status\",\"value\":\"open\"}}",
    )
    .ok()
    .unwrap();
    assert_eq!(filter.collection_id, 5);
    match &filter.expression {
        Expression::Equals(e) => {
            assert_eq!(e.field, "status");
            assert_eq!(e.value.value, "open");
            assert!(matches!(e.value.e_type, ElementType::String));
        }
        _ => panic!("one equals leaf"),
    }
    let predicate = compile(&filter, &fields(&["status"])).ok().unwrap();
    assert_eq!(predicate.text, "status = $1");
    assert_eq!(predicate.parameters.len(), 1);
    assert_eq!(predicate.parameters[0].value, "open");
    assert!(matches!(predicate.parameters[0].e_type, ElementType::String));
    assert!(!predicate.text.contains("open"));
}

#[test]
fn conjunction_numbers_its_placeholders_from_the_left() {
    let where_ = Value::parse(
        "{\"type\":\"and\",\"expressions\":[{\"type\":\"equals\",\"field\":\"a\",\"value\":1},{\"type\":\"equals\",\"field\":\"b\",\"value\":2}]}",
    )
    .ok()
    .unwrap();
    let expression = Expression::parse(&where_).ok().unwrap();
    let predicate = compile(&Filter::new(1, expression), &fields(&["a", "b"])).ok().unwrap();
    assert_eq!(predicate.text, "(a = $1) AND (b = $2)");
    assert_eq!(predicate.parameters.len(), 2);
    assert_eq!(predicate.parameters[0].value, "1");
    assert_eq!(predicate.parameters[1].value, "2");
    assert!(matches!(predicate.parameters[0].e_type, ElementType::Number));
}

#[test]
fn nested_expressions_compile_depth_first() {
    let filter = filter_of(
        "{\"collection_id\":1,\"where\":{\"type\":\"OR\",\"expressions\":[{\"type\":\"And\",\"expressions\":[{\"type\":\"equals\",\"field\":\"a\",\"value\":\"x\"},{\"type\":\"not_equals\",\"field\":\"b\",\"value\":2.5}]},{\"type\":\"Not_Equals\",\"field\":\"c\",\"value\":-3}]}}",
    )
    .ok()
    .unwrap();
    let predicate = filter.into_sql_query(&fields(&["a", "b", "c"])).ok().unwrap();
    assert_eq!(predicate.text, "((a = $1) AND (b <> $2)) OR (c <> $3)");
    let values: Vec<&str> = predicate.parameters.iter().map(|p| p.value.as_str()).collect();
    assert_eq!(values, vec!["x", "2.5", "-3"]);
}

#[test]
fn many_placeholders() {
    let operands: Vec<Expression> =
        (0..12).map(|i| equals("f", &i.to_string(), ElementType::Number)).collect();
    let predicate =
        compile(&Filter::new(1, Expression::Or(Or(operands))), &fields(&["f"])).ok().unwrap();
    assert!(predicate.text.starts_with("(f = $1) OR (f = $2) OR "));
    assert!(predicate.text.ends_with(" OR (f = $11) OR (f = $12)"));
    assert_eq!(predicate.parameters.len(), 12);
}

#[test]
fn single_operand_is_still_in_parentheses() {
    let expression = Expression::And(And(vec![equals("a", "1", ElementType::Number)]));
    let predicate = compile(&Filter::new(1, expression), &fields(&["a"])).ok().unwrap();
    assert_eq!(predicate.text, "(a = $1)");
}

#[test]
fn unknown_fields_are_refused() {
    let filter = Filter::new(
        1,
        Expression::And(And(vec![
            equals("a", "1", ElementType::Number),
            equals("x; DROP TABLE feature", "1", ElementType::Number),
        ])),
    );
    match compile(&filter, &fields(&["a", "b"])) {
        Err(ParseError::UnknownField(name)) => assert_eq!(name, "x; DROP TABLE feature"),
        _ => panic!("an unknown field"),
    }
    assert!(matches!(
        compile(&Filter::new(1, equals("a", "1", ElementType::Number)), &fields(&[])),
        Err(ParseError::UnknownField(_))
    ));
}

#[test]
fn empty_operand_lists_are_refused() {
    let filter = Filter::new(1, Expression::And(And(vec![])));
    assert!(matches!(compile(&filter, &fields(&["a"])), Err(ParseError::EmptyExpressionList)));
    let filter = Filter::new(
        1,
        Expression::Or(Or(vec![equals("a", "1", ElementType::Number), Expression::Or(Or(vec![]))])),
    );
    assert!(matches!(compile(&filter, &fields(&["a"])), Err(ParseError::EmptyExpressionList)));
    assert!(matches!(
        filter_of("{\"collection_id\":1,\"where\":{\"type\":\"and\",\"expressions\":[]}}"),
        Err(ParseError::EmptyExpressionList)
    ));
}

#[test]
fn filter_needs_its_members() {
    match filter_of("{\"where\":{\"type\":\"equals\",\"field\":\"a\",\"value\":1}}") {
        Err(ParseError::MissingField(name)) => assert_eq!(name, "collection_id"),
        _ => panic!("a missing collection"),
    }
    match filter_of("{}") {
        Err(ParseError::MissingField(name)) => assert_eq!(name, "collection_id"),
        _ => panic!("a missing collection"),
    }
    match filter_of("{\"collection_id\":\"5\",\"where\":{\"type\":\"equals\",\"field\":\"a\",\"value\":1}}") {
        Err(ParseError::MissingField(name)) => assert_eq!(name, "collection_id"),
        _ => panic!("a missing collection"),
    }
    for text in ["{\"collection_id\":5}", "{\"collection_id\":5,\"where\":null}", "{\"collection_id\":5,\"where\":[]}"] {
        match filter_of(text) {
            Err(ParseError::MissingField(name)) => assert_eq!(name, "where"),
            _ => panic!("a missing expression"),
        }
    }
    match filter_of("{\"collection_id\":5,\"where\":{\"field\":\"a\"}}") {
        Err(ParseError::MissingField(name)) => assert_eq!(name, "type"),
        _ => panic!("a missing kind"),
    }
    match filter_of("{\"collection_id\":5,\"where\":{\"type\":\"equals\",\"value\":1}}") {
        Err(ParseError::MissingField(name)) => assert_eq!(name, "field"),
        _ => panic!("a missing field"),
    }
    match filter_of("{\"collection_id\":5,\"where\":{\"type\":\"or\"}}") {
        Err(ParseError::MissingField(name)) => assert_eq!(name, "expressions"),
        _ => panic!("missing operands"),
    }
    assert!(matches!(filter_of("{\"collection_id\""), Err(ParseError::MalformedJson)));
}

#[test]
fn unknown_expression_kinds_are_refused() {
    match filter_of("{\"collection_id\":5,\"where\":{\"type\":\"xor\",\"expressions\":[]}}") {
        Err(ParseError::UnsupportedExpressionType(tag)) => assert_eq!(tag, "xor"),
        _ => panic!("an unsupported kind"),
    }
    match filter_of("{\"collection_id\":5,\"where\":{\"type\":\"and\",\"expressions\":[{\"type\":\"equals\",\"field\":\"a\",\"value\":1},{\"type\":\"like\"}]}}") {
        Err(ParseError::UnsupportedExpressionType(tag)) => assert_eq!(tag, "like"),
        _ => panic!("an unsupported kind"),
    }
}

#[test]
fn values_must_be_strings_or_numbers() {
    for value in ["true", "null", "[1]", "{}"] {
        let text = format!(
            "{{\"collection_id\":5,\"where\":{{\"type\":\"equals\",\"field\":\"a\",\"value\":{}}}}}",
            value
        );
        assert!(matches!(filter_of(&text), Err(ParseError::UnsupportedElementType)));
    }
    assert!(matches!(
        filter_of("{\"collection_id\":5,\"where\":{\"type\":\"equals\",\"field\":\"a\"}}"),
        Err(ParseError::UnsupportedElementType)
    ));
}

#[test]
fn errors_say_what_is_wrong() {
    assert_eq!(ParseError::MalformedJson.to_text(), "malformed JSON");
    assert_eq!(ParseError::MissingField("where".to_string()).to_text(), "missing field: where");
    assert_eq!(
        ParseError::UnsupportedGeometryType("Polygon".to_string()).to_text(),
        "unsupported geometry type: Polygon"
    );
    assert_eq!(ParseError::MalformedGeometry.to_text(), "malformed geometry");
    assert_eq!(
        ParseError::UnsupportedExpressionType("xor".to_string()).to_text(),
        "unsupported expression type: xor"
    );
    assert_eq!(ParseError::UnsupportedElementType.to_text(), "unsupported element type");
    assert_eq!(ParseError::UnknownField("x".to_string()).to_text(), "unknown field: x");
    assert_eq!(ParseError::EmptyExpressionList.to_text(), "empty expression list");
}
