use geoxidated::bbox::Bbox;
use geoxidated::decimal::Decimal;
use geoxidated::geometry::{Geometry, GeometryTrait, Point};
use geoxidated::json::Json;
use geoxidated::parser::ParseError;
use geoxidated::value::{Value, ValueTrait};

fn decimal(x: f64) -> Decimal {
    Decimal::parse(&format!("{}", x)).expect("a finite number")
}

fn point_of(text: &str) -> Result<Geometry, ParseError> {
    Geometry::from_json(&Json::new(text.to_string()))
}

#[test]
fn bbox_is_a_closed_ring_from_the_minimum_corner() {
    let bbox = Bbox::new(decimal(-1.0), decimal(-2.0), decimal(3.0), decimal(4.0));
    assert_eq!(bbox.to_wkt(), "POLYGON((-1 -2, -1 4, 3 4, 3 -2, -1 -2))");
}

#[test]
fn bbox_keeps_fractions() {
    let bbox = Bbox::new(decimal(-46.5), decimal(-23.75), decimal(-46.25), decimal(-23.5));
    assert_eq!(
        bbox.to_wkt(),
        "POLYGON((-46.5 -23.75, -46.5 -23.5, -46.25 -23.5, -46.25 -23.75, -46.5 -23.75))"
    );
}

#[test]
fn decimal_accepts_number_literals_only() {
    for text in ["0", "-0", "7", "-12.5", "1e5", "1E-5", "2.5e+10", "0.001"] {
        assert_eq!(Decimal::parse(text).expect(text).as_text(), text);
    }
    for text in ["", "-", "+1", "01", "1.", ".5", "1e", "1e+", "NaN", "inf", "1 ", "0x10", "1,5"] {
        assert!(Decimal::parse(text).is_none(), "{}", text);
    }
}

#[test]
fn decimal_knows_the_numerals_of_integers() {
    assert_eq!(Decimal::parse("42").unwrap().to_integer(), Some(42));
    assert_eq!(Decimal::parse("-9223372036854775808").unwrap().to_integer(), Some(i64::MIN));
    assert_eq!(Decimal::parse("9223372036854775807").unwrap().to_integer(), Some(i64::MAX));
    assert_eq!(Decimal::parse("9223372036854775808").unwrap().to_integer(), None);
    assert_eq!(Decimal::parse("-0").unwrap().to_integer(), None);
    assert_eq!(Decimal::parse("1.0").unwrap().to_integer(), None);
    assert_eq!(Decimal::parse("1e2").unwrap().to_integer(), None);
    assert_eq!(Decimal::from_int(-15).as_text(), "-15");
    assert_eq!(Decimal::from_int(i64::MIN).as_text(), "-9223372036854775808");
}

#[test]
fn point_round_trips_through_its_value() {
    for (lng, lat) in [("-46.6388", "-23.5489"), ("10", "20"), ("0", "-0"), ("1e2", "2.50")] {
        let point = Geometry::Point(Point::new(
            Decimal::parse(lng).unwrap(),
            Decimal::parse(lat).unwrap(),
        ));
        match Geometry::parse(&point.encode()) {
            Ok(Geometry::Point(p)) => {
                assert_eq!(p.longitude.as_text(), lng);
                assert_eq!(p.latitude.as_text(), lat);
            }
            Err(_) => panic!("the point is read back"),
        }
    }
}

#[test]
fn point_text_is_geo_json() {
    let point = Geometry::Point(Point::new(decimal(-46.5), decimal(7.0)));
    assert_eq!(point.to_geo_json(), "{\"type\":\"Point\",\"coordinates\":[-46.5,7]}");
    assert_eq!(point.encode().to_geo_json(), point.to_geo_json());
}

#[test]
fn geometry_kind_is_read_without_regard_to_case() {
    for text in [
        "{\"type\":\"Point\",\"coordinates\":[1.5,2]}",
        "{\"type\":\"point\",\"coordinates\":[1.5,2]}",
        "{\"coordinates\":[1.5,2],\"type\":\"POINT\"}",
    ] {
        match point_of(text) {
            Ok(Geometry::Point(p)) => {
                assert_eq!(p.longitude.as_text(), "1.5");
                assert_eq!(p.latitude.as_text(), "2");
            }
            Err(_) => panic!("a point"),
        }
    }
}

#[test]
fn other_geometries_are_refused() {
    match point_of("{\"type\":\"Polygon\",\"coordinates\":[]}") {
        Err(ParseError::UnsupportedGeometryType(tag)) => assert_eq!(tag, "Polygon"),
        _ => panic!("an unsupported kind"),
    }
    match point_of("{\"coordinates\":[1,2]}") {
        Err(ParseError::MissingField(name)) => assert_eq!(name, "type"),
        _ => panic!("a missing kind"),
    }
    match point_of("{\"type\":7,\"coordinates\":[1,2]}") {
        Err(ParseError::MissingField(name)) => assert_eq!(name, "type"),
        _ => panic!("a missing kind"),
    }
    assert!(matches!(point_of("[1,2]"), Err(ParseError::MissingField(_))));
    assert!(matches!(point_of("{\"type\""), Err(ParseError::MalformedJson)));
}

#[test]
fn malformed_coordinates_are_refused() {
    for text in [
        "{\"type\":\"Point\"}",
        "{\"type\":\"Point\",\"coordinates\":7}",
        "{\"type\":\"Point\",\"coordinates\":[]}",
        "{\"type\":\"Point\",\"coordinates\":[1]}",
        "{\"type\":\"Point\",\"coordinates\":[1,2,3]}",
        "{\"type\":\"Point\",\"coordinates\":[1,\"2\"]}",
        "{\"type\":\"Point\",\"coordinates\":[null,2]}",
    ] {
        assert!(matches!(point_of(text), Err(ParseError::MalformedGeometry)), "{}", text);
    }
}

#[test]
fn geometry_parse_takes_a_value() {
    let value = Value::parse("{\"type\":\"Point\",\"coordinates\":[3,4.25]}").ok().unwrap();
    match Geometry::parse(&value) {
        Ok(Geometry::Point(p)) => {
            assert_eq!(p.longitude.as_text(), "3");
            assert_eq!(p.latitude.as_text(), "4.25");
        }
        Err(_) => panic!("a point"),
    }
}
