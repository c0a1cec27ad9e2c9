//! Geometries and their GeoJSON form.

use crate::decimal::{
    integer_literal_value, is_number_literal, lemma_integer_literal, Decimal,
};
use crate::json::Json;
use crate::parser::{missing_field, parsed_value, ParseError, ParseErrorView};
use crate::text::{lower_text, text_eq, to_lower};
use crate::value::{
    decimal_number, field, json_text, lemma_empty_views, number_text, push_item, push_member,
    NumericalValue, ObjectProperty, Value, ValueTrait, ValueView,
};
use vstd::prelude::*;

verus! {

/// A position: longitude first, then latitude.
pub struct Point {
    pub longitude: Decimal,
    pub latitude: Decimal,
}

/// A geometry. Points are the only kind so far.
pub enum Geometry {
    Point(Point),
}

/// The model of a point: its two coordinates as number literals.
pub struct PointView {
    pub longitude: Seq<char>,
    pub latitude: Seq<char>,
}

/// The model of a geometry.
pub enum GeometryView {
    Point(PointView),
}

impl View for Point {
    type V = PointView;

    open spec fn view(&self) -> PointView {
        PointView { longitude: self.longitude@, latitude: self.latitude@ }
    }
}

impl View for Geometry {
    type V = GeometryView;

    open spec fn view(&self) -> GeometryView {
        match self {
            Geometry::Point(p) => GeometryView::Point(p@),
        }
    }
}

/// A geometry is valid if its coordinates are number literals.
pub open spec fn valid_geometry(g: GeometryView) -> bool {
    match g {
        GeometryView::Point(p) => is_number_literal(p.longitude) && is_number_literal(p.latitude),
    }
}

/// The GeoJSON value of a geometry: its kind under `type`, its coordinates
/// under `coordinates`.
pub open spec fn geometry_value(g: GeometryView) -> ValueView {
    match g {
        GeometryView::Point(p) => ValueView::Object(
            seq![
                ("type"@, ValueView::String("Point"@)),
                (
                    "coordinates"@,
                    ValueView::Array(
                        seq![
                            ValueView::Number(decimal_number(p.longitude)),
                            ValueView::Number(decimal_number(p.latitude)),
                        ],
                    ),
                ),
            ],
        ),
    }
}

/// The point that the GeoJSON value `v` describes: exactly two numbers
/// under `coordinates`.
pub open spec fn point_of_value(v: ValueView) -> Result<PointView, ParseErrorView> {
    match field(v, "coordinates"@) {
        Some(ValueView::Array(items)) => if items.len() == 2 && items[0] is Number
            && items[1] is Number {
            Ok(
                PointView {
                    longitude: number_text(items[0]->Number_0),
                    latitude: number_text(items[1]->Number_0),
                },
            )
        } else {
            Err(ParseErrorView::MalformedGeometry)
        },
        _ => Err(ParseErrorView::MalformedGeometry),
    }
}

/// The geometry that the GeoJSON value `v` describes. The kind under `type`
/// is read without regard to the case of its letters.
pub open spec fn geometry_of_value(v: ValueView) -> Result<GeometryView, ParseErrorView> {
    match field(v, "type"@) {
        Some(ValueView::String(tag)) => if lower_text(tag) == "point"@ {
            match point_of_value(v) {
                Ok(p) => Ok(GeometryView::Point(p)),
                Err(e) => Err(e),
            }
        } else {
            Err(ParseErrorView::UnsupportedGeometryType(tag))
        },
        _ => Err(ParseErrorView::MissingField("type"@)),
    }
}

/// What the geometries below have in common.
pub trait GeometryTrait {
    /// The GeoJSON text that `to_geo_json` writes.
    spec fn geo_json(&self) -> Seq<char>;

    /// Writes the geometry as GeoJSON text.
    fn to_geo_json(&self) -> (r: String)
        ensures
            r@ == self.geo_json(),
    ;
}

fn coordinate(value: &Value) -> (r: Option<Decimal>)
    ensures
        match r {
            Some(d) => value@ is Number && d@ == number_text(value@->Number_0),
            None => !(value@ is Number),
        },
{
    match value {
        Value::NumberValue(n) => match &n.value {
            NumericalValue::Integer(i) => Some(Decimal::from_int(*i)),
            NumericalValue::Float(d) => Some(d.clone()),
        },
        _ => None,
    }
}

impl Point {
    pub fn new(longitude: Decimal, latitude: Decimal) -> (r: Self)
        ensures
            r@ == (PointView { longitude: longitude@, latitude: latitude@ }),
            valid_geometry(GeometryView::Point(r@)),
    {
        longitude.is_literal();
        latitude.is_literal();
        Point { longitude, latitude }
    }

    /// The GeoJSON value of the point.
    pub fn encode(&self) -> (r: Value)
        ensures
            r@ == geometry_value(GeometryView::Point(self@)),
    {
        proof {
            lemma_empty_views();
        }
        let mut coordinates: Vec<Value> = Vec::new();
        push_item(&mut coordinates, Value::number(self.longitude.clone()));
        push_item(&mut coordinates, Value::number(self.latitude.clone()));
        let mut members: Vec<ObjectProperty> = Vec::new();
        push_member(&mut members, "type", Value::string("Point".to_owned()));
        push_member(&mut members, "coordinates", Value::array(coordinates));
        let r = Value::object(members);
        proof {
            let want = geometry_value(GeometryView::Point(self@));
            assert(r@->Object_0[1].1->Array_0 =~= want->Object_0[1].1->Array_0);
            assert(r@->Object_0 =~= want->Object_0);
        }
        r
    }

    /// The point that the GeoJSON value `value` describes.
    pub fn parse(value: &Value) -> (r: Result<Point, ParseError>)
        ensures
            match r {
                Ok(p) => point_of_value(value@) == Ok::<PointView, ParseErrorView>(p@)
                    && valid_geometry(GeometryView::Point(p@)),
                Err(e) => point_of_value(value@) == Err::<PointView, ParseErrorView>(e@),
            },
    {
        match value.member("coordinates") {
            Some(Value::ArrayValue(a)) => {
                if a.value.len() != 2 {
                    return Err(ParseError::MalformedGeometry);
                }
                assert(a@[0] == a.value[0]@ && a@[1] == a.value[1]@);
                match (coordinate(&a.value[0]), coordinate(&a.value[1])) {
                    (Some(longitude), Some(latitude)) => Ok(Point::new(longitude, latitude)),
                    _ => Err(ParseError::MalformedGeometry),
                }
            },
            _ => Err(ParseError::MalformedGeometry),
        }
    }
}

impl Geometry {
    /// The GeoJSON value of the geometry.
    pub fn encode(&self) -> (r: Value)
        ensures
            r@ == geometry_value(self@),
    {
        match self {
            Geometry::Point(p) => p.encode(),
        }
    }

    /// The geometry that the GeoJSON value `value` describes.
    pub fn parse(value: &Value) -> (r: Result<Geometry, ParseError>)
        ensures
            match r {
                Ok(g) => geometry_of_value(value@) == Ok::<GeometryView, ParseErrorView>(g@)
                    && valid_geometry(g@),
                Err(e) => geometry_of_value(value@) == Err::<GeometryView, ParseErrorView>(e@),
            },
    {
        match value.member("type") {
            Some(Value::StringValue(tag)) => {
                let folded = to_lower(tag.value.as_str());
                if text_eq(folded.as_str(), "point") {
                    match Point::parse(value) {
                        Ok(p) => Ok(Geometry::Point(p)),
                        Err(e) => Err(e),
                    }
                } else {
                    Err(ParseError::UnsupportedGeometryType(tag.value.clone()))
                }
            },
            _ => Err(missing_field("type")),
        }
    }

    /// The geometry that the GeoJSON text `json` describes.
    pub fn from_json(json: &Json) -> (r: Result<Geometry, ParseError>)
        ensures
            match r {
                Ok(g) => geometry_of_text(json@) == Ok::<GeometryView, ParseErrorView>(g@)
                    && valid_geometry(g@),
                Err(e) => geometry_of_text(json@) == Err::<GeometryView, ParseErrorView>(e@),
            },
    {
        match Value::parse(json.to_string_ref().as_str()) {
            Ok(value) => Geometry::parse(&value),
            Err(e) => Err(e),
        }
    }
}

/// The geometry that the GeoJSON text `text` describes.
pub open spec fn geometry_of_text(text: Seq<char>) -> Result<GeometryView, ParseErrorView> {
    match parsed_value(text) {
        Ok(v) => geometry_of_value(v),
        Err(e) => Err(e),
    }
}

impl GeometryTrait for Point {
    open spec fn geo_json(&self) -> Seq<char> {
        json_text(geometry_value(GeometryView::Point(self@)))
    }

    fn to_geo_json(&self) -> (r: String) {
        self.encode().to_geo_json()
    }
}

impl GeometryTrait for Geometry {
    open spec fn geo_json(&self) -> Seq<char> {
        json_text(geometry_value(self@))
    }

    fn to_geo_json(&self) -> (r: String) {
        self.encode().to_geo_json()
    }
}

/// A geometry is read back from its GeoJSON value as it was.
pub proof fn lemma_geometry_round_trip(g: GeometryView)
    ensures
        geometry_of_value(geometry_value(g)) == Ok::<GeometryView, ParseErrorView>(g),
{
    reveal_strlit("type");
    reveal_strlit("coordinates");
    reveal_strlit("Point");
    reveal_strlit("point");
    let p = g->Point_0;
    let v = geometry_value(g);
    let members = v->Object_0;
    assert(members[0].0 == "type"@);
    assert(members[1].0 == "coordinates"@);
    assert("type"@ != "coordinates"@) by {
        assert("type"@.len() == 4);
        assert("coordinates"@.len() == 11);
    }
    assert(lower_text("Point"@) =~= "point"@);
    lemma_integer_literal(p.longitude, integer_literal_value(p.longitude).unwrap_or(0));
    lemma_integer_literal(p.latitude, integer_literal_value(p.latitude).unwrap_or(0));
    assert(crate::value::member_index_from(members, "coordinates"@, 1) == Some(1int));
    assert(crate::value::member_index_from(members, "coordinates"@, 0) == Some(1int));
    assert(crate::value::member_index_from(members, "type"@, 0) == Some(0int));
}

} // verus!
