//! Features: a geometry with an identifier and free-form properties.

use crate::geometry::{
    geometry_of_text, geometry_of_value, geometry_value, lemma_geometry_round_trip,
    valid_geometry, Geometry, GeometryView,
};
use crate::id::{Id, IntId};
use crate::json::Json;
use crate::parser::{missing_field, parse_properties, parsed_value, ParseError, ParseErrorView};
use crate::value::{
    field, json_text, lemma_empty_views, lemma_field_valid, member_index_from, push_member,
    valid_value, NumberView, NumericalValue, ObjectProperty,
    ObjectValue, Value, ValueTrait, ValueView,
};
use vstd::prelude::*;

verus! {

/// One geographic entity.
pub struct Feature {
    pub id: Id,
    pub geometry: Geometry,
    pub properties: ObjectValue,
}

/// The model of a feature.
pub struct FeatureView {
    pub id: Id,
    pub geometry: GeometryView,
    pub properties: Seq<(Seq<char>, ValueView)>,
}

impl View for Feature {
    type V = FeatureView;

    open spec fn view(&self) -> FeatureView {
        FeatureView { id: self.id, geometry: self.geometry@, properties: self.properties@ }
    }
}

/// A feature is valid if its geometry and its properties are.
pub open spec fn valid_feature(f: FeatureView) -> bool {
    valid_geometry(f.geometry) && valid_value(ValueView::Object(f.properties))
}

/// The member that carries an identifier: `id` with the number of an
/// assigned identifier, nothing for an unassigned one.
pub open spec fn id_members(id: Id) -> Seq<(Seq<char>, ValueView)> {
    match id {
        Id::IntId(i) => seq![("id"@, ValueView::Number(NumberView::Integer(i.0 as int)))],
        Id::Unassigned => Seq::empty(),
    }
}

/// The identifier that the value `v` carries: the integer under `id`, or
/// none where there is no integer.
pub open spec fn id_of_value(v: ValueView) -> Id {
    match field(v, "id"@) {
        Some(ValueView::Number(NumberView::Integer(i))) => Id::IntId(IntId(i as i64)),
        _ => Id::Unassigned,
    }
}

/// The members that the value `v` carries under `properties`: those of the
/// object there, or none where there is no object.
pub open spec fn properties_of_value(v: ValueView) -> Seq<(Seq<char>, ValueView)> {
    match field(v, "properties"@) {
        Some(ValueView::Object(members)) => members,
        _ => Seq::empty(),
    }
}

/// The GeoJSON value of a feature.
pub open spec fn feature_value(f: FeatureView) -> ValueView {
    ValueView::Object(
        seq![("type"@, ValueView::String("Feature"@))] + id_members(f.id) + seq![
            ("geometry"@, geometry_value(f.geometry)),
            ("properties"@, ValueView::Object(f.properties)),
        ],
    )
}

/// The feature that the GeoJSON value `v` describes. The geometry is
/// required; an identifier and properties are taken where they are there.
pub open spec fn feature_of_value(v: ValueView) -> Result<FeatureView, ParseErrorView> {
    match field(v, "geometry"@) {
        Some(g) => match geometry_of_value(g) {
            Ok(geometry) => Ok(
                FeatureView { id: id_of_value(v), geometry, properties: properties_of_value(v) },
            ),
            Err(e) => Err(e),
        },
        None => Err(ParseErrorView::MissingField("geometry"@)),
    }
}

/// The feature that the GeoJSON text `text` describes.
pub open spec fn feature_of_text(text: Seq<char>) -> Result<FeatureView, ParseErrorView> {
    match parsed_value(text) {
        Ok(v) => feature_of_value(v),
        Err(e) => Err(e),
    }
}

/// The feature that a stored row describes: its identifier, its properties
/// as the text of a JSON object, its geometry as GeoJSON text. The geometry
/// is read first.
pub open spec fn feature_of_row(id: i64, properties: Seq<char>, geometry: Seq<char>) -> Result<
    FeatureView,
    ParseErrorView,
> {
    match geometry_of_text(geometry) {
        Ok(g) => match parsed_value(properties) {
            Ok(ValueView::Object(members)) => Ok(
                FeatureView { id: Id::IntId(IntId(id)), geometry: g, properties: members },
            ),
            _ => Err(ParseErrorView::MalformedJson),
        },
        Err(e) => Err(e),
    }
}

/// Appends to `members` the member that carries `id`.
pub fn push_id(members: &mut Vec<ObjectProperty>, id: &Id)
    ensures
        crate::value::members_view(final(members)@) == crate::value::members_view(old(members)@)
            + id_members(*id),
{
    match id {
        Id::IntId(i) => {
            push_member(members, "id", Value::integer(i.0));
            assert(crate::value::members_view(old(members)@).push(
                ("id"@, ValueView::Number(NumberView::Integer(i.0 as int))),
            ) =~= crate::value::members_view(old(members)@) + id_members(*id));
        },
        Id::Unassigned => {
            assert(crate::value::members_view(old(members)@) =~= crate::value::members_view(
                old(members)@,
            ) + id_members(*id));
        },
    }
}

/// The identifier that `value` carries.
pub fn read_id(value: &Value) -> (r: Id)
    ensures
        r == id_of_value(value@),
{
    match value.member("id") {
        Some(Value::NumberValue(n)) => match &n.value {
            NumericalValue::Integer(i) => Id::IntId(IntId(*i)),
            NumericalValue::Float(_) => Id::Unassigned,
        },
        _ => Id::Unassigned,
    }
}

/// The members that `value` carries under `properties`.
pub fn read_properties(value: &Value) -> (r: ObjectValue)
    ensures
        r@ == properties_of_value(value@),
        valid_value(value@) ==> valid_value(ValueView::Object(r@)),
{
    proof {
        if valid_value(value@) {
            lemma_field_valid(value@, "properties"@);
        }
    }
    match value.member("properties") {
        Some(Value::ObjectValue(o)) => o.clone(),
        _ => ObjectValue::empty(),
    }
}

impl Feature {
    pub fn new(id: Id, geometry: Geometry, properties: ObjectValue) -> (r: Self)
        ensures
            r@ == (FeatureView { id, geometry: geometry@, properties: properties@ }),
    {
        Feature { id, geometry, properties }
    }

    /// The GeoJSON value of the feature.
    pub fn encode(&self) -> (r: Value)
        ensures
            r@ == feature_value(self@),
    {
        proof {
            lemma_empty_views();
        }
        let mut members: Vec<ObjectProperty> = Vec::new();
        push_member(&mut members, "type", Value::string("Feature".to_owned()));
        push_id(&mut members, &self.id);
        push_member(&mut members, "geometry", self.geometry.encode());
        push_member(&mut members, "properties", Value::ObjectValue(self.properties.clone()));
        let r = Value::object(members);
        proof {
            assert(r@->Object_0 =~= feature_value(self@)->Object_0);
        }
        r
    }

    /// The GeoJSON text of the feature.
    pub fn to_geo_json(&self) -> (r: String)
        ensures
            r@ == json_text(feature_value(self@)),
    {
        self.encode().to_geo_json()
    }

    /// The feature that the GeoJSON value `value` describes.
    pub fn parse(value: &Value) -> (r: Result<Feature, ParseError>)
        ensures
            match r {
                Ok(f) => feature_of_value(value@) == Ok::<FeatureView, ParseErrorView>(f@) && (
                valid_value(value@) ==> valid_feature(f@)),
                Err(e) => feature_of_value(value@) == Err::<FeatureView, ParseErrorView>(e@),
            },
    {
        let id = read_id(value);
        let geometry = match value.member("geometry") {
            Some(g) => match Geometry::parse(g) {
                Ok(geometry) => geometry,
                Err(e) => {
                    return Err(e);
                },
            },
            None => {
                return Err(missing_field("geometry"));
            },
        };
        let properties = read_properties(value);
        Ok(Feature { id, geometry, properties })
    }

    /// The feature that the GeoJSON text `json` describes.
    pub fn from_json(json: &Json) -> (r: Result<Feature, ParseError>)
        ensures
            match r {
                Ok(f) => feature_of_text(json@) == Ok::<FeatureView, ParseErrorView>(f@)
                    && valid_feature(f@),
                Err(e) => feature_of_text(json@) == Err::<FeatureView, ParseErrorView>(e@),
            },
    {
        match Value::parse(json.to_string_ref().as_str()) {
            Ok(value) => Feature::parse(&value),
            Err(e) => Err(e),
        }
    }
}

/// The feature that a stored row describes.
pub fn parse_feature(id: i64, properties: &str, geometry: &str) -> (r: Result<Feature, ParseError>)
    ensures
        match r {
            Ok(f) => feature_of_row(id, properties@, geometry@) == Ok::<
                FeatureView,
                ParseErrorView,
            >(f@) && valid_feature(f@),
            Err(e) => feature_of_row(id, properties@, geometry@) == Err::<
                FeatureView,
                ParseErrorView,
            >(e@),
        },
{
    let geometry = match Value::parse(geometry) {
        Ok(value) => match Geometry::parse(&value) {
            Ok(g) => g,
            Err(e) => {
                return Err(e);
            },
        },
        Err(e) => {
            return Err(e);
        },
    };
    match parse_properties(properties) {
        Ok(properties) => Ok(Feature { id: Id::IntId(IntId(id)), geometry, properties }),
        Err(e) => Err(e),
    }
}

/// A feature is read back from its GeoJSON value as it was.
pub proof fn lemma_feature_round_trip(f: FeatureView)
    ensures
        feature_of_value(feature_value(f)) == Ok::<FeatureView, ParseErrorView>(f),
{
    reveal_strlit("type");
    reveal_strlit("id");
    reveal_strlit("geometry");
    reveal_strlit("properties");
    let v = feature_value(f);
    let members = v->Object_0;
    let k = id_members(f.id).len() as int;
    assert("type"@.len() == 4 && "id"@.len() == 2 && "geometry"@.len() == 8 && "properties"@.len()
        == 10);
    assert(members.len() == k + 3);
    assert(members[0].0 == "type"@);
    assert(members[k + 1] == ("geometry"@, geometry_value(f.geometry)));
    assert(members[k + 2] == ("properties"@, ValueView::Object(f.properties)));
    if k == 1 {
        let number = NumberView::Integer(f.id->IntId_0.0 as int);
        assert(members[1] == ("id"@, ValueView::Number(number)));
        assert(member_index_from(members, "id"@, 1) == Some(1int));
        assert(member_index_from(members, "geometry"@, 1) == member_index_from(
            members,
            "geometry"@,
            2,
        ));
        assert(member_index_from(members, "properties"@, 1) == member_index_from(
            members,
            "properties"@,
            2,
        ));
    } else {
        assert(member_index_from(members, "id"@, 3) is None);
        assert(member_index_from(members, "id"@, 2) is None);
        assert(member_index_from(members, "id"@, 1) is None);
    }
    assert(member_index_from(members, "id"@, 0) == member_index_from(members, "id"@, 1));
    assert(member_index_from(members, "geometry"@, k + 1) == Some(k + 1));
    assert(member_index_from(members, "geometry"@, 0) == Some(k + 1));
    assert(member_index_from(members, "properties"@, k + 2) == Some(k + 2));
    assert(member_index_from(members, "properties"@, k + 1) == Some(k + 2));
    assert(member_index_from(members, "properties"@, 0) == Some(k + 2));
    lemma_geometry_round_trip(f.geometry);
    assert(id_of_value(v) == f.id);
    assert(properties_of_value(v) == f.properties);
}

} // verus!
