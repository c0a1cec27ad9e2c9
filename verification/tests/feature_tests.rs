use geoxidated::decimal::Decimal;
use geoxidated::feature::{parse_feature, Feature};
use geoxidated::feature_collection::{FeatureCollection, FeatureCollectionList};
use geoxidated::feature_service::{
    offset, wrap_feature_into_collection, wrap_into_collection, wrap_into_list,
    FeatureRepositoryError,
};
use geoxidated::geo_entity::{EmptyResult, GeoEntity, GeoEntityTrait};
use geoxidated::geometry::{Geometry, Point};
use geoxidated::id::{Id, IntId};
use geoxidated::json::Json;
use geoxidated::parser::{parse_properties, ParseError};
use geoxidated::property::Property;
use geoxidated::query::{GetSingle, InvalidQuery, Query, QueryTrait};
use geoxidated::value::{ObjectValue, Value, ValueTrait};

fn point(lng: &str, lat: &str) -> Geometry {
    Geometry::Point(Point::new(Decimal::parse(lng).unwrap(), Decimal::parse(lat).unwrap()))
}

fn feature_of(text: &str) -> Result<Feature, ParseError> {
    Feature::from_json(&Json::new(text.to_string()))
}

fn collection_of(text: &str) -> Result<FeatureCollection, ParseError> {
    FeatureCollection::from_json(&Json::new(text.to_string()))
}

#[test]
fn id_renders_as_numeral_or_nothing() {
    assert_eq!(Id::from(12).to_text(), "12");
    assert_eq!(Id::from(-3).to_text(), "-3");
    assert_eq!(Id::Unassigned.to_text(), "");
    assert_eq!(Id::from(Some(5)).as_int(), 5);
    assert!(Id::from(None).is_empty());
    assert!(!Id::IntId(IntId(0)).is_empty());
    assert_eq!(Id::from(7).assigned(), Some(7));
}

#[test]
fn feature_text_is_geo_json() {
    let properties = parse_properties("{\"name\":\"well\",\"depth\":12.5}").ok().unwrap();
    let feature = Feature::new(Id::from(9), point("1.5", "2"), properties);
    assert_eq!(
        feature.to_geo_json(),
        "{\"type\":\"Feature\",\"id\":9,\"geometry\":{\"type\":\"Point\",\"coordinates\":[1.5,2]},\"properties\":{\"name\":\"well\",\"depth\":12.5}}"
    );
}

#[test]
fn feature_without_id_has_no_id_member() {
    let feature = Feature::new(Id::Unassigned, point("0", "0"), ObjectValue::empty());
    assert_eq!(
        feature.to_geo_json(),
        "{\"type\":\"Feature\",\"geometry\":{\"type\":\"Point\",\"coordinates\":[0,0]},\"properties\":{}}"
    );
}

#[test]
fn feature_is_read_from_text() {
    let feature = feature_of(
        "{\"id\":4,\"geometry\":{\"type\":\"Point\",\"coordinates\":[10,20.5]},\"properties\":{\"b\":1,\"a\":2}}",
    )
    .ok()
    .unwrap();
    assert_eq!(feature.id.as_int(), 4);
    assert_eq!(feature.properties.value[0].name, "b");
    assert_eq!(feature.properties.value[1].name, "a");
    assert_eq!(
        feature.geometry.encode().to_geo_json(),
        "{\"type\":\"Point\",\"coordinates\":[10,20.5]}"
    );
}

#[test]
fn feature_defaults() {
    let feature =
        feature_of("{\"geometry\":{\"type\":\"Point\",\"coordinates\":[1,2]}}").ok().unwrap();
    assert!(feature.id.is_empty());
    assert_eq!(feature.properties.value.len(), 0);
    let feature = feature_of(
        "{\"id\":\"x\",\"properties\":[1],\"geometry\":{\"type\":\"Point\",\"coordinates\":[1,2]}}",
    )
    .ok()
    .unwrap();
    assert!(feature.id.is_empty());
    assert_eq!(feature.properties.value.len(), 0);
}

#[test]
fn feature_needs_a_geometry() {
    match feature_of("{\"id\":1,\"properties\":{}}") {
        Err(ParseError::MissingField(name)) => assert_eq!(name, "geometry"),
        _ => panic!("a missing geometry"),
    }
    assert!(matches!(
        feature_of("{\"geometry\":{\"type\":\"Point\",\"coordinates\":[1]}}"),
        Err(ParseError::MalformedGeometry)
    ));
    assert!(matches!(
        feature_of("{\"geometry\":{\"type\":\"Line\",\"coordinates\":[1,2]}}"),
        Err(ParseError::UnsupportedGeometryType(_))
    ));
    assert!(matches!(feature_of("not json"), Err(ParseError::MalformedJson)));
}

#[test]
fn feature_round_trips_through_its_text() {
    let text = "{\"type\":\"Feature\",\"id\":31,\"geometry\":{\"type\":\"Point\",\"coordinates\":[-46.5,-23.5]},\"properties\":{\"name\":\"caf\u{e9}\",\"tags\":[\"a\",\"b\"],\"open\":true}}";
    let feature = feature_of(text).ok().unwrap();
    assert_eq!(feature.to_geo_json(), text);
}

#[test]
fn feature_is_read_from_a_row() {
    let feature = parse_feature(
        8,
        "{\"kind\":\"tree\"}",
        "{\"type\":\"Point\",\"coordinates\":[5,6]}",
    )
    .ok()
    .unwrap();
    assert_eq!(feature.id.as_int(), 8);
    assert_eq!(feature.properties.to_geo_json(), "{\"kind\":\"tree\"}");
    assert!(matches!(
        parse_feature(8, "[1]", "{\"type\":\"Point\",\"coordinates\":[5,6]}"),
        Err(ParseError::MalformedJson)
    ));
    assert!(matches!(parse_feature(8, "{}", ""), Err(ParseError::MalformedJson)));
    assert!(matches!(
        parse_feature(8, "[1]", "{\"type\":\"Point\",\"coordinates\":[5]}"),
        Err(ParseError::MalformedGeometry)
    ));
}

#[test]
fn properties_must_be_an_object() {
    assert_eq!(parse_properties("{}").ok().unwrap().value.len(), 0);
    assert!(matches!(parse_properties("7"), Err(ParseError::MalformedJson)));
    assert!(matches!(parse_properties("{"), Err(ParseError::MalformedJson)));
}

#[test]
fn collection_without_features_has_no_features_member() {
    let collection = FeatureCollection::new(
        Id::from(2),
        "parks".to_string(),
        vec![],
        parse_properties("{\"city\":\"x\"}").ok().unwrap(),
    );
    assert_eq!(
        collection.to_geo_json(),
        "{\"type\":\"FeatureCollection\",\"id\":2,\"label\":\"parks\",\"properties\":{\"city\":\"x\"}}"
    );
    assert!(collection.encode().member("features").is_none());
}

#[test]
fn collection_with_features_has_a_features_member() {
    let collection = FeatureCollection::new(
        Id::from(2),
        "parks".to_string(),
        vec![
            Feature::new(Id::from(1), point("1", "2"), ObjectValue::empty()),
            Feature::new(Id::Unassigned, point("3", "4"), ObjectValue::empty()),
        ],
        ObjectValue::empty(),
    );
    assert_eq!(
        collection.to_geo_json(),
        "{\"type\":\"FeatureCollection\",\"id\":2,\"label\":\"parks\",\"properties\":{},\"features\":[{\"type\":\"Feature\",\"id\":1,\"geometry\":{\"type\":\"Point\",\"coordinates\":[1,2]},\"properties\":{}},{\"type\":\"Feature\",\"geometry\":{\"type\":\"Point\",\"coordinates\":[3,4]},\"properties\":{}}]}"
    );
    match collection.encode().member("features") {
        Some(Value::ArrayValue(items)) => assert_eq!(items.value.len(), 2),
        _ => panic!("an array of features"),
    }
}

#[test]
fn empty_collection() {
    let collection = FeatureCollection::empty();
    assert!(collection.id.is_empty());
    assert_eq!(collection.label, "");
    assert_eq!(collection.features.len(), 0);
    assert_eq!(
        collection.to_geo_json(),
        "{\"type\":\"FeatureCollection\",\"label\":\"\",\"properties\":{}}"
    );
}

#[test]
fn collection_is_read_from_text() {
    let collection = collection_of(
        "{\"id\":3,\"label\":\"wells\",\"properties\":{\"a\":1},\"features\":[{\"geometry\":{\"type\":\"Point\",\"coordinates\":[1,2]}},{\"id\":6,\"geometry\":{\"type\":\"point\",\"coordinates\":[3,4]}}]}",
    )
    .ok()
    .unwrap();
    assert_eq!(collection.id.as_int(), 3);
    assert_eq!(collection.label, "wells");
    assert_eq!(collection.features.len(), 2);
    assert!(collection.features[0].id.is_empty());
    assert_eq!(collection.features[1].id.as_int(), 6);
    let collection = collection_of("{\"label\":\"bare\"}").ok().unwrap();
    assert!(collection.id.is_empty());
    assert_eq!(collection.features.len(), 0);
    assert_eq!(collection.properties.value.len(), 0);
}

#[test]
fn collection_needs_a_label() {
    match collection_of("{\"id\":3}") {
        Err(ParseError::MissingField(name)) => assert_eq!(name, "label"),
        _ => panic!("a missing label"),
    }
    match collection_of("{\"label\":5,\"features\":[{}]}") {
        Err(ParseError::MissingField(name)) => assert_eq!(name, "label"),
        _ => panic!("a missing label"),
    }
    match collection_of("{\"label\":\"x\",\"features\":[{\"geometry\":{\"type\":\"Point\",\"coordinates\":[1,2]}},{}]}") {
        Err(ParseError::MissingField(name)) => assert_eq!(name, "geometry"),
        _ => panic!("a feature without geometry"),
    }
}

#[test]
fn collection_is_read_from_a_row() {
    let collection = FeatureCollection::from_row(4, "rivers".to_string(), "{\"k\":1}").ok().unwrap();
    assert_eq!(collection.id.as_int(), 4);
    assert_eq!(collection.label, "rivers");
    assert_eq!(collection.features.len(), 0);
    assert!(FeatureCollection::from_row(4, "rivers".to_string(), "").is_err());
}

#[test]
fn list_of_collections_is_a_json_array() {
    let list = FeatureCollectionList::new(vec![
        FeatureCollection::new(Id::from(1), "a".to_string(), vec![], ObjectValue::empty()),
        FeatureCollection::new(Id::from(2), "b".to_string(), vec![], ObjectValue::empty()),
    ]);
    assert_eq!(
        list.to_json(),
        "[{\"type\":\"FeatureCollection\",\"id\":1,\"label\":\"a\",\"properties\":{}},{\"type\":\"FeatureCollection\",\"id\":2,\"label\":\"b\",\"properties\":{}}]"
    );
    assert_eq!(FeatureCollectionList::new(vec![]).to_json(), "[]");
}

#[test]
fn entities_write_themselves() {
    let feature = Feature::new(Id::from(1), point("1", "2"), ObjectValue::empty());
    let text = feature.to_geo_json();
    assert_eq!(GeoEntity::Feature(feature).to_geo_json(), text);
    assert_eq!(GeoEntity::EmptyResult(EmptyResult).to_geo_json(), "");
    assert_eq!(
        GeoEntity::FeatureCollection(FeatureCollection::empty()).to_geo_json(),
        FeatureCollection::empty().to_geo_json()
    );
}

#[test]
fn property_is_written_with_a_space() {
    let property = Property::new("depth".to_string(), Value::parse("[1,2]").ok().unwrap());
    assert_eq!(property.to_geo_json(), "\"depth\": [1,2]");
}

#[test]
fn offset_is_page_times_size() {
    assert_eq!(offset(0, 50), Some(0));
    assert_eq!(offset(3, 50), Some(150));
    assert_eq!(offset(-2, 10), Some(-20));
    assert_eq!(offset(i64::MAX, 2), None);
    assert_eq!(offset(i64::MIN, -1), None);
    assert_eq!(offset(i64::MIN, 1), Some(i64::MIN));
}

#[test]
fn service_wraps_what_the_store_found() {
    let collection =
        FeatureCollection::new(Id::from(1), "a".to_string(), vec![], ObjectValue::empty());
    let found = vec![
        Feature::new(Id::from(1), point("1", "2"), ObjectValue::empty()),
        Feature::new(Id::from(2), point("3", "4"), ObjectValue::empty()),
    ];
    let wrapped = wrap_into_collection(collection, Ok(found)).ok().unwrap();
    assert_eq!(wrapped.features.len(), 2);
    assert_eq!(wrapped.label, "a");
    let wrapped = wrap_feature_into_collection(
        wrapped,
        Ok(Feature::new(Id::from(9), point("0", "0"), ObjectValue::empty())),
    )
    .ok()
    .unwrap();
    assert_eq!(wrapped.features.len(), 1);
    assert_eq!(wrapped.features[0].id.as_int(), 9);
    let failed = wrap_into_collection(
        wrapped,
        Err(FeatureRepositoryError { message: "down".to_string() }),
    );
    assert_eq!(failed.err().unwrap().message, "down");
    let failed = wrap_feature_into_collection(
        FeatureCollection::empty(),
        Err(FeatureRepositoryError { message: "gone".to_string() }),
    );
    assert_eq!(failed.err().unwrap().message, "gone");
    assert_eq!(wrap_into_list(Ok(vec![FeatureCollection::empty()])).ok().unwrap().0.len(), 1);
    let failed = wrap_into_list(Err(FeatureRepositoryError { message: "no".to_string() }));
    assert_eq!(failed.err().unwrap().message, "no");
}

#[test]
fn database_url_names_the_account() {
    let configuration =
        geoxidated::config::Configuration::new("geo_user".to_string(), SECRET.to_string());
    assert_eq!(
        configuration.get_database_url(),
        format!("postgres://geo_user:{}@localhost:5432/geo", SECRET)
    );
}

const SECRET: &str = "s3cret";

#[test]
fn queries_answer_with_what_was_found() {
    let query = Query::GetSingle(GetSingle::new(7));
    assert_eq!(query.feature_id(), Some(7));
    let found = Feature::new(Id::from(7), point("1", "2"), ObjectValue::empty());
    let text = found.to_geo_json();
    assert_eq!(query.execute(Some(found)).to_geo_json(), text);
    assert_eq!(query.execute(None).to_geo_json(), "");
    let query = Query::InvalidQuery(InvalidQuery {});
    assert_eq!(query.feature_id(), None);
    let found = Feature::new(Id::from(7), point("1", "2"), ObjectValue::empty());
    assert_eq!(query.execute(Some(found)).to_geo_json(), "");
}
