//! Collections: named groups of features.

use crate::feature::{
    feature_of_value, feature_value, id_members, id_of_value, lemma_feature_round_trip,
    properties_of_value, push_id, read_id, read_properties, valid_feature, Feature,
    FeatureView,
};
use crate::id::{Id, IntId};
use crate::json::Json;
use crate::parser::{missing_field, parse_properties, parsed_value, ParseError, ParseErrorView};
use crate::value::{
    field, items_view, json_text, lemma_empty_views, lemma_field_valid, member_index_from,
    push_item,
    push_member, valid_value, NumberView, ObjectProperty, ObjectValue, Value, ValueTrait,
    ValueView,
};
use vstd::prelude::*;

verus! {

/// A named group of features. `features` holds those that were asked for,
/// which need not be all that belong to the collection.
pub struct FeatureCollection {
    pub id: Id,
    pub label: String,
    pub features: Vec<Feature>,
    pub properties: ObjectValue,
}

/// The model of a collection.
pub struct FeatureCollectionView {
    pub id: Id,
    pub label: Seq<char>,
    pub features: Seq<FeatureView>,
    pub properties: Seq<(Seq<char>, ValueView)>,
}

/// The models of `features`, in order.
pub open spec fn features_view(features: Seq<Feature>) -> Seq<FeatureView> {
    Seq::new(features.len(), |i: int| features[i]@)
}

impl View for FeatureCollection {
    type V = FeatureCollectionView;

    open spec fn view(&self) -> FeatureCollectionView {
        FeatureCollectionView {
            id: self.id,
            label: self.label@,
            features: features_view(self.features@),
            properties: self.properties@,
        }
    }
}

/// A collection is valid if its properties and its features are.
pub open spec fn valid_collection(c: FeatureCollectionView) -> bool {
    valid_value(ValueView::Object(c.properties)) && forall|i: int|
        0 <= i < c.features.len() ==> valid_feature(#[trigger] c.features[i])
}

/// The GeoJSON values of `features`, in order.
pub open spec fn feature_values(features: Seq<FeatureView>) -> Seq<ValueView> {
    Seq::new(features.len(), |i: int| feature_value(features[i]))
}

/// The member that carries the features: `features` with their values, or
/// nothing where there is no feature.
pub open spec fn features_members(features: Seq<FeatureView>) -> Seq<(Seq<char>, ValueView)> {
    if features.len() == 0 {
        Seq::empty()
    } else {
        seq![("features"@, ValueView::Array(feature_values(features)))]
    }
}

/// The GeoJSON value of a collection.
pub open spec fn collection_value(c: FeatureCollectionView) -> ValueView {
    ValueView::Object(
        seq![("type"@, ValueView::String("FeatureCollection"@))] + id_members(c.id) + seq![
            ("label"@, ValueView::String(c.label)),
            ("properties"@, ValueView::Object(c.properties)),
        ] + features_members(c.features),
    )
}

/// The features that the first `n` of the GeoJSON values `items` describe,
/// or the error of the first of them that describes none.
pub open spec fn features_of_values(items: Seq<ValueView>, n: nat) -> Result<
    Seq<FeatureView>,
    ParseErrorView,
>
    decreases n,
{
    if n == 0 || n > items.len() {
        Ok(Seq::empty())
    } else {
        match features_of_values(items, (n - 1) as nat) {
            Ok(features) => match feature_of_value(items[n - 1]) {
                Ok(f) => Ok(features.push(f)),
                Err(e) => Err(e),
            },
            Err(e) => Err(e),
        }
    }
}

/// The features that the value `v` carries under `features`: those of the
/// array there, or none where there is no array.
pub open spec fn features_of_value(v: ValueView) -> Result<Seq<FeatureView>, ParseErrorView> {
    match field(v, "features"@) {
        Some(ValueView::Array(items)) => features_of_values(items, items.len()),
        _ => Ok(Seq::empty()),
    }
}

/// The collection that the GeoJSON value `v` describes. The label is
/// required and is looked for first.
pub open spec fn collection_of_value(v: ValueView) -> Result<
    FeatureCollectionView,
    ParseErrorView,
> {
    match field(v, "label"@) {
        Some(ValueView::String(label)) => match features_of_value(v) {
            Ok(features) => Ok(
                FeatureCollectionView {
                    id: id_of_value(v),
                    label,
                    features,
                    properties: properties_of_value(v),
                },
            ),
            Err(e) => Err(e),
        },
        _ => Err(ParseErrorView::MissingField("label"@)),
    }
}

/// The collection that the GeoJSON text `text` describes.
pub open spec fn collection_of_text(text: Seq<char>) -> Result<
    FeatureCollectionView,
    ParseErrorView,
> {
    match parsed_value(text) {
        Ok(v) => collection_of_value(v),
        Err(e) => Err(e),
    }
}

/// The collection that a stored row describes: its identifier, its label,
/// its properties as the text of a JSON object. It holds no features.
pub open spec fn collection_of_row(id: i64, label: Seq<char>, properties: Seq<char>) -> Result<
    FeatureCollectionView,
    ParseErrorView,
> {
    match parsed_value(properties) {
        Ok(ValueView::Object(members)) => Ok(
            FeatureCollectionView {
                id: Id::IntId(IntId(id)),
                label,
                features: Seq::empty(),
                properties: members,
            },
        ),
        _ => Err(ParseErrorView::MalformedJson),
    }
}

fn encode_features(features: &Vec<Feature>) -> (r: Vec<Value>)
    ensures
        items_view(r@) == feature_values(features_view(features@)),
{
    proof {
        lemma_empty_views();
    }
    let mut out: Vec<Value> = Vec::new();
    let mut i: usize = 0;
    while i < features.len()
        invariant
            0 <= i <= features.len(),
            items_view(out@) == feature_values(features_view(features@)).take(i as int),
        decreases features.len() - i,
    {
        push_item(&mut out, features[i].encode());
        assert(feature_values(features_view(features@)).take(i + 1) =~= feature_values(
            features_view(features@),
        ).take(i as int).push(feature_value(features@[i as int]@)));
        i = i + 1;
    }
    assert(feature_values(features_view(features@)).take(features.len() as int)
        =~= feature_values(features_view(features@)));
    out
}

fn parse_features(items: &Vec<Value>) -> (r: Result<Vec<Feature>, ParseError>)
    ensures
        match r {
            Ok(features) => features_of_values(items_view(items@), items.len() as nat) == Ok::<
                Seq<FeatureView>,
                ParseErrorView,
            >(features_view(features@)) && (valid_value(ValueView::Array(items_view(items@)))
                ==> forall|i: int|
                0 <= i < features.len() ==> valid_feature(#[trigger] features_view(features@)[i])),
            Err(e) => features_of_values(items_view(items@), items.len() as nat) == Err::<
                Seq<FeatureView>,
                ParseErrorView,
            >(e@),
        },
{
    let mut out: Vec<Feature> = Vec::new();
    let mut i: usize = 0;
    assert(features_view(out@) =~= Seq::<FeatureView>::empty());
    while i < items.len()
        invariant
            0 <= i <= items.len(),
            features_of_values(items_view(items@), i as nat) == Ok::<
                Seq<FeatureView>,
                ParseErrorView,
            >(features_view(out@)),
            valid_value(ValueView::Array(items_view(items@))) ==> forall|k: int|
                0 <= k < out.len() ==> valid_feature(#[trigger] features_view(out@)[k]),
        decreases items.len() - i,
    {
        assert(items_view(items@)[i as int] == items@[i as int]@);
        match Feature::parse(&items[i]) {
            Ok(f) => {
                let ghost before = features_view(out@);
                proof {
                    let whole = ValueView::Array(items_view(items@));
                    if valid_value(whole) {
                        assert(valid_value(whole->Array_0[i as int]));
                    }
                }
                out.push(f);
                assert(features_view(out@) =~= before.push(f@));
            },
            Err(e) => {
                proof {
                    lemma_first_error(items_view(items@), i as nat, items.len() as nat);
                }
                return Err(e);
            },
        }
        i = i + 1;
    }
    Ok(out)
}

/// Where reading the first `k + 1` values fails on the last of them,
/// reading any more of them fails in the same way.
proof fn lemma_first_error(items: Seq<ValueView>, k: nat, n: nat)
    requires
        k < n <= items.len(),
        features_of_values(items, k) is Ok,
        feature_of_value(items[k as int]) is Err,
    ensures
        features_of_values(items, n) == Err::<Seq<FeatureView>, ParseErrorView>(
            feature_of_value(items[k as int])->Err_0,
        ),
    decreases n,
{
    if n > k + 1 {
        lemma_first_error(items, k, (n - 1) as nat);
    }
}

impl FeatureCollection {
    pub fn new(id: Id, label: String, features: Vec<Feature>, properties: ObjectValue) -> (r: Self)
        ensures
            r@ == (FeatureCollectionView {
                id,
                label: label@,
                features: features_view(features@),
                properties: properties@,
            }),
    {
        FeatureCollection { id, label, features, properties }
    }

    /// The collection without identifier, label, features and properties.
    pub fn empty() -> (r: Self)
        ensures
            r@ == (FeatureCollectionView {
                id: Id::Unassigned,
                label: Seq::empty(),
                features: Seq::empty(),
                properties: Seq::empty(),
            }),
    {
        let r = FeatureCollection {
            id: Id::Unassigned,
            label: String::new(),
            features: Vec::new(),
            properties: ObjectValue::empty(),
        };
        assert(features_view(r.features@) =~= Seq::<FeatureView>::empty());
        r
    }

    /// The GeoJSON value of the collection. The member `features` is left
    /// out where the collection holds no feature.
    pub fn encode(&self) -> (r: Value)
        ensures
            r@ == collection_value(self@),
    {
        proof {
            lemma_empty_views();
        }
        let mut members: Vec<ObjectProperty> = Vec::new();
        push_member(&mut members, "type", Value::string("FeatureCollection".to_owned()));
        push_id(&mut members, &self.id);
        push_member(&mut members, "label", Value::string(self.label.clone()));
        push_member(&mut members, "properties", Value::ObjectValue(self.properties.clone()));
        if self.features.len() > 0 {
            push_member(&mut members, "features", Value::array(encode_features(&self.features)));
        }
        let r = Value::object(members);
        proof {
            assert(r@->Object_0 =~= collection_value(self@)->Object_0);
        }
        r
    }

    /// The GeoJSON text of the collection.
    pub fn to_geo_json(&self) -> (r: String)
        ensures
            r@ == json_text(collection_value(self@)),
    {
        self.encode().to_geo_json()
    }

    /// The collection that the GeoJSON value `value` describes.
    pub fn parse(value: &Value) -> (r: Result<FeatureCollection, ParseError>)
        ensures
            match r {
                Ok(c) => collection_of_value(value@) == Ok::<
                    FeatureCollectionView,
                    ParseErrorView,
                >(c@) && (valid_value(value@) ==> valid_collection(c@)),
                Err(e) => collection_of_value(value@) == Err::<
                    FeatureCollectionView,
                    ParseErrorView,
                >(e@),
            },
    {
        let id = read_id(value);
        let label = match value.member("label") {
            Some(Value::StringValue(s)) => s.value.clone(),
            _ => {
                return Err(missing_field("label"));
            },
        };
        proof {
            if valid_value(value@) {
                lemma_field_valid(value@, "features"@);
            }
        }
        let features = match value.member("features") {
            Some(Value::ArrayValue(a)) => match parse_features(&a.value) {
                Ok(features) => features,
                Err(e) => {
                    return Err(e);
                },
            },
            _ => {
                let none: Vec<Feature> = Vec::new();
                assert(features_view(none@) =~= Seq::<FeatureView>::empty());
                none
            },
        };
        let properties = read_properties(value);
        Ok(FeatureCollection { id, label, features, properties })
    }

    /// The collection that the GeoJSON text `json` describes.
    pub fn from_json(json: &Json) -> (r: Result<FeatureCollection, ParseError>)
        ensures
            match r {
                Ok(c) => collection_of_text(json@) == Ok::<FeatureCollectionView, ParseErrorView>(
                    c@,
                ) && valid_collection(c@),
                Err(e) => collection_of_text(json@) == Err::<
                    FeatureCollectionView,
                    ParseErrorView,
                >(e@),
            },
    {
        match Value::parse(json.to_string_ref().as_str()) {
            Ok(value) => FeatureCollection::parse(&value),
            Err(e) => Err(e),
        }
    }

    /// The collection that a stored row describes.
    pub fn from_row(id: i64, label: String, properties: &str) -> (r: Result<
        FeatureCollection,
        ParseError,
    >)
        ensures
            match r {
                Ok(c) => collection_of_row(id, label@, properties@) == Ok::<
                    FeatureCollectionView,
                    ParseErrorView,
                >(c@) && valid_collection(c@),
                Err(e) => collection_of_row(id, label@, properties@) == Err::<
                    FeatureCollectionView,
                    ParseErrorView,
                >(e@),
            },
    {
        match parse_properties(properties) {
            Ok(properties) => {
                let features: Vec<Feature> = Vec::new();
                assert(features_view(features@) =~= Seq::<FeatureView>::empty());
                Ok(FeatureCollection { id: Id::IntId(IntId(id)), label, features, properties })
            },
            Err(e) => Err(e),
        }
    }
}

/// The text of a collection has a member `features` exactly where the
/// collection holds a feature.
pub proof fn lemma_features_member(c: FeatureCollectionView)
    ensures
        field(collection_value(c), "features"@) is Some <==> c.features.len() > 0,
        c.features.len() > 0 ==> field(collection_value(c), "features"@) == Some(
            ValueView::Array(feature_values(c.features)),
        ),
{
    reveal_strlit("features");
    reveal_strlit("type");
    reveal_strlit("id");
    reveal_strlit("label");
    reveal_strlit("properties");
    let members = collection_value(c)->Object_0;
    let name = "features"@;
    assert("type"@.len() == 4 && "id"@.len() == 2 && "label"@.len() == 5 && "properties"@.len()
        == 10 && name.len() == 8);
    let k = id_members(c.id).len() as int;
    assert(members[0].0 == "type"@);
    if k == 1 {
        assert(members[1].0 == "id"@);
    }
    assert(members[k + 1].0 == "label"@);
    assert(members[k + 2].0 == "properties"@);
    if c.features.len() > 0 {
        assert(members.len() == k + 4);
        assert(members[k + 3] == (name, ValueView::Array(feature_values(c.features))));
        assert(member_index_from(members, name, k + 3) == Some(k + 3));
        assert(member_index_from(members, name, k + 2) == Some(k + 3));
        assert(member_index_from(members, name, k + 1) == Some(k + 3));
        if k == 1 {
            assert(member_index_from(members, name, 1) == Some(k + 3));
        }
        assert(member_index_from(members, name, 0) == Some(k + 3));
    } else {
        assert(members.len() == k + 3);
        assert(member_index_from(members, name, k + 3) is None);
        assert(member_index_from(members, name, k + 2) is None);
        assert(member_index_from(members, name, k + 1) is None);
        if k == 1 {
            assert(member_index_from(members, name, 1) is None);
        }
        assert(member_index_from(members, name, 0) is None);
    }
}

/// A list of collections.
pub struct FeatureCollectionList(pub Vec<FeatureCollection>);

/// The GeoJSON values of `collections`, in order.
pub open spec fn collection_values(collections: Seq<FeatureCollection>) -> Seq<ValueView> {
    Seq::new(collections.len(), |i: int| collection_value(collections[i]@))
}

impl FeatureCollectionList {
    pub fn new(collections: Vec<FeatureCollection>) -> (r: Self)
        ensures
            r.0 == collections,
    {
        FeatureCollectionList(collections)
    }

    /// The JSON text of the list: the array of the collections' values.
    pub fn to_json(&self) -> (r: String)
        ensures
            r@ == json_text(ValueView::Array(collection_values(self.0@))),
    {
        proof {
            lemma_empty_views();
        }
        let mut items: Vec<Value> = Vec::new();
        let mut i: usize = 0;
        while i < self.0.len()
            invariant
                0 <= i <= self.0.len(),
                items_view(items@) == collection_values(self.0@).take(i as int),
            decreases self.0.len() - i,
        {
            push_item(&mut items, self.0[i].encode());
            assert(collection_values(self.0@).take(i + 1) =~= collection_values(self.0@).take(
                i as int,
            ).push(collection_value(self.0@[i as int]@)));
            i = i + 1;
        }
        assert(collection_values(self.0@).take(self.0.len() as int) =~= collection_values(
            self.0@,
        ));
        Value::array(items).to_geo_json()
    }
}

/// The features that the values of features describe are those features.
proof fn lemma_features_round_trip(features: Seq<FeatureView>, n: nat)
    requires
        n <= features.len(),
    ensures
        features_of_values(feature_values(features), n) == Ok::<Seq<FeatureView>, ParseErrorView>(
            features.take(n as int),
        ),
    decreases n,
{
    if n == 0 {
        assert(features.take(0) =~= Seq::<FeatureView>::empty());
    } else {
        lemma_features_round_trip(features, (n - 1) as nat);
        lemma_feature_round_trip(features[n - 1]);
        assert(features.take(n as int) =~= features.take(n - 1).push(features[n - 1]));
    }
}

/// A collection is read back from its GeoJSON value as it was.
pub proof fn lemma_collection_round_trip(c: FeatureCollectionView)
    ensures
        collection_of_value(collection_value(c)) == Ok::<FeatureCollectionView, ParseErrorView>(c),
{
    reveal_strlit("type");
    reveal_strlit("id");
    reveal_strlit("label");
    reveal_strlit("properties");
    reveal_strlit("features");
    let v = collection_value(c);
    let members = v->Object_0;
    let k = id_members(c.id).len() as int;
    assert("type"@.len() == 4 && "id"@.len() == 2 && "label"@.len() == 5 && "properties"@.len()
        == 10 && "features"@.len() == 8);
    assert(members[0].0 == "type"@);
    assert(members[k + 1] == ("label"@, ValueView::String(c.label)));
    assert(members[k + 2] == ("properties"@, ValueView::Object(c.properties)));
    let n = members.len() as int;
    if c.features.len() > 0 {
        assert(n == k + 4);
        assert(members[k + 3].0 == "features"@);
        assert(member_index_from(members, "id"@, k + 4) is None);
        assert(member_index_from(members, "id"@, k + 3) is None);
    } else {
        assert(n == k + 3);
        assert(member_index_from(members, "id"@, k + 3) is None);
    }
    assert(member_index_from(members, "id"@, k + 2) is None);
    assert(member_index_from(members, "id"@, k + 1) is None);
    if k == 1 {
        let number = NumberView::Integer(c.id->IntId_0.0 as int);
        assert(members[1] == ("id"@, ValueView::Number(number)));
        assert(member_index_from(members, "id"@, 1) == Some(1int));
        assert(member_index_from(members, "label"@, 1) == member_index_from(members, "label"@, 2));
        assert(member_index_from(members, "properties"@, 1) == member_index_from(
            members,
            "properties"@,
            2,
        ));
    }
    assert(member_index_from(members, "id"@, 0) == member_index_from(members, "id"@, 1));
    assert(member_index_from(members, "label"@, k + 1) == Some(k + 1));
    assert(member_index_from(members, "label"@, 0) == Some(k + 1));
    assert(member_index_from(members, "properties"@, k + 2) == Some(k + 2));
    assert(member_index_from(members, "properties"@, k + 1) == Some(k + 2));
    assert(member_index_from(members, "properties"@, 0) == Some(k + 2));
    lemma_features_member(c);
    lemma_features_round_trip(c.features, c.features.len());
    assert(c.features.take(c.features.len() as int) =~= c.features);
    assert(feature_values(c.features).len() == c.features.len());
    assert(id_of_value(v) == c.id);
    assert(properties_of_value(v) == c.properties);
    if c.features.len() == 0 {
        assert(c.features =~= Seq::<FeatureView>::empty());
    }
}

} // verus!
