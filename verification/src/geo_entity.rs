//! What a query may answer with: a feature, a collection, or nothing.

use crate::feature::{feature_value, Feature};
use crate::feature_collection::{collection_value, FeatureCollection};
use crate::value::json_text;
use vstd::prelude::*;

verus! {

/// The answer that holds nothing.
pub struct EmptyResult;

pub enum GeoEntity {
    Feature(Feature),
    FeatureCollection(FeatureCollection),
    EmptyResult(EmptyResult),
}

/// What the answers have in common.
pub trait GeoEntityTrait {
    /// The GeoJSON text that `to_geo_json` writes.
    spec fn geo_json(&self) -> Seq<char>;

    /// Writes the answer as GeoJSON text.
    fn to_geo_json(&self) -> (r: String)
        ensures
            r@ == self.geo_json(),
    ;
}

impl GeoEntityTrait for Feature {
    open spec fn geo_json(&self) -> Seq<char> {
        json_text(feature_value(self@))
    }

    fn to_geo_json(&self) -> (r: String) {
        Feature::to_geo_json(self)
    }
}

impl GeoEntityTrait for FeatureCollection {
    open spec fn geo_json(&self) -> Seq<char> {
        json_text(collection_value(self@))
    }

    fn to_geo_json(&self) -> (r: String) {
        FeatureCollection::to_geo_json(self)
    }
}

impl GeoEntityTrait for EmptyResult {
    open spec fn geo_json(&self) -> Seq<char> {
        Seq::empty()
    }

    fn to_geo_json(&self) -> (r: String) {
        String::new()
    }
}

impl GeoEntityTrait for GeoEntity {
    open spec fn geo_json(&self) -> Seq<char> {
        match self {
            GeoEntity::Feature(f) => json_text(feature_value(f@)),
            GeoEntity::FeatureCollection(c) => json_text(collection_value(c@)),
            GeoEntity::EmptyResult(_) => Seq::empty(),
        }
    }

    fn to_geo_json(&self) -> (r: String) {
        match self {
            GeoEntity::Feature(f) => Feature::to_geo_json(f),
            GeoEntity::FeatureCollection(c) => FeatureCollection::to_geo_json(c),
            GeoEntity::EmptyResult(e) => e.to_geo_json(),
        }
    }
}

} // verus!
