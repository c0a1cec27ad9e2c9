//! Queries for single entities, and what they answer with once the store
//! has been asked.

use crate::feature::{Feature, FeatureView};
use crate::geo_entity::{EmptyResult, GeoEntity};
use vstd::prelude::*;

verus! {

/// The query for the feature with a given identifier.
pub struct GetSingle {
    pub feature_id: i64,
}

/// A query that asks for nothing.
pub struct InvalidQuery {}

pub enum Query {
    GetSingle(GetSingle),
    InvalidQuery(InvalidQuery),
}

/// The model of an answer.
pub enum AnswerView {
    Feature(FeatureView),
    Nothing,
}

/// Whether `entity` is the answer `answer`.
pub open spec fn is_answer(entity: GeoEntity, answer: AnswerView) -> bool {
    match answer {
        AnswerView::Feature(f) => entity matches GeoEntity::Feature(found) && found@ == f,
        AnswerView::Nothing => entity is EmptyResult,
    }
}

/// What the queries have in common. A query says which feature it needs
/// from the store, and turns what the store found into its answer.
pub trait QueryTrait {
    /// The identifier of the feature that the query needs, if it needs one.
    spec fn wanted(&self) -> Option<i64>;

    /// The identifier of the feature that the query needs, if it needs one.
    fn feature_id(&self) -> (r: Option<i64>)
        ensures
            r == self.wanted(),
    ;

    /// The answer, given the feature that the store found for
    /// `feature_id`: that feature where the query needs one and the store
    /// found it, nothing otherwise.
    fn execute(&self, found: Option<Feature>) -> (r: GeoEntity)
        ensures
            is_answer(
                r,
                match (self.wanted(), found) {
                    (Some(_), Some(f)) => AnswerView::Feature(f@),
                    _ => AnswerView::Nothing,
                },
            ),
    ;
}

impl GetSingle {
    pub fn new(feature_id: i64) -> (r: Self)
        ensures
            r.feature_id == feature_id,
    {
        GetSingle { feature_id }
    }
}

impl QueryTrait for GetSingle {
    open spec fn wanted(&self) -> Option<i64> {
        Some(self.feature_id)
    }

    fn feature_id(&self) -> (r: Option<i64>) {
        Some(self.feature_id)
    }

    fn execute(&self, found: Option<Feature>) -> (r: GeoEntity) {
        match found {
            Some(feature) => GeoEntity::Feature(feature),
            None => GeoEntity::EmptyResult(EmptyResult),
        }
    }
}

impl QueryTrait for InvalidQuery {
    open spec fn wanted(&self) -> Option<i64> {
        None
    }

    fn feature_id(&self) -> (r: Option<i64>) {
        None
    }

    fn execute(&self, found: Option<Feature>) -> (r: GeoEntity) {
        GeoEntity::EmptyResult(EmptyResult)
    }
}

impl QueryTrait for Query {
    open spec fn wanted(&self) -> Option<i64> {
        match self {
            Query::GetSingle(q) => q.wanted(),
            Query::InvalidQuery(q) => q.wanted(),
        }
    }

    fn feature_id(&self) -> (r: Option<i64>) {
        match self {
            Query::GetSingle(q) => q.feature_id(),
            Query::InvalidQuery(q) => q.feature_id(),
        }
    }

    fn execute(&self, found: Option<Feature>) -> (r: GeoEntity) {
        match self {
            Query::GetSingle(q) => q.execute(found),
            Query::InvalidQuery(q) => q.execute(found),
        }
    }
}

} // verus!
