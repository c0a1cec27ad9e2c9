//! What the service decides once the store has answered.

use crate::feature::Feature;
use crate::feature_collection::{
    features_view, FeatureCollection, FeatureCollectionList, FeatureCollectionView,
};
use vstd::prelude::*;

verus! {

/// A failure of the store.
pub struct FeatureRepositoryError {
    pub message: String,
}

/// A failure of the service.
pub struct FeatureServiceError {
    pub message: String,
}

impl FeatureServiceError {
    pub fn new(message: String) -> (r: Self)
        ensures
            r.message == message,
    {
        FeatureServiceError { message }
    }
}

/// The number of rows that lie before page `page` of `size` rows each, if
/// it is a 64-bit signed integer.
pub fn offset(page: i64, size: i64) -> (r: Option<i64>)
    ensures
        r is Some <==> i64::MIN <= page * size <= i64::MAX,
        r matches Some(rows) ==> rows == page * size,
{
    assert(-0x4000_0000_0000_0000_0000_0000_0000_0000 <= page * size
        <= 0x4000_0000_0000_0000_0000_0000_0000_0000) by (nonlinear_arith)
        requires
            -0x8000_0000_0000_0000 <= page <= 0x7fff_ffff_ffff_ffff,
            -0x8000_0000_0000_0000 <= size <= 0x7fff_ffff_ffff_ffff,
    ;
    let rows: i128 = (page as i128) * (size as i128);
    if rows < -0x8000_0000_0000_0000 || rows > 0x7fff_ffff_ffff_ffff {
        None
    } else {
        Some(rows as i64)
    }
}

/// The collection with the features that the store found, or the store's
/// failure as the service's.
pub fn wrap_into_collection(
    collection: FeatureCollection,
    features_result: Result<Vec<Feature>, FeatureRepositoryError>,
) -> (r: Result<FeatureCollection, FeatureServiceError>)
    ensures
        match features_result {
            Ok(features) => r is Ok && r->Ok_0@ == (FeatureCollectionView {
                features: features_view(features@),
                ..collection@
            }),
            Err(err) => r is Err && r->Err_0.message == err.message,
        },
{
    match features_result {
        Ok(features) => {
            let mut collection = collection;
            collection.features = features;
            Ok(collection)
        },
        Err(err) => Err(FeatureServiceError { message: err.message }),
    }
}

/// The collection with the one feature that the store found, or the
/// store's failure as the service's.
pub fn wrap_feature_into_collection(
    collection: FeatureCollection,
    features_result: Result<Feature, FeatureRepositoryError>,
) -> (r: Result<FeatureCollection, FeatureServiceError>)
    ensures
        match features_result {
            Ok(feature) => r is Ok && r->Ok_0@ == (FeatureCollectionView {
                features: seq![feature@],
                ..collection@
            }),
            Err(err) => r is Err && r->Err_0.message == err.message,
        },
{
    match features_result {
        Ok(feature) => {
            let mut features: Vec<Feature> = Vec::new();
            features.push(feature);
            assert(features_view(features@) =~= seq![feature@]);
            let mut collection = collection;
            collection.features = features;
            Ok(collection)
        },
        Err(err) => Err(FeatureServiceError { message: err.message }),
    }
}

/// The list of the collections that the store found, or the store's
/// failure as the service's.
pub fn wrap_into_list(result: Result<Vec<FeatureCollection>, FeatureRepositoryError>) -> (r: Result<
    FeatureCollectionList,
    FeatureServiceError,
>)
    ensures
        match result {
            Ok(collections) => r is Ok && r->Ok_0.0 == collections,
            Err(err) => r is Err && r->Err_0.message == err.message,
        },
{
    match result {
        Ok(collections) => Ok(FeatureCollectionList(collections)),
        Err(err) => Err(FeatureServiceError { message: err.message }),
    }
}

} // verus!
