//! A GeoJSON feature store's core: JSON-like values, geometries, features
//! and collections with their GeoJSON text, and a filter language that
//! compiles to SQL predicates with bound parameters.

pub mod bbox;
pub mod config;
pub mod decimal;
pub mod document;
pub mod feature;
pub mod feature_collection;
pub mod feature_service;
pub mod filter;
pub mod filter_data;
pub mod geo_entity;
pub mod geometry;
pub mod id;
pub mod injectivity;
pub mod json;
pub mod parser;
pub mod property;
pub mod query;
pub mod text;
pub mod value;
