//! Catalog resolution, markup extraction and snapshot-cache policy for a
//! serialized-publication reader, with every step stated and proved.
pub mod cache;
pub mod markup;
pub mod models;
pub mod pages;
pub mod resolve;
pub mod serie;
pub mod text;
