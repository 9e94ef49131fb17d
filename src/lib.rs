//! Clipboard history core: content classification, at-rest encryption,
//! image normalisation, change detection and the query rules of the
//! history store.

pub mod text;
pub mod category;
pub mod vault;
pub mod image;
pub mod models;
pub mod query;
pub mod schema;
pub mod watcher;
