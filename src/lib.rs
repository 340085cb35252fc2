//! Content-addressed wallpaper ingestion: file classification, content
//! signatures, sidecar metadata, keyword derivation, catalog writing and
//! thumbnail scheduling, together with the text protocol of the wallpaper
//! daemon.

pub mod text;
pub mod dispatch;
pub mod models;
pub mod scan;
pub mod thumbnail;
pub mod catalog;
pub mod selection;
