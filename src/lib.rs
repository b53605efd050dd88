//! Reconciles a remote photo album against a local photo index and shapes
//! the Hugo page bundles that mirror it.

pub mod album;
pub mod classify;
pub mod config;
pub mod datetime;
pub mod exif;
pub mod gallery;
pub mod geocode;
pub mod icloud;
pub mod index;
pub mod laws;
pub mod mock;
pub mod model;
pub mod process;
pub mod render;
pub mod sync;
pub mod syncer;
pub mod text;
