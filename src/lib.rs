//! Derivative generation and caching for photo albums: cache path
//! derivation, image classification, RAW preview selection, metadata
//! flattening and the progress protocol of an album load.

pub mod album;
pub mod cache;
pub mod classify;
pub mod error;
pub mod fingerprint;
pub mod metadata;
pub mod raw;
pub mod text;
pub mod thumbnail;
