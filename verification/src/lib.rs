//! Packaging of image files into token metadata for content-addressed storage.

pub mod actions;
pub mod batch;
pub mod decimal;
pub mod decode;
pub mod errors;
pub mod gateway;
pub mod json;
pub mod metadata;
pub mod mirror;
pub mod names;
pub mod paths;
pub mod roundtrip;
pub mod single;
pub mod stamp;
pub mod text;
