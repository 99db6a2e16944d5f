//! Edition generation engine: a catalog of layered image assets, random trait
//! selection within pick ranges, content fingerprints with a uniqueness
//! registry, a bounded retry controller, and ordered alpha compositing.

pub mod hashing;
pub mod compositor;
pub mod text;
pub mod config;
pub mod catalog;
pub mod selector;
pub mod fingerprint;
pub mod controller;
pub mod meta;
pub mod engine;
