//! Catalog and resolver for quantum-chemistry basis-set metadata.
//!
//! A human-entered basis-set name is normalized to a canonical,
//! filesystem-safe key; the key indexes a catalog of entries parsed from a
//! JSON index document; a version resolver picks one revision of an entry
//! and validates its element coverage.

pub mod catalog;
pub mod errors;
pub mod index;
pub mod model;
pub mod normalize;
pub mod resolve;
