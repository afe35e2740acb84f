//! Error kinds of catalog construction, lookup and version resolution.
//!
//! Construction-time kinds (`IndexUnreadable`, `IndexMalformed`,
//! `CatalogIntegrity`) abort catalog availability entirely; the
//! lookup/resolution-time kinds are ordinary result values a caller
//! branches on.

use vstd::prelude::*;

verus! {

#[derive(Debug, Clone, PartialEq)]
pub enum CatalogError {
    /// The index document could not be opened or read.
    IndexUnreadable { detail: String },
    /// The index document does not match the expected schema shape;
    /// `detail` names the field path at fault, or carries the parse
    /// failure when the text is not structured data at all.
    IndexMalformed { detail: String },
    /// A structural invariant of the catalog is violated: a duplicate
    /// canonical key, a `latest_version` absent from `versions`, or an
    /// entry with no versions at all.
    CatalogIntegrity { detail: String },
    /// Lookup found no entry under the normalized key.
    UnknownBasisSet { name: String },
    /// The requested version is absent from the entry's versions.
    UnknownVersion { version: String },
    /// The resolved version lacks the named required elements.
    MissingElementCoverage { missing: Vec<String> },
}

} // verus!
