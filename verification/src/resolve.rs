//! Version resolution: picks one revision of an entry and validates its
//! element coverage.

use vstd::prelude::*;
use crate::errors::CatalogError;
use crate::model::{BasisSetEntry, VersionRecord, contains_string, seq_contains_str, views_of};

verus! {

/// The version identifier resolution targets: the requested one, or the
/// entry's `latest_version` when none was requested.
pub open spec fn target_key(entry: BasisSetEntry, requested: Option<&String>) -> Seq<char> {
    match requested {
        Some(v) => v@,
        None => entry.latest_version@,
    }
}

/// Whether `rec` covers every element named in `req`.
pub open spec fn covers(rec: VersionRecord, req: Seq<String>) -> bool {
    forall|i: int| 0 <= i < req.len() ==> seq_contains_str(rec.elements@, req[i]@)
}

/// The required elements that `rec` does not cover, in request order.
pub open spec fn missing_elements(rec: VersionRecord, req: Seq<String>) -> Seq<Seq<char>>
    decreases req.len(),
{
    if req.len() == 0 {
        Seq::<Seq<char>>::empty()
    } else {
        let rest = missing_elements(rec, req.drop_last());
        if seq_contains_str(rec.elements@, req.last()@) {
            rest
        } else {
            rest.push(req.last()@)
        }
    }
}

/// A version covers the whole requirement exactly when nothing is missing.
pub proof fn lemma_missing_empty_iff_covers(rec: VersionRecord, req: Seq<String>)
    ensures
        missing_elements(rec, req).len() == 0 <==> covers(rec, req),
    decreases req.len(),
{
    if req.len() == 0 {
    } else {
        let head = req.drop_last();
        lemma_missing_empty_iff_covers(rec, head);
        if seq_contains_str(rec.elements@, req.last()@) {
            assert(covers(rec, head) ==> covers(rec, req)) by {
                if covers(rec, head) {
                    assert forall|i: int|
                        0 <= i < req.len() implies seq_contains_str(rec.elements@, req[i]@) by {
                        if i < req.len() - 1 {
                            assert(head[i] == req[i]);
                        }
                    }
                }
            }
            assert(covers(rec, req) ==> covers(rec, head));
        } else {
            assert(!covers(rec, req));
            assert(missing_elements(rec, req).len() > 0);
        }
    }
}

/// Collects the required elements that `rec` does not cover.
fn missing_of(rec: &VersionRecord, req: &Vec<String>) -> (r: Vec<String>)
    ensures
        views_of(r@) == missing_elements(*rec, req@),
{
    let n = req.len();
    let mut missing: Vec<String> = Vec::new();
    let mut i: usize = 0;
    while i < n
        invariant
            i <= n,
            n == req@.len(),
            views_of(missing@) == missing_elements(*rec, req@.take(i as int)),
        decreases n - i,
    {
        proof {
            assert(req@.take(i + 1 as int).drop_last() =~= req@.take(i as int));
            assert(req@.take(i + 1 as int).last() == req@[i as int]);
        }
        let covered = contains_string(&rec.elements, &req[i]);
        if !covered {
            let s = req[i].clone();
            missing.push(s);
            proof {
                assert(views_of(missing@) =~= missing_elements(*rec, req@.take(i + 1 as int)));
            }
        } else {
            proof {
                assert(views_of(missing@) =~= missing_elements(*rec, req@.take(i + 1 as int)));
            }
        }
        i = i + 1;
    }
    proof {
        assert(req@.take(n as int) =~= req@);
    }
    missing
}

/// What a successful resolution returns: the record stored under the
/// target version identifier, and it covers every required element.
pub open spec fn resolution_ok(
    entry: BasisSetEntry,
    requested: Option<&String>,
    required: Option<&Vec<String>>,
    rec: VersionRecord,
) -> bool {
    let key = target_key(entry, requested);
    &&& entry.has_version(key)
    &&& rec == entry.version_at(key)
    &&& (match required {
        Some(req) => covers(rec, req@),
        None => true,
    })
}

/// When resolution fails, and with which error: an unknown requested
/// version, or a known version that misses required elements (the error
/// names exactly the uncovered ones, in request order).
pub open spec fn resolution_err(
    entry: BasisSetEntry,
    requested: Option<&String>,
    required: Option<&Vec<String>>,
    e: CatalogError,
) -> bool {
    let key = target_key(entry, requested);
    match e {
        CatalogError::UnknownVersion { version } => {
            &&& requested is Some
            &&& version@ == key
            &&& !entry.has_version(key)
        },
        CatalogError::MissingElementCoverage { missing } => {
            &&& entry.has_version(key)
            &&& required is Some
            &&& missing@.len() > 0
            &&& views_of(missing@) == missing_elements(entry.version_at(key), required->0@)
        },
        _ => false,
    }
}

/// Resolves one revision of `entry`: the requested version identifier, or
/// the entry's `latest_version` when none was requested, then validates
/// element coverage when a requirement was supplied. There is no fallback
/// across versions: insufficient coverage fails rather than silently
/// picking another revision.
pub fn resolve<'a>(
    entry: &'a BasisSetEntry,
    requested: Option<&String>,
    required: Option<&Vec<String>>,
) -> (r: Result<&'a VersionRecord, CatalogError>)
    requires
        entry.wf(),
    ensures
        match r {
            Ok(rec) => resolution_ok(*entry, requested, required, *rec),
            Err(e) => resolution_err(*entry, requested, required, e),
        },
{
    let rec: &VersionRecord = match requested {
        Some(v) => match entry.find_version(v) {
            Some(rec) => rec,
            None => {
                return Err(CatalogError::UnknownVersion { version: v.clone() });
            },
        },
        None => match entry.find_version(&entry.latest_version) {
            Some(rec) => rec,
            None => {
                // `wf` puts `latest_version` among the versions.
                proof {
                    assert(entry.has_version(entry.latest_version@));
                }
                vstd::pervasive::unreached()
            },
        },
    };
    match required {
        None => Ok(rec),
        Some(req) => {
            let missing = missing_of(rec, req);
            proof {
                lemma_missing_empty_iff_covers(*rec, req@);
            }
            if missing.len() == 0 {
                Ok(rec)
            } else {
                Err(CatalogError::MissingElementCoverage { missing })
            }
        },
    }
}

} // verus!
