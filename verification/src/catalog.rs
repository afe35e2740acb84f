//! The in-memory catalog: canonical key to basis-set entry.
//!
//! Built once from the raw pairs of an index document, checked against
//! the catalog's structural invariants, and read-only thereafter.

use vstd::prelude::*;
use crate::errors::CatalogError;
use crate::model::{BasisSetEntry, VersionRecord};
use crate::normalize::{lemma_normalize_idempotent, normalize, normalize_spec};
use crate::resolve::{resolution_err, resolution_ok, resolve};

verus! {

/// A raw index document as plain pairs: raw basis-set name to entry.
/// Well-formed when no two raw names collide after normalization and
/// every entry is itself well-formed.
pub open spec fn document_wf(pairs: Seq<(String, BasisSetEntry)>) -> bool {
    &&& (forall|i: int, j: int|
        0 <= i < j < pairs.len() ==> normalize_spec(pairs[i].0@) != normalize_spec(pairs[j].0@))
    &&& (forall|i: int| 0 <= i < pairs.len() ==> pairs[i].1.wf())
}

/// Two raw names that normalize to the same key make a document ill-formed.
pub proof fn lemma_collision_breaks_document(
    pairs: Seq<(String, BasisSetEntry)>,
    i: int,
    j: int,
)
    requires
        0 <= i < j < pairs.len(),
        normalize_spec(pairs[i].0@) == normalize_spec(pairs[j].0@),
    ensures
        !document_wf(pairs),
{
}

/// The catalog of basis-set entries, keyed by the canonical form of their
/// raw index names.
pub struct MetadataCatalog {
    /// The canonical key of each entry, parallel to `pairs`; pairwise
    /// distinct and each already in canonical form.
    pub keys: Vec<String>,
    /// Raw index name and entry, in document order.
    pub pairs: Vec<(String, BasisSetEntry)>,
}

impl MetadataCatalog {
    /// The catalog's structural invariants, established by `build` and
    /// preserved by the read-only interface.
    pub open spec fn wf(self) -> bool {
        &&& self.keys@.len() == self.pairs@.len()
        &&& (forall|i: int|
            0 <= i < self.keys@.len() ==> self.keys@[i]@ == normalize_spec(self.pairs@[i].0@))
        &&& (forall|i: int, j: int|
            0 <= i < j < self.keys@.len() ==> self.keys@[i]@ != self.keys@[j]@)
        &&& (forall|i: int| 0 <= i < self.pairs@.len() ==> self.pairs@[i].1.wf())
    }

    /// How many entries the catalog holds.
    pub open spec fn spec_len(self) -> nat {
        self.pairs@.len()
    }

    /// Whether some entry is stored under canonical key `k`.
    pub open spec fn has_key(self, k: Seq<char>) -> bool {
        exists|i: int| 0 <= i < self.keys@.len() && self.keys@[i]@ == k
    }

    /// The position of the entry stored under canonical key `k`.
    pub open spec fn key_index(self, k: Seq<char>) -> int {
        choose|i: int| 0 <= i < self.keys@.len() && self.keys@[i]@ == k
    }

    /// The entry stored under canonical key `k`.
    pub open spec fn entry_for(self, k: Seq<char>) -> BasisSetEntry {
        self.pairs@[self.key_index(k)].1
    }

    /// Builds the catalog from the raw pairs of an index document,
    /// normalizing each raw name. Construction fails fast on the first
    /// structural-invariant violation — a duplicate canonical key or an
    /// ill-formed entry — and never yields a partial catalog.
    pub fn build(pairs: Vec<(String, BasisSetEntry)>) -> (r: Result<MetadataCatalog, CatalogError>)
        ensures
            match r {
                Ok(c) => {
                    &&& document_wf(pairs@)
                    &&& c.wf()
                    &&& c.pairs@ == pairs@
                    &&& (forall|i: int|
                        0 <= i < pairs@.len() ==> c.keys@[i]@ == normalize_spec(pairs@[i].0@))
                },
                Err(e) => !document_wf(pairs@) && e is CatalogIntegrity,
            },
    {
        let n = pairs.len();
        let mut keys: Vec<String> = Vec::new();
        let mut i: usize = 0;
        while i < n
            invariant
                i <= n,
                n == pairs@.len(),
                keys@.len() == i,
                forall|j: int| 0 <= j < i ==> keys@[j]@ == normalize_spec(pairs@[j].0@),
                forall|p: int, q: int| 0 <= p < q < i ==> keys@[p]@ != keys@[q]@,
                forall|j: int| 0 <= j < i ==> pairs@[j].1.wf(),
            decreases n - i,
        {
            let key = normalize(pairs[i].0.as_str());
            let mut j: usize = 0;
            while j < i
                invariant
                    j <= i < n,
                    n == pairs@.len(),
                    keys@.len() == i,
                    key@ == normalize_spec(pairs@[i as int].0@),
                    forall|q: int| 0 <= q < i ==> keys@[q]@ == normalize_spec(pairs@[q].0@),
                    forall|q: int| 0 <= q < j ==> keys@[q]@ != key@,
                decreases i - j,
            {
                if keys[j] == key {
                    proof {
                        assert(normalize_spec(pairs@[j as int].0@) == normalize_spec(
                            pairs@[i as int].0@,
                        ));
                        lemma_collision_breaks_document(pairs@, j as int, i as int);
                    }
                    return Err(CatalogError::CatalogIntegrity { detail: key });
                }
                j = j + 1;
            }
            if !pairs[i].1.check_wf() {
                proof {
                    assert(!pairs@[i as int].1.wf());
                }
                let detail = pairs[i].0.clone();
                return Err(CatalogError::CatalogIntegrity { detail });
            }
            keys.push(key);
            i = i + 1;
        }
        proof {
            assert forall|p: int, q: int|
                0 <= p < q < pairs@.len() implies normalize_spec(pairs@[p].0@) != normalize_spec(
                pairs@[q].0@,
            ) by {
                assert(keys@[p]@ == normalize_spec(pairs@[p].0@));
                assert(keys@[q]@ == normalize_spec(pairs@[q].0@));
                assert(keys@[p]@ != keys@[q]@);
            }
        }
        Ok(MetadataCatalog { keys, pairs })
    }

    /// Normalizes `name` and returns the entry under the resulting
    /// canonical key, if any; an unknown name is an ordinary `None`, not
    /// an error.
    pub fn lookup<'a>(&'a self, name: &str) -> (r: Option<&'a BasisSetEntry>)
        requires
            self.wf(),
        ensures
            match r {
                Some(e) => self.has_key(normalize_spec(name@)) && *e == self.entry_for(
                    normalize_spec(name@),
                ),
                None => !self.has_key(normalize_spec(name@)),
            },
    {
        let key = normalize(name);
        let n = self.keys.len();
        let mut i: usize = 0;
        while i < n
            invariant
                i <= n,
                self.wf(),
                n == self.keys@.len(),
                key@ == normalize_spec(name@),
                forall|j: int| 0 <= j < i ==> self.keys@[j]@ != key@,
            decreases n - i,
        {
            if self.keys[i] == key {
                proof {
                    let w = self.key_index(key@);
                    assert(0 <= w < self.keys@.len() && self.keys@[w]@ == key@);
                    assert(w == i as int);
                }
                return Some(&self.pairs[i].1);
            }
            i = i + 1;
        }
        None
    }

    /// Every stored entry, in document order; the listing is finite and
    /// restartable.
    pub fn all_entries<'a>(&'a self) -> (r: Vec<&'a BasisSetEntry>)
        ensures
            r@.len() == self.spec_len(),
            forall|i: int| 0 <= i < r@.len() ==> *r@[i] == self.pairs@[i].1,
    {
        let n = self.pairs.len();
        let mut out: Vec<&'a BasisSetEntry> = Vec::new();
        let mut i: usize = 0;
        while i < n
            invariant
                i <= n,
                n == self.pairs@.len(),
                out@.len() == i,
                forall|j: int| 0 <= j < i ==> *out@[j] == self.pairs@[j].1,
            decreases n - i,
        {
            out.push(&self.pairs[i].1);
            i = i + 1;
        }
        out
    }

    /// Looks `name` up and resolves a version of the entry found, in one
    /// step: the sole host-facing resolution surface.
    pub fn resolve_name<'a>(
        &'a self,
        name: &str,
        requested: Option<&String>,
        required: Option<&Vec<String>>,
    ) -> (r: Result<&'a VersionRecord, CatalogError>)
        requires
            self.wf(),
        ensures
            ({
                let k = normalize_spec(name@);
                match r {
                    Ok(rec) => self.has_key(k) && resolution_ok(
                        self.entry_for(k),
                        requested,
                        required,
                        *rec,
                    ),
                    Err(e) => match e {
                        CatalogError::UnknownBasisSet { name: raw } => !self.has_key(k) && raw@
                            == name@,
                        _ => self.has_key(k) && resolution_err(
                            self.entry_for(k),
                            requested,
                            required,
                            e,
                        ),
                    },
                }
            }),
    {
        match self.lookup(name) {
            None => Err(
                CatalogError::UnknownBasisSet { name: String::from_str(name) },
            ),
            Some(entry) => resolve(entry, requested, required),
        }
    }
}

/// Every entry of a well-formed catalog whose raw index name is ASCII —
/// all names in the data — is retrievable again through its own
/// canonical key: normalizing that key leaves it unchanged, and it
/// indexes exactly the entry it was stored with. Beyond ASCII the
/// Unicode case mapping is only named, so a second normalization of a
/// key cannot be pinned.
pub proof fn lemma_entries_retrievable(c: MetadataCatalog, i: int)
    requires
        c.wf(),
        0 <= i < c.spec_len(),
        vstd::utf8::is_ascii_chars(c.pairs@[i].0@),
    ensures
        c.has_key(normalize_spec(c.keys@[i]@)),
        c.entry_for(normalize_spec(c.keys@[i]@)) == c.pairs@[i].1,
{
    lemma_normalize_idempotent(c.pairs@[i].0@);
    assert(normalize_spec(c.keys@[i]@) == c.keys@[i]@);
    assert(c.has_key(c.keys@[i]@));
    let w = c.key_index(c.keys@[i]@);
    assert(0 <= w < c.keys@.len() && c.keys@[w]@ == c.keys@[i]@);
    assert(w == i);
}

/// Lookup is insensitive to the raw spelling of a name: two names with
/// the same canonical key find the same entry, or none at all.
pub proof fn lemma_lookup_case_insensitive(c: MetadataCatalog, a: Seq<char>, b: Seq<char>)
    requires
        normalize_spec(a) == normalize_spec(b),
    ensures
        c.has_key(normalize_spec(a)) == c.has_key(normalize_spec(b)),
        c.has_key(normalize_spec(a)) ==> c.entry_for(normalize_spec(a)) == c.entry_for(
            normalize_spec(b),
        ),
{
}

} // verus!
