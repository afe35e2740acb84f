//! The catalog's data model: basis-set entries and their version records.

use vstd::prelude::*;

verus! {

/// One historical revision of a basis set: where its numeric table lives,
/// its provenance, and the chemical elements it covers.
#[derive(Debug, Clone, PartialEq)]
pub struct VersionRecord {
    /// Path of the numeric table for this revision, relative to the
    /// entry's data directory. Opaque here; an external collaborator
    /// loads it.
    pub file_relpath: String,
    /// Human description of provenance or change.
    pub revdesc: String,
    /// Date string, ISO-like, not strictly validated.
    pub revdate: String,
    /// Element identifiers this revision covers, kept as strings to
    /// admit non-numeric or isotope-qualified labels.
    pub elements: Vec<String>,
}

/// An auxiliary association is heterogeneous in the wild: a single
/// related basis-set identifier or a list of them. The shape is resolved
/// once at parse time and never re-inspected.
#[derive(Debug, Clone, PartialEq)]
pub enum Auxiliary {
    Single(String),
    Many(Vec<String>),
}

/// One basis-set family, with all of its revisions.
#[derive(Debug, Clone, PartialEq)]
pub struct BasisSetEntry {
    pub display_name: String,
    /// Alias names; each is expected to normalize to the same canonical
    /// key as the raw catalog name (a build-time guarantee of the data).
    pub other_names: Vec<String>,
    pub description: String,
    /// Must name a key of `versions`; version identifiers are opaque
    /// strings, not assumed numeric or sortable.
    pub latest_version: String,
    pub tags: Vec<String>,
    pub basename: String,
    /// May be empty (the data-directory root).
    pub relpath: String,
    pub family: String,
    pub role: String,
    pub function_types: Vec<String>,
    /// Auxiliary role name to related basis-set identifier(s).
    pub auxiliaries: Vec<(String, Auxiliary)>,
    /// Version identifier to record; identifiers are pairwise distinct.
    pub versions: Vec<(String, VersionRecord)>,
}

/// Whether some string in `ss` has exactly the characters `x`.
pub open spec fn seq_contains_str(ss: Seq<String>, x: Seq<char>) -> bool {
    exists|i: int| 0 <= i < ss.len() && ss[i]@ == x
}

/// The characters of each string of `ss`, in order.
pub open spec fn views_of(ss: Seq<String>) -> Seq<Seq<char>> {
    ss.map_values(|s: String| s@)
}

/// Tests whether `v` holds a string with exactly the characters of `x`.
pub fn contains_string(v: &Vec<String>, x: &String) -> (r: bool)
    ensures
        r == seq_contains_str(v@, x@),
{
    let n = v.len();
    let mut i: usize = 0;
    while i < n
        invariant
            i <= n,
            n == v@.len(),
            forall|j: int| 0 <= j < i ==> v@[j]@ != x@,
        decreases n - i,
    {
        if v[i] == *x {
            return true;
        }
        i = i + 1;
    }
    false
}

impl BasisSetEntry {
    /// Whether `k` is a version identifier of this entry.
    pub open spec fn has_version(self, k: Seq<char>) -> bool {
        exists|i: int| 0 <= i < self.versions@.len() && self.versions@[i].0@ == k
    }

    /// The position of version identifier `k` among `versions`.
    pub open spec fn version_index(self, k: Seq<char>) -> int {
        choose|i: int| 0 <= i < self.versions@.len() && self.versions@[i].0@ == k
    }

    /// The record stored under version identifier `k`.
    pub open spec fn version_at(self, k: Seq<char>) -> VersionRecord {
        self.versions@[self.version_index(k)].1
    }

    /// Version identifiers are pairwise distinct.
    pub open spec fn versions_distinct(self) -> bool {
        forall|i: int, j: int|
            0 <= i < j < self.versions@.len() ==> self.versions@[i].0@ != self.versions@[j].0@
    }

    /// A well-formed entry: at least one version, pairwise-distinct
    /// version identifiers, and `latest_version` among them.
    pub open spec fn wf(self) -> bool {
        &&& self.versions@.len() > 0
        &&& self.versions_distinct()
        &&& self.has_version(self.latest_version@)
    }

    /// Looks up one version record by its exact identifier; no fuzzy or
    /// partial matching.
    pub fn find_version(&self, key: &String) -> (r: Option<&VersionRecord>)
        requires
            self.versions_distinct(),
        ensures
            match r {
                Some(rec) => self.has_version(key@) && *rec == self.version_at(key@),
                None => !self.has_version(key@),
            },
    {
        let n = self.versions.len();
        let mut i: usize = 0;
        while i < n
            invariant
                i <= n,
                n == self.versions@.len(),
                self.versions_distinct(),
                forall|j: int| 0 <= j < i ==> self.versions@[j].0@ != key@,
            decreases n - i,
        {
            if self.versions[i].0 == *key {
                proof {
                    assert(self.versions@[i as int].0@ == key@);
                    let w = self.version_index(key@);
                    assert(0 <= w < self.versions@.len() && self.versions@[w].0@ == key@);
                    assert(w == i as int);
                }
                return Some(&self.versions[i].1);
            }
            i = i + 1;
        }
        None
    }

    /// Tests well-formedness of this entry.
    pub fn check_wf(&self) -> (r: bool)
        ensures
            r == self.wf(),
    {
        let n = self.versions.len();
        if n == 0 {
            return false;
        }
        let mut i: usize = 0;
        while i < n
            invariant
                i <= n,
                n == self.versions@.len(),
                forall|p: int, q: int|
                    0 <= p < q < i ==> self.versions@[p].0@ != self.versions@[q].0@,
            decreases n - i,
        {
            let mut j: usize = 0;
            while j < i
                invariant
                    j <= i < n,
                    n == self.versions@.len(),
                    forall|q: int| 0 <= q < j ==> self.versions@[q].0@ != self.versions@[i as int].0@,
                decreases i - j,
            {
                if self.versions[j].0 == self.versions[i].0 {
                    proof {
                        assert(self.versions@[j as int].0@ == self.versions@[i as int].0@);
                        assert(!self.versions_distinct());
                    }
                    return false;
                }
                j = j + 1;
            }
            i = i + 1;
        }
        match self.find_version(&self.latest_version) {
            Some(_) => true,
            None => false,
        }
    }
}

} // verus!
