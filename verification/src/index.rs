//! Reading a catalog out of its JSON index document.
//!
//! The index document holds one top-level mapping field, `basis_sets`,
//! from raw basis-set name to entry. serde_json parses the text; the
//! parsed tree is copied at the boundary into the library's own
//! [`JsonValue`], and whether the text parses, and to which tree, are
//! named (`wf_json`, `json_tree_of`) so the whole load path can be
//! specified against the text. Everything after the parse — checking the
//! shape of every field, assembling the typed entries, and the
//! structural checks of catalog construction — is verified logic of this
//! crate. A malformed document fails the whole load; no partial catalog
//! is ever handed out.

use vstd::prelude::*;
use vstd::view::DeepView;
use crate::catalog::{document_wf, MetadataCatalog};
use crate::errors::CatalogError;
use crate::model::{Auxiliary, BasisSetEntry, VersionRecord};
use crate::normalize::normalize_spec;

verus! {

#[verifier::external_type_specification]
#[verifier::external_body]
pub struct ExValue(serde_json::Value);

#[verifier::external_type_specification]
#[verifier::external_body]
pub struct ExNumber(serde_json::Number);

#[verifier::external_type_specification]
#[verifier::external_body]
pub struct ExJsonError(serde_json::Error);

/// A JSON document as a value of the library's own, so that verified
/// code can inspect every part of it. Object pairs keep the order the
/// parser hands out (sorted by key).
#[derive(Debug, PartialEq)]
pub enum JsonValue {
    Null,
    Bool(bool),
    /// The numeric payload is kept opaque: no field of the index schema
    /// is numeric, so a number only ever fails a shape check.
    Num(serde_json::Number),
    Str(String),
    Arr(Vec<JsonValue>),
    Obj(Vec<(String, JsonValue)>),
}

/// Whether a text parses as JSON: a function of the text alone, too wide
/// to write out, so it is named and never interpreted.
pub uninterp spec fn wf_json(s: Seq<char>) -> bool;

/// The tree a well-formed JSON text parses to: a function of the text
/// alone (the parser's object map is sorted, so even pair order is
/// determined); named and never interpreted.
pub uninterp spec fn json_tree_of(s: Seq<char>) -> JsonValue;

/// Relies on serde_json::Value's variants, `Map::iter` and the clones of
/// its contents: copies the parsed tree into the library's own JSON
/// type, one arm per variant.
#[verifier::external_body]
fn tree_of_value(v: &serde_json::Value) -> JsonValue {
    match v {
        serde_json::Value::Null => JsonValue::Null,
        serde_json::Value::Bool(b) => JsonValue::Bool(*b),
        serde_json::Value::Number(n) => JsonValue::Num(n.clone()),
        serde_json::Value::String(s) => JsonValue::Str(s.clone()),
        serde_json::Value::Array(items) => JsonValue::Arr(items.iter().map(tree_of_value).collect()),
        serde_json::Value::Object(m) => JsonValue::Obj(
            m.iter().map(|(k, x)| (k.clone(), tree_of_value(x))).collect(),
        ),
    }
}

/// Relies on `serde_json::from_str`: whether JSON text parses, and the
/// tree it parses to, depend on the text alone, here named `wf_json` and
/// `json_tree_of`.
#[verifier::external_body]
fn parse_json(text: &str) -> (r: Result<JsonValue, serde_json::Error>)
    ensures
        r is Ok <==> wf_json(text@),
        r is Ok ==> r->Ok_0 == json_tree_of(text@),
{
    match serde_json::from_str::<serde_json::Value>(text) {
        Ok(v) => Ok(tree_of_value(&v)),
        Err(e) => Err(e),
    }
}

/// Relies on the `Display` impl of `serde_json::Error`: renders the
/// parse failure as text.
#[verifier::external_body]
fn json_error_message(e: &serde_json::Error) -> String {
    e.to_string()
}

/// The value under the first occurrence of `name` among an object's
/// pairs, if any.
pub open spec fn field_of(fields: Seq<(String, JsonValue)>, name: Seq<char>) -> Option<JsonValue>
    decreases fields.len(),
{
    if fields.len() == 0 {
        None
    } else if fields[0].0@ == name {
        Some(fields[0].1)
    } else {
        field_of(fields.drop_first(), name)
    }
}

proof fn lemma_field_of_skip(fields: Seq<(String, JsonValue)>, name: Seq<char>, i: int)
    requires
        0 <= i <= fields.len(),
        forall|j: int| 0 <= j < i ==> fields[j].0@ != name,
    ensures
        field_of(fields, name) == field_of(fields.skip(i), name),
    decreases i,
{
    if i == 0 {
        assert(fields.skip(0) =~= fields);
    } else {
        assert(fields[0].0@ != name);
        lemma_field_of_skip(fields.drop_first(), name, i - 1);
        assert(fields.drop_first().skip(i - 1) =~= fields.skip(i));
    }
}

/// Whether every item of a JSON array is a string.
pub open spec fn string_items(items: Seq<JsonValue>) -> bool {
    forall|j: int| 0 <= j < items.len() ==> (#[trigger] items[j]) is Str
}

/// The characters of each string item, in order.
pub open spec fn string_views(items: Seq<JsonValue>) -> Seq<Seq<char>> {
    items.map_values(|x: JsonValue| x->Str_0@)
}

/// Whether the object holds a string under `name`.
pub open spec fn string_field_ok(fields: Seq<(String, JsonValue)>, name: Seq<char>) -> bool {
    match field_of(fields, name) {
        Some(v) => v is Str,
        None => false,
    }
}

/// The characters of the string stored under `name`.
pub open spec fn string_field_view(fields: Seq<(String, JsonValue)>, name: Seq<char>) -> Seq<
    char,
> {
    field_of(fields, name)->0->Str_0@
}

/// Whether the object holds an array of strings under `name`.
pub open spec fn list_field_ok(fields: Seq<(String, JsonValue)>, name: Seq<char>) -> bool {
    match field_of(fields, name) {
        Some(v) => v is Arr && string_items(v->Arr_0@),
        None => false,
    }
}

/// The string list stored under `name`, as characters.
pub open spec fn list_field_views(fields: Seq<(String, JsonValue)>, name: Seq<char>) -> Seq<
    Seq<char>,
> {
    string_views(field_of(fields, name)->0->Arr_0@)
}

/// A legal auxiliary value: one identifier, or a list of identifiers.
pub open spec fn aux_ok(v: JsonValue) -> bool {
    v is Str || (v is Arr && string_items(v->Arr_0@))
}

/// A parsed auxiliary holds exactly what its JSON value held: `Single`
/// for a string, `Many` for a list, losslessly.
pub open spec fn aux_matches(a: Auxiliary, v: JsonValue) -> bool {
    match a {
        Auxiliary::Single(s) => v is Str && s@ == v->Str_0@,
        Auxiliary::Many(ss) => v is Arr && string_items(v->Arr_0@) && ss.deep_view()
            == string_views(v->Arr_0@),
    }
}

/// Parsed auxiliaries correspond pairwise to an object's pairs.
pub open spec fn aux_list_match(
    out: Seq<(String, Auxiliary)>,
    pairs: Seq<(String, JsonValue)>,
) -> bool {
    &&& out.len() == pairs.len()
    &&& (forall|j: int|
        0 <= j < pairs.len() ==> (#[trigger] out[j]).0@ == pairs[j].0@ && aux_matches(
            out[j].1,
            pairs[j].1,
        ))
}

/// A well-shaped version record: an object with its three strings and
/// its element list.
pub open spec fn version_ok(v: JsonValue) -> bool {
    &&& v is Obj
    &&& string_field_ok(v->Obj_0@, "file_relpath"@)
    &&& string_field_ok(v->Obj_0@, "revdesc"@)
    &&& string_field_ok(v->Obj_0@, "revdate"@)
    &&& list_field_ok(v->Obj_0@, "elements"@)
}

/// A parsed version record holds exactly the fields of its JSON object.
pub open spec fn version_matches(rec: VersionRecord, v: JsonValue) -> bool {
    &&& rec.file_relpath@ == string_field_view(v->Obj_0@, "file_relpath"@)
    &&& rec.revdesc@ == string_field_view(v->Obj_0@, "revdesc"@)
    &&& rec.revdate@ == string_field_view(v->Obj_0@, "revdate"@)
    &&& rec.elements.deep_view() == list_field_views(v->Obj_0@, "elements"@)
}

/// Parsed versions correspond pairwise to the `versions` object's pairs.
pub open spec fn versions_match(
    out: Seq<(String, VersionRecord)>,
    pairs: Seq<(String, JsonValue)>,
) -> bool {
    &&& out.len() == pairs.len()
    &&& (forall|j: int|
        0 <= j < pairs.len() ==> (#[trigger] out[j]).0@ == pairs[j].0@ && version_matches(
            out[j].1,
            pairs[j].1,
        ))
}

/// A well-shaped entry: an object with every field of the schema present
/// and of the right shape.
pub open spec fn entry_ok(v: JsonValue) -> bool {
    &&& v is Obj
    &&& string_field_ok(v->Obj_0@, "display_name"@)
    &&& list_field_ok(v->Obj_0@, "other_names"@)
    &&& string_field_ok(v->Obj_0@, "description"@)
    &&& string_field_ok(v->Obj_0@, "latest_version"@)
    &&& list_field_ok(v->Obj_0@, "tags"@)
    &&& string_field_ok(v->Obj_0@, "basename"@)
    &&& string_field_ok(v->Obj_0@, "relpath"@)
    &&& string_field_ok(v->Obj_0@, "family"@)
    &&& string_field_ok(v->Obj_0@, "role"@)
    &&& list_field_ok(v->Obj_0@, "function_types"@)
    &&& (match field_of(v->Obj_0@, "auxiliaries"@) {
        Some(av) => av is Obj && (forall|j: int|
            0 <= j < av->Obj_0@.len() ==> aux_ok((#[trigger] av->Obj_0@[j]).1)),
        None => false,
    })
    &&& (match field_of(v->Obj_0@, "versions"@) {
        Some(vv) => vv is Obj && (forall|j: int|
            0 <= j < vv->Obj_0@.len() ==> version_ok((#[trigger] vv->Obj_0@[j]).1)),
        None => false,
    })
}

/// A parsed entry holds exactly the fields of its JSON object — every
/// field preserved, the heterogeneous auxiliaries resolved losslessly.
pub open spec fn entry_matches(e: BasisSetEntry, v: JsonValue) -> bool {
    &&& e.display_name@ == string_field_view(v->Obj_0@, "display_name"@)
    &&& e.other_names.deep_view() == list_field_views(v->Obj_0@, "other_names"@)
    &&& e.description@ == string_field_view(v->Obj_0@, "description"@)
    &&& e.latest_version@ == string_field_view(v->Obj_0@, "latest_version"@)
    &&& e.tags.deep_view() == list_field_views(v->Obj_0@, "tags"@)
    &&& e.basename@ == string_field_view(v->Obj_0@, "basename"@)
    &&& e.relpath@ == string_field_view(v->Obj_0@, "relpath"@)
    &&& e.family@ == string_field_view(v->Obj_0@, "family"@)
    &&& e.role@ == string_field_view(v->Obj_0@, "role"@)
    &&& e.function_types.deep_view() == list_field_views(v->Obj_0@, "function_types"@)
    &&& aux_list_match(e.auxiliaries@, field_of(v->Obj_0@, "auxiliaries"@)->0->Obj_0@)
    &&& versions_match(e.versions@, field_of(v->Obj_0@, "versions"@)->0->Obj_0@)
}

/// The version pairs of an entry's JSON object.
pub open spec fn entry_versions(v: JsonValue) -> Seq<(String, JsonValue)> {
    field_of(v->Obj_0@, "versions"@)->0->Obj_0@
}

/// The entry's structural invariants, read off its JSON object: at least
/// one version, pairwise-distinct identifiers, `latest_version` among
/// them.
pub open spec fn entry_wf_tree(v: JsonValue) -> bool {
    let vs = entry_versions(v);
    &&& vs.len() > 0
    &&& (forall|i: int, j: int| 0 <= i < j < vs.len() ==> vs[i].0@ != vs[j].0@)
    &&& (exists|i: int|
        0 <= i < vs.len() && (#[trigger] vs[i]).0@ == string_field_view(
            v->Obj_0@,
            "latest_version"@,
        ))
}

/// The raw-name/entry pairs of the document's `basis_sets` mapping.
pub open spec fn doc_sets(tree: JsonValue) -> Seq<(String, JsonValue)> {
    field_of(tree->Obj_0@, "basis_sets"@)->0->Obj_0@
}

/// A well-shaped index document: a top-level object whose `basis_sets`
/// field maps names to well-shaped entries.
pub open spec fn doc_shape_ok(tree: JsonValue) -> bool {
    &&& tree is Obj
    &&& (match field_of(tree->Obj_0@, "basis_sets"@) {
        Some(b) => b is Obj && (forall|i: int|
            0 <= i < b->Obj_0@.len() ==> entry_ok((#[trigger] b->Obj_0@[i]).1)),
        None => false,
    })
}

/// The catalog's structural invariants, read off the document tree: no
/// two raw names collide after normalization, every entry well-formed.
pub open spec fn doc_wf_tree(tree: JsonValue) -> bool {
    let sets = doc_sets(tree);
    &&& (forall|i: int, j: int|
        0 <= i < j < sets.len() ==> normalize_spec(sets[i].0@) != normalize_spec(sets[j].0@))
    &&& (forall|i: int| 0 <= i < sets.len() ==> entry_wf_tree((#[trigger] sets[i]).1))
}

/// A loaded catalog holds exactly the document's entries: pair for pair,
/// raw name and all fields preserved, nothing dropped and nothing added.
pub open spec fn catalog_matches_doc(c: MetadataCatalog, tree: JsonValue) -> bool {
    let sets = doc_sets(tree);
    &&& c.pairs@.len() == sets.len()
    &&& (forall|i: int|
        0 <= i < sets.len() ==> (#[trigger] c.pairs@[i]).0@ == sets[i].0@ && entry_matches(
            c.pairs@[i].1,
            sets[i].1,
        ))
}

/// A parsed entry satisfies the model's invariants exactly when its JSON
/// object does.
proof fn lemma_entry_wf_bridge(e: BasisSetEntry, v: JsonValue)
    requires
        entry_ok(v),
        entry_matches(e, v),
    ensures
        e.wf() == entry_wf_tree(v),
{
    let vs = entry_versions(v);
    assert(versions_match(e.versions@, vs));
    assert(e.versions@.len() == vs.len());
    assert(e.latest_version@ == string_field_view(v->Obj_0@, "latest_version"@));
    if e.wf() {
        assert forall|i: int, j: int| 0 <= i < j < vs.len() implies vs[i].0@ != vs[j].0@ by {
            assert(e.versions@[i].0@ == vs[i].0@);
            assert(e.versions@[j].0@ == vs[j].0@);
        }
        let w = choose|w: int|
            0 <= w < e.versions@.len() && e.versions@[w].0@ == e.latest_version@;
        assert(vs[w].0@ == string_field_view(v->Obj_0@, "latest_version"@));
        assert(entry_wf_tree(v));
    }
    if entry_wf_tree(v) {
        assert forall|i: int, j: int|
            0 <= i < j < e.versions@.len() implies e.versions@[i].0@ != e.versions@[j].0@ by {
            assert(e.versions@[i].0@ == vs[i].0@);
            assert(e.versions@[j].0@ == vs[j].0@);
        }
        let w = choose|w: int|
            0 <= w < vs.len() && vs[w].0@ == string_field_view(v->Obj_0@, "latest_version"@);
        assert(e.versions@[w].0@ == e.latest_version@);
        assert(e.has_version(e.latest_version@));
        assert(e.wf());
    }
}

/// Joins a field name onto the path of its parent, for error reports.
fn field_path(ctx: &str, name: &str) -> (r: String)
    ensures
        r@ == ctx@ + "."@ + name@,
{
    let mut p = String::from_str(ctx);
    p.append(".");
    p.append(name);
    p
}

/// The value stored under the first occurrence of `name`, if any.
fn get_field<'a>(fields: &'a Vec<(String, JsonValue)>, name: &String) -> (r: Option<
    &'a JsonValue,
>)
    ensures
        match r {
            Some(v) => field_of(fields@, name@) == Some(*v),
            None => field_of(fields@, name@) is None,
        },
{
    let n = fields.len();
    let mut i: usize = 0;
    while i < n
        invariant
            i <= n,
            n == fields@.len(),
            forall|j: int| 0 <= j < i ==> fields@[j].0@ != name@,
        decreases n - i,
    {
        if fields[i].0 == *name {
            proof {
                lemma_field_of_skip(fields@, name@, i as int);
                assert(fields@.skip(i as int)[0] == fields@[i as int]);
            }
            return Some(&fields[i].1);
        }
        i = i + 1;
    }
    proof {
        lemma_field_of_skip(fields@, name@, n as int);
        assert(fields@.skip(n as int) =~= Seq::<(String, JsonValue)>::empty());
    }
    None
}

/// The string stored under `name`, or `IndexMalformed` naming the field
/// that is absent or of the wrong shape.
fn expect_string_field(
    fields: &Vec<(String, JsonValue)>,
    name: &str,
    ctx: &str,
) -> (r: Result<String, CatalogError>)
    ensures
        r is Ok <==> string_field_ok(fields@, name@),
        r is Ok ==> r->Ok_0@ == string_field_view(fields@, name@),
        r is Err ==> r->Err_0 is IndexMalformed,
{
    let key = String::from_str(name);
    match get_field(fields, &key) {
        None => Err(CatalogError::IndexMalformed { detail: field_path(ctx, name) }),
        Some(v) => match v {
            JsonValue::Str(s) => Ok(s.clone()),
            _ => Err(CatalogError::IndexMalformed { detail: field_path(ctx, name) }),
        },
    }
}

/// Reads a JSON array of strings, or reports the path at fault.
#[verifier::loop_isolation(false)]
fn expect_string_list(v: &JsonValue, path: &str) -> (r: Result<Vec<String>, CatalogError>)
    ensures
        r is Ok <==> ((*v) is Arr && string_items(v->Arr_0@)),
        r is Ok ==> r->Ok_0.deep_view() == string_views(v->Arr_0@),
        r is Err ==> r->Err_0 is IndexMalformed,
{
    match v {
        JsonValue::Arr(items) => {
            let n = items.len();
            let mut out: Vec<String> = Vec::new();
            let mut i: usize = 0;
            while i < n
                invariant
                    i <= n,
                    n == items@.len(),
                    out@.len() == i,
                    forall|j: int|
                        0 <= j < i ==> (#[trigger] items@[j]) is Str && out@[j]@
                            == items@[j]->Str_0@,
                decreases n - i,
            {
                match &items[i] {
                    JsonValue::Str(s) => out.push(s.clone()),
                    _ => {
                        proof {
                            assert(!(items@[i as int] is Str));
                            assert(!string_items(items@));
                        }
                        return Err(
                            CatalogError::IndexMalformed { detail: String::from_str(path) },
                        );
                    },
                }
                i = i + 1;
            }
            proof {
                assert(out.deep_view() =~= string_views(items@));
            }
            Ok(out)
        },
        _ => Err(CatalogError::IndexMalformed { detail: String::from_str(path) }),
    }
}

/// The string list stored under `name`, or `IndexMalformed`.
fn expect_string_list_field(
    fields: &Vec<(String, JsonValue)>,
    name: &str,
    ctx: &str,
) -> (r: Result<Vec<String>, CatalogError>)
    ensures
        r is Ok <==> list_field_ok(fields@, name@),
        r is Ok ==> r->Ok_0.deep_view() == list_field_views(fields@, name@),
        r is Err ==> r->Err_0 is IndexMalformed,
{
    let key = String::from_str(name);
    match get_field(fields, &key) {
        None => Err(CatalogError::IndexMalformed { detail: field_path(ctx, name) }),
        Some(v) => {
            let path = field_path(ctx, name);
            expect_string_list(v, path.as_str())
        },
    }
}

/// Reads the heterogeneous `auxiliaries` mapping: each value is a single
/// related identifier or a list of them; any other shape fails. The
/// union shape is resolved here, once and losslessly, so nothing
/// downstream re-inspects raw JSON.
#[verifier::loop_isolation(false)]
fn parse_auxiliaries(v: &JsonValue, path: &str) -> (r: Result<
    Vec<(String, Auxiliary)>,
    CatalogError,
>)
    ensures
        r is Ok <==> ((*v) is Obj && (forall|j: int|
            0 <= j < v->Obj_0@.len() ==> aux_ok((#[trigger] v->Obj_0@[j]).1))),
        r is Ok ==> aux_list_match(r->Ok_0@, v->Obj_0@),
        r is Err ==> r->Err_0 is IndexMalformed,
{
    match v {
        JsonValue::Obj(fields) => {
            let n = fields.len();
            let mut out: Vec<(String, Auxiliary)> = Vec::new();
            let mut i: usize = 0;
            while i < n
                invariant
                    i <= n,
                    n == fields@.len(),
                    out@.len() == i,
                    forall|j: int|
                        0 <= j < i ==> aux_ok((#[trigger] fields@[j]).1) && out@[j].0@
                            == fields@[j].0@ && aux_matches(out@[j].1, fields@[j].1),
                decreases n - i,
            {
                let role = fields[i].0.clone();
                match &fields[i].1 {
                    JsonValue::Str(s) => out.push((role, Auxiliary::Single(s.clone()))),
                    JsonValue::Arr(_) => match expect_string_list(&fields[i].1, path) {
                        Ok(many) => out.push((role, Auxiliary::Many(many))),
                        Err(e) => {
                            proof {
                                assert(!aux_ok(fields@[i as int].1));
                            }
                            return Err(e);
                        },
                    },
                    _ => {
                        proof {
                            assert(!aux_ok(fields@[i as int].1));
                        }
                        return Err(
                            CatalogError::IndexMalformed { detail: String::from_str(path) },
                        );
                    },
                }
                i = i + 1;
            }
            Ok(out)
        },
        _ => Err(CatalogError::IndexMalformed { detail: String::from_str(path) }),
    }
}

/// Reads one version record, or reports the field path at fault.
fn parse_version(v: &JsonValue, ctx: &str) -> (r: Result<VersionRecord, CatalogError>)
    ensures
        r is Ok <==> version_ok(*v),
        r is Ok ==> version_matches(r->Ok_0, *v),
        r is Err ==> r->Err_0 is IndexMalformed,
{
    match v {
        JsonValue::Obj(fields) => {
            let file_relpath = match expect_string_field(fields, "file_relpath", ctx) {
                Ok(s) => s,
                Err(e) => {
                    return Err(e);
                },
            };
            let revdesc = match expect_string_field(fields, "revdesc", ctx) {
                Ok(s) => s,
                Err(e) => {
                    return Err(e);
                },
            };
            let revdate = match expect_string_field(fields, "revdate", ctx) {
                Ok(s) => s,
                Err(e) => {
                    return Err(e);
                },
            };
            let elements = match expect_string_list_field(fields, "elements", ctx) {
                Ok(s) => s,
                Err(e) => {
                    return Err(e);
                },
            };
            Ok(VersionRecord { file_relpath, revdesc, revdate, elements })
        },
        _ => Err(CatalogError::IndexMalformed { detail: String::from_str(ctx) }),
    }
}

/// Reads the `versions` mapping of an entry: version identifier to
/// record, every record well-shaped.
#[verifier::loop_isolation(false)]
fn parse_versions(v: &JsonValue, path: &str) -> (r: Result<
    Vec<(String, VersionRecord)>,
    CatalogError,
>)
    ensures
        r is Ok <==> ((*v) is Obj && (forall|j: int|
            0 <= j < v->Obj_0@.len() ==> version_ok((#[trigger] v->Obj_0@[j]).1))),
        r is Ok ==> versions_match(r->Ok_0@, v->Obj_0@),
        r is Err ==> r->Err_0 is IndexMalformed,
{
    match v {
        JsonValue::Obj(fields) => {
            let n = fields.len();
            let mut out: Vec<(String, VersionRecord)> = Vec::new();
            let mut i: usize = 0;
            while i < n
                invariant
                    i <= n,
                    n == fields@.len(),
                    out@.len() == i,
                    forall|j: int|
                        0 <= j < i ==> version_ok((#[trigger] fields@[j]).1) && out@[j].0@
                            == fields@[j].0@ && version_matches(out@[j].1, fields@[j].1),
                decreases n - i,
            {
                let sub = field_path(path, fields[i].0.as_str());
                match parse_version(&fields[i].1, sub.as_str()) {
                    Ok(rec) => out.push((fields[i].0.clone(), rec)),
                    Err(e) => {
                        proof {
                            assert(!version_ok(fields@[i as int].1));
                        }
                        return Err(e);
                    },
                }
                i = i + 1;
            }
            Ok(out)
        },
        _ => Err(CatalogError::IndexMalformed { detail: String::from_str(path) }),
    }
}

/// Reads one basis-set entry from its JSON object; every field of the
/// schema must be present and of the right shape, and every field of the
/// result is the document's, preserved exactly.
fn parse_entry(v: &JsonValue, ctx: &str) -> (r: Result<BasisSetEntry, CatalogError>)
    ensures
        r is Ok <==> entry_ok(*v),
        r is Ok ==> entry_matches(r->Ok_0, *v),
        r is Err ==> r->Err_0 is IndexMalformed,
{
    match v {
        JsonValue::Obj(fields) => {
            let display_name = match expect_string_field(fields, "display_name", ctx) {
                Ok(s) => s,
                Err(e) => {
                    return Err(e);
                },
            };
            let other_names = match expect_string_list_field(fields, "other_names", ctx) {
                Ok(s) => s,
                Err(e) => {
                    return Err(e);
                },
            };
            let description = match expect_string_field(fields, "description", ctx) {
                Ok(s) => s,
                Err(e) => {
                    return Err(e);
                },
            };
            let latest_version = match expect_string_field(fields, "latest_version", ctx) {
                Ok(s) => s,
                Err(e) => {
                    return Err(e);
                },
            };
            let tags = match expect_string_list_field(fields, "tags", ctx) {
                Ok(s) => s,
                Err(e) => {
                    return Err(e);
                },
            };
            let basename = match expect_string_field(fields, "basename", ctx) {
                Ok(s) => s,
                Err(e) => {
                    return Err(e);
                },
            };
            let relpath = match expect_string_field(fields, "relpath", ctx) {
                Ok(s) => s,
                Err(e) => {
                    return Err(e);
                },
            };
            let family = match expect_string_field(fields, "family", ctx) {
                Ok(s) => s,
                Err(e) => {
                    return Err(e);
                },
            };
            let role = match expect_string_field(fields, "role", ctx) {
                Ok(s) => s,
                Err(e) => {
                    return Err(e);
                },
            };
            let function_types = match expect_string_list_field(fields, "function_types", ctx) {
                Ok(s) => s,
                Err(e) => {
                    return Err(e);
                },
            };
            let aux_key = String::from_str("auxiliaries");
            let auxiliaries = match get_field(fields, &aux_key) {
                None => {
                    return Err(
                        CatalogError::IndexMalformed { detail: field_path(ctx, "auxiliaries") },
                    );
                },
                Some(av) => {
                    let sub = field_path(ctx, "auxiliaries");
                    match parse_auxiliaries(av, sub.as_str()) {
                        Ok(a) => a,
                        Err(e) => {
                            return Err(e);
                        },
                    }
                },
            };
            let ver_key = String::from_str("versions");
            let versions = match get_field(fields, &ver_key) {
                None => {
                    return Err(
                        CatalogError::IndexMalformed { detail: field_path(ctx, "versions") },
                    );
                },
                Some(vv) => {
                    let sub = field_path(ctx, "versions");
                    match parse_versions(vv, sub.as_str()) {
                        Ok(a) => a,
                        Err(e) => {
                            return Err(e);
                        },
                    }
                },
            };
            Ok(
                BasisSetEntry {
                    display_name,
                    other_names,
                    description,
                    latest_version,
                    tags,
                    basename,
                    relpath,
                    family,
                    role,
                    function_types,
                    auxiliaries,
                    versions,
                },
            )
        },
        _ => Err(CatalogError::IndexMalformed { detail: String::from_str(ctx) }),
    }
}

/// Reads one basis-set entry from JSON text: the shape check alone, with
/// no structural catalog invariants involved. Succeeds exactly on valid
/// JSON of the entry shape, and then returns the document's entry,
/// field for field.
pub fn entry_from_index_text(text: &str) -> (r: Result<BasisSetEntry, CatalogError>)
    ensures
        r is Ok <==> wf_json(text@) && entry_ok(json_tree_of(text@)),
        r is Ok ==> entry_matches(r->Ok_0, json_tree_of(text@)),
        r is Err ==> r->Err_0 is IndexMalformed,
{
    match parse_json(text) {
        Err(e) => Err(CatalogError::IndexMalformed { detail: json_error_message(&e) }),
        Ok(v) => parse_entry(&v, "entry"),
    }
}

/// Loads a whole catalog from the text of an index document: parse,
/// shape-check every entry, then construction with its structural
/// checks. The load succeeds exactly on valid JSON of the document shape
/// whose entries satisfy the catalog invariants, and then the catalog
/// holds the document's entries pair for pair; otherwise the error says
/// which of the two stages refused, and no partial catalog is ever
/// handed out.
#[verifier::loop_isolation(false)]
pub fn catalog_from_index_text(text: &str) -> (r: Result<MetadataCatalog, CatalogError>)
    ensures
        r is Ok <==> wf_json(text@) && doc_shape_ok(json_tree_of(text@)) && doc_wf_tree(
            json_tree_of(text@),
        ),
        r is Ok ==> r->Ok_0.wf() && catalog_matches_doc(r->Ok_0, json_tree_of(text@)),
        r is Err ==> ((r->Err_0 is IndexMalformed) <==> !(wf_json(text@) && doc_shape_ok(
            json_tree_of(text@),
        ))),
        r is Err ==> r->Err_0 is IndexMalformed || r->Err_0 is CatalogIntegrity,
{
    let root = match parse_json(text) {
        Err(e) => {
            return Err(CatalogError::IndexMalformed { detail: json_error_message(&e) });
        },
        Ok(v) => v,
    };
    let top = match &root {
        JsonValue::Obj(fields) => fields,
        _ => {
            return Err(CatalogError::IndexMalformed { detail: String::from_str("root") });
        },
    };
    let bs_key = String::from_str("basis_sets");
    let sets_value = match get_field(top, &bs_key) {
        None => {
            return Err(CatalogError::IndexMalformed { detail: String::from_str("basis_sets") });
        },
        Some(v) => v,
    };
    let raw_entries = match sets_value {
        JsonValue::Obj(fields) => fields,
        _ => {
            return Err(CatalogError::IndexMalformed { detail: String::from_str("basis_sets") });
        },
    };
    let n = raw_entries.len();
    let mut pairs: Vec<(String, BasisSetEntry)> = Vec::new();
    let mut i: usize = 0;
    while i < n
        invariant
            i <= n,
            n == raw_entries@.len(),
            raw_entries@ == doc_sets(json_tree_of(text@)),
            pairs@.len() == i,
            forall|j: int|
                0 <= j < i ==> entry_ok((#[trigger] raw_entries@[j]).1) && pairs@[j].0@
                    == raw_entries@[j].0@ && entry_matches(pairs@[j].1, raw_entries@[j].1),
        decreases n - i,
    {
        let name = raw_entries[i].0.clone();
        let ctx = field_path("basis_sets", name.as_str());
        match parse_entry(&raw_entries[i].1, ctx.as_str()) {
            Ok(entry) => pairs.push((name, entry)),
            Err(e) => {
                proof {
                    assert(!entry_ok(raw_entries@[i as int].1));
                    assert(!doc_shape_ok(json_tree_of(text@)));
                }
                return Err(e);
            },
        }
        i = i + 1;
    }
    let ghost tree = json_tree_of(text@);
    proof {
        assert(doc_shape_ok(tree));
        assert(document_wf(pairs@) == doc_wf_tree(tree)) by {
            let sets = doc_sets(tree);
            assert forall|j: int|
                0 <= j < sets.len() implies (#[trigger] pairs@[j].1).wf() == entry_wf_tree(
                sets[j].1,
            ) by {
                lemma_entry_wf_bridge(pairs@[j].1, sets[j].1);
            }
            if document_wf(pairs@) {
                assert forall|p: int, q: int|
                    0 <= p < q < sets.len() implies normalize_spec(sets[p].0@) != normalize_spec(
                    sets[q].0@,
                ) by {
                    assert(pairs@[p].0@ == sets[p].0@);
                    assert(pairs@[q].0@ == sets[q].0@);
                    assert(normalize_spec(pairs@[p].0@) != normalize_spec(pairs@[q].0@));
                }
                assert(doc_wf_tree(tree));
            }
            if doc_wf_tree(tree) {
                assert forall|p: int, q: int|
                    0 <= p < q < pairs@.len() implies normalize_spec(pairs@[p].0@)
                    != normalize_spec(pairs@[q].0@) by {
                    assert(pairs@[p].0@ == sets[p].0@);
                    assert(pairs@[q].0@ == sets[q].0@);
                }
                assert(document_wf(pairs@));
            }
        }
    }
    match MetadataCatalog::build(pairs) {
        Ok(c) => {
            proof {
                assert(catalog_matches_doc(c, tree));
            }
            Ok(c)
        },
        Err(e) => Err(e),
    }
}

} // verus!
