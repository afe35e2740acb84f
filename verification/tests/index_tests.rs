use bse::errors::CatalogError;
use bse::index::{catalog_from_index_text, entry_from_index_text};
use bse::model::Auxiliary;

fn sto3g_json() -> String {
    let mut elements0 = String::new();
    for e in 1..=53 {
        if e > 1 {
            elements0.push_str(", ");
        }
        elements0.push_str(&format!("\"{}\"", e));
    }
    let mut elements1 = String::new();
    for e in 1..=54 {
        if e > 1 {
            elements1.push_str(", ");
        }
        elements1.push_str(&format!("\"{}\"", e));
    }
    format!(
        r#"{{
    "display_name": "STO-3G",
    "other_names": [],
    "description": "STO-3G Minimal Basis (3 functions/AO)",
    "latest_version": "1",
    "tags": [],
    "basename": "STO-3G",
    "relpath": "",
    "family": "sto",
    "role": "orbital",
    "function_types": ["gto", "gto_spherical"],
    "auxiliaries": {{}},
    "versions": {{
      "0": {{
        "file_relpath": "STO-3G.0.table.json",
        "revdesc": "Data from the Original Basis Set Exchange",
        "revdate": "2007-01-15",
        "elements": [{}]
      }},
      "1": {{
        "file_relpath": "STO-3G.1.table.json",
        "revdesc": "Data from Gaussian09",
        "revdate": "2018-06-19",
        "elements": [{}]
      }}
    }}
  }}"#,
        elements0, elements1
    )
}

#[test]
fn test_deserialize_single_basis_metadata() {
    let data = sto3g_json();
    let entry = entry_from_index_text(&data).expect("the entry document is well-shaped");
    assert_eq!(entry.display_name, "STO-3G");
    assert_eq!(entry.latest_version, "1");
    assert_eq!(entry.family, "sto");
    assert_eq!(entry.function_types, vec!["gto".to_string(), "gto_spherical".to_string()]);
    assert_eq!(entry.versions.len(), 2);
    let v1 = &entry.versions.iter().find(|p| p.0 == "1").unwrap().1;
    assert_eq!(v1.file_relpath, "STO-3G.1.table.json");
    assert_eq!(v1.elements.len(), 54);
}

#[test]
fn document_missing_top_level_mapping_is_malformed() {
    let r = catalog_from_index_text(r#"{"something_else": {}}"#);
    assert!(matches!(r, Err(CatalogError::IndexMalformed { .. })));
}

#[test]
fn text_that_is_not_json_is_malformed() {
    let r = catalog_from_index_text("this is not structured data");
    assert!(matches!(r, Err(CatalogError::IndexMalformed { .. })));
}

#[test]
fn entry_with_wrong_field_shape_is_malformed() {
    let r = entry_from_index_text(r#"{"display_name": 7}"#);
    assert!(matches!(r, Err(CatalogError::IndexMalformed { .. })));
}

#[test]
fn whole_document_loads_and_serves_lookups() {
    let doc = format!(r#"{{"basis_sets": {{"STO-3G": {}}}}}"#, sto3g_json());
    let catalog = catalog_from_index_text(&doc).expect("the document is well-formed");
    let entry = catalog.lookup("sto-3g").expect("lookup after load");
    assert_eq!(entry.display_name, "STO-3G");
    let rec = catalog
        .resolve_name("STO-3G", None, None)
        .expect("latest version resolves");
    assert_eq!(rec.file_relpath, "STO-3G.1.table.json");
}

#[test]
fn colliding_names_in_document_fail_with_integrity_error() {
    let doc = format!(
        r#"{{"basis_sets": {{"STO-3G": {}, "sto-3g": {}}}}}"#,
        sto3g_json(),
        sto3g_json()
    );
    let r = catalog_from_index_text(&doc);
    assert!(matches!(r, Err(CatalogError::CatalogIntegrity { .. })));
}

#[test]
fn bad_latest_version_in_document_fails_with_integrity_error() {
    let doc = format!(r#"{{"basis_sets": {{"STO-3G": {}}}}}"#, sto3g_json())
        .replace(r#""latest_version": "1""#, r#""latest_version": "9""#);
    let r = catalog_from_index_text(&doc);
    assert!(matches!(r, Err(CatalogError::CatalogIntegrity { .. })));
}

#[test]
fn heterogeneous_auxiliaries_both_shapes_load() {
    let doc = sto3g_json().replace(
        r#""auxiliaries": {}"#,
        r#""auxiliaries": {"jkfit": "def2-universal-jkfit", "rifit": ["aux-a", "aux-b"]}"#,
    );
    let entry = entry_from_index_text(&doc).expect("both auxiliary shapes are legal");
    assert_eq!(entry.auxiliaries.len(), 2);
    let jk = &entry.auxiliaries.iter().find(|p| p.0 == "jkfit").unwrap().1;
    assert_eq!(*jk, Auxiliary::Single("def2-universal-jkfit".to_string()));
    let ri = &entry.auxiliaries.iter().find(|p| p.0 == "rifit").unwrap().1;
    assert_eq!(
        *ri,
        Auxiliary::Many(vec!["aux-a".to_string(), "aux-b".to_string()])
    );
}

#[test]
fn auxiliaries_of_a_wrong_shape_are_malformed() {
    let doc = sto3g_json().replace(r#""auxiliaries": {}"#, r#""auxiliaries": {"jkfit": 3}"#);
    let r = entry_from_index_text(&doc);
    assert!(matches!(r, Err(CatalogError::IndexMalformed { .. })));
}
