use bse::catalog::MetadataCatalog;
use bse::errors::CatalogError;
use bse::model::{BasisSetEntry, VersionRecord};
use bse::resolve::resolve;

fn version(file: &str, last_element: u32) -> VersionRecord {
    let mut elements = Vec::new();
    for e in 1..=last_element {
        elements.push(e.to_string());
    }
    VersionRecord {
        file_relpath: file.to_string(),
        revdesc: String::from("test data"),
        revdate: String::from("2020-01-01"),
        elements,
    }
}

fn sto3g_entry() -> BasisSetEntry {
    BasisSetEntry {
        display_name: "STO-3G".to_string(),
        other_names: Vec::new(),
        description: String::from("a minimal test basis"),
        latest_version: "1".to_string(),
        tags: Vec::new(),
        basename: "STO-3G".to_string(),
        relpath: String::new(),
        family: String::from("sto"),
        role: String::from("orbital"),
        function_types: vec![String::from("gto")],
        auxiliaries: Vec::new(),
        versions: vec![
            ("0".to_string(), version("STO-3G.0.table.json", 53)),
            ("1".to_string(), version("STO-3G.1.table.json", 54)),
        ],
    }
}

#[test]
fn resolve_defaults_to_latest_version() {
    let entry = sto3g_entry();
    let rec = resolve(&entry, None, None).expect("latest resolves");
    assert_eq!(rec.file_relpath, "STO-3G.1.table.json");
    assert_eq!(rec.elements.len(), 54);
}

#[test]
fn resolve_pinned_version_with_covered_elements() {
    let entry = sto3g_entry();
    let pinned = "0".to_string();
    let required = vec!["53".to_string()];
    let rec = resolve(&entry, Some(&pinned), Some(&required)).expect("element 53 is covered");
    assert_eq!(rec.file_relpath, "STO-3G.0.table.json");
}

#[test]
fn resolve_reports_missing_elements_by_name() {
    let entry = sto3g_entry();
    let pinned = "0".to_string();
    let required = vec!["54".to_string()];
    let r = resolve(&entry, Some(&pinned), Some(&required));
    match r {
        Err(CatalogError::MissingElementCoverage { missing }) => {
            assert_eq!(missing, vec!["54".to_string()]);
        }
        other => panic!("expected missing element coverage, got {:?}", other),
    }
}

#[test]
fn resolve_reports_only_uncovered_elements() {
    let entry = sto3g_entry();
    let pinned = "0".to_string();
    let required = vec![
        "1".to_string(),
        "54".to_string(),
        "118".to_string(),
        "53".to_string(),
    ];
    let r = resolve(&entry, Some(&pinned), Some(&required));
    match r {
        Err(CatalogError::MissingElementCoverage { missing }) => {
            assert_eq!(missing, vec!["54".to_string(), "118".to_string()]);
        }
        other => panic!("expected missing element coverage, got {:?}", other),
    }
}

#[test]
fn resolve_unknown_version_fails() {
    let entry = sto3g_entry();
    let pinned = "7".to_string();
    let r = resolve(&entry, Some(&pinned), None);
    match r {
        Err(CatalogError::UnknownVersion { version }) => assert_eq!(version, "7"),
        other => panic!("expected unknown version, got {:?}", other),
    }
}

#[test]
fn resolve_name_walks_lookup_and_resolution() {
    let catalog = MetadataCatalog::build(vec![("STO-3G".to_string(), sto3g_entry())]).unwrap();
    let rec = catalog
        .resolve_name("sto-3g", None, None)
        .expect("known name resolves");
    assert_eq!(rec.file_relpath, "STO-3G.1.table.json");
    let r = catalog.resolve_name("unknown-basis", None, None);
    match r {
        Err(CatalogError::UnknownBasisSet { name }) => assert_eq!(name, "unknown-basis"),
        other => panic!("expected unknown basis set, got {:?}", other),
    }
}
