use bse::catalog::MetadataCatalog;
use bse::errors::CatalogError;
use bse::model::{BasisSetEntry, VersionRecord};

fn version(file: &str, last_element: u32) -> VersionRecord {
    let mut elements = Vec::new();
    for e in 1..=last_element {
        elements.push(e.to_string());
    }
    VersionRecord {
        file_relpath: file.to_string(),
        revdesc: String::from("test data"),
        revdate: String::from("2020-01-01"),
        elements,
    }
}

fn entry(display: &str, latest: &str, versions: Vec<(String, VersionRecord)>) -> BasisSetEntry {
    BasisSetEntry {
        display_name: display.to_string(),
        other_names: Vec::new(),
        description: String::from("a test basis"),
        latest_version: latest.to_string(),
        tags: Vec::new(),
        basename: display.to_string(),
        relpath: String::new(),
        family: String::from("sto"),
        role: String::from("orbital"),
        function_types: vec![String::from("gto")],
        auxiliaries: Vec::new(),
        versions,
    }
}

fn sto3g_entry() -> BasisSetEntry {
    entry(
        "STO-3G",
        "1",
        vec![
            ("0".to_string(), version("STO-3G.0.table.json", 53)),
            ("1".to_string(), version("STO-3G.1.table.json", 54)),
        ],
    )
}

#[test]
fn lookup_is_case_insensitive() {
    let catalog = MetadataCatalog::build(vec![("STO-3G".to_string(), sto3g_entry())]).unwrap();
    let a = catalog.lookup("STO-3G").expect("upper-case lookup");
    let b = catalog.lookup("sto-3g").expect("lower-case lookup");
    assert_eq!(a, b);
    assert_eq!(a.display_name, "STO-3G");
}

#[test]
fn lookup_unknown_name_is_none() {
    let catalog = MetadataCatalog::build(vec![("STO-3G".to_string(), sto3g_entry())]).unwrap();
    assert!(catalog.lookup("no-such-basis").is_none());
}

#[test]
fn colliding_raw_names_fail_construction() {
    let pairs = vec![
        ("STO-3G".to_string(), sto3g_entry()),
        ("sto-3g".to_string(), sto3g_entry()),
    ];
    let r = MetadataCatalog::build(pairs);
    assert!(matches!(r, Err(CatalogError::CatalogIntegrity { .. })));
}

#[test]
fn latest_version_missing_fails_construction() {
    let bad = entry(
        "QZ-test",
        "2",
        vec![("0".to_string(), version("QZ.0.table.json", 10))],
    );
    let r = MetadataCatalog::build(vec![("QZ-test".to_string(), bad)]);
    assert!(matches!(r, Err(CatalogError::CatalogIntegrity { .. })));
}

#[test]
fn empty_versions_fail_construction() {
    let bad = entry("QZ-test", "0", Vec::new());
    let r = MetadataCatalog::build(vec![("QZ-test".to_string(), bad)]);
    assert!(matches!(r, Err(CatalogError::CatalogIntegrity { .. })));
}

#[test]
fn all_entries_yields_each_exactly_once() {
    let pairs = vec![
        ("STO-3G".to_string(), sto3g_entry()),
        (
            "def2-SV(P)/JK".to_string(),
            entry(
                "def2-SV(P)/JK",
                "1",
                vec![("1".to_string(), version("def2.1.table.json", 86))],
            ),
        ),
        (
            "3-21G*".to_string(),
            entry(
                "3-21G*",
                "0",
                vec![("0".to_string(), version("321gs.0.table.json", 36))],
            ),
        ),
    ];
    let catalog = MetadataCatalog::build(pairs).unwrap();
    let listing = catalog.all_entries();
    assert_eq!(listing.len(), 3);
    for e in listing {
        let found = catalog
            .lookup(&e.display_name)
            .expect("every listed entry is retrievable by its own name");
        assert_eq!(found, e);
    }
    // The listing is restartable: a second pass sees the same entries.
    let again = catalog.all_entries();
    assert_eq!(again.len(), 3);
}
