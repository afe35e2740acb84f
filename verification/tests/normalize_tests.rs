use bse::normalize::normalize;

#[test]
fn test_transform_basis_name() {
    assert_eq!(normalize("sto-3g"), String::from("sto-3g"));
    assert_eq!(normalize("def2-sv(p)/jk"), String::from("def2-sv(p)_sl_jk"));
    assert_eq!(normalize("3-21g*"), String::from("3-21g_st_"));
}

#[test]
fn normalize_lowercases_and_remaps() {
    assert_eq!(normalize("sto-3g"), "sto-3g");
    assert_eq!(normalize("def2-SV(P)/JK"), "def2-sv(p)_sl_jk");
    assert_eq!(normalize("3-21G*"), "3-21g_st_");
}

#[test]
fn normalize_is_idempotent_on_samples() {
    let samples = [
        "",
        "STO-3G",
        "def2-SV(P)/JK",
        "3-21G*",
        "aug-cc-pVTZ",
        "odd*/name/with**stars",
    ];
    for s in samples {
        let once = normalize(s);
        let twice = normalize(&once);
        assert_eq!(once, twice);
    }
}

#[test]
fn normalize_lowercases_beyond_ascii() {
    assert_eq!(normalize("\u{c4}rlig/Navn*"), "\u{e4}rlig_sl_navn_st_");
    assert_eq!(normalize("\u{c9}-basis"), "\u{e9}-basis");
    let once = normalize("\u{c4}/\u{d6}*");
    let twice = normalize(&once);
    assert_eq!(once, twice);
}

#[test]
fn normalize_empty_is_empty() {
    assert_eq!(normalize(""), "");
}

#[test]
fn normalize_keeps_safe_characters() {
    assert_eq!(normalize("6-311++G(2d,2p)"), "6-311++g(2d,2p)");
    assert_eq!(normalize("cc-pvdz"), "cc-pvdz");
}
