use license::licenses::{find_license, license_names};

#[test]
fn test_find_license_casing() {
    assert!(find_license("mit").is_some());
    assert!(find_license("MIT").is_some());
    assert!(find_license("Mit").is_some());
    assert!(find_license("apache-2.0").is_some());
}

#[test]
fn test_osi_filter_logic() {
    // Test that find_license works and we can check is_osi_approved
    let mit = find_license("mit").unwrap();
    assert!(mit.is_osi_approved());

    let gpl = find_license("gpl-3.0-only").unwrap();
    assert!(gpl.is_osi_approved());
}

#[test]
fn find_license_exact_and_caseless_names() {
    let mit = find_license("mit").unwrap();
    assert_eq!(mit.name(), "MIT");
    assert_eq!(mit.full_name(), "MIT License");
    assert_eq!(mit.index(), spdx::license_id("MIT").unwrap().index);
    let apache = find_license("APACHE-2.0").unwrap();
    assert_eq!(apache.name(), "Apache-2.0");
    let exact = find_license("BSD-3-Clause").unwrap();
    assert_eq!(exact.name(), "BSD-3-Clause");
}

#[test]
fn find_license_trailing_plus() {
    // spdx::license_id ignores trailing '+': "GPL-2.0+" names "GPL-2.0".
    let l = find_license("GPL-2.0+").unwrap();
    assert_eq!(l.name(), "GPL-2.0");
    // caseless "gpl-2.0+" matches the list's "GPL-2.0+", then looked up as "GPL-2.0"
    let l = find_license("gpl-2.0+").unwrap();
    assert_eq!(l.name(), "GPL-2.0");
}

#[test]
fn find_license_unknown() {
    assert!(find_license("no-such-license").is_none());
    assert!(find_license("").is_none());
}

#[test]
fn non_osi_license_is_flagged() {
    let l = find_license("CC-BY-4.0").unwrap();
    assert!(!l.is_osi_approved());
}

#[test]
fn license_text_is_spdx_table_entry() {
    let mit = find_license("MIT").unwrap();
    let text = mit.text();
    assert!(text.starts_with("MIT License"));
    assert!(text.contains("<year>"));
    assert_eq!(text, spdx::license_id("MIT").unwrap().text());
}

#[test]
fn license_names_are_sorted_and_complete() {
    let names = license_names();
    assert_eq!(names.len(), spdx::identifiers::LICENSES.len());
    for w in names.windows(2) {
        assert!(w[0].0 < w[1].0);
    }
    assert!(names.iter().any(|(n, f)| *n == "MIT" && *f == "MIT License"));
}

#[test]
fn lookup_ignores_case_for_exact_identifiers() {
    let names = |id: &str| find_license(id).map(|l| l.name().to_string());
    assert_eq!(names("MIT"), names("mit"));
    assert_eq!(names("Apache-2.0"), names("APACHE-2.0"));
    assert_eq!(names("GPL-3.0-only"), names("gpl-3.0-ONLY"));
    assert_eq!(names("0BSD"), names("0bsd"));
}

#[test]
fn identifiers_distinct_ignoring_case() {
    let names = license_names();
    let mut lowered: Vec<String> = names.iter().map(|(n, _)| n.to_lowercase()).collect();
    lowered.sort();
    lowered.dedup();
    assert_eq!(lowered.len(), names.len());
}
