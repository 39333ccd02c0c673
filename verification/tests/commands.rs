use license::commands::{
    choose_author, choose_license, config_action, fill_template, license_body, license_filename,
    list_custom, list_licenses, may_write, osi_filter, preview, ChoiceError, ConfigAction, LicenseChoice,
};
use license::config::ResolvedConfig;

fn resolved(name: &str, email: Option<&str>) -> ResolvedConfig {
    ResolvedConfig {
        author_name: name.to_string(),
        author_email: email.map(|e| e.to_string()),
        osi_approved_only: true,
    }
}

#[test]
fn fill_template_replaces_every_placeholder() {
    let text = "Copyright (c) <year> <copyright holders>\n[yyyy] {year} [year] [fullname] [owner] {owner} <owner>\n<name of author> <name of copyright owner> [name of copyright owner]\n<program> [program]\n<one line to give the program's name and a brief idea of what it does.>";
    let out = fill_template(text, "2024", "Ada", "demo", "A demo tool");
    assert_eq!(
        out,
        "Copyright (c) 2024 Ada\n2024 2024 2024 Ada Ada Ada Ada\nAda Ada Ada\ndemo demo\nA demo tool"
    );
}

#[test]
fn fill_template_leaves_plain_text() {
    let text = "No placeholders here <yea r> [own er]";
    assert_eq!(fill_template(text, "1999", "X", "p", "d"), text);
}

#[test]
fn fill_template_year_before_author() {
    // the author is inserted after the year placeholders are filled
    let out = fill_template("<copyright holders>, <year>", "2020", "<year>", "p", "d");
    assert_eq!(out, "<year>, 2020");
}

#[test]
fn fill_template_real_mit_text() {
    let mit = license::licenses::find_license("MIT").unwrap();
    let (text, name) = license_body(LicenseChoice::Spdx(mit), "mit");
    assert_eq!(name, "MIT");
    let out = fill_template(&text, "2026", "Jane Doe", "tool", "desc");
    assert!(out.contains("Copyright (c) 2026 Jane Doe"));
    assert!(!out.contains("<year>"));
}

#[test]
fn author_priority() {
    // a given name wins
    assert_eq!(choose_author(Some("Given".to_string()), &resolved("Cfg", None), &Some("Proj".to_string())), "Given");
    // configured author, with e-mail
    assert_eq!(choose_author(None, &resolved("Cfg", Some("c@x.org")), &Some("Proj".to_string())), "Cfg <c@x.org>");
    // empty e-mail is left out
    assert_eq!(choose_author(None, &resolved("Cfg", Some("")), &None), "Cfg");
    // placeholder: project author
    assert_eq!(choose_author(None, &resolved("Your Name", Some("e@x")), &Some("Proj".to_string())), "Proj");
    // placeholder and no project author
    assert_eq!(choose_author(None, &resolved("Your Name", None), &None), "Your Name");
}

#[test]
fn filenames() {
    assert_eq!(license_filename(1, "MIT"), "LICENSE");
    assert_eq!(license_filename(2, "MIT"), "LICENSE-MIT");
    assert_eq!(license_filename(0, "x"), "LICENSE-x");
}

#[test]
fn osi_filter_flag() {
    assert!(osi_filter(true, false));
    assert!(!osi_filter(true, true));
    assert!(!osi_filter(false, false));
}

#[test]
fn choose_license_errors() {
    assert_eq!(choose_license("mine", Some("T".to_string()), true).err(), Some(ChoiceError::CustomNotAllowed));
    assert_eq!(choose_license("CC-BY-4.0", None, true).err(), Some(ChoiceError::NotOsiApproved));
    assert_eq!(choose_license("nope-nope", None, false).err(), Some(ChoiceError::NotFound));
}

#[test]
fn choose_license_sources() {
    match choose_license("mine", Some("Custom text".to_string()), false) {
        Ok(LicenseChoice::Custom(t)) => assert_eq!(t, "Custom text"),
        _ => panic!("expected custom"),
    }
    match choose_license("cc-by-4.0", None, false) {
        Ok(LicenseChoice::Spdx(l)) => assert_eq!(l.name(), "CC-BY-4.0"),
        _ => panic!("expected spdx"),
    }
    match choose_license("mit", None, true) {
        Ok(c) => {
            let (text, name) = license_body(c, "mit");
            assert_eq!(name, "MIT");
            assert!(text.starts_with("MIT License"));
        }
        _ => panic!("expected spdx"),
    }
    match choose_license("mine", Some("Body".to_string()), false) {
        Ok(c) => assert_eq!(license_body(c, "mine"), ("Body".to_string(), "mine".to_string())),
        _ => panic!("expected custom"),
    }
}

#[test]
fn preview_short_and_long() {
    let (p, more) = preview("a\r\nb\nc\n");
    assert_eq!(p, "a\nb\nc");
    assert!(!more);
    let long: String = (1..=20).map(|i| format!("line {}\n", i)).collect();
    let (p, more) = preview(&long);
    let expected: Vec<String> = (1..=15).map(|i| format!("line {}", i)).collect();
    assert_eq!(p, expected.join("\n"));
    assert!(more);
    let (p, more) = preview("");
    assert_eq!(p, "");
    assert!(!more);
}

#[test]
fn preview_exactly_fifteen_lines() {
    let text: String = (1..=15).map(|i| format!("{}\n", i)).collect();
    let (_, more) = preview(&text);
    assert!(!more);
}

#[test]
fn listing_filters_and_sorts() {
    let all = list_licenses(&None, false);
    assert_eq!(all.len(), spdx::identifiers::LICENSES.len());
    let mit = list_licenses(&Some("MIT".to_string()), false);
    assert!(mit.iter().any(|(n, _)| n == "MIT"));
    assert!(mit.iter().all(|(n, f)| n.to_lowercase().contains("mit") || f.to_lowercase().contains("mit")));
    for w in mit.windows(2) {
        assert!(w[0].0 < w[1].0);
    }
    let osi = list_licenses(&Some("creative commons".to_string()), true);
    assert!(osi.iter().all(|(n, _)| license::licenses::find_license(n).map(|l| l.is_osi_approved()).unwrap_or(false)));
    let by_full = list_licenses(&Some("zero clause".to_string()), false);
    assert!(by_full.iter().any(|(n, _)| n == "0BSD"));
}

#[test]
fn custom_listing() {
    let names = vec!["My-License".to_string(), "other".to_string()];
    assert_eq!(list_custom(&names, &Some("my".to_string()), false), vec!["My-License".to_string()]);
    assert_eq!(list_custom(&names, &None, false), names);
    assert!(list_custom(&names, &None, true).is_empty());
}

#[test]
fn config_actions() {
    let s = |x: &str| Some(x.to_string());
    assert_eq!(config_action(None, s("v")), ConfigAction::Show);
    assert_eq!(config_action(s("path"), None), ConfigAction::ShowPath);
    assert_eq!(config_action(s("name"), s("Ada")), ConfigAction::SetName("Ada".to_string()));
    assert_eq!(config_action(s("author_name"), None), ConfigAction::ShowName);
    assert_eq!(config_action(s("email"), s("a@b")), ConfigAction::SetEmail("a@b".to_string()));
    assert_eq!(config_action(s("author_email"), None), ConfigAction::ShowEmail);
    assert_eq!(config_action(s("osi_approved_only"), s("false")), ConfigAction::SetOsiOnly(false));
    assert_eq!(config_action(s("osi_approved_only"), s("true")), ConfigAction::SetOsiOnly(true));
    assert_eq!(config_action(s("osi_approved_only"), s("yes")), ConfigAction::InvalidBool);
    assert_eq!(config_action(s("osi_approved_only"), None), ConfigAction::ShowOsiOnly);
    assert_eq!(config_action(s("colour"), s("x")), ConfigAction::UnknownKey("colour".to_string()));
}

#[test]
fn overwrite_only_with_force() {
    assert!(may_write(false, false));
    assert!(may_write(true, true));
    assert!(!may_write(true, false));
}
