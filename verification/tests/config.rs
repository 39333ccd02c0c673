use license::config::{default_osi_approved, expand_home, Config, ConfigOverride};

fn config_with(entries: Vec<(&str, Option<&str>, Option<&str>)>) -> Config {
    let mut c = Config::default();
    c.author_name = "Base".to_string();
    c.author_email = Some("base@x".to_string());
    c.include_if = entries
        .into_iter()
        .map(|(cond, n, e)| {
            (
                cond.to_string(),
                ConfigOverride { author_name: n.map(|s| s.to_string()), author_email: e.map(|s| s.to_string()) },
            )
        })
        .collect();
    c
}

fn some(s: &str) -> Option<String> {
    Some(s.to_string())
}

#[test]
fn defaults() {
    assert!(default_osi_approved());
    let c = Config::default();
    assert_eq!(c.author_name, "Your Name");
    assert_eq!(c.author_email, None);
    assert!(c.osi_approved_only);
    assert!(c.include_if.is_empty());
    let o = ConfigOverride::default();
    assert!(o.author_name.is_none() && o.author_email.is_none());
}

#[test]
fn resolve_without_directory_keeps_base() {
    let c = config_with(vec![("dir:/", Some("Over"), None)]);
    let r = c.resolve(&None, &some("/home/u"));
    assert_eq!(r.author_name, "Base");
    assert_eq!(r.author_email, some("base@x"));
    assert!(r.osi_approved_only);
}

#[test]
fn resolve_applies_matching_dir() {
    let c = config_with(vec![
        ("dir:/work", Some("Worker"), Some("w@work")),
        ("dir:/play", Some("Player"), None),
    ]);
    let r = c.resolve(&some("/work/project"), &None);
    assert_eq!(r.author_name, "Worker");
    assert_eq!(r.author_email, some("w@work"));
    let r = c.resolve(&some("/play"), &None);
    assert_eq!(r.author_name, "Player");
    assert_eq!(r.author_email, some("base@x"));
    let r = c.resolve(&some("/elsewhere"), &None);
    assert_eq!(r.author_name, "Base");
}

#[test]
fn resolve_ignores_mere_text_prefix() {
    // "/work-other" begins with the text "/work" but does not lie inside it
    let c = config_with(vec![("dir:/work", Some("Worker"), None)]);
    let r = c.resolve(&some("/work-other"), &None);
    assert_eq!(r.author_name, "Base");
    assert_eq!(r.author_email, some("base@x"));
}

#[test]
fn resolve_sibling_directory_gets_no_override() {
    let mut c = config_with(vec![("dir:/home/u/work", Some("Work"), None)]);
    c.author_name = "Me".to_string();
    c.author_email = None;
    let r = c.resolve(&some("/home/u/workshop"), &some("/home/u"));
    assert_eq!(r.author_name, "Me");
    assert_eq!(r.author_email, None);
    let r = c.resolve(&some("/home/u/work/site"), &some("/home/u"));
    assert_eq!(r.author_name, "Work");
    let c2 = config_with(vec![("dir:~/work", Some("Work"), None)]);
    let r = c2.resolve(&some("/home/u/workshop"), &some("/home/u"));
    assert_eq!(r.author_name, "Base");
    let r = c2.resolve(&some("/home/u/work"), &some("/home/u"));
    assert_eq!(r.author_name, "Work");
}

#[test]
fn resolve_components_without_text_prefix() {
    // "/work/" as a pattern: "/work" lies under it by components, not by text
    let c = config_with(vec![("dir:/work/", Some("Worker"), None)]);
    let r = c.resolve(&some("/work"), &None);
    assert_eq!(r.author_name, "Worker");
}

#[test]
fn resolve_ignores_other_conditions() {
    let c = config_with(vec![("gitdir:/", Some("Git"), None), ("/", Some("Bare"), None)]);
    let r = c.resolve(&some("/anything"), &None);
    assert_eq!(r.author_name, "Base");
}

#[test]
fn resolve_last_override_wins() {
    let c = config_with(vec![("dir:/a", Some("First"), Some("f@x")), ("dir:/a/b", Some("Second"), None)]);
    let r = c.resolve(&some("/a/b/c"), &None);
    assert_eq!(r.author_name, "Second");
    assert_eq!(r.author_email, some("f@x"));
}

#[test]
fn resolve_expands_home() {
    let c = config_with(vec![("dir:~/code", Some("Coder"), None)]);
    let r = c.resolve(&some("/home/u/code/x"), &some("/home/u"));
    assert_eq!(r.author_name, "Coder");
    let r = c.resolve(&some("/home/u/code/x"), &None);
    assert_eq!(r.author_name, "Base");
}

#[test]
fn expand_home_cases() {
    assert_eq!(expand_home("~/code", &some("/home/u")), "/home/u/code");
    assert_eq!(expand_home("~/code", &None), "~/code");
    assert_eq!(expand_home("/abs", &some("/home/u")), "/abs");
    assert_eq!(expand_home("~code", &some("/home/u")), "~code");
}

#[test]
fn expand_home_twice_is_once() {
    for p in ["~/code", "~/~/x", "/abs", "~code", "~/"] {
        for home in [None, some("/home/u"), some("/")] {
            let once = expand_home(p, &home);
            assert_eq!(expand_home(&once, &home), once);
        }
    }
}
