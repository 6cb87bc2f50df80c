use qn_changelog::format::FormatterContext;
use qn_changelog::preference::{LdapMap, UserPreference};

fn names(pairs: &[(&str, &str)]) -> LdapMap {
    let mut m = LdapMap::new();
    for (k, v) in pairs {
        m.insert(k.to_string(), v.to_string());
    }
    m
}

#[test]
fn ldap_map_reads_back_what_was_set() {
    let m = names(&[("octocat", "cat"), ("alice", "ali")]);
    assert_eq!(m.get("octocat").map(|s| s.as_str()), Some("cat"));
    assert_eq!(m.get("alice").map(|s| s.as_str()), Some("ali"));
    assert_eq!(m.get("bob"), None);
    assert_eq!(m.get("Octocat"), None);
}

#[test]
fn ldap_map_insert_replaces() {
    let mut m = names(&[("octocat", "cat"), ("alice", "ali")]);
    m.insert("octocat".to_string(), "kitty".to_string());
    assert_eq!(m.get("octocat").map(|s| s.as_str()), Some("kitty"));
    assert_eq!(m.get("alice").map(|s| s.as_str()), Some("ali"));
    assert_eq!(m.pairs().len(), 2);
}

#[test]
fn ldap_map_clone_keeps_entries() {
    let m = names(&[("a", "1"), ("b", "2")]);
    let c = m.clone();
    assert_eq!(c.get("a").map(|s| s.as_str()), Some("1"));
    assert_eq!(c.get("b").map(|s| s.as_str()), Some("2"));
    assert_eq!(c.pairs(), m.pairs());
}

#[test]
fn default_preferences_are_empty() {
    let p = UserPreference::default();
    assert_eq!(p.token(), None);
    assert!(p.github_ldap_map().is_none());
    assert_eq!(p.github_id_to_ldap("octocat"), None);
}

#[test]
fn set_token_then_token() {
    let mut p = UserPreference::default();
    p.set_token("tok1");
    assert_eq!(p.token(), Some("tok1"));
    p.set_token("tok2");
    assert_eq!(p.token(), Some("tok2"));
    let q = p.clone();
    assert_eq!(q.token(), Some("tok2"));
}

#[test]
fn ldap_names_from_preferences() {
    let p = UserPreference::new(Some("t".to_string()), Some(names(&[("octocat", "cat")])));
    assert_eq!(p.github_id_to_ldap("octocat"), Some("cat".to_string()));
    assert_eq!(p.github_id_to_ldap("other"), None);
    let mut q = p.clone();
    q.set_token("u");
    assert_eq!(q.github_id_to_ldap("octocat"), Some("cat".to_string()));
}
