use qn_changelog::text::{join_path, parse_usize, str_contains, str_equal, usize_to_decimal};

#[test]
fn contains_finds_substrings() {
    assert!(str_contains("fix ABC-12 crash", "ABC-12"));
    assert!(str_contains("ABC-12", "ABC-12"));
    assert!(!str_contains("ABC-1", "ABC-12"));
    assert!(!str_contains("fix abc-12", "ABC-12"));
}

#[test]
fn contains_empty_needle_and_unicode() {
    assert!(str_contains("", ""));
    assert!(str_contains("anything", ""));
    assert!(!str_contains("", "a"));
    assert!(str_contains("修复 ABC-1 问题", "ABC-1 问"));
    assert!(str_contains("naïve", "ïv"));
}

#[test]
fn equal_compares_characters() {
    assert!(str_equal("jira", "jira"));
    assert!(!str_equal("jira", "Jira"));
    assert!(!str_equal("jira", "jir"));
    assert!(str_equal("", ""));
}

#[test]
fn decimal_notation() {
    assert_eq!(usize_to_decimal(0), "0");
    assert_eq!(usize_to_decimal(7), "7");
    assert_eq!(usize_to_decimal(10), "10");
    assert_eq!(usize_to_decimal(12345), "12345");
    assert_eq!(usize_to_decimal(usize::MAX), usize::MAX.to_string());
}

#[test]
fn parse_decimal_numbers() {
    assert_eq!(parse_usize("42"), Some(42));
    assert_eq!(parse_usize("007"), Some(7));
    assert_eq!(parse_usize("+7"), Some(7));
    assert_eq!(parse_usize(&usize::MAX.to_string()), Some(usize::MAX));
}

#[test]
fn parse_decimal_refusals_match_std() {
    for s in ["", "+", "-1", "12a", " 1", "1 ", "++1", "١٢", "99999999999999999999999"] {
        assert_eq!(parse_usize(s), s.parse::<usize>().ok(), "input {:?}", s);
        assert_eq!(parse_usize(s), None);
    }
}

#[test]
fn parse_reads_back_decimal() {
    for n in [0usize, 1, 9, 10, 99, 100, 4096, 1234567, usize::MAX - 1, usize::MAX] {
        assert_eq!(parse_usize(&usize_to_decimal(n)), Some(n));
    }
}

#[test]
fn path_join_like_pathbuf_push() {
    assert_eq!(join_path("/home/u", ".qn-changelog"), "/home/u/.qn-changelog");
    assert_eq!(join_path("/home/u/", ".qn-changelog"), "/home/u/.qn-changelog");
    assert_eq!(join_path("/", "config.json"), "/config.json");
    assert_eq!(join_path("", "config.json"), "config.json");
    let mut p = std::path::PathBuf::from("/home/u");
    p.push(".qn-changelog");
    assert_eq!(join_path("/home/u", ".qn-changelog"), p.to_str().unwrap());
}
