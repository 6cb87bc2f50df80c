use qn_changelog::config::{
    compare_branches, config_path, config_prefix, select_token, OutputFormat, UNKNOWN_OUTPUT_FORMAT,
};

#[test]
fn output_format_names() {
    assert_eq!(OutputFormat::from_name("html"), Ok(OutputFormat::Html));
    assert_eq!(OutputFormat::from_name("jira"), Ok(OutputFormat::Jira));
    assert_eq!(OutputFormat::from_name("markdown"), Ok(OutputFormat::Markdown));
}

#[test]
fn output_format_unknown_names() {
    assert_eq!(OutputFormat::from_name("Markdown"), Err("unknown output format"));
    assert_eq!(OutputFormat::from_name(""), Err(UNKNOWN_OUTPUT_FORMAT));
    assert_eq!(OutputFormat::from_name("md"), Err("unknown output format"));
    assert_eq!(OutputFormat::from_name("jira "), Err("unknown output format"));
}

#[test]
fn output_format_from_str() {
    assert_eq!("jira".parse::<OutputFormat>(), Ok(OutputFormat::Jira));
    assert_eq!("html".parse::<OutputFormat>(), Ok(OutputFormat::Html));
    assert_eq!("text".parse::<OutputFormat>(), Err("unknown output format"));
}

#[test]
fn preference_paths() {
    assert_eq!(config_prefix("/home/alice"), "/home/alice/.qn-changelog");
    assert_eq!(config_path("/home/alice"), "/home/alice/.qn-changelog/config.json");
    assert_eq!(config_path("/root/"), "/root/.qn-changelog/config.json");
}

#[test]
fn token_on_command_line_wins_and_is_saved() {
    assert_eq!(select_token(Some("saved"), Some("given".to_string())), Some(("given".to_string(), true)));
    assert_eq!(select_token(None, Some("given".to_string())), Some(("given".to_string(), true)));
}

#[test]
fn saved_token_is_used_when_none_given() {
    assert_eq!(select_token(Some("saved"), None), Some(("saved".to_string(), false)));
    assert_eq!(select_token(None, None), None);
}

#[test]
fn hotfix_swaps_branches() {
    assert_eq!(
        compare_branches("master".to_string(), "develop".to_string(), false),
        ("master".to_string(), "develop".to_string())
    );
    assert_eq!(
        compare_branches("master".to_string(), "develop".to_string(), true),
        ("develop".to_string(), "master".to_string())
    );
}
