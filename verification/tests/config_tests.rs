use sparkle::config::{Action, Config, ConfigError, Filter};

#[test]
fn test_config_new_valid_toml() {
    let toml_content = r#"
[[rules]]
name = "test_rule"
locations = ["/tmp"]
subfolders = true
filters = [
    { extension = "txt" }
]
actions = [
    { echo = "Found file" }
]
"#;

    let config = Config::new(toml_content).unwrap();

    assert_eq!(config.rules.len(), 1);
    assert_eq!(config.rules[0].name, "test_rule");
    assert_eq!(config.rules[0].locations.len(), 1);
    assert!(config.rules[0].subfolders);
    assert_eq!(config.rules[0].filters.len(), 1);
    assert_eq!(config.rules[0].actions.len(), 1);
}

#[test]
fn test_config_new_invalid_toml() {
    let invalid_toml = "invalid toml content [[[";

    let result = Config::new(invalid_toml);
    assert!(result.is_err());
}

#[test]
fn test_config_new_nonexistent_file() {
    let result = Config::new("/nonexistent/path/config.toml");
    assert!(result.is_err());
}

#[test]
fn test_config_new_empty_rules() {
    let toml_content = r#"
rules = []
"#;

    let config = Config::new(toml_content).unwrap();

    assert_eq!(config.rules.len(), 0);
}

#[test]
fn test_filter_variants() {
    let toml_content = r#"
[[rules]]
name = "multi_filter_rule"
locations = ["/tmp"]
subfolders = false
filters = [
    { extension = "log" },
    { size_gt = 1024, size_lt = 1048576 },
    { days_older_than = 30 },
    { name_contains = "backup" }
]
actions = [
    { echo = "Processing" }
]
"#;

    let config = Config::new(toml_content).unwrap();

    assert_eq!(config.rules[0].filters.len(), 4);

    match &config.rules[0].filters[0] {
        Filter::Extension { extension } => assert_eq!(extension, "log"),
        _ => panic!("Expected Extension filter"),
    }

    match &config.rules[0].filters[3] {
        Filter::NameContains { name_contains } => assert_eq!(name_contains, "backup"),
        _ => panic!("Expected NameContains filter"),
    }
}

#[test]
fn test_size_filter_bounds_parsed() {
    let toml_content = r#"
[[rules]]
name = "sizes"
locations = ["/tmp"]
subfolders = false
filters = [
    { size_gt = 100 },
    { size_lt = 200 }
]
actions = [ "delete" ]
"#;

    let config = Config::new(toml_content).unwrap();
    match &config.rules[0].filters[0] {
        Filter::Size { size_gt, size_lt } => {
            assert_eq!(*size_gt, Some(100));
            assert_eq!(*size_lt, None);
        }
        _ => panic!("Expected Size filter"),
    }
    match &config.rules[0].filters[1] {
        Filter::Size { size_gt, size_lt } => {
            assert_eq!(*size_gt, None);
            assert_eq!(*size_lt, Some(200));
        }
        _ => panic!("Expected Size filter"),
    }
    match &config.rules[0].actions[0] {
        Action::Delete => {}
        _ => panic!("Expected Delete action"),
    }
}

#[test]
fn test_all_action_kinds_parsed() {
    let toml_content = r#"
[[rules]]
name = "action_kinds"
locations = ["/tmp"]
subfolders = false
filters = [{ extension = "tmp" }]
actions = [
    { echo = "Test message" },
    { move = "/archive" },
    { copy = "/backup" },
    "delete",
    { rename = { pattern = "old", replacement = "new" } }
]
"#;

    let config = Config::new(toml_content).unwrap();
    let actions = &config.rules[0].actions;
    assert_eq!(actions.len(), 5);
    match &actions[0] {
        Action::Echo(msg) => assert_eq!(msg, "Test message"),
        _ => panic!("Expected Echo action"),
    }
    match &actions[1] {
        Action::Move(d) => assert_eq!(d, "/archive"),
        _ => panic!("Expected Move action"),
    }
    match &actions[2] {
        Action::Copy(d) => assert_eq!(d, "/backup"),
        _ => panic!("Expected Copy action"),
    }
    assert!(matches!(&actions[3], Action::Delete));
    match &actions[4] {
        Action::Rename { pattern, replacement } => {
            assert_eq!(pattern, "old");
            assert_eq!(replacement, "new");
        }
        _ => panic!("Expected Rename action"),
    }
}

#[test]
fn test_config_error_kinds() {
    assert_eq!(Config::new("not [ toml").unwrap_err(), ConfigError::Parse);
    assert_eq!(Config::new("rules = 3").unwrap_err(), ConfigError::Shape);
    assert_eq!(Config::new("a = 1").unwrap_err(), ConfigError::Shape);
    let missing_name = r#"
[[rules]]
locations = ["/tmp"]
subfolders = false
filters = []
actions = []
"#;
    assert_eq!(Config::new(missing_name).unwrap_err(), ConfigError::Shape);
    let unknown_filter = r#"
[[rules]]
name = "r"
locations = ["/tmp"]
subfolders = false
filters = [ { frobnicate = 1 } ]
actions = []
"#;
    assert_eq!(Config::new(unknown_filter).unwrap_err(), ConfigError::Shape);
}
