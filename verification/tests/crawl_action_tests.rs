use sparkle::config::{Action, Config, Filter, Rule};
use sparkle::crawl::{matches_filters, search_dir};
use sparkle::file_detector::SniffReport;
use sparkle::file_metadata::{FileFacts, FileMetadata};
use sparkle::fs_model::{EntryInfo, FsModel};
use sparkle::handlers::action::{run, ActionError, Effect};
use sparkle::metrics::Payload;
use sparkle::utils::{copy_file, move_file};

fn facts(size: u64, modified_secs: Option<u64>) -> FileFacts {
    FileFacts {
        size,
        modified_secs,
        created_secs: None,
        accessed_secs: None,
        mode: 0o644,
        is_file: true,
        is_dir: false,
        is_symlink: false,
        sniff: SniffReport::Unreadable,
    }
}

fn file(size: u64) -> EntryInfo {
    EntryInfo::File(facts(size, Some(0)))
}

fn echo_rule(location: &str, extension: &str) -> Rule {
    Rule {
        name: "echo_test".to_string(),
        locations: vec![location.to_string()],
        subfolders: false,
        filters: vec![Filter::Extension { extension: extension.to_string() }],
        actions: vec![Action::Echo("Found file".to_string())],
    }
}

fn empty_config() -> Config {
    Config { rules: Vec::new() }
}

#[test]
fn test_basic_workflow_with_echo_action() {
    let config_content = r#"
[[rules]]
name = "echo_test"
locations = ["/t"]
subfolders = false
filters = [
    { extension = "txt" }
]
actions = [
    { echo = "Found text file" }
]
"#;
    let config = Config::new(config_content).unwrap();
    let rule = &config.rules[0];

    let mut fs = FsModel::new();
    fs.put("/t", EntryInfo::Dir);
    fs.put("/t/test.txt", file(12));

    let mut effects: Vec<Effect> = Vec::new();
    let results = search_dir(&mut fs, "/t", &config, rule, true, false, "/t", 0, &mut effects)
        .unwrap();

    assert_eq!(results.len(), 1);
    assert_eq!(results[0].path, "/t/test.txt");
    assert!(fs.get("/t/test.txt").is_some());
    assert!(matches!(&effects[0], Effect::Echoed(m) if m == "Found text file"));
}

#[test]
fn test_workflow_with_multiple_file_types() {
    let config_content = r#"
[[rules]]
name = "code_files"
locations = ["/t"]
subfolders = false
filters = [
    { extension = "rs" }
]
actions = [
    { echo = "Found Rust file" }
]

[[rules]]
name = "config_files"
locations = ["/t"]
subfolders = false
filters = [
    { extension = "yml" }
]
actions = [
    { echo = "Found config file" }
]
"#;
    let config = Config::new(config_content).unwrap();

    let mut fs = FsModel::new();
    fs.put("/t", EntryInfo::Dir);
    fs.put("/t/code.rs", file(12));
    fs.put("/t/config.yml", file(10));
    fs.put("/t/readme.md", file(7));
    fs.put("/t/ignored.xyz", file(7));

    let mut effects: Vec<Effect> = Vec::new();
    let rust_results =
        search_dir(&mut fs, "/t", &config, &config.rules[0], true, false, "/t", 0, &mut effects)
            .unwrap();
    let yml_results =
        search_dir(&mut fs, "/t", &config, &config.rules[1], true, false, "/t", 0, &mut effects)
            .unwrap();

    assert_eq!(rust_results.len(), 1);
    assert!(rust_results[0].path == "/t/code.rs");

    assert_eq!(yml_results.len(), 1);
    assert!(yml_results[0].path == "/t/config.yml");
}

#[test]
fn test_workflow_empty_directory() {
    let mut fs = FsModel::new();
    fs.put("/t", EntryInfo::Dir);

    let config = empty_config();
    let rule = echo_rule("/t", "txt");
    let mut effects: Vec<Effect> = Vec::new();
    let results =
        search_dir(&mut fs, "/t", &config, &rule, true, false, "/t", 0, &mut effects).unwrap();

    assert_eq!(results.len(), 0);
}

#[test]
fn test_workflow_nonexistent_directory() {
    let mut fs = FsModel::new();

    let config = empty_config();
    let rule = echo_rule("/nonexistent/directory", "txt");
    let mut effects: Vec<Effect> = Vec::new();
    let results = search_dir(
        &mut fs,
        "/nonexistent/directory",
        &config,
        &rule,
        true,
        false,
        "/nonexistent/directory",
        0,
        &mut effects,
    )
    .unwrap();

    assert_eq!(results.len(), 0);
    assert!(effects.is_empty());
}

fn sample_metadata(size: u64, age_secs: u64) -> FileMetadata {
    let now = age_secs;
    FileMetadata::build("/t/sample.bin", &facts(size, Some(0)), now).unwrap()
}

#[test]
fn test_empty_filter_list_matches_nothing() {
    let md = sample_metadata(150, 0);
    let filters: Vec<Filter> = Vec::new();
    assert!(!matches_filters("/t/sample.bin", &md, &filters));
}

#[test]
fn test_size_filter_strict_bounds() {
    let f = vec![Filter::Size { size_gt: Some(100), size_lt: Some(200) }];
    assert!(matches_filters("/t/a.bin", &sample_metadata(150, 0), &f));
    assert!(!matches_filters("/t/a.bin", &sample_metadata(100, 0), &f));
    assert!(!matches_filters("/t/a.bin", &sample_metadata(200, 0), &f));
}

#[test]
fn test_age_and_name_filters() {
    let day = 86_400u64;
    let old_enough = sample_metadata(10, 8 * day);
    let too_young = sample_metadata(10, 6 * day);
    let age = vec![Filter::Age { days_older_than: Some(7) }];
    assert!(matches_filters("/t/a.bin", &old_enough, &age));
    assert!(!matches_filters("/t/a.bin", &too_young, &age));
    // Whole days decide: a file into its eighth day but not yet past it is
    // still 7 whole days old and does not match "older than 7 days".
    let partial_day = sample_metadata(10, 7 * day + 1);
    assert!(!matches_filters("/t/a.bin", &partial_day, &age));
    let exactly_eight = sample_metadata(10, 8 * day);
    assert!(matches_filters("/t/a.bin", &exactly_eight, &age));
    let absent = vec![Filter::Age { days_older_than: None }];
    assert!(!matches_filters("/t/a.bin", &old_enough, &absent));

    let name = vec![Filter::NameContains { name_contains: "backup".to_string() }];
    assert!(matches_filters("/t/my-backup-1.bin", &old_enough, &name));
    assert!(!matches_filters("/t/a.bin", &old_enough, &name));
    assert!(!matches_filters("/backup/a.bin", &old_enough, &name));
}

fn rename_action(replacement: &str) -> Vec<Action> {
    vec![Action::Rename { pattern: String::new(), replacement: replacement.to_string() }]
}

#[test]
fn test_rename_round_trip() {
    let mut fs = FsModel::new();
    fs.put("/d", EntryInfo::Dir);
    fs.put("/d/a.log", file(5));

    let mut effects: Vec<Effect> = Vec::new();
    let r = run(&rename_action("x.txt"), "/d/a.log", &mut fs, 7, false, &mut effects);
    assert!(r.is_ok());

    assert!(fs.get("/d/a.log").is_none());
    assert!(matches!(fs.get("/d/x.txt"), Some(EntryInfo::File(f)) if f.size == 5));
    let occurrences = fs.entries.iter().filter(|e| e.path == "/d/x.txt").count();
    assert_eq!(occurrences, 1);
    assert!(matches!(&effects[0], Effect::Renamed { from, to } if from == "/d/a.log" && to == "/d/x.txt"));
}

#[test]
fn test_rename_collision_uses_timestamped_name() {
    let mut fs = FsModel::new();
    fs.put("/d", EntryInfo::Dir);
    fs.put("/d/a.log", file(5));
    fs.put("/d/x.txt", file(99));

    let mut effects: Vec<Effect> = Vec::new();
    let r = run(&rename_action("x.txt"), "/d/a.log", &mut fs, 1699999999123, false, &mut effects);
    assert!(r.is_ok());

    // The new name embeds the millisecond timestamp and keeps the source's
    // extension; the pre-existing x.txt is untouched and the source is gone.
    assert!(matches!(fs.get("/d/x1699999999123.log"), Some(EntryInfo::File(f)) if f.size == 5));
    assert!(matches!(fs.get("/d/x.txt"), Some(EntryInfo::File(f)) if f.size == 99));
    assert!(fs.get("/d/a.log").is_none());
}

#[test]
fn test_rename_double_collision_appends_suffix() {
    let mut fs = FsModel::new();
    fs.put("/d", EntryInfo::Dir);
    fs.put("/d/a.log", file(5));
    fs.put("/d/x.txt", file(99));
    fs.put("/d/x7.log", file(98));

    let mut effects: Vec<Effect> = Vec::new();
    let r = run(&rename_action("x.txt"), "/d/a.log", &mut fs, 7, false, &mut effects);
    assert!(r.is_ok());

    // x.txt and x7.log are taken, so the name grows until it is free.
    assert!(matches!(fs.get("/d/x70.log"), Some(EntryInfo::File(f)) if f.size == 5));
    assert!(matches!(fs.get("/d/x7.log"), Some(EntryInfo::File(f)) if f.size == 98));
    assert!(fs.get("/d/a.log").is_none());
}

#[test]
fn test_rename_at_top_level() {
    // A path without a separator has an empty parent directory; the target
    // is then the bare replacement name.
    let mut fs = FsModel::new();
    fs.put("a.log", file(5));

    let mut effects: Vec<Effect> = Vec::new();
    let r = run(&rename_action("x.txt"), "a.log", &mut fs, 7, false, &mut effects);
    assert!(r.is_ok());
    assert!(fs.get("a.log").is_none());
    assert!(matches!(fs.get("x.txt"), Some(EntryInfo::File(f)) if f.size == 5));
}

#[test]
fn test_rename_collision_without_source_extension() {
    // A source without an extension gets no trailing dot in the
    // disambiguated name.
    let mut fs = FsModel::new();
    fs.put("/d", EntryInfo::Dir);
    fs.put("/d/notes", file(5));
    fs.put("/d/x.txt", file(99));

    let mut effects: Vec<Effect> = Vec::new();
    let r = run(&rename_action("x.txt"), "/d/notes", &mut fs, 42, false, &mut effects);
    assert!(r.is_ok());
    assert!(matches!(fs.get("/d/x42"), Some(EntryInfo::File(f)) if f.size == 5));
    assert!(fs.get("/d/notes").is_none());
}

#[test]
fn test_move_missing_destination_fails_closed() {
    let mut fs = FsModel::new();
    fs.put("/d", EntryInfo::Dir);
    fs.put("/d/a.txt", file(5));

    let actions = vec![Action::Move("/archive".to_string())];
    let mut effects: Vec<Effect> = Vec::new();
    let r = run(&actions, "/d/a.txt", &mut fs, 0, false, &mut effects);
    match r {
        Err(ActionError::DestinationMissing(d)) => assert_eq!(d, "/archive"),
        _ => panic!("expected DestinationMissing"),
    }
    // The source file is left in place and nothing was recorded.
    assert!(matches!(fs.get("/d/a.txt"), Some(EntryInfo::File(f)) if f.size == 5));
    assert!(effects.is_empty());
}

#[test]
fn test_move_and_copy_relocate_files() {
    let mut fs = FsModel::new();
    fs.put("/d", EntryInfo::Dir);
    fs.put("/dest", EntryInfo::Dir);
    fs.put("/d/a.txt", file(5));
    fs.put("/d/b.txt", file(6));

    assert!(move_file(&mut fs, "/d/a.txt", "/dest", false).is_ok());
    assert!(fs.get("/d/a.txt").is_none());
    assert!(matches!(fs.get("/dest/a.txt"), Some(EntryInfo::File(f)) if f.size == 5));

    let copied = copy_file(&mut fs, "/d/b.txt", "/dest", false).unwrap();
    assert_eq!(copied, 6);
    assert!(matches!(fs.get("/d/b.txt"), Some(EntryInfo::File(f)) if f.size == 6));
    assert!(matches!(fs.get("/dest/b.txt"), Some(EntryInfo::File(f)) if f.size == 6));
}

#[test]
fn test_move_file_error_kinds() {
    let mut fs = FsModel::new();
    fs.put("/d", EntryInfo::Dir);
    fs.put("/dest", EntryInfo::Dir);

    match move_file(&mut fs, "/d", "/dest", false) {
        Err(ActionError::IsADirectory(p)) => assert_eq!(p, "/d"),
        _ => panic!("expected IsADirectory"),
    }
    match move_file(&mut fs, "/d/", "/dest", false) {
        Err(ActionError::NoFileName(p)) => assert_eq!(p, "/d/"),
        _ => panic!("expected NoFileName"),
    }
    match move_file(&mut fs, "/d/missing.txt", "/dest", false) {
        Err(ActionError::Io(p)) => assert_eq!(p, "/d/missing.txt"),
        _ => panic!("expected Io"),
    }
}

#[test]
fn test_move_and_copy_fail_closed_on_file_destination() {
    let mut fs = FsModel::new();
    fs.put("/d", EntryInfo::Dir);
    fs.put("/d/a.txt", file(5));
    fs.put("/d/blob", file(9));

    // The destination exists but is a regular file: both operations fail
    // before any change.
    match move_file(&mut fs, "/d/a.txt", "/d/blob", false) {
        Err(ActionError::Io(p)) => assert_eq!(p, "/d/blob"),
        _ => panic!("expected Io"),
    }
    match copy_file(&mut fs, "/d/a.txt", "/d/blob", false) {
        Err(ActionError::Io(p)) => assert_eq!(p, "/d/blob"),
        _ => panic!("expected Io"),
    }
    assert!(matches!(fs.get("/d/a.txt"), Some(EntryInfo::File(f)) if f.size == 5));
    assert!(matches!(fs.get("/d/blob"), Some(EntryInfo::File(f)) if f.size == 9));

    let actions = vec![Action::Move("/d/blob".to_string())];
    let mut effects: Vec<Effect> = Vec::new();
    let r = run(&actions, "/d/a.txt", &mut fs, 0, false, &mut effects);
    assert!(matches!(r, Err(ActionError::Io(_))));
    assert!(effects.is_empty());
}

#[test]
fn test_delete_action() {
    let mut fs = FsModel::new();
    fs.put("/d", EntryInfo::Dir);
    fs.put("/d/a.txt", file(5));

    let actions = vec![Action::Delete];
    let mut effects: Vec<Effect> = Vec::new();
    assert!(run(&actions, "/d/a.txt", &mut fs, 0, false, &mut effects).is_ok());
    assert!(fs.get("/d/a.txt").is_none());
    assert!(matches!(&effects[0], Effect::Deleted(p) if p == "/d/a.txt"));

    // Deleting what is no longer there fails.
    let r = run(&actions, "/d/a.txt", &mut fs, 0, false, &mut effects);
    assert!(matches!(r, Err(ActionError::Io(_))));
}

#[test]
fn test_first_failure_stops_the_list() {
    let mut fs = FsModel::new();
    fs.put("/d", EntryInfo::Dir);
    fs.put("/d/a.txt", file(5));

    let actions = vec![
        Action::Echo("before".to_string()),
        Action::Move("/missing".to_string()),
        Action::Delete,
    ];
    let mut effects: Vec<Effect> = Vec::new();
    let r = run(&actions, "/d/a.txt", &mut fs, 0, false, &mut effects);
    assert!(matches!(r, Err(ActionError::DestinationMissing(_))));
    // The echo before the failure ran; the delete after it did not.
    assert_eq!(effects.len(), 1);
    assert!(matches!(&effects[0], Effect::Echoed(m) if m == "before"));
    assert!(fs.get("/d/a.txt").is_some());
}

#[test]
fn test_dry_run_records_but_does_not_mutate() {
    let mut fs = FsModel::new();
    fs.put("/d", EntryInfo::Dir);
    fs.put("/d/a.txt", file(5));

    let actions = vec![Action::Delete];
    let mut effects: Vec<Effect> = Vec::new();
    assert!(run(&actions, "/d/a.txt", &mut fs, 0, true, &mut effects).is_ok());
    assert!(fs.get("/d/a.txt").is_some());
    assert!(matches!(&effects[0], Effect::Deleted(p) if p == "/d/a.txt"));
}

#[test]
fn test_dry_run_crawl_leaves_the_model_untouched() {
    let mut fs = FsModel::new();
    fs.put("/t", EntryInfo::Dir);
    fs.put("/t/a.txt", file(5));

    let config = empty_config();
    let mut rule = echo_rule("/t", "txt");
    rule.actions = vec![Action::Delete];

    let mut effects: Vec<Effect> = Vec::new();
    let results =
        search_dir(&mut fs, "/t", &config, &rule, true, true, "/t", 0, &mut effects).unwrap();
    assert_eq!(results.len(), 1);
    assert!(fs.get("/t/a.txt").is_some());
    assert!(matches!(&effects[0], Effect::Deleted(p) if p == "/t/a.txt"));
}

#[test]
fn test_unreadable_sibling_does_not_hide_matches() {
    let mut fs = FsModel::new();
    fs.put("/t", EntryInfo::Dir);
    fs.put("/t/bad", EntryInfo::UnreadableEntry);
    fs.put("/t/a.txt", file(5));

    let config = empty_config();
    let rule = echo_rule("/t", "txt");
    let mut effects: Vec<Effect> = Vec::new();
    let results =
        search_dir(&mut fs, "/t", &config, &rule, false, false, "/t", 0, &mut effects).unwrap();

    assert_eq!(results.len(), 1);
    assert_eq!(results[0].path, "/t/a.txt");
    assert!(effects.iter().any(|e| matches!(e, Effect::Warned(p) if p == "/t/bad")));
}

#[test]
fn test_subfolders_flag_controls_recursion() {
    let mut fs = FsModel::new();
    fs.put("/t", EntryInfo::Dir);
    fs.put("/t/sub", EntryInfo::Dir);
    fs.put("/t/sub/b.txt", file(5));

    let config = empty_config();
    let mut rule = echo_rule("/t", "txt");

    let mut effects: Vec<Effect> = Vec::new();
    let shallow =
        search_dir(&mut fs, "/t", &config, &rule, true, false, "/t", 0, &mut effects).unwrap();
    assert_eq!(shallow.len(), 0);

    rule.subfolders = true;
    let deep =
        search_dir(&mut fs, "/t", &config, &rule, true, false, "/t", 0, &mut effects).unwrap();
    assert_eq!(deep.len(), 1);
    assert_eq!(deep[0].path, "/t/sub/b.txt");
    assert_eq!(deep[0].parent_dir, "/t/sub");
    assert_eq!(deep[0].base_dir, "/t");
}

#[test]
fn test_unlistable_root_warns_and_returns_empty() {
    let mut fs = FsModel::new();
    fs.put("/locked", EntryInfo::UnlistableDir);

    let config = empty_config();
    let rule = echo_rule("/locked", "txt");
    let mut effects: Vec<Effect> = Vec::new();
    let results =
        search_dir(&mut fs, "/locked", &config, &rule, false, false, "/locked", 0, &mut effects)
            .unwrap();
    assert_eq!(results.len(), 0);
    assert!(matches!(&effects[0], Effect::Warned(p) if p == "/locked"));
}

#[test]
fn test_failed_actions_skip_the_file_but_not_the_crawl() {
    let mut fs = FsModel::new();
    fs.put("/t", EntryInfo::Dir);
    fs.put("/t/a.txt", file(5));
    fs.put("/t/b.txt", file(6));

    let config = empty_config();
    let mut rule = echo_rule("/t", "txt");
    // Moving to a missing destination fails for every matched file.
    rule.actions = vec![Action::Move("/missing".to_string())];

    let mut effects: Vec<Effect> = Vec::new();
    let results =
        search_dir(&mut fs, "/t", &config, &rule, true, false, "/t", 0, &mut effects).unwrap();
    assert_eq!(results.len(), 0);
    // Both files were visited and warned about.
    let warned = effects.iter().filter(|e| matches!(e, Effect::Warned(_))).count();
    assert_eq!(warned, 2);
}

#[test]
fn test_extension_rule_end_to_end() {
    let mut fs = FsModel::new();
    fs.put("/t", EntryInfo::Dir);
    fs.put("/t/a.txt", file(3));
    fs.put("/t/b.rs", file(4));
    fs.put("/t/c.unknownext", file(5));

    let config = empty_config();
    let mut rule = echo_rule("/t", "txt");
    rule.actions = vec![Action::Echo("found".to_string())];

    let mut effects: Vec<Effect> = Vec::new();
    let results =
        search_dir(&mut fs, "/t", &config, &rule, true, false, "/t", 0, &mut effects).unwrap();

    assert_eq!(results.len(), 1);
    assert!(results[0].path.ends_with("a.txt"));
    assert!(matches!(&effects[0], Effect::Echoed(m) if m == "found"));
    assert_eq!(effects.len(), 1);
}

#[test]
fn test_payload_new() {
    let _p = Payload::new();
}
