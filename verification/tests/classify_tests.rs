use sparkle::file_detector::{get_age_category, get_file_size_category, get_file_type};
use sparkle::file_metadata::{AgeCategory, FileFacts, FileMetadata, FileMetadataError, FileType, SizeCategory};
use sparkle::file_detector::SniffReport;

#[test]
fn test_get_file_type_by_extension() {
    assert_eq!(get_file_type("test.java"), FileType::Code);
    assert_eq!(get_file_type("test.rs"), FileType::Code);
    assert_eq!(get_file_type("test.js"), FileType::Code);
    assert_eq!(get_file_type("test.go"), FileType::Code);
    assert_eq!(get_file_type("test.rb"), FileType::Code);
    assert_eq!(get_file_type("test.ex"), FileType::Code);
}

#[test]
fn test_get_file_type_documents() {
    assert_eq!(get_file_type("readme.md"), FileType::Document);
}

#[test]
fn test_get_file_type_configuration() {
    assert_eq!(get_file_type("config.yml"), FileType::Configuration);
    assert_eq!(get_file_type("config.yaml"), FileType::Configuration);
    assert_eq!(get_file_type("config.toml"), FileType::Configuration);
}

#[test]
fn test_get_file_type_text() {
    assert_eq!(get_file_type("notes.txt"), FileType::Text);
}

#[test]
fn test_get_file_type_unknown() {
    assert_eq!(get_file_type("file.xyz"), FileType::Unknown);
    assert_eq!(get_file_type("no_extension"), FileType::Unknown);
}

#[test]
fn test_get_file_type_case_insensitive() {
    assert_eq!(get_file_type("TEST.JAVA"), FileType::Code);
    assert_eq!(get_file_type("Config.YML"), FileType::Configuration);
}

#[test]
fn test_get_file_type_by_mime_guess() {
    // None of these extensions is in the code-extension table, so the MIME
    // guess decides.
    assert_eq!(get_file_type("photo.gif"), FileType::Image);
    assert_eq!(get_file_type("photo.jpeg"), FileType::Image);
    assert_eq!(get_file_type("paper.pdf"), FileType::Document);
    // A known MIME type that the classifier's table does not map.
    assert_eq!(get_file_type("archive.zip"), FileType::Unknown);
}

#[test]
fn test_get_file_size_category_with_test_files() {
    assert!(matches!(get_file_size_category(512), SizeCategory::Tiny));
    assert!(matches!(get_file_size_category(5000), SizeCategory::Small));
    assert!(matches!(get_file_size_category(5_000_000), SizeCategory::Medium));
}

#[test]
fn test_size_category_boundaries() {
    assert_eq!(get_file_size_category(0), SizeCategory::Tiny);
    assert_eq!(get_file_size_category(1023), SizeCategory::Tiny);
    assert_eq!(get_file_size_category(1024), SizeCategory::Small);
    assert_eq!(get_file_size_category(1_048_576), SizeCategory::Small);
    assert_eq!(get_file_size_category(1_048_577), SizeCategory::Medium);
    assert_eq!(get_file_size_category(104_857_600), SizeCategory::Medium);
    assert_eq!(get_file_size_category(104_857_601), SizeCategory::Large);
    assert_eq!(get_file_size_category(1_073_741_824), SizeCategory::Large);
    assert_eq!(get_file_size_category(1_073_741_825), SizeCategory::Huge);
    assert_eq!(get_file_size_category(u64::MAX), SizeCategory::Huge);
}

#[test]
fn test_hidden_file_has_no_extension() {
    // A leading dot alone does not make an extension.
    assert_eq!(get_file_type(".txt"), FileType::Unknown);
}

#[test]
fn test_age_category_boundaries() {
    let day = 86_400u64;
    assert_eq!(get_age_category(Some(0), 0), AgeCategory::Recent);
    assert_eq!(get_age_category(Some(0), day - 1), AgeCategory::Recent);
    assert_eq!(get_age_category(Some(0), day), AgeCategory::Week);
    assert_eq!(get_age_category(Some(0), 7 * day), AgeCategory::Week);
    assert_eq!(get_age_category(Some(0), 8 * day), AgeCategory::Month);
    assert_eq!(get_age_category(Some(0), 30 * day), AgeCategory::Month);
    assert_eq!(get_age_category(Some(0), 31 * day), AgeCategory::Year);
    assert_eq!(get_age_category(Some(0), 365 * day), AgeCategory::Year);
    assert_eq!(get_age_category(Some(0), 366 * day), AgeCategory::Old);
    // A modification time in the future counts as age zero.
    assert_eq!(get_age_category(Some(1000), 0), AgeCategory::Recent);
    // A missing modification time counts as old.
    assert_eq!(get_age_category(None, 0), AgeCategory::Old);
}

#[test]
fn test_file_type_as_str() {
    assert_eq!(FileType::Code.as_str(), "code");
    assert_eq!(FileType::Document.as_str(), "document");
    assert_eq!(FileType::Configuration.as_str(), "configuration");
    assert_eq!(FileType::Unknown.as_str(), "unknown");
}

fn facts(size: u64, modified_secs: Option<u64>) -> FileFacts {
    FileFacts {
        size,
        modified_secs,
        created_secs: None,
        accessed_secs: None,
        mode: 0o644,
        is_file: true,
        is_dir: false,
        is_symlink: false,
        sniff: SniffReport::Unreadable,
    }
}

#[test]
fn test_metadata_build_derives_categories() {
    let day = 86_400u64;
    let md = FileMetadata::build("/t/notes.txt", &facts(2048, Some(0)), 9 * day).unwrap();
    assert_eq!(md.size, 2048);
    assert_eq!(md.modified_secs, 0);
    assert_eq!(md.age_secs, 9 * day);
    assert_eq!(md.size_category, SizeCategory::Small);
    assert_eq!(md.age_category, AgeCategory::Month);
    assert_eq!(md.file_type, FileType::Text);
    assert!(md.extended_attributes.is_empty());
}

#[test]
fn test_metadata_build_requires_mtime() {
    let r = FileMetadata::build("/t/notes.txt", &facts(10, None), 0);
    match r {
        Err(FileMetadataError::NoMtime(p)) => assert_eq!(p, "/t/notes.txt"),
        _ => panic!("expected a NoMtime error"),
    }
}
