use ebook_organiser::config::{copy_conflict, Config};

#[test]
fn test_default_config() {
    let default_config = Config::default();

    assert_eq!(default_config.library_path, "/tmp/library");
    assert_eq!(default_config.input_path, "/tmp/input");
    assert_eq!(default_config.format_template, "{author}/{title}.{ext}");
    assert_eq!(default_config.audiobook_library_path, "/tmp/audiobook_library");
}

#[test]
fn copy_conflict_only_when_copying_into_input() {
    let mut config = Config::default();
    config.input_path = "/tmp/library".to_owned();
    assert!(copy_conflict(&config, true));
    assert!(!copy_conflict(&config, false));
    config.input_path = "/tmp/input".to_owned();
    assert!(!copy_conflict(&config, true));
}
