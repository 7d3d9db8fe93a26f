use codebase_explorer::analysis::commands::{analyze_source, check_source_path, check_source_size};
use codebase_explorer::project::paths::normalized_relative_path;

#[test]
fn reuses_analysis_when_content_is_unchanged() {
    let bytes = b"def main():\n    pass\n".to_vec();
    let first = analyze_source("main.py", "main.py", bytes.clone(), None).unwrap();
    let second = analyze_source("main.py", "main.py", bytes, Some(&first)).unwrap();

    assert!(!first.cached);
    assert!(second.cached);
    assert_eq!(first.content_hash, second.content_hash);
}

#[test]
fn changed_content_is_analysed_again() {
    let first = analyze_source("main.py", "main.py", b"A = 1\n".to_vec(), None).unwrap();
    let second = analyze_source("main.py", "main.py", b"A = 2\n".to_vec(), Some(&first)).unwrap();
    assert!(!second.cached);
    assert_ne!(first.content_hash, second.content_hash);
}

#[test]
fn rejects_parent_directory_traversal() {
    let error = check_source_path("/tmp/parent/project", "/tmp/parent/secret.py", true).unwrap_err();
    assert_eq!(error.code, "invalidPath");
    assert!(check_source_path("/tmp/parent/project", "/tmp/parent/project/a.py", true).is_ok());
    assert!(check_source_path("/tmp/parent/project", "/tmp/parent/project2/a.py", true).is_err());
    assert!(check_source_path("/tmp/parent/project", "/tmp/parent/project/src", false).is_err());
}

#[test]
fn rejects_unsupported_files() {
    let error = analyze_source("notes.txt", "notes.txt", b"plain text".to_vec(), None).unwrap_err();
    assert_eq!(error.code, "unsupportedLanguage");
}

#[test]
fn rejects_invalid_encoding_and_large_files() {
    let error = analyze_source("a.py", "a.py", vec![0xff, 0xfe], None).unwrap_err();
    assert_eq!(error.code, "invalidEncoding");
    assert!(check_source_size(5 * 1024 * 1024).is_ok());
    assert_eq!(check_source_size(5 * 1024 * 1024 + 1).unwrap_err().code, "fileTooLarge");
}

#[test]
fn relative_paths_are_joined_with_slashes() {
    assert_eq!(normalized_relative_path("/root", "/root/src/a.ts").as_deref(), Some("src/a.ts"));
    assert_eq!(normalized_relative_path("/root", "/other/a.ts"), None);
}

