use codebase_explorer::project::paths::{extension, file_name, parent_path};
use codebase_explorer::project::scanner::{
    detect_language, is_known_binary, is_walked, ScanState, WalkEntry, WalkItem, WalkKind,
};
use codebase_explorer::project::types::{EntryKind, ProjectSnapshot};

fn dir(path: &str) -> WalkItem {
    WalkItem::Entry(WalkEntry {
        is_root: false,
        is_symlink: false,
        components: Some(path.split('/').map(str::to_owned).collect()),
        name: Some(path.rsplit('/').next().unwrap().to_owned()),
        kind: WalkKind::Directory,
        size: None,
    })
}

fn file(path: &str, size: u64) -> WalkItem {
    WalkItem::Entry(WalkEntry {
        is_root: false,
        is_symlink: false,
        components: Some(path.split('/').map(str::to_owned).collect()),
        name: Some(path.rsplit('/').next().unwrap().to_owned()),
        kind: WalkKind::File,
        size: Some(size),
    })
}

fn scan(scan_id: &str, items: Vec<WalkItem>) -> ProjectSnapshot {
    let mut state = ScanState::new(scan_id.to_owned());
    for item in items {
        state.step(false, item).unwrap();
    }
    state.finish("/tmp/fixture".to_owned(), Some("fixture".to_owned()))
}

#[test]
fn scans_project_entries_and_detects_languages() {
    let snapshot = scan(
        "scan-1",
        vec![
            dir("src"),
            dir("src/components"),
            file("src/main.ts", 25),
            file("src/components/App.tsx", 24),
            file("worker.py", 19),
            file("README.md", 9),
        ],
    );

    assert_eq!(snapshot.file_count, 4);
    assert!(snapshot.entries.iter().any(|entry| entry.path == "src"));
    assert!(snapshot.entries.iter().any(|entry| {
        entry.path == "src/components/App.tsx" && entry.language.as_deref() == Some("typescript")
    }));
    assert!(snapshot
        .languages
        .iter()
        .any(|language| language.id == "typescript" && language.file_count == 2));
    let paths: Vec<&str> = snapshot.entries.iter().map(|e| e.path.as_str()).collect();
    let mut sorted = paths.clone();
    sorted.sort();
    assert_eq!(paths, sorted);
    let components = snapshot.entries.iter().find(|e| e.path == "src/components").unwrap();
    assert_eq!(components.kind, EntryKind::Directory);
    assert_eq!(components.name, "components");
    assert_eq!(components.parent.as_deref(), Some("src"));
    assert_eq!(snapshot.total_bytes, 77);
}

#[test]
fn excludes_generated_and_dependency_directories() {
    for directory in [".git", "node_modules", "dist", "target", "__pycache__"] {
        assert!(!is_walked(Some(directory)));
    }
    assert!(is_walked(Some("src")));
    assert!(is_walked(None));
}

#[test]
fn skips_known_binary_files() {
    assert!(is_known_binary("logo.png"));
    assert!(is_known_binary("LOGO.PNG"));
    assert!(!is_known_binary("Dockerfile"));
    let snapshot = scan("scan-binary", vec![file("logo.png", 4), file("Dockerfile", 12)]);
    assert_eq!(snapshot.file_count, 1);
    assert_eq!(snapshot.skipped_count, 1);
    assert_eq!(snapshot.entries[0].path, "Dockerfile");
}

#[test]
fn stops_before_walking_when_cancelled() {
    let mut state = ScanState::new("scan-4".to_owned());
    let error = state.step(true, file("main.py", 14)).unwrap_err();
    assert_eq!(error.code, "cancelled");
    assert_eq!(state.file_count, 0);
}

#[test]
fn failures_and_links_are_counted_or_ignored() {
    let mut state = ScanState::new("scan-6".to_owned());
    state.step(false, WalkItem::Failed).unwrap();
    state
        .step(
            false,
            WalkItem::Entry(WalkEntry {
                is_root: false,
                is_symlink: true,
                components: Some(vec!["link".to_owned()]),
                name: Some("link".to_owned()),
                kind: WalkKind::File,
                size: Some(3),
            }),
        )
        .unwrap();
    let snapshot = state.finish("/tmp/p".to_owned(), None);
    assert_eq!(snapshot.skipped_count, 1);
    assert_eq!(snapshot.file_count, 0);
    assert_eq!(snapshot.name, "Project");
}

#[test]
fn progress_is_reported_for_the_first_file_and_every_250th() {
    let mut state = ScanState::new("scan-7".to_owned());
    let mut reported = Vec::new();
    for i in 0..500 {
        if let Some(progress) = state.step(false, file(&format!("f{i}.txt"), 1)).unwrap() {
            reported.push((progress.files_scanned, progress.current_path));
        }
    }
    assert_eq!(
        reported,
        vec![(1, "f0.txt".to_owned()), (250, "f249.txt".to_owned()), (500, "f499.txt".to_owned())]
    );
}

#[test]
fn languages_come_from_extensions() {
    assert_eq!(detect_language("main.PY"), Some("python"));
    assert_eq!(detect_language("app.tsx"), Some("typescript"));
    assert_eq!(detect_language("notes"), None);
    assert_eq!(extension(".gitignore"), None);
    assert_eq!(extension("a.tar.gz").as_deref(), Some("gz"));
    assert_eq!(file_name("src/lib/").as_deref(), Some("lib"));
    assert_eq!(file_name("a/.."), None);
    assert_eq!(
        parent_path(&vec!["src".to_owned(), "a.ts".to_owned()]).as_deref(),
        Some("src")
    );
    assert_eq!(parent_path(&vec!["a.ts".to_owned()]), None);
}
