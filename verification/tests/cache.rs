use codebase_explorer::analysis::cache::AnalysisState;
use codebase_explorer::analysis::types::FileAnalysis;
use codebase_explorer::search::types::ProjectIndex;

#[test]
fn opening_another_project_releases_previous_session_data() {
    let mut state = AnalysisState::default();
    state.register_project("first".into(), "first".into(), Vec::new());
    state.store_search_index("first".into(), ProjectIndex::default());

    state.register_project("second".into(), "second".into(), Vec::new());

    assert!(state.project("first").is_none());
    assert!(state.search_index("first").is_none());
    assert!(state.project("second").is_some());
}

#[test]
fn analyses_are_kept_per_scan_and_path() {
    let mut state = AnalysisState::default();
    state.register_project("scan".into(), "/tmp/project".into(), Vec::new());
    assert_eq!(state.project_root("scan").as_deref(), Some("/tmp/project"));
    assert_eq!(state.project_root("other"), None);
    let analysis = FileAnalysis {
        path: "a.py".into(),
        language: "python".into(),
        content_hash: "h".into(),
        source: "x = 1".into(),
        symbols: vec![],
        imports: vec![],
        parse_errors: 0,
        cached: false,
    };
    state.files().insert("scan".into(), "a.py".into(), analysis.clone());
    assert_eq!(state.files().get("scan", "a.py"), Some(analysis));
    assert_eq!(state.files().get("scan", "b.py"), None);
    state.register_project("next".into(), "/tmp/next".into(), Vec::new());
    assert_eq!(state.files().get("scan", "a.py"), None);
}
