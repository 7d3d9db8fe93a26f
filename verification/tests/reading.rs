use codebase_explorer::ai::context::{first_choice, status_error};
use codebase_explorer::ai::settings::{checked_settings, saved_settings};
use codebase_explorer::analysis::manifests::{
    package_section_dependencies, pyproject_item_dependencies,
};
use codebase_explorer::analysis::types::{AnalysisError, DependencyScope};

#[test]
fn provider_replies_give_the_first_choice_or_an_error() {
    assert!(status_error(200, "200 OK").is_none());
    assert!(status_error(204, "204 No Content").is_none());
    let error = status_error(404, "404 Not Found").unwrap();
    assert_eq!(error.code, "providerFailed");
    assert_eq!(error.message, "AI provider returned HTTP 404 Not Found");
    assert!(status_error(301, "301 Moved Permanently").is_some());
    assert_eq!(first_choice(vec!["a".into(), "b".into()]).unwrap(), "a");
    let none = first_choice(vec![]).unwrap_err();
    assert_eq!(none.code, "providerFailed");
    assert_eq!(none.message, "AI provider returned no response");
}

#[test]
fn saving_is_refused_for_invalid_settings_whatever_the_store_says() {
    let (endpoint, model) = checked_settings("https://e.test/v1/", " m ").unwrap();
    assert_eq!(endpoint, "https://e.test/v1");
    assert_eq!(model, "m");
    assert_eq!(checked_settings("http://e.test", "m").unwrap_err().code, "invalidProvider");
    assert_eq!(
        checked_settings("https://e.test", "  ").unwrap_err().message,
        "AI model is required"
    );
    let refused = saved_settings("http://e.test", "m", Ok(()), Ok(Some("k".into()))).unwrap_err();
    assert_eq!(refused.code, "invalidProvider");
    let locked = AnalysisError::new("credentialFailed", "locked".into());
    let failed = saved_settings("https://e.test", "m", Err(locked.clone()), Ok(None)).unwrap_err();
    assert_eq!(failed.message, "locked");
    let failed = saved_settings("https://e.test", "m", Ok(()), Err(locked)).unwrap_err();
    assert_eq!(failed.code, "credentialFailed");
    let saved = saved_settings("https://e.test//", " m ", Ok(()), Ok(Some("k".into()))).unwrap();
    assert_eq!(saved.endpoint, "https://e.test");
    assert_eq!(saved.model, "m");
    assert!(saved.configured);
    assert!(!saved_settings("https://e.test", "m", Ok(()), Ok(None)).unwrap().configured);
}

#[test]
fn manifest_sections_become_dependencies_in_order() {
    let sections = vec![
        Some(vec![("react".to_owned(), Some("^18".to_owned()))]),
        None,
        Some(vec![("fsevents".to_owned(), None)]),
    ];
    let deps = package_section_dependencies(&sections);
    assert_eq!(deps.len(), 2);
    assert_eq!(deps[0].name, "react");
    assert_eq!(deps[0].version.as_deref(), Some("^18"));
    assert_eq!(deps[0].scope, DependencyScope::Runtime);
    assert_eq!(deps[1].scope, DependencyScope::Optional);
    assert_eq!(deps[1].manifest, "package.json");
    let items = vec![Some("requests>=2".to_owned()), None, Some("flask".to_owned())];
    let deps = pyproject_item_dependencies(&items);
    assert_eq!(deps.len(), 2);
    assert_eq!(deps[0].manifest, "pyproject.toml");
    assert_eq!(deps[1].name, "flask");
}
