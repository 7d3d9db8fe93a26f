use codebase_explorer::analysis::manifests::{
    package_dependencies, pyproject_dependencies, requirements_dependencies, ManifestKind,
};
use codebase_explorer::analysis::statistics::{count_lines, StatisticsBuilder};
use codebase_explorer::analysis::types::DependencyScope;
use codebase_explorer::project::types::{EntryKind, ProjectEntry};

fn file(path: &str, size: u64, language: Option<&str>) -> ProjectEntry {
    ProjectEntry {
        path: path.into(),
        name: path.into(),
        parent: None,
        kind: EntryKind::File,
        size,
        language: language.map(str::to_owned),
    }
}

#[test]
fn counts_source_lines_and_orders_largest_files() {
    let entries = vec![
        file("main.py", 20, Some("python")),
        file("app.ts", 100, Some("typescript")),
    ];
    let mut builder = StatisticsBuilder::new(&entries);
    builder.add_source(&entries[0], "# note\n\nvalue = 1\n");
    builder.add_source(&entries[1], "// note\nconst value = 1;\n");
    let statistics = builder.finish();

    assert_eq!(statistics.total_lines, 5);
    assert_eq!(statistics.source_lines, 2);
    assert_eq!(statistics.blank_lines, 1);
    assert_eq!(statistics.comment_lines, 2);
    assert_eq!(statistics.largest_files[0].path, "app.ts");
    assert_eq!(statistics.largest_files[0].lines, 2);
    assert_eq!(statistics.largest_files[1].lines, 3);
}

#[test]
fn block_comments_span_lines() {
    assert_eq!(count_lines("/* a\n b\n*/\nx = 1;\n", "javascript"), (4, 1, 0, 3));
    assert_eq!(count_lines("# a\n\nx = 1", "python"), (3, 1, 1, 1));
    assert_eq!(count_lines("", "python"), (0, 0, 0, 0));
}

#[test]
fn reads_javascript_and_python_manifests() {
    let entries = vec![
        file("package.json", 10, Some("json")),
        file("requirements.txt", 10, None),
        file("pyproject.toml", 10, Some("toml")),
    ];
    let mut builder = StatisticsBuilder::new(&entries);
    builder
        .add_manifest(
            ManifestKind::Package,
            Ok(r#"{"dependencies":{"react":"^19"},"devDependencies":{"vitest":"^4"}}"#.to_owned()),
        )
        .unwrap();
    builder
        .add_manifest(ManifestKind::Requirements, Ok("requests==2.32\n# comment\n".to_owned()))
        .unwrap();
    builder
        .add_manifest(
            ManifestKind::Pyproject,
            Ok("[project]\ndependencies = [\"pydantic>=2\"]\n".to_owned()),
        )
        .unwrap();
    let statistics = builder.finish();

    assert!(statistics
        .dependencies
        .iter()
        .any(|item| item.name == "react" && item.scope == DependencyScope::Runtime));
    assert!(statistics
        .dependencies
        .iter()
        .any(|item| item.name == "vitest" && item.scope == DependencyScope::Development));
    assert!(statistics.dependencies.iter().any(|item| item.name == "requests"));
    assert!(statistics.dependencies.iter().any(|item| item.name == "pydantic"));
    let names: Vec<&str> = statistics.dependencies.iter().map(|d| d.name.as_str()).collect();
    assert_eq!(names, vec!["pydantic", "react", "requests", "vitest"]);
}

#[test]
fn manifests_give_names_versions_and_scopes() {
    let package = package_dependencies(
        r#"{"dependencies":{"a":"1"},"optionalDependencies":{"b":{"x":1}}}"#,
    )
    .unwrap();
    assert_eq!(package.len(), 2);
    assert_eq!(package[0].version.as_deref(), Some("1"));
    assert_eq!(package[1].scope, DependencyScope::Optional);
    assert_eq!(package[1].version, None);
    assert_eq!(package_dependencies("not json").unwrap_err().code, "manifestInvalid");

    let requirements = requirements_dependencies("flask>=2\n-r other.txt\n  numpy  \n==1\n");
    assert_eq!(requirements.len(), 2);
    assert_eq!(requirements[0].name, "flask");
    assert_eq!(requirements[0].version.as_deref(), Some(">=2"));
    assert_eq!(requirements[1].name, "numpy");
    assert_eq!(requirements[1].version, None);

    let pyproject = pyproject_dependencies("[project]\ndependencies = [\"httpx\", 3]\n").unwrap();
    assert_eq!(pyproject.len(), 1);
    assert_eq!(pyproject[0].name, "httpx");
    assert_eq!(pyproject_dependencies("[project").unwrap_err().code, "manifestInvalid");
}

#[test]
fn unreadable_manifests_are_errors() {
    let entries = vec![file("package.json", 10, Some("json"))];
    let mut builder = StatisticsBuilder::new(&entries);
    let error = builder
        .add_manifest(ManifestKind::Package, Err("permission denied".to_owned()))
        .unwrap_err();
    assert_eq!(error.code, "manifestInvalid");
}
