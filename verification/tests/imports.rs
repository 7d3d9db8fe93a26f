use codebase_explorer::analysis::parser::parse_file;
use codebase_explorer::analysis::relationships::{chosen_probe, plan_import, resolve_imports};
use codebase_explorer::analysis::types::{FileAnalysis, ImportKind};
use codebase_explorer::project::types::{EntryKind, ProjectEntry};
use codebase_explorer::search::builder::IndexBuilder;
use codebase_explorer::search::types::{GraphEdge, SearchResultKind};

/// Resolves the imports of `analysis` against the files in `existing`, the
/// first existing probe of each plan winning.
fn resolve_with(existing: &[&str], relative_path: &str, analysis: &mut FileAnalysis) {
    let found: Vec<Option<String>> = analysis
        .imports
        .iter()
        .map(|import| {
            let plan = plan_import(&analysis.language, relative_path, &import.module)?;
            let exists: Vec<bool> = plan
                .probes
                .iter()
                .map(|probe| existing.contains(&probe.resolved.as_str()))
                .collect();
            chosen_probe(&plan, "/project", None, &exists)
        })
        .collect();
    resolve_imports(analysis, &found);
}

fn file(path: &str) -> ProjectEntry {
    ProjectEntry {
        path: path.into(),
        name: path.rsplit('/').next().unwrap().into(),
        parent: Some("src".into()),
        kind: EntryKind::File,
        size: 100,
        language: Some("typescript".into()),
    }
}

#[test]
fn typescript_imports_are_read_in_source_order() {
    let analysis = parse_file(
        "src/client.ts",
        "src/client.ts",
        "import { get } from './http';\nimport { value } from \"./lib\";\nconst x = 1;".into(),
    )
    .unwrap();
    let modules: Vec<&str> = analysis.imports.iter().map(|i| i.module.as_str()).collect();
    assert_eq!(modules, vec!["./http", "./lib"]);
    assert!(analysis.imports.iter().all(|i| i.resolved_path.is_none()));
}

#[test]
fn python_imports_are_read_in_source_order() {
    let analysis = parse_file(
        "app/service.py",
        "app/service.py",
        "from .models import User\nimport settings\nimport os.path as p, json\nfrom ..core import x".into(),
    )
    .unwrap();
    let modules: Vec<&str> = analysis.imports.iter().map(|i| i.module.as_str()).collect();
    assert_eq!(modules, vec![".models", "settings", "os.path", "json", "..core"]);
}

#[test]
fn resolves_typescript_files_and_index_modules() {
    let mut analysis = parse_file(
        "src/client.ts",
        "src/client.ts",
        "import { get } from './http';\nimport { value } from './lib';".into(),
    )
    .unwrap();
    resolve_with(&["src/http.ts", "src/lib/index.ts"], "src/client.ts", &mut analysis);
    assert_eq!(analysis.imports[0].resolved_path.as_deref(), Some("src/http.ts"));
    assert_eq!(analysis.imports[1].resolved_path.as_deref(), Some("src/lib/index.ts"));
}

#[test]
fn resolves_python_relative_and_project_imports() {
    let mut analysis = parse_file(
        "app/service.py",
        "app/service.py",
        "from .models import User\nimport settings\nimport requests".into(),
    )
    .unwrap();
    resolve_with(&["app/models.py", "settings.py"], "app/service.py", &mut analysis);
    assert_eq!(analysis.imports[0].resolved_path.as_deref(), Some("app/models.py"));
    assert_eq!(analysis.imports[1].resolved_path.as_deref(), Some("settings.py"));
    assert_eq!(analysis.imports[2].kind, ImportKind::External);
}

#[test]
fn builds_symbols_and_local_dependency_edges() {
    let existing = ["src/a.ts", "src/b.ts"];
    let sources = [
        ("src/a.ts", "import { b } from './b';\nexport function a() { return b(); }"),
        ("src/b.ts", "export function b() { return 1; }"),
    ];
    let mut builder = IndexBuilder::new();
    for (path, source) in sources {
        let mut analysis = parse_file(path, path, source.into()).unwrap();
        resolve_with(&existing, path, &mut analysis);
        builder.add_entry(&file(path), Some(&analysis));
    }
    let index = builder.finish();
    assert!(index
        .entries
        .iter()
        .any(|e| e.label == "a" && e.kind == SearchResultKind::Symbol));
    assert_eq!(index.graph.nodes.len(), 2);
    assert_eq!(
        index.graph.edges,
        vec![GraphEdge { source: "src/a.ts".into(), target: "src/b.ts".into() }]
    );
}

#[test]
fn climbing_imports_count_only_inside_the_root() {
    let plan = plan_import("javascript", "src/a.js", "../lib/util.js").unwrap();
    assert!(plan.climbs);
    let exists = vec![true];
    assert_eq!(chosen_probe(&plan, "/project", Some("/elsewhere/lib/util.js"), &exists), None);
    assert_eq!(chosen_probe(&plan, "/project", None, &exists), None);
    assert_eq!(
        chosen_probe(&plan, "/project", Some("/project/lib/util.js"), &exists).as_deref(),
        Some("src/../lib/util.js")
    );
    let plan = plan_import("typescript", "src/client.ts", "./lib").unwrap();
    let mut exists = vec![false; plan.probes.len()];
    assert_eq!(chosen_probe(&plan, "/project", None, &exists), None);
    exists[6] = true;
    exists[7] = true;
    assert_eq!(chosen_probe(&plan, "/project", None, &exists).as_deref(), Some("src/lib/index.ts"));
}
