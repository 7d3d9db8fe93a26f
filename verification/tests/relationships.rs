use codebase_explorer::analysis::relationships::{plan_import, resolve_imports};
use codebase_explorer::analysis::types::{FileAnalysis, ImportKind, ImportReference};

fn probes(language: &str, from: &str, module: &str) -> Vec<String> {
    plan_import(language, from, module)
        .unwrap()
        .probes
        .into_iter()
        .map(|probe| probe.resolved)
        .collect()
}

#[test]
fn typescript_relative_imports_try_files_then_index_modules() {
    let plan = plan_import("typescript", "src/client.ts", "./http").unwrap();
    assert_eq!(plan.candidate, vec!["src".to_owned(), "http".to_owned()]);
    assert!(!plan.climbs);
    assert_eq!(
        probes("typescript", "src/client.ts", "./lib"),
        vec![
            "src/lib.ts", "src/lib.tsx", "src/lib.mts", "src/lib.cts", "src/lib.js", "src/lib.jsx",
            "src/lib/index.ts", "src/lib/index.tsx", "src/lib/index.mts", "src/lib/index.cts",
            "src/lib/index.js", "src/lib/index.jsx",
        ]
    );
    assert!(plan_import("typescript", "src/client.ts", "react").is_none());
}

#[test]
fn python_imports_resolve_relative_and_project_modules() {
    assert_eq!(probes("python", "app/service.py", ".models")[0], "app/models.py");
    assert_eq!(probes("python", "app/service.py", "settings")[1], "settings.pyi");
    assert_eq!(probes("python", "a/b/c.py", "..pkg.mod")[0], "a/pkg/mod.py");
    assert_eq!(probes("python", "app/service.py", "pkg")[2], "pkg/__init__.py");
}

#[test]
fn parent_directories_are_flagged_and_explicit_extensions_kept() {
    let plan = plan_import("javascript", "src/a.js", "../lib/util.js").unwrap();
    assert!(plan.climbs);
    assert_eq!(probes("javascript", "src/a.js", "../lib/util.js"), vec!["src/../lib/util.js"]);
}

#[test]
fn resolved_imports_become_local() {
    let mut analysis = FileAnalysis {
        path: "src/a.ts".into(),
        language: "typescript".into(),
        content_hash: String::new(),
        source: String::new(),
        symbols: vec![],
        imports: vec![
            ImportReference { module: "./b".into(), kind: ImportKind::External, resolved_path: None },
            ImportReference { module: "react".into(), kind: ImportKind::Local, resolved_path: None },
        ],
        parse_errors: 0,
        cached: false,
    };
    resolve_imports(&mut analysis, &vec![Some("src/b.ts".into()), None]);
    assert_eq!(analysis.imports[0].kind, ImportKind::Local);
    assert_eq!(analysis.imports[0].resolved_path.as_deref(), Some("src/b.ts"));
    assert_eq!(analysis.imports[1].kind, ImportKind::External);
}
