use codebase_explorer::search::index::search;
use codebase_explorer::search::types::{DependencyGraph, ProjectIndex, SearchResult, SearchResultKind};

fn result(label: &str, path: &str, kind: SearchResultKind) -> SearchResult {
    SearchResult {
        kind,
        label: label.into(),
        detail: path.into(),
        path: path.into(),
        line: None,
        symbol_id: None,
        analyzable: true,
        score: 0,
    }
}

#[test]
fn ranks_exact_prefix_path_and_fuzzy_matches() {
    let index = ProjectIndex {
        entries: vec![
            result("Parser", "src/parser.ts", SearchResultKind::Symbol),
            result("ParserFactory", "src/factory.ts", SearchResultKind::Symbol),
            result("app.ts", "src/parser/app.ts", SearchResultKind::File),
            result("ProjectScanner", "src/scanner.ts", SearchResultKind::Symbol),
        ],
        graph: DependencyGraph::default(),
    };

    let exact = search(&index, "parser", 10);
    assert_eq!(exact[0].label, "Parser");
    assert_eq!(exact[1].label, "ParserFactory");
    assert_eq!(exact[2].path, "src/parser/app.ts");
    assert_eq!(search(&index, "prjscan", 10)[0].label, "ProjectScanner");
}

#[test]
fn search_limits_results_and_skips_misses() {
    let index = ProjectIndex {
        entries: vec![
            result("alpha", "a.ts", SearchResultKind::File),
            result("alpine", "b.ts", SearchResultKind::File),
            result("zzz", "c.ts", SearchResultKind::File),
        ],
        graph: DependencyGraph::default(),
    };
    let found = search(&index, "al", 1);
    assert_eq!(found.len(), 1);
    assert_eq!(search(&index, "al", 10).len(), 2);
    assert!(search(&index, "qqq", 10).is_empty());
}

#[test]
fn ties_keep_the_entry_order_for_every_limit() {
    let mut first = result("run", "src/a.ts", SearchResultKind::Symbol);
    first.detail = "first".into();
    first.line = Some(3);
    let mut second = result("run", "src/a.ts", SearchResultKind::Symbol);
    second.detail = "second".into();
    second.line = Some(9);
    let index = ProjectIndex {
        entries: vec![
            result("runner", "src/b.ts", SearchResultKind::File),
            first,
            second,
        ],
        graph: DependencyGraph::default(),
    };
    let all = search(&index, "run", 10);
    assert_eq!(all.len(), 3);
    assert_eq!(all[0].detail, "first");
    assert_eq!(all[1].detail, "second");
    for limit in 0..4 {
        let some = search(&index, "run", limit);
        assert_eq!(some.as_slice(), &all[..limit.min(3)]);
    }
}
