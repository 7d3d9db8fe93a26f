use codebase_explorer::analysis::types::{
    FileAnalysis, ImportKind, ImportReference, SourcePosition, SourceRange, Symbol, SymbolKind,
};
use codebase_explorer::project::types::{EntryKind, ProjectEntry};
use codebase_explorer::search::builder::{analyzable, IndexBuilder};
use codebase_explorer::search::types::{GraphEdge, SearchResultKind};

fn file(path: &str, language: &str, size: u64) -> ProjectEntry {
    ProjectEntry {
        path: path.into(),
        name: path.rsplit('/').next().unwrap().into(),
        parent: None,
        kind: EntryKind::File,
        size,
        language: Some(language.into()),
    }
}

fn analysis(path: &str, symbols: Vec<Symbol>, imports: Vec<&str>) -> FileAnalysis {
    FileAnalysis {
        path: path.into(),
        language: "typescript".into(),
        content_hash: String::new(),
        source: String::new(),
        symbols,
        imports: imports
            .into_iter()
            .map(|target| ImportReference {
                module: target.into(),
                kind: ImportKind::Local,
                resolved_path: Some(target.into()),
            })
            .collect(),
        parse_errors: 0,
        cached: false,
    }
}

fn symbol(name: &str, kind: SymbolKind, row: usize) -> Symbol {
    let position = SourcePosition { row, column: 1 };
    Symbol {
        id: format!("x:{name}"),
        name: name.into(),
        qualified_name: name.into(),
        kind,
        signature: String::new(),
        documentation: None,
        range: SourceRange { start: position, end: position },
        parent_id: None,
    }
}

#[test]
fn analysable_files_have_a_parser_and_fit_the_limit() {
    assert!(analyzable(&file("a.ts", "typescript", 10)));
    assert!(!analyzable(&file("a.rs", "rust", 10)));
    assert!(!analyzable(&file("a.py", "python", 5 * 1024 * 1024 + 1)));
}

#[test]
fn builds_symbols_nodes_and_sorted_distinct_edges() {
    let mut builder = IndexBuilder::new();
    let b = file("src/b.ts", "typescript", 10);
    let a = file("src/a.ts", "typescript", 10);
    let big = file("src/big.ts", "typescript", 6 * 1024 * 1024);
    builder.add_entry(
        &b,
        Some(&analysis("src/b.ts", vec![symbol("b", SymbolKind::Function, 1)], vec!["src/a.ts"])),
    );
    builder.add_entry(
        &a,
        Some(&analysis(
            "src/a.ts",
            vec![symbol("A", SymbolKind::Class, 3)],
            vec!["src/b.ts", "src/b.ts", "src/missing.ts"],
        )),
    );
    builder.add_entry(&big, Some(&analysis("src/big.ts", vec![], vec!["src/a.ts"])));
    let index = builder.finish();

    let labels: Vec<&str> = index.entries.iter().map(|e| e.label.as_str()).collect();
    assert_eq!(labels, vec!["b.ts", "b", "a.ts", "A", "big.ts"]);
    let class = &index.entries[3];
    assert_eq!(class.kind, SearchResultKind::Symbol);
    assert_eq!(class.detail, "src/a.ts · class");
    assert_eq!(class.line, Some(3));
    assert!(!index.entries[4].analyzable);
    let paths: Vec<&str> = index.graph.nodes.iter().map(|n| n.path.as_str()).collect();
    assert_eq!(paths, vec!["src/a.ts", "src/b.ts"]);
    assert_eq!(
        index.graph.edges,
        vec![
            GraphEdge { source: "src/a.ts".into(), target: "src/b.ts".into() },
            GraphEdge { source: "src/b.ts".into(), target: "src/a.ts".into() },
        ]
    );
}
