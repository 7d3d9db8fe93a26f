use codebase_explorer::analysis::types::ProjectStatistics;
use codebase_explorer::documentation::export::{
    escape_html, export_contents, export_error, export_layout, html, pdf, pdf_page_total, pdf_pages, sanitize_pdf, ExportContents,
};
use codebase_explorer::documentation::pdf::pdf_document;
use lopdf::Document;
use codebase_explorer::documentation::generator::{
    escape_markdown, escape_mermaid, generate, mermaid_id,
};
use codebase_explorer::documentation::types::{DocumentationBundle, ExportFormat};
use codebase_explorer::project::types::{EntryKind, ProjectEntry};
use codebase_explorer::search::types::{
    DependencyGraph, GraphEdge, GraphNode, ProjectIndex, SearchResult, SearchResultKind,
};

fn bundle() -> DocumentationBundle {
    DocumentationBundle {
        project_name: "Example <App>".into(),
        markdown: "# Example\n\nHello".into(),
        folder_diagram: "flowchart TD".into(),
        class_diagram: "classDiagram".into(),
        dependency_diagram: "flowchart LR".into(),
    }
}

fn statistics() -> ProjectStatistics {
    ProjectStatistics {
        total_lines: 10,
        source_lines: 8,
        blank_lines: 1,
        comment_lines: 1,
        largest_files: vec![],
        dependencies: vec![],
    }
}

#[test]
fn generation_is_stable_and_escapes_mermaid_labels() {
    let entries = vec![ProjectEntry {
        path: "src/a\"b".into(),
        name: "a\"b".into(),
        parent: Some("src".into()),
        kind: EntryKind::Directory,
        size: 0,
        language: None,
    }];
    let stats = statistics();
    let index = ProjectIndex {
        entries: vec![],
        graph: DependencyGraph::default(),
    };
    let first = generate("example", &entries, &stats, &index);
    let second = generate("example", &entries, &stats, &index);
    assert_eq!(first, second);
    assert!(first.folder_diagram.contains("a&quot;b"));
}

#[test]
fn html_is_self_contained_and_escaped() {
    let output = html(&bundle());
    assert!(output.contains("Example &lt;App&gt;"));
    assert!(!output.contains("<script"));
}

#[test]
fn markdown_lists_overview_diagrams_and_symbols() {
    let entries = vec![
        ProjectEntry {
            path: "src".into(),
            name: "src".into(),
            parent: None,
            kind: EntryKind::Directory,
            size: 0,
            language: None,
        },
        ProjectEntry {
            path: "src/main.py".into(),
            name: "main.py".into(),
            parent: Some("src".into()),
            kind: EntryKind::File,
            size: 12,
            language: Some("python".into()),
        },
    ];
    let index = ProjectIndex {
        entries: vec![
            SearchResult {
                kind: SearchResultKind::Symbol,
                label: "my_func".into(),
                detail: "src/main.py · function".into(),
                path: "src/main.py".into(),
                line: Some(3),
                symbol_id: Some("src/main.py:my_func".into()),
                analyzable: true,
                score: 0,
            },
            SearchResult {
                kind: SearchResultKind::Symbol,
                label: "Shape".into(),
                detail: "src/main.py · class".into(),
                path: "src/main.py".into(),
                line: None,
                symbol_id: Some("src/main.py:Shape".into()),
                analyzable: true,
                score: 0,
            },
        ],
        graph: DependencyGraph {
            nodes: vec![GraphNode {
                id: "src/main.py".into(),
                label: "main.py".into(),
                path: "src/main.py".into(),
            }],
            edges: vec![GraphEdge {
                source: "src/main.py".into(),
                target: "src/main.py".into(),
            }],
        },
    };
    let doc = generate("/home/user/demo/", &entries, &statistics(), &index);
    assert_eq!(doc.project_name, "demo");
    let src = mermaid_id("src");
    let main = mermaid_id("src/main.py");
    assert_eq!(
        doc.folder_diagram,
        format!("flowchart TD\n  root[\"Project\"]\n  root --> {src}[\"src\"]")
    );
    assert_eq!(
        doc.dependency_diagram,
        format!("flowchart LR\n  {main}[\"main.py\"]\n  {main} --> {main}")
    );
    assert_eq!(
        doc.class_diagram,
        format!("classDiagram\n  class {}", mermaid_id("Shape"))
    );
    assert!(doc.markdown.starts_with(
        "# demo\n\nGenerated locally by Codebase Explorer.\n\n## Overview\n\n- Files: 1\n- Lines: 10\n- Source lines: 8\n- Dependencies: 0\n\n## Folder Structure\n\n```mermaid\n"
    ));
    assert!(doc
        .markdown
        .ends_with("## Symbols\n\n- **my\\_func** in `src/main.py` at line 3\n- **Shape** in `src/main.py`\n"));
}

#[test]
fn a_root_without_a_name_is_called_project() {
    let index = ProjectIndex::default();
    assert_eq!(generate("/", &[], &statistics(), &index).project_name, "Project");
    assert_eq!(generate("..", &[], &statistics(), &index).project_name, "Project");
    assert_eq!(generate("a/b/.", &[], &statistics(), &index).project_name, "b");
}

#[test]
fn mermaid_ids_are_short_stable_digests() {
    let id = mermaid_id("src/lib.rs");
    assert_eq!(id.len(), 14);
    assert!(id.starts_with("n_"));
    assert!(id[2..].chars().all(|c| c.is_ascii_hexdigit()));
    assert_eq!(id, mermaid_id("src/lib.rs"));
    assert_ne!(id, mermaid_id("src/main.rs"));
}

#[test]
fn escapes_leave_no_markup() {
    assert_eq!(escape_mermaid("a&\"<>"), "a&amp;&quot;&lt;&gt;");
    assert_eq!(escape_html("<b a=\"1\">&"), "&lt;b a=&quot;1&quot;&gt;&amp;");
    assert_eq!(escape_markdown("a*b_c`d"), "a\\*b\\_c\\`d");
}

#[test]
fn folder_diagram_shows_at_most_two_hundred_directories() {
    let entries: Vec<ProjectEntry> = (0..250)
        .map(|i| ProjectEntry {
            path: format!("d{i}"),
            name: format!("d{i}"),
            parent: None,
            kind: EntryKind::Directory,
            size: 0,
            language: None,
        })
        .collect();
    let doc = generate("p", &entries, &statistics(), &ProjectIndex::default());
    assert_eq!(doc.folder_diagram.lines().count(), 202);
}

#[test]
fn pdf_pages_hold_forty_eight_lines() {
    let mut value = bundle();
    value.markdown = (0..100).map(|i| format!("line {i}\n")).collect();
    let pages = pdf_pages(&value);
    assert_eq!(pages.len(), 3);
    let first = String::from_utf8(pages[0].clone()).unwrap();
    assert!(first.starts_with("BT /F1 10 Tf 50 750 Td 13 TL (line 0) Tj T* "));
    assert!(first.ends_with("(line 47) Tj T* ET"));
}

#[test]
fn empty_markdown_gives_one_page_with_the_project_name() {
    let mut value = bundle();
    value.markdown.clear();
    let pages = pdf_pages(&value);
    assert_eq!(pages.len(), 1);
    assert_eq!(
        String::from_utf8(pages[0].clone()).unwrap(),
        "BT /F1 10 Tf 50 750 Td 13 TL (Example <App>) Tj T* ET"
    );
}

#[test]
fn pdf_text_is_ascii_and_escaped() {
    assert_eq!(sanitize_pdf("héllo"), "h?llo");
    let mut value = bundle();
    value.markdown = "f(x) \\ y".into();
    let pages = pdf_pages(&value);
    assert_eq!(
        String::from_utf8(pages[0].clone()).unwrap(),
        "BT /F1 10 Tf 50 750 Td 13 TL (f\\(x\\) \\\\ y) Tj T* ET"
    );
}

#[test]
fn export_contents_follow_the_format() {
    match export_contents(&bundle(), ExportFormat::Markdown) {
        ExportContents::Text(text) => assert_eq!(text, "# Example\n\nHello"),
        ExportContents::Pdf(_) => panic!("markdown is text"),
    }
    match export_contents(&bundle(), ExportFormat::Html) {
        ExportContents::Text(text) => assert!(text.starts_with("<!doctype html>")),
        ExportContents::Pdf(_) => panic!("html is text"),
    }
    match export_contents(&bundle(), ExportFormat::Pdf) {
        ExportContents::Pdf(bytes) => assert!(bytes.starts_with(b"%PDF-1.5")),
        ExportContents::Text(_) => panic!("pdf is binary"),
    }
    let error = export_error("disk full");
    assert_eq!(error.code, "exportFailed");
    assert_eq!(error.message, "Could not export documentation: disk full");
}

#[test]
fn writes_a_valid_pdf() {
    let bytes = pdf(&bundle());
    assert!(Document::load_mem(&bytes).is_ok());
}

#[test]
fn empty_markdown_still_produces_one_page() {
    let mut value = bundle();
    value.markdown.clear();
    let bytes = pdf(&value);
    assert_eq!(Document::load_mem(&bytes).unwrap().get_pages().len(), 1);
}

#[test]
fn one_pdf_page_per_content_stream() {
    let markdown: Vec<String> = (0..100).map(|i| format!("line {i}")).collect();
    let mut value = bundle();
    value.markdown = markdown.join("\n");
    assert_eq!(pdf_page_total(&value), 3);
    let document = Document::load_mem(&pdf(&value)).unwrap();
    assert_eq!(document.get_pages().len(), 3);
    let pages = vec![b"BT ET".to_vec(), b"BT ET".to_vec()];
    let first = pdf_document(&export_layout(), &pages);
    assert_eq!(first, pdf_document(&export_layout(), &pages));
    assert_eq!(Document::load_mem(&first).unwrap().get_pages().len(), 2);
}
