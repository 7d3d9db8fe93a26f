use codebase_explorer::analysis::parser::parse_file;
use codebase_explorer::analysis::types::{FileAnalysis, SymbolKind};

fn parse(path: &str, source: &str) -> FileAnalysis {
    parse_file(path, path, source.to_owned()).unwrap()
}

#[test]
fn extracts_python_classes_functions_methods_and_constants() {
    let analysis = parse(
        "service.py",
        "MAX_RETRIES: int = 3\n\nclass Service:\n    def run(self, value: str) -> bool:\n        return True\n\ndef create(name: str = 'x') -> Service:\n    return Service()\n",
    );

    assert!(analysis
        .symbols
        .iter()
        .any(|symbol| symbol.kind == SymbolKind::Constant && symbol.name == "MAX_RETRIES"));
    assert!(analysis
        .symbols
        .iter()
        .any(|symbol| symbol.kind == SymbolKind::Class && symbol.name == "Service"));
    assert!(analysis
        .symbols
        .iter()
        .any(|symbol| symbol.kind == SymbolKind::Method && symbol.qualified_name == "Service.run"));
    assert!(analysis
        .symbols
        .iter()
        .any(|symbol| symbol.kind == SymbolKind::Function
            && symbol.signature.contains("create(name: str")));
    assert_eq!(analysis.symbols.len(), 4);
}

#[test]
fn extracts_javascript_declarations_and_arrow_functions() {
    let analysis = parse(
        "index.js",
        "const API_URL = 'https://example.test';\nexport function load(id) { return id; }\nconst normalize = (value) => value.trim();\nclass Client { request(path) { return path; } }\n",
    );

    assert!(analysis
        .symbols
        .iter()
        .any(|symbol| symbol.kind == SymbolKind::Constant && symbol.name == "API_URL"));
    assert!(analysis
        .symbols
        .iter()
        .any(|symbol| symbol.kind == SymbolKind::Function && symbol.name == "normalize"));
    assert!(analysis
        .symbols
        .iter()
        .any(|symbol| symbol.kind == SymbolKind::Method
            && symbol.qualified_name == "Client.request"));
    assert_eq!(analysis.symbols.len(), 5);
}

#[test]
fn extracts_typescript_interfaces_enums_and_signatures() {
    let analysis = parse(
        "types.ts",
        "export interface User { id: string; displayName(): string; }\nexport enum Role { Admin, Member }\nexport const DEFAULT_ROLE: Role = Role.Member;\nexport function findUser(id: string): User | null { return null; }\n",
    );

    assert!(analysis
        .symbols
        .iter()
        .any(|symbol| symbol.kind == SymbolKind::Interface && symbol.name == "User"));
    assert!(analysis
        .symbols
        .iter()
        .any(|symbol| symbol.kind == SymbolKind::Enum && symbol.name == "Role"));
    assert!(analysis
        .symbols
        .iter()
        .any(|symbol| symbol.kind == SymbolKind::Constant && symbol.name == "DEFAULT_ROLE"));
    assert!(analysis.symbols.iter().any(|symbol| {
        symbol
            .signature
            .contains("findUser(id: string): User | null")
    }));
}

#[test]
fn parses_tsx_with_the_tsx_grammar() {
    let analysis = parse(
        "Card.tsx",
        "interface CardProps { title: string }\nexport function Card({ title }: CardProps) { return <article>{title}</article>; }\n",
    );

    assert_eq!(analysis.parse_errors, 0);
    assert!(analysis
        .symbols
        .iter()
        .any(|symbol| symbol.name == "CardProps"));
    assert!(analysis.symbols.iter().any(|symbol| symbol.name == "Card"));
}

#[test]
fn rejects_files_without_a_parser() {
    let error = parse_file("notes.txt", "notes.txt", "plain text".to_owned()).unwrap_err();
    assert_eq!(error.code, "unsupportedLanguage");
}

#[test]
fn symbols_carry_ranges_documentation_and_parents() {
    let analysis = parse(
        "lib.py",
        "# Greets people.\ndef hello():\n    pass\n\nclass Box:\n    def open(self):\n        pass\n",
    );
    let hello = analysis.symbols.iter().find(|s| s.name == "hello").unwrap();
    assert_eq!(hello.documentation.as_deref(), Some("Greets people."));
    assert_eq!(hello.range.start.row, 2);
    assert_eq!(hello.range.start.column, 1);
    assert_eq!(hello.id, "lib.py:hello");
    let open = analysis.symbols.iter().find(|s| s.name == "open").unwrap();
    assert_eq!(open.parent_id.as_deref(), Some("lib.py:Box"));
    assert_eq!(open.id, "lib.py:Box.open");
    assert_eq!(open.signature, "def open(self)");
    assert_eq!(analysis.content_hash.len(), 64);
    assert_eq!(analysis.language, "python");
    assert!(!analysis.cached);
}

#[test]
fn counts_syntax_errors() {
    let analysis = parse("broken.py", "def (:\n");
    assert!(analysis.parse_errors > 0);
}

#[test]
fn uppercase_extensions_are_recognised() {
    let analysis = parse("MAIN.PY", "VALUE = 1\n");
    assert_eq!(analysis.language, "python");
    assert_eq!(analysis.symbols.len(), 1);
}
