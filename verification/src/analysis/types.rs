//! Values produced by source analysis.
use vstd::prelude::*;

verus! {

/// A 1-based row and column in a source file.
#[derive(Debug, Clone, Copy, PartialEq, Eq, Structural)]
pub struct SourcePosition {
    pub row: usize,
    pub column: usize,
}

/// The start and end of a syntax node.
#[derive(Debug, Clone, Copy, PartialEq, Eq, Structural)]
pub struct SourceRange {
    pub start: SourcePosition,
    pub end: SourcePosition,
}

/// What kind of declaration a symbol is.
#[derive(Debug, Clone, Copy, PartialEq, Eq, Structural)]
pub enum SymbolKind {
    Class,
    Function,
    Method,
    Interface,
    Enum,
    Constant,
}

/// A declaration found in a source file.
#[derive(Debug, PartialEq, Eq)]
pub struct Symbol {
    pub id: String,
    pub name: String,
    pub qualified_name: String,
    pub kind: SymbolKind,
    pub signature: String,
    pub documentation: Option<String>,
    pub range: SourceRange,
    pub parent_id: Option<String>,
}

impl Clone for Symbol {
    fn clone(&self) -> (r: Self)
        ensures
            r == *self,
    {
        Symbol {
            id: self.id.clone(),
            name: self.name.clone(),
            qualified_name: self.qualified_name.clone(),
            kind: self.kind,
            signature: self.signature.clone(),
            documentation: self.documentation.clone(),
            range: self.range,
            parent_id: self.parent_id.clone(),
        }
    }
}

/// A symbol by its characters.
pub struct SymbolView {
    pub id: Seq<char>,
    pub name: Seq<char>,
    pub qualified_name: Seq<char>,
    pub kind: SymbolKind,
    pub signature: Seq<char>,
    pub documentation: Option<Seq<char>>,
    pub range: SourceRange,
    pub parent_id: Option<Seq<char>>,
}

impl View for Symbol {
    type V = SymbolView;

    open spec fn view(&self) -> SymbolView {
        SymbolView {
            id: self.id@,
            name: self.name@,
            qualified_name: self.qualified_name@,
            kind: self.kind,
            signature: self.signature@,
            documentation: crate::analysis::manifests::opt_view(self.documentation),
            range: self.range,
            parent_id: crate::analysis::manifests::opt_view(self.parent_id),
        }
    }
}

/// The symbols of a list by their characters.
pub open spec fn symbol_views(v: Seq<Symbol>) -> Seq<SymbolView> {
    v.map_values(|s: Symbol| s@)
}

/// Whether an import names a file of the project.
#[derive(Debug, Clone, Copy, PartialEq, Eq, Structural)]
pub enum ImportKind {
    Local,
    External,
}

/// A module imported by a source file.
#[derive(Debug, PartialEq, Eq)]
pub struct ImportReference {
    pub module: String,
    pub kind: ImportKind,
    pub resolved_path: Option<String>,
}

impl Clone for ImportReference {
    fn clone(&self) -> (r: Self)
        ensures
            r == *self,
    {
        ImportReference {
            module: self.module.clone(),
            kind: self.kind,
            resolved_path: self.resolved_path.clone(),
        }
    }
}

/// The analysis of one source file.
#[derive(Debug, PartialEq, Eq)]
pub struct FileAnalysis {
    pub path: String,
    pub language: String,
    pub content_hash: String,
    pub source: String,
    pub symbols: Vec<Symbol>,
    pub imports: Vec<ImportReference>,
    pub parse_errors: usize,
    pub cached: bool,
}

/// A file analysis by its values, lists by their elements.
pub struct FileAnalysisView {
    pub path: Seq<char>,
    pub language: Seq<char>,
    pub content_hash: Seq<char>,
    pub source: Seq<char>,
    pub symbols: Seq<Symbol>,
    pub imports: Seq<ImportReference>,
    pub parse_errors: usize,
    pub cached: bool,
}

impl View for FileAnalysis {
    type V = FileAnalysisView;

    open spec fn view(&self) -> FileAnalysisView {
        FileAnalysisView {
            path: self.path@,
            language: self.language@,
            content_hash: self.content_hash@,
            source: self.source@,
            symbols: self.symbols@,
            imports: self.imports@,
            parse_errors: self.parse_errors,
            cached: self.cached,
        }
    }
}

impl Clone for FileAnalysis {
    fn clone(&self) -> (r: Self)
        ensures
            r@ == self@,
    {
        let symbols = self.symbols.clone();
        let imports = self.imports.clone();
        assert(symbols@ =~= self.symbols@);
        assert(imports@ =~= self.imports@);
        FileAnalysis {
            path: self.path.clone(),
            language: self.language.clone(),
            content_hash: self.content_hash.clone(),
            source: self.source.clone(),
            symbols,
            imports,
            parse_errors: self.parse_errors,
            cached: self.cached,
        }
    }
}

/// Which part of a manifest declared a dependency.
#[derive(Debug, Clone, Copy, PartialEq, Eq, Structural)]
pub enum DependencyScope {
    Runtime,
    Development,
    Optional,
}

/// A dependency declared by a manifest file.
#[derive(Debug, PartialEq, Eq)]
pub struct ManifestDependency {
    pub name: String,
    pub version: Option<String>,
    pub scope: DependencyScope,
    pub manifest: String,
}

impl Clone for ManifestDependency {
    fn clone(&self) -> (r: Self)
        ensures
            r == *self,
    {
        ManifestDependency {
            name: self.name.clone(),
            version: self.version.clone(),
            scope: self.scope,
            manifest: self.manifest.clone(),
        }
    }
}

/// Size and line count of one file.
#[derive(Debug, PartialEq, Eq)]
pub struct FileStatistic {
    pub path: String,
    pub size: u64,
    pub lines: u64,
}

impl Clone for FileStatistic {
    fn clone(&self) -> (r: Self)
        ensures
            r == *self,
    {
        FileStatistic { path: self.path.clone(), size: self.size, lines: self.lines }
    }
}

/// Line counts, largest files and declared dependencies of a project.
#[derive(Debug, PartialEq, Eq)]
pub struct ProjectStatistics {
    pub total_lines: u64,
    pub source_lines: u64,
    pub blank_lines: u64,
    pub comment_lines: u64,
    pub largest_files: Vec<FileStatistic>,
    pub dependencies: Vec<ManifestDependency>,
}

/// A failure reported to the user, with a stable code.
#[derive(Debug)]
pub struct AnalysisError {
    pub code: &'static str,
    pub message: String,
}

impl Clone for AnalysisError {
    fn clone(&self) -> (r: Self)
        ensures
            r == *self,
    {
        AnalysisError { code: self.code, message: self.message.clone() }
    }
}

impl AnalysisError {
    pub fn new(code: &'static str, message: String) -> (r: Self)
        ensures
            r.code == code,
            r.message@ == message@,
    {
        AnalysisError { code, message }
    }
}

} // verus!
