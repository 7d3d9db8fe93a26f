//! The project-wide search index and dependency graph.
use vstd::prelude::*;

verus! {

/// Whether a search entry names a file or a symbol.
#[derive(Debug, Clone, Copy, PartialEq, Eq, Structural)]
pub enum SearchResultKind {
    File,
    Symbol,
}

/// One searchable file or symbol, with the score of the last query.
#[derive(Debug, PartialEq, Eq)]
pub struct SearchResult {
    pub kind: SearchResultKind,
    pub label: String,
    pub detail: String,
    pub path: String,
    pub line: Option<usize>,
    pub symbol_id: Option<String>,
    pub analyzable: bool,
    pub score: u32,
}

impl Clone for SearchResult {
    fn clone(&self) -> (r: Self)
        ensures
            r == *self,
    {
        SearchResult {
            kind: self.kind,
            label: self.label.clone(),
            detail: self.detail.clone(),
            path: self.path.clone(),
            line: self.line,
            symbol_id: self.symbol_id.clone(),
            analyzable: self.analyzable,
            score: self.score,
        }
    }
}

/// A search entry by its values.
pub struct SearchResultView {
    pub kind: SearchResultKind,
    pub label: Seq<char>,
    pub detail: Seq<char>,
    pub path: Seq<char>,
    pub line: Option<usize>,
    pub symbol_id: Option<Seq<char>>,
    pub analyzable: bool,
    pub score: u32,
}

impl View for SearchResult {
    type V = SearchResultView;

    open spec fn view(&self) -> SearchResultView {
        SearchResultView {
            kind: self.kind,
            label: self.label@,
            detail: self.detail@,
            path: self.path@,
            line: self.line,
            symbol_id: match self.symbol_id {
                Some(s) => Some(s@),
                None => None,
            },
            analyzable: self.analyzable,
            score: self.score,
        }
    }
}

/// A source file in the dependency graph.
#[derive(Debug, PartialEq, Eq)]
pub struct GraphNode {
    pub id: String,
    pub label: String,
    pub path: String,
}

impl Clone for GraphNode {
    fn clone(&self) -> (r: Self)
        ensures
            r == *self,
    {
        GraphNode { id: self.id.clone(), label: self.label.clone(), path: self.path.clone() }
    }
}

/// A resolved local import from `source` to `target`.
#[derive(Debug, PartialEq, Eq)]
pub struct GraphEdge {
    pub source: String,
    pub target: String,
}

impl Clone for GraphEdge {
    fn clone(&self) -> (r: Self)
        ensures
            r == *self,
    {
        GraphEdge { source: self.source.clone(), target: self.target.clone() }
    }
}

/// Files and the local imports between them.
#[derive(Debug, PartialEq, Eq)]
pub struct DependencyGraph {
    pub nodes: Vec<GraphNode>,
    pub edges: Vec<GraphEdge>,
}

impl DependencyGraph {
    /// The empty graph.
    pub fn new() -> (r: Self)
        ensures
            r.nodes@.len() == 0,
            r.edges@.len() == 0,
    {
        DependencyGraph { nodes: Vec::new(), edges: Vec::new() }
    }
}

impl Default for DependencyGraph {
    fn default() -> (r: Self)
        ensures
            r.nodes@.len() == 0,
            r.edges@.len() == 0,
    {
        DependencyGraph::new()
    }
}

/// Searchable entries of a project and its dependency graph.
#[derive(Debug, PartialEq, Eq)]
pub struct ProjectIndex {
    pub entries: Vec<SearchResult>,
    pub graph: DependencyGraph,
}

impl ProjectIndex {
    /// The empty index.
    pub fn new() -> (r: Self)
        ensures
            r.entries@.len() == 0,
            r.graph.nodes@.len() == 0,
            r.graph.edges@.len() == 0,
    {
        ProjectIndex { entries: Vec::new(), graph: DependencyGraph::new() }
    }
}

/// An index by the values of its entries, nodes and edges.
pub struct ProjectIndexView {
    pub entries: Seq<SearchResult>,
    pub nodes: Seq<GraphNode>,
    pub edges: Seq<GraphEdge>,
}

impl View for ProjectIndex {
    type V = ProjectIndexView;

    open spec fn view(&self) -> ProjectIndexView {
        ProjectIndexView { entries: self.entries@, nodes: self.graph.nodes@, edges: self.graph.edges@ }
    }
}

impl Clone for ProjectIndex {
    fn clone(&self) -> (r: Self)
        ensures
            r@ == self@,
    {
        let entries = self.entries.clone();
        let nodes = self.graph.nodes.clone();
        let edges = self.graph.edges.clone();
        assert(entries@ =~= self.entries@);
        assert(nodes@ =~= self.graph.nodes@);
        assert(edges@ =~= self.graph.edges@);
        ProjectIndex { entries, graph: DependencyGraph { nodes, edges } }
    }
}

impl Default for ProjectIndex {
    fn default() -> (r: Self)
        ensures
            r.entries@.len() == 0,
            r.graph.nodes@.len() == 0,
            r.graph.edges@.len() == 0,
    {
        ProjectIndex::new()
    }
}

} // verus!
