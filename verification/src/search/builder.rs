//! Building the project index from the scan inventory and file analyses.
use vstd::prelude::*;
use vstd::seq_lib::group_to_multiset_ensures;

use super::types::{
    DependencyGraph, GraphEdge, GraphNode, ProjectIndex, SearchResult, SearchResultKind,
    SearchResultView,
};
use crate::analysis::types::{FileAnalysis, ImportReference, Symbol, SymbolKind};
use crate::order::{
    lemma_seq_le_total, lemma_seq_le_trans, lemma_seq_lt_irrefl, lemma_seq_lt_trans,
    lemma_seq_lt_trichotomy, compare_str, keeps_ties, seq_le, seq_lt, sort_by_key, sorted_by_key, SortKey,
};
use crate::project::types::{EntryKind, ProjectEntry};
use crate::text::{lowercase, push_str, str_eq, to_lowercase};

verus! {

/// Files larger than this are not analysed.
pub const MAX_ANALYZED_BYTES: u64 = 5242880;

/// Files of a language with a parser, and not too large, are analysed.
pub open spec fn is_analyzable(e: ProjectEntry) -> bool {
    &&& e.language matches Some(l) && (l@ == "python"@ || l@ == "javascript"@ || l@
        == "typescript"@)
    &&& e.size <= MAX_ANALYZED_BYTES
}

/// Whether a file is analysed for the index.
pub fn analyzable(entry: &ProjectEntry) -> (r: bool)
    ensures
        r == is_analyzable(*entry),
{
    let supported = match &entry.language {
        Some(l) => str_eq(l, "python") || str_eq(l, "javascript") || str_eq(l, "typescript"),
        None => false,
    };
    supported && entry.size <= MAX_ANALYZED_BYTES
}

/// The `Debug` name of a symbol kind.
pub open spec fn kind_name(k: SymbolKind) -> Seq<char> {
    match k {
        SymbolKind::Class => "Class"@,
        SymbolKind::Function => "Function"@,
        SymbolKind::Method => "Method"@,
        SymbolKind::Interface => "Interface"@,
        SymbolKind::Enum => "Enum"@,
        SymbolKind::Constant => "Constant"@,
    }
}

fn symbol_kind_name(k: SymbolKind) -> (r: &'static str)
    ensures
        r@ == kind_name(k),
{
    match k {
        SymbolKind::Class => "Class",
        SymbolKind::Function => "Function",
        SymbolKind::Method => "Method",
        SymbolKind::Interface => "Interface",
        SymbolKind::Enum => "Enum",
        SymbolKind::Constant => "Constant",
    }
}

/// The search entry of a file.
pub open spec fn file_result(e: ProjectEntry) -> SearchResultView {
    SearchResultView {
        kind: SearchResultKind::File,
        label: e.name@,
        detail: e.path@,
        path: e.path@,
        line: None,
        symbol_id: None,
        analyzable: is_analyzable(e),
        score: 0,
    }
}

/// The search entry of a symbol of a file: its detail is the lowercase
/// path and kind.
pub open spec fn symbol_result(e: ProjectEntry, s: Symbol) -> SearchResultView {
    SearchResultView {
        kind: SearchResultKind::Symbol,
        label: s.name@,
        detail: lowercase(e.path@ + " · "@ + kind_name(s.kind)),
        path: e.path@,
        line: Some(s.range.start.row),
        symbol_id: Some(s.id@),
        analyzable: true,
        score: 0,
    }
}

pub open spec fn result_views(v: Seq<SearchResult>) -> Seq<SearchResultView> {
    v.map_values(|r: SearchResult| r@)
}

/// Whether a file enters the dependency graph: it was analysed.
pub open spec fn indexed(e: ProjectEntry, analysis: Option<FileAnalysis>) -> bool {
    e.kind == EntryKind::File && is_analyzable(e) && analysis is Some
}

/// The search entries an entry adds: a file adds itself and, when
/// analysed, its symbols.
pub open spec fn entry_results(e: ProjectEntry, analysis: Option<FileAnalysis>) -> Seq<SearchResultView> {
    if e.kind != EntryKind::File {
        seq![]
    } else if indexed(e, analysis) {
        seq![file_result(e)] + analysis->0.symbols@.map_values(|s: Symbol| symbol_result(e, s))
    } else {
        seq![file_result(e)]
    }
}

/// An edge by its endpoints.
pub open spec fn edge_view(e: GraphEdge) -> (Seq<char>, Seq<char>) {
    (e.source@, e.target@)
}

pub open spec fn edge_views(v: Seq<GraphEdge>) -> Seq<(Seq<char>, Seq<char>)> {
    v.map_values(|e: GraphEdge| edge_view(e))
}

/// The local imports of a file, as edges from its path.
pub open spec fn import_edges(e: ProjectEntry, imports: Seq<ImportReference>) -> Seq<(Seq<char>, Seq<char>)>
    decreases imports.len(),
{
    if imports.len() == 0 {
        seq![]
    } else {
        import_edges(e, imports.drop_last()) + match imports.last().resolved_path {
            Some(t) => seq![(e.path@, t@)],
            None => seq![],
        }
    }
}

/// Strict order of edges: by source, then by target.
pub open spec fn edge_lt(a: (Seq<char>, Seq<char>), b: (Seq<char>, Seq<char>)) -> bool {
    seq_lt(a.0, b.0) || (a.0 == b.0 && seq_lt(a.1, b.1))
}

impl SortKey for GraphEdge {
    open spec fn key_le(self, other: Self) -> bool {
        edge_lt(edge_view(self), edge_view(other)) || edge_view(self) == edge_view(other)
    }

    proof fn lemma_key_le_total(a: Self, b: Self) {
        lemma_seq_lt_trichotomy(a.source@, b.source@);
        lemma_seq_lt_trichotomy(a.target@, b.target@);
    }

    proof fn lemma_key_le_trans(a: Self, b: Self, c: Self) {
        lemma_edge_lt_trans(edge_view(a), edge_view(b), edge_view(c));
    }

    fn key_le_exec(&self, other: &Self) -> (r: bool) {
        let s = compare_str(&self.source, &other.source);
        if s != 0 {
            return s < 0;
        }
        let t = compare_str(&self.target, &other.target);
        proof {
            lemma_seq_lt_trichotomy(self.target@, other.target@);
            lemma_seq_lt_irrefl(self.target@);
        }
        t <= 0
    }
}

proof fn lemma_edge_lt_trans(a: (Seq<char>, Seq<char>), b: (Seq<char>, Seq<char>), c: (Seq<char>, Seq<char>))
    ensures
        (edge_lt(a, b) || a == b) && (edge_lt(b, c) || b == c) ==> (edge_lt(a, c) || a == c),
        edge_lt(a, b) && (edge_lt(b, c) || b == c) ==> edge_lt(a, c),
        !(edge_lt(a, b) && edge_lt(b, a)),
        !edge_lt(a, a),
{
    lemma_seq_lt_trichotomy(a.0, b.0);
    lemma_seq_lt_trichotomy(b.0, c.0);
    lemma_seq_lt_trichotomy(a.1, b.1);
    lemma_seq_lt_trichotomy(b.1, c.1);
    lemma_seq_lt_irrefl(a.0);
    lemma_seq_lt_irrefl(a.1);
    if seq_lt(a.0, b.0) && seq_lt(b.0, c.0) {
        lemma_seq_lt_trans(a.0, b.0, c.0);
    }
    if seq_lt(a.1, b.1) && seq_lt(b.1, c.1) {
        lemma_seq_lt_trans(a.1, b.1, c.1);
    }
}

impl SortKey for GraphNode {
    open spec fn key_le(self, other: Self) -> bool {
        seq_le(self.path@, other.path@)
    }

    proof fn lemma_key_le_total(a: Self, b: Self) {
        lemma_seq_le_total(a.path@, b.path@);
    }

    proof fn lemma_key_le_trans(a: Self, b: Self, c: Self) {
        lemma_seq_le_trans(a.path@, b.path@, c.path@);
    }

    fn key_le_exec(&self, other: &Self) -> (r: bool) {
        compare_str(&self.path, &other.path) <= 0
    }
}

/// Collects search entries, graph nodes and import edges file by file.
pub struct IndexBuilder {
    pub entries: Vec<SearchResult>,
    pub nodes: Vec<GraphNode>,
    pub edges: Vec<GraphEdge>,
}

/// The graph node of an analysed file.
pub open spec fn node_of(e: ProjectEntry) -> GraphNode {
    GraphNode { id: e.path, label: e.name, path: e.path }
}

impl IndexBuilder {
    pub fn new() -> (r: IndexBuilder)
        ensures
            r.entries@.len() == 0,
            r.nodes@.len() == 0,
            r.edges@.len() == 0,
    {
        IndexBuilder { entries: Vec::new(), nodes: Vec::new(), edges: Vec::new() }
    }

    /// Adds a scanned entry with its analysis, when it was analysed: a file
    /// gets a search entry; an analysed file also its symbols, a graph node
    /// and an edge per resolved import.
    pub fn add_entry(&mut self, entry: &ProjectEntry, analysis: Option<&FileAnalysis>)
        ensures
            result_views(final(self).entries@) == result_views(old(self).entries@)
                + entry_results(
                *entry,
                match analysis {
                    Some(a) => Some(*a),
                    None => None,
                },
            ),
            final(self).nodes@ == old(self).nodes@ + if indexed(
                *entry,
                match analysis {
                    Some(a) => Some(*a),
                    None => None,
                },
            ) {
                seq![node_of(*entry)]
            } else {
                seq![]
            },
            edge_views(final(self).edges@) == edge_views(old(self).edges@) + if indexed(
                *entry,
                match analysis {
                    Some(a) => Some(*a),
                    None => None,
                },
            ) {
                import_edges(*entry, analysis->0.imports@)
            } else {
                seq![]
            },
    {
        let ghost a = match analysis {
            Some(a) => Some(*a),
            None => None,
        };
        let ghost start = result_views(self.entries@);
        let ghost start_edges = edge_views(self.edges@);
        if entry.kind != EntryKind::File {
            assert(start + seq![] =~= start);
            assert(self.nodes@ + seq![] =~= self.nodes@);
            assert(start_edges + seq![] =~= start_edges);
            return ;
        }
        let is_analyzable = analyzable(entry);
        self.entries.push(
            SearchResult {
                kind: SearchResultKind::File,
                label: entry.name.clone(),
                detail: entry.path.clone(),
                path: entry.path.clone(),
                line: None,
                symbol_id: None,
                analyzable: is_analyzable,
                score: 0,
            },
        );
        assert(result_views(self.entries@) =~= start + seq![file_result(*entry)]);
        let file = match analysis {
            Some(f) => f,
            None => {
                assert(self.nodes@ + seq![] =~= self.nodes@);
                assert(start_edges + seq![] =~= start_edges);
                return ;
            },
        };
        if !is_analyzable {
            assert(self.nodes@ + seq![] =~= self.nodes@);
            assert(start_edges + seq![] =~= start_edges);
            return ;
        }
        self.nodes.push(
            GraphNode { id: entry.path.clone(), label: entry.name.clone(), path: entry.path.clone() },
        );
        let ghost with_file = result_views(self.entries@);
        let ghost f = |s: Symbol| symbol_result(*entry, s);
        let ghost nodes_now = self.nodes@;
        let ghost edges_now = self.edges@;
        for i in 0..file.symbols.len()
            invariant
                self.nodes@ == nodes_now,
                self.edges@ == edges_now,
                f == (|s: Symbol| symbol_result(*entry, s)),
                result_views(self.entries@) == with_file + file.symbols@.take(i as int).map_values(f),
        {
            let symbol = &file.symbols[i];
            let mut detail = String::new();
            push_str(&mut detail, &entry.path);
            push_str(&mut detail, " · ");
            push_str(&mut detail, symbol_kind_name(symbol.kind));
            let lower = to_lowercase(&detail);
            let ghost before = result_views(self.entries@);
            self.entries.push(
                SearchResult {
                    kind: SearchResultKind::Symbol,
                    label: symbol.name.clone(),
                    detail: lower,
                    path: entry.path.clone(),
                    line: Some(symbol.range.start.row),
                    symbol_id: Some(symbol.id.clone()),
                    analyzable: true,
                    score: 0,
                },
            );
            proof {
                assert(file.symbols@.take(i + 1).map_values(f) =~= file.symbols@.take(
                    i as int,
                ).map_values(f).push(f(file.symbols@[i as int])));
                assert(result_views(self.entries@) =~= before.push(f(file.symbols@[i as int])));
            }
        }
        assert(file.symbols@.take(file.symbols@.len() as int) =~= file.symbols@);
        let ghost mid_edges = edge_views(self.edges@);
        let ghost entries_now = self.entries@;
        for i in 0..file.imports.len()
            invariant
                self.nodes@ == nodes_now,
                self.entries@ == entries_now,
                edge_views(self.edges@) == mid_edges + import_edges(
                    *entry,
                    file.imports@.take(i as int),
                ),
        {
            assert(file.imports@.take(i + 1).drop_last() =~= file.imports@.take(i as int));
            let ghost before = edge_views(self.edges@);
            match &file.imports[i].resolved_path {
                Some(target) => {
                    self.edges.push(GraphEdge { source: entry.path.clone(), target: target.clone() });
                    assert(edge_views(self.edges@) =~= before + seq![(entry.path@, target@)]);
                },
                None => {
                    assert(before + seq![] =~= before);
                },
            }
        }
        assert(file.imports@.take(file.imports@.len() as int) =~= file.imports@);
        assert(result_views(self.entries@) =~= start + entry_results(*entry, a));
    }
}

/// Whether both ends of an edge are graph nodes.
pub open spec fn connects(nodes: Seq<GraphNode>, e: (Seq<char>, Seq<char>)) -> bool {
    &&& exists|i: int| 0 <= i < nodes.len() && #[trigger] nodes[i].id@ == e.0
    &&& exists|j: int| 0 <= j < nodes.len() && #[trigger] nodes[j].id@ == e.1
}

fn has_node(nodes: &Vec<GraphNode>, id: &str) -> (r: bool)
    ensures
        r == exists|i: int| 0 <= i < nodes@.len() && #[trigger] nodes@[i].id@ == id@,
{
    for i in 0..nodes.len()
        invariant
            forall|j: int| 0 <= j < i ==> #[trigger] nodes@[j].id@ != id@,
    {
        if str_eq(&nodes[i].id, id) {
            return true;
        }
    }
    false
}

impl IndexBuilder {
    /// The index: the entries in the order they were added, the nodes by
    /// path, and each import edge between two nodes once, in order of
    /// source and target.
    pub fn finish(self) -> (r: ProjectIndex)
        ensures
            r.entries@ == self.entries@,
            sorted_by_key(r.graph.nodes@),
            r.graph.nodes@.to_multiset() == self.nodes@.to_multiset(),
            keeps_ties(r.graph.nodes@, self.nodes@),
            forall|a: int, b: int|
                0 <= a < b < r.graph.edges@.len() ==> edge_lt(
                    edge_view(#[trigger] r.graph.edges@[a]),
                    edge_view(#[trigger] r.graph.edges@[b]),
                ),
            forall|k: int|
                0 <= k < r.graph.edges@.len() ==> edge_views(self.edges@).contains(
                    edge_view(#[trigger] r.graph.edges@[k]),
                ) && connects(self.nodes@, edge_view(r.graph.edges@[k])),
            forall|p: (Seq<char>, Seq<char>)|
                #[trigger] edge_views(self.edges@).contains(p) && connects(self.nodes@, p)
                    ==> edge_views(r.graph.edges@).contains(p),
    {
        broadcast use group_to_multiset_ensures;

        let IndexBuilder { entries, nodes, edges } = self;
        let ghost all = edge_views(edges@);
        let mut kept: Vec<GraphEdge> = Vec::new();
        for i in 0..edges.len()
            invariant
                all == edge_views(edges@),
                forall|k: int|
                    0 <= k < kept@.len() ==> all.contains(edge_view(#[trigger] kept@[k]))
                        && connects(nodes@, edge_view(kept@[k])),
                forall|t: int|
                    0 <= t < i && connects(nodes@, #[trigger] all[t]) ==> edge_views(
                        kept@,
                    ).contains(all[t]),
        {
            let e = &edges[i];
            assert(all[i as int] == edge_view(edges@[i as int]));
            if has_node(&nodes, &e.source) && has_node(&nodes, &e.target) {
                let ghost before = kept@;
                kept.push(e.clone());
                proof {
                    assert(edge_views(kept@)[kept@.len() - 1] == all[i as int]);
                    assert forall|t: int|
                        0 <= t < i + 1 && connects(nodes@, #[trigger] all[t]) implies edge_views(
                        kept@,
                    ).contains(all[t]) by {
                        if t < i {
                            let w = choose|w: int|
                                0 <= w < before.len() && edge_views(before)[w] == all[t];
                            assert(edge_views(kept@)[w] == all[t]);
                        }
                    }
                }
            }
        }
        let sorted = sort_by_key(kept);
        let mut out: Vec<GraphEdge> = Vec::new();
        for i in 0..sorted.len()
            invariant
                sorted_by_key(sorted@),
                sorted@.to_multiset() == kept@.to_multiset(),
                forall|k: int|
                    0 <= k < kept@.len() ==> all.contains(edge_view(#[trigger] kept@[k]))
                        && connects(nodes@, edge_view(kept@[k])),
                forall|a: int, b: int|
                    0 <= a < b < out@.len() ==> edge_lt(
                        edge_view(#[trigger] out@[a]),
                        edge_view(#[trigger] out@[b]),
                    ),
                i == 0 ==> out@.len() == 0,
                i > 0 ==> out@.len() > 0 && edge_view(out@[out@.len() - 1]) == edge_view(
                    sorted@[i - 1],
                ),
                forall|k: int| 0 <= k < out@.len() ==> #[trigger] sorted@.contains(out@[k]),
                forall|t: int| 0 <= t < i ==> edge_views(out@).contains(edge_view(#[trigger] sorted@[t])),
        {
            let e = &sorted[i];
            let fresh = if i == 0 {
                true
            } else {
                let last = &out[out.len() - 1];
                !(str_eq(&last.source, &e.source) && str_eq(&last.target, &e.target))
            };
            let ghost before = out@;
            if fresh {
                proof {
                    if i > 0 {
                        assert(sorted@[i - 1].key_le(sorted@[i as int]));
                        assert(edge_view(before[before.len() - 1]) != edge_view(sorted@[i as int]));
                        assert(edge_lt(edge_view(before[before.len() - 1]), edge_view(sorted@[i as int])));
                    }
                    assert forall|a: int| 0 <= a < before.len() implies edge_lt(
                        edge_view(#[trigger] before[a]),
                        edge_view(sorted@[i as int]),
                    ) by {
                        if a < before.len() - 1 {
                            lemma_edge_lt_trans(
                                edge_view(before[a]),
                                edge_view(before[before.len() - 1]),
                                edge_view(sorted@[i as int]),
                            );
                        }
                    }
                }
                out.push(e.clone());
                proof {
                    assert forall|a: int, b: int| 0 <= a < b < out@.len() implies edge_lt(
                        edge_view(#[trigger] out@[a]),
                        edge_view(#[trigger] out@[b]),
                    ) by {
                        assert(out@[a] == before[a]);
                        if b < before.len() {
                            assert(out@[b] == before[b]);
                        }
                    }
                    assert forall|t: int| 0 <= t < i + 1 implies edge_views(out@).contains(
                        edge_view(#[trigger] sorted@[t]),
                    ) by {
                        if t < i {
                            let w = choose|w: int|
                                0 <= w < before.len() && edge_views(before)[w] == edge_view(
                                    sorted@[t],
                                );
                            assert(edge_views(out@)[w] == edge_view(sorted@[t]));
                        } else {
                            assert(edge_views(out@)[out@.len() - 1] == edge_view(sorted@[t]));
                        }
                    }
                    assert forall|k: int| 0 <= k < out@.len() implies #[trigger] sorted@.contains(
                        out@[k],
                    ) by {
                        if k == out@.len() - 1 {
                            assert(sorted@[i as int] == out@[k]);
                        } else {
                            assert(out@[k] == before[k]);
                        }
                    }
                }
            } else {
                proof {
                    assert(edge_views(out@)[out@.len() - 1] == edge_view(sorted@[i as int]));
                }
            }
        }
        let nodes = sort_by_key(nodes);
        proof {
            assert forall|k: int| 0 <= k < out@.len() implies edge_views(
                edges@,
            ).contains(edge_view(#[trigger] out@[k])) && connects(
                self.nodes@,
                edge_view(out@[k]),
            ) by {
                let x = out@[k];
                vstd::seq_lib::to_multiset_contains(sorted@, x);
                vstd::seq_lib::to_multiset_contains(kept@, x);
                let w = choose|w: int| 0 <= w < kept@.len() && kept@[w] == x;
                assert(kept@[w] == x);
            }
            assert forall|p: (Seq<char>, Seq<char>)|
                #[trigger] edge_views(edges@).contains(p) && connects(self.nodes@, p) implies edge_views(
                out@,
            ).contains(p) by {
                let t = choose|t: int| 0 <= t < all.len() && all[t] == p;
                let w = choose|w: int| 0 <= w < kept@.len() && edge_views(kept@)[w] == p;
                let x = kept@[w];
                vstd::seq_lib::to_multiset_contains(kept@, x);
                vstd::seq_lib::to_multiset_contains(sorted@, x);
                let v = choose|v: int| 0 <= v < sorted@.len() && sorted@[v] == x;
                assert(edge_views(out@).contains(edge_view(sorted@[v])));
            }
        }
        ProjectIndex { entries, graph: DependencyGraph { nodes, edges: out } }
    }
}

} // verus!
