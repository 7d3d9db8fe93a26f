//! Symbol and import extraction from syntax trees.
//!
//! A file is read as the pre-order sequence of its syntax nodes. Nodes are
//! visited from the root through named children; each language says which
//! node kinds declare symbols, and a declaring node passes its name down as
//! the parent of the declarations below it.
use vstd::prelude::*;

use crate::text::{
    chars_of, push_str, starts_with, str_eq, str_starts_with, str_trim, str_trim_end_char,
    str_trim_start, string_of, subseq, trim, trim_by, trim_end_by, trim_end_char, trim_start,
    trim_start_by,
};

use super::source_text::{text_at, SourceText};
use super::syntax::{
    node_count, node_shape, node_span, parse_syntax, syntax_cursor, syntax_node_count,
    syntax_shape, syntax_span, grammar_error, Grammar,
};
use super::types::{AnalysisError, FileAnalysis, ImportKind, ImportReference};
use crate::digest::{blake3_hex, hash_hex};
use crate::languages::{file_symbols, language_of_path, path_extension, LanguageParser};
use crate::project::paths::{extension, file_name};
use vstd::utf8::encode_utf8;
use super::syntax::{NodeShape, NodeSpan};
use super::tree::{
    children_from, field_child, field_children, first_child, has_field, indices, is_named, named_children,
    pre_order, prev_named_sibling, previous_named_sibling,
};
use super::types::{SourcePosition, SourceRange, Symbol, SymbolKind, SymbolView, symbol_views};

verus! {

/// What symbol extraction reads: the file's path, its text, and its syntax
/// nodes in pre-order with their spans.
pub struct SyntaxInput {
    pub path: Seq<char>,
    pub source: Seq<char>,
    pub nodes: Seq<NodeShape>,
    pub spans: Seq<NodeSpan>,
}

/// The text between two byte offsets of the source.
pub open spec fn input_text(inp: SyntaxInput, a: int, b: int) -> Option<Seq<char>> {
    text_at(inp.source, a, b)
}

/// The text of node `i`.
pub open spec fn node_text(inp: SyntaxInput, i: int) -> Option<Seq<char>> {
    input_text(inp, inp.spans[i].start_byte as int, inp.spans[i].end_byte as int)
}

/// A zero-based row or column counted from one. Tree-sitter's points are
/// 32-bit, so one more always fits a 64-bit `usize`; on a 32-bit machine
/// the last value stays as it is.
pub open spec fn one_based(x: usize) -> usize {
    if x < usize::MAX {
        (x + 1) as usize
    } else {
        x
    }
}

/// The one-based range of a span.
pub open spec fn range_of(s: NodeSpan) -> SourceRange {
    SourceRange {
        start: SourcePosition { row: one_based(s.start_row), column: one_based(s.start_column) },
        end: SourcePosition { row: one_based(s.end_row), column: one_based(s.end_column) },
    }
}

/// A one-based position from a zero-based row and column.
pub fn position(row: usize, column: usize) -> (r: SourcePosition)
    ensures
        r.row == one_based(row),
        r.column == one_based(column),
{
    SourcePosition { row: row.saturating_add(1), column: column.saturating_add(1) }
}

pub fn range(span: &NodeSpan) -> (r: SourceRange)
    ensures
        r == range_of(*span),
{
    SourceRange {
        start: position(span.start_row, span.start_column),
        end: position(span.end_row, span.end_column),
    }
}

/// Characters stripped around documentation comments and docstrings.
pub open spec fn doc_marker() -> spec_fn(char) -> bool {
    |c: char| c == '#' || c == '/' || c == '*' || c == '"' || c == '\''
}

fn is_doc_marker(c: char) -> (r: bool)
    ensures
        r == doc_marker()(c),
{
    c == '#' || c == '/' || c == '*' || c == '"' || c == '\''
}

/// Strips comment and quote characters from both ends.
pub fn trim_doc_markers(s: &str) -> (r: String)
    ensures
        r@ == trim_by(s@, doc_marker()),
{
    let v = chars_of(s);
    let mut lo: usize = 0;
    assert(v@.skip(0) =~= v@);
    while lo < v.len() && is_doc_marker(v[lo])
        invariant
            lo <= v.len(),
            v@ == s@,
            trim_start_by(v@, doc_marker()) == trim_start_by(v@.skip(lo as int), doc_marker()),
        decreases v.len() - lo,
    {
        assert(v@.skip(lo as int).drop_first() =~= v@.skip(lo + 1));
        lo = lo + 1;
    }
    let ghost t = v@.skip(lo as int);
    assert(trim_start_by(v@, doc_marker()) == t);
    let mut hi: usize = v.len();
    assert(t.take(t.len() as int) =~= t);
    while hi > lo && is_doc_marker(v[hi - 1])
        invariant
            lo <= hi <= v.len(),
            t == v@.skip(lo as int),
            trim_end_by(t, doc_marker()) == trim_end_by(t.take(hi - lo), doc_marker()),
        decreases hi,
    {
        assert(t.take(hi - lo).drop_last() =~= t.take(hi - lo - 1));
        hi = hi - 1;
    }
    let w = subseq(&v, lo, hi);
    assert(w@ =~= t.take(hi - lo));
    string_of(&w)
}

pub open spec fn is_ascii_upper(c: char) -> bool {
    'A' <= c && c <= 'Z'
}

pub open spec fn is_ascii_alpha(c: char) -> bool {
    ('A' <= c && c <= 'Z') || ('a' <= c && c <= 'z')
}

pub open spec fn is_ascii_digit(c: char) -> bool {
    '0' <= c && c <= '9'
}

/// A constant's name: not empty, with a letter, and only uppercase ASCII
/// letters, digits and underscores.
pub open spec fn constant_name(s: Seq<char>) -> bool {
    &&& s.len() > 0
    &&& exists|i: int| 0 <= i < s.len() && is_ascii_alpha(#[trigger] s[i])
    &&& forall|i: int|
        0 <= i < s.len() ==> is_ascii_upper(#[trigger] s[i]) || is_ascii_digit(s[i]) || s[i] == '_'
}

/// Whether `name` is written like a constant.
pub fn is_constant_name(name: &str) -> (r: bool)
    ensures
        r == constant_name(name@),
{
    let v = chars_of(name);
    if v.len() == 0 {
        return false;
    }
    let mut letter = false;
    for i in 0..v.len()
        invariant
            v@ == name@,
            forall|j: int|
                0 <= j < i ==> is_ascii_upper(#[trigger] v@[j]) || is_ascii_digit(v@[j]) || v@[j]
                    == '_',
            letter == exists|j: int| 0 <= j < i && is_ascii_alpha(#[trigger] v@[j]),
    {
        let c = v[i];
        if !(('A' <= c && c <= 'Z') || ('0' <= c && c <= '9') || c == '_') {
            assert(!(is_ascii_upper(v@[i as int]) || is_ascii_digit(v@[i as int]) || v@[i as int]
                == '_'));
            return false;
        }
        if ('A' <= c && c <= 'Z') || ('a' <= c && c <= 'z') {
            letter = true;
        }
        assert(letter == exists|j: int| 0 <= j < i + 1 && is_ascii_alpha(#[trigger] v@[j])) by {
            if is_ascii_alpha(v@[i as int]) {
                assert(is_ascii_alpha(v@[i as int]));
            }
        }
    }
    letter
}

/// The name a declaration gets below a parent declaration.
pub open spec fn qualified(parent: Option<Seq<char>>, name: Seq<char>) -> Seq<char> {
    match parent {
        Some(p) => p + "."@ + name,
        None => name,
    }
}

/// The comment or docstring right before node `i`, at most one blank line
/// above it, stripped of comment and quote characters.
pub open spec fn documentation_of(inp: SyntaxInput, i: int) -> Option<Seq<char>> {
    match prev_named_sibling(inp.nodes, i) {
        None => None,
        Some(j) => if !(inp.nodes[j].kind@ == "comment"@ || inp.nodes[j].kind@ == "string"@)
            || inp.spans[j].end_row + 2 < inp.spans[i].start_row {
            None
        } else {
            match node_text(inp, j) {
                Some(t) => Some(trim(trim_by(trim(t), doc_marker()))),
                None => None,
            }
        },
    }
}

/// The symbol declared by node `i`.
pub open spec fn symbol_at(
    inp: SyntaxInput,
    i: int,
    name: Seq<char>,
    kind: SymbolKind,
    signature: Seq<char>,
    parent: Option<Seq<char>>,
) -> SymbolView {
    SymbolView {
        id: inp.path + ":"@ + qualified(parent, name),
        name,
        qualified_name: qualified(parent, name),
        kind,
        signature,
        documentation: documentation_of(inp, i),
        range: range_of(inp.spans[i]),
        parent_id: match parent {
            Some(p) => Some(inp.path + ":"@ + p),
            None => None,
        },
    }
}

/// Collects the symbols of one file.
pub struct SymbolCollector {
    pub path: String,
    pub source: SourceText,
    pub nodes: Vec<NodeShape>,
    pub spans: Vec<NodeSpan>,
    pub symbols: Vec<Symbol>,
}

impl SymbolCollector {
    /// A collector for a file's syntax nodes, with no symbols yet.
    pub fn new(path: &str, source: &str, nodes: Vec<NodeShape>, spans: Vec<NodeSpan>) -> (r: Self)
        requires
            pre_order(nodes@),
            nodes@.len() == spans@.len(),
        ensures
            r.wf(),
            r.input() == (SyntaxInput { path: path@, source: source@, nodes: nodes@, spans: spans@ }),
            r.symbols@.len() == 0,
    {
        SymbolCollector {
            path: path.to_owned(),
            source: SourceText::new(source),
            nodes,
            spans,
            symbols: Vec::new(),
        }
    }

    pub open spec fn input(&self) -> SyntaxInput {
        SyntaxInput {
            path: self.path@,
            source: self.source.chars@,
            nodes: self.nodes@,
            spans: self.spans@,
        }
    }

    pub open spec fn wf(&self) -> bool {
        &&& self.source.wf()
        &&& self.nodes@.len() == self.spans@.len()
        &&& pre_order(self.nodes@)
    }

    /// Only the symbol list changes.
    pub open spec fn same_input(&self, other: &SymbolCollector) -> bool {
        &&& self.path == other.path
        &&& self.source.chars@ == other.source.chars@
        &&& self.source.offsets@ == other.source.offsets@
        &&& self.nodes@ == other.nodes@
        &&& self.spans@ == other.spans@
    }

    /// The text of node `i`.
    fn text(&self, i: usize) -> (r: Option<String>)
        requires
            self.wf(),
            i < self.nodes@.len(),
        ensures
            match r {
                Some(t) => node_text(self.input(), i as int) == Some(t@),
                None => node_text(self.input(), i as int) is None,
            },
    {
        self.source.text(self.spans[i].start_byte, self.spans[i].end_byte)
    }

    /// The documentation right before node `i`.
    fn documentation(&self, i: usize) -> (r: Option<String>)
        requires
            self.wf(),
            i < self.nodes@.len(),
        ensures
            match r {
                Some(t) => documentation_of(self.input(), i as int) == Some(t@),
                None => documentation_of(self.input(), i as int) is None,
            },
    {
        let previous = match previous_named_sibling(&self.nodes, i) {
            Some(j) => j,
            None => return None,
        };
        let kind = &self.nodes[previous].kind;
        if !(str_eq(kind, "comment") || str_eq(kind, "string")) {
            return None;
        }
        let end_row = self.spans[previous].end_row;
        let start_row = self.spans[i].start_row;
        if end_row < start_row && start_row - end_row > 2 {
            return None;
        }
        match self.text(previous) {
            Some(t) => {
                let outer = str_trim(&t);
                let stripped = trim_doc_markers(&outer);
                Some(str_trim(&stripped))
            },
            None => None,
        }
    }

    /// Records the symbol declared by node `i`.
    fn push_symbol(
        &mut self,
        i: usize,
        name: &str,
        kind: SymbolKind,
        signature: String,
        parent: Option<&str>,
    )
        requires
            old(self).wf(),
            i < old(self).nodes@.len(),
        ensures
            final(self).wf(),
            final(self).same_input(old(self)),
            symbol_views(final(self).symbols@) == symbol_views(old(self).symbols@).push(
                symbol_at(
                    old(self).input(),
                    i as int,
                    name@,
                    kind,
                    signature@,
                    match parent {
                        Some(p) => Some(p@),
                        None => None,
                    },
                ),
            ),
    {
        let ghost pv: Option<Seq<char>> = match parent {
            Some(p) => Some(p@),
            None => None,
        };
        let qualified_name = match parent {
            Some(p) => {
                let mut q = String::new();
                push_str(&mut q, p);
                push_str(&mut q, ".");
                push_str(&mut q, name);
                q
            },
            None => name.to_owned(),
        };
        assert(qualified_name@ == qualified(pv, name@));
        let parent_id = match parent {
            Some(p) => {
                let mut q = String::new();
                push_str(&mut q, &self.path);
                push_str(&mut q, ":");
                push_str(&mut q, p);
                Some(q)
            },
            None => None,
        };
        let mut id = String::new();
        push_str(&mut id, &self.path);
        push_str(&mut id, ":");
        push_str(&mut id, &qualified_name);
        let documentation = self.documentation(i);
        let range = range(&self.spans[i]);
        let symbol = Symbol {
            id,
            name: name.to_owned(),
            qualified_name,
            kind,
            signature,
            documentation,
            range,
            parent_id,
        };
        let ghost before = self.symbols@;
        self.symbols.push(symbol);
        assert(symbol_views(self.symbols@) =~= symbol_views(before).push(symbol@));
    }
}

/// The view of an optional borrowed text.
pub open spec fn opt_text(o: Option<&str>) -> Option<Seq<char>> {
    match o {
        Some(t) => Some(t@),
        None => None,
    }
}

/// Applies `f` to each item and concatenates the results.
pub open spec fn concat_map<A, B>(items: Seq<A>, f: spec_fn(A) -> Seq<B>) -> Seq<B>
    decreases items.len(),
{
    if items.len() == 0 {
        seq![]
    } else {
        concat_map(items.drop_last(), f) + f(items.last())
    }
}

/// What declaring node `i` yields: its symbol, if it has a non-empty name,
/// and that name, which the declarations below it take as their parent.
/// The signature is the text from the node's start to its body (or its
/// end), without a trailing `:`; it is empty when those offsets are not
/// character boundaries, which tree-sitter's offsets always are.
pub open spec fn named_outcome(
    inp: SyntaxInput,
    i: int,
    kind: SymbolKind,
    name_field: Seq<char>,
    body_field: Seq<char>,
    parent: Option<Seq<char>>,
) -> (Seq<SymbolView>, Option<Seq<char>>) {
    match first_child(inp.nodes, i, has_field(name_field)) {
        None => (seq![], None),
        Some(n) => match node_text(inp, n) {
            None => (seq![], None),
            Some(t) => {
                let name = trim(t);
                if name.len() == 0 {
                    (seq![], None)
                } else {
                    let end = match first_child(inp.nodes, i, has_field(body_field)) {
                        Some(b) => inp.spans[b].start_byte as int,
                        None => inp.spans[i].end_byte as int,
                    };
                    let head = match input_text(inp, inp.spans[i].start_byte as int, end) {
                        Some(h) => h,
                        None => seq![],
                    };
                    let signature = trim(trim_end_char(trim(head), ':'));
                    (seq![symbol_at(inp, i, name, kind, signature, parent)], Some(name))
                }
            },
        },
    }
}

/// A module-level assignment to a constant-like name declares a constant;
/// its signature is the whole assignment.
pub open spec fn python_constant_outcome(
    inp: SyntaxInput,
    i: int,
    parent: Option<Seq<char>>,
) -> Seq<SymbolView> {
    if parent is Some {
        seq![]
    } else {
        match first_child(inp.nodes, i, has_field("left"@)) {
            None => seq![],
            Some(l) => match node_text(inp, l) {
                None => seq![],
                Some(t) => {
                    let name = trim(t);
                    if constant_name(name) {
                        let signature = trim(
                            match node_text(inp, i) {
                                Some(x) => x,
                                None => name,
                            },
                        );
                        seq![symbol_at(inp, i, name, SymbolKind::Constant, signature, parent)]
                    } else {
                        seq![]
                    }
                },
            },
        }
    }
}

/// Node kinds whose value makes a variable a function.
pub open spec fn function_value(kind: Option<Seq<char>>) -> bool {
    kind == Some("arrow_function"@) || kind == Some("function"@) || kind == Some(
        "generator_function"@,
    )
}

/// What a variable declarator yields: a function when its value is one, a
/// constant when the declaration is `const` and the name is constant-like.
pub open spec fn declarator_outcome(
    inp: SyntaxInput,
    c: int,
    is_const: bool,
    parent: Option<Seq<char>>,
) -> Seq<SymbolView> {
    if inp.nodes[c].kind@ != "variable_declarator"@ {
        seq![]
    } else {
        match first_child(inp.nodes, c, has_field("name"@)) {
            None => seq![],
            Some(n) => match node_text(inp, n) {
                None => seq![],
                Some(t) => {
                    let name = trim(t);
                    let value_kind = match first_child(inp.nodes, c, has_field("value"@)) {
                        Some(v) => Some(inp.nodes[v].kind@),
                        None => None,
                    };
                    let kind = if function_value(value_kind) {
                        Some(SymbolKind::Function)
                    } else if is_const && constant_name(name) {
                        Some(SymbolKind::Constant)
                    } else {
                        None
                    };
                    match kind {
                        None => seq![],
                        Some(k) => {
                            let signature = trim(
                                match node_text(inp, c) {
                                    Some(x) => x,
                                    None => name,
                                },
                            );
                            seq![symbol_at(inp, c, name, k, signature, parent)]
                        },
                    }
                },
            },
        }
    }
}

/// Whether a declaration's text starts with `const`.
pub open spec fn const_declaration(inp: SyntaxInput, i: int) -> bool {
    let declaration = trim_start(
        match node_text(inp, i) {
            Some(t) => t,
            None => seq![],
        },
    );
    starts_with(declaration, "const "@) || starts_with(declaration, "export const "@)
}

/// The symbols of the declarators of a `let`/`const` declaration.
pub open spec fn declarations_outcome(
    inp: SyntaxInput,
    i: int,
    parent: Option<Seq<char>>,
) -> Seq<SymbolView> {
    concat_map(
        children_from(inp.nodes, i, i + 1, is_named()),
        declarator_fn(inp, const_declaration(inp, i), parent),
    )
}

pub open spec fn declarator_fn(
    inp: SyntaxInput,
    is_const: bool,
    parent: Option<Seq<char>>,
) -> spec_fn(int) -> Seq<SymbolView> {
    |c: int| declarator_outcome(inp, c, is_const, parent)
}

proof fn lemma_concat_map_push<A, B>(items: Seq<A>, x: A, f: spec_fn(A) -> Seq<B>)
    ensures
        concat_map(items.push(x), f) == concat_map(items, f) + f(x),
{
    assert(items.push(x).drop_last() =~= items);
}

impl SymbolCollector {
    /// Records the declaration at node `i` and gives its name.
    pub fn push_named(
        &mut self,
        i: usize,
        kind: SymbolKind,
        name_field: &str,
        body_field: &str,
        parent: Option<&str>,
    ) -> (r: Option<String>)
        requires
            old(self).wf(),
            i < old(self).nodes@.len(),
        ensures
            final(self).wf(),
            final(self).same_input(old(self)),
            symbol_views(final(self).symbols@) == symbol_views(old(self).symbols@) + named_outcome(
                old(self).input(),
                i as int,
                kind,
                name_field@,
                body_field@,
                opt_text(parent),
            ).0,
            opt_view_of(r) == named_outcome(
                old(self).input(),
                i as int,
                kind,
                name_field@,
                body_field@,
                opt_text(parent),
            ).1,
    {
        let ghost before = symbol_views(self.symbols@);
        let name_node = match field_child(&self.nodes, i, name_field) {
            Some(n) => n,
            None => {
                assert(before + seq![] =~= before);
                return None;
            },
        };
        let text = match self.text(name_node) {
            Some(t) => t,
            None => {
                assert(before + seq![] =~= before);
                return None;
            },
        };
        let name = str_trim(&text);
        if crate::text::str_is_empty(&name) {
            assert(before + seq![] =~= before);
            return None;
        }
        let end = match field_child(&self.nodes, i, body_field) {
            Some(b) => self.spans[b].start_byte,
            None => self.spans[i].end_byte,
        };
        let head = match self.source.text(self.spans[i].start_byte, end) {
            Some(h) => h,
            None => String::new(),
        };
        let a = str_trim(&head);
        let b = str_trim_end_char(&a, ':');
        let signature = str_trim(&b);
        self.push_symbol(i, &name, kind, signature, parent);
        assert(before.push(symbol_views(self.symbols@).last()) =~= before + seq![
            symbol_views(self.symbols@).last(),
        ]);
        Some(name)
    }

    /// Records node `i`, an assignment, when it assigns a constant at
    /// module level.
    pub fn push_python_constant(&mut self, i: usize, parent: Option<&str>)
        requires
            old(self).wf(),
            i < old(self).nodes@.len(),
        ensures
            final(self).wf(),
            final(self).same_input(old(self)),
            symbol_views(final(self).symbols@) == symbol_views(old(self).symbols@)
                + python_constant_outcome(old(self).input(), i as int, opt_text(parent)),
    {
        let ghost before = symbol_views(self.symbols@);
        assert(before + seq![] =~= before);
        if parent.is_some() {
            return;
        }
        let left = match field_child(&self.nodes, i, "left") {
            Some(l) => l,
            None => return ,
        };
        let text = match self.text(left) {
            Some(t) => t,
            None => return ,
        };
        let name = str_trim(&text);
        if is_constant_name(&name) {
            let whole = match self.text(i) {
                Some(x) => x,
                None => name.clone(),
            };
            let signature = str_trim(&whole);
            self.push_symbol(i, &name, SymbolKind::Constant, signature, parent);
            assert(before.push(symbol_views(self.symbols@).last()) =~= before + seq![
                symbol_views(self.symbols@).last(),
            ]);
        }
    }
}

/// The view of an optional owned text.
pub open spec fn opt_view_of(o: Option<String>) -> Option<Seq<char>> {
    match o {
        Some(t) => Some(t@),
        None => None,
    }
}

impl SymbolCollector {
    /// Records the symbol of variable declarator `c`, if it declares one.
    fn push_declarator(&mut self, c: usize, is_const: bool, parent: Option<&str>)
        requires
            old(self).wf(),
            c < old(self).nodes@.len(),
        ensures
            final(self).wf(),
            final(self).same_input(old(self)),
            symbol_views(final(self).symbols@) == symbol_views(old(self).symbols@)
                + declarator_outcome(old(self).input(), c as int, is_const, opt_text(parent)),
    {
        let ghost before = symbol_views(self.symbols@);
        assert(before + seq![] =~= before);
        if !str_eq(&self.nodes[c].kind, "variable_declarator") {
            return ;
        }
        let name_node = match field_child(&self.nodes, c, "name") {
            Some(n) => n,
            None => return ,
        };
        let text = match self.text(name_node) {
            Some(t) => t,
            None => return ,
        };
        let name = str_trim(&text);
        let is_function = match field_child(&self.nodes, c, "value") {
            Some(v) => {
                let k = &self.nodes[v].kind;
                str_eq(k, "arrow_function") || str_eq(k, "function") || str_eq(
                    k,
                    "generator_function",
                )
            },
            None => false,
        };
        let kind = if is_function {
            SymbolKind::Function
        } else if is_const && is_constant_name(&name) {
            SymbolKind::Constant
        } else {
            return ;
        };
        let whole = match self.text(c) {
            Some(x) => x,
            None => name.clone(),
        };
        let signature = str_trim(&whole);
        self.push_symbol(c, &name, kind, signature, parent);
        assert(before.push(symbol_views(self.symbols@).last()) =~= before + seq![
            symbol_views(self.symbols@).last(),
        ]);
    }

    /// Records the functions and constants of a `let`/`const` declaration.
    pub fn push_javascript_declarations(&mut self, i: usize, parent: Option<&str>)
        requires
            old(self).wf(),
            i < old(self).nodes@.len(),
        ensures
            final(self).wf(),
            final(self).same_input(old(self)),
            symbol_views(final(self).symbols@) == symbol_views(old(self).symbols@)
                + declarations_outcome(old(self).input(), i as int, opt_text(parent)),
    {
        let ghost inp = self.input();
        let ghost pv = opt_text(parent);
        let declaration = match self.text(i) {
            Some(t) => str_trim_start(&t),
            None => {
                assert(trim_start(seq![]) == Seq::<char>::empty());
                String::new()
            },
        };
        let is_const = str_starts_with(&declaration, "const ") || str_starts_with(
            &declaration,
            "export const ",
        );
        assert(is_const == const_declaration(inp, i as int));
        let children = named_children(&self.nodes, i);
        let ghost start = symbol_views(self.symbols@);
        let ghost f = declarator_fn(inp, is_const, pv);
        assert(indices(children@).take(0) =~= Seq::<int>::empty());
        assert(start + seq![] =~= start);
        for t in 0..children.len()
            invariant
                self.wf(),
                self.same_input(old(self)),
                inp == old(self).input(),
                f == declarator_fn(inp, is_const, pv),
                pv == opt_text(parent),
                forall|u: int| 0 <= u < children@.len() ==> #[trigger] children@[u] < inp.nodes.len(),
                symbol_views(self.symbols@) == start + concat_map(indices(children@).take(t as int), f),
        {
            let ghost mid = symbol_views(self.symbols@);
            let c = children[t];
            self.push_declarator(c, is_const, parent);
            proof {
                let prefix = indices(children@).take(t as int);
                assert(indices(children@).take(t + 1) =~= prefix.push(c as int));
                lemma_concat_map_push(prefix, c as int, f);
                vstd::seq_lib::lemma_concat_associative(start, concat_map(prefix, f), f(c as int));
            }
        }
        assert(indices(children@).take(children@.len() as int) =~= indices(children@));
    }
}

/// One text, or none.
pub open spec fn opt_seq(o: Option<Seq<char>>) -> Seq<Seq<char>> {
    match o {
        Some(t) => seq![t],
        None => seq![],
    }
}

/// A quoted string's text without its quotes.
pub open spec fn unquoted(t: Seq<char>) -> Seq<char> {
    if t.len() >= 2 {
        t.subrange(1, t.len() - 1)
    } else {
        t
    }
}

/// The module a Python `import` names with node `k`: the dotted name, or
/// for `a as b` the name before `as`.
pub open spec fn python_import_name(inp: SyntaxInput, k: int) -> Option<Seq<char>> {
    if inp.nodes[k].kind@ == "aliased_import"@ {
        match first_child(inp.nodes, k, has_field("name"@)) {
            Some(m) => node_text(inp, m),
            None => None,
        }
    } else {
        node_text(inp, k)
    }
}

/// The modules named by the nodes `ks` of a Python `import`.
pub open spec fn python_import_names(inp: SyntaxInput, ks: Seq<int>) -> Seq<Seq<char>>
    decreases ks.len(),
{
    if ks.len() == 0 {
        seq![]
    } else {
        python_import_names(inp, ks.drop_last()) + opt_seq(python_import_name(inp, ks.last()))
    }
}

/// The modules that node `i` imports: in Python each `name` of an
/// `import` and the `module_name` of a `from ... import`; in JavaScript
/// and TypeScript the `source` string of an `import`, without its quotes.
pub open spec fn imports_at(inp: SyntaxInput, lang: LanguageParser, i: int) -> Seq<Seq<char>> {
    let kind = inp.nodes[i].kind@;
    match lang {
        LanguageParser::Python(_) => if kind == "import_statement"@ {
            python_import_names(inp, children_from(inp.nodes, i, i + 1, has_field("name"@)))
        } else if kind == "import_from_statement"@ {
            match first_child(inp.nodes, i, has_field("module_name"@)) {
                Some(k) => opt_seq(node_text(inp, k)),
                None => seq![],
            }
        } else {
            seq![]
        },
        _ => if kind == "import_statement"@ {
            match first_child(inp.nodes, i, has_field("source"@)) {
                Some(k) => match node_text(inp, k) {
                    Some(t) => seq![unquoted(t)],
                    None => seq![],
                },
                None => seq![],
            }
        } else {
            seq![]
        },
    }
}

/// The modules imported by the nodes before index `n`, in order.
pub open spec fn imports_upto(inp: SyntaxInput, lang: LanguageParser, n: int) -> Seq<Seq<char>>
    decreases n,
{
    if n <= 0 {
        seq![]
    } else {
        imports_upto(inp, lang, n - 1) + imports_at(inp, lang, n - 1)
    }
}

/// The modules a file imports, in source order.
pub open spec fn file_imports(inp: SyntaxInput, lang: LanguageParser) -> Seq<Seq<char>> {
    imports_upto(inp, lang, inp.nodes.len() as int)
}

/// The module names of a list of imports.
pub open spec fn import_modules(v: Seq<ImportReference>) -> Seq<Seq<char>> {
    v.map_values(|r: ImportReference| r.module@)
}

/// Freshly read imports: not resolved to a file yet.
pub open spec fn unresolved(v: Seq<ImportReference>) -> bool {
    forall|k: int|
        0 <= k < v.len() ==> (#[trigger] v[k]).kind == ImportKind::External
            && v[k].resolved_path is None
}

impl SymbolCollector {
    fn python_import_name_of(&self, k: usize) -> (r: Option<String>)
        requires
            self.wf(),
            k < self.nodes@.len(),
        ensures
            match r {
                Some(t) => python_import_name(self.input(), k as int) == Some(t@),
                None => python_import_name(self.input(), k as int) is None,
            },
    {
        if str_eq(&self.nodes[k].kind, "aliased_import") {
            match field_child(&self.nodes, k, "name") {
                Some(m) => self.text(m),
                None => None,
            }
        } else {
            self.text(k)
        }
    }

    /// Appends the modules that node `i` imports.
    fn push_imports_at(&self, language: &LanguageParser, i: usize, out: &mut Vec<ImportReference>)
        requires
            self.wf(),
            i < self.nodes@.len(),
        ensures
            import_modules(final(out)@) == import_modules(old(out)@) + imports_at(
                self.input(),
                *language,
                i as int,
            ),
            unresolved(old(out)@) ==> unresolved(final(out)@),
    {
        let ghost inp = self.input();
        let ghost start = out@;
        let python = match language {
            LanguageParser::Python(_) => true,
            _ => false,
        };
        let kind = &self.nodes[i].kind;
        if python && str_eq(kind, "import_statement") {
            let ks = field_children(&self.nodes, i, "name");
            for t in 0..ks.len()
                invariant
                    self.wf(),
                    i < self.nodes@.len(),
                    inp == self.input(),
                    indices(ks@) == children_from(inp.nodes, i as int, i + 1, has_field("name"@)),
                    forall|u: int| 0 <= u < ks@.len() ==> i < #[trigger] ks@[u] < self.nodes@.len(),
                    import_modules(out@) == import_modules(start) + python_import_names(
                        inp,
                        indices(ks@).take(t as int),
                    ),
                    unresolved(start) ==> unresolved(out@),
            {
                let ghost before = out@;
                assert(indices(ks@).take(t + 1).drop_last() =~= indices(ks@).take(t as int));
                assert(indices(ks@).take(t + 1).last() == ks@[t as int] as int);
                match self.python_import_name_of(ks[t]) {
                    Some(m) => {
                        out.push(ImportReference { module: m, kind: ImportKind::External, resolved_path: None });
                    },
                    None => {},
                }
                assert(import_modules(out@) =~= import_modules(before) + opt_seq(
                    python_import_name(inp, ks@[t as int] as int),
                ));
                assert(import_modules(out@) =~= import_modules(start) + python_import_names(
                    inp,
                    indices(ks@).take(t + 1),
                ));
            }
            assert(indices(ks@).take(ks@.len() as int) =~= indices(ks@));
        } else if python && str_eq(kind, "import_from_statement") {
            match field_child(&self.nodes, i, "module_name") {
                Some(k) => match self.text(k) {
                    Some(m) => {
                        out.push(ImportReference { module: m, kind: ImportKind::External, resolved_path: None });
                    },
                    None => {},
                },
                None => {},
            }
            assert(import_modules(out@) =~= import_modules(start) + imports_at(inp, *language, i as int));
        } else if !python && str_eq(kind, "import_statement") {
            match field_child(&self.nodes, i, "source") {
                Some(k) => match self.text(k) {
                    Some(t) => {
                        let cs = chars_of(&t);
                        let inner = if cs.len() >= 2 {
                            subseq(&cs, 1, cs.len() - 1)
                        } else {
                            cs
                        };
                        out.push(ImportReference { module: string_of(&inner), kind: ImportKind::External, resolved_path: None });
                    },
                    None => {},
                },
                None => {},
            }
            assert(import_modules(out@) =~= import_modules(start) + imports_at(inp, *language, i as int));
        } else {
            assert(import_modules(out@) =~= import_modules(start) + imports_at(inp, *language, i as int));
        }
    }

    /// The modules the file imports, in source order, not resolved yet.
    pub fn collect_imports(&self, language: &LanguageParser) -> (r: Vec<ImportReference>)
        requires
            self.wf(),
        ensures
            import_modules(r@) == file_imports(self.input(), *language),
            unresolved(r@),
    {
        let mut out: Vec<ImportReference> = Vec::new();
        assert(import_modules(out@) =~= imports_upto(self.input(), *language, 0));
        for i in 0..self.nodes.len()
            invariant
                self.wf(),
                import_modules(out@) == imports_upto(self.input(), *language, i as int),
                unresolved(out@),
        {
            self.push_imports_at(language, i, &mut out);
        }
        out
    }
}

/// Number of nodes before index `n` that are errors or missing.
pub open spec fn error_count(nodes: Seq<NodeShape>, n: int) -> nat
    decreases n,
{
    if n <= 0 {
        0
    } else {
        error_count(nodes, n - 1) + if nodes[n - 1].error || nodes[n - 1].missing {
            1nat
        } else {
            0nat
        }
    }
}

/// Number of error and missing nodes of a tree.
pub fn count_errors(nodes: &Vec<NodeShape>) -> (r: usize)
    ensures
        r == error_count(nodes@, nodes@.len() as int),
{
    let mut count: usize = 0;
    for i in 0..nodes.len()
        invariant
            count == error_count(nodes@, i as int),
            count <= i,
    {
        if nodes[i].error || nodes[i].missing {
            count = count + 1;
        }
    }
    count
}

/// The analysis of a file: its symbols as the language reads them from
/// the syntax nodes, the number of syntax errors and the digest of its text.
pub open spec fn analysis_of(
    a: FileAnalysis,
    relative_path: Seq<char>,
    source: Seq<char>,
    lang: LanguageParser,
    nodes: Seq<NodeShape>,
    spans: Seq<NodeSpan>,
) -> bool {
    &&& a.path@ == relative_path
    &&& a.language@ == lang.id_of()
    &&& a.content_hash@ == blake3_hex(encode_utf8(source))
    &&& a.source@ == source
    &&& symbol_views(a.symbols@) == file_symbols(
        SyntaxInput { path: relative_path, source, nodes, spans },
        lang,
    )
    &&& import_modules(a.imports@) == file_imports(
        SyntaxInput { path: relative_path, source, nodes, spans },
        lang,
    )
    &&& unresolved(a.imports@)
    &&& a.parse_errors == error_count(nodes, nodes.len() as int)
    &&& !a.cached
}

/// Analyses a file from its syntax nodes in pre-order and their spans.
pub fn analyze_syntax(
    relative_path: &str,
    source: String,
    language: &LanguageParser,
    nodes: Vec<NodeShape>,
    spans: Vec<NodeSpan>,
) -> (r: FileAnalysis)
    requires
        pre_order(nodes@),
        nodes@.len() == spans@.len(),
    ensures
        analysis_of(r, relative_path@, source@, *language, nodes@, spans@),
{
    let parse_errors = count_errors(&nodes);
    let content_hash = hash_hex(source.as_str().as_bytes());
    let mut collector = SymbolCollector::new(relative_path, &source, nodes, spans);
    assert(symbol_views(collector.symbols@) =~= Seq::<SymbolView>::empty());
    language.collect_symbols(&mut collector);
    assert(symbol_views(collector.symbols@) =~= file_symbols(collector.input(), *language));
    let imports = collector.collect_imports(language);
    FileAnalysis {
        path: relative_path.to_owned(),
        language: language.id().to_owned(),
        content_hash,
        source,
        symbols: collector.symbols,
        imports,
        parse_errors,
        cached: false,
    }
}

/// The nodes of the tree of `source`, in pre-order.
pub open spec fn syntax_nodes(source: Seq<char>, grammar: Grammar) -> Seq<NodeShape> {
    Seq::new(syntax_node_count(source, grammar), |k: int| syntax_shape(source, grammar, k))
}

/// The spans of the nodes of the tree of `source`, in pre-order.
pub open spec fn syntax_spans(source: Seq<char>, grammar: Grammar) -> Seq<NodeSpan> {
    Seq::new(syntax_node_count(source, grammar), |k: int| syntax_span(source, grammar, k))
}

/// The grammar a path is parsed with: the language's grammar for the
/// extension as written.
pub open spec fn grammar_for(lang: LanguageParser, path: Seq<char>) -> Grammar {
    lang.grammar_of(
        match path_extension(path) {
            Some(e) => e,
            None => seq![],
        },
    )
}

/// What parsing a file gives: `unsupportedLanguage` exactly when no
/// language has its extension; `parserFailed` with the grammar's error when
/// the grammar is refused; otherwise the analysis of the file's syntax
/// tree.
pub open spec fn parse_outcome(
    path: Seq<char>,
    relative_path: Seq<char>,
    source: Seq<char>,
    r: Result<FileAnalysis, AnalysisError>,
) -> bool {
    &&& language_of_path(path) is None <==> (r matches Err(e) && e.code@
        == "unsupportedLanguage"@)
    &&& language_of_path(path) is None ==> (r matches Err(e) && e.message@
        == "No parser is available for this file"@)
    &&& language_of_path(path) matches Some(lang) ==> match grammar_error(grammar_for(lang, path)) {
        Some(m) => r matches Err(e) && e.code@ == "parserFailed"@ && e.message@ == m,
        None => r matches Ok(a) && analysis_of(
            a,
            relative_path,
            source,
            lang,
            syntax_nodes(source, grammar_for(lang, path)),
            syntax_spans(source, grammar_for(lang, path)),
        ),
    }
}

/// Parses a source file and extracts its symbols and imports.
///
/// Fails with `unsupportedLanguage` when no language has the file's
/// extension, and with `parserFailed` when the grammar is refused.
pub fn parse_file(path: &str, relative_path: &str, source: String) -> (r: Result<
    FileAnalysis,
    AnalysisError,
>)
    ensures
        parse_outcome(path@, relative_path@, source@, r),
{
    let language = match crate::languages::parser_for_path(path) {
        Some(l) => l,
        None => {
            return Err(
                AnalysisError::new("unsupportedLanguage", "No parser is available for this file".to_owned()),
            );
        },
    };
    let ext = match file_name(path) {
        Some(n) => match extension(&n) {
            Some(e) => e,
            None => String::new(),
        },
        None => String::new(),
    };
    assert(ext@ == match path_extension(path@) {
        Some(e) => e,
        None => seq![],
    });
    let grammar = language.language(&ext);
    let tree = match parse_syntax(&source, grammar) {
        Err(message) => {
            proof {
                reveal_strlit("parserFailed");
                reveal_strlit("unsupportedLanguage");
                assert("parserFailed"@.len() != "unsupportedLanguage"@.len());
            }
            return Err(AnalysisError::new("parserFailed", message));
        },
        Ok(None) => {
            proof {
                reveal_strlit("parserFailed");
                reveal_strlit("unsupportedLanguage");
                assert("parserFailed"@.len() != "unsupportedLanguage"@.len());
            }
            return Err(
                AnalysisError::new("parserFailed", "Tree-sitter returned no syntax tree".to_owned()),
            );
        },
        Ok(Some(t)) => t,
    };
    let count = node_count(&tree);
    let mut cursor = syntax_cursor(&tree);
    let mut nodes: Vec<NodeShape> = Vec::new();
    let mut spans: Vec<NodeSpan> = Vec::new();
    for k in 0..count
        invariant
            count == syntax_node_count(source@, grammar),
            count >= 1,
            cursor.source() == source@,
            cursor.grammar() == grammar,
            nodes@.len() == k,
            spans@.len() == k,
            forall|j: int| 0 <= j < k ==> #[trigger] nodes@[j] == syntax_shape(source@, grammar, j),
            forall|j: int| 0 <= j < k ==> #[trigger] spans@[j] == syntax_span(source@, grammar, j),
            k > 0 ==> nodes@[0].depth == 0,
            forall|j: int| 0 < j < k ==> #[trigger] crate::analysis::tree::depth_step(nodes@, j),
    {
        let shape = node_shape(&mut cursor, k);
        let span = node_span(&mut cursor, k);
        let ghost old_nodes = nodes@;
        nodes.push(shape);
        spans.push(span);
        proof {
            assert forall|j: int| 0 < j < k + 1 implies #[trigger] crate::analysis::tree::depth_step(
                nodes@,
                j,
            ) by {
                if j < k {
                    assert(crate::analysis::tree::depth_step(old_nodes, j));
                    assert(nodes@[j] == old_nodes[j] && nodes@[j - 1] == old_nodes[j - 1]);
                }
            }
        }
    }
    assert(nodes@ =~= syntax_nodes(source@, grammar));
    assert(spans@ =~= syntax_spans(source@, grammar));
    Ok(analyze_syntax(relative_path, source, &language, nodes, spans))
}

} // verus!
