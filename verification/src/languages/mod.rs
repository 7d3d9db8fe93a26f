//! The supported languages and how their syntax trees declare symbols.
use vstd::prelude::*;

use crate::analysis::parser::{
    declarations_outcome, named_outcome, opt_text, opt_view_of, python_constant_outcome,
    SymbolCollector, SyntaxInput,
};
use crate::analysis::syntax::Grammar;
use crate::analysis::tree::{
    first_child, first_named_child, is_named, lemma_last_with_depth, last_with_depth, parent_of,
};
use crate::analysis::types::{SymbolKind, SymbolView, symbol_views};
use crate::project::paths::{extension_of, file_name, file_name_of, lowercase_extension};
use crate::text::{ascii_lower, str_eq};

pub mod javascript;
pub mod python;
pub mod typescript;

use javascript::{javascript_rule, JavaScriptParser};
use python::{python_rule, PythonParser};
use typescript::{typescript_grammar, typescript_rule, TypeScriptParser};

verus! {

/// What a syntax node of some kind declares.
#[derive(Debug, Clone, Copy, PartialEq, Eq, Structural)]
pub enum NodeRule {
    /// A named declaration of this kind.
    Declares(SymbolKind),
    /// A function, or a method when it is inside another declaration.
    Function,
    /// A statement whose first named child may assign a module constant.
    Statement,
    /// A `let`/`const` declaration whose declarators may declare symbols.
    Declarations,
    Other,
}

/// A language the analyser parses.
pub enum LanguageParser {
    Python(PythonParser),
    JavaScript(JavaScriptParser),
    TypeScript(TypeScriptParser),
}

impl LanguageParser {
    /// The language's identifier.
    pub open spec fn id_of(&self) -> Seq<char> {
        match self {
            LanguageParser::Python(_) => "python"@,
            LanguageParser::JavaScript(_) => "javascript"@,
            LanguageParser::TypeScript(_) => "typescript"@,
        }
    }

    /// The grammar a file with this (lowercase) extension is parsed with.
    pub open spec fn grammar_of(&self, extension: Seq<char>) -> Grammar {
        match self {
            LanguageParser::Python(_) => Grammar::Python,
            LanguageParser::JavaScript(_) => Grammar::JavaScript,
            LanguageParser::TypeScript(_) => typescript_grammar(extension),
        }
    }

    pub open spec fn rule_of(&self, kind: Seq<char>) -> NodeRule {
        match self {
            LanguageParser::Python(_) => python_rule(kind),
            LanguageParser::JavaScript(_) => javascript_rule(kind),
            LanguageParser::TypeScript(_) => typescript_rule(kind),
        }
    }

    pub fn id(&self) -> (r: &'static str)
        ensures
            r@ == self.id_of(),
    {
        match self {
            LanguageParser::Python(p) => p.id(),
            LanguageParser::JavaScript(p) => p.id(),
            LanguageParser::TypeScript(p) => p.id(),
        }
    }

    pub fn language(&self, extension: &str) -> (r: Grammar)
        ensures
            r == self.grammar_of(extension@),
    {
        match self {
            LanguageParser::Python(_) => Grammar::Python,
            LanguageParser::JavaScript(_) => Grammar::JavaScript,
            LanguageParser::TypeScript(p) => p.language(extension),
        }
    }

    pub fn rule(&self, kind: &str) -> (r: NodeRule)
        ensures
            r == self.rule_of(kind@),
    {
        match self {
            LanguageParser::Python(p) => p.rule(kind),
            LanguageParser::JavaScript(p) => p.rule(kind),
            LanguageParser::TypeScript(p) => p.rule(kind),
        }
    }
}

/// TypeScript reads every JavaScript declaration statement as JavaScript
/// does: each node kind that declares a class, function or method, or holds
/// `let`/`const` declarations, in JavaScript does the same in TypeScript
/// (class expressions, kind `class`, are JavaScript's alone).
pub proof fn law_typescript_reads_javascript_declarations(kind: Seq<char>)
    requires
        kind != "class"@,
        javascript_rule(kind) != NodeRule::Other,
    ensures
        typescript_rule(kind) == javascript_rule(kind),
{
    reveal_strlit("class_declaration");
    reveal_strlit("abstract_class_declaration");
    reveal_strlit("interface_declaration");
    reveal_strlit("enum_declaration");
    reveal_strlit("function_declaration");
    reveal_strlit("generator_function_declaration");
    reveal_strlit("method_definition");
    reveal_strlit("method_signature");
    reveal_strlit("lexical_declaration");
    reveal_strlit("class");
    let lens = seq![
        "class_declaration"@.len(), "abstract_class_declaration"@.len(),
        "interface_declaration"@.len(), "enum_declaration"@.len(), "function_declaration"@.len(),
        "generator_function_declaration"@.len(), "method_definition"@.len(),
        "method_signature"@.len(), "lexical_declaration"@.len(),
    ];
    assert(lens == seq![17nat, 26, 21, 16, 20, 30, 17, 16, 19]);
    assert("class_declaration"@[0] != "method_definition"@[0]);
    assert("interface_declaration"@[0] != "function_declaration"@[0]);
    assert("enum_declaration"@[0] != "method_signature"@[0]);
}

/// What TypeScript adds to JavaScript: interfaces and enums are declared,
/// abstract classes are classes and method signatures are methods.
pub proof fn law_typescript_declares_its_own_forms()
    ensures
        typescript_rule("interface_declaration"@) == NodeRule::Declares(SymbolKind::Interface),
        typescript_rule("enum_declaration"@) == NodeRule::Declares(SymbolKind::Enum),
        typescript_rule("abstract_class_declaration"@) == NodeRule::Declares(SymbolKind::Class),
        typescript_rule("method_signature"@) == NodeRule::Declares(SymbolKind::Method),
{
    reveal_strlit("class_declaration");
    reveal_strlit("abstract_class_declaration");
    reveal_strlit("interface_declaration");
    reveal_strlit("enum_declaration");
    reveal_strlit("function_declaration");
    reveal_strlit("generator_function_declaration");
    reveal_strlit("method_definition");
    reveal_strlit("method_signature");
    let lens = seq![
        "class_declaration"@.len(), "abstract_class_declaration"@.len(),
        "interface_declaration"@.len(), "enum_declaration"@.len(), "function_declaration"@.len(),
        "generator_function_declaration"@.len(), "method_definition"@.len(),
        "method_signature"@.len(),
    ];
    assert(lens == seq![17nat, 26, 21, 16, 20, 30, 17, 16]);
    assert("enum_declaration"@[0] != "method_signature"@[0]);
}

/// `Path::extension` of a path: the extension of its file name.
pub open spec fn path_extension(path: Seq<char>) -> Option<Seq<char>> {
    match file_name_of(path) {
        Some(n) => extension_of(n),
        None => None,
    }
}

/// The language of a lowercase file extension.
pub open spec fn language_for(extension: Seq<char>) -> Option<LanguageParser> {
    if extension == "py"@ || extension == "pyi"@ {
        Some(LanguageParser::Python(PythonParser))
    } else if extension == "js"@ || extension == "jsx"@ || extension == "mjs"@ || extension
        == "cjs"@ {
        Some(LanguageParser::JavaScript(JavaScriptParser))
    } else if extension == "ts"@ || extension == "tsx"@ || extension == "mts"@ || extension
        == "cts"@ {
        Some(LanguageParser::TypeScript(TypeScriptParser))
    } else {
        None
    }
}

/// The language of a path, found by its extension in any letter case.
pub open spec fn language_of_path(path: Seq<char>) -> Option<LanguageParser> {
    match path_extension(path) {
        Some(e) => language_for(ascii_lower(e)),
        None => None,
    }
}

/// The parser for a file, chosen by its extension.
pub fn parser_for_path(path: &str) -> (r: Option<LanguageParser>)
    ensures
        r == language_of_path(path@),
{
    let name = match file_name(path) {
        Some(n) => n,
        None => return None,
    };
    let extension = match lowercase_extension(&name) {
        Some(e) => e,
        None => return None,
    };
    let e = extension.as_str();
    if str_eq(e, "py") || str_eq(e, "pyi") {
        Some(LanguageParser::Python(PythonParser))
    } else if str_eq(e, "js") || str_eq(e, "jsx") || str_eq(e, "mjs") || str_eq(e, "cjs") {
        Some(LanguageParser::JavaScript(JavaScriptParser))
    } else if str_eq(e, "ts") || str_eq(e, "tsx") || str_eq(e, "mts") || str_eq(e, "cts") {
        Some(LanguageParser::TypeScript(TypeScriptParser))
    } else {
        None
    }
}

/// What node `i` yields under the parent name `parent`: its symbols and the
/// name its children take as their parent (`None` keeps `parent`).
#[verifier::opaque]
pub open spec fn node_outcome(
    inp: SyntaxInput,
    lang: LanguageParser,
    i: int,
    parent: Option<Seq<char>>,
) -> (Seq<SymbolView>, Option<Seq<char>>) {
    match lang.rule_of(inp.nodes[i].kind@) {
        NodeRule::Declares(k) => named_outcome(inp, i, k, "name"@, "body"@, parent),
        NodeRule::Function => named_outcome(
            inp,
            i,
            if parent is Some {
                SymbolKind::Method
            } else {
                SymbolKind::Function
            },
            "name"@,
            "body"@,
            parent,
        ),
        NodeRule::Statement => (
            match first_child(inp.nodes, i, is_named()) {
                Some(a) => if inp.nodes[a].kind@ == "assignment"@ || inp.nodes[a].kind@
                    == "annotated_assignment"@ {
                    python_constant_outcome(inp, a, parent)
                } else {
                    seq![]
                },
                None => seq![],
            },
            None,
        ),
        NodeRule::Declarations => (declarations_outcome(inp, i, parent), None),
        NodeRule::Other => (seq![], None),
    }
}

/// Whether node `i` is reached from the root through named children.
#[verifier::opaque]
pub open spec fn visited(nodes: Seq<crate::analysis::syntax::NodeShape>, i: int) -> bool
    decreases i,
{
    if i <= 0 {
        i == 0
    } else {
        match parent_of(nodes, i) {
            Some(p) => if 0 <= p < i {
                nodes[i].named && visited(nodes, p)
            } else {
                false
            },
            None => false,
        }
    }
}

/// The parent name node `i` is visited with.
#[verifier::opaque]
pub open spec fn context(inp: SyntaxInput, lang: LanguageParser, i: int) -> Option<Seq<char>>
    decreases i,
{
    if i <= 0 {
        None
    } else {
        match parent_of(inp.nodes, i) {
            Some(p) => if 0 <= p < i {
                passed_down(inp, lang, p, context(inp, lang, p))
            } else {
                None
            },
            None => None,
        }
    }
}

/// The parent name node `p`, visited with `parent`, gives its children.
pub open spec fn passed_down(
    inp: SyntaxInput,
    lang: LanguageParser,
    p: int,
    parent: Option<Seq<char>>,
) -> Option<Seq<char>> {
    match node_outcome(inp, lang, p, parent).1 {
        Some(n) => Some(n),
        None => parent,
    }
}

/// The symbols of the visited nodes before index `n`, in pre-order.
#[verifier::opaque]
pub open spec fn symbols_upto(inp: SyntaxInput, lang: LanguageParser, n: int) -> Seq<SymbolView>
    decreases n,
{
    if n <= 0 {
        seq![]
    } else {
        symbols_upto(inp, lang, n - 1) + if visited(inp.nodes, n - 1) {
            node_outcome(inp, lang, n - 1, context(inp, lang, n - 1)).0
        } else {
            seq![]
        }
    }
}

/// The symbols a file declares.
pub open spec fn file_symbols(inp: SyntaxInput, lang: LanguageParser) -> Seq<SymbolView> {
    symbols_upto(inp, lang, inp.nodes.len() as int)
}

impl LanguageParser {
    /// Records what node `i` declares and gives the name it passes down.
    fn visit_node(&self, collector: &mut SymbolCollector, i: usize, parent: Option<&str>) -> (r:
        Option<String>)
        requires
            old(collector).wf(),
            i < old(collector).nodes@.len(),
        ensures
            final(collector).wf(),
            final(collector).same_input(old(collector)),
            symbol_views(final(collector).symbols@) == symbol_views(old(collector).symbols@)
                + node_outcome(old(collector).input(), *self, i as int, opt_text(parent)).0,
            opt_view_of(r) == node_outcome(old(collector).input(), *self, i as int, opt_text(parent)).1,
    {
        let ghost before = symbol_views(collector.symbols@);
        proof {
            reveal(node_outcome);
        }
        let rule = self.rule(&collector.nodes[i].kind);
        match rule {
            NodeRule::Declares(k) => collector.push_named(i, k, "name", "body", parent),
            NodeRule::Function => {
                let k = if parent.is_some() {
                    SymbolKind::Method
                } else {
                    SymbolKind::Function
                };
                collector.push_named(i, k, "name", "body", parent)
            },
            NodeRule::Statement => {
                match first_named_child(&collector.nodes, i) {
                    Some(a) => {
                        let kind = &collector.nodes[a].kind;
                        if str_eq(kind, "assignment") || str_eq(kind, "annotated_assignment") {
                            collector.push_python_constant(a, parent);
                        } else {
                            assert(before + seq![] =~= before);
                        }
                    },
                    None => {
                        assert(before + seq![] =~= before);
                    },
                }
                None
            },
            NodeRule::Declarations => {
                collector.push_javascript_declarations(i, parent);
                None
            },
            NodeRule::Other => {
                assert(before + seq![] =~= before);
                None
            },
        }
    }
}

proof fn lemma_root_step(inp: SyntaxInput, lang: LanguageParser)
    ensures
        visited(inp.nodes, 0),
        context(inp, lang, 0) is None,
{
    reveal(visited);
    reveal(context);
}

proof fn lemma_child_step(inp: SyntaxInput, lang: LanguageParser, i: int, p: int)
    requires
        0 <= p < i,
        parent_of(inp.nodes, i) == Some(p),
    ensures
        visited(inp.nodes, i) == (inp.nodes[i].named && visited(inp.nodes, p)),
        context(inp, lang, i) == passed_down(inp, lang, p, context(inp, lang, p)),
{
    reveal(visited);
    reveal(context);
}

proof fn lemma_symbols_step(inp: SyntaxInput, lang: LanguageParser, i: int)
    requires
        0 <= i,
    ensures
        symbols_upto(inp, lang, i + 1) == symbols_upto(inp, lang, i) + if visited(inp.nodes, i) {
            node_outcome(inp, lang, i, context(inp, lang, i)).0
        } else {
            seq![]
        },
        symbols_upto(inp, lang, 0) == Seq::<SymbolView>::empty(),
{
    reveal(symbols_upto);
}

proof fn lemma_last_update(
    nodes: Seq<crate::analysis::syntax::NodeShape>,
    i: usize,
    last: Seq<usize>,
    next: Seq<usize>,
)
    requires
        i < nodes.len(),
        forall|d: int|
            0 <= d < last.len() ==> #[trigger] last[d] < i && last_with_depth(nodes, i as int, d) == Some(
                last[d] as int,
            ),
        (nodes[i as int].depth == last.len() && next == last.push(i)) || (nodes[i as int].depth
            < last.len() && next == last.update(nodes[i as int].depth as int, i)),
    ensures
        forall|d: int|
            0 <= d < next.len() ==> #[trigger] next[d] < i + 1 && last_with_depth(nodes, i + 1, d)
                == Some(next[d] as int),
{
    assert forall|d: int| 0 <= d < next.len() implies #[trigger] next[d] < i + 1 && last_with_depth(
        nodes,
        i + 1,
        d,
    ) == Some(next[d] as int) by {
        if d != nodes[i as int].depth {
            assert(next[d] == last[d]);
        }
    }
}

impl LanguageParser {
    /// Visits the nodes of the collector's tree from the root through named
    /// children and records the symbols they declare.
    pub fn collect_symbols(&self, collector: &mut SymbolCollector)
        requires
            old(collector).wf(),
        ensures
            final(collector).wf(),
            final(collector).same_input(old(collector)),
            symbol_views(final(collector).symbols@) == symbol_views(old(collector).symbols@)
                + file_symbols(old(collector).input(), *self),
    {
        let ghost inp = collector.input();
        let ghost start = symbol_views(collector.symbols@);
        let n = collector.nodes.len();
        let mut last_at_depth: Vec<usize> = Vec::new();
        let mut seen: Vec<bool> = Vec::new();
        let mut passed: Vec<Option<String>> = Vec::new();
        proof {
            lemma_symbols_step(inp, *self, 0);
        }
        assert(start + seq![] =~= start);
        for i in 0..n
            invariant
                n == inp.nodes.len(),
                collector.wf(),
                collector.same_input(old(collector)),
                inp == old(collector).input(),
                seen@.len() == i,
                passed@.len() == i,
                forall|p: int| 0 <= p < i ==> #[trigger] seen@[p] == visited(inp.nodes, p),
                forall|p: int|
                    0 <= p < i && visited(inp.nodes, p) ==> opt_view_of(#[trigger] passed@[p])
                        == passed_down(inp, *self, p, context(inp, *self, p)),
                i > 0 ==> inp.nodes[i - 1].depth < last_at_depth@.len(),
                forall|d: int|
                    0 <= d < last_at_depth@.len() ==> #[trigger] last_at_depth@[d] < i
                        && last_with_depth(inp.nodes, i as int, d) == Some(
                        last_at_depth@[d] as int,
                    ),
                symbol_views(collector.symbols@) == start + symbols_upto(inp, *self, i as int),
        {
            let depth = collector.nodes[i].depth;
            let ghost before = symbol_views(collector.symbols@);
            proof {
                if i > 0 {
                    assert(crate::analysis::tree::depth_step(inp.nodes, i as int));
                }
            }
            let (visit, parent): (bool, Option<String>) = if i == 0 {
                proof {
                    lemma_root_step(inp, *self);
                }
                (true, None)
            } else {
                let p = last_at_depth[(depth - 1) as usize];
                proof {
                    lemma_last_with_depth(inp.nodes, i as int, depth - 1);
                    lemma_child_step(inp, *self, i as int, p as int);
                }
                (collector.nodes[i].named && seen[p], passed[p].clone())
            };
            let down: Option<String> = if visit {
                let produced = match &parent {
                    Some(t) => self.visit_node(collector, i, Some(t.as_str())),
                    None => self.visit_node(collector, i, None),
                };
                match produced {
                    Some(name) => Some(name),
                    None => parent,
                }
            } else {
                assert(before + seq![] =~= before);
                None
            };
            proof {
                lemma_symbols_step(inp, *self, i as int);
                vstd::seq_lib::lemma_concat_associative(
                    start,
                    symbols_upto(inp, *self, i as int),
                    if visited(inp.nodes, i as int) {
                        node_outcome(inp, *self, i as int, context(inp, *self, i as int)).0
                    } else {
                        seq![]
                    },
                );
            }
            passed.push(down);
            seen.push(visit);
            let ghost old_last = last_at_depth@;
            if (depth as usize) == last_at_depth.len() {
                last_at_depth.push(i);
            } else {
                last_at_depth.set(depth as usize, i);
            }
            proof {
                lemma_last_update(inp.nodes, i, old_last, last_at_depth@);
            }
        }
        proof {
            reveal(symbols_upto);
        }
    }
}

} // verus!
