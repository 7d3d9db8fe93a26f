//! JavaScript: classes, functions, methods and `let`/`const` declarations.
use vstd::prelude::*;

use crate::analysis::types::SymbolKind;
use crate::text::str_eq;

use super::NodeRule;

verus! {

/// The JavaScript grammar's declarations.
pub struct JavaScriptParser;

/// What a JavaScript node declares.
pub open spec fn javascript_rule(kind: Seq<char>) -> NodeRule {
    if kind == "class_declaration"@ || kind == "class"@ {
        NodeRule::Declares(SymbolKind::Class)
    } else if kind == "function_declaration"@ || kind == "generator_function_declaration"@ {
        NodeRule::Declares(SymbolKind::Function)
    } else if kind == "method_definition"@ {
        NodeRule::Declares(SymbolKind::Method)
    } else if kind == "lexical_declaration"@ {
        NodeRule::Declarations
    } else {
        NodeRule::Other
    }
}

impl JavaScriptParser {
    pub fn id(&self) -> (r: &'static str)
        ensures
            r@ == "javascript"@,
    {
        "javascript"
    }

    pub fn extensions(&self) -> (r: Vec<&'static str>)
        ensures
            r@.len() == 4,
            r@[0]@ == "js"@,
            r@[1]@ == "jsx"@,
            r@[2]@ == "mjs"@,
            r@[3]@ == "cjs"@,
    {
        vec!["js", "jsx", "mjs", "cjs"]
    }

    pub fn rule(&self, kind: &str) -> (r: NodeRule)
        ensures
            r == javascript_rule(kind@),
    {
        if str_eq(kind, "class_declaration") || str_eq(kind, "class") {
            NodeRule::Declares(SymbolKind::Class)
        } else if str_eq(kind, "function_declaration") || str_eq(
            kind,
            "generator_function_declaration",
        ) {
            NodeRule::Declares(SymbolKind::Function)
        } else if str_eq(kind, "method_definition") {
            NodeRule::Declares(SymbolKind::Method)
        } else if str_eq(kind, "lexical_declaration") {
            NodeRule::Declarations
        } else {
            NodeRule::Other
        }
    }
}

} // verus!
