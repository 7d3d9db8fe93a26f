//! TypeScript: JavaScript's declarations plus interfaces, enums, abstract
//! classes and method signatures.
use vstd::prelude::*;

use crate::analysis::syntax::Grammar;
use crate::analysis::types::SymbolKind;
use crate::text::str_eq;

use super::NodeRule;

verus! {

/// The TypeScript grammars' declarations.
pub struct TypeScriptParser;

/// What a TypeScript node declares.
pub open spec fn typescript_rule(kind: Seq<char>) -> NodeRule {
    if kind == "class_declaration"@ || kind == "abstract_class_declaration"@ {
        NodeRule::Declares(SymbolKind::Class)
    } else if kind == "interface_declaration"@ {
        NodeRule::Declares(SymbolKind::Interface)
    } else if kind == "enum_declaration"@ {
        NodeRule::Declares(SymbolKind::Enum)
    } else if kind == "function_declaration"@ || kind == "generator_function_declaration"@ {
        NodeRule::Declares(SymbolKind::Function)
    } else if kind == "method_definition"@ || kind == "method_signature"@ {
        NodeRule::Declares(SymbolKind::Method)
    } else if kind == "lexical_declaration"@ {
        NodeRule::Declarations
    } else {
        NodeRule::Other
    }
}

/// The TSX grammar for `.tsx` files, the TypeScript grammar otherwise.
pub open spec fn typescript_grammar(extension: Seq<char>) -> Grammar {
    if extension == "tsx"@ {
        Grammar::Tsx
    } else {
        Grammar::TypeScript
    }
}

impl TypeScriptParser {
    pub fn id(&self) -> (r: &'static str)
        ensures
            r@ == "typescript"@,
    {
        "typescript"
    }

    pub fn extensions(&self) -> (r: Vec<&'static str>)
        ensures
            r@.len() == 4,
            r@[0]@ == "ts"@,
            r@[1]@ == "tsx"@,
            r@[2]@ == "mts"@,
            r@[3]@ == "cts"@,
    {
        vec!["ts", "tsx", "mts", "cts"]
    }

    pub fn language(&self, extension: &str) -> (r: Grammar)
        ensures
            r == typescript_grammar(extension@),
    {
        if str_eq(extension, "tsx") {
            Grammar::Tsx
        } else {
            Grammar::TypeScript
        }
    }

    pub fn rule(&self, kind: &str) -> (r: NodeRule)
        ensures
            r == typescript_rule(kind@),
    {
        if str_eq(kind, "class_declaration") || str_eq(kind, "abstract_class_declaration") {
            NodeRule::Declares(SymbolKind::Class)
        } else if str_eq(kind, "interface_declaration") {
            NodeRule::Declares(SymbolKind::Interface)
        } else if str_eq(kind, "enum_declaration") {
            NodeRule::Declares(SymbolKind::Enum)
        } else if str_eq(kind, "function_declaration") || str_eq(
            kind,
            "generator_function_declaration",
        ) {
            NodeRule::Declares(SymbolKind::Function)
        } else if str_eq(kind, "method_definition") || str_eq(kind, "method_signature") {
            NodeRule::Declares(SymbolKind::Method)
        } else if str_eq(kind, "lexical_declaration") {
            NodeRule::Declarations
        } else {
            NodeRule::Other
        }
    }
}

} // verus!
