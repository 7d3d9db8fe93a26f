//! Python: classes, functions (methods inside classes) and module constants.
use vstd::prelude::*;

use crate::analysis::types::SymbolKind;
use crate::text::str_eq;

use super::NodeRule;

verus! {

/// The Python grammar's declarations.
pub struct PythonParser;

/// What a Python node declares.
pub open spec fn python_rule(kind: Seq<char>) -> NodeRule {
    if kind == "class_definition"@ {
        NodeRule::Declares(SymbolKind::Class)
    } else if kind == "function_definition"@ {
        NodeRule::Function
    } else if kind == "expression_statement"@ {
        NodeRule::Statement
    } else {
        NodeRule::Other
    }
}

impl PythonParser {
    pub fn id(&self) -> (r: &'static str)
        ensures
            r@ == "python"@,
    {
        "python"
    }

    pub fn extensions(&self) -> (r: Vec<&'static str>)
        ensures
            r@.len() == 2,
            r@[0]@ == "py"@,
            r@[1]@ == "pyi"@,
    {
        vec!["py", "pyi"]
    }

    pub fn rule(&self, kind: &str) -> (r: NodeRule)
        ensures
            r == python_rule(kind@),
    {
        if str_eq(kind, "class_definition") {
            NodeRule::Declares(SymbolKind::Class)
        } else if str_eq(kind, "function_definition") {
            NodeRule::Function
        } else if str_eq(kind, "expression_statement") {
            NodeRule::Statement
        } else {
            NodeRule::Other
        }
    }
}

} // verus!
