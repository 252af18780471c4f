//! Classification of syntax-tree node kinds.

use vstd::prelude::*;
use crate::text::str_eq;

verus! {

/// Punctuation that does not count as a parameter.
pub const PUNCTUATION: [&'static str; 6] = [",", "(", ")", "<", ">", ";"];

/// Kinds of function-like nodes: each one opens a function of its own.
pub open spec fn is_function_kind(k: Seq<char>) -> bool {
    k == "function_declaration"@
        || k == "function"@
        || k == "function_expression"@
        || k == "arrow_function"@
        || k == "method_definition"@
        || k == "generator_function"@
        || k == "generator_function_declaration"@
}

/// Whether a node kind is function-like; walkers stop at such nodes.
pub fn is_function_node(kind: &str) -> (r: bool)
    ensures
        r == is_function_kind(kind@),
{
    str_eq(kind, "function_declaration")
        || str_eq(kind, "function")
        || str_eq(kind, "function_expression")
        || str_eq(kind, "arrow_function")
        || str_eq(kind, "method_definition")
        || str_eq(kind, "generator_function")
        || str_eq(kind, "generator_function_declaration")
}

/// Kinds of type-only subtrees, which carry no runtime behaviour.
pub open spec fn is_type_only_kind(k: Seq<char>) -> bool {
    k == "type_annotation"@
        || k == "type_identifier"@
        || k == "generic_type"@
        || k == "type_parameters"@
        || k == "type_parameter"@
        || k == "predefined_type"@
        || k == "union_type"@
        || k == "intersection_type"@
        || k == "array_type"@
        || k == "object_type"@
        || k == "tuple_type"@
        || k == "function_type"@
        || k == "readonly_type"@
        || k == "type_query"@
        || k == "as_expression"@
        || k == "satisfies_expression"@
        || k == "interface_declaration"@
        || k == "type_alias_declaration"@
}

/// Whether a node kind roots a type-only subtree, skipped by the Halstead walker and the tokenizer.
pub fn is_type_only_node(kind: &str) -> (r: bool)
    ensures
        r == is_type_only_kind(kind@),
{
    str_eq(kind, "type_annotation")
        || str_eq(kind, "type_identifier")
        || str_eq(kind, "generic_type")
        || str_eq(kind, "type_parameters")
        || str_eq(kind, "type_parameter")
        || str_eq(kind, "predefined_type")
        || str_eq(kind, "union_type")
        || str_eq(kind, "intersection_type")
        || str_eq(kind, "array_type")
        || str_eq(kind, "object_type")
        || str_eq(kind, "tuple_type")
        || str_eq(kind, "function_type")
        || str_eq(kind, "readonly_type")
        || str_eq(kind, "type_query")
        || str_eq(kind, "as_expression")
        || str_eq(kind, "satisfies_expression")
        || str_eq(kind, "interface_declaration")
        || str_eq(kind, "type_alias_declaration")
}

/// Leaf kinds counted as Halstead operators.
pub open spec fn is_operator_kind(k: Seq<char>) -> bool {
    k == "+"@
        || k == "-"@
        || k == "*"@
        || k == "/"@
        || k == "%"@
        || k == "**"@
        || k == "=="@
        || k == "!="@
        || k == "==="@
        || k == "!=="@
        || k == "<"@
        || k == ">"@
        || k == "<="@
        || k == ">="@
        || k == "&&"@
        || k == "||"@
        || k == "??"@
        || k == "="@
        || k == "+="@
        || k == "-="@
        || k == "*="@
        || k == "/="@
        || k == "%="@
        || k == "**="@
        || k == "&&="@
        || k == "||="@
        || k == "??="@
        || k == "<<="@
        || k == ">>="@
        || k == ">>>="@
        || k == "&="@
        || k == "|="@
        || k == "^="@
        || k == "&"@
        || k == "|"@
        || k == "^"@
        || k == "~"@
        || k == "<<"@
        || k == ">>"@
        || k == ">>>"@
        || k == "typeof"@
        || k == "void"@
        || k == "delete"@
        || k == "await"@
        || k == "yield"@
        || k == "!"@
        || k == "++"@
        || k == "--"@
        || k == "if"@
        || k == "else"@
        || k == "for"@
        || k == "while"@
        || k == "do"@
        || k == "switch"@
        || k == "case"@
        || k == "default"@
        || k == "break"@
        || k == "continue"@
        || k == "return"@
        || k == "throw"@
        || k == "try"@
        || k == "catch"@
        || k == "finally"@
        || k == "new"@
        || k == "in"@
        || k == "of"@
        || k == "instanceof"@
        || k == ","@
        || k == "@"@
}

/// Whether a leaf kind is a Halstead operator.
pub fn is_operator_token(kind: &str) -> (r: bool)
    ensures
        r == is_operator_kind(kind@),
{
    str_eq(kind, "+")
        || str_eq(kind, "-")
        || str_eq(kind, "*")
        || str_eq(kind, "/")
        || str_eq(kind, "%")
        || str_eq(kind, "**")
        || str_eq(kind, "==")
        || str_eq(kind, "!=")
        || str_eq(kind, "===")
        || str_eq(kind, "!==")
        || str_eq(kind, "<")
        || str_eq(kind, ">")
        || str_eq(kind, "<=")
        || str_eq(kind, ">=")
        || str_eq(kind, "&&")
        || str_eq(kind, "||")
        || str_eq(kind, "??")
        || str_eq(kind, "=")
        || str_eq(kind, "+=")
        || str_eq(kind, "-=")
        || str_eq(kind, "*=")
        || str_eq(kind, "/=")
        || str_eq(kind, "%=")
        || str_eq(kind, "**=")
        || str_eq(kind, "&&=")
        || str_eq(kind, "||=")
        || str_eq(kind, "??=")
        || str_eq(kind, "<<=")
        || str_eq(kind, ">>=")
        || str_eq(kind, ">>>=")
        || str_eq(kind, "&=")
        || str_eq(kind, "|=")
        || str_eq(kind, "^=")
        || str_eq(kind, "&")
        || str_eq(kind, "|")
        || str_eq(kind, "^")
        || str_eq(kind, "~")
        || str_eq(kind, "<<")
        || str_eq(kind, ">>")
        || str_eq(kind, ">>>")
        || str_eq(kind, "typeof")
        || str_eq(kind, "void")
        || str_eq(kind, "delete")
        || str_eq(kind, "await")
        || str_eq(kind, "yield")
        || str_eq(kind, "!")
        || str_eq(kind, "++")
        || str_eq(kind, "--")
        || str_eq(kind, "if")
        || str_eq(kind, "else")
        || str_eq(kind, "for")
        || str_eq(kind, "while")
        || str_eq(kind, "do")
        || str_eq(kind, "switch")
        || str_eq(kind, "case")
        || str_eq(kind, "default")
        || str_eq(kind, "break")
        || str_eq(kind, "continue")
        || str_eq(kind, "return")
        || str_eq(kind, "throw")
        || str_eq(kind, "try")
        || str_eq(kind, "catch")
        || str_eq(kind, "finally")
        || str_eq(kind, "new")
        || str_eq(kind, "in")
        || str_eq(kind, "of")
        || str_eq(kind, "instanceof")
        || str_eq(kind, ",")
        || str_eq(kind, "@")
}

/// Leaf kinds counted as Halstead operands.
pub open spec fn is_operand_kind(k: Seq<char>) -> bool {
    k == "identifier"@
        || k == "number"@
        || k == "string"@
        || k == "template_string"@
        || k == "regex"@
        || k == "true"@
        || k == "false"@
        || k == "null"@
        || k == "undefined"@
        || k == "this"@
        || k == "property_identifier"@
}

/// Whether a leaf kind is a Halstead operand.
pub fn is_operand_token(kind: &str) -> (r: bool)
    ensures
        r == is_operand_kind(kind@),
{
    str_eq(kind, "identifier")
        || str_eq(kind, "number")
        || str_eq(kind, "string")
        || str_eq(kind, "template_string")
        || str_eq(kind, "regex")
        || str_eq(kind, "true")
        || str_eq(kind, "false")
        || str_eq(kind, "null")
        || str_eq(kind, "undefined")
        || str_eq(kind, "this")
        || str_eq(kind, "property_identifier")
}

/// Kinds that open one level of structural nesting.
pub open spec fn is_nesting_kind(k: Seq<char>) -> bool {
    k == "if_statement"@
        || k == "for_statement"@
        || k == "for_in_statement"@
        || k == "while_statement"@
        || k == "do_statement"@
        || k == "switch_statement"@
        || k == "catch_clause"@
        || k == "ternary_expression"@
}

/// Whether a node kind opens one nesting level.
pub fn is_nesting_construct(kind: &str) -> (r: bool)
    ensures
        r == is_nesting_kind(kind@),
{
    str_eq(kind, "if_statement")
        || str_eq(kind, "for_statement")
        || str_eq(kind, "for_in_statement")
        || str_eq(kind, "while_statement")
        || str_eq(kind, "do_statement")
        || str_eq(kind, "switch_statement")
        || str_eq(kind, "catch_clause")
        || str_eq(kind, "ternary_expression")
}

/// Leaf kinds dropped by the tokenizer.
pub open spec fn is_skipped_kind_spec(k: Seq<char>) -> bool {
    k == "comment"@
        || k == "line_comment"@
        || k == "block_comment"@
        || k == ";"@
        || k == ","@
        || k == "hash_bang_line"@
}

/// Whether the tokenizer drops a leaf of this kind.
pub fn is_skipped_kind(kind: &str) -> (r: bool)
    ensures
        r == is_skipped_kind_spec(kind@),
{
    str_eq(kind, "comment")
        || str_eq(kind, "line_comment")
        || str_eq(kind, "block_comment")
        || str_eq(kind, ";")
        || str_eq(kind, ",")
        || str_eq(kind, "hash_bang_line")
}

/// Identifier kinds, which the tokenizer folds into one sentinel kind.
pub open spec fn is_identifier_kind_spec(k: Seq<char>) -> bool {
    k == "identifier"@
        || k == "property_identifier"@
        || k == "shorthand_property_identifier"@
        || k == "shorthand_property_identifier_pattern"@
}

/// Whether a leaf kind is an identifier variant.
pub fn is_identifier_kind(kind: &str) -> (r: bool)
    ensures
        r == is_identifier_kind_spec(kind@),
{
    str_eq(kind, "identifier")
        || str_eq(kind, "property_identifier")
        || str_eq(kind, "shorthand_property_identifier")
        || str_eq(kind, "shorthand_property_identifier_pattern")
}

/// Punctuation that does not count as a parameter.
pub open spec fn is_punctuation_kind(k: Seq<char>) -> bool {
    k == ","@
        || k == "("@
        || k == ")"@
        || k == "<"@
        || k == ">"@
        || k == ";"@
}

/// Whether a child of a parameter list is punctuation.
pub fn is_punctuation(kind: &str) -> (r: bool)
    ensures
        r == is_punctuation_kind(kind@),
{
    str_eq(kind, ",")
        || str_eq(kind, "(")
        || str_eq(kind, ")")
        || str_eq(kind, "<")
        || str_eq(kind, ">")
        || str_eq(kind, ";")
}

/// The normalized token kind: identifier variants become `"V"`.
pub open spec fn normalize_kind_spec(k: Seq<char>) -> Seq<char> {
    if is_identifier_kind_spec(k) { "V"@ } else { k }
}

/// Normalizes a leaf kind for clone detection.
pub fn normalize_kind(kind: &str) -> (r: &str)
    ensures
        r@ == normalize_kind_spec(kind@),
{
    if is_identifier_kind(kind) { "V" } else { kind }
}

} // verus!
