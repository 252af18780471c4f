//! Parser façade: grammar selection by extension, and the conversion of the
//! parser's tree into an owned [`SyntaxNode`] tree.

use vstd::prelude::*;
use vstd::utf8::*;
use crate::paths::{extension_bytes, extension_of};
use crate::syntax::SyntaxNode;
use crate::text::str_eq;
use vstd::string::StringSliceAdditionalSpecFns;

verus! {

#[verifier::external_type_specification]
#[verifier::external_body]
pub struct ExNode<'a>(tree_sitter::Node<'a>);

#[verifier::external_type_specification]
#[verifier::external_body]
pub struct ExTree(tree_sitter::Tree);

#[verifier::external_type_specification]
#[verifier::external_body]
pub struct ExParser(tree_sitter::Parser);

#[verifier::external_type_specification]
#[verifier::external_body]
pub struct ExLanguage(tree_sitter::Language);

#[verifier::external_type_specification]
#[verifier::external_body]
pub struct ExLanguageError(tree_sitter::LanguageError);

/// Why a source could not be turned into a syntax tree.
#[derive(Debug)]
pub enum ParseError {
    /// The path's extension is not one of `ts`, `tsx`, `js`, `jsx`.
    UnsupportedExtension(String),
    /// The path has no extension.
    NoExtension,
    /// The file could not be read.
    IoError(String),
    /// The grammar could not be loaded into the parser.
    LanguageError(String),
    /// The parser returned no tree.
    ParseFailed,
    /// The source or its tree is too large for the metric counters.
    TooLarge,
}

/// The grammar a source is parsed with.
#[derive(Debug, Clone, Copy, PartialEq, Eq, Structural)]
pub enum Grammar {
    TypeScript,
    Tsx,
    JavaScript,
}

/// The grammar for an extension, if it is one of the four analysed ones.
pub open spec fn grammar_for_ext(e: Seq<u8>) -> Option<Grammar> {
    if e == "ts".spec_bytes() {
        Some(Grammar::TypeScript)
    } else if e == "tsx".spec_bytes() {
        Some(Grammar::Tsx)
    } else if e == "js".spec_bytes() || e == "jsx".spec_bytes() {
        Some(Grammar::JavaScript)
    } else {
        None
    }
}

/// Relies on `String::from_utf8_lossy`: valid UTF-8 comes back unchanged.
#[verifier::external_body]
fn lossy_string(b: &[u8]) -> (r: String)
    ensures
        valid_utf8(b@) ==> r@ == decode_utf8(b@),
{
    String::from_utf8_lossy(b).into_owned()
}

/// Chooses the grammar from the path's extension. Fails with `NoExtension`
/// when the path has none, and with `UnsupportedExtension` when it is not
/// one of `ts`, `tsx`, `js`, `jsx`.
pub fn select_language(path: &str) -> (r: Result<Grammar, ParseError>)
    ensures
        match extension_of(path.spec_bytes()) {
            None => r matches Err(ParseError::NoExtension),
            Some(e) => match grammar_for_ext(e) {
                Some(g) => r == Ok::<Grammar, ParseError>(g),
                None => r matches Err(ParseError::UnsupportedExtension(x)) && (valid_utf8(e) ==> x@
                    == decode_utf8(e)),
            },
        },
{
    match extension_bytes(path) {
        None => Err(ParseError::NoExtension),
        Some(e) => {
            let s = e.as_slice();
            if bytes_eq_str(s, "ts") {
                Ok(Grammar::TypeScript)
            } else if bytes_eq_str(s, "tsx") {
                Ok(Grammar::Tsx)
            } else if bytes_eq_str(s, "js") || bytes_eq_str(s, "jsx") {
                Ok(Grammar::JavaScript)
            } else {
                Err(ParseError::UnsupportedExtension(lossy_string(s)))
            }
        },
    }
}

/// Whether `s` equals the bytes of `lit`.
fn bytes_eq_str(s: &[u8], lit: &str) -> (r: bool)
    ensures
        r == (s@ == lit.spec_bytes()),
{
    let l = lit.as_bytes();
    if s.len() != l.len() {
        return false;
    }
    let mut i: usize = 0;
    while i < s.len()
        invariant
            i <= s@.len(),
            s@.len() == l@.len(),
            l@ == lit.spec_bytes(),
            forall|j: int| 0 <= j < i ==> s@[j] == l@[j],
        decreases s@.len() - i,
    {
        if s[i] != l[i] {
            return false;
        }
        i = i + 1;
    }
    assert(s@ =~= l@);
    true
}

/// Relies on `tree_sitter_typescript::LANGUAGE_TYPESCRIPT`: the TypeScript grammar.
#[verifier::external_body]
fn typescript_language() -> tree_sitter::Language {
    tree_sitter_typescript::LANGUAGE_TYPESCRIPT.into()
}

/// Relies on `tree_sitter_typescript::LANGUAGE_TSX`: the TSX grammar.
#[verifier::external_body]
fn tsx_language() -> tree_sitter::Language {
    tree_sitter_typescript::LANGUAGE_TSX.into()
}

/// Relies on `tree_sitter_javascript::LANGUAGE`: the JavaScript grammar, JSX included.
#[verifier::external_body]
fn javascript_language() -> tree_sitter::Language {
    tree_sitter_javascript::LANGUAGE.into()
}

/// Relies on `tree_sitter::Parser::new`: a parser with no grammar yet.
#[verifier::external_body]
fn new_parser() -> tree_sitter::Parser {
    tree_sitter::Parser::new()
}

/// Relies on `tree_sitter::Parser::set_language`: loads a language, or
/// reports an ABI version mismatch.
#[verifier::external_body]
fn set_language(p: &mut tree_sitter::Parser, l: &tree_sitter::Language) -> Result<(), tree_sitter::LanguageError> {
    p.set_language(l)
}

/// Relies on the `Display` impl of `tree_sitter::LanguageError`: its message.
#[verifier::external_body]
fn language_error_message(e: &tree_sitter::LanguageError) -> String {
    e.to_string()
}

/// Relies on `tree_sitter::Parser::parse`: the tree of `source`, or nothing
/// when the parser has no language, timed out or was cancelled.
#[verifier::external_body]
fn parse_bytes(p: &mut tree_sitter::Parser, source: &[u8]) -> Option<tree_sitter::Tree> {
    p.parse(source, None)
}

/// Relies on `tree_sitter::Tree::root_node`.
#[verifier::external_body]
fn root_node(t: &tree_sitter::Tree) -> tree_sitter::Node<'_> {
    t.root_node()
}

/// Relies on `tree_sitter::Node::kind`.
#[verifier::external_body]
fn node_kind(n: &tree_sitter::Node) -> &'static str {
    n.kind()
}

/// Relies on `tree_sitter::Node::has_error`: whether the subtree of `n`
/// holds a recovered syntax error.
#[verifier::external_body]
fn node_has_error(n: &tree_sitter::Node) -> bool {
    n.has_error()
}

/// Relies on `tree_sitter::Node::start_byte`.
#[verifier::external_body]
fn node_start_byte(n: &tree_sitter::Node) -> usize {
    n.start_byte()
}

/// Relies on `tree_sitter::Node::end_byte`.
#[verifier::external_body]
fn node_end_byte(n: &tree_sitter::Node) -> usize {
    n.end_byte()
}

/// Relies on `tree_sitter::Node::start_position`: 0-based row and column.
#[verifier::external_body]
fn node_start_position(n: &tree_sitter::Node) -> (usize, usize) {
    let p = n.start_position();
    (p.row, p.column)
}

/// Relies on `tree_sitter::Node::end_position`: 0-based row and column.
#[verifier::external_body]
fn node_end_position(n: &tree_sitter::Node) -> (usize, usize) {
    let p = n.end_position();
    (p.row, p.column)
}

/// Relies on `tree_sitter::Node::child_count`.
#[verifier::external_body]
fn node_child_count(n: &tree_sitter::Node) -> usize {
    n.child_count()
}

/// Relies on `tree_sitter::Node::child`.
#[verifier::external_body]
fn node_child<'a>(n: &tree_sitter::Node<'a>, i: usize) -> Option<tree_sitter::Node<'a>> {
    n.child(i)
}

/// Relies on `tree_sitter::Node::field_name_for_child`.
#[verifier::external_body]
fn node_field_name(n: &tree_sitter::Node, i: u32) -> Option<&'static str> {
    n.field_name_for_child(i)
}

/// Relies on `std::str::from_utf8`: the text of valid UTF-8 bytes, and
/// nothing for other bytes.
#[verifier::external_body]
fn utf8_string(b: &[u8]) -> (r: Option<String>)
    ensures
        r is Some <==> valid_utf8(b@),
        r is Some ==> r->0@ == decode_utf8(b@),
{
    std::str::from_utf8(b).ok().map(|s| s.to_string())
}

/// The text of `source[start..end]`: nothing when the range does not lie in
/// the source or the bytes are not UTF-8.
pub open spec fn text_of(source: Seq<u8>, start: int, end: int) -> Option<Seq<char>> {
    if 0 <= start <= end <= source.len() && valid_utf8(source.subrange(start, end)) {
        Some(decode_utf8(source.subrange(start, end)))
    } else {
        None
    }
}

/// The text of `source[start..end]`, or nothing.
pub fn source_text(source: &[u8], start: usize, end: usize) -> (r: Option<String>)
    ensures
        match r {
            Some(t) => text_of(source@, start as int, end as int) == Some(t@),
            None => text_of(source@, start as int, end as int) is None,
        },
{
    if start <= end && end <= source.len() {
        let b = vstd::slice::slice_subrange(source, start, end);
        utf8_string(b)
    } else {
        None
    }
}

/// Whether the converted tree keeps the text of a node: leaves, string
/// literals, and names and keys.
pub open spec fn keeps_text(kind: Seq<char>, field: Option<Seq<char>>, leaf: bool) -> bool {
    leaf || kind == "string"@ || field == Some("name"@) || field == Some("key"@)
}

fn keeps_text_exec(kind: &str, field: Option<&str>, leaf: bool) -> (r: bool)
    ensures
        r == keeps_text(kind@, crate::exit_codes::opt_view(field), leaf),
{
    leaf || str_eq(kind, "string") || crate::text::opt_str_eq(field, "name")
        || crate::text::opt_str_eq(field, "key")
}

/// Copies a parser node and its subtree, to at most `depth` levels.
fn convert_node(n: &tree_sitter::Node, field: Option<&str>, source: &[u8], depth: usize) -> (r: SyntaxNode)
    ensures
        r.field is Some <==> field is Some,
        r.field is Some ==> r.field->0@ == field->0@,
        r.text@ == if keeps_text(r.kind@, crate::exit_codes::opt_view(field), r.children@.len() == 0) {
            match text_of(source@, r.start_byte as int, r.end_byte as int) {
                Some(t) => t,
                None => Seq::<char>::empty(),
            }
        } else {
            Seq::<char>::empty()
        },
    decreases depth,
{
    let kind = node_kind(n);
    let count = node_child_count(n);
    let mut children: Vec<SyntaxNode> = Vec::new();
    if depth > 0 {
        let mut i: usize = 0;
        while i < count
            invariant
                depth > 0,
            decreases count - i,
        {
            if let Some(c) = node_child(n, i) {
                let f = if i <= u32::MAX as usize {
                    node_field_name(n, i as u32)
                } else {
                    None
                };
                children.push(convert_node(&c, f, source, depth - 1));
            }
            i = i + 1;
        }
    }
    let leaf = children.len() == 0;
    let start_byte = node_start_byte(n);
    let end_byte = node_end_byte(n);
    let text = if keeps_text_exec(kind, field, leaf) {
        match source_text(source, start_byte, end_byte) {
            Some(t) => t,
            None => String::new(),
        }
    } else {
        String::new()
    };
    let (start_row, start_col) = node_start_position(n);
    let (end_row, _end_col) = node_end_position(n);
    SyntaxNode {
        kind: kind.to_owned(),
        field: match field {
            Some(f) => Some(f.to_owned()),
            None => None,
        },
        text,
        start_byte,
        end_byte,
        start_row,
        start_col,
        end_row,
        children,
    }
}

/// Deepest nesting of the parser's tree that is copied.
pub const MAX_TREE_DEPTH: usize = 100000;

/// A parsed source: its tree and whether the parser had to recover from
/// syntax errors.
#[derive(Debug)]
pub struct ParsedSource {
    pub root: SyntaxNode,
    pub has_error: bool,
}

/// Parses `source` with `grammar`. Fails with `LanguageError` when the
/// grammar cannot be loaded and with `ParseFailed` when the parser returns
/// no tree; a tree with recovered errors is a success with `has_error` set.
pub fn parse_source(grammar: Grammar, source: &[u8]) -> (r: Result<ParsedSource, ParseError>)
    ensures
        r is Err ==> (r matches Err(ParseError::LanguageError(_)) || r matches Err(ParseError::ParseFailed)),
        r is Ok ==> r->Ok_0.root.field is None,
{
    let lang = match grammar {
        Grammar::TypeScript => typescript_language(),
        Grammar::Tsx => tsx_language(),
        Grammar::JavaScript => javascript_language(),
    };
    let mut parser = new_parser();
    match set_language(&mut parser, &lang) {
        Ok(()) => {},
        Err(e) => {
            return Err(ParseError::LanguageError(language_error_message(&e)));
        },
    }
    match parse_bytes(&mut parser, source) {
        None => Err(ParseError::ParseFailed),
        Some(tree) => {
            let root = root_node(&tree);
            let has_error = node_has_error(&root);
            let converted = convert_node(&root, None, source, MAX_TREE_DEPTH);
            Ok(ParsedSource { root: converted, has_error })
        },
    }
}

} // verus!
