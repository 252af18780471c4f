//! Display names of functions: a function's own name, refined by the
//! context its ancestors set (class, object key, callback, default export,
//! variable binding).

use vstd::prelude::*;
use crate::syntax::{SyntaxNode, child_by_field, first_with_field};
use crate::text::{str_eq, concat, chars_of, string_of, ends_with, ends_with_spec};

verus! {

/// The name given to a function that has none.
pub open spec fn anon() -> Seq<char> {
    "<anonymous>"@
}

/// Naming context, as set by the nearest ancestor that sets one.
pub struct NameCtx {
    pub name: Seq<char>,
    pub class_name: Option<Seq<char>>,
    pub object_key: Option<Seq<char>>,
    pub call_name: Option<Seq<char>>,
    pub default_export: bool,
}

/// Naming context handed from a node to its descendants.
#[derive(Debug)]
pub struct NameContext {
    /// Name of the variable being bound.
    pub name: String,
    /// Enclosing class.
    pub class_name: Option<String>,
    /// Key of the enclosing object-literal pair.
    pub object_key: Option<String>,
    /// Callee of the enclosing call: `"<method>"`, or `"<event> handler"`.
    pub call_name: Option<String>,
    /// Whether the node is the value of an `export default`.
    pub is_default_export: bool,
}

/// View of an optional string.
pub open spec fn opt_chars(s: Option<String>) -> Option<Seq<char>> {
    match s {
        Some(x) => Some(x@),
        None => None,
    }
}

impl View for NameContext {
    type V = NameCtx;

    open spec fn view(&self) -> NameCtx {
        NameCtx {
            name: self.name@,
            class_name: opt_chars(self.class_name),
            object_key: opt_chars(self.object_key),
            call_name: opt_chars(self.call_name),
            default_export: self.is_default_export,
        }
    }
}

/// A context that names the binding `name` and nothing else.
pub open spec fn ctx_of_name(name: Seq<char>) -> NameCtx {
    NameCtx { name, class_name: None, object_key: None, call_name: None, default_export: false }
}

impl NameContext {
    /// A context that carries the variable name `name` and nothing else.
    pub fn from_name(name: &str) -> (r: NameContext)
        ensures
            r@ == ctx_of_name(name@),
    {
        NameContext {
            name: name.to_owned(),
            class_name: None,
            object_key: None,
            call_name: None,
            is_default_export: false,
        }
    }
}

/// Function kinds whose `name` field gives their own name.
pub open spec fn has_own_name_kind(k: Seq<char>) -> bool {
    k == "function_declaration"@ || k == "function_expression"@ || k
        == "generator_function_declaration"@ || k == "generator_function"@ || k
        == "method_definition"@
}

/// A function node's own name: the text of its `name` field, else `<anonymous>`.
pub open spec fn own_name(n: SyntaxNode) -> Seq<char> {
    if has_own_name_kind(n.kind@) {
        match first_with_field(n, "name"@) {
            Some(i) => n.children@[i].text@,
            None => anon(),
        }
    } else {
        anon()
    }
}

/// The callback name for a callee: event handlers keep theirs, other
/// callees become `"<callee> callback"`.
pub open spec fn callback_name(call: Seq<char>) -> Seq<char> {
    if ends_with_spec(call, " handler"@) {
        call
    } else {
        call + " callback"@
    }
}

/// The display name of a function of kind `kind` whose own name is `own`,
/// under the context `ctx`. Rules apply in order: class method prefix,
/// object key, callback, default export, variable binding.
pub open spec fn resolve(kind: Seq<char>, own: Seq<char>, ctx: Option<NameCtx>) -> Seq<char> {
    match ctx {
        None => own,
        Some(c) => {
            let n1 = if c.class_name is Some && kind == "method_definition"@ && own != anon() {
                c.class_name->0 + "."@ + own
            } else {
                own
            };
            let n2 = if c.object_key is Some && (n1 == anon() || kind == "arrow_function"@) {
                c.object_key->0
            } else {
                n1
            };
            let n3 = if c.call_name is Some && (n2 == anon() || kind == "arrow_function"@) {
                callback_name(c.call_name->0)
            } else {
                n2
            };
            let n4 = if c.default_export && n3 == anon() {
                "default export"@
            } else {
                n3
            };
            if n4 == anon() && c.name.len() > 0 && c.name != anon() {
                c.name
            } else {
                n4
            }
        },
    }
}

/// The display name of the function node `n` under `ctx`.
pub open spec fn display_name(n: SyntaxNode, ctx: Option<NameCtx>) -> Seq<char> {
    resolve(n.kind@, own_name(n), ctx)
}

/// `t` without its surrounding quotes, when it starts with one.
pub open spec fn unquote(t: Seq<char>) -> Seq<char> {
    if t.len() > 0 && (t[0] == '"' || t[0] == '\'') {
        if t.len() >= 2 {
            t.subrange(1, t.len() - 1)
        } else {
            Seq::empty()
        }
    } else {
        t
    }
}

/// Index of the first child at or after `i` whose kind is `a` or `b`.
pub open spec fn first_of_kinds(n: SyntaxNode, a: Seq<char>, b: Seq<char>, i: int) -> Option<int>
    decreases n.children@.len() - i,
{
    if i < 0 || i >= n.children@.len() {
        None
    } else if n.children@[i].kind@ == a || n.children@[i].kind@ == b {
        Some(i)
    } else {
        first_of_kinds(n, a, b, i + 1)
    }
}

/// Index of the last child before `k` whose kind is `a` or `b`.
pub open spec fn last_of_kinds(n: SyntaxNode, a: Seq<char>, b: Seq<char>, k: int) -> Option<int>
    decreases k,
{
    if k <= 0 || k > n.children@.len() {
        None
    } else if n.children@[k - 1].kind@ == a || n.children@[k - 1].kind@ == b {
        Some(k - 1)
    } else {
        last_of_kinds(n, a, b, k - 1)
    }
}

/// The name of a class node: its first identifier, else `class`.
pub open spec fn class_name_of(n: SyntaxNode) -> Seq<char> {
    match first_of_kinds(n, "identifier"@, "type_identifier"@, 0) {
        Some(i) => n.children@[i].text@,
        None => "class"@,
    }
}

/// First string argument, from child `j` on, with at least two characters.
pub open spec fn first_string_arg(args: SyntaxNode, j: int) -> Option<Seq<char>>
    decreases args.children@.len() - j,
{
    if j < 0 || j >= args.children@.len() {
        None
    } else if args.children@[j].kind@ == "string"@ && args.children@[j].text@.len() >= 2 {
        let t = args.children@[j].text@;
        Some(t.subrange(1, t.len() - 1))
    } else {
        first_string_arg(args, j + 1)
    }
}

/// The event of an `addEventListener` call: its first string argument, unquoted.
pub open spec fn event_name(call: SyntaxNode) -> Option<Seq<char>> {
    match crate::cyclomatic::first_child_kind(call, "arguments"@) {
        Some(a) => first_string_arg(call.children@[a], 0),
        None => None,
    }
}

/// The callee name recorded for a call whose method is `m`.
pub open spec fn call_name_for(call: SyntaxNode, m: Seq<char>) -> Seq<char> {
    if m == "addEventListener"@ {
        match event_name(call) {
            Some(ev) => ev + " handler"@,
            None => "addEventListener handler"@,
        }
    } else {
        m
    }
}

/// The method a call expression calls: an identifier callee, or the last
/// segment of a member-expression callee.
pub open spec fn callee_method(call: SyntaxNode) -> Option<Seq<char>> {
    if call.children@.len() == 0 {
        None
    } else {
        let c = call.children@[0];
        if c.kind@ == "identifier"@ {
            Some(c.text@)
        } else if c.kind@ == "member_expression"@ {
            match last_of_kinds(c, "property_identifier"@, "identifier"@, c.children@.len() as int) {
                Some(i) => Some(c.children@[i].text@),
                None => None,
            }
        } else {
            None
        }
    }
}

/// A context of one field only.
pub open spec fn ctx_key(key: Seq<char>) -> NameCtx {
    NameCtx { name: anon(), class_name: None, object_key: Some(key), call_name: None, default_export: false }
}

/// A context of one callee only.
pub open spec fn ctx_call(call: Seq<char>) -> NameCtx {
    NameCtx { name: anon(), class_name: None, object_key: None, call_name: Some(call), default_export: false }
}

/// A context of one class only.
pub open spec fn ctx_class(c: Seq<char>) -> NameCtx {
    NameCtx { name: anon(), class_name: Some(c), object_key: None, call_name: None, default_export: false }
}

/// The default-export context.
pub open spec fn ctx_default() -> NameCtx {
    NameCtx { name: anon(), class_name: None, object_key: None, call_name: None, default_export: true }
}

/// Whether a pair's key child can name a function.
pub open spec fn is_key_kind(k: Seq<char>) -> bool {
    k == "property_identifier"@ || k == "string"@ || k == "identifier"@
}

/// The context that a non-function node `n` sets for its descendants, if any.
pub open spec fn child_ctx(n: SyntaxNode) -> Option<NameCtx> {
    let k = n.kind@;
    if k == "variable_declarator"@ {
        match first_with_field(n, "name"@) {
            Some(i) => Some(ctx_of_name(n.children@[i].text@)),
            None => None,
        }
    } else if k == "class_declaration"@ || k == "class"@ {
        Some(ctx_class(class_name_of(n)))
    } else if k == "pair"@ {
        if n.children@.len() > 0 && is_key_kind(n.children@[0].kind@) {
            Some(ctx_key(unquote(n.children@[0].text@)))
        } else {
            None
        }
    } else if k == "call_expression"@ {
        match callee_method(n) {
            Some(m) => Some(ctx_call(call_name_for(n, m))),
            None => None,
        }
    } else if k == "export_statement"@ {
        if crate::cyclomatic::has_child_kind(n, "default"@) {
            Some(ctx_default())
        } else {
            None
        }
    } else {
        None
    }
}

/// The context in force below `n`, given the one in force at `n`.
pub open spec fn effective_ctx(n: SyntaxNode, parent: Option<NameCtx>) -> Option<NameCtx> {
    match child_ctx(n) {
        Some(c) => Some(c),
        None => parent,
    }
}

/// `t` without surrounding quotes.
fn unquote_exec(t: &str) -> (r: String)
    ensures
        r@ == unquote(t@),
{
    let cs = chars_of(t);
    if cs.len() > 0 && (cs[0] == '"' || cs[0] == '\'') {
        if cs.len() >= 2 {
            string_of(cs.as_slice(), 1, cs.len() - 1)
        } else {
            String::new()
        }
    } else {
        t.to_owned()
    }
}

fn find_first_of_kinds(n: &SyntaxNode, a: &str, b: &str) -> (r: Option<usize>)
    ensures
        match r {
            Some(i) => i < n.children@.len() && first_of_kinds(*n, a@, b@, 0) == Some(i as int),
            None => first_of_kinds(*n, a@, b@, 0) == None::<int>,
        },
{
    let mut i: usize = 0;
    while i < n.children.len()
        invariant
            i <= n.children@.len(),
            first_of_kinds(*n, a@, b@, 0) == first_of_kinds(*n, a@, b@, i as int),
        decreases n.children@.len() - i,
    {
        if n.children[i].is_kind(a) || n.children[i].is_kind(b) {
            return Some(i);
        }
        i = i + 1;
    }
    None
}

fn find_last_of_kinds(n: &SyntaxNode, a: &str, b: &str) -> (r: Option<usize>)
    ensures
        match r {
            Some(i) => i < n.children@.len() && last_of_kinds(*n, a@, b@, n.children@.len() as int) == Some(i as int),
            None => last_of_kinds(*n, a@, b@, n.children@.len() as int) == None::<int>,
        },
{
    let mut k: usize = n.children.len();
    while k > 0
        invariant
            k <= n.children@.len(),
            last_of_kinds(*n, a@, b@, n.children@.len() as int) == last_of_kinds(*n, a@, b@, k as int),
        decreases k,
    {
        if n.children[k - 1].is_kind(a) || n.children[k - 1].is_kind(b) {
            return Some(k - 1);
        }
        k = k - 1;
    }
    None
}

fn event_name_exec(call: &SyntaxNode) -> (r: Option<String>)
    ensures
        opt_chars(r) == event_name(*call),
{
    match crate::cyclomatic::find_child_kind(call, "arguments") {
        None => None,
        Some(a) => {
            let args = &call.children[a];
            let mut j: usize = 0;
            while j < args.children.len()
                invariant
                    j <= args.children@.len(),
                    *args == call.children@[a as int],
                    event_name(*call) == first_string_arg(*args, j as int),
                decreases args.children@.len() - j,
            {
                let c = &args.children[j];
                if c.is_kind("string") {
                    let cs = chars_of(c.text.as_str());
                    if cs.len() >= 2 {
                        return Some(string_of(cs.as_slice(), 1, cs.len() - 1));
                    }
                }
                j = j + 1;
            }
            None
        },
    }
}

fn callee_method_exec(call: &SyntaxNode) -> (r: Option<String>)
    ensures
        opt_chars(r) == callee_method(*call),
{
    if call.children.len() == 0 {
        return None;
    }
    let c = &call.children[0];
    if c.is_kind("identifier") {
        Some(c.text.clone())
    } else if c.is_kind("member_expression") {
        match find_last_of_kinds(c, "property_identifier", "identifier") {
            Some(i) => Some(c.children[i].text.clone()),
            None => None,
        }
    } else {
        None
    }
}

/// Computes the context that the non-function node `n` sets, if any.
pub fn context_for(n: &SyntaxNode) -> (r: Option<NameContext>)
    ensures
        match r {
            Some(c) => child_ctx(*n) == Some(c@),
            None => child_ctx(*n) == None::<NameCtx>,
        },
{
    if n.is_kind("variable_declarator") {
        match child_by_field(n, "name") {
            Some(i) => Some(NameContext::from_name(n.children[i].text.as_str())),
            None => None,
        }
    } else if n.is_kind("class_declaration") || n.is_kind("class") {
        let class_name = match find_first_of_kinds(n, "identifier", "type_identifier") {
            Some(i) => n.children[i].text.clone(),
            None => "class".to_owned(),
        };
        Some(NameContext {
            name: "<anonymous>".to_owned(),
            class_name: Some(class_name),
            object_key: None,
            call_name: None,
            is_default_export: false,
        })
    } else if n.is_kind("pair") {
        if n.children.len() > 0 && (n.children[0].is_kind("property_identifier") || n.children[0].is_kind("string")
            || n.children[0].is_kind("identifier")) {
            Some(NameContext {
                name: "<anonymous>".to_owned(),
                class_name: None,
                object_key: Some(unquote_exec(n.children[0].text.as_str())),
                call_name: None,
                is_default_export: false,
            })
        } else {
            None
        }
    } else if n.is_kind("call_expression") {
        match callee_method_exec(n) {
            Some(m) => {
                let call = if str_eq(m.as_str(), "addEventListener") {
                    match event_name_exec(n) {
                        Some(ev) => concat(ev.as_str(), " handler"),
                        None => "addEventListener handler".to_owned(),
                    }
                } else {
                    m
                };
                Some(NameContext {
                    name: "<anonymous>".to_owned(),
                    class_name: None,
                    object_key: None,
                    call_name: Some(call),
                    is_default_export: false,
                })
            },
            None => None,
        }
    } else if n.is_kind("export_statement") {
        if crate::cyclomatic::child_kind_exists(n, "default") {
            Some(NameContext {
                name: "<anonymous>".to_owned(),
                class_name: None,
                object_key: None,
                call_name: None,
                is_default_export: true,
            })
        } else {
            None
        }
    } else {
        None
    }
}

/// The function node's own name.
pub fn extract_function_name(n: &SyntaxNode) -> (r: String)
    ensures
        r@ == own_name(*n),
{
    let k = n.kind.as_str();
    if str_eq(k, "function_declaration") || str_eq(k, "function_expression") || str_eq(
        k,
        "generator_function_declaration",
    ) || str_eq(k, "generator_function") || str_eq(k, "method_definition") {
        match child_by_field(n, "name") {
            Some(i) => n.children[i].text.clone(),
            None => "<anonymous>".to_owned(),
        }
    } else {
        "<anonymous>".to_owned()
    }
}

/// Resolves the display name of the function node `n` under `ctx`.
pub fn resolve_name(n: &SyntaxNode, ctx: Option<&NameContext>) -> (r: String)
    ensures
        r@ == display_name(*n, match ctx { Some(c) => Some(c@), None => None }),
{
    let own = extract_function_name(n);
    match ctx {
        None => own,
        Some(c) => {
            let kind = n.kind.as_str();
            let is_arrow = str_eq(kind, "arrow_function");
            let mut name = own;
            if let Some(cls) = &c.class_name {
                if str_eq(kind, "method_definition") && !str_eq(name.as_str(), "<anonymous>") {
                    let with_dot = concat(cls.as_str(), ".");
                    name = concat(with_dot.as_str(), name.as_str());
                }
            }
            if let Some(key) = &c.object_key {
                if str_eq(name.as_str(), "<anonymous>") || is_arrow {
                    name = key.clone();
                }
            }
            if let Some(call) = &c.call_name {
                if str_eq(name.as_str(), "<anonymous>") || is_arrow {
                    if ends_with(call.as_str(), " handler") {
                        name = call.clone();
                    } else {
                        name = concat(call.as_str(), " callback");
                    }
                }
            }
            if c.is_default_export && str_eq(name.as_str(), "<anonymous>") {
                name = "default export".to_owned();
            }
            if str_eq(name.as_str(), "<anonymous>") && !c.name.as_str().is_empty() && !str_eq(
                c.name.as_str(),
                "<anonymous>",
            ) {
                name = c.name.clone();
            }
            name
        },
    }
}

} // verus!
