//! An owned concrete syntax tree, as the metric walkers read it.

use vstd::prelude::*;
use crate::text::str_eq;

verus! {

/// One node of a concrete syntax tree.
///
/// Rows and columns are 0-based, as the parser reports them. `text` holds the
/// node's source text for leaves, string literals and name or key children,
/// and is empty otherwise. `field` is the grammar field under which the node
/// hangs from its parent, if any.
#[derive(Debug)]
pub struct SyntaxNode {
    pub kind: String,
    pub field: Option<String>,
    pub text: String,
    pub start_byte: usize,
    pub end_byte: usize,
    pub start_row: usize,
    pub start_col: usize,
    pub end_row: usize,
    pub children: Vec<SyntaxNode>,
}

/// A bound on every counter that a walk over `n` accumulates: each node
/// weighs two plus its number of children.
pub open spec fn weight(n: SyntaxNode) -> nat
    decreases n, 1int,
{
    n.children@.len() + 2 + weight_children(n, n.children@.len() as int)
}

/// Total weight of the first `k` children of `n`.
pub open spec fn weight_children(n: SyntaxNode, k: int) -> nat
    decreases n, 0int, k,
{
    if k <= 0 || k > n.children@.len() {
        0
    } else {
        weight_children(n, k - 1) + weight(n.children@[k - 1])
    }
}

/// The weight of a child never exceeds that of its parent.
pub proof fn lemma_child_weight(n: SyntaxNode, i: int)
    requires
        0 <= i < n.children@.len(),
    ensures
        weight(n.children@[i]) < weight(n),
        weight_children(n, i) + weight(n.children@[i]) <= weight_children(n, n.children@.len() as int),
{
    lemma_weight_children_mono(n, i + 1, n.children@.len() as int);
}

/// Weight of a prefix of the children grows with the prefix.
pub proof fn lemma_weight_children_mono(n: SyntaxNode, j: int, k: int)
    requires
        0 <= j <= k <= n.children@.len(),
    ensures
        weight_children(n, j) <= weight_children(n, k),
    decreases k - j,
{
    if j < k {
        lemma_weight_children_mono(n, j, k - 1);
    }
}

impl SyntaxNode {
    /// The node's kind equals `k`.
    pub fn is_kind(&self, k: &str) -> (r: bool)
        ensures
            r == (self.kind@ == k@),
    {
        str_eq(self.kind.as_str(), k)
    }

    /// The node has no children.
    pub fn is_leaf(&self) -> (r: bool)
        ensures
            r == (self.children@.len() == 0),
    {
        self.children.len() == 0
    }
}

/// Whether node `c` hangs under field `f`.
pub open spec fn has_field(c: SyntaxNode, f: Seq<char>) -> bool {
    c.field is Some && c.field->0@ == f
}

/// Index of the first child of `n` whose field is `f`, if any.
pub open spec fn first_with_field(n: SyntaxNode, f: Seq<char>) -> Option<int> {
    first_with_field_from(n, f, 0)
}

/// Index of the first child at or after `i` whose field is `f`, if any.
pub open spec fn first_with_field_from(n: SyntaxNode, f: Seq<char>, i: int) -> Option<int>
    decreases n.children@.len() - i,
{
    if i < 0 || i >= n.children@.len() {
        None
    } else if has_field(n.children@[i], f) {
        Some(i)
    } else {
        first_with_field_from(n, f, i + 1)
    }
}

/// Index of the first child of `n` whose field is `f`.
pub fn child_by_field(n: &SyntaxNode, f: &str) -> (r: Option<usize>)
    ensures
        match r {
            Some(i) => i < n.children@.len() && first_with_field(*n, f@) == Some(i as int),
            None => first_with_field(*n, f@) == None::<int>,
        },
{
    let mut i: usize = 0;
    while i < n.children.len()
        invariant
            i <= n.children@.len(),
            first_with_field(*n, f@) == first_with_field_from(*n, f@, i as int),
        decreases n.children@.len() - i,
    {
        let found = match &n.children[i].field {
            Some(name) => str_eq(name.as_str(), f),
            None => false,
        };
        if found {
            return Some(i);
        }
        i = i + 1;
    }
    None
}

/// Rows of a tree as a parser lays them out: each node starts no later
/// than it ends, children lie within their parent, and each child starts no
/// earlier than the row on which its previous sibling ends.
pub open spec fn rows_well_formed(n: SyntaxNode) -> bool
    decreases n, 1int,
{
    n.start_row <= n.end_row && rows_well_formed_children(n, n.children@.len() as int)
}

/// The first `k` children of `n` are laid out as [`rows_well_formed`] says.
pub open spec fn rows_well_formed_children(n: SyntaxNode, k: int) -> bool
    decreases n, 0int, k,
{
    k <= 0 || k > n.children@.len() || {
        let c = n.children@[k - 1];
        &&& rows_well_formed_children(n, k - 1)
        &&& rows_well_formed(c)
        &&& n.start_row <= c.start_row
        &&& c.end_row <= n.end_row
        &&& (k >= 2 ==> n.children@[k - 2].end_row <= c.start_row)
    }
}

/// Checks that the rows of a tree are laid out as [`rows_well_formed`] says.
pub fn rows_consistent(n: &SyntaxNode) -> (r: bool)
    ensures
        r == rows_well_formed(*n),
    decreases n, 1int,
{
    n.start_row <= n.end_row && rows_consistent_children(n, n.children.len())
}

fn rows_consistent_children(n: &SyntaxNode, k: usize) -> (r: bool)
    requires
        k <= n.children@.len(),
    ensures
        r == rows_well_formed_children(*n, k as int),
    decreases n, 0int, k,
{
    if k == 0 {
        return true;
    }
    let c = &n.children[k - 1];
    rows_consistent_children(n, k - 1) && rows_consistent(c) && n.start_row <= c.start_row
        && c.end_row <= n.end_row && (k < 2 || n.children[k - 2].end_row <= c.start_row)
}

} // verus!
