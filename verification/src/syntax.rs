//! The concrete syntax tree that the extraction works on: each node keeps its
//! kind, the field under which it hangs in its parent, its source text, its
//! rows and its children.
use vstd::prelude::*;
use crate::text::str_eq;

verus! {

/// A node of a concrete syntax tree.
pub struct SyntaxNode {
    /// The grammar kind, such as `identifier` or `function_definition`.
    pub kind: String,
    /// The name of the field under which this node hangs in its parent, if any.
    pub field: Option<String>,
    /// The source text the node spans.
    pub text: String,
    /// Zero-based row of the node's first character.
    pub start_row: usize,
    /// Zero-based row of the node's last character.
    pub end_row: usize,
    /// The children, in source order.
    pub children: Vec<SyntaxNode>,
}

/// Rows are small enough that one-based line numbers fit in a `usize`,
/// throughout the tree.
pub open spec fn rows_fit(n: SyntaxNode) -> bool
    decreases n,
{
    &&& n.start_row < usize::MAX
    &&& n.end_row < usize::MAX
    &&& forall|i: int| 0 <= i < n.children@.len() ==> rows_fit(#[trigger] n.children@[i])
}

/// Whether `n` hangs under the field `name`.
pub open spec fn has_field(n: SyntaxNode, name: Seq<char>) -> bool {
    n.field matches Some(f) && f@ == name
}

/// The first index at or after `i` of a node in `cs` that hangs under `name`,
/// or `cs.len()` when there is none.
pub open spec fn first_field_from(cs: Seq<SyntaxNode>, name: Seq<char>, i: int) -> int
    decreases cs.len() - i,
{
    if i >= cs.len() {
        cs.len() as int
    } else if has_field(cs[i], name) {
        i
    } else {
        first_field_from(cs, name, i + 1)
    }
}

/// The index of the first child under the field `name` (`children.len()` when
/// there is none): the child that `child_by_field_name` gives.
pub open spec fn field_slot(n: SyntaxNode, name: Seq<char>) -> int {
    first_field_from(n.children@, name, 0)
}

/// Whether the node has a child under the field `name`.
pub open spec fn has_field_child(n: SyntaxNode, name: Seq<char>) -> bool {
    0 <= field_slot(n, name) < n.children@.len()
}

/// The text of the first child under the field `name`, or the empty text.
pub open spec fn field_text(n: SyntaxNode, name: Seq<char>) -> Seq<char> {
    if has_field_child(n, name) {
        n.children@[field_slot(n, name)].text@
    } else {
        Seq::empty()
    }
}

/// The first index at or after `i` of a node in `cs` of kind `kind`, or
/// `cs.len()`.
pub open spec fn first_kind_from(cs: Seq<SyntaxNode>, kind: Seq<char>, i: int) -> int
    decreases cs.len() - i,
{
    if i >= cs.len() {
        cs.len() as int
    } else if cs[i].kind@ == kind {
        i
    } else {
        first_kind_from(cs, kind, i + 1)
    }
}

impl SyntaxNode {
    /// Whether the node's kind is `kind`.
    pub fn is_kind(&self, kind: &str) -> (r: bool)
        ensures
            r == (self.kind@ == kind@),
    {
        str_eq(self.kind.as_str(), kind)
    }

    /// Whether the node hangs under the field `name` in its parent.
    pub fn hangs_under(&self, name: &str) -> (r: bool)
        ensures
            r == has_field(*self, name@),
    {
        match &self.field {
            Some(f) => str_eq(f.as_str(), name),
            None => false,
        }
    }

    /// The index of the first child under the field `name`, or the number of
    /// children when there is none.
    pub fn field_index(&self, name: &str) -> (r: usize)
        ensures
            r == field_slot(*self, name@),
            r <= self.children@.len(),
    {
        let n = self.children.len();
        let mut i: usize = 0;
        while i < n
            invariant
                n == self.children@.len(),
                i <= n,
                field_slot(*self, name@) == first_field_from(self.children@, name@, i as int),
            decreases n - i,
        {
            let found = match &self.children[i].field {
                Some(f) => str_eq(f.as_str(), name),
                None => false,
            };
            if found {
                return i;
            }
            i = i + 1;
        }
        i
    }

    /// The index of the first child of kind `kind`, or the number of children.
    pub fn kind_index(&self, kind: &str) -> (r: usize)
        ensures
            r == first_kind_from(self.children@, kind@, 0),
            r <= self.children@.len(),
    {
        let n = self.children.len();
        let mut i: usize = 0;
        while i < n
            invariant
                n == self.children@.len(),
                i <= n,
                first_kind_from(self.children@, kind@, 0) == first_kind_from(
                    self.children@,
                    kind@,
                    i as int,
                ),
            decreases n - i,
        {
            if self.children[i].is_kind(kind) {
                return i;
            }
            i = i + 1;
        }
        i
    }
}

} // verus!
