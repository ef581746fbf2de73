//! Parsing Python source with tree-sitter, and copying the resulting tree
//! into a [`SyntaxNode`].
use vstd::prelude::*;
use crate::syntax::{SyntaxNode, rows_fit};
use vstd::string::StringSliceAdditionalSpecFns;
use tree_sitter::{LanguageError, Node, Parser, Tree};

verus! {

#[verifier::external_type_specification]
#[verifier::external_body]
pub struct ExParser(Parser);

#[verifier::external_type_specification]
#[verifier::external_body]
pub struct ExTree(Tree);

#[verifier::external_type_specification]
#[verifier::external_body]
pub struct ExNode<'tree>(Node<'tree>);

#[verifier::external_type_specification]
#[verifier::external_body]
pub struct ExLanguageError(LanguageError);

/// Why Python source could not be turned into a syntax tree.
pub enum ParseError {
    /// The parser refused the Python grammar.
    Grammar(LanguageError),
    /// The parser gave no tree.
    NoTree,
}

/// The syntax tree that tree-sitter's Python grammar gives for a source
/// text, in the form of a [`SyntaxNode`]: each node's kind, the field under
/// which it hangs in its parent, its UTF-8 text (empty where that text is not
/// valid UTF-8), its start and end rows, and its children in order. The
/// field of the root is left open: the root hangs under nothing.
pub uninterp spec fn python_tree(source: Seq<char>) -> SyntaxNode;

/// Whether a parser has the Python grammar set.
pub uninterp spec fn parser_has_python(parser: Parser) -> bool;

/// The source text that a tree is the Python parse of, if it is one.
pub uninterp spec fn tree_source(tree: Tree) -> Option<Seq<char>>;

/// Where a node stands, if it belongs to a Python parse: the parsed source,
/// and the indices of the children that lead to it from the root.
pub uninterp spec fn node_place(node: Node) -> Option<(Seq<char>, Seq<int>)>;

/// The node of `t` that the child indices `p` lead to from the root.
pub open spec fn node_at(t: SyntaxNode, p: Seq<int>) -> SyntaxNode
    decreases p.len(),
{
    if p.len() == 0 {
        t
    } else {
        node_at(t, p.drop_last()).children@[p.last()]
    }
}

/// The view of a field name.
pub open spec fn field_view(f: Option<String>) -> Option<Seq<char>> {
    match f {
        Some(name) => Some(name@),
        None => None,
    }
}

/// Whether `a` has the shape and content of `b`: the same kind, text, rows
/// and number of children, and children that hang under the same fields and
/// mirror each other in turn. The fields of `a` and `b` themselves are not
/// compared.
pub open spec fn mirrors(a: SyntaxNode, b: SyntaxNode) -> bool
    decreases a,
{
    &&& a.kind@ == b.kind@
    &&& a.text@ == b.text@
    &&& a.start_row == b.start_row
    &&& a.end_row == b.end_row
    &&& a.children@.len() == b.children@.len()
    &&& forall|i: int|
        0 <= i < a.children@.len() ==> field_view(#[trigger] a.children@[i].field) == field_view(
            b.children@[i].field,
        ) && mirrors(a.children@[i], b.children@[i])
}

/// A parser with no language.
///
/// Trusted: calls `tree_sitter::Parser::new`; nothing is stated of the parser.
#[verifier::external_body]
fn new_parser() -> Parser {
    Parser::new()
}

/// Sets the Python grammar on the parser.
///
/// Trusted: calls `Parser::set_language` with `tree_sitter_python::LANGUAGE`,
/// which then succeeds and leaves the parser with that grammar. It fails only
/// for a grammar whose ABI version lies outside the library's accepted range
/// (13 to 15 in tree-sitter 0.27.1) or that has no lexer; the Python grammar
/// of tree-sitter-python 0.25.0 has ABI version 15 and a lexer.
#[verifier::external_body]
fn use_python_grammar(parser: &mut Parser) -> (r: Result<(), LanguageError>)
    ensures
        r is Ok,
        parser_has_python(*final(parser)),
{
    parser.set_language(&tree_sitter_python::LANGUAGE.into())
}

/// Parses the source text.
///
/// Trusted: calls `Parser::parse` with no earlier tree. It gives `None` only
/// when no language is set (no progress callback is given, and the Python
/// grammar is native, not wasm), so with the Python grammar set it gives the
/// Python tree of `source`.
#[verifier::external_body]
fn parse_text(parser: &mut Parser, source: &str) -> (r: Option<Tree>)
    ensures
        parser_has_python(*old(parser)) ==> (r matches Some(t) && tree_source(t) == Some(source@)),
{
    parser.parse(source, None)
}

/// The root of a tree.
///
/// Trusted: calls `Tree::root_node`; the root stands at the empty path.
#[verifier::external_body]
fn root_of(tree: &Tree) -> (r: Node)
    ensures
        tree_source(*tree) matches Some(s) ==> node_place(r) == Some((s, Seq::<int>::empty())),
{
    tree.root_node()
}

/// The grammar kind of a node.
///
/// Trusted: calls `Node::kind`.
#[verifier::external_body]
fn kind_of(node: &Node) -> (r: String)
    ensures
        node_place(*node) matches Some((s, p)) ==> r@ == node_at(python_tree(s), p).kind@,
{
    node.kind().to_string()
}

/// The number of children of a node.
///
/// Trusted: calls `Node::child_count`, which returns a `u32`.
#[verifier::external_body]
fn child_count_of(node: &Node) -> (r: usize)
    ensures
        r <= u32::MAX,
        node_place(*node) matches Some((s, p)) ==> r == node_at(python_tree(s), p).children@.len(),
{
    node.child_count() as usize
}

/// The child at index `i`.
///
/// Trusted: calls `Node::child`, which gives the child for every index below
/// the child count.
#[verifier::external_body]
fn child_at<'tree>(node: &Node<'tree>, i: usize) -> (r: Option<Node<'tree>>)
    requires
        i <= u32::MAX,
    ensures
        r is None ==> !(node_place(*node) matches Some((s, p)) && node_at(python_tree(s), p).children@.len() > i),
        r matches Some(c) ==> (node_place(*node) matches Some((s, p)) ==> node_place(c) == Some((s, p.push(i as int)))),
{
    node.child(i as u32)
}

/// The field under which the child at index `i` hangs.
///
/// Trusted: calls `Node::field_name_for_child`.
#[verifier::external_body]
fn field_name_at(node: &Node, i: usize) -> (r: Option<String>)
    requires
        i <= u32::MAX,
    ensures
        node_place(*node) matches Some((s, p)) ==> (node_at(python_tree(s), p).children@.len() > i
            ==> field_view(r) == field_view(node_at(python_tree(s), p.push(i as int)).field)),
{
    node.field_name_for_child(i as u32).map(|f| f.to_string())
}

/// The zero-based row where a node starts.
///
/// Trusted: calls `Node::start_position`. Its row comes from a `u32` and
/// counts the line breaks before the node, of which a `str` holds fewer than
/// `usize::MAX`.
#[verifier::external_body]
fn start_row_of(node: &Node) -> (r: usize)
    ensures
        r <= u32::MAX,
        r < usize::MAX,
        node_place(*node) matches Some((s, p)) ==> r == node_at(python_tree(s), p).start_row,
{
    node.start_position().row
}

/// The zero-based row where a node ends.
///
/// Trusted: calls `Node::end_position`, whose row is bounded as the start
/// row's is.
#[verifier::external_body]
fn end_row_of(node: &Node) -> (r: usize)
    ensures
        r <= u32::MAX,
        r < usize::MAX,
        node_place(*node) matches Some((s, p)) ==> r == node_at(python_tree(s), p).end_row,
{
    node.end_position().row
}

/// The source text a node spans, or the empty text when it is not valid
/// UTF-8.
///
/// Trusted: calls `Node::utf8_text` on the bytes of the parsed source, which
/// slices them at the node's byte range.
#[verifier::external_body]
fn text_of(node: &Node, source: &str) -> (r: String)
    requires
        node_place(*node) matches Some((s, _)) && s == source@,
    ensures
        node_place(*node) matches Some((s, p)) ==> r@ == node_at(python_tree(s), p).text@,
{
    node.utf8_text(source.as_bytes()).unwrap_or("").to_string()
}

/// The node that the path `p.push(i)` leads to is the `i`-th child of the one
/// that `p` leads to.
proof fn lemma_node_at_push(t: SyntaxNode, p: Seq<int>, i: int)
    ensures
        node_at(t, p.push(i)) == node_at(t, p).children@[i],
{
    assert(p.push(i).drop_last() =~= p);
    assert(p.push(i).last() == i);
}

/// The path of a node that belongs to a Python parse.
pub open spec fn place_path(node: Node) -> Seq<int> {
    match node_place(node) {
        Some((_, p)) => p,
        None => Seq::empty(),
    }
}

/// Copies a tree-sitter node of a Python parse of `source` and its
/// descendants.
fn copy_node(node: &Node, source: &str, field: Option<String>) -> (r: SyntaxNode)
    requires
        node_place(*node) matches Some((s, _)) && s == source@,
    ensures
        rows_fit(r),
        r.field == field,
        mirrors(r, node_at(python_tree(source@), place_path(*node))),
    decreases node_at(python_tree(source@), place_path(*node)),
{
    let ghost p = place_path(*node);
    let ghost here = node_at(python_tree(source@), p);
    let kind = kind_of(node);
    let text = text_of(node, source);
    let start_row = start_row_of(node);
    let end_row = end_row_of(node);
    let mut children: Vec<SyntaxNode> = Vec::new();
    let count = child_count_of(node);
    let mut i: usize = 0;
    while i < count
        invariant
            i <= count,
            count <= u32::MAX,
            count == here.children@.len(),
            node_place(*node) == Some((source@, p)),
            here == node_at(python_tree(source@), p),
            children@.len() == i,
            forall|k: int|
                0 <= k < i ==> rows_fit(#[trigger] children@[k]) && field_view(children@[k].field)
                    == field_view(here.children@[k].field) && mirrors(children@[k], here.children@[k]),
        decreases count - i,
    {
        proof {
            lemma_node_at_push(python_tree(source@), p, i as int);
        }
        match child_at(node, i) {
            Some(child) => {
                let name = field_name_at(node, i);
                let copied = copy_node(&child, source, name);
                children.push(copied);
            },
            None => {},
        }
        i = i + 1;
    }
    SyntaxNode { kind, field, text, start_row, end_row, children }
}

/// The concrete syntax tree of Python source text: the tree that tree-sitter's
/// Python grammar gives, with no field at the root. It always succeeds.
pub fn parse_python(source: &str) -> (r: Result<SyntaxNode, ParseError>)
    ensures
        r is Ok,
        r matches Ok(root) ==> rows_fit(root) && root.field is None && mirrors(root, python_tree(source@)),
{
    let mut parser = new_parser();
    match use_python_grammar(&mut parser) {
        Ok(()) => {},
        Err(e) => {
            return Err(ParseError::Grammar(e));
        },
    }
    match parse_text(&mut parser, source) {
        Some(tree) => {
            let root = root_of(&tree);
            Ok(copy_node(&root, source, None))
        },
        None => Err(ParseError::NoTree),
    }
}

} // verus!
