//! The analysis of a tree depends only on its shape and content: trees that
//! [`mirror`](crate::treesitter::mirrors) each other are analysed alike.
use vstd::prelude::*;
use crate::parser::{
    assignment_harvest, attribute_children_refs, attribute_refs, binds_import, call_refs,
    class_harvest, class_view, decorated_children, decorated_harvest, decorator_children_refs,
    decorator_refs, decorator_texts, expression_harvest, field_refs, fstring_children_refs,
    fstring_refs, function_harvest, function_view, identifier_children, import_binding,
    import_defs, import_from_refs, import_refs, import_view, list_entries, module_analysis,
    names_variable, node_harvest, string_content, subtree_children_refs, subtree_refs,
    variable_view, walk_children, walk_harvest,
};
use crate::syntax::{
    SyntaxNode, first_field_from, first_kind_from, field_slot, field_text, has_field,
    has_field_child,
};
use crate::treesitter::{field_view, mirrors};

verus! {

proof fn lemma_child(a: SyntaxNode, b: SyntaxNode, k: int)
    requires
        mirrors(a, b),
        0 <= k < a.children@.len(),
    ensures
        mirrors(a.children@[k], b.children@[k]),
        field_view(a.children@[k].field) == field_view(b.children@[k].field),
        a.children@[k].kind@ == b.children@[k].kind@,
        a.children@[k].text@ == b.children@[k].text@,
        a.children@[k].start_row == b.children@[k].start_row,
        a.children@[k].end_row == b.children@[k].end_row,
        a.children@[k].children@.len() == b.children@[k].children@.len(),
        forall|name: Seq<char>| has_field(a.children@[k], name) == has_field(b.children@[k], name),
{
    assert(field_view(a.children@[k].field) == field_view(b.children@[k].field));
    assert(mirrors(a.children@[k], b.children@[k]));
    assert forall|name: Seq<char>| has_field(a.children@[k], name) == has_field(b.children@[k], name) by {
        match a.children@[k].field {
            Some(f) => {},
            None => {},
        }
    }
}

proof fn lemma_first_field(a: SyntaxNode, b: SyntaxNode, name: Seq<char>, i: int)
    requires
        mirrors(a, b),
        0 <= i,
    ensures
        first_field_from(a.children@, name, i) == first_field_from(b.children@, name, i),
    decreases a.children@.len() - i,
{
    if i < a.children@.len() {
        lemma_child(a, b, i);
        lemma_first_field(a, b, name, i + 1);
    }
}

proof fn lemma_first_kind(a: SyntaxNode, b: SyntaxNode, kind: Seq<char>, i: int)
    requires
        mirrors(a, b),
        0 <= i,
    ensures
        first_kind_from(a.children@, kind, i) == first_kind_from(b.children@, kind, i),
    decreases a.children@.len() - i,
{
    if i < a.children@.len() {
        lemma_child(a, b, i);
        lemma_first_kind(a, b, kind, i + 1);
    }
}

proof fn lemma_field(a: SyntaxNode, b: SyntaxNode, name: Seq<char>)
    requires
        mirrors(a, b),
    ensures
        field_slot(a, name) == field_slot(b, name),
        has_field_child(a, name) == has_field_child(b, name),
        field_text(a, name) == field_text(b, name),
        has_field_child(a, name) ==> mirrors(
            a.children@[field_slot(a, name)],
            b.children@[field_slot(b, name)],
        ),
{
    lemma_first_field(a, b, name, 0);
    if has_field_child(a, name) {
        lemma_child(a, b, field_slot(a, name));
    }
}

// ---------------------------------------------------------------------------
// References

proof fn lemma_subtree(a: SyntaxNode, b: SyntaxNode)
    requires
        mirrors(a, b),
    ensures
        subtree_refs(a) == subtree_refs(b),
    decreases a, 3nat, 0int,
{
    if a.kind@ == "identifier"@ {
    } else if a.kind@ == "attribute"@ {
        lemma_attribute(a, b);
    } else if a.kind@ == "string"@ || a.kind@ == "concatenated_string"@ {
        lemma_fstring(a, b);
    } else if a.kind@ == "comment"@ {
    } else {
        lemma_subtree_children(a, b, a.children@.len() as int);
    }
}

proof fn lemma_subtree_children(a: SyntaxNode, b: SyntaxNode, i: int)
    requires
        mirrors(a, b),
    ensures
        subtree_children_refs(a, i) == subtree_children_refs(b, i),
    decreases a, 1nat, i,
{
    if 0 < i <= a.children@.len() {
        lemma_subtree_children(a, b, i - 1);
        lemma_child(a, b, i - 1);
        lemma_subtree(a.children@[i - 1], b.children@[i - 1]);
    }
}

proof fn lemma_attribute(a: SyntaxNode, b: SyntaxNode)
    requires
        mirrors(a, b),
    ensures
        attribute_refs(a) == attribute_refs(b),
    decreases a, 2nat, 0int,
{
    lemma_attribute_children(a, b, a.children@.len() as int);
}

proof fn lemma_attribute_children(a: SyntaxNode, b: SyntaxNode, i: int)
    requires
        mirrors(a, b),
    ensures
        attribute_children_refs(a, i) == attribute_children_refs(b, i),
    decreases a, 1nat, i,
{
    if 0 < i <= a.children@.len() {
        lemma_attribute_children(a, b, i - 1);
        lemma_child(a, b, i - 1);
        let (ca, cb) = (a.children@[i - 1], b.children@[i - 1]);
        if ca.kind@ == "identifier"@ {
        } else if ca.kind@ == "attribute"@ {
            lemma_attribute(ca, cb);
        } else {
            lemma_subtree(ca, cb);
        }
    }
}

proof fn lemma_fstring(a: SyntaxNode, b: SyntaxNode)
    requires
        mirrors(a, b),
    ensures
        fstring_refs(a) == fstring_refs(b),
    decreases a, 2nat, 0int,
{
    lemma_fstring_children(a, b, a.children@.len() as int);
}

proof fn lemma_fstring_children(a: SyntaxNode, b: SyntaxNode, i: int)
    requires
        mirrors(a, b),
    ensures
        fstring_children_refs(a, i) == fstring_children_refs(b, i),
    decreases a, 1nat, i,
{
    if 0 < i <= a.children@.len() {
        lemma_fstring_children(a, b, i - 1);
        lemma_child(a, b, i - 1);
        let (ca, cb) = (a.children@[i - 1], b.children@[i - 1]);
        if ca.kind@ == "interpolation"@ {
            lemma_subtree(ca, cb);
        } else if ca.kind@ == "concatenated_string"@ || ca.kind@ == "string"@ {
            lemma_fstring(ca, cb);
        }
    }
}

proof fn lemma_call(a: SyntaxNode, b: SyntaxNode)
    requires
        mirrors(a, b),
    ensures
        call_refs(a) == call_refs(b),
    decreases a, 2nat, 0int,
{
    lemma_field(a, b, "function"@);
    let k = field_slot(a, "function"@);
    if 0 <= k < a.children@.len() {
        lemma_child(a, b, k);
        let (fa, fb) = (a.children@[k], b.children@[k]);
        if fa.kind@ == "identifier"@ {
        } else if fa.kind@ == "attribute"@ {
            lemma_attribute(fa, fb);
        } else {
            lemma_subtree(fa, fb);
        }
    }
}

proof fn lemma_decorator(a: SyntaxNode, b: SyntaxNode)
    requires
        mirrors(a, b),
    ensures
        decorator_refs(a) == decorator_refs(b),
    decreases a, 2nat, 0int,
{
    lemma_decorator_children(a, b, a.children@.len() as int);
}

proof fn lemma_decorator_children(a: SyntaxNode, b: SyntaxNode, i: int)
    requires
        mirrors(a, b),
    ensures
        decorator_children_refs(a, i) == decorator_children_refs(b, i),
    decreases a, 1nat, i,
{
    if 0 < i <= a.children@.len() {
        lemma_decorator_children(a, b, i - 1);
        lemma_child(a, b, i - 1);
        let (ca, cb) = (a.children@[i - 1], b.children@[i - 1]);
        if ca.kind@ == "identifier"@ {
        } else if ca.kind@ == "attribute"@ {
            lemma_attribute(ca, cb);
        } else if ca.kind@ == "call"@ {
            lemma_call(ca, cb);
            lemma_subtree(ca, cb);
        } else {
            lemma_decorator(ca, cb);
        }
    }
}

proof fn lemma_identifiers(a: SyntaxNode, b: SyntaxNode, i: int)
    requires
        mirrors(a, b),
    ensures
        identifier_children(a, i) == identifier_children(b, i),
    decreases i,
{
    if 0 < i <= a.children@.len() {
        lemma_identifiers(a, b, i - 1);
        lemma_child(a, b, i - 1);
    }
}

proof fn lemma_import_from_refs(a: SyntaxNode, b: SyntaxNode, i: int)
    requires
        mirrors(a, b),
    ensures
        import_from_refs(a, i) == import_from_refs(b, i),
    decreases i,
{
    if 0 < i <= a.children@.len() {
        lemma_import_from_refs(a, b, i - 1);
        lemma_child(a, b, i - 1);
        let (ca, cb) = (a.children@[i - 1], b.children@[i - 1]);
        lemma_identifiers(ca, cb, ca.children@.len() as int);
        lemma_field(ca, cb, "name"@);
    }
}

proof fn lemma_binding(a: SyntaxNode, b: SyntaxNode)
    requires
        mirrors(a, b),
    ensures
        import_binding(a) == import_binding(b),
{
    lemma_field(a, b, "alias"@);
    if a.children@.len() > 0 {
        lemma_child(a, b, 0);
    }
}

proof fn lemma_import_refs(a: SyntaxNode, b: SyntaxNode, i: int)
    requires
        mirrors(a, b),
    ensures
        import_refs(a, i) == import_refs(b, i),
    decreases i,
{
    if 0 < i <= a.children@.len() {
        lemma_import_refs(a, b, i - 1);
        lemma_child(a, b, i - 1);
        let (ca, cb) = (a.children@[i - 1], b.children@[i - 1]);
        lemma_subtree(ca, cb);
    }
}

proof fn lemma_import_defs(a: SyntaxNode, b: SyntaxNode, path: Seq<char>, i: int)
    requires
        mirrors(a, b),
    ensures
        import_defs(a, path, i) == import_defs(b, path, i),
    decreases i,
{
    if 0 < i <= a.children@.len() {
        lemma_import_defs(a, b, path, i - 1);
        lemma_child(a, b, i - 1);
        let (ca, cb) = (a.children@[i - 1], b.children@[i - 1]);
        lemma_binding(ca, cb);
        assert(binds_import(ca) == binds_import(cb));
        assert(import_view(ca, path) == import_view(cb, path));
    }
}

// ---------------------------------------------------------------------------
// Definitions

proof fn lemma_string_content(a: SyntaxNode, b: SyntaxNode)
    requires
        mirrors(a, b),
    ensures
        string_content(a) == string_content(b),
{
    lemma_first_kind(a, b, "string_content"@, 0);
    let k = first_kind_from(a.children@, "string_content"@, 0);
    if 0 <= k < a.children@.len() {
        lemma_child(a, b, k);
    }
}

proof fn lemma_list_entries(a: SyntaxNode, b: SyntaxNode, i: int)
    requires
        mirrors(a, b),
    ensures
        list_entries(a, i) == list_entries(b, i),
    decreases i,
{
    if 0 < i <= a.children@.len() {
        lemma_list_entries(a, b, i - 1);
        lemma_child(a, b, i - 1);
        lemma_string_content(a.children@[i - 1], b.children@[i - 1]);
    }
}

proof fn lemma_field_refs(a: SyntaxNode, b: SyntaxNode, name: Seq<char>)
    requires
        mirrors(a, b),
    ensures
        field_refs(a, name) == field_refs(b, name),
{
    lemma_field(a, b, name);
    let k = field_slot(a, name);
    if 0 <= k < a.children@.len() {
        lemma_subtree(a.children@[k], b.children@[k]);
    }
}

proof fn lemma_assignment(a: SyntaxNode, b: SyntaxNode, path: Seq<char>)
    requires
        mirrors(a, b),
    ensures
        assignment_harvest(a, path) == assignment_harvest(b, path),
{
    lemma_field(a, b, "left"@);
    lemma_field(a, b, "right"@);
    lemma_field_refs(a, b, "right"@);
    lemma_field_refs(a, b, "type"@);
    let k = field_slot(a, "right"@);
    if 0 <= k < a.children@.len() {
        lemma_child(a, b, k);
        lemma_list_entries(a.children@[k], b.children@[k], a.children@[k].children@.len() as int);
    }
    let target = field_text(a, "left"@);
    assert(names_variable(a, target) == names_variable(b, target));
    assert(variable_view(a, path, target) == variable_view(b, path, target));
}

proof fn lemma_expression(a: SyntaxNode, b: SyntaxNode, path: Seq<char>, i: int)
    requires
        mirrors(a, b),
    ensures
        expression_harvest(a, path, i) == expression_harvest(b, path, i),
    decreases i,
{
    if 0 < i <= a.children@.len() {
        lemma_expression(a, b, path, i - 1);
        lemma_child(a, b, i - 1);
        let (ca, cb) = (a.children@[i - 1], b.children@[i - 1]);
        lemma_assignment(ca, cb, path);
        lemma_subtree(ca, cb);
    }
}

proof fn lemma_decorator_texts(a: SyntaxNode, b: SyntaxNode, i: int)
    requires
        mirrors(a, b),
    ensures
        decorator_texts(a, i) == decorator_texts(b, i),
    decreases i,
{
    if 0 < i <= a.children@.len() {
        lemma_decorator_texts(a, b, i - 1);
        lemma_child(a, b, i - 1);
    }
}

proof fn lemma_node(a: SyntaxNode, b: SyntaxNode, path: Seq<char>, enc: Option<Seq<char>>)
    requires
        mirrors(a, b),
    ensures
        node_harvest(a, path, enc) == node_harvest(b, path, enc),
    decreases a, 5nat, 0int,
{
    if a.kind@ == "decorated_definition"@ {
        lemma_decorated(a, b, path, enc);
    } else if a.kind@ == "function_definition"@ {
        lemma_function(a, b, path, enc, Seq::empty());
    } else if a.kind@ == "class_definition"@ {
        lemma_class(a, b, path, Seq::empty());
    } else if a.kind@ == "expression_statement"@ {
        lemma_expression(a, b, path, a.children@.len() as int);
    } else if a.kind@ == "import_from_statement"@ {
        lemma_import_defs(a, b, path, a.children@.len() as int);
        lemma_import_from_refs(a, b, a.children@.len() as int);
    } else if a.kind@ == "import_statement"@ {
        lemma_import_defs(a, b, path, a.children@.len() as int);
        lemma_import_refs(a, b, a.children@.len() as int);
    } else if a.kind@ == "identifier"@ {
    } else if a.kind@ == "attribute"@ {
        lemma_attribute(a, b);
    } else if a.kind@ == "call"@ {
        lemma_call(a, b);
        lemma_walk(a, b, path, enc);
    } else if a.kind@ == "string"@ || a.kind@ == "concatenated_string"@ {
        lemma_fstring(a, b);
    } else if a.kind@ == "comment"@ {
    } else {
        lemma_walk(a, b, path, enc);
    }
}

proof fn lemma_walk(a: SyntaxNode, b: SyntaxNode, path: Seq<char>, enc: Option<Seq<char>>)
    requires
        mirrors(a, b),
    ensures
        walk_harvest(a, path, enc) == walk_harvest(b, path, enc),
    decreases a, 4nat, 0int,
{
    lemma_walk_children(a, b, path, enc, a.children@.len() as int);
}

proof fn lemma_walk_children(
    a: SyntaxNode,
    b: SyntaxNode,
    path: Seq<char>,
    enc: Option<Seq<char>>,
    i: int,
)
    requires
        mirrors(a, b),
    ensures
        walk_children(a, path, enc, i) == walk_children(b, path, enc, i),
    decreases a, 3nat, i,
{
    if 0 < i <= a.children@.len() {
        lemma_walk_children(a, b, path, enc, i - 1);
        lemma_child(a, b, i - 1);
        lemma_node(a.children@[i - 1], b.children@[i - 1], path, enc);
    }
}

proof fn lemma_decorated(a: SyntaxNode, b: SyntaxNode, path: Seq<char>, enc: Option<Seq<char>>)
    requires
        mirrors(a, b),
    ensures
        decorated_harvest(a, path, enc) == decorated_harvest(b, path, enc),
    decreases a, 4nat, 0int,
{
    lemma_decorated_children(a, b, path, enc, a.children@.len() as int);
}

proof fn lemma_decorated_children(
    a: SyntaxNode,
    b: SyntaxNode,
    path: Seq<char>,
    enc: Option<Seq<char>>,
    i: int,
)
    requires
        mirrors(a, b),
    ensures
        decorated_children(a, path, enc, i) == decorated_children(b, path, enc, i),
    decreases a, 3nat, i,
{
    if 0 < i <= a.children@.len() {
        lemma_decorated_children(a, b, path, enc, i - 1);
        lemma_child(a, b, i - 1);
        lemma_decorator_texts(a, b, i - 1);
        let (ca, cb) = (a.children@[i - 1], b.children@[i - 1]);
        if ca.kind@ == "decorator"@ {
            lemma_decorator(ca, cb);
        } else if ca.kind@ == "function_definition"@ {
            lemma_function(ca, cb, path, enc, decorator_texts(a, i - 1));
        } else if ca.kind@ == "class_definition"@ {
            lemma_class(ca, cb, path, decorator_texts(a, i - 1));
        }
    }
}

proof fn lemma_function(
    a: SyntaxNode,
    b: SyntaxNode,
    path: Seq<char>,
    enc: Option<Seq<char>>,
    decorators: Seq<Seq<char>>,
)
    requires
        mirrors(a, b),
    ensures
        function_harvest(a, path, enc, decorators) == function_harvest(b, path, enc, decorators),
    decreases a, 4nat, 0int,
{
    lemma_field(a, b, "name"@);
    lemma_field(a, b, "body"@);
    lemma_field_refs(a, b, "parameters"@);
    lemma_field_refs(a, b, "return_type"@);
    let k = field_slot(a, "body"@);
    if 0 <= k < a.children@.len() {
        lemma_child(a, b, k);
        lemma_walk(a.children@[k], b.children@[k], path, enc);
    }
    assert(function_view(a, path, enc, decorators) == function_view(b, path, enc, decorators));
}

proof fn lemma_class(a: SyntaxNode, b: SyntaxNode, path: Seq<char>, decorators: Seq<Seq<char>>)
    requires
        mirrors(a, b),
    ensures
        class_harvest(a, path, decorators) == class_harvest(b, path, decorators),
    decreases a, 4nat, 0int,
{
    lemma_field(a, b, "name"@);
    lemma_field(a, b, "body"@);
    lemma_field_refs(a, b, "superclasses"@);
    let name = field_text(a, "name"@);
    let k = field_slot(a, "body"@);
    if 0 <= k < a.children@.len() {
        lemma_child(a, b, k);
        lemma_walk(a.children@[k], b.children@[k], path, Some(name));
    }
    assert(class_view(a, path, decorators) == class_view(b, path, decorators));
}

/// Trees that mirror each other give the same module analysis: the analysis
/// reads only kinds, texts, rows, the fields under which children hang, and
/// children.
pub proof fn lemma_mirrored_analysis(path: Seq<char>, a: SyntaxNode, b: SyntaxNode)
    requires
        mirrors(a, b),
    ensures
        module_analysis(path, a) == module_analysis(path, b),
{
    lemma_walk(a, b, path, None);
}

} // verus!
