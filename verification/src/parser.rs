//! Extraction of definitions, references and `__all__` entries from the
//! syntax tree of a Python module.
use vstd::prelude::*;
use crate::names::NameSet;
use crate::treesitter::{ParseError, parse_python, python_tree};
use crate::mirroring::lemma_mirrored_analysis;
use crate::names::views_of;
use vstd::string::StringExecFns;
use crate::text::{str_eq, push_char, chars_of, string_of, chars_eq, trim_start_matches, trim_end_matches, trim_start_matches_chars, trim_end_matches_chars};
use crate::syntax::{SyntaxNode, field_slot, has_field, has_field_child, field_text, rows_fit, first_kind_from};

verus! {

/// What kind of thing a definition introduces.
#[derive(Debug, Clone, Copy, PartialEq, Eq, Structural)]
pub enum DefinitionKind {
    Function,
    Class,
    Method,
    Variable,
    Import,
}

/// The lower-case name of a definition kind, as reports and filters spell it.
pub open spec fn kind_name(k: DefinitionKind) -> Seq<char> {
    match k {
        DefinitionKind::Function => "function"@,
        DefinitionKind::Class => "class"@,
        DefinitionKind::Method => "method"@,
        DefinitionKind::Variable => "variable"@,
        DefinitionKind::Import => "import"@,
    }
}

impl DefinitionKind {
    /// The lower-case name of the kind.
    pub fn as_str(&self) -> (r: &'static str)
        ensures
            r@ == kind_name(*self),
    {
        match self {
            DefinitionKind::Function => "function",
            DefinitionKind::Class => "class",
            DefinitionKind::Method => "method",
            DefinitionKind::Variable => "variable",
            DefinitionKind::Import => "import",
        }
    }
}

/// A name that a module defines.
#[derive(Debug, Clone)]
pub struct Definition {
    pub name: String,
    /// `Class.method` for methods, the name for functions and classes, empty
    /// for variables and imports.
    pub qualified_name: String,
    pub kind: DefinitionKind,
    pub file: String,
    /// One-based line of the definition's first character.
    pub line: usize,
    /// Number of lines the definition spans.
    pub size: usize,
    /// The full text of each decorator, `@` included.
    pub decorators: Vec<String>,
    pub confidence: u8,
}

/// The mathematical value of a [`Definition`].
pub struct DefinitionView {
    pub name: Seq<char>,
    pub qualified_name: Seq<char>,
    pub kind: DefinitionKind,
    pub file: Seq<char>,
    pub line: usize,
    pub size: usize,
    pub decorators: Seq<Seq<char>>,
    pub confidence: u8,
}

impl View for Definition {
    type V = DefinitionView;

    open spec fn view(&self) -> DefinitionView {
        DefinitionView {
            name: self.name@,
            qualified_name: self.qualified_name@,
            kind: self.kind,
            file: self.file@,
            line: self.line,
            size: self.size,
            decorators: views_of(self.decorators@),
            confidence: self.confidence,
        }
    }
}

/// The views of a list of definitions.
pub open spec fn def_views(v: Seq<Definition>) -> Seq<DefinitionView> {
    v.map_values(|d: Definition| d@)
}

/// A copy of a list of strings.
pub fn copy_strings(v: &Vec<String>) -> (r: Vec<String>)
    ensures
        views_of(r@) == views_of(v@),
{
    let mut r: Vec<String> = Vec::new();
    let mut i: usize = 0;
    while i < v.len()
        invariant
            i <= v@.len(),
            views_of(r@) == views_of(v@).take(i as int),
        decreases v.len() - i,
    {
        let ghost old_r = r@;
        let c = v[i].clone();
        r.push(c);
        assert(views_of(r@) =~= views_of(old_r).push(v@[i as int]@));
        i = i + 1;
        assert(views_of(r@) =~= views_of(v@).take(i as int));
    }
    assert(views_of(v@).take(i as int) =~= views_of(v@));
    r
}

impl Definition {
    /// A copy of the definition.
    pub fn duplicate(&self) -> (r: Definition)
        ensures
            r@ == self@,
    {
        Definition {
            name: self.name.clone(),
            qualified_name: self.qualified_name.clone(),
            kind: self.kind,
            file: self.file.clone(),
            line: self.line,
            size: self.size,
            decorators: copy_strings(&self.decorators),
            confidence: self.confidence,
        }
    }
}

/// What one module defines and references.
pub struct FileAnalysis {
    pub path: String,
    pub definitions: Vec<Definition>,
    pub references: NameSet,
    /// The string entries of a literal `__all__` list or tuple.
    pub all_exports: Vec<String>,
}

/// The mathematical value of a [`FileAnalysis`].
pub struct FileAnalysisView {
    pub path: Seq<char>,
    pub definitions: Seq<DefinitionView>,
    pub references: Set<Seq<char>>,
    pub all_exports: Seq<Seq<char>>,
}

impl View for FileAnalysis {
    type V = FileAnalysisView;

    open spec fn view(&self) -> FileAnalysisView {
        FileAnalysisView {
            path: self.path@,
            definitions: def_views(self.definitions@),
            references: self.references@,
            all_exports: views_of(self.all_exports@),
        }
    }
}

/// What a part of the tree contributes: definitions and `__all__` entries in
/// source order, and referenced names.
pub struct Harvest {
    pub defs: Seq<DefinitionView>,
    pub refs: Set<Seq<char>>,
    pub exports: Seq<Seq<char>>,
}

pub open spec fn nothing() -> Harvest {
    Harvest { defs: Seq::empty(), refs: Set::empty(), exports: Seq::empty() }
}

pub open spec fn refs_only(refs: Set<Seq<char>>) -> Harvest {
    Harvest { defs: Seq::empty(), refs, exports: Seq::empty() }
}

/// `a` followed by `b`.
pub open spec fn join(a: Harvest, b: Harvest) -> Harvest {
    Harvest { defs: a.defs + b.defs, refs: a.refs.union(b.refs), exports: a.exports + b.exports }
}

/// The accumulators went from `(d0, r0, e0)` to `(d1, r1, e1)` by adding `h`.
pub open spec fn added(
    d0: Seq<DefinitionView>,
    r0: Set<Seq<char>>,
    e0: Seq<Seq<char>>,
    d1: Seq<DefinitionView>,
    r1: Set<Seq<char>>,
    e1: Seq<Seq<char>>,
    h: Harvest,
) -> bool {
    &&& d1 == d0 + h.defs
    &&& r1 == r0.union(h.refs)
    &&& e1 == e0 + h.exports
}

proof fn lemma_added_join(
    d0: Seq<DefinitionView>,
    r0: Set<Seq<char>>,
    e0: Seq<Seq<char>>,
    d1: Seq<DefinitionView>,
    r1: Set<Seq<char>>,
    e1: Seq<Seq<char>>,
    d2: Seq<DefinitionView>,
    r2: Set<Seq<char>>,
    e2: Seq<Seq<char>>,
    a: Harvest,
    b: Harvest,
)
    requires
        added(d0, r0, e0, d1, r1, e1, a),
        added(d1, r1, e1, d2, r2, e2, b),
    ensures
        added(d0, r0, e0, d2, r2, e2, join(a, b)),
{
    assert(d2 =~= d0 + (a.defs + b.defs));
    assert(r2 =~= r0.union(a.refs.union(b.refs)));
    assert(e2 =~= e0 + (a.exports + b.exports));
}

// ---------------------------------------------------------------------------
// References

/// Names referenced anywhere in a subtree (plain string content excluded,
/// f-string interpolations included).
pub open spec fn subtree_refs(n: SyntaxNode) -> Set<Seq<char>>
    decreases n, 3nat, 0int,
{
    if n.kind@ == "identifier"@ {
        set![n.text@]
    } else if n.kind@ == "attribute"@ {
        attribute_refs(n)
    } else if n.kind@ == "string"@ || n.kind@ == "concatenated_string"@ {
        fstring_refs(n)
    } else if n.kind@ == "comment"@ {
        Set::empty()
    } else {
        subtree_children_refs(n, n.children@.len() as int)
    }
}

/// [`subtree_refs`] of the first `i` children.
pub open spec fn subtree_children_refs(n: SyntaxNode, i: int) -> Set<Seq<char>>
    decreases n, 1nat, i,
{
    if i <= 0 || i > n.children@.len() {
        Set::empty()
    } else {
        subtree_children_refs(n, i - 1).union(subtree_refs(n.children@[i - 1]))
    }
}

/// Names referenced by an attribute access `a.b.c`: every identifier of the
/// chain, and the references of a receiver that is another expression.
pub open spec fn attribute_refs(n: SyntaxNode) -> Set<Seq<char>>
    decreases n, 2nat, 0int,
{
    attribute_children_refs(n, n.children@.len() as int)
}

/// [`attribute_refs`] of the first `i` children.
pub open spec fn attribute_children_refs(n: SyntaxNode, i: int) -> Set<Seq<char>>
    decreases n, 1nat, i,
{
    if i <= 0 || i > n.children@.len() {
        Set::empty()
    } else {
        let c = n.children@[i - 1];
        attribute_children_refs(n, i - 1).union(
            if c.kind@ == "identifier"@ {
                set![c.text@]
            } else if c.kind@ == "attribute"@ {
                attribute_refs(c)
            } else {
                subtree_refs(c)
            },
        )
    }
}

/// Names referenced inside the interpolations of a (possibly concatenated)
/// string.
pub open spec fn fstring_refs(n: SyntaxNode) -> Set<Seq<char>>
    decreases n, 2nat, 0int,
{
    fstring_children_refs(n, n.children@.len() as int)
}

/// [`fstring_refs`] of the first `i` children.
pub open spec fn fstring_children_refs(n: SyntaxNode, i: int) -> Set<Seq<char>>
    decreases n, 1nat, i,
{
    if i <= 0 || i > n.children@.len() {
        Set::empty()
    } else {
        let c = n.children@[i - 1];
        fstring_children_refs(n, i - 1).union(
            if c.kind@ == "interpolation"@ {
                subtree_refs(c)
            } else if c.kind@ == "concatenated_string"@ || c.kind@ == "string"@ {
                fstring_refs(c)
            } else {
                Set::empty()
            },
        )
    }
}

/// Names referenced by the callee of a call.
pub open spec fn call_refs(n: SyntaxNode) -> Set<Seq<char>> {
    let k = field_slot(n, "function"@);
    if 0 <= k < n.children@.len() {
        let f = n.children@[k];
        if f.kind@ == "identifier"@ {
            set![f.text@]
        } else if f.kind@ == "attribute"@ {
            attribute_refs(f)
        } else {
            subtree_refs(f)
        }
    } else {
        Set::empty()
    }
}

/// Names referenced by a decorator.
pub open spec fn decorator_refs(n: SyntaxNode) -> Set<Seq<char>>
    decreases n, 2nat, 0int,
{
    decorator_children_refs(n, n.children@.len() as int)
}

/// [`decorator_refs`] of the first `i` children.
pub open spec fn decorator_children_refs(n: SyntaxNode, i: int) -> Set<Seq<char>>
    decreases n, 1nat, i,
{
    if i <= 0 || i > n.children@.len() {
        Set::empty()
    } else {
        let c = n.children@[i - 1];
        decorator_children_refs(n, i - 1).union(
            if c.kind@ == "identifier"@ {
                set![c.text@]
            } else if c.kind@ == "attribute"@ {
                attribute_refs(c)
            } else if c.kind@ == "call"@ {
                call_refs(c).union(subtree_refs(c))
            } else {
                decorator_refs(c)
            },
        )
    }
}

/// The texts of the identifier children among the first `i` children.
pub open spec fn identifier_children(n: SyntaxNode, i: int) -> Set<Seq<char>>
    decreases i,
{
    if i <= 0 || i > n.children@.len() {
        Set::empty()
    } else {
        let c = n.children@[i - 1];
        identifier_children(n, i - 1).union(
            if c.kind@ == "identifier"@ {
                set![c.text@]
            } else {
                Set::empty()
            },
        )
    }
}

/// Names referenced by `from module import name, other as alias` (among the
/// first `i` children): the module path's parts and the imported names.
pub open spec fn import_from_refs(n: SyntaxNode, i: int) -> Set<Seq<char>>
    decreases i,
{
    if i <= 0 || i > n.children@.len() {
        Set::empty()
    } else {
        let c = n.children@[i - 1];
        import_from_refs(n, i - 1).union(
            if c.kind@ == "dotted_name"@ {
                identifier_children(c, c.children@.len() as int)
            } else if c.kind@ == "aliased_import"@ {
                if has_field_child(c, "name"@) {
                    set![field_text(c, "name"@)]
                } else {
                    Set::empty()
                }
            } else if c.kind@ == "identifier"@ {
                set![c.text@]
            } else {
                Set::empty()
            },
        )
    }
}

/// The name that an imported item binds in the importing module: the alias
/// of `x as a`, the first part of a dotted name (`x` for `x.y`).
pub open spec fn import_binding(c: SyntaxNode) -> Seq<char> {
    if c.kind@ == "aliased_import"@ {
        field_text(c, "alias"@)
    } else if c.kind@ == "dotted_name"@ && c.children@.len() > 0 {
        c.children@[0].text@
    } else {
        Seq::empty()
    }
}

/// Names referenced by `import a.b, c as d` (among the first `i` children):
/// every name in each imported item.
pub open spec fn import_refs(n: SyntaxNode, i: int) -> Set<Seq<char>>
    decreases i,
{
    if i <= 0 || i > n.children@.len() {
        Set::empty()
    } else {
        let c = n.children@[i - 1];
        import_refs(n, i - 1).union(
            if c.kind@ == "dotted_name"@ || c.kind@ == "aliased_import"@ {
                subtree_refs(c)
            } else {
                Set::empty()
            },
        )
    }
}

/// The definition that an imported item `c` introduces.
pub open spec fn import_view(c: SyntaxNode, path: Seq<char>) -> DefinitionView {
    DefinitionView {
        name: import_binding(c),
        qualified_name: Seq::empty(),
        kind: DefinitionKind::Import,
        file: path,
        line: line_of(c),
        size: 1,
        decorators: Seq::empty(),
        confidence: 60,
    }
}

/// Whether the child `c` of an import statement is an imported item that
/// binds a name.
pub open spec fn binds_import(c: SyntaxNode) -> bool {
    has_field(c, "name"@) && import_binding(c).len() > 0
}

/// The imports that the first `i` children of an import statement define.
pub open spec fn import_defs(n: SyntaxNode, path: Seq<char>, i: int) -> Seq<DefinitionView>
    decreases i,
{
    if i <= 0 || i > n.children@.len() {
        Seq::empty()
    } else {
        let c = n.children@[i - 1];
        import_defs(n, path, i - 1) + if binds_import(c) {
            seq![import_view(c, path)]
        } else {
            Seq::empty()
        }
    }
}

/// What an `import` statement contributes: a definition for each name it
/// binds, and its references.
pub open spec fn import_harvest(n: SyntaxNode, path: Seq<char>) -> Harvest {
    Harvest {
        defs: import_defs(n, path, n.children@.len() as int),
        refs: import_refs(n, n.children@.len() as int),
        exports: Seq::empty(),
    }
}

/// What a `from ... import ...` statement contributes: a definition for each
/// name it binds, and its references.
pub open spec fn import_from_harvest(n: SyntaxNode, path: Seq<char>) -> Harvest {
    Harvest {
        defs: import_defs(n, path, n.children@.len() as int),
        refs: import_from_refs(n, n.children@.len() as int),
        exports: Seq::empty(),
    }
}

// ---------------------------------------------------------------------------
// Reference extraction

/// Adds the names referenced anywhere in a subtree.
pub fn extract_references_from_subtree(node: &SyntaxNode, references: &mut NameSet)
    ensures
        final(references)@ == old(references)@.union(subtree_refs(*node)),
    decreases node, 3nat,
{
    if node.is_kind("identifier") {
        references.insert(node.text.clone());
        assert(final(references)@ =~= old(references)@.union(subtree_refs(*node)));
    } else if node.is_kind("attribute") {
        extract_attribute_references(node, references);
    } else if node.is_kind("string") || node.is_kind("concatenated_string") {
        extract_fstring_references(node, references);
    } else if node.is_kind("comment") {
        assert(final(references)@ =~= old(references)@.union(subtree_refs(*node)));
    } else {
        let n = node.children.len();
        let mut i: usize = 0;
        while i < n
            invariant
                n == node.children@.len(),
                i <= n,
                references@ == old(references)@.union(subtree_children_refs(*node, i as int)),
            decreases n - i,
        {
            extract_references_from_subtree(&node.children[i], references);
            i = i + 1;
            assert(references@ =~= old(references)@.union(
                subtree_children_refs(*node, i as int),
            ));
        }
    }
}

/// Adds the names of an attribute access chain.
pub fn extract_attribute_references(node: &SyntaxNode, references: &mut NameSet)
    ensures
        final(references)@ == old(references)@.union(attribute_refs(*node)),
    decreases node, 2nat,
{
    let n = node.children.len();
    let mut i: usize = 0;
    while i < n
        invariant
            n == node.children@.len(),
            i <= n,
            references@ == old(references)@.union(attribute_children_refs(*node, i as int)),
        decreases n - i,
    {
        let child = &node.children[i];
        if child.is_kind("identifier") {
            references.insert(child.text.clone());
        } else if child.is_kind("attribute") {
            extract_attribute_references(child, references);
        } else {
            extract_references_from_subtree(child, references);
        }
        i = i + 1;
        assert(references@ =~= old(references)@.union(attribute_children_refs(*node, i as int)));
    }
}

/// Adds the names referenced inside f-string interpolations.
pub fn extract_fstring_references(node: &SyntaxNode, references: &mut NameSet)
    ensures
        final(references)@ == old(references)@.union(fstring_refs(*node)),
    decreases node, 2nat,
{
    let n = node.children.len();
    let mut i: usize = 0;
    while i < n
        invariant
            n == node.children@.len(),
            i <= n,
            references@ == old(references)@.union(fstring_children_refs(*node, i as int)),
        decreases n - i,
    {
        let child = &node.children[i];
        if child.is_kind("interpolation") {
            extract_references_from_subtree(child, references);
        } else if child.is_kind("concatenated_string") || child.is_kind("string") {
            extract_fstring_references(child, references);
        }
        i = i + 1;
        assert(references@ =~= old(references)@.union(fstring_children_refs(*node, i as int)));
    }
}

/// Adds the names referenced by the callee of a call.
pub fn extract_call_references(node: &SyntaxNode, references: &mut NameSet)
    ensures
        final(references)@ == old(references)@.union(call_refs(*node)),
{
    let k = node.field_index("function");
    if k < node.children.len() {
        let func = &node.children[k];
        if func.is_kind("identifier") {
            references.insert(func.text.clone());
            assert(final(references)@ =~= old(references)@.union(call_refs(*node)));
        } else if func.is_kind("attribute") {
            extract_attribute_references(func, references);
        } else {
            extract_references_from_subtree(func, references);
        }
    } else {
        assert(final(references)@ =~= old(references)@.union(call_refs(*node)));
    }
}

/// Adds the names referenced by a decorator.
pub fn extract_decorator_references(node: &SyntaxNode, references: &mut NameSet)
    ensures
        final(references)@ == old(references)@.union(decorator_refs(*node)),
    decreases node,
{
    let n = node.children.len();
    let mut i: usize = 0;
    while i < n
        invariant
            n == node.children@.len(),
            i <= n,
            references@ == old(references)@.union(decorator_children_refs(*node, i as int)),
        decreases n - i,
    {
        let child = &node.children[i];
        if child.is_kind("identifier") {
            references.insert(child.text.clone());
        } else if child.is_kind("attribute") {
            extract_attribute_references(child, references);
        } else if child.is_kind("call") {
            extract_call_references(child, references);
            extract_references_from_subtree(child, references);
        } else {
            extract_decorator_references(child, references);
        }
        i = i + 1;
        assert(references@ =~= old(references)@.union(decorator_children_refs(*node, i as int)));
    }
}

/// The name that an imported item binds.
pub fn import_binding_of(c: &SyntaxNode) -> (r: String)
    ensures
        r@ == import_binding(*c),
{
    if c.is_kind("aliased_import") {
        let k = c.field_index("alias");
        if k < c.children.len() {
            c.children[k].text.clone()
        } else {
            String::new()
        }
    } else if c.is_kind("dotted_name") && c.children.len() > 0 {
        c.children[0].text.clone()
    } else {
        String::new()
    }
}

/// Records the import that the child `c` of an import statement defines, if
/// it binds a name.
pub fn record_import(c: &SyntaxNode, path: &str, definitions: &mut Vec<Definition>)
    requires
        rows_fit(*c),
    ensures
        def_views(final(definitions)@) == def_views(old(definitions)@) + if binds_import(*c) {
            seq![import_view(*c, path@)]
        } else {
            Seq::<DefinitionView>::empty()
        },
{
    let binding = import_binding_of(c);
    if c.hangs_under("name") && !binding.as_str().is_empty() {
        let line = c.start_row + 1;
        definitions.push(
            Definition {
                name: binding,
                qualified_name: String::new(),
                kind: DefinitionKind::Import,
                file: path.to_owned(),
                line,
                size: 1,
                decorators: Vec::new(),
                confidence: 60,
            },
        );
        assert(views_of(Seq::<String>::empty()) =~= Seq::<Seq<char>>::empty());
    }
    assert(def_views(definitions@) =~= def_views(old(definitions)@) + if binds_import(*c) {
        seq![import_view(*c, path@)]
    } else {
        Seq::<DefinitionView>::empty()
    });
}

/// Records a `from ... import ...` statement: the names it binds, and the
/// module path's parts and imported names as references.
pub fn handle_import_from(
    node: &SyntaxNode,
    path: &str,
    definitions: &mut Vec<Definition>,
    references: &mut NameSet,
)
    requires
        rows_fit(*node),
    ensures
        def_views(final(definitions)@) == def_views(old(definitions)@) + import_defs(
            *node,
            path@,
            node.children@.len() as int,
        ),
        final(references)@ == old(references)@.union(
            import_from_refs(*node, node.children@.len() as int),
        ),
{
    let n = node.children.len();
    let mut i: usize = 0;
    while i < n
        invariant
            n == node.children@.len(),
            i <= n,
            rows_fit(*node),
            def_views(definitions@) == def_views(old(definitions)@) + import_defs(*node, path@, i as int),
            references@ == old(references)@.union(import_from_refs(*node, i as int)),
        decreases n - i,
    {
        let child = &node.children[i];
        if child.is_kind("dotted_name") {
            let m = child.children.len();
            let mut j: usize = 0;
            let ghost before = references@;
            while j < m
                invariant
                    m == child.children@.len(),
                    j <= m,
                    references@ == before.union(identifier_children(*child, j as int)),
                decreases m - j,
            {
                let part = &child.children[j];
                if part.is_kind("identifier") {
                    references.insert(part.text.clone());
                }
                j = j + 1;
                assert(references@ =~= before.union(identifier_children(*child, j as int)));
            }
        } else if child.is_kind("aliased_import") {
            let k = child.field_index("name");
            if k < child.children.len() {
                references.insert(child.children[k].text.clone());
            }
        } else if child.is_kind("identifier") {
            references.insert(child.text.clone());
        }
        let ghost d0 = def_views(definitions@);
        record_import(child, path, definitions);
        i = i + 1;
        assert(references@ =~= old(references)@.union(import_from_refs(*node, i as int)));
        assert(def_views(definitions@) =~= def_views(old(definitions)@) + import_defs(*node, path@, i as int));
    }
}

/// Records an `import ...` statement: the names it binds, and every name in
/// its imported items as references.
pub fn handle_import(
    node: &SyntaxNode,
    path: &str,
    definitions: &mut Vec<Definition>,
    references: &mut NameSet,
)
    requires
        rows_fit(*node),
    ensures
        def_views(final(definitions)@) == def_views(old(definitions)@) + import_defs(
            *node,
            path@,
            node.children@.len() as int,
        ),
        final(references)@ == old(references)@.union(
            import_refs(*node, node.children@.len() as int),
        ),
{
    let n = node.children.len();
    let mut i: usize = 0;
    while i < n
        invariant
            n == node.children@.len(),
            i <= n,
            rows_fit(*node),
            def_views(definitions@) == def_views(old(definitions)@) + import_defs(*node, path@, i as int),
            references@ == old(references)@.union(import_refs(*node, i as int)),
        decreases n - i,
    {
        let child = &node.children[i];
        if child.is_kind("dotted_name") || child.is_kind("aliased_import") {
            extract_references_from_subtree(child, references);
        }
        record_import(child, path, definitions);
        i = i + 1;
        assert(references@ =~= old(references)@.union(import_refs(*node, i as int)));
        assert(def_views(definitions@) =~= def_views(old(definitions)@) + import_defs(*node, path@, i as int));
    }
}


// ---------------------------------------------------------------------------
// Definitions

/// Unicode `Alphabetic`, as `char::is_alphabetic` decides it.
pub uninterp spec fn unicode_alphabetic(c: char) -> bool;

/// Whether a character is alphabetic.
///
/// Trusted: `char::is_alphabetic` answers the Unicode `Alphabetic` property,
/// named here [`unicode_alphabetic`]; what that property holds is not stated.
#[verifier::external_body]
pub(crate) fn char_is_alphabetic(c: char) -> (r: bool)
    ensures
        r == unicode_alphabetic(c),
{
    c.is_alphabetic()
}

/// The one-based line of a node's first character.
pub open spec fn line_of(n: SyntaxNode) -> usize {
    (n.start_row + 1) as usize
}

/// The number of lines a node spans (at least one).
pub open spec fn span_of(n: SyntaxNode) -> usize {
    if n.end_row >= n.start_row {
        (n.end_row - n.start_row + 1) as usize
    } else {
        1
    }
}

/// The definition that a `function_definition` node introduces.
pub open spec fn function_view(
    n: SyntaxNode,
    path: Seq<char>,
    enc: Option<Seq<char>>,
    decorators: Seq<Seq<char>>,
) -> DefinitionView {
    let name = field_text(n, "name"@);
    DefinitionView {
        name,
        qualified_name: match enc {
            Some(c) => c + seq!['.'] + name,
            None => name,
        },
        kind: if enc is Some {
            DefinitionKind::Method
        } else {
            DefinitionKind::Function
        },
        file: path,
        line: line_of(n),
        size: span_of(n),
        decorators,
        confidence: 60,
    }
}

/// The definition that a `class_definition` node introduces.
pub open spec fn class_view(n: SyntaxNode, path: Seq<char>, decorators: Seq<Seq<char>>) -> DefinitionView {
    let name = field_text(n, "name"@);
    DefinitionView {
        name,
        qualified_name: name,
        kind: DefinitionKind::Class,
        file: path,
        line: line_of(n),
        size: span_of(n),
        decorators,
        confidence: 60,
    }
}

/// The definition that a module-level assignment to `target` introduces.
pub open spec fn variable_view(n: SyntaxNode, path: Seq<char>, target: Seq<char>) -> DefinitionView {
    DefinitionView {
        name: target,
        qualified_name: Seq::empty(),
        kind: DefinitionKind::Variable,
        file: path,
        line: line_of(n),
        size: 1,
        decorators: Seq::empty(),
        confidence: 60,
    }
}

/// The text of a string literal node without its quotes, when it can be
/// found: the `string_content` child, or else the text with quote runs removed
/// when that removes anything.
pub open spec fn string_content(n: SyntaxNode) -> Option<Seq<char>> {
    let k = first_kind_from(n.children@, "string_content"@, 0);
    if 0 <= k < n.children@.len() {
        Some(n.children@[k].text@)
    } else {
        let t = strip_quotes(n.text@);
        if t != n.text@ {
            Some(t)
        } else {
            None
        }
    }
}

/// Three double quotes.
pub open spec fn triple_double() -> Seq<char> {
    seq!['"', '"', '"']
}

/// Three single quotes.
pub open spec fn triple_single() -> Seq<char> {
    seq!['\'', '\'', '\'']
}

/// The text with leading and trailing runs of triple double quotes, triple
/// single quotes, double quotes and single quotes removed, in that order.
pub open spec fn strip_quotes(t: Seq<char>) -> Seq<char> {
    let a = trim_end_matches(trim_start_matches(t, triple_double()), triple_double());
    let b = trim_end_matches(trim_start_matches(a, triple_single()), triple_single());
    let c = trim_end_matches(trim_start_matches(b, seq!['"']), seq!['"']);
    trim_end_matches(trim_start_matches(c, seq!['\'']), seq!['\''])
}

/// The string entries among the first `i` children of a list or tuple.
pub open spec fn list_entries(n: SyntaxNode, i: int) -> Seq<Seq<char>>
    decreases i,
{
    if i <= 0 || i > n.children@.len() {
        Seq::empty()
    } else {
        let c = n.children@[i - 1];
        list_entries(n, i - 1) + if c.kind@ == "string"@ {
            match string_content(c) {
                Some(s) => seq![s],
                None => Seq::empty(),
            }
        } else {
            Seq::empty()
        }
    }
}

/// The entries of the value assigned to `__all__`: those of a literal list or
/// tuple, none otherwise.
pub open spec fn all_entries(n: SyntaxNode) -> Seq<Seq<char>> {
    if n.kind@ == "list"@ || n.kind@ == "tuple"@ {
        list_entries(n, n.children@.len() as int)
    } else {
        Seq::empty()
    }
}

/// The references of the child under field `name`, if any.
pub open spec fn field_refs(n: SyntaxNode, name: Seq<char>) -> Set<Seq<char>> {
    let k = field_slot(n, name);
    if 0 <= k < n.children@.len() {
        subtree_refs(n.children@[k])
    } else {
        Set::empty()
    }
}

/// Whether an assignment target names a variable: a non-empty identifier
/// starting with a letter or an underscore.
pub open spec fn names_variable(n: SyntaxNode, target: Seq<char>) -> bool {
    &&& target.len() > 0
    &&& (unicode_alphabetic(target[0]) || target[0] == '_')
    &&& has_field_child(n, "left"@)
    &&& n.children@[field_slot(n, "left"@)].kind@ == "identifier"@
}

/// What an assignment contributes. `__all__ = [...]` records its string
/// entries and references nothing; any other assignment to a plain name
/// defines a variable, and the assigned value and annotation are references.
pub open spec fn assignment_harvest(n: SyntaxNode, path: Seq<char>) -> Harvest {
    let target = field_text(n, "left"@);
    if target == "__all__"@ {
        let k = field_slot(n, "right"@);
        Harvest {
            defs: Seq::empty(),
            refs: Set::empty(),
            exports: if 0 <= k < n.children@.len() {
                all_entries(n.children@[k])
            } else {
                Seq::empty()
            },
        }
    } else {
        Harvest {
            defs: if names_variable(n, target) {
                seq![variable_view(n, path, target)]
            } else {
                Seq::empty()
            },
            refs: field_refs(n, "right"@).union(field_refs(n, "type"@)),
            exports: Seq::empty(),
        }
    }
}

/// What the first `i` children of an expression statement contribute.
pub open spec fn expression_harvest(n: SyntaxNode, path: Seq<char>, i: int) -> Harvest
    decreases i,
{
    if i <= 0 || i > n.children@.len() {
        nothing()
    } else {
        let c = n.children@[i - 1];
        join(
            expression_harvest(n, path, i - 1),
            if c.kind@ == "assignment"@ {
                assignment_harvest(c, path)
            } else {
                refs_only(subtree_refs(c))
            },
        )
    }
}

/// The decorator texts among the first `i` children.
pub open spec fn decorator_texts(n: SyntaxNode, i: int) -> Seq<Seq<char>>
    decreases i,
{
    if i <= 0 || i > n.children@.len() {
        Seq::empty()
    } else {
        let c = n.children@[i - 1];
        if c.kind@ == "decorator"@ {
            decorator_texts(n, i - 1).push(c.text@)
        } else {
            decorator_texts(n, i - 1)
        }
    }
}

/// What a statement or expression node contributes, inside the class named
/// `enc` if any.
pub open spec fn node_harvest(c: SyntaxNode, path: Seq<char>, enc: Option<Seq<char>>) -> Harvest
    decreases c, 5nat, 0int,
{
    if c.kind@ == "decorated_definition"@ {
        decorated_harvest(c, path, enc)
    } else if c.kind@ == "function_definition"@ {
        function_harvest(c, path, enc, Seq::empty())
    } else if c.kind@ == "class_definition"@ {
        class_harvest(c, path, Seq::empty())
    } else if c.kind@ == "expression_statement"@ {
        expression_harvest(c, path, c.children@.len() as int)
    } else if c.kind@ == "import_from_statement"@ {
        import_from_harvest(c, path)
    } else if c.kind@ == "import_statement"@ {
        import_harvest(c, path)
    } else if c.kind@ == "identifier"@ {
        refs_only(set![c.text@])
    } else if c.kind@ == "attribute"@ {
        refs_only(attribute_refs(c))
    } else if c.kind@ == "call"@ {
        join(refs_only(call_refs(c)), walk_harvest(c, path, enc))
    } else if c.kind@ == "string"@ || c.kind@ == "concatenated_string"@ {
        refs_only(fstring_refs(c))
    } else if c.kind@ == "comment"@ {
        nothing()
    } else {
        walk_harvest(c, path, enc)
    }
}

/// What the children of a node contribute.
pub open spec fn walk_harvest(n: SyntaxNode, path: Seq<char>, enc: Option<Seq<char>>) -> Harvest
    decreases n, 4nat, 0int,
{
    walk_children(n, path, enc, n.children@.len() as int)
}

/// What the first `i` children of a node contribute.
pub open spec fn walk_children(n: SyntaxNode, path: Seq<char>, enc: Option<Seq<char>>, i: int) -> Harvest
    decreases n, 3nat, i,
{
    if i <= 0 || i > n.children@.len() {
        nothing()
    } else {
        join(walk_children(n, path, enc, i - 1), node_harvest(n.children@[i - 1], path, enc))
    }
}

/// What a decorated definition contributes.
pub open spec fn decorated_harvest(n: SyntaxNode, path: Seq<char>, enc: Option<Seq<char>>) -> Harvest
    decreases n, 4nat, 0int,
{
    decorated_children(n, path, enc, n.children@.len() as int)
}

/// What the first `i` children of a decorated definition contribute: the
/// decorators' references, and the definition with the decorators before it.
pub open spec fn decorated_children(
    n: SyntaxNode,
    path: Seq<char>,
    enc: Option<Seq<char>>,
    i: int,
) -> Harvest
    decreases n, 3nat, i,
{
    if i <= 0 || i > n.children@.len() {
        nothing()
    } else {
        let c = n.children@[i - 1];
        join(
            decorated_children(n, path, enc, i - 1),
            if c.kind@ == "decorator"@ {
                refs_only(decorator_refs(c))
            } else if c.kind@ == "function_definition"@ {
                function_harvest(c, path, enc, decorator_texts(n, i - 1))
            } else if c.kind@ == "class_definition"@ {
                class_harvest(c, path, decorator_texts(n, i - 1))
            } else {
                nothing()
            },
        )
    }
}

/// What a function definition contributes: the function (a method inside a
/// class), and the references and `__all__` entries of its body, parameters
/// and return annotation. Definitions nested in its body are not recorded.
pub open spec fn function_harvest(
    n: SyntaxNode,
    path: Seq<char>,
    enc: Option<Seq<char>>,
    decorators: Seq<Seq<char>>,
) -> Harvest
    decreases n, 4nat, 0int,
{
    if field_text(n, "name"@).len() == 0 {
        nothing()
    } else {
        let k = field_slot(n, "body"@);
        let body = if 0 <= k < n.children@.len() {
            walk_harvest(n.children@[k], path, enc)
        } else {
            nothing()
        };
        Harvest {
            defs: seq![function_view(n, path, enc, decorators)],
            refs: body.refs.union(field_refs(n, "parameters"@)).union(
                field_refs(n, "return_type"@),
            ),
            exports: body.exports,
        }
    }
}

/// What a class definition contributes: the class, the references of its
/// bases, and what its body contributes with the class as enclosing class.
pub open spec fn class_harvest(n: SyntaxNode, path: Seq<char>, decorators: Seq<Seq<char>>) -> Harvest
    decreases n, 4nat, 0int,
{
    let name = field_text(n, "name"@);
    if name.len() == 0 {
        nothing()
    } else {
        let k = field_slot(n, "body"@);
        let body = if 0 <= k < n.children@.len() {
            walk_harvest(n.children@[k], path, Some(name))
        } else {
            nothing()
        };
        join(
            Harvest {
                defs: seq![class_view(n, path, decorators)],
                refs: field_refs(n, "superclasses"@),
                exports: Seq::empty(),
            },
            body,
        )
    }
}

/// What a whole module contributes.
pub open spec fn module_analysis(path: Seq<char>, root: SyntaxNode) -> FileAnalysisView {
    let h = walk_harvest(root, path, None);
    FileAnalysisView { path, definitions: h.defs, references: h.refs, all_exports: h.exports }
}

/// The accumulators went from `(d0, r0, e0)` to `(d1, r1, e1)` by adding `h`.
pub open spec fn grew(
    d0: Vec<Definition>,
    r0: NameSet,
    e0: Vec<String>,
    d1: Vec<Definition>,
    r1: NameSet,
    e1: Vec<String>,
    h: Harvest,
) -> bool {
    added(def_views(d0@), r0@, views_of(e0@), def_views(d1@), r1@, views_of(e1@), h)
}

/// The view of an optional enclosing class name.
pub open spec fn enclosing_view(enc: Option<&str>) -> Option<Seq<char>> {
    match enc {
        Some(c) => Some(c@),
        None => None,
    }
}


// ---------------------------------------------------------------------------
// Definition extraction

proof fn lemma_refs_only(
    d: Seq<DefinitionView>,
    r0: Set<Seq<char>>,
    e: Seq<Seq<char>>,
    r1: Set<Seq<char>>,
    x: Set<Seq<char>>,
)
    requires
        r1 == r0.union(x),
    ensures
        added(d, r0, e, d, r1, e, refs_only(x)),
{
    assert(d =~= d + Seq::<DefinitionView>::empty());
    assert(e =~= e + Seq::<Seq<char>>::empty());
}

proof fn lemma_nothing(d: Seq<DefinitionView>, r: Set<Seq<char>>, e: Seq<Seq<char>>)
    ensures
        added(d, r, e, d, r, e, nothing()),
{
    assert(d =~= d + Seq::<DefinitionView>::empty());
    assert(r =~= r.union(Set::<Seq<char>>::empty()));
    assert(e =~= e + Seq::<Seq<char>>::empty());
}

/// The text of a string literal without its quotes, when it can be found.
pub fn extract_string_content(node: &SyntaxNode) -> (r: Option<String>)
    ensures
        match r {
            Some(s) => string_content(*node) == Some(s@),
            None => string_content(*node) is None,
        },
{
    let k = node.kind_index("string_content");
    if k < node.children.len() {
        return Some(node.children[k].text.clone());
    }
    let text = chars_of(node.text.as_str());
    let dq3 = vec!['"', '"', '"'];
    let sq3 = vec!['\'', '\'', '\''];
    let dq = vec!['"'];
    let sq = vec!['\''];
    assert(dq3@ =~= triple_double());
    assert(sq3@ =~= triple_single());
    assert(dq@ =~= seq!['"']);
    assert(sq@ =~= seq!['\'']);
    let a = trim_end_matches_chars(&trim_start_matches_chars(&text, &dq3), &dq3);
    let b = trim_end_matches_chars(&trim_start_matches_chars(&a, &sq3), &sq3);
    let c = trim_end_matches_chars(&trim_start_matches_chars(&b, &dq), &dq);
    let trimmed = trim_end_matches_chars(&trim_start_matches_chars(&c, &sq), &sq);
    if !chars_eq(&trimmed, &text) {
        Some(string_of(trimmed.as_slice()))
    } else {
        None
    }
}

/// Appends the string entries of the value assigned to `__all__`.
pub fn extract_all_entries(node: &SyntaxNode, all_exports: &mut Vec<String>)
    ensures
        views_of(final(all_exports)@) == views_of(old(all_exports)@) + all_entries(*node),
{
    if node.is_kind("list") || node.is_kind("tuple") {
        let n = node.children.len();
        let mut i: usize = 0;
        while i < n
            invariant
                n == node.children@.len(),
                i <= n,
                views_of(all_exports@) == views_of(old(all_exports)@) + list_entries(*node, i as int),
            decreases n - i,
        {
            let child = &node.children[i];
            let ghost before = all_exports@;
            if child.is_kind("string") {
                match extract_string_content(child) {
                    Some(content) => {
                        all_exports.push(content);
                        assert(views_of(all_exports@) =~= views_of(before).push(content@));
                    },
                    None => {},
                }
            }
            i = i + 1;
            assert(views_of(all_exports@) =~= views_of(old(all_exports)@) + list_entries(*node, i as int));
        }
    } else {
        assert(views_of(all_exports@) =~= views_of(old(all_exports)@) + all_entries(*node));
    }
}

/// Records an assignment: the `__all__` entries, or the variable it defines
/// and the references of its value and annotation.
pub fn handle_assignment(
    node: &SyntaxNode,
    path: &str,
    definitions: &mut Vec<Definition>,
    references: &mut NameSet,
    all_exports: &mut Vec<String>,
)
    requires
        rows_fit(*node),
    ensures
        grew(
            *old(definitions),
            *old(references),
            *old(all_exports),
            *final(definitions),
            *final(references),
            *final(all_exports),
            assignment_harvest(*node, path@),
        ),
{
    let n = node.children.len();
    let lk = node.field_index("left");
    let rk = node.field_index("right");
    let target_name = if lk < n {
        node.children[lk].text.clone()
    } else {
        String::new()
    };
    if str_eq(target_name.as_str(), "__all__") {
        if rk < n {
            extract_all_entries(&node.children[rk], all_exports);
        }
        assert(def_views(definitions@) =~= def_views(old(definitions)@) + Seq::<DefinitionView>::empty());
        assert(references@ =~= old(references)@.union(Set::<Seq<char>>::empty()));
        assert(views_of(all_exports@) =~= views_of(old(all_exports)@) + assignment_harvest(*node, path@).exports);
        return ;
    }
    let ghost target = target_name@;
    let mut defines = false;
    if !target_name.as_str().is_empty() {
        let first = target_name.as_str().get_char(0);
        if (char_is_alphabetic(first) || first == '_') && lk < n && node.children[lk].is_kind(
            "identifier",
        ) {
            defines = true;
        }
    }
    assert(defines == names_variable(*node, target));
    if defines {
        let line = node.start_row + 1;
        definitions.push(
            Definition {
                name: target_name,
                qualified_name: String::new(),
                kind: DefinitionKind::Variable,
                file: path.to_owned(),
                line,
                size: 1,
                decorators: Vec::new(),
                confidence: 60,
            },
        );
        assert(views_of(Seq::<String>::empty()) =~= Seq::<Seq<char>>::empty());
    }
    assert(def_views(definitions@) =~= def_views(old(definitions)@) + assignment_harvest(*node, path@).defs);
    if rk < n {
        extract_references_from_subtree(&node.children[rk], references);
    }
    assert(references@ =~= old(references)@.union(field_refs(*node, "right"@)));
    let tk = node.field_index("type");
    if tk < n {
        extract_references_from_subtree(&node.children[tk], references);
    }
    assert(references@ =~= old(references)@.union(field_refs(*node, "right"@)).union(field_refs(*node, "type"@)));
    assert(references@ =~= old(references)@.union(assignment_harvest(*node, path@).refs));
    assert(views_of(all_exports@) =~= views_of(old(all_exports)@) + Seq::<Seq<char>>::empty());
}

/// Records an expression statement: its assignments, and the references of
/// everything else.
pub fn handle_expression_statement(
    node: &SyntaxNode,
    path: &str,
    definitions: &mut Vec<Definition>,
    references: &mut NameSet,
    all_exports: &mut Vec<String>,
)
    requires
        rows_fit(*node),
    ensures
        grew(
            *old(definitions),
            *old(references),
            *old(all_exports),
            *final(definitions),
            *final(references),
            *final(all_exports),
            expression_harvest(*node, path@, node.children@.len() as int),
        ),
{
    let n = node.children.len();
    let mut i: usize = 0;
    proof {
        lemma_nothing(def_views(definitions@), references@, views_of(all_exports@));
    }
    while i < n
        invariant
            n == node.children@.len(),
            i <= n,
            rows_fit(*node),
            grew(
                *old(definitions),
                *old(references),
                *old(all_exports),
                *definitions,
                *references,
                *all_exports,
                expression_harvest(*node, path@, i as int),
            ),
        decreases n - i,
    {
        let child = &node.children[i];
        let ghost d0 = *definitions;
        let ghost r0 = *references;
        let ghost e0 = *all_exports;
        if child.is_kind("assignment") {
            handle_assignment(child, path, definitions, references, all_exports);
        } else {
            extract_references_from_subtree(child, references);
            proof {
                lemma_refs_only(def_views(d0@), r0@, views_of(e0@), references@, subtree_refs(*child));
            }
        }
        proof {
            lemma_added_join(
                def_views(old(definitions)@),
                old(references)@,
                views_of(old(all_exports)@),
                def_views(d0@),
                r0@,
                views_of(e0@),
                def_views(definitions@),
                references@,
                views_of(all_exports@),
                expression_harvest(*node, path@, i as int),
                if child.kind@ == "assignment"@ {
                    assignment_harvest(*child, path@)
                } else {
                    refs_only(subtree_refs(*child))
                },
            );
        }
        i = i + 1;
    }
}

/// Records the definitions, references and `__all__` entries of the children
/// of `node`, inside the class `enclosing_class` if any.
pub fn extract_from_node(
    node: &SyntaxNode,
    path: &str,
    enclosing_class: Option<&str>,
    definitions: &mut Vec<Definition>,
    references: &mut NameSet,
    all_exports: &mut Vec<String>,
)
    requires
        rows_fit(*node),
    ensures
        grew(
            *old(definitions),
            *old(references),
            *old(all_exports),
            *final(definitions),
            *final(references),
            *final(all_exports),
            walk_harvest(*node, path@, enclosing_view(enclosing_class)),
        ),
    decreases node,
{
    let ghost enc = enclosing_view(enclosing_class);
    let n = node.children.len();
    let mut i: usize = 0;
    proof {
        lemma_nothing(def_views(definitions@), references@, views_of(all_exports@));
    }
    while i < n
        invariant
            n == node.children@.len(),
            i <= n,
            rows_fit(*node),
            enc == enclosing_view(enclosing_class),
            grew(
                *old(definitions),
                *old(references),
                *old(all_exports),
                *definitions,
                *references,
                *all_exports,
                walk_children(*node, path@, enc, i as int),
            ),
        decreases n - i,
    {
        let child = &node.children[i];
        let ghost d0 = *definitions;
        let ghost r0 = *references;
        let ghost e0 = *all_exports;
        if child.is_kind("decorated_definition") {
            handle_decorated_definition(
                child,
                path,
                enclosing_class,
                definitions,
                references,
                all_exports,
            );
        } else if child.is_kind("function_definition") {
            let no_decorators: Vec<String> = Vec::new();
            assert(views_of(no_decorators@) =~= Seq::<Seq<char>>::empty());
            handle_function_definition(
                child,
                path,
                enclosing_class,
                &no_decorators,
                definitions,
                references,
                all_exports,
            );
        } else if child.is_kind("class_definition") {
            let no_decorators: Vec<String> = Vec::new();
            assert(views_of(no_decorators@) =~= Seq::<Seq<char>>::empty());
            handle_class_definition(child, path, &no_decorators, definitions, references, all_exports);
        } else if child.is_kind("expression_statement") {
            handle_expression_statement(child, path, definitions, references, all_exports);
        } else if child.is_kind("import_from_statement") {
            handle_import_from(child, path, definitions, references);
            assert(views_of(all_exports@) =~= views_of(e0@) + import_from_harvest(*child, path@).exports);
        } else if child.is_kind("import_statement") {
            handle_import(child, path, definitions, references);
            assert(views_of(all_exports@) =~= views_of(e0@) + import_harvest(*child, path@).exports);
        } else if child.is_kind("identifier") {
            references.insert(child.text.clone());
            assert(references@ =~= r0@.union(set![child.text@]));
            proof {
                lemma_refs_only(def_views(d0@), r0@, views_of(e0@), references@, set![child.text@]);
            }
        } else if child.is_kind("attribute") {
            extract_attribute_references(child, references);
            proof {
                lemma_refs_only(def_views(d0@), r0@, views_of(e0@), references@, attribute_refs(*child));
            }
        } else if child.is_kind("call") {
            extract_call_references(child, references);
            let ghost r1 = *references;
            proof {
                lemma_refs_only(def_views(d0@), r0@, views_of(e0@), r1@, call_refs(*child));
            }
            extract_from_node(child, path, enclosing_class, definitions, references, all_exports);
            proof {
                lemma_added_join(
                    def_views(d0@),
                    r0@,
                    views_of(e0@),
                    def_views(d0@),
                    r1@,
                    views_of(e0@),
                    def_views(definitions@),
                    references@,
                    views_of(all_exports@),
                    refs_only(call_refs(*child)),
                    walk_harvest(*child, path@, enc),
                );
            }
        } else if child.is_kind("string") || child.is_kind("concatenated_string") {
            extract_fstring_references(child, references);
            proof {
                lemma_refs_only(def_views(d0@), r0@, views_of(e0@), references@, fstring_refs(*child));
            }
        } else if child.is_kind("comment") {
            proof {
                lemma_nothing(def_views(d0@), r0@, views_of(e0@));
            }
        } else {
            extract_from_node(child, path, enclosing_class, definitions, references, all_exports);
        }
        proof {
            lemma_added_join(
                def_views(old(definitions)@),
                old(references)@,
                views_of(old(all_exports)@),
                def_views(d0@),
                r0@,
                views_of(e0@),
                def_views(definitions@),
                references@,
                views_of(all_exports@),
                walk_children(*node, path@, enc, i as int),
                node_harvest(*child, path@, enc),
            );
        }
        i = i + 1;
    }
}

/// Records a decorated function or class with the text of its decorators,
/// and the decorators' references.
pub fn handle_decorated_definition(
    node: &SyntaxNode,
    path: &str,
    enclosing_class: Option<&str>,
    definitions: &mut Vec<Definition>,
    references: &mut NameSet,
    all_exports: &mut Vec<String>,
)
    requires
        rows_fit(*node),
    ensures
        grew(
            *old(definitions),
            *old(references),
            *old(all_exports),
            *final(definitions),
            *final(references),
            *final(all_exports),
            decorated_harvest(*node, path@, enclosing_view(enclosing_class)),
        ),
    decreases node,
{
    let ghost enc = enclosing_view(enclosing_class);
    let mut decorators: Vec<String> = Vec::new();
    let n = node.children.len();
    let mut i: usize = 0;
    proof {
        lemma_nothing(def_views(definitions@), references@, views_of(all_exports@));
        assert(views_of(decorators@) =~= Seq::<Seq<char>>::empty());
    }
    while i < n
        invariant
            n == node.children@.len(),
            i <= n,
            rows_fit(*node),
            enc == enclosing_view(enclosing_class),
            views_of(decorators@) == decorator_texts(*node, i as int),
            grew(
                *old(definitions),
                *old(references),
                *old(all_exports),
                *definitions,
                *references,
                *all_exports,
                decorated_children(*node, path@, enc, i as int),
            ),
        decreases n - i,
    {
        let child = &node.children[i];
        let ghost d0 = *definitions;
        let ghost r0 = *references;
        let ghost e0 = *all_exports;
        let ghost texts = decorator_texts(*node, i as int);
        if child.is_kind("decorator") {
            decorators.push(child.text.clone());
            assert(views_of(decorators@) =~= texts.push(child.text@));
            extract_decorator_references(child, references);
            proof {
                lemma_refs_only(def_views(d0@), r0@, views_of(e0@), references@, decorator_refs(*child));
            }
        } else if child.is_kind("function_definition") {
            handle_function_definition(
                child,
                path,
                enclosing_class,
                &decorators,
                definitions,
                references,
                all_exports,
            );
        } else if child.is_kind("class_definition") {
            handle_class_definition(child, path, &decorators, definitions, references, all_exports);
        } else {
            proof {
                lemma_nothing(def_views(d0@), r0@, views_of(e0@));
            }
        }
        proof {
            lemma_added_join(
                def_views(old(definitions)@),
                old(references)@,
                views_of(old(all_exports)@),
                def_views(d0@),
                r0@,
                views_of(e0@),
                def_views(definitions@),
                references@,
                views_of(all_exports@),
                decorated_children(*node, path@, enc, i as int),
                if child.kind@ == "decorator"@ {
                    refs_only(decorator_refs(*child))
                } else if child.kind@ == "function_definition"@ {
                    function_harvest(*child, path@, enc, texts)
                } else if child.kind@ == "class_definition"@ {
                    class_harvest(*child, path@, texts)
                } else {
                    nothing()
                },
            );
        }
        i = i + 1;
    }
}

/// Records a function (a method inside a class) and the references and
/// `__all__` entries of its body, parameters and return annotation.
pub fn handle_function_definition(
    node: &SyntaxNode,
    path: &str,
    enclosing_class: Option<&str>,
    decorators: &Vec<String>,
    definitions: &mut Vec<Definition>,
    references: &mut NameSet,
    all_exports: &mut Vec<String>,
)
    requires
        rows_fit(*node),
    ensures
        grew(
            *old(definitions),
            *old(references),
            *old(all_exports),
            *final(definitions),
            *final(references),
            *final(all_exports),
            function_harvest(*node, path@, enclosing_view(enclosing_class), views_of(decorators@)),
        ),
    decreases node,
{
    let ghost enc = enclosing_view(enclosing_class);
    let n = node.children.len();
    let k = node.field_index("name");
    let name = if k < n {
        node.children[k].text.clone()
    } else {
        String::new()
    };
    if name.as_str().is_empty() {
        proof {
            lemma_nothing(def_views(definitions@), references@, views_of(all_exports@));
        }
        return ;
    }
    let kind = match enclosing_class {
        Some(_) => DefinitionKind::Method,
        None => DefinitionKind::Function,
    };
    let qualified_name = match enclosing_class {
        Some(cls) => {
            let mut q = cls.to_owned();
            push_char(&mut q, '.');
            q.append(name.as_str());
            q
        },
        None => name.clone(),
    };
    let start_line = node.start_row + 1;
    let end_line = node.end_row + 1;
    let size = end_line.saturating_sub(start_line) + 1;
    let def = Definition {
        name,
        qualified_name,
        kind,
        file: path.to_owned(),
        line: start_line,
        size,
        decorators: copy_strings(decorators),
        confidence: 60,
    };
    let ghost fv = function_view(*node, path@, enc, views_of(decorators@));
    assert(def@.name == fv.name);
    assert(def@.qualified_name =~= fv.qualified_name);
    assert(def@.kind == fv.kind);
    assert(def@.line == fv.line);
    assert(def@.size == fv.size);
    assert(def@.decorators == fv.decorators);
    assert(def@ == fv);
    definitions.push(def);
    assert(def_views(definitions@) =~= def_views(old(definitions)@).push(def@));
    let b = node.field_index("body");
    if b < n {
        let mut nested: Vec<Definition> = Vec::new();
        extract_from_node(&node.children[b], path, enclosing_class, &mut nested, references, all_exports);
    }
    let ghost body = if b < n {
        walk_harvest(node.children@[b as int], path@, enc)
    } else {
        nothing()
    };
    assert(references@ =~= old(references)@.union(body.refs));
    assert(views_of(all_exports@) =~= views_of(old(all_exports)@) + body.exports);
    let p = node.field_index("parameters");
    if p < n {
        extract_references_from_subtree(&node.children[p], references);
    }
    assert(references@ =~= old(references)@.union(body.refs.union(field_refs(*node, "parameters"@))));
    let r = node.field_index("return_type");
    if r < n {
        extract_references_from_subtree(&node.children[r], references);
    }
    assert(references@ =~= old(references)@.union(
        body.refs.union(field_refs(*node, "parameters"@)).union(field_refs(*node, "return_type"@)),
    ));
    assert(def_views(definitions@) =~= def_views(old(definitions)@) + seq![def@]);
}

/// Records a class, the references of its bases, and its body with the class
/// as enclosing class.
pub fn handle_class_definition(
    node: &SyntaxNode,
    path: &str,
    decorators: &Vec<String>,
    definitions: &mut Vec<Definition>,
    references: &mut NameSet,
    all_exports: &mut Vec<String>,
)
    requires
        rows_fit(*node),
    ensures
        grew(
            *old(definitions),
            *old(references),
            *old(all_exports),
            *final(definitions),
            *final(references),
            *final(all_exports),
            class_harvest(*node, path@, views_of(decorators@)),
        ),
    decreases node,
{
    let n = node.children.len();
    let k = node.field_index("name");
    let name = if k < n {
        node.children[k].text.clone()
    } else {
        String::new()
    };
    if name.as_str().is_empty() {
        proof {
            lemma_nothing(def_views(definitions@), references@, views_of(all_exports@));
        }
        return ;
    }
    let start_line = node.start_row + 1;
    let end_line = node.end_row + 1;
    let size = end_line.saturating_sub(start_line) + 1;
    let def = Definition {
        name: name.clone(),
        qualified_name: name.clone(),
        kind: DefinitionKind::Class,
        file: path.to_owned(),
        line: start_line,
        size,
        decorators: copy_strings(decorators),
        confidence: 60,
    };
    assert(def@ == class_view(*node, path@, views_of(decorators@)));
    definitions.push(def);
    let ghost head = Harvest {
        defs: seq![def@],
        refs: field_refs(*node, "superclasses"@),
        exports: Seq::empty(),
    };
    let s = node.field_index("superclasses");
    if s < n {
        extract_references_from_subtree(&node.children[s], references);
    }
    assert(def_views(definitions@) =~= def_views(old(definitions)@) + head.defs);
    assert(references@ =~= old(references)@.union(head.refs));
    assert(views_of(all_exports@) =~= views_of(old(all_exports)@) + head.exports);
    let ghost d1 = *definitions;
    let ghost r1 = *references;
    let ghost e1 = *all_exports;
    let b = node.field_index("body");
    if b < n {
        extract_from_node(&node.children[b], path, Some(name.as_str()), definitions, references, all_exports);
    } else {
        proof {
            lemma_nothing(def_views(d1@), r1@, views_of(e1@));
        }
    }
    proof {
        let body = if b < n {
            walk_harvest(node.children@[b as int], path@, Some(name@))
        } else {
            nothing()
        };
        lemma_added_join(
            def_views(old(definitions)@),
            old(references)@,
            views_of(old(all_exports)@),
            def_views(d1@),
            r1@,
            views_of(e1@),
            def_views(definitions@),
            references@,
            views_of(all_exports@),
            head,
            body,
        );
    }
}

/// The definitions, references and `__all__` entries of a module, given its
/// syntax tree.
pub fn analyze_tree(path: &str, root: &SyntaxNode) -> (r: FileAnalysis)
    requires
        rows_fit(*root),
    ensures
        r@ == module_analysis(path@, *root),
{
    let mut definitions: Vec<Definition> = Vec::new();
    let mut references = NameSet::new();
    let mut all_exports: Vec<String> = Vec::new();
    extract_from_node(root, path, None, &mut definitions, &mut references, &mut all_exports);
    let h = Ghost(walk_harvest(*root, path@, None));
    assert(def_views(definitions@) =~= h@.defs);
    assert(references@ =~= h@.refs);
    assert(views_of(all_exports@) =~= h@.exports);
    FileAnalysis { path: path.to_owned(), definitions, references, all_exports }
}


// ---------------------------------------------------------------------------
// Whole modules

/// The dunder names that the Python data model calls implicitly, and that are
/// therefore never reported.
pub open spec fn is_dunder_name(name: Seq<char>) -> bool {
    ||| name == "__init__"@
    ||| name == "__new__"@
    ||| name == "__del__"@
    ||| name == "__repr__"@
    ||| name == "__str__"@
    ||| name == "__bytes__"@
    ||| name == "__format__"@
    ||| name == "__lt__"@
    ||| name == "__le__"@
    ||| name == "__eq__"@
    ||| name == "__ne__"@
    ||| name == "__gt__"@
    ||| name == "__ge__"@
    ||| name == "__hash__"@
    ||| name == "__bool__"@
    ||| name == "__getattr__"@
    ||| name == "__getattribute__"@
    ||| name == "__setattr__"@
    ||| name == "__delattr__"@
    ||| name == "__dir__"@
    ||| name == "__get__"@
    ||| name == "__set__"@
    ||| name == "__delete__"@
    ||| name == "__set_name__"@
    ||| name == "__init_subclass__"@
    ||| name == "__class_getitem__"@
    ||| name == "__call__"@
    ||| name == "__len__"@
    ||| name == "__length_hint__"@
    ||| name == "__getitem__"@
    ||| name == "__setitem__"@
    ||| name == "__delitem__"@
    ||| name == "__missing__"@
    ||| name == "__iter__"@
    ||| name == "__next__"@
    ||| name == "__reversed__"@
    ||| name == "__contains__"@
    ||| name == "__add__"@
    ||| name == "__radd__"@
    ||| name == "__iadd__"@
    ||| name == "__mul__"@
    ||| name == "__rmul__"@
    ||| name == "__imul__"@
    ||| name == "__sub__"@
    ||| name == "__rsub__"@
    ||| name == "__isub__"@
    ||| name == "__mod__"@
    ||| name == "__rmod__"@
    ||| name == "__imod__"@
    ||| name == "__pow__"@
    ||| name == "__rpow__"@
    ||| name == "__ipow__"@
    ||| name == "__truediv__"@
    ||| name == "__rtruediv__"@
    ||| name == "__itruediv__"@
    ||| name == "__floordiv__"@
    ||| name == "__rfloordiv__"@
    ||| name == "__ifloordiv__"@
    ||| name == "__neg__"@
    ||| name == "__pos__"@
    ||| name == "__abs__"@
    ||| name == "__invert__"@
    ||| name == "__lshift__"@
    ||| name == "__rlshift__"@
    ||| name == "__ilshift__"@
    ||| name == "__rshift__"@
    ||| name == "__rrshift__"@
    ||| name == "__irshift__"@
    ||| name == "__and__"@
    ||| name == "__rand__"@
    ||| name == "__iand__"@
    ||| name == "__or__"@
    ||| name == "__ror__"@
    ||| name == "__ior__"@
    ||| name == "__xor__"@
    ||| name == "__rxor__"@
    ||| name == "__ixor__"@
    ||| name == "__int__"@
    ||| name == "__float__"@
    ||| name == "__complex__"@
    ||| name == "__index__"@
    ||| name == "__round__"@
    ||| name == "__trunc__"@
    ||| name == "__floor__"@
    ||| name == "__ceil__"@
    ||| name == "__enter__"@
    ||| name == "__exit__"@
    ||| name == "__aenter__"@
    ||| name == "__aexit__"@
    ||| name == "__aiter__"@
    ||| name == "__anext__"@
    ||| name == "__await__"@
    ||| name == "__fspath__"@
    ||| name == "__reduce__"@
    ||| name == "__reduce_ex__"@
    ||| name == "__getstate__"@
    ||| name == "__setstate__"@
    ||| name == "__copy__"@
    ||| name == "__deepcopy__"@
    ||| name == "__getnewargs__"@
    ||| name == "__getnewargs_ex__"@
    ||| name == "__sizeof__"@
    ||| name == "__subclasshook__"@
    ||| name == "__instancecheck__"@
    ||| name == "__subclasscheck__"@
    ||| name == "__class__"@
    ||| name == "__dict__"@
    ||| name == "__doc__"@
    ||| name == "__module__"@
    ||| name == "__slots__"@
    ||| name == "__weakref__"@
    ||| name == "__abstractmethods__"@
    ||| name == "__all__"@
    ||| name == "__annotations__"@
    ||| name == "__bases__"@
    ||| name == "__builtins__"@
    ||| name == "__cached__"@
    ||| name == "__file__"@
    ||| name == "__loader__"@
    ||| name == "__name__"@
    ||| name == "__package__"@
    ||| name == "__path__"@
    ||| name == "__qualname__"@
    ||| name == "__spec__"@
    ||| name == "__wrapped__"@
    ||| name == "__traceback__"@
    ||| name == "__cause__"@
    ||| name == "__context__"@
    ||| name == "__suppress_context__"@
    ||| name == "__args__"@
    ||| name == "__origin__"@
    ||| name == "__mro__"@
    ||| name == "__mro_entries__"@
    ||| name == "__prepare__"@
    ||| name == "__post_init__"@
    ||| name == "__match_args__"@
    ||| name == "__type_params__"@
    ||| name == "__buffer__"@
    ||| name == "__release_buffer__"@
    ||| name == "__get_pydantic_core_schema__"@
    ||| name == "__get_validators__"@
    ||| name == "__modify_schema__"@
}

/// Returns true if the name is a dunder that should be auto-whitelisted.
pub fn is_whitelisted_dunder(name: &str) -> (r: bool)
    ensures
        r == is_dunder_name(name@),
{
    str_eq(name, "__init__") ||
        str_eq(name, "__new__") ||
        str_eq(name, "__del__") ||
        str_eq(name, "__repr__") ||
        str_eq(name, "__str__") ||
        str_eq(name, "__bytes__") ||
        str_eq(name, "__format__") ||
        str_eq(name, "__lt__") ||
        str_eq(name, "__le__") ||
        str_eq(name, "__eq__") ||
        str_eq(name, "__ne__") ||
        str_eq(name, "__gt__") ||
        str_eq(name, "__ge__") ||
        str_eq(name, "__hash__") ||
        str_eq(name, "__bool__") ||
        str_eq(name, "__getattr__") ||
        str_eq(name, "__getattribute__") ||
        str_eq(name, "__setattr__") ||
        str_eq(name, "__delattr__") ||
        str_eq(name, "__dir__") ||
        str_eq(name, "__get__") ||
        str_eq(name, "__set__") ||
        str_eq(name, "__delete__") ||
        str_eq(name, "__set_name__") ||
        str_eq(name, "__init_subclass__") ||
        str_eq(name, "__class_getitem__") ||
        str_eq(name, "__call__") ||
        str_eq(name, "__len__") ||
        str_eq(name, "__length_hint__") ||
        str_eq(name, "__getitem__") ||
        str_eq(name, "__setitem__") ||
        str_eq(name, "__delitem__") ||
        str_eq(name, "__missing__") ||
        str_eq(name, "__iter__") ||
        str_eq(name, "__next__") ||
        str_eq(name, "__reversed__") ||
        str_eq(name, "__contains__") ||
        str_eq(name, "__add__") ||
        str_eq(name, "__radd__") ||
        str_eq(name, "__iadd__") ||
        str_eq(name, "__mul__") ||
        str_eq(name, "__rmul__") ||
        str_eq(name, "__imul__") ||
        str_eq(name, "__sub__") ||
        str_eq(name, "__rsub__") ||
        str_eq(name, "__isub__") ||
        str_eq(name, "__mod__") ||
        str_eq(name, "__rmod__") ||
        str_eq(name, "__imod__") ||
        str_eq(name, "__pow__") ||
        str_eq(name, "__rpow__") ||
        str_eq(name, "__ipow__") ||
        str_eq(name, "__truediv__") ||
        str_eq(name, "__rtruediv__") ||
        str_eq(name, "__itruediv__") ||
        str_eq(name, "__floordiv__") ||
        str_eq(name, "__rfloordiv__") ||
        str_eq(name, "__ifloordiv__") ||
        str_eq(name, "__neg__") ||
        str_eq(name, "__pos__") ||
        str_eq(name, "__abs__") ||
        str_eq(name, "__invert__") ||
        str_eq(name, "__lshift__") ||
        str_eq(name, "__rlshift__") ||
        str_eq(name, "__ilshift__") ||
        str_eq(name, "__rshift__") ||
        str_eq(name, "__rrshift__") ||
        str_eq(name, "__irshift__") ||
        str_eq(name, "__and__") ||
        str_eq(name, "__rand__") ||
        str_eq(name, "__iand__") ||
        str_eq(name, "__or__") ||
        str_eq(name, "__ror__") ||
        str_eq(name, "__ior__") ||
        str_eq(name, "__xor__") ||
        str_eq(name, "__rxor__") ||
        str_eq(name, "__ixor__") ||
        str_eq(name, "__int__") ||
        str_eq(name, "__float__") ||
        str_eq(name, "__complex__") ||
        str_eq(name, "__index__") ||
        str_eq(name, "__round__") ||
        str_eq(name, "__trunc__") ||
        str_eq(name, "__floor__") ||
        str_eq(name, "__ceil__") ||
        str_eq(name, "__enter__") ||
        str_eq(name, "__exit__") ||
        str_eq(name, "__aenter__") ||
        str_eq(name, "__aexit__") ||
        str_eq(name, "__aiter__") ||
        str_eq(name, "__anext__") ||
        str_eq(name, "__await__") ||
        str_eq(name, "__fspath__") ||
        str_eq(name, "__reduce__") ||
        str_eq(name, "__reduce_ex__") ||
        str_eq(name, "__getstate__") ||
        str_eq(name, "__setstate__") ||
        str_eq(name, "__copy__") ||
        str_eq(name, "__deepcopy__") ||
        str_eq(name, "__getnewargs__") ||
        str_eq(name, "__getnewargs_ex__") ||
        str_eq(name, "__sizeof__") ||
        str_eq(name, "__subclasshook__") ||
        str_eq(name, "__instancecheck__") ||
        str_eq(name, "__subclasscheck__") ||
        str_eq(name, "__class__") ||
        str_eq(name, "__dict__") ||
        str_eq(name, "__doc__") ||
        str_eq(name, "__module__") ||
        str_eq(name, "__slots__") ||
        str_eq(name, "__weakref__") ||
        str_eq(name, "__abstractmethods__") ||
        str_eq(name, "__all__") ||
        str_eq(name, "__annotations__") ||
        str_eq(name, "__bases__") ||
        str_eq(name, "__builtins__") ||
        str_eq(name, "__cached__") ||
        str_eq(name, "__file__") ||
        str_eq(name, "__loader__") ||
        str_eq(name, "__name__") ||
        str_eq(name, "__package__") ||
        str_eq(name, "__path__") ||
        str_eq(name, "__qualname__") ||
        str_eq(name, "__spec__") ||
        str_eq(name, "__wrapped__") ||
        str_eq(name, "__traceback__") ||
        str_eq(name, "__cause__") ||
        str_eq(name, "__context__") ||
        str_eq(name, "__suppress_context__") ||
        str_eq(name, "__args__") ||
        str_eq(name, "__origin__") ||
        str_eq(name, "__mro__") ||
        str_eq(name, "__mro_entries__") ||
        str_eq(name, "__prepare__") ||
        str_eq(name, "__post_init__") ||
        str_eq(name, "__match_args__") ||
        str_eq(name, "__type_params__") ||
        str_eq(name, "__buffer__") ||
        str_eq(name, "__release_buffer__") ||
        str_eq(name, "__get_pydantic_core_schema__") ||
        str_eq(name, "__get_validators__") ||
        str_eq(name, "__modify_schema__")
}

/// The definitions, references and `__all__` entries of a Python module,
/// parsed from its source text: the analysis of the tree that tree-sitter's
/// Python grammar gives for it. It always succeeds.
pub fn parse_source(path: &str, source: &str) -> (r: Result<FileAnalysis, ParseError>)
    ensures
        r is Ok,
        r matches Ok(fa) ==> fa@ == module_analysis(path@, python_tree(source@)),
{
    match parse_python(source) {
        Ok(root) => {
            let fa = analyze_tree(path, &root);
            proof {
                lemma_mirrored_analysis(path@, root, python_tree(source@));
            }
            Ok(fa)
        },
        Err(e) => Err(e),
    }
}

} // verus!
