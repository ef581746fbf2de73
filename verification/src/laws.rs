//! Properties of the library as a whole, proved over the specifications that
//! the functions' contracts use.
use vstd::prelude::*;
use vstd::set_lib::{lemma_int_range, lemma_subset_equality, set_int_range};
use crate::analysis::{
    Finding,
    all_definitions, dead_among, dead_code, decorator_base, decorator_match, global_references,
    ignored_by_decorator, ignored_by_name, is_dead, some_decorator_matches, without_at,
};
use crate::config::{ConfigView, Overrides, ToolSettings, overridden, settings_config};
use crate::names::views_of;
use crate::parser::{
    attribute_children_refs, subtree_children_refs,
    DefinitionKind, DefinitionView, FileAnalysisView, Harvest, assignment_harvest, call_refs,
    class_harvest, class_view, decorated_children, decorated_harvest, decorator_refs,
    decorator_texts, expression_harvest, field_refs, function_harvest, function_view,
    is_dunder_name, join, kind_name, binds_import, import_defs, import_view, module_analysis, names_variable, node_harvest, nothing,
    refs_only, subtree_refs, variable_view, walk_children, walk_harvest,
};
use crate::sorting::{SortKey, comes_before, sorted_order};
use crate::output::{OutputFormat, ascii_lower, format_name, format_named};
use crate::syntax::{SyntaxNode, field_slot, field_text, has_field_child, rows_fit};
use crate::text::{before_char, is_white_space, trim_end_ws, trim_start_ws, trim_ws};

verus! {

proof fn lemma_dead_among_contains(
    defs: Seq<DefinitionView>,
    refs: Set<Seq<char>>,
    config: ConfigView,
    d: DefinitionView,
)
    ensures
        dead_among(defs, refs, config).contains(d) <==> (defs.contains(d) && is_dead(d, refs, config)),
    decreases defs.len(),
{
    if defs.len() > 0 {
        lemma_dead_among_contains(defs.drop_last(), refs, config, d);
        let rest = dead_among(defs.drop_last(), refs, config);
        if defs.contains(d) && is_dead(d, refs, config) {
            let k = choose|k: int| 0 <= k < defs.len() && defs[k] == d;
            if k < defs.len() - 1 {
                assert(defs.drop_last()[k] == d);
            }
        }
        if defs.drop_last().contains(d) {
            let k = choose|k: int| 0 <= k < defs.drop_last().len() && defs.drop_last()[k] == d;
            assert(defs[k] == d);
        }
        if is_dead(defs.last(), refs, config) {
            if rest.contains(d) {
                let k = choose|k: int| 0 <= k < rest.len() && rest[k] == d;
                assert(rest.push(defs.last())[k] == d);
            }
            if d == defs.last() {
                assert(rest.push(defs.last())[rest.len() as int] == d);
                assert(defs[defs.len() - 1] == d);
            }
            if rest.push(defs.last()).contains(d) {
                let k = choose|k: int| 0 <= k < rest.len() + 1 && rest.push(defs.last())[k] == d;
                if k < rest.len() {
                    assert(rest[k] == d);
                }
            }
        } else {
            if d == defs.last() {
                assert(defs[defs.len() - 1] == d);
            }
        }
    }
}

proof fn lemma_global_references_contains(
    files: Seq<FileAnalysisView>,
    whitelist: Set<Seq<char>>,
    x: Seq<char>,
)
    ensures
        global_references(files, whitelist).contains(x) <==> (whitelist.contains(x) || exists|i: int|
            0 <= i < files.len() && (#[trigger] files[i]).references.contains(x)),
    decreases files.len(),
{
    if files.len() > 0 {
        lemma_global_references_contains(files.drop_last(), whitelist, x);
        if exists|i: int| 0 <= i < files.len() && (#[trigger] files[i]).references.contains(x) {
            let i = choose|i: int| 0 <= i < files.len() && (#[trigger] files[i]).references.contains(x);
            if i < files.len() - 1 {
                assert(files.drop_last()[i] == files[i]);
            }
        }
        if exists|i: int|
            0 <= i < files.drop_last().len() && (#[trigger] files.drop_last()[i]).references.contains(x) {
            let i = choose|i: int|
                0 <= i < files.drop_last().len() && (#[trigger] files.drop_last()[i]).references.contains(x);
            assert(files[i] == files.drop_last()[i]);
        }
    }
}

proof fn lemma_all_definitions_contains(files: Seq<FileAnalysisView>, d: DefinitionView)
    ensures
        all_definitions(files).contains(d) <==> exists|i: int|
            0 <= i < files.len() && (#[trigger] files[i]).definitions.contains(d),
    decreases files.len(),
{
    if files.len() > 0 {
        lemma_all_definitions_contains(files.drop_last(), d);
        let a = all_definitions(files.drop_last());
        let b = files.last().definitions;
        if (a + b).contains(d) {
            let k = choose|k: int| 0 <= k < (a + b).len() && (a + b)[k] == d;
            if k < a.len() {
                assert(a[k] == d);
                let i = choose|i: int|
                    0 <= i < files.drop_last().len() && (#[trigger] files.drop_last()[i]).definitions.contains(d);
                assert(files[i] == files.drop_last()[i]);
            } else {
                assert(b[k - a.len()] == d);
                assert(files[files.len() - 1].definitions.contains(d));
            }
        }
        if exists|i: int| 0 <= i < files.len() && (#[trigger] files[i]).definitions.contains(d) {
            let i = choose|i: int| 0 <= i < files.len() && (#[trigger] files[i]).definitions.contains(d);
            if i < files.len() - 1 {
                assert(files.drop_last()[i] == files[i]);
                let k = choose|k: int| 0 <= k < a.len() && a[k] == d;
                assert((a + b)[k] == d);
            } else {
                let k = choose|k: int| 0 <= k < b.len() && b[k] == d;
                assert((a + b)[a.len() + k] == d);
            }
        }
    }
}

/// A definition is reported exactly when some module defines it and it is
/// dead: of a reported kind, no data-model dunder, of enough confidence, not
/// ignored by name or decorator, and referenced by no module and no
/// whitelist, neither by its name nor by its qualified name.
pub proof fn law_reported_iff_dead(
    files: Seq<FileAnalysisView>,
    whitelist: Set<Seq<char>>,
    config: ConfigView,
    d: DefinitionView,
)
    ensures
        dead_code(files, whitelist, config).contains(d) <==> ((exists|i: int|
            0 <= i < files.len() && (#[trigger] files[i]).definitions.contains(d)) && is_dead(
            d,
            global_references(files, whitelist),
            config,
        )),
{
    lemma_dead_among_contains(all_definitions(files), global_references(files, whitelist), config, d);
    lemma_all_definitions_contains(files, d);
}

/// A name referenced by a whitelist is never reported.
pub proof fn law_whitelist_prevents_flagging(
    files: Seq<FileAnalysisView>,
    whitelist: Set<Seq<char>>,
    config: ConfigView,
    d: DefinitionView,
)
    requires
        whitelist.contains(d.name),
    ensures
        !dead_code(files, whitelist, config).contains(d),
{
    law_reported_iff_dead(files, whitelist, config, d);
    lemma_global_references_contains(files, whitelist, d.name);
}

/// A name referenced in any module is reported in none: references count
/// across files.
pub proof fn law_cross_file_reference(
    files: Seq<FileAnalysisView>,
    whitelist: Set<Seq<char>>,
    config: ConfigView,
    d: DefinitionView,
    i: int,
)
    requires
        0 <= i < files.len(),
        files[i].references.contains(d.name),
    ensures
        !dead_code(files, whitelist, config).contains(d),
{
    law_reported_iff_dead(files, whitelist, config, d);
    lemma_global_references_contains(files, whitelist, d.name);
}

/// Data-model dunders are never reported.
pub proof fn law_dunders_never_reported(
    files: Seq<FileAnalysisView>,
    whitelist: Set<Seq<char>>,
    config: ConfigView,
    d: DefinitionView,
)
    requires
        is_dunder_name(d.name),
    ensures
        !dead_code(files, whitelist, config).contains(d),
{
    law_reported_iff_dead(files, whitelist, config, d);
}

/// Definitions excused by an `ignore_names` glob or an `ignore_decorators`
/// pattern are never reported.
pub proof fn law_ignore_rules_excuse(
    files: Seq<FileAnalysisView>,
    whitelist: Set<Seq<char>>,
    config: ConfigView,
    d: DefinitionView,
)
    requires
        ignored_by_name(d.name, config.ignore_names) || ignored_by_decorator(
            d.decorators,
            config.ignore_decorators,
        ),
    ensures
        !dead_code(files, whitelist, config).contains(d),
{
    law_reported_iff_dead(files, whitelist, config, d);
}

/// Every reported definition is of a kind that `report` names and of at
/// least the minimum confidence.
pub proof fn law_reports_respect_filters(
    files: Seq<FileAnalysisView>,
    whitelist: Set<Seq<char>>,
    config: ConfigView,
    d: DefinitionView,
)
    requires
        dead_code(files, whitelist, config).contains(d),
    ensures
        config.report.contains(kind_name(d.kind)),
        d.confidence >= config.min_confidence,
{
    law_reported_iff_dead(files, whitelist, config, d);
}

/// More whitelisted references never add a finding: every definition
/// reported with the larger whitelist is reported with the smaller one.
pub proof fn law_more_references_fewer_findings(
    files: Seq<FileAnalysisView>,
    small: Set<Seq<char>>,
    large: Set<Seq<char>>,
    config: ConfigView,
    d: DefinitionView,
)
    requires
        small.subset_of(large),
    ensures
        dead_code(files, large, config).contains(d) ==> dead_code(files, small, config).contains(d),
{
    law_reported_iff_dead(files, large, config, d);
    law_reported_iff_dead(files, small, config, d);
    lemma_global_references_contains(files, small, d.name);
    lemma_global_references_contains(files, large, d.name);
    lemma_global_references_contains(files, small, d.qualified_name);
    lemma_global_references_contains(files, large, d.qualified_name);
}

/// An assignment to `__all__` references nothing: the names it lists are
/// recorded as exports, which never count as references.
pub proof fn law_all_exports_are_not_references(n: SyntaxNode, path: Seq<char>)
    requires
        field_text(n, "left"@) == "__all__"@,
    ensures
        assignment_harvest(n, path).refs == Set::<Seq<char>>::empty(),
        assignment_harvest(n, path).defs == Seq::<DefinitionView>::empty(),
{
}

proof fn lemma_before_char_concat(p: Seq<char>, rest: Seq<char>, c: char)
    requires
        !p.contains(c),
    ensures
        before_char(p + seq![c] + rest, c) == p,
    decreases p.len(),
{
    let s = p + seq![c] + rest;
    if p.len() == 0 {
        assert(s[0] == c);
    } else {
        assert(s[0] == p[0]);
        assert(!p.drop_first().contains(c)) by {
            if p.drop_first().contains(c) {
                let k = choose|k: int| 0 <= k < p.drop_first().len() && p.drop_first()[k] == c;
                assert(p[k + 1] == c);
            }
        }
        assert(p[0] != c);
        lemma_before_char_concat(p.drop_first(), rest, c);
        assert(s.drop_first() =~= p.drop_first() + seq![c] + rest);
        assert(seq![p[0]] + p.drop_first() =~= p);
    }
}

proof fn lemma_before_char_absent(p: Seq<char>, c: char)
    requires
        !p.contains(c),
    ensures
        before_char(p, c) == p,
    decreases p.len(),
{
    if p.len() > 0 {
        assert(p[0] != c);
        assert(!p.drop_first().contains(c)) by {
            if p.drop_first().contains(c) {
                let k = choose|k: int| 0 <= k < p.drop_first().len() && p.drop_first()[k] == c;
                assert(p[k + 1] == c);
            }
        }
        lemma_before_char_absent(p.drop_first(), c);
        assert(seq![p[0]] + p.drop_first() =~= p);
    }
}

proof fn lemma_trim_unpadded(p: Seq<char>)
    requires
        p.len() > 0 ==> !is_white_space(p[0]) && !is_white_space(p.last()),
    ensures
        trim_ws(p) == p,
{
    assert(trim_start_ws(p) == p);
    assert(trim_end_ws(p) == p);
}

/// A decorator pattern matches the decorator it names, with or without
/// call arguments: `router.get` matches `router.get` and `router.get("/x")`.
pub proof fn law_decorator_matches_itself_and_calls(pattern: Seq<char>, args: Seq<char>)
    requires
        !pattern.contains('('),
        pattern.len() > 0 ==> !is_white_space(pattern[0]) && !is_white_space(pattern.last()),
    ensures
        decorator_match(pattern, pattern),
        decorator_match(pattern + seq!['('] + args, pattern),
{
    lemma_before_char_absent(pattern, '(');
    lemma_before_char_concat(pattern, args, '(');
    lemma_trim_unpadded(pattern);
    assert(decorator_base(pattern) == pattern);
    assert(decorator_base(pattern + seq!['('] + args) == pattern);
}

/// A sort order lists every item exactly once.
pub proof fn law_sort_prints_every_item<T: SortKey>(s: Seq<T>, mode: bool, order: Seq<usize>, i: int)
    requires
        sorted_order(s, mode, order),
        0 <= i < s.len(),
    ensures
        exists|k: int| 0 <= k < order.len() && order[k] == i,
{
    let ints = order.map_values(|u: usize| u as int);
    assert(ints.no_duplicates()) by {
        assert forall|a: int, b: int| 0 <= a < b < ints.len() implies ints[a] != ints[b] by {
            assert(order[a] != order[b]);
        }
    }
    ints.unique_seq_to_set();
    lemma_int_range(0, s.len() as int);
    assert(ints.to_set().subset_of(set_int_range(0, s.len() as int))) by {
        assert forall|x: int| ints.to_set().contains(x) implies set_int_range(0, s.len() as int).contains(x) by {
            let k = choose|k: int| 0 <= k < ints.len() && ints[k] == x;
            assert(order[k] < s.len());
        }
    }
    vstd::set_lib::lemma_len_subset(ints.to_set(), set_int_range(0, s.len() as int));
    lemma_subset_equality(ints.to_set(), set_int_range(0, s.len() as int));
    assert(set_int_range(0, s.len() as int).contains(i));
    assert(ints.to_set().contains(i));
    let k = choose|k: int| 0 <= k < ints.len() && ints[k] == i;
    assert(order[k] == i);
}

/// Sorted by size, findings come largest first: every earlier finding is at
/// least as large as every later one.
pub proof fn law_size_order_is_largest_first(findings: Seq<Finding>, order: Seq<usize>, a: int, b: int)
    requires
        sorted_order(findings, true, order),
        0 <= a <= b < order.len(),
    ensures
        findings[order[a] as int].definition.size >= findings[order[b] as int].definition.size,
    decreases b - a,
{
    if a < b {
        law_size_order_is_largest_first(findings, order, a + 1, b);
        assert(comes_before(findings, true, order[a] as int, order[a + 1] as int));
    }
}

/// What every recorded definition carries: the module's path, confidence
/// 60, a line of at least one, and a qualified name that fits its kind
/// (`Class.name` for a method, the name for a function or class, nothing for
/// a variable or an import, which both span one line).
pub open spec fn labelled(d: DefinitionView, path: Seq<char>) -> bool {
    &&& d.file == path
    &&& d.confidence == 60
    &&& d.line >= 1
    &&& d.size >= 1
    &&& match d.kind {
        DefinitionKind::Method => d.name.len() > 0 && exists|c: Seq<char>|
            d.qualified_name == #[trigger] (c + seq!['.'] + d.name),
        DefinitionKind::Function => d.name.len() > 0 && d.qualified_name == d.name,
        DefinitionKind::Class => d.name.len() > 0 && d.qualified_name == d.name,
        DefinitionKind::Variable => d.qualified_name.len() == 0 && d.size == 1,
        DefinitionKind::Import => d.name.len() > 0 && d.qualified_name.len() == 0 && d.size == 1,
    }
}

/// Every definition of `defs` is [`labelled`].
pub open spec fn all_labelled(defs: Seq<DefinitionView>, path: Seq<char>) -> bool {
    forall|i: int| 0 <= i < defs.len() ==> labelled(#[trigger] defs[i], path)
}

proof fn lemma_join_labelled(a: Harvest, b: Harvest, path: Seq<char>)
    requires
        all_labelled(a.defs, path),
        all_labelled(b.defs, path),
    ensures
        all_labelled(join(a, b).defs, path),
{
    assert forall|i: int| 0 <= i < join(a, b).defs.len() implies labelled(#[trigger] join(a, b).defs[i], path) by {
        if i < a.defs.len() {
            assert(join(a, b).defs[i] == a.defs[i]);
        } else {
            assert(join(a, b).defs[i] == b.defs[i - a.defs.len()]);
        }
    }
}

proof fn lemma_function_labelled(
    n: SyntaxNode,
    path: Seq<char>,
    enc: Option<Seq<char>>,
    decorators: Seq<Seq<char>>,
)
    requires
        rows_fit(n),
    ensures
        all_labelled(function_harvest(n, path, enc, decorators).defs, path),
{
    if field_text(n, "name"@).len() != 0 {
        let d = function_view(n, path, enc, decorators);
        if let Some(c) = enc {
            assert(d.qualified_name == c + seq!['.'] + d.name);
        }
        assert(labelled(d, path));
        assert(function_harvest(n, path, enc, decorators).defs == seq![d]);
    }
}

proof fn lemma_expression_labelled(n: SyntaxNode, path: Seq<char>, i: int)
    requires
        rows_fit(n),
    ensures
        all_labelled(expression_harvest(n, path, i).defs, path),
    decreases i,
{
    if 0 < i <= n.children@.len() {
        lemma_expression_labelled(n, path, i - 1);
        let c = n.children@[i - 1];
        let h = if c.kind@ == "assignment"@ {
            assignment_harvest(c, path)
        } else {
            refs_only(subtree_refs(c))
        };
        if c.kind@ == "assignment"@ {
            let target = field_text(c, "left"@);
            if target != "__all__"@ && names_variable(c, target) {
                assert(rows_fit(c));
                assert(labelled(variable_view(c, path, target), path));
            }
        }
        assert(all_labelled(h.defs, path));
        lemma_join_labelled(expression_harvest(n, path, i - 1), h, path);
    }
}

proof fn lemma_imports_labelled(n: SyntaxNode, path: Seq<char>, i: int)
    requires
        rows_fit(n),
    ensures
        all_labelled(import_defs(n, path, i), path),
    decreases i,
{
    if 0 < i <= n.children@.len() {
        lemma_imports_labelled(n, path, i - 1);
        let c = n.children@[i - 1];
        let h = if binds_import(c) {
            seq![import_view(c, path)]
        } else {
            Seq::<DefinitionView>::empty()
        };
        if binds_import(c) {
            assert(rows_fit(c));
            assert(labelled(import_view(c, path), path));
        }
        assert(all_labelled(h, path));
        let a = import_defs(n, path, i - 1);
        assert forall|k: int| 0 <= k < (a + h).len() implies labelled(#[trigger] (a + h)[k], path) by {
            if k < a.len() {
                assert((a + h)[k] == a[k]);
            } else {
                assert((a + h)[k] == h[k - a.len()]);
            }
        }
    }
}

proof fn lemma_node_labelled(c: SyntaxNode, path: Seq<char>, enc: Option<Seq<char>>)
    requires
        rows_fit(c),
    ensures
        all_labelled(node_harvest(c, path, enc).defs, path),
    decreases c, 5nat, 0int,
{
    if c.kind@ == "decorated_definition"@ {
        lemma_decorated_labelled(c, path, enc);
    } else if c.kind@ == "function_definition"@ {
        lemma_function_labelled(c, path, enc, Seq::empty());
    } else if c.kind@ == "class_definition"@ {
        lemma_class_labelled(c, path, Seq::empty());
    } else if c.kind@ == "expression_statement"@ {
        lemma_expression_labelled(c, path, c.children@.len() as int);
    } else if c.kind@ == "import_from_statement"@ || c.kind@ == "import_statement"@ {
        lemma_imports_labelled(c, path, c.children@.len() as int);
    } else if c.kind@ == "identifier"@ || c.kind@ == "attribute"@ {
    } else if c.kind@ == "call"@ {
        lemma_walk_labelled(c, path, enc);
        lemma_join_labelled(refs_only(call_refs(c)), walk_harvest(c, path, enc), path);
    } else if c.kind@ == "string"@ || c.kind@ == "concatenated_string"@ || c.kind@ == "comment"@ {
    } else {
        lemma_walk_labelled(c, path, enc);
    }
}

proof fn lemma_walk_labelled(n: SyntaxNode, path: Seq<char>, enc: Option<Seq<char>>)
    requires
        rows_fit(n),
    ensures
        all_labelled(walk_harvest(n, path, enc).defs, path),
    decreases n, 4nat, 0int,
{
    lemma_walk_children_labelled(n, path, enc, n.children@.len() as int);
}

proof fn lemma_walk_children_labelled(n: SyntaxNode, path: Seq<char>, enc: Option<Seq<char>>, i: int)
    requires
        rows_fit(n),
    ensures
        all_labelled(walk_children(n, path, enc, i).defs, path),
    decreases n, 3nat, i,
{
    if 0 < i <= n.children@.len() {
        lemma_walk_children_labelled(n, path, enc, i - 1);
        lemma_node_labelled(n.children@[i - 1], path, enc);
        lemma_join_labelled(
            walk_children(n, path, enc, i - 1),
            node_harvest(n.children@[i - 1], path, enc),
            path,
        );
    }
}

proof fn lemma_decorated_labelled(n: SyntaxNode, path: Seq<char>, enc: Option<Seq<char>>)
    requires
        rows_fit(n),
    ensures
        all_labelled(decorated_harvest(n, path, enc).defs, path),
    decreases n, 4nat, 0int,
{
    lemma_decorated_children_labelled(n, path, enc, n.children@.len() as int);
}

proof fn lemma_decorated_children_labelled(
    n: SyntaxNode,
    path: Seq<char>,
    enc: Option<Seq<char>>,
    i: int,
)
    requires
        rows_fit(n),
    ensures
        all_labelled(decorated_children(n, path, enc, i).defs, path),
    decreases n, 3nat, i,
{
    if 0 < i <= n.children@.len() {
        lemma_decorated_children_labelled(n, path, enc, i - 1);
        let c = n.children@[i - 1];
        let h = if c.kind@ == "decorator"@ {
            refs_only(decorator_refs(c))
        } else if c.kind@ == "function_definition"@ {
            function_harvest(c, path, enc, decorator_texts(n, i - 1))
        } else if c.kind@ == "class_definition"@ {
            class_harvest(c, path, decorator_texts(n, i - 1))
        } else {
            nothing()
        };
        if c.kind@ == "decorator"@ {
        } else if c.kind@ == "function_definition"@ {
            lemma_function_labelled(c, path, enc, decorator_texts(n, i - 1));
        } else if c.kind@ == "class_definition"@ {
            lemma_class_labelled(c, path, decorator_texts(n, i - 1));
        }
        lemma_join_labelled(decorated_children(n, path, enc, i - 1), h, path);
    }
}

proof fn lemma_class_labelled(n: SyntaxNode, path: Seq<char>, decorators: Seq<Seq<char>>)
    requires
        rows_fit(n),
    ensures
        all_labelled(class_harvest(n, path, decorators).defs, path),
    decreases n, 4nat, 0int,
{
    let name = field_text(n, "name"@);
    if name.len() != 0 {
        let k = field_slot(n, "body"@);
        let body = if 0 <= k < n.children@.len() {
            lemma_walk_labelled(n.children@[k], path, Some(name));
            walk_harvest(n.children@[k], path, Some(name))
        } else {
            nothing()
        };
        let head = Harvest {
            defs: seq![class_view(n, path, decorators)],
            refs: field_refs(n, "superclasses"@),
            exports: Seq::empty(),
        };
        assert(labelled(class_view(n, path, decorators), path));
        assert(all_labelled(head.defs, path));
        lemma_join_labelled(head, body, path);
    }
}

/// Every definition found in a module carries the module's path and
/// confidence 60; methods are named `Class.method`, functions and classes by
/// their own name, and variables span one line with no qualified name.
pub proof fn law_definitions_are_labelled(path: Seq<char>, root: SyntaxNode, i: int)
    requires
        rows_fit(root),
        0 <= i < module_analysis(path, root).definitions.len(),
    ensures
        labelled(module_analysis(path, root).definitions[i], path),
{
    lemma_walk_labelled(root, path, None);
}

proof fn lemma_dead_monotone(d: DefinitionView, small: Set<Seq<char>>, big: Set<Seq<char>>, config: ConfigView)
    requires
        small.subset_of(big),
    ensures
        is_dead(d, big, config) ==> is_dead(d, small, config),
{
}

proof fn lemma_dead_among_filter(
    defs: Seq<DefinitionView>,
    small: Set<Seq<char>>,
    big: Set<Seq<char>>,
    config: ConfigView,
)
    requires
        small.subset_of(big),
    ensures
        dead_among(defs, big, config) == dead_among(dead_among(defs, small, config), big, config),
    decreases defs.len(),
{
    if defs.len() > 0 {
        let x = defs.last();
        let rest = dead_among(defs.drop_last(), small, config);
        lemma_dead_among_filter(defs.drop_last(), small, big, config);
        lemma_dead_monotone(x, small, big, config);
        if is_dead(x, small, config) {
            assert(rest.push(x).last() == x);
            assert(rest.push(x).drop_last() =~= rest);
        }
    }
}

proof fn lemma_same_definitions(files: Seq<FileAnalysisView>, more: Seq<FileAnalysisView>)
    requires
        files.len() == more.len(),
        forall|i: int| 0 <= i < files.len() ==> (#[trigger] more[i]).definitions == files[i].definitions,
    ensures
        all_definitions(more) == all_definitions(files),
    decreases files.len(),
{
    if files.len() > 0 {
        assert forall|i: int| 0 <= i < files.drop_last().len() implies (#[trigger] more.drop_last()[i]).definitions
            == files.drop_last()[i].definitions by {
            assert(more[i].definitions == files[i].definitions);
        }
        lemma_same_definitions(files.drop_last(), more.drop_last());
        assert(more[files.len() - 1].definitions == files[files.len() - 1].definitions);
    }
}

proof fn lemma_more_references(
    files: Seq<FileAnalysisView>,
    more: Seq<FileAnalysisView>,
    whitelist: Set<Seq<char>>,
    larger: Set<Seq<char>>,
)
    requires
        files.len() == more.len(),
        forall|i: int| 0 <= i < files.len() ==> files[i].references.subset_of(#[trigger] more[i].references),
        whitelist.subset_of(larger),
    ensures
        global_references(files, whitelist).subset_of(global_references(more, larger)),
    decreases files.len(),
{
    if files.len() > 0 {
        assert forall|i: int| 0 <= i < files.drop_last().len() implies files.drop_last()[i].references.subset_of(
            #[trigger] more.drop_last()[i].references,
        ) by {
            assert(files[i].references.subset_of(more[i].references));
        }
        lemma_more_references(files.drop_last(), more.drop_last(), whitelist, larger);
        assert(files[files.len() - 1].references.subset_of(more[files.len() - 1].references));
    }
}

/// More references never add a finding. When every module keeps its
/// definitions and references at least the names it did, and the whitelist
/// names at least the names it did, the findings are those found before,
/// filtered further: a subsequence of them, in the same order.
pub proof fn law_more_references_filter_findings(
    files: Seq<FileAnalysisView>,
    more: Seq<FileAnalysisView>,
    whitelist: Set<Seq<char>>,
    larger: Set<Seq<char>>,
    config: ConfigView,
)
    requires
        files.len() == more.len(),
        forall|i: int|
            0 <= i < files.len() ==> (#[trigger] more[i]).definitions == files[i].definitions
                && files[i].references.subset_of(more[i].references),
        whitelist.subset_of(larger),
    ensures
        dead_code(more, larger, config) == dead_among(
            dead_code(files, whitelist, config),
            global_references(more, larger),
            config,
        ),
{
    lemma_same_definitions(files, more);
    lemma_more_references(files, more, whitelist, larger);
    lemma_dead_among_filter(
        all_definitions(files),
        global_references(files, whitelist),
        global_references(more, larger),
        config,
    );
}

proof fn lemma_before_char_free(s: Seq<char>, c: char)
    ensures
        !before_char(s, c).contains(c),
    decreases s.len(),
{
    if s.len() > 0 && s[0] != c {
        lemma_before_char_free(s.drop_first(), c);
        let b = before_char(s, c);
        assert(b == seq![s[0]] + before_char(s.drop_first(), c));
        if b.contains(c) {
            let k = choose|k: int| 0 <= k < b.len() && b[k] == c;
            assert(before_char(s.drop_first(), c)[k - 1] == c);
        }
    }
}

proof fn lemma_trim_free(s: Seq<char>, c: char)
    requires
        !s.contains(c),
    ensures
        !trim_start_ws(s).contains(c),
        !trim_end_ws(s).contains(c),
    decreases s.len(),
{
    if s.len() > 0 {
        assert(!s.drop_first().contains(c)) by {
            if s.drop_first().contains(c) {
                let k = choose|k: int| 0 <= k < s.drop_first().len() && s.drop_first()[k] == c;
                assert(s[k + 1] == c);
            }
        }
        assert(!s.drop_last().contains(c)) by {
            if s.drop_last().contains(c) {
                let k = choose|k: int| 0 <= k < s.drop_last().len() && s.drop_last()[k] == c;
                assert(s[k] == c);
            }
        }
        lemma_trim_free(s.drop_first(), c);
        lemma_trim_free(s.drop_last(), c);
    }
}

/// A decorator's base, its text before any arguments, holds no `(`; so a
/// decorator matches a pattern exactly when its base is the pattern or
/// continues it with `.`.
pub proof fn law_decorator_match_is_name_or_dotted(dec_text: Seq<char>, pattern: Seq<char>)
    ensures
        decorator_match(dec_text, pattern) <==> (decorator_base(dec_text) == pattern || (pattern
            + seq!['.']).is_prefix_of(decorator_base(dec_text))),
{
    let b = before_char(dec_text, '(');
    lemma_before_char_free(dec_text, '(');
    lemma_trim_free(b, '(');
    lemma_trim_free(trim_start_ws(b), '(');
    let base = decorator_base(dec_text);
    assert(!base.contains('('));
    if (pattern + seq!['(']).is_prefix_of(base) {
        assert(base[pattern.len() as int] == (pattern + seq!['('])[pattern.len() as int]);
        assert(false);
    }
}

/// The decorator texts gathered before the `k`-th child of a decorated
/// definition whose first `k` children are all decorators are their texts,
/// in source order.
pub proof fn law_decorator_texts_in_order(n: SyntaxNode, k: int)
    requires
        0 <= k <= n.children@.len(),
        forall|j: int| 0 <= j < k ==> (#[trigger] n.children@[j]).kind@ == "decorator"@,
    ensures
        decorator_texts(n, k) == Seq::new(k as nat, |j: int| n.children@[j].text@),
    decreases k,
{
    if k > 0 {
        law_decorator_texts_in_order(n, k - 1);
        assert(n.children@[k - 1].kind@ == "decorator"@);
        assert(decorator_texts(n, k) =~= Seq::new(k as nat, |j: int| n.children@[j].text@));
    }
}

proof fn lemma_decorators_define_nothing(n: SyntaxNode, path: Seq<char>, enc: Option<Seq<char>>, i: int)
    requires
        0 <= i <= n.children@.len(),
        forall|j: int| 0 <= j < i ==> (#[trigger] n.children@[j]).kind@ == "decorator"@,
    ensures
        decorated_children(n, path, enc, i).defs == Seq::<DefinitionView>::empty(),
    decreases i,
{
    if i > 0 {
        lemma_decorators_define_nothing(n, path, enc, i - 1);
        assert(n.children@[i - 1].kind@ == "decorator"@);
        assert(decorated_children(n, path, enc, i).defs =~= Seq::<DefinitionView>::empty());
    }
}

/// A decorated function, `@d1 ... @dk def f`, defines `f` alone, carrying the
/// texts of `d1` to `dk` in order as its decorators.
pub proof fn law_decorated_function_carries_its_decorators(
    n: SyntaxNode,
    path: Seq<char>,
    enc: Option<Seq<char>>,
)
    requires
        n.children@.len() > 0,
        forall|j: int| 0 <= j < n.children@.len() - 1 ==> (#[trigger] n.children@[j]).kind@ == "decorator"@,
        n.children@.last().kind@ == "function_definition"@,
        field_text(n.children@.last(), "name"@).len() > 0,
    ensures
        decorated_harvest(n, path, enc).defs == seq![
            function_view(
                n.children@.last(),
                path,
                enc,
                Seq::new((n.children@.len() - 1) as nat, |j: int| n.children@[j].text@),
            ),
        ],
        decorated_harvest(n, path, enc).defs[0].name == field_text(n.children@.last(), "name"@),
        decorated_harvest(n, path, enc).defs[0].kind == (if enc is Some {
            DefinitionKind::Method
        } else {
            DefinitionKind::Function
        }),
        decorated_harvest(n, path, enc).defs[0].qualified_name == (match enc {
            Some(c) => c + seq!['.'] + field_text(n.children@.last(), "name"@),
            None => field_text(n.children@.last(), "name"@),
        }),
        decorated_harvest(n, path, enc).defs[0].decorators == Seq::new(
            (n.children@.len() - 1) as nat,
            |j: int| n.children@[j].text@,
        ),
{
    let k = n.children@.len() - 1;
    reveal_strlit("decorator");
    reveal_strlit("function_definition");
    assert("decorator"@.len() == 9);
    assert("function_definition"@.len() == 19);
    lemma_decorators_define_nothing(n, path, enc, k);
    law_decorator_texts_in_order(n, k);
    assert(n.children@[k] == n.children@.last());
    assert(decorated_harvest(n, path, enc).defs =~= Seq::<DefinitionView>::empty() + function_harvest(
        n.children@[k],
        path,
        enc,
        decorator_texts(n, k),
    ).defs);
}

proof fn lemma_methods(body: SyntaxNode, path: Seq<char>, class: Seq<char>, i: int)
    requires
        0 <= i <= body.children@.len(),
        forall|j: int|
            0 <= j < body.children@.len() ==> (#[trigger] body.children@[j]).kind@ == "function_definition"@
                && field_text(body.children@[j], "name"@).len() > 0,
    ensures
        walk_children(body, path, Some(class), i).defs == Seq::new(
            i as nat,
            |j: int| function_view(body.children@[j], path, Some(class), Seq::empty()),
        ),
    decreases i,
{
    if i > 0 {
        lemma_methods(body, path, class, i - 1);
        let c = body.children@[i - 1];
        reveal_strlit("decorated_definition");
        reveal_strlit("function_definition");
        assert("decorated_definition"@.len() == 20);
        assert("function_definition"@.len() == 19);
        assert(c.kind@ == "function_definition"@ && field_text(c, "name"@).len() > 0);
        assert(node_harvest(c, path, Some(class)).defs == seq![function_view(c, path, Some(class), Seq::empty())]);
        assert(walk_children(body, path, Some(class), i).defs =~= Seq::new(
            i as nat,
            |j: int| function_view(body.children@[j], path, Some(class), Seq::empty()),
        ));
    }
}

/// A class `C` whose body holds only function definitions `m1 ... mk`
/// defines the class, then each `mi` as a method named `C.mi`, in order.
pub proof fn law_class_defines_its_methods(n: SyntaxNode, path: Seq<char>, decorators: Seq<Seq<char>>)
    requires
        field_text(n, "name"@).len() > 0,
        has_field_child(n, "body"@),
        forall|j: int|
            0 <= j < n.children@[field_slot(n, "body"@)].children@.len() ==> (#[trigger] n.children@[field_slot(
                n,
                "body"@,
            )].children@[j]).kind@ == "function_definition"@ && field_text(
                n.children@[field_slot(n, "body"@)].children@[j],
                "name"@,
            ).len() > 0,
    ensures
        class_harvest(n, path, decorators).defs == seq![class_view(n, path, decorators)] + Seq::new(
            n.children@[field_slot(n, "body"@)].children@.len(),
            |j: int|
                function_view(
                    n.children@[field_slot(n, "body"@)].children@[j],
                    path,
                    Some(field_text(n, "name"@)),
                    Seq::empty(),
                ),
        ),
        forall|j: int|
            0 <= j < n.children@[field_slot(n, "body"@)].children@.len() ==> {
                let m = #[trigger] function_view(
                    n.children@[field_slot(n, "body"@)].children@[j],
                    path,
                    Some(field_text(n, "name"@)),
                    Seq::empty(),
                );
                m.kind == DefinitionKind::Method && m.qualified_name == field_text(n, "name"@) + seq!['.']
                    + m.name
            },
{
    let body = n.children@[field_slot(n, "body"@)];
    lemma_methods(body, path, field_text(n, "name"@), body.children@.len() as int);
}

/// A format's name is lower-case ASCII and names that format: parsing the
/// name of `f` (`OutputFormat::parse` or `from_str`) gives `f` back.
pub proof fn law_format_names_parse_back(f: OutputFormat)
    ensures
        ascii_lower(format_name(f)),
        format_named(format_name(f)) == Ok::<OutputFormat, Seq<char>>(f),
{
    reveal_strlit("text");
    reveal_strlit("json");
    reveal_strlit("count");
    assert("text"@ != "json"@ && "text"@ != "count"@ && "json"@ != "count"@) by {
        assert("text"@[0] != "json"@[0]);
        assert("text"@.len() != "count"@.len());
        assert("json"@.len() != "count"@.len());
    }
}

/// In a sorted order every item comes at or before every later one, not
/// only its neighbour, whenever the item order is transitive: it is for the
/// size order, and for paths when `Path`'s order is, as std documents `Ord`.
pub proof fn law_sorted_order_holds_throughout<T: SortKey>(
    s: Seq<T>,
    mode: bool,
    order: Seq<usize>,
    a: int,
    b: int,
)
    requires
        sorted_order(s, mode, order),
        0 <= a < b < order.len(),
        forall|x: T, y: T, z: T|
            #![trigger x.key_order(&y, mode), y.key_order(&z, mode)]
            x.key_order(&y, mode) <= 0 && y.key_order(&z, mode) <= 0 ==> x.key_order(&z, mode) <= 0,
    ensures
        s[order[a] as int].key_order(&s[order[b] as int], mode) <= 0,
    decreases b - a,
{
    assert(comes_before(s, mode, order[a] as int, order[a + 1] as int));
    if a + 1 < b {
        law_sorted_order_holds_throughout(s, mode, order, a + 1, b);
        let (x, y, z) = (s[order[a] as int], s[order[a + 1] as int], s[order[b] as int]);
        assert(x.key_order(&y, mode) <= 0 && y.key_order(&z, mode) <= 0);
    }
}

/// Every decorator counts, wherever it stands: a definition is excused as
/// soon as any one of its decorators, without its leading `@`, matches any
/// one of the (normalised) patterns, and only then.
pub proof fn law_any_decorator_can_excuse(decorators: Seq<Seq<char>>, patterns: Seq<Seq<char>>)
    ensures
        forall|k: int, j: int|
            0 <= k < decorators.len() && 0 <= j < patterns.len() && decorator_match(
                without_at(#[trigger] decorators[k]),
                #[trigger] patterns[j],
            ) ==> some_decorator_matches(decorators, patterns),
        some_decorator_matches(decorators, patterns) ==> exists|k: int, j: int|
            0 <= k < decorators.len() && 0 <= j < patterns.len() && decorator_match(
                without_at(#[trigger] decorators[k]),
                #[trigger] patterns[j],
            ),
{
}

/// The same for the configured `ignore_decorators` patterns, written with or
/// without their `@`: a definition is ignored by decorator exactly when one
/// of its decorators matches one of the patterns, both without `@`.
pub proof fn law_ignored_by_any_decorator(decorators: Seq<Seq<char>>, ignore_decorators: Seq<Seq<char>>)
    ensures
        ignored_by_decorator(decorators, ignore_decorators) <==> exists|k: int, j: int|
            0 <= k < decorators.len() && 0 <= j < ignore_decorators.len() && decorator_match(
                without_at(#[trigger] decorators[k]),
                without_at(#[trigger] ignore_decorators[j]),
            ),
{
    let ps = ignore_decorators.map_values(|p: Seq<char>| without_at(p));
    if ignored_by_decorator(decorators, ignore_decorators) {
        let (k, j) = choose|k: int, j: int|
            0 <= k < decorators.len() && 0 <= j < ps.len() && decorator_match(
                without_at(#[trigger] decorators[k]),
                #[trigger] ps[j],
            );
        assert(decorator_match(without_at(decorators[k]), without_at(ignore_decorators[j])));
    }
    if exists|k: int, j: int|
        0 <= k < decorators.len() && 0 <= j < ignore_decorators.len() && decorator_match(
            without_at(#[trigger] decorators[k]),
            without_at(#[trigger] ignore_decorators[j]),
        ) {
        let (k, j) = choose|k: int, j: int|
            0 <= k < decorators.len() && 0 <= j < ignore_decorators.len() && decorator_match(
                without_at(#[trigger] decorators[k]),
                without_at(#[trigger] ignore_decorators[j]),
            );
        assert(decorator_match(without_at(decorators[k]), ps[j]));
    }
}

/// What the report holds, condition by condition: a definition of some
/// module is reported exactly when its kind is named in `report` (whatever
/// the kind: function, class, method, variable or import), it is no
/// data-model dunder, its confidence reaches the minimum, no name glob and no
/// decorator pattern excuses it, and neither its name nor its non-empty
/// qualified name is in the whitelist or in any module's references.
pub proof fn law_report_is_complete_and_sound(
    files: Seq<FileAnalysisView>,
    whitelist: Set<Seq<char>>,
    config: ConfigView,
    d: DefinitionView,
)
    ensures
        dead_code(files, whitelist, config).contains(d) <==> {
            &&& exists|i: int| 0 <= i < files.len() && (#[trigger] files[i]).definitions.contains(d)
            &&& config.report.contains(kind_name(d.kind))
            &&& !is_dunder_name(d.name)
            &&& d.confidence >= config.min_confidence
            &&& !ignored_by_name(d.name, config.ignore_names)
            &&& !ignored_by_decorator(d.decorators, config.ignore_decorators)
            &&& !whitelist.contains(d.name)
            &&& forall|i: int| 0 <= i < files.len() ==> !(#[trigger] files[i]).references.contains(d.name)
            &&& d.qualified_name.len() > 0 ==> {
                &&& !whitelist.contains(d.qualified_name)
                &&& forall|i: int|
                    0 <= i < files.len() ==> !(#[trigger] files[i]).references.contains(d.qualified_name)
            }
        },
{
    law_reported_iff_dead(files, whitelist, config, d);
    lemma_global_references_contains(files, whitelist, d.name);
    lemma_global_references_contains(files, whitelist, d.qualified_name);
}

proof fn lemma_walk_refs_include(n: SyntaxNode, path: Seq<char>, enc: Option<Seq<char>>, i: int, k: int)
    requires
        0 <= k < i <= n.children@.len(),
    ensures
        node_harvest(n.children@[k], path, enc).refs.subset_of(walk_children(n, path, enc, i).refs),
    decreases i,
{
    if k < i - 1 {
        lemma_walk_refs_include(n, path, enc, i - 1, k);
    }
}

/// The names in a function's parameters (annotations and default values)
/// are references of the function, and so, for a function at the top of a
/// module, references of the module.
pub proof fn law_parameter_names_are_references(
    root: SyntaxNode,
    path: Seq<char>,
    k: int,
)
    requires
        0 <= k < root.children@.len(),
        root.children@[k].kind@ == "function_definition"@,
        field_text(root.children@[k], "name"@).len() > 0,
        has_field_child(root.children@[k], "parameters"@),
    ensures
        subtree_refs(root.children@[k].children@[field_slot(root.children@[k], "parameters"@)]).subset_of(
            module_analysis(path, root).references,
        ),
        subtree_refs(root.children@[k].children@[field_slot(root.children@[k], "parameters"@)]).subset_of(
            function_harvest(root.children@[k], path, None, Seq::empty()).refs,
        ),
{
    reveal_strlit("decorated_definition");
    reveal_strlit("function_definition");
    assert("decorated_definition"@.len() == 20);
    assert("function_definition"@.len() == 19);
    let c = root.children@[k];
    assert(node_harvest(c, path, None) == function_harvest(c, path, None, Seq::empty()));
    lemma_walk_refs_include(root, path, None, root.children@.len() as int, k);
}

/// A decorated class, `@d1 ... @dk class C`, is recorded as the class `C`
/// carrying the texts of `d1` to `dk`, in order, as its decorators.
pub proof fn law_decorated_class_carries_its_decorators(
    n: SyntaxNode,
    path: Seq<char>,
    enc: Option<Seq<char>>,
)
    requires
        n.children@.len() > 0,
        forall|j: int| 0 <= j < n.children@.len() - 1 ==> (#[trigger] n.children@[j]).kind@ == "decorator"@,
        n.children@.last().kind@ == "class_definition"@,
        field_text(n.children@.last(), "name"@).len() > 0,
    ensures
        decorated_harvest(n, path, enc).defs.len() > 0,
        decorated_harvest(n, path, enc).defs[0].name == field_text(n.children@.last(), "name"@),
        decorated_harvest(n, path, enc).defs[0].kind == DefinitionKind::Class,
        decorated_harvest(n, path, enc).defs[0].decorators == Seq::new(
            (n.children@.len() - 1) as nat,
            |j: int| n.children@[j].text@,
        ),
{
    let k = n.children@.len() - 1;
    reveal_strlit("decorator");
    reveal_strlit("function_definition");
    reveal_strlit("class_definition");
    assert("decorator"@.len() == 9);
    assert("function_definition"@.len() == 19);
    assert("class_definition"@.len() == 16);
    lemma_decorators_define_nothing(n, path, enc, k);
    law_decorator_texts_in_order(n, k);
    assert(n.children@[k] == n.children@.last());
    let h = class_harvest(n.children@[k], path, decorator_texts(n, k));
    assert(decorated_harvest(n, path, enc).defs =~= Seq::<DefinitionView>::empty() + h.defs);
    assert(h.defs[0] == class_view(n.children@[k], path, decorator_texts(n, k)));
}

/// The command line extends the configured lists: the configured exclude
/// patterns, name globs, decorator patterns and whitelist files come first,
/// unchanged, followed by the command-line ones in order; with none given on
/// the command line a list stays as configured. Paths and report kinds given
/// on the command line replace the configured ones; otherwise those stay.
pub proof fn law_command_line_extends_settings(c: ConfigView, o: Overrides)
    ensures
        ({
            let r = overridden(c, o);
            &&& c.ignore_names.is_prefix_of(r.ignore_names)
            &&& r.ignore_names.skip(c.ignore_names.len() as int) == views_of(o.ignore_names@)
            &&& c.exclude.is_prefix_of(r.exclude)
            &&& r.exclude.skip(c.exclude.len() as int) == views_of(o.exclude@)
            &&& c.ignore_decorators.is_prefix_of(r.ignore_decorators)
            &&& r.ignore_decorators.skip(c.ignore_decorators.len() as int) == views_of(o.ignore_decorators@)
            &&& c.whitelist.is_prefix_of(r.whitelist)
            &&& r.whitelist.skip(c.whitelist.len() as int) == views_of(o.whitelist@)
            &&& o.ignore_names@.len() == 0 ==> r.ignore_names == c.ignore_names
            &&& o.exclude@.len() == 0 ==> r.exclude == c.exclude
            &&& o.ignore_decorators@.len() == 0 ==> r.ignore_decorators == c.ignore_decorators
            &&& o.whitelist@.len() == 0 ==> r.whitelist == c.whitelist
            &&& r.paths == (if o.paths@.len() > 0 { views_of(o.paths@) } else { c.paths })
            &&& r.report == (if o.report@.len() > 0 { views_of(o.report@) } else { c.report })
            &&& r.min_confidence == (if o.min_confidence is Some { o.min_confidence->0 } else { c.min_confidence })
            &&& r.sort_by_size == (c.sort_by_size || o.sort_by_size)
        }),
{
    let r = overridden(c, o);
    assert(r.ignore_names.skip(c.ignore_names.len() as int) =~= views_of(o.ignore_names@));
    assert(r.exclude.skip(c.exclude.len() as int) =~= views_of(o.exclude@));
    assert(r.ignore_decorators.skip(c.ignore_decorators.len() as int) =~= views_of(o.ignore_decorators@));
    assert(r.whitelist.skip(c.whitelist.len() as int) =~= views_of(o.whitelist@));
    assert(c.ignore_names.is_prefix_of(r.ignore_names)) by {
        assert(r.ignore_names.subrange(0, c.ignore_names.len() as int) =~= c.ignore_names);
    }
    assert(c.exclude.is_prefix_of(r.exclude)) by {
        assert(r.exclude.subrange(0, c.exclude.len() as int) =~= c.exclude);
    }
    assert(c.ignore_decorators.is_prefix_of(r.ignore_decorators)) by {
        assert(r.ignore_decorators.subrange(0, c.ignore_decorators.len() as int) =~= c.ignore_decorators);
    }
    assert(c.whitelist.is_prefix_of(r.whitelist)) by {
        assert(r.whitelist.subrange(0, c.whitelist.len() as int) =~= c.whitelist);
    }
    if o.ignore_names@.len() == 0 {
        assert(r.ignore_names =~= c.ignore_names);
    }
    if o.exclude@.len() == 0 {
        assert(r.exclude =~= c.exclude);
    }
    if o.ignore_decorators@.len() == 0 {
        assert(r.ignore_decorators =~= c.ignore_decorators);
    }
    if o.whitelist@.len() == 0 {
        assert(r.whitelist =~= c.whitelist);
    }
}

/// Each key of a `[tool.deadpy]` section replaces its default; every key
/// left out keeps it: scan `.`, exclude nothing, ignore no name and no
/// decorator, minimum confidence 60, sort by file and line, report
/// functions, classes and methods, no whitelist file.
pub proof fn law_settings_replace_defaults(s: ToolSettings)
    ensures
        ({
            let c = settings_config(s);
            &&& c.paths == (match s.paths { Some(l) => views_of(l@), None => seq!["."@] })
            &&& c.exclude == (match s.exclude { Some(l) => views_of(l@), None => Seq::empty() })
            &&& c.ignore_names == (match s.ignore_names { Some(l) => views_of(l@), None => Seq::empty() })
            &&& c.ignore_decorators == (match s.ignore_decorators {
                Some(l) => views_of(l@),
                None => Seq::empty(),
            })
            &&& c.min_confidence == (match s.min_confidence { Some(m) => m, None => 60u8 })
            &&& c.sort_by_size == (match s.sort_by_size { Some(b) => b, None => false })
            &&& c.report == (match s.report {
                Some(l) => views_of(l@),
                None => seq!["function"@, "class"@, "method"@],
            })
            &&& c.whitelist == (match s.whitelist { Some(l) => views_of(l@), None => Seq::empty() })
        }),
{
}

/// A function records as references the names of its parameters
/// (annotations and defaults), of its return annotation and of its body.
pub proof fn law_function_references(
    n: SyntaxNode,
    path: Seq<char>,
    enc: Option<Seq<char>>,
    decorators: Seq<Seq<char>>,
)
    requires
        field_text(n, "name"@).len() > 0,
    ensures
        has_field_child(n, "parameters"@) ==> subtree_refs(n.children@[field_slot(n, "parameters"@)]).subset_of(
            function_harvest(n, path, enc, decorators).refs,
        ),
        has_field_child(n, "return_type"@) ==> subtree_refs(
            n.children@[field_slot(n, "return_type"@)],
        ).subset_of(function_harvest(n, path, enc, decorators).refs),
        has_field_child(n, "body"@) ==> walk_harvest(n.children@[field_slot(n, "body"@)], path, enc).refs.subset_of(
            function_harvest(n, path, enc, decorators).refs,
        ),
        function_harvest(n, path, enc, decorators).defs.len() == 1,
        function_harvest(n, path, enc, decorators).defs[0].name == field_text(n, "name"@),
        function_harvest(n, path, enc, decorators).defs[0].decorators == decorators,
{
}

/// A class records as references the names of its bases and of its body,
/// and is recorded first, under its name, with its decorators.
pub proof fn law_class_references(n: SyntaxNode, path: Seq<char>, decorators: Seq<Seq<char>>)
    requires
        field_text(n, "name"@).len() > 0,
    ensures
        has_field_child(n, "superclasses"@) ==> subtree_refs(
            n.children@[field_slot(n, "superclasses"@)],
        ).subset_of(class_harvest(n, path, decorators).refs),
        has_field_child(n, "body"@) ==> walk_harvest(
            n.children@[field_slot(n, "body"@)],
            path,
            Some(field_text(n, "name"@)),
        ).refs.subset_of(class_harvest(n, path, decorators).refs),
        class_harvest(n, path, decorators).defs.len() >= 1,
        class_harvest(n, path, decorators).defs[0].name == field_text(n, "name"@),
        class_harvest(n, path, decorators).defs[0].qualified_name == field_text(n, "name"@),
        class_harvest(n, path, decorators).defs[0].kind == DefinitionKind::Class,
        class_harvest(n, path, decorators).defs[0].decorators == decorators,
{
}

/// The names that a decorator references are references of the decorated
/// definition.
pub proof fn law_decorator_names_are_references(
    n: SyntaxNode,
    path: Seq<char>,
    enc: Option<Seq<char>>,
    k: int,
)
    requires
        0 <= k < n.children@.len(),
        n.children@[k].kind@ == "decorator"@,
    ensures
        decorator_refs(n.children@[k]).subset_of(decorated_harvest(n, path, enc).refs),
{
    lemma_decorated_refs_include(n, path, enc, n.children@.len() as int, k);
}

proof fn lemma_decorated_refs_include(n: SyntaxNode, path: Seq<char>, enc: Option<Seq<char>>, i: int, k: int)
    requires
        0 <= k < i <= n.children@.len(),
        n.children@[k].kind@ == "decorator"@,
    ensures
        decorator_refs(n.children@[k]).subset_of(decorated_children(n, path, enc, i).refs),
    decreases i,
{
    if k < i - 1 {
        lemma_decorated_refs_include(n, path, enc, i - 1, k);
    }
}

/// A name is referenced by an identifier anywhere in an expression, outside
/// string literals and comments: an identifier references its own text, and
/// every other node (attribute chains included) references at least what
/// its children do.
pub proof fn law_identifiers_are_references(n: SyntaxNode, k: int)
    requires
        0 <= k < n.children@.len(),
        n.kind@ != "string"@,
        n.kind@ != "concatenated_string"@,
        n.kind@ != "comment"@,
    ensures
        n.kind@ == "identifier"@ ==> subtree_refs(n) == set![n.text@],
        n.kind@ != "identifier"@ ==> subtree_refs(n.children@[k]).subset_of(subtree_refs(n)),
{
    if n.kind@ == "attribute"@ {
        lemma_attribute_refs_include(n, n.children@.len() as int, k);
    } else if n.kind@ != "identifier"@ {
        lemma_subtree_refs_include(n, n.children@.len() as int, k);
    }
}

proof fn lemma_subtree_refs_include(n: SyntaxNode, i: int, k: int)
    requires
        0 <= k < i <= n.children@.len(),
    ensures
        subtree_refs(n.children@[k]).subset_of(subtree_children_refs(n, i)),
    decreases i,
{
    if k < i - 1 {
        lemma_subtree_refs_include(n, i - 1, k);
    }
}

proof fn lemma_attribute_refs_include(n: SyntaxNode, i: int, k: int)
    requires
        0 <= k < i <= n.children@.len(),
    ensures
        subtree_refs(n.children@[k]).subset_of(attribute_children_refs(n, i)),
    decreases i,
{
    if k < i - 1 {
        lemma_attribute_refs_include(n, i - 1, k);
    } else {
        let c = n.children@[k];
        if c.kind@ == "identifier"@ {
        } else if c.kind@ == "attribute"@ {
        }
    }
}

} // verus!
