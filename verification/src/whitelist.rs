//! Whitelist files: Python files whose names count as references everywhere.
use vstd::prelude::*;
use crate::names::NameSet;
use crate::parser::{DefinitionView, FileAnalysis, FileAnalysisView, def_views, module_analysis, parse_source};
use crate::treesitter::{ParseError, python_tree};

verus! {

/// The names of a list of definitions.
pub open spec fn definition_names(defs: Seq<DefinitionView>) -> Set<Seq<char>> {
    defs.map_values(|d: DefinitionView| d.name).to_set()
}

/// The names a whitelist module provides: its references and the names it
/// defines (a bare `Class.method` statement parses as a definition).
pub open spec fn whitelist_names(a: FileAnalysisView) -> Set<Seq<char>> {
    a.references.union(definition_names(a.definitions))
}

/// The names a parsed whitelist module provides.
pub fn whitelist_references(analysis: FileAnalysis) -> (r: NameSet)
    ensures
        r@ == whitelist_names(analysis@),
{
    let ghost defs = def_views(analysis.definitions@);
    let FileAnalysis { path: _, definitions, references, all_exports: _ } = analysis;
    let mut refs = references;
    let ghost start = refs@;
    let mut i: usize = 0;
    while i < definitions.len()
        invariant
            i <= definitions@.len(),
            defs == def_views(definitions@),
            refs@ == start.union(definition_names(defs.take(i as int))),
        decreases definitions.len() - i,
    {
        refs.insert(definitions[i].name.clone());
        proof {
            let names = defs.take(i + 1).map_values(|d: DefinitionView| d.name);
            let prev = defs.take(i as int).map_values(|d: DefinitionView| d.name);
            assert(names =~= prev.push(defs[i as int].name));
            assert(definition_names(defs.take(i + 1)) =~= definition_names(defs.take(i as int)).insert(defs[i as int].name)) by {
                assert forall|x: Seq<char>| #[trigger] names.contains(x) <==> (prev.contains(x) || x == defs[i as int].name) by {
                    if names.contains(x) {
                        let k = choose|k: int| 0 <= k < names.len() && #[trigger] names[k] == x;
                        if k < prev.len() {
                            assert(prev[k] == x);
                        }
                    }
                    if prev.contains(x) {
                        let k = choose|k: int| 0 <= k < prev.len() && #[trigger] prev[k] == x;
                        assert(names[k] == x);
                    }
                    if x == defs[i as int].name {
                        assert(names[i as int] == x);
                    }
                }
            }
        }
        i = i + 1;
        assert(refs@ =~= start.union(definition_names(defs.take(i as int))));
    }
    assert(defs.take(i as int) =~= defs);
    refs
}

/// Parse a whitelist module: the names it references or defines, in the tree
/// that tree-sitter's Python grammar gives for it. It always succeeds.
pub fn parse_whitelist_file(path: &str, source: &str) -> (r: Result<NameSet, ParseError>)
    ensures
        r is Ok,
        r matches Ok(names) ==> names@ == whitelist_names(module_analysis(path@, python_tree(source@))),
{
    match parse_source(path, source) {
        Ok(analysis) => {
            let names = whitelist_references(analysis);
            Ok(names)
        },
        Err(e) => Err(e),
    }
}

} // verus!
