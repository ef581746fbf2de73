//! Deciding which definitions are dead: defined, of a reported kind, not
//! excused by a rule, and referenced nowhere.
use vstd::prelude::*;
use crate::config::{Config, ConfigView};
use crate::glob::{
    build_set, add_glob, glob_parses, glob_set_builds, new_builder, new_glob,
    set_is_match, set_matches, set_patterns, builder_patterns,
};
use crate::names::{NameSet, views_of};
use crate::parser::{
    Definition, DefinitionView, FileAnalysis, FileAnalysisView, def_views, is_dunder_name,
    is_whitelisted_dunder, kind_name,
};
use crate::text::{
    before_char, before_char_chars, chars_eq, chars_of, starts_with_chars, str_eq,
    string_of, trim_chars, trim_start_matches, trim_start_matches_chars, trim_ws,
};
use globset::GlobSet;

verus! {

/// A dead code finding ready for output.
#[derive(Debug, Clone)]
pub struct Finding {
    pub definition: Definition,
}

/// The definitions of a list of findings.
pub open spec fn finding_views(v: Seq<Finding>) -> Seq<DefinitionView> {
    v.map_values(|f: Finding| f.definition@)
}

/// The views of a list of module analyses.
pub open spec fn analysis_views(v: Seq<FileAnalysis>) -> Seq<FileAnalysisView> {
    v.map_values(|a: FileAnalysis| a@)
}

/// The patterns among `ps` that parse as globs, in order.
pub open spec fn parsed_globs(ps: Seq<Seq<char>>) -> Seq<Seq<char>>
    decreases ps.len(),
{
    if ps.len() == 0 {
        Seq::empty()
    } else if glob_parses(ps.last()) {
        parsed_globs(ps.drop_last()).push(ps.last())
    } else {
        parsed_globs(ps.drop_last())
    }
}

/// Whether a name is ignored by the `ignore_names` globs: the patterns that
/// parse must build into a set, one of which matches the name. Patterns that
/// do not parse are skipped.
pub open spec fn ignored_by_name(name: Seq<char>, ignore_names: Seq<Seq<char>>) -> bool {
    let ps = parsed_globs(ignore_names);
    &&& ignore_names.len() > 0
    &&& glob_set_builds(ps)
    &&& set_matches(ps, name)
}

/// `s` without its leading `@` characters.
pub open spec fn without_at(s: Seq<char>) -> Seq<char> {
    trim_start_matches(s, seq!['@'])
}

/// The part of a decorator's text before its arguments, trimmed.
pub open spec fn decorator_base(dec_text: Seq<char>) -> Seq<char> {
    trim_ws(before_char(dec_text, '('))
}

/// Whether a decorator text matches a pattern: the decorator, without its
/// arguments, is the pattern, or continues it with `.` or `(`.
pub open spec fn decorator_match(dec_text: Seq<char>, pattern: Seq<char>) -> bool {
    let base = decorator_base(dec_text);
    ||| base == pattern
    ||| (pattern + seq!['.']).is_prefix_of(base)
    ||| (pattern + seq!['(']).is_prefix_of(base)
}

/// Whether some decorator, without its leading `@`, matches some of the
/// (already normalised) patterns.
pub open spec fn some_decorator_matches(decorators: Seq<Seq<char>>, patterns: Seq<Seq<char>>) -> bool {
    exists|i: int, j: int|
        0 <= i < decorators.len() && 0 <= j < patterns.len() && decorator_match(
            without_at(#[trigger] decorators[i]),
            #[trigger] patterns[j],
        )
}

/// Whether some decorator matches some `ignore_decorators` pattern, the
/// leading `@` of both removed.
pub open spec fn ignored_by_decorator(decorators: Seq<Seq<char>>, ignore_decorators: Seq<Seq<char>>) -> bool {
    some_decorator_matches(decorators, ignore_decorators.map_values(|p: Seq<char>| without_at(p)))
}

/// Every name referenced: the whitelist's and those of every module.
pub open spec fn global_references(files: Seq<FileAnalysisView>, whitelist: Set<Seq<char>>) -> Set<Seq<char>>
    decreases files.len(),
{
    if files.len() == 0 {
        whitelist
    } else {
        global_references(files.drop_last(), whitelist).union(files.last().references)
    }
}

/// Every definition of every module, module by module.
pub open spec fn all_definitions(files: Seq<FileAnalysisView>) -> Seq<DefinitionView>
    decreases files.len(),
{
    if files.len() == 0 {
        Seq::empty()
    } else {
        all_definitions(files.drop_last()) + files.last().definitions
    }
}

/// Whether a definition is reported as dead: its kind is reported, it is no
/// data-model dunder, its confidence reaches the minimum, no `ignore_names`
/// glob and no `ignore_decorators` pattern excuses it, and neither its name
/// nor its (non-empty) qualified name is referenced.
pub open spec fn is_dead(d: DefinitionView, refs: Set<Seq<char>>, config: ConfigView) -> bool {
    &&& config.report.contains(kind_name(d.kind))
    &&& !is_dunder_name(d.name)
    &&& d.confidence >= config.min_confidence
    &&& !ignored_by_name(d.name, config.ignore_names)
    &&& !ignored_by_decorator(d.decorators, config.ignore_decorators)
    &&& !refs.contains(d.name)
    &&& !(d.qualified_name.len() > 0 && refs.contains(d.qualified_name))
}

/// The dead definitions among `defs`, in order.
pub open spec fn dead_among(defs: Seq<DefinitionView>, refs: Set<Seq<char>>, config: ConfigView) -> Seq<DefinitionView>
    decreases defs.len(),
{
    if defs.len() == 0 {
        Seq::empty()
    } else if is_dead(defs.last(), refs, config) {
        dead_among(defs.drop_last(), refs, config).push(defs.last())
    } else {
        dead_among(defs.drop_last(), refs, config)
    }
}

/// The dead code of a set of modules.
pub open spec fn dead_code(files: Seq<FileAnalysisView>, whitelist: Set<Seq<char>>, config: ConfigView) -> Seq<DefinitionView> {
    dead_among(all_definitions(files), global_references(files, whitelist), config)
}

/// The glob set of the `ignore_names` patterns that parse; `None` when there
/// are no patterns or the set does not build.
pub fn build_name_ignore_set(patterns: &[String]) -> (r: Option<GlobSet>)
    ensures
        r is Some <==> (patterns@.len() > 0 && glob_set_builds(parsed_globs(views_of(patterns@)))),
        r matches Some(s) ==> set_patterns(s) == parsed_globs(views_of(patterns@)),
{
    if patterns.len() == 0 {
        return None;
    }
    let mut builder = new_builder();
    let mut i: usize = 0;
    while i < patterns.len()
        invariant
            i <= patterns@.len(),
            builder_patterns(builder) == parsed_globs(views_of(patterns@).take(i as int)),
        decreases patterns.len() - i,
    {
        let ghost ps = views_of(patterns@);
        assert(ps.take(i + 1).drop_last() =~= ps.take(i as int));
        match new_glob(patterns[i].as_str()) {
            Ok(glob) => {
                add_glob(&mut builder, glob);
            },
            Err(_) => {},
        }
        i = i + 1;
    }
    assert(views_of(patterns@).take(patterns@.len() as int) =~= views_of(patterns@));
    match build_set(&builder) {
        Ok(set) => Some(set),
        Err(_) => None,
    }
}

/// Whether the name matches the ignore set, if there is one.
pub fn matches_name_ignore(name: &str, ignore_set: &Option<GlobSet>) -> (r: bool)
    ensures
        r == match ignore_set {
            Some(s) => set_matches(set_patterns(*s), name@),
            None => false,
        },
{
    match ignore_set {
        Some(set) => set_is_match(set, name),
        None => false,
    }
}

/// The text without its leading `@` characters.
fn strip_at(s: &str) -> (r: String)
    ensures
        r@ == without_at(s@),
{
    let at = vec!['@'];
    assert(at@ =~= seq!['@']);
    let stripped = trim_start_matches_chars(&chars_of(s), &at);
    string_of(stripped.as_slice())
}

/// Check if a decorator text matches a pattern.
/// Pattern `router.get` matches decorators like `@router.get`, `@router.get("/path")`, etc.
pub fn decorator_matches(dec_text: &str, pattern: &str) -> (r: bool)
    ensures
        r == decorator_match(dec_text@, pattern@),
{
    let base = trim_chars(&before_char_chars(&chars_of(dec_text), '('));
    let pat = chars_of(pattern);
    if chars_eq(&base, &pat) {
        return true;
    }
    let mut dotted = chars_of(pattern);
    dotted.push('.');
    let mut called = chars_of(pattern);
    called.push('(');
    assert(dotted@ =~= pattern@ + seq!['.']);
    assert(called@ =~= pattern@ + seq!['(']);
    starts_with_chars(&base, &dotted) || starts_with_chars(&base, &called)
}

/// Whether some decorator, its leading `@` removed, matches some pattern.
pub fn has_ignored_decorator(decorators: &[String], ignore_patterns: &[String]) -> (r: bool)
    ensures
        r == some_decorator_matches(views_of(decorators@), views_of(ignore_patterns@)),
{
    let ghost ds = views_of(decorators@);
    let ghost ps = views_of(ignore_patterns@);
    let mut i: usize = 0;
    while i < decorators.len()
        invariant
            i <= decorators@.len(),
            ds == views_of(decorators@),
            ps == views_of(ignore_patterns@),
            forall|a: int, b: int|
                0 <= a < i && 0 <= b < ps.len() ==> !decorator_match(
                    without_at(#[trigger] ds[a]),
                    #[trigger] ps[b],
                ),
        decreases decorators.len() - i,
    {
        let dec_text = strip_at(decorators[i].as_str());
        let mut j: usize = 0;
        while j < ignore_patterns.len()
            invariant
                i < decorators@.len(),
                j <= ignore_patterns@.len(),
                ds == views_of(decorators@),
                ps == views_of(ignore_patterns@),
                dec_text@ == without_at(ds[i as int]),
                forall|b: int| 0 <= b < j ==> !decorator_match(dec_text@, #[trigger] ps[b]),
            decreases ignore_patterns.len() - j,
        {
            if decorator_matches(dec_text.as_str(), ignore_patterns[j].as_str()) {
                assert(decorator_match(without_at(ds[i as int]), ps[j as int]));
                return true;
            }
            j = j + 1;
        }
        i = i + 1;
    }
    false
}

/// Whether `list` holds `item`.
fn contains_text(list: &[String], item: &str) -> (r: bool)
    ensures
        r == views_of(list@).contains(item@),
{
    let mut i: usize = 0;
    while i < list.len()
        invariant
            i <= list@.len(),
            forall|k: int| 0 <= k < i ==> #[trigger] views_of(list@)[k] != item@,
        decreases list.len() - i,
    {
        if str_eq(list[i].as_str(), item) {
            assert(views_of(list@)[i as int] == item@);
            return true;
        }
        i = i + 1;
    }
    false
}

proof fn lemma_global_references_step(files: Seq<FileAnalysisView>, whitelist: Set<Seq<char>>, i: int)
    requires
        0 <= i < files.len(),
    ensures
        global_references(files.take(i + 1), whitelist) == global_references(files.take(i), whitelist).union(files[i].references),
{
    assert(files.take(i + 1).drop_last() =~= files.take(i));
}

proof fn lemma_all_definitions_step(files: Seq<FileAnalysisView>, i: int)
    requires
        0 <= i < files.len(),
    ensures
        all_definitions(files.take(i + 1)) == all_definitions(files.take(i)) + files[i].definitions,
{
    assert(files.take(i + 1).drop_last() =~= files.take(i));
}

proof fn lemma_dead_among_append(a: Seq<DefinitionView>, b: Seq<DefinitionView>, refs: Set<Seq<char>>, config: ConfigView)
    ensures
        dead_among(a + b, refs, config) == dead_among(a, refs, config) + dead_among(b, refs, config),
    decreases b.len(),
{
    if b.len() == 0 {
        assert(a + b =~= a);
        assert(dead_among(a, refs, config) + dead_among(b, refs, config) =~= dead_among(a, refs, config));
    } else {
        lemma_dead_among_append(a, b.drop_last(), refs, config);
        assert((a + b).drop_last() =~= a + b.drop_last());
        assert((a + b).last() == b.last());
        if is_dead(b.last(), refs, config) {
            assert(dead_among(a, refs, config) + dead_among(b.drop_last(), refs, config).push(b.last())
                =~= (dead_among(a, refs, config) + dead_among(b.drop_last(), refs, config)).push(b.last()));
        }
    }
}

/// Run dead code analysis across all parsed files.
pub fn analyze(file_analyses: &[FileAnalysis], whitelist_refs: &NameSet, config: &Config) -> (r: Vec<Finding>)
    ensures
        finding_views(r@) == dead_code(analysis_views(file_analyses@), whitelist_refs@, config@),
{
    let ghost files = analysis_views(file_analyses@);
    let mut global_refs = NameSet::new();
    global_refs.extend_from(whitelist_refs);
    assert(global_refs@ =~= whitelist_refs@);
    let mut f: usize = 0;
    while f < file_analyses.len()
        invariant
            f <= file_analyses@.len(),
            files == analysis_views(file_analyses@),
            global_refs@ == global_references(files.take(f as int), whitelist_refs@),
        decreases file_analyses.len() - f,
    {
        global_refs.extend_from(&file_analyses[f].references);
        proof {
            lemma_global_references_step(files, whitelist_refs@, f as int);
        }
        f = f + 1;
    }
    assert(files.take(files.len() as int) =~= files);
    let ghost refs = global_refs@;
    let name_ignore = build_name_ignore_set(config.ignore_names.as_slice());
    let mut decorator_ignores: Vec<String> = Vec::new();
    let mut k: usize = 0;
    while k < config.ignore_decorators.len()
        invariant
            k <= config.ignore_decorators@.len(),
            views_of(decorator_ignores@) == views_of(config.ignore_decorators@).take(k as int).map_values(
                |p: Seq<char>| without_at(p),
            ),
        decreases config.ignore_decorators.len() - k,
    {
        let ghost before = decorator_ignores@;
        decorator_ignores.push(strip_at(config.ignore_decorators[k].as_str()));
        assert(views_of(decorator_ignores@) =~= views_of(before).push(
            without_at(views_of(config.ignore_decorators@)[k as int]),
        ));
        k = k + 1;
        assert(views_of(decorator_ignores@) =~= views_of(config.ignore_decorators@).take(k as int).map_values(
            |p: Seq<char>| without_at(p),
        ));
    }
    assert(views_of(config.ignore_decorators@).take(k as int) =~= views_of(config.ignore_decorators@));
    let mut findings: Vec<Finding> = Vec::new();
    let mut f: usize = 0;
    while f < file_analyses.len()
        invariant
            f <= file_analyses@.len(),
            files == analysis_views(file_analyses@),
            refs == global_refs@,
            refs == global_references(files, whitelist_refs@),
            name_ignore is Some <==> (config.ignore_names@.len() > 0 && glob_set_builds(parsed_globs(views_of(config.ignore_names@)))),
            name_ignore matches Some(s) ==> set_patterns(s) == parsed_globs(views_of(config.ignore_names@)),
            views_of(decorator_ignores@) == views_of(config.ignore_decorators@).map_values(
                |p: Seq<char>| without_at(p),
            ),
            finding_views(findings@) == dead_among(all_definitions(files.take(f as int)), refs, config@),
        decreases file_analyses.len() - f,
    {
        let analysis = &file_analyses[f];
        let ghost done = finding_views(findings@);
        let mut d: usize = 0;
        while d < analysis.definitions.len()
            invariant
                d <= analysis.definitions@.len(),
                files == analysis_views(file_analyses@),
                f < file_analyses@.len(),
                *analysis == file_analyses@[f as int],
                refs == global_refs@,
                name_ignore is Some <==> (config.ignore_names@.len() > 0 && glob_set_builds(parsed_globs(views_of(config.ignore_names@)))),
                name_ignore matches Some(s) ==> set_patterns(s) == parsed_globs(views_of(config.ignore_names@)),
                views_of(decorator_ignores@) == views_of(config.ignore_decorators@).map_values(
                    |p: Seq<char>| without_at(p),
                ),
                finding_views(findings@) == done + dead_among(
                    def_views(analysis.definitions@).take(d as int),
                    refs,
                    config@,
                ),
            decreases analysis.definitions.len() - d,
        {
            let def = &analysis.definitions[d];
            let ghost dv = def@;
            let ghost defs = def_views(analysis.definitions@);
            assert(defs.take(d + 1).drop_last() =~= defs.take(d as int));
            assert(defs.take(d + 1).last() == dv);
            let reported = contains_text(config.report.as_slice(), def.kind.as_str());
            let dead = reported && !is_whitelisted_dunder(def.name.as_str()) && !(def.confidence
                < config.min_confidence) && !matches_name_ignore(def.name.as_str(), &name_ignore)
                && !has_ignored_decorator(def.decorators.as_slice(), decorator_ignores.as_slice())
                && !global_refs.contains(def.name.as_str()) && !(!def.qualified_name.as_str().is_empty()
                && global_refs.contains(def.qualified_name.as_str()));
            assert(dead == is_dead(dv, refs, config@));
            if dead {
                let ghost before = findings@;
                let finding = Finding { definition: def.duplicate() };
                assert(finding.definition@ == dv);
                findings.push(finding);
                assert(finding_views(findings@) =~= finding_views(before).push(dv));
                assert(dead_among(defs.take(d + 1), refs, config@) == dead_among(defs.take(d as int), refs, config@).push(dv));
                assert(finding_views(findings@) =~= done + dead_among(defs.take(d + 1), refs, config@));
            } else {
                assert(finding_views(findings@) =~= done + dead_among(defs.take(d + 1), refs, config@));
            }
            d = d + 1;
        }
        proof {
            let defs = def_views(analysis.definitions@);
            assert(defs.take(defs.len() as int) =~= defs);
            assert(files[f as int].definitions == defs);
            lemma_all_definitions_step(files, f as int);
            lemma_dead_among_append(all_definitions(files.take(f as int)), defs, refs, config@);
        }
        f = f + 1;
    }
    assert(files.take(files.len() as int) =~= files);
    findings
}

} // verus!
