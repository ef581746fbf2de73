//! Which files a scan covers: Python files not excluded by a pattern, in
//! path order.
use vstd::prelude::*;
use vstd::string::StringExecFns;
use globset::GlobSet;
use crate::glob::{add_glob, build_set, builder_patterns, glob_parses, glob_set_builds, new_builder, new_glob, set_is_match, set_matches, set_patterns};
use crate::names::views_of;
use crate::paths::{compare_paths, path_order};
use crate::sorting::{SortKey, sorted_order, stable_sort_order};
use crate::text::{chars_of, str_eq};

verus! {

/// The glob an exclude pattern stands for: a directory prefix (`dir/`) covers
/// everything below such a directory anywhere; a plain name (no `*` or `?`)
/// covers everything below a directory of that name anywhere, such as
/// `__pycache__` or `.venv`, but not a file of that name (`setup.py` excludes
/// nothing; write `*setup.py` for the file); any other glob matches anywhere.
pub open spec fn exclude_glob(p: Seq<char>) -> Seq<char> {
    if p.len() > 0 && p.last() == '/' {
        "**/"@ + p + "**"@
    } else if !p.contains('*') && !p.contains('?') {
        "**/"@ + p + "/**"@
    } else {
        "**/"@ + p
    }
}

/// The globs of a list of exclude patterns.
pub open spec fn exclude_globs(ps: Seq<Seq<char>>) -> Seq<Seq<char>> {
    ps.map_values(|p: Seq<char>| exclude_glob(p))
}

/// Whether `s` holds `c`.
fn has_char(s: &Vec<char>, c: char) -> (r: bool)
    ensures
        r == s@.contains(c),
{
    let mut i: usize = 0;
    while i < s.len()
        invariant
            i <= s@.len(),
            forall|k: int| 0 <= k < i ==> s@[k] != c,
        decreases s.len() - i,
    {
        if s[i] == c {
            return true;
        }
        i = i + 1;
    }
    false
}

/// The glob an exclude pattern stands for.
pub fn exclude_pattern(pattern: &str) -> (r: String)
    ensures
        r@ == exclude_glob(pattern@),
{
    let chars = chars_of(pattern);
    let mut glob = "**/".to_owned();
    glob.append(pattern);
    if chars.len() > 0 && chars[chars.len() - 1] == '/' {
        glob.append("**");
    } else if !has_char(&chars, '*') && !has_char(&chars, '?') {
        glob.append("/**");
    }
    glob
}

/// The glob set of the exclude patterns; an error when one of their globs
/// does not parse or the set does not build.
pub fn build_exclude_set(patterns: &[String]) -> (r: Result<GlobSet, globset::Error>)
    ensures
        r is Ok <==> ((forall|i: int|
            0 <= i < patterns@.len() ==> glob_parses(#[trigger] exclude_globs(views_of(patterns@))[i]))
            && glob_set_builds(exclude_globs(views_of(patterns@)))),
        r matches Ok(s) ==> set_patterns(s) == exclude_globs(views_of(patterns@)),
        patterns@.len() == 0 ==> r is Ok,
{
    let ghost gs = exclude_globs(views_of(patterns@));
    let mut builder = new_builder();
    let mut i: usize = 0;
    while i < patterns.len()
        invariant
            i <= patterns@.len(),
            gs == exclude_globs(views_of(patterns@)),
            builder_patterns(builder) == gs.take(i as int),
            forall|k: int| 0 <= k < i ==> glob_parses(#[trigger] gs[k]),
        decreases patterns.len() - i,
    {
        let glob_text = exclude_pattern(patterns[i].as_str());
        match new_glob(glob_text.as_str()) {
            Ok(glob) => {
                add_glob(&mut builder, glob);
            },
            Err(e) => {
                assert(glob_text@ == gs[i as int]);
                return Err(e);
            },
        }
        i = i + 1;
        assert(builder_patterns(builder) =~= gs.take(i as int));
    }
    assert(gs.take(i as int) =~= gs);
    build_set(&builder)
}

/// A path met while walking the scanned directories.
pub struct Candidate {
    pub path: String,
    pub is_file: bool,
    /// The extension of the file name, when there is one and it is UTF-8.
    pub extension: Option<String>,
}

/// Whether a walked path is scanned: a file with extension `py`, matched by
/// no exclude glob.
pub open spec fn is_scanned(c: Candidate, exclude: Seq<Seq<char>>) -> bool {
    &&& c.is_file
    &&& c.extension matches Some(e) && e@ == "py"@
    &&& !set_matches(exclude, c.path@)
}

/// The scanned paths among the first `i` candidates, in walk order.
pub open spec fn scanned_paths(cs: Seq<Candidate>, exclude: Seq<Seq<char>>, i: int) -> Seq<Seq<char>>
    decreases i,
{
    if i <= 0 || i > cs.len() {
        Seq::empty()
    } else if is_scanned(cs[i - 1], exclude) {
        scanned_paths(cs, exclude, i - 1).push(cs[i - 1].path@)
    } else {
        scanned_paths(cs, exclude, i - 1)
    }
}

/// A path, ordered as `Path` orders paths.
pub struct PathKey {
    pub path: String,
}

impl SortKey for PathKey {
    open spec fn key_order(&self, other: &PathKey, mode: bool) -> int {
        path_order(self.path@, other.path@)
    }

    fn compare_keys(&self, other: &PathKey, mode: bool) -> (r: i8) {
        compare_paths(self.path.as_str(), other.path.as_str())
    }
}

/// The paths of a list of path keys.
pub open spec fn key_paths(ks: Seq<PathKey>) -> Seq<Seq<char>> {
    ks.map_values(|k: PathKey| k.path@)
}

/// The paths of `keys` at the indices of `order`.
pub open spec fn ordered_paths(keys: Seq<PathKey>, order: Seq<usize>) -> Seq<Seq<char>> {
    order.map_values(|m: usize| keys[m as int].path@)
}

/// The scanned paths among the walked ones, sorted as `Path` orders paths
/// (equal paths in walk order).
pub fn select_python_files(candidates: &[Candidate], exclude: &GlobSet) -> (r: Vec<String>)
    ensures
        exists|keys: Seq<PathKey>, order: Seq<usize>|
            key_paths(keys) == scanned_paths(candidates@, set_patterns(*exclude), candidates@.len() as int)
            && sorted_order(keys, false, order)
            && views_of(r@) == #[trigger] ordered_paths(keys, order),
{
    let ghost ex = set_patterns(*exclude);
    let mut keys: Vec<PathKey> = Vec::new();
    let mut i: usize = 0;
    while i < candidates.len()
        invariant
            i <= candidates@.len(),
            ex == set_patterns(*exclude),
            key_paths(keys@) == scanned_paths(candidates@, ex, i as int),
        decreases candidates.len() - i,
    {
        let c = &candidates[i];
        let py = match &c.extension {
            Some(e) => str_eq(e.as_str(), "py"),
            None => false,
        };
        if c.is_file && py && !set_is_match(exclude, c.path.as_str()) {
            let ghost before = keys@;
            keys.push(PathKey { path: c.path.clone() });
            assert(key_paths(keys@) =~= key_paths(before).push(c.path@));
        }
        i = i + 1;
    }
    let order = stable_sort_order(keys.as_slice(), false);
    let mut files: Vec<String> = Vec::new();
    let mut k: usize = 0;
    while k < order.len()
        invariant
            k <= order@.len(),
            sorted_order(keys@, false, order@),
            views_of(files@) == order@.take(k as int).map_values(|m: usize| keys@[m as int].path@),
        decreases order.len() - k,
    {
        let ghost before = files@;
        let m = order[k];
        assert(m < keys@.len());
        let p = keys[m].path.clone();
        files.push(p);
        assert(views_of(files@) =~= views_of(before).push(keys@[m as int].path@));
        k = k + 1;
        assert(views_of(files@) =~= order@.take(k as int).map_values(|m: usize| keys@[m as int].path@));
    }
    assert(order@.take(k as int) =~= order@);
    assert(views_of(files@) == ordered_paths(keys@, order@));
    files
}

} // verus!
