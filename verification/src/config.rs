//! The scan's settings: their defaults, and how the `[tool.deadpy]` section
//! of `pyproject.toml` overrides them.
use vstd::prelude::*;
use crate::names::views_of;

verus! {

/// What to scan and what to report.
pub struct Config {
    pub paths: Vec<String>,
    pub exclude: Vec<String>,
    pub ignore_names: Vec<String>,
    pub ignore_decorators: Vec<String>,
    pub min_confidence: u8,
    pub sort_by_size: bool,
    pub report: Vec<String>,
    pub whitelist: Vec<String>,
}

/// The mathematical value of a [`Config`].
pub struct ConfigView {
    pub paths: Seq<Seq<char>>,
    pub exclude: Seq<Seq<char>>,
    pub ignore_names: Seq<Seq<char>>,
    pub ignore_decorators: Seq<Seq<char>>,
    pub min_confidence: u8,
    pub sort_by_size: bool,
    pub report: Seq<Seq<char>>,
    pub whitelist: Seq<Seq<char>>,
}

impl View for Config {
    type V = ConfigView;

    open spec fn view(&self) -> ConfigView {
        ConfigView {
            paths: views_of(self.paths@),
            exclude: views_of(self.exclude@),
            ignore_names: views_of(self.ignore_names@),
            ignore_decorators: views_of(self.ignore_decorators@),
            min_confidence: self.min_confidence,
            sort_by_size: self.sort_by_size,
            report: views_of(self.report@),
            whitelist: views_of(self.whitelist@),
        }
    }
}

/// The default settings: scan `.`, exclude nothing, report functions,
/// classes and methods of confidence 60 or more, sorted by file and line.
pub open spec fn default_config() -> ConfigView {
    ConfigView {
        paths: seq!["."@],
        exclude: Seq::empty(),
        ignore_names: Seq::empty(),
        ignore_decorators: Seq::empty(),
        min_confidence: 60,
        sort_by_size: false,
        report: seq!["function"@, "class"@, "method"@],
        whitelist: Seq::empty(),
    }
}

impl Default for Config {
    fn default() -> (r: Config)
        ensures
            r@ == default_config(),
    {
        let paths = vec![".".to_owned()];
        let report = vec!["function".to_owned(), "class".to_owned(), "method".to_owned()];
        let r = Config {
            paths,
            exclude: Vec::new(),
            ignore_names: Vec::new(),
            ignore_decorators: Vec::new(),
            min_confidence: 60,
            sort_by_size: false,
            report,
            whitelist: Vec::new(),
        };
        assert(r@.paths =~= default_config().paths);
        assert(r@.report =~= default_config().report);
        assert(r@.exclude =~= default_config().exclude);
        assert(r@.ignore_names =~= default_config().ignore_names);
        assert(r@.ignore_decorators =~= default_config().ignore_decorators);
        assert(r@.whitelist =~= default_config().whitelist);
        r
    }
}

/// The settings that a `[tool.deadpy]` section gives; an absent key is `None`.
pub struct ToolSettings {
    pub paths: Option<Vec<String>>,
    pub exclude: Option<Vec<String>>,
    pub ignore_names: Option<Vec<String>>,
    pub ignore_decorators: Option<Vec<String>>,
    pub min_confidence: Option<u8>,
    pub sort_by_size: Option<bool>,
    pub report: Option<Vec<String>>,
    pub whitelist: Option<Vec<String>>,
}

/// The views of an optional list of strings, or `default` when absent.
pub open spec fn list_or(v: Option<Vec<String>>, default: Seq<Seq<char>>) -> Seq<Seq<char>> {
    match v {
        Some(l) => views_of(l@),
        None => default,
    }
}

/// The settings of a section: each key that the section gives, the default
/// for every other.
pub open spec fn settings_config(s: ToolSettings) -> ConfigView {
    let d = default_config();
    ConfigView {
        paths: list_or(s.paths, d.paths),
        exclude: list_or(s.exclude, d.exclude),
        ignore_names: list_or(s.ignore_names, d.ignore_names),
        ignore_decorators: list_or(s.ignore_decorators, d.ignore_decorators),
        min_confidence: match s.min_confidence {
            Some(m) => m,
            None => d.min_confidence,
        },
        sort_by_size: match s.sort_by_size {
            Some(b) => b,
            None => d.sort_by_size,
        },
        report: list_or(s.report, d.report),
        whitelist: list_or(s.whitelist, d.whitelist),
    }
}

fn list_or_default(v: Option<Vec<String>>, default: Vec<String>) -> (r: Vec<String>)
    ensures
        views_of(r@) == list_or(v, views_of(default@)),
{
    match v {
        Some(l) => l,
        None => default,
    }
}

impl Config {
    /// The settings of a `[tool.deadpy]` section, with defaults for the keys
    /// it leaves out.
    pub fn from_settings(raw: ToolSettings) -> (r: Config)
        ensures
            r@ == settings_config(raw),
    {
        let defaults = Config::default();
        let r = Config {
            paths: list_or_default(raw.paths, defaults.paths),
            exclude: list_or_default(raw.exclude, defaults.exclude),
            ignore_names: list_or_default(raw.ignore_names, defaults.ignore_names),
            ignore_decorators: list_or_default(raw.ignore_decorators, defaults.ignore_decorators),
            min_confidence: match raw.min_confidence {
                Some(m) => m,
                None => defaults.min_confidence,
            },
            sort_by_size: match raw.sort_by_size {
                Some(b) => b,
                None => defaults.sort_by_size,
            },
            report: list_or_default(raw.report, defaults.report),
            whitelist: list_or_default(raw.whitelist, defaults.whitelist),
        };
        r
    }
}


/// Settings given on the command line.
pub struct Overrides {
    /// Paths to scan; when non-empty they replace the configured ones.
    pub paths: Vec<String>,
    /// Added to the configured exclude patterns.
    pub exclude: Vec<String>,
    /// Added to the configured decorator patterns.
    pub ignore_decorators: Vec<String>,
    /// Added to the configured name patterns.
    pub ignore_names: Vec<String>,
    /// Replaces the configured minimum confidence when given.
    pub min_confidence: Option<u8>,
    /// Added to the configured whitelist files.
    pub whitelist: Vec<String>,
    /// Kinds to report; when non-empty they replace the configured ones.
    pub report: Vec<String>,
    /// Sorts by size when set, whatever the configuration says.
    pub sort_by_size: bool,
}

/// The settings after the command line has overridden or extended them.
pub open spec fn overridden(c: ConfigView, o: Overrides) -> ConfigView {
    ConfigView {
        paths: if o.paths@.len() > 0 {
            views_of(o.paths@)
        } else {
            c.paths
        },
        exclude: c.exclude + views_of(o.exclude@),
        ignore_names: c.ignore_names + views_of(o.ignore_names@),
        ignore_decorators: c.ignore_decorators + views_of(o.ignore_decorators@),
        min_confidence: match o.min_confidence {
            Some(m) => m,
            None => c.min_confidence,
        },
        sort_by_size: c.sort_by_size || o.sort_by_size,
        report: if o.report@.len() > 0 {
            views_of(o.report@)
        } else {
            c.report
        },
        whitelist: c.whitelist + views_of(o.whitelist@),
    }
}

/// `base` followed by `more`.
fn extended(base: Vec<String>, more: Vec<String>) -> (r: Vec<String>)
    ensures
        views_of(r@) == views_of(base@) + views_of(more@),
{
    let mut r = base;
    let mut more = more;
    let ghost b = r@;
    let ghost m = more@;
    r.append(&mut more);
    assert(views_of(r@) =~= views_of(b) + views_of(m));
    r
}

impl Config {
    /// The settings with the command-line overrides applied.
    pub fn with_overrides(self, o: Overrides) -> (r: Config)
        ensures
            r@ == overridden(self@, o),
    {
        let Overrides {
            paths,
            exclude,
            ignore_decorators,
            ignore_names,
            min_confidence,
            whitelist,
            report,
            sort_by_size,
        } = o;
        let Config {
            paths: old_paths,
            exclude: old_exclude,
            ignore_names: old_names,
            ignore_decorators: old_decorators,
            min_confidence: old_min,
            sort_by_size: old_sort,
            report: old_report,
            whitelist: old_whitelist,
        } = self;
        Config {
            paths: if paths.len() > 0 {
                paths
            } else {
                old_paths
            },
            exclude: extended(old_exclude, exclude),
            ignore_names: extended(old_names, ignore_names),
            ignore_decorators: extended(old_decorators, ignore_decorators),
            min_confidence: match min_confidence {
                Some(m) => m,
                None => old_min,
            },
            sort_by_size: old_sort || sort_by_size,
            report: if report.len() > 0 {
                report
            } else {
                old_report
            },
            whitelist: extended(old_whitelist, whitelist),
        }
    }
}

} // verus!
