//! Rendering findings as text, JSON or a count, in file-and-line or size order.
use vstd::prelude::*;
use vstd::string::StringExecFns;
use crate::analysis::{Finding, finding_views};
use crate::parser::{Definition, DefinitionView, kind_name};
use crate::paths::{compare_paths, path_order};
use crate::sorting::{SortKey, sorted_order, stable_sort_order};
use crate::text::{decimal, push_decimal, str_eq};

verus! {

/// How findings are printed.
#[derive(Debug, Clone, Copy, PartialEq, Eq, Structural)]
pub enum OutputFormat {
    Text,
    Json,
    Count,
}

impl Default for OutputFormat {
    fn default() -> (r: OutputFormat)
        ensures
            r == OutputFormat::Text,
    {
        OutputFormat::Text
    }
}

/// The lower-case text of a string, as `str::to_lowercase` gives it.
pub uninterp spec fn lowercase(s: Seq<char>) -> Seq<char>;

/// Whether every character is an ASCII lower-case letter.
pub open spec fn ascii_lower(s: Seq<char>) -> bool {
    forall|i: int| 0 <= i < s.len() ==> 'a' <= #[trigger] s[i] <= 'z'
}

/// The string in lower case.
///
/// Trusted: `str::to_lowercase`, whose result is named [`lowercase`]; it maps
/// each character to its Unicode lower-case form, which for an ASCII
/// lower-case letter is the letter itself, so such text comes back unchanged.
#[verifier::external_body]
fn to_lowercase(s: &str) -> (r: String)
    ensures
        r@ == lowercase(s@),
        ascii_lower(s@) ==> r@ == s@,
{
    s.to_lowercase()
}

/// The format that a lower-case name selects, or the error message.
pub open spec fn format_named(lower: Seq<char>) -> Result<OutputFormat, Seq<char>> {
    if lower == "text"@ {
        Ok(OutputFormat::Text)
    } else if lower == "json"@ {
        Ok(OutputFormat::Json)
    } else if lower == "count"@ {
        Ok(OutputFormat::Count)
    } else {
        Err("unknown output format: "@ + lower)
    }
}

/// The name of a format.
pub open spec fn format_name(f: OutputFormat) -> Seq<char> {
    match f {
        OutputFormat::Text => "text"@,
        OutputFormat::Json => "json"@,
        OutputFormat::Count => "count"@,
    }
}

/// The view of a parse result.
pub open spec fn parse_view(r: Result<OutputFormat, String>) -> Result<OutputFormat, Seq<char>> {
    match r {
        Ok(f) => Ok(f),
        Err(m) => Err(m@),
    }
}

impl OutputFormat {
    /// The format that an already lower-case name selects.
    pub fn from_lowercase(lower: &str) -> (r: Result<OutputFormat, String>)
        ensures
            parse_view(r) == format_named(lower@),
    {
        if str_eq(lower, "text") {
            Ok(OutputFormat::Text)
        } else if str_eq(lower, "json") {
            Ok(OutputFormat::Json)
        } else if str_eq(lower, "count") {
            Ok(OutputFormat::Count)
        } else {
            let mut message = "unknown output format: ".to_owned();
            message.append(lower);
            Err(message)
        }
    }

    /// The format that a name selects, in any case.
    pub fn parse(s: &str) -> (r: Result<OutputFormat, String>)
        ensures
            parse_view(r) == format_named(lowercase(s@)),
            ascii_lower(s@) ==> parse_view(r) == format_named(s@),
    {
        let lower = to_lowercase(s);
        OutputFormat::from_lowercase(lower.as_str())
    }

    /// The name of the format.
    pub fn name(&self) -> (r: &'static str)
        ensures
            r@ == format_name(*self),
    {
        match self {
            OutputFormat::Text => "text",
            OutputFormat::Json => "json",
            OutputFormat::Count => "count",
        }
    }
}

impl std::str::FromStr for OutputFormat {
    type Err = String;

    fn from_str(s: &str) -> (r: Result<OutputFormat, String>)
        ensures
            parse_view(r) == format_named(lowercase(s@)),
            ascii_lower(s@) ==> parse_view(r) == format_named(s@),
    {
        OutputFormat::parse(s)
    }
}

// ---------------------------------------------------------------------------
// Order

/// How two findings compare: by size, larger first, or else by file (as paths
/// order) and then line. -1, 0 or 1.
pub open spec fn key_order(a: DefinitionView, b: DefinitionView, by_size: bool) -> int {
    if by_size {
        if a.size > b.size {
            -1
        } else if a.size < b.size {
            1
        } else {
            0
        }
    } else {
        let p = path_order(a.file, b.file);
        if p != 0 {
            p
        } else if a.line < b.line {
            -1
        } else if a.line > b.line {
            1
        } else {
            0
        }
    }
}

/// The findings of `s` in the given order.
pub open spec fn reorder(s: Seq<DefinitionView>, order: Seq<usize>) -> Seq<DefinitionView> {
    order.map_values(|i: usize| s[i as int])
}

impl SortKey for Finding {
    open spec fn key_order(&self, other: &Finding, by_size: bool) -> int {
        key_order(self.definition@, other.definition@, by_size)
    }

    fn compare_keys(&self, other: &Finding, by_size: bool) -> (r: i8) {
        let a = self;
        let b = other;
        if by_size {
            if a.definition.size > b.definition.size {
                -1
            } else if a.definition.size < b.definition.size {
                1
            } else {
                0
            }
        } else {
            let p = compare_paths(a.definition.file.as_str(), b.definition.file.as_str());
            if p != 0 {
                p
            } else if a.definition.line < b.definition.line {
                -1
            } else if a.definition.line > b.definition.line {
                1
            } else {
                0
            }
        }
    }
    }

/// The order in which findings are printed: by size, largest first, or by
/// file and line; findings that tie keep their order.
pub fn sort_findings(findings: &[Finding], sort_by_size: bool) -> (order: Vec<usize>)
    ensures
        sorted_order(findings@, sort_by_size, order@),
{
    stable_sort_order(findings, sort_by_size)
}

// ---------------------------------------------------------------------------
// Rendering

/// The text line of a finding.
pub open spec fn text_line(d: DefinitionView) -> Seq<char> {
    d.file + ":"@ + decimal(d.line as nat) + ": unused "@ + kind_name(d.kind) + " '"@ + d.name
        + "' ("@ + decimal(d.confidence as nat) + "% confidence)\n"@
}

/// The text lines of the findings.
pub open spec fn text_report(ds: Seq<DefinitionView>) -> Seq<char>
    decreases ds.len(),
{
    if ds.len() == 0 {
        Seq::empty()
    } else {
        text_report(ds.drop_last()) + text_line(ds.last())
    }
}

/// The JSON object of a finding.
pub open spec fn json_entry(d: DefinitionView) -> Seq<char> {
    "  {\"file\": \""@ + d.file + "\", \"line\": "@ + decimal(d.line as nat) + ", \"kind\": \""@
        + kind_name(d.kind) + "\", \"name\": \""@ + d.name + "\", \"confidence\": "@ + decimal(
        d.confidence as nat,
    ) + ", \"size\": "@ + decimal(d.size as nat) + "}"@
}

/// The JSON objects of the findings, separated by a comma and a newline.
pub open spec fn json_entries(ds: Seq<DefinitionView>) -> Seq<char>
    decreases ds.len(),
{
    if ds.len() == 0 {
        Seq::empty()
    } else if ds.len() == 1 {
        json_entry(ds[0])
    } else {
        json_entries(ds.drop_last()) + ",\n"@ + json_entry(ds.last())
    }
}

/// The JSON array of the findings.
pub open spec fn json_report(ds: Seq<DefinitionView>) -> Seq<char> {
    "[\n"@ + json_entries(ds) + "\n]\n"@
}

/// The findings in the given format.
pub open spec fn render(format: OutputFormat, ds: Seq<DefinitionView>) -> Seq<char> {
    match format {
        OutputFormat::Text => text_report(ds),
        OutputFormat::Json => json_report(ds),
        OutputFormat::Count => decimal(ds.len()) + "\n"@,
    }
}

/// The findings of `findings` at the indices of `order`.
pub open spec fn ordered(findings: Seq<Finding>, order: Seq<usize>) -> Seq<DefinitionView> {
    reorder(finding_views(findings), order)
}

fn format_text(findings: &[Finding], order: &Vec<usize>) -> (r: String)
    requires
        forall|k: int| 0 <= k < order@.len() ==> #[trigger] order@[k] < findings@.len(),
    ensures
        r@ == text_report(ordered(findings@, order@)),
{
    let mut output = String::new();
    let mut k: usize = 0;
    while k < order.len()
        invariant
            k <= order@.len(),
            forall|m: int| 0 <= m < order@.len() ==> #[trigger] order@[m] < findings@.len(),
            output@ == text_report(ordered(findings@, order@).take(k as int)),
        decreases order.len() - k,
    {
        let def = &findings[order[k]].definition;
        let ghost d = def@;
        let ghost before = output@;
        output.append(def.file.as_str());
        output.append(":");
        push_decimal(&mut output, def.line as u64);
        output.append(": unused ");
        output.append(def.kind.as_str());
        output.append(" '");
        output.append(def.name.as_str());
        output.append("' (");
        push_decimal(&mut output, def.confidence as u64);
        output.append("% confidence)\n");
        proof {
            let ds = ordered(findings@, order@);
            assert(ds[k as int] == d);
            assert(ds.take(k + 1).drop_last() =~= ds.take(k as int));
            assert(output@ =~= before + text_line(d));
        }
        k = k + 1;
    }
    assert(ordered(findings@, order@).take(k as int) =~= ordered(findings@, order@));
    output
}

/// Appends the JSON object of a definition.
fn push_json_entry(out: &mut String, def: &Definition)
    ensures
        final(out)@ == old(out)@ + json_entry(def@),
{
    out.append("  {\"file\": \"");
    out.append(def.file.as_str());
    out.append("\", \"line\": ");
    push_decimal(out, def.line as u64);
    out.append(", \"kind\": \"");
    out.append(def.kind.as_str());
    out.append("\", \"name\": \"");
    out.append(def.name.as_str());
    out.append("\", \"confidence\": ");
    push_decimal(out, def.confidence as u64);
    out.append(", \"size\": ");
    push_decimal(out, def.size as u64);
    out.append("}");
    assert(out@ =~= old(out)@ + json_entry(def@));
}

fn format_json(findings: &[Finding], order: &Vec<usize>) -> (r: String)
    requires
        forall|k: int| 0 <= k < order@.len() ==> #[trigger] order@[k] < findings@.len(),
    ensures
        r@ == json_report(ordered(findings@, order@)),
{
    let mut entries = String::new();
    let mut k: usize = 0;
    while k < order.len()
        invariant
            k <= order@.len(),
            forall|m: int| 0 <= m < order@.len() ==> #[trigger] order@[m] < findings@.len(),
            entries@ == json_entries(ordered(findings@, order@).take(k as int)),
        decreases order.len() - k,
    {
        let def = &findings[order[k]].definition;
        let ghost d = def@;
        let ghost before = entries@;
        if k > 0 {
            entries.append(",\n");
        }
        let ghost mid = entries@;
        push_json_entry(&mut entries, def);
        proof {
            let ds = ordered(findings@, order@);
            assert(ds[k as int] == d);
            assert(entries@ =~= mid + json_entry(d));
            let t = ds.take(k + 1);
            assert(t.drop_last() =~= ds.take(k as int));
            if k == 0 {
                assert(before =~= Seq::<char>::empty());
                assert(t.len() == 1 && t[0] == d);
                assert(entries@ =~= json_entries(t));
            } else {
                assert(entries@ =~= json_entries(t));
            }
        }
        k = k + 1;
    }
    assert(ordered(findings@, order@).take(k as int) =~= ordered(findings@, order@));
    let mut output = "[\n".to_owned();
    output.append(entries.as_str());
    output.append("\n]\n");
    output
}

/// The findings in the given format: sorted by size (largest first) or by
/// file and line, ties in input order; one text line per finding, a JSON
/// array, or the number of findings.
pub fn format_findings(findings: &[Finding], format: OutputFormat, sort_by_size: bool) -> (r: String)
    ensures
        exists|order: Seq<usize>|
            sorted_order(findings@, sort_by_size, order) && r@ == render(
                format,
                #[trigger] ordered(findings@, order),
            ),
{
    let order = sort_findings(findings, sort_by_size);
    let r = match format {
        OutputFormat::Text => format_text(findings, &order),
        OutputFormat::Json => format_json(findings, &order),
        OutputFormat::Count => {
            let mut out = String::new();
            push_decimal(&mut out, order.len() as u64);
            out.append("\n");
            assert(ordered(findings@, order@).len() == order@.len());
            out
        },
    };
    assert(r@ == render(format, ordered(findings@, order@)));
    r
}

} // verus!
