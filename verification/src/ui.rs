//! What is shown to the user: the report on a scan, the prompt, the log.

use vstd::prelude::*;

use crate::numeral::decimal;
use crate::numeral::parse_number;
use crate::numeral::read_number;
use crate::numeral::signed_decimal;
use crate::numeral::write_number;
use crate::numeral::write_signed;
use crate::outside::debug_quoted;
use crate::outside::lowercase;
use crate::outside::lowered;
use crate::outside::quote;
use crate::paths::opt_str;
use crate::report::findings_view;
use crate::report::opt_text;
use crate::report::severity_of;
use crate::report::Finding;
use crate::report::FindingView;
use crate::report::MaintainerSummary;
use crate::report::Reputation;
use crate::report::ReputationView;
use crate::report::ResultView;
use crate::report::ScanResult;
use crate::report::Severity;
use crate::report::Tier;
use crate::rpc::days_between;
use crate::rpc::whole_days;
use crate::text::ascii_lowered;
use crate::text::begins;
use crate::text::chars_of;
use crate::text::cut_display;
use crate::text::find_from;
use crate::text::first_line;
use crate::text::is_blank;
use crate::text::is_one_line;
use crate::text::law_cut_display_fits;
use crate::text::lemma_blank_start;
use crate::text::lemma_ended_line;
use crate::text::lemma_find_from;
use crate::text::lemma_lines_concat;
use crate::text::lemma_one_line_concat;
use crate::text::lines;
use crate::text::occurs_at;
use crate::text::same_str;
use crate::text::string_of;
use crate::text::strings;
use crate::text::trim;
use crate::text::trimmed;
use crate::text::truncate_display;
use crate::text::Class;
use crate::wrap::law_lines_fit;
use crate::wrap::wrap_paragraph;
use crate::wrap::wrapped;

verus! {

// ---------------------------------------------------------------------------
// Colour and width
// ---------------------------------------------------------------------------

/// The escape where colour is on, else nothing.
pub open spec fn esc(color: bool, code: Seq<char>) -> Seq<char> {
    if color {
        code
    } else {
        ""@
    }
}

/// The text in a colour, where colour is on.
pub open spec fn painted(color: bool, code: Seq<char>, text: Seq<char>) -> Seq<char> {
    if color {
        code + text + "\x1b[0m"@
    } else {
        text
    }
}

fn escape(color: bool, code: &'static str) -> (s: &'static str)
    ensures
        s@ == esc(color, code@),
{
    if color {
        code
    } else {
        ""
    }
}

/// The text in a colour, where colour is on.
pub fn paint(color: bool, code: &str, text: &str) -> (s: String)
    ensures
        s@ == painted(color, code@, text@),
{
    if color {
        let mut s: String = code.to_owned();
        s.append(text);
        s.append("\x1b[0m");
        s
    } else {
        text.to_owned()
    }
}

/// The width of the terminal, given the setting `COLUMNS`: what it says where
/// that is a number of 40 at least, else 100.
pub open spec fn width_of(columns: Option<Seq<char>>) -> int {
    match columns {
        Some(s) => match read_number(s, usize::MAX as int) {
            Some(n) => if n >= 40 {
                n
            } else {
                100
            },
            None => 100,
        },
        None => 100,
    }
}

/// Best-effort terminal width. Pacman/yay set `COLUMNS` for their hooks; we
/// fall back to 100 columns when nothing is available, which renders fine
/// in both interactive terminals and pacman's captured output.
pub fn term_width(columns: Option<&str>) -> (w: usize)
    ensures
        w == width_of(opt_str(columns)),
        w >= 40,
{
    match columns {
        Some(s) => {
            let c: Vec<char> = chars_of(s);
            match parse_number(c.as_slice(), usize::MAX as u64) {
                Some(n) => {
                    proof {
                        crate::numeral::lemma_read_number_range(s@, usize::MAX as int);
                    }
                    if n >= 40 {
                        n as usize
                    } else {
                        100
                    }
                },
                None => 100,
            }
        },
        None => 100,
    }
}

/// Whether colour is used.
pub open spec fn uses_color(stderr_is_terminal: bool, no_color_is_set: bool) -> bool {
    stderr_is_terminal && !no_color_is_set
}

/// Whether colour is used: on a terminal, unless it is turned off.
pub fn use_color(stderr_is_terminal: bool, no_color_is_set: bool) -> (b: bool)
    ensures
        b == (stderr_is_terminal && !no_color_is_set),
        b == uses_color(stderr_is_terminal, no_color_is_set),
{
    stderr_is_terminal && !no_color_is_set
}

// ---------------------------------------------------------------------------
// Reputation
// ---------------------------------------------------------------------------

/// Whole days from `ts` to `now`; -1 where `ts` is not known.
pub open spec fn days_ago(now: int, ts: int) -> int {
    if ts <= 0 {
        -1
    } else {
        days_between(ts, now)
    }
}

/// Whole days from `ts` to `now`; -1 where `ts` is not known.
pub fn days_since(now: i64, ts: i64) -> (d: i64)
    ensures
        d == days_ago(now as int, ts as int),
        d >= -1,
{
    if ts <= 0 {
        return -1;
    }
    let d: u64 = whole_days(ts, now);
    d as i64
}

/// The name of the maintainer, or that there is none.
pub open spec fn maintainer_name(m: Option<Seq<char>>) -> Seq<char> {
    match m {
        Some(name) => name,
        None => "(orphaned)"@,
    }
}

/// The banner on a package's reputation.
pub open spec fn reputation_text(rep: ReputationView, now: int) -> Seq<char> {
    let base = "maintainer="@ + maintainer_name(rep.maintainer) + ", age="@ + signed_decimal(
        days_ago(now, rep.first_submitted),
    ) + "d, last update="@ + signed_decimal(days_ago(now, rep.last_modified)) + "d ago, votes="@
        + decimal(rep.num_votes) + ", popularity="@ + rep.popularity.two_places;
    let flagged = match rep.out_of_date {
        Some(ts) => base + ", ⚑ out-of-date "@ + signed_decimal(days_ago(now, ts as int)) + "d"@,
        None => base,
    };
    if rep.maintainer_established {
        flagged + " (established maintainer)"@
    } else {
        flagged
    }
}

/// The banner on a package's reputation.
pub fn format_reputation(rep: &Reputation, now: i64) -> (s: String)
    ensures
        s@ == reputation_text(rep@, now as int),
{
    let mut s: String = "maintainer=".to_owned();
    match &rep.maintainer {
        Some(m) => {
            s.append(m.as_str());
        },
        None => {
            s.append("(orphaned)");
        },
    }
    s.append(", age=");
    s.append(write_signed(days_since(now, rep.first_submitted)).as_str());
    s.append("d, last update=");
    s.append(write_signed(days_since(now, rep.last_modified)).as_str());
    s.append("d ago, votes=");
    s.append(write_number(rep.num_votes as u64).as_str());
    s.append(", popularity=");
    s.append(rep.popularity.two_places.as_str());
    if let Some(ts) = rep.out_of_date {
        s.append(", ⚑ out-of-date ");
        s.append(write_signed(days_since(now, ts)).as_str());
        s.append("d");
    }
    if rep.maintainer_established {
        s.append(" (established maintainer)");
    }
    s
}

/// The second line of the banner: the maintainer's track record, where it is
/// known.
pub open spec fn track_record_text(rep: ReputationView, now: int) -> Option<Seq<char>> {
    match rep.maintainer_summary {
        Some(m) => {
            let base = "track record: "@ + decimal(m.package_count as int) + " pkg(s) · "@
                + decimal(m.total_votes as int) + " vote(s) total · oldest "@ + signed_decimal(
                days_ago(now, m.oldest_first_submitted as int),
            ) + "d ago"@;
            if rep.maintainer_established {
                Some(base + " — AG092/AG094 suppressed"@)
            } else {
                Some(base)
            }
        },
        None => None,
    }
}

/// Optional second line under the AUR banner: the maintainer's overall
/// track record. Shown whenever we have a summary at all, and explicitly
/// notes the AG092/AG094 suppression when established.
pub fn format_maintainer_track_record(rep: &Reputation, now: i64) -> (s: Option<String>)
    ensures
        opt_text(s) == track_record_text(rep@, now as int),
{
    let m: MaintainerSummary = match rep.maintainer_summary {
        Some(m) => m,
        None => {
            return None;
        },
    };
    let mut s: String = "track record: ".to_owned();
    s.append(write_number(m.package_count as u64).as_str());
    s.append(" pkg(s) · ");
    s.append(write_number(m.total_votes as u64).as_str());
    s.append(" vote(s) total · oldest ");
    s.append(write_signed(days_since(now, m.oldest_first_submitted)).as_str());
    s.append("d ago");
    if rep.maintainer_established {
        s.append(" — AG092/AG094 suppressed");
    }
    Some(s)
}

// ---------------------------------------------------------------------------
// The report
// ---------------------------------------------------------------------------

pub open spec fn bold(color: bool) -> Seq<char> {
    esc(color, "\x1b[1m"@)
}

pub open spec fn dim(color: bool) -> Seq<char> {
    esc(color, "\x1b[2m"@)
}

pub open spec fn reset(color: bool) -> Seq<char> {
    esc(color, "\x1b[0m"@)
}

pub open spec fn green(color: bool) -> Seq<char> {
    esc(color, "\x1b[32m"@)
}

pub open spec fn yellow(color: bool) -> Seq<char> {
    esc(color, "\x1b[33m"@)
}

pub open spec fn cyan(color: bool) -> Seq<char> {
    esc(color, "\x1b[36m"@)
}

/// The badge of a tier.
pub open spec fn tier_badge(t: Tier, color: bool) -> Seq<char> {
    painted(color, t.paint(), "["@ + t.word() + "]"@)
}

/// How a report opens: the name of the tool and the tier.
pub open spec fn opening(t: Tier, color: bool) -> Seq<char> {
    bold(color) + "aur-guard"@ + reset(color) + " "@ + dim(color) + "::"@ + reset(color) + " "@
        + tier_badge(t, color)
}

/// What was scanned, and the trust score.
pub open spec fn subject(r: ResultView, color: bool) -> Seq<char> {
    " "@ + r.path + "  "@ + dim(color) + "("@ + decimal(r.lines_scanned)
        + " lines)"@ + reset(color) + "\n  "@ + bold(color) + "trust score "@ + decimal(r.score)
        + "/100"@ + reset(color) + "\n"@
}

/// The tier, what was scanned, and the trust score. The tier stands on the
/// first line.
pub open spec fn headline(r: ResultView, color: bool) -> Seq<char> {
    opening(r.tier, color) + subject(r, color)
}

/// The override gate that fired, if one did.
pub open spec fn gate_line(r: ResultView, color: bool) -> Seq<char> {
    match r.override_gate_fired {
        Some(id) => "  "@ + dim(color) + "→ override gate fired ("@ + id
            + ") — one match is enough to fail the build"@ + reset(color) + "\n"@,
        None => ""@,
    }
}

/// Why the tier was promoted, if it was.
pub open spec fn promotion_line(r: ResultView, color: bool) -> Seq<char> {
    match r.promoted_by_diff {
        Some(reason) => "  "@ + yellow(color) + "→ supply-chain diff: "@ + reason + reset(color)
            + "\n"@,
        None => ""@,
    }
}

/// The maintainer's track record, if it is known.
pub open spec fn track_record_line(rep: ReputationView, color: bool, now: int) -> Seq<char> {
    match track_record_text(rep, now) {
        Some(line) => "  "@ + dim(color) + "  "@ + line + reset(color) + "\n"@,
        None => ""@,
    }
}

/// The AUR banner, if the AUR was asked.
pub open spec fn reputation_lines(r: ResultView, color: bool, now: int) -> Seq<char> {
    match r.reputation {
        Some(rep) => "  "@ + cyan(color) + "→ AUR: "@ + reputation_text(rep, now) + reset(color)
            + "\n"@ + track_record_line(rep, color, now),
        None => ""@,
    }
}

/// How many of the first `n` findings are new.
pub open spec fn new_count(fs: Seq<FindingView>, n: int) -> int
    decreases n,
{
    if n <= 0 {
        0
    } else if fs[n - 1].is_new {
        new_count(fs, n - 1) + 1
    } else {
        new_count(fs, n - 1)
    }
}

/// How many findings there are, and how many are new.
pub open spec fn count_line(fs: Seq<FindingView>, color: bool) -> Seq<char> {
    let n = fs.len() as int;
    if new_count(fs, n) > 0 {
        "  "@ + decimal(n) + " finding(s), "@ + yellow(color) + decimal(new_count(fs, n))
            + " new since the previous version"@ + reset(color) + ":\n\n"@
    } else {
        "  "@ + decimal(n) + " finding(s):\n\n"@
    }
}

/// The mark on a new finding.
pub open spec fn new_mark(f: FindingView, color: bool) -> Seq<char> {
    if f.is_new {
        painted(color, "\x1b[1;33m"@, " [NEW]"@)
    } else {
        ""@
    }
}

/// The file that a finding came from, where that is not the PKGBUILD.
pub open spec fn file_mark(f: FindingView, color: bool) -> Seq<char> {
    match f.source_file {
        Some(name) => " "@ + dim(color) + "[+"@ + name + "]"@ + reset(color),
        None => ""@,
    }
}

/// The mark on a finding of an override gate.
pub open spec fn gate_mark(f: FindingView) -> Seq<char> {
    if f.override_gate {
        " ⛔"@
    } else {
        ""@
    }
}

/// The badge of a severity.
pub open spec fn badge(s: Severity, color: bool) -> Seq<char> {
    painted(color, s.paint(), "["@ + s.word() + "]"@)
}

/// Where the finding is: the number of the line, and as much of the line as
/// `snippet_width` columns take.
pub open spec fn place_text(f: FindingView, color: bool, snippet_width: int) -> Seq<char> {
    "    "@ + dim(color) + "line "@ + decimal(f.line) + ":"@ + reset(color) + " "@ + cut_display(
        trim(f.snippet, Class::Blank),
        snippet_width,
    )
}

/// What is said of one finding, with `snippet_width` columns for the snippet
/// and `desc_width` for the description.
pub open spec fn finding_text(
    f: FindingView,
    color: bool,
    snippet_width: int,
    desc_width: int,
) -> Seq<char> {
    "  "@ + badge(severity_of(f.points, f.override_gate), color) + new_mark(f, color) + "  "@
        + bold(color) + f.title + reset(color) + file_mark(f, color) + "  "@ + dim(color) + "["@
        + f.rule_id + " · "@ + decimal(f.points) + "pts"@ + gate_mark(f) + "]"@ + reset(color)
        + "\n"@ + place_text(f, color, snippet_width) + "\n"@ + wrapped(
        f.description,
        desc_width,
        "    "@,
    ) + "\n\n"@
}

/// What is said of the first `n` findings.
pub open spec fn findings_text(
    fs: Seq<FindingView>,
    n: int,
    color: bool,
    snippet_width: int,
    desc_width: int,
) -> Seq<char>
    decreases n,
{
    if n <= 0 {
        Seq::empty()
    } else {
        findings_text(fs, n - 1, color, snippet_width, desc_width) + finding_text(
            fs[n - 1],
            color,
            snippet_width,
            desc_width,
        )
    }
}

/// The columns for a snippet: what a margin leaves of the width, 40 at least.
pub open spec fn snippet_columns(width: int) -> int {
    if width - 14 > 40 {
        width - 14
    } else {
        40
    }
}

/// The columns for a description: what a margin leaves of the width, so that
/// it does not spill across the terminal.
pub open spec fn description_columns(width: int) -> int {
    if width > 4 {
        width - 4
    } else {
        1
    }
}

/// What a report says below its headline.
pub open spec fn details(r: ResultView, color: bool, width: int, now: int) -> Seq<char> {
    let top = gate_line(r, color) + promotion_line(r, color) + reputation_lines(r, color, now);
    if r.findings.len() == 0 {
        top + "  "@ + green(color) + "✓ No findings."@ + reset(color) + "\n"@
    } else {
        top + count_line(r.findings, color) + findings_text(
            r.findings,
            r.findings.len() as int,
            color,
            snippet_columns(width),
            description_columns(width),
        )
    }
}

/// The report on a scan, for a terminal of `width` columns at time `now`.
pub open spec fn report_text(r: ResultView, color: bool, width: int, now: int) -> Seq<char> {
    headline(r, color) + details(r, color, width, now)
}

/// Whether the first line of the text names the tier in brackets.
pub open spec fn names_tier_first(text: Seq<char>, t: Tier) -> bool {
    exists|i: int| #[trigger] occurs_at(first_line(text), "["@ + t.word() + "]"@, i)
}

fn bracketed(word: &str) -> (s: String)
    ensures
        s@ == "["@ + word@ + "]"@,
{
    let mut s: String = "[".to_owned();
    s.append(word);
    s.append("]");
    s
}

fn print_opening(t: Tier, color: bool) -> (s: String)
    ensures
        s@ == opening(t, color),
{
    let reset: &'static str = escape(color, "\x1b[0m");
    let mut s: String = escape(color, "\x1b[1m").to_owned();
    s.append("aur-guard");
    s.append(reset);
    s.append(" ");
    s.append(escape(color, "\x1b[2m"));
    s.append("::");
    s.append(reset);
    s.append(" ");
    s.append(paint(color, t.color(), bracketed(t.label()).as_str()).as_str());
    s
}

fn print_subject(r: &ScanResult, color: bool) -> (s: String)
    ensures
        s@ == subject(r@, color),
{
    let reset: &'static str = escape(color, "\x1b[0m");
    let mut s: String = " ".to_owned();
    s.append(r.path.as_str());
    s.append("  ");
    s.append(escape(color, "\x1b[2m"));
    s.append("(");
    s.append(write_number(r.lines_scanned as u64).as_str());
    s.append(" lines)");
    s.append(reset);
    s.append("\n  ");
    s.append(escape(color, "\x1b[1m"));
    s.append("trust score ");
    s.append(write_number(r.score as u64).as_str());
    s.append("/100");
    s.append(reset);
    s.append("\n");
    s
}

fn print_gate(r: &ScanResult, color: bool) -> (s: String)
    ensures
        s@ == gate_line(r@, color),
{
    match r.override_gate_fired {
        Some(id) => {
            let mut s: String = "  ".to_owned();
            s.append(escape(color, "\x1b[2m"));
            s.append("→ override gate fired (");
            s.append(id);
            s.append(") — one match is enough to fail the build");
            s.append(escape(color, "\x1b[0m"));
            s.append("\n");
            s
        },
        None => "".to_owned(),
    }
}

fn print_promotion(r: &ScanResult, color: bool) -> (s: String)
    ensures
        s@ == promotion_line(r@, color),
{
    match &r.promoted_by_diff {
        Some(reason) => {
            let mut s: String = "  ".to_owned();
            s.append(escape(color, "\x1b[33m"));
            s.append("→ supply-chain diff: ");
            s.append(reason.as_str());
            s.append(escape(color, "\x1b[0m"));
            s.append("\n");
            s
        },
        None => "".to_owned(),
    }
}

fn print_track_record(rep: &Reputation, color: bool, now: i64) -> (s: String)
    ensures
        s@ == track_record_line(rep@, color, now as int),
{
    match format_maintainer_track_record(rep, now) {
        Some(line) => {
            let mut s: String = "  ".to_owned();
            s.append(escape(color, "\x1b[2m"));
            s.append("  ");
            s.append(line.as_str());
            s.append(escape(color, "\x1b[0m"));
            s.append("\n");
            s
        },
        None => "".to_owned(),
    }
}

fn print_reputation(r: &ScanResult, color: bool, now: i64) -> (s: String)
    ensures
        s@ == reputation_lines(r@, color, now as int),
{
    match &r.reputation {
        Some(rep) => {
            let mut s: String = "  ".to_owned();
            s.append(escape(color, "\x1b[36m"));
            s.append("→ AUR: ");
            s.append(format_reputation(rep, now).as_str());
            s.append(escape(color, "\x1b[0m"));
            s.append("\n");
            s.append(print_track_record(rep, color, now).as_str());
            s
        },
        None => "".to_owned(),
    }
}

fn count_new(findings: &Vec<Finding>) -> (n: usize)
    ensures
        n == new_count(findings_view(findings@), findings@.len() as int),
{
    let ghost fs = findings_view(findings@);
    let mut n: usize = 0;
    let mut i: usize = 0;
    while i < findings.len()
        invariant
            i <= findings@.len(),
            fs == findings_view(findings@),
            n == new_count(fs, i as int),
            n <= i,
        decreases findings@.len() - i,
    {
        assert(fs[i as int] == findings@[i as int]@);
        if findings[i].is_new {
            n = n + 1;
        }
        i = i + 1;
    }
    n
}

fn print_count(findings: &Vec<Finding>, color: bool) -> (s: String)
    ensures
        s@ == count_line(findings_view(findings@), color),
{
    let n: usize = count_new(findings);
    let mut s: String = "  ".to_owned();
    s.append(write_number(findings.len() as u64).as_str());
    if n > 0 {
        s.append(" finding(s), ");
        s.append(escape(color, "\x1b[33m"));
        s.append(write_number(n as u64).as_str());
        s.append(" new since the previous version");
        s.append(escape(color, "\x1b[0m"));
        s.append(":\n\n");
    } else {
        s.append(" finding(s):\n\n");
    }
    s
}

fn print_file_mark(f: &Finding, color: bool) -> (s: String)
    ensures
        s@ == file_mark(f@, color),
{
    match &f.source_file {
        Some(name) => {
            let mut s: String = " ".to_owned();
            s.append(escape(color, "\x1b[2m"));
            s.append("[+");
            s.append(name.as_str());
            s.append("]");
            s.append(escape(color, "\x1b[0m"));
            s
        },
        None => "".to_owned(),
    }
}

/// The badge of a severity.
pub fn print_badge(sev: Severity, color: bool) -> (s: String)
    ensures
        s@ == badge(sev, color),
{
    paint(color, sev.color(), bracketed(sev.label()).as_str())
}

fn print_place(f: &Finding, color: bool, snippet_width: usize) -> (s: String)
    ensures
        s@ == place_text(f@, color, snippet_width as int),
{
    let mut s: String = "    ".to_owned();
    s.append(escape(color, "\x1b[2m"));
    s.append("line ");
    s.append(write_number(f.line as u64).as_str());
    s.append(":");
    s.append(escape(color, "\x1b[0m"));
    s.append(" ");
    let snippet: Vec<char> = chars_of(f.snippet.as_str());
    s.append(
        truncate_display(trimmed(snippet.as_slice(), Class::Blank), snippet_width).as_str(),
    );
    s
}

fn print_finding(
    f: &Finding,
    color: bool,
    snippet_width: usize,
    desc_width: usize,
) -> (s: String)
    ensures
        s@ == finding_text(f@, color, snippet_width as int, desc_width as int),
{
    let bold: &'static str = escape(color, "\x1b[1m");
    let dim: &'static str = escape(color, "\x1b[2m");
    let reset: &'static str = escape(color, "\x1b[0m");
    let mut s: String = "  ".to_owned();
    s.append(print_badge(f.severity(), color).as_str());
    if f.is_new {
        s.append(paint(color, "\x1b[1;33m", " [NEW]").as_str());
    } else {
        s.append("");
    }
    s.append("  ");
    s.append(bold);
    s.append(f.title);
    s.append(reset);
    s.append(print_file_mark(f, color).as_str());
    s.append("  ");
    s.append(dim);
    s.append("[");
    s.append(f.rule_id);
    s.append(" · ");
    s.append(write_number(f.points as u64).as_str());
    s.append("pts");
    if f.override_gate {
        s.append(" ⛔");
    } else {
        s.append("");
    }
    s.append("]");
    s.append(reset);
    s.append("\n");
    s.append(print_place(f, color, snippet_width).as_str());
    s.append("\n");
    s.append(wrap_paragraph(f.description, desc_width, "    ").as_str());
    s.append("\n\n");
    s
}

fn columns_for_snippet(width: usize) -> (n: usize)
    ensures
        n == snippet_columns(width as int),
{
    let left: usize = width.saturating_sub(14);
    if left > 40 {
        left
    } else {
        40
    }
}

fn columns_for_description(width: usize) -> (n: usize)
    ensures
        n == description_columns(width as int),
{
    if width > 4 {
        width - 4
    } else {
        1
    }
}

fn print_details(result: &ScanResult, color: bool, width: usize, now: i64) -> (s: String)
    ensures
        s@ == details(result@, color, width as int, now as int),
{
    let mut s: String = print_gate(result, color);
    s.append(print_promotion(result, color).as_str());
    s.append(print_reputation(result, color, now).as_str());
    if result.is_clean() {
        s.append("  ");
        s.append(escape(color, "\x1b[32m"));
        s.append("✓ No findings.");
        s.append(escape(color, "\x1b[0m"));
        s.append("\n");
        return s;
    }
    s.append(print_count(&result.findings, color).as_str());
    let snippet_width: usize = columns_for_snippet(width);
    let desc_width: usize = columns_for_description(width);
    let ghost top = s@;
    let ghost fs = result@.findings;
    let mut i: usize = 0;
    assert(s@ =~= top + findings_text(fs, 0, color, snippet_width as int, desc_width as int));
    while i < result.findings.len()
        invariant
            i <= result.findings@.len(),
            fs == findings_view(result.findings@),
            s@ == top + findings_text(
                fs,
                i as int,
                color,
                snippet_width as int,
                desc_width as int,
            ),
        decreases result.findings@.len() - i,
    {
        assert(fs[i as int] == result.findings@[i as int]@);
        s.append(
            print_finding(&result.findings[i], color, snippet_width, desc_width).as_str(),
        );
        assert(s@ =~= top + findings_text(
            fs,
            i + 1,
            color,
            snippet_width as int,
            desc_width as int,
        ));
        i = i + 1;
    }
    s
}

/// The report on a scan, for a terminal of `width` columns at time `now`.
pub fn print_result(result: &ScanResult, color: bool, width: usize, now: i64) -> (s: String)
    ensures
        s@ == report_text(result@, color, width as int, now as int),
        names_tier_first(s@, result@.tier),
{
    proof {
        law_tier_is_on_the_first_line(result@, color, width as int, now as int);
    }
    let mut s: String = print_opening(result.tier, color);
    s.append(print_subject(result, color).as_str());
    s.append(print_details(result, color, width, now).as_str());
    s
}

// ---------------------------------------------------------------------------
// The prompt
// ---------------------------------------------------------------------------

/// What is said where no terminal can be asked.
pub const NO_TTY_NOTICE: &'static str = "\naur-guard :: no interactive TTY; blocking by default.\n             Set AUR_GUARD_ASSUME=yes only if you are absolutely sure you want to continue.\n";

/// How wide the rule above a prompt is: the width of the terminal, 40 at
/// least and 72 at most.
pub open spec fn rule_width(width: int) -> int {
    if width < 40 {
        40
    } else if width > 72 {
        72
    } else {
        width
    }
}

/// The rule above a prompt.
pub open spec fn rule(n: int) -> Seq<char> {
    Seq::new(n as nat, |i: int| '━')
}

/// The first `n` lines of the summary in a prompt.
pub open spec fn summary_text(summary: Seq<Seq<char>>, n: int) -> Seq<char>
    decreases n,
{
    if n <= 0 {
        Seq::empty()
    } else {
        summary_text(summary, n - 1) + ("  ▸ "@ + summary[n - 1] + "\n"@)
    }
}

/// The prompt: a rule, a header, the summary and the question.
pub open spec fn prompt_text(
    label: Seq<char>,
    summary: Seq<Seq<char>>,
    question: Seq<char>,
    color: bool,
    width: int,
) -> Seq<char> {
    let cyan = esc(color, "\x1b[1;36m"@);
    "\n"@ + cyan + rule(rule_width(width)) + reset(color) + "\n  "@ + bold(color)
        + "aur-guard :: "@ + label + reset(color) + "\n"@ + summary_text(
        summary,
        summary.len() as int,
    ) + "  ▸ "@ + bold(color) + question + reset(color) + "  [y/N] "@
}

fn draw_rule(n: usize) -> (s: String)
    ensures
        s@ == rule(n as int),
{
    let mut s: String = "".to_owned();
    proof {
        reveal_strlit("");
    }
    assert(s@ =~= rule(0));
    let mut i: usize = 0;
    while i < n
        invariant
            i <= n,
            s@ == rule(i as int),
        decreases n - i,
    {
        s.push('━');
        assert(s@ =~= rule(i + 1));
        i = i + 1;
    }
    s
}

/// Visually-distinct y/N prompt: a horizontal rule, a labelled header, the
/// summary lines provided by the caller, and the question.
pub fn prompt_block(
    label: &str,
    summary: &Vec<String>,
    question: &str,
    color: bool,
    width: usize,
) -> (s: String)
    ensures
        s@ == prompt_text(label@, strings(summary@), question@, color, width as int),
{
    let bold: &'static str = escape(color, "\x1b[1m");
    let reset: &'static str = escape(color, "\x1b[0m");
    let n: usize = if width < 40 {
        40
    } else if width > 72 {
        72
    } else {
        width
    };
    let mut s: String = "\n".to_owned();
    s.append(escape(color, "\x1b[1;36m"));
    s.append(draw_rule(n).as_str());
    s.append(reset);
    s.append("\n  ");
    s.append(bold);
    s.append("aur-guard :: ");
    s.append(label);
    s.append(reset);
    s.append("\n");
    let ghost top = s@;
    let ghost ls = strings(summary@);
    let mut i: usize = 0;
    assert(s@ =~= top + summary_text(ls, 0));
    while i < summary.len()
        invariant
            i <= summary@.len(),
            ls == strings(summary@),
            s@ == top + summary_text(ls, i as int),
        decreases summary@.len() - i,
    {
        let mut line: String = "  ▸ ".to_owned();
        line.append(summary[i].as_str());
        line.append("\n");
        s.append(line.as_str());
        assert(ls[i as int] == summary@[i as int]@);
        assert(s@ =~= top + summary_text(ls, i + 1));
        i = i + 1;
    }
    s.append("  ▸ ");
    s.append(bold);
    s.append(question);
    s.append(reset);
    s.append("  [y/N] ");
    s
}

/// Whether the word is a yes.
pub open spec fn is_yes_word(word: Seq<char>) -> bool {
    word == "y"@ || word == "yes"@
}

/// Whether the reply says yes: `y` or `yes`, in any case, blanks around it
/// aside.
pub open spec fn says_yes(reply: Seq<char>) -> bool {
    is_yes_word(lowered(trim(reply, Class::Blank)))
}

/// Whether the word, in lower case, is a yes.
pub fn means_yes(word: &str) -> (b: bool)
    ensures
        b == is_yes_word(word@),
{
    same_str(word, "y") || same_str(word, "yes")
}

/// Whether the reply says yes.
pub fn is_yes(input: &str) -> (b: bool)
    ensures
        b == says_yes(input@),
{
    let c: Vec<char> = chars_of(input);
    means_yes(lowercase(string_of(trimmed(c.as_slice(), Class::Blank)).as_str()).as_str())
}

/// Whether the setting `AUR_GUARD_ASSUME` stands in for a yes.
pub open spec fn assumes_yes(setting: Option<Seq<char>>) -> bool {
    match setting {
        Some(s) => s == "yes"@,
        None => false,
    }
}

/// What a prompt comes to: the reply from the terminal decides; without one
/// that from the standard input, if that is a terminal; without either the
/// setting `AUR_GUARD_ASSUME`.
pub open spec fn confirmed(
    tty_reply: Option<Seq<char>>,
    stdin_reply: Option<Seq<char>>,
    assume_setting: Option<Seq<char>>,
) -> bool {
    match tty_reply {
        Some(reply) => says_yes(reply),
        None => match stdin_reply {
            Some(reply) => says_yes(reply),
            None => assumes_yes(assume_setting),
        },
    }
}

/// Returns `true` on yes. On non-interactive use, where neither the terminal
/// nor the standard input gave a line, it honours `AUR_GUARD_ASSUME=yes`;
/// otherwise it blocks by default.
pub fn confirm(
    tty_reply: Option<&str>,
    stdin_reply: Option<&str>,
    assume_setting: Option<&str>,
) -> (b: bool)
    ensures
        b == confirmed(opt_str(tty_reply), opt_str(stdin_reply), opt_str(assume_setting)),
{
    if let Some(reply) = tty_reply {
        return is_yes(reply);
    }
    if let Some(reply) = stdin_reply {
        return is_yes(reply);
    }
    match assume_setting {
        Some(s) => same_str(s, "yes"),
        None => false,
    }
}

/// What a prompt says of a scan.
pub open spec fn build_summary(r: ResultView) -> Seq<char> {
    "tier "@ + r.tier.word() + "  (trust "@ + decimal(r.score) + "/100, "@ + decimal(
        r.findings.len() as int,
    ) + " finding(s))"@
}

/// The prompt on a single scan.
pub fn confirm_build(result: &ScanResult, color: bool, width: usize) -> (s: String)
    ensures
        s@ == prompt_text(
            "decision required"@,
            seq![build_summary(result@)],
            "continue with this build?"@,
            color,
            width as int,
        ),
{
    let mut line: String = "tier ".to_owned();
    line.append(result.tier.label());
    line.append("  (trust ");
    line.append(write_number(result.score as u64).as_str());
    line.append("/100, ");
    line.append(write_number(result.findings.len() as u64).as_str());
    line.append(" finding(s))");
    let mut summary: Vec<String> = Vec::new();
    summary.push(line);
    assert(strings(summary@) =~= seq![build_summary(result@)]);
    prompt_block("decision required", &summary, "continue with this build?", color, width)
}

// ---------------------------------------------------------------------------
// The log
// ---------------------------------------------------------------------------

/// The time that a log line begins with.
pub open spec fn stamp(secs: int) -> Seq<char> {
    "["@ + decimal(secs) + "]"@
}

/// The time that a log line begins with.
pub fn unix_timestamp(secs: u64) -> (s: String)
    ensures
        s@ == stamp(secs as int),
{
    let mut s: String = "[".to_owned();
    s.append(write_number(secs).as_str());
    s.append("]");
    s
}

/// The text, or `default` where there is none.
pub open spec fn text_or(t: Option<Seq<char>>, default: Seq<char>) -> Seq<char> {
    match t {
        Some(s) => s,
        None => default,
    }
}

/// The banner on the reputation, if it is known.
pub open spec fn reputation_note(rep: Option<ReputationView>, now: int) -> Option<Seq<char>> {
    match rep {
        Some(rep) => Some(reputation_text(rep, now)),
        None => None,
    }
}

/// Why the tier was promoted, or a dash.
pub open spec fn promotion_note(r: ResultView) -> Seq<char> {
    text_or(r.promoted_by_diff, "-"@)
}

/// The banner on the reputation, or a dash.
pub open spec fn standing_note(r: ResultView, secs: u64) -> Seq<char> {
    text_or(reputation_note(r.reputation, (secs as i64) as int), "-"@)
}

/// The log line on a scan, given the notes on promotion and reputation in
/// quotes.
pub open spec fn log_head(
    r: ResultView,
    secs: u64,
    promoted: Seq<char>,
    aur: Seq<char>,
) -> Seq<char> {
    stamp(secs as int) + " target="@ + r.path + " lines="@ + decimal(r.lines_scanned) + " tier="@
        + r.tier.word() + " score="@ + decimal(r.score) + " findings="@ + decimal(
        r.findings.len() as int,
    ) + " gate="@ + text_or(r.override_gate_fired, "-"@) + " promoted="@ + promoted + " aur="@
        + aur + "\n"@
}

/// `true` or `false`.
pub open spec fn bool_word(b: bool) -> Seq<char> {
    if b {
        "true"@
    } else {
        "false"@
    }
}

/// The log line on a finding, given its snippet in quotes.
pub open spec fn log_line(f: FindingView, secs: u64, snippet: Seq<char>) -> Seq<char> {
    stamp(secs as int) + "   ["@ + severity_of(f.points, f.override_gate).word() + "] "@
        + f.rule_id + " points="@ + decimal(f.points) + " gate="@ + bool_word(f.override_gate)
        + " new="@ + bool_word(f.is_new) + " src="@ + text_or(f.source_file, "PKGBUILD"@)
        + " line="@ + decimal(f.line) + " snippet="@ + snippet + "\n"@
}

/// The log lines on the first `n` findings.
pub open spec fn log_lines(fs: Seq<FindingView>, n: int, secs: u64) -> Seq<char>
    decreases n,
{
    if n <= 0 {
        Seq::empty()
    } else {
        log_lines(fs, n - 1, secs) + log_line(fs[n - 1], secs, debug_quoted(fs[n - 1].snippet))
    }
}

/// What the log holds on a scan at time `secs`.
pub open spec fn log_text(r: ResultView, secs: u64) -> Seq<char> {
    log_head(
        r,
        secs,
        debug_quoted(promotion_note(r)),
        debug_quoted(standing_note(r, secs)),
    ) + log_lines(r.findings, r.findings.len() as int, secs)
}

fn write_bool(b: bool) -> (s: &'static str)
    ensures
        s@ == bool_word(b),
{
    if b {
        "true"
    } else {
        "false"
    }
}

/// The log line on a scan, given the notes on promotion and reputation in
/// quotes.
pub fn write_log_head(result: &ScanResult, secs: u64, promoted: &str, aur: &str) -> (s: String)
    ensures
        s@ == log_head(result@, secs, promoted@, aur@),
{
    let mut s: String = unix_timestamp(secs);
    s.append(" target=");
    s.append(result.path.as_str());
    s.append(" lines=");
    s.append(write_number(result.lines_scanned as u64).as_str());
    s.append(" tier=");
    s.append(result.tier.label());
    s.append(" score=");
    s.append(write_number(result.score as u64).as_str());
    s.append(" findings=");
    s.append(write_number(result.findings.len() as u64).as_str());
    s.append(" gate=");
    match result.override_gate_fired {
        Some(id) => {
            s.append(id);
        },
        None => {
            s.append("-");
        },
    }
    s.append(" promoted=");
    s.append(promoted);
    s.append(" aur=");
    s.append(aur);
    s.append("\n");
    s
}

/// The log line on a finding, given its snippet in quotes.
pub fn write_log_line(f: &Finding, secs: u64, snippet: &str) -> (s: String)
    ensures
        s@ == log_line(f@, secs, snippet@),
{
    let mut s: String = unix_timestamp(secs);
    s.append("   [");
    s.append(f.severity().label());
    s.append("] ");
    s.append(f.rule_id);
    s.append(" points=");
    s.append(write_number(f.points as u64).as_str());
    s.append(" gate=");
    s.append(write_bool(f.override_gate));
    s.append(" new=");
    s.append(write_bool(f.is_new));
    s.append(" src=");
    match &f.source_file {
        Some(name) => {
            s.append(name.as_str());
        },
        None => {
            s.append("PKGBUILD");
        },
    }
    s.append(" line=");
    s.append(write_number(f.line as u64).as_str());
    s.append(" snippet=");
    s.append(snippet);
    s.append("\n");
    s
}

fn quoted_promotion(result: &ScanResult) -> (s: String)
    ensures
        s@ == debug_quoted(promotion_note(result@)),
        is_one_line(s@),
{
    match &result.promoted_by_diff {
        Some(reason) => quote(reason.as_str()),
        None => quote("-"),
    }
}

fn quoted_standing(result: &ScanResult, secs: u64) -> (s: String)
    ensures
        s@ == debug_quoted(standing_note(result@, secs)),
        is_one_line(s@),
{
    let now: i64 = #[verifier::truncate] (secs as i64);
    match &result.reputation {
        Some(rep) => quote(format_reputation(rep, now).as_str()),
        None => quote("-"),
    }
}

/// Whether what the log takes as it is holds no line feed: the path, the ids
/// of rules and the names of files.
pub open spec fn is_loggable(r: ResultView) -> bool {
    &&& is_one_line(r.path)
    &&& r.override_gate_fired matches Some(id) ==> is_one_line(id)
    &&& forall|i: int|
        0 <= i < r.findings.len() ==> is_one_line((#[trigger] r.findings[i]).rule_id) && (
        r.findings[i].source_file matches Some(name) ==> is_one_line(name))
}

proof fn lemma_words_are_one_line(t: Tier, s: Severity, n: int)
    requires
        0 <= n,
    ensures
        is_one_line(t.word()),
        is_one_line(s.word()),
        is_one_line(decimal(n)),
{
    reveal_strlit("TRUSTED");
    reveal_strlit("OK");
    reveal_strlit("SKETCHY");
    reveal_strlit("SUSPICIOUS");
    reveal_strlit("MALICIOUS");
    reveal_strlit("LOW");
    reveal_strlit("MEDIUM");
    reveal_strlit("HIGH");
    reveal_strlit("CRITICAL");
    crate::numeral::lemma_decimal(n);
    let d = decimal(n);
    assert forall|i: int| 0 <= i < d.len() implies #[trigger] d[i] != '\n' by {
        assert('0' <= d[i] <= '9');
    }
}

proof fn lemma_stamp_is_one_line(secs: u64)
    ensures
        is_one_line(stamp(secs as int)),
{
    reveal_strlit("[");
    reveal_strlit("]");
    lemma_words_are_one_line(Tier::Okay, Severity::Low, secs as int);
    lemma_one_line_concat("["@, decimal(secs as int), "]"@);
}

proof fn lemma_log_head_is_one_line(
    r: ResultView,
    secs: u64,
    promoted: Seq<char>,
    aur: Seq<char>,
)
    requires
        is_loggable(r),
        0 <= r.lines_scanned,
        0 <= r.score,
        is_one_line(promoted),
        is_one_line(aur),
    ensures
        lines(log_head(r, secs, promoted, aur)).len() == 1,
        log_head(r, secs, promoted, aur).last() == '\n',
{
    assert(is_one_line(" target="@)) by {
        reveal_strlit(" target=");
    }
    assert(is_one_line(" lines="@)) by {
        reveal_strlit(" lines=");
    }
    assert(is_one_line(" tier="@)) by {
        reveal_strlit(" tier=");
    }
    assert(is_one_line(" score="@)) by {
        reveal_strlit(" score=");
    }
    assert(is_one_line(" findings="@)) by {
        reveal_strlit(" findings=");
    }
    assert(is_one_line(" gate="@)) by {
        reveal_strlit(" gate=");
    }
    assert(is_one_line(" promoted="@)) by {
        reveal_strlit(" promoted=");
    }
    assert(is_one_line(" aur="@)) by {
        reveal_strlit(" aur=");
    }
    assert(is_one_line("-"@)) by {
        reveal_strlit("-");
    }
    lemma_stamp_is_one_line(secs);
    lemma_words_are_one_line(r.tier, Severity::Low, r.lines_scanned);
    lemma_words_are_one_line(r.tier, Severity::Low, r.score);
    lemma_words_are_one_line(r.tier, Severity::Low, r.findings.len() as int);
    let a0 = stamp(secs as int);
    let a1 = a0 + " target="@ + r.path;
    lemma_one_line_concat(a0, " target="@, r.path);
    let a2 = a1 + " lines="@ + decimal(r.lines_scanned);
    lemma_one_line_concat(a1, " lines="@, decimal(r.lines_scanned));
    let a3 = a2 + " tier="@ + r.tier.word();
    lemma_one_line_concat(a2, " tier="@, r.tier.word());
    let a4 = a3 + " score="@ + decimal(r.score);
    lemma_one_line_concat(a3, " score="@, decimal(r.score));
    let a5 = a4 + " findings="@ + decimal(r.findings.len() as int);
    lemma_one_line_concat(a4, " findings="@, decimal(r.findings.len() as int));
    let a6 = a5 + " gate="@ + text_or(r.override_gate_fired, "-"@);
    lemma_one_line_concat(a5, " gate="@, text_or(r.override_gate_fired, "-"@));
    let a7 = a6 + " promoted="@ + promoted;
    lemma_one_line_concat(a6, " promoted="@, promoted);
    let a8 = a7 + " aur="@ + aur;
    lemma_one_line_concat(a7, " aur="@, aur);
    lemma_ended_line(a8);
}

proof fn lemma_log_line_is_one_line(f: FindingView, secs: u64, snippet: Seq<char>)
    requires
        is_one_line(f.rule_id),
        f.source_file matches Some(name) ==> is_one_line(name),
        0 <= f.points,
        0 <= f.line,
        is_one_line(snippet),
    ensures
        lines(log_line(f, secs, snippet)).len() == 1,
        log_line(f, secs, snippet).last() == '\n',
{
    assert(is_one_line("   ["@)) by {
        reveal_strlit("   [");
    }
    assert(is_one_line("] "@)) by {
        reveal_strlit("] ");
    }
    assert(is_one_line(" points="@)) by {
        reveal_strlit(" points=");
    }
    assert(is_one_line(" gate="@)) by {
        reveal_strlit(" gate=");
    }
    assert(is_one_line(" new="@)) by {
        reveal_strlit(" new=");
    }
    assert(is_one_line(" src="@)) by {
        reveal_strlit(" src=");
    }
    assert(is_one_line(" line="@)) by {
        reveal_strlit(" line=");
    }
    assert(is_one_line(" snippet="@)) by {
        reveal_strlit(" snippet=");
    }
    assert(is_one_line("true"@)) by {
        reveal_strlit("true");
    }
    assert(is_one_line("false"@)) by {
        reveal_strlit("false");
    }
    assert(is_one_line("PKGBUILD"@)) by {
        reveal_strlit("PKGBUILD");
    }
    let sev = severity_of(f.points, f.override_gate);
    lemma_stamp_is_one_line(secs);
    lemma_words_are_one_line(Tier::Okay, sev, f.points);
    lemma_words_are_one_line(Tier::Okay, sev, f.line);
    let a0 = stamp(secs as int);
    let a1 = a0 + "   ["@ + sev.word();
    lemma_one_line_concat(a0, "   ["@, sev.word());
    let a2 = a1 + "] "@ + f.rule_id;
    lemma_one_line_concat(a1, "] "@, f.rule_id);
    let a3 = a2 + " points="@ + decimal(f.points);
    lemma_one_line_concat(a2, " points="@, decimal(f.points));
    let a4 = a3 + " gate="@ + bool_word(f.override_gate);
    lemma_one_line_concat(a3, " gate="@, bool_word(f.override_gate));
    let a5 = a4 + " new="@ + bool_word(f.is_new);
    lemma_one_line_concat(a4, " new="@, bool_word(f.is_new));
    let a6 = a5 + " src="@ + text_or(f.source_file, "PKGBUILD"@);
    lemma_one_line_concat(a5, " src="@, text_or(f.source_file, "PKGBUILD"@));
    let a7 = a6 + " line="@ + decimal(f.line);
    lemma_one_line_concat(a6, " line="@, decimal(f.line));
    let a8 = a7 + " snippet="@ + snippet;
    lemma_one_line_concat(a7, " snippet="@, snippet);
    lemma_ended_line(a8);
}

/// What is appended to the log on a scan at time `secs`: one line on the scan,
/// and one on each finding.
pub fn append_log(result: &ScanResult, secs: u64) -> (s: String)
    ensures
        s@ == log_text(result@, secs),
        is_loggable(result@) ==> lines(s@).len() == 1 + result@.findings.len(),
{
    let promoted: String = quoted_promotion(result);
    let aur: String = quoted_standing(result, secs);
    let mut s: String = write_log_head(result, secs, promoted.as_str(), aur.as_str());
    let ghost top = s@;
    let ghost fs = result@.findings;
    let ghost loggable = is_loggable(result@);
    proof {
        if loggable {
            lemma_log_head_is_one_line(result@, secs, promoted@, aur@);
        }
    }
    let mut i: usize = 0;
    assert(s@ =~= top + log_lines(fs, 0, secs));
    while i < result.findings.len()
        invariant
            i <= result.findings@.len(),
            fs == findings_view(result.findings@),
            fs == result@.findings,
            loggable == is_loggable(result@),
            s@ == top + log_lines(fs, i as int, secs),
            loggable ==> lines(s@).len() == 1 + i && s@.last() == '\n' && s@.len() > 0,
        decreases result.findings@.len() - i,
    {
        assert(fs[i as int] == result.findings@[i as int]@);
        let f: &Finding = &result.findings[i];
        let snippet: String = quote(f.snippet.as_str());
        let line: String = write_log_line(f, secs, snippet.as_str());
        let ghost before = s@;
        s.append(line.as_str());
        proof {
            if loggable {
                lemma_log_line_is_one_line(f@, secs, snippet@);
                lemma_lines_concat(before, line@);
            }
        }
        assert(s@ =~= top + log_lines(fs, i + 1, secs));
        i = i + 1;
    }
    s
}

// ---------------------------------------------------------------------------
// Laws
// ---------------------------------------------------------------------------

/// Without a terminal the answer is no, unless `AUR_GUARD_ASSUME` is `yes`.
pub proof fn law_blocks_without_terminal(assume_setting: Option<Seq<char>>)
    ensures
        confirmed(None, None, assume_setting) <==> assume_setting == Some("yes"@),
{
}

/// A reply from the terminal overrules `AUR_GUARD_ASSUME` and the standard
/// input.
pub proof fn law_terminal_decides(
    reply: Seq<char>,
    stdin_reply: Option<Seq<char>>,
    assume_setting: Option<Seq<char>>,
)
    ensures
        confirmed(Some(reply), stdin_reply, assume_setting) == says_yes(reply),
{
}

/// An empty reply is no.
pub proof fn law_empty_reply_is_no(reply: Seq<char>)
    requires
        forall|i: int| 0 <= i < reply.len() ==> is_blank(#[trigger] reply[i]),
    ensures
        !says_yes(reply),
{
    lemma_blank_start(reply);
    reveal_strlit("y");
    reveal_strlit("yes");
    let t = trim(reply, Class::Blank);
    assert(ascii_lowered(t).len() == 0);
    assert(vstd::utf8::is_ascii_chars(t));
}

proof fn lemma_escapes_are_one_line(t: Tier, color: bool)
    ensures
        is_one_line(bold(color)),
        is_one_line(dim(color)),
        is_one_line(reset(color)),
        is_one_line(t.paint()),
        is_one_line(t.word()),
{
    reveal_strlit("");
    reveal_strlit("\x1b[1m");
    reveal_strlit("\x1b[2m");
    reveal_strlit("\x1b[0m");
    reveal_strlit("\x1b[1;32m");
    reveal_strlit("\x1b[32m");
    reveal_strlit("\x1b[33m");
    reveal_strlit("\x1b[31m");
    reveal_strlit("\x1b[1;91m");
    reveal_strlit("TRUSTED");
    reveal_strlit("OK");
    reveal_strlit("SKETCHY");
    reveal_strlit("SUSPICIOUS");
    reveal_strlit("MALICIOUS");
}

proof fn lemma_opening(t: Tier, color: bool) -> (i: int)
    ensures
        is_one_line(opening(t, color)),
        occurs_at(opening(t, color), "["@ + t.word() + "]"@, i),
{
    lemma_escapes_are_one_line(t, color);
    reveal_strlit("aur-guard");
    reveal_strlit(" ");
    reveal_strlit("::");
    reveal_strlit("[");
    reveal_strlit("]");
    reveal_strlit("\x1b[0m");
    let name = "["@ + t.word() + "]"@;
    let before = bold(color) + "aur-guard"@ + reset(color) + " "@ + dim(color) + "::"@ + reset(
        color,
    ) + " "@;
    let lead = if color {
        before + t.paint()
    } else {
        before
    };
    let n = lead.len() as int;
    let o = opening(t, color);
    if color {
        assert(o =~= lead + name + "\x1b[0m"@);
    } else {
        assert(o =~= lead + name);
    }
    assert(o.subrange(n, n + name.len()) =~= name);
    n
}

proof fn lemma_first_line_begins(a: Seq<char>, rest: Seq<char>)
    requires
        is_one_line(a),
        a.len() > 0,
        a.last() != '\r',
    ensures
        begins(first_line(a + rest), a),
{
    let s = a + rest;
    let k = Class::Is('\n');
    lemma_find_from(s, k, 0);
    let e = find_from(s, k, 0);
    if e < a.len() {
        assert(s[e] == a[e]);
    }
    if e < s.len() {
        let head = s.subrange(0, e);
        assert(head.subrange(0, a.len() as int) =~= a);
        if head.last() == '\r' {
            if e == a.len() {
                assert(head.last() == a.last());
            }
            assert(head.drop_last().subrange(0, a.len() as int) =~= a);
        }
    } else {
        assert(s.subrange(0, s.len() as int).subrange(0, a.len() as int) =~= a);
    }
}

proof fn lemma_named_first(t: Tier, color: bool, rest: Seq<char>)
    ensures
        names_tier_first(opening(t, color) + rest, t),
        begins(first_line(opening(t, color) + rest), opening(t, color)),
{
    let o = opening(t, color);
    let i = lemma_opening(t, color);
    reveal_strlit("]");
    reveal_strlit("\x1b[0m");
    assert(o.last() != '\r');
    assert(o.len() > 0);
    lemma_first_line_begins(o, rest);
    let name = "["@ + t.word() + "]"@;
    let first = first_line(o + rest);
    assert(first.subrange(0, o.len() as int) == o);
    assert(first.subrange(i, i + name.len()) =~= o.subrange(i, i + name.len()));
    assert(occurs_at(first, name, i));
}

proof fn lemma_regroup(a: Seq<char>, b: Seq<char>, c: Seq<char>)
    ensures
        a + b + c == a + (b + c),
{
    assert(a + b + c =~= a + (b + c));
}

/// The tier stands on the first line of the report.
pub proof fn law_tier_is_on_the_first_line(r: ResultView, color: bool, width: int, now: int)
    ensures
        names_tier_first(report_text(r, color, width, now), r.tier),
        begins(first_line(report_text(r, color, width, now)), opening(r.tier, color)),
{
    lemma_regroup(opening(r.tier, color), subject(r, color), details(r, color, width, now));
    lemma_named_first(r.tier, color, subject(r, color) + details(r, color, width, now));
}

/// On a terminal wider than eight columns every line of a description fits,
/// four columns to spare.
pub proof fn law_descriptions_fit(f: FindingView, width: int)
    requires
        8 < width,
    ensures
        forall|i: int|
            0 <= i < lines(wrapped(f.description, description_columns(width), "    "@)).len()
                ==> (#[trigger] lines(wrapped(f.description, description_columns(width), "    "@))[i]).len()
                <= width - 4,
{
    reveal_strlit("    ");
    law_lines_fit(f.description, width - 4, "    "@);
}

/// On a terminal of 54 columns or more the place of a finding fits, where the
/// number of the line has three digits at most.
pub proof fn law_places_fit(f: FindingView, width: int)
    requires
        54 <= width,
        0 <= f.line < 1000,
    ensures
        place_text(f, false, snippet_columns(width)).len() <= width,
{
    reveal_strlit("    ");
    reveal_strlit("line ");
    reveal_strlit(":");
    reveal_strlit(" ");
    reveal_strlit("");
    reveal_with_fuel(decimal, 4);
    law_cut_display_fits(trim(f.snippet, Class::Blank), width - 14);
}

}
