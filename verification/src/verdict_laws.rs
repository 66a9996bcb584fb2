//! What a verdict rests on: how findings add up and are ordered, which of them
//! a scan, a bundle and an aggregate hold, and which of them are new. Each law
//! speaks of the findings themselves.

use vstd::prelude::*;

use crate::checks::mismatch_findings;
use crate::checks::skip_findings;
use crate::checks::source_findings;
use crate::diff::all_marked;
use crate::diff::escalated;
use crate::diff::heaviest_new;
use crate::diff::identifier;
use crate::diff::marked;
use crate::diff::trimmed_lines;
use crate::numeral::decimal;
use crate::ordering::law_order_is_stable;
use crate::ordering::law_order_permutes;
use crate::ordering::law_shown_in_order;
use crate::ordering::ordered;
use crate::ordering::outranks;
use crate::ordering::ties;
use crate::outside::regex_first_group;
use crate::outside::regex_matches;
use crate::patterns::RuleView;
use crate::patterns::SOURCE_PATTERN;
use crate::patterns::SUMS_PATTERN;
use crate::patterns::URL_PATTERN;
use crate::report::first_gate;
use crate::report::gate_from;
use crate::report::lemma_gate_exists;
use crate::report::severity_of;
use crate::report::tier_of;
use crate::report::total_points;
use crate::report::trust_of;
use crate::report::FindingView;
use crate::report::ResultView;
use crate::report::Severity;
use crate::report::Tier;
use crate::rpc::reputation_findings;
use crate::rpc::with_reputation;
use crate::rpc::AurInfoView;
use crate::rpc::TrackRecord;
use crate::scanner::bundle_lines;
use crate::scanner::bundle_verdict;
use crate::scanner::counted;
use crate::scanner::install_findings;
use crate::scanner::install_lines;
use crate::scanner::lemma_ordered_contains;
use crate::scanner::line_finding;
use crate::scanner::line_findings;
use crate::scanner::pooled;
use crate::scanner::pooled_findings;
use crate::scanner::pooled_gate;
use crate::scanner::pooled_lines;
use crate::scanner::pooled_promotion;
use crate::scanner::rule_findings;
use crate::scanner::rule_hits;
use crate::scanner::text_findings;
use crate::scanner::verdict_on;
use crate::text::byte_len;
use crate::text::cut;
use crate::text::lines;
use crate::text::trim;
use crate::text::Class;

verus! {

// ---------------------------------------------------------------------------
// The score
// ---------------------------------------------------------------------------

/// Points add up: those of two lists are those of the first and those of the
/// second, and a finding alone counts with its own.
pub proof fn law_points_add_up(a: Seq<FindingView>, b: Seq<FindingView>, f: FindingView)
    ensures
        total_points(a + b) == total_points(a) + total_points(b),
        total_points(seq![f]) == f.points,
        total_points(Seq::<FindingView>::empty()) == 0,
    decreases b.len(),
{
    assert(total_points(Seq::<FindingView>::empty()) == 0);
    assert(seq![f].drop_last() =~= Seq::<FindingView>::empty());
    if b.len() == 0 {
        assert(a + b =~= a);
    } else {
        assert((a + b).drop_last() =~= a + b.drop_last());
        law_points_add_up(a, b.drop_last(), f);
    }
}

/// Of several override gates the first among the findings is named. Where no
/// finding is of one, none is named.
pub proof fn law_first_gate_is_named(fs: Seq<FindingView>, i: int)
    requires
        0 <= i < fs.len(),
    ensures
        fs[i].override_gate && (forall|j: int| 0 <= j < i ==> !(#[trigger] fs[j]).override_gate)
            ==> first_gate(fs) == Some(fs[i].rule_id),
        (forall|j: int| 0 <= j < fs.len() ==> !(#[trigger] fs[j]).override_gate) ==> first_gate(fs)
            is None,
{
    lemma_gate_exists(fs, 0);
    if fs[i].override_gate && (forall|j: int|
        0 <= j < i ==> !(#[trigger] fs[j]).override_gate) {
        lemma_gate_at(fs, 0, i);
    }
}

proof fn lemma_gate_at(fs: Seq<FindingView>, from: int, i: int)
    requires
        0 <= from <= i < fs.len(),
        fs[i].override_gate,
        forall|j: int| 0 <= j < i ==> !(#[trigger] fs[j]).override_gate,
    ensures
        gate_from(fs, from) == i,
    decreases i - from,
{
    if from < i {
        assert(!fs[from].override_gate);
        lemma_gate_at(fs, from + 1, i);
    }
}

/// With no gate among the findings the trust is what their points leave of a
/// hundred, and nothing below nought; with one it is nought. The tier goes by
/// the trust.
pub proof fn law_score(fs: Seq<FindingView>, i: int)
    ensures
        0 <= i < fs.len() && fs[i].override_gate ==> trust_of(fs) == 0 && tier_of(fs)
            == Tier::Malicious,
        (forall|j: int| 0 <= j < fs.len() ==> !(#[trigger] fs[j]).override_gate) ==> {
            &&& total_points(fs) <= 100 ==> trust_of(fs) == 100 - total_points(fs)
            &&& total_points(fs) > 100 ==> trust_of(fs) == 0
            &&& total_points(fs) <= 10 ==> tier_of(fs) == Tier::Trusted
            &&& 10 < total_points(fs) <= 30 ==> tier_of(fs) == Tier::Okay
            &&& 30 < total_points(fs) <= 50 ==> tier_of(fs) == Tier::Sketchy
            &&& 50 < total_points(fs) <= 75 ==> tier_of(fs) == Tier::Suspicious
            &&& 75 < total_points(fs) ==> tier_of(fs) == Tier::Malicious
        },
{
    lemma_gate_exists(fs, 0);
}

/// How heavy a finding is shown: of a gate, or by its points.
pub proof fn law_severity_bands(points: int)
    ensures
        severity_of(points, true) == Severity::Critical,
        80 <= points ==> severity_of(points, false) == Severity::Critical,
        60 <= points < 80 ==> severity_of(points, false) == Severity::High,
        30 <= points < 60 ==> severity_of(points, false) == Severity::Medium,
        points < 30 ==> severity_of(points, false) == Severity::Low,
{
}

// ---------------------------------------------------------------------------
// The order
// ---------------------------------------------------------------------------

/// Of two findings that are shown, the earlier is of a gate where the later
/// is; of two alike in that, the earlier is new where the later is; of two
/// alike in both, the earlier has no fewer points; and of two alike in all
/// that, the earlier is on no later line.
pub proof fn law_order_of_two(fs: Seq<FindingView>, i: int, j: int)
    requires
        0 <= i < j < ordered(fs).len(),
    ensures
        ({
            let a = ordered(fs)[i];
            let b = ordered(fs)[j];
            &&& b.override_gate ==> a.override_gate
            &&& a.override_gate == b.override_gate && b.is_new ==> a.is_new
            &&& a.override_gate == b.override_gate && a.is_new == b.is_new ==> a.points
                >= b.points
            &&& a.override_gate == b.override_gate && a.is_new == b.is_new && a.points
                == b.points ==> a.line <= b.line
        }),
{
    law_shown_in_order(fs);
    assert(!outranks(ordered(fs)[j], ordered(fs)[i]));
}

/// Findings alike in gate, newness, points and line are shown in the order in
/// which they were found.
pub proof fn law_alike_findings_keep_their_order(
    fs: Seq<FindingView>,
    gate: bool,
    is_new: bool,
    points: int,
    line: int,
)
    ensures
        ordered(fs).filter(
            |x: FindingView|
                x.override_gate == gate && x.is_new == is_new && x.points == points && x.line
                    == line,
        ) == fs.filter(
            |x: FindingView|
                x.override_gate == gate && x.is_new == is_new && x.points == points && x.line
                    == line,
        ),
{
    let r = FindingView {
        rule_id: Seq::empty(),
        points,
        override_gate: gate,
        title: Seq::empty(),
        description: Seq::empty(),
        line,
        snippet: Seq::empty(),
        source_file: None,
        is_new,
    };
    let p = |x: FindingView|
        x.override_gate == gate && x.is_new == is_new && x.points == points && x.line == line;
    let q = |x: FindingView| ties(x, r);
    assert(forall|x: FindingView| #[trigger] p(x) == q(x));
    lemma_filters_agree(fs, p, q);
    lemma_filters_agree(ordered(fs), p, q);
    law_order_is_stable(fs, r);
}

proof fn lemma_filters_agree(
    fs: Seq<FindingView>,
    p: spec_fn(FindingView) -> bool,
    q: spec_fn(FindingView) -> bool,
)
    requires
        forall|x: FindingView| #[trigger] p(x) == q(x),
    ensures
        fs.filter(p) == fs.filter(q),
    decreases fs.len(),
{
    reveal(Seq::filter);
    if fs.len() > 0 {
        lemma_filters_agree(fs.drop_last(), p, q);
        assert(p(fs.last()) == q(fs.last()));
    }
}

/// Whether no finding stands behind one that goes after it: those of gates go
/// first, then what is new, then the heavier, then the earlier line.
pub open spec fn in_shown_order(fs: Seq<FindingView>) -> bool {
    forall|i: int, j: int|
        0 <= i < j < fs.len() ==> {
            let a = #[trigger] fs[i];
            let b = #[trigger] fs[j];
            &&& b.override_gate ==> a.override_gate
            &&& a.override_gate == b.override_gate && b.is_new ==> a.is_new
            &&& a.override_gate == b.override_gate && a.is_new == b.is_new ==> a.points
                >= b.points
            &&& a.override_gate == b.override_gate && a.is_new == b.is_new && a.points
                == b.points ==> a.line <= b.line
        }
}

/// What a scan, a bundle and the AUR record hand on is in order, whatever was
/// found and however much.
pub proof fn law_results_are_in_order(
    rules: Seq<RuleView>,
    path: Seq<char>,
    content: Seq<char>,
    files: Seq<(Seq<char>, Seq<char>)>,
    n: int,
    r: ResultView,
    info: AurInfoView,
    now: int,
    last_seen: Option<Seq<char>>,
    record: TrackRecord,
)
    ensures
        in_shown_order(verdict_on(path, text_findings(rules, content), n).findings),
        in_shown_order(bundle_verdict(rules, path, content, files).findings),
        reputation_findings(info, now, last_seen, record.established).len() > 0 ==> in_shown_order(
            with_reputation(r, info, now, last_seen, record).findings,
        ),
{
    let fs = text_findings(rules, content);
    lemma_in_shown_order(fs);
    lemma_in_shown_order(ordered(fs) + install_findings(rules, files, files.len() as int));
    lemma_in_shown_order(
        r.findings + reputation_findings(info, now, last_seen, record.established),
    );
}

proof fn lemma_in_shown_order(fs: Seq<FindingView>)
    ensures
        in_shown_order(ordered(fs)),
{
    law_shown_in_order(fs);
    let o = ordered(fs);
    assert forall|i: int, j: int| 0 <= i < j < o.len() implies {
        let a = #[trigger] o[i];
        let b = #[trigger] o[j];
        &&& b.override_gate ==> a.override_gate
        &&& a.override_gate == b.override_gate && b.is_new ==> a.is_new
        &&& a.override_gate == b.override_gate && a.is_new == b.is_new ==> a.points >= b.points
        &&& a.override_gate == b.override_gate && a.is_new == b.is_new && a.points == b.points
            ==> a.line <= b.line
    } by {
        assert(!outranks(o[j], o[i]));
    }
}

// ---------------------------------------------------------------------------
// What a scan holds
// ---------------------------------------------------------------------------

/// A finding of a rule says what the rule says, and where: the number of the
/// line, and the line itself without the blanks around it where that takes 240
/// bytes at most. It is of the PKGBUILD and not yet known to be new.
pub proof fn law_finding_of_a_rule(rule: RuleView, line: Seq<char>, number: int)
    ensures
        ({
            let f = line_finding(rule, line, number);
            let shown = trim(line, Class::Blank);
            &&& f.rule_id == rule.id
            &&& f.points == rule.points
            &&& f.override_gate == rule.override_gate
            &&& f.title == rule.title
            &&& f.description == rule.description
            &&& f.line == number
            &&& byte_len(shown) <= 240 ==> f.snippet == shown
            &&& byte_len(shown) > 240 ==> f.snippet == cut(shown, 240)
            &&& f.source_file is None
            &&& !f.is_new
        }),
{
}

/// On each line as many findings are reported as rules match it.
pub proof fn law_as_many_findings_as_matches(
    rules: Seq<RuleView>,
    ls: Seq<Seq<char>>,
    n: int,
)
    requires
        0 < n <= ls.len(),
    ensures
        rule_findings(rules, ls, n).len() == rule_findings(rules, ls, n - 1).len() + rules.filter(
            |r: RuleView| crate::outside::regex_finds(r.pattern, ls[n - 1]),
        ).len(),
        rule_findings(rules, ls, 0).len() == 0,
{
    lemma_line_len(rules, ls[n - 1], n, rules.len() as int);
    assert(rules.take(rules.len() as int) =~= rules);
}

proof fn lemma_line_len(rules: Seq<RuleView>, line: Seq<char>, number: int, n: int)
    requires
        0 <= n <= rules.len(),
    ensures
        line_findings(rules, rule_hits(rules, line), line, number, n).len() == rules.take(n).filter(
            |r: RuleView| crate::outside::regex_finds(r.pattern, line),
        ).len(),
    decreases n,
{
    reveal(Seq::filter);
    if n > 0 {
        lemma_line_len(rules, line, number, n - 1);
        assert(rules.take(n).drop_last() =~= rules.take(n - 1));
        assert(rules.take(n).last() == rules[n - 1]);
    }
}

/// What the rules find comes line by line, and on a line rule by rule.
pub proof fn law_findings_come_line_by_line(
    rules: Seq<RuleView>,
    ls: Seq<Seq<char>>,
    n: int,
    hits: Seq<bool>,
    line: Seq<char>,
    number: int,
    k: int,
)
    requires
        0 < n <= ls.len(),
        0 < k <= rules.len(),
    ensures
        rule_findings(rules, ls, n) == rule_findings(rules, ls, n - 1) + line_findings(
            rules,
            rule_hits(rules, ls[n - 1]),
            ls[n - 1],
            n,
            rules.len() as int,
        ),
        hits[k - 1] ==> line_findings(rules, hits, line, number, k) == line_findings(
            rules,
            hits,
            line,
            number,
            k - 1,
        ) + seq![line_finding(rules[k - 1], line, number)],
        !hits[k - 1] ==> line_findings(rules, hits, line, number, k) == line_findings(
            rules,
            hits,
            line,
            number,
            k - 1,
        ),
        line_findings(rules, hits, line, number, 0).len() == 0,
        rule_hits(rules, line).len() == rules.len(),
        rule_hits(rules, line)[k - 1] == crate::outside::regex_finds(rules[k - 1].pattern, line),
{
    let before = line_findings(rules, hits, line, number, k - 1);
    let f = line_finding(rules[k - 1], line, number);
    assert(before.push(f) =~= before + seq![f]);
}

/// A scan holds what the rules find and what each of the checks finds, and
/// nothing else; the checks are given all that the field patterns match.
pub proof fn law_scan_holds_all(
    rules: Seq<RuleView>,
    path: Seq<char>,
    content: Seq<char>,
    n: int,
    f: FindingView,
)
    ensures
        ({
            let r = verdict_on(path, text_findings(rules, content), n);
            let by_rules = rule_findings(rules, lines(content), lines(content).len() as int);
            let skips = skip_findings(content, regex_matches(SUMS_PATTERN@, content));
            let plain = source_findings(content, regex_matches(SOURCE_PATTERN@, content));
            let foreign = mismatch_findings(
                content,
                regex_first_group(URL_PATTERN@, content),
                regex_matches(SOURCE_PATTERN@, content),
            );
            &&& r.findings.contains(f) <==> by_rules.contains(f) || skips.contains(f)
                || plain.contains(f) || foreign.contains(f)
            &&& r.findings.len() == by_rules.len() + skips.len() + plain.len() + foreign.len()
            &&& r.findings == ordered(by_rules + skips + plain + foreign)
            &&& r.path == path
            &&& r.lines_scanned == n
            &&& r.score == trust_of(r.findings)
            &&& r.tier == tier_of(r.findings)
            &&& r.override_gate_fired == first_gate(r.findings)
            &&& r.promoted_by_diff is None
            &&& r.reputation is None
        }),
{
    let all = text_findings(rules, content);
    let a = rule_findings(rules, lines(content), lines(content).len() as int);
    let b = skip_findings(content, regex_matches(SUMS_PATTERN@, content));
    let c = source_findings(content, regex_matches(SOURCE_PATTERN@, content));
    let d = mismatch_findings(
        content,
        regex_first_group(URL_PATTERN@, content),
        regex_matches(SOURCE_PATTERN@, content),
    );
    law_order_permutes(all);
    lemma_ordered_contains(all, f);
    lemma_contains_either(a, b, f);
    lemma_contains_either(a + b, c, f);
    lemma_contains_either(a + b + c, d, f);
}

proof fn lemma_contains_either(a: Seq<FindingView>, b: Seq<FindingView>, f: FindingView)
    ensures
        (a + b).contains(f) <==> a.contains(f) || b.contains(f),
{
    let s = a + b;
    if a.contains(f) {
        let i = choose|i: int| 0 <= i < a.len() && a[i] == f;
        assert(s[i] == f);
    }
    if b.contains(f) {
        let i = choose|i: int| 0 <= i < b.len() && b[i] == f;
        assert(s[a.len() + i] == f);
    }
    if s.contains(f) {
        let i = choose|i: int| 0 <= i < s.len() && s[i] == f;
        if i < a.len() {
            assert(a[i] == f);
        } else {
            assert(b[i - a.len()] == f);
        }
    }
}

/// A bundle holds what its PKGBUILD gives rise to, and what each scriptlet
/// gives rise to under its name, and nothing else.
pub proof fn law_bundle_holds_all(
    rules: Seq<RuleView>,
    path: Seq<char>,
    pkgbuild: Seq<char>,
    files: Seq<(Seq<char>, Seq<char>)>,
    f: FindingView,
)
    ensures
        bundle_verdict(rules, path, pkgbuild, files).findings.contains(f) <==> (text_findings(
            rules,
            pkgbuild,
        ).contains(f) || exists|i: int, g: FindingView|
            0 <= i < files.len() && #[trigger] text_findings(rules, files[i].1).contains(g) && f
                == (FindingView { source_file: Some(files[i].0), ..g })),
{
    let top = ordered(text_findings(rules, pkgbuild));
    let more = install_findings(rules, files, files.len() as int);
    lemma_ordered_contains(top + more, f);
    lemma_ordered_contains(text_findings(rules, pkgbuild), f);
    lemma_contains_either(top, more, f);
    lemma_installs_contain(rules, files, files.len() as int, f);
}

proof fn lemma_installs_contain(
    rules: Seq<RuleView>,
    files: Seq<(Seq<char>, Seq<char>)>,
    n: int,
    f: FindingView,
)
    requires
        0 <= n <= files.len(),
    ensures
        install_findings(rules, files, n).contains(f) <==> exists|i: int, g: FindingView|
            0 <= i < n && #[trigger] text_findings(rules, files[i].1).contains(g) && f == (
            FindingView { source_file: Some(files[i].0), ..g }),
    decreases n,
{
    if n > 0 {
        lemma_installs_contain(rules, files, n - 1, f);
        let before = install_findings(rules, files, n - 1);
        let fs = text_findings(rules, files[n - 1].1);
        let o = ordered(fs);
        let name = files[n - 1].0;
        let last = crate::scanner::all_from_file(o, name);
        lemma_contains_either(before, last, f);
        if last.contains(f) {
            let k = choose|k: int| 0 <= k < last.len() && last[k] == f;
            let g = o[k];
            assert(o.contains(g));
            lemma_ordered_contains(fs, g);
            assert(fs.contains(g));
            assert(text_findings(rules, files[n - 1].1).contains(g));
            assert(f == (FindingView { source_file: Some(name), ..g }));
        }
        if before.contains(f) {
            let (i, g) = choose|i: int, g: FindingView|
                0 <= i < n - 1 && #[trigger] text_findings(rules, files[i].1).contains(g) && f
                    == (FindingView { source_file: Some(files[i].0), ..g });
            assert(text_findings(rules, files[i].1).contains(g));
        }
        if exists|i: int, g: FindingView|
            0 <= i < n && #[trigger] text_findings(rules, files[i].1).contains(g) && f == (
            FindingView { source_file: Some(files[i].0), ..g }) {
            let (i, g) = choose|i: int, g: FindingView|
                0 <= i < n && #[trigger] text_findings(rules, files[i].1).contains(g) && f == (
                FindingView { source_file: Some(files[i].0), ..g });
            if i == n - 1 {
                lemma_ordered_contains(fs, g);
                let k = choose|k: int| 0 <= k < o.len() && o[k] == g;
                assert(last[k] == f);
            } else {
                assert(text_findings(rules, files[i].1).contains(g));
            }
        }
    }
}

/// The lines of a bundle are those of its PKGBUILD and those of each
/// scriptlet, and no finding is lost or doubled when one more joins it.
pub proof fn law_bundle_adds_up(
    rules: Seq<RuleView>,
    path: Seq<char>,
    pkgbuild: Seq<char>,
    files: Seq<(Seq<char>, Seq<char>)>,
    added: (Seq<char>, Seq<char>),
)
    ensures
        bundle_lines(pkgbuild, files.push(added)) == bundle_lines(pkgbuild, files) + lines(
            added.1,
        ).len(),
        bundle_lines(pkgbuild, Seq::<(Seq<char>, Seq<char>)>::empty()) == lines(pkgbuild).len(),
        bundle_verdict(rules, path, pkgbuild, files).lines_scanned == counted(
            bundle_lines(pkgbuild, files),
        ),
        bundle_verdict(rules, path, pkgbuild, files).path == path,
        bundle_verdict(rules, path, pkgbuild, files.push(added)).findings.len() == bundle_verdict(
            rules,
            path,
            pkgbuild,
            files,
        ).findings.len() + text_findings(rules, added.1).len(),
{
    let more = files.push(added);
    let n = files.len() as int;
    lemma_installs_prefix(rules, files, added, n);
    let top = ordered(text_findings(rules, pkgbuild));
    law_order_permutes(top + install_findings(rules, files, n));
    law_order_permutes(top + install_findings(rules, more, n + 1));
    law_order_permutes(text_findings(rules, added.1));
    assert(more[n] == added);
}

proof fn lemma_installs_prefix(
    rules: Seq<RuleView>,
    files: Seq<(Seq<char>, Seq<char>)>,
    added: (Seq<char>, Seq<char>),
    n: int,
)
    requires
        0 <= n <= files.len(),
    ensures
        install_findings(rules, files.push(added), n) == install_findings(rules, files, n),
        install_lines(files.push(added), n) == install_lines(files, n),
    decreases n,
{
    if n > 0 {
        lemma_installs_prefix(rules, files, added, n - 1);
        assert(files.push(added)[n - 1] == files[n - 1]);
    }
}

// ---------------------------------------------------------------------------
// Aggregates
// ---------------------------------------------------------------------------

proof fn lemma_pool_prefix(rs: Seq<ResultView>, r: ResultView, n: int)
    requires
        0 <= n <= rs.len(),
    ensures
        pooled_findings(rs.push(r), n) == pooled_findings(rs, n),
        pooled_lines(rs.push(r), n) == pooled_lines(rs, n),
    decreases n,
{
    if n > 0 {
        lemma_pool_prefix(rs, r, n - 1);
        assert(rs.push(r)[n - 1] == rs[n - 1]);
    }
}

/// An aggregate holds the findings of each result, one result after the other,
/// and counts the lines of all.
pub proof fn law_pool_adds_up(rs: Seq<ResultView>, r: ResultView, label: Seq<char>)
    ensures
        pooled(rs.push(r), label).findings == pooled(rs, label).findings + r.findings,
        pooled_lines(rs.push(r), rs.len() as int + 1) == pooled_lines(rs, rs.len() as int)
            + r.lines_scanned,
        pooled(rs, label).lines_scanned == counted(pooled_lines(rs, rs.len() as int)),
        pooled(rs, label).path == label,
        pooled(rs, label).reputation is None,
        pooled(Seq::<ResultView>::empty(), label).findings.len() == 0,
        pooled(Seq::<ResultView>::empty(), label).lines_scanned == 0,
        pooled(Seq::<ResultView>::empty(), label).score == 100,
        pooled(Seq::<ResultView>::empty(), label).tier == Tier::Trusted,
{
    lemma_pool_prefix(rs, r, rs.len() as int);
    assert(rs.push(r)[rs.len() as int] == r);
    crate::scanner::law_lines_are_counted(0);
}

proof fn lemma_pool_firsts(rs: Seq<ResultView>, from: int, i: int)
    requires
        0 <= from <= i < rs.len(),
    ensures
        rs[i].override_gate_fired is Some && (forall|j: int|
            from <= j < i ==> (#[trigger] rs[j]).override_gate_fired is None) ==> pooled_gate(
            rs,
            from,
        ) == rs[i].override_gate_fired,
        rs[i].promoted_by_diff is Some && (forall|j: int|
            from <= j < i ==> (#[trigger] rs[j]).promoted_by_diff is None) ==> pooled_promotion(
            rs,
            from,
        ) == rs[i].promoted_by_diff,
    decreases i - from,
{
    if from < i {
        lemma_pool_firsts(rs, from + 1, i);
    }
}

proof fn lemma_pool_none(rs: Seq<ResultView>, from: int)
    requires
        0 <= from <= rs.len(),
    ensures
        (forall|j: int| from <= j < rs.len() ==> (#[trigger] rs[j]).override_gate_fired is None)
            ==> pooled_gate(rs, from) is None,
        (forall|j: int| from <= j < rs.len() ==> (#[trigger] rs[j]).promoted_by_diff is None)
            ==> pooled_promotion(rs, from) is None,
    decreases rs.len() - from,
{
    if from < rs.len() {
        lemma_pool_none(rs, from + 1);
    }
}

/// An aggregate names an override gate and a promotion where a result has one,
/// those of the first such result.
pub proof fn law_pool_names_the_first(rs: Seq<ResultView>, label: Seq<char>, i: int)
    requires
        0 <= i < rs.len(),
    ensures
        rs[i].override_gate_fired is Some && (forall|j: int|
            0 <= j < i ==> (#[trigger] rs[j]).override_gate_fired is None) ==> pooled(
            rs,
            label,
        ).override_gate_fired == rs[i].override_gate_fired,
        rs[i].promoted_by_diff is Some && (forall|j: int|
            0 <= j < i ==> (#[trigger] rs[j]).promoted_by_diff is None) ==> pooled(
            rs,
            label,
        ).promoted_by_diff == rs[i].promoted_by_diff,
        (forall|j: int| 0 <= j < rs.len() ==> (#[trigger] rs[j]).override_gate_fired is None)
            ==> pooled(rs, label).override_gate_fired is None,
        (forall|j: int| 0 <= j < rs.len() ==> (#[trigger] rs[j]).promoted_by_diff is None)
            ==> pooled(rs, label).promoted_by_diff is None,
{
    lemma_pool_firsts(rs, 0, i);
    lemma_pool_none(rs, 0);
}

// ---------------------------------------------------------------------------
// What is new
// ---------------------------------------------------------------------------

/// A finding of the PKGBUILD itself is marked exactly where its line, without
/// the blanks around it, is not empty and is no line of the previous version
/// without the blanks around it. Which place the line has in either version
/// makes no difference.
pub proof fn law_marks_are_complete(
    fs: Seq<FindingView>,
    previous: Seq<char>,
    current: Seq<char>,
    i: int,
)
    requires
        0 <= i < fs.len(),
        fs[i].source_file is None,
        1 <= fs[i].line <= lines(current).len(),
    ensures
        ({
            let line = trim(lines(current)[fs[i].line - 1], Class::Blank);
            let was_there = exists|j: int|
                0 <= j < lines(previous).len() && trim(
                    #[trigger] lines(previous)[j],
                    Class::Blank,
                ) == line;
            all_marked(fs, previous, current)[i].is_new <==> fs[i].is_new || (line.len() > 0
                && !was_there)
        }),
{
    let line = trim(lines(current)[fs[i].line - 1], Class::Blank);
    let olds = trimmed_lines(previous);
    assert(trimmed_lines(current)[fs[i].line - 1] == line);
    if olds.contains(line) {
        let j = choose|j: int| 0 <= j < olds.len() && olds[j] == line;
        assert(trim(lines(previous)[j], Class::Blank) == line);
    }
    if exists|j: int|
        0 <= j < lines(previous).len() && trim(#[trigger] lines(previous)[j], Class::Blank)
            == line {
        let j = choose|j: int|
            0 <= j < lines(previous).len() && trim(#[trigger] lines(previous)[j], Class::Blank)
                == line;
        assert(olds[j] == line);
    }
}

/// A finding of another file, or on no line of the current version, keeps its
/// mark. One that names line 0 goes by the first line.
pub proof fn law_marks_on_other_findings(
    f: FindingView,
    previous: Seq<char>,
    current: Seq<char>,
)
    ensures
        f.source_file is Some || f.line > lines(current).len() ==> marked(f, previous, current)
            == f,
        f.line == 0 ==> marked(f, previous, current).is_new == marked(
            FindingView { line: 1, ..f },
            previous,
            current,
        ).is_new,
{
}

/// Every finding is looked at, and keeps its place.
pub proof fn law_every_finding_is_marked(
    a: Seq<FindingView>,
    b: Seq<FindingView>,
    previous: Seq<char>,
    current: Seq<char>,
)
    ensures
        all_marked(a + b, previous, current) == all_marked(a, previous, current) + all_marked(
            b,
            previous,
            current,
        ),
        all_marked(a, previous, current).len() == a.len(),
{
    assert(all_marked(a + b, previous, current) =~= all_marked(a, previous, current) + all_marked(
        b,
        previous,
        current,
    ));
}

proof fn lemma_heaviest(fs: Seq<FindingView>, n: int, i: int)
    requires
        0 <= i < n <= fs.len(),
        fs[i].is_new,
        forall|j: int| 0 <= j < n && (#[trigger] fs[j]).is_new ==> fs[j].points <= fs[i].points,
        forall|j: int| 0 <= j < i && (#[trigger] fs[j]).is_new ==> fs[j].points < fs[i].points,
    ensures
        heaviest_new(fs, n) == Some(fs[i]),
    decreases n,
{
    if i < n - 1 {
        lemma_heaviest(fs, n - 1, i);
        assert(fs[n - 1].is_new ==> fs[n - 1].points <= fs[i].points);
    } else {
        lemma_lighter(fs, n - 1, fs[i].points);
    }
}

proof fn lemma_lighter(fs: Seq<FindingView>, n: int, points: int)
    requires
        0 <= n <= fs.len(),
        forall|j: int| 0 <= j < n && (#[trigger] fs[j]).is_new ==> fs[j].points < points,
    ensures
        heaviest_new(fs, n) matches Some(b) ==> b.points < points,
    decreases n,
{
    if n > 0 {
        lemma_lighter(fs, n - 1, points);
        assert(fs[n - 1].is_new ==> fs[n - 1].points < points);
    }
}

/// What a promotion says and does, where the new finding at place `i` is the
/// heaviest of the new ones, and the first of those as heavy: from 80 points
/// on a milder result becomes malicious with no trust left, from 60 on it
/// becomes suspicious and keeps its score, and the reason names that finding.
/// Below 60 points, and where the result is as bad already, nothing changes.
pub proof fn law_promotion(r: ResultView, i: int)
    requires
        0 <= i < r.findings.len(),
        r.findings[i].is_new,
        forall|j: int|
            0 <= j < r.findings.len() && (#[trigger] r.findings[j]).is_new ==> r.findings[j].points
                <= r.findings[i].points,
        forall|j: int|
            0 <= j < i && (#[trigger] r.findings[j]).is_new ==> r.findings[j].points
                < r.findings[i].points,
    ensures
        ({
            let f = r.findings[i];
            let e = escalated(r);
            let why = "newly-introduced finding "@ + f.rule_id + " ("@ + decimal(f.points)
                + " pts) — promoted to "@;
            &&& f.points >= 80 && r.tier.level() < 4 ==> {
                &&& e.tier == Tier::Malicious
                &&& e.score == 0
                &&& e.promoted_by_diff == Some(why + "MALICIOUS"@)
            }
            &&& 60 <= f.points < 80 && r.tier.level() < 3 ==> {
                &&& e.tier == Tier::Suspicious
                &&& e.score == r.score
                &&& e.promoted_by_diff == Some(why + "SUSPICIOUS"@)
            }
            &&& f.points < 60 || r.tier.level() == 4 || (f.points < 80 && r.tier.level() == 3)
                ==> e == r
            &&& e.findings == r.findings
            &&& e.path == r.path
            &&& e.lines_scanned == r.lines_scanned
            &&& e.override_gate_fired == r.override_gate_fired
            &&& e.reputation == r.reputation
        }),
{
    lemma_heaviest(r.findings, r.findings.len() as int, i);
}

/// Without a new finding nothing is promoted.
pub proof fn law_nothing_new_no_promotion(r: ResultView)
    requires
        forall|j: int| 0 <= j < r.findings.len() ==> !(#[trigger] r.findings[j]).is_new,
    ensures
        escalated(r) == r,
{
    lemma_none_new(r.findings, r.findings.len() as int);
}

proof fn lemma_none_new(fs: Seq<FindingView>, n: int)
    requires
        0 <= n <= fs.len(),
        forall|j: int| 0 <= j < fs.len() ==> !(#[trigger] fs[j]).is_new,
    ensures
        heaviest_new(fs, n) is None,
    decreases n,
{
    if n > 0 {
        lemma_none_new(fs, n - 1);
    }
}

/// A package goes by its base where it names one, else by its name.
pub proof fn law_base_before_name(base: Seq<char>, name: Option<Seq<char>>)
    ensures
        identifier(Some(base), name) == Some(base),
        identifier(None, name) == name,
{
}

}
