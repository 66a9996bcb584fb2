//! The scan of a PKGBUILD: the detection rules line by line, and the checks
//! of its checksum, source and upstream fields.

use vstd::prelude::*;

use crate::checks::are_placed;
use crate::checks::check_skip_checksums;
use crate::checks::check_source_array;
use crate::checks::check_url_vs_sources;
use crate::checks::lemma_checks;
use crate::checks::mismatch_findings;
use crate::checks::skip_findings;
use crate::checks::source_findings;
use crate::checks::AG080_TITLE;
use crate::checks::AG081_TITLE;
use crate::checks::AG082_TITLE;
use crate::checks::AG083_TITLE;
use crate::checks::SNIPPET_MAX;
use crate::ordering::law_order_is_idempotent;
use crate::ordering::law_order_keeps_score;
use crate::ordering::law_order_permutes;
use crate::ordering::ordered;
use crate::ordering::sort_findings;
use crate::outside::is_match;
use crate::outside::regex_finds;
use crate::outside::regex_first_group;
use crate::outside::regex_matches;
use crate::patterns::build_rules;
use crate::patterns::rule_table;
use crate::patterns::rules_view;
use crate::patterns::Rule;
use crate::patterns::RuleView;
use crate::patterns::SOURCE_PATTERN;
use crate::patterns::SUMS_PATTERN;
use crate::patterns::URL_PATTERN;
use crate::report::are_weighed;
use crate::report::findings_view;
use crate::report::first_gate;
use crate::report::has_gate;
use crate::report::law_gate_is_malicious;
use crate::report::law_more_findings_never_help;
use crate::report::lemma_gate_in_either;
use crate::report::lemma_points_not_negative;
use crate::report::no_lighter;
use crate::report::opt_id;
use crate::report::opt_text;
use crate::report::score;
use crate::report::tier_index;
use crate::report::tier_of;
use crate::report::total_points;
use crate::report::trust_of;
use crate::report::Finding;
use crate::report::FindingView;
use crate::report::ResultView;
use crate::report::ScanResult;
use crate::report::Tier;
use crate::rpc::meta_rule;
use crate::rpc::meta_rule_view;
use crate::rpc::meta_rules_view;
use crate::rpc::MetaRule;
use crate::rpc::MetaRuleView;
use crate::text::chars_of;
use crate::text::cut;
use crate::text::fields;
use crate::text::lines;
use crate::text::slices;
use crate::text::split_lines;
use crate::text::string_of;
use crate::text::trim;
use crate::text::trimmed;
use crate::text::truncate;
use crate::text::Class;

verus! {

// ---------------------------------------------------------------------------
// The scan
// ---------------------------------------------------------------------------

/// A match of `rule` on line `number`, which reads `line`. The snippet is the
/// full source line rather than just the match: it gives the user enough
/// context to tell a real command from a mention in a help text.
pub open spec fn line_finding(rule: RuleView, line: Seq<char>, number: int) -> FindingView {
    FindingView {
        rule_id: rule.id,
        points: rule.points,
        override_gate: rule.override_gate,
        title: rule.title,
        description: rule.description,
        line: number,
        snippet: cut(trim(line, Class::Blank), SNIPPET_MAX as int),
        source_file: None,
        is_new: false,
    }
}

/// The matches on one line among the first `n` rules, given which of the
/// rules match it.
pub open spec fn line_findings(
    rules: Seq<RuleView>,
    hits: Seq<bool>,
    line: Seq<char>,
    number: int,
    n: int,
) -> Seq<FindingView>
    decreases n,
{
    if n <= 0 {
        Seq::empty()
    } else if hits[n - 1] {
        line_findings(rules, hits, line, number, n - 1).push(
            line_finding(rules[n - 1], line, number),
        )
    } else {
        line_findings(rules, hits, line, number, n - 1)
    }
}

/// Which of the rules match the line.
pub open spec fn rule_hits(rules: Seq<RuleView>, line: Seq<char>) -> Seq<bool> {
    Seq::new(rules.len(), |i: int| regex_finds(rules[i].pattern, line))
}

/// The matches on the first `n` lines. Comment lines are not skipped: a
/// commented-out payload is still worth flagging.
pub open spec fn rule_findings(
    rules: Seq<RuleView>,
    lines: Seq<Seq<char>>,
    n: int,
) -> Seq<FindingView>
    decreases n,
{
    if n <= 0 {
        Seq::empty()
    } else {
        rule_findings(rules, lines, n - 1) + line_findings(
            rules,
            rule_hits(rules, lines[n - 1]),
            lines[n - 1],
            n,
            rules.len() as int,
        )
    }
}

/// All that the text gives rise to, in the order in which it is found.
pub open spec fn text_findings(rules: Seq<RuleView>, content: Seq<char>) -> Seq<FindingView> {
    rule_findings(rules, lines(content), lines(content).len() as int) + skip_findings(
        content,
        regex_matches(SUMS_PATTERN@, content),
    ) + source_findings(content, regex_matches(SOURCE_PATTERN@, content)) + mismatch_findings(
        content,
        regex_first_group(URL_PATTERN@, content),
        regex_matches(SOURCE_PATTERN@, content),
    )
}

/// The verdict on findings: they are put in order, and score, tier and gate
/// follow from them.
pub open spec fn verdict_on(
    path: Seq<char>,
    findings: Seq<FindingView>,
    lines_scanned: int,
) -> ResultView {
    ResultView {
        path,
        findings: ordered(findings),
        lines_scanned,
        score: trust_of(ordered(findings)),
        tier: tier_of(ordered(findings)),
        override_gate_fired: first_gate(ordered(findings)),
        promoted_by_diff: None,
        reputation: None,
    }
}

/// Appends to `out` the matches on one line, given which of the rules match
/// it.
pub fn push_line_findings(
    rules: &Vec<Rule>,
    hits: &Vec<bool>,
    line: &[char],
    number: usize,
    out: &mut Vec<Finding>,
)
    requires
        hits@.len() == rules@.len(),
    ensures
        findings_view(final(out)@) == findings_view(old(out)@) + line_findings(
            rules_view(rules@),
            hits@,
            line@,
            number as int,
            rules@.len() as int,
        ),
{
    let ghost given = findings_view(out@);
    let ghost rs = rules_view(rules@);
    let mut i: usize = 0;
    assert(findings_view(out@) =~= given + line_findings(rs, hits@, line@, number as int, 0));
    while i < rules.len()
        invariant
            i <= rules@.len(),
            hits@.len() == rules@.len(),
            rs == rules_view(rules@),
            findings_view(out@) == given + line_findings(
                rs,
                hits@,
                line@,
                number as int,
                i as int,
            ),
        decreases rules@.len() - i,
    {
        assert(rs[i as int] == rules@[i as int]@);
        if hits[i] {
            let r: &Rule = &rules[i];
            let ghost before = out@;
            let f: Finding = Finding {
                rule_id: r.id,
                points: r.points,
                override_gate: r.override_gate,
                title: r.title,
                description: r.description,
                line: number,
                snippet: truncate(trimmed(line, Class::Blank), SNIPPET_MAX),
                source_file: None,
                is_new: false,
            };
            assert(f@ == line_finding(rs[i as int], line@, number as int));
            out.push(f);
            assert(findings_view(out@) =~= findings_view(before).push(f@));
        }
        assert(findings_view(out@) =~= given + line_findings(
            rs,
            hits@,
            line@,
            number as int,
            i + 1,
        ));
        i = i + 1;
    }
}

/// Which of the rules match the line.
fn hits_on(rules: &Vec<Rule>, line: &[char]) -> (hits: Vec<bool>)
    ensures
        hits@ == rule_hits(rules_view(rules@), line@),
{
    let text: String = string_of(line);
    let ghost want = rule_hits(rules_view(rules@), line@);
    let mut hits: Vec<bool> = Vec::new();
    let mut i: usize = 0;
    while i < rules.len()
        invariant
            i <= rules@.len(),
            text@ == line@,
            want == rule_hits(rules_view(rules@), line@),
            hits@.len() == i,
            forall|k: int| 0 <= k < i ==> hits@[k] == want[k],
        decreases rules@.len() - i,
    {
        assert(rules_view(rules@)[i as int] == rules@[i as int]@);
        hits.push(is_match(&rules[i].regex, text.as_str()));
        i = i + 1;
    }
    assert(hits@ =~= want);
    hits
}

/// The verdict on findings: puts them in order and scores them.
pub fn conclude(path: String, findings: Vec<Finding>, lines_scanned: usize) -> (r: ScanResult)
    ensures
        r@ == verdict_on(path@, findings_view(findings@), lines_scanned as int),
{
    let mut findings: Vec<Finding> = findings;
    sort_findings(&mut findings);
    let (s, t, g) = score(findings.as_slice());
    ScanResult {
        path,
        findings,
        lines_scanned,
        score: s,
        tier: t,
        override_gate_fired: g,
        promoted_by_diff: None,
        reputation: None,
    }
}

/// All that the text gives rise to, in the order in which it is found, and
/// the number of its lines.
fn collect_findings(rules: &Vec<Rule>, content: &str) -> (r: (Vec<Finding>, usize))
    ensures
        findings_view(r.0@) == text_findings(rules_view(rules@), content@),
        r.1 == lines(content@).len(),
        are_placed(findings_view(r.0@), r.1 as int),
{
    let ghost rs = rules_view(rules@);
    let text: Vec<char> = chars_of(content);
    let ls: Vec<&[char]> = split_lines(text.as_slice());
    let ghost all = slices(ls@);
    let mut out: Vec<Finding> = Vec::new();
    let mut i: usize = 0;
    assert(findings_view(out@) =~= rule_findings(rs, all, 0));
    while i < ls.len()
        invariant
            i <= ls@.len(),
            rs == rules_view(rules@),
            all == slices(ls@),
            findings_view(out@) == rule_findings(rs, all, i as int),
        decreases ls@.len() - i,
    {
        assert(all[i as int] == ls@[i as int]@);
        let hits: Vec<bool> = hits_on(rules, ls[i]);
        push_line_findings(rules, &hits, ls[i], i + 1, &mut out);
        i = i + 1;
    }
    let mut skip: Vec<Finding> = check_skip_checksums(content);
    let mut sources: Vec<Finding> = check_source_array(content);
    let mut mismatches: Vec<Finding> = check_url_vs_sources(content);
    let ghost a = out@;
    let ghost b = skip@;
    let ghost c = sources@;
    let ghost d = mismatches@;
    out.append(&mut skip);
    out.append(&mut sources);
    out.append(&mut mismatches);
    assert(findings_view(out@) =~= findings_view(a) + findings_view(b) + findings_view(c)
        + findings_view(d));
    proof {
        lemma_rules_placed(rs, all, all.len() as int);
    }
    (out, ls.len())
}

/// Scans a text with the given rules.
pub fn scan_with(rules: &Vec<Rule>, content: &str, label: String) -> (r: ScanResult)
    ensures
        r@ == verdict_on(
            label@,
            text_findings(rules_view(rules@), content@),
            lines(content@).len() as int,
        ),
        are_placed(r@.findings, r@.lines_scanned),
{
    let (findings, n) = collect_findings(rules, content);
    proof {
        lemma_ordered_placed(findings_view(findings@), n as int);
    }
    conclude(label, findings, n)
}

/// Scans a text with the detection rules and the checks of its fields. Every
/// finding is on one of the lines that were scanned.
pub fn scan_text(content: &str, label: String) -> (r: ScanResult)
    ensures
        r@ == verdict_on(
            label@,
            text_findings(rule_table(), content@),
            lines(content@).len() as int,
        ),
        are_placed(r@.findings, r@.lines_scanned),
{
    let rules: Vec<Rule> = build_rules();
    scan_with(&rules, content, label)
}

// ---------------------------------------------------------------------------
// Bundles
// ---------------------------------------------------------------------------

/// A scriptlet next to the PKGBUILD.
#[derive(Debug)]
pub struct InstallFile {
    /// The name of the file, without its directory.
    pub name: String,
    pub content: String,
}

/// What an [`InstallFile`] says: its name and its content.
pub open spec fn install_view(f: InstallFile) -> (Seq<char>, Seq<char>) {
    (f.name@, f.content@)
}

/// What a list of scriptlets says.
pub open spec fn installs_view(v: Seq<InstallFile>) -> Seq<(Seq<char>, Seq<char>)> {
    v.map_values(|f: InstallFile| install_view(f))
}

/// The finding, marked as one of the file `name`.
pub open spec fn from_file(f: FindingView, name: Seq<char>) -> FindingView {
    FindingView { source_file: Some(name), ..f }
}

/// The findings, each marked as one of the file `name`.
pub open spec fn all_from_file(fs: Seq<FindingView>, name: Seq<char>) -> Seq<FindingView> {
    fs.map_values(|f: FindingView| from_file(f, name))
}

/// What the first `n` scriptlets give rise to, each one's findings in order.
pub open spec fn install_findings(
    rules: Seq<RuleView>,
    files: Seq<(Seq<char>, Seq<char>)>,
    n: int,
) -> Seq<FindingView>
    decreases n,
{
    if n <= 0 {
        Seq::empty()
    } else {
        install_findings(rules, files, n - 1) + all_from_file(
            ordered(text_findings(rules, files[n - 1].1)),
            files[n - 1].0,
        )
    }
}

/// The number of lines in the first `n` scriptlets.
pub open spec fn install_lines(files: Seq<(Seq<char>, Seq<char>)>, n: int) -> int
    decreases n,
{
    if n <= 0 {
        0
    } else {
        install_lines(files, n - 1) + lines(files[n - 1].1).len()
    }
}

/// A number of lines as a `usize` counts it, which starts over at its limit.
pub open spec fn counted(n: int) -> int {
    n % (usize::MAX + 1)
}

/// What was counted so far and some lines more.
fn count_on(so_far: usize, more: usize, total: Ghost<int>) -> (n: usize)
    requires
        so_far == counted(total@),
        0 <= total@,
    ensures
        n == counted(total@ + more),
{
    proof {
        let m = usize::MAX + 1;
        vstd::arithmetic::div_mod::lemma_add_mod_noop(total@, more as int, m);
        vstd::arithmetic::div_mod::lemma_small_mod(more as nat, m as nat);
        let sum = so_far + more;
        if sum >= m {
            vstd::arithmetic::div_mod::lemma_mod_add_multiples_vanish(sum - m, m);
            vstd::arithmetic::div_mod::lemma_small_mod((sum - m) as nat, m as nat);
        } else {
            vstd::arithmetic::div_mod::lemma_small_mod(sum as nat, m as nat);
        }
    }
    so_far.wrapping_add(more)
}

/// The number of lines in the PKGBUILD and its scriptlets.
pub open spec fn bundle_lines(
    pkgbuild: Seq<char>,
    files: Seq<(Seq<char>, Seq<char>)>,
) -> int {
    lines(pkgbuild).len() + install_lines(files, files.len() as int)
}

/// The verdict on a PKGBUILD and its scriptlets as a whole.
pub open spec fn bundle_verdict(
    rules: Seq<RuleView>,
    path: Seq<char>,
    pkgbuild: Seq<char>,
    files: Seq<(Seq<char>, Seq<char>)>,
) -> ResultView {
    verdict_on(
        path,
        ordered(text_findings(rules, pkgbuild)) + install_findings(
            rules,
            files,
            files.len() as int,
        ),
        counted(bundle_lines(pkgbuild, files)),
    )
}

proof fn lemma_install_lines(files: Seq<(Seq<char>, Seq<char>)>, n: int)
    ensures
        0 <= install_lines(files, n),
    decreases n,
{
    if n > 0 {
        lemma_install_lines(files, n - 1);
    }
}

/// Appends the findings to `out`, each marked as one of the file `name`.
fn append_from_file(findings: Vec<Finding>, name: &String, out: &mut Vec<Finding>)
    ensures
        findings_view(final(out)@) == findings_view(old(out)@) + all_from_file(
            findings_view(findings@),
            name@,
        ),
{
    let ghost given = findings_view(out@);
    let ghost all = all_from_file(findings_view(findings@), name@);
    let mut i: usize = 0;
    assert(findings_view(out@) =~= given + all.take(0));
    while i < findings.len()
        invariant
            i <= findings@.len(),
            all == all_from_file(findings_view(findings@), name@),
            findings_view(out@) == given + all.take(i as int),
        decreases findings@.len() - i,
    {
        let mut f: Finding = findings[i].clone();
        f.source_file = Some(name.clone());
        assert(f@ == all[i as int]);
        let ghost before = out@;
        out.push(f);
        assert(findings_view(out@) =~= findings_view(before).push(f@));
        assert(findings_view(out@) =~= given + all.take(i + 1));
        i = i + 1;
    }
    assert(all.take(all.len() as int) =~= all);
}

/// Scan a PKGBUILD and every adjacent `*.install` scriptlet. All findings roll
/// up into a single ScanResult so the tier/score reflects the package as a
/// whole, not just the PKGBUILD in isolation.
pub fn scan_pkgbuild_bundle(
    path: String,
    pkgbuild: &str,
    installs: &Vec<InstallFile>,
) -> (r: ScanResult)
    ensures
        r@ == bundle_verdict(rule_table(), path@, pkgbuild@, installs_view(installs@)),
{
    let rules: Vec<Rule> = build_rules();
    let ghost rs = rule_table();
    let ghost files = installs_view(installs@);
    let main: ScanResult = scan_with(&rules, pkgbuild, path);
    let path: String = main.path;
    let mut findings: Vec<Finding> = main.findings;
    let mut count: usize = main.lines_scanned;
    let ghost first = ordered(text_findings(rs, pkgbuild@));
    assert(findings_view(findings@) =~= first + install_findings(rs, files, 0));
    let mut i: usize = 0;
    while i < installs.len()
        invariant
            i <= installs@.len(),
            rs == rule_table(),
            rules_view(rules@) == rs,
            files == installs_view(installs@),
            count == counted(lines(pkgbuild@).len() + install_lines(files, i as int)),
            findings_view(findings@) == first + install_findings(rs, files, i as int),
        decreases installs@.len() - i,
    {
        let file: &InstallFile = &installs[i];
        assert(files[i as int] == install_view(*file));
        let mut label: String = path.clone();
        label.append(" :: ");
        label.append(file.name.as_str());
        let sub: ScanResult = scan_with(&rules, file.content.as_str(), label);
        let ghost total = lines(pkgbuild@).len() + install_lines(files, i as int);
        proof {
            lemma_install_lines(files, i as int);
        }
        count = count_on(count, sub.lines_scanned, Ghost(total));
        append_from_file(sub.findings, &file.name, &mut findings);
        assert(findings_view(findings@) =~= first + install_findings(rs, files, i + 1));
        i = i + 1;
    }
    conclude(path, findings, count)
}

// ---------------------------------------------------------------------------
// Aggregates
// ---------------------------------------------------------------------------

/// What a list of named results says, without the names.
pub open spec fn results_view(v: Seq<(String, ScanResult)>) -> Seq<ResultView> {
    v.map_values(|r: (String, ScanResult)| r.1@)
}

/// The findings of the first `n` results.
pub open spec fn pooled_findings(rs: Seq<ResultView>, n: int) -> Seq<FindingView>
    decreases n,
{
    if n <= 0 {
        Seq::empty()
    } else {
        pooled_findings(rs, n - 1) + rs[n - 1].findings
    }
}

/// The lines of the first `n` results.
pub open spec fn pooled_lines(rs: Seq<ResultView>, n: int) -> int
    decreases n,
{
    if n <= 0 {
        0
    } else {
        pooled_lines(rs, n - 1) + rs[n - 1].lines_scanned
    }
}

/// The worst tier among the first `n` results.
pub open spec fn worst_tier(rs: Seq<ResultView>, n: int) -> Tier
    decreases n,
{
    if n <= 0 {
        Tier::Trusted
    } else if rs[n - 1].tier.level() > worst_tier(rs, n - 1).level() {
        rs[n - 1].tier
    } else {
        worst_tier(rs, n - 1)
    }
}

/// The lowest trust among the first `n` results; 100 where there is none.
pub open spec fn lowest_score(rs: Seq<ResultView>, n: int) -> int
    decreases n,
{
    if n <= 0 {
        100
    } else if n == 1 || rs[n - 1].score < lowest_score(rs, n - 1) {
        rs[n - 1].score
    } else {
        lowest_score(rs, n - 1)
    }
}

/// The first gate that fired among the results, from place `from` on.
pub open spec fn pooled_gate(rs: Seq<ResultView>, from: int) -> Option<Seq<char>>
    decreases rs.len() - from,
{
    if from >= rs.len() {
        None
    } else if rs[from].override_gate_fired is Some {
        rs[from].override_gate_fired
    } else {
        pooled_gate(rs, from + 1)
    }
}

/// The first promotion among the results, from place `from` on.
pub open spec fn pooled_promotion(rs: Seq<ResultView>, from: int) -> Option<Seq<char>>
    decreases rs.len() - from,
{
    if from >= rs.len() {
        None
    } else if rs[from].promoted_by_diff is Some {
        rs[from].promoted_by_diff
    } else {
        pooled_promotion(rs, from + 1)
    }
}

/// The results as one: all findings, the worst tier, the lowest trust, the
/// first gate and the first promotion.
pub open spec fn pooled(rs: Seq<ResultView>, label: Seq<char>) -> ResultView {
    let n = rs.len() as int;
    ResultView {
        path: label,
        findings: pooled_findings(rs, n),
        lines_scanned: counted(pooled_lines(rs, n)),
        score: lowest_score(rs, n),
        tier: worst_tier(rs, n),
        override_gate_fired: pooled_gate(rs, 0),
        promoted_by_diff: pooled_promotion(rs, 0),
        reputation: None,
    }
}

proof fn lemma_pooled_lines(v: Seq<(String, ScanResult)>, n: int)
    requires
        n <= v.len(),
    ensures
        0 <= pooled_lines(results_view(v), n),
    decreases n,
{
    if n > 0 {
        lemma_pooled_lines(v, n - 1);
        assert(results_view(v)[n - 1] == v[n - 1].1@);
    }
}

/// Copies the findings to the end of `out`.
fn append_copies(findings: &Vec<Finding>, out: &mut Vec<Finding>)
    ensures
        findings_view(final(out)@) == findings_view(old(out)@) + findings_view(findings@),
{
    let ghost given = findings_view(out@);
    let ghost all = findings_view(findings@);
    let mut i: usize = 0;
    assert(findings_view(out@) =~= given + all.take(0));
    while i < findings.len()
        invariant
            i <= findings@.len(),
            all == findings_view(findings@),
            findings_view(out@) == given + all.take(i as int),
        decreases findings@.len() - i,
    {
        let f: Finding = findings[i].clone();
        assert(f@ == all[i as int]);
        let ghost before = out@;
        out.push(f);
        assert(findings_view(out@) =~= findings_view(before).push(f@));
        assert(findings_view(out@) =~= given + all.take(i + 1));
        i = i + 1;
    }
    assert(all.take(all.len() as int) =~= all);
}

/// Aggregate multiple per-package results into one synthetic ScanResult
/// (used by the pacman hook prompt). Tier is the worst across inputs;
/// score is the minimum trust observed.
pub fn aggregate(results: &Vec<(String, ScanResult)>, label: String) -> (r: ScanResult)
    ensures
        r@ == pooled(results_view(results@), label@),
{
    let ghost rs = results_view(results@);
    let mut findings: Vec<Finding> = Vec::new();
    let mut lines_scanned: usize = 0;
    let mut tier: Tier = Tier::Trusted;
    let mut score: u32 = 100;
    let mut gate: Option<&'static str> = None;
    let mut promoted: Option<String> = None;
    let mut i: usize = 0;
    assert(findings_view(findings@) =~= pooled_findings(rs, 0));
    while i < results.len()
        invariant
            i <= results@.len(),
            rs == results_view(results@),
            findings_view(findings@) == pooled_findings(rs, i as int),
            lines_scanned == counted(pooled_lines(rs, i as int)),
            tier == worst_tier(rs, i as int),
            score == lowest_score(rs, i as int),
            gate is None ==> pooled_gate(rs, 0) == pooled_gate(rs, i as int),
            gate is Some ==> pooled_gate(rs, 0) == opt_id(gate),
            promoted is None ==> pooled_promotion(rs, 0) == pooled_promotion(rs, i as int),
            promoted is Some ==> pooled_promotion(rs, 0) == opt_text(promoted),
        decreases results@.len() - i,
    {
        let r: &ScanResult = &results[i].1;
        assert(rs[i as int] == r@);
        proof {
            lemma_pooled_lines(results@, i as int);
        }
        append_copies(&r.findings, &mut findings);
        lines_scanned = count_on(
            lines_scanned,
            r.lines_scanned,
            Ghost(pooled_lines(rs, i as int)),
        );
        if tier_index(r.tier) > tier_index(tier) {
            tier = r.tier;
        }
        if i == 0 || r.score < score {
            score = r.score;
        }
        if gate.is_none() {
            gate = r.override_gate_fired;
        }
        if promoted.is_none() {
            promoted = r.promoted_by_diff.clone();
        }
        i = i + 1;
    }
    ScanResult {
        path: label,
        findings,
        lines_scanned,
        score,
        tier,
        override_gate_fired: gate,
        promoted_by_diff: promoted,
        reputation: None,
    }
}

// ---------------------------------------------------------------------------
// The rules on fields
// ---------------------------------------------------------------------------

pub const AG080_SUMMARY: &'static str = "The PKGBUILD disables integrity verification for ALL sources.";

pub const AG081_SUMMARY: &'static str = "A plain HTTP/FTP source can be swapped by a network intermediary.";

pub const AG082_SUMMARY: &'static str = "git+http does not authenticate the server.";

pub const AG083_SUMMARY: &'static str = "Classic impersonation pattern in malicious -bin packages.";

/// The rules that are not regular expressions: the checks of this module.
pub open spec fn metadata_table() -> Seq<MetaRuleView> {
    seq![
        meta_rule_view("AG080"@, 50, AG080_TITLE@, AG080_SUMMARY@),
        meta_rule_view("AG081"@, 35, AG081_TITLE@, AG081_SUMMARY@),
        meta_rule_view("AG082"@, 35, AG082_TITLE@, AG082_SUMMARY@),
        meta_rule_view("AG083"@, 50, AG083_TITLE@, AG083_SUMMARY@),
    ]
}

/// Non-regex rules implemented as dedicated `check_*` functions above.
/// Listed here so that they can be shown alongside the regex rule set.
pub fn metadata_rules() -> (rules: Vec<MetaRule>)
    ensures
        meta_rules_view(rules@) == metadata_table(),
{
    let mut rules: Vec<MetaRule> = Vec::new();
    rules.push(meta_rule("AG080", 50, AG080_TITLE, AG080_SUMMARY));
    rules.push(meta_rule("AG081", 35, AG081_TITLE, AG081_SUMMARY));
    rules.push(meta_rule("AG082", 35, AG082_TITLE, AG082_SUMMARY));
    rules.push(meta_rule("AG083", 50, AG083_TITLE, AG083_SUMMARY));
    assert(meta_rules_view(rules@) =~= metadata_table());
    rules
}

// ---------------------------------------------------------------------------
// Laws
// ---------------------------------------------------------------------------

proof fn lemma_line_reports(
    rules: Seq<RuleView>,
    hits: Seq<bool>,
    line: Seq<char>,
    number: int,
    n: int,
    j: int,
)
    requires
        0 <= j < n <= rules.len(),
        hits[j],
    ensures
        line_findings(rules, hits, line, number, n).contains(
            line_finding(rules[j], line, number),
        ),
    decreases n,
{
    let all = line_findings(rules, hits, line, number, n);
    let f = line_finding(rules[j], line, number);
    if j == n - 1 {
        assert(all[all.len() - 1] == f);
    } else {
        lemma_line_reports(rules, hits, line, number, n - 1, j);
        let rest = line_findings(rules, hits, line, number, n - 1);
        let k = choose|k: int| 0 <= k < rest.len() && rest[k] == f;
        assert(all[k] == f);
    }
}

proof fn lemma_rules_report(
    rules: Seq<RuleView>,
    ls: Seq<Seq<char>>,
    n: int,
    k: int,
    j: int,
)
    requires
        0 <= k < n <= ls.len(),
        0 <= j < rules.len(),
        regex_finds(rules[j].pattern, ls[k]),
    ensures
        rule_findings(rules, ls, n).contains(line_finding(rules[j], ls[k], k + 1)),
    decreases n,
{
    let f = line_finding(rules[j], ls[k], k + 1);
    let before = rule_findings(rules, ls, n - 1);
    let all = rule_findings(rules, ls, n);
    let last = line_findings(
        rules,
        rule_hits(rules, ls[n - 1]),
        ls[n - 1],
        n,
        rules.len() as int,
    );
    if k == n - 1 {
        lemma_line_reports(
            rules,
            rule_hits(rules, ls[k]),
            ls[k],
            n,
            rules.len() as int,
            j,
        );
        let i = choose|i: int| 0 <= i < last.len() && last[i] == f;
        assert(all[before.len() + i] == f);
    } else {
        lemma_rules_report(rules, ls, n - 1, k, j);
        let i = choose|i: int| 0 <= i < before.len() && before[i] == f;
        assert(all[i] == f);
    }
}

pub(crate) proof fn lemma_ordered_contains(fs: Seq<FindingView>, f: FindingView)
    ensures
        ordered(fs).contains(f) <==> fs.contains(f),
{
    broadcast use vstd::seq_lib::group_to_multiset_ensures;

    law_order_permutes(fs);
    assert(ordered(fs).contains(f) <==> ordered(fs).to_multiset().count(f) > 0);
    assert(fs.contains(f) <==> fs.to_multiset().count(f) > 0);
}

/// Every match of a rule on a line is reported, with the number of the line.
/// It is malicious where the rule is an override gate.
pub proof fn law_match_is_reported(
    rules: Seq<RuleView>,
    path: Seq<char>,
    content: Seq<char>,
    k: int,
    j: int,
)
    requires
        0 <= k < lines(content).len(),
        0 <= j < rules.len(),
        regex_finds(rules[j].pattern, lines(content)[k]),
    ensures
        ({
            let r = verdict_on(
                path,
                text_findings(rules, content),
                lines(content).len() as int,
            );
            &&& r.findings.contains(line_finding(rules[j], lines(content)[k], k + 1))
            &&& rules[j].override_gate ==> r.tier == Tier::Malicious && r.score == 0
        }),
{
    let f = line_finding(rules[j], lines(content)[k], k + 1);
    let first = rule_findings(rules, lines(content), lines(content).len() as int);
    let all = text_findings(rules, content);
    lemma_rules_report(rules, lines(content), lines(content).len() as int, k, j);
    let i = choose|i: int| 0 <= i < first.len() && first[i] == f;
    assert(all[i] == f);
    lemma_ordered_contains(all, f);
    if rules[j].override_gate {
        let o = ordered(all);
        let m = choose|m: int| 0 <= m < o.len() && o[m] == f;
        assert(o[m].override_gate);
        law_gate_is_malicious(o);
    }
}

proof fn lemma_line_reports_matches(
    rules: Seq<RuleView>,
    hits: Seq<bool>,
    line: Seq<char>,
    number: int,
    n: int,
    f: FindingView,
) -> (j: int)
    requires
        0 <= n <= rules.len(),
        line_findings(rules, hits, line, number, n).contains(f),
    ensures
        0 <= j < n,
        hits[j],
        f == line_finding(rules[j], line, number),
    decreases n,
{
    let all = line_findings(rules, hits, line, number, n);
    let rest = line_findings(rules, hits, line, number, n - 1);
    let i = choose|i: int| 0 <= i < all.len() && all[i] == f;
    if hits[n - 1] && i == all.len() - 1 {
        n - 1
    } else {
        assert(rest[i] == f);
        lemma_line_reports_matches(rules, hits, line, number, n - 1, f)
    }
}

/// What the rules report is a match: of a rule on a line, with the number of
/// that line.
pub proof fn law_only_matches_are_reported(
    rules: Seq<RuleView>,
    ls: Seq<Seq<char>>,
    n: int,
    f: FindingView,
)
    requires
        0 <= n <= ls.len(),
        rule_findings(rules, ls, n).contains(f),
    ensures
        exists|k: int, j: int|
            0 <= k < n && 0 <= j < rules.len() && #[trigger] regex_finds(rules[j].pattern, ls[k])
                && f == line_finding(rules[j], ls[k], k + 1),
    decreases n,
{
    let all = rule_findings(rules, ls, n);
    let before = rule_findings(rules, ls, n - 1);
    let hits = rule_hits(rules, ls[n - 1]);
    let last = line_findings(rules, hits, ls[n - 1], n, rules.len() as int);
    let i = choose|i: int| 0 <= i < all.len() && all[i] == f;
    if i < before.len() {
        assert(before[i] == f);
        law_only_matches_are_reported(rules, ls, n - 1, f);
        let (k, j) = choose|k: int, j: int|
            0 <= k < n - 1 && 0 <= j < rules.len() && #[trigger] regex_finds(
                rules[j].pattern,
                ls[k],
            ) && f == line_finding(rules[j], ls[k], k + 1);
        assert(regex_finds(rules[j].pattern, ls[k]));
    } else {
        assert(last[i - before.len()] == f);
        let j = lemma_line_reports_matches(
            rules,
            hits,
            ls[n - 1],
            n,
            rules.len() as int,
            f,
        );
        assert(regex_finds(rules[j].pattern, ls[n - 1]));
    }
}

proof fn lemma_line_silent(
    rules: Seq<RuleView>,
    hits: Seq<bool>,
    line: Seq<char>,
    number: int,
    n: int,
)
    requires
        0 <= n <= hits.len(),
        forall|j: int| 0 <= j < n ==> !#[trigger] hits[j],
    ensures
        line_findings(rules, hits, line, number, n).len() == 0,
    decreases n,
{
    if n > 0 {
        lemma_line_silent(rules, hits, line, number, n - 1);
    }
}

proof fn lemma_rules_silent(rules: Seq<RuleView>, ls: Seq<Seq<char>>, n: int)
    requires
        0 <= n <= ls.len(),
        forall|k: int, j: int|
            0 <= k < ls.len() && 0 <= j < rules.len() ==> !#[trigger] regex_finds(
                rules[j].pattern,
                ls[k],
            ),
    ensures
        rule_findings(rules, ls, n).len() == 0,
    decreases n,
{
    if n > 0 {
        lemma_rules_silent(rules, ls, n - 1);
        lemma_line_silent(
            rules,
            rule_hits(rules, ls[n - 1]),
            ls[n - 1],
            n,
            rules.len() as int,
        );
    }
}

/// A text on which no rule matches, and which has no checksum and no source
/// array, is trusted in full.
pub proof fn law_nothing_matched_is_trusted(
    rules: Seq<RuleView>,
    path: Seq<char>,
    content: Seq<char>,
)
    requires
        forall|k: int, j: int|
            0 <= k < lines(content).len() && 0 <= j < rules.len() ==> !#[trigger] regex_finds(
                rules[j].pattern,
                lines(content)[k],
            ),
        regex_matches(SUMS_PATTERN@, content).len() == 0,
        regex_matches(SOURCE_PATTERN@, content).len() == 0,
    ensures
        ({
            let r = verdict_on(
                path,
                text_findings(rules, content),
                lines(content).len() as int,
            );
            r.findings.len() == 0 && r.score == 100 && r.tier == Tier::Trusted
        }),
{
    lemma_rules_silent(rules, lines(content), lines(content).len() as int);
    assert(text_findings(rules, content).len() == 0);
}

/// Whether no rule has negative points.
pub open spec fn rules_are_weighed(rules: Seq<RuleView>) -> bool {
    forall|i: int| 0 <= i < rules.len() ==> (#[trigger] rules[i]).points >= 0
}

proof fn lemma_line_weighed(
    rules: Seq<RuleView>,
    hits: Seq<bool>,
    line: Seq<char>,
    number: int,
    n: int,
)
    requires
        rules_are_weighed(rules),
        n <= rules.len(),
    ensures
        are_weighed(line_findings(rules, hits, line, number, n)),
    decreases n,
{
    if n > 0 {
        lemma_line_weighed(rules, hits, line, number, n - 1);
        assert(rules[n - 1].points >= 0);
    }
}

proof fn lemma_rules_weighed(rules: Seq<RuleView>, ls: Seq<Seq<char>>, n: int)
    requires
        rules_are_weighed(rules),
    ensures
        are_weighed(rule_findings(rules, ls, n)),
    decreases n,
{
    if n > 0 {
        lemma_rules_weighed(rules, ls, n - 1);
        lemma_line_weighed(
            rules,
            rule_hits(rules, ls[n - 1]),
            ls[n - 1],
            n,
            rules.len() as int,
        );
    }
}

proof fn lemma_text_weighed(rules: Seq<RuleView>, content: Seq<char>)
    requires
        rules_are_weighed(rules),
    ensures
        are_weighed(text_findings(rules, content)),
{
    lemma_rules_weighed(rules, lines(content), lines(content).len() as int);
    lemma_checks(
        content,
        regex_matches(SUMS_PATTERN@, content),
        regex_matches(SOURCE_PATTERN@, content),
        regex_first_group(URL_PATTERN@, content),
    );
}

proof fn lemma_line_placed(
    rules: Seq<RuleView>,
    hits: Seq<bool>,
    line: Seq<char>,
    number: int,
    n: int,
)
    ensures
        forall|i: int|
            0 <= i < line_findings(rules, hits, line, number, n).len() ==> (
            #[trigger] line_findings(rules, hits, line, number, n)[i]).line == number,
    decreases n,
{
    if n > 0 {
        lemma_line_placed(rules, hits, line, number, n - 1);
    }
}

proof fn lemma_rules_placed(rules: Seq<RuleView>, ls: Seq<Seq<char>>, n: int)
    requires
        0 <= n,
    ensures
        are_placed(rule_findings(rules, ls, n), n),
    decreases n,
{
    if n > 0 {
        lemma_rules_placed(rules, ls, n - 1);
        lemma_line_placed(
            rules,
            rule_hits(rules, ls[n - 1]),
            ls[n - 1],
            n,
            rules.len() as int,
        );
    }
}

proof fn lemma_ordered_placed(fs: Seq<FindingView>, n: int)
    requires
        are_placed(fs, n),
    ensures
        are_placed(ordered(fs), n),
{
    let o = ordered(fs);
    assert forall|i: int| 0 <= i < o.len() implies 1 <= (#[trigger] o[i]).line <= n by {
        lemma_ordered_contains(fs, o[i]);
        assert(o.contains(o[i]));
        let k = choose|k: int| 0 <= k < fs.len() && fs[k] == o[i];
        assert(1 <= fs[k].line <= n);
    }
}

proof fn lemma_ordered_weighed(fs: Seq<FindingView>)
    requires
        are_weighed(fs),
    ensures
        are_weighed(ordered(fs)),
{
    let o = ordered(fs);
    assert forall|i: int| 0 <= i < o.len() implies (#[trigger] o[i]).points >= 0 by {
        lemma_ordered_contains(fs, o[i]);
        assert(o.contains(o[i]));
        let k = choose|k: int| 0 <= k < fs.len() && fs[k] == o[i];
        assert(fs[k].points >= 0);
    }
}

proof fn lemma_from_file_weighs_the_same(fs: Seq<FindingView>, name: Seq<char>)
    ensures
        trust_of(all_from_file(fs, name)) == trust_of(fs),
        are_weighed(fs) ==> are_weighed(all_from_file(fs, name)),
{
    let moved = all_from_file(fs, name);
    lemma_from_file_points(fs, name);
    law_gate_is_malicious(fs);
    law_gate_is_malicious(moved);
    if has_gate(fs) {
        let i = choose|i: int| 0 <= i < fs.len() && (#[trigger] fs[i]).override_gate;
        assert(moved[i].override_gate);
    }
    if has_gate(moved) {
        let i = choose|i: int| 0 <= i < moved.len() && (#[trigger] moved[i]).override_gate;
        assert(fs[i].override_gate);
    }
    assert forall|i: int| are_weighed(fs) && 0 <= i < moved.len() implies (
    #[trigger] moved[i]).points >= 0 by {
        assert(fs[i].points >= 0);
    }
}

proof fn lemma_from_file_points(fs: Seq<FindingView>, name: Seq<char>)
    ensures
        total_points(all_from_file(fs, name)) == total_points(fs),
    decreases fs.len(),
{
    if fs.len() > 0 {
        lemma_from_file_points(fs.drop_last(), name);
        assert(all_from_file(fs, name).drop_last() =~= all_from_file(fs.drop_last(), name));
    }
}

proof fn lemma_installs_weigh_in(
    rules: Seq<RuleView>,
    files: Seq<(Seq<char>, Seq<char>)>,
    n: int,
)
    requires
        rules_are_weighed(rules),
        0 <= n <= files.len(),
    ensures
        are_weighed(install_findings(rules, files, n)),
        forall|i: int|
            0 <= i < n ==> trust_of(install_findings(rules, files, n)) <= trust_of(
                text_findings(rules, (#[trigger] files[i]).1),
            ),
    decreases n,
{
    if n > 0 {
        lemma_installs_weigh_in(rules, files, n - 1);
        let before = install_findings(rules, files, n - 1);
        let fs = text_findings(rules, files[n - 1].1);
        let last = all_from_file(ordered(fs), files[n - 1].0);
        lemma_text_weighed(rules, files[n - 1].1);
        lemma_ordered_weighed(fs);
        lemma_from_file_weighs_the_same(ordered(fs), files[n - 1].0);
        law_order_keeps_score(fs);
        law_more_findings_never_help(before, last);
    }
}

/// The points of the detection rules are not negative.
pub proof fn law_rules_are_weighed()
    ensures
        rules_are_weighed(rule_table()),
{
}

/// The verdict on a bundle reflects the package as a whole: it is no better
/// than that on the PKGBUILD alone, nor than that on any of the scriptlets
/// alone.
pub proof fn law_bundle_is_no_better_than_its_parts(
    rules: Seq<RuleView>,
    path: Seq<char>,
    pkgbuild: Seq<char>,
    files: Seq<(Seq<char>, Seq<char>)>,
)
    requires
        rules_are_weighed(rules),
    ensures
        bundle_verdict(rules, path, pkgbuild, files).score <= trust_of(
            text_findings(rules, pkgbuild),
        ),
        bundle_verdict(rules, path, pkgbuild, files).tier.level() >= tier_of(
            text_findings(rules, pkgbuild),
        ).level(),
        forall|i: int|
            0 <= i < files.len() ==> bundle_verdict(rules, path, pkgbuild, files).score
                <= trust_of(text_findings(rules, (#[trigger] files[i]).1)),
        forall|i: int|
            0 <= i < files.len() ==> bundle_verdict(rules, path, pkgbuild, files).tier.level()
                >= tier_of(text_findings(rules, (#[trigger] files[i]).1)).level(),
{
    let fs = text_findings(rules, pkgbuild);
    let more = install_findings(rules, files, files.len() as int);
    lemma_text_weighed(rules, pkgbuild);
    lemma_ordered_weighed(fs);
    lemma_installs_weigh_in(rules, files, files.len() as int);
    law_order_keeps_score(fs);
    law_more_findings_never_help(ordered(fs), more);
    law_order_keeps_score(ordered(fs) + more);
    assert forall|i: int| 0 <= i < files.len() implies bundle_verdict(
        rules,
        path,
        pkgbuild,
        files,
    ).tier.level() >= tier_of(text_findings(rules, (#[trigger] files[i]).1)).level() by {
        assert(trust_of(more) <= trust_of(text_findings(rules, files[i].1)));
    }
}

proof fn lemma_installs_of_two(
    rules: Seq<RuleView>,
    a: Seq<(Seq<char>, Seq<char>)>,
    b: Seq<(Seq<char>, Seq<char>)>,
    n: int,
)
    requires
        0 <= n <= a.len() + b.len(),
    ensures
        n <= a.len() ==> install_findings(rules, a + b, n) == install_findings(rules, a, n),
        n > a.len() ==> install_findings(rules, a + b, n) == install_findings(
            rules,
            a,
            a.len() as int,
        ) + install_findings(rules, b, n - a.len()),
    decreases n,
{
    if n > 0 {
        lemma_installs_of_two(rules, a, b, n - 1);
        if n <= a.len() {
            assert((a + b)[n - 1] == a[n - 1]);
        } else {
            let first = install_findings(rules, a, a.len() as int);
            let m = n - a.len();
            assert((a + b)[n - 1] == b[m - 1]);
            if m == 1 {
                assert(first + install_findings(rules, b, 0) =~= first);
            }
            assert(install_findings(rules, a + b, n) =~= first + install_findings(rules, b, m));
        }
    }
}

/// What all of two lists of scriptlets give rise to.
proof fn lemma_installs_of_both(
    rules: Seq<RuleView>,
    a: Seq<(Seq<char>, Seq<char>)>,
    b: Seq<(Seq<char>, Seq<char>)>,
)
    ensures
        install_findings(rules, a + b, (a + b).len() as int) == install_findings(
            rules,
            a,
            a.len() as int,
        ) + install_findings(rules, b, b.len() as int),
{
    lemma_installs_of_two(rules, a, b, (a + b).len() as int);
    if b.len() == 0 {
        let first = install_findings(rules, a, a.len() as int);
        assert(first + install_findings(rules, b, 0) =~= first);
    }
}

/// Scriptlets give rise to no less with one more among them.
proof fn lemma_installs_of_more(
    rules: Seq<RuleView>,
    files: Seq<(Seq<char>, Seq<char>)>,
    i: int,
    added: (Seq<char>, Seq<char>),
)
    requires
        rules_are_weighed(rules),
        0 <= i <= files.len(),
    ensures
        no_lighter(
            install_findings(rules, files.insert(i, added), files.len() as int + 1),
            install_findings(rules, files, files.len() as int),
        ),
{
    let a = files.take(i);
    let b = files.skip(i);
    let one = seq![added];
    let fa = install_findings(rules, a, a.len() as int);
    let fb = install_findings(rules, b, b.len() as int);
    let f1 = install_findings(rules, one, 1);
    assert(files =~= a + b);
    assert(files.insert(i, added) =~= a + (one + b));
    lemma_installs_of_both(rules, a, b);
    lemma_installs_of_both(rules, a, one + b);
    lemma_installs_of_both(rules, one, b);
    lemma_installs_weigh_in(rules, one, 1);
    lemma_points_not_negative(f1);
    lemma_gate_in_either(fa, fb);
    lemma_gate_in_either(fa, f1 + fb);
    lemma_gate_in_either(f1, fb);
}

/// Findings put in order behind the same others weigh no less where they do
/// so alone.
proof fn lemma_ordered_no_lighter(
    top: Seq<FindingView>,
    a: Seq<FindingView>,
    b: Seq<FindingView>,
)
    requires
        no_lighter(a, b),
    ensures
        no_lighter(ordered(top + a), ordered(top + b)),
{
    lemma_gate_in_either(top, a);
    lemma_gate_in_either(top, b);
    law_order_keeps_score(top + a);
    law_order_keeps_score(top + b);
    law_gate_is_malicious(top + a);
    law_gate_is_malicious(top + b);
    law_gate_is_malicious(ordered(top + a));
    law_gate_is_malicious(ordered(top + b));
}

/// The findings of a bundle weigh no less with one scriptlet more.
pub(crate) proof fn lemma_scriptlet_weighs_in(
    rules: Seq<RuleView>,
    path: Seq<char>,
    pkgbuild: Seq<char>,
    files: Seq<(Seq<char>, Seq<char>)>,
    i: int,
    added: (Seq<char>, Seq<char>),
)
    requires
        rules_are_weighed(rules),
        0 <= i <= files.len(),
    ensures
        no_lighter(
            bundle_verdict(rules, path, pkgbuild, files.insert(i, added)).findings,
            bundle_verdict(rules, path, pkgbuild, files).findings,
        ),
{
    let more = files.insert(i, added);
    assert(more.len() == files.len() + 1);
    lemma_installs_of_more(rules, files, i, added);
    lemma_ordered_no_lighter(
        ordered(text_findings(rules, pkgbuild)),
        install_findings(rules, more, more.len() as int),
        install_findings(rules, files, files.len() as int),
    );
}

/// The points of what a bundle gives rise to are not negative.
pub(crate) proof fn lemma_bundle_weighed(
    rules: Seq<RuleView>,
    path: Seq<char>,
    pkgbuild: Seq<char>,
    files: Seq<(Seq<char>, Seq<char>)>,
)
    requires
        rules_are_weighed(rules),
    ensures
        are_weighed(bundle_verdict(rules, path, pkgbuild, files).findings),
{
    let fs = text_findings(rules, pkgbuild);
    let more = install_findings(rules, files, files.len() as int);
    lemma_text_weighed(rules, pkgbuild);
    lemma_ordered_weighed(fs);
    lemma_installs_weigh_in(rules, files, files.len() as int);
    lemma_ordered_weighed(ordered(fs) + more);
}

/// A number of lines that a `usize` can hold is counted as it is.
pub proof fn law_lines_are_counted(n: int)
    requires
        0 <= n <= usize::MAX,
    ensures
        counted(n) == n,
{
    vstd::arithmetic::div_mod::lemma_small_mod(n as nat, (usize::MAX + 1) as nat);
}

/// A bundle without scriptlets is judged as its PKGBUILD.
pub proof fn law_bundle_without_scriptlets(
    rules: Seq<RuleView>,
    path: Seq<char>,
    pkgbuild: Seq<char>,
)
    ensures
        bundle_verdict(rules, path, pkgbuild, Seq::empty()) == verdict_on(
            path,
            text_findings(rules, pkgbuild),
            counted(lines(pkgbuild).len() as int),
        ),
{
    let fs = text_findings(rules, pkgbuild);
    assert(ordered(fs) + Seq::<FindingView>::empty() =~= ordered(fs));
    law_order_is_idempotent(fs);
}

proof fn lemma_pool(rs: Seq<ResultView>, n: int, i: int)
    requires
        0 <= i < n <= rs.len(),
    ensures
        worst_tier(rs, n).level() >= rs[i].tier.level(),
        lowest_score(rs, n) <= rs[i].score,
        forall|f: FindingView|
            rs[i].findings.contains(f) ==> pooled_findings(rs, n).contains(f),
    decreases n,
{
    let before = pooled_findings(rs, n - 1);
    let all = pooled_findings(rs, n);
    if i < n - 1 {
        lemma_pool(rs, n - 1, i);
        assert forall|f: FindingView| rs[i].findings.contains(f) implies all.contains(f) by {
            assert(before.contains(f));
            let k = choose|k: int| 0 <= k < before.len() && before[k] == f;
            assert(all[k] == f);
        }
    } else {
        assert forall|f: FindingView| rs[i].findings.contains(f) implies all.contains(f) by {
            let k = choose|k: int| 0 <= k < rs[i].findings.len() && rs[i].findings[k] == f;
            assert(all[before.len() + k] == f);
        }
    }
}

/// Results taken as one are no better than any of them, and lose no finding.
pub proof fn law_pool_is_no_better_than_its_parts(
    rs: Seq<ResultView>,
    label: Seq<char>,
    i: int,
)
    requires
        0 <= i < rs.len(),
    ensures
        pooled(rs, label).tier.level() >= rs[i].tier.level(),
        pooled(rs, label).score <= rs[i].score,
        forall|f: FindingView|
            rs[i].findings.contains(f) ==> pooled(rs, label).findings.contains(f),
{
    lemma_pool(rs, rs.len() as int, i);
}

/// Results taken as one are no worse than the worst of them: the tier and the
/// score are those of some result.
pub proof fn law_pool_is_as_bad_as_its_worst(rs: Seq<ResultView>, label: Seq<char>)
    requires
        rs.len() > 0,
    ensures
        exists|i: int| 0 <= i < rs.len() && (#[trigger] rs[i]).tier == pooled(rs, label).tier,
        exists|i: int| 0 <= i < rs.len() && (#[trigger] rs[i]).score == pooled(rs, label).score,
{
    lemma_worst_is_there(rs, rs.len() as int);
}

proof fn lemma_worst_is_there(rs: Seq<ResultView>, n: int)
    requires
        0 < n <= rs.len(),
    ensures
        exists|i: int| 0 <= i < n && (#[trigger] rs[i]).tier == worst_tier(rs, n),
        exists|i: int| 0 <= i < n && (#[trigger] rs[i]).score == lowest_score(rs, n),
    decreases n,
{
    if n > 1 {
        lemma_worst_is_there(rs, n - 1);
        let i = choose|i: int| 0 <= i < n - 1 && (#[trigger] rs[i]).tier == worst_tier(rs, n - 1);
        let k = choose|k: int|
            0 <= k < n - 1 && (#[trigger] rs[k]).score == lowest_score(rs, n - 1);
        assert(0 <= i < n && 0 <= k < n);
    }
    assert(rs[n - 1] == rs[n - 1]);
}

}
