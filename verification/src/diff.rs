//! Supply-chain diff against the previously seen version of a PKGBUILD.
//!
//! Findings that land on **newly-introduced lines** are a much stronger
//! signal than the mere presence of a pattern.
//!
//! The escalation policy:
//!   * any *new* finding with points ≥ 80 → tier promoted to `Malicious`
//!     (supply-chain attacker just added an unambiguous payload)
//!   * any *new* finding with points ≥ 60 → tier promoted to at least `Suspicious`
//!   * low-point new findings do not promote (legitimate package churn)

use vstd::prelude::*;

use crate::numeral::decimal;
use crate::numeral::write_number;
use crate::outside::compile;
use crate::outside::first_group;
use crate::outside::regex_first_group;
use crate::paths::entry_of;
use crate::paths::entry_path;
use crate::patterns::is_name;
use crate::patterns::is_name_char;
use crate::patterns::PKGBASE_PATTERN;
use crate::patterns::PKGNAME_PATTERN;
use crate::report::are_weighed;
use crate::report::findings_view;
use crate::report::first_gate;
use crate::report::gate_from;
use crate::report::law_heavy_finding_weighs_in;
use crate::report::lemma_gate_exists;
use crate::report::opt_text;
use crate::report::tier_index;
use crate::report::tier_of;
use crate::report::total_points;
use crate::report::trust_of;
use crate::report::Finding;
use crate::report::FindingView;
use crate::report::ResultView;
use crate::report::ScanResult;
use crate::report::Tier;
use crate::text::begins;
use crate::text::chars_of;
use crate::text::is_piece;
use crate::text::lines;
use crate::text::same;
use crate::text::slices;
use crate::text::split_lines;
use crate::text::trim;
use crate::text::trimmed;
use crate::text::Class;

verus! {

/// The package identifier: `pkgbase` where it is set, else `pkgname`.
pub open spec fn identifier(
    pkgbase: Option<Seq<char>>,
    pkgname: Option<Seq<char>>,
) -> Option<Seq<char>> {
    match pkgbase {
        Some(b) => Some(b),
        None => pkgname,
    }
}

/// The package identifier: `pkgbase` where it is set, else `pkgname`.
pub fn choose_identifier(pkgbase: Option<String>, pkgname: Option<String>) -> (id: Option<String>)
    ensures
        opt_text(id) == identifier(opt_text(pkgbase), opt_text(pkgname)),
{
    match pkgbase {
        Some(b) => Some(b),
        None => pkgname,
    }
}

/// Extract the package identifier from a PKGBUILD: `pkgbase` if set, otherwise
/// the first `pkgname`. Used as the cache key. It is a piece of the PKGBUILD.
pub fn pkgname_from(content: &str) -> (id: Option<String>)
    ensures
        id matches Some(name) ==> is_name(name@) && is_piece(name@, content@),
        opt_text(id) == identifier(
            regex_first_group(PKGBASE_PATTERN@, content@),
            regex_first_group(PKGNAME_PATTERN@, content@),
        ),
{
    let base: Option<String> = first_group(&compile(PKGBASE_PATTERN), content);
    let name: Option<String> = first_group(&compile(PKGNAME_PATTERN), content);
    choose_identifier(base, name)
}

/// The file that holds the previously seen PKGBUILD of the package.
pub fn history_path(dir: &str, pkgname: &str) -> (p: String)
    ensures
        p@ == entry_of(dir@, pkgname@, ".txt"@),
{
    entry_path(dir, pkgname, ".txt")
}

/// A package's file lies in the cache directory itself, whatever the package
/// calls itself.
pub proof fn law_key_stays_in_its_directory(dir: Seq<char>, name: Seq<char>, ending: Seq<char>)
    requires
        is_name(name),
    ensures
        entry_of(dir, name, ending) == (if dir.len() == 0 || dir.last() == '/' {
            dir + (name + ending)
        } else {
            dir + "/"@ + (name + ending)
        }),
        forall|i: int| 0 <= i < name.len() ==> #[trigger] name[i] != '/',
{
    reveal_strlit("/");
    assert((name + ending)[0] == name[0]);
    if begins(name + ending, "/"@) {
        assert((name + ending).subrange(0, 1)[0] == '/');
        assert(is_name_char(name[0]));
    }
    assert forall|i: int| 0 <= i < name.len() implies #[trigger] name[i] != '/' by {
        assert(is_name_char(name[i]));
    }
}

/// The lines of a text without the blanks around them.
pub open spec fn trimmed_lines(s: Seq<char>) -> Seq<Seq<char>> {
    lines(s).map_values(|l: Seq<char>| trim(l, Class::Blank))
}

/// The place of line `number` among the lines; the first for number 0.
pub open spec fn line_place(number: int) -> int {
    if number > 0 {
        number - 1
    } else {
        0
    }
}

/// Whether the finding is one of the PKGBUILD itself, on a line that is not
/// blank and that, but for blanks around it, the previous version lacks.
pub open spec fn on_new_line(f: FindingView, previous: Seq<char>, current: Seq<char>) -> bool {
    let i = line_place(f.line);
    &&& f.source_file is None
    &&& i < lines(current).len()
    &&& trimmed_lines(current)[i].len() > 0
    &&& !trimmed_lines(previous).contains(trimmed_lines(current)[i])
}

/// The finding, marked as new where it is on a new line.
pub open spec fn marked(
    f: FindingView,
    previous: Seq<char>,
    current: Seq<char>,
) -> FindingView {
    FindingView { is_new: f.is_new || on_new_line(f, previous, current), ..f }
}

/// The findings, each marked as new where it is on a new line.
pub open spec fn all_marked(
    fs: Seq<FindingView>,
    previous: Seq<char>,
    current: Seq<char>,
) -> Seq<FindingView> {
    fs.map_values(|f: FindingView| marked(f, previous, current))
}

fn is_among(ls: &Vec<&[char]>, line: &[char]) -> (b: bool)
    ensures
        b == slices(ls@).map_values(|l: Seq<char>| trim(l, Class::Blank)).contains(line@),
{
    let ghost all = slices(ls@).map_values(|l: Seq<char>| trim(l, Class::Blank));
    let mut i: usize = 0;
    while i < ls.len()
        invariant
            i <= ls@.len(),
            all == slices(ls@).map_values(|l: Seq<char>| trim(l, Class::Blank)),
            forall|k: int| 0 <= k < i ==> #[trigger] all[k] != line@,
        decreases ls@.len() - i,
    {
        assert(all[i as int] == trim(ls@[i as int]@, Class::Blank));
        if same(trimmed(ls[i], Class::Blank), line) {
            return true;
        }
        i = i + 1;
    }
    false
}

/// Mark every finding whose line text is absent from the previous version.
/// Comparison is on trimmed line content, so reformatting noise doesn't trip
/// false "new" markers but real content additions do. Only findings that came
/// from the PKGBUILD itself are looked at.
pub fn mark_new_findings(findings: &mut Vec<Finding>, previous: &str, current: &str)
    ensures
        findings_view(final(findings)@) == all_marked(
            findings_view(old(findings)@),
            previous@,
            current@,
        ),
{
    let ghost given = findings_view(findings@);
    let ghost want = all_marked(given, previous@, current@);
    let prev_text: Vec<char> = chars_of(previous);
    let prev: Vec<&[char]> = split_lines(prev_text.as_slice());
    let cur_text: Vec<char> = chars_of(current);
    let cur: Vec<&[char]> = split_lines(cur_text.as_slice());
    let mut i: usize = 0;
    while i < findings.len()
        invariant
            i <= findings@.len(),
            findings@.len() == given.len(),
            want == all_marked(given, previous@, current@),
            slices(prev@) == lines(previous@),
            slices(cur@) == lines(current@),
            forall|k: int| 0 <= k < i ==> (#[trigger] findings@[k])@ == want[k],
            forall|k: int| i <= k < given.len() ==> (#[trigger] findings@[k])@ == given[k],
        decreases findings@.len() - i,
    {
        let ghost f = findings@[i as int];
        assert(f@ == given[i as int]);
        let mut fresh: bool = false;
        if findings[i].source_file.is_none() {
            let number: usize = findings[i].line;
            let place: usize = if number > 0 {
                number - 1
            } else {
                0
            };
            if place < cur.len() {
                let t: &[char] = trimmed(cur[place], Class::Blank);
                assert(slices(cur@)[place as int] == cur@[place as int]@);
                assert(trimmed_lines(current@)[place as int] == t@);
                assert(slices(prev@).map_values(|l: Seq<char>| trim(l, Class::Blank))
                    == trimmed_lines(previous@));
                if t.len() > 0 && !is_among(&prev, t) {
                    fresh = true;
                }
            }
        }
        assert(fresh == on_new_line(f@, previous@, current@));
        if fresh {
            findings[i].is_new = true;
        }
        assert(findings@[i as int]@ == want[i as int]);
        i = i + 1;
    }
    assert(findings_view(findings@) =~= want);
}

/// The heaviest of the first `n` findings that are new; the first of those
/// where several weigh the same.
pub open spec fn heaviest_new(fs: Seq<FindingView>, n: int) -> Option<FindingView>
    decreases n,
{
    if n <= 0 {
        None
    } else {
        let f = fs[n - 1];
        match heaviest_new(fs, n - 1) {
            Some(b) => if f.is_new && f.points > b.points {
                Some(f)
            } else {
                Some(b)
            },
            None => if f.is_new {
                Some(f)
            } else {
                None
            },
        }
    }
}

/// The tier to which a new finding of that weight promotes.
pub open spec fn promotion(points: int) -> Option<Tier> {
    if points >= 80 {
        Some(Tier::Malicious)
    } else if points >= 60 {
        Some(Tier::Suspicious)
    } else {
        None
    }
}

/// Why the tier was promoted.
pub open spec fn promotion_reason(f: FindingView, target: Tier) -> Seq<char> {
    "newly-introduced finding "@ + f.rule_id + " ("@ + decimal(f.points)
        + " pts) — promoted to "@ + target.word()
}

/// The result under the escalation policy.
pub open spec fn escalated(r: ResultView) -> ResultView {
    match heaviest_new(r.findings, r.findings.len() as int) {
        Some(f) => match promotion(f.points) {
            Some(target) => if r.tier.level() >= target.level() {
                r
            } else {
                ResultView {
                    tier: target,
                    score: if target == Tier::Malicious {
                        0
                    } else {
                        r.score
                    },
                    promoted_by_diff: Some(promotion_reason(f, target)),
                    ..r
                }
            },
            None => r,
        },
        None => r,
    }
}

/// The place of the heaviest new finding.
fn find_heaviest_new(findings: &Vec<Finding>) -> (i: Option<usize>)
    ensures
        match i {
            Some(j) => j < findings@.len() && heaviest_new(
                findings_view(findings@),
                findings@.len() as int,
            ) == Some(findings@[j as int]@),
            None => heaviest_new(findings_view(findings@), findings@.len() as int) is None,
        },
{
    let ghost fs = findings_view(findings@);
    let mut best: Option<usize> = None;
    let mut i: usize = 0;
    while i < findings.len()
        invariant
            i <= findings@.len(),
            fs == findings_view(findings@),
            match best {
                Some(j) => j < i && heaviest_new(fs, i as int) == Some(findings@[j as int]@),
                None => heaviest_new(fs, i as int) is None,
            },
        decreases findings@.len() - i,
    {
        assert(fs[i as int] == findings@[i as int]@);
        if findings[i].is_new {
            let heavier: bool = match best {
                Some(j) => findings[i].points > findings[j].points,
                None => true,
            };
            if heavier {
                best = Some(i);
            }
        }
        i = i + 1;
    }
    best
}

/// Apply the diff-based escalation policy in place.
pub fn escalate_tier(result: &mut ScanResult)
    ensures
        final(result)@ == escalated(old(result)@),
{
    let i: usize = match find_heaviest_new(&result.findings) {
        Some(i) => i,
        None => {
            return ;
        },
    };
    let points: u32 = result.findings[i].points;
    let target: Tier = if points >= 80 {
        Tier::Malicious
    } else if points >= 60 {
        Tier::Suspicious
    } else {
        return ;
    };
    if tier_index(result.tier) >= tier_index(target) {
        return ;
    }
    let mut reason: String = "newly-introduced finding ".to_owned();
    reason.append(result.findings[i].rule_id);
    reason.append(" (");
    reason.append(write_number(points as u64).as_str());
    reason.append(" pts) — promoted to ");
    reason.append(target.label());
    result.tier = target;
    if target == Tier::Malicious {
        result.score = 0;
    }
    result.promoted_by_diff = Some(reason);
}

// ---------------------------------------------------------------------------
// Laws
// ---------------------------------------------------------------------------

proof fn lemma_heaviest_new(fs: Seq<FindingView>, n: int)
    requires
        0 <= n <= fs.len(),
    ensures
        match heaviest_new(fs, n) {
            Some(b) => b.is_new && (exists|i: int| 0 <= i < n && #[trigger] fs[i] == b) && (forall|
                i: int,
            |
                0 <= i < n && (#[trigger] fs[i]).is_new ==> fs[i].points <= b.points),
            None => forall|i: int| 0 <= i < n ==> !(#[trigger] fs[i]).is_new,
        },
    decreases n,
{
    if n > 0 {
        lemma_heaviest_new(fs, n - 1);
        assert(fs[n - 1] == fs[n - 1]);
    }
}

/// The escalation policy: a new finding of 80 points or more makes the result
/// malicious, one of 60 or more at least suspicious, and where every new
/// finding is lighter than that nothing changes.
pub proof fn law_escalation_policy(r: ResultView)
    ensures
        forall|i: int|
            0 <= i < r.findings.len() && (#[trigger] r.findings[i]).is_new && r.findings[i].points
                >= 80 ==> escalated(r).tier == Tier::Malicious,
        forall|i: int|
            0 <= i < r.findings.len() && (#[trigger] r.findings[i]).is_new && r.findings[i].points
                >= 60 ==> escalated(r).tier.level() >= Tier::Suspicious.level(),
        (forall|i: int|
            0 <= i < r.findings.len() && (#[trigger] r.findings[i]).is_new
                ==> r.findings[i].points < 60) ==> escalated(r) == r,
{
    lemma_heaviest_new(r.findings, r.findings.len() as int);
}

/// Escalation never lowers a tier, never raises a score that stands between 0
/// and 100, and leaves the findings alone.
pub proof fn law_escalation_only_worsens(r: ResultView)
    requires
        0 <= r.score,
    ensures
        escalated(r).tier.level() >= r.tier.level(),
        escalated(r).score <= r.score,
        escalated(r).findings == r.findings,
        escalated(r).override_gate_fired == r.override_gate_fired,
{
}

/// Escalating twice is escalating once.
pub proof fn law_escalation_is_idempotent(r: ResultView)
    ensures
        escalated(escalated(r)) == escalated(r),
{
}

/// Reformatting is not news: where each line of the current version that is
/// not blank stands in the previous one, but for blanks around it, no finding
/// is marked.
pub proof fn law_no_new_lines_no_marks(
    fs: Seq<FindingView>,
    previous: Seq<char>,
    current: Seq<char>,
)
    requires
        forall|i: int|
            0 <= i < lines(current).len() ==> (#[trigger] trimmed_lines(current)[i]).len() == 0
                || trimmed_lines(previous).contains(trimmed_lines(current)[i]),
    ensures
        all_marked(fs, previous, current) == fs,
{
    assert forall|k: int| 0 <= k < fs.len() implies all_marked(fs, previous, current)[k]
        == fs[k] by {
        let f = fs[k];
        let i = line_place(f.line);
        if i < lines(current).len() {
            assert(trimmed_lines(current)[i].len() == 0 || trimmed_lines(previous).contains(
                trimmed_lines(current)[i],
            ));
        }
        assert(!on_new_line(f, previous, current));
    }
    assert(all_marked(fs, previous, current) =~= fs);
}

/// A version compared with itself has nothing new.
pub proof fn law_same_version_no_marks(fs: Seq<FindingView>, version: Seq<char>)
    ensures
        all_marked(fs, version, version) == fs,
{
    assert forall|i: int| 0 <= i < lines(version).len() implies (#[trigger] trimmed_lines(
        version,
    )[i]).len() == 0 || trimmed_lines(version).contains(trimmed_lines(version)[i]) by {
        assert(trimmed_lines(version).len() == lines(version).len());
    }
    law_no_new_lines_no_marks(fs, version, version);
}

/// Marking takes no mark away and touches nothing but marks; findings of
/// other files than the PKGBUILD keep theirs.
pub proof fn law_marks_only_grow(f: FindingView, previous: Seq<char>, current: Seq<char>)
    ensures
        f.is_new ==> marked(f, previous, current).is_new,
        f.source_file is Some ==> marked(f, previous, current) == f,
        (FindingView { is_new: f.is_new, ..marked(f, previous, current) }) == f,
{
}

proof fn lemma_marks_keep_points(fs: Seq<FindingView>, previous: Seq<char>, current: Seq<char>)
    ensures
        total_points(all_marked(fs, previous, current)) == total_points(fs),
    decreases fs.len(),
{
    if fs.len() > 0 {
        lemma_marks_keep_points(fs.drop_last(), previous, current);
        assert(all_marked(fs, previous, current).drop_last() =~= all_marked(
            fs.drop_last(),
            previous,
            current,
        ));
    }
}

proof fn lemma_marks_keep_gate(
    fs: Seq<FindingView>,
    previous: Seq<char>,
    current: Seq<char>,
    from: int,
)
    requires
        0 <= from <= fs.len(),
    ensures
        gate_from(all_marked(fs, previous, current), from) == gate_from(fs, from),
    decreases fs.len() - from,
{
    if from < fs.len() {
        lemma_marks_keep_gate(fs, previous, current, from + 1);
    }
}

/// Marking changes neither points nor score nor tier nor gate.
pub proof fn law_marks_keep_verdict(
    fs: Seq<FindingView>,
    previous: Seq<char>,
    current: Seq<char>,
)
    ensures
        total_points(all_marked(fs, previous, current)) == total_points(fs),
        trust_of(all_marked(fs, previous, current)) == trust_of(fs),
        tier_of(all_marked(fs, previous, current)) == tier_of(fs),
        first_gate(all_marked(fs, previous, current)) == first_gate(fs),
{
    lemma_marks_keep_points(fs, previous, current);
    lemma_marks_keep_gate(fs, previous, current, 0);
    lemma_gate_exists(fs, 0);
}

/// A result whose tier follows from its findings is already as bad as the
/// escalation policy asks.
pub proof fn law_scored_result_stays(r: ResultView)
    requires
        are_weighed(r.findings),
        r.tier == tier_of(r.findings),
    ensures
        escalated(r) == r,
{
    let n = r.findings.len() as int;
    lemma_heaviest_new(r.findings, n);
    if let Some(f) = heaviest_new(r.findings, n) {
        let i = choose|i: int| 0 <= i < n && r.findings[i] == f;
        law_heavy_finding_weighs_in(r.findings, i);
    }
}

}
