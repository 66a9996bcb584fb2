//! Findings, trust scores and tiers.

use std::cmp::Ordering;

use vstd::prelude::*;
use vstd::std_specs::cmp::PartialOrdSpecImpl;

use crate::outside::lowercase;
use crate::outside::lowered;
use crate::text::same_str;

verus! {

/// Display label for a single finding. Derived from a finding's points; not
/// used for the overall block/allow decision (that's the `Tier`).
#[derive(Debug, Clone, Copy, PartialEq, Eq, Structural, Ord)]
pub enum Severity {
    Low,
    Medium,
    High,
    Critical,
}

/// How heavy a match of `points` is: an override gate is always critical.
pub open spec fn severity_of(points: int, override_gate: bool) -> Severity {
    if override_gate || points >= 80 {
        Severity::Critical
    } else if points >= 60 {
        Severity::High
    } else if points >= 30 {
        Severity::Medium
    } else {
        Severity::Low
    }
}

impl Severity {
    /// The place of the severity in the order, from 0 for the lightest.
    pub open spec fn weight(self) -> u8 {
        match self {
            Severity::Low => 0,
            Severity::Medium => 1,
            Severity::High => 2,
            Severity::Critical => 3,
        }
    }

    /// The word shown for the severity.
    pub open spec fn word(self) -> Seq<char> {
        match self {
            Severity::Low => "LOW"@,
            Severity::Medium => "MEDIUM"@,
            Severity::High => "HIGH"@,
            Severity::Critical => "CRITICAL"@,
        }
    }

    /// The terminal escape that colours the severity.
    pub open spec fn paint(self) -> Seq<char> {
        match self {
            Severity::Low => "\x1b[36m"@,
            Severity::Medium => "\x1b[33m"@,
            Severity::High => "\x1b[31m"@,
            Severity::Critical => "\x1b[1;91m"@,
        }
    }

    /// The severity of a match of `points`. Override-gate rules are always
    /// critical: they alone are enough to fail a build.
    pub fn from_points(points: u32, override_gate: bool) -> (s: Self)
        ensures
            s == severity_of(points as int, override_gate),
    {
        if override_gate {
            return Severity::Critical;
        }
        if points >= 80 {
            Severity::Critical
        } else if points >= 60 {
            Severity::High
        } else if points >= 30 {
            Severity::Medium
        } else {
            Severity::Low
        }
    }

    /// The word shown for the severity.
    pub fn label(self) -> (s: &'static str)
        ensures
            s@ == self.word(),
    {
        match self {
            Severity::Low => "LOW",
            Severity::Medium => "MEDIUM",
            Severity::High => "HIGH",
            Severity::Critical => "CRITICAL",
        }
    }

    /// The place of the severity in the order, from 0 for the lightest.
    pub fn rank(self) -> (r: u8)
        ensures
            r == self.weight(),
    {
        match self {
            Severity::Low => 0,
            Severity::Medium => 1,
            Severity::High => 2,
            Severity::Critical => 3,
        }
    }

    /// The terminal escape that colours the severity.
    pub fn color(self) -> (s: &'static str)
        ensures
            s@ == self.paint(),
    {
        match self {
            Severity::Low => "\x1b[36m",
            Severity::Medium => "\x1b[33m",
            Severity::High => "\x1b[31m",
            Severity::Critical => "\x1b[1;91m",
        }
    }
}

impl PartialOrd for Severity {
    fn partial_cmp(&self, other: &Self) -> (o: Option<Ordering>) {
        let a: u8 = self.rank();
        let b: u8 = other.rank();
        if a < b {
            Some(Ordering::Less)
        } else if a == b {
            Some(Ordering::Equal)
        } else {
            Some(Ordering::Greater)
        }
    }
}

impl PartialOrdSpecImpl for Severity {
    open spec fn obeys_partial_cmp_spec() -> bool {
        true
    }

    open spec fn partial_cmp_spec(&self, other: &Self) -> Option<Ordering> {
        if self.weight() < other.weight() {
            Some(Ordering::Less)
        } else if self.weight() == other.weight() {
            Some(Ordering::Equal)
        } else {
            Some(Ordering::Greater)
        }
    }
}

/// Overall trust verdict for a scanned PKGBUILD. Higher is worse.
#[derive(Debug, Clone, Copy, PartialEq, Eq, Structural, Ord)]
pub enum Tier {
    Trusted,
    Okay,
    Sketchy,
    Suspicious,
    Malicious,
}

impl Tier {
    /// The place of the tier in the order, from 0 for the most trusted.
    pub open spec fn level(self) -> int {
        match self {
            Tier::Trusted => 0,
            Tier::Okay => 1,
            Tier::Sketchy => 2,
            Tier::Suspicious => 3,
            Tier::Malicious => 4,
        }
    }

    /// The word shown for the tier.
    pub open spec fn word(self) -> Seq<char> {
        match self {
            Tier::Trusted => "TRUSTED"@,
            Tier::Okay => "OK"@,
            Tier::Sketchy => "SKETCHY"@,
            Tier::Suspicious => "SUSPICIOUS"@,
            Tier::Malicious => "MALICIOUS"@,
        }
    }

    /// The terminal escape that colours the tier.
    pub open spec fn paint(self) -> Seq<char> {
        match self {
            Tier::Trusted => "\x1b[1;32m"@,
            Tier::Okay => "\x1b[32m"@,
            Tier::Sketchy => "\x1b[33m"@,
            Tier::Suspicious => "\x1b[31m"@,
            Tier::Malicious => "\x1b[1;91m"@,
        }
    }

    /// The tier that a lower-case word names.
    pub open spec fn named(word: Seq<char>) -> Option<Tier> {
        if word == "trusted"@ {
            Some(Tier::Trusted)
        } else if word == "ok"@ {
            Some(Tier::Okay)
        } else if word == "sketchy"@ {
            Some(Tier::Sketchy)
        } else if word == "suspicious"@ {
            Some(Tier::Suspicious)
        } else if word == "malicious"@ {
            Some(Tier::Malicious)
        } else {
            None
        }
    }

    /// The word shown for the tier.
    pub fn label(self) -> (s: &'static str)
        ensures
            s@ == self.word(),
    {
        match self {
            Tier::Trusted => "TRUSTED",
            Tier::Okay => "OK",
            Tier::Sketchy => "SKETCHY",
            Tier::Suspicious => "SUSPICIOUS",
            Tier::Malicious => "MALICIOUS",
        }
    }

    /// The terminal escape that colours the tier.
    pub fn color(self) -> (s: &'static str)
        ensures
            s@ == self.paint(),
    {
        match self {
            Tier::Trusted => "\x1b[1;32m",
            Tier::Okay => "\x1b[32m",
            Tier::Sketchy => "\x1b[33m",
            Tier::Suspicious => "\x1b[31m",
            Tier::Malicious => "\x1b[1;91m",
        }
    }

    /// The tier that a lower-case word names.
    pub fn of_word(word: &str) -> (t: Option<Self>)
        ensures
            t == Tier::named(word@),
    {
        if same_str(word, "trusted") {
            Some(Tier::Trusted)
        } else if same_str(word, "ok") {
            Some(Tier::Okay)
        } else if same_str(word, "sketchy") {
            Some(Tier::Sketchy)
        } else if same_str(word, "suspicious") {
            Some(Tier::Suspicious)
        } else if same_str(word, "malicious") {
            Some(Tier::Malicious)
        } else {
            None
        }
    }

    /// The tier that `s` names, in whatever case it is written.
    pub fn parse(s: &str) -> (t: Option<Self>)
        ensures
            t == Tier::named(lowered(s@)),
    {
        Tier::of_word(lowercase(s).as_str())
    }

    /// Whether the tier is at least as bad as `other`.
    pub fn at_least(self, other: Tier) -> (b: bool)
        ensures
            b == (self.level() >= other.level()),
    {
        tier_index(self) >= tier_index(other)
    }
}

/// The place of the tier in the order, from 0 for the most trusted.
pub fn tier_index(t: Tier) -> (i: usize)
    ensures
        i == t.level(),
{
    match t {
        Tier::Trusted => 0,
        Tier::Okay => 1,
        Tier::Sketchy => 2,
        Tier::Suspicious => 3,
        Tier::Malicious => 4,
    }
}

impl PartialOrd for Tier {
    fn partial_cmp(&self, other: &Self) -> (o: Option<Ordering>) {
        let a: usize = tier_index(*self);
        let b: usize = tier_index(*other);
        if a < b {
            Some(Ordering::Less)
        } else if a == b {
            Some(Ordering::Equal)
        } else {
            Some(Ordering::Greater)
        }
    }
}

impl PartialOrdSpecImpl for Tier {
    open spec fn obeys_partial_cmp_spec() -> bool {
        true
    }

    open spec fn partial_cmp_spec(&self, other: &Self) -> Option<Ordering> {
        if self.level() < other.level() {
            Some(Ordering::Less)
        } else if self.level() == other.level() {
            Some(Ordering::Equal)
        } else {
            Some(Ordering::Greater)
        }
    }
}

/// The text that an optional string holds.
pub open spec fn opt_text(s: Option<String>) -> Option<Seq<char>> {
    match s {
        Some(t) => Some(t@),
        None => None,
    }
}

/// One match of a rule.
#[derive(Debug)]
pub struct Finding {
    pub rule_id: &'static str,
    pub points: u32,
    pub override_gate: bool,
    pub title: &'static str,
    pub description: &'static str,
    pub line: usize,
    pub snippet: String,
    /// File this finding came from. `None` = the PKGBUILD itself.
    /// `Some("foo.install")` = a scriptlet adjacent to the PKGBUILD.
    pub source_file: Option<String>,
    /// True if the line containing this finding did not exist in the previously
    /// cached version of the file. Set by the diff layer.
    pub is_new: bool,
}

/// What a [`Finding`] says.
#[verifier::ext_equal]
pub struct FindingView {
    pub rule_id: Seq<char>,
    pub points: int,
    pub override_gate: bool,
    pub title: Seq<char>,
    pub description: Seq<char>,
    pub line: int,
    pub snippet: Seq<char>,
    pub source_file: Option<Seq<char>>,
    pub is_new: bool,
}

impl View for Finding {
    type V = FindingView;

    open spec fn view(&self) -> FindingView {
        FindingView {
            rule_id: self.rule_id@,
            points: self.points as int,
            override_gate: self.override_gate,
            title: self.title@,
            description: self.description@,
            line: self.line as int,
            snippet: self.snippet@,
            source_file: opt_text(self.source_file),
            is_new: self.is_new,
        }
    }
}

/// What a list of findings says.
pub open spec fn findings_view(v: Seq<Finding>) -> Seq<FindingView> {
    v.map_values(|f: Finding| f@)
}

impl Clone for Finding {
    fn clone(&self) -> (f: Self)
        ensures
            f == *self,
    {
        Finding {
            rule_id: self.rule_id,
            points: self.points,
            override_gate: self.override_gate,
            title: self.title,
            description: self.description,
            line: self.line,
            snippet: self.snippet.clone(),
            source_file: self.source_file.clone(),
            is_new: self.is_new,
        }
    }
}

impl Finding {
    /// How heavy the match is.
    pub fn severity(&self) -> (s: Severity)
        ensures
            s == severity_of(self@.points, self@.override_gate),
    {
        Severity::from_points(self.points, self.override_gate)
    }
}

/// Aggregate of every package an AUR maintainer is responsible for. Used
/// to decide whether they look "established" enough to suppress the
/// per-package newness / low-engagement flags.
#[derive(Debug, Clone, Copy)]
pub struct MaintainerSummary {
    pub package_count: u32,
    pub total_votes: u32,
    /// Unix timestamp of the oldest package by this maintainer (i.e. when
    /// they first published anything to AUR). 0 if unknown.
    pub oldest_first_submitted: i64,
}

/// The popularity that the AUR reports for a package: a binary
/// floating-point number, held by its bit pattern, and the texts that show
/// it.
#[derive(Debug)]
pub struct Popularity {
    /// The IEEE 754 double-precision bit pattern.
    pub bits: u64,
    /// The number rounded to two decimal places.
    pub two_places: String,
    /// The number rounded to three decimal places.
    pub three_places: String,
}

/// What a [`Popularity`] says.
#[verifier::ext_equal]
pub struct PopularityView {
    pub bits: u64,
    pub two_places: Seq<char>,
    pub three_places: Seq<char>,
}

impl View for Popularity {
    type V = PopularityView;

    open spec fn view(&self) -> PopularityView {
        PopularityView {
            bits: self.bits,
            two_places: self.two_places@,
            three_places: self.three_places@,
        }
    }
}

impl Clone for Popularity {
    fn clone(&self) -> (p: Self)
        ensures
            p == *self,
    {
        Popularity {
            bits: self.bits,
            two_places: self.two_places.clone(),
            three_places: self.three_places.clone(),
        }
    }
}

/// AUR community/reputation snapshot, attached when a scan succeeds in
/// retrieving RPC info for the package. Purely informational; the actual
/// rule decisions live as AG09x findings.
#[derive(Debug)]
pub struct Reputation {
    pub maintainer: Option<String>,
    pub first_submitted: i64,
    pub last_modified: i64,
    pub num_votes: u32,
    pub popularity: Popularity,
    pub out_of_date: Option<i64>,
    /// True when the maintainer's overall AUR track record clears the
    /// "established" threshold. In that case AG092 (newly submitted) and
    /// AG094 (low engagement) are suppressed for *this* package, since they
    /// only meaningfully fire on accounts with no history.
    pub maintainer_established: bool,
    /// Per-maintainer aggregate (oldest package age, total packages, total
    /// votes) used for the banner context line.
    pub maintainer_summary: Option<MaintainerSummary>,
}

/// What a [`Reputation`] says.
#[verifier::ext_equal]
pub struct ReputationView {
    pub maintainer: Option<Seq<char>>,
    pub first_submitted: int,
    pub last_modified: int,
    pub num_votes: int,
    pub popularity: PopularityView,
    pub out_of_date: Option<i64>,
    pub maintainer_established: bool,
    pub maintainer_summary: Option<MaintainerSummary>,
}

impl View for Reputation {
    type V = ReputationView;

    open spec fn view(&self) -> ReputationView {
        ReputationView {
            maintainer: opt_text(self.maintainer),
            first_submitted: self.first_submitted as int,
            last_modified: self.last_modified as int,
            num_votes: self.num_votes as int,
            popularity: self.popularity@,
            out_of_date: self.out_of_date,
            maintainer_established: self.maintainer_established,
            maintainer_summary: self.maintainer_summary,
        }
    }
}

impl Clone for Reputation {
    fn clone(&self) -> (r: Self)
        ensures
            r == *self,
    {
        Reputation {
            maintainer: self.maintainer.clone(),
            first_submitted: self.first_submitted,
            last_modified: self.last_modified,
            num_votes: self.num_votes,
            popularity: self.popularity.clone(),
            out_of_date: self.out_of_date,
            maintainer_established: self.maintainer_established,
            maintainer_summary: self.maintainer_summary,
        }
    }
}

/// The outcome of a scan.
#[derive(Debug)]
pub struct ScanResult {
    pub path: String,
    pub findings: Vec<Finding>,
    pub lines_scanned: usize,
    /// 0..=100. 100 = pristine, 0 = maximum risk. Always set by `score()`.
    pub score: u32,
    pub tier: Tier,
    /// rule_id of the first override-gate finding, if any.
    pub override_gate_fired: Option<&'static str>,
    /// Set when the diff layer promoted the tier because of a newly-introduced
    /// finding. Holds a short human-readable explanation.
    pub promoted_by_diff: Option<String>,
    /// AUR RPC snapshot — `None` if no lookup happened (offline, package not
    /// in AUR, network failure).
    pub reputation: Option<Reputation>,
}

/// What a [`ScanResult`] says.
#[verifier::ext_equal]
pub struct ResultView {
    pub path: Seq<char>,
    pub findings: Seq<FindingView>,
    pub lines_scanned: int,
    pub score: int,
    pub tier: Tier,
    pub override_gate_fired: Option<Seq<char>>,
    pub promoted_by_diff: Option<Seq<char>>,
    pub reputation: Option<ReputationView>,
}

/// The text that an optional rule id holds.
pub open spec fn opt_id(s: Option<&'static str>) -> Option<Seq<char>> {
    match s {
        Some(t) => Some(t@),
        None => None,
    }
}

impl View for ScanResult {
    type V = ResultView;

    open spec fn view(&self) -> ResultView {
        ResultView {
            path: self.path@,
            findings: findings_view(self.findings@),
            lines_scanned: self.lines_scanned as int,
            score: self.score as int,
            tier: self.tier,
            override_gate_fired: opt_id(self.override_gate_fired),
            promoted_by_diff: opt_text(self.promoted_by_diff),
            reputation: match self.reputation {
                Some(r) => Some(r@),
                None => None,
            },
        }
    }
}

fn copy_findings(findings: &Vec<Finding>) -> (out: Vec<Finding>)
    ensures
        findings_view(out@) == findings_view(findings@),
{
    let mut out: Vec<Finding> = Vec::new();
    let mut i: usize = 0;
    while i < findings.len()
        invariant
            i <= findings@.len(),
            findings_view(out@) =~= findings_view(findings@).take(i as int),
        decreases findings@.len() - i,
    {
        let ghost before = out@;
        let f: Finding = findings[i].clone();
        out.push(f);
        assert(findings_view(out@) =~= findings_view(before).push(f@));
        i = i + 1;
    }
    assert(findings_view(findings@).take(i as int) =~= findings_view(findings@));
    out
}

impl Clone for ScanResult {
    fn clone(&self) -> (r: Self)
        ensures
            r@ == self@,
    {
        ScanResult {
            path: self.path.clone(),
            findings: copy_findings(&self.findings),
            lines_scanned: self.lines_scanned,
            score: self.score,
            tier: self.tier,
            override_gate_fired: self.override_gate_fired,
            promoted_by_diff: self.promoted_by_diff.clone(),
            reputation: match &self.reputation {
                Some(rep) => Some(rep.clone()),
                None => None,
            },
        }
    }
}

impl ScanResult {
    /// Whether the scan found nothing.
    pub fn is_clean(&self) -> (b: bool)
        ensures
            b == (self@.findings.len() == 0),
    {
        self.findings.len() == 0
    }
}

/// The points of all the findings.
pub open spec fn total_points(fs: Seq<FindingView>) -> int
    decreases fs.len(),
{
    if fs.len() == 0 {
        0
    } else {
        total_points(fs.drop_last()) + fs.last().points
    }
}

/// The place of the first override-gate finding; the number of findings
/// where there is none.
pub open spec fn gate_from(fs: Seq<FindingView>, from: int) -> int
    decreases fs.len() - from,
{
    if from >= fs.len() {
        fs.len() as int
    } else if fs[from].override_gate {
        from
    } else {
        gate_from(fs, from + 1)
    }
}

/// The rule of the first override-gate finding.
pub open spec fn first_gate(fs: Seq<FindingView>) -> Option<Seq<char>> {
    let i = gate_from(fs, 0);
    if i < fs.len() {
        Some(fs[i].rule_id)
    } else {
        None
    }
}

/// The trust left by findings of `risk` points in all.
pub open spec fn trust_left(risk: int) -> int {
    if risk >= 100 {
        0
    } else {
        100 - risk
    }
}

/// The tier of a trust score.
pub open spec fn tier_of_trust(trust: int) -> Tier {
    if trust >= 90 {
        Tier::Trusted
    } else if trust >= 70 {
        Tier::Okay
    } else if trust >= 50 {
        Tier::Sketchy
    } else if trust >= 25 {
        Tier::Suspicious
    } else {
        Tier::Malicious
    }
}

/// The trust score of a list of findings.
pub open spec fn trust_of(fs: Seq<FindingView>) -> int {
    if first_gate(fs) is Some {
        0
    } else {
        trust_left(total_points(fs))
    }
}

/// The tier of a list of findings.
pub open spec fn tier_of(fs: Seq<FindingView>) -> Tier {
    tier_of_trust(trust_of(fs))
}

/// Compute trust score (0..=100, higher = better) and tier from a list of findings.
///
/// Algorithm:
///   - If any finding has `override_gate = true`, tier is forced to `Malicious`
///     and score is 0 (one critical pattern alone is enough).
///   - Otherwise, total risk = sum(points), capped at 100. trust = 100 - risk.
///   - Tier thresholds (on trust):
///       Trusted:    trust >= 90
///       Ok:         trust >= 70
///       Sketchy:    trust >= 50
///       Suspicious: trust >= 25
///       Malicious:  trust <  25
pub fn score(findings: &[Finding]) -> (r: (u32, Tier, Option<&'static str>))
    ensures
        r.0 == trust_of(findings_view(findings@)),
        r.1 == tier_of(findings_view(findings@)),
        opt_id(r.2) == first_gate(findings_view(findings@)),
{
    let ghost fs = findings_view(findings@);
    let mut i: usize = 0;
    while i < findings.len()
        invariant
            i <= findings@.len(),
            fs == findings_view(findings@),
            gate_from(fs, 0) == gate_from(fs, i as int),
        decreases findings@.len() - i,
    {
        assert(fs[i as int] == findings@[i as int]@);
        if findings[i].override_gate {
            return (0, Tier::Malicious, Some(findings[i].rule_id));
        }
        i = i + 1;
    }
    let mut risk: u32 = 0;
    let mut k: usize = 0;
    assert(fs.take(0) =~= Seq::<FindingView>::empty());
    while k < findings.len()
        invariant
            k <= findings@.len(),
            fs == findings_view(findings@),
            risk <= 100,
            risk == 100 - trust_left(total_points(fs.take(k as int))),
        decreases findings@.len() - k,
    {
        assert(fs.take(k + 1).drop_last() =~= fs.take(k as int));
        assert(fs.take(k + 1).last() == findings@[k as int]@);
        let p: u32 = findings[k].points;
        if p >= 100 - risk {
            risk = 100;
        } else {
            risk = risk + p;
        }
        k = k + 1;
    }
    assert(fs.take(fs.len() as int) =~= fs);
    let trust: u32 = 100 - risk;
    let tier: Tier = if trust >= 90 {
        Tier::Trusted
    } else if trust >= 70 {
        Tier::Okay
    } else if trust >= 50 {
        Tier::Sketchy
    } else if trust >= 25 {
        Tier::Suspicious
    } else {
        Tier::Malicious
    };
    (trust, tier, None)
}

// ---------------------------------------------------------------------------
// Laws
// ---------------------------------------------------------------------------

/// Whether a gate is among the findings.
pub open spec fn has_gate(fs: Seq<FindingView>) -> bool {
    exists|i: int| 0 <= i < fs.len() && (#[trigger] fs[i]).override_gate
}

/// A gate is found exactly where there is one.
pub proof fn lemma_gate_exists(fs: Seq<FindingView>, from: int)
    requires
        0 <= from <= fs.len(),
    ensures
        from <= gate_from(fs, from) <= fs.len(),
        gate_from(fs, from) < fs.len() ==> fs[gate_from(fs, from)].override_gate,
        gate_from(fs, from) < fs.len() <==> (exists|i: int|
            from <= i < fs.len() && (#[trigger] fs[i]).override_gate),
    decreases fs.len() - from,
{
    if from < fs.len() && !fs[from].override_gate {
        lemma_gate_exists(fs, from + 1);
        if exists|i: int| from <= i < fs.len() && (#[trigger] fs[i]).override_gate {
            let i = choose|i: int| from <= i < fs.len() && (#[trigger] fs[i]).override_gate;
            assert(from + 1 <= i);
        }
    }
}

/// Whether no finding has negative points; so it is of every list of
/// [`Finding`]s.
pub open spec fn are_weighed(fs: Seq<FindingView>) -> bool {
    forall|i: int| 0 <= i < fs.len() ==> (#[trigger] fs[i]).points >= 0
}

/// The points of a [`Finding`] are not negative.
pub proof fn law_findings_are_weighed(v: Seq<Finding>)
    ensures
        are_weighed(findings_view(v)),
{
}

/// The trust score lies between 0 and 100, and nothing found is full trust.
pub proof fn law_trust_range(fs: Seq<FindingView>)
    requires
        are_weighed(fs),
    ensures
        0 <= trust_of(fs) <= 100,
        fs.len() == 0 ==> trust_of(fs) == 100 && tier_of(fs) == Tier::Trusted,
{
    lemma_points_not_negative(fs);
}

pub(crate) proof fn lemma_points_not_negative(fs: Seq<FindingView>)
    requires
        are_weighed(fs),
    ensures
        total_points(fs) >= 0,
    decreases fs.len(),
{
    if fs.len() > 0 {
        assert(are_weighed(fs.drop_last())) by {
            assert forall|i: int| 0 <= i < fs.drop_last().len() implies (
            #[trigger] fs.drop_last()[i]).points >= 0 by {
                assert(fs.drop_last()[i] == fs[i]);
            }
        }
        lemma_points_not_negative(fs.drop_last());
        assert(fs[fs.len() - 1].points >= 0);
    }
}

/// Each tier is a band of trust scores.
pub proof fn law_tier_bands(fs: Seq<FindingView>)
    requires
        are_weighed(fs),
    ensures
        tier_of(fs) == Tier::Trusted <==> 90 <= trust_of(fs) <= 100,
        tier_of(fs) == Tier::Okay <==> 70 <= trust_of(fs) <= 89,
        tier_of(fs) == Tier::Sketchy <==> 50 <= trust_of(fs) <= 69,
        tier_of(fs) == Tier::Suspicious <==> 25 <= trust_of(fs) <= 49,
        tier_of(fs) == Tier::Malicious <==> 0 <= trust_of(fs) <= 24,
{
    law_trust_range(fs);
}

/// A single finding of an override gate makes the result malicious and leaves
/// no trust, whatever else was found. The rule that is named has a finding of
/// its own among them.
pub proof fn law_gate_is_malicious(fs: Seq<FindingView>)
    ensures
        has_gate(fs) ==> trust_of(fs) == 0 && tier_of(fs) == Tier::Malicious,
        has_gate(fs) <==> first_gate(fs) is Some,
        first_gate(fs) matches Some(id) ==> exists|i: int|
            0 <= i < fs.len() && (#[trigger] fs[i]).override_gate && fs[i].rule_id == id,
{
    lemma_gate_exists(fs, 0);
}

/// Without a gate, trust is what the points leave of 100.
pub proof fn law_trust_is_what_points_leave(fs: Seq<FindingView>)
    requires
        !has_gate(fs),
    ensures
        total_points(fs) <= 100 ==> trust_of(fs) == 100 - total_points(fs),
        total_points(fs) > 100 ==> trust_of(fs) == 0,
{
    lemma_gate_exists(fs, 0);
}

proof fn lemma_points_add_up(a: Seq<FindingView>, b: Seq<FindingView>)
    ensures
        total_points(a + b) == total_points(a) + total_points(b),
    decreases b.len(),
{
    if b.len() == 0 {
        assert(a + b =~= a);
    } else {
        assert((a + b).drop_last() =~= a + b.drop_last());
        lemma_points_add_up(a, b.drop_last());
    }
}

/// More findings never help: they lower the trust score or leave it, and
/// worsen the tier or leave it.
pub proof fn law_more_findings_never_help(a: Seq<FindingView>, b: Seq<FindingView>)
    requires
        are_weighed(a),
        are_weighed(b),
    ensures
        trust_of(a + b) <= trust_of(a),
        trust_of(a + b) <= trust_of(b),
        tier_of(a + b).level() >= tier_of(a).level(),
        tier_of(a + b).level() >= tier_of(b).level(),
{
    lemma_points_add_up(a, b);
    lemma_points_not_negative(a);
    lemma_points_not_negative(b);
    law_gate_is_malicious(a);
    law_gate_is_malicious(b);
    law_gate_is_malicious(a + b);
    if has_gate(a) {
        let i = choose|i: int| 0 <= i < a.len() && (#[trigger] a[i]).override_gate;
        assert((a + b)[i].override_gate);
    }
    if has_gate(b) {
        let i = choose|i: int| 0 <= i < b.len() && (#[trigger] b[i]).override_gate;
        assert((a + b)[a.len() + i].override_gate);
    }
}

/// Whether the findings weigh no less than others: they have as many points,
/// and a gate where those have one.
pub open spec fn no_lighter(a: Seq<FindingView>, b: Seq<FindingView>) -> bool {
    total_points(a) >= total_points(b) && (has_gate(b) ==> has_gate(a))
}

/// Findings that weigh no less are trusted no more.
pub(crate) proof fn lemma_no_lighter(a: Seq<FindingView>, b: Seq<FindingView>)
    requires
        no_lighter(a, b),
    ensures
        trust_of(a) <= trust_of(b),
        tier_of(a).level() >= tier_of(b).level(),
{
    law_gate_is_malicious(a);
    law_gate_is_malicious(b);
}

/// A gate is among two lists of findings where it is among one of them.
pub(crate) proof fn lemma_gate_in_either(a: Seq<FindingView>, b: Seq<FindingView>)
    ensures
        total_points(a + b) == total_points(a) + total_points(b),
        has_gate(a + b) <==> has_gate(a) || has_gate(b),
{
    lemma_points_add_up(a, b);
    let s = a + b;
    if has_gate(a) {
        let i = choose|i: int| 0 <= i < a.len() && (#[trigger] a[i]).override_gate;
        assert(s[i].override_gate);
    }
    if has_gate(b) {
        let i = choose|i: int| 0 <= i < b.len() && (#[trigger] b[i]).override_gate;
        assert(s[a.len() + i].override_gate);
    }
    if has_gate(s) {
        let i = choose|i: int| 0 <= i < s.len() && (#[trigger] s[i]).override_gate;
        if i < a.len() {
            assert(a[i].override_gate);
        } else {
            assert(b[i - a.len()].override_gate);
        }
    }
}

/// A finding alone costs its points: one of 76 or more is malicious, one of 51
/// or more at least suspicious, among whatever others.
pub proof fn law_heavy_finding_weighs_in(fs: Seq<FindingView>, i: int)
    requires
        are_weighed(fs),
        0 <= i < fs.len(),
    ensures
        trust_of(fs) <= trust_left(fs[i].points),
        fs[i].points >= 76 ==> tier_of(fs) == Tier::Malicious,
        fs[i].points >= 51 ==> tier_of(fs).level() >= Tier::Suspicious.level(),
{
    let a = fs.take(i + 1);
    let b = fs.skip(i + 1);
    assert(fs =~= a + b);
    assert(a.drop_last() =~= fs.take(i));
    assert(a.last() == fs[i]);
    assert(are_weighed(a)) by {
        assert forall|k: int| 0 <= k < a.len() implies (#[trigger] a[k]).points >= 0 by {
            assert(a[k] == fs[k]);
        }
    }
    assert(are_weighed(fs.take(i))) by {
        assert forall|k: int| 0 <= k < fs.take(i).len() implies (#[trigger] fs.take(i)[k]).points
            >= 0 by {
            assert(fs.take(i)[k] == fs[k]);
        }
    }
    assert(are_weighed(b)) by {
        assert forall|k: int| 0 <= k < b.len() implies (#[trigger] b[k]).points >= 0 by {
            assert(b[k] == fs[i + 1 + k]);
        }
    }
    lemma_points_not_negative(fs.take(i));
    law_more_findings_never_help(a, b);
}

/// A badge never weighs less for more points, and a gate is always critical.
pub proof fn law_severity_follows_points(p: int, q: int, override_gate: bool)
    requires
        p <= q,
    ensures
        severity_of(p, override_gate).weight() <= severity_of(q, override_gate).weight(),
        severity_of(p, true) == Severity::Critical,
{
}

}
