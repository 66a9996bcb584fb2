//! AUR reputation.
//!
//! Turns the maintainer and engagement metadata that the AUR holds on a
//! package into AG090..AG094 findings (maintainer changed since last seen,
//! orphaned, newly submitted, flagged out-of-date, low engagement).

use vstd::prelude::*;

use crate::numeral::decimal;
use crate::numeral::write_number;
use crate::ordering::law_order_keeps_score;
use crate::ordering::law_order_permutes;
use crate::ordering::ordered;
use crate::ordering::sort_findings;
use crate::paths::entry_of;
use crate::paths::entry_path;
use crate::paths::join_path;
use crate::paths::joined;
use crate::paths::opt_str;
use crate::report::are_weighed;
use crate::report::findings_view;
use crate::report::first_gate;
use crate::report::law_more_findings_never_help;
use crate::report::opt_text;
use crate::report::score;
use crate::report::tier_of;
use crate::report::trust_of;
use crate::report::Finding;
use crate::report::FindingView;
use crate::report::MaintainerSummary;
use crate::report::Popularity;
use crate::report::PopularityView;
use crate::report::Reputation;
use crate::report::ReputationView;
use crate::report::ResultView;
use crate::report::ScanResult;
use crate::text::is_one_line;
use crate::text::lemma_lines_concat;
use crate::text::lemma_lines_cons;
use crate::text::lemma_trimmed_has_no_cr;
use crate::text::lines;
use crate::text::listed;
use crate::text::listed_names;
use crate::text::nonblank;
use crate::text::same_str;
use crate::text::strings;
use crate::text::trim;
use crate::text::Class;

verus! {

/// Static description of a non-regex rule. Used to list the reputation rules
/// alongside the regex-based ones.
pub struct MetaRule {
    pub id: &'static str,
    pub points: u32,
    pub override_gate: bool,
    pub title: &'static str,
    pub description: &'static str,
}

/// What a [`MetaRule`] says.
#[verifier::ext_equal]
pub struct MetaRuleView {
    pub id: Seq<char>,
    pub points: int,
    pub override_gate: bool,
    pub title: Seq<char>,
    pub description: Seq<char>,
}

impl View for MetaRule {
    type V = MetaRuleView;

    open spec fn view(&self) -> MetaRuleView {
        MetaRuleView {
            id: self.id@,
            points: self.points as int,
            override_gate: self.override_gate,
            title: self.title@,
            description: self.description@,
        }
    }
}

/// What a list of rules says.
pub open spec fn meta_rules_view(rules: Seq<MetaRule>) -> Seq<MetaRuleView> {
    rules.map_values(|r: MetaRule| r@)
}

/// A rule that is no override gate.
pub open spec fn meta_rule_view(
    id: Seq<char>,
    points: int,
    title: Seq<char>,
    description: Seq<char>,
) -> MetaRuleView {
    MetaRuleView { id, points, override_gate: false, title, description }
}

/// A rule that is no override gate.
pub(crate) fn meta_rule(
    id: &'static str,
    points: u32,
    title: &'static str,
    description: &'static str,
) -> (r: MetaRule)
    ensures
        r@ == meta_rule_view(id@, points as int, title@, description@),
{
    MetaRule { id, points, override_gate: false, title, description }
}

// ---------------------------------------------------------------------------
// The rules
// ---------------------------------------------------------------------------

pub const AG090_TITLE: &'static str = "AUR maintainer changed since the previously seen version";

pub const AG090_DESCRIPTION: &'static str = "The current AUR maintainer differs from the one observed on the previous scan. Transfer-of-ownership is one of the most common supply-chain attack vectors in package ecosystems — verify the new maintainer is trusted before installing.";

pub const AG091_TITLE: &'static str = "Package is orphaned in AUR";

pub const AG091_DESCRIPTION: &'static str = "The AUR record shows no maintainer. Orphaned packages are easier to hijack: any user can adopt them and the next release ships under a new identity with little review.";

pub const AG092_TITLE: &'static str = "Newly submitted to AUR";

pub const AG092_DESCRIPTION: &'static str = "First submitted to the AUR less than 30 days ago. New packages have no track record and are over-represented in known AUR malware incidents.";

pub const AG093_TITLE: &'static str = "Flagged out-of-date in AUR";

pub const AG093_DESCRIPTION: &'static str = "The AUR community has flagged this package as out-of-date. Abandoned packages drift away from the upstream they claim to ship and are a common starting point for hijacks.";

pub const AG094_TITLE: &'static str = "Low community engagement";

pub const AG094_DESCRIPTION: &'static str = "Few users have voted on this package and overall popularity is near zero. Not malicious in isolation, but combined with newness, orphan status, or maintainer change it indicates a package very few people are auditing.";

pub open spec fn maintainer_changed() -> MetaRuleView {
    meta_rule_view("AG090"@, 75, AG090_TITLE@, AG090_DESCRIPTION@)
}

pub open spec fn orphaned() -> MetaRuleView {
    meta_rule_view("AG091"@, 40, AG091_TITLE@, AG091_DESCRIPTION@)
}

pub open spec fn newly_submitted() -> MetaRuleView {
    meta_rule_view("AG092"@, 30, AG092_TITLE@, AG092_DESCRIPTION@)
}

pub open spec fn flagged() -> MetaRuleView {
    meta_rule_view("AG093"@, 20, AG093_TITLE@, AG093_DESCRIPTION@)
}

pub open spec fn low_engagement() -> MetaRuleView {
    meta_rule_view("AG094"@, 25, AG094_TITLE@, AG094_DESCRIPTION@)
}

/// The reputation rules.
pub open spec fn reputation_table() -> Seq<MetaRuleView> {
    seq![maintainer_changed(), orphaned(), newly_submitted(), flagged(), low_engagement()]
}

fn maintainer_changed_rule() -> (r: MetaRule)
    ensures
        r@ == maintainer_changed(),
{
    meta_rule("AG090", 75, AG090_TITLE, AG090_DESCRIPTION)
}

fn orphaned_rule() -> (r: MetaRule)
    ensures
        r@ == orphaned(),
{
    meta_rule("AG091", 40, AG091_TITLE, AG091_DESCRIPTION)
}

fn newly_submitted_rule() -> (r: MetaRule)
    ensures
        r@ == newly_submitted(),
{
    meta_rule("AG092", 30, AG092_TITLE, AG092_DESCRIPTION)
}

fn flagged_rule() -> (r: MetaRule)
    ensures
        r@ == flagged(),
{
    meta_rule("AG093", 20, AG093_TITLE, AG093_DESCRIPTION)
}

fn low_engagement_rule() -> (r: MetaRule)
    ensures
        r@ == low_engagement(),
{
    meta_rule("AG094", 25, AG094_TITLE, AG094_DESCRIPTION)
}

/// The reputation rules.
pub fn reputation_rules() -> (rules: Vec<MetaRule>)
    ensures
        meta_rules_view(rules@) == reputation_table(),
{
    let mut rules: Vec<MetaRule> = Vec::new();
    rules.push(maintainer_changed_rule());
    rules.push(orphaned_rule());
    rules.push(newly_submitted_rule());
    rules.push(flagged_rule());
    rules.push(low_engagement_rule());
    assert(meta_rules_view(rules@) =~= reputation_table());
    rules
}

// ---------------------------------------------------------------------------
// The AUR record
// ---------------------------------------------------------------------------

/// What the AUR says of a package.
#[derive(Debug)]
pub struct AurInfo {
    pub name: String,
    pub maintainer: Option<String>,
    pub submitter: Option<String>,
    pub num_votes: u32,
    pub popularity: Popularity,
    pub first_submitted: i64,
    pub last_modified: i64,
    pub out_of_date: Option<i64>,
}

/// What an [`AurInfo`] says.
#[verifier::ext_equal]
pub struct AurInfoView {
    pub name: Seq<char>,
    pub maintainer: Option<Seq<char>>,
    pub submitter: Option<Seq<char>>,
    pub num_votes: int,
    pub popularity: PopularityView,
    pub first_submitted: int,
    pub last_modified: int,
    pub out_of_date: Option<i64>,
}

impl View for AurInfo {
    type V = AurInfoView;

    open spec fn view(&self) -> AurInfoView {
        AurInfoView {
            name: self.name@,
            maintainer: opt_text(self.maintainer),
            submitter: opt_text(self.submitter),
            num_votes: self.num_votes as int,
            popularity: self.popularity@,
            first_submitted: self.first_submitted as int,
            last_modified: self.last_modified as int,
            out_of_date: self.out_of_date,
        }
    }
}

impl Clone for AurInfo {
    fn clone(&self) -> (i: Self)
        ensures
            i == *self,
    {
        AurInfo {
            name: self.name.clone(),
            maintainer: self.maintainer.clone(),
            submitter: self.submitter.clone(),
            num_votes: self.num_votes,
            popularity: self.popularity.clone(),
            first_submitted: self.first_submitted,
            last_modified: self.last_modified,
            out_of_date: self.out_of_date,
        }
    }
}

/// What is known of the maintainer's other packages.
#[derive(Debug, Clone, Copy)]
pub struct TrackRecord {
    /// Whether the maintainer's packages clear the threshold of an
    /// established account.
    pub established: bool,
    /// The packages in numbers, where they are known.
    pub summary: Option<MaintainerSummary>,
}

/// Whether the double-precision number with the given bit pattern is below
/// one tenth. Patterns of positive numbers are ordered as the numbers are, a
/// set sign bit makes a number negative, and what is not a number is below
/// nothing.
pub open spec fn below_one_tenth(bits: u64) -> bool {
    if bits < 0x8000_0000_0000_0000 {
        bits < 0x3fb9_9999_9999_999a
    } else {
        bits <= 0xfff0_0000_0000_0000
    }
}

/// Whole days from `ts` to `now`; none where `ts` lies in the future.
pub open spec fn days_between(ts: int, now: int) -> int {
    if now > ts {
        (now - ts) / 86_400
    } else {
        0
    }
}

pub(crate) fn whole_days(ts: i64, now: i64) -> (d: u64)
    requires
        now - ts <= i64::MAX,
    ensures
        d == days_between(ts as int, now as int),
{
    if now > ts {
        let s: u64 = (now - ts) as u64;
        s / 86_400
    } else {
        0
    }
}

/// A finding of a reputation rule.
pub open spec fn rep_finding(rule: MetaRuleView, snippet: Seq<char>) -> FindingView {
    FindingView {
        rule_id: rule.id,
        points: rule.points,
        override_gate: rule.override_gate,
        title: rule.title,
        description: rule.description,
        line: 0,
        snippet,
        source_file: Some("AUR"@),
        is_new: false,
    }
}

fn meta_finding(rule: MetaRule, snippet: String) -> (f: Finding)
    ensures
        f@ == rep_finding(rule@, snippet@),
{
    Finding {
        rule_id: rule.id,
        points: rule.points,
        override_gate: rule.override_gate,
        title: rule.title,
        description: rule.description,
        line: 0,
        snippet,
        source_file: Some("AUR".to_owned()),
        is_new: false,
    }
}

/// One finding where the condition holds, else none.
pub open spec fn when(cond: bool, f: FindingView) -> Seq<FindingView> {
    if cond {
        seq![f]
    } else {
        Seq::empty()
    }
}

/// AG091: nobody maintains the package.
pub open spec fn orphan_findings(info: AurInfoView) -> Seq<FindingView> {
    when(info.maintainer is None, rep_finding(orphaned(), "(no Maintainer in AUR record)"@))
}

/// AG092: the package is less than 30 days old, and its maintainer not
/// established.
pub open spec fn newness_findings(
    info: AurInfoView,
    now: int,
    established: bool,
) -> Seq<FindingView> {
    let age = days_between(info.first_submitted, now);
    when(
        !established && info.first_submitted > 0 && age < 30,
        rep_finding(newly_submitted(), "FirstSubmitted: "@ + decimal(age) + " day(s) ago"@),
    )
}

/// AG093: the package is flagged out-of-date.
pub open spec fn flag_findings(info: AurInfoView, now: int) -> Seq<FindingView> {
    match info.out_of_date {
        Some(ts) => seq![
            rep_finding(
                flagged(),
                "flagged out-of-date "@ + decimal(days_between(ts as int, now)) + " day(s) ago"@,
            ),
        ],
        None => Seq::empty(),
    }
}

/// AG094: the package has fewer than five votes and next to no popularity,
/// and its maintainer is not established.
pub open spec fn engagement_findings(info: AurInfoView, established: bool) -> Seq<FindingView> {
    when(
        !established && info.num_votes < 5 && below_one_tenth(info.popularity.bits),
        rep_finding(
            low_engagement(),
            "votes="@ + decimal(info.num_votes) + " popularity="@ + info.popularity.three_places,
        ),
    )
}

/// AG090: the maintainer is another one than the last that was seen.
pub open spec fn transfer_findings(
    info: AurInfoView,
    last_seen: Option<Seq<char>>,
) -> Seq<FindingView> {
    match (info.maintainer, last_seen) {
        (Some(current), Some(last)) => when(
            last != current,
            rep_finding(
                maintainer_changed(),
                "previous="@ + last + " → current="@ + current,
            ),
        ),
        _ => Seq::empty(),
    }
}

/// What the AUR record gives rise to.
pub open spec fn reputation_findings(
    info: AurInfoView,
    now: int,
    last_seen: Option<Seq<char>>,
    established: bool,
) -> Seq<FindingView> {
    orphan_findings(info) + newness_findings(info, now, established) + flag_findings(info, now)
        + engagement_findings(info, established) + transfer_findings(info, last_seen)
}

/// The snapshot that is attached to the result.
pub open spec fn snapshot(info: AurInfoView, record: TrackRecord) -> ReputationView {
    ReputationView {
        maintainer: info.maintainer,
        first_submitted: info.first_submitted,
        last_modified: info.last_modified,
        num_votes: info.num_votes,
        popularity: info.popularity,
        out_of_date: info.out_of_date,
        maintainer_established: record.established,
        maintainer_summary: record.summary,
    }
}

/// The result with what the AUR record adds to it. Where that is something,
/// findings, score, tier and gate are made up anew from all findings.
pub open spec fn with_reputation(
    r: ResultView,
    info: AurInfoView,
    now: int,
    last_seen: Option<Seq<char>>,
    record: TrackRecord,
) -> ResultView {
    let more = reputation_findings(info, now, last_seen, record.established);
    let all = ordered(r.findings + more);
    if more.len() == 0 {
        ResultView { reputation: Some(snapshot(info, record)), ..r }
    } else {
        ResultView {
            findings: all,
            score: trust_of(all),
            tier: tier_of(all),
            override_gate_fired: first_gate(all),
            reputation: Some(snapshot(info, record)),
            ..r
        }
    }
}

/// Whether the times of the record lie no further before `now` than an `i64`
/// can say.
pub open spec fn times_fit(info: AurInfoView, now: int) -> bool {
    &&& now - info.first_submitted <= i64::MAX
    &&& info.out_of_date matches Some(ts) ==> now - ts <= i64::MAX
}

/// Whether the times of the record lie no further before `now` than an `i64`
/// can say.
pub fn has_sane_times(info: &AurInfo, now: i64) -> (b: bool)
    ensures
        b == times_fit(info@, now as int),
{
    if now.checked_sub(info.first_submitted).is_none() && now > info.first_submitted {
        return false;
    }
    match info.out_of_date {
        Some(ts) => now.checked_sub(ts).is_some() || now <= ts,
        None => true,
    }
}

fn push_finding(out: &mut Vec<Finding>, f: Finding)
    ensures
        findings_view(final(out)@) == findings_view(old(out)@).push(f@),
{
    let ghost given = out@;
    out.push(f);
    assert(findings_view(out@) =~= findings_view(given).push(f@));
}

fn new_findings(
    info: &AurInfo,
    now: i64,
    last_seen: &Option<String>,
    established: bool,
) -> (out: Vec<Finding>)
    requires
        times_fit(info@, now as int),
    ensures
        findings_view(out@) == reputation_findings(
            info@,
            now as int,
            opt_text(*last_seen),
            established,
        ),
{
    let mut out: Vec<Finding> = Vec::new();
    if info.maintainer.is_none() {
        push_finding(
            &mut out,
            meta_finding(orphaned_rule(), "(no Maintainer in AUR record)".to_owned()),
        );
    }
    assert(findings_view(out@) =~= orphan_findings(info@));
    let age: u64 = whole_days(info.first_submitted, now);
    let ghost a = findings_view(out@);
    if !established && info.first_submitted > 0 && age < 30 {
        let mut s: String = "FirstSubmitted: ".to_owned();
        s.append(write_number(age).as_str());
        s.append(" day(s) ago");
        push_finding(&mut out, meta_finding(newly_submitted_rule(), s));
    }
    assert(findings_view(out@) =~= a + newness_findings(info@, now as int, established));
    let ghost b = findings_view(out@);
    if let Some(ts) = info.out_of_date {
        let mut s: String = "flagged out-of-date ".to_owned();
        s.append(write_number(whole_days(ts, now)).as_str());
        s.append(" day(s) ago");
        push_finding(&mut out, meta_finding(flagged_rule(), s));
    }
    assert(findings_view(out@) =~= b + flag_findings(info@, now as int));
    let ghost c = findings_view(out@);
    if !established && info.num_votes < 5 && is_below_one_tenth(info.popularity.bits) {
        let mut s: String = "votes=".to_owned();
        s.append(write_number(info.num_votes as u64).as_str());
        s.append(" popularity=");
        s.append(info.popularity.three_places.as_str());
        push_finding(&mut out, meta_finding(low_engagement_rule(), s));
    }
    assert(findings_view(out@) =~= c + engagement_findings(info@, established));
    let ghost d = findings_view(out@);
    if let Some(current) = &info.maintainer {
        if let Some(last) = last_seen {
            if !same_str(last.as_str(), current.as_str()) {
                let mut s: String = "previous=".to_owned();
                s.append(last.as_str());
                s.append(" → current=");
                s.append(current.as_str());
                push_finding(&mut out, meta_finding(maintainer_changed_rule(), s));
            }
        }
    }
    assert(findings_view(out@) =~= d + transfer_findings(info@, opt_text(*last_seen)));
    out
}

/// Whether the double-precision number with the given bit pattern is below
/// one tenth.
pub fn is_below_one_tenth(bits: u64) -> (b: bool)
    ensures
        b == below_one_tenth(bits),
{
    if bits < 0x8000_0000_0000_0000 {
        bits < 0x3fb9_9999_9999_999a
    } else {
        bits <= 0xfff0_0000_0000_0000
    }
}

/// Apply reputation-derived findings to a scan result and attach the
/// `Reputation` block for display. Recomputes score/tier afterwards so
/// AG090..AG094 contribute to the overall verdict.
///
/// `last_seen` is the maintainer observed on the previous scan, if one was.
pub fn apply(
    result: &mut ScanResult,
    info: &AurInfo,
    now: i64,
    last_seen: &Option<String>,
    record: TrackRecord,
)
    requires
        times_fit(info@, now as int),
    ensures
        final(result)@ == with_reputation(
            old(result)@,
            info@,
            now as int,
            opt_text(*last_seen),
            record,
        ),
{
    let mut more: Vec<Finding> = new_findings(info, now, last_seen, record.established);
    let ghost given = result@;
    if more.len() > 0 {
        let ghost a = result.findings@;
        let ghost b = more@;
        result.findings.append(&mut more);
        assert(findings_view(result.findings@) =~= findings_view(a) + findings_view(b));
        sort_findings(&mut result.findings);
        let (s, t, g) = score(result.findings.as_slice());
        result.score = s;
        result.tier = t;
        result.override_gate_fired = g;
    }
    result.reputation = Some(
        Reputation {
            maintainer: info.maintainer.clone(),
            first_submitted: info.first_submitted,
            last_modified: info.last_modified,
            num_votes: info.num_votes,
            popularity: info.popularity.clone(),
            out_of_date: info.out_of_date,
            maintainer_established: record.established,
            maintainer_summary: record.summary,
        },
    );
}

// ---------------------------------------------------------------------------
// The log of maintainers
// ---------------------------------------------------------------------------

/// The maintainer that a log names last.
pub open spec fn last_logged(body: Option<Seq<char>>) -> Option<Seq<char>> {
    match body {
        Some(b) => if listed(b).len() > 0 {
            Some(listed(b).last())
        } else {
            None
        },
        None => None,
    }
}

/// The maintainer that the log names last; none where there is no log.
pub fn last_maintainer(log: Option<&str>) -> (m: Option<String>)
    ensures
        opt_text(m) == last_logged(opt_str(log)),
{
    match log {
        Some(body) => {
            let mut names: Vec<String> = listed_names(body);
            assert(strings(names@).len() == names@.len());
            if names.len() > 0 {
                assert(strings(names@).last() == names@.last()@);
            }
            names.pop()
        },
        None => None,
    }
}

/// What is to be appended to the log so that it names `maintainer` last: a
/// line of its own, or nothing where it does already.
pub open spec fn log_addition(
    body: Option<Seq<char>>,
    maintainer: Option<Seq<char>>,
) -> Option<Seq<char>> {
    match maintainer {
        Some(m) => if last_logged(body) == Some(m) {
            None
        } else {
            Some(m + "\n"@)
        },
        None => None,
    }
}

/// What is to be appended to the log of maintainers. Nothing where the last
/// entry already matches: that keeps the log compact.
pub fn maintainer_log_addition(log: Option<&str>, maintainer: &Option<String>) -> (line: Option<
    String,
>)
    ensures
        opt_text(line) == log_addition(opt_str(log), opt_text(*maintainer)),
{
    let current: &String = match maintainer {
        Some(m) => m,
        None => {
            return None;
        },
    };
    if let Some(last) = last_maintainer(log) {
        if same_str(last.as_str(), current.as_str()) {
            return None;
        }
    }
    let mut line: String = current.clone();
    line.append("\n");
    Some(line)
}

// ---------------------------------------------------------------------------
// Replies and their cache
// ---------------------------------------------------------------------------

/// How long a cached reply is good for, in seconds.
pub const CACHE_TTL_SECS: u64 = 3600;

/// Whether a cached reply of that age is still good.
pub open spec fn is_fresh(age_secs: int) -> bool {
    age_secs <= CACHE_TTL_SECS
}

/// Whether a cached reply of that age is still good.
pub fn reply_is_fresh(age_secs: u64) -> (b: bool)
    ensures
        b == (age_secs <= CACHE_TTL_SECS),
        b == is_fresh(age_secs as int),
{
    age_secs <= CACHE_TTL_SECS
}

/// What a list of records says.
pub open spec fn infos_view(v: Seq<AurInfo>) -> Seq<AurInfoView> {
    v.map_values(|i: AurInfo| i@)
}

/// The place of the first record named `name`, from place `from` on; the
/// number of records where there is none.
pub open spec fn named_from(infos: Seq<AurInfoView>, name: Seq<char>, from: int) -> int
    decreases infos.len() - from,
{
    if from >= infos.len() {
        infos.len() as int
    } else if infos[from].name == name {
        from
    } else {
        named_from(infos, name, from + 1)
    }
}

/// The record that a reply holds for the package: the first of its name, or
/// else the first of all. None where the reply is of another type or empty.
pub open spec fn chosen_info(
    response_type: Seq<char>,
    infos: Seq<AurInfoView>,
    pkgname: Seq<char>,
) -> Option<AurInfoView> {
    if response_type != "multiinfo"@ || infos.len() == 0 {
        None
    } else {
        let i = named_from(infos, pkgname, 0);
        Some(
            infos[if i < infos.len() {
                i
            } else {
                0
            }],
        )
    }
}

/// The record that a reply holds for the package.
pub fn choose_info(
    response_type: &str,
    results: Vec<AurInfo>,
    pkgname: &str,
) -> (info: Option<AurInfo>)
    ensures
        match info {
            Some(i) => chosen_info(response_type@, infos_view(results@), pkgname@) == Some(i@),
            None => chosen_info(response_type@, infos_view(results@), pkgname@) is None,
        },
{
    if !same_str(response_type, "multiinfo") || results.len() == 0 {
        return None;
    }
    let ghost infos = infos_view(results@);
    let mut rest: Vec<AurInfo> = results;
    let mut i: usize = 0;
    #[verifier::loop_isolation(false)]
    while i < rest.len()
        invariant
            i <= rest@.len(),
            infos == infos_view(rest@),
            named_from(infos, pkgname@, 0) == named_from(infos, pkgname@, i as int),
        decreases rest@.len() - i,
    {
        assert(infos[i as int] == rest@[i as int]@);
        if same_str(rest[i].name.as_str(), pkgname) {
            return Some(rest.swap_remove(i));
        }
        i = i + 1;
    }
    assert(infos[0] == rest@[0]@);
    Some(rest.swap_remove(0))
}

/// Whether the setting opts out of network access for this run.
pub open spec fn opts_out(setting: Option<Seq<char>>) -> bool {
    ||| setting == Some("1"@)
    ||| setting == Some("yes"@)
    ||| setting == Some("true"@)
}

/// `true` if the user has explicitly opted out of network access for this run.
pub fn network_disabled(setting: Option<&str>) -> (b: bool)
    ensures
        b == opts_out(opt_str(setting)),
{
    match setting {
        Some(s) => same_str(s, "1") || same_str(s, "yes") || same_str(s, "true"),
        None => false,
    }
}

/// The file in which the reply for the package is cached.
pub fn rpc_cache_path(root: &str, pkgname: &str) -> (p: String)
    ensures
        p@ == entry_of(joined(root@, "info"@), pkgname@, ".json"@),
{
    entry_path(join_path(root, "info").as_str(), pkgname, ".json")
}

/// The file that logs the maintainers of the package.
pub fn maintainer_log_path(root: &str, pkgname: &str) -> (p: String)
    ensures
        p@ == entry_of(joined(root@, "maintainer-history"@), pkgname@, ".txt"@),
{
    entry_path(join_path(root, "maintainer-history").as_str(), pkgname, ".txt")
}

// ---------------------------------------------------------------------------
// Laws
// ---------------------------------------------------------------------------

/// Where the AUR record gives rise to nothing, a result is left alone but for
/// the snapshot that is attached.
pub proof fn law_good_standing_changes_nothing(
    r: ResultView,
    info: AurInfoView,
    now: int,
    last_seen: Option<Seq<char>>,
    record: TrackRecord,
)
    requires
        reputation_findings(info, now, last_seen, record.established).len() == 0,
    ensures
        with_reputation(r, info, now, last_seen, record) == (ResultView {
            reputation: Some(snapshot(info, record)),
            ..r
        }),
{
}

/// The AUR record takes no finding away: those of the result and those that
/// it gives rise to are all there, each as often, and nothing else.
pub proof fn law_reputation_only_adds(
    r: ResultView,
    info: AurInfoView,
    now: int,
    last_seen: Option<Seq<char>>,
    record: TrackRecord,
)
    ensures
        with_reputation(r, info, now, last_seen, record).findings.to_multiset()
            == r.findings.to_multiset().add(
            reputation_findings(info, now, last_seen, record.established).to_multiset(),
        ),
{
    broadcast use vstd::seq_lib::group_to_multiset_ensures;
    broadcast use vstd::multiset::group_multiset_axioms;

    let more = reputation_findings(info, now, last_seen, record.established);
    vstd::seq_lib::lemma_multiset_commutative(r.findings, more);
    law_order_permutes(r.findings + more);
    if more.len() == 0 {
        assert(more =~= Seq::<FindingView>::empty());
        assert(r.findings + more =~= r.findings);
    }
}

proof fn lemma_reputation_is_weighed(
    info: AurInfoView,
    now: int,
    last_seen: Option<Seq<char>>,
    established: bool,
)
    ensures
        are_weighed(reputation_findings(info, now, last_seen, established)),
{
}

/// The AUR record never makes a verdict better.
pub proof fn law_reputation_never_helps(
    r: ResultView,
    info: AurInfoView,
    now: int,
    last_seen: Option<Seq<char>>,
    record: TrackRecord,
)
    requires
        are_weighed(r.findings),
        r.score == trust_of(r.findings),
        r.tier == tier_of(r.findings),
    ensures
        with_reputation(r, info, now, last_seen, record).score <= r.score,
        with_reputation(r, info, now, last_seen, record).tier.level() >= r.tier.level(),
{
    let more = reputation_findings(info, now, last_seen, record.established);
    lemma_reputation_is_weighed(info, now, last_seen, record.established);
    law_more_findings_never_help(r.findings, more);
    law_order_keeps_score(r.findings + more);
}

/// For an established maintainer neither AG092 nor AG094 is raised.
pub proof fn law_established_maintainer_is_not_new(
    info: AurInfoView,
    now: int,
    last_seen: Option<Seq<char>>,
    i: int,
)
    requires
        0 <= i < reputation_findings(info, now, last_seen, true).len(),
    ensures
        reputation_findings(info, now, last_seen, true)[i].rule_id != "AG092"@,
        reputation_findings(info, now, last_seen, true)[i].rule_id != "AG094"@,
{
    reveal_strlit("AG090");
    reveal_strlit("AG091");
    reveal_strlit("AG092");
    reveal_strlit("AG093");
    reveal_strlit("AG094");
    assert("AG090"@[4] == '0' && "AG091"@[4] == '1' && "AG092"@[4] == '2' && "AG093"@[4] == '3'
        && "AG094"@[4] == '4');
}

/// What the log holds once something is appended to it, if anything is.
pub open spec fn appended(log: Option<Seq<char>>, addition: Option<Seq<char>>) -> Option<Seq<char>> {
    match (log, addition) {
        (Some(body), Some(line)) => Some(body + line),
        (None, Some(line)) => Some(line),
        (_, None) => log,
    }
}

/// Whether each entry of the log ends with a line feed.
pub open spec fn is_log(log: Option<Seq<char>>) -> bool {
    log matches Some(body) ==> body.len() == 0 || body.last() == '\n'
}

/// Whether the name can stand on a line of a log: it is not empty, holds no
/// line feed, and has no blanks around it.
pub open spec fn is_log_name(name: Seq<char>) -> bool {
    name.len() > 0 && is_one_line(name) && trim(name, Class::Blank) == name
}

proof fn lemma_nonblank_push(ls: Seq<Seq<char>>, name: Seq<char>)
    requires
        trim(name, Class::Blank) == name,
        name.len() > 0,
    ensures
        nonblank(ls.push(name)) == nonblank(ls).push(name),
{
    assert(ls.push(name).drop_last() =~= ls);
}

/// Once a maintainer is recorded, the log names them last, and stays a log.
pub proof fn law_recorded_maintainer_is_last(log: Option<Seq<char>>, name: Seq<char>)
    requires
        is_log(log),
        is_log_name(name),
    ensures
        is_log(appended(log, log_addition(log, Some(name)))),
        last_logged(appended(log, log_addition(log, Some(name)))) == Some(name),
{
    reveal_strlit("\n");
    let line = name + "\n"@;
    assert("\n"@ =~= seq!['\n']);
    assert(line.last() == '\n');
    lemma_trimmed_has_no_cr(name);
    lemma_lines_cons(name, Seq::empty());
    assert(name + seq!['\n'] + Seq::<char>::empty() =~= line);
    assert(lines(line) =~= seq![name]);
    match log {
        Some(body) => {
            if last_logged(log) != Some(name) {
                lemma_lines_concat(body, line);
                assert(lines(body) + lines(line) =~= lines(body).push(name));
                lemma_nonblank_push(lines(body), name);
                assert((body + line).last() == '\n');
            }
        },
        None => {
            assert(Seq::<Seq<char>>::empty().push(name) =~= seq![name]);
            lemma_nonblank_push(Seq::empty(), name);
        },
    }
}

/// A maintainer that was recorded raises no alarm on the next scan, and is not
/// recorded twice in a row.
pub proof fn law_recorded_maintainer_raises_no_alarm(
    log: Option<Seq<char>>,
    info: AurInfoView,
    name: Seq<char>,
)
    requires
        is_log(log),
        is_log_name(name),
        info.maintainer == Some(name),
    ensures
        ({
            let next = appended(log, log_addition(log, Some(name)));
            &&& transfer_findings(info, last_logged(next)).len() == 0
            &&& log_addition(next, Some(name)) is None
        }),
{
    law_recorded_maintainer_is_last(log, name);
}

/// A maintainer seen for the first time raises no alarm.
pub proof fn law_first_sighting_raises_no_alarm(info: AurInfoView)
    ensures
        transfer_findings(info, last_logged(None)).len() == 0,
{
}

/// A maintainer other than the one that was recorded last raises AG090.
pub proof fn law_transfer_is_noticed(log: Option<Seq<char>>, info: AurInfoView, name: Seq<char>)
    requires
        is_log(log),
        is_log_name(name),
        info.maintainer matches Some(current) && current != name,
    ensures
        ({
            let next = appended(log, log_addition(log, Some(name)));
            &&& transfer_findings(info, last_logged(next)).len() == 1
            &&& transfer_findings(info, last_logged(next))[0].rule_id == "AG090"@
        }),
{
    law_recorded_maintainer_is_last(log, name);
}

}
