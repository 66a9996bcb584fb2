//! The audit of one package, and what is done on its outcome.

use vstd::prelude::*;

use crate::diff::all_marked;
use crate::diff::escalate_tier;
use crate::diff::escalated;
use crate::diff::identifier;
use crate::diff::law_marks_keep_verdict;
use crate::diff::law_scored_result_stays;
use crate::diff::mark_new_findings;
use crate::diff::pkgname_from;
use crate::ordering::law_order_keeps_score;
use crate::ordering::ordered;
use crate::outside::debug_quoted;
use crate::outside::lowered;
use crate::outside::quote;
use crate::outside::regex_first_group;
use crate::paths::join_path;
use crate::paths::joined;
use crate::paths::opt_str;
use crate::patterns::is_name;
use crate::patterns::rule_table;
use crate::patterns::PKGBASE_PATTERN;
use crate::patterns::PKGNAME_PATTERN;
use crate::report::are_weighed;
use crate::report::first_gate;
use crate::report::has_gate;
use crate::report::law_findings_are_weighed;
use crate::report::law_gate_is_malicious;
use crate::report::lemma_gate_in_either;
use crate::report::lemma_no_lighter;
use crate::report::lemma_points_not_negative;
use crate::report::opt_text;
use crate::report::tier_of;
use crate::report::total_points;
use crate::report::trust_of;
use crate::report::FindingView;
use crate::report::ResultView;
use crate::report::ScanResult;
use crate::report::Tier;
use crate::rpc::apply;
use crate::rpc::has_sane_times;
use crate::rpc::network_disabled;
use crate::rpc::opts_out;
use crate::rpc::reputation_findings;
use crate::rpc::times_fit;
use crate::rpc::with_reputation;
use crate::rpc::AurInfo;
use crate::rpc::AurInfoView;
use crate::rpc::TrackRecord;
use crate::scanner::bundle_verdict;
use crate::scanner::installs_view;
use crate::scanner::law_rules_are_weighed;
use crate::scanner::lemma_bundle_weighed;
use crate::scanner::lemma_scriptlet_weighs_in;
use crate::scanner::scan_pkgbuild_bundle;
use crate::scanner::InstallFile;
use crate::text::is_piece;
use crate::text::same_str;
use crate::ui::confirmed;

verus! {

// ---------------------------------------------------------------------------
// What is scanned
// ---------------------------------------------------------------------------

/// Where the PKGBUILD is looked for: inside a directory, or at the path
/// itself.
pub open spec fn candidate(path: Seq<char>, is_dir: bool) -> Seq<char> {
    if is_dir {
        joined(path, "PKGBUILD"@)
    } else {
        path
    }
}

/// Where the PKGBUILD is looked for.
pub fn pkgbuild_candidate(path: &str, is_dir: bool) -> (p: String)
    ensures
        p@ == candidate(path@, is_dir),
{
    if is_dir {
        join_path(path, "PKGBUILD")
    } else {
        path.to_owned()
    }
}

/// The PKGBUILD to scan, given whether the path is a directory and whether
/// there is something at [`pkgbuild_candidate`]; else what is wrong.
pub fn resolve_pkgbuild(path: &str, is_dir: bool, exists: bool) -> (r: Result<String, String>)
    ensures
        r is Ok <==> exists,
        r matches Ok(p) ==> p@ == candidate(path@, is_dir),
        r matches Err(e) ==> e@ == (if is_dir {
            "no PKGBUILD found in "@ + path@
        } else {
            "path does not exist: "@ + path@
        }),
{
    if exists {
        return Ok(pkgbuild_candidate(path, is_dir));
    }
    let mut e: String = if is_dir {
        "no PKGBUILD found in ".to_owned()
    } else {
        "path does not exist: ".to_owned()
    };
    e.append(path);
    Err(e)
}

/// The name that the PKGBUILD gives the package.
pub open spec fn package_name(pkgbuild: Seq<char>) -> Option<Seq<char>> {
    identifier(
        regex_first_group(PKGBASE_PATTERN@, pkgbuild),
        regex_first_group(PKGNAME_PATTERN@, pkgbuild),
    )
}

/// The name under which the previous version is kept, where it is asked for.
pub open spec fn history_name(pkgbuild: Seq<char>, with_diff: bool) -> Option<Seq<char>> {
    if with_diff {
        package_name(pkgbuild)
    } else {
        None
    }
}

/// The name that the AUR is asked about, where it is asked.
pub open spec fn lookup_name(
    pkgbuild: Seq<char>,
    with_network: bool,
    offline: Option<Seq<char>>,
) -> Option<Seq<char>> {
    if with_network && !opts_out(offline) {
        package_name(pkgbuild)
    } else {
        None
    }
}

/// The name under which the previous version is kept, where it is asked for.
pub fn history_key(pkgbuild: &str, with_diff: bool) -> (key: Option<String>)
    ensures
        key matches Some(name) ==> is_name(name@) && is_piece(name@, pkgbuild@),
        opt_text(key) == history_name(pkgbuild@, with_diff),
        opt_text(key) == (if with_diff {
            package_name(pkgbuild@)
        } else {
            None
        }),
{
    if with_diff {
        pkgname_from(pkgbuild)
    } else {
        None
    }
}

/// The name that the AUR is asked about, where it is asked. `offline` is the
/// setting `AUR_GUARD_OFFLINE`.
pub fn lookup_key(pkgbuild: &str, with_network: bool, offline: Option<&str>) -> (key: Option<
    String,
>)
    ensures
        key matches Some(name) ==> is_name(name@) && is_piece(name@, pkgbuild@),
        opt_text(key) == lookup_name(pkgbuild@, with_network, opt_str(offline)),
        opt_text(key) == (if with_network && !opts_out(opt_str(offline)) {
            package_name(pkgbuild@)
        } else {
            None
        }),
{
    if with_network && !network_disabled(offline) {
        pkgname_from(pkgbuild)
    } else {
        None
    }
}

// ---------------------------------------------------------------------------
// The scan
// ---------------------------------------------------------------------------

/// What the AUR says of a package, and when it was asked.
pub struct Inquiry {
    pub info: AurInfo,
    /// The time of the scan, in seconds since the epoch.
    pub now: i64,
    /// The maintainer observed on the previous scan, if one was.
    pub last_seen: Option<String>,
    /// What is known of the maintainer's other packages.
    pub record: TrackRecord,
}

/// What an [`Inquiry`] says.
#[verifier::ext_equal]
pub struct InquiryView {
    pub info: AurInfoView,
    pub now: int,
    pub last_seen: Option<Seq<char>>,
    pub record: TrackRecord,
}

impl View for Inquiry {
    type V = InquiryView;

    open spec fn view(&self) -> InquiryView {
        InquiryView {
            info: self.info@,
            now: self.now as int,
            last_seen: opt_text(self.last_seen),
            record: self.record,
        }
    }
}

/// What an optional [`Inquiry`] says.
pub open spec fn inquiry_view(aur: Option<&Inquiry>) -> Option<InquiryView> {
    match aur {
        Some(q) => Some(q@),
        None => None,
    }
}

/// The result with its new findings marked and its tier escalated, where a
/// previous version is known.
pub open spec fn compared(
    r: ResultView,
    previous: Option<Seq<char>>,
    pkgbuild: Seq<char>,
) -> ResultView {
    match previous {
        Some(prev) => escalated(
            ResultView { findings: all_marked(r.findings, prev, pkgbuild), ..r },
        ),
        None => r,
    }
}

/// The result with what the AUR says. A reply whose times make no sense is
/// passed over, as if there were none.
pub open spec fn enriched(r: ResultView, aur: Option<InquiryView>) -> ResultView {
    match aur {
        Some(q) => if times_fit(q.info, q.now) {
            with_reputation(r, q.info, q.now, q.last_seen, q.record)
        } else {
            r
        },
        None => r,
    }
}

/// The outcome of a full scan.
pub open spec fn audit(
    path: Seq<char>,
    pkgbuild: Seq<char>,
    files: Seq<(Seq<char>, Seq<char>)>,
    previous: Option<Seq<char>>,
    aur: Option<InquiryView>,
) -> ResultView {
    enriched(
        compared(bundle_verdict(rule_table(), path, pkgbuild, files), previous, pkgbuild),
        aur,
    )
}

/// Whether score, tier and gate follow from the findings.
pub open spec fn is_scored(r: ResultView) -> bool {
    &&& r.score == trust_of(r.findings)
    &&& r.tier == tier_of(r.findings)
    &&& r.override_gate_fired == first_gate(r.findings)
}

/// Compares the outcome with the previous version of the PKGBUILD, and adds
/// what the AUR says. A verdict that follows from the findings still does
/// afterwards, and is then never promoted.
pub fn finish_scan(
    result: &mut ScanResult,
    pkgbuild: &str,
    previous: Option<&str>,
    aur: Option<&Inquiry>,
)
    ensures
        final(result)@ == enriched(
            compared(old(result)@, opt_str(previous), pkgbuild@),
            inquiry_view(aur),
        ),
        is_scored(old(result)@) ==> is_scored(final(result)@) && final(result)@.promoted_by_diff
            == old(result)@.promoted_by_diff,
{
    if let Some(prev) = previous {
        let ghost given = result@;
        proof {
            law_marks_keep_verdict(given.findings, prev@, pkgbuild@);
        }
        mark_new_findings(&mut result.findings, prev, pkgbuild);
        assert(result@ =~= ResultView {
            findings: all_marked(given.findings, prev@, pkgbuild@),
            ..given
        });
        proof {
            law_findings_are_weighed(result.findings@);
            if is_scored(given) {
                law_scored_result_stays(result@);
            }
        }
        escalate_tier(result);
    }
    if let Some(q) = aur {
        if has_sane_times(&q.info, q.now) {
            apply(result, &q.info, q.now, &q.last_seen, q.record);
        }
    }
}

/// One-stop scan used by every command. Scans the PKGBUILD + adjacent
/// `*.install` scriptlets, compares it with the previous version where one is
/// given, and adds AUR reputation data where it is given. The verdict always
/// follows from the findings.
pub fn full_scan(
    path: String,
    pkgbuild: &str,
    installs: &Vec<InstallFile>,
    previous: Option<&str>,
    aur: Option<&Inquiry>,
) -> (r: ScanResult)
    ensures
        r@ == audit(
            path@,
            pkgbuild@,
            installs_view(installs@),
            opt_str(previous),
            inquiry_view(aur),
        ),
        is_scored(r@),
        r@.promoted_by_diff is None,
{
    let mut r: ScanResult = scan_pkgbuild_bundle(path, pkgbuild, installs);
    finish_scan(&mut r, pkgbuild, previous, aur);
    r
}

// ---------------------------------------------------------------------------
// What is done on the outcome
// ---------------------------------------------------------------------------

/// The exit code of `scan` on so many findings.
pub open spec fn scan_code(findings: nat) -> u8 {
    if findings == 0 {
        0
    } else {
        2
    }
}

/// The exit code of `scan`: 0 where nothing was found, else 2.
pub fn scan_exit(result: &ScanResult) -> (code: u8)
    ensures
        code == (if result@.findings.len() == 0 {
            0u8
        } else {
            2u8
        }),
        code == scan_code(result@.findings.len()),
{
    if result.is_clean() {
        0
    } else {
        2
    }
}

/// The exit code of `check` on a tier and a threshold.
pub open spec fn check_code(tier: Tier, threshold: Tier) -> u8 {
    if tier.level() >= threshold.level() {
        2
    } else {
        0
    }
}

/// The exit code of `check`: 0 below the threshold, 2 at or above.
pub fn check_exit(tier: Tier, threshold: Tier) -> (code: u8)
    ensures
        code == (if tier.level() >= threshold.level() {
            2u8
        } else {
            0u8
        }),
        code == check_code(tier, threshold),
{
    if tier.at_least(threshold) {
        2
    } else {
        0
    }
}

/// What is wrong with a threshold, given in quotes, that names no tier.
pub open spec fn threshold_complaint(quoted: Seq<char>) -> Seq<char> {
    "unknown threshold "@ + quoted
        + "; expected one of: trusted, ok, sketchy, suspicious, malicious"@
}

/// What is wrong with a threshold, given in quotes, that names no tier.
pub fn threshold_error(quoted: &str) -> (e: String)
    ensures
        e@ == threshold_complaint(quoted@),
{
    let mut e: String = "unknown threshold ".to_owned();
    e.append(quoted);
    e.append("; expected one of: trusted, ok, sketchy, suspicious, malicious");
    e
}

/// The tier that a threshold names; else what is wrong with it.
pub fn parse_threshold(s: &str) -> (r: Result<Tier, String>)
    ensures
        match Tier::named(lowered(s@)) {
            Some(t) => r == Ok::<Tier, String>(t),
            None => r matches Err(e) && e@ == threshold_complaint(debug_quoted(s@)),
        },
{
    match Tier::parse(s) {
        Some(t) => Ok(t),
        None => Err(threshold_error(quote(s).as_str())),
    }
}

/// Whether the setting `AUR_GUARD_DISABLE` keeps the shim from scanning.
pub fn scan_disabled(setting: Option<&str>) -> (b: bool)
    ensures
        b == (opt_str(setting) == Some("1"@)),
{
    match setting {
        Some(s) => same_str(s, "1"),
        None => false,
    }
}

/// Whether the shim starts the build at once, without a scan.
pub open spec fn is_forwarded(disabled: bool, has_pkgbuild: bool) -> bool {
    disabled || !has_pkgbuild
}

/// Whether the shim starts the build at once, without a scan: where scanning
/// is turned off, or there is no PKGBUILD (e.g. `makepkg --version`).
pub fn shim_forwards(disabled: bool, has_pkgbuild: bool) -> (b: bool)
    ensures
        b == (disabled || !has_pkgbuild),
        b == is_forwarded(disabled, has_pkgbuild),
{
    disabled || !has_pkgbuild
}

/// Whether the report on a tier is shown.
pub open spec fn is_shown(tier: Tier) -> bool {
    tier.level() >= Tier::Sketchy.level()
}

/// Whether the shim and the hook show the report on a scan: trusted and ok
/// packages pass in silence.
pub fn shows_report(tier: Tier) -> (b: bool)
    ensures
        b == (tier.level() >= Tier::Sketchy.level()),
        b == is_shown(tier),
{
    tier.at_least(Tier::Sketchy)
}

/// Whether a verdict that the same files got shortly before, and that was
/// accepted, covers the tier: it was at least as bad.
pub open spec fn is_covered(tier: Tier, accepted: Option<Tier>) -> bool {
    accepted matches Some(before) && before.level() >= tier.level()
}

/// Whether a verdict that was accepted shortly before covers the tier.
pub fn covers(accepted: Option<Tier>, tier: Tier) -> (b: bool)
    ensures
        b == is_covered(tier, accepted),
{
    match accepted {
        Some(before) => before.at_least(tier),
        None => false,
    }
}

/// What the `makepkg` shim does on a tier.
#[derive(Debug, Clone, Copy, PartialEq, Eq, Structural)]
pub enum BuildStep {
    /// The build runs in silence.
    Run,
    /// The build runs, and the user is told that the tier is sketchy.
    RunWithNote,
    /// The build runs, since the same files were accepted shortly before, at
    /// a tier at least as bad.
    RunAsAccepted,
    /// The user is asked.
    Ask,
}

/// What the `makepkg` shim does on a tier, given the tier at which the same
/// files were accepted shortly before, if they were.
pub open spec fn step_on(tier: Tier, accepted: Option<Tier>) -> BuildStep {
    match tier {
        Tier::Trusted | Tier::Okay => BuildStep::Run,
        Tier::Sketchy => BuildStep::RunWithNote,
        Tier::Suspicious | Tier::Malicious => if is_covered(tier, accepted) {
            BuildStep::RunAsAccepted
        } else {
            BuildStep::Ask
        },
    }
}

/// Trusted/Ok run through. Sketchy prints findings but doesn't prompt.
/// Suspicious/Malicious require interactive confirmation, unless the same
/// files were accepted shortly before at a tier at least as bad.
pub fn build_step(tier: Tier, accepted: Option<Tier>) -> (step: BuildStep)
    ensures
        step == step_on(tier, accepted),
{
    match tier {
        Tier::Trusted | Tier::Okay => BuildStep::Run,
        Tier::Sketchy => BuildStep::RunWithNote,
        Tier::Suspicious | Tier::Malicious => if covers(accepted, tier) {
            BuildStep::RunAsAccepted
        } else {
            BuildStep::Ask
        },
    }
}

/// The code with which the shim exits instead of starting the build: 1 where
/// the user was asked and did not say yes. None where the build is started.
pub open spec fn code_after(step: BuildStep, yes: bool) -> Option<u8> {
    if step == BuildStep::Ask && !yes {
        Some(1u8)
    } else {
        None
    }
}

/// The code with which the shim exits instead of starting the build, if it
/// does not start it. `yes` is the user's answer, where the user was asked.
pub fn after_answer(step: BuildStep, yes: bool) -> (code: Option<u8>)
    ensures
        code == code_after(step, yes),
{
    if step == BuildStep::Ask && !yes {
        Some(1)
    } else {
        None
    }
}

/// The log.
pub const LOG_PATH: &'static str = "/var/log/aur-guard.log";

/// The log where [`LOG_PATH`] cannot be written.
pub const FALLBACK_LOG: &'static str = "/tmp/aur-guard.log";

/// Whether the log proper is written, and not the one that stands in for it.
pub open spec fn writes_log(has_log_dir: bool, is_read_only: bool, can_open: bool) -> bool {
    has_log_dir && !is_read_only && can_open
}

/// The log that is written: [`LOG_PATH`] where its directory is there, it is
/// not marked read-only, and it can be opened; else [`FALLBACK_LOG`].
pub fn log_destination(has_log_dir: bool, is_read_only: bool, can_open: bool) -> (path:
    &'static str)
    ensures
        path@ == (if has_log_dir && !is_read_only && can_open {
            LOG_PATH@
        } else {
            FALLBACK_LOG@
        }),
        path@ == (if writes_log(has_log_dir, is_read_only, can_open) {
            LOG_PATH@
        } else {
            FALLBACK_LOG@
        }),
{
    if has_log_dir && !is_read_only && can_open {
        LOG_PATH
    } else {
        FALLBACK_LOG
    }
}

// ---------------------------------------------------------------------------
// Laws
// ---------------------------------------------------------------------------

/// What a full scan finds: what the bundle gives rise to, as the comparison
/// marked it, and what the AUR adds.
proof fn lemma_audit_findings(
    path: Seq<char>,
    pkgbuild: Seq<char>,
    files: Seq<(Seq<char>, Seq<char>)>,
    previous: Option<Seq<char>>,
    aur: Option<InquiryView>,
)
    ensures
        ({
            let found = bundle_verdict(rule_table(), path, pkgbuild, files).findings;
            let a = audit(path, pkgbuild, files, previous, aur);
            &&& is_scored(a)
            &&& total_points(a.findings) == total_points(found + added_by(aur))
            &&& has_gate(a.findings) == has_gate(found + added_by(aur))
        }),
{
    let r = bundle_verdict(rule_table(), path, pkgbuild, files);
    law_rules_are_weighed();
    lemma_bundle_weighed(rule_table(), path, pkgbuild, files);
    let m = compared(r, previous, pkgbuild);
    if let Some(prev) = previous {
        let marks = ResultView { findings: all_marked(r.findings, prev, pkgbuild), ..r };
        law_marks_keep_verdict(r.findings, prev, pkgbuild);
        assert(are_weighed(marks.findings)) by {
            assert forall|i: int| 0 <= i < marks.findings.len() implies (
            #[trigger] marks.findings[i]).points >= 0 by {
                assert(r.findings[i].points >= 0);
            }
        }
        law_scored_result_stays(marks);
    }
    assert(is_scored(m));
    law_gate_is_malicious(r.findings);
    law_gate_is_malicious(m.findings);
    let more = added_by(aur);
    lemma_gate_in_either(r.findings, more);
    lemma_gate_in_either(m.findings, more);
    law_order_keeps_score(m.findings + more);
    law_gate_is_malicious(m.findings + more);
    law_gate_is_malicious(ordered(m.findings + more));
    if more.len() == 0 {
        assert(m.findings + more =~= m.findings);
    }
}

/// What the AUR adds to what was found.
pub open spec fn added_by(aur: Option<InquiryView>) -> Seq<FindingView> {
    match aur {
        Some(q) => if times_fit(q.info, q.now) {
            reputation_findings(q.info, q.now, q.last_seen, q.record.established)
        } else {
            Seq::empty()
        },
        None => Seq::empty(),
    }
}

/// A scriptlet can only make things worse. With one more, wherever it stands
/// among the others, a full scan leaves no more trust and no better tier.
pub proof fn law_scriptlets_only_worsen(
    path: Seq<char>,
    pkgbuild: Seq<char>,
    files: Seq<(Seq<char>, Seq<char>)>,
    i: int,
    added: (Seq<char>, Seq<char>),
    previous: Option<Seq<char>>,
    aur: Option<InquiryView>,
)
    requires
        0 <= i <= files.len(),
    ensures
        audit(path, pkgbuild, files.insert(i, added), previous, aur).score <= audit(
            path,
            pkgbuild,
            files,
            previous,
            aur,
        ).score,
        audit(path, pkgbuild, files.insert(i, added), previous, aur).tier.level() >= audit(
            path,
            pkgbuild,
            files,
            previous,
            aur,
        ).tier.level(),
{
    let with = bundle_verdict(rule_table(), path, pkgbuild, files.insert(i, added)).findings;
    let without = bundle_verdict(rule_table(), path, pkgbuild, files).findings;
    let more = added_by(aur);
    law_rules_are_weighed();
    lemma_scriptlet_weighs_in(rule_table(), path, pkgbuild, files, i, added);
    lemma_audit_findings(path, pkgbuild, files.insert(i, added), previous, aur);
    lemma_audit_findings(path, pkgbuild, files, previous, aur);
    lemma_gate_in_either(with, more);
    lemma_gate_in_either(without, more);
    lemma_no_lighter(
        audit(path, pkgbuild, files.insert(i, added), previous, aur).findings,
        audit(path, pkgbuild, files, previous, aur).findings,
    );
}

/// Neither the AUR record nor the previous version ever makes a verdict
/// better.
pub proof fn law_history_and_standing_never_help(
    path: Seq<char>,
    pkgbuild: Seq<char>,
    files: Seq<(Seq<char>, Seq<char>)>,
    previous: Option<Seq<char>>,
    aur: Option<InquiryView>,
)
    ensures
        audit(path, pkgbuild, files, previous, aur).score <= bundle_verdict(
            rule_table(),
            path,
            pkgbuild,
            files,
        ).score,
        audit(path, pkgbuild, files, previous, aur).tier.level() >= bundle_verdict(
            rule_table(),
            path,
            pkgbuild,
            files,
        ).tier.level(),
{
    let found = bundle_verdict(rule_table(), path, pkgbuild, files).findings;
    let more = added_by(aur);
    lemma_audit_findings(path, pkgbuild, files, previous, aur);
    lemma_gate_in_either(found, more);
    assert(are_weighed(more));
    lemma_points_not_negative(more);
    lemma_no_lighter(audit(path, pkgbuild, files, previous, aur).findings, found);
}

/// A suspicious or malicious build whose files were not accepted before is
/// started only on a yes. Any other answer, or none, makes the shim exit with
/// code 1.
pub proof fn law_suspicious_build_needs_a_yes(
    tier: Tier,
    accepted: Option<Tier>,
    tty_reply: Option<Seq<char>>,
    stdin_reply: Option<Seq<char>>,
    assume_setting: Option<Seq<char>>,
)
    requires
        tier.level() >= Tier::Suspicious.level(),
        !is_covered(tier, accepted),
    ensures
        code_after(
            step_on(tier, accepted),
            confirmed(tty_reply, stdin_reply, assume_setting),
        ) == (if confirmed(tty_reply, stdin_reply, assume_setting) {
            None::<u8>
        } else {
            Some(1u8)
        }),
{
}

/// A build below suspicious is started without a question.
pub proof fn law_mild_build_is_started(tier: Tier, accepted: Option<Tier>, yes: bool)
    requires
        tier.level() < Tier::Suspicious.level(),
    ensures
        step_on(tier, accepted) != BuildStep::Ask,
        code_after(step_on(tier, accepted), yes) is None,
{
}

}
