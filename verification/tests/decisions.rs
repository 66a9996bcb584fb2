use aur_guard::audit::after_answer;
use aur_guard::audit::build_step;
use aur_guard::audit::check_exit;
use aur_guard::audit::full_scan;
use aur_guard::audit::history_key;
use aur_guard::audit::log_destination;
use aur_guard::audit::lookup_key;
use aur_guard::audit::parse_threshold;
use aur_guard::audit::pkgbuild_candidate;
use aur_guard::audit::resolve_pkgbuild;
use aur_guard::audit::scan_disabled;
use aur_guard::audit::scan_exit;
use aur_guard::audit::shim_forwards;
use aur_guard::audit::shows_report;
use aur_guard::audit::threshold_error;
use aur_guard::audit::BuildStep;
use aur_guard::hook::aur_targets;
use aur_guard::hook::collect_cache_dirs;
use aur_guard::hook::find_pkgbuild;
use aur_guard::hook::foreign_packages;
use aur_guard::hook::hook_asks;
use aur_guard::hook::hook_exit;
use aur_guard::hook::hook_start;
use aur_guard::hook::pkg_name_only;
use aur_guard::hook::pkgbuild_candidates;
use aur_guard::hook::pool_label;
use aur_guard::hook::shows_summary;
use aur_guard::hook::summarise;
use aur_guard::hook::tally;
use aur_guard::hook::targets_in;
use aur_guard::hook::HookStart;
use aur_guard::parent::decline_target;
use aur_guard::parent::interrupt_parent;
use aur_guard::parent::parent_comm;
use aur_guard::parent::parent_is_aur_helper;
use aur_guard::report::ScanResult;
use aur_guard::report::Tier;
use aur_guard::scanner::InstallFile;

fn strings(v: &[&str]) -> Vec<String> {
    v.iter().map(|s| s.to_string()).collect()
}

fn scan(text: &str) -> ScanResult {
    full_scan("p".to_string(), text, &Vec::new(), None, None)
}

#[test]
fn where_the_pkgbuild_is() {
    assert_eq!(pkgbuild_candidate("/p", true), "/p/PKGBUILD");
    assert_eq!(pkgbuild_candidate("/p/x", false), "/p/x");
    assert_eq!(resolve_pkgbuild("/p", true, true), Ok("/p/PKGBUILD".to_string()));
    assert_eq!(resolve_pkgbuild("/p/x", false, true), Ok("/p/x".to_string()));
    assert_eq!(
        resolve_pkgbuild("/p", true, false),
        Err("no PKGBUILD found in /p".to_string())
    );
    assert_eq!(
        resolve_pkgbuild("/p/x", false, false),
        Err("path does not exist: /p/x".to_string())
    );
}

#[test]
fn keys() {
    let text = "pkgname=demo\n";
    let demo = Some("demo".to_string());
    assert_eq!(history_key(text, true), demo);
    assert_eq!(history_key(text, false), None);
    assert_eq!(history_key("", true), None);
    assert_eq!(lookup_key(text, true, None), demo);
    assert_eq!(lookup_key(text, true, Some("0")), demo);
    assert_eq!(lookup_key(text, true, Some("1")), None);
    assert_eq!(lookup_key(text, false, None), None);
}

#[test]
fn exit_codes() {
    assert_eq!(scan_exit(&scan("pkgname=demo\n")), 0);
    assert_eq!(scan_exit(&scan("useradd x\n")), 2);
    assert_eq!(check_exit(Tier::Suspicious, Tier::Suspicious), 2);
    assert_eq!(check_exit(Tier::Sketchy, Tier::Suspicious), 0);
    assert_eq!(check_exit(Tier::Malicious, Tier::Trusted), 2);
    assert_eq!(check_exit(Tier::Suspicious, Tier::Malicious), 0);
}

#[test]
fn thresholds() {
    assert_eq!(parse_threshold("suspicious"), Ok(Tier::Suspicious));
    assert_eq!(parse_threshold("MALICIOUS"), Ok(Tier::Malicious));
    assert_eq!(
        threshold_error("<x>"),
        "unknown threshold <x>; expected one of: trusted, ok, sketchy, suspicious, malicious"
    );
    assert_eq!(
        parse_threshold("a\"b"),
        Err(
            "unknown threshold \"a\\\"b\"; expected one of: trusted, ok, sketchy, suspicious, malicious"
                .to_string()
        )
    );
}

#[test]
fn steps_of_the_shim() {
    assert_eq!(build_step(Tier::Trusted, None), BuildStep::Run);
    assert_eq!(build_step(Tier::Okay, None), BuildStep::Run);
    assert_eq!(build_step(Tier::Sketchy, None), BuildStep::RunWithNote);
    assert_eq!(build_step(Tier::Suspicious, None), BuildStep::Ask);
    assert_eq!(build_step(Tier::Malicious, None), BuildStep::Ask);
    assert_eq!(build_step(Tier::Trusted, Some(Tier::Malicious)), BuildStep::Run);
    assert_eq!(build_step(Tier::Sketchy, Some(Tier::Malicious)), BuildStep::RunWithNote);
    assert_eq!(build_step(Tier::Malicious, Some(Tier::Malicious)), BuildStep::RunAsAccepted);
    assert_eq!(build_step(Tier::Suspicious, Some(Tier::Malicious)), BuildStep::RunAsAccepted);
    assert_eq!(build_step(Tier::Suspicious, Some(Tier::Sketchy)), BuildStep::Ask);
    assert_eq!(build_step(Tier::Malicious, Some(Tier::Suspicious)), BuildStep::Ask);
}

#[test]
fn a_refusal_stops_the_build() {
    assert_eq!(after_answer(BuildStep::Ask, false), Some(1));
    assert_eq!(after_answer(BuildStep::Ask, true), None);
    for step in [BuildStep::Run, BuildStep::RunWithNote, BuildStep::RunAsAccepted] {
        assert_eq!(after_answer(step, false), None);
        assert_eq!(after_answer(step, true), None);
    }
    assert_eq!(hook_exit(true, false), 1);
    assert_eq!(hook_exit(true, true), 0);
    assert_eq!(hook_exit(false, false), 0);
    assert_eq!(hook_exit(false, true), 0);
}

#[test]
fn the_shim_forwards_without_a_pkgbuild() {
    assert!(shim_forwards(false, false));
    assert!(shim_forwards(true, true));
    assert!(shim_forwards(true, false));
    assert!(!shim_forwards(false, true));
}

#[test]
fn trusted_packages_pass_in_silence() {
    assert!(!shows_report(Tier::Trusted));
    assert!(!shows_report(Tier::Okay));
    assert!(shows_report(Tier::Sketchy));
    assert!(shows_report(Tier::Suspicious));
    assert!(shows_report(Tier::Malicious));
    let none = tally(&Vec::new());
    assert!(!shows_summary(none, 0));
    assert!(shows_summary(none, 1));
    let sketchy = tally(&vec![("c".to_string(), scan("ngrok http 80\n"))]);
    assert!(shows_summary(sketchy, 0));
}

#[test]
fn the_scan_can_be_turned_off() {
    assert!(scan_disabled(Some("1")));
    assert!(!scan_disabled(Some("0")));
    assert!(!scan_disabled(Some("")));
    assert!(!scan_disabled(None));
}

#[test]
fn a_scriptlet_only_worsens() {
    let added = |content: &str| {
        vec![InstallFile { name: "a.install".to_string(), content: content.to_string() }]
    };
    let text = "pkgname=demo\nngrok http 80\n";
    let alone = scan(text);
    let with = full_scan("p".to_string(), text, &added("useradd x\n"), None, None);
    let harmless = full_scan("p".to_string(), text, &added(":\n"), None, None);
    assert_eq!((alone.score, alone.tier), (50, Tier::Sketchy));
    assert_eq!((with.score, with.tier), (0, Tier::Malicious));
    assert_eq!((harmless.score, harmless.tier), (50, Tier::Sketchy));
}

#[test]
fn log_files() {
    assert_eq!(log_destination(true, false, true), "/var/log/aur-guard.log");
    assert_eq!(log_destination(false, false, true), "/tmp/aur-guard.log");
    assert_eq!(log_destination(true, true, true), "/tmp/aur-guard.log");
    assert_eq!(log_destination(true, false, false), "/tmp/aur-guard.log");
}

#[test]
fn targets() {
    let lines = strings(&[" demo ", "", "\t", "extra/other"]);
    assert_eq!(targets_in(&lines), strings(&["demo", "extra/other"]));
    assert_eq!(pkg_name_only("extra/other"), "other");
    assert_eq!(pkg_name_only("a/b/c"), "c");
    assert_eq!(pkg_name_only("demo"), "demo");
    assert_eq!(pkg_name_only("demo/"), "");
}

#[test]
fn foreign_packages_are_listed() {
    assert_eq!(foreign_packages(b"demo\n other \n\n"), strings(&["demo", "other"]));
    assert_eq!(foreign_packages(b"a\xffb\n"), strings(&["a\u{fffd}b"]));
    assert_eq!(foreign_packages("über\n".as_bytes()), strings(&["über"]));
    assert!(foreign_packages(b"").is_empty());
}

#[test]
fn only_foreign_targets_are_scanned() {
    let targets = strings(&["core/glibc", "aur/demo", "other", "demo"]);
    let foreign = strings(&["demo", "other"]);
    assert_eq!(aur_targets(&targets, &foreign), strings(&["demo", "other", "demo"]));
    assert!(aur_targets(&targets, &Vec::new()).is_empty());
    assert_eq!(hook_start(0, 0), HookStart::NoTargets);
    assert_eq!(hook_start(3, 0), HookStart::NothingForeign);
    assert_eq!(hook_start(3, 1), HookStart::Scan);
}

#[test]
fn caches_that_are_searched() {
    let homes = strings(&["ann", "bob"]);
    assert_eq!(
        collect_cache_dirs(Some("/x::/y:"), Some("eve"), &homes),
        strings(&[
            "/x",
            "/y",
            "/home/eve/.cache/paru/clone",
            "/home/eve/.cache/yay",
            "/home/eve/.cache/aurutils/sync",
        ])
    );
    assert_eq!(
        collect_cache_dirs(None, None, &homes),
        strings(&[
            "/home/ann/.cache/paru/clone",
            "/home/ann/.cache/yay",
            "/home/ann/.cache/aurutils/sync",
            "/home/bob/.cache/paru/clone",
            "/home/bob/.cache/yay",
            "/home/bob/.cache/aurutils/sync",
        ])
    );
    assert!(collect_cache_dirs(None, None, &Vec::new()).is_empty());
}

#[test]
fn first_candidate_that_exists_is_taken() {
    let c = pkgbuild_candidates("demo", &strings(&["/a", "/b/", "/c"]));
    assert_eq!(c, strings(&["/a/demo/PKGBUILD", "/b/demo/PKGBUILD", "/c/demo/PKGBUILD"]));
    assert_eq!(
        find_pkgbuild(&c, &vec![false, true, true]),
        Some("/b/demo/PKGBUILD".to_string())
    );
    assert_eq!(find_pkgbuild(&c, &vec![false, false, false]), None);
}

#[test]
fn results_are_tallied() {
    let named = |n: &str, text: &str| (n.to_string(), scan(text));
    let all = vec![
        named("a", "pkgname=a\n"),
        named("b", "useradd x\n"),
        named("c", "ngrok http 80\n"),
        named("d", "rm -rf / \n"),
        named("e", "source=('http://h.example/x')\n"),
    ];
    let t = tally(&all);
    assert_eq!((t.trusted, t.okay, t.sketchy, t.suspicious, t.malicious), (1, 0, 2, 1, 1));
    assert_eq!(t.worst, Tier::Malicious);
    assert_eq!(
        summarise(6, t, 1),
        "aur-guard :: 6 AUR target(s) — trusted=1 ok=0 sketchy=2 suspicious=1 malicious=1 (skipped 1)."
    );
    assert_eq!(pool_label(all.len()), "5 AUR package(s)");
    let bad = Some(Tier::Malicious);
    assert!(hook_asks(&all, &vec![None; 5]));
    assert!(hook_asks(&all, &vec![None, bad, None, None, None]));
    assert!(!hook_asks(&all, &vec![None, bad, None, bad, None]));
    assert!(hook_asks(&all, &vec![None, Some(Tier::Sketchy), None, bad, None]));
    assert!(hook_asks(&all, &vec![None, bad, None, Some(Tier::Suspicious), None]));
    let none = tally(&Vec::new());
    assert_eq!(none.worst, Tier::Trusted);
    assert!(!hook_asks(&Vec::new(), &Vec::new()));
}

#[test]
fn parents() {
    assert_eq!(parent_comm(100, Some(" yay\n")), Some("yay".to_string()));
    assert_eq!(parent_comm(100, Some(" \n")), None);
    assert_eq!(parent_comm(100, None), None);
    assert_eq!(parent_comm(1, Some("yay")), None);
    for helper in ["yay", "paru", "pikaur", "trizen", "aurutils", "aurman", "rua", "Yay", "PARU"] {
        assert!(parent_is_aur_helper(Some(helper)));
        assert_eq!(decline_target(100, Some(helper)), Some(100));
    }
    for other in ["pacman", "sudo", "bash", "yayy", ""] {
        assert!(!parent_is_aur_helper(Some(other)));
        assert_eq!(decline_target(100, Some(other)), None);
    }
    assert!(!parent_is_aur_helper(None));
    assert_eq!(decline_target(1, Some("yay")), None);
    assert_eq!(interrupt_parent(1), None);
    assert_eq!(interrupt_parent(0), None);
    assert_eq!(interrupt_parent(2), Some(2));
}
