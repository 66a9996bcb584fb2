use aur_guard::audit::full_scan;
use aur_guard::audit::Inquiry;
use aur_guard::report::MaintainerSummary;
use aur_guard::report::Popularity;
use aur_guard::report::ScanResult;
use aur_guard::report::Tier;
use aur_guard::rpc::apply;
use aur_guard::rpc::choose_info;
use aur_guard::rpc::has_sane_times;
use aur_guard::rpc::is_below_one_tenth;
use aur_guard::rpc::last_maintainer;
use aur_guard::rpc::maintainer_log_addition;
use aur_guard::rpc::maintainer_log_path;
use aur_guard::rpc::network_disabled;
use aur_guard::rpc::reply_is_fresh;
use aur_guard::rpc::reputation_rules;
use aur_guard::rpc::rpc_cache_path;
use aur_guard::rpc::AurInfo;
use aur_guard::rpc::TrackRecord;
use aur_guard::scanner::scan_text;

const NOW: i64 = 1_700_000_000;
const DAY: i64 = 86_400;

fn popularity(p: f64) -> Popularity {
    Popularity {
        bits: p.to_bits(),
        two_places: format!("{:.2}", p),
        three_places: format!("{:.3}", p),
    }
}

fn info(name: &str) -> AurInfo {
    AurInfo {
        name: name.to_string(),
        maintainer: Some("alice".to_string()),
        submitter: Some("alice".to_string()),
        num_votes: 40,
        popularity: popularity(1.5),
        first_submitted: NOW - 400 * DAY,
        last_modified: NOW - 5 * DAY,
        out_of_date: None,
    }
}

fn unknown() -> TrackRecord {
    TrackRecord { established: false, summary: None }
}

fn clean() -> ScanResult {
    scan_text("pkgname=demo\n", "p".to_string())
}

fn snippets(r: &ScanResult) -> Vec<(&'static str, String)> {
    r.findings.iter().map(|f| (f.rule_id, f.snippet.clone())).collect()
}

#[test]
fn good_standing_changes_nothing() {
    let mut r = clean();
    apply(&mut r, &info("demo"), NOW, &Some("alice".to_string()), unknown());
    assert!(r.is_clean());
    assert_eq!((r.score, r.tier), (100, Tier::Trusted));
    let rep = r.reputation.unwrap();
    assert_eq!(rep.maintainer, Some("alice".to_string()));
    assert_eq!(rep.first_submitted, NOW - 400 * DAY);
    assert_eq!(rep.last_modified, NOW - 5 * DAY);
    assert_eq!(rep.num_votes, 40);
    assert_eq!(rep.popularity.two_places, "1.50");
    assert!(!rep.maintainer_established);
    assert!(rep.maintainer_summary.is_none());
}

#[test]
fn every_reputation_rule_fires() {
    let mut i = info("demo");
    i.maintainer = None;
    i.first_submitted = NOW - 29 * DAY - 5;
    i.out_of_date = Some(NOW - 3 * DAY);
    i.num_votes = 4;
    i.popularity = popularity(0.0994);
    let mut r = clean();
    apply(&mut r, &i, NOW, &Some("alice".to_string()), unknown());
    assert_eq!(
        snippets(&r),
        vec![
            ("AG091", "(no Maintainer in AUR record)".to_string()),
            ("AG092", "FirstSubmitted: 29 day(s) ago".to_string()),
            ("AG094", "votes=4 popularity=0.099".to_string()),
            ("AG093", "flagged out-of-date 3 day(s) ago".to_string()),
        ]
    );
    assert_eq!((r.score, r.tier), (0, Tier::Malicious));
    for f in &r.findings {
        assert_eq!(f.line, 0);
        assert_eq!(f.source_file, Some("AUR".to_string()));
        assert!(!f.is_new && !f.override_gate);
    }
}

#[test]
fn thresholds_of_the_reputation_rules() {
    let mut i = info("demo");
    i.first_submitted = NOW - 30 * DAY;
    i.num_votes = 5;
    i.popularity = popularity(0.0);
    let mut r = clean();
    apply(&mut r, &i, NOW, &None, unknown());
    assert!(r.is_clean());
    i.first_submitted = 0;
    i.num_votes = 4;
    i.popularity = popularity(0.1);
    apply(&mut r, &i, NOW, &None, unknown());
    assert!(r.is_clean());
    i.first_submitted = NOW + 10;
    apply(&mut r, &i, NOW, &None, unknown());
    assert_eq!(snippets(&r), vec![("AG092", "FirstSubmitted: 0 day(s) ago".to_string())]);
    assert_eq!((r.score, r.tier), (70, Tier::Okay));
}

#[test]
fn transfer_is_noticed() {
    let mut r = clean();
    apply(&mut r, &info("demo"), NOW, &Some("bob".to_string()), unknown());
    assert_eq!(snippets(&r), vec![("AG090", "previous=bob → current=alice".to_string())]);
    assert_eq!((r.score, r.tier), (25, Tier::Suspicious));
    let mut first = clean();
    apply(&mut first, &info("demo"), NOW, &None, unknown());
    assert!(first.is_clean());
}

#[test]
fn established_maintainer_is_not_new() {
    let mut i = info("demo");
    i.first_submitted = NOW - DAY;
    i.num_votes = 0;
    i.popularity = popularity(0.0);
    let summary = MaintainerSummary {
        package_count: 12,
        total_votes: 300,
        oldest_first_submitted: NOW - 900 * DAY,
    };
    let mut r = clean();
    apply(&mut r, &i, NOW, &None, TrackRecord { established: true, summary: Some(summary) });
    assert!(r.is_clean());
    let rep = r.reputation.clone().unwrap();
    assert!(rep.maintainer_established);
    assert_eq!(rep.maintainer_summary.unwrap().package_count, 12);
    let mut other = clean();
    apply(&mut other, &i, NOW, &None, unknown());
    assert_eq!(other.findings.len(), 2);
}

#[test]
fn reputation_adds_to_the_scan() {
    let mut i = info("demo");
    i.maintainer = None;
    let q = Inquiry { info: i, now: NOW, last_seen: None, record: unknown() };
    let text = "pkgname=demo\nuseradd a\n";
    let r = full_scan("p".to_string(), text, &Vec::new(), None, Some(&q));
    let got: Vec<&str> = r.findings.iter().map(|f| f.rule_id).collect();
    assert_eq!(got, vec!["AG034", "AG091"]);
    assert_eq!((r.score, r.tier), (0, Tier::Malicious));
    assert!(r.reputation.is_some());
}

#[test]
fn senseless_times_are_passed_over() {
    let mut i = info("demo");
    i.first_submitted = i64::MIN;
    i.maintainer = None;
    assert!(!has_sane_times(&i, NOW));
    let q = Inquiry { info: i.clone(), now: NOW, last_seen: None, record: unknown() };
    let r = full_scan("p".to_string(), "pkgname=demo\n", &Vec::new(), None, Some(&q));
    assert!(r.is_clean());
    assert!(r.reputation.is_none());
    i.first_submitted = 0;
    assert!(has_sane_times(&i, NOW));
    i.out_of_date = Some(i64::MIN);
    assert!(!has_sane_times(&i, NOW));
    i.out_of_date = Some(i64::MAX);
    assert!(has_sane_times(&i, i64::MIN));
}

#[test]
fn one_tenth() {
    let below = |p: f64| is_below_one_tenth(p.to_bits());
    for p in [
        0.0,
        -0.0,
        -1.0,
        0.09,
        0.1,
        0.1000000000001,
        1.0,
        f64::INFINITY,
        f64::NEG_INFINITY,
        f64::NAN,
        -f64::NAN,
        f64::MIN_POSITIVE,
        f64::MAX,
        f64::MIN,
        f64::from_bits(0.1f64.to_bits() - 1),
        f64::from_bits(0.1f64.to_bits() + 1),
    ] {
        assert_eq!(below(p), p < 0.1, "{}", p);
    }
}

#[test]
fn log_names_the_last_maintainer() {
    assert_eq!(last_maintainer(None), None);
    assert_eq!(last_maintainer(Some("")), None);
    assert_eq!(last_maintainer(Some(" \n\t\n")), None);
    assert_eq!(last_maintainer(Some("alice\n  bob \n\n")), Some("bob".to_string()));
}

#[test]
fn log_grows_only_on_change() {
    let alice = Some("alice".to_string());
    let bob = Some("bob".to_string());
    assert_eq!(maintainer_log_addition(None, &alice), Some("alice\n".to_string()));
    assert_eq!(maintainer_log_addition(Some("alice\n"), &alice), None);
    assert_eq!(maintainer_log_addition(Some("alice\n"), &bob), Some("bob\n".to_string()));
    assert_eq!(maintainer_log_addition(Some("alice\n"), &None), None);
    let next = format!("alice\n{}", maintainer_log_addition(Some("alice\n"), &bob).unwrap());
    assert_eq!(last_maintainer(Some(&next)), bob);
    let mut i = info("demo");
    i.maintainer = bob;
    let mut r = clean();
    apply(&mut r, &i, NOW, &last_maintainer(Some(&next)), unknown());
    assert!(r.is_clean());
}

#[test]
fn reply_is_chosen_by_name() {
    let kind = "multiinfo".to_string();
    let pick = choose_info(kind.as_str(), vec![info("a"), info("b"), info("c")], "b");
    assert_eq!(pick.unwrap().name, "b");
    let first = choose_info(kind.as_str(), vec![info("a"), info("b")], "z");
    assert_eq!(first.unwrap().name, "a");
    assert!(choose_info(kind.as_str(), Vec::new(), "a").is_none());
    assert!(choose_info("error", vec![info("a")], "a").is_none());
}

#[test]
fn replies_are_kept_an_hour() {
    assert!(reply_is_fresh(0));
    assert!(reply_is_fresh(3600));
    assert!(!reply_is_fresh(3601));
}

#[test]
fn network_can_be_turned_off() {
    assert!(network_disabled(Some("1")));
    assert!(network_disabled(Some("yes")));
    assert!(network_disabled(Some("true")));
    assert!(!network_disabled(Some("YES")));
    assert!(!network_disabled(Some("0")));
    assert!(!network_disabled(None));
}

#[test]
fn reputation_rules_are_listed() {
    let got: Vec<(&str, u32, bool)> =
        reputation_rules().iter().map(|r| (r.id, r.points, r.override_gate)).collect();
    assert_eq!(
        got,
        vec![
            ("AG090", 75, false),
            ("AG091", 40, false),
            ("AG092", 30, false),
            ("AG093", 20, false),
            ("AG094", 25, false),
        ]
    );
}

#[test]
fn places_of_the_reputation_files() {
    assert_eq!(rpc_cache_path("/c", "demo"), "/c/info/demo.json");
    assert_eq!(maintainer_log_path("/c", "demo"), "/c/maintainer-history/demo.txt");
}
