use aur_guard::ordering::sort_findings;
use aur_guard::report::score;
use aur_guard::report::tier_index;
use aur_guard::report::Finding;
use aur_guard::report::ScanResult;
use aur_guard::report::Severity;
use aur_guard::report::Tier;
use aur_guard::scanner::aggregate;

fn finding(id: &'static str, points: u32, gate: bool, line: usize, is_new: bool) -> Finding {
    Finding {
        rule_id: id,
        points,
        override_gate: gate,
        title: "title",
        description: "description",
        line,
        snippet: "snippet".to_string(),
        source_file: None,
        is_new,
    }
}

fn weights(points: &[u32]) -> Vec<Finding> {
    points.iter().map(|p| finding("X", *p, false, 1, false)).collect()
}

fn result(score: u32, tier: Tier, lines: usize, findings: Vec<Finding>) -> ScanResult {
    ScanResult {
        path: "p".to_string(),
        findings,
        lines_scanned: lines,
        score,
        tier,
        override_gate_fired: None,
        promoted_by_diff: None,
        reputation: None,
    }
}

#[test]
fn nothing_found_is_full_trust() {
    assert_eq!(score(&[]), (100, Tier::Trusted, None));
}

#[test]
fn tiers_are_bands_of_trust() {
    let of = |p: &[u32]| {
        let (s, t, _) = score(&weights(p));
        (s, t)
    };
    assert_eq!(of(&[10]), (90, Tier::Trusted));
    assert_eq!(of(&[11]), (89, Tier::Okay));
    assert_eq!(of(&[30]), (70, Tier::Okay));
    assert_eq!(of(&[31]), (69, Tier::Sketchy));
    assert_eq!(of(&[25, 25]), (50, Tier::Sketchy));
    assert_eq!(of(&[51]), (49, Tier::Suspicious));
    assert_eq!(of(&[75]), (25, Tier::Suspicious));
    assert_eq!(of(&[76]), (24, Tier::Malicious));
    assert_eq!(of(&[50, 50]), (0, Tier::Malicious));
    assert_eq!(of(&[50, 95]), (0, Tier::Malicious));
    assert_eq!(of(&[u32::MAX, u32::MAX]), (0, Tier::Malicious));
}

#[test]
fn a_gate_decides() {
    let mut fs = weights(&[5]);
    fs.push(finding("AG010", 0, true, 3, false));
    fs.push(finding("AG020", 0, true, 2, false));
    assert_eq!(score(&fs), (0, Tier::Malicious, Some("AG010")));
}

#[test]
fn more_findings_never_help() {
    let (s1, t1, _) = score(&weights(&[20]));
    let (s2, t2, _) = score(&weights(&[20, 20]));
    assert_eq!((s1, t1), (80, Tier::Okay));
    assert_eq!((s2, t2), (60, Tier::Sketchy));
    assert!(s2 <= s1 && t2 >= t1);
}

#[test]
fn severities() {
    assert_eq!(Severity::from_points(0, false), Severity::Low);
    assert_eq!(Severity::from_points(29, false), Severity::Low);
    assert_eq!(Severity::from_points(30, false), Severity::Medium);
    assert_eq!(Severity::from_points(59, false), Severity::Medium);
    assert_eq!(Severity::from_points(60, false), Severity::High);
    assert_eq!(Severity::from_points(79, false), Severity::High);
    assert_eq!(Severity::from_points(80, false), Severity::Critical);
    assert_eq!(Severity::from_points(u32::MAX, false), Severity::Critical);
    assert_eq!(Severity::from_points(0, true), Severity::Critical);
    assert_eq!(finding("X", 60, false, 1, false).severity(), Severity::High);
    let all = [Severity::Low, Severity::Medium, Severity::High, Severity::Critical];
    assert_eq!(all.map(|s| s.rank()), [0, 1, 2, 3]);
    assert_eq!(all.map(|s| s.label()), ["LOW", "MEDIUM", "HIGH", "CRITICAL"]);
    assert_eq!(
        all.map(|s| s.color()),
        ["\x1b[36m", "\x1b[33m", "\x1b[31m", "\x1b[1;91m"]
    );
    assert!(Severity::Low < Severity::Medium && Severity::High < Severity::Critical);
}

#[test]
fn tiers() {
    let all = [Tier::Trusted, Tier::Okay, Tier::Sketchy, Tier::Suspicious, Tier::Malicious];
    assert_eq!(all.map(tier_index), [0, 1, 2, 3, 4]);
    assert_eq!(
        all.map(|t| t.label()),
        ["TRUSTED", "OK", "SKETCHY", "SUSPICIOUS", "MALICIOUS"]
    );
    assert_eq!(
        all.map(|t| t.color()),
        ["\x1b[1;32m", "\x1b[32m", "\x1b[33m", "\x1b[31m", "\x1b[1;91m"]
    );
    for t in all {
        assert_eq!(Tier::parse(t.label()), Some(t));
        assert_eq!(Tier::parse(&t.label().to_lowercase()), Some(t));
    }
    assert!(Tier::Suspicious.at_least(Tier::Suspicious));
    assert!(!Tier::Okay.at_least(Tier::Sketchy));
    assert!(Tier::Trusted < Tier::Okay && Tier::Malicious > Tier::Suspicious);
    assert_eq!(Tier::of_word("sketchy"), Some(Tier::Sketchy));
    assert_eq!(Tier::of_word("Sketchy"), None);
    assert_eq!(Tier::parse("unknown"), None);
    assert_eq!(Tier::parse(""), None);
    assert_eq!(Tier::parse(" ok"), None);
    // The Kelvin sign is a capital letter whose small letter is `k`.
    assert_eq!(Tier::parse("o\u{212a}"), Some(Tier::Okay));
}

#[test]
fn findings_are_put_in_order() {
    let mut fs = vec![
        finding("a", 50, false, 9, false),
        finding("b", 75, false, 5, false),
        finding("c", 50, false, 2, false),
        finding("d", 10, false, 1, true),
        finding("e", 10, true, 7, false),
        finding("f", 50, false, 2, false),
        finding("g", 95, true, 8, false),
    ];
    sort_findings(&mut fs);
    let got: Vec<&str> = fs.iter().map(|f| f.rule_id).collect();
    assert_eq!(got, vec!["g", "e", "d", "b", "c", "f", "a"]);
    let before = score(&fs);
    sort_findings(&mut fs);
    let again: Vec<&str> = fs.iter().map(|f| f.rule_id).collect();
    assert_eq!(again, got);
    assert_eq!(score(&fs), before);
}

#[test]
fn aggregate_of_nothing() {
    let r = aggregate(&Vec::new(), "none".to_string());
    assert_eq!((r.score, r.tier, r.lines_scanned), (100, Tier::Trusted, 0));
    assert!(r.is_clean());
    assert_eq!(r.path, "none");
}

#[test]
fn aggregate_takes_the_worst() {
    let mut a = result(60, Tier::Sketchy, 10, vec![finding("x", 40, false, 1, false)]);
    a.promoted_by_diff = Some("why".to_string());
    let mut b = result(0, Tier::Malicious, 5, vec![finding("y", 95, true, 2, false)]);
    b.override_gate_fired = Some("y");
    let c = result(100, Tier::Trusted, 3, Vec::new());
    let all = vec![("a".to_string(), a), ("b".to_string(), b), ("c".to_string(), c)];
    let r = aggregate(&all, "3 AUR package(s)".to_string());
    assert_eq!(r.path, "3 AUR package(s)");
    assert_eq!(r.score, 0);
    assert_eq!(r.tier, Tier::Malicious);
    assert_eq!(r.lines_scanned, 18);
    assert_eq!(r.override_gate_fired, Some("y"));
    assert_eq!(r.promoted_by_diff, Some("why".to_string()));
    let got: Vec<&str> = r.findings.iter().map(|f| f.rule_id).collect();
    assert_eq!(got, vec!["x", "y"]);
    assert!(r.reputation.is_none());
}

#[test]
fn count_of_lines_starts_over() {
    let all = vec![
        ("a".to_string(), result(100, Tier::Trusted, usize::MAX, Vec::new())),
        ("b".to_string(), result(100, Tier::Trusted, 3, Vec::new())),
    ];
    assert_eq!(aggregate(&all, "x".to_string()).lines_scanned, 2);
}

#[test]
fn results_can_be_copied() {
    let r = result(60, Tier::Sketchy, 10, vec![finding("x", 40, false, 1, true)]);
    let c = r.clone();
    assert_eq!(format!("{:?}", c), format!("{:?}", r));
}
