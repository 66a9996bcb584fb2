use aur_guard::audit::full_scan;
use aur_guard::diff::choose_identifier;
use aur_guard::diff::escalate_tier;
use aur_guard::diff::history_path;
use aur_guard::diff::mark_new_findings;
use aur_guard::diff::pkgname_from;
use aur_guard::paths::cache_dir;
use aur_guard::paths::join_path;
use aur_guard::report::Finding;
use aur_guard::report::ScanResult;
use aur_guard::report::Tier;

fn finding(points: u32, line: usize, is_new: bool) -> Finding {
    Finding {
        rule_id: "AG034",
        points,
        override_gate: false,
        title: "title",
        description: "description",
        line,
        snippet: String::new(),
        source_file: None,
        is_new,
    }
}

fn result(score: u32, tier: Tier, findings: Vec<Finding>) -> ScanResult {
    ScanResult {
        path: "p".to_string(),
        findings,
        lines_scanned: 1,
        score,
        tier,
        override_gate_fired: None,
        promoted_by_diff: None,
        reputation: None,
    }
}

#[test]
fn package_identifier() {
    let id = |s: &str| pkgname_from(s);
    assert_eq!(id("pkgname=demo\n"), Some("demo".to_string()));
    assert_eq!(id("pkgname=('foo' bar)\n"), Some("foo".to_string()));
    assert_eq!(id("  pkgname = \"a.b_c+d@e-f\""), Some("a.b_c+d@e-f".to_string()));
    assert_eq!(id("pkgname=demo\npkgbase=base\n"), Some("base".to_string()));
    assert_eq!(id("# nothing"), None);
    assert_eq!(id("_pkgname=demo"), None);
    assert_eq!(id("pkgname=a/../b"), Some("a".to_string()));
    assert_eq!(id("pkgname=/etc/x\n"), None);
}

#[test]
fn base_goes_before_name() {
    let b = || Some("b".to_string());
    let n = || Some("n".to_string());
    assert_eq!(choose_identifier(b(), n()), b());
    assert_eq!(choose_identifier(None, n()), n());
    assert_eq!(choose_identifier(None, None), None);
}

#[test]
fn new_lines_are_marked() {
    let previous = "a\n  useradd old\n";
    let current = "a\nuseradd old\n\tuseradd new\n\n";
    let mut fs = vec![finding(75, 2, false), finding(75, 3, false), finding(75, 4, false)];
    fs.push(finding(75, 9, false));
    fs.push(Finding { source_file: Some("x.install".to_string()), ..finding(75, 3, false) });
    fs.push(finding(20, 0, false));
    mark_new_findings(&mut fs, previous, current);
    let marks: Vec<bool> = fs.iter().map(|f| f.is_new).collect();
    assert_eq!(marks, vec![false, true, false, false, false, false]);
    let mut zero = vec![finding(20, 0, false)];
    mark_new_findings(&mut zero, "b", current);
    assert!(zero[0].is_new);
}

#[test]
fn same_version_has_nothing_new() {
    let text = "useradd a\nuseradd b\n";
    let mut fs = vec![finding(75, 1, false), finding(75, 2, true)];
    mark_new_findings(&mut fs, text, text);
    assert!(!fs[0].is_new);
    assert!(fs[1].is_new);
}

#[test]
fn heavy_new_finding_makes_malicious() {
    let mut r = result(90, Tier::Trusted, vec![finding(60, 1, true), finding(80, 2, true)]);
    escalate_tier(&mut r);
    assert_eq!(r.tier, Tier::Malicious);
    assert_eq!(r.score, 0);
    assert_eq!(
        r.promoted_by_diff,
        Some("newly-introduced finding AG034 (80 pts) — promoted to MALICIOUS".to_string())
    );
    assert_eq!(r.override_gate_fired, None);
}

#[test]
fn middling_new_finding_makes_suspicious() {
    let mut r = result(90, Tier::Trusted, vec![finding(79, 1, true), finding(95, 2, false)]);
    escalate_tier(&mut r);
    assert_eq!(r.tier, Tier::Suspicious);
    assert_eq!(r.score, 90);
    assert_eq!(
        r.promoted_by_diff,
        Some("newly-introduced finding AG034 (79 pts) — promoted to SUSPICIOUS".to_string())
    );
    let once = format!("{:?}", r);
    escalate_tier(&mut r);
    assert_eq!(format!("{:?}", r), once);
}

#[test]
fn light_or_old_findings_do_not_promote() {
    let mut r = result(90, Tier::Trusted, vec![finding(59, 1, true), finding(95, 2, false)]);
    escalate_tier(&mut r);
    assert_eq!(r.tier, Tier::Trusted);
    assert_eq!(r.promoted_by_diff, None);
    let mut bad = result(30, Tier::Suspicious, vec![finding(60, 1, true)]);
    escalate_tier(&mut bad);
    assert_eq!(bad.promoted_by_diff, None);
}

#[test]
fn full_scan_marks_what_is_new() {
    let previous = "pkgname=demo\nuseradd old\n";
    let current = "pkgname=demo\nuseradd old\nuseradd new\n";
    let r = full_scan("p".to_string(), current, &Vec::new(), Some(previous), None);
    assert_eq!(r.findings.len(), 2);
    assert_eq!((r.findings[0].line, r.findings[0].is_new), (2, false));
    assert_eq!((r.findings[1].line, r.findings[1].is_new), (3, true));
    assert_eq!((r.score, r.tier), (0, Tier::Malicious));
    assert_eq!(r.promoted_by_diff, None);
    let first = full_scan("p".to_string(), current, &Vec::new(), None, None);
    assert!(first.findings.iter().all(|f| !f.is_new));
    assert_eq!((first.score, first.tier), (0, Tier::Malicious));
}

#[test]
fn cache_directories() {
    let some = |s: &str| Some(s.to_string());
    let leaf = "pkgbuild-history";
    assert_eq!(cache_dir(Some("/own"), Some("u"), Some("/x"), Some("/h"), leaf), some("/own"));
    assert_eq!(
        cache_dir(None, Some("u"), Some("/x"), Some("/h"), leaf),
        some("/home/u/.cache/aur-guard/pkgbuild-history")
    );
    assert_eq!(
        cache_dir(None, None, Some("/x"), Some("/h"), leaf),
        some("/x/aur-guard/pkgbuild-history")
    );
    assert_eq!(
        cache_dir(None, None, None, Some("/h/"), leaf),
        some("/h/.cache/aur-guard/pkgbuild-history")
    );
    assert_eq!(cache_dir(None, None, None, None, leaf), None);
    assert_eq!(history_path("/own", "demo"), "/own/demo.txt");
}

#[test]
fn paths_join_as_std_does() {
    for (a, b) in [("/a", "b"), ("/a/", "b"), ("", "b"), ("/a", "/b"), ("a", ""), ("/", "b")] {
        let want = std::path::Path::new(a).join(b);
        assert_eq!(join_path(a, b), want.to_str().unwrap());
    }
}
