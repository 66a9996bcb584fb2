use aur_guard::report::Tier;
use aur_guard::scanner::InstallFile;
use aur_guard::verdict_cache::bundle_hash;
use aur_guard::verdict_cache::bundle_message;
use aur_guard::verdict_cache::entry_path;
use aur_guard::verdict_cache::is_expired;
use aur_guard::verdict_cache::load;
use aur_guard::verdict_cache::save;
use aur_guard::verdict_cache::to_hex;
use aur_guard::verdict_cache::CachedVerdict;

fn file(name: &str, content: &str) -> InstallFile {
    InstallFile { name: name.to_string(), content: content.to_string() }
}

#[test]
fn hash_of_a_pkgbuild() {
    assert_eq!(
        bundle_hash("0.1.0", "pkgname=demo\n", &Vec::new()),
        "19f305ada3138174d6acdaaaf1f9625c023aef37804993567988a72502a8dfff"
    );
}

#[test]
fn hash_of_a_bundle() {
    let files = vec![file("demo.install", "post_install() {\n  :\n}\n")];
    assert_eq!(
        bundle_hash("0.1.0", "pkgname=demo\n", &files),
        "d256d6ccfb7331511efbe11c68e1167e5f780889d7bfaec3e558dca515fdad54"
    );
    let message = bundle_message("0.1.0", "pkgname=demo\n", &files);
    assert_eq!(
        message,
        "aur-guard:v=5:0.1.0\nPKGBUILD\n13:pkgname=demo\n\n.install:12:demo.install\n23:post_install() {\n  :\n}\n"
    );
}

#[test]
fn every_input_changes_the_hash() {
    let files = vec![file("a.install", "x")];
    let base = bundle_hash("1", "p", &files);
    assert_ne!(base, bundle_hash("2", "p", &files));
    assert_ne!(base, bundle_hash("1", "q", &files));
    assert_ne!(base, bundle_hash("1", "p", &vec![file("a.install", "y")]));
    assert_ne!(base, bundle_hash("1", "p", &vec![file("b.install", "x")]));
    assert_ne!(base, bundle_hash("1", "p", &Vec::new()));
    assert_eq!(base, bundle_hash("1", "p", &vec![file("a.install", "x")]));
}

#[test]
fn hexadecimal() {
    assert_eq!(to_hex(&[]), "");
    assert_eq!(to_hex(&[0, 15, 16, 171, 255]), "000f10abff");
}

#[test]
fn saved_verdict_is_loaded() {
    for tier in [Tier::Trusted, Tier::Okay, Tier::Sketchy, Tier::Suspicious, Tier::Malicious] {
        let body = save(tier, 1000);
        let v = load(&body, 1300).unwrap();
        assert_eq!(v.tier, tier);
        assert_eq!(v.timestamp, 1000);
        assert_eq!(v.age_secs(1300), 300);
        assert!(load(&body, 1301).is_none());
        assert!(load(&body, 5).is_some());
    }
    assert_eq!(save(Tier::Okay, 1000), "ok\n1000\n");
}

#[test]
fn spoiled_entries_are_passed_over() {
    assert!(load("", 0).is_none());
    assert!(load("ok\n", 0).is_none());
    assert!(load("ok\nx\n", 0).is_none());
    assert!(load("ok\n-1\n", 0).is_none());
    assert!(load("fine\n1\n", 0).is_none());
    assert!(load("ok\n18446744073709551616\n", 0).is_none());
    assert!(load("ok\n18446744073709551615\n", 0).is_some());
    assert!(load("ok\n+7\nmore", 0).is_some());
    assert!(load("MALICIOUS\r\n7\r\n", 0).is_some());
}

#[test]
fn age_of_a_verdict() {
    let v = CachedVerdict { tier: Tier::Okay, timestamp: 10 };
    assert_eq!(v.age_secs(25), 15);
    assert_eq!(v.age_secs(3), 0);
}

#[test]
fn old_entries_are_pruned() {
    assert!(!is_expired(1200));
    assert!(is_expired(1201));
    assert_eq!(entry_path("/d", "abc"), "/d/abc.txt");
}

#[test]
fn texts_that_look_like_markers_are_told_apart() {
    let one = bundle_hash("1", "x", &vec![file("a.install", "y")]);
    for text in ["x\n.install:a.install\ny", "x\n.install:9:a.install\n1:y"] {
        assert_ne!(bundle_hash("1", text, &Vec::new()), one);
    }
    assert_ne!(
        bundle_message("1", "x\n.install:9:a.install\n1:y", &Vec::new()),
        bundle_message("1", "x", &vec![file("a.install", "y")])
    );
    assert_ne!(
        bundle_message("1\nPKGBUILD\n0:", "", &Vec::new()),
        bundle_message("1", "\nPKGBUILD\n0:", &Vec::new())
    );
}

#[test]
fn lengths_are_counted_in_characters() {
    assert_eq!(bundle_message("1", "é", &Vec::new()), "aur-guard:v=1:1\nPKGBUILD\n1:é");
}

#[test]
fn hashes_are_64_digits() {
    let h = bundle_hash("1", "p", &Vec::new());
    assert_eq!(h.len(), 64);
    assert!(h.chars().all(|c| matches!(c, '0'..='9' | 'a'..='f')));
}
