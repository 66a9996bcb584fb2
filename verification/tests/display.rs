use aur_guard::listing::list_rules;
use aur_guard::listing::print_rule;
use aur_guard::report::Finding;
use aur_guard::report::MaintainerSummary;
use aur_guard::report::Popularity;
use aur_guard::report::Reputation;
use aur_guard::report::ScanResult;
use aur_guard::report::Severity;
use aur_guard::report::Tier;
use aur_guard::ui::append_log;
use aur_guard::ui::confirm;
use aur_guard::ui::confirm_build;
use aur_guard::ui::days_since;
use aur_guard::ui::format_maintainer_track_record;
use aur_guard::ui::format_reputation;
use aur_guard::ui::is_yes;
use aur_guard::ui::means_yes;
use aur_guard::ui::paint;
use aur_guard::ui::print_badge;
use aur_guard::ui::print_result;
use aur_guard::ui::prompt_block;
use aur_guard::ui::term_width;
use aur_guard::ui::unix_timestamp;
use aur_guard::ui::use_color;
use aur_guard::ui::write_log_head;
use aur_guard::ui::write_log_line;
use aur_guard::ui::NO_TTY_NOTICE;
use aur_guard::wrap::wrap_paragraph;

const NOW: i64 = 1_700_000_000;
const DAY: i64 = 86_400;

fn finding() -> Finding {
    Finding {
        rule_id: "AG034",
        points: 75,
        override_gate: false,
        title: "A title",
        description: "Some words that say what is wrong with the line, and go on for long enough to be wrapped.",
        line: 7,
        snippet: "  useradd \"evil\"  ".to_string(),
        source_file: None,
        is_new: false,
    }
}

fn reputation() -> Reputation {
    Reputation {
        maintainer: Some("alice".to_string()),
        first_submitted: NOW - 400 * DAY,
        last_modified: NOW - 5 * DAY - 1,
        num_votes: 40,
        popularity: Popularity {
            bits: 1.5f64.to_bits(),
            two_places: "1.50".to_string(),
            three_places: "1.500".to_string(),
        },
        out_of_date: None,
        maintainer_established: false,
        maintainer_summary: None,
    }
}

fn result() -> ScanResult {
    ScanResult {
        path: "/p/PKGBUILD".to_string(),
        findings: Vec::new(),
        lines_scanned: 12,
        score: 100,
        tier: Tier::Trusted,
        override_gate_fired: None,
        promoted_by_diff: None,
        reputation: None,
    }
}

#[test]
fn clean_report() {
    assert_eq!(
        print_result(&result(), false, 100, NOW),
        "aur-guard :: [TRUSTED] /p/PKGBUILD  (12 lines)\n  trust score 100/100\n  ✓ No findings.\n"
    );
    assert_eq!(
        print_result(&result(), true, 100, NOW),
        "\x1b[1maur-guard\x1b[0m \x1b[2m::\x1b[0m \x1b[1;32m[TRUSTED]\x1b[0m /p/PKGBUILD  \x1b[2m(12 lines)\x1b[0m\n  \x1b[1mtrust score 100/100\x1b[0m\n  \x1b[32m✓ No findings.\x1b[0m\n"
    );
}

#[test]
fn full_report() {
    let mut r = result();
    r.score = 0;
    r.tier = Tier::Malicious;
    r.override_gate_fired = Some("AG001");
    r.promoted_by_diff = Some("because".to_string());
    r.reputation = Some(reputation());
    r.findings.push(finding());
    let mut second = finding();
    second.is_new = true;
    second.override_gate = true;
    second.points = 5;
    second.source_file = Some("x.install".to_string());
    second.snippet = "y".repeat(60);
    r.findings.push(second);
    let want = "aur-guard :: [MALICIOUS] /p/PKGBUILD  (12 lines)
  trust score 0/100
  → override gate fired (AG001) — one match is enough to fail the build
  → supply-chain diff: because
  → AUR: maintainer=alice, age=400d, last update=5d ago, votes=40, popularity=1.50
  2 finding(s), 1 new since the previous version:

  [HIGH]  A title  [AG034 · 75pts]
    line 7: useradd \"evil\"
    Some words that say what is wrong with the line,
    and go on for long enough to be wrapped.

  [CRITICAL] [NEW]  A title [+x.install]  [AG034 · 5pts ⛔]
    line 7: yyyyyyyyyyyyyyyyyyyyyyyyyyyyyyyyyyyyyyyyy…
    Some words that say what is wrong with the line,
    and go on for long enough to be wrapped.

";
    let got = print_result(&r, false, 56, NOW);
    assert_eq!(got, want);
}

#[test]
fn coloured_finding() {
    let mut r = result();
    let mut f = finding();
    f.is_new = true;
    f.description = "D";
    f.source_file = Some("x.install".to_string());
    r.findings.push(f);
    let got = print_result(&r, true, 100, NOW);
    assert!(got.ends_with("  1 finding(s), \x1b[33m1 new since the previous version\x1b[0m:\n\n  \x1b[31m[HIGH]\x1b[0m\x1b[1;33m [NEW]\x1b[0m  \x1b[1mA title\x1b[0m \x1b[2m[+x.install]\x1b[0m  \x1b[2m[AG034 · 75pts]\x1b[0m\n    \x1b[2mline 7:\x1b[0m useradd \"evil\"\n    D\n\n"));
}

#[test]
fn reputation_banner() {
    let mut rep = reputation();
    assert_eq!(
        format_reputation(&rep, NOW),
        "maintainer=alice, age=400d, last update=5d ago, votes=40, popularity=1.50"
    );
    rep.maintainer = None;
    rep.first_submitted = 0;
    rep.out_of_date = Some(NOW - 2 * DAY);
    rep.maintainer_established = true;
    assert_eq!(
        format_reputation(&rep, NOW),
        "maintainer=(orphaned), age=-1d, last update=5d ago, votes=40, popularity=1.50, ⚑ out-of-date 2d (established maintainer)"
    );
}

#[test]
fn track_record_banner() {
    let mut rep = reputation();
    assert_eq!(format_maintainer_track_record(&rep, NOW), None);
    rep.maintainer_summary = Some(MaintainerSummary {
        package_count: 12,
        total_votes: 300,
        oldest_first_submitted: NOW - 900 * DAY,
    });
    assert_eq!(
        format_maintainer_track_record(&rep, NOW),
        Some("track record: 12 pkg(s) · 300 vote(s) total · oldest 900d ago".to_string())
    );
    rep.maintainer_established = true;
    assert_eq!(
        format_maintainer_track_record(&rep, NOW),
        Some(
            "track record: 12 pkg(s) · 300 vote(s) total · oldest 900d ago — AG092/AG094 suppressed"
                .to_string()
        )
    );
    let mut r = result();
    r.reputation = Some(rep);
    assert!(print_result(&r, false, 100, NOW).contains(
        "\n    track record: 12 pkg(s) · 300 vote(s) total · oldest 900d ago — AG092/AG094 suppressed\n"
    ));
}

#[test]
fn days() {
    assert_eq!(days_since(NOW, 0), -1);
    assert_eq!(days_since(NOW, -5), -1);
    assert_eq!(days_since(NOW, NOW), 0);
    assert_eq!(days_since(NOW, NOW + DAY), 0);
    assert_eq!(days_since(NOW, NOW - DAY), 1);
    assert_eq!(days_since(NOW, NOW - DAY + 1), 0);
    assert_eq!(days_since(i64::MIN, 1), 0);
    assert_eq!(days_since(i64::MAX, 1), (i64::MAX - 1) / DAY);
}

#[test]
fn colour_and_width() {
    assert_eq!(paint(false, "\x1b[31m", "x"), "x");
    assert_eq!(paint(true, "\x1b[31m", "x"), "\x1b[31mx\x1b[0m");
    assert_eq!(print_badge(Severity::Low, false), "[LOW]");
    assert_eq!(print_badge(Severity::Low, true), "\x1b[36m[LOW]\x1b[0m");
    assert!(use_color(true, false));
    assert!(!use_color(true, true));
    assert!(!use_color(false, false));
    assert_eq!(term_width(None), 100);
    assert_eq!(term_width(Some("80")), 80);
    assert_eq!(term_width(Some("+80")), 80);
    assert_eq!(term_width(Some("40")), 40);
    assert_eq!(term_width(Some("39")), 100);
    assert_eq!(term_width(Some("")), 100);
    assert_eq!(term_width(Some(" 80")), 100);
    assert_eq!(term_width(Some("wide")), 100);
    assert_eq!(term_width(Some("99999999999999999999999")), 100);
}

#[test]
fn prompt() {
    let summary = vec!["one".to_string(), "two".to_string()];
    let rule = "━".repeat(50);
    assert_eq!(
        prompt_block("decision", &summary, "go on?", false, 50),
        format!("\n{}\n  aur-guard :: decision\n  ▸ one\n  ▸ two\n  ▸ go on?  [y/N] ", rule)
    );
    assert_eq!(
        prompt_block("d", &Vec::new(), "q?", true, 10),
        format!(
            "\n\x1b[1;36m{}\x1b[0m\n  \x1b[1maur-guard :: d\x1b[0m\n  ▸ \x1b[1mq?\x1b[0m  [y/N] ",
            "━".repeat(40)
        )
    );
    let wide = prompt_block("d", &Vec::new(), "q?", false, 500);
    assert!(wide.starts_with(&format!("\n{}\n", "━".repeat(72))));
    let mut r = result();
    r.tier = Tier::Suspicious;
    r.score = 25;
    r.findings.push(finding());
    assert!(confirm_build(&r, false, 80).ends_with(
        "\n  aur-guard :: decision required\n  ▸ tier SUSPICIOUS  (trust 25/100, 1 finding(s))\n  ▸ continue with this build?  [y/N] "
    ));
}

#[test]
fn answers() {
    for yes in ["y", "Y", "yes", " YES \n", "yEs\r\n"] {
        assert!(is_yes(yes));
    }
    for no in ["", "\n", "n", "no", "yess", "y e s", "ja"] {
        assert!(!is_yes(no));
    }
}

#[test]
fn without_a_terminal_the_answer_is_no() {
    assert!(!confirm(None, None, None));
    assert!(!confirm(None, None, Some("no")));
    assert!(!confirm(None, None, Some("YES")));
    assert!(confirm(None, None, Some("yes")));
    assert!(!confirm(None, None, Some("y")));
    assert!(!confirm(None, None, Some("1")));
    assert!(!confirm(None, None, Some("")));
    assert!(NO_TTY_NOTICE.contains("blocking by default"));
}

#[test]
fn the_terminal_decides() {
    assert!(!confirm(Some("n\n"), Some("y\n"), Some("yes")));
    assert!(confirm(Some("y\n"), Some("n\n"), None));
    assert!(!confirm(Some(""), None, Some("yes")));
    assert!(!confirm(None, Some("\n"), Some("yes")));
    assert!(confirm(None, Some("yes"), None));
}

#[test]
fn log_of_a_scan() {
    assert_eq!(unix_timestamp(42), "[42]");
    let mut r = result();
    assert_eq!(
        append_log(&r, 42),
        "[42] target=/p/PKGBUILD lines=12 tier=TRUSTED score=100 findings=0 gate=- promoted=\"-\" aur=\"-\"\n"
    );
    r.override_gate_fired = Some("AG001");
    r.promoted_by_diff = Some("a \"b\"\tc é".to_string());
    r.reputation = Some(reputation());
    r.findings.push(finding());
    let mut second = finding();
    second.source_file = Some("x.install".to_string());
    second.is_new = true;
    second.override_gate = true;
    r.findings.push(second);
    assert_eq!(
        append_log(&r, NOW as u64),
        "[1700000000] target=/p/PKGBUILD lines=12 tier=TRUSTED score=100 findings=2 gate=AG001 promoted=\"a \\\"b\\\"\\tc é\" aur=\"maintainer=alice, age=400d, last update=5d ago, votes=40, popularity=1.50\"
[1700000000]   [HIGH] AG034 points=75 gate=false new=false src=PKGBUILD line=7 snippet=\"  useradd \\\"evil\\\"  \"
[1700000000]   [CRITICAL] AG034 points=75 gate=true new=true src=x.install line=7 snippet=\"  useradd \\\"evil\\\"  \"
"
    );
}

#[test]
fn log_lines() {
    let mut r = result();
    r.override_gate_fired = Some("AG010");
    assert_eq!(
        write_log_head(&r, 7, "<p>", "<a>"),
        "[7] target=/p/PKGBUILD lines=12 tier=TRUSTED score=100 findings=0 gate=AG010 promoted=<p> aur=<a>\n"
    );
    assert_eq!(
        write_log_line(&finding(), 7, "<s>"),
        "[7]   [HIGH] AG034 points=75 gate=false new=false src=PKGBUILD line=7 snippet=<s>\n"
    );
}

#[test]
fn yes_words() {
    assert!(means_yes("y") && means_yes("yes"));
    assert!(!means_yes("Y") && !means_yes("") && !means_yes(" y"));
}

#[test]
fn wrapping() {
    assert_eq!(wrap_paragraph("", 30, "  "), "");
    assert_eq!(wrap_paragraph("  a \t b\n", 30, "> "), "> a b");
    assert_eq!(
        wrap_paragraph("aaaa bbbb cccc dddd eeee ffff", 20, ""),
        "aaaa bbbb cccc dddd\neeee ffff"
    );
    assert_eq!(
        wrap_paragraph(&format!("a {} b", "x".repeat(30)), 24, "    "),
        format!("    a\n    {}…\n    b", "x".repeat(19))
    );
    assert_eq!(wrap_paragraph("one two three four five six", 0, "--"), "--one two three four\n--five six");
}

#[test]
fn wrapped_lines_fit() {
    assert_eq!(wrap_paragraph("ab", 1, ""), "…");
    assert_eq!(wrap_paragraph("ab c", 2, ""), "ab\nc");
    assert_eq!(wrap_paragraph("one two three", 7, "  "), "  one\n  two\n  three");
    let text = "Some words, and a-word-that-is-far-too-long-for-any-of-the-lines, and more.";
    for width in 3..40 {
        for line in wrap_paragraph(text, width, "> ").lines() {
            assert!(line.starts_with("> "));
            assert!(line.chars().count() <= width, "{} in {}", line, width);
        }
    }
}

#[test]
fn descriptions_fit_on_narrow_terminals() {
    let mut r = result();
    r.findings.push(finding());
    for width in 40..80 {
        let text = print_result(&r, false, width, NOW);
        for line in text.lines().filter(|l| l.starts_with("    ")) {
            assert!(line.chars().count() <= width, "{} in {}", line, width);
        }
    }
}

#[test]
fn snippets_have_forty_columns_at_least() {
    let mut r = result();
    let mut f = finding();
    f.line = 999;
    f.snippet = "z".repeat(200);
    r.findings.push(f);
    for width in 40..80usize {
        let room = width.saturating_sub(14).max(40);
        let want = format!("\n    line 999: {}…\n", "z".repeat(room - 1));
        assert!(print_result(&r, false, width, NOW).contains(&want));
    }
    r.findings[0].snippet = "z".repeat(40);
    assert!(print_result(&r, false, 40, NOW).contains(&format!(": {}\n", "z".repeat(40))));
}

#[test]
fn tier_is_on_the_first_line() {
    let mut r = result();
    r.path = "a\nb".to_string();
    for tier in [Tier::Trusted, Tier::Okay, Tier::Sketchy, Tier::Suspicious, Tier::Malicious] {
        r.tier = tier;
        for color in [false, true] {
            let text = print_result(&r, color, 80, NOW);
            assert!(text.lines().next().unwrap().contains(&format!("[{}]", tier.label())));
        }
    }
}

#[test]
fn each_finding_takes_one_line_of_the_log() {
    let mut r = result();
    r.promoted_by_diff = Some("two\nlines".to_string());
    for _ in 0..3 {
        let mut f = finding();
        f.snippet = "a\nb\r\nc".to_string();
        r.findings.push(f);
    }
    assert_eq!(append_log(&r, 7).lines().count(), 4);
}

#[test]
fn rule_lines() {
    assert_eq!(
        print_rule(false, "AG093", 5, false, "T"),
        "[LOW]               AG093   5pts         T\n"
    );
    assert_eq!(
        print_rule(false, "AG001", 95, true, "T"),
        "[CRITICAL]          AG001  95pts  ⛔gate  T\n"
    );
    assert_eq!(
        print_rule(true, "AG034", 100, false, "T"),
        format!("{:18}  AG034  100pts         T\n", "\x1b[1;91m[CRITICAL]\x1b[0m")
    );
    for (points, gate) in [(5u32, false), (95, true), (50, false)] {
        let badge = print_badge(Severity::from_points(points, gate), false);
        let mark = if gate { " ⛔gate" } else { "      " };
        assert_eq!(
            print_rule(false, "X", points, gate, "T"),
            format!("{badge:18}  {}  {:>2}pts {}  {}\n", "X", points, mark, "T")
        );
    }
}

#[test]
fn list_of_rules() {
    let l = list_rules(false);
    assert_eq!(l.header, "aur-guard :: 38 active rules (29 regex + 4 metadata + 5 reputation)\n");
    let lines: Vec<&str> = l.body.lines().collect();
    assert_eq!(lines.len(), 38);
    assert!(lines[0].contains("AG001") && lines[0].contains("⛔gate"));
    assert!(lines[29].contains("AG080"));
    assert!(lines[37].contains("AG094"));
}
