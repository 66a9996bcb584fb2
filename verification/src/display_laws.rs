//! What is shown and logged comes to: every finding is there with what it
//! says, every number that is counted, and every line that is asked to be
//! shown, whatever else is.

use vstd::prelude::*;
use vstd::utf8::is_ascii_chars;

use crate::hook::summary_line;
use crate::hook::Tally;
use crate::hook_laws::law_solid_fields;
use crate::listing::filled_left;
use crate::listing::filled_right;
use crate::listing::gate_column;
use crate::listing::meta_rule_lines;
use crate::listing::rule_line;
use crate::listing::rule_lines;
use crate::listing::rules_header;
use crate::numeral::decimal;
use crate::numeral::read_number;
use crate::numeral::signed_decimal;
use crate::outside::debug_quoted;
use crate::patterns::RuleView;
use crate::report::severity_of;
use crate::report::FindingView;
use crate::report::MaintainerSummary;
use crate::report::ReputationView;
use crate::report::ResultView;
use crate::report::Severity;
use crate::report::Tier;
use crate::reputation_laws::law_days;
use crate::rpc::MetaRuleView;
use crate::text::ascii_lowered;
use crate::text::cut_display;
use crate::text::is_blank;
use crate::text::is_one_line;
use crate::text::is_piece;
use crate::text::lines;
use crate::text::occurs_at;
use crate::text::split;
use crate::text::trim;
use crate::text::Class;
use crate::text_laws::law_fields_are_parted;
use crate::text_laws::law_unparted_text_is_one_field;
use crate::ui::badge;
use crate::ui::bold;
use crate::ui::bool_word;
use crate::ui::build_summary;
use crate::ui::confirmed;
use crate::ui::count_line;
use crate::ui::cyan;
use crate::ui::days_ago;
use crate::ui::description_columns;
use crate::ui::details;
use crate::ui::dim;
use crate::ui::esc;
use crate::ui::file_mark;
use crate::ui::finding_text;
use crate::ui::findings_text;
use crate::ui::gate_line;
use crate::ui::gate_mark;
use crate::ui::green;
use crate::ui::headline;
use crate::ui::log_head;
use crate::ui::log_line;
use crate::ui::log_lines;
use crate::ui::log_text;
use crate::ui::maintainer_name;
use crate::ui::new_count;
use crate::ui::new_mark;
use crate::ui::opening;
use crate::ui::painted;
use crate::ui::place_text;
use crate::ui::promotion_line;
use crate::ui::promotion_note;
use crate::ui::prompt_text;
use crate::ui::report_text;
use crate::ui::reputation_lines;
use crate::ui::reputation_text;
use crate::ui::reset;
use crate::ui::rule;
use crate::ui::rule_width;
use crate::ui::says_yes;
use crate::ui::snippet_columns;
use crate::ui::stamp;
use crate::ui::standing_note;
use crate::ui::subject;
use crate::ui::summary_text;
use crate::ui::text_or;
use crate::ui::tier_badge;
use crate::ui::track_record_line;
use crate::ui::track_record_text;
use crate::ui::uses_color;
use crate::ui::width_of;
use crate::ui::yellow;
use crate::wrap::behind_indent;
use crate::wrap::fill;
use crate::wrap::is_set;
use crate::wrap::lemma_fill_set;
use crate::wrap::lemma_indented_lines;
use crate::wrap::lemma_words;
use crate::wrap::set_lines;
use crate::wrap::words;
use crate::wrap::wrapped;

verus! {

proof fn lemma_ends(a: Seq<char>, p: Seq<char>)
    ensures
        is_piece(p, a + p),
{
    let s = a + p;
    assert(s.subrange(a.len() as int, a.len() as int + p.len()) =~= p);
    assert(occurs_at(s, p, a.len() as int));
}

/// A text is a piece of itself.
proof fn lemma_is_own_piece(p: Seq<char>)
    ensures
        is_piece(p, p),
{
    assert(p.subrange(0, p.len() as int) =~= p);
    assert(occurs_at(p, p, 0));
}

proof fn lemma_regroup(a: Seq<char>, b: Seq<char>, c: Seq<char>)
    ensures
        a + b + c == a + (b + c),
{
    assert(a + b + c =~= a + (b + c));
}

proof fn lemma_goes_on(p: Seq<char>, a: Seq<char>, b: Seq<char>)
    requires
        is_piece(p, a),
    ensures
        is_piece(p, a + b),
{
    let i = choose|i: int| #[trigger] occurs_at(a, p, i);
    let s = a + b;
    assert(s.subrange(i, i + p.len()) =~= a.subrange(i, i + p.len()));
    assert(occurs_at(s, p, i));
}

/// What is a piece of a piece is a piece.
proof fn lemma_piece_of_piece(p: Seq<char>, q: Seq<char>, s: Seq<char>)
    requires
        is_piece(p, q),
        is_piece(q, s),
    ensures
        is_piece(p, s),
{
    let i = choose|i: int| #[trigger] occurs_at(q, p, i);
    let j = choose|j: int| #[trigger] occurs_at(s, q, j);
    assert(s.subrange(j, j + q.len())[0int] == s.subrange(j, j + q.len())[0int]);
    assert(s.subrange(j + i, j + i + p.len()) =~= s.subrange(j, j + q.len()).subrange(
        i,
        i + p.len(),
    ));
    assert(occurs_at(s, p, j + i));
}

/// The headline says what was scanned, how many lines that is, and the trust
/// score.
pub proof fn law_headline(r: ResultView, color: bool)
    ensures
        is_piece(r.path, subject(r, color)),
        is_piece("("@ + decimal(r.lines_scanned) + " lines)"@, subject(r, color)),
        is_piece("trust score "@ + decimal(r.score) + "/100"@, subject(r, color)),
{
    let c0 = " "@;
    let c1 = c0 + r.path;
    let c2 = c1 + "  "@;
    let c3 = c2 + dim(color);
    let c4 = c3 + "("@;
    let c5 = c4 + decimal(r.lines_scanned);
    let c6 = c5 + " lines)"@;
    let c7 = c6 + reset(color);
    let c8 = c7 + "\n  "@;
    let c9 = c8 + bold(color);
    let c10 = c9 + "trust score "@;
    let c11 = c10 + decimal(r.score);
    let c12 = c11 + "/100"@;
    let c13 = c12 + reset(color);
    let c14 = c13 + "\n"@;
    let cp1_1 = r.path;
    lemma_ends(c0, cp1_1);
    lemma_goes_on(cp1_1, c1, "  "@);
    lemma_goes_on(cp1_1, c2, dim(color));
    lemma_goes_on(cp1_1, c3, "("@);
    lemma_goes_on(cp1_1, c4, decimal(r.lines_scanned));
    lemma_goes_on(cp1_1, c5, " lines)"@);
    lemma_goes_on(cp1_1, c6, reset(color));
    lemma_goes_on(cp1_1, c7, "\n  "@);
    lemma_goes_on(cp1_1, c8, bold(color));
    lemma_goes_on(cp1_1, c9, "trust score "@);
    lemma_goes_on(cp1_1, c10, decimal(r.score));
    lemma_goes_on(cp1_1, c11, "/100"@);
    lemma_goes_on(cp1_1, c12, reset(color));
    lemma_goes_on(cp1_1, c13, "\n"@);
    let cp4_6 = "("@ + decimal(r.lines_scanned) + " lines)"@;
    lemma_regroup(c3, "("@, decimal(r.lines_scanned));
    lemma_regroup(c3, "("@ + decimal(r.lines_scanned), " lines)"@);
    lemma_ends(c3, cp4_6);
    lemma_goes_on(cp4_6, c6, reset(color));
    lemma_goes_on(cp4_6, c7, "\n  "@);
    lemma_goes_on(cp4_6, c8, bold(color));
    lemma_goes_on(cp4_6, c9, "trust score "@);
    lemma_goes_on(cp4_6, c10, decimal(r.score));
    lemma_goes_on(cp4_6, c11, "/100"@);
    lemma_goes_on(cp4_6, c12, reset(color));
    lemma_goes_on(cp4_6, c13, "\n"@);
    let cp10_12 = "trust score "@ + decimal(r.score) + "/100"@;
    lemma_regroup(c9, "trust score "@, decimal(r.score));
    lemma_regroup(c9, "trust score "@ + decimal(r.score), "/100"@);
    lemma_ends(c9, cp10_12);
    lemma_goes_on(cp10_12, c12, reset(color));
    lemma_goes_on(cp10_12, c13, "\n"@);
}

/// A gate that fired is named.
pub proof fn law_gate_is_shown(r: ResultView, id: Seq<char>, color: bool)
    requires
        r.override_gate_fired == Some(id),
    ensures
        is_piece(
            "→ override gate fired ("@ + id + ") — one match is enough to fail the build"@,
            gate_line(r, color),
        ),
{
    let c0 = "  "@;
    let c1 = c0 + dim(color);
    let c2 = c1 + "→ override gate fired ("@;
    let c3 = c2 + id;
    let c4 = c3 + ") — one match is enough to fail the build"@;
    let c5 = c4 + reset(color);
    let c6 = c5 + "\n"@;
    let cp2_4 = "→ override gate fired ("@ + id + ") — one match is enough to fail the build"@;
    lemma_regroup(c1, "→ override gate fired ("@, id);
    lemma_regroup(
        c1,
        "→ override gate fired ("@ + id,
        ") — one match is enough to fail the build"@,
    );
    lemma_ends(c1, cp2_4);
    lemma_goes_on(cp2_4, c4, reset(color));
    lemma_goes_on(cp2_4, c5, "\n"@);
}

/// A promotion is shown with its reason.
pub proof fn law_promotion_is_shown(r: ResultView, reason: Seq<char>, color: bool)
    requires
        r.promoted_by_diff == Some(reason),
    ensures
        is_piece("→ supply-chain diff: "@ + reason, promotion_line(r, color)),
{
    let c0 = "  "@;
    let c1 = c0 + yellow(color);
    let c2 = c1 + "→ supply-chain diff: "@;
    let c3 = c2 + reason;
    let c4 = c3 + reset(color);
    let c5 = c4 + "\n"@;
    let cp2_3 = "→ supply-chain diff: "@ + reason;
    lemma_regroup(c1, "→ supply-chain diff: "@, reason);
    lemma_ends(c1, cp2_3);
    lemma_goes_on(cp2_3, c3, reset(color));
    lemma_goes_on(cp2_3, c4, "\n"@);
}

/// The standing in the AUR is shown, and the track record where it is known.
pub proof fn law_standing_is_shown(r: ResultView, rep: ReputationView, color: bool, now: int)
    requires
        r.reputation == Some(rep),
    ensures
        is_piece("→ AUR: "@ + reputation_text(rep, now), reputation_lines(r, color, now)),
        is_piece(track_record_line(rep, color, now), reputation_lines(r, color, now)),
{
    let c0 = "  "@;
    let c1 = c0 + cyan(color);
    let c2 = c1 + "→ AUR: "@;
    let c3 = c2 + reputation_text(rep, now);
    let c4 = c3 + reset(color);
    let c5 = c4 + "\n"@;
    let c6 = c5 + track_record_line(rep, color, now);
    let cp2_3 = "→ AUR: "@ + reputation_text(rep, now);
    lemma_regroup(c1, "→ AUR: "@, reputation_text(rep, now));
    lemma_ends(c1, cp2_3);
    lemma_goes_on(cp2_3, c3, reset(color));
    lemma_goes_on(cp2_3, c4, "\n"@);
    lemma_goes_on(cp2_3, c5, track_record_line(rep, color, now));
    let cp6_6 = track_record_line(rep, color, now);
    lemma_ends(c5, cp6_6);
}

/// The track record is shown where it is known.
pub proof fn law_track_record_is_shown(rep: ReputationView, line: Seq<char>, color: bool, now: int)
    requires
        track_record_text(rep, now) == Some(line),
    ensures
        is_piece(line, track_record_line(rep, color, now)),
{
    let c0 = "  "@;
    let c1 = c0 + dim(color);
    let c2 = c1 + "  "@;
    let c3 = c2 + line;
    let c4 = c3 + reset(color);
    let c5 = c4 + "\n"@;
    let cp3_3 = line;
    lemma_ends(c2, cp3_3);
    lemma_goes_on(cp3_3, c3, reset(color));
    lemma_goes_on(cp3_3, c4, "\n"@);
}

/// The banner says who maintains the package, how old it is, when it was last
/// changed, its votes and its popularity; how long it has been flagged, where
/// it is; and that its maintainer is established, where they are.
pub proof fn law_banner(rep: ReputationView, now: int, ts: i64)
    ensures
        is_piece("maintainer="@ + maintainer_name(rep.maintainer), reputation_text(rep, now)),
        is_piece(
            ", age="@ + signed_decimal(days_ago(now, rep.first_submitted)) + "d, last update="@,
            reputation_text(rep, now),
        ),
        is_piece(
            "d, last update="@ + signed_decimal(days_ago(now, rep.last_modified))
                + "d ago, votes="@,
            reputation_text(rep, now),
        ),
        is_piece("d ago, votes="@ + decimal(rep.num_votes), reputation_text(rep, now)),
        is_piece(", popularity="@ + rep.popularity.two_places, reputation_text(rep, now)),
        rep.out_of_date == Some(ts) ==> is_piece(
            ", ⚑ out-of-date "@ + signed_decimal(days_ago(now, ts as int)) + "d"@,
            reputation_text(rep, now),
        ),
        rep.maintainer_established ==> is_piece(
            " (established maintainer)"@,
            reputation_text(rep, now),
        ),
        rep.out_of_date is None && !rep.maintainer_established ==> reputation_text(rep, now)
            == "maintainer="@ + maintainer_name(rep.maintainer) + ", age="@
                + signed_decimal(days_ago(now, rep.first_submitted)) + "d, last update="@
                + signed_decimal(days_ago(now, rep.last_modified)) + "d ago, votes="@
                + decimal(rep.num_votes) + ", popularity="@ + rep.popularity.two_places,
        maintainer_name(None) == "(orphaned)"@,
        rep.maintainer matches Some(m) ==> maintainer_name(rep.maintainer) == m,
{
    let c0 = "maintainer="@;
    let c1 = c0 + maintainer_name(rep.maintainer);
    let c2 = c1 + ", age="@;
    let c3 = c2 + signed_decimal(days_ago(now, rep.first_submitted));
    let c4 = c3 + "d, last update="@;
    let c5 = c4 + signed_decimal(days_ago(now, rep.last_modified));
    let c6 = c5 + "d ago, votes="@;
    let c7 = c6 + decimal(rep.num_votes);
    let c8 = c7 + ", popularity="@;
    let c9 = c8 + rep.popularity.two_places;
    let cp0_1 = "maintainer="@ + maintainer_name(rep.maintainer);
    lemma_is_own_piece(cp0_1);
    lemma_goes_on(cp0_1, c1, ", age="@);
    lemma_goes_on(cp0_1, c2, signed_decimal(days_ago(now, rep.first_submitted)));
    lemma_goes_on(cp0_1, c3, "d, last update="@);
    lemma_goes_on(cp0_1, c4, signed_decimal(days_ago(now, rep.last_modified)));
    lemma_goes_on(cp0_1, c5, "d ago, votes="@);
    lemma_goes_on(cp0_1, c6, decimal(rep.num_votes));
    lemma_goes_on(cp0_1, c7, ", popularity="@);
    lemma_goes_on(cp0_1, c8, rep.popularity.two_places);
    let cp2_4 = ", age="@ + signed_decimal(days_ago(now, rep.first_submitted)) + "d, last update="@;
    lemma_regroup(c1, ", age="@, signed_decimal(days_ago(now, rep.first_submitted)));
    lemma_regroup(
        c1,
        ", age="@ + signed_decimal(days_ago(now, rep.first_submitted)),
        "d, last update="@,
    );
    lemma_ends(c1, cp2_4);
    lemma_goes_on(cp2_4, c4, signed_decimal(days_ago(now, rep.last_modified)));
    lemma_goes_on(cp2_4, c5, "d ago, votes="@);
    lemma_goes_on(cp2_4, c6, decimal(rep.num_votes));
    lemma_goes_on(cp2_4, c7, ", popularity="@);
    lemma_goes_on(cp2_4, c8, rep.popularity.two_places);
    let cp4_6 = "d, last update="@ + signed_decimal(days_ago(now, rep.last_modified))
        + "d ago, votes="@;
    lemma_regroup(c3, "d, last update="@, signed_decimal(days_ago(now, rep.last_modified)));
    lemma_regroup(
        c3,
        "d, last update="@ + signed_decimal(days_ago(now, rep.last_modified)),
        "d ago, votes="@,
    );
    lemma_ends(c3, cp4_6);
    lemma_goes_on(cp4_6, c6, decimal(rep.num_votes));
    lemma_goes_on(cp4_6, c7, ", popularity="@);
    lemma_goes_on(cp4_6, c8, rep.popularity.two_places);
    let cp6_7 = "d ago, votes="@ + decimal(rep.num_votes);
    lemma_regroup(c5, "d ago, votes="@, decimal(rep.num_votes));
    lemma_ends(c5, cp6_7);
    lemma_goes_on(cp6_7, c7, ", popularity="@);
    lemma_goes_on(cp6_7, c8, rep.popularity.two_places);
    let cp8_9 = ", popularity="@ + rep.popularity.two_places;
    lemma_regroup(c7, ", popularity="@, rep.popularity.two_places);
    lemma_ends(c7, cp8_9);
    let text = c9;
    let flag = ", ⚑ out-of-date "@ + signed_decimal(days_ago(now, ts as int)) + "d"@;
    let est = " (established maintainer)"@;
    let more = match rep.out_of_date {
        Some(t) => text + ", ⚑ out-of-date "@ + signed_decimal(days_ago(now, t as int)) + "d"@,
        None => text,
    };
    match rep.out_of_date {
        Some(t) => {
            let f = ", ⚑ out-of-date "@ + signed_decimal(days_ago(now, t as int)) + "d"@;
            assert(more =~= text + f);
            lemma_ends(text, f);
            lemma_goes_on("maintainer="@ + maintainer_name(rep.maintainer), text, f);
            lemma_goes_on(
                ", age="@ + signed_decimal(days_ago(now, rep.first_submitted)) + "d, last update="@,
                text,
                f,
            );
            lemma_goes_on(
                "d, last update="@ + signed_decimal(days_ago(now, rep.last_modified))
                    + "d ago, votes="@,
                text,
                f,
            );
            lemma_goes_on("d ago, votes="@ + decimal(rep.num_votes), text, f);
            lemma_goes_on(", popularity="@ + rep.popularity.two_places, text, f);
        },
        None => {},
    }
    lemma_ends(more, est);
    if rep.maintainer_established {
        if rep.out_of_date == Some(ts) {
            lemma_goes_on(flag, more, est);
        }
        lemma_goes_on("maintainer="@ + maintainer_name(rep.maintainer), more, est);
        lemma_goes_on(
            ", age="@ + signed_decimal(days_ago(now, rep.first_submitted)) + "d, last update="@,
            more,
            est,
        );
        lemma_goes_on(
            "d, last update="@ + signed_decimal(days_ago(now, rep.last_modified))
                + "d ago, votes="@,
            more,
            est,
        );
        lemma_goes_on("d ago, votes="@ + decimal(rep.num_votes), more, est);
        lemma_goes_on(", popularity="@ + rep.popularity.two_places, more, est);
    }
}

/// Time is told in whole days; a time that is not known as -1.
pub proof fn law_days_ago(now: int, ts: int)
    ensures
        ts <= 0 ==> days_ago(now, ts) == -1,
        0 < ts <= now ==> 86_400 * days_ago(now, ts) <= now - ts < 86_400 * (days_ago(now, ts) + 1),
        ts > 0 && ts > now ==> days_ago(now, ts) == 0,
{
    law_days(ts, now);
}

/// The track record counts packages and votes, and says since when.
pub proof fn law_track_record(rep: ReputationView, m: MaintainerSummary, now: int)
    requires
        rep.maintainer_summary == Some(m),
        !rep.maintainer_established,
    ensures
        is_piece(
            "track record: "@ + decimal(m.package_count as int) + " pkg(s) · "@,
            track_record_text(rep, now)->0,
        ),
        is_piece(
            decimal(m.total_votes as int) + " vote(s) total · oldest "@,
            track_record_text(rep, now)->0,
        ),
        is_piece(
            " vote(s) total · oldest "@
                + signed_decimal(days_ago(now, m.oldest_first_submitted as int)) + "d ago"@,
            track_record_text(rep, now)->0,
        ),
        track_record_text(rep, now) is Some,
        track_record_text(ReputationView { maintainer_established: true, ..rep }, now) == Some(
            track_record_text(rep, now)->0 + " — AG092/AG094 suppressed"@,
        ),
        track_record_text(ReputationView { maintainer_summary: None, ..rep }, now) is None,
{
    let c0 = "track record: "@;
    let c1 = c0 + decimal(m.package_count as int);
    let c2 = c1 + " pkg(s) · "@;
    let c3 = c2 + decimal(m.total_votes as int);
    let c4 = c3 + " vote(s) total · oldest "@;
    let c5 = c4 + signed_decimal(days_ago(now, m.oldest_first_submitted as int));
    let c6 = c5 + "d ago"@;
    let cp0_2 = "track record: "@ + decimal(m.package_count as int) + " pkg(s) · "@;
    lemma_is_own_piece(cp0_2);
    lemma_goes_on(cp0_2, c2, decimal(m.total_votes as int));
    lemma_goes_on(cp0_2, c3, " vote(s) total · oldest "@);
    lemma_goes_on(cp0_2, c4, signed_decimal(days_ago(now, m.oldest_first_submitted as int)));
    lemma_goes_on(cp0_2, c5, "d ago"@);
    let cp3_4 = decimal(m.total_votes as int) + " vote(s) total · oldest "@;
    lemma_regroup(c2, decimal(m.total_votes as int), " vote(s) total · oldest "@);
    lemma_ends(c2, cp3_4);
    lemma_goes_on(cp3_4, c4, signed_decimal(days_ago(now, m.oldest_first_submitted as int)));
    lemma_goes_on(cp3_4, c5, "d ago"@);
    let cp4_6 = " vote(s) total · oldest "@
        + signed_decimal(days_ago(now, m.oldest_first_submitted as int)) + "d ago"@;
    lemma_regroup(
        c3,
        " vote(s) total · oldest "@,
        signed_decimal(days_ago(now, m.oldest_first_submitted as int)),
    );
    lemma_regroup(
        c3,
        " vote(s) total · oldest "@
            + signed_decimal(days_ago(now, m.oldest_first_submitted as int)),
        "d ago"@,
    );
    lemma_ends(c3, cp4_6);
}

proof fn lemma_new_prefix(fs: Seq<FindingView>, f: FindingView, n: int)
    requires
        0 <= n <= fs.len(),
    ensures
        new_count(fs.push(f), n) == new_count(fs, n),
    decreases n,
{
    if n > 0 {
        lemma_new_prefix(fs, f, n - 1);
        assert(fs.push(f)[n - 1] == fs[n - 1]);
    }
}

/// What is new is counted: one more finding counts where it is marked.
pub proof fn law_new_findings_are_counted(fs: Seq<FindingView>, f: FindingView)
    ensures
        new_count(fs.push(f), fs.len() as int + 1) == new_count(fs, fs.len() as int)
            + (if f.is_new {
            1int
        } else {
            0int
        }),
        new_count(fs, 0) == 0,
{
    lemma_new_prefix(fs, f, fs.len() as int);
    assert(fs.push(f)[fs.len() as int] == f);
}

/// How many findings there are is said, and how many of them are new where
/// some are.
pub proof fn law_counts_are_shown(fs: Seq<FindingView>, color: bool)
    ensures
        new_count(fs, fs.len() as int) > 0 ==> is_piece(
            decimal(fs.len() as int) + " finding(s), "@,
            count_line(fs, color),
        ) && is_piece(decimal(new_count(fs, fs.len() as int))
            + " new since the previous version"@, count_line(fs, color)),
        new_count(fs, fs.len() as int) <= 0 ==> count_line(fs, color) == "  "@ + decimal(
            fs.len() as int,
        ) + " finding(s):\n\n"@,
{
    let c0 = "  "@;
    let c1 = c0 + decimal(fs.len() as int);
    let c2 = c1 + " finding(s), "@;
    let c3 = c2 + yellow(color);
    let c4 = c3 + decimal(new_count(fs, fs.len() as int));
    let c5 = c4 + " new since the previous version"@;
    let c6 = c5 + reset(color);
    let c7 = c6 + ":\n\n"@;
    let cp1_2 = decimal(fs.len() as int) + " finding(s), "@;
    lemma_regroup(c0, decimal(fs.len() as int), " finding(s), "@);
    lemma_ends(c0, cp1_2);
    lemma_goes_on(cp1_2, c2, yellow(color));
    lemma_goes_on(cp1_2, c3, decimal(new_count(fs, fs.len() as int)));
    lemma_goes_on(cp1_2, c4, " new since the previous version"@);
    lemma_goes_on(cp1_2, c5, reset(color));
    lemma_goes_on(cp1_2, c6, ":\n\n"@);
    let cp4_5 = decimal(new_count(fs, fs.len() as int)) + " new since the previous version"@;
    lemma_regroup(c3, decimal(new_count(fs, fs.len() as int)), " new since the previous version"@);
    lemma_ends(c3, cp4_5);
    lemma_goes_on(cp4_5, c5, reset(color));
    lemma_goes_on(cp4_5, c6, ":\n\n"@);
}

/// A finding is shown with how heavy it is, whether it is new, its title, the
/// file it is in, its rule and its points, whether it is of a gate, where it
/// is, and what is wrong.
pub proof fn law_finding_is_shown(f: FindingView, color: bool, snippet_width: int, desc_width: int)
    ensures
        is_piece(
            badge(severity_of(f.points, f.override_gate), color) + new_mark(f, color),
            finding_text(f, color, snippet_width, desc_width),
        ),
        is_piece(f.title, finding_text(f, color, snippet_width, desc_width)),
        is_piece(file_mark(f, color), finding_text(f, color, snippet_width, desc_width)),
        is_piece(
            "["@ + f.rule_id + " · "@ + decimal(f.points) + "pts"@ + gate_mark(f) + "]"@,
            finding_text(f, color, snippet_width, desc_width),
        ),
        is_piece(
            place_text(f, color, snippet_width),
            finding_text(f, color, snippet_width, desc_width),
        ),
        is_piece(
            wrapped(f.description, desc_width, "    "@),
            finding_text(f, color, snippet_width, desc_width),
        ),
{
    let c0 = "  "@;
    let c1 = c0 + badge(severity_of(f.points, f.override_gate), color);
    let c2 = c1 + new_mark(f, color);
    let c3 = c2 + "  "@;
    let c4 = c3 + bold(color);
    let c5 = c4 + f.title;
    let c6 = c5 + reset(color);
    let c7 = c6 + file_mark(f, color);
    let c8 = c7 + "  "@;
    let c9 = c8 + dim(color);
    let c10 = c9 + "["@;
    let c11 = c10 + f.rule_id;
    let c12 = c11 + " · "@;
    let c13 = c12 + decimal(f.points);
    let c14 = c13 + "pts"@;
    let c15 = c14 + gate_mark(f);
    let c16 = c15 + "]"@;
    let c17 = c16 + reset(color);
    let c18 = c17 + "\n"@;
    let c19 = c18 + place_text(f, color, snippet_width);
    let c20 = c19 + "\n"@;
    let c21 = c20 + wrapped(f.description, desc_width, "    "@);
    let c22 = c21 + "\n\n"@;
    let cp1_2 = badge(severity_of(f.points, f.override_gate), color) + new_mark(f, color);
    lemma_regroup(c0, badge(severity_of(f.points, f.override_gate), color), new_mark(f, color));
    lemma_ends(c0, cp1_2);
    lemma_goes_on(cp1_2, c2, "  "@);
    lemma_goes_on(cp1_2, c3, bold(color));
    lemma_goes_on(cp1_2, c4, f.title);
    lemma_goes_on(cp1_2, c5, reset(color));
    lemma_goes_on(cp1_2, c6, file_mark(f, color));
    lemma_goes_on(cp1_2, c7, "  "@);
    lemma_goes_on(cp1_2, c8, dim(color));
    lemma_goes_on(cp1_2, c9, "["@);
    lemma_goes_on(cp1_2, c10, f.rule_id);
    lemma_goes_on(cp1_2, c11, " · "@);
    lemma_goes_on(cp1_2, c12, decimal(f.points));
    lemma_goes_on(cp1_2, c13, "pts"@);
    lemma_goes_on(cp1_2, c14, gate_mark(f));
    lemma_goes_on(cp1_2, c15, "]"@);
    lemma_goes_on(cp1_2, c16, reset(color));
    lemma_goes_on(cp1_2, c17, "\n"@);
    lemma_goes_on(cp1_2, c18, place_text(f, color, snippet_width));
    lemma_goes_on(cp1_2, c19, "\n"@);
    lemma_goes_on(cp1_2, c20, wrapped(f.description, desc_width, "    "@));
    lemma_goes_on(cp1_2, c21, "\n\n"@);
    let cp5_5 = f.title;
    lemma_ends(c4, cp5_5);
    lemma_goes_on(cp5_5, c5, reset(color));
    lemma_goes_on(cp5_5, c6, file_mark(f, color));
    lemma_goes_on(cp5_5, c7, "  "@);
    lemma_goes_on(cp5_5, c8, dim(color));
    lemma_goes_on(cp5_5, c9, "["@);
    lemma_goes_on(cp5_5, c10, f.rule_id);
    lemma_goes_on(cp5_5, c11, " · "@);
    lemma_goes_on(cp5_5, c12, decimal(f.points));
    lemma_goes_on(cp5_5, c13, "pts"@);
    lemma_goes_on(cp5_5, c14, gate_mark(f));
    lemma_goes_on(cp5_5, c15, "]"@);
    lemma_goes_on(cp5_5, c16, reset(color));
    lemma_goes_on(cp5_5, c17, "\n"@);
    lemma_goes_on(cp5_5, c18, place_text(f, color, snippet_width));
    lemma_goes_on(cp5_5, c19, "\n"@);
    lemma_goes_on(cp5_5, c20, wrapped(f.description, desc_width, "    "@));
    lemma_goes_on(cp5_5, c21, "\n\n"@);
    let cp7_7 = file_mark(f, color);
    lemma_ends(c6, cp7_7);
    lemma_goes_on(cp7_7, c7, "  "@);
    lemma_goes_on(cp7_7, c8, dim(color));
    lemma_goes_on(cp7_7, c9, "["@);
    lemma_goes_on(cp7_7, c10, f.rule_id);
    lemma_goes_on(cp7_7, c11, " · "@);
    lemma_goes_on(cp7_7, c12, decimal(f.points));
    lemma_goes_on(cp7_7, c13, "pts"@);
    lemma_goes_on(cp7_7, c14, gate_mark(f));
    lemma_goes_on(cp7_7, c15, "]"@);
    lemma_goes_on(cp7_7, c16, reset(color));
    lemma_goes_on(cp7_7, c17, "\n"@);
    lemma_goes_on(cp7_7, c18, place_text(f, color, snippet_width));
    lemma_goes_on(cp7_7, c19, "\n"@);
    lemma_goes_on(cp7_7, c20, wrapped(f.description, desc_width, "    "@));
    lemma_goes_on(cp7_7, c21, "\n\n"@);
    let cp10_16 = "["@ + f.rule_id + " · "@ + decimal(f.points) + "pts"@ + gate_mark(f) + "]"@;
    lemma_regroup(c9, "["@, f.rule_id);
    lemma_regroup(c9, "["@ + f.rule_id, " · "@);
    lemma_regroup(c9, "["@ + f.rule_id + " · "@, decimal(f.points));
    lemma_regroup(c9, "["@ + f.rule_id + " · "@ + decimal(f.points), "pts"@);
    lemma_regroup(c9, "["@ + f.rule_id + " · "@ + decimal(f.points) + "pts"@, gate_mark(f));
    lemma_regroup(c9, "["@ + f.rule_id + " · "@ + decimal(f.points) + "pts"@ + gate_mark(f), "]"@);
    lemma_ends(c9, cp10_16);
    lemma_goes_on(cp10_16, c16, reset(color));
    lemma_goes_on(cp10_16, c17, "\n"@);
    lemma_goes_on(cp10_16, c18, place_text(f, color, snippet_width));
    lemma_goes_on(cp10_16, c19, "\n"@);
    lemma_goes_on(cp10_16, c20, wrapped(f.description, desc_width, "    "@));
    lemma_goes_on(cp10_16, c21, "\n\n"@);
    let cp19_19 = place_text(f, color, snippet_width);
    lemma_ends(c18, cp19_19);
    lemma_goes_on(cp19_19, c19, "\n"@);
    lemma_goes_on(cp19_19, c20, wrapped(f.description, desc_width, "    "@));
    lemma_goes_on(cp19_19, c21, "\n\n"@);
    let cp21_21 = wrapped(f.description, desc_width, "    "@);
    lemma_ends(c20, cp21_21);
    lemma_goes_on(cp21_21, c21, "\n\n"@);
}

/// The marks of a finding: a new one is marked, one of a gate is marked as
/// such, and no other is.
pub proof fn law_marks_that_are_shown(f: FindingView, color: bool)
    ensures
        f.is_new && !color ==> new_mark(f, color) == " [NEW]"@,
        f.is_new && color ==> new_mark(f, color) == "\x1b[1;33m"@ + " [NEW]"@ + "\x1b[0m"@,
        !f.is_new ==> new_mark(f, color).len() == 0,
        f.source_file is None ==> file_mark(f, color).len() == 0,
        f.override_gate ==> gate_mark(f) == " ⛔"@,
        !f.override_gate ==> gate_mark(f).len() == 0,
{
    reveal_strlit("");
}

/// Colour puts an escape before a text and another behind it; without colour
/// neither is there. Colour is on at a terminal where it is not turned off.
pub proof fn law_colour(code: Seq<char>, text: Seq<char>)
    ensures
        painted(false, code, text) == text,
        painted(true, code, text) == code + text + "\x1b[0m"@,
        esc(true, code) == code,
        esc(false, code).len() == 0,
        uses_color(true, false),
        !uses_color(true, true),
        !uses_color(false, true),
        !uses_color(false, false),
{
    reveal_strlit("");
}

/// A badge is the word in brackets, in a colour where colour is on.
pub proof fn law_badges(s: Severity, t: Tier)
    ensures
        badge(s, false) == "["@ + s.word() + "]"@,
        badge(s, true) == s.paint() + ("["@ + s.word() + "]"@) + "\x1b[0m"@,
        tier_badge(t, false) == "["@ + t.word() + "]"@,
        tier_badge(t, true) == t.paint() + ("["@ + t.word() + "]"@) + "\x1b[0m"@,
{
}

/// A finding of another file names the file.
pub proof fn law_file_is_shown(f: FindingView, name: Seq<char>, color: bool)
    requires
        f.source_file == Some(name),
    ensures
        is_piece("[+"@ + name + "]"@, file_mark(f, color)),
{
    let c0 = " "@;
    let c1 = c0 + dim(color);
    let c2 = c1 + "[+"@;
    let c3 = c2 + name;
    let c4 = c3 + "]"@;
    let c5 = c4 + reset(color);
    let cp2_4 = "[+"@ + name + "]"@;
    lemma_regroup(c1, "[+"@, name);
    lemma_regroup(c1, "[+"@ + name, "]"@);
    lemma_ends(c1, cp2_4);
    lemma_goes_on(cp2_4, c4, reset(color));
}

/// The place of a finding is its line number and its snippet without the
/// blanks around it, cut to its columns.
pub proof fn law_place_is_shown(f: FindingView, color: bool, w: int)
    ensures
        is_piece("line "@ + decimal(f.line) + ":"@, place_text(f, color, w)),
        is_piece(cut_display(trim(f.snippet, Class::Blank), w), place_text(f, color, w)),
{
    let c0 = "    "@;
    let c1 = c0 + dim(color);
    let c2 = c1 + "line "@;
    let c3 = c2 + decimal(f.line);
    let c4 = c3 + ":"@;
    let c5 = c4 + reset(color);
    let c6 = c5 + " "@;
    let c7 = c6 + cut_display(trim(f.snippet, Class::Blank), w);
    let cp2_4 = "line "@ + decimal(f.line) + ":"@;
    lemma_regroup(c1, "line "@, decimal(f.line));
    lemma_regroup(c1, "line "@ + decimal(f.line), ":"@);
    lemma_ends(c1, cp2_4);
    lemma_goes_on(cp2_4, c4, reset(color));
    lemma_goes_on(cp2_4, c5, " "@);
    lemma_goes_on(cp2_4, c6, cut_display(trim(f.snippet, Class::Blank), w));
    let cp7_7 = cut_display(trim(f.snippet, Class::Blank), w);
    lemma_ends(c6, cp7_7);
}

proof fn lemma_findings_prefix(
    fs: Seq<FindingView>,
    f: FindingView,
    n: int,
    color: bool,
    sw: int,
    dw: int,
    secs: u64,
)
    requires
        0 <= n <= fs.len(),
    ensures
        findings_text(fs.push(f), n, color, sw, dw) == findings_text(fs, n, color, sw, dw),
        log_lines(fs.push(f), n, secs) == log_lines(fs, n, secs),
    decreases n,
{
    if n > 0 {
        lemma_findings_prefix(fs, f, n - 1, color, sw, dw, secs);
        assert(fs.push(f)[n - 1] == fs[n - 1]);
    }
}

/// Findings are shown and logged one after the other, each of them.
pub proof fn law_findings_follow_each_other(
    fs: Seq<FindingView>,
    f: FindingView,
    color: bool,
    sw: int,
    dw: int,
    secs: u64,
)
    ensures
        findings_text(fs.push(f), fs.len() as int + 1, color, sw, dw) == findings_text(
            fs,
            fs.len() as int,
            color,
            sw,
            dw,
        ) + finding_text(f, color, sw, dw),
        findings_text(fs, 0, color, sw, dw).len() == 0,
        log_lines(fs.push(f), fs.len() as int + 1, secs) == log_lines(fs, fs.len() as int, secs)
            + log_line(f, secs, debug_quoted(f.snippet)),
        log_lines(fs, 0, secs).len() == 0,
{
    lemma_findings_prefix(fs, f, fs.len() as int, color, sw, dw, secs);
    assert(fs.push(f)[fs.len() as int] == f);
}

proof fn lemma_shown(fs: Seq<FindingView>, n: int, i: int, color: bool, sw: int, dw: int)
    requires
        0 <= i < n <= fs.len(),
    ensures
        is_piece(finding_text(fs[i], color, sw, dw), findings_text(fs, n, color, sw, dw)),
    decreases n,
{
    let before = findings_text(fs, n - 1, color, sw, dw);
    let last = finding_text(fs[n - 1], color, sw, dw);
    if i == n - 1 {
        lemma_ends(before, last);
    } else {
        lemma_shown(fs, n - 1, i, color, sw, dw);
        lemma_goes_on(finding_text(fs[i], color, sw, dw), before, last);
    }
}

/// The report holds its headline, the lines on gate, promotion and standing,
/// how many findings there are, and each finding, however many there are.
pub proof fn law_report_holds_all(r: ResultView, color: bool, width: int, now: int, i: int)
    requires
        0 <= i < r.findings.len(),
    ensures
        is_piece(opening(r.tier, color) + subject(r, color), report_text(r, color, width, now)),
        is_piece(gate_line(r, color), report_text(r, color, width, now)),
        is_piece(promotion_line(r, color), report_text(r, color, width, now)),
        is_piece(reputation_lines(r, color, now), report_text(r, color, width, now)),
        is_piece(count_line(r.findings, color), report_text(r, color, width, now)),
        54 <= width ==> is_piece(
            finding_text(r.findings[i], color, width - 14, width - 4),
            report_text(r, color, width, now),
        ),
        4 < width < 54 ==> is_piece(
            finding_text(r.findings[i], color, 40, width - 4),
            report_text(r, color, width, now),
        ),
{
    let n = r.findings.len() as int;
    let sw = snippet_columns(width);
    let dw = description_columns(width);
    let f = finding_text(r.findings[i], color, sw, dw);
    let h = opening(r.tier, color) + subject(r, color);
    let d = details(r, color, width, now);
    let g = gate_line(r, color);
    let p = promotion_line(r, color);
    let q = reputation_lines(r, color, now);
    let c = count_line(r.findings, color);
    let t = findings_text(r.findings, n, color, sw, dw);
    lemma_is_own_piece(h);
    lemma_goes_on(h, h, d);
    lemma_is_own_piece(g);
    lemma_goes_on(g, g, p);
    lemma_goes_on(g, g + p, q);
    lemma_goes_on(g, g + p + q, c);
    lemma_goes_on(g, g + p + q + c, t);
    lemma_ends(g, p);
    lemma_goes_on(p, g + p, q);
    lemma_goes_on(p, g + p + q, c);
    lemma_goes_on(p, g + p + q + c, t);
    lemma_ends(g + p, q);
    lemma_goes_on(q, g + p + q, c);
    lemma_goes_on(q, g + p + q + c, t);
    lemma_ends(g + p + q, c);
    lemma_goes_on(c, g + p + q + c, t);
    lemma_ends(g + p + q + c, t);
    lemma_shown(r.findings, n, i, color, sw, dw);
    lemma_piece_of_piece(f, t, d);
    lemma_ends(h, d);
    lemma_piece_of_piece(g, d, h + d);
    lemma_piece_of_piece(p, d, h + d);
    lemma_piece_of_piece(q, d, h + d);
    lemma_piece_of_piece(c, d, h + d);
    lemma_piece_of_piece(f, d, h + d);
}

/// A report without findings says so, and one without a gate, a promotion or a
/// standing says nothing of them.
pub proof fn law_clean_report(r: ResultView, color: bool, width: int, now: int)
    requires
        r.findings.len() == 0,
    ensures
        is_piece("✓ No findings."@, report_text(r, color, width, now)),
        r.override_gate_fired is None ==> gate_line(r, color).len() == 0,
        r.promoted_by_diff is None ==> promotion_line(r, color).len() == 0,
        r.reputation is None ==> reputation_lines(r, color, now).len() == 0,
{
    reveal_strlit("");
    let a = gate_line(r, color) + promotion_line(r, color) + reputation_lines(r, color, now)
        + "  "@ + green(color);
    let p = "✓ No findings."@;
    lemma_ends(a, p);
    lemma_goes_on(p, a + p, reset(color));
    lemma_goes_on(p, a + p + reset(color), "\n"@);
    lemma_ends(headline(r, color), details(r, color, width, now));
    lemma_piece_of_piece(p, details(r, color, width, now), report_text(r, color, width, now));
}

/// A prompt is headed by its label and ends with its question; between them
/// stands the summary.
pub proof fn law_prompt(
    label: Seq<char>,
    summary: Seq<Seq<char>>,
    question: Seq<char>,
    color: bool,
    width: int,
)
    ensures
        is_piece(rule(rule_width(width)), prompt_text(label, summary, question, color, width)),
        is_piece("aur-guard :: "@ + label, prompt_text(label, summary, question, color, width)),
        is_piece(
            summary_text(summary, summary.len() as int),
            prompt_text(label, summary, question, color, width),
        ),
        is_piece(question, prompt_text(label, summary, question, color, width)),
        is_piece("  [y/N] "@, prompt_text(label, summary, question, color, width)),
        width < 40 ==> rule(rule_width(width)).len() == 40,
        40 <= width <= 72 ==> rule(rule_width(width)).len() == width,
        width > 72 ==> rule(rule_width(width)).len() == 72,
        forall|i: int|
            0 <= i < rule(rule_width(width)).len() ==> #[trigger] rule(rule_width(width))[i] == '━',
{
    let c0 = "\n"@;
    let c1 = c0 + esc(color, "\x1b[1;36m"@);
    let c2 = c1 + rule(rule_width(width));
    let c3 = c2 + reset(color);
    let c4 = c3 + "\n  "@;
    let c5 = c4 + bold(color);
    let c6 = c5 + "aur-guard :: "@;
    let c7 = c6 + label;
    let c8 = c7 + reset(color);
    let c9 = c8 + "\n"@;
    let c10 = c9 + summary_text(summary, summary.len() as int);
    let c11 = c10 + "  ▸ "@;
    let c12 = c11 + bold(color);
    let c13 = c12 + question;
    let c14 = c13 + reset(color);
    let c15 = c14 + "  [y/N] "@;
    let cp2_2 = rule(rule_width(width));
    lemma_ends(c1, cp2_2);
    lemma_goes_on(cp2_2, c2, reset(color));
    lemma_goes_on(cp2_2, c3, "\n  "@);
    lemma_goes_on(cp2_2, c4, bold(color));
    lemma_goes_on(cp2_2, c5, "aur-guard :: "@);
    lemma_goes_on(cp2_2, c6, label);
    lemma_goes_on(cp2_2, c7, reset(color));
    lemma_goes_on(cp2_2, c8, "\n"@);
    lemma_goes_on(cp2_2, c9, summary_text(summary, summary.len() as int));
    lemma_goes_on(cp2_2, c10, "  ▸ "@);
    lemma_goes_on(cp2_2, c11, bold(color));
    lemma_goes_on(cp2_2, c12, question);
    lemma_goes_on(cp2_2, c13, reset(color));
    lemma_goes_on(cp2_2, c14, "  [y/N] "@);
    let cp6_7 = "aur-guard :: "@ + label;
    lemma_regroup(c5, "aur-guard :: "@, label);
    lemma_ends(c5, cp6_7);
    lemma_goes_on(cp6_7, c7, reset(color));
    lemma_goes_on(cp6_7, c8, "\n"@);
    lemma_goes_on(cp6_7, c9, summary_text(summary, summary.len() as int));
    lemma_goes_on(cp6_7, c10, "  ▸ "@);
    lemma_goes_on(cp6_7, c11, bold(color));
    lemma_goes_on(cp6_7, c12, question);
    lemma_goes_on(cp6_7, c13, reset(color));
    lemma_goes_on(cp6_7, c14, "  [y/N] "@);
    let cp10_10 = summary_text(summary, summary.len() as int);
    lemma_ends(c9, cp10_10);
    lemma_goes_on(cp10_10, c10, "  ▸ "@);
    lemma_goes_on(cp10_10, c11, bold(color));
    lemma_goes_on(cp10_10, c12, question);
    lemma_goes_on(cp10_10, c13, reset(color));
    lemma_goes_on(cp10_10, c14, "  [y/N] "@);
    let cp13_13 = question;
    lemma_ends(c12, cp13_13);
    lemma_goes_on(cp13_13, c13, reset(color));
    lemma_goes_on(cp13_13, c14, "  [y/N] "@);
    let cp15_15 = "  [y/N] "@;
    lemma_ends(c14, cp15_15);
}

proof fn lemma_summary_prefix(ls: Seq<Seq<char>>, l: Seq<char>, n: int)
    requires
        0 <= n <= ls.len(),
    ensures
        summary_text(ls.push(l), n) == summary_text(ls, n),
    decreases n,
{
    if n > 0 {
        lemma_summary_prefix(ls, l, n - 1);
        assert(ls.push(l)[n - 1] == ls[n - 1]);
    }
}

/// Each line of the summary is shown on a line of its own, one after the other.
pub proof fn law_summary(ls: Seq<Seq<char>>, l: Seq<char>)
    ensures
        summary_text(ls.push(l), ls.len() as int + 1) == summary_text(ls, ls.len() as int) + (
        "  ▸ "@ + l + "\n"@),
        summary_text(ls, 0).len() == 0,
{
    lemma_summary_prefix(ls, l, ls.len() as int);
    assert(ls.push(l)[ls.len() as int] == l);
}

/// The prompt on a build says its tier, its trust and how much was found.
pub proof fn law_build_summary(r: ResultView)
    ensures
        is_piece("tier "@ + r.tier.word(), build_summary(r)),
        is_piece("  (trust "@ + decimal(r.score) + "/100, "@, build_summary(r)),
        is_piece(decimal(r.findings.len() as int) + " finding(s))"@, build_summary(r)),
{
    let c0 = "tier "@;
    let c1 = c0 + r.tier.word();
    let c2 = c1 + "  (trust "@;
    let c3 = c2 + decimal(r.score);
    let c4 = c3 + "/100, "@;
    let c5 = c4 + decimal(r.findings.len() as int);
    let c6 = c5 + " finding(s))"@;
    let cp0_1 = "tier "@ + r.tier.word();
    lemma_is_own_piece(cp0_1);
    lemma_goes_on(cp0_1, c1, "  (trust "@);
    lemma_goes_on(cp0_1, c2, decimal(r.score));
    lemma_goes_on(cp0_1, c3, "/100, "@);
    lemma_goes_on(cp0_1, c4, decimal(r.findings.len() as int));
    lemma_goes_on(cp0_1, c5, " finding(s))"@);
    let cp2_4 = "  (trust "@ + decimal(r.score) + "/100, "@;
    lemma_regroup(c1, "  (trust "@, decimal(r.score));
    lemma_regroup(c1, "  (trust "@ + decimal(r.score), "/100, "@);
    lemma_ends(c1, cp2_4);
    lemma_goes_on(cp2_4, c4, decimal(r.findings.len() as int));
    lemma_goes_on(cp2_4, c5, " finding(s))"@);
    let cp5_6 = decimal(r.findings.len() as int) + " finding(s))"@;
    lemma_regroup(c4, decimal(r.findings.len() as int), " finding(s))"@);
    lemma_ends(c4, cp5_6);
}

/// A reply is a yes where it is `y` or `yes`, in whatever case and whatever
/// blanks are around it.
pub proof fn law_yes(reply: Seq<char>)
    requires
        is_ascii_chars(trim(reply, Class::Blank)),
    ensures
        says_yes(reply) <==> ascii_lowered(trim(reply, Class::Blank)) == "y"@ || ascii_lowered(
            trim(reply, Class::Blank),
        ) == "yes"@,
{
}

/// Who decides: the terminal, else the standard input, else the setting.
pub proof fn law_who_decides(
    reply: Seq<char>,
    stdin_reply: Option<Seq<char>>,
    setting: Option<Seq<char>>,
)
    ensures
        confirmed(Some(reply), stdin_reply, setting) == says_yes(reply),
        confirmed(None, Some(reply), setting) == says_yes(reply),
        confirmed(None, None, setting) <==> setting == Some("yes"@),
{
}

/// The width is what the setting says where that is a number of 40 at least,
/// else 100.
pub proof fn law_width(s: Seq<char>)
    ensures
        read_number(s, usize::MAX as int) matches Some(n) && n >= 40 ==> width_of(Some(s))
            == read_number(s, usize::MAX as int)->0,
        (read_number(s, usize::MAX as int) matches Some(n) ==> n < 40) ==> width_of(Some(s))
            == 100,
        width_of(None) == 100,
{
}

/// The log says of a scan what was scanned, its lines, its tier, its score, how
/// much was found, which gate fired, the promotion and the standing.
pub proof fn law_log_of_a_scan(r: ResultView, secs: u64, promoted: Seq<char>, aur: Seq<char>)
    ensures
        is_piece(stamp(secs as int) + " target="@ + r.path, log_head(r, secs, promoted, aur)),
        is_piece(" lines="@ + decimal(r.lines_scanned), log_head(r, secs, promoted, aur)),
        is_piece(" tier="@ + r.tier.word(), log_head(r, secs, promoted, aur)),
        is_piece(" score="@ + decimal(r.score), log_head(r, secs, promoted, aur)),
        is_piece(
            " findings="@ + decimal(r.findings.len() as int),
            log_head(r, secs, promoted, aur),
        ),
        is_piece(
            " gate="@ + text_or(r.override_gate_fired, "-"@),
            log_head(r, secs, promoted, aur),
        ),
        is_piece(" promoted="@ + promoted, log_head(r, secs, promoted, aur)),
        is_piece(" aur="@ + aur + "\n"@, log_head(r, secs, promoted, aur)),
        stamp(secs as int) == "["@ + decimal(secs as int) + "]"@,
        r.override_gate_fired matches Some(id) ==> text_or(r.override_gate_fired, "-"@) == id,
        r.override_gate_fired is None ==> text_or(r.override_gate_fired, "-"@) == "-"@,
{
    let c0 = stamp(secs as int);
    let c1 = c0 + " target="@;
    let c2 = c1 + r.path;
    let c3 = c2 + " lines="@;
    let c4 = c3 + decimal(r.lines_scanned);
    let c5 = c4 + " tier="@;
    let c6 = c5 + r.tier.word();
    let c7 = c6 + " score="@;
    let c8 = c7 + decimal(r.score);
    let c9 = c8 + " findings="@;
    let c10 = c9 + decimal(r.findings.len() as int);
    let c11 = c10 + " gate="@;
    let c12 = c11 + text_or(r.override_gate_fired, "-"@);
    let c13 = c12 + " promoted="@;
    let c14 = c13 + promoted;
    let c15 = c14 + " aur="@;
    let c16 = c15 + aur;
    let c17 = c16 + "\n"@;
    let cp0_2 = stamp(secs as int) + " target="@ + r.path;
    lemma_is_own_piece(cp0_2);
    lemma_goes_on(cp0_2, c2, " lines="@);
    lemma_goes_on(cp0_2, c3, decimal(r.lines_scanned));
    lemma_goes_on(cp0_2, c4, " tier="@);
    lemma_goes_on(cp0_2, c5, r.tier.word());
    lemma_goes_on(cp0_2, c6, " score="@);
    lemma_goes_on(cp0_2, c7, decimal(r.score));
    lemma_goes_on(cp0_2, c8, " findings="@);
    lemma_goes_on(cp0_2, c9, decimal(r.findings.len() as int));
    lemma_goes_on(cp0_2, c10, " gate="@);
    lemma_goes_on(cp0_2, c11, text_or(r.override_gate_fired, "-"@));
    lemma_goes_on(cp0_2, c12, " promoted="@);
    lemma_goes_on(cp0_2, c13, promoted);
    lemma_goes_on(cp0_2, c14, " aur="@);
    lemma_goes_on(cp0_2, c15, aur);
    lemma_goes_on(cp0_2, c16, "\n"@);
    let cp3_4 = " lines="@ + decimal(r.lines_scanned);
    lemma_regroup(c2, " lines="@, decimal(r.lines_scanned));
    lemma_ends(c2, cp3_4);
    lemma_goes_on(cp3_4, c4, " tier="@);
    lemma_goes_on(cp3_4, c5, r.tier.word());
    lemma_goes_on(cp3_4, c6, " score="@);
    lemma_goes_on(cp3_4, c7, decimal(r.score));
    lemma_goes_on(cp3_4, c8, " findings="@);
    lemma_goes_on(cp3_4, c9, decimal(r.findings.len() as int));
    lemma_goes_on(cp3_4, c10, " gate="@);
    lemma_goes_on(cp3_4, c11, text_or(r.override_gate_fired, "-"@));
    lemma_goes_on(cp3_4, c12, " promoted="@);
    lemma_goes_on(cp3_4, c13, promoted);
    lemma_goes_on(cp3_4, c14, " aur="@);
    lemma_goes_on(cp3_4, c15, aur);
    lemma_goes_on(cp3_4, c16, "\n"@);
    let cp5_6 = " tier="@ + r.tier.word();
    lemma_regroup(c4, " tier="@, r.tier.word());
    lemma_ends(c4, cp5_6);
    lemma_goes_on(cp5_6, c6, " score="@);
    lemma_goes_on(cp5_6, c7, decimal(r.score));
    lemma_goes_on(cp5_6, c8, " findings="@);
    lemma_goes_on(cp5_6, c9, decimal(r.findings.len() as int));
    lemma_goes_on(cp5_6, c10, " gate="@);
    lemma_goes_on(cp5_6, c11, text_or(r.override_gate_fired, "-"@));
    lemma_goes_on(cp5_6, c12, " promoted="@);
    lemma_goes_on(cp5_6, c13, promoted);
    lemma_goes_on(cp5_6, c14, " aur="@);
    lemma_goes_on(cp5_6, c15, aur);
    lemma_goes_on(cp5_6, c16, "\n"@);
    let cp7_8 = " score="@ + decimal(r.score);
    lemma_regroup(c6, " score="@, decimal(r.score));
    lemma_ends(c6, cp7_8);
    lemma_goes_on(cp7_8, c8, " findings="@);
    lemma_goes_on(cp7_8, c9, decimal(r.findings.len() as int));
    lemma_goes_on(cp7_8, c10, " gate="@);
    lemma_goes_on(cp7_8, c11, text_or(r.override_gate_fired, "-"@));
    lemma_goes_on(cp7_8, c12, " promoted="@);
    lemma_goes_on(cp7_8, c13, promoted);
    lemma_goes_on(cp7_8, c14, " aur="@);
    lemma_goes_on(cp7_8, c15, aur);
    lemma_goes_on(cp7_8, c16, "\n"@);
    let cp9_10 = " findings="@ + decimal(r.findings.len() as int);
    lemma_regroup(c8, " findings="@, decimal(r.findings.len() as int));
    lemma_ends(c8, cp9_10);
    lemma_goes_on(cp9_10, c10, " gate="@);
    lemma_goes_on(cp9_10, c11, text_or(r.override_gate_fired, "-"@));
    lemma_goes_on(cp9_10, c12, " promoted="@);
    lemma_goes_on(cp9_10, c13, promoted);
    lemma_goes_on(cp9_10, c14, " aur="@);
    lemma_goes_on(cp9_10, c15, aur);
    lemma_goes_on(cp9_10, c16, "\n"@);
    let cp11_12 = " gate="@ + text_or(r.override_gate_fired, "-"@);
    lemma_regroup(c10, " gate="@, text_or(r.override_gate_fired, "-"@));
    lemma_ends(c10, cp11_12);
    lemma_goes_on(cp11_12, c12, " promoted="@);
    lemma_goes_on(cp11_12, c13, promoted);
    lemma_goes_on(cp11_12, c14, " aur="@);
    lemma_goes_on(cp11_12, c15, aur);
    lemma_goes_on(cp11_12, c16, "\n"@);
    let cp13_14 = " promoted="@ + promoted;
    lemma_regroup(c12, " promoted="@, promoted);
    lemma_ends(c12, cp13_14);
    lemma_goes_on(cp13_14, c14, " aur="@);
    lemma_goes_on(cp13_14, c15, aur);
    lemma_goes_on(cp13_14, c16, "\n"@);
    let cp15_17 = " aur="@ + aur + "\n"@;
    lemma_regroup(c14, " aur="@, aur);
    lemma_regroup(c14, " aur="@ + aur, "\n"@);
    lemma_ends(c14, cp15_17);
}

/// The log says of a finding how heavy it is, its rule, its points, whether it
/// is of a gate and new, its file, its line and its snippet.
pub proof fn law_log_of_a_finding(f: FindingView, secs: u64, snippet: Seq<char>)
    ensures
        is_piece(
            stamp(secs as int) + "   ["@ + severity_of(f.points, f.override_gate).word() + "] "@
                + f.rule_id,
            log_line(f, secs, snippet),
        ),
        is_piece(" points="@ + decimal(f.points), log_line(f, secs, snippet)),
        is_piece(" gate="@ + bool_word(f.override_gate), log_line(f, secs, snippet)),
        is_piece(" new="@ + bool_word(f.is_new), log_line(f, secs, snippet)),
        is_piece(" src="@ + text_or(f.source_file, "PKGBUILD"@), log_line(f, secs, snippet)),
        is_piece(" line="@ + decimal(f.line), log_line(f, secs, snippet)),
        is_piece(" snippet="@ + snippet + "\n"@, log_line(f, secs, snippet)),
        bool_word(true) == "true"@,
        bool_word(false) == "false"@,
        f.source_file matches Some(name) ==> text_or(f.source_file, "PKGBUILD"@) == name,
        f.source_file is None ==> text_or(f.source_file, "PKGBUILD"@) == "PKGBUILD"@,
{
    let c0 = stamp(secs as int);
    let c1 = c0 + "   ["@;
    let c2 = c1 + severity_of(f.points, f.override_gate).word();
    let c3 = c2 + "] "@;
    let c4 = c3 + f.rule_id;
    let c5 = c4 + " points="@;
    let c6 = c5 + decimal(f.points);
    let c7 = c6 + " gate="@;
    let c8 = c7 + bool_word(f.override_gate);
    let c9 = c8 + " new="@;
    let c10 = c9 + bool_word(f.is_new);
    let c11 = c10 + " src="@;
    let c12 = c11 + text_or(f.source_file, "PKGBUILD"@);
    let c13 = c12 + " line="@;
    let c14 = c13 + decimal(f.line);
    let c15 = c14 + " snippet="@;
    let c16 = c15 + snippet;
    let c17 = c16 + "\n"@;
    let cp0_4 = stamp(secs as int) + "   ["@ + severity_of(f.points, f.override_gate).word()
        + "] "@ + f.rule_id;
    lemma_is_own_piece(cp0_4);
    lemma_goes_on(cp0_4, c4, " points="@);
    lemma_goes_on(cp0_4, c5, decimal(f.points));
    lemma_goes_on(cp0_4, c6, " gate="@);
    lemma_goes_on(cp0_4, c7, bool_word(f.override_gate));
    lemma_goes_on(cp0_4, c8, " new="@);
    lemma_goes_on(cp0_4, c9, bool_word(f.is_new));
    lemma_goes_on(cp0_4, c10, " src="@);
    lemma_goes_on(cp0_4, c11, text_or(f.source_file, "PKGBUILD"@));
    lemma_goes_on(cp0_4, c12, " line="@);
    lemma_goes_on(cp0_4, c13, decimal(f.line));
    lemma_goes_on(cp0_4, c14, " snippet="@);
    lemma_goes_on(cp0_4, c15, snippet);
    lemma_goes_on(cp0_4, c16, "\n"@);
    let cp5_6 = " points="@ + decimal(f.points);
    lemma_regroup(c4, " points="@, decimal(f.points));
    lemma_ends(c4, cp5_6);
    lemma_goes_on(cp5_6, c6, " gate="@);
    lemma_goes_on(cp5_6, c7, bool_word(f.override_gate));
    lemma_goes_on(cp5_6, c8, " new="@);
    lemma_goes_on(cp5_6, c9, bool_word(f.is_new));
    lemma_goes_on(cp5_6, c10, " src="@);
    lemma_goes_on(cp5_6, c11, text_or(f.source_file, "PKGBUILD"@));
    lemma_goes_on(cp5_6, c12, " line="@);
    lemma_goes_on(cp5_6, c13, decimal(f.line));
    lemma_goes_on(cp5_6, c14, " snippet="@);
    lemma_goes_on(cp5_6, c15, snippet);
    lemma_goes_on(cp5_6, c16, "\n"@);
    let cp7_8 = " gate="@ + bool_word(f.override_gate);
    lemma_regroup(c6, " gate="@, bool_word(f.override_gate));
    lemma_ends(c6, cp7_8);
    lemma_goes_on(cp7_8, c8, " new="@);
    lemma_goes_on(cp7_8, c9, bool_word(f.is_new));
    lemma_goes_on(cp7_8, c10, " src="@);
    lemma_goes_on(cp7_8, c11, text_or(f.source_file, "PKGBUILD"@));
    lemma_goes_on(cp7_8, c12, " line="@);
    lemma_goes_on(cp7_8, c13, decimal(f.line));
    lemma_goes_on(cp7_8, c14, " snippet="@);
    lemma_goes_on(cp7_8, c15, snippet);
    lemma_goes_on(cp7_8, c16, "\n"@);
    let cp9_10 = " new="@ + bool_word(f.is_new);
    lemma_regroup(c8, " new="@, bool_word(f.is_new));
    lemma_ends(c8, cp9_10);
    lemma_goes_on(cp9_10, c10, " src="@);
    lemma_goes_on(cp9_10, c11, text_or(f.source_file, "PKGBUILD"@));
    lemma_goes_on(cp9_10, c12, " line="@);
    lemma_goes_on(cp9_10, c13, decimal(f.line));
    lemma_goes_on(cp9_10, c14, " snippet="@);
    lemma_goes_on(cp9_10, c15, snippet);
    lemma_goes_on(cp9_10, c16, "\n"@);
    let cp11_12 = " src="@ + text_or(f.source_file, "PKGBUILD"@);
    lemma_regroup(c10, " src="@, text_or(f.source_file, "PKGBUILD"@));
    lemma_ends(c10, cp11_12);
    lemma_goes_on(cp11_12, c12, " line="@);
    lemma_goes_on(cp11_12, c13, decimal(f.line));
    lemma_goes_on(cp11_12, c14, " snippet="@);
    lemma_goes_on(cp11_12, c15, snippet);
    lemma_goes_on(cp11_12, c16, "\n"@);
    let cp13_14 = " line="@ + decimal(f.line);
    lemma_regroup(c12, " line="@, decimal(f.line));
    lemma_ends(c12, cp13_14);
    lemma_goes_on(cp13_14, c14, " snippet="@);
    lemma_goes_on(cp13_14, c15, snippet);
    lemma_goes_on(cp13_14, c16, "\n"@);
    let cp15_17 = " snippet="@ + snippet + "\n"@;
    lemma_regroup(c14, " snippet="@, snippet);
    lemma_regroup(c14, " snippet="@ + snippet, "\n"@);
    lemma_ends(c14, cp15_17);
}

/// The log holds the line on the scan, then those on its findings, with the
/// promotion, the standing and the snippets in quotes.
pub proof fn law_log(r: ResultView, rep: ReputationView, reason: Seq<char>, secs: u64)
    ensures
        log_text(r, secs) == log_head(
            r,
            secs,
            debug_quoted(promotion_note(r)),
            debug_quoted(standing_note(r, secs)),
        ) + log_lines(r.findings, r.findings.len() as int, secs),
        r.promoted_by_diff == Some(reason) ==> promotion_note(r) == reason,
        r.promoted_by_diff is None ==> promotion_note(r) == "-"@,
        r.reputation == Some(rep) && secs <= i64::MAX ==> standing_note(r, secs)
            == reputation_text(rep, secs as int),
        r.reputation is None ==> standing_note(r, secs) == "-"@,
{
}

/// The list shows each rule with how heavy it is, its id, its points, whether it
/// is a gate, and its title.
pub proof fn law_rule_is_listed(
    color: bool,
    id: Seq<char>,
    points: int,
    gate: bool,
    title: Seq<char>,
)
    ensures
        is_piece(
            filled_right(badge(severity_of(points, gate), color), 18),
            rule_line(color, id, points, gate, title),
        ),
        is_piece(id, rule_line(color, id, points, gate, title)),
        is_piece(
            filled_left(decimal(points), 2) + "pts "@ + gate_column(gate),
            rule_line(color, id, points, gate, title),
        ),
        is_piece(title + "\n"@, rule_line(color, id, points, gate, title)),
        gate_column(true) == " ⛔gate"@,
        gate_column(false) == "      "@,
{
    let c0 = filled_right(badge(severity_of(points, gate), color), 18);
    let c1 = c0 + "  "@;
    let c2 = c1 + id;
    let c3 = c2 + "  "@;
    let c4 = c3 + filled_left(decimal(points), 2);
    let c5 = c4 + "pts "@;
    let c6 = c5 + gate_column(gate);
    let c7 = c6 + "  "@;
    let c8 = c7 + title;
    let c9 = c8 + "\n"@;
    let cp0_0 = filled_right(badge(severity_of(points, gate), color), 18);
    lemma_is_own_piece(cp0_0);
    lemma_goes_on(cp0_0, c0, "  "@);
    lemma_goes_on(cp0_0, c1, id);
    lemma_goes_on(cp0_0, c2, "  "@);
    lemma_goes_on(cp0_0, c3, filled_left(decimal(points), 2));
    lemma_goes_on(cp0_0, c4, "pts "@);
    lemma_goes_on(cp0_0, c5, gate_column(gate));
    lemma_goes_on(cp0_0, c6, "  "@);
    lemma_goes_on(cp0_0, c7, title);
    lemma_goes_on(cp0_0, c8, "\n"@);
    let cp2_2 = id;
    lemma_ends(c1, cp2_2);
    lemma_goes_on(cp2_2, c2, "  "@);
    lemma_goes_on(cp2_2, c3, filled_left(decimal(points), 2));
    lemma_goes_on(cp2_2, c4, "pts "@);
    lemma_goes_on(cp2_2, c5, gate_column(gate));
    lemma_goes_on(cp2_2, c6, "  "@);
    lemma_goes_on(cp2_2, c7, title);
    lemma_goes_on(cp2_2, c8, "\n"@);
    let cp4_6 = filled_left(decimal(points), 2) + "pts "@ + gate_column(gate);
    lemma_regroup(c3, filled_left(decimal(points), 2), "pts "@);
    lemma_regroup(c3, filled_left(decimal(points), 2) + "pts "@, gate_column(gate));
    lemma_ends(c3, cp4_6);
    lemma_goes_on(cp4_6, c6, "  "@);
    lemma_goes_on(cp4_6, c7, title);
    lemma_goes_on(cp4_6, c8, "\n"@);
    let cp8_9 = title + "\n"@;
    lemma_regroup(c7, title, "\n"@);
    lemma_ends(c7, cp8_9);
}

/// Filling keeps the text and adds blanks at one end, just as many as are
/// wanting.
pub proof fn law_filling(s: Seq<char>, width: int)
    requires
        0 <= width,
    ensures
        s.len() >= width ==> filled_right(s, width) == s && filled_left(s, width) == s,
        s.len() < width ==> {
            &&& filled_right(s, width).len() == width
            &&& filled_right(s, width).take(s.len() as int) == s
            &&& forall|i: int|
                s.len() <= i < width ==> #[trigger] filled_right(s, width)[i] == ' '
            &&& filled_left(s, width).len() == width
            &&& filled_left(s, width).skip(width - s.len()) == s
            &&& forall|i: int|
                0 <= i < width - s.len() ==> #[trigger] filled_left(s, width)[i] == ' '
        },
{
    assert(s.len() >= width ==> filled_right(s, width) =~= s && filled_left(s, width) =~= s);
    if s.len() < width {
        assert(filled_right(s, width).take(s.len() as int) =~= s);
        assert(filled_left(s, width).skip(width - s.len()) =~= s);
    }
}

proof fn lemma_rules_prefix(
    rules: Seq<RuleView>,
    r: RuleView,
    metas: Seq<MetaRuleView>,
    m: MetaRuleView,
    n: int,
    k: int,
    color: bool,
)
    requires
        0 <= n <= rules.len(),
        0 <= k <= metas.len(),
    ensures
        rule_lines(rules.push(r), n, color) == rule_lines(rules, n, color),
        meta_rule_lines(metas.push(m), k, color) == meta_rule_lines(metas, k, color),
    decreases n + k,
{
    if n > 0 {
        lemma_rules_prefix(rules, r, metas, m, n - 1, k, color);
        assert(rules.push(r)[n - 1] == rules[n - 1]);
    }
    if k > 0 {
        lemma_rules_prefix(rules, r, metas, m, n, k - 1, color);
        assert(metas.push(m)[k - 1] == metas[k - 1]);
    }
}

/// Each rule is listed, one after the other.
pub proof fn law_every_rule_is_listed(
    rules: Seq<RuleView>,
    r: RuleView,
    metas: Seq<MetaRuleView>,
    m: MetaRuleView,
    color: bool,
)
    ensures
        rule_lines(rules.push(r), rules.len() as int + 1, color) == rule_lines(
            rules,
            rules.len() as int,
            color,
        ) + rule_line(color, r.id, r.points, r.override_gate, r.title),
        rule_lines(rules, 0, color).len() == 0,
        meta_rule_lines(metas.push(m), metas.len() as int + 1, color) == meta_rule_lines(
            metas,
            metas.len() as int,
            color,
        ) + rule_line(color, m.id, m.points, m.override_gate, m.title),
        meta_rule_lines(metas, 0, color).len() == 0,
{
    lemma_rules_prefix(rules, r, metas, m, rules.len() as int, metas.len() as int, color);
    assert(rules.push(r)[rules.len() as int] == r);
    assert(metas.push(m)[metas.len() as int] == m);
}

/// The list is headed by how many rules there are, in all and of each kind.
pub proof fn law_rules_are_counted(a: int, b: int, c: int)
    ensures
        is_piece(decimal(a + b + c) + " active rules ("@, rules_header(a, b, c)),
        is_piece(decimal(a) + " regex + "@, rules_header(a, b, c)),
        is_piece(decimal(b) + " metadata + "@, rules_header(a, b, c)),
        is_piece(decimal(c) + " reputation)\n"@, rules_header(a, b, c)),
{
    let c0 = "aur-guard :: "@;
    let c1 = c0 + decimal(a + b + c);
    let c2 = c1 + " active rules ("@;
    let c3 = c2 + decimal(a);
    let c4 = c3 + " regex + "@;
    let c5 = c4 + decimal(b);
    let c6 = c5 + " metadata + "@;
    let c7 = c6 + decimal(c);
    let c8 = c7 + " reputation)\n"@;
    let cp1_2 = decimal(a + b + c) + " active rules ("@;
    lemma_regroup(c0, decimal(a + b + c), " active rules ("@);
    lemma_ends(c0, cp1_2);
    lemma_goes_on(cp1_2, c2, decimal(a));
    lemma_goes_on(cp1_2, c3, " regex + "@);
    lemma_goes_on(cp1_2, c4, decimal(b));
    lemma_goes_on(cp1_2, c5, " metadata + "@);
    lemma_goes_on(cp1_2, c6, decimal(c));
    lemma_goes_on(cp1_2, c7, " reputation)\n"@);
    let cp3_4 = decimal(a) + " regex + "@;
    lemma_regroup(c2, decimal(a), " regex + "@);
    lemma_ends(c2, cp3_4);
    lemma_goes_on(cp3_4, c4, decimal(b));
    lemma_goes_on(cp3_4, c5, " metadata + "@);
    lemma_goes_on(cp3_4, c6, decimal(c));
    lemma_goes_on(cp3_4, c7, " reputation)\n"@);
    let cp5_6 = decimal(b) + " metadata + "@;
    lemma_regroup(c4, decimal(b), " metadata + "@);
    lemma_ends(c4, cp5_6);
    lemma_goes_on(cp5_6, c6, decimal(c));
    lemma_goes_on(cp5_6, c7, " reputation)\n"@);
    let cp7_8 = decimal(c) + " reputation)\n"@;
    lemma_regroup(c6, decimal(c), " reputation)\n"@);
    lemma_ends(c6, cp7_8);
}

/// An audit is summed up by how many packages were to be scanned, how many are
/// of each tier, and how many were skipped.
pub proof fn law_summing_up(targets: int, t: Tally, skipped: int)
    ensures
        is_piece(
            decimal(targets) + " AUR target(s) — trusted="@ + decimal(t.trusted as int),
            summary_line(targets, t, skipped),
        ),
        is_piece(" ok="@ + decimal(t.okay as int), summary_line(targets, t, skipped)),
        is_piece(" sketchy="@ + decimal(t.sketchy as int), summary_line(targets, t, skipped)),
        is_piece(" suspicious="@ + decimal(t.suspicious as int), summary_line(targets, t, skipped)),
        is_piece(" malicious="@ + decimal(t.malicious as int), summary_line(targets, t, skipped)),
        is_piece(" (skipped "@ + decimal(skipped) + ")."@, summary_line(targets, t, skipped)),
{
    let c0 = "aur-guard :: "@;
    let c1 = c0 + decimal(targets);
    let c2 = c1 + " AUR target(s) — trusted="@;
    let c3 = c2 + decimal(t.trusted as int);
    let c4 = c3 + " ok="@;
    let c5 = c4 + decimal(t.okay as int);
    let c6 = c5 + " sketchy="@;
    let c7 = c6 + decimal(t.sketchy as int);
    let c8 = c7 + " suspicious="@;
    let c9 = c8 + decimal(t.suspicious as int);
    let c10 = c9 + " malicious="@;
    let c11 = c10 + decimal(t.malicious as int);
    let c12 = c11 + " (skipped "@;
    let c13 = c12 + decimal(skipped);
    let c14 = c13 + ")."@;
    let cp1_3 = decimal(targets) + " AUR target(s) — trusted="@ + decimal(t.trusted as int);
    lemma_regroup(c0, decimal(targets), " AUR target(s) — trusted="@);
    lemma_regroup(c0, decimal(targets) + " AUR target(s) — trusted="@, decimal(t.trusted as int));
    lemma_ends(c0, cp1_3);
    lemma_goes_on(cp1_3, c3, " ok="@);
    lemma_goes_on(cp1_3, c4, decimal(t.okay as int));
    lemma_goes_on(cp1_3, c5, " sketchy="@);
    lemma_goes_on(cp1_3, c6, decimal(t.sketchy as int));
    lemma_goes_on(cp1_3, c7, " suspicious="@);
    lemma_goes_on(cp1_3, c8, decimal(t.suspicious as int));
    lemma_goes_on(cp1_3, c9, " malicious="@);
    lemma_goes_on(cp1_3, c10, decimal(t.malicious as int));
    lemma_goes_on(cp1_3, c11, " (skipped "@);
    lemma_goes_on(cp1_3, c12, decimal(skipped));
    lemma_goes_on(cp1_3, c13, ")."@);
    let cp4_5 = " ok="@ + decimal(t.okay as int);
    lemma_regroup(c3, " ok="@, decimal(t.okay as int));
    lemma_ends(c3, cp4_5);
    lemma_goes_on(cp4_5, c5, " sketchy="@);
    lemma_goes_on(cp4_5, c6, decimal(t.sketchy as int));
    lemma_goes_on(cp4_5, c7, " suspicious="@);
    lemma_goes_on(cp4_5, c8, decimal(t.suspicious as int));
    lemma_goes_on(cp4_5, c9, " malicious="@);
    lemma_goes_on(cp4_5, c10, decimal(t.malicious as int));
    lemma_goes_on(cp4_5, c11, " (skipped "@);
    lemma_goes_on(cp4_5, c12, decimal(skipped));
    lemma_goes_on(cp4_5, c13, ")."@);
    let cp6_7 = " sketchy="@ + decimal(t.sketchy as int);
    lemma_regroup(c5, " sketchy="@, decimal(t.sketchy as int));
    lemma_ends(c5, cp6_7);
    lemma_goes_on(cp6_7, c7, " suspicious="@);
    lemma_goes_on(cp6_7, c8, decimal(t.suspicious as int));
    lemma_goes_on(cp6_7, c9, " malicious="@);
    lemma_goes_on(cp6_7, c10, decimal(t.malicious as int));
    lemma_goes_on(cp6_7, c11, " (skipped "@);
    lemma_goes_on(cp6_7, c12, decimal(skipped));
    lemma_goes_on(cp6_7, c13, ")."@);
    let cp8_9 = " suspicious="@ + decimal(t.suspicious as int);
    lemma_regroup(c7, " suspicious="@, decimal(t.suspicious as int));
    lemma_ends(c7, cp8_9);
    lemma_goes_on(cp8_9, c9, " malicious="@);
    lemma_goes_on(cp8_9, c10, decimal(t.malicious as int));
    lemma_goes_on(cp8_9, c11, " (skipped "@);
    lemma_goes_on(cp8_9, c12, decimal(skipped));
    lemma_goes_on(cp8_9, c13, ")."@);
    let cp10_11 = " malicious="@ + decimal(t.malicious as int);
    lemma_regroup(c9, " malicious="@, decimal(t.malicious as int));
    lemma_ends(c9, cp10_11);
    lemma_goes_on(cp10_11, c11, " (skipped "@);
    lemma_goes_on(cp10_11, c12, decimal(skipped));
    lemma_goes_on(cp10_11, c13, ")."@);
    let cp12_14 = " (skipped "@ + decimal(skipped) + ")."@;
    lemma_regroup(c11, " (skipped "@, decimal(skipped));
    lemma_regroup(c11, " (skipped "@ + decimal(skipped), ")."@);
    lemma_ends(c11, cp12_14);
}

/// Words are what stands between blanks: a blank parts them, and a text
/// without one is a word where it is not empty.
pub proof fn law_words(a: Seq<char>, c: char, b: Seq<char>, w: Seq<char>)
    requires
        is_blank(c),
        forall|i: int| 0 <= i < w.len() ==> !is_blank(#[trigger] w[i]),
    ensures
        words(a + seq![c] + b) == words(a) + words(b),
        words(w) == (if w.len() > 0 {
            seq![w]
        } else {
            Seq::<Seq<char>>::empty()
        }),
{
    let k = Class::Blank;
    law_fields_are_parted(a, c, b, k);
    law_solid_fields(split(a, k), split(b, k), w);
    assert forall|i: int| 0 <= i < w.len() implies !k.holds(#[trigger] w[i]) by {
        assert(!is_blank(w[i]));
    }
    law_unparted_text_is_one_field(w, k);
}

/// A word joins the open line where there is room for it and a blank, and only
/// else starts another; the lines before stay as they are.
pub proof fn law_word_joins_its_line(ws: Seq<Seq<char>>, n: int, max: int)
    requires
        0 < n <= ws.len(),
        1 <= max,
    ensures
        ({
            let before = fill(ws, n - 1, max);
            let after = fill(ws, n, max);
            let w = cut_display(ws[n - 1], max);
            &&& before.open.len() == 0 ==> after.full == before.full && after.open == w
            &&& before.open.len() > 0 && before.open.len() + 1 + ws[n - 1].len() <= max
                ==> after.full == before.full && after.open == before.open + seq![' '] + w
            &&& before.open.len() > 0 && before.open.len() + 1 + ws[n - 1].len() > max
                ==> after.full == before.full + seq![before.open] && after.open == w
        }),
        fill(ws, 0, max).full.len() == 0,
        fill(ws, 0, max).open.len() == 0,
{
    let before = fill(ws, n - 1, max);
    let w = cut_display(ws[n - 1], max);
    assert(before.open.push(' ') + w =~= before.open + seq![' '] + w);
    assert(before.full.push(before.open) =~= before.full + seq![before.open]);
}

/// The lines of a paragraph are the filled ones and the open one, each behind
/// the indent; there is room for as many characters as the indent leaves, or
/// for twenty where it leaves none.
pub proof fn law_lines_of_a_paragraph(text: Seq<char>, width: int, indent: Seq<char>, max: int)
    requires
        indent.len() < width ==> max == width - indent.len(),
        indent.len() >= width ==> max == 20,
        is_one_line(indent),
        words(text).len() > 0,
    ensures
        ({
            let f = fill(words(text), words(text).len() as int, max);
            let ls = lines(wrapped(text, width, indent));
            &&& f.open.len() > 0
            &&& ls.len() == f.full.len() + 1
            &&& forall|i: int| 0 <= i < f.full.len() ==> #[trigger] ls[i] == indent + f.full[i]
            &&& ls[f.full.len() as int] == indent + f.open
        }),
{
    let ws = words(text);
    let n = ws.len() as int;
    let f = fill(ws, n, max);
    lemma_fill_set(text, n, max);
    lemma_words(text, n - 1);
    law_word_joins_its_line(ws, n, max);
    let ls = set_lines(ws, max);
    assert(f.open.len() > 0);
    assert forall|i: int| 0 <= i < ls.len() implies is_set(#[trigger] ls[i]) by {
        if i < f.full.len() {
            assert(ls[i] == f.full[i]);
        }
    }
    lemma_indented_lines(ls, indent);
    let shown = behind_indent(ls, indent);
    assert forall|i: int| 0 <= i < f.full.len() implies #[trigger] shown[i] == indent
        + f.full[i] by {
        assert(ls[i] == f.full[i]);
    }
}

}
