//! What the AUR record comes to: which of the reputation rules fire on it, how
//! often and with what words, how time is counted, and which record of a reply
//! is taken.

use vstd::prelude::*;

use crate::numeral::decimal;
use crate::ordering::ordered;
use crate::paths::cache_dir_of;
use crate::paths::entry_of;
use crate::paths::joined;
use crate::report::first_gate;
use crate::report::tier_of;
use crate::report::trust_of;
use crate::report::FindingView;
use crate::report::ResultView;
use crate::rpc::below_one_tenth;
use crate::rpc::chosen_info;
use crate::rpc::days_between;
use crate::rpc::engagement_findings;
use crate::rpc::flag_findings;
use crate::rpc::last_logged;
use crate::rpc::log_addition;
use crate::rpc::named_from;
use crate::rpc::newness_findings;
use crate::rpc::opts_out;
use crate::rpc::orphan_findings;
use crate::rpc::reputation_findings;
use crate::rpc::reputation_table;
use crate::rpc::times_fit;
use crate::rpc::transfer_findings;
use crate::rpc::with_reputation;
use crate::rpc::AurInfoView;
use crate::rpc::TrackRecord;
use crate::text::begins;
use crate::text::listed;

verus! {

// ---------------------------------------------------------------------------
// Which rules fire
// ---------------------------------------------------------------------------

/// The findings of one rule.
pub open spec fn of_rule(fs: Seq<FindingView>, id: Seq<char>) -> Seq<FindingView> {
    fs.filter(|f: FindingView| f.rule_id == id)
}

/// Whether exactly one finding is of the rule, where `fires`, and none where
/// not; that one has the points and the words given, no gate, and comes from
/// the AUR.
pub open spec fn fires_once(
    fs: Seq<FindingView>,
    id: Seq<char>,
    fires: bool,
    points: int,
    words: Seq<char>,
) -> bool {
    let hits = of_rule(fs, id);
    if fires {
        &&& hits.len() == 1
        &&& hits[0].points == points
        &&& hits[0].snippet == words
        &&& !hits[0].override_gate
        &&& hits[0].line == 0
        &&& hits[0].source_file == Some("AUR"@)
        &&& !hits[0].is_new
    } else {
        hits.len() == 0
    }
}

proof fn lemma_ids()
    ensures
        "AG090"@ != "AG091"@,
        "AG090"@ != "AG092"@,
        "AG090"@ != "AG093"@,
        "AG090"@ != "AG094"@,
        "AG091"@ != "AG092"@,
        "AG091"@ != "AG093"@,
        "AG091"@ != "AG094"@,
        "AG092"@ != "AG093"@,
        "AG092"@ != "AG094"@,
        "AG093"@ != "AG094"@,
{
    reveal_strlit("AG090");
    reveal_strlit("AG091");
    reveal_strlit("AG092");
    reveal_strlit("AG093");
    reveal_strlit("AG094");
    assert("AG090"@[4] == '0' && "AG091"@[4] == '1' && "AG092"@[4] == '2' && "AG093"@[4] == '3'
        && "AG094"@[4] == '4');
}

/// Five lists, each empty or of one finding of its own rule: what is of a rule
/// among them all is what is of it in each.
proof fn lemma_five(
    a: Seq<FindingView>,
    b: Seq<FindingView>,
    c: Seq<FindingView>,
    d: Seq<FindingView>,
    e: Seq<FindingView>,
    id: Seq<char>,
)
    ensures
        of_rule(a + b + c + d + e, id) == of_rule(a, id) + of_rule(b, id) + of_rule(c, id)
            + of_rule(d, id) + of_rule(e, id),
{
    let p = |f: FindingView| f.rule_id == id;
    Seq::filter_distributes_over_add(a + b + c + d, e, p);
    Seq::filter_distributes_over_add(a + b + c, d, p);
    Seq::filter_distributes_over_add(a + b, c, p);
    Seq::filter_distributes_over_add(a, b, p);
}

proof fn lemma_of_one(fs: Seq<FindingView>, own: Seq<char>, id: Seq<char>)
    requires
        fs.len() <= 1,
        fs.len() == 1 ==> fs[0].rule_id == own,
    ensures
        of_rule(fs, id) == (if own == id {
            fs
        } else {
            Seq::<FindingView>::empty()
        }),
{
    reveal(Seq::filter);
    reveal_with_fuel(Seq::filter, 3);
    if fs.len() == 1 {
        assert(fs.drop_last() =~= Seq::<FindingView>::empty());
        assert(fs =~= Seq::<FindingView>::empty().push(fs[0]));
    } else {
        assert(fs =~= Seq::<FindingView>::empty());
    }
}

proof fn lemma_rule_of_record(
    info: AurInfoView,
    now: int,
    last_seen: Option<Seq<char>>,
    established: bool,
    id: Seq<char>,
)
    requires
        id == "AG090"@ || id == "AG091"@ || id == "AG092"@ || id == "AG093"@ || id == "AG094"@,
    ensures
        of_rule(reputation_findings(info, now, last_seen, established), id) == (if id
            == "AG091"@ {
            orphan_findings(info)
        } else if id == "AG092"@ {
            newness_findings(info, now, established)
        } else if id == "AG093"@ {
            flag_findings(info, now)
        } else if id == "AG094"@ {
            engagement_findings(info, established)
        } else {
            transfer_findings(info, last_seen)
        }),
{
    lemma_ids();
    let a = orphan_findings(info);
    let b = newness_findings(info, now, established);
    let c = flag_findings(info, now);
    let d = engagement_findings(info, established);
    let e = transfer_findings(info, last_seen);
    lemma_five(a, b, c, d, e, id);
    lemma_of_one(a, "AG091"@, id);
    lemma_of_one(b, "AG092"@, id);
    lemma_of_one(c, "AG093"@, id);
    lemma_of_one(d, "AG094"@, id);
    lemma_of_one(e, "AG090"@, id);
    assert(of_rule(reputation_findings(info, now, last_seen, established), id) =~= (if id
        == "AG091"@ {
        a
    } else if id == "AG092"@ {
        b
    } else if id == "AG093"@ {
        c
    } else if id == "AG094"@ {
        d
    } else {
        e
    }));
}

/// A package that nobody maintains is reported once, any other not.
pub proof fn law_orphans(
    info: AurInfoView,
    now: int,
    last_seen: Option<Seq<char>>,
    established: bool,
)
    ensures
        fires_once(
            reputation_findings(info, now, last_seen, established),
            "AG091"@,
            info.maintainer is None,
            40,
            "(no Maintainer in AUR record)"@,
        ),
{
    lemma_rule_of_record(info, now, last_seen, established, "AG091"@);
}

/// A package is reported as new once where it was first submitted less than 30
/// days ago, or in the future, and its maintainer is not established; not
/// where that time is unknown.
pub proof fn law_new_packages(
    info: AurInfoView,
    now: int,
    last_seen: Option<Seq<char>>,
    established: bool,
)
    ensures
        fires_once(
            reputation_findings(info, now, last_seen, established),
            "AG092"@,
            !established && info.first_submitted > 0 && now - info.first_submitted < 2_592_000,
            30,
            "FirstSubmitted: "@ + decimal(days_between(info.first_submitted, now))
                + " day(s) ago"@,
        ),
{
    lemma_ids();
    lemma_rule_of_record(info, now, last_seen, established, "AG092"@);
    law_days(info.first_submitted, now);
}

/// A package that is flagged out-of-date is reported once, however old the
/// flag is, and one that is not flagged is not.
pub proof fn law_flags(
    info: AurInfoView,
    now: int,
    last_seen: Option<Seq<char>>,
    established: bool,
    ts: i64,
)
    ensures
        info.out_of_date == Some(ts) ==> fires_once(
            reputation_findings(info, now, last_seen, established),
            "AG093"@,
            true,
            20,
            "flagged out-of-date "@ + decimal(days_between(ts as int, now)) + " day(s) ago"@,
        ),
        info.out_of_date is None ==> of_rule(
            reputation_findings(info, now, last_seen, established),
            "AG093"@,
        ).len() == 0,
{
    lemma_ids();
    lemma_rule_of_record(info, now, last_seen, established, "AG093"@);
}

/// A package is reported for low engagement once where it has fewer than five
/// votes, its popularity is below one tenth, and its maintainer is not
/// established.
pub proof fn law_low_engagement(
    info: AurInfoView,
    now: int,
    last_seen: Option<Seq<char>>,
    established: bool,
)
    ensures
        fires_once(
            reputation_findings(info, now, last_seen, established),
            "AG094"@,
            !established && info.num_votes < 5 && below_one_tenth(info.popularity.bits),
            25,
            "votes="@ + decimal(info.num_votes) + " popularity="@ + info.popularity.three_places,
        ),
{
    lemma_ids();
    lemma_rule_of_record(info, now, last_seen, established, "AG094"@);
}

proof fn lemma_transfers_of_record(
    info: AurInfoView,
    now: int,
    last_seen: Option<Seq<char>>,
    established: bool,
)
    ensures
        of_rule(reputation_findings(info, now, last_seen, established), "AG090"@)
            == transfer_findings(info, last_seen),
{
    lemma_ids();
    lemma_rule_of_record(info, now, last_seen, established, "AG090"@);
}

/// A transfer is reported once where a maintainer was seen before and the
/// package has another one now.
pub proof fn law_transfers(
    info: AurInfoView,
    now: int,
    established: bool,
    last: Seq<char>,
    current: Seq<char>,
)
    requires
        info.maintainer == Some(current),
    ensures
        fires_once(
            reputation_findings(info, now, Some(last), established),
            "AG090"@,
            last != current,
            75,
            "previous="@ + last + " → current="@ + current,
        ),
{
    lemma_transfers_of_record(info, now, Some(last), established);
}

/// No transfer is reported on the first sighting, nor where nobody maintains
/// the package now.
pub proof fn law_no_transfers(
    info: AurInfoView,
    now: int,
    last_seen: Option<Seq<char>>,
    established: bool,
)
    requires
        info.maintainer is None || last_seen is None,
    ensures
        of_rule(reputation_findings(info, now, last_seen, established), "AG090"@).len() == 0,
{
    lemma_transfers_of_record(info, now, last_seen, established);
}

/// Nothing but the five rules fires.
pub proof fn law_only_the_five_rules_fire(
    info: AurInfoView,
    now: int,
    last_seen: Option<Seq<char>>,
    established: bool,
    i: int,
)
    requires
        0 <= i < reputation_findings(info, now, last_seen, established).len(),
    ensures
        ({
            let f = reputation_findings(info, now, last_seen, established)[i];
            exists|j: int|
                0 <= j < reputation_table().len() && f.rule_id == (#[trigger] reputation_table()[j]).id
                    && f.points == reputation_table()[j].points && f.title
                    == reputation_table()[j].title && f.description
                    == reputation_table()[j].description
        }),
{
    let f = reputation_findings(info, now, last_seen, established)[i];
    let t = reputation_table();
    assert(t[0].id == "AG090"@ && t[1].id == "AG091"@ && t[2].id == "AG092"@ && t[3].id
        == "AG093"@ && t[4].id == "AG094"@);
}

// ---------------------------------------------------------------------------
// The result
// ---------------------------------------------------------------------------

/// The snapshot says what the record says, and the result stays that of the
/// same scan. Where the record gives rise to something, the verdict is that on
/// all findings.
pub proof fn law_result_with_reputation(
    r: ResultView,
    info: AurInfoView,
    now: int,
    last_seen: Option<Seq<char>>,
    record: TrackRecord,
)
    ensures
        ({
            let w = with_reputation(r, info, now, last_seen, record);
            let more = reputation_findings(info, now, last_seen, record.established);
            &&& w.path == r.path
            &&& w.lines_scanned == r.lines_scanned
            &&& w.promoted_by_diff == r.promoted_by_diff
            &&& more.len() > 0 ==> w.findings == ordered(r.findings + more)
            &&& more.len() == 0 ==> w.findings == r.findings && w.score == r.score && w.tier
                == r.tier && w.override_gate_fired == r.override_gate_fired
            &&& more.len() > 0 ==> w.score == trust_of(w.findings) && w.tier == tier_of(w.findings)
                && w.override_gate_fired == first_gate(w.findings)
            &&& w.reputation matches Some(s) && {
                &&& s.maintainer == info.maintainer
                &&& s.first_submitted == info.first_submitted
                &&& s.last_modified == info.last_modified
                &&& s.num_votes == info.num_votes
                &&& s.popularity == info.popularity
                &&& s.out_of_date == info.out_of_date
                &&& s.maintainer_established == record.established
                &&& s.maintainer_summary == record.summary
            }
        }),
{
}

// ---------------------------------------------------------------------------
// Numbers
// ---------------------------------------------------------------------------

/// Days are whole: what is counted lies between as many days and one more. A
/// time in the future is no day ago.
pub proof fn law_days(ts: int, now: int)
    ensures
        now >= ts ==> 86_400 * days_between(ts, now) <= now - ts < 86_400 * (days_between(ts, now)
            + 1),
        now < ts ==> days_between(ts, now) == 0,
{
    let n = now - ts;
    if n > 0 {
        vstd::arithmetic::div_mod::lemma_fundamental_div_mod(n, 86_400);
    }
}

/// The times of a record make sense where neither lies further back than can
/// be counted.
pub proof fn law_times_fit(info: AurInfoView, now: int)
    ensures
        times_fit(info, now) <==> now - info.first_submitted <= 0x7fff_ffff_ffff_ffff && (
        info.out_of_date matches Some(ts) ==> now - ts <= 0x7fff_ffff_ffff_ffff),
{
}

/// Of two patterns without the sign bit the smaller one is below one tenth
/// where the larger one is. The pattern of one tenth is not, and that before
/// it is. With the sign bit, every pattern up to that of negative infinity is
/// below, and none beyond it.
pub proof fn law_one_tenth(a: u64, b: u64)
    ensures
        a <= b < 0x8000_0000_0000_0000 && below_one_tenth(b) ==> below_one_tenth(a),
        !below_one_tenth(0x3fb9_9999_9999_999a),
        below_one_tenth(0x3fb9_9999_9999_9999),
        0x8000_0000_0000_0000 <= a <= 0xfff0_0000_0000_0000 ==> below_one_tenth(a),
        a > 0xfff0_0000_0000_0000 ==> !below_one_tenth(a),
{
}

// ---------------------------------------------------------------------------
// The log, the replies and the settings
// ---------------------------------------------------------------------------

/// A log names last what the last of its entries says.
pub proof fn law_last_entry(body: Seq<char>)
    ensures
        listed(body).len() > 0 ==> last_logged(Some(body)) == Some(
            listed(body)[listed(body).len() - 1],
        ),
        listed(body).len() == 0 ==> last_logged(Some(body)) is None,
        last_logged(None) is None,
{
}

/// A maintainer is recorded on a line of their own, unless they are named last
/// already; nobody is not recorded.
pub proof fn law_what_is_recorded(log: Option<Seq<char>>, name: Seq<char>)
    ensures
        last_logged(log) == Some(name) ==> log_addition(log, Some(name)) is None,
        last_logged(log) != Some(name) ==> log_addition(log, Some(name)) == Some(
            name.push('\n'),
        ),
        log_addition(log, None) is None,
{
    reveal_strlit("\n");
    assert(name + "\n"@ =~= name.push('\n'));
}

proof fn lemma_named(infos: Seq<AurInfoView>, name: Seq<char>, from: int, i: int)
    requires
        0 <= from <= i < infos.len(),
        infos[i].name == name,
        forall|j: int| from <= j < i ==> (#[trigger] infos[j]).name != name,
    ensures
        named_from(infos, name, from) == i,
    decreases i - from,
{
    if from < i {
        assert(infos[from].name != name);
        lemma_named(infos, name, from + 1, i);
    }
}

proof fn lemma_not_named(infos: Seq<AurInfoView>, name: Seq<char>, from: int)
    requires
        0 <= from <= infos.len(),
        forall|j: int| 0 <= j < infos.len() ==> (#[trigger] infos[j]).name != name,
    ensures
        named_from(infos, name, from) == infos.len(),
    decreases infos.len() - from,
{
    if from < infos.len() {
        lemma_not_named(infos, name, from + 1);
    }
}

/// Of a reply the first record of the package's name is taken, wherever it
/// stands; without one of that name the first of all. A reply of another type
/// or without records has none.
pub proof fn law_record_of_a_reply(
    kind: Seq<char>,
    infos: Seq<AurInfoView>,
    name: Seq<char>,
    i: int,
)
    ensures
        kind == "multiinfo"@ && 0 <= i < infos.len() && infos[i].name == name && (forall|j: int|
            0 <= j < i ==> (#[trigger] infos[j]).name != name) ==> chosen_info(kind, infos, name)
            == Some(infos[i]),
        kind == "multiinfo"@ && infos.len() > 0 && (forall|j: int|
            0 <= j < infos.len() ==> (#[trigger] infos[j]).name != name) ==> chosen_info(
            kind,
            infos,
            name,
        ) == Some(infos[0]),
        kind != "multiinfo"@ || infos.len() == 0 ==> chosen_info(kind, infos, name) is None,
{
    if kind == "multiinfo"@ && 0 <= i < infos.len() && infos[i].name == name && (forall|j: int|
        0 <= j < i ==> (#[trigger] infos[j]).name != name) {
        lemma_named(infos, name, 0, i);
    }
    if forall|j: int| 0 <= j < infos.len() ==> (#[trigger] infos[j]).name != name {
        lemma_not_named(infos, name, 0);
    }
}

/// The network is turned off by `1`, `yes` and `true`, and by nothing else.
pub proof fn law_opting_out(setting: Seq<char>)
    ensures
        opts_out(Some(setting)) <==> setting == "1"@ || setting == "yes"@ || setting == "true"@,
        !opts_out(None),
{
}

/// A path under another is that one, a slash where it does not end with one,
/// and the path. An absolute path stands for itself.
pub proof fn law_joined(base: Seq<char>, rel: Seq<char>)
    ensures
        rel.len() > 0 && rel[0] == '/' ==> joined(base, rel) == rel,
        (rel.len() == 0 || rel[0] != '/') && (base.len() == 0 || base.last() == '/') ==> joined(
            base,
            rel,
        ) == base + rel,
        (rel.len() == 0 || rel[0] != '/') && base.len() > 0 && base.last() != '/' ==> joined(
            base,
            rel,
        ) == base.push('/') + rel,
{
    reveal_strlit("/");
    if rel.len() > 0 {
        assert(rel.subrange(0, 1)[0] == rel[0]);
        if rel[0] == '/' {
            assert(rel.subrange(0, 1) =~= "/"@);
        }
    }
    if begins(rel, "/"@) {
        assert(rel.subrange(0, 1)[0] == rel[0]);
    }
    assert(base + "/"@ + rel =~= base.push('/') + rel);
}

/// Where the caches are: where it is set, else with the user behind `sudo`,
/// else in the XDG cache, else at home.
pub proof fn law_cache_places(
    own: Option<Seq<char>>,
    user: Option<Seq<char>>,
    xdg: Option<Seq<char>>,
    home: Option<Seq<char>>,
    leaf: Seq<char>,
    name: Seq<char>,
    ending: Seq<char>,
)
    ensures
        own matches Some(d) ==> cache_dir_of(own, user, xdg, home, leaf) == Some(d),
        own is None && user is Some ==> cache_dir_of(own, user, xdg, home, leaf) == Some(
            "/home/"@ + user->0 + "/.cache/aur-guard/"@ + leaf,
        ),
        own is None && user is None && xdg is Some ==> cache_dir_of(own, user, xdg, home, leaf)
            == Some(joined(xdg->0, "aur-guard/"@ + leaf)),
        own is None && user is None && xdg is None && home is Some ==> cache_dir_of(
            own,
            user,
            xdg,
            home,
            leaf,
        ) == Some(joined(home->0, ".cache/aur-guard/"@ + leaf)),
        own is None && user is None && xdg is None && home is None ==> cache_dir_of(
            own,
            user,
            xdg,
            home,
            leaf,
        ) is None,
        entry_of(leaf, name, ending) == joined(leaf, name + ending),
{
}

}
