//! What the decisions come to: which PKGBUILDs are found and where, which
//! files are scriptlets, which process is interrupted, how long a verdict is
//! kept, and which words name a tier.

use vstd::prelude::*;

use crate::audit::audit;
use crate::audit::candidate;
use crate::audit::check_code;
use crate::audit::code_after;
use crate::audit::history_name;
use crate::audit::is_covered;
use crate::audit::is_forwarded;
use crate::audit::is_shown;
use crate::audit::lookup_name;
use crate::audit::package_name;
use crate::audit::scan_code;
use crate::audit::step_on;
use crate::audit::writes_log;
use crate::audit::BuildStep;
use crate::audit::InquiryView;
use crate::diff::all_marked;
use crate::hook::cache_dirs;
use crate::hook::cached_pkgbuild;
use crate::hook::candidates_in;
use crate::hook::count_of;
use crate::hook::extra_dirs;
use crate::hook::first_there;
use crate::hook::foreign_among;
use crate::hook::hook_code;
use crate::hook::is_summed_up;
use crate::hook::needs_word;
use crate::hook::start_on;
use crate::hook::user_dirs;
use crate::hook::users_dirs;
use crate::hook::HookStart;
use crate::numeral::read_number;
use crate::outside::lowered;
use crate::outside::regex_first_group;
use crate::parent::aur_helpers;
use crate::parent::is_helper_name;
use crate::parent::parent_name;
use crate::paths::joined;
use crate::patterns::rule_table;
use crate::patterns::PKGBASE_PATTERN;
use crate::patterns::PKGNAME_PATTERN;
use crate::report::ResultView;
use crate::report::Tier;
use crate::rpc::is_fresh;
use crate::rpc::opts_out;
use crate::rpc::times_fit;
use crate::rpc::with_reputation;
use crate::scanner::bundle_verdict;
use crate::scriptlets::as_installs;
use crate::scriptlets::is_scriptlet_name;
use crate::scriptlets::precedes;
use crate::scriptlets::shown_name;
use crate::scriptlets::FoundView;
use crate::text::after_last;
use crate::text::ascii_lowered;
use crate::text::lines;
use crate::text::split;
use crate::text::trim;
use crate::text::Class;
use crate::text_laws::law_fields_are_parted;
use crate::text_laws::law_unparted_text_is_one_field;
use crate::verdict_cache::age_at;
use crate::verdict_cache::entry_text;
use crate::verdict_cache::hex_of;
use crate::verdict_cache::is_stale;
use crate::verdict_cache::law_saved_verdict_is_loaded;
use crate::verdict_cache::verdict_in;
use crate::verdict_cache::CachedVerdict;
use crate::wrap::solid;

verus! {

// ---------------------------------------------------------------------------
// PKGBUILDs
// ---------------------------------------------------------------------------

proof fn lemma_first_there(exists_at: Seq<bool>, from: int)
    requires
        0 <= from <= exists_at.len(),
    ensures
        match first_there(exists_at, from) {
            Some(i) => {
                &&& from <= i < exists_at.len()
                &&& exists_at[i]
                &&& forall|j: int| from <= j < i ==> !#[trigger] exists_at[j]
            },
            None => forall|j: int| from <= j < exists_at.len() ==> !#[trigger] exists_at[j],
        },
    decreases exists_at.len() - from,
{
    if from < exists_at.len() && !exists_at[from] {
        lemma_first_there(exists_at, from + 1);
    }
}

/// The first candidate that exists is taken, the very first one included; none
/// is only where none exists.
pub proof fn law_first_that_exists(exists_at: Seq<bool>, i: int)
    ensures
        0 <= i < exists_at.len() && exists_at[i] && (forall|j: int|
            0 <= j < i ==> !#[trigger] exists_at[j]) ==> first_there(exists_at, 0) == Some(i),
        (forall|j: int| 0 <= j < exists_at.len() ==> !#[trigger] exists_at[j]) ==> first_there(
            exists_at,
            0,
        ) is None,
{
    lemma_first_there(exists_at, 0);
}

/// A PKGBUILD is looked for at the path itself, or inside it where that is a
/// directory; in a cache, inside the package's directory.
pub proof fn law_places_of_pkgbuilds(path: Seq<char>, dir: Seq<char>, pkg: Seq<char>)
    ensures
        candidate(path, false) == path,
        candidate(path, true) == joined(path, "PKGBUILD"@),
        cached_pkgbuild(dir, pkg) == joined(joined(dir, pkg), "PKGBUILD"@),
{
}

/// The packages to scan of two lists of targets are those of the first, then
/// those of the second. A target alone is scanned where what follows its last
/// slash is a foreign package.
pub proof fn law_targets_add_up(
    a: Seq<Seq<char>>,
    b: Seq<Seq<char>>,
    t: Seq<char>,
    foreign: Seq<Seq<char>>,
)
    ensures
        foreign_among(a + b, foreign) == foreign_among(a, foreign) + foreign_among(b, foreign),
        foreign_among(seq![t], foreign) == (if foreign.contains(after_last(t, "/"@)) {
            seq![after_last(t, "/"@)]
        } else {
            Seq::<Seq<char>>::empty()
        }),
        foreign_among(Seq::<Seq<char>>::empty(), foreign).len() == 0,
    decreases b.len(),
{
    assert(foreign_among(Seq::<Seq<char>>::empty(), foreign) =~= Seq::<Seq<char>>::empty());
    assert(seq![t].drop_last() =~= Seq::<Seq<char>>::empty());
    assert(Seq::<Seq<char>>::empty().push(after_last(t, "/"@)) =~= seq![after_last(t, "/"@)]);
    if b.len() == 0 {
        assert(a + b =~= a);
        assert(foreign_among(a, foreign) + foreign_among(b, foreign) =~= foreign_among(
            a,
            foreign,
        ));
    } else {
        assert((a + b).drop_last() =~= a + b.drop_last());
        law_targets_add_up(a, b.drop_last(), t, foreign);
        assert(foreign_among(a + b, foreign) =~= foreign_among(a, foreign) + foreign_among(
            b,
            foreign,
        ));
    }
}

/// The fields that are not empty of two lists are those of the first, then
/// those of the second.
pub proof fn law_solid_fields(a: Seq<Seq<char>>, b: Seq<Seq<char>>, w: Seq<char>)
    ensures
        solid(a + b) == solid(a) + solid(b),
        solid(seq![w]) == (if w.len() > 0 {
            seq![w]
        } else {
            Seq::<Seq<char>>::empty()
        }),
        solid(Seq::<Seq<char>>::empty()).len() == 0,
    decreases b.len(),
{
    assert(solid(Seq::<Seq<char>>::empty()) =~= Seq::<Seq<char>>::empty());
    assert(seq![w].drop_last() =~= Seq::<Seq<char>>::empty());
    assert(Seq::<Seq<char>>::empty().push(w) =~= seq![w]);
    if b.len() == 0 {
        assert(a + b =~= a);
        assert(solid(a) + solid(b) =~= solid(a));
    } else {
        assert((a + b).drop_last() =~= a + b.drop_last());
        law_solid_fields(a, b.drop_last(), w);
        assert(solid(a + b) =~= solid(a) + solid(b));
    }
}

/// A colon parts the directories of the setting; one that is empty is left
/// out. Without the setting there is none.
pub proof fn law_extra_directories(a: Seq<char>, b: Seq<char>, d: Seq<char>)
    requires
        !d.contains(':'),
    ensures
        extra_dirs(Some(a + seq![':'] + b)) == extra_dirs(Some(a)) + extra_dirs(Some(b)),
        extra_dirs(Some(d)) == (if d.len() > 0 {
            seq![d]
        } else {
            Seq::<Seq<char>>::empty()
        }),
        extra_dirs(None).len() == 0,
{
    let k = Class::Is(':');
    law_fields_are_parted(a, ':', b, k);
    law_solid_fields(split(a, k), split(b, k), d);
    assert forall|i: int| 0 <= i < d.len() implies !k.holds(#[trigger] d[i]) by {
        assert(d.contains(d[i]));
    }
    law_unparted_text_is_one_field(d, k);
}

proof fn lemma_users_prefix(users: Seq<Seq<char>>, u: Seq<char>, n: int)
    requires
        0 <= n <= users.len(),
    ensures
        users_dirs(users.push(u), n) == users_dirs(users, n),
    decreases n,
{
    if n > 0 {
        lemma_users_prefix(users, u, n - 1);
        assert(users.push(u)[n - 1] == users[n - 1]);
    }
}

/// Each user has three caches, those of paru, yay and aurutils. With the user
/// behind `sudo` theirs are searched, else those of everyone with a home, one
/// user after the other; the directories of the setting go first.
pub proof fn law_searched_directories(
    extra: Option<Seq<char>>,
    sudo_user: Seq<char>,
    homes: Seq<Seq<char>>,
    u: Seq<char>,
)
    ensures
        user_dirs(u).len() == 3,
        user_dirs(u)[0] == joined("/home/"@ + u, ".cache/paru/clone"@),
        user_dirs(u)[1] == joined("/home/"@ + u, ".cache/yay"@),
        user_dirs(u)[2] == joined("/home/"@ + u, ".cache/aurutils/sync"@),
        cache_dirs(extra, Some(sudo_user), homes) == extra_dirs(extra) + user_dirs(sudo_user),
        cache_dirs(extra, None, homes.push(u)) == cache_dirs(extra, None, homes) + user_dirs(u),
        cache_dirs(extra, None, Seq::<Seq<char>>::empty()) == extra_dirs(extra),
{
    lemma_users_prefix(homes, u, homes.len() as int);
    assert(homes.push(u)[homes.len() as int] == u);
    assert(users_dirs(seq![sudo_user], 0) =~= Seq::<Seq<char>>::empty());
    assert(users_dirs(seq![sudo_user], 1) =~= user_dirs(sudo_user));
    assert(cache_dirs(extra, None, homes.push(u)) =~= cache_dirs(extra, None, homes) + user_dirs(
        u,
    ));
    assert(cache_dirs(extra, None, Seq::<Seq<char>>::empty()) =~= extra_dirs(extra));
}

proof fn lemma_count_prefix(rs: Seq<ResultView>, r: ResultView, n: int, t: Tier)
    requires
        0 <= n <= rs.len(),
    ensures
        count_of(rs.push(r), n, t) == count_of(rs, n, t),
    decreases n,
{
    if n > 0 {
        lemma_count_prefix(rs, r, n - 1, t);
        assert(rs.push(r)[n - 1] == rs[n - 1]);
    }
}

/// One more result counts once for its own tier, and not for another.
pub proof fn law_counts(rs: Seq<ResultView>, r: ResultView, t: Tier)
    ensures
        count_of(rs.push(r), rs.len() as int + 1, t) == count_of(rs, rs.len() as int, t) + (if r.tier
            == t {
            1int
        } else {
            0int
        }),
        count_of(rs, 0, t) == 0,
{
    lemma_count_prefix(rs, r, rs.len() as int, t);
    assert(rs.push(r)[rs.len() as int] == r);
}

/// The user's word is needed for a suspicious or malicious result, unless the
/// same files were accepted at a tier at least as bad.
pub proof fn law_whose_word_is_needed(r: ResultView, before: Tier)
    ensures
        needs_word(r, None) <==> r.tier == Tier::Suspicious || r.tier == Tier::Malicious,
        needs_word(r, Some(before)) <==> (r.tier == Tier::Malicious && before != Tier::Malicious)
            || (r.tier == Tier::Suspicious && before != Tier::Malicious && before
            != Tier::Suspicious),
{
}

/// What the shim does on each tier, and that it starts the build in each case
/// but a refusal.
pub proof fn law_steps(before: Tier, accepted: Option<Tier>, yes: bool)
    ensures
        step_on(Tier::Trusted, accepted) == BuildStep::Run,
        step_on(Tier::Okay, accepted) == BuildStep::Run,
        step_on(Tier::Sketchy, accepted) == BuildStep::RunWithNote,
        step_on(Tier::Suspicious, None) == BuildStep::Ask,
        step_on(Tier::Malicious, None) == BuildStep::Ask,
        step_on(Tier::Suspicious, Some(before)) == BuildStep::RunAsAccepted <==> before
            == Tier::Suspicious || before == Tier::Malicious,
        step_on(Tier::Malicious, Some(before)) == BuildStep::RunAsAccepted <==> before
            == Tier::Malicious,
        step_on(Tier::Suspicious, accepted) == BuildStep::Ask || step_on(
            Tier::Suspicious,
            accepted,
        ) == BuildStep::RunAsAccepted,
        step_on(Tier::Malicious, accepted) == BuildStep::Ask || step_on(Tier::Malicious, accepted)
            == BuildStep::RunAsAccepted,
        code_after(BuildStep::Ask, false) == Some(1u8),
        code_after(BuildStep::Ask, true) is None,
        code_after(BuildStep::Run, yes) is None,
        code_after(BuildStep::RunWithNote, yes) is None,
        code_after(BuildStep::RunAsAccepted, yes) is None,
        !is_covered(before, None),
{
}

/// The exit codes: of `scan` by whether anything was found, of `check` by the
/// place of the tier and of the threshold from trusted to malicious, of the
/// hook by a refusal.
pub proof fn law_exit_codes(n: nat, tier: Tier, threshold: Tier, asked: bool, yes: bool)
    ensures
        scan_code(0) == 0,
        n > 0 ==> scan_code(n) == 2,
        check_code(tier, tier) == 2,
        check_code(tier, Tier::Trusted) == 2,
        check_code(Tier::Malicious, threshold) == 2,
        tier != Tier::Malicious ==> check_code(tier, Tier::Malicious) == 0,
        threshold != Tier::Trusted ==> check_code(Tier::Trusted, threshold) == 0,
        check_code(Tier::Okay, Tier::Sketchy) == 0,
        check_code(Tier::Okay, Tier::Suspicious) == 0,
        check_code(Tier::Sketchy, Tier::Suspicious) == 0,
        check_code(Tier::Sketchy, Tier::Okay) == 2,
        check_code(Tier::Suspicious, Tier::Okay) == 2,
        check_code(Tier::Suspicious, Tier::Sketchy) == 2,
        hook_code(asked, true) == 0,
        hook_code(false, yes) == 0,
        hook_code(true, false) == 1,
{
}

/// When nothing is scanned, when nothing is shown, and where the log goes.
pub proof fn law_small_decisions(
    n: int,
    m: int,
    worst: Tier,
    dir: bool,
    read_only: bool,
    open: bool,
)
    ensures
        is_forwarded(true, dir),
        is_forwarded(dir, false),
        !is_forwarded(false, true),
        !is_shown(Tier::Trusted),
        !is_shown(Tier::Okay),
        is_shown(Tier::Sketchy),
        is_shown(Tier::Suspicious),
        is_shown(Tier::Malicious),
        start_on(0, m) == HookStart::NoTargets,
        n > 0 ==> start_on(n, 0) == HookStart::NothingForeign,
        n > 0 && m > 0 ==> start_on(n, m) == HookStart::Scan,
        n > 0 ==> is_summed_up(worst, n),
        is_summed_up(worst, 0) == is_shown(worst),
        writes_log(dir, read_only, open) ==> dir && open && !read_only,
        writes_log(true, false, true),
        is_stale(n) <==> n > 1200,
        is_fresh(n) <==> n <= 3600,
{
}

/// The names under which a package is looked up: that of the PKGBUILD, where
/// the comparison is asked for, and where the network is and is not turned
/// off.
pub proof fn law_names_to_look_up(pkgbuild: Seq<char>, offline: Option<Seq<char>>)
    ensures
        history_name(pkgbuild, true) == package_name(pkgbuild),
        history_name(pkgbuild, false) is None,
        !opts_out(offline) ==> lookup_name(pkgbuild, true, offline) == package_name(pkgbuild),
        opts_out(offline) ==> lookup_name(pkgbuild, true, offline) is None,
        lookup_name(pkgbuild, false, offline) is None,
{
}

/// Each cache is a place where the package's PKGBUILD may be, in the order of
/// the caches.
pub proof fn law_candidates(caches: Seq<Seq<char>>, pkg: Seq<char>, i: int)
    requires
        0 <= i < caches.len(),
    ensures
        candidates_in(caches, pkg).len() == caches.len(),
        candidates_in(caches, pkg)[i] == joined(joined(caches[i], pkg), "PKGBUILD"@),
{
}

// ---------------------------------------------------------------------------
// Full scans
// ---------------------------------------------------------------------------

/// A full scan is the verdict on the bundle; with a previous version, whatever
/// that holds, its findings are marked against it; with a reply of the AUR
/// whose times make sense, the reply is applied to that, and one whose times
/// do not leaves it alone.
pub proof fn law_full_scan(
    path: Seq<char>,
    pkgbuild: Seq<char>,
    files: Seq<(Seq<char>, Seq<char>)>,
    prev: Seq<char>,
    previous: Option<Seq<char>>,
    q: InquiryView,
)
    ensures
        audit(path, pkgbuild, files, None, None) == bundle_verdict(
            rule_table(),
            path,
            pkgbuild,
            files,
        ),
        audit(path, pkgbuild, files, Some(prev), None).findings == all_marked(
            bundle_verdict(rule_table(), path, pkgbuild, files).findings,
            prev,
            pkgbuild,
        ),
        audit(path, pkgbuild, files, Some(prev), None).path == path,
        audit(path, pkgbuild, files, Some(prev), None).lines_scanned == bundle_verdict(
            rule_table(),
            path,
            pkgbuild,
            files,
        ).lines_scanned,
        times_fit(q.info, q.now) ==> audit(path, pkgbuild, files, previous, Some(q))
            == with_reputation(
            audit(path, pkgbuild, files, previous, None),
            q.info,
            q.now,
            q.last_seen,
            q.record,
        ),
        !times_fit(q.info, q.now) ==> audit(path, pkgbuild, files, previous, Some(q)) == audit(
            path,
            pkgbuild,
            files,
            previous,
            None,
        ),
        package_name(pkgbuild) == (match regex_first_group(PKGBASE_PATTERN@, pkgbuild) {
            Some(base) => Some(base),
            None => regex_first_group(PKGNAME_PATTERN@, pkgbuild),
        }),
{
}

// ---------------------------------------------------------------------------
// Scriptlets
// ---------------------------------------------------------------------------

/// A file is a scriptlet exactly where its name is something, then `.install`.
pub proof fn law_names_of_scriptlets(stem: Seq<u8>, name: Seq<u8>)
    ensures
        is_scriptlet_name(
            stem + seq![46u8, 105u8, 110u8, 115u8, 116u8, 97u8, 108u8, 108u8],
        ) <==> stem.len() > 0,
        is_scriptlet_name(name) ==> name.len() > 8 && name == name.take(name.len() - 8) + seq![
            46u8,
            105u8,
            110u8,
            115u8,
            116u8,
            97u8,
            108u8,
            108u8,
        ],
{
    let end = seq![46u8, 105u8, 110u8, 115u8, 116u8, 97u8, 108u8, 108u8];
    let s = stem + end;
    assert(s.subrange(s.len() - 8, s.len() as int) =~= end);
    if is_scriptlet_name(name) {
        assert(name =~= name.take(name.len() - 8) + name.subrange(
            name.len() - 8,
            name.len() as int,
        ));
    }
}

/// Names are ordered byte by byte: the first byte in which they differ
/// decides, and where one ends first it comes first.
pub proof fn law_order_of_names(p: Seq<u8>, x: u8, y: u8, a: Seq<u8>, b: Seq<u8>)
    ensures
        x < y ==> precedes(p + seq![x] + a, p + seq![y] + b),
        x > y ==> !precedes(p + seq![x] + a, p + seq![y] + b),
        precedes(p, p + seq![x] + a),
        !precedes(p + a, p),
    decreases p.len(),
{
    let s = p + seq![x] + a;
    let t = p + seq![y] + b;
    if p.len() > 0 {
        let q = p.drop_first();
        assert(s.drop_first() =~= q + seq![x] + a);
        assert(t.drop_first() =~= q + seq![y] + b);
        assert((p + a).drop_first() =~= q + a);
        law_order_of_names(q, x, y, a, b);
    } else {
        assert(s[0] == x && t[0] == y);
    }
}

/// A scriptlet goes by its name, or by a stand-in where that is no text, and
/// with its own content.
pub proof fn law_scriptlets_by_name(fs: Seq<FoundView>, i: int)
    requires
        0 <= i < fs.len(),
    ensures
        as_installs(fs).len() == fs.len(),
        as_installs(fs)[i].1 == fs[i].content,
        fs[i].name matches Some(name) ==> as_installs(fs)[i].0 == name,
        fs[i].name is None ==> as_installs(fs)[i].0 == "?.install"@,
{
    assert(as_installs(fs)[i] == (shown_name(fs[i]), fs[i].content));
}

// ---------------------------------------------------------------------------
// Parents
// ---------------------------------------------------------------------------

/// The AUR helpers are these seven, in whatever case they are written.
pub proof fn law_helpers(name: Seq<char>)
    ensures
        is_helper_name(name) <==> {
            let low = ascii_lowered(name);
            low == "yay"@ || low == "paru"@ || low == "pikaur"@ || low == "trizen"@ || low
                == "aurutils"@ || low == "aurman"@ || low == "rua"@
        },
{
    reveal_strlit("yay");
    reveal_strlit("paru");
    reveal_strlit("pikaur");
    reveal_strlit("trizen");
    reveal_strlit("aurutils");
    reveal_strlit("aurman");
    reveal_strlit("rua");
    assert(ascii_lowered("yay"@) =~= "yay"@);
    assert(ascii_lowered("paru"@) =~= "paru"@);
    assert(ascii_lowered("pikaur"@) =~= "pikaur"@);
    assert(ascii_lowered("trizen"@) =~= "trizen"@);
    assert(ascii_lowered("aurutils"@) =~= "aurutils"@);
    assert(ascii_lowered("aurman"@) =~= "aurman"@);
    assert(ascii_lowered("rua"@) =~= "rua"@);
    let h = aur_helpers();
    assert(h[0] == "yay"@ && h[1] == "paru"@ && h[2] == "pikaur"@ && h[3] == "trizen"@ && h[4]
        == "aurutils"@ && h[5] == "aurman"@ && h[6] == "rua"@);
}

/// A parent has a name where it is not init and its `comm` says something
/// beside blanks, and goes by that without the blanks around it.
pub proof fn law_parents(ppid: int, comm: Seq<char>)
    ensures
        ppid <= 1 ==> parent_name(ppid, Some(comm)) is None,
        parent_name(ppid, None) is None,
        ppid > 1 && trim(comm, Class::Blank).len() > 0 ==> parent_name(ppid, Some(comm)) == Some(
            trim(comm, Class::Blank),
        ),
        trim(comm, Class::Blank).len() == 0 ==> parent_name(ppid, Some(comm)) is None,
{
}

// ---------------------------------------------------------------------------
// Verdicts that are kept
// ---------------------------------------------------------------------------

/// A verdict is good for 300 seconds, the last of them included, and one that
/// was saved later than now still is.
pub proof fn law_lifetime_of_a_verdict(tier: Tier, saved_at: u64, now: u64)
    ensures
        now - saved_at <= 300 ==> verdict_in(entry_text(tier, saved_at as int), now as int)
            == Some(CachedVerdict { tier, timestamp: saved_at }),
        now - saved_at > 300 ==> verdict_in(entry_text(tier, saved_at as int), now as int)
            is None,
{
    law_saved_verdict_is_loaded(tier, saved_at, now);
}

/// A verdict is as old as the time that has passed since; one from the future
/// is not old at all.
pub proof fn law_age(timestamp: int, now: int)
    ensures
        timestamp <= now ==> age_at(timestamp, now) == now - timestamp,
        timestamp > now ==> age_at(timestamp, now) == 0,
{
}

/// An entry holds a verdict exactly where its first line names a tier, its
/// second is a time, and that is 300 seconds ago at most.
pub proof fn law_what_an_entry_holds(body: Seq<char>, now: int, tier: Tier, at: u64)
    requires
        0 <= now,
    ensures
        verdict_in(body, now) == Some(CachedVerdict { tier, timestamp: at }) <==> {
            &&& lines(body).len() >= 2
            &&& read_number(lines(body)[1], u64::MAX as int) == Some(at as int)
            &&& Tier::named(lowered(lines(body)[0])) == Some(tier)
            &&& now - at <= 300
        },
{
    if lines(body).len() >= 2 {
        crate::numeral::lemma_read_number_range(lines(body)[1], u64::MAX as int);
    }
}

/// The words that name the tiers, in lower case, and no others.
pub proof fn law_words_for_tiers(word: Seq<char>)
    ensures
        Tier::named("trusted"@) == Some(Tier::Trusted),
        Tier::named("ok"@) == Some(Tier::Okay),
        Tier::named("sketchy"@) == Some(Tier::Sketchy),
        Tier::named("suspicious"@) == Some(Tier::Suspicious),
        Tier::named("malicious"@) == Some(Tier::Malicious),
        Tier::named(word) is Some ==> word == "trusted"@ || word == "ok"@ || word == "sketchy"@
            || word == "suspicious"@ || word == "malicious"@,
{
    reveal_strlit("trusted");
    reveal_strlit("ok");
    reveal_strlit("sketchy");
    reveal_strlit("suspicious");
    reveal_strlit("malicious");
    assert("trusted"@[0] == 't' && "sketchy"@[0] == 's');
    assert("ok"@.len() == 2 && "suspicious"@.len() == 10 && "malicious"@.len() == 9);
}

/// Two lists of bytes are written one after the other, and a byte alone as two
/// digits, the larger place first: a digit up to nine as itself, from ten on
/// as a letter.
pub proof fn law_hex_digits(a: Seq<u8>, b: Seq<u8>, x: u8)
    ensures
        hex_of(a + b) == hex_of(a) + hex_of(b),
        hex_of(seq![x]).len() == 2,
        x / 16 < 10 ==> hex_of(seq![x])[0] as int == 48 + x / 16,
        x / 16 >= 10 ==> hex_of(seq![x])[0] as int == 87 + x / 16,
        x % 16 < 10 ==> hex_of(seq![x])[1] as int == 48 + x % 16,
        x % 16 >= 10 ==> hex_of(seq![x])[1] as int == 87 + x % 16,
    decreases b.len(),
{
    assert(hex_of(Seq::<u8>::empty()).len() == 0);
    assert(seq![x].drop_last() =~= Seq::<u8>::empty());
    if b.len() == 0 {
        assert(a + b =~= a);
        assert(hex_of(a) + hex_of(b) =~= hex_of(a));
    } else {
        assert((a + b).drop_last() =~= a + b.drop_last());
        law_hex_digits(a, b.drop_last(), x);
        assert(hex_of(a + b) =~= hex_of(a) + hex_of(b));
    }
}

}
