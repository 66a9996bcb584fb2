//! The pacman hook: which of the targets come from the AUR, where their
//! PKGBUILDs may be, and what the scans amount to.

use vstd::prelude::*;

use crate::audit::covers;
use crate::audit::is_covered;
use crate::audit::shows_report;
use crate::numeral::decimal;
use crate::numeral::write_number;
use crate::outside::decode_lossy;
use crate::outside::lossy_text;
use crate::paths::join_path;
use crate::paths::joined;
use crate::paths::opt_str;
use crate::report::ResultView;
use crate::report::ScanResult;
use crate::report::Tier;
use crate::scanner::results_view;
use crate::scanner::worst_tier;
use crate::text::after_last;
use crate::text::chars_of;
use crate::text::cut_after_last;
use crate::text::fields;
use crate::text::listed;
use crate::text::listed_names;
use crate::text::nonblank;
use crate::text::same_str;
use crate::text::slices;
use crate::text::split;
use crate::text::string_of;
use crate::text::strings;
use crate::text::trimmed;
use crate::text::Class;
use crate::wrap::solid;

verus! {

// ---------------------------------------------------------------------------
// Targets
// ---------------------------------------------------------------------------

/// The targets that pacman names, one per line: the lines that are not blank,
/// without the blanks around them.
pub fn targets_in(lines: &Vec<String>) -> (out: Vec<String>)
    ensures
        strings(out@) == nonblank(strings(lines@)),
{
    let ghost all = strings(lines@);
    let mut out: Vec<String> = Vec::new();
    let mut i: usize = 0;
    assert(strings(out@) =~= nonblank(all.take(0)));
    while i < lines.len()
        invariant
            i <= lines@.len(),
            all == strings(lines@),
            strings(out@) == nonblank(all.take(i as int)),
        decreases lines@.len() - i,
    {
        assert(all.take(i + 1).drop_last() =~= all.take(i as int));
        assert(all.take(i + 1).last() == lines@[i as int]@);
        let c: Vec<char> = chars_of(lines[i].as_str());
        let t: &[char] = trimmed(c.as_slice(), Class::Blank);
        if t.len() > 0 {
            let ghost before = out@;
            out.push(string_of(t));
            assert(strings(out@) =~= strings(before).push(t@));
        }
        i = i + 1;
    }
    assert(all.take(all.len() as int) =~= all);
    out
}

/// The foreign packages, given what `pacman -Qmq` printed.
pub fn foreign_packages(stdout: &[u8]) -> (out: Vec<String>)
    ensures
        strings(out@) == listed(lossy_text(stdout@)),
{
    listed_names(decode_lossy(stdout).as_str())
}

/// The package that a target names: `pkgname`, or the last piece of
/// `repo/pkgname`.
pub fn pkg_name_only(target: &str) -> (name: String)
    ensures
        name@ == after_last(target@, "/"@),
{
    let c: Vec<char> = chars_of(target);
    string_of(cut_after_last(c.as_slice(), "/"))
}

/// The packages that the targets name and that are foreign, in the order of
/// the targets.
pub open spec fn foreign_among(targets: Seq<Seq<char>>, foreign: Seq<Seq<char>>) -> Seq<Seq<char>>
    decreases targets.len(),
{
    if targets.len() == 0 {
        Seq::empty()
    } else {
        let name = after_last(targets.last(), "/"@);
        if foreign.contains(name) {
            foreign_among(targets.drop_last(), foreign).push(name)
        } else {
            foreign_among(targets.drop_last(), foreign)
        }
    }
}

fn is_listed(names: &Vec<String>, name: &str) -> (b: bool)
    ensures
        b == strings(names@).contains(name@),
{
    let mut i: usize = 0;
    while i < names.len()
        invariant
            i <= names@.len(),
            forall|j: int| 0 <= j < i ==> (#[trigger] names@[j])@ != name@,
        decreases names@.len() - i,
    {
        if same_str(names[i].as_str(), name) {
            assert(strings(names@)[i as int] == name@);
            return true;
        }
        i = i + 1;
    }
    assert forall|j: int| 0 <= j < strings(names@).len() implies strings(names@)[j] != name@ by {
        assert(strings(names@)[j] == names@[j]@);
    }
    false
}

/// The packages that the targets name and that come from the AUR.
pub fn aur_targets(targets: &Vec<String>, foreign: &Vec<String>) -> (out: Vec<String>)
    ensures
        strings(out@) == foreign_among(strings(targets@), strings(foreign@)),
{
    let ghost all = strings(targets@);
    let mut out: Vec<String> = Vec::new();
    let mut i: usize = 0;
    assert(strings(out@) =~= foreign_among(all.take(0), strings(foreign@)));
    while i < targets.len()
        invariant
            i <= targets@.len(),
            all == strings(targets@),
            strings(out@) == foreign_among(all.take(i as int), strings(foreign@)),
        decreases targets@.len() - i,
    {
        assert(all.take(i + 1).drop_last() =~= all.take(i as int));
        assert(all.take(i + 1).last() == targets@[i as int]@);
        let name: String = pkg_name_only(targets[i].as_str());
        if is_listed(foreign, name.as_str()) {
            let ghost before = out@;
            let ghost n = name@;
            out.push(name);
            assert(strings(out@) =~= strings(before).push(n));
        }
        i = i + 1;
    }
    assert(all.take(all.len() as int) =~= all);
    out
}

// ---------------------------------------------------------------------------
// Where the PKGBUILDs may be
// ---------------------------------------------------------------------------

/// The directories that the setting `AUR_GUARD_CACHE_DIRS` names, parted by
/// colons.
pub open spec fn extra_dirs(setting: Option<Seq<char>>) -> Seq<Seq<char>> {
    match setting {
        Some(s) => solid(split(s, Class::Is(':'))),
        None => Seq::empty(),
    }
}

/// The caches that the AUR helpers keep for a user.
pub open spec fn user_dirs(user: Seq<char>) -> Seq<Seq<char>> {
    let home = "/home/"@ + user;
    seq![
        joined(home, ".cache/paru/clone"@),
        joined(home, ".cache/yay"@),
        joined(home, ".cache/aurutils/sync"@),
    ]
}

/// The caches of the first `n` users.
pub open spec fn users_dirs(users: Seq<Seq<char>>, n: int) -> Seq<Seq<char>>
    decreases n,
{
    if n <= 0 {
        Seq::empty()
    } else {
        users_dirs(users, n - 1) + user_dirs(users[n - 1])
    }
}

/// The users whose caches are searched: the one behind `sudo` where there is
/// one, else all that have a home.
pub open spec fn searched_users(
    sudo_user: Option<Seq<char>>,
    homes: Seq<Seq<char>>,
) -> Seq<Seq<char>> {
    match sudo_user {
        Some(u) => seq![u],
        None => homes,
    }
}

/// The directories that are searched for PKGBUILDs, in order.
pub open spec fn cache_dirs(
    extra: Option<Seq<char>>,
    sudo_user: Option<Seq<char>>,
    homes: Seq<Seq<char>>,
) -> Seq<Seq<char>> {
    let users = searched_users(sudo_user, homes);
    extra_dirs(extra) + users_dirs(users, users.len() as int)
}

fn push_user_dirs(out: &mut Vec<String>, user: &str)
    ensures
        strings(final(out)@) == strings(old(out)@) + user_dirs(user@),
{
    let ghost given = out@;
    let mut home: String = "/home/".to_owned();
    home.append(user);
    out.push(join_path(home.as_str(), ".cache/paru/clone"));
    out.push(join_path(home.as_str(), ".cache/yay"));
    out.push(join_path(home.as_str(), ".cache/aurutils/sync"));
    assert(strings(out@) =~= strings(given) + user_dirs(user@));
}

fn push_extra_dirs(out: &mut Vec<String>, setting: &str)
    ensures
        strings(final(out)@) == strings(old(out)@) + solid(split(setting@, Class::Is(':'))),
{
    let ghost given = strings(out@);
    let c: Vec<char> = chars_of(setting);
    let parts: Vec<&[char]> = fields(c.as_slice(), Class::Is(':'));
    let ghost all = slices(parts@);
    let mut i: usize = 0;
    assert(strings(out@) =~= given + solid(all.take(0)));
    while i < parts.len()
        invariant
            i <= parts@.len(),
            all == slices(parts@),
            strings(out@) == given + solid(all.take(i as int)),
        decreases parts@.len() - i,
    {
        assert(all.take(i + 1).drop_last() =~= all.take(i as int));
        assert(all.take(i + 1).last() == parts@[i as int]@);
        if parts[i].len() > 0 {
            let ghost before = out@;
            out.push(string_of(parts[i]));
            assert(strings(out@) =~= strings(before).push(parts@[i as int]@));
            assert(strings(out@) =~= given + solid(all.take(i + 1)));
        }
        i = i + 1;
    }
    assert(all.take(all.len() as int) =~= all);
}

/// The directories that are searched for PKGBUILDs: those that the setting
/// `AUR_GUARD_CACHE_DIRS` names, then the caches of the AUR helpers. `sudo`
/// gives the real user when the hook runs as root; without it, every user
/// with a home is searched.
pub fn collect_cache_dirs(
    extra: Option<&str>,
    sudo_user: Option<&str>,
    homes: &Vec<String>,
) -> (out: Vec<String>)
    ensures
        strings(out@) == cache_dirs(opt_str(extra), opt_str(sudo_user), strings(homes@)),
{
    let mut out: Vec<String> = Vec::new();
    assert(strings(out@) =~= Seq::<Seq<char>>::empty());
    if let Some(s) = extra {
        push_extra_dirs(&mut out, s);
    }
    let ghost top = extra_dirs(opt_str(extra));
    assert(strings(out@) =~= top);
    match sudo_user {
        Some(u) => {
            push_user_dirs(&mut out, u);
            let ghost users = seq![u@];
            assert(users_dirs(users, 0) =~= Seq::<Seq<char>>::empty());
            assert(users_dirs(users, 1) =~= user_dirs(u@));
            out
        },
        None => {
            let ghost users = strings(homes@);
            let mut i: usize = 0;
            assert(strings(out@) =~= top + users_dirs(users, 0));
            while i < homes.len()
                invariant
                    i <= homes@.len(),
                    users == strings(homes@),
                    strings(out@) == top + users_dirs(users, i as int),
                decreases homes@.len() - i,
            {
                push_user_dirs(&mut out, homes[i].as_str());
                assert(users[i as int] == homes@[i as int]@);
                assert(strings(out@) =~= top + users_dirs(users, i + 1));
                i = i + 1;
            }
            out
        },
    }
}

/// Where the package's PKGBUILD is in a cache.
pub open spec fn cached_pkgbuild(dir: Seq<char>, pkg: Seq<char>) -> Seq<char> {
    joined(joined(dir, pkg), "PKGBUILD"@)
}

/// Where the package's PKGBUILD may be, in the order of the caches.
pub open spec fn candidates_in(caches: Seq<Seq<char>>, pkg: Seq<char>) -> Seq<Seq<char>> {
    caches.map_values(|d: Seq<char>| cached_pkgbuild(d, pkg))
}

/// Where the package's PKGBUILD may be, in the order of the caches. The first
/// that exists is taken.
pub fn pkgbuild_candidates(pkg: &str, caches: &Vec<String>) -> (out: Vec<String>)
    ensures
        strings(out@) == strings(caches@).map_values(|d: Seq<char>| cached_pkgbuild(d, pkg@)),
        strings(out@) == candidates_in(strings(caches@), pkg@),
{
    let mut out: Vec<String> = Vec::new();
    let mut i: usize = 0;
    while i < caches.len()
        invariant
            i <= caches@.len(),
            out@.len() == i,
            forall|j: int|
                0 <= j < i ==> (#[trigger] out@[j])@ == cached_pkgbuild(caches@[j]@, pkg@),
        decreases caches@.len() - i,
    {
        let dir: String = join_path(caches[i].as_str(), pkg);
        out.push(join_path(dir.as_str(), "PKGBUILD"));
        i = i + 1;
    }
    assert(strings(out@) =~= strings(caches@).map_values(
        |d: Seq<char>| cached_pkgbuild(d, pkg@),
    ));
    out
}

/// The first of the candidates that exists, by what was found at each.
pub open spec fn first_there(exists_at: Seq<bool>, from: int) -> Option<int>
    decreases exists_at.len() - from,
{
    if from >= exists_at.len() {
        None
    } else if exists_at[from] {
        Some(from)
    } else {
        first_there(exists_at, from + 1)
    }
}

/// The PKGBUILD that is taken: the first candidate that exists, given for
/// each candidate whether it does.
pub fn find_pkgbuild(candidates: &Vec<String>, exists_at: &Vec<bool>) -> (found: Option<String>)
    requires
        candidates@.len() == exists_at@.len(),
    ensures
        match first_there(exists_at@, 0) {
            Some(i) => found matches Some(p) && p@ == candidates@[i]@,
            None => found is None,
        },
        found is Some <==> exists|i: int| 0 <= i < exists_at@.len() && #[trigger] exists_at@[i],
        forall|i: int|
            0 <= i < exists_at@.len() && #[trigger] exists_at@[i] && (forall|j: int|
                0 <= j < i ==> !#[trigger] exists_at@[j]) ==> (found matches Some(p) && p@
                == candidates@[i]@),
{
    let mut i: usize = 0;
    while i < exists_at.len()
        invariant
            i <= exists_at@.len(),
            candidates@.len() == exists_at@.len(),
            forall|j: int| 0 <= j < i ==> !#[trigger] exists_at@[j],
            first_there(exists_at@, 0) == first_there(exists_at@, i as int),
        decreases exists_at@.len() - i,
    {
        if exists_at[i] {
            return Some(candidates[i].clone());
        }
        i = i + 1;
    }
    None
}

// ---------------------------------------------------------------------------
// What the scans amount to
// ---------------------------------------------------------------------------

/// How many of the first `n` results are of the tier.
pub open spec fn count_of(rs: Seq<ResultView>, n: int, tier: Tier) -> int
    decreases n,
{
    if n <= 0 {
        0
    } else if rs[n - 1].tier == tier {
        count_of(rs, n - 1, tier) + 1
    } else {
        count_of(rs, n - 1, tier)
    }
}

/// How many results are of each tier, and the worst of the tiers.
#[derive(Debug, Clone, Copy)]
pub struct Tally {
    pub trusted: usize,
    pub okay: usize,
    pub sketchy: usize,
    pub suspicious: usize,
    pub malicious: usize,
    pub worst: Tier,
}

/// The tally of the first `n` results.
pub open spec fn is_tally(t: Tally, rs: Seq<ResultView>, n: int) -> bool {
    &&& t.trusted == count_of(rs, n, Tier::Trusted)
    &&& t.okay == count_of(rs, n, Tier::Okay)
    &&& t.sketchy == count_of(rs, n, Tier::Sketchy)
    &&& t.suspicious == count_of(rs, n, Tier::Suspicious)
    &&& t.malicious == count_of(rs, n, Tier::Malicious)
    &&& t.worst == worst_tier(rs, n)
}

/// How many results are of each tier, and the worst of the tiers.
pub fn tally(results: &Vec<(String, ScanResult)>) -> (t: Tally)
    ensures
        is_tally(t, results_view(results@), results@.len() as int),
{
    let ghost rs = results_view(results@);
    let mut t: Tally = Tally {
        trusted: 0,
        okay: 0,
        sketchy: 0,
        suspicious: 0,
        malicious: 0,
        worst: Tier::Trusted,
    };
    let mut i: usize = 0;
    while i < results.len()
        invariant
            i <= results@.len(),
            rs == results_view(results@),
            is_tally(t, rs, i as int),
            t.trusted <= i,
            t.okay <= i,
            t.sketchy <= i,
            t.suspicious <= i,
            t.malicious <= i,
        decreases results@.len() - i,
    {
        assert(rs[i as int] == results@[i as int].1@);
        let tier: Tier = results[i].1.tier;
        match tier {
            Tier::Trusted => {
                t.trusted = t.trusted + 1;
            },
            Tier::Okay => {
                t.okay = t.okay + 1;
            },
            Tier::Sketchy => {
                t.sketchy = t.sketchy + 1;
            },
            Tier::Suspicious => {
                t.suspicious = t.suspicious + 1;
            },
            Tier::Malicious => {
                t.malicious = t.malicious + 1;
            },
        }
        if !t.worst.at_least(tier) {
            t.worst = tier;
        }
        i = i + 1;
    }
    t
}

/// Whether the audit is summed up.
pub open spec fn is_summed_up(worst: Tier, skipped: int) -> bool {
    worst.level() >= Tier::Sketchy.level() || skipped > 0
}

/// Whether the audit is summed up: where some result is worse than ok, or some
/// package was skipped. Else it passes in silence.
pub fn shows_summary(t: Tally, skipped: usize) -> (b: bool)
    ensures
        b == (t.worst.level() >= Tier::Sketchy.level() || skipped > 0),
        b == is_summed_up(t.worst, skipped as int),
{
    shows_report(t.worst) || skipped > 0
}

/// The line that sums up an audit.
pub open spec fn summary_line(targets: int, t: Tally, skipped: int) -> Seq<char> {
    "aur-guard :: "@ + decimal(targets) + " AUR target(s) — trusted="@ + decimal(t.trusted as int)
        + " ok="@ + decimal(t.okay as int) + " sketchy="@ + decimal(t.sketchy as int)
        + " suspicious="@ + decimal(t.suspicious as int) + " malicious="@ + decimal(
        t.malicious as int,
    ) + " (skipped "@ + decimal(skipped) + ")."@
}

/// The line that sums up an audit.
pub fn summarise(targets: usize, t: Tally, skipped: usize) -> (s: String)
    ensures
        s@ == summary_line(targets as int, t, skipped as int),
{
    let mut s: String = "aur-guard :: ".to_owned();
    s.append(write_number(targets as u64).as_str());
    s.append(" AUR target(s) — trusted=");
    s.append(write_number(t.trusted as u64).as_str());
    s.append(" ok=");
    s.append(write_number(t.okay as u64).as_str());
    s.append(" sketchy=");
    s.append(write_number(t.sketchy as u64).as_str());
    s.append(" suspicious=");
    s.append(write_number(t.suspicious as u64).as_str());
    s.append(" malicious=");
    s.append(write_number(t.malicious as u64).as_str());
    s.append(" (skipped ");
    s.append(write_number(skipped as u64).as_str());
    s.append(").");
    s
}

/// What the hook does before anything is scanned.
#[derive(Debug, Clone, Copy, PartialEq, Eq, Structural)]
pub enum HookStart {
    /// Nothing was named; the transaction goes on.
    NoTargets,
    /// Nothing comes from the AUR; the transaction goes on.
    NothingForeign,
    /// The packages from the AUR are scanned.
    Scan,
}

/// What the hook does before anything is scanned.
pub open spec fn start_on(targets: int, from_aur: int) -> HookStart {
    if targets == 0 {
        HookStart::NoTargets
    } else if from_aur == 0 {
        HookStart::NothingForeign
    } else {
        HookStart::Scan
    }
}

/// What the hook does before anything is scanned.
pub fn hook_start(targets: usize, from_aur: usize) -> (start: HookStart)
    ensures
        start == start_on(targets as int, from_aur as int),
        start == (if targets == 0 {
            HookStart::NoTargets
        } else if from_aur == 0 {
            HookStart::NothingForeign
        } else {
            HookStart::Scan
        }),
{
    if targets == 0 {
        HookStart::NoTargets
    } else if from_aur == 0 {
        HookStart::NothingForeign
    } else {
        HookStart::Scan
    }
}

/// Whether a result needs the user's word: it is suspicious or malicious, and
/// the same files were not accepted shortly before at a tier at least as bad.
pub open spec fn needs_word(r: ResultView, accepted: Option<Tier>) -> bool {
    r.tier.level() >= Tier::Suspicious.level() && !is_covered(r.tier, accepted)
}

/// Whether the hook asks before the transaction goes on: where some result
/// needs the user's word. `accepted` holds for each result the tier at which
/// the same files were accepted shortly before, if they were.
pub fn hook_asks(results: &Vec<(String, ScanResult)>, accepted: &Vec<Option<Tier>>) -> (b: bool)
    requires
        results@.len() == accepted@.len(),
    ensures
        b == exists|i: int|
            0 <= i < results@.len() && #[trigger] needs_word(
                results_view(results@)[i],
                accepted@[i],
            ),
{
    let ghost rs = results_view(results@);
    let mut i: usize = 0;
    while i < results.len()
        invariant
            i <= results@.len(),
            rs == results_view(results@),
            results@.len() == accepted@.len(),
            forall|j: int| 0 <= j < i ==> !#[trigger] needs_word(rs[j], accepted@[j]),
        decreases results@.len() - i,
    {
        assert(rs[i as int] == results@[i as int].1@);
        if results[i].1.tier.at_least(Tier::Suspicious) && !covers(accepted[i], results[i].1.tier) {
            assert(needs_word(rs[i as int], accepted@[i as int]));
            return true;
        }
        i = i + 1;
    }
    false
}

/// The code with which the hook exits.
pub open spec fn hook_code(asked: bool, yes: bool) -> u8 {
    if asked && !yes {
        1
    } else {
        0
    }
}

/// The code with which the hook exits: 1, which aborts the transaction, where
/// the user was asked and did not say yes; else 0.
pub fn hook_exit(asked: bool, yes: bool) -> (code: u8)
    ensures
        code == hook_code(asked, yes),
        code == (if asked && !yes {
            1u8
        } else {
            0u8
        }),
{
    if asked && !yes {
        1
    } else {
        0
    }
}

/// What the results are called when they are shown as one.
pub fn pool_label(n: usize) -> (s: String)
    ensures
        s@ == decimal(n as int) + " AUR package(s)"@,
{
    let mut s: String = write_number(n as u64);
    s.append(" AUR package(s)");
    s
}

// ---------------------------------------------------------------------------
// Laws
// ---------------------------------------------------------------------------

/// Every result is counted once.
pub proof fn law_tally_counts_all(rs: Seq<ResultView>, n: int)
    requires
        0 <= n <= rs.len(),
    ensures
        count_of(rs, n, Tier::Trusted) + count_of(rs, n, Tier::Okay) + count_of(
            rs,
            n,
            Tier::Sketchy,
        ) + count_of(rs, n, Tier::Suspicious) + count_of(rs, n, Tier::Malicious) == n,
    decreases n,
{
    if n > 0 {
        law_tally_counts_all(rs, n - 1);
    }
}

/// Where nothing was accepted before, the hook asks if and only if the worst
/// tier is suspicious or malicious.
pub proof fn law_hook_asks_on_suspicion(rs: Seq<ResultView>, n: int)
    requires
        0 <= n <= rs.len(),
    ensures
        (exists|i: int| 0 <= i < n && #[trigger] needs_word(rs[i], None)) <==> worst_tier(
            rs,
            n,
        ).level() >= Tier::Suspicious.level(),
    decreases n,
{
    if n > 0 {
        law_hook_asks_on_suspicion(rs, n - 1);
        let w = worst_tier(rs, n - 1);
        if rs[n - 1].tier.level() >= Tier::Suspicious.level() {
            assert(needs_word(rs[n - 1], None));
        }
        if w.level() >= Tier::Suspicious.level() {
            let i = choose|i: int| 0 <= i < n - 1 && #[trigger] needs_word(rs[i], None);
            assert(0 <= i < n && needs_word(rs[i], None));
        }
    }
}

/// Only foreign packages that a target names are scanned, and all of them.
pub proof fn law_scanned_are_the_foreign_targets(
    targets: Seq<Seq<char>>,
    foreign: Seq<Seq<char>>,
    name: Seq<char>,
)
    ensures
        foreign_among(targets, foreign).contains(name) <==> foreign.contains(name) && exists|
            i: int,
        |
            0 <= i < targets.len() && after_last(#[trigger] targets[i], "/"@) == name,
    decreases targets.len(),
{
    if targets.len() > 0 {
        let rest = targets.drop_last();
        let last = targets.last();
        let before = foreign_among(rest, foreign);
        let all = foreign_among(targets, foreign);
        law_scanned_are_the_foreign_targets(rest, foreign, name);
        if all.contains(name) {
            let k = choose|k: int| 0 <= k < all.len() && all[k] == name;
            if k < before.len() {
                assert(before[k] == name);
                assert(before.contains(name));
                let i = choose|i: int|
                    0 <= i < rest.len() && after_last(#[trigger] rest[i], "/"@) == name;
                assert(targets[i] == rest[i]);
            } else {
                assert(targets[targets.len() - 1] == last);
            }
        }
        if foreign.contains(name) && exists|i: int|
            0 <= i < targets.len() && after_last(#[trigger] targets[i], "/"@) == name {
            let i = choose|i: int|
                0 <= i < targets.len() && after_last(#[trigger] targets[i], "/"@) == name;
            if i < rest.len() {
                assert(rest[i] == targets[i]);
                assert(before.contains(name));
                let k = choose|k: int| 0 <= k < before.len() && before[k] == name;
                assert(all[k] == name);
            } else {
                assert(all[all.len() - 1] == name);
            }
        }
    }
}

}
