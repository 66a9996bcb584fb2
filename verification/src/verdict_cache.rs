//! Short-lived verdict cache, keyed by a content hash of the PKGBUILD bundle.
//!
//! AUR helpers invoke makepkg several times per install, and the pacman hook
//! fires once more on top of that. A verdict that the user has accepted is
//! kept under the hash of what was scanned, so that the same bundle is not
//! asked about again within [`TTL_SECS`] seconds.
//!
//! The hash covers the PKGBUILD content, every adjacent scriptlet and the
//! running version, so that upgrades invalidate the cache and fresh rules get
//! a fresh prompt. Each of them is hashed behind its length, so that any
//! mutation of any of them produces a different message.

use vstd::prelude::*;
use vstd::utf8::encode_utf8;

use crate::numeral::decimal;
use crate::numeral::parse_number;
use crate::numeral::read_number;
use crate::numeral::write_number;
use crate::outside::lowercase;
use crate::outside::lowered;
use crate::outside::sha256;
use crate::outside::sha256_of;
use crate::paths::entry_of;
use crate::report::Tier;
use crate::scanner::install_view;
use crate::scanner::installs_view;
use crate::scanner::InstallFile;
use crate::text::ascii_lowered;
use crate::text::chars_of;
use crate::text::is_one_line;
use crate::text::lines;
use crate::text::slices;
use crate::text::split_lines;
use crate::text::string_of;
use crate::text::strip_cr;

verus! {

/// How long a verdict is kept, in seconds.
pub const TTL_SECS: u64 = 300;

/// A verdict that was accepted, and when.
#[derive(Debug, Clone, Copy)]
pub struct CachedVerdict {
    pub tier: Tier,
    pub timestamp: u64,
}

/// The seconds from `timestamp` to `now`; none where it lies in the future.
pub open spec fn age_at(timestamp: int, now: int) -> int {
    if now > timestamp {
        now - timestamp
    } else {
        0
    }
}

impl CachedVerdict {
    /// How old the verdict is at `now`, in seconds.
    pub fn age_secs(&self, now: u64) -> (age: u64)
        ensures
            age == age_at(self.timestamp as int, now as int),
    {
        now.saturating_sub(self.timestamp)
    }
}

// ---------------------------------------------------------------------------
// Entries
// ---------------------------------------------------------------------------

/// The entry for a verdict reached at `now`: the tier in lower case and the
/// time, a line each.
pub open spec fn entry_text(tier: Tier, now: int) -> Seq<char> {
    lowered(tier.word()) + "\n"@ + decimal(now) + "\n"@
}

/// The verdict that an entry holds, where it holds one and is not too old at
/// `now`.
pub open spec fn verdict_in(body: Seq<char>, now: int) -> Option<CachedVerdict> {
    let ls = lines(body);
    if ls.len() < 2 {
        None
    } else {
        match read_number(ls[1], u64::MAX as int) {
            Some(ts) => if age_at(ts, now) > TTL_SECS {
                None
            } else {
                match Tier::named(lowered(ls[0])) {
                    Some(tier) => Some(CachedVerdict { tier, timestamp: ts as u64 }),
                    None => None,
                }
            },
            None => None,
        }
    }
}

/// Reads an entry at time `now`.
pub fn load(body: &str, now: u64) -> (v: Option<CachedVerdict>)
    ensures
        v == verdict_in(body@, now as int),
{
    let text: Vec<char> = chars_of(body);
    let ls: Vec<&[char]> = split_lines(text.as_slice());
    assert(slices(ls@).len() == ls@.len());
    if ls.len() < 2 {
        return None;
    }
    assert(slices(ls@)[0] == ls@[0]@);
    assert(slices(ls@)[1] == ls@[1]@);
    let ts: u64 = match parse_number(ls[1], u64::MAX) {
        Some(n) => n,
        None => {
            return None;
        },
    };
    if now.saturating_sub(ts) > TTL_SECS {
        return None;
    }
    let word: String = string_of(ls[0]);
    match Tier::parse(word.as_str()) {
        Some(tier) => Some(CachedVerdict { tier, timestamp: ts }),
        None => None,
    }
}

/// The entry for a verdict reached at `now`.
pub fn save(tier: Tier, now: u64) -> (body: String)
    ensures
        body@ == entry_text(tier, now as int),
{
    let mut body: String = lowercase(tier.label());
    body.append("\n");
    body.append(write_number(now).as_str());
    body.append("\n");
    body
}

/// The file that holds the verdict on the bundle with that hash.
pub fn entry_path(dir: &str, hash: &str) -> (p: String)
    ensures
        p@ == entry_of(dir@, hash@, ".txt"@),
{
    crate::paths::entry_path(dir, hash, ".txt")
}

/// Whether an entry of that age is to be removed.
pub open spec fn is_stale(age_secs: int) -> bool {
    age_secs > 4 * TTL_SECS
}

/// Whether an entry of that age is to be removed.
pub fn is_expired(age_secs: u64) -> (b: bool)
    ensures
        b == (age_secs > 4 * TTL_SECS),
        b == is_stale(age_secs as int),
{
    let cutoff: u64 = TTL_SECS * 4;
    age_secs > cutoff
}

// ---------------------------------------------------------------------------
// Hashes
// ---------------------------------------------------------------------------

/// A text behind the number of its characters, so that it can be told where
/// it ends.
pub open spec fn framed(s: Seq<char>) -> Seq<char> {
    decimal(s.len() as int) + ":"@ + s
}

/// What one scriptlet contributes to what is hashed.
pub open spec fn scriptlet_text(file: (Seq<char>, Seq<char>)) -> Seq<char> {
    "\n.install:"@ + framed(file.0) + "\n"@ + framed(file.1)
}

/// What the scriptlets contribute to what is hashed.
pub open spec fn scriptlets_text(files: Seq<(Seq<char>, Seq<char>)>) -> Seq<char>
    decreases files.len(),
{
    if files.len() == 0 {
        Seq::empty()
    } else {
        scriptlets_text(files.drop_last()) + scriptlet_text(files.last())
    }
}

/// What is hashed: the version, the PKGBUILD and the scriptlets.
pub open spec fn bundle_text(
    version: Seq<char>,
    pkgbuild: Seq<char>,
    files: Seq<(Seq<char>, Seq<char>)>,
) -> Seq<char> {
    "aur-guard:v="@ + framed(version) + "\nPKGBUILD\n"@ + framed(pkgbuild) + scriptlets_text(files)
}

/// The hexadecimal digit of value `n`.
pub open spec fn hex_digit(n: int) -> char {
    if n < 10 {
        ((48 + n) as u32) as char
    } else {
        ((87 + n) as u32) as char
    }
}

/// The bytes in hexadecimal, two lower-case digits each.
pub open spec fn hex_of(bytes: Seq<u8>) -> Seq<char>
    decreases bytes.len(),
{
    if bytes.len() == 0 {
        Seq::empty()
    } else {
        hex_of(bytes.drop_last()).push(hex_digit(bytes.last() as int / 16)).push(
            hex_digit(bytes.last() as int % 16),
        )
    }
}

/// The hash of a bundle.
pub open spec fn hash_of(
    version: Seq<char>,
    pkgbuild: Seq<char>,
    files: Seq<(Seq<char>, Seq<char>)>,
) -> Seq<char> {
    hex_of(sha256_of(encode_utf8(bundle_text(version, pkgbuild, files))))
}

fn hex_char(n: u8) -> (c: char)
    requires
        n < 16,
    ensures
        c == hex_digit(n as int),
{
    match n {
        0 => '0',
        1 => '1',
        2 => '2',
        3 => '3',
        4 => '4',
        5 => '5',
        6 => '6',
        7 => '7',
        8 => '8',
        9 => '9',
        10 => 'a',
        11 => 'b',
        12 => 'c',
        13 => 'd',
        14 => 'e',
        _ => 'f',
    }
}

/// The bytes in hexadecimal.
pub fn to_hex(bytes: &[u8]) -> (s: String)
    ensures
        s@ == hex_of(bytes@),
{
    let mut s: String = String::new();
    let mut i: usize = 0;
    assert(bytes@.take(0) =~= Seq::<u8>::empty());
    while i < bytes.len()
        invariant
            i <= bytes@.len(),
            s@ == hex_of(bytes@.take(i as int)),
        decreases bytes@.len() - i,
    {
        assert(bytes@.take(i + 1).drop_last() =~= bytes@.take(i as int));
        let b: u8 = bytes[i];
        s.push(hex_char(b / 16));
        s.push(hex_char(b % 16));
        i = i + 1;
    }
    assert(bytes@.take(bytes@.len() as int) =~= bytes@);
    s
}

fn frame(s: &str) -> (r: String)
    ensures
        r@ == framed(s@),
{
    let mut r: String = write_number(chars_of(s).len() as u64);
    r.append(":");
    r.append(s);
    r
}

fn frame_scriptlet(file: &InstallFile) -> (r: String)
    ensures
        r@ == scriptlet_text(install_view(*file)),
{
    let mut r: String = "\n.install:".to_owned();
    r.append(frame(file.name.as_str()).as_str());
    r.append("\n");
    r.append(frame(file.content.as_str()).as_str());
    r
}

/// What is hashed of a bundle.
pub fn bundle_message(
    version: &str,
    pkgbuild: &str,
    installs: &Vec<InstallFile>,
) -> (m: String)
    ensures
        m@ == bundle_text(version@, pkgbuild@, installs_view(installs@)),
{
    let ghost files = installs_view(installs@);
    let mut m: String = "aur-guard:v=".to_owned();
    m.append(frame(version).as_str());
    m.append("\nPKGBUILD\n");
    m.append(frame(pkgbuild).as_str());
    let ghost head = m@;
    let mut i: usize = 0;
    assert(files.take(0) =~= Seq::<(Seq<char>, Seq<char>)>::empty());
    assert(m@ =~= head + scriptlets_text(files.take(0)));
    while i < installs.len()
        invariant
            i <= installs@.len(),
            files == installs_view(installs@),
            m@ == head + scriptlets_text(files.take(i as int)),
        decreases installs@.len() - i,
    {
        assert(files[i as int] == install_view(installs@[i as int]));
        assert(files.take(i + 1).drop_last() =~= files.take(i as int));
        m.append(frame_scriptlet(&installs[i]).as_str());
        assert(m@ =~= head + scriptlets_text(files.take(i + 1)));
        i = i + 1;
    }
    assert(files.take(files.len() as int) =~= files);
    m
}

/// Whether the character is a lower-case hexadecimal digit.
pub open spec fn is_hex_digit(c: char) -> bool {
    '0' <= c <= '9' || 'a' <= c <= 'f'
}

/// Compute the hash of a PKGBUILD and its scriptlets, which keys the cache: 64
/// hexadecimal digits.
pub fn bundle_hash(version: &str, pkgbuild: &str, installs: &Vec<InstallFile>) -> (h: String)
    ensures
        h@ == hash_of(version@, pkgbuild@, installs_view(installs@)),
        h@.len() == 64,
        forall|i: int| 0 <= i < h@.len() ==> is_hex_digit(#[trigger] h@[i]),
{
    let m: String = bundle_message(version, pkgbuild, installs);
    let d: Vec<u8> = sha256(m.as_str().as_bytes());
    proof {
        lemma_hex(d@);
    }
    to_hex(d.as_slice())
}

// ---------------------------------------------------------------------------
// Laws of the entries
// ---------------------------------------------------------------------------

/// The word that a tier is kept under.
proof fn lemma_tier_key(tier: Tier)
    ensures
        Tier::named(lowered(tier.word())) == Some(tier),
        is_one_line(lowered(tier.word())),
        strip_cr(lowered(tier.word())) == lowered(tier.word()),
        lowered(lowered(tier.word())) == lowered(tier.word()),
{
    reveal_strlit("TRUSTED");
    reveal_strlit("OK");
    reveal_strlit("SKETCHY");
    reveal_strlit("SUSPICIOUS");
    reveal_strlit("MALICIOUS");
    reveal_strlit("trusted");
    reveal_strlit("ok");
    reveal_strlit("sketchy");
    reveal_strlit("suspicious");
    reveal_strlit("malicious");
    let key = match tier {
        Tier::Trusted => "trusted"@,
        Tier::Okay => "ok"@,
        Tier::Sketchy => "sketchy"@,
        Tier::Suspicious => "suspicious"@,
        Tier::Malicious => "malicious"@,
    };
    assert("trusted"@[0] != "sketchy"@[0]);
    assert("ok"@.len() == 2 && "suspicious"@.len() == 10 && "malicious"@.len() == 9);
    assert("trusted"@.len() == 7 && "sketchy"@.len() == 7);
    assert(Tier::named(key) == Some(tier));
    assert(vstd::utf8::is_ascii_chars(tier.word()));
    assert(vstd::utf8::is_ascii_chars(key));
    assert(ascii_lowered(tier.word()) =~= key);
    assert(ascii_lowered(key) =~= key);
}

/// The label of a tier, put in lower case, names the tier.
pub proof fn law_label_names_tier(tier: Tier)
    ensures
        Tier::named(lowered(tier.word())) == Some(tier),
{
    lemma_tier_key(tier);
}

proof fn lemma_entry_lines(tier: Tier, saved_at: int)
    requires
        0 <= saved_at,
    ensures
        lines(entry_text(tier, saved_at)) == seq![lowered(tier.word()), decimal(saved_at)],
{
    let key = lowered(tier.word());
    let time = decimal(saved_at);
    reveal_strlit("\n");
    assert("\n"@ =~= seq!['\n']);
    lemma_tier_key(tier);
    crate::numeral::lemma_decimal(saved_at);
    assert(is_one_line(time)) by {
        assert forall|i: int| 0 <= i < time.len() implies #[trigger] time[i] != '\n' by {
            assert('0' <= time[i] <= '9');
        }
    }
    assert('0' <= time[time.len() - 1] <= '9');
    let empty = Seq::<char>::empty();
    assert(entry_text(tier, saved_at) =~= key + seq!['\n'] + (time + seq!['\n'] + empty));
    crate::text::lemma_lines_cons(key, time + seq!['\n'] + empty);
    crate::text::lemma_lines_cons(time, empty);
    assert(lines(empty) =~= Seq::<Seq<char>>::empty());
    assert(lines(entry_text(tier, saved_at)) =~= seq![key, time]);
}

/// A saved verdict is read back as it was saved for as long as it is kept,
/// and not at all afterwards.
pub proof fn law_saved_verdict_is_loaded(tier: Tier, saved_at: u64, now: u64)
    ensures
        age_at(saved_at as int, now as int) <= TTL_SECS ==> verdict_in(
            entry_text(tier, saved_at as int),
            now as int,
        ) == Some(CachedVerdict { tier, timestamp: saved_at }),
        age_at(saved_at as int, now as int) > TTL_SECS ==> verdict_in(
            entry_text(tier, saved_at as int),
            now as int,
        ) is None,
{
    lemma_entry_lines(tier, saved_at as int);
    lemma_tier_key(tier);
    crate::numeral::law_decimal_round_trip(saved_at as int, u64::MAX as int);
}

/// No entry yields a verdict older than the cache keeps them.
pub proof fn law_loaded_verdict_is_recent(body: Seq<char>, now: int)
    ensures
        verdict_in(body, now) matches Some(v) ==> age_at(v.timestamp as int, now) <= TTL_SECS,
{
    let ls = lines(body);
    if ls.len() >= 2 {
        crate::numeral::lemma_read_number_range(ls[1], u64::MAX as int);
    }
}

// ---------------------------------------------------------------------------
// Laws of the hashes
// ---------------------------------------------------------------------------

/// Equal texts, split behind the same number of characters, have equal parts.
proof fn lemma_same_split(a: Seq<char>, b: Seq<char>, x: Seq<char>, y: Seq<char>)
    requires
        a.len() == b.len(),
        a + x == b + y,
    ensures
        a == b,
        x == y,
{
    assert(a =~= (a + x).take(a.len() as int));
    assert(b =~= (b + y).take(a.len() as int));
    assert(x =~= (a + x).skip(a.len() as int));
    assert(y =~= (b + y).skip(a.len() as int));
}

/// A number cannot end before another one where both are followed by a colon
/// and the wholes are the same.
proof fn lemma_number_not_shorter(m: int, n: int, x: Seq<char>, y: Seq<char>)
    requires
        0 <= m,
        0 <= n,
        decimal(m) + ":"@ + x == decimal(n) + ":"@ + y,
    ensures
        decimal(m).len() >= decimal(n).len(),
{
    reveal_strlit(":");
    crate::numeral::lemma_decimal(n);
    let k = decimal(m).len() as int;
    if k < decimal(n).len() {
        assert((decimal(m) + ":"@ + x)[k] == ':');
        assert((decimal(n) + ":"@ + y)[k] == decimal(n)[k]);
        assert('0' <= decimal(n)[k] <= '9');
    }
}

/// What is framed can be told from what follows it.
proof fn lemma_framed(a: Seq<char>, b: Seq<char>, x: Seq<char>, y: Seq<char>)
    requires
        framed(a) + x == framed(b) + y,
    ensures
        a == b,
        x == y,
{
    let m = a.len() as int;
    let n = b.len() as int;
    assert(framed(a) + x =~= decimal(m) + ":"@ + (a + x));
    assert(framed(b) + y =~= decimal(n) + ":"@ + (b + y));
    lemma_number_not_shorter(m, n, a + x, b + y);
    lemma_number_not_shorter(n, m, b + y, a + x);
    lemma_same_split(decimal(m) + ":"@, decimal(n) + ":"@, a + x, b + y);
    lemma_same_split(decimal(m), decimal(n), ":"@, ":"@);
    let max = if m > n {
        m
    } else {
        n
    };
    crate::numeral::law_decimal_round_trip(m, max);
    crate::numeral::law_decimal_round_trip(n, max);
    lemma_same_split(a, b, x, y);
}

/// What two lists of scriptlets in a row contribute.
proof fn lemma_scriptlets_concat(
    a: Seq<(Seq<char>, Seq<char>)>,
    b: Seq<(Seq<char>, Seq<char>)>,
)
    ensures
        scriptlets_text(a + b) == scriptlets_text(a) + scriptlets_text(b),
    decreases b.len(),
{
    if b.len() == 0 {
        assert(a + b =~= a);
        assert(scriptlets_text(a) + scriptlets_text(b) =~= scriptlets_text(a));
    } else {
        assert((a + b).drop_last() =~= a + b.drop_last());
        lemma_scriptlets_concat(a, b.drop_last());
        assert(scriptlets_text(a + b) =~= scriptlets_text(a) + scriptlets_text(b));
    }
}

proof fn lemma_one_scriptlet(file: (Seq<char>, Seq<char>))
    ensures
        scriptlets_text(seq![file]) == scriptlet_text(file),
{
    reveal_with_fuel(scriptlets_text, 2);
    assert(seq![file].drop_last() =~= Seq::<(Seq<char>, Seq<char>)>::empty());
    assert(scriptlets_text(seq![file]) =~= scriptlet_text(file));
}

proof fn lemma_first_scriptlet(files: Seq<(Seq<char>, Seq<char>)>)
    requires
        files.len() > 0,
    ensures
        scriptlets_text(files) == scriptlet_text(files[0]) + scriptlets_text(files.skip(1)),
{
    assert(files =~= seq![files[0]] + files.skip(1));
    lemma_scriptlets_concat(seq![files[0]], files.skip(1));
    lemma_one_scriptlet(files[0]);
}

/// One scriptlet can be told from what follows it.
proof fn lemma_scriptlet_told_apart(
    a: (Seq<char>, Seq<char>),
    b: (Seq<char>, Seq<char>),
    x: Seq<char>,
    y: Seq<char>,
)
    requires
        scriptlet_text(a) + x == scriptlet_text(b) + y,
    ensures
        a == b,
        x == y,
{
    let mark = "\n.install:"@;
    let end = "\n"@;
    let x1 = end + (framed(a.1) + x);
    let y1 = end + (framed(b.1) + y);
    assert(scriptlet_text(a) + x =~= mark + (framed(a.0) + x1));
    assert(scriptlet_text(b) + y =~= mark + (framed(b.0) + y1));
    lemma_same_split(mark, mark, framed(a.0) + x1, framed(b.0) + y1);
    lemma_framed(a.0, b.0, x1, y1);
    lemma_same_split(end, end, framed(a.1) + x, framed(b.1) + y);
    lemma_framed(a.1, b.1, x, y);
}

proof fn lemma_scriptlets_told_apart(
    f1: Seq<(Seq<char>, Seq<char>)>,
    f2: Seq<(Seq<char>, Seq<char>)>,
)
    requires
        scriptlets_text(f1) == scriptlets_text(f2),
    ensures
        f1 == f2,
    decreases f1.len(),
{
    if f1.len() > 0 {
        lemma_first_scriptlet(f1);
    }
    if f2.len() > 0 {
        lemma_first_scriptlet(f2);
    }
    if f1.len() == 0 || f2.len() == 0 {
        assert("\n.install:"@.len() > 0) by {
            reveal_strlit("\n.install:");
        }
        assert(f1 =~= f2);
    } else {
        lemma_scriptlet_told_apart(
            f1[0],
            f2[0],
            scriptlets_text(f1.skip(1)),
            scriptlets_text(f2.skip(1)),
        );
        lemma_scriptlets_told_apart(f1.skip(1), f2.skip(1));
        assert(f1 =~= seq![f1[0]] + f1.skip(1));
        assert(f2 =~= seq![f2[0]] + f2.skip(1));
    }
}

/// Any change of the version, of the PKGBUILD, of the name or the content of a
/// scriptlet, or of how many scriptlets there are, changes what is hashed:
/// bundles of which the same is hashed are the same.
pub proof fn law_bundles_are_told_apart(
    v1: Seq<char>,
    p1: Seq<char>,
    f1: Seq<(Seq<char>, Seq<char>)>,
    v2: Seq<char>,
    p2: Seq<char>,
    f2: Seq<(Seq<char>, Seq<char>)>,
)
    requires
        bundle_text(v1, p1, f1) == bundle_text(v2, p2, f2),
    ensures
        v1 == v2,
        p1 == p2,
        f1 == f2,
{
    let head = "aur-guard:v="@;
    let mid = "\nPKGBUILD\n"@;
    let x1 = mid + (framed(p1) + scriptlets_text(f1));
    let x2 = mid + (framed(p2) + scriptlets_text(f2));
    assert(bundle_text(v1, p1, f1) =~= head + (framed(v1) + x1));
    assert(bundle_text(v2, p2, f2) =~= head + (framed(v2) + x2));
    lemma_same_split(head, head, framed(v1) + x1, framed(v2) + x2);
    lemma_framed(v1, v2, x1, x2);
    lemma_same_split(
        mid,
        mid,
        framed(p1) + scriptlets_text(f1),
        framed(p2) + scriptlets_text(f2),
    );
    lemma_framed(p1, p2, scriptlets_text(f1), scriptlets_text(f2));
    lemma_scriptlets_told_apart(f1, f2);
}

/// Bytes are told from their hexadecimal form.
pub proof fn law_hex_is_injective(a: Seq<u8>, b: Seq<u8>)
    requires
        hex_of(a) == hex_of(b),
    ensures
        a == b,
    decreases a.len(),
{
    lemma_hex(a);
    lemma_hex(b);
    if a.len() > 0 {
        let ha = hex_of(a);
        let hb = hex_of(b);
        let n = ha.len() as int;
        assert(ha[n - 1] == hb[n - 1]);
        assert(ha[n - 2] == hb[n - 2]);
        assert(hex_of(a.drop_last()) =~= ha.take(n - 2));
        assert(hex_of(b.drop_last()) =~= hb.take(n - 2));
        law_hex_is_injective(a.drop_last(), b.drop_last());
        lemma_hex_digit(a.last() as int / 16, b.last() as int / 16);
        lemma_hex_digit(a.last() as int % 16, b.last() as int % 16);
        assert(a =~= a.drop_last().push(a.last()));
        assert(b =~= b.drop_last().push(b.last()));
    } else {
        assert(a =~= b);
    }
}

proof fn lemma_hex_digit(m: int, n: int)
    requires
        0 <= m < 16,
        0 <= n < 16,
    ensures
        hex_digit(m) == hex_digit(n) ==> m == n,
{
}

proof fn lemma_hex(a: Seq<u8>)
    ensures
        hex_of(a).len() == 2 * a.len(),
        forall|i: int| 0 <= i < hex_of(a).len() ==> is_hex_digit(#[trigger] hex_of(a)[i]),
    decreases a.len(),
{
    if a.len() > 0 {
        lemma_hex(a.drop_last());
    }
}

/// Bundles that differ share a hash only where two different messages share a
/// SHA-256 digest.
pub proof fn law_shared_hash_is_a_collision(
    v1: Seq<char>,
    p1: Seq<char>,
    f1: Seq<(Seq<char>, Seq<char>)>,
    v2: Seq<char>,
    p2: Seq<char>,
    f2: Seq<(Seq<char>, Seq<char>)>,
)
    requires
        hash_of(v1, p1, f1) == hash_of(v2, p2, f2),
        v1 != v2 || p1 != p2 || f1 != f2,
    ensures
        ({
            let m1 = encode_utf8(bundle_text(v1, p1, f1));
            let m2 = encode_utf8(bundle_text(v2, p2, f2));
            m1 != m2 && sha256_of(m1) == sha256_of(m2)
        }),
{
    if bundle_text(v1, p1, f1) == bundle_text(v2, p2, f2) {
        law_bundles_are_told_apart(v1, p1, f1, v2, p2, f2);
    }
    let m1 = encode_utf8(bundle_text(v1, p1, f1));
    let m2 = encode_utf8(bundle_text(v2, p2, f2));
    law_hex_is_injective(sha256_of(m1), sha256_of(m2));
    vstd::utf8::encode_utf8_decode_utf8(bundle_text(v1, p1, f1));
    vstd::utf8::encode_utf8_decode_utf8(bundle_text(v2, p2, f2));
}

}
