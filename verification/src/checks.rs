//! The checks of a PKGBUILD's checksum, source and upstream fields.

use vstd::prelude::*;
use vstd::slice::slice_subrange;
use vstd::utf8::encode_scalar;
use vstd::utf8::encode_utf8;
use vstd::utf8::is_ascii_chars;

use crate::outside::all_matches;
use crate::outside::compile;
use crate::outside::first_group;
use crate::outside::lowercase;
use crate::outside::lowered;
use crate::outside::matches_view;
use crate::outside::regex_first_group;
use crate::outside::regex_matches;
use crate::outside::within;
use crate::outside::FieldMatch;
use crate::patterns::SOURCE_PATTERN;
use crate::patterns::SUMS_PATTERN;
use crate::patterns::URL_PATTERN;
use crate::report::findings_view;
use crate::report::opt_text;
use crate::report::Finding;
use crate::report::FindingView;
use crate::scanner::metadata_table;
use crate::text::after_first;
use crate::text::after_last;
use crate::text::ascii_lower;
use crate::text::ascii_lowered;
use crate::text::before_char;
use crate::text::begins;
use crate::text::behind_char;
use crate::text::chars_of;
use crate::text::cut;
use crate::text::cut_after_first;
use crate::text::cut_after_last;
use crate::text::cut_before;
use crate::text::cut_behind;
use crate::text::fields;
use crate::text::find_from;
use crate::text::find_text_from;
use crate::text::first_line;
use crate::text::is_one_line;
use crate::text::lemma_encode_concat;
use crate::text::lemma_find_from;
use crate::text::lemma_lines_cons;
use crate::text::lines;
use crate::text::occurs_at;
use crate::text::same_ignoring_ascii_case;
use crate::text::same_str;
use crate::text::slices;
use crate::text::split;
use crate::text::split_lines;
use crate::text::stands_at;
use crate::text::starts_with;
use crate::text::string_of;
use crate::text::trim;
use crate::text::trimmed;
use crate::text::truncate;
use crate::text::Class;

verus! {

// ---------------------------------------------------------------------------
// Lines and array entries
// ---------------------------------------------------------------------------

/// How many line feeds the bytes hold.
pub open spec fn line_feeds(b: Seq<u8>) -> int
    decreases b.len(),
{
    if b.len() == 0 {
        0
    } else {
        line_feeds(b.drop_last()) + if b.last() == 10 {
            1int
        } else {
            0
        }
    }
}

/// The number of the line, from 1, in which the byte at `offset` stands. An
/// offset beyond the end stands for the end.
pub open spec fn line_at(content: Seq<char>, offset: int) -> int {
    let b = encode_utf8(content);
    1 + line_feeds(
        b.take(
            if offset <= b.len() {
                offset
            } else {
                b.len() as int
            },
        ),
    )
}

/// The number of the line, from 1, in which the byte at `offset` stands.
pub fn byte_offset_to_line(content: &str, offset: usize) -> (n: usize)
    requires
        offset < usize::MAX || encode_utf8(content@).len() < usize::MAX,
    ensures
        n == line_at(content@, offset as int),
{
    let b: &[u8] = content.as_bytes();
    let end: usize = if offset <= b.len() {
        offset
    } else {
        b.len()
    };
    let mut count: usize = 0;
    let mut i: usize = 0;
    assert(b@.take(0) =~= Seq::<u8>::empty());
    while i < end
        invariant
            i <= end <= b@.len(),
            count == line_feeds(b@.take(i as int)),
            count <= i,
        decreases end - i,
    {
        assert(b@.take(i + 1).drop_last() =~= b@.take(i as int));
        if b[i] == 10 {
            count = count + 1;
        }
        i = i + 1;
    }
    count + 1
}

/// Whether each match starts inside the text.
pub open spec fn all_within(
    content: Seq<char>,
    arrays: Seq<(int, Seq<char>, Seq<char>)>,
) -> bool {
    forall|i: int| 0 <= i < arrays.len() ==> within(#[trigger] arrays[i], content)
}

/// Whether each finding is on one of the first `n` lines.
pub open spec fn are_placed(fs: Seq<FindingView>, n: int) -> bool {
    forall|i: int| 0 <= i < fs.len() ==> 1 <= (#[trigger] fs[i]).line <= n
}

proof fn lemma_high_bytes(x: u8)
    ensures
        0x80 | x >= 0x80,
        0xC0 | x >= 0x80,
        0xE0 | x >= 0x80,
        0xF0 | x >= 0x80,
{
    assert(0x80 | x >= 0x80 && 0xC0 | x >= 0x80 && 0xE0 | x >= 0x80 && 0xF0 | x >= 0x80)
        by (bit_vector);
}

pub(crate) proof fn lemma_feedless_scalar(c: u32)
    requires
        c != 10,
    ensures
        forall|i: int| 0 <= i < encode_scalar(c).len() ==> #[trigger] encode_scalar(c)[i] != 10,
{
    if c <= 0x7f {
        assert((c & 0x7f) as u8 != 10) by (bit_vector)
            requires
                c != 10,
                c <= 0x7f,
        ;
    }
    lemma_high_bytes(((c >> 6) & 0x1f) as u8);
    lemma_high_bytes(((c >> 12) & 0x0f) as u8);
    lemma_high_bytes(((c >> 18) & 0x7) as u8);
    lemma_high_bytes((c & 0x3f) as u8);
    lemma_high_bytes(((c >> 6) & 0x3f) as u8);
    lemma_high_bytes(((c >> 12) & 0x3f) as u8);
}

/// A text without a line feed is encoded without one.
proof fn lemma_feedless(s: Seq<char>)
    requires
        is_one_line(s),
    ensures
        forall|i: int| 0 <= i < encode_utf8(s).len() ==> #[trigger] encode_utf8(s)[i] != 10,
    decreases s.len(),
{
    if s.len() > 0 {
        let rest = s.drop_first();
        let c = s[0];
        assert(c != '\n');
        vstd::utf8::char_is_scalar(c);
        vstd::utf8::char_u32_cast(c, c as u32);
        assert(10u32 as char == '\n');
        assert forall|i: int| 0 <= i < rest.len() implies #[trigger] rest[i] != '\n' by {
            assert(rest[i] == s[i + 1]);
        }
        lemma_feedless_scalar(c as u32);
        lemma_feedless(rest);
        let a = encode_scalar(c as u32);
        let b = encode_utf8(rest);
        assert forall|i: int| 0 <= i < encode_utf8(s).len() implies #[trigger] encode_utf8(s)[i]
            != 10 by {
            assert(encode_utf8(s) == a + b);
            if i < a.len() {
                assert(encode_utf8(s)[i] == a[i]);
            } else {
                assert(encode_utf8(s)[i] == b[i - a.len()]);
            }
        }
    }
}

pub(crate) proof fn lemma_no_feeds(b: Seq<u8>)
    requires
        forall|i: int| 0 <= i < b.len() ==> #[trigger] b[i] != 10,
    ensures
        line_feeds(b) == 0,
    decreases b.len(),
{
    if b.len() > 0 {
        assert(b[b.len() - 1] != 10);
        assert forall|i: int| 0 <= i < b.drop_last().len() implies #[trigger] b.drop_last()[i]
            != 10 by {
            assert(b.drop_last()[i] == b[i]);
        }
        lemma_no_feeds(b.drop_last());
    }
}

pub(crate) proof fn lemma_feeds_add_up(a: Seq<u8>, b: Seq<u8>)
    ensures
        line_feeds(a + b) == line_feeds(a) + line_feeds(b),
    decreases b.len(),
{
    if b.len() == 0 {
        assert(a + b =~= a);
    } else {
        assert((a + b).drop_last() =~= a + b.drop_last());
        lemma_feeds_add_up(a, b.drop_last());
    }
}

/// A place inside a text is on one of its lines.
proof fn lemma_line_at(content: Seq<char>, offset: int)
    requires
        0 <= offset < encode_utf8(content).len(),
    ensures
        1 <= line_at(content, offset) <= lines(content).len(),
    decreases content.len(),
{
    let k = Class::Is('\n');
    let b = encode_utf8(content);
    let e = find_from(content, k, 0);
    lemma_find_from(content, k, 0);
    assert(content.len() > 0);
    let head = content.take(e);
    assert forall|i: int| 0 <= i < head.len() implies #[trigger] head[i] != '\n' by {
        assert(!k.holds(content[i]));
    }
    lemma_feedless(head);
    let hb = encode_utf8(head);
    if e == content.len() {
        assert(head =~= content);
        lemma_no_feeds(b.take(offset));
    } else {
        let tail = content.skip(e + 1);
        let tb = encode_utf8(tail);
        assert(content =~= head + seq!['\n'] + tail);
        lemma_lines_cons(head, tail);
        lemma_encode_concat(head + seq!['\n'], tail);
        lemma_encode_concat(head, seq!['\n']);
        assert(encode_utf8(seq!['\n']) =~= seq![10u8]) by {
            reveal_with_fuel(encode_utf8, 2);
            assert(seq!['\n'].drop_first() =~= Seq::<char>::empty());
            assert((10u32 & 0x7f) as u8 == 10) by (bit_vector);
        }
        assert(b =~= hb + seq![10u8] + tb);
        if offset <= hb.len() {
            let p = b.take(offset);
            assert forall|i: int| 0 <= i < p.len() implies #[trigger] p[i] != 10 by {
                assert(p[i] == hb[i]);
            }
            lemma_no_feeds(p);
        } else {
            let o = offset - hb.len() - 1;
            assert(b.take(offset) =~= hb + seq![10u8] + tb.take(o));
            lemma_feeds_add_up(hb + seq![10u8], tb.take(o));
            lemma_feeds_add_up(hb, seq![10u8]);
            assert(line_feeds(seq![10u8]) == 1) by {
                reveal_with_fuel(line_feeds, 2);
                assert(seq![10u8].drop_last() =~= Seq::<u8>::empty());
            }
            lemma_no_feeds(hb);
            lemma_line_at(tail, o);
        }
    }
}

/// The fields without their quotes, those left out that are then empty.
pub open spec fn unquoted(parts: Seq<Seq<char>>) -> Seq<Seq<char>>
    decreases parts.len(),
{
    if parts.len() == 0 {
        Seq::empty()
    } else {
        let t = trim(parts.last(), Class::Quote);
        if t.len() == 0 {
            unquoted(parts.drop_last())
        } else {
            unquoted(parts.drop_last()).push(t)
        }
    }
}

/// The entries of a bash array, given what stands between its parentheses.
pub open spec fn array_entries(inside: Seq<char>) -> Seq<Seq<char>> {
    unquoted(split(inside, Class::BlankOrComma))
}

/// The entries of a bash array, given what stands between its parentheses.
pub fn entries_of<'a>(inside: &'a [char]) -> (out: Vec<&'a [char]>)
    ensures
        slices(out@) == array_entries(inside@),
{
    let parts: Vec<&'a [char]> = fields(inside, Class::BlankOrComma);
    let ghost all = slices(parts@);
    let mut out: Vec<&'a [char]> = Vec::new();
    let mut i: usize = 0;
    assert(all.take(0) =~= Seq::<Seq<char>>::empty());
    assert(slices(out@) =~= unquoted(all.take(0)));
    while i < parts.len()
        invariant
            i <= parts@.len(),
            all == slices(parts@),
            slices(out@) == unquoted(all.take(i as int)),
        decreases parts@.len() - i,
    {
        assert(all.take(i + 1).drop_last() =~= all.take(i as int));
        assert(all.take(i + 1).last() == parts@[i as int]@);
        let t: &'a [char] = trimmed(parts[i], Class::Quote);
        if t.len() > 0 {
            let ghost before = out@;
            out.push(t);
            assert(slices(out@) =~= slices(before).push(t@));
        }
        i = i + 1;
    }
    assert(all.take(all.len() as int) =~= all);
    out
}

// ---------------------------------------------------------------------------
// Checksums
// ---------------------------------------------------------------------------

pub const AG080_TITLE: &'static str = "All checksums are SKIP";

pub const AG080_DESCRIPTION: &'static str = "The PKGBUILD disables integrity verification for ALL sources. Anyone who compromises the upstream server can swap the content without makepkg noticing.";

pub const AG081_TITLE: &'static str = "Source over an unencrypted channel (http/ftp)";

pub const AG081_DESCRIPTION: &'static str = "A plain HTTP/FTP source can be swapped by a network intermediary. Use HTTPS or git+https. If the source only exists over HTTP, demand a strict sha256/sha512 checksum.";

pub const AG082_TITLE: &'static str = "git repository over unencrypted HTTP";

pub const AG082_DESCRIPTION: &'static str = "git+http does not authenticate the server. Use git+https or git+ssh.";

pub const AG083_TITLE: &'static str = "Source domain does not match declared upstream URL";

pub const AG083_DESCRIPTION: &'static str = "The `url=` field points at one project, but a `source=` entry downloads from a different domain (or GitHub organisation). Classic impersonation pattern in malicious -bin packages — verify that the source really belongs to the project named by `url=`.";

/// The longest snippet, in bytes, before it is cut.
pub const SNIPPET_MAX: usize = 240;

/// A finding on a field of the PKGBUILD.
pub open spec fn field_finding(
    rule_id: Seq<char>,
    points: int,
    title: Seq<char>,
    description: Seq<char>,
    line: int,
    snippet: Seq<char>,
) -> FindingView {
    FindingView {
        rule_id,
        points,
        override_gate: false,
        title,
        description,
        line,
        snippet: cut(snippet, SNIPPET_MAX as int),
        source_file: None,
        is_new: false,
    }
}

fn new_field_finding(
    rule_id: &'static str,
    points: u32,
    title: &'static str,
    description: &'static str,
    line: usize,
    snippet: &[char],
) -> (f: Finding)
    ensures
        f@ == field_finding(
            rule_id@,
            points as int,
            title@,
            description@,
            line as int,
            snippet@,
        ),
{
    Finding {
        rule_id,
        points,
        override_gate: false,
        title,
        description,
        line,
        snippet: truncate(snippet, SNIPPET_MAX),
        source_file: None,
        is_new: false,
    }
}

/// Whether the finding has id, points and title of one of the checks, and no
/// gate.
pub open spec fn is_listed(f: FindingView) -> bool {
    &&& !f.override_gate
    &&& {
        ||| f.rule_id == "AG080"@ && f.points == 50 && f.title == AG080_TITLE@
        ||| f.rule_id == "AG081"@ && f.points == 35 && f.title == AG081_TITLE@
        ||| f.rule_id == "AG082"@ && f.points == 35 && f.title == AG082_TITLE@
        ||| f.rule_id == "AG083"@ && f.points == 50 && f.title == AG083_TITLE@
    }
}

/// Whether each finding is of one of the checks.
pub open spec fn are_listed(fs: Seq<FindingView>) -> bool {
    forall|i: int| 0 <= i < fs.len() ==> is_listed(#[trigger] fs[i])
}

/// Whether the finding is of the rule at place `j` of the table.
pub open spec fn is_of_rule(f: FindingView, j: int) -> bool {
    &&& 0 <= j < metadata_table().len()
    &&& metadata_table()[j].id == f.rule_id
    &&& metadata_table()[j].points == f.points
    &&& metadata_table()[j].override_gate == f.override_gate
    &&& metadata_table()[j].title == f.title
}

/// Whether the entry is the word that disables a checksum.
pub open spec fn is_skip(entry: Seq<char>) -> bool {
    ascii_lowered(entry) == ascii_lowered("SKIP"@)
}

/// Whether a checksum array has entries, and each of them disables the check.
pub open spec fn all_skipped(inside: Seq<char>) -> bool {
    let e = array_entries(inside);
    e.len() > 0 && forall|i: int| 0 <= i < e.len() ==> is_skip(#[trigger] e[i])
}

/// The finding on a checksum array that is all `SKIP`.
pub open spec fn skip_finding(
    content: Seq<char>,
    m: (int, Seq<char>, Seq<char>),
) -> FindingView {
    field_finding(
        "AG080"@,
        50,
        AG080_TITLE@,
        AG080_DESCRIPTION@,
        line_at(content, m.0),
        first_line(m.1),
    )
}

/// The finding on the first of the arrays, from place `from` on, that is all
/// `SKIP`.
pub open spec fn skip_findings_from(
    content: Seq<char>,
    arrays: Seq<(int, Seq<char>, Seq<char>)>,
    from: int,
) -> Seq<FindingView>
    decreases arrays.len() - from,
{
    if from >= arrays.len() {
        Seq::empty()
    } else if all_skipped(arrays[from].2) {
        seq![skip_finding(content, arrays[from])]
    } else {
        skip_findings_from(content, arrays, from + 1)
    }
}

/// What the checksum arrays of the PKGBUILD give rise to: one finding at
/// most. That integrity verification is disabled is a single property of the
/// PKGBUILD, not something that compounds per architecture.
pub open spec fn skip_findings(
    content: Seq<char>,
    arrays: Seq<(int, Seq<char>, Seq<char>)>,
) -> Seq<FindingView> {
    skip_findings_from(content, arrays, 0)
}

/// Whether each match starts where a text can hold one: before the largest
/// `usize`.
pub open spec fn starts_fit(arrays: Seq<FieldMatch>) -> bool {
    forall|i: int| 0 <= i < arrays.len() ==> (#[trigger] arrays[i]).start < usize::MAX
}

fn array_is_all_skipped(inside: &str) -> (b: bool)
    ensures
        b == all_skipped(inside@),
{
    let text: Vec<char> = chars_of(inside);
    let entries: Vec<&[char]> = entries_of(text.as_slice());
    let skip: Vec<char> = chars_of("SKIP");
    let ghost e = array_entries(inside@);
    if entries.len() == 0 {
        return false;
    }
    let mut i: usize = 0;
    while i < entries.len()
        invariant
            i <= entries@.len(),
            e == slices(entries@),
            e == array_entries(inside@),
            skip@ == "SKIP"@,
            forall|j: int| 0 <= j < i ==> is_skip(#[trigger] e[j]),
        decreases entries@.len() - i,
    {
        assert(e[i as int] == entries@[i as int]@);
        if !same_ignoring_ascii_case(entries[i], skip.as_slice()) {
            return false;
        }
        i = i + 1;
    }
    true
}

/// What the checksum arrays of the PKGBUILD give rise to.
pub fn skip_checksum_findings(content: &str, arrays: &Vec<FieldMatch>) -> (out: Vec<Finding>)
    requires
        starts_fit(arrays@),
    ensures
        findings_view(out@) == skip_findings(content@, matches_view(arrays@)),
{
    let ghost ms = matches_view(arrays@);
    let mut out: Vec<Finding> = Vec::new();
    let mut i: usize = 0;
    while i < arrays.len()
        invariant
            i <= arrays@.len(),
            ms == matches_view(arrays@),
            starts_fit(arrays@),
            out@.len() == 0,
            skip_findings(content@, ms) == skip_findings_from(content@, ms, i as int),
        decreases arrays@.len() - i,
    {
        assert(ms[i as int] == arrays@[i as int]@);
        if array_is_all_skipped(arrays[i].inside.as_str()) {
            let line: usize = byte_offset_to_line(content, arrays[i].start);
            let whole: Vec<char> = chars_of(arrays[i].whole.as_str());
            let ls: Vec<&[char]> = split_lines(whole.as_slice());
            let none: Vec<char> = Vec::new();
            let first: &[char] = if ls.len() > 0 {
                assert(slices(ls@)[0] == ls@[0]@);
                ls[0]
            } else {
                none.as_slice()
            };
            assert(first@ =~= first_line(whole@));
            out.push(
                new_field_finding("AG080", 50, AG080_TITLE, AG080_DESCRIPTION, line, first),
            );
            assert(findings_view(out@) =~= skip_findings(content@, ms));
            return out;
        }
        i = i + 1;
    }
    assert(findings_view(out@) =~= Seq::<FindingView>::empty());
    out
}

/// The matches of a field pattern in the PKGBUILD.
fn field_matches(pattern: &'static str, content: &str) -> (v: Vec<FieldMatch>)
    requires
        crate::patterns::is_field_pattern(pattern@),
    ensures
        matches_view(v@) == regex_matches(pattern@, content@),
        starts_fit(v@),
        all_within(content@, regex_matches(pattern@, content@)),
{
    let v: Vec<FieldMatch> = all_matches(&compile(pattern), content);
    let size: usize = content.as_bytes().len();
    assert forall|i: int| 0 <= i < v@.len() implies (#[trigger] v@[i]).start < usize::MAX by {
        assert(within(v@[i]@, content@));
    }
    let ghost ms = regex_matches(pattern@, content@);
    assert forall|i: int| 0 <= i < ms.len() implies within(#[trigger] ms[i], content@) by {
        assert(ms[i] == v@[i]@);
    }
    v
}

/// AG080: a checksum array of the PKGBUILD is all `SKIP`.
pub fn check_skip_checksums(content: &str) -> (out: Vec<Finding>)
    ensures
        findings_view(out@) == skip_findings(content@, regex_matches(SUMS_PATTERN@, content@)),
        are_placed(findings_view(out@), lines(content@).len() as int),
{
    let arrays: Vec<FieldMatch> = field_matches(SUMS_PATTERN, content);
    proof {
        lemma_checks(content@, regex_matches(SUMS_PATTERN@, content@), Seq::empty(), None);
    }
    skip_checksum_findings(content, &arrays)
}

// ---------------------------------------------------------------------------
// Sources
// ---------------------------------------------------------------------------

/// The part of a source entry that says where it comes from: what follows the
/// last `::`, or all of it.
pub open spec fn location(entry: Seq<char>) -> Seq<char> {
    after_last(entry, "::"@)
}

/// Whether the location names a plain HTTP or FTP server.
pub open spec fn is_plain(url: Seq<char>) -> bool {
    begins(url, "http://"@) || begins(url, "ftp://"@)
}

/// What a source entry on line `line` gives rise to.
pub open spec fn entry_findings(entry: Seq<char>, line: int) -> Seq<FindingView> {
    let url = location(entry);
    if begins(entry, "#"@) {
        Seq::empty()
    } else if is_plain(url) {
        seq![field_finding("AG081"@, 35, AG081_TITLE@, AG081_DESCRIPTION@, line, url)]
    } else if begins(url, "git+http://"@) {
        seq![field_finding("AG082"@, 35, AG082_TITLE@, AG082_DESCRIPTION@, line, url)]
    } else {
        Seq::empty()
    }
}

/// What the entries of a source array on line `line` give rise to, in their
/// order.
pub open spec fn entries_findings(entries: Seq<Seq<char>>, line: int) -> Seq<FindingView>
    decreases entries.len(),
{
    if entries.len() == 0 {
        Seq::empty()
    } else {
        entries_findings(entries.drop_last(), line) + entry_findings(entries.last(), line)
    }
}

/// What the source arrays of the PKGBUILD give rise to, in their order.
pub open spec fn source_findings(
    content: Seq<char>,
    arrays: Seq<(int, Seq<char>, Seq<char>)>,
) -> Seq<FindingView>
    decreases arrays.len(),
{
    if arrays.len() == 0 {
        Seq::empty()
    } else {
        source_findings(content, arrays.drop_last()) + entries_findings(
            array_entries(arrays.last().2),
            line_at(content, arrays.last().0),
        )
    }
}

/// A text cannot begin with both `http://` or `ftp://` and `git+http://`.
proof fn lemma_schemes_differ(url: Seq<char>)
    ensures
        !(is_plain(url) && begins(url, "git+http://"@)),
{
    reveal_strlit("http://");
    reveal_strlit("ftp://");
    reveal_strlit("git+http://");
    if is_plain(url) && begins(url, "git+http://"@) {
        assert(url[0] == url.subrange(0, 11)[0]);
        assert(url[0] == 'g');
        if begins(url, "http://"@) {
            assert(url[0] == url.subrange(0, 7)[0]);
        } else {
            assert(url[0] == url.subrange(0, 6)[0]);
        }
    }
}

/// Appends to `out` what one source entry gives rise to.
fn push_entry_findings(entry: &[char], line: usize, out: &mut Vec<Finding>)
    ensures
        findings_view(final(out)@) == findings_view(old(out)@) + entry_findings(
            entry@,
            line as int,
        ),
{
    let ghost given = findings_view(out@);
    if starts_with(entry, "#") {
        assert(findings_view(out@) =~= given + entry_findings(entry@, line as int));
        return ;
    }
    let url: &[char] = cut_after_last(entry, "::");
    if starts_with(url, "http://") || starts_with(url, "ftp://") {
        out.push(new_field_finding("AG081", 35, AG081_TITLE, AG081_DESCRIPTION, line, url));
    }
    if starts_with(url, "git+http://") {
        out.push(new_field_finding("AG082", 35, AG082_TITLE, AG082_DESCRIPTION, line, url));
    }
    proof {
        lemma_schemes_differ(url@);
    }
    assert(findings_view(out@) =~= given + entry_findings(entry@, line as int));
}

/// What the source arrays of the PKGBUILD give rise to.
pub fn source_array_findings(content: &str, arrays: &Vec<FieldMatch>) -> (out: Vec<Finding>)
    requires
        starts_fit(arrays@),
    ensures
        findings_view(out@) == source_findings(content@, matches_view(arrays@)),
{
    let ghost ms = matches_view(arrays@);
    let mut out: Vec<Finding> = Vec::new();
    let mut i: usize = 0;
    assert(ms.take(0) =~= Seq::<(int, Seq<char>, Seq<char>)>::empty());
    assert(findings_view(out@) =~= source_findings(content@, ms.take(0)));
    while i < arrays.len()
        invariant
            i <= arrays@.len(),
            ms == matches_view(arrays@),
            starts_fit(arrays@),
            findings_view(out@) == source_findings(content@, ms.take(i as int)),
        decreases arrays@.len() - i,
    {
        assert(ms[i as int] == arrays@[i as int]@);
        assert(ms.take(i + 1).drop_last() =~= ms.take(i as int));
        let line: usize = byte_offset_to_line(content, arrays[i].start);
        let text: Vec<char> = chars_of(arrays[i].inside.as_str());
        let entries: Vec<&[char]> = entries_of(text.as_slice());
        let ghost es = slices(entries@);
        let ghost given = findings_view(out@);
        let mut k: usize = 0;
        assert(es.take(0) =~= Seq::<Seq<char>>::empty());
        assert(findings_view(out@) =~= given + entries_findings(es.take(0), line as int));
        while k < entries.len()
            invariant
                k <= entries@.len(),
                es == slices(entries@),
                findings_view(out@) == given + entries_findings(es.take(k as int), line as int),
            decreases entries@.len() - k,
        {
            assert(es.take(k + 1).drop_last() =~= es.take(k as int));
            assert(es.take(k + 1).last() == entries@[k as int]@);
            push_entry_findings(entries[k], line, &mut out);
            assert(findings_view(out@) =~= given + entries_findings(es.take(k + 1), line as int));
            k = k + 1;
        }
        assert(es.take(es.len() as int) =~= es);
        i = i + 1;
    }
    assert(ms.take(ms.len() as int) =~= ms);
    out
}

/// AG081 and AG082: a source of the PKGBUILD comes over an unencrypted
/// channel.
pub fn check_source_array(content: &str) -> (out: Vec<Finding>)
    ensures
        findings_view(out@) == source_findings(
            content@,
            regex_matches(SOURCE_PATTERN@, content@),
        ),
        are_placed(findings_view(out@), lines(content@).len() as int),
{
    let arrays: Vec<FieldMatch> = field_matches(SOURCE_PATTERN, content);
    proof {
        lemma_checks(content@, Seq::empty(), regex_matches(SOURCE_PATTERN@, content@), None);
    }
    source_array_findings(content, &arrays)
}

// ---------------------------------------------------------------------------
// Upstream
// ---------------------------------------------------------------------------

/// Whether the host is a forge, where the organisation is part of who a
/// project is.
pub open spec fn is_forge(host: Seq<char>) -> bool {
    ||| host == "github.com"@
    ||| host == "gitlab.com"@
    ||| host == "codeberg.org"@
    ||| host == "bitbucket.org"@
}

/// The last two labels of a host name, or all of it where it has fewer.
pub open spec fn registered_domain(host: Seq<char>) -> Seq<char> {
    let labels = split(host, Class::Is('.'));
    if labels.len() < 2 {
        host
    } else {
        labels[labels.len() - 2] + "."@ + labels[labels.len() - 1]
    }
}

/// The host that a URL names, in lower case, without scheme, port and path.
pub open spec fn host_of(url: Seq<char>) -> Seq<char> {
    lowered(before_char(before_char(after_first(url, "://"@), '/'), ':'))
}

/// The first segment of a URL's path, in lower case.
pub open spec fn org_of(url: Seq<char>) -> Seq<char> {
    lowered(before_char(behind_char(after_first(url, "://"@), '/'), '/'))
}

/// Who a host belongs to, given the first segment of the path: on a forge the
/// host and the organisation, elsewhere the registered domain. Nobody where
/// there is no host.
pub open spec fn owner_of(host: Seq<char>, org: Seq<char>) -> Option<Seq<char>> {
    if host.len() == 0 {
        None
    } else if is_forge(host) {
        if org.len() == 0 {
            Some(host)
        } else {
            Some(host + "/"@ + org)
        }
    } else {
        Some(registered_domain(host))
    }
}

/// Who a URL belongs to.
pub open spec fn identity_of(url: Seq<char>) -> Option<Seq<char>> {
    owner_of(host_of(url), org_of(url))
}

fn lowercase_chars(s: &[char]) -> (r: Vec<char>)
    ensures
        r@ == lowered(s@),
{
    let given: String = string_of(s);
    let low: String = lowercase(given.as_str());
    chars_of(low.as_str())
}

fn forge(host: &[char]) -> (b: bool)
    ensures
        b == is_forge(host@),
{
    let h: String = string_of(host);
    same_str(h.as_str(), "github.com") || same_str(h.as_str(), "gitlab.com") || same_str(
        h.as_str(),
        "codeberg.org",
    ) || same_str(h.as_str(), "bitbucket.org")
}

/// Who a host in lower case belongs to, given the first segment of the path in
/// lower case.
pub fn owner(host: &[char], org: &[char]) -> (id: Option<String>)
    ensures
        opt_text(id) == owner_of(host@, org@),
{
    if host.len() == 0 {
        return None;
    }
    if forge(host) {
        let mut id: String = string_of(host);
        if org.len() > 0 {
            id.append("/");
            id.append(string_of(org).as_str());
        }
        return Some(id);
    }
    let labels: Vec<&[char]> = fields(host, Class::Is('.'));
    if labels.len() < 2 {
        return Some(string_of(host));
    }
    let n: usize = labels.len();
    assert(slices(labels@)[n - 2] == labels@[n - 2]@);
    assert(slices(labels@)[n - 1] == labels@[n - 1]@);
    let mut id: String = string_of(labels[n - 2]);
    id.append(".");
    id.append(string_of(labels[n - 1]).as_str());
    Some(id)
}

/// "Identity" of a URL for cross-check purposes:
///   - `github.com/<org>/...`  → `github.com/<org>` (org-level comparison)
///   - `<host>/...`            → `<registered-domain>` (eTLD+1, naive)
pub fn source_identity(url: &[char]) -> (id: Option<String>)
    ensures
        opt_text(id) == identity_of(url@),
{
    let after_scheme: &[char] = cut_after_first(url, "://");
    let host: Vec<char> = lowercase_chars(cut_before(cut_before(after_scheme, '/'), ':'));
    let org: Vec<char> = lowercase_chars(cut_before(cut_behind(after_scheme, '/'), '/'));
    owner(host.as_slice(), org.as_slice())
}

/// The location without the prefix of a version-control scheme, such as the
/// `git+` of `git+https://`.
pub open spec fn without_vcs(url: Seq<char>) -> Seq<char> {
    if begins(url, "git+"@) {
        url.subrange("git+"@.len() as int, url.len() as int)
    } else if begins(url, "svn+"@) {
        url.subrange("svn+"@.len() as int, url.len() as int)
    } else if begins(url, "hg+"@) {
        url.subrange("hg+"@.len() as int, url.len() as int)
    } else if begins(url, "bzr+"@) {
        url.subrange("bzr+"@.len() as int, url.len() as int)
    } else if begins(url, "fossil+"@) {
        url.subrange("fossil+"@.len() as int, url.len() as int)
    } else {
        url
    }
}

fn strip_prefix<'a>(s: &'a [char], prefix: &str) -> (r: Option<&'a [char]>)
    ensures
        match r {
            Some(rest) => begins(s@, prefix@) && rest@ == s@.subrange(
                prefix@.len() as int,
                s@.len() as int,
            ),
            None => !begins(s@, prefix@),
        },
{
    let p: Vec<char> = chars_of(prefix);
    if stands_at(s, p.as_slice(), 0) {
        Some(slice_subrange(s, p.len(), s.len()))
    } else {
        None
    }
}

/// Strips a version-control prefix: `git+`, `svn+`, `hg+`, `bzr+` or
/// `fossil+`.
pub fn strip_vcs_prefix(s: &[char]) -> (r: &[char])
    ensures
        r@ == without_vcs(s@),
{
    if let Some(rest) = strip_prefix(s, "git+") {
        return rest;
    }
    if let Some(rest) = strip_prefix(s, "svn+") {
        return rest;
    }
    if let Some(rest) = strip_prefix(s, "hg+") {
        return rest;
    }
    if let Some(rest) = strip_prefix(s, "bzr+") {
        return rest;
    }
    if let Some(rest) = strip_prefix(s, "fossil+") {
        return rest;
    }
    s
}

/// Whether a source entry is fetched over HTTP or HTTPS from someone other
/// than `upstream`.
pub open spec fn is_foreign(entry: Seq<char>, upstream: Seq<char>) -> bool {
    let url = without_vcs(location(entry));
    &&& !begins(entry, "#"@)
    &&& begins(url, "http://"@) || begins(url, "https://"@)
    &&& identity_of(url) is Some
    &&& identity_of(url) != Some(upstream)
}

/// What a source entry on line `line` gives rise to, where the PKGBUILD
/// declares the upstream `url`, which belongs to `upstream`.
pub open spec fn foreign_findings(
    entry: Seq<char>,
    line: int,
    url: Seq<char>,
    upstream: Seq<char>,
) -> Seq<FindingView> {
    if is_foreign(entry, upstream) {
        seq![
            field_finding(
                "AG083"@,
                50,
                AG083_TITLE@,
                AG083_DESCRIPTION@,
                line,
                "source="@ + location(entry) + "  vs  url="@ + url,
            ),
        ]
    } else {
        Seq::empty()
    }
}

/// What the entries of a source array give rise to, in their order.
pub open spec fn foreign_entries(
    entries: Seq<Seq<char>>,
    line: int,
    url: Seq<char>,
    upstream: Seq<char>,
) -> Seq<FindingView>
    decreases entries.len(),
{
    if entries.len() == 0 {
        Seq::empty()
    } else {
        foreign_entries(entries.drop_last(), line, url, upstream) + foreign_findings(
            entries.last(),
            line,
            url,
            upstream,
        )
    }
}

/// What the source arrays of the PKGBUILD give rise to, where it declares the
/// upstream `url`, which belongs to `upstream`.
pub open spec fn foreign_arrays(
    content: Seq<char>,
    arrays: Seq<(int, Seq<char>, Seq<char>)>,
    url: Seq<char>,
    upstream: Seq<char>,
) -> Seq<FindingView>
    decreases arrays.len(),
{
    if arrays.len() == 0 {
        Seq::empty()
    } else {
        foreign_arrays(content, arrays.drop_last(), url, upstream) + foreign_entries(
            array_entries(arrays.last().2),
            line_at(content, arrays.last().0),
            url,
            upstream,
        )
    }
}

/// What the source arrays give rise to where the PKGBUILD declares `url`, or
/// declares none.
pub open spec fn mismatch_findings(
    content: Seq<char>,
    url: Option<Seq<char>>,
    arrays: Seq<(int, Seq<char>, Seq<char>)>,
) -> Seq<FindingView> {
    match url {
        Some(u) => match identity_of(u) {
            Some(id) => foreign_arrays(content, arrays, u, id),
            None => Seq::empty(),
        },
        None => Seq::empty(),
    }
}

/// Appends to `out` what one source entry gives rise to.
fn push_foreign_findings(
    entry: &[char],
    line: usize,
    url: &str,
    upstream: &str,
    out: &mut Vec<Finding>,
)
    ensures
        findings_view(final(out)@) == findings_view(old(out)@) + foreign_findings(
            entry@,
            line as int,
            url@,
            upstream@,
        ),
{
    let ghost given = findings_view(out@);
    let place: &[char] = cut_after_last(entry, "::");
    let plain: &[char] = strip_vcs_prefix(place);
    if !starts_with(entry, "#") && (starts_with(plain, "http://") || starts_with(
        plain,
        "https://",
    )) {
        if let Some(id) = source_identity(plain) {
            if !same_str(id.as_str(), upstream) {
                let mut shown: String = "source=".to_owned();
                shown.append(string_of(place).as_str());
                shown.append("  vs  url=");
                shown.append(url);
                let snippet: Vec<char> = chars_of(shown.as_str());
                out.push(
                    new_field_finding(
                        "AG083",
                        50,
                        AG083_TITLE,
                        AG083_DESCRIPTION,
                        line,
                        snippet.as_slice(),
                    ),
                );
            }
        }
    }
    assert(findings_view(out@) =~= given + foreign_findings(entry@, line as int, url@, upstream@));
}

/// What the source arrays give rise to where the PKGBUILD declares `url`, or
/// declares none.
pub fn url_mismatch_findings(
    content: &str,
    url: Option<String>,
    arrays: &Vec<FieldMatch>,
) -> (out: Vec<Finding>)
    requires
        starts_fit(arrays@),
    ensures
        findings_view(out@) == mismatch_findings(
            content@,
            opt_text(url),
            matches_view(arrays@),
        ),
{
    let ghost ms = matches_view(arrays@);
    let mut out: Vec<Finding> = Vec::new();
    assert(findings_view(out@) =~= Seq::<FindingView>::empty());
    let url: String = match url {
        Some(u) => u,
        None => {
            return out;
        },
    };
    let url_chars: Vec<char> = chars_of(url.as_str());
    let upstream: String = match source_identity(url_chars.as_slice()) {
        Some(id) => id,
        None => {
            return out;
        },
    };
    let mut i: usize = 0;
    assert(ms.take(0) =~= Seq::<(int, Seq<char>, Seq<char>)>::empty());
    while i < arrays.len()
        invariant
            i <= arrays@.len(),
            ms == matches_view(arrays@),
            starts_fit(arrays@),
            findings_view(out@) == foreign_arrays(content@, ms.take(i as int), url@, upstream@),
        decreases arrays@.len() - i,
    {
        assert(ms[i as int] == arrays@[i as int]@);
        assert(ms.take(i + 1).drop_last() =~= ms.take(i as int));
        let line: usize = byte_offset_to_line(content, arrays[i].start);
        let text: Vec<char> = chars_of(arrays[i].inside.as_str());
        let entries: Vec<&[char]> = entries_of(text.as_slice());
        let ghost es = slices(entries@);
        let ghost given = findings_view(out@);
        let mut k: usize = 0;
        assert(es.take(0) =~= Seq::<Seq<char>>::empty());
        assert(findings_view(out@) =~= given + foreign_entries(
            es.take(0),
            line as int,
            url@,
            upstream@,
        ));
        while k < entries.len()
            invariant
                k <= entries@.len(),
                es == slices(entries@),
                findings_view(out@) == given + foreign_entries(
                    es.take(k as int),
                    line as int,
                    url@,
                    upstream@,
                ),
            decreases entries@.len() - k,
        {
            assert(es.take(k + 1).drop_last() =~= es.take(k as int));
            assert(es.take(k + 1).last() == entries@[k as int]@);
            push_foreign_findings(entries[k], line, url.as_str(), upstream.as_str(), &mut out);
            assert(findings_view(out@) =~= given + foreign_entries(
                es.take(k + 1),
                line as int,
                url@,
                upstream@,
            ));
            k = k + 1;
        }
        assert(es.take(es.len() as int) =~= es);
        i = i + 1;
    }
    assert(ms.take(ms.len() as int) =~= ms);
    out
}

/// AG083 — declared upstream (`url=`) does not match the domain of one or
/// more `source=()` entries. Catches fork impersonation typical of malicious
/// `-bin` packages that point at an attacker-controlled mirror.
pub fn check_url_vs_sources(content: &str) -> (out: Vec<Finding>)
    ensures
        findings_view(out@) == mismatch_findings(
            content@,
            regex_first_group(URL_PATTERN@, content@),
            regex_matches(SOURCE_PATTERN@, content@),
        ),
        are_placed(findings_view(out@), lines(content@).len() as int),
{
    let url: Option<String> = first_group(&compile(URL_PATTERN), content);
    let arrays: Vec<FieldMatch> = field_matches(SOURCE_PATTERN, content);
    proof {
        lemma_checks(
            content@,
            Seq::empty(),
            regex_matches(SOURCE_PATTERN@, content@),
            regex_first_group(URL_PATTERN@, content@),
        );
    }
    url_mismatch_findings(content, url, &arrays)
}

// ---------------------------------------------------------------------------
// Laws
// ---------------------------------------------------------------------------

/// Disabled integrity verification is reported once, however many arrays
/// disable it, and reported where one does.
pub proof fn law_skip_is_reported_once(
    content: Seq<char>,
    arrays: Seq<(int, Seq<char>, Seq<char>)>,
)
    ensures
        skip_findings(content, arrays).len() <= 1,
        skip_findings(content, arrays).len() == 1 <==> exists|i: int|
            0 <= i < arrays.len() && all_skipped((#[trigger] arrays[i]).2),
{
    lemma_skip_from(content, arrays, 0);
}

proof fn lemma_skip_from(
    content: Seq<char>,
    arrays: Seq<(int, Seq<char>, Seq<char>)>,
    from: int,
)
    requires
        0 <= from <= arrays.len(),
    ensures
        skip_findings_from(content, arrays, from).len() <= 1,
        skip_findings_from(content, arrays, from).len() == 1 <==> exists|i: int|
            from <= i < arrays.len() && all_skipped((#[trigger] arrays[i]).2),
        are_listed(skip_findings_from(content, arrays, from)),
        all_within(content, arrays) ==> are_placed(
            skip_findings_from(content, arrays, from),
            lines(content).len() as int,
        ),
    decreases arrays.len() - from,
{
    if from < arrays.len() {
        lemma_skip_from(content, arrays, from + 1);
        if exists|i: int| from + 1 <= i < arrays.len() && all_skipped((#[trigger] arrays[i]).2) {
            let i = choose|i: int|
                from + 1 <= i < arrays.len() && all_skipped((#[trigger] arrays[i]).2);
            assert(from <= i);
        }
        if all_within(content, arrays) {
            assert(within(arrays[from], content));
            lemma_line_at(content, arrays[from].0);
        }
    }
}

/// A single entry that is not `SKIP` keeps a checksum array from being
/// reported.
pub proof fn law_one_checksum_is_enough(inside: Seq<char>, i: int)
    requires
        0 <= i < array_entries(inside).len(),
        !is_skip(array_entries(inside)[i]),
    ensures
        !all_skipped(inside),
{
}

proof fn lemma_entries(entries: Seq<Seq<char>>, line: int)
    ensures
        are_listed(entries_findings(entries, line)),
        forall|i: int|
            0 <= i < entries_findings(entries, line).len() ==> (
            #[trigger] entries_findings(entries, line)[i]).line == line,
    decreases entries.len(),
{
    if entries.len() > 0 {
        lemma_entries(entries.drop_last(), line);
    }
}

proof fn lemma_sources(content: Seq<char>, arrays: Seq<(int, Seq<char>, Seq<char>)>)
    ensures
        are_listed(source_findings(content, arrays)),
        all_within(content, arrays) ==> are_placed(
            source_findings(content, arrays),
            lines(content).len() as int,
        ),
    decreases arrays.len(),
{
    if arrays.len() > 0 {
        let rest = arrays.drop_last();
        let m = arrays.last();
        lemma_sources(content, rest);
        lemma_entries(array_entries(m.2), line_at(content, m.0));
        if all_within(content, arrays) {
            assert forall|i: int| 0 <= i < rest.len() implies within(
                #[trigger] rest[i],
                content,
            ) by {
                assert(rest[i] == arrays[i]);
            }
            assert(within(arrays[arrays.len() - 1], content));
            lemma_line_at(content, m.0);
        }
    }
}

proof fn lemma_foreign_entries(
    entries: Seq<Seq<char>>,
    line: int,
    url: Seq<char>,
    upstream: Seq<char>,
)
    ensures
        are_listed(foreign_entries(entries, line, url, upstream)),
        forall|i: int|
            0 <= i < foreign_entries(entries, line, url, upstream).len() ==> (
            #[trigger] foreign_entries(entries, line, url, upstream)[i]).line == line,
    decreases entries.len(),
{
    if entries.len() > 0 {
        lemma_foreign_entries(entries.drop_last(), line, url, upstream);
    }
}

proof fn lemma_foreign_arrays(
    content: Seq<char>,
    arrays: Seq<(int, Seq<char>, Seq<char>)>,
    url: Seq<char>,
    upstream: Seq<char>,
)
    ensures
        are_listed(foreign_arrays(content, arrays, url, upstream)),
        all_within(content, arrays) ==> are_placed(
            foreign_arrays(content, arrays, url, upstream),
            lines(content).len() as int,
        ),
    decreases arrays.len(),
{
    if arrays.len() > 0 {
        let rest = arrays.drop_last();
        let m = arrays.last();
        lemma_foreign_arrays(content, rest, url, upstream);
        lemma_foreign_entries(array_entries(m.2), line_at(content, m.0), url, upstream);
        if all_within(content, arrays) {
            assert forall|i: int| 0 <= i < rest.len() implies within(
                #[trigger] rest[i],
                content,
            ) by {
                assert(rest[i] == arrays[i]);
            }
            assert(within(arrays[arrays.len() - 1], content));
            lemma_line_at(content, m.0);
        }
    }
}

/// What the checks find is of the rules that are listed for them, with their
/// points, and on a line of the text.
pub(crate) proof fn lemma_checks(
    content: Seq<char>,
    sums: Seq<(int, Seq<char>, Seq<char>)>,
    sources: Seq<(int, Seq<char>, Seq<char>)>,
    url: Option<Seq<char>>,
)
    ensures
        are_listed(skip_findings(content, sums)),
        are_listed(source_findings(content, sources)),
        are_listed(mismatch_findings(content, url, sources)),
        all_within(content, sums) ==> are_placed(
            skip_findings(content, sums),
            lines(content).len() as int,
        ),
        all_within(content, sources) ==> are_placed(
            source_findings(content, sources),
            lines(content).len() as int,
        ),
        all_within(content, sources) ==> are_placed(
            mismatch_findings(content, url, sources),
            lines(content).len() as int,
        ),
{
    lemma_skip_from(content, sums, 0);
    lemma_sources(content, sources);
    if let Some(u) = url {
        if let Some(id) = identity_of(u) {
            lemma_foreign_arrays(content, sources, u, id);
        }
    }
}

/// The checks and the rules that are listed for them keep in lockstep: each
/// finding is of one rule of the table, and has its points, its title, and no
/// gate.
pub proof fn law_checks_keep_lockstep(
    content: Seq<char>,
    sums: Seq<(int, Seq<char>, Seq<char>)>,
    sources: Seq<(int, Seq<char>, Seq<char>)>,
    url: Option<Seq<char>>,
    f: FindingView,
)
    requires
        skip_findings(content, sums).contains(f) || source_findings(content, sources).contains(f)
            || mismatch_findings(content, url, sources).contains(f),
    ensures
        exists|j: int| #[trigger] is_of_rule(f, j),
        forall|j: int, k: int|
            #[trigger] is_of_rule(f, j) && #[trigger] is_of_rule(f, k) ==> j == k,
{
    lemma_checks(content, sums, sources, url);
    let a = skip_findings(content, sums);
    let b = source_findings(content, sources);
    let c = mismatch_findings(content, url, sources);
    if a.contains(f) {
        let i = choose|i: int| 0 <= i < a.len() && a[i] == f;
        assert(is_listed(a[i]));
    } else if b.contains(f) {
        let i = choose|i: int| 0 <= i < b.len() && b[i] == f;
        assert(is_listed(b[i]));
    } else {
        let i = choose|i: int| 0 <= i < c.len() && c[i] == f;
        assert(is_listed(c[i]));
    }
    reveal_strlit("AG080");
    reveal_strlit("AG081");
    reveal_strlit("AG082");
    reveal_strlit("AG083");
    assert("AG080"@[4] == '0' && "AG081"@[4] == '1' && "AG082"@[4] == '2' && "AG083"@[4] == '3');
    if f.rule_id == "AG080"@ {
        assert(is_of_rule(f, 0));
    } else if f.rule_id == "AG081"@ {
        assert(is_of_rule(f, 1));
    } else if f.rule_id == "AG082"@ {
        assert(is_of_rule(f, 2));
    } else {
        assert(is_of_rule(f, 3));
    }
}

/// Nothing beyond the first segment of the path tells on whom a URL belongs
/// to, once it has a scheme and a path.
pub proof fn law_identity_ignores_the_further_path(url: Seq<char>, further: Seq<char>)
    requires
        find_text_from(url, "://"@, 0) is Some,
        ({
            let rest = after_first(url, "://"@);
            find_from(rest, Class::Is('/'), 0) < rest.len()
        }),
    ensures
        identity_of(url + "/"@ + further) == identity_of(url),
{
    reveal_strlit("/");
    let k = Class::Is('/');
    let longer = url + "/"@ + further;
    let r = after_first(url, "://"@);
    let s = after_first(longer, "://"@);
    lemma_find_text_prefix(url, longer, "://"@, 0);
    assert(s =~= r + "/"@ + further);
    let e = find_from(r, k, 0);
    lemma_find_from(r, k, 0);
    lemma_find_prefix(r, s, k, 0);
    assert(r.subrange(0, e) =~= s.subrange(0, e));
    let p = r.subrange(e + 1, r.len() as int);
    let q = s.subrange(e + 1, s.len() as int);
    assert(q =~= p + "/"@ + further);
    let i = find_from(p, k, 0);
    lemma_find_from(p, k, 0);
    if i < p.len() {
        lemma_find_prefix(p, q, k, 0);
    } else {
        lemma_find_at(q, k, 0, p.len() as int);
    }
    assert(p.subrange(0, i) =~= q.subrange(0, i));
}

proof fn lemma_find_text_prefix(a: Seq<char>, b: Seq<char>, p: Seq<char>, from: int)
    requires
        0 <= from,
        a.len() <= b.len(),
        forall|i: int| 0 <= i < a.len() ==> #[trigger] b[i] == a[i],
        find_text_from(a, p, from) is Some,
    ensures
        find_text_from(b, p, from) == find_text_from(a, p, from),
        from <= find_text_from(a, p, from)->0 <= a.len() - p.len(),
    decreases a.len() + 1 - from,
{
    if from + p.len() <= a.len() {
        assert(a.subrange(from, from + p.len()) =~= b.subrange(from, from + p.len()));
        if !occurs_at(a, p, from) {
            lemma_find_text_prefix(a, b, p, from + 1);
        }
    }
}

/// Whether the texts differ in the case of ASCII letters at most.
pub open spec fn alike(a: Seq<char>, b: Seq<char>) -> bool {
    ascii_lowered(a) == ascii_lowered(b)
}

proof fn lemma_alike_at(a: Seq<char>, b: Seq<char>)
    requires
        alike(a, b),
    ensures
        a.len() == b.len(),
        forall|i: int| 0 <= i < a.len() ==> ascii_lower(#[trigger] a[i]) == ascii_lower(b[i]),
{
    assert(ascii_lowered(a).len() == ascii_lowered(b).len());
    assert forall|i: int| 0 <= i < a.len() implies ascii_lower(#[trigger] a[i]) == ascii_lower(
        b[i],
    ) by {
        assert(ascii_lowered(a)[i] == ascii_lowered(b)[i]);
    }
}

proof fn lemma_alike_part(a: Seq<char>, b: Seq<char>, i: int, j: int)
    requires
        alike(a, b),
        0 <= i <= j <= a.len(),
    ensures
        alike(a.subrange(i, j), b.subrange(i, j)),
{
    lemma_alike_at(a, b);
    assert(ascii_lowered(a.subrange(i, j)) =~= ascii_lowered(b.subrange(i, j))) by {
        assert forall|m: int| 0 <= m < j - i implies ascii_lower(a.subrange(i, j)[m])
            == ascii_lower(b.subrange(i, j)[m]) by {
            assert(ascii_lower(a[i + m]) == ascii_lower(b[i + m]));
        }
    }
}

proof fn lemma_alike_find(a: Seq<char>, b: Seq<char>, c: char, from: int)
    requires
        alike(a, b),
        c == ':' || c == '/',
        0 <= from,
    ensures
        find_from(a, Class::Is(c), from) == find_from(b, Class::Is(c), from),
    decreases a.len() - from,
{
    lemma_alike_at(a, b);
    if from < a.len() {
        assert(ascii_lower(a[from]) == ascii_lower(b[from]));
        lemma_alike_find(a, b, c, from + 1);
    }
}

proof fn lemma_alike_find_text(a: Seq<char>, b: Seq<char>, from: int)
    requires
        alike(a, b),
        0 <= from,
    ensures
        find_text_from(a, "://"@, from) == find_text_from(b, "://"@, from),
        find_text_from(a, "://"@, from) matches Some(i) ==> 0 <= i <= a.len() - 3,
    decreases a.len() - from,
{
    reveal_strlit("://");
    let p = "://"@;
    lemma_alike_at(a, b);
    if from + 3 <= a.len() {
        let x = a.subrange(from, from + 3);
        let y = b.subrange(from, from + 3);
        assert forall|m: int| 0 <= m < 3 implies (x[m] == p[m] <==> y[m] == p[m]) by {
            assert(ascii_lower(a[from + m]) == ascii_lower(b[from + m]));
        }
        if x == p {
            assert(y =~= p);
        }
        if y == p {
            assert(x =~= p);
        }
        lemma_alike_find_text(a, b, from + 1);
    }
}

proof fn lemma_alike_lowered(a: Seq<char>, b: Seq<char>)
    requires
        alike(a, b),
        is_ascii_chars(a),
        is_ascii_chars(b),
    ensures
        lowered(a) == lowered(b),
{
}

/// ASCII case makes no difference to whom an ASCII URL belongs to.
pub proof fn law_identity_ignores_case(a: Seq<char>, b: Seq<char>)
    requires
        alike(a, b),
        is_ascii_chars(a),
        is_ascii_chars(b),
    ensures
        identity_of(a) == identity_of(b),
{
    lemma_alike_at(a, b);
    lemma_alike_find_text(a, b, 0);
    reveal_strlit("://");
    let r = after_first(a, "://"@);
    let s = after_first(b, "://"@);
    if let Some(i) = find_text_from(a, "://"@, 0) {
        lemma_alike_part(a, b, i + 3, a.len() as int);
    }
    lemma_alike_at(r, s);
    lemma_alike_find(r, s, '/', 0);
    let e = find_from(r, Class::Is('/'), 0);
    lemma_find_from(r, Class::Is('/'), 0);
    let h = r.subrange(0, e);
    let g = s.subrange(0, e);
    lemma_alike_part(r, s, 0, e);
    lemma_alike_find(h, g, ':', 0);
    let n = find_from(h, Class::Is(':'), 0);
    lemma_find_from(h, Class::Is(':'), 0);
    lemma_alike_part(h, g, 0, n);
    lemma_alike_lowered(h.subrange(0, n), g.subrange(0, n));
    let p = behind_char(r, '/');
    let q = behind_char(s, '/');
    if e < r.len() {
        lemma_alike_part(r, s, e + 1, r.len() as int);
    }
    lemma_alike_find(p, q, '/', 0);
    let m = find_from(p, Class::Is('/'), 0);
    lemma_find_from(p, Class::Is('/'), 0);
    lemma_alike_part(p, q, 0, m);
    lemma_alike_lowered(p.subrange(0, m), q.subrange(0, m));
}

/// Where the text goes on, what is found before its end stays where it was.
proof fn lemma_find_prefix(a: Seq<char>, b: Seq<char>, k: Class, from: int)
    requires
        0 <= from <= a.len() <= b.len(),
        forall|i: int| 0 <= i < a.len() ==> #[trigger] b[i] == a[i],
        find_from(a, k, from) < a.len(),
    ensures
        find_from(b, k, from) == find_from(a, k, from),
    decreases a.len() - from,
{
    assert(b[from] == a[from]);
    if !k.holds(a[from]) {
        lemma_find_prefix(a, b, k, from + 1);
    }
}

/// The first character of a class is found where none stands before it.
proof fn lemma_find_at(s: Seq<char>, k: Class, from: int, at: int)
    requires
        0 <= from <= at < s.len(),
        k.holds(s[at]),
        forall|i: int| from <= i < at ==> !k.holds(#[trigger] s[i]),
    ensures
        find_from(s, k, from) == at,
    decreases at - from,
{
    if from < at {
        assert(!k.holds(s[from]));
        lemma_find_at(s, k, from + 1, at);
    }
}

}
