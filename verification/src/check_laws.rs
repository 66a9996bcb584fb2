//! What the checks of the fields come to: which entries an array has, which of
//! them are reported, on which line, and who a URL belongs to.

use vstd::prelude::*;
use vstd::utf8::encode_utf8;
use vstd::utf8::is_ascii_chars;

use crate::checks::all_skipped;
use crate::checks::array_entries;
use crate::checks::entries_findings;
use crate::checks::entry_findings;
use crate::checks::foreign_arrays;
use crate::checks::foreign_entries;
use crate::checks::foreign_findings;
use crate::checks::host_of;
use crate::checks::identity_of;
use crate::checks::lemma_feedless_scalar;
use crate::checks::lemma_feeds_add_up;
use crate::checks::lemma_no_feeds;
use crate::checks::line_at;
use crate::checks::line_feeds;
use crate::checks::mismatch_findings;
use crate::checks::org_of;
use crate::checks::skip_findings;
use crate::checks::skip_findings_from;
use crate::checks::source_findings;
use crate::checks::unquoted;
use crate::checks::without_vcs;
use crate::report::FindingView;
use crate::text::after_first;
use crate::text::after_last;
use crate::text::ascii_lowered;
use crate::text::before_char;
use crate::text::begins;
use crate::text::behind_char;
use crate::text::byte_len;
use crate::text::cut;
use crate::text::find_from;
use crate::text::first_line;
use crate::text::lemma_encode_concat;
use crate::text::lemma_find_from;
use crate::text::split;
use crate::text::trim;
use crate::text::Class;
use crate::text_laws::law_after_first;
use crate::text_laws::law_fields_are_parted;
use crate::text_laws::law_unparted_text_is_one_field;

verus! {

// ---------------------------------------------------------------------------
// Lines
// ---------------------------------------------------------------------------

proof fn lemma_feeds_of_a_text(a: Seq<char>)
    ensures
        line_feeds(encode_utf8(a)) == a.filter(|c: char| c == '\n').len(),
    decreases a.len(),
{
    reveal(Seq::filter);
    if a.len() > 0 {
        let rest = a.drop_last();
        let c = a.last();
        lemma_feeds_of_a_text(rest);
        assert(a =~= rest + seq![c]);
        lemma_encode_concat(rest, seq![c]);
        lemma_feeds_add_up(encode_utf8(rest), encode_utf8(seq![c]));
        assert(encode_utf8(seq![c]) =~= vstd::utf8::encode_scalar(c as u32)) by {
            reveal_with_fuel(encode_utf8, 2);
            assert(seq![c].drop_first() =~= Seq::<char>::empty());
        }
        vstd::utf8::char_is_scalar(c);
        vstd::utf8::char_u32_cast(c, c as u32);
        assert(10u32 as char == '\n');
        if c == '\n' {
            assert((10u32 & 0x7f) as u8 == 10) by (bit_vector);
            assert(encode_utf8(seq![c]) =~= seq![10u8]);
            reveal_with_fuel(line_feeds, 2);
            assert(seq![10u8].drop_last() =~= Seq::<u8>::empty());
        } else {
            lemma_feedless_scalar(c as u32);
            lemma_no_feeds(encode_utf8(seq![c]));
        }
    }
}

/// A place in a text is on the line whose number is one more than the number
/// of line feeds before it. A place behind the end counts as the end.
pub proof fn law_line_of_a_place(a: Seq<char>, b: Seq<char>, beyond: int)
    requires
        0 <= beyond,
    ensures
        line_at(a + b, byte_len(a)) == 1 + a.filter(|c: char| c == '\n').len(),
        line_at(a, byte_len(a) + beyond) == line_at(a, byte_len(a)),
{
    lemma_encode_concat(a, b);
    lemma_feeds_of_a_text(a);
    assert(encode_utf8(a + b).take(byte_len(a)) =~= encode_utf8(a));
    assert(encode_utf8(a).take(byte_len(a)) =~= encode_utf8(a));
}

// ---------------------------------------------------------------------------
// Entries
// ---------------------------------------------------------------------------

proof fn lemma_unquoted_concat(a: Seq<Seq<char>>, b: Seq<Seq<char>>)
    ensures
        unquoted(a + b) == unquoted(a) + unquoted(b),
    decreases b.len(),
{
    if b.len() == 0 {
        assert(a + b =~= a);
        assert(unquoted(a) + unquoted(b) =~= unquoted(a));
    } else {
        assert((a + b).drop_last() =~= a + b.drop_last());
        lemma_unquoted_concat(a, b.drop_last());
        assert(unquoted(a + b) =~= unquoted(a) + unquoted(b));
    }
}

/// A blank or a comma parts the entries of an array: they are those of what
/// stands before it, then those of what stands behind it.
pub proof fn law_entries_are_parted(a: Seq<char>, c: char, b: Seq<char>)
    requires
        Class::BlankOrComma.holds(c),
    ensures
        array_entries(a + seq![c] + b) == array_entries(a) + array_entries(b),
{
    law_fields_are_parted(a, c, b, Class::BlankOrComma);
    lemma_unquoted_concat(split(a, Class::BlankOrComma), split(b, Class::BlankOrComma));
}

/// A text without blank and comma is one entry, without the quotes around it,
/// or none where nothing else is left.
pub proof fn law_one_entry(w: Seq<char>)
    requires
        forall|i: int| 0 <= i < w.len() ==> !Class::BlankOrComma.holds(#[trigger] w[i]),
    ensures
        array_entries(w) == (if trim(w, Class::Quote).len() == 0 {
            Seq::<Seq<char>>::empty()
        } else {
            seq![trim(w, Class::Quote)]
        }),
{
    law_unparted_text_is_one_field(w, Class::BlankOrComma);
    assert(unquoted(Seq::<Seq<char>>::empty()) =~= Seq::<Seq<char>>::empty());
    assert(seq![w].drop_last() =~= Seq::<Seq<char>>::empty());
    assert(Seq::<Seq<char>>::empty().push(trim(w, Class::Quote)) =~= seq![trim(w, Class::Quote)]);
}

/// What a finding of a check says.
pub open spec fn says(
    f: FindingView,
    id: Seq<char>,
    points: int,
    line: int,
    text: Seq<char>,
) -> bool {
    &&& f.rule_id == id
    &&& f.points == points
    &&& !f.override_gate
    &&& f.line == line
    &&& f.snippet == cut(text, 240)
    &&& f.source_file is None
    &&& !f.is_new
}

// ---------------------------------------------------------------------------
// Checksums
// ---------------------------------------------------------------------------

/// A checksum array disables verification where it has entries and each of
/// them is the word `skip` in whatever case.
pub proof fn law_all_skipped(inside: Seq<char>)
    ensures
        all_skipped(inside) <==> array_entries(inside).len() > 0 && forall|i: int|
            0 <= i < array_entries(inside).len() ==> ascii_lowered(
                #[trigger] array_entries(inside)[i],
            ) == "skip"@,
{
    reveal_strlit("SKIP");
    reveal_strlit("skip");
    assert(ascii_lowered("SKIP"@) =~= "skip"@);
    let e = array_entries(inside);
    if all_skipped(inside) {
        assert forall|i: int| 0 <= i < e.len() implies ascii_lowered(#[trigger] e[i])
            == "skip"@ by {
            assert(crate::checks::is_skip(e[i]));
        }
    }
}

proof fn lemma_first_skip(
    content: Seq<char>,
    arrays: Seq<(int, Seq<char>, Seq<char>)>,
    from: int,
    i: int,
)
    requires
        0 <= from <= i < arrays.len(),
        all_skipped(arrays[i].2),
        forall|j: int| 0 <= j < i ==> !all_skipped((#[trigger] arrays[j]).2),
    ensures
        skip_findings_from(content, arrays, from) == seq![
            crate::checks::skip_finding(content, arrays[i]),
        ],
    decreases i - from,
{
    if from < i {
        assert(!all_skipped(arrays[from].2));
        lemma_first_skip(content, arrays, from + 1, i);
    }
}

/// The first checksum array that is all `SKIP` is reported, on its line, and
/// no other.
pub proof fn law_first_skip_is_reported(
    content: Seq<char>,
    arrays: Seq<(int, Seq<char>, Seq<char>)>,
    i: int,
)
    requires
        0 <= i < arrays.len(),
        all_skipped(arrays[i].2),
        forall|j: int| 0 <= j < i ==> !all_skipped((#[trigger] arrays[j]).2),
    ensures
        skip_findings(content, arrays).len() == 1,
        says(
            skip_findings(content, arrays)[0],
            "AG080"@,
            50,
            line_at(content, arrays[i].0),
            first_line(arrays[i].1),
        ),
{
    lemma_first_skip(content, arrays, 0, i);
}

// ---------------------------------------------------------------------------
// Sources
// ---------------------------------------------------------------------------

/// Whether the location is fetched in the clear over HTTP or FTP.
pub open spec fn in_the_clear(url: Seq<char>) -> bool {
    ||| url.len() >= 7 && url.take(7) == "http://"@
    ||| url.len() >= 6 && url.take(6) == "ftp://"@
}

/// Whether the location is a git repository over HTTP in the clear.
pub open spec fn git_in_the_clear(url: Seq<char>) -> bool {
    url.len() >= 11 && url.take(11) == "git+http://"@
}

/// Whether the entry is to be reported: it is no comment, and what follows its
/// last `::` is fetched in the clear.
pub open spec fn is_exposed(entry: Seq<char>) -> bool {
    &&& entry.len() == 0 || entry[0] != '#'
    &&& in_the_clear(after_last(entry, "::"@)) || git_in_the_clear(after_last(entry, "::"@))
}

proof fn lemma_prefixes(url: Seq<char>, entry: Seq<char>)
    ensures
        begins(url, "http://"@) <==> url.len() >= 7 && url.take(7) == "http://"@,
        begins(url, "https://"@) <==> url.len() >= 8 && url.take(8) == "https://"@,
        begins(url, "ftp://"@) <==> url.len() >= 6 && url.take(6) == "ftp://"@,
        begins(url, "git+http://"@) <==> git_in_the_clear(url),
        begins(entry, "#"@) <==> entry.len() > 0 && entry[0] == '#',
        !(in_the_clear(url) && git_in_the_clear(url)),
{
    reveal_strlit("http://");
    reveal_strlit("https://");
    reveal_strlit("ftp://");
    reveal_strlit("git+http://");
    reveal_strlit("#");
    if url.len() >= 7 {
        assert(url.subrange(0, 7) =~= url.take(7));
        assert(url.take(7)[0] == url[0]);
    }
    if url.len() >= 8 {
        assert(url.subrange(0, 8) =~= url.take(8));
    }
    if url.len() >= 6 {
        assert(url.subrange(0, 6) =~= url.take(6));
        assert(url.take(6)[0] == url[0]);
    }
    if url.len() >= 11 {
        assert(url.subrange(0, 11) =~= url.take(11));
        assert(url.take(11)[0] == url[0]);
    }
    if entry.len() > 0 {
        assert(entry.subrange(0, 1)[0] == entry[0]);
        if entry[0] == '#' {
            assert(entry.subrange(0, 1) =~= "#"@);
        }
    }
}

/// What one entry gives rise to: one finding where it is exposed, else none.
pub proof fn law_exposed_entry(entry: Seq<char>, line: int)
    ensures
        !is_exposed(entry) ==> entry_findings(entry, line).len() == 0,
        is_exposed(entry) ==> entry_findings(entry, line).len() == 1,
        is_exposed(entry) && in_the_clear(after_last(entry, "::"@)) ==> says(
            entry_findings(entry, line)[0],
            "AG081"@,
            35,
            line,
            after_last(entry, "::"@),
        ),
        is_exposed(entry) && git_in_the_clear(after_last(entry, "::"@)) ==> says(
            entry_findings(entry, line)[0],
            "AG082"@,
            35,
            line,
            after_last(entry, "::"@),
        ),
{
    lemma_prefixes(after_last(entry, "::"@), entry);
}

/// The findings on two lists of entries are those on the first, then those on
/// the second, and those on an entry alone are its own.
pub proof fn law_entries_add_up(a: Seq<Seq<char>>, b: Seq<Seq<char>>, e: Seq<char>, line: int)
    ensures
        entries_findings(a + b, line) == entries_findings(a, line) + entries_findings(b, line),
        entries_findings(seq![e], line) == entry_findings(e, line),
        entries_findings(Seq::<Seq<char>>::empty(), line).len() == 0,
    decreases b.len(),
{
    assert(entries_findings(Seq::<Seq<char>>::empty(), line).len() == 0);
    assert(seq![e].drop_last() =~= Seq::<Seq<char>>::empty());
    assert(entries_findings(seq![e], line) =~= entry_findings(e, line));
    if b.len() == 0 {
        assert(a + b =~= a);
        assert(entries_findings(a, line) + entries_findings(b, line) =~= entries_findings(
            a,
            line,
        ));
    } else {
        assert((a + b).drop_last() =~= a + b.drop_last());
        law_entries_add_up(a, b.drop_last(), e, line);
        assert(entries_findings(a + b, line) =~= entries_findings(a, line) + entries_findings(
            b,
            line,
        ));
    }
}

/// The findings on two lists of source arrays are those on the first, then
/// those on the second, and those on an array alone are those on its entries,
/// on the line where it starts.
pub proof fn law_source_arrays_add_up(
    content: Seq<char>,
    a: Seq<(int, Seq<char>, Seq<char>)>,
    b: Seq<(int, Seq<char>, Seq<char>)>,
    m: (int, Seq<char>, Seq<char>),
)
    ensures
        source_findings(content, a + b) == source_findings(content, a) + source_findings(
            content,
            b,
        ),
        source_findings(content, seq![m]) == entries_findings(
            array_entries(m.2),
            line_at(content, m.0),
        ),
        source_findings(content, Seq::<(int, Seq<char>, Seq<char>)>::empty()).len() == 0,
    decreases b.len(),
{
    assert(source_findings(content, Seq::<(int, Seq<char>, Seq<char>)>::empty()).len() == 0);
    assert(seq![m].drop_last() =~= Seq::<(int, Seq<char>, Seq<char>)>::empty());
    assert(source_findings(content, seq![m]) =~= entries_findings(
        array_entries(m.2),
        line_at(content, m.0),
    ));
    if b.len() == 0 {
        assert(a + b =~= a);
        assert(source_findings(content, a) + source_findings(content, b) =~= source_findings(
            content,
            a,
        ));
    } else {
        assert((a + b).drop_last() =~= a + b.drop_last());
        law_source_arrays_add_up(content, a, b.drop_last(), m);
        assert(source_findings(content, a + b) =~= source_findings(content, a) + source_findings(
            content,
            b,
        ));
    }
}

/// Every exposed entry of every source array is reported, on the line of its
/// array and with its location.
pub proof fn law_every_exposed_source_is_reported(
    content: Seq<char>,
    arrays: Seq<(int, Seq<char>, Seq<char>)>,
    i: int,
    k: int,
)
    requires
        0 <= i < arrays.len(),
        0 <= k < array_entries(arrays[i].2).len(),
        is_exposed(array_entries(arrays[i].2)[k]),
    ensures
        exists|n: int|
            0 <= n < source_findings(content, arrays).len() && says(
                #[trigger] source_findings(content, arrays)[n],
                if in_the_clear(after_last(array_entries(arrays[i].2)[k], "::"@)) {
                    "AG081"@
                } else {
                    "AG082"@
                },
                35,
                line_at(content, arrays[i].0),
                after_last(array_entries(arrays[i].2)[k], "::"@),
            ),
{
    let m = arrays[i];
    let es = array_entries(m.2);
    let line = line_at(content, m.0);
    let x = arrays.take(i);
    let z = arrays.skip(i + 1);
    assert(arrays =~= x + seq![m] + z);
    law_source_arrays_add_up(content, x + seq![m], z, m);
    law_source_arrays_add_up(content, x, seq![m], m);
    let before = es.take(k);
    let after = es.skip(k + 1);
    assert(es =~= before + seq![es[k]] + after);
    law_entries_add_up(before + seq![es[k]], after, es[k], line);
    law_entries_add_up(before, seq![es[k]], es[k], line);
    law_exposed_entry(es[k], line);
    let n = source_findings(content, x).len() + entries_findings(before, line).len();
    assert(source_findings(content, arrays)[n as int] == entry_findings(es[k], line)[0]);
}

/// As many sources are reported as entries of the arrays are exposed.
pub proof fn law_as_many_as_are_exposed(
    content: Seq<char>,
    arrays: Seq<(int, Seq<char>, Seq<char>)>,
    m: (int, Seq<char>, Seq<char>),
)
    ensures
        source_findings(content, arrays.push(m)).len() == source_findings(content, arrays).len()
            + array_entries(m.2).filter(|e: Seq<char>| is_exposed(e)).len(),
{
    assert(arrays.push(m) =~= arrays + seq![m]);
    law_source_arrays_add_up(content, arrays, seq![m], m);
    lemma_exposed_count(array_entries(m.2), line_at(content, m.0));
}

proof fn lemma_exposed_count(es: Seq<Seq<char>>, line: int)
    ensures
        entries_findings(es, line).len() == es.filter(|e: Seq<char>| is_exposed(e)).len(),
    decreases es.len(),
{
    reveal(Seq::filter);
    if es.len() > 0 {
        lemma_exposed_count(es.drop_last(), line);
        law_exposed_entry(es.last(), line);
    }
}

// ---------------------------------------------------------------------------
// Owners
// ---------------------------------------------------------------------------

proof fn lemma_no_char(s: Seq<char>, c: char)
    requires
        !s.contains(c),
    ensures
        forall|i: int| 0 <= i < s.len() ==> #[trigger] s[i] != c,
{
    assert forall|i: int| 0 <= i < s.len() implies #[trigger] s[i] != c by {
        assert(s.contains(s[i]));
    }
}

proof fn lemma_before(a: Seq<char>, c: char, b: Seq<char>)
    requires
        !a.contains(c),
    ensures
        before_char(a + seq![c] + b, c) == a,
        behind_char(a + seq![c] + b, c) == b,
        before_char(a, c) == a,
        behind_char(a, c).len() == 0,
{
    let s = a + seq![c] + b;
    let k = Class::Is(c);
    lemma_no_char(a, c);
    lemma_find_from(s, k, 0);
    lemma_find_from(a, k, 0);
    let i = find_from(s, k, 0);
    assert(s[a.len() as int] == c);
    if i < a.len() {
        assert(s[i] == a[i]);
    }
    assert(s.subrange(0, i) =~= a);
    assert(s.subrange(i + 1, s.len() as int) =~= b);
    let j = find_from(a, k, 0);
    if j < a.len() {
        assert(a[j] == c);
    }
    assert(a.subrange(0, j) =~= a);
}

proof fn lemma_scheme(scheme: Seq<char>, rest: Seq<char>)
    requires
        !scheme.contains(':'),
    ensures
        after_first(scheme + "://"@ + rest, "://"@) == rest,
{
    reveal_strlit("://");
    let p = "://"@;
    let s = scheme + p + rest;
    let n = scheme.len() as int;
    law_after_first(s, p);
    lemma_no_char(scheme, ':');
    assert(s.subrange(n, n + p.len()) =~= p);
    let i = s.len() - p.len() - after_first(s, p).len();
    assert(i <= n);
    if i < n {
        assert((s.take(i) + p + after_first(s, p))[i] == p[0]);
        assert(s[i] == scheme[i]);
    }
    assert(after_first(s, p) =~= s.skip(n + p.len())) by {
        assert((s.take(i) + p + after_first(s, p)).skip(n + p.len()) =~= after_first(s, p));
    }
    assert(s.skip(n + p.len()) =~= rest);
}

/// Whether the host ends before the text: at a slash, at a port, or with it.
pub open spec fn ends_a_host(tail: Seq<char>) -> bool {
    tail.len() == 0 || tail[0] == '/' || tail[0] == ':'
}

proof fn lemma_host(scheme: Seq<char>, host: Seq<char>, tail: Seq<char>)
    requires
        !scheme.contains(':'),
        !host.contains('/'),
        !host.contains(':'),
        ends_a_host(tail),
        is_ascii_chars(host),
    ensures
        host_of(scheme + "://"@ + host + tail) == ascii_lowered(host),
{
    assert(scheme + "://"@ + host + tail =~= scheme + "://"@ + (host + tail));
    lemma_scheme(scheme, host + tail);
    let s = host + tail;
    let k = Class::Is('/');
    let e = find_from(s, k, 0);
    let n = host.len() as int;
    lemma_find_from(s, k, 0);
    lemma_no_char(host, '/');
    lemma_no_char(host, ':');
    if e < n {
        assert(s[e] == host[e]);
    }
    let x = s.subrange(0, e);
    let c = Class::Is(':');
    let i = find_from(x, c, 0);
    lemma_find_from(x, c, 0);
    if i < n {
        assert(x[i] == host[i]);
    }
    if tail.len() > 0 {
        assert(s[n] == tail[0]);
        if tail[0] == ':' {
            assert(!k.holds(s[n]));
            assert(x[n] == ':');
        }
    }
    assert(i == n);
    assert(x.subrange(0, i) =~= host);
}

/// Whether the text is in lower case as far as ASCII letters go.
pub open spec fn is_lower(s: Seq<char>) -> bool {
    ascii_lowered(s) == s
}

/// The four forges.
pub open spec fn is_known_forge(host: Seq<char>) -> bool {
    ||| host == "github.com"@
    ||| host == "gitlab.com"@
    ||| host == "codeberg.org"@
    ||| host == "bitbucket.org"@
}

proof fn lemma_forge_names(host: Seq<char>)
    requires
        is_known_forge(host),
    ensures
        !host.contains('/'),
        !host.contains(':'),
        is_ascii_chars(host),
        is_lower(host),
        host.len() > 0,
{
    reveal_strlit("github.com");
    reveal_strlit("gitlab.com");
    reveal_strlit("codeberg.org");
    reveal_strlit("bitbucket.org");
    assert(ascii_lowered(host) =~= host);
}

/// On each of the four forges a URL belongs to the organisation that its path
/// names first, in whatever case that is written, and whatever follows it.
/// Where the path names none, it belongs to the forge.
pub proof fn law_identity_on_a_forge(
    scheme: Seq<char>,
    host: Seq<char>,
    org: Seq<char>,
    rest: Seq<char>,
)
    requires
        !scheme.contains(':'),
        is_known_forge(host),
        !org.contains('/'),
        is_ascii_chars(org),
        rest.len() == 0 || rest[0] == '/',
    ensures
        org.len() > 0 ==> identity_of(scheme + "://"@ + host + ("/"@ + org + rest)) == Some(
            host + "/"@ + ascii_lowered(org),
        ),
        org.len() == 0 ==> identity_of(scheme + "://"@ + host + ("/"@ + org + rest)) == Some(host),
        identity_of(scheme + "://"@ + host + Seq::<char>::empty()) == Some(host),
{
    reveal_strlit("/");
    lemma_forge_names(host);
    let tail = "/"@ + org + rest;
    let url = scheme + "://"@ + host + tail;
    lemma_host(scheme, host, tail);
    lemma_host(scheme, host, Seq::empty());
    assert(url =~= scheme + "://"@ + (host + tail));
    lemma_scheme(scheme, host + tail);
    assert(host + tail =~= host + seq!['/'] + (org + rest));
    lemma_before(host, '/', org + rest);
    if rest.len() == 0 {
        assert(org + rest =~= org);
        lemma_before(org, '/', Seq::empty());
    } else {
        assert(org + rest =~= org + seq!['/'] + rest.skip(1));
        lemma_before(org, '/', rest.skip(1));
    }
    assert(org_of(url) == ascii_lowered(org));
    let bare = scheme + "://"@ + host + Seq::<char>::empty();
    assert(bare =~= scheme + "://"@ + host);
    lemma_scheme(scheme, host);
    lemma_before(host, '/', Seq::empty());
    let none = behind_char(host, '/');
    assert(before_char(none, '/').len() == 0) by {
        lemma_find_from(none, Class::Is('/'), 0);
    }
    assert(is_ascii_chars(before_char(none, '/')));
    assert(org_of(bare).len() == 0);
}

/// Who a URL belongs to is told by what follows its scheme alone: URLs alike in
/// that belong to the same, and one without a scheme belongs to whom it would
/// belong with one.
pub proof fn law_identity_ignores_the_scheme(u: Seq<char>, v: Seq<char>, scheme: Seq<char>)
    requires
        !scheme.contains(':'),
    ensures
        after_first(u, "://"@) == after_first(v, "://"@) ==> identity_of(u) == identity_of(v),
        after_first(u, "://"@) == u ==> identity_of(u) == identity_of(scheme + "://"@ + u),
{
    lemma_scheme(scheme, u);
}

/// Two organisations on one forge are two owners: a source at one is reported
/// against an upstream at the other, and a source at the same is not.
pub proof fn law_organisations_are_told_apart(
    host: Seq<char>,
    a: Seq<char>,
    b: Seq<char>,
    x: Seq<char>,
    y: Seq<char>,
)
    requires
        is_known_forge(host),
        !a.contains('/'),
        !b.contains('/'),
        a.len() > 0,
        b.len() > 0,
        is_ascii_chars(a),
        is_ascii_chars(b),
        x.len() == 0 || x[0] == '/',
        y.len() == 0 || y[0] == '/',
    ensures
        identity_of("https"@ + "://"@ + host + ("/"@ + a + x)) == identity_of(
            "https"@ + "://"@ + host + ("/"@ + b + y),
        ) <==> ascii_lowered(a) == ascii_lowered(b),
{
    reveal_strlit("https");
    law_identity_on_a_forge("https"@, host, a, x);
    law_identity_on_a_forge("https"@, host, b, y);
    let p = host + "/"@;
    if p + ascii_lowered(a) == p + ascii_lowered(b) {
        assert(ascii_lowered(a) =~= (p + ascii_lowered(a)).skip(p.len() as int));
        assert(ascii_lowered(b) =~= (p + ascii_lowered(b)).skip(p.len() as int));
    }
}

proof fn lemma_domain(sub: Seq<char>, a: Seq<char>, b: Seq<char>)
    requires
        !a.contains('.'),
        !b.contains('.'),
        sub.len() == 0 || sub.last() == '.',
    ensures
        crate::checks::registered_domain(sub + a + "."@ + b) == a + "."@ + b,
{
    reveal_strlit(".");
    let k = Class::Is('.');
    lemma_no_char(a, '.');
    lemma_no_char(b, '.');
    law_unparted_text_is_one_field(a, k);
    law_unparted_text_is_one_field(b, k);
    let end = a + seq!['.'] + b;
    law_fields_are_parted(a, '.', b, k);
    assert(split(end, k) =~= seq![a, b]);
    let host = sub + a + "."@ + b;
    if sub.len() == 0 {
        assert(host =~= end);
    } else {
        let s = sub.drop_last();
        assert(host =~= s + seq!['.'] + end);
        law_fields_are_parted(s, '.', end, k);
        let n = split(host, k).len();
        assert(split(host, k)[n - 1] == b);
        assert(split(host, k)[n - 2] == a);
    }
}

/// Elsewhere a URL belongs to the last two labels of its host, whatever stands
/// before them, whatever port, and whatever path.
pub proof fn law_identity_elsewhere(
    scheme: Seq<char>,
    sub: Seq<char>,
    a: Seq<char>,
    b: Seq<char>,
    tail: Seq<char>,
)
    requires
        !scheme.contains(':'),
        !(sub + a + "."@ + b).contains('/'),
        !(sub + a + "."@ + b).contains(':'),
        !a.contains('.'),
        !b.contains('.'),
        sub.len() == 0 || sub.last() == '.',
        is_ascii_chars(sub + a + "."@ + b),
        is_lower(sub + a + "."@ + b),
        !is_known_forge(sub + a + "."@ + b),
        ends_a_host(tail),
    ensures
        identity_of(scheme + "://"@ + (sub + a + "."@ + b) + tail) == Some(a + "."@ + b),
{
    reveal_strlit(".");
    let host = sub + a + "."@ + b;
    lemma_host(scheme, host, tail);
    lemma_domain(sub, a, b);
}

/// A host of one label is its own owner, and a URL without a host has none.
pub proof fn law_identity_of_a_bare_host(scheme: Seq<char>, host: Seq<char>, tail: Seq<char>)
    requires
        !scheme.contains(':'),
        !host.contains('/'),
        !host.contains(':'),
        !host.contains('.'),
        is_ascii_chars(host),
        is_lower(host),
        ends_a_host(tail),
    ensures
        host.len() > 0 ==> identity_of(scheme + "://"@ + host + tail) == Some(host),
        host.len() == 0 ==> identity_of(scheme + "://"@ + host + tail) is None,
{
    lemma_host(scheme, host, tail);
    lemma_no_char(host, '.');
    law_unparted_text_is_one_field(host, Class::Is('.'));
    reveal_strlit("github.com");
    reveal_strlit("gitlab.com");
    reveal_strlit("codeberg.org");
    reveal_strlit("bitbucket.org");
    assert("github.com"@[6] == '.' && "gitlab.com"@[6] == '.' && "codeberg.org"@[8] == '.'
        && "bitbucket.org"@[9] == '.');
}

/// One prefix of a version-control scheme is taken off a location, and no
/// other text is.
pub proof fn law_vcs_prefixes(rest: Seq<char>, url: Seq<char>)
    ensures
        without_vcs("git+"@ + rest) == rest,
        without_vcs("svn+"@ + rest) == rest,
        without_vcs("hg+"@ + rest) == rest,
        without_vcs("bzr+"@ + rest) == rest,
        without_vcs("fossil+"@ + rest) == rest,
        (url.len() == 0 || url[0] == 'h' && url.len() > 1 && url[1] == 't' || url[0] == 'f'
            && url.len() > 1 && url[1] == 't') ==> without_vcs(url) == url,
        without_vcs(url) == url || url == "git+"@ + without_vcs(url) || url == "svn+"@
            + without_vcs(url) || url == "hg+"@ + without_vcs(url) || url == "bzr+"@ + without_vcs(
            url,
        ) || url == "fossil+"@ + without_vcs(url),
{
    reveal_strlit("git+");
    reveal_strlit("svn+");
    reveal_strlit("hg+");
    reveal_strlit("bzr+");
    reveal_strlit("fossil+");
    lemma_stripped("git+"@, rest);
    lemma_stripped("svn+"@, rest);
    lemma_stripped("hg+"@, rest);
    lemma_stripped("bzr+"@, rest);
    lemma_stripped("fossil+"@, rest);
    lemma_starts("svn+"@, "git+"@, rest);
    lemma_starts("hg+"@, "git+"@, rest);
    lemma_starts("hg+"@, "svn+"@, rest);
    lemma_starts("bzr+"@, "git+"@, rest);
    lemma_starts("bzr+"@, "svn+"@, rest);
    lemma_starts("bzr+"@, "hg+"@, rest);
    lemma_starts("fossil+"@, "git+"@, rest);
    lemma_starts("fossil+"@, "svn+"@, rest);
    lemma_starts("fossil+"@, "hg+"@, rest);
    lemma_starts("fossil+"@, "bzr+"@, rest);
    lemma_put_back(url, "git+"@);
    lemma_put_back(url, "svn+"@);
    lemma_put_back(url, "hg+"@);
    lemma_put_back(url, "bzr+"@);
    lemma_put_back(url, "fossil+"@);
}

proof fn lemma_stripped(p: Seq<char>, rest: Seq<char>)
    ensures
        begins(p + rest, p),
        (p + rest).subrange(p.len() as int, (p + rest).len() as int) == rest,
{
    assert((p + rest).subrange(0, p.len() as int) =~= p);
    assert((p + rest).subrange(p.len() as int, (p + rest).len() as int) =~= rest);
}

proof fn lemma_starts(p: Seq<char>, q: Seq<char>, rest: Seq<char>)
    requires
        p.len() > 0,
        q.len() > 0,
        p[0] != q[0],
    ensures
        !begins(p + rest, q),
{
    if begins(p + rest, q) {
        assert((p + rest).subrange(0, q.len() as int)[0] == p[0]);
    }
}

proof fn lemma_put_back(url: Seq<char>, p: Seq<char>)
    requires
        p.len() > 1,
    ensures
        begins(url, p) ==> url == p + url.subrange(p.len() as int, url.len() as int),
        begins(url, p) ==> url.len() > 1 && url[0] == p[0] && url[1] == p[1],
{
    if begins(url, p) {
        assert(url.subrange(0, p.len() as int)[0] == url[0]);
        assert(url.subrange(0, p.len() as int)[1] == url[1]);
        assert(url =~= url.subrange(0, p.len() as int) + url.subrange(
            p.len() as int,
            url.len() as int,
        ));
    }
}

/// Whether the entry is fetched over HTTP or HTTPS from someone other than the
/// upstream: it is no comment, what follows its last `::` is a web address
/// once a version-control prefix is taken off, and that address has an owner,
/// who is another.
pub open spec fn is_someone_elses(entry: Seq<char>, upstream: Seq<char>) -> bool {
    let url = without_vcs(after_last(entry, "::"@));
    &&& entry.len() == 0 || entry[0] != '#'
    &&& (url.len() >= 7 && url.take(7) == "http://"@) || (url.len() >= 8 && url.take(8)
        == "https://"@)
    &&& identity_of(url) is Some
    &&& identity_of(url) != Some(upstream)
}

/// What one entry gives rise to where an upstream is declared: one finding
/// where it is someone else's, else none.
pub proof fn law_foreign_entry(
    entry: Seq<char>,
    line: int,
    url: Seq<char>,
    upstream: Seq<char>,
)
    ensures
        !is_someone_elses(entry, upstream) ==> foreign_findings(entry, line, url, upstream).len()
            == 0,
        is_someone_elses(entry, upstream) ==> foreign_findings(entry, line, url, upstream).len()
            == 1 && says(
            foreign_findings(entry, line, url, upstream)[0],
            "AG083"@,
            50,
            line,
            "source="@ + after_last(entry, "::"@) + "  vs  url="@ + url,
        ),
{
    lemma_prefixes(without_vcs(after_last(entry, "::"@)), entry);
}

/// The findings on two lists of entries are those on the first, then those on
/// the second.
pub proof fn law_foreign_entries_add_up(
    a: Seq<Seq<char>>,
    b: Seq<Seq<char>>,
    e: Seq<char>,
    line: int,
    url: Seq<char>,
    upstream: Seq<char>,
)
    ensures
        foreign_entries(a + b, line, url, upstream) == foreign_entries(a, line, url, upstream)
            + foreign_entries(b, line, url, upstream),
        foreign_entries(seq![e], line, url, upstream) == foreign_findings(e, line, url, upstream),
        foreign_entries(Seq::<Seq<char>>::empty(), line, url, upstream).len() == 0,
    decreases b.len(),
{
    assert(foreign_entries(Seq::<Seq<char>>::empty(), line, url, upstream).len() == 0);
    assert(seq![e].drop_last() =~= Seq::<Seq<char>>::empty());
    assert(foreign_entries(seq![e], line, url, upstream) =~= foreign_findings(
        e,
        line,
        url,
        upstream,
    ));
    if b.len() == 0 {
        assert(a + b =~= a);
        assert(foreign_entries(a, line, url, upstream) + foreign_entries(b, line, url, upstream)
            =~= foreign_entries(a, line, url, upstream));
    } else {
        assert((a + b).drop_last() =~= a + b.drop_last());
        law_foreign_entries_add_up(a, b.drop_last(), e, line, url, upstream);
        assert(foreign_entries(a + b, line, url, upstream) =~= foreign_entries(
            a,
            line,
            url,
            upstream,
        ) + foreign_entries(b, line, url, upstream));
    }
}

/// The findings on two lists of source arrays are those on the first, then
/// those on the second, where an upstream with an owner is declared.
pub proof fn law_foreign_arrays_add_up(
    content: Seq<char>,
    a: Seq<(int, Seq<char>, Seq<char>)>,
    b: Seq<(int, Seq<char>, Seq<char>)>,
    m: (int, Seq<char>, Seq<char>),
    url: Seq<char>,
    upstream: Seq<char>,
)
    requires
        identity_of(url) == Some(upstream),
    ensures
        mismatch_findings(content, Some(url), a + b) == mismatch_findings(content, Some(url), a)
            + mismatch_findings(content, Some(url), b),
        mismatch_findings(content, Some(url), seq![m]) == foreign_entries(
            array_entries(m.2),
            line_at(content, m.0),
            url,
            upstream,
        ),
        mismatch_findings(content, Some(url), Seq::<(int, Seq<char>, Seq<char>)>::empty()).len()
            == 0,
    decreases b.len(),
{
    assert(foreign_arrays(content, Seq::<(int, Seq<char>, Seq<char>)>::empty(), url, upstream).len() == 0);
    assert(seq![m].drop_last() =~= Seq::<(int, Seq<char>, Seq<char>)>::empty());
    assert(foreign_arrays(content, seq![m], url, upstream) =~= foreign_entries(
        array_entries(m.2),
        line_at(content, m.0),
        url,
        upstream,
    ));
    if b.len() == 0 {
        assert(a + b =~= a);
        assert(foreign_arrays(content, a, url, upstream) + foreign_arrays(content, b, url, upstream)
            =~= foreign_arrays(content, a, url, upstream));
    } else {
        assert((a + b).drop_last() =~= a + b.drop_last());
        law_foreign_arrays_add_up(content, a, b.drop_last(), m, url, upstream);
        assert(foreign_arrays(content, a + b, url, upstream) =~= foreign_arrays(
            content,
            a,
            url,
            upstream,
        ) + foreign_arrays(content, b, url, upstream));
    }
}

/// Every entry of every source array that is someone else's is reported, on
/// the line of its array, against the declared upstream.
pub proof fn law_every_foreign_source_is_reported(
    content: Seq<char>,
    arrays: Seq<(int, Seq<char>, Seq<char>)>,
    url: Seq<char>,
    upstream: Seq<char>,
    i: int,
    k: int,
)
    requires
        identity_of(url) == Some(upstream),
        0 <= i < arrays.len(),
        0 <= k < array_entries(arrays[i].2).len(),
        is_someone_elses(array_entries(arrays[i].2)[k], upstream),
    ensures
        exists|n: int|
            0 <= n < mismatch_findings(content, Some(url), arrays).len() && says(
                #[trigger] mismatch_findings(content, Some(url), arrays)[n],
                "AG083"@,
                50,
                line_at(content, arrays[i].0),
                "source="@ + after_last(array_entries(arrays[i].2)[k], "::"@) + "  vs  url="@
                    + url,
            ),
{
    let m = arrays[i];
    let es = array_entries(m.2);
    let line = line_at(content, m.0);
    let x = arrays.take(i);
    let z = arrays.skip(i + 1);
    assert(arrays =~= x + seq![m] + z);
    law_foreign_arrays_add_up(content, x + seq![m], z, m, url, upstream);
    law_foreign_arrays_add_up(content, x, seq![m], m, url, upstream);
    let before = es.take(k);
    let after = es.skip(k + 1);
    assert(es =~= before + seq![es[k]] + after);
    law_foreign_entries_add_up(before + seq![es[k]], after, es[k], line, url, upstream);
    law_foreign_entries_add_up(before, seq![es[k]], es[k], line, url, upstream);
    law_foreign_entry(es[k], line, url, upstream);
    let n = mismatch_findings(content, Some(url), x).len() + foreign_entries(
        before,
        line,
        url,
        upstream,
    ).len();
    assert(mismatch_findings(content, Some(url), arrays)[n as int] == foreign_findings(
        es[k],
        line,
        url,
        upstream,
    )[0]);
}

/// Where no upstream is declared, or it has no owner, nothing is reported
/// against it.
pub proof fn law_no_upstream_no_mismatch(
    content: Seq<char>,
    url: Seq<char>,
    arrays: Seq<(int, Seq<char>, Seq<char>)>,
)
    ensures
        mismatch_findings(content, None, arrays).len() == 0,
        identity_of(url) is None ==> mismatch_findings(content, Some(url), arrays).len() == 0,
{
}

/// A source at one organisation of a forge is someone else's where the
/// upstream is another organisation there.
pub proof fn law_other_organisation_is_someone_else(
    host: Seq<char>,
    a: Seq<char>,
    b: Seq<char>,
    x: Seq<char>,
    y: Seq<char>,
    entry: Seq<char>,
    upstream: Seq<char>,
)
    requires
        is_known_forge(host),
        !a.contains('/'),
        !b.contains('/'),
        a.len() > 0,
        b.len() > 0,
        is_ascii_chars(a),
        is_ascii_chars(b),
        ascii_lowered(a) != ascii_lowered(b),
        x.len() == 0 || x[0] == '/',
        y.len() == 0 || y[0] == '/',
        entry.len() > 0 && entry[0] != '#',
        after_last(entry, "::"@) == "https"@ + "://"@ + host + ("/"@ + b + y),
        identity_of("https"@ + "://"@ + host + ("/"@ + a + x)) == Some(upstream),
    ensures
        is_someone_elses(entry, upstream),
{
    let url = "https"@ + "://"@ + host + ("/"@ + b + y);
    reveal_strlit("https");
    reveal_strlit("://");
    reveal_strlit("https://");
    assert(url.take(8) =~= "https://"@);
    law_vcs_prefixes(url, url);
    law_organisations_are_told_apart(host, a, b, x, y);
    law_identity_on_a_forge("https"@, host, b, y);
}

}
