//! What the notions of [`crate::text`] and [`crate::numeral`] come to: each
//! law says of every text what a result is, character by character, or how
//! the results on two texts relate.

use vstd::prelude::*;
use vstd::utf8::is_ascii_chars;

use crate::numeral::decimal;
use crate::numeral::read_number;
use crate::numeral::signed_decimal;
use crate::numeral::value;
use crate::outside::lowered;
use crate::outside::unicode_lowercase;
use crate::text::after_first;
use crate::text::after_last;
use crate::text::ascii_lower;
use crate::text::ascii_lowered;
use crate::text::before_char;
use crate::text::begins;
use crate::text::behind_char;
use crate::text::byte_len;
use crate::text::cut;
use crate::text::cut_display;
use crate::text::find_from;
use crate::text::find_text_from;
use crate::text::first_line;
use crate::text::fitting_prefix;
use crate::text::is_blank;
use crate::text::is_piece;
use crate::text::lemma_find_from;
use crate::text::lemma_find_shift;
use crate::text::lemma_lines_cons;
use crate::text::lines;
use crate::text::listed;
use crate::text::nonblank;
use crate::text::occurs_at;
use crate::text::rfind_text_from;
use crate::text::split;
use crate::text::split_from;
use crate::text::trim;
use crate::text::trim_end;
use crate::text::trim_start;
use crate::text::Class;

verus! {

// ---------------------------------------------------------------------------
// Searching
// ---------------------------------------------------------------------------

/// A text stands in another exactly where that other is something, then the
/// text, then something more; and it begins the other where nothing stands
/// before it.
pub proof fn law_where_a_text_stands(a: Seq<char>, p: Seq<char>, b: Seq<char>, s: Seq<char>, i: int)
    ensures
        occurs_at(a + p + b, p, a.len() as int),
        begins(p + b, p),
        is_piece(p, a + p + b),
        occurs_at(s, p, i) ==> 0 <= i <= s.len() && s == s.take(i) + p + s.skip(i + p.len()),
        begins(s, p) ==> s == p + s.skip(p.len() as int),
{
    let t = a + p + b;
    assert(t.subrange(a.len() as int, a.len() as int + p.len()) =~= p);
    assert(occurs_at(t, p, a.len() as int));
    assert((p + b).subrange(0, p.len() as int) =~= p);
    if occurs_at(s, p, i) {
        assert(s =~= s.take(i) + s.subrange(i, i + p.len()) + s.skip(i + p.len()));
    }
    if begins(s, p) {
        assert(s =~= s.subrange(0, p.len() as int) + s.skip(p.len() as int));
    }
}

/// The classes: blanks alone, blanks and the comma, the two quotes, and one
/// character.
pub proof fn law_classes(c: char, d: char)
    ensures
        Class::Blank.holds(c) == is_blank(c),
        Class::BlankOrComma.holds(c) <==> is_blank(c) || c == ',',
        Class::Quote.holds(c) <==> c == '\'' || c == '"',
        Class::Is(d).holds(c) <==> c == d,
        is_blank(' ') && is_blank('\t') && is_blank('\n') && is_blank('\r'),
        33 <= c as int <= 126 ==> !is_blank(c),
{
}

/// Where the first character of a class stands: no earlier one is of the
/// class. Where there is none, the end of the text is named.
pub proof fn law_first_of_a_class(s: Seq<char>, k: Class)
    ensures
        ({
            let i = find_from(s, k, 0);
            &&& 0 <= i <= s.len()
            &&& forall|j: int| 0 <= j < i ==> !k.holds(#[trigger] s[j])
            &&& i < s.len() ==> k.holds(s[i])
        }),
{
    lemma_find_from(s, k, 0);
}

proof fn lemma_find_text(s: Seq<char>, p: Seq<char>, from: int)
    requires
        0 <= from,
    ensures
        match find_text_from(s, p, from) {
            Some(i) => {
                &&& from <= i <= s.len() - p.len()
                &&& s.subrange(i, i + p.len()) == p
                &&& forall|j: int|
                    from <= j < i ==> #[trigger] s.subrange(j, j + p.len()) != p
            },
            None => forall|j: int|
                from <= j <= s.len() - p.len() ==> #[trigger] s.subrange(j, j + p.len()) != p,
        },
    decreases s.len() + 1 - from,
{
    if from + p.len() <= s.len() && !occurs_at(s, p, from) {
        lemma_find_text(s, p, from + 1);
    }
}

proof fn lemma_rfind_text(s: Seq<char>, p: Seq<char>, from: int)
    requires
        from <= s.len() - p.len(),
    ensures
        match rfind_text_from(s, p, from) {
            Some(i) => {
                &&& 0 <= i <= from
                &&& s.subrange(i, i + p.len()) == p
                &&& forall|j: int|
                    i < j <= from ==> #[trigger] s.subrange(j, j + p.len()) != p
            },
            None => forall|j: int|
                0 <= j <= from ==> #[trigger] s.subrange(j, j + p.len()) != p,
        },
    decreases from + 1,
{
    if from >= 0 && !occurs_at(s, p, from) {
        lemma_rfind_text(s, p, from - 1);
    }
}

/// What follows the first `p`: the text is a part without `p`, then `p`, then
/// that. A text without `p` is kept.
pub proof fn law_after_first(s: Seq<char>, p: Seq<char>)
    ensures
        (forall|j: int| 0 <= j <= s.len() - p.len() ==> #[trigger] s.subrange(j, j + p.len()) != p)
            ==> after_first(s, p) == s,
        (exists|j: int| 0 <= j <= s.len() - p.len() && #[trigger] s.subrange(j, j + p.len()) == p)
            ==> ({
            let i = s.len() - p.len() - after_first(s, p).len();
            &&& 0 <= i
            &&& s == s.take(i) + p + after_first(s, p)
            &&& forall|j: int| 0 <= j < i ==> #[trigger] s.subrange(j, j + p.len()) != p
        }),
{
    lemma_find_text(s, p, 0);
    if let Some(i) = find_text_from(s, p, 0) {
        assert(s =~= s.take(i) + s.subrange(i, i + p.len()) + s.subrange(
            i + p.len(),
            s.len() as int,
        ));
    }
}

/// What follows the last `p`: the text is some part, then `p`, then that, and
/// no `p` starts any later. A text without `p` is kept.
pub proof fn law_after_last(s: Seq<char>, p: Seq<char>)
    ensures
        (forall|j: int| 0 <= j <= s.len() - p.len() ==> #[trigger] s.subrange(j, j + p.len()) != p)
            ==> after_last(s, p) == s,
        (exists|j: int| 0 <= j <= s.len() - p.len() && #[trigger] s.subrange(j, j + p.len()) == p)
            ==> ({
            let i = s.len() - p.len() - after_last(s, p).len();
            &&& 0 <= i
            &&& s == s.take(i) + p + after_last(s, p)
            &&& forall|j: int|
                i < j <= s.len() - p.len() ==> #[trigger] s.subrange(j, j + p.len()) != p
        }),
{
    lemma_rfind_text(s, p, s.len() - p.len());
    if let Some(i) = rfind_text_from(s, p, s.len() - p.len()) {
        assert(s =~= s.take(i) + s.subrange(i, i + p.len()) + s.subrange(
            i + p.len(),
            s.len() as int,
        ));
    }
}

/// A text is what stands before its first `c`, then `c`, then what stands
/// behind it; without a `c` it stands before it as a whole.
pub proof fn law_parted_at_a_character(s: Seq<char>, c: char)
    ensures
        !before_char(s, c).contains(c),
        s.contains(c) ==> s == before_char(s, c) + seq![c] + behind_char(s, c),
        !s.contains(c) ==> before_char(s, c) == s && behind_char(s, c).len() == 0,
{
    let k = Class::Is(c);
    let i = find_from(s, k, 0);
    lemma_find_from(s, k, 0);
    let b = before_char(s, c);
    assert forall|j: int| 0 <= j < b.len() implies b[j] != c by {
        assert(!k.holds(s[j]));
    }
    if s.contains(c) {
        let j = choose|j: int| 0 <= j < s.len() && s[j] == c;
        assert(k.holds(s[j]));
        assert(s =~= b + seq![c] + behind_char(s, c));
    } else {
        if i < s.len() {
            assert(s[i] == c);
        }
        assert(b =~= s);
    }
}

// ---------------------------------------------------------------------------
// Splitting
// ---------------------------------------------------------------------------

proof fn lemma_split_shift(s: Seq<char>, k: Class, p: int, i: int)
    requires
        0 <= p <= s.len(),
        0 <= i <= s.len() - p,
    ensures
        split_from(s, k, p + i) == split_from(s.skip(p), k, i),
    decreases s.len() - p - i,
{
    let t = s.skip(p);
    lemma_find_shift(s, k, p, i);
    lemma_find_from(s, k, p + i);
    let j = find_from(t, k, i);
    if j < t.len() {
        lemma_split_shift(s, k, p, j + 1);
        assert(s.subrange(p + i, p + j) =~= t.subrange(i, j));
    } else {
        assert(s.subrange(p + i, s.len() as int) =~= t.subrange(i, t.len() as int));
    }
}

proof fn lemma_split_first(a: Seq<char>, c: char, b: Seq<char>, k: Class)
    requires
        k.holds(c),
        forall|i: int| 0 <= i < a.len() ==> !k.holds(#[trigger] a[i]),
    ensures
        split(a + seq![c] + b, k) == seq![a] + split(b, k),
{
    let s = a + seq![c] + b;
    let n = a.len() as int;
    lemma_find_from(s, k, 0);
    let i = find_from(s, k, 0);
    assert(s[n] == c);
    if i < n {
        assert(s[i] == a[i]);
    }
    assert(i == n);
    assert(s.subrange(0, n) =~= a);
    lemma_split_shift(s, k, n + 1, 0);
    assert(s.skip(n + 1) =~= b);
}

/// A text without a character of the class is one field.
pub proof fn law_unparted_text_is_one_field(s: Seq<char>, k: Class)
    requires
        forall|i: int| 0 <= i < s.len() ==> !k.holds(#[trigger] s[i]),
    ensures
        split(s, k) == seq![s],
{
    lemma_find_from(s, k, 0);
    let i = find_from(s, k, 0);
    if i < s.len() {
        assert(k.holds(s[i]));
    }
    assert(s.subrange(0, s.len() as int) =~= s);
}

/// A character of the class parts a text: the fields are those of what stands
/// before it, then those of what stands behind it.
pub proof fn law_fields_are_parted(a: Seq<char>, c: char, b: Seq<char>, k: Class)
    requires
        k.holds(c),
    ensures
        split(a + seq![c] + b, k) == split(a, k) + split(b, k),
    decreases a.len(),
{
    lemma_find_from(a, k, 0);
    let i = find_from(a, k, 0);
    if i == a.len() {
        law_unparted_text_is_one_field(a, k);
        lemma_split_first(a, c, b, k);
    } else {
        let head = a.take(i);
        let tail = a.skip(i + 1);
        assert forall|j: int| 0 <= j < head.len() implies !k.holds(#[trigger] head[j]) by {
            assert(!k.holds(a[j]));
        }
        assert(a =~= head + seq![a[i]] + tail);
        assert(a + seq![c] + b =~= head + seq![a[i]] + (tail + seq![c] + b));
        lemma_split_first(head, a[i], tail, k);
        lemma_split_first(head, a[i], tail + seq![c] + b, k);
        law_fields_are_parted(tail, c, b, k);
        assert(split(a + seq![c] + b, k) =~= split(a, k) + split(b, k));
    }
}

/// A line feed ends a line, and takes a carriage return before it along. What
/// is left at the end of a text is a line where it is not empty.
pub proof fn law_lines(a: Seq<char>, rest: Seq<char>)
    requires
        !a.contains('\n'),
    ensures
        lines(a + seq!['\n'] + rest) == seq![
            if a.len() > 0 && a.last() == '\r' {
                a.drop_last()
            } else {
                a
            },
        ] + lines(rest),
        a.len() > 0 ==> lines(a) == seq![a],
        lines(Seq::<char>::empty()).len() == 0,
{
    assert forall|i: int| 0 <= i < a.len() implies #[trigger] a[i] != '\n' by {
        assert(a.contains(a[i]));
    }
    lemma_lines_cons(a, rest);
    if a.len() > 0 {
        lemma_find_from(a, Class::Is('\n'), 0);
        let i = find_from(a, Class::Is('\n'), 0);
        if i < a.len() {
            assert(a[i] != '\n');
        }
        assert(a.subrange(0, a.len() as int) =~= a);
    }
}

/// The first line of a text is its first line; an empty text has none.
pub proof fn law_first_line(s: Seq<char>)
    ensures
        lines(s).len() > 0 ==> first_line(s) == lines(s)[0],
        s.len() == 0 ==> first_line(s).len() == 0,
{
}

/// The lines of two lists that are not blank are those of the first, then
/// those of the second. A line alone is kept without the blanks around it, and
/// left out where nothing is left of it.
pub proof fn law_nonblank_lines(a: Seq<Seq<char>>, b: Seq<Seq<char>>, l: Seq<char>)
    ensures
        nonblank(a + b) == nonblank(a) + nonblank(b),
        nonblank(seq![l]) == (if trim(l, Class::Blank).len() == 0 {
            Seq::<Seq<char>>::empty()
        } else {
            seq![trim(l, Class::Blank)]
        }),
        nonblank(Seq::<Seq<char>>::empty()).len() == 0,
    decreases b.len(),
{
    assert(nonblank(Seq::<Seq<char>>::empty()) =~= Seq::<Seq<char>>::empty());
    assert(seq![l].drop_last() =~= Seq::<Seq<char>>::empty());
    assert(Seq::<Seq<char>>::empty().push(trim(l, Class::Blank)) =~= seq![trim(l, Class::Blank)]);
    if b.len() == 0 {
        assert(a + b =~= a);
        assert(nonblank(a) + nonblank(b) =~= nonblank(a));
    } else {
        assert((a + b).drop_last() =~= a + b.drop_last());
        law_nonblank_lines(a, b.drop_last(), l);
        assert(nonblank(a + b) =~= nonblank(a) + nonblank(b));
    }
}

/// A text lists its lines that are not blank.
pub proof fn law_listed_names(body: Seq<char>, l: Seq<char>)
    ensures
        listed(body) == nonblank(lines(body)),
        listed(body).contains(l) ==> l.len() > 0 && exists|i: int|
            0 <= i < lines(body).len() && l == trim(#[trigger] lines(body)[i], Class::Blank),
        (l.len() > 0 && exists|i: int|
            0 <= i < lines(body).len() && l == trim(#[trigger] lines(body)[i], Class::Blank))
            ==> listed(body).contains(l),
{
    lemma_nonblank_contains(lines(body), l);
}

proof fn lemma_nonblank_contains(ls: Seq<Seq<char>>, l: Seq<char>)
    ensures
        nonblank(ls).contains(l) <==> l.len() > 0 && exists|i: int|
            0 <= i < ls.len() && l == trim(#[trigger] ls[i], Class::Blank),
    decreases ls.len(),
{
    if ls.len() > 0 {
        let rest = ls.drop_last();
        let t = trim(ls.last(), Class::Blank);
        lemma_nonblank_contains(rest, l);
        if nonblank(ls).contains(l) {
            let k = choose|k: int| 0 <= k < nonblank(ls).len() && nonblank(ls)[k] == l;
            if t.len() > 0 && k == nonblank(ls).len() - 1 {
                assert(ls[ls.len() - 1] == ls.last());
            } else {
                assert(nonblank(rest)[k] == l);
                let i = choose|i: int|
                    0 <= i < rest.len() && l == trim(#[trigger] rest[i], Class::Blank);
                assert(ls[i] == rest[i]);
            }
        }
        if l.len() > 0 && exists|i: int|
            0 <= i < ls.len() && l == trim(#[trigger] ls[i], Class::Blank) {
            let i = choose|i: int| 0 <= i < ls.len() && l == trim(#[trigger] ls[i], Class::Blank);
            if i < rest.len() {
                assert(rest[i] == ls[i]);
                let k = choose|k: int| 0 <= k < nonblank(rest).len() && nonblank(rest)[k] == l;
                assert(nonblank(ls)[k] == l);
            } else {
                assert(nonblank(ls)[nonblank(ls).len() - 1] == l);
            }
        }
    }
}

// ---------------------------------------------------------------------------
// Trimming and cutting
// ---------------------------------------------------------------------------

proof fn lemma_trim_start(s: Seq<char>, k: Class) -> (i: int)
    ensures
        0 <= i <= s.len(),
        trim_start(s, k) == s.skip(i),
        forall|j: int| 0 <= j < i ==> k.holds(#[trigger] s[j]),
        i < s.len() ==> !k.holds(s[i]),
    decreases s.len(),
{
    if s.len() > 0 && k.holds(s[0]) {
        let t = s.drop_first();
        let i = lemma_trim_start(t, k);
        assert(t.skip(i) =~= s.skip(i + 1));
        assert forall|j: int| 0 <= j < i + 1 implies k.holds(#[trigger] s[j]) by {
            if j > 0 {
                assert(s[j] == t[j - 1]);
            }
        }
        i + 1
    } else {
        assert(s.skip(0) =~= s);
        0
    }
}

proof fn lemma_trim_end(s: Seq<char>, k: Class) -> (n: int)
    ensures
        0 <= n <= s.len(),
        trim_end(s, k) == s.take(n),
        forall|j: int| n <= j < s.len() ==> k.holds(#[trigger] s[j]),
        n > 0 ==> !k.holds(s[n - 1]),
    decreases s.len(),
{
    if s.len() > 0 && k.holds(s.last()) {
        let t = s.drop_last();
        let n = lemma_trim_end(t, k);
        assert(t.take(n) =~= s.take(n));
        assert forall|j: int| n <= j < s.len() implies k.holds(#[trigger] s[j]) by {
            if j < t.len() {
                assert(s[j] == t[j]);
            }
        }
        n
    } else {
        assert(s.take(s.len() as int) =~= s);
        s.len() as int
    }
}

/// Trimming takes off characters of the class at both ends, all of them, and
/// nothing else: what is left is a stretch of the text that neither starts nor
/// ends with one, and what was taken off is of the class.
pub proof fn law_trim(s: Seq<char>, k: Class)
    ensures
        exists|i: int, n: int|
            0 <= i <= n <= s.len() && trim(s, k) == #[trigger] s.subrange(i, n) && (forall|j: int|
                0 <= j < i || n <= j < s.len() ==> k.holds(#[trigger] s[j])) && (i < n
                ==> !k.holds(s[i]) && !k.holds(s[n - 1])),
{
    let i = lemma_trim_start(s, k);
    let t = s.skip(i);
    let m = lemma_trim_end(t, k);
    let n = i + m;
    assert(t.take(m) =~= s.subrange(i, n));
    assert forall|j: int| 0 <= j < i || n <= j < s.len() implies k.holds(#[trigger] s[j]) by {
        if n <= j {
            assert(s[j] == t[j - i]);
        }
    }
    if m > 0 {
        assert(s[n - 1] == t[m - 1]);
    }
}

/// A text whose ends are not of the class is not trimmed, and what is of the
/// class around it is trimmed away.
pub proof fn law_trim_leaves_the_inside(a: Seq<char>, s: Seq<char>, b: Seq<char>, k: Class)
    requires
        s.len() > 0,
        !k.holds(s[0]),
        !k.holds(s.last()),
        forall|j: int| 0 <= j < a.len() ==> k.holds(#[trigger] a[j]),
        forall|j: int| 0 <= j < b.len() ==> k.holds(#[trigger] b[j]),
    ensures
        trim(a + s + b, k) == s,
{
    let t = a + s + b;
    law_trim(t, k);
    let (i, n) = choose|i: int, n: int|
        0 <= i <= n <= t.len() && trim(t, k) == #[trigger] t.subrange(i, n) && (forall|j: int|
            0 <= j < i || n <= j < t.len() ==> k.holds(#[trigger] t[j])) && (i < n ==> !k.holds(
            t[i],
        ) && !k.holds(t[n - 1]));
    let x = a.len() as int;
    let y = x + s.len();
    assert(t[x] == s[0]);
    assert(t[y - 1] == s.last());
    assert(i <= x && y <= n);
    if i < x {
        assert(t[i] == a[i]);
    }
    if y < n {
        assert(t[n - 1] == b[n - 1 - y]);
    }
    assert(t.subrange(x, y) =~= s);
}

/// Where a text is cut, no longer prefix would have fitted.
pub proof fn law_cut_keeps_what_fits(s: Seq<char>, max: int, n: int)
    requires
        byte_len(s) > max,
        0 <= n <= s.len(),
        byte_len(s.take(n)) <= max,
    ensures
        n < cut(s, max).len(),
        cut(s, max).take(n) == s.take(n),
{
    lemma_fitting_keeps(s, max, n);
    let p = fitting_prefix(s, max);
    assert(p.push('…').take(n) =~= p.take(n));
}

proof fn lemma_fitting_keeps(s: Seq<char>, max: int, n: int)
    requires
        0 <= n <= s.len(),
        byte_len(s.take(n)) <= max,
    ensures
        n <= fitting_prefix(s, max).len(),
        fitting_prefix(s, max).take(n) == s.take(n),
    decreases s.len(),
{
    if s.len() > 0 && byte_len(s) > max {
        if n == s.len() {
            assert(s.take(n) =~= s);
        }
        assert(s.drop_last().take(n) =~= s.take(n));
        lemma_fitting_keeps(s.drop_last(), max, n);
    }
}

/// A text that is too long for its columns keeps all but the last of them for
/// its first characters, and the last for an ellipsis.
pub proof fn law_cut_display_keeps_the_start(s: Seq<char>, max: int, i: int)
    requires
        s.len() > max,
        max >= 1,
    ensures
        cut_display(s, max).len() == max,
        0 <= i < max - 1 ==> cut_display(s, max)[i] == s[i],
        cut_display(s, max)[max - 1] == '…',
{
}

// ---------------------------------------------------------------------------
// Case
// ---------------------------------------------------------------------------

/// The 26 capital letters become the small letters, in their order; every
/// other character stays. A text is changed character by character.
pub proof fn law_ascii_lower_case(s: Seq<char>, i: int, n: int)
    requires
        0 <= i < s.len(),
        0 <= n < 26,
    ensures
        ascii_lowered(s).len() == s.len(),
        s[i] as int == 65 + n ==> ascii_lowered(s)[i] as int == 97 + n,
        !('A' <= s[i] <= 'Z') ==> ascii_lowered(s)[i] == s[i],
{
    assert(ascii_lowered(s)[i] == ascii_lower(s[i]));
}

/// An ASCII text is put in lower case letter by letter; any other as the
/// Unicode tables say.
pub proof fn law_lower_case(s: Seq<char>)
    ensures
        is_ascii_chars(s) ==> lowered(s) == ascii_lowered(s),
        !is_ascii_chars(s) ==> lowered(s) == unicode_lowercase(s),
{
}

// ---------------------------------------------------------------------------
// Numerals
// ---------------------------------------------------------------------------

/// A number below ten is one digit. Ten times a number and a digit is that
/// number's numeral and the digit behind it.
pub proof fn law_decimal_digits(n: int, d: int)
    requires
        0 <= d < 10,
        0 < n,
    ensures
        decimal(d).len() == 1,
        decimal(d)[0] as int == 48 + d,
        decimal(10 * n + d) == decimal(n) + decimal(d),
{
    assert((10 * n + d) / 10 == n && (10 * n + d) % 10 == d) by (nonlinear_arith)
        requires
            0 <= d < 10,
            0 < n,
    ;
    assert(decimal(10 * n + d) =~= decimal(n) + decimal(d));
}

/// A negative number is written as the number without its sign, behind a minus
/// sign; any other as it is.
pub proof fn law_signed_decimal(n: int)
    requires
        0 < n,
    ensures
        signed_decimal(-n) == seq!['-'] + decimal(n),
        signed_decimal(n) == decimal(n),
        signed_decimal(0) == decimal(0),
{
}

/// The value of a numeral is by place: each further digit counts once, and
/// what stands before it ten times.
pub proof fn law_value_is_by_place(s: Seq<char>, c: char)
    ensures
        value(s.push(c)) == 10 * value(s) + (c as int - 48),
        value(Seq::<char>::empty()) == 0,
{
    assert(s.push(c).drop_last() =~= s);
}

/// A text is read as a number exactly where it is made of digits, one at
/// least, and its value is no larger than the limit. A plus sign before the
/// digits changes nothing.
pub proof fn law_numbers_read(s: Seq<char>, max: int)
    requires
        s.len() > 0 ==> s[0] != '+',
    ensures
        read_number(s, max) == (if s.len() > 0 && value(s) <= max && (forall|i: int|
            0 <= i < s.len() ==> 48 <= #[trigger] s[i] as int <= 57) {
            Some(value(s))
        } else {
            None
        }),
        read_number(seq!['+'] + s, max) == read_number(s, max),
{
    assert((seq!['+'] + s).drop_first() =~= s);
    if s.len() > 0 && crate::numeral::all_digits(s) {
        assert forall|i: int| 0 <= i < s.len() implies 48 <= #[trigger] s[i] as int <= 57 by {
            assert('0' <= s[i] <= '9');
        }
    }
    if forall|i: int| 0 <= i < s.len() ==> 48 <= #[trigger] s[i] as int <= 57 {
        assert(crate::numeral::all_digits(s)) by {
            assert forall|i: int| 0 <= i < s.len() implies '0' <= #[trigger] s[i] <= '9' by {
                assert(48 <= s[i] as int <= 57);
            }
        }
    }
}

/// A second sign makes a text no number.
pub proof fn law_two_signs_are_no_number(s: Seq<char>, max: int)
    ensures
        read_number(seq!['+', '+'] + s, max) is None,
        read_number(seq!['-'] + s, max) is None,
{
    let t = (seq!['+', '+'] + s).drop_first();
    assert(t[0] == '+');
    let u = seq!['-'] + s;
    assert(u[0] == '-');
}

}
