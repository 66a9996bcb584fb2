//! Text as a sequence of characters: the notions of line, field, blank and
//! prefix on which every check of the crate is built.
//!
//! A `&str` is read once into its characters; the functions below then work
//! on slices of them and hand back slices, so that nothing is copied until a
//! `String` is asked for.

use vstd::prelude::*;
use vstd::slice::slice_subrange;
use vstd::utf8::encode_utf8;

verus! {

// ---------------------------------------------------------------------------
// Classes of characters
// ---------------------------------------------------------------------------

/// The characters with the Unicode property `White_Space`.
pub open spec fn is_blank(c: char) -> bool {
    let n = c as u32;
    ||| 0x09 <= n <= 0x0d
    ||| n == 0x20
    ||| n == 0x85
    ||| n == 0xa0
    ||| n == 0x1680
    ||| 0x2000 <= n <= 0x200a
    ||| n == 0x2028
    ||| n == 0x2029
    ||| n == 0x202f
    ||| n == 0x205f
    ||| n == 0x3000
}

/// A class of characters at which a text is split or trimmed.
#[derive(Clone, Copy)]
pub enum Class {
    /// White space.
    Blank,
    /// White space or a comma: what parts the entries of a bash array.
    BlankOrComma,
    /// A single or double quote.
    Quote,
    /// One character.
    Is(char),
}

impl Class {
    /// Whether `c` belongs to the class.
    pub open spec fn holds(self, c: char) -> bool {
        match self {
            Class::Blank => is_blank(c),
            Class::BlankOrComma => is_blank(c) || c == ',',
            Class::Quote => c == '\'' || c == '"',
            Class::Is(d) => c == d,
        }
    }

    /// Whether `c` belongs to the class.
    pub fn has(self, c: char) -> (b: bool)
        ensures
            b == self.holds(c),
    {
        match self {
            Class::Blank => blank(c),
            Class::BlankOrComma => blank(c) || c == ',',
            Class::Quote => c == '\'' || c == '"',
            Class::Is(d) => c == d,
        }
    }
}

/// Whether `c` is white space.
pub fn blank(c: char) -> (b: bool)
    ensures
        b == is_blank(c),
{
    let n: u32 = c as u32;
    (0x09 <= n && n <= 0x0d) || n == 0x20 || n == 0x85 || n == 0xa0 || n == 0x1680 || (0x2000 <= n
        && n <= 0x200a) || n == 0x2028 || n == 0x2029 || n == 0x202f || n == 0x205f || n == 0x3000
}

// ---------------------------------------------------------------------------
// Strings and their characters
// ---------------------------------------------------------------------------

/// The characters of `s`.
pub fn chars_of(s: &str) -> (v: Vec<char>)
    ensures
        v@ == s@,
{
    let mut v: Vec<char> = Vec::new();
    for c in it: s.chars()
        invariant
            v@ == s@.take(it.index()),
            it.seq() == s@,
    {
        v.push(c);
        assert(s@.take(it.index() + 1) =~= s@.take(it.index()).push(s@[it.index()]));
    }
    assert(s@.take(s@.len() as int) =~= s@);
    v
}

/// The string made of the characters `v`.
pub fn string_of(v: &[char]) -> (s: String)
    ensures
        s@ == v@,
{
    let mut s: String = String::new();
    let mut i: usize = 0;
    while i < v.len()
        invariant
            i <= v@.len(),
            s@ == v@.take(i as int),
        decreases v@.len() - i,
    {
        s.push(v[i]);
        assert(v@.take(i + 1) =~= v@.take(i as int).push(v@[i as int]));
        i = i + 1;
    }
    assert(v@.take(v@.len() as int) =~= v@);
    s
}

/// The texts that a list of slices stands for.
pub open spec fn slices(v: Seq<&[char]>) -> Seq<Seq<char>> {
    v.map_values(|x: &[char]| x@)
}

/// The texts that a list of strings stands for.
pub open spec fn strings(v: Seq<String>) -> Seq<Seq<char>> {
    v.map_values(|x: String| x@)
}

/// Whether the two texts are the same.
pub fn same(a: &[char], b: &[char]) -> (eq: bool)
    ensures
        eq == (a@ == b@),
{
    if a.len() != b.len() {
        return false;
    }
    let mut i: usize = 0;
    while i < a.len()
        invariant
            i <= a@.len(),
            a@.len() == b@.len(),
            a@.take(i as int) =~= b@.take(i as int),
        decreases a@.len() - i,
    {
        if a[i] != b[i] {
            return false;
        }
        assert(a@.take(i + 1) =~= a@.take(i as int).push(a@[i as int]));
        assert(b@.take(i + 1) =~= b@.take(i as int).push(b@[i as int]));
        i = i + 1;
    }
    assert(a@.take(a@.len() as int) =~= a@);
    assert(b@.take(b@.len() as int) =~= b@);
    true
}

/// Whether the two strings hold the same text.
pub fn same_str(a: &str, b: &str) -> (eq: bool)
    ensures
        eq == (a@ == b@),
{
    let x: Vec<char> = chars_of(a);
    let y: Vec<char> = chars_of(b);
    same(x.as_slice(), y.as_slice())
}

// ---------------------------------------------------------------------------
// Searching
// ---------------------------------------------------------------------------

/// Where the first character of class `k` at or after `from` stands; the
/// length of the text where there is none.
pub open spec fn find_from(s: Seq<char>, k: Class, from: int) -> int
    decreases s.len() - from,
{
    if from >= s.len() {
        s.len() as int
    } else if k.holds(s[from]) {
        from
    } else {
        find_from(s, k, from + 1)
    }
}

/// The found place lies between the start of the search and the end of the
/// text, holds a character of the class, and nothing of the class stands
/// before it.
pub proof fn lemma_find_from(s: Seq<char>, k: Class, from: int)
    requires
        0 <= from <= s.len(),
    ensures
        from <= find_from(s, k, from) <= s.len(),
        find_from(s, k, from) < s.len() ==> k.holds(s[find_from(s, k, from)]),
        forall|i: int| from <= i < find_from(s, k, from) ==> !k.holds(#[trigger] s[i]),
    decreases s.len() - from,
{
    if from < s.len() && !k.holds(s[from]) {
        lemma_find_from(s, k, from + 1);
    }
}

/// Where the first character of class `k` at or after `from` stands, or the
/// length of `s`.
pub fn find(s: &[char], k: Class, from: usize) -> (i: usize)
    requires
        from <= s@.len(),
    ensures
        i == find_from(s@, k, from as int),
        from <= i <= s@.len(),
{
    let mut i: usize = from;
    while i < s.len() && !k.has(s[i])
        invariant
            from <= i <= s@.len(),
            find_from(s@, k, from as int) == find_from(s@, k, i as int),
        decreases s@.len() - i,
    {
        i = i + 1;
    }
    i
}

/// Whether `p` stands in `s` at place `i`.
pub open spec fn occurs_at(s: Seq<char>, p: Seq<char>, i: int) -> bool {
    0 <= i && i + p.len() <= s.len() && s.subrange(i, i + p.len()) == p
}

/// Whether `p` stands somewhere in `s`.
pub open spec fn is_piece(p: Seq<char>, s: Seq<char>) -> bool {
    exists|i: int| #[trigger] occurs_at(s, p, i)
}

/// The first place at or after `from` where `p` stands in `s`.
pub open spec fn find_text_from(s: Seq<char>, p: Seq<char>, from: int) -> Option<int>
    decreases s.len() + 1 - from,
{
    if from + p.len() > s.len() {
        None
    } else if occurs_at(s, p, from) {
        Some(from)
    } else {
        find_text_from(s, p, from + 1)
    }
}

/// The last place at or before `from` where `p` stands in `s`.
pub open spec fn rfind_text_from(s: Seq<char>, p: Seq<char>, from: int) -> Option<int>
    decreases from + 1,
{
    if from < 0 {
        None
    } else if occurs_at(s, p, from) {
        Some(from)
    } else {
        rfind_text_from(s, p, from - 1)
    }
}

/// Whether `s` begins with `p`.
pub open spec fn begins(s: Seq<char>, p: Seq<char>) -> bool {
    occurs_at(s, p, 0)
}

/// Whether `p` stands in `s` at place `i`.
pub fn stands_at(s: &[char], p: &[char], i: usize) -> (b: bool)
    ensures
        b == occurs_at(s@, p@, i as int),
{
    if p.len() > s.len() || i > s.len() - p.len() {
        return false;
    }
    same(slice_subrange(s, i, i + p.len()), p)
}

/// Whether `s` begins with `p`.
pub fn starts_with(s: &[char], p: &str) -> (b: bool)
    ensures
        b == begins(s@, p@),
{
    let pat: Vec<char> = chars_of(p);
    stands_at(s, pat.as_slice(), 0)
}

/// The first place where `p` stands in `s`.
pub fn find_text(s: &[char], p: &[char]) -> (i: Option<usize>)
    ensures
        match i {
            Some(j) => find_text_from(s@, p@, 0) == Some(j as int) && j + p@.len() <= s@.len(),
            None => find_text_from(s@, p@, 0) is None,
        },
{
    if p.len() > s.len() {
        return None;
    }
    let last: usize = s.len() - p.len();
    let mut i: usize = 0;
    loop
        invariant
            i <= last,
            last == s@.len() - p@.len(),
            find_text_from(s@, p@, 0) == find_text_from(s@, p@, i as int),
        decreases last - i,
    {
        if stands_at(s, p, i) {
            return Some(i);
        }
        if i == last {
            assert(find_text_from(s@, p@, i + 1) is None);
            return None;
        }
        i = i + 1;
    }
}

/// The last place where `p` stands in `s`.
pub fn rfind_text(s: &[char], p: &[char]) -> (i: Option<usize>)
    ensures
        match i {
            Some(j) => rfind_text_from(s@, p@, s@.len() - p@.len()) == Some(j as int) && j
                + p@.len() <= s@.len(),
            None => rfind_text_from(s@, p@, s@.len() - p@.len()) is None,
        },
{
    if p.len() > s.len() {
        return None;
    }
    let mut i: usize = s.len() - p.len();
    loop
        invariant
            i <= s@.len() - p@.len(),
            rfind_text_from(s@, p@, s@.len() - p@.len()) == rfind_text_from(s@, p@, i as int),
        decreases i,
    {
        if stands_at(s, p, i) {
            return Some(i);
        }
        if i == 0 {
            assert(rfind_text_from(s@, p@, -1) is None);
            return None;
        }
        i = i - 1;
    }
}

/// What follows the first `p` in `s`, or all of `s` where there is no `p`.
pub open spec fn after_first(s: Seq<char>, p: Seq<char>) -> Seq<char> {
    match find_text_from(s, p, 0) {
        Some(i) => s.subrange(i + p.len(), s.len() as int),
        None => s,
    }
}

/// What follows the last `p` in `s`, or all of `s` where there is no `p`.
pub open spec fn after_last(s: Seq<char>, p: Seq<char>) -> Seq<char> {
    match rfind_text_from(s, p, s.len() - p.len()) {
        Some(i) => s.subrange(i + p.len(), s.len() as int),
        None => s,
    }
}

/// What follows the first `p` in `s`, or all of `s`.
pub fn cut_after_first<'a>(s: &'a [char], p: &str) -> (r: &'a [char])
    ensures
        r@ == after_first(s@, p@),
{
    let pat: Vec<char> = chars_of(p);
    let end: usize = s.len();
    match find_text(s, pat.as_slice()) {
        Some(i) => slice_subrange(s, i + pat.len(), end),
        None => s,
    }
}

/// What follows the last `p` in `s`, or all of `s`.
pub fn cut_after_last<'a>(s: &'a [char], p: &str) -> (r: &'a [char])
    ensures
        r@ == after_last(s@, p@),
{
    let pat: Vec<char> = chars_of(p);
    let end: usize = s.len();
    match rfind_text(s, pat.as_slice()) {
        Some(i) => slice_subrange(s, i + pat.len(), end),
        None => s,
    }
}

/// What stands in `s` before its first `c`, or all of `s` where there is none.
pub open spec fn before_char(s: Seq<char>, c: char) -> Seq<char> {
    s.subrange(0, find_from(s, Class::Is(c), 0))
}

/// What stands in `s` behind its first `c`; nothing where there is none.
pub open spec fn behind_char(s: Seq<char>, c: char) -> Seq<char> {
    let i = find_from(s, Class::Is(c), 0);
    if i < s.len() {
        s.subrange(i + 1, s.len() as int)
    } else {
        Seq::empty()
    }
}

/// What stands in `s` before its first `c`, or all of `s`.
pub fn cut_before(s: &[char], c: char) -> (r: &[char])
    ensures
        r@ == before_char(s@, c),
{
    slice_subrange(s, 0, find(s, Class::Is(c), 0))
}

/// What stands in `s` behind its first `c`, or nothing.
pub fn cut_behind(s: &[char], c: char) -> (r: &[char])
    ensures
        r@ == behind_char(s@, c),
{
    let i: usize = find(s, Class::Is(c), 0);
    if i < s.len() {
        slice_subrange(s, i + 1, s.len())
    } else {
        let none: &[char] = slice_subrange(s, 0, 0);
        assert(none@ =~= Seq::<char>::empty());
        none
    }
}

// ---------------------------------------------------------------------------
// Splitting and trimming
// ---------------------------------------------------------------------------

/// The fields of `s` from place `from` on, parted at each character of class
/// `k`. Two such characters in a row part an empty field.
pub open spec fn split_from(s: Seq<char>, k: Class, from: int) -> Seq<Seq<char>>
    decreases s.len() - from,
{
    if from > s.len() || from < 0 {
        Seq::empty()
    } else {
        let i = find_from(s, k, from);
        if from <= i < s.len() {
            seq![s.subrange(from, i)] + split_from(s, k, i + 1)
        } else {
            seq![s.subrange(from, s.len() as int)]
        }
    }
}

/// The fields of `s`, parted at each character of class `k`.
pub open spec fn split(s: Seq<char>, k: Class) -> Seq<Seq<char>> {
    split_from(s, k, 0)
}

/// The fields of `s`, parted at each character of class `k`.
pub fn fields<'a>(s: &'a [char], k: Class) -> (out: Vec<&'a [char]>)
    ensures
        slices(out@) == split(s@, k),
        out@.len() > 0,
{
    let mut out: Vec<&'a [char]> = Vec::new();
    let mut from: usize = 0;
    assert(slices(out@) + split_from(s@, k, 0) =~= split(s@, k));
    loop
        invariant
            from <= s@.len(),
            slices(out@) + split_from(s@, k, from as int) == split(s@, k),
        decreases s@.len() - from,
    {
        let i: usize = find(s, k, from);
        let ghost before = out@;
        out.push(slice_subrange(s, from, i));
        assert(slices(out@) =~= slices(before).push(s@.subrange(from as int, i as int)));
        if i == s.len() {
            assert(slices(out@) =~= split(s@, k));
            return out;
        }
        assert(slices(out@) + split_from(s@, k, i + 1) =~= slices(before) + split_from(
            s@,
            k,
            from as int,
        ));
        from = i + 1;
    }
}

/// `s` without its leading characters of class `k`.
pub open spec fn trim_start(s: Seq<char>, k: Class) -> Seq<char>
    decreases s.len(),
{
    if s.len() > 0 && k.holds(s[0]) {
        trim_start(s.drop_first(), k)
    } else {
        s
    }
}

/// `s` without its trailing characters of class `k`.
pub open spec fn trim_end(s: Seq<char>, k: Class) -> Seq<char>
    decreases s.len(),
{
    if s.len() > 0 && k.holds(s.last()) {
        trim_end(s.drop_last(), k)
    } else {
        s
    }
}

/// `s` without its leading and trailing characters of class `k`.
pub open spec fn trim(s: Seq<char>, k: Class) -> Seq<char> {
    trim_end(trim_start(s, k), k)
}

/// `s` without its leading and trailing characters of class `k`.
pub fn trimmed(s: &[char], k: Class) -> (r: &[char])
    ensures
        r@ == trim(s@, k),
{
    let mut i: usize = 0;
    assert(s@.subrange(0, s@.len() as int) =~= s@);
    while i < s.len() && k.has(s[i])
        invariant
            i <= s@.len(),
            trim_start(s@, k) == trim_start(s@.subrange(i as int, s@.len() as int), k),
        decreases s@.len() - i,
    {
        assert(s@.subrange(i as int, s@.len() as int).drop_first() =~= s@.subrange(
            i + 1,
            s@.len() as int,
        ));
        i = i + 1;
    }
    assert(trim_start(s@, k) == s@.subrange(i as int, s@.len() as int));
    let mut j: usize = s.len();
    while j > i && k.has(s[j - 1])
        invariant
            i <= j <= s@.len(),
            trim(s@, k) == trim_end(s@.subrange(i as int, j as int), k),
        decreases j,
    {
        assert(s@.subrange(i as int, j as int).drop_last() =~= s@.subrange(i as int, j - 1));
        j = j - 1;
    }
    slice_subrange(s, i, j)
}

/// `s` without the carriage return that may end it.
pub open spec fn strip_cr(s: Seq<char>) -> Seq<char> {
    if s.len() > 0 && s.last() == '\r' {
        s.drop_last()
    } else {
        s
    }
}

/// The lines of `s` from place `from` on.
pub open spec fn lines_from(s: Seq<char>, from: int) -> Seq<Seq<char>>
    decreases s.len() - from,
{
    if from >= s.len() || from < 0 {
        Seq::empty()
    } else {
        let i = find_from(s, Class::Is('\n'), from);
        if from <= i < s.len() {
            seq![strip_cr(s.subrange(from, i))] + lines_from(s, i + 1)
        } else {
            seq![s.subrange(from, s.len() as int)]
        }
    }
}

/// The lines of `s`: each ends at a line feed, with or without a carriage
/// return before it, or at the end of the text. A line feed that ends the
/// text starts no further line.
pub open spec fn lines(s: Seq<char>) -> Seq<Seq<char>> {
    lines_from(s, 0)
}

/// The lines of `s`.
pub fn split_lines<'a>(s: &'a [char]) -> (out: Vec<&'a [char]>)
    ensures
        slices(out@) == lines(s@),
{
    let mut out: Vec<&'a [char]> = Vec::new();
    let mut from: usize = 0;
    assert(slices(out@) + lines_from(s@, 0) =~= lines(s@));
    while from < s.len()
        invariant
            from <= s@.len(),
            slices(out@) + lines_from(s@, from as int) == lines(s@),
        decreases s@.len() - from,
    {
        let i: usize = find(s, Class::Is('\n'), from);
        let ghost before = out@;
        if i == s.len() {
            out.push(slice_subrange(s, from, i));
            assert(slices(out@) =~= slices(before).push(s@.subrange(from as int, i as int)));
            assert(slices(out@) =~= lines(s@));
            return out;
        }
        let mut end: usize = i;
        if end > from && s[end - 1] == '\r' {
            end = end - 1;
        }
        out.push(slice_subrange(s, from, end));
        assert(s@.subrange(from as int, end as int) =~= strip_cr(
            s@.subrange(from as int, i as int),
        ));
        assert(slices(out@) =~= slices(before).push(s@.subrange(from as int, end as int)));
        assert(slices(out@) + lines_from(s@, i + 1) =~= slices(before) + lines_from(
            s@,
            from as int,
        ));
        from = i + 1;
    }
    assert(slices(out@) =~= lines(s@));
    out
}

/// Whether the text holds no line feed.
pub open spec fn is_one_line(s: Seq<char>) -> bool {
    forall|i: int| 0 <= i < s.len() ==> #[trigger] s[i] != '\n'
}

pub(crate) proof fn lemma_find_shift(s: Seq<char>, k: Class, p: int, i: int)
    requires
        0 <= p <= s.len(),
        0 <= i <= s.len() - p,
    ensures
        find_from(s, k, p + i) == p + find_from(s.skip(p), k, i),
    decreases s.len() - p - i,
{
    if p + i < s.len() && !k.holds(s[p + i]) {
        assert(s.skip(p)[i] == s[p + i]);
        lemma_find_shift(s, k, p, i + 1);
    }
}

proof fn lemma_lines_shift(s: Seq<char>, p: int, i: int)
    requires
        0 <= p <= s.len(),
        0 <= i <= s.len() - p,
    ensures
        lines_from(s, p + i) == lines_from(s.skip(p), i),
    decreases s.len() - p - i,
{
    let t = s.skip(p);
    if p + i < s.len() {
        let k = Class::Is('\n');
        lemma_find_shift(s, k, p, i);
        lemma_find_from(s, k, p + i);
        let j = find_from(t, k, i);
        if j < t.len() {
            lemma_lines_shift(s, p, j + 1);
            assert(s.subrange(p + i, p + j) =~= t.subrange(i, j));
        } else {
            assert(s.subrange(p + i, s.len() as int) =~= t.subrange(i, t.len() as int));
        }
    }
}

proof fn lemma_find_end_of_line(a: Seq<char>, rest: Seq<char>, i: int)
    requires
        is_one_line(a),
        0 <= i <= a.len(),
    ensures
        find_from(a + seq!['\n'] + rest, Class::Is('\n'), i) == a.len(),
    decreases a.len() - i,
{
    let s = a + seq!['\n'] + rest;
    if i < a.len() {
        assert(s[i] == a[i]);
        lemma_find_end_of_line(a, rest, i + 1);
    } else {
        assert(s[i] == '\n');
    }
}

/// A text that starts with one line and a line feed has that line, then the
/// lines of the rest.
pub proof fn lemma_lines_cons(a: Seq<char>, rest: Seq<char>)
    requires
        is_one_line(a),
    ensures
        lines(a + seq!['\n'] + rest) == seq![strip_cr(a)] + lines(rest),
{
    let s = a + seq!['\n'] + rest;
    lemma_find_end_of_line(a, rest, 0);
    assert(s.subrange(0, a.len() as int) =~= a);
    lemma_lines_shift(s, a.len() as int + 1, 0);
    assert(s.skip(a.len() as int + 1) =~= rest);
}

/// Where a text ends with a line feed, or is empty, what follows it starts a
/// line of its own.
pub proof fn lemma_lines_concat(a: Seq<char>, b: Seq<char>)
    requires
        a.len() == 0 || a.last() == '\n',
    ensures
        lines(a + b) == lines(a) + lines(b),
    decreases a.len(),
{
    if a.len() == 0 {
        assert(a + b =~= b);
        assert(lines(a) + lines(b) =~= lines(b));
    } else {
        let k = Class::Is('\n');
        let i = find_from(a, k, 0);
        lemma_find_from(a, k, 0);
        assert(k.holds(a[a.len() - 1]));
        let head = a.take(i);
        let tail = a.skip(i + 1);
        assert forall|j: int| 0 <= j < head.len() implies #[trigger] head[j] != '\n' by {
            assert(!k.holds(a[j]));
        }
        assert(a =~= head + seq!['\n'] + tail);
        assert(a + b =~= head + seq!['\n'] + (tail + b));
        if tail.len() > 0 {
            assert(tail.last() == a.last());
        }
        lemma_lines_concat(tail, b);
        lemma_lines_cons(head, tail);
        lemma_lines_cons(head, tail + b);
        assert(lines(a + b) =~= lines(a) + lines(b));
    }
}

/// The first line of `s`; nothing where `s` is empty.
pub open spec fn first_line(s: Seq<char>) -> Seq<char> {
    if lines(s).len() > 0 {
        lines(s)[0]
    } else {
        Seq::empty()
    }
}

/// The lines that are not blank, without the blanks around them.
pub open spec fn nonblank(ls: Seq<Seq<char>>) -> Seq<Seq<char>>
    decreases ls.len(),
{
    if ls.len() == 0 {
        Seq::empty()
    } else {
        let t = trim(ls.last(), Class::Blank);
        if t.len() == 0 {
            nonblank(ls.drop_last())
        } else {
            nonblank(ls.drop_last()).push(t)
        }
    }
}

/// The names that a text lists, one per line.
pub open spec fn listed(body: Seq<char>) -> Seq<Seq<char>> {
    nonblank(lines(body))
}

/// The non-blank lines of a text, without the blanks around them.
pub fn listed_names(body: &str) -> (out: Vec<String>)
    ensures
        strings(out@) == listed(body@),
{
    let text: Vec<char> = chars_of(body);
    let ls: Vec<&[char]> = split_lines(text.as_slice());
    let ghost all = slices(ls@);
    let mut out: Vec<String> = Vec::new();
    let mut i: usize = 0;
    assert(all.take(0) =~= Seq::<Seq<char>>::empty());
    assert(strings(out@) =~= nonblank(all.take(0)));
    while i < ls.len()
        invariant
            i <= ls@.len(),
            all == slices(ls@),
            strings(out@) == nonblank(all.take(i as int)),
        decreases ls@.len() - i,
    {
        assert(all.take(i + 1).drop_last() =~= all.take(i as int));
        assert(all.take(i + 1).last() == ls@[i as int]@);
        let t: &[char] = trimmed(ls[i], Class::Blank);
        if t.len() > 0 {
            let ghost before = out@;
            let name: String = string_of(t);
            out.push(name);
            assert(strings(out@) =~= strings(before).push(t@));
        }
        i = i + 1;
    }
    assert(all.take(all.len() as int) =~= all);
    out
}

// ---------------------------------------------------------------------------
// ASCII case
// ---------------------------------------------------------------------------

/// `c` in lower case where it is an ASCII letter, else `c`.
pub open spec fn ascii_lower(c: char) -> char {
    if 'A' <= c <= 'Z' {
        ((c as u32 + 32) as u32) as char
    } else {
        c
    }
}

/// The text with each ASCII letter in lower case.
pub open spec fn ascii_lowered(s: Seq<char>) -> Seq<char> {
    s.map_values(|c: char| ascii_lower(c))
}

/// `c` in lower case where it is an ASCII letter.
fn lower(c: char) -> (d: char)
    ensures
        d == ascii_lower(c),
{
    match c {
        'A' => 'a',
        'B' => 'b',
        'C' => 'c',
        'D' => 'd',
        'E' => 'e',
        'F' => 'f',
        'G' => 'g',
        'H' => 'h',
        'I' => 'i',
        'J' => 'j',
        'K' => 'k',
        'L' => 'l',
        'M' => 'm',
        'N' => 'n',
        'O' => 'o',
        'P' => 'p',
        'Q' => 'q',
        'R' => 'r',
        'S' => 's',
        'T' => 't',
        'U' => 'u',
        'V' => 'v',
        'W' => 'w',
        'X' => 'x',
        'Y' => 'y',
        'Z' => 'z',
        _ => c,
    }
}

/// Whether the two texts differ in the case of ASCII letters at most.
pub fn same_ignoring_ascii_case(a: &[char], b: &[char]) -> (eq: bool)
    ensures
        eq == (ascii_lowered(a@) == ascii_lowered(b@)),
{
    if a.len() != b.len() {
        assert(ascii_lowered(a@).len() != ascii_lowered(b@).len());
        return false;
    }
    let mut i: usize = 0;
    while i < a.len()
        invariant
            i <= a@.len(),
            a@.len() == b@.len(),
            forall|j: int| 0 <= j < i ==> ascii_lower(#[trigger] a@[j]) == ascii_lower(b@[j]),
        decreases a@.len() - i,
    {
        if lower(a[i]) != lower(b[i]) {
            assert(ascii_lowered(a@)[i as int] != ascii_lowered(b@)[i as int]);
            return false;
        }
        i = i + 1;
    }
    assert(ascii_lowered(a@) =~= ascii_lowered(b@));
    true
}

// ---------------------------------------------------------------------------
// Size in bytes
// ---------------------------------------------------------------------------

/// The number of bytes that the text takes in UTF-8.
pub open spec fn byte_len(s: Seq<char>) -> int {
    encode_utf8(s).len() as int
}

/// The encoding of two texts in a row is that of the first, then that of the
/// second.
pub proof fn lemma_encode_concat(a: Seq<char>, b: Seq<char>)
    ensures
        encode_utf8(a + b) == encode_utf8(a) + encode_utf8(b),
    decreases a.len(),
{
    if a.len() == 0 {
        assert(a + b =~= b);
        assert(encode_utf8(a) + encode_utf8(b) =~= encode_utf8(b));
    } else {
        assert((a + b).drop_first() =~= a.drop_first() + b);
        lemma_encode_concat(a.drop_first(), b);
        assert(encode_utf8(a + b) =~= encode_utf8(a) + encode_utf8(b));
    }
}

/// The number of bytes that the character takes in UTF-8.
pub open spec fn width(c: char) -> int {
    let n = c as u32;
    if n < 0x80 {
        1
    } else if n < 0x800 {
        2
    } else if n < 0x10000 {
        3
    } else {
        4
    }
}

/// One more character adds its width to the size.
proof fn lemma_byte_len_push(s: Seq<char>, c: char)
    ensures
        byte_len(s.push(c)) == byte_len(s) + width(c),
{
    assert(s.push(c) =~= s + seq![c]);
    lemma_encode_concat(s, seq![c]);
    assert(seq![c].drop_first() =~= Seq::<char>::empty());
    reveal_with_fuel(encode_utf8, 2);
    assert(encode_utf8(seq![c]).len() == width(c));
}

/// A prefix takes no more bytes than the whole.
proof fn lemma_byte_len_prefix(s: Seq<char>, n: int)
    requires
        0 <= n <= s.len(),
    ensures
        byte_len(s.take(n)) <= byte_len(s),
{
    assert(s =~= s.take(n) + s.skip(n));
    lemma_encode_concat(s.take(n), s.skip(n));
}

/// The longest prefix of `s` that takes `max` bytes at most.
pub open spec fn fitting_prefix(s: Seq<char>, max: int) -> Seq<char>
    decreases s.len(),
{
    if s.len() == 0 || byte_len(s) <= max {
        s
    } else {
        fitting_prefix(s.drop_last(), max)
    }
}

proof fn lemma_fitting_prefix(s: Seq<char>, max: int, n: int)
    requires
        0 <= n < s.len(),
        byte_len(s.take(n)) <= max,
        byte_len(s.take(n + 1)) > max,
    ensures
        fitting_prefix(s, max) == s.take(n),
    decreases s.len(),
{
    lemma_byte_len_prefix(s, n + 1);
    if n + 1 == s.len() {
        assert(s.drop_last() =~= s.take(n));
        assert(fitting_prefix(s.take(n), max) == s.take(n));
    } else {
        assert(s.drop_last().take(n) =~= s.take(n));
        assert(s.drop_last().take(n + 1) =~= s.take(n + 1));
        lemma_fitting_prefix(s.drop_last(), max, n);
    }
}

/// `s`, cut to its longest prefix of `max` bytes and marked with an ellipsis
/// where it takes more.
pub open spec fn cut(s: Seq<char>, max: int) -> Seq<char> {
    if byte_len(s) <= max {
        s
    } else {
        fitting_prefix(s, max).push('…')
    }
}

fn char_width(c: char) -> (w: usize)
    ensures
        w == width(c),
{
    let n: u32 = c as u32;
    if n < 0x80 {
        1
    } else if n < 0x800 {
        2
    } else if n < 0x10000 {
        3
    } else {
        4
    }
}

/// `s`, cut to `max` bytes and marked with an ellipsis where it takes more.
pub fn truncate(s: &[char], max: usize) -> (r: String)
    ensures
        r@ == cut(s@, max as int),
{
    let mut n: usize = 0;
    let mut total: usize = 0;
    assert(s@.take(0) =~= Seq::<char>::empty());
    while n < s.len()
        invariant
            n <= s@.len(),
            total == byte_len(s@.take(n as int)),
            total <= max,
        decreases s@.len() - n,
    {
        let w: usize = char_width(s[n]);
        assert(s@.take(n + 1) =~= s@.take(n as int).push(s@[n as int]));
        proof {
            lemma_byte_len_push(s@.take(n as int), s@[n as int]);
        }
        if w > max - total {
            proof {
                lemma_byte_len_prefix(s@, n + 1);
                lemma_fitting_prefix(s@, max as int, n as int);
            }
            let mut r: String = string_of(slice_subrange(s, 0, n));
            assert(r@ =~= s@.take(n as int));
            r.push('…');
            return r;
        }
        total = total + w;
        n = n + 1;
    }
    assert(s@.take(s@.len() as int) =~= s@);
    string_of(s)
}

/// `s`, cut to `max` characters, the last of them an ellipsis, where it has
/// more.
pub open spec fn cut_display(s: Seq<char>, max: int) -> Seq<char> {
    if s.len() <= max {
        s
    } else if max <= 0 {
        seq!['…']
    } else {
        s.take(max - 1).push('…')
    }
}

/// `s`, cut to `max` characters with an ellipsis where it has more.
pub fn truncate_display(s: &[char], max: usize) -> (r: String)
    ensures
        r@ == cut_display(s@, max as int),
{
    if s.len() <= max {
        return string_of(s);
    }
    let take: usize = if max > 0 { max - 1 } else { 0 };
    let mut r: String = string_of(slice_subrange(s, 0, take));
    r.push('…');
    assert(r@ =~= cut_display(s@, max as int));
    r
}

// ---------------------------------------------------------------------------
// Laws
// ---------------------------------------------------------------------------

/// A text without blanks around it ends with no carriage return.
pub(crate) proof fn lemma_trimmed_has_no_cr(name: Seq<char>)
    requires
        trim(name, Class::Blank) == name,
        name.len() > 0,
    ensures
        strip_cr(name) == name,
{
    let t = trim_start(name, Class::Blank);
    if name.last() == '\r' {
        lemma_trim_end_solid(t);
    }
}

proof fn lemma_trim_end_solid(s: Seq<char>)
    ensures
        trim_end(s, Class::Blank).len() > 0 ==> !Class::Blank.holds(
            trim_end(s, Class::Blank).last(),
        ),
    decreases s.len(),
{
    if s.len() > 0 && Class::Blank.holds(s.last()) {
        lemma_trim_end_solid(s.drop_last());
    }
}

/// Blanks alone are trimmed away.
pub(crate) proof fn lemma_blank_start(s: Seq<char>)
    requires
        forall|i: int| 0 <= i < s.len() ==> is_blank(#[trigger] s[i]),
    ensures
        trim_start(s, Class::Blank).len() == 0,
    decreases s.len(),
{
    if s.len() > 0 {
        assert(Class::Blank.holds(s[0]));
        let rest = s.drop_first();
        assert forall|i: int| 0 <= i < rest.len() implies is_blank(#[trigger] rest[i]) by {
            assert(rest[i] == s[i + 1]);
        }
        lemma_blank_start(rest);
    }
}

/// Three texts without a line feed make up one without a line feed.
pub(crate) proof fn lemma_one_line_concat(a: Seq<char>, b: Seq<char>, c: Seq<char>)
    requires
        is_one_line(a),
        is_one_line(b),
        is_one_line(c),
    ensures
        is_one_line(a + b + c),
{
    let s = a + b + c;
    assert forall|i: int| 0 <= i < s.len() implies #[trigger] s[i] != '\n' by {
        if i < a.len() {
            assert(s[i] == a[i]);
        } else if i < a.len() + b.len() {
            assert(s[i] == b[i - a.len()]);
        } else {
            assert(s[i] == c[i - a.len() - b.len()]);
        }
    }
}

/// A text without a line feed, and a line feed behind it, are one line.
pub(crate) proof fn lemma_ended_line(a: Seq<char>)
    requires
        is_one_line(a),
    ensures
        lines(a + "\n"@).len() == 1,
        (a + "\n"@).last() == '\n',
{
    reveal_strlit("\n");
    assert("\n"@ =~= seq!['\n']);
    assert(a + seq!['\n'] + Seq::<char>::empty() =~= a + "\n"@);
    lemma_lines_cons(a, Seq::empty());
}

proof fn lemma_fitting_prefix_fits(s: Seq<char>, max: int)
    requires
        0 <= max,
    ensures
        byte_len(fitting_prefix(s, max)) <= max,
        fitting_prefix(s, max).len() <= s.len(),
        fitting_prefix(s, max) == s.take(fitting_prefix(s, max).len() as int),
    decreases s.len(),
{
    if s.len() == 0 || byte_len(s) <= max {
        assert(s.take(s.len() as int) =~= s);
    } else {
        let t = s.drop_last();
        lemma_fitting_prefix_fits(t, max);
        let n = fitting_prefix(t, max).len() as int;
        assert(t.take(n) =~= s.take(n));
    }
}

/// A text that fits is not cut. One that does not is cut between characters:
/// what is left is a prefix of `max` bytes at most, then an ellipsis.
pub proof fn law_cut_fits(s: Seq<char>, max: int)
    requires
        0 <= max,
    ensures
        byte_len(s) <= max ==> cut(s, max) == s,
        byte_len(s) > max ==> ({
            let n = cut(s, max).len() - 1;
            &&& 0 <= n <= s.len()
            &&& byte_len(s.take(n)) <= max
            &&& cut(s, max) == s.take(n).push('…')
        }),
{
    lemma_fitting_prefix_fits(s, max);
}

/// A text shown in `max` columns takes no more than `max` characters, and is
/// not cut where it fits.
pub proof fn law_cut_display_fits(s: Seq<char>, max: int)
    requires
        0 < max,
    ensures
        cut_display(s, max).len() <= max,
        s.len() <= max ==> cut_display(s, max) == s,
{
}

}
