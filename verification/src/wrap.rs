//! Word wrap.

use vstd::prelude::*;

use crate::text::begins;
use crate::text::chars_of;
use crate::text::cut_display;
use crate::text::fields;
use crate::text::find_from;
use crate::text::is_one_line;
use crate::text::lemma_find_from;
use crate::text::lemma_lines_concat;
use crate::text::lemma_lines_cons;
use crate::text::lines;
use crate::text::slices;
use crate::text::split;
use crate::text::split_from;
use crate::text::strip_cr;
use crate::text::truncate_display;
use crate::text::Class;

verus! {

/// The fields that are not empty.
pub open spec fn solid(parts: Seq<Seq<char>>) -> Seq<Seq<char>>
    decreases parts.len(),
{
    if parts.len() == 0 {
        Seq::empty()
    } else if parts.last().len() == 0 {
        solid(parts.drop_last())
    } else {
        solid(parts.drop_last()).push(parts.last())
    }
}

/// The words of a text: what stands between its blanks.
pub open spec fn words(text: Seq<char>) -> Seq<Seq<char>> {
    solid(split(text, Class::Blank))
}

/// The words of a text.
pub fn words_of<'a>(text: &'a [char]) -> (out: Vec<&'a [char]>)
    ensures
        slices(out@) == words(text@),
{
    let parts: Vec<&'a [char]> = fields(text, Class::Blank);
    let ghost all = slices(parts@);
    let mut out: Vec<&'a [char]> = Vec::new();
    let mut i: usize = 0;
    assert(all.take(0) =~= Seq::<Seq<char>>::empty());
    assert(slices(out@) =~= solid(all.take(0)));
    while i < parts.len()
        invariant
            i <= parts@.len(),
            all == slices(parts@),
            slices(out@) == solid(all.take(i as int)),
        decreases parts@.len() - i,
    {
        assert(all.take(i + 1).drop_last() =~= all.take(i as int));
        assert(all.take(i + 1).last() == parts@[i as int]@);
        if parts[i].len() > 0 {
            let ghost before = out@;
            out.push(parts[i]);
            assert(slices(out@) =~= slices(before).push(parts@[i as int]@));
        }
        i = i + 1;
    }
    assert(all.take(all.len() as int) =~= all);
    out
}

/// The lines that are full, and the one that is being filled.
pub struct Filled {
    pub full: Seq<Seq<char>>,
    pub open: Seq<char>,
}

/// Puts one more word on the open line, or on a line of its own where the
/// open one has no room for it. A word longer than a line is cut.
pub open spec fn put_word(f: Filled, word: Seq<char>, max: int) -> Filled {
    if f.open.len() == 0 {
        Filled { full: f.full, open: cut_display(word, max) }
    } else if f.open.len() + 1 + word.len() > max {
        Filled { full: f.full.push(f.open), open: cut_display(word, max) }
    } else {
        Filled { full: f.full, open: f.open.push(' ') + cut_display(word, max) }
    }
}

/// The lines after the first `n` words.
pub open spec fn fill(ws: Seq<Seq<char>>, n: int, max: int) -> Filled
    decreases n,
{
    if n <= 0 {
        Filled { full: Seq::empty(), open: Seq::empty() }
    } else {
        put_word(fill(ws, n - 1, max), ws[n - 1], max)
    }
}

/// The words set in lines of `max` characters at most.
pub open spec fn set_lines(ws: Seq<Seq<char>>, max: int) -> Seq<Seq<char>> {
    let f = fill(ws, ws.len() as int, max);
    if f.open.len() > 0 {
        f.full.push(f.open)
    } else {
        f.full
    }
}

/// The lines, each behind `indent`, with a line feed between them.
pub open spec fn indented(ls: Seq<Seq<char>>, indent: Seq<char>) -> Seq<char>
    decreases ls.len(),
{
    if ls.len() == 0 {
        Seq::empty()
    } else if ls.len() == 1 {
        indent + ls[0]
    } else {
        indented(ls.drop_last(), indent) + "\n"@ + indent + ls.last()
    }
}

/// The room for words beside an indent: what it leaves of the width, or 20
/// characters where it leaves nothing.
pub open spec fn room(width: int, indent: int) -> int {
    if indent < width {
        width - indent
    } else {
        20
    }
}

/// A paragraph, word-wrapped at `width` columns, each line behind `indent`.
pub open spec fn wrapped(text: Seq<char>, width: int, indent: Seq<char>) -> Seq<char> {
    indented(set_lines(words(text), room(width, indent.len() as int)), indent)
}

/// Appends a line behind `indent` to `out`, which holds the lines before it.
fn push_line(out: &mut String, first: bool, indent: &str, line: &str, ls: Ghost<Seq<Seq<char>>>)
    requires
        old(out)@ == indented(ls@, indent@),
        first == (ls@.len() == 0),
    ensures
        final(out)@ == indented(ls@.push(line@), indent@),
{
    proof {
        assert(ls@.push(line@).drop_last() =~= ls@);
    }
    if !first {
        out.append("\n");
    }
    out.append(indent);
    out.append(line);
    assert(out@ =~= indented(ls@.push(line@), indent@));
}

/// Word-wrap a paragraph at `width` columns, prefixing every line with
/// `indent`. Long single tokens (URLs, base64) that overflow the width are
/// placed on their own line and then truncated to `width` so we never spill
/// across the terminal.
pub fn wrap_paragraph(text: &str, width: usize, indent: &str) -> (r: String)
    ensures
        r@ == wrapped(text@, width as int, indent@),
{
    let margin: usize = chars_of(indent).len();
    let max: usize = if margin < width {
        width - margin
    } else {
        20
    };
    let chars: Vec<char> = chars_of(text);
    let all: Vec<&[char]> = words_of(chars.as_slice());
    let ghost ws = slices(all@);
    let mut out: String = String::new();
    let mut fresh: bool = true;
    let mut open: String = String::new();
    let mut open_len: usize = 0;
    let mut i: usize = 0;
    assert(out@ =~= indented(Seq::empty(), indent@));
    while i < all.len()
        invariant
            i <= all@.len(),
            ws == slices(all@),
            ws == words(text@),
            max >= 1,
            open@ == fill(ws, i as int, max as int).open,
            open@.len() == open_len,
            open_len <= max,
            fresh == (fill(ws, i as int, max as int).full.len() == 0),
            out@ == indented(fill(ws, i as int, max as int).full, indent@),
        decreases all@.len() - i,
    {
        let word: &[char] = all[i];
        assert(ws[i as int] == word@);
        let n: usize = word.len();
        let shown: String = truncate_display(word, max);
        let shown_len: usize = if n > max {
            max
        } else {
            n
        };
        assert(shown@.len() == shown_len);
        let ghost before = fill(ws, i as int, max as int);
        if open_len > 0 && n >= max - open_len {
            push_line(&mut out, fresh, indent, open.as_str(), Ghost(before.full));
            fresh = false;
            open = shown;
            open_len = shown_len;
        } else if open_len > 0 {
            open.push(' ');
            open.append(shown.as_str());
            open_len = open_len + 1 + shown_len;
        } else {
            open = shown;
            open_len = shown_len;
        }
        i = i + 1;
    }
    let ghost f = fill(ws, ws.len() as int, max as int);
    if open_len > 0 {
        push_line(&mut out, fresh, indent, open.as_str(), Ghost(f.full));
    }
    out
}

// ---------------------------------------------------------------------------
// Laws
// ---------------------------------------------------------------------------

proof fn lemma_fill_fits(ws: Seq<Seq<char>>, n: int, max: int)
    requires
        0 <= n <= ws.len(),
        1 <= max,
    ensures
        fill(ws, n, max).open.len() <= max,
        forall|i: int|
            0 <= i < fill(ws, n, max).full.len() ==> (#[trigger] fill(ws, n, max).full[i]).len()
                <= max,
    decreases n,
{
    if n > 0 {
        lemma_fill_fits(ws, n - 1, max);
    }
}

proof fn lemma_set_lines_fit(ws: Seq<Seq<char>>, max: int)
    requires
        1 <= max,
    ensures
        forall|i: int|
            0 <= i < set_lines(ws, max).len() ==> (#[trigger] set_lines(ws, max)[i]).len() <= max,
{
    lemma_fill_fits(ws, ws.len() as int, max);
}

/// Whether the text holds no blank.
pub open spec fn is_word(s: Seq<char>) -> bool {
    forall|i: int| 0 <= i < s.len() ==> !Class::Blank.holds(#[trigger] s[i])
}

/// Whether the text can stand on a line: it is not empty, holds no line feed,
/// and does not end with a blank.
pub open spec fn is_set(l: Seq<char>) -> bool {
    l.len() > 0 && is_one_line(l) && !Class::Blank.holds(l.last())
}

proof fn lemma_split_words(s: Seq<char>, from: int, i: int)
    requires
        0 <= from <= s.len(),
        0 <= i < split_from(s, Class::Blank, from).len(),
    ensures
        is_word(split_from(s, Class::Blank, from)[i]),
    decreases s.len() - from,
{
    let k = Class::Blank;
    let e = find_from(s, k, from);
    lemma_find_from(s, k, from);
    if i > 0 {
        lemma_split_words(s, e + 1, i - 1);
    } else {
        let f = split_from(s, k, from)[0];
        assert forall|j: int| 0 <= j < f.len() implies !k.holds(#[trigger] f[j]) by {
            assert(f[j] == s[from + j]);
        }
    }
}

proof fn lemma_solid_from(parts: Seq<Seq<char>>, i: int)
    requires
        0 <= i < solid(parts).len(),
    ensures
        solid(parts)[i].len() > 0,
        parts.contains(solid(parts)[i]),
    decreases parts.len(),
{
    if parts.len() > 0 {
        let rest = parts.drop_last();
        if i < solid(rest).len() {
            lemma_solid_from(rest, i);
            let k = choose|k: int| 0 <= k < rest.len() && rest[k] == solid(rest)[i];
            assert(parts[k] == solid(rest)[i]);
        } else {
            assert(parts[parts.len() - 1] == parts.last());
        }
    }
}

pub(crate) proof fn lemma_words(text: Seq<char>, i: int)
    requires
        0 <= i < words(text).len(),
    ensures
        words(text)[i].len() > 0,
        is_word(words(text)[i]),
{
    let parts = split(text, Class::Blank);
    lemma_solid_from(parts, i);
    let k = choose|k: int| 0 <= k < parts.len() && parts[k] == words(text)[i];
    lemma_split_words(text, 0, k);
}

proof fn lemma_cut_word(w: Seq<char>, max: int)
    requires
        w.len() > 0,
        is_word(w),
        1 <= max,
    ensures
        is_set(cut_display(w, max)),
{
    let c = cut_display(w, max);
    assert forall|i: int| 0 <= i < c.len() implies #[trigger] c[i] != '\n' by {
        if i < w.len() && (w.len() <= max || i < max - 1) {
            assert(c[i] == w[i]);
            assert(!Class::Blank.holds(w[i]));
        }
    }
}

pub(crate) proof fn lemma_fill_set(text: Seq<char>, n: int, max: int)
    requires
        0 <= n <= words(text).len(),
        1 <= max,
    ensures
        ({
            let f = fill(words(text), n, max);
            &&& f.open.len() > 0 ==> is_set(f.open)
            &&& forall|i: int| 0 <= i < f.full.len() ==> is_set(#[trigger] f.full[i])
        }),
    decreases n,
{
    if n > 0 {
        let ws = words(text);
        lemma_fill_set(text, n - 1, max);
        lemma_words(text, n - 1);
        lemma_cut_word(ws[n - 1], max);
        let f = fill(ws, n - 1, max);
        let g = fill(ws, n, max);
        let c = cut_display(ws[n - 1], max);
        if f.open.len() > 0 && f.open.len() + 1 + ws[n - 1].len() <= max {
            assert forall|i: int| 0 <= i < g.open.len() implies #[trigger] g.open[i] != '\n' by {
                if i < f.open.len() {
                    assert(g.open[i] == f.open[i]);
                } else if i > f.open.len() {
                    assert(g.open[i] == c[i - f.open.len() - 1]);
                }
            }
            assert(g.open.last() == c.last());
        }
    }
}

/// The lines, each behind `indent`.
pub open spec fn behind_indent(ls: Seq<Seq<char>>, indent: Seq<char>) -> Seq<Seq<char>> {
    ls.map_values(|l: Seq<char>| indent + l)
}

proof fn lemma_line_alone(indent: Seq<char>, l: Seq<char>)
    requires
        is_one_line(indent),
        is_set(l),
    ensures
        lines(indent + l + "\n"@) == seq![indent + l],
        lines(indent + l) == seq![indent + l],
{
    let x = indent + l;
    reveal_strlit("\n");
    assert("\n"@ =~= seq!['\n']);
    assert forall|i: int| 0 <= i < x.len() implies #[trigger] x[i] != '\n' by {
        if i < indent.len() {
            assert(x[i] == indent[i]);
        } else {
            assert(x[i] == l[i - indent.len()]);
        }
    }
    assert(x.last() == l.last());
    assert(strip_cr(x) == x);
    lemma_lines_cons(x, Seq::empty());
    assert(x + seq!['\n'] + Seq::<char>::empty() =~= x + "\n"@);
    assert(lines(Seq::<char>::empty()) =~= Seq::<Seq<char>>::empty());
    assert(seq![x] + Seq::<Seq<char>>::empty() =~= seq![x]);
    lemma_find_from(x, Class::Is('\n'), 0);
    let e = find_from(x, Class::Is('\n'), 0);
    if e < x.len() {
        assert(x[e] != '\n');
    }
    assert(x.subrange(0, x.len() as int) =~= x);
}

pub(crate) proof fn lemma_indented_lines(ls: Seq<Seq<char>>, indent: Seq<char>)
    requires
        ls.len() > 0,
        is_one_line(indent),
        forall|i: int| 0 <= i < ls.len() ==> is_set(#[trigger] ls[i]),
    ensures
        lines(indented(ls, indent) + "\n"@) == behind_indent(ls, indent),
        lines(indented(ls, indent)) == behind_indent(ls, indent),
    decreases ls.len(),
{
    reveal_strlit("\n");
    let last = ls.last();
    assert(is_set(ls[ls.len() - 1]));
    lemma_line_alone(indent, last);
    if ls.len() == 1 {
        assert(behind_indent(ls, indent) =~= seq![indent + last]);
    } else {
        let rest = ls.drop_last();
        assert forall|i: int| 0 <= i < rest.len() implies is_set(#[trigger] rest[i]) by {
            assert(rest[i] == ls[i]);
        }
        lemma_indented_lines(rest, indent);
        let a = indented(rest, indent) + "\n"@;
        assert(a.last() == '\n');
        assert(indented(ls, indent) =~= a + (indent + last));
        assert(indented(ls, indent) + "\n"@ =~= a + (indent + last + "\n"@));
        lemma_lines_concat(a, indent + last);
        lemma_lines_concat(a, indent + last + "\n"@);
        assert(behind_indent(ls, indent) =~= behind_indent(rest, indent) + seq![indent + last]);
    }
}

/// Nothing spills across the terminal: every line starts with the indent and
/// has `width` characters at most, wherever the indent is shorter than that.
pub proof fn law_lines_fit(text: Seq<char>, width: int, indent: Seq<char>)
    requires
        indent.len() < width,
        is_one_line(indent),
    ensures
        forall|i: int|
            0 <= i < lines(wrapped(text, width, indent)).len() ==> begins(
                #[trigger] lines(wrapped(text, width, indent))[i],
                indent,
            ) && lines(wrapped(text, width, indent))[i].len() <= width,
{
    let max = width - indent.len();
    let ws = words(text);
    let ls = set_lines(ws, max);
    lemma_set_lines_fit(ws, max);
    lemma_fill_set(text, ws.len() as int, max);
    if ls.len() > 0 {
        lemma_indented_lines(ls, indent);
        assert forall|i: int| 0 <= i < ls.len() implies begins(
            #[trigger] lines(wrapped(text, width, indent))[i],
            indent,
        ) && lines(wrapped(text, width, indent))[i].len() <= width by {
            assert(lines(wrapped(text, width, indent))[i] == indent + ls[i]);
            assert((indent + ls[i]).subrange(0, indent.len() as int) =~= indent);
        }
    }
}

/// The texts with one blank between them.
pub open spec fn spaced(ls: Seq<Seq<char>>) -> Seq<char>
    decreases ls.len(),
{
    if ls.len() == 0 {
        Seq::empty()
    } else if ls.len() == 1 {
        ls[0]
    } else {
        spaced(ls.drop_last()).push(' ') + ls.last()
    }
}

/// The first `n` words, cut to `max` characters.
pub open spec fn cut_words(ws: Seq<Seq<char>>, n: int, max: int) -> Seq<Seq<char>> {
    ws.take(n).map_values(|w: Seq<char>| cut_display(w, max))
}

proof fn lemma_spaced_push(ls: Seq<Seq<char>>, l: Seq<char>)
    ensures
        ls.len() > 0 ==> spaced(ls.push(l)) == spaced(ls).push(' ') + l,
        ls.len() == 0 ==> spaced(ls.push(l)) == l,
{
    assert(ls.push(l).drop_last() =~= ls);
}

proof fn lemma_spaced_extend(ls: Seq<Seq<char>>, a: Seq<char>, b: Seq<char>)
    ensures
        spaced(ls.push(a + b)) == spaced(ls.push(a)) + b,
{
    lemma_spaced_push(ls, a);
    lemma_spaced_push(ls, a + b);
    assert(spaced(ls.push(a + b)) =~= spaced(ls.push(a)) + b);
}

proof fn lemma_fill_keeps_words(ws: Seq<Seq<char>>, n: int, max: int)
    requires
        0 <= n <= ws.len(),
        1 <= max,
        forall|i: int| 0 <= i < ws.len() ==> (#[trigger] ws[i]).len() > 0,
    ensures
        n > 0 ==> fill(ws, n, max).open.len() > 0,
        n > 0 ==> spaced(fill(ws, n, max).full.push(fill(ws, n, max).open)) == spaced(
            cut_words(ws, n, max),
        ),
        n == 0 ==> fill(ws, n, max).full.len() == 0 && fill(ws, n, max).open.len() == 0,
    decreases n,
{
    if n > 0 {
        lemma_fill_keeps_words(ws, n - 1, max);
        let f = fill(ws, n - 1, max);
        let g = fill(ws, n, max);
        let w = cut_display(ws[n - 1], max);
        assert(w.len() > 0);
        let done = cut_words(ws, n - 1, max);
        assert(cut_words(ws, n, max) =~= done.push(w));
        lemma_spaced_push(done, w);
        if n == 1 {
            assert(done.len() == 0);
            lemma_spaced_push(f.full, w);
        } else if f.open.len() + 1 + ws[n - 1].len() > max {
            lemma_spaced_push(f.full.push(f.open), w);
        } else {
            assert(f.open.push(' ') + w =~= f.open + (seq![' '] + w));
            lemma_spaced_extend(f.full, f.open, seq![' '] + w);
            assert(spaced(done) + (seq![' '] + w) =~= spaced(done).push(' ') + w);
        }
    }
}

/// Wrapping drops no word and moves none: read with a blank at each line
/// break, the lines are the words of the text in their order, those longer
/// than a line cut.
pub proof fn law_wrapping_keeps_words(text: Seq<char>, max: int)
    requires
        1 <= max,
    ensures
        spaced(set_lines(words(text), max)) == spaced(
            cut_words(words(text), words(text).len() as int, max),
        ),
{
    let ws = words(text);
    assert forall|i: int| 0 <= i < ws.len() implies (#[trigger] ws[i]).len() > 0 by {
        lemma_words(text, i);
    }
    lemma_fill_keeps_words(ws, ws.len() as int, max);
    if ws.len() == 0 {
        assert(cut_words(ws, 0, max) =~= Seq::<Seq<char>>::empty());
    }
}

}
