//! The order in which findings are shown: override gates first, then what is
//! new, then the heavier match, then the earlier line. Findings that tie keep
//! the order in which they were found.

use vstd::prelude::*;

use crate::report::findings_view;
use crate::report::first_gate;
use crate::report::has_gate;
use crate::report::lemma_gate_exists;
use crate::report::total_points;
use crate::report::Finding;
use crate::report::FindingView;

verus! {

/// Whether `a` comes before `b`, whichever was found first.
pub open spec fn outranks(a: FindingView, b: FindingView) -> bool {
    if a.override_gate != b.override_gate {
        a.override_gate
    } else if a.is_new != b.is_new {
        a.is_new
    } else if a.points != b.points {
        a.points > b.points
    } else {
        a.line < b.line
    }
}

/// Whether no finding comes after one that it outranks.
pub open spec fn is_ordered(fs: Seq<FindingView>) -> bool {
    forall|i: int, j: int| 0 <= i < j < fs.len() ==> !outranks(#[trigger] fs[j], #[trigger] fs[i])
}

/// `fs` with `f` put behind the last finding that `f` does not outrank.
pub open spec fn place(fs: Seq<FindingView>, f: FindingView) -> Seq<FindingView>
    decreases fs.len(),
{
    if fs.len() == 0 || !outranks(f, fs.last()) {
        fs.push(f)
    } else {
        place(fs.drop_last(), f).push(fs.last())
    }
}

/// The findings in the order in which they are shown.
pub open spec fn ordered(fs: Seq<FindingView>) -> Seq<FindingView>
    decreases fs.len(),
{
    if fs.len() == 0 {
        fs
    } else {
        place(ordered(fs.drop_last()), fs.last())
    }
}

/// Whether `a` comes before `b`.
fn comes_before(a: &Finding, b: &Finding) -> (r: bool)
    ensures
        r == outranks(a@, b@),
{
    if a.override_gate != b.override_gate {
        a.override_gate
    } else if a.is_new != b.is_new {
        a.is_new
    } else if a.points != b.points {
        a.points > b.points
    } else {
        a.line < b.line
    }
}

proof fn lemma_place_at(fs: Seq<FindingView>, f: FindingView, j: int)
    requires
        0 <= j <= fs.len(),
        forall|i: int| j <= i < fs.len() ==> outranks(f, #[trigger] fs[i]),
        j == 0 || !outranks(f, fs[j - 1]),
    ensures
        place(fs, f) == fs.insert(j, f),
    decreases fs.len(),
{
    if j == fs.len() {
        assert(fs.insert(j, f) =~= fs.push(f));
    } else {
        assert(outranks(f, fs[fs.len() - 1]));
        lemma_place_at(fs.drop_last(), f, j);
        assert(fs.insert(j, f) =~= fs.drop_last().insert(j, f).push(fs.last()));
    }
}

/// Highest-impact findings first; new findings boosted to the top within
/// a tier so supply-chain changes are visible immediately.
pub fn sort_findings(findings: &mut Vec<Finding>)
    ensures
        findings_view(final(findings)@) == ordered(findings_view(old(findings)@)),
{
    let ghost given = findings_view(findings@);
    let n: usize = findings.len();
    let mut i: usize = 0;
    assert(given.take(0) =~= Seq::<FindingView>::empty());
    assert(findings_view(findings@) =~= ordered(given.take(0)) + given.skip(0));
    while i < n
        invariant
            i <= n,
            n == findings@.len(),
            given.len() == n,
            ordered(given.take(i as int)).len() == i,
            findings_view(findings@) == ordered(given.take(i as int)) + given.skip(i as int),
        decreases n - i,
    {
        let ghost done = ordered(given.take(i as int));
        let ghost held = findings@;
        let f: Finding = findings.remove(i);
        assert(f@ == given[i as int]) by {
            assert(findings_view(held)[i as int] == given.skip(i as int)[0]);
        }
        let mut j: usize = i;
        assert(findings_view(findings@) =~= done + given.skip(i + 1)) by {
            assert forall|m: int| 0 <= m < findings@.len() implies findings_view(findings@)[m] == (
            done + given.skip(i + 1))[m] by {
                if m < i {
                    assert(findings@[m] == held[m]);
                    assert(findings_view(held)[m] == done[m]);
                } else {
                    assert(findings@[m] == held[m + 1]);
                    assert(findings_view(held)[m + 1] == given.skip(i as int)[m + 1 - i]);
                }
            }
        }
        while j > 0 && comes_before(&f, &findings[j - 1])
            invariant
                j <= i < n,
                n == given.len(),
                findings@.len() == n - 1,
                done.len() == i,
                findings_view(findings@) == done + given.skip(i + 1),
                forall|m: int| j <= m < i ==> outranks(f@, #[trigger] done[m]),
            decreases j,
        {
            assert(findings_view(findings@)[j - 1] == findings@[j - 1]@);
            assert(done[j - 1] == findings@[j - 1]@);
            j = j - 1;
        }
        proof {
            if j > 0 {
                assert(findings_view(findings@)[j - 1] == findings@[j - 1]@);
                assert(done[j - 1] == findings@[j - 1]@);
            }
            lemma_place_at(done, f@, j as int);
            assert(given.take(i + 1).drop_last() =~= given.take(i as int));
            assert(given.take(i + 1).last() == given[i as int]);
        }
        let ghost parted = findings@;
        findings.insert(j, f);
        assert(findings_view(findings@) =~= findings_view(parted).insert(j as int, f@));
        assert(findings_view(parted).insert(j as int, f@) =~= done.insert(j as int, f@)
            + given.skip(i + 1));
        i = i + 1;
    }
    assert(given.take(n as int) =~= given);
    assert(findings_view(findings@) =~= ordered(given));
}

// ---------------------------------------------------------------------------
// Laws
// ---------------------------------------------------------------------------

/// Where `place` puts a finding.
proof fn lemma_place_somewhere(fs: Seq<FindingView>, f: FindingView) -> (j: int)
    ensures
        0 <= j <= fs.len(),
        forall|i: int| j <= i < fs.len() ==> outranks(f, #[trigger] fs[i]),
        j == 0 || !outranks(f, fs[j - 1]),
        place(fs, f) == fs.insert(j, f),
    decreases fs.len(),
{
    let j = if fs.len() == 0 || !outranks(f, fs.last()) {
        fs.len() as int
    } else {
        let k = lemma_place_somewhere(fs.drop_last(), f);
        assert forall|i: int| k <= i < fs.len() implies outranks(f, #[trigger] fs[i]) by {
            if i < fs.len() - 1 {
                assert(fs.drop_last()[i] == fs[i]);
            }
        }
        k
    };
    lemma_place_at(fs, f, j);
    j
}

proof fn lemma_place_keeps_order(fs: Seq<FindingView>, f: FindingView)
    requires
        is_ordered(fs),
    ensures
        is_ordered(place(fs, f)),
{
    let j = lemma_place_somewhere(fs, f);
    let r = fs.insert(j, f);
    assert forall|a: int, b: int| 0 <= a < b < r.len() implies !outranks(
        #[trigger] r[b],
        #[trigger] r[a],
    ) by {
        let x = if a < j { a } else { a - 1 };
        let y = if b < j { b } else { b - 1 };
        if a == j {
            assert(r[b] == fs[y]);
        } else if b == j {
            assert(r[a] == fs[x]);
            if x < j - 1 {
                assert(!outranks(fs[j - 1], fs[x]));
            }
        } else {
            assert(r[a] == fs[x] && r[b] == fs[y]);
        }
    }
}

/// Shown findings never follow one that they outrank: gates come first, then
/// what is new, then the heavier match, then the earlier line.
pub proof fn law_shown_in_order(fs: Seq<FindingView>)
    ensures
        is_ordered(ordered(fs)),
    decreases fs.len(),
{
    if fs.len() > 0 {
        law_shown_in_order(fs.drop_last());
        lemma_place_keeps_order(ordered(fs.drop_last()), fs.last());
    }
}

proof fn lemma_place_multiset(fs: Seq<FindingView>, f: FindingView)
    ensures
        place(fs, f).to_multiset() == fs.to_multiset().insert(f),
    decreases fs.len(),
{
    broadcast use vstd::seq_lib::group_to_multiset_ensures;

    if fs.len() > 0 && outranks(f, fs.last()) {
        lemma_place_multiset(fs.drop_last(), f);
        assert(fs =~= fs.drop_last().push(fs.last()));
        assert(place(fs, f).to_multiset() =~= fs.to_multiset().insert(f));
    }
}

/// Ordering drops no finding and makes none up.
pub proof fn law_order_permutes(fs: Seq<FindingView>)
    ensures
        ordered(fs).to_multiset() == fs.to_multiset(),
        ordered(fs).len() == fs.len(),
    decreases fs.len(),
{
    broadcast use vstd::seq_lib::group_to_multiset_ensures;

    if fs.len() > 0 {
        law_order_permutes(fs.drop_last());
        lemma_place_multiset(ordered(fs.drop_last()), fs.last());
        assert(fs =~= fs.drop_last().push(fs.last()));
        let j = lemma_place_somewhere(ordered(fs.drop_last()), fs.last());
    }
}

/// Whether neither of the two outranks the other.
pub open spec fn ties(a: FindingView, b: FindingView) -> bool {
    !outranks(a, b) && !outranks(b, a)
}

proof fn lemma_place_stable(fs: Seq<FindingView>, f: FindingView, r: FindingView)
    ensures
        place(fs, f).filter(|x: FindingView| ties(x, r)) == if ties(f, r) {
            fs.filter(|x: FindingView| ties(x, r)).push(f)
        } else {
            fs.filter(|x: FindingView| ties(x, r))
        },
    decreases fs.len(),
{
    reveal(Seq::filter);
    let p = |x: FindingView| ties(x, r);
    if fs.len() == 0 || !outranks(f, fs.last()) {
        assert(fs.push(f).drop_last() =~= fs);
    } else {
        lemma_place_stable(fs.drop_last(), f, r);
        let q = place(fs.drop_last(), f);
        assert(q.push(fs.last()).drop_last() =~= q);
    }
}

/// Findings that tie are shown in the order in which they were found.
pub proof fn law_order_is_stable(fs: Seq<FindingView>, r: FindingView)
    ensures
        ordered(fs).filter(|x: FindingView| ties(x, r)) == fs.filter(|x: FindingView| ties(x, r)),
    decreases fs.len(),
{
    reveal(Seq::filter);
    if fs.len() > 0 {
        law_order_is_stable(fs.drop_last(), r);
        lemma_place_stable(ordered(fs.drop_last()), fs.last(), r);
    }
}

/// Ordering findings that are in order changes nothing.
pub proof fn law_order_is_idempotent(fs: Seq<FindingView>)
    ensures
        ordered(ordered(fs)) == ordered(fs),
{
    law_shown_in_order(fs);
    lemma_ordered_fixed(ordered(fs));
}

proof fn lemma_ordered_fixed(fs: Seq<FindingView>)
    requires
        is_ordered(fs),
    ensures
        ordered(fs) == fs,
    decreases fs.len(),
{
    if fs.len() > 0 {
        let rest = fs.drop_last();
        assert forall|i: int, j: int| 0 <= i < j < rest.len() implies !outranks(
            #[trigger] rest[j],
            #[trigger] rest[i],
        ) by {
            assert(rest[i] == fs[i] && rest[j] == fs[j]);
        }
        lemma_ordered_fixed(rest);
        if rest.len() > 0 {
            assert(rest.last() == fs[fs.len() - 2]);
        }
        assert(fs =~= rest.push(fs.last()));
    }
}

proof fn lemma_place_points(fs: Seq<FindingView>, f: FindingView)
    ensures
        total_points(place(fs, f)) == total_points(fs) + f.points,
    decreases fs.len(),
{
    if fs.len() == 0 || !outranks(f, fs.last()) {
        assert(fs.push(f).drop_last() =~= fs);
    } else {
        lemma_place_points(fs.drop_last(), f);
        let q = place(fs.drop_last(), f);
        assert(q.push(fs.last()).drop_last() =~= q);
    }
}

/// Ordering changes neither the points of the findings nor whether a gate is
/// among them, and so neither score nor tier.
pub proof fn law_order_keeps_score(fs: Seq<FindingView>)
    ensures
        total_points(ordered(fs)) == total_points(fs),
        first_gate(ordered(fs)) is Some <==> first_gate(fs) is Some,
        crate::report::trust_of(ordered(fs)) == crate::report::trust_of(fs),
        crate::report::tier_of(ordered(fs)) == crate::report::tier_of(fs),
{
    lemma_order_points(fs);
    lemma_order_gate(fs);
    lemma_gate_exists(fs, 0);
    lemma_gate_exists(ordered(fs), 0);
}

proof fn lemma_order_points(fs: Seq<FindingView>)
    ensures
        total_points(ordered(fs)) == total_points(fs),
    decreases fs.len(),
{
    if fs.len() > 0 {
        lemma_order_points(fs.drop_last());
        lemma_place_points(ordered(fs.drop_last()), fs.last());
    }
}

proof fn lemma_order_gate(fs: Seq<FindingView>)
    ensures
        has_gate(ordered(fs)) == has_gate(fs),
{
    broadcast use vstd::seq_lib::group_to_multiset_ensures;

    law_order_permutes(fs);
    if has_gate(fs) {
        let i = choose|i: int| 0 <= i < fs.len() && (#[trigger] fs[i]).override_gate;
        assert(fs.contains(fs[i]));
        assert(ordered(fs).to_multiset().count(fs[i]) > 0);
        assert(ordered(fs).contains(fs[i]));
    }
    if has_gate(ordered(fs)) {
        let o = ordered(fs);
        let i = choose|i: int| 0 <= i < o.len() && (#[trigger] o[i]).override_gate;
        assert(o.contains(o[i]));
        assert(fs.to_multiset().count(o[i]) > 0);
        assert(fs.contains(o[i]));
    }
}

}
