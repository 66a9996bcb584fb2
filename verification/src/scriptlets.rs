//! Which files next to a PKGBUILD are its scriptlets, and in what order they
//! are taken.

use vstd::prelude::*;

use crate::scanner::install_view;
use crate::scanner::installs_view;
use crate::scanner::InstallFile;

verus! {

/// A file found next to the PKGBUILD.
pub struct FoundFile {
    /// The bytes of its name.
    pub raw_name: Vec<u8>,
    /// Its name as text, where it is valid UTF-8.
    pub name: Option<String>,
    /// Its content.
    pub content: String,
}

/// What a [`FoundFile`] says.
#[verifier::ext_equal]
pub struct FoundView {
    pub raw_name: Seq<u8>,
    pub name: Option<Seq<char>>,
    pub content: Seq<char>,
}

impl View for FoundFile {
    type V = FoundView;

    open spec fn view(&self) -> FoundView {
        FoundView {
            raw_name: self.raw_name@,
            name: crate::report::opt_text(self.name),
            content: self.content@,
        }
    }
}

/// What a list of files says.
pub open spec fn found_view(v: Seq<FoundFile>) -> Seq<FoundView> {
    v.map_values(|f: FoundFile| f@)
}

/// The bytes of `.install`.
pub open spec fn install_ending() -> Seq<u8> {
    seq![46u8, 105u8, 110u8, 115u8, 116u8, 97u8, 108u8, 108u8]
}

/// Whether a file of that name is a scriptlet: the name has the extension
/// `install`, and something before it.
pub open spec fn is_scriptlet_name(name: Seq<u8>) -> bool {
    name.len() > 8 && name.subrange(name.len() - 8, name.len() as int) == install_ending()
}

/// Whether a file of that name is a scriptlet.
pub fn is_scriptlet(name: &[u8]) -> (b: bool)
    ensures
        b == is_scriptlet_name(name@),
{
    if name.len() <= 8 {
        return false;
    }
    let n: usize = name.len();
    let b: bool = name[n - 8] == 46 && name[n - 7] == 105 && name[n - 6] == 110 && name[n - 5]
        == 115 && name[n - 4] == 116 && name[n - 3] == 97 && name[n - 2] == 108 && name[n - 1]
        == 108;
    let ghost end = name@.subrange(n - 8, n as int);
    if b {
        assert(end =~= install_ending());
    } else {
        assert(end[0] == name@[n - 8] && end[1] == name@[n - 7] && end[2] == name@[n - 6]
            && end[3] == name@[n - 5] && end[4] == name@[n - 4] && end[5] == name@[n - 3]
            && end[6] == name@[n - 2] && end[7] == name@[n - 1]);
    }
    b
}

/// Whether `a` comes before `b`, byte by byte.
pub open spec fn precedes(a: Seq<u8>, b: Seq<u8>) -> bool
    decreases b.len(),
{
    if b.len() == 0 {
        false
    } else if a.len() == 0 {
        true
    } else if a[0] != b[0] {
        a[0] < b[0]
    } else {
        precedes(a.drop_first(), b.drop_first())
    }
}

fn comes_before(a: &[u8], b: &[u8]) -> (r: bool)
    ensures
        r == precedes(a@, b@),
{
    let mut i: usize = 0;
    assert(a@.skip(0) =~= a@);
    assert(b@.skip(0) =~= b@);
    while i < a.len() && i < b.len() && a[i] == b[i]
        invariant
            i <= a@.len(),
            i <= b@.len(),
            precedes(a@, b@) == precedes(a@.skip(i as int), b@.skip(i as int)),
        decreases a@.len() - i,
    {
        assert(a@.skip(i as int).drop_first() =~= a@.skip(i + 1));
        assert(b@.skip(i as int).drop_first() =~= b@.skip(i + 1));
        i = i + 1;
    }
    if i >= b.len() {
        false
    } else if i >= a.len() {
        true
    } else {
        a[i] < b[i]
    }
}

/// The files with `f` put in, behind those that its name does not precede.
pub open spec fn put(fs: Seq<FoundView>, f: FoundView) -> Seq<FoundView>
    decreases fs.len(),
{
    if fs.len() > 0 && precedes(f.raw_name, fs.last().raw_name) {
        put(fs.drop_last(), f).push(fs.last())
    } else {
        fs.push(f)
    }
}

/// The scriptlets among the files, in the order of their names.
pub open spec fn scriptlets_of(fs: Seq<FoundView>) -> Seq<FoundView>
    decreases fs.len(),
{
    if fs.len() == 0 {
        Seq::empty()
    } else if is_scriptlet_name(fs.last().raw_name) {
        put(scriptlets_of(fs.drop_last()), fs.last())
    } else {
        scriptlets_of(fs.drop_last())
    }
}

/// The name that a scriptlet goes by.
pub open spec fn shown_name(f: FoundView) -> Seq<char> {
    match f.name {
        Some(name) => name,
        None => "?.install"@,
    }
}

/// The scriptlets by name and content.
pub open spec fn as_installs(fs: Seq<FoundView>) -> Seq<(Seq<char>, Seq<char>)> {
    fs.map_values(|f: FoundView| (shown_name(f), f.content))
}

/// What a list of references to files says.
pub open spec fn refs_view(v: Seq<&FoundFile>) -> Seq<FoundView> {
    v.map_values(|f: &FoundFile| f@)
}

fn put_file<'a>(out: &mut Vec<&'a FoundFile>, f: &'a FoundFile)
    ensures
        refs_view(final(out)@) == put(refs_view(old(out)@), f@),
{
    let ghost given = out@;
    let mut i: usize = out.len();
    let ghost all = refs_view(given);
    assert(all.take(all.len() as int) =~= all);
    assert(put(all, f@) =~= put(all.take(i as int), f@) + all.skip(i as int));
    while i > 0 && comes_before(f.raw_name.as_slice(), out[i - 1].raw_name.as_slice())
        invariant
            i <= out@.len(),
            out@ == given,
            all == refs_view(given),
            put(all, f@) == put(all.take(i as int), f@) + all.skip(i as int),
        decreases i,
    {
        assert(all.take(i as int).last() == out@[i - 1]@);
        assert(all.take(i as int).drop_last() =~= all.take(i - 1));
        assert(put(all.take(i - 1), f@).push(all[i - 1]) + all.skip(i as int) =~= put(
            all.take(i - 1),
            f@,
        ) + all.skip(i - 1));
        i = i - 1;
    }
    proof {
        if i > 0 {
            assert(all.take(i as int).last() == out@[i - 1]@);
        }
    }
    out.insert(i, f);
    assert(refs_view(out@) =~= all.take(i as int).push(f@) + all.skip(i as int));
}

fn named(f: &FoundFile) -> (file: InstallFile)
    ensures
        install_view(file) == (shown_name(f@), f@.content),
{
    let name: String = match &f.name {
        Some(name) => name.clone(),
        None => "?.install".to_owned(),
    };
    InstallFile { name, content: f.content.clone() }
}

/// The scriptlets among the files that stand next to a PKGBUILD, in the order
/// of their names.
pub fn gather_scriptlets(files: &Vec<FoundFile>) -> (out: Vec<InstallFile>)
    ensures
        installs_view(out@) == as_installs(scriptlets_of(found_view(files@))),
{
    let ghost all = found_view(files@);
    let mut kept: Vec<&FoundFile> = Vec::new();
    let mut i: usize = 0;
    assert(refs_view(kept@) =~= scriptlets_of(all.take(0)));
    while i < files.len()
        invariant
            i <= files@.len(),
            all == found_view(files@),
            refs_view(kept@) == scriptlets_of(all.take(i as int)),
        decreases files@.len() - i,
    {
        assert(all.take(i + 1).drop_last() =~= all.take(i as int));
        assert(all.take(i + 1).last() == files@[i as int]@);
        if is_scriptlet(files[i].raw_name.as_slice()) {
            put_file(&mut kept, &files[i]);
        }
        i = i + 1;
    }
    assert(all.take(all.len() as int) =~= all);
    let ghost chosen = refs_view(kept@);
    let mut out: Vec<InstallFile> = Vec::new();
    let mut k: usize = 0;
    while k < kept.len()
        invariant
            k <= kept@.len(),
            chosen == refs_view(kept@),
            installs_view(out@) =~= as_installs(chosen).take(k as int),
        decreases kept@.len() - k,
    {
        let ghost before = out@;
        let file: InstallFile = named(kept[k]);
        out.push(file);
        assert(chosen[k as int] == kept@[k as int]@);
        assert(as_installs(chosen)[k as int] == install_view(file));
        assert(installs_view(out@) =~= installs_view(before).push(install_view(file)));
        k = k + 1;
    }
    assert(as_installs(chosen).take(k as int) =~= as_installs(chosen));
    out
}

// ---------------------------------------------------------------------------
// Laws
// ---------------------------------------------------------------------------

proof fn lemma_precedes_total(a: Seq<u8>, b: Seq<u8>)
    ensures
        a != b ==> precedes(a, b) || precedes(b, a),
        !(precedes(a, b) && precedes(b, a)),
        a == b ==> !precedes(a, b),
    decreases a.len(),
{
    if a.len() > 0 && b.len() > 0 && a[0] == b[0] {
        lemma_precedes_total(a.drop_first(), b.drop_first());
        if a.drop_first() == b.drop_first() {
            assert(a =~= seq![a[0]] + a.drop_first());
            assert(b =~= seq![b[0]] + b.drop_first());
        }
    } else if a.len() == 0 && b.len() == 0 {
        assert(a =~= b);
    }
}

proof fn lemma_precedes_transitive(a: Seq<u8>, b: Seq<u8>, c: Seq<u8>)
    requires
        precedes(a, b),
        precedes(b, c),
    ensures
        precedes(a, c),
    decreases a.len(),
{
    if a.len() > 0 && a[0] == b[0] && b[0] == c[0] {
        lemma_precedes_transitive(a.drop_first(), b.drop_first(), c.drop_first());
    }
}

/// Whether the names stand in order: none precedes an earlier one.
pub open spec fn in_order(fs: Seq<FoundView>) -> bool {
    forall|i: int, j: int|
        0 <= i < j < fs.len() ==> !precedes(
            (#[trigger] fs[j]).raw_name,
            (#[trigger] fs[i]).raw_name,
        )
}

proof fn lemma_put(fs: Seq<FoundView>, f: FoundView)
    requires
        in_order(fs),
    ensures
        in_order(put(fs, f)),
        put(fs, f).to_multiset() == fs.to_multiset().insert(f),
    decreases fs.len(),
{
    broadcast use vstd::seq_lib::group_to_multiset_ensures;

    if fs.len() > 0 && precedes(f.raw_name, fs.last().raw_name) {
        let rest = fs.drop_last();
        let r = put(rest, f);
        lemma_put(rest, f);
        assert(fs =~= rest.push(fs.last()));
        let out = r.push(fs.last());
        assert forall|i: int, j: int| 0 <= i < j < out.len() implies !precedes(
            (#[trigger] out[j]).raw_name,
            (#[trigger] out[i]).raw_name,
        ) by {
            if j == out.len() - 1 {
                assert(r.contains(r[i]));
                assert(rest.to_multiset().insert(f).count(r[i]) > 0);
                if r[i] == f {
                    lemma_precedes_total(f.raw_name, fs.last().raw_name);
                } else {
                    assert(rest.contains(r[i]));
                    let k = choose|k: int| 0 <= k < rest.len() && rest[k] == r[i];
                    assert(fs[k] == r[i]);
                    assert(!precedes(fs[fs.len() - 1].raw_name, fs[k].raw_name));
                }
            } else {
                assert(out[i] == r[i] && out[j] == r[j]);
            }
        }
    } else {
        let out = fs.push(f);
        assert forall|i: int, j: int| 0 <= i < j < out.len() implies !precedes(
            (#[trigger] out[j]).raw_name,
            (#[trigger] out[i]).raw_name,
        ) by {
            if j == out.len() - 1 {
                let l = fs.last();
                assert(out[i] == fs[i]);
                if i < fs.len() - 1 {
                    assert(!precedes(fs[fs.len() - 1].raw_name, fs[i].raw_name));
                }
                if precedes(f.raw_name, fs[i].raw_name) {
                    lemma_precedes_total(fs[i].raw_name, l.raw_name);
                    if fs[i].raw_name != l.raw_name {
                        lemma_precedes_transitive(f.raw_name, fs[i].raw_name, l.raw_name);
                    }
                }
            } else {
                assert(out[i] == fs[i] && out[j] == fs[j]);
            }
        }
    }
}

/// The scriptlets are exactly the files with a scriptlet's name, each as often
/// as it was found, and their names stand in order.
pub proof fn law_scriptlets_are_those_named_so(fs: Seq<FoundView>)
    ensures
        in_order(scriptlets_of(fs)),
        scriptlets_of(fs).to_multiset() == fs.to_multiset().filter(
            |f: FoundView| is_scriptlet_name(f.raw_name),
        ),
    decreases fs.len(),
{
    broadcast use vstd::seq_lib::group_to_multiset_ensures;
    broadcast use vstd::multiset::group_multiset_axioms;

    let keep = |f: FoundView| is_scriptlet_name(f.raw_name);
    if fs.len() == 0 {
        assert(scriptlets_of(fs).to_multiset() =~= fs.to_multiset().filter(keep));
    } else {
        let rest = fs.drop_last();
        law_scriptlets_are_those_named_so(rest);
        assert(fs =~= rest.push(fs.last()));
        if keep(fs.last()) {
            lemma_put(scriptlets_of(rest), fs.last());
        }
        assert(scriptlets_of(fs).to_multiset() =~= fs.to_multiset().filter(keep));
    }
}

/// Whether no two of the files share a name.
pub open spec fn names_differ(fs: Seq<FoundView>) -> bool {
    forall|i: int, j: int|
        0 <= i < j < fs.len() ==> (#[trigger] fs[i]).raw_name != (#[trigger] fs[j]).raw_name
}

proof fn lemma_orders_agree(a: Seq<FoundView>, b: Seq<FoundView>)
    requires
        in_order(a),
        in_order(b),
        a.to_multiset() == b.to_multiset(),
        forall|x: FoundView, y: FoundView|
            a.contains(x) && a.contains(y) && x.raw_name == y.raw_name ==> x == y,
    ensures
        a == b,
    decreases a.len(),
{
    broadcast use vstd::seq_lib::group_to_multiset_ensures;
    broadcast use vstd::multiset::group_multiset_axioms;

    assert(a.len() == a.to_multiset().len());
    assert(b.len() == b.to_multiset().len());
    if a.len() > 0 {
        let x = a.last();
        let y = b.last();
        assert(a.contains(x) && b.contains(y));
        assert(b.to_multiset().count(x) > 0 && a.to_multiset().count(y) > 0);
        assert(b.contains(x) && a.contains(y));
        let i = choose|i: int| 0 <= i < a.len() && a[i] == y;
        let j = choose|j: int| 0 <= j < b.len() && b[j] == x;
        lemma_precedes_total(x.raw_name, y.raw_name);
        if i < a.len() - 1 {
            assert(!precedes(a[a.len() - 1].raw_name, a[i].raw_name));
        }
        if j < b.len() - 1 {
            assert(!precedes(b[b.len() - 1].raw_name, b[j].raw_name));
        }
        assert(x == y);
        assert(a =~= a.drop_last().push(x));
        assert(b =~= b.drop_last().push(x));
        assert(a.drop_last().to_multiset() =~= a.to_multiset().remove(x));
        assert(b.drop_last().to_multiset() =~= b.to_multiset().remove(x));
        assert forall|p: FoundView, q: FoundView|
            a.drop_last().contains(p) && a.drop_last().contains(q) && p.raw_name
                == q.raw_name implies p == q by {
            let m = choose|m: int| 0 <= m < a.drop_last().len() && a.drop_last()[m] == p;
            let n = choose|n: int| 0 <= n < a.drop_last().len() && a.drop_last()[n] == q;
            assert(a[m] == p && a[n] == q);
            assert(a.contains(p) && a.contains(q));
        }
        lemma_orders_agree(a.drop_last(), b.drop_last());
    } else {
        assert(a =~= b);
    }
}

/// The order in which a directory is listed does not matter: the same files,
/// listed otherwise, give the same scriptlets in the same order.
pub proof fn law_listing_order_is_irrelevant(a: Seq<FoundView>, b: Seq<FoundView>)
    requires
        names_differ(a),
        a.to_multiset() == b.to_multiset(),
    ensures
        scriptlets_of(a) == scriptlets_of(b),
{
    broadcast use vstd::seq_lib::group_to_multiset_ensures;
    broadcast use vstd::multiset::group_multiset_axioms;

    law_scriptlets_are_those_named_so(a);
    law_scriptlets_are_those_named_so(b);
    let s = scriptlets_of(a);
    assert forall|x: FoundView, y: FoundView|
        s.contains(x) && s.contains(y) && x.raw_name == y.raw_name implies x == y by {
        assert(s.to_multiset().count(x) > 0 && s.to_multiset().count(y) > 0);
        assert(a.contains(x) && a.contains(y));
        let i = choose|i: int| 0 <= i < a.len() && a[i] == x;
        let j = choose|j: int| 0 <= j < a.len() && a[j] == y;
        if i < j {
            assert(a[i].raw_name != a[j].raw_name);
        } else if j < i {
            assert(a[j].raw_name != a[i].raw_name);
        }
    }
    lemma_orders_agree(s, scriptlets_of(b));
}

}
