//! Collapsing a list of paths into the minimal set of watch roots.
//!
//! Watching a directory covers every path beneath it, so a path that lies
//! under another listed path adds nothing to a watch set.

use vstd::prelude::*;

verus! {

/// `q` covers `p`: `p` is `q` itself or lies beneath the directory `q`.
pub open spec fn covers(q: Seq<char>, p: Seq<char>) -> bool {
    p == q || (q.len() < p.len() && p.subrange(0, q.len() as int) == q && p[q.len() as int]
        == '/')
}

/// `q` covers `p` and is a different path.
pub open spec fn strictly_covers(q: Seq<char>, p: Seq<char>) -> bool {
    q != p && covers(q, p)
}

/// No path of `s` lies strictly above `p`.
pub open spec fn is_root(s: Seq<Seq<char>>, p: Seq<char>) -> bool {
    forall|j: int| 0 <= j < s.len() ==> !strictly_covers(#[trigger] s[j], p)
}

/// The roots among the first `n` paths of `s`, each once, in order of first
/// appearance.
pub open spec fn reduce_upto(s: Seq<Seq<char>>, n: nat) -> Seq<Seq<char>>
    decreases n,
{
    if n == 0 {
        seq![]
    } else {
        let r = reduce_upto(s, (n - 1) as nat);
        let p = s[n - 1];
        if is_root(s, p) && !r.contains(p) {
            r.push(p)
        } else {
            r
        }
    }
}

/// The paths of `s` that no other path of `s` covers, without repetition.
pub open spec fn reduced(s: Seq<Seq<char>>) -> Seq<Seq<char>> {
    reduce_upto(s, s.len())
}

/// Some path of `r` covers `p`.
pub open spec fn covered(p: Seq<char>, r: Seq<Seq<char>>) -> bool {
    exists|j: int| 0 <= j < r.len() && covers(#[trigger] r[j], p)
}

/// Every path of `p` is covered by some path of `r`.
pub open spec fn covered_by(p: Seq<Seq<char>>, r: Seq<Seq<char>>) -> bool {
    forall|i: int| 0 <= i < p.len() ==> #[trigger] covered(p[i], r)
}

pub open spec fn no_dups(s: Seq<Seq<char>>) -> bool {
    forall|i: int, j: int| 0 <= i < j < s.len() ==> s[i] != s[j]
}

proof fn lemma_strictly_covers_trans(a: Seq<char>, b: Seq<char>, c: Seq<char>)
    requires
        strictly_covers(a, b),
        strictly_covers(b, c),
    ensures
        strictly_covers(a, c),
{
    assert(a.len() < b.len() < c.len());
    assert(c.subrange(0, a.len() as int) =~= c.subrange(0, b.len() as int).subrange(
        0,
        a.len() as int,
    ));
    assert(c[a.len() as int] == c.subrange(0, b.len() as int)[a.len() as int]);
}

proof fn lemma_reduce_upto(s: Seq<Seq<char>>, n: nat)
    requires
        n <= s.len(),
    ensures
        forall|k: int|
            0 <= k < reduce_upto(s, n).len() ==> s.contains(#[trigger] reduce_upto(s, n)[k])
                && is_root(s, reduce_upto(s, n)[k]),
        no_dups(reduce_upto(s, n)),
        forall|i: int|
            0 <= i < n && is_root(s, #[trigger] s[i]) ==> reduce_upto(s, n).contains(s[i]),
    decreases n,
{
    if n > 0 {
        lemma_reduce_upto(s, (n - 1) as nat);
        let r = reduce_upto(s, (n - 1) as nat);
        let p = s[n - 1];
        if is_root(s, p) && !r.contains(p) {
            assert(s.contains(p));
            assert forall|i: int| 0 <= i < n && is_root(s, #[trigger] s[i]) implies r.push(
                p,
            ).contains(s[i]) by {
                if i < n - 1 {
                    let k = choose|k: int| 0 <= k < r.len() && r[k] == s[i];
                    assert(r.push(p)[k] == s[i]);
                } else {
                    assert(r.push(p)[r.len() as int] == s[i]);
                }
            }
        }
    }
}

/// Some root of `s` covers `p`, which is in `s`.
proof fn lemma_root_above(s: Seq<Seq<char>>, i: int)
    requires
        0 <= i < s.len(),
    ensures
        exists|j: int| 0 <= j < s.len() && is_root(s, #[trigger] s[j]) && covers(s[j], s[i]),
    decreases s[i].len(),
{
    if is_root(s, s[i]) {
        assert(covers(s[i], s[i]));
    } else {
        let k = choose|k: int| 0 <= k < s.len() && strictly_covers(#[trigger] s[k], s[i]);
        assert(s[k].len() < s[i].len());
        lemma_root_above(s, k);
        let j = choose|j: int| 0 <= j < s.len() && is_root(s, #[trigger] s[j]) && covers(s[j], s[k]);
        if s[j] != s[k] {
            lemma_strictly_covers_trans(s[j], s[k], s[i]);
        }
    }
}

proof fn lemma_reduce_of_roots(t: Seq<Seq<char>>, n: nat)
    requires
        n <= t.len(),
        no_dups(t),
        forall|k: int| 0 <= k < t.len() ==> is_root(t, #[trigger] t[k]),
    ensures
        reduce_upto(t, n) == t.take(n as int),
    decreases n,
{
    if n > 0 {
        lemma_reduce_of_roots(t, (n - 1) as nat);
        let r = reduce_upto(t, (n - 1) as nat);
        assert(is_root(t, t[n - 1]));
        assert(!r.contains(t[n - 1]));
        assert(t.take(n as int) =~= t.take(n - 1).push(t[n - 1]));
    }
}

/// What reduction keeps of a list of paths: reducing twice gives what reducing
/// once gives, every path kept was in the list, and watching the kept paths
/// covers every path of the list.
pub proof fn reduce_paths_laws(s: Seq<Seq<char>>)
    ensures
        reduced(reduced(s)) == reduced(s),
        forall|k: int| 0 <= k < reduced(s).len() ==> s.contains(#[trigger] reduced(s)[k]),
        covered_by(s, reduced(s)),
{
    let r = reduced(s);
    lemma_reduce_upto(s, s.len());
    assert forall|k: int| 0 <= k < r.len() implies is_root(r, #[trigger] r[k]) by {
        assert forall|j: int| 0 <= j < r.len() implies !strictly_covers(#[trigger] r[j], r[k]) by {
            assert(s.contains(r[j]));
            let m = choose|m: int| 0 <= m < s.len() && s[m] == r[j];
            assert(!strictly_covers(s[m], r[k]));
        }
    }
    lemma_reduce_of_roots(r, r.len());
    assert(r.take(r.len() as int) =~= r);
    assert forall|i: int| 0 <= i < s.len() implies #[trigger] covered(s[i], r) by {
        lemma_root_above(s, i);
        let m = choose|m: int| 0 <= m < s.len() && is_root(s, #[trigger] s[m]) && covers(s[m], s[i]);
        assert(r.contains(s[m]));
        let j = choose|j: int| 0 <= j < r.len() && r[j] == s[m];
        assert(covers(r[j], s[i]));
    }
}

/// Whether `q` covers `p`.
fn covers_exec(q: &String, p: &String) -> (r: bool)
    ensures
        r == covers(q@, p@),
{
    let ql = q.as_str().unicode_len();
    let pl = p.as_str().unicode_len();
    if ql > pl {
        return false;
    }
    let mut i: usize = 0;
    while i < ql
        invariant
            ql == q@.len(),
            pl == p@.len(),
            ql <= pl,
            i <= ql,
            forall|k: int| 0 <= k < i ==> p@[k] == q@[k],
        decreases ql - i,
    {
        if q.as_str().get_char(i) != p.as_str().get_char(i) {
            assert(p@.subrange(0, ql as int)[i as int] != q@[i as int]);
            return false;
        }
        i = i + 1;
    }
    assert(p@.subrange(0, ql as int) =~= q@);
    if ql == pl {
        assert(p@ =~= q@);
        true
    } else {
        p.as_str().get_char(ql) == '/'
    }
}

/// Whether no path of `s` lies strictly above `p`.
fn is_root_exec(s: &Vec<String>, p: &String) -> (r: bool)
    ensures
        r == is_root(s.deep_view(), p@),
{
    let mut j: usize = 0;
    while j < s.len()
        invariant
            j <= s@.len(),
            forall|k: int| 0 <= k < j ==> !strictly_covers(#[trigger] s.deep_view()[k], p@),
        decreases s@.len() - j,
    {
        let same = s[j] == *p;
        if !same && covers_exec(&s[j], p) {
            assert(strictly_covers(s.deep_view()[j as int], p@));
            return false;
        }
        j = j + 1;
    }
    true
}

/// Whether `p` is one of the paths of `s`.
pub(crate) fn contains_path(s: &Vec<String>, p: &String) -> (r: bool)
    ensures
        r == s.deep_view().contains(p@),
{
    let mut j: usize = 0;
    while j < s.len()
        invariant
            j <= s@.len(),
            forall|k: int| 0 <= k < j ==> s.deep_view()[k] != p@,
        decreases s@.len() - j,
    {
        if s[j] == *p {
            assert(s.deep_view()[j as int] == p@);
            return true;
        }
        j = j + 1;
    }
    false
}

/// Reduces `paths` to the paths that no other listed path covers, each once,
/// in order of first appearance.
pub fn reduce_paths(paths: &Vec<String>) -> (r: Vec<String>)
    ensures
        r.deep_view() == reduced(paths.deep_view()),
{
    let mut out: Vec<String> = Vec::new();
    let mut i: usize = 0;
    while i < paths.len()
        invariant
            i <= paths@.len(),
            out.deep_view() == reduce_upto(paths.deep_view(), i as nat),
        decreases paths@.len() - i,
    {
        let p = &paths[i];
        if is_root_exec(paths, p) && !contains_path(&out, p) {
            out.push(p.clone());
            assert(out.deep_view() =~= reduce_upto(paths.deep_view(), i as nat).push(p@));
        }
        i = i + 1;
    }
    out
}

} // verus!
