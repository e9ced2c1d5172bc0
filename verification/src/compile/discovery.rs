//! The deterministic pre-pass of a two-stage compile: leaves whose token
//! sets are similar enough are linked, and each connected group of two or
//! more leaves becomes a candidate cluster.
//!
//! Tokenising a leaf's text is the caller's part; it hands in each leaf's
//! distinct tokens.
use vstd::prelude::*;

use super::cluster::LoadedLeaf;
use crate::text::{cat3, lowercase, push_str, strings_contain, strs, to_lowercase};

verus! {

/// A candidate cluster: the positions of its leaves, ascending.
#[derive(Debug, Clone, PartialEq, Eq)]
pub struct CandidateCluster {
    pub leaf_indices: Vec<usize>,
}

/// The text a leaf's tokens are taken from: its title, summary and body,
/// lowercased.
pub open spec fn searchable_spec(l: LoadedLeaf) -> Seq<char> {
    lowercase(
        l.title@ + " "@ + (match l.summary {
            Some(x) => x@,
            None => seq![],
        }) + " "@ + l.body@,
    )
}

pub fn searchable_text(leaf: &LoadedLeaf) -> (r: String)
    ensures
        r@ == searchable_spec(*leaf),
{
    let summary: &str = match &leaf.summary {
        Some(x) => x.as_str(),
        None => "",
    };
    proof {
        reveal_strlit("");
    }
    let mut t = cat3(leaf.title.as_str(), " ", summary);
    push_str(&mut t, " ");
    push_str(&mut t, leaf.body.as_str());
    to_lowercase(t.as_str())
}

// ── similarity ───────────────────────────────────────────────────────────────

/// How many tokens of `a` occur in `b`: with distinct tokens, the size of
/// the intersection.
pub open spec fn shared(a: Seq<Seq<char>>, b: Seq<Seq<char>>) -> nat
    decreases a.len(),
{
    if a.len() == 0 {
        0
    } else {
        shared(a.drop_last(), b) + if b.contains(a.last()) {
            1nat
        } else {
            0nat
        }
    }
}

/// Two token sets are similar when their Jaccard ratio, the size of the
/// intersection over the size of the union, exceeds 3%.
pub open spec fn similar(a: Seq<Seq<char>>, b: Seq<Seq<char>>) -> bool {
    let i = shared(a, b);
    let u = a.len() + b.len() - i;
    u > 0 && 100 * i > 3 * u
}

/// Two leaves are linked when they differ and the earlier one's tokens are
/// similar to the later one's.
pub open spec fn linked(ts: Seq<Seq<Seq<char>>>, i: int, j: int) -> bool {
    &&& 0 <= i < ts.len()
    &&& 0 <= j < ts.len()
    &&& if i < j {
        similar(ts[i], ts[j])
    } else {
        j < i && similar(ts[j], ts[i])
    }
}

/// A walk along links from `i` to `j`.
pub open spec fn is_path(ts: Seq<Seq<Seq<char>>>, p: Seq<int>, i: int, j: int) -> bool {
    &&& p.len() >= 1
    &&& p[0] == i
    &&& p.last() == j
    &&& forall|k: int| 0 <= k < p.len() ==> 0 <= #[trigger] p[k] < ts.len()
    &&& forall|k: int| 0 <= k < p.len() - 1 ==> linked(ts, #[trigger] p[k], p[k + 1])
}

/// Leaves in the same connected group.
pub open spec fn connected(ts: Seq<Seq<Seq<char>>>, i: int, j: int) -> bool {
    exists|p: Seq<int>| #[trigger] is_path(ts, p, i, j)
}

/// Some leaf before `s` is connected to `j`.
pub open spec fn seen(ts: Seq<Seq<Seq<char>>>, s: int, j: int) -> bool {
    exists|k: int| 0 <= k < s && #[trigger] connected(ts, k, j)
}

/// The leaves connected to `s` among the first `k`, ascending.
pub open spec fn members(ts: Seq<Seq<Seq<char>>>, s: int, k: int) -> Seq<int>
    decreases k,
{
    if k <= 0 {
        seq![]
    } else {
        members(ts, s, k - 1) + if connected(ts, s, k - 1) {
            seq![k - 1]
        } else {
            seq![]
        }
    }
}

/// The group of `s`, ascending.
pub open spec fn component(ts: Seq<Seq<Seq<char>>>, s: int) -> Seq<int> {
    members(ts, s, ts.len() as int)
}

/// The groups of two or more leaves whose least leaf comes before `s`, in
/// the order of their least leaf.
pub open spec fn groups_before(ts: Seq<Seq<Seq<char>>>, s: int) -> Seq<Seq<int>>
    decreases s,
{
    if s <= 0 {
        seq![]
    } else {
        let r = s - 1;
        groups_before(ts, r) + if !seen(ts, r, r) && component(ts, r).len() >= 2 {
            seq![component(ts, r)]
        } else {
            seq![]
        }
    }
}

/// Where a stable sort by size, largest first, puts `x` after the sorted
/// `s`: before the first smaller group.
pub open spec fn size_pos(s: Seq<Seq<int>>, x: Seq<int>) -> int
    decreases s.len(),
{
    if s.len() == 0 {
        0
    } else {
        let p = size_pos(s.drop_last(), x);
        if p < s.len() - 1 {
            p
        } else if s.last().len() < x.len() {
            s.len() - 1
        } else {
            s.len() as int
        }
    }
}

/// The groups, largest first; groups of one size keep their order.
pub open spec fn by_size(s: Seq<Seq<int>>) -> Seq<Seq<int>>
    decreases s.len(),
{
    if s.len() == 0 {
        seq![]
    } else {
        let t = by_size(s.drop_last());
        t.insert(size_pos(t, s.last()), s.last())
    }
}

/// The candidate clusters of the leaves.
pub open spec fn candidate_clusters_spec(ts: Seq<Seq<Seq<char>>>) -> Seq<Seq<int>> {
    if ts.len() < 2 {
        seq![]
    } else {
        by_size(groups_before(ts, ts.len() as int))
    }
}

// ── walks ────────────────────────────────────────────────────────────────────

proof fn lemma_connected_refl(ts: Seq<Seq<Seq<char>>>, i: int)
    requires
        0 <= i < ts.len(),
    ensures
        connected(ts, i, i),
{
    let p = seq![i];
    assert(is_path(ts, p, i, i));
}

proof fn lemma_connected_step(ts: Seq<Seq<Seq<char>>>, a: int, b: int, c: int)
    requires
        connected(ts, a, b),
        linked(ts, b, c),
    ensures
        connected(ts, a, c),
{
    let p = choose|p: Seq<int>| is_path(ts, p, a, b);
    let q = p.push(c);
    assert forall|k: int| 0 <= k < q.len() implies 0 <= #[trigger] q[k] < ts.len() by {
        if k < p.len() {
            assert(q[k] == p[k]);
        }
    }
    assert forall|k: int| 0 <= k < q.len() - 1 implies linked(ts, #[trigger] q[k], q[k + 1]) by {
        if k < p.len() - 1 {
            assert(q[k] == p[k] && q[k + 1] == p[k + 1]);
        } else {
            assert(q[k] == b);
        }
    }
    assert(is_path(ts, q, a, c));
}

proof fn lemma_connected_sym(ts: Seq<Seq<Seq<char>>>, a: int, b: int)
    requires
        connected(ts, a, b),
    ensures
        connected(ts, b, a),
{
    let p = choose|p: Seq<int>| is_path(ts, p, a, b);
    let q = p.reverse();
    assert forall|k: int| 0 <= k < q.len() implies 0 <= #[trigger] q[k] < ts.len() by {
        assert(q[k] == p[p.len() - 1 - k]);
    }
    assert forall|k: int| 0 <= k < q.len() - 1 implies linked(ts, #[trigger] q[k], q[k + 1]) by {
        let m = p.len() - 2 - k;
        assert(q[k] == p[m + 1] && q[k + 1] == p[m]);
        assert(linked(ts, p[m], p[m + 1]));
    }
    assert(is_path(ts, q, b, a));
}

proof fn lemma_connected_trans(ts: Seq<Seq<Seq<char>>>, a: int, b: int, c: int)
    requires
        connected(ts, a, b),
        connected(ts, b, c),
    ensures
        connected(ts, a, c),
{
    let p = choose|p: Seq<int>| is_path(ts, p, a, b);
    let q = choose|q: Seq<int>| is_path(ts, q, b, c);
    let r = p + q.skip(1);
    assert forall|k: int| 0 <= k < r.len() implies 0 <= #[trigger] r[k] < ts.len() by {
        if k >= p.len() {
            assert(r[k] == q[k - p.len() + 1]);
        }
    }
    assert forall|k: int| 0 <= k < r.len() - 1 implies linked(ts, #[trigger] r[k], r[k + 1]) by {
        if k < p.len() - 1 {
            assert(r[k] == p[k] && r[k + 1] == p[k + 1]);
        } else if k == p.len() - 1 {
            assert(r[k] == b && q[0] == b);
            assert(r[k + 1] == q[1]);
            assert(linked(ts, q[0], q[1]));
        } else {
            let m = k - p.len() + 1;
            assert(r[k] == q[m] && r[k + 1] == q[m + 1]);
            assert(linked(ts, q[m], q[m + 1]));
        }
    }
    if q.len() == 1 {
        assert(r =~= p);
    } else {
        assert(r.last() == q.last());
    }
    assert(is_path(ts, r, a, c));
}

/// A group closed under links that holds `s`, and owns every linked leaf
/// except those of earlier groups, holds every leaf connected to `s`.
proof fn lemma_closed(ts: Seq<Seq<Seq<char>>>, o: Seq<usize>, s: int, p: Seq<int>, x: int)
    requires
        0 <= s < ts.len(),
        o.len() == ts.len(),
        is_path(ts, p, s, x),
        o[s] == s + 1,
        !seen(ts, s, s),
        forall|y: int| 0 <= y < o.len() && o[y] != 0 && o[y] != s + 1 ==> #[trigger] seen(ts, s, y),
        forall|y: int, z: int| 0 <= y < o.len() && o[y] == s + 1 && #[trigger] linked(ts, y, z) ==> o[z] != 0,
    ensures
        o[x] == s + 1,
    decreases p.len(),
{
    if p.len() > 1 {
        let q = p.drop_last();
        let w = q.last();
        assert forall|k: int| 0 <= k < q.len() implies 0 <= #[trigger] q[k] < ts.len() by {
            assert(q[k] == p[k]);
        }
        assert forall|k: int| 0 <= k < q.len() - 1 implies linked(ts, #[trigger] q[k], q[k + 1]) by {
            assert(q[k] == p[k] && q[k + 1] == p[k + 1]);
        }
        assert(is_path(ts, q, s, w));
        lemma_closed(ts, o, s, q, w);
        assert(linked(ts, p[p.len() - 2], p[p.len() - 1]));
        assert(linked(ts, w, x));
        if o[x] != s + 1 {
            assert(seen(ts, s, x));
            let k = choose|k: int| 0 <= k < s && #[trigger] connected(ts, k, x);
            assert(connected(ts, s, x));
            lemma_connected_sym(ts, s, x);
            lemma_connected_trans(ts, k, x, s);
            assert(seen(ts, s, s));
        }
    }
}

// ── the computation ──────────────────────────────────────────────────────────

/// Each leaf's tokens as plain values.
pub open spec fn tokens_view(ts: Seq<Vec<String>>) -> Seq<Seq<Seq<char>>> {
    ts.map_values(|v: Vec<String>| strs(v@))
}

/// The clusters as plain values.
pub open spec fn clusters_view(v: Seq<CandidateCluster>) -> Seq<Seq<int>> {
    v.map_values(|c: CandidateCluster| c.leaf_indices@.map_values(|x: usize| x as int))
}

fn shared_exec(a: &Vec<String>, b: &Vec<String>) -> (r: usize)
    ensures
        r == shared(strs(a@), strs(b@)),
        r <= a.len(),
{
    let ghost av = strs(a@);
    let mut n: usize = 0;
    let mut i: usize = 0;
    while i < a.len()
        invariant
            i <= a.len(),
            av == strs(a@),
            n == shared(av.take(i as int), strs(b@)),
            n <= i,
        decreases a.len() - i,
    {
        assert(av.take(i + 1).drop_last() =~= av.take(i as int));
        assert(av.take(i + 1).last() == a@[i as int]@);
        if strings_contain(b, a[i].as_str()) {
            n = n + 1;
        }
        i += 1;
    }
    assert(av.take(a.len() as int) =~= av);
    n
}

fn similar_exec(a: &Vec<String>, b: &Vec<String>) -> (r: bool)
    ensures
        r == similar(strs(a@), strs(b@)),
{
    let i = shared_exec(a, b) as u128;
    let u = a.len() as u128 + b.len() as u128 - i;
    u > 0 && 100 * i > 3 * u
}

fn linked_exec(ts: &Vec<Vec<String>>, i: usize, j: usize) -> (r: bool)
    requires
        i < ts.len(),
        j < ts.len(),
    ensures
        r == linked(tokens_view(ts@), i as int, j as int),
{
    if i < j {
        similar_exec(&ts[i], &ts[j])
    } else if j < i {
        similar_exec(&ts[j], &ts[i])
    } else {
        false
    }
}

/// How many leaves have no group yet.
spec fn unowned(o: Seq<usize>) -> nat
    decreases o.len(),
{
    if o.len() == 0 {
        0
    } else {
        unowned(o.drop_last()) + if o.last() == 0 {
            1nat
        } else {
            0nat
        }
    }
}

proof fn lemma_unowned_update(o: Seq<usize>, j: int, v: usize)
    requires
        0 <= j < o.len(),
        o[j] == 0,
        v != 0,
    ensures
        unowned(o.update(j, v)) + 1 == unowned(o),
    decreases o.len(),
{
    if j < o.len() - 1 {
        assert(o.update(j, v).drop_last() =~= o.drop_last().update(j, v));
        lemma_unowned_update(o.drop_last(), j, v);
    } else {
        assert(o.update(j, v).drop_last() =~= o.drop_last());
    }
}

/// Gives every leaf connected to `s` the owner `s + 1`; `s` has none yet,
/// and the leaves owned already are those of the groups before it.
fn grow(ts: &Vec<Vec<String>>, owner: &mut Vec<usize>, s: usize)
    requires
        s < ts.len(),
        old(owner).len() == ts.len(),
        old(owner)[s as int] == 0,
        forall|y: int| 0 <= y < ts.len() ==> (old(owner)[y] != 0 <==> #[trigger] seen(tokens_view(ts@), s as int, y)),
        forall|y: int| 0 <= y < ts.len() ==> old(owner)[y] <= s,
    ensures
        final(owner).len() == ts.len(),
        forall|y: int| 0 <= y < ts.len() ==> (final(owner)[y] != 0 <==> #[trigger] seen(tokens_view(ts@), s + 1, y)),
        forall|y: int| 0 <= y < ts.len() ==> (final(owner)[y] == s + 1 <==> #[trigger] connected(tokens_view(ts@), s as int, y)),
        forall|y: int| 0 <= y < ts.len() ==> final(owner)[y] <= s + 1,
{
    let ghost tv = tokens_view(ts@);
    let n = ts.len();
    let tag = s + 1;
    proof {
        lemma_connected_refl(tv, s as int);
        lemma_unowned_update(owner@, s as int, tag);
    }
    owner.set(s, tag);
    let mut comp: Vec<usize> = Vec::new();
    comp.push(s);
    proof {
        assert forall|y: int| 0 <= y < n && owner[y] == tag implies comp@.contains(y as usize) by {
            assert(y == s);
            assert(comp@[0] == s);
        }
    }
    let mut k: usize = 0;
    while k < comp.len()
        invariant
            tv == tokens_view(ts@),
            n == ts.len(),
            tag == s + 1,
            s < n,
            owner.len() == n,
            k <= comp.len(),
            !seen(tv, s as int, s as int),
            owner[s as int] == tag,
            forall|m: int| 0 <= m < comp.len() ==> #[trigger] comp[m] < n && owner[comp[m] as int] == tag,
            forall|y: int| 0 <= y < n && owner[y] == tag ==> comp@.contains(y as usize),
            forall|y: int| 0 <= y < n && owner[y] == tag ==> #[trigger] connected(tv, s as int, y),
            forall|y: int| 0 <= y < n ==> ((owner[y] != 0 && owner[y] != tag) <==> #[trigger] seen(tv, s as int, y)),
            forall|y: int| 0 <= y < n ==> owner[y] <= tag,
            forall|m: int, z: int| 0 <= m < k && #[trigger] linked(tv, comp[m] as int, z) ==> owner[z] != 0,
        decreases unowned(owner@) + comp.len() - k,
    {
        let x = comp[k];
        let ghost before_unowned = unowned(owner@);
        let ghost before_len = comp.len();
        let mut j: usize = 0;
        while j < n
            invariant
                tv == tokens_view(ts@),
                n == ts.len(),
                tag == s + 1,
                s < n,
                owner.len() == n,
                k < comp.len(),
                x == comp[k as int],
                x < n,
                !seen(tv, s as int, s as int),
                owner[s as int] == tag,
                connected(tv, s as int, x as int),
                unowned(owner@) + comp.len() == before_unowned + before_len,
                forall|m: int| 0 <= m < comp.len() ==> #[trigger] comp[m] < n && owner[comp[m] as int] == tag,
                forall|y: int| 0 <= y < n && owner[y] == tag ==> comp@.contains(y as usize),
                forall|y: int| 0 <= y < n && owner[y] == tag ==> #[trigger] connected(tv, s as int, y),
                forall|y: int| 0 <= y < n ==> ((owner[y] != 0 && owner[y] != tag) <==> #[trigger] seen(tv, s as int, y)),
                forall|y: int| 0 <= y < n ==> owner[y] <= tag,
                forall|m: int, z: int| 0 <= m < k && #[trigger] linked(tv, comp[m] as int, z) ==> owner[z] != 0,
                forall|z: int| 0 <= z < j && #[trigger] linked(tv, x as int, z) ==> owner[z] != 0,
            decreases n - j,
        {
            if owner[j] == 0 && linked_exec(ts, x, j) {
                proof {
                    lemma_connected_step(tv, s as int, x as int, j as int);
                    lemma_unowned_update(owner@, j as int, tag);
                }
                let ghost comp_before = comp@;
                owner.set(j, tag);
                comp.push(j);
                proof {
                    assert forall|y: int| 0 <= y < n && owner[y] == tag implies comp@.contains(y as usize) by {
                        if y != j {
                            assert(comp_before.contains(y as usize));
                            let m = choose|m: int| 0 <= m < comp_before.len() && comp_before[m] == y as usize;
                            assert(comp@[m] == y as usize);
                        } else {
                            assert(comp@[comp@.len() - 1] == j);
                        }
                    }
                    assert forall|m: int| 0 <= m < comp.len() implies #[trigger] comp[m] < n && owner[comp[m] as int] == tag by {
                        if m < comp_before.len() {
                            assert(comp[m] == comp_before[m]);
                        }
                    }
                }
            }
            j += 1;
        }
        k += 1;
    }
    proof {
        let o = owner@;
        assert forall|y: int, z: int| 0 <= y < o.len() && o[y] == s + 1 && #[trigger] linked(tv, y, z) implies o[z] != 0 by {
            assert(comp@.contains(y as usize));
            let m = choose|m: int| 0 <= m < comp@.len() && comp@[m] == y as usize;
            assert(linked(tv, comp[m] as int, z));
        }
        assert forall|y: int| 0 <= y < o.len() && o[y] != 0 && o[y] != s + 1 implies #[trigger] seen(tv, s as int, y) by {}
        assert forall|y: int| 0 <= y < n implies (owner[y] == s + 1 <==> #[trigger] connected(tv, s as int, y)) by {
            if connected(tv, s as int, y) {
                let p = choose|p: Seq<int>| is_path(tv, p, s as int, y);
                lemma_closed(tv, o, s as int, p, y);
            }
        }
        assert forall|y: int| 0 <= y < n implies (owner[y] != 0 <==> #[trigger] seen(tv, s + 1, y)) by {
            if owner[y] == s + 1 {
                assert(connected(tv, s as int, y));
                assert(seen(tv, s + 1, y));
            } else if owner[y] != 0 {
                assert(seen(tv, s as int, y));
                let w = choose|w: int| 0 <= w < s && #[trigger] connected(tv, w, y);
                assert(seen(tv, s + 1, y));
            }
            if seen(tv, s + 1, y) {
                let w = choose|w: int| 0 <= w < s + 1 && #[trigger] connected(tv, w, y);
                if w < s {
                    assert(seen(tv, s as int, y));
                }
            }
        }
    }
}

/// The leaves owned by `s + 1`, ascending: the group of `s`.
fn owned_by(ts: &Vec<Vec<String>>, owner: &Vec<usize>, s: usize) -> (r: Vec<usize>)
    requires
        s < ts.len(),
        owner.len() == ts.len(),
        forall|y: int| 0 <= y < ts.len() ==> (owner[y] == s + 1 <==> #[trigger] connected(tokens_view(ts@), s as int, y)),
    ensures
        r@.map_values(|x: usize| x as int) == component(tokens_view(ts@), s as int),
{
    let ghost tv = tokens_view(ts@);
    let mut out: Vec<usize> = Vec::new();
    let mut j: usize = 0;
    while j < owner.len()
        invariant
            j <= owner.len(),
            owner.len() == ts.len(),
            tv == tokens_view(ts@),
            s < ts.len(),
            forall|y: int| 0 <= y < ts.len() ==> (owner[y] == s + 1 <==> #[trigger] connected(tv, s as int, y)),
            out@.map_values(|x: usize| x as int) == members(tv, s as int, j as int),
        decreases owner.len() - j,
    {
        let ghost before = out@;
        if owner[j] == s + 1 {
            out.push(j);
            assert(out@.map_values(|x: usize| x as int) =~= before.map_values(|x: usize| x as int).push(j as int));
        }
        assert(connected(tv, s as int, j as int) == (owner[j as int] == s + 1));
        j += 1;
    }
    out
}

proof fn lemma_size_pos_bounds(s: Seq<Seq<int>>, x: Seq<int>)
    ensures
        0 <= size_pos(s, x) <= s.len(),
    decreases s.len(),
{
    if s.len() > 0 {
        lemma_size_pos_bounds(s.drop_last(), x);
    }
}

proof fn lemma_size_pos_prefix(s: Seq<Seq<int>>, x: Seq<int>, k: int)
    requires
        0 <= k <= s.len(),
        size_pos(s.take(k), x) < k,
    ensures
        size_pos(s, x) == size_pos(s.take(k), x),
    decreases s.len() - k,
{
    if k == s.len() {
        assert(s.take(k) =~= s);
    } else {
        assert(s.drop_last().take(k) =~= s.take(k));
        lemma_size_pos_prefix(s.drop_last(), x, k);
    }
}

/// Files a group among the sorted ones: before the first smaller group.
fn insert_by_size(out: &mut Vec<CandidateCluster>, c: CandidateCluster)
    ensures
        clusters_view(final(out)@) == clusters_view(old(out)@).insert(
            size_pos(clusters_view(old(out)@), c.leaf_indices@.map_values(|x: usize| x as int)),
            c.leaf_indices@.map_values(|x: usize| x as int),
        ),
{
    let ghost ov = clusters_view(out@);
    let ghost xv = c.leaf_indices@.map_values(|x: usize| x as int);
    let mut p: usize = 0;
    while p < out.len() && !(out[p].leaf_indices.len() < c.leaf_indices.len())
        invariant
            p <= out.len(),
            ov == clusters_view(out@),
            xv == c.leaf_indices@.map_values(|x: usize| x as int),
            size_pos(ov.take(p as int), xv) == p,
        decreases out.len() - p,
    {
        assert(ov.take(p + 1).drop_last() =~= ov.take(p as int));
        assert(ov.take(p + 1).last() == ov[p as int]);
        p += 1;
    }
    proof {
        if p < out.len() {
            assert(ov.take(p + 1).drop_last() =~= ov.take(p as int));
            assert(ov.take(p + 1).last() == ov[p as int]);
            lemma_size_pos_prefix(ov, xv, p + 1);
        } else {
            assert(ov.take(p as int) =~= ov);
        }
    }
    out.insert(p, c);
    assert(clusters_view(out@) =~= ov.insert(p as int, xv));
}

/// The candidate clusters of leaves with the given distinct tokens: each
/// connected group of two or more linked leaves, its positions ascending,
/// the largest groups first and groups of one size in the order of their
/// least leaf. Fewer than two leaves give none.
pub fn compute_candidate_clusters(token_sets: &Vec<Vec<String>>) -> (r: Vec<CandidateCluster>)
    ensures
        clusters_view(r@) == candidate_clusters_spec(tokens_view(token_sets@)),
{
    let ghost tv = tokens_view(token_sets@);
    let n = token_sets.len();
    let mut out: Vec<CandidateCluster> = Vec::new();
    if n < 2 {
        assert(clusters_view(out@) =~= seq![]);
        return out;
    }
    let mut owner: Vec<usize> = Vec::new();
    let mut i: usize = 0;
    while i < n
        invariant
            i <= n,
            owner.len() == i,
            forall|y: int| 0 <= y < i ==> owner[y] == 0,
        decreases n - i,
    {
        owner.push(0);
        i += 1;
    }
    assert(clusters_view(out@) =~= seq![]);
    let mut s: usize = 0;
    while s < n
        invariant
            tv == tokens_view(token_sets@),
            n == token_sets.len(),
            s <= n,
            owner.len() == n,
            forall|y: int| 0 <= y < n ==> (owner[y] != 0 <==> #[trigger] seen(tv, s as int, y)),
            forall|y: int| 0 <= y < n ==> owner[y] <= s,
            clusters_view(out@) == by_size(groups_before(tv, s as int)),
        decreases n - s,
    {
        let ghost groups = groups_before(tv, s as int);
        if owner[s] == 0 {
            assert(!seen(tv, s as int, s as int));
            grow(token_sets, &mut owner, s);
            let comp = owned_by(token_sets, &owner, s);
            let ghost cv = comp@.map_values(|x: usize| x as int);
            assert(cv.len() == comp.len());
            if comp.len() >= 2 {
                let ghost before = clusters_view(out@);
                insert_by_size(&mut out, CandidateCluster { leaf_indices: comp });
                assert(groups_before(tv, s + 1) =~= groups.push(component(tv, s as int)));
                assert(groups_before(tv, s + 1).drop_last() =~= groups);
            } else {
                assert(groups_before(tv, s + 1) =~= groups);
            }
        } else {
            assert(seen(tv, s as int, s as int));
            assert(groups_before(tv, s + 1) =~= groups);
            proof {
                assert forall|y: int| 0 <= y < n implies (owner[y] != 0 <==> #[trigger] seen(tv, s + 1, y)) by {
                    if seen(tv, s + 1, y) {
                        let w = choose|w: int| 0 <= w < s + 1 && #[trigger] connected(tv, w, y);
                        if w == s {
                            let v = choose|v: int| 0 <= v < s && #[trigger] connected(tv, v, s as int);
                            lemma_connected_trans(tv, v, s as int, y);
                            assert(seen(tv, s as int, y));
                        } else {
                            assert(seen(tv, s as int, y));
                        }
                    }
                    if seen(tv, s as int, y) {
                        let w = choose|w: int| 0 <= w < s && #[trigger] connected(tv, w, y);
                        assert(seen(tv, s + 1, y));
                    }
                }
            }
        }
        s += 1;
    }
    out
}

proof fn lemma_members_range(ts: Seq<Seq<Seq<char>>>, s: int, k: int)
    ensures
        forall|m: int| 0 <= m < members(ts, s, k).len() ==> 0 <= #[trigger] members(ts, s, k)[m] < k,
    decreases k,
{
    if k > 0 {
        lemma_members_range(ts, s, k - 1);
        let prev = members(ts, s, k - 1);
        let cur = members(ts, s, k);
        assert forall|m: int| 0 <= m < cur.len() implies 0 <= #[trigger] cur[m] < k by {
            if m < prev.len() {
                assert(cur[m] == prev[m]);
            }
        }
    }
}

/// Every group in `gs` names only leaves below `n`.
pub open spec fn groups_within(gs: Seq<Seq<int>>, n: int) -> bool {
    forall|i: int, k: int| 0 <= i < gs.len() && 0 <= k < gs[i].len() ==> 0 <= #[trigger] gs[i][k] < n
}

proof fn lemma_groups_before_within(ts: Seq<Seq<Seq<char>>>, s: int)
    ensures
        groups_within(groups_before(ts, s), ts.len() as int),
    decreases s,
{
    if s > 0 {
        lemma_groups_before_within(ts, s - 1);
        lemma_members_range(ts, s - 1, ts.len() as int);
        let prev = groups_before(ts, s - 1);
        let cur = groups_before(ts, s);
        assert forall|i: int, k: int| 0 <= i < cur.len() && 0 <= k < cur[i].len() implies 0 <= #[trigger] cur[i][k] < ts.len() by {
            if i < prev.len() {
                assert(cur[i] == prev[i]);
            } else {
                assert(cur[i] == component(ts, s - 1));
            }
        }
    }
}

proof fn lemma_by_size_within(gs: Seq<Seq<int>>, n: int)
    requires
        groups_within(gs, n),
    ensures
        groups_within(by_size(gs), n),
    decreases gs.len(),
{
    if gs.len() > 0 {
        assert(groups_within(gs.drop_last(), n)) by {
            assert forall|i: int, k: int| 0 <= i < gs.drop_last().len() && 0 <= k < gs.drop_last()[i].len() implies 0 <= #[trigger] gs.drop_last()[i][k] < n by {
                assert(gs.drop_last()[i] == gs[i]);
            }
        }
        lemma_by_size_within(gs.drop_last(), n);
        let t = by_size(gs.drop_last());
        lemma_size_pos_bounds(t, gs.last());
        let pos = size_pos(t, gs.last());
        let u = t.insert(pos, gs.last());
        t.insert_ensures(pos, gs.last());
        assert forall|i: int, k: int| 0 <= i < u.len() && 0 <= k < u[i].len() implies 0 <= #[trigger] u[i][k] < n by {
            if i < pos {
                assert(u[i] == t[i]);
            } else if i == pos {
                assert(u[i] == gs[gs.len() - 1]);
            } else {
                assert(u[i] == t[i - 1]);
            }
        }
    }
}

/// The candidate clusters only name the leaves given.
pub proof fn lemma_candidates_within(ts: Seq<Seq<Seq<char>>>)
    ensures
        groups_within(candidate_clusters_spec(ts), ts.len() as int),
{
    if ts.len() >= 2 {
        lemma_groups_before_within(ts, ts.len() as int);
        lemma_by_size_within(groups_before(ts, ts.len() as int), ts.len() as int);
    }
}

// ── the clusters are connected groups ────────────────────────────────────────

/// The positions of a group, ascending.
pub open spec fn ascending(g: Seq<int>) -> bool {
    forall|a: int, b: int| 0 <= a < b < g.len() ==> g[a] < g[b]
}

/// No leaf is in both groups.
pub open spec fn disjoint(g: Seq<int>, h: Seq<int>) -> bool {
    forall|a: int, b: int| 0 <= a < g.len() && 0 <= b < h.len() ==> g[a] != h[b]
}

/// A candidate group: two or more leaves, ascending, all connected to each
/// other, and holding every leaf connected to them.
pub open spec fn is_group(ts: Seq<Seq<Seq<char>>>, g: Seq<int>) -> bool {
    &&& g.len() >= 2
    &&& ascending(g)
    &&& forall|a: int, b: int| 0 <= a < g.len() && 0 <= b < g.len() ==> connected(ts, g[a], g[b])
    &&& forall|x: int| #[trigger] connected(ts, g[0], x) ==> g.contains(x)
}

proof fn lemma_connected_in_range(ts: Seq<Seq<Seq<char>>>, a: int, b: int)
    requires
        connected(ts, a, b),
    ensures
        0 <= a < ts.len(),
        0 <= b < ts.len(),
{
    let p = choose|p: Seq<int>| is_path(ts, p, a, b);
    assert(p[0] == a);
    assert(p[p.len() - 1] == b);
}

proof fn lemma_members_props(ts: Seq<Seq<Seq<char>>>, s: int, k: int)
    requires
        0 <= k <= ts.len(),
    ensures
        ascending(members(ts, s, k)),
        forall|m: int| 0 <= m < members(ts, s, k).len() ==> 0 <= #[trigger] members(ts, s, k)[m] < k && connected(
            ts,
            s,
            members(ts, s, k)[m],
        ),
        forall|x: int| 0 <= x < k && connected(ts, s, x) ==> #[trigger] members(ts, s, k).contains(x),
    decreases k,
{
    if k > 0 {
        lemma_members_props(ts, s, k - 1);
        let prev = members(ts, s, k - 1);
        let cur = members(ts, s, k);
        assert forall|m: int| 0 <= m < cur.len() implies 0 <= #[trigger] cur[m] < k && connected(ts, s, cur[m]) by {
            if m < prev.len() {
                assert(cur[m] == prev[m]);
            }
        }
        assert forall|a: int, b: int| 0 <= a < b < cur.len() implies cur[a] < cur[b] by {
            if b < prev.len() {
                assert(cur[a] == prev[a] && cur[b] == prev[b]);
            } else {
                assert(cur[a] == prev[a]);
            }
        }
        assert forall|x: int| 0 <= x < k && connected(ts, s, x) implies #[trigger] cur.contains(x) by {
            if x < k - 1 {
                assert(prev.contains(x));
                let m = choose|m: int| 0 <= m < prev.len() && prev[m] == x;
                assert(cur[m] == x);
            } else {
                assert(cur[cur.len() - 1] == x);
            }
        }
    }
}

proof fn lemma_component_is_group(ts: Seq<Seq<Seq<char>>>, r: int)
    requires
        0 <= r < ts.len(),
        component(ts, r).len() >= 2,
    ensures
        is_group(ts, component(ts, r)),
{
    let g = component(ts, r);
    lemma_members_props(ts, r, ts.len() as int);
    assert forall|a: int, b: int| 0 <= a < g.len() && 0 <= b < g.len() implies connected(ts, g[a], g[b]) by {
        assert(connected(ts, r, g[a]));
        assert(connected(ts, r, g[b]));
        lemma_connected_sym(ts, r, g[a]);
        lemma_connected_trans(ts, g[a], r, g[b]);
    }
    assert forall|x: int| #[trigger] connected(ts, g[0], x) implies g.contains(x) by {
        assert(connected(ts, r, g[0]));
        lemma_connected_trans(ts, r, g[0], x);
        lemma_connected_in_range(ts, g[0], x);
    }
}

/// Every group found before `s` is a group, holds only leaves connected to
/// a leaf before `s`, and no two share a leaf.
proof fn lemma_groups_before_props(ts: Seq<Seq<Seq<char>>>, s: int)
    requires
        0 <= s <= ts.len(),
    ensures
        forall|i: int| 0 <= i < groups_before(ts, s).len() ==> is_group(ts, #[trigger] groups_before(ts, s)[i]),
        forall|i: int, a: int|
            0 <= i < groups_before(ts, s).len() && 0 <= a < groups_before(ts, s)[i].len() ==> seen(
                ts,
                s,
                #[trigger] groups_before(ts, s)[i][a],
            ),
        forall|i: int, j: int|
            0 <= i < groups_before(ts, s).len() && 0 <= j < groups_before(ts, s).len() && i != j ==> disjoint(
                #[trigger] groups_before(ts, s)[i],
                #[trigger] groups_before(ts, s)[j],
            ),
    decreases s,
{
    if s > 0 {
        let r = s - 1;
        lemma_groups_before_props(ts, r);
        let prev = groups_before(ts, r);
        let cur = groups_before(ts, s);
        let c = component(ts, r);
        lemma_members_props(ts, r, ts.len() as int);
        assert forall|i: int, a: int| 0 <= i < prev.len() && 0 <= a < prev[i].len() implies seen(ts, s, #[trigger] prev[i][a]) by {
            assert(seen(ts, r, prev[i][a]));
            let w = choose|w: int| 0 <= w < r && #[trigger] connected(ts, w, prev[i][a]);
        }
        if !seen(ts, r, r) && c.len() >= 2 {
            lemma_component_is_group(ts, r);
            assert(cur == prev.push(c));
            assert forall|a: int| 0 <= a < c.len() implies seen(ts, s, #[trigger] c[a]) by {
                assert(connected(ts, r, c[a]));
            }
            assert forall|i: int| 0 <= i < prev.len() implies disjoint(#[trigger] prev[i], c) && disjoint(c, prev[i]) by {
                assert forall|a: int, b: int| 0 <= a < prev[i].len() && 0 <= b < c.len() implies prev[i][a] != c[b] by {
                    if prev[i][a] == c[b] {
                        assert(seen(ts, r, prev[i][a]));
                        let w = choose|w: int| 0 <= w < r && #[trigger] connected(ts, w, prev[i][a]);
                        assert(connected(ts, r, c[b]));
                        lemma_connected_sym(ts, r, c[b]);
                        lemma_connected_trans(ts, w, c[b], r);
                        assert(seen(ts, r, r));
                    }
                }
            }
            assert forall|i: int| 0 <= i < cur.len() implies is_group(ts, #[trigger] cur[i]) by {
                if i < prev.len() {
                    assert(cur[i] == prev[i]);
                }
            }
            assert forall|i: int, a: int| 0 <= i < cur.len() && 0 <= a < cur[i].len() implies seen(ts, s, #[trigger] cur[i][a]) by {
                if i < prev.len() {
                    assert(cur[i] == prev[i]);
                }
            }
            assert forall|i: int, j: int| 0 <= i < cur.len() && 0 <= j < cur.len() && i != j implies disjoint(
                #[trigger] cur[i],
                #[trigger] cur[j],
            ) by {
                if i < prev.len() && j < prev.len() {
                    assert(cur[i] == prev[i] && cur[j] == prev[j]);
                } else if i < prev.len() {
                    assert(cur[i] == prev[i] && cur[j] == c);
                } else {
                    assert(cur[j] == prev[j] && cur[i] == c);
                }
            }
        } else {
            assert(cur == prev);
        }
    }
}

/// Where `size_pos` puts `x`: after every group at least as large, at the
/// first smaller one.
proof fn lemma_size_pos_meaning(t: Seq<Seq<int>>, x: Seq<int>)
    ensures
        forall|i: int| 0 <= i < size_pos(t, x) ==> #[trigger] t[i].len() >= x.len(),
        size_pos(t, x) < t.len() ==> t[size_pos(t, x)].len() < x.len(),
    decreases t.len(),
{
    lemma_size_pos_bounds(t, x);
    if t.len() > 0 {
        lemma_size_pos_meaning(t.drop_last(), x);
        lemma_size_pos_bounds(t.drop_last(), x);
        assert forall|i: int| 0 <= i < size_pos(t, x) implies #[trigger] t[i].len() >= x.len() by {
            if i < t.len() - 1 {
                assert(t.drop_last()[i] == t[i]);
            }
        }
        if size_pos(t.drop_last(), x) < t.len() - 1 {
            assert(t.drop_last()[size_pos(t.drop_last(), x)] == t[size_pos(t.drop_last(), x)]);
        }
    }
}

proof fn lemma_by_size_sorted(s: Seq<Seq<int>>)
    ensures
        by_size(s).len() == s.len(),
        forall|i: int, j: int| 0 <= i < j < by_size(s).len() ==> #[trigger] by_size(s)[i].len() >= #[trigger] by_size(
            s,
        )[j].len(),
    decreases s.len(),
{
    if s.len() > 0 {
        lemma_by_size_sorted(s.drop_last());
        let t = by_size(s.drop_last());
        let x = s.last();
        lemma_size_pos_bounds(t, x);
        lemma_size_pos_meaning(t, x);
        let pos = size_pos(t, x);
        let u = t.insert(pos, x);
        t.insert_ensures(pos, x);
        assert forall|i: int, j: int| 0 <= i < j < u.len() implies #[trigger] u[i].len() >= #[trigger] u[j].len() by {
            if j < pos {
                assert(u[i] == t[i] && u[j] == t[j]);
            } else if j == pos {
                assert(u[i] == t[i] && u[j] == x);
            } else if i < pos {
                assert(u[i] == t[i] && u[j] == t[j - 1]);
            } else if i == pos {
                assert(u[i] == x && u[j] == t[j - 1]);
                assert(t[j - 1].len() <= t[pos].len());
            } else {
                assert(u[i] == t[i - 1] && u[j] == t[j - 1]);
            }
        }
    }
}

proof fn lemma_by_size_keeps(s: Seq<Seq<int>>, p: spec_fn(Seq<int>) -> bool)
    requires
        forall|i: int| 0 <= i < s.len() ==> p(#[trigger] s[i]),
    ensures
        forall|i: int| 0 <= i < by_size(s).len() ==> p(#[trigger] by_size(s)[i]),
    decreases s.len(),
{
    if s.len() > 0 {
        assert forall|i: int| 0 <= i < s.drop_last().len() implies p(#[trigger] s.drop_last()[i]) by {
            assert(s.drop_last()[i] == s[i]);
        }
        lemma_by_size_keeps(s.drop_last(), p);
        let t = by_size(s.drop_last());
        lemma_size_pos_bounds(t, s.last());
        let pos = size_pos(t, s.last());
        let u = t.insert(pos, s.last());
        t.insert_ensures(pos, s.last());
        assert(p(s[s.len() - 1]));
        assert forall|i: int| 0 <= i < u.len() implies p(#[trigger] u[i]) by {
            if i < pos {
                assert(u[i] == t[i]);
            } else if i > pos {
                assert(u[i] == t[i - 1]);
            }
        }
    }
}

proof fn lemma_by_size_pairwise(s: Seq<Seq<int>>, rel: spec_fn(Seq<int>, Seq<int>) -> bool)
    requires
        forall|i: int, j: int| 0 <= i < s.len() && 0 <= j < s.len() && i != j ==> rel(#[trigger] s[i], #[trigger] s[j]),
    ensures
        forall|i: int, j: int|
            0 <= i < by_size(s).len() && 0 <= j < by_size(s).len() && i != j ==> rel(
                #[trigger] by_size(s)[i],
                #[trigger] by_size(s)[j],
            ),
    decreases s.len(),
{
    if s.len() > 0 {
        let d = s.drop_last();
        let x = s.last();
        assert forall|i: int, j: int| 0 <= i < d.len() && 0 <= j < d.len() && i != j implies rel(#[trigger] d[i], #[trigger] d[j]) by {
            assert(d[i] == s[i] && d[j] == s[j]);
        }
        lemma_by_size_pairwise(d, rel);
        let with_x = |y: Seq<int>| rel(x, y) && rel(y, x);
        assert forall|i: int| 0 <= i < d.len() implies with_x(#[trigger] d[i]) by {
            assert(d[i] == s[i]);
            assert(s[s.len() - 1] == x);
        }
        lemma_by_size_keeps(d, with_x);
        lemma_by_size_sorted(d);
        let t = by_size(d);
        lemma_size_pos_bounds(t, x);
        let pos = size_pos(t, x);
        let u = t.insert(pos, x);
        t.insert_ensures(pos, x);
        assert forall|i: int, j: int| 0 <= i < u.len() && 0 <= j < u.len() && i != j implies rel(#[trigger] u[i], #[trigger] u[j]) by {
            let ti = if i < pos { i } else { i - 1 };
            let tj = if j < pos { j } else { j - 1 };
            if i == pos {
                assert(u[i] == x);
                assert(u[j] == t[tj]);
                assert(with_x(t[tj]));
            } else if j == pos {
                assert(u[j] == x);
                assert(u[i] == t[ti]);
                assert(with_x(t[ti]));
            } else {
                assert(u[i] == t[ti] && u[j] == t[tj]);
            }
        }
    }
}

/// The candidate clusters are connected groups: each holds two or more
/// leaves in ascending order, every two of its leaves are connected, and
/// it holds every leaf connected to them; no leaf is in two clusters; and
/// the larger clusters come first.
pub proof fn lemma_candidate_clusters_are_groups(ts: Seq<Seq<Seq<char>>>)
    ensures
        forall|i: int| 0 <= i < candidate_clusters_spec(ts).len() ==> is_group(ts, #[trigger] candidate_clusters_spec(ts)[i]),
        forall|i: int, j: int|
            0 <= i < candidate_clusters_spec(ts).len() && 0 <= j < candidate_clusters_spec(ts).len() && i != j ==> disjoint(
                #[trigger] candidate_clusters_spec(ts)[i],
                #[trigger] candidate_clusters_spec(ts)[j],
            ),
        forall|i: int, j: int|
            0 <= i < j < candidate_clusters_spec(ts).len() ==> #[trigger] candidate_clusters_spec(ts)[i].len()
                >= #[trigger] candidate_clusters_spec(ts)[j].len(),
{
    if ts.len() >= 2 {
        let gs = groups_before(ts, ts.len() as int);
        lemma_groups_before_props(ts, ts.len() as int);
        let grp = |g: Seq<int>| is_group(ts, g);
        assert forall|i: int| 0 <= i < gs.len() implies grp(#[trigger] gs[i]) by {}
        lemma_by_size_keeps(gs, grp);
        let dis = |g: Seq<int>, h: Seq<int>| disjoint(g, h);
        assert forall|i: int, j: int| 0 <= i < gs.len() && 0 <= j < gs.len() && i != j implies dis(#[trigger] gs[i], #[trigger] gs[j]) by {}
        lemma_by_size_pairwise(gs, dis);
        lemma_by_size_sorted(gs);
        let cs = by_size(gs);
        assert forall|i: int| 0 <= i < cs.len() implies is_group(ts, #[trigger] cs[i]) by {
            assert(grp(cs[i]));
        }
        assert forall|i: int, j: int| 0 <= i < cs.len() && 0 <= j < cs.len() && i != j implies disjoint(#[trigger] cs[i], #[trigger] cs[j]) by {
            assert(dis(cs[i], cs[j]));
        }
    }
}

} // verus!
