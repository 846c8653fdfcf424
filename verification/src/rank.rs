//! Stable ranking of scored items: highest score first, ties kept in their
//! original order (what a stable descending sort by score gives).
use vstd::prelude::*;

verus! {

/// Insert `x` after every entry whose score is at least `x`'s score.
pub open spec fn insert_desc(s: Seq<(u32, usize)>, x: (u32, usize)) -> Seq<(u32, usize)>
    decreases s.len(),
{
    if s.len() == 0 {
        seq![x]
    } else if s[0].0 < x.0 {
        seq![x] + s
    } else {
        seq![s[0]] + insert_desc(s.drop_first(), x)
    }
}

/// The items `(score, index)` of `scores`, highest score first; equal scores
/// keep ascending index order.
pub open spec fn rank_desc(scores: Seq<u32>) -> Seq<(u32, usize)>
    decreases scores.len(),
{
    if scores.len() == 0 {
        Seq::empty()
    } else {
        insert_desc(rank_desc(scores.drop_last()), (scores.last(), (scores.len() - 1) as usize))
    }
}

/// The entries whose score is at least `t`, in order.
pub open spec fn keep_at_least(s: Seq<(u32, usize)>, t: u32) -> Seq<(u32, usize)>
    decreases s.len(),
{
    if s.len() == 0 {
        Seq::empty()
    } else {
        let rest = keep_at_least(s.drop_last(), t);
        if s.last().0 >= t {
            rest.push(s.last())
        } else {
            rest
        }
    }
}

/// At most the first `n` elements of `s`.
pub open spec fn first_n<A>(s: Seq<A>, n: int) -> Seq<A> {
    if s.len() <= n {
        s
    } else {
        s.take(n)
    }
}

proof fn lemma_insert_desc_at(s: Seq<(u32, usize)>, x: (u32, usize), pos: int)
    requires
        0 <= pos <= s.len(),
        forall|k: int| 0 <= k < pos ==> !(#[trigger] s[k].0 < x.0),
        pos < s.len() ==> s[pos].0 < x.0,
    ensures
        insert_desc(s, x) == s.insert(pos, x),
    decreases s.len(),
{
    if s.len() == 0 {
        assert(s.insert(pos, x) =~= seq![x]);
    } else if pos == 0 {
        assert(s.insert(pos, x) =~= seq![x] + s);
    } else {
        let t = s.drop_first();
        assert forall|k: int| 0 <= k < pos - 1 implies !(#[trigger] t[k].0 < x.0) by {
            assert(t[k] == s[k + 1]);
        }
        lemma_insert_desc_at(t, x, pos - 1);
        assert(s.insert(pos, x) =~= seq![s[0]] + t.insert(pos - 1, x));
    }
}

pub proof fn lemma_insert_desc_len(s: Seq<(u32, usize)>, x: (u32, usize))
    ensures
        insert_desc(s, x).len() == s.len() + 1,
    decreases s.len(),
{
    if s.len() > 0 && !(s[0].0 < x.0) {
        lemma_insert_desc_len(s.drop_first(), x);
    }
}

pub proof fn lemma_rank_len(scores: Seq<u32>)
    ensures
        rank_desc(scores).len() == scores.len(),
    decreases scores.len(),
{
    if scores.len() > 0 {
        lemma_rank_len(scores.drop_last());
        lemma_insert_desc_len(rank_desc(scores.drop_last()), (scores.last(), (scores.len() - 1) as usize));
    }
}

fn insert_desc_v(v: &mut Vec<(u32, usize)>, x: (u32, usize))
    ensures
        final(v)@ == insert_desc(old(v)@, x),
{
    let mut pos: usize = 0;
    while pos < v.len() && !(v[pos].0 < x.0)
        invariant
            pos <= v.len(),
            v@ == old(v)@,
            forall|k: int| 0 <= k < pos ==> !(#[trigger] v@[k].0 < x.0),
        decreases v.len() - pos,
    {
        pos += 1;
    }
    proof {
        lemma_insert_desc_at(v@, x, pos as int);
    }
    v.insert(pos, x);
}

/// Rank `scores` as `rank_desc` does.
pub fn rank_v(scores: &Vec<u32>) -> (r: Vec<(u32, usize)>)
    ensures
        r@ == rank_desc(scores@),
{
    let mut r: Vec<(u32, usize)> = Vec::new();
    let mut i: usize = 0;
    while i < scores.len()
        invariant
            i <= scores.len(),
            r@ == rank_desc(scores@.take(i as int)),
        decreases scores.len() - i,
    {
        proof {
            let t = scores@.take(i + 1);
            assert(t.drop_last() =~= scores@.take(i as int));
            assert(t.last() == scores@[i as int]);
        }
        insert_desc_v(&mut r, (scores[i], i));
        i += 1;
    }
    assert(scores@.take(scores.len() as int) =~= scores@);
    r
}

/// The entries of `s` with score at least `t`.
pub fn keep_at_least_v(s: &Vec<(u32, usize)>, t: u32) -> (r: Vec<(u32, usize)>)
    ensures
        r@ == keep_at_least(s@, t),
{
    let mut r: Vec<(u32, usize)> = Vec::new();
    let mut i: usize = 0;
    while i < s.len()
        invariant
            i <= s.len(),
            r@ == keep_at_least(s@.take(i as int), t),
        decreases s.len() - i,
    {
        proof {
            let w = s@.take(i + 1);
            assert(w.drop_last() =~= s@.take(i as int));
            assert(w.last() == s@[i as int]);
        }
        if s[i].0 >= t {
            r.push(s[i]);
        }
        i += 1;
    }
    assert(s@.take(s.len() as int) =~= s@);
    r
}

/// Every entry's index is below `n`.
pub open spec fn indices_below(s: Seq<(u32, usize)>, n: int) -> bool {
    forall|k: int| 0 <= k < s.len() ==> (#[trigger] s[k]).1 < n
}

proof fn lemma_insert_below(s: Seq<(u32, usize)>, x: (u32, usize), n: int)
    requires
        indices_below(s, n),
        x.1 < n,
    ensures
        indices_below(insert_desc(s, x), n),
    decreases s.len(),
{
    if s.len() > 0 && !(s[0].0 < x.0) {
        let t = s.drop_first();
        assert forall|k: int| 0 <= k < t.len() implies (#[trigger] t[k]).1 < n by {
            assert(t[k] == s[k + 1]);
        }
        lemma_insert_below(t, x, n);
        let r = insert_desc(s, x);
        assert forall|k: int| 0 <= k < r.len() implies (#[trigger] r[k]).1 < n by {
            if k > 0 {
                assert(r[k] == insert_desc(t, x)[k - 1]);
            }
        }
    }
}

/// Ranking keeps the indices in range and the length unchanged.
pub proof fn lemma_rank_below(scores: Seq<u32>)
    ensures
        indices_below(rank_desc(scores), scores.len() as int),
        rank_desc(scores).len() == scores.len(),
    decreases scores.len(),
{
    lemma_rank_len(scores);
    if scores.len() > 0 {
        let p = scores.drop_last();
        lemma_rank_below(p);
        lemma_insert_below(rank_desc(p), (scores.last(), (scores.len() - 1) as usize), scores.len() as int);
    }
}

/// Filtering by score keeps indices in range, keeps only entries with score
/// at least `t`, and never lengthens.
pub proof fn lemma_keep(s: Seq<(u32, usize)>, t: u32, n: int)
    requires
        indices_below(s, n),
    ensures
        indices_below(keep_at_least(s, t), n),
        keep_at_least(s, t).len() <= s.len(),
        forall|k: int| 0 <= k < keep_at_least(s, t).len() ==> (#[trigger] keep_at_least(s, t)[k]).0 >= t,
    decreases s.len(),
{
    if s.len() > 0 {
        let p = s.drop_last();
        assert forall|k: int| 0 <= k < p.len() implies (#[trigger] p[k]).1 < n by {
            assert(p[k] == s[k]);
        }
        lemma_keep(p, t, n);
    }
}

pub proof fn lemma_skip_below(s: Seq<(u32, usize)>, n: int)
    requires
        indices_below(s, n),
        s.len() >= 1,
    ensures
        indices_below(s.skip(1), n),
{
    assert forall|k: int| 0 <= k < s.skip(1).len() implies (#[trigger] s.skip(1)[k]).1 < n by {
        assert(s.skip(1)[k] == s[k + 1]);
    }
}

pub proof fn lemma_first_n_below(s: Seq<(u32, usize)>, m: int, n: int)
    requires
        indices_below(s, n),
        m >= 0,
    ensures
        indices_below(first_n(s, m), n),
        first_n(s, m).len() <= m,
        first_n(s, m).len() <= s.len(),
{
    if s.len() > m {
        assert forall|k: int| 0 <= k < first_n(s, m).len() implies (#[trigger] first_n(s, m)[k]).1 < n by {
            assert(first_n(s, m)[k] == s[k]);
        }
    }
}

/// `v` without its first entry.
pub fn skip_first_v(v: &Vec<(u32, usize)>) -> (r: Vec<(u32, usize)>)
    requires
        v.len() >= 1,
    ensures
        r@ == v@.skip(1),
{
    let mut r: Vec<(u32, usize)> = Vec::new();
    let mut i: usize = 1;
    while i < v.len()
        invariant
            1 <= i <= v.len(),
            r@ == v@.subrange(1, i as int),
        decreases v.len() - i,
    {
        r.push(v[i]);
        assert(v@.subrange(1, i + 1) =~= v@.subrange(1, i as int).push(v@[i as int]));
        i += 1;
    }
    assert(v@.skip(1) =~= v@.subrange(1, v.len() as int));
    r
}

/// At most the first `n` entries of `v`.
pub fn first_n_v<T: Copy>(v: &Vec<T>, n: usize) -> (r: Vec<T>)
    ensures
        r@ == first_n(v@, n as int),
{
    let mut r: Vec<T> = Vec::new();
    let mut i: usize = 0;
    while i < v.len() && i < n
        invariant
            i <= v.len(),
            i <= n,
            r@ == v@.take(i as int),
        decreases v.len() - i,
    {
        r.push(v[i]);
        assert(v@.take(i + 1) =~= v@.take(i as int).push(v@[i as int]));
        i += 1;
    }
    assert(v.len() <= n ==> v@.take(v.len() as int) =~= v@);
    r
}

/// Every entry carries the score of the index it names.
pub open spec fn faithful(s: Seq<(u32, usize)>, scores: Seq<u32>) -> bool {
    forall|k: int| 0 <= k < s.len() ==> (#[trigger] s[k]).1 < scores.len() && s[k].0 == scores[s[k].1 as int]
}

proof fn lemma_insert_desc_contents(s: Seq<(u32, usize)>, x: (u32, usize))
    ensures
        insert_desc(s, x).contains(x),
        forall|k: int| 0 <= k < s.len() ==> insert_desc(s, x).contains(#[trigger] s[k]),
        forall|k: int|
            0 <= k < insert_desc(s, x).len() ==> (#[trigger] insert_desc(s, x)[k]) == x || s.contains(
                insert_desc(s, x)[k],
            ),
    decreases s.len(),
{
    lemma_insert_desc_len(s, x);
    let r = insert_desc(s, x);
    if s.len() == 0 {
        assert(r[0] == x);
    } else if s[0].0 < x.0 {
        assert(r == seq![x] + s);
        assert(r[0] == x);
        assert forall|k: int| 0 <= k < s.len() implies r.contains(#[trigger] s[k]) by {
            assert(r[k + 1] == s[k]);
        }
        assert forall|k: int| 0 <= k < r.len() implies (#[trigger] r[k]) == x || s.contains(r[k]) by {
            if k > 0 {
                assert(r[k] == s[k - 1]);
            }
        }
    } else {
        let t = s.drop_first();
        lemma_insert_desc_contents(t, x);
        let rt = insert_desc(t, x);
        assert(r == seq![s[0]] + rt);
        let j = choose|j: int| 0 <= j < rt.len() && rt[j] == x;
        assert(r[j + 1] == x);
        assert forall|k: int| 0 <= k < s.len() implies r.contains(#[trigger] s[k]) by {
            if k == 0 {
                assert(r[0] == s[0]);
            } else {
                assert(t[k - 1] == s[k]);
                assert(rt.contains(t[k - 1]));
                let m = choose|m: int| 0 <= m < rt.len() && rt[m] == t[k - 1];
                assert(r[m + 1] == s[k]);
            }
        }
        assert forall|k: int| 0 <= k < r.len() implies (#[trigger] r[k]) == x || s.contains(r[k]) by {
            if k == 0 {
                assert(s[0] == r[0]);
            } else {
                assert(r[k] == rt[k - 1]);
                if rt[k - 1] != x {
                    assert(t.contains(rt[k - 1]));
                    let m = choose|m: int| 0 <= m < t.len() && t[m] == rt[k - 1];
                    assert(s[m + 1] == t[m]);
                }
            }
        }
    }
}

/// `rank_desc` lists every index once with its score.
pub proof fn lemma_rank_contents(scores: Seq<u32>)
    requires
        scores.len() <= usize::MAX,
    ensures
        faithful(rank_desc(scores), scores),
        forall|i: int| 0 <= i < scores.len() ==> rank_desc(scores).contains((#[trigger] scores[i], i as usize)),
    decreases scores.len(),
{
    if scores.len() > 0 {
        let p = scores.drop_last();
        lemma_rank_contents(p);
        let s = rank_desc(p);
        let x = (scores.last(), (scores.len() - 1) as usize);
        lemma_insert_desc_contents(s, x);
        let r = rank_desc(scores);
        assert(r == insert_desc(s, x));
        assert(x.1 as int == scores.len() - 1);
        assert(x.0 == scores[scores.len() - 1]);
        assert forall|k: int| 0 <= k < r.len() implies (#[trigger] r[k]).1 < scores.len() && r[k].0
            == scores[r[k].1 as int] by {
            if r[k] != x {
                let m = choose|m: int| 0 <= m < s.len() && s[m] == r[k];
                assert(s[m].1 < p.len() && s[m].0 == p[s[m].1 as int]);
            }
        }
        assert forall|i: int| 0 <= i < scores.len() implies r.contains((#[trigger] scores[i], i as usize)) by {
            if i < scores.len() - 1 {
                assert(p[i] == scores[i]);
                assert(s.contains((p[i], i as usize)));
                let m = choose|m: int| 0 <= m < s.len() && s[m] == (p[i], i as usize);
                assert(r.contains(s[m]));
            }
        }
    }
}

/// `keep_at_least` keeps exactly the entries of score at least `t`.
pub proof fn lemma_keep_contents(s: Seq<(u32, usize)>, t: u32)
    ensures
        forall|k: int| 0 <= k < s.len() && (#[trigger] s[k]).0 >= t ==> keep_at_least(s, t).contains(s[k]),
        forall|k: int|
            0 <= k < keep_at_least(s, t).len() ==> s.contains(#[trigger] keep_at_least(s, t)[k])
                && keep_at_least(s, t)[k].0 >= t,
    decreases s.len(),
{
    if s.len() > 0 {
        let p = s.drop_last();
        lemma_keep_contents(p, t);
        let kp = keep_at_least(p, t);
        let r = keep_at_least(s, t);
        assert forall|k: int| 0 <= k < s.len() && (#[trigger] s[k]).0 >= t implies r.contains(s[k]) by {
            if k < s.len() - 1 {
                assert(p[k] == s[k]);
                let m = choose|m: int| 0 <= m < kp.len() && kp[m] == p[k];
                assert(r[m] == kp[m]);
            } else {
                assert(r[r.len() - 1] == s[k]);
            }
        }
        assert forall|k: int| 0 <= k < r.len() implies s.contains(#[trigger] r[k]) && r[k].0 >= t by {
            if k < kp.len() {
                assert(r[k] == kp[k]);
                let m = choose|m: int| 0 <= m < p.len() && p[m] == kp[k];
                assert(s[m] == p[m]);
            } else {
                assert(r[k] == s[s.len() - 1]);
            }
        }
    }
}

/// How many entries reach `t`: the first one (if it does) and those after it.
pub proof fn lemma_keep_first(s: Seq<(u32, usize)>, t: u32)
    requires
        s.len() > 0,
    ensures
        keep_at_least(s, t).len() == (if s[0].0 >= t {
            1int
        } else {
            0int
        }) + keep_at_least(s.skip(1), t).len(),
    decreases s.len(),
{
    if s.len() == 1 {
        assert(s.drop_last() =~= Seq::<(u32, usize)>::empty());
        assert(s.skip(1) =~= Seq::<(u32, usize)>::empty());
    } else {
        let init = s.drop_last();
        lemma_keep_first(init, t);
        assert(init.skip(1) =~= s.skip(1).drop_last());
        assert(s.skip(1).last() == s.last());
        assert(init[0] == s[0]);
    }
}

} // verus!
