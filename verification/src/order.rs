//! Stable rankings: candidates with a score, the highest first, equal ones in
//! the order in which they came.

use vstd::prelude::*;

use crate::text::{
    is_before, lemma_sorts_total, lemma_sorts_transitive, sorts_before, texts,
};

verus! {

/// Where a score goes in a ranking: behind the last that is not less.
pub open spec fn slot(order: Seq<int>, scores: Seq<Option<i128>>, s: i128) -> int
    decreases order.len(),
{
    if order.len() == 0 || scores[order.last()]->0 >= s {
        order.len() as int
    } else {
        slot(order.drop_last(), scores, s)
    }
}

/// The ranking of the first `n` candidates: those with a score, the highest
/// first, equal ones in their order.
pub open spec fn ranked(scores: Seq<Option<i128>>, n: nat) -> Seq<int>
    decreases n,
{
    if n == 0 {
        Seq::empty()
    } else {
        let before = ranked(scores, (n - 1) as nat);
        match scores[n - 1] {
            Some(s) => before.insert(slot(before, scores, s), n - 1),
            None => before,
        }
    }
}

/// Candidates as numbers.
pub open spec fn numbers(v: Seq<usize>) -> Seq<int> {
    v.map_values(|i: usize| i as int)
}

/// Whether a candidate stands before another: by a higher score, or by an
/// equal score and its place.
pub open spec fn stands_before(scores: Seq<Option<i128>>, a: int, b: int) -> bool {
    scores[a]->0 > scores[b]->0 || (scores[a]->0 == scores[b]->0 && a < b)
}

/// Whether each candidate stands before those behind it.
pub open spec fn in_order(scores: Seq<Option<i128>>, r: Seq<int>) -> bool {
    forall|i: int, j: int|
        0 <= i < j < r.len() ==> stands_before(scores, #[trigger] r[i], #[trigger] r[j])
}

proof fn lemma_slot(order: Seq<int>, scores: Seq<Option<i128>>, s: i128)
    ensures
        0 <= slot(order, scores, s) <= order.len(),
        forall|i: int|
            slot(order, scores, s) <= i < order.len() ==> scores[#[trigger] order[i]]->0 < s,
        slot(order, scores, s) > 0 ==> scores[order[slot(order, scores, s) - 1]]->0 >= s,
    decreases order.len(),
{
    if order.len() > 0 && scores[order.last()]->0 < s {
        let d = order.drop_last();
        lemma_slot(d, scores, s);
        assert forall|i: int| slot(order, scores, s) <= i < order.len() implies scores[
        #[trigger] order[i]]->0 < s by {
            if i < d.len() {
                assert(d[i] == order[i]);
            }
        }
    }
}

/// A ranking holds each candidate with a score once, in falling order of the
/// scores, and keeps the order of equal ones.
#[verifier::rlimit(40)]
pub proof fn law_ranking_is_stable(scores: Seq<Option<i128>>, n: nat)
    requires
        n <= scores.len(),
    ensures
        forall|i: int|
            0 <= i < ranked(scores, n).len() ==> 0 <= #[trigger] ranked(scores, n)[i] < n
                && scores[ranked(scores, n)[i]] is Some,
        forall|k: int|
            0 <= k < n && #[trigger] scores[k] is Some ==> ranked(scores, n).contains(k),
        in_order(scores, ranked(scores, n)),
        ranked(scores, n).len() <= n,
    decreases n,
{
    if n > 0 {
        law_ranking_is_stable(scores, (n - 1) as nat);
        let before = ranked(scores, (n - 1) as nat);
        let after = ranked(scores, n);
        if let Some(s) = scores[n - 1] {
            lemma_slot(before, scores, s);
            let at = slot(before, scores, s);
            assert(after[at] == n - 1);
            assert forall|i: int| 0 <= i < after.len() implies after[i] == if i < at {
                before[i]
            } else if i == at {
                n - 1
            } else {
                before[i - 1]
            } by {}
            assert forall|k: int| 0 <= k < n && #[trigger] scores[k] is Some implies after.contains(
                k,
            ) by {
                if k == n - 1 {
                    assert(after[at] == k);
                } else {
                    assert(before.contains(k));
                    let i = choose|i: int| 0 <= i < before.len() && before[i] == k;
                    if i < at {
                        assert(after[i] == k);
                    } else {
                        assert(after[i + 1] == k);
                    }
                }
            }
            assert forall|i: int| 0 <= i < at implies scores[#[trigger] before[i]]->0 >= s by {
                if i < at - 1 {
                    assert(stands_before(scores, before[i], before[at - 1]));
                }
            }
            assert forall|i: int, j: int| 0 <= i < j < after.len() implies stands_before(
                scores,
                #[trigger] after[i],
                #[trigger] after[j],
            ) by {
                if j < at {
                    assert(after[i] == before[i] && after[j] == before[j]);
                } else if j == at {
                    assert(after[i] == before[i]);
                } else if i < at {
                    assert(after[i] == before[i] && after[j] == before[j - 1]);
                } else if i == at {
                    assert(after[j] == before[j - 1]);
                    assert(scores[before[j - 1]]->0 < s);
                } else {
                    assert(after[i] == before[i - 1] && after[j] == before[j - 1]);
                }
            }
        }
    }
}

/// Two rankings of the same candidates are the same.
pub proof fn law_ranking_is_unique(scores: Seq<Option<i128>>, a: Seq<int>, b: Seq<int>)
    requires
        in_order(scores, a),
        in_order(scores, b),
        forall|x: int| a.contains(x) <==> b.contains(x),
    ensures
        a == b,
    decreases a.len(),
{
    if a.len() == 0 {
        if b.len() > 0 {
            assert(b.contains(b[0]));
        }
        assert(a =~= b);
    } else {
        assert(a.contains(a[0]));
        let j = choose|j: int| 0 <= j < b.len() && b[j] == a[0];
        assert(b.contains(b[0]));
        let k = choose|k: int| 0 <= k < a.len() && a[k] == b[0];
        if j > 0 && k > 0 {
            assert(stands_before(scores, b[0], b[j]));
            assert(stands_before(scores, a[0], a[k]));
        }
        assert(a[0] == b[0]);
        let ra = a.skip(1);
        let rb = b.skip(1);
        assert forall|x: int| ra.contains(x) <==> rb.contains(x) by {
            if ra.contains(x) {
                let i = choose|i: int| 0 <= i < ra.len() && ra[i] == x;
                assert(stands_before(scores, a[0], a[i + 1]));
                assert(a.contains(x));
                let m = choose|m: int| 0 <= m < b.len() && b[m] == x;
                assert(m > 0);
                assert(rb[m - 1] == x);
            }
            if rb.contains(x) {
                let i = choose|i: int| 0 <= i < rb.len() && rb[i] == x;
                assert(stands_before(scores, b[0], b[i + 1]));
                assert(b.contains(x));
                let m = choose|m: int| 0 <= m < a.len() && a[m] == x;
                assert(m > 0);
                assert(ra[m - 1] == x);
            }
        }
        assert(in_order(scores, ra)) by {
            assert forall|x: int, y: int| 0 <= x < y < ra.len() implies stands_before(
                scores,
                #[trigger] ra[x],
                #[trigger] ra[y],
            ) by {
                assert(stands_before(scores, a[x + 1], a[y + 1]));
            }
        }
        assert(in_order(scores, rb)) by {
            assert forall|x: int, y: int| 0 <= x < y < rb.len() implies stands_before(
                scores,
                #[trigger] rb[x],
                #[trigger] rb[y],
            ) by {
                assert(stands_before(scores, b[x + 1], b[y + 1]));
            }
        }
        law_ranking_is_unique(scores, ra, rb);
        assert(a =~= seq![a[0]] + ra);
        assert(b =~= seq![b[0]] + rb);
    }
}

/// Whether candidates are valid: in range, with a score.
spec fn valid(scores: Seq<Option<i128>>, v: Seq<usize>) -> bool {
    forall|i: int|
        0 <= i < v.len() ==> #[trigger] v[i] < scores.len() && scores[v[i] as int] is Some
}

spec fn sorted(scores: Seq<Option<i128>>, v: Seq<usize>) -> bool {
    forall|i: int, j: int|
        0 <= i < j < v.len() ==> stands_before(
            scores,
            #[trigger] v[i] as int,
            #[trigger] v[j] as int,
        )
}

fn goes_first(scores: &Vec<Option<i128>>, a: usize, b: usize) -> (r: bool)
    requires
        a < scores@.len(),
        b < scores@.len(),
        scores@[a as int] is Some,
        scores@[b as int] is Some,
    ensures
        r == stands_before(scores@, a as int, b as int),
{
    match (scores[a], scores[b]) {
        (Some(x), Some(y)) => x > y || (x == y && a < b),
        _ => false,
    }
}

fn merge(scores: &Vec<Option<i128>>, a: &Vec<usize>, b: &Vec<usize>) -> (r: Vec<usize>)
    requires
        valid(scores@, a@),
        valid(scores@, b@),
        sorted(scores@, a@),
        sorted(scores@, b@),
        forall|i: int, j: int|
            0 <= i < a@.len() && 0 <= j < b@.len() ==> #[trigger] a@[i] != #[trigger] b@[j],
        a@.len() + b@.len() <= usize::MAX,
    ensures
        valid(scores@, r@),
        sorted(scores@, r@),
        forall|x: usize| #[trigger] r@.contains(x) <==> a@.contains(x) || b@.contains(x),
{
    let mut r: Vec<usize> = Vec::new();
    let mut i: usize = 0;
    let mut j: usize = 0;
    while i < a.len() || j < b.len()
        invariant
            i <= a@.len(),
            j <= b@.len(),
            valid(scores@, a@),
            valid(scores@, b@),
            sorted(scores@, a@),
            sorted(scores@, b@),
            forall|i: int, j: int|
                0 <= i < a@.len() && 0 <= j < b@.len() ==> #[trigger] a@[i] != #[trigger] b@[j],
            valid(scores@, r@),
            sorted(scores@, r@),
            forall|k: int, m: int|
                0 <= k < r@.len() && i <= m < a@.len() ==> stands_before(
                    scores@,
                    #[trigger] r@[k] as int,
                    #[trigger] a@[m] as int,
                ),
            forall|k: int, m: int|
                0 <= k < r@.len() && j <= m < b@.len() ==> stands_before(
                    scores@,
                    #[trigger] r@[k] as int,
                    #[trigger] b@[m] as int,
                ),
            forall|k: int|
                0 <= k < r@.len() ==> a@.contains(#[trigger] r@[k]) || b@.contains(r@[k]),
            forall|m: int| 0 <= m < i ==> r@.contains(#[trigger] a@[m]),
            forall|m: int| 0 <= m < j ==> r@.contains(#[trigger] b@[m]),
        decreases a@.len() - i + (b@.len() - j),
    {
        let ghost before = r@;
        let from_a = i < a.len() && (j >= b.len() || goes_first(scores, a[i], b[j]));
        if from_a {
            let x: usize = a[i];
            r.push(x);
            i = i + 1;
        } else {
            let x: usize = b[j];
            r.push(x);
            j = j + 1;
        }
        proof {
            let last = r@[before.len() as int];
            assert forall|x: usize| before.contains(x) implies #[trigger] r@.contains(x) by {
                let k = choose|k: int| 0 <= k < before.len() && before[k] == x;
                assert(r@[k] == x);
            }
            assert(r@.contains(last));
            assert forall|k: int, m: int| 0 <= k < r@.len() && i <= m < a@.len() implies stands_before(
                scores@,
                #[trigger] r@[k] as int,
                #[trigger] a@[m] as int,
            ) by {
                if k == before.len() && !from_a && i < a@.len() {
                    assert(stands_before(scores@, last as int, a@[i as int] as int));
                    if m > i {
                        assert(stands_before(scores@, a@[i as int] as int, a@[m] as int));
                    }
                }
            }
            assert forall|k: int, m: int| 0 <= k < r@.len() && j <= m < b@.len() implies stands_before(
                scores@,
                #[trigger] r@[k] as int,
                #[trigger] b@[m] as int,
            ) by {
                if k == before.len() && from_a && j < b@.len() {
                    assert(stands_before(scores@, last as int, b@[j as int] as int));
                    if m > j {
                        assert(stands_before(scores@, b@[j as int] as int, b@[m] as int));
                    }
                }
            }
        }
    }
    assert forall|x: usize| #[trigger] r@.contains(x) <==> a@.contains(x) || b@.contains(x) by {
        if r@.contains(x) {
            let k = choose|k: int| 0 <= k < r@.len() && r@[k] == x;
            assert(a@.contains(r@[k]) || b@.contains(r@[k]));
        }
        if a@.contains(x) {
            let m = choose|m: int| 0 <= m < a@.len() && a@[m] == x;
            assert(r@.contains(a@[m]));
        }
        if b@.contains(x) {
            let m = choose|m: int| 0 <= m < b@.len() && b@[m] == x;
            assert(r@.contains(b@[m]));
        }
    }
    r
}

/// Sorts the candidates from `lo` to `hi` of a list without repeats.
fn sort(scores: &Vec<Option<i128>>, v: &Vec<usize>, lo: usize, hi: usize) -> (r: Vec<usize>)
    requires
        lo <= hi <= v@.len(),
        valid(scores@, v@),
        v@.no_duplicates(),
    ensures
        valid(scores@, r@),
        sorted(scores@, r@),
        forall|x: usize|
            #[trigger] r@.contains(x) <==> v@.subrange(lo as int, hi as int).contains(x),
    decreases hi - lo,
{
    let ghost part = v@.subrange(lo as int, hi as int);
    if hi - lo <= 1 {
        let mut r: Vec<usize> = Vec::new();
        if hi - lo == 1 {
            r.push(v[lo]);
        }
        assert(r@ =~= part);
        return r;
    }
    let mid: usize = lo + (hi - lo) / 2;
    let a = sort(scores, v, lo, mid);
    let b = sort(scores, v, mid, hi);
    let ghost pa = v@.subrange(lo as int, mid as int);
    let ghost pb = v@.subrange(mid as int, hi as int);
    proof {
        assert forall|i: int, j: int|
            0 <= i < a@.len() && 0 <= j < b@.len() implies #[trigger] a@[i] != #[trigger] b@[j] by {
            assert(a@.contains(a@[i]));
            assert(b@.contains(b@[j]));
            let x = choose|x: int| 0 <= x < pa.len() && pa[x] == a@[i];
            let y = choose|y: int| 0 <= y < pb.len() && pb[y] == b@[j];
            assert(v@[lo + x] != v@[mid + y]);
        }
        lemma_sorted_len(scores@, a@);
        lemma_sorted_len(scores@, b@);
        lemma_same_len(scores@, a@, pa);
        lemma_same_len(scores@, b@, pb);
    }
    let r = merge(scores, &a, &b);
    proof {
        assert forall|x: usize| #[trigger] r@.contains(x) <==> part.contains(x) by {
            if part.contains(x) {
                let k = choose|k: int| 0 <= k < part.len() && part[k] == x;
                if k < mid - lo {
                    assert(pa[k] == x);
                    assert(pa.contains(x));
                } else {
                    assert(pb[k - (mid - lo)] == x);
                    assert(pb.contains(x));
                }
            }
            if pa.contains(x) {
                let k = choose|k: int| 0 <= k < pa.len() && pa[k] == x;
                assert(part[k] == x);
            }
            if pb.contains(x) {
                let k = choose|k: int| 0 <= k < pb.len() && pb[k] == x;
                assert(part[k + (mid - lo)] == x);
            }
        }
    }
    r
}

proof fn lemma_sorted_len(scores: Seq<Option<i128>>, v: Seq<usize>)
    requires
        sorted(scores, v),
    ensures
        v.no_duplicates(),
{
    assert forall|i: int, j: int| 0 <= i < v.len() && 0 <= j < v.len() && i != j implies v[i]
        != v[j] by {
        if i < j {
            assert(stands_before(scores, v[i] as int, v[j] as int));
        } else {
            assert(stands_before(scores, v[j] as int, v[i] as int));
        }
    }
}

proof fn lemma_same_len(scores: Seq<Option<i128>>, a: Seq<usize>, b: Seq<usize>)
    requires
        a.no_duplicates(),
        forall|x: usize| #[trigger] a.contains(x) ==> b.contains(x),
    ensures
        a.len() <= b.len(),
{
    a.unique_seq_to_set();
    b.lemma_cardinality_of_set();
    assert(a.to_set().subset_of(b.to_set())) by {
        assert forall|x: usize| a.to_set().contains(x) implies b.to_set().contains(x) by {
            assert(a.contains(x));
        }
    }
    vstd::set_lib::lemma_len_subset(a.to_set(), b.to_set());
}

/// The candidates with a score, the highest first, equal ones in their order.
pub fn rank(scores: &Vec<Option<i128>>) -> (r: Vec<usize>)
    ensures
        numbers(r@) == ranked(scores@, scores@.len()),
        forall|i: int| 0 <= i < r@.len() ==> #[trigger] r@[i] < scores@.len(),
{
    let mut v: Vec<usize> = Vec::new();
    let mut n: usize = 0;
    while n < scores.len()
        invariant
            n <= scores@.len(),
            valid(scores@, v@),
            forall|i: int| 0 <= i < v@.len() ==> #[trigger] v@[i] < n,
            forall|i: int, j: int| 0 <= i < j < v@.len() ==> #[trigger] v@[i] < #[trigger] v@[j],
            forall|k: int| 0 <= k < n && #[trigger] scores@[k] is Some ==> v@.contains(k as usize),
        decreases scores@.len() - n,
    {
        if scores[n].is_some() {
            let ghost before = v@;
            v.push(n);
            proof {
                assert(v@[before.len() as int] == n);
                assert forall|k: int| 0 <= k < n + 1 && #[trigger] scores@[k] is Some implies v@.contains(
                    k as usize,
                ) by {
                    if k < n {
                        assert(before.contains(k as usize));
                        let i = choose|i: int| 0 <= i < before.len() && before[i] == k as usize;
                        assert(v@[i] == k as usize);
                    }
                }
            }
        }
        n = n + 1;
    }
    assert(v@.no_duplicates());
    let r = sort(scores, &v, 0, v.len());
    proof {
        assert(v@.subrange(0, v@.len() as int) =~= v@);
        law_ranking_is_stable(scores@, scores@.len());
        let want = ranked(scores@, scores@.len());
        let got = numbers(r@);
        assert(in_order(scores@, got)) by {
            assert forall|i: int, j: int| 0 <= i < j < got.len() implies stands_before(
                scores@,
                #[trigger] got[i],
                #[trigger] got[j],
            ) by {
                assert(stands_before(scores@, r@[i] as int, r@[j] as int));
            }
        }
        assert forall|x: int| got.contains(x) <==> want.contains(x) by {
            if got.contains(x) {
                let i = choose|i: int| 0 <= i < got.len() && got[i] == x;
                assert(r@[i] < scores@.len() && scores@[r@[i] as int] is Some);
                assert(scores@[x] is Some);
            }
            if want.contains(x) {
                let i = choose|i: int| 0 <= i < want.len() && want[i] == x;
                assert(scores@[x] is Some);
                assert(v@.contains(x as usize));
                assert(r@.contains(x as usize));
                let k = choose|k: int| 0 <= k < r@.len() && r@[k] == x as usize;
                assert(got[k] == x);
            }
        }
        law_ranking_is_unique(scores@, got, want);
    }
    r
}

/// Where every candidate has a score, the ranking holds them all.
pub proof fn law_full_ranking(scores: Seq<Option<i128>>, n: nat)
    requires
        n <= scores.len(),
        forall|k: int| 0 <= k < n ==> #[trigger] scores[k] is Some,
    ensures
        ranked(scores, n).len() == n,
    decreases n,
{
    if n > 0 {
        law_full_ranking(scores, (n - 1) as nat);
        let before = ranked(scores, (n - 1) as nat);
        assert(scores[n - 1] is Some);
        lemma_slot(before, scores, scores[n - 1]->0);
    }
}

/// `order` with `i` put in by its text: behind those that it does not stand
/// before.
pub open spec fn placed(keys: Seq<Seq<char>>, order: Seq<int>, i: int) -> Seq<int>
    decreases order.len(),
{
    if order.len() == 0 || !sorts_before(keys[i], keys[order.last()]) {
        order.push(i)
    } else {
        placed(keys, order.drop_last(), i).push(order.last())
    }
}

/// The first `n` positions in the order of their texts, equal ones in their
/// order.
pub open spec fn text_order(keys: Seq<Seq<char>>, n: int) -> Seq<int>
    decreases n,
{
    if n <= 0 {
        Seq::empty()
    } else {
        placed(keys, text_order(keys, n - 1), n - 1)
    }
}

/// Whether a position comes before another: by its text, or by an equal text
/// and its place.
pub open spec fn comes_before(keys: Seq<Seq<char>>, a: int, b: int) -> bool {
    sorts_before(keys[a], keys[b]) || (keys[a] == keys[b] && a < b)
}

proof fn lemma_placed(keys: Seq<Seq<char>>, order: Seq<int>, i: int, p: int)
    requires
        0 <= p <= order.len(),
        forall|k: int| p <= k < order.len() ==> sorts_before(keys[i], keys[#[trigger] order[k]]),
        p > 0 ==> !sorts_before(keys[i], keys[order[p - 1]]),
    ensures
        placed(keys, order, i) == order.insert(p, i),
    decreases order.len(),
{
    if p < order.len() {
        assert(sorts_before(keys[i], keys[order[order.len() - 1]]));
        assert forall|k: int| p <= k < order.drop_last().len() implies sorts_before(
            keys[i],
            keys[#[trigger] order.drop_last()[k]],
        ) by {
            assert(order.drop_last()[k] == order[k]);
        }
        lemma_placed(keys, order.drop_last(), i, p);
        assert(order.drop_last().insert(p, i).push(order.last()) =~= order.insert(p, i));
    } else {
        assert(order.push(i) =~= order.insert(p, i));
    }
}

proof fn lemma_text_order_step(keys: Seq<Seq<char>>, order: Seq<int>, i: int)
    requires
        forall|a: int, b: int|
            0 <= a < b < order.len() ==> comes_before(
                keys,
                #[trigger] order[a],
                #[trigger] order[b],
            ),
        forall|k: int| 0 <= k < order.len() ==> 0 <= #[trigger] order[k] < i,
        0 <= i,
    ensures
        forall|a: int, b: int|
            0 <= a < b < order.len() + 1 ==> comes_before(
                keys,
                #[trigger] placed(keys, order, i)[a],
                #[trigger] placed(keys, order, i)[b],
            ),
        forall|k: int|
            0 <= k < order.len() + 1 ==> 0 <= #[trigger] placed(keys, order, i)[k] <= i,
        placed(keys, order, i).len() == order.len() + 1,
        placed(keys, order, i).contains(i),
        forall|k: int|
            0 <= k < order.len() ==> placed(keys, order, i).contains(#[trigger] order[k]),
    decreases order.len(),
{
    let r = placed(keys, order, i);
    if order.len() == 0 || !sorts_before(keys[i], keys[order.last()]) {
        assert(r[order.len() as int] == i);
        assert forall|k: int| 0 <= k < order.len() implies r.contains(#[trigger] order[k]) by {
            assert(r[k] == order[k]);
        }
        if order.len() > 0 {
            assert forall|a: int| 0 <= a < order.len() implies comes_before(
                keys,
                #[trigger] order[a],
                i,
            ) by {
                lemma_sorts_total(keys[i], keys[order.last()]);
                if a < order.len() - 1 {
                    assert(comes_before(keys, order[a], order[order.len() - 1]));
                    if sorts_before(keys[order[a]], keys[order.last()]) && sorts_before(
                        keys[order.last()],
                        keys[i],
                    ) {
                        lemma_sorts_transitive(keys[order[a]], keys[order.last()], keys[i]);
                    }
                }
            }
        }
    } else {
        let front = order.drop_last();
        assert forall|a: int, b: int| 0 <= a < b < front.len() implies comes_before(
            keys,
            #[trigger] front[a],
            #[trigger] front[b],
        ) by {
            assert(comes_before(keys, order[a], order[b]));
        }
        lemma_text_order_step(keys, front, i);
        let f = placed(keys, front, i);
        assert forall|k: int| 0 <= k < f.len() implies comes_before(
            keys,
            #[trigger] f[k],
            order.last(),
        ) by {
            lemma_from(keys, front, i, k);
            if f[k] != i {
                let j = choose|j: int| 0 <= j < front.len() && front[j] == f[k];
                assert(comes_before(keys, order[j], order[order.len() - 1]));
            }
        }
        assert(r == f.push(order.last()));
        let w = choose|w: int| 0 <= w < f.len() && f[w] == i;
        assert(r[w] == i);
        assert forall|k: int| 0 <= k < order.len() implies r.contains(#[trigger] order[k]) by {
            if k < front.len() {
                assert(f.contains(front[k]));
                let j = choose|j: int| 0 <= j < f.len() && f[j] == front[k];
                assert(r[j] == order[k]);
            } else {
                assert(r[r.len() - 1] == order[k]);
            }
        }
    }
}

proof fn lemma_from(keys: Seq<Seq<char>>, order: Seq<int>, i: int, k: int)
    requires
        0 <= k < placed(keys, order, i).len(),
    ensures
        placed(keys, order, i)[k] == i || order.contains(placed(keys, order, i)[k]),
    decreases order.len(),
{
    if order.len() == 0 || !sorts_before(keys[i], keys[order.last()]) {
        if k < order.len() {
            assert(order[k] == placed(keys, order, i)[k]);
        }
    } else {
        let f = placed(keys, order.drop_last(), i);
        if k < f.len() {
            lemma_from(keys, order.drop_last(), i, k);
            if f[k] != i {
                let j = choose|j: int| 0 <= j < order.drop_last().len() && order.drop_last()[j] == f[k];
                assert(order[j] == f[k]);
            }
        } else {
            assert(order[order.len() - 1] == order.last());
        }
    }
}

/// An order by texts names each position once, each before those that come
/// after it.
pub proof fn law_text_order(keys: Seq<Seq<char>>, n: int)
    requires
        0 <= n <= keys.len(),
    ensures
        text_order(keys, n).len() == n,
        forall|a: int, b: int|
            0 <= a < b < n ==> comes_before(
                keys,
                #[trigger] text_order(keys, n)[a],
                #[trigger] text_order(keys, n)[b],
            ),
        forall|k: int| 0 <= k < n ==> 0 <= #[trigger] text_order(keys, n)[k] < n,
        forall|i: int| 0 <= i < n ==> #[trigger] text_order(keys, n).contains(i),
    decreases n,
{
    if n > 0 {
        law_text_order(keys, n - 1);
        let before = text_order(keys, n - 1);
        lemma_text_order_step(keys, before, n - 1);
        assert forall|i: int| 0 <= i < n implies #[trigger] text_order(keys, n).contains(i) by {
            if i < n - 1 {
                assert(before.contains(i));
                let k = choose|k: int| 0 <= k < before.len() && before[k] == i;
                assert(text_order(keys, n).contains(before[k]));
            }
        }
    }
}

/// The positions in the order of their texts, equal ones in their order.
pub fn rank_texts(keys: &Vec<String>) -> (r: Vec<usize>)
    ensures
        numbers(r@) == text_order(texts(keys@), keys@.len() as int),
        forall|k: int| 0 <= k < r@.len() ==> #[trigger] r@[k] < keys@.len(),
{
    let ghost all = texts(keys@);
    let mut r: Vec<usize> = Vec::new();
    let mut i: usize = 0;
    assert(numbers(r@) =~= text_order(all, 0));
    while i < keys.len()
        invariant
            i <= keys@.len(),
            all == texts(keys@),
            numbers(r@) == text_order(all, i as int),
            r@.len() == i,
            forall|k: int| 0 <= k < r@.len() ==> #[trigger] r@[k] < i,
        decreases keys@.len() - i,
    {
        let p: usize = place(keys, &r, i);
        let ghost before = numbers(r@);
        let ghost old_r = r@;
        proof {
            assert forall|k: int| p <= k < before.len() implies sorts_before(
                all[i as int],
                all[#[trigger] before[k]],
            ) by {
                assert(before[k] == r@[k]);
                assert(is_later(keys@, r@[k] as int, i as int));
            }
            if p > 0 {
                assert(before[p - 1] == r@[p - 1]);
            }
            lemma_placed(all, before, i as int, p as int);
        }
        r.insert(p, i);
        assert(numbers(r@) =~= before.insert(p as int, i as int));
        assert forall|k: int| 0 <= k < r@.len() implies #[trigger] r@[k] < i + 1 by {
            if k < p {
                assert(r@[k] == old_r[k]);
            } else if k > p {
                assert(r@[k] == old_r[k - 1]);
            }
        }
        i = i + 1;
    }
    r
}

spec fn is_later(keys: Seq<String>, k: int, i: int) -> bool {
    sorts_before(keys[i]@, keys[k]@)
}

/// Where `i` goes into `order`.
fn place(keys: &Vec<String>, order: &Vec<usize>, i: usize) -> (p: usize)
    requires
        i < keys@.len(),
        forall|k: int| 0 <= k < order@.len() ==> #[trigger] order@[k] < keys@.len(),
    ensures
        p <= order@.len(),
        forall|k: int|
            p <= k < order@.len() ==> is_later(keys@, #[trigger] order@[k] as int, i as int),
        p > 0 ==> !sorts_before(keys@[i as int]@, keys@[order@[p - 1] as int]@),
{
    let mut p: usize = order.len();
    while p > 0 && is_before(keys[i].as_str(), keys[order[p - 1]].as_str())
        invariant
            i < keys@.len(),
            forall|k: int| 0 <= k < order@.len() ==> #[trigger] order@[k] < keys@.len(),
            p <= order@.len(),
            forall|k: int|
                p <= k < order@.len() ==> is_later(keys@, #[trigger] order@[k] as int, i as int),
        decreases p,
    {
        p = p - 1;
    }
    p
}

} // verus!
