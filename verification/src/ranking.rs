//! The order in which scored items are shown: only items with a positive score,
//! the highest score first, and items with equal scores in their original order
//! (a stable sort, as a `gtk::SortListModel` does it).
use vstd::prelude::*;

verus! {

/// Item `a` is shown before item `b`.
pub open spec fn ranked_before(scores: Seq<i64>, a: int, b: int) -> bool {
    scores[a] > scores[b] || (scores[a] == scores[b] && a < b)
}

/// `r` lists the positions of the items with a positive score, each once, in the
/// order in which they are shown.
pub open spec fn is_ranking(scores: Seq<i64>, r: Seq<usize>) -> bool {
    &&& forall|k: int| 0 <= k < r.len() ==> #[trigger] r[k] < scores.len() && scores[r[k] as int] > 0
    &&& forall|i: usize| i < scores.len() && scores[i as int] > 0 ==> #[trigger] r.contains(i)
    &&& forall|j: int, k: int|
        0 <= j < k < r.len() ==> ranked_before(scores, #[trigger] r[j] as int, #[trigger] r[k] as int)
}

/// The order in which items with the given scores are shown (the ranking, which
/// exists and is unique).
pub open spec fn ranking_of(scores: Seq<i64>) -> Seq<usize> {
    choose|r: Seq<usize>| is_ranking(scores, r)
}

/// At most one sequence is a ranking of given scores.
pub proof fn lemma_ranking_unique(scores: Seq<i64>, r1: Seq<usize>, r2: Seq<usize>)
    requires
        is_ranking(scores, r1),
        is_ranking(scores, r2),
    ensures
        r1 == r2,
    decreases r1.len(),
{
    if r1.len() > 0 && r2.len() > 0 {
        // the first entries are both the least element of the same set
        let a = r1[0];
        let b = r2[0];
        assert(r2.contains(a));
        assert(r1.contains(b));
        let ka = choose|k: int| 0 <= k < r2.len() && r2[k] == a;
        let kb = choose|k: int| 0 <= k < r1.len() && r1[k] == b;
        if a != b {
            assert(ka > 0 && kb > 0);
            assert(ranked_before(scores, b as int, a as int));
            assert(ranked_before(scores, a as int, b as int));
        }
        let t1 = r1.drop_first();
        let t2 = r2.drop_first();
        let rest = scores.update(a as int, 0);
        assert forall|i: usize| i < rest.len() && rest[i as int] > 0 implies #[trigger] t1.contains(i) by {
            assert(r1.contains(i));
            let k = choose|k: int| 0 <= k < r1.len() && r1[k] == i;
            assert(k != 0);
            assert(t1[k - 1] == i);
        }
        assert forall|i: usize| i < rest.len() && rest[i as int] > 0 implies #[trigger] t2.contains(i) by {
            assert(r2.contains(i));
            let k = choose|k: int| 0 <= k < r2.len() && r2[k] == i;
            assert(k != 0);
            assert(t2[k - 1] == i);
        }
        assert forall|k: int| 0 <= k < t1.len() implies #[trigger] t1[k] < rest.len() && rest[t1[k] as int] > 0 by {
            assert(r1[k + 1] == t1[k]);
            assert(ranked_before(scores, r1[0] as int, r1[k + 1] as int));
        }
        assert forall|k: int| 0 <= k < t2.len() implies #[trigger] t2[k] < rest.len() && rest[t2[k] as int] > 0 by {
            assert(r2[k + 1] == t2[k]);
            assert(ranked_before(scores, r2[0] as int, r2[k + 1] as int));
        }
        assert forall|j: int, k: int| 0 <= j < k < t1.len() implies ranked_before(rest, #[trigger] t1[j] as int, #[trigger] t1[k] as int) by {
            assert(ranked_before(scores, r1[j + 1] as int, r1[k + 1] as int));
            assert(ranked_before(scores, r1[0] as int, r1[j + 1] as int));
            assert(ranked_before(scores, r1[0] as int, r1[k + 1] as int));
        }
        assert forall|j: int, k: int| 0 <= j < k < t2.len() implies ranked_before(rest, #[trigger] t2[j] as int, #[trigger] t2[k] as int) by {
            assert(ranked_before(scores, r2[j + 1] as int, r2[k + 1] as int));
            assert(ranked_before(scores, r2[0] as int, r2[j + 1] as int));
            assert(ranked_before(scores, r2[0] as int, r2[k + 1] as int));
        }
        lemma_ranking_unique(rest, t1, t2);
        assert(r1 =~= seq![a] + t1);
        assert(r2 =~= seq![b] + t2);
    } else if r1.len() > 0 {
        assert(r2.contains(r1[0]));
    } else if r2.len() > 0 {
        assert(r1.contains(r2[0]));
    }
}

/// Items that all have the same positive score are all shown, in their order.
pub proof fn lemma_equal_scores_keep_order(scores: Seq<i64>, s: i64)
    requires
        s > 0,
        scores.len() <= usize::MAX,
        forall|k: int| 0 <= k < scores.len() ==> #[trigger] scores[k] == s,
    ensures
        ranking_of(scores) == Seq::new(scores.len(), |i: int| i as usize),
{
    let r = Seq::new(scores.len(), |i: int| i as usize);
    assert forall|i: usize| i < scores.len() && scores[i as int] > 0 implies #[trigger] r.contains(i) by {
        assert(r[i as int] == i);
    }
    assert(is_ranking(scores, r));
    lemma_ranking_unique(scores, r, ranking_of(scores));
}

/// Where no item has a positive score, nothing is shown.
pub proof fn lemma_no_positive_scores(scores: Seq<i64>)
    requires
        forall|k: int| 0 <= k < scores.len() ==> #[trigger] scores[k] <= 0,
    ensures
        ranking_of(scores).len() == 0,
{
    let r = Seq::<usize>::empty();
    assert(is_ranking(scores, r));
    lemma_ranking_unique(scores, r, ranking_of(scores));
    let q = ranking_of(scores);
    if q.len() > 0 {
        assert(q[0] < scores.len() && scores[q[0] as int] > 0);
    }
}

/// The positions of the items with a positive score, in the order in which they
/// are shown.
pub fn rank_by_score(scores: &Vec<i64>) -> (r: Vec<usize>)
    ensures
        is_ranking(scores@, r@),
        r@ == ranking_of(scores@),
{
    let mut r: Vec<usize> = Vec::new();
    let mut i: usize = 0;
    while i < scores.len()
        invariant
            i <= scores.len(),
            forall|k: int| 0 <= k < r.len() ==> #[trigger] r[k] < i && scores@[r[k] as int] > 0,
            forall|x: usize| x < i && scores@[x as int] > 0 ==> #[trigger] r@.contains(x),
            forall|j: int, k: int|
                0 <= j < k < r.len() ==> ranked_before(scores@, #[trigger] r[j] as int, #[trigger] r[k] as int),
        decreases scores.len() - i,
    {
        let s = scores[i];
        if s > 0 {
            let mut p: usize = 0;
            while p < r.len() && scores[r[p]] >= s
                invariant
                    p <= r.len(),
                    forall|k: int| 0 <= k < r.len() ==> #[trigger] r[k] < i && scores@[r[k] as int] > 0,
                    forall|k: int| 0 <= k < p ==> scores@[#[trigger] r[k] as int] >= s,
                    i < scores.len(),
                    s == scores@[i as int],
                decreases r.len() - p,
            {
                p = p + 1;
            }
            let ghost old_r = r@;
            assert forall|k: int| p <= k < old_r.len() implies scores@[#[trigger] old_r[k] as int] < s by {
                if k > p {
                    assert(ranked_before(scores@, old_r[p as int] as int, old_r[k] as int));
                }
            }
            r.insert(p, i);
            assert forall|x: usize| x < i + 1 && scores@[x as int] > 0 implies #[trigger] r@.contains(x) by {
                if x == i {
                    assert(r@[p as int] == i);
                } else {
                    assert(old_r.contains(x));
                    let k = choose|k: int| 0 <= k < old_r.len() && old_r[k] == x;
                    if k < p {
                        assert(r@[k] == x);
                    } else {
                        assert(r@[k + 1] == x);
                    }
                }
            }
            assert forall|j: int, k: int| 0 <= j < k < r.len() implies ranked_before(scores@, #[trigger] r[j] as int, #[trigger] r[k] as int) by {
                if k < p {
                    assert(r[j] == old_r[j] && r[k] == old_r[k]);
                } else if k == p {
                    assert(r[j] == old_r[j]);
                } else if j == p {
                    assert(r[k] == old_r[k - 1]);
                } else if j < p {
                    assert(r[j] == old_r[j] && r[k] == old_r[k - 1]);
                } else {
                    assert(r[j] == old_r[j - 1] && r[k] == old_r[k - 1]);
                }
            }
        }
        i = i + 1;
    }
    proof {
        assert(is_ranking(scores@, r@));
        assert(exists|x: Seq<usize>| is_ranking(scores@, x));
        lemma_ranking_unique(scores@, r@, ranking_of(scores@));
    }
    r
}

} // verus!
