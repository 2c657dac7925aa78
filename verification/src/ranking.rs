//! Which of a channel's items speak for it, and in what order.
//!
//! Each item carries what it is ranked by: whether it matches the channel at
//! all, its signal priority as a key that orders as the priority does, its
//! time, and its identifier. Matching items come strongest first, then newest
//! first, then by identifier; items that tie on all three keep their order.
//! At most `AUTOMATIC_ITEM_LIMIT` are kept.

use vstd::prelude::*;

use crate::dto::ChannelNoticeDto;
use crate::preferences::AUTOMATIC_ITEM_LIMIT;
use crate::text::{str_chars, str_eq};

verus! {

/// Whether `a` sorts before `b`, character by character, a proper prefix first.
pub open spec fn text_before(a: Seq<char>, b: Seq<char>) -> bool
    decreases a.len(),
{
    if b.len() == 0 {
        false
    } else if a.len() == 0 {
        true
    } else if a[0] != b[0] {
        (a[0] as u32) < (b[0] as u32)
    } else {
        text_before(a.drop_first(), b.drop_first())
    }
}

pub proof fn lemma_text_before_transitive(a: Seq<char>, b: Seq<char>, c: Seq<char>)
    requires
        text_before(a, b),
        text_before(b, c),
    ensures
        text_before(a, c),
    decreases a.len(),
{
    if a.len() > 0 && a[0] == b[0] && b[0] == c[0] {
        lemma_text_before_transitive(a.drop_first(), b.drop_first(), c.drop_first());
    }
}

pub proof fn lemma_text_before_total(a: Seq<char>, b: Seq<char>)
    requires
        a != b,
    ensures
        text_before(a, b) || text_before(b, a),
    decreases a.len(),
{
    if a.len() == 0 {
        assert(b.len() > 0) by {
            if b.len() == 0 {
                assert(a =~= b);
            }
        }
    } else if b.len() == 0 {
    } else if a[0] != b[0] {
        if (a[0] as u32) == (b[0] as u32) {
            vstd::utf8::char_u32_cast(a[0], a[0] as u32);
            vstd::utf8::char_u32_cast(b[0], b[0] as u32);
        }
    } else {
        if a.drop_first() == b.drop_first() {
            assert(a.drop_first().len() == b.drop_first().len());
            assert(a.len() == b.len());
            assert forall|i: int| 0 <= i < a.len() implies a[i] == b[i] by {
                if i > 0 {
                    assert(a[i] == a.drop_first()[i - 1]);
                    assert(b[i] == b.drop_first()[i - 1]);
                }
            }
            assert(a =~= b);
        }
        lemma_text_before_total(a.drop_first(), b.drop_first());
    }
}

pub proof fn lemma_text_before_asymmetric(a: Seq<char>, b: Seq<char>)
    requires
        text_before(a, b),
    ensures
        !text_before(b, a),
    decreases a.len(),
{
    if a.len() > 0 && a[0] == b[0] {
        lemma_text_before_asymmetric(a.drop_first(), b.drop_first());
    }
}

proof fn lemma_text_before_skip(a: Seq<char>, b: Seq<char>, i: int)
    requires
        0 <= i < a.len(),
        i < b.len(),
        a[i] == b[i],
    ensures
        text_before(a.skip(i), b.skip(i)) == text_before(a.skip(i + 1), b.skip(i + 1)),
{
    assert(a.skip(i).drop_first() =~= a.skip(i + 1));
    assert(b.skip(i).drop_first() =~= b.skip(i + 1));
}

/// Whether `a` sorts before `b`, character by character.
pub fn text_before_exec(a: &str, b: &str) -> (r: bool)
    ensures
        r == text_before(a@, b@),
{
    let x = str_chars(a);
    let y = str_chars(b);
    let mut i: usize = 0;
    proof {
        assert(x@.skip(0) =~= x@);
        assert(y@.skip(0) =~= y@);
    }
    while i < x.len() && i < y.len() && x[i] == y[i]
        invariant
            i <= x@.len(),
            i <= y@.len(),
            text_before(x@, y@) == text_before(x@.skip(i as int), y@.skip(i as int)),
        decreases x@.len() - i,
    {
        proof {
            lemma_text_before_skip(x@, y@, i as int);
        }
        i = i + 1;
    }
    if i == y.len() {
        proof {
            assert(y@.skip(i as int).len() == 0);
        }
        false
    } else if i == x.len() {
        proof {
            assert(x@.skip(i as int).len() == 0);
        }
        true
    } else {
        let cx = x[i];
        let cy = y[i];
        let ux = cx as u32;
        let uy = cy as u32;
        proof {
            assert(x@.skip(i as int)[0] == x@[i as int]);
            assert(y@.skip(i as int)[0] == y@[i as int]);
            assert(cx != cy);
        }
        ux < uy
    }
}

/// What one item is ranked by.
#[derive(Clone, Debug, PartialEq)]
pub struct ItemRank {
    /// Whether the item matches the channel at all.
    pub matched: bool,
    /// The item's signal priority, as a key that orders as the priority does.
    pub priority: i64,
    /// The item's time, in milliseconds since the Unix epoch.
    pub time_ms: i64,
    pub id: String,
}

/// Whether item `i` (ranked `a`) comes before item `j` (ranked `b`): higher
/// priority, then later time, then identifier, then the given order.
pub open spec fn ranks_before(a: ItemRank, i: int, b: ItemRank, j: int) -> bool {
    if a.priority != b.priority {
        a.priority > b.priority
    } else if a.time_ms != b.time_ms {
        a.time_ms > b.time_ms
    } else if a.id@ != b.id@ {
        text_before(a.id@, b.id@)
    } else {
        i < j
    }
}

pub proof fn lemma_ranks_before_total(a: ItemRank, i: int, b: ItemRank, j: int)
    requires
        i != j,
    ensures
        ranks_before(a, i, b, j) || ranks_before(b, j, a, i),
{
    if a.priority == b.priority && a.time_ms == b.time_ms && a.id@ != b.id@ {
        lemma_text_before_total(a.id@, b.id@);
    }
}

pub proof fn lemma_ranks_before_asymmetric(a: ItemRank, i: int, b: ItemRank, j: int)
    requires
        ranks_before(a, i, b, j),
    ensures
        !ranks_before(b, j, a, i),
{
    if a.priority == b.priority && a.time_ms == b.time_ms && a.id@ != b.id@ {
        lemma_text_before_asymmetric(a.id@, b.id@);
    }
}

pub proof fn lemma_ranks_before_transitive(a: ItemRank, i: int, b: ItemRank, j: int, c: ItemRank, k: int)
    requires
        ranks_before(a, i, b, j),
        ranks_before(b, j, c, k),
    ensures
        ranks_before(a, i, c, k),
{
    if a.priority == b.priority && b.priority == c.priority && a.time_ms == b.time_ms && b.time_ms == c.time_ms {
        if a.id@ != b.id@ && b.id@ != c.id@ {
            lemma_text_before_transitive(a.id@, b.id@, c.id@);
            if a.id@ == c.id@ {
                lemma_text_before_asymmetric(a.id@, b.id@);
            }
        }
    }
}

fn rank_before(a: &ItemRank, i: usize, b: &ItemRank, j: usize) -> (r: bool)
    ensures
        r == ranks_before(*a, i as int, *b, j as int),
{
    if a.priority != b.priority {
        a.priority > b.priority
    } else if a.time_ms != b.time_ms {
        a.time_ms > b.time_ms
    } else if !str_eq(a.id.as_str(), b.id.as_str()) {
        text_before_exec(a.id.as_str(), b.id.as_str())
    } else {
        i < j
    }
}

/// Whether `out` lists matching items of `ranks` in rank order, without repeats.
pub open spec fn ranked_matches(ranks: Seq<ItemRank>, out: Seq<usize>) -> bool {
    &&& forall|k: int| 0 <= k < out.len() ==> (#[trigger] out[k]) < ranks.len() && ranks[out[k] as int].matched
    &&& forall|k1: int, k2: int| 0 <= k1 < k2 < out.len() ==>
        ranks_before(ranks[out[k1] as int], out[k1] as int, ranks[out[k2] as int], out[k2] as int)
}

/// The positions of the items that speak for the channel, strongest first:
/// every listed item matches, they come in rank order, and a matching item
/// left out ranks after every listed one, which happens only once
/// `AUTOMATIC_ITEM_LIMIT` items are listed.
pub fn matching_item_order(ranks: &Vec<ItemRank>) -> (r: Vec<usize>)
    ensures
        r@.len() <= AUTOMATIC_ITEM_LIMIT,
        ranked_matches(ranks@, r@),
        forall|j: int| 0 <= j < ranks@.len() && ranks@[j].matched && !r@.contains(j as usize) ==> {
            &&& r@.len() == AUTOMATIC_ITEM_LIMIT
            &&& forall|k: int| 0 <= k < r@.len() ==>
                ranks_before(ranks@[r@[k] as int], r@[k] as int, ranks@[j], j)
        },
{
    let n = ranks.len();
    let mut taken: Vec<bool> = Vec::new();
    while taken.len() < n
        invariant
            taken@.len() <= n,
            n == ranks@.len(),
            forall|j: int| 0 <= j < taken@.len() ==> !taken@[j],
        decreases n - taken@.len(),
    {
        taken.push(false);
    }
    let mut out: Vec<usize> = Vec::new();
    let mut done = false;
    while !done && out.len() < AUTOMATIC_ITEM_LIMIT
        invariant
            n == ranks@.len(),
            taken@.len() == n,
            out@.len() <= AUTOMATIC_ITEM_LIMIT,
            ranked_matches(ranks@, out@),
            forall|j: int| 0 <= j < n ==> (#[trigger] taken@[j] <==> out@.contains(j as usize)),
            forall|j: int| 0 <= j < n && ranks@[j].matched && !taken@[j] ==>
                forall|k: int| 0 <= k < out@.len() ==>
                    ranks_before(ranks@[out@[k] as int], out@[k] as int, ranks@[j], j),
            done ==> forall|j: int| 0 <= j < n && ranks@[j].matched ==> taken@[j],
        decreases AUTOMATIC_ITEM_LIMIT - out@.len(), if done { 0int } else { 1int },
    {
        let mut best: usize = 0;
        let mut found = false;
        let mut j: usize = 0;
        while j < n
            invariant
                n == ranks@.len(),
                taken@.len() == n,
                j <= n,
                found ==> best < j && ranks@[best as int].matched && !taken@[best as int],
                found ==> forall|m: int| 0 <= m < j && m != best && ranks@[m].matched && !taken@[m] ==>
                    ranks_before(ranks@[best as int], best as int, ranks@[m], m),
                !found ==> forall|m: int| 0 <= m < j ==> !(ranks@[m].matched && !taken@[m]),
            decreases n - j,
        {
            if ranks[j].matched && !taken[j] {
                if !found {
                    best = j;
                    found = true;
                } else if rank_before(&ranks[j], j, &ranks[best], best) {
                    proof {
                        assert forall|m: int| 0 <= m < j + 1 && m != j && ranks@[m].matched && !taken@[m] implies
                            ranks_before(ranks@[j as int], j as int, ranks@[m], m) by {
                            if m != best {
                                lemma_ranks_before_transitive(ranks@[j as int], j as int, ranks@[best as int], best as int, ranks@[m], m);
                            }
                        }
                    }
                    best = j;
                } else {
                    proof {
                        lemma_ranks_before_total(ranks@[j as int], j as int, ranks@[best as int], best as int);
                    }
                }
            }
            j = j + 1;
        }
        if !found {
            done = true;
        } else {
            let ghost before_out = out@;
            let ghost before_taken = taken@;
            out.push(best);
            taken.set(best, true);
            proof {
                assert forall|j: int| 0 <= j < n implies (#[trigger] taken@[j] <==> out@.contains(j as usize)) by {
                    if j == best as int {
                        assert(out@[out@.len() - 1] == best);
                    } else {
                        assert(before_taken[j] == taken@[j]);
                        if before_out.contains(j as usize) {
                            let k = choose|k: int| 0 <= k < before_out.len() && before_out[k] == j as usize;
                            assert(out@[k] == j as usize);
                        }
                        if out@.contains(j as usize) {
                            let k = choose|k: int| 0 <= k < out@.len() && out@[k] == j as usize;
                            assert(k < before_out.len());
                            assert(before_out[k] == j as usize);
                        }
                    }
                }
                assert forall|k1: int, k2: int| 0 <= k1 < k2 < out@.len() implies
                    ranks_before(ranks@[out@[k1] as int], out@[k1] as int, ranks@[out@[k2] as int], out@[k2] as int) by {
                    if k2 == out@.len() - 1 {
                        assert(out@[k1] == before_out[k1]);
                    } else {
                        assert(out@[k1] == before_out[k1]);
                        assert(out@[k2] == before_out[k2]);
                    }
                }
                assert forall|k: int| 0 <= k < out@.len() implies (#[trigger] out@[k]) < ranks@.len() && ranks@[out@[k] as int].matched by {
                    if k < before_out.len() {
                        assert(out@[k] == before_out[k]);
                    }
                }
                assert forall|j: int| 0 <= j < n && ranks@[j].matched && !taken@[j] implies
                    forall|k: int| 0 <= k < out@.len() ==>
                        ranks_before(ranks@[out@[k] as int], out@[k] as int, ranks@[j], j) by {
                    assert(j != best as int);
                    assert(!before_taken[j]);
                    assert forall|k: int| 0 <= k < out@.len() implies
                        ranks_before(ranks@[out@[k] as int], out@[k] as int, ranks@[j], j) by {
                        if k < before_out.len() {
                            assert(out@[k] == before_out[k]);
                        }
                    }
                }
            }
        }
    }
    proof {
        assert forall|j: int| 0 <= j < ranks@.len() && ranks@[j].matched && !out@.contains(j as usize) implies {
            &&& out@.len() == AUTOMATIC_ITEM_LIMIT
            &&& forall|k: int| 0 <= k < out@.len() ==>
                ranks_before(ranks@[out@[k] as int], out@[k] as int, ranks@[j], j)
        } by {
            assert(!taken@[j]);
        }
    }
    out
}

/// Whether `out` is `notices` reordered by `p`: `out[k]` is `notices[p[k]]`,
/// every position used once, highest score first, and notices of equal score
/// in their given order.
pub open spec fn sorted_by_score(notices: Seq<ChannelNoticeDto>, out: Seq<ChannelNoticeDto>, p: Seq<int>) -> bool {
    &&& p.len() == notices.len()
    &&& out.len() == notices.len()
    &&& forall|k: int| 0 <= k < p.len() ==> 0 <= #[trigger] p[k] < notices.len() && out[k] == notices[p[k]]
    &&& forall|k1: int, k2: int| 0 <= k1 < k2 < p.len() ==> p[k1] != p[k2]
    &&& forall|k1: int, k2: int| 0 <= k1 < k2 < out.len() ==>
        out[k1].priority.score >= out[k2].priority.score
    &&& forall|k1: int, k2: int| 0 <= k1 < k2 < out.len() && out[k1].priority.score == out[k2].priority.score ==>
        p[k1] < p[k2]
}

/// The notices, highest priority score first; notices of equal score keep
/// their order.
pub fn sort_notices_by_score(notices: Vec<ChannelNoticeDto>) -> (r: Vec<ChannelNoticeDto>)
    ensures
        exists|p: Seq<int>| sorted_by_score(notices@, r@, p),
{
    let ghost given = notices@;
    let ghost n = notices@.len();
    let total: usize = notices.len();
    let mut rest = notices;
    let mut out: Vec<ChannelNoticeDto> = Vec::new();
    let ghost mut p: Seq<int> = Seq::empty();
    let mut t: usize = 0;
    while rest.len() > 0
        invariant
            t == out@.len(),
            t + rest@.len() == n,
            n == given.len(),
            n == total,
            rest@ == given.subrange(t as int, n as int),
            p.len() == t,
            forall|k: int| 0 <= k < t ==> 0 <= #[trigger] p[k] < t && out@[k] == given[p[k]],
            forall|k1: int, k2: int| 0 <= k1 < k2 < t ==> p[k1] != p[k2],
            forall|k1: int, k2: int| 0 <= k1 < k2 < t ==>
                out@[k1].priority.score >= out@[k2].priority.score,
            forall|k1: int, k2: int| 0 <= k1 < k2 < t && out@[k1].priority.score == out@[k2].priority.score ==>
                p[k1] < p[k2],
        decreases rest@.len(),
    {
        let notice = rest.remove(0);
        proof {
            assert(notice == given[t as int]);
        }
        let score = notice.priority.score;
        let mut pos: usize = out.len();
        while pos > 0 && out[pos - 1].priority.score < score
            invariant
                pos <= out@.len(),
                forall|k: int| pos <= k < out@.len() ==> out@[k].priority.score < score,
            decreases pos,
        {
            pos = pos - 1;
        }
        let ghost before = out@;
        let ghost before_p = p;
        out.insert(pos, notice);
        proof {
            p = before_p.insert(pos as int, t as int);
            assert forall|k: int| 0 <= k < t + 1 implies 0 <= #[trigger] p[k] < t + 1 && out@[k] == given[p[k]] by {
                if k < pos {
                    assert(p[k] == before_p[k]);
                } else if k > pos {
                    assert(p[k] == before_p[k - 1]);
                }
            }
            assert forall|k1: int, k2: int| 0 <= k1 < k2 < t + 1 implies p[k1] != p[k2] by {
                if k1 == pos {
                    assert(p[k2] == before_p[k2 - 1]);
                } else if k2 == pos {
                    assert(p[k1] == before_p[k1]);
                } else if k1 < pos && k2 < pos {
                    assert(p[k1] == before_p[k1]);
                    assert(p[k2] == before_p[k2]);
                } else if k1 < pos {
                    assert(p[k1] == before_p[k1]);
                    assert(p[k2] == before_p[k2 - 1]);
                } else {
                    assert(p[k1] == before_p[k1 - 1]);
                    assert(p[k2] == before_p[k2 - 1]);
                }
            }
            assert forall|k1: int, k2: int| 0 <= k1 < k2 < t + 1 implies
                out@[k1].priority.score >= out@[k2].priority.score by {
                if pos > 0 {
                    assert(before[pos - 1].priority.score >= score);
                }
                if k1 < pos && k2 < pos {
                } else if k1 < pos && k2 == pos {
                    assert(before[k1].priority.score >= before[pos - 1].priority.score);
                } else if k1 < pos {
                    assert(out@[k2] == before[k2 - 1]);
                } else if k1 == pos {
                    assert(out@[k2] == before[k2 - 1]);
                } else {
                    assert(out@[k1] == before[k1 - 1]);
                    assert(out@[k2] == before[k2 - 1]);
                }
            }
            assert forall|k1: int, k2: int| 0 <= k1 < k2 < t + 1 && out@[k1].priority.score == out@[k2].priority.score implies
                p[k1] < p[k2] by {
                if k1 < pos && k2 < pos {
                    assert(p[k1] == before_p[k1]);
                    assert(p[k2] == before_p[k2]);
                } else if k1 < pos && k2 == pos {
                    assert(p[k1] == before_p[k1]);
                } else if k1 < pos {
                    assert(out@[k2] == before[k2 - 1]);
                    assert(p[k1] == before_p[k1]);
                    assert(p[k2] == before_p[k2 - 1]);
                } else if k1 == pos {
                    assert(out@[k2] == before[k2 - 1]);
                    assert(before[k2 - 1].priority.score < score);
                } else {
                    assert(p[k1] == before_p[k1 - 1]);
                    assert(p[k2] == before_p[k2 - 1]);
                }
            }
        }
        t = t + 1;
        proof {
            assert(rest@ =~= given.subrange(t as int, n as int));
        }
    }
    proof {
        assert(sorted_by_score(given, out@, p));
    }
    out
}

} // verus!
