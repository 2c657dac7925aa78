//! Bridge state transitions kept per source, and the reading of a vessel
//! working downriver from successive upstream openings.

use vstd::prelude::*;

use crate::item::{item_text, CollectorItem, ItemKind};
use crate::runtime::{upstream_rank, upstream_rank_spec};
use crate::text::{owned, str_eq};

verus! {

/// How long transitions are kept: forty-five minutes.
pub const TRANSITION_RETENTION_MS: i64 = 2_700_000;

/// How many transitions a source keeps.
pub const MAX_TRANSITIONS: usize = 64;

/// The window in which upstream openings are read together: thirty minutes.
pub const OUTBOUND_WINDOW_MS: i64 = 1_800_000;

/// One observed change of a bridge's reported state.
#[derive(Clone, Debug, PartialEq, Eq)]
pub struct BridgeStateTransition {
    pub bridge_key: String,
    pub bridge_name: String,
    pub relation: String,
    pub from_state: String,
    pub to_state: String,
    pub occurred_at_ms: i64,
}

/// How close a vessel working downriver is to the target bridge.
#[derive(Clone, Copy, Debug, PartialEq, Eq, Structural)]
pub enum OutboundProgressStage {
    High,
    VeryHigh,
}

/// The latest upstream opening of a vessel seen working downriver.
#[derive(Clone, Debug, PartialEq, Eq)]
pub struct DetectedOutboundProgress {
    pub bridge_key: String,
    pub bridge_name: String,
    pub stage: OutboundProgressStage,
    pub occurred_at_ms: i64,
}

/// A transition as plain values: key, name, relation, from, to, time.
pub type TransitionView = (Seq<char>, Seq<char>, Seq<char>, Seq<char>, Seq<char>, i64);

pub open spec fn tview(t: BridgeStateTransition) -> TransitionView {
    (t.bridge_key@, t.bridge_name@, t.relation@, t.from_state@, t.to_state@, t.occurred_at_ms)
}

pub open spec fn tviews(ts: Seq<BridgeStateTransition>) -> Seq<TransitionView> {
    ts.map_values(|t: BridgeStateTransition| tview(t))
}

/// `a - b` for `b >= 0`, held at `i64::MIN`.
pub open spec fn saturating_sub_spec(a: i64, b: i64) -> i64 {
    if a - b < i64::MIN {
        i64::MIN
    } else {
        (a - b) as i64
    }
}

fn saturating_sub(a: i64, b: i64) -> (r: i64)
    requires
        b >= 0,
    ensures
        r == saturating_sub_spec(a, b),
{
    if a < i64::MIN + b {
        i64::MIN
    } else {
        a - b
    }
}

pub open spec fn state_word(s: Seq<char>) -> bool {
    s == "up"@ || s == "down"@ || s == "unknown"@
}

pub open spec fn relation_word(s: Seq<char>) -> bool {
    s == "target"@ || s == "upstream"@
}

/// The first item at or after `i` whose selector key is `key`.
pub open spec fn item_with_key(items: Seq<CollectorItem>, key: Seq<char>, i: int) -> Option<CollectorItem>
    decreases items.len() - i,
{
    if i < 0 || i >= items.len() {
        None
    } else if item_text(items[i], "selector_key"@) == Some(key) {
        Some(items[i])
    } else {
        item_with_key(items, key, i + 1)
    }
}

/// The transition a current bridge item records against the previous
/// response, if its reported state changed.
pub open spec fn transition_for_spec(item: CollectorItem, previous: Seq<CollectorItem>, now: i64) -> Option<TransitionView> {
    if item.kind != ItemKind::Bridge {
        None
    } else {
        match (item_text(item, "selector_key"@), item_text(item, "relation"@), item_text(item, "state"@)) {
            (Some(key), Some(relation), Some(to)) => if relation_word(relation) && state_word(to) {
                match item_with_key(previous, key, 0) {
                    Some(p) => match item_text(p, "state"@) {
                        Some(from) => if state_word(from) && from != to {
                            Some((key, item.title@, relation, from, to, now))
                        } else {
                            None
                        },
                        None => None,
                    },
                    None => None,
                }
            } else {
                None
            },
            _ => None,
        }
    }
}

/// The transitions a response records, in item order.
pub open spec fn new_transitions(previous: Seq<CollectorItem>, current: Seq<CollectorItem>, now: i64) -> Seq<TransitionView>
    decreases current.len(),
{
    if current.len() == 0 {
        Seq::empty()
    } else {
        let rest = new_transitions(previous, current.drop_last(), now);
        match transition_for_spec(current.last(), previous, now) {
            Some(t) => rest.push(t),
            None => rest,
        }
    }
}

/// The transitions at or after `cutoff`, in order.
pub open spec fn recent(ts: Seq<TransitionView>, cutoff: i64) -> Seq<TransitionView>
    decreases ts.len(),
{
    if ts.len() == 0 {
        Seq::empty()
    } else {
        let rest = recent(ts.drop_last(), cutoff);
        if ts.last().5 >= cutoff {
            rest.push(ts.last())
        } else {
            rest
        }
    }
}

/// The transitions a source keeps after a response: the old ones and the new
/// ones, those of the last forty-five minutes, at most the latest sixty-four.
pub open spec fn kept_transitions(old: Seq<TransitionView>, previous: Seq<CollectorItem>, current: Seq<CollectorItem>, now: i64) -> Seq<TransitionView> {
    let all = recent(old + new_transitions(previous, current, now), saturating_sub_spec(now, TRANSITION_RETENTION_MS));
    if all.len() > MAX_TRANSITIONS {
        all.skip(all.len() - MAX_TRANSITIONS)
    } else {
        all
    }
}

fn copy_transition(t: &BridgeStateTransition) -> (r: BridgeStateTransition)
    ensures
        tview(r) == tview(*t),
{
    BridgeStateTransition {
        bridge_key: owned(t.bridge_key.as_str()),
        bridge_name: owned(t.bridge_name.as_str()),
        relation: owned(t.relation.as_str()),
        from_state: owned(t.from_state.as_str()),
        to_state: owned(t.to_state.as_str()),
        occurred_at_ms: t.occurred_at_ms,
    }
}

fn is_state_word(s: &str) -> (r: bool)
    ensures
        r == state_word(s@),
{
    str_eq(s, "up") || str_eq(s, "down") || str_eq(s, "unknown")
}

fn previous_item<'a>(items: &'a [CollectorItem], key: &str) -> (r: Option<&'a CollectorItem>)
    ensures
        r is Some == item_with_key(items@, key@, 0) is Some,
        r is Some ==> *r.unwrap() == item_with_key(items@, key@, 0).unwrap(),
{
    let mut i: usize = 0;
    while i < items.len()
        invariant
            i <= items@.len(),
            item_with_key(items@, key@, 0) == item_with_key(items@, key@, i as int),
        decreases items@.len() - i,
    {
        match items[i].attributes.get_str("selector_key") {
            Some(k) => {
                if str_eq(k, key) {
                    return Some(&items[i]);
                }
            },
            None => {},
        }
        i = i + 1;
    }
    None
}

fn transition_for(item: &CollectorItem, previous: &[CollectorItem], now_ms: i64) -> (r: Option<BridgeStateTransition>)
    ensures
        r is Some == transition_for_spec(*item, previous@, now_ms) is Some,
        r is Some ==> tview(r.unwrap()) == transition_for_spec(*item, previous@, now_ms).unwrap(),
{
    if item.kind != ItemKind::Bridge {
        return None;
    }
    let key = match item.attributes.get_str("selector_key") {
        Some(k) => k,
        None => return None,
    };
    let relation = match item.attributes.get_str("relation") {
        Some(r) => r,
        None => return None,
    };
    let to = match item.attributes.get_str("state") {
        Some(s) => s,
        None => return None,
    };
    if !(str_eq(relation, "target") || str_eq(relation, "upstream")) || !is_state_word(to) {
        return None;
    }
    let before = match previous_item(previous, key) {
        Some(p) => p,
        None => return None,
    };
    let from = match before.attributes.get_str("state") {
        Some(s) => s,
        None => return None,
    };
    if !is_state_word(from) || str_eq(from, to) {
        return None;
    }
    Some(BridgeStateTransition {
        bridge_key: owned(key),
        bridge_name: owned(item.title.as_str()),
        relation: owned(relation),
        from_state: owned(from),
        to_state: owned(to),
        occurred_at_ms: now_ms,
    })
}

/// Records the state changes between two responses of a bridge source and
/// drops transitions too old or too many to keep.
pub fn update_bridge_transitions(
    previous: &[CollectorItem],
    current: &[CollectorItem],
    now_ms: i64,
    transitions: &mut Vec<BridgeStateTransition>,
)
    ensures
        tviews(final(transitions)@) == kept_transitions(tviews(old(transitions)@), previous@, current@, now_ms),
{
    let ghost old_views = tviews(transitions@);
    let mut fresh: Vec<BridgeStateTransition> = Vec::new();
    let mut i: usize = 0;
    while i < current.len()
        invariant
            i <= current@.len(),
            tviews(fresh@) == new_transitions(previous@, current@.take(i as int), now_ms),
        decreases current@.len() - i,
    {
        proof {
            assert(current@.take(i + 1).drop_last() == current@.take(i as int));
            assert(current@.take(i + 1).last() == current@[i as int]);
        }
        match transition_for(&current[i], previous, now_ms) {
            Some(t) => {
                let ghost before = fresh@;
                fresh.push(t);
                proof {
                    assert(tviews(fresh@) =~= tviews(before).push(tview(t)));
                }
            },
            None => {},
        }
        i = i + 1;
    }
    proof {
        assert(current@.take(current@.len() as int) == current@);
    }
    let ghost all = old_views + tviews(fresh@);
    let cutoff = saturating_sub(now_ms, TRANSITION_RETENTION_MS);
    let mut kept: Vec<BridgeStateTransition> = Vec::new();
    let n_old = transitions.len();
    let mut j: usize = 0;
    while j < n_old
        invariant
            n_old == transitions@.len(),
            old_views == tviews(transitions@),
            all == old_views + tviews(fresh@),
            j <= n_old,
            tviews(kept@) == recent(all.take(j as int), cutoff),
        decreases n_old - j,
    {
        let t = &transitions[j];
        proof {
            assert(all.take(j + 1).drop_last() == all.take(j as int));
            assert(all.take(j + 1).last() == tview(*t));
        }
        if t.occurred_at_ms >= cutoff {
            let c = copy_transition(t);
            let ghost before = kept@;
            kept.push(c);
            proof {
                assert(tviews(kept@) =~= tviews(before).push(tview(c)));
            }
        }
        j = j + 1;
    }
    let mut f: usize = 0;
    while f < fresh.len()
        invariant
            n_old == transitions@.len(),
            old_views == tviews(transitions@),
            all == old_views + tviews(fresh@),
            f <= fresh@.len(),
            tviews(kept@) == recent(all.take(n_old + f), cutoff),
        decreases fresh@.len() - f,
    {
        let t = &fresh[f];
        proof {
            assert(all.take(n_old + f + 1).drop_last() == all.take(n_old + f));
            assert(all.take(n_old + f + 1).last() == tview(*t));
        }
        if t.occurred_at_ms >= cutoff {
            let c = copy_transition(t);
            let ghost before = kept@;
            kept.push(c);
            proof {
                assert(tviews(kept@) =~= tviews(before).push(tview(c)));
            }
        }
        f = f + 1;
    }
    proof {
        assert(all.take(all.len() as int) == all);
    }
    if kept.len() > MAX_TRANSITIONS {
        let start = kept.len() - MAX_TRANSITIONS;
        let mut tail: Vec<BridgeStateTransition> = Vec::new();
        let mut k: usize = start;
        while k < kept.len()
            invariant
                start <= k <= kept@.len(),
                tviews(tail@) == tviews(kept@).subrange(start as int, k as int),
            decreases kept@.len() - k,
        {
            let c = copy_transition(&kept[k]);
            let ghost before = tail@;
            tail.push(c);
            proof {
                assert(tviews(tail@) =~= tviews(before).push(tview(c)));
                assert(tviews(kept@).subrange(start as int, k + 1) =~= tviews(kept@).subrange(start as int, k as int).push(tview(kept@[k as int])));
            }
            k = k + 1;
        }
        proof {
            assert(tviews(kept@).subrange(start as int, kept@.len() as int) =~= tviews(kept@).skip(start as int));
        }
        *transitions = tail;
    } else {
        *transitions = kept;
    }
}

/// An upstream bascule opening inside `cutoff..=now`.
pub open spec fn upstream_opening(t: TransitionView, cutoff: i64, now: i64) -> bool {
    t.2 == "upstream"@ && t.3 == "down"@ && t.4 == "up"@ && cutoff <= t.5 <= now
}

/// The upstream openings of `ts` inside `cutoff..=now` at ranked bridges,
/// with their rank, in order.
pub open spec fn ranked_openings(ts: Seq<TransitionView>, cutoff: i64, now: i64) -> Seq<(TransitionView, u8)>
    decreases ts.len(),
{
    if ts.len() == 0 {
        Seq::empty()
    } else {
        let rest = ranked_openings(ts.drop_last(), cutoff, now);
        let t = ts.last();
        if upstream_opening(t, cutoff, now) && upstream_rank_spec(t.0) is Some {
            rest.push((t, upstream_rank_spec(t.0).unwrap()))
        } else {
            rest
        }
    }
}

/// Opening `a` is further upstream than the later opening `b`, and came
/// within the window before it: a vessel working downriver.
pub open spec fn downriver_pair(o: Seq<(TransitionView, u8)>, a: int, b: int) -> bool {
    &&& 0 <= a < b < o.len()
    &&& o[a].1 > o[b].1
    &&& o[a].0.5 < o[b].0.5
    &&& o[b].0.5 - o[a].0.5 <= OUTBOUND_WINDOW_MS
}

/// The pair that is read: the earliest starting opening that has a later
/// partner, with its last partner.
pub open spec fn chosen_pair(o: Seq<(TransitionView, u8)>, a: int, b: int) -> bool {
    &&& downriver_pair(o, a, b)
    &&& forall|a2: int, b2: int| downriver_pair(o, a2, b2) ==> a <= a2
    &&& forall|b2: int| downriver_pair(o, a, b2) ==> b2 <= b
}

/// The target bridge opened inside `since..=now`.
pub open spec fn target_opened(ts: Seq<TransitionView>, since: i64, now: i64) -> bool {
    exists|i: int| 0 <= i < ts.len() && (#[trigger] ts[i]).2 == "target"@ && ts[i].3 == "down"@ && ts[i].4 == "up"@ && since <= ts[i].5 <= now
}

/// What `detect_outbound_progress` reports for transitions `ts` at `now`.
pub open spec fn outbound_openings(ts: Seq<TransitionView>, now: i64) -> Seq<(TransitionView, u8)> {
    ranked_openings(ts, saturating_sub_spec(now, OUTBOUND_WINDOW_MS), now)
}

proof fn lemma_ranked_openings_len(ts: Seq<TransitionView>, cutoff: i64, now: i64)
    ensures
        ranked_openings(ts, cutoff, now).len() <= ts.len(),
    decreases ts.len(),
{
    if ts.len() > 0 {
        lemma_ranked_openings_len(ts.drop_last(), cutoff, now);
    }
}

/// Reads a vessel working downriver toward the target from two upstream
/// openings in falling river order, unless the target itself has opened
/// since; the later opening is the one reported.
#[verifier::loop_isolation(false)]
pub fn detect_outbound_progress(transitions: &[BridgeStateTransition], now_ms: i64) -> (r: Option<DetectedOutboundProgress>)
    ensures
        ({
            let ts = tviews(transitions@);
            let o = outbound_openings(ts, now_ms);
            match r {
                None => (forall|a: int, b: int| !downriver_pair(o, a, b)) || exists|a: int, b: int|
                    chosen_pair(o, a, b) && target_opened(ts, saturating_sub_spec(o[a].0.5, OUTBOUND_WINDOW_MS), now_ms),
                Some(p) => exists|a: int, b: int| {
                    &&& chosen_pair(o, a, b)
                    &&& !target_opened(ts, saturating_sub_spec(o[a].0.5, OUTBOUND_WINDOW_MS), now_ms)
                    &&& p.bridge_key@ == o[b].0.0
                    &&& p.bridge_name@ == o[b].0.1
                    &&& p.occurred_at_ms == o[b].0.5
                    &&& p.stage == if o[b].1 == 1 { OutboundProgressStage::VeryHigh } else { OutboundProgressStage::High }
                },
            }
        }),
{
    let ghost ts = tviews(transitions@);
    let cutoff = saturating_sub(now_ms, OUTBOUND_WINDOW_MS);
    let ghost o = ranked_openings(ts, cutoff, now_ms);
    // Indices into `transitions` of the ranked openings, with their ranks.
    let mut idx: Vec<usize> = Vec::new();
    let mut ranks: Vec<u8> = Vec::new();
    let mut i: usize = 0;
    while i < transitions.len()
        invariant
            i <= transitions@.len(),
            idx@.len() == ranks@.len(),
            ranked_openings(ts.take(i as int), cutoff, now_ms).len() == idx@.len(),
            forall|k: int| 0 <= k < idx@.len() ==> (#[trigger] idx@[k]) < transitions@.len()
                && ranked_openings(ts.take(i as int), cutoff, now_ms)[k] == (ts[idx@[k] as int], ranks@[k]),
        decreases transitions@.len() - i,
    {
        let t = &transitions[i];
        proof {
            assert(ts.take(i + 1).drop_last() == ts.take(i as int));
            assert(ts.take(i + 1).last() == ts[i as int]);
            assert(ts[i as int] == tview(transitions@[i as int]));
        }
        if str_eq(t.relation.as_str(), "upstream") && str_eq(t.from_state.as_str(), "down") && str_eq(t.to_state.as_str(), "up")
            && t.occurred_at_ms >= cutoff && t.occurred_at_ms <= now_ms {
            match upstream_rank(t.bridge_key.as_str()) {
                Some(rank) => {
                    idx.push(i);
                    ranks.push(rank);
                },
                None => {},
            }
        }
        i = i + 1;
    }
    proof {
        assert(ts.take(transitions@.len() as int) == ts);
    }
    let n = idx.len();
    let mut found = false;
    let mut fa: usize = 0;
    let mut fb: usize = 0;
    let mut a: usize = 0;
    while a < n && !found
        invariant
            n == o.len(),
            a <= n,
            !found ==> forall|a2: int, b2: int| 0 <= a2 < a ==> !downriver_pair(o, a2, b2),
            found ==> chosen_pair(o, fa as int, fb as int),
        decreases n - a,
    {
        let mut b: usize = n;
        while b > a + 1 && !found
            invariant
                a < n,
                a + 1 <= b <= n,
                !found ==> forall|a2: int, b2: int| 0 <= a2 < a ==> !downriver_pair(o, a2, b2),
                !found ==> forall|b2: int| b <= b2 ==> !downriver_pair(o, a as int, b2),
                found ==> chosen_pair(o, fa as int, fb as int),
            decreases b,
        {
            let c = b - 1;
            let ta = &transitions[idx[a]];
            let tb = &transitions[idx[c]];
            proof {
                assert(o[a as int] == (ts[idx@[a as int] as int], ranks@[a as int]));
                assert(o[c as int] == (ts[idx@[c as int] as int], ranks@[c as int]));
                assert(ts[idx@[a as int] as int] == tview(transitions@[idx@[a as int] as int]));
                assert(ts[idx@[c as int] as int] == tview(transitions@[idx@[c as int] as int]));
            }
            if ranks[a] > ranks[c] && ta.occurred_at_ms < tb.occurred_at_ms
                && (tb.occurred_at_ms as i128) - (ta.occurred_at_ms as i128) <= (OUTBOUND_WINDOW_MS as i128) {
                found = true;
                fa = a;
                fb = c;
            }
            b = c;
        }
        if !found {
            proof {
                assert forall|b2: int| !downriver_pair(o, a as int, b2) by {
                    if downriver_pair(o, a as int, b2) {
                        assert(b2 >= a + 1);
                    }
                }
            }
        }
        a = a + 1;
    }
    if !found {
        proof {
            assert forall|a2: int, b2: int| !downriver_pair(o, a2, b2) by {
                if downriver_pair(o, a2, b2) {
                    assert(a2 < n);
                }
            }
        }
        return None;
    }
    let earlier = &transitions[idx[fa]];
    proof {
        assert(o[fa as int] == (ts[idx@[fa as int] as int], ranks@[fa as int]));
        assert(ts[idx@[fa as int] as int] == tview(transitions@[idx@[fa as int] as int]));
    }
    let since = saturating_sub(earlier.occurred_at_ms, OUTBOUND_WINDOW_MS);
    let mut j: usize = 0;
    while j < transitions.len()
        invariant
            j <= transitions@.len(),
            forall|k: int| 0 <= k < j ==> !((#[trigger] ts[k]).2 == "target"@ && ts[k].3 == "down"@ && ts[k].4 == "up"@ && since <= ts[k].5 <= now_ms),
        decreases transitions@.len() - j,
    {
        let t = &transitions[j];
        assert(ts[j as int] == tview(transitions@[j as int]));
        if str_eq(t.relation.as_str(), "target") && str_eq(t.from_state.as_str(), "down") && str_eq(t.to_state.as_str(), "up")
            && t.occurred_at_ms >= since && t.occurred_at_ms <= now_ms {
            return None;
        }
        j = j + 1;
    }
    let later = &transitions[idx[fb]];
    proof {
        assert(o[fb as int] == (ts[idx@[fb as int] as int], ranks@[fb as int]));
        assert(ts[idx@[fb as int] as int] == tview(transitions@[idx@[fb as int] as int]));
        assert(!target_opened(ts, since, now_ms));
    }
    let stage = if ranks[fb] == 1 { OutboundProgressStage::VeryHigh } else { OutboundProgressStage::High };
    let result = DetectedOutboundProgress {
        bridge_key: owned(later.bridge_key.as_str()),
        bridge_name: owned(later.bridge_name.as_str()),
        stage,
        occurred_at_ms: later.occurred_at_ms,
    };
    proof {
        let a = fa as int;
        let b = fb as int;
        assert(o == outbound_openings(ts, now_ms));
        assert(chosen_pair(o, a, b));
        assert(since == saturating_sub_spec(o[a].0.5, OUTBOUND_WINDOW_MS));
        assert(result.bridge_key@ == o[b].0.0);
        assert(result.bridge_name@ == o[b].0.1);
        assert(result.occurred_at_ms == o[b].0.5);
        assert(result.stage == if o[b].1 == 1 { OutboundProgressStage::VeryHigh } else { OutboundProgressStage::High });
    }
    Some(result)
}

} // verus!
