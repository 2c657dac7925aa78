//! What the runtime writes down and throws away as its state moves on: the
//! bridge states a refresh records, the collected sources a saved preference
//! change keeps, and how the collectors stand overall.

use vstd::prelude::*;

use crate::ais::{find_source, source_named, SourceEntry};
use crate::changes::{areas_placed, lemma_unchanged_save_touches_nothing, touched};
use crate::dto::{
    AisSettings, AppPreferences, AvailabilityDto, ChannelKindDto, ChannelPreference, SourceHealth, SystemStatusDto,
};
use crate::item::{CollectorItem, ItemKind};
use crate::json::{object_get, value_as_str};
use crate::text::{has_prefix, owned, starts_with, str_eq};

verus! {

/// How many unresolved bridges in one fetch mark the fetch itself as faulty.
pub const CORRELATED_UNKNOWN_THRESHOLD: usize = 2;

/// One bridge state to keep in the durable transition ledger.
#[derive(Clone, Debug, PartialEq, Eq)]
pub struct BridgeStateRecord {
    pub source_id: String,
    pub bridge_key: String,
    pub bridge_name: String,
    pub relation: String,
    pub state: String,
    pub observed_at_ms: i64,
}

pub open spec fn item_text_attr(item: CollectorItem, key: Seq<char>) -> Option<Seq<char>> {
    value_as_str(object_get(item.attributes, key))
}

/// How many of the first `m` items are bridge items reporting an unknown state.
pub open spec fn unknown_bridges(items: Seq<CollectorItem>, m: int) -> nat
    decreases m,
{
    if m <= 0 {
        0
    } else {
        unknown_bridges(items, m - 1) + if items[m - 1].kind == ItemKind::Bridge
            && item_text_attr(items[m - 1], "state"@) == Some("unknown"@) { 1nat } else { 0nat }
    }
}

/// Whether the fetch behind `items` failed across several bridges at once.
pub open spec fn correlated_unknown(items: Seq<CollectorItem>) -> bool {
    unknown_bridges(items, items.len() as int) >= CORRELATED_UNKNOWN_THRESHOLD
}

/// Whether a bridge item's state is written down: it names its bridge, it is
/// the target or an upstream span, its state is up, down or unknown, and an
/// unknown state is kept only when the fetch did not fail across bridges.
pub open spec fn records_state(item: CollectorItem, correlated: bool) -> bool {
    let relation = item_text_attr(item, "relation"@);
    let state = item_text_attr(item, "state"@);
    &&& item.kind == ItemKind::Bridge
    &&& item_text_attr(item, "selector_key"@) is Some
    &&& (relation == Some("target"@) || relation == Some("upstream"@))
    &&& (state == Some("up"@) || state == Some("down"@) || state == Some("unknown"@))
    &&& !(state == Some("unknown"@) && correlated)
}

/// Whether active source `k` is a Florida 511 source with state kept for it.
pub open spec fn ledger_source(sources: Seq<SourceEntry>, active: Seq<(String, String)>, k: int) -> bool {
    has_prefix(active[k].0@, "fl511."@) && source_named(sources, active[k].0@) is Some
}

/// The items of one source whose state is written, among the first `m`.
pub open spec fn record_slots(k: int, items: Seq<CollectorItem>, m: int) -> Seq<(int, int)>
    decreases m,
{
    if m <= 0 {
        Seq::empty()
    } else {
        record_slots(k, items, m - 1) + if records_state(items[m - 1], correlated_unknown(items)) {
            seq![(k, m - 1)]
        } else {
            Seq::empty()
        }
    }
}

/// The items whose state is written, behind the first `k` active sources.
pub open spec fn ledger_slots(sources: Seq<SourceEntry>, active: Seq<(String, String)>, k: int) -> Seq<(int, int)>
    decreases k,
{
    if k <= 0 {
        Seq::empty()
    } else {
        ledger_slots(sources, active, k - 1) + if ledger_source(sources, active, k - 1) {
            let items = source_named(sources, active[k - 1].0@).unwrap().items@;
            record_slots(k - 1, items, items.len() as int)
        } else {
            Seq::empty()
        }
    }
}

/// Whether `r` records the item at `slot` as observed at `now`.
pub open spec fn record_is(sources: Seq<SourceEntry>, active: Seq<(String, String)>, now: i64, slot: (int, int), r: BridgeStateRecord) -> bool {
    let id = active[slot.0].0@;
    let item = source_named(sources, id).unwrap().items@[slot.1];
    &&& r.source_id@ == id
    &&& Some(r.bridge_key@) == item_text_attr(item, "selector_key"@)
    &&& r.bridge_name@ == item.title@
    &&& Some(r.relation@) == item_text_attr(item, "relation"@)
    &&& Some(r.state@) == item_text_attr(item, "state"@)
    &&& r.observed_at_ms == now
}

fn count_unknown_bridges(items: &Vec<CollectorItem>) -> (n: usize)
    ensures
        n == unknown_bridges(items@, items@.len() as int),
{
    let mut n: usize = 0;
    let mut m: usize = 0;
    while m < items.len()
        invariant
            m <= items@.len(),
            n == unknown_bridges(items@, m as int),
            n <= m,
        decreases items@.len() - m,
    {
        let item = &items[m];
        if item.kind == ItemKind::Bridge {
            match item.attributes.get_str("state") {
                Some(s) => {
                    if str_eq(s, "unknown") {
                        n = n + 1;
                    }
                },
                None => {},
            }
        }
        m = m + 1;
    }
    n
}

fn record_for(item: &CollectorItem, source_id: &str, correlated: bool, now_ms: i64) -> (r: Option<BridgeStateRecord>)
    ensures
        match r {
            Some(rec) => records_state(*item, correlated) && {
                &&& rec.source_id@ == source_id@
                &&& Some(rec.bridge_key@) == item_text_attr(*item, "selector_key"@)
                &&& rec.bridge_name@ == item.title@
                &&& Some(rec.relation@) == item_text_attr(*item, "relation"@)
                &&& Some(rec.state@) == item_text_attr(*item, "state"@)
                &&& rec.observed_at_ms == now_ms
            },
            None => !records_state(*item, correlated),
        },
{
    if item.kind != ItemKind::Bridge {
        return None;
    }
    let key = match item.attributes.get_str("selector_key") {
        Some(k) => k,
        None => return None,
    };
    let relation = match item.attributes.get_str("relation") {
        Some(r) => r,
        None => return None,
    };
    if !(str_eq(relation, "target") || str_eq(relation, "upstream")) {
        return None;
    }
    let state = match item.attributes.get_str("state") {
        Some(s) => s,
        None => return None,
    };
    if !(str_eq(state, "up") || str_eq(state, "down") || str_eq(state, "unknown")) {
        return None;
    }
    if str_eq(state, "unknown") && correlated {
        return None;
    }
    Some(BridgeStateRecord {
        source_id: owned(source_id),
        bridge_key: owned(key),
        bridge_name: item.title.clone(),
        relation: owned(relation),
        state: owned(state),
        observed_at_ms: now_ms,
    })
}

/// The bridge states a refresh writes to the transition ledger: for each
/// active Florida 511 source, in order, each of its bridge items, in order,
/// whose state is written (see `records_state`), observed at `now_ms`.
pub fn bridge_states_to_record(sources: &[SourceEntry], active_sources: &[(String, String)], now_ms: i64) -> (r: Vec<BridgeStateRecord>)
    ensures
        r@.len() == ledger_slots(sources@, active_sources@, active_sources@.len() as int).len(),
        forall|n: int| 0 <= n < r@.len() ==>
            record_is(sources@, active_sources@, now_ms, ledger_slots(sources@, active_sources@, active_sources@.len() as int)[n], #[trigger] r@[n]),
{
    let mut out: Vec<BridgeStateRecord> = Vec::new();
    let mut k: usize = 0;
    proof {
        reveal_strlit("fl511.");
    }
    while k < active_sources.len()
        invariant
            k <= active_sources@.len(),
            out@.len() == ledger_slots(sources@, active_sources@, k as int).len(),
            forall|n: int| 0 <= n < out@.len() ==>
                record_is(sources@, active_sources@, now_ms, ledger_slots(sources@, active_sources@, k as int)[n], #[trigger] out@[n]),
        decreases active_sources@.len() - k,
    {
        let ghost prior = ledger_slots(sources@, active_sources@, k as int);
        let source_id = &active_sources[k].0;
        let found = if starts_with(source_id.as_str(), "fl511.") {
            find_source(sources, source_id.as_str())
        } else {
            None
        };
        match found {
            Some(source) => {
                let correlated = count_unknown_bridges(&source.items) >= CORRELATED_UNKNOWN_THRESHOLD;
                let ghost here = record_slots(k as int, source.items@, source.items@.len() as int);
                let mut m: usize = 0;
                while m < source.items.len()
                    invariant
                        k < active_sources@.len(),
                        m <= source.items@.len(),
                        source_named(sources@, active_sources@[k as int].0@) == Some(*source),
                        *source_id == active_sources@[k as int].0,
                        correlated == correlated_unknown(source.items@),
                        prior == ledger_slots(sources@, active_sources@, k as int),
                        out@.len() == prior.len() + record_slots(k as int, source.items@, m as int).len(),
                        forall|n: int| 0 <= n < out@.len() ==>
                            record_is(sources@, active_sources@, now_ms,
                                (prior + record_slots(k as int, source.items@, m as int))[n], #[trigger] out@[n]),
                    decreases source.items@.len() - m,
                {
                    let ghost before_m = out@;
                    match record_for(&source.items[m], source_id.as_str(), correlated, now_ms) {
                        Some(rec) => out.push(rec),
                        None => {},
                    }
                    proof {
                        let next = prior + record_slots(k as int, source.items@, m + 1);
                        assert forall|n: int| 0 <= n < out@.len() implies
                            record_is(sources@, active_sources@, now_ms, next[n], #[trigger] out@[n]) by {
                            if n < before_m.len() {
                                assert(out@[n] == before_m[n]);
                                assert(next[n] == (prior + record_slots(k as int, source.items@, m as int))[n]);
                            } else {
                                assert(next[n] == (k as int, m as int));
                            }
                        }
                    }
                    m = m + 1;
                }
                proof {
                    assert(ledger_slots(sources@, active_sources@, k + 1) =~= prior + here);
                }
            },
            None => {
                proof {
                    assert(ledger_slots(sources@, active_sources@, k + 1) =~= prior);
                }
            },
        }
        k = k + 1;
    }
    out
}

/// Whether `id` is one of `ids`.
pub open spec fn names(ids: Seq<String>, id: Seq<char>) -> bool {
    exists|i: int| 0 <= i < ids.len() && (#[trigger] ids[i])@ == id
}

fn names_exec(ids: &Vec<String>, id: &str) -> (r: bool)
    ensures
        r == names(ids@, id@),
{
    let mut i: usize = 0;
    while i < ids.len()
        invariant
            i <= ids@.len(),
            forall|j: int| 0 <= j < i ==> (#[trigger] ids@[j])@ != id@,
        decreases ids@.len() - i,
    {
        if str_eq(ids[i].as_str(), id) {
            return true;
        }
        i = i + 1;
    }
    false
}

/// Whether a collected source survives a preference save: its channel did
/// not change, and it is not an AISStream source while the AIS settings did.
pub open spec fn survives_save(e: SourceEntry, changed: Seq<String>, ais_changed: bool) -> bool {
    !names(changed, e.state.channel_id@) && !(ais_changed && has_prefix(e.source_id@, "aisstream."@))
}

/// The entries of `s` that survive, in order.
pub open spec fn surviving(s: Seq<SourceEntry>, changed: Seq<String>, ais_changed: bool) -> Seq<SourceEntry>
    decreases s.len(),
{
    if s.len() == 0 {
        Seq::empty()
    } else {
        surviving(s.drop_last(), changed, ais_changed) + if survives_save(s.last(), changed, ais_changed) {
            seq![s.last()]
        } else {
            Seq::empty()
        }
    }
}

/// The collected sources kept across a preference save, in order; the rest
/// start afresh on the next cycle.
pub fn retained_sources(sources: Vec<SourceEntry>, changed_channels: &Vec<String>, ais_changed: bool) -> (r: Vec<SourceEntry>)
    ensures
        r@ == surviving(sources@, changed_channels@, ais_changed),
{
    let ghost given = sources@;
    let mut rest = sources;
    let mut out: Vec<SourceEntry> = Vec::new();
    let ghost mut done: int = 0;
    proof {
        reveal_strlit("aisstream.");
        assert(given.take(0) =~= Seq::<SourceEntry>::empty());
    }
    while rest.len() > 0
        invariant
            0 <= done <= given.len(),
            rest@ == given.subrange(done, given.len() as int),
            out@ == surviving(given.take(done), changed_channels@, ais_changed),
        decreases rest@.len(),
    {
        let entry = rest.remove(0);
        proof {
            assert(entry == given[done]);
            assert(given.take(done + 1).drop_last() =~= given.take(done));
            assert(given.take(done + 1).last() == given[done]);
        }
        let keep = !names_exec(changed_channels, entry.state.channel_id.as_str())
            && !(ais_changed && starts_with(entry.source_id.as_str(), "aisstream."));
        if keep {
            out.push(entry);
        }
        proof {
            done = done + 1;
            assert(rest@ =~= given.subrange(done, given.len() as int));
        }
    }
    proof {
        assert(given.take(done) =~= given);
    }
    out
}

/// Whether a saved change touches the bridge channel, before or after.
pub open spec fn bridge_changed(old: Seq<ChannelPreference>, new: Seq<ChannelPreference>, changed: Seq<String>) -> bool {
    ||| exists|i: int| 0 <= i < old.len() && (#[trigger] old[i]).kind == ChannelKindDto::Bridge && names(changed, old[i].id@)
    ||| exists|i: int| 0 <= i < new.len() && (#[trigger] new[i]).kind == ChannelKindDto::Bridge && names(changed, new[i].id@)
}

fn touches_bridge(channels: &[ChannelPreference], changed: &Vec<String>) -> (r: bool)
    ensures
        r == exists|i: int| 0 <= i < channels@.len() && (#[trigger] channels@[i]).kind == ChannelKindDto::Bridge
            && names(changed@, channels@[i].id@),
{
    let mut i: usize = 0;
    while i < channels.len()
        invariant
            i <= channels@.len(),
            forall|j: int| 0 <= j < i ==> !((#[trigger] channels@[j]).kind == ChannelKindDto::Bridge
                && names(changed@, channels@[j].id@)),
        decreases channels@.len() - i,
    {
        if channels[i].kind == ChannelKindDto::Bridge && names_exec(changed, channels[i].id.as_str()) {
            return true;
        }
        i = i + 1;
    }
    false
}

/// Whether a saved change discards the previous prediction: it touches the
/// bridge channel, or it changes the AIS settings.
pub fn prediction_resets(
    old_channels: &[ChannelPreference],
    new_channels: &[ChannelPreference],
    changed_channels: &Vec<String>,
    old_ais: &AisSettings,
    new_ais: &AisSettings,
) -> (r: bool)
    ensures
        r == (bridge_changed(old_channels@, new_channels@, changed_channels@) || old_ais != new_ais),
{
    touches_bridge(old_channels, changed_channels) || touches_bridge(new_channels, changed_channels)
        || *old_ais != *new_ais
}

/// How many of the sources are fresh.
pub open spec fn fresh_count(s: Seq<SourceHealth>) -> nat
    decreases s.len(),
{
    if s.len() == 0 {
        0
    } else {
        fresh_count(s.drop_last()) + if s.last().availability == AvailabilityDto::Fresh { 1nat } else { 0nat }
    }
}

/// How the collectors stand together: offline when none is fresh, nominal
/// when all are, degraded otherwise; with the fresh count and the total.
pub fn system_status(sources: &[SourceHealth]) -> (r: (SystemStatusDto, usize, usize))
    ensures
        r.1 == fresh_count(sources@),
        r.2 == sources@.len(),
        r.0 == if r.2 == 0 || r.1 == 0 {
            SystemStatusDto::Offline
        } else if r.1 == r.2 {
            SystemStatusDto::Nominal
        } else {
            SystemStatusDto::Degraded
        },
{
    let mut online: usize = 0;
    let mut i: usize = 0;
    while i < sources.len()
        invariant
            i <= sources@.len(),
            online == fresh_count(sources@.take(i as int)),
            online <= i,
        decreases sources@.len() - i,
    {
        proof {
            assert(sources@.take(i as int + 1).drop_last() =~= sources@.take(i as int));
        }
        if sources[i].availability == AvailabilityDto::Fresh {
            online = online + 1;
        }
        i = i + 1;
    }
    proof {
        assert(sources@.take(sources@.len() as int) =~= sources@);
    }
    let total = sources.len();
    let status = if total == 0 || online == 0 {
        SystemStatusDto::Offline
    } else if online == total {
        SystemStatusDto::Nominal
    } else {
        SystemStatusDto::Degraded
    };
    (status, online, total)
}

proof fn lemma_all_survive(s: Seq<SourceEntry>, changed: Seq<String>)
    requires
        changed.len() == 0,
    ensures
        surviving(s, changed, false) == s,
    decreases s.len(),
{
    if s.len() > 0 {
        lemma_all_survive(s.drop_last(), changed);
        assert(s.drop_last().push(s.last()) =~= s);
    }
}

/// Saving the preferences unchanged keeps every collected source and the
/// previous prediction: the changed channels a save reports for identical
/// preferences are none (as long as every area is placed at finite
/// coordinates), so no source is dropped and nothing resets the prediction.
pub proof fn lemma_unchanged_save_keeps_state(p: AppPreferences, sources: Seq<SourceEntry>, changed: Seq<String>)
    requires
        areas_placed(p),
        forall|i: int| 0 <= i < changed.len() ==> touched(p, p, (#[trigger] changed[i])@),
    ensures
        surviving(sources, changed, p.ais != p.ais) == sources,
        !bridge_changed(p.profile.channels@, p.profile.channels@, changed),
{
    if changed.len() > 0 {
        lemma_unchanged_save_touches_nothing(p, changed[0]@);
    }
    assert(changed.len() == 0);
    lemma_all_survive(sources, changed);
}

} // verus!
