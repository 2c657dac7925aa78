//! What each registered source says about itself: per-channel views, the
//! settings screen's source list, and whether the bridge's all-clear is
//! confirmed.

use vstd::prelude::*;

use crate::ais::{
    ais_source_id, bridge_item_current_spec, bridge_item_is_current, channel_named, cursor_get,
    cursor_value, find_channel, find_source, is_ais_source_id, iso_timestamp, observed_or, renders,
    source_named, time_shown, SourceEntry, TIMESTAMP_MAX_MS, TIMESTAMP_MIN_MS,
};
use crate::availability::{source_availability, source_availability_spec, ChannelSourceView, SourceState};
use crate::dto::{AvailabilityDto, ChannelKindDto, ChannelPreference, SourceHealth};
use crate::item::{item_text, CollectorItem, ItemKind};
use crate::json::{object_get, value_as_bool};
use crate::runtime::RuntimeError;
use crate::text::{concat, decimal_digits, has_prefix, owned, parse_usize, starts_with, str_eq, u64_to_decimal, usize_from_text};

verus! {

/// Who a channel's summary credits for its data.
pub open spec fn source_label_spec(kind: ChannelKindDto) -> Seq<char> {
    match kind {
        ChannelKindDto::Bridge => "Configured live sources + confidence model"@,
        ChannelKindDto::Weather => "Open-Meteo"@,
        ChannelKindDto::Official => "National Weather Service"@,
        ChannelKindDto::Hurricane => "National Hurricane Center"@,
        ChannelKindDto::News => "Configured RSS/Atom"@,
        ChannelKindDto::Sports => "Configured RSS/Atom"@,
        ChannelKindDto::Earthquake => "U.S. Geological Survey"@,
        ChannelKindDto::Markets => "Yahoo Finance chart"@,
        ChannelKindDto::System => "Local runtime"@,
    }
}

pub fn source_label(kind: ChannelKindDto, channel: &ChannelPreference) -> (r: &'static str)
    ensures
        r@ == source_label_spec(kind),
{
    proof {
        reveal_strlit("Configured live sources + confidence model");
        reveal_strlit("Open-Meteo");
        reveal_strlit("National Weather Service");
        reveal_strlit("National Hurricane Center");
        reveal_strlit("Configured RSS/Atom");
        reveal_strlit("U.S. Geological Survey");
        reveal_strlit("Yahoo Finance chart");
        reveal_strlit("Local runtime");
    }
    match kind {
        ChannelKindDto::Bridge => "Configured live sources + confidence model",
        ChannelKindDto::Weather => "Open-Meteo",
        ChannelKindDto::Official => "National Weather Service",
        ChannelKindDto::Hurricane => "National Hurricane Center",
        ChannelKindDto::News | ChannelKindDto::Sports => "Configured RSS/Atom",
        ChannelKindDto::Earthquake => "U.S. Geological Survey",
        ChannelKindDto::Markets => "Yahoo Finance chart",
        ChannelKindDto::System => "Local runtime",
    }
}

/// How one registered source looks from its channel: offline with no age
/// while nothing is kept for it.
pub open spec fn view_of(s: Option<SourceState>, c: ChannelPreference, now_ms: i64) -> ChannelSourceView {
    match s {
        None => ChannelSourceView { availability: AvailabilityDto::Offline, age_seconds: 0 },
        Some(state) => {
            let (a, age) = source_availability_spec(state, c, now_ms);
            ChannelSourceView { availability: a, age_seconds: age }
        },
    }
}

/// The views of the sources registered for channel `c`, in registration order.
pub open spec fn views_of(entries: Seq<SourceEntry>, regs: Seq<(String, String)>, c: ChannelPreference, now_ms: i64) -> Seq<ChannelSourceView>
    decreases regs.len(),
{
    if regs.len() == 0 {
        Seq::empty()
    } else {
        let rest = views_of(entries, regs.drop_last(), c, now_ms);
        let reg = regs.last();
        if reg.1@ == c.id@ {
            rest.push(view_of(source_named(entries, reg.0@), c, now_ms))
        } else {
            rest
        }
    }
}

pub fn channel_source_views(channel: &ChannelPreference, sources: &[SourceEntry], active_sources: &[(String, String)], now_ms: i64) -> (r: Vec<ChannelSourceView>)
    ensures
        r@ == views_of(sources@, active_sources@, *channel, now_ms),
{
    let mut out: Vec<ChannelSourceView> = Vec::new();
    let mut i: usize = 0;
    while i < active_sources.len()
        invariant
            i <= active_sources@.len(),
            out@ == views_of(sources@, active_sources@.take(i as int), *channel, now_ms),
        decreases active_sources@.len() - i,
    {
        proof {
            assert(active_sources@.take(i + 1).drop_last() =~= active_sources@.take(i as int));
            assert(active_sources@.take(i + 1).last() == active_sources@[i as int]);
        }
        let reg = &active_sources[i];
        if str_eq(reg.1.as_str(), channel.id.as_str()) {
            let view = match find_source(sources, reg.0.as_str()) {
                None => ChannelSourceView { availability: AvailabilityDto::Offline, age_seconds: 0 },
                Some(state) => {
                    let (a, age) = source_availability(state, channel, now_ms);
                    ChannelSourceView { availability: a, age_seconds: age }
                },
            };
            out.push(view);
        }
        i = i + 1;
    }
    proof {
        assert(active_sources@.take(active_sources@.len() as int) =~= active_sources@);
    }
    out
}

/// A current FL511 reading of the target span.
pub open spec fn current_target(item: CollectorItem, s: SourceState, c: ChannelPreference, now_ms: i64) -> bool {
    &&& item.kind == ItemKind::Bridge
    &&& item_text(item, "relation"@) == Some("target"@)
    &&& bridge_item_current_spec(item, c, observed_or(item, s.last_success_ms, now_ms), now_ms)
}

/// A target reading that says the road is restored: down, and not in
/// conflict with itself.
pub open spec fn target_down(item: CollectorItem) -> bool {
    item_text(item, "state"@) == Some("down"@) && value_as_bool(object_get(item.attributes, "state_conflict"@)) == Some(false)
}

pub open spec fn fl511_for(reg: (String, String), c: ChannelPreference) -> bool {
    reg.1@ == c.id@ && has_prefix(reg.0@, "fl511."@)
}

/// An FL511 source that can vouch for the all-clear: kept, fresh, and with
/// every current target reading down.
pub open spec fn fl511_vouches(s: Option<SourceState>, c: ChannelPreference, now_ms: i64) -> bool {
    match s {
        None => false,
        Some(state) => {
            &&& source_availability_spec(state, c, now_ms).0 == AvailabilityDto::Fresh
            &&& forall|i: int| 0 <= i < state.items@.len() && #[trigger] current_target(state.items@[i], state, c, now_ms)
                ==> target_down(state.items@[i])
        },
    }
}

pub open spec fn fl511_sees_target(s: Option<SourceState>, c: ChannelPreference, now_ms: i64) -> bool {
    match s {
        None => false,
        Some(state) => exists|i: int| 0 <= i < state.items@.len() && #[trigger] current_target(state.items@[i], state, c, now_ms),
    }
}

/// The bridge's all-clear is confirmed only by FL511: every FL511 source of
/// the channel vouches for it, and at least one of them currently reads the
/// target span. Predictive sources such as AIS cannot establish it.
pub open spec fn resolution_confirmed_spec(entries: Seq<SourceEntry>, regs: Seq<(String, String)>, c: ChannelPreference, now_ms: i64) -> bool {
    &&& forall|i: int| 0 <= i < regs.len() && fl511_for(#[trigger] regs[i], c) ==> fl511_vouches(source_named(entries, regs[i].0@), c, now_ms)
    &&& exists|i: int| 0 <= i < regs.len() && fl511_for(#[trigger] regs[i], c) && fl511_sees_target(source_named(entries, regs[i].0@), c, now_ms)
}

/// Reads one FL511 source: `None` when it cannot vouch, else whether it
/// currently reads the target.
fn fl511_reading(source: &SourceState, channel: &ChannelPreference, now_ms: i64) -> (r: Option<bool>)
    ensures
        r is None <==> !fl511_vouches(Some(*source), *channel, now_ms),
        r is Some ==> r.unwrap() == fl511_sees_target(Some(*source), *channel, now_ms),
{
    if source_availability(source, channel, now_ms).0 != AvailabilityDto::Fresh {
        return None;
    }
    proof {
        reveal_strlit("target");
        reveal_strlit("down");
    }
    let mut saw = false;
    let mut i: usize = 0;
    while i < source.items.len()
        invariant
            i <= source.items@.len(),
            source_availability_spec(*source, *channel, now_ms).0 == AvailabilityDto::Fresh,
            forall|k: int| 0 <= k < i && #[trigger] current_target(source.items@[k], *source, *channel, now_ms)
                ==> target_down(source.items@[k]),
            saw == exists|k: int| 0 <= k < i && #[trigger] current_target(source.items@[k], *source, *channel, now_ms),
        decreases source.items@.len() - i,
    {
        let item = &source.items[i];
        let observed = match item.observed_at_ms {
            Some(t) => t,
            None => match source.last_success_ms {
                Some(t) => t,
                None => now_ms,
            },
        };
        let is_target = item.kind == ItemKind::Bridge && match item.attributes.get_str("relation") {
            Some(t) => str_eq(t, "target"),
            None => false,
        } && bridge_item_is_current(item, channel, observed, now_ms);
        proof {
            assert(observed == observed_or(source.items@[i as int], source.last_success_ms, now_ms));
            assert(is_target == current_target(source.items@[i as int], *source, *channel, now_ms));
        }
        if is_target {
            saw = true;
            let down = match item.attributes.get_str("state") {
                Some(t) => str_eq(t, "down"),
                None => false,
            };
            let settled = match item.attributes.get_bool("state_conflict") {
                Some(b) => !b,
                None => false,
            };
            if !(down && settled) {
                proof {
                    assert(current_target(source.items@[i as int], *source, *channel, now_ms));
                    assert(!target_down(source.items@[i as int]));
                }
                return None;
            }
        }
        i = i + 1;
    }
    Some(saw)
}

pub fn bridge_resolution_confirmed(channel: &ChannelPreference, sources: &[SourceEntry], active_sources: &[(String, String)], now_ms: i64) -> (r: bool)
    ensures
        r == resolution_confirmed_spec(sources@, active_sources@, *channel, now_ms),
{
    proof {
        reveal_strlit("fl511.");
    }
    let mut saw = false;
    let mut i: usize = 0;
    while i < active_sources.len()
        invariant
            i <= active_sources@.len(),
            forall|k: int| 0 <= k < i && fl511_for(#[trigger] active_sources@[k], *channel)
                ==> fl511_vouches(source_named(sources@, active_sources@[k].0@), *channel, now_ms),
            saw == exists|k: int| 0 <= k < i && fl511_for(#[trigger] active_sources@[k], *channel)
                && fl511_sees_target(source_named(sources@, active_sources@[k].0@), *channel, now_ms),
        decreases active_sources@.len() - i,
    {
        let reg = &active_sources[i];
        if str_eq(reg.1.as_str(), channel.id.as_str()) && starts_with(reg.0.as_str(), "fl511.") {
            match find_source(sources, reg.0.as_str()) {
                None => {
                    proof {
                        assert(fl511_for(active_sources@[i as int], *channel));
                    }
                    return false;
                },
                Some(source) => {
                    match fl511_reading(source, channel, now_ms) {
                        None => {
                            proof {
                                assert(fl511_for(active_sources@[i as int], *channel));
                            }
                            return false;
                        },
                        Some(seen) => {
                            if seen {
                                proof {
                                    assert(fl511_for(active_sources@[i as int], *channel));
                                }
                                saw = true;
                            }
                        },
                    }
                },
            }
        }
        i = i + 1;
    }
    saw
}


/// How many vessel positions an AIS source's cursor says it holds.
pub open spec fn vessel_count(s: SourceState) -> usize {
    match cursor_get(s.cursor, "fresh_vessel_count"@) {
        Some(t) => match usize_from_text(t) {
            Some(n) => n,
            None => 0,
        },
        None => 0,
    }
}

/// The sentence the source list shows beside a source.
pub open spec fn health_detail(source_id: Seq<char>, s: SourceState, a: AvailabilityDto) -> Seq<char> {
    if a == AvailabilityDto::Fresh && is_ais_source_id(source_id) {
        let n = vessel_count(s);
        if n == 0 {
            "WebSocket connected; no current vessel position has been delivered for this subscription."@
        } else {
            "WebSocket connected; "@ + decimal_digits(n as nat)
                + (if n == 1 { " current vessel position received."@ } else { " current vessel positions received."@ })
        }
    } else if a == AvailabilityDto::Fresh {
        match s.health_message {
            Some(m) => m@,
            None => "Reporting within the accepted freshness window."@,
        }
    } else {
        match s.last_error {
            Some(e) => e@,
            None => match s.health_message {
                Some(m) => m@,
                None => "No current observation is available."@,
            },
        }
    }
}

/// Why one registration cannot be reported: its channel is unknown (a
/// configuration error), or a time it holds cannot be rendered (a time error).
pub open spec fn health_fault(entries: Seq<SourceEntry>, reg: (String, String), cs: Seq<ChannelPreference>) -> Option<bool> {
    if channel_named(cs, reg.1@) is None {
        Some(true)
    } else {
        match source_named(entries, reg.0@) {
            None => None,
            Some(s) => if (s.last_attempt_ms is Some && !renders(s.last_attempt_ms.unwrap()))
                || (s.last_success_ms is Some && !renders(s.last_success_ms.unwrap())) {
                Some(false)
            } else {
                None
            },
        }
    }
}

/// The row `h` is the one reported for registration `reg`.
pub open spec fn health_matches(h: SourceHealth, entries: Seq<SourceEntry>, reg: (String, String), cs: Seq<ChannelPreference>, now_ms: i64) -> bool {
    &&& h.source_id@ == reg.0@
    &&& h.channel_id@ == reg.1@
    &&& match source_named(entries, reg.0@) {
        None => {
            &&& h.availability == AvailabilityDto::Offline
            &&& h.detail@ == "No collector result has been recorded yet."@
            &&& h.failure_count == 0
            &&& h.last_attempt_at is None
            &&& h.last_success_at is None
        },
        Some(s) => {
            let a = source_availability_spec(s, channel_named(cs, reg.1@).unwrap(), now_ms).0;
            &&& h.availability == a
            &&& h.detail@ == health_detail(reg.0@, s, a)
            &&& h.failure_count == s.failure_count
            &&& time_shown(h.last_attempt_at, s.last_attempt_ms)
            &&& time_shown(h.last_success_at, s.last_success_ms)
        },
    }
}

fn health_text(source_id: &str, source: &SourceState, a: AvailabilityDto) -> (r: String)
    ensures
        r@ == health_detail(source_id@, *source, a),
{
    if a == AvailabilityDto::Fresh && ais_source_id(source_id) {
        let n: usize = match cursor_value(&source.cursor, "fresh_vessel_count") {
            Some(t) => match parse_usize(t) {
                Some(n) => n,
                None => 0,
            },
            None => 0,
        };
        if n == 0 {
            owned("WebSocket connected; no current vessel position has been delivered for this subscription.")
        } else {
            let digits = u64_to_decimal(n as u64);
            let mut text = concat("WebSocket connected; ", digits.as_str());
            if n == 1 {
                text.append(" current vessel position received.");
            } else {
                text.append(" current vessel positions received.");
            }
            text
        }
    } else if a == AvailabilityDto::Fresh {
        match &source.health_message {
            Some(m) => owned(m.as_str()),
            None => owned("Reporting within the accepted freshness window."),
        }
    } else {
        match &source.last_error {
            Some(e) => owned(e.as_str()),
            None => match &source.health_message {
                Some(m) => owned(m.as_str()),
                None => owned("No current observation is available."),
            },
        }
    }
}

fn optional_time(ms: Option<i64>) -> (r: Result<Option<String>, RuntimeError>)
    ensures
        r is Err <==> (ms is Some && !renders(ms.unwrap())),
        r is Err ==> r->Err_0 is Time,
        r is Ok ==> time_shown(r->Ok_0, ms),
{
    match ms {
        None => Ok(None),
        Some(v) => match iso_timestamp(v) {
            Ok(t) => Ok(Some(t)),
            Err(e) => Err(e),
        },
    }
}

/// The settings screen's list of sources, one row per registration in
/// order. It fails at the first registration whose channel is unknown (a
/// configuration error) or whose attempt or success time cannot be
/// rendered (a time error).
pub fn source_health(
    channels: &Vec<ChannelPreference>,
    sources: &[SourceEntry],
    active_sources: &[(String, String)],
    now_ms: i64,
) -> (r: Result<Vec<SourceHealth>, RuntimeError>)
    ensures
        r is Ok <==> forall|i: int| 0 <= i < active_sources@.len() ==> health_fault(sources@, #[trigger] active_sources@[i], channels@) is None,
        r is Ok ==> r->Ok_0@.len() == active_sources@.len()
            && forall|i: int| 0 <= i < active_sources@.len() ==> health_matches(#[trigger] r->Ok_0@[i], sources@, active_sources@[i], channels@, now_ms),
        r is Err ==> exists|k: int| 0 <= k < active_sources@.len()
            && (forall|i: int| 0 <= i < k ==> health_fault(sources@, #[trigger] active_sources@[i], channels@) is None)
            && health_fault(sources@, active_sources@[k], channels@) is Some
            && (health_fault(sources@, active_sources@[k], channels@) == Some(true) ==> r->Err_0 is Configuration)
            && (health_fault(sources@, active_sources@[k], channels@) == Some(false) ==> r->Err_0 is Time),
{
    let mut rows: Vec<SourceHealth> = Vec::new();
    let mut i: usize = 0;
    while i < active_sources.len()
        invariant
            i <= active_sources@.len(),
            rows@.len() == i,
            forall|k: int| 0 <= k < i ==> health_fault(sources@, #[trigger] active_sources@[k], channels@) is None,
            forall|k: int| 0 <= k < i ==> health_matches(#[trigger] rows@[k], sources@, active_sources@[k], channels@, now_ms),
        decreases active_sources@.len() - i,
    {
        let reg = &active_sources[i];
        let channel = match find_channel(channels, reg.1.as_str()) {
            Some(c) => c,
            None => {
                let mut message = concat("source \"", reg.0.as_str());
                message.append("\" references unknown channel \"");
                message.append(reg.1.as_str());
                message.append("\"");
                return Err(RuntimeError::Configuration(message));
            },
        };
        let row = match find_source(sources, reg.0.as_str()) {
            None => SourceHealth {
                source_id: owned(reg.0.as_str()),
                channel_id: owned(reg.1.as_str()),
                availability: AvailabilityDto::Offline,
                detail: owned("No collector result has been recorded yet."),
                failure_count: 0,
                last_attempt_at: None,
                last_success_at: None,
            },
            Some(source) => {
                let (a, _) = source_availability(source, channel, now_ms);
                let detail = health_text(reg.0.as_str(), source, a);
                let last_attempt_at = match optional_time(source.last_attempt_ms) {
                    Ok(t) => t,
                    Err(e) => return Err(e),
                };
                let last_success_at = match optional_time(source.last_success_ms) {
                    Ok(t) => t,
                    Err(e) => return Err(e),
                };
                SourceHealth {
                    source_id: owned(reg.0.as_str()),
                    channel_id: owned(reg.1.as_str()),
                    availability: a,
                    detail,
                    failure_count: source.failure_count,
                    last_attempt_at,
                    last_success_at,
                }
            },
        };
        rows.push(row);
        i = i + 1;
    }
    Ok(rows)
}


/// Only FL511 can vouch for the bridge's all-clear: registering any other
/// source (AIS among them) for the channel neither confirms nor withdraws it.
pub proof fn lemma_only_fl511_confirms(entries: Seq<SourceEntry>, regs: Seq<(String, String)>, extra: (String, String), c: ChannelPreference, now_ms: i64)
    requires
        !has_prefix(extra.0@, "fl511."@),
    ensures
        resolution_confirmed_spec(entries, regs.push(extra), c, now_ms) == resolution_confirmed_spec(entries, regs, c, now_ms),
{
    let more = regs.push(extra);
    assert(!fl511_for(more[regs.len() as int], c));
    assert forall|i: int| 0 <= i < regs.len() implies more[i] == regs[i] by {}
    if resolution_confirmed_spec(entries, more, c, now_ms) {
        let i = choose|i: int| 0 <= i < more.len() && fl511_for(#[trigger] more[i], c) && fl511_sees_target(source_named(entries, more[i].0@), c, now_ms);
        assert(i < regs.len());
        assert(regs[i] == more[i]);
        assert forall|k: int| 0 <= k < regs.len() && fl511_for(#[trigger] regs[k], c) implies fl511_vouches(source_named(entries, regs[k].0@), c, now_ms) by {
            assert(more[k] == regs[k]);
        }
    }
    if resolution_confirmed_spec(entries, regs, c, now_ms) {
        let i = choose|i: int| 0 <= i < regs.len() && fl511_for(#[trigger] regs[i], c) && fl511_sees_target(source_named(entries, regs[i].0@), c, now_ms);
        assert(more[i] == regs[i]);
        assert forall|k: int| 0 <= k < more.len() && fl511_for(#[trigger] more[k], c) implies fl511_vouches(source_named(entries, more[k].0@), c, now_ms) by {
            assert(k < regs.len());
            assert(more[k] == regs[k]);
        }
    }
}

} // verus!
