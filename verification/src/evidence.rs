//! Bridge evidence as the opening predictor reads it, and what the predictor
//! says turned into the decision and evidence strips a surface shows.
//!
//! The predictor's own inputs and outputs are modelled here as plain values:
//! an observation of the target bridge's controller, of an AIS track, or of a
//! vessel working downriver through the upstream spans; and a prediction with
//! its state, ETA, confidence and the contributions behind it.

use vstd::prelude::*;

use crate::bridge::{
    chosen_pair, detect_outbound_progress, downriver_pair, outbound_openings, saturating_sub_spec, target_opened,
    tviews, BridgeStateTransition, DetectedOutboundProgress, OutboundProgressStage, TransitionView, OUTBOUND_WINDOW_MS,
};
use crate::ais::{
    bridge_item_current_spec, bridge_item_is_current, find_source, iso_timestamp, renders, rfc3339_of_millis, source_named,
    SourceEntry,
};
use crate::availability::{age_seconds_at, age_seconds_spec, source_availability, source_availability_spec, SourceState};
use crate::clock::{format_local_slot, slot_text};
use crate::dto::{
    AvailabilityDto, BridgeStateDto, ChannelKindDto, ChannelPreference, DecisionSnapshot, EvidenceStateDto, EvidenceStrip,
    VesselMovementDto,
};
use crate::runtime::{
    confidence_label, confidence_label_spec, decision_copy, decision_copy_spec, outbound_eta, outbound_eta_spec, RuntimeError,
};
use crate::item::{schedule_exempt, CollectorItem, ItemKind};
use crate::json::{object_get, value_as_bool, value_as_str, JsonNumber, JsonValue};
use crate::text::{concat, decimal_digits, has_prefix, owned, starts_with, str_eq, u64_to_decimal};

verus! {

/// What the target bridge's controller reports.
#[derive(Clone, Copy, Debug, PartialEq, Eq, Structural)]
pub enum ControllerState {
    Open,
    Closed,
    Unknown,
}

/// An ETA window, in whole minutes, as the source gave it.
#[derive(Clone, Copy, Debug, PartialEq, Eq, Structural)]
pub struct EtaRange {
    pub earliest: u16,
    pub latest: u16,
}

/// One fact about the bridge, as the predictor takes it.
#[derive(Clone, Debug, PartialEq)]
pub enum BridgeObservation {
    Controller { state: ControllerState },
    AisTrack {
        mmsi: Option<String>,
        vessel_name: Option<String>,
        movement: VesselMovementDto,
        route_intersects: bool,
        schedule_exempt: bool,
        eta: Option<EtaRange>,
        /// How likely this hull is to need the span raised, in basis points.
        opening_propensity: Option<u16>,
    },
    OutboundProgress { bridge: String, stage: OutboundProgressStage, eta: Option<EtaRange> },
}

/// A number attribute read as an unsigned 64-bit integer: an integral JSON
/// number in range, and nothing else.
pub open spec fn value_as_u64(v: Option<JsonValue>) -> Option<int> {
    match v {
        Some(JsonValue::Number(JsonNumber::Integer(i))) => if 0 <= i <= u64::MAX { Some(i as int) } else { None },
        _ => None,
    }
}

fn attribute_u64(item: &CollectorItem, key: &str) -> (r: Option<u64>)
    ensures
        match r {
            Some(x) => value_as_u64(object_get(item.attributes, key@)) == Some(x as int),
            None => value_as_u64(object_get(item.attributes, key@)) is None,
        },
{
    match item.attributes.get_number(key) {
        Some(JsonNumber::Integer(i)) => {
            if 0 <= i && i <= 0xffff_ffff_ffff_ffff {
                Some(i as u64)
            } else {
                None
            }
        },
        _ => None,
    }
}

/// The movement an AIS item names, when it names one of the four.
pub open spec fn movement_of(text: Seq<char>) -> Option<VesselMovementDto> {
    if text == "approaching"@ {
        Some(VesselMovementDto::Approaching)
    } else if text == "diverging"@ {
        Some(VesselMovementDto::Diverging)
    } else if text == "stationary"@ {
        Some(VesselMovementDto::Stationary)
    } else if text == "unknown"@ {
        Some(VesselMovementDto::Unknown)
    } else {
        None
    }
}

/// The ETA an AIS item states: none when it states neither bound, a window
/// when it states both within sixteen bits, and no fact at all otherwise.
pub open spec fn eta_of(item: CollectorItem) -> Option<Option<EtaRange>> {
    let lo = value_as_u64(object_get(item.attributes, "eta_min_minutes"@));
    let hi = value_as_u64(object_get(item.attributes, "eta_max_minutes"@));
    match (lo, hi) {
        (None, None) => Some(None),
        (Some(a), Some(b)) => if a <= u16::MAX && b <= u16::MAX {
            Some(Some(EtaRange { earliest: a as u16, latest: b as u16 }))
        } else {
            None
        },
        _ => None,
    }
}

/// Whether an optional string is the item's text attribute `key`.
pub open spec fn text_attribute_is(item: CollectorItem, key: Seq<char>, s: Option<String>) -> bool {
    match value_as_str(object_get(item.attributes, key)) {
        Some(t) => s matches Some(v) && v@ == t,
        None => s is None,
    }
}

/// The opening propensity the ledger holds for `mmsi`: the first entry naming it.
pub open spec fn propensity_from(ledger: Seq<(String, u16)>, mmsi: Seq<char>, i: int) -> Option<u16>
    decreases ledger.len() - i,
{
    if i < 0 || i >= ledger.len() {
        None
    } else if ledger[i].0@ == mmsi {
        Some(ledger[i].1)
    } else {
        propensity_from(ledger, mmsi, i + 1)
    }
}

/// How likely a sailing rig the ledger has never seen is to need the span
/// raised, in basis points.
pub const SAILING_OPENER_PRIOR_BPS: u16 = 9000;

/// A hull's opening propensity: what the ledger holds for its MMSI, else the
/// sailing prior for a sailing rig, else none.
pub open spec fn propensity_of(item: CollectorItem, ledger: Seq<(String, u16)>) -> Option<u16> {
    let held = match value_as_str(object_get(item.attributes, "mmsi"@)) {
        Some(m) => propensity_from(ledger, m, 0),
        None => None,
    };
    if held is Some {
        held
    } else if value_as_str(object_get(item.attributes, "vessel_class"@)) == Some("sailing"@) {
        Some(SAILING_OPENER_PRIOR_BPS)
    } else {
        None
    }
}

/// Whether the item's vessel class may pass outside the legal schedule.
pub open spec fn exempt_of(item: CollectorItem) -> bool {
    match value_as_str(object_get(item.attributes, "vessel_class"@)) {
        Some(c) => c == "tug + tow"@ || c == "tug"@ || c == "pilot"@,
        None => false,
    }
}

/// Whether `r` is the bridge fact an item states: a bridge item's `relation`
/// and `state` decide it. The target bridge reports its controller (`up`
/// open, `down` closed, anything else unknown); an upstream span states no
/// fact of its own; an AIS item states its track when its movement is one of
/// the four, it says whether its route crosses the bridge, and its ETA is
/// whole (see `eta_of`), with whether its class is exempt from the schedule
/// and its opening propensity from the `ledger` of hulls by MMSI.
pub open spec fn bridge_fact_is(item: CollectorItem, ledger: Seq<(String, u16)>, r: Option<BridgeObservation>) -> bool {
    let relation = value_as_str(object_get(item.attributes, "relation"@));
    let state = value_as_str(object_get(item.attributes, "state"@));
    if item.kind != ItemKind::Bridge || relation is None || state is None {
        r is None
    } else if relation.unwrap() == "target"@ {
        r == Some(BridgeObservation::Controller {
            state: if state.unwrap() == "up"@ {
                ControllerState::Open
            } else if state.unwrap() == "down"@ {
                ControllerState::Closed
            } else {
                ControllerState::Unknown
            },
        })
    } else if relation.unwrap() == "ais"@ {
        let movement = match value_as_str(object_get(item.attributes, "movement"@)) {
            Some(t) => movement_of(t),
            None => None,
        };
        let crosses = value_as_bool(object_get(item.attributes, "route_intersects"@));
        if movement is None || eta_of(item) is None || crosses is None {
            r is None
        } else {
            r matches Some(BridgeObservation::AisTrack { mmsi, vessel_name, movement: m, route_intersects, schedule_exempt, eta, opening_propensity }) && {
                &&& text_attribute_is(item, "mmsi"@, mmsi)
                &&& text_attribute_is(item, "vessel_name"@, vessel_name)
                &&& m == movement.unwrap()
                &&& route_intersects == crosses.unwrap()
                &&& schedule_exempt == exempt_of(item)
                &&& eta == eta_of(item).unwrap()
                &&& opening_propensity == propensity_of(item, ledger)
            }
        }
    } else {
        r is None
    }
}

fn text_attribute(item: &CollectorItem, key: &str) -> (r: Option<String>)
    ensures
        text_attribute_is(*item, key@, r),
{
    match item.attributes.get_str(key) {
        Some(t) => Some(owned(t)),
        None => None,
    }
}

fn movement_from_text(text: &str) -> (r: Option<VesselMovementDto>)
    ensures
        r == movement_of(text@),
{
    if str_eq(text, "approaching") {
        Some(VesselMovementDto::Approaching)
    } else if str_eq(text, "diverging") {
        Some(VesselMovementDto::Diverging)
    } else if str_eq(text, "stationary") {
        Some(VesselMovementDto::Stationary)
    } else if str_eq(text, "unknown") {
        Some(VesselMovementDto::Unknown)
    } else {
        None
    }
}

fn item_eta(item: &CollectorItem) -> (r: Option<Option<EtaRange>>)
    ensures
        r == eta_of(*item),
{
    let lo = attribute_u64(item, "eta_min_minutes");
    let hi = attribute_u64(item, "eta_max_minutes");
    match (lo, hi) {
        (None, None) => Some(None),
        (Some(a), Some(b)) => {
            if a <= 0xffff && b <= 0xffff {
                Some(Some(EtaRange { earliest: a as u16, latest: b as u16 }))
            } else {
                None
            }
        },
        _ => None,
    }
}

fn ledger_propensity(ledger: &[(String, u16)], mmsi: &str) -> (r: Option<u16>)
    ensures
        r == propensity_from(ledger@, mmsi@, 0),
{
    let mut i: usize = 0;
    while i < ledger.len()
        invariant
            i <= ledger@.len(),
            propensity_from(ledger@, mmsi@, 0) == propensity_from(ledger@, mmsi@, i as int),
        decreases ledger@.len() - i,
    {
        if str_eq(ledger[i].0.as_str(), mmsi) {
            return Some(ledger[i].1);
        }
        i = i + 1;
    }
    None
}

fn opening_propensity(item: &CollectorItem, ledger: &[(String, u16)]) -> (r: Option<u16>)
    ensures
        r == propensity_of(*item, ledger@),
{
    let held = match item.attributes.get_str("mmsi") {
        Some(m) => ledger_propensity(ledger, m),
        None => None,
    };
    if held.is_some() {
        return held;
    }
    proof {
        reveal_strlit("sailing");
    }
    match item.attributes.get_str("vessel_class") {
        Some(c) => if str_eq(c, "sailing") { Some(SAILING_OPENER_PRIOR_BPS) } else { None },
        None => None,
    }
}

/// The bridge fact an item states, if it states one, with the `ledger` of
/// opening propensities by MMSI.
pub fn bridge_fact(item: &CollectorItem, ledger: &[(String, u16)]) -> (r: Option<BridgeObservation>)
    ensures
        bridge_fact_is(*item, ledger@, r),
{
    if item.kind != ItemKind::Bridge {
        return None;
    }
    let relation = match item.attributes.get_str("relation") {
        Some(t) => t,
        None => return None,
    };
    let state = match item.attributes.get_str("state") {
        Some(t) => t,
        None => return None,
    };
    if str_eq(relation, "target") {
        let s = if str_eq(state, "up") {
            ControllerState::Open
        } else if str_eq(state, "down") {
            ControllerState::Closed
        } else {
            ControllerState::Unknown
        };
        Some(BridgeObservation::Controller { state: s })
    } else if str_eq(relation, "ais") {
        let movement = match item.attributes.get_str("movement") {
            Some(t) => match movement_from_text(t) {
                Some(m) => m,
                None => return None,
            },
            None => return None,
        };
        let eta = match item_eta(item) {
            Some(e) => e,
            None => return None,
        };
        let route_intersects = match item.attributes.get_bool("route_intersects") {
            Some(b) => b,
            None => return None,
        };
        Some(BridgeObservation::AisTrack {
            mmsi: text_attribute(item, "mmsi"),
            vessel_name: text_attribute(item, "vessel_name"),
            movement,
            route_intersects,
            schedule_exempt: schedule_exempt(item.attributes.get_str("vessel_class")),
            eta,
            opening_propensity: opening_propensity(item, ledger),
        })
    } else {
        proof {
            reveal_strlit("target");
            reveal_strlit("ais");
        }
        None
    }
}

/// How a source stands, as the predictor grades it.
#[derive(Clone, Copy, Debug, PartialEq, Eq, Structural)]
pub enum AvailabilityStatus {
    Live,
    Degraded,
    Stale,
    Offline,
    Disabled,
}

/// The predictor's grade for a surface availability.
pub open spec fn model_status_spec(value: AvailabilityDto) -> AvailabilityStatus {
    match value {
        AvailabilityDto::Fresh => AvailabilityStatus::Live,
        AvailabilityDto::Delayed => AvailabilityStatus::Degraded,
        AvailabilityDto::Stale => AvailabilityStatus::Stale,
        AvailabilityDto::Offline => AvailabilityStatus::Offline,
    }
}

pub fn model_status(value: AvailabilityDto) -> (r: AvailabilityStatus)
    ensures
        r == model_status_spec(value),
{
    match value {
        AvailabilityDto::Fresh => AvailabilityStatus::Live,
        AvailabilityDto::Delayed => AvailabilityStatus::Degraded,
        AvailabilityDto::Stale => AvailabilityStatus::Stale,
        AvailabilityDto::Offline => AvailabilityStatus::Offline,
    }
}

/// The surface availability for a predictor grade; a disabled source shows
/// as offline.
pub open spec fn availability_of(value: AvailabilityStatus) -> AvailabilityDto {
    match value {
        AvailabilityStatus::Live => AvailabilityDto::Fresh,
        AvailabilityStatus::Degraded => AvailabilityDto::Delayed,
        AvailabilityStatus::Stale => AvailabilityDto::Stale,
        AvailabilityStatus::Offline | AvailabilityStatus::Disabled => AvailabilityDto::Offline,
    }
}

pub fn availability_dto(value: AvailabilityStatus) -> (r: AvailabilityDto)
    ensures
        r == availability_of(value),
{
    match value {
        AvailabilityStatus::Live => AvailabilityDto::Fresh,
        AvailabilityStatus::Degraded => AvailabilityDto::Delayed,
        AvailabilityStatus::Stale => AvailabilityDto::Stale,
        AvailabilityStatus::Offline | AvailabilityStatus::Disabled => AvailabilityDto::Offline,
    }
}

/// Grading a surface availability for the predictor and reading the grade
/// back gives the availability again.
pub proof fn lemma_availability_round_trip(value: AvailabilityDto)
    ensures
        availability_of(model_status_spec(value)) == value,
{
}

/// A source's standing when an observation was taken.
#[derive(Clone, Debug, PartialEq)]
pub struct ModelAvailability {
    pub status: AvailabilityStatus,
    pub checked_at_ms: i64,
    pub last_success_at_ms: Option<i64>,
    pub detail: Option<String>,
}

/// One observation handed to the predictor.
#[derive(Clone, Debug, PartialEq)]
pub struct Observation {
    pub id: String,
    pub channel_id: String,
    pub source_id: String,
    pub observed_at_ms: i64,
    pub received_at_ms: i64,
    pub expires_at_ms: Option<i64>,
    pub availability: ModelAvailability,
    pub data: BridgeObservation,
}

/// When an item was observed: its observation time, else its start, else
/// when it was received.
pub open spec fn observed_or(item: CollectorItem, received_ms: i64) -> i64 {
    match item.observed_at_ms {
        Some(t) => t,
        None => match item.starts_at_ms {
            Some(t) => t,
            None => received_ms,
        },
    }
}

/// Whether `r` is the observation an item makes for the predictor: its bridge
/// fact, identified under the source, timed by the item, and carrying the
/// availability given.
pub open spec fn normalized_observation_is(
    item: CollectorItem,
    ledger: Seq<(String, u16)>,
    channel_id: Seq<char>,
    source_id: Seq<char>,
    received_ms: i64,
    availability: ModelAvailability,
    r: Option<Observation>,
) -> bool {
    match r {
        None => bridge_fact_is(item, ledger, None),
        Some(o) => {
            &&& bridge_fact_is(item, ledger, Some(o.data))
            &&& o.id@ == source_id + ":"@ + item.id@
            &&& o.channel_id@ == channel_id
            &&& o.source_id@ == source_id
            &&& o.observed_at_ms == observed_or(item, received_ms)
            &&& o.received_at_ms == received_ms
            &&& o.expires_at_ms == item.ends_at_ms
            &&& o.availability == availability
        },
    }
}

pub fn normalized_bridge_observation(
    item: &CollectorItem,
    ledger: &[(String, u16)],
    channel_id: &str,
    source_id: &str,
    received_ms: i64,
    availability: ModelAvailability,
) -> (r: Option<Observation>)
    ensures
        normalized_observation_is(*item, ledger@, channel_id@, source_id@, received_ms, availability, r),
{
    let observed_ms = match item.observed_at_ms {
        Some(t) => t,
        None => match item.starts_at_ms {
            Some(t) => t,
            None => received_ms,
        },
    };
    let data = match bridge_fact(item, ledger) {
        Some(d) => d,
        None => return None,
    };
    let prefix = concat(source_id, ":");
    proof {
        reveal_strlit(":");
    }
    Some(Observation {
        id: concat(prefix.as_str(), item.id.as_str()),
        channel_id: owned(channel_id),
        source_id: owned(source_id),
        observed_at_ms: observed_ms,
        received_at_ms: received_ms,
        expires_at_ms: item.ends_at_ms,
        availability,
        data,
    })
}

/// How the predictor used one contribution.
#[derive(Clone, Copy, Debug, PartialEq, Eq, Structural)]
pub enum ContributionDisposition {
    Applied,
    Authoritative,
    /// Considered and set aside.
    NotApplied,
}

/// What kind of evidence a contribution was.
#[derive(Clone, Copy, Debug, PartialEq, Eq, Structural)]
pub enum EvidenceKind {
    /// One source agreeing with another.
    Corroboration,
    Direct,
}

/// One line of the predictor's working.
#[derive(Clone, Debug, PartialEq)]
pub struct Contribution {
    pub label: String,
    pub observation_id: Option<String>,
    pub kind: EvidenceKind,
    pub disposition: ContributionDisposition,
    /// The score it applied, in basis points.
    pub applied_bps: i32,
}

/// What the predictor says at one instant.
#[derive(Clone, Debug, PartialEq)]
pub struct Prediction {
    pub state: BridgeStateDto,
    pub eta: Option<EtaRange>,
    pub confidence_bps: u16,
    pub contributions: Vec<Contribution>,
    pub availability: ModelAvailability,
    pub evaluated_at_ms: i64,
    pub next_ordinary_opening_at_ms: Option<i64>,
    pub ordinary_opening_allowed: bool,
}

pub open spec fn counts_toward_basis(c: Contribution) -> bool {
    c.disposition == ContributionDisposition::Applied || c.disposition == ContributionDisposition::Authoritative
}

/// The labels of the contributions the predictor applied, in order.
pub open spec fn applied_labels(cs: Seq<Contribution>) -> Seq<Seq<char>>
    decreases cs.len(),
{
    if cs.len() == 0 {
        Seq::empty()
    } else {
        applied_labels(cs.drop_last()) + if counts_toward_basis(cs.last()) {
            seq![cs.last().label@]
        } else {
            Seq::empty()
        }
    }
}

/// The texts, separated by `sep`.
pub open spec fn joined(texts: Seq<Seq<char>>, sep: Seq<char>) -> Seq<char>
    decreases texts.len(),
{
    if texts.len() == 0 {
        Seq::empty()
    } else if texts.len() == 1 {
        texts[0]
    } else {
        joined(texts.drop_last(), sep) + sep + texts.last()
    }
}

/// What the confidence rests on: up to three applied contributions, or the
/// legal schedule alone.
pub open spec fn basis_text(cs: Seq<Contribution>) -> Seq<char> {
    let labels = applied_labels(cs);
    if labels.len() == 0 {
        "Legal schedule only; no predictive source observations."@
    } else {
        joined(first_three(labels), " · "@)
    }
}

/// The first three texts, or all of them when there are fewer.
pub open spec fn first_three(s: Seq<Seq<char>>) -> Seq<Seq<char>> {
    if s.len() <= 3 { s } else { s.take(3) }
}

fn confidence_basis(cs: &Vec<Contribution>) -> (r: String)
    ensures
        r@ == basis_text(cs@),
{
    let mut labels: Vec<&String> = Vec::new();
    let mut i: usize = 0;
    while i < cs.len()
        invariant
            i <= cs@.len(),
            labels@.len() == if applied_labels(cs@.take(i as int)).len() < 3 { applied_labels(cs@.take(i as int)).len() } else { 3 },
            forall|k: int| 0 <= k < labels@.len() ==> (#[trigger] labels@[k])@ == applied_labels(cs@.take(i as int))[k],
        decreases cs@.len() - i,
    {
        proof {
            assert(cs@.take(i as int + 1).drop_last() =~= cs@.take(i as int));
        }
        let c = &cs[i];
        if labels.len() < 3 && (c.disposition == ContributionDisposition::Applied || c.disposition == ContributionDisposition::Authoritative) {
            labels.push(&c.label);
        }
        i = i + 1;
    }
    let ghost chosen = first_three(applied_labels(cs@));
    proof {
        assert(cs@.take(cs@.len() as int) =~= cs@);
        assert(applied_labels(cs@.take(i as int)) == applied_labels(cs@));
        assert(labels@.len() == chosen.len());
        assert forall|m: int| 0 <= m < labels@.len() implies (#[trigger] labels@[m])@ == chosen[m] by {
            assert(chosen[m] == applied_labels(cs@)[m]);
        }
    }
    if labels.len() == 0 {
        return owned("Legal schedule only; no predictive source observations.");
    }
    let mut out = String::new();
    let mut k: usize = 0;
    while k < labels.len()
        invariant
            k <= labels@.len(),
            labels@.len() == chosen.len(),
            forall|m: int| 0 <= m < labels@.len() ==> (#[trigger] labels@[m])@ == chosen[m],
            out@ == joined(chosen.take(k as int), " · "@),
        decreases labels@.len() - k,
    {
        proof {
            assert(chosen.take(k as int + 1).drop_last() =~= chosen.take(k as int));
        }
        if k > 0 {
            out = concat(out.as_str(), " · ");
        }
        out = concat(out.as_str(), labels[k].as_str());
        k = k + 1;
        proof {
            if k == 1 {
                assert(Seq::<char>::empty() + chosen.take(1)[0] =~= chosen.take(1)[0]);
            }
        }
    }
    proof {
        assert(chosen.take(chosen.len() as int) =~= chosen);
    }
    out
}

/// What a decision tells the reader to expect: while the road is open and a
/// vessel is still far off, when alerts begin; otherwise the state's action.
pub open spec fn decision_action_spec(state: BridgeStateDto, eta: Option<EtaRange>) -> Seq<char> {
    if state == BridgeStateDto::Clear && eta is Some {
        "Alerts begin at T-30."@
    } else {
        decision_copy_spec(state).2
    }
}

/// Whether `d` is the decision a prediction makes, with `slot` the local text
/// of its next ordinary opening.
pub open spec fn decision_is(p: Prediction, slot: Option<String>, d: DecisionSnapshot) -> bool {
    &&& d.channel_id@ == "bridge.brickell"@
    &&& d.subject@ == "Brickell Avenue"@
    &&& d.state == p.state
    &&& d.state_label@ == decision_copy_spec(p.state).0
    &&& d.meaning@ == decision_copy_spec(p.state).1
    &&& d.action@ == decision_action_spec(p.state, p.eta)
    &&& d.eta_min == (match p.eta { Some(e) => Some(e.earliest), None => None })
    &&& d.eta_max == (match p.eta { Some(e) => Some(e.latest), None => None })
    &&& d.confidence_bps == Some(p.confidence_bps)
    &&& d.confidence_label matches Some(l) && l@ == confidence_label_spec(p.confidence_bps)
    &&& d.confidence_basis matches Some(b) && b@ == basis_text(p.contributions@)
    &&& d.next_legal_slot == slot
    &&& d.opening_allowed_now == p.ordinary_opening_allowed
    &&& d.availability == availability_of(p.availability.status)
    &&& d.source_age_seconds == match p.availability.last_success_at_ms {
            Some(t) => age_seconds_spec(t, p.evaluated_at_ms),
            None => 0,
        }
}

/// The decision a surface shows for a prediction. The next ordinary opening
/// is told on the local clock of `local_time_zone`; when it cannot be told
/// there, the decision fails with a time error.
pub fn decision_snapshot(prediction: &Prediction, local_time_zone: &str) -> (r: Result<DecisionSnapshot, RuntimeError>)
    ensures
        match r {
            Ok(d) => match prediction.next_ordinary_opening_at_ms {
                None => decision_is(*prediction, None, d),
                Some(t) => renders(t) && (d.next_legal_slot matches Some(s) && decision_is(*prediction, Some(s), d)
                    && exists|h: int, m: int| 0 <= h < 24 && 0 <= m < 60 && s@ == #[trigger] slot_text(h, m)),
            },
            Err(e) => e is Time && prediction.next_ordinary_opening_at_ms is Some,
        },
        prediction.next_ordinary_opening_at_ms is None ==> r is Ok,
        (match prediction.next_ordinary_opening_at_ms { Some(t) => !renders(t), None => false }) ==> r is Err,
{
    let next_legal_slot = match prediction.next_ordinary_opening_at_ms {
        None => None,
        Some(t) => match format_local_slot(t, local_time_zone) {
            Ok(s) => Some(s),
            Err(e) => return Err(e),
        },
    };
    let (state_label, meaning, copy_action) = decision_copy(prediction.state);
    let action = if prediction.state == BridgeStateDto::Clear && prediction.eta.is_some() {
        "Alerts begin at T-30."
    } else {
        copy_action
    };
    let source_age_seconds = match prediction.availability.last_success_at_ms {
        Some(t) => age_seconds_at(t, prediction.evaluated_at_ms),
        None => 0,
    };
    let (eta_min, eta_max) = match prediction.eta {
        Some(e) => (Some(e.earliest), Some(e.latest)),
        None => (None, None),
    };
    proof {
        reveal_strlit("bridge.brickell");
        reveal_strlit("Brickell Avenue");
        reveal_strlit("Alerts begin at T-30.");
    }
    Ok(DecisionSnapshot {
        channel_id: owned("bridge.brickell"),
        subject: owned("Brickell Avenue"),
        state: prediction.state,
        state_label: owned(state_label),
        meaning: owned(meaning),
        action: owned(action),
        eta_min,
        eta_max,
        confidence_bps: Some(prediction.confidence_bps),
        confidence_label: Some(owned(confidence_label(prediction.confidence_bps))),
        confidence_basis: Some(confidence_basis(&prediction.contributions)),
        next_legal_slot,
        opening_allowed_now: prediction.ordinary_opening_allowed,
        availability: availability_dto(prediction.availability.status),
        source_age_seconds,
    })
}

/// A vessel working downriver, as plain values: the upstream span's key and
/// name, how close the vessel is, and when the span opened.
pub type OutboundView = (Seq<char>, Seq<char>, OutboundProgressStage, i64);

pub open spec fn progress_view(p: DetectedOutboundProgress) -> OutboundView {
    (p.bridge_key@, p.bridge_name@, p.stage, p.occurred_at_ms)
}

/// What a source's transitions say of a vessel working downriver at `now`:
/// the later opening of the chosen pair, unless the target has opened since.
pub open spec fn outbound_of(transitions: Seq<BridgeStateTransition>, now: i64) -> Option<OutboundView> {
    let ts = tviews(transitions);
    let o = outbound_openings(ts, now);
    if exists|a: int, b: int| chosen_pair(o, a, b) {
        let (a, b) = choose|a: int, b: int| chosen_pair(o, a, b);
        if target_opened(ts, saturating_sub_spec(o[a].0.5, OUTBOUND_WINDOW_MS), now) {
            None
        } else {
            Some((o[b].0.0, o[b].0.1, if o[b].1 == 1 { OutboundProgressStage::VeryHigh } else { OutboundProgressStage::High }, o[b].0.5))
        }
    } else {
        None
    }
}

proof fn lemma_chosen_pair_unique(o: Seq<(TransitionView, u8)>, a: int, b: int, a2: int, b2: int)
    requires
        chosen_pair(o, a, b),
        chosen_pair(o, a2, b2),
    ensures
        a == a2,
        b == b2,
{
}

fn outbound_progress(transitions: &[BridgeStateTransition], now_ms: i64) -> (r: Option<DetectedOutboundProgress>)
    ensures
        match r {
            Some(p) => outbound_of(transitions@, now_ms) == Some(progress_view(p)),
            None => outbound_of(transitions@, now_ms) is None,
        },
{
    let r = detect_outbound_progress(transitions, now_ms);
    proof {
        let ts = tviews(transitions@);
        let o = outbound_openings(ts, now_ms);
        if exists|a: int, b: int| chosen_pair(o, a, b) {
            let (a, b) = choose|a: int, b: int| chosen_pair(o, a, b);
            if r is Some {
                let p = r->Some_0;
                let (a2, b2) = choose|a2: int, b2: int| {
                    &&& chosen_pair(o, a2, b2)
                    &&& !target_opened(ts, saturating_sub_spec(o[a2].0.5, OUTBOUND_WINDOW_MS), now_ms)
                    &&& p.bridge_key@ == o[b2].0.0
                    &&& p.bridge_name@ == o[b2].0.1
                    &&& p.occurred_at_ms == o[b2].0.5
                    &&& p.stage == if o[b2].1 == 1 { OutboundProgressStage::VeryHigh } else { OutboundProgressStage::High }
                };
                lemma_chosen_pair_unique(o, a, b, a2, b2);
            } else {
                if !(forall|x: int, y: int| !downriver_pair(o, x, y)) {
                    let (a2, b2) = choose|a2: int, b2: int|
                        chosen_pair(o, a2, b2) && target_opened(ts, saturating_sub_spec(o[a2].0.5, OUTBOUND_WINDOW_MS), now_ms);
                    lemma_chosen_pair_unique(o, a, b, a2, b2);
                }
            }
        }
    }
    r
}

/// `n` written in decimal, with a leading minus sign when negative.
pub open spec fn signed_digits(n: i64) -> Seq<char> {
    if n < 0 {
        "-"@ + decimal_digits((-(n as int)) as nat)
    } else {
        decimal_digits(n as nat)
    }
}

fn i64_to_decimal(n: i64) -> (s: String)
    ensures
        s@ == signed_digits(n),
{
    if n < 0 {
        let m = (-(n as i128)) as u64;
        let digits = u64_to_decimal(m);
        proof {
            reveal_strlit("-");
        }
        concat("-", digits.as_str())
    } else {
        u64_to_decimal(n as u64)
    }
}

/// An observation and the confidence the predictor gives it.
#[derive(Clone, Debug, PartialEq)]
pub struct BridgeEvidence {
    pub observation: Observation,
    pub confidence_bps: u16,
}

/// One bridge item as a surface's evidence strip reads it: the item, the
/// source it came from, when it was observed, how current it is, and the
/// evidence it gave the predictor, if any.
#[derive(Debug)]
pub struct BridgeEvidenceView<'a> {
    pub evidence: Option<BridgeEvidence>,
    pub item: &'a CollectorItem,
    pub source_id: String,
    pub observed_ms: i64,
    pub availability: AvailabilityDto,
}

/// The confidence the predictor gives a fact from an item with `relation`.
pub open spec fn relation_confidence(relation: Seq<char>) -> u16 {
    if relation == "target"@ {
        9900
    } else if relation == "ais"@ {
        8500
    } else if relation == "upstream"@ {
        10000
    } else {
        0
    }
}


/// When a bridge item was observed: its own time, else the source's last
/// success, else now.
pub open spec fn item_observed_ms(item: CollectorItem, s: SourceState, now: i64) -> i64 {
    match item.observed_at_ms {
        Some(t) => t,
        None => match s.last_success_ms {
            Some(t) => t,
            None => now,
        },
    }
}

/// How current a bridge item is: its source's availability, except that an
/// item past its age or end is stale while its source is usable.
pub open spec fn item_availability(item: CollectorItem, c: ChannelPreference, s: SourceState, now: i64) -> AvailabilityDto {
    let a = source_availability_spec(s, c, now).0;
    if !bridge_item_current_spec(item, c, item_observed_ms(item, s, now), now)
        && (a == AvailabilityDto::Fresh || a == AvailabilityDto::Delayed) {
        AvailabilityDto::Stale
    } else {
        a
    }
}

/// The standing the predictor is told for an item.
pub open spec fn item_model_availability(item: CollectorItem, c: ChannelPreference, s: SourceState, now: i64) -> ModelAvailability {
    ModelAvailability {
        status: model_status_spec(item_availability(item, c, s, now)),
        checked_at_ms: now,
        last_success_at_ms: s.last_success_ms,
        detail: match s.last_error {
            Some(e) => Some(e),
            None => s.health_message,
        },
    }
}

/// The item's relation to the target bridge, `unknown` when it names none.
pub open spec fn relation_of(item: CollectorItem) -> Seq<char> {
    match value_as_str(object_get(item.attributes, "relation"@)) {
        Some(r) => r,
        None => "unknown"@,
    }
}

/// Whether `e` is the evidence an upstream span gives: the vessel working
/// downriver, when the span is the one it last passed.
pub open spec fn upstream_evidence_is(item: CollectorItem, c: ChannelPreference, source_id: Seq<char>, s: SourceState, now: i64, e: Option<BridgeEvidence>) -> bool {
    let selector = value_as_str(object_get(item.attributes, "selector_key"@));
    match outbound_of(s.bridge_transitions@, now) {
        Some(p) if selector == Some(p.0) => e matches Some(ev) && {
            &&& ev.confidence_bps == 10000
            &&& ev.observation.id@ == source_id + ":outbound:"@ + signed_digits(p.3)
            &&& ev.observation.channel_id@ == c.id@
            &&& ev.observation.source_id@ == source_id
            &&& ev.observation.observed_at_ms == p.3
            &&& ev.observation.received_at_ms == now
            &&& ev.observation.expires_at_ms is None
            &&& ev.observation.availability == item_model_availability(item, c, s, now)
            &&& ev.observation.data matches BridgeObservation::OutboundProgress { bridge, stage, eta } && {
                &&& bridge@ == p.1
                &&& stage == p.2
                &&& eta == match outbound_eta_spec(p.0) {
                        Some((lo, hi)) => Some(EtaRange { earliest: lo, latest: hi }),
                        None => None,
                    }
            }
        },
        _ => e is None,
    }
}

/// Whether `v` is the evidence view of a bridge item from source `source_id`
/// (holding `s`) on channel `c` at `now`.
pub open spec fn item_view_is(item: CollectorItem, c: ChannelPreference, source_id: Seq<char>, s: SourceState, ledger: Seq<(String, u16)>, now: i64, v: BridgeEvidenceView) -> bool {
    let observed = item_observed_ms(item, s, now);
    let relation = relation_of(item);
    &&& *v.item == item
    &&& v.source_id@ == source_id
    &&& v.availability == item_availability(item, c, s, now)
    &&& if relation == "upstream"@ {
        upstream_evidence_is(item, c, source_id, s, now, v.evidence)
    } else {
        match v.evidence {
            None => normalized_observation_is(item, ledger, c.id@, source_id, observed, item_model_availability(item, c, s, now), None),
            Some(ev) => normalized_observation_is(item, ledger, c.id@, source_id, observed, item_model_availability(item, c, s, now), Some(ev.observation))
                && ev.confidence_bps == relation_confidence(relation),
        }
    }
    &&& v.observed_ms == match v.evidence {
        Some(ev) => ev.observation.observed_at_ms,
        None => observed,
    }
}

fn copy_text(t: &Option<String>) -> (r: Option<String>)
    ensures
        r == *t,
{
    match t {
        Some(s) => Some(s.clone()),
        None => None,
    }
}

fn item_evidence<'a>(
    channel: &ChannelPreference,
    source_id: &str,
    source: &SourceState,
    ledger: &[(String, u16)],
    outbound: &Option<DetectedOutboundProgress>,
    availability: AvailabilityDto,
    item: &'a CollectorItem,
    now_ms: i64,
) -> (v: BridgeEvidenceView<'a>)
    requires
        availability == source_availability_spec(*source, *channel, now_ms).0,
        match *outbound {
            Some(p) => outbound_of(source.bridge_transitions@, now_ms) == Some(progress_view(p)),
            None => outbound_of(source.bridge_transitions@, now_ms) is None,
        },
    ensures
        item_view_is(*item, *channel, source_id@, *source, ledger@, now_ms, v),
{
    let observed_ms = match item.observed_at_ms {
        Some(t) => t,
        None => match source.last_success_ms {
            Some(t) => t,
            None => now_ms,
        },
    };
    let item_av = if !bridge_item_is_current(item, channel, observed_ms, now_ms)
        && (availability == AvailabilityDto::Fresh || availability == AvailabilityDto::Delayed) {
        AvailabilityDto::Stale
    } else {
        availability
    };
    let detail = match &source.last_error {
        Some(e) => Some(e.clone()),
        None => copy_text(&source.health_message),
    };
    let model_availability = ModelAvailability {
        status: model_status(item_av),
        checked_at_ms: now_ms,
        last_success_at_ms: source.last_success_ms,
        detail,
    };
    let relation = match item.attributes.get_str("relation") {
        Some(r) => r,
        None => "unknown",
    };
    proof {
        reveal_strlit("unknown");
        reveal_strlit("upstream");
        reveal_strlit("target");
        reveal_strlit("ais");
        reveal_strlit(":outbound:");
    }
    let evidence = if str_eq(relation, "upstream") {
        let selector = item.attributes.get_str("selector_key");
        match outbound {
            Some(p) => {
                let matches = match selector {
                    Some(k) => str_eq(k, p.bridge_key.as_str()),
                    None => false,
                };
                if matches {
                    let prefix = concat(source_id, ":outbound:");
                    let when = i64_to_decimal(p.occurred_at_ms);
                    let eta = match outbound_eta(p.bridge_key.as_str()) {
                        Some((lo, hi)) => Some(EtaRange { earliest: lo, latest: hi }),
                        None => None,
                    };
                    Some(BridgeEvidence {
                        observation: Observation {
                            id: concat(prefix.as_str(), when.as_str()),
                            channel_id: channel.id.clone(),
                            source_id: owned(source_id),
                            observed_at_ms: p.occurred_at_ms,
                            received_at_ms: now_ms,
                            expires_at_ms: None,
                            availability: model_availability,
                            data: BridgeObservation::OutboundProgress {
                                bridge: p.bridge_name.clone(),
                                stage: p.stage,
                                eta,
                            },
                        },
                        confidence_bps: 10000,
                    })
                } else {
                    None
                }
            },
            None => None,
        }
    } else {
        let confidence: u16 = if str_eq(relation, "target") {
            9900
        } else if str_eq(relation, "ais") {
            8500
        } else {
            0
        };
        match normalized_bridge_observation(item, ledger, channel.id.as_str(), source_id, observed_ms, model_availability) {
            Some(o) => Some(BridgeEvidence { observation: o, confidence_bps: confidence }),
            None => None,
        }
    };
    let view_observed_ms = match &evidence {
        Some(ev) => ev.observation.observed_at_ms,
        None => observed_ms,
    };
    BridgeEvidenceView {
        evidence,
        item,
        source_id: owned(source_id),
        observed_ms: view_observed_ms,
        availability: item_av,
    }
}

/// The first bridge channel at or after `i`.
pub open spec fn bridge_channel_from(channels: Seq<ChannelPreference>, i: int) -> Option<ChannelPreference>
    decreases channels.len() - i,
{
    if i < 0 || i >= channels.len() {
        None
    } else if channels[i].kind == ChannelKindDto::Bridge {
        Some(channels[i])
    } else {
        bridge_channel_from(channels, i + 1)
    }
}

/// Whether active source `k` feeds the bridge channel from Florida 511 or
/// AISStream and has state kept for it.
pub open spec fn evidence_source(c: ChannelPreference, sources: Seq<SourceEntry>, active: Seq<(String, String)>, k: int) -> bool {
    &&& active[k].1@ == c.id@
    &&& (has_prefix(active[k].0@, "fl511."@) || has_prefix(active[k].0@, "aisstream."@))
    &&& source_named(sources, active[k].0@) is Some
}

/// The bridge items of `items` among the first `m`, as (source, item) positions.
pub open spec fn bridge_item_slots(k: int, items: Seq<CollectorItem>, m: int) -> Seq<(int, int)>
    decreases m,
{
    if m <= 0 {
        Seq::empty()
    } else {
        bridge_item_slots(k, items, m - 1) + if items[m - 1].kind == ItemKind::Bridge {
            seq![(k, m - 1)]
        } else {
            Seq::empty()
        }
    }
}

/// The bridge items behind the first `k` active sources, in order.
pub open spec fn evidence_slots(c: ChannelPreference, sources: Seq<SourceEntry>, active: Seq<(String, String)>, k: int) -> Seq<(int, int)>
    decreases k,
{
    if k <= 0 {
        Seq::empty()
    } else {
        evidence_slots(c, sources, active, k - 1) + if evidence_source(c, sources, active, k - 1) {
            let s = source_named(sources, active[k - 1].0@).unwrap();
            bridge_item_slots(k - 1, s.items@, s.items@.len() as int)
        } else {
            Seq::empty()
        }
    }
}

/// Whether `v` is the view of the item at `slot`.
pub open spec fn slot_view_is(c: ChannelPreference, sources: Seq<SourceEntry>, active: Seq<(String, String)>, ledger: Seq<(String, u16)>, now: i64, slot: (int, int), v: BridgeEvidenceView) -> bool {
    let id = active[slot.0].0@;
    let s = source_named(sources, id).unwrap();
    item_view_is(s.items@[slot.1], c, id, s, ledger, now, v)
}

/// The bridge channel's evidence: for each active Florida 511 or AISStream
/// source of the first bridge channel, in order, and each bridge item it
/// holds, in order, the item's view and the evidence it gives the predictor,
/// with hulls' opening propensities from the `ledger`. With no bridge channel
/// there is none.
pub fn bridge_evidence<'a>(
    channels: &[ChannelPreference],
    sources: &'a [SourceEntry],
    active_sources: &[(String, String)],
    ledger: &[(String, u16)],
    now_ms: i64,
) -> (r: Vec<BridgeEvidenceView<'a>>)
    ensures
        match bridge_channel_from(channels@, 0) {
            None => r@.len() == 0,
            Some(c) => {
                let slots = evidence_slots(c, sources@, active_sources@, active_sources@.len() as int);
                &&& r@.len() == slots.len()
                &&& forall|n: int| 0 <= n < slots.len() ==> slot_view_is(c, sources@, active_sources@, ledger@, now_ms, slots[n], #[trigger] r@[n])
            },
        },
{
    let mut ci: usize = 0;
    while ci < channels.len() && channels[ci].kind != ChannelKindDto::Bridge
        invariant
            ci <= channels@.len(),
            bridge_channel_from(channels@, 0) == bridge_channel_from(channels@, ci as int),
        decreases channels@.len() - ci,
    {
        ci = ci + 1;
    }
    if ci == channels.len() {
        return Vec::new();
    }
    let channel = &channels[ci];
    let ghost c = *channel;
    let mut out: Vec<BridgeEvidenceView<'a>> = Vec::new();
    let mut k: usize = 0;
    proof {
        reveal_strlit("fl511.");
        reveal_strlit("aisstream.");
    }
    while k < active_sources.len()
        invariant
            k <= active_sources@.len(),
            c == *channel,
            out@.len() == evidence_slots(c, sources@, active_sources@, k as int).len(),
            forall|n: int| 0 <= n < out@.len() ==>
                slot_view_is(c, sources@, active_sources@, ledger@, now_ms, evidence_slots(c, sources@, active_sources@, k as int)[n], #[trigger] out@[n]),
        decreases active_sources@.len() - k,
    {
        let ghost before = out@;
        let ghost prior = evidence_slots(c, sources@, active_sources@, k as int);
        let (source_id, source_channel) = (&active_sources[k].0, &active_sources[k].1);
        let qualifies = str_eq(source_channel.as_str(), channel.id.as_str())
            && (starts_with(source_id.as_str(), "fl511.") || starts_with(source_id.as_str(), "aisstream."));
        if qualifies {
            match find_source(sources, source_id.as_str()) {
                Some(source) => {
                    let outbound = outbound_progress(source.bridge_transitions.as_slice(), now_ms);
                    let (availability, _) = source_availability(source, channel, now_ms);
                    let ghost here = bridge_item_slots(k as int, source.items@, source.items@.len() as int);
                    let mut m: usize = 0;
                    while m < source.items.len()
                        invariant
                            k < active_sources@.len(),
                            m <= source.items@.len(),
                            c == *channel,
                            source_named(sources@, active_sources@[k as int].0@) == Some(*source),
                            *source_id == active_sources@[k as int].0,
                            availability == source_availability_spec(*source, *channel, now_ms).0,
                            match outbound {
                                Some(p) => outbound_of(source.bridge_transitions@, now_ms) == Some(progress_view(p)),
                                None => outbound_of(source.bridge_transitions@, now_ms) is None,
                            },
                            prior == evidence_slots(c, sources@, active_sources@, k as int),
                            out@.len() == prior.len() + bridge_item_slots(k as int, source.items@, m as int).len(),
                            forall|n: int| 0 <= n < out@.len() ==>
                                slot_view_is(c, sources@, active_sources@, ledger@, now_ms,
                                    (prior + bridge_item_slots(k as int, source.items@, m as int))[n], #[trigger] out@[n]),
                        decreases source.items@.len() - m,
                    {
                        let ghost before_m = out@;
                        let item = &source.items[m];
                        if item.kind == ItemKind::Bridge {
                            let view = item_evidence(channel, source_id.as_str(), source, ledger, &outbound, availability, item, now_ms);
                            out.push(view);
                        }
                        proof {
                            let next = prior + bridge_item_slots(k as int, source.items@, m + 1);
                            assert forall|n: int| 0 <= n < out@.len() implies
                                slot_view_is(c, sources@, active_sources@, ledger@, now_ms, next[n], #[trigger] out@[n]) by {
                                if n < before_m.len() {
                                    assert(out@[n] == before_m[n]);
                                    assert(next[n] == (prior + bridge_item_slots(k as int, source.items@, m as int))[n]);
                                } else {
                                    assert(next[n] == (k as int, m as int));
                                }
                            }
                        }
                        m = m + 1;
                    }
                    proof {
                        assert(evidence_slots(c, sources@, active_sources@, k + 1) =~= prior + here);
                    }
                },
                None => {
                    proof {
                        assert(evidence_slots(c, sources@, active_sources@, k + 1) =~= prior);
                    }
                },
            }
        } else {
            proof {
                assert(evidence_slots(c, sources@, active_sources@, k + 1) =~= prior);
            }
        }
        k = k + 1;
    }
    out
}

/// Every view's evidence, in order.
pub open spec fn evidence_seq(views: Seq<BridgeEvidenceView>) -> Seq<BridgeEvidence>
    decreases views.len(),
{
    if views.len() == 0 {
        Seq::empty()
    } else {
        evidence_seq(views.drop_last()) + match views.last().evidence {
            Some(e) => seq![e],
            None => Seq::empty(),
        }
    }
}

/// The evidence the predictor takes: every view's evidence, in order.
pub fn evidence_list<'a, 'b>(views: &'b Vec<BridgeEvidenceView<'a>>) -> (r: Vec<&'b BridgeEvidence>)
    ensures
        r@.len() == evidence_seq(views@).len(),
        forall|n: int| 0 <= n < r@.len() ==> *(#[trigger] r@[n]) == evidence_seq(views@)[n],
{
    let mut out: Vec<&'b BridgeEvidence> = Vec::new();
    let mut i: usize = 0;
    while i < views.len()
        invariant
            i <= views@.len(),
            out@.len() == evidence_seq(views@.take(i as int)).len(),
            forall|n: int| 0 <= n < out@.len() ==> *(#[trigger] out@[n]) == evidence_seq(views@.take(i as int))[n],
        decreases views@.len() - i,
    {
        proof {
            assert(views@.take(i as int + 1).drop_last() =~= views@.take(i as int));
        }
        match &views[i].evidence {
            Some(e) => {
                out.push(e);
            },
            None => {},
        }
        i = i + 1;
    }
    proof {
        assert(views@.take(views@.len() as int) =~= views@);
    }
    out
}

/// The contribution the predictor made of observation `id`: the last one
/// naming it.
pub open spec fn contribution_for(cs: Seq<Contribution>, id: Seq<char>) -> Option<Contribution>
    decreases cs.len(),
{
    if cs.len() == 0 {
        None
    } else if cs.last().observation_id matches Some(o) && o@ == id {
        Some(cs.last())
    } else {
        contribution_for(cs.drop_last(), id)
    }
}

/// Whether the predictor applied a corroboration.
pub open spec fn corroborated_spec(cs: Seq<Contribution>) -> bool {
    exists|i: int| 0 <= i < cs.len() && (#[trigger] cs[i]).kind == EvidenceKind::Corroboration
        && cs[i].disposition == ContributionDisposition::Applied
}

/// What the item's text attribute `key` says, or `fallback`.
pub open spec fn text_or(item: CollectorItem, key: Seq<char>, fallback: Seq<char>) -> Seq<char> {
    match value_as_str(object_get(item.attributes, key)) {
        Some(t) => t,
        None => fallback,
    }
}

/// The strip's detail: for a vessel, its measured detail when there is one;
/// otherwise the item's summary, or what it reports in words.
pub open spec fn strip_detail(item: CollectorItem, ais_detail: Option<String>) -> Seq<char> {
    let relation = text_or(item, "relation"@, "bridge"@);
    let state = text_or(item, "state"@, "unknown"@);
    if relation == "ais"@ {
        match ais_detail {
            Some(d) => d@,
            None => match item.summary {
                Some(s) => s@,
                None => "AIS vessel position received"@,
            },
        }
    } else {
        match item.summary {
            Some(s) => s@,
            None => relation + " bridge status is "@ + state,
        }
    }
}

/// Whether `s` is the evidence strip of view `v`.
pub open spec fn strip_is(v: BridgeEvidenceView, ais_detail: Option<String>, p: Prediction, now: i64, s: EvidenceStrip) -> bool {
    let item = *v.item;
    let relation = text_or(item, "relation"@, "bridge"@);
    let state = text_or(item, "state"@, "unknown"@);
    let contribution = match v.evidence {
        Some(e) => contribution_for(p.contributions@, e.observation.id@),
        None => None,
    };
    &&& s.id@ == match v.evidence { Some(e) => e.observation.id@, None => item.id@ }
    &&& s.channel_id@ == "bridge.brickell"@
    &&& s.source_label@ == if has_prefix(v.source_id@, "aisstream."@) { "AISStream"@ } else { "Florida 511"@ }
    &&& s.source_id@ == v.source_id@
    &&& s.title@ == item.title@
    &&& s.detail@ == strip_detail(item, ais_detail)
    &&& rfc3339_of_millis(v.observed_ms) == Ok::<Seq<char>, Seq<char>>(s.observed_at@)
    &&& s.age_seconds == age_seconds_spec(v.observed_ms, now)
    &&& s.availability == v.availability
    &&& s.contribution_bps == match contribution { Some(c) => Some(c.applied_bps), None => None }
    &&& s.state == match v.availability {
            AvailabilityDto::Stale | AvailabilityDto::Offline => EvidenceStateDto::Stale,
            AvailabilityDto::Delayed => EvidenceStateDto::Pending,
            AvailabilityDto::Fresh => if relation == "upstream"@ && state != "up"@ {
                EvidenceStateDto::Pending
            } else {
                EvidenceStateDto::Live
            },
        }
    &&& s.corroborated == if corroborated_spec(p.contributions@) { Some(true) } else { None }
    &&& s.interrupt == if relation == "target"@ && state == "up"@ { Some(true) } else { None }
}

fn find_contribution<'c>(cs: &'c Vec<Contribution>, id: &str) -> (r: Option<&'c Contribution>)
    ensures
        match r {
            Some(c) => contribution_for(cs@, id@) == Some(*c),
            None => contribution_for(cs@, id@) is None,
        },
{
    let mut i: usize = cs.len();
    proof {
        assert(cs@.take(i as int) =~= cs@);
    }
    while i > 0
        invariant
            i <= cs@.len(),
            contribution_for(cs@, id@) == contribution_for(cs@.take(i as int), id@),
        decreases i,
    {
        proof {
            assert(cs@.take(i as int).drop_last() =~= cs@.take(i as int - 1));
            assert(cs@.take(i as int).last() == cs@[i as int - 1]);
        }
        let found = match &cs[i - 1].observation_id {
            Some(o) => str_eq(o.as_str(), id),
            None => false,
        };
        if found {
            return Some(&cs[i - 1]);
        }
        i = i - 1;
    }
    None
}

fn any_corroboration(cs: &Vec<Contribution>) -> (r: bool)
    ensures
        r == corroborated_spec(cs@),
{
    let mut i: usize = 0;
    while i < cs.len()
        invariant
            i <= cs@.len(),
            forall|j: int| 0 <= j < i ==> !((#[trigger] cs@[j]).kind == EvidenceKind::Corroboration
                && cs@[j].disposition == ContributionDisposition::Applied),
        decreases cs@.len() - i,
    {
        if cs[i].kind == EvidenceKind::Corroboration && cs[i].disposition == ContributionDisposition::Applied {
            return true;
        }
        i = i + 1;
    }
    false
}

fn text_attribute_or<'b>(item: &'b CollectorItem, key: &str, fallback: &'b str) -> (r: &'b str)
    ensures
        r@ == text_or(*item, key@, fallback@),
{
    match item.attributes.get_str(key) {
        Some(t) => t,
        None => fallback,
    }
}

fn evidence_strip(view: &BridgeEvidenceView, ais_detail: &Option<String>, prediction: &Prediction, corroborated: bool, now_ms: i64) -> (r: Result<EvidenceStrip, RuntimeError>)
    requires
        corroborated == corroborated_spec(prediction.contributions@),
    ensures
        r is Ok <==> renders(view.observed_ms),
        r is Ok ==> strip_is(*view, *ais_detail, *prediction, now_ms, r->Ok_0),
        r is Err ==> r->Err_0 is Time,
{
    let item = view.item;
    proof {
        reveal_strlit("bridge");
        reveal_strlit("unknown");
        reveal_strlit("ais");
        reveal_strlit("upstream");
        reveal_strlit("target");
        reveal_strlit("up");
        reveal_strlit("aisstream.");
        reveal_strlit("bridge.brickell");
        reveal_strlit("AISStream");
        reveal_strlit("Florida 511");
    }
    let relation = text_attribute_or(item, "relation", "bridge");
    let state = text_attribute_or(item, "state", "unknown");
    let observed_at = match iso_timestamp(view.observed_ms) {
        Ok(t) => t,
        Err(e) => return Err(e),
    };
    let detail = if str_eq(relation, "ais") {
        match ais_detail {
            Some(d) => d.clone(),
            None => match &item.summary {
                Some(s) => s.clone(),
                None => owned("AIS vessel position received"),
            },
        }
    } else {
        match &item.summary {
            Some(s) => s.clone(),
            None => {
                let head = concat(relation, " bridge status is ");
                concat(head.as_str(), state)
            },
        }
    };
    let contribution_bps = match &view.evidence {
        Some(e) => match find_contribution(&prediction.contributions, e.observation.id.as_str()) {
            Some(c) => Some(c.applied_bps),
            None => None,
        },
        None => None,
    };
    let evidence_state = match view.availability {
        AvailabilityDto::Stale | AvailabilityDto::Offline => EvidenceStateDto::Stale,
        AvailabilityDto::Delayed => EvidenceStateDto::Pending,
        AvailabilityDto::Fresh => if str_eq(relation, "upstream") && !str_eq(state, "up") {
            EvidenceStateDto::Pending
        } else {
            EvidenceStateDto::Live
        },
    };
    let id = match &view.evidence {
        Some(e) => e.observation.id.clone(),
        None => item.id.clone(),
    };
    let source_label = if starts_with(view.source_id.as_str(), "aisstream.") {
        owned("AISStream")
    } else {
        owned("Florida 511")
    };
    Ok(EvidenceStrip {
        id,
        channel_id: owned("bridge.brickell"),
        source_id: view.source_id.clone(),
        source_label,
        title: item.title.clone(),
        detail,
        observed_at,
        age_seconds: age_seconds_at(view.observed_ms, now_ms),
        availability: view.availability,
        contribution_bps,
        state: evidence_state,
        corroborated: if corroborated { Some(true) } else { None },
        interrupt: if str_eq(relation, "target") && str_eq(state, "up") { Some(true) } else { None },
    })
}

/// The evidence strips a surface shows for the views, in order, given the
/// prediction they fed and each vessel's measured detail (`ais_details`, one
/// per view). A view observed at an instant that cannot be told fails the
/// whole list with a time error.
pub fn evidence_snapshots(
    prediction: &Prediction,
    views: &Vec<BridgeEvidenceView>,
    ais_details: &Vec<Option<String>>,
    now_ms: i64,
) -> (r: Result<Vec<EvidenceStrip>, RuntimeError>)
    requires
        ais_details@.len() == views@.len(),
    ensures
        r is Ok <==> forall|n: int| 0 <= n < views@.len() ==> renders(#[trigger] views@[n].observed_ms),
        r is Ok ==> {
            &&& r->Ok_0@.len() == views@.len()
            &&& forall|n: int| 0 <= n < views@.len() ==>
                strip_is(views@[n], ais_details@[n], *prediction, now_ms, #[trigger] r->Ok_0@[n])
        },
        r is Err ==> r->Err_0 is Time,
{
    let corroborated = any_corroboration(&prediction.contributions);
    let mut out: Vec<EvidenceStrip> = Vec::new();
    let mut i: usize = 0;
    while i < views.len()
        invariant
            i <= views@.len(),
            ais_details@.len() == views@.len(),
            corroborated == corroborated_spec(prediction.contributions@),
            out@.len() == i,
            forall|n: int| 0 <= n < i ==> renders(#[trigger] views@[n].observed_ms),
            forall|n: int| 0 <= n < i ==> strip_is(views@[n], ais_details@[n], *prediction, now_ms, #[trigger] out@[n]),
        decreases views@.len() - i,
    {
        match evidence_strip(&views[i], &ais_details[i], prediction, corroborated, now_ms) {
            Ok(strip) => out.push(strip),
            Err(e) => {
                proof {
                    assert(!renders(views@[i as int].observed_ms));
                }
                return Err(e);
            },
        }
        i = i + 1;
    }
    Ok(out)
}

} // verus!
