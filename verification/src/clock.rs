//! Instants as the reader sees them: the operator log's interval times, the
//! bridge's next legal slot on the local clock, and an earthquake's time.

use vstd::prelude::*;

use crate::ais::{iso_timestamp, renders, rfc3339_of_millis, time_shown};
use crate::dto::{BridgeRelationDto, BridgeStateIntervalDto, ObservedBridgeStateDto};
use crate::item::{item_time_ms, item_time_spec, CollectorItem};
use crate::runtime::{upstream_rank, upstream_rank_spec, RuntimeError};
use crate::text::{decimal_digits, owned, push_char, str_eq, u64_to_decimal};

verus! {

/// One stored observation interval of a bridge span, as the durable log
/// keeps it. Times are milliseconds since the Unix epoch.
#[derive(Clone, Debug, PartialEq, Eq)]
pub struct BridgeStateInterval {
    pub source_id: String,
    pub bridge_key: String,
    pub bridge_name: String,
    pub relation: String,
    pub state: String,
    pub started_at_ms: i64,
    pub ended_at_ms: Option<i64>,
}

pub open spec fn relation_of(t: Seq<char>) -> Option<BridgeRelationDto> {
    if t == "target"@ {
        Some(BridgeRelationDto::Target)
    } else if t == "upstream"@ {
        Some(BridgeRelationDto::Upstream)
    } else {
        None
    }
}

pub open spec fn observed_state_of(t: Seq<char>) -> Option<ObservedBridgeStateDto> {
    if t == "up"@ {
        Some(ObservedBridgeStateDto::Up)
    } else if t == "down"@ {
        Some(ObservedBridgeStateDto::Down)
    } else if t == "unknown"@ {
        Some(ObservedBridgeStateDto::Unknown)
    } else {
        None
    }
}

/// A stored interval as the operator log shows it. An unknown relation or
/// state is a normalization error; an instant that cannot be rendered is a
/// time error. The river order is the span's upstream rank, 0 for the target.
pub fn bridge_interval_dto(interval: BridgeStateInterval) -> (r: Result<BridgeStateIntervalDto, RuntimeError>)
    ensures
        relation_of(interval.relation@) is None ==> r is Err && r->Err_0 is Normalization
            && r->Err_0->Normalization_0@ == "unknown bridge relation"@,
        relation_of(interval.relation@) is Some && observed_state_of(interval.state@) is None ==> r is Err && r->Err_0 is Normalization
            && r->Err_0->Normalization_0@ == "unknown observed bridge state"@,
        relation_of(interval.relation@) is Some && observed_state_of(interval.state@) is Some ==> (
            r is Err <==> !renders(interval.started_at_ms) || (interval.ended_at_ms is Some && !renders(interval.ended_at_ms.unwrap()))),
        r is Err && relation_of(interval.relation@) is Some && observed_state_of(interval.state@) is Some ==> r->Err_0 is Time,
        r is Ok ==> ({
            let d = r->Ok_0;
            &&& Some(d.relation) == relation_of(interval.relation@)
            &&& Some(d.state) == observed_state_of(interval.state@)
            &&& d.river_order == (match upstream_rank_spec(interval.bridge_key@) { Some(n) => n, None => 0u8 })
            &&& d.source_id@ == interval.source_id@
            &&& d.bridge_key@ == interval.bridge_key@
            &&& d.bridge_name@ == interval.bridge_name@
            &&& rfc3339_of_millis(interval.started_at_ms) == Ok::<Seq<char>, Seq<char>>(d.started_at@)
            &&& time_shown(d.ended_at, interval.ended_at_ms)
        }),
{
    proof {
        reveal_strlit("target");
        reveal_strlit("upstream");
        reveal_strlit("up");
        reveal_strlit("down");
        reveal_strlit("unknown");
    }
    let relation = if str_eq(interval.relation.as_str(), "target") {
        BridgeRelationDto::Target
    } else if str_eq(interval.relation.as_str(), "upstream") {
        BridgeRelationDto::Upstream
    } else {
        return Err(RuntimeError::Normalization(owned("unknown bridge relation")));
    };
    let state = if str_eq(interval.state.as_str(), "up") {
        ObservedBridgeStateDto::Up
    } else if str_eq(interval.state.as_str(), "down") {
        ObservedBridgeStateDto::Down
    } else if str_eq(interval.state.as_str(), "unknown") {
        ObservedBridgeStateDto::Unknown
    } else {
        return Err(RuntimeError::Normalization(owned("unknown observed bridge state")));
    };
    let river_order = match upstream_rank(interval.bridge_key.as_str()) {
        Some(n) => n,
        None => 0,
    };
    let started_at = match iso_timestamp(interval.started_at_ms) {
        Ok(t) => t,
        Err(e) => return Err(e),
    };
    let ended_at = match interval.ended_at_ms {
        Some(ms) => match iso_timestamp(ms) {
            Ok(t) => Some(t),
            Err(e) => return Err(e),
        },
        None => None,
    };
    Ok(BridgeStateIntervalDto {
        river_order,
        source_id: interval.source_id,
        bridge_key: interval.bridge_key,
        bridge_name: interval.bridge_name,
        relation,
        state,
        started_at,
        ended_at,
    })
}

/// Looks up `zone` with `jiff::tz::TimeZone::get`, places the instant `ms`
/// (`jiff::Timestamp::from_millisecond`) in it, and reads its hour and
/// minute. The zone comes from the machine's time zone database, so only
/// the ranges of the clock are stated, and that an instant jiff cannot hold
/// is refused.
#[verifier::external_body]
fn zoned_clock(ms: i64, zone: &str) -> (r: Result<(i8, i8), String>)
    ensures
        !renders(ms) ==> r is Err,
        r is Ok ==> 0 <= r->Ok_0.0 < 24 && 0 <= r->Ok_0.1 < 60,
{
    let time_zone = match jiff::tz::TimeZone::get(zone) {
        Ok(tz) => tz,
        Err(e) => return Err(e.to_string()),
    };
    match jiff::Timestamp::from_millisecond(ms) {
        Ok(t) => {
            let zoned = t.to_zoned(time_zone);
            Ok((zoned.hour(), zoned.minute()))
        },
        Err(e) => Err(e.to_string()),
    }
}

/// A clock time as the bridge card writes it: `h:mm AM` on a twelve-hour dial.
pub open spec fn slot_text(hour: int, minute: int) -> Seq<char> {
    let display = if hour % 12 == 0 { 12 } else { hour % 12 };
    decimal_digits(display as nat) + ":"@ + decimal_digits((minute / 10) as nat) + decimal_digits((minute % 10) as nat)
        + (if hour < 12 { " AM"@ } else { " PM"@ })
}

pub fn local_slot_text(hour: i8, minute: i8) -> (r: String)
    requires
        0 <= hour < 24,
        0 <= minute < 60,
    ensures
        r@ == slot_text(hour as int, minute as int),
{
    let display: u64 = if hour % 12 == 0 { 12 } else { (hour % 12) as u64 };
    let mut text = u64_to_decimal(display);
    text.append(":");
    let tens = u64_to_decimal((minute / 10) as u64);
    text.append(tens.as_str());
    let ones = u64_to_decimal((minute % 10) as u64);
    text.append(ones.as_str());
    if hour < 12 {
        text.append(" AM");
    } else {
        text.append(" PM");
    }
    text
}

/// The next legal slot on the clock of `local_time_zone`. An instant jiff
/// cannot hold, or a zone the machine does not know, is a time error.
pub fn format_local_slot(ms: i64, local_time_zone: &str) -> (r: Result<String, RuntimeError>)
    ensures
        !renders(ms) ==> r is Err,
        r is Err ==> r->Err_0 is Time,
        r is Ok ==> exists|h: int, m: int| 0 <= h < 24 && 0 <= m < 60 && r->Ok_0@ == #[trigger] slot_text(h, m),
{
    match zoned_clock(ms, local_time_zone) {
        Ok((hour, minute)) => {
            let text = local_slot_text(hour, minute);
            proof {
                assert(text@ == slot_text(hour as int, minute as int));
            }
            Ok(text)
        },
        Err(e) => Err(RuntimeError::Time(e)),
    }
}

/// Places the instant `ms` (`jiff::Timestamp::from_millisecond`) on the
/// machine's own clock (`to_zoned(jiff::tz::TimeZone::system())`) and reads
/// its month, day, hour and minute. Which clock the machine keeps is up to
/// the machine, so only the ranges of the fields are stated.
#[verifier::external_body]
fn system_clock_fields(ms: i64) -> (r: (i8, i8, i8, i8))
    requires
        renders(ms),
    ensures
        1 <= r.0 <= 12,
        1 <= r.1 <= 31,
        0 <= r.2 < 24,
        0 <= r.3 < 60,
{
    let zoned = jiff::Timestamp::from_millisecond(ms).unwrap().to_zoned(jiff::tz::TimeZone::system());
    (zoned.month(), zoned.day(), zoned.hour(), zoned.minute())
}

/// The three-letter English name of month `month`.
pub open spec fn month_abbrev(month: int) -> Seq<char> {
    if month == 1 { "Jan"@ }
    else if month == 2 { "Feb"@ }
    else if month == 3 { "Mar"@ }
    else if month == 4 { "Apr"@ }
    else if month == 5 { "May"@ }
    else if month == 6 { "Jun"@ }
    else if month == 7 { "Jul"@ }
    else if month == 8 { "Aug"@ }
    else if month == 9 { "Sep"@ }
    else if month == 10 { "Oct"@ }
    else if month == 11 { "Nov"@ }
    else { "Dec"@ }
}

/// A local instant as a label: `Aug 15, 2:05 PM`, the shape
/// `%b %-d, %-I:%M %p` writes.
pub open spec fn clock_label(month: int, day: int, hour: int, minute: int) -> Seq<char> {
    month_abbrev(month) + " "@ + decimal_digits(day as nat) + ", "@ + slot_text(hour, minute)
}

fn month_name(month: i8) -> (r: &'static str)
    ensures
        r@ == month_abbrev(month as int),
{
    if month == 1 { "Jan" }
    else if month == 2 { "Feb" }
    else if month == 3 { "Mar" }
    else if month == 4 { "Apr" }
    else if month == 5 { "May" }
    else if month == 6 { "Jun" }
    else if month == 7 { "Jul" }
    else if month == 8 { "Aug" }
    else if month == 9 { "Sep" }
    else if month == 10 { "Oct" }
    else if month == 11 { "Nov" }
    else { "Dec" }
}

/// The label of a local month, day, hour and minute.
pub fn clock_label_text(month: i8, day: i8, hour: i8, minute: i8) -> (r: String)
    requires
        1 <= day,
        0 <= hour < 24,
        0 <= minute < 60,
    ensures
        r@ == clock_label(month as int, day as int, hour as int, minute as int),
{
    let mut text = owned(month_name(month));
    text.append(" ");
    let d = u64_to_decimal(day as u64);
    text.append(d.as_str());
    text.append(", ");
    let slot = local_slot_text(hour, minute);
    text.append(slot.as_str());
    text
}

/// An instant on the machine's own clock, or a plain statement that there
/// is none. Every instant jiff can hold gets a label of the shape
/// `clock_label`; which month, day, hour and minute depends on the machine's
/// time zone.
pub fn local_clock_label(ms: i64) -> (r: String)
    ensures
        ms == i64::MIN || !renders(ms) ==> r@ == "Time not reported"@,
        ms != i64::MIN && renders(ms) ==> exists|mon: int, d: int, h: int, m: int|
            1 <= mon <= 12 && 1 <= d <= 31 && 0 <= h < 24 && 0 <= m < 60 && r@ == #[trigger] clock_label(mon, d, h, m),
{
    if ms == i64::MIN || !(crate::ais::TIMESTAMP_MIN_MS <= ms && ms <= crate::ais::TIMESTAMP_MAX_MS) {
        return owned("Time not reported");
    }
    let (month, day, hour, minute) = system_clock_fields(ms);
    let text = clock_label_text(month, day, hour, minute);
    proof {
        assert(text@ == clock_label(month as int, day as int, hour as int, minute as int));
    }
    text
}

/// When an earthquake happened, on the machine's own clock.
pub fn earthquake_local_time(item: &CollectorItem) -> (r: String)
    ensures
        item_time_spec(*item) == i64::MIN || !renders(item_time_spec(*item)) ==> r@ == "Time not reported"@,
        item_time_spec(*item) != i64::MIN && renders(item_time_spec(*item)) ==> exists|mon: int, d: int, h: int, m: int|
            1 <= mon <= 12 && 1 <= d <= 31 && 0 <= h < 24 && 0 <= m < 60 && r@ == #[trigger] clock_label(mon, d, h, m),
{
    local_clock_label(item_time_ms(item))
}

} // verus!
