//! Health of the optional AISStream vessel source, as the settings screen
//! reports it: whether it is connected, how many vessels it currently sees,
//! and the last thing that went wrong.

use vstd::prelude::*;

use crate::availability::{source_availability, source_availability_spec, CollectorCursor, SourceState};
use crate::dto::{
    AisConnectionStateDto, AisStreamStatusDto, AppPreferences, AvailabilityDto, ChannelPreference,
};
use crate::item::{CollectorItem, ItemKind};
use crate::json::{object_get, value_as_str};
use crate::runtime::RuntimeError;
use crate::availability::age_seconds_spec;
use crate::availability::age_seconds_at;
use crate::rules::{contains_ignore_ascii_case, contains_text};
use crate::signal::{bounded_signal_text, bounded_text_spec};
use crate::text::{ascii_lower_seq, concat, i64_from_text, owned, parse_i64, str_eq, u64_to_decimal, decimal_digits};

verus! {

/// The earliest instant `jiff::Timestamp` can hold, in milliseconds since
/// the Unix epoch.
pub const TIMESTAMP_MIN_MS: i64 = -377_705_023_201_000;

/// The latest instant `jiff::Timestamp` can hold, in milliseconds.
pub const TIMESTAMP_MAX_MS: i64 = 253_402_207_200_000;

/// More vessel expirations than this in a cursor are not believed.
pub const MAX_AIS_STATUS_VESSELS: usize = 512;

/// How long a source that has never delivered may stay quiet before the
/// silence counts as a fault, in milliseconds.
pub const SETTLING_MS: i64 = 180_000;

/// How far ahead of the local clock a provider timestamp may be.
pub const CLOCK_SKEW_MS: i64 = 30_000;

/// What `jiff` renders for an instant given in milliseconds: its RFC 3339
/// text, or the text of its range error.
pub uninterp spec fn rfc3339_of_millis(ms: i64) -> Result<Seq<char>, Seq<char>>;

/// Calls `jiff::Timestamp::from_millisecond` and renders the instant with
/// `to_string`, or the error with `to_string`. jiff documents that the only
/// failure is an instant outside `Timestamp::MIN..=Timestamp::MAX`, whose
/// bounds in milliseconds are the two constants above.
#[verifier::external_body]
pub(crate) fn iso_timestamp_text(ms: i64) -> (r: Result<String, String>)
    ensures
        r is Ok <==> TIMESTAMP_MIN_MS <= ms <= TIMESTAMP_MAX_MS,
        rfc3339_of_millis(ms) == (match r {
            Ok(t) => Ok(t@),
            Err(e) => Err(e@),
        }),
{
    match jiff::Timestamp::from_millisecond(ms) {
        Ok(t) => Ok(t.to_string()),
        Err(e) => Err(e.to_string()),
    }
}

/// An instant as the runtime reports it, or the time error it is refused with.
pub fn iso_timestamp(ms: i64) -> (r: Result<String, RuntimeError>)
    ensures
        r is Ok <==> TIMESTAMP_MIN_MS <= ms <= TIMESTAMP_MAX_MS,
        r is Ok ==> rfc3339_of_millis(ms) == Ok::<Seq<char>, Seq<char>>(r->Ok_0@),
        r is Err ==> r->Err_0 is Time && rfc3339_of_millis(ms) == Err::<Seq<char>, Seq<char>>(r->Err_0->Time_0@),
{
    match iso_timestamp_text(ms) {
        Ok(t) => Ok(t),
        Err(e) => Err(RuntimeError::Time(e)),
    }
}

/// What `serde_json` reads from `text` as a list of `i64`: the list, or
/// nothing when the text is not one.
pub uninterp spec fn json_i64_list(text: Seq<char>) -> Option<Seq<i64>>;

/// Calls `serde_json::from_str::<Vec<i64>>` and keeps the list when it parses.
#[verifier::external_body]
fn parse_i64_list(text: &str) -> (r: Option<Vec<i64>>)
    ensures
        json_i64_list(text@) == (match r {
            Some(v) => Some(v@),
            None => None::<Seq<i64>>,
        }),
{
    serde_json::from_str::<Vec<i64>>(text).ok()
}

/// Whether a source id belongs to the AISStream collector.
pub open spec fn is_ais_source_id(id: Seq<char>) -> bool {
    id.len() >= 10 && id.subrange(0, 10) == "aisstream."@
}

pub(crate) fn ais_source_id(id: &str) -> (r: bool)
    ensures
        r == is_ais_source_id(id@),
{
    let prefix = "aisstream.";
    proof {
        reveal_strlit("aisstream.");
    }
    let n = id.unicode_len();
    if n < 10 {
        return false;
    }
    let head = id.substring_char(0, 10);
    str_eq(head, prefix)
}

/// The value the cursor keeps under `key`: the first entry with that key.
pub open spec fn cursor_get_from(c: CollectorCursor, key: Seq<char>, i: int) -> Option<Seq<char>>
    decreases c.metadata@.len() - i,
{
    if i < 0 || i >= c.metadata@.len() {
        None
    } else if c.metadata@[i].key@ == key {
        Some(c.metadata@[i].value@)
    } else {
        cursor_get_from(c, key, i + 1)
    }
}

pub open spec fn cursor_get(c: CollectorCursor, key: Seq<char>) -> Option<Seq<char>> {
    cursor_get_from(c, key, 0)
}

pub fn cursor_value<'a>(c: &'a CollectorCursor, key: &str) -> (r: Option<&'a str>)
    ensures
        match r {
            Some(v) => cursor_get(*c, key@) == Some(v@),
            None => cursor_get(*c, key@) is None,
        },
{
    let mut i: usize = 0;
    while i < c.metadata.len()
        invariant
            i <= c.metadata@.len(),
            cursor_get(*c, key@) == cursor_get_from(*c, key@, i as int),
        decreases c.metadata@.len() - i,
    {
        if str_eq(c.metadata[i].key.as_str(), key) {
            return Some(c.metadata[i].value.as_str());
        }
        i = i + 1;
    }
    None
}


/// `a + b`, held to the range of `i64`, as `i64::saturating_add` gives it.
pub open spec fn sat_add_i64(a: i64, b: i64) -> i64 {
    let t = a as int + b as int;
    if t > i64::MAX { i64::MAX } else if t < i64::MIN { i64::MIN } else { t as i64 }
}

/// `a - b`, held to the range of `i64`, as `i64::saturating_sub` gives it.
pub open spec fn sat_sub_i64(a: i64, b: i64) -> i64 {
    let t = a as int - b as int;
    if t > i64::MAX { i64::MAX } else if t < i64::MIN { i64::MIN } else { t as i64 }
}

fn saturating_add_i64(a: i64, b: i64) -> (r: i64)
    ensures
        r == sat_add_i64(a, b),
{
    let t = a as i128 + b as i128;
    if t > i64::MAX as i128 {
        i64::MAX
    } else if t < i64::MIN as i128 {
        i64::MIN
    } else {
        t as i64
    }
}

fn saturating_sub_i64(a: i64, b: i64) -> (r: i64)
    ensures
        r == sat_sub_i64(a, b),
{
    let t = a as i128 - b as i128;
    if t > i64::MAX as i128 {
        i64::MAX
    } else if t < i64::MIN as i128 {
        i64::MIN
    } else {
        t as i64
    }
}

/// The larger of a running maximum and a new value.
pub open spec fn max_opt(current: Option<i64>, v: i64) -> Option<i64> {
    match current {
        Some(c) => Some(if c >= v { c } else { v }),
        None => Some(v),
    }
}

/// The smaller of a running minimum and a new value.
pub open spec fn min_opt(current: Option<i64>, v: i64) -> Option<i64> {
    match current {
        Some(c) => Some(if c <= v { c } else { v }),
        None => Some(v),
    }
}

fn max_of(current: Option<i64>, v: i64) -> (r: Option<i64>)
    ensures
        r == max_opt(current, v),
{
    match current {
        Some(c) => Some(if c >= v { c } else { v }),
        None => Some(v),
    }
}

fn min_of(current: Option<i64>, v: i64) -> (r: Option<i64>)
    ensures
        r == min_opt(current, v),
{
    match current {
        Some(c) => Some(if c <= v { c } else { v }),
        None => Some(v),
    }
}

/// A registered source and what the runtime keeps about it.
#[derive(Clone, Debug, PartialEq)]
pub struct SourceEntry {
    pub source_id: String,
    pub state: SourceState,
}

/// The state kept for `id`: the first entry with that id.
pub open spec fn source_from(entries: Seq<SourceEntry>, id: Seq<char>, i: int) -> Option<SourceState>
    decreases entries.len() - i,
{
    if i < 0 || i >= entries.len() {
        None
    } else if entries[i].source_id@ == id {
        Some(entries[i].state)
    } else {
        source_from(entries, id, i + 1)
    }
}

/// No two kept sources share an identifier, as in the map the runtime keeps
/// them in.
pub open spec fn source_ids_unique(entries: Seq<SourceEntry>) -> bool {
    forall|i: int, j: int| 0 <= i < j < entries.len() ==> (#[trigger] entries[i]).source_id@ != (#[trigger] entries[j]).source_id@
}

pub open spec fn source_named(entries: Seq<SourceEntry>, id: Seq<char>) -> Option<SourceState> {
    source_from(entries, id, 0)
}

pub(crate) fn find_source<'a>(entries: &'a [SourceEntry], id: &str) -> (r: Option<&'a SourceState>)
    ensures
        match r {
            Some(s) => source_named(entries@, id@) == Some(*s),
            None => source_named(entries@, id@) is None,
        },
{
    let mut i: usize = 0;
    while i < entries.len()
        invariant
            i <= entries@.len(),
            source_named(entries@, id@) == source_from(entries@, id@, i as int),
        decreases entries@.len() - i,
    {
        if str_eq(entries[i].source_id.as_str(), id) {
            return Some(&entries[i].state);
        }
        i = i + 1;
    }
    None
}

/// The channel a source feeds, looked up by id: when two channels share an
/// id, the later one.
pub open spec fn channel_upto(cs: Seq<ChannelPreference>, id: Seq<char>, n: int) -> Option<ChannelPreference>
    decreases n,
{
    if n <= 0 || n > cs.len() {
        None
    } else if cs[n - 1].id@ == id {
        Some(cs[n - 1])
    } else {
        channel_upto(cs, id, n - 1)
    }
}

pub open spec fn channel_named(cs: Seq<ChannelPreference>, id: Seq<char>) -> Option<ChannelPreference> {
    channel_upto(cs, id, cs.len() as int)
}

pub(crate) fn find_channel<'a>(cs: &'a Vec<ChannelPreference>, id: &str) -> (r: Option<&'a ChannelPreference>)
    ensures
        match r {
            Some(c) => channel_named(cs@, id@) == Some(*c),
            None => channel_named(cs@, id@) is None,
        },
{
    let mut n: usize = cs.len();
    while n > 0
        invariant
            n <= cs@.len(),
            channel_named(cs@, id@) == channel_upto(cs@, id@, n as int),
        decreases n,
    {
        if str_eq(cs[n - 1].id.as_str(), id) {
            return Some(&cs[n - 1]);
        }
        n = n - 1;
    }
    None
}

/// A bridge item that reports a vessel seen on AIS.
pub open spec fn is_ais_bridge_item(item: CollectorItem) -> bool {
    item.kind == ItemKind::Bridge && value_as_str(object_get(item.attributes, "relation"@)) == Some("ais"@)
}

pub(crate) fn ais_bridge_item(item: &CollectorItem) -> (r: bool)
    ensures
        r == is_ais_bridge_item(*item),
{
    if item.kind != ItemKind::Bridge {
        return false;
    }
    proof {
        reveal_strlit("ais");
    }
    match item.attributes.get_str("relation") {
        Some(t) => str_eq(t, "ais"),
        None => false,
    }
}

/// The latest time an AIS bridge item among `items` was observed.
pub open spec fn latest_ais_observed(items: Seq<CollectorItem>) -> Option<i64>
    decreases items.len(),
{
    if items.len() == 0 {
        None
    } else {
        let rest = latest_ais_observed(items.drop_last());
        let item = items.last();
        if is_ais_bridge_item(item) && item.observed_at_ms is Some {
            max_opt(rest, item.observed_at_ms.unwrap())
        } else {
            rest
        }
    }
}

fn latest_ais_observation(items: &Vec<CollectorItem>) -> (r: Option<i64>)
    ensures
        r == latest_ais_observed(items@),
{
    let mut latest: Option<i64> = None;
    let mut i: usize = 0;
    while i < items.len()
        invariant
            i <= items@.len(),
            latest == latest_ais_observed(items@.take(i as int)),
        decreases items@.len() - i,
    {
        proof {
            assert(items@.take(i + 1).drop_last() =~= items@.take(i as int));
        }
        if ais_bridge_item(&items[i]) {
            match items[i].observed_at_ms {
                Some(t) => {
                    latest = max_of(latest, t);
                },
                None => {},
            }
        }
        i = i + 1;
    }
    proof {
        assert(items@.take(items@.len() as int) =~= items@);
    }
    latest
}

/// Whether a bridge item observed at `observed_ms` may still be shown: not
/// from the far future, not older than the channel's budget, not ended.
pub open spec fn bridge_item_current_spec(item: CollectorItem, c: ChannelPreference, observed_ms: i64, now_ms: i64) -> bool {
    &&& observed_ms <= sat_add_i64(now_ms, CLOCK_SKEW_MS)
    &&& age_seconds_spec(observed_ms, now_ms) as int <= c.max_age_minutes as int * 60
    &&& !(item.ends_at_ms is Some && item.ends_at_ms.unwrap() < now_ms)
}

pub fn bridge_item_is_current(item: &CollectorItem, channel: &ChannelPreference, observed_ms: i64, now_ms: i64) -> (r: bool)
    ensures
        r == bridge_item_current_spec(*item, *channel, observed_ms, now_ms),
{
    if observed_ms > saturating_add_i64(now_ms, CLOCK_SKEW_MS) {
        return false;
    }
    if age_seconds_at(observed_ms, now_ms) > (channel.max_age_minutes as u64) * 60 {
        return false;
    }
    match item.ends_at_ms {
        Some(ends) => !(ends < now_ms),
        None => true,
    }
}


/// The time an item counts as observed at: its own observation time, else
/// the source's last success, else now.
pub open spec fn observed_or(item: CollectorItem, last_success: Option<i64>, now_ms: i64) -> i64 {
    match item.observed_at_ms {
        Some(t) => t,
        None => match last_success {
            Some(t) => t,
            None => now_ms,
        },
    }
}

/// How many AIS bridge items among `items` are still current for `channel`.
pub open spec fn count_current_ais(items: Seq<CollectorItem>, channel: Option<ChannelPreference>, last_success: Option<i64>, now_ms: i64) -> nat
    decreases items.len(),
{
    if items.len() == 0 {
        0
    } else {
        let item = items.last();
        let counted = is_ais_bridge_item(item) && channel is Some
            && bridge_item_current_spec(item, channel.unwrap(), observed_or(item, last_success, now_ms), now_ms);
        count_current_ais(items.drop_last(), channel, last_success, now_ms) + if counted { 1nat } else { 0nat }
    }
}

fn current_ais_items(source: &SourceState, channel: Option<&ChannelPreference>, now_ms: i64) -> (r: usize)
    ensures
        r == count_current_ais(source.items@, match channel { Some(c) => Some(*c), None => None }, source.last_success_ms, now_ms),
{
    let ghost ch = match channel { Some(c) => Some(*c), None => None::<ChannelPreference> };
    let mut count: usize = 0;
    let mut i: usize = 0;
    while i < source.items.len()
        invariant
            i <= source.items@.len(),
            ch == match channel { Some(c) => Some(*c), None => None::<ChannelPreference> },
            count == count_current_ais(source.items@.take(i as int), ch, source.last_success_ms, now_ms),
            count <= i,
        decreases source.items@.len() - i,
    {
        proof {
            assert(source.items@.take(i + 1).drop_last() =~= source.items@.take(i as int));
            assert(source.items@.take(i + 1).last() == source.items@[i as int]);
        }
        let item = &source.items[i];
        if ais_bridge_item(item) {
            let observed = match item.observed_at_ms {
                Some(t) => t,
                None => match source.last_success_ms {
                    Some(t) => t,
                    None => now_ms,
                },
            };
            match channel {
                Some(c) => {
                    if bridge_item_is_current(item, c, observed, now_ms) {
                        count = count + 1;
                    }
                },
                None => {},
            }
        }
        i = i + 1;
    }
    proof {
        assert(source.items@.take(source.items@.len() as int) =~= source.items@);
    }
    count
}

/// How many of `e` are at or after `now_ms`.
pub open spec fn count_not_before(e: Seq<i64>, now_ms: i64) -> nat
    decreases e.len(),
{
    if e.len() == 0 {
        0
    } else {
        count_not_before(e.drop_last(), now_ms) + if e.last() >= now_ms { 1nat } else { 0nat }
    }
}

/// What a cursor's list of vessel expirations says: how many vessels are
/// still current, when the list is there and no longer than the cap.
pub open spec fn expiring_count(e: Option<Seq<i64>>, now_ms: i64) -> Option<nat> {
    match e {
        Some(list) => if list.len() <= MAX_AIS_STATUS_VESSELS { Some(count_not_before(list, now_ms)) } else { None },
        None => None,
    }
}

/// Counts the vessel expirations not yet passed, when there are at most
/// `MAX_AIS_STATUS_VESSELS` of them.
pub fn fresh_expiration_count(expirations: Option<Vec<i64>>, now_ms: i64) -> (r: Option<usize>)
    ensures
        match r {
            Some(n) => expiring_count(match expirations { Some(v) => Some(v@), None => None }, now_ms) == Some(n as nat),
            None => expiring_count(match expirations { Some(v) => Some(v@), None => None }, now_ms) is None,
        },
{
    let list = match expirations {
        Some(list) => list,
        None => return None,
    };
    if list.len() > MAX_AIS_STATUS_VESSELS {
        return None;
    }
    let mut count: usize = 0;
    let mut i: usize = 0;
    while i < list.len()
        invariant
            i <= list@.len(),
            count == count_not_before(list@.take(i as int), now_ms),
            count <= i,
        decreases list@.len() - i,
    {
        proof {
            assert(list@.take(i + 1).drop_last() =~= list@.take(i as int));
        }
        if list[i] >= now_ms {
            count = count + 1;
        }
        i = i + 1;
    }
    proof {
        assert(list@.take(list@.len() as int) =~= list@);
    }
    Some(count)
}

/// How many vessels a fresh source currently sees: the cursor's count of
/// unexpired vessels when it keeps one, else its current AIS bridge items.
pub open spec fn fresh_vessels_spec(s: SourceState, channel: Option<ChannelPreference>, now_ms: i64) -> nat {
    let listed = match cursor_get(s.cursor, "fresh_vessel_expirations_ms"@) {
        Some(t) => json_i64_list(t),
        None => None,
    };
    match expiring_count(listed, now_ms) {
        Some(n) => n,
        None => count_current_ais(s.items@, channel, s.last_success_ms, now_ms),
    }
}

fn fresh_vessels(source: &SourceState, channel: Option<&ChannelPreference>, now_ms: i64) -> (r: usize)
    ensures
        r == fresh_vessels_spec(*source, match channel { Some(c) => Some(*c), None => None }, now_ms),
{
    let listed = match cursor_value(&source.cursor, "fresh_vessel_expirations_ms") {
        Some(t) => parse_i64_list(t),
        None => None,
    };
    match fresh_expiration_count(listed, now_ms) {
        Some(n) => n,
        None => current_ais_items(source, channel, now_ms),
    }
}

/// The latest position time a source's cursor records, when it parses, is
/// not from the far future and is an instant the runtime can render.
pub open spec fn cursor_position_spec(s: SourceState, now_ms: i64) -> Option<i64> {
    match cursor_get(s.cursor, "last_position_at_ms"@) {
        Some(t) => match i64_from_text(t) {
            Some(v) => if v <= sat_add_i64(now_ms, CLOCK_SKEW_MS) && TIMESTAMP_MIN_MS <= v <= TIMESTAMP_MAX_MS { Some(v) } else { None },
            None => None,
        },
        None => None,
    }
}

fn cursor_position(source: &SourceState, now_ms: i64) -> (r: Option<i64>)
    ensures
        r == cursor_position_spec(*source, now_ms),
{
    let text = match cursor_value(&source.cursor, "last_position_at_ms") {
        Some(t) => t,
        None => return None,
    };
    let v = match parse_i64(text) {
        Some(v) => v,
        None => return None,
    };
    if v <= saturating_add_i64(now_ms, CLOCK_SKEW_MS) && iso_timestamp_text(v).is_ok() {
        Some(v)
    } else {
        None
    }
}


/// What reading the registered AIS sources in order gathers.
pub struct AisTally {
    pub registered: bool,
    pub availabilities: Seq<AvailabilityDto>,
    pub attempted: bool,
    pub first_attempt: Option<i64>,
    pub last_success: Option<i64>,
    pub last_error: Option<(i64, Seq<char>)>,
    pub last_position: Option<i64>,
    pub fresh: nat,
}

pub open spec fn empty_tally() -> AisTally {
    AisTally {
        registered: false,
        availabilities: Seq::empty(),
        attempted: false,
        first_attempt: None,
        last_success: None,
        last_error: None,
        last_position: None,
        fresh: 0,
    }
}

/// How current one registered source is for the channel it feeds; offline
/// when either is missing.
pub open spec fn reg_availability(s: SourceState, channel: Option<ChannelPreference>, now_ms: i64) -> AvailabilityDto {
    match channel {
        Some(c) => source_availability_spec(s, c, now_ms).0,
        None => AvailabilityDto::Offline,
    }
}

/// What one registration adds: nothing for a source that is not AIS; an
/// offline reading for a source with no state yet; else its availability,
/// whether it was tried, its first attempt, last success, its error when it
/// failed later than the error kept so far, the latest position it saw,
/// and, when fresh, the vessels it sees (the sum held to `usize::MAX`).
pub open spec fn ais_step(t: AisTally, p: AppPreferences, entries: Seq<SourceEntry>, reg: (String, String), now_ms: i64) -> AisTally {
    if !is_ais_source_id(reg.0@) {
        t
    } else {
        match source_named(entries, reg.0@) {
            None => AisTally { registered: true, availabilities: t.availabilities.push(AvailabilityDto::Offline), ..t },
            Some(s) => {
                let channel = channel_named(p.profile.channels@, reg.1@);
                let a = reg_availability(s, channel, now_ms);
                let at = match s.last_attempt_ms {
                    Some(x) => x,
                    None => i64::MIN,
                };
                let with_cursor = match cursor_position_spec(s, now_ms) {
                    Some(v) => max_opt(t.last_position, v),
                    None => t.last_position,
                };
                let fresh = t.fresh + fresh_vessels_spec(s, channel, now_ms);
                AisTally {
                    registered: true,
                    availabilities: t.availabilities.push(a),
                    attempted: t.attempted || s.last_attempt_ms is Some,
                    first_attempt: match s.first_attempt_ms {
                        Some(f) => min_opt(t.first_attempt, f),
                        None => t.first_attempt,
                    },
                    last_success: match s.last_success_ms {
                        Some(x) => max_opt(t.last_success, x),
                        None => t.last_success,
                    },
                    last_error: match s.last_error {
                        Some(e) => if t.last_error is None || at > t.last_error.unwrap().0 {
                            Some((at, bounded_text_spec(e@, 240)))
                        } else {
                            t.last_error
                        },
                        None => t.last_error,
                    },
                    last_position: match latest_ais_observed(s.items@) {
                        Some(v) => max_opt(with_cursor, v),
                        None => with_cursor,
                    },
                    fresh: if a == AvailabilityDto::Fresh {
                        if fresh > usize::MAX { usize::MAX as nat } else { fresh }
                    } else {
                        t.fresh
                    },
                }
            },
        }
    }
}

/// The tally of the first registrations, in order.
pub open spec fn ais_tally(p: AppPreferences, entries: Seq<SourceEntry>, regs: Seq<(String, String)>, now_ms: i64) -> AisTally
    decreases regs.len(),
{
    if regs.len() == 0 {
        empty_tally()
    } else {
        ais_step(ais_tally(p, entries, regs.drop_last(), now_ms), p, entries, regs.last(), now_ms)
    }
}

/// The AIS source's availability: offline when nothing is registered; fresh
/// when every registration is; delayed when any is fresh or delayed; stale
/// when any is stale; offline otherwise.
pub open spec fn ais_overall(registered: bool, v: Seq<AvailabilityDto>) -> AvailabilityDto {
    if !registered {
        AvailabilityDto::Offline
    } else if forall|i: int| 0 <= i < v.len() ==> #[trigger] v[i] == AvailabilityDto::Fresh {
        AvailabilityDto::Fresh
    } else if exists|i: int| 0 <= i < v.len() && (#[trigger] v[i] == AvailabilityDto::Fresh || v[i] == AvailabilityDto::Delayed) {
        AvailabilityDto::Delayed
    } else if exists|i: int| 0 <= i < v.len() && #[trigger] v[i] == AvailabilityDto::Stale {
        AvailabilityDto::Stale
    } else {
        AvailabilityDto::Offline
    }
}

/// The error shown: the kept one, when it has text.
pub open spec fn shown_error(t: AisTally) -> Option<Seq<char>> {
    match t.last_error {
        Some(pair) => if pair.1.len() > 0 { Some(pair.1) } else { None },
        None => None,
    }
}

pub open spec fn error_mentions(t: AisTally, word: Seq<char>) -> bool {
    shown_error(t) is Some && contains_text(ascii_lower_seq(shown_error(t).unwrap()), word)
}

/// Before its first success, a source is given time to settle.
pub open spec fn settling(t: AisTally, now_ms: i64) -> bool {
    t.last_success is None && t.first_attempt is Some && sat_sub_i64(now_ms, t.first_attempt.unwrap()) < SETTLING_MS
}

/// The connection state a reader is shown.
pub open spec fn connection_spec(p: AppPreferences, t: AisTally, now_ms: i64) -> AisConnectionStateDto {
    let availability = ais_overall(t.registered, t.availabilities);
    if !p.ais.api_key_configured {
        AisConnectionStateDto::NeedsKey
    } else if error_mentions(t, "rejected"@) {
        AisConnectionStateDto::Rejected
    } else if t.registered && (!t.attempted || (error_mentions(t, "starting"@) && t.last_success is None)) {
        AisConnectionStateDto::Armed
    } else if availability == AvailabilityDto::Fresh && t.fresh > 0 {
        AisConnectionStateDto::Live
    } else if availability == AvailabilityDto::Fresh || (t.registered && settling(t, now_ms)) {
        AisConnectionStateDto::Armed
    } else {
        AisConnectionStateDto::Disconnected
    }
}

/// The sentence shown beside the connection state.
pub open spec fn detail_spec(state: AisConnectionStateDto, t: AisTally, now_ms: i64) -> Seq<char> {
    match state {
        AisConnectionStateDto::Disabled => "The vessel source is off."@,
        AisConnectionStateDto::NeedsKey => "Add a key to start the vessel source."@,
        AisConnectionStateDto::Armed => if settling(t, now_ms) && t.last_success is None {
            "Connecting."@
        } else {
            "Connected. No vessel in range right now."@
        },
        AisConnectionStateDto::Live => "Connected. "@ + decimal_digits(t.fresh) + (if t.fresh == 1 { " vessel in range."@ } else { " vessels in range."@ }),
        AisConnectionStateDto::Rejected => "The key was refused. Replace it."@,
        AisConnectionStateDto::Disconnected => "Not connected."@,
    }
}

pub open spec fn renders(ms: i64) -> bool {
    TIMESTAMP_MIN_MS <= ms <= TIMESTAMP_MAX_MS
}

/// A reported time: absent with no instant, else the instant's text.
pub open spec fn time_shown(shown: Option<String>, ms: Option<i64>) -> bool {
    match ms {
        None => shown is None,
        Some(v) => shown is Some && rfc3339_of_millis(v) == Ok::<Seq<char>, Seq<char>>(shown.unwrap()@),
    }
}

/// The report `st` is the one the tally `t` gives.
pub open spec fn status_matches(st: AisStreamStatusDto, p: AppPreferences, t: AisTally, now_ms: i64) -> bool {
    let state = connection_spec(p, t, now_ms);
    &&& st.enabled == p.ais.api_key_configured
    &&& st.provider == p.ais.provider
    &&& st.api_key_configured == p.ais.api_key_configured
    &&& st.source_registered == t.registered
    &&& st.connection_state == state
    &&& st.availability == ais_overall(t.registered, t.availabilities)
    &&& time_shown(st.last_success_at, t.last_success)
    &&& time_shown(st.last_position_at, t.last_position)
    &&& st.fresh_vessel_count == t.fresh
    &&& st.detail@ == detail_spec(state, t, now_ms)
    &&& match st.last_error {
        Some(e) => shown_error(t) == Some(e@),
        None => shown_error(t) is None,
    }
}


fn overall(registered: bool, v: &Vec<AvailabilityDto>) -> (r: AvailabilityDto)
    ensures
        r == ais_overall(registered, v@),
{
    if !registered {
        return AvailabilityDto::Offline;
    }
    let mut all_fresh = true;
    let mut any_usable = false;
    let mut any_stale = false;
    let mut i: usize = 0;
    while i < v.len()
        invariant
            i <= v@.len(),
            all_fresh == forall|k: int| 0 <= k < i ==> #[trigger] v@[k] == AvailabilityDto::Fresh,
            any_usable == exists|k: int| 0 <= k < i && (#[trigger] v@[k] == AvailabilityDto::Fresh || v@[k] == AvailabilityDto::Delayed),
            any_stale == exists|k: int| 0 <= k < i && #[trigger] v@[k] == AvailabilityDto::Stale,
        decreases v@.len() - i,
    {
        let a = v[i];
        if a != AvailabilityDto::Fresh {
            all_fresh = false;
        }
        if a == AvailabilityDto::Fresh || a == AvailabilityDto::Delayed {
            any_usable = true;
        }
        if a == AvailabilityDto::Stale {
            any_stale = true;
        }
        i = i + 1;
    }
    if all_fresh {
        AvailabilityDto::Fresh
    } else if any_usable {
        AvailabilityDto::Delayed
    } else if any_stale {
        AvailabilityDto::Stale
    } else {
        AvailabilityDto::Offline
    }
}

fn detail_text(state: AisConnectionStateDto, settling_now: bool, succeeded: bool, fresh: usize) -> (r: String)
    ensures
        r@ == (match state {
            AisConnectionStateDto::Disabled => "The vessel source is off."@,
            AisConnectionStateDto::NeedsKey => "Add a key to start the vessel source."@,
            AisConnectionStateDto::Armed => if settling_now && !succeeded {
                "Connecting."@
            } else {
                "Connected. No vessel in range right now."@
            },
            AisConnectionStateDto::Live => "Connected. "@ + decimal_digits(fresh as nat) + (if fresh == 1 { " vessel in range."@ } else { " vessels in range."@ }),
            AisConnectionStateDto::Rejected => "The key was refused. Replace it."@,
            AisConnectionStateDto::Disconnected => "Not connected."@,
        }),
{
    match state {
        AisConnectionStateDto::Disabled => owned("The vessel source is off."),
        AisConnectionStateDto::NeedsKey => owned("Add a key to start the vessel source."),
        AisConnectionStateDto::Armed => {
            if settling_now && !succeeded {
                owned("Connecting.")
            } else {
                owned("Connected. No vessel in range right now.")
            }
        },
        AisConnectionStateDto::Live => {
            let count = u64_to_decimal(fresh as u64);
            let mut text = concat("Connected. ", count.as_str());
            if fresh == 1 {
                text.append(" vessel in range.");
            } else {
                text.append(" vessels in range.");
            }
            text
        },
        AisConnectionStateDto::Rejected => owned("The key was refused. Replace it."),
        AisConnectionStateDto::Disconnected => owned("Not connected."),
    }
}

/// The AIS source's health as the settings screen shows it, read from the
/// sources registered under `active_sources` (source id, channel id), in
/// order. It fails only when an instant it reports cannot be rendered.
#[verifier::rlimit(60)]
pub fn aisstream_status(
    preferences: &AppPreferences,
    sources: &[SourceEntry],
    active_sources: &[(String, String)],
    now_ms: i64,
) -> (r: Result<AisStreamStatusDto, RuntimeError>)
    ensures
        ({
            let t = ais_tally(*preferences, sources@, active_sources@, now_ms);
            let success_bad = t.last_success is Some && !renders(t.last_success.unwrap());
            let position_bad = t.last_position is Some && !renders(t.last_position.unwrap());
            &&& r is Err <==> success_bad || position_bad
            &&& r is Err ==> r->Err_0 is Time && rfc3339_of_millis(
                if success_bad { t.last_success.unwrap() } else { t.last_position.unwrap() },
            ) == Err::<Seq<char>, Seq<char>>(r->Err_0->Time_0@)
            &&& r is Ok ==> status_matches(r->Ok_0, *preferences, t, now_ms)
        }),
{
    let channels = &preferences.profile.channels;
    let mut registered = false;
    let mut availabilities: Vec<AvailabilityDto> = Vec::new();
    let mut attempted = false;
    let mut first_attempt: Option<i64> = None;
    let mut last_success: Option<i64> = None;
    let mut last_error: Option<(i64, String)> = None;
    let mut last_position: Option<i64> = None;
    let mut fresh: usize = 0;
    let mut i: usize = 0;
    while i < active_sources.len()
        invariant
            i <= active_sources@.len(),
            channels == &preferences.profile.channels,
            ({
                let t = ais_tally(*preferences, sources@, active_sources@.take(i as int), now_ms);
                &&& registered == t.registered
                &&& availabilities@ == t.availabilities
                &&& attempted == t.attempted
                &&& first_attempt == t.first_attempt
                &&& last_success == t.last_success
                &&& last_position == t.last_position
                &&& fresh == t.fresh
                &&& match last_error {
                    Some(pair) => t.last_error == Some((pair.0, pair.1@)),
                    None => t.last_error is None,
                }
            }),
        decreases active_sources@.len() - i,
    {
        proof {
            assert(active_sources@.take(i + 1).drop_last() =~= active_sources@.take(i as int));
            assert(active_sources@.take(i + 1).last() == active_sources@[i as int]);
        }
        let reg = &active_sources[i];
        if ais_source_id(reg.0.as_str()) {
            registered = true;
            match find_source(sources, reg.0.as_str()) {
                None => {
                    availabilities.push(AvailabilityDto::Offline);
                },
                Some(source) => {
                    let channel = find_channel(channels, reg.1.as_str());
                    attempted = attempted || source.last_attempt_ms.is_some();
                    match source.first_attempt_ms {
                        Some(f) => {
                            first_attempt = min_of(first_attempt, f);
                        },
                        None => {},
                    }
                    match source.last_success_ms {
                        Some(x) => {
                            last_success = max_of(last_success, x);
                        },
                        None => {},
                    }
                    match &source.last_error {
                        Some(e) => {
                            let at = match source.last_attempt_ms {
                                Some(x) => x,
                                None => i64::MIN,
                            };
                            let replace = match &last_error {
                                Some(pair) => at > pair.0,
                                None => true,
                            };
                            if replace {
                                last_error = Some((at, bounded_signal_text(e.as_str(), 240)));
                            }
                        },
                        None => {},
                    }
                    let a = match channel {
                        Some(c) => source_availability(source, c, now_ms).0,
                        None => AvailabilityDto::Offline,
                    };
                    availabilities.push(a);
                    match cursor_position(source, now_ms) {
                        Some(v) => {
                            last_position = max_of(last_position, v);
                        },
                        None => {},
                    }
                    match latest_ais_observation(&source.items) {
                        Some(v) => {
                            last_position = max_of(last_position, v);
                        },
                        None => {},
                    }
                    if a == AvailabilityDto::Fresh {
                        let n = fresh_vessels(source, channel, now_ms);
                        fresh = fresh.saturating_add(n);
                    }
                },
            }
        }
        i = i + 1;
    }
    proof {
        assert(active_sources@.take(active_sources@.len() as int) =~= active_sources@);
    }
    let ghost t = ais_tally(*preferences, sources@, active_sources@, now_ms);
    let availability = overall(registered, &availabilities);
    let shown: Option<String> = match last_error {
        Some(pair) => {
            if pair.1.as_str().unicode_len() > 0 {
                Some(pair.1)
            } else {
                None
            }
        },
        None => None,
    };
    proof {
        reveal_strlit("rejected");
        reveal_strlit("starting");
    }
    let rejected = match &shown {
        Some(e) => contains_ignore_ascii_case(e.as_str(), "rejected"),
        None => false,
    };
    let starting = match &shown {
        Some(e) => contains_ignore_ascii_case(e.as_str(), "starting"),
        None => false,
    };
    let settling_now = last_success.is_none() && match first_attempt {
        Some(f) => saturating_sub_i64(now_ms, f) < SETTLING_MS,
        None => false,
    };
    let connection_state = if !preferences.ais.api_key_configured {
        AisConnectionStateDto::NeedsKey
    } else if rejected {
        AisConnectionStateDto::Rejected
    } else if registered && (!attempted || (starting && last_success.is_none())) {
        AisConnectionStateDto::Armed
    } else if availability == AvailabilityDto::Fresh && fresh > 0 {
        AisConnectionStateDto::Live
    } else if availability == AvailabilityDto::Fresh || (registered && settling_now) {
        AisConnectionStateDto::Armed
    } else {
        AisConnectionStateDto::Disconnected
    };
    let detail = detail_text(connection_state, settling_now, last_success.is_some(), fresh);
    let last_success_at = match last_success {
        Some(v) => match iso_timestamp(v) {
            Ok(text) => Some(text),
            Err(e) => return Err(e),
        },
        None => None,
    };
    let last_position_at = match last_position {
        Some(v) => match iso_timestamp(v) {
            Ok(text) => Some(text),
            Err(e) => return Err(e),
        },
        None => None,
    };
    Ok(AisStreamStatusDto {
        enabled: preferences.ais.api_key_configured,
        provider: preferences.ais.provider,
        api_key_configured: preferences.ais.api_key_configured,
        source_registered: registered,
        connection_state,
        availability,
        last_success_at,
        last_position_at,
        fresh_vessel_count: fresh,
        detail,
        last_error: shown,
    })
}

} // verus!
