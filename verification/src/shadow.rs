//! The context features of the shadow opening model: upstream lifts, the
//! pilots' board and the legal schedule, as they stood at a forecast minute.
//! The vessel-motion features and the logistic score are computed beside
//! the library, where their floating-point arithmetic lives.

use vstd::prelude::*;

use crate::runtime::{upstream_rank, upstream_rank_spec};
use crate::text::str_eq;

verus! {

pub const MINUTE_MS: i64 = 60_000;
pub const UPSTREAM_LOOKBACK_MS: i64 = 1_800_000;
pub const BOARD_GRACE_MS: i64 = 600_000;

/// The start of one bridge lift.
#[derive(Clone, Debug, PartialEq, Eq)]
pub struct ShadowLift {
    pub key: String,
    pub relation: String,
    pub at: i64,
}

/// One revision of a pilots'-board booking.
#[derive(Clone, Debug, PartialEq, Eq)]
pub struct ShadowBooking {
    pub direction: String,
    pub scheduled_at: i64,
    pub first_seen: i64,
    pub last_seen: i64,
}

/// The legal schedule at the forecast minute.
#[derive(Clone, Debug, PartialEq, Eq)]
pub struct ShadowSchedule {
    pub mode: String,
    pub local_hour: u8,
    pub seconds_to_slot: i64,
}

/// The minutes around a booked transit, by direction, in which an opening
/// is expected.
#[derive(Clone, Debug, PartialEq, Eq)]
pub struct BoardWindow {
    pub direction: String,
    pub low_minutes: i64,
    pub high_minutes: i64,
}

/// The context features, each set or not.
#[derive(Clone, Copy, Debug, PartialEq, Eq, Structural)]
pub struct ContextFeatures {
    pub up_any15: bool,
    pub up_two20: bool,
    pub up_sw2ave12: bool,
    pub up_sw1st12: bool,
    pub up_ordered20: bool,
    pub bbp_down: bool,
    pub bbp_up: bool,
    pub sched_weekday: bool,
    pub blackout: bool,
    pub slot_soon: bool,
    pub daytime: bool,
    pub recent_open30: bool,
}

/// An upstream lift the model reads: of a ranked upstream span, in the last
/// half hour, not after now.
pub open spec fn upstream_lift(l: ShadowLift, now: i64) -> bool {
    &&& l.relation@ == "upstream"@
    &&& upstream_rank_spec(l.key@) is Some
    &&& now - UPSTREAM_LOOKBACK_MS <= l.at <= now
}

/// An upstream lift within the last `minutes`.
pub open spec fn lifted_within(l: ShadowLift, now: i64, minutes: int) -> bool {
    upstream_lift(l, now) && l.at >= now - minutes * MINUTE_MS
}

pub open spec fn some_lift(lifts: Seq<ShadowLift>, now: i64, minutes: int) -> bool {
    exists|i: int| 0 <= i < lifts.len() && lifted_within(#[trigger] lifts[i], now, minutes)
}

pub open spec fn some_lift_of(lifts: Seq<ShadowLift>, now: i64, minutes: int, key: Seq<char>) -> bool {
    exists|i: int| 0 <= i < lifts.len() && lifted_within(#[trigger] lifts[i], now, minutes) && lifts[i].key@ == key
}

/// Two different spans lifted within the last `minutes`.
pub open spec fn two_spans(lifts: Seq<ShadowLift>, now: i64, minutes: int) -> bool {
    exists|i: int, j: int| 0 <= i < lifts.len() && 0 <= j < lifts.len()
        && lifted_within(#[trigger] lifts[i], now, minutes) && lifted_within(#[trigger] lifts[j], now, minutes)
        && lifts[i].key@ != lifts[j].key@
}

/// `(a_at, a_rank)` comes no later than `(b_at, b_rank)`, time first.
pub open spec fn lift_before(a: ShadowLift, b: ShadowLift) -> bool {
    a.at < b.at || (a.at == b.at && upstream_rank_spec(a.key@).unwrap() <= upstream_rank_spec(b.key@).unwrap())
}

/// The lifts of the last twenty minutes, taken in time order, walk
/// downstream: at least two, each later one at a lower rank.
pub open spec fn ordered_run(lifts: Seq<ShadowLift>, now: i64) -> bool {
    &&& exists|i: int, j: int| 0 <= i < j < lifts.len() && lifted_within(#[trigger] lifts[i], now, 20) && lifted_within(#[trigger] lifts[j], now, 20)
    &&& forall|i: int, j: int| 0 <= i < lifts.len() && 0 <= j < lifts.len() && i != j
        && lifted_within(#[trigger] lifts[i], now, 20) && lifted_within(#[trigger] lifts[j], now, 20)
        && lift_before(lifts[i], lifts[j])
        ==> upstream_rank_spec(lifts[j].key@).unwrap() < upstream_rank_spec(lifts[i].key@).unwrap()
}

pub open spec fn target_opened(lifts: Seq<ShadowLift>, now: i64) -> bool {
    exists|i: int| 0 <= i < lifts.len() && (#[trigger] lifts[i]).relation@ == "target"@
        && lifts[i].at >= now - 30 * MINUTE_MS && lifts[i].at < now
}

/// The window kept for `direction`: the first one with that direction.
pub open spec fn window_from(ws: Seq<BoardWindow>, direction: Seq<char>, i: int) -> Option<(i64, i64)>
    decreases ws.len() - i,
{
    if i < 0 || i >= ws.len() {
        None
    } else if ws[i].direction@ == direction {
        Some((ws[i].low_minutes, ws[i].high_minutes))
    } else {
        window_from(ws, direction, i + 1)
    }
}

/// A booking still on the board whose window around its transit holds now.
pub open spec fn booking_active(b: ShadowBooking, ws: Seq<BoardWindow>, now: i64) -> bool {
    &&& b.first_seen <= now <= b.last_seen + BOARD_GRACE_MS
    &&& match window_from(ws, b.direction@, 0) {
        Some(w) => b.scheduled_at + w.0 * MINUTE_MS <= now <= b.scheduled_at + w.1 * MINUTE_MS,
        None => false,
    }
}

pub open spec fn booked(board: Seq<BoardWindow>, bookings: Seq<ShadowBooking>, now: i64, downriver: bool) -> bool {
    exists|i: int| 0 <= i < bookings.len() && booking_active(#[trigger] bookings[i], board, now)
        && (bookings[i].direction@ == "downriver"@) == downriver
}

/// The context features at `now`.
pub open spec fn context_features_spec(
    now: i64,
    lifts: Seq<ShadowLift>,
    bookings: Seq<ShadowBooking>,
    s: ShadowSchedule,
    windows: Seq<BoardWindow>,
) -> ContextFeatures {
    let daytime = 7 <= s.local_hour < 22;
    ContextFeatures {
        up_any15: some_lift(lifts, now, 15),
        up_two20: two_spans(lifts, now, 20),
        up_sw2ave12: some_lift_of(lifts, now, 12, "sw_2_ave"@),
        up_sw1st12: some_lift_of(lifts, now, 12, "sw_1_st"@),
        up_ordered20: ordered_run(lifts, now),
        bbp_down: booked(windows, bookings, now, true),
        bbp_up: booked(windows, bookings, now, false),
        sched_weekday: s.mode@ == "scheduled"@,
        blackout: s.mode@ == "blackout"@,
        slot_soon: daytime && s.seconds_to_slot <= 720,
        daytime: daytime,
        recent_open30: target_opened(lifts, now),
    }
}


fn lift_within(l: &ShadowLift, now: i64, minutes: i64) -> (r: bool)
    requires
        0 <= minutes <= 30,
    ensures
        r == lifted_within(*l, now, minutes as int),
{
    proof {
        reveal_strlit("upstream");
    }
    let at = l.at as i128;
    let n = now as i128;
    str_eq(l.relation.as_str(), "upstream")
        && upstream_rank(l.key.as_str()).is_some()
        && n - (UPSTREAM_LOOKBACK_MS as i128) <= at && at <= n
        && at >= n - (minutes as i128) * (MINUTE_MS as i128)
}

fn any_lift(lifts: &[ShadowLift], now: i64, minutes: i64, key: Option<&str>) -> (r: bool)
    requires
        0 <= minutes <= 30,
    ensures
        key is None ==> r == some_lift(lifts@, now, minutes as int),
        key is Some ==> r == some_lift_of(lifts@, now, minutes as int, key.unwrap()@),
{
    let mut i: usize = 0;
    while i < lifts.len()
        invariant
            0 <= minutes <= 30,
            i <= lifts@.len(),
            key is None ==> forall|k: int| 0 <= k < i ==> !lifted_within(#[trigger] lifts@[k], now, minutes as int),
            key is Some ==> forall|k: int| 0 <= k < i ==> !(lifted_within(#[trigger] lifts@[k], now, minutes as int) && lifts@[k].key@ == key.unwrap()@),
        decreases lifts@.len() - i,
    {
        if lift_within(&lifts[i], now, minutes) {
            match key {
                None => return true,
                Some(k) => {
                    if str_eq(lifts[i].key.as_str(), k) {
                        return true;
                    }
                },
            }
        }
        i = i + 1;
    }
    false
}

fn spans_lifted(lifts: &[ShadowLift], now: i64) -> (r: bool)
    ensures
        r == two_spans(lifts@, now, 20),
{
    let mut i: usize = 0;
    while i < lifts.len()
        invariant
            i <= lifts@.len(),
            forall|a: int, b: int| 0 <= a < i && 0 <= b < lifts@.len()
                && lifted_within(#[trigger] lifts@[a], now, 20) && lifted_within(#[trigger] lifts@[b], now, 20)
                ==> lifts@[a].key@ == lifts@[b].key@,
        decreases lifts@.len() - i,
    {
        if lift_within(&lifts[i], now, 20) {
            let mut j: usize = 0;
            while j < lifts.len()
                invariant
                    i < lifts@.len(),
                    j <= lifts@.len(),
                    lifted_within(lifts@[i as int], now, 20),
                    forall|b: int| 0 <= b < j && lifted_within(#[trigger] lifts@[b], now, 20) ==> lifts@[i as int].key@ == lifts@[b].key@,
                decreases lifts@.len() - j,
            {
                if lift_within(&lifts[j], now, 20) && !str_eq(lifts[i].key.as_str(), lifts[j].key.as_str()) {
                    return true;
                }
                j = j + 1;
            }
        }
        i = i + 1;
    }
    false
}

fn rank_of(l: &ShadowLift) -> (r: u8)
    requires
        upstream_rank_spec(l.key@) is Some,
    ensures
        r == upstream_rank_spec(l.key@).unwrap(),
{
    match upstream_rank(l.key.as_str()) {
        Some(r) => r,
        None => 0,
    }
}

pub open spec fn two_lifted(lifts: Seq<ShadowLift>, now: i64) -> bool {
    exists|i: int, j: int| 0 <= i < j < lifts.len() && lifted_within(#[trigger] lifts[i], now, 20) && lifted_within(#[trigger] lifts[j], now, 20)
}

pub open spec fn downstream_pairs(lifts: Seq<ShadowLift>, now: i64, n: int) -> bool {
    forall|i: int, j: int| 0 <= i < n && 0 <= j < n && i != j
        && lifted_within(#[trigger] lifts[i], now, 20) && lifted_within(#[trigger] lifts[j], now, 20)
        && lift_before(lifts[i], lifts[j])
        ==> upstream_rank_spec(lifts[j].key@).unwrap() < upstream_rank_spec(lifts[i].key@).unwrap()
}

fn at_least_two(lifts: &[ShadowLift], now: i64) -> (r: bool)
    ensures
        r == two_lifted(lifts@, now),
{
    let mut first: usize = 0;
    while first < lifts.len() && !lift_within(&lifts[first], now, 20)
        invariant
            first <= lifts@.len(),
            forall|k: int| 0 <= k < first ==> !lifted_within(#[trigger] lifts@[k], now, 20),
        decreases lifts@.len() - first,
    {
        first = first + 1;
    }
    if first == lifts.len() {
        return false;
    }
    let mut second: usize = first + 1;
    while second < lifts.len()
        invariant
            first < second <= lifts@.len(),
            lifted_within(lifts@[first as int], now, 20),
            forall|k: int| 0 <= k < first ==> !lifted_within(#[trigger] lifts@[k], now, 20),
            forall|k: int| first < k < second ==> !lifted_within(#[trigger] lifts@[k], now, 20),
        decreases lifts@.len() - second,
    {
        if lift_within(&lifts[second], now, 20) {
            return true;
        }
        second = second + 1;
    }
    proof {
        assert forall|a: int, b: int| 0 <= a < b < lifts@.len() && lifted_within(#[trigger] lifts@[a], now, 20)
            implies !lifted_within(#[trigger] lifts@[b], now, 20) by {
            assert(a == first as int);
        }
    }
    false
}

fn walks_downstream(lifts: &[ShadowLift], now: i64) -> (r: bool)
    ensures
        r == ordered_run(lifts@, now),
{
    if !at_least_two(lifts, now) {
        return false;
    }
    let mut i: usize = 0;
    while i < lifts.len()
        invariant
            i <= lifts@.len(),
            two_lifted(lifts@, now),
            downstream_pairs(lifts@, now, i as int),
        decreases lifts@.len() - i,
    {
        if lift_within(&lifts[i], now, 20) {
            let ri = rank_of(&lifts[i]);
            let mut j: usize = 0;
            while j < i
                invariant
                    i < lifts@.len(),
                    j <= i,
                    two_lifted(lifts@, now),
                    downstream_pairs(lifts@, now, i as int),
                    lifted_within(lifts@[i as int], now, 20),
                    ri == upstream_rank_spec(lifts@[i as int].key@).unwrap(),
                    forall|b: int| 0 <= b < j && lifted_within(#[trigger] lifts@[b], now, 20) ==> {
                        &&& (lift_before(lifts@[b], lifts@[i as int]) ==> upstream_rank_spec(lifts@[i as int].key@).unwrap() < upstream_rank_spec(lifts@[b].key@).unwrap())
                        &&& (lift_before(lifts@[i as int], lifts@[b]) ==> upstream_rank_spec(lifts@[b].key@).unwrap() < upstream_rank_spec(lifts@[i as int].key@).unwrap())
                    },
                decreases i - j,
            {
                if lift_within(&lifts[j], now, 20) {
                    let rj = rank_of(&lifts[j]);
                    let j_first = lifts[j].at < lifts[i].at || (lifts[j].at == lifts[i].at && rj <= ri);
                    let i_first = lifts[i].at < lifts[j].at || (lifts[i].at == lifts[j].at && ri <= rj);
                    if (j_first && !(ri < rj)) || (i_first && !(rj < ri)) {
                        proof {
                            assert(lifted_within(lifts@[j as int], now, 20));
                            assert(!downstream_pairs(lifts@, now, lifts@.len() as int));
                        }
                        return false;
                    }
                }
                j = j + 1;
            }
        }
        proof {
            assert forall|a: int, b: int| 0 <= a < i + 1 && 0 <= b < i + 1 && a != b
                && lifted_within(#[trigger] lifts@[a], now, 20) && lifted_within(#[trigger] lifts@[b], now, 20)
                && lift_before(lifts@[a], lifts@[b])
                implies upstream_rank_spec(lifts@[b].key@).unwrap() < upstream_rank_spec(lifts@[a].key@).unwrap() by {
                if a < i && b < i {
                } else if a == i as int {
                    assert(lifted_within(lifts@[b], now, 20));
                } else {
                    assert(lifted_within(lifts@[a], now, 20));
                }
            }
        }
        i = i + 1;
    }
    true
}

fn window_of(ws: &[BoardWindow], direction: &str) -> (r: Option<(i64, i64)>)
    ensures
        r == window_from(ws@, direction@, 0),
{
    let mut i: usize = 0;
    while i < ws.len()
        invariant
            i <= ws@.len(),
            window_from(ws@, direction@, 0) == window_from(ws@, direction@, i as int),
        decreases ws@.len() - i,
    {
        if str_eq(ws[i].direction.as_str(), direction) {
            return Some((ws[i].low_minutes, ws[i].high_minutes));
        }
        i = i + 1;
    }
    None
}

fn board_expects(bookings: &[ShadowBooking], windows: &[BoardWindow], now: i64, downriver: bool) -> (r: bool)
    ensures
        r == booked(windows@, bookings@, now, downriver),
{
    proof {
        reveal_strlit("downriver");
    }
    let n = now as i128;
    let mut i: usize = 0;
    while i < bookings.len()
        invariant
            i <= bookings@.len(),
            n == now,
            forall|k: int| 0 <= k < i ==> !(booking_active(#[trigger] bookings@[k], windows@, now)
                && (bookings@[k].direction@ == "downriver"@) == downriver),
        decreases bookings@.len() - i,
    {
        let b = &bookings[i];
        let on_board = (b.first_seen as i128) <= n && n <= (b.last_seen as i128) + (BOARD_GRACE_MS as i128);
        let active = on_board && match window_of(windows, b.direction.as_str()) {
            Some((low, high)) => {
                (b.scheduled_at as i128) + (low as i128) * (MINUTE_MS as i128) <= n
                    && n <= (b.scheduled_at as i128) + (high as i128) * (MINUTE_MS as i128)
            },
            None => false,
        };
        if active && str_eq(b.direction.as_str(), "downriver") == downriver {
            return true;
        }
        i = i + 1;
    }
    false
}

fn target_lifted(lifts: &[ShadowLift], now: i64) -> (r: bool)
    ensures
        r == target_opened(lifts@, now),
{
    proof {
        reveal_strlit("target");
    }
    let n = now as i128;
    let mut i: usize = 0;
    while i < lifts.len()
        invariant
            i <= lifts@.len(),
            n == now,
            forall|k: int| 0 <= k < i ==> !((#[trigger] lifts@[k]).relation@ == "target"@
                && lifts@[k].at >= now - 30 * MINUTE_MS && lifts@[k].at < now),
        decreases lifts@.len() - i,
    {
        let at = lifts[i].at as i128;
        if str_eq(lifts[i].relation.as_str(), "target") && at >= n - 30 * (MINUTE_MS as i128) && at < n {
            return true;
        }
        i = i + 1;
    }
    false
}

/// The context features at `now`: recent upstream lifts and their order,
/// pilots'-board bookings whose window holds now, the legal mode, daytime
/// and a slot within twelve minutes, and a recent target opening.
pub fn context_features(
    now: i64,
    lifts: &[ShadowLift],
    bookings: &[ShadowBooking],
    schedule: &ShadowSchedule,
    windows: &[BoardWindow],
) -> (r: ContextFeatures)
    ensures
        r == context_features_spec(now, lifts@, bookings@, *schedule, windows@),
{
    proof {
        reveal_strlit("sw_2_ave");
        reveal_strlit("sw_1_st");
        reveal_strlit("scheduled");
        reveal_strlit("blackout");
    }
    let daytime = 7 <= schedule.local_hour && schedule.local_hour < 22;
    ContextFeatures {
        up_any15: any_lift(lifts, now, 15, None),
        up_two20: spans_lifted(lifts, now),
        up_sw2ave12: any_lift(lifts, now, 12, Some("sw_2_ave")),
        up_sw1st12: any_lift(lifts, now, 12, Some("sw_1_st")),
        up_ordered20: walks_downstream(lifts, now),
        bbp_down: board_expects(bookings, windows, now, true),
        bbp_up: board_expects(bookings, windows, now, false),
        sched_weekday: str_eq(schedule.mode.as_str(), "scheduled"),
        blackout: str_eq(schedule.mode.as_str(), "blackout"),
        slot_soon: daytime && schedule.seconds_to_slot <= 720,
        daytime,
        recent_open30: target_lifted(lifts, now),
    }
}


/// How the bridge may open under the legal schedule.
#[derive(Clone, Copy, Debug, PartialEq, Eq, Structural)]
pub enum OperatingMode {
    OnSignal,
    Scheduled,
    Blackout,
}

pub open spec fn mode_name(mode: OperatingMode) -> Seq<char> {
    match mode {
        OperatingMode::OnSignal => "on_signal"@,
        OperatingMode::Scheduled => "scheduled"@,
        OperatingMode::Blackout => "blackout"@,
    }
}

/// Seconds from `now_ms` to the next local `:00` or `:30`, given the local
/// clock's offset from UTC; zero on the slot itself.
pub open spec fn seconds_to_slot_spec(now_ms: i64, offset_seconds: i32) -> int {
    let into = ((now_ms as int) / 1000 + offset_seconds as int) % 1800;
    if into == 0 { 0 } else { 1800 - into }
}

/// The schedule as the shadow model reads it at `now_ms`: the legal mode,
/// the local hour and the seconds to the next half-hour slot.
pub fn shadow_schedule(mode: OperatingMode, local_hour: u8, offset_seconds: i32, now_ms: i64) -> (r: ShadowSchedule)
    ensures
        r.mode@ == mode_name(mode),
        r.local_hour == local_hour,
        r.seconds_to_slot == seconds_to_slot_spec(now_ms, offset_seconds),
{
    let n = now_ms as i128;
    let seconds: i128 = if n >= 0 { n / 1000 } else { -((-n + 999) / 1000) };
    proof {
        if n < 0 {
            assert(seconds == (now_ms as int) / 1000) by (nonlinear_arith)
                requires n < 0, seconds == -((-n + 999) / 1000), n == now_ms;
        }
    }
    let t = seconds + offset_seconds as i128;
    let into: i128 = if t >= 0 {
        t % 1800
    } else {
        let m = (-t) % 1800;
        if m == 0 { 0 } else { 1800 - m }
    };
    proof {
        if t < 0 {
            assert(into == t % 1800) by (nonlinear_arith)
                requires t < 0, into == (if (-t) % 1800 == 0 { 0 } else { 1800 - (-t) % 1800 });
        }
    }
    let slot: i64 = if into == 0 { 0 } else { (1800 - into) as i64 };
    let name = match mode {
        OperatingMode::OnSignal => "on_signal",
        OperatingMode::Scheduled => "scheduled",
        OperatingMode::Blackout => "blackout",
    };
    ShadowSchedule { mode: name.to_string(), local_hour, seconds_to_slot: slot }
}

} // verus!
