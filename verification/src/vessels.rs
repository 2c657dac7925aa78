//! Which AIS vessel tracks are shown: plausible hulls reporting within the
//! last hour, each with its recent in-window points, Brickell passages ahead
//! of other traffic and the newest first, at most sixty-four of them.

use vstd::prelude::*;

use crate::dto::VesselMovementDto;
use crate::text::{ascii_digit, is_ascii_digit, str_chars, str_eq};

verus! {

/// How far back a track or a point may have been observed.
pub const TRACK_WINDOW_MS: i64 = 3_600_000;

/// How far ahead of the clock a report may be stamped and still count.
pub const CLOCK_SKEW_MS: i64 = 30_000;

/// The most recent points kept per track.
pub const MAX_TRACK_POINTS: usize = 121;

/// The most tracks listed.
pub const MAX_VESSEL_TRACKS: usize = 64;

/// The millisecond Unix time that an RFC 3339 timestamp text names, if it parses.
pub uninterp spec fn timestamp_millis_of(text: Seq<char>) -> Option<i64>;

/// Parses `text` with `jiff::Timestamp`'s `FromStr` and takes
/// `as_millisecond`. The offset written in the text fixes the instant, so the
/// result depends on the text alone.
#[verifier::external_body]
fn parse_timestamp_millis(text: &str) -> (r: Option<i64>)
    ensures
        r == timestamp_millis_of(text@),
{
    match text.parse::<jiff::Timestamp>() {
        Ok(t) => Some(t.as_millisecond()),
        Err(_) => None,
    }
}

/// One reported position of a track: when it was observed, and whether its
/// coordinates are a valid latitude and longitude.
#[derive(Clone, Debug)]
pub struct TrackPoint {
    pub observed_at: String,
    pub coordinates_valid: bool,
}

/// A vessel track as the collector reported it, reduced to what selection
/// reads. `motion_valid` says that the reported speed and course are finite
/// and in their ranges.
#[derive(Clone, Debug)]
pub struct TrackSummary {
    pub mmsi: String,
    pub observed_at: String,
    pub motion_valid: bool,
    pub route_intersects: bool,
    pub points: Vec<TrackPoint>,
}

/// A listed track: its position in the input, when it was observed, whether
/// its route crosses the bridge, and the positions of the points kept.
#[derive(Clone, Debug, PartialEq, Eq)]
pub struct SelectedTrack {
    pub index: usize,
    pub observed_ms: i64,
    pub route_intersects: bool,
    pub points: Vec<usize>,
}

/// Nine ASCII digits.
pub open spec fn mmsi_valid(m: Seq<char>) -> bool {
    m.len() == 9 && forall|i: int| 0 <= i < 9 ==> is_ascii_digit(#[trigger] m[i])
}

/// An hour before `now`, saturating.
pub open spec fn window_start(now: i64) -> int {
    if now - TRACK_WINDOW_MS < i64::MIN {
        i64::MIN as int
    } else {
        now - TRACK_WINDOW_MS
    }
}

/// Thirty seconds after `now`, saturating.
pub open spec fn window_end(now: i64) -> int {
    if now + CLOCK_SKEW_MS > i64::MAX {
        i64::MAX as int
    } else {
        now + CLOCK_SKEW_MS
    }
}

pub open spec fn within_window(t: Option<i64>, now: i64) -> bool {
    match t {
        Some(v) => window_start(now) <= v <= window_end(now),
        None => false,
    }
}

pub open spec fn point_kept(p: TrackPoint, now: i64) -> bool {
    within_window(timestamp_millis_of(p.observed_at@), now) && p.coordinates_valid
}

/// The positions, among the first `n` points, of those observed in the
/// window with valid coordinates.
pub open spec fn passing_points(ps: Seq<TrackPoint>, now: i64, n: int) -> Seq<usize>
    decreases n,
{
    if n <= 0 {
        Seq::empty()
    } else {
        let before = passing_points(ps, now, n - 1);
        if point_kept(ps[n - 1], now) {
            before.push((n - 1) as usize)
        } else {
            before
        }
    }
}

/// The last `MAX_TRACK_POINTS` of the passing points.
pub open spec fn kept_points(ps: Seq<TrackPoint>, now: i64) -> Seq<usize> {
    let all = passing_points(ps, now, ps.len() as int);
    if all.len() > MAX_TRACK_POINTS {
        all.skip(all.len() - MAX_TRACK_POINTS)
    } else {
        all
    }
}

/// A track is shown when its MMSI is nine digits, it was observed in the
/// window, its motion is plausible, and at least one point is kept.
pub open spec fn track_shown(t: TrackSummary, now: i64) -> bool {
    &&& mmsi_valid(t.mmsi@)
    &&& within_window(timestamp_millis_of(t.observed_at@), now)
    &&& t.motion_valid
    &&& kept_points(t.points@, now).len() > 0
}

/// The listing order on (crosses the route, observed at, input position):
/// route-crossing tracks first, then the newest, then the earlier input.
pub open spec fn listed_before(a: (bool, int, int), b: (bool, int, int)) -> bool {
    (a.0 && !b.0) || (a.0 == b.0 && (a.1 > b.1 || (a.1 == b.1 && a.2 < b.2)))
}

pub open spec fn selected_key(s: SelectedTrack) -> (bool, int, int) {
    (s.route_intersects, s.observed_ms as int, s.index as int)
}

pub open spec fn track_key(tracks: Seq<TrackSummary>, k: int) -> (bool, int, int) {
    (tracks[k].route_intersects, timestamp_millis_of(tracks[k].observed_at@).unwrap() as int, k)
}

/// `s` is the listing of a shown input track.
pub open spec fn describes(s: SelectedTrack, tracks: Seq<TrackSummary>, now: i64) -> bool {
    &&& s.index < tracks.len()
    &&& track_shown(tracks[s.index as int], now)
    &&& timestamp_millis_of(tracks[s.index as int].observed_at@) == Some(s.observed_ms)
    &&& s.route_intersects == tracks[s.index as int].route_intersects
    &&& s.points@ == kept_points(tracks[s.index as int].points@, now)
}

pub fn mmsi_is_valid(mmsi: &str) -> (r: bool)
    ensures
        r == mmsi_valid(mmsi@),
{
    let cs = str_chars(mmsi);
    if cs.len() != 9 {
        return false;
    }
    let mut i: usize = 0;
    while i < 9
        invariant
            cs@ == mmsi@,
            cs.len() == 9,
            i <= 9,
            forall|j: int| 0 <= j < i ==> is_ascii_digit(#[trigger] cs@[j]),
        decreases 9 - i,
    {
        if !ascii_digit(cs[i]) {
            return false;
        }
        i += 1;
    }
    true
}

fn window_bounds(now: i64) -> (r: (i64, i64))
    ensures
        r.0 == window_start(now),
        r.1 == window_end(now),
{
    let start = if now < i64::MIN + TRACK_WINDOW_MS {
        i64::MIN
    } else {
        now - TRACK_WINDOW_MS
    };
    let end = if now > i64::MAX - CLOCK_SKEW_MS {
        i64::MAX
    } else {
        now + CLOCK_SKEW_MS
    };
    (start, end)
}

fn in_window(t: Option<i64>, start: i64, end: i64) -> (r: bool)
    ensures
        r == (match t {
            Some(v) => start <= v <= end,
            None => false,
        }),
{
    match t {
        Some(v) => start <= v && v <= end,
        None => false,
    }
}

/// The positions of the points kept for a track.
pub fn kept_point_indices(points: &Vec<TrackPoint>, now: i64) -> (r: Vec<usize>)
    ensures
        r@ == kept_points(points@, now),
{
    let (start, end) = window_bounds(now);
    let mut all: Vec<usize> = Vec::new();
    let mut i: usize = 0;
    while i < points.len()
        invariant
            i <= points.len(),
            start == window_start(now),
            end == window_end(now),
            all@ == passing_points(points@, now, i as int),
            all.len() <= i,
        decreases points.len() - i,
    {
        let t = parse_timestamp_millis(points[i].observed_at.as_str());
        let keep = in_window(t, start, end) && points[i].coordinates_valid;
        if keep {
            all.push(i);
        }
        i += 1;
    }
    if all.len() > MAX_TRACK_POINTS {
        let skip = all.len() - MAX_TRACK_POINTS;
        let mut r: Vec<usize> = Vec::new();
        let mut j: usize = skip;
        while j < all.len()
            invariant
                skip <= j <= all.len(),
                r@ == all@.subrange(skip as int, j as int),
            decreases all.len() - j,
        {
            r.push(all[j]);
            j += 1;
        }
        r
    } else {
        all
    }
}

fn track_candidate(t: &TrackSummary, index: usize, now: i64) -> (r: Option<SelectedTrack>)
    ensures
        match r {
            Some(s) => {
                &&& s.index == index
                &&& track_shown(*t, now)
                &&& timestamp_millis_of(t.observed_at@) == Some(s.observed_ms)
                &&& s.route_intersects == t.route_intersects
                &&& s.points@ == kept_points(t.points@, now)
            },
            None => !track_shown(*t, now),
        },
{
    let (start, end) = window_bounds(now);
    let observed = parse_timestamp_millis(t.observed_at.as_str());
    let observed_ms = match observed {
        Some(v) => v,
        None => {
            return None;
        },
    };
    if !mmsi_is_valid(t.mmsi.as_str()) || !in_window(observed, start, end) || !t.motion_valid {
        return None;
    }
    let points = kept_point_indices(&t.points, now);
    if points.len() == 0 {
        return None;
    }
    Some(SelectedTrack { index, observed_ms, route_intersects: t.route_intersects, points })
}

fn listed_first(a: &SelectedTrack, b: &SelectedTrack) -> (r: bool)
    ensures
        r == listed_before(selected_key(*a), selected_key(*b)),
{
    (a.route_intersects && !b.route_intersects) || (a.route_intersects == b.route_intersects && (
    a.observed_ms > b.observed_ms || (a.observed_ms == b.observed_ms && a.index < b.index)))
}

/// The tracks to show, in listing order: every shown track if there are at
/// most `MAX_VESSEL_TRACKS` of them, else the first `MAX_VESSEL_TRACKS` in
/// that order.
pub fn select_vessel_tracks(tracks: &[TrackSummary], now_ms: i64) -> (r: Vec<SelectedTrack>)
    ensures
        r.len() <= MAX_VESSEL_TRACKS,
        forall|j: int| 0 <= j < r.len() ==> describes(#[trigger] r@[j], tracks@, now_ms),
        forall|i: int, j: int|
            0 <= i < j < r.len() ==> listed_before(
                selected_key(#[trigger] r@[i]),
                selected_key(#[trigger] r@[j]),
            ),
        forall|k: int|
            0 <= k < tracks.len() && #[trigger] track_shown(tracks@[k], now_ms) ==> (exists|j: int|
                0 <= j < r.len() && (#[trigger] r@[j]).index == k) || (r.len() == MAX_VESSEL_TRACKS
                && forall|j: int|
                0 <= j < r.len() ==> listed_before(
                    selected_key(#[trigger] r@[j]),
                    track_key(tracks@, k),
                )),
{
    let mut listed: Vec<SelectedTrack> = Vec::new();
    let mut k: usize = 0;
    while k < tracks.len()
        invariant
            k <= tracks.len(),
            forall|j: int|
                0 <= j < listed.len() ==> describes(#[trigger] listed@[j], tracks@, now_ms)
                    && listed@[j].index < k,
            forall|i: int, j: int|
                0 <= i < j < listed.len() ==> listed_before(
                    selected_key(#[trigger] listed@[i]),
                    selected_key(#[trigger] listed@[j]),
                ),
            forall|m: int|
                0 <= m < k && #[trigger] track_shown(tracks@[m], now_ms) ==> exists|j: int|
                    0 <= j < listed.len() && (#[trigger] listed@[j]).index == m,
        decreases tracks.len() - k,
    {
        match track_candidate(&tracks[k], k, now_ms) {
            Some(s) => {
                let mut pos: usize = 0;
                while pos < listed.len() && listed_first(&listed[pos], &s)
                    invariant
                        pos <= listed.len(),
                        forall|j: int|
                            0 <= j < pos ==> listed_before(
                                selected_key(#[trigger] listed@[j]),
                                selected_key(s),
                            ),
                    decreases listed.len() - pos,
                {
                    pos += 1;
                }
                let ghost before = listed@;
                listed.insert(pos, s);
                assert forall|m: int|
                    0 <= m < k + 1 && #[trigger] track_shown(tracks@[m], now_ms) implies exists|
                    j: int,
                | 0 <= j < listed.len() && (#[trigger] listed@[j]).index == m by {
                    if m < k {
                        let j0 = choose|j: int| 0 <= j < before.len() && (#[trigger] before[j]).index == m;
                        if j0 < pos {
                            assert(listed@[j0] == before[j0]);
                        } else {
                            assert(listed@[j0 + 1] == before[j0]);
                        }
                    } else {
                        assert(listed@[pos as int] == s);
                    }
                }
            },
            None => {},
        }
        k += 1;
    }
    let ghost full = listed@;
    listed.truncate(MAX_VESSEL_TRACKS);
    assert forall|m: int|
        0 <= m < tracks.len() && #[trigger] track_shown(tracks@[m], now_ms) implies (exists|j: int|
        0 <= j < listed.len() && (#[trigger] listed@[j]).index == m) || (listed.len()
        == MAX_VESSEL_TRACKS && forall|j: int|
        0 <= j < listed.len() ==> listed_before(
            selected_key(#[trigger] listed@[j]),
            track_key(tracks@, m),
        )) by {
        let j0 = choose|j: int| 0 <= j < full.len() && (#[trigger] full[j]).index == m;
        if j0 < listed.len() {
            assert(listed@[j0] == full[j0]);
        } else {
            assert(selected_key(full[j0]) == track_key(tracks@, m));
            assert forall|j: int| 0 <= j < listed.len() implies listed_before(
                selected_key(#[trigger] listed@[j]),
                track_key(tracks@, m),
            ) by {
                assert(listed@[j] == full[j]);
            }
        }
    }
    listed
}

/// The propensity the ledger records for `mmsi`: the first entry with that key.
pub open spec fn ledger_lookup(ledger: Seq<(String, u16)>, mmsi: Seq<char>) -> Option<u16>
    decreases ledger.len(),
{
    if ledger.len() == 0 {
        None
    } else if ledger[0].0@ == mmsi {
        Some(ledger[0].1)
    } else {
        ledger_lookup(ledger.drop_first(), mmsi)
    }
}

pub fn ledger_propensity(ledger: &[(String, u16)], mmsi: &str) -> (r: Option<u16>)
    ensures
        r == ledger_lookup(ledger@, mmsi@),
{
    let mut i: usize = 0;
    assert(ledger@.skip(0) == ledger@);
    while i < ledger.len()
        invariant
            i <= ledger.len(),
            ledger_lookup(ledger@, mmsi@) == ledger_lookup(ledger@.skip(i as int), mmsi@),
        decreases ledger.len() - i,
    {
        assert(ledger@.skip(i as int).drop_first() == ledger@.skip(i + 1));
        if str_eq(ledger[i].0.as_str(), mmsi) {
            return Some(ledger[i].1);
        }
        i += 1;
    }
    None
}

/// Tugs with tows, tugs and pilot craft may be passed outside the schedule.
pub open spec fn exempt_class(vessel_class: Option<Seq<char>>) -> bool {
    vessel_class == Some("tug + tow"@) || vessel_class == Some("tug"@) || vessel_class == Some(
        "pilot"@,
    )
}

pub fn schedule_exempt(vessel_class: Option<&str>) -> (r: bool)
    ensures
        r == exempt_class(
            match vessel_class {
                Some(c) => Some(c@),
                None => None,
            },
        ),
{
    match vessel_class {
        Some(c) => str_eq(c, "tug + tow") || str_eq(c, "tug") || str_eq(c, "pilot"),
        None => false,
    }
}

pub open spec fn opt_view(s: Option<&str>) -> Option<Seq<char>> {
    match s {
        Some(c) => Some(c@),
        None => None,
    }
}

/// A hull whose learned propensity reaches the threshold.
pub open spec fn learned_opener_spec(propensity: Option<u16>, threshold_bps: u16) -> bool {
    match propensity {
        Some(p) => p >= threshold_bps,
        None => false,
    }
}

pub fn learned_opener(propensity: Option<u16>, threshold_bps: u16) -> (r: bool)
    ensures
        r == learned_opener_spec(propensity, threshold_bps),
{
    match propensity {
        Some(p) => p >= threshold_bps,
        None => false,
    }
}

/// A learned opener approaching while under way, waiting or holding is
/// committed to the bridge.
pub open spec fn committed_spec(learned: bool, movement: VesselMovementDto, posture: Option<Seq<char>>) -> bool {
    learned && movement == VesselMovementDto::Approaching && (posture == Some("underway"@) || posture
        == Some("waiting"@) || posture == Some("holding"@))
}

pub fn known_opener_committed(learned: bool, movement: VesselMovementDto, posture: Option<&str>) -> (r: bool)
    ensures
        r == committed_spec(learned, movement, opt_view(posture)),
{
    let committed_posture = match posture {
        Some(p) => str_eq(p, "underway") || str_eq(p, "waiting") || str_eq(p, "holding"),
        None => false,
    };
    learned && movement == VesselMovementDto::Approaching && committed_posture
}

/// The earliest observation time a committed tight approach may carry:
/// `now` less the retention period, each step saturating.
pub open spec fn approach_cutoff(now: i64, retention_seconds: u64) -> int {
    let secs: int = if retention_seconds > i64::MAX {
        i64::MAX as int
    } else {
        retention_seconds as int
    };
    let ms: int = if secs * 1000 > i64::MAX {
        i64::MAX as int
    } else {
        secs * 1000
    };
    if now - ms < i64::MIN {
        i64::MIN as int
    } else {
        now - ms
    }
}

/// A track is likely to open the bridge when there is opening evidence (a
/// learned opener, or a sailing rig), it is approaching on a route that
/// crosses the bridge, it was observed within the retention period, its
/// earliest arrival is within `eta_limit_minutes`, and an opening is predicted.
pub open spec fn likely_to_open_spec(
    learned: bool,
    vessel_class: Option<Seq<char>>,
    movement: VesselMovementDto,
    route_intersects: bool,
    observed_ms: i64,
    now_ms: i64,
    retention_seconds: u64,
    eta_min_minutes: Option<u16>,
    eta_limit_minutes: u16,
    has_predicted_opening: bool,
) -> bool {
    &&& (learned || vessel_class == Some("sailing"@))
    &&& movement == VesselMovementDto::Approaching
    &&& route_intersects
    &&& observed_ms >= approach_cutoff(now_ms, retention_seconds)
    &&& (match eta_min_minutes {
        Some(m) => m <= eta_limit_minutes,
        None => false,
    })
    &&& has_predicted_opening
}

pub fn likely_to_open(
    learned: bool,
    vessel_class: Option<&str>,
    movement: VesselMovementDto,
    route_intersects: bool,
    observed_ms: i64,
    now_ms: i64,
    retention_seconds: u64,
    eta_min_minutes: Option<u16>,
    eta_limit_minutes: u16,
    has_predicted_opening: bool,
) -> (r: bool)
    ensures
        r == likely_to_open_spec(
            learned,
            opt_view(vessel_class),
            movement,
            route_intersects,
            observed_ms,
            now_ms,
            retention_seconds,
            eta_min_minutes,
            eta_limit_minutes,
            has_predicted_opening,
        ),
{
    let sailing = match vessel_class {
        Some(c) => str_eq(c, "sailing"),
        None => false,
    };
    let secs: i64 = if retention_seconds > 0x7fff_ffff_ffff_ffff {
        i64::MAX
    } else {
        retention_seconds as i64
    };
    let ms: i64 = if secs > i64::MAX / 1000 {
        i64::MAX
    } else {
        secs * 1000
    };
    let cutoff: i64 = if now_ms < i64::MIN + ms {
        i64::MIN
    } else {
        now_ms - ms
    };
    let soon = match eta_min_minutes {
        Some(m) => m <= eta_limit_minutes,
        None => false,
    };
    (learned || sailing) && movement == VesselMovementDto::Approaching && route_intersects
        && observed_ms >= cutoff && soon && has_predicted_opening
}

/// What a likely opener must be: approaching the bridge (a track moving
/// away, standing still or of unknown motion never is), on a route that
/// crosses it, with opening evidence (a learned opener or a sailing rig),
/// observed within the retention period, due within `eta_limit_minutes`, and
/// with an opening predicted for it.
pub proof fn lemma_likely_opener_needs_an_approach(
    learned: bool,
    vessel_class: Option<Seq<char>>,
    movement: VesselMovementDto,
    route_intersects: bool,
    observed_ms: i64,
    now_ms: i64,
    retention_seconds: u64,
    eta_min_minutes: Option<u16>,
    eta_limit_minutes: u16,
    has_predicted_opening: bool,
)
    ensures
        likely_to_open_spec(learned, vessel_class, movement, route_intersects, observed_ms, now_ms, retention_seconds,
            eta_min_minutes, eta_limit_minutes, has_predicted_opening) ==> {
            &&& movement == VesselMovementDto::Approaching
            &&& route_intersects
            &&& (learned || vessel_class == Some("sailing"@))
            &&& observed_ms >= now_ms - (if retention_seconds * 1000 > i64::MAX { i64::MAX as int } else { retention_seconds * 1000 })
            &&& eta_min_minutes matches Some(m) && m <= eta_limit_minutes
            &&& has_predicted_opening
        },
        movement != VesselMovementDto::Approaching ==> !likely_to_open_spec(learned, vessel_class, movement, route_intersects,
            observed_ms, now_ms, retention_seconds, eta_min_minutes, eta_limit_minutes, has_predicted_opening),
{
}

} // verus!
