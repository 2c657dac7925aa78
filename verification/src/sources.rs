//! Which collectors the preferences call for: the plan of registrations a
//! collector factory carries out, one per source and channel.

use vstd::prelude::*;

use crate::decimal_text::{parse_point_text, point_text_value};
use crate::digest::{short_hash, short_hash_spec};
use crate::dto::{AlertArea, AlertAreaSource, AppPreferences, ChannelKindDto, ChannelPreference};
use crate::json::{object_get, value_as_array, value_as_str, JsonNumber, JsonObject, JsonValue};
use crate::number::{lemma_pow10_positive, pow10, pow10_exec, scaled_le, Decimal, Real};
use crate::rules::{eq_ignore_ascii_case, eq_ignore_ascii_case_spec};
use crate::runtime::{RuntimeError, TimeSpan};
use crate::text::{ascii_upper_seq, concat, owned, str_chars, str_eq, to_ascii_upper, trim, trim_chars, trim_seq};

verus! {

/// The USGS summary feed an earthquake channel reads.
#[derive(Clone, Copy, Debug, PartialEq, Eq, Structural)]
pub enum UsgsWindow {
    Hour,
    Day,
    Magnitude45Day,
}

pub open spec fn window_spec(value: Seq<char>) -> Option<UsgsWindow> {
    if value == "significant_hour"@ {
        Some(UsgsWindow::Hour)
    } else if value == "significant_day"@ {
        Some(UsgsWindow::Day)
    } else if value == "4.5_day"@ {
        Some(UsgsWindow::Magnitude45Day)
    } else {
        None
    }
}

pub fn window_from_text(value: &str) -> (r: Result<UsgsWindow, RuntimeError>)
    ensures
        match r {
            Ok(w) => window_spec(value@) == Some(w),
            Err(e) => window_spec(value@) is None && e is Configuration,
        },
{
    if str_eq(value, "significant_hour") {
        Ok(UsgsWindow::Hour)
    } else if str_eq(value, "significant_day") {
        Ok(UsgsWindow::Day)
    } else if str_eq(value, "4.5_day") {
        Ok(UsgsWindow::Magnitude45Day)
    } else {
        Err(RuntimeError::Configuration(concat("unsupported USGS feed ", value)))
    }
}

/// The display name of a market symbol: the well-known indices and futures
/// by name, anything else as written.
pub open spec fn market_label_spec(symbol: Seq<char>) -> Seq<char> {
    let u = ascii_upper_seq(trim_seq(symbol));
    if u == "^GSPC"@ { "S&P 500"@ }
    else if u == "^IXIC"@ { "NASDAQ"@ }
    else if u == "^DJI"@ { "DOW"@ }
    else if u == "^RUT"@ { "RUSSELL 2000"@ }
    else if u == "^VIX"@ { "VIX"@ }
    else if u == "CL=F"@ { "WTI"@ }
    else if u == "BZ=F"@ { "BRENT"@ }
    else { symbol }
}

/// `symbol` trimmed and upper-cased.
pub fn normalized_symbol(symbol: &str) -> (r: String)
    ensures
        r@ == ascii_upper_seq(trim_seq(symbol@)),
{
    let t = trim_chars(symbol);
    let mut out = String::new();
    let mut i: usize = 0;
    while i < t.len()
        invariant
            t@ == trim_seq(symbol@),
            i <= t@.len(),
            out@ == ascii_upper_seq(t@.take(i as int)),
        decreases t@.len() - i,
    {
        crate::text::push_char(&mut out, to_ascii_upper(t[i]));
        i = i + 1;
        proof {
            assert(ascii_upper_seq(t@.take(i as int)) =~= ascii_upper_seq(t@.take(i - 1)).push(crate::text::ascii_upper(t@[i - 1])));
        }
    }
    proof {
        assert(t@.take(t@.len() as int) =~= t@);
    }
    out
}

pub fn market_label(symbol: &str) -> (r: String)
    ensures
        r@ == market_label_spec(symbol@),
{
    let u = normalized_symbol(symbol);
    let s = u.as_str();
    if str_eq(s, "^GSPC") { owned("S&P 500") }
    else if str_eq(s, "^IXIC") { owned("NASDAQ") }
    else if str_eq(s, "^DJI") { owned("DOW") }
    else if str_eq(s, "^RUT") { owned("RUSSELL 2000") }
    else if str_eq(s, "^VIX") { owned("VIX") }
    else if str_eq(s, "CL=F") { owned("WTI") }
    else if str_eq(s, "BZ=F") { owned("BRENT") }
    else { owned(symbol) }
}

/// Whether the National Weather Service covers an area: one in the United
/// States, or one placed by the device or by hand without a country.
pub open spec fn supports_nws_spec(area: AlertArea) -> bool {
    (area.country_code is Some && eq_ignore_ascii_case_spec(area.country_code.unwrap()@, "US"@))
        || (area.country_code is None && (area.source == AlertAreaSource::Device || area.source == AlertAreaSource::Manual))
}

pub fn supports_nws(area: &AlertArea) -> (r: bool)
    ensures
        r == supports_nws_spec(*area),
{
    match &area.country_code {
        Some(country) => eq_ignore_ascii_case(country.as_str(), "US"),
        None => area.source == AlertAreaSource::Device || area.source == AlertAreaSource::Manual,
    }
}

/// What an area is asked to provide.
#[derive(Clone, Copy, Debug, PartialEq, Eq, Structural)]
pub enum AreaCapability {
    Weather,
    Official,
    Tropical,
}

/// The channel's `areaIds` list names `id` (any area when it has no list).
pub open spec fn area_listed(scope: JsonObject, id: Seq<char>) -> bool {
    match value_as_array(object_get(scope, "areaIds"@)) {
        None => true,
        Some(ids) => exists|k: int| 0 <= k < ids.len() && (#[trigger] ids[k]) is String && ids[k]->String_0@ == id,
    }
}

/// An area a channel draws on: enabled, selected by the channel, and
/// switched on for the capability.
pub open spec fn area_selected(area: AlertArea, scope: JsonObject, capability: AreaCapability) -> bool {
    &&& area.enabled
    &&& area_listed(scope, area.id@)
    &&& match capability {
        AreaCapability::Weather => area.weather_enabled,
        AreaCapability::Official => area.official_alerts_enabled,
        AreaCapability::Tropical => area.tropical_context_enabled,
    }
}

/// The positions, in order, of the areas among the first `n` that a channel
/// draws on.
pub open spec fn selected_positions(areas: Seq<AlertArea>, scope: JsonObject, capability: AreaCapability, n: int) -> Seq<usize>
    decreases n,
{
    if n <= 0 {
        Seq::empty()
    } else {
        let rest = selected_positions(areas, scope, capability, n - 1);
        if area_selected(areas[n - 1], scope, capability) {
            rest.push((n - 1) as usize)
        } else {
            rest
        }
    }
}

#[verifier::loop_isolation(false)]
fn listed(scope: &JsonObject, id: &str) -> (r: bool)
    ensures
        r == area_listed(*scope, id@),
{
    match scope.get_array("areaIds") {
        None => true,
        Some(ids) => {
            let mut k: usize = 0;
            while k < ids.len()
                invariant
                    k <= ids@.len(),
                    forall|j: int| 0 <= j < k ==> !((#[trigger] ids@[j]) is String && ids@[j]->String_0@ == id@),
                decreases ids@.len() - k,
            {
                if let JsonValue::String(s) = &ids[k] {
                    if str_eq(s.as_str(), id) {
                        assert(ids@[k as int] is String && ids@[k as int]->String_0@ == id@);
                        return true;
                    }
                }
                k = k + 1;
            }
            false
        },
    }
}

/// The positions of the areas a channel draws on for `capability`.
pub fn selected_areas(preferences: &AppPreferences, channel: &ChannelPreference, capability: AreaCapability) -> (r: Vec<usize>)
    ensures
        r@ == selected_positions(preferences.areas@, channel.scope, capability, preferences.areas@.len() as int),
{
    let areas = &preferences.areas;
    let mut out: Vec<usize> = Vec::new();
    let mut i: usize = 0;
    while i < areas.len()
        invariant
            i <= areas@.len(),
            out@ == selected_positions(areas@, channel.scope, capability, i as int),
        decreases areas@.len() - i,
    {
        let area = &areas[i];
        let capable = match capability {
            AreaCapability::Weather => area.weather_enabled,
            AreaCapability::Official => area.official_alerts_enabled,
            AreaCapability::Tropical => area.tropical_context_enabled,
        };
        if area.enabled && capable && listed(&channel.scope, area.id.as_str()) {
            out.push(i);
        }
        i = i + 1;
    }
    out
}

/// An optional boolean scope field with a default: absent gives the
/// default, a boolean gives itself, anything else is refused.
pub open spec fn scope_bool_spec(scope: JsonObject, key: Seq<char>, default: bool) -> Option<bool> {
    match object_get(scope, key) {
        None => Some(default),
        Some(JsonValue::Bool(b)) => Some(b),
        Some(_) => None,
    }
}

pub fn scope_bool(scope: &JsonObject, key: &str, default: bool, channel_id: &str) -> (r: Result<bool, RuntimeError>)
    ensures
        match r {
            Ok(b) => scope_bool_spec(*scope, key@, default) == Some(b),
            Err(e) => scope_bool_spec(*scope, key@, default) is None && e is Configuration,
        },
{
    match scope.get(key) {
        None => Ok(default),
        Some(JsonValue::Bool(b)) => Ok(*b),
        Some(_) => Err(RuntimeError::Configuration(concat(channel_id, ".scope holds a non-boolean switch"))),
    }
}

/// A real number within `lo..=hi`.
pub open spec fn real_within(r: Real, lo: Decimal, hi: Decimal) -> bool {
    match r {
        Real::Finite(d) => lo.le_spec(d) && d.le_spec(hi),
        Real::NonFinite => false,
    }
}

fn real_in(r: Real, lo: Decimal, hi: Decimal) -> (ok: bool)
    ensures
        ok == real_within(r, lo, hi),
{
    match r {
        Real::Finite(d) => lo.le(&d) && d.le(&hi),
        Real::NonFinite => false,
    }
}

/// An optional number scope field with a default, read as `f64`: absent
/// gives the default, a number gives itself; it must be finite and within
/// `lo..=hi`.
pub open spec fn scope_number_spec(scope: JsonObject, key: Seq<char>, default: Decimal, lo: Decimal, hi: Decimal) -> Option<Real> {
    let value = match object_get(scope, key) {
        None => Some(Real::Finite(default)),
        Some(JsonValue::Number(n)) => Some(crate::location::number_real(n)),
        Some(_) => None,
    };
    match value {
        Some(r) => if real_within(r, lo, hi) { Some(r) } else { None },
        None => None,
    }
}

pub fn scope_number(scope: &JsonObject, key: &str, default: Decimal, lo: Decimal, hi: Decimal, channel_id: &str) -> (r: Result<Real, RuntimeError>)
    ensures
        match r {
            Ok(v) => scope_number_spec(*scope, key@, default, lo, hi) == Some(v),
            Err(e) => scope_number_spec(*scope, key@, default, lo, hi) is None && e is Configuration,
        },
{
    let value = match scope.get(key) {
        None => Real::Finite(default),
        Some(JsonValue::Number(n)) => crate::location::number_as_real(*n),
        Some(_) => return Err(RuntimeError::Configuration(concat(channel_id, ".scope holds a number outside the supported range"))),
    };
    if real_in(value, lo, hi) {
        Ok(value)
    } else {
        Err(RuntimeError::Configuration(concat(channel_id, ".scope holds a number outside the supported range")))
    }
}

/// Where a bridge channel's target is: its latitude and longitude.
#[derive(Clone, Debug, PartialEq)]
pub enum BridgePoint {
    Coordinates(Real, Real),
}

/// `point` as plain values: its latitude and longitude.
pub open spec fn point_view(p: Option<BridgePoint>) -> Option<(Real, Real)> {
    match p {
        None => None,
        Some(BridgePoint::Coordinates(a, b)) => Some((a, b)),
    }
}

pub open spec fn valid_point(lat: Real, lon: Real) -> Option<(Real, Real)> {
    if crate::preferences::coordinate_within(lat, 90) && crate::preferences::coordinate_within(lon, 180) {
        Some((lat, lon))
    } else {
        None
    }
}

/// The target point of a bridge channel: its numeric `latitude` and
/// `longitude`, else its `latitude,longitude` `point` text; refused (`None`)
/// when neither is there, the text does not read as two decimals, or the
/// latitude is outside ±90 or the longitude outside ±180.
pub open spec fn bridge_point_spec(scope: JsonObject) -> Option<(Real, Real)> {
    match (object_get(scope, "latitude"@), object_get(scope, "longitude"@)) {
        (Some(JsonValue::Number(a)), Some(JsonValue::Number(b))) => valid_point(
            crate::location::number_real(a),
            crate::location::number_real(b),
        ),
        _ => match value_as_str(object_get(scope, "point"@)) {
            Some(t) => match point_text_value(t) {
                Some((a, b)) => valid_point(Real::Finite(a), Real::Finite(b)),
                None => None,
            },
            None => None,
        },
    }
}

pub fn point_from_scope(scope: &JsonObject, channel_id: &str) -> (r: Result<BridgePoint, RuntimeError>)
    ensures
        match r {
            Ok(p) => bridge_point_spec(*scope) == point_view(Some(p)),
            Err(e) => bridge_point_spec(*scope) is None && e is Configuration,
        },
{
    let (lat, lon) = match (scope.get_number("latitude"), scope.get_number("longitude")) {
        (Some(a), Some(b)) => (crate::location::number_as_real(a), crate::location::number_as_real(b)),
        _ => match scope.get_str("point") {
            Some(t) => match parse_point_text(t) {
                Some((a, b)) => (Real::Finite(a), Real::Finite(b)),
                None => {
                    return Err(RuntimeError::Configuration(concat(channel_id, ".scope.point must be latitude,longitude")));
                },
            },
            None => {
                return Err(RuntimeError::Configuration(concat(channel_id, " requires latitude/longitude or point in its scope")));
            },
        },
    };
    if crate::preferences::coordinate_ok(lat, 90) && crate::preferences::coordinate_ok(lon, 180) {
        Ok(BridgePoint::Coordinates(lat, lon))
    } else {
        Err(RuntimeError::Configuration(concat(channel_id, " contains invalid coordinates")))
    }
}

/// `r` is `d` rounded to the nearest integer, halves away from zero, for
/// positive `d`: `2r - 1 <= 2d < 2r + 1`.
pub open spec fn rounds_to(d: Decimal, r: int) -> bool {
    scaled_le(2 * r - 1, 0, 2 * d.mantissa, d.exponent as int) && !scaled_le(2 * r + 1, 0, 2 * d.mantissa, d.exponent as int)
}

/// `d` rounded to whole seconds, for `60 <= d <= 3600`.
pub fn round_seconds(d: Decimal) -> (r: u64)
    requires
        (Decimal { mantissa: 60, exponent: 0 }).le_spec(d),
        d.le_spec(Decimal { mantissa: 3600, exponent: 0 }),
    ensures
        rounds_to(d, r as int),
        r == round_half_up(d),
        60 <= r <= 3600,
{
    let m = d.mantissa;
    if d.exponent >= 0 {
        proof {
            let k = d.exponent as nat;
            lemma_pow10_positive(k);
            assert(pow10(0) == 1);
            assert(60 <= m * pow10(k));
            assert(m * pow10(k) <= 3600);
            assert(m >= 1) by {
                if m < 1 {
                    assert(m * pow10(k) <= 0) by (nonlinear_arith) requires m <= 0, pow10(k) >= 1;
                }
            }
            // 60 <= m * 10^k <= 3600, so k <= 3.
            if k > 3 {
                crate::number::lemma_pow10_at_least(k, 4);
                assert(pow10(4) == 10000) by {
                    assert(pow10(1) == 10);
                    assert(pow10(2) == 100);
                    assert(pow10(3) == 1000);
                }
                assert(m * pow10(k) >= pow10(k)) by (nonlinear_arith) requires m >= 1, pow10(k) >= 1;
            }
        }
        let p = pow10_exec(d.exponent as u32);
        proof {
            lemma_pow10_positive(d.exponent as nat);
            assert(m * p <= 3600);
            assert(m <= 3600) by (nonlinear_arith) requires m * p <= 3600, p >= 1, m >= 1;
        }
        let v = (m as i128) * p;
        proof {
            let pe = pow10(d.exponent as nat);
            assert((2 * m) * pe == 2 * v) by (nonlinear_arith) requires v == m * pe;
            assert(pow10((d.exponent - 0) as nat) == pe);
            assert(rounds_to(d, v as int));
        }
        v as u64
    } else {
        let k = (0 - (d.exponent as i64)) as u32;
        proof {
            crate::number::lemma_pow10_values();
            lemma_pow10_positive(k as nat);
            // 60 * 10^k <= m < 2^63, so k <= 17.
            if k > 17 {
                crate::number::lemma_pow10_at_least(k as nat, 18);
                assert(60 * pow10(k as nat) <= m);
                assert(false);
            }
        }
        let p = pow10_exec(k);
        proof {
            assert(60 * p <= m);
            assert(m >= 0) by (nonlinear_arith) requires 60 * p <= m, p >= 1;
        }
        let q = (m as i128) / p;
        let rem = (m as i128) % p;
        let r = if 2 * rem >= p { q + 1 } else { q };
        proof {
            vstd::arithmetic::div_mod::lemma_fundamental_div_mod(m as int, p as int);
            assert(m == p * q + rem);
            assert(m == q * p + rem) by (nonlinear_arith) requires m == p * q + rem;
            assert(60 * p <= m && m <= 3600 * p);
            assert(60 <= q <= 3600) by (nonlinear_arith)
                requires
                    m == q * p + rem,
                    0 <= rem < p,
                    60 * p <= m,
                    m <= 3600 * p,
                    p >= 1;
            assert((2 * r - 1) * p <= 2 * m && 2 * m < (2 * r + 1) * p) by (nonlinear_arith)
                requires
                    m == q * p + rem,
                    0 <= rem < p,
                    r == (if 2 * rem >= p { q + 1 } else { q as int }),
                    p >= 1;
            assert(pow10((0 - d.exponent) as nat) == p);
            assert(rounds_to(d, r as int));
            if r > 3600 {
                assert(r == 3601 && q == 3600);
                assert(2 * m >= 7201 * p) by (nonlinear_arith) requires (2 * r - 1) * p <= 2 * m, r == 3601;
                assert(false);
            }
        }
        r as u64
    }
}

/// `d` rounded to an integer, halves up, for `d >= 0`.
pub open spec fn round_half_up(d: Decimal) -> int {
    if d.exponent >= 0 {
        d.mantissa * pow10(d.exponent as nat)
    } else {
        let p = pow10((0 - d.exponent) as nat);
        (d.mantissa as int) / p + if 2 * ((d.mantissa as int) % p) >= p { 1int } else { 0int }
    }
}

/// The kind of collector a registration runs.
#[derive(Clone, Copy, Debug, PartialEq, Eq, Structural)]
pub enum CollectorKind {
    Fl511Bridge,
    BbPilots,
    AisStream,
    OpenMeteo,
    NwsAlerts,
    NhcCurrentStorms,
    NhcAtlanticRss,
    Syndication,
    UsgsEarthquakes,
    YahooChart,
}

/// One registration the preferences call for. Fields a kind does not use
/// hold their empty value.
#[derive(Clone, Debug, PartialEq)]
pub struct PlannedCollector {
    pub id: String,
    pub channel_id: String,
    pub kind: CollectorKind,
    pub minimum_interval: TimeSpan,
    pub fail_closed_on_error: bool,
    /// Positions in the preferences' area list that the collector covers.
    pub areas: Vec<usize>,
    /// The bridge label, the feed address, or the market symbol.
    pub text: String,
    /// The market label.
    pub label: String,
    pub window: UsgsWindow,
    pub point: Option<BridgePoint>,
    pub radius_meters: Real,
}

pub type PlanView = (Seq<char>, Seq<char>, CollectorKind, nat, bool, Seq<usize>, Seq<char>, Seq<char>, UsgsWindow, Option<(Real, Real)>, Real);

pub open spec fn plan_view(e: PlannedCollector) -> PlanView {
    (e.id@, e.channel_id@, e.kind, e.minimum_interval.nanos_spec(), e.fail_closed_on_error, e.areas@, e.text@, e.label@, e.window, point_view(e.point), e.radius_meters)
}

pub open spec fn plan_views(v: Seq<PlannedCollector>) -> Seq<PlanView> {
    v.map_values(|e: PlannedCollector| plan_view(e))
}

pub open spec fn zero_real() -> Real {
    Real::Finite(Decimal { mantissa: 0, exponent: 0 })
}

/// A registration with every kind-specific field empty.
pub open spec fn plain_view(id: Seq<char>, channel_id: Seq<char>, kind: CollectorKind, interval: nat) -> PlanView {
    (id, channel_id, kind, interval, false, Seq::empty(), Seq::empty(), Seq::empty(), UsgsWindow::Hour, None, zero_real())
}

/// Bridge status every fifteen seconds, the pilots' board every ten minutes,
/// everything else once a minute.
pub open spec fn bridge_interval() -> nat { 15_000_000_000 }
pub open spec fn pilots_interval() -> nat { 600_000_000_000 }
pub open spec fn default_interval() -> nat { 60_000_000_000 }

/// The registrations of an enabled bridge channel: Florida 511 at the target
/// point, the pilots' board unless switched off, and the AIS stream when a
/// key is configured; nothing when the target, its label, its search radius
/// or the switch is invalid.
pub open spec fn bridge_views(c: ChannelPreference, ais: bool) -> Option<Seq<PlanView>> {
    let id = c.id@;
    let point = bridge_point_spec(c.scope);
    let label = trim_seq(match value_as_str(object_get(c.scope, "bridge"@)) {
        Some(t) => t,
        None => "Brickell Avenue Bridge"@,
    });
    let radius = scope_number_spec(c.scope, "radiusMeters"@, Decimal { mantissa: 250, exponent: 0 },
        Decimal { mantissa: 25, exponent: 0 }, Decimal { mantissa: 10000, exponent: 0 });
    let pilots = scope_bool_spec(c.scope, "useBbPilots"@, true);
    if point is None || label.len() == 0 || radius is None || pilots is None {
        None
    } else {
        let fl511 = ("fl511."@ + id, id, CollectorKind::Fl511Bridge, bridge_interval(), false, Seq::<usize>::empty(), label,
            Seq::<char>::empty(), UsgsWindow::Hour, point, radius.unwrap());
        let with_pilots = if pilots.unwrap() {
            seq![fl511, plain_view("bbpilots."@ + id, id, CollectorKind::BbPilots, pilots_interval())]
        } else {
            seq![fl511]
        };
        Some(if ais {
            with_pilots.push(("aisstream."@ + id, id, CollectorKind::AisStream, 0nat, true, Seq::<usize>::empty(), label,
                Seq::<char>::empty(), UsgsWindow::Hour, point, zero_real()))
        } else {
            with_pilots
        })
    }
}

/// The positions, in order, of the areas among the first `n` that the
/// official-alerts channel draws on and the National Weather Service covers.
pub open spec fn nws_positions(areas: Seq<AlertArea>, scope: JsonObject, n: int) -> Seq<usize>
    decreases n,
{
    if n <= 0 {
        Seq::empty()
    } else {
        let rest = nws_positions(areas, scope, n - 1);
        if area_selected(areas[n - 1], scope, AreaCapability::Official) && supports_nws_spec(areas[n - 1]) {
            rest.push((n - 1) as usize)
        } else {
            rest
        }
    }
}

/// One registration per area position, keyed by the area.
pub open spec fn area_views(areas: Seq<AlertArea>, prefix: Seq<char>, id: Seq<char>, kind: CollectorKind, positions: Seq<usize>) -> Seq<PlanView>
    decreases positions.len(),
{
    if positions.len() == 0 {
        Seq::empty()
    } else {
        let k = positions.last();
        area_views(areas, prefix, id, kind, positions.drop_last()).push(
            (prefix + id + "."@ + short_hash_spec(areas[k as int].id@), id, kind, default_interval(), false, seq![k],
                Seq::<char>::empty(), Seq::<char>::empty(), UsgsWindow::Hour, None, zero_real()))
    }
}

/// The hurricane channel's two registrations over its areas, when it has any.
pub open spec fn hurricane_views(areas: Seq<AlertArea>, c: ChannelPreference) -> Seq<PlanView> {
    let id = c.id@;
    let selected = selected_positions(areas, c.scope, AreaCapability::Tropical, areas.len() as int);
    if selected.len() == 0 {
        Seq::empty()
    } else {
        seq![
            ("nhc.current_storms."@ + id, id, CollectorKind::NhcCurrentStorms, default_interval(), false, selected,
                Seq::<char>::empty(), Seq::<char>::empty(), UsgsWindow::Hour, None, zero_real()),
            ("nhc.atlantic_rss."@ + id, id, CollectorKind::NhcAtlanticRss, default_interval(), false, selected,
                Seq::<char>::empty(), Seq::<char>::empty(), UsgsWindow::Hour, None, zero_real()),
        ]
    }
}

/// Whether `text` parses as a URL.
pub uninterp spec fn url_parses(text: Seq<char>) -> bool;

/// Calls `url::Url::parse`; whether it succeeds is a function of the text.
#[verifier::external_body]
fn parses_as_url(text: &str) -> (ok: bool)
    ensures
        ok == url_parses(text@),
{
    url::Url::parse(text).is_ok()
}

/// One registration per distinct feed among the first `n` that has text and
/// parses as a URL. Plain-`http` and loopback feeds stay in the plan: the
/// feed fetcher refuses them when its collector is built, and building
/// collectors belongs to the collectors crate, which this library does not
/// contain, so that refusal is not made here.
pub open spec fn feed_views(id: Seq<char>, feeds: Seq<Seq<char>>, n: int) -> Seq<PlanView>
    decreases n,
{
    if n <= 0 {
        Seq::empty()
    } else {
        let rest = feed_views(id, feeds, n - 1);
        let f = feeds[n - 1];
        if trim_seq(f).len() > 0 && !feeds.take(n - 1).contains(f) && url_parses(f) {
            rest.push(("rss."@ + short_hash_spec(id) + "."@ + short_hash_spec(f), id, CollectorKind::Syndication,
                default_interval(), false, Seq::<usize>::empty(), f, Seq::<char>::empty(), UsgsWindow::Hour, None, zero_real()))
        } else {
            rest
        }
    }
}

/// The earthquake channel's window: its feed, or the hour when it names none.
pub open spec fn earthquake_window(c: ChannelPreference) -> Option<UsgsWindow> {
    match value_as_str(object_get(c.scope, "feed"@)) {
        None => Some(UsgsWindow::Hour),
        Some(t) => window_spec(t),
    }
}

/// One registration per listed symbol among the first `n`, polled every
/// `secs` seconds.
pub open spec fn symbol_views(id: Seq<char>, symbols: Seq<Seq<char>>, secs: int, n: int) -> Seq<PlanView>
    decreases n,
{
    if n <= 0 {
        Seq::empty()
    } else {
        let s = symbols[n - 1];
        symbol_views(id, symbols, secs, n - 1).push(
            ("yahoo_chart."@ + id + "."@ + short_hash_spec(ascii_upper_seq(trim_seq(s))), id, CollectorKind::YahooChart,
                (secs * 1_000_000_000) as nat, false, Seq::<usize>::empty(), s, market_label_spec(s), UsgsWindow::Hour, None, zero_real()))
    }
}

/// The markets channel's poll period in whole seconds, when valid.
pub open spec fn market_poll_seconds(c: ChannelPreference) -> Option<int> {
    match scope_number_spec(c.scope, "pollSeconds"@, Decimal { mantissa: 300, exponent: 0 },
        Decimal { mantissa: 60, exponent: 0 }, Decimal { mantissa: 3600, exponent: 0 }) {
        Some(Real::Finite(d)) => Some(round_half_up(d)),
        _ => None,
    }
}

/// The registrations one channel calls for, or nothing when its scope is
/// invalid.
pub open spec fn channel_views(p: AppPreferences, c: ChannelPreference, ais: bool) -> Option<Seq<PlanView>> {
    let areas = p.areas@;
    let n = areas.len() as int;
    let id = c.id@;
    if !c.enabled {
        Some(Seq::empty())
    } else {
        match c.kind {
            ChannelKindDto::Bridge => bridge_views(c, ais),
            ChannelKindDto::Weather => Some(area_views(areas, "open_meteo."@, id, CollectorKind::OpenMeteo,
                selected_positions(areas, c.scope, AreaCapability::Weather, n))),
            ChannelKindDto::Official => Some(area_views(areas, "nws."@, id, CollectorKind::NwsAlerts, nws_positions(areas, c.scope, n))),
            ChannelKindDto::Hurricane => Some(hurricane_views(areas, c)),
            ChannelKindDto::News | ChannelKindDto::Sports => {
                let feeds = crate::json::scope_strings_spec(c.scope, "feeds"@);
                Some(feed_views(id, feeds, feeds.len() as int))
            },
            ChannelKindDto::Earthquake => match earthquake_window(c) {
                Some(w) => Some(seq![("usgs.significant."@ + id, id, CollectorKind::UsgsEarthquakes, default_interval(), false,
                    Seq::<usize>::empty(), Seq::<char>::empty(), Seq::<char>::empty(), w, None, zero_real())]),
                None => None,
            },
            ChannelKindDto::Markets => match market_poll_seconds(c) {
                Some(secs) => {
                    let symbols = crate::json::scope_strings_spec(c.scope, "symbols"@);
                    Some(symbol_views(id, symbols, secs, symbols.len() as int))
                },
                None => None,
            },
            ChannelKindDto::System => Some(Seq::empty()),
        }
    }
}

/// The registrations of the first `n` channels, in order, or nothing when
/// one of them is invalid.
pub open spec fn plan_spec(p: AppPreferences, ais: bool, n: int) -> Option<Seq<PlanView>>
    decreases n,
{
    if n <= 0 {
        Some(Seq::empty())
    } else {
        match (plan_spec(p, ais, n - 1), channel_views(p, p.profile.channels@[n - 1], ais)) {
            (Some(a), Some(b)) => Some(a + b),
            _ => None,
        }
    }
}

fn push_entry(out: &mut Vec<PlannedCollector>, e: PlannedCollector)
    ensures
        plan_views(final(out)@) == plan_views(old(out)@).push(plan_view(e)),
{
    out.push(e);
    proof {
        assert(plan_views(out@) =~= plan_views(old(out)@).push(plan_view(e)));
    }
}

fn zero() -> (r: Real)
    ensures
        r == zero_real(),
{
    Real::Finite(Decimal::new(0, 0))
}

fn entry(id: String, channel_id: &str, kind: CollectorKind, interval: TimeSpan) -> (e: PlannedCollector)
    ensures
        plan_view(e) == plain_view(id@, channel_id@, kind, interval.nanos_spec()),
{
    let e = PlannedCollector {
        id,
        channel_id: owned(channel_id),
        kind,
        minimum_interval: interval,
        fail_closed_on_error: false,
        areas: Vec::new(),
        text: String::new(),
        label: String::new(),
        window: UsgsWindow::Hour,
        point: None,
        radius_meters: zero(),
    };
    proof {
        assert(e.areas@ =~= Seq::<usize>::empty());
    }
    e
}

fn copy_point(p: &BridgePoint) -> (r: BridgePoint)
    ensures
        point_view(Some(r)) == point_view(Some(*p)),
{
    match p {
        BridgePoint::Coordinates(a, b) => BridgePoint::Coordinates(*a, *b),
    }
}

fn plan_bridge(c: &ChannelPreference, ais: bool, out: &mut Vec<PlannedCollector>) -> (r: Result<(), RuntimeError>)
    ensures
        match r {
            Ok(()) => bridge_views(*c, ais) is Some && plan_views(final(out)@) == plan_views(old(out)@) + bridge_views(*c, ais).unwrap(),
            Err(e) => bridge_views(*c, ais) is None && e is Configuration,
        },
{
    let ghost start = plan_views(out@);
    let point = point_from_scope(&c.scope, c.id.as_str())?;
    let label = match c.scope.get_str("bridge") {
        Some(t) => trim(t),
        None => trim("Brickell Avenue Bridge"),
    };
    if label.unicode_len() == 0 {
        return Err(RuntimeError::Configuration(concat(c.id.as_str(), ".scope.bridge cannot be empty")));
    }
    let radius = scope_number(&c.scope, "radiusMeters", Decimal::new(250, 0), Decimal::new(25, 0), Decimal::new(10000, 0), c.id.as_str())?;
    let pilots = scope_bool(&c.scope, "useBbPilots", true, c.id.as_str())?;
    let ghost views = bridge_views(*c, ais).unwrap();
    let fl511 = PlannedCollector {
        id: concat("fl511.", c.id.as_str()),
        channel_id: owned(c.id.as_str()),
        kind: CollectorKind::Fl511Bridge,
        minimum_interval: TimeSpan::from_secs(15),
        fail_closed_on_error: false,
        areas: Vec::new(),
        text: owned(label.as_str()),
        label: String::new(),
        window: UsgsWindow::Hour,
        point: Some(copy_point(&point)),
        radius_meters: radius,
    };
    proof {
        assert(fl511.areas@ =~= Seq::<usize>::empty());
        assert(plan_view(fl511) == views[0]);
    }
    push_entry(out, fl511);
    if pilots {
        let e = entry(concat("bbpilots.", c.id.as_str()), c.id.as_str(), CollectorKind::BbPilots, TimeSpan::from_secs(600));
        assert(plan_view(e) == views[1]);
        push_entry(out, e);
    }
    if ais {
        let stream = PlannedCollector {
            id: concat("aisstream.", c.id.as_str()),
            channel_id: owned(c.id.as_str()),
            kind: CollectorKind::AisStream,
            minimum_interval: TimeSpan::from_secs(0),
            fail_closed_on_error: true,
            areas: Vec::new(),
            text: owned(label.as_str()),
            label: String::new(),
            window: UsgsWindow::Hour,
            point: Some(copy_point(&point)),
            radius_meters: zero(),
        };
        proof {
            assert(stream.areas@ =~= Seq::<usize>::empty());
            assert(plan_view(stream) == views[views.len() - 1]);
        }
        push_entry(out, stream);
    }
    proof {
        assert(plan_views(out@) =~= start + views);
    }
    Ok(())
}

fn plan_areas(
    areas: &Vec<AlertArea>,
    prefix: &str,
    c: &ChannelPreference,
    kind: CollectorKind,
    positions: &Vec<usize>,
    out: &mut Vec<PlannedCollector>,
)
    requires
        forall|k: int| 0 <= k < positions@.len() ==> (#[trigger] positions@[k]) < areas@.len(),
    ensures
        plan_views(final(out)@) == plan_views(old(out)@) + area_views(areas@, prefix@, c.id@, kind, positions@),
{
    let ghost start = plan_views(out@);
    let mut i: usize = 0;
    while i < positions.len()
        invariant
            i <= positions@.len(),
            forall|k: int| 0 <= k < positions@.len() ==> (#[trigger] positions@[k]) < areas@.len(),
            plan_views(out@) == start + area_views(areas@, prefix@, c.id@, kind, positions@.take(i as int)),
        decreases positions@.len() - i,
    {
        let k = positions[i];
        let a = concat(prefix, c.id.as_str());
        let b = concat(a.as_str(), ".");
        let id = concat(b.as_str(), short_hash(areas[k].id.as_str()).as_str());
        let mut e = entry(id, c.id.as_str(), kind, TimeSpan::from_secs(60));
        e.areas = vec![k];
        proof {
            assert(positions@.take(i + 1).drop_last() == positions@.take(i as int));
            assert(positions@.take(i + 1).last() == k);
            assert(e.areas@ =~= seq![k]);
        }
        push_entry(out, e);
        i = i + 1;
    }
    proof {
        assert(positions@.take(positions@.len() as int) == positions@);
    }
}

proof fn lemma_selected_in_range(areas: Seq<AlertArea>, scope: JsonObject, cap: AreaCapability, n: int)
    requires
        n <= areas.len(),
    ensures
        forall|k: int| 0 <= k < selected_positions(areas, scope, cap, n).len()
            ==> (#[trigger] selected_positions(areas, scope, cap, n)[k]) < n,
    decreases n,
{
    if n > 0 {
        lemma_selected_in_range(areas, scope, cap, n - 1);
        let rest = selected_positions(areas, scope, cap, n - 1);
        let all = selected_positions(areas, scope, cap, n);
        assert forall|k: int| 0 <= k < all.len() implies (#[trigger] all[k]) < n by {
            if k < rest.len() {
                assert(all[k] == rest[k]);
            }
        }
    }
}

fn nws_areas(preferences: &AppPreferences, c: &ChannelPreference) -> (r: Vec<usize>)
    ensures
        r@ == nws_positions(preferences.areas@, c.scope, preferences.areas@.len() as int),
        forall|k: int| 0 <= k < r@.len() ==> (#[trigger] r@[k]) < preferences.areas@.len(),
{
    let areas = &preferences.areas;
    let mut out: Vec<usize> = Vec::new();
    let mut i: usize = 0;
    while i < areas.len()
        invariant
            i <= areas@.len(),
            out@ == nws_positions(areas@, c.scope, i as int),
            forall|k: int| 0 <= k < out@.len() ==> (#[trigger] out@[k]) < i,
        decreases areas@.len() - i,
    {
        let area = &areas[i];
        if area.enabled && area.official_alerts_enabled && listed(&c.scope, area.id.as_str()) && supports_nws(area) {
            out.push(i);
        }
        i = i + 1;
    }
    out
}

fn plan_feeds(c: &ChannelPreference, out: &mut Vec<PlannedCollector>)
    ensures
        ({
            let feeds = crate::json::scope_strings_spec(c.scope, "feeds"@);
            plan_views(final(out)@) == plan_views(old(out)@) + feed_views(c.id@, feeds, feeds.len() as int)
        }),
{
    let ghost start = plan_views(out@);
    let feeds = crate::rules::scope_strings(c, "feeds");
    let ghost fv = crate::json::scope_strings_spec(c.scope, "feeds"@);
    proof {
        crate::rules::lemma_str_views_len(feeds@);
    }
    let mut i: usize = 0;
    while i < feeds.len()
        invariant
            crate::preferences::str_views(feeds@) == fv,
            fv.len() == feeds@.len(),
            i <= feeds@.len(),
            plan_views(out@) == start + feed_views(c.id@, fv, i as int),
        decreases feeds@.len() - i,
    {
        let f = feeds[i];
        proof {
            crate::rules::lemma_str_views_index(feeds@, i as int);
        }
        let nonempty = trim_chars(f).len() > 0;
        let mut seen = false;
        let mut j: usize = 0;
        while j < i
            invariant
                crate::preferences::str_views(feeds@) == fv,
                fv.len() == feeds@.len(),
                j <= i < feeds@.len(),
                f@ == fv[i as int],
                seen == exists|k: int| 0 <= k < j && fv[k] == f@,
            decreases i - j,
        {
            proof {
                crate::rules::lemma_str_views_index(feeds@, j as int);
            }
            if str_eq(feeds[j], f) {
                seen = true;
            }
            j = j + 1;
        }
        proof {
            assert(fv.take(i as int).contains(f@) == seen) by {
                if seen {
                    let k = choose|k: int| 0 <= k < i && fv[k] == f@;
                    assert(fv.take(i as int)[k] == f@);
                }
                if fv.take(i as int).contains(f@) {
                    let k = choose|k: int| 0 <= k < fv.take(i as int).len() && fv.take(i as int)[k] == f@;
                    assert(fv[k] == f@);
                }
            }
        }
        if nonempty && !seen && parses_as_url(f) {
            let a = concat("rss.", short_hash(c.id.as_str()).as_str());
            let b = concat(a.as_str(), ".");
            let id = concat(b.as_str(), short_hash(f).as_str());
            let mut e = entry(id, c.id.as_str(), CollectorKind::Syndication, TimeSpan::from_secs(60));
            e.text = owned(f);
            push_entry(out, e);
        }
        i = i + 1;
    }
}

fn plan_symbols(c: &ChannelPreference, secs: u64, out: &mut Vec<PlannedCollector>)
    requires
        secs <= 3600,
    ensures
        ({
            let symbols = crate::json::scope_strings_spec(c.scope, "symbols"@);
            plan_views(final(out)@) == plan_views(old(out)@) + symbol_views(c.id@, symbols, secs as int, symbols.len() as int)
        }),
{
    let ghost start = plan_views(out@);
    let symbols = crate::rules::scope_strings(c, "symbols");
    let ghost sv = crate::json::scope_strings_spec(c.scope, "symbols"@);
    proof {
        crate::rules::lemma_str_views_len(symbols@);
    }
    let mut i: usize = 0;
    while i < symbols.len()
        invariant
            crate::preferences::str_views(symbols@) == sv,
            sv.len() == symbols@.len(),
            i <= symbols@.len(),
            secs <= 3600,
            plan_views(out@) == start + symbol_views(c.id@, sv, secs as int, i as int),
        decreases symbols@.len() - i,
    {
        let sym = symbols[i];
        proof {
            crate::rules::lemma_str_views_index(symbols@, i as int);
        }
        let normalized = normalized_symbol(sym);
        let a = concat("yahoo_chart.", c.id.as_str());
        let b = concat(a.as_str(), ".");
        let id = concat(b.as_str(), short_hash(normalized.as_str()).as_str());
        let mut e = entry(id, c.id.as_str(), CollectorKind::YahooChart, TimeSpan::from_secs(secs));
        e.text = owned(sym);
        e.label = market_label(sym);
        push_entry(out, e);
        i = i + 1;
    }
}

fn plan_channel(preferences: &AppPreferences, c: &ChannelPreference, ais: bool, out: &mut Vec<PlannedCollector>) -> (r: Result<(), RuntimeError>)
    ensures
        match r {
            Ok(()) => channel_views(*preferences, *c, ais) is Some
                && plan_views(final(out)@) == plan_views(old(out)@) + channel_views(*preferences, *c, ais).unwrap(),
            Err(e) => channel_views(*preferences, *c, ais) is None && e is Configuration,
        },
{
    let ghost start = plan_views(out@);
    if !c.enabled {
        assert(start + Seq::<PlanView>::empty() =~= start);
        return Ok(());
    }
    match c.kind {
        ChannelKindDto::Bridge => plan_bridge(c, ais, out),
        ChannelKindDto::Weather => {
            let positions = selected_areas(preferences, c, AreaCapability::Weather);
            proof {
                lemma_selected_in_range(preferences.areas@, c.scope, AreaCapability::Weather, preferences.areas@.len() as int);
            }
            plan_areas(&preferences.areas, "open_meteo.", c, CollectorKind::OpenMeteo, &positions, out);
            Ok(())
        },
        ChannelKindDto::Official => {
            let positions = nws_areas(preferences, c);
            plan_areas(&preferences.areas, "nws.", c, CollectorKind::NwsAlerts, &positions, out);
            Ok(())
        },
        ChannelKindDto::Hurricane => {
            let positions = selected_areas(preferences, c, AreaCapability::Tropical);
            if positions.len() == 0 {
                assert(start + Seq::<PlanView>::empty() =~= start);
                return Ok(());
            }
            let mut storms = entry(concat("nhc.current_storms.", c.id.as_str()), c.id.as_str(), CollectorKind::NhcCurrentStorms, TimeSpan::from_secs(60));
            storms.areas = positions.clone();
            let mut rss = entry(concat("nhc.atlantic_rss.", c.id.as_str()), c.id.as_str(), CollectorKind::NhcAtlanticRss, TimeSpan::from_secs(60));
            rss.areas = positions;
            push_entry(out, storms);
            push_entry(out, rss);
            proof {
                assert(plan_views(out@) =~= start + hurricane_views(preferences.areas@, *c));
            }
            Ok(())
        },
        ChannelKindDto::News | ChannelKindDto::Sports => {
            plan_feeds(c, out);
            Ok(())
        },
        ChannelKindDto::Earthquake => {
            let window = match c.scope.get_str("feed") {
                None => UsgsWindow::Hour,
                Some(t) => window_from_text(t)?,
            };
            let mut e = entry(concat("usgs.significant.", c.id.as_str()), c.id.as_str(), CollectorKind::UsgsEarthquakes, TimeSpan::from_secs(60));
            e.window = window;
            push_entry(out, e);
            proof {
                assert(plan_views(out@) =~= start + channel_views(*preferences, *c, ais).unwrap());
            }
            Ok(())
        },
        ChannelKindDto::Markets => {
            let poll = scope_number(&c.scope, "pollSeconds", Decimal::new(300, 0), Decimal::new(60, 0), Decimal::new(3600, 0), c.id.as_str())?;
            let secs = match poll {
                Real::Finite(d) => round_seconds(d),
                Real::NonFinite => {
                    return Err(RuntimeError::Configuration(concat(c.id.as_str(), ".scope.pollSeconds is outside the supported range")));
                },
            };
            plan_symbols(c, secs, out);
            Ok(())
        },
        ChannelKindDto::System => {
            assert(start + Seq::<PlanView>::empty() =~= start);
            Ok(())
        },
    }
}

/// The collector registrations the preferences call for, in channel order;
/// `aisstream_key_configured` says whether a vessel-stream key is stored.
/// Refused, as a configuration error, when a channel's scope is invalid.
/// Feed registrations are candidates for the collectors crate's fetcher,
/// which refuses plain-`http` and loopback feeds when it builds them; this
/// library does not build collectors, so those feeds stay in the plan (see
/// `feed_views`).
pub fn plan_collectors(preferences: &AppPreferences, aisstream_key_configured: bool) -> (r: Result<Vec<PlannedCollector>, RuntimeError>)
    ensures
        ({
            let expected = plan_spec(*preferences, aisstream_key_configured, preferences.profile.channels@.len() as int);
            match r {
                Ok(v) => expected is Some && plan_views(v@) == expected.unwrap(),
                Err(e) => expected is None && e is Configuration,
            }
        }),
{
    let mut out: Vec<PlannedCollector> = Vec::new();
    let channels = &preferences.profile.channels;
    let mut i: usize = 0;
    while i < channels.len()
        invariant
            i <= channels@.len(),
            channels@ == preferences.profile.channels@,
            plan_spec(*preferences, aisstream_key_configured, i as int) is Some,
            plan_views(out@) == plan_spec(*preferences, aisstream_key_configured, i as int).unwrap(),
        decreases channels@.len() - i,
    {
        let r = plan_channel(preferences, &channels[i], aisstream_key_configured, &mut out);
        match r {
            Ok(()) => {},
            Err(e) => {
                proof {
                    lemma_plan_fails_after(*preferences, aisstream_key_configured, i as int + 1, channels@.len() as int);
                }
                return Err(e);
            },
        }
        i = i + 1;
    }
    Ok(out)
}

proof fn lemma_plan_fails_after(p: AppPreferences, ais: bool, n: int, m: int)
    requires
        0 < n <= m,
        plan_spec(p, ais, n) is None,
    ensures
        plan_spec(p, ais, m) is None,
    decreases m - n,
{
    if n < m {
        lemma_plan_fails_after(p, ais, n + 1, m);
    }
}

} // verus!
