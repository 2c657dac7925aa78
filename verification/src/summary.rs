//! The one-line summary each channel shows, and whether it argues for
//! attention right now.

use vstd::prelude::*;

use crate::ais::sat_add_i64;
use crate::dto::{AlertArea, AvailabilityDto, BridgeStateDto, ChannelKindDto, ChannelPreference, DecisionSnapshot};
use crate::item::{atlantic_cyclone, atlantic_cyclone_spec};
use crate::news::{news_item_matches_scope, news_matches_spec, sports_item_is_transaction, sports_transaction_spec};
use crate::rules::{channel_coverage_summary, coverage_summary_spec, official_alert_matches_scope, official_alert_matches_spec, ChannelCoverage};
use crate::item::{item_text, CollectorItem, ItemKind};
use crate::json::{array_strings, object_get, value_as_array, value_as_number, JsonNumber, JsonObject, JsonValue};
use crate::number::{exact_le, scaled_le};
use crate::rules::{area_enabled_for_channel, area_enabled_for_channel_spec};
use crate::text::{ascii_lower_seq, concat, decimal_digits, owned, str_eq, trim, trim_seq, u64_to_decimal};

verus! {

/// A JSON number as `mantissa × 10^exponent`.
pub open spec fn mantissa_of(n: JsonNumber) -> int {
    match n {
        JsonNumber::Integer(i) => i as int,
        JsonNumber::Float(d) => d.mantissa as int,
    }
}

pub open spec fn exponent_of(n: JsonNumber) -> int {
    match n {
        JsonNumber::Integer(_) => 0,
        JsonNumber::Float(d) => d.exponent as int,
    }
}

/// `a <= b`, as numbers.
pub open spec fn number_at_most(a: JsonNumber, b: JsonNumber) -> bool {
    scaled_le(mantissa_of(a), exponent_of(a), mantissa_of(b), exponent_of(b))
}

pub fn number_le(a: JsonNumber, b: JsonNumber) -> (r: bool)
    ensures
        r == number_at_most(a, b),
{
    let (ma, ea): (i128, i64) = match a {
        JsonNumber::Integer(i) => (i, 0),
        JsonNumber::Float(d) => (d.mantissa as i128, d.exponent as i64),
    };
    let (mb, eb): (i128, i64) = match b {
        JsonNumber::Integer(i) => (i, 0),
        JsonNumber::Float(d) => (d.mantissa as i128, d.exponent as i64),
    };
    exact_le(ma, ea, mb, eb)
}

/// An earthquake report a channel shows: a reviewed or automatic USGS
/// event, not from the future, at or above the channel's minimum magnitude
/// (zero by default), and no older than its event age (unbounded by default).
pub open spec fn quake_status_ok(item: CollectorItem) -> bool {
    match item_text(item, "status"@) {
        Some(t) => ascii_lower_seq(trim_seq(t)) == "automatic"@ || ascii_lower_seq(trim_seq(t)) == "reviewed"@,
        None => false,
    }
}

/// A magnitude at or above the channel's minimum.
pub open spec fn magnitude_reaches(magnitude: JsonNumber, minimum: Option<JsonNumber>) -> bool {
    match minimum {
        Some(m) => number_at_most(m, magnitude),
        None => scaled_le(0, 0, mantissa_of(magnitude), exponent_of(magnitude)),
    }
}

/// An age in milliseconds within a limit given in minutes.
pub open spec fn age_within_minutes(age_ms: i64, minutes: Option<JsonNumber>) -> bool {
    match minutes {
        Some(m) => scaled_le(age_ms as int, 0, 6 * mantissa_of(m), exponent_of(m) + 4),
        None => true,
    }
}

pub open spec fn quake_age_ms(observed: i64, now_ms: i64) -> i64 {
    let d = crate::ais::sat_sub_i64(now_ms, observed);
    if d < 0 { 0 } else { d }
}

pub open spec fn earthquake_matches_spec(item: CollectorItem, c: ChannelPreference, now_ms: i64) -> bool {
    &&& item.kind == ItemKind::Earthquake
    &&& quake_status_ok(item)
    &&& item.observed_at_ms is Some
    &&& item.observed_at_ms.unwrap() <= sat_add_i64(now_ms, 300_000)
    &&& match value_as_number(object_get(item.attributes, "magnitude"@)) {
        Some(m) => magnitude_reaches(m, value_as_number(object_get(c.scope, "minimumMagnitude"@))),
        None => false,
    }
    &&& age_within_minutes(quake_age_ms(item.observed_at_ms.unwrap(), now_ms), value_as_number(object_get(c.scope, "eventAgeMinutes"@)))
}

fn age_within(age_ms: i64, minutes: Option<JsonNumber>) -> (r: bool)
    requires
        age_ms >= 0,
    ensures
        r == age_within_minutes(age_ms, minutes),
{
    match minutes {
        None => true,
        Some(JsonNumber::Float(d)) => exact_le(age_ms as i128, 0, (d.mantissa as i128) * 6, (d.exponent as i64) + 4),
        Some(JsonNumber::Integer(i)) => {
            match i.checked_mul(6) {
                Some(x) => exact_le(age_ms as i128, 0, x, 4),
                None => {
                    proof {
                        crate::number::lemma_pow10_positive(4);
                        assert(crate::number::pow10(4) == 10000) by {
                            assert(crate::number::pow10(0) == 1);
                            assert(crate::number::pow10(1) == 10);
                            assert(crate::number::pow10(2) == 100);
                            assert(crate::number::pow10(3) == 1000);
                        }
                        let x = 6 * (i as int);
                        if i > 0 {
                            assert(x * 10000 >= x) by (nonlinear_arith) requires x >= 0;
                        } else {
                            assert(x * 10000 <= x) by (nonlinear_arith) requires x <= 0;
                        }
                    }
                    i > 0
                },
            }
        },
    }
}

pub fn earthquake_matches_scope(item: &CollectorItem, channel: &ChannelPreference, now_ms: i64) -> (r: bool)
    ensures
        r == earthquake_matches_spec(*item, *channel, now_ms),
{
    if item.kind != ItemKind::Earthquake {
        return false;
    }
    proof {
        reveal_strlit("automatic");
        reveal_strlit("reviewed");
    }
    let status_ok = match item.attributes.get_str("status") {
        Some(t) => {
            let trimmed = trim(t);
            let lower = crate::text::string_from_chars(&lower_vec(trimmed.as_str()));
            str_eq(lower.as_str(), "automatic") || str_eq(lower.as_str(), "reviewed")
        },
        None => false,
    };
    if !status_ok {
        return false;
    }
    let observed = match item.observed_at_ms {
        Some(t) => t,
        None => return false,
    };
    let limit: i64 = if now_ms > i64::MAX - 300_000 { i64::MAX } else { now_ms + 300_000 };
    if observed > limit {
        return false;
    }
    let reaches = match item.attributes.get_number("magnitude") {
        Some(m) => match channel.scope.get_number("minimumMagnitude") {
            Some(minimum) => number_le(minimum, m),
            None => number_le(JsonNumber::Integer(0), m),
        },
        None => false,
    };
    if !reaches {
        return false;
    }
    let diff: i128 = now_ms as i128 - observed as i128;
    let age: i64 = if diff > i64::MAX as i128 { i64::MAX } else if diff < 0 { 0 } else { diff as i64 };
    age_within(age, channel.scope.get_number("eventAgeMinutes"))
}

fn lower_vec(s: &str) -> (r: Vec<char>)
    ensures
        r@ == ascii_lower_seq(s@),
{
    let v = crate::text::str_chars(s);
    let mut out: Vec<char> = Vec::new();
    let mut i: usize = 0;
    while i < v.len()
        invariant
            v@ == s@,
            i <= v@.len(),
            out@ == ascii_lower_seq(v@.take(i as int)),
        decreases v@.len() - i,
    {
        out.push(crate::text::to_ascii_lower(v[i]));
        i = i + 1;
        proof {
            assert(ascii_lower_seq(v@.take(i as int)) =~= ascii_lower_seq(v@.take(i - 1)).push(crate::text::ascii_lower(v@[i - 1])));
        }
    }
    proof {
        assert(v@.take(v@.len() as int) =~= v@);
    }
    out
}


/// Whether `ids` holds `id`.
pub open spec fn lists(ids: Seq<Seq<char>>, id: Seq<char>) -> bool {
    exists|i: int| 0 <= i < ids.len() && ids[i] == id
}

/// The labels of the areas a channel reads: enabled, selected by id, and
/// switched on for the channel's kind, in the order the areas are kept.
pub open spec fn area_labels(areas: Seq<AlertArea>, selected: Seq<Seq<char>>, kind: ChannelKindDto) -> Seq<Seq<char>>
    decreases areas.len(),
{
    if areas.len() == 0 {
        Seq::empty()
    } else {
        let rest = area_labels(areas.drop_last(), selected, kind);
        let a = areas.last();
        if a.enabled && lists(selected, a.id@) && area_enabled_for_channel_spec(a, kind) {
            rest.push(a.label@)
        } else {
            rest
        }
    }
}

/// `parts` joined with `sep` between them.
pub open spec fn joined(parts: Seq<Seq<char>>, sep: Seq<char>) -> Seq<char>
    decreases parts.len(),
{
    if parts.len() == 0 {
        Seq::empty()
    } else if parts.len() == 1 {
        parts[0]
    } else {
        joined(parts.drop_last(), sep) + sep + parts.last()
    }
}

/// The places a channel speaks for, as its summary names them: nothing when
/// the channel selects no areas; otherwise the labels of its areas, the first
/// three joined by ` / ` and a count of the rest.
pub open spec fn area_context_spec(c: ChannelPreference, areas: Seq<AlertArea>) -> Option<Seq<char>> {
    match value_as_array(object_get(c.scope, "areaIds"@)) {
        None => None,
        Some(a) => {
            let labels = area_labels(areas, array_strings(a), c.kind);
            if labels.len() == 0 {
                Some("No enabled areas"@)
            } else if labels.len() == 1 {
                Some(labels[0])
            } else if labels.len() <= 3 {
                Some(joined(labels, " / "@))
            } else {
                Some(joined(labels.take(3), " / "@) + " +"@ + decimal_digits((labels.len() - 3) as nat))
            }
        },
    }
}

fn listed(ids: &Vec<&str>, id: &str) -> (r: bool)
    ensures
        r == lists(crate::preferences::str_views(ids@), id@),
{
    let ghost views = crate::preferences::str_views(ids@);
    proof {
        crate::rules::lemma_str_views_len(ids@);
    }
    let mut i: usize = 0;
    while i < ids.len()
        invariant
            i <= ids@.len(),
            views == crate::preferences::str_views(ids@),
            views.len() == ids@.len(),
            forall|k: int| 0 <= k < i ==> views[k] != id@,
        decreases ids@.len() - i,
    {
        proof {
            crate::rules::lemma_str_views_index(ids@, i as int);
        }
        if str_eq(ids[i], id) {
            return true;
        }
        i = i + 1;
    }
    false
}

pub fn area_context_label(channel: &ChannelPreference, areas: &Vec<AlertArea>) -> (r: Option<String>)
    ensures
        match r {
            Some(t) => area_context_spec(*channel, areas@) == Some(t@),
            None => area_context_spec(*channel, areas@) is None,
        },
{
    if channel.scope.get_array("areaIds").is_none() {
        return None;
    }
    let selected = crate::rules::scope_strings(channel, "areaIds");
    let ghost sel = crate::preferences::str_views(selected@);
    proof {
        assert(sel == array_strings(value_as_array(object_get(channel.scope, "areaIds"@)).unwrap()));
    }
    let mut labels: Vec<&str> = Vec::new();
    let mut i: usize = 0;
    while i < areas.len()
        invariant
            i <= areas@.len(),
            sel == crate::preferences::str_views(selected@),
            crate::preferences::str_views(labels@) == area_labels(areas@.take(i as int), sel, channel.kind),
        decreases areas@.len() - i,
    {
        proof {
            assert(areas@.take(i + 1).drop_last() =~= areas@.take(i as int));
            assert(areas@.take(i + 1).last() == areas@[i as int]);
        }
        let a = &areas[i];
        if a.enabled && listed(&selected, a.id.as_str()) && area_enabled_for_channel(a, channel) {
            let ghost before = labels@;
            labels.push(a.label.as_str());
            proof {
                assert(labels@.drop_last() == before);
            }
        }
        i = i + 1;
    }
    proof {
        assert(areas@.take(areas@.len() as int) =~= areas@);
        crate::rules::lemma_str_views_len(labels@);
    }
    let ghost ls = crate::preferences::str_views(labels@);
    if labels.len() == 0 {
        return Some(owned("No enabled areas"));
    }
    proof {
        crate::rules::lemma_str_views_index(labels@, 0);
    }
    if labels.len() == 1 {
        return Some(owned(labels[0]));
    }
    let mut text = owned(labels[0]);
    let shown: usize = if labels.len() < 3 { labels.len() } else { 3 };
    let mut k: usize = 1;
    while k < shown
        invariant
            1 <= k <= shown <= labels@.len(),
            shown <= 3,
            ls == crate::preferences::str_views(labels@),
            ls.len() == labels@.len(),
            text@ == joined(ls.take(k as int), " / "@),
        decreases shown - k,
    {
        proof {
            crate::rules::lemma_str_views_index(labels@, k as int);
            assert(ls.take(k + 1).drop_last() =~= ls.take(k as int));
            assert(ls.take(k + 1).last() == ls[k as int]);
        }
        text.append(" / ");
        text.append(labels[k]);
        k = k + 1;
    }
    proof {
        if labels.len() <= 3 {
            assert(ls.take(labels@.len() as int) =~= ls);
        }
    }
    if labels.len() <= 3 {
        return Some(text);
    }
    text.append(" +");
    let rest = u64_to_decimal((labels.len() - 3) as u64);
    text.append(rest.as_str());
    Some(text)
}


/// The items a channel's summary counts.
#[derive(Clone, Copy, Debug, PartialEq, Eq, Structural)]
pub enum Counted {
    OfficialAlerts,
    Headlines,
    RosterMoves,
    Earthquakes,
    AtlanticCyclones,
}

pub open spec fn counted(which: Counted, item: CollectorItem, c: ChannelPreference, now_ms: i64) -> bool {
    match which {
        Counted::OfficialAlerts => official_alert_matches_spec(item, c.scope, now_ms),
        Counted::Headlines => news_matches_spec(item, c, now_ms),
        Counted::RosterMoves => news_matches_spec(item, c, now_ms) && sports_transaction_spec(item),
        Counted::Earthquakes => earthquake_matches_spec(item, c, now_ms),
        Counted::AtlanticCyclones => atlantic_cyclone_spec(item),
    }
}

/// How many of `items` are counted as `which`.
pub open spec fn count_of(items: Seq<CollectorItem>, which: Counted, c: ChannelPreference, now_ms: i64) -> nat
    decreases items.len(),
{
    if items.len() == 0 {
        0
    } else {
        count_of(items.drop_last(), which, c, now_ms) + if counted(which, items.last(), c, now_ms) { 1nat } else { 0nat }
    }
}

fn is_counted(which: Counted, item: &CollectorItem, channel: &ChannelPreference, now_ms: i64) -> (r: bool)
    ensures
        r == counted(which, *item, *channel, now_ms),
{
    match which {
        Counted::OfficialAlerts => official_alert_matches_scope(item, channel, now_ms),
        Counted::Headlines => news_item_matches_scope(item, channel, now_ms),
        Counted::RosterMoves => news_item_matches_scope(item, channel, now_ms) && sports_item_is_transaction(item),
        Counted::Earthquakes => earthquake_matches_scope(item, channel, now_ms),
        Counted::AtlanticCyclones => atlantic_cyclone(item),
    }
}

pub fn count_items(items: &Vec<CollectorItem>, which: Counted, channel: &ChannelPreference, now_ms: i64) -> (r: usize)
    ensures
        r == count_of(items@, which, *channel, now_ms),
{
    let mut n: usize = 0;
    let mut i: usize = 0;
    while i < items.len()
        invariant
            i <= items@.len(),
            n <= i,
            n == count_of(items@.take(i as int), which, *channel, now_ms),
        decreases items@.len() - i,
    {
        proof {
            assert(items@.take(i + 1).drop_last() =~= items@.take(i as int));
            assert(items@.take(i + 1).last() == items@[i as int]);
        }
        if is_counted(which, &items[i], channel, now_ms) {
            n = n + 1;
        }
        i = i + 1;
    }
    proof {
        assert(items@.take(items@.len() as int) =~= items@);
    }
    n
}

/// How many of the first `n` items are Atlantic cyclones marked near.
pub open spec fn count_near(items: Seq<CollectorItem>, near: Seq<bool>, n: int) -> nat
    decreases n,
{
    if n <= 0 || n > items.len() {
        0
    } else {
        count_near(items, near, n - 1) + if atlantic_cyclone_spec(items[n - 1]) && n - 1 < near.len() && near[n - 1] { 1nat } else { 0nat }
    }
}

fn near_cyclones(items: &Vec<CollectorItem>, near: &Vec<bool>) -> (r: usize)
    ensures
        r == count_near(items@, near@, items@.len() as int),
{
    let mut n: usize = 0;
    let mut i: usize = 0;
    while i < items.len()
        invariant
            i <= items@.len(),
            n <= i,
            n == count_near(items@, near@, i as int),
        decreases items@.len() - i,
    {
        if atlantic_cyclone(&items[i]) && i < near.len() && near[i] {
            n = n + 1;
        }
        i = i + 1;
    }
    n
}

/// What the float-valued rules said of a channel: the weather rule's and
/// the market rule's summary and verdict, and, item by item, whether a
/// cyclone is within range of a saved place.
#[derive(Clone, Debug, PartialEq)]
pub struct MeasuredFindings {
    pub weather_summary: String,
    pub weather_active: bool,
    pub markets_summary: String,
    pub markets_active: bool,
    pub cyclone_near: Vec<bool>,
}

pub open spec fn count_text(n: nat, one: Seq<char>, many: Seq<char>) -> Seq<char> {
    if n == 1 { "1"@ + one } else { decimal_digits(n) + many }
}

/// A channel's own summary and whether it is active, before the places it
/// speaks for and its coverage are added.
pub open spec fn summary_core(kind: ChannelKindDto, c: ChannelPreference, items: Seq<CollectorItem>, d: DecisionSnapshot, f: MeasuredFindings, now_ms: i64) -> (Seq<char>, bool) {
    match kind {
        ChannelKindDto::Bridge => (
            d.state_label@ + (if d.eta_min is Some && d.eta_max is Some {
                " · "@ + decimal_digits(d.eta_min.unwrap() as nat) + "–"@ + decimal_digits(d.eta_max.unwrap() as nat) + " min"@
            } else {
                Seq::empty()
            }),
            d.state == BridgeStateDto::Likely || d.state == BridgeStateDto::Open,
        ),
        ChannelKindDto::Weather => (f.weather_summary@, f.weather_active),
        ChannelKindDto::Official => {
            let n = count_of(items, Counted::OfficialAlerts, c, now_ms);
            if n == 0 { ("No alerts in force"@, false) } else { (decimal_digits(n) + " active official alert(s)"@, true) }
        },
        ChannelKindDto::Hurricane => {
            let total = count_of(items, Counted::AtlanticCyclones, c, now_ms);
            let near = count_near(items, f.cyclone_near@, items.len() as int);
            if total == 0 {
                ("No active Atlantic cyclone"@, false)
            } else if near == 0 {
                (decimal_digits(total) + " active Atlantic system(s) · none within range of a saved place"@, false)
            } else {
                (decimal_digits(near) + " Atlantic cyclone(s) within range"@, true)
            }
        },
        ChannelKindDto::News => {
            let n = count_of(items, Counted::Headlines, c, now_ms);
            if n == 0 { ("Nothing new"@, false) } else { (count_text(n, " current headline"@, " current headlines"@), true) }
        },
        ChannelKindDto::Sports => {
            let total = count_of(items, Counted::Headlines, c, now_ms);
            let moves = count_of(items, Counted::RosterMoves, c, now_ms);
            if total == 0 {
                ("Nothing new"@, false)
            } else if moves == 0 {
                (count_text(total, " current sports item"@, " current sports items"@), true)
            } else if total == 1 && moves == 1 {
                ("1 current sports item · 1 roster move"@, true)
            } else {
                (decimal_digits(total) + " current sports items · "@ + decimal_digits(moves)
                    + (if moves == 1 { " roster move"@ } else { " roster moves"@ }), true)
            }
        },
        ChannelKindDto::Earthquake => {
            let all = count_of(items, Counted::Earthquakes, c, now_ms);
            let n = if all > crate::preferences::AUTOMATIC_ITEM_LIMIT { crate::preferences::AUTOMATIC_ITEM_LIMIT as nat } else { all };
            if n == 0 { ("No current earthquakes"@, false) } else { (count_text(n, " current earthquake"@, " current earthquakes"@), true) }
        },
        ChannelKindDto::Markets => (f.markets_summary@, f.markets_active),
        ChannelKindDto::System => ("Runtime status"@, false),
    }
}

/// A channel's summary line and whether it is active: a disabled channel
/// says so and is never active; otherwise its own summary, led by the places
/// it speaks for and followed by what its coverage means, active only while
/// one of its sources is usable.
pub open spec fn channel_summary_spec(kind: ChannelKindDto, c: ChannelPreference, items: Seq<CollectorItem>, d: DecisionSnapshot, cov: ChannelCoverage, now_ms: i64, areas: Seq<AlertArea>, f: MeasuredFindings) -> (Seq<char>, bool) {
    if !c.enabled {
        ("Disabled"@, false)
    } else {
        let core = summary_core(kind, c, items, d, f, now_ms);
        let led = match area_context_spec(c, areas) {
            Some(area) => area + " · "@ + core.0,
            None => core.0,
        };
        (coverage_summary_spec(led, kind, cov), core.1 && cov.usable_sources > 0)
    }
}

fn counted_text(n: usize, one: &str, many: &str) -> (r: String)
    ensures
        r@ == count_text(n as nat, one@, many@),
{
    proof {
        reveal_strlit("1");
    }
    if n == 1 {
        concat("1", one)
    } else {
        let digits = u64_to_decimal(n as u64);
        concat(digits.as_str(), many)
    }
}

fn core_summary(
    kind: ChannelKindDto,
    channel: &ChannelPreference,
    items: &Vec<CollectorItem>,
    decision: &DecisionSnapshot,
    findings: &MeasuredFindings,
    now_ms: i64,
) -> (r: (String, bool))
    ensures
        r.0@ == summary_core(kind, *channel, items@, *decision, *findings, now_ms).0,
        r.1 == summary_core(kind, *channel, items@, *decision, *findings, now_ms).1,
{
    match kind {
        ChannelKindDto::Bridge => {
            let mut text = owned(decision.state_label.as_str());
            match (decision.eta_min, decision.eta_max) {
                (Some(minimum), Some(maximum)) => {
                    text.append(" · ");
                    let lo = u64_to_decimal(minimum as u64);
                    text.append(lo.as_str());
                    text.append("–");
                    let hi = u64_to_decimal(maximum as u64);
                    text.append(hi.as_str());
                    text.append(" min");
                },
                _ => {
                    proof {
                        assert(text@ + Seq::<char>::empty() =~= text@);
                    }
                },
            }
            (text, decision.state == BridgeStateDto::Likely || decision.state == BridgeStateDto::Open)
        },
        ChannelKindDto::Weather => (owned(findings.weather_summary.as_str()), findings.weather_active),
        ChannelKindDto::Official => {
            let n = count_items(items, Counted::OfficialAlerts, channel, now_ms);
            if n == 0 {
                (owned("No alerts in force"), false)
            } else {
                let digits = u64_to_decimal(n as u64);
                (concat(digits.as_str(), " active official alert(s)"), true)
            }
        },
        ChannelKindDto::Hurricane => {
            let total = count_items(items, Counted::AtlanticCyclones, channel, now_ms);
            let near = near_cyclones(items, &findings.cyclone_near);
            if total == 0 {
                (owned("No active Atlantic cyclone"), false)
            } else if near == 0 {
                let digits = u64_to_decimal(total as u64);
                (concat(digits.as_str(), " active Atlantic system(s) · none within range of a saved place"), false)
            } else {
                let digits = u64_to_decimal(near as u64);
                (concat(digits.as_str(), " Atlantic cyclone(s) within range"), true)
            }
        },
        ChannelKindDto::News => {
            let n = count_items(items, Counted::Headlines, channel, now_ms);
            if n == 0 {
                (owned("Nothing new"), false)
            } else {
                (counted_text(n, " current headline", " current headlines"), true)
            }
        },
        ChannelKindDto::Sports => {
            let total = count_items(items, Counted::Headlines, channel, now_ms);
            let moves = count_items(items, Counted::RosterMoves, channel, now_ms);
            if total == 0 {
                (owned("Nothing new"), false)
            } else if moves == 0 {
                (counted_text(total, " current sports item", " current sports items"), true)
            } else if total == 1 && moves == 1 {
                (owned("1 current sports item · 1 roster move"), true)
            } else {
                let t = u64_to_decimal(total as u64);
                let mut text = concat(t.as_str(), " current sports items · ");
                let m = u64_to_decimal(moves as u64);
                text.append(m.as_str());
                if moves == 1 {
                    text.append(" roster move");
                } else {
                    text.append(" roster moves");
                }
                (text, true)
            }
        },
        ChannelKindDto::Earthquake => {
            let all = count_items(items, Counted::Earthquakes, channel, now_ms);
            let n = if all > crate::preferences::AUTOMATIC_ITEM_LIMIT { crate::preferences::AUTOMATIC_ITEM_LIMIT } else { all };
            if n == 0 {
                (owned("No current earthquakes"), false)
            } else {
                (counted_text(n, " current earthquake", " current earthquakes"), true)
            }
        },
        ChannelKindDto::Markets => (owned(findings.markets_summary.as_str()), findings.markets_active),
        ChannelKindDto::System => (owned("Runtime status"), false),
    }
}

/// The summary line a channel shows and whether it is active.
pub fn channel_summary(
    kind: ChannelKindDto,
    channel: &ChannelPreference,
    items: &Vec<CollectorItem>,
    decision: &DecisionSnapshot,
    coverage: &ChannelCoverage,
    now_ms: i64,
    areas: &Vec<AlertArea>,
    findings: &MeasuredFindings,
) -> (r: (String, bool))
    ensures
        r.0@ == channel_summary_spec(kind, *channel, items@, *decision, *coverage, now_ms, areas@, *findings).0,
        r.1 == channel_summary_spec(kind, *channel, items@, *decision, *coverage, now_ms, areas@, *findings).1,
{
    if !channel.enabled {
        return (owned("Disabled"), false);
    }
    let (core, active) = core_summary(kind, channel, items, decision, findings, now_ms);
    let led = match area_context_label(channel, areas) {
        Some(area) => {
            let mut text = area;
            text.append(" · ");
            text.append(core.as_str());
            text
        },
        None => core,
    };
    (channel_coverage_summary(led, kind, coverage), active && coverage.usable_sources > 0)
}


/// A join of texts that are not all empty is not empty.
pub proof fn lemma_joined_nonempty(parts: Seq<Seq<char>>, sep: Seq<char>)
    requires
        parts.len() > 0,
        parts[0].len() > 0,
    ensures
        joined(parts, sep).len() > 0,
    decreases parts.len(),
{
    if parts.len() > 1 {
        lemma_joined_nonempty(parts.drop_last(), sep);
    }
}

} // verus!
