//! Channel rules on plain values: which outputs are ready, which areas a
//! channel covers, which items a channel accepts, and how coverage reads.

use vstd::prelude::*;

use crate::dto::{
    AlertArea, AlertAreaSource, AppPreferences, AvailabilityDto, ChannelKindDto, ChannelPreference,
    DeliveryStateDto, DestinationIdDto, DisplayTransport, OutputSnapshot, OutputStateDto,
    WhatsAppRecipientConsent,
};
use crate::item::{item_text, CollectorItem, ItemKind};
use crate::json::{array_strings, object_get, scope_strings_spec, value_as_bool, JsonObject, JsonValue};
use crate::preferences::{consent_current_spec, whatsapp_consent_is_current};
use crate::text::{
    ascii_lower, ascii_lower_seq, concat, decimal_digits, owned, str_chars, to_ascii_lower,
    trim_chars, trim_seq, u64_to_decimal,
};

verus! {

/// What the e-paper output reports for a display transport.
pub open spec fn epaper_output(t: DisplayTransport) -> (OutputStateDto, Seq<char>) {
    match t {
        DisplayTransport::Preview => (OutputStateDto::Ready, "Preview transport selected"@),
        DisplayTransport::Auto => (OutputStateDto::Unconfigured, "Auto-detect awaits a desktop USB/BLE adapter"@),
        DisplayTransport::Usb => (OutputStateDto::Degraded, "USB configured; desktop device writer must report readiness"@),
        DisplayTransport::Ble => (OutputStateDto::Degraded, "Bluetooth configured; desktop device writer must report readiness"@),
    }
}

/// What the WhatsApp output reports: ready only when it is enabled, the
/// recipient's consent is current, and a token is configured.
pub open spec fn whatsapp_output(p: AppPreferences) -> (OutputStateDto, Seq<char>) {
    let w = p.whatsapp;
    if !w.enabled {
        (OutputStateDto::Unconfigured, "Optional · connect Meta Cloud API"@)
    } else if w.consent == WhatsAppRecipientConsent::NotRecorded {
        (OutputStateDto::Unconfigured, "WhatsApp recipient opt-in consent has not been recorded"@)
    } else if w.consent == WhatsAppRecipientConsent::Unsubscribed {
        (OutputStateDto::Unconfigured, "WhatsApp recipient is unsubscribed; delivery is suppressed"@)
    } else if !consent_current_spec(w) {
        (OutputStateDto::Unconfigured, "WhatsApp opt-in is not bound to the current recipient"@)
    } else if !w.token_configured {
        (OutputStateDto::Unconfigured, "WhatsApp token is not configured"@)
    } else {
        (OutputStateDto::Ready, "Configuration is valid; live delivery health is reported by the host"@)
    }
}

fn output(id: DestinationIdDto, title: &str, state: OutputStateDto, detail: &str, delivery: Option<DeliveryStateDto>) -> (o: OutputSnapshot)
    ensures
        o.id == id,
        o.title@ == title@,
        o.state == state,
        o.detail@ == detail@,
        o.last_accepted_at is None,
        o.delivery_state == delivery,
{
    OutputSnapshot {
        id,
        title: owned(title),
        state,
        detail: owned(detail),
        last_accepted_at: None,
        delivery_state: delivery,
    }
}

/// The state of each output as the preferences configure it: e-paper,
/// WhatsApp, then desktop notices.
pub fn output_snapshots(preferences: &AppPreferences) -> (r: Vec<OutputSnapshot>)
    ensures
        r@.len() == 3,
        r@[0].id == DestinationIdDto::Epaper,
        r@[0].title@ == "E-paper"@,
        (r@[0].state, r@[0].detail@) == epaper_output(preferences.display.transport),
        r@[0].delivery_state is None,
        r@[1].id == DestinationIdDto::Whatsapp,
        r@[1].title@ == "WhatsApp"@,
        (r@[1].state, r@[1].detail@) == whatsapp_output(*preferences),
        r@[1].delivery_state == if r@[1].state == OutputStateDto::Ready { None } else { Some(DeliveryStateDto::Suppressed) },
        r@[2].id == DestinationIdDto::Desktop,
        r@[2].title@ == "Desktop notice"@,
        r@[2].state == OutputStateDto::Ready,
        r@[2].detail@ == "Best-effort OS notification submission; delivery confirmation is unavailable"@,
        r@[2].delivery_state is None,
        forall|i: int| 0 <= i < 3 ==> (#[trigger] r@[i]).last_accepted_at is None,
{
    let (epaper_state, epaper_detail) = match preferences.display.transport {
        DisplayTransport::Preview => (OutputStateDto::Ready, "Preview transport selected"),
        DisplayTransport::Auto => (OutputStateDto::Unconfigured, "Auto-detect awaits a desktop USB/BLE adapter"),
        DisplayTransport::Usb => (OutputStateDto::Degraded, "USB configured; desktop device writer must report readiness"),
        DisplayTransport::Ble => (OutputStateDto::Degraded, "Bluetooth configured; desktop device writer must report readiness"),
    };
    let w = &preferences.whatsapp;
    let (whatsapp_state, whatsapp_detail) = if !w.enabled {
        (OutputStateDto::Unconfigured, "Optional · connect Meta Cloud API")
    } else if w.consent == WhatsAppRecipientConsent::NotRecorded {
        (OutputStateDto::Unconfigured, "WhatsApp recipient opt-in consent has not been recorded")
    } else if w.consent == WhatsAppRecipientConsent::Unsubscribed {
        (OutputStateDto::Unconfigured, "WhatsApp recipient is unsubscribed; delivery is suppressed")
    } else if !whatsapp_consent_is_current(w) {
        (OutputStateDto::Unconfigured, "WhatsApp opt-in is not bound to the current recipient")
    } else if !w.token_configured {
        (OutputStateDto::Unconfigured, "WhatsApp token is not configured")
    } else {
        (OutputStateDto::Ready, "Configuration is valid; live delivery health is reported by the host")
    };
    let delivery = if whatsapp_state != OutputStateDto::Ready { Some(DeliveryStateDto::Suppressed) } else { None };
    vec![
        output(DestinationIdDto::Epaper, "E-paper", epaper_state, epaper_detail, None),
        output(DestinationIdDto::Whatsapp, "WhatsApp", whatsapp_state, whatsapp_detail, delivery),
        output(
            DestinationIdDto::Desktop,
            "Desktop notice",
            OutputStateDto::Ready,
            "Best-effort OS notification submission; delivery confirmation is unavailable",
            None,
        ),
    ]
}

/// Whether two texts are equal once ASCII letters are lower-cased.
pub open spec fn eq_ignore_ascii_case_spec(a: Seq<char>, b: Seq<char>) -> bool {
    ascii_lower_seq(a) == ascii_lower_seq(b)
}

pub fn eq_ignore_ascii_case(a: &str, b: &str) -> (r: bool)
    ensures
        r == eq_ignore_ascii_case_spec(a@, b@),
{
    let x = str_chars(a);
    let y = str_chars(b);
    if x.len() != y.len() {
        proof {
            if ascii_lower_seq(a@) == ascii_lower_seq(b@) {
                assert(ascii_lower_seq(a@).len() == a@.len());
            }
        }
        return false;
    }
    let mut i: usize = 0;
    while i < x.len()
        invariant
            x@ == a@,
            y@ == b@,
            x.len() == y.len(),
            i <= x.len(),
            forall|j: int| 0 <= j < i ==> ascii_lower(x@[j]) == ascii_lower(y@[j]),
        decreases x.len() - i,
    {
        if to_ascii_lower(x[i]) != to_ascii_lower(y[i]) {
            proof {
                if ascii_lower_seq(a@) == ascii_lower_seq(b@) {
                    assert(ascii_lower_seq(a@)[i as int] == ascii_lower_seq(b@)[i as int]);
                }
            }
            return false;
        }
        i = i + 1;
    }
    proof {
        assert(ascii_lower_seq(a@) =~= ascii_lower_seq(b@));
    }
    true
}

/// Whether an area feeds a channel of this kind: weather and tropical
/// context by their own switches; official alerts only for areas in the
/// United States, or placed by the device or by hand without a country.
pub open spec fn area_enabled_for_channel_spec(area: AlertArea, kind: ChannelKindDto) -> bool {
    match kind {
        ChannelKindDto::Weather => area.weather_enabled,
        ChannelKindDto::Official => area.official_alerts_enabled && (
            (area.country_code is Some && eq_ignore_ascii_case_spec(area.country_code.unwrap()@, "US"@))
            || (area.country_code is None && (area.source == AlertAreaSource::Device || area.source == AlertAreaSource::Manual))),
        ChannelKindDto::Hurricane => area.tropical_context_enabled,
        _ => true,
    }
}

pub fn area_enabled_for_channel(area: &AlertArea, channel: &ChannelPreference) -> (r: bool)
    ensures
        r == area_enabled_for_channel_spec(*area, channel.kind),
{
    match channel.kind {
        ChannelKindDto::Weather => area.weather_enabled,
        ChannelKindDto::Official => {
            area.official_alerts_enabled && match &area.country_code {
                Some(country) => eq_ignore_ascii_case(country.as_str(), "US"),
                None => area.source == AlertAreaSource::Device || area.source == AlertAreaSource::Manual,
            }
        },
        ChannelKindDto::Hurricane => area.tropical_context_enabled,
        _ => true,
    }
}

/// How a channel's sources cover it right now.
#[derive(Clone, Copy, Debug, PartialEq, Eq, Structural)]
pub struct ChannelCoverage {
    pub availability: AvailabilityDto,
    pub age_seconds: u64,
    pub total_sources: usize,
    pub usable_sources: usize,
    pub fresh_sources: usize,
}

/// A channel summary with what its coverage means for it appended.
pub open spec fn coverage_summary_spec(summary: Seq<char>, kind: ChannelKindDto, c: ChannelCoverage) -> Seq<char> {
    if kind == ChannelKindDto::Bridge || kind == ChannelKindDto::System || c.availability == AvailabilityDto::Fresh {
        summary
    } else if c.total_sources == 0 {
        summary + " · no collector configured"@
    } else if c.usable_sources == 0 {
        match c.availability {
            AvailabilityDto::Stale => summary + " · all source data stale; activation suppressed"@,
            AvailabilityDto::Offline => summary + " · all sources offline; activation suppressed"@,
            _ => summary,
        }
    } else if c.usable_sources < c.total_sources {
        summary + " · partial coverage ("@ + decimal_digits(c.usable_sources as nat) + "/"@
            + decimal_digits(c.total_sources as nat) + " sources usable); stale/offline items suppressed"@
    } else if c.fresh_sources < c.total_sources {
        summary + " · source responses delayed"@
    } else {
        summary
    }
}

pub fn channel_coverage_summary(summary: String, kind: ChannelKindDto, coverage: &ChannelCoverage) -> (r: String)
    ensures
        r@ == coverage_summary_spec(summary@, kind, *coverage),
{
    if kind == ChannelKindDto::Bridge || kind == ChannelKindDto::System || coverage.availability == AvailabilityDto::Fresh {
        return summary;
    }
    if coverage.total_sources == 0 {
        return concat(summary.as_str(), " · no collector configured");
    }
    if coverage.usable_sources == 0 {
        return match coverage.availability {
            AvailabilityDto::Stale => concat(summary.as_str(), " · all source data stale; activation suppressed"),
            AvailabilityDto::Offline => concat(summary.as_str(), " · all sources offline; activation suppressed"),
            _ => summary,
        };
    }
    if coverage.usable_sources < coverage.total_sources {
        let usable = u64_to_decimal(coverage.usable_sources as u64);
        let total = u64_to_decimal(coverage.total_sources as u64);
        let a = concat(summary.as_str(), " · partial coverage (");
        let b = concat(a.as_str(), usable.as_str());
        let c = concat(b.as_str(), "/");
        let d = concat(c.as_str(), total.as_str());
        return concat(d.as_str(), " sources usable); stale/offline items suppressed");
    }
    if coverage.fresh_sources < coverage.total_sources {
        return concat(summary.as_str(), " · source responses delayed");
    }
    summary
}

/// The boolean scope field `key`, or `default` when it holds none.
pub open spec fn scope_boolean_spec(o: JsonObject, key: Seq<char>, default: bool) -> bool {
    match value_as_bool(object_get(o, key)) {
        Some(b) => b,
        None => default,
    }
}

pub fn scope_boolean(channel: &ChannelPreference, key: &str, default: bool) -> (r: bool)
    ensures
        r == scope_boolean_spec(channel.scope, key@, default),
{
    match channel.scope.get_bool(key) {
        Some(b) => b,
        None => default,
    }
}

/// The string entries of the list at `key` of a channel's scope, in order.
pub fn scope_strings<'a>(channel: &'a ChannelPreference, key: &str) -> (r: Vec<&'a str>)
    ensures
        crate::preferences::str_views(r@) == scope_strings_spec(channel.scope, key@),
{
    scope_strings_of_object(&channel.scope, key)
}

/// The string entries of the list at `key`, in order.
pub fn scope_strings_of_object<'a>(object: &'a JsonObject, key: &str) -> (r: Vec<&'a str>)
    ensures
        crate::preferences::str_views(r@) == scope_strings_spec(*object, key@),
{
    let mut out: Vec<&'a str> = Vec::new();
    match object.get_array(key) {
        Some(values) => {
            let mut i: usize = 0;
            while i < values.len()
                invariant
                    i <= values@.len(),
                    crate::preferences::str_views(out@) == array_strings(values@.take(i as int)),
                decreases values@.len() - i,
            {
                proof {
                    assert(values@.take(i + 1).drop_last() == values@.take(i as int));
                    assert(values@.take(i + 1).last() == values@[i as int]);
                }
                match &values[i] {
                    JsonValue::String(s) => {
                        let ghost before = out@;
                        out.push(s.as_str());
                        proof {
                            assert(out@.drop_last() == before);
                        }
                    },
                    _ => {},
                }
                i = i + 1;
            }
            proof {
                assert(values@.take(values@.len() as int) == values@);
            }
        },
        None => {},
    }
    out
}

/// Whether `needle` occurs in `hay`.
pub open spec fn contains_text(hay: Seq<char>, needle: Seq<char>) -> bool {
    exists|i: int| 0 <= i && i + needle.len() <= hay.len() && #[trigger] hay.subrange(i, i + needle.len()) == needle
}

pub fn contains_chars(hay: &Vec<char>, needle: &Vec<char>) -> (r: bool)
    ensures
        r == contains_text(hay@, needle@),
{
    if needle.len() > hay.len() {
        return false;
    }
    let n = hay.len();
    let last = hay.len() - needle.len();
    let mut i: usize = 0;
    loop
        invariant
            n == hay@.len(),
            needle@.len() <= hay@.len(),
            last == hay@.len() - needle@.len(),
            i <= last,
            forall|k: int| 0 <= k < i ==> #[trigger] hay@.subrange(k, k + needle@.len()) != needle@,
        decreases last - i,
    {
        let mut j: usize = 0;
        let mut same = true;
        while j < needle.len()
            invariant
                n == hay@.len(),
                needle@.len() <= hay@.len(),
                i <= last,
                last == hay@.len() - needle@.len(),
                j <= needle@.len(),
                same == forall|m: int| 0 <= m < j ==> hay@[i + m] == needle@[m],
            decreases needle@.len() - j,
        {
            if hay[i + j] != needle[j] {
                same = false;
            }
            j = j + 1;
        }
        if same {
            proof {
                assert(hay@.subrange(i as int, i + needle@.len()) =~= needle@);
            }
            return true;
        }
        proof {
            let m = choose|m: int| 0 <= m < needle@.len() && hay@[i + m] != needle@[m];
            assert(hay@.subrange(i as int, i + needle@.len())[m] != needle@[m]);
        }
        if i == last {
            proof {
                assert forall|k: int| 0 <= k && k + needle@.len() <= hay@.len() implies #[trigger] hay@.subrange(k, k + needle@.len()) != needle@ by {
                    assert(k <= i);
                }
            }
            return false;
        }
        i = i + 1;
    }
}

/// The characters of `s` with ASCII letters lower-cased.
fn lower_chars(s: &str) -> (r: Vec<char>)
    ensures
        r@ == ascii_lower_seq(s@),
{
    let v = str_chars(s);
    let mut out: Vec<char> = Vec::new();
    let mut i: usize = 0;
    while i < v.len()
        invariant
            v@ == s@,
            i <= v@.len(),
            out@ == ascii_lower_seq(v@.take(i as int)),
        decreases v@.len() - i,
    {
        out.push(to_ascii_lower(v[i]));
        i = i + 1;
        proof {
            assert(ascii_lower_seq(v@.take(i as int)) =~= ascii_lower_seq(v@.take(i - 1)).push(ascii_lower(v@[i - 1])));
        }
    }
    proof {
        assert(v@.take(v@.len() as int) =~= v@);
    }
    out
}

/// `s` contains `needle`, ignoring ASCII case; `needle` is lower case.
pub fn contains_ignore_ascii_case(s: &str, needle: &str) -> (r: bool)
    ensures
        r == contains_text(ascii_lower_seq(s@), needle@),
{
    let hay = lower_chars(s);
    let n = str_chars(needle);
    contains_chars(&hay, &n)
}

/// The CAP records the official-alerts channel acts on: current actual
/// alerts and updates, statements only when asked for, and only the
/// configured severities when any are configured.
pub open spec fn official_alert_matches_spec(item: CollectorItem, scope: JsonObject, now: i64) -> bool {
    let severities = scope_strings_spec(scope, "severity"@);
    &&& item.kind == ItemKind::OfficialAlert
    &&& item.ends_at_ms is Some
    &&& item.ends_at_ms.unwrap() > now
    &&& item_text(item, "status"@) is Some
    &&& ascii_lower_seq(trim_seq(item_text(item, "status"@).unwrap())) == "actual"@
    &&& item_text(item, "message_type"@) is Some
    &&& (ascii_lower_seq(trim_seq(item_text(item, "message_type"@).unwrap())) == "alert"@
        || ascii_lower_seq(trim_seq(item_text(item, "message_type"@).unwrap())) == "update"@)
    &&& (scope_boolean_spec(scope, "includeStatements"@, false) || !contains_text(ascii_lower_seq(item.title@), "statement"@))
    &&& (severities.len() == 0 || (item_text(item, "severity"@) is Some && severity_listed(severities, item_text(item, "severity"@).unwrap())))
}

/// `v` is one of `severities`, ignoring ASCII case.
pub open spec fn severity_listed(severities: Seq<Seq<char>>, v: Seq<char>) -> bool {
    exists|i: int| 0 <= i < severities.len() && eq_ignore_ascii_case_spec(#[trigger] severities[i], v)
}

fn trimmed_lower_is(s: &str, word: &str) -> (r: bool)
    ensures
        r == (ascii_lower_seq(trim_seq(s@)) == word@),
{
    let t = trim_chars(s);
    let w = str_chars(word);
    if t.len() != w.len() {
        proof {
            if ascii_lower_seq(trim_seq(s@)) == word@ {
                assert(ascii_lower_seq(trim_seq(s@)).len() == t@.len());
            }
        }
        return false;
    }
    let mut i: usize = 0;
    while i < t.len()
        invariant
            t@ == trim_seq(s@),
            w@ == word@,
            t.len() == w.len(),
            i <= t.len(),
            forall|j: int| 0 <= j < i ==> ascii_lower(t@[j]) == w@[j],
        decreases t.len() - i,
    {
        if to_ascii_lower(t[i]) != w[i] {
            proof {
                if ascii_lower_seq(trim_seq(s@)) == word@ {
                    assert(ascii_lower_seq(t@)[i as int] == w@[i as int]);
                }
            }
            return false;
        }
        i = i + 1;
    }
    proof {
        assert(ascii_lower_seq(t@) =~= w@);
    }
    true
}

#[verifier::loop_isolation(false)]
pub fn official_alert_matches_scope(item: &CollectorItem, channel: &ChannelPreference, now_ms: i64) -> (r: bool)
    ensures
        r == official_alert_matches_spec(*item, channel.scope, now_ms),
{
    if item.kind != ItemKind::OfficialAlert {
        return false;
    }
    match item.ends_at_ms {
        Some(ends) => {
            if ends <= now_ms {
                return false;
            }
        },
        None => return false,
    }
    let actual = match item.attributes.get_str("status") {
        Some(status) => trimmed_lower_is(status, "actual"),
        None => false,
    };
    let actionable = match item.attributes.get_str("message_type") {
        Some(m) => trimmed_lower_is(m, "alert") || trimmed_lower_is(m, "update"),
        None => false,
    };
    if !actual || !actionable {
        return false;
    }
    if !scope_boolean(channel, "includeStatements", false) && contains_ignore_ascii_case(item.title.as_str(), "statement") {
        return false;
    }
    let severities = scope_strings(channel, "severity");
    let ghost sev = scope_strings_spec(channel.scope, "severity"@);
    if severities.len() == 0 {
        proof {
            lemma_str_views_len(severities@);
            assert(sev.len() == 0);
            assert(item.ends_at_ms.unwrap() > now_ms);
            assert(ascii_lower_seq(trim_seq(item_text(*item, "status"@).unwrap())) == "actual"@);
        }
        proof {
            assert(crate::preferences::str_views(severities@).len() == severities@.len()) by {
                lemma_str_views_len(severities@);
            }
        }
        return true;
    }
    proof {
        lemma_str_views_len(severities@);
    }
    let severity = match item.attributes.get_str("severity") {
        Some(s) => s,
        None => return false,
    };
    let mut i: usize = 0;
    while i < severities.len()
        invariant
            crate::preferences::str_views(severities@) == sev,
            sev.len() == severities@.len(),
            i <= severities@.len(),
            forall|k: int| 0 <= k < i ==> !eq_ignore_ascii_case_spec(#[trigger] sev[k], severity@),
        decreases severities@.len() - i,
    {
        proof {
            lemma_str_views_index(severities@, i as int);
        }
        if eq_ignore_ascii_case(severities[i], severity) {
            proof {
                assert(eq_ignore_ascii_case_spec(sev[i as int], severity@));
                assert(severity_listed(sev, severity@));
            }
            return true;
        }
        i = i + 1;
    }
    false
}

pub(crate) proof fn lemma_str_views_len(v: Seq<&str>)
    ensures
        crate::preferences::str_views(v).len() == v.len(),
    decreases v.len(),
{
    if v.len() > 0 {
        lemma_str_views_len(v.drop_last());
    }
}

pub(crate) proof fn lemma_str_views_index(v: Seq<&str>, i: int)
    requires
        0 <= i < v.len(),
    ensures
        crate::preferences::str_views(v)[i] == v[i]@,
    decreases v.len(),
{
    lemma_str_views_len(v.drop_last());
    if i < v.len() - 1 {
        lemma_str_views_index(v.drop_last(), i);
    }
}

/// A headline marked as breaking in its title, its summary, or one of its
/// categories, in any case.
pub open spec fn news_breaking_spec(item: CollectorItem) -> bool {
    ||| contains_text(ascii_lower_seq(item.title@), "breaking"@)
    ||| item.summary is Some && contains_text(ascii_lower_seq(item.summary.unwrap()@), "breaking"@)
    ||| any_breaking(scope_strings_spec(item.attributes, "categories"@))
}

/// One of `texts` contains `breaking`, ignoring ASCII case.
pub open spec fn any_breaking(texts: Seq<Seq<char>>) -> bool {
    exists|i: int| 0 <= i < texts.len() && contains_text(ascii_lower_seq(#[trigger] texts[i]), "breaking"@)
}

proof fn lemma_array_strings_len(a: Seq<JsonValue>)
    ensures
        array_strings(a).len() <= a.len(),
    decreases a.len(),
{
    if a.len() > 0 {
        lemma_array_strings_len(a.drop_last());
    }
}

#[verifier::loop_isolation(false)]
pub fn news_item_is_breaking(item: &CollectorItem) -> (r: bool)
    ensures
        r == news_breaking_spec(*item),
{
    if contains_ignore_ascii_case(item.title.as_str(), "breaking") {
        return true;
    }
    match &item.summary {
        Some(s) => {
            if contains_ignore_ascii_case(s.as_str(), "breaking") {
                return true;
            }
        },
        None => {},
    }
    let values = match item.attributes.get_array("categories") {
        Some(a) => a,
        None => return false,
    };
    let ghost cats = array_strings(values@);
    let mut i: usize = 0;
    while i < values.len()
        invariant
            cats == array_strings(values@),
            i <= values@.len(),
            forall|k: int| 0 <= k < array_strings(values@.take(i as int)).len()
                ==> !contains_text(ascii_lower_seq(#[trigger] array_strings(values@.take(i as int))[k]), "breaking"@),
        decreases values@.len() - i,
    {
        let ghost prev = array_strings(values@.take(i as int));
        let ghost next = array_strings(values@.take(i + 1));
        proof {
            assert(values@.take(i + 1).drop_last() == values@.take(i as int));
            assert(values@.take(i + 1).last() == values@[i as int]);
        }
        match &values[i] {
            JsonValue::String(s) => {
                proof {
                    assert(next == prev.push(s@));
                }
                if contains_ignore_ascii_case(s.as_str(), "breaking") {
                    proof {
                        lemma_array_strings_prefix(values@, i + 1);
                        assert(next[next.len() - 1] == s@);
                        assert(cats[next.len() - 1] == s@);
                        assert(contains_text(ascii_lower_seq(cats[next.len() - 1]), "breaking"@));
                        assert(cats == scope_strings_spec(item.attributes, "categories"@));
                        assert(any_breaking(cats));
                    }
                    return true;
                }
                proof {
                    assert forall|k: int| 0 <= k < next.len() implies !contains_text(ascii_lower_seq(#[trigger] next[k]), "breaking"@) by {
                        if k < prev.len() {
                            assert(next[k] == prev[k]);
                        }
                    }
                }
            },
            _ => {
                proof {
                    assert(next == prev);
                }
            },
        }
        i = i + 1;
    }
    proof {
        assert(values@.take(values@.len() as int) == values@);
    }
    false
}

/// The strings of a prefix of an array are a prefix of its strings.
proof fn lemma_array_strings_prefix(a: Seq<JsonValue>, n: int)
    requires
        0 <= n <= a.len(),
    ensures
        array_strings(a.take(n)).len() <= array_strings(a).len(),
        forall|k: int| 0 <= k < array_strings(a.take(n)).len() ==> array_strings(a.take(n))[k] == #[trigger] array_strings(a)[k],
    decreases a.len() - n,
{
    if n < a.len() {
        lemma_array_strings_prefix(a, n + 1);
        assert(a.take(n + 1).drop_last() == a.take(n));
    } else {
        assert(a.take(n) == a);
    }
}

/// When a reader opts in to statements (`includeStatements` set to true),
/// whether an official record is matched does not depend on its title: a
/// "Special Weather Statement" is matched exactly when the same record under
/// any other title is.
pub proof fn lemma_opted_in_statements_match_like_alerts(item: CollectorItem, title: String, scope: JsonObject, now: i64)
    requires
        value_as_bool(object_get(scope, "includeStatements"@)) == Some(true),
    ensures
        official_alert_matches_spec(CollectorItem { title: title, ..item }, scope, now)
            == official_alert_matches_spec(item, scope, now),
{
}

/// Without that opt-in, a record whose title mentions a statement, in any
/// ASCII case, is never matched.
pub proof fn lemma_statements_need_the_opt_in(item: CollectorItem, scope: JsonObject, now: i64)
    requires
        value_as_bool(object_get(scope, "includeStatements"@)) != Some(true),
        contains_text(ascii_lower_seq(item.title@), "statement"@),
    ensures
        !official_alert_matches_spec(item, scope, now),
{
}

} // verus!
