//! Stored preferences: the shipped defaults, the automatic alert policy, and
//! the rules a stored profile must meet before the runtime starts from it.

use vstd::prelude::*;

use crate::catalog::{entry_with_id, string_views, FeedCatalog};
use crate::dto::{
    AisSettings, AlertAreaSource, DisplayOrientation, DisplaySettings, DisplayTransport,
    PolicyProfile, ProfilePreset, UnitSystem,
    AlertArea, AppPreferences, ChannelKindDto, ChannelPreference, DestinationIdDto,
    InterruptPreset, QuietHours, SurfacePresence, WhatsAppRecipientConsent, WhatsAppSettings,
};
use crate::json::{array_strings, object_get, value_as_array, value_as_str, number_within, JsonNumber, JsonObject, JsonValue};
use crate::number::{pow10, Decimal, Real};
use crate::text::{
    ascii_alphabetic, ascii_alphanumeric, ascii_digit, is_ascii_alphabetic, ascii_lowercase, ascii_uppercase, ascii_upper_seq, chars_eq,
    concat, is_ascii_alphanumeric, owned, is_ascii_digit, is_ascii_lowercase, is_ascii_uppercase,
    str_chars, str_eq, to_ascii_upper, trim, trim_chars, trim_end_seq, trim_seq, trim_start_seq,
};

verus! {

/// One readable cadence for every ordinary panel frame.
pub const AUTOMATIC_FRAME_DWELL_SECONDS: u32 = 24;

/// Hardware maintenance cadence used to clear e-paper ghosting.
pub const AUTOMATIC_FULL_REFRESH_EVERY: u32 = 12;

/// Safety ceiling for one collector response.
pub const AUTOMATIC_ITEM_LIMIT: usize = 100;

/// Why a stored profile was refused.
#[derive(Clone, Debug, PartialEq, Eq)]
pub enum PreferencesError {
    Invalid(String),
}

impl PreferencesError {
    /// The message a reader is shown.
    pub fn message(&self) -> (r: &str)
        ensures
            match *self {
                PreferencesError::Invalid(m) => r@ == m@,
            },
    {
        match self {
            PreferencesError::Invalid(m) => m.as_str(),
        }
    }
}

/// The freshness window, in minutes, that the automatic policy gives each kind.
pub open spec fn source_age_minutes_spec(kind: ChannelKindDto) -> u32 {
    match kind {
        ChannelKindDto::Bridge | ChannelKindDto::Official => 2,
        ChannelKindDto::Weather => 15,
        ChannelKindDto::Hurricane => 360,
        ChannelKindDto::News => 180,
        ChannelKindDto::Sports => 720,
        ChannelKindDto::Earthquake => 1440,
        ChannelKindDto::Markets => 20,
        ChannelKindDto::System => 5,
    }
}

pub fn automatic_source_age_minutes(kind: ChannelKindDto) -> (r: u32)
    ensures
        r == source_age_minutes_spec(kind),
{
    match kind {
        ChannelKindDto::Bridge | ChannelKindDto::Official => 2,
        ChannelKindDto::Weather => 15,
        ChannelKindDto::Hurricane => 360,
        ChannelKindDto::News => 180,
        ChannelKindDto::Sports => 720,
        ChannelKindDto::Earthquake => 1440,
        ChannelKindDto::Markets => 20,
        ChannelKindDto::System => 5,
    }
}

/// The refusal carrying `message`.
pub fn invalid(message: String) -> (r: Result<(), PreferencesError>)
    ensures
        r == Err::<(), PreferencesError>(PreferencesError::Invalid(message)),
{
    Err(PreferencesError::Invalid(message))
}

/// `minimum <= |s| <= maximum`, counting characters.
pub open spec fn text_within(s: Seq<char>, minimum: int, maximum: int) -> bool {
    minimum <= s.len() <= maximum
}

/// Accepts `value` when its character count lies in `minimum..=maximum`.
pub fn bounded_text(field: &str, value: &str, minimum: usize, maximum: usize) -> (r: Result<(), PreferencesError>)
    ensures
        r is Ok <==> text_within(value@, minimum as int, maximum as int),
{
    let length = value.unicode_len();
    if minimum <= length && length <= maximum {
        Ok(())
    } else {
        invalid(concat(field, " has a length outside its allowed range"))
    }
}

/// Whether opt-in consent is bound to the exact trimmed recipient and carries
/// a positive capture time.
pub open spec fn consent_current_spec(s: WhatsAppSettings) -> bool {
    &&& s.consent == WhatsAppRecipientConsent::OptedIn
    &&& s.consent_recipient is Some
    &&& s.consent_recipient.unwrap()@ == trim_seq(s.recipient@)
    &&& s.consent_recorded_at_millis is Some
    &&& s.consent_recorded_at_millis.unwrap() > 0
}

/// True only when opt-in consent is bound to the exact current recipient and
/// carries a usable capture time.
pub fn whatsapp_consent_is_current(settings: &WhatsAppSettings) -> (r: bool)
    ensures
        r == consent_current_spec(*settings),
{
    if settings.consent != WhatsAppRecipientConsent::OptedIn {
        return false;
    }
    let recorded = match settings.consent_recorded_at_millis {
        Some(at) => at > 0,
        None => false,
    };
    if !recorded {
        return false;
    }
    match &settings.consent_recipient {
        Some(bound) => {
            let current = trim(settings.recipient.as_str());
            str_eq(bound.as_str(), current.as_str())
        },
        None => false,
    }
}

/// The number of ASCII digits in `s`.
pub open spec fn digit_count(s: Seq<char>) -> nat
    decreases s.len(),
{
    if s.len() == 0 {
        0
    } else {
        digit_count(s.drop_last()) + if is_ascii_digit(s.last()) { 1nat } else { 0nat }
    }
}

/// A character that may stand in an E.164 number after its `+`.
pub open spec fn recipient_char(c: char) -> bool {
    is_ascii_digit(c) || c == ' ' || c == '-' || c == '(' || c == ')'
}

/// An E.164 number once trimmed: `+`, then eight to fifteen digits, with
/// spaces, hyphens and parentheses allowed between them.
pub open spec fn recipient_valid(recipient: Seq<char>) -> bool {
    let t = trim_seq(recipient);
    &&& t.len() >= 1
    &&& t[0] == '+'
    &&& forall|i: int| 1 <= i < t.len() ==> recipient_char(#[trigger] t[i])
    &&& 8 <= digit_count(t.skip(1)) <= 15
}

pub fn validate_whatsapp_recipient(recipient: &str) -> (r: Result<(), PreferencesError>)
    ensures
        r is Ok <==> recipient_valid(recipient@),
{
    let t = trim_chars(recipient);
    if t.len() == 0 || t[0] != '+' {
        return invalid(concat("whatsapp.recipient", " must be an E.164 number beginning with +"));
    }
    let mut digits: usize = 0;
    let mut all_allowed = true;
    let mut i: usize = 1;
    while i < t.len()
        invariant
            1 <= i <= t@.len(),
            digits == digit_count(t@.subrange(1, i as int)),
            digits < i,
            all_allowed == forall|j: int| 1 <= j < i ==> recipient_char(#[trigger] t@[j]),
        decreases t@.len() - i,
    {
        let c = t[i];
        proof {
            assert(t@.subrange(1, (i + 1) as int).drop_last() == t@.subrange(1, i as int));
        }
        if ascii_digit(c) {
            digits = digits + 1;
        }
        if !(ascii_digit(c) || c == ' ' || c == '-' || c == '(' || c == ')') {
            all_allowed = false;
        }
        i = i + 1;
    }
    proof {
        assert(t@.subrange(1, t@.len() as int) == t@.skip(1));
    }
    if !all_allowed || digits < 8 || digits > 15 {
        return invalid(concat("whatsapp.recipient", " is not a valid E.164 number"));
    }
    Ok(())
}

/// Two or three lowercase ASCII letters.
pub open spec fn language_part(s: Seq<char>) -> bool {
    2 <= s.len() <= 3 && forall|i: int| 0 <= i < s.len() ==> is_ascii_lowercase(#[trigger] s[i])
}

/// Two uppercase ASCII letters.
pub open spec fn region_part(s: Seq<char>) -> bool {
    s.len() == 2 && forall|i: int| 0 <= i < s.len() ==> is_ascii_uppercase(#[trigger] s[i])
}

/// A language, optionally followed by `_` and a region, as in `en_US`.
pub open spec fn language_code_valid(v: Seq<char>) -> bool {
    ||| language_part(v)
    ||| exists|p: int|
        0 <= p < v.len() && #[trigger] v[p] == '_' && language_part(v.take(p)) && region_part(v.skip(p + 1))
}

fn all_lowercase(v: &Vec<char>, from: usize, to: usize) -> (r: bool)
    requires
        from <= to <= v@.len(),
    ensures
        r == forall|i: int| from <= i < to ==> is_ascii_lowercase(#[trigger] v@[i]),
{
    let mut i = from;
    while i < to
        invariant
            from <= i <= to <= v@.len(),
            forall|j: int| from <= j < i ==> is_ascii_lowercase(#[trigger] v@[j]),
        decreases to - i,
    {
        if !ascii_lowercase(v[i]) {
            return false;
        }
        i = i + 1;
    }
    true
}

fn all_uppercase(v: &Vec<char>, from: usize, to: usize) -> (r: bool)
    requires
        from <= to <= v@.len(),
    ensures
        r == forall|i: int| from <= i < to ==> is_ascii_uppercase(#[trigger] v@[i]),
{
    let mut i = from;
    while i < to
        invariant
            from <= i <= to <= v@.len(),
            forall|j: int| from <= j < i ==> is_ascii_uppercase(#[trigger] v@[j]),
        decreases to - i,
    {
        if !ascii_uppercase(v[i]) {
            return false;
        }
        i = i + 1;
    }
    true
}

pub fn valid_whatsapp_language_code(value: &str) -> (r: bool)
    ensures
        r == language_code_valid(value@),
{
    let v = str_chars(value);
    let n = v.len();
    let mut p: usize = 0;
    while p < n && v[p] != '_'
        invariant
            p <= n == v@.len(),
            forall|j: int| 0 <= j < p ==> v@[j] != '_',
        decreases n - p,
    {
        p = p + 1;
    }
    if p == n {
        let r = 2 <= n && n <= 3 && all_lowercase(&v, 0, n);
        proof {
            if exists|q: int|
                0 <= q < v@.len() && #[trigger] v@[q] == '_' && language_part(v@.take(q)) && region_part(v@.skip(q + 1)) {
                let q = choose|q: int|
                    0 <= q < v@.len() && #[trigger] v@[q] == '_' && language_part(v@.take(q)) && region_part(v@.skip(q + 1));
                assert(v@[q] != '_');
            }
        }
        r
    } else {
        let r = 2 <= p && p <= 3 && all_lowercase(&v, 0, p) && n - p - 1 == 2 && all_uppercase(&v, p + 1, n);
        proof {
            assert(!language_part(v@)) by {
                if language_part(v@) {
                    assert(is_ascii_lowercase(v@[p as int]));
                }
            }
            if r {
                assert(language_part(v@.take(p as int)));
                assert(region_part(v@.skip(p + 1)));
            } else {
                if exists|q: int|
                    0 <= q < v@.len() && #[trigger] v@[q] == '_' && language_part(v@.take(q)) && region_part(v@.skip(q + 1)) {
                    let q = choose|q: int|
                        0 <= q < v@.len() && #[trigger] v@[q] == '_' && language_part(v@.take(q)) && region_part(v@.skip(q + 1));
                    if q > p {
                        assert(v@.take(q)[p as int] == '_');
                    }
                    assert(q == p);
                    assert(forall|j: int| 0 <= j < p ==> v@.take(q)[j] == v@[j]);
                    assert(forall|j: int| p + 1 <= j < n ==> v@.skip(q + 1)[j - p - 1] == v@[j]);
                }
            }
        }
        r
    }
}

/// The value of a two-character hour or minute field, as `u8` parsing reads
/// it: two digits, or `+` and one digit.
pub open spec fn two_digit_value(a: char, b: char) -> Option<int> {
    if is_ascii_digit(a) && is_ascii_digit(b) {
        Some((a as int - '0' as int) * 10 + (b as int - '0' as int))
    } else if a == '+' && is_ascii_digit(b) {
        Some(b as int - '0' as int)
    } else {
        None
    }
}

/// `HH:MM` read as an hour and a minute of a day.
pub open spec fn hhmm_spec(v: Seq<char>) -> Option<(int, int)> {
    if v.len() == 5 && v[2] == ':' {
        match (two_digit_value(v[0], v[1]), two_digit_value(v[3], v[4])) {
            (Some(h), Some(m)) => if h <= 23 && m <= 59 {
                Some((h, m))
            } else {
                None
            },
            _ => None,
        }
    } else {
        None
    }
}

fn two_digit(a: char, b: char) -> (r: Option<u8>)
    ensures
        match r {
            Some(x) => two_digit_value(a, b) == Some(x as int),
            None => two_digit_value(a, b) is None,
        },
{
    if ascii_digit(a) && ascii_digit(b) {
        let hi = (a as u32) - ('0' as u32);
        let lo = (b as u32) - ('0' as u32);
        Some((hi * 10 + lo) as u8)
    } else if a == '+' && ascii_digit(b) {
        Some(((b as u32) - ('0' as u32)) as u8)
    } else {
        None
    }
}

/// Reads `value` as `HH:MM`.
pub fn parse_hhmm(field: &str, value: &str) -> (r: Result<(u8, u8), PreferencesError>)
    ensures
        match r {
            Ok((h, m)) => hhmm_spec(value@) == Some((h as int, m as int)),
            Err(_) => hhmm_spec(value@) is None,
        },
{
    let v = str_chars(value);
    if v.len() != 5 || v[2] != ':' {
        return Err(PreferencesError::Invalid(concat(field, " must use HH:MM")));
    }
    let hour = match two_digit(v[0], v[1]) {
        Some(h) => h,
        None => return Err(PreferencesError::Invalid(concat(field, " has an invalid hour"))),
    };
    let minute = match two_digit(v[3], v[4]) {
        Some(m) => m,
        None => return Err(PreferencesError::Invalid(concat(field, " has an invalid minute"))),
    };
    if hour > 23 || minute > 59 {
        return Err(PreferencesError::Invalid(concat(field, " is outside a valid day")));
    }
    Ok((hour, minute))
}

/// A scope value the console can edit: a short string, a number, a boolean,
/// or a short list of short strings.
pub open spec fn scope_value_valid(v: JsonValue) -> bool {
    match v {
        JsonValue::String(s) => s@.len() <= 2048,
        JsonValue::Number(_) => true,
        JsonValue::Bool(_) => true,
        JsonValue::Array(a) => a@.len() <= 100 && forall|i: int|
            0 <= i < a@.len() ==> (#[trigger] a@[i] matches JsonValue::String(s) && s@.len() <= 2048),
        _ => false,
    }
}

#[verifier::loop_isolation(false)]
pub fn validate_scope_value(channel_id: &str, key: &str, value: &JsonValue) -> (r: Result<(), PreferencesError>)
    ensures
        r is Ok <==> scope_value_valid(*value),
{
    match value {
        JsonValue::String(s) => bounded_text("scope string", s.as_str(), 0, 2048),
        JsonValue::Number(_) => Ok(()),
        JsonValue::Bool(_) => Ok(()),
        JsonValue::Array(values) => {
            if values.len() > 100 {
                return invalid(concat(channel_id, ".scope holds a list longer than 100 entries"));
            }
            let mut i: usize = 0;
            while i < values.len()
                invariant
                    i <= values@.len(),
                    forall|j: int| 0 <= j < i ==> (#[trigger] values@[j] matches JsonValue::String(s) && s@.len() <= 2048),
                decreases values@.len() - i,
            {
                match &values[i] {
                    JsonValue::String(s) => {
                        if s.unicode_len() > 2048 {
                            return invalid(concat(channel_id, ".scope holds a list entry longer than 2048 characters"));
                        }
                    },
                    _ => {
                        return invalid(concat(key, " must be a string, number, boolean, or string array"));
                    },
                }
                i = i + 1;
            }
            Ok(())
        },
        _ => invalid(concat(key, " must be a string, number, boolean, or string array")),
    }
}

/// An optional number field: absent, or a number in `minimum..=maximum`.
pub open spec fn number_field_ok(o: JsonObject, key: Seq<char>, minimum: Decimal, maximum: Decimal) -> bool {
    match object_get(o, key) {
        None => true,
        Some(JsonValue::Number(n)) => number_within(n, minimum, maximum),
        Some(_) => false,
    }
}

pub fn bounded_number(channel: &ChannelPreference, key: &str, minimum: Decimal, maximum: Decimal) -> (r: Result<(), PreferencesError>)
    requires
        minimum.exponent <= 0,
        maximum.exponent <= 0,
    ensures
        r is Ok <==> number_field_ok(channel.scope, key@, minimum, maximum),
{
    match channel.scope.get(key) {
        None => Ok(()),
        Some(JsonValue::Number(n)) => {
            if n.within(minimum, maximum) {
                Ok(())
            } else {
                invalid(concat(key, " is outside its allowed range"))
            }
        },
        Some(_) => invalid(concat(key, " must be a number")),
    }
}

/// An optional boolean field.
pub open spec fn bool_field_ok(o: JsonObject, key: Seq<char>) -> bool {
    match object_get(o, key) {
        None => true,
        Some(JsonValue::Bool(_)) => true,
        Some(_) => false,
    }
}

fn bool_field(o: &JsonObject, key: &str) -> (r: bool)
    ensures
        r == bool_field_ok(*o, key@),
{
    match o.get(key) {
        None => true,
        Some(JsonValue::Bool(_)) => true,
        Some(_) => false,
    }
}

pub open spec fn weather_scope_valid(o: JsonObject) -> bool {
    &&& bool_field_ok(o, "rainAlertEnabled"@)
    &&& bool_field_ok(o, "windAlertEnabled"@)
    &&& bool_field_ok(o, "radarEnabled"@)
    &&& number_field_ok(o, "rainProbabilityThreshold"@, Decimal { mantissa: 1, exponent: 0 }, Decimal { mantissa: 100, exponent: 0 })
    &&& number_field_ok(o, "rainLeadMinutes"@, Decimal { mantissa: 0, exponent: 0 }, Decimal { mantissa: 1440, exponent: 0 })
    &&& number_field_ok(o, "rainAmountMm"@, Decimal { mantissa: 1, exponent: -2i32 }, Decimal { mantissa: 50, exponent: 0 })
    &&& number_field_ok(o, "rainWindowMinutes"@, Decimal { mantissa: 5, exponent: 0 }, Decimal { mantissa: 180, exponent: 0 })
    &&& number_field_ok(o, "windGustMph"@, Decimal { mantissa: 10, exponent: 0 }, Decimal { mantissa: 160, exponent: 0 })
}

pub fn validate_weather_scope(channel: &ChannelPreference) -> (r: Result<(), PreferencesError>)
    ensures
        r is Ok <==> weather_scope_valid(channel.scope),
{
    if !bool_field(&channel.scope, "rainAlertEnabled") {
        return invalid(concat(channel.id.as_str(), ".scope.rainAlertEnabled must be boolean"));
    }
    if !bool_field(&channel.scope, "windAlertEnabled") {
        return invalid(concat(channel.id.as_str(), ".scope.windAlertEnabled must be boolean"));
    }
    if !bool_field(&channel.scope, "radarEnabled") {
        return invalid(concat(channel.id.as_str(), ".scope.radarEnabled must be boolean"));
    }
    bounded_number(channel, "rainProbabilityThreshold", Decimal::new(1, 0), Decimal::new(100, 0))?;
    bounded_number(channel, "rainLeadMinutes", Decimal::new(0, 0), Decimal::new(1440, 0))?;
    bounded_number(channel, "rainAmountMm", Decimal::new(1, -2), Decimal::new(50, 0))?;
    bounded_number(channel, "rainWindowMinutes", Decimal::new(5, 0), Decimal::new(180, 0))?;
    bounded_number(channel, "windGustMph", Decimal::new(10, 0), Decimal::new(160, 0))?;
    Ok(())
}

/// The earthquake feeds a channel may follow.
pub open spec fn earthquake_feed_known(f: Seq<char>) -> bool {
    f == "significant_hour"@ || f == "significant_day"@ || f == "4.5_day"@
}

pub open spec fn earthquake_scope_valid(o: JsonObject) -> bool {
    &&& value_as_str(object_get(o, "feed"@)) is Some
    &&& earthquake_feed_known(value_as_str(object_get(o, "feed"@)).unwrap())
    &&& number_field_ok(o, "minimumMagnitude"@, Decimal { mantissa: 0, exponent: 0 }, Decimal { mantissa: 10, exponent: 0 })
    &&& number_field_ok(o, "eventAgeMinutes"@, Decimal { mantissa: 1, exponent: 0 }, Decimal { mantissa: 10080, exponent: 0 })
}

pub fn validate_earthquake_scope(channel: &ChannelPreference) -> (r: Result<(), PreferencesError>)
    ensures
        r is Ok <==> earthquake_scope_valid(channel.scope),
{
    let feed = match channel.scope.get_str("feed") {
        Some(f) => f,
        None => return invalid(concat(channel.id.as_str(), ".scope.feed must be a string")),
    };
    if !(str_eq(feed, "significant_hour") || str_eq(feed, "significant_day") || str_eq(feed, "4.5_day")) {
        return invalid(concat(channel.id.as_str(), ".scope.feed must be significant_hour, significant_day, or 4.5_day"));
    }
    bounded_number(channel, "minimumMagnitude", Decimal::new(0, 0), Decimal::new(10, 0))?;
    bounded_number(channel, "eventAgeMinutes", Decimal::new(1, 0), Decimal::new(10080, 0))
}

/// The feeds of a news or sports channel: absent, or a list of at most forty
/// strings. The addresses themselves are not judged here.
pub open spec fn syndication_scope_valid(o: JsonObject) -> bool {
    match object_get(o, "feeds"@) {
        None => true,
        Some(JsonValue::Array(a)) => a@.len() <= 40 && forall|i: int| 0 <= i < a@.len() ==> #[trigger] a@[i] is String,
        Some(_) => false,
    }
}

#[verifier::loop_isolation(false)]
pub fn validate_syndication_scope(channel: &ChannelPreference) -> (r: Result<(), PreferencesError>)
    ensures
        r is Ok <==> syndication_scope_valid(channel.scope),
{
    let feeds = match channel.scope.get("feeds") {
        None => return Ok(()),
        Some(JsonValue::Array(a)) => a,
        Some(_) => return invalid(concat(channel.id.as_str(), ".scope.feeds must be an array")),
    };
    if feeds.len() > 40 {
        return invalid(concat(channel.id.as_str(), " may subscribe to at most 40 feeds"));
    }
    let mut i: usize = 0;
    while i < feeds.len()
        invariant
            i <= feeds@.len(),
            forall|j: int| 0 <= j < i ==> #[trigger] feeds@[j] is String,
        decreases feeds@.len() - i,
    {
        match &feeds[i] {
            JsonValue::String(_) => {},
            _ => return invalid(concat(channel.id.as_str(), ".scope.feeds must hold strings")),
        }
        i = i + 1;
    }
    Ok(())
}

/// A market symbol as it is stored once trimmed and upper-cased.
pub open spec fn normalized_symbol(s: Seq<char>) -> Seq<char> {
    ascii_upper_seq(trim_seq(s))
}

pub open spec fn symbol_char(c: char) -> bool {
    is_ascii_alphanumeric(c) || c == '.' || c == '^' || c == '=' || c == '_' || c == '-' || c == '/'
}

pub open spec fn symbol_valid(s: Seq<char>) -> bool {
    1 <= s.len() <= 32 && forall|i: int| 0 <= i < s.len() ==> symbol_char(#[trigger] s[i])
}

/// The normalized symbol of an array element that is a string.
pub open spec fn element_symbol(v: JsonValue) -> Seq<char> {
    match v {
        JsonValue::String(s) => normalized_symbol(s@),
        _ => Seq::empty(),
    }
}

pub open spec fn symbols_valid(a: Seq<JsonValue>, enabled: bool) -> bool {
    &&& a.len() <= 16
    &&& enabled ==> a.len() > 0
    &&& forall|i: int| 0 <= i < a.len() ==> #[trigger] a[i] is String
    &&& forall|i: int| 0 <= i < a.len() ==> symbol_valid(#[trigger] element_symbol(a[i]))
    &&& forall|i: int, j: int| 0 <= i < j < a.len() ==> element_symbol(#[trigger] a[i]) != element_symbol(#[trigger] a[j])
}

pub open spec fn markets_scope_valid(o: JsonObject, enabled: bool) -> bool {
    &&& value_as_array(object_get(o, "symbols"@)) is Some
    &&& symbols_valid(value_as_array(object_get(o, "symbols"@)).unwrap(), enabled)
    &&& number_field_ok(o, "movePercent"@, Decimal { mantissa: 1, exponent: -1i32 }, Decimal { mantissa: 100, exponent: 0 })
    &&& number_field_ok(o, "pollSeconds"@, Decimal { mantissa: 60, exponent: 0 }, Decimal { mantissa: 3600, exponent: 0 })
}

fn normalize_symbol(s: &str) -> (r: Vec<char>)
    ensures
        r@ == normalized_symbol(s@),
{
    let t = trim_chars(s);
    let mut out: Vec<char> = Vec::new();
    let mut i: usize = 0;
    while i < t.len()
        invariant
            i <= t@.len(),
            out@ == ascii_upper_seq(t@.take(i as int)),
        decreases t@.len() - i,
    {
        out.push(to_ascii_upper(t[i]));
        i = i + 1;
        proof {
            assert(ascii_upper_seq(t@.take(i as int)) =~= ascii_upper_seq(t@.take(i - 1)).push(crate::text::ascii_upper(t@[i - 1])));
        }
    }
    proof {
        assert(t@.take(t@.len() as int) =~= t@);
    }
    out
}

fn symbol_ok(v: &Vec<char>) -> (r: bool)
    ensures
        r == symbol_valid(v@),
{
    if v.len() < 1 || v.len() > 32 {
        return false;
    }
    let mut i: usize = 0;
    while i < v.len()
        invariant
            i <= v@.len(),
            forall|j: int| 0 <= j < i ==> symbol_char(#[trigger] v@[j]),
        decreases v@.len() - i,
    {
        let c = v[i];
        if !(ascii_alphanumeric(c) || c == '.' || c == '^' || c == '=' || c == '_' || c == '-' || c == '/') {
            return false;
        }
        i = i + 1;
    }
    true
}

#[verifier::loop_isolation(false)]
pub fn validate_markets_scope(channel: &ChannelPreference) -> (r: Result<(), PreferencesError>)
    ensures
        r is Ok <==> markets_scope_valid(channel.scope, channel.enabled),
{
    let symbols = match channel.scope.get_array("symbols") {
        Some(a) => a,
        None => return invalid(concat(channel.id.as_str(), ".scope.symbols must be an array")),
    };
    if symbols.len() > 16 {
        return invalid(concat(channel.id.as_str(), ".scope.symbols must contain at most 16 entries"));
    }
    if channel.enabled && symbols.len() == 0 {
        return invalid(concat(channel.id.as_str(), ".scope.symbols requires at least one symbol while the channel is enabled"));
    }
    let mut seen: Vec<Vec<char>> = Vec::new();
    let mut i: usize = 0;
    while i < symbols.len()
        invariant
            i <= symbols@.len() <= 16,
            seen@.len() == i,
            forall|j: int| 0 <= j < i ==> #[trigger] symbols@[j] is String,
            forall|j: int| 0 <= j < i ==> seen@[j]@ == element_symbol(#[trigger] symbols@[j]),
            forall|j: int| 0 <= j < i ==> symbol_valid(#[trigger] element_symbol(symbols@[j])),
            forall|j: int, k: int| 0 <= j < k < i ==> element_symbol(#[trigger] symbols@[j]) != element_symbol(#[trigger] symbols@[k]),
        decreases symbols@.len() - i,
    {
        let s = match &symbols[i] {
            JsonValue::String(s) => s,
            _ => return invalid(concat(channel.id.as_str(), ".scope.symbols must contain only strings")),
        };
        let normalized = normalize_symbol(s.as_str());
        assert(normalized@ == element_symbol(symbols@[i as int]));
        if !symbol_ok(&normalized) {
            return invalid(concat(channel.id.as_str(), ".scope.symbols contains an unsupported symbol"));
        }
        let mut k: usize = 0;
        while k < seen.len()
            invariant
                k <= seen@.len() == i,
                forall|j: int| 0 <= j < k ==> seen@[j]@ != normalized@,
            decreases seen@.len() - k,
        {
            if chars_eq(&seen[k], &normalized) {
                proof {
                    assert(seen@[k as int]@ == element_symbol(symbols@[k as int]));
                    assert(element_symbol(symbols@[k as int]) == element_symbol(symbols@[i as int]));
                }
                return invalid(concat(channel.id.as_str(), ".scope.symbols contains a duplicate"));
            }
            k = k + 1;
        }
        seen.push(normalized);
        i = i + 1;
    }
    bounded_number(channel, "movePercent", Decimal::new(1, -1), Decimal::new(100, 0))?;
    bounded_number(channel, "pollSeconds", Decimal::new(60, 0), Decimal::new(3600, 0))?;
    Ok(())
}

/// `-limit <= r <= limit` for a finite coordinate.
pub open spec fn coordinate_within(r: Real, limit: i64) -> bool {
    match r {
        Real::Finite(d) => (Decimal { mantissa: (0 - limit) as i64, exponent: 0 }).le_spec(d) && d.le_spec(Decimal { mantissa: limit, exponent: 0 }),
        Real::NonFinite => false,
    }
}

pub fn coordinate_ok(r: Real, limit: i64) -> (ok: bool)
    requires
        0 <= limit <= 1000,
    ensures
        ok == coordinate_within(r, limit),
{
    match r {
        Real::Finite(d) => Decimal::new(-limit, 0).le(&d) && d.le(&Decimal::new(limit, 0)),
        Real::NonFinite => false,
    }
}

pub open spec fn country_code_valid(c: Seq<char>) -> bool {
    c.len() == 2 && forall|i: int| 0 <= i < c.len() ==> is_ascii_alphabetic(#[trigger] c[i])
}

/// The rules an alert area meets, apart from naming a known time zone.
pub open spec fn area_valid(a: AlertArea) -> bool {
    &&& text_within(a.id@, 1, 128)
    &&& text_within(a.label@, 1, 100)
    &&& coordinate_within(a.latitude, 90)
    &&& coordinate_within(a.longitude, 180)
    &&& a.country_code is Some ==> country_code_valid(a.country_code.unwrap()@)
    &&& a.admin_area is Some ==> text_within(a.admin_area.unwrap()@, 1, 120)
}

/// Checks one alert area; `zone_known` says whether its time zone was found.
pub fn validate_alert_area(area: &AlertArea, zone_known: bool) -> (r: Result<(), PreferencesError>)
    ensures
        r is Ok <==> area_valid(*area) && zone_known,
{
    bounded_text("area.id", area.id.as_str(), 1, 128)?;
    bounded_text("area.label", area.label.as_str(), 1, 100)?;
    if !coordinate_ok(area.latitude, 90) || !coordinate_ok(area.longitude, 180) {
        return invalid(concat(area.id.as_str(), " contains invalid coordinates"));
    }
    if !zone_known {
        return invalid(concat(area.id.as_str(), " names an unknown time zone"));
    }
    if let Some(code) = &area.country_code {
        let c = str_chars(code.as_str());
        let ok = c.len() == 2 && ascii_alphabetic(c[0]) && ascii_alphabetic(c[1]);
        proof {
            if c@.len() == 2 {
                assert(ok == (is_ascii_alphabetic(c@[0]) && is_ascii_alphabetic(c@[1])));
                assert(ok ==> forall|i: int| 0 <= i < 2 ==> is_ascii_alphabetic(#[trigger] c@[i]));
            }
        }
        if !ok {
            return invalid(concat(area.id.as_str(), " countryCode must contain two ASCII letters"));
        }
    }
    if let Some(admin) = &area.admin_area {
        bounded_text("area.adminArea", admin.as_str(), 1, 120)?;
    }
    Ok(())
}

/// Whether `id` names one of `areas`.
pub open spec fn area_known(areas: Seq<AlertArea>, id: Seq<char>) -> bool {
    exists|k: int| 0 <= k < areas.len() && (#[trigger] areas[k]).id@ == id
}

/// The text of an array element that is a string.
pub open spec fn element_text(v: JsonValue) -> Seq<char> {
    match v {
        JsonValue::String(s) => s@,
        _ => Seq::empty(),
    }
}

/// The string entries of `areaIds`, when it is a list, name distinct known areas.
pub open spec fn area_ids_valid(o: JsonObject, areas: Seq<AlertArea>) -> bool {
    match value_as_array(object_get(o, "areaIds"@)) {
        None => true,
        Some(a) => {
            &&& forall|i: int| 0 <= i < a.len() && (#[trigger] a[i]) is String ==> area_known(areas, element_text(a[i]))
            &&& forall|i: int, j: int|
                0 <= i < j < a.len() && (#[trigger] a[i]) is String && (#[trigger] a[j]) is String
                    ==> element_text(a[i]) != element_text(a[j])
        },
    }
}

fn area_id_known(areas: &Vec<AlertArea>, id: &str) -> (r: bool)
    ensures
        r == area_known(areas@, id@),
{
    let mut k: usize = 0;
    while k < areas.len()
        invariant
            k <= areas@.len(),
            forall|j: int| 0 <= j < k ==> (#[trigger] areas@[j]).id@ != id@,
        decreases areas@.len() - k,
    {
        if str_eq(areas[k].id.as_str(), id) {
            return true;
        }
        k = k + 1;
    }
    false
}

#[verifier::loop_isolation(false)]
fn validate_area_ids(channel: &ChannelPreference, areas: &Vec<AlertArea>) -> (r: Result<(), PreferencesError>)
    ensures
        r is Ok <==> area_ids_valid(channel.scope, areas@),
{
    let selected = match channel.scope.get_array("areaIds") {
        None => return Ok(()),
        Some(a) => a,
    };
    let mut i: usize = 0;
    while i < selected.len()
        invariant
            i <= selected@.len(),
            forall|j: int| 0 <= j < i && (#[trigger] selected@[j]) is String ==> area_known(areas@, element_text(selected@[j])),
            forall|j: int, k: int|
                0 <= j < k < i && (#[trigger] selected@[j]) is String && (#[trigger] selected@[k]) is String
                    ==> element_text(selected@[j]) != element_text(selected@[k]),
        decreases selected@.len() - i,
    {
        if let JsonValue::String(id) = &selected[i] {
            if !area_id_known(areas, id.as_str()) {
                return invalid(concat(channel.id.as_str(), ".scope.areaIds refers to an unknown area"));
            }
            let mut k: usize = 0;
            while k < i
                invariant
                    k <= i,
                    forall|j: int| 0 <= j < k && (#[trigger] selected@[j]) is String ==> element_text(selected@[j]) != id@,
                decreases i - k,
            {
                if let JsonValue::String(other) = &selected[k] {
                    if str_eq(other.as_str(), id.as_str()) {
                        return invalid(concat(channel.id.as_str(), ".scope.areaIds contains a duplicate"));
                    }
                }
                k = k + 1;
            }
        }
        i = i + 1;
    }
    Ok(())
}

/// Every scope member has a short key and a value the console can edit.
pub open spec fn scope_members_valid(o: JsonObject) -> bool {
    &&& o.members@.len() <= 64
    &&& forall|i: int| 0 <= i < o.members@.len() ==> text_within((#[trigger] o.members@[i]).key@, 1, 64)
    &&& forall|i: int| 0 <= i < o.members@.len() ==> scope_value_valid((#[trigger] o.members@[i]).value)
}

pub open spec fn destinations_distinct(d: Seq<DestinationIdDto>) -> bool {
    forall|i: int, j: int| 0 <= i < j < d.len() ==> #[trigger] d[i] != #[trigger] d[j]
}

pub open spec fn kind_scope_valid(c: ChannelPreference) -> bool {
    match c.kind {
        ChannelKindDto::Weather => weather_scope_valid(c.scope),
        ChannelKindDto::Earthquake => earthquake_scope_valid(c.scope),
        ChannelKindDto::Markets => markets_scope_valid(c.scope, c.enabled),
        ChannelKindDto::News | ChannelKindDto::Sports => syndication_scope_valid(c.scope),
        _ => true,
    }
}

/// The rules a configured channel meets, given the configured alert areas.
pub open spec fn channel_valid(c: ChannelPreference, areas: Seq<AlertArea>) -> bool {
    &&& text_within(c.id@, 1, 128)
    &&& c.kind != ChannelKindDto::System
    &&& text_within(c.title@, 1, 160)
    &&& 1 <= c.max_age_minutes <= 10080
    &&& 1 <= c.max_items <= 100
    &&& 5 <= c.rotation_seconds <= 3600
    &&& scope_members_valid(c.scope)
    &&& destinations_distinct(c.destinations@)
    &&& area_ids_valid(c.scope, areas)
    &&& kind_scope_valid(c)
}

#[verifier::loop_isolation(false)]
pub fn validate_channel(channel: &ChannelPreference, areas: &Vec<AlertArea>) -> (r: Result<(), PreferencesError>)
    ensures
        r is Ok <==> channel_valid(*channel, areas@),
{
    bounded_text("channel.id", channel.id.as_str(), 1, 128)?;
    if channel.kind == ChannelKindDto::System {
        return invalid(concat(channel.id.as_str(), " uses the reserved system channel kind"));
    }
    bounded_text("channel.title", channel.title.as_str(), 1, 160)?;
    if channel.max_age_minutes < 1 || channel.max_age_minutes > 10080 {
        return invalid(concat(channel.id.as_str(), ".maxAgeMinutes must be between 1 and 10080"));
    }
    if channel.max_items < 1 || channel.max_items > 100 {
        return invalid(concat(channel.id.as_str(), ".maxItems must be between 1 and 100"));
    }
    if channel.rotation_seconds < 5 || channel.rotation_seconds > 3600 {
        return invalid(concat(channel.id.as_str(), ".rotationSeconds must be between 5 and 3600"));
    }
    if channel.scope.len() > 64 {
        return invalid(concat(channel.id.as_str(), ".scope has more than 64 fields"));
    }
    let mut d: usize = 0;
    while d < channel.destinations.len()
        invariant
            d <= channel.destinations@.len(),
            forall|i: int, j: int| 0 <= i < j < d ==> #[trigger] channel.destinations@[i] != #[trigger] channel.destinations@[j],
        decreases channel.destinations@.len() - d,
    {
        let mut e: usize = 0;
        while e < d
            invariant
                e <= d,
                forall|i: int| 0 <= i < e ==> #[trigger] channel.destinations@[i] != channel.destinations@[d as int],
            decreases d - e,
        {
            if channel.destinations[e] == channel.destinations[d] {
                return invalid(concat(channel.id.as_str(), " contains a duplicate destination"));
            }
            e = e + 1;
        }
        d = d + 1;
    }
    let members = &channel.scope.members;
    let mut m: usize = 0;
    while m < members.len()
        invariant
            m <= members@.len(),
            forall|i: int| 0 <= i < m ==> text_within((#[trigger] members@[i]).key@, 1, 64),
            forall|i: int| 0 <= i < m ==> scope_value_valid((#[trigger] members@[i]).value),
        decreases members@.len() - m,
    {
        bounded_text("scope key", members[m].key.as_str(), 1, 64)?;
        validate_scope_value(channel.id.as_str(), members[m].key.as_str(), &members[m].value)?;
        m = m + 1;
    }
    validate_area_ids(channel, areas)?;
    match channel.kind {
        ChannelKindDto::Weather => validate_weather_scope(channel),
        ChannelKindDto::Earthquake => validate_earthquake_scope(channel),
        ChannelKindDto::Markets => validate_markets_scope(channel),
        ChannelKindDto::News | ChannelKindDto::Sports => validate_syndication_scope(channel),
        _ => Ok(()),
    }
}

pub open spec fn quiet_hours_valid(q: QuietHours) -> bool {
    hhmm_spec(q.start@) is Some && hhmm_spec(q.end@) is Some
}

/// Checks quiet hours; `zone_known` says whether their time zone was found.
pub fn validate_quiet_hours(value: &QuietHours, zone_known: bool) -> (r: Result<(), PreferencesError>)
    ensures
        r is Ok <==> quiet_hours_valid(*value) && zone_known,
{
    parse_hhmm("quietHours.start", value.start.as_str())?;
    parse_hhmm("quietHours.end", value.end.as_str())?;
    if !zone_known {
        return invalid(concat("quietHours.timeZone ", "names an unknown time zone"));
    }
    Ok(())
}

pub open spec fn graph_version_char(c: char) -> bool {
    is_ascii_alphanumeric(c) || c == '.' || c == '-' || c == '_'
}

pub open spec fn template_name_char(c: char) -> bool {
    is_ascii_lowercase(c) || is_ascii_digit(c) || c == '_'
}

/// The rules the WhatsApp route meets.
pub open spec fn whatsapp_valid(w: WhatsAppSettings) -> bool {
    &&& text_within(w.graph_version@, 1, 32)
    &&& text_within(w.template_name@, 1, 128)
    &&& text_within(w.language_code@, 1, 32)
    &&& forall|i: int| 0 <= i < w.graph_version@.len() ==> graph_version_char(#[trigger] w.graph_version@[i])
    &&& forall|i: int| 0 <= i < w.template_name@.len() ==> template_name_char(#[trigger] w.template_name@[i])
    &&& language_code_valid(w.language_code@)
    &&& w.enabled ==> {
        &&& text_within(w.phone_number_id@, 1, 128)
        &&& forall|i: int| 0 <= i < w.phone_number_id@.len() ==> is_ascii_digit(#[trigger] w.phone_number_id@[i])
        &&& text_within(w.recipient@, 1, 64)
        &&& recipient_valid(w.recipient@)
    }
    &&& w.consent_recipient is Some ==> {
        &&& text_within(w.consent_recipient.unwrap()@, 1, 64)
        &&& recipient_valid(w.consent_recipient.unwrap()@)
    }
    &&& w.consent == WhatsAppRecipientConsent::OptedIn ==> {
        &&& trim_seq(w.recipient@).len() > 0
        &&& consent_current_spec(w)
    }
}

fn graph_version_ok(s: &str) -> (r: bool)
    ensures
        r == forall|i: int| 0 <= i < s@.len() ==> graph_version_char(#[trigger] s@[i]),
{
    let v = str_chars(s);
    let mut i: usize = 0;
    while i < v.len()
        invariant
            v@ == s@,
            i <= v@.len(),
            forall|j: int| 0 <= j < i ==> graph_version_char(#[trigger] v@[j]),
        decreases v@.len() - i,
    {
        let c = v[i];
        if !(ascii_alphanumeric(c) || c == '.' || c == '-' || c == '_') {
            return false;
        }
        i = i + 1;
    }
    true
}

fn template_name_ok(s: &str) -> (r: bool)
    ensures
        r == forall|i: int| 0 <= i < s@.len() ==> template_name_char(#[trigger] s@[i]),
{
    let v = str_chars(s);
    let mut i: usize = 0;
    while i < v.len()
        invariant
            v@ == s@,
            i <= v@.len(),
            forall|j: int| 0 <= j < i ==> template_name_char(#[trigger] v@[j]),
        decreases v@.len() - i,
    {
        let c = v[i];
        if !(ascii_lowercase(c) || ascii_digit(c) || c == '_') {
            return false;
        }
        i = i + 1;
    }
    true
}

fn all_digits(s: &str) -> (r: bool)
    ensures
        r == forall|i: int| 0 <= i < s@.len() ==> is_ascii_digit(#[trigger] s@[i]),
{
    let v = str_chars(s);
    let mut i: usize = 0;
    while i < v.len()
        invariant
            v@ == s@,
            i <= v@.len(),
            forall|j: int| 0 <= j < i ==> is_ascii_digit(#[trigger] v@[j]),
        decreases v@.len() - i,
    {
        if !ascii_digit(v[i]) {
            return false;
        }
        i = i + 1;
    }
    true
}

pub fn validate_whatsapp(w: &WhatsAppSettings) -> (r: Result<(), PreferencesError>)
    ensures
        r is Ok <==> whatsapp_valid(*w),
{
    bounded_text("whatsapp.graphVersion", w.graph_version.as_str(), 1, 32)?;
    bounded_text("whatsapp.templateName", w.template_name.as_str(), 1, 128)?;
    bounded_text("whatsapp.languageCode", w.language_code.as_str(), 1, 32)?;
    if !graph_version_ok(w.graph_version.as_str()) {
        return invalid(concat("whatsapp.graphVersion", " contains invalid characters"));
    }
    if !template_name_ok(w.template_name.as_str()) {
        return invalid(concat("whatsapp.templateName", " must contain lowercase ASCII letters, digits, or underscores"));
    }
    if !valid_whatsapp_language_code(w.language_code.as_str()) {
        return invalid(concat("whatsapp.languageCode", " must be a two- or three-letter lowercase language with an optional uppercase region (for example en_US)"));
    }
    if w.enabled {
        bounded_text("whatsapp.phoneNumberId", w.phone_number_id.as_str(), 1, 128)?;
        if !all_digits(w.phone_number_id.as_str()) {
            return invalid(concat("whatsapp.phoneNumberId", " must contain only digits"));
        }
        bounded_text("whatsapp.recipient", w.recipient.as_str(), 1, 64)?;
        validate_whatsapp_recipient(w.recipient.as_str())?;
    }
    if let Some(bound) = &w.consent_recipient {
        bounded_text("whatsapp.consentRecipient", bound.as_str(), 1, 64)?;
        validate_whatsapp_recipient(bound.as_str())?;
    }
    if w.consent == WhatsAppRecipientConsent::OptedIn {
        let trimmed = trim_chars(w.recipient.as_str());
        if trimmed.len() == 0 {
            return invalid(concat("whatsapp.recipient", " is required when consent=opted_in"));
        }
        if !whatsapp_consent_is_current(w) {
            return invalid(concat("whatsapp", " opted-in consent must match the current trimmed recipient and include a positive capture time"));
        }
    }
    Ok(())
}

/// The whole set of rules a stored profile meets. `area_zones[i]` says
/// whether the time zone of area `i` was found, `quiet_zone` the same of
/// the quiet hours.
pub open spec fn preferences_valid(p: AppPreferences, area_zones: Seq<bool>, quiet_zone: bool) -> bool {
    let areas = p.areas@;
    let channels = p.profile.channels@;
    &&& areas.len() <= 64
    &&& forall|i: int| 0 <= i < areas.len() ==> area_valid(#[trigger] areas[i])
    &&& forall|i: int| 0 <= i < areas.len() ==> #[trigger] area_zones[i]
    &&& forall|i: int, j: int| 0 <= i < j < areas.len() ==> (#[trigger] areas[i]).id@ != (#[trigger] areas[j]).id@
    &&& text_within(p.profile.id@, 1, 128)
    &&& text_within(p.profile.name@, 1, 120)
    &&& text_within(p.profile.home_channel_id@, 1, 128)
    &&& quiet_hours_valid(p.profile.quiet_hours)
    &&& quiet_zone
    &&& 1 <= channels.len() <= 64
    &&& forall|i: int| 0 <= i < channels.len() ==> channel_valid(#[trigger] channels[i], areas)
    &&& forall|i: int, j: int| 0 <= i < j < channels.len() ==> (#[trigger] channels[i]).id@ != (#[trigger] channels[j]).id@
    &&& exists|i: int| 0 <= i < channels.len() && (#[trigger] channels[i]).id@ == p.profile.home_channel_id@
    &&& 5 <= p.display.dwell_seconds <= 3600
    &&& 1 <= p.display.full_refresh_every <= 1000
    &&& text_within(p.display.serial_port@, 0, 512)
    &&& text_within(p.display.ble_name@, 0, 248)
    &&& whatsapp_valid(p.whatsapp)
}

/// The rules of `preferences_valid`, with every time zone found.
pub open spec fn preferences_rules_hold(p: AppPreferences) -> bool {
    preferences_valid(p, Seq::new(p.areas@.len(), |i: int| true), true)
}

/// Checks a stored profile against every rule, given which time zones were found.
#[verifier::loop_isolation(false)]
pub fn validate_preferences_with(preferences: &AppPreferences, area_zones: &Vec<bool>, quiet_zone: bool) -> (r: Result<(), PreferencesError>)
    requires
        area_zones@.len() == preferences.areas@.len(),
    ensures
        r is Ok <==> preferences_valid(*preferences, area_zones@, quiet_zone),
{
    let areas = &preferences.areas;
    if areas.len() > 64 {
        return invalid(concat("areas", " must contain at most 64 entries"));
    }
    let mut i: usize = 0;
    while i < areas.len()
        invariant
            i <= areas@.len(),
            forall|a: int| 0 <= a < i ==> area_valid(#[trigger] areas@[a]),
            forall|a: int| 0 <= a < i ==> #[trigger] area_zones@[a],
            forall|a: int, b: int| 0 <= a < b < i ==> (#[trigger] areas@[a]).id@ != (#[trigger] areas@[b]).id@,
        decreases areas@.len() - i,
    {
        validate_alert_area(&areas[i], area_zones[i])?;
        let mut k: usize = 0;
        while k < i
            invariant
                k <= i,
                forall|a: int| 0 <= a < k ==> (#[trigger] areas@[a]).id@ != areas@[i as int].id@,
            decreases i - k,
        {
            if str_eq(areas[k].id.as_str(), areas[i].id.as_str()) {
                return invalid(concat("duplicate alert area id ", areas[i].id.as_str()));
            }
            k = k + 1;
        }
        i = i + 1;
    }
    let profile = &preferences.profile;
    bounded_text("profile.id", profile.id.as_str(), 1, 128)?;
    bounded_text("profile.name", profile.name.as_str(), 1, 120)?;
    bounded_text("profile.homeChannelId", profile.home_channel_id.as_str(), 1, 128)?;
    validate_quiet_hours(&profile.quiet_hours, quiet_zone)?;
    let channels = &profile.channels;
    if channels.len() == 0 || channels.len() > 64 {
        return invalid(concat("profile.channels", " must contain between 1 and 64 channels"));
    }
    let mut home_found = false;
    let mut c: usize = 0;
    while c < channels.len()
        invariant
            c <= channels@.len(),
            forall|a: int| 0 <= a < c ==> channel_valid(#[trigger] channels@[a], areas@),
            forall|a: int, b: int| 0 <= a < b < c ==> (#[trigger] channels@[a]).id@ != (#[trigger] channels@[b]).id@,
            home_found == exists|a: int| 0 <= a < c && (#[trigger] channels@[a]).id@ == profile.home_channel_id@,
        decreases channels@.len() - c,
    {
        validate_channel(&channels[c], areas)?;
        let mut k: usize = 0;
        while k < c
            invariant
                k <= c,
                forall|a: int| 0 <= a < k ==> (#[trigger] channels@[a]).id@ != channels@[c as int].id@,
            decreases c - k,
        {
            if str_eq(channels[k].id.as_str(), channels[c].id.as_str()) {
                return invalid(concat("duplicate channel id ", channels[c].id.as_str()));
            }
            k = k + 1;
        }
        if str_eq(channels[c].id.as_str(), profile.home_channel_id.as_str()) {
            home_found = true;
        }
        c = c + 1;
    }
    if !home_found {
        return invalid(concat("profile.homeChannelId", " does not name a configured channel"));
    }
    let display = &preferences.display;
    if display.dwell_seconds < 5 || display.dwell_seconds > 3600 {
        return invalid(concat("display.dwellSeconds", " must be between 5 and 3600"));
    }
    if display.full_refresh_every < 1 || display.full_refresh_every > 1000 {
        return invalid(concat("display.fullRefreshEvery", " must be between 1 and 1000"));
    }
    bounded_text("display.serialPort", display.serial_port.as_str(), 0, 512)?;
    bounded_text("display.bleName", display.ble_name.as_str(), 0, 248)?;
    validate_whatsapp(&preferences.whatsapp)
}

/// Whether the time zone database of this machine knows `name`.
///
/// Calls `jiff::tz::TimeZone::get`. What it finds depends on the time zone
/// database found on this machine (with none, every name is refused, `UTC`
/// included), so nothing is stated of the answer.
#[verifier::external_body]
fn time_zone_known(name: &str) -> (known: bool)
{
    jiff::tz::TimeZone::get(name).is_ok()
}

/// The time zone names a stored profile names: each alert area's, in order,
/// then the quiet hours'.
pub open spec fn time_zone_names_spec(p: AppPreferences) -> Seq<Seq<char>> {
    Seq::new(p.areas@.len(), |i: int| p.areas@[i].time_zone@).push(p.profile.quiet_hours.time_zone@)
}

/// The time zone names `validate_preferences` looks up, in the order it
/// looks them up.
pub fn time_zone_names(preferences: &AppPreferences) -> (r: Vec<String>)
    ensures
        r@.len() == preferences.areas@.len() + 1,
        forall|i: int| 0 <= i < r@.len() ==> (#[trigger] r@[i])@ == time_zone_names_spec(*preferences)[i],
{
    let mut names: Vec<String> = Vec::new();
    let mut i: usize = 0;
    while i < preferences.areas.len()
        invariant
            i <= preferences.areas@.len(),
            names@.len() == i,
            forall|k: int| 0 <= k < i ==> (#[trigger] names@[k])@ == preferences.areas@[k].time_zone@,
        decreases preferences.areas@.len() - i,
    {
        names.push(owned(preferences.areas[i].time_zone.as_str()));
        i = i + 1;
    }
    names.push(owned(preferences.profile.quiet_hours.time_zone.as_str()));
    names
}

/// Checks a stored profile, looking up on this machine each name that
/// `time_zone_names` gives. The answer is `validate_preferences_with` for
/// some answers to those lookups: it is accepted only if every rule of
/// `preferences_valid` holds, and a broken rule is always refused; which
/// time zones exist is up to the machine.
pub fn validate_preferences(preferences: &AppPreferences) -> (r: Result<(), PreferencesError>)
    ensures
        r is Ok ==> preferences_rules_hold(*preferences),
        !preferences_rules_hold(*preferences) ==> r is Err,
        exists|answers: Seq<bool>|
            #![trigger preferences_valid(*preferences, answers.drop_last(), answers.last())]
            answers.len() == time_zone_names_spec(*preferences).len()
            && (r is Ok <==> preferences_valid(*preferences, answers.drop_last(), answers.last())),
{
    let names = time_zone_names(preferences);
    let n = preferences.areas.len();
    let mut zones: Vec<bool> = Vec::new();
    let mut i: usize = 0;
    while i < n
        invariant
            n == preferences.areas@.len(),
            names@.len() == n + 1,
            i <= n,
            zones@.len() == i,
        decreases n - i,
    {
        zones.push(time_zone_known(names[i].as_str()));
        i = i + 1;
    }
    let quiet = time_zone_known(names[n].as_str());
    let r = validate_preferences_with(preferences, &zones, quiet);
    proof {
        let all = Seq::new(preferences.areas@.len(), |k: int| true);
        if r is Ok {
            assert forall|a: int| 0 <= a < preferences.areas@.len() implies #[trigger] all[a] by {}
        }
        let answers = zones@.push(quiet);
        assert(answers.drop_last() == zones@);
        assert(answers.last() == quiet);
        assert(preferences_valid(*preferences, answers.drop_last(), answers.last()) == preferences_valid(*preferences, zones@, quiet));
    }
    r
}

/// Every relevant item reaches every configured output.
pub open spec fn standard_destinations() -> Seq<DestinationIdDto> {
    seq![DestinationIdDto::Epaper, DestinationIdDto::Whatsapp, DestinationIdDto::Desktop]
}

/// `key` holds the integer `v`.
pub open spec fn holds_integer(o: JsonObject, key: Seq<char>, v: int) -> bool {
    object_get(o, key) == Some(JsonValue::Number(JsonNumber::Integer(v as i128)))
}

/// `key` holds the string `t`.
pub open spec fn holds_text(o: JsonObject, key: Seq<char>, t: Seq<char>) -> bool {
    value_as_str(object_get(o, key)) == Some(t)
}

/// `key` holds a number equal to `m × 10^e`.
pub open spec fn holds_number_equal(o: JsonObject, key: Seq<char>, m: i64, e: i32) -> bool {
    match object_get(o, key) {
        Some(JsonValue::Number(n)) => number_within(n, Decimal { mantissa: m, exponent: e }, Decimal { mantissa: m, exponent: e }),
        _ => false,
    }
}

/// The untouched shape the earthquake card first shipped with: off, on the
/// significant-hour feed, at magnitude 5.5, looking back one hour.
pub open spec fn legacy_earthquake(c: ChannelPreference) -> bool {
    &&& !c.enabled
    &&& holds_text(c.scope, "feed"@, "significant_hour"@)
    &&& holds_number_equal(c.scope, "minimumMagnitude"@, 55, -1i32)
    &&& holds_number_equal(c.scope, "eventAgeMinutes"@, 60, 0)
}

/// Channel `i` is the first whose id is `id`.
pub open spec fn first_with_id(chs: Seq<ChannelPreference>, id: Seq<char>, i: int) -> bool {
    &&& 0 <= i < chs.len()
    &&& chs[i].id@ == id
    &&& forall|j: int| 0 <= j < i ==> (#[trigger] chs[j]).id@ != id
}

/// Channel `i` is the legacy earthquake card that the policy upgrades once.
pub open spec fn upgraded_at(chs: Seq<ChannelPreference>, i: int) -> bool {
    first_with_id(chs, "earthquake.significant"@, i) && legacy_earthquake(chs[i])
}

/// The magnitude an earthquake must reach before it is worth a slide: 7.0.
pub open spec fn default_earthquake_magnitude() -> JsonNumber {
    JsonNumber::Float(Decimal { mantissa: 7, exponent: 0 })
}

/// The scope keys the automatic policy writes for a channel.
pub open spec fn policy_key(kind: ChannelKindDto, upgrade: bool, k: Seq<char>) -> bool {
    ||| kind == ChannelKindDto::Earthquake && (k == "feed"@ || k == "eventAgeMinutes"@)
    ||| kind == ChannelKindDto::Weather && (k == "rainProbabilityThreshold"@ || k == "rainLeadMinutes"@)
    ||| upgrade && k == "minimumMagnitude"@
}

/// The presence the policy gives a channel: the home channel, or shown while active.
pub open spec fn policy_presence(id: Seq<char>, home: Seq<char>) -> SurfacePresence {
    if id == home {
        SurfacePresence::Home
    } else {
        SurfacePresence::ActiveOnly
    }
}

/// `after` is channel `c` under the automatic policy.
pub open spec fn channel_standardized(c: ChannelPreference, home: Seq<char>, upgrade: bool, after: ChannelPreference) -> bool {
    &&& after.id == c.id
    &&& after.kind == c.kind
    &&& after.title == c.title
    &&& after.enabled == (c.enabled || upgrade)
    &&& after.presence == policy_presence(c.id@, home)
    &&& after.interrupt_preset == InterruptPreset::Recommended
    &&& after.destinations@ == standard_destinations()
    &&& after.max_age_minutes == source_age_minutes_spec(c.kind)
    &&& after.max_items == AUTOMATIC_ITEM_LIMIT
    &&& after.rotation_seconds == AUTOMATIC_FRAME_DWELL_SECONDS
    &&& forall|k: Seq<char>| !policy_key(c.kind, upgrade, k) ==> object_get(after.scope, k) == object_get(c.scope, k)
    &&& c.kind == ChannelKindDto::Earthquake ==> holds_text(after.scope, "feed"@, "4.5_day"@) && holds_integer(after.scope, "eventAgeMinutes"@, 1440)
    &&& c.kind == ChannelKindDto::Weather ==> holds_integer(after.scope, "rainProbabilityThreshold"@, 60) && holds_integer(after.scope, "rainLeadMinutes"@, 90)
    &&& upgrade ==> object_get(after.scope, "minimumMagnitude"@) == Some(JsonValue::Number(default_earthquake_magnitude()))
}

/// Whether the policy changes channel `c`.
pub open spec fn channel_changes(c: ChannelPreference, home: Seq<char>, upgrade: bool) -> bool {
    ||| upgrade
    ||| c.presence != policy_presence(c.id@, home)
    ||| c.interrupt_preset != InterruptPreset::Recommended
    ||| c.destinations@ != standard_destinations()
    ||| c.max_age_minutes != source_age_minutes_spec(c.kind)
    ||| c.max_items != AUTOMATIC_ITEM_LIMIT
    ||| c.rotation_seconds != AUTOMATIC_FRAME_DWELL_SECONDS
    ||| c.kind == ChannelKindDto::Earthquake && !(holds_text(c.scope, "feed"@, "4.5_day"@) && holds_integer(c.scope, "eventAgeMinutes"@, 1440))
    ||| c.kind == ChannelKindDto::Weather && !(holds_integer(c.scope, "rainProbabilityThreshold"@, 60) && holds_integer(c.scope, "rainLeadMinutes"@, 90))
}

/// `after` is `p` under the automatic alert policy: the reader's choices
/// (channels on or off, content scope, outputs) stay; presence, interrupts,
/// destinations, freshness, volume and cadence become the shared contract.
pub open spec fn policy_standardized(p: AppPreferences, after: AppPreferences) -> bool {
    let chs = p.profile.channels@;
    &&& after.unit_system == p.unit_system
    &&& after.areas == p.areas
    &&& after.profile.id == p.profile.id
    &&& after.profile.name == p.profile.name
    &&& after.profile.preset == p.profile.preset
    &&& after.profile.home_channel_id == p.profile.home_channel_id
    &&& after.profile.quiet_hours.enabled == p.profile.quiet_hours.enabled
    &&& after.profile.quiet_hours.start == p.profile.quiet_hours.start
    &&& after.profile.quiet_hours.end == p.profile.quiet_hours.end
    &&& after.profile.quiet_hours.time_zone == p.profile.quiet_hours.time_zone
    &&& after.profile.quiet_hours.bypass_emergency
    &&& after.profile.channels@.len() == chs.len()
    &&& forall|i: int| 0 <= i < chs.len() ==> channel_standardized(#[trigger] chs[i], p.profile.home_channel_id@, upgraded_at(chs, i), after.profile.channels@[i])
    &&& after.display.transport == p.display.transport
    &&& after.display.serial_port == p.display.serial_port
    &&& after.display.ble_name == p.display.ble_name
    &&& after.display.orientation == p.display.orientation
    &&& after.display.dwell_seconds == AUTOMATIC_FRAME_DWELL_SECONDS
    &&& after.display.full_refresh_every == AUTOMATIC_FULL_REFRESH_EVERY
    &&& after.whatsapp == p.whatsapp
    &&& after.ais == p.ais
}

/// Whether the automatic alert policy changes anything in `p`.
pub open spec fn policy_changes(p: AppPreferences) -> bool {
    let chs = p.profile.channels@;
    ||| exists|i: int| 0 <= i < chs.len() && channel_changes(#[trigger] chs[i], p.profile.home_channel_id@, upgraded_at(chs, i))
    ||| p.display.dwell_seconds != AUTOMATIC_FRAME_DWELL_SECONDS
    ||| p.display.full_refresh_every != AUTOMATIC_FULL_REFRESH_EVERY
    ||| !p.profile.quiet_hours.bypass_emergency
}

fn scope_integer(o: &JsonObject, key: &str, v: i128) -> (r: bool)
    ensures
        r == holds_integer(*o, key@, v as int),
{
    match o.get(key) {
        Some(JsonValue::Number(JsonNumber::Integer(x))) => *x == v,
        _ => false,
    }
}

fn scope_text(o: &JsonObject, key: &str, t: &str) -> (r: bool)
    ensures
        r == holds_text(*o, key@, t@),
{
    match o.get_str(key) {
        Some(x) => str_eq(x, t),
        None => false,
    }
}

fn scope_number_equal(o: &JsonObject, key: &str, m: i64, e: i32) -> (r: bool)
    requires
        e <= 0,
    ensures
        r == holds_number_equal(*o, key@, m, e),
{
    match o.get(key) {
        Some(JsonValue::Number(n)) => n.within(Decimal::new(m, e), Decimal::new(m, e)),
        _ => false,
    }
}

fn is_legacy_earthquake(c: &ChannelPreference) -> (r: bool)
    ensures
        r == legacy_earthquake(*c),
{
    !c.enabled && scope_text(&c.scope, "feed", "significant_hour")
        && scope_number_equal(&c.scope, "minimumMagnitude", 55, -1)
        && scope_number_equal(&c.scope, "eventAgeMinutes", 60, 0)
}

fn integer_value(v: i128) -> (r: JsonValue)
    ensures
        r == JsonValue::Number(JsonNumber::Integer(v)),
{
    JsonValue::Number(JsonNumber::Integer(v))
}

/// The scope keys the automatic policy writes are pairwise different.
proof fn lemma_policy_keys_distinct()
    ensures
        "feed"@ != "eventAgeMinutes"@,
        "feed"@ != "rainProbabilityThreshold"@,
        "feed"@ != "rainLeadMinutes"@,
        "feed"@ != "minimumMagnitude"@,
        "eventAgeMinutes"@ != "rainProbabilityThreshold"@,
        "eventAgeMinutes"@ != "rainLeadMinutes"@,
        "eventAgeMinutes"@ != "minimumMagnitude"@,
        "rainProbabilityThreshold"@ != "rainLeadMinutes"@,
        "rainProbabilityThreshold"@ != "minimumMagnitude"@,
        "rainLeadMinutes"@ != "minimumMagnitude"@,
        "4.5_day"@ != "significant_hour"@,
{
    reveal_strlit("feed");
    reveal_strlit("eventAgeMinutes");
    reveal_strlit("rainProbabilityThreshold");
    reveal_strlit("rainLeadMinutes");
    reveal_strlit("minimumMagnitude");
    reveal_strlit("4.5_day");
    reveal_strlit("significant_hour");
    assert("feed"@.len() == 4);
    assert("eventAgeMinutes"@.len() == 15);
    assert("rainLeadMinutes"@.len() == 15);
    assert("minimumMagnitude"@.len() == 16);
    assert("rainProbabilityThreshold"@.len() == 24);
    assert("4.5_day"@.len() == 7);
    assert("significant_hour"@.len() == 16);
    assert("eventAgeMinutes"@[0] != "rainLeadMinutes"@[0]);
}

/// Whether the automatic policy changes channel `c`.
fn channel_policy_changes(c: &ChannelPreference, home: &str, upgrade: bool) -> (changed: bool)
    ensures
        changed == channel_changes(*c, home@, upgrade),
{
    let presence = if str_eq(c.id.as_str(), home) {
        SurfacePresence::Home
    } else {
        SurfacePresence::ActiveOnly
    };
    let same_destinations = c.destinations.len() == 3 && c.destinations[0] == DestinationIdDto::Epaper
        && c.destinations[1] == DestinationIdDto::Whatsapp && c.destinations[2] == DestinationIdDto::Desktop;
    proof {
        if c.destinations@.len() == 3 {
            if same_destinations {
                assert(c.destinations@ =~= standard_destinations());
            } else {
                assert(c.destinations@ != standard_destinations()) by {
                    if c.destinations@ == standard_destinations() {
                        assert(c.destinations@[0] == standard_destinations()[0]);
                        assert(c.destinations@[1] == standard_destinations()[1]);
                        assert(c.destinations@[2] == standard_destinations()[2]);
                    }
                }
            }
        }
    }
    let age = automatic_source_age_minutes(c.kind);
    let mut changed = upgrade || c.presence != presence || c.interrupt_preset != InterruptPreset::Recommended
        || !same_destinations || c.max_age_minutes != age || c.max_items != AUTOMATIC_ITEM_LIMIT
        || c.rotation_seconds != AUTOMATIC_FRAME_DWELL_SECONDS;
    if c.kind == ChannelKindDto::Earthquake {
        if !(scope_text(&c.scope, "feed", "4.5_day") && scope_integer(&c.scope, "eventAgeMinutes", 1440)) {
            changed = true;
        }
    }
    if c.kind == ChannelKindDto::Weather {
        if !(scope_integer(&c.scope, "rainProbabilityThreshold", 60) && scope_integer(&c.scope, "rainLeadMinutes", 90)) {
            changed = true;
        }
    }
    changed
}

/// Puts one channel under the automatic policy; `upgrade` applies the
/// one-time switch-on of the legacy earthquake card.
fn standardize_channel(c: &mut ChannelPreference, home: &str, upgrade: bool)
    ensures
        channel_standardized(*old(c), home@, upgrade, *final(c)),
{
    proof {
        lemma_policy_keys_distinct();
    }
    let presence = if str_eq(c.id.as_str(), home) {
        SurfacePresence::Home
    } else {
        SurfacePresence::ActiveOnly
    };
    let age = automatic_source_age_minutes(c.kind);
    if upgrade {
        c.enabled = true;
        c.scope.insert(owned("minimumMagnitude"), JsonValue::Number(JsonNumber::Float(Decimal::new(7, 0))));
    }
    c.presence = presence;
    c.interrupt_preset = InterruptPreset::Recommended;
    c.destinations = vec![DestinationIdDto::Epaper, DestinationIdDto::Whatsapp, DestinationIdDto::Desktop];
    c.max_age_minutes = age;
    c.max_items = AUTOMATIC_ITEM_LIMIT;
    c.rotation_seconds = AUTOMATIC_FRAME_DWELL_SECONDS;
    if c.kind == ChannelKindDto::Earthquake {
        c.scope.insert(owned("feed"), JsonValue::String(owned("4.5_day")));
        c.scope.insert(owned("eventAgeMinutes"), integer_value(1440));
    }
    if c.kind == ChannelKindDto::Weather {
        c.scope.insert(owned("rainProbabilityThreshold"), integer_value(60));
        c.scope.insert(owned("rainLeadMinutes"), integer_value(90));
    }
    proof {
        assert(c.destinations@ =~= standard_destinations());
    }
}

/// The position of the first `earthquake.significant` channel, or the length.
fn legacy_earthquake_index(channels: &Vec<ChannelPreference>) -> (legacy_index: usize)
    ensures
        legacy_index <= channels@.len(),
        legacy_index < channels@.len() ==> first_with_id(channels@, "earthquake.significant"@, legacy_index as int),
        forall|j: int| 0 <= j < channels@.len() && j != legacy_index ==> !first_with_id(channels@, "earthquake.significant"@, j),
{
    let ghost chs = channels@;
    let n = channels.len();
    let mut legacy_index: usize = n;
    let mut i: usize = 0;
    while i < n && legacy_index == n
        invariant
            chs == channels@,
            n == chs.len(),
            i <= n,
            legacy_index == n ==> forall|j: int| 0 <= j < i ==> (#[trigger] chs[j]).id@ != "earthquake.significant"@,
            legacy_index < n ==> first_with_id(chs, "earthquake.significant"@, legacy_index as int),
            legacy_index <= n,
        decreases n - i,
    {
        if str_eq(channels[i].id.as_str(), "earthquake.significant") {
            legacy_index = i;
        }
        i = i + 1;
    }
    proof {
        assert forall|j: int| 0 <= j < chs.len() && j != legacy_index implies !first_with_id(chs, "earthquake.significant"@, j) by {
            if first_with_id(chs, "earthquake.significant"@, j) {
                if legacy_index < n {
                    if j < legacy_index {
                        assert(chs[j].id@ != "earthquake.significant"@);
                    } else {
                        assert(chs[legacy_index as int].id@ == "earthquake.significant"@);
                    }
                } else {
                    assert(chs[j].id@ != "earthquake.significant"@);
                }
            }
        }
    }
    legacy_index
}

/// Whether the automatic alert policy would change anything in `preferences`.
fn alert_policy_changes(preferences: &AppPreferences) -> (r: bool)
    ensures
        r == policy_changes(*preferences),
{
    let ghost chs = preferences.profile.channels@;
    let home = preferences.profile.home_channel_id.as_str();
    let legacy_index = legacy_earthquake_index(&preferences.profile.channels);
    let n = preferences.profile.channels.len();
    let mut k: usize = 0;
    while k < n
        invariant
            chs == preferences.profile.channels@,
            n == chs.len(),
            k <= n,
            home@ == preferences.profile.home_channel_id@,
            legacy_index <= chs.len(),
            legacy_index < chs.len() ==> first_with_id(chs, "earthquake.significant"@, legacy_index as int),
            forall|j: int| 0 <= j < chs.len() && j != legacy_index ==> !first_with_id(chs, "earthquake.significant"@, j),
            forall|j: int| 0 <= j < k ==> !channel_changes(#[trigger] chs[j], home@, upgraded_at(chs, j)),
        decreases n - k,
    {
        let c = &preferences.profile.channels[k];
        let upgrade = k == legacy_index && is_legacy_earthquake(c);
        assert(upgrade == upgraded_at(chs, k as int));
        if channel_policy_changes(c, home, upgrade) {
            return true;
        }
        k = k + 1;
    }
    preferences.display.dwell_seconds != AUTOMATIC_FRAME_DWELL_SECONDS
        || preferences.display.full_refresh_every != AUTOMATIC_FULL_REFRESH_EVERY
        || !preferences.profile.quiet_hours.bypass_emergency
}

/// A profile the policy would not change already meets it.
proof fn lemma_unchanged_is_standardized(p: AppPreferences)
    requires
        !policy_changes(p),
    ensures
        policy_standardized(p, p),
{
    let chs = p.profile.channels@;
    assert forall|i: int| 0 <= i < chs.len() implies channel_standardized(#[trigger] chs[i], p.profile.home_channel_id@, upgraded_at(chs, i), chs[i]) by {
        assert(!channel_changes(chs[i], p.profile.home_channel_id@, upgraded_at(chs, i)));
    }
}

/// A profile the policy changes comes out different.
proof fn lemma_change_is_visible(p: AppPreferences, after: AppPreferences)
    requires
        policy_standardized(p, after),
        policy_changes(p),
    ensures
        after != p,
{
    let chs = p.profile.channels@;
    let home = p.profile.home_channel_id@;
    if exists|i: int| 0 <= i < chs.len() && channel_changes(#[trigger] chs[i], home, upgraded_at(chs, i)) {
        let i = choose|i: int| 0 <= i < chs.len() && channel_changes(#[trigger] chs[i], home, upgraded_at(chs, i));
        let c = chs[i];
        let a = after.profile.channels@[i];
        assert(channel_standardized(c, home, upgraded_at(chs, i), a));
        assert(a != c) by {
            if upgraded_at(chs, i) {
                assert(!c.enabled && a.enabled);
            }
        }
        assert(after.profile.channels@ != chs);
    }
}

/// Puts a profile under the automatic policy.
fn apply_alert_policy(preferences: &mut AppPreferences)
    ensures
        policy_standardized(*old(preferences), *final(preferences)),
{
    let ghost before = *preferences;
    let ghost chs = preferences.profile.channels@;
    let home = owned(preferences.profile.home_channel_id.as_str());
    let legacy_index = legacy_earthquake_index(&preferences.profile.channels);
    let n = preferences.profile.channels.len();
    let mut rest: Vec<ChannelPreference> = Vec::new();
    std::mem::swap(&mut rest, &mut preferences.profile.channels);
    let mut out: Vec<ChannelPreference> = Vec::new();
    let mut k: usize = 0;
    while rest.len() > 0
        invariant
            k + rest@.len() == chs.len(),
            chs.len() == n,
            rest@ == chs.skip(k as int),
            out@.len() == k,
            legacy_index <= chs.len(),
            legacy_index < chs.len() ==> first_with_id(chs, "earthquake.significant"@, legacy_index as int),
            forall|j: int| 0 <= j < chs.len() && j != legacy_index ==> !first_with_id(chs, "earthquake.significant"@, j),
            home@ == before.profile.home_channel_id@,
            forall|j: int| 0 <= j < k ==> channel_standardized(#[trigger] chs[j], home@, upgraded_at(chs, j), out@[j]),
        decreases rest@.len(),
    {
        let mut c = rest.remove(0);
        assert(c == chs[k as int]);
        let may_upgrade = k == legacy_index;
        let legacy = is_legacy_earthquake(&c);
        let upgrade = may_upgrade && legacy;
        assert(upgrade == upgraded_at(chs, k as int));
        standardize_channel(&mut c, home.as_str(), upgrade);
        out.push(c);
        k = k + 1;
        proof {
            assert(rest@ =~= chs.skip(k as int));
        }
    }
    preferences.profile.channels = out;
    preferences.display.dwell_seconds = AUTOMATIC_FRAME_DWELL_SECONDS;
    preferences.display.full_refresh_every = AUTOMATIC_FULL_REFRESH_EVERY;
    preferences.profile.quiet_hours.bypass_emergency = true;
}

/// Removes legacy alert and carousel decisions from a stored profile, and
/// says whether anything changed: it changes exactly when the policy has
/// something to change, and then the profile comes out different.
pub fn standardize_alert_policy(preferences: &mut AppPreferences) -> (changed: bool)
    ensures
        policy_standardized(*old(preferences), *final(preferences)),
        changed == policy_changes(*old(preferences)),
        changed <==> *final(preferences) != *old(preferences),
{
    if !alert_policy_changes(preferences) {
        proof {
            lemma_unchanged_is_standardized(*preferences);
        }
        return false;
    }
    let ghost before = *preferences;
    apply_alert_policy(preferences);
    proof {
        lemma_change_is_visible(before, *preferences);
    }
    true
}

/// The shipped channels already meet the automatic policy: standardizing a
/// freshly made default profile changes nothing.
pub proof fn lemma_defaults_meet_policy(p: AppPreferences, catalog: FeedCatalog)
    requires
        default_channels(p.profile.channels@, catalog),
        p.profile.home_channel_id@ == "bridge.brickell"@,
        p.display.dwell_seconds == AUTOMATIC_FRAME_DWELL_SECONDS,
        p.display.full_refresh_every == AUTOMATIC_FULL_REFRESH_EVERY,
        p.profile.quiet_hours.bypass_emergency,
    ensures
        !policy_changes(p),
{
    lemma_policy_keys_distinct();
    reveal_strlit("bridge.brickell");
    reveal_strlit("weather.miami");
    reveal_strlit("official.miami");
    reveal_strlit("hurricane.atlantic");
    reveal_strlit("news.local");
    reveal_strlit("earthquake.significant");
    reveal_strlit("markets.watchlist");
    reveal_strlit("sports.miami");
    let chs = p.profile.channels@;
    let home = p.profile.home_channel_id@;
    assert forall|i: int| 0 <= i < chs.len() implies !channel_changes(#[trigger] chs[i], home, upgraded_at(chs, i)) by {
        assert(chs[i].id@ == default_channel_id(i));
        assert(default_channel_id(i).len() == "bridge.brickell"@.len() ==> i == 0);
        assert(default_channel_id(i).len() == "earthquake.significant"@.len() ==> i == 5);
        if i == 5 {
            assert(!legacy_earthquake(chs[i]));
        }
    }
}

/// `p` with its stored AIS key flag set to `configured`.
pub open spec fn with_key_flag(p: AppPreferences, configured: bool) -> AppPreferences {
    AppPreferences { ais: AisSettings { api_key_configured: configured, ..p.ais }, ..p }
}

/// Brings loaded preferences in line with the secret store: when the store
/// says whether an AIS key is configured, the stored flag takes that answer.
/// The preferences must be written back when nothing was stored (they are
/// the shipped defaults) or when the flag changed.
pub fn reconcile_loaded_preferences(
    preferences: &mut AppPreferences,
    stored: bool,
    aisstream_key_configured: Option<bool>,
) -> (needs_write: bool)
    ensures
        *final(preferences) == (match aisstream_key_configured {
            Some(c) => with_key_flag(*old(preferences), c),
            None => *old(preferences),
        }),
        needs_write == (!stored || (match aisstream_key_configured {
            Some(c) => c != old(preferences).ais.api_key_configured,
            None => false,
        })),
{
    let changed = match aisstream_key_configured {
        Some(configured) => {
            let changed = preferences.ais.api_key_configured != configured;
            preferences.ais.api_key_configured = configured;
            changed
        },
        None => false,
    };
    !stored || changed
}

/// The automatic policy is idempotent: a profile it has standardized has
/// nothing left for it to change, so a legacy earthquake card is switched on
/// at most once and a reader may switch it off again.
pub proof fn lemma_standardize_idempotent(p: AppPreferences, after: AppPreferences)
    requires
        policy_standardized(p, after),
    ensures
        !policy_changes(after),
{
    lemma_policy_keys_distinct();
    let chs = p.profile.channels@;
    let outs = after.profile.channels@;
    let home = p.profile.home_channel_id@;
    assert forall|i: int| 0 <= i < outs.len() implies !channel_changes(#[trigger] outs[i], home, upgraded_at(outs, i)) by {
        let c = chs[i];
        assert(channel_standardized(c, home, upgraded_at(chs, i), outs[i]));
        assert(first_with_id(outs, "earthquake.significant"@, i) == first_with_id(chs, "earthquake.significant"@, i)) by {
            assert forall|j: int| 0 <= j < i implies (#[trigger] outs[j]).id@ == chs[j].id@ by {
                assert(channel_standardized(chs[j], home, upgraded_at(chs, j), outs[j]));
            }
        }
        if upgraded_at(outs, i) {
            if upgraded_at(chs, i) {
                assert(outs[i].enabled);
            } else {
                assert(!policy_key(c.kind, false, "minimumMagnitude"@) || c.kind == ChannelKindDto::Earthquake);
                if c.kind == ChannelKindDto::Earthquake {
                    assert(holds_text(outs[i].scope, "feed"@, "4.5_day"@));
                    assert("4.5_day"@ != "significant_hour"@);
                } else {
                    assert(!policy_key(c.kind, false, "feed"@));
                    assert(!policy_key(c.kind, false, "eventAgeMinutes"@));
                    assert(object_get(outs[i].scope, "feed"@) == object_get(c.scope, "feed"@));
                    assert(object_get(outs[i].scope, "minimumMagnitude"@) == object_get(c.scope, "minimumMagnitude"@));
                    assert(object_get(outs[i].scope, "eventAgeMinutes"@) == object_get(c.scope, "eventAgeMinutes"@));
                    assert(legacy_earthquake(c));
                }
            }
        }
        assert(policy_presence(outs[i].id@, home) == outs[i].presence);
    }
    assert(after.profile.home_channel_id@ == home);
}

/// The URLs of the catalog entries named by `ids`, in order, skipping an id
/// the catalog does not hold.
pub open spec fn catalog_urls_spec(entries: Seq<crate::catalog::CatalogEntry>, ids: Seq<Seq<char>>) -> Seq<Seq<char>>
    decreases ids.len(),
{
    if ids.len() == 0 {
        Seq::empty()
    } else {
        let rest = catalog_urls_spec(entries, ids.drop_last());
        match entry_with_id(entries, ids.last(), 0) {
            Some(e) => rest.push(e.url@),
            None => rest,
        }
    }
}

pub open spec fn str_views(v: Seq<&str>) -> Seq<Seq<char>>
    decreases v.len(),
{
    if v.len() == 0 {
        Seq::empty()
    } else {
        str_views(v.drop_last()).push(v.last()@)
    }
}

/// Resolves shipped catalog entries to their URLs, for seeding a default channel.
pub fn catalog_urls(catalog: &FeedCatalog, entry_ids: &[&str]) -> (r: Vec<String>)
    ensures
        string_views(r@) == catalog_urls_spec(catalog.all_entries(), str_views(entry_ids@)),
{
    let mut out: Vec<String> = Vec::new();
    let mut i: usize = 0;
    while i < entry_ids.len()
        invariant
            i <= entry_ids@.len(),
            string_views(out@) == catalog_urls_spec(catalog.all_entries(), str_views(entry_ids@.take(i as int))),
        decreases entry_ids@.len() - i,
    {
        proof {
            let prev = entry_ids@.take(i as int);
            let next = entry_ids@.take(i + 1);
            assert(next.drop_last() == prev);
            assert(next.last() == entry_ids@[i as int]);
            assert(str_views(next) == str_views(prev).push(entry_ids@[i as int]@));
            assert(str_views(next).drop_last() =~= str_views(prev));
            assert(str_views(next).last() == entry_ids@[i as int]@);
        }
        match catalog.entry_url(entry_ids[i]) {
            Some(url) => {
                let ghost before = out@;
                out.push(owned(url));
                proof {
                    assert(out@.drop_last() == before);
                }
            },
            None => {},
        }
        i = i + 1;
    }
    proof {
        assert(entry_ids@.take(entry_ids@.len() as int) == entry_ids@);
    }
    out
}

/// A JSON list holding `values`, in order.
pub fn string_array(values: Vec<String>) -> (r: JsonValue)
    ensures
        r is Array,
        forall|i: int| 0 <= i < r->Array_0@.len() ==> #[trigger] r->Array_0@[i] is String,
        array_strings(r->Array_0@) == string_views(values@),
{
    let ghost all = values@;
    let n = values.len();
    let mut rest = values;
    let mut out: Vec<JsonValue> = Vec::new();
    let mut k: usize = 0;
    while rest.len() > 0
        invariant
            k + rest@.len() == all.len(),
            all.len() == n,
            rest@ == all.skip(k as int),
            forall|i: int| 0 <= i < out@.len() ==> #[trigger] out@[i] is String,
            array_strings(out@) == string_views(all.take(k as int)),
        decreases rest@.len(),
    {
        let s = rest.remove(0);
        let ghost before = out@;
        proof {
            assert(s == all[k as int]);
            assert(all.take(k + 1).drop_last() == all.take(k as int));
        }
        out.push(JsonValue::String(s));
        proof {
            assert(out@.drop_last() == before);
        }
        k = k + 1;
        proof {
            assert(rest@ =~= all.skip(k as int));
        }
    }
    proof {
        assert(all.take(all.len() as int) == all);
    }
    JsonValue::Array(out)
}

fn text_value(s: &str) -> (r: JsonValue)
    ensures
        r is String,
        r->String_0@ == s@,
{
    JsonValue::String(owned(s))
}

fn text_list(items: &[&str]) -> (r: JsonValue)
    ensures
        r is Array,
        r->Array_0@.len() == items@.len(),
        forall|i: int| 0 <= i < items@.len() ==> (#[trigger] r->Array_0@[i] is String && r->Array_0@[i]->String_0@ == items@[i]@),
{
    let mut out: Vec<JsonValue> = Vec::new();
    let mut i: usize = 0;
    while i < items.len()
        invariant
            i <= items@.len(),
            out@.len() == i,
            forall|j: int| 0 <= j < i ==> (#[trigger] out@[j] is String && out@[j]->String_0@ == items@[j]@),
        decreases items@.len() - i,
    {
        out.push(text_value(items[i]));
        i = i + 1;
    }
    JsonValue::Array(out)
}

fn decimal_value(m: i64, e: i32) -> (r: JsonValue)
    ensures
        r == JsonValue::Number(JsonNumber::Float(Decimal { mantissa: m, exponent: e })),
{
    JsonValue::Number(JsonNumber::Float(Decimal::new(m, e)))
}

/// The alert area every install starts with: Miami.
pub fn default_alert_areas() -> (r: Vec<AlertArea>)
    ensures
        r@.len() == 1,
        r@[0].id@ == "area.miami"@,
        r@[0].label@ == "Miami, Florida"@,
        r@[0].latitude == Real::Finite(Decimal { mantissa: 257617, exponent: -4i32 }),
        r@[0].longitude == Real::Finite(Decimal { mantissa: -801918i64, exponent: -4i32 }),
        r@[0].time_zone@ == "America/New_York"@,
        r@[0].country_code is Some && r@[0].country_code.unwrap()@ == "US"@,
        r@[0].admin_area is Some && r@[0].admin_area.unwrap()@ == "Florida"@,
        r@[0].source == AlertAreaSource::Preset,
        r@[0].enabled && r@[0].weather_enabled && r@[0].official_alerts_enabled && r@[0].tropical_context_enabled,
{
    vec![AlertArea {
        id: owned("area.miami"),
        label: owned("Miami, Florida"),
        latitude: Real::Finite(Decimal::new(257617, -4)),
        longitude: Real::Finite(Decimal::new(-801918, -4)),
        time_zone: owned("America/New_York"),
        country_code: Some(owned("US")),
        admin_area: Some(owned("Florida")),
        source: AlertAreaSource::Preset,
        enabled: true,
        weather_enabled: true,
        official_alerts_enabled: true,
        tropical_context_enabled: true,
    }]
}

/// The identifier of shipped channel `i`.
pub open spec fn default_channel_id(i: int) -> Seq<char> {
    if i == 0 { "bridge.brickell"@ }
    else if i == 1 { "weather.miami"@ }
    else if i == 2 { "official.miami"@ }
    else if i == 3 { "hurricane.atlantic"@ }
    else if i == 4 { "news.local"@ }
    else if i == 5 { "earthquake.significant"@ }
    else if i == 6 { "markets.watchlist"@ }
    else { "sports.miami"@ }
}

/// The title of shipped channel `i`.
pub open spec fn default_channel_title(i: int) -> Seq<char> {
    if i == 0 { "Brickell bridge"@ }
    else if i == 1 { "Miami weather"@ }
    else if i == 2 { "Official alerts"@ }
    else if i == 3 { "Atlantic hurricanes"@ }
    else if i == 4 { "Headlines"@ }
    else if i == 5 { "Significant earthquakes"@ }
    else if i == 6 { "Market watchlist"@ }
    else { "Miami teams"@ }
}

/// The kind of shipped channel `i`.
pub open spec fn default_channel_kind(i: int) -> ChannelKindDto {
    if i == 0 { ChannelKindDto::Bridge }
    else if i == 1 { ChannelKindDto::Weather }
    else if i == 2 { ChannelKindDto::Official }
    else if i == 3 { ChannelKindDto::Hurricane }
    else if i == 4 { ChannelKindDto::News }
    else if i == 5 { ChannelKindDto::Earthquake }
    else if i == 6 { ChannelKindDto::Markets }
    else { ChannelKindDto::Sports }
}

/// The catalog entries each feed-reading channel is seeded with.
pub open spec fn news_seed_ids() -> Seq<Seq<char>> {
    seq!["bbc.world"@, "npr.news"@, "miamidade.gov"@, "wsvn.all"@, "local10.all"@]
}

pub open spec fn sports_seed_ids() -> Seq<Seq<char>> {
    seq!["cbs.nfl"@, "dolphins.phinsider"@, "heat.gnews"@, "pfr.all"@]
}

fn shipped_channel(id: &str, kind: ChannelKindDto, title: &str, enabled: bool, home: bool, scope: JsonObject) -> (c: ChannelPreference)
    ensures
        c.id@ == id@,
        c.kind == kind,
        c.title@ == title@,
        c.enabled == enabled,
        c.presence == (if home { SurfacePresence::Home } else { SurfacePresence::ActiveOnly }),
        c.interrupt_preset == InterruptPreset::Recommended,
        c.destinations@ == standard_destinations(),
        c.max_age_minutes == source_age_minutes_spec(kind),
        c.max_items == AUTOMATIC_ITEM_LIMIT,
        c.rotation_seconds == AUTOMATIC_FRAME_DWELL_SECONDS,
        c.scope == scope,
{
    let c = ChannelPreference {
        id: owned(id),
        kind,
        title: owned(title),
        enabled,
        presence: if home { SurfacePresence::Home } else { SurfacePresence::ActiveOnly },
        interrupt_preset: InterruptPreset::Recommended,
        destinations: vec![DestinationIdDto::Epaper, DestinationIdDto::Whatsapp, DestinationIdDto::Desktop],
        max_age_minutes: automatic_source_age_minutes(kind),
        max_items: AUTOMATIC_ITEM_LIMIT,
        rotation_seconds: AUTOMATIC_FRAME_DWELL_SECONDS,
        scope,
    };
    assert(c.destinations@ =~= standard_destinations());
    c
}

/// `key` holds the list of strings `t`, in order.
pub open spec fn holds_texts(o: JsonObject, key: Seq<char>, t: Seq<Seq<char>>) -> bool {
    match object_get(o, key) {
        Some(JsonValue::Array(a)) => {
            &&& a@.len() == t.len()
            &&& forall|i: int| 0 <= i < t.len() ==> (#[trigger] a@[i]) is String && a@[i]->String_0@ == t[i]
        },
        _ => false,
    }
}

/// `key` holds the boolean `b`.
pub open spec fn holds_bool(o: JsonObject, key: Seq<char>, b: bool) -> bool {
    object_get(o, key) == Some(JsonValue::Bool(b))
}

/// `key` holds the decimal `m × 10^e`, written with a fraction.
pub open spec fn holds_decimal(o: JsonObject, key: Seq<char>, m: i64, e: i32) -> bool {
    object_get(o, key) == Some(JsonValue::Number(JsonNumber::Float(Decimal { mantissa: m, exponent: e })))
}

/// The shipped bridge channel's scope: the Brickell Avenue span, its position,
/// the radius around it and its time zone, and nothing else.
pub open spec fn default_bridge_scope(o: JsonObject) -> bool {
    &&& holds_text(o, "bridge"@, "Brickell Avenue Bridge"@)
    &&& holds_decimal(o, "latitude"@, 257699i64, -4i32)
    &&& holds_decimal(o, "longitude"@, -8019005i64, -5i32)
    &&& holds_integer(o, "radiusMeters"@, 250)
    &&& holds_text(o, "timeZone"@, "America/New_York"@)
    &&& forall|k: Seq<char>| k != "bridge"@ && k != "latitude"@ && k != "longitude"@ && k != "radiusMeters"@
        && k != "timeZone"@ ==> #[trigger] object_get(o, k) is None
}

/// The shipped weather channel's scope: Miami, its saved area, and the rain
/// and gust rules switched on with their thresholds, and nothing else.
pub open spec fn default_weather_scope(o: JsonObject) -> bool {
    &&& holds_text(o, "place"@, "Miami, FL"@)
    &&& holds_decimal(o, "latitude"@, 257617i64, -4i32)
    &&& holds_decimal(o, "longitude"@, -801918i64, -4i32)
    &&& holds_texts(o, "areaIds"@, seq!["area.miami"@])
    &&& holds_bool(o, "rainAlertEnabled"@, true)
    &&& holds_bool(o, "windAlertEnabled"@, true)
    &&& holds_bool(o, "radarEnabled"@, true)
    &&& holds_integer(o, "windGustMph"@, 40)
    &&& holds_integer(o, "rainProbabilityThreshold"@, 60)
    &&& holds_integer(o, "rainLeadMinutes"@, 90)
    &&& forall|k: Seq<char>| k != "place"@ && k != "latitude"@ && k != "longitude"@ && k != "areaIds"@
        && k != "rainAlertEnabled"@ && k != "windAlertEnabled"@ && k != "radarEnabled"@ && k != "windGustMph"@
        && k != "rainProbabilityThreshold"@ && k != "rainLeadMinutes"@ ==> #[trigger] object_get(o, k) is None
}

/// The shipped official-alert channel's scope: Miami as a point and an area,
/// severe and extreme alerts only, no statements, and nothing else.
pub open spec fn default_official_scope(o: JsonObject) -> bool {
    &&& holds_text(o, "place"@, "Miami, FL"@)
    &&& holds_text(o, "point"@, "25.7617,-80.1918"@)
    &&& holds_texts(o, "areaIds"@, seq!["area.miami"@])
    &&& holds_texts(o, "severity"@, seq!["Severe"@, "Extreme"@])
    &&& holds_bool(o, "includeStatements"@, false)
    &&& forall|k: Seq<char>| k != "place"@ && k != "point"@ && k != "areaIds"@ && k != "severity"@
        && k != "includeStatements"@ ==> #[trigger] object_get(o, k) is None
}

/// The shipped hurricane channel's scope: Miami and its saved area.
pub open spec fn default_hurricane_scope(o: JsonObject) -> bool {
    &&& holds_text(o, "place"@, "Miami, FL"@)
    &&& holds_texts(o, "areaIds"@, seq!["area.miami"@])
    &&& forall|k: Seq<char>| k != "place"@ && k != "areaIds"@ ==> #[trigger] object_get(o, k) is None
}

/// A shipped feed channel's scope: no topic filters, every story, and the
/// feeds of catalog entries `seeds`.
pub open spec fn default_feed_scope(o: JsonObject, catalog: FeedCatalog, seeds: Seq<Seq<char>>) -> bool {
    &&& holds_texts(o, "topics"@, Seq::empty())
    &&& holds_texts(o, "excludeTopics"@, Seq::empty())
    &&& holds_bool(o, "breakingOnly"@, false)
    &&& holds_texts(o, "feeds"@, catalog_urls_spec(catalog.all_entries(), seeds))
    &&& scope_strings_of(o, "feeds"@) == catalog_urls_spec(catalog.all_entries(), seeds)
    &&& forall|k: Seq<char>| k != "topics"@ && k != "excludeTopics"@ && k != "breakingOnly"@ && k != "feeds"@
        ==> #[trigger] object_get(o, k) is None
}

/// The shipped earthquake channel's scope: magnitude 7 and up from the
/// magnitude 4.5 day feed, for a day, and nothing else.
pub open spec fn default_earthquake_scope(o: JsonObject) -> bool {
    &&& holds_decimal(o, "minimumMagnitude"@, 7i64, 0i32)
    &&& holds_text(o, "feed"@, "4.5_day"@)
    &&& holds_integer(o, "eventAgeMinutes"@, 1440)
    &&& forall|k: Seq<char>| k != "minimumMagnitude"@ && k != "feed"@ && k != "eventAgeMinutes"@
        ==> #[trigger] object_get(o, k) is None
}

/// The shipped markets channel's scope: AMD, a 5% move, polled every five
/// minutes, and nothing else.
pub open spec fn default_markets_scope(o: JsonObject) -> bool {
    &&& holds_texts(o, "symbols"@, seq!["AMD"@])
    &&& holds_integer(o, "movePercent"@, 5)
    &&& holds_integer(o, "pollSeconds"@, 300)
    &&& forall|k: Seq<char>| k != "symbols"@ && k != "movePercent"@ && k != "pollSeconds"@
        ==> #[trigger] object_get(o, k) is None
}

/// The shipped weather, earthquake and markets scopes meet their kinds'
/// scope rules, whether or not the markets channel is switched on.
pub proof fn lemma_default_scopes_meet_kind_rules(weather: JsonObject, earthquake: JsonObject, markets: JsonObject, enabled: bool)
    requires
        default_weather_scope(weather),
        default_earthquake_scope(earthquake),
        default_markets_scope(markets),
    ensures
        weather_scope_valid(weather),
        earthquake_scope_valid(earthquake),
        markets_scope_valid(markets, enabled),
{
    reveal_strlit("place");
    reveal_strlit("latitude");
    reveal_strlit("longitude");
    reveal_strlit("areaIds");
    reveal_strlit("rainAlertEnabled");
    reveal_strlit("windAlertEnabled");
    reveal_strlit("radarEnabled");
    reveal_strlit("windGustMph");
    reveal_strlit("rainProbabilityThreshold");
    reveal_strlit("rainLeadMinutes");
    reveal_strlit("rainAmountMm");
    reveal_strlit("rainWindowMinutes");
    reveal_strlit("AMD");
    assert(pow10(0) == 1);
    assert(pow10(1) == 10);
    assert("rainAmountMm"@.len() == 12 && "radarEnabled"@.len() == 12);
    assert("rainAmountMm"@[2] != "radarEnabled"@[2]);
    let keys = seq!["place"@, "latitude"@, "longitude"@, "areaIds"@, "rainAlertEnabled"@, "windAlertEnabled"@,
        "radarEnabled"@, "windGustMph"@, "rainProbabilityThreshold"@, "rainLeadMinutes"@];
    assert(forall|i: int| 0 <= i < keys.len() ==> #[trigger] keys[i] != "rainAmountMm"@ && keys[i] != "rainWindowMinutes"@) by {
        assert forall|i: int| 0 <= i < keys.len() implies #[trigger] keys[i] != "rainAmountMm"@ && keys[i] != "rainWindowMinutes"@ by {
            if keys[i].len() == 12 {
                assert(keys[i][2] != "rainAmountMm"@[2]);
            }
        }
    }
    assert(object_get(weather, "rainAmountMm"@) is None) by {
        assert(keys[0] != "rainAmountMm"@ && keys[1] != "rainAmountMm"@ && keys[2] != "rainAmountMm"@ && keys[3] != "rainAmountMm"@);
        assert(keys[4] != "rainAmountMm"@ && keys[5] != "rainAmountMm"@ && keys[6] != "rainAmountMm"@);
        assert(keys[7] != "rainAmountMm"@ && keys[8] != "rainAmountMm"@ && keys[9] != "rainAmountMm"@);
    }
    assert(object_get(weather, "rainWindowMinutes"@) is None) by {
        assert(keys[0] != "rainWindowMinutes"@ && keys[1] != "rainWindowMinutes"@ && keys[2] != "rainWindowMinutes"@);
        assert(keys[3] != "rainWindowMinutes"@ && keys[4] != "rainWindowMinutes"@ && keys[5] != "rainWindowMinutes"@);
        assert(keys[6] != "rainWindowMinutes"@ && keys[7] != "rainWindowMinutes"@ && keys[8] != "rainWindowMinutes"@);
        assert(keys[9] != "rainWindowMinutes"@);
    }
    let symbols = value_as_array(object_get(markets, "symbols"@)).unwrap();
    let amd = "AMD"@;
    assert(trim_start_seq(amd) == amd);
    assert(trim_end_seq(amd) == amd);
    assert(element_symbol(symbols[0]) == ascii_upper_seq(amd));
    assert(ascii_upper_seq(amd) =~= amd);
    assert(symbol_valid(amd));
}

fn bridge_scope() -> (o: JsonObject)
    ensures
        default_bridge_scope(o),
{
    proof {
        reveal_strlit("bridge");
        reveal_strlit("latitude");
        reveal_strlit("longitude");
        reveal_strlit("radiusMeters");
        reveal_strlit("timeZone");
        assert("bridge"@.len() != "latitude"@.len());
        assert("bridge"@.len() != "longitude"@.len());
        assert("bridge"@.len() != "radiusMeters"@.len());
        assert("bridge"@.len() != "timeZone"@.len());
        assert("latitude"@.len() != "longitude"@.len());
        assert("latitude"@.len() != "radiusMeters"@.len());
        assert("latitude"@[0] != "timeZone"@[0]);
        assert("longitude"@.len() != "radiusMeters"@.len());
        assert("longitude"@.len() != "timeZone"@.len());
        assert("radiusMeters"@.len() != "timeZone"@.len());
    }
    let mut o = JsonObject::new();
    o.insert(owned("bridge"), text_value("Brickell Avenue Bridge"));
    o.insert(owned("latitude"), decimal_value(257699, -4));
    o.insert(owned("longitude"), decimal_value(-8019005, -5));
    o.insert(owned("radiusMeters"), integer_value(250));
    o.insert(owned("timeZone"), text_value("America/New_York"));
    o
}

fn weather_scope() -> (o: JsonObject)
    ensures
        default_weather_scope(o),
{
    proof {
        reveal_strlit("place");
        reveal_strlit("latitude");
        reveal_strlit("longitude");
        reveal_strlit("areaIds");
        reveal_strlit("rainAlertEnabled");
        reveal_strlit("windAlertEnabled");
        reveal_strlit("radarEnabled");
        reveal_strlit("windGustMph");
        reveal_strlit("rainProbabilityThreshold");
        reveal_strlit("rainLeadMinutes");
        assert("place"@.len() != "latitude"@.len());
        assert("place"@.len() != "longitude"@.len());
        assert("place"@.len() != "areaIds"@.len());
        assert("place"@.len() != "rainAlertEnabled"@.len());
        assert("place"@.len() != "windAlertEnabled"@.len());
        assert("place"@.len() != "radarEnabled"@.len());
        assert("place"@.len() != "windGustMph"@.len());
        assert("place"@.len() != "rainProbabilityThreshold"@.len());
        assert("place"@.len() != "rainLeadMinutes"@.len());
        assert("latitude"@.len() != "longitude"@.len());
        assert("latitude"@.len() != "areaIds"@.len());
        assert("latitude"@.len() != "rainAlertEnabled"@.len());
        assert("latitude"@.len() != "windAlertEnabled"@.len());
        assert("latitude"@.len() != "radarEnabled"@.len());
        assert("latitude"@.len() != "windGustMph"@.len());
        assert("latitude"@.len() != "rainProbabilityThreshold"@.len());
        assert("latitude"@.len() != "rainLeadMinutes"@.len());
        assert("longitude"@.len() != "areaIds"@.len());
        assert("longitude"@.len() != "rainAlertEnabled"@.len());
        assert("longitude"@.len() != "windAlertEnabled"@.len());
        assert("longitude"@.len() != "radarEnabled"@.len());
        assert("longitude"@.len() != "windGustMph"@.len());
        assert("longitude"@.len() != "rainProbabilityThreshold"@.len());
        assert("longitude"@.len() != "rainLeadMinutes"@.len());
        assert("areaIds"@.len() != "rainAlertEnabled"@.len());
        assert("areaIds"@.len() != "windAlertEnabled"@.len());
        assert("areaIds"@.len() != "radarEnabled"@.len());
        assert("areaIds"@.len() != "windGustMph"@.len());
        assert("areaIds"@.len() != "rainProbabilityThreshold"@.len());
        assert("areaIds"@.len() != "rainLeadMinutes"@.len());
        assert("rainAlertEnabled"@[0] != "windAlertEnabled"@[0]);
        assert("rainAlertEnabled"@.len() != "radarEnabled"@.len());
        assert("rainAlertEnabled"@.len() != "windGustMph"@.len());
        assert("rainAlertEnabled"@.len() != "rainProbabilityThreshold"@.len());
        assert("rainAlertEnabled"@.len() != "rainLeadMinutes"@.len());
        assert("windAlertEnabled"@.len() != "radarEnabled"@.len());
        assert("windAlertEnabled"@.len() != "windGustMph"@.len());
        assert("windAlertEnabled"@.len() != "rainProbabilityThreshold"@.len());
        assert("windAlertEnabled"@.len() != "rainLeadMinutes"@.len());
        assert("radarEnabled"@.len() != "windGustMph"@.len());
        assert("radarEnabled"@.len() != "rainProbabilityThreshold"@.len());
        assert("radarEnabled"@.len() != "rainLeadMinutes"@.len());
        assert("windGustMph"@.len() != "rainProbabilityThreshold"@.len());
        assert("windGustMph"@.len() != "rainLeadMinutes"@.len());
        assert("rainProbabilityThreshold"@.len() != "rainLeadMinutes"@.len());
    }
    let mut o = JsonObject::new();
    o.insert(owned("place"), text_value("Miami, FL"));
    o.insert(owned("latitude"), decimal_value(257617, -4));
    o.insert(owned("longitude"), decimal_value(-801918, -4));
    let areas = text_list(&["area.miami"]);
    o.insert(owned("areaIds"), areas);
    o.insert(owned("rainAlertEnabled"), JsonValue::Bool(true));
    o.insert(owned("windAlertEnabled"), JsonValue::Bool(true));
    o.insert(owned("radarEnabled"), JsonValue::Bool(true));
    o.insert(owned("windGustMph"), integer_value(40));
    o.insert(owned("rainProbabilityThreshold"), integer_value(60));
    o.insert(owned("rainLeadMinutes"), integer_value(90));
    proof {
        assert(["area.miami"]@.len() == 1);
    }
    o
}

fn official_scope() -> (o: JsonObject)
    ensures
        default_official_scope(o),
{
    proof {
        reveal_strlit("place");
        reveal_strlit("point");
        reveal_strlit("areaIds");
        reveal_strlit("severity");
        reveal_strlit("includeStatements");
        assert("place"@[1] != "point"@[1]);
        assert("place"@.len() != "areaIds"@.len());
        assert("place"@.len() != "severity"@.len());
        assert("place"@.len() != "includeStatements"@.len());
        assert("point"@.len() != "areaIds"@.len());
        assert("point"@.len() != "severity"@.len());
        assert("point"@.len() != "includeStatements"@.len());
        assert("areaIds"@.len() != "severity"@.len());
        assert("areaIds"@.len() != "includeStatements"@.len());
        assert("severity"@.len() != "includeStatements"@.len());
    }
    let mut o = JsonObject::new();
    o.insert(owned("place"), text_value("Miami, FL"));
    o.insert(owned("point"), text_value("25.7617,-80.1918"));
    let areas = text_list(&["area.miami"]);
    o.insert(owned("areaIds"), areas);
    let severities = text_list(&["Severe", "Extreme"]);
    o.insert(owned("severity"), severities);
    o.insert(owned("includeStatements"), JsonValue::Bool(false));
    o
}

fn hurricane_scope() -> (o: JsonObject)
    ensures
        default_hurricane_scope(o),
{
    proof {
        reveal_strlit("place");
        reveal_strlit("areaIds");
        assert("place"@.len() != "areaIds"@.len());
    }
    let mut o = JsonObject::new();
    o.insert(owned("place"), text_value("Miami, FL"));
    let areas = text_list(&["area.miami"]);
    o.insert(owned("areaIds"), areas);
    o
}

proof fn lemma_array_strings_all(a: Seq<JsonValue>)
    requires
        forall|i: int| 0 <= i < a.len() ==> #[trigger] a[i] is String,
    ensures
        array_strings(a).len() == a.len(),
        forall|i: int| 0 <= i < a.len() ==> array_strings(a)[i] == (#[trigger] a[i])->String_0@,
    decreases a.len(),
{
    if a.len() > 0 {
        lemma_array_strings_all(a.drop_last());
        assert forall|i: int| 0 <= i < a.len() implies array_strings(a)[i] == (#[trigger] a[i])->String_0@ by {
            if i < a.len() - 1 {
                assert(a.drop_last()[i] == a[i]);
            }
        }
    }
}

fn feed_scope(catalog: &FeedCatalog, seeds: &[&str]) -> (o: JsonObject)
    ensures
        default_feed_scope(o, *catalog, str_views(seeds@)),
{
    proof {
        reveal_strlit("topics");
        reveal_strlit("excludeTopics");
        reveal_strlit("breakingOnly");
        reveal_strlit("feeds");
        assert("topics"@.len() != "excludeTopics"@.len());
        assert("topics"@.len() != "breakingOnly"@.len());
        assert("topics"@.len() != "feeds"@.len());
        assert("excludeTopics"@.len() != "breakingOnly"@.len());
        assert("excludeTopics"@.len() != "feeds"@.len());
        assert("breakingOnly"@.len() != "feeds"@.len());
    }
    let mut o = JsonObject::new();
    let topics = text_list(&[]);
    o.insert(owned("topics"), topics);
    let excluded = text_list(&[]);
    o.insert(owned("excludeTopics"), excluded);
    o.insert(owned("breakingOnly"), JsonValue::Bool(false));
    let urls = catalog_urls(catalog, seeds);
    let feeds = string_array(urls);
    proof {
        lemma_array_strings_all(feeds->Array_0@);
    }
    o.insert(owned("feeds"), feeds);
    o
}

fn earthquake_scope() -> (o: JsonObject)
    ensures
        default_earthquake_scope(o),
{
    proof {
        reveal_strlit("minimumMagnitude");
        reveal_strlit("feed");
        reveal_strlit("eventAgeMinutes");
        assert("minimumMagnitude"@.len() != "feed"@.len());
        assert("minimumMagnitude"@.len() != "eventAgeMinutes"@.len());
        assert("feed"@.len() != "eventAgeMinutes"@.len());
    }
    let mut o = JsonObject::new();
    o.insert(owned("minimumMagnitude"), decimal_value(7, 0));
    o.insert(owned("feed"), text_value("4.5_day"));
    o.insert(owned("eventAgeMinutes"), integer_value(1440));
    o
}

fn markets_scope() -> (o: JsonObject)
    ensures
        default_markets_scope(o),
{
    proof {
        reveal_strlit("symbols");
        reveal_strlit("movePercent");
        reveal_strlit("pollSeconds");
        assert("symbols"@.len() != "movePercent"@.len());
        assert("symbols"@.len() != "pollSeconds"@.len());
        assert("movePercent"@[0] != "pollSeconds"@[0]);
    }
    let mut o = JsonObject::new();
    let symbols = text_list(&["AMD"]);
    o.insert(owned("symbols"), symbols);
    o.insert(owned("movePercent"), integer_value(5));
    o.insert(owned("pollSeconds"), integer_value(300));
    o
}

/// The channels every install starts with.
/// Whether `r` are the channels every install starts with, the feed channels
/// seeded from `catalog`.
pub open spec fn default_channels(r: Seq<ChannelPreference>, catalog: FeedCatalog) -> bool {
    &&& r.len() == 8
    &&& forall|i: int| 0 <= i < 8 ==> {
        &&& (#[trigger] r[i]).id@ == default_channel_id(i)
        &&& r[i].kind == default_channel_kind(i)
        &&& r[i].title@ == default_channel_title(i)
        &&& r[i].enabled == (i != 6 && i != 7)
        &&& r[i].presence == (if i == 0 { SurfacePresence::Home } else { SurfacePresence::ActiveOnly })
        &&& r[i].interrupt_preset == InterruptPreset::Recommended
        &&& r[i].destinations@ == standard_destinations()
        &&& r[i].max_age_minutes == source_age_minutes_spec(r[i].kind)
        &&& r[i].max_items == AUTOMATIC_ITEM_LIMIT
        &&& r[i].rotation_seconds == AUTOMATIC_FRAME_DWELL_SECONDS
    }
    &&& default_bridge_scope(r[0].scope)
    &&& default_weather_scope(r[1].scope)
    &&& default_official_scope(r[2].scope)
    &&& default_hurricane_scope(r[3].scope)
    &&& default_feed_scope(r[4].scope, catalog, news_seed_ids())
    &&& default_earthquake_scope(r[5].scope)
    &&& default_markets_scope(r[6].scope)
    &&& default_feed_scope(r[7].scope, catalog, sports_seed_ids())
}

pub fn default_channel_preferences(catalog: &FeedCatalog) -> (r: Vec<ChannelPreference>)
    ensures
        default_channels(r@, *catalog),
        holds_integer(r@[1].scope, "rainProbabilityThreshold"@, 60),
        holds_integer(r@[1].scope, "rainLeadMinutes"@, 90),
        holds_text(r@[5].scope, "feed"@, "4.5_day"@),
        holds_integer(r@[5].scope, "eventAgeMinutes"@, 1440),
        object_get(r@[5].scope, "minimumMagnitude"@) == Some(JsonValue::Number(default_earthquake_magnitude())),
        scope_strings_of(r@[4].scope, "feeds"@) == catalog_urls_spec(catalog.all_entries(), news_seed_ids()),
        scope_strings_of(r@[7].scope, "feeds"@) == catalog_urls_spec(catalog.all_entries(), sports_seed_ids()),
{
    let news_ids: [&str; 5] = ["bbc.world", "npr.news", "miamidade.gov", "wsvn.all", "local10.all"];
    proof {
        assert(str_views(news_ids@) =~= news_seed_ids()) by {
            assert(str_views(news_ids@).len() == 5) by {
                reveal_with_fuel(str_views, 6);
            }
            reveal_with_fuel(str_views, 6);
        }
    }
    let sports_ids: [&str; 4] = ["cbs.nfl", "dolphins.phinsider", "heat.gnews", "pfr.all"];
    proof {
        assert(str_views(sports_ids@) =~= sports_seed_ids()) by {
            reveal_with_fuel(str_views, 5);
        }
    }
    let bridge = bridge_scope();
    let weather = weather_scope();
    let official = official_scope();
    let hurricane = hurricane_scope();
    let news = feed_scope(catalog, &news_ids);
    let earthquake = earthquake_scope();
    let markets = markets_scope();
    let sports = feed_scope(catalog, &sports_ids);
    proof {
        reveal_strlit("feeds");
    }

    let r = vec![
        shipped_channel("bridge.brickell", ChannelKindDto::Bridge, "Brickell bridge", true, true, bridge),
        shipped_channel("weather.miami", ChannelKindDto::Weather, "Miami weather", true, false, weather),
        shipped_channel("official.miami", ChannelKindDto::Official, "Official alerts", true, false, official),
        shipped_channel("hurricane.atlantic", ChannelKindDto::Hurricane, "Atlantic hurricanes", true, false, hurricane),
        shipped_channel("news.local", ChannelKindDto::News, "Headlines", true, false, news),
        shipped_channel("earthquake.significant", ChannelKindDto::Earthquake, "Significant earthquakes", true, false, earthquake),
        shipped_channel("markets.watchlist", ChannelKindDto::Markets, "Market watchlist", false, false, markets),
        shipped_channel("sports.miami", ChannelKindDto::Sports, "Miami teams", false, false, sports),
    ];
    r
}

/// The string members of the list at `key`; empty when it holds no list.
pub open spec fn scope_strings_of(o: JsonObject, key: Seq<char>) -> Seq<Seq<char>> {
    match value_as_array(object_get(o, key)) {
        Some(a) => array_strings(a),
        None => Seq::empty(),
    }
}

impl AppPreferences {
    /// The profile every install starts with, seeded from `catalog`.
    pub fn defaults(catalog: &FeedCatalog) -> (p: AppPreferences)
        ensures
            p.unit_system == UnitSystem::Imperial,
            p.areas@.len() == 1,
            p.areas@[0].id@ == "area.miami"@,
            p.areas@[0].label@ == "Miami, Florida"@,
            p.areas@[0].latitude == Real::Finite(Decimal { mantissa: 257617, exponent: -4i32 }),
            p.areas@[0].longitude == Real::Finite(Decimal { mantissa: -801918i64, exponent: -4i32 }),
            p.areas@[0].time_zone@ == "America/New_York"@,
            p.areas@[0].country_code is Some && p.areas@[0].country_code.unwrap()@ == "US"@,
            p.areas@[0].admin_area is Some && p.areas@[0].admin_area.unwrap()@ == "Florida"@,
            p.areas@[0].source == AlertAreaSource::Preset,
            p.areas@[0].enabled && p.areas@[0].weather_enabled && p.areas@[0].official_alerts_enabled
                && p.areas@[0].tropical_context_enabled,
            p.profile.id@ == "profile.bridge-first"@,
            p.profile.name@ == "Bridge First"@,
            p.profile.preset == ProfilePreset::BridgeFirst,
            p.profile.home_channel_id@ == "bridge.brickell"@,
            p.profile.quiet_hours.enabled,
            p.profile.quiet_hours.start@ == "22:00"@,
            p.profile.quiet_hours.end@ == "06:30"@,
            p.profile.quiet_hours.time_zone@ == "America/New_York"@,
            p.profile.quiet_hours.bypass_emergency,
            default_channels(p.profile.channels@, *catalog),
            p.display.transport == DisplayTransport::Preview,
            p.display.serial_port@ == "auto"@,
            p.display.ble_name@.len() == 0,
            p.display.dwell_seconds == AUTOMATIC_FRAME_DWELL_SECONDS,
            p.display.full_refresh_every == AUTOMATIC_FULL_REFRESH_EVERY,
            p.display.orientation == DisplayOrientation::Upright,
            !p.whatsapp.enabled,
            p.whatsapp.phone_number_id@.len() == 0,
            p.whatsapp.recipient@.len() == 0,
            p.whatsapp.graph_version@ == "v23.0"@,
            p.whatsapp.template_name@ == "bridge_status_update"@,
            p.whatsapp.language_code@ == "en_US"@,
            !p.whatsapp.token_configured,
            p.whatsapp.consent == WhatsAppRecipientConsent::NotRecorded,
            p.whatsapp.consent_recipient is None,
            p.whatsapp.consent_recorded_at_millis is None,
            !p.ais.enabled,
            !p.ais.api_key_configured,
    {
        AppPreferences {
            unit_system: UnitSystem::Imperial,
            areas: default_alert_areas(),
            profile: PolicyProfile {
                id: owned("profile.bridge-first"),
                name: owned("Bridge First"),
                preset: ProfilePreset::BridgeFirst,
                home_channel_id: owned("bridge.brickell"),
                quiet_hours: QuietHours {
                    enabled: true,
                    start: owned("22:00"),
                    end: owned("06:30"),
                    time_zone: owned("America/New_York"),
                    bypass_emergency: true,
                },
                channels: default_channel_preferences(catalog),
            },
            display: DisplaySettings {
                transport: DisplayTransport::Preview,
                serial_port: owned("auto"),
                ble_name: String::new(),
                dwell_seconds: AUTOMATIC_FRAME_DWELL_SECONDS,
                full_refresh_every: AUTOMATIC_FULL_REFRESH_EVERY,
                orientation: DisplayOrientation::Upright,
            },
            whatsapp: WhatsAppSettings {
                enabled: false,
                phone_number_id: String::new(),
                recipient: String::new(),
                graph_version: owned("v23.0"),
                template_name: owned("bridge_status_update"),
                language_code: owned("en_US"),
                token_configured: false,
                consent: WhatsAppRecipientConsent::NotRecorded,
                consent_recipient: None,
                consent_recorded_at_millis: None,
            },
            ais: AisSettings::default(),
        }
    }
}

} // verus!
