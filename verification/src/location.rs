//! Place search: the query and User-Agent the geocoder is asked with, and
//! the reading of its JSON answer into alert-area candidates.

use vstd::prelude::*;

use crate::dto::LocationSearchResult;
use crate::json::{object_get, value_as_array, JsonNumber, JsonObject, JsonValue};
use crate::number::{Decimal, Real};
use crate::text::{
    ascii_alphabetic, concat, decimal_digits, is_ascii_alphabetic, owned, str_chars, trim,
    trim_seq, u64_to_decimal,
};

verus! {

/// The most bytes of a geocoder response that are read.
pub const MAX_RESPONSE_BYTES: usize = 262_144;

/// The most results a search returns.
pub const MAX_RESULTS: usize = 8;

pub const MIN_QUERY_CHARS: usize = 2;
pub const MAX_QUERY_CHARS: usize = 160;
pub const MIN_USER_AGENT_CHARS: usize = 8;
pub const MAX_USER_AGENT_CHARS: usize = 256;

/// Why a place search failed.
#[derive(Clone, Debug, PartialEq, Eq)]
pub enum LocationSearchError {
    InvalidQuery { length: usize },
    InvalidUserAgent { reason: String },
    Client,
    Network { category: String },
    Http { status: u16 },
    Body { category: String },
    BodyTooLarge { limit: usize },
    InvalidJson { detail: String },
    Schema { detail: String },
}

/// A query the geocoder is asked with: trimmed, two to one hundred and sixty
/// characters.
pub fn validated_query(query: &str) -> (r: Result<String, LocationSearchError>)
    ensures
        ({
            let t = trim_seq(query@);
            match r {
                Ok(q) => q@ == t && MIN_QUERY_CHARS <= t.len() <= MAX_QUERY_CHARS,
                Err(e) => e == LocationSearchError::InvalidQuery { length: t.len() as usize }
                    && !(MIN_QUERY_CHARS <= t.len() <= MAX_QUERY_CHARS),
            }
        }),
{
    let q = trim(query);
    let length = q.unicode_len();
    if MIN_QUERY_CHARS <= length && length <= MAX_QUERY_CHARS {
        Ok(q)
    } else {
        Err(LocationSearchError::InvalidQuery { length })
    }
}

/// A byte an HTTP header value may carry, read per character: a tab, or
/// anything from a space up except DEL.
pub open spec fn header_char(c: char) -> bool {
    c == '\t' || (' ' <= c && c != '\u{7f}')
}

/// Whether an HTTP header value may carry `s`: every byte is a tab, or at
/// least 32 and not 127. Bytes of characters past ASCII are all at least 128,
/// so per character that is `header_char`.
fn header_value_valid(s: &str) -> (ok: bool)
    ensures
        ok == forall|i: int| 0 <= i < s@.len() ==> header_char(#[trigger] s@[i]),
{
    let cs = str_chars(s);
    let mut i: usize = 0;
    while i < cs.len()
        invariant
            cs@ == s@,
            i <= cs.len(),
            forall|j: int| 0 <= j < i ==> header_char(#[trigger] cs@[j]),
        decreases cs.len() - i,
    {
        let c = cs[i];
        if !(c == '\t' || (' ' <= c && c != '\u{7f}')) {
            return false;
        }
        i += 1;
    }
    true
}

/// Whether a character has the Unicode `Alphabetic` property.
pub uninterp spec fn unicode_alphabetic(c: char) -> bool;

/// Calls `char::is_alphabetic`, whose answer is the Unicode `Alphabetic`
/// property; ASCII letters have it.
#[verifier::external_body]
pub(crate) fn alphabetic(c: char) -> (r: bool)
    ensures
        r == unicode_alphabetic(c),
        is_ascii_alphabetic(c) ==> r,
{
    c.is_alphabetic()
}

/// A descriptive User-Agent once trimmed: eight to two hundred and fifty-six
/// characters, a product/version slash, a letter, and nothing a header
/// cannot carry.
pub open spec fn user_agent_valid(ua: Seq<char>) -> bool {
    let t = trim_seq(ua);
    &&& MIN_USER_AGENT_CHARS <= t.len() <= MAX_USER_AGENT_CHARS
    &&& t.contains('/')
    &&& exists|i: int| 0 <= i < t.len() && unicode_alphabetic(#[trigger] t[i])
    &&& forall|i: int| 0 <= i < t.len() ==> header_char(#[trigger] t[i])
}

/// The trimmed User-Agent, when it is descriptive and a valid header value.
pub fn validated_user_agent(user_agent: &str) -> (r: Result<String, LocationSearchError>)
    ensures
        r is Ok <==> user_agent_valid(user_agent@),
        r is Ok ==> r->Ok_0@ == trim_seq(user_agent@),
        r is Err ==> r->Err_0 is InvalidUserAgent,
{
    let t = trim(user_agent);
    let chars = str_chars(t.as_str());
    let length = chars.len();
    if length < MIN_USER_AGENT_CHARS || length > MAX_USER_AGENT_CHARS {
        return Err(LocationSearchError::InvalidUserAgent {
            reason: owned("must contain between 8 and 256 characters"),
        });
    }
    let mut slash = false;
    let mut letter = false;
    let mut i: usize = 0;
    while i < chars.len()
        invariant
            chars@ == trim_seq(user_agent@),
            i <= chars@.len(),
            slash == exists|j: int| 0 <= j < i && chars@[j] == '/',
            letter == exists|j: int| 0 <= j < i && unicode_alphabetic(#[trigger] chars@[j]),
        decreases chars@.len() - i,
    {
        if chars[i] == '/' {
            slash = true;
        }
        if alphabetic(chars[i]) {
            letter = true;
        }
        i = i + 1;
    }
    proof {
        if slash {
            let j = choose|j: int| 0 <= j < i && chars@[j] == '/';
            assert(chars@.contains('/')) by {
                assert(chars@[j] == '/');
            }
        } else {
            assert(!chars@.contains('/')) by {
                if chars@.contains('/') {
                    let j = choose|j: int| 0 <= j < chars@.len() && chars@[j] == '/';
                    assert(0 <= j < i && chars@[j] == '/');
                }
            }
        }
    }
    if !slash || !letter {
        return Err(LocationSearchError::InvalidUserAgent {
            reason: owned("use a product/version token, optionally followed by operator contact information"),
        });
    }
    if !header_value_valid(t.as_str()) {
        return Err(LocationSearchError::InvalidUserAgent {
            reason: owned("contains characters that are not valid in an HTTP header"),
        });
    }
    Ok(t)
}

/// `value` trimmed, when anything is left.
pub fn optional_nonempty(value: Option<String>) -> (r: Option<String>)
    ensures
        match value {
            Some(v) => if trim_seq(v@).len() > 0 {
                r is Some && r.unwrap()@ == trim_seq(v@)
            } else {
                r is None
            },
            None => r is None,
        },
{
    match value {
        Some(v) => {
            let t = trim(v.as_str());
            if t.unicode_len() == 0 {
                None
            } else {
                Some(t)
            }
        },
        None => None,
    }
}

fn schema(detail: String) -> (e: LocationSearchError)
    ensures
        e == (LocationSearchError::Schema { detail }),
{
    LocationSearchError::Schema { detail }
}

/// The description a schema error carries for field `field` of result `index`.
fn field_detail(index: usize, field: &str, problem: &str) -> (s: String)
    ensures
        s@ == "results["@ + decimal_digits(index as nat) + "]."@ + field@ + problem@,
{
    let digits = u64_to_decimal(index as u64);
    let a = concat("results[", digits.as_str());
    let b = concat(a.as_str(), "].");
    let c = concat(b.as_str(), field);
    concat(c.as_str(), problem)
}

/// `value` trimmed; a schema error for result `index` when nothing is left.
pub fn required_nonempty(value: String, index: usize, field: &str) -> (r: Result<String, LocationSearchError>)
    ensures
        trim_seq(value@).len() > 0 <==> r is Ok,
        r is Ok ==> r->Ok_0@ == trim_seq(value@),
        r is Err ==> r->Err_0 is Schema,
{
    match optional_nonempty(Some(value)) {
        Some(v) => Ok(v),
        None => Err(schema(field_detail(index, field, " cannot be empty"))),
    }
}

/// A JSON number as a real number.
pub open spec fn number_real(n: JsonNumber) -> Real {
    match n {
        JsonNumber::Integer(i) => if i64::MIN <= i <= i64::MAX {
            Real::Finite(Decimal { mantissa: i as i64, exponent: 0 })
        } else {
            Real::NonFinite
        },
        JsonNumber::Float(d) => Real::Finite(d),
    }
}

/// An optional string field, as a deserializer reads it: absent or null is
/// nothing, a string is itself, and anything else is refused.
pub open spec fn optional_text(o: JsonObject, key: Seq<char>) -> Option<Option<Seq<char>>> {
    match object_get(o, key) {
        None => Some(None),
        Some(JsonValue::Null) => Some(None),
        Some(JsonValue::String(s)) => Some(Some(s@)),
        Some(_) => None,
    }
}

/// A geocoder result that deserializes: an unsigned integer `id`, a string
/// `name`, numeric coordinates, and optional strings for the rest.
pub open spec fn result_shape_ok(v: JsonValue) -> bool {
    match v {
        JsonValue::Object(o) => {
            &&& object_get(o, "id"@) matches Some(JsonValue::Number(JsonNumber::Integer(i))) && 0 <= i <= u64::MAX
            &&& object_get(o, "name"@) is Some && object_get(o, "name"@).unwrap() is String
            &&& object_get(o, "latitude"@) is Some && object_get(o, "latitude"@).unwrap() is Number
            &&& object_get(o, "longitude"@) is Some && object_get(o, "longitude"@).unwrap() is Number
            &&& optional_text(o, "timezone"@) is Some
            &&& optional_text(o, "country_code"@) is Some
            &&& optional_text(o, "admin1"@) is Some
            &&& optional_text(o, "country"@) is Some
        },
        _ => false,
    }
}

/// A trimmed optional text, when anything is left.
pub open spec fn nonempty_spec(t: Option<Seq<char>>) -> Option<Seq<char>> {
    match t {
        Some(s) => if trim_seq(s).len() > 0 { Some(trim_seq(s)) } else { None },
        None => None,
    }
}

pub open spec fn coordinate_in(r: Real, limit: i64) -> bool {
    crate::preferences::coordinate_within(r, limit)
}

/// The checks a well-shaped result passes: a name with text, coordinates in
/// range, and a two-letter country code when it has one.
pub open spec fn result_valid(o: JsonObject) -> bool {
    let name = object_get(o, "name"@).unwrap()->String_0@;
    let code = nonempty_spec(optional_text(o, "country_code"@).unwrap());
    &&& trim_seq(name).len() > 0
    &&& coordinate_in(number_real(object_get(o, "latitude"@).unwrap()->Number_0), 90)
    &&& coordinate_in(number_real(object_get(o, "longitude"@).unwrap()->Number_0), 180)
    &&& code is Some ==> crate::preferences::country_code_valid(code.unwrap())
}

/// The label of a result: its name, region and country, joined by commas.
pub open spec fn result_label(name: Seq<char>, admin: Option<Seq<char>>, country: Option<Seq<char>>) -> Seq<char> {
    let with_admin = match admin {
        Some(a) => name + ", "@ + a,
        None => name,
    };
    match country {
        Some(c) => with_admin + ", "@ + c,
        None => with_admin,
    }
}

/// The result an object of the geocoder's list becomes.
pub open spec fn result_matches(o: JsonObject, r: LocationSearchResult) -> bool {
    let id = object_get(o, "id"@).unwrap()->Number_0->Integer_0;
    let name = trim_seq(object_get(o, "name"@).unwrap()->String_0@);
    let admin = nonempty_spec(optional_text(o, "admin1"@).unwrap());
    let country = nonempty_spec(optional_text(o, "country"@).unwrap());
    let code = nonempty_spec(optional_text(o, "country_code"@).unwrap());
    let zone = nonempty_spec(optional_text(o, "timezone"@).unwrap());
    &&& r.id@ == "open-meteo:"@ + decimal_digits(id as nat)
    &&& r.label@ == result_label(name, admin, country)
    &&& r.latitude == number_real(object_get(o, "latitude"@).unwrap()->Number_0)
    &&& r.longitude == number_real(object_get(o, "longitude"@).unwrap()->Number_0)
    &&& r.time_zone@ == (if zone is Some { zone.unwrap() } else { "UTC"@ })
    &&& (r.country_code is Some <==> code is Some)
    &&& (code is Some ==> r.country_code.unwrap()@ == code.unwrap())
    &&& (r.admin_area is Some <==> admin is Some)
    &&& (admin is Some ==> r.admin_area.unwrap()@ == admin.unwrap())
}

pub fn number_as_real(n: JsonNumber) -> (r: Real)
    ensures
        r == number_real(n),
{
    match n {
        JsonNumber::Integer(i) => {
            if -0x8000_0000_0000_0000 <= i && i <= 0x7fff_ffff_ffff_ffff {
                Real::Finite(Decimal::new(i as i64, 0))
            } else {
                Real::NonFinite
            }
        },
        JsonNumber::Float(d) => Real::Finite(d),
    }
}

fn optional_field(o: &JsonObject, key: &str) -> (r: Result<Option<String>, ()>)
    ensures
        match r {
            Ok(Some(s)) => optional_text(*o, key@) == Some(Some(s@)),
            Ok(None) => optional_text(*o, key@) == Some(None::<Seq<char>>),
            Err(_) => optional_text(*o, key@) is None,
        },
{
    match o.get(key) {
        None => Ok(None),
        Some(JsonValue::Null) => Ok(None),
        Some(JsonValue::String(s)) => Ok(Some(owned(s.as_str()))),
        Some(_) => Err(()),
    }
}

/// Reads one result of the geocoder's list.
pub fn parse_result(index: usize, value: &JsonValue) -> (r: Result<LocationSearchResult, LocationSearchError>)
    ensures
        r is Ok <==> result_shape_ok(*value) && result_valid(value->Object_0),
        r is Ok ==> result_matches(value->Object_0, r->Ok_0),
        r is Err ==> r->Err_0 is Schema,
{
    let invalid_shape = field_detail(index, "", " is invalid");
    let o = match value {
        JsonValue::Object(o) => o,
        _ => return Err(schema(invalid_shape)),
    };
    let id = match o.get_number("id") {
        Some(JsonNumber::Integer(i)) => {
            if i < 0 || i > 0xffff_ffff_ffff_ffff {
                return Err(schema(invalid_shape));
            }
            i as u64
        },
        _ => return Err(schema(invalid_shape)),
    };
    let name = match o.get_str("name") {
        Some(n) => owned(n),
        None => return Err(schema(invalid_shape)),
    };
    let latitude = match o.get_number("latitude") {
        Some(n) => number_as_real(n),
        None => return Err(schema(invalid_shape)),
    };
    let longitude = match o.get_number("longitude") {
        Some(n) => number_as_real(n),
        None => return Err(schema(invalid_shape)),
    };
    let timezone = match optional_field(o, "timezone") {
        Ok(v) => v,
        Err(_) => return Err(schema(invalid_shape)),
    };
    let country_code = match optional_field(o, "country_code") {
        Ok(v) => v,
        Err(_) => return Err(schema(invalid_shape)),
    };
    let admin1 = match optional_field(o, "admin1") {
        Ok(v) => v,
        Err(_) => return Err(schema(invalid_shape)),
    };
    let country = match optional_field(o, "country") {
        Ok(v) => v,
        Err(_) => return Err(schema(invalid_shape)),
    };
    let name = required_nonempty(name, index, "name")?;
    if !crate::preferences::coordinate_ok(latitude, 90) {
        return Err(schema(field_detail(index, "latitude", " is outside its valid range")));
    }
    if !crate::preferences::coordinate_ok(longitude, 180) {
        return Err(schema(field_detail(index, "longitude", " is outside its valid range")));
    }
    let admin_area = optional_nonempty(admin1);
    let country = optional_nonempty(country);
    let country_code = optional_nonempty(country_code);
    if let Some(code) = &country_code {
        let c = str_chars(code.as_str());
        let ok = c.len() == 2 && ascii_alphabetic(c[0]) && ascii_alphabetic(c[1]);
        proof {
            if c@.len() == 2 {
                assert(ok == (is_ascii_alphabetic(c@[0]) && is_ascii_alphabetic(c@[1])));
                assert(ok ==> forall|i: int| 0 <= i < 2 ==> is_ascii_alphabetic(#[trigger] c@[i]));
            }
        }
        if !ok {
            return Err(schema(field_detail(index, "country_code", " must be a two-letter country code")));
        }
    }
    let time_zone = match optional_nonempty(timezone) {
        Some(z) => z,
        None => owned("UTC"),
    };
    let mut label = owned(name.as_str());
    if let Some(a) = &admin_area {
        let with_comma = concat(label.as_str(), ", ");
        label = concat(with_comma.as_str(), a.as_str());
    }
    if let Some(c) = &country {
        let with_comma = concat(label.as_str(), ", ");
        label = concat(with_comma.as_str(), c.as_str());
    }
    let digits = u64_to_decimal(id);
    Ok(LocationSearchResult {
        id: concat("open-meteo:", digits.as_str()),
        label,
        latitude,
        longitude,
        time_zone,
        country_code,
        admin_area,
    })
}

/// Refuses a response body longer than the geocoder is ever read for.
pub fn check_response_size(length: usize) -> (r: Result<(), LocationSearchError>)
    ensures
        r is Ok <==> length <= MAX_RESPONSE_BYTES,
        r is Err ==> r->Err_0 == (LocationSearchError::BodyTooLarge { limit: MAX_RESPONSE_BYTES }),
{
    if length > MAX_RESPONSE_BYTES {
        Err(LocationSearchError::BodyTooLarge { limit: MAX_RESPONSE_BYTES })
    } else {
        Ok(())
    }
}

/// What reading the list `a` gives: the first eight entries, each read as a
/// result, or a schema error when one of them is not a valid result.
pub open spec fn results_outcome(a: Seq<JsonValue>, r: Result<Vec<LocationSearchResult>, LocationSearchError>) -> bool {
    let n = if a.len() <= MAX_RESULTS { a.len() } else { MAX_RESULTS as nat };
    &&& (r is Ok <==> forall|i: int| 0 <= i < n ==> result_shape_ok(#[trigger] a[i]) && result_valid(a[i]->Object_0))
    &&& r is Ok ==> r->Ok_0@.len() == n && forall|i: int| 0 <= i < n ==> result_matches((#[trigger] a[i])->Object_0, r->Ok_0@[i])
    &&& r is Err ==> r->Err_0 is Schema
}

/// Reads a parsed geocoder response: an object whose optional `results`
/// list gives at most eight places, in order. A response without `results`
/// found nothing.
#[verifier::loop_isolation(false)]
pub fn location_search_results(root: &JsonValue) -> (r: Result<Vec<LocationSearchResult>, LocationSearchError>)
    ensures
        !(root is Object) ==> r is Err && r->Err_0 is Schema,
        root is Object && object_get(root->Object_0, "results"@) is None ==> r is Ok && r->Ok_0@.len() == 0,
        root is Object && object_get(root->Object_0, "results"@) is Some && !(object_get(root->Object_0, "results"@).unwrap() is Array)
            ==> r is Err && r->Err_0 is Schema,
        root is Object && value_as_array(object_get(root->Object_0, "results"@)) is Some
            ==> results_outcome(value_as_array(object_get(root->Object_0, "results"@)).unwrap(), r),
{
    let o = match root {
        JsonValue::Object(o) => o,
        _ => return Err(schema(owned("expected a JSON object at the response root"))),
    };
    let raw = match o.get("results") {
        None => return Ok(Vec::new()),
        Some(JsonValue::Array(a)) => a,
        Some(_) => return Err(schema(owned("results must be an array when present"))),
    };
    let n = if raw.len() <= MAX_RESULTS { raw.len() } else { MAX_RESULTS };
    let mut out: Vec<LocationSearchResult> = Vec::new();
    let mut i: usize = 0;
    while i < n
        invariant
            n <= raw@.len(),
            i <= n,
            out@.len() == i,
            forall|k: int| 0 <= k < i ==> result_shape_ok(#[trigger] raw@[k]) && result_valid(raw@[k]->Object_0),
            forall|k: int| 0 <= k < i ==> result_matches((#[trigger] raw@[k])->Object_0, out@[k]),
        decreases n - i,
    {
        let r = parse_result(i, &raw[i])?;
        out.push(r);
        i = i + 1;
    }
    Ok(out)
}

/// `v` is a geocoder place the reader can use: a well-shaped result whose
/// trimmed name has text, whose latitude is a finite number from -90 to 90
/// and longitude from -180 to 180, and whose country code, once trimmed, is
/// absent, empty or two ASCII letters.
pub open spec fn usable_place(v: JsonValue) -> bool {
    &&& result_shape_ok(v)
    &&& trim_seq(object_get(v->Object_0, "name"@).unwrap()->String_0@).len() > 0
    &&& number_real(object_get(v->Object_0, "latitude"@).unwrap()->Number_0) matches Real::Finite(lat)
        && (Decimal { mantissa: -90i64, exponent: 0 }).le_spec(lat) && lat.le_spec(Decimal { mantissa: 90, exponent: 0 })
    &&& number_real(object_get(v->Object_0, "longitude"@).unwrap()->Number_0) matches Real::Finite(lon)
        && (Decimal { mantissa: -180i64, exponent: 0 }).le_spec(lon) && lon.le_spec(Decimal { mantissa: 180, exponent: 0 })
    &&& match optional_text(v->Object_0, "country_code"@).unwrap() {
        Some(c) => trim_seq(c).len() == 0 || (trim_seq(c).len() == 2 && is_ascii_alphabetic(trim_seq(c)[0])
            && is_ascii_alphabetic(trim_seq(c)[1])),
        None => true,
    }
}

/// Every usable place is accepted, southern and western hemispheres alike:
/// when each of the first eight results is a usable place, reading the list
/// succeeds with one result per place, in order, each at the place's own
/// coordinates.
pub proof fn lemma_usable_places_are_accepted(a: Seq<JsonValue>, r: Result<Vec<LocationSearchResult>, LocationSearchError>)
    requires
        results_outcome(a, r),
        forall|i: int| 0 <= i < a.len() && i < MAX_RESULTS ==> #[trigger] usable_place(a[i]),
    ensures
        r is Ok,
        r->Ok_0@.len() == (if a.len() <= MAX_RESULTS { a.len() } else { MAX_RESULTS as nat }),
        forall|i: int| 0 <= i < r->Ok_0@.len() ==> {
            &&& (#[trigger] r->Ok_0@[i]).latitude == number_real(object_get(a[i]->Object_0, "latitude"@).unwrap()->Number_0)
            &&& r->Ok_0@[i].longitude == number_real(object_get(a[i]->Object_0, "longitude"@).unwrap()->Number_0)
        },
{
    let n = if a.len() <= MAX_RESULTS { a.len() } else { MAX_RESULTS as nat };
    assert forall|i: int| 0 <= i < n implies result_shape_ok(#[trigger] a[i]) && result_valid(a[i]->Object_0) by {
        assert(usable_place(a[i]));
        let o = a[i]->Object_0;
        let code = nonempty_spec(optional_text(o, "country_code"@).unwrap());
        if code is Some {
            let c = code.unwrap();
            assert forall|k: int| 0 <= k < c.len() implies is_ascii_alphabetic(#[trigger] c[k]) by {
                if k == 0 {} else {}
            }
        }
    }
}

} // verus!
