//! What a collector hands the runtime: one item of a source's current
//! response, with the attributes its channel rules read.

use vstd::prelude::*;

use crate::json::{object_get, value_as_str, JsonObject};
use crate::number::Real;
use crate::text::{ascii_lower_seq, owned, trim, trim_seq};

verus! {

/// The kind of thing an item reports.
#[derive(Clone, Copy, Debug, PartialEq, Eq, Structural)]
pub enum ItemKind {
    Bridge,
    WeatherCurrent,
    WeatherHourly,
    WeatherMinutely,
    OfficialAlert,
    TropicalCyclone,
    News,
    Earthquake,
    MarketQuote,
    VesselMovement,
}

/// Where an item came from.
#[derive(Clone, Debug, PartialEq)]
pub struct SourceLink {
    pub name: String,
    pub url: Option<String>,
}

/// Where an item is, when it says, and the place's name when it has one.
#[derive(Clone, Debug, PartialEq)]
pub struct Location {
    pub latitude: Option<Real>,
    pub longitude: Option<Real>,
    pub name: Option<String>,
}

/// One item of a collector's response. Times are milliseconds since the
/// Unix epoch.
#[derive(Clone, Debug, PartialEq)]
pub struct CollectorItem {
    pub id: String,
    pub kind: ItemKind,
    pub title: String,
    pub summary: Option<String>,
    pub observed_at_ms: Option<i64>,
    pub starts_at_ms: Option<i64>,
    pub ends_at_ms: Option<i64>,
    pub location: Option<Location>,
    pub source: SourceLink,
    pub attributes: JsonObject,
}

/// The string attribute `key` of an item.
pub open spec fn item_text(item: CollectorItem, key: Seq<char>) -> Option<Seq<char>> {
    value_as_str(object_get(item.attributes, key))
}

/// The link to the item's source, as text.
pub fn item_source_url(item: &CollectorItem) -> (r: Option<String>)
    ensures
        r is Some == item.source.url is Some,
        r is Some ==> r.unwrap()@ == item.source.url.unwrap()@,
{
    match &item.source.url {
        Some(url) => Some(owned(url.as_str())),
        None => None,
    }
}

/// When an item happened: its observation time, else its start, else the
/// earliest instant there is.
pub open spec fn item_time_spec(item: CollectorItem) -> i64 {
    match item.observed_at_ms {
        Some(t) => t,
        None => match item.starts_at_ms {
            Some(t) => t,
            None => i64::MIN,
        },
    }
}

pub fn item_time_ms(item: &CollectorItem) -> (r: i64)
    ensures
        r == item_time_spec(*item),
{
    match item.observed_at_ms {
        Some(t) => t,
        None => match item.starts_at_ms {
            Some(t) => t,
            None => i64::MIN,
        },
    }
}

/// The publisher named by the feed, or a generic name when it names none.
pub fn item_publisher(item: &CollectorItem) -> (r: String)
    ensures
        trim_seq(item.source.name@).len() == 0 ==> r@ == "Syndicated feed"@,
        trim_seq(item.source.name@).len() > 0 ==> r@ == trim_seq(item.source.name@),
{
    let name = trim(item.source.name.as_str());
    if name.unicode_len() == 0 {
        owned("Syndicated feed")
    } else {
        name
    }
}

/// The label of the area an item concerns.
pub fn item_area_label(item: &CollectorItem) -> (r: Option<String>)
    ensures
        r is Some == item_text(*item, "area_label"@) is Some,
        r is Some ==> r.unwrap()@ == item_text(*item, "area_label"@).unwrap(),
{
    match item.attributes.get_str("area_label") {
        Some(s) => Some(owned(s)),
        None => None,
    }
}

/// A storm of the Atlantic basin: a tropical cyclone whose identifier reads
/// `nhc:al…`, in either case.
pub open spec fn atlantic_cyclone_spec(item: CollectorItem) -> bool {
    let id = item.id@;
    &&& item.kind == ItemKind::TropicalCyclone
    &&& id.len() >= 6
    &&& id.take(4) == "nhc:"@
    &&& ascii_lower_seq(id.subrange(4, 6)) == "al"@
}

pub fn atlantic_cyclone(item: &CollectorItem) -> (r: bool)
    ensures
        r == atlantic_cyclone_spec(*item),
{
    if item.kind != ItemKind::TropicalCyclone {
        return false;
    }
    let id = crate::text::str_chars(item.id.as_str());
    proof {
        reveal_strlit("nhc:");
        reveal_strlit("al");
    }
    if id.len() < 6 {
        return false;
    }
    let prefix = id[0] == 'n' && id[1] == 'h' && id[2] == 'c' && id[3] == ':';
    let a = crate::text::to_ascii_lower(id[4]);
    let l = crate::text::to_ascii_lower(id[5]);
    proof {
        assert(prefix == (id@.take(4) == "nhc:"@)) by {
            if prefix {
                assert(id@.take(4) =~= "nhc:"@);
            } else if id@.take(4) == "nhc:"@ {
                assert(id@.take(4)[0] == id@[0]);
                assert(id@.take(4)[1] == id@[1]);
                assert(id@.take(4)[2] == id@[2]);
                assert(id@.take(4)[3] == id@[3]);
            }
        }
        let low = ascii_lower_seq(id@.subrange(4, 6));
        assert(low.len() == 2);
        assert(low[0] == a && low[1] == l);
        if a == 'a' && l == 'l' {
            assert(low =~= "al"@);
        }
    }
    prefix && a == 'a' && l == 'l'
}

/// Whether a vessel of this class may pass the span outside the legal
/// opening schedule.
pub fn schedule_exempt(vessel_class: Option<&str>) -> (r: bool)
    ensures
        r == match vessel_class {
            Some(c) => c@ == "tug + tow"@ || c@ == "tug"@ || c@ == "pilot"@,
            None => false,
        },
{
    match vessel_class {
        Some(c) => crate::text::str_eq(c, "tug + tow") || crate::text::str_eq(c, "tug") || crate::text::str_eq(c, "pilot"),
        None => false,
    }
}

/// The band a lead time in minutes falls in.
pub fn lead_band(minutes: i64) -> (r: &'static str)
    ensures
        minutes <= 5 ==> r@ == "0-5"@,
        6 <= minutes <= 15 ==> r@ == "6-15"@,
        16 <= minutes <= 30 ==> r@ == "16-30"@,
        31 <= minutes <= 60 ==> r@ == "31-60"@,
        60 < minutes ==> r@ == "60+"@,
{
    if minutes <= 5 {
        "0-5"
    } else if minutes <= 15 {
        "6-15"
    } else if minutes <= 30 {
        "16-30"
    } else if minutes <= 60 {
        "31-60"
    } else {
        "60+"
    }
}

} // verus!
