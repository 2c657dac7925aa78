//! Which channels a preference save touches: a channel whose settings
//! changed, and every area-reading channel when an area it reads changed.

use vstd::prelude::*;

use crate::ais::{channel_named, channel_upto, find_channel};
use crate::dto::{AlertArea, AppPreferences, ChannelKindDto, ChannelPreference, DestinationIdDto};
use crate::json::{array_strings, members_get_from, object_get, object_has, value_as_array, JsonMember, JsonNumber, JsonObject, JsonValue};
use crate::number::{exact_le, scaled_le, Decimal, Real};
use crate::text::{owned, str_eq};

verus! {

/// Two JSON numbers are the same when both are integers of one value or
/// both are fractional numbers of one value; an integer never equals a
/// fractional number.
pub open spec fn number_same(a: JsonNumber, b: JsonNumber) -> bool {
    match a {
        JsonNumber::Integer(x) => match b {
            JsonNumber::Integer(y) => x == y,
            JsonNumber::Float(_) => false,
        },
        JsonNumber::Float(x) => match b {
            JsonNumber::Integer(_) => false,
            JsonNumber::Float(y) => scaled_le(x.mantissa as int, x.exponent as int, y.mantissa as int, y.exponent as int)
                && scaled_le(y.mantissa as int, y.exponent as int, x.mantissa as int, x.exponent as int),
        },
    }
}

/// Member `i` is the first with its key.
pub open spec fn first_key(ms: Seq<JsonMember>, i: int) -> bool {
    forall|j: int| 0 <= j < i ==> ms[j].key@ != ms[i].key@
}

/// Two JSON values are the same: equal scalars, arrays of the same values
/// in order, and objects with the same keys holding the same values.
pub open spec fn json_same(a: JsonValue, b: JsonValue) -> bool
    decreases a,
{
    match a {
        JsonValue::Null => b is Null,
        JsonValue::Bool(x) => b is Bool && b->Bool_0 == x,
        JsonValue::Number(x) => b is Number && number_same(x, b->Number_0),
        JsonValue::String(x) => b is String && b->String_0@ == x@,
        JsonValue::Array(xs) => b is Array && xs@.len() == b->Array_0@.len()
            && forall|i: int| 0 <= i < xs@.len() ==> json_same(#[trigger] xs@[i], b->Array_0@[i]),
        JsonValue::Object(o) => b is Object && {
            let p = b->Object_0;
            &&& forall|i: int| 0 <= i < o.members@.len() ==> object_has(p, #[trigger] o.members@[i].key@)
            &&& forall|j: int| 0 <= j < p.members@.len() ==> object_has(o, #[trigger] p.members@[j].key@)
            &&& forall|i: int| 0 <= i < o.members@.len() && first_key(o.members@, i)
                ==> json_same(#[trigger] o.members@[i].value, object_get(p, o.members@[i].key@).unwrap())
        },
    }
}


fn numbers_equal(a: JsonNumber, b: JsonNumber) -> (r: bool)
    ensures
        r == number_same(a, b),
{
    match a {
        JsonNumber::Integer(x) => match b {
            JsonNumber::Integer(y) => x == y,
            JsonNumber::Float(_) => false,
        },
        JsonNumber::Float(x) => match b {
            JsonNumber::Integer(_) => false,
            JsonNumber::Float(y) => {
                exact_le(x.mantissa as i128, x.exponent as i64, y.mantissa as i128, y.exponent as i64)
                    && exact_le(y.mantissa as i128, y.exponent as i64, x.mantissa as i128, x.exponent as i64)
            },
        },
    }
}

fn is_first_key(ms: &Vec<JsonMember>, i: usize) -> (r: bool)
    requires
        i < ms@.len(),
    ensures
        r == first_key(ms@, i as int),
{
    let mut j: usize = 0;
    while j < i
        invariant
            i < ms@.len(),
            j <= i,
            forall|k: int| 0 <= k < j ==> ms@[k].key@ != ms@[i as int].key@,
        decreases i - j,
    {
        if str_eq(ms[j].key.as_str(), ms[i].key.as_str()) {
            return false;
        }
        j = j + 1;
    }
    true
}

/// Whether two JSON values are the same, as `json_same` says.
pub fn json_equal(a: &JsonValue, b: &JsonValue) -> (r: bool)
    ensures
        r == json_same(*a, *b),
    decreases a,
{
    match a {
        JsonValue::Null => match b {
            JsonValue::Null => true,
            _ => false,
        },
        JsonValue::Bool(x) => match b {
            JsonValue::Bool(y) => *x == *y,
            _ => false,
        },
        JsonValue::Number(x) => match b {
            JsonValue::Number(y) => numbers_equal(*x, *y),
            _ => false,
        },
        JsonValue::String(x) => match b {
            JsonValue::String(y) => str_eq(x.as_str(), y.as_str()),
            _ => false,
        },
        JsonValue::Array(xs) => match b {
            JsonValue::Array(ys) => {
                if xs.len() != ys.len() {
                    return false;
                }
                let mut i: usize = 0;
                while i < xs.len()
                    invariant
                        i <= xs@.len(),
                        xs@.len() == ys@.len(),
                        *a == JsonValue::Array(*xs),
                        *b == JsonValue::Array(*ys),
                        forall|k: int| 0 <= k < i ==> json_same(#[trigger] xs@[k], ys@[k]),
                    decreases xs@.len() - i,
                {
                    proof {
                        assert(decreases_to!(*a => (*a)->Array_0));
                        assert(decreases_to!(*xs => xs@));
                        assert(decreases_to!(xs@ => xs@[i as int]));
                        assert(decreases_to!(a => xs@[i as int]));
                    }
                    if !json_equal(&xs[i], &ys[i]) {
                        return false;
                    }
                    i = i + 1;
                }
                true
            },
            _ => false,
        },
        JsonValue::Object(o) => match b {
            JsonValue::Object(p) => {
                proof {
                    assert(decreases_to!(*a => (*a)->Object_0));
                }
                object_equal(o, p)
            },
            _ => false,
        },
    }
}



/// Whether two JSON objects are the same, as `json_same` says of them.
pub fn object_equal(o: &JsonObject, p: &JsonObject) -> (r: bool)
    ensures
        r == json_same(JsonValue::Object(*o), JsonValue::Object(*p)),
    decreases o,
{
    let mut i: usize = 0;
    while i < o.members.len()
        invariant
            i <= o.members@.len(),
            forall|k: int| 0 <= k < i ==> object_has(*p, #[trigger] o.members@[k].key@),
            forall|k: int| 0 <= k < i && first_key(o.members@, k)
                ==> json_same(#[trigger] o.members@[k].value, object_get(*p, o.members@[k].key@).unwrap()),
        decreases o.members@.len() - i,
    {
        match p.get(o.members[i].key.as_str()) {
            None => {
                proof {
                    assert(!object_has(*p, o.members@[i as int].key@));
                    assert(!json_same(JsonValue::Object(*o), JsonValue::Object(*p)));
                }
                return false;
            },
            Some(pv) => {
                if is_first_key(&o.members, i) {
                    proof {
                        assert(decreases_to!(*o => o.members));
                        assert(decreases_to!(o.members => o.members@));
                        assert(decreases_to!(o.members@ => o.members@[i as int]));
                        assert(decreases_to!(o.members@[i as int] => o.members@[i as int].value));
                        assert(decreases_to!(o => o.members@[i as int].value));
                    }
                    if !json_equal(&o.members[i].value, pv) {
                        return false;
                    }
                }
            },
        }
        i = i + 1;
    }
    let mut j: usize = 0;
    while j < p.members.len()
        invariant
            j <= p.members@.len(),
            forall|k: int| 0 <= k < o.members@.len() ==> object_has(*p, #[trigger] o.members@[k].key@),
            forall|k: int| 0 <= k < o.members@.len() && first_key(o.members@, k)
                ==> json_same(#[trigger] o.members@[k].value, object_get(*p, o.members@[k].key@).unwrap()),
            forall|k: int| 0 <= k < j ==> object_has(*o, #[trigger] p.members@[k].key@),
        decreases p.members@.len() - j,
    {
        if o.get(p.members[j].key.as_str()).is_none() {
            proof {
                assert(!object_has(*o, p.members@[j as int].key@));
            }
            return false;
        }
        j = j + 1;
    }
    true
}

pub open spec fn text_same(a: Option<String>, b: Option<String>) -> bool {
    match a {
        None => b is None,
        Some(x) => b is Some && b.unwrap()@ == x@,
    }
}

fn texts_equal(a: &Option<String>, b: &Option<String>) -> (r: bool)
    ensures
        r == text_same(*a, *b),
{
    match a {
        None => b.is_none(),
        Some(x) => match b {
            Some(y) => str_eq(x.as_str(), y.as_str()),
            None => false,
        },
    }
}

/// Two coordinates are the same when both are finite and of one value; a
/// coordinate that is not a finite number equals nothing.
pub open spec fn real_same(a: Real, b: Real) -> bool {
    match a {
        Real::Finite(x) => match b {
            Real::Finite(y) => x.le_spec(y) && y.le_spec(x),
            Real::NonFinite => false,
        },
        Real::NonFinite => false,
    }
}

fn reals_equal(a: Real, b: Real) -> (r: bool)
    ensures
        r == real_same(a, b),
{
    match a {
        Real::Finite(x) => match b {
            Real::Finite(y) => x.le(&y) && y.le(&x),
            Real::NonFinite => false,
        },
        Real::NonFinite => false,
    }
}

/// Two channels with the same settings.
pub open spec fn channel_same(a: ChannelPreference, b: ChannelPreference) -> bool {
    &&& a.id@ == b.id@
    &&& a.kind == b.kind
    &&& a.title@ == b.title@
    &&& a.enabled == b.enabled
    &&& a.presence == b.presence
    &&& a.interrupt_preset == b.interrupt_preset
    &&& a.destinations@ == b.destinations@
    &&& a.max_age_minutes == b.max_age_minutes
    &&& a.max_items == b.max_items
    &&& a.rotation_seconds == b.rotation_seconds
    &&& json_same(JsonValue::Object(a.scope), JsonValue::Object(b.scope))
}

fn destinations_equal(a: &Vec<DestinationIdDto>, b: &Vec<DestinationIdDto>) -> (r: bool)
    ensures
        r == (a@ == b@),
{
    if a.len() != b.len() {
        return false;
    }
    let mut i: usize = 0;
    while i < a.len()
        invariant
            i <= a@.len(),
            a@.len() == b@.len(),
            forall|k: int| 0 <= k < i ==> a@[k] == b@[k],
        decreases a@.len() - i,
    {
        if a[i] != b[i] {
            return false;
        }
        i = i + 1;
    }
    proof {
        assert(a@ =~= b@);
    }
    true
}

fn scope_equal(a: &JsonObject, b: &JsonObject) -> (r: bool)
    ensures
        r == json_same(JsonValue::Object(*a), JsonValue::Object(*b)),
{
    object_equal(a, b)
}


fn channels_equal(a: &ChannelPreference, b: &ChannelPreference) -> (r: bool)
    ensures
        r == channel_same(*a, *b),
{
    str_eq(a.id.as_str(), b.id.as_str())
        && a.kind == b.kind
        && str_eq(a.title.as_str(), b.title.as_str())
        && a.enabled == b.enabled
        && a.presence == b.presence
        && a.interrupt_preset == b.interrupt_preset
        && destinations_equal(&a.destinations, &b.destinations)
        && a.max_age_minutes == b.max_age_minutes
        && a.max_items == b.max_items
        && a.rotation_seconds == b.rotation_seconds
        && scope_equal(&a.scope, &b.scope)
}

/// Two areas with the same settings.
pub open spec fn area_same(a: AlertArea, b: AlertArea) -> bool {
    &&& a.id@ == b.id@
    &&& a.label@ == b.label@
    &&& real_same(a.latitude, b.latitude)
    &&& real_same(a.longitude, b.longitude)
    &&& a.time_zone@ == b.time_zone@
    &&& text_same(a.country_code, b.country_code)
    &&& text_same(a.admin_area, b.admin_area)
    &&& a.source == b.source
    &&& a.enabled == b.enabled
    &&& a.weather_enabled == b.weather_enabled
    &&& a.official_alerts_enabled == b.official_alerts_enabled
    &&& a.tropical_context_enabled == b.tropical_context_enabled
}

fn areas_equal(a: &AlertArea, b: &AlertArea) -> (r: bool)
    ensures
        r == area_same(*a, *b),
{
    str_eq(a.id.as_str(), b.id.as_str())
        && str_eq(a.label.as_str(), b.label.as_str())
        && reals_equal(a.latitude, b.latitude)
        && reals_equal(a.longitude, b.longitude)
        && str_eq(a.time_zone.as_str(), b.time_zone.as_str())
        && texts_equal(&a.country_code, &b.country_code)
        && texts_equal(&a.admin_area, &b.admin_area)
        && a.source == b.source
        && a.enabled == b.enabled
        && a.weather_enabled == b.weather_enabled
        && a.official_alerts_enabled == b.official_alerts_enabled
        && a.tropical_context_enabled == b.tropical_context_enabled
}

/// The area kept under `id`: when two share an id, the later one.
pub open spec fn area_upto(areas: Seq<AlertArea>, id: Seq<char>, n: int) -> Option<AlertArea>
    decreases n,
{
    if n <= 0 || n > areas.len() {
        None
    } else if areas[n - 1].id@ == id {
        Some(areas[n - 1])
    } else {
        area_upto(areas, id, n - 1)
    }
}

pub open spec fn area_named(areas: Seq<AlertArea>, id: Seq<char>) -> Option<AlertArea> {
    area_upto(areas, id, areas.len() as int)
}

fn find_area<'a>(areas: &'a Vec<AlertArea>, id: &str) -> (r: Option<&'a AlertArea>)
    ensures
        match r {
            Some(a) => area_named(areas@, id@) == Some(*a),
            None => area_named(areas@, id@) is None,
        },
{
    let mut n: usize = areas.len();
    while n > 0
        invariant
            n <= areas@.len(),
            area_named(areas@, id@) == area_upto(areas@, id@, n as int),
        decreases n,
    {
        if str_eq(areas[n - 1].id.as_str(), id) {
            return Some(&areas[n - 1]);
        }
        n = n - 1;
    }
    None
}

/// A channel id whose settings differ between two profiles, or that only
/// one of them has.
pub open spec fn channel_changed(old: AppPreferences, new: AppPreferences, id: Seq<char>) -> bool {
    match channel_named(old.profile.channels@, id) {
        None => channel_named(new.profile.channels@, id) is Some,
        Some(a) => match channel_named(new.profile.channels@, id) {
            None => true,
            Some(b) => !channel_same(a, b),
        },
    }
}

/// An area id whose settings differ between two profiles, or that only one
/// of them has.
pub open spec fn area_changed(old: AppPreferences, new: AppPreferences, id: Seq<char>) -> bool {
    match area_named(old.areas@, id) {
        None => area_named(new.areas@, id) is Some,
        Some(a) => match area_named(new.areas@, id) {
            None => true,
            Some(b) => !area_same(a, b),
        },
    }
}

pub open spec fn some_area_changed(old: AppPreferences, new: AppPreferences) -> bool {
    exists|id: Seq<char>| #[trigger] area_changed(old, new, id)
}

/// A channel that reads areas and may read a changed one: it selects no
/// list of areas, or its list names a changed area.
pub open spec fn reads_changed_area(c: ChannelPreference, old: AppPreferences, new: AppPreferences) -> bool {
    &&& (c.kind == ChannelKindDto::Weather || c.kind == ChannelKindDto::Official || c.kind == ChannelKindDto::Hurricane)
    &&& match value_as_array(object_get(c.scope, "areaIds"@)) {
        None => true,
        Some(a) => exists|i: int| 0 <= i < array_strings(a).len() && area_changed(old, new, #[trigger] array_strings(a)[i]),
    }
}

/// Every channel of both profiles, old first.
pub open spec fn all_channels(old: AppPreferences, new: AppPreferences) -> Seq<ChannelPreference> {
    old.profile.channels@ + new.profile.channels@
}

/// A channel a save touches: its settings changed, or an area changed and
/// a channel with its id reads a changed area.
pub open spec fn touched(old: AppPreferences, new: AppPreferences, id: Seq<char>) -> bool {
    ||| channel_changed(old, new, id)
    ||| (some_area_changed(old, new) && exists|i: int| 0 <= i < all_channels(old, new).len()
            && (#[trigger] all_channels(old, new)[i]).id@ == id && reads_changed_area(all_channels(old, new)[i], old, new))
}


proof fn lemma_named_area_listed(areas: Seq<AlertArea>, id: Seq<char>, n: int)
    requires
        area_upto(areas, id, n) is Some,
    ensures
        exists|i: int| 0 <= i < n && i < areas.len() && (#[trigger] areas[i]).id@ == id,
    decreases n,
{
    if n > 0 && n <= areas.len() && areas[n - 1].id@ != id {
        lemma_named_area_listed(areas, id, n - 1);
    }
}

proof fn lemma_named_channel_listed(cs: Seq<ChannelPreference>, id: Seq<char>, n: int)
    requires
        channel_upto(cs, id, n) is Some,
    ensures
        exists|i: int| 0 <= i < n && i < cs.len() && (#[trigger] cs[i]).id@ == id,
    decreases n,
{
    if n > 0 && n <= cs.len() && cs[n - 1].id@ != id {
        lemma_named_channel_listed(cs, id, n - 1);
    }
}

fn area_differs(old: &AppPreferences, new: &AppPreferences, id: &str) -> (r: bool)
    ensures
        r == area_changed(*old, *new, id@),
{
    match find_area(&old.areas, id) {
        None => find_area(&new.areas, id).is_some(),
        Some(a) => match find_area(&new.areas, id) {
            None => true,
            Some(b) => !areas_equal(a, b),
        },
    }
}

fn channel_differs(old: &AppPreferences, new: &AppPreferences, id: &str) -> (r: bool)
    ensures
        r == channel_changed(*old, *new, id@),
{
    match find_channel(&old.profile.channels, id) {
        None => find_channel(&new.profile.channels, id).is_some(),
        Some(a) => match find_channel(&new.profile.channels, id) {
            None => true,
            Some(b) => !channels_equal(a, b),
        },
    }
}

fn any_area_changed(old: &AppPreferences, new: &AppPreferences) -> (r: bool)
    ensures
        r == some_area_changed(*old, *new),
{
    let mut i: usize = 0;
    while i < old.areas.len()
        invariant
            i <= old.areas@.len(),
            forall|k: int| 0 <= k < i ==> !area_changed(*old, *new, #[trigger] old.areas@[k].id@),
        decreases old.areas@.len() - i,
    {
        if area_differs(old, new, old.areas[i].id.as_str()) {
            return true;
        }
        i = i + 1;
    }
    let mut j: usize = 0;
    while j < new.areas.len()
        invariant
            j <= new.areas@.len(),
            forall|k: int| 0 <= k < old.areas@.len() ==> !area_changed(*old, *new, #[trigger] old.areas@[k].id@),
            forall|k: int| 0 <= k < j ==> !area_changed(*old, *new, #[trigger] new.areas@[k].id@),
        decreases new.areas@.len() - j,
    {
        if area_differs(old, new, new.areas[j].id.as_str()) {
            return true;
        }
        j = j + 1;
    }
    proof {
        assert forall|id: Seq<char>| !#[trigger] area_changed(*old, *new, id) by {
            if area_changed(*old, *new, id) {
                if area_named(old.areas@, id) is Some {
                    lemma_named_area_listed(old.areas@, id, old.areas@.len() as int);
                    let k = choose|k: int| 0 <= k < old.areas@.len() && (#[trigger] old.areas@[k]).id@ == id;
                    assert(!area_changed(*old, *new, old.areas@[k].id@));
                } else {
                    lemma_named_area_listed(new.areas@, id, new.areas@.len() as int);
                    let k = choose|k: int| 0 <= k < new.areas@.len() && (#[trigger] new.areas@[k]).id@ == id;
                    assert(!area_changed(*old, *new, new.areas@[k].id@));
                }
            }
        }
    }
    false
}

fn reads_changed(c: &ChannelPreference, old: &AppPreferences, new: &AppPreferences) -> (r: bool)
    ensures
        r == reads_changed_area(*c, *old, *new),
{
    if !(c.kind == ChannelKindDto::Weather || c.kind == ChannelKindDto::Official || c.kind == ChannelKindDto::Hurricane) {
        return false;
    }
    if c.scope.get_array("areaIds").is_none() {
        return true;
    }
    let ids = crate::rules::scope_strings(c, "areaIds");
    let ghost views = crate::preferences::str_views(ids@);
    proof {
        crate::rules::lemma_str_views_len(ids@);
    }
    let mut i: usize = 0;
    while i < ids.len()
        invariant
            i <= ids@.len(),
            views == crate::preferences::str_views(ids@),
            views.len() == ids@.len(),
            value_as_array(object_get(c.scope, "areaIds"@)) is Some,
            c.kind == ChannelKindDto::Weather || c.kind == ChannelKindDto::Official || c.kind == ChannelKindDto::Hurricane,
            views == array_strings(value_as_array(object_get(c.scope, "areaIds"@)).unwrap()),
            forall|k: int| 0 <= k < i ==> !area_changed(*old, *new, #[trigger] views[k]),
        decreases ids@.len() - i,
    {
        proof {
            crate::rules::lemma_str_views_index(ids@, i as int);
        }
        if area_differs(old, new, ids[i]) {
            proof {
                let a = value_as_array(object_get(c.scope, "areaIds"@)).unwrap();
                assert(array_strings(a)[i as int] == views[i as int]);
                assert(area_changed(*old, *new, array_strings(a)[i as int]));
                assert(0 <= i < array_strings(a).len());
            }
            return true;
        }
        i = i + 1;
    }
    false
}

/// The channels a save touches, each id once: every channel whose settings
/// changed (or that only one profile has), and, when any area changed, every
/// weather, official-alert and hurricane channel that selects no list of
/// areas or selects a changed one.
pub fn changed_channel_ids(old: &AppPreferences, new: &AppPreferences) -> (r: Vec<String>)
    requires
        old.profile.channels@.len() + new.profile.channels@.len() <= usize::MAX,
    ensures
        forall|i: int| 0 <= i < r@.len() ==> touched(*old, *new, (#[trigger] r@[i])@),
        forall|id: Seq<char>| #[trigger] touched(*old, *new, id) ==> exists|i: int| 0 <= i < r@.len() && (#[trigger] r@[i])@ == id,
        forall|i: int, j: int| 0 <= i < j < r@.len() ==> (#[trigger] r@[i])@ != (#[trigger] r@[j])@,
{
    let area_moved = any_area_changed(old, new);
    let ghost all = all_channels(*old, *new);
    let n_old = old.profile.channels.len();
    let total = n_old + new.profile.channels.len();
    let mut out: Vec<String> = Vec::new();
    let mut i: usize = 0;
    while i < total
        invariant
            i <= total,
            n_old == old.profile.channels@.len(),
            total == all.len(),
            all == all_channels(*old, *new),
            area_moved == some_area_changed(*old, *new),
            forall|k: int| 0 <= k < out@.len() ==> touched(*old, *new, (#[trigger] out@[k])@),
            forall|k: int| 0 <= k < i && touched(*old, *new, (#[trigger] all[k]).id@)
                ==> exists|m: int| 0 <= m < out@.len() && (#[trigger] out@[m])@ == all[k].id@,
            forall|a: int, b: int| 0 <= a < b < out@.len() ==> (#[trigger] out@[a])@ != (#[trigger] out@[b])@,
        decreases total - i,
    {
        let c = if i < n_old { &old.profile.channels[i] } else { &new.profile.channels[i - n_old] };
        proof {
            assert(*c == all[i as int]);
        }
        let id = c.id.as_str();
        let mut hit = channel_differs(old, new, id);
        if !hit && area_moved {
            let mut k: usize = 0;
            while k < total && !hit
                invariant
                    k <= total,
                    n_old == old.profile.channels@.len(),
                    total == all.len(),
                    all == all_channels(*old, *new),
                    area_moved == some_area_changed(*old, *new),
                    area_moved,
                    hit ==> touched(*old, *new, id@),
                    !hit ==> !channel_changed(*old, *new, id@),
                    !hit ==> forall|m: int| 0 <= m < k ==> !((#[trigger] all[m]).id@ == id@ && reads_changed_area(all[m], *old, *new)),
                decreases total - k + (if hit { 0int } else { 1int }),
            {
                let d = if k < n_old { &old.profile.channels[k] } else { &new.profile.channels[k - n_old] };
                proof {
                    assert(*d == all[k as int]);
                }
                if str_eq(d.id.as_str(), id) && reads_changed(d, old, new) {
                    hit = true;
                } else {
                    k = k + 1;
                }
            }
        }
        proof {
            if !hit {
                assert(!touched(*old, *new, id@));
            }
        }
        if hit {
            let mut present = false;
            let mut m: usize = 0;
            while m < out.len()
                invariant
                    m <= out@.len(),
                    present == exists|q: int| 0 <= q < m && (#[trigger] out@[q])@ == id@,
                decreases out@.len() - m,
            {
                if str_eq(out[m].as_str(), id) {
                    present = true;
                }
                m = m + 1;
            }
            if !present {
                let ghost before = out@;
                out.push(owned(id));
                proof {
                    assert(out@[before.len() as int]@ == id@);
                    assert forall|k: int| 0 <= k < i && touched(*old, *new, (#[trigger] all[k]).id@)
                        implies exists|q: int| 0 <= q < out@.len() && (#[trigger] out@[q])@ == all[k].id@ by {
                        let q = choose|q: int| 0 <= q < before.len() && (#[trigger] before[q])@ == all[k].id@;
                        assert(out@[q] == before[q]);
                    }
                    assert forall|a: int, b: int| 0 <= a < b < out@.len() implies (#[trigger] out@[a])@ != (#[trigger] out@[b])@ by {
                        if b < before.len() {
                            assert(out@[a] == before[a] && out@[b] == before[b]);
                        } else {
                            assert(out@[a] == before[a]);
                            assert(!(before[a]@ == id@));
                        }
                    }
                    assert forall|k: int| 0 <= k < out@.len() implies touched(*old, *new, (#[trigger] out@[k])@) by {
                        if k < before.len() {
                            assert(out@[k] == before[k]);
                        }
                    }
                }
            }
            proof {
                assert(exists|q: int| 0 <= q < out@.len() && (#[trigger] out@[q])@ == all[i as int].id@);
            }
        }
        i = i + 1;
    }
    proof {
        assert forall|id: Seq<char>| #[trigger] touched(*old, *new, id) implies exists|i: int| 0 <= i < out@.len() && (#[trigger] out@[i])@ == id by {
            if channel_changed(*old, *new, id) {
                if channel_named(old.profile.channels@, id) is Some {
                    lemma_named_channel_listed(old.profile.channels@, id, old.profile.channels@.len() as int);
                    let k = choose|k: int| 0 <= k < old.profile.channels@.len() && (#[trigger] old.profile.channels@[k]).id@ == id;
                    assert(all[k] == old.profile.channels@[k]);
                } else {
                    lemma_named_channel_listed(new.profile.channels@, id, new.profile.channels@.len() as int);
                    let k = choose|k: int| 0 <= k < new.profile.channels@.len() && (#[trigger] new.profile.channels@[k]).id@ == id;
                    assert(all[n_old + k] == new.profile.channels@[k]);
                }
            } else {
                let k = choose|k: int| 0 <= k < all.len() && (#[trigger] all[k]).id@ == id && reads_changed_area(all[k], *old, *new);
                assert(touched(*old, *new, all[k].id@));
            }
        }
    }
    out
}


proof fn lemma_get_reaches(ms: Seq<JsonMember>, key: Seq<char>, j: int, i: int)
    requires
        0 <= j <= i < ms.len(),
        ms[i].key@ == key,
    ensures
        members_get_from(ms, key, j) is Some,
    decreases i - j,
{
    if ms[j].key@ != key {
        lemma_get_reaches(ms, key, j + 1, i);
    }
}

proof fn lemma_get_first(ms: Seq<JsonMember>, key: Seq<char>, j: int, i: int)
    requires
        0 <= j <= i < ms.len(),
        ms[i].key@ == key,
        forall|k: int| j <= k < i ==> ms[k].key@ != key,
    ensures
        members_get_from(ms, key, j) == Some(ms[i].value),
    decreases i - j,
{
    if j < i {
        lemma_get_first(ms, key, j + 1, i);
    }
}

/// Every JSON value is the same as itself.
pub proof fn lemma_json_same_reflexive(a: JsonValue)
    ensures
        json_same(a, a),
    decreases a,
{
    match a {
        JsonValue::Number(x) => {
            assert(crate::number::pow10(0) == 1);
        },
        JsonValue::Array(xs) => {
            assert forall|i: int| 0 <= i < xs@.len() implies json_same(#[trigger] xs@[i], xs@[i]) by {
                assert(decreases_to!(a => xs@[i]));
                lemma_json_same_reflexive(xs@[i]);
            }
        },
        JsonValue::Object(o) => {
            let ms = o.members@;
            assert forall|i: int| 0 <= i < ms.len() implies object_has(o, #[trigger] ms[i].key@) by {
                lemma_get_reaches(ms, ms[i].key@, 0, i);
            }
            assert forall|i: int| 0 <= i < ms.len() && first_key(ms, i)
                implies json_same(#[trigger] ms[i].value, object_get(o, ms[i].key@).unwrap()) by {
                lemma_get_first(ms, ms[i].key@, 0, i);
                assert(decreases_to!(a => o.members@[i].value));
                lemma_json_same_reflexive(ms[i].value);
            }
        },
        _ => {},
    }
}

proof fn lemma_area_named_is_kept(areas: Seq<AlertArea>, id: Seq<char>, n: int)
    requires
        area_upto(areas, id, n) is Some,
    ensures
        exists|i: int| 0 <= i < areas.len() && #[trigger] areas[i] == area_upto(areas, id, n).unwrap(),
    decreases n,
{
    if n > 0 && n <= areas.len() && areas[n - 1].id@ != id {
        lemma_area_named_is_kept(areas, id, n - 1);
    } else {
        assert(areas[n - 1] == area_upto(areas, id, n).unwrap());
    }
}

/// Coordinates that are finite numbers.
pub open spec fn areas_placed(p: AppPreferences) -> bool {
    forall|i: int| 0 <= i < p.areas@.len() ==> (#[trigger] p.areas@[i]).latitude is Finite && p.areas@[i].longitude is Finite
}

/// Saving a profile unchanged touches no channel, as long as every area is
/// placed at finite coordinates (a coordinate that is not a number equals
/// nothing, itself included).
pub proof fn lemma_unchanged_save_touches_nothing(p: AppPreferences, id: Seq<char>)
    requires
        areas_placed(p),
    ensures
        !touched(p, p, id),
{
    assert(crate::number::pow10(0) == 1);
    match channel_named(p.profile.channels@, id) {
        Some(c) => {
            lemma_json_same_reflexive(JsonValue::Object(c.scope));
        },
        None => {},
    }
    assert forall|k: Seq<char>| !#[trigger] area_changed(p, p, k) by {
        match area_named(p.areas@, k) {
            Some(a) => {
                lemma_area_named_is_kept(p.areas@, k, p.areas@.len() as int);
            },
            None => {},
        }
    }
}

/// A save that changes any setting of a channel touches it: when both
/// profiles have a channel `id` and the two differ in any field (its kind,
/// title, switch, presence, interrupts, destinations, freshness, item limit,
/// cadence or scope), `id` is among the changed channels.
pub proof fn lemma_any_field_change_touches(old: AppPreferences, new: AppPreferences, id: Seq<char>, a: ChannelPreference, b: ChannelPreference)
    requires
        channel_named(old.profile.channels@, id) == Some(a),
        channel_named(new.profile.channels@, id) == Some(b),
        a.kind != b.kind || a.title@ != b.title@ || a.enabled != b.enabled || a.presence != b.presence
            || a.interrupt_preset != b.interrupt_preset || a.destinations@ != b.destinations@
            || a.max_age_minutes != b.max_age_minutes || a.max_items != b.max_items
            || a.rotation_seconds != b.rotation_seconds
            || !json_same(JsonValue::Object(a.scope), JsonValue::Object(b.scope)),
    ensures
        touched(old, new, id),
{
}

/// A channel only one of the profiles has is touched.
pub proof fn lemma_added_or_removed_channel_touches(old: AppPreferences, new: AppPreferences, id: Seq<char>)
    requires
        channel_named(old.profile.channels@, id) is Some != channel_named(new.profile.channels@, id) is Some,
    ensures
        touched(old, new, id),
{
}

} // verus!
