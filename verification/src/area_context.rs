//! The saved places a collector polls for, carried on every item it returns.
//!
//! A collector scheduled for one or more alert areas hands back items that
//! know nothing of those areas. Each item is re-keyed under the areas'
//! context, so the same upstream item seen for two different place sets stays
//! two items, and gains the areas' identifiers, labels and coordinates as
//! attributes. An item from a single area also carries that area's own
//! identity, and takes its label as the place name when it has none.

use vstd::prelude::*;

use crate::digest::{short_hash, short_hash_spec};
use crate::dto::AlertArea;
use crate::item::{CollectorItem, Location};
use crate::json::{object_get, JsonNumber, JsonObject, JsonValue};
use crate::number::Real;
use crate::text::{concat, owned};

verus! {

/// What an item keeps of one alert area.
#[derive(Clone, Debug, PartialEq)]
pub struct AreaTag {
    pub id: String,
    pub label: String,
    pub latitude: Real,
    pub longitude: Real,
    pub time_zone: String,
}

impl AreaTag {
    pub fn from_area(area: &AlertArea) -> (t: AreaTag)
        ensures
            tag_of_area(t, *area),
    {
        AreaTag {
            id: area.id.clone(),
            label: area.label.clone(),
            latitude: area.latitude,
            longitude: area.longitude,
            time_zone: area.time_zone.clone(),
        }
    }
}

/// The areas behind one collector, and the key that names their set.
#[derive(Clone, Debug, PartialEq)]
pub struct AreaContext {
    pub areas: Vec<AreaTag>,
    pub context_key: String,
}

/// The areas' identifiers, separated by NUL characters.
pub open spec fn joined_ids(tags: Seq<AreaTag>) -> Seq<char>
    decreases tags.len(),
{
    if tags.len() == 0 {
        Seq::empty()
    } else if tags.len() == 1 {
        tags[0].id@
    } else {
        joined_ids(tags.drop_last()) + "\0"@ + tags.last().id@
    }
}

/// Whether `t` is what an item keeps of `a`.
pub open spec fn tag_of_area(t: AreaTag, a: AlertArea) -> bool {
    &&& t.id == a.id
    &&& t.label == a.label
    &&& t.latitude == a.latitude
    &&& t.longitude == a.longitude
    &&& t.time_zone == a.time_zone
}

/// Whether `tags` are the areas, in order.
pub open spec fn tags_of(tags: Seq<AreaTag>, areas: Seq<AlertArea>) -> bool {
    &&& tags.len() == areas.len()
    &&& forall|i: int| 0 <= i < tags.len() ==> tag_of_area(#[trigger] tags[i], areas[i])
}

fn joined_area_ids(tags: &Vec<AreaTag>) -> (r: String)
    ensures
        r@ == joined_ids(tags@),
{
    let mut joined = String::new();
    let mut i: usize = 0;
    while i < tags.len()
        invariant
            i <= tags@.len(),
            joined@ == joined_ids(tags@.take(i as int)),
        decreases tags@.len() - i,
    {
        proof {
            assert(tags@.take(i as int + 1).drop_last() =~= tags@.take(i as int));
        }
        if i > 0 {
            joined = concat(joined.as_str(), "\0");
        }
        joined = concat(joined.as_str(), tags[i].id.as_str());
        i = i + 1;
        proof {
            reveal_strlit("\0");
            if i == 1 {
                assert(Seq::<char>::empty() + tags@.take(1)[0].id@ =~= tags@.take(1)[0].id@);
            }
        }
    }
    proof {
        assert(tags@.take(tags@.len() as int) =~= tags@);
    }
    joined
}

impl AreaContext {
    /// The context of the areas, keyed by a short hash of their identifiers.
    pub fn from_areas(areas: &[AlertArea]) -> (c: AreaContext)
        ensures
            tags_of(c.areas@, areas@),
            c.context_key@ == short_hash_spec(joined_ids(c.areas@)),
            c.context_key@.len() == 16,
    {
        let mut tags: Vec<AreaTag> = Vec::new();
        let mut i: usize = 0;
        while i < areas.len()
            invariant
                i <= areas@.len(),
                tags@.len() == i,
                forall|j: int| 0 <= j < i ==> tag_of_area(#[trigger] tags@[j], areas@[j]),
            decreases areas@.len() - i,
        {
            tags.push(AreaTag::from_area(&areas[i]));
            i = i + 1;
        }
        let joined = joined_area_ids(&tags);
        AreaContext { areas: tags, context_key: short_hash(joined.as_str()) }
    }

    /// The context of one area.
    pub fn single(area: &AlertArea) -> (c: AreaContext)
        ensures
            tags_of(c.areas@, seq![*area]),
            c.context_key@ == short_hash_spec(area.id@),
            c.context_key@.len() == 16,
    {
        let mut tags: Vec<AreaTag> = Vec::new();
        tags.push(AreaTag::from_area(area));
        let context_key = short_hash(area.id.as_str());
        proof {
            assert(joined_ids(tags@) == tags@[0].id@);
        }
        AreaContext { areas: tags, context_key }
    }

    /// The context of several areas, in the order given.
    pub fn multiple(areas: &[AlertArea]) -> (c: AreaContext)
        ensures
            tags_of(c.areas@, areas@),
            c.context_key@ == short_hash_spec(joined_ids(c.areas@)),
            c.context_key@.len() == 16,
    {
        AreaContext::from_areas(areas)
    }
}

/// A coordinate as a JSON value: the number, or null when it is not finite.
pub open spec fn real_json(r: Real) -> JsonValue {
    match r {
        Real::Finite(d) => JsonValue::Number(JsonNumber::Float(d)),
        Real::NonFinite => JsonValue::Null,
    }
}

fn real_json_exec(r: Real) -> (v: JsonValue)
    ensures
        v == real_json(r),
{
    match r {
        Real::Finite(d) => JsonValue::Number(JsonNumber::Float(d)),
        Real::NonFinite => JsonValue::Null,
    }
}

/// Whether `v` is a JSON string holding `s`.
pub open spec fn is_json_text(v: JsonValue, s: Seq<char>) -> bool {
    v matches JsonValue::String(t) && t@ == s
}

/// Whether `v` is an array of the areas' identifiers (or labels, when
/// `labels`), in order.
pub open spec fn texts_json(v: Option<JsonValue>, tags: Seq<AreaTag>, labels: bool) -> bool {
    match v {
        Some(JsonValue::Array(a)) => {
            &&& a@.len() == tags.len()
            &&& forall|i: int| 0 <= i < tags.len() ==> is_json_text(#[trigger] a@[i],
                if labels { tags[i].label@ } else { tags[i].id@ })
        },
        _ => false,
    }
}

/// Whether `v` is an object with exactly the area's `lat` and `lon`.
pub open spec fn is_point_json(v: JsonValue, tag: AreaTag) -> bool {
    match v {
        JsonValue::Object(o) => {
            &&& object_get(o, "lat"@) == Some(real_json(tag.latitude))
            &&& object_get(o, "lon"@) == Some(real_json(tag.longitude))
            &&& forall|k: Seq<char>| k != "lat"@ && k != "lon"@ ==> object_get(o, k) is None
        },
        _ => false,
    }
}

/// Whether `v` is an array of the areas' points, in order.
pub open spec fn points_json(v: Option<JsonValue>, tags: Seq<AreaTag>) -> bool {
    match v {
        Some(JsonValue::Array(a)) => {
            &&& a@.len() == tags.len()
            &&& forall|i: int| 0 <= i < tags.len() ==> is_point_json(#[trigger] a@[i], tags[i])
        },
        _ => false,
    }
}

/// The attributes that tagging writes; for several areas only the first three.
pub open spec fn is_area_key(k: Seq<char>, single: bool) -> bool {
    ||| k == "area_ids"@
    ||| k == "area_labels"@
    ||| k == "area_points"@
    ||| single && (k == "area_id"@ || k == "area_label"@ || k == "area_latitude"@
        || k == "area_longitude"@ || k == "area_time_zone"@)
}

/// Whether `new` holds the item's attributes with the areas written over them.
pub open spec fn area_attributes(old: JsonObject, new: JsonObject, tags: Seq<AreaTag>) -> bool {
    let single = tags.len() == 1;
    &&& texts_json(object_get(new, "area_ids"@), tags, false)
    &&& texts_json(object_get(new, "area_labels"@), tags, true)
    &&& points_json(object_get(new, "area_points"@), tags)
    &&& single ==> {
        &&& object_get(new, "area_id"@) matches Some(v) && is_json_text(v, tags[0].id@)
        &&& object_get(new, "area_label"@) matches Some(v) && is_json_text(v, tags[0].label@)
        &&& object_get(new, "area_latitude"@) == Some(real_json(tags[0].latitude))
        &&& object_get(new, "area_longitude"@) == Some(real_json(tags[0].longitude))
        &&& object_get(new, "area_time_zone"@) matches Some(v) && is_json_text(v, tags[0].time_zone@)
    }
    &&& forall|k: Seq<char>| !is_area_key(k, single) ==> object_get(new, k) == object_get(old, k)
}

/// Whether `new` is `old` as seen through the areas: re-keyed under the
/// context, the areas written into its attributes, and, for a single area,
/// the area's label as the place name where the item's location has none.
pub open spec fn tagged_item(old: CollectorItem, new: CollectorItem, tags: Seq<AreaTag>, key: Seq<char>) -> bool {
    &&& new.id@ == "area:"@ + key + ":"@ + old.id@
    &&& new.kind == old.kind
    &&& new.title == old.title
    &&& new.summary == old.summary
    &&& new.observed_at_ms == old.observed_at_ms
    &&& new.starts_at_ms == old.starts_at_ms
    &&& new.ends_at_ms == old.ends_at_ms
    &&& new.source == old.source
    &&& area_attributes(old.attributes, new.attributes, tags)
    &&& match old.location {
        None => new.location is None,
        Some(l) => new.location matches Some(m) && {
            &&& m.latitude == l.latitude
            &&& m.longitude == l.longitude
            &&& m.name == (if tags.len() == 1 && l.name is None {
                    Some(tags[0].label)
                } else {
                    l.name
                })
        },
    }
}

fn texts_array(tags: &Vec<AreaTag>, labels: bool) -> (v: JsonValue)
    ensures
        texts_json(Some(v), tags@, labels),
{
    let mut out: Vec<JsonValue> = Vec::new();
    let mut i: usize = 0;
    while i < tags.len()
        invariant
            i <= tags@.len(),
            out@.len() == i,
            forall|j: int| 0 <= j < i ==> is_json_text(#[trigger] out@[j],
                if labels { tags@[j].label@ } else { tags@[j].id@ }),
        decreases tags@.len() - i,
    {
        let text = if labels { tags[i].label.clone() } else { tags[i].id.clone() };
        out.push(JsonValue::String(text));
        i = i + 1;
    }
    JsonValue::Array(out)
}

fn point_object(tag: &AreaTag) -> (v: JsonValue)
    ensures
        is_point_json(v, *tag),
{
    proof {
        reveal_strlit("lat");
        reveal_strlit("lon");
        assert("lat"@[1] != "lon"@[1]);
    }
    let mut o = JsonObject::new();
    let lat = real_json_exec(tag.latitude);
    let lon = real_json_exec(tag.longitude);
    o.insert(owned("lat"), lat);
    o.insert(owned("lon"), lon);
    JsonValue::Object(o)
}

fn points_array(tags: &Vec<AreaTag>) -> (v: JsonValue)
    ensures
        points_json(Some(v), tags@),
{
    let mut out: Vec<JsonValue> = Vec::new();
    let mut i: usize = 0;
    while i < tags.len()
        invariant
            i <= tags@.len(),
            out@.len() == i,
            forall|j: int| 0 <= j < i ==> is_point_json(#[trigger] out@[j], tags@[j]),
        decreases tags@.len() - i,
    {
        out.push(point_object(&tags[i]));
        i = i + 1;
    }
    JsonValue::Array(out)
}

fn named_location(location: Option<Location>, tags: &Vec<AreaTag>) -> (r: Option<Location>)
    ensures
        match location {
            None => r is None,
            Some(l) => r matches Some(m) && {
                &&& m.latitude == l.latitude
                &&& m.longitude == l.longitude
                &&& m.name == (if tags@.len() == 1 && l.name is None {
                        Some(tags@[0].label)
                    } else {
                        l.name
                    })
            },
        },
{
    match location {
        None => None,
        Some(l) => {
            let Location { latitude, longitude, name } = l;
            let name = if tags.len() == 1 && name.is_none() {
                Some(tags[0].label.clone())
            } else {
                name
            };
            Some(Location { latitude, longitude, name })
        },
    }
}

proof fn lemma_area_keys_distinct()
    ensures
        "area_ids"@ != "area_labels"@,
        "area_ids"@ != "area_points"@,
        "area_labels"@ != "area_points"@,
{
    reveal_strlit("area_ids");
    reveal_strlit("area_labels");
    reveal_strlit("area_points");
    assert("area_ids"@[5] != "area_labels"@[5]);
    assert("area_ids"@[5] != "area_points"@[5]);
    assert("area_labels"@[5] != "area_points"@[5]);
}

proof fn lemma_single_keys_distinct()
    ensures
        "area_id"@ != "area_ids"@,
        "area_id"@ != "area_labels"@,
        "area_id"@ != "area_points"@,
        "area_label"@ != "area_ids"@,
        "area_label"@ != "area_labels"@,
        "area_label"@ != "area_points"@,
        "area_latitude"@ != "area_ids"@,
        "area_latitude"@ != "area_labels"@,
        "area_latitude"@ != "area_points"@,
        "area_longitude"@ != "area_ids"@,
        "area_longitude"@ != "area_labels"@,
        "area_longitude"@ != "area_points"@,
        "area_time_zone"@ != "area_ids"@,
        "area_time_zone"@ != "area_labels"@,
        "area_time_zone"@ != "area_points"@,
        "area_id"@ != "area_label"@,
        "area_id"@ != "area_latitude"@,
        "area_id"@ != "area_longitude"@,
        "area_id"@ != "area_time_zone"@,
        "area_label"@ != "area_latitude"@,
        "area_label"@ != "area_longitude"@,
        "area_label"@ != "area_time_zone"@,
        "area_latitude"@ != "area_longitude"@,
        "area_latitude"@ != "area_time_zone"@,
        "area_longitude"@ != "area_time_zone"@,
{
    reveal_strlit("area_id");
    reveal_strlit("area_ids");
    reveal_strlit("area_label");
    reveal_strlit("area_labels");
    reveal_strlit("area_points");
    reveal_strlit("area_latitude");
    reveal_strlit("area_longitude");
    reveal_strlit("area_time_zone");
    assert("area_id"@.len() != "area_ids"@.len());
    assert("area_id"@.len() != "area_labels"@.len());
    assert("area_id"@.len() != "area_points"@.len());
    assert("area_label"@.len() != "area_labels"@.len());
    assert("area_label"@[5] != "area_ids"@[5]);
    assert("area_label"@[5] != "area_points"@[5]);
    assert("area_latitude"@.len() != "area_ids"@.len());
    assert("area_latitude"@.len() != "area_labels"@.len());
    assert("area_latitude"@.len() != "area_points"@.len());
    assert("area_longitude"@.len() != "area_ids"@.len());
    assert("area_longitude"@.len() != "area_labels"@.len());
    assert("area_longitude"@.len() != "area_points"@.len());
    assert("area_time_zone"@.len() != "area_ids"@.len());
    assert("area_time_zone"@.len() != "area_labels"@.len());
    assert("area_time_zone"@.len() != "area_points"@.len());
    assert("area_id"@.len() != "area_label"@.len());
    assert("area_id"@.len() != "area_latitude"@.len());
    assert("area_id"@.len() != "area_longitude"@.len());
    assert("area_id"@.len() != "area_time_zone"@.len());
    assert("area_label"@.len() != "area_latitude"@.len());
    assert("area_label"@.len() != "area_longitude"@.len());
    assert("area_label"@.len() != "area_time_zone"@.len());
    assert("area_latitude"@.len() != "area_longitude"@.len());
    assert("area_latitude"@[5] != "area_time_zone"@[5]);
    assert("area_longitude"@[5] != "area_time_zone"@[5]);
}

impl AreaContext {
    /// One item as seen through this context.
    pub fn tag_item(&self, item: CollectorItem) -> (r: CollectorItem)
        ensures
            tagged_item(item, r, self.areas@, self.context_key@),
    {
        let CollectorItem {
            id, kind, title, summary, observed_at_ms, starts_at_ms, ends_at_ms, location, source,
            attributes,
        } = item;
        let ghost before = attributes;
        let mut attributes = attributes;
        let prefix = concat("area:", self.context_key.as_str());
        let prefix = concat(prefix.as_str(), ":");
        let new_id = concat(prefix.as_str(), id.as_str());
        proof {
            reveal_strlit("area:");
            reveal_strlit(":");
            lemma_area_keys_distinct();
            lemma_single_keys_distinct();
            reveal_strlit("area_ids");
            reveal_strlit("area_labels");
            reveal_strlit("area_points");
        }
        let ids = texts_array(&self.areas, false);
        let labels = texts_array(&self.areas, true);
        let points = points_array(&self.areas);
        attributes.insert(owned("area_ids"), ids);
        attributes.insert(owned("area_labels"), labels);
        attributes.insert(owned("area_points"), points);
        if self.areas.len() == 1 {
            let area = &self.areas[0];
            let area_id = JsonValue::String(area.id.clone());
            let area_label = JsonValue::String(area.label.clone());
            let area_latitude = real_json_exec(area.latitude);
            let area_longitude = real_json_exec(area.longitude);
            let area_time_zone = JsonValue::String(area.time_zone.clone());
            attributes.insert(owned("area_id"), area_id);
            attributes.insert(owned("area_label"), area_label);
            attributes.insert(owned("area_latitude"), area_latitude);
            attributes.insert(owned("area_longitude"), area_longitude);
            attributes.insert(owned("area_time_zone"), area_time_zone);
        }
        let location = named_location(location, &self.areas);
        CollectorItem {
            id: new_id,
            kind,
            title,
            summary,
            observed_at_ms,
            starts_at_ms,
            ends_at_ms,
            location,
            source,
            attributes,
        }
    }

    /// Every item of a batch as seen through this context, in order.
    pub fn tag_items(&self, items: Vec<CollectorItem>) -> (r: Vec<CollectorItem>)
        ensures
            r@.len() == items@.len(),
            forall|i: int| 0 <= i < items@.len() ==>
                tagged_item(items@[i], #[trigger] r@[i], self.areas@, self.context_key@),
    {
        let ghost given = items@;
        let mut rest = items;
        let mut out: Vec<CollectorItem> = Vec::new();
        while rest.len() > 0
            invariant
                out@.len() + rest@.len() == given.len(),
                rest@ == given.subrange(out@.len() as int, given.len() as int),
                forall|i: int| 0 <= i < out@.len() ==>
                    tagged_item(given[i], #[trigger] out@[i], self.areas@, self.context_key@),
            decreases rest@.len(),
        {
            let item = rest.remove(0);
            let tagged = self.tag_item(item);
            out.push(tagged);
            proof {
                assert(rest@ =~= given.subrange(out@.len() as int, given.len() as int));
            }
        }
        out
    }
}

/// The same upstream item seen through two different place sets stays two
/// items: contexts with different keys of one length give it different ids.
pub proof fn lemma_place_sets_keep_items_apart(
    item: CollectorItem,
    a: CollectorItem,
    b: CollectorItem,
    c1: AreaContext,
    c2: AreaContext,
)
    requires
        c1.context_key@.len() == c2.context_key@.len(),
        c1.context_key@ != c2.context_key@,
        tagged_item(item, a, c1.areas@, c1.context_key@),
        tagged_item(item, b, c2.areas@, c2.context_key@),
    ensures
        a.id@ != b.id@,
{
    reveal_strlit("area:");
    let k1 = c1.context_key@;
    let k2 = c2.context_key@;
    if a.id@ == b.id@ {
        assert(a.id@.subrange(5, 5 + k1.len() as int) =~= k1);
        assert(b.id@.subrange(5, 5 + k2.len() as int) =~= k2);
        assert(false);
    }
}

} // verus!
