//! The shipped directory of news and sports feeds a user can subscribe to.
//!
//! Every entry was fetched and confirmed to answer with current items before
//! it was written down. The directory is one data file shared with the
//! console; this module holds its shape and the lookups the runtime makes.

use vstd::prelude::*;

use crate::dto::ChannelKindDto;
use crate::text::str_eq;

verus! {

/// A shipped, tested feed a user can subscribe to by name.
#[derive(Clone, Debug, PartialEq, Eq)]
pub struct CatalogEntry {
    /// Stable identifier, unique across the whole catalog.
    pub id: String,
    /// Publisher and desk, as the picker lists it.
    pub label: String,
    /// The feed URL written into channel scope when the entry is ticked.
    pub url: String,
    /// Short qualifier shown beside the label, such as the language.
    pub note: Option<String>,
}

/// A named cluster of entries inside a section: one country, one sport, one desk.
#[derive(Clone, Debug, PartialEq, Eq)]
pub struct CatalogGroup {
    pub id: String,
    pub label: String,
    pub note: Option<String>,
    pub entries: Vec<CatalogEntry>,
}

/// A top-level division of one channel kind's catalog.
#[derive(Clone, Debug, PartialEq, Eq)]
pub struct CatalogSection {
    pub id: String,
    /// The channel kind whose editor offers this section.
    pub kind: ChannelKindDto,
    pub label: String,
    pub note: Option<String>,
    pub groups: Vec<CatalogGroup>,
}

/// The shipped feed directory.
#[derive(Clone, Debug, PartialEq, Eq)]
pub struct FeedCatalog {
    /// Shape version of the directory file.
    pub schema_version: u32,
    /// The date every entry was last confirmed to answer with current items.
    pub verified_on: String,
    /// Sections, in the order the picker lists them.
    pub sections: Vec<CatalogSection>,
}

/// The sections of `kind`, in order.
pub open spec fn sections_of_kind(ss: Seq<CatalogSection>, kind: ChannelKindDto) -> Seq<CatalogSection>
    decreases ss.len(),
{
    if ss.len() == 0 {
        Seq::empty()
    } else {
        let rest = sections_of_kind(ss.drop_last(), kind);
        if ss.last().kind == kind {
            rest.push(ss.last())
        } else {
            rest
        }
    }
}

/// The entries of every group, in order.
pub open spec fn group_entries(gs: Seq<CatalogGroup>) -> Seq<CatalogEntry>
    decreases gs.len(),
{
    if gs.len() == 0 {
        Seq::empty()
    } else {
        group_entries(gs.drop_last()) + gs.last().entries@
    }
}

/// The entries of every section, flattened in picker order.
pub open spec fn section_entries(ss: Seq<CatalogSection>) -> Seq<CatalogEntry>
    decreases ss.len(),
{
    if ss.len() == 0 {
        Seq::empty()
    } else {
        section_entries(ss.drop_last()) + group_entries(ss.last().groups@)
    }
}

/// The groups of every section, flattened in picker order.
pub open spec fn section_groups(ss: Seq<CatalogSection>) -> Seq<CatalogGroup>
    decreases ss.len(),
{
    if ss.len() == 0 {
        Seq::empty()
    } else {
        section_groups(ss.drop_last()) + ss.last().groups@
    }
}

/// The first entry at or after `i` whose URL is `url`.
pub open spec fn entry_with_url(es: Seq<CatalogEntry>, url: Seq<char>, i: int) -> Option<CatalogEntry>
    decreases es.len() - i,
{
    if i < 0 || i >= es.len() {
        None
    } else if es[i].url@ == url {
        Some(es[i])
    } else {
        entry_with_url(es, url, i + 1)
    }
}

/// The first entry at or after `i` whose identifier is `id`.
pub open spec fn entry_with_id(es: Seq<CatalogEntry>, id: Seq<char>, i: int) -> Option<CatalogEntry>
    decreases es.len() - i,
{
    if i < 0 || i >= es.len() {
        None
    } else if es[i].id@ == id {
        Some(es[i])
    } else {
        entry_with_id(es, id, i + 1)
    }
}

/// The first group at or after `i` whose identifier is `id`.
pub open spec fn group_with_id(gs: Seq<CatalogGroup>, id: Seq<char>, i: int) -> Option<CatalogGroup>
    decreases gs.len() - i,
{
    if i < 0 || i >= gs.len() {
        None
    } else if gs[i].id@ == id {
        Some(gs[i])
    } else {
        group_with_id(gs, id, i + 1)
    }
}

/// The values behind a sequence of references.
pub open spec fn deref_seq<T>(s: Seq<&T>) -> Seq<T> {
    s.map_values(|x: &T| *x)
}

/// The URLs of `es`, in order.
pub open spec fn entry_urls(es: Seq<CatalogEntry>) -> Seq<Seq<char>>
    decreases es.len(),
{
    if es.len() == 0 {
        Seq::empty()
    } else {
        entry_urls(es.drop_last()).push(es.last().url@)
    }
}

/// The characters of each string, in order.
pub open spec fn string_views(v: Seq<String>) -> Seq<Seq<char>>
    decreases v.len(),
{
    if v.len() == 0 {
        Seq::empty()
    } else {
        string_views(v.drop_last()).push(v.last()@)
    }
}

impl FeedCatalog {
    pub open spec fn all_entries(&self) -> Seq<CatalogEntry> {
        section_entries(self.sections@)
    }

    pub open spec fn all_groups(&self) -> Seq<CatalogGroup> {
        section_groups(self.sections@)
    }

    /// Sections offered by the editor for `kind`.
    pub fn sections_for(&self, kind: ChannelKindDto) -> (r: Vec<&CatalogSection>)
        ensures
            deref_seq(r@) == sections_of_kind(self.sections@, kind),
    {
        let mut out: Vec<&CatalogSection> = Vec::new();
        let mut i: usize = 0;
        while i < self.sections.len()
            invariant
                i <= self.sections@.len(),
                deref_seq(out@) == sections_of_kind(self.sections@.take(i as int), kind),
            decreases self.sections@.len() - i,
        {
            proof {
                assert(self.sections@.take(i + 1).drop_last() == self.sections@.take(i as int));
            }
            let ghost prev = out@;
            if self.sections[i].kind == kind {
                out.push(&self.sections[i]);
                assert(deref_seq(out@) =~= deref_seq(prev).push(self.sections@[i as int]));
            }
            i = i + 1;
        }
        assert(self.sections@.take(self.sections@.len() as int) == self.sections@);
        out
    }

    /// Every entry in the catalog, flattened.
    pub fn entries(&self) -> (r: Vec<&CatalogEntry>)
        ensures
            deref_seq(r@) == self.all_entries(),
    {
        let mut out: Vec<&CatalogEntry> = Vec::new();
        let mut i: usize = 0;
        while i < self.sections.len()
            invariant
                i <= self.sections@.len(),
                deref_seq(out@) == section_entries(self.sections@.take(i as int)),
            decreases self.sections@.len() - i,
        {
            let groups = &self.sections[i].groups;
            let ghost before = deref_seq(out@);
            let mut j: usize = 0;
            while j < groups.len()
                invariant
                    j <= groups@.len(),
                    deref_seq(out@) == before + group_entries(groups@.take(j as int)),
                decreases groups@.len() - j,
            {
                let entries = &groups[j].entries;
                let ghost mid = deref_seq(out@);
                let mut k: usize = 0;
                while k < entries.len()
                    invariant
                        k <= entries@.len(),
                        deref_seq(out@) == mid + entries@.take(k as int),
                    decreases entries@.len() - k,
                {
                    let ghost prev = out@;
                    out.push(&entries[k]);
                    assert(deref_seq(out@) =~= deref_seq(prev).push(entries@[k as int]));
                    proof {
                        assert(entries@.take(k + 1) == entries@.take(k as int).push(entries@[k as int]));
                    }
                    k = k + 1;
                }
                proof {
                    assert(entries@.take(entries@.len() as int) == entries@);
                    assert(groups@.take(j + 1).drop_last() == groups@.take(j as int));
                    assert(group_entries(groups@.take(j + 1)) == group_entries(groups@.take(j as int)) + entries@);
                }
                j = j + 1;
            }
            proof {
                assert(groups@.take(groups@.len() as int) == groups@);
                assert(self.sections@.take(i + 1).drop_last() == self.sections@.take(i as int));
                assert(section_entries(self.sections@.take(i + 1)) == section_entries(self.sections@.take(i as int)) + group_entries(groups@));
            }
            i = i + 1;
        }
        assert(self.sections@.take(self.sections@.len() as int) == self.sections@);
        out
    }

    /// Every group in the catalog, flattened.
    fn groups(&self) -> (r: Vec<&CatalogGroup>)
        ensures
            deref_seq(r@) == self.all_groups(),
    {
        let mut out: Vec<&CatalogGroup> = Vec::new();
        let mut i: usize = 0;
        while i < self.sections.len()
            invariant
                i <= self.sections@.len(),
                deref_seq(out@) == section_groups(self.sections@.take(i as int)),
            decreases self.sections@.len() - i,
        {
            let groups = &self.sections[i].groups;
            let ghost before = deref_seq(out@);
            let mut j: usize = 0;
            while j < groups.len()
                invariant
                    j <= groups@.len(),
                    deref_seq(out@) == before + groups@.take(j as int),
                decreases groups@.len() - j,
            {
                let ghost prev = out@;
                out.push(&groups[j]);
                assert(deref_seq(out@) =~= deref_seq(prev).push(groups@[j as int]));
                proof {
                    assert(groups@.take(j + 1) == groups@.take(j as int).push(groups@[j as int]));
                }
                j = j + 1;
            }
            proof {
                assert(groups@.take(groups@.len() as int) == groups@);
                assert(self.sections@.take(i + 1).drop_last() == self.sections@.take(i as int));
            }
            i = i + 1;
        }
        assert(self.sections@.take(self.sections@.len() as int) == self.sections@);
        out
    }

    /// The catalog label for a feed URL, when the URL is one we ship.
    ///
    /// A feed the user typed themselves has no label here; it falls back to the
    /// publisher name the feed states about itself.
    pub fn label_for_url(&self, url: &str) -> (r: Option<&str>)
        ensures
            r is Some == entry_with_url(self.all_entries(), url@, 0) is Some,
            r is Some ==> r.unwrap()@ == entry_with_url(self.all_entries(), url@, 0).unwrap().label@,
    {
        let entries = self.entries();
        let mut i: usize = 0;
        while i < entries.len()
            invariant
                deref_seq(entries@) == self.all_entries(),
                i <= entries@.len(),
                entry_with_url(deref_seq(entries@), url@, 0) == entry_with_url(deref_seq(entries@), url@, i as int),
            decreases entries@.len() - i,
        {
            if str_eq(entries[i].url.as_str(), url) {
                return Some(entries[i].label.as_str());
            }
            i = i + 1;
        }
        None
    }

    /// The feed URLs of one group, used to seed defaults by name rather than by
    /// repeating a URL literal that could quietly drift from the catalog.
    pub fn group_urls(&self, group_id: &str) -> (r: Vec<String>)
        ensures
            string_views(r@) == match group_with_id(self.all_groups(), group_id@, 0) {
                Some(g) => entry_urls(g.entries@),
                None => Seq::<Seq<char>>::empty(),
            },
    {
        let groups = self.groups();
        let mut i: usize = 0;
        while i < groups.len()
            invariant
                deref_seq(groups@) == self.all_groups(),
                i <= groups@.len(),
                group_with_id(deref_seq(groups@), group_id@, 0) == group_with_id(deref_seq(groups@), group_id@, i as int),
            decreases groups@.len() - i,
        {
            if str_eq(groups[i].id.as_str(), group_id) {
                let entries = &groups[i].entries;
                let mut out: Vec<String> = Vec::new();
                let mut k: usize = 0;
                while k < entries.len()
                    invariant
                        k <= entries@.len(),
                        string_views(out@) == entry_urls(entries@.take(k as int)),
                    decreases entries@.len() - k,
                {
                    let ghost prev = out@;
                    let url = entries[k].url.clone();
                    out.push(url);
                    proof {
                        assert(out@ == prev.push(url));
                        assert(url@ == entries@[k as int].url@);
                        assert(entries@.take(k + 1) == entries@.take(k as int).push(entries@[k as int]));
                        assert(out@.drop_last() == prev);
                        assert(entries@.take(k + 1).drop_last() == entries@.take(k as int));
                        assert(string_views(out@) == entry_urls(entries@.take(k + 1)));
                    }
                    k = k + 1;
                }
                assert(entries@.take(entries@.len() as int) == entries@);
                return out;
            }
            i = i + 1;
        }
        let out: Vec<String> = Vec::new();
        assert(string_views(out@) == Seq::<Seq<char>>::empty());
        out
    }

    /// The URL of a single catalog entry.
    pub fn entry_url(&self, entry_id: &str) -> (r: Option<&str>)
        ensures
            r is Some == entry_with_id(self.all_entries(), entry_id@, 0) is Some,
            r is Some ==> r.unwrap()@ == entry_with_id(self.all_entries(), entry_id@, 0).unwrap().url@,
    {
        let entries = self.entries();
        let mut i: usize = 0;
        while i < entries.len()
            invariant
                deref_seq(entries@) == self.all_entries(),
                i <= entries@.len(),
                entry_with_id(deref_seq(entries@), entry_id@, 0) == entry_with_id(deref_seq(entries@), entry_id@, i as int),
            decreases entries@.len() - i,
        {
            if str_eq(entries[i].id.as_str(), entry_id) {
                return Some(entries[i].url.as_str());
            }
            i = i + 1;
        }
        None
    }
}

proof fn lemma_entry_lookups_reach(es: Seq<CatalogEntry>, i: int, k: int)
    requires
        0 <= i <= k < es.len(),
        forall|a: int, b: int| 0 <= a < b < es.len() ==> es[a].id@ != es[b].id@ && es[a].url@ != es[b].url@,
    ensures
        entry_with_id(es, es[k].id@, i) == Some(es[k]),
        entry_with_url(es, es[k].url@, i) == Some(es[k]),
    decreases k - i,
{
    if i < k {
        lemma_entry_lookups_reach(es, i + 1, k);
    }
}

/// Lookups round-trip: in a catalog whose entry identifiers and URLs are
/// unique, the entry found for an entry's identifier, and the one found for
/// its URL, is that entry, so `entry_url` gives its URL and `label_for_url`
/// its label.
pub proof fn lemma_catalog_lookup_round_trip(catalog: FeedCatalog, k: int)
    requires
        0 <= k < catalog.all_entries().len(),
        forall|a: int, b: int|
            0 <= a < b < catalog.all_entries().len() ==> catalog.all_entries()[a].id@ != catalog.all_entries()[b].id@
                && catalog.all_entries()[a].url@ != catalog.all_entries()[b].url@,
    ensures
        entry_with_id(catalog.all_entries(), catalog.all_entries()[k].id@, 0) == Some(catalog.all_entries()[k]),
        entry_with_url(catalog.all_entries(), catalog.all_entries()[k].url@, 0) == Some(catalog.all_entries()[k]),
{
    lemma_entry_lookups_reach(catalog.all_entries(), 0, k);
}

} // verus!
