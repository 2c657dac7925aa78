//! The detail line of a syndicated news or sports item: the summary when it
//! says something the headline does not, else who wrote it and when.

use vstd::prelude::*;

use crate::item::{item_text, CollectorItem};
use crate::json::{array_strings, object_get, value_as_array, JsonValue};
use crate::location::{alphabetic, unicode_alphabetic};
use crate::news::{publication_age, publication_age_seconds, publication_age_text};
use crate::rules::{eq_ignore_ascii_case, eq_ignore_ascii_case_spec};
use crate::signal::{bounded_signal_text, bounded_text_spec};
use crate::summary::joined;
use crate::text::{
    ascii_lower_seq, chars_eq, concat, is_whitespace, owned, str_chars, string_from_chars, to_ascii_lower,
    trim_chars, trim_seq, whitespace,
};

verus! {

/// Whether a character has the Unicode `Numeric_Type` of a number
/// (categories `Nd`, `Nl` and `No`).
pub uninterp spec fn unicode_numeric(c: char) -> bool;

/// Calls `char::is_numeric`, whose answer is a function of the character.
#[verifier::external_body]
fn numeric(c: char) -> (r: bool)
    ensures
        r == unicode_numeric(c),
{
    c.is_numeric()
}

/// The Unicode lower-case mapping of a character, which may be several
/// characters long.
pub uninterp spec fn unicode_lowercase(c: char) -> Seq<char>;

/// Calls `char::to_lowercase` and collects the characters it yields.
#[verifier::external_body]
fn lowercase_chars(c: char) -> (r: Vec<char>)
    ensures
        r@ == unicode_lowercase(c),
{
    c.to_lowercase().collect()
}

/// The host `url::Url::parse` finds in a URL, when it parses and has one.
pub uninterp spec fn url_host(text: Seq<char>) -> Option<Seq<char>>;

/// Calls `url::Url::parse` and, on success, `Url::host_str`.
#[verifier::external_body]
fn host_of(text: &str) -> (r: Option<String>)
    ensures
        url_host(text@) == (match r {
            Some(h) => Some(h@),
            None => None::<Seq<char>>,
        }),
{
    match url::Url::parse(text) {
        Ok(u) => u.host_str().map(|h| h.to_string()),
        Err(_) => None,
    }
}

/// Characters that separate a repeated leading field from what follows.
pub open spec fn is_separator(c: char) -> bool {
    is_whitespace(c) || c == ':' || c == '-' || c == '\u{2013}' || c == '\u{2014}' || c == '\u{b7}' || c == '|'
}

pub open spec fn trim_separators(s: Seq<char>) -> Seq<char>
    decreases s.len(),
{
    if s.len() > 0 && is_separator(s[0]) {
        trim_separators(s.drop_first())
    } else {
        s
    }
}

/// `value` with a leading copy of `repeated` (ignoring ASCII case) and the
/// separators after it removed; nothing when it does not start so.
pub open spec fn without_leading(value: Seq<char>, repeated: Seq<char>) -> Option<Seq<char>> {
    if value.len() >= repeated.len() && ascii_lower_seq(value.take(repeated.len() as int)) == ascii_lower_seq(repeated) {
        Some(trim_separators(value.skip(repeated.len() as int)))
    } else {
        None
    }
}

/// The letters and digits of `s`, lower-cased: the key under which two
/// pieces of copy count as the same.
pub open spec fn copy_key_spec(s: Seq<char>) -> Seq<char>
    decreases s.len(),
{
    if s.len() == 0 {
        Seq::empty()
    } else {
        let c = s.last();
        copy_key_spec(s.drop_last()) + (if unicode_alphabetic(c) || unicode_numeric(c) { unicode_lowercase(c) } else { Seq::empty() })
    }
}

fn is_separator_char(c: char) -> (r: bool)
    ensures
        r == is_separator(c),
{
    whitespace(c) || c == ':' || c == '-' || c == '\u{2013}' || c == '\u{2014}' || c == '\u{b7}' || c == '|'
}

fn copy_without_leading(value: &Vec<char>, repeated: &Vec<char>) -> (r: Option<Vec<char>>)
    ensures
        match r {
            Some(v) => without_leading(value@, repeated@) == Some(v@),
            None => without_leading(value@, repeated@) is None,
        },
{
    let n = repeated.len();
    if value.len() < n {
        return None;
    }
    let mut i: usize = 0;
    while i < n
        invariant
            n == repeated@.len(),
            n <= value@.len(),
            i <= n,
            forall|k: int| 0 <= k < i ==> crate::text::ascii_lower(value@[k]) == crate::text::ascii_lower(repeated@[k]),
        decreases n - i,
    {
        if to_ascii_lower(value[i]) != to_ascii_lower(repeated[i]) {
            proof {
                assert(ascii_lower_seq(value@.take(n as int))[i as int] != ascii_lower_seq(repeated@)[i as int]);
            }
            return None;
        }
        i = i + 1;
    }
    proof {
        assert(ascii_lower_seq(value@.take(n as int)) =~= ascii_lower_seq(repeated@));
    }
    let mut start = n;
    while start < value.len() && is_separator_char(value[start])
        invariant
            n <= start <= value@.len(),
            trim_separators(value@.skip(n as int)) == trim_separators(value@.skip(start as int)),
        decreases value@.len() - start,
    {
        proof {
            assert(value@.skip(start as int).drop_first() =~= value@.skip(start + 1));
        }
        start = start + 1;
    }
    let mut out: Vec<char> = Vec::new();
    let mut k = start;
    while k < value.len()
        invariant
            start <= k <= value@.len(),
            out@ == value@.subrange(start as int, k as int),
        decreases value@.len() - k,
    {
        out.push(value[k]);
        k = k + 1;
    }
    proof {
        assert(out@ =~= value@.skip(start as int));
        if start < value@.len() {
            assert(!is_separator(value@.skip(start as int)[0]));
        }
    }
    Some(out)
}

fn copy_key(value: &Vec<char>) -> (r: Vec<char>)
    ensures
        r@ == copy_key_spec(value@),
{
    let mut out: Vec<char> = Vec::new();
    let mut i: usize = 0;
    while i < value.len()
        invariant
            i <= value@.len(),
            out@ == copy_key_spec(value@.take(i as int)),
        decreases value@.len() - i,
    {
        proof {
            assert(value@.take(i + 1).drop_last() =~= value@.take(i as int));
        }
        let c = value[i];
        if alphabetic(c) || numeric(c) {
            let lower = lowercase_chars(c);
            let mut j: usize = 0;
            let ghost before = out@;
            while j < lower.len()
                invariant
                    j <= lower@.len(),
                    out@ == before + lower@.take(j as int),
                decreases lower@.len() - j,
            {
                out.push(lower[j]);
                j = j + 1;
                proof {
                    assert(lower@.take(j as int) =~= lower@.take(j - 1).push(lower@[j - 1]));
                }
            }
            proof {
                assert(lower@.take(lower@.len() as int) =~= lower@);
            }
        } else {
            proof {
                assert(out@ + Seq::<char>::empty() =~= out@);
            }
        }
        i = i + 1;
    }
    proof {
        assert(value@.take(value@.len() as int) =~= value@);
    }
    out
}


/// The trimmed, non-empty strings among `ss`, in order.
pub open spec fn nonempty_trimmed(ss: Seq<Seq<char>>) -> Seq<Seq<char>>
    decreases ss.len(),
{
    if ss.len() == 0 {
        Seq::empty()
    } else {
        let rest = nonempty_trimmed(ss.drop_last());
        let t = trim_seq(ss.last());
        if t.len() > 0 { rest.push(t) } else { rest }
    }
}

proof fn lemma_trimmed_nonempty(ss: Seq<Seq<char>>)
    ensures
        forall|k: int| 0 <= k < nonempty_trimmed(ss).len() ==> (#[trigger] nonempty_trimmed(ss)[k]).len() > 0,
    decreases ss.len(),
{
    if ss.len() > 0 {
        lemma_trimmed_nonempty(ss.drop_last());
        let rest = nonempty_trimmed(ss.drop_last());
        let t = trim_seq(ss.last());
        if t.len() > 0 {
            assert forall|k: int| 0 <= k < rest.push(t).len() implies (#[trigger] rest.push(t)[k]).len() > 0 by {
                if k < rest.len() {
                    assert(rest.push(t)[k] == rest[k]);
                }
            }
        }
    }
}

/// The named authors of an item.
pub open spec fn authors_of(item: CollectorItem) -> Seq<Seq<char>> {
    match value_as_array(object_get(item.attributes, "authors"@)) {
        Some(a) => nonempty_trimmed(array_strings(a)),
        None => Seq::empty(),
    }
}

/// An item gathered by Google News, whose summary is a cluster of other
/// headlines rather than a synopsis.
pub open spec fn google_cluster(item: CollectorItem) -> bool {
    item.source.url is Some && match url_host(item.source.url.unwrap()@) {
        Some(h) => eq_ignore_ascii_case_spec(h, "news.google.com"@),
        None => false,
    }
}

/// The summary line a syndicated item shows: its summary with any repeat of
/// the headline removed, when that leaves something of substance and the
/// item is not a Google News cluster; or its summary when it says something
/// other than the headline; else who wrote it, at most two names, and how
/// long ago it was published.
pub open spec fn syndicated_detail_spec(item: CollectorItem, now_ms: i64) -> Seq<char> {
    let title = bounded_text_spec(item.title@, 360);
    let summary = match item.summary {
        Some(s) => if bounded_text_spec(s@, 360).len() > 0 { Some(bounded_text_spec(s@, 360)) } else { None },
        None => None,
    };
    let chosen = match summary {
        Some(sm) => match without_leading(sm, title) {
            Some(rem) => if !google_cluster(item) && copy_key_spec(rem).len() > 0 { Some(bounded_text_spec(rem, 360)) } else { None },
            None => if copy_key_spec(sm) != copy_key_spec(title) { Some(sm) } else { None },
        },
        None => None,
    };
    let age = publication_age_text(publication_age_seconds(item, now_ms));
    let authors = authors_of(item);
    match chosen {
        Some(t) => t,
        None => if authors.len() == 0 {
            "Published "@ + age
        } else {
            bounded_text_spec("By "@ + joined(authors.take(if authors.len() < 2 { authors.len() as int } else { 2 }), ", "@) + " · "@ + age, 360)
        },
    }
}

fn first_two_authors(item: &CollectorItem) -> (r: String)
    ensures
        r@ == joined(authors_of(*item).take(if authors_of(*item).len() < 2 { authors_of(*item).len() as int } else { 2 }), ", "@),
        r@.len() == 0 <==> authors_of(*item).len() == 0,
{
    let names = crate::rules::scope_strings_of_object(&item.attributes, "authors");
    let ghost views = crate::preferences::str_views(names@);
    proof {
        crate::rules::lemma_str_views_len(names@);
        assert(views == crate::json::scope_strings_spec(item.attributes, "authors"@));
        assert(nonempty_trimmed(views) == authors_of(*item));
    }
    let mut kept: Vec<Vec<char>> = Vec::new();
    let mut i: usize = 0;
    while i < names.len()
        invariant
            i <= names@.len(),
            views == crate::preferences::str_views(names@),
            views.len() == names@.len(),
            kept@.len() <= 2,
            forall|k: int| 0 <= k < kept@.len() ==> kept@[k]@ == #[trigger] nonempty_trimmed(views.take(i as int))[k],
            kept@.len() == (if nonempty_trimmed(views.take(i as int)).len() < 2 { nonempty_trimmed(views.take(i as int)).len() } else { 2 }),
        decreases names@.len() - i,
    {
        proof {
            crate::rules::lemma_str_views_index(names@, i as int);
            assert(views.take(i + 1).drop_last() =~= views.take(i as int));
            assert(views.take(i + 1).last() == views[i as int]);
        }
        let t = trim_chars(names[i]);
        if t.len() > 0 && kept.len() < 2 {
            kept.push(t);
        }
        i = i + 1;
    }
    proof {
        assert(views.take(names@.len() as int) =~= views);
    }
    let ghost all = nonempty_trimmed(views);
    let ghost shown = all.take(if all.len() < 2 { all.len() as int } else { 2 });
    if kept.len() == 0 {
        return String::new();
    }
    let mut text = string_from_chars(&kept[0]);
    proof {
        assert(shown.take(1) =~= seq![shown[0]]);
        assert(joined(shown.take(1), ", "@) == shown[0]);
    }
    if kept.len() == 2 {
        text.append(", ");
        let second = string_from_chars(&kept[1]);
        text.append(second.as_str());
        proof {
            assert(shown.take(2).drop_last() =~= shown.take(1));
            assert(shown.take(2) =~= shown);
        }
    } else {
        proof {
            assert(shown.take(1) =~= shown);
        }
    }
    proof {
        lemma_trimmed_nonempty(views);
        assert(shown[0] == all[0]);
        crate::summary::lemma_joined_nonempty(shown, ", "@);
    }
    text
}


fn is_google_cluster(item: &CollectorItem) -> (r: bool)
    ensures
        r == google_cluster(*item),
{
    proof {
        reveal_strlit("news.google.com");
    }
    match &item.source.url {
        Some(u) => match host_of(u.as_str()) {
            Some(h) => eq_ignore_ascii_case(h.as_str(), "news.google.com"),
            None => false,
        },
        None => false,
    }
}

/// The detail line of a syndicated news or sports item.
pub fn syndicated_item_detail(item: &CollectorItem, now_ms: i64) -> (r: String)
    ensures
        r@ == syndicated_detail_spec(*item, now_ms),
{
    let title = bounded_signal_text(item.title.as_str(), 360);
    let title_chars = str_chars(title.as_str());
    let summary: Option<String> = match &item.summary {
        Some(s) => {
            let b = bounded_signal_text(s.as_str(), 360);
            if b.as_str().unicode_len() > 0 {
                Some(b)
            } else {
                None
            }
        },
        None => None,
    };
    match &summary {
        Some(sm) => {
            let sm_chars = str_chars(sm.as_str());
            match copy_without_leading(&sm_chars, &title_chars) {
                Some(rem) => {
                    if !is_google_cluster(item) && copy_key(&rem).len() > 0 {
                        let rem_text = string_from_chars(&rem);
                        return bounded_signal_text(rem_text.as_str(), 360);
                    }
                },
                None => {
                    let a = copy_key(&sm_chars);
                    let b = copy_key(&title_chars);
                    if !chars_eq(&a, &b) {
                        return owned(sm.as_str());
                    }
                },
            }
        },
        None => {},
    }
    let age = publication_age(item, now_ms);
    let authors = first_two_authors(item);
    if authors.as_str().unicode_len() == 0 {
        concat("Published ", age.as_str())
    } else {
        let mut line = concat("By ", authors.as_str());
        line.append(" · ");
        line.append(age.as_str());
        bounded_signal_text(line.as_str(), 360)
    }
}

} // verus!
