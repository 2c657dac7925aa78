//! Syndicated items: which headlines a news or sports channel accepts, which
//! sports items report roster moves, and how old a story reads.

use vstd::prelude::*;

use crate::dto::ChannelPreference;
use crate::item::{CollectorItem, ItemKind};
use crate::json::{scope_strings_spec, JsonValue};
use crate::rules::{contains_chars, contains_text, scope_boolean, scope_boolean_spec, scope_strings};
use crate::text::{
    ascii_lower, ascii_lower_seq, concat, decimal_digits, is_ascii_alphanumeric, owned, str_chars,
    to_ascii_lower, u64_to_decimal,
};

verus! {

/// The text of several strings, each lower-cased and preceded by a space.
pub open spec fn spaced_lower(texts: Seq<Seq<char>>) -> Seq<char>
    decreases texts.len(),
{
    if texts.len() == 0 {
        Seq::empty()
    } else {
        spaced_lower(texts.drop_last()) + seq![' '] + ascii_lower_seq(texts.last())
    }
}

/// What topics are searched in: the title, the summary and the categories,
/// lower-cased and joined by spaces.
pub open spec fn searchable_text(item: CollectorItem) -> Seq<char> {
    let summary = match item.summary {
        Some(s) => seq![' '] + ascii_lower_seq(s@),
        None => Seq::empty(),
    };
    ascii_lower_seq(item.title@) + summary + spaced_lower(scope_strings_spec(item.attributes, "categories"@))
}

/// One of `topics` occurs in `text`, ignoring ASCII case.
pub open spec fn mentions_any(text: Seq<char>, topics: Seq<Seq<char>>) -> bool {
    exists|i: int| 0 <= i < topics.len() && contains_text(text, ascii_lower_seq(#[trigger] topics[i]))
}

/// The five minutes a publisher's clock may run ahead.
pub open spec fn max_future_skew_ms() -> int {
    300_000
}

/// A headline a news or sports channel shows: a current news item, no older
/// than the channel's age limit and not from the future beyond clock skew,
/// naming no excluded topic, naming a chosen topic when topics are chosen,
/// and breaking when only breaking news is wanted.
pub open spec fn news_matches_spec(item: CollectorItem, c: ChannelPreference, now_ms: i64) -> bool {
    let text = searchable_text(item);
    let topics = scope_strings_spec(c.scope, "topics"@);
    &&& item.kind == ItemKind::News
    &&& item.observed_at_ms is Some
    &&& item.observed_at_ms.unwrap() <= now_ms + max_future_skew_ms()
    &&& (if now_ms - item.observed_at_ms.unwrap() > 0 { now_ms - item.observed_at_ms.unwrap() } else { 0 })
        <= c.max_age_minutes * 60_000
    &&& !mentions_any(text, scope_strings_spec(c.scope, "excludeTopics"@))
    &&& (topics.len() == 0 || mentions_any(text, topics))
    &&& (!scope_boolean_spec(c.scope, "breakingOnly"@, false) || contains_text(text, "breaking"@))
}

fn append_lower(out: &mut Vec<char>, s: &str)
    ensures
        final(out)@ == old(out)@ + ascii_lower_seq(s@),
{
    let v = str_chars(s);
    let mut i: usize = 0;
    while i < v.len()
        invariant
            v@ == s@,
            i <= v@.len(),
            out@ == old(out)@ + ascii_lower_seq(v@.take(i as int)),
        decreases v@.len() - i,
    {
        out.push(to_ascii_lower(v[i]));
        i = i + 1;
        proof {
            assert(ascii_lower_seq(v@.take(i as int)) =~= ascii_lower_seq(v@.take(i - 1)).push(ascii_lower(v@[i - 1])));
            assert(out@ =~= old(out)@ + ascii_lower_seq(v@.take(i as int)));
        }
    }
    proof {
        assert(v@.take(v@.len() as int) =~= v@);
    }
}

fn searchable(item: &CollectorItem) -> (r: Vec<char>)
    ensures
        r@ == searchable_text(*item),
{
    let mut out: Vec<char> = Vec::new();
    append_lower(&mut out, item.title.as_str());
    assert(out@ =~= ascii_lower_seq(item.title@));
    let ghost head = out@;
    match &item.summary {
        Some(s) => {
            out.push(' ');
            append_lower(&mut out, s.as_str());
            assert(out@ =~= head + (seq![' '] + ascii_lower_seq(s@)));
        },
        None => {
            assert(out@ =~= head + Seq::<char>::empty());
        },
    }
    let ghost body = out@;
    let categories = crate::rules::scope_strings_of_object(&item.attributes, "categories");
    let ghost cats = scope_strings_spec(item.attributes, "categories"@);
    proof {
        crate::rules::lemma_str_views_len(categories@);
    }
    let mut k: usize = 0;
    while k < categories.len()
        invariant
            crate::preferences::str_views(categories@) == cats,
            cats.len() == categories@.len(),
            k <= categories@.len(),
            out@ == body + spaced_lower(cats.take(k as int)),
        decreases categories@.len() - k,
    {
        proof {
            crate::rules::lemma_str_views_index(categories@, k as int);
            assert(cats.take(k + 1).drop_last() == cats.take(k as int));
            assert(cats.take(k + 1).last() == categories@[k as int]@);
        }
        out.push(' ');
        append_lower(&mut out, categories[k]);
        k = k + 1;
        proof {
            assert(out@ =~= body + spaced_lower(cats.take(k as int)));
        }
    }
    proof {
        assert(cats.take(cats.len() as int) == cats);
    }
    out
}

fn mentions(text: &Vec<char>, topics: &Vec<&str>) -> (r: bool)
    ensures
        r == mentions_any(text@, crate::preferences::str_views(topics@)),
{
    let ghost tv = crate::preferences::str_views(topics@);
    proof {
        crate::rules::lemma_str_views_len(topics@);
    }
    let mut i: usize = 0;
    while i < topics.len()
        invariant
            tv == crate::preferences::str_views(topics@),
            tv.len() == topics@.len(),
            i <= topics@.len(),
            forall|j: int| 0 <= j < i ==> !contains_text(text@, ascii_lower_seq(#[trigger] tv[j])),
        decreases topics@.len() - i,
    {
        proof {
            crate::rules::lemma_str_views_index(topics@, i as int);
        }
        let mut lowered: Vec<char> = Vec::new();
        append_lower(&mut lowered, topics[i]);
        assert(lowered@ =~= ascii_lower_seq(tv[i as int]));
        if contains_chars(text, &lowered) {
            return true;
        }
        i = i + 1;
    }
    false
}

pub fn news_item_matches_scope(item: &CollectorItem, channel: &ChannelPreference, now_ms: i64) -> (r: bool)
    ensures
        r == news_matches_spec(*item, *channel, now_ms),
{
    if item.kind != ItemKind::News {
        return false;
    }
    let observed = match item.observed_at_ms {
        Some(o) => o,
        None => return false,
    };
    if (observed as i128) > (now_ms as i128) + 300_000 {
        return false;
    }
    let elapsed = (now_ms as i128) - (observed as i128);
    let age = if elapsed > 0 { elapsed } else { 0 };
    if age > (channel.max_age_minutes as i128) * 60_000 {
        return false;
    }
    let text = searchable(item);
    let excluded = scope_strings(channel, "excludeTopics");
    if mentions(&text, &excluded) {
        return false;
    }
    let topics = scope_strings(channel, "topics");
    proof {
        crate::rules::lemma_str_views_len(topics@);
    }
    if topics.len() > 0 && !mentions(&text, &topics) {
        return false;
    }
    if scope_boolean(channel, "breakingOnly", false) {
        let word = str_chars("breaking");
        return contains_chars(&text, &word);
    }
    true
}

/// Whole seconds since an item was published, held to `i64::MAX`
/// milliseconds; zero when it has no time or lies in the future.
pub open spec fn publication_age_seconds(item: CollectorItem, now_ms: i64) -> int {
    match item.observed_at_ms {
        None => 0,
        Some(o) => {
            let elapsed = now_ms - o;
            let clamped = if elapsed > i64::MAX { i64::MAX as int } else if elapsed > 0 { elapsed } else { 0 };
            clamped / 1000
        },
    }
}

/// How old a story reads: just now, minutes, hours, or days.
pub open spec fn publication_age_text(age: int) -> Seq<char> {
    if age < 60 {
        "just now"@
    } else if age < 3600 {
        decimal_digits((age / 60) as nat) + " min ago"@
    } else if age < 86400 {
        decimal_digits((age / 3600) as nat) + " hr ago"@
    } else {
        decimal_digits((age / 86400) as nat) + " days ago"@
    }
}

pub fn publication_age(item: &CollectorItem, now_ms: i64) -> (r: String)
    ensures
        r@ == publication_age_text(publication_age_seconds(*item, now_ms)),
{
    let age: u64 = match item.observed_at_ms {
        None => 0,
        Some(o) => {
            let elapsed = (now_ms as i128) - (o as i128);
            let clamped: i128 = if elapsed > 0x7fff_ffff_ffff_ffff {
                0x7fff_ffff_ffff_ffff
            } else if elapsed > 0 {
                elapsed
            } else {
                0
            };
            (clamped / 1000) as u64
        },
    };
    if age < 60 {
        owned("just now")
    } else if age < 3600 {
        concat(u64_to_decimal(age / 60).as_str(), " min ago")
    } else if age < 86400 {
        concat(u64_to_decimal(age / 3600).as_str(), " hr ago")
    } else {
        concat(u64_to_decimal(age / 86400).as_str(), " days ago")
    }
}

/// The words that report a roster move.
pub open spec fn transaction_word(w: Seq<char>) -> bool {
    ||| w == "acquire"@ || w == "acquired"@ || w == "acquires"@
    ||| w == "claim"@ || w == "claimed"@
    ||| w == "draft"@ || w == "drafted"@ || w == "drafts"@
    ||| w == "extension"@
    ||| w == "release"@ || w == "released"@
    ||| w == "signing"@ || w == "signs"@
    ||| w == "trade"@ || w == "traded"@ || w == "trades"@
    ||| w == "waived"@ || w == "waivers"@
}

/// `t[i..j]` is a whole word: a non-empty run of ASCII letters and digits
/// with none on either side.
pub open spec fn word_at(t: Seq<char>, i: int, j: int) -> bool {
    &&& 0 <= i < j <= t.len()
    &&& (i == 0 || !is_ascii_alphanumeric(t[i - 1]))
    &&& (j == t.len() || !is_ascii_alphanumeric(t[j]))
    &&& forall|k: int| i <= k < j ==> is_ascii_alphanumeric(#[trigger] t[k])
}

/// `s`, lower-cased, contains a roster-move word as a whole word.
pub open spec fn names_transaction(s: Seq<char>) -> bool {
    let t = ascii_lower_seq(s);
    exists|i: int, j: int| #[trigger] word_at(t, i, j) && transaction_word(t.subrange(i, j))
}

/// A sports item that reports a roster move in its title, summary or one of
/// its categories, word for word.
pub open spec fn sports_transaction_spec(item: CollectorItem) -> bool {
    ||| names_transaction(item.title@)
    ||| item.summary is Some && names_transaction(item.summary.unwrap()@)
    ||| exists|i: int| 0 <= i < scope_strings_spec(item.attributes, "categories"@).len()
        && names_transaction(#[trigger] scope_strings_spec(item.attributes, "categories"@)[i])
}

proof fn lemma_word_start_unique(t: Seq<char>, i: int, i2: int, j: int)
    requires
        word_at(t, i, j),
        word_at(t, i2, j),
    ensures
        i == i2,
{
    if i < i2 {
        assert(is_ascii_alphanumeric(t[i2 - 1]));
    } else if i2 < i {
        assert(is_ascii_alphanumeric(t[i - 1]));
    }
}

fn is_transaction_word(w: &Vec<char>) -> (r: bool)
    ensures
        r == transaction_word(w@),
{
    let s = crate::text::string_from_chars(w);
    let t = s.as_str();
    crate::text::str_eq(t, "acquire") || crate::text::str_eq(t, "acquired") || crate::text::str_eq(t, "acquires")
        || crate::text::str_eq(t, "claim") || crate::text::str_eq(t, "claimed")
        || crate::text::str_eq(t, "draft") || crate::text::str_eq(t, "drafted") || crate::text::str_eq(t, "drafts")
        || crate::text::str_eq(t, "extension")
        || crate::text::str_eq(t, "release") || crate::text::str_eq(t, "released")
        || crate::text::str_eq(t, "signing") || crate::text::str_eq(t, "signs")
        || crate::text::str_eq(t, "trade") || crate::text::str_eq(t, "traded") || crate::text::str_eq(t, "trades")
        || crate::text::str_eq(t, "waived") || crate::text::str_eq(t, "waivers")
}

fn run_is_transaction(t: &Vec<char>, from: usize, to: usize) -> (r: bool)
    requires
        from <= to <= t@.len(),
    ensures
        r == transaction_word(t@.subrange(from as int, to as int)),
{
    let mut w: Vec<char> = Vec::new();
    let mut k = from;
    while k < to
        invariant
            from <= k <= to <= t@.len(),
            w@ == t@.subrange(from as int, k as int),
        decreases to - k,
    {
        w.push(t[k]);
        k = k + 1;
        proof {
            assert(w@ =~= t@.subrange(from as int, k as int));
        }
    }
    is_transaction_word(&w)
}

/// Whether `s` names a roster move as a whole word, ignoring ASCII case.
pub fn names_transaction_word(s: &str) -> (r: bool)
    ensures
        r == names_transaction(s@),
{
    let mut t: Vec<char> = Vec::new();
    append_lower(&mut t, s);
    assert(t@ =~= ascii_lower_seq(s@));
    let n = t.len();
    let mut start: usize = 0;
    let mut k: usize = 0;
    while k < n
        invariant
            n == t@.len(),
            t@ == ascii_lower_seq(s@),
            start <= k <= n,
            start == 0 || !is_ascii_alphanumeric(t@[start - 1]),
            forall|m: int| start <= m < k ==> is_ascii_alphanumeric(#[trigger] t@[m]),
            forall|i: int, j: int| #[trigger] word_at(t@, i, j) && j < k ==> !transaction_word(t@.subrange(i, j)),
        decreases n - k,
    {
        let c = t[k];
        if !crate::text::ascii_alphanumeric(c) {
            if start < k && run_is_transaction(&t, start, k) {
                assert(word_at(t@, start as int, k as int));
                return true;
            }
            proof {
                assert forall|i: int, j: int| #[trigger] word_at(t@, i, j) && j < k + 1
                    implies !transaction_word(t@.subrange(i, j)) by {
                    if j == k {
                        if start < k {
                            assert(word_at(t@, start as int, k as int));
                            lemma_word_start_unique(t@, i, start as int, j);
                        } else {
                            assert(is_ascii_alphanumeric(t@[i]));
                            if i < start {
                                assert(is_ascii_alphanumeric(t@[start - 1]));
                            }
                        }
                    }
                }
            }
            start = k + 1;
        } else {
            proof {
                assert forall|i: int, j: int| #[trigger] word_at(t@, i, j) && j < k + 1
                    implies !transaction_word(t@.subrange(i, j)) by {
                    if j == k {
                        assert(t@[k as int] == c);
                        assert(!is_ascii_alphanumeric(t@[j]));
                    }
                }
            }
        }
        k = k + 1;
    }
    if start < n && run_is_transaction(&t, start, n) {
        assert(word_at(t@, start as int, n as int));
        return true;
    }
    proof {
        assert forall|i: int, j: int| #[trigger] word_at(t@, i, j) implies !transaction_word(t@.subrange(i, j)) by {
            if j == n {
                if start < n {
                    assert(word_at(t@, start as int, n as int));
                    lemma_word_start_unique(t@, i, start as int, j);
                } else {
                    assert(is_ascii_alphanumeric(t@[i]));
                    if i < start {
                        assert(is_ascii_alphanumeric(t@[start - 1]));
                    }
                }
            }
        }
    }
    false
}

#[verifier::loop_isolation(false)]
pub fn sports_item_is_transaction(item: &CollectorItem) -> (r: bool)
    ensures
        r == sports_transaction_spec(*item),
{
    if names_transaction_word(item.title.as_str()) {
        return true;
    }
    match &item.summary {
        Some(s) => {
            if names_transaction_word(s.as_str()) {
                return true;
            }
        },
        None => {},
    }
    let categories = crate::rules::scope_strings_of_object(&item.attributes, "categories");
    let ghost cats = scope_strings_spec(item.attributes, "categories"@);
    proof {
        crate::rules::lemma_str_views_len(categories@);
    }
    let mut i: usize = 0;
    while i < categories.len()
        invariant
            crate::preferences::str_views(categories@) == cats,
            cats.len() == categories@.len(),
            i <= categories@.len(),
            forall|k: int| 0 <= k < i ==> !names_transaction(#[trigger] cats[k]),
        decreases categories@.len() - i,
    {
        proof {
            crate::rules::lemma_str_views_index(categories@, i as int);
        }
        if names_transaction_word(categories[i]) {
            assert(names_transaction(cats[i as int]));
            return true;
        }
        i = i + 1;
    }
    false
}

} // verus!
