//! Text that reaches a panel: one line, no control or direction-override
//! characters, and never longer than the panel allows.

use vstd::prelude::*;

use crate::text::{control, is_control, is_whitespace, push_char, str_chars, string_from_chars, whitespace};

verus! {

/// An explicit direction embedding, override or isolate character.
pub open spec fn is_bidi_control(c: char) -> bool {
    ('\u{202a}' <= c && c <= '\u{202e}') || ('\u{2066}' <= c && c <= '\u{2069}')
}

/// A character as the panel may show it: controls and direction characters
/// become spaces.
pub open spec fn clean_char(c: char) -> char {
    if is_control(c) || is_bidi_control(c) {
        ' '
    } else {
        c
    }
}

/// Reading `s` left to right, keeping its words and putting a single space
/// between neighbouring ones. The flag says whether a space is owed before
/// the next word.
pub open spec fn squeeze(s: Seq<char>) -> (Seq<char>, bool)
    decreases s.len(),
{
    if s.len() == 0 {
        (Seq::empty(), false)
    } else {
        let (out, pending) = squeeze(s.drop_last());
        let c = s.last();
        if is_whitespace(c) {
            (out, out.len() > 0)
        } else if pending {
            (out.push(' ').push(c), false)
        } else {
            (out.push(c), false)
        }
    }
}

/// The words of `s` after cleaning, joined by single spaces.
pub open spec fn cleaned_text(s: Seq<char>) -> Seq<char> {
    squeeze(s.map_values(|c: char| clean_char(c))).0
}

/// `cleaned_text(s)` cut to `max_chars` characters, the last of them an
/// ellipsis when anything was cut.
pub open spec fn bounded_text_spec(s: Seq<char>, max_chars: nat) -> Seq<char> {
    let cleaned = cleaned_text(s);
    if cleaned.len() <= max_chars {
        cleaned
    } else {
        cleaned.take(if max_chars >= 1 { max_chars - 1 } else { 0 }).push('…')
    }
}

/// Neither end is a space, no two spaces touch, and nothing but a plain
/// space is whitespace.
pub open spec fn single_spaced(t: Seq<char>) -> bool {
    &&& forall|i: int| 0 <= i < t.len() ==> !is_control(#[trigger] t[i]) && !is_bidi_control(t[i])
    &&& forall|i: int| 0 <= i < t.len() && is_whitespace(#[trigger] t[i]) ==> t[i] == ' '
    &&& t.len() > 0 ==> t[0] != ' ' && t.last() != ' '
}

proof fn lemma_squeeze_shape(s: Seq<char>)
    requires
        forall|i: int| 0 <= i < s.len() ==> !is_control(#[trigger] s[i]) && !is_bidi_control(s[i]),
    ensures
        single_spaced(squeeze(s).0),
        squeeze(s).1 ==> squeeze(s).0.len() > 0,
    decreases s.len(),
{
    if s.len() > 0 {
        let p = s.drop_last();
        assert forall|i: int| 0 <= i < p.len() implies !is_control(#[trigger] p[i]) && !is_bidi_control(p[i]) by {
            assert(p[i] == s[i]);
        }
        lemma_squeeze_shape(p);
        let (out, pending) = squeeze(p);
        let c = s.last();
        assert(!is_control(c) && !is_bidi_control(c)) by {
            assert(c == s[s.len() - 1]);
        }
        if is_whitespace(c) {
        } else if pending {
            let r = out.push(' ').push(c);
            assert forall|i: int| 0 <= i < r.len() && is_whitespace(#[trigger] r[i]) implies r[i] == ' ' by {
                if i < out.len() {
                    assert(r[i] == out[i]);
                }
            }
            assert forall|i: int| 0 <= i < r.len() implies !is_control(#[trigger] r[i]) && !is_bidi_control(r[i]) by {
                if i < out.len() {
                    assert(r[i] == out[i]);
                }
            }
        } else {
            let r = out.push(c);
            assert forall|i: int| 0 <= i < r.len() && is_whitespace(#[trigger] r[i]) implies r[i] == ' ' by {
                if i < out.len() {
                    assert(r[i] == out[i]);
                }
            }
            assert forall|i: int| 0 <= i < r.len() implies !is_control(#[trigger] r[i]) && !is_bidi_control(r[i]) by {
                if i < out.len() {
                    assert(r[i] == out[i]);
                }
            }
        }
    }
}

/// The cleaned text is one line of words: no control or direction
/// characters, and single spaces only between words.
pub proof fn lemma_cleaned_text_is_single_spaced(s: Seq<char>)
    ensures
        single_spaced(cleaned_text(s)),
{
    let m = s.map_values(|c: char| clean_char(c));
    assert forall|i: int| 0 <= i < m.len() implies !is_control(#[trigger] m[i]) && !is_bidi_control(m[i]) by {
        assert(m[i] == clean_char(s[i]));
    }
    lemma_squeeze_shape(m);
}

/// What reaches the panel never exceeds `max_chars` characters and carries no
/// control or direction-override character.
pub proof fn lemma_bounded_text_is_bounded(s: Seq<char>, max_chars: nat)
    requires
        max_chars >= 1,
    ensures
        bounded_text_spec(s, max_chars).len() <= max_chars,
        forall|i: int| 0 <= i < bounded_text_spec(s, max_chars).len()
            ==> !is_control(#[trigger] bounded_text_spec(s, max_chars)[i]) && !is_bidi_control(bounded_text_spec(s, max_chars)[i]),
{
    lemma_cleaned_text_is_single_spaced(s);
    let cleaned = cleaned_text(s);
    let r = bounded_text_spec(s, max_chars);
    if cleaned.len() > max_chars {
        assert forall|i: int| 0 <= i < r.len() implies !is_control(#[trigger] r[i]) && !is_bidi_control(r[i]) by {
            if i < max_chars - 1 {
                assert(r[i] == cleaned[i]);
            } else {
                assert(r[i] == '…');
            }
        }
    }
}

/// No two spaces stand side by side.
pub open spec fn no_double_space(t: Seq<char>) -> bool {
    forall|i: int| 0 <= i < t.len() - 1 ==> !(#[trigger] t[i] == ' ' && t[i + 1] == ' ')
}

proof fn lemma_squeeze_no_double_space(s: Seq<char>)
    requires
        forall|i: int| 0 <= i < s.len() ==> !is_control(#[trigger] s[i]) && !is_bidi_control(s[i]),
    ensures
        no_double_space(squeeze(s).0),
    decreases s.len(),
{
    if s.len() > 0 {
        let p = s.drop_last();
        assert forall|i: int| 0 <= i < p.len() implies !is_control(#[trigger] p[i]) && !is_bidi_control(p[i]) by {
            assert(p[i] == s[i]);
        }
        lemma_squeeze_no_double_space(p);
        lemma_squeeze_shape(p);
        let (out, pending) = squeeze(p);
        let c = s.last();
        if is_whitespace(c) {
        } else if pending {
            let r = out.push(' ').push(c);
            assert forall|i: int| 0 <= i < r.len() - 1 implies !(#[trigger] r[i] == ' ' && r[i + 1] == ' ') by {
                if i + 1 < out.len() {
                    assert(r[i] == out[i] && r[i + 1] == out[i + 1]);
                } else if i + 1 == out.len() {
                    assert(r[i] == out.last());
                }
            }
        } else {
            let r = out.push(c);
            assert forall|i: int| 0 <= i < r.len() - 1 implies !(#[trigger] r[i] == ' ' && r[i + 1] == ' ') by {
                assert(r[i] == out[i]);
            }
        }
    }
}

/// Text that is already clean: no control or bidirectional characters, no
/// whitespace but single spaces, and none at either end.
pub open spec fn clean_form(t: Seq<char>) -> bool {
    single_spaced(t) && no_double_space(t)
}

proof fn lemma_squeeze_clean_prefix(t: Seq<char>, i: int)
    requires
        clean_form(t),
        0 <= i <= t.len(),
    ensures
        squeeze(t.take(i)) == (if i > 0 && t[i - 1] == ' ' {
            (t.take(i - 1), true)
        } else {
            (t.take(i), false)
        }),
    decreases i,
{
    if i > 0 {
        lemma_squeeze_clean_prefix(t, i - 1);
        assert(t.take(i).drop_last() == t.take(i - 1));
        assert(t.take(i).last() == t[i - 1]);
        let c = t[i - 1];
        if is_whitespace(c) {
            assert(c == ' ');
            assert(i - 1 > 0);
            assert(t[i - 2] != ' ');
            assert(t.take(i - 1).len() > 0);
        } else if i >= 2 && t[i - 2] == ' ' {
            assert(t.take(i - 2).push(' ').push(c) == t.take(i));
        } else {
            assert(t.take(i - 1).push(c) == t.take(i));
        }
    } else {
        assert(t.take(0) == Seq::<char>::empty());
    }
}

/// Cleaning leaves clean text as it is.
pub proof fn lemma_clean_text_is_fixed(t: Seq<char>)
    requires
        clean_form(t),
    ensures
        cleaned_text(t) == t,
{
    let m = t.map_values(|c: char| clean_char(c));
    assert(m == t);
    lemma_squeeze_clean_prefix(t, t.len() as int);
    assert(t.take(t.len() as int) == t);
}

/// Cleaned text is in clean form.
pub proof fn lemma_cleaned_text_is_clean(s: Seq<char>)
    ensures
        clean_form(cleaned_text(s)),
{
    lemma_cleaned_text_is_single_spaced(s);
    let m = s.map_values(|c: char| clean_char(c));
    assert forall|i: int| 0 <= i < m.len() implies !is_control(#[trigger] m[i]) && !is_bidi_control(m[i]) by {
        assert(m[i] == clean_char(s[i]));
    }
    lemma_squeeze_no_double_space(m);
}

/// Bounding is idempotent: bounding bounded text again changes nothing.
pub proof fn lemma_bounded_text_idempotent(s: Seq<char>, max_chars: nat)
    ensures
        bounded_text_spec(bounded_text_spec(s, max_chars), max_chars) == bounded_text_spec(s, max_chars),
{
    lemma_cleaned_text_is_clean(s);
    let cleaned = cleaned_text(s);
    let t = bounded_text_spec(s, max_chars);
    if cleaned.len() <= max_chars {
        lemma_clean_text_is_fixed(cleaned);
    } else {
        let k: int = if max_chars >= 1 { max_chars - 1 } else { 0 };
        let head = cleaned.take(k);
        assert(t == head.push('…'));
        assert(!is_whitespace('…') && !is_control('…') && !is_bidi_control('…'));
        assert forall|i: int| 0 <= i < t.len() implies !is_control(#[trigger] t[i]) && !is_bidi_control(t[i]) by {
            if i < k {
                assert(t[i] == cleaned[i]);
            }
        }
        assert forall|i: int| 0 <= i < t.len() && is_whitespace(#[trigger] t[i]) implies t[i] == ' ' by {
            if i < k {
                assert(t[i] == cleaned[i]);
            }
        }
        assert forall|i: int| 0 <= i < t.len() - 1 implies !(#[trigger] t[i] == ' ' && t[i + 1] == ' ') by {
            if i + 1 < k {
                assert(t[i] == cleaned[i] && t[i + 1] == cleaned[i + 1]);
            }
        }
        if k > 0 {
            assert(t[0] == cleaned[0]);
        }
        assert(clean_form(t));
        lemma_clean_text_is_fixed(t);
    }
}

fn clean(c: char) -> (r: char)
    ensures
        r == clean_char(c),
{
    if control(c) || ('\u{202a}' <= c && c <= '\u{202e}') || ('\u{2066}' <= c && c <= '\u{2069}') {
        ' '
    } else {
        c
    }
}

/// `value` as one clean line of at most `max_chars` characters.
pub fn bounded_signal_text(value: &str, max_chars: usize) -> (r: String)
    ensures
        r@ == bounded_text_spec(value@, max_chars as nat),
{
    let chars = str_chars(value);
    let ghost mapped = value@.map_values(|c: char| clean_char(c));
    let mut out: Vec<char> = Vec::new();
    let mut pending = false;
    let mut i: usize = 0;
    while i < chars.len()
        invariant
            chars@ == value@,
            mapped == value@.map_values(|c: char| clean_char(c)),
            i <= chars@.len(),
            (out@, pending) == squeeze(mapped.take(i as int)),
        decreases chars@.len() - i,
    {
        let c = clean(chars[i]);
        proof {
            assert(mapped.take(i + 1).drop_last() == mapped.take(i as int));
            assert(mapped.take(i + 1).last() == c);
        }
        if whitespace(c) {
            pending = out.len() > 0;
        } else {
            if pending {
                out.push(' ');
            }
            out.push(c);
            pending = false;
        }
        i = i + 1;
    }
    proof {
        assert(mapped.take(chars@.len() as int) == mapped);
    }
    if out.len() <= max_chars {
        return string_from_chars(&out);
    }
    let keep = if max_chars >= 1 { max_chars - 1 } else { 0 };
    let mut bounded: Vec<char> = Vec::new();
    let mut k: usize = 0;
    while k < keep
        invariant
            keep < out@.len(),
            k <= keep,
            bounded@ == out@.take(k as int),
        decreases keep - k,
    {
        bounded.push(out[k]);
        k = k + 1;
        proof {
            assert(bounded@ =~= out@.take(k as int));
        }
    }
    bounded.push('…');
    string_from_chars(&bounded)
}

/// `value` cleaned and bounded, or nothing when no text is left.
pub fn bounded_optional_signal_text(value: Option<&str>, max_chars: usize) -> (r: Option<String>)
    ensures
        match value {
            Some(v) => if bounded_text_spec(v@, max_chars as nat).len() > 0 {
                r is Some && r.unwrap()@ == bounded_text_spec(v@, max_chars as nat)
            } else {
                r is None
            },
            None => r is None,
        },
{
    match value {
        Some(v) => {
            let t = bounded_signal_text(v, max_chars);
            if t.unicode_len() == 0 {
                None
            } else {
                Some(t)
            }
        },
        None => None,
    }
}

/// `value` cleaned and bounded, or `fallback` so when no text is left.
pub fn signal_text(value: Option<&str>, fallback: &str, max_chars: usize) -> (r: String)
    ensures
        r@ == match value {
            Some(v) => if bounded_text_spec(v@, max_chars as nat).len() > 0 {
                bounded_text_spec(v@, max_chars as nat)
            } else {
                bounded_text_spec(fallback@, max_chars as nat)
            },
            None => bounded_text_spec(fallback@, max_chars as nat),
        },
{
    match bounded_optional_signal_text(value, max_chars) {
        Some(t) => t,
        None => bounded_signal_text(fallback, max_chars),
    }
}

} // verus!
