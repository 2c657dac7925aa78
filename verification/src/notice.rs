//! The signal of an authored item: an official alert, a cyclone advisory,
//! a headline or a sports story. Measured material (weather, quakes,
//! quotes) is composed beside the library, where its numbers live.

use vstd::prelude::*;

use crate::ais::{iso_timestamp, renders, rfc3339_of_millis, sat_add_i64};
use crate::dto::{ChannelKindDto, ChannelPreference, ChannelSignalDto};
use crate::item::{item_publisher, item_text, CollectorItem};
use crate::json::{object_get, value_as_number, JsonNumber};
use crate::news::{sports_item_is_transaction, sports_transaction_spec};
use crate::number::pow10;
use crate::rules::{news_breaking_spec, news_item_is_breaking};
use crate::signal::{bounded_optional_signal_text, bounded_signal_text, bounded_text_spec, signal_text};
use crate::syndication::{syndicated_detail_spec, syndicated_item_detail};
use crate::text::{owned, trim_seq};

verus! {

/// `x` held to `0..=i64::MAX`.
pub open spec fn clamp_ms(x: int) -> i64 {
    if x < 0 { 0 } else if x > i64::MAX { i64::MAX } else { x as i64 }
}

/// A number of minutes as whole milliseconds, rounded half away from zero
/// and held to `0..=i64::MAX`; nothing for a negative number.
pub open spec fn minutes_ms(n: JsonNumber) -> Option<i64> {
    let (m, e) = match n {
        JsonNumber::Integer(i) => (i as int, 0int),
        JsonNumber::Float(d) => (d.mantissa as int, d.exponent as int),
    };
    if m < 0 {
        None
    } else if e + 4 >= 0 {
        Some(clamp_ms(6 * m * pow10((e + 4) as nat)))
    } else {
        let p = pow10((-(e + 4)) as nat);
        Some(clamp_ms((12 * m + p) / (2 * p)))
    }
}

/// When an authored item stops being current without a provider end: its
/// observation time plus the channel's age window. Earthquakes use their
/// scope's event age when it has one.
pub open spec fn authored_expiration_spec(kind: ChannelKindDto, c: ChannelPreference, item: CollectorItem) -> Option<i64> {
    match item.observed_at_ms {
        None => None,
        Some(observed) => match kind {
            ChannelKindDto::Hurricane | ChannelKindDto::News | ChannelKindDto::Sports | ChannelKindDto::Markets =>
                Some(sat_add_i64(observed, (c.max_age_minutes as int * 60_000) as i64)),
            ChannelKindDto::Earthquake => {
                let minutes = match value_as_number(object_get(c.scope, "eventAgeMinutes"@)) {
                    Some(n) => n,
                    None => JsonNumber::Integer(c.max_age_minutes as i128),
                };
                match minutes_ms(minutes) {
                    Some(d) => Some(sat_add_i64(observed, d)),
                    None => None,
                }
            },
            _ => None,
        },
    }
}

proof fn lemma_pow10_small()
    ensures
        pow10(0) == 1, pow10(1) == 10, pow10(2) == 100, pow10(3) == 1000, pow10(4) == 10000,
{
    assert(pow10(0) == 1);
    assert(pow10(1) == 10);
    assert(pow10(2) == 100);
    assert(pow10(3) == 1000);
    assert(pow10(4) == 10000);
}

fn minutes_to_ms(n: JsonNumber) -> (r: Option<i64>)
    ensures
        r == minutes_ms(n),
{
    proof {
        crate::number::lemma_pow10_values();
        lemma_pow10_small();
    }
    let (m, e): (i128, i64) = match n {
        JsonNumber::Integer(i) => (i, 0),
        JsonNumber::Float(d) => (d.mantissa as i128, d.exponent as i64),
    };
    if m < 0 {
        return None;
    }
    let limit: i128 = i64::MAX as i128;
    if e + 4 >= 0 {
        let k = e + 4;
        proof {
            crate::number::lemma_pow10_positive(k as nat);
        }
        if m == 0 {
            proof {
                assert(6 * (m as int) * pow10(k as nat) == 0) by (nonlinear_arith) requires m == 0;
            }
            return Some(0);
        }
        // 6 × m × 10^k, held to the limit
        if k > 18 {
            proof {
                crate::number::lemma_pow10_at_least(k as nat, 19);
                assert(6 * m * pow10(k as nat) >= pow10(k as nat)) by (nonlinear_arith)
                    requires m >= 1, pow10(k as nat) >= 1;
            }
            return Some(i64::MAX);
        }
        let p = crate::number::pow10_exec(k as u32);
        match m.checked_mul(6) {
            None => {
                proof {
                    assert(6 * m * p >= 6 * m) by (nonlinear_arith) requires m >= 1, p >= 1;
                }
                Some(i64::MAX)
            },
            Some(six) => match six.checked_mul(p) {
                None => {
                    proof {
                        assert(six * p > 0) by (nonlinear_arith) requires six >= 6, p >= 1;
                    }
                    Some(i64::MAX)
                },
                Some(v) => {
                    if v > limit {
                        Some(i64::MAX)
                    } else {
                        Some(v as i64)
                    }
                },
            },
        }
    } else {
        let k = -(e + 4);
        if k > 20 {
            proof {
                crate::number::lemma_pow10_38();
                crate::number::lemma_pow10_at_least(k as nat, 21);
                assert(pow10(21) == 1000000000000000000000) by {
                    assert(pow10(20) == 10 * pow10(19));
                    assert(pow10(21) == 10 * pow10(20));
                }
                let p = pow10(k as nat);
                assert(12 * m + p < 2 * p) by (nonlinear_arith)
                    requires 0 <= m < 0x8000_0000_0000_0000, p >= 1000000000000000000000;
                assert((12 * m + p) / (2 * p) == 0) by (nonlinear_arith)
                    requires 0 <= 12 * m + p < 2 * p, p > 0;
            }
            return Some(0);
        }
        proof {
            crate::number::lemma_pow10_38();
            crate::number::lemma_pow10_at_least(20, k as nat);
            crate::number::lemma_pow10_positive(k as nat);
            assert(pow10(20) == 100000000000000000000) by {
                assert(pow10(20) == 10 * pow10(19));
            }
        }
        let p = crate::number::pow10_wide(k as u32);
        let q = (12 * m + p) / (2 * p);
        if q > limit {
            Some(i64::MAX)
        } else {
            Some(q as i64)
        }
    }
}

pub fn authored_item_expiration_ms(kind: ChannelKindDto, channel: &ChannelPreference, item: &CollectorItem) -> (r: Option<i64>)
    ensures
        r == authored_expiration_spec(kind, *channel, *item),
{
    let observed = match item.observed_at_ms {
        Some(t) => t,
        None => return None,
    };
    match kind {
        ChannelKindDto::Hurricane | ChannelKindDto::News | ChannelKindDto::Sports | ChannelKindDto::Markets => {
            let d: i64 = (channel.max_age_minutes as i64) * 60_000;
            Some(if observed > i64::MAX - d { i64::MAX } else { observed + d })
        },
        ChannelKindDto::Earthquake => {
            let minutes = match channel.scope.get_number("eventAgeMinutes") {
                Some(n) => n,
                None => JsonNumber::Integer(channel.max_age_minutes as i128),
            };
            match minutes_to_ms(minutes) {
                Some(d) => Some(if observed > i64::MAX - d { i64::MAX } else { observed + d }),
                None => None,
            }
        },
        _ => None,
    }
}


/// `value` cleaned and bounded to `max` characters, or `fallback` so when
/// nothing is left of it.
pub open spec fn text_or(value: Option<Seq<char>>, fallback: Seq<char>, max: nat) -> Seq<char> {
    match value {
        Some(v) => if bounded_text_spec(v, max).len() > 0 { bounded_text_spec(v, max) } else { bounded_text_spec(fallback, max) },
        None => bounded_text_spec(fallback, max),
    }
}

/// `value` cleaned and bounded, when anything is left of it.
pub open spec fn some_text(value: Option<Seq<char>>, max: nat) -> Option<Seq<char>> {
    match value {
        Some(v) => if bounded_text_spec(v, max).len() > 0 { Some(bounded_text_spec(v, max)) } else { None },
        None => None,
    }
}

pub open spec fn summary_text(item: CollectorItem) -> Option<Seq<char>> {
    match item.summary {
        Some(s) => Some(s@),
        None => None,
    }
}

pub open spec fn publisher_spec(item: CollectorItem) -> Seq<char> {
    if trim_seq(item.source.name@).len() == 0 { "Syndicated feed"@ } else { trim_seq(item.source.name@) }
}

/// When an authored item's signal expires: the provider's end, else its
/// automatic expiration.
pub open spec fn expires_ms(kind: ChannelKindDto, c: ChannelPreference, item: CollectorItem) -> Option<i64> {
    match item.ends_at_ms {
        Some(t) => Some(t),
        None => authored_expiration_spec(kind, c, item),
    }
}

/// The detail, action and severity an authored kind shows.
pub open spec fn authored_parts(kind: ChannelKindDto, item: CollectorItem, now_ms: i64) -> (Seq<char>, Seq<char>, Option<Seq<char>>) {
    match kind {
        ChannelKindDto::Official => (
            text_or(summary_text(item), "An active official alert matches this channel."@, 360),
            "This alert is in force now."@,
            some_text(item_text(item, "severity"@), 40),
        ),
        ChannelKindDto::Hurricane => (
            text_or(summary_text(item), "An active Atlantic cyclone is listed by the National Hurricane Center."@, 360),
            "Track and intensity only. Local impact is not forecast here."@,
            some_text(item_text(item, "classification"@), 40),
        ),
        ChannelKindDto::News => (
            syndicated_detail_spec(item, now_ms),
            publisher_spec(item),
            Some(if news_breaking_spec(item) { "Breaking"@ } else { "Routine"@ }),
        ),
        _ => (
            syndicated_detail_spec(item, now_ms),
            publisher_spec(item),
            Some(if sports_transaction_spec(item) { "Roster move"@ } else { "Routine"@ }),
        ),
    }
}

pub open spec fn is_authored(kind: ChannelKindDto) -> bool {
    kind == ChannelKindDto::Official || kind == ChannelKindDto::Hurricane || kind == ChannelKindDto::News || kind == ChannelKindDto::Sports
}

/// The signal `s` is the one an authored item gives its channel.
pub open spec fn authored_signal_matches(s: ChannelSignalDto, kind: ChannelKindDto, c: ChannelPreference, item: CollectorItem, now_ms: i64) -> bool {
    let parts = authored_parts(kind, item, now_ms);
    &&& s.headline@ == text_or(Some(item.title@), c.title@, 160)
    &&& s.detail@ == parts.0
    &&& s.action@ == bounded_text_spec(parts.1, 240)
    &&& (match s.severity { Some(t) => parts.2 == Some(t@), None => parts.2 is None })
    &&& (match expires_ms(kind, c, item) {
        Some(t) => if renders(t) {
            s.expires_at is Some && rfc3339_of_millis(t) == Ok::<Seq<char>, Seq<char>>(s.expires_at.unwrap()@)
        } else {
            s.expires_at is None
        },
        None => s.expires_at is None,
    })
    &&& s.band is None
    &&& s.imminence_minutes is None
    &&& s.series@.len() == 0
    &&& s.previous_close is None
}

/// The signal of an authored item (an official alert, a cyclone advisory, a
/// headline or a sports story); nothing for any other kind of channel.
pub fn authored_channel_signal(kind: ChannelKindDto, channel: &ChannelPreference, item: &CollectorItem, now_ms: i64) -> (r: Option<ChannelSignalDto>)
    ensures
        r is Some <==> is_authored(kind),
        r is Some ==> authored_signal_matches(r.unwrap(), kind, *channel, *item, now_ms),
{
    if !(kind == ChannelKindDto::Official || kind == ChannelKindDto::Hurricane || kind == ChannelKindDto::News || kind == ChannelKindDto::Sports) {
        return None;
    }
    let headline = signal_text(Some(item.title.as_str()), channel.title.as_str(), 160);
    let expiry = match item.ends_at_ms {
        Some(t) => Some(t),
        None => authored_item_expiration_ms(kind, channel, item),
    };
    let expires_at = match expiry {
        Some(t) => match iso_timestamp(t) {
            Ok(text) => Some(text),
            Err(_) => None,
        },
        None => None,
    };
    let summary: Option<&str> = match &item.summary {
        Some(s) => Some(s.as_str()),
        None => None,
    };
    let (detail, action, severity): (String, String, Option<String>) = if kind == ChannelKindDto::Official {
        (
            signal_text(summary, "An active official alert matches this channel.", 360),
            owned("This alert is in force now."),
            bounded_optional_signal_text(item.attributes.get_str("severity"), 40),
        )
    } else if kind == ChannelKindDto::Hurricane {
        (
            signal_text(summary, "An active Atlantic cyclone is listed by the National Hurricane Center.", 360),
            owned("Track and intensity only. Local impact is not forecast here."),
            bounded_optional_signal_text(item.attributes.get_str("classification"), 40),
        )
    } else if kind == ChannelKindDto::News {
        (
            syndicated_item_detail(item, now_ms),
            item_publisher(item),
            Some(if news_item_is_breaking(item) { owned("Breaking") } else { owned("Routine") }),
        )
    } else {
        (
            syndicated_item_detail(item, now_ms),
            item_publisher(item),
            Some(if sports_item_is_transaction(item) { owned("Roster move") } else { owned("Routine") }),
        )
    };
    Some(ChannelSignalDto {
        headline,
        detail,
        action: bounded_signal_text(action.as_str(), 240),
        severity,
        expires_at,
        band: None,
        imminence_minutes: None,
        series: Vec::new(),
        previous_close: None,
    })
}

} // verus!
