//! The typed facts a channel's priority is scored from: how soon its material
//! matters, and whether that material is confirmed rather than forecast.

use vstd::prelude::*;

use crate::dto::{BridgeStateDto, ChannelKindDto, ChannelPreference, ChannelSignalDto, DecisionSnapshot, UrgencyDto};
use crate::item::{atlantic_cyclone, atlantic_cyclone_spec, CollectorItem, ItemKind};
use crate::news::{news_item_matches_scope, news_matches_spec};
use crate::rules::{eq_ignore_ascii_case, eq_ignore_ascii_case_spec, official_alert_matches_scope, official_alert_matches_spec};
use crate::summary::{earthquake_matches_scope, earthquake_matches_spec};
use crate::text::{ascii_lower_seq, str_eq};

verus! {

/// Minutes until the channel's material affects the reader: the bridge
/// answers from its decision (now, when it is open), every other channel from
/// its own signal, or not at all.
pub open spec fn imminence_spec(kind: ChannelKindDto, signal: Option<ChannelSignalDto>, d: DecisionSnapshot) -> Option<u16> {
    match kind {
        ChannelKindDto::Bridge => if d.state == BridgeStateDto::Open { Some(0u16) } else { d.eta_min },
        _ => match signal {
            Some(s) => s.imminence_minutes,
            None => None,
        },
    }
}

pub fn channel_imminence_minutes(
    kind: ChannelKindDto,
    signal: Option<&ChannelSignalDto>,
    decision: &DecisionSnapshot,
) -> (r: Option<u16>)
    ensures
        r == imminence_spec(kind, match signal { Some(s) => Some(*s), None => None }, *decision),
{
    match kind {
        ChannelKindDto::Bridge => match decision.state {
            BridgeStateDto::Open => Some(0),
            _ => decision.eta_min,
        },
        _ => match signal {
            Some(s) => s.imminence_minutes,
            None => None,
        },
    }
}

/// Whether the channel's material is confirmed: an open bridge, rain
/// observed falling now, or, for an authored or measured channel, any signal
/// at all. The system channel never is.
pub open spec fn confirmed_spec(kind: ChannelKindDto, signal: Option<ChannelSignalDto>, d: DecisionSnapshot) -> bool {
    match kind {
        ChannelKindDto::Bridge => d.state == BridgeStateDto::Open,
        ChannelKindDto::Weather => match signal {
            Some(s) => s.severity matches Some(t) && t@ == "Falling now"@,
            None => false,
        },
        ChannelKindDto::System => false,
        _ => signal is Some,
    }
}

pub fn channel_confirmed(
    kind: ChannelKindDto,
    signal: Option<&ChannelSignalDto>,
    decision: &DecisionSnapshot,
) -> (r: bool)
    ensures
        r == confirmed_spec(kind, match signal { Some(s) => Some(*s), None => None }, *decision),
{
    match kind {
        ChannelKindDto::Bridge => decision.state == BridgeStateDto::Open,
        ChannelKindDto::Weather => match signal {
            Some(s) => match &s.severity {
                Some(t) => str_eq(t.as_str(), "Falling now"),
                None => false,
            },
            None => false,
        },
        ChannelKindDto::System => false,
        _ => signal.is_some(),
    }
}

/// Where an earthquake's reported magnitude falls: 7 or more, 6 or more, or
/// below 6 (or not readable).
#[derive(Clone, Copy, Debug, PartialEq, Eq, Structural)]
pub enum QuakeBand {
    Major,
    Strong,
    Other,
}

/// Whether the signal's severity reads `word`, ignoring ASCII case.
pub open spec fn severity_is(signal: Option<ChannelSignalDto>, word: Seq<char>) -> bool {
    match signal {
        Some(s) => s.severity matches Some(t) && eq_ignore_ascii_case_spec(t@, word),
        None => false,
    }
}

fn severity_reads(signal: Option<&ChannelSignalDto>, word: &str) -> (r: bool)
    ensures
        r == severity_is(match signal { Some(s) => Some(*s), None => None }, word@),
{
    match signal {
        Some(s) => match &s.severity {
            Some(t) => eq_ignore_ascii_case(t.as_str(), word),
            None => false,
        },
        None => false,
    }
}

/// How hard a channel argues for interrupting: an open bridge is an
/// emergency and a likely one a heads-up; an extreme official alert an
/// emergency and a severe one an action; an earthquake by its magnitude band;
/// breaking news a heads-up; rain falling now an action; a hurricane a
/// heads-up; markets, sports and the system never interrupt.
pub open spec fn urgency_spec(kind: ChannelKindDto, signal: Option<ChannelSignalDto>, d: DecisionSnapshot, quake: QuakeBand) -> UrgencyDto {
    match kind {
        ChannelKindDto::Bridge => match d.state {
            BridgeStateDto::Open => UrgencyDto::Emergency,
            BridgeStateDto::Likely => UrgencyDto::HeadsUp,
            BridgeStateDto::Clear => UrgencyDto::Routine,
        },
        ChannelKindDto::Official => if severity_is(signal, "extreme"@) {
            UrgencyDto::Emergency
        } else if severity_is(signal, "severe"@) {
            UrgencyDto::Action
        } else {
            UrgencyDto::HeadsUp
        },
        ChannelKindDto::Earthquake => match quake {
            QuakeBand::Major => UrgencyDto::Emergency,
            QuakeBand::Strong => UrgencyDto::Action,
            QuakeBand::Other => UrgencyDto::HeadsUp,
        },
        ChannelKindDto::News => if severity_is(signal, "breaking"@) { UrgencyDto::HeadsUp } else { UrgencyDto::Routine },
        ChannelKindDto::Weather => if severity_is(signal, "falling now"@) { UrgencyDto::Action } else { UrgencyDto::HeadsUp },
        ChannelKindDto::Hurricane => UrgencyDto::HeadsUp,
        _ => UrgencyDto::Routine,
    }
}

/// How hard a channel argues for interrupting right now; `quake` is where
/// the magnitude its earthquake signal reports falls.
pub fn channel_urgency(
    kind: ChannelKindDto,
    signal: Option<&ChannelSignalDto>,
    decision: &DecisionSnapshot,
    quake: QuakeBand,
) -> (r: UrgencyDto)
    ensures
        r == urgency_spec(kind, match signal { Some(s) => Some(*s), None => None }, *decision, quake),
{
    match kind {
        ChannelKindDto::Bridge => match decision.state {
            BridgeStateDto::Open => UrgencyDto::Emergency,
            BridgeStateDto::Likely => UrgencyDto::HeadsUp,
            BridgeStateDto::Clear => UrgencyDto::Routine,
        },
        ChannelKindDto::Official => if severity_reads(signal, "extreme") {
            UrgencyDto::Emergency
        } else if severity_reads(signal, "severe") {
            UrgencyDto::Action
        } else {
            UrgencyDto::HeadsUp
        },
        ChannelKindDto::Earthquake => match quake {
            QuakeBand::Major => UrgencyDto::Emergency,
            QuakeBand::Strong => UrgencyDto::Action,
            QuakeBand::Other => UrgencyDto::HeadsUp,
        },
        ChannelKindDto::News => if severity_reads(signal, "breaking") { UrgencyDto::HeadsUp } else { UrgencyDto::Routine },
        ChannelKindDto::Weather => if severity_reads(signal, "falling now") { UrgencyDto::Action } else { UrgencyDto::HeadsUp },
        ChannelKindDto::Hurricane => UrgencyDto::HeadsUp,
        _ => UrgencyDto::Routine,
    }
}

/// Ordering within a kind: an official alert by its severity (extreme 9,
/// severe 7, moderate 4, minor 2), an earthquake by `quake_rank` (its
/// rounded magnitude, at most 9), every other kind 0.
pub open spec fn severity_rank_spec(kind: ChannelKindDto, signal: Option<ChannelSignalDto>, quake_rank: u8) -> u8 {
    match kind {
        ChannelKindDto::Official => if severity_is(signal, "extreme"@) {
            9
        } else if severity_is(signal, "severe"@) {
            7
        } else if severity_is(signal, "moderate"@) {
            4
        } else if severity_is(signal, "minor"@) {
            2
        } else {
            0
        },
        ChannelKindDto::Earthquake => if quake_rank < 9 { quake_rank } else { 9 },
        _ => 0,
    }
}

pub fn channel_severity_rank(kind: ChannelKindDto, signal: Option<&ChannelSignalDto>, quake_rank: u8) -> (r: u8)
    ensures
        r == severity_rank_spec(kind, match signal { Some(s) => Some(*s), None => None }, quake_rank),
{
    match kind {
        ChannelKindDto::Official => if severity_reads(signal, "extreme") {
            9
        } else if severity_reads(signal, "severe") {
            7
        } else if severity_reads(signal, "moderate") {
            4
        } else if severity_reads(signal, "minor") {
            2
        } else {
            0
        },
        ChannelKindDto::Earthquake => if quake_rank < 9 { quake_rank } else { 9 },
        _ => 0,
    }
}

/// Whether an item is material for its channel: a bridge item for the
/// bridge; the official, news (and sports) and earthquake scope rules; an
/// Atlantic cyclone in range of a saved place for hurricanes; and, for the
/// weather and markets, `measured`: whether its measured rule (a rain or gust
/// threshold, a market move) is met. Hurricanes take `measured` as whether
/// the storm is in range. The system channel has no material.
pub open spec fn material_spec(kind: ChannelKindDto, c: ChannelPreference, item: CollectorItem, now_ms: i64, measured: bool) -> bool {
    match kind {
        ChannelKindDto::Bridge => item.kind == ItemKind::Bridge,
        ChannelKindDto::Weather => measured,
        ChannelKindDto::Official => official_alert_matches_spec(item, c.scope, now_ms),
        ChannelKindDto::Hurricane => atlantic_cyclone_spec(item) && measured,
        ChannelKindDto::News | ChannelKindDto::Sports => news_matches_spec(item, c, now_ms),
        ChannelKindDto::Earthquake => earthquake_matches_spec(item, c, now_ms),
        ChannelKindDto::Markets => measured,
        ChannelKindDto::System => false,
    }
}

pub fn channel_material_item_matches(
    kind: ChannelKindDto,
    channel: &ChannelPreference,
    item: &CollectorItem,
    now_ms: i64,
    measured: bool,
) -> (r: bool)
    ensures
        r == material_spec(kind, *channel, *item, now_ms, measured),
{
    match kind {
        ChannelKindDto::Bridge => item.kind == ItemKind::Bridge,
        ChannelKindDto::Weather => measured,
        ChannelKindDto::Official => official_alert_matches_scope(item, channel, now_ms),
        ChannelKindDto::Hurricane => atlantic_cyclone(item) && measured,
        ChannelKindDto::News | ChannelKindDto::Sports => news_item_matches_scope(item, channel, now_ms),
        ChannelKindDto::Earthquake => earthquake_matches_scope(item, channel, now_ms),
        ChannelKindDto::Markets => measured,
        ChannelKindDto::System => false,
    }
}

/// Whether the signal's severity word, read without ASCII case, is `word`.
pub open spec fn reads_word(signal: Option<ChannelSignalDto>, word: Seq<char>) -> bool {
    signal matches Some(sig) && sig.severity matches Some(t) && ascii_lower_seq(t@) == ascii_lower_seq(word)
}

/// An official alert's urgency follows its severity word and nothing else:
/// `extreme` (in any ASCII case) is an emergency, `severe` calls for action,
/// and every other word (`moderate`, `minor`, `unknown`, ...) or none is a
/// heads-up, whatever the bridge or the earthquake band says.
pub proof fn lemma_official_urgency_follows_severity(
    signal: Option<ChannelSignalDto>,
    d: DecisionSnapshot,
    quake: QuakeBand,
)
    ensures
        urgency_spec(ChannelKindDto::Official, signal, d, quake) == UrgencyDto::Emergency <==> reads_word(signal, "extreme"@),
        urgency_spec(ChannelKindDto::Official, signal, d, quake) == UrgencyDto::Action <==> reads_word(signal, "severe"@),
        urgency_spec(ChannelKindDto::Official, signal, d, quake) == UrgencyDto::HeadsUp
            <==> !reads_word(signal, "extreme"@) && !reads_word(signal, "severe"@),
        reads_word(signal, "moderate"@) || reads_word(signal, "minor"@)
            ==> urgency_spec(ChannelKindDto::Official, signal, d, quake) == UrgencyDto::HeadsUp,
{
    reveal_strlit("extreme");
    reveal_strlit("severe");
    reveal_strlit("moderate");
    reveal_strlit("minor");
    if let Some(sig) = signal {
        if let Some(t) = sig.severity {
        let l = ascii_lower_seq(t@);
        assert(ascii_lower_seq("extreme"@).len() == 7);
        assert(ascii_lower_seq("severe"@).len() == 6);
        assert(ascii_lower_seq("moderate"@).len() == 8);
        assert(ascii_lower_seq("minor"@).len() == 5);
        if l == ascii_lower_seq("minor"@) {
            assert(l != ascii_lower_seq("severe"@));
        }
        }
    }
}

} // verus!
