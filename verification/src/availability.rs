//! How current a source's answer is, and how well a channel's sources cover
//! it right now.

use vstd::prelude::*;

use crate::bridge::BridgeStateTransition;
use crate::dto::{AvailabilityDto, ChannelPreference};
use crate::item::CollectorItem;
use crate::rules::{eq_ignore_ascii_case, eq_ignore_ascii_case_spec, ChannelCoverage};
use crate::json::{object_get, value_as_str};
use crate::text::owned;

verus! {

/// What a collector last said of its own health.
#[derive(Clone, Copy, Debug, PartialEq, Eq, Structural)]
pub enum HealthState {
    Healthy,
    Degraded,
    Unhealthy,
    Unknown,
}

/// One named value of a collector's resume cursor.
#[derive(Clone, Debug, PartialEq, Eq)]
pub struct CursorEntry {
    pub key: String,
    pub value: String,
}

/// What a collector keeps between runs: named text values, each key once.
#[derive(Clone, Debug, PartialEq, Eq)]
pub struct CollectorCursor {
    pub metadata: Vec<CursorEntry>,
}

/// What the runtime keeps about one registered source. Times are
/// milliseconds since the Unix epoch.
#[derive(Clone, Debug, PartialEq)]
pub struct SourceState {
    pub channel_id: String,
    pub items: Vec<CollectorItem>,
    pub cursor: CollectorCursor,
    pub reported_health: HealthState,
    pub health_message: Option<String>,
    pub last_attempt_ms: Option<i64>,
    pub first_attempt_ms: Option<i64>,
    pub last_success_ms: Option<i64>,
    pub next_eligible_ms: Option<i64>,
    pub poll_interval_ms: Option<i64>,
    pub failure_count: u32,
    pub last_error: Option<String>,
    pub fail_closed_on_error: bool,
    pub bridge_transitions: Vec<BridgeStateTransition>,
}

impl SourceState {
    /// A source that has not been collected yet.
    pub fn empty(channel_id: &str) -> (s: SourceState)
        ensures
            s.channel_id@ == channel_id@,
            s.items@.len() == 0,
            s.cursor.metadata@.len() == 0,
            s.reported_health == HealthState::Unknown,
            s.health_message is None,
            s.last_attempt_ms is None,
            s.first_attempt_ms is None,
            s.last_success_ms is None,
            s.next_eligible_ms is None,
            s.poll_interval_ms is None,
            s.failure_count == 0,
            s.last_error is None,
            !s.fail_closed_on_error,
            s.bridge_transitions@.len() == 0,
    {
        SourceState {
            channel_id: owned(channel_id),
            items: Vec::new(),
            cursor: CollectorCursor { metadata: Vec::new() },
            reported_health: HealthState::Unknown,
            health_message: None,
            last_attempt_ms: None,
            first_attempt_ms: None,
            last_success_ms: None,
            next_eligible_ms: None,
            poll_interval_ms: None,
            failure_count: 0,
            last_error: None,
            fail_closed_on_error: false,
            bridge_transitions: Vec::new(),
        }
    }
}

/// Whole seconds from `then_ms` to `now_ms`; none when `then_ms` is later.
pub open spec fn age_seconds_spec(then_ms: i64, now_ms: i64) -> u64 {
    if now_ms <= then_ms {
        0
    } else {
        ((now_ms - then_ms) / 1000) as u64
    }
}

pub fn age_seconds_at(then_ms: i64, now_ms: i64) -> (r: u64)
    ensures
        r == age_seconds_spec(then_ms, now_ms),
{
    if now_ms <= then_ms {
        0
    } else {
        let elapsed = (now_ms as i128) - (then_ms as i128);
        (elapsed / 1000) as u64
    }
}

/// A source with nothing fresher to offer yet: one of its items reports a
/// closed market session.
pub open spec fn quiescent_spec(s: SourceState) -> bool {
    exists|i: int| 0 <= i < s.items@.len() && #[trigger] session_closed(s.items@[i])
}

pub open spec fn session_closed(item: CollectorItem) -> bool {
    match value_as_str(object_get(item.attributes, "session_label"@)) {
        Some(t) => eq_ignore_ascii_case_spec(t, "CLOSED"@),
        None => false,
    }
}

pub fn source_is_quiescent(source: &SourceState) -> (r: bool)
    ensures
        r == quiescent_spec(*source),
{
    let mut i: usize = 0;
    while i < source.items.len()
        invariant
            i <= source.items@.len(),
            forall|j: int| 0 <= j < i ==> !#[trigger] session_closed(source.items@[j]),
        decreases source.items@.len() - i,
    {
        match source.items[i].attributes.get_str("session_label") {
            Some(t) => {
                if eq_ignore_ascii_case(t, "CLOSED") {
                    assert(session_closed(source.items@[i as int]));
                    return true;
                }
            },
            None => {},
        }
        i = i + 1;
    }
    false
}

/// The source's own collection period in whole seconds; none for a negative
/// or missing period.
pub open spec fn cadence_seconds(s: SourceState) -> u64 {
    match s.poll_interval_ms {
        Some(ms) => if ms >= 0 { (ms / 1000) as u64 } else { 0 },
        None => 0,
    }
}

/// The age past which a source's answer is stale: the channel's budget plus
/// the source's own cadence, held to `u64::MAX`.
pub open spec fn stale_after_spec(s: SourceState, c: ChannelPreference) -> u64 {
    let total = c.max_age_minutes as int * 60 + cadence_seconds(s) as int;
    if total > u64::MAX { u64::MAX } else { total as u64 }
}

/// How current a source is for its channel, and its age in seconds: offline
/// without a success, or when it fails closed on a fault; stale past its
/// budget unless quiescent; delayed while faulted; fresh otherwise.
pub open spec fn source_availability_spec(s: SourceState, c: ChannelPreference, now_ms: i64) -> (AvailabilityDto, u64) {
    match s.last_success_ms {
        None => (AvailabilityDto::Offline, 0),
        Some(last) => {
            let age = age_seconds_spec(last, now_ms);
            let faulted = s.last_error is Some || s.reported_health != HealthState::Healthy;
            if s.fail_closed_on_error && faulted {
                (AvailabilityDto::Offline, age)
            } else if age > stale_after_spec(s, c) && !quiescent_spec(s) {
                (AvailabilityDto::Stale, age)
            } else if faulted {
                (AvailabilityDto::Delayed, age)
            } else {
                (AvailabilityDto::Fresh, age)
            }
        },
    }
}

fn cadence(source: &SourceState) -> (r: u64)
    ensures
        r == cadence_seconds(*source),
{
    match source.poll_interval_ms {
        Some(ms) => {
            if ms >= 0 {
                (ms / 1000) as u64
            } else {
                0
            }
        },
        None => 0,
    }
}

pub fn source_availability(source: &SourceState, channel: &ChannelPreference, now_ms: i64) -> (r: (AvailabilityDto, u64))
    ensures
        r == source_availability_spec(*source, *channel, now_ms),
{
    let last = match source.last_success_ms {
        None => return (AvailabilityDto::Offline, 0),
        Some(last) => last,
    };
    let age = age_seconds_at(last, now_ms);
    let faulted = source.last_error.is_some() || source.reported_health != HealthState::Healthy;
    if source.fail_closed_on_error && faulted {
        return (AvailabilityDto::Offline, age);
    }
    let budget = (channel.max_age_minutes as u64) * 60;
    let c = cadence(source);
    let stale_after = if budget > u64::MAX - c { u64::MAX } else { budget + c };
    if age > stale_after && !source_is_quiescent(source) {
        return (AvailabilityDto::Stale, age);
    }
    if faulted {
        (AvailabilityDto::Delayed, age)
    } else {
        (AvailabilityDto::Fresh, age)
    }
}

/// One of a channel's sources as the channel sees it.
#[derive(Clone, Copy, Debug, PartialEq, Eq, Structural)]
pub struct ChannelSourceView {
    pub availability: AvailabilityDto,
    pub age_seconds: u64,
}

impl ChannelSourceView {
    /// A source whose items may be used: fresh or delayed.
    pub open spec fn usable(self) -> bool {
        self.availability == AvailabilityDto::Fresh || self.availability == AvailabilityDto::Delayed
    }

    pub fn is_usable(&self) -> (r: bool)
        ensures
            r == self.usable(),
    {
        self.availability == AvailabilityDto::Fresh || self.availability == AvailabilityDto::Delayed
    }
}

/// The number of views among the first `n` that are usable.
pub open spec fn count_usable(v: Seq<ChannelSourceView>, n: int) -> nat
    decreases n,
{
    if n <= 0 {
        0
    } else {
        count_usable(v, n - 1) + if v[n - 1].usable() { 1nat } else { 0nat }
    }
}

/// The number of views among the first `n` that are fresh.
pub open spec fn count_fresh(v: Seq<ChannelSourceView>, n: int) -> nat
    decreases n,
{
    if n <= 0 {
        0
    } else {
        count_fresh(v, n - 1) + if v[n - 1].availability == AvailabilityDto::Fresh { 1nat } else { 0nat }
    }
}

/// The oldest age among the first `n` views.
pub open spec fn max_age(v: Seq<ChannelSourceView>, n: int) -> u64
    decreases n,
{
    if n <= 0 {
        0
    } else {
        let rest = max_age(v, n - 1);
        if v[n - 1].age_seconds > rest { v[n - 1].age_seconds } else { rest }
    }
}

/// How a channel's sources cover it: fresh only when every source is fresh,
/// delayed while any is usable, stale when some source is stale, offline
/// otherwise (and always when the channel is off or has no source); aged by
/// its oldest source.
pub open spec fn coverage_spec(c: ChannelPreference, v: Seq<ChannelSourceView>) -> ChannelCoverage {
    let n = v.len() as int;
    if !c.enabled || v.len() == 0 {
        ChannelCoverage { availability: AvailabilityDto::Offline, age_seconds: 0, total_sources: v.len() as usize, usable_sources: 0, fresh_sources: 0 }
    } else {
        let usable = count_usable(v, n);
        let fresh = count_fresh(v, n);
        let availability = if fresh == v.len() {
            AvailabilityDto::Fresh
        } else if usable > 0 {
            AvailabilityDto::Delayed
        } else if exists|i: int| 0 <= i < v.len() && (#[trigger] v[i]).availability == AvailabilityDto::Stale {
            AvailabilityDto::Stale
        } else {
            AvailabilityDto::Offline
        };
        ChannelCoverage {
            availability,
            age_seconds: max_age(v, n),
            total_sources: v.len() as usize,
            usable_sources: usable as usize,
            fresh_sources: fresh as usize,
        }
    }
}

proof fn lemma_counts_bounded(v: Seq<ChannelSourceView>, n: int)
    requires
        0 <= n <= v.len(),
    ensures
        count_usable(v, n) <= n,
        count_fresh(v, n) <= n,
        count_fresh(v, n) <= count_usable(v, n),
    decreases n,
{
    if n > 0 {
        lemma_counts_bounded(v, n - 1);
    }
}

pub fn channel_availability(channel: &ChannelPreference, sources: &[ChannelSourceView]) -> (r: ChannelCoverage)
    ensures
        r == coverage_spec(*channel, sources@),
{
    if !channel.enabled || sources.len() == 0 {
        return ChannelCoverage {
            availability: AvailabilityDto::Offline,
            age_seconds: 0,
            total_sources: sources.len(),
            usable_sources: 0,
            fresh_sources: 0,
        };
    }
    let mut usable: usize = 0;
    let mut fresh: usize = 0;
    let mut stale = false;
    let mut oldest: u64 = 0;
    let mut i: usize = 0;
    while i < sources.len()
        invariant
            i <= sources@.len(),
            usable == count_usable(sources@, i as int),
            fresh == count_fresh(sources@, i as int),
            oldest == max_age(sources@, i as int),
            stale == exists|j: int| 0 <= j < i && (#[trigger] sources@[j]).availability == AvailabilityDto::Stale,
        decreases sources@.len() - i,
    {
        proof {
            lemma_counts_bounded(sources@, i as int);
        }
        let s = sources[i];
        if s.is_usable() {
            usable = usable + 1;
        }
        if s.availability == AvailabilityDto::Fresh {
            fresh = fresh + 1;
        }
        if s.availability == AvailabilityDto::Stale {
            stale = true;
        }
        if s.age_seconds > oldest {
            oldest = s.age_seconds;
        }
        i = i + 1;
    }
    let availability = if fresh == sources.len() {
        AvailabilityDto::Fresh
    } else if usable > 0 {
        AvailabilityDto::Delayed
    } else if stale {
        AvailabilityDto::Stale
    } else {
        AvailabilityDto::Offline
    };
    ChannelCoverage {
        availability,
        age_seconds: oldest,
        total_sources: sources.len(),
        usable_sources: usable,
        fresh_sources: fresh,
    }
}

/// Coverage never overstates itself: fresh coverage means every source is
/// fresh, and a channel is usable only when some source is.
pub proof fn lemma_coverage_is_honest(c: ChannelPreference, v: Seq<ChannelSourceView>)
    requires
        v.len() <= usize::MAX,
    ensures
        coverage_spec(c, v).availability == AvailabilityDto::Fresh ==>
            forall|i: int| 0 <= i < v.len() ==> (#[trigger] v[i]).availability == AvailabilityDto::Fresh,
        coverage_spec(c, v).usable_sources <= coverage_spec(c, v).total_sources,
        coverage_spec(c, v).fresh_sources <= coverage_spec(c, v).usable_sources,
        (coverage_spec(c, v).availability == AvailabilityDto::Fresh
            || coverage_spec(c, v).availability == AvailabilityDto::Delayed) ==> coverage_spec(c, v).usable_sources > 0,
{
    let n = v.len() as int;
    lemma_counts_bounded(v, n);
    if c.enabled && v.len() > 0 {
        if count_fresh(v, n) == v.len() {
            lemma_all_fresh(v, n);
        }
    }
}

proof fn lemma_all_fresh(v: Seq<ChannelSourceView>, n: int)
    requires
        0 <= n <= v.len(),
        count_fresh(v, n) == n,
    ensures
        forall|i: int| 0 <= i < n ==> (#[trigger] v[i]).availability == AvailabilityDto::Fresh,
    decreases n,
{
    if n > 0 {
        lemma_counts_bounded(v, n - 1);
        lemma_all_fresh(v, n - 1);
    }
}

} // verus!
