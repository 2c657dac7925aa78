//! The decisions of one refresh cycle: which registered sources are due,
//! and what a collector's answer does to what the runtime keeps about its
//! source. The collection itself runs beside the library.

use vstd::prelude::*;

use crate::ais::{sat_add_i64, source_ids_unique, source_named, SourceEntry};
use crate::availability::{CollectorCursor, HealthState, SourceState};
use crate::bridge::{kept_transitions, tviews, update_bridge_transitions};
use crate::item::CollectorItem;
use crate::runtime::{backoff_for, backoff_nanos, duration_millis, RefreshReport, RuntimeConfig, TimeSpan};
use crate::text::{has_prefix, owned, starts_with, str_eq};

verus! {

/// A collector the factory registered, as the scheduler reads it.
#[derive(Clone, Debug, PartialEq, Eq)]
pub struct ScheduledSource {
    pub id: String,
    pub channel_id: String,
    pub fail_closed_on_error: bool,
    /// The shortest time between two background collections; zero for none.
    pub minimum_interval: TimeSpan,
}

impl ScheduledSource {
    /// A source polled on every cycle, whose cached items outlive a failure.
    pub fn new(id: &str, channel_id: &str) -> (r: ScheduledSource)
        ensures
            r.id@ == id@,
            r.channel_id@ == channel_id@,
            !r.fail_closed_on_error,
            r.minimum_interval.nanos_spec() == 0,
    {
        ScheduledSource {
            id: owned(id),
            channel_id: owned(channel_id),
            fail_closed_on_error: false,
            minimum_interval: TimeSpan::from_secs(0),
        }
    }

    /// The same source, collected at most once per `minimum_interval`.
    pub fn with_minimum_interval(self, minimum_interval: TimeSpan) -> (r: ScheduledSource)
        ensures
            r == (ScheduledSource { minimum_interval, ..self }),
    {
        ScheduledSource { minimum_interval, ..self }
    }

    /// The same source, connection-bound: its cached observations become
    /// unusable as soon as collection fails or reports non-healthy status.
    pub fn fail_closed_on_error(self) -> (r: ScheduledSource)
        ensures
            r == (ScheduledSource { fail_closed_on_error: true, ..self }),
    {
        ScheduledSource { fail_closed_on_error: true, ..self }
    }
}

/// What a collector handed back when it answered.
#[derive(Clone, Debug, PartialEq)]
pub struct CollectedBatch {
    pub items: Vec<CollectorItem>,
    pub health: HealthState,
    pub health_message: Option<String>,
    pub cursor: CollectorCursor,
    /// The provider said nothing changed; the kept items stand.
    pub not_modified: bool,
}

/// How one collection ended.
#[derive(Clone, Debug, PartialEq)]
pub enum CollectionOutcome {
    Batch(CollectedBatch),
    Failed(String),
}

/// A source is due when forced, or once its backoff or interval has passed.
pub open spec fn due_spec(s: SourceState, now_ms: i64, force: bool) -> bool {
    force || s.next_eligible_ms is None || s.next_eligible_ms.unwrap() <= now_ms
}

pub fn source_is_due(source: &SourceState, now_ms: i64, force: bool) -> (r: bool)
    ensures
        r == due_spec(*source, now_ms, force),
{
    force || match source.next_eligible_ms {
        None => true,
        Some(eligible) => eligible <= now_ms,
    }
}

/// `s` brought in line with its registration: it feeds the registered
/// channel and fails closed as the registration says; nothing else changes.
pub open spec fn registered_as(before: SourceState, after: SourceState, reg: ScheduledSource) -> bool {
    after == SourceState {
        channel_id: after.channel_id,
        fail_closed_on_error: reg.fail_closed_on_error,
        ..before
    } && after.channel_id@ == reg.channel_id@
}

/// The state a source starts from before its first collection, apart from
/// the channel it feeds and whether it fails closed.
pub open spec fn untouched(s: SourceState) -> bool {
    &&& s.items@.len() == 0
    &&& s.cursor.metadata@.len() == 0
    &&& s.reported_health == HealthState::Unknown
    &&& s.health_message is None
    &&& s.last_attempt_ms is None
    &&& s.first_attempt_ms is None
    &&& s.last_success_ms is None
    &&& s.next_eligible_ms is None
    &&& s.poll_interval_ms is None
    &&& s.failure_count == 0
    &&& s.last_error is None
    &&& s.bridge_transitions@.len() == 0
}

/// Finds the kept state of a registered source, adding an empty one when
/// there is none yet, and brings it in line with its registration. Returns
/// where it stands.
pub fn prepare_source(sources: &mut Vec<SourceEntry>, reg: &ScheduledSource) -> (k: usize)
    ensures
        k < final(sources)@.len(),
        final(sources)@[k as int].source_id@ == reg.id@,
        source_ids_unique(old(sources)@) ==> source_ids_unique(final(sources)@),
        source_named(final(sources)@, reg.id@) == Some(final(sources)@[k as int].state),
        forall|j: int| 0 <= j < old(sources)@.len() && j != k ==> final(sources)@[j] == old(sources)@[j],
        source_named(old(sources)@, reg.id@) is Some ==> {
            &&& final(sources)@.len() == old(sources)@.len()
            &&& registered_as(source_named(old(sources)@, reg.id@).unwrap(), final(sources)@[k as int].state, *reg)
        },
        source_named(old(sources)@, reg.id@) is None ==> {
            &&& final(sources)@.len() == old(sources)@.len() + 1
            &&& k == old(sources)@.len()
            &&& final(sources)@[k as int].state.channel_id@ == reg.channel_id@
            &&& final(sources)@[k as int].state.fail_closed_on_error == reg.fail_closed_on_error
            &&& untouched(final(sources)@[k as int].state)
        },
{
    let mut i: usize = 0;
    let mut found = false;
    while i < sources.len() && !found
        invariant
            i <= sources@.len(),
            *sources == *old(sources),
            found ==> i < sources@.len() && sources@[i as int].source_id@ == reg.id@,
            forall|j: int| 0 <= j < i ==> sources@[j].source_id@ != reg.id@,
        decreases sources@.len() - i + (if found { 0int } else { 1int }),
    {
        if str_eq(sources[i].source_id.as_str(), reg.id.as_str()) {
            found = true;
        } else {
            i = i + 1;
        }
    }
    proof {
        lemma_source_from_prefix(old(sources)@, reg.id@, i as int);
        if found {
            assert(crate::ais::source_from(old(sources)@, reg.id@, i as int) == Some(old(sources)@[i as int].state));
        } else {
            lemma_source_absent(old(sources)@, reg.id@, i as int);
        }
    }
    if !found {
        let state = SourceState::empty(reg.channel_id.as_str());
        sources.push(SourceEntry { source_id: owned(reg.id.as_str()), state });
    }
    let ghost before = sources@;
    let mut entry = sources.remove(i);
    entry.state.channel_id = owned(reg.channel_id.as_str());
    entry.state.fail_closed_on_error = reg.fail_closed_on_error;
    sources.insert(i, entry);
    proof {
        assert(sources@ =~= before.update(i as int, sources@[i as int]));
        assert forall|j: int| 0 <= j < i implies sources@[j].source_id@ != reg.id@ by {
            assert(sources@[j] == old(sources)@[j]);
        }
        lemma_source_from_prefix(sources@, reg.id@, i as int);
        assert(crate::ais::source_from(sources@, reg.id@, i as int) == Some(sources@[i as int].state));
    }
    i
}

proof fn lemma_source_absent(entries: Seq<SourceEntry>, id: Seq<char>, i: int)
    requires
        0 <= i <= entries.len(),
        forall|j: int| i <= j < entries.len() ==> entries[j].source_id@ != id,
    ensures
        crate::ais::source_from(entries, id, i) is None,
    decreases entries.len() - i,
{
    if i < entries.len() {
        lemma_source_absent(entries, id, i + 1);
    }
}

proof fn lemma_source_from_prefix(entries: Seq<SourceEntry>, id: Seq<char>, i: int)
    requires
        0 <= i <= entries.len(),
        forall|j: int| 0 <= j < i ==> entries[j].source_id@ != id,
    ensures
        source_named(entries, id) == crate::ais::source_from(entries, id, i),
    decreases i,
{
    if i > 0 {
        lemma_source_from_prefix(entries, id, i - 1);
    }
}


/// A span as whole milliseconds, held to `i64::MAX`.
pub open spec fn span_millis(d: TimeSpan) -> i64 {
    if d.nanos_spec() / 1_000_000 <= i64::MAX { (d.nanos_spec() / 1_000_000) as i64 } else { i64::MAX }
}

/// What an answer does to its source: it is attempted and succeeded now,
/// takes the batch's cursor and health, clears its failures, waits out its
/// minimum interval (if any) before the next background collection, and
/// takes the batch's items unless the provider said nothing changed. A
/// bridge reading from FL511 records the span changes it shows.
pub open spec fn answered(before: SourceState, after: SourceState, reg: ScheduledSource, batch: CollectedBatch, now_ms: i64) -> bool {
    &&& after.channel_id@ == reg.channel_id@
    &&& after.fail_closed_on_error == reg.fail_closed_on_error
    &&& after.last_attempt_ms == Some(now_ms)
    &&& after.first_attempt_ms == before.first_attempt_ms
    &&& after.poll_interval_ms == before.poll_interval_ms
    &&& after.cursor == batch.cursor
    &&& after.reported_health == batch.health
    &&& after.health_message == batch.health_message
    &&& after.last_success_ms == Some(now_ms)
    &&& after.next_eligible_ms == (if reg.minimum_interval.nanos_spec() == 0 {
        None
    } else {
        Some(sat_add_i64(now_ms, span_millis(reg.minimum_interval)))
    })
    &&& after.failure_count == 0
    &&& after.last_error is None
    &&& after.items == (if batch.not_modified { before.items } else { batch.items })
    &&& tviews(after.bridge_transitions@) == (if !batch.not_modified && has_prefix(reg.id@, "fl511."@) {
        kept_transitions(tviews(before.bridge_transitions@), before.items@, batch.items@, now_ms)
    } else {
        tviews(before.bridge_transitions@)
    })
}

/// What a failure does to its source: it is attempted now, counts one more
/// failure, backs off by the configured backoff for that count, and keeps
/// the error; its items, health and last success stand.
pub open spec fn failed(before: SourceState, after: SourceState, reg: ScheduledSource, error: Seq<char>, now_ms: i64, config: RuntimeConfig) -> bool {
    let count = if before.failure_count == u32::MAX { u32::MAX } else { (before.failure_count + 1) as u32 };
    let backoff = backoff_nanos(config.backoff_initial.nanos_spec(), config.backoff_max.nanos_spec(), count as nat);
    let backoff_ms: i64 = if backoff / 1_000_000 <= i64::MAX { (backoff / 1_000_000) as i64 } else { i64::MAX };
    &&& after == SourceState {
        channel_id: after.channel_id,
        fail_closed_on_error: reg.fail_closed_on_error,
        last_attempt_ms: Some(now_ms),
        failure_count: count,
        next_eligible_ms: Some(sat_add_i64(now_ms, backoff_ms)),
        last_error: after.last_error,
        ..before
    }
    &&& after.channel_id@ == reg.channel_id@
    &&& after.last_error is Some && after.last_error.unwrap()@ == error
}

pub open spec fn recorded(before: SourceState, after: SourceState, reg: ScheduledSource, outcome: CollectionOutcome, now_ms: i64, config: RuntimeConfig) -> bool {
    match outcome {
        CollectionOutcome::Batch(batch) => answered(before, after, reg, batch, now_ms),
        CollectionOutcome::Failed(error) => failed(before, after, reg, error@, now_ms, config),
    }
}

/// Applies one collection's outcome to the state kept for its source.
pub fn record_outcome(source: &mut SourceState, reg: &ScheduledSource, outcome: CollectionOutcome, now_ms: i64, config: &RuntimeConfig)
    ensures
        recorded(*old(source), *final(source), *reg, outcome, now_ms, *config),
{
    source.channel_id = owned(reg.channel_id.as_str());
    source.fail_closed_on_error = reg.fail_closed_on_error;
    source.last_attempt_ms = Some(now_ms);
    match outcome {
        CollectionOutcome::Batch(batch) => {
            source.cursor = batch.cursor;
            source.reported_health = batch.health;
            source.health_message = batch.health_message;
            source.last_success_ms = Some(now_ms);
            source.next_eligible_ms = if reg.minimum_interval.is_zero() {
                None
            } else {
                let ms = duration_millis(reg.minimum_interval);
                Some(if now_ms > i64::MAX - ms { i64::MAX } else { now_ms + ms })
            };
            source.failure_count = 0;
            source.last_error = None;
            if !batch.not_modified {
                proof {
                    reveal_strlit("fl511.");
                }
                if starts_with(reg.id.as_str(), "fl511.") {
                    update_bridge_transitions(&source.items, &batch.items, now_ms, &mut source.bridge_transitions);
                }
                source.items = batch.items;
            }
        },
        CollectionOutcome::Failed(error) => {
            source.failure_count = if source.failure_count == u32::MAX { u32::MAX } else { source.failure_count + 1 };
            let backoff = backoff_for(config, source.failure_count);
            let ms = duration_millis(backoff);
            source.next_eligible_ms = Some(if now_ms > i64::MAX - ms { i64::MAX } else { now_ms + ms });
            source.last_error = Some(error);
        },
    }
}


/// An answer resets the backoff: after a source answers, its next failure
/// is counted as the first and waits the initial backoff (when that is under
/// the ceiling).
pub proof fn lemma_answer_resets_backoff(
    s0: SourceState,
    s1: SourceState,
    s2: SourceState,
    reg: ScheduledSource,
    batch: CollectedBatch,
    error: Seq<char>,
    answered_at: i64,
    failed_at: i64,
    config: RuntimeConfig,
)
    requires
        answered(s0, s1, reg, batch, answered_at),
        failed(s1, s2, reg, error, failed_at, config),
        config.backoff_initial.nanos_spec() <= config.backoff_max.nanos_spec(),
        config.backoff_max.nanos_spec() <= crate::runtime::MAX_SPAN_NANOS,
    ensures
        s2.failure_count == 1,
        s2.last_success_ms == Some(answered_at),
        s2.next_eligible_ms == Some(sat_add_i64(failed_at, span_millis(config.backoff_initial))),
{
    crate::runtime::lemma_backoff_ends(config.backoff_initial.nanos_spec(), config.backoff_max.nanos_spec(), 1);
    assert(crate::runtime::pow2(0) == 1);
}

/// How many of the outcomes are answers.
pub open spec fn answered_count(outcomes: Seq<CollectionOutcome>) -> nat
    decreases outcomes.len(),
{
    if outcomes.len() == 0 {
        0
    } else {
        answered_count(outcomes.drop_last()) + if outcomes.last() is Batch {
            1nat
        } else {
            0nat
        }
    }
}

/// Closes a refresh cycle: every due source was attempted, those that
/// answered succeeded and the rest failed, and the sources still backing off
/// were skipped. The outcomes are published only when the configuration the
/// cycle started from (`started_revision`) is still the current one; a cycle
/// superseded by a save while it ran reports the same counts and publishes
/// nothing.
pub fn close_cycle(
    outcomes: &Vec<CollectionOutcome>,
    skipped_backoff: usize,
    started_revision: u64,
    current_revision: u64,
    finished_at: String,
) -> (r: (RefreshReport, bool))
    ensures
        r.0.attempted == outcomes@.len(),
        r.0.succeeded == answered_count(outcomes@),
        r.0.failed == outcomes@.len() - answered_count(outcomes@),
        r.0.skipped_backoff == skipped_backoff,
        r.0.finished_at == finished_at,
        r.1 == (started_revision == current_revision),
{
    let mut succeeded: usize = 0;
    let mut i: usize = 0;
    while i < outcomes.len()
        invariant
            i <= outcomes@.len(),
            succeeded == answered_count(outcomes@.take(i as int)),
            succeeded <= i,
        decreases outcomes@.len() - i,
    {
        assert(outcomes@.take(i + 1).drop_last() == outcomes@.take(i as int));
        if let CollectionOutcome::Batch(_) = &outcomes[i] {
            succeeded += 1;
        }
        i += 1;
    }
    assert(outcomes@.take(outcomes@.len() as int) == outcomes@);
    let report = RefreshReport {
        attempted: outcomes.len(),
        succeeded,
        failed: outcomes.len() - succeeded,
        skipped_backoff,
        finished_at,
    };
    (report, started_revision == current_revision)
}

} // verus!
