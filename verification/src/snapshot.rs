//! A channel's snapshot: the order its notices are shown in, whether its
//! coverage is complete, and the snapshot put together from its parts.

use vstd::prelude::*;

use crate::dto::{
    ChannelKindDto, ChannelNoticeDto, ChannelPreference, ChannelPriorityDto, ChannelSignalDto,
    ChannelSnapshot, DestinationIdDto,
};
use crate::health::{source_label, source_label_spec};
use crate::number::Decimal;
use crate::rules::ChannelCoverage;
use crate::text::owned;

verus! {

/// `s` with `n` placed after every notice that scores at least as high.
pub open spec fn insert_by_score(s: Seq<ChannelNoticeDto>, n: ChannelNoticeDto) -> Seq<ChannelNoticeDto>
    decreases s.len(),
{
    if s.len() == 0 {
        seq![n]
    } else if s[0].priority.score >= n.priority.score {
        seq![s[0]] + insert_by_score(s.drop_first(), n)
    } else {
        seq![n] + s
    }
}

/// The notices highest score first; notices that score the same keep the
/// order they came in.
pub open spec fn ranked(s: Seq<ChannelNoticeDto>) -> Seq<ChannelNoticeDto>
    decreases s.len(),
{
    if s.len() == 0 {
        Seq::empty()
    } else {
        insert_by_score(ranked(s.drop_last()), s.last())
    }
}

pub open spec fn score_descending(s: Seq<ChannelNoticeDto>) -> bool {
    forall|i: int, j: int| 0 <= i < j < s.len() ==> (#[trigger] s[i]).priority.score >= (#[trigger] s[j]).priority.score
}

proof fn lemma_insert_by_score(s: Seq<ChannelNoticeDto>, n: ChannelNoticeDto)
    requires
        score_descending(s),
    ensures
        score_descending(insert_by_score(s, n)),
        insert_by_score(s, n).len() == s.len() + 1,
        forall|k: int| 0 <= k < insert_by_score(s, n).len() ==> (#[trigger] insert_by_score(s, n)[k]).priority.score == n.priority.score
            || exists|m: int| 0 <= m < s.len() && s[m] == insert_by_score(s, n)[k],
    decreases s.len(),
{
    let r = insert_by_score(s, n);
    if s.len() > 0 {
        if s[0].priority.score >= n.priority.score {
            let t = s.drop_first();
            assert forall|i: int, j: int| 0 <= i < j < t.len() implies (#[trigger] t[i]).priority.score >= (#[trigger] t[j]).priority.score by {
                assert(t[i] == s[i + 1] && t[j] == s[j + 1]);
            }
            lemma_insert_by_score(t, n);
            let rest = insert_by_score(t, n);
            assert forall|k: int| 0 <= k < rest.len() implies s[0].priority.score >= (#[trigger] rest[k]).priority.score by {
                if rest[k].priority.score != n.priority.score {
                    let m = choose|m: int| 0 <= m < t.len() && t[m] == rest[k];
                    assert(s[m + 1] == rest[k]);
                }
            }
            assert forall|i: int, j: int| 0 <= i < j < r.len() implies (#[trigger] r[i]).priority.score >= (#[trigger] r[j]).priority.score by {
                assert(r[j] == rest[j - 1]);
                if i > 0 {
                    assert(r[i] == rest[i - 1]);
                }
            }
            assert forall|k: int| 0 <= k < r.len() implies (#[trigger] r[k]).priority.score == n.priority.score
                || exists|m: int| 0 <= m < s.len() && s[m] == r[k] by {
                if k == 0 {
                    assert(s[0] == r[0]);
                } else {
                    assert(r[k] == rest[k - 1]);
                    if rest[k - 1].priority.score != n.priority.score {
                        let m = choose|m: int| 0 <= m < t.len() && t[m] == rest[k - 1];
                        assert(s[m + 1] == r[k]);
                    }
                }
            }
        } else {
            assert forall|i: int, j: int| 0 <= i < j < r.len() implies (#[trigger] r[i]).priority.score >= (#[trigger] r[j]).priority.score by {
                assert(r[j] == s[j - 1]);
                if i > 0 {
                    assert(r[i] == s[i - 1]);
                } else {
                    assert(s[0].priority.score >= s[j - 1].priority.score || j - 1 == 0);
                }
            }
            assert forall|k: int| 0 <= k < r.len() implies (#[trigger] r[k]).priority.score == n.priority.score
                || exists|m: int| 0 <= m < s.len() && s[m] == r[k] by {
                if k > 0 {
                    assert(s[k - 1] == r[k]);
                }
            }
        }
    }
}

/// Ranked notices run from the highest score down, one for each notice given.
pub proof fn lemma_ranked_descends(s: Seq<ChannelNoticeDto>)
    ensures
        score_descending(ranked(s)),
        ranked(s).len() == s.len(),
    decreases s.len(),
{
    if s.len() > 0 {
        lemma_ranked_descends(s.drop_last());
        lemma_insert_by_score(ranked(s.drop_last()), s.last());
    }
}

fn insert_ranked(out: &mut Vec<ChannelNoticeDto>, n: ChannelNoticeDto)
    ensures
        final(out)@ == insert_by_score(old(out)@, n),
{
    let ghost s = out@;
    let mut p: usize = 0;
    assert(s.take(0) + s.skip(0) == s && s.skip(0) == s && s.take(0) == Seq::<ChannelNoticeDto>::empty());
    assert(s.take(0) + insert_by_score(s.skip(0), n) == insert_by_score(s, n));
    while p < out.len() && out[p].priority.score >= n.priority.score
        invariant
            out@ == s,
            p <= s.len(),
            insert_by_score(s, n) == s.take(p as int) + insert_by_score(s.skip(p as int), n),
        decreases s.len() - p,
    {
        let ghost t = s.skip(p as int);
        assert(t.drop_first() == s.skip(p + 1));
        assert(t[0] == s[p as int]);
        assert(s.take(p as int) + seq![s[p as int]] == s.take(p + 1));
        assert(insert_by_score(t, n) == seq![t[0]] + insert_by_score(t.drop_first(), n));
        assert(s.take(p as int) + (seq![s[p as int]] + insert_by_score(s.skip(p + 1), n)) == s.take(p + 1) + insert_by_score(s.skip(p + 1), n));
        p += 1;
    }
    if p == out.len() {
        assert(s.skip(p as int) == Seq::<ChannelNoticeDto>::empty());
    } else {
        assert(s.skip(p as int)[0] == s[p as int]);
    }
    out.insert(p, n);
    assert(out@ == s.take(p as int) + (seq![n] + s.skip(p as int)));
}

/// The notices highest score first, equal scores in the order given.
pub fn rank_notices(notices: Vec<ChannelNoticeDto>) -> (r: Vec<ChannelNoticeDto>)
    ensures
        r@ == ranked(notices@),
{
    let ghost all = notices@;
    let total = notices.len();
    let mut rest = notices;
    let mut out: Vec<ChannelNoticeDto> = Vec::new();
    let mut k: usize = 0;
    assert(all.take(0) == Seq::<ChannelNoticeDto>::empty());
    while rest.len() > 0
        invariant
            k + rest@.len() == all.len(),
            all.len() == total,
            rest@ == all.skip(k as int),
            out@ == ranked(all.take(k as int)),
        decreases rest@.len(),
    {
        let n = rest.remove(0);
        assert(n == all[k as int]);
        assert(all.take(k + 1).drop_last() == all.take(k as int));
        assert(all.take(k + 1).last() == n);
        insert_ranked(&mut out, n);
        k += 1;
        assert(rest@ == all.skip(k as int));
    }
    assert(all.take(k as int) == all);
    out
}

/// Coverage is complete when the channel has sources and every one is
/// usable; a bridge channel also needs the road confirmed restored.
pub open spec fn coverage_complete_spec(kind: ChannelKindDto, coverage: ChannelCoverage, resolution_confirmed: bool) -> bool {
    coverage.total_sources > 0 && coverage.usable_sources == coverage.total_sources && (kind
        != ChannelKindDto::Bridge || resolution_confirmed)
}

pub fn coverage_complete(kind: ChannelKindDto, coverage: &ChannelCoverage, resolution_confirmed: bool) -> (r: bool)
    ensures
        r == coverage_complete_spec(kind, *coverage, resolution_confirmed),
{
    coverage.total_sources > 0 && coverage.usable_sources == coverage.total_sources && (kind
        != ChannelKindDto::Bridge || resolution_confirmed)
}

pub open spec fn opt_text(t: Option<String>) -> Option<Seq<char>> {
    match t {
        Some(s) => Some(s@),
        None => None,
    }
}

/// A signal as plain values.
pub open spec fn signal_view(s: ChannelSignalDto) -> (
    Seq<char>,
    Seq<char>,
    Seq<char>,
    Option<Seq<char>>,
    Option<Seq<char>>,
    Option<Seq<char>>,
    Option<u16>,
    Seq<Decimal>,
    Option<Decimal>,
) {
    (s.headline@, s.detail@, s.action@, opt_text(s.severity), opt_text(s.expires_at), opt_text(s.band),
        s.imminence_minutes, s.series@, s.previous_close)
}

fn copy_text(t: &Option<String>) -> (r: Option<String>)
    ensures
        opt_text(r) == opt_text(*t),
{
    match t {
        Some(s) => Some(owned(s.as_str())),
        None => None,
    }
}

fn copy_signal(s: &ChannelSignalDto) -> (r: ChannelSignalDto)
    ensures
        signal_view(r) == signal_view(*s),
{
    let mut series: Vec<Decimal> = Vec::new();
    let mut i: usize = 0;
    while i < s.series.len()
        invariant
            i <= s.series@.len(),
            series@ == s.series@.take(i as int),
        decreases s.series@.len() - i,
    {
        series.push(s.series[i]);
        i += 1;
    }
    assert(s.series@.take(s.series@.len() as int) == s.series@);
    ChannelSignalDto {
        headline: owned(s.headline.as_str()),
        detail: owned(s.detail.as_str()),
        action: owned(s.action.as_str()),
        severity: copy_text(&s.severity),
        expires_at: copy_text(&s.expires_at),
        band: copy_text(&s.band),
        imminence_minutes: s.imminence_minutes,
        series,
        previous_close: s.previous_close,
    }
}

fn copy_destinations(d: &Vec<DestinationIdDto>) -> (r: Vec<DestinationIdDto>)
    ensures
        r@ == d@,
{
    let mut out: Vec<DestinationIdDto> = Vec::new();
    let mut i: usize = 0;
    while i < d.len()
        invariant
            i <= d@.len(),
            out@ == d@.take(i as int),
        decreases d@.len() - i,
    {
        out.push(d[i]);
        i += 1;
    }
    assert(d@.take(d@.len() as int) == d@);
    out
}

/// A channel's snapshot from its parts. `notices` are the channel's current
/// notices in any order (their signals and priorities measured beside the
/// library); an inactive channel shows none. The snapshot lists them highest
/// score first; its signal is the first notice's, and its priority the first
/// notice's, or `fallback_priority` when there is no notice. Coverage is
/// complete as `coverage_complete_spec` says.
pub fn channel_snapshot(
    channel: &ChannelPreference,
    coverage: ChannelCoverage,
    summary: String,
    active: bool,
    material_key: String,
    notices: Vec<ChannelNoticeDto>,
    fallback_priority: ChannelPriorityDto,
    resolution_confirmed: bool,
) -> (r: ChannelSnapshot)
    ensures
        r.id@ == channel.id@,
        r.kind == channel.kind,
        r.title@ == channel.title@,
        r.source_label@ == source_label_spec(channel.kind),
        r.availability == coverage.availability,
        r.age_seconds == coverage.age_seconds,
        r.coverage_complete == coverage_complete_spec(channel.kind, coverage, resolution_confirmed),
        r.summary == summary,
        r.material_key == material_key,
        r.notices@ == (if active { ranked(notices@) } else { Seq::empty() }),
        r.notices@.len() == 0 ==> r.signal is None && r.priority == fallback_priority,
        r.notices@.len() > 0 ==> r.signal is Some && signal_view(r.signal.unwrap()) == signal_view(r.notices@[0].signal)
            && r.priority == r.notices@[0].priority,
        r.enabled == channel.enabled,
        r.active == active,
        r.presence == channel.presence,
        r.interrupt_preset == channel.interrupt_preset,
        r.destinations@ == channel.destinations@,
{
    let shown = if active {
        rank_notices(notices)
    } else {
        Vec::new()
    };
    let (signal, priority) = if shown.len() > 0 {
        (Some(copy_signal(&shown[0].signal)), shown[0].priority)
    } else {
        (None, fallback_priority)
    };
    let complete = coverage_complete(channel.kind, &coverage, resolution_confirmed);
    ChannelSnapshot {
        id: owned(channel.id.as_str()),
        kind: channel.kind,
        title: owned(channel.title.as_str()),
        source_label: owned(source_label(channel.kind, channel)),
        availability: coverage.availability,
        age_seconds: coverage.age_seconds,
        coverage_complete: complete,
        summary,
        material_key,
        signal,
        notices: shown,
        priority,
        enabled: channel.enabled,
        active,
        presence: channel.presence,
        interrupt_preset: channel.interrupt_preset,
        destinations: copy_destinations(&channel.destinations),
    }
}

} // verus!
