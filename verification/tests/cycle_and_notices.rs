use brickellstatus_runtime::availability::{CollectorCursor, HealthState};
use brickellstatus_runtime::catalog::FeedCatalog;
use brickellstatus_runtime::dto::{
    AppPreferences, AvailabilityDto, ChannelKindDto, ChannelNoticeDto, ChannelPriorityDto,
    ChannelSignalDto, UrgencyDto,
};
use brickellstatus_runtime::preferences::reconcile_loaded_preferences;
use brickellstatus_runtime::refresh::{close_cycle, CollectedBatch, CollectionOutcome};
use brickellstatus_runtime::rules::ChannelCoverage;
use brickellstatus_runtime::clock::{clock_label_text, local_clock_label};
use brickellstatus_runtime::dto::{InterruptPreset, SurfacePresence};
use brickellstatus_runtime::preferences::time_zone_names;
use brickellstatus_runtime::snapshot::{channel_snapshot, coverage_complete, rank_notices};
use brickellstatus_runtime::standardize_alert_policy;

fn notice(key: &str, score: u16) -> ChannelNoticeDto {
    ChannelNoticeDto {
        key: key.into(),
        source_url: None,
        signal: ChannelSignalDto {
            headline: key.into(),
            detail: String::new(),
            action: String::new(),
            severity: None,
            expires_at: None,
            band: None,
            imminence_minutes: None,
            series: vec![],
            previous_close: None,
        },
        priority: ChannelPriorityDto { score, urgency: UrgencyDto::Routine, imminence_minutes: None, confirmed: false },
    }
}

fn shipped() -> AppPreferences {
    AppPreferences::defaults(&FeedCatalog { schema_version: 1, verified_on: "2025-01-01".into(), sections: vec![] })
}

#[test]
fn notices_rank_highest_score_first_and_ties_keep_their_order() {
    let ranked = rank_notices(vec![notice("a", 10), notice("b", 40), notice("c", 10), notice("d", 40), notice("e", 0)]);
    let keys: Vec<&str> = ranked.iter().map(|n| n.key.as_str()).collect();
    assert_eq!(keys, vec!["b", "d", "a", "c", "e"]);
    assert!(rank_notices(vec![]).is_empty());
}

#[test]
fn coverage_is_complete_only_when_every_source_is_usable() {
    let coverage = |total, usable| ChannelCoverage {
        availability: AvailabilityDto::Fresh,
        age_seconds: 0,
        total_sources: total,
        usable_sources: usable,
        fresh_sources: usable,
    };
    assert!(coverage_complete(ChannelKindDto::News, &coverage(2, 2), false));
    assert!(!coverage_complete(ChannelKindDto::News, &coverage(2, 1), true));
    assert!(!coverage_complete(ChannelKindDto::News, &coverage(0, 0), true));
    assert!(!coverage_complete(ChannelKindDto::Bridge, &coverage(2, 2), false));
    assert!(coverage_complete(ChannelKindDto::Bridge, &coverage(2, 2), true));
}

#[test]
fn a_cycle_reports_answers_failures_and_skips_and_publishes_only_when_current() {
    let batch = CollectionOutcome::Batch(CollectedBatch {
        items: vec![],
        health: HealthState::Healthy,
        health_message: None,
        cursor: CollectorCursor { metadata: vec![] },
        not_modified: false,
    });
    let outcomes = vec![batch.clone(), CollectionOutcome::Failed("timeout".into()), batch];
    let (report, publish) = close_cycle(&outcomes, 4, 7, 7, "2026-08-14T12:00:00Z".into());
    assert_eq!((report.attempted, report.succeeded, report.failed, report.skipped_backoff), (3, 2, 1, 4));
    assert_eq!(report.finished_at, "2026-08-14T12:00:00Z");
    assert!(publish);
    let (superseded, publish) = close_cycle(&outcomes, 0, 7, 8, "2026-08-14T12:00:00Z".into());
    assert_eq!((superseded.succeeded, superseded.failed), (2, 1));
    assert!(!publish);
}

#[test]
fn loading_takes_the_secret_store_answer_and_says_when_to_write() {
    let mut fresh = shipped();
    assert!(reconcile_loaded_preferences(&mut fresh, false, None));
    let mut stored = shipped();
    assert!(!reconcile_loaded_preferences(&mut stored, true, None));
    assert!(!reconcile_loaded_preferences(&mut stored, true, Some(false)));
    assert!(reconcile_loaded_preferences(&mut stored, true, Some(true)));
    assert!(stored.ais.api_key_configured);
    assert!(!reconcile_loaded_preferences(&mut stored, true, Some(true)));
}

#[test]
fn standardizing_the_shipped_profile_changes_nothing() {
    let mut preferences = shipped();
    let before = preferences.clone();
    assert!(!standardize_alert_policy(&mut preferences));
    assert_eq!(preferences, before);
    preferences.display.dwell_seconds = 9999;
    assert!(standardize_alert_policy(&mut preferences));
    assert_ne!(preferences.display.dwell_seconds, 9999);
    assert!(!standardize_alert_policy(&mut preferences));
}

#[test]
fn clock_labels_take_the_month_day_and_twelve_hour_shape() {
    assert_eq!(clock_label_text(8, 15, 14, 5), "Aug 15, 2:05 PM");
    assert_eq!(clock_label_text(1, 1, 0, 0), "Jan 1, 12:00 AM");
    assert_eq!(clock_label_text(12, 31, 12, 59), "Dec 31, 12:59 PM");
    let label = local_clock_label(1_786_802_400_000);
    let months = ["Jan", "Feb", "Mar", "Apr", "May", "Jun", "Jul", "Aug", "Sep", "Oct", "Nov", "Dec"];
    assert!(months.iter().any(|m| label.starts_with(m)), "{label}");
    assert!(label.ends_with(" AM") || label.ends_with(" PM"), "{label}");
}

#[test]
fn the_zone_names_looked_up_are_the_areas_then_the_quiet_hours() {
    let mut preferences = shipped();
    preferences.profile.quiet_hours.time_zone = "UTC".into();
    assert_eq!(time_zone_names(&preferences), vec!["America/New_York".to_string(), "UTC".to_string()]);
}

#[test]
fn a_snapshot_shows_ranked_notices_and_takes_the_first_ones_signal_and_priority() {
    let preferences = shipped();
    let channel = &preferences.profile.channels[4];
    let coverage = ChannelCoverage {
        availability: AvailabilityDto::Fresh,
        age_seconds: 12,
        total_sources: 2,
        usable_sources: 2,
        fresh_sources: 2,
    };
    let fallback = ChannelPriorityDto { score: 1, urgency: UrgencyDto::Routine, imminence_minutes: None, confirmed: false };
    let snapshot = channel_snapshot(channel, coverage, "Summary".into(), true, "material:x".into(),
        vec![notice("low", 5), notice("high", 50)], fallback, false);
    assert_eq!(snapshot.id, "news.local");
    assert_eq!(snapshot.source_label, "Configured RSS/Atom");
    assert_eq!(snapshot.notices.iter().map(|n| n.key.as_str()).collect::<Vec<_>>(), vec!["high", "low"]);
    assert_eq!(snapshot.signal.as_ref().unwrap().headline, "high");
    assert_eq!(snapshot.priority.score, 50);
    assert!(snapshot.coverage_complete);
    assert_eq!(snapshot.age_seconds, 12);
    assert_eq!(snapshot.presence, SurfacePresence::ActiveOnly);
    assert_eq!(snapshot.interrupt_preset, InterruptPreset::Recommended);
    assert_eq!(snapshot.destinations, channel.destinations);
    let quiet = channel_snapshot(channel, coverage, "Summary".into(), false, "material:y".into(),
        vec![notice("high", 50)], fallback, false);
    assert!(quiet.notices.is_empty());
    assert!(quiet.signal.is_none());
    assert_eq!(quiet.priority, fallback);
}
