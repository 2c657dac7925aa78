use brickellstatus_runtime::vessels::{
    kept_point_indices, known_opener_committed, learned_opener, ledger_propensity, likely_to_open,
    mmsi_is_valid, schedule_exempt, select_vessel_tracks, TrackPoint, TrackSummary,
    MAX_VESSEL_TRACKS,
};
use brickellstatus_runtime::VesselMovementDto;

const NOW: i64 = 1_786_802_400_000; // 2026-08-15T14:00:00Z

fn point(at: &str) -> TrackPoint {
    TrackPoint { observed_at: at.to_string(), coordinates_valid: true }
}

fn track(mmsi: &str, at: &str, route: bool) -> TrackSummary {
    TrackSummary {
        mmsi: mmsi.to_string(),
        observed_at: at.to_string(),
        motion_valid: true,
        route_intersects: route,
        points: vec![point(at)],
    }
}

#[test]
fn mmsi_must_be_nine_ascii_digits() {
    assert!(mmsi_is_valid("367123456"));
    assert!(!mmsi_is_valid("36712345"));
    assert!(!mmsi_is_valid("3671234567"));
    assert!(!mmsi_is_valid("36712345a"));
    assert!(!mmsi_is_valid("３67123456"));
}

#[test]
fn route_crossing_tracks_come_first_then_the_newest() {
    let tracks = vec![
        track("367000001", "2026-08-15T13:50:00Z", false),
        track("367000002", "2026-08-15T13:40:00Z", true),
        track("367000003", "2026-08-15T13:55:00Z", false),
        track("367000004", "2026-08-15T13:45:00Z", true),
    ];
    let selected = select_vessel_tracks(&tracks, NOW);
    let order: Vec<usize> = selected.iter().map(|s| s.index).collect();
    assert_eq!(order, vec![3, 1, 2, 0]);
    assert_eq!(selected[0].observed_ms, NOW - 15 * 60_000);
    assert!(selected[0].route_intersects);
    assert_eq!(selected[0].points, vec![0]);
}

#[test]
fn equal_keys_keep_input_order() {
    let tracks = vec![
        track("367000001", "2026-08-15T13:50:00Z", false),
        track("367000002", "2026-08-15T13:50:00Z", false),
    ];
    let order: Vec<usize> = select_vessel_tracks(&tracks, NOW).iter().map(|s| s.index).collect();
    assert_eq!(order, vec![0, 1]);
}

#[test]
fn stale_future_invalid_and_pointless_tracks_are_dropped() {
    let mut no_points = track("367000005", "2026-08-15T13:59:00Z", true);
    no_points.points = vec![point("2026-08-15T12:00:00Z")];
    let mut implausible = track("367000006", "2026-08-15T13:59:00Z", true);
    implausible.motion_valid = false;
    let tracks = vec![
        track("367000001", "2026-08-15T12:59:59Z", true),
        track("367000002", "2026-08-15T14:00:31Z", true),
        track("36700000x", "2026-08-15T13:59:00Z", true),
        track("367000004", "not a time", true),
        no_points,
        implausible,
        track("367000007", "2026-08-15T13:00:00Z", false),
        track("367000008", "2026-08-15T14:00:30Z", false),
    ];
    let order: Vec<usize> = select_vessel_tracks(&tracks, NOW).iter().map(|s| s.index).collect();
    assert_eq!(order, vec![7, 6]);
}

#[test]
fn at_most_sixty_four_tracks_are_listed() {
    let tracks: Vec<TrackSummary> = (0..70)
        .map(|i| track(&format!("3670000{:02}", i), &format!("2026-08-15T13:{:02}:00Z", i % 60), i == 69))
        .collect();
    let selected = select_vessel_tracks(&tracks, NOW);
    assert_eq!(selected.len(), MAX_VESSEL_TRACKS);
    assert_eq!(selected[0].index, 69);
    assert!(selected.iter().all(|s| s.index != 0 && s.index != 60));
}

#[test]
fn only_the_last_121_in_window_points_are_kept() {
    let mut points: Vec<TrackPoint> = (0..130)
        .map(|i| point(&format!("2026-08-15T13:{:02}:{:02}Z", 10 + i / 60, i % 60)))
        .collect();
    points.push(point("2026-08-15T11:00:00Z"));
    points.push(TrackPoint { observed_at: "2026-08-15T13:59:00Z".into(), coordinates_valid: false });
    let kept = kept_point_indices(&points, NOW);
    assert_eq!(kept.len(), 121);
    assert_eq!(kept[0], 9);
    assert_eq!(*kept.last().unwrap(), 129);
}

#[test]
fn ledger_and_opener_rules() {
    let ledger = vec![("367000001".to_string(), 7_500u16), ("367000002".to_string(), 1_000u16)];
    assert_eq!(ledger_propensity(&ledger, "367000001"), Some(7_500));
    assert_eq!(ledger_propensity(&ledger, "367000009"), None);
    assert!(learned_opener(Some(7_500), 6_000));
    assert!(!learned_opener(Some(1_000), 6_000));
    assert!(!learned_opener(None, 0));
    assert!(schedule_exempt(Some("tug + tow")));
    assert!(schedule_exempt(Some("pilot")));
    assert!(!schedule_exempt(Some("cargo")));
    assert!(!schedule_exempt(None));
    assert!(known_opener_committed(true, VesselMovementDto::Approaching, Some("waiting")));
    assert!(!known_opener_committed(true, VesselMovementDto::Approaching, Some("moored")));
    assert!(!known_opener_committed(true, VesselMovementDto::Diverging, Some("underway")));
    assert!(!known_opener_committed(false, VesselMovementDto::Approaching, Some("underway")));
}

#[test]
fn likely_to_open_needs_evidence_approach_recency_eta_and_an_opening() {
    let recent = NOW - 60_000;
    let likely = |learned: bool, class: Option<&str>, eta: Option<u16>, predicted: bool, observed: i64| {
        likely_to_open(learned, class, VesselMovementDto::Approaching, true, observed, NOW, 900, eta, 20, predicted)
    };
    assert!(likely(true, None, Some(12), true, recent));
    assert!(likely(false, Some("sailing"), Some(20), true, recent));
    assert!(!likely(false, Some("cargo"), Some(12), true, recent));
    assert!(!likely(true, None, Some(21), true, recent));
    assert!(!likely(true, None, None, true, recent));
    assert!(!likely(true, None, Some(12), false, recent));
    assert!(!likely(true, None, Some(12), true, NOW - 900_001));
    assert!(likely(true, None, Some(12), true, NOW - 900_000));
    assert!(!likely_to_open(true, None, VesselMovementDto::Stationary, true, recent, NOW, 900, Some(5), 20, true));
    assert!(!likely_to_open(true, None, VesselMovementDto::Approaching, false, recent, NOW, 900, Some(5), 20, true));
}
