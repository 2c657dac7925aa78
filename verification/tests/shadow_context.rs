use brickellstatus_runtime::runtime::{outbound_eta, upstream_distance_meters};
use brickellstatus_runtime::shadow::{
    context_features, shadow_schedule, BoardWindow, OperatingMode, ShadowBooking, ShadowLift, ShadowSchedule,
};

const NOW_MS: i64 = 1_786_741_200_000;
const MINUTE: i64 = 60_000;

fn lift(key: &str, relation: &str, minutes_ago: i64) -> ShadowLift {
    ShadowLift { key: key.into(), relation: relation.into(), at: NOW_MS - minutes_ago * MINUTE }
}

fn night() -> ShadowSchedule {
    ShadowSchedule { mode: "on_signal".into(), local_hour: 3, seconds_to_slot: 100 }
}

#[test]
fn an_outbound_convoy_reads_as_ordered_upstream_lifts() {
    let lifts = vec![
        lift("sw_2_ave", "upstream", 3),
        lift("w_flagler", "upstream", 11),
        lift("sw_1_st", "upstream", 7),
        lift("brickell", "target", 25),
    ];
    let f = context_features(NOW_MS, &lifts, &[], &night(), &[]);
    assert!(f.up_any15 && f.up_two20 && f.up_sw2ave12 && f.up_sw1st12);
    assert!(f.up_ordered20, "ranks 3, 2, 1 over time walk downstream");
    assert!(f.recent_open30);
    assert!(!f.daytime && !f.slot_soon && !f.sched_weekday && !f.blackout);

    let inbound = vec![lift("sw_2_ave", "upstream", 9), lift("sw_1_st", "upstream", 4)];
    let f = context_features(NOW_MS, &inbound, &[], &night(), &[]);
    assert!(f.up_two20 && !f.up_ordered20);

    let single = vec![lift("sw_2_ave", "upstream", 9), lift("sw_2_ave", "upstream", 40), lift("unranked", "upstream", 1)];
    let f = context_features(NOW_MS, &single, &[], &night(), &[]);
    assert!(f.up_any15 && !f.up_two20 && !f.up_ordered20);
}

#[test]
fn board_bookings_count_inside_their_window() {
    let windows = vec![
        BoardWindow { direction: "downriver".into(), low_minutes: -10, high_minutes: 20 },
        BoardWindow { direction: "upriver".into(), low_minutes: 0, high_minutes: 5 },
    ];
    let down = ShadowBooking {
        direction: "downriver".into(),
        scheduled_at: NOW_MS - 5 * MINUTE,
        first_seen: NOW_MS - 60 * MINUTE,
        last_seen: NOW_MS - 9 * MINUTE,
    };
    let stale_up = ShadowBooking {
        direction: "upriver".into(),
        scheduled_at: NOW_MS,
        first_seen: NOW_MS - 60 * MINUTE,
        last_seen: NOW_MS - 11 * MINUTE,
    };
    let schedule = ShadowSchedule { mode: "scheduled".into(), local_hour: 9, seconds_to_slot: 720 };
    let f = context_features(NOW_MS, &[], &[down, stale_up], &schedule, &windows);
    assert!(f.bbp_down && !f.bbp_up);
    assert!(f.sched_weekday && f.daytime && f.slot_soon);
}

#[test]
fn the_next_slot_is_read_on_the_local_clock() {
    let at_slot = shadow_schedule(OperatingMode::Scheduled, 17, -4 * 3600, NOW_MS);
    assert_eq!(at_slot.mode, "scheduled");
    assert_eq!(at_slot.seconds_to_slot, 0);
    let later = shadow_schedule(OperatingMode::Blackout, 17, -4 * 3600, NOW_MS + 61_000);
    assert_eq!(later.seconds_to_slot, 1_800 - 61);
    assert_eq!(later.mode, "blackout");
    let before_epoch = shadow_schedule(OperatingMode::OnSignal, 0, 0, -1);
    assert_eq!(before_epoch.seconds_to_slot, 1);
    assert_eq!(before_epoch.mode, "on_signal");
}

#[test]
fn outbound_windows_follow_river_distance() {
    assert_eq!(upstream_distance_meters("sw_2_ave"), Some(759));
    assert_eq!(outbound_eta("sw_2_ave"), Some((4, 9)));
    assert_eq!(outbound_eta("sw_1_st"), Some((6, 13)));
    assert_eq!(outbound_eta("nw_27_ave"), Some((30, 61)));
    assert_eq!(outbound_eta("brickell"), None);
}
