use brickellstatus_runtime::bridge::{detect_outbound_progress, BridgeStateTransition, OutboundProgressStage};
use brickellstatus_runtime::runtime::{backoff_for, RuntimeConfig};
use brickellstatus_runtime::signal::bounded_signal_text;

#[test]
fn backoff_is_bounded() {
    let config = RuntimeConfig::default();
    assert_eq!(
        config.user_agent,
        "BrickellStatus/0.1 (+https://github.com/cmiami/BrickellStatus)"
    );
    assert_eq!(backoff_for(&config, 1), config.backoff_initial);
    assert_eq!(backoff_for(&config, 100), config.backoff_max);
}

#[test]
fn signal_text_removes_controls_and_is_character_bounded() {
    let hostile = format!("\u{202e}\n{}\u{0007}", "x".repeat(300));
    let bounded = bounded_signal_text(&hostile, 160);
    assert!(bounded.chars().count() <= 160);
    assert!(!bounded.chars().any(char::is_control));
    assert!(!bounded.contains('\u{202e}'));
    assert!(bounded.ends_with('…'));
}

fn transition(
    bridge_key: &str,
    relation: &str,
    from_state: &str,
    to_state: &str,
    occurred_at_ms: i64,
) -> BridgeStateTransition {
    BridgeStateTransition {
        bridge_key: bridge_key.into(),
        bridge_name: bridge_key.replace('_', " "),
        relation: relation.into(),
        from_state: from_state.into(),
        to_state: to_state.into(),
        occurred_at_ms,
    }
}

#[test]
fn ordered_outbound_openings_raise_high_then_very_high_confidence() {
    let now_ms = 1_786_741_200_000;
    let high = vec![
        transition("w_flagler", "upstream", "down", "up", now_ms - 8 * 60_000),
        transition("sw_1_st", "upstream", "down", "up", now_ms - 4 * 60_000),
    ];
    let progress = detect_outbound_progress(&high, now_ms).expect("outbound sequence");
    assert_eq!(progress.stage, OutboundProgressStage::High);
    assert_eq!(progress.bridge_key, "sw_1_st");

    let mut very_high = high;
    very_high.push(transition(
        "sw_2_ave",
        "upstream",
        "down",
        "up",
        now_ms - 60_000,
    ));
    let progress = detect_outbound_progress(&very_high, now_ms).expect("nearest upstream reached");
    assert_eq!(progress.stage, OutboundProgressStage::VeryHigh);
    assert_eq!(progress.bridge_key, "sw_2_ave");
}

#[test]
fn a_single_or_inbound_upstream_opening_is_not_outbound_evidence() {
    let now_ms = 1_786_741_200_000;
    assert!(
        detect_outbound_progress(
            &[transition(
                "sw_2_ave",
                "upstream",
                "down",
                "up",
                now_ms - 60_000,
            )],
            now_ms,
        )
        .is_none()
    );

    let inbound = vec![
        transition("brickell", "target", "down", "up", now_ms - 10 * 60_000),
        transition("sw_2_ave", "upstream", "down", "up", now_ms - 7 * 60_000),
        transition("sw_1_st", "upstream", "down", "up", now_ms - 3 * 60_000),
    ];
    assert!(detect_outbound_progress(&inbound, now_ms).is_none());
}
