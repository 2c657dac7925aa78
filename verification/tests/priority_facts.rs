use brickellstatus_runtime::dto::{
    AvailabilityDto, BridgeStateDto, ChannelKindDto, ChannelSignalDto, DecisionSnapshot,
};
use brickellstatus_runtime::priority::{channel_confirmed, channel_imminence_minutes};

fn decision(state: BridgeStateDto, eta_min: Option<u16>) -> DecisionSnapshot {
    DecisionSnapshot {
        channel_id: "bridge.brickell".into(),
        subject: "Brickell Avenue".into(),
        state,
        state_label: "Opening likely".into(),
        meaning: "Vessel approaching.".into(),
        action: "Expect a lift.".into(),
        eta_min,
        eta_max: eta_min.map(|m| m + 5),
        confidence_bps: Some(7_000),
        confidence_label: None,
        confidence_basis: None,
        next_legal_slot: None,
        opening_allowed_now: true,
        availability: AvailabilityDto::Fresh,
        source_age_seconds: 0,
    }
}

fn signal(severity: Option<&str>, imminence_minutes: Option<u16>) -> ChannelSignalDto {
    ChannelSignalDto {
        headline: "Rain".into(),
        detail: "Detail".into(),
        action: "Action".into(),
        severity: severity.map(Into::into),
        expires_at: None,
        band: None,
        imminence_minutes,
        series: Vec::new(),
        previous_close: None,
    }
}

#[test]
fn an_open_bridge_is_imminent_now_and_confirmed() {
    let open = decision(BridgeStateDto::Open, Some(12));
    assert_eq!(channel_imminence_minutes(ChannelKindDto::Bridge, None, &open), Some(0));
    assert!(channel_confirmed(ChannelKindDto::Bridge, None, &open));
}

#[test]
fn a_likely_bridge_answers_from_its_eta() {
    let likely = decision(BridgeStateDto::Likely, Some(12));
    let s = signal(None, Some(3));
    assert_eq!(channel_imminence_minutes(ChannelKindDto::Bridge, Some(&s), &likely), Some(12));
    assert!(!channel_confirmed(ChannelKindDto::Bridge, Some(&s), &likely));
}

#[test]
fn other_channels_answer_from_their_signal() {
    let clear = decision(BridgeStateDto::Clear, None);
    let s = signal(Some("Imminent"), Some(8));
    assert_eq!(channel_imminence_minutes(ChannelKindDto::Weather, Some(&s), &clear), Some(8));
    assert_eq!(channel_imminence_minutes(ChannelKindDto::News, None, &clear), None);
}

#[test]
fn only_falling_rain_confirms_weather() {
    let clear = decision(BridgeStateDto::Clear, None);
    assert!(channel_confirmed(
        ChannelKindDto::Weather,
        Some(&signal(Some("Falling now"), Some(0))),
        &clear
    ));
    assert!(!channel_confirmed(
        ChannelKindDto::Weather,
        Some(&signal(Some("Imminent"), Some(5))),
        &clear
    ));
    assert!(channel_confirmed(ChannelKindDto::Markets, Some(&signal(None, None)), &clear));
    assert!(!channel_confirmed(ChannelKindDto::Markets, None, &clear));
    assert!(!channel_confirmed(ChannelKindDto::System, Some(&signal(None, None)), &clear));
}
