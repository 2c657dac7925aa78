use brickellstatus_runtime::dto::{BridgeStateDto, ChannelKindDto, ChannelSignalDto, DecisionSnapshot, UrgencyDto};
use brickellstatus_runtime::evidence::{
    decision_snapshot, AvailabilityStatus, ModelAvailability, Prediction,
};
use brickellstatus_runtime::priority::{channel_severity_rank, channel_urgency, QuakeBand};

const NOW: i64 = 1_786_802_400_000;

fn decision(state: BridgeStateDto) -> DecisionSnapshot {
    let p = Prediction {
        state,
        eta: None,
        confidence_bps: 10_000,
        contributions: vec![],
        availability: ModelAvailability {
            status: AvailabilityStatus::Live,
            checked_at_ms: NOW,
            last_success_at_ms: Some(NOW),
            detail: None,
        },
        evaluated_at_ms: NOW,
        next_ordinary_opening_at_ms: None,
        ordinary_opening_allowed: false,
    };
    decision_snapshot(&p, "UTC").unwrap_or_else(|_| panic!("decision"))
}

fn signal(severity: Option<&str>) -> ChannelSignalDto {
    ChannelSignalDto {
        headline: "Headline".into(),
        detail: "Detail".into(),
        action: "Action".into(),
        severity: severity.map(str::to_string),
        expires_at: None,
        band: None,
        imminence_minutes: None,
        series: vec![],
        previous_close: None,
    }
}

#[test]
fn bridge_urgency_follows_the_decision_state() {
    let s = signal(None);
    assert_eq!(channel_urgency(ChannelKindDto::Bridge, Some(&s), &decision(BridgeStateDto::Open), QuakeBand::Other), UrgencyDto::Emergency);
    assert_eq!(channel_urgency(ChannelKindDto::Bridge, None, &decision(BridgeStateDto::Likely), QuakeBand::Other), UrgencyDto::HeadsUp);
    assert_eq!(channel_urgency(ChannelKindDto::Bridge, None, &decision(BridgeStateDto::Clear), QuakeBand::Major), UrgencyDto::Routine);
}

#[test]
fn official_news_and_weather_urgency_read_the_severity_word_in_any_case() {
    let d = decision(BridgeStateDto::Clear);
    let extreme = signal(Some("EXTREME"));
    let severe = signal(Some("Severe"));
    let minor = signal(Some("minor"));
    assert_eq!(channel_urgency(ChannelKindDto::Official, Some(&extreme), &d, QuakeBand::Other), UrgencyDto::Emergency);
    assert_eq!(channel_urgency(ChannelKindDto::Official, Some(&severe), &d, QuakeBand::Other), UrgencyDto::Action);
    assert_eq!(channel_urgency(ChannelKindDto::Official, Some(&minor), &d, QuakeBand::Other), UrgencyDto::HeadsUp);
    assert_eq!(channel_urgency(ChannelKindDto::Official, None, &d, QuakeBand::Other), UrgencyDto::HeadsUp);
    let breaking = signal(Some("Breaking"));
    assert_eq!(channel_urgency(ChannelKindDto::News, Some(&breaking), &d, QuakeBand::Other), UrgencyDto::HeadsUp);
    assert_eq!(channel_urgency(ChannelKindDto::News, Some(&minor), &d, QuakeBand::Other), UrgencyDto::Routine);
    let falling = signal(Some("falling now"));
    assert_eq!(channel_urgency(ChannelKindDto::Weather, Some(&falling), &d, QuakeBand::Other), UrgencyDto::Action);
    assert_eq!(channel_urgency(ChannelKindDto::Weather, None, &d, QuakeBand::Other), UrgencyDto::HeadsUp);
    assert_eq!(channel_urgency(ChannelKindDto::Hurricane, None, &d, QuakeBand::Other), UrgencyDto::HeadsUp);
    assert_eq!(channel_urgency(ChannelKindDto::Markets, Some(&extreme), &d, QuakeBand::Major), UrgencyDto::Routine);
    assert_eq!(channel_urgency(ChannelKindDto::Sports, Some(&breaking), &d, QuakeBand::Major), UrgencyDto::Routine);
}

#[test]
fn earthquake_urgency_follows_the_magnitude_band() {
    let d = decision(BridgeStateDto::Clear);
    assert_eq!(channel_urgency(ChannelKindDto::Earthquake, None, &d, QuakeBand::Major), UrgencyDto::Emergency);
    assert_eq!(channel_urgency(ChannelKindDto::Earthquake, None, &d, QuakeBand::Strong), UrgencyDto::Action);
    assert_eq!(channel_urgency(ChannelKindDto::Earthquake, None, &d, QuakeBand::Other), UrgencyDto::HeadsUp);
}

#[test]
fn severity_rank_orders_official_words_and_caps_quakes() {
    assert_eq!(channel_severity_rank(ChannelKindDto::Official, Some(&signal(Some("Extreme"))), 0), 9);
    assert_eq!(channel_severity_rank(ChannelKindDto::Official, Some(&signal(Some("severe"))), 0), 7);
    assert_eq!(channel_severity_rank(ChannelKindDto::Official, Some(&signal(Some("MODERATE"))), 0), 4);
    assert_eq!(channel_severity_rank(ChannelKindDto::Official, Some(&signal(Some("minor"))), 0), 2);
    assert_eq!(channel_severity_rank(ChannelKindDto::Official, Some(&signal(Some("unknown"))), 0), 0);
    assert_eq!(channel_severity_rank(ChannelKindDto::Earthquake, None, 7), 7);
    assert_eq!(channel_severity_rank(ChannelKindDto::Earthquake, None, 12), 9);
    assert_eq!(channel_severity_rank(ChannelKindDto::News, Some(&signal(Some("extreme"))), 5), 0);
}
