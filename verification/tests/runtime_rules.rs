use brickellstatus_runtime::dto::BridgeStateDto;
use brickellstatus_runtime::json::{JsonNumber, JsonObject, JsonValue};
use brickellstatus_runtime::number::Decimal;
use brickellstatus_runtime::preferences::{
    parse_hhmm, valid_whatsapp_language_code, validate_whatsapp_recipient,
};
use brickellstatus_runtime::runtime::{
    active_source_map, backoff_for, confidence_label, decision_copy, duration_millis,
    hex_digest, upstream_rank, RuntimeConfig, RuntimeError, SourceRegistration, TimeSpan,
};
use brickellstatus_runtime::signal::{bounded_optional_signal_text, bounded_signal_text, signal_text};

#[test]
fn backoff_doubles_from_the_first_failure_up_to_its_ceiling() {
    let config = RuntimeConfig::default();
    assert_eq!(backoff_for(&config, 0), TimeSpan::from_secs(15));
    assert_eq!(backoff_for(&config, 2), TimeSpan::from_secs(30));
    assert_eq!(backoff_for(&config, 4), TimeSpan::from_secs(120));
    assert_eq!(backoff_for(&config, 7), TimeSpan::from_secs(900));
    let mut previous = TimeSpan::from_secs(0);
    for failures in 0..40 {
        let wait = backoff_for(&config, failures);
        assert!(wait <= config.backoff_max);
        assert!(previous <= wait);
        previous = wait;
    }
    let huge = RuntimeConfig {
        backoff_initial: TimeSpan::from_secs(u64::MAX),
        backoff_max: TimeSpan::from_secs(u64::MAX),
        ..RuntimeConfig::default()
    };
    assert_eq!(backoff_for(&huge, 30), huge.backoff_max);
    assert_eq!(TimeSpan::from_secs(u64::MAX).saturating_mul(2).as_nanos(), 18_446_744_073_709_551_615_999_999_999);
}

#[test]
fn configuration_rules_name_each_fault() {
    assert!(RuntimeConfig::default().validate().is_ok());
    let blank = RuntimeConfig { user_agent: "   ".into(), ..RuntimeConfig::default() };
    assert!(matches!(blank.validate(), Err(RuntimeError::Configuration(_))));
    let zero = RuntimeConfig { poll_interval: TimeSpan::from_secs(0), ..RuntimeConfig::default() };
    assert!(matches!(zero.validate(), Err(RuntimeError::Configuration(_))));
    let inverted = RuntimeConfig { backoff_max: TimeSpan::from_secs(1), ..RuntimeConfig::default() };
    assert!(inverted.validate().is_err());
    let crowded = RuntimeConfig { max_concurrent_collectors: 33, ..RuntimeConfig::default() };
    assert!(crowded.validate().is_err());
    let idle = RuntimeConfig { max_concurrent_collectors: 0, ..RuntimeConfig::default() };
    assert!(idle.validate().is_err());
}

#[test]
fn spans_become_milliseconds_held_to_i64() {
    assert_eq!(duration_millis(TimeSpan::from_millis(1500)), 1500);
    assert_eq!(duration_millis(TimeSpan::from_secs(u64::MAX)), i64::MAX);
    assert!(TimeSpan::from_nanos(u128::MAX).is_none());
}

#[test]
fn digests_are_lowercase_hex() {
    assert_eq!(hex_digest(&[0x00, 0x0f, 0xa5, 0xff]), "000fa5ff");
    assert_eq!(hex_digest(&[]), "");
}

#[test]
fn upstream_ranks_follow_the_river() {
    assert_eq!(upstream_rank("sw_2_ave"), Some(1));
    assert_eq!(upstream_rank("nw_27_ave"), Some(8));
    assert_eq!(upstream_rank("brickell"), None);
}

#[test]
fn decision_copy_and_confidence_words() {
    assert_eq!(decision_copy(BridgeStateDto::Open).0, "Bridge open");
    assert_eq!(decision_copy(BridgeStateDto::Clear).0, "Road open");
    assert_eq!(confidence_label(0), "Low estimate");
    assert_eq!(confidence_label(2_500), "Moderate estimate");
    assert_eq!(confidence_label(8_199), "High estimate");
    assert_eq!(confidence_label(10_000), "Very high estimate");
}

#[test]
fn registrations_map_sources_to_channels_once() {
    let reg = |id: &str, channel: &str| SourceRegistration { id: id.into(), channel_id: channel.into() };
    let map = active_source_map(&[reg("fl511.brickell", "bridge.brickell"), reg("nws.area.miami", "official.miami")]).unwrap();
    assert_eq!(map[1], ("nws.area.miami".to_string(), "official.miami".to_string()));
    assert!(matches!(
        active_source_map(&[reg("a", "x"), reg("a", "y")]),
        Err(RuntimeError::Configuration(_))
    ));
    assert!(active_source_map(&[reg(" ", "x")]).is_err());
}

#[test]
fn signal_text_collapses_whitespace_and_falls_back() {
    assert_eq!(bounded_signal_text("  a \t b\u{2066}c  ", 20), "a b c");
    assert_eq!(bounded_signal_text("abcdef", 4), "abc…");
    assert_eq!(bounded_signal_text("abcdef", 0), "…");
    assert_eq!(bounded_optional_signal_text(Some(" \u{7} "), 10), None);
    assert_eq!(signal_text(Some("   "), "fallback", 10), "fallback");
    assert_eq!(signal_text(None, "fallback text", 5), "fall…");
}

#[test]
fn clock_and_contact_fields_read_strictly() {
    assert_eq!(parse_hhmm("start", "22:00").unwrap(), (22, 0));
    assert_eq!(parse_hhmm("start", "+6:30").unwrap(), (6, 30));
    assert!(parse_hhmm("start", "24:00").is_err());
    assert!(parse_hhmm("start", "6:30").is_err());
    assert!(parse_hhmm("start", "06:3x").is_err());
    assert!(valid_whatsapp_language_code("en"));
    assert!(valid_whatsapp_language_code("fil_PH"));
    assert!(!valid_whatsapp_language_code("en_"));
    assert!(validate_whatsapp_recipient(" +1 (305) 555-0123 ").is_ok());
    assert!(validate_whatsapp_recipient("+1234567").is_err());
    assert!(validate_whatsapp_recipient("+1234567890123456").is_err());
}

#[test]
fn a_scope_read_gives_back_what_was_written() {
    let mut scope = JsonObject::new();
    scope.insert("feed".into(), JsonValue::String("4.5_day".into()));
    scope.insert("eventAgeMinutes".into(), JsonValue::Number(JsonNumber::Integer(1440)));
    scope.insert("feed".into(), JsonValue::String("significant_day".into()));
    assert_eq!(scope.get_str("feed"), Some("significant_day"));
    assert_eq!(scope.get_number("eventAgeMinutes"), Some(JsonNumber::Integer(1440)));
    assert_eq!(scope.len(), 2);
    assert!(JsonNumber::Float(Decimal::new(5, -1)).within(Decimal::new(1, -1), Decimal::new(100, 0)));
    assert!(!JsonNumber::Integer(101).within(Decimal::new(1, -1), Decimal::new(100, 0)));
}
