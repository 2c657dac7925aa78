use brickellstatus_runtime::catalog::{CatalogEntry, CatalogGroup, CatalogSection, FeedCatalog};
use brickellstatus_runtime::dto::ChannelKindDto;
use brickellstatus_runtime::bounded_signal_text;
use brickellstatus_runtime::preferences::{
    default_channel_preferences, validate_earthquake_scope, validate_markets_scope, validate_weather_scope,
};

fn entry(id: &str, label: &str, url: &str) -> CatalogEntry {
    CatalogEntry { id: id.into(), label: label.into(), url: url.into(), note: None }
}

#[test]
fn catalog_lookups_round_trip_for_every_entry() {
    let catalog = FeedCatalog {
        schema_version: 1,
        verified_on: "2025-01-01".into(),
        sections: vec![CatalogSection {
            id: "news".into(),
            kind: ChannelKindDto::News,
            label: "News".into(),
            note: None,
            groups: vec![CatalogGroup {
                id: "news.local".into(),
                label: "Local".into(),
                note: None,
                entries: vec![
                    entry("wsvn.all", "WSVN 7News", "https://wsvn.com/feed/"),
                    entry("local10.all", "Local 10", "https://www.local10.com/arc/outboundfeeds/rss/"),
                ],
            }],
        }],
    };
    for (id, label) in [("wsvn.all", "WSVN 7News"), ("local10.all", "Local 10")] {
        let url = catalog.entry_url(id).unwrap().to_string();
        assert_eq!(catalog.label_for_url(&url), Some(label));
    }
    assert_eq!(catalog.entry_url("missing"), None);
}

#[test]
fn bounding_bounded_text_changes_nothing() {
    for (text, max) in [
        ("  Storm\u{7}  surge \u{202e}warning   for Miami-Dade  ", 12usize),
        ("short", 40),
        ("a b c d e f g h", 4),
        ("word another", 6),
        ("anything", 0),
        ("", 3),
    ] {
        let once = bounded_signal_text(text, max);
        assert_eq!(bounded_signal_text(&once, max), once, "{text:?} {max}");
    }
    assert_eq!(bounded_signal_text("word another", 6), "word …");
}

#[test]
fn shipped_weather_earthquake_and_markets_scopes_meet_their_rules() {
    let empty = FeedCatalog { schema_version: 1, verified_on: "2025-01-01".into(), sections: vec![] };
    let mut channels = default_channel_preferences(&empty);
    assert!(validate_weather_scope(&channels[1]).is_ok());
    assert!(validate_earthquake_scope(&channels[5]).is_ok());
    assert!(validate_markets_scope(&channels[6]).is_ok());
    channels[6].enabled = true;
    assert!(validate_markets_scope(&channels[6]).is_ok());
}
