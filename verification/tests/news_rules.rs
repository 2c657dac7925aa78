use brickellstatus_runtime::catalog::FeedCatalog;
use brickellstatus_runtime::dto::AppPreferences;
use brickellstatus_runtime::item::{CollectorItem, ItemKind, SourceLink};
use brickellstatus_runtime::json::{JsonObject, JsonValue};
use brickellstatus_runtime::news::{
    names_transaction_word, news_item_matches_scope, publication_age, sports_item_is_transaction,
};

fn shipped() -> AppPreferences {
    AppPreferences::defaults(&FeedCatalog {
        schema_version: 1,
        verified_on: "2025-01-01".into(),
        sections: Vec::new(),
    })
}

fn news_item(id: &str, title: &str, now_ms: i64) -> CollectorItem {
    CollectorItem {
        id: id.into(),
        kind: ItemKind::News,
        title: title.into(),
        summary: None,
        observed_at_ms: Some(now_ms),
        starts_at_ms: None,
        ends_at_ms: None,
        location: None,
        source: SourceLink {
            name: "Fixture feed".into(),
            url: Some("https://example.com/feed.xml".into()),
        },
        attributes: JsonObject::new(),
    }
}

fn texts(values: &[&str]) -> JsonValue {
    JsonValue::Array(values.iter().map(|value| JsonValue::String((*value).into())).collect())
}

#[test]
fn news_item_age_uses_the_entry_timestamp_and_fails_closed() {
    let now_ms = 1_786_741_200_000;
    let preferences = shipped();
    let channel = &preferences.profile.channels[4];
    let at_limit = news_item(
        "news:at-limit",
        "Miami transportation update",
        now_ms - i64::from(channel.max_age_minutes) * 60_000,
    );
    let too_old = news_item(
        "news:too-old",
        "Miami transportation update",
        now_ms - i64::from(channel.max_age_minutes) * 60_000 - 1,
    );
    let near_future = news_item("news:clock-skew", "Miami transportation update", now_ms + 5 * 60_000);
    let far_future = news_item("news:future", "Miami transportation update", now_ms + 5 * 60_000 + 1);
    let mut missing_time = news_item("news:no-time", "Miami transportation update", now_ms);
    missing_time.observed_at_ms = None;

    assert!(news_item_matches_scope(&at_limit, channel, now_ms));
    assert!(news_item_matches_scope(&near_future, channel, now_ms));
    assert!(!news_item_matches_scope(&too_old, channel, now_ms));
    assert!(!news_item_matches_scope(&far_future, channel, now_ms));
    assert!(!news_item_matches_scope(&missing_time, channel, now_ms));
}

#[test]
fn topics_exclusions_and_breaking_filter_headlines() {
    let now_ms = 1_786_741_200_000;
    let mut preferences = shipped();
    let channel = &mut preferences.profile.channels[4];
    let mut item = news_item("news:1", "Council approves Brickell TRANSIT plan", now_ms);
    item.summary = Some("Vote was unanimous".into());
    item.attributes.insert("categories".into(), texts(&["Local Politics"]));

    channel.scope.insert("topics".into(), texts(&["transit"]));
    assert!(news_item_matches_scope(&item, channel, now_ms));
    channel.scope.insert("topics".into(), texts(&["weather", "POLITICS"]));
    assert!(news_item_matches_scope(&item, channel, now_ms));
    channel.scope.insert("topics".into(), texts(&["weather"]));
    assert!(!news_item_matches_scope(&item, channel, now_ms));
    channel.scope.insert("topics".into(), texts(&[]));
    channel.scope.insert("excludeTopics".into(), texts(&["unanimous"]));
    assert!(!news_item_matches_scope(&item, channel, now_ms));
    channel.scope.insert("excludeTopics".into(), texts(&[]));
    channel.scope.insert("breakingOnly".into(), JsonValue::Bool(true));
    assert!(!news_item_matches_scope(&item, channel, now_ms));
    item.title = "Breaking: council approves plan".into();
    assert!(news_item_matches_scope(&item, channel, now_ms));
    item.kind = ItemKind::Earthquake;
    assert!(!news_item_matches_scope(&item, channel, now_ms));
}

#[test]
fn roster_moves_are_whole_words() {
    assert!(names_transaction_word("Dolphins SIGN a new kicker; Heat trades pick"));
    assert!(names_transaction_word("waivers"));
    assert!(!names_transaction_word("A new design for the assignment"));
    assert!(!names_transaction_word("transitional"));
    assert!(names_transaction_word("re-signing: extension done"));
    let mut item = news_item("rss:1", "Preview column", 0);
    assert!(!sports_item_is_transaction(&item));
    item.attributes.insert("categories".into(), texts(&["Opinion", "Trade rumors"]));
    assert!(sports_item_is_transaction(&item));
    item.attributes = JsonObject::new();
    item.summary = Some("Team acquired a guard".into());
    assert!(sports_item_is_transaction(&item));
}

#[test]
fn publication_age_reads_in_the_largest_whole_unit() {
    let now_ms = 1_786_741_200_000;
    let item = |age_ms: i64| news_item("rss:1", "Story", now_ms - age_ms);
    assert_eq!(publication_age(&item(59_999), now_ms), "just now");
    assert_eq!(publication_age(&item(-5_000), now_ms), "just now");
    assert_eq!(publication_age(&item(60_000), now_ms), "1 min ago");
    assert_eq!(publication_age(&item(3_600_000), now_ms), "1 hr ago");
    assert_eq!(publication_age(&item(3 * 86_400_000), now_ms), "3 days ago");
    let mut undated = item(0);
    undated.observed_at_ms = None;
    assert_eq!(publication_age(&undated, now_ms), "just now");
}
