use brickellstatus_runtime::item::{CollectorItem, ItemKind, SourceLink};
use brickellstatus_runtime::json::{JsonMember, JsonObject, JsonValue};
use brickellstatus_runtime::syndication::syndicated_item_detail;

const NOW_MS: i64 = 1_786_741_200_000;

fn news_item(id: &str, title: &str, observed_ms: i64) -> CollectorItem {
    CollectorItem {
        id: id.into(),
        kind: ItemKind::News,
        title: title.into(),
        summary: None,
        observed_at_ms: Some(observed_ms),
        starts_at_ms: None,
        ends_at_ms: None,
        location: None,
        source: SourceLink {
            name: "Fixture feed".into(),
            url: Some("https://example.com/feed.xml".into()),
        },
        attributes: JsonObject { members: Vec::new() },
    }
}

const TITLE: &str = "The Data Center Backlash Bursts Into the Midterms";

#[test]
fn a_google_cluster_summary_is_not_a_synopsis() {
    let mut clustered = news_item("news:cluster", TITLE, NOW_MS - 18 * 60_000);
    clustered.source.name = "The New York Times".into();
    clustered.source.url = Some("https://news.google.com/rss/articles/cluster-id".into());
    clustered.summary = Some(format!(
        "{TITLE} The New York Times See the moment politicians turned against data centers"
    ));
    assert_eq!(syndicated_item_detail(&clustered, NOW_MS), "Published 18 min ago");
}

#[test]
fn a_summary_that_only_repeats_the_headline_gives_way_to_the_byline() {
    let mut no_synopsis = news_item("news:no-summary", TITLE, NOW_MS - 18 * 60_000);
    no_synopsis.summary = Some(TITLE.into());
    no_synopsis.attributes = JsonObject {
        members: vec![JsonMember {
            key: "authors".into(),
            value: JsonValue::Array(vec![JsonValue::String("Signals Desk".into())]),
        }],
    };
    assert_eq!(syndicated_item_detail(&no_synopsis, NOW_MS), "By Signals Desk · 18 min ago");

    no_synopsis.attributes = JsonObject {
        members: vec![JsonMember {
            key: "authors".into(),
            value: JsonValue::Array(vec![
                JsonValue::String("  ".into()),
                JsonValue::String(" Ana ".into()),
                JsonValue::Number(brickellstatus_runtime::json::JsonNumber::Integer(7)),
                JsonValue::String("Ben".into()),
                JsonValue::String("Cy".into()),
            ]),
        }],
    };
    assert_eq!(syndicated_item_detail(&no_synopsis, NOW_MS), "By Ana, Ben · 18 min ago");
}

#[test]
fn the_new_part_of_a_summary_is_kept_without_the_repeated_headline() {
    let mut item = news_item("news:lead", TITLE, NOW_MS);
    item.summary = Some(format!("{} — Voters in three states pushed back.", TITLE.to_uppercase()));
    assert_eq!(syndicated_item_detail(&item, NOW_MS), "Voters in three states pushed back.");

    let mut other = news_item("news:other", TITLE, NOW_MS);
    other.summary = Some("The downtown ramp closes at 6 PM for emergency repairs.".into());
    assert_eq!(
        syndicated_item_detail(&other, NOW_MS),
        "The downtown ramp closes at 6 PM for emergency repairs."
    );

    let mut punctuated = news_item("news:same", "Heat, again!", NOW_MS);
    punctuated.summary = Some("heat again".into());
    assert_eq!(syndicated_item_detail(&punctuated, NOW_MS), "Published just now");
}
