use brickellstatus_runtime::dto::{
    ChannelNoticeDto, ChannelPriorityDto, ChannelSignalDto, UrgencyDto,
};
use brickellstatus_runtime::ranking::{
    matching_item_order, sort_notices_by_score, text_before_exec, ItemRank,
};

fn rank(matched: bool, priority: i64, time_ms: i64, id: &str) -> ItemRank {
    ItemRank { matched, priority, time_ms, id: id.into() }
}

#[test]
fn text_order_is_character_by_character_with_a_prefix_first() {
    assert!(text_before_exec("a", "b"));
    assert!(!text_before_exec("b", "a"));
    assert!(text_before_exec("ab", "b"));
    assert!(text_before_exec("a", "ab"));
    assert!(!text_before_exec("ab", "a"));
    assert!(text_before_exec("", "a"));
    assert!(!text_before_exec("", ""));
    assert!(!text_before_exec("same", "same"));
    assert!(text_before_exec("z", "é"));
    assert!(text_before_exec("Z", "a"));
}

#[test]
fn matching_items_come_strongest_then_newest_then_by_identifier() {
    let ranks = vec![
        rank(true, 1, 100, "c"),
        rank(false, 9, 900, "skip"),
        rank(true, 3, 100, "b"),
        rank(true, 1, 200, "d"),
        rank(true, 1, 100, "a"),
        rank(true, 3, 100, "b"),
    ];
    assert_eq!(matching_item_order(&ranks), vec![2, 5, 3, 4, 0]);
}

#[test]
fn no_matching_item_gives_an_empty_order() {
    let ranks = vec![rank(false, 1, 1, "x"), rank(false, 2, 2, "y")];
    assert!(matching_item_order(&ranks).is_empty());
    assert!(matching_item_order(&Vec::new()).is_empty());
}

#[test]
fn at_most_the_automatic_item_limit_is_kept_and_the_weakest_is_dropped() {
    let ranks = (0..101)
        .map(|i| rank(true, i, 0, &format!("item{i:03}")))
        .collect::<Vec<_>>();
    let order = matching_item_order(&ranks);
    assert_eq!(order.len(), 100);
    assert_eq!(order[0], 100);
    assert_eq!(order[99], 1);
    assert!(!order.contains(&0));
}

fn notice(key: &str, score: u16) -> ChannelNoticeDto {
    ChannelNoticeDto {
        key: key.into(),
        source_url: None,
        signal: ChannelSignalDto {
            headline: key.into(),
            detail: String::new(),
            action: String::new(),
            severity: None,
            expires_at: None,
            band: None,
            imminence_minutes: None,
            series: Vec::new(),
            previous_close: None,
        },
        priority: ChannelPriorityDto {
            score,
            urgency: UrgencyDto::Routine,
            imminence_minutes: None,
            confirmed: false,
        },
    }
}

#[test]
fn notices_sort_by_score_and_keep_the_order_of_equal_scores() {
    let sorted = sort_notices_by_score(vec![
        notice("a", 10),
        notice("b", 30),
        notice("c", 10),
        notice("d", 30),
        notice("e", 20),
    ]);
    let keys = sorted.iter().map(|n| n.key.as_str()).collect::<Vec<_>>();
    assert_eq!(keys, vec!["b", "d", "e", "a", "c"]);
    assert!(sort_notices_by_score(Vec::new()).is_empty());
}
