use ventoy_toybox::feeds::{feed_filter_groups, filter_feeds, use_cached_feeds, Feeds, FeedsItem};

fn item(group: &str, name: &str) -> FeedsItem {
    FeedsItem {
        group: group.to_string(),
        name: name.to_string(),
        torrent_url: format!("https://t/{name}"),
        magnet: format!("magnet:?{name}"),
        date: "2023-01-01".to_string(),
    }
}

const FEED_BODY: &str = "[{\"group\":\"a\",\"name\":\"alpha\",\"torrent_url\":\"t1\",\"magnet\":\"m1\",\"date\":\"d1\"},{\"group\":\"b\",\"name\":\"beta\",\"torrent_url\":\"t2\",\"magnet\":\"m2\",\"date\":\"d2\"},{\"group\":\"a\",\"name\":\"gamma\",\"torrent_url\":\"t3\",\"magnet\":\"m3\",\"date\":\"d3\"}]";

#[test]
fn parse_feed_list() {
    let feeds = Feeds::new(FEED_BODY).expect("feed should parse");
    assert_eq!(feeds.items.len(), 3);
    assert_eq!(feeds.items[0].group, "a");
    assert_eq!(feeds.items[0].name, "alpha");
    assert_eq!(feeds.items[1].torrent_url, "t2");
    assert_eq!(feeds.items[2].magnet, "m3");
    assert_eq!(feeds.items[2].date, "d3");
}

#[test]
fn empty_feed_list_is_a_failure() {
    let err = Feeds::new("[]").unwrap_err();
    assert_eq!(err, "feed list is empty");
}

#[test]
fn empty_body_is_a_failure() {
    let err = Feeds::new("").unwrap_err();
    assert_eq!(err, "failed to parse feeds json");
}

#[test]
fn missing_field_is_a_failure() {
    let body = "[{\"group\":\"a\",\"name\":\"x\",\"torrent_url\":\"t\",\"magnet\":\"m\"}]";
    assert!(Feeds::new(body).is_err());
}

#[test]
fn groups_scenario_three_entries() {
    let feeds = vec![item("a", "one"), item("b", "two"), item("a", "three")];
    let groups = feed_filter_groups(&feeds);
    assert_eq!(groups, vec!["all".to_string(), "a".to_string(), "b".to_string()]);
}

#[test]
fn groups_step_is_idempotent_on_its_output() {
    let feeds = vec![item("a", "one"), item("b", "two"), item("a", "three")];
    let first = feed_filter_groups(&feeds);
    // feed the produced list back in as group labels
    let relabelled: Vec<FeedsItem> = first.iter().map(|g| item(g, "x")).collect();
    let second = feed_filter_groups(&relabelled);
    assert_eq!(second, first);
    assert_eq!(second.iter().filter(|g| g.as_str() == "all").count(), 1);
}

#[test]
fn groups_of_empty_feed_is_just_the_sentinel() {
    let feeds: Vec<FeedsItem> = Vec::new();
    assert_eq!(feed_filter_groups(&feeds), vec!["all".to_string()]);
}

#[test]
fn cached_feeds_used_only_when_nonempty() {
    assert!(!use_cached_feeds(&Vec::new()));
    assert!(use_cached_feeds(&vec![item("a", "one")]));
}

#[test]
fn filter_by_group_and_name() {
    let feeds = vec![item("a", "arch-2023"), item("b", "debian-12"), item("a", "fedora-38")];
    let by_group = filter_feeds(&feeds, "a", "");
    assert_eq!(by_group.len(), 2);
    assert_eq!(by_group[0].name, "arch-2023");
    assert_eq!(by_group[1].name, "fedora-38");

    let all = filter_feeds(&feeds, "all", "");
    assert_eq!(all.len(), 3);

    let by_name = filter_feeds(&feeds, "all", "deb");
    assert_eq!(by_name.len(), 1);
    assert_eq!(by_name[0].name, "debian-12");

    let none = filter_feeds(&feeds, "b", "arch");
    assert_eq!(none.len(), 0);
}
