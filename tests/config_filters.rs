use rss_qb::config::{
    default_interval, default_timeout, Config, ContentLayout, Email, Feed, FeedBase, GptConfig,
    QbConfig, RssFeed, RssSite,
};
use rss_qb::pipeline::select_items;
use rss_qb::store::Item;

fn empty_base() -> FeedBase {
    FeedBase {
        interval_s: None,
        savepath: None,
        content_layout: None,
        category: None,
        tags: None,
        auto_torrent_management: None,
        ratio_limit: None,
        filters: None,
        not_filters: None,
    }
}

fn item(guid: &str, title: &str) -> Item {
    Item {
        guid: guid.to_string(),
        title: title.to_string(),
        link: "l".to_string(),
        enclosure: format!("magnet:{}", guid),
    }
}

fn gpt() -> GptConfig {
    GptConfig {
        url: "u".to_string(),
        model: "small".to_string(),
        token: "t".to_string(),
        retry: 3,
        better_model: "big".to_string(),
        better_since: 2,
    }
}

#[test]
fn defaults_are_fifteen_minutes_and_ten_seconds() {
    assert_eq!(default_interval(), 900);
    assert_eq!(default_timeout(), 10);
    assert_eq!(empty_base().interval_s(), 900);
    let mut b = empty_base();
    b.interval_s = Some(60);
    assert_eq!(b.interval_s(), 60);
}

#[test]
fn model_escalates_from_better_since() {
    let g = gpt();
    assert_eq!(g.model(0), "small");
    assert_eq!(g.model(1), "small");
    assert_eq!(g.model(2), "big");
    assert_eq!(g.model(3), "big");
}

#[test]
fn content_layout_names() {
    assert_eq!(ContentLayout::Original.as_str(), "Original");
    assert_eq!(ContentLayout::Subfolder.as_str(), "Subfolder");
    assert_eq!(ContentLayout::NoSubfolder.as_str(), "NoSubfolder");
}

#[test]
fn update_default_fills_unset_fields_only() {
    let mut d = empty_base();
    d.interval_s = Some(120);
    d.savepath = Some("/d".to_string());
    d.category = Some("anime".to_string());
    d.tags = Some(vec!["a".to_string()]);
    d.content_layout = Some(ContentLayout::Subfolder);
    d.filters = Some(vec!["1080p".to_string()]);
    let mut own = empty_base();
    own.savepath = Some("/own".to_string());
    let mut config = Config {
        db_uri: "db.sqlite".to_string(),
        https_proxy: None,
        tmdb_secret: "s".to_string(),
        link_to: "/lib".to_string(),
        timeout_s: 10,
        email: None::<Email>,
        gpt: gpt(),
        qb: QbConfig { base_url: "b".to_string(), username: "u".to_string(), password: "p".to_string() },
        default: d,
        feed: vec![
            Feed::Rss(RssFeed { name: "one".to_string(), site: RssSite::Dmhy, search: "x".to_string(), base: own }),
            Feed::Rss(RssFeed { name: "two".to_string(), site: RssSite::Comicat, search: "y".to_string(), base: empty_base() }),
        ],
    };
    config.update_default();
    let b0 = config.feed[0].base();
    assert_eq!(config.feed[0].name(), "one");
    assert_eq!(b0.interval_s, Some(120));
    assert_eq!(b0.savepath.as_deref(), Some("/own"));
    assert_eq!(b0.category.as_deref(), Some("anime"));
    assert_eq!(b0.tags, Some(vec!["a".to_string()]));
    assert_eq!(b0.content_layout, Some(ContentLayout::Subfolder));
    assert_eq!(b0.filters, Some(vec!["1080p".to_string()]));
    let b1 = config.feed[1].base();
    assert_eq!(b1.savepath.as_deref(), Some("/d"));
}

#[test]
fn update_default_interval_falls_back_to_fifteen_minutes() {
    let mut config = Config {
        db_uri: "db".to_string(),
        https_proxy: None,
        tmdb_secret: "s".to_string(),
        link_to: "/lib".to_string(),
        timeout_s: 10,
        email: None,
        gpt: gpt(),
        qb: QbConfig { base_url: "b".to_string(), username: "u".to_string(), password: "p".to_string() },
        default: empty_base(),
        feed: vec![Feed::Rss(RssFeed { name: "f".to_string(), site: RssSite::Dmhy, search: "x".to_string(), base: empty_base() })],
    };
    config.update_default();
    assert_eq!(config.feed[0].base().interval_s, Some(900));
}

#[test]
fn include_pattern_must_match() {
    let mut b = empty_base();
    b.filters = Some(vec!["1080p".to_string()]);
    assert!(b.filter(&item("A", "[LoliHouse] Show - 09 [1080p]")));
    assert!(!b.filter(&item("B", "[LoliHouse] Show - 09 [720p]")));
}

#[test]
fn every_include_pattern_must_match() {
    let mut b = empty_base();
    b.filters = Some(vec!["1080p".to_string(), "^\\[ANi\\]".to_string()]);
    assert!(b.filter(&item("A", "[ANi] Show - 10 [1080p]")));
    assert!(!b.filter(&item("B", "[LoliHouse] Show - 10 [1080p]")));
}

#[test]
fn exclude_regex_wins() {
    let mut b = empty_base();
    b.filters = Some(vec!["1080p|720p".to_string()]);
    b.not_filters = Some(vec!["LoliHouse".to_string()]);
    let items = vec![item("A", "[LoliHouse] Show - 09 [720p]")];
    let kept = select_items(&b, items).unwrap();
    assert!(kept.is_empty());
}

#[test]
fn no_patterns_keep_everything_in_order() {
    let b = empty_base();
    let items = vec![item("A", "x"), item("B", "y"), item("C", "z")];
    let kept = select_items(&b, items).unwrap();
    let guids: Vec<&str> = kept.iter().map(|i| i.guid.as_str()).collect();
    assert_eq!(guids, vec!["A", "B", "C"]);
}

#[test]
fn filter_keeps_order_of_survivors() {
    let mut b = empty_base();
    b.filters = Some(vec!["1080p".to_string()]);
    let items = vec![item("A", "a 1080p"), item("B", "b 720p"), item("C", "c 1080p")];
    let kept = select_items(&b, items).unwrap();
    let guids: Vec<&str> = kept.iter().map(|i| i.guid.as_str()).collect();
    assert_eq!(guids, vec!["A", "C"]);
}

#[test]
fn invalid_pattern_is_reported() {
    let mut b = empty_base();
    b.not_filters = Some(vec!["ok".to_string(), "(unclosed".to_string()]);
    assert_eq!(b.invalid_pattern(), Some("(unclosed".to_string()));
    let r = select_items(&b, vec![item("A", "t")]);
    assert_eq!(r.err(), Some("(unclosed".to_string()));
}

