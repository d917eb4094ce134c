use rss_qb::classify::{
    accept_batch, chunk_titles, clean_response, join_batches, model_for, next_attempt, pair_shows,
    ClassifierError, Recognized, ShowInfo, PER_REQ_SIZE,
};
use rss_qb::config::{FeedBase, GptConfig, RssFeed, RssSite};
use rss_qb::source::{check_status, parse_feed, recognize_piratebay_url, RawItem, SourceError, UrlError};
use rss_qb::store::Item;

fn base() -> FeedBase {
    FeedBase {
        interval_s: None,
        savepath: None,
        content_layout: None,
        category: None,
        tags: None,
        auto_torrent_management: None,
        ratio_limit: None,
        filters: None,
        not_filters: None,
    }
}

fn show(fansub: &str, episode: i64) -> ShowInfo {
    ShowInfo {
        fansub: fansub.to_string(),
        show: "Show".to_string(),
        season: 1,
        episode,
        resolution: "1080p".to_string(),
        language: "zh".to_string(),
        year: 0,
        tmdb_id: 0,
    }
}

fn item(guid: &str, title: &str) -> Item {
    Item { guid: guid.to_string(), title: title.to_string(), link: "l".to_string(), enclosure: "e".to_string() }
}

#[test]
fn comicat_url_puts_search_in_path() {
    let f = RssFeed { name: "n".to_string(), site: RssSite::Comicat, search: "Show".to_string(), base: base() };
    assert_eq!(f.url().unwrap(), "https://comicat.org/rss-Show.xml");
    let f = RssFeed { name: "n".to_string(), site: RssSite::Comicat, search: "a b".to_string(), base: base() };
    assert_eq!(f.url().unwrap(), "https://comicat.org/rss-a%20b.xml");
}

#[test]
fn dmhy_url_puts_search_in_query() {
    let f = RssFeed { name: "n".to_string(), site: RssSite::Dmhy, search: "Show".to_string(), base: base() };
    assert_eq!(f.url().unwrap(), "https://www.dmhy.org/topics/rss/rss.xml?keyword=Show");
    let f = RssFeed { name: "n".to_string(), site: RssSite::Dmhy, search: "a b".to_string(), base: base() };
    assert_eq!(f.url().unwrap(), "https://www.dmhy.org/topics/rss/rss.xml?keyword=a+b");
}

#[test]
fn status_outside_2xx_is_a_source_error() {
    assert_eq!(check_status(200), Ok(()));
    assert_eq!(check_status(299), Ok(()));
    assert_eq!(check_status(404), Err(SourceError::HttpStatus(404)));
    assert_eq!(check_status(503), Err(SourceError::HttpStatus(503)));
}

const FEED: &str = r#"<?xml version="1.0" encoding="UTF-8"?>
<rss version="2.0"><channel><title>c</title><link>http://x</link><description>d</description>
<item><title>[LoliHouse] Show - 09 [1080p]</title><link>http://x/a</link><guid>A</guid>
<enclosure url="magnet:?xt=a" length="1" type="application/x-bittorrent"/></item>
<item><guid>B</guid><enclosure url="magnet:?xt=b" length="1" type="application/x-bittorrent"/></item>
</channel></rss>"#;

#[test]
fn rss_items_are_read_in_order() {
    let items = parse_feed(FEED.as_bytes()).unwrap();
    assert_eq!(items.len(), 2);
    assert_eq!(items[0].guid, "A");
    assert_eq!(items[0].title, "[LoliHouse] Show - 09 [1080p]");
    assert_eq!(items[0].link, "http://x/a");
    assert_eq!(items[0].enclosure, "magnet:?xt=a");
    assert_eq!(items[1].guid, "B");
    assert_eq!(items[1].title, "unknown");
    assert_eq!(items[1].link, "unknown");
}

#[test]
fn rss_item_without_enclosure_fails() {
    let doc = r#"<rss version="2.0"><channel><title>c</title><link>l</link><description>d</description>
<item><title>t</title><guid>A</guid></item></channel></rss>"#;
    assert_eq!(parse_feed(doc.as_bytes()).err(), Some(SourceError::MissingEnclosure));
}

#[test]
fn rss_item_without_guid_fails() {
    let raw = RawItem { guid: None, title: None, link: None, enclosure: Some("e".to_string()) };
    assert_eq!(Item::try_from(raw).err(), Some(SourceError::MissingGuid));
}

#[test]
fn body_that_is_not_rss_fails() {
    assert_eq!(parse_feed(b"not xml at all").err(), Some(SourceError::NotRss));
}

#[test]
fn titles_go_out_in_batches_of_six() {
    assert_eq!(PER_REQ_SIZE, 6);
    let titles: Vec<String> = (0..13).map(|i| format!("t{}", i)).collect();
    let chunks = chunk_titles(&titles);
    assert_eq!(chunks.len(), 3);
    assert_eq!(chunks[0].len(), 6);
    assert_eq!(chunks[1].len(), 6);
    assert_eq!(chunks[2], vec!["t12".to_string()]);
    assert_eq!(chunks[1][0], "t6");
    assert!(chunk_titles(&vec![]).is_empty());
    assert_eq!(chunk_titles(&titles[..6].to_vec()).len(), 1);
}

#[test]
fn response_fences_and_tags_are_stripped() {
    assert_eq!(clean_response("  ```json\n[1, 2]\n```  "), "[1, 2]");
    assert_eq!(clean_response("[]"), "[]");
    assert_eq!(clean_response("`json []`"), "[]");
    assert_eq!(clean_response("\u{3000}\t[1]\u{a0}\r\n"), "[1]");
}

#[test]
fn retries_stop_after_the_configured_count() {
    assert_eq!(next_attempt(0, 2), Some(1));
    assert_eq!(next_attempt(1, 2), Some(2));
    assert_eq!(next_attempt(2, 2), None);
    assert_eq!(next_attempt(0, 0), None);
    let g = GptConfig {
        url: "u".to_string(),
        model: "m".to_string(),
        token: "t".to_string(),
        retry: 2,
        better_model: "b".to_string(),
        better_since: 1,
    };
    assert_eq!(model_for(&g, 0), "m");
    assert_eq!(model_for(&g, 1), "b");
}

#[test]
fn classifier_length_mismatch_is_rejected() {
    let got = vec![Recognized::Other];
    assert_eq!(
        accept_batch(2, got).err(),
        Some(ClassifierError::LengthMismatch { expected: 2, got: 1 })
    );
    assert_eq!(accept_batch(1, vec![Recognized::Other]).unwrap().len(), 1);
}

#[test]
fn batches_are_joined_and_checked_against_the_titles() {
    let batches = vec![vec![Recognized::Other, Recognized::Show(show("A", 1))], vec![Recognized::Other]];
    let all = join_batches(3, batches).unwrap();
    assert_eq!(all.len(), 3);
    assert!(matches!(all[1], Recognized::Show(_)));
    let batches = vec![vec![Recognized::Other]];
    assert_eq!(
        join_batches(2, batches).err(),
        Some(ClassifierError::LengthMismatch { expected: 2, got: 1 })
    );
}

#[test]
fn other_results_are_dropped() {
    let items = vec![item("A", "a"), item("B", "b"), item("C", "c")];
    let recs = vec![Recognized::Show(show("X", 9)), Recognized::Other, Recognized::Show(show("Y", 10))];
    let cands = pair_shows(items, recs);
    assert_eq!(cands.len(), 2);
    assert_eq!(cands[0].item.guid, "A");
    assert_eq!(cands[0].info.fansub, "X");
    assert_eq!(cands[1].item.guid, "C");
    assert_eq!(cands[1].info.episode, 10);
}

#[test]
fn mixed_classification_single_other_leaves_nothing() {
    let cands = pair_shows(vec![item("A", "a")], vec![Recognized::Other]);
    assert!(cands.is_empty());
}

#[test]
fn parse_piratebay_url() {
    assert_eq!(
        recognize_piratebay_url("https://thepiratebay/a b c")
            .unwrap()
            .unwrap(),
        "a%20b%20c"
    );
}

#[test]
fn other_domains_and_bad_urls() {
    assert_eq!(recognize_piratebay_url("https://comicat.org/x").unwrap(), None);
    assert_eq!(recognize_piratebay_url("not a url"), Err(UrlError::Parse));
    assert_eq!(recognize_piratebay_url("https://127.0.0.1/x"), Err(UrlError::NoDomain));
    assert_eq!(recognize_piratebay_url("https://piratebay/q/").unwrap().as_deref(), Some("q"));
}
