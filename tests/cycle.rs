use rss_qb::classify::{Candidate, ShowInfo};
use rss_qb::config::{ContentLayout, FeedBase};
use rss_qb::enrich::{after_cache, after_search, apply_metadata, distinct_shows, Lookup, SearchHit};
use rss_qb::hook::parse_tid;
use rss_qb::pipeline::{keep_unseen, rename_for, titles_of, Action, Submission};
use rss_qb::qb::{add_form_fields, api_url, join_with};
use rss_qb::store::{Item, TmdbShow, TorrentInfo};
use rss_qb::worker::addition_notice;

fn base() -> FeedBase {
    FeedBase {
        interval_s: Some(900),
        savepath: Some("/downloads".to_string()),
        content_layout: Some(ContentLayout::Subfolder),
        category: Some("anime".to_string()),
        tags: Some(vec!["rss".to_string()]),
        auto_torrent_management: Some(false),
        ratio_limit: Some("1.5".to_string()),
        filters: Some(vec!["1080p".to_string()]),
        not_filters: None,
    }
}

fn item(guid: &str, title: &str) -> Item {
    Item {
        guid: guid.to_string(),
        title: title.to_string(),
        link: "l".to_string(),
        enclosure: format!("magnet:?xt={}", guid),
    }
}

fn info(fansub: &str, episode: i64) -> ShowInfo {
    ShowInfo {
        fansub: fansub.to_string(),
        show: "Show".to_string(),
        season: 1,
        episode,
        resolution: "1080p".to_string(),
        language: "zh".to_string(),
        year: 0,
        tmdb_id: 0,
    }
}

fn happy_candidates() -> Vec<Candidate> {
    vec![
        Candidate { item: item("A", "[LoliHouse] Show - 09 [1080p]"), info: info("LoliHouse", 9) },
        Candidate { item: item("B", "[ANi] Show - 10 [1080p]"), info: info("ANi", 10) },
    ]
}

#[test]
fn rename_follows_the_canonical_pattern() {
    let i = info("LoliHouse", 9);
    assert_eq!(rename_for(&i, 12345), "Show - S01E09 - 1080p - zh - LoliHouse - tid12345");
    let mut j = info("ANi", 110);
    j.season = 12;
    assert_eq!(rename_for(&j, 7), "Show - S12E110 - 1080p - zh - ANi - tid7");
    let mut k = info("X", -3);
    k.season = 0;
    assert_eq!(rename_for(&k, 1), "Show - S00E-3 - 1080p - zh - X - tid1");
}

#[test]
fn enrichment_resolves_distinct_shows_once() {
    let mut cands = happy_candidates();
    cands.push(Candidate {
        item: item("C", "c"),
        info: ShowInfo { show: "Other".to_string(), year: 7, tmdb_id: 9, ..info("Z", 1) },
    });
    let shows = distinct_shows(&cands);
    assert_eq!(shows, vec!["Show".to_string(), "Other".to_string()]);
    let found = vec![("Show".to_string(), TmdbShow { tmdb_id: 42, tmdb_name: "Show!".to_string(), year: 2024 })];
    let out = apply_metadata(cands, &found);
    assert_eq!(out[0].info.show, "Show!");
    assert_eq!(out[0].info.year, 2024);
    assert_eq!(out[0].info.tmdb_id, 42);
    assert_eq!(out[1].info.tmdb_id, 42);
    assert_eq!(out[2].info.show, "Other");
    assert_eq!(out[2].info.year, 0);
    assert_eq!(out[2].info.tmdb_id, 0);
}

#[test]
fn cache_hit_skips_the_search() {
    let hit = after_cache(Some(TmdbShow { tmdb_id: 42, tmdb_name: "Show".to_string(), year: 2024 }));
    assert!(matches!(hit, Lookup::Cached(ref t) if t.tmdb_id == 42));
    assert!(matches!(after_cache(None), Lookup::Search));
}

#[test]
fn first_search_result_becomes_the_record() {
    let r = after_search(Some(SearchHit { id: 42, name: "Show".to_string(), first_air_year: Some(2024) })).unwrap();
    assert_eq!((r.tmdb_id, r.tmdb_name.as_str(), r.year), (42, "Show", 2024));
    let r = after_search(Some(SearchHit { id: 7, name: "N".to_string(), first_air_year: None })).unwrap();
    assert_eq!(r.year, 1970);
    assert!(after_search(None).is_none());
}

#[test]
fn happy_path() {
    let b = base();
    let mut s = Submission::new(happy_candidates());
    assert!(matches!(s.action(&b), Action::Login));
    s.report(true);
    let mut renames = vec![];
    let mut seen = vec![];
    for _ in 0..2 {
        let id = match s.action(&b) {
            Action::InsertRecord(rec) => {
                assert!(rec.id >= 1);
                assert_eq!(rec.name, "Show");
                rec.id
            }
            _ => panic!("expected a record insert"),
        };
        s.report(true);
        match s.action(&b) {
            Action::AddTorrent(req) => {
                assert_eq!(req.urls.len(), 1);
                assert_eq!(req.tags, vec!["rss".to_string(), "Show".to_string()]);
                assert_eq!(req.savepath.as_deref(), Some("/downloads"));
                assert_eq!(req.content_layout.as_deref(), Some("Subfolder"));
                assert_eq!(req.ratio_limit.as_deref(), Some("1.5"));
                let rename = req.rename.unwrap();
                assert_eq!(parse_tid(&rename), Some(id));
                renames.push((rename, id));
            }
            _ => panic!("expected an add"),
        }
        s.report(true);
        match s.action(&b) {
            Action::InsertSeen(it) => seen.push(it.guid),
            _ => panic!("expected a seen mark"),
        }
        s.report(true);
    }
    assert!(matches!(s.action(&b), Action::Done));
    assert_eq!(renames[0].0, format!("Show - S01E09 - 1080p - zh - LoliHouse - tid{}", renames[0].1));
    assert_eq!(renames[1].0, format!("Show - S01E10 - 1080p - zh - ANi - tid{}", renames[1].1));
    assert_eq!(seen, vec!["A".to_string(), "B".to_string()]);
    let added = s.into_added();
    let notice = addition_notice("feed", &added).unwrap();
    assert_eq!(notice.subject, "RSS feed feed: 2 added");
    assert_eq!(notice.body, "- [LoliHouse] Show - 09 [1080p]\n- [ANi] Show - 10 [1080p]");
}

#[test]
fn failed_add_aborts_before_the_seen_mark() {
    let b = base();
    let mut s = Submission::new(happy_candidates());
    s.report(true);
    s.report(true);
    assert!(matches!(s.action(&b), Action::AddTorrent(_)));
    s.report(false);
    assert!(matches!(s.action(&b), Action::Abort));
    assert!(s.added().is_empty());
}

#[test]
fn empty_submission_finishes_after_login() {
    let b = base();
    let mut s = Submission::new(vec![]);
    s.report(true);
    assert!(matches!(s.action(&b), Action::Done));
    assert!(addition_notice("feed", s.added()).is_none());
}

#[test]
fn already_seen_short_circuit() {
    let items = vec![item("A", "[LoliHouse] Show - 09 [1080p]"), item("B", "[ANi] Show - 10 [1080p]")];
    let fresh = keep_unseen(items, &vec![true, true]);
    assert!(fresh.is_empty());
    let items = vec![item("A", "a"), item("B", "b"), item("C", "c")];
    let fresh = keep_unseen(items, &vec![true, false, false]);
    assert_eq!(titles_of(&fresh), vec!["b".to_string(), "c".to_string()]);
}

#[test]
fn record_ids_are_positive() {
    for _ in 0..100 {
        assert!(TorrentInfo::gen_id() >= 1);
    }
}

#[test]
fn add_request_form_fields() {
    let b = base();
    let mut s = Submission::new(happy_candidates());
    s.report(true);
    s.report(true);
    let req = match s.action(&b) {
        Action::AddTorrent(r) => r,
        _ => panic!("expected an add"),
    };
    let fields = add_form_fields(&req);
    let names: Vec<&str> = fields.iter().map(|f| f.name.as_str()).collect();
    assert_eq!(
        names,
        vec!["urls", "savepath", "contentLayout", "category", "tags", "rename", "autoTMM", "ratioLimit"]
    );
    assert_eq!(fields[0].text, "magnet:?xt=A");
    assert_eq!(fields[4].text, "rss,Show");
    assert_eq!(fields[6].text, "false");
}

#[test]
fn api_urls_and_joining() {
    assert_eq!(api_url("http://qb:8080", "torrents", "add"), "http://qb:8080/api/v2/torrents/add");
    let parts = vec!["a".to_string(), "b".to_string(), "c".to_string()];
    assert_eq!(join_with(&parts, "\n"), "a\nb\nc");
    assert_eq!(join_with(&vec![], ","), "");
}
