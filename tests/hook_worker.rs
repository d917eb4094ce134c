use rss_qb::hook::{file_extension, find_torrent, library_path, parse_tid, Torrent};
use rss_qb::store::TorrentInfo;
use rss_qb::text::{chars_of, parse_i64};
use rss_qb::worker::{
    failure_notice, on_event, Debouncer, FeedWorker, SupervisorAction, SupervisorEvent, WorkerStep,
};

fn record(tmdb_id: i64) -> TorrentInfo {
    TorrentInfo {
        id: 12345,
        name: "Show".to_string(),
        year: 2024,
        season: 1,
        episode: 9,
        fansub: "LoliHouse".to_string(),
        resolution: "1080p".to_string(),
        language: "zh".to_string(),
        tmdb_id,
    }
}

#[test]
fn completion_hook() {
    let title = "Show - S01E09 - 1080p - zh - LoliHouse - tid12345";
    assert_eq!(parse_tid(title), Some(12345));
    let listed = vec![
        Torrent { content_path: "/downloads/y.mkv".to_string(), name: "other".to_string() },
        Torrent { content_path: "/downloads/x.mkv".to_string(), name: title.to_string() },
    ];
    let i = find_torrent(&listed, title).unwrap();
    assert_eq!(i, 1);
    let ext = file_extension(&listed[i].content_path).unwrap();
    assert_eq!(ext, "mkv");
    let p = library_path(&record(42), &ext);
    assert_eq!(p.show_dir, "Show (2024) [tmdbid=42]");
    assert_eq!(p.season_dir, "Season 1");
    assert_eq!(p.file_name, "Show - S01E09 - LoliHouse-zh.mkv");
}

#[test]
fn show_folder_without_tmdb_id() {
    let p = library_path(&record(0), "mp4");
    assert_eq!(p.show_dir, "Show (2024)");
}

#[test]
fn tid_missing_or_not_numeric() {
    assert_eq!(parse_tid("Show - S01E09"), None);
    assert_eq!(parse_tid("Show - tidabc"), None);
    assert_eq!(parse_tid("Show - tid"), None);
    assert_eq!(parse_tid("a - tid1 - tid22"), Some(22));
    assert_eq!(parse_tid("77"), None);
    assert_eq!(parse_tid("12345"), None);
    assert_eq!(parse_tid("Show - tid-5"), None);
    assert_eq!(parse_tid("Show - tid+5"), None);
    assert_eq!(parse_tid("Show - tid5 "), None);
    assert_eq!(parse_tid("Show - tid99999999999999999999"), None);
    assert_eq!(parse_tid("Show - tid0"), Some(0));
    assert!(find_torrent(&vec![], "x").is_none());
}

#[test]
fn extensions() {
    assert_eq!(file_extension("/a/b/x.tar.gz"), Some("gz".to_string()));
    assert_eq!(file_extension("/a/.hidden"), None);
    assert_eq!(file_extension("/a/noext"), None);
    assert_eq!(file_extension("/a/.."), None);
    assert_eq!(file_extension("x."), Some("".to_string()));
    assert_eq!(file_extension("/a/b.mkv/"), Some("mkv".to_string()));
    assert_eq!(file_extension("/a/..//"), None);
    assert_eq!(file_extension("/a/b.mkv/."), Some("mkv".to_string()));
    assert_eq!(file_extension("/a/b.mkv/./"), Some("mkv".to_string()));
}

#[test]
fn integer_parsing_edges() {
    let p = |s: &str| parse_i64(&chars_of(s));
    assert_eq!(p("+12"), Some(12));
    assert_eq!(p("-12"), Some(-12));
    assert_eq!(p("-"), None);
    assert_eq!(p(""), None);
    assert_eq!(p("1 "), None);
    assert_eq!(p("9223372036854775807"), Some(i64::MAX));
    assert_eq!(p("9223372036854775808"), None);
    assert_eq!(p("-9223372036854775808"), Some(i64::MIN));
    assert_eq!(p("-9223372036854775809"), None);
}

#[test]
fn three_strikes_fatal() {
    let mut w = FeedWorker::new();
    for round in 0..3 {
        assert!(w.on_tick());
        let step = w.on_cycle_end(false);
        if round < 2 {
            assert_eq!(step, WorkerStep::Continue);
        } else {
            assert_eq!(step, WorkerStep::Fatal);
        }
    }
    assert!(!w.on_tick());
    let n = failure_notice("anime", "feed 'anime' HTTP status is '503'");
    assert!(n.subject.contains("failed"));
    assert!(n.subject.contains("anime"));
    assert_eq!(on_event(SupervisorEvent::WorkerFatal), SupervisorAction::Fail);
}

#[test]
fn success_resets_the_failure_count() {
    let mut w = FeedWorker::new();
    for _ in 0..2 {
        assert!(w.on_tick());
        assert_eq!(w.on_cycle_end(false), WorkerStep::Continue);
    }
    assert!(w.on_tick());
    assert_eq!(w.on_cycle_end(true), WorkerStep::Continue);
    for _ in 0..2 {
        assert!(w.on_tick());
        assert_eq!(w.on_cycle_end(false), WorkerStep::Continue);
    }
}

#[test]
fn no_second_cycle_while_one_runs() {
    let mut w = FeedWorker::new();
    assert!(w.on_tick());
    assert!(!w.on_tick());
    assert!(!w.on_tick());
    w.on_cycle_end(true);
    assert!(w.on_tick());
    w.on_shutdown();
    w.on_cycle_end(true);
    assert!(!w.on_tick());
}

#[test]
fn supervisor_reactions() {
    assert_eq!(on_event(SupervisorEvent::ConfigChanged), SupervisorAction::Reload);
    assert_eq!(on_event(SupervisorEvent::Signal), SupervisorAction::Exit);
}

#[test]
fn bursts_of_changes_give_one_reload() {
    let mut d = Debouncer::new(1000);
    assert!(!d.poll(0));
    d.on_change(100);
    d.on_change(600);
    assert!(!d.poll(1500));
    assert!(d.poll(1600));
    assert!(!d.poll(5000));
}

#[test]
fn series_extraction_by_named_groups() {
    let it = rss_qb::store::Item {
        guid: "g".to_string(),
        title: "Show S02E07 1080p".to_string(),
        link: "l".to_string(),
        enclosure: "e".to_string(),
    };
    let r = it.extract_series(r"S(?P<season>\d+)E(?P<ep>\d+)").unwrap();
    assert_eq!(r, Some(("02".to_string(), "07".to_string())));
    let r = it.extract_series(r"E(?P<episode>\d+)").unwrap();
    assert_eq!(r, Some(("".to_string(), "07".to_string())));
    assert_eq!(it.extract_series(r"X(?P<ep>\d+)").unwrap(), None);
    assert_eq!(it.extract_series(r"(?P<ep>").err(), Some("(?P<ep>".to_string()));
}
