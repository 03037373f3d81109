use mediathek::config::Config;
use mediathek::decoder::Date;
use mediathek::download::{
    extension_of, file_name, file_name_from_parts, iso_date, normalize_title, summarize,
    underscore_spaces, DownloadError,
};
use mediathek::paths::{config_file_path, database_path, join_path, subscriptions_path};
use mediathek::subscriptions::{default_quality, CatalogRow, Match, Quality, Subscription};

fn sub(quality: Quality) -> Subscription {
    Subscription { term: "%Tatort%".to_string(), minimum_length: 600, quality, identifier: "tatort".to_string() }
}

#[test]
fn quality_resolution_with_fallback() {
    assert_eq!(Quality::Low.resolve_url("A", "", "B"), "A");
    assert_eq!(Quality::Medium.resolve_url("A", "", "B"), "A");
    assert_eq!(Quality::High.resolve_url("A", "", "B"), "B");
    assert_eq!(Quality::Low.resolve_url("A", "S", "B"), "S");
    assert_eq!(Quality::High.resolve_url("A", "S", ""), "A");
}

#[test]
fn quality_names_and_default() {
    assert_eq!(default_quality(), Quality::Medium);
    assert_eq!(Quality::Low.name(), "low");
    assert_eq!(Quality::Medium.name(), "medium");
    assert_eq!(Quality::High.name(), "high");
}

#[test]
fn matches_keep_order_and_pick_urls() {
    let rows = vec![
        CatalogRow { title: "a".into(), date: None, url: "A".into(), url_small: "".into(), url_hd: "B".into() },
        CatalogRow { title: "b".into(), date: Some(Date { year: 2024, month: 1, day: 2 }), url: "C".into(), url_small: "D".into(), url_hd: "".into() },
    ];
    let ms = sub(Quality::High).matches_for(&rows);
    assert_eq!(ms, vec![
        Match { title: "a".into(), date: None, url: "B".into() },
        Match { title: "b".into(), date: Some(Date { year: 2024, month: 1, day: 2 }), url: "C".into() },
    ]);
    let low = sub(Quality::Low).matches_for(&rows);
    assert_eq!(low[0].url, "A");
    assert_eq!(low[1].url, "D");
}

#[test]
fn iso_dates() {
    assert_eq!(iso_date(&Date { year: 2024, month: 3, day: 7 }), "2024-03-07");
    assert_eq!(iso_date(&Date { year: 987, month: 12, day: 31 }), "0987-12-31");
    assert_eq!(iso_date(&Date { year: 12345, month: 1, day: 1 }), "+12345-01-01");
    assert_eq!(iso_date(&Date { year: -44, month: 3, day: 15 }), "-0044-03-15");
}

#[test]
fn title_normalization() {
    assert_eq!(normalize_title("  Tatort Der Fall  "), "tatort_der_fall");
    assert_eq!(underscore_spaces("a b  c"), "a_b__c");
}

#[test]
fn extensions() {
    assert_eq!(extension_of("http://x.de/a/b.mp4"), Some("mp4".to_string()));
    assert_eq!(extension_of("http://x.de/a/b."), Some("".to_string()));
    assert_eq!(extension_of("nodot"), None);
}

#[test]
fn file_names() {
    let d = Some(Date { year: 2024, month: 5, day: 1 });
    assert_eq!(file_name(" Der Film ", d, "http://x.de/f.mp4").unwrap(), "2024-05-01_der_film.mp4");
    assert_eq!(file_name("Film", None, "http://x.de/f.webm").unwrap(), "unknown_date_film.webm");
    assert_eq!(file_name("Film", None, "nodot"), Err(DownloadError::MalformedUrl("nodot".to_string())));
    assert_eq!(file_name_from_parts(d, "x_y", "u.mkv").unwrap(), "2024-05-01_x_y.mkv");
}

#[test]
fn download_tasks_per_match() {
    let s = sub(Quality::Medium);
    let ms = vec![
        Match { title: "One".into(), date: Some(Date { year: 2024, month: 5, day: 1 }), url: "http://x.de/1.mp4".into() },
        Match { title: "Two".into(), date: None, url: "http://x/none".into() },
    ];
    let tasks = s.download_tasks("/data/", &ms);
    assert_eq!(tasks.len(), 2);
    let t = tasks[0].as_ref().unwrap();
    assert_eq!(t.url, "http://x.de/1.mp4");
    assert_eq!(t.directory, "/data/tatort");
    assert_eq!(t.file_name, "2024-05-01_one.mp4");
    assert_eq!(tasks[1], Err(DownloadError::MalformedUrl("http://x/none".to_string())));
    assert_eq!(s.download_dir("/data"), "/data/tatort");
}

#[test]
fn failed_download_is_isolated() {
    let outcomes: Vec<Result<(), String>> = vec![Ok(()), Err("network error".to_string()), Ok(())];
    let report = summarize(&outcomes);
    assert_eq!(report.succeeded, vec![0, 2]);
    assert_eq!(report.failed, vec![(1, "network error".to_string())]);
    let empty = summarize(&Vec::new());
    assert!(empty.succeeded.is_empty() && empty.failed.is_empty());
}

#[test]
fn paths_below_base() {
    assert_eq!(join_path("/base", "x"), "/base/x");
    assert_eq!(join_path("/base/", "x"), "/base/x");
    assert_eq!(join_path("", "x"), "x");
    assert_eq!(join_path("/base", "/abs"), "/abs");
    assert_eq!(database_path("/base"), "/base/database.sqlite");
    assert_eq!(config_file_path("/base"), "/base/config.toml");
    assert_eq!(subscriptions_path("/base"), "/base/subscriptions");
    assert_eq!(Config::default_config("/base").base_directory, "/base/downloads");
}

#[test]
fn title_trim_covers_unicode_white_space() {
    assert_eq!(normalize_title("\u{3000}Der Film\u{a0}\t"), "der_film");
}
