use mediathek::decoder::{date_from, decode_rows, duration_from, expand_variant, time_from, Date, Decoder, TimeOfDay};
use mediathek::feed::{feed_elements, load_feed, FeedError};
use mediathek::url_util::expand_to_full_url;
use std::io::Write;

fn row(fields: [&str; 20]) -> Vec<String> {
    fields.iter().map(|s| s.to_string()).collect()
}

fn full_row(station: &str, topic: &str, title: &str) -> Vec<String> {
    row([
        station, topic, title, "24.12.2023", "20:15:00", "01:30:00", "850", "A film.",
        "http://example.com/video.mp4", "http://example.com/page", "http://example.com/sub.xml", "",
        "19|small.mp4", "", "19|hd.mp4", "", "1703445300", "", "DE", "false",
    ])
}

fn json_row(fields: &[String]) -> String {
    let quoted: Vec<String> = fields.iter().map(|f| format!("\"{}\"", f)).collect();
    format!("\"X\":[{}]", quoted.join(","))
}

fn xz(bytes: &[u8]) -> Vec<u8> {
    let mut enc = xz2::write::XzEncoder::new(Vec::new(), 6);
    enc.write_all(bytes).unwrap();
    enc.finish().unwrap()
}

#[test]
fn diff_expansion_replaces_from_position() {
    let url = "http://example.com/video.mp4";
    assert_eq!(expand_to_full_url(url, "19|small.mp4"), Some("http://example.com/small.mp4".to_string()));
    assert_eq!(expand_to_full_url(url, "22|small.mp4"), Some("http://example.com/vidsmall.mp4".to_string()));
}

#[test]
fn diff_expansion_edge_positions() {
    let url = "http://a.b/c.mp4";
    assert_eq!(expand_to_full_url(url, "0|x"), Some("x".to_string()));
    assert_eq!(expand_to_full_url(url, "16|"), Some(url.to_string()));
    assert_eq!(expand_to_full_url(url, "17|x"), None);
    assert_eq!(expand_to_full_url(url, "abc|x"), None);
    assert_eq!(expand_to_full_url(url, "5"), None);
    assert_eq!(expand_to_full_url(url, "|x"), None);
    assert_eq!(expand_to_full_url(url, "7|d|e"), Some("http://d|e".to_string()));
}

#[test]
fn diff_expansion_counts_bytes() {
    assert_eq!(expand_to_full_url("ä/b", "3|c"), Some("ä/c".to_string()));
    assert_eq!(expand_to_full_url("ä/b", "1|c"), None);
}

#[test]
fn empty_variant_stays_empty() {
    assert_eq!(expand_variant("http://example.com/video.mp4", ""), "");
    assert_eq!(expand_variant("http://example.com/video.mp4", "x|y"), "");
}

#[test]
fn field_parsing() {
    assert_eq!(date_from("24.12.2023"), Some(Date { year: 2023, month: 12, day: 24 }));
    assert_eq!(time_from("20:15:07"), Some(TimeOfDay { hour: 20, minute: 15, second: 7 }));
    assert_eq!(duration_from("01:02:03"), Some(3723));
    assert_eq!(duration_from(""), None);
    assert_eq!(time_from("25:00:00"), None);
}

#[test]
fn invalid_calendar_date_is_absent() {
    assert_eq!(date_from("31.02.2024"), None);
    let mut r = full_row("ARD", "Show", "Title");
    r[3] = "31.02.2024".to_string();
    let mut dec = Decoder::new();
    let e = dec.decode_row(&r);
    assert_eq!(e.date, None);
    assert_eq!(e.title, "Title");
    assert_eq!(e.time, Some(TimeOfDay { hour: 20, minute: 15, second: 0 }));
}

#[test]
fn carry_forward_of_station_and_topic() {
    let raw = vec![
        None,
        None,
        Some(full_row("ARD", "Tagesschau", "first")),
        Some(full_row("", "", "second")),
        Some(full_row("", "", "third")),
    ];
    let es = decode_rows(&raw);
    assert_eq!(es.len(), 3);
    for e in &es {
        assert_eq!(e.station, "ARD");
        assert_eq!(e.topic, "Tagesschau");
    }
}

#[test]
fn carry_forward_is_per_field() {
    let raw = vec![
        None,
        None,
        Some(full_row("ARD", "Tagesschau", "first")),
        Some(full_row("", "", "second")),
        Some(full_row("", "Sport", "third")),
    ];
    let es = decode_rows(&raw);
    assert_eq!(es.len(), 3);
    assert_eq!((es[1].station.as_str(), es[1].topic.as_str()), ("ARD", "Tagesschau"));
    assert_eq!((es[2].station.as_str(), es[2].topic.as_str()), ("ARD", "Sport"));
}

#[test]
fn decoded_fields() {
    let raw = vec![None, None, Some(full_row("ARD", "Show", "Title"))];
    let es = decode_rows(&raw);
    let e = &es[0];
    assert_eq!(e.date, Some(Date { year: 2023, month: 12, day: 24 }));
    assert_eq!(e.duration, Some(5400));
    assert_eq!(e.size, "850");
    assert_eq!(e.url, "http://example.com/video.mp4");
    assert_eq!(e.url_small, "http://example.com/small.mp4");
    assert_eq!(e.url_hd, "http://example.com/hd.mp4");
    assert_eq!(e.url_subtitles, "http://example.com/sub.xml");
    assert_eq!(e.geo, "DE");
    assert_eq!(e.new, "false");
}

#[test]
fn header_rows_and_misshapen_rows_are_skipped() {
    let mut short = full_row("ZDF", "x", "short");
    short.pop();
    let raw = vec![
        Some(full_row("META", "META", "meta")),
        Some(full_row("META", "META", "meta")),
        None,
        Some(short),
        Some(full_row("ARD", "Show", "kept")),
    ];
    let es = decode_rows(&raw);
    assert_eq!(es.len(), 1);
    assert_eq!(es[0].title, "kept");
    assert_eq!(es[0].station, "ARD");
    assert!(decode_rows(&vec![None, Some(full_row("A", "B", "C"))]).is_empty());
}

#[test]
fn end_to_end_feed() {
    let r1 = full_row("ARD", "Tagesschau", "one");
    let r2 = full_row("", "", "two");
    let r3 = full_row("", "Sport", "three");
    let doc = format!(
        "{{\"Filmliste\":[\"a\",\"b\"],\"Filmliste\":[\"c\"],{},{},{}}}",
        json_row(&r1),
        json_row(&r2),
        json_row(&r3)
    );
    let es = load_feed(&xz(doc.as_bytes())).unwrap();
    assert_eq!(es.len(), 3);
    assert_eq!((es[0].station.as_str(), es[0].topic.as_str()), ("ARD", "Tagesschau"));
    assert_eq!((es[1].station.as_str(), es[1].topic.as_str()), ("ARD", "Tagesschau"));
    assert_eq!((es[2].station.as_str(), es[2].topic.as_str()), ("ARD", "Sport"));
    assert_eq!(es[2].title, "three");
}

#[test]
fn feed_errors() {
    assert_eq!(load_feed(b"not xz").unwrap_err(), FeedError::Decompress);
    assert_eq!(load_feed(&xz(b"")).unwrap_err(), FeedError::Format);
    assert_eq!(load_feed(&xz(b"[\"a\"]")).unwrap_err(), FeedError::Format);
    assert_eq!(feed_elements(b"").unwrap_err(), FeedError::Format);
}

#[test]
fn feed_elements_shapes() {
    let doc = b"{\"a\":[\"x\",\"y\"],\"b\":[\"x\",1],\"c\":\"s\"}";
    let els = feed_elements(doc).unwrap();
    assert_eq!(els.len(), 3);
    assert_eq!(els[0], Some(vec!["x".to_string(), "y".to_string()]));
    assert_eq!(els[1], None);
    assert_eq!(els[2], None);
}

#[test]
fn entry_round_trip() {
    let mut dec = Decoder::new();
    let e = dec.decode_row(&full_row("ARD", "Show", "Title"));
    let fields = e.to_fields();
    assert_eq!(fields[3], "24.12.2023");
    assert_eq!(fields[4], "20:15:00");
    assert_eq!(fields[5], "01:30:00");
    assert_eq!(fields[12], "0|http://example.com/small.mp4");
    assert_eq!(fields[14], "0|http://example.com/hd.mp4");
    let mut again = Decoder::new();
    assert_eq!(again.decode_row(&fields), e);
}

#[test]
fn round_trip_of_absent_values() {
    let mut r = full_row("ARD", "Show", "Title");
    r[3] = "".to_string();
    r[4] = "x".to_string();
    r[5] = "".to_string();
    r[12] = "".to_string();
    let mut dec = Decoder::new();
    let e = dec.decode_row(&r);
    let fields = e.to_fields();
    assert_eq!((fields[3].as_str(), fields[4].as_str(), fields[5].as_str(), fields[12].as_str()), ("", "", "", ""));
    let mut again = Decoder::new();
    assert_eq!(again.decode_row(&fields), e);
}

#[test]
fn truncated_documents_are_format_errors() {
    assert_eq!(feed_elements(b"{\"a\":{}").unwrap_err(), FeedError::Format);
    assert_eq!(feed_elements(b"{\"a\":\"b\",").unwrap_err(), FeedError::Format);
    assert_eq!(feed_elements(b"{\"x\":\"}\"").unwrap_err(), FeedError::Format);
    assert_eq!(feed_elements(b"{\"a\":[\"b\"]").unwrap_err(), FeedError::Format);
    assert_eq!(feed_elements(b"{").unwrap_err(), FeedError::Format);
}

#[test]
fn replacement_keeps_later_bars() {
    assert_eq!(
        expand_to_full_url("http://example.com/video.mp4", "19|a|b.mp4"),
        Some("http://example.com/a|b.mp4".to_string())
    );
}

#[test]
fn leap_second_counts_in_durations() {
    assert_eq!(duration_from("00:00:60"), Some(60));
    assert_eq!(duration_from("23:59:60"), Some(86400));
    assert_eq!(time_from("23:59:60"), Some(TimeOfDay { hour: 23, minute: 59, second: 59 }));
}
