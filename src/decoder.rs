//! The list decoder: turns the rows of the feed into catalog entries, carrying station and
//! topic forward and expanding diff-encoded variant URLs.
use chrono::{Datelike, Timelike};
use vstd::prelude::*;
use crate::text::{chars_of, first_from, padded, push_padded, push_year, string_of, year_text};
use crate::url_util::{diff_parts, expand_to_full_url, expanded};

verus! {

/// A calendar date.
#[derive(Clone, Copy, Debug, PartialEq, Eq, Structural)]
pub struct Date {
    pub year: i32,
    pub month: u32,
    pub day: u32,
}

impl Date {
    /// Month and day lie in their calendar ranges.
    pub open spec fn wf(&self) -> bool {
        1 <= self.month <= 12 && 1 <= self.day <= 31
    }
}

/// A time of day, to the second.
#[derive(Clone, Copy, Debug, PartialEq, Eq, Structural)]
pub struct TimeOfDay {
    pub hour: u32,
    pub minute: u32,
    pub second: u32,
}

/// Number of fields in a data row of the feed.
pub const ROW_WIDTH: usize = 20;

/// One broadcast item of the catalog.
#[derive(Clone, Debug, PartialEq, Eq)]
pub struct NewEntry {
    pub station: String,
    pub topic: String,
    pub title: String,
    pub date: Option<Date>,
    pub time: Option<TimeOfDay>,
    /// Length in seconds.
    pub duration: Option<i64>,
    /// The size in MB, as the feed writes it.
    pub size: String,
    pub description: String,
    pub url: String,
    pub website: String,
    pub url_subtitles: String,
    pub url_rtmp: String,
    pub url_small: String,
    pub url_rtmp_small: String,
    pub url_hd: String,
    pub url_rtmp_hd: String,
    pub datuml: String,
    pub url_history: String,
    pub geo: String,
    pub new: String,
}

/// Year, month and day that chrono reads from `s` with the format `%d.%m.%Y`.
pub uninterp spec fn dmy_date(s: Seq<char>) -> Option<(i32, u32, u32)>;

/// Hour, minute, second and nanosecond that chrono reads from `s` with the format `%H:%M:%S`.
pub uninterp spec fn hms_time(s: Seq<char>) -> Option<(u32, u32, u32, u32)>;

pub open spec fn is_leap_year(y: int) -> bool {
    (y % 4 == 0 && y % 100 != 0) || y % 400 == 0
}

pub open spec fn days_in_month(y: int, m: int) -> int {
    if m == 2 {
        if is_leap_year(y) {
            29
        } else {
            28
        }
    } else if m == 4 || m == 6 || m == 9 || m == 11 {
        30
    } else {
        31
    }
}

/// A valid Gregorian date with a year of at most four digits.
pub open spec fn is_calendar_date(d: Date) -> bool {
    0 <= d.year <= 9999 && 1 <= d.month <= 12 && 1 <= d.day <= days_in_month(
        d.year as int,
        d.month as int,
    )
}

/// Relies on chrono's `NaiveDate::parse_from_str` with the format `%d.%m.%Y`: empty text does
/// not parse, the zero-padded text of a valid date parses to that date, and `Datelike`'s
/// documented ranges hold: month from 1 to 12, day from 1 to 31.
#[verifier::external_body]
fn parse_dmy(s: &str) -> (r: Option<(i32, u32, u32)>)
    ensures
        r == dmy_date(s@),
        r matches Some((y, m, d)) ==> 1 <= m <= 12 && 1 <= d <= 31,
        s@.len() == 0 ==> r is None,
        forall|d: Date|
            is_calendar_date(d) && s@ == #[trigger] date_field(Some(d)) ==> r == Some(
                (d.year, d.month, d.day),
            ),
{
    match chrono::NaiveDate::parse_from_str(s, "%d.%m.%Y") {
        Ok(d) => Some((d.year(), d.month(), d.day())),
        Err(_) => None,
    }
}

/// Relies on chrono's `NaiveTime::parse_from_str` with the format `%H:%M:%S`: empty text does
/// not parse, the zero-padded text of a time of day parses to it with no fraction, and
/// `Timelike`'s documented ranges hold: hour below 24, minute and second below 60, nanosecond
/// below 2,000,000,000, where 1,000,000,000 and above marks a leap second.
#[verifier::external_body]
fn parse_hms(s: &str) -> (r: Option<(u32, u32, u32, u32)>)
    ensures
        r == hms_time(s@),
        r matches Some((h, m, sec, nano)) ==> h < 24 && m < 60 && sec < 60 && nano < 2_000_000_000,
        s@.len() == 0 ==> r is None,
        forall|t: TimeOfDay|
            t.hour < 24 && t.minute < 60 && t.second < 60 && s@ == #[trigger] time_field(Some(t))
                ==> r == Some((t.hour, t.minute, t.second, 0u32)),
{
    match chrono::NaiveTime::parse_from_str(s, "%H:%M:%S") {
        Ok(t) => Some((t.hour(), t.minute(), t.second(), t.nanosecond())),
        Err(_) => None,
    }
}

pub open spec fn date_of(s: Seq<char>) -> Option<Date> {
    match dmy_date(s) {
        Some((y, m, d)) => Some(Date { year: y, month: m, day: d }),
        None => None,
    }
}

pub open spec fn time_of(s: Seq<char>) -> Option<TimeOfDay> {
    match hms_time(s) {
        Some((h, m, sec, _)) => Some(TimeOfDay { hour: h, minute: m, second: sec }),
        None => None,
    }
}

/// A duration written as a time of day, in seconds from midnight; a leap second counts as one
/// more second.
pub open spec fn duration_of(s: Seq<char>) -> Option<i64> {
    match hms_time(s) {
        Some((h, m, sec, nano)) => Some(
            (h * 3600 + m * 60 + sec + if nano >= 1_000_000_000 { 1int } else { 0int }) as i64,
        ),
        None => None,
    }
}

/// Reads a `DD.MM.YYYY` date; `None` when it is not a valid calendar date.
pub fn date_from(s: &str) -> (r: Option<Date>)
    ensures
        r == date_of(s@),
        r matches Some(d) ==> d.wf(),
        s@.len() == 0 ==> r is None,
        forall|d: Date| is_calendar_date(d) && s@ == #[trigger] date_field(Some(d)) ==> r == Some(d),
{
    match parse_dmy(s) {
        Some((y, m, d)) => Some(Date { year: y, month: m, day: d }),
        None => None,
    }
}

/// Reads a `HH:MM:SS` time of day; `None` when it cannot be read.
pub fn time_from(s: &str) -> (r: Option<TimeOfDay>)
    ensures
        r == time_of(s@),
        r matches Some(t) ==> t.hour < 24 && t.minute < 60 && t.second < 60,
        s@.len() == 0 ==> r is None,
        forall|t: TimeOfDay|
            t.hour < 24 && t.minute < 60 && t.second < 60 && s@ == #[trigger] time_field(Some(t))
                ==> r == Some(t),
{
    match parse_hms(s) {
        Some((h, m, sec, _)) => Some(TimeOfDay { hour: h, minute: m, second: sec }),
        None => None,
    }
}

/// Reads a `HH:MM:SS` duration as a number of seconds; `None` when it cannot be read.
pub fn duration_from(s: &str) -> (r: Option<i64>)
    ensures
        r == duration_of(s@),
        r matches Some(n) ==> 0 <= n <= 86400,
        s@.len() == 0 ==> r is None,
        forall|t: TimeOfDay|
            t.hour < 24 && t.minute < 60 && t.second < 60 && s@ == #[trigger] time_field(Some(t))
                ==> r == Some((t.hour * 3600 + t.minute * 60 + t.second) as i64),
{
    match parse_hms(s) {
        Some((h, m, sec, nano)) => {
            let leap: i64 = if nano >= 1_000_000_000 { 1 } else { 0 };
            Some((h * 3600 + m * 60 + sec) as i64 + leap)
        },
        None => None,
    }
}

/// The value a variant URL field decodes to: empty when the field is empty or cannot be
/// applied to the canonical URL, the expanded URL otherwise.
pub open spec fn variant_of(url: Seq<char>, diff: Seq<char>) -> Seq<char> {
    if diff.len() == 0 {
        Seq::empty()
    } else {
        match expanded(url, diff) {
            Some(x) => x,
            None => Seq::empty(),
        }
    }
}

/// Decodes a variant URL field against the canonical URL.
pub fn expand_variant(url: &str, diff: &str) -> (r: String)
    ensures
        r@ == variant_of(url@, diff@),
{
    if diff.is_empty() {
        return String::new();
    }
    match expand_to_full_url(url, diff) {
        Some(x) => x,
        None => String::new(),
    }
}

/// A field that the feed leaves empty to repeat the previous row's value.
pub open spec fn carry(field: Seq<char>, last: Seq<char>) -> Seq<char> {
    if field.len() > 0 {
        field
    } else {
        last
    }
}

pub open spec fn fields_view(row: Seq<String>) -> Seq<Seq<char>> {
    row.map_values(|s: String| s@)
}

/// `e` is what a row with the fields `row` decodes to, with the given effective station and
/// topic.
pub open spec fn decoded(e: NewEntry, row: Seq<Seq<char>>, station: Seq<char>, topic: Seq<char>) -> bool {
    &&& e.station@ == station
    &&& e.topic@ == topic
    &&& e.title@ == row[2]
    &&& e.date == date_of(row[3])
    &&& e.time == time_of(row[4])
    &&& e.duration == duration_of(row[5])
    &&& (row[3].len() == 0 ==> e.date is None)
    &&& (forall|d: Date|
        is_calendar_date(d) && row[3] == #[trigger] date_field(Some(d)) ==> e.date == Some(d))
    &&& (row[4].len() == 0 ==> e.time is None)
    &&& (forall|t: TimeOfDay|
        t.hour < 24 && t.minute < 60 && t.second < 60 && row[4] == #[trigger] time_field(Some(t))
            ==> e.time == Some(t))
    &&& (row[5].len() == 0 ==> e.duration is None)
    &&& (forall|t: TimeOfDay|
        t.hour < 24 && t.minute < 60 && t.second < 60 && row[5] == #[trigger] time_field(Some(t))
            ==> e.duration == Some((t.hour * 3600 + t.minute * 60 + t.second) as i64))
    &&& e.size@ == row[6]
    &&& e.description@ == row[7]
    &&& e.url@ == row[8]
    &&& e.website@ == row[9]
    &&& e.url_subtitles@ == row[10]
    &&& e.url_rtmp@ == row[11]
    &&& e.url_small@ == variant_of(row[8], row[12])
    &&& e.url_rtmp_small@ == row[13]
    &&& e.url_hd@ == variant_of(row[8], row[14])
    &&& e.url_rtmp_hd@ == row[15]
    &&& e.datuml@ == row[16]
    &&& e.url_history@ == row[17]
    &&& e.geo@ == row[18]
    &&& e.new@ == row[19]
}

/// The decode state: the last non-empty station and topic seen so far.
pub struct Decoder {
    pub last_station: String,
    pub last_topic: String,
}

impl Decoder {
    pub fn new() -> (r: Decoder)
        ensures
            r.last_station@ == Seq::<char>::empty(),
            r.last_topic@ == Seq::<char>::empty(),
    {
        Decoder { last_station: String::new(), last_topic: String::new() }
    }

    /// Decodes one data row and advances the carried station and topic, each on its own.
    pub fn decode_row(&mut self, row: &Vec<String>) -> (e: NewEntry)
        requires
            row.len() == ROW_WIDTH,
        ensures
            final(self).last_station@ == carry(row@[0]@, old(self).last_station@),
            final(self).last_topic@ == carry(row@[1]@, old(self).last_topic@),
            decoded(e, fields_view(row@), final(self).last_station@, final(self).last_topic@),
    {
        if !row[0].as_str().is_empty() {
            self.last_station = row[0].clone();
        }
        if !row[1].as_str().is_empty() {
            self.last_topic = row[1].clone();
        }
        let url = row[8].clone();
        let url_small = expand_variant(url.as_str(), row[12].as_str());
        let url_hd = expand_variant(url.as_str(), row[14].as_str());
        NewEntry {
            station: self.last_station.clone(),
            topic: self.last_topic.clone(),
            title: row[2].clone(),
            date: date_from(row[3].as_str()),
            time: time_from(row[4].as_str()),
            duration: duration_from(row[5].as_str()),
            size: row[6].clone(),
            description: row[7].clone(),
            url,
            website: row[9].clone(),
            url_subtitles: row[10].clone(),
            url_rtmp: row[11].clone(),
            url_small,
            url_rtmp_small: row[13].clone(),
            url_hd,
            url_rtmp_hd: row[15].clone(),
            datuml: row[16].clone(),
            url_history: row[17].clone(),
            geo: row[18].clone(),
            new: row[19].clone(),
        }
    }
}

/// The feed elements as text: each the fields of its row, or `None`.
pub open spec fn elements_view(raw: Seq<Option<Vec<String>>>) -> Seq<Option<Seq<Seq<char>>>> {
    raw.map_values(
        |o: Option<Vec<String>>|
            match o {
                Some(v) => Some(fields_view(v@)),
                None => None,
            },
    )
}

/// The data rows among `raw`, in order: those that are a row of exactly `ROW_WIDTH` fields.
pub open spec fn kept_rows(raw: Seq<Option<Seq<Seq<char>>>>) -> Seq<Seq<Seq<char>>>
    decreases raw.len(),
{
    if raw.len() == 0 {
        Seq::empty()
    } else {
        let init = kept_rows(raw.drop_last());
        match raw.last() {
            Some(r) => if r.len() == ROW_WIDTH {
                init.push(r)
            } else {
                init
            },
            None => init,
        }
    }
}

/// The data rows of a feed: its first two elements are metadata and are skipped.
pub open spec fn feed_rows(raw: Seq<Option<Seq<Seq<char>>>>) -> Seq<Seq<Seq<char>>> {
    if raw.len() <= 2 {
        Seq::empty()
    } else {
        kept_rows(raw.subrange(2, raw.len() as int))
    }
}

/// The value of column `col` in effect after the first `n` rows: the last non-empty one, or
/// empty when there is none.
pub open spec fn carried(rows: Seq<Seq<Seq<char>>>, col: int, n: int) -> Seq<char>
    decreases n,
{
    if n <= 0 {
        Seq::empty()
    } else {
        carry(rows[n - 1][col], carried(rows, col, n - 1))
    }
}

proof fn lemma_carried_push(rows: Seq<Seq<Seq<char>>>, x: Seq<Seq<char>>, col: int, n: int)
    requires
        n <= rows.len(),
    ensures
        carried(rows.push(x), col, n) == carried(rows, col, n),
    decreases n,
{
    if n > 0 {
        lemma_carried_push(rows, x, col, n - 1);
    }
}

/// Decodes the elements of a feed, as handed over by the JSON layer: `None` for an element that
/// is not an array of strings. The first two elements are skipped, rows of another width are
/// dropped, and station and topic are carried forward over the remaining rows, in order.
pub fn decode_rows(raw: &Vec<Option<Vec<String>>>) -> (r: Vec<NewEntry>)
    ensures
        decodes_feed(r@, elements_view(raw@)),
{
    let ghost els = elements_view(raw@);
    let mut out: Vec<NewEntry> = Vec::new();
    let mut dec = Decoder::new();
    if raw.len() <= 2 {
        return out;
    }
    let mut i: usize = 2;
    while i < raw.len()
        invariant
            2 <= i <= raw.len(),
            els == elements_view(raw@),
            ({
                let rows = kept_rows(els.subrange(2, i as int));
                &&& out.len() == rows.len()
                &&& dec.last_station@ == carried(rows, 0, rows.len() as int)
                &&& dec.last_topic@ == carried(rows, 1, rows.len() as int)
                &&& forall|j: int|
                    0 <= j < out.len() ==> decoded(
                        #[trigger] out@[j],
                        rows[j],
                        carried(rows, 0, j + 1),
                        carried(rows, 1, j + 1),
                    )
            }),
        decreases raw.len() - i,
    {
        let ghost before = kept_rows(els.subrange(2, i as int));
        proof {
            assert(els.subrange(2, i + 1).drop_last() =~= els.subrange(2, i as int));
            assert(els.subrange(2, i + 1).last() == els[i as int]);
        }
        match &raw[i] {
            Some(row) => {
                if row.len() == ROW_WIDTH {
                    let e = dec.decode_row(row);
                    out.push(e);
                    proof {
                        let rows = kept_rows(els.subrange(2, i + 1));
                        let x = fields_view(row@);
                        assert(rows == before.push(x));
                        assert(x[0] == row@[0]@ && x[1] == row@[1]@);
                        lemma_carried_push(before, x, 0, before.len() as int);
                        lemma_carried_push(before, x, 1, before.len() as int);
                        assert forall|j: int| 0 <= j < out.len() implies decoded(
                            #[trigger] out@[j],
                            rows[j],
                            carried(rows, 0, j + 1),
                            carried(rows, 1, j + 1),
                        ) by {
                            if j < before.len() {
                                lemma_carried_push(before, x, 0, j + 1);
                                lemma_carried_push(before, x, 1, j + 1);
                            } else {
                                lemma_carried_push(before, x, 0, j);
                                lemma_carried_push(before, x, 1, j);
                            }
                        }
                    }
                }
            },
            None => {},
        }
        proof {
            let rows = kept_rows(els.subrange(2, i + 1));
            if !(els[i as int] matches Some(r) && r.len() == ROW_WIDTH) {
                assert(rows == before);
            }
        }
        i = i + 1;
    }
    proof {
        assert(els.subrange(2, raw.len() as int) =~= els.subrange(2, i as int));
    }
    out
}

/// `es` is the decoding of the feed whose elements are `raw`.
pub open spec fn decodes_feed(es: Seq<NewEntry>, raw: Seq<Option<Seq<Seq<char>>>>) -> bool {
    let rows = feed_rows(raw);
    &&& es.len() == rows.len()
    &&& forall|i: int|
        0 <= i < es.len() ==> decoded(
            #[trigger] es[i],
            rows[i],
            carried(rows, 0, i + 1),
            carried(rows, 1, i + 1),
        )
}

/// Carry-forward: once a row sets a non-empty value in the station (column 0) or topic
/// (column 1) column, every following row that leaves that column empty gets that value.
pub proof fn carry_forward_law(rows: Seq<Seq<Seq<char>>>, col: int, i: int, k: int)
    requires
        0 <= i <= k < rows.len(),
        rows[i][col].len() > 0,
        forall|j: int| i < j <= k ==> (#[trigger] rows[j][col]).len() == 0,
    ensures
        carried(rows, col, k + 1) == rows[i][col],
    decreases k - i,
{
    if k > i {
        carry_forward_law(rows, col, i, k - 1);
    }
}

/// Independence of the two carried columns: a row that sets its own value in a column keeps
/// it, whatever the other column does.
pub proof fn own_value_law(rows: Seq<Seq<Seq<char>>>, col: int, k: int)
    requires
        0 <= k < rows.len(),
        rows[k][col].len() > 0,
    ensures
        carried(rows, col, k + 1) == rows[k][col],
{
}

/// A date as the feed writes it: `DD.MM.YYYY`; empty when absent.
pub open spec fn date_field(d: Option<Date>) -> Seq<char> {
    match d {
        Some(d) => padded(d.day as nat, 2) + seq!['.'] + padded(d.month as nat, 2) + seq!['.']
            + year_text(d.year as int),
        None => Seq::empty(),
    }
}

/// A time of day as the feed writes it: `HH:MM:SS`; empty when absent.
pub open spec fn time_field(t: Option<TimeOfDay>) -> Seq<char> {
    match t {
        Some(t) => padded(t.hour as nat, 2) + seq![':'] + padded(t.minute as nat, 2) + seq![':']
            + padded(t.second as nat, 2),
        None => Seq::empty(),
    }
}

/// A duration as the feed writes it, `HH:MM:SS`; empty when absent or not below a day.
pub open spec fn duration_field(n: Option<i64>) -> Seq<char> {
    match n {
        Some(n) => if 0 <= n < 86400 {
            padded((n / 3600) as nat, 2) + seq![':'] + padded(((n % 3600) / 60) as nat, 2)
                + seq![':'] + padded((n % 60) as nat, 2)
        } else {
            Seq::empty()
        },
        None => Seq::empty(),
    }
}

/// A variant URL as a diff field that replaces the whole canonical URL; empty stays empty.
pub open spec fn variant_field(v: Seq<char>) -> Seq<char> {
    if v.len() == 0 {
        Seq::empty()
    } else {
        seq!['0', '|'] + v
    }
}

/// The row that `e` is written as.
pub open spec fn encoded(e: NewEntry) -> Seq<Seq<char>> {
    seq![
        e.station@, e.topic@, e.title@, date_field(e.date), time_field(e.time),
        duration_field(e.duration), e.size@, e.description@, e.url@, e.website@,
        e.url_subtitles@, e.url_rtmp@, variant_field(e.url_small@), e.url_rtmp_small@,
        variant_field(e.url_hd@), e.url_rtmp_hd@, e.datuml@, e.url_history@, e.geo@, e.new@,
    ]
}

fn push_two_digits(v: &mut Vec<char>, n: u64, sep: char, last: bool)
    ensures
        final(v)@ == old(v)@ + padded(n as nat, 2) + (if last { Seq::empty() } else { seq![sep] }),
{
    push_padded(v, n, 2);
    if !last {
        v.push(sep);
    }
    proof {
        assert(v@ =~= old(v)@ + padded(n as nat, 2) + (if last { Seq::empty() } else { seq![sep] }));
    }
}

fn date_text(d: Option<Date>) -> (r: String)
    ensures
        r@ == date_field(d),
{
    let mut v: Vec<char> = Vec::new();
    match d {
        Some(d) => {
            push_two_digits(&mut v, d.day as u64, '.', false);
            push_two_digits(&mut v, d.month as u64, '.', false);
            push_year(&mut v, d.year);
        },
        None => {},
    }
    assert(v@ =~= date_field(d));
    string_of(&v)
}

fn clock_text(h: u64, m: u64, sec: u64) -> (r: String)
    ensures
        r@ == padded(h as nat, 2) + seq![':'] + padded(m as nat, 2) + seq![':'] + padded(
            sec as nat,
            2,
        ),
{
    let mut v: Vec<char> = Vec::new();
    push_two_digits(&mut v, h, ':', false);
    push_two_digits(&mut v, m, ':', false);
    push_two_digits(&mut v, sec, ':', true);
    assert(v@ =~= padded(h as nat, 2) + seq![':'] + padded(m as nat, 2) + seq![':'] + padded(
        sec as nat,
        2,
    ));
    string_of(&v)
}

fn variant_text(v: &String) -> (r: String)
    ensures
        r@ == variant_field(v@),
{
    if v.as_str().is_empty() {
        return String::new();
    }
    let mut c: Vec<char> = Vec::new();
    c.push('0');
    c.push('|');
    let rest = chars_of(v.as_str());
    let mut i: usize = 0;
    while i < rest.len()
        invariant
            i <= rest.len(),
            rest@ == v@,
            c@ == seq!['0', '|'] + rest@.subrange(0, i as int),
        decreases rest.len() - i,
    {
        c.push(rest[i]);
        i = i + 1;
        assert(c@ =~= seq!['0', '|'] + rest@.subrange(0, i as int));
    }
    assert(rest@.subrange(0, i as int) =~= rest@);
    string_of(&c)
}

impl NewEntry {
    /// The feed row this entry is written as: dates as `DD.MM.YYYY`, times and durations as
    /// `HH:MM:SS`, variant URLs as diff fields that replace the whole canonical URL.
    pub fn to_fields(&self) -> (r: Vec<String>)
        ensures
            r.len() == ROW_WIDTH,
            fields_view(r@) == encoded(*self),
    {
        let mut r: Vec<String> = Vec::new();
        r.push(self.station.clone());
        r.push(self.topic.clone());
        r.push(self.title.clone());
        r.push(date_text(self.date));
        r.push(
            match self.time {
                Some(t) => clock_text(t.hour as u64, t.minute as u64, t.second as u64),
                None => String::new(),
            },
        );
        r.push(
            match self.duration {
                Some(n) => if 0 <= n && n < 86400 {
                    clock_text((n / 3600) as u64, ((n % 3600) / 60) as u64, (n % 60) as u64)
                } else {
                    String::new()
                },
                None => String::new(),
            },
        );
        r.push(self.size.clone());
        r.push(self.description.clone());
        r.push(self.url.clone());
        r.push(self.website.clone());
        r.push(self.url_subtitles.clone());
        r.push(self.url_rtmp.clone());
        r.push(variant_text(&self.url_small));
        r.push(self.url_rtmp_small.clone());
        r.push(variant_text(&self.url_hd));
        r.push(self.url_rtmp_hd.clone());
        r.push(self.datuml.clone());
        r.push(self.url_history.clone());
        r.push(self.geo.clone());
        r.push(self.new.clone());
        assert(fields_view(r@) =~= encoded(*self));
        r
    }
}

proof fn lemma_variant_round_trip(url: Seq<char>, v: Seq<char>)
    ensures
        variant_of(url, variant_field(v)) == v,
{
    if v.len() > 0 {
        let diff = variant_field(v);
        assert(diff[0] == '0' && diff[1] == '|');
        assert(first_from(diff, '|', 1) == 1);
        assert(first_from(diff, '|', 0) == 1);
        assert(diff.subrange(0, 1) =~= seq!['0']);
        assert(crate::text::decimal_value(seq!['0']) == 0) by {
            let z = seq!['0'];
            assert(z.drop_last() =~= Seq::<char>::empty());
            assert(z.last() == '0');
            assert(crate::text::decimal_value(Seq::<char>::empty()) == 0);
            assert(crate::text::digit_value('0') == 0);
        }
        assert(diff.subrange(2, diff.len() as int) =~= v);
        assert(diff_parts(diff) == Some((0nat, v)));
        vstd::utf8::encode_utf8_valid_utf8(url);
        lemma_empty_prefix(url);
        assert(expanded(url, diff) == Some(v)) by {
            assert(seq![] + v =~= v);
        }
    }
}

proof fn lemma_empty_prefix(url: Seq<char>)
    ensures
        vstd::utf8::decode_utf8(vstd::utf8::encode_utf8(url).subrange(0, 0)) == Seq::<char>::empty(),
{
    assert(vstd::utf8::encode_utf8(url).subrange(0, 0) =~= vstd::utf8::encode_utf8(Seq::<char>::empty()));
    vstd::utf8::encode_utf8_decode_utf8(Seq::<char>::empty());
}

/// Round trip: decoding the row that an entry is written as gives the entry back. Station and
/// topic come back when they are non-empty (an empty one is carried from the decode state);
/// the date when it is a valid date with a year of at most four digits, the time when it is a
/// time of day, and the duration when it is below a day. Absent values come back absent.
pub proof fn round_trip_law(e: NewEntry, d: NewEntry, last_station: Seq<char>, last_topic: Seq<char>)
    requires
        decoded(
            d,
            encoded(e),
            carry(encoded(e)[0], last_station),
            carry(encoded(e)[1], last_topic),
        ),
        e.date matches Some(x) ==> is_calendar_date(x),
        e.time matches Some(t) ==> t.hour < 24 && t.minute < 60 && t.second < 60,
        e.duration matches Some(n) ==> 0 <= n < 86400,
    ensures
        e.station@.len() > 0 ==> d.station@ == e.station@,
        e.topic@.len() > 0 ==> d.topic@ == e.topic@,
        d.title@ == e.title@,
        d.date == e.date,
        d.time == e.time,
        d.duration == e.duration,
        d.size@ == e.size@,
        d.description@ == e.description@,
        d.url@ == e.url@,
        d.website@ == e.website@,
        d.url_subtitles@ == e.url_subtitles@,
        d.url_rtmp@ == e.url_rtmp@,
        d.url_small@ == e.url_small@,
        d.url_rtmp_small@ == e.url_rtmp_small@,
        d.url_hd@ == e.url_hd@,
        d.url_rtmp_hd@ == e.url_rtmp_hd@,
        d.datuml@ == e.datuml@,
        d.url_history@ == e.url_history@,
        d.geo@ == e.geo@,
        d.new@ == e.new@,
{
    let row = encoded(e);
    lemma_variant_round_trip(e.url@, e.url_small@);
    lemma_variant_round_trip(e.url@, e.url_hd@);
    match e.date {
        Some(x) => {
            assert(row[3] == date_field(Some(x)));
        },
        None => {},
    }
    match e.time {
        Some(t) => {
            assert(row[4] == time_field(Some(t)));
        },
        None => {},
    }
    match e.duration {
        Some(n) => {
            let t = TimeOfDay {
                hour: (n / 3600) as u32,
                minute: ((n % 3600) / 60) as u32,
                second: (n % 60) as u32,
            };
            assert(row[5] == time_field(Some(t)));
            assert(t.hour * 3600 + t.minute * 60 + t.second == n) by (nonlinear_arith)
                requires
                    0 <= n < 86400,
                    t.hour == n / 3600,
                    t.minute == (n % 3600) / 60,
                    t.second == n % 60,
            ;
        },
        None => {},
    }
}

} // verus!
