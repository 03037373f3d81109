//! Planning downloads for subscription matches, and the report of how they went.
use vstd::prelude::*;
use crate::decoder::Date;
use crate::paths::{join_path, joined};
use crate::subscriptions::{Match, Subscription};
use crate::text::{chars_of, padded, push_padded, push_year, string_of, year_text};

verus! {

/// Why a download could not be planned.
#[derive(Clone, Debug, PartialEq, Eq)]
pub enum DownloadError {
    /// The URL has no `.`, so no file extension can be taken from it.
    MalformedUrl(String),
}

/// `e` reports the URL `url` as having no extension.
pub open spec fn is_malformed(e: DownloadError, url: Seq<char>) -> bool {
    match e {
        DownloadError::MalformedUrl(u) => u@ == url,
    }
}

/// One file to fetch: the URL and where the body is written.
#[derive(Clone, Debug, PartialEq, Eq)]
pub struct DownloadTask {
    pub url: String,
    /// The subscription's folder.
    pub directory: String,
    pub file_name: String,
}

/// A character of Unicode's White_Space property.
pub open spec fn is_white_space(c: char) -> bool {
    let u = c as u32;
    (0x9 <= u <= 0xD) || u == 0x20 || u == 0x85 || u == 0xA0 || u == 0x1680 || (0x2000 <= u
        <= 0x200A) || u == 0x2028 || u == 0x2029 || u == 0x202F || u == 0x205F || u == 0x3000
}

/// `s` without its leading white space.
pub open spec fn trim_start(s: Seq<char>) -> Seq<char>
    decreases s.len(),
{
    if s.len() > 0 && is_white_space(s[0]) {
        trim_start(s.drop_first())
    } else {
        s
    }
}

/// `s` without its trailing white space.
pub open spec fn trim_end(s: Seq<char>) -> Seq<char>
    decreases s.len(),
{
    if s.len() > 0 && is_white_space(s.last()) {
        trim_end(s.drop_last())
    } else {
        s
    }
}

/// `s` without leading and trailing white space.
pub open spec fn trimmed(s: Seq<char>) -> Seq<char> {
    trim_end(trim_start(s))
}

/// What Unicode lower-casing in std makes of `s`.
pub uninterp spec fn lowered(s: Seq<char>) -> Seq<char>;

/// Relies on `str::trim`: leading and trailing characters of Unicode's White_Space property
/// removed.
#[verifier::external_body]
fn trim_text(s: &str) -> (r: String)
    ensures
        r@ == trimmed(s@),
{
    s.trim().to_string()
}

/// Relies on `str::to_lowercase`: the result depends on the characters alone.
#[verifier::external_body]
fn lowercase_text(s: &str) -> (r: String)
    ensures
        r@ == lowered(s@),
{
    s.to_lowercase()
}

/// `YYYY-MM-DD`.
pub open spec fn iso_text(d: Date) -> Seq<char> {
    year_text(d.year as int) + seq!['-'] + padded(d.month as nat, 2) + seq!['-'] + padded(
        d.day as nat,
        2,
    )
}

/// The date part of a file name.
pub open spec fn date_part(d: Option<Date>) -> Seq<char> {
    match d {
        Some(d) => iso_text(d),
        None => "unknown_date"@,
    }
}

/// Spaces replaced by underscores.
pub open spec fn underscored(s: Seq<char>) -> Seq<char> {
    s.map_values(|c: char| if c == ' ' { '_' } else { c })
}

/// The title part of a file name.
pub open spec fn normalized_title(title: Seq<char>) -> Seq<char> {
    underscored(lowered(trimmed(title)))
}

/// Index of the last `.` in the first `n` characters of `s`; -1 when there is none.
pub open spec fn last_dot(s: Seq<char>, n: int) -> int
    decreases n,
{
    if n <= 0 {
        -1
    } else if s[n - 1] == '.' {
        n - 1
    } else {
        last_dot(s, n - 1)
    }
}

/// What follows the last `.` of a URL; `None` when it has no `.`.
pub open spec fn extension(url: Seq<char>) -> Option<Seq<char>> {
    let k = last_dot(url, url.len() as int);
    if k < 0 {
        None
    } else {
        Some(url.subrange(k + 1, url.len() as int))
    }
}

/// `<date>_<title>.<extension>`, with the title already normalized.
pub open spec fn file_name_text(d: Option<Date>, title: Seq<char>, ext: Seq<char>) -> Seq<char> {
    date_part(d) + seq!['_'] + title + seq!['.'] + ext
}

/// Writes a date as `YYYY-MM-DD`.
pub fn iso_date(d: &Date) -> (r: String)
    ensures
        r@ == iso_text(*d),
{
    let mut v: Vec<char> = Vec::new();
    push_year(&mut v, d.year);
    v.push('-');
    push_padded(&mut v, d.month as u64, 2);
    v.push('-');
    push_padded(&mut v, d.day as u64, 2);
    proof {
        assert(v@ =~= iso_text(*d));
    }
    string_of(&v)
}

/// Replaces each space of `s` by an underscore.
pub fn underscore_spaces(s: &str) -> (r: String)
    ensures
        r@ == underscored(s@),
{
    let c = chars_of(s);
    let mut v: Vec<char> = Vec::new();
    let mut i: usize = 0;
    while i < c.len()
        invariant
            i <= c.len(),
            c@ == s@,
            v@ =~= underscored(c@.subrange(0, i as int)),
        decreases c.len() - i,
    {
        if c[i] == ' ' {
            v.push('_');
        } else {
            v.push(c[i]);
        }
        i = i + 1;
    }
    assert(c@.subrange(0, i as int) =~= c@);
    string_of(&v)
}

/// The title as it stands in a file name: trimmed, lower-cased, spaces as underscores.
pub fn normalize_title(title: &str) -> (r: String)
    ensures
        r@ == normalized_title(title@),
{
    let t = trim_text(title);
    let l = lowercase_text(t.as_str());
    underscore_spaces(l.as_str())
}

/// What follows the last `.` of `url`; `None` when it has no `.`.
pub fn extension_of(url: &str) -> (r: Option<String>)
    ensures
        r is Some <==> extension(url@) is Some,
        r is Some ==> extension(url@) == Some(r->0@),
{
    let c = chars_of(url);
    let mut n: usize = c.len();
    while n > 0
        invariant
            n <= c.len(),
            c@ == url@,
            last_dot(c@, c.len() as int) == last_dot(c@, n as int),
        decreases n,
    {
        if c[n - 1] == '.' {
            let mut v: Vec<char> = Vec::new();
            let mut i: usize = n;
            while i < c.len()
                invariant
                    n <= i <= c.len(),
                    v@ == c@.subrange(n as int, i as int),
                decreases c.len() - i,
            {
                v.push(c[i]);
                i = i + 1;
            }
            return Some(string_of(&v));
        }
        n = n - 1;
    }
    None
}

/// The file name for a match whose title is already normalized:
/// `<date>_<title>.<extension>`, where the date is `YYYY-MM-DD` or `unknown_date` and the
/// extension is what follows the last `.` of the URL. A URL without `.` is an error.
pub fn file_name_from_parts(date: Option<Date>, normalized: &str, url: &str) -> (r: Result<
    String,
    DownloadError,
>)
    ensures
        match r {
            Ok(name) => extension(url@) is Some && name@ == file_name_text(
                date,
                normalized@,
                extension(url@)->0,
            ),
            Err(e) => extension(url@) is None && is_malformed(e, url@),
        },
{
    let ext = match extension_of(url) {
        Some(x) => x,
        None => return Err(DownloadError::MalformedUrl(String::from_str(url))),
    };
    let mut name = match date {
        Some(d) => iso_date(&d),
        None => String::from_str("unknown_date"),
    };
    name.append("_");
    name.append(normalized);
    name.append(".");
    name.append(ext.as_str());
    proof {
        reveal_strlit("_");
        reveal_strlit(".");
        assert(name@ =~= file_name_text(date, normalized@, ext@));
    }
    Ok(name)
}

/// The file name for a match: `<date>_<normalized title>.<extension>`.
pub fn file_name(title: &str, date: Option<Date>, url: &str) -> (r: Result<String, DownloadError>)
    ensures
        match r {
            Ok(name) => extension(url@) is Some && name@ == file_name_text(
                date,
                normalized_title(title@),
                extension(url@)->0,
            ),
            Err(e) => extension(url@) is None && is_malformed(e, url@),
        },
{
    let t = normalize_title(title);
    file_name_from_parts(date, t.as_str(), url)
}

/// `t` is the task for match `m`, written into the folder `dir`.
pub open spec fn task_for(t: DownloadTask, m: Match, dir: Seq<char>) -> bool {
    &&& t.url@ == m.url@
    &&& t.directory@ == dir
    &&& extension(m.url@) is Some
    &&& t.file_name@ == file_name_text(m.date, normalized_title(m.title@), extension(m.url@)->0)
}

/// What planning makes of match `m` for the folder `dir`.
pub open spec fn planned(r: Result<DownloadTask, DownloadError>, m: Match, dir: Seq<char>) -> bool {
    match r {
        Ok(t) => task_for(t, m, dir),
        Err(e) => extension(m.url@) is None && is_malformed(e, m.url@),
    }
}

impl Subscription {
    /// The folder this subscription downloads into, below `base_dir`.
    pub fn download_dir(&self, base_dir: &str) -> (r: String)
        ensures
            r@ == joined(base_dir@, self.identifier@),
    {
        join_path(base_dir, self.identifier.as_str())
    }

    /// One planned download per match, in order, into this subscription's folder below
    /// `base_dir`; a match whose URL has no extension gives an error in its place.
    pub fn download_tasks(&self, base_dir: &str, matches: &Vec<Match>) -> (r: Vec<
        Result<DownloadTask, DownloadError>,
    >)
        ensures
            r.len() == matches.len(),
            forall|i: int|
                0 <= i < r.len() ==> planned(
                    #[trigger] r@[i],
                    matches@[i],
                    joined(base_dir@, self.identifier@),
                ),
    {
        let dir = self.download_dir(base_dir);
        let mut out: Vec<Result<DownloadTask, DownloadError>> = Vec::new();
        let mut i: usize = 0;
        while i < matches.len()
            invariant
                i <= matches.len(),
                out.len() == i,
                dir@ == joined(base_dir@, self.identifier@),
                forall|j: int|
                    0 <= j < i ==> planned(
                        #[trigger] out@[j],
                        matches@[j],
                        joined(base_dir@, self.identifier@),
                    ),
            decreases matches.len() - i,
        {
            let m = &matches[i];
            let planned_one = match file_name(m.title.as_str(), m.date, m.url.as_str()) {
                Ok(name) => Ok(
                    DownloadTask { url: m.url.clone(), directory: dir.clone(), file_name: name },
                ),
                Err(e) => Err(e),
            };
            out.push(planned_one);
            i = i + 1;
        }
        out
    }
}

/// How a run of downloads went: the positions of the tasks that succeeded, and each failed
/// task's position with its error.
#[derive(Clone, Debug, PartialEq, Eq)]
pub struct DownloadReport {
    pub succeeded: Vec<usize>,
    pub failed: Vec<(usize, String)>,
}

/// Positions of the successful outcomes, in order.
pub open spec fn ok_positions(o: Seq<Result<(), String>>) -> Seq<int>
    decreases o.len(),
{
    if o.len() == 0 {
        Seq::empty()
    } else {
        let init = ok_positions(o.drop_last());
        if o.last() is Ok {
            init.push(o.len() - 1)
        } else {
            init
        }
    }
}

/// Positions and messages of the failed outcomes, in order.
pub open spec fn failures(o: Seq<Result<(), String>>) -> Seq<(int, Seq<char>)>
    decreases o.len(),
{
    if o.len() == 0 {
        Seq::empty()
    } else {
        let init = failures(o.drop_last());
        match o.last() {
            Ok(_) => init,
            Err(msg) => init.push((o.len() - 1, msg@)),
        }
    }
}

/// Gathers the outcomes of a run of downloads, one per task in task order, into a report.
/// Every outcome is kept: successes by position, failures by position and message.
pub fn summarize(outcomes: &Vec<Result<(), String>>) -> (r: DownloadReport)
    ensures
        r.succeeded@.map_values(|k: usize| k as int) == ok_positions(outcomes@),
        r.failed@.map_values(|p: (usize, String)| (p.0 as int, p.1@)) == failures(outcomes@),
{
    let mut succeeded: Vec<usize> = Vec::new();
    let mut failed: Vec<(usize, String)> = Vec::new();
    let mut i: usize = 0;
    while i < outcomes.len()
        invariant
            i <= outcomes.len(),
            succeeded@.map_values(|k: usize| k as int) =~= ok_positions(outcomes@.subrange(0, i as int)),
            failed@.map_values(|p: (usize, String)| (p.0 as int, p.1@)) =~= failures(
                outcomes@.subrange(0, i as int),
            ),
        decreases outcomes.len() - i,
    {
        proof {
            assert(outcomes@.subrange(0, i + 1).drop_last() =~= outcomes@.subrange(0, i as int));
        }
        match &outcomes[i] {
            Ok(_) => succeeded.push(i),
            Err(msg) => failed.push((i, msg.clone())),
        }
        proof {
            assert(succeeded@.map_values(|k: usize| k as int) =~= ok_positions(outcomes@.subrange(0, i + 1)));
            assert(failed@.map_values(|p: (usize, String)| (p.0 as int, p.1@)) =~= failures(
                outcomes@.subrange(0, i + 1)));
        }
        i = i + 1;
    }
    assert(outcomes@.subrange(0, i as int) =~= outcomes@);
    DownloadReport { succeeded, failed }
}

/// Failure isolation in the report: every task is accounted for once, a successful one among
/// the successes and a failed one, with its message, among the failures.
pub proof fn report_law(o: Seq<Result<(), String>>)
    ensures
        ok_positions(o).len() + failures(o).len() == o.len(),
        forall|i: int| 0 <= i < o.len() && (#[trigger] o[i]) is Ok ==> ok_positions(o).contains(i),
        forall|i: int|
            0 <= i < o.len() && o[i] is Err ==> failures(o).contains((i, (#[trigger] o[i])->Err_0@)),
    decreases o.len(),
{
    if o.len() > 0 {
        let p = o.drop_last();
        report_law(p);
        assert forall|i: int| 0 <= i < o.len() && (#[trigger] o[i]) is Ok implies ok_positions(o).contains(i) by {
            if i < o.len() - 1 {
                assert(o[i] == p[i]);
                let k = choose|k: int| 0 <= k < ok_positions(p).len() && ok_positions(p)[k] == i;
                assert(ok_positions(o)[k] == i);
            } else {
                assert(ok_positions(o).last() == i);
            }
        }
        assert forall|i: int| 0 <= i < o.len() && o[i] is Err implies failures(o).contains(
            (i, (#[trigger] o[i])->Err_0@),
        ) by {
            if i < o.len() - 1 {
                assert(o[i] == p[i]);
                let k = choose|k: int|
                    0 <= k < failures(p).len() && failures(p)[k] == (i, p[i]->Err_0@);
                assert(failures(o)[k] == (i, o[i]->Err_0@));
            } else {
                assert(failures(o).last() == (i, o[i]->Err_0@));
            }
        }
    }
}

} // verus!
