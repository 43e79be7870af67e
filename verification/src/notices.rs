//! Paging through the announcement and news sources: what one page of
//! results contributes, when to stop, and which source the archive is built
//! from.

use vstd::prelude::*;
use chrono::NaiveDate;
use crate::calendar::{civil_from_days, ms_to_date, opt_days, parse_flexible_date, flexible_date_input_ok, flexible_date_spec, utc_date_of_millis, Date, MAX_DAYS, MIN_DAYS};
use crate::cninfo::{normalize_code, six_digit_code, ann_key, dedupe_sort, keys, preview, preview_spec, strictly_sorted_keys, strip_html, strip_html_spec, Announcement, MessageArchive};
use crate::text::{decimal_spec, push_str, zero_pad, to_chars, to_owned_string, trim, trim_front, trim_front_index, trim_str};

verus! {

/// A result entry read from a source: its cleaned title and its date, if
/// one could be read.
#[derive(Clone, Debug)]
pub struct DatedTitle {
    pub title: String,
    pub date: Option<Date>,
}

/// An entry as plain values.
pub open spec fn dated_view(x: DatedTitle) -> (Seq<char>, Option<int>) {
    (x.title@, opt_days(x.date))
}

/// What a page contributes: the entries with a title and a date inside
/// `[start, end]`, in page order, and the oldest date seen on entries with
/// a title and a date.
pub open spec fn scan_spec(items: Seq<(Seq<char>, Option<int>)>, start: int, end: int) -> (Seq<(int, Seq<char>)>, Option<int>)
    decreases items.len(),
{
    if items.len() == 0 {
        (Seq::empty(), None)
    } else {
        let prev = scan_spec(items.drop_last(), start, end);
        let t = items.last().0;
        let d = items.last().1;
        if t.len() == 0 || d is None {
            prev
        } else {
            let day = d->0;
            let oldest = match prev.1 {
                Some(o) => if day < o { day } else { o },
                None => day,
            };
            let acc = if start <= day && day <= end { prev.0.push((day, t)) } else { prev.0 };
            (acc, Some(oldest))
        }
    }
}

/// The result of scanning one page.
#[derive(Debug)]
pub struct PageScan {
    pub accepted: Vec<Announcement>,
    pub oldest: Option<Date>,
}

/// Scans one page of entries for the window `[start, end]`.
pub fn scan_page(items: &[DatedTitle], start: Date, end: Date) -> (r: PageScan)
    ensures
        (keys(r.accepted@), opt_days(r.oldest)) == scan_spec(
            items@.map_values(|x: DatedTitle| dated_view(x)),
            start.days as int,
            end.days as int,
        ),
{
    let ghost iv = items@.map_values(|x: DatedTitle| dated_view(x));
    let mut accepted: Vec<Announcement> = Vec::new();
    let mut oldest: Option<Date> = None;
    let mut i: usize = 0;
    while i < items.len()
        invariant
            i <= items.len(),
            iv == items@.map_values(|x: DatedTitle| dated_view(x)),
            (keys(accepted@), opt_days(oldest)) == scan_spec(iv.take(i as int), start.days as int, end.days as int),
        decreases items.len() - i,
    {
        assert(iv.take(i as int + 1).drop_last() =~= iv.take(i as int));
        assert(iv.take(i as int + 1).last() == dated_view(items@[i as int]));
        let it = &items[i];
        let nonempty = to_chars(it.title.as_str()).len() > 0;
        if nonempty {
            match it.date {
                Some(d) => {
                    oldest = match oldest {
                        Some(o) => if d.days < o.days { Some(d) } else { Some(o) },
                        None => Some(d),
                    };
                    if start.days <= d.days && d.days <= end.days {
                        let ghost before = accepted@;
                        accepted.push(Announcement { date: d, title: to_owned_string(it.title.as_str()) });
                        assert(keys(accepted@) =~= keys(before).push((d.days as int, it.title@)));
                    }
                },
                None => {},
            }
        }
        i += 1;
    }
    assert(iv.take(items.len() as int) =~= iv);
    PageScan { accepted, oldest }
}

/// Whether to fetch the next page: not when the page already reached back
/// before `start`, nor when it was short.
pub fn page_continues(oldest: Option<Date>, start: Date, n: usize, page_size: usize) -> (r: bool)
    ensures
        r == (!(oldest matches Some(o) && o.days < start.days) && n >= page_size),
{
    let before_start = match oldest {
        Some(o) => o.days < start.days,
        None => false,
    };
    !before_start && n >= page_size
}

/// The text of an optional string, empty when absent.
pub open spec fn or_empty(s: Option<Seq<char>>) -> Seq<char> {
    match s {
        Some(x) => x,
        None => Seq::empty(),
    }
}

/// An optional string slice as plain characters.
pub open spec fn opt_chars(s: Option<&str>) -> Option<Seq<char>> {
    match s {
        Some(x) => Some(x@),
        None => None,
    }
}

/// A candidate date text that may be read.
pub open spec fn candidate_ok(s: Option<&str>) -> bool {
    s matches Some(x) ==> flexible_date_input_ok(x@)
}

/// The date read from an optional text.
pub open spec fn candidate_date(s: Option<Seq<char>>) -> Option<int> {
    match s {
        Some(x) => flexible_date_spec(x),
        None => None,
    }
}

pub(crate) fn read_candidate(s: Option<&str>) -> (r: Option<Date>)
    requires
        candidate_ok(s),
    ensures
        opt_days(r) == candidate_date(opt_chars(s)),
{
    match s {
        Some(x) => parse_flexible_date(x),
        None => None,
    }
}

/// An East Money announcement: the title trimmed, and the first date that
/// reads among the notice date, the event time and the display time; an
/// entry without a title is skipped before any date is read.
pub open spec fn em_notice_spec(
    title: Option<Seq<char>>,
    notice_date: Option<Seq<char>>,
    ei_time: Option<Seq<char>>,
    display_time: Option<Seq<char>>,
) -> (Seq<char>, Option<int>) {
    let t = trim(or_empty(title));
    let a = candidate_date(notice_date);
    let b = candidate_date(ei_time);
    let c = candidate_date(display_time);
    (t, if t.len() == 0 { None } else if a is Some { a } else if b is Some { b } else { c })
}

/// A candidate date text, as plain characters, that may be read.
pub open spec fn seq_candidate_ok(s: Option<Seq<char>>) -> bool {
    s matches Some(x) ==> flexible_date_input_ok(x)
}

/// The date texts of an East Money entry that are read can be read: none
/// for an entry without a title, else the notice date, then the event time
/// when the notice date gives no date, then the display time likewise.
pub open spec fn em_readable_spec(
    title: Option<Seq<char>>,
    notice_date: Option<Seq<char>>,
    ei_time: Option<Seq<char>>,
    display_time: Option<Seq<char>>,
) -> bool {
    trim(or_empty(title)).len() == 0 || (seq_candidate_ok(notice_date) && (candidate_date(notice_date)
        is None ==> seq_candidate_ok(ei_time) && (candidate_date(ei_time) is None ==> seq_candidate_ok(
        display_time,
    ))))
}

/// `em_readable_spec` of an entry's texts.
pub open spec fn em_notice_readable(
    title: Option<&str>,
    notice_date: Option<&str>,
    ei_time: Option<&str>,
    display_time: Option<&str>,
) -> bool {
    em_readable_spec(opt_chars(title), opt_chars(notice_date), opt_chars(ei_time), opt_chars(display_time))
}

/// Reads an East Money announcement entry.
pub fn em_notice_item(
    title: Option<&str>,
    notice_date: Option<&str>,
    ei_time: Option<&str>,
    display_time: Option<&str>,
) -> (r: DatedTitle)
    requires
        em_notice_readable(title, notice_date, ei_time, display_time),
    ensures
        dated_view(r) == em_notice_spec(opt_chars(title), opt_chars(notice_date), opt_chars(ei_time), opt_chars(display_time)),
{
    let t = match title {
        Some(x) => trim_str(x),
        None => String::new(),
    };
    if to_chars(t.as_str()).len() == 0 {
        return DatedTitle { title: t, date: None };
    }
    let mut date = read_candidate(notice_date);
    if date.is_none() {
        date = read_candidate(ei_time);
    }
    if date.is_none() {
        date = read_candidate(display_time);
    }
    DatedTitle { title: t, date }
}

/// The title of a news search hit: its markup stripped.
pub open spec fn search_title(title: Option<Seq<char>>) -> Seq<char> {
    match title {
        Some(t) => strip_html_spec(t),
        None => Seq::empty(),
    }
}

/// A news search hit: the title with its markup stripped, and its date; a
/// hit without a title is skipped before its date is read.
pub fn search_item(title: Option<&str>, date: Option<&str>) -> (r: DatedTitle)
    requires
        search_title(opt_chars(title)).len() == 0 || candidate_ok(date),
    ensures
        r.title@ == search_title(opt_chars(title)),
        opt_days(r.date) == (if r.title@.len() == 0 { None } else { candidate_date(opt_chars(date)) }),
{
    let t = match title {
        Some(x) => strip_html(x),
        None => String::new(),
    };
    if to_chars(t.as_str()).len() == 0 {
        return DatedTitle { title: t, date: None };
    }
    DatedTitle { title: t, date: read_candidate(date) }
}

/// A cninfo announcement: the title trimmed, and the UTC date of its
/// millisecond timestamp.
pub fn cninfo_item(title: Option<&str>, time_ms: Option<i64>) -> (r: DatedTitle)
    ensures
        r.title@ == trim(or_empty(opt_chars(title))),
        opt_days(r.date) == (match time_ms {
            Some(ms) => utc_date_of_millis(ms as int),
            None => None,
        }),
{
    let t = match title {
        Some(x) => trim_str(x),
        None => String::new(),
    };
    let date = match time_ms {
        Some(ms) => ms_to_date(ms),
        None => None,
    };
    DatedTitle { title: t, date }
}

/// The error of a cninfo reply before its JSON is read: a failed status,
/// an empty body, or an HTML page.
pub open spec fn cninfo_reply_error_spec(status_ok: bool, status: Seq<char>, text: Seq<char>) -> Option<Seq<char>> {
    if !status_ok {
        Some("巨潮 HTTP "@ + status + ": "@ + preview_spec(text))
    } else if trim(text).len() == 0 {
        Some("巨潮返回空响应"@)
    } else if trim_front(text).len() > 0 && trim_front(text)[0] == '<' {
        Some("巨潮返回 HTML: "@ + preview_spec(text))
    } else {
        None
    }
}

/// Checks a cninfo reply before its JSON is read.
pub fn cninfo_reply_error(status_ok: bool, status: &str, text: &str) -> (r: Option<String>)
    ensures
        match r {
            Some(m) => cninfo_reply_error_spec(status_ok, status@, text@) == Some(m@),
            None => cninfo_reply_error_spec(status_ok, status@, text@) is None,
        },
{
    if !status_ok {
        let mut m = to_owned_string("巨潮 HTTP ");
        push_str(&mut m, status);
        push_str(&mut m, ": ");
        let p = preview(text);
        push_str(&mut m, p.as_str());
        return Some(m);
    }
    let t = trim_str(text);
    if to_chars(t.as_str()).len() == 0 {
        return Some(to_owned_string("巨潮返回空响应"));
    }
    let v = to_chars(text);
    let i = trim_front_index(&v);
    if i < v.len() && v[i] == '<' {
        let mut m = to_owned_string("巨潮返回 HTML: ");
        let p = preview(text);
        push_str(&mut m, p.as_str());
        return Some(m);
    }
    None
}

/// One source's outcome for the archive: its announcements, or its error.
pub open spec fn source_view(r: Result<Vec<Announcement>, String>) -> Result<Seq<(int, Seq<char>)>, Seq<char>> {
    match r {
        Ok(v) => Ok(keys(v@)),
        Err(e) => Err(e@),
    }
}

/// Index of the first source that returned announcements.
pub open spec fn first_filled(rs: Seq<Result<Seq<(int, Seq<char>)>, Seq<char>>>) -> Option<int>
    decreases rs.len(),
{
    if rs.len() == 0 {
        None
    } else if rs[0] matches Ok(v) && v.len() > 0 {
        Some(0)
    } else {
        match first_filled(rs.drop_first()) {
            Some(i) => Some(i + 1),
            None => None,
        }
    }
}

/// The errors of sources that gave nothing, joined by `；` (an empty list
/// counts as `空列表`).
pub open spec fn source_errors(rs: Seq<Result<Seq<(int, Seq<char>)>, Seq<char>>>) -> Seq<char>
    decreases rs.len(),
{
    if rs.len() == 0 {
        Seq::empty()
    } else {
        let here = match rs.last() {
            Ok(_) => "空列表"@,
            Err(e) => e,
        };
        if rs.len() == 1 {
            here
        } else {
            source_errors(rs.drop_last()) + "；"@ + here
        }
    }
}

/// Builds the archive from the sources' outcomes, in order of preference:
/// the first source with announcements is used, sorted and without
/// duplicates; when none has any, the error lists what each source said.
pub fn pick_archive(results: Vec<Result<Vec<Announcement>, String>>) -> (r: Result<MessageArchive, String>)
    ensures
        first_filled(results@.map_values(|x: Result<Vec<Announcement>, String>| source_view(x))) matches Some(i) ==> (
            r matches Ok(a) && strictly_sorted_keys(keys(a.items_view()), false)
            && forall|k: (int, Seq<char>)| keys(a.items_view()).contains(k) <==> (
                results@.map_values(|x: Result<Vec<Announcement>, String>| source_view(x))[i] matches Ok(v) && v.contains(k))),
        first_filled(results@.map_values(|x: Result<Vec<Announcement>, String>| source_view(x))) is None ==> (
            r matches Err(e) && e@ == source_errors(results@.map_values(|x: Result<Vec<Announcement>, String>| source_view(x)))),
{
    let ghost rv = results@.map_values(|x: Result<Vec<Announcement>, String>| source_view(x));
    let mut msg = String::new();
    let mut rest = results;
    let ghost all = rest@;
    let mut i: usize = 0;
    let n = rest.len();
    proof {
        assert(all.skip(0) =~= all);
        assert(rv.skip(0) =~= rv);
    }
    while i < n
        invariant
            n == all.len(),
            i <= n,
            rv == all.map_values(|x: Result<Vec<Announcement>, String>| source_view(x)),
            rv == results@.map_values(|x: Result<Vec<Announcement>, String>| source_view(x)),
            rest@ =~= all.skip(i as int),
            first_filled(rv) == (match first_filled(rv.skip(i as int)) {
                Some(j) => Some(j + i),
                None => None,
            }),
            i > 0 ==> msg@ == source_errors(rv.take(i as int)),
            i == 0 ==> msg@ == Seq::<char>::empty(),
        decreases n - i,
    {
        let item = rest.remove(0);
        assert(item == all[i as int]);
        assert(rv.skip(i as int)[0] == source_view(item));
        assert(rv.skip(i as int).drop_first() =~= rv.skip(i as int + 1));
        assert(rv.take(i as int + 1).drop_last() =~= rv.take(i as int));
        assert(rv.take(i as int + 1).last() == source_view(item));
        match item {
            Ok(v) => {
                if v.len() > 0 {
                    proof {
                        let kv = keys(v@);
                        assert(rv.skip(i as int)[0] == Ok::<Seq<(int, Seq<char>)>, Seq<char>>(kv));
                        assert(kv.len() > 0);
                        assert(first_filled(rv.skip(i as int)) == Some(0int));
                        assert(rv[i as int] == rv.skip(i as int)[0]);
                    }
                    let sorted = dedupe_sort(v);
                    return Ok(MessageArchive::from_items(sorted));
                }
                if i > 0 {
                    push_str(&mut msg, "；");
                }
                push_str(&mut msg, "空列表");
            },
            Err(e) => {
                if i > 0 {
                    push_str(&mut msg, "；");
                }
                push_str(&mut msg, e.as_str());
            },
        }
        proof {
            if i == 0 {
                assert(rv.take(1).len() == 1);
            }
        }
        i += 1;
    }
    proof {
        assert(rv.skip(n as int).len() == 0);
        assert(rv.take(n as int) =~= rv);
        if n == 0 {
            assert(rv.len() == 0);
        }
    }
    Err(msg)
}

/// Entries per page of East Money's announcement list.
pub const EM_PAGE_SIZE: usize = 50;
/// Pages read at most from East Money's announcement list.
pub const EM_MAX_PAGES: u32 = 10;
/// Entries per page of cninfo's announcement query.
pub const CNINFO_PAGE_SIZE: usize = 30;
/// Pages read at most from cninfo.
pub const CNINFO_MAX_PAGES: u32 = 8;
/// Entries per page of the news search.
pub const SEARCH_PAGE_SIZE: usize = 20;

/// A month or day as chrono writes it: two digits, zero-padded.
pub open spec fn two_digits(n: int) -> Seq<char> {
    zero_pad(decimal_spec(n as nat), 2)
}

/// A year as chrono writes it: four digits within 0 to 9999, else a sign
/// and at least four digits.
pub open spec fn year_text(y: int) -> Seq<char> {
    if 0 <= y <= 9999 {
        zero_pad(decimal_spec(y as nat), 4)
    } else if y < 0 {
        seq!['-'] + zero_pad(decimal_spec((-y) as nat), 4)
    } else {
        seq!['+'] + zero_pad(decimal_spec(y as nat), 4)
    }
}

/// The ISO text of a date (`2025-01-31`), empty outside chrono's range.
pub open spec fn iso_date_text(days: int) -> Seq<char> {
    match civil_from_days(days) {
        Some(t) => year_text(t.0) + seq!['-'] + two_digits(t.1) + seq!['-'] + two_digits(t.2),
        None => Seq::empty(),
    }
}

/// `NaiveDate::from_num_days_from_ce_opt` and its `Display` (chrono).
/// Claims that the text is `iso_date_text` of the day number: the year,
/// then the month and day in two digits, joined by `-`.
#[verifier::external_body]
fn date_text(d: Date) -> (r: String)
    requires
        MIN_DAYS <= d.days <= MAX_DAYS,
    ensures
        r@ == iso_date_text(d.days as int),
{
    NaiveDate::from_num_days_from_ce_opt(d.days).map(|x| x.to_string()).unwrap_or_default()
}

/// The error East Money's list gives when its first page is empty.
pub fn em_empty_list_error(page: u32) -> (r: Option<String>)
    ensures
        page == 1 ==> (r matches Some(m) && m@ == "东财公告列表为空"@),
        page != 1 ==> r is None,
{
    if page == 1 {
        Some(to_owned_string("东财公告列表为空"))
    } else {
        None
    }
}

/// The outcome of reading East Money's announcements: the ones in the
/// window, or why there are none (the last error, entries that all fell
/// outside the window, or no entry at all).
pub open spec fn em_outcome_spec(
    out: Seq<(int, Seq<char>)>,
    last_error: Seq<char>,
    saw_any: bool,
    start: int,
    end: int,
) -> Result<Seq<(int, Seq<char>)>, Seq<char>> {
    if out.len() > 0 {
        Ok(out)
    } else if last_error.len() > 0 {
        Err(last_error)
    } else if saw_any {
        Err("东财公告不在区间 "@ + iso_date_text(start) + "~"@ + iso_date_text(end))
    } else {
        Err("东财公告为空"@)
    }
}

/// Concludes a read of East Money's announcements.
pub fn em_ann_outcome(out: Vec<Announcement>, last_error: String, saw_any: bool, start: Date, end: Date) -> (r: Result<Vec<Announcement>, String>)
    requires
        MIN_DAYS <= start.days <= MAX_DAYS,
        MIN_DAYS <= end.days <= MAX_DAYS,
    ensures
        source_view(r) == em_outcome_spec(keys(out@), last_error@, saw_any, start.days as int, end.days as int),
{
    if out.len() > 0 {
        return Ok(out);
    }
    if to_chars(last_error.as_str()).len() > 0 {
        return Err(last_error);
    }
    if saw_any {
        let mut m = to_owned_string("东财公告不在区间 ");
        let a = date_text(start);
        let b = date_text(end);
        push_str(&mut m, a.as_str());
        push_str(&mut m, "~");
        push_str(&mut m, b.as_str());
        return Err(m);
    }
    Err(to_owned_string("东财公告为空"))
}

/// Concludes a read of cninfo: an error when nothing was found.
pub fn cninfo_outcome(out: Vec<Announcement>) -> (r: Result<Vec<Announcement>, String>)
    ensures
        out@.len() > 0 ==> source_view(r) == Ok::<Seq<(int, Seq<char>)>, Seq<char>>(keys(out@)),
        out@.len() == 0 ==> source_view(r) == Err::<Seq<(int, Seq<char>)>, Seq<char>>("巨潮无公告"@),
{
    if out.len() > 0 {
        Ok(out)
    } else {
        Err(to_owned_string("巨潮无公告"))
    }
}

/// Whether cninfo has another page: it says so, and this one was full.
pub fn cninfo_continues(has_more: bool, n: usize) -> (r: bool)
    ensures
        r == (has_more && n >= CNINFO_PAGE_SIZE),
{
    has_more && n >= CNINFO_PAGE_SIZE
}

/// Pages of news search run for the `i`-th query: four for the security's
/// own query, two for each extra one.
pub fn search_pages(i: usize) -> (r: u32)
    ensures
        r == (if i == 0 { 4u32 } else { 2u32 }),
{
    if i == 0 {
        4
    } else {
        2
    }
}

/// Strings joined by `；`.
pub open spec fn join_semicolon(ws: Seq<Seq<char>>) -> Seq<char>
    decreases ws.len(),
{
    if ws.len() == 0 {
        Seq::empty()
    } else if ws.len() == 1 {
        ws[0]
    } else {
        join_semicolon(ws.drop_last()) + "；"@ + ws.last()
    }
}

/// Joins messages with `；`.
pub fn join_messages(ws: &[String]) -> (r: String)
    ensures
        r@ == join_semicolon(ws@.map_values(|s: String| s@)),
{
    let ghost wv = ws@.map_values(|s: String| s@);
    let mut msg = String::new();
    let mut i: usize = 0;
    while i < ws.len()
        invariant
            i <= ws.len(),
            wv == ws@.map_values(|s: String| s@),
            msg@ == join_semicolon(wv.take(i as int)),
        decreases ws.len() - i,
    {
        assert(wv.take(i as int + 1).drop_last() =~= wv.take(i as int));
        assert(wv.take(i as int + 1).last() == ws@[i as int]@);
        if i > 0 {
            push_str(&mut msg, "；");
        }
        push_str(&mut msg, ws[i].as_str());
        proof {
            if i == 0 {
                assert(msg@ =~= join_semicolon(wv.take(1)));
            } else {
                assert(msg@ =~= join_semicolon(wv.take(i as int)) + "；"@ + ws@[i as int]@);
            }
        }
        i += 1;
    }
    assert(wv.take(ws.len() as int) =~= wv);
    msg
}

/// Concludes the news search over all queries: what was found, or the
/// queries' errors (or a note that nothing was found).
pub fn search_outcome(out: Vec<Announcement>, errors: &[String]) -> (r: Result<Vec<Announcement>, String>)
    ensures
        out@.len() > 0 ==> source_view(r) == Ok::<Seq<(int, Seq<char>)>, Seq<char>>(keys(out@)),
        out@.len() == 0 && errors@.len() == 0 ==> source_view(r) == Err::<Seq<(int, Seq<char>)>, Seq<char>>("资讯搜索无结果"@),
        out@.len() == 0 && errors@.len() > 0 ==> source_view(r) == Err::<Seq<(int, Seq<char>)>, Seq<char>>(
            join_semicolon(errors@.map_values(|s: String| s@)),
        ),
{
    if out.len() > 0 {
        Ok(out)
    } else if errors.len() == 0 {
        Err(to_owned_string("资讯搜索无结果"))
    } else {
        Err(join_messages(errors))
    }
}

/// Every announcement a page contributes lies inside the window.
pub proof fn law_accepted_within_window(items: Seq<(Seq<char>, Option<int>)>, start: int, end: int, i: int)
    requires
        0 <= i < scan_spec(items, start, end).0.len(),
    ensures
        start <= scan_spec(items, start, end).0[i].0 <= end,
        scan_spec(items, start, end).0[i].1.len() > 0,
    decreases items.len(),
{
    if items.len() > 0 {
        let prev = scan_spec(items.drop_last(), start, end);
        if i < prev.0.len() {
            law_accepted_within_window(items.drop_last(), start, end, i);
        }
    }
}

/// An entry of cninfo's code search: its code and its organisation id.
#[derive(Clone, Debug)]
pub struct OrgHit {
    pub code: Option<String>,
    pub org_id: Option<String>,
}

/// An entry as plain values.
pub open spec fn org_hit_view(h: OrgHit) -> (Option<Seq<char>>, Option<Seq<char>>) {
    (
        match h.code {
            Some(c) => Some(c@),
            None => None,
        },
        match h.org_id {
            Some(o) => Some(o@),
            None => None,
        },
    )
}

/// Index of the first hit whose code normalises to `code`.
pub open spec fn first_code_match(hits: Seq<(Option<Seq<char>>, Option<Seq<char>>)>, code: Seq<char>) -> Option<int>
    decreases hits.len(),
{
    if hits.len() == 0 {
        None
    } else if hits[0].0 matches Some(c) && six_digit_code(c) == code {
        Some(0)
    } else {
        match first_code_match(hits.drop_first(), code) {
            Some(k) => Some(k + 1),
            None => None,
        }
    }
}

/// A non-empty organisation id, if the hit has one.
pub open spec fn usable_org(o: Option<Seq<char>>) -> Option<Seq<char>> {
    match o {
        Some(x) => if x.len() > 0 { Some(x) } else { None },
        None => None,
    }
}

/// The organisation id used for a code: that of the first hit with the
/// same code (when it has one), or without such a hit that of the first
/// hit, else the guess.
pub open spec fn org_id_spec(hits: Seq<(Option<Seq<char>>, Option<Seq<char>>)>, code: Seq<char>, guess: Seq<char>) -> Seq<char> {
    match first_code_match(hits, code) {
        Some(k) => match usable_org(hits[k].1) {
            Some(x) => x,
            None => guess,
        },
        None => if hits.len() > 0 && usable_org(hits[0].1) is Some {
            usable_org(hits[0].1)->0
        } else {
            guess
        },
    }
}

fn usable_org_of(o: &Option<String>) -> (r: Option<String>)
    ensures
        match r {
            Some(x) => usable_org(match *o { Some(y) => Some(y@), None => None }) == Some(x@),
            None => usable_org(match *o { Some(y) => Some(y@), None => None }) is None,
        },
{
    match o {
        Some(x) => {
            if to_chars(x.as_str()).len() > 0 {
                Some(to_owned_string(x.as_str()))
            } else {
                None
            }
        },
        None => None,
    }
}

/// Chooses cninfo's organisation id for a six-digit code from its code
/// search, falling back on `guess`.
pub fn choose_org_id(hits: &[OrgHit], code: &str, guess: String) -> (r: String)
    ensures
        r@ == org_id_spec(hits@.map_values(|h: OrgHit| org_hit_view(h)), code@, guess@),
{
    let ghost hv = hits@.map_values(|h: OrgHit| org_hit_view(h));
    let mut i: usize = 0;
    assert(hv.skip(0) =~= hv);
    while i < hits.len()
        invariant
            i <= hits.len(),
            hv == hits@.map_values(|h: OrgHit| org_hit_view(h)),
            first_code_match(hv, code@) == (match first_code_match(hv.skip(i as int), code@) {
                Some(k) => Some(k + i),
                None => None,
            }),
        decreases hits.len() - i,
    {
        assert(hv.skip(i as int)[0] == org_hit_view(hits@[i as int]));
        assert(hv.skip(i as int).drop_first() =~= hv.skip(i as int + 1));
        let matched = match &hits[i].code {
            Some(c) => {
                let n = normalize_code(c.as_str());
                crate::text::str_eq(n.as_str(), code)
            },
            None => false,
        };
        if matched {
            assert(first_code_match(hv, code@) == Some(i as int));
            return match usable_org_of(&hits[i].org_id) {
                Some(x) => x,
                None => guess,
            };
        }
        i += 1;
    }
    assert(first_code_match(hv, code@) is None);
    if hits.len() > 0 {
        assert(hv[0] == org_hit_view(hits@[0]));
        match usable_org_of(&hits[0].org_id) {
            Some(x) => x,
            None => guess,
        }
    } else {
        guess
    }
}

} // verus!
