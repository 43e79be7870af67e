//! Reading the replies of the announcement and news sources: serde_json
//! decodes a reply's JSON and hands over the fields that are read; which
//! field counts, how an entry is dated and what a page contributes is
//! decided here.

use vstd::prelude::*;
use crate::calendar::{date_text_ok, opt_days, utc_date_of_millis, Date};
use crate::cninfo::{strip_html, extract_json_body, json_body_input_ok, json_body_ok, json_body_spec, keys, preview, preview_spec};
use crate::notices::{
    candidate_date, candidate_ok, cninfo_continues, cninfo_item, dated_view, em_notice_item, em_notice_readable,
    em_notice_spec, em_readable_spec, opt_chars, or_empty, page_continues, read_candidate, scan_page, scan_spec,
    search_item, search_title, seq_candidate_ok, DatedTitle, OrgHit, PageScan, CNINFO_PAGE_SIZE, EM_PAGE_SIZE,
    SEARCH_PAGE_SIZE, choose_org_id, org_hit_view, org_id_spec,
};
use crate::text::{push_str, to_chars, to_owned_string, trim, trim_str, first_index_of, last_index_of, string_of_range, chars_find, chars_rfind};

verus! {

/// An optional string as plain characters.
pub open spec fn opt_string_view(s: Option<String>) -> Option<Seq<char>> {
    match s {
        Some(x) => Some(x@),
        None => None,
    }
}

/// A list that may be missing, read as empty when it is.
pub open spec fn list_or_empty<T>(l: Option<Seq<T>>) -> Seq<T> {
    match l {
        Some(x) => x,
        None => Seq::empty(),
    }
}

fn opt_ref(s: &Option<String>) -> (r: Option<&str>)
    ensures
        opt_chars(r) == opt_string_view(*s),
{
    match s {
        Some(x) => Some(x.as_str()),
        None => None,
    }
}

fn candidate_readable(s: Option<&str>) -> (r: bool)
    ensures
        r == candidate_ok(s),
{
    match s {
        Some(x) => date_text_ok(x),
        None => true,
    }
}

/// The error of a reply whose JSON does not decode: the source's words,
/// serde_json's message and a preview of the reply.
pub open spec fn json_error_spec(prefix: Seq<char>, e: Seq<char>, text: Seq<char>) -> Seq<char> {
    prefix + e + " · "@ + preview_spec(text)
}

fn json_error(prefix: &str, e: &str, text: &str) -> (r: String)
    ensures
        r@ == json_error_spec(prefix@, e@, text@),
{
    let mut m = to_owned_string(prefix);
    push_str(&mut m, e);
    push_str(&mut m, " · ");
    let p = preview(text);
    push_str(&mut m, p.as_str());
    proof {
        reveal_strlit(" · ");
    }
    m
}

/// What one page of a source gives: its scan, how many entries it listed,
/// and whether the next page is to be read.
#[derive(Debug)]
pub struct PageRead {
    pub scan: PageScan,
    pub count: usize,
    pub more: bool,
}

/// A page read as plain values: `None` where a text that is read cannot
/// be, else the error or the accepted keys, oldest date, count and
/// whether to go on.
pub open spec fn page_read_view(r: Option<Result<PageRead, String>>) -> Option<
    Result<(Seq<(int, Seq<char>)>, Option<int>, int, bool), Seq<char>>,
> {
    match r {
        None => None,
        Some(Err(e)) => Some(Err(e@)),
        Some(Ok(p)) => Some(Ok((keys(p.scan.accepted@), opt_days(p.scan.oldest), p.count as int, p.more))),
    }
}

/// Whether a list page is followed by another: it did not reach back
/// before `start` and was full.
pub open spec fn page_more(oldest: Option<int>, start: int, n: int, size: int) -> bool {
    !(oldest matches Some(o) && o < start) && n >= size
}

// ---------------------------------------------------------------- East Money

/// The fields of an East Money announcement entry that are read.
#[derive(Clone, Debug)]
pub struct EmFields {
    /// Whether the entry has a `title_ch` key (whatever its value).
    pub has_title_ch: bool,
    pub title_ch: Option<String>,
    pub title: Option<String>,
    pub notice_date: Option<String>,
    pub ei_time: Option<String>,
    pub display_time: Option<String>,
}

/// An East Money entry as plain values.
pub open spec fn em_fields_view(f: EmFields) -> (bool, Option<Seq<char>>, Option<Seq<char>>, Option<Seq<char>>, Option<Seq<char>>, Option<Seq<char>>) {
    (
        f.has_title_ch,
        opt_string_view(f.title_ch),
        opt_string_view(f.title),
        opt_string_view(f.notice_date),
        opt_string_view(f.ei_time),
        opt_string_view(f.display_time),
    )
}

/// A decoded East Money page as plain values.
pub open spec fn em_decoded_view(d: Result<Option<Vec<EmFields>>, String>) -> Result<
    Option<Seq<(bool, Option<Seq<char>>, Option<Seq<char>>, Option<Seq<char>>, Option<Seq<char>>, Option<Seq<char>>)>>,
    Seq<char>,
> {
    match d {
        Ok(Some(v)) => Ok(Some(v@.map_values(|f: EmFields| em_fields_view(f)))),
        Ok(None) => Ok(None),
        Err(e) => Err(e@),
    }
}

/// What serde_json reads from the JSON text `body` of East Money's
/// announcement list: for each entry of `/data/list` (`None` when that is
/// no array), whether it has a `title_ch` key, and the string values of
/// `title_ch`, `title`, `notice_date`, `eiTime` and `display_time`; `Err`
/// with serde_json's message where `body` is no JSON.
pub uninterp spec fn em_page_fields(body: Seq<char>) -> Result<
    Option<Seq<(bool, Option<Seq<char>>, Option<Seq<char>>, Option<Seq<char>>, Option<Seq<char>>, Option<Seq<char>>)>>,
    Seq<char>,
>;

/// `serde_json::from_str` into a `serde_json::Value`, then the fields of
/// the entries of `/data/list`. Claims: the result is `em_page_fields` of
/// the text.
#[verifier::external_body]
fn decode_em_page(body: &str) -> (r: Result<Option<Vec<EmFields>>, String>)
    ensures
        em_decoded_view(r) == em_page_fields(body@),
{
    let v: serde_json::Value = serde_json::from_str(body).map_err(|e| e.to_string())?;
    let s = |i: &serde_json::Value, k: &str| i.get(k).and_then(|x| x.as_str()).map(String::from);
    Ok(v.pointer("/data/list").and_then(|x| x.as_array()).map(|l| l.iter().map(|i| EmFields {
        has_title_ch: i.get("title_ch").is_some(), title_ch: s(i, "title_ch"), title: s(i, "title"),
        notice_date: s(i, "notice_date"), ei_time: s(i, "eiTime"), display_time: s(i, "display_time"),
    }).collect()))
}

/// The title of an East Money entry: `title_ch` where the key is there,
/// else `title`.
pub open spec fn em_entry_title(f: (bool, Option<Seq<char>>, Option<Seq<char>>, Option<Seq<char>>, Option<Seq<char>>, Option<Seq<char>>)) -> Option<Seq<char>> {
    if f.0 {
        f.1
    } else {
        f.2
    }
}

/// The date texts of an East Money entry that are read can be read.
pub open spec fn em_entry_readable(f: (bool, Option<Seq<char>>, Option<Seq<char>>, Option<Seq<char>>, Option<Seq<char>>, Option<Seq<char>>)) -> bool {
    em_readable_spec(em_entry_title(f), f.3, f.4, f.5)
}

/// An East Money entry read as a title and a date.
pub open spec fn em_entry_item(f: (bool, Option<Seq<char>>, Option<Seq<char>>, Option<Seq<char>>, Option<Seq<char>>, Option<Seq<char>>)) -> (Seq<char>, Option<int>) {
    em_notice_spec(em_entry_title(f), f.3, f.4, f.5)
}

/// What a decoded page of East Money's list gives: its error where the JSON
/// did not decode; `None` where an entry's date text that is read cannot
/// be; else the scan of its entries (a missing list is empty), their count
/// and whether to read on.
pub open spec fn em_read_spec(
    text: Seq<char>,
    decoded: Result<Option<Seq<(bool, Option<Seq<char>>, Option<Seq<char>>, Option<Seq<char>>, Option<Seq<char>>, Option<Seq<char>>)>>, Seq<char>>,
    start: int,
    end: int,
) -> Option<Result<(Seq<(int, Seq<char>)>, Option<int>, int, bool), Seq<char>>> {
    match decoded {
        Err(e) => Some(Err(json_error_spec("东财公告 JSON 失败: "@, e, text))),
        Ok(l) => {
            let fs = list_or_empty(l);
            if forall|k: int| 0 <= k < fs.len() ==> em_entry_readable(#[trigger] fs[k]) {
                let s = scan_spec(fs.map_values(|f: (bool, Option<Seq<char>>, Option<Seq<char>>, Option<Seq<char>>, Option<Seq<char>>, Option<Seq<char>>)| em_entry_item(f)), start, end);
                Some(Ok((s.0, s.1, fs.len() as int, page_more(s.1, start, fs.len() as int, EM_PAGE_SIZE as int))))
            } else {
                None
            }
        },
    }
}

/// What a reply of East Money's list gives: `None` where its JSON body
/// cannot be cut out, else `em_read_spec` of what serde_json reads there.
pub open spec fn em_page_spec(text: Seq<char>, start: int, end: int) -> Option<
    Result<(Seq<(int, Seq<char>)>, Option<int>, int, bool), Seq<char>>,
> {
    if json_body_input_ok(text) {
        em_read_spec(text, em_page_fields(json_body_spec(text)), start, end)
    } else {
        None
    }
}

fn em_notice_try(
    title: Option<&str>,
    notice_date: Option<&str>,
    ei_time: Option<&str>,
    display_time: Option<&str>,
) -> (r: Option<DatedTitle>)
    ensures
        r is None <==> !em_notice_readable(title, notice_date, ei_time, display_time),
        r matches Some(x) ==> dated_view(x) == em_notice_spec(
            opt_chars(title),
            opt_chars(notice_date),
            opt_chars(ei_time),
            opt_chars(display_time),
        ),
{
    let t = match title {
        Some(x) => trim_str(x),
        None => String::new(),
    };
    if to_chars(t.as_str()).len() > 0 {
        if !candidate_readable(notice_date) {
            return None;
        }
        if read_candidate(notice_date).is_none() {
            if !candidate_readable(ei_time) {
                return None;
            }
            if read_candidate(ei_time).is_none() && !candidate_readable(display_time) {
                return None;
            }
        }
    }
    Some(em_notice_item(title, notice_date, ei_time, display_time))
}

/// Reads one decoded page of East Money's announcement list for the window
/// `[start, end]`; `text` is the reply, quoted when its JSON did not decode.
pub fn em_page_read(text: &str, decoded: Result<Option<Vec<EmFields>>, String>, start: Date, end: Date) -> (r: Option<
    Result<PageRead, String>,
>)
    ensures
        page_read_view(r) == em_read_spec(text@, em_decoded_view(decoded), start.days as int, end.days as int),
{
    let ghost dv = em_decoded_view(decoded);
    let fields = match decoded {
        Err(e) => {
            return Some(Err(json_error("东财公告 JSON 失败: ", e.as_str(), text)));
        },
        Ok(Some(v)) => v,
        Ok(None) => Vec::new(),
    };
    let ghost fs = fields@.map_values(|f: EmFields| em_fields_view(f));
    assert(fs =~= list_or_empty(dv->Ok_0));
    let mut items: Vec<DatedTitle> = Vec::new();
    let mut i: usize = 0;
    while i < fields.len()
        invariant
            i <= fields.len(),
            fs == fields@.map_values(|f: EmFields| em_fields_view(f)),
            dv == em_decoded_view(decoded),
            dv is Ok,
            list_or_empty(dv->Ok_0) == fs,
            items@.map_values(|x: DatedTitle| dated_view(x)) =~= fs.take(i as int).map_values(
                |f: (bool, Option<Seq<char>>, Option<Seq<char>>, Option<Seq<char>>, Option<Seq<char>>, Option<Seq<char>>)| em_entry_item(f),
            ),
            forall|k: int| 0 <= k < i ==> em_entry_readable(#[trigger] fs[k]),
        decreases fields.len() - i,
    {
        let f = &fields[i];
        assert(fs[i as int] == em_fields_view(fields@[i as int]));
        let title = if f.has_title_ch {
            opt_ref(&f.title_ch)
        } else {
            opt_ref(&f.title)
        };
        match em_notice_try(title, opt_ref(&f.notice_date), opt_ref(&f.ei_time), opt_ref(&f.display_time)) {
            Some(x) => {
                let ghost before = items@;
                items.push(x);
                assert(fs.take(i as int + 1) =~= fs.take(i as int).push(fs[i as int]));
                assert(items@.map_values(|x: DatedTitle| dated_view(x)) =~= before.map_values(
                    |x: DatedTitle| dated_view(x),
                ).push(dated_view(x)));
            },
            None => {
                let ghost fi = fs[i as int];
                assert(opt_chars(title) == em_entry_title(fi));
                assert(!em_entry_readable(fi));
                assert(dv is Ok && list_or_empty(dv->Ok_0) == fs);
                assert(!(forall|k: int| 0 <= k < fs.len() ==> em_entry_readable(#[trigger] fs[k])));
                return None;
            },
        }
        i += 1;
    }
    assert(fs.take(fields.len() as int) =~= fs);
    let n = fields.len();
    let scan = scan_page(&items, start, end);
    let more = page_continues(scan.oldest, start, n, EM_PAGE_SIZE);
    Some(Ok(PageRead { scan, count: n, more }))
}

/// Reads one reply of East Money's announcement list for the window
/// `[start, end]`: `None` where the original reading cannot go on (a JSON
/// body that cannot be cut out, or a date text that cannot be read).
pub fn em_page(text: &str, start: Date, end: Date) -> (r: Option<Result<PageRead, String>>)
    ensures
        page_read_view(r) == em_page_spec(text@, start.days as int, end.days as int),
{
    if !json_body_ok(text) {
        return None;
    }
    let body = extract_json_body(text);
    em_page_read(text, decode_em_page(body.as_str()), start, end)
}

// ---------------------------------------------------------------- cninfo

/// The fields of a cninfo announcement that are read.
#[derive(Clone, Debug)]
pub struct CninfoFields {
    /// Whether the entry has an `announcementTitle` key (whatever its value).
    pub has_announcement_title: bool,
    pub announcement_title: Option<String>,
    pub short_title: Option<String>,
    /// `announcementTime` where it is an integer (milliseconds).
    pub announcement_time: Option<i64>,
}

/// A cninfo entry as plain values.
pub open spec fn cninfo_fields_view(f: CninfoFields) -> (bool, Option<Seq<char>>, Option<Seq<char>>, Option<i64>) {
    (f.has_announcement_title, opt_string_view(f.announcement_title), opt_string_view(f.short_title), f.announcement_time)
}

/// A decoded cninfo page as plain values.
pub open spec fn cninfo_decoded_view(d: Result<(Option<Vec<CninfoFields>>, Option<bool>), String>) -> Result<
    (Option<Seq<(bool, Option<Seq<char>>, Option<Seq<char>>, Option<i64>)>>, Option<bool>),
    Seq<char>,
> {
    match d {
        Ok((Some(v), m)) => Ok((Some(v@.map_values(|f: CninfoFields| cninfo_fields_view(f))), m)),
        Ok((None, m)) => Ok((None, m)),
        Err(e) => Err(e@),
    }
}

/// What serde_json reads from the JSON text `body` of cninfo's announcement
/// query: for each entry of `announcements` (`None` when that is no array),
/// whether it has an `announcementTitle` key, the string values of
/// `announcementTitle` and `shortTitle` and the integer value of
/// `announcementTime`; and the boolean value of `hasMore`; `Err` with
/// serde_json's message where `body` is no JSON.
pub uninterp spec fn cninfo_page_fields(body: Seq<char>) -> Result<
    (Option<Seq<(bool, Option<Seq<char>>, Option<Seq<char>>, Option<i64>)>>, Option<bool>),
    Seq<char>,
>;

/// `serde_json::from_str` into a `serde_json::Value`, then the fields of
/// the entries of `announcements` and `hasMore`. Claims: the result is
/// `cninfo_page_fields` of the text.
#[verifier::external_body]
fn decode_cninfo_page(body: &str) -> (r: Result<(Option<Vec<CninfoFields>>, Option<bool>), String>)
    ensures
        cninfo_decoded_view(r) == cninfo_page_fields(body@),
{
    let v: serde_json::Value = serde_json::from_str(body).map_err(|e| e.to_string())?;
    let s = |i: &serde_json::Value, k: &str| i.get(k).and_then(|x| x.as_str()).map(String::from);
    let list = v.get("announcements").and_then(|x| x.as_array()).map(|l| l.iter().map(|i| CninfoFields {
        has_announcement_title: i.get("announcementTitle").is_some(), announcement_title: s(i, "announcementTitle"),
        short_title: s(i, "shortTitle"), announcement_time: i.get("announcementTime").and_then(|x| x.as_i64()),
    }).collect());
    Ok((list, v.get("hasMore").and_then(|x| x.as_bool())))
}

/// The title of a cninfo entry: `announcementTitle` where the key is there,
/// else `shortTitle`.
pub open spec fn cninfo_entry_title(f: (bool, Option<Seq<char>>, Option<Seq<char>>, Option<i64>)) -> Option<Seq<char>> {
    if f.0 {
        f.1
    } else {
        f.2
    }
}

/// A cninfo entry read as a title and a date.
pub open spec fn cninfo_entry_item(f: (bool, Option<Seq<char>>, Option<Seq<char>>, Option<i64>)) -> (Seq<char>, Option<int>) {
    (
        trim(or_empty(cninfo_entry_title(f))),
        match f.3 {
            Some(ms) => utc_date_of_millis(ms as int),
            None => None,
        },
    )
}

/// What a decoded cninfo page gives: its error where the JSON did not
/// decode, else the scan of its entries (a missing list is empty), their
/// count and whether to read on (`hasMore`, false when missing, and a full
/// page).
pub open spec fn cninfo_read_spec(
    text: Seq<char>,
    decoded: Result<(Option<Seq<(bool, Option<Seq<char>>, Option<Seq<char>>, Option<i64>)>>, Option<bool>), Seq<char>>,
    start: int,
    end: int,
) -> Option<Result<(Seq<(int, Seq<char>)>, Option<int>, int, bool), Seq<char>>> {
    match decoded {
        Err(e) => Some(Err(json_error_spec("巨潮 JSON 解析失败: "@, e, text))),
        Ok((l, m)) => {
            let fs = list_or_empty(l);
            let s = scan_spec(fs.map_values(|f: (bool, Option<Seq<char>>, Option<Seq<char>>, Option<i64>)| cninfo_entry_item(f)), start, end);
            Some(Ok((s.0, s.1, fs.len() as int, m == Some(true) && fs.len() >= CNINFO_PAGE_SIZE)))
        },
    }
}

/// What a reply of cninfo's query gives: `None` where its JSON body cannot
/// be cut out, else `cninfo_read_spec` of what serde_json reads there.
pub open spec fn cninfo_page_spec(text: Seq<char>, start: int, end: int) -> Option<
    Result<(Seq<(int, Seq<char>)>, Option<int>, int, bool), Seq<char>>,
> {
    if json_body_input_ok(text) {
        cninfo_read_spec(text, cninfo_page_fields(json_body_spec(text)), start, end)
    } else {
        None
    }
}

/// Reads one decoded page of cninfo's query for the window `[start, end]`;
/// `text` is the reply, quoted when its JSON did not decode.
pub fn cninfo_page_read(
    text: &str,
    decoded: Result<(Option<Vec<CninfoFields>>, Option<bool>), String>,
    start: Date,
    end: Date,
) -> (r: Option<Result<PageRead, String>>)
    ensures
        page_read_view(r) == cninfo_read_spec(text@, cninfo_decoded_view(decoded), start.days as int, end.days as int),
{
    let ghost dv = cninfo_decoded_view(decoded);
    let (list, has_more) = match decoded {
        Err(e) => {
            return Some(Err(json_error("巨潮 JSON 解析失败: ", e.as_str(), text)));
        },
        Ok(x) => x,
    };
    let fields = match list {
        Some(v) => v,
        None => Vec::new(),
    };
    let ghost fs = fields@.map_values(|f: CninfoFields| cninfo_fields_view(f));
    assert(fs =~= list_or_empty(dv->Ok_0.0));
    let mut items: Vec<DatedTitle> = Vec::new();
    let mut i: usize = 0;
    while i < fields.len()
        invariant
            i <= fields.len(),
            fs == fields@.map_values(|f: CninfoFields| cninfo_fields_view(f)),
            items@.map_values(|x: DatedTitle| dated_view(x)) =~= fs.take(i as int).map_values(
                |f: (bool, Option<Seq<char>>, Option<Seq<char>>, Option<i64>)| cninfo_entry_item(f),
            ),
        decreases fields.len() - i,
    {
        let f = &fields[i];
        assert(fs[i as int] == cninfo_fields_view(fields@[i as int]));
        let title = if f.has_announcement_title {
            opt_ref(&f.announcement_title)
        } else {
            opt_ref(&f.short_title)
        };
        let x = cninfo_item(title, f.announcement_time);
        let ghost before = items@;
        items.push(x);
        assert(fs.take(i as int + 1) =~= fs.take(i as int).push(fs[i as int]));
        assert(items@.map_values(|x: DatedTitle| dated_view(x)) =~= before.map_values(|x: DatedTitle| dated_view(x)).push(
            dated_view(x),
        ));
        i += 1;
    }
    assert(fs.take(fields.len() as int) =~= fs);
    let n = fields.len();
    let scan = scan_page(&items, start, end);
    let more = cninfo_continues(
        match has_more {
            Some(b) => b,
            None => false,
        },
        n,
    );
    Some(Ok(PageRead { scan, count: n, more }))
}

/// Reads one reply of cninfo's query for the window `[start, end]`: `None`
/// where its JSON body cannot be cut out.
pub fn cninfo_page(text: &str, start: Date, end: Date) -> (r: Option<Result<PageRead, String>>)
    ensures
        page_read_view(r) == cninfo_page_spec(text@, start.days as int, end.days as int),
{
    if !json_body_ok(text) {
        return None;
    }
    let body = extract_json_body(text);
    cninfo_page_read(text, decode_cninfo_page(body.as_str()), start, end)
}

// ---------------------------------------------------------------- news search

/// The fields of a news search hit that are read.
#[derive(Clone, Debug)]
pub struct SearchFields {
    pub title: Option<String>,
    pub date: Option<String>,
}

/// A search hit as plain values.
pub open spec fn search_fields_view(f: SearchFields) -> (Option<Seq<char>>, Option<Seq<char>>) {
    (opt_string_view(f.title), opt_string_view(f.date))
}

/// A decoded search page as plain values.
pub open spec fn search_decoded_view(d: Result<Option<Vec<SearchFields>>, String>) -> Result<
    Option<Seq<(Option<Seq<char>>, Option<Seq<char>>)>>,
    Seq<char>,
> {
    match d {
        Ok(Some(v)) => Ok(Some(v@.map_values(|f: SearchFields| search_fields_view(f)))),
        Ok(None) => Ok(None),
        Err(e) => Err(e@),
    }
}

/// What serde_json reads from the JSON text `body` of East Money's news
/// search: for each hit of `/result/cmsArticleWebOld` (`None` when that is
/// no array), the string values of `title` and `date`; `Err` with
/// serde_json's message where `body` is no JSON.
pub uninterp spec fn search_hit_fields(body: Seq<char>) -> Result<
    Option<Seq<(Option<Seq<char>>, Option<Seq<char>>)>>,
    Seq<char>,
>;

/// `serde_json::from_str` into a `serde_json::Value`, then `title` and
/// `date` of the hits of `/result/cmsArticleWebOld`. Claims: the result is
/// `search_hit_fields` of the text.
#[verifier::external_body]
fn decode_search_hits(body: &str) -> (r: Result<Option<Vec<SearchFields>>, String>)
    ensures
        search_decoded_view(r) == search_hit_fields(body@),
{
    let v: serde_json::Value = serde_json::from_str(body).map_err(|e| e.to_string())?;
    let s = |i: &serde_json::Value, k: &str| i.get(k).and_then(|x| x.as_str()).map(String::from);
    Ok(v.pointer("/result/cmsArticleWebOld").and_then(|x| x.as_array()).map(|l| {
        l.iter().map(|i| SearchFields { title: s(i, "title"), date: s(i, "date") }).collect()
    }))
}

/// The date text of a search hit that is read can be read: none for a hit
/// whose title is empty once stripped.
pub open spec fn search_entry_readable(f: (Option<Seq<char>>, Option<Seq<char>>)) -> bool {
    search_title(f.0).len() == 0 || seq_candidate_ok(f.1)
}

/// A search hit read as a title and a date.
pub open spec fn search_entry_item(f: (Option<Seq<char>>, Option<Seq<char>>)) -> (Seq<char>, Option<int>) {
    (search_title(f.0), if search_title(f.0).len() == 0 { None } else { candidate_date(f.1) })
}

/// What a decoded page of the news search gives: its error where the JSON
/// did not decode; `None` where a hit's date text that is read cannot be;
/// else the scan of its hits (a missing list is empty), their count and
/// whether to read on.
pub open spec fn search_read_spec(
    text: Seq<char>,
    decoded: Result<Option<Seq<(Option<Seq<char>>, Option<Seq<char>>)>>, Seq<char>>,
    start: int,
    end: int,
) -> Option<Result<(Seq<(int, Seq<char>)>, Option<int>, int, bool), Seq<char>>> {
    match decoded {
        Err(e) => Some(Err(json_error_spec("资讯搜索 JSON 失败: "@, e, text))),
        Ok(l) => {
            let fs = list_or_empty(l);
            if forall|k: int| 0 <= k < fs.len() ==> search_entry_readable(#[trigger] fs[k]) {
                let s = scan_spec(fs.map_values(|f: (Option<Seq<char>>, Option<Seq<char>>)| search_entry_item(f)), start, end);
                Some(Ok((s.0, s.1, fs.len() as int, page_more(s.1, start, fs.len() as int, SEARCH_PAGE_SIZE as int))))
            } else {
                None
            }
        },
    }
}

/// What a reply of the news search gives: `None` where its JSON body cannot
/// be cut out, else `search_read_spec` of what serde_json reads there.
pub open spec fn search_page_spec(text: Seq<char>, start: int, end: int) -> Option<
    Result<(Seq<(int, Seq<char>)>, Option<int>, int, bool), Seq<char>>,
> {
    if json_body_input_ok(text) {
        search_read_spec(text, search_hit_fields(json_body_spec(text)), start, end)
    } else {
        None
    }
}

fn search_try(title: Option<&str>, date: Option<&str>) -> (r: Option<DatedTitle>)
    ensures
        r is None <==> !search_entry_readable((opt_chars(title), opt_chars(date))),
        r matches Some(x) ==> dated_view(x) == search_entry_item((opt_chars(title), opt_chars(date))),
{
    let empty = match title {
        Some(x) => to_chars(strip_html(x).as_str()).len() == 0,
        None => true,
    };
    if !empty && !candidate_readable(date) {
        return None;
    }
    Some(search_item(title, date))
}

/// Reads one decoded page of the news search for the window `[start, end]`;
/// `text` is the reply, quoted when its JSON did not decode.
pub fn search_page_read(text: &str, decoded: Result<Option<Vec<SearchFields>>, String>, start: Date, end: Date) -> (r: Option<
    Result<PageRead, String>,
>)
    ensures
        page_read_view(r) == search_read_spec(text@, search_decoded_view(decoded), start.days as int, end.days as int),
{
    let ghost dv = search_decoded_view(decoded);
    let fields = match decoded {
        Err(e) => {
            return Some(Err(json_error("资讯搜索 JSON 失败: ", e.as_str(), text)));
        },
        Ok(Some(v)) => v,
        Ok(None) => Vec::new(),
    };
    let ghost fs = fields@.map_values(|f: SearchFields| search_fields_view(f));
    assert(fs =~= list_or_empty(dv->Ok_0));
    let mut items: Vec<DatedTitle> = Vec::new();
    let mut i: usize = 0;
    while i < fields.len()
        invariant
            i <= fields.len(),
            fs == fields@.map_values(|f: SearchFields| search_fields_view(f)),
            dv == search_decoded_view(decoded),
            dv is Ok,
            list_or_empty(dv->Ok_0) == fs,
            items@.map_values(|x: DatedTitle| dated_view(x)) =~= fs.take(i as int).map_values(
                |f: (Option<Seq<char>>, Option<Seq<char>>)| search_entry_item(f),
            ),
            forall|k: int| 0 <= k < i ==> search_entry_readable(#[trigger] fs[k]),
        decreases fields.len() - i,
    {
        let f = &fields[i];
        assert(fs[i as int] == search_fields_view(fields@[i as int]));
        match search_try(opt_ref(&f.title), opt_ref(&f.date)) {
            Some(x) => {
                let ghost before = items@;
                items.push(x);
                assert(fs.take(i as int + 1) =~= fs.take(i as int).push(fs[i as int]));
                assert(items@.map_values(|x: DatedTitle| dated_view(x)) =~= before.map_values(
                    |x: DatedTitle| dated_view(x),
                ).push(dated_view(x)));
            },
            None => {
                assert(!search_entry_readable(fs[i as int]));
                assert(!(forall|k: int| 0 <= k < fs.len() ==> search_entry_readable(#[trigger] fs[k])));
                return None;
            },
        }
        i += 1;
    }
    assert(fs.take(fields.len() as int) =~= fs);
    let n = fields.len();
    let scan = scan_page(&items, start, end);
    let more = page_continues(scan.oldest, start, n, SEARCH_PAGE_SIZE);
    Some(Ok(PageRead { scan, count: n, more }))
}

/// Reads one reply of the news search for the window `[start, end]`:
/// `None` where the original reading cannot go on (a JSON body that cannot
/// be cut out, or a date text that cannot be read).
pub fn search_page(text: &str, start: Date, end: Date) -> (r: Option<Result<PageRead, String>>)
    ensures
        page_read_view(r) == search_page_spec(text@, start.days as int, end.days as int),
{
    if !json_body_ok(text) {
        return None;
    }
    let body = extract_json_body(text);
    search_page_read(text, decode_search_hits(body.as_str()), start, end)
}

/// The titles of the hits that have one, in order.
pub open spec fn present_titles(hs: Seq<(Option<Seq<char>>, Option<Seq<char>>)>) -> Seq<Seq<char>>
    decreases hs.len(),
{
    if hs.len() == 0 {
        Seq::empty()
    } else {
        let p = present_titles(hs.drop_last());
        match hs.last().0 {
            Some(t) => p.push(t),
            None => p,
        }
    }
}

/// Titles of a decoded news search, or serde_json's message.
pub open spec fn news_read_spec(decoded: Result<Option<Seq<(Option<Seq<char>>, Option<Seq<char>>)>>, Seq<char>>) -> Result<
    Seq<Seq<char>>,
    Seq<char>,
> {
    match decoded {
        Err(e) => Err(e),
        Ok(l) => Ok(present_titles(list_or_empty(l))),
    }
}

/// Strings as plain values, or the error.
pub open spec fn titles_result_view(r: Result<Vec<String>, String>) -> Result<Seq<Seq<char>>, Seq<char>> {
    match r {
        Ok(v) => Ok(v@.map_values(|s: String| s@)),
        Err(e) => Err(e@),
    }
}

/// The titles of a decoded news search, in order.
pub fn news_titles_read(decoded: Result<Option<Vec<SearchFields>>, String>) -> (r: Result<Vec<String>, String>)
    ensures
        titles_result_view(r) == news_read_spec(search_decoded_view(decoded)),
{
    let fields = match decoded {
        Err(e) => {
            return Err(e);
        },
        Ok(Some(v)) => v,
        Ok(None) => Vec::new(),
    };
    let ghost fs = fields@.map_values(|f: SearchFields| search_fields_view(f));
    let mut out: Vec<String> = Vec::new();
    let mut i: usize = 0;
    while i < fields.len()
        invariant
            i <= fields.len(),
            fs == fields@.map_values(|f: SearchFields| search_fields_view(f)),
            out@.map_values(|s: String| s@) =~= present_titles(fs.take(i as int)),
        decreases fields.len() - i,
    {
        assert(fs.take(i as int + 1).drop_last() =~= fs.take(i as int));
        assert(fs.take(i as int + 1).last() == search_fields_view(fields@[i as int]));
        match &fields[i].title {
            Some(t) => {
                let ghost before = out@;
                out.push(to_owned_string(t.as_str()));
                assert(out@.map_values(|s: String| s@) =~= before.map_values(|s: String| s@).push(t@));
            },
            None => {},
        }
        i += 1;
    }
    assert(fs.take(fields.len() as int) =~= fs);
    Ok(out)
}

/// The payload of a JSONP reply: between the first `(` and the last `)`;
/// an error where either is missing; `None` where the `)` stands before
/// the `(` (the cut would not be well formed).
pub open spec fn jsonp_payload_spec(text: Seq<char>) -> Option<Result<Seq<char>, Seq<char>>> {
    match (first_index_of(text, '('), last_index_of(text, ')')) {
        (Some(l), Some(r)) => if l + 1 <= r {
            Some(Ok(text.subrange(l + 1, r)))
        } else {
            None
        },
        _ => Some(Err("jsonp 解析失败"@)),
    }
}

/// What a reply of the market news search gives: its titles, or the
/// error.
pub open spec fn news_titles_spec(text: Seq<char>) -> Option<Result<Seq<Seq<char>>, Seq<char>>> {
    match jsonp_payload_spec(text) {
        None => None,
        Some(Err(e)) => Some(Err(e)),
        Some(Ok(p)) => Some(news_read_spec(search_hit_fields(p))),
    }
}

/// The titles of a market news search reply (JSONP); `None` where the
/// payload cannot be cut out.
pub fn news_titles(text: &str) -> (r: Option<Result<Vec<String>, String>>)
    ensures
        match r {
            None => news_titles_spec(text@) is None,
            Some(x) => news_titles_spec(text@) == Some(titles_result_view(x)),
        },
{
    let t = to_chars(text);
    let lp = chars_find(&t, '(');
    let rp = chars_rfind(&t, ')');
    match (lp, rp) {
        (Some(l), Some(r)) => {
            if l + 1 > r {
                return None;
            }
            let payload = string_of_range(&t, l + 1, r);
            Some(news_titles_read(decode_search_hits(payload.as_str())))
        },
        _ => {
            proof {
                reveal_strlit("jsonp 解析失败");
            }
            Some(Err(to_owned_string("jsonp 解析失败")))
        },
    }
}

// ---------------------------------------------------------------- cninfo code search

/// What serde_json reads from cninfo's code search reply `body`: for each
/// entry of the array, the string values of `code` and `orgId`; `None`
/// where `body` is no JSON array.
pub uninterp spec fn org_hit_fields(body: Seq<char>) -> Option<Seq<(Option<Seq<char>>, Option<Seq<char>>)>>;

/// `serde_json::from_str` into a `serde_json::Value`, then `code` and
/// `orgId` of the array's entries. Claims: the result is `org_hit_fields`
/// of the text.
#[verifier::external_body]
fn decode_org_hits(body: &str) -> (r: Option<Vec<OrgHit>>)
    ensures
        match r {
            Some(v) => org_hit_fields(body@) == Some(v@.map_values(|h: OrgHit| org_hit_view(h))),
            None => org_hit_fields(body@) is None,
        },
{
    let v: serde_json::Value = serde_json::from_str(body).ok()?;
    let s = |i: &serde_json::Value, k: &str| i.get(k).and_then(|x| x.as_str()).map(String::from);
    Some(v.as_array()?.iter().map(|i| OrgHit { code: s(i, "code"), org_id: s(i, "orgId") }).collect())
}

/// cninfo's organisation id for a six-digit code from its code search
/// reply, falling back on `guess` where the reply is no JSON array.
pub fn org_id_from_reply(text: &str, code: &str, guess: String) -> (r: String)
    ensures
        r@ == (match org_hit_fields(text@) {
            Some(h) => org_id_spec(h, code@, guess@),
            None => guess@,
        }),
{
    match decode_org_hits(text) {
        Some(hits) => choose_org_id(&hits, code, guess),
        None => guess,
    }
}

} // verus!
