//! Capital-flow data settings: how much to fetch, and the Tushare token.

use vstd::prelude::*;
use crate::text::{decimal_spec, decimal_text, push_str, to_chars, to_owned_string, trim, trim_str};

verus! {

/// How much capital-flow history to fetch.
#[derive(Clone, Copy, Debug, PartialEq, Eq, Structural)]
pub enum FetchMode {
    /// Live use and ordinary back-tests: the two-market turnover proxy
    /// (plus Tushare when configured), skipping slow paged sources.
    Fast,
    /// Everything, northbound history and main-force flows included.
    Full,
}

/// Whether the Tushare token is configured, with a hint for the user.
#[derive(Clone, Debug)]
pub struct TushareTokenStatus {
    pub configured: bool,
    pub hint: String,
}

/// A usable token from a file's contents: trimmed, not empty, and not a
/// `#` comment.
pub open spec fn file_token(contents: Seq<char>) -> Option<Seq<char>> {
    let t = trim(contents);
    if t.len() > 0 && !(t.len() > 0 && t[0] == '#') {
        Some(t)
    } else {
        None
    }
}

/// The first usable token among file contents, in order.
pub open spec fn first_file_token(files: Seq<Option<Seq<char>>>) -> Option<Seq<char>>
    decreases files.len(),
{
    if files.len() == 0 {
        None
    } else {
        let here = match files[0] {
            Some(c) => file_token(c),
            None => None,
        };
        if here is Some {
            here
        } else {
            first_file_token(files.drop_first())
        }
    }
}

/// The token in force: the environment variable when it holds more than
/// blanks, else the first usable token file.
pub open spec fn token_spec(env: Option<Seq<char>>, files: Seq<Option<Seq<char>>>) -> Option<Seq<char>> {
    match env {
        Some(e) if trim(e).len() > 0 => Some(trim(e)),
        _ => first_file_token(files),
    }
}

/// The environment value as plain characters.
pub open spec fn env_view(env: Option<&str>) -> Option<Seq<char>> {
    match env {
        Some(e) => Some(e@),
        None => None,
    }
}

/// File contents as plain values.
pub open spec fn files_view(files: Seq<Option<String>>) -> Seq<Option<Seq<char>>> {
    files.map_values(|f: Option<String>| match f {
        Some(s) => Some(s@),
        None => None,
    })
}

fn usable_file_token(contents: &str) -> (r: Option<String>)
    ensures
        r matches Some(t) ==> file_token(contents@) == Some(t@),
        r is None ==> file_token(contents@) is None,
{
    let t = trim_str(contents);
    let v = to_chars(t.as_str());
    if v.len() > 0 && v[0] != '#' {
        Some(t)
    } else {
        None
    }
}

/// Picks the Tushare token: the `TUSHARE_TOKEN` value when it holds more
/// than blanks, else the first token file (the user's, then the bundled
/// one) whose trimmed contents are neither empty nor a `#` comment.
pub fn resolve_tushare_token(env: Option<&str>, files: &[Option<String>]) -> (r: Option<String>)
    ensures
        r matches Some(t) ==> token_spec(env_view(env), files_view(files@)) == Some(t@),
        r is None ==> token_spec(env_view(env), files_view(files@)) is None,
{
    if let Some(e) = env {
        let t = trim_str(e);
        if to_chars(t.as_str()).len() > 0 {
            return Some(t);
        }
    }
    let ghost fv = files_view(files@);
    assert(fv.skip(0) =~= fv);
    let mut i: usize = 0;
    while i < files.len()
        invariant
            i <= files.len(),
            fv == files_view(files@),
            token_spec(env_view(env), fv) == first_file_token(fv),
            first_file_token(fv) == first_file_token(fv.skip(i as int)),
        decreases files.len() - i,
    {
        assert(fv.skip(i as int)[0] == fv[i as int]);
        assert(fv.skip(i as int).drop_first() =~= fv.skip(i as int + 1));
        match &files[i] {
            Some(c) => {
                assert(fv[i as int] == Some(c@));
                if let Some(t) = usable_file_token(c.as_str()) {
                    return Some(t);
                }
            },
            None => {},
        }
        i += 1;
    }
    None
}

/// Whether a Tushare token is configured.
pub fn tushare_token_configured(env: Option<&str>, files: &[Option<String>]) -> (r: bool)
    ensures
        r == token_spec(env_view(env), files_view(files@)) is Some,
{
    resolve_tushare_token(env, files).is_some()
}

/// The token to store for what the user typed: trimmed, or nothing (the
/// stored file is removed) when only blanks were typed.
pub fn token_to_save(token: &str) -> (r: Option<String>)
    ensures
        trim(token@).len() == 0 ==> r is None,
        trim(token@).len() > 0 ==> (r matches Some(t) && t@ == trim(token@)),
{
    let t = trim_str(token);
    if to_chars(t.as_str()).len() == 0 {
        None
    } else {
        Some(t)
    }
}

/// The hint shown for a configured token.
pub open spec fn configured_hint() -> Seq<char> {
    "已配置（环境变量或本地文件）。有 Token 时优先用真·大盘主力净流入；否则用两市成交代理亦可回测。"@
}

/// The hint shown without a token.
pub open spec fn missing_hint() -> Seq<char> {
    "未配置 Tushare。资金流仍可用「两市成交代理」做近期回测；配置 Token 后自动升级为真主力净流入。"@
}

/// The status reported for the token.
pub fn token_status(configured: bool) -> (r: TushareTokenStatus)
    ensures
        r.configured == configured,
        r.hint@ == (if configured { configured_hint() } else { missing_hint() }),
{
    TushareTokenStatus {
        configured,
        hint: if configured {
            to_owned_string(
                "已配置（环境变量或本地文件）。有 Token 时优先用真·大盘主力净流入；否则用两市成交代理亦可回测。",
            )
        } else {
            to_owned_string(
                "未配置 Tushare。资金流仍可用「两市成交代理」做近期回测；配置 Token 后自动升级为真主力净流入。",
            )
        },
    }
}

/// A day lies in the scoring window of `as_of`: the forty days before it
/// and the day itself.
pub open spec fn in_flow_window(day: int, as_of: int) -> bool {
    as_of - 40 <= day && day <= as_of
}

/// Day numbers in strictly increasing order, as the keys of a sorted map.
pub open spec fn strictly_increasing(days: Seq<i32>) -> bool {
    forall|i: int, j: int| 0 <= i < j < days.len() ==> days[i] < days[j]
}

/// Entries `lo..hi` are exactly those of `days` in the window of `as_of`.
pub open spec fn is_flow_window(days: Seq<i32>, as_of: int, lo: int, hi: int) -> bool {
    &&& 0 <= lo <= hi <= days.len()
    &&& forall|i: int| 0 <= i < days.len() ==> (in_flow_window(#[trigger] days[i] as int, as_of) <==> lo <= i < hi)
}

/// A window that can be scored: at least `min_len` entries and at least
/// one, the latest no more than five days before `as_of`.
pub open spec fn usable_window(days: Seq<i32>, as_of: int, min_len: int, lo: int, hi: int) -> bool {
    &&& hi - lo >= min_len
    &&& hi > lo
    &&& as_of - days[hi - 1] <= 5
}

/// The entries of a dated series (day numbers, increasing) that score the
/// day `as_of`: those of the forty days up to it, when there are at least
/// `min_len` of them and the latest is at most five days old; `None`
/// otherwise (the series has no say on that day).
pub fn flow_window(days: &[i32], as_of: i32, min_len: usize) -> (r: Option<(usize, usize)>)
    requires
        strictly_increasing(days@),
    ensures
        r matches Some((lo, hi)) ==> is_flow_window(days@, as_of as int, lo as int, hi as int)
            && usable_window(days@, as_of as int, min_len as int, lo as int, hi as int),
        r is None ==> forall|lo: int, hi: int|
            is_flow_window(days@, as_of as int, lo, hi) ==> !usable_window(days@, as_of as int, min_len as int, lo, hi),
{
    let start: i64 = as_of as i64 - 40;
    let mut lo: usize = 0;
    while lo < days.len() && (days[lo] as i64) < start
        invariant
            lo <= days.len(),
            start == as_of - 40,
            forall|i: int| 0 <= i < lo ==> days@[i] < start,
        decreases days.len() - lo,
    {
        lo += 1;
    }
    let mut hi: usize = lo;
    while hi < days.len() && (days[hi] as i64) <= as_of as i64
        invariant
            lo <= hi <= days.len(),
            start == as_of - 40,
            strictly_increasing(days@),
            forall|i: int| 0 <= i < lo ==> days@[i] < start,
            lo < days.len() ==> days@[lo as int] >= start,
            forall|i: int| lo <= i < hi ==> start <= #[trigger] days@[i] <= as_of,
        decreases days.len() - hi,
    {
        hi += 1;
    }
    assert(is_flow_window(days@, as_of as int, lo as int, hi as int)) by {
        assert forall|i: int| 0 <= i < days@.len() implies (in_flow_window(#[trigger] days@[i] as int, as_of as int)
            <==> lo <= i < hi) by {
            if i >= hi {
                assert(days@[i] >= days@[hi as int]);
            }
        }
    }
    if hi > lo && hi - lo >= min_len && (as_of as i64) - (days[hi - 1] as i64) <= 5 {
        Some((lo, hi))
    } else {
        proof {
            assert forall|lo2: int, hi2: int| is_flow_window(days@, as_of as int, lo2, hi2) implies !usable_window(
                days@,
                as_of as int,
                min_len as int,
                lo2,
                hi2,
            ) by {
                if hi > lo {
                    assert(in_flow_window(days@[lo as int] as int, as_of as int));
                    assert(in_flow_window(days@[hi - 1] as int, as_of as int));
                    if lo2 < lo {
                        assert(!in_flow_window(days@[lo2] as int, as_of as int));
                    }
                    if hi2 > hi {
                        assert(!in_flow_window(days@[hi as int] as int, as_of as int));
                    }
                } else if hi2 > lo2 {
                    assert(in_flow_window(days@[lo2] as int, as_of as int));
                }
            }
        }
        None
    }
}

/// Bars of the two index series fetched for the turnover proxy: 180 in
/// fast mode, 400 in full mode.
pub fn activity_fetch_limit(mode: FetchMode) -> (r: u32)
    ensures
        r == (if mode is Fast { 180u32 } else { 400u32 }),
{
    match mode {
        FetchMode::Fast => 180,
        FetchMode::Full => 400,
    }
}

/// Pages of northbound history that a full fetch reads at most.
pub const NORTH_MAX_PAGES: usize = 8;

/// The page cap of the northbound history, `max_pages` kept within 1 to 10.
pub open spec fn north_cap_spec(max_pages: int) -> int {
    if max_pages < 1 {
        1
    } else if max_pages > 10 {
        10
    } else {
        max_pages
    }
}

/// Pages of northbound history to read: the count that the first page
/// reports, kept within 1 and the cap (a negative count reads as larger
/// than any cap); the cap itself when the first page reports none.
pub open spec fn north_pages_spec(reported: Option<i64>, max_pages: int) -> int {
    let cap = north_cap_spec(max_pages);
    match reported {
        None => cap,
        Some(p) => if p < 0 || p > cap {
            cap
        } else if p == 0 {
            1
        } else {
            p as int
        },
    }
}

/// How many pages of northbound history to read, given what the first page
/// reported and the requested maximum.
pub fn north_page_count(reported: Option<i64>, max_pages: usize) -> (r: usize)
    ensures
        r == north_pages_spec(reported, max_pages as int),
        1 <= r <= 10,
{
    let cap: usize = if max_pages < 1 {
        1
    } else if max_pages > 10 {
        10
    } else {
        max_pages
    };
    match reported {
        None => cap,
        Some(p) => {
            if p < 0 || p > cap as i64 {
                cap
            } else if p == 0 {
                1
            } else {
                p as usize
            }
        }
    }
}

/// Days an archive can score: the longest of its three series.
pub fn usable_days(market_days: usize, activity_days: usize, north_days: usize) -> (r: usize)
    ensures
        r >= market_days && r >= activity_days && r >= north_days,
        r == market_days || r == activity_days || r == north_days,
{
    let m = if market_days >= activity_days { market_days } else { activity_days };
    if m >= north_days { m } else { north_days }
}

/// Whether the archive kept in memory is still served: fetched less than
/// two hours ago, with at least one usable day.
pub fn memory_archive_fresh(age_secs: u64, usable: usize) -> (r: bool)
    ensures
        r == (age_secs < 7200 && usable > 0),
{
    age_secs < 7200 && usable > 0
}

/// Whether the archive on disk is served without fetching: at least 80
/// days of the turnover proxy, written less than twelve hours ago.
pub fn disk_archive_sufficient(activity_days: usize, written_secs_ago: Option<u64>) -> (r: bool)
    ensures
        r == (activity_days >= 80 && (written_secs_ago matches Some(a) && a < 43200)),
{
    activity_days >= 80 && match written_secs_ago {
        Some(a) => a < 43200,
        None => false,
    }
}

/// A note of how many days a source gave: `"{label} {n} 日"`.
pub open spec fn days_note_spec(label: Seq<char>, n: nat) -> Seq<char> {
    label + " "@ + decimal_spec(n) + " 日"@
}

/// Words how many days a source gave.
pub fn days_note(label: &str, n: usize) -> (r: String)
    ensures
        r@ == days_note_spec(label@, n as nat),
{
    let mut s = to_owned_string(label);
    push_str(&mut s, " ");
    let d = decimal_text(n as u64);
    push_str(&mut s, d.as_str());
    push_str(&mut s, " 日");
    s
}

/// The note for a failed turnover-proxy fetch: in fast mode, with at least
/// 60 days on disk, the cached days stay in use.
pub open spec fn activity_failure_note_spec(mode: FetchMode, disk_days: int, err: Seq<char>) -> Seq<char> {
    if mode is Fast && disk_days >= 60 {
        "成交代理沿用缓存("@ + err + ")"@
    } else {
        "成交代理失败("@ + err + ")"@
    }
}

/// Words a failed turnover-proxy fetch.
pub fn activity_failure_note(mode: FetchMode, disk_days: usize, err: &str) -> (r: String)
    ensures
        r@ == activity_failure_note_spec(mode, disk_days as int, err@),
{
    let mut s = if mode == FetchMode::Fast && disk_days >= 60 {
        to_owned_string("成交代理沿用缓存(")
    } else {
        to_owned_string("成交代理失败(")
    };
    push_str(&mut s, err);
    push_str(&mut s, ")");
    s
}

} // verus!
