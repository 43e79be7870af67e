//! Request-level rules of the workbench: how many bars an analysis fetches,
//! which of them the chart shows, and how the stock list is ordered and
//! warned about.

use vstd::prelude::*;
use crate::notices::{join_messages, join_semicolon};
use crate::text::{
    chars_lt, lemma_seq_lt_total, lemma_seq_lt_trans, push_str, seq_lt, str_eq, to_chars,
    to_owned_string,
};

verus! {

/// Back-test samples an analysis aims for beyond its look-back window.
pub const BACKTEST_HORIZON: u32 = 120;

/// Bars fetched for an analysis or a back-test: the look-back window, 120
/// back-test samples (never fewer than 80) and the horizon.
pub fn analysis_fetch_limit(lookback: u32, horizon: u32) -> (r: u32)
    requires
        lookback + BACKTEST_HORIZON + horizon <= u32::MAX,
    ensures
        r == lookback + BACKTEST_HORIZON + horizon,
{
    let full = lookback + BACKTEST_HORIZON + horizon;
    let least = lookback + 80 + horizon;
    if full >= least { full } else { least }
}

/// Bars the chart of an analysis shows: the look-back window, at least 90.
pub open spec fn chart_len(lookback: int) -> int {
    if lookback > 90 { lookback } else { 90 }
}

/// Index of the first bar the chart shows, of `bar_count` bars.
pub fn chart_start(bar_count: usize, lookback: u32) -> (r: usize)
    ensures
        r == (if bar_count > chart_len(lookback as int) { bar_count - chart_len(lookback as int) } else { 0 }),
{
    let len: u32 = if lookback > 90 { lookback } else { 90 };
    if bar_count as u64 > len as u64 {
        bar_count - len as usize
    } else {
        0
    }
}

/// Whether each listed code is on the popularity list.
pub fn mark_hot(codes: &[String], hot_codes: &[String]) -> (r: Vec<bool>)
    ensures
        r@.len() == codes@.len(),
        forall|i: int| 0 <= i < codes@.len() ==> (#[trigger] r@[i] <==> exists|j: int|
            0 <= j < hot_codes@.len() && hot_codes@[j]@ == codes@[i]@),
{
    let mut out: Vec<bool> = Vec::new();
    let mut i: usize = 0;
    while i < codes.len()
        invariant
            i <= codes.len(),
            out@.len() == i,
            forall|k: int| 0 <= k < i ==> (#[trigger] out@[k] <==> exists|j: int|
                0 <= j < hot_codes@.len() && hot_codes@[j]@ == codes@[k]@),
        decreases codes.len() - i,
    {
        let mut found = false;
        let mut j: usize = 0;
        while j < hot_codes.len()
            invariant
                j <= hot_codes.len(),
                i < codes.len(),
                !found ==> forall|t: int| 0 <= t < j ==> hot_codes@[t]@ != codes@[i as int]@,
                found ==> exists|t: int| 0 <= t < hot_codes@.len() && hot_codes@[t]@ == codes@[i as int]@,
            decreases hot_codes.len() - j,
        {
            if !found && str_eq(hot_codes[j].as_str(), codes[i].as_str()) {
                found = true;
            }
            j += 1;
        }
        out.push(found);
        i += 1;
    }
    out
}

/// Order of the stock list: popular stocks first, then by code; equal keys
/// keep their order.
pub open spec fn listed_before(a: (bool, Seq<char>, int), b: (bool, Seq<char>, int)) -> bool {
    ||| a.0 && !b.0
    ||| a.0 == b.0 && seq_lt(a.1, b.1)
    ||| a.0 == b.0 && a.1 == b.1 && a.2 < b.2
}

/// Entry `i` of the list as the key it is sorted by.
pub open spec fn listing_key(codes: Seq<String>, hot: Seq<bool>, i: int) -> (bool, Seq<char>, int) {
    (hot[i], codes[i]@, i)
}

/// `r` lists every entry once, in list order.
pub open spec fn is_listing_order(codes: Seq<String>, hot: Seq<bool>, r: Seq<usize>) -> bool {
    &&& r.len() == codes.len()
    &&& forall|k: int| 0 <= k < r.len() ==> (#[trigger] r[k]) < codes.len()
    &&& forall|j: usize| j < codes.len() ==> #[trigger] r.contains(j)
    &&& forall|k1: int, k2: int|
        0 <= k1 < k2 < r.len() ==> listed_before(
            listing_key(codes, hot, #[trigger] r[k1] as int),
            listing_key(codes, hot, #[trigger] r[k2] as int),
        )
}

proof fn lemma_listed_total(a: (bool, Seq<char>, int), b: (bool, Seq<char>, int))
    requires
        a.2 != b.2,
    ensures
        listed_before(a, b) || listed_before(b, a),
{
    lemma_seq_lt_total(a.1, b.1);
}

proof fn lemma_listed_trans(a: (bool, Seq<char>, int), b: (bool, Seq<char>, int), c: (bool, Seq<char>, int))
    requires
        listed_before(a, b),
        listed_before(b, c),
    ensures
        listed_before(a, c),
{
    if a.0 == b.0 && b.0 == c.0 {
        if seq_lt(a.1, b.1) && seq_lt(b.1, c.1) {
            lemma_seq_lt_trans(a.1, b.1, c.1);
        }
    }
}

fn listed_less(codes: &[String], hot: &[bool], a: usize, b: usize) -> (r: bool)
    requires
        a < codes@.len(),
        codes@.len() == hot@.len(),
        b < codes@.len(),
    ensures
        r == listed_before(listing_key(codes@, hot@, a as int), listing_key(codes@, hot@, b as int)),
{
    if hot[a] != hot[b] {
        return hot[a];
    }
    let ca = to_chars(codes[a].as_str());
    let cb = to_chars(codes[b].as_str());
    if chars_lt(&ca, &cb) {
        return true;
    }
    if str_eq(codes[a].as_str(), codes[b].as_str()) {
        return a < b;
    }
    false
}

/// The stock list in display order, as indices: popular stocks first, then
/// by code (the sort is stable).
pub fn listing_order(codes: &[String], hot: &[bool]) -> (r: Vec<usize>)
    requires
        codes.len() == hot.len(),
    ensures
        is_listing_order(codes@, hot@, r@),
{
    let mut out: Vec<usize> = Vec::new();
    let mut i: usize = 0;
    while i < codes.len()
        invariant
            i <= codes.len(),
            codes.len() == hot.len(),
            out@.len() == i,
            forall|k: int| 0 <= k < out@.len() ==> (#[trigger] out@[k]) < i,
            forall|j: usize| j < i ==> #[trigger] out@.contains(j),
            forall|k1: int, k2: int|
                0 <= k1 < k2 < out@.len() ==> listed_before(
                    listing_key(codes@, hot@, #[trigger] out@[k1] as int),
                    listing_key(codes@, hot@, #[trigger] out@[k2] as int),
                ),
        decreases codes.len() - i,
    {
        let mut p: usize = 0;
        while p < out.len() && listed_less(codes, hot, out[p], i)
            invariant
                p <= out@.len(),
                i < codes@.len(),
                codes.len() == hot.len(),
                forall|k: int| 0 <= k < out@.len() ==> (#[trigger] out@[k]) < i,
                forall|k: int| 0 <= k < p ==> listed_before(
                    listing_key(codes@, hot@, #[trigger] out@[k] as int),
                    listing_key(codes@, hot@, i as int),
                ),
            decreases out@.len() - p,
        {
            p += 1;
        }
        let ghost old_out = out@;
        proof {
            if p < out@.len() {
                let q = old_out[p as int] as int;
                lemma_listed_total(listing_key(codes@, hot@, q), listing_key(codes@, hot@, i as int));
            }
        }
        out.insert(p, i);
        proof {
            let no = out@;
            assert(no == old_out.insert(p as int, i));
            assert forall|k1: int, k2: int| 0 <= k1 < k2 < no.len() implies listed_before(
                listing_key(codes@, hot@, #[trigger] no[k1] as int),
                listing_key(codes@, hot@, #[trigger] no[k2] as int),
            ) by {
                if k2 < p {
                    assert(no[k1] == old_out[k1] && no[k2] == old_out[k2]);
                } else if k2 == p {
                    assert(no[k1] == old_out[k1]);
                } else if k1 == p {
                    assert(no[k2] == old_out[k2 - 1]);
                    if k2 - 1 > p {
                        lemma_listed_trans(
                            listing_key(codes@, hot@, i as int),
                            listing_key(codes@, hot@, old_out[p as int] as int),
                            listing_key(codes@, hot@, old_out[k2 - 1] as int),
                        );
                    }
                } else if k1 < p {
                    assert(no[k1] == old_out[k1] && no[k2] == old_out[k2 - 1]);
                } else {
                    assert(no[k1] == old_out[k1 - 1] && no[k2] == old_out[k2 - 1]);
                }
            }
            assert forall|k: int| 0 <= k < no.len() implies (#[trigger] no[k]) < i + 1 by {
                if k < p {
                    assert(no[k] == old_out[k]);
                } else if k > p {
                    assert(no[k] == old_out[k - 1]);
                }
            }
            assert forall|j: usize| j < i + 1 implies #[trigger] no.contains(j) by {
                if j < i {
                    assert(old_out.contains(j));
                    let k = choose|k: int| 0 <= k < old_out.len() && old_out[k] == j;
                    if k < p {
                        assert(no[k] == j);
                    } else {
                        assert(no[k + 1] == j);
                    }
                } else {
                    assert(no[p as int] == i);
                }
            }
        }
        i += 1;
    }
    out
}

/// How fetching the popularity list went when loading the stock list.
#[derive(Clone, Debug)]
pub enum HotListOutcome {
    /// Entries came back, some of them with a quote.
    Listed,
    /// The list came back empty.
    Empty,
    /// Entries came back, none of them with a quote.
    Unquoted,
    /// The fetch failed with this error.
    Failed(String),
}

/// The warnings of a stock-list load, in the order they are raised.
pub open spec fn list_warnings(hot: HotListOutcome, quotes_failed: bool) -> Seq<Seq<char>> {
    let first: Seq<Seq<char>> = match hot {
        HotListOutcome::Listed => Seq::empty(),
        HotListOutcome::Empty => seq!["人气榜返回空列表，请检查网络后刷新"@],
        HotListOutcome::Unquoted => seq!["人气榜行情补全失败，已展示榜单基础信息"@],
        HotListOutcome::Failed(e) => seq!["人气榜: "@ + e@],
    };
    if quotes_failed {
        first.push("行情补全失败，部分价格可能缺失"@)
    } else {
        first
    }
}

/// The warning shown with the stock list: its warnings joined with `；`,
/// or none when there is none.
pub fn stock_list_warning(hot: &HotListOutcome, quotes_failed: bool) -> (r: Option<String>)
    ensures
        list_warnings(*hot, quotes_failed).len() == 0 ==> r is None,
        list_warnings(*hot, quotes_failed).len() > 0 ==> (r matches Some(w) && w@ == join_semicolon(
            list_warnings(*hot, quotes_failed),
        )),
{
    let mut ws: Vec<String> = Vec::new();
    match hot {
        HotListOutcome::Listed => {},
        HotListOutcome::Empty => ws.push(to_owned_string("人气榜返回空列表，请检查网络后刷新")),
        HotListOutcome::Unquoted => ws.push(to_owned_string("人气榜行情补全失败，已展示榜单基础信息")),
        HotListOutcome::Failed(e) => {
            let mut m = to_owned_string("人气榜: ");
            push_str(&mut m, e.as_str());
            ws.push(m);
        },
    }
    if quotes_failed {
        ws.push(to_owned_string("行情补全失败，部分价格可能缺失"));
    }
    assert(ws@.map_values(|s: String| s@) =~= list_warnings(*hot, quotes_failed));
    if ws.len() == 0 {
        None
    } else {
        Some(join_messages(&ws))
    }
}

} // verus!
