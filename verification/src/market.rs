//! Market data helpers: the symbol mappings under their historical path,
//! and the rules that assemble the popularity list.

use vstd::prelude::*;
use crate::text::{push_str, to_chars, to_owned_string, trim, trim_str};
use crate::models::Stock;

pub use crate::symbol::{
    infer_market, parse_market_from_sc, strip_market_prefix, ths_market_to_str, to_secid,
    to_sina_symbol, to_tencent_symbol,
};

use crate::symbol::{infer_market_spec, market_from_sc_spec, sh, sz};

verus! {

/// Entries requested from each popularity source for a list of `limit`:
/// twice the list (at least one entry), kept within 20 to 100.
pub open spec fn per_source_spec(limit: int) -> int {
    let l = if limit < 1 { 1 } else { limit };
    let d = l * 2;
    if d < 20 {
        20
    } else if d > 100 {
        100
    } else {
        d
    }
}

/// How many entries to take from each popularity source.
pub fn hot_per_source(limit: usize) -> (r: usize)
    requires
        limit <= usize::MAX / 2,
    ensures
        r == per_source_spec(limit as int),
{
    let l = if limit < 1 {
        1
    } else {
        limit
    };
    let d = l * 2;
    if d < 20 {
        20
    } else if d > 100 {
        100
    } else {
        d
    }
}

/// The `(market, code)` pairs of East Money's popularity entries, in order,
/// skipping entries without an `sc` field.
pub open spec fn em_entries_spec(scs: Seq<Seq<char>>) -> Seq<(Seq<char>, Seq<char>)>
    decreases scs.len(),
{
    if scs.len() == 0 {
        Seq::empty()
    } else {
        let rest = em_entries_spec(scs.drop_last());
        if scs.last().len() == 0 {
            rest
        } else {
            rest.push(market_from_sc_spec(scs.last()))
        }
    }
}

/// Strings as plain values.
pub open spec fn strings_view(v: Seq<String>) -> Seq<Seq<char>> {
    v.map_values(|s: String| s@)
}

/// Pairs of strings as plain values.
pub open spec fn pairs_view(v: Seq<(String, String)>) -> Seq<(Seq<char>, Seq<char>)> {
    v.map_values(|p: (String, String)| (p.0@, p.1@))
}

/// Turns the `sc` fields of East Money's popularity list into
/// `(market, code)` pairs.
pub fn em_hot_entries(scs: &[String]) -> (r: Vec<(String, String)>)
    ensures
        pairs_view(r@) == em_entries_spec(strings_view(scs@)),
{
    let ghost sv = strings_view(scs@);
    let mut out: Vec<(String, String)> = Vec::new();
    let mut i: usize = 0;
    while i < scs.len()
        invariant
            i <= scs.len(),
            sv == strings_view(scs@),
            pairs_view(out@) == em_entries_spec(sv.take(i as int)),
        decreases scs.len() - i,
    {
        assert(sv.take(i as int + 1).drop_last() =~= sv.take(i as int));
        assert(sv.take(i as int + 1).last() == scs@[i as int]@);
        if to_chars(scs[i].as_str()).len() > 0 {
            let pair = parse_market_from_sc(scs[i].as_str());
            let ghost before = out@;
            out.push(pair);
            assert(pairs_view(out@) =~= pairs_view(before).push(market_from_sc_spec(scs@[i as int]@)));
        }
        i += 1;
    }
    assert(sv.take(scs.len() as int) =~= sv);
    out
}

/// Whether entry `a` comes before entry `b` when entries are sorted by rank,
/// ties kept in list order.
pub open spec fn rank_before(ranks: Seq<i64>, a: int, b: int) -> bool {
    ranks[a] < ranks[b] || (ranks[a] == ranks[b] && a < b)
}

/// `r` holds the first `limit` entries (all of them when there are fewer)
/// of the list sorted by rank, ties kept in list order, as indices.
pub open spec fn is_rank_order(ranks: Seq<i64>, limit: int, r: Seq<usize>) -> bool {
    &&& r.len() == (if limit < ranks.len() { limit } else { ranks.len() as int })
    &&& forall|k: int| 0 <= k < r.len() ==> (#[trigger] r[k]) < ranks.len()
    &&& forall|k1: int, k2: int|
        0 <= k1 < k2 < r.len() ==> rank_before(ranks, #[trigger] r[k1] as int, #[trigger] r[k2] as int)
    &&& forall|k: int, j: usize|
        0 <= k < r.len() && j < ranks.len() && !#[trigger] r.contains(j) ==> rank_before(
            ranks,
            #[trigger] r[k] as int,
            j as int,
        )
}

/// The order in which the surge list is shown: its entries sorted by rank
/// (the sort is stable), cut to `limit`, as indices into `ranks`.
pub fn rank_order(ranks: &[i64], limit: usize) -> (r: Vec<usize>)
    ensures
        is_rank_order(ranks@, limit as int, r@),
{
    let mut out: Vec<usize> = Vec::new();
    let mut i: usize = 0;
    while i < ranks.len()
        invariant
            i <= ranks.len(),
            out@.len() == i,
            forall|k: int| 0 <= k < out@.len() ==> (#[trigger] out@[k]) < i,
            forall|j: usize| j < i ==> #[trigger] out@.contains(j),
            forall|k1: int, k2: int|
                0 <= k1 < k2 < out@.len() ==> rank_before(
                    ranks@,
                    #[trigger] out@[k1] as int,
                    #[trigger] out@[k2] as int,
                ),
        decreases ranks.len() - i,
    {
        let mut p: usize = 0;
        while p < out.len() && ranks[out[p]] <= ranks[i]
            invariant
                p <= out@.len(),
                i < ranks@.len(),
                forall|k: int| 0 <= k < out@.len() ==> (#[trigger] out@[k]) < i,
                forall|k: int| 0 <= k < p ==> ranks@[#[trigger] out@[k] as int] <= ranks@[i as int],
            decreases out@.len() - p,
        {
            p += 1;
        }
        let ghost old_out = out@;
        out.insert(p, i);
        proof {
            let no = out@;
            assert(no == old_out.insert(p as int, i));
            assert forall|k1: int, k2: int| 0 <= k1 < k2 < no.len() implies rank_before(
                ranks@,
                #[trigger] no[k1] as int,
                #[trigger] no[k2] as int,
            ) by {
                if k2 < p {
                    assert(no[k1] == old_out[k1] && no[k2] == old_out[k2]);
                } else if k2 == p {
                    assert(no[k1] == old_out[k1]);
                    assert(ranks@[old_out[k1] as int] <= ranks@[i as int]);
                } else if k1 == p {
                    assert(no[k2] == old_out[k2 - 1]);
                    assert(rank_before(ranks@, old_out[p as int] as int, old_out[k2 - 1] as int)
                        || k2 - 1 == p);
                } else if k1 < p {
                    assert(no[k1] == old_out[k1] && no[k2] == old_out[k2 - 1]);
                } else {
                    assert(no[k1] == old_out[k1 - 1] && no[k2] == old_out[k2 - 1]);
                }
            }
            assert forall|k: int| 0 <= k < no.len() implies (#[trigger] no[k]) < i + 1 by {
                if k < p {
                    assert(no[k] == old_out[k]);
                } else if k > p {
                    assert(no[k] == old_out[k - 1]);
                }
            }
            assert forall|j: usize| j < i + 1 implies #[trigger] no.contains(j) by {
                if j < i {
                    assert(old_out.contains(j));
                    let k = choose|k: int| 0 <= k < old_out.len() && old_out[k] == j;
                    if k < p {
                        assert(no[k] == j);
                    } else {
                        assert(no[k + 1] == j);
                    }
                } else {
                    assert(no[p as int] == i);
                }
            }
        }
        i += 1;
    }
    let ghost full = out@;
    if limit < out.len() {
        out.truncate(limit);
    }
    proof {
        let r = out@;
        assert(r =~= full.take(r.len() as int));
        assert forall|k: int, j: usize|
            0 <= k < r.len() && j < ranks@.len() && !#[trigger] r.contains(j) implies rank_before(
            ranks@,
            #[trigger] r[k] as int,
            j as int,
        ) by {
            assert(full.contains(j));
            let q = choose|q: int| 0 <= q < full.len() && full[q] == j;
            if q < r.len() {
                assert(r[q] == j);
            } else {
                assert(full[k] == r[k]);
            }
        }
    }
    out
}

/// Name shown for a popular stock: the quote's name when the quote has a
/// non-empty one, else the list's name, else the code.
pub open spec fn hot_name_spec(quote_name: Option<Seq<char>>, list_name: Option<Seq<char>>, code: Seq<char>) -> Seq<char> {
    let hint = match list_name {
        Some(n) => n,
        None => code,
    };
    match quote_name {
        Some(n) if n.len() > 0 => n,
        _ => hint,
    }
}

/// An optional string slice as plain characters.
pub open spec fn opt_str_view(s: Option<&str>) -> Option<Seq<char>> {
    match s {
        Some(x) => Some(x@),
        None => None,
    }
}

/// Chooses the name shown for a popular stock.
pub fn hot_display_name(quote_name: Option<&str>, list_name: Option<&str>, code: &str) -> (r: String)
    ensures
        r@ == hot_name_spec(opt_str_view(quote_name), opt_str_view(list_name), code@),
{
    if let Some(n) = quote_name {
        if to_chars(n).len() > 0 {
            return to_owned_string(n);
        }
    }
    match list_name {
        Some(n) => to_owned_string(n),
        None => to_owned_string(code),
    }
}

/// The warnings joined by `；`.
pub open spec fn join_warnings(ws: Seq<Seq<char>>) -> Seq<char>
    decreases ws.len(),
{
    if ws.len() == 0 {
        Seq::empty()
    } else if ws.len() == 1 {
        ws[0]
    } else {
        join_warnings(ws.drop_last()) + "；"@ + ws.last()
    }
}

/// The error of a popularity list that no source could fill: the sources'
/// warnings, or a note that no source was available.
pub open spec fn hot_failure_spec(ws: Seq<Seq<char>>) -> Seq<char> {
    "人气榜联网采集失败: "@ + if ws.len() == 0 {
        "无可用数据源"@
    } else {
        join_warnings(ws)
    }
}

/// Builds the error of an empty popularity list.
pub fn hot_failure_message(warnings: &[String]) -> (r: String)
    ensures
        r@ == hot_failure_spec(strings_view(warnings@)),
{
    let ghost wv = strings_view(warnings@);
    let mut msg = to_owned_string("人气榜联网采集失败: ");
    let ghost head = msg@;
    if warnings.len() == 0 {
        push_str(&mut msg, "无可用数据源");
        return msg;
    }
    let mut i: usize = 0;
    while i < warnings.len()
        invariant
            i <= warnings.len(),
            wv == strings_view(warnings@),
            head == "人气榜联网采集失败: "@,
            msg@ == head + join_warnings(wv.take(i as int)),
        decreases warnings.len() - i,
    {
        assert(wv.take(i as int + 1).drop_last() =~= wv.take(i as int));
        assert(wv.take(i as int + 1).last() == warnings@[i as int]@);
        if i > 0 {
            push_str(&mut msg, "；");
        } else {
            assert(wv.take(0) =~= Seq::<Seq<char>>::empty());
        }
        push_str(&mut msg, warnings[i].as_str());
        proof {
            if i > 0 {
                assert(msg@ =~= head + (join_warnings(wv.take(i as int)) + "；"@ + warnings@[i as int]@));
            } else {
                assert(wv.take(1)[0] == warnings@[0]@);
                assert(msg@ =~= head + join_warnings(wv.take(1)));
            }
        }
        i += 1;
    }
    assert(wv.take(warnings.len() as int) =~= wv);
    msg
}

/// An entry of a popularity list: market, code and the name the list
/// gives, if any.
#[derive(Clone, Debug)]
pub struct HotEntry {
    pub market: String,
    pub code: String,
    pub name: Option<String>,
}

/// An entry as plain values.
pub open spec fn hot_entry_view(e: HotEntry) -> (Seq<char>, Seq<char>, Option<Seq<char>>) {
    (e.market@, e.code@, match e.name {
        Some(n) => Some(n@),
        None => None,
    })
}

/// A raw Tonghuashun entry: its code, market number and name, as read.
#[derive(Clone, Debug)]
pub struct ThsRaw {
    pub code: Option<String>,
    pub market: Option<i64>,
    pub name: Option<String>,
}

/// The market of a Tonghuashun entry: 17 Shanghai, 33 Shenzhen, anything
/// else (a missing number included) inferred from the code.
pub open spec fn ths_market_spec(market: Option<i64>, code: Seq<char>) -> Seq<char> {
    match market {
        Some(17) => sh(),
        Some(33) => sz(),
        _ => infer_market_spec(code),
    }
}

/// The entries of Tonghuashun's list among its first `limit` items: items
/// without a code are skipped; names are trimmed and dropped when blank.
pub open spec fn ths_entries_spec(items: Seq<(Option<Seq<char>>, Option<i64>, Option<Seq<char>>)>) -> Seq<(Seq<char>, Seq<char>, Option<Seq<char>>)>
    decreases items.len(),
{
    if items.len() == 0 {
        Seq::empty()
    } else {
        let prev = ths_entries_spec(items.drop_last());
        let it = items.last();
        let code = match it.0 {
            Some(c) => c,
            None => Seq::empty(),
        };
        let name = match it.2 {
            Some(n) => if trim(n).len() > 0 { Some(trim(n)) } else { None },
            None => None,
        };
        if code.len() == 0 {
            prev
        } else {
            prev.push((ths_market_spec(it.1, code), code, name))
        }
    }
}

/// A raw entry as plain values.
pub open spec fn ths_raw_view(r: ThsRaw) -> (Option<Seq<char>>, Option<i64>, Option<Seq<char>>) {
    (
        match r.code {
            Some(c) => Some(c@),
            None => None,
        },
        r.market,
        match r.name {
            Some(n) => Some(n@),
            None => None,
        },
    )
}

/// Reads the entries of Tonghuashun's popularity list, from at most its
/// first `limit` items.
pub fn ths_hot_entries(items: &[ThsRaw], limit: usize) -> (r: Vec<HotEntry>)
    ensures
        r@.map_values(|e: HotEntry| hot_entry_view(e)) == ths_entries_spec(
            items@.map_values(|x: ThsRaw| ths_raw_view(x)).take(if limit < items@.len() { limit as int } else { items@.len() as int }),
        ),
{
    let n = if limit < items.len() {
        limit
    } else {
        items.len()
    };
    let ghost iv = items@.map_values(|x: ThsRaw| ths_raw_view(x)).take(n as int);
    let mut out: Vec<HotEntry> = Vec::new();
    let mut i: usize = 0;
    while i < n
        invariant
            i <= n <= items.len(),
            iv == items@.map_values(|x: ThsRaw| ths_raw_view(x)).take(n as int),
            out@.map_values(|e: HotEntry| hot_entry_view(e)) == ths_entries_spec(iv.take(i as int)),
        decreases n - i,
    {
        assert(iv.take(i as int + 1).drop_last() =~= iv.take(i as int));
        assert(iv.take(i as int + 1).last() == ths_raw_view(items@[i as int]));
        let it = &items[i];
        let code = match &it.code {
            Some(c) => to_owned_string(c.as_str()),
            None => String::new(),
        };
        if to_chars(code.as_str()).len() > 0 {
            let market = match it.market {
                Some(m) => ths_market_to_str(m, code.as_str()),
                None => to_owned_string(infer_market(code.as_str())),
            };
            let name = match &it.name {
                Some(nm) => {
                    let t = trim_str(nm.as_str());
                    if to_chars(t.as_str()).len() > 0 {
                        Some(t)
                    } else {
                        None
                    }
                },
                None => None,
            };
            let e = HotEntry { market, code, name };
            let ghost before = out@;
            out.push(e);
            assert(out@.map_values(|e: HotEntry| hot_entry_view(e)) =~= before.map_values(
                |e: HotEntry| hot_entry_view(e),
            ).push(hot_entry_view(e)));
        }
        i += 1;
    }
    assert(iv.take(n as int) =~= iv);
    out
}

/// The stock shown for a popularity entry: its code and market, the name
/// chosen from the quote and the list, sector `人气榜`, marked popular.
pub fn hot_stock(entry: &HotEntry, quote_name: Option<&str>) -> (r: Stock)
    ensures
        r.code@ == entry.code@,
        r.market@ == entry.market@,
        r.name@ == hot_name_spec(opt_str_view(quote_name), match entry.name {
            Some(n) => Some(n@),
            None => None,
        }, entry.code@),
        r.sector@ == "人气榜"@,
        r.is_hot,
{
    let list_name: Option<&str> = match &entry.name {
        Some(n) => Some(n.as_str()),
        None => None,
    };
    Stock {
        code: to_owned_string(entry.code.as_str()),
        name: hot_display_name(quote_name, list_name, entry.code.as_str()),
        market: to_owned_string(entry.market.as_str()),
        sector: to_owned_string("人气榜"),
        is_hot: true,
    }
}

} // verus!
