//! Choices around the technical factor model: its look-back window and the
//! factor style that suits a security.

use vstd::prelude::*;
use crate::models::Stock;
use crate::text::{contains, starts_with, str_contains, str_eq, str_starts_with};

verus! {

/// Factor style: single stocks use trend plus overbought/oversold; broad
/// A-share index ETFs use an MA20 trend filter with next-day reversal.
#[derive(Clone, Copy, Debug, PartialEq, Eq, Structural)]
pub enum FactorStyle {
    Default,
    IndexEtf,
}

/// Fewest daily bars the factor model works on.
pub const MIN_BARS: usize = 25;

/// The look-back window used for a requested one: the supported windows
/// 25, 50, 60, 90 and 120 stay; shorter requests use 25, longer ones 120,
/// anything else between uses 50.
pub open spec fn clamp_lookback_spec(days: int) -> int {
    if days == 25 || days == 50 || days == 60 || days == 90 || days == 120 {
        days
    } else if days < 25 {
        25
    } else if days > 120 {
        120
    } else {
        50
    }
}

/// Snaps a requested look-back window to a supported one.
pub fn clamp_lookback(days: u32) -> (r: usize)
    ensures
        r == clamp_lookback_spec(days as int),
{
    if days == 25 || days == 50 || days == 60 || days == 90 || days == 120 {
        days as usize
    } else if days < 25 {
        25
    } else if days > 120 {
        120
    } else {
        50
    }
}

/// Index of the first bar kept by a look-back of `lookback` bars (at least
/// [`MIN_BARS`]) over `len` bars.
pub open spec fn lookback_start(len: int, lookback: int) -> int {
    let n = if lookback < MIN_BARS { MIN_BARS as int } else { lookback };
    if len <= n {
        0
    } else {
        len - n
    }
}

/// The last `max(lookback, MIN_BARS)` bars, or all of them when there are
/// no more.
pub fn take_lookback<'a, T>(bars: &'a [T], lookback: usize) -> (r: &'a [T])
    ensures
        r@ == bars@.subrange(lookback_start(bars@.len() as int, lookback as int), bars@.len() as int),
{
    let n = if lookback < MIN_BARS {
        MIN_BARS
    } else {
        lookback
    };
    if bars.len() <= n {
        assert(bars@.subrange(0, bars@.len() as int) =~= bars@);
        bars
    } else {
        vstd::slice::slice_subrange(bars, bars.len() - n, bars.len())
    }
}

/// Overseas and gold ETFs, which keep the default style.
pub open spec fn is_overseas_or_gold(name: Seq<char>, code: Seq<char>) -> bool {
    ||| contains(name, "纳指"@)
    ||| contains(name, "标普"@)
    ||| contains(name, "道指"@)
    ||| contains(name, "黄金"@)
    ||| starts_with(code, "513"@)
    ||| code == "518880"@
    ||| code == "518800"@
}

/// Broad-index ETFs named outright.
pub open spec fn is_named_broad_index(name: Seq<char>, code: Seq<char>) -> bool {
    ||| contains(name, "沪深300"@)
    ||| contains(name, "中证500"@)
    ||| contains(name, "中证1000"@)
    ||| contains(name, "上证50"@)
    ||| contains(name, "上证指数"@)
    ||| contains(name, "上证综指"@)
    ||| contains(name, "创业板"@)
    ||| contains(name, "科创50"@)
    ||| contains(name, "红利"@)
    ||| code == "510980"@
    ||| code == "510300"@
    ||| code == "510500"@
    ||| code == "510050"@
    ||| code == "159915"@
    ||| code == "588000"@
}

/// The factor style of a security: anything that is not an ETF (by sector
/// or name) and overseas or gold ETFs use the default style; every other
/// A-share ETF, broad-index ones first of all, uses the index style.
pub open spec fn style_spec(name: Seq<char>, code: Seq<char>, sector: Seq<char>) -> FactorStyle {
    let is_etf = sector == "ETF"@ || contains(name, "ETF"@);
    if !is_etf {
        FactorStyle::Default
    } else if is_overseas_or_gold(name, code) {
        FactorStyle::Default
    } else {
        FactorStyle::IndexEtf
    }
}

fn overseas_or_gold(name: &str, code: &str) -> (r: bool)
    ensures
        r == is_overseas_or_gold(name@, code@),
{
    str_contains(name, "纳指") || str_contains(name, "标普") || str_contains(name, "道指")
        || str_contains(name, "黄金") || str_starts_with(code, "513") || str_eq(code, "518880")
        || str_eq(code, "518800")
}

fn named_broad_index(name: &str, code: &str) -> (r: bool)
    ensures
        r == is_named_broad_index(name@, code@),
{
    str_contains(name, "沪深300") || str_contains(name, "中证500") || str_contains(name, "中证1000")
        || str_contains(name, "上证50") || str_contains(name, "上证指数") || str_contains(
        name,
        "上证综指",
    ) || str_contains(name, "创业板") || str_contains(name, "科创50") || str_contains(name, "红利")
        || str_eq(code, "510980") || str_eq(code, "510300") || str_eq(code, "510500") || str_eq(
        code,
        "510050",
    ) || str_eq(code, "159915") || str_eq(code, "588000")
}

/// Picks the technical factor style for a security.
pub fn style_for_stock(stock: &Stock) -> (r: FactorStyle)
    ensures
        r == style_spec(stock.name@, stock.code@, stock.sector@),
{
    let name = stock.name.as_str();
    let code = stock.code.as_str();
    let is_etf = str_eq(stock.sector.as_str(), "ETF") || str_contains(name, "ETF");
    if !is_etf {
        return FactorStyle::Default;
    }
    if overseas_or_gold(name, code) {
        return FactorStyle::Default;
    }
    if named_broad_index(name, code) {
        return FactorStyle::IndexEtf;
    }
    FactorStyle::IndexEtf
}

/// The look-back in use is always a supported window, and a supported
/// window is kept as it is.
pub proof fn law_lookback_supported(days: int)
    ensures
        ({
            let r = clamp_lookback_spec(days);
            (r == 25 || r == 50 || r == 60 || r == 90 || r == 120) && clamp_lookback_spec(r) == r
        }),
{
}

} // verus!
