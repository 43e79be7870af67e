//! A-share code ↔ data-source symbol mapping (Shanghai `SH`, Shenzhen `SZ`).

use vstd::prelude::*;
use crate::text::{
    chars_eq, chars_find, chars_starts_with, first_index_of, from_chars, push_char, push_str,
    starts_with, str_contains, contains, str_eq, string_of_range, to_chars, to_owned_string, trim,
    trim_bounds,
};

verus! {

/// `"SH"`.
pub open spec fn sh() -> Seq<char> {
    seq!['S', 'H']
}

/// `"SZ"`.
pub open spec fn sz() -> Seq<char> {
    seq!['S', 'Z']
}

fn is_exact(s: &str, a: char, b: char) -> (r: bool)
    ensures
        r == (s@ == seq![a, b]),
{
    let v = to_chars(s);
    let ok = v.len() == 2 && v[0] == a && v[1] == b;
    proof {
        if v.len() == 2 && v@[0] == a && v@[1] == b {
            assert(v@ =~= seq![a, b]);
        }
    }
    ok
}

/// A two-letter prefix followed by `code`.
fn prefixed(a: char, b: char, code: &str) -> (r: String)
    ensures
        r@ == seq![a, b] + code@,
{
    let mut s = String::new();
    push_char(&mut s, a);
    push_char(&mut s, b);
    push_str(&mut s, code);
    assert(s@ =~= seq![a, b] + code@);
    s
}

/// Tencent quote symbol: `sh{code}` for Shanghai, `sz{code}` otherwise.
pub fn to_tencent_symbol(market: &str, code: &str) -> (r: String)
    ensures
        market@ == sh() ==> r@ == seq!['s', 'h'] + code@,
        market@ != sh() ==> r@ == seq!['s', 'z'] + code@,
{
    if is_exact(market, 'S', 'H') {
        prefixed('s', 'h', code)
    } else {
        prefixed('s', 'z', code)
    }
}

/// Sina quote symbol: `sh{code}` for Shanghai, `sz{code}` otherwise.
pub fn to_sina_symbol(market: &str, code: &str) -> (r: String)
    ensures
        market@ == sh() ==> r@ == seq!['s', 'h'] + code@,
        market@ != sh() ==> r@ == seq!['s', 'z'] + code@,
{
    if is_exact(market, 'S', 'H') {
        prefixed('s', 'h', code)
    } else {
        prefixed('s', 'z', code)
    }
}

/// East Money `secid`: `0.{code}` for Shenzhen, `1.{code}` otherwise.
pub fn to_secid(market: &str, code: &str) -> (r: String)
    ensures
        market@ == sz() ==> r@ == seq!['0', '.'] + code@,
        market@ != sz() ==> r@ == seq!['1', '.'] + code@,
{
    if is_exact(market, 'S', 'Z') {
        prefixed('0', '.', code)
    } else {
        prefixed('1', '.', code)
    }
}

/// The market a code is listed on: Shanghai for codes starting with `6`
/// (main board and STAR `688`) or `5` (funds/ETFs), Shenzhen for every other
/// code (`0`, `3`, `1` funds; Beijing `8`/`4` codes use the Shenzhen feeds).
pub open spec fn infer_market_spec(code: Seq<char>) -> Seq<char> {
    let c = trim(code);
    if c.len() > 0 && (c[0] == '6' || c[0] == '5') {
        sh()
    } else {
        sz()
    }
}

/// Infers the market of a code: `"SH"` or `"SZ"`.
pub fn infer_market(code: &str) -> (r: &'static str)
    ensures
        r@ == infer_market_spec(code@),
{
    proof {
        reveal_strlit("SH");
        reveal_strlit("SZ");
        assert("SH"@ =~= sh());
        assert("SZ"@ =~= sz());
    }
    let v = to_chars(code);
    let (i, j) = trim_bounds(&v);
    if i < j && (v[i] == '6' || v[i] == '5') {
        assert(trim(code@)[0] == v@[i as int]);
        "SH"
    } else {
        proof {
            if trim(code@).len() > 0 {
                assert(trim(code@)[0] == v@[i as int]);
            }
        }
        "SZ"
    }
}

/// `(market, code)` of an East Money `sc` field such as `SH600519`: an
/// `SH`/`SZ` prefix is split off; without one, codes starting with `6` are
/// Shanghai and the rest Shenzhen.
pub open spec fn market_from_sc_spec(sc: Seq<char>) -> (Seq<char>, Seq<char>) {
    if starts_with(sc, sh()) {
        (sh(), sc.subrange(2, sc.len() as int))
    } else if starts_with(sc, sz()) {
        (sz(), sc.subrange(2, sc.len() as int))
    } else if sc.len() > 0 && sc[0] == '6' {
        (sh(), sc)
    } else {
        (sz(), sc)
    }
}

fn market_string(is_sh: bool) -> (r: String)
    ensures
        is_sh ==> r@ == sh(),
        !is_sh ==> r@ == sz(),
{
    let mut s = String::new();
    push_char(&mut s, 'S');
    if is_sh {
        push_char(&mut s, 'H');
    } else {
        push_char(&mut s, 'Z');
    }
    assert(is_sh ==> s@ =~= sh());
    assert(!is_sh ==> s@ =~= sz());
    s
}

/// Splits an East Money `sc` field into `(market, code)`.
pub fn parse_market_from_sc(sc: &str) -> (r: (String, String))
    ensures
        r.0@ == market_from_sc_spec(sc@).0,
        r.1@ == market_from_sc_spec(sc@).1,
{
    let v = to_chars(sc);
    let p_sh = vec!['S', 'H'];
    let p_sz = vec!['S', 'Z'];
    assert(p_sh@ == sh());
    assert(p_sz@ == sz());
    if chars_starts_with(&v, &p_sh) {
        (market_string(true), string_of_range(&v, 2, v.len()))
    } else if chars_starts_with(&v, &p_sz) {
        (market_string(false), string_of_range(&v, 2, v.len()))
    } else if v.len() > 0 && v[0] == '6' {
        (market_string(true), from_chars(&v))
    } else {
        (market_string(false), from_chars(&v))
    }
}

/// The code of a quote symbol such as `sh600519`: the trimmed symbol
/// without its `sh`/`sz`/`bj` prefix, when something follows it.
pub open spec fn strip_market_prefix_spec(sym: Seq<char>) -> Seq<char> {
    let s = trim(sym);
    if s.len() > 2 && (starts_with(s, seq!['s', 'h']) || starts_with(s, seq!['s', 'z'])
        || starts_with(s, seq!['b', 'j'])) {
        s.subrange(2, s.len() as int)
    } else {
        s
    }
}

/// Strips the `sh`/`sz`/`bj` prefix of a quote symbol.
pub fn strip_market_prefix(sym: &str) -> (r: String)
    ensures
        r@ == strip_market_prefix_spec(sym@),
{
    let v = to_chars(sym);
    let (i, j) = trim_bounds(&v);
    let s = string_of_range(&v, i, j);
    let t = to_chars(s.as_str());
    let a = vec!['s', 'h'];
    let b = vec!['s', 'z'];
    let c = vec!['b', 'j'];
    if t.len() > 2 && (chars_starts_with(&t, &a) || chars_starts_with(&t, &b) || chars_starts_with(
        &t,
        &c,
    )) {
        string_of_range(&t, 2, t.len())
    } else {
        s
    }
}

/// Market of a Tonghuashun hot-list entry: `17` is Shanghai, `33` Shenzhen,
/// anything else is inferred from the code.
pub fn ths_market_to_str(market: i64, code: &str) -> (r: String)
    ensures
        market == 17 ==> r@ == sh(),
        market == 33 ==> r@ == sz(),
        market != 17 && market != 33 ==> r@ == infer_market_spec(code@),
{
    if market == 17 {
        market_string(true)
    } else if market == 33 {
        market_string(false)
    } else {
        to_owned_string(infer_market(code))
    }
}

/// Market of an East Money search hit: the part of `QuoteID` before its
/// first `.` (`1` Shanghai, `0` Shenzhen, other: inferred), else `MktNum`
/// (1 Shanghai, 0 Shenzhen, other: inferred), else inferred from the code.
pub open spec fn search_market_spec(quote_id: Option<Seq<char>>, mkt_num: Option<i64>, code: Seq<char>) -> Seq<char> {
    if quote_id is Some && first_index_of(quote_id->0, '.') is Some {
        let mkt = quote_id->0.subrange(0, first_index_of(quote_id->0, '.')->0);
        if mkt == seq!['1'] {
            sh()
        } else if mkt == seq!['0'] {
            sz()
        } else {
            infer_market_spec(code)
        }
    } else if mkt_num is Some {
        if mkt_num->0 == 1 {
            sh()
        } else if mkt_num->0 == 0 {
            sz()
        } else {
            infer_market_spec(code)
        }
    } else {
        infer_market_spec(code)
    }
}

/// Market of a search hit from its `QuoteID` text and `MktNum` value.
pub fn market_from_search_fields(quote_id: Option<&str>, mkt_num: Option<i64>, code: &str) -> (r: String)
    ensures
        r@ == search_market_spec(
            match quote_id {
                Some(q) => Some(q@),
                None => None,
            },
            mkt_num,
            code@,
        ),
{
    if let Some(q) = quote_id {
        let v = to_chars(q);
        if let Some(dot) = chars_find(&v, '.') {
            let head = string_of_range(&v, 0, dot);
            if is_exact_one(head.as_str(), '1') {
                return market_string(true);
            } else if is_exact_one(head.as_str(), '0') {
                return market_string(false);
            } else {
                return to_owned_string(infer_market(code));
            }
        }
    }
    if let Some(n) = mkt_num {
        if n == 1 {
            return market_string(true);
        } else if n == 0 {
            return market_string(false);
        } else {
            return to_owned_string(infer_market(code));
        }
    }
    to_owned_string(infer_market(code))
}

fn is_exact_one(s: &str, a: char) -> (r: bool)
    ensures
        r == (s@ == seq![a]),
{
    let v = to_chars(s);
    let ok = v.len() == 1 && v[0] == a;
    proof {
        if ok {
            assert(v@ =~= seq![a]);
        }
    }
    ok
}

/// ASCII lower-case of a character.
pub open spec fn ascii_lower(c: char) -> char {
    if 'A' <= c && c <= 'Z' {
        ((c as u32 + 32) as u8) as char
    } else {
        c
    }
}

/// `str::eq_ignore_ascii_case`.
pub open spec fn eq_ignore_ascii_case(a: Seq<char>, b: Seq<char>) -> bool {
    a.len() == b.len() && forall|i: int| 0 <= i < a.len() ==> ascii_lower(#[trigger] a[i]) == ascii_lower(b[i])
}

fn ascii_lower_exec(c: char) -> (r: char)
    ensures
        r == ascii_lower(c),
{
    if 'A' <= c && c <= 'Z' {
        ((c as u32 + 32) as u8) as char
    } else {
        c
    }
}

fn eq_ignore_ascii_case_exec(a: &str, b: &str) -> (r: bool)
    ensures
        r == eq_ignore_ascii_case(a@, b@),
{
    let va = to_chars(a);
    let vb = to_chars(b);
    if va.len() != vb.len() {
        return false;
    }
    let mut i: usize = 0;
    while i < va.len()
        invariant
            va.len() == vb.len(),
            va@ == a@,
            vb@ == b@,
            i <= va.len(),
            forall|k: int| 0 <= k < i ==> ascii_lower(#[trigger] va@[k]) == ascii_lower(vb@[k]),
        decreases va.len() - i,
    {
        if ascii_lower_exec(va[i]) != ascii_lower_exec(vb[i]) {
            assert(a@[i as int] == va@[i as int] && b@[i as int] == vb@[i as int]);
            assert(!(ascii_lower(a@[i as int]) == ascii_lower(b@[i as int])));
            return false;
        }
        i += 1;
    }
    true
}

/// Sector label of a search hit: `"ETF"` for funds (`Classify` equal to
/// `Fund` ignoring ASCII case, a security type mentioning 基金, or a name
/// containing `ETF` or 基金), `"—"` otherwise.
pub open spec fn search_sector_spec(classify: Seq<char>, security: Seq<char>, name: Seq<char>) -> Seq<char> {
    if eq_ignore_ascii_case(classify, "Fund"@) || contains(security, "基金"@) || contains(name, "ETF"@)
        || contains(name, "基金"@) {
        "ETF"@
    } else {
        "—"@
    }
}

/// Sector label of a search hit from its `Classify`, `SecurityTypeName` and
/// name.
pub fn sector_from_search_fields(classify: &str, security: &str, name: &str) -> (r: String)
    ensures
        r@ == search_sector_spec(classify@, security@, name@),
{
    if eq_ignore_ascii_case_exec(classify, "Fund") || str_contains(security, "基金") || str_contains(
        name,
        "ETF",
    ) || str_contains(name, "基金") {
        to_owned_string("ETF")
    } else {
        to_owned_string("—")
    }
}

/// A Shanghai or Shenzhen `sc` field splits back into the market and the
/// code it was made of.
pub proof fn law_sc_round_trip(code: Seq<char>)
    ensures
        market_from_sc_spec(sh() + code) == (sh(), code),
        market_from_sc_spec(sz() + code) == (sz(), code),
{
    assert((sh() + code).subrange(0, 2) =~= sh());
    assert((sh() + code).subrange(2, (sh() + code).len() as int) =~= code);
    assert((sz() + code).subrange(0, 2) =~= sz());
    assert((sz() + code).subrange(2, (sz() + code).len() as int) =~= code);
    assert(!starts_with(sz() + code, sh())) by {
        assert((sz() + code)[1] != sh()[1]);
    }
}


/// The market follows the first character of the trimmed code alone:
/// Shanghai when it is `6` or `5`, whatever follows, Shenzhen otherwise.
pub proof fn law_infer_market_by_first_digit(code: Seq<char>)
    ensures
        trim(code).len() > 0 && (trim(code)[0] == '6' || trim(code)[0] == '5') ==> infer_market_spec(code)
            == seq!['S', 'H'],
        !(trim(code).len() > 0 && (trim(code)[0] == '6' || trim(code)[0] == '5')) ==> infer_market_spec(code)
            == seq!['S', 'Z'],
{
}

} // verus!
