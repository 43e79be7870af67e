//! The stock screener's rules: code normalisation, board filter, defaults,
//! and how the candidate universe is assembled.

use vstd::prelude::*;
use crate::cninfo::{law_normalize_code_idempotent, six_digit_code};
use crate::factor::{clamp_lookback, clamp_lookback_spec};
use crate::text::{
    decimal_spec, decimal_text, push_str,
    ascii_digits, is_ascii_digit, chars_ascii_digits, chars_lt, contains, from_chars, lemma_seq_lt_total,
    lemma_seq_lt_trans, seq_lt, starts_with, str_contains, str_eq, str_starts_with, string_of_range,
    to_chars, to_owned_string, zero_pad_chars,
};

verus! {

/// Most candidates scored in one screening run.
pub const MAX_UNIVERSE: usize = 120;

/// Entries taken from the popularity list.
pub const HOT_LIMIT: usize = 50;

/// Default horizon of a screening run, in trading days.
pub fn default_horizon() -> (r: u32)
    ensures
        r == 1,
{
    1
}

/// Default look-back of a screening run, in trading days.
pub fn default_lookback() -> (r: u32)
    ensures
        r == 50,
{
    50
}

/// Default number of hits returned.
pub fn default_top_n() -> (r: usize)
    ensures
        r == 20,
{
    20
}

/// Default number of candidates scored at once.
pub fn default_concurrency() -> (r: usize)
    ensures
        r == 4,
{
    4
}

/// Which candidate lists a screening universe draws from.
#[derive(Clone, Copy, Debug, PartialEq, Eq, Structural)]
pub enum ScreenUniverse {
    /// The popularity list only.
    Hot,
    /// The user's watch list only.
    Watchlist,
    /// The bundled seed list only.
    Seed,
    /// Popular stocks, then the watch list, then the seed list.
    Mixed,
}

/// The lists a universe reads, in the order they are merged: popular
/// stocks, watch list, seed list.
pub open spec fn universe_lists_spec(kind: ScreenUniverse) -> (bool, bool, bool) {
    match kind {
        ScreenUniverse::Hot => (true, false, false),
        ScreenUniverse::Watchlist => (false, true, false),
        ScreenUniverse::Seed => (false, false, true),
        ScreenUniverse::Mixed => (true, true, true),
    }
}

/// Which lists a universe of this kind reads.
pub fn universe_lists(kind: ScreenUniverse) -> (r: (bool, bool, bool))
    ensures
        r == universe_lists_spec(kind),
{
    match kind {
        ScreenUniverse::Hot => (true, false, false),
        ScreenUniverse::Watchlist => (false, true, false),
        ScreenUniverse::Seed => (false, false, true),
        ScreenUniverse::Mixed => (true, true, true),
    }
}

/// What a failed popularity fetch does to a run: a popular-only universe
/// fails with the error; a mixed one goes on without popular stocks.
pub fn hot_fetch_failure(kind: ScreenUniverse, err: &str) -> (r: Option<String>)
    ensures
        kind is Hot ==> (r matches Some(m) && m@ == "人气榜获取失败: "@ + err@),
        !(kind is Hot) ==> r is None,
{
    match kind {
        ScreenUniverse::Hot => {
            let mut m = to_owned_string("人气榜获取失败: ");
            push_str(&mut m, err);
            Some(m)
        }
        _ => None,
    }
}

/// The limits of one screening run.
#[derive(Clone, Copy, Debug, PartialEq, Eq, Structural)]
pub struct ScreenLimits {
    /// Hits returned.
    pub top_n: usize,
    /// Candidates scored at once.
    pub concurrency: usize,
    /// Look-back window of the composition, in trading days.
    pub lookback_days: u32,
    /// Bars fetched per candidate.
    pub fetch_limit: u32,
}

/// The limits of a run: 1 to 50 hits, 1 to 8 candidates at once, the
/// requested look-back when one is given (else the composition's), and
/// ten bars more than the supported window, at least 40.
pub open spec fn screen_limits_spec(top_n: int, concurrency: int, compose_lookback: int, requested_lookback: int) -> (int, int, int, int) {
    let lookback = if requested_lookback > 0 { requested_lookback } else { compose_lookback };
    let window = clamp_lookback_spec(lookback);
    (
        if top_n < 1 { 1 } else if top_n > 50 { 50 } else { top_n },
        if concurrency < 1 { 1 } else if concurrency > 8 { 8 } else { concurrency },
        lookback,
        if window + 10 < 40 { 40 } else { window + 10 },
    )
}

/// Works out the limits of a screening run from its request.
pub fn screen_limits(top_n: usize, concurrency: usize, compose_lookback: u32, requested_lookback: u32) -> (r: ScreenLimits)
    ensures
        (r.top_n as int, r.concurrency as int, r.lookback_days as int, r.fetch_limit as int) == screen_limits_spec(
            top_n as int,
            concurrency as int,
            compose_lookback as int,
            requested_lookback as int,
        ),
{
    let lookback_days = if requested_lookback > 0 { requested_lookback } else { compose_lookback };
    let window = clamp_lookback(lookback_days);
    let fetch: u32 = if window + 10 < 40 { 40 } else { (window + 10) as u32 };
    ScreenLimits {
        top_n: if top_n < 1 { 1 } else if top_n > 50 { 50 } else { top_n },
        concurrency: if concurrency < 1 { 1 } else if concurrency > 8 { 8 } else { concurrency },
        lookback_days,
        fetch_limit: fetch,
    }
}

/// The summary of a run in which no candidate passed the filters.
pub open spec fn empty_screen_summary_spec(universe_size: nat) -> Seq<char> {
    "股票池 "@ + decimal_spec(universe_size) + " 只，硬过滤后无候选。请放宽条件后重试。"@
}

/// Words the summary of a run in which no candidate passed the filters.
pub fn empty_screen_summary(universe_size: usize) -> (r: String)
    ensures
        r@ == empty_screen_summary_spec(universe_size as nat),
{
    let mut s = to_owned_string("股票池 ");
    let n = decimal_text(universe_size as u64);
    push_str(&mut s, n.as_str());
    push_str(&mut s, " 只，硬过滤后无候选。请放宽条件后重试。");
    s
}

/// The code a candidate is merged by: its six-digit code, or empty when it
/// has no digit at all.
pub open spec fn screen_key(code: Seq<char>) -> Seq<char> {
    if ascii_digits(code).len() == 0 {
        Seq::empty()
    } else {
        six_digit_code(code)
    }
}

/// Normalises a code to six digits (last six digits, or zero-padded); a
/// code without digits gives the empty string.
pub fn normalize_code(code: &str) -> (r: String)
    ensures
        r@ == screen_key(code@),
{
    let v = to_chars(code);
    let digits = chars_ascii_digits(&v);
    if digits.len() >= 6 {
        string_of_range(&digits, digits.len() - 6, digits.len())
    } else if digits.len() == 0 {
        String::new()
    } else {
        let padded = zero_pad_chars(&digits, 6);
        from_chars(&padded)
    }
}

/// A main-board code: six digits that do not start with 300, 301 or 688
/// (ChiNext, STAR) or with 8 or 4 (Beijing exchange).
pub open spec fn main_board_spec(code: Seq<char>) -> bool {
    let d = screen_key(code);
    &&& d.len() >= 6
    &&& !starts_with(d, "300"@)
    &&& !starts_with(d, "301"@)
    &&& !starts_with(d, "688"@)
    &&& !starts_with(d, "8"@)
    &&& !starts_with(d, "4"@)
}

/// Whether a code is listed on a main board.
pub fn is_main_board(code: &str) -> (r: bool)
    ensures
        r == main_board_spec(code@),
{
    let digits = normalize_code(code);
    let v = to_chars(digits.as_str());
    if v.len() < 6 {
        return false;
    }
    proof {
        let d = screen_key(code@);
        assert(d.len() == 6) by {
            if ascii_digits(code@).len() >= 6 {
            } else {
                assert(d == six_digit_code(code@));
            }
        }
    }
    let c = digits.as_str();
    !(str_starts_with(c, "300") || str_starts_with(c, "301") || str_starts_with(c, "688")
        || str_starts_with(c, "8") || str_starts_with(c, "4"))
}

/// `str::to_uppercase` (std): the Unicode upper case of a string.
pub uninterp spec fn upper_case(s: Seq<char>) -> Seq<char>;

/// `str::to_uppercase` (std); its result depends on the string alone.
#[verifier::external_body]
fn to_upper(s: &str) -> (r: String)
    ensures
        r@ == upper_case(s@),
{
    s.to_uppercase()
}

/// The name and board rules of the screen: special-treatment names ("ST"
/// once upper-cased) are dropped when asked, and so are codes off the main
/// boards when only those are wanted.
pub open spec fn name_board_spec(name: Seq<char>, code: Seq<char>, exclude_st: bool, main_board_only: bool) -> bool {
    &&& !(exclude_st && contains(upper_case(name), "ST"@))
    &&& !(main_board_only && !main_board_spec(code))
}

/// Whether a candidate passes the screen's name and board rules.
pub fn passes_name_and_board(name: &str, code: &str, exclude_st: bool, main_board_only: bool) -> (r: bool)
    ensures
        r == name_board_spec(name@, code@, exclude_st, main_board_only),
{
    if exclude_st {
        let upper = to_upper(name);
        if str_contains(upper.as_str(), "ST") {
            return false;
        }
    }
    if main_board_only && !is_main_board(code) {
        return false;
    }
    true
}

/// Candidate `i` is the first one with its (non-empty) merge code.
pub open spec fn first_of_code(codes: Seq<Seq<char>>, i: int) -> bool {
    &&& 0 <= i < codes.len()
    &&& screen_key(codes[i]).len() > 0
    &&& forall|j: int| 0 <= j < i ==> screen_key(#[trigger] codes[j]) != screen_key(codes[i])
}

/// Some candidate has a code with digits.
pub open spec fn has_candidate(codes: Seq<Seq<char>>) -> bool {
    exists|i: int| first_of_code(codes, i)
}

/// The universe, as indices into the candidates: first candidates of each
/// merge code, ordered by code, at most [`MAX_UNIVERSE`] of them, and the
/// ones left out sort after every one kept.
pub open spec fn is_universe(codes: Seq<Seq<char>>, r: Seq<usize>) -> bool {
    &&& r.len() <= MAX_UNIVERSE
    &&& forall|k: int| 0 <= k < r.len() ==> first_of_code(codes, #[trigger] r[k] as int)
    &&& forall|k1: int, k2: int|
        0 <= k1 < k2 < r.len() ==> seq_lt(codes[#[trigger] r[k1] as int], codes[#[trigger] r[k2] as int])
    &&& forall|i: int|
        first_of_code(codes, i) && !r.contains(i as usize) ==> r.len() == MAX_UNIVERSE && forall|k: int|
            0 <= k < r.len() ==> seq_lt(codes[#[trigger] r[k] as int], codes[i])
}

/// The message of an empty universe.
pub open spec fn empty_universe_message() -> Seq<char> {
    "股票池为空，请检查自选股或网络后重试"@
}

/// The codes of the candidates as plain values.
pub open spec fn codes_view(codes: Seq<String>) -> Seq<Seq<char>> {
    codes.map_values(|s: String| s@)
}

fn key_seen(keys: &Vec<String>, key: &String) -> (r: bool)
    ensures
        r == exists|j: int| 0 <= j < keys@.len() && keys@[j]@ == key@,
{
    let mut j: usize = 0;
    while j < keys.len()
        invariant
            j <= keys.len(),
            forall|t: int| 0 <= t < j ==> keys@[t]@ != key@,
        decreases keys.len() - j,
    {
        if str_eq(keys[j].as_str(), key.as_str()) {
            return true;
        }
        j += 1;
    }
    false
}

/// Assembles the screening universe from the candidates' codes (popular
/// stocks, watch list and seed list, in that order): the first candidate
/// of each six-digit code, ordered by code and cut at [`MAX_UNIVERSE`];
/// an error when no candidate has a code.
pub fn universe_order(codes: &[String]) -> (r: Result<Vec<usize>, String>)
    ensures
        has_candidate(codes_view(codes@)) ==> r is Ok && is_universe(codes_view(codes@), r->Ok_0@),
        !has_candidate(codes_view(codes@)) ==> r is Err && r->Err_0@ == empty_universe_message(),
{
    let ghost cv = codes_view(codes@);
    let mut keys: Vec<String> = Vec::new();
    let mut out: Vec<usize> = Vec::new();
    let mut i: usize = 0;
    while i < codes.len()
        invariant
            i <= codes.len(),
            cv == codes_view(codes@),
            keys@.len() == i,
            forall|j: int| 0 <= j < i ==> (#[trigger] keys@[j])@ == screen_key(cv[j]),
            forall|k: int| 0 <= k < out@.len() ==> (#[trigger] out@[k]) < i && first_of_code(cv, out@[k] as int),
            forall|j: int| 0 <= j < i && first_of_code(cv, j) ==> out@.contains(j as usize),
            forall|k1: int, k2: int|
                0 <= k1 < k2 < out@.len() ==> seq_lt(cv[#[trigger] out@[k1] as int], cv[#[trigger] out@[k2] as int]),
        decreases codes.len() - i,
    {
        let key = normalize_code(codes[i].as_str());
        assert(cv[i as int] == codes@[i as int]@);
        let seen = key_seen(&keys, &key);
        let nonempty = to_chars(key.as_str()).len() > 0;
        if nonempty && !seen {
            assert forall|j: int| 0 <= j < i implies screen_key(#[trigger] cv[j]) != screen_key(cv[i as int]) by {
                assert(keys@[j]@ == screen_key(cv[j]));
            }
            assert(first_of_code(cv, i as int));
            let ci = to_chars(codes[i].as_str());
            let mut p: usize = 0;
            while p < out.len() && chars_lt(&to_chars(codes[out[p]].as_str()), &ci)
                invariant
                    p <= out@.len(),
                    ci@ == cv[i as int],
                    cv == codes_view(codes@),
                    forall|k: int| 0 <= k < out@.len() ==> (#[trigger] out@[k]) < i && (out@[k] as int) < codes@.len(),
                    forall|k: int| 0 <= k < p ==> seq_lt(cv[#[trigger] out@[k] as int], cv[i as int]),
                decreases out@.len() - p,
            {
                assert(cv[out@[p as int] as int] == codes@[out@[p as int] as int]@);
                p += 1;
            }
            let ghost old_out = out@;
            proof {
                if p < out@.len() {
                    let q = old_out[p as int] as int;
                    assert(cv[q] == codes@[q]@);
                    assert(!seq_lt(cv[q], cv[i as int]));
                    assert(first_of_code(cv, q));
                    assert(screen_key(cv[q]) != screen_key(cv[i as int]));
                    lemma_seq_lt_total(cv[q], cv[i as int]);
                    assert(seq_lt(cv[i as int], cv[q]));
                }
            }
            out.insert(p, i);
            proof {
                let no = out@;
                assert(no == old_out.insert(p as int, i));
                assert forall|k1: int, k2: int| 0 <= k1 < k2 < no.len() implies seq_lt(
                    cv[#[trigger] no[k1] as int],
                    cv[#[trigger] no[k2] as int],
                ) by {
                    if k2 < p {
                        assert(no[k1] == old_out[k1] && no[k2] == old_out[k2]);
                    } else if k2 == p {
                        assert(no[k1] == old_out[k1]);
                    } else if k1 == p {
                        assert(no[k2] == old_out[k2 - 1]);
                        if k2 - 1 > p {
                            lemma_seq_lt_trans(cv[i as int], cv[old_out[p as int] as int], cv[old_out[k2 - 1] as int]);
                        }
                    } else if k1 < p {
                        assert(no[k1] == old_out[k1] && no[k2] == old_out[k2 - 1]);
                    } else {
                        assert(no[k1] == old_out[k1 - 1] && no[k2] == old_out[k2 - 1]);
                    }
                }
                assert forall|k: int| 0 <= k < no.len() implies (#[trigger] no[k]) < i + 1 && first_of_code(cv, no[k] as int) by {
                    if k < p {
                        assert(no[k] == old_out[k]);
                    } else if k > p {
                        assert(no[k] == old_out[k - 1]);
                    }
                }
                assert forall|j: int| 0 <= j < i + 1 && first_of_code(cv, j) implies no.contains(j as usize) by {
                    if j < i {
                        assert(old_out.contains(j as usize));
                        let k = choose|k: int| 0 <= k < old_out.len() && old_out[k] == j as usize;
                        if k < p {
                            assert(no[k] == j as usize);
                        } else {
                            assert(no[k + 1] == j as usize);
                        }
                    } else {
                        assert(no[p as int] == i);
                    }
                }
            }
        } else {
            proof {
                assert(!first_of_code(cv, i as int)) by {
                    if seen {
                        let j = choose|j: int| 0 <= j < keys@.len() && keys@[j]@ == key@;
                        assert(screen_key(cv[j]) == screen_key(cv[i as int]));
                    }
                }
            }
        }
        keys.push(key);
        proof {
            assert forall|j: int| 0 <= j < i + 1 implies (#[trigger] keys@[j])@ == screen_key(cv[j]) by {}
        }
        i += 1;
    }
    if out.len() == 0 {
        proof {
            assert(!has_candidate(cv)) by {
                if has_candidate(cv) {
                    let j = choose|j: int| first_of_code(cv, j);
                    assert(out@.contains(j as usize));
                }
            }
        }
        return Err(to_owned_string("股票池为空，请检查自选股或网络后重试"));
    }
    proof {
        assert(first_of_code(cv, out@[0] as int));
    }
    let ghost full = out@;
    out.truncate(MAX_UNIVERSE);
    proof {
        let r = out@;
        assert forall|j: int| first_of_code(cv, j) && !r.contains(j as usize) implies r.len() == MAX_UNIVERSE
            && forall|k: int| 0 <= k < r.len() ==> seq_lt(cv[#[trigger] r[k] as int], cv[j]) by {
            assert(full.contains(j as usize));
            let m = choose|m: int| 0 <= m < full.len() && full[m] == j as usize;
            if full.len() <= MAX_UNIVERSE {
                assert(r == full);
                assert(r[m] == j as usize);
            } else {
                assert(r =~= full.take(MAX_UNIVERSE as int));
                if m < MAX_UNIVERSE {
                    assert(r[m] == j as usize);
                }
                assert forall|k: int| 0 <= k < r.len() implies seq_lt(cv[#[trigger] r[k] as int], cv[j]) by {
                    assert(r[k] == full[k]);
                }
            }
        }
        assert forall|k: int| 0 <= k < r.len() implies first_of_code(cv, #[trigger] r[k] as int) by {
            assert(r[k] == full[k]);
        }
        assert forall|k1: int, k2: int| 0 <= k1 < k2 < r.len() implies seq_lt(
            cv[#[trigger] r[k1] as int],
            cv[#[trigger] r[k2] as int],
        ) by {
            assert(r[k1] == full[k1] && r[k2] == full[k2]);
        }
    }
    Ok(out)
}

/// Normalising a code twice gives the same code, and the board rule reads
/// a code and its normal form alike.
pub proof fn law_screen_code_stable(code: Seq<char>)
    ensures
        screen_key(screen_key(code)) == screen_key(code),
        main_board_spec(screen_key(code)) == main_board_spec(code),
{
    if ascii_digits(code).len() > 0 {
        law_normalize_code_idempotent(code);

    } else {
        assert(screen_key(code) == Seq::<char>::empty());
        assert(ascii_digits(Seq::<char>::empty()) =~= Seq::<char>::empty());
    }
}


proof fn lemma_ascii_digits_of_digits(s: Seq<char>)
    requires
        forall|i: int| 0 <= i < s.len() ==> is_ascii_digit(#[trigger] s[i]),
    ensures
        ascii_digits(s) == s,
    decreases s.len(),
{
    reveal_with_fuel(Seq::filter, 1);
    if s.len() > 0 {
        let rest = s.drop_last();
        assert forall|i: int| 0 <= i < rest.len() implies is_ascii_digit(#[trigger] rest[i]) by {
            assert(rest[i] == s[i]);
        }
        lemma_ascii_digits_of_digits(rest);
        assert(is_ascii_digit(s[s.len() - 1]));
        assert(rest.push(s.last()) =~= s);
    }
}

/// The main board is told by the first digits of the six-digit code alone:
/// a code is on it exactly when its six digits start with none of 300, 301,
/// 688 (ChiNext, STAR), 8 or 4 (Beijing); a code that is six digits already
/// is its own six-digit code, so every 000/001/002/003/600/601/603/605 code
/// is on the main board.
pub proof fn law_main_board_prefixes(code: Seq<char>)
    ensures
        ({
            let d = screen_key(code);
            main_board_spec(code) <==> (d.len() >= 6 && !(d[0] == '3' && d[1] == '0' && d[2] == '0') && !(d[0]
                == '3' && d[1] == '0' && d[2] == '1') && !(d[0] == '6' && d[1] == '8' && d[2] == '8') && d[0]
                != '8' && d[0] != '4')
        }),
        code.len() == 6 && (forall|i: int| 0 <= i < 6 ==> is_ascii_digit(#[trigger] code[i]))
            ==> screen_key(code) == code,
{
    reveal_strlit("300");
    reveal_strlit("301");
    reveal_strlit("688");
    reveal_strlit("8");
    reveal_strlit("4");
    let d = screen_key(code);
    if d.len() >= 6 {
        assert(starts_with(d, "300"@) <==> (d[0] == '3' && d[1] == '0' && d[2] == '0')) by {
            if d[0] == '3' && d[1] == '0' && d[2] == '0' {
                assert(d.subrange(0, 3) =~= "300"@);
            }
            if starts_with(d, "300"@) {
                assert(d.subrange(0, 3)[0] == d[0] && d.subrange(0, 3)[1] == d[1] && d.subrange(0, 3)[2] == d[2]);
            }
        }
        assert(starts_with(d, "301"@) <==> (d[0] == '3' && d[1] == '0' && d[2] == '1')) by {
            if d[0] == '3' && d[1] == '0' && d[2] == '1' {
                assert(d.subrange(0, 3) =~= "301"@);
            }
            if starts_with(d, "301"@) {
                assert(d.subrange(0, 3)[0] == d[0] && d.subrange(0, 3)[1] == d[1] && d.subrange(0, 3)[2] == d[2]);
            }
        }
        assert(starts_with(d, "688"@) <==> (d[0] == '6' && d[1] == '8' && d[2] == '8')) by {
            if d[0] == '6' && d[1] == '8' && d[2] == '8' {
                assert(d.subrange(0, 3) =~= "688"@);
            }
            if starts_with(d, "688"@) {
                assert(d.subrange(0, 3)[0] == d[0] && d.subrange(0, 3)[1] == d[1] && d.subrange(0, 3)[2] == d[2]);
            }
        }
        assert(starts_with(d, "8"@) <==> d[0] == '8') by {
            if d[0] == '8' {
                assert(d.subrange(0, 1) =~= "8"@);
            }
            if starts_with(d, "8"@) {
                assert(d.subrange(0, 1)[0] == d[0]);
            }
        }
        assert(starts_with(d, "4"@) <==> d[0] == '4') by {
            if d[0] == '4' {
                assert(d.subrange(0, 1) =~= "4"@);
            }
            if starts_with(d, "4"@) {
                assert(d.subrange(0, 1)[0] == d[0]);
            }
        }
    }
    if code.len() == 6 && (forall|i: int| 0 <= i < 6 ==> is_ascii_digit(#[trigger] code[i])) {
        lemma_ascii_digits_of_digits(code);
        assert(code.subrange(0, 6) =~= code);
    }
}

} // verus!
