//! Reading the plain-text quote replies of Tencent and Sina: which lines
//! carry a quote, the code each one is for, and its fields.
//!
//! Numbers are read from the fields by the caller.

use vstd::prelude::*;
use crate::symbol::{strip_market_prefix, strip_market_prefix_spec};
use crate::text::{
    chars_find, chars_rfind, chars_starts_with, first_index_of, from_chars, last_index_of,
    pieces_view, split_chars, split_spec, starts_with, string_of_range, strip_back_all,
    strip_char_bounds, to_chars, trim, trim_bounds, trim_matches_spec, trim_str,
};

verus! {

/// One quote line: the code it is for and its fields, in order.
#[derive(Clone, Debug)]
pub struct QuoteRow {
    pub code: String,
    pub fields: Vec<String>,
}

/// A row as plain values.
pub open spec fn row_view(r: QuoteRow) -> (Seq<char>, Seq<Seq<char>>) {
    (r.code@, r.fields@.map_values(|f: String| f@))
}

/// Fewest fields of a Tencent quote.
pub const TENCENT_MIN_FIELDS: usize = 35;
/// Fewest fields of a Sina quote.
pub const SINA_MIN_FIELDS: usize = 10;

/// A trimmed Tencent line `v_<symbol>="f0~f1~...";`: its code (field 2
/// when present and non-empty, else the symbol without its market prefix)
/// and its `~`-separated fields; `None` for lines that carry no quote.
pub open spec fn tencent_line_spec(line: Seq<char>) -> Option<(Seq<char>, Seq<Seq<char>>)> {
    if !starts_with(line, seq!['v', '_']) {
        None
    } else {
        let rest = line.subrange(2, line.len() as int);
        match first_index_of(rest, '=') {
            None => None,
            Some(e) => {
                let sym = rest.subrange(0, e);
                let body = strip_back_all(trim_matches_spec(trim(rest.subrange(e + 1, rest.len() as int)), '"'), ';');
                let fields = split_spec(body, '~');
                let code = if fields.len() > 2 && fields[2].len() > 0 {
                    fields[2]
                } else {
                    strip_market_prefix_spec(sym)
                };
                if body.len() == 0 || body == seq!['1'] || fields.len() < TENCENT_MIN_FIELDS || code.len() == 0 {
                    None
                } else {
                    Some((code, fields))
                }
            },
        }
    }
}

/// A trimmed Sina line `var hq_str_<symbol>="f0,f1,...";`: the code of the
/// symbol after the last `_` of the left side, and the `,`-separated fields
/// of the right side; `None` for lines that carry no quote.
pub open spec fn sina_line_spec(line: Seq<char>) -> Option<(Seq<char>, Seq<Seq<char>>)> {
    match first_index_of(line, '=') {
        None => None,
        Some(e) => {
            let left = line.subrange(0, e);
            let right = trim_matches_spec(trim_matches_spec(trim(line.subrange(e + 1, line.len() as int)), ';'), '"');
            let after = match last_index_of(left, '_') {
                Some(u) => left.subrange(u + 1, left.len() as int),
                None => left,
            };
            let code = strip_market_prefix_spec(trim(after));
            let fields = split_spec(right, ',');
            if right.len() == 0 || code.len() == 0 || fields.len() < SINA_MIN_FIELDS {
                None
            } else {
                Some((code, fields))
            }
        },
    }
}

/// The quotes of a reply, line by line (lines trimmed, blank ones
/// skipped), for Tencent's format or Sina's.
pub open spec fn rows_spec(lines: Seq<Seq<char>>, tencent: bool) -> Seq<(Seq<char>, Seq<Seq<char>>)>
    decreases lines.len(),
{
    if lines.len() == 0 {
        Seq::empty()
    } else {
        let prev = rows_spec(lines.drop_last(), tencent);
        let t = trim(lines.last());
        let row = if tencent { tencent_line_spec(t) } else { sina_line_spec(t) };
        if t.len() == 0 {
            prev
        } else {
            match row {
                Some(r) => prev.push(r),
                None => prev,
            }
        }
    }
}

fn strings_of(pieces: &Vec<Vec<char>>) -> (r: Vec<String>)
    ensures
        r@.map_values(|f: String| f@) == pieces_view(pieces@),
{
    let mut out: Vec<String> = Vec::new();
    let mut i: usize = 0;
    while i < pieces.len()
        invariant
            i <= pieces.len(),
            out@.map_values(|f: String| f@) == pieces_view(pieces@).take(i as int),
        decreases pieces.len() - i,
    {
        let s = from_chars(pieces[i].as_slice());
        assert(s@ == pieces_view(pieces@)[i as int]);
        let ghost before = out@;
        out.push(s);
        assert(pieces_view(pieces@).take(i as int + 1) =~= pieces_view(pieces@).take(i as int).push(s@));
        assert(out@.map_values(|f: String| f@) =~= pieces_view(pieces@).take(i as int + 1));
        i += 1;
    }
    assert(pieces_view(pieces@).take(pieces.len() as int) =~= pieces_view(pieces@));
    out
}

fn tencent_line(t: &[char]) -> (r: Option<QuoteRow>)
    ensures
        match r {
            Some(row) => tencent_line_spec(t@) == Some(row_view(row)),
            None => tencent_line_spec(t@) is None,
        },
{
    let prefix = vec!['v', '_'];
    assert(prefix@ == seq!['v', '_']);
    if !chars_starts_with(t, &prefix) {
        return None;
    }
    let rest_s = string_of_range(t, 2, t.len());
    let rest = to_chars(rest_s.as_str());
    let e = match chars_find(&rest, '=') {
        Some(e) => e,
        None => return None,
    };
    let sym = string_of_range(&rest, 0, e);
    let after = string_of_range(&rest, e + 1, rest.len());
    let av = to_chars(after.as_str());
    let (a0, a1) = trim_bounds(&av);
    let trimmed = to_chars(string_of_range(&av, a0, a1).as_str());
    let (q0, q1) = strip_char_bounds(&trimmed, '"', true);
    let unquoted = to_chars(string_of_range(&trimmed, q0, q1).as_str());
    let (s0, s1) = strip_char_bounds(&unquoted, ';', false);
    let body = to_chars(string_of_range(&unquoted, s0, s1).as_str());
    assert(s0 == 0);
    if body.len() == 0 || (body.len() == 1 && body[0] == '1') {
        proof {
            if body.len() == 1 {
                assert(body@ =~= seq!['1']);
            }
        }
        return None;
    }
    assert(body@ != seq!['1']);
    let pieces = split_chars(&body, '~');
    if pieces.len() < TENCENT_MIN_FIELDS {
        return None;
    }
    let fields = strings_of(&pieces);
    let code = if pieces.len() > 2 && pieces[2].len() > 0 {
        from_chars(pieces[2].as_slice())
    } else {
        strip_market_prefix(sym.as_str())
    };
    if to_chars(code.as_str()).len() == 0 {
        return None;
    }
    Some(QuoteRow { code, fields })
}

fn sina_line(t: &[char]) -> (r: Option<QuoteRow>)
    ensures
        match r {
            Some(row) => sina_line_spec(t@) == Some(row_view(row)),
            None => sina_line_spec(t@) is None,
        },
{
    let e = match chars_find(t, '=') {
        Some(e) => e,
        None => return None,
    };
    let left = to_chars(string_of_range(t, 0, e).as_str());
    let rv = to_chars(string_of_range(t, e + 1, t.len()).as_str());
    let (r0, r1) = trim_bounds(&rv);
    let trimmed = to_chars(string_of_range(&rv, r0, r1).as_str());
    let (m0, m1) = strip_char_bounds(&trimmed, ';', true);
    let mid = to_chars(string_of_range(&trimmed, m0, m1).as_str());
    let (q0, q1) = strip_char_bounds(&mid, '"', true);
    let right = to_chars(string_of_range(&mid, q0, q1).as_str());
    if right.len() == 0 {
        return None;
    }
    let after = match chars_rfind(&left, '_') {
        Some(u) => string_of_range(&left, u + 1, left.len()),
        None => from_chars(&left),
    };
    let sym = trim_str(after.as_str());
    let code = strip_market_prefix(sym.as_str());
    if to_chars(code.as_str()).len() == 0 {
        return None;
    }
    let pieces = split_chars(&right, ',');
    if pieces.len() < SINA_MIN_FIELDS {
        return None;
    }
    let fields = strings_of(&pieces);
    Some(QuoteRow { code, fields })
}

/// Splits a reply into its quote rows, in line order.
pub fn parse_quote_rows(text: &str, tencent: bool) -> (r: Vec<QuoteRow>)
    ensures
        r@.map_values(|x: QuoteRow| row_view(x)) == rows_spec(split_spec(text@, '\n'), tencent),
{
    let chars = to_chars(text);
    let lines = split_chars(&chars, '\n');
    let ghost lv = pieces_view(lines@);
    let mut out: Vec<QuoteRow> = Vec::new();
    let mut i: usize = 0;
    while i < lines.len()
        invariant
            i <= lines.len(),
            lv == pieces_view(lines@),
            lv == split_spec(text@, '\n'),
            out@.map_values(|x: QuoteRow| row_view(x)) == rows_spec(lv.take(i as int), tencent),
        decreases lines.len() - i,
    {
        assert(lv.take(i as int + 1).drop_last() =~= lv.take(i as int));
        assert(lv.take(i as int + 1).last() == lines@[i as int]@);
        let (a, b) = trim_bounds(lines[i].as_slice());
        let t = to_chars(string_of_range(lines[i].as_slice(), a, b).as_str());
        if t.len() > 0 {
            let row = if tencent {
                tencent_line(&t)
            } else {
                sina_line(&t)
            };
            match row {
                Some(rw) => {
                    let ghost before = out@;
                    out.push(rw);
                    assert(out@.map_values(|x: QuoteRow| row_view(x)) =~= before.map_values(
                        |x: QuoteRow| row_view(x),
                    ).push(row_view(rw)));
                },
                None => {},
            }
        }
        i += 1;
    }
    assert(lv.take(lines.len() as int) =~= lv);
    out
}

} // verus!
