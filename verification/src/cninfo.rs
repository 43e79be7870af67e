//! Announcement archive of a stock and the text handling of the
//! announcement/news sources: code normalisation, request encoding, HTML
//! stripping and JSON(P) body extraction.

use vstd::prelude::*;
use vstd::string::StringSliceAdditionalSpecFns;
use crate::calendar::{Date, MIN_DAYS};
use crate::text::{
    seq_le, seq_lt, lemma_seq_lt_total, lemma_seq_lt_trans, chars_lt, str_eq as text_str_eq,
    ascii_digits, chars_ascii_digits, chars_find, chars_rfind, first_index_of, from_chars,
    is_white_space, last_index_of, push_char, str_eq, string_of_range, to_chars, trim, trim_bounds,
    trim_str, zero_pad, zero_pad_chars, is_ascii_digit, repeat_char,
};
use vstd::seq_lib::group_to_multiset_ensures;

verus! {

/// The six-digit code: the last six ASCII digits of `code`, or all of them
/// left-padded with '0' to six.
pub open spec fn six_digit_code(code: Seq<char>) -> Seq<char> {
    let d = ascii_digits(code);
    if d.len() >= 6 {
        d.subrange(d.len() - 6, d.len() as int)
    } else {
        zero_pad(d, 6)
    }
}

/// Keeps only a six-digit code (prefixes such as `SH` dropped, short codes
/// zero-padded).
pub fn normalize_code(code: &str) -> (r: String)
    ensures
        r@ == six_digit_code(code@),
{
    let v = to_chars(code);
    let digits = chars_ascii_digits(&v);
    if digits.len() >= 6 {
        string_of_range(&digits, digits.len() - 6, digits.len())
    } else {
        let padded = zero_pad_chars(&digits, 6);
        from_chars(&padded)
    }
}

/// The market is Shenzhen (`"SZ"` or `"sz"`).
pub open spec fn is_sz(market: Seq<char>) -> bool {
    market == seq!['S', 'Z'] || market == seq!['s', 'z']
}

fn is_sz_exec(market: &str) -> (r: bool)
    ensures
        r == is_sz(market@),
{
    proof {
        reveal_strlit("SZ");
        reveal_strlit("sz");
        assert("SZ"@ =~= seq!['S', 'Z']);
        assert("sz"@ =~= seq!['s', 'z']);
    }
    str_eq(market, "SZ") || str_eq(market, "sz")
}

/// The cninfo `(column, plate)` pair of a market: `("szse", "sz")` for
/// Shenzhen, `("sse", "sh")` otherwise.
pub fn market_column_plate(market: &str) -> (r: (&'static str, &'static str))
    ensures
        is_sz(market@) ==> r.0@ == seq!['s', 'z', 's', 'e'] && r.1@ == seq!['s', 'z'],
        !is_sz(market@) ==> r.0@ == seq!['s', 's', 'e'] && r.1@ == seq!['s', 'h'],
{
    proof {
        reveal_strlit("szse");
        reveal_strlit("sz");
        reveal_strlit("sse");
        reveal_strlit("sh");
    }
    if is_sz_exec(market) {
        ("szse", "sz")
    } else {
        ("sse", "sh")
    }
}

/// The guessed cninfo organisation id: `gssz` or `gssh` followed by the
/// trimmed code left-padded with '0' to seven characters.
pub open spec fn org_id_spec(market: Seq<char>, code: Seq<char>) -> Seq<char> {
    let prefix = if is_sz(market) {
        seq!['g', 's', 's', 'z']
    } else {
        seq!['g', 's', 's', 'h']
    };
    prefix + zero_pad(trim(code), 7)
}

/// The organisation id cninfo most often uses for a code, used until a
/// lookup gives the real one.
pub fn heuristic_org_id(market: &str, code: &str) -> (r: String)
    ensures
        r@ == org_id_spec(market@, code@),
{
    let v = to_chars(code);
    let (i, j) = trim_bounds(&v);
    let mut trimmed: Vec<char> = Vec::new();
    let mut k: usize = i;
    while k < j
        invariant
            i <= k <= j <= v.len(),
            trimmed@ == v@.subrange(i as int, k as int),
        decreases j - k,
    {
        trimmed.push(v[k]);
        assert(v@.subrange(i as int, k + 1) == v@.subrange(i as int, k as int).push(v@[k as int]));
        k += 1;
    }
    let padded = zero_pad_chars(&trimmed, 7);
    let mut out = String::new();
    push_char(&mut out, 'g');
    push_char(&mut out, 's');
    push_char(&mut out, 's');
    if is_sz_exec(market) {
        push_char(&mut out, 'z');
    } else {
        push_char(&mut out, 'h');
    }
    let mut m: usize = 0;
    let ghost pre = out@;
    while m < padded.len()
        invariant
            m <= padded.len(),
            out@ == pre + padded@.take(m as int),
        decreases padded.len() - m,
    {
        push_char(&mut out, padded[m]);
        assert(padded@.take(m as int + 1) == padded@.take(m as int).push(padded@[m as int]));
        m += 1;
    }
    assert(padded@.take(padded.len() as int) == padded@);
    assert(out@ =~= org_id_spec(market@, code@));
    out
}

/// Bytes sent as they are in a form body: ASCII letters, digits and `-_.~`.
pub open spec fn is_unreserved(b: u8) -> bool {
    (65 <= b <= 90) || (97 <= b <= 122) || (48 <= b <= 57) || b == 45 || b == 95 || b == 46 || b
        == 126
}

/// Upper-case hex digit of a nibble.
pub open spec fn hex_upper(n: int) -> char {
    if n < 10 {
        ((n + 48) as u8) as char
    } else {
        ((n + 55) as u8) as char
    }
}

/// Percent-encoding of one byte.
pub open spec fn encode_byte(b: u8) -> Seq<char> {
    if is_unreserved(b) {
        seq![b as char]
    } else {
        seq!['%', hex_upper(b as int / 16), hex_upper(b as int % 16)]
    }
}

/// Percent-encoding of a byte string.
pub open spec fn url_encode(bytes: Seq<u8>) -> Seq<char>
    decreases bytes.len(),
{
    if bytes.len() == 0 {
        Seq::empty()
    } else {
        url_encode(bytes.drop_last()) + encode_byte(bytes.last())
    }
}

fn hex_upper_exec(n: u8) -> (r: char)
    requires
        n < 16,
    ensures
        r == hex_upper(n as int),
{
    if n < 10 {
        (n + 48) as char
    } else {
        (n + 55) as char
    }
}

/// Percent-encodes the UTF-8 bytes of `s` for a form body (unreserved
/// bytes kept, others as `%XX` in upper-case hex).
pub fn urlencoding_simple(s: &str) -> (r: String)
    ensures
        r@ == url_encode(s.spec_bytes()),
{
    let bytes = s.as_bytes();
    let mut out = String::new();
    let mut i: usize = 0;
    while i < bytes.len()
        invariant
            i <= bytes.len(),
            bytes@ == s.spec_bytes(),
            out@ == url_encode(bytes@.take(i as int)),
        decreases bytes.len() - i,
    {
        let b = bytes[i];
        proof {
            assert(bytes@.take(i as int + 1).drop_last() == bytes@.take(i as int));
            assert(bytes@.take(i as int + 1).last() == b);
        }
        if (65 <= b && b <= 90) || (97 <= b && b <= 122) || (48 <= b && b <= 57) || b == 45 || b
            == 95 || b == 46 || b == 126 {
            push_char(&mut out, b as char);
        } else {
            push_char(&mut out, '%');
            push_char(&mut out, hex_upper_exec(b / 16));
            push_char(&mut out, hex_upper_exec(b % 16));
        }
        assert(out@ =~= url_encode(bytes@.take(i as int + 1)));
        i += 1;
    }
    assert(bytes@.take(bytes.len() as int) == bytes@);
    out
}

/// Characters outside `<...>` tags: a `<` opens a tag, a `>` closes it, and
/// neither is kept.
pub open spec fn strip_tags(s: Seq<char>, in_tag: bool) -> Seq<char>
    decreases s.len(),
{
    if s.len() == 0 {
        Seq::empty()
    } else if s[0] == '<' {
        strip_tags(s.drop_first(), true)
    } else if s[0] == '>' {
        strip_tags(s.drop_first(), false)
    } else if in_tag {
        strip_tags(s.drop_first(), in_tag)
    } else {
        seq![s[0]] + strip_tags(s.drop_first(), in_tag)
    }
}

/// What `str::replace(from, to)` gives: every non-overlapping occurrence of
/// `from`, scanning left to right, replaced by `to`.
pub open spec fn replace_all(s: Seq<char>, from: Seq<char>, to: Seq<char>) -> Seq<char>
    recommends
        from.len() > 0,
    decreases s.len(),
{
    if s.len() == 0 || from.len() == 0 {
        s
    } else if from.len() <= s.len() && s.subrange(0, from.len() as int) == from {
        to + replace_all(s.subrange(from.len() as int, s.len() as int), from, to)
    } else {
        seq![s[0]] + replace_all(s.drop_first(), from, to)
    }
}

/// Title text of an HTML snippet: tags removed, the entities `&nbsp;`,
/// `&amp;`, `&lt;`, `&gt;` decoded (in that order), double quotes dropped,
/// whitespace trimmed.
pub open spec fn strip_html_spec(s: Seq<char>) -> Seq<char> {
    let a = strip_tags(s, false);
    let b = replace_all(a, "&nbsp;"@, " "@);
    let c = replace_all(b, "&amp;"@, "&"@);
    let d = replace_all(c, "&lt;"@, "<"@);
    let e = replace_all(d, "&gt;"@, ">"@);
    let f = replace_all(e, "\""@, ""@);
    trim(f)
}

proof fn lemma_strip_tags_step(s: Seq<char>, i: int, in_tag: bool)
    requires
        0 <= i < s.len(),
    ensures
        strip_tags(s.subrange(i, s.len() as int), in_tag) == (if s[i] == '<' {
            strip_tags(s.subrange(i + 1, s.len() as int), true)
        } else if s[i] == '>' {
            strip_tags(s.subrange(i + 1, s.len() as int), false)
        } else if in_tag {
            strip_tags(s.subrange(i + 1, s.len() as int), in_tag)
        } else {
            seq![s[i]] + strip_tags(s.subrange(i + 1, s.len() as int), in_tag)
        }),
{
    let t = s.subrange(i, s.len() as int);
    assert(t[0] == s[i]);
    assert(t.drop_first() == s.subrange(i + 1, s.len() as int));
}

fn strip_tags_exec(v: &[char]) -> (r: Vec<char>)
    ensures
        r@ == strip_tags(v@, false),
{
    let mut out: Vec<char> = Vec::new();
    let mut in_tag = false;
    let mut i: usize = 0;
    assert(v@.subrange(0, v.len() as int) == v@);
    while i < v.len()
        invariant
            i <= v.len(),
            out@ + strip_tags(v@.subrange(i as int, v.len() as int), in_tag) == strip_tags(
                v@,
                false,
            ),
        decreases v.len() - i,
    {
        proof {
            lemma_strip_tags_step(v@, i as int, in_tag);
        }
        let c = v[i];
        if c == '<' {
            in_tag = true;
        } else if c == '>' {
            in_tag = false;
        } else if !in_tag {
            let ghost before = out@;
            out.push(c);
            assert(out@ == before + seq![c]);
            assert(before + (seq![c] + strip_tags(v@.subrange(i + 1, v.len() as int), in_tag))
                == out@ + strip_tags(v@.subrange(i + 1, v.len() as int), in_tag));
        }
        i += 1;
    }
    assert(v@.subrange(v.len() as int, v.len() as int) == Seq::<char>::empty());
    assert(out@ + Seq::<char>::empty() == out@);
    out
}

proof fn lemma_replace_step_match(s: Seq<char>, i: int, from: Seq<char>, to: Seq<char>)
    requires
        0 <= i,
        i + from.len() <= s.len(),
        from.len() > 0,
        s.subrange(i, i + from.len()) == from,
    ensures
        replace_all(s.subrange(i, s.len() as int), from, to) == to + replace_all(
            s.subrange(i + from.len(), s.len() as int),
            from,
            to,
        ),
{
    let t = s.subrange(i, s.len() as int);
    assert(t.subrange(0, from.len() as int) == s.subrange(i, i + from.len()));
    assert(t.subrange(from.len() as int, t.len() as int) == s.subrange(i + from.len(), s.len() as int));
}

proof fn lemma_replace_step_skip(s: Seq<char>, i: int, from: Seq<char>, to: Seq<char>)
    requires
        0 <= i < s.len(),
        from.len() > 0,
        !(i + from.len() <= s.len() && s.subrange(i, i + from.len()) == from),
    ensures
        replace_all(s.subrange(i, s.len() as int), from, to) == seq![s[i]] + replace_all(
            s.subrange(i + 1, s.len() as int),
            from,
            to,
        ),
{
    let t = s.subrange(i, s.len() as int);
    if from.len() <= t.len() {
        assert(t.subrange(0, from.len() as int) == s.subrange(i, i + from.len()));
    }
    assert(t[0] == s[i]);
    assert(t.drop_first() == s.subrange(i + 1, s.len() as int));
}

/// `v` with every non-overlapping occurrence of `from` replaced by `to`.
fn replace_chars(v: &[char], from: &[char], to: &[char]) -> (r: Vec<char>)
    requires
        from.len() > 0,
    ensures
        r@ == replace_all(v@, from@, to@),
{
    let mut out: Vec<char> = Vec::new();
    let mut i: usize = 0;
    assert(v@.subrange(0, v.len() as int) == v@);
    while i < v.len()
        invariant
            i <= v.len(),
            from.len() > 0,
            out@ + replace_all(v@.subrange(i as int, v.len() as int), from@, to@) == replace_all(
                v@,
                from@,
                to@,
            ),
        decreases v.len() - i,
    {
        let mut hit = from.len() <= v.len() - i;
        if hit {
            let mut k: usize = 0;
            while k < from.len()
                invariant
                    i + from.len() <= v.len(),
                    k <= from.len(),
                    hit == (forall|m: int| 0 <= m < k ==> v@[i + m] == from@[m]),
                decreases from.len() - k,
            {
                if v[i + k] != from[k] {
                    hit = false;
                }
                k += 1;
            }
            proof {
                if hit {
                    assert(v@.subrange(i as int, i + from.len()) =~= from@);
                } else {
                    assert(v@.subrange(i as int, i + from.len()) != from@) by {
                        let m = choose|m: int| 0 <= m < from.len() && v@[i + m] != from@[m];
                        assert(v@.subrange(i as int, i + from.len())[m] != from@[m]);
                    }
                }
            }
        }
        let ghost before = out@;
        if hit {
            proof {
                lemma_replace_step_match(v@, i as int, from@, to@);
            }
            let mut k: usize = 0;
            while k < to.len()
                invariant
                    k <= to.len(),
                    out@ == before + to@.take(k as int),
                decreases to.len() - k,
            {
                out.push(to[k]);
                assert(to@.take(k as int + 1) == to@.take(k as int).push(to@[k as int]));
                k += 1;
            }
            assert(to@.take(to.len() as int) == to@);
            assert(out@ + replace_all(v@.subrange(i + from.len(), v.len() as int), from@, to@)
                == before + (to@ + replace_all(v@.subrange(i + from.len(), v.len() as int), from@, to@)));
            i += from.len();
        } else {
            proof {
                lemma_replace_step_skip(v@, i as int, from@, to@);
            }
            out.push(v[i]);
            assert(out@ + replace_all(v@.subrange(i + 1, v.len() as int), from@, to@)
                == before + (seq![v@[i as int]] + replace_all(v@.subrange(i + 1, v.len() as int), from@, to@)));
            i += 1;
        }
    }
    assert(v@.subrange(v.len() as int, v.len() as int) == Seq::<char>::empty());
    assert(out@ + Seq::<char>::empty() == out@);
    out
}

/// Plain title text of an HTML snippet from the news search.
pub fn strip_html(s: &str) -> (r: String)
    ensures
        r@ == strip_html_spec(s@),
{
    proof {
        reveal_strlit("&nbsp;");
        reveal_strlit("&amp;");
        reveal_strlit("&lt;");
        reveal_strlit("&gt;");
        reveal_strlit("\"");
        reveal_strlit(" ");
        reveal_strlit("&");
        reveal_strlit("<");
        reveal_strlit(">");
        reveal_strlit("");
    }
    let v = to_chars(s);
    let a = strip_tags_exec(&v);
    let b = replace_chars(&a, &to_chars("&nbsp;"), &to_chars(" "));
    let c = replace_chars(&b, &to_chars("&amp;"), &to_chars("&"));
    let d = replace_chars(&c, &to_chars("&lt;"), &to_chars("<"));
    let e = replace_chars(&d, &to_chars("&gt;"), &to_chars(">"));
    let f = replace_chars(&e, &to_chars("\""), &to_chars(""));
    let (i, j) = trim_bounds(&f);
    string_of_range(&f, i, j)
}

/// The JSON object in a response body: from the first `{` to the last `}`
/// of the trimmed text; else, for JSONP `cb(...)`, the same inside the
/// outermost parentheses; else the trimmed text.
pub open spec fn json_body_spec(text: Seq<char>) -> Seq<char> {
    let t = trim(text);
    if first_index_of(t, '{') is Some && last_index_of(t, '}') is Some {
        t.subrange(first_index_of(t, '{')->0, last_index_of(t, '}')->0 + 1)
    } else if first_index_of(t, '(') is Some && last_index_of(t, ')') is Some && last_index_of(t, ')')->0
        > first_index_of(t, '(')->0 {
        let inner = t.subrange(first_index_of(t, '(')->0 + 1, last_index_of(t, ')')->0);
        if first_index_of(inner, '{') is Some && last_index_of(inner, '}') is Some {
            inner.subrange(first_index_of(inner, '{')->0, last_index_of(inner, '}')->0 + 1)
        } else {
            t
        }
    } else {
        t
    }
}

/// The inputs on which the body's slices are well formed: wherever a `{` and
/// a `}` are picked, the `}` does not stand before the `{`.
pub open spec fn json_body_input_ok(text: Seq<char>) -> bool {
    let t = trim(text);
    &&& (first_index_of(t, '{') is Some && last_index_of(t, '}') is Some) ==> first_index_of(
        t,
        '{',
    )->0 <= last_index_of(t, '}')->0 + 1
    &&& (!(first_index_of(t, '{') is Some && last_index_of(t, '}') is Some) && first_index_of(
        t,
        '(',
    ) is Some && last_index_of(t, ')') is Some && last_index_of(t, ')')->0 > first_index_of(
        t,
        '(',
    )->0) ==> {
        let inner = t.subrange(first_index_of(t, '(')->0 + 1, last_index_of(t, ')')->0);
        (first_index_of(inner, '{') is Some && last_index_of(inner, '}') is Some) ==> first_index_of(
            inner,
            '{',
        )->0 <= last_index_of(inner, '}')->0 + 1
    }
}

/// Whether `extract_json_body` can cut `text` (its slices are well formed).
pub fn json_body_ok(text: &str) -> (r: bool)
    ensures
        r == json_body_input_ok(text@),
{
    let ts = trim_str(text);
    let t = to_chars(ts.as_str());
    let open = chars_find(&t, '{');
    let close = chars_rfind(&t, '}');
    if let (Some(s), Some(e)) = (open, close) {
        return s <= e + 1;
    }
    let lp = chars_find(&t, '(');
    let rp = chars_rfind(&t, ')');
    if let (Some(l), Some(r)) = (lp, rp) {
        if r > l {
            let inner_s = string_of_range(&t, l + 1, r);
            let inner = to_chars(inner_s.as_str());
            let s2 = chars_find(&inner, '{');
            let e2 = chars_rfind(&inner, '}');
            if let (Some(s), Some(e)) = (s2, e2) {
                return s <= e + 1;
            }
        }
    }
    true
}

/// Extracts the JSON object from a plain or JSONP response body.
pub fn extract_json_body(text: &str) -> (r: String)
    requires
        json_body_input_ok(text@),
    ensures
        r@ == json_body_spec(text@),
{
    let v = to_chars(text);
    let (lo, hi) = trim_bounds(&v);
    let mut t: Vec<char> = Vec::new();
    let mut k: usize = lo;
    while k < hi
        invariant
            lo <= k <= hi <= v.len(),
            t@ == v@.subrange(lo as int, k as int),
        decreases hi - k,
    {
        t.push(v[k]);
        assert(v@.subrange(lo as int, k + 1) == v@.subrange(lo as int, k as int).push(v@[k as int]));
        k += 1;
    }
    assert(t@ == trim(text@));
    let open = chars_find(&t, '{');
    let close = chars_rfind(&t, '}');
    if let (Some(s), Some(e)) = (open, close) {
        return string_of_range(&t, s, e + 1);
    }
    let lp = chars_find(&t, '(');
    let rp = chars_rfind(&t, ')');
    if let (Some(l), Some(r)) = (lp, rp) {
        if r > l {
            let inner_s = string_of_range(&t, l + 1, r);
            let inner = to_chars(inner_s.as_str());
            let s2 = chars_find(&inner, '{');
            let e2 = chars_rfind(&inner, '}');
            if let (Some(s), Some(e)) = (s2, e2) {
                return string_of_range(&inner, s, e + 1);
            }
        }
    }
    from_chars(&t)
}

/// A short preview of a response for error messages: the trimmed text with
/// newlines turned into spaces, cut to 80 characters, or `(空响应)` when
/// empty.
pub open spec fn preview_spec(text: Seq<char>) -> Seq<char> {
    let t = replace_all(trim(text), seq!['\n'], seq![' ']);
    if t.len() == 0 {
        "(空响应)"@
    } else if t.len() > 80 {
        t.take(80)
    } else {
        t
    }
}

/// A short preview of a response body for error messages.
pub fn preview(text: &str) -> (r: String)
    ensures
        r@ == preview_spec(text@),
{
    let t = trim_str(text);
    let tv = to_chars(t.as_str());
    let from = vec!['\n'];
    let to = vec![' '];
    let replaced = replace_chars(&tv, &from, &to);
    assert(from@ == seq!['\n']);
    assert(to@ == seq![' ']);
    if replaced.len() == 0 {
        let mut s = String::new();
        crate::text::push_str(&mut s, "(空响应)");
        assert(s@ =~= "(空响应)"@);
        s
    } else if replaced.len() > 80 {
        string_of_range(&replaced, 0, 80)
    } else {
        from_chars(&replaced)
    }
}


/// A dated announcement or news title.
#[derive(Debug)]
pub struct Announcement {
    pub date: Date,
    pub title: String,
}

/// The announcements of one stock.
#[derive(Debug)]
pub struct MessageArchive {
    items: Vec<Announcement>,
}

/// Sort key of an announcement: day number and title.
pub open spec fn ann_key(a: Announcement) -> (int, Seq<char>) {
    (a.date.days as int, a.title@)
}

/// Keys of a list of announcements.
pub open spec fn keys(s: Seq<Announcement>) -> Seq<(int, Seq<char>)> {
    s.map_values(|a: Announcement| ann_key(a))
}

/// Keys of a list of `(date, title)` pairs.
pub open spec fn pair_keys(s: Seq<(Date, String)>) -> Seq<(int, Seq<char>)> {
    s.map_values(|p: (Date, String)| (p.0.days as int, p.1@))
}

/// `a` may stand before `b`: by date (newest first when `newest_first`,
/// else oldest first), then by title.
pub open spec fn key_le(a: (int, Seq<char>), b: (int, Seq<char>), newest_first: bool) -> bool {
    if a.0 != b.0 {
        if newest_first {
            a.0 > b.0
        } else {
            a.0 < b.0
        }
    } else {
        seq_le(a.1, b.1)
    }
}

/// The keys are in order.
pub open spec fn sorted_keys(k: Seq<(int, Seq<char>)>, newest_first: bool) -> bool {
    forall|i: int, j: int| 0 <= i < j < k.len() ==> key_le(k[i], k[j], newest_first)
}

/// The keys are in strict order (so pairwise distinct).
pub open spec fn strictly_sorted_keys(k: Seq<(int, Seq<char>)>, newest_first: bool) -> bool {
    forall|i: int, j: int| 0 <= i < j < k.len() ==> key_le(k[i], k[j], newest_first) && k[i] != k[j]
}

proof fn lemma_key_le(a: (int, Seq<char>), b: (int, Seq<char>), c: (int, Seq<char>), nf: bool)
    ensures
        key_le(a, b, nf) || key_le(b, a, nf),
        key_le(a, b, nf) && key_le(b, c, nf) ==> key_le(a, c, nf),
        key_le(a, b, nf) && key_le(b, a, nf) ==> a == b,
        key_le(a, a, nf),
{
    lemma_seq_lt_total(a.1, b.1);
    lemma_seq_lt_total(b.1, c.1);
    lemma_seq_lt_total(a.1, c.1);
    if seq_lt(a.1, b.1) && seq_lt(b.1, c.1) {
        lemma_seq_lt_trans(a.1, b.1, c.1);
    }
}

proof fn lemma_strict_at(k: Seq<(int, Seq<char>)>, i: int, j: int)
    requires
        strictly_sorted_keys(k, false),
        0 <= i < j < k.len(),
    ensures
        key_le(k[i], k[j], false),
        k[i] != k[j],
{
    assert(key_le(k[i], k[j], false));
}

proof fn lemma_strict_trans(a: (int, Seq<char>), b: (int, Seq<char>), c: (int, Seq<char>))
    requires
        key_le(a, b, false),
        a != b,
        key_le(b, c, false),
        b != c,
    ensures
        key_le(a, c, false),
        a != c,
{
    lemma_key_le(a, b, c, false);
    lemma_key_le(b, a, c, false);
    lemma_key_le(b, c, a, false);
}

fn ann_key_le(a: &Announcement, b: &Announcement, newest_first: bool) -> (r: bool)
    ensures
        r == key_le(ann_key(*a), ann_key(*b), newest_first),
{
    if a.date.days != b.date.days {
        if newest_first {
            a.date.days > b.date.days
        } else {
            a.date.days < b.date.days
        }
    } else {
        let ta = to_chars(a.title.as_str());
        let tb = to_chars(b.title.as_str());
        chars_lt(&ta, &tb) || text_str_eq(a.title.as_str(), b.title.as_str())
    }
}

fn ann_key_eq(a: &Announcement, b: &Announcement) -> (r: bool)
    ensures
        r == (ann_key(*a) == ann_key(*b)),
{
    a.date.days == b.date.days && text_str_eq(a.title.as_str(), b.title.as_str())
}

proof fn lemma_keys_insert(s: Seq<Announcement>, p: int, x: Announcement)
    requires
        0 <= p <= s.len(),
    ensures
        keys(s.insert(p, x)) == keys(s).insert(p, ann_key(x)),
{
    assert(keys(s.insert(p, x)) =~= keys(s).insert(p, ann_key(x)));
}

/// Inserts `x` after every element that may stand before it.
fn insert_sorted(r: &mut Vec<Announcement>, x: Announcement, newest_first: bool)
    requires
        sorted_keys(keys(old(r)@), newest_first),
    ensures
        sorted_keys(keys(final(r)@), newest_first),
        keys(final(r)@).to_multiset() == keys(old(r)@).to_multiset().insert(ann_key(x)),
{
    let mut p: usize = 0;
    while p < r.len() && ann_key_le(&r[p], &x, newest_first)
        invariant
            p <= r.len(),
            forall|k: int| 0 <= k < p ==> key_le(ann_key(#[trigger] r@[k]), ann_key(x), newest_first),
        decreases r.len() - p,
    {
        p += 1;
    }
    let ghost old_keys = keys(r@);
    proof {
        if p < r.len() {
            lemma_key_le(ann_key(x), ann_key(r@[p as int]), ann_key(r@[p as int]), newest_first);
            assert(key_le(ann_key(x), old_keys[p as int], newest_first));
        }
        lemma_keys_insert(r@, p as int, x);
    }
    r.insert(p, x);
    proof {
        let nk = keys(r@);
        assert(nk == old_keys.insert(p as int, ann_key(x)));
        assert forall|i: int, j: int| 0 <= i < j < nk.len() implies key_le(nk[i], nk[j], newest_first) by {
            if j < p {
                assert(nk[i] == old_keys[i] && nk[j] == old_keys[j]);
            } else if j == p {
                assert(nk[i] == old_keys[i]);
                assert(old_keys[i] == ann_key(old(r)@[i]));
            } else if i == p {
                assert(nk[j] == old_keys[j - 1]);
                lemma_key_le(ann_key(x), old_keys[p as int], old_keys[j - 1], newest_first);
            } else if i < p {
                assert(nk[i] == old_keys[i] && nk[j] == old_keys[j - 1]);
            } else {
                assert(nk[i] == old_keys[i - 1] && nk[j] == old_keys[j - 1]);
            }
        }
        broadcast use group_to_multiset_ensures;
    }
}

/// The announcement lies in the window `[start, end]` of day numbers.
pub open spec fn in_window(a: Announcement, start: int, end: int) -> bool {
    start <= a.date.days && a.date.days <= end
}

/// First day of the look-back window ending at `as_of`.
pub open spec fn window_start(as_of: Date, lookback_days: i64) -> int {
    as_of.days - (if lookback_days < 1 { 1 } else { lookback_days as int })
}

impl MessageArchive {
    /// An archive holding exactly these announcements, in this order.
    pub fn from_items(items: Vec<Announcement>) -> (r: MessageArchive)
        ensures
            r.items_view() == items@,
    {
        MessageArchive { items }
    }

    /// An empty archive.
    pub fn new() -> (r: MessageArchive)
        ensures
            r.items_view() == Seq::<Announcement>::empty(),
    {
        MessageArchive { items: Vec::new() }
    }

    /// The announcements held.
    pub closed spec fn items_view(&self) -> Seq<Announcement> {
        self.items@
    }

    /// Number of announcements.
    pub fn len(&self) -> (r: usize)
        ensures
            r == self.items_view().len(),
    {
        self.items.len()
    }

    /// The archive holds no announcement.
    pub fn is_empty(&self) -> (r: bool)
        ensures
            r == (self.items_view().len() == 0),
    {
        self.items.len() == 0
    }

    /// `(date, title)` of the announcements dated within the `lookback_days`
    /// (at least one) days up to and including `as_of`, newest first, titles
    /// in order within a day.
    pub fn items_as_of(&self, as_of: Date, lookback_days: i64) -> (r: Vec<(Date, String)>)
        requires
            lookback_days <= i64::MAX / 86400,
            window_start(as_of, lookback_days) >= MIN_DAYS,
        ensures
            sorted_keys(pair_keys(r@), true),
            pair_keys(r@).to_multiset() == keys(
                self.items_view().filter(
                    |a: Announcement| in_window(a, window_start(as_of, lookback_days), as_of.days as int),
                ),
            ).to_multiset(),
    {
        let back: i64 = if lookback_days < 1 {
            1
        } else {
            lookback_days
        };
        let start: i64 = as_of.days as i64 - back;
        let ghost pred = |a: Announcement| in_window(a, window_start(as_of, lookback_days), as_of.days as int);
        let mut sorted: Vec<Announcement> = Vec::new();
        let mut i: usize = 0;
        proof {
            reveal_with_fuel(Seq::filter, 1);
            assert(keys(sorted@) =~= Seq::<(int, Seq<char>)>::empty());
            assert(self.items@.take(0) =~= Seq::<Announcement>::empty());
            assert(keys(self.items@.take(0).filter(pred)) =~= Seq::<(int, Seq<char>)>::empty());
        }
        while i < self.items.len()
            invariant
                i <= self.items@.len(),
                start == window_start(as_of, lookback_days),
                pred == (|a: Announcement| in_window(a, window_start(as_of, lookback_days), as_of.days as int)),
                sorted_keys(keys(sorted@), true),
                keys(sorted@).to_multiset() == keys(self.items@.take(i as int).filter(pred)).to_multiset(),
            decreases self.items@.len() - i,
        {
            let a = &self.items[i];
            proof {
                assert(self.items@.take(i + 1).drop_last() == self.items@.take(i as int));
                reveal_with_fuel(Seq::filter, 1);
            }
            if start <= a.date.days as i64 && a.date.days <= as_of.days {
                let copy = Announcement { date: a.date, title: a.title.clone() };
                let ghost before = keys(sorted@);
                insert_sorted(&mut sorted, copy, true);
                proof {
                    let f = self.items@.take(i as int).filter(pred);
                    assert(self.items@.take(i + 1).filter(pred) == f.push(self.items@[i as int]));
                    assert(keys(f.push(self.items@[i as int])) =~= keys(f).push(ann_key(self.items@[i as int])));
                    broadcast use group_to_multiset_ensures;
                }
            } else {
                proof {
                    assert(self.items@.take(i + 1).filter(pred) == self.items@.take(i as int).filter(pred));
                }
            }
            i += 1;
        }
        assert(self.items@.take(self.items@.len() as int) == self.items@);
        let mut out: Vec<(Date, String)> = Vec::new();
        let mut k: usize = 0;
        while k < sorted.len()
            invariant
                k <= sorted.len(),
                out.len() == k,
                pair_keys(out@) == keys(sorted@).take(k as int),
            decreases sorted.len() - k,
        {
            let t = sorted[k].title.clone();
            let ghost before = out@;
            out.push((sorted[k].date, t));
            assert(pair_keys(out@)[k as int] == keys(sorted@)[k as int]);
            assert forall|m: int| 0 <= m < k implies pair_keys(out@)[m] == pair_keys(before)[m] by {
                assert(out@[m] == before[m]);
            }
            assert(pair_keys(out@) =~= keys(sorted@).take(k + 1));
            k += 1;
        }
        assert(keys(sorted@).take(sorted.len() as int) == keys(sorted@));
        out
    }

    /// Titles of `items_as_of`, in the same order.
    pub fn titles_as_of(&self, as_of: Date, lookback_days: i64) -> (r: Vec<String>)
        requires
            lookback_days <= i64::MAX / 86400,
            window_start(as_of, lookback_days) >= MIN_DAYS,
        ensures
            exists|ks: Seq<(int, Seq<char>)>|
                {
                    &&& sorted_keys(ks, true)
                    &&& ks.to_multiset() == keys(
                        self.items_view().filter(
                            |a: Announcement|
                                in_window(a, window_start(as_of, lookback_days), as_of.days as int),
                        ),
                    ).to_multiset()
                    &&& r@.map_values(|t: String| t@) == ks.map_values(|k: (int, Seq<char>)| k.1)
                },
    {
        let items = self.items_as_of(as_of, lookback_days);
        let mut out: Vec<String> = Vec::new();
        let mut k: usize = 0;
        while k < items.len()
            invariant
                k <= items.len(),
                out.len() == k,
                out@.map_values(|t: String| t@) == pair_keys(items@).take(k as int).map_values(
                    |q: (int, Seq<char>)| q.1,
                ),
            decreases items.len() - k,
        {
            let t = items[k].1.clone();
            let ghost before = out@;
            out.push(t);
            assert forall|m: int| 0 <= m < k implies out@[m] == before[m] by {}
            assert(out@[k as int]@ == pair_keys(items@)[k as int].1);
            assert forall|m: int| 0 <= m < k implies out@[m]@ == pair_keys(items@)[m].1 by {
                assert(before.map_values(|t: String| t@)[m] == pair_keys(items@).take(k as int).map_values(
                    |q: (int, Seq<char>)| q.1,
                )[m]);
            }
            assert(out@.map_values(|t: String| t@) =~= pair_keys(items@).take(k + 1).map_values(
                |q: (int, Seq<char>)| q.1,
            ));
            k += 1;
        }
        assert(pair_keys(items@).take(items.len() as int) == pair_keys(items@));
        out
    }
}

/// Inserts `x` into a strictly ordered list unless an announcement with the
/// same date and title is already there.
#[verifier::spinoff_prover]
fn insert_unique(r: &mut Vec<Announcement>, x: Announcement)
    requires
        strictly_sorted_keys(keys(old(r)@), false),
    ensures
        strictly_sorted_keys(keys(final(r)@), false),
        forall|k: (int, Seq<char>)|
            keys(final(r)@).contains(k) <==> (keys(old(r)@).contains(k) || k == ann_key(x)),
{
    let mut p: usize = 0;
    while p < r.len() && !ann_key_le(&x, &r[p], false)
        invariant
            p <= r.len(),
            forall|k: int| 0 <= k < p ==> !key_le(ann_key(x), ann_key(#[trigger] r@[k]), false),
        decreases r.len() - p,
    {
        p += 1;
    }
    let ghost old_keys = keys(r@);
    if p < r.len() && ann_key_eq(&r[p], &x) {
        proof {
            assert(old_keys[p as int] == ann_key(x));
            assert forall|k: (int, Seq<char>)| keys(r@).contains(k) <==> (old_keys.contains(k) || k == ann_key(x)) by {
                if k == ann_key(x) {
                    assert(old_keys[p as int] == k);
                }
            }
        }
        return;
    }
    let ghost old_r = r@;
    proof {
        lemma_keys_insert(r@, p as int, x);
    }
    r.insert(p, x);
    proof {
        let nk = keys(r@);
        let kx = ann_key(x);
        assert(old_keys == keys(old(r)@));
        assert(strictly_sorted_keys(old_keys, false));
        assert(nk == old_keys.insert(p as int, kx));
        if p < old_keys.len() {
            assert(old_keys[p as int] == ann_key(old_r[p as int]));
            assert(key_le(kx, old_keys[p as int], false));
            assert(kx != old_keys[p as int]);
        }
        assert forall|i: int, j: int| 0 <= i < j < nk.len() implies key_le(nk[i], nk[j], false) && nk[i] != nk[j] by {
            if j < p {
                assert(nk[i] == old_keys[i] && nk[j] == old_keys[j]);
            } else if j == p {
                assert(nk[i] == old_keys[i]);
                assert(old_keys[i] == ann_key(old_r[i]));
                assert(!key_le(kx, old_keys[i], false));
                lemma_key_le(kx, old_keys[i], old_keys[i], false);
                lemma_key_le(kx, kx, kx, false);
            } else if i == p {
                let op = old_keys[p as int];
                let oj = old_keys[j - 1];
                assert(nk[j] == oj);
                if j - 1 > p {
                    lemma_strict_at(old_keys, p as int, j - 1);
                    lemma_strict_trans(kx, op, oj);
                }
            } else if i < p {
                assert(nk[i] == old_keys[i] && nk[j] == old_keys[j - 1]);
            } else {
                assert(nk[i] == old_keys[i - 1] && nk[j] == old_keys[j - 1]);
            }
        }
        assert forall|k: (int, Seq<char>)| nk.contains(k) <==> (old_keys.contains(k) || k == ann_key(x)) by {
            if nk.contains(k) {
                let i = choose|i: int| 0 <= i < nk.len() && #[trigger] nk[i] == k;
                if i < p {
                    assert(old_keys[i] == k);
                } else if i > p {
                    assert(old_keys[i - 1] == k);
                }
            }
            if old_keys.contains(k) {
                let i = choose|i: int| 0 <= i < old_keys.len() && #[trigger] old_keys[i] == k;
                if i < p {
                    assert(nk[i] == k);
                } else {
                    assert(nk[i + 1] == k);
                }
            }
            if k == ann_key(x) {
                assert(nk[p as int] == k);
            }
        }
    }
}

/// Announcements sorted by date then title, with exact duplicates (same
/// date and title) kept once.
pub fn dedupe_sort(items: Vec<Announcement>) -> (r: Vec<Announcement>)
    ensures
        strictly_sorted_keys(keys(r@), false),
        forall|k: (int, Seq<char>)| keys(r@).contains(k) <==> keys(items@).contains(k),
{
    let mut out: Vec<Announcement> = Vec::new();
    let mut rest = items;
    let ghost all = rest@;
    let mut i: usize = 0;
    let n = rest.len();
    assert(all.skip(0) == all);
    while rest.len() > 0
        invariant
            rest@.len() + i == n,
            n == all.len(),
            rest@ == all.skip(i as int),
            strictly_sorted_keys(keys(out@), false),
            forall|k: (int, Seq<char>)|
                keys(out@).contains(k) <==> keys(all.take(i as int)).contains(k),
        decreases rest.len(),
    {
        let x = rest.remove(0);
        proof {
            assert(x == all[i as int]);
            assert(rest@ == all.skip(i + 1));
            assert(all.take(i + 1) == all.take(i as int).push(x));
            assert forall|k: (int, Seq<char>)| keys(all.take(i + 1)).contains(k) <==> (keys(all.take(i as int)).contains(k) || k == ann_key(x)) by {
                assert(keys(all.take(i + 1)) =~= keys(all.take(i as int)).push(ann_key(x)));
                let k1 = keys(all.take(i + 1));
                let k0 = keys(all.take(i as int));
                if k1.contains(k) {
                    let j = choose|j: int| 0 <= j < k1.len() && #[trigger] k1[j] == k;
                    if j < i {
                        assert(k0[j] == k);
                    }
                }
                if k0.contains(k) {
                    let j = choose|j: int| 0 <= j < k0.len() && #[trigger] k0[j] == k;
                    assert(k1[j] == k);
                }
                if k == ann_key(x) {
                    assert(keys(all.take(i + 1))[i as int] == k);
                }
            }
        }
        insert_unique(&mut out, x);
        assert(forall|k: (int, Seq<char>)| keys(out@).contains(k) <==> keys(all.take(i + 1)).contains(k));
        i += 1;
    }
    assert(all.take(n as int) == all);
    out
}

proof fn lemma_digits_kept(x: Seq<char>)
    requires
        forall|i: int| 0 <= i < x.len() ==> is_ascii_digit(#[trigger] x[i]),
    ensures
        ascii_digits(x) == x,
    decreases x.len(),
{
    broadcast use vstd::seq::Seq::lemma_filter_push;
    if x.len() > 0 {
        let init = x.drop_last();
        assert forall|i: int| 0 <= i < init.len() implies is_ascii_digit(#[trigger] init[i]) by {
            assert(init[i] == x[i]);
        }
        lemma_digits_kept(init);
        assert(init.push(x.last()) =~= x);
        assert(is_ascii_digit(x.last()));
    } else {
        assert(x.filter(|c: char| is_ascii_digit(c)) =~= x);
    }
}

/// Normalising a code twice gives the same code as normalising it once.
pub proof fn law_normalize_code_idempotent(code: Seq<char>)
    ensures
        six_digit_code(six_digit_code(code)) == six_digit_code(code),
        six_digit_code(code).len() == 6,
        ascii_digits(six_digit_code(code)) == six_digit_code(code),
{
    broadcast use vstd::seq_lib::group_filter_ensures;
    let d = ascii_digits(code);
    let x = six_digit_code(code);
    assert forall|i: int| 0 <= i < x.len() implies is_ascii_digit(#[trigger] x[i]) by {
        if d.len() >= 6 {
            assert(x[i] == d[d.len() - 6 + i]);
        } else {
            let pad = repeat_char('0', (6 - d.len()) as nat);
            assert(x == pad + d);
            if i >= pad.len() {
                assert(x[i] == d[i - pad.len()]);
            }
        }
    }
    lemma_digits_kept(x);
    assert(x.subrange(x.len() - 6, x.len() as int) =~= x);
}

} // verus!
