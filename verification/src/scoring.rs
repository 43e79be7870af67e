//! Keyword tallies of news titles: how many good and bad words a title
//! hits, the capped net of one title, and the notes that report a scan.

use vstd::prelude::*;
use crate::models::Stock;
use crate::sentiment::{classify, classify_spec, MessageKind};
use crate::text::{
    chars_find_seq, contains, decimal_spec, lemma_first_occurrence_occurs, decimal_text, first_occurrence, mask_at, mask_chars, push_str,
    str_contains, to_chars, to_owned_string, trim, trim_str,
};

verus! {

/// `str::to_lowercase` (std): the Unicode lower case of a string.
pub uninterp spec fn lower_case(s: Seq<char>) -> Seq<char>;

/// `str::to_lowercase` (std); its result depends on the string alone.
#[verifier::external_body]
fn to_lower(s: &str) -> (r: String)
    ensures
        r@ == lower_case(s@),
{
    s.to_lowercase()
}

/// A word, trimmed when asked.
pub open spec fn prepared_word(w: Seq<char>, trim_words: bool) -> Seq<char> {
    if trim_words {
        trim(w)
    } else {
        w
    }
}

/// The title hits the word: the word occurs in it as written or once both
/// are lower-cased; blank words are skipped when words are trimmed.
pub open spec fn word_hits(title: Seq<char>, w: Seq<char>, trim_words: bool) -> bool {
    let p = prepared_word(w, trim_words);
    &&& !(trim_words && p.len() == 0)
    &&& (contains(title, p) || contains(lower_case(title), lower_case(p)))
}

/// Number of words the title hits.
pub open spec fn count_hits(title: Seq<char>, words: Seq<Seq<char>>, trim_words: bool) -> nat
    decreases words.len(),
{
    if words.len() == 0 {
        0
    } else {
        count_hits(title, words.drop_last(), trim_words) + if word_hits(title, words.last(), trim_words) {
            1nat
        } else {
            0nat
        }
    }
}

/// Word lists as plain values.
pub open spec fn word_list(v: Seq<&'static str>) -> Seq<Seq<char>> {
    v.map_values(|w: &'static str| w@)
}

fn hits_word(title: &str, lower_title: &str, w: &str, trim_words: bool) -> (r: bool)
    requires
        lower_title@ == lower_case(title@),
    ensures
        r == word_hits(title@, w@, trim_words),
{
    let p = if trim_words {
        trim_str(w)
    } else {
        to_owned_string(w)
    };
    if trim_words && to_chars(p.as_str()).len() == 0 {
        return false;
    }
    if str_contains(title, p.as_str()) {
        return true;
    }
    let lp = to_lower(p.as_str());
    str_contains(lower_title, lp.as_str())
}

fn count_words(title: &str, lower_title: &str, words: &[&'static str], trim_words: bool) -> (r: u32)
    requires
        lower_title@ == lower_case(title@),
        words.len() <= u32::MAX,
    ensures
        r == count_hits(title@, word_list(words@), trim_words),
{
    let ghost wv = word_list(words@);
    let mut n: u32 = 0;
    let mut i: usize = 0;
    while i < words.len()
        invariant
            i <= words.len(),
            words.len() <= u32::MAX,
            wv == word_list(words@),
            lower_title@ == lower_case(title@),
            n == count_hits(title@, wv.take(i as int), trim_words),
            n <= i,
        decreases words.len() - i,
    {
        assert(wv.take(i as int + 1).drop_last() =~= wv.take(i as int));
        assert(wv.take(i as int + 1).last() == words@[i as int]@);
        if hits_word(title, lower_title, words[i], trim_words) {
            n += 1;
        }
        i += 1;
    }
    assert(wv.take(words.len() as int) =~= wv);
    n
}

/// Counts the good and the bad words a title hits.
pub fn title_tally(title: &str, bullish: &[&'static str], bearish: &[&'static str], trim_words: bool) -> (r: (u32, u32))
    requires
        bullish.len() <= u32::MAX,
        bearish.len() <= u32::MAX,
    ensures
        r.0 == count_hits(title@, word_list(bullish@), trim_words),
        r.1 == count_hits(title@, word_list(bearish@), trim_words),
{
    let lower = to_lower(title);
    let bull = count_words(title, lower.as_str(), bullish, trim_words);
    let bear = count_words(title, lower.as_str(), bearish, trim_words);
    (bull, bear)
}

/// The net of one title, capped at three either way.
pub fn clamped_net(bull: u32, bear: u32) -> (r: i32)
    ensures
        r == (if bull - bear > 3 { 3 } else if bull - bear < -3 { -3 } else { bull - bear }),
{
    if bull >= bear {
        if bull - bear > 3 {
            3
        } else {
            (bull - bear) as i32
        }
    } else {
        if bear - bull > 3 {
            -3
        } else {
            -((bear - bull) as i32)
        }
    }
}

/// The note of a keyword scan: the label, the titles scanned, and either
/// neutral or the number of hits.
pub open spec fn scan_note_spec(label: Seq<char>, titles: nat, hits: nat) -> Seq<char> {
    if hits == 0 {
        label + " · 扫描 "@ + decimal_spec(titles) + " 条，中性"@
    } else {
        label + " · 扫描 "@ + decimal_spec(titles) + " 条，命中 "@ + decimal_spec(hits) + " 次"@
    }
}

/// Writes the note of a keyword scan of a security's titles.
pub fn scan_note(label: &str, titles: u64, hits: u64) -> (r: String)
    ensures
        r@ == scan_note_spec(label@, titles as nat, hits as nat),
{
    let mut s = to_owned_string(label);
    push_str(&mut s, " · 扫描 ");
    let t = decimal_text(titles);
    push_str(&mut s, t.as_str());
    if hits == 0 {
        push_str(&mut s, " 条，中性");
    } else {
        push_str(&mut s, " 条，命中 ");
        let h = decimal_text(hits);
        push_str(&mut s, h.as_str());
        push_str(&mut s, " 次");
    }
    s
}

/// The note of a keyword scan of market news: the titles scanned, and
/// either neutral or the number of keyword hits.
pub open spec fn news_note_spec(titles: nat, hits: nat) -> Seq<char> {
    if hits == 0 {
        "扫描 "@ + decimal_spec(titles) + " 条，中性"@
    } else {
        "扫描 "@ + decimal_spec(titles) + " 条，命中 "@ + decimal_spec(hits) + " 次关键词"@
    }
}

/// Writes the note of a keyword scan of market news.
pub fn news_note(titles: u64, hits: u64) -> (r: String)
    ensures
        r@ == news_note_spec(titles as nat, hits as nat),
{
    let mut s = to_owned_string("扫描 ");
    let t = decimal_text(titles);
    push_str(&mut s, t.as_str());
    if hits == 0 {
        push_str(&mut s, " 条，中性");
    } else {
        push_str(&mut s, " 条，命中 ");
        let h = decimal_text(hits);
        push_str(&mut s, h.as_str());
        push_str(&mut s, " 次关键词");
    }
    s
}

/// Default look-back, in calendar days, of the announcements read for a
/// prediction.
pub const MESSAGE_LOOKBACK_DAYS: i64 = 7;

/// The look-back of a security's announcements: broad-index news fades
/// fast (2 days), gold and overseas ETFs use 5, everything else 7.
pub open spec fn message_lookback_spec(kind: MessageKind) -> i64 {
    match kind {
        MessageKind::BroadEtf => 2,
        MessageKind::Gold | MessageKind::OverseasEtf => 5,
        _ => MESSAGE_LOOKBACK_DAYS,
    }
}

/// The announcement look-back of a security.
pub fn message_lookback_for(stock: &Stock) -> (r: i64)
    ensures
        r == message_lookback_spec(classify_spec(stock.name@, stock.code@, stock.sector@)),
{
    match classify(stock) {
        MessageKind::BroadEtf => 2,
        MessageKind::Gold | MessageKind::OverseasEtf => 5,
        _ => MESSAGE_LOOKBACK_DAYS,
    }
}

/// The weighted-keyword scan of one title: keywords are tried in order,
/// each (trimmed, non-blank) keyword found counts once and its first
/// occurrence is masked with ideographic spaces, so that a later keyword
/// cannot count the same text again. Gives the masked text and the indices
/// of the keywords that hit, after the first `k` keywords.
pub open spec fn masked_run(title: Seq<char>, keys: Seq<Seq<char>>, k: int) -> (Seq<char>, Seq<usize>)
    decreases k,
{
    if k <= 0 {
        (title, Seq::empty())
    } else {
        let prev = masked_run(title, keys, k - 1);
        let key = trim(keys[k - 1]);
        match first_occurrence(prev.0, key) {
            Some(i) => if key.len() > 0 {
                (mask_at(prev.0, i, key.len() as int), prev.1.push((k - 1) as usize))
            } else {
                prev
            },
            None => prev,
        }
    }
}

proof fn lemma_occurrence_fits(s: Seq<char>, p: Seq<char>, i: int)
    requires
        first_occurrence(s, p) == Some(i),
    ensures
        0 <= i && i + p.len() <= s.len(),
{
    lemma_first_occurrence_occurs(s, p, 0);
}

/// Indices of the keywords that hit a title in a masked scan.
pub fn masked_hits(title: &str, keys: &[String]) -> (r: Vec<usize>)
    ensures
        r@ == masked_run(title@, keys@.map_values(|s: String| s@), keys@.len() as int).1,
{
    let ghost kv = keys@.map_values(|s: String| s@);
    let mut work = to_chars(title);
    let mut hits: Vec<usize> = Vec::new();
    let mut i: usize = 0;
    while i < keys.len()
        invariant
            i <= keys.len(),
            kv == keys@.map_values(|s: String| s@),
            (work@, hits@) == masked_run(title@, kv, i as int),
        decreases keys.len() - i,
    {
        let kw = trim_str(keys[i].as_str());
        let kc = to_chars(kw.as_str());
        assert(kc@ == trim(kv[i as int]));
        if kc.len() > 0 {
            match chars_find_seq(&work, &kc) {
                Some(idx) => {
                    proof {
                        lemma_occurrence_fits(work@, kc@, idx as int);
                    }
                    let next = mask_chars(&work, idx, kc.len());
                    work = next;
                    hits.push(i);
                },
                None => {},
            }
        }
        i += 1;
    }
    hits
}

} // verus!
