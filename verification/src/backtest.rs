//! Back-test hit statistics: predictions against actual moves.

use vstd::prelude::*;
use crate::text::{decimal_spec, decimal_text, push_str, str_eq, to_chars, to_owned_string};

verus! {

/// Hit counters of a back-test: overall, on actionable signals (leading side
/// at or above the action line), per predicted direction, and on
/// high-confidence signals.
#[derive(Clone, Copy, Debug, PartialEq, Eq, Structural)]
pub struct HitCounters {
    pub correct_all: u32,
    pub total_all: u32,
    pub correct_act: u32,
    pub total_act: u32,
    pub up_hits: u32,
    pub up_total: u32,
    pub down_hits: u32,
    pub down_total: u32,
    pub up_hits_act: u32,
    pub up_total_act: u32,
    pub down_hits_act: u32,
    pub down_total_act: u32,
    pub hc_correct: u32,
    pub hc_total: u32,
}

/// `"up"`.
pub open spec fn up() -> Seq<char> {
    seq!['u', 'p']
}

/// `"down"`.
pub open spec fn down() -> Seq<char> {
    seq!['d', 'o', 'w', 'n']
}

/// All counters at zero.
pub open spec fn zero_counters() -> HitCounters {
    HitCounters {
        correct_all: 0,
        total_all: 0,
        correct_act: 0,
        total_act: 0,
        up_hits: 0,
        up_total: 0,
        down_hits: 0,
        down_total: 0,
        up_hits_act: 0,
        up_total_act: 0,
        down_hits_act: 0,
        down_total_act: 0,
        hc_correct: 0,
        hc_total: 0,
    }
}

/// One more when `cond` holds.
pub open spec fn bump(x: u32, cond: bool) -> int {
    if cond {
        x + 1
    } else {
        x as int
    }
}

/// The counters after recording one prediction: a prediction is correct
/// when it equals the actual move; anything other than `"up"` is counted on
/// the down side; actionable and high-confidence samples are also counted
/// separately.
pub open spec fn observe_spec(
    c: HitCounters,
    predicted: Seq<char>,
    actual: Seq<char>,
    actionable: bool,
    high_confidence: bool,
) -> HitCounters {
    let correct = predicted == actual;
    let is_up = predicted == up();
    HitCounters {
        correct_all: bump(c.correct_all, correct) as u32,
        total_all: bump(c.total_all, true) as u32,
        correct_act: bump(c.correct_act, actionable && correct) as u32,
        total_act: bump(c.total_act, actionable) as u32,
        up_hits: bump(c.up_hits, is_up && actual == up()) as u32,
        up_total: bump(c.up_total, is_up) as u32,
        down_hits: bump(c.down_hits, !is_up && actual == down()) as u32,
        down_total: bump(c.down_total, !is_up) as u32,
        up_hits_act: bump(c.up_hits_act, actionable && is_up && actual == up()) as u32,
        up_total_act: bump(c.up_total_act, actionable && is_up) as u32,
        down_hits_act: bump(c.down_hits_act, actionable && !is_up && actual == down()) as u32,
        down_total_act: bump(c.down_total_act, actionable && !is_up) as u32,
        hc_correct: bump(c.hc_correct, high_confidence && correct) as u32,
        hc_total: bump(c.hc_total, high_confidence) as u32,
    }
}

/// No counter that the observation raises is at `u32::MAX`.
pub open spec fn observe_fits(
    c: HitCounters,
    predicted: Seq<char>,
    actual: Seq<char>,
    actionable: bool,
    high_confidence: bool,
) -> bool {
    let correct = predicted == actual;
    let is_up = predicted == up();
    &&& bump(c.correct_all, correct) <= u32::MAX
    &&& bump(c.total_all, true) <= u32::MAX
    &&& bump(c.correct_act, actionable && correct) <= u32::MAX
    &&& bump(c.total_act, actionable) <= u32::MAX
    &&& bump(c.up_hits, is_up && actual == up()) <= u32::MAX
    &&& bump(c.up_total, is_up) <= u32::MAX
    &&& bump(c.down_hits, !is_up && actual == down()) <= u32::MAX
    &&& bump(c.down_total, !is_up) <= u32::MAX
    &&& bump(c.up_hits_act, actionable && is_up && actual == up()) <= u32::MAX
    &&& bump(c.up_total_act, actionable && is_up) <= u32::MAX
    &&& bump(c.down_hits_act, actionable && !is_up && actual == down()) <= u32::MAX
    &&& bump(c.down_total_act, actionable && !is_up) <= u32::MAX
    &&& bump(c.hc_correct, high_confidence && correct) <= u32::MAX
    &&& bump(c.hc_total, high_confidence) <= u32::MAX
}

/// Consistency of counters built from zero by `observe` on up/down
/// predictions.
pub open spec fn counters_wf(c: HitCounters) -> bool {
    &&& c.up_total + c.down_total == c.total_all
    &&& c.up_hits <= c.up_total
    &&& c.down_hits <= c.down_total
    &&& c.correct_all == c.up_hits + c.down_hits
    &&& c.up_total_act + c.down_total_act == c.total_act
    &&& c.up_hits_act <= c.up_total_act
    &&& c.down_hits_act <= c.down_total_act
    &&& c.correct_act == c.up_hits_act + c.down_hits_act
    &&& c.total_act <= c.total_all
    &&& c.correct_act <= c.correct_all
    &&& c.hc_correct <= c.hc_total
    &&& c.hc_total <= c.total_all
    &&& c.hc_correct <= c.correct_all
}

fn inc_if(x: u32, cond: bool) -> (r: u32)
    requires
        bump(x, cond) <= u32::MAX,
    ensures
        r == bump(x, cond),
{
    if cond {
        x + 1
    } else {
        x
    }
}

impl HitCounters {
    /// Records one prediction (`predicted`, usually `"up"` or `"down"`)
    /// against the `actual` move; `actionable` tells whether the leading
    /// probability reached the action line.
    pub fn observe(&mut self, predicted: &str, actual: &str, actionable: bool, high_confidence: bool)
        requires
            observe_fits(*old(self), predicted@, actual@, actionable, high_confidence),
        ensures
            *final(self) == observe_spec(*old(self), predicted@, actual@, actionable, high_confidence),
    {
        proof {
            reveal_strlit("up");
            reveal_strlit("down");
            assert("up"@ =~= up());
            assert("down"@ =~= down());
        }
        let correct = str_eq(predicted, actual);
        let is_up = str_eq(predicted, "up");
        let actual_up = str_eq(actual, "up");
        let actual_down = str_eq(actual, "down");
        self.correct_all = inc_if(self.correct_all, correct);
        self.total_all = inc_if(self.total_all, true);
        self.correct_act = inc_if(self.correct_act, actionable && correct);
        self.total_act = inc_if(self.total_act, actionable);
        self.up_hits = inc_if(self.up_hits, is_up && actual_up);
        self.up_total = inc_if(self.up_total, is_up);
        self.down_hits = inc_if(self.down_hits, !is_up && actual_down);
        self.down_total = inc_if(self.down_total, !is_up);
        self.up_hits_act = inc_if(self.up_hits_act, actionable && is_up && actual_up);
        self.up_total_act = inc_if(self.up_total_act, actionable && is_up);
        self.down_hits_act = inc_if(self.down_hits_act, actionable && !is_up && actual_down);
        self.down_total_act = inc_if(self.down_total_act, actionable && !is_up);
        self.hc_correct = inc_if(self.hc_correct, high_confidence && correct);
        self.hc_total = inc_if(self.hc_total, high_confidence);
    }
}

impl Default for HitCounters {
    /// All counters at zero.
    fn default() -> (r: Self)
        ensures
            r == zero_counters(),
    {
        HitCounters {
            correct_all: 0,
            total_all: 0,
            correct_act: 0,
            total_act: 0,
            up_hits: 0,
            up_total: 0,
            down_hits: 0,
            down_total: 0,
            up_hits_act: 0,
            up_total_act: 0,
            down_hits_act: 0,
            down_total_act: 0,
            hc_correct: 0,
            hc_total: 0,
        }
    }
}

/// Zeroed counters are consistent.
pub proof fn law_zero_counters_wf()
    ensures
        counters_wf(zero_counters()),
{
}

/// Recording an up/down prediction against an up/down move keeps the
/// counters consistent: per-direction totals add up to the overall total,
/// hits never exceed their totals, correct predictions are exactly the
/// per-direction hits, and the actionable and high-confidence subsets stay
/// within the whole.
pub proof fn law_observe_keeps_wf(
    c: HitCounters,
    predicted: Seq<char>,
    actual: Seq<char>,
    actionable: bool,
    high_confidence: bool,
)
    requires
        counters_wf(c),
        predicted == up() || predicted == down(),
        actual == up() || actual == down(),
        observe_fits(c, predicted, actual, actionable, high_confidence),
    ensures
        counters_wf(observe_spec(c, predicted, actual, actionable, high_confidence)),
{
    assert(up() != down()) by {
        assert(up().len() != down().len());
    }
}

/// Horizon of a prediction, in trading days: 1 to 5.
pub fn clamp_horizon(days: u32) -> (r: u32)
    ensures
        r == (if days < 1 { 1 } else if days > 5 { 5 } else { days }),
{
    if days < 1 {
        1
    } else if days > 5 {
        5
    } else {
        days
    }
}

/// One back-test sample: the look-back window `[window_start, index]`,
/// the bar the prediction is made on, and the bar it is checked against.
#[derive(Clone, Copy, Debug, PartialEq, Eq, Structural)]
pub struct Sample {
    pub window_start: usize,
    pub index: usize,
    pub target: usize,
}

/// The samples of a back-test over `len` bars: none when the bars cannot
/// hold one window plus the horizon; otherwise one for every bar from the
/// `lookback`-th on whose target lies within the bars.
pub open spec fn sample_plan_spec(len: int, lookback: int, horizon: int) -> Seq<Sample> {
    if len < lookback + horizon + 1 {
        Seq::empty()
    } else {
        Seq::new((len - horizon - lookback) as nat, |k: int| Sample {
            window_start: (k + 1) as usize,
            index: (lookback + k) as usize,
            target: (lookback + k + horizon) as usize,
        })
    }
}

/// Lays out the samples of a back-test.
pub fn sample_plan(len: usize, lookback: usize, horizon: usize) -> (r: Vec<Sample>)
    requires
        lookback + horizon + 1 <= usize::MAX,
    ensures
        r@ == sample_plan_spec(len as int, lookback as int, horizon as int),
{
    let mut out: Vec<Sample> = Vec::new();
    if len < lookback + horizon + 1 {
        assert(out@ =~= sample_plan_spec(len as int, lookback as int, horizon as int));
        return out;
    }
    let ghost want = sample_plan_spec(len as int, lookback as int, horizon as int);
    let mut i: usize = lookback;
    while i < len - horizon
        invariant
            lookback <= i <= len - horizon,
            len >= lookback + horizon + 1,
            want == sample_plan_spec(len as int, lookback as int, horizon as int),
            out@ =~= want.take((i - lookback) as int),
        decreases len - horizon - i,
    {
        let smp = Sample { window_start: i + 1 - lookback, index: i, target: i + horizon };
        assert(want[(i - lookback) as int] == smp);
        out.push(smp);
        assert(want.take((i + 1 - lookback) as int) =~= want.take((i - lookback) as int).push(smp));
        i += 1;
    }
    assert(want.take((len - horizon - lookback) as int) =~= want);
    out
}

/// The summary of a back-test with too few bars: the bars there are and the
/// bars it needs.
pub open spec fn short_history_spec(bar_count: nat, needed: nat) -> Seq<char> {
    "历史数据不足（仅 "@ + decimal_spec(bar_count) + " 根 K 线，至少需要 "@ + decimal_spec(needed) + " 根）"@
}

/// Whether a back-test over `bar_count` bars has too few of them (fewer
/// than the look-back, the horizon and one more); if so, the summary of its
/// empty result, and nothing is sampled or fetched.
pub fn short_history(bar_count: usize, lookback: usize, horizon: usize) -> (r: Option<String>)
    requires
        lookback + horizon + 1 <= usize::MAX,
    ensures
        r is Some <==> bar_count < lookback + horizon + 1,
        r matches Some(s) ==> s@ == short_history_spec(bar_count as nat, (lookback + horizon + 1) as nat),
{
    let needed = lookback + horizon + 1;
    if bar_count >= needed {
        return None;
    }
    let mut s = to_owned_string("历史数据不足（仅 ");
    let a = decimal_text(bar_count as u64);
    push_str(&mut s, a.as_str());
    push_str(&mut s, " 根 K 线，至少需要 ");
    let b = decimal_text(needed as u64);
    push_str(&mut s, b.as_str());
    push_str(&mut s, " 根）");
    Some(s)
}

/// How the horizon reads in the summary: `次日` for one day, `N 日累计`
/// otherwise.
pub open spec fn horizon_note_spec(horizon: nat) -> Seq<char> {
    if horizon <= 1 {
        "次日"@
    } else {
        decimal_spec(horizon) + " 日累计"@
    }
}

/// Describes the horizon for the summary.
pub fn horizon_note(horizon: u64) -> (r: String)
    ensures
        r@ == horizon_note_spec(horizon as nat),
{
    if horizon <= 1 {
        to_owned_string("次日")
    } else {
        let mut s = decimal_text(horizon);
        push_str(&mut s, " 日累计");
        s
    }
}

/// An optional string slice as plain characters.
pub open spec fn opt_text(s: Option<&str>) -> Option<Seq<char>> {
    match s {
        Some(x) => Some(x@),
        None => None,
    }
}

/// The note on the news source: counted announcements when it took part,
/// the fetch error, or that the window held none.
pub open spec fn message_note_spec(needs: bool, uses: bool, count: nat, err: Option<Seq<char>>) -> Seq<char> {
    if !needs {
        Seq::empty()
    } else if uses {
        "；消息面已纳入（公告 "@ + decimal_spec(count) + " 条）"@
    } else if err is Some {
        "；消息面公告拉取失败: "@ + err->0
    } else {
        "；消息面启用但区间内无公告，按中性计入"@
    }
}

/// Writes the note on the news source.
pub fn message_note(needs: bool, uses: bool, count: u64, err: Option<&str>) -> (r: String)
    ensures
        r@ == message_note_spec(needs, uses, count as nat, opt_text(err)),
{
    if !needs {
        return String::new();
    }
    if uses {
        let mut s = to_owned_string("；消息面已纳入（公告 ");
        let n = decimal_text(count);
        push_str(&mut s, n.as_str());
        push_str(&mut s, " 条）");
        return s;
    }
    match err {
        Some(e) => {
            let mut s = to_owned_string("；消息面公告拉取失败: ");
            push_str(&mut s, e);
            s
        },
        None => to_owned_string("；消息面启用但区间内无公告，按中性计入"),
    }
}

/// The note on the capital-flow source: its day counts by kind and its
/// source note (or `—`) when it took part, the fetch error, or that no
/// history was available.
pub open spec fn capital_note_spec(
    needs: bool,
    uses: bool,
    market_days: nat,
    activity_days: nat,
    north_days: nat,
    source_note: Seq<char>,
    err: Option<Seq<char>>,
) -> Seq<char> {
    if !needs {
        Seq::empty()
    } else if uses {
        "；资金流已纳入（主力 "@ + decimal_spec(market_days) + " / 成交代理 "@ + decimal_spec(activity_days)
            + " / 北向 "@ + decimal_spec(north_days) + "；"@ + (if source_note.len() == 0 { "—"@ } else { source_note })
            + "）"@
    } else if err is Some {
        "；资金流拉取失败: "@ + err->0
    } else {
        "；资金流启用但无可用历史（请配置 Tushare Token）"@
    }
}

/// Writes the note on the capital-flow source.
pub fn capital_note(
    needs: bool,
    uses: bool,
    market_days: u64,
    activity_days: u64,
    north_days: u64,
    source_note: &str,
    err: Option<&str>,
) -> (r: String)
    ensures
        r@ == capital_note_spec(
            needs,
            uses,
            market_days as nat,
            activity_days as nat,
            north_days as nat,
            source_note@,
            opt_text(err),
        ),
{
    if !needs {
        return String::new();
    }
    if uses {
        let mut s = to_owned_string("；资金流已纳入（主力 ");
        let a = decimal_text(market_days);
        push_str(&mut s, a.as_str());
        push_str(&mut s, " / 成交代理 ");
        let b = decimal_text(activity_days);
        push_str(&mut s, b.as_str());
        push_str(&mut s, " / 北向 ");
        let c = decimal_text(north_days);
        push_str(&mut s, c.as_str());
        push_str(&mut s, "；");
        if to_chars(source_note).len() == 0 {
            push_str(&mut s, "—");
        } else {
            push_str(&mut s, source_note);
        }
        push_str(&mut s, "）");
        return s;
    }
    match err {
        Some(e) => {
            let mut s = to_owned_string("；资金流拉取失败: ");
            push_str(&mut s, e);
            s
        },
        None => to_owned_string("；资金流启用但无可用历史（请配置 Tushare Token）"),
    }
}

/// No back-test sample looks ahead of its data: its window is exactly
/// `lookback` bars ending at the prediction bar, and its target lies
/// `horizon` bars later, still within the bars.
pub proof fn law_samples_stay_within_bars(len: int, lookback: int, horizon: int, k: int)
    requires
        0 <= lookback,
        0 <= horizon,
        lookback + horizon + 1 <= usize::MAX,
        len <= usize::MAX,
        0 <= k < sample_plan_spec(len, lookback, horizon).len(),
    ensures
        ({
            let s = sample_plan_spec(len, lookback, horizon)[k];
            &&& s.window_start + lookback == s.index + 1
            &&& s.target == s.index + horizon
            &&& s.target < len
        }),
{
}


/// Every prediction bar is back-tested: when the bars hold a window and
/// the horizon, the plan has exactly `len - lookback - horizon` samples,
/// the `k`-th made on bar `lookback + k`, so one for each bar index from
/// `lookback` up to `len - horizon` (exclusive), in order; with fewer bars
/// it has none.
pub proof fn law_every_bar_sampled(len: int, lookback: int, horizon: int)
    requires
        0 <= lookback,
        0 <= horizon,
        0 <= len <= usize::MAX,
        lookback + horizon + 1 <= usize::MAX,
    ensures
        len >= lookback + horizon + 1 ==> sample_plan_spec(len, lookback, horizon).len() == len - lookback - horizon,
        len < lookback + horizon + 1 ==> sample_plan_spec(len, lookback, horizon).len() == 0,
        forall|k: int|
            0 <= k < sample_plan_spec(len, lookback, horizon).len() ==> #[trigger] sample_plan_spec(
                len,
                lookback,
                horizon,
            )[k].index == lookback + k,
{
}

} // verus!
