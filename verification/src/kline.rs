//! Candle periods and how each quote source names them.

use vstd::prelude::*;
use crate::text::{push_str, str_eq, to_owned_string};
use crate::notices::{join_messages, join_semicolon};

verus! {

/// A candle period: daily, weekly, monthly, or minute bars.
#[derive(Clone, Copy, Debug, PartialEq, Eq, Structural)]
pub enum KlinePeriod {
    Day,
    Week,
    Month,
    Min1,
    Min5,
    Min15,
    Min30,
    Min60,
}

/// A source of candles, in the order they are tried.
#[derive(Clone, Copy, Debug, PartialEq, Eq, Structural)]
pub enum KlineSource {
    Tencent,
    Sina,
    Eastmoney,
}

/// The period's name (`day`, `week`, `month`, `min1` … `min60`).
pub open spec fn period_name(p: KlinePeriod) -> Seq<char> {
    match p {
        KlinePeriod::Day => "day"@,
        KlinePeriod::Week => "week"@,
        KlinePeriod::Month => "month"@,
        KlinePeriod::Min1 => "min1"@,
        KlinePeriod::Min5 => "min5"@,
        KlinePeriod::Min15 => "min15"@,
        KlinePeriod::Min30 => "min30"@,
        KlinePeriod::Min60 => "min60"@,
    }
}

/// Minutes per bar of a minute period.
pub open spec fn period_minutes(p: KlinePeriod) -> Option<u32> {
    match p {
        KlinePeriod::Min1 => Some(1u32),
        KlinePeriod::Min5 => Some(5u32),
        KlinePeriod::Min15 => Some(15u32),
        KlinePeriod::Min30 => Some(30u32),
        KlinePeriod::Min60 => Some(60u32),
        _ => None,
    }
}

/// The message of a period name that is not known.
pub open spec fn unknown_period_message(s: Seq<char>) -> Seq<char> {
    "不支持的 K 线周期: "@ + s
}

/// The period named `s`, if any.
pub open spec fn parse_period_spec(s: Seq<char>) -> Option<KlinePeriod> {
    if s == "day"@ {
        Some(KlinePeriod::Day)
    } else if s == "week"@ {
        Some(KlinePeriod::Week)
    } else if s == "month"@ {
        Some(KlinePeriod::Month)
    } else if s == "min1"@ {
        Some(KlinePeriod::Min1)
    } else if s == "min5"@ {
        Some(KlinePeriod::Min5)
    } else if s == "min15"@ {
        Some(KlinePeriod::Min15)
    } else if s == "min30"@ {
        Some(KlinePeriod::Min30)
    } else if s == "min60"@ {
        Some(KlinePeriod::Min60)
    } else {
        None
    }
}

impl KlinePeriod {
    /// Parses a period name; an unknown name is an error that repeats it.
    pub fn parse(s: &str) -> (r: Result<KlinePeriod, String>)
        ensures
            parse_period_spec(s@) is Some ==> r == Ok::<KlinePeriod, String>(parse_period_spec(s@).unwrap()),
            parse_period_spec(s@) is None ==> r is Err && r->Err_0@ == unknown_period_message(s@),
    {
        if str_eq(s, "day") {
            Ok(KlinePeriod::Day)
        } else if str_eq(s, "week") {
            Ok(KlinePeriod::Week)
        } else if str_eq(s, "month") {
            Ok(KlinePeriod::Month)
        } else if str_eq(s, "min1") {
            Ok(KlinePeriod::Min1)
        } else if str_eq(s, "min5") {
            Ok(KlinePeriod::Min5)
        } else if str_eq(s, "min15") {
            Ok(KlinePeriod::Min15)
        } else if str_eq(s, "min30") {
            Ok(KlinePeriod::Min30)
        } else if str_eq(s, "min60") {
            Ok(KlinePeriod::Min60)
        } else {
            let mut msg = to_owned_string("不支持的 K 线周期: ");
            push_str(&mut msg, s);
            Err(msg)
        }
    }

    /// The period's name.
    pub fn as_str(&self) -> (r: &'static str)
        ensures
            r@ == period_name(*self),
    {
        match self {
            KlinePeriod::Day => "day",
            KlinePeriod::Week => "week",
            KlinePeriod::Month => "month",
            KlinePeriod::Min1 => "min1",
            KlinePeriod::Min5 => "min5",
            KlinePeriod::Min15 => "min15",
            KlinePeriod::Min30 => "min30",
            KlinePeriod::Min60 => "min60",
        }
    }

    /// Eastmoney's `klt` code: 101, 102 and 103 for day, week and month,
    /// the number of minutes for minute bars.
    pub fn eastmoney_klt(&self) -> (r: u32)
        ensures
            r == match *self {
                KlinePeriod::Day => 101u32,
                KlinePeriod::Week => 102u32,
                KlinePeriod::Month => 103u32,
                _ => period_minutes(*self).unwrap(),
            },
    {
        match self {
            KlinePeriod::Day => 101,
            KlinePeriod::Week => 102,
            KlinePeriod::Month => 103,
            KlinePeriod::Min1 => 1,
            KlinePeriod::Min5 => 5,
            KlinePeriod::Min15 => 15,
            KlinePeriod::Min30 => 30,
            KlinePeriod::Min60 => 60,
        }
    }

    /// Tencent's frequency name: `day`, `week`, `month`, or `m` and the
    /// number of minutes.
    pub fn tencent_freq(&self) -> (r: &'static str)
        ensures
            r@ == match *self {
                KlinePeriod::Day => "day"@,
                KlinePeriod::Week => "week"@,
                KlinePeriod::Month => "month"@,
                KlinePeriod::Min1 => "m1"@,
                KlinePeriod::Min5 => "m5"@,
                KlinePeriod::Min15 => "m15"@,
                KlinePeriod::Min30 => "m30"@,
                KlinePeriod::Min60 => "m60"@,
            },
    {
        match self {
            KlinePeriod::Day => "day",
            KlinePeriod::Week => "week",
            KlinePeriod::Month => "month",
            KlinePeriod::Min1 => "m1",
            KlinePeriod::Min5 => "m5",
            KlinePeriod::Min15 => "m15",
            KlinePeriod::Min30 => "m30",
            KlinePeriod::Min60 => "m60",
        }
    }

    /// Sina's `scale`: 240 for daily bars, the number of minutes for minute
    /// bars; Sina serves no weekly or monthly bars.
    pub fn sina_scale(&self) -> (r: Option<u32>)
        ensures
            r == match *self {
                KlinePeriod::Day => Some(240u32),
                KlinePeriod::Week => None,
                KlinePeriod::Month => None,
                _ => period_minutes(*self),
            },
    {
        match self {
            KlinePeriod::Day => Some(240),
            KlinePeriod::Week => None,
            KlinePeriod::Month => None,
            KlinePeriod::Min1 => Some(1),
            KlinePeriod::Min5 => Some(5),
            KlinePeriod::Min15 => Some(15),
            KlinePeriod::Min30 => Some(30),
            KlinePeriod::Min60 => Some(60),
        }
    }

    /// Whether the period is a minute period.
    pub fn is_intraday(&self) -> (r: bool)
        ensures
            r == (period_minutes(*self) is Some),
    {
        match self {
            KlinePeriod::Day | KlinePeriod::Week | KlinePeriod::Month => false,
            _ => true,
        }
    }

    /// Bars fetched when the caller asks for none: 90 days, 104 weeks,
    /// 60 months, or 240 minute bars.
    pub fn default_limit(&self) -> (r: u32)
        ensures
            r == self.default_limit_spec(),
    {
        match self {
            KlinePeriod::Day => 90,
            KlinePeriod::Week => 104,
            KlinePeriod::Month => 60,
            _ => 240,
        }
    }
}

/// The number of bars to fetch: the request, or the period's default for
/// a request of zero.
pub fn effective_limit(period: KlinePeriod, limit: u32) -> (r: u32)
    ensures
        limit != 0 ==> r == limit,
        limit == 0 ==> r == period.default_limit_spec(),
{
    if limit == 0 {
        period.default_limit()
    } else {
        limit
    }
}

impl KlinePeriod {
    /// The default number of bars, as a value.
    pub open spec fn default_limit_spec(self) -> u32 {
        match self {
            KlinePeriod::Day => 90u32,
            KlinePeriod::Week => 104u32,
            KlinePeriod::Month => 60u32,
            _ => 240u32,
        }
    }
}

/// The sources tried, in order: Tencent, then Sina where it serves the
/// period, then Eastmoney.
pub open spec fn sources_spec(p: KlinePeriod) -> Seq<KlineSource> {
    if period_minutes(p) is Some || p == KlinePeriod::Day {
        seq![KlineSource::Tencent, KlineSource::Sina, KlineSource::Eastmoney]
    } else {
        seq![KlineSource::Tencent, KlineSource::Eastmoney]
    }
}

/// The order in which the candle sources are tried for a period.
pub fn kline_sources(period: KlinePeriod) -> (r: Vec<KlineSource>)
    ensures
        r@ == sources_spec(period),
{
    let mut out: Vec<KlineSource> = Vec::new();
    out.push(KlineSource::Tencent);
    if period.sina_scale().is_some() {
        out.push(KlineSource::Sina);
    }
    out.push(KlineSource::Eastmoney);
    assert(out@ =~= sources_spec(period));
    out
}

/// The series keys under which Tencent may return the bars of a period,
/// in the order they are looked up.
pub open spec fn tencent_keys_spec(p: KlinePeriod) -> Seq<Seq<char>> {
    match p {
        KlinePeriod::Day => seq!["qfqday"@, "day"@],
        KlinePeriod::Week => seq!["qfqweek"@, "week"@],
        KlinePeriod::Month => seq!["qfqmonth"@, "month"@],
        KlinePeriod::Min1 => seq!["m1"@, "qfqm1"@],
        KlinePeriod::Min5 => seq!["m5"@, "qfqm5"@],
        KlinePeriod::Min15 => seq!["m15"@, "qfqm15"@],
        KlinePeriod::Min30 => seq!["m30"@, "qfqm30"@],
        KlinePeriod::Min60 => seq!["m60"@, "qfqm60"@],
    }
}

/// Looks up the series keys of a period in Tencent's reply: adjusted bars
/// first for day, week and month, plain minute bars first otherwise.
pub fn tencent_series_keys(period: KlinePeriod) -> (r: Vec<&'static str>)
    ensures
        r@.map_values(|k: &'static str| k@) == tencent_keys_spec(period),
{
    let (a, b): (&'static str, &'static str) = match period {
        KlinePeriod::Day => ("qfqday", "day"),
        KlinePeriod::Week => ("qfqweek", "week"),
        KlinePeriod::Month => ("qfqmonth", "month"),
        KlinePeriod::Min1 => ("m1", "qfqm1"),
        KlinePeriod::Min5 => ("m5", "qfqm5"),
        KlinePeriod::Min15 => ("m15", "qfqm15"),
        KlinePeriod::Min30 => ("m30", "qfqm30"),
        KlinePeriod::Min60 => ("m60", "qfqm60"),
    };
    let mut out: Vec<&'static str> = Vec::new();
    out.push(a);
    out.push(b);
    assert(out@.map_values(|k: &'static str| k@) =~= tencent_keys_spec(period));
    out
}

/// Every period reads back from its own name.
pub proof fn law_period_name_round_trip(p: KlinePeriod)
    ensures
        parse_period_spec(period_name(p)) == Some(p),
{
    reveal_strlit("day");
    reveal_strlit("week");
    reveal_strlit("month");
    reveal_strlit("min1");
    reveal_strlit("min5");
    reveal_strlit("min15");
    reveal_strlit("min30");
    reveal_strlit("min60");
    assert("day"@.len() == 3);
    assert("day"@[0] == 'd');
    assert("day"@[1] == 'a');
    assert("day"@[2] == 'y');
    assert("week"@.len() == 4);
    assert("week"@[0] == 'w');
    assert("week"@[1] == 'e');
    assert("week"@[2] == 'e');
    assert("week"@[3] == 'k');
    assert("month"@.len() == 5);
    assert("month"@[0] == 'm');
    assert("month"@[1] == 'o');
    assert("month"@[2] == 'n');
    assert("month"@[3] == 't');
    assert("month"@[4] == 'h');
    assert("min1"@.len() == 4);
    assert("min1"@[0] == 'm');
    assert("min1"@[1] == 'i');
    assert("min1"@[2] == 'n');
    assert("min1"@[3] == '1');
    assert("min5"@.len() == 4);
    assert("min5"@[0] == 'm');
    assert("min5"@[1] == 'i');
    assert("min5"@[2] == 'n');
    assert("min5"@[3] == '5');
    assert("min15"@.len() == 5);
    assert("min15"@[0] == 'm');
    assert("min15"@[1] == 'i');
    assert("min15"@[2] == 'n');
    assert("min15"@[3] == '1');
    assert("min15"@[4] == '5');
    assert("min30"@.len() == 5);
    assert("min30"@[0] == 'm');
    assert("min30"@[1] == 'i');
    assert("min30"@[2] == 'n');
    assert("min30"@[3] == '3');
    assert("min30"@[4] == '0');
    assert("min60"@.len() == 5);
    assert("min60"@[0] == 'm');
    assert("min60"@[1] == 'i');
    assert("min60"@[2] == 'n');
    assert("min60"@[3] == '6');
    assert("min60"@[4] == '0');
}

/// The display name of a candle source.
pub open spec fn source_label(src: KlineSource) -> Seq<char> {
    match src {
        KlineSource::Tencent => "腾讯"@,
        KlineSource::Sina => "新浪"@,
        KlineSource::Eastmoney => "东方财富"@,
    }
}

/// The note of a source that returned no bars: `{source}{period}返回为空`.
pub fn empty_source_message(src: KlineSource, period: KlinePeriod) -> (r: String)
    ensures
        r@ == source_label(src) + period_name(period) + "返回为空"@,
{
    let mut s = match src {
        KlineSource::Tencent => to_owned_string("腾讯"),
        KlineSource::Sina => to_owned_string("新浪"),
        KlineSource::Eastmoney => to_owned_string("东方财富"),
    };
    push_str(&mut s, period.as_str());
    push_str(&mut s, "返回为空");
    s
}

/// The error when every source failed: the period and each source's
/// error, joined by `；`.
pub fn kline_failure_message(period: KlinePeriod, errors: &[String]) -> (r: String)
    ensures
        r@ == period_name(period) + " K 线获取失败: "@ + join_semicolon(errors@.map_values(|e: String| e@)),
{
    let mut s = to_owned_string(period.as_str());
    push_str(&mut s, " K 线获取失败: ");
    let j = join_messages(errors);
    push_str(&mut s, j.as_str());
    s
}

} // verus!
