use stock_predict::backtest::HitCounters;
use stock_predict::factor::{clamp_lookback, style_for_stock, take_lookback, FactorStyle, MIN_BARS};
use stock_predict::kline::{effective_limit, kline_sources, tencent_series_keys, KlinePeriod, KlineSource};
use stock_predict::lexicon::{profile_words, words_for_kind};
use stock_predict::markers::{filter_markers_by_dates, BsMarker, BsMarkerKind};
use stock_predict::models::Stock;
use stock_predict::sentiment::{
    classify, merge_words, primary_search_query, theme_from_etf_name, MessageKind,
};

fn stock(code: &str, name: &str, sector: &str) -> Stock {
    Stock {
        code: code.to_string(),
        name: name.to_string(),
        market: "SH".to_string(),
        sector: sector.to_string(),
        is_hot: false,
    }
}

/// The action line of the leading probability, in percent.
const ACTIONABLE_LEAD: f64 = 55.0;

fn is_actionable(up: f64, down: f64) -> bool {
    up.max(down) + 1e-9 >= ACTIONABLE_LEAD
}

#[test]
fn counters_track_actionable() {
    let mut c = HitCounters::default();
    c.observe("up", "up", is_actionable(60.0, 40.0), true);
    c.observe("down", "up", is_actionable(52.0, 48.0), false);
    assert_eq!(c.total_all, 2);
    assert_eq!(c.correct_all, 1);
    assert_eq!(c.total_act, 1);
    assert_eq!(c.correct_act, 1);
    assert_eq!(c.hc_total, 1);
}

#[test]
fn counters_split_by_direction() {
    let mut c = HitCounters::default();
    c.observe("up", "down", true, false);
    c.observe("down", "down", true, true);
    c.observe("flat", "down", false, false);
    assert_eq!(c.up_total, 1);
    assert_eq!(c.up_hits, 0);
    assert_eq!(c.down_total, 2);
    assert_eq!(c.down_hits, 2);
    assert_eq!(c.correct_all, 1);
    assert_eq!(c.up_total_act, 1);
    assert_eq!(c.down_total_act, 1);
    assert_eq!(c.down_hits_act, 1);
    assert_eq!(c.hc_correct, 1);
    assert_eq!(c.up_total + c.down_total, c.total_all);
}

#[test]
fn filter_by_chart_window() {
    let all = vec![
        BsMarker { date: "2024-01-10".to_string(), kind: BsMarkerKind::Buy },
        BsMarker { date: "2024-02-01".to_string(), kind: BsMarkerKind::Sell },
    ];
    let window = vec!["2024-02-01".to_string(), "2024-02-02".to_string()];
    let filtered = filter_markers_by_dates(&all, &window);
    assert_eq!(filtered.len(), 1);
    assert_eq!(filtered[0].date, "2024-02-01");
    assert_eq!(filtered[0].kind, BsMarkerKind::Sell);
}

#[test]
fn filter_keeps_order_and_repeats() {
    let all = vec![
        BsMarker { date: "d2".to_string(), kind: BsMarkerKind::Sell },
        BsMarker { date: "d1".to_string(), kind: BsMarkerKind::Buy },
        BsMarker { date: "d2".to_string(), kind: BsMarkerKind::Buy },
    ];
    let out = filter_markers_by_dates(&all, &["d2".to_string()]);
    assert_eq!(out.len(), 2);
    assert_eq!(out[0].kind, BsMarkerKind::Sell);
    assert_eq!(out[1].kind, BsMarkerKind::Buy);
    assert!(filter_markers_by_dates(&all, &[]).is_empty());
}

#[test]
fn kline_period_mappings() {
    assert_eq!(KlinePeriod::parse("day").unwrap(), KlinePeriod::Day);
    assert_eq!(KlinePeriod::parse("week").unwrap(), KlinePeriod::Week);
    assert_eq!(KlinePeriod::parse("month").unwrap(), KlinePeriod::Month);
    assert_eq!(KlinePeriod::parse("min5").unwrap(), KlinePeriod::Min5);
    assert_eq!(KlinePeriod::Day.eastmoney_klt(), 101);
    assert_eq!(KlinePeriod::Week.eastmoney_klt(), 102);
    assert_eq!(KlinePeriod::Month.eastmoney_klt(), 103);
    assert_eq!(KlinePeriod::Min15.eastmoney_klt(), 15);
    assert_eq!(KlinePeriod::Min60.tencent_freq(), "m60");
    assert_eq!(KlinePeriod::Week.sina_scale(), None);
    assert_eq!(KlinePeriod::Day.sina_scale(), Some(240));
    assert!(KlinePeriod::Min1.is_intraday());
    assert!(!KlinePeriod::Day.is_intraday());
}

#[test]
fn kline_period_names_and_errors() {
    assert_eq!(KlinePeriod::Min30.as_str(), "min30");
    assert_eq!(KlinePeriod::parse("min30").unwrap().as_str(), "min30");
    assert_eq!(KlinePeriod::parse("hour").unwrap_err(), "不支持的 K 线周期: hour");
    assert_eq!(KlinePeriod::Month.tencent_freq(), "month");
    assert_eq!(KlinePeriod::Min5.sina_scale(), Some(5));
    assert_eq!(effective_limit(KlinePeriod::Week, 0), 104);
    assert_eq!(effective_limit(KlinePeriod::Day, 0), 90);
    assert_eq!(effective_limit(KlinePeriod::Min5, 0), 240);
    assert_eq!(effective_limit(KlinePeriod::Day, 30), 30);
}

#[test]
fn kline_sources_and_keys() {
    assert_eq!(
        kline_sources(KlinePeriod::Day),
        vec![KlineSource::Tencent, KlineSource::Sina, KlineSource::Eastmoney]
    );
    assert_eq!(
        kline_sources(KlinePeriod::Month),
        vec![KlineSource::Tencent, KlineSource::Eastmoney]
    );
    assert_eq!(tencent_series_keys(KlinePeriod::Day), vec!["qfqday", "day"]);
    assert_eq!(tencent_series_keys(KlinePeriod::Min1), vec!["m1", "qfqm1"]);
}

#[test]
fn lookback_is_snapped() {
    assert_eq!(clamp_lookback(60), 60);
    assert_eq!(clamp_lookback(10), 25);
    assert_eq!(clamp_lookback(200), 120);
    assert_eq!(clamp_lookback(70), 50);
    assert_eq!(clamp_lookback(25), 25);
    assert_eq!(clamp_lookback(120), 120);
}

#[test]
fn take_lookback_keeps_tail() {
    let bars: Vec<u32> = (0..40).collect();
    assert_eq!(take_lookback(&bars, 30), &bars[10..]);
    assert_eq!(take_lookback(&bars, 5).len(), MIN_BARS);
    assert_eq!(take_lookback(&bars[..20], 60).len(), 20);
}

#[test]
fn sse_etf_uses_index_style() {
    assert_eq!(
        style_for_stock(&stock("510980", "上证指数ETF汇添富", "ETF")),
        FactorStyle::IndexEtf
    );
}

#[test]
fn factor_style_of_other_securities() {
    assert_eq!(style_for_stock(&stock("600519", "贵州茅台", "白酒")), FactorStyle::Default);
    assert_eq!(style_for_stock(&stock("513100", "纳指ETF", "ETF")), FactorStyle::Default);
    assert_eq!(style_for_stock(&stock("518880", "黄金ETF", "ETF")), FactorStyle::Default);
    assert_eq!(style_for_stock(&stock("512480", "半导体ETF", "—")), FactorStyle::IndexEtf);
}

#[test]
fn classifies_gold_etf() {
    let s = stock("518880", "黄金ETF", "ETF");
    assert_eq!(classify(&s), MessageKind::Gold);
    let p = profile_words(&s);
    assert!(p.extra_queries.iter().any(|q| q.contains("美联储")));
}

#[test]
fn bank_uses_finance_profile() {
    let s = stock("600036", "招商银行", "银行");
    assert_eq!(classify(&s), MessageKind::Finance);
}

#[test]
fn classify_etfs_and_sectors() {
    assert_eq!(classify(&stock("510980", "上证指数ETF汇添富", "ETF")), MessageKind::BroadEtf);
    assert_eq!(classify(&stock("513100", "纳指ETF", "ETF")), MessageKind::OverseasEtf);
    assert_eq!(classify(&stock("512480", "半导体ETF", "ETF")), MessageKind::ThemeEtf);
    assert_eq!(classify(&stock("600547", "山东黄金", "有色")), MessageKind::Gold);
    assert_eq!(classify(&stock("601899", "紫金矿业", "有色")), MessageKind::Cyclical);
    assert_eq!(classify(&stock("000001", "某公司", "—")), MessageKind::Corporate);
    assert_eq!(classify(&stock("159999", "某基金", "ETF")), MessageKind::ThemeEtf);
}

#[test]
fn theme_etf_names() {
    assert_eq!(theme_from_etf_name("证券ETF"), MessageKind::Finance);
    assert_eq!(theme_from_etf_name("人工智能ETF"), MessageKind::Tech);
    assert_eq!(theme_from_etf_name("医药ETF"), MessageKind::Pharma);
    assert_eq!(theme_from_etf_name("酒ETF"), MessageKind::Consumer);
    assert_eq!(theme_from_etf_name("煤炭ETF"), MessageKind::Cyclical);
    assert_eq!(theme_from_etf_name("黄金股ETF"), MessageKind::Gold);
    assert_eq!(theme_from_etf_name("军工ETF"), MessageKind::BroadEtf);
}

#[test]
fn vocabularies() {
    let bank = words_for_kind(MessageKind::Finance);
    assert_eq!(bank.label, "金融");
    assert_eq!(bank.bullish[0], "增长");
    assert!(bank.bullish.contains(&"降准"));
    assert_eq!(bank.extra_queries, vec!["降准", "两融余额", "银行 息差"]);
    let theme = profile_words(&stock("512480", "半导体ETF", "ETF"));
    assert_eq!(theme.kind, MessageKind::ThemeEtf);
    assert_eq!(theme.label, "主题ETF");
    assert!(theme.bearish.contains(&"制裁"));
    let gold_theme = profile_words(&stock("517520", "黄金股ETF", "ETF"));
    assert_eq!(gold_theme.kind, MessageKind::Gold);
    let plain = profile_words(&stock("000001", "某公司", "—"));
    assert_eq!(plain.label, "一般个股");
    assert!(plain.extra_queries.is_empty());
    let broad = profile_words(&stock("510300", "沪深300ETF", "ETF"));
    assert_eq!(broad.extra_queries[0], "上证指数");
}

#[test]
fn merged_word_lists() {
    assert_eq!(merge_words(&["a", "b"], &["c"]), vec!["a", "b", "c"]);
    assert!(merge_words(&[], &[]).is_empty());
}

#[test]
fn first_news_query() {
    assert_eq!(primary_search_query(&stock("SH600519", "贵州茅台", "白酒")), "贵州茅台 600519");
    assert_eq!(primary_search_query(&stock("858", "", "—")), "000858");
}
