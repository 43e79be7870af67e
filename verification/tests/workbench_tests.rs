use stock_predict::analysis::{
    analysis_fetch_limit, chart_start, listing_order, mark_hot, stock_list_warning, HotListOutcome,
};
use stock_predict::capital::{
    activity_failure_note, activity_fetch_limit, days_note, disk_archive_sufficient, flow_window,
    memory_archive_fresh, usable_days, FetchMode,
};
use stock_predict::screener::{
    empty_screen_summary, hot_fetch_failure, passes_name_and_board, screen_limits, universe_lists,
    ScreenLimits, ScreenUniverse,
};
use stock_predict::scoring::masked_hits;
use stock_predict::strategy::screen_source_flags;
use stock_predict::text::chars_find_seq;

fn ids(list: &[&str]) -> Vec<String> {
    list.iter().map(|s| s.to_string()).collect()
}

const SCREEN_IDS: [&str; 9] =
    ["factor", "momentum", "mean_reversion", "volume", "message", "news", "policy", "us_market", "capital_flow"];

#[test]
fn compose_strips_live() {
    // the default screen composition with the news source switched on
    let ids = ids(&SCREEN_IDS);
    let enabled = vec![true, true, false, true, false, true, false, false, false];
    let weights = [40.0, 30.0, 15.0, 20.0, 20.0, 10.0, 10.0, 10.0, 15.0];
    let positive: Vec<bool> = weights.iter().map(|w: &f64| *w > 0.0).collect();
    let out = screen_source_flags(&ids, &enabled, &positive).expect("technical sources stay");
    for (id, on) in ids.iter().zip(out.iter()) {
        assert!(!matches!(id.as_str(), "news" | "policy" | "us_market") || !on);
    }
}

#[test]
fn screen_flags_keep_technical_sources() {
    let ids = ids(&SCREEN_IDS);
    let enabled = vec![true, true, false, true, true, true, true, true, true];
    let positive = vec![true; 9];
    let out = screen_source_flags(&ids, &enabled, &positive).unwrap();
    assert_eq!(out, vec![true, true, false, true, false, false, false, false, false]);
}

#[test]
fn screen_flags_fall_back_without_technical_source() {
    let ids = ids(&SCREEN_IDS);
    let enabled = vec![false, false, false, false, true, true, true, true, true];
    assert_eq!(screen_source_flags(&ids, &enabled, &vec![true; 9]), None);
    // an enabled technical source with a zero weight does not count
    let enabled = vec![true, false, false, false, true, false, false, false, false];
    let mut positive = vec![true; 9];
    positive[0] = false;
    assert_eq!(screen_source_flags(&ids, &enabled, &positive), None);
}

#[test]
fn filter_st() {
    // default screen filters drop special-treatment names
    let stocks = [("600000", "浦发银行"), ("000001", "ST示例")];
    let out: Vec<&str> = stocks
        .iter()
        .filter(|(code, name)| passes_name_and_board(name, code, true, false))
        .map(|(code, _)| *code)
        .collect();
    assert_eq!(out.len(), 1);
    assert_eq!(out[0], "600000");
}

#[test]
fn screen_universe_lists() {
    assert_eq!(universe_lists(ScreenUniverse::Hot), (true, false, false));
    assert_eq!(universe_lists(ScreenUniverse::Watchlist), (false, true, false));
    assert_eq!(universe_lists(ScreenUniverse::Seed), (false, false, true));
    assert_eq!(universe_lists(ScreenUniverse::Mixed), (true, true, true));
    assert_eq!(hot_fetch_failure(ScreenUniverse::Hot, "超时"), Some("人气榜获取失败: 超时".to_string()));
    assert_eq!(hot_fetch_failure(ScreenUniverse::Mixed, "超时"), None);
}

#[test]
fn screen_run_limits() {
    assert_eq!(
        screen_limits(20, 4, 50, 0),
        ScreenLimits { top_n: 20, concurrency: 4, lookback_days: 50, fetch_limit: 60 }
    );
    assert_eq!(
        screen_limits(0, 0, 50, 120),
        ScreenLimits { top_n: 1, concurrency: 1, lookback_days: 120, fetch_limit: 130 }
    );
    assert_eq!(
        screen_limits(500, 64, 10, 0),
        ScreenLimits { top_n: 50, concurrency: 8, lookback_days: 10, fetch_limit: 40 }
    );
    assert_eq!(screen_limits(5, 2, 50, 70).fetch_limit, 60);
    assert_eq!(empty_screen_summary(37), "股票池 37 只，硬过滤后无候选。请放宽条件后重试。");
}

#[test]
fn capital_flow_windows() {
    // consecutive days 100..=124
    let days: Vec<i32> = (100..125).collect();
    assert_eq!(flow_window(&days, 124, 1), Some((0, 25)));
    assert_eq!(flow_window(&days, 150, 1), None); // latest day 26 days old
    let longer: Vec<i32> = (60..125).collect();
    assert_eq!(flow_window(&longer, 124, 21), Some((24, 65)));
    assert_eq!(flow_window(&days, 130, 1), None); // latest day six days old
    assert_eq!(flow_window(&days, 129, 1), Some((0, 25)));
    assert_eq!(flow_window(&days, 124, 26), None);
    assert_eq!(flow_window(&days, 110, 1), Some((0, 11)));
    assert_eq!(flow_window(&[], 110, 1), None);
    assert_eq!(flow_window(&days, 50, 0), None);
}

#[test]
fn capital_flow_fetch_rules() {
    assert_eq!(activity_fetch_limit(FetchMode::Fast), 180);
    assert_eq!(activity_fetch_limit(FetchMode::Full), 400);
    assert_eq!(usable_days(3, 90, 12), 90);
    assert_eq!(usable_days(0, 0, 0), 0);
    assert!(memory_archive_fresh(7199, 1));
    assert!(!memory_archive_fresh(7200, 1));
    assert!(!memory_archive_fresh(10, 0));
    assert!(disk_archive_sufficient(80, Some(43199)));
    assert!(!disk_archive_sufficient(79, Some(0)));
    assert!(!disk_archive_sufficient(200, None));
    assert!(!disk_archive_sufficient(200, Some(43200)));
    assert_eq!(days_note("两市成交代理", 120), "两市成交代理 120 日");
    assert_eq!(activity_failure_note(FetchMode::Fast, 60, "超时"), "成交代理沿用缓存(超时)");
    assert_eq!(activity_failure_note(FetchMode::Fast, 59, "超时"), "成交代理失败(超时)");
    assert_eq!(activity_failure_note(FetchMode::Full, 300, "超时"), "成交代理失败(超时)");
}

#[test]
fn analysis_windows() {
    assert_eq!(analysis_fetch_limit(50, 1), 171);
    assert_eq!(analysis_fetch_limit(120, 5), 245);
    assert_eq!(chart_start(171, 50), 81);
    assert_eq!(chart_start(80, 50), 0);
    assert_eq!(chart_start(245, 120), 125);
}

#[test]
fn stock_list_order_and_warning() {
    let codes = ids(&["600519", "000001", "300750", "000001"]);
    let hot = mark_hot(&codes, &ids(&["300750", "600519", "999999"]));
    assert_eq!(hot, vec![true, false, true, false]);
    assert_eq!(listing_order(&codes, &hot), vec![2, 0, 1, 3]);
    assert_eq!(stock_list_warning(&HotListOutcome::Listed, false), None);
    assert_eq!(
        stock_list_warning(&HotListOutcome::Empty, true),
        Some("人气榜返回空列表，请检查网络后刷新；行情补全失败，部分价格可能缺失".to_string())
    );
    assert_eq!(
        stock_list_warning(&HotListOutcome::Failed("超时".to_string()), false),
        Some("人气榜: 超时".to_string())
    );
    assert_eq!(
        stock_list_warning(&HotListOutcome::Unquoted, false),
        Some("人气榜行情补全失败，已展示榜单基础信息".to_string())
    );
}

#[test]
fn masked_keyword_scan() {
    let keys = ids(&["北向资金流入", "北向资金", "流入", " ", "降准", "暴跌"]);
    // the longer keyword masks the shorter ones inside it
    assert_eq!(masked_hits("北向资金流入创新高", &keys), vec![0]);
    assert_eq!(masked_hits("北向资金今日流入，央行降准", &keys), vec![1, 2, 4]);
    assert_eq!(masked_hits("平稳", &keys), Vec::<usize>::new());
    // a keyword counts once per title
    assert_eq!(masked_hits("暴跌暴跌", &keys), vec![5]);
}

#[test]
fn first_occurrence_search() {
    let v: Vec<char> = "abcabc".chars().collect();
    let p: Vec<char> = "ca".chars().collect();
    assert_eq!(chars_find_seq(&v, &p), Some(2));
    let q: Vec<char> = "cc".chars().collect();
    assert_eq!(chars_find_seq(&v, &q), None);
    assert_eq!(chars_find_seq(&v, &[]), Some(0));
}
