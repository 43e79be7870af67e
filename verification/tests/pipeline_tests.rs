use stock_predict::backtest::{
    capital_note, clamp_horizon, horizon_note, message_note, sample_plan, Sample,
};
use stock_predict::calendar::Date;
use stock_predict::cninfo::Announcement;
use stock_predict::kline::{empty_source_message, kline_failure_message, KlinePeriod, KlineSource};
use stock_predict::lexicon::{append_new_queries, search_queries};
use stock_predict::market::{hot_stock, rank_order, ths_hot_entries, HotEntry, ThsRaw};
use stock_predict::models::Stock;
use stock_predict::monitor::{TickAction, WatchControl};
use stock_predict::notices::{
    choose_org_id, cninfo_continues, cninfo_item, cninfo_outcome, cninfo_reply_error,
    em_ann_outcome, em_empty_list_error, em_notice_item, join_messages, page_continues,
    pick_archive, scan_page, search_item, search_outcome, search_pages, DatedTitle, OrgHit,
};
use stock_predict::predictor::{bias_label, enabled_for_algorithm, SeededRng};
use stock_predict::quotes::parse_quote_rows;
use stock_predict::scoring::{clamped_net, message_lookback_for, news_note, scan_note, title_tally};
use stock_predict::strategy::{catalog, compose_needs, compose_plan, historical_sources, ComposeSlot};
use stock_predict::text::decimal_text;
use stock_predict::user_store::legacy_watchlist;

fn d(y: i32, m: u32, day: u32) -> Date {
    Date::from_ymd_opt(y, m, day).unwrap()
}

fn stock(code: &str, name: &str, sector: &str) -> Stock {
    Stock {
        code: code.to_string(),
        name: name.to_string(),
        market: "SH".to_string(),
        sector: sector.to_string(),
        is_hot: false,
    }
}

fn field_f64(fields: &[String], idx: usize) -> Option<f64> {
    fields.get(idx).and_then(|s| s.trim().parse::<f64>().ok()).filter(|v| v.is_finite())
}

#[test]
fn parse_tencent_fixture() {
    let mut parts = vec!["x"; 40];
    parts[1] = "贵州茅台";
    parts[2] = "600519";
    parts[3] = "1460.00";
    parts[4] = "1450.00";
    parts[5] = "1455.00";
    parts[6] = "1000";
    parts[31] = "10.00";
    parts[32] = "0.69";
    parts[33] = "1470.00";
    parts[34] = "1440.00";
    parts[37] = "150.5";
    let body = parts.join("~");
    let text = format!("v_sh600519=\"{body}\";\n");
    let rows = parse_quote_rows(&text, true);
    let q = rows.iter().find(|r| r.code == "600519").expect("code");
    let f = &q.fields;
    assert!((field_f64(f, 3).unwrap() - 1460.0).abs() < 1e-6);
    assert!((field_f64(f, 4).unwrap() - 1450.0).abs() < 1e-6);
    assert!((field_f64(f, 5).unwrap() - 1455.0).abs() < 1e-6);
    assert!((field_f64(f, 6).unwrap() - 1000.0).abs() < 1e-6);
    assert!((field_f64(f, 31).unwrap() - 10.0).abs() < 1e-6);
    assert!((field_f64(f, 32).unwrap() - 0.69).abs() < 1e-6);
    assert!((field_f64(f, 33).unwrap() - 1470.0).abs() < 1e-6);
    assert!((field_f64(f, 34).unwrap() - 1440.0).abs() < 1e-6);
    assert!((field_f64(f, 37).unwrap() * 10_000.0 - 1_505_000.0).abs() < 1e-3);
}

#[test]
fn parse_sina_fixture() {
    let text = "var hq_str_sh600519=\"贵州茅台,1455.00,1450.00,1460.00,1470.00,1440.00,1459.00,1461.00,100000,146000000.00,1,1,1,1,1,1,1,1,1,1,1,1,1,1,1,1,1,1,1,1,2024-01-01,15:00:00,00\";\n";
    let rows = parse_quote_rows(text, false);
    let q = rows.iter().find(|r| r.code == "600519").expect("code");
    let f = &q.fields;
    let price = field_f64(f, 3).unwrap();
    let prev_close = field_f64(f, 2).unwrap();
    assert!((price - 1460.0).abs() < 1e-6);
    assert!((field_f64(f, 1).unwrap() - 1455.0).abs() < 1e-6);
    assert!((prev_close - 1450.0).abs() < 1e-6);
    assert!((field_f64(f, 4).unwrap() - 1470.0).abs() < 1e-6);
    assert!((field_f64(f, 5).unwrap() - 1440.0).abs() < 1e-6);
    assert!((field_f64(f, 8).unwrap() / 100.0 - 1000.0).abs() < 1e-6);
    assert!((field_f64(f, 9).unwrap() - 146_000_000.0).abs() < 1e-3);
    assert!(((price - prev_close) - 10.0).abs() < 1e-6);
    assert!(((price - prev_close) / prev_close * 100.0 - 10.0 / 1450.0 * 100.0).abs() < 1e-6);
}

#[test]
fn quote_lines_that_carry_nothing_are_skipped() {
    let short = "v_sz000001=\"1~2~3\";";
    let empty = "v_sz000002=\"1\";";
    let other = "junk line";
    let mut parts = vec!["y"; 36];
    parts[2] = "";
    let body = parts.join("~");
    let no_code_field = format!("  v_sz000858=\"{body}\";\r");
    let text = format!("{short}\n{empty}\n\n{other}\n{no_code_field}");
    let rows = parse_quote_rows(&text, true);
    assert_eq!(rows.len(), 1);
    assert_eq!(rows[0].code, "000858");
    assert_eq!(rows[0].fields.len(), 36);
    let sina = "var hq_str_sz000001=\"\";\nvar hq_str_=\"a,b,c,d,e,f,g,h,i,j\";\nvar hq_str_bj830799=\"a,b,c,d,e,f,g,h,i,j\"";
    let rows = parse_quote_rows(sina, false);
    assert_eq!(rows.len(), 1);
    assert_eq!(rows[0].code, "830799");
    assert_eq!(rows[0].fields[0], "a");
}

#[test]
fn page_scan_keeps_window_and_tracks_oldest() {
    let items = vec![
        DatedTitle { title: "a".to_string(), date: Some(d(2025, 1, 5)) },
        DatedTitle { title: String::new(), date: Some(d(2024, 1, 1)) },
        DatedTitle { title: "b".to_string(), date: None },
        DatedTitle { title: "c".to_string(), date: Some(d(2024, 12, 1)) },
        DatedTitle { title: "e".to_string(), date: Some(d(2025, 2, 1)) },
    ];
    let scan = scan_page(&items, d(2025, 1, 1), d(2025, 1, 31));
    assert_eq!(scan.accepted.len(), 1);
    assert_eq!(scan.accepted[0].title, "a");
    assert_eq!(scan.oldest, Some(d(2024, 12, 1)));
    assert!(!page_continues(scan.oldest, d(2025, 1, 1), 50, 50));
    assert!(page_continues(Some(d(2025, 1, 2)), d(2025, 1, 1), 50, 50));
    assert!(!page_continues(None, d(2025, 1, 1), 49, 50));
    assert!(page_continues(None, d(2025, 1, 1), 50, 50));
}

#[test]
fn notice_entries() {
    let it = em_notice_item(Some("  公告  "), Some("bad"), None, Some("2025-01-02 08:00:00"));
    assert_eq!(it.title, "公告");
    assert_eq!(it.date, Some(d(2025, 1, 2)));
    let it = em_notice_item(Some("公告"), Some("2025-01-03"), Some("2025-01-04"), None);
    assert_eq!(it.date, Some(d(2025, 1, 3)));
    // an entry without a title is skipped before its dates are read
    let it = em_notice_item(None, Some("2025-01-03"), Some("2025-01-04"), None);
    assert_eq!(it.title, "");
    assert_eq!(it.date, None);
    let s = search_item(Some("<em>茅台</em>涨价"), Some("2025/01/05"));
    assert_eq!(s.title, "茅台涨价");
    assert_eq!(s.date, Some(d(2025, 1, 5)));
    assert_eq!(search_item(None, Some("2025/01/05")).date, None);
    let c = cninfo_item(Some(" 年报 "), Some(1_735_689_600_000));
    assert_eq!(c.title, "年报");
    assert_eq!(c.date, Some(d(2025, 1, 1)));
    assert_eq!(cninfo_item(None, None).date, None);
}

#[test]
fn cninfo_reply_checks() {
    assert_eq!(cninfo_reply_error(false, "502", " x "), Some("巨潮 HTTP 502: x".to_string()));
    assert_eq!(cninfo_reply_error(true, "200", "  \n"), Some("巨潮返回空响应".to_string()));
    assert_eq!(
        cninfo_reply_error(true, "200", "  <html>"),
        Some("巨潮返回 HTML: <html>".to_string())
    );
    assert_eq!(cninfo_reply_error(true, "200", "{\"a\":1}"), None);
    assert!(cninfo_continues(true, 30));
    assert!(!cninfo_continues(true, 29));
    assert!(!cninfo_continues(false, 30));
}

fn ann(y: i32, m: u32, day: u32, t: &str) -> Announcement {
    Announcement { date: d(y, m, day), title: t.to_string() }
}

#[test]
fn archive_source_preference() {
    let got = pick_archive(vec![
        Err("东财失败".to_string()),
        Ok(vec![]),
        Ok(vec![ann(2025, 1, 2, "b"), ann(2025, 1, 1, "a"), ann(2025, 1, 2, "b")]),
    ])
    .unwrap();
    assert_eq!(got.len(), 2);
    let none = pick_archive(vec![Err("e1".to_string()), Ok(vec![]), Err("e3".to_string())]);
    assert_eq!(none.unwrap_err(), "e1；空列表；e3");
    assert_eq!(pick_archive(vec![]).unwrap_err(), "");
}

#[test]
fn source_outcomes() {
    let ok = em_ann_outcome(vec![ann(2025, 1, 2, "x")], String::new(), true, d(2025, 1, 1), d(2025, 1, 3));
    assert_eq!(ok.unwrap().len(), 1);
    let err = em_ann_outcome(vec![], "东财公告请求失败".to_string(), true, d(2025, 1, 1), d(2025, 1, 3));
    assert_eq!(err.unwrap_err(), "东财公告请求失败");
    let outside = em_ann_outcome(vec![], String::new(), true, d(2025, 1, 1), d(2025, 1, 3));
    assert_eq!(outside.unwrap_err(), "东财公告不在区间 2025-01-01~2025-01-03");
    let far = em_ann_outcome(vec![], String::new(), true, d(-5, 1, 1), d(10000, 1, 2));
    assert_eq!(far.unwrap_err(), "东财公告不在区间 -0005-01-01~+10000-01-02");
    let empty = em_ann_outcome(vec![], String::new(), false, d(2025, 1, 1), d(2025, 1, 3));
    assert_eq!(empty.unwrap_err(), "东财公告为空");
    assert_eq!(em_empty_list_error(1), Some("东财公告列表为空".to_string()));
    assert_eq!(em_empty_list_error(2), None);
    assert_eq!(cninfo_outcome(vec![]).unwrap_err(), "巨潮无公告");
    assert_eq!(search_outcome(vec![], &[]).unwrap_err(), "资讯搜索无结果");
    assert_eq!(
        search_outcome(vec![], &["a".to_string(), "b".to_string()]).unwrap_err(),
        "a；b"
    );
    assert_eq!(search_pages(0), 4);
    assert_eq!(search_pages(3), 2);
    assert_eq!(join_messages(&[]), "");
}

#[test]
fn org_id_choice() {
    let hits = vec![
        OrgHit { code: Some("000001".to_string()), org_id: Some("first".to_string()) },
        OrgHit { code: Some("600519".to_string()), org_id: Some("gssh0600519".to_string()) },
    ];
    assert_eq!(choose_org_id(&hits, "600519", "guess".to_string()), "gssh0600519");
    assert_eq!(choose_org_id(&hits, "000858", "guess".to_string()), "first");
    let blank = vec![OrgHit { code: Some("SZ000858".to_string()), org_id: Some(String::new()) }];
    assert_eq!(choose_org_id(&blank, "000858", "guess".to_string()), "guess");
    assert_eq!(choose_org_id(&[], "000858", "guess".to_string()), "guess");
}

#[test]
fn query_lists() {
    let gold = search_queries(&stock("518880", "黄金ETF", "ETF"), &[]);
    assert_eq!(gold[0], "黄金ETF 518880");
    assert_eq!(gold[1], "黄金 美联储");
    assert_eq!(gold.len(), 8);
    let extra = vec!["沪指".to_string(), "新词".to_string(), "新词".to_string()];
    let broad = search_queries(&stock("510300", "沪深300ETF", "ETF"), &extra);
    assert_eq!(broad.len(), 10);
    assert_eq!(broad[9], "新词");
    let bank = search_queries(&stock("600036", "招商银行", "银行"), &extra);
    assert_eq!(bank.len(), 4);
    let mut q = vec!["a".to_string()];
    append_new_queries(&mut q, &["a".to_string(), "b".to_string()]);
    assert_eq!(q, vec!["a".to_string(), "b".to_string()]);
}

#[test]
fn backtest_layout_and_notes() {
    assert_eq!(clamp_horizon(0), 1);
    assert_eq!(clamp_horizon(9), 5);
    assert_eq!(clamp_horizon(3), 3);
    assert!(sample_plan(10, 8, 2).is_empty());
    let plan = sample_plan(12, 8, 2);
    assert_eq!(
        plan,
        vec![
            Sample { window_start: 1, index: 8, target: 10 },
            Sample { window_start: 2, index: 9, target: 11 },
        ]
    );
    assert_eq!(horizon_note(1), "次日");
    assert_eq!(horizon_note(3), "3 日累计");
    assert_eq!(message_note(false, true, 3, None), "");
    assert_eq!(message_note(true, true, 12, None), "；消息面已纳入（公告 12 条）");
    assert_eq!(message_note(true, false, 0, Some("超时")), "；消息面公告拉取失败: 超时");
    assert_eq!(message_note(true, false, 0, None), "；消息面启用但区间内无公告，按中性计入");
    assert_eq!(
        capital_note(true, true, 10, 20, 0, "", None),
        "；资金流已纳入（主力 10 / 成交代理 20 / 北向 0；—）"
    );
    assert_eq!(
        capital_note(true, false, 0, 0, 0, "", None),
        "；资金流启用但无可用历史（请配置 Tushare Token）"
    );
    assert_eq!(decimal_text(0), "0");
    assert_eq!(decimal_text(18_446_744_073_709_551_615), "18446744073709551615");
}

#[test]
fn keyword_tallies() {
    let bull = ["增长", "Beat"];
    let bear = ["下滑", "  "];
    assert_eq!(title_tally("营收增长 beat 预期", &bull, &bear, true), (2, 0));
    assert_eq!(title_tally("营收增长 beat 预期", &bull, &bear, false), (2, 0));
    assert_eq!(title_tally("利润下滑  ", &bull, &bear, false), (0, 2));
    assert_eq!(title_tally("利润下滑", &bull, &bear, true), (0, 1));
    assert_eq!(clamped_net(5, 0), 3);
    assert_eq!(clamped_net(0, 5), -3);
    assert_eq!(clamped_net(2, 1), 1);
    assert_eq!(scan_note("金融", 3, 0), "金融 · 扫描 3 条，中性");
    assert_eq!(scan_note("金融", 3, 4), "金融 · 扫描 3 条，命中 4 次");
    assert_eq!(news_note(12, 0), "扫描 12 条，中性");
    assert_eq!(news_note(12, 5), "扫描 12 条，命中 5 次关键词");
    assert_eq!(message_lookback_for(&stock("510300", "沪深300ETF", "ETF")), 2);
    assert_eq!(message_lookback_for(&stock("518880", "黄金ETF", "ETF")), 5);
    assert_eq!(message_lookback_for(&stock("600519", "贵州茅台", "白酒")), 7);
}

#[test]
fn popularity_entries() {
    let raw = vec![
        ThsRaw { code: Some("601991".to_string()), market: Some(17), name: Some(" 大唐发电 ".to_string()) },
        ThsRaw { code: None, market: Some(33), name: None },
        ThsRaw { code: Some("000858".to_string()), market: None, name: Some("  ".to_string()) },
        ThsRaw { code: Some("300750".to_string()), market: Some(33), name: None },
    ];
    let entries = ths_hot_entries(&raw, 3);
    assert_eq!(entries.len(), 2);
    assert_eq!(entries[0].market, "SH");
    assert_eq!(entries[0].name, Some("大唐发电".to_string()));
    assert_eq!(entries[1].code, "000858");
    assert_eq!(entries[1].market, "SZ");
    assert_eq!(entries[1].name, None);
    let e = HotEntry { market: "SH".to_string(), code: "601991".to_string(), name: Some("大唐".to_string()) };
    let s = hot_stock(&e, None);
    assert_eq!(s.name, "大唐");
    assert_eq!(s.sector, "人气榜");
    assert!(s.is_hot);
}

#[test]
fn surge_list_order() {
    assert_eq!(rank_order(&[3, 1, 2, 1], 3), vec![1, 3, 2]);
    assert_eq!(rank_order(&[5, 5], 10), vec![0, 1]);
    assert_eq!(rank_order(&[9, -1, 4], 0), Vec::<usize>::new());
    assert_eq!(rank_order(&[], 4), Vec::<usize>::new());
}

#[test]
fn composition_rules() {
    let ids: Vec<String> = ["momentum", "bogus", "factor"].iter().map(|s| s.to_string()).collect();
    let plan = compose_plan(&ids);
    assert_eq!(plan[0], ComposeSlot::Existing(0));
    assert_eq!(plan[1], ComposeSlot::Existing(2));
    assert_eq!(plan.len(), 2 + 7);
    assert_eq!(plan[2], ComposeSlot::Added(2));
    assert_eq!(plan[8], ComposeSlot::Added(8));
    let ids: Vec<String> = ["factor", "message", "news", "capital_flow"].iter().map(|s| s.to_string()).collect();
    assert_eq!(historical_sources(&ids, &[true, true, true, true], true), vec![0, 1, 3]);
    assert_eq!(historical_sources(&ids, &[true, true, true, true], false), vec![0]);
    assert_eq!(historical_sources(&ids, &[false, true, true, false], true), vec![1]);
    assert!(compose_needs(&ids, &[false, true, false, false], "message"));
    assert!(!compose_needs(&ids, &[true, false, true, true], "message"));
}

#[test]
fn composition_normalises_once() {
    let ids: Vec<String> = ["momentum", "bogus", "factor"].iter().map(|s| s.to_string()).collect();
    let cat: Vec<String> = catalog().iter().map(|s| s.id.clone()).collect();
    let normalised: Vec<String> = compose_plan(&ids)
        .iter()
        .map(|slot| match slot {
            ComposeSlot::Existing(i) => ids[*i].clone(),
            ComposeSlot::Added(c) => cat[*c].clone(),
        })
        .collect();
    assert_eq!(normalised.len(), cat.len());
    let mut sorted_a = normalised.clone();
    let mut sorted_b = cat.clone();
    sorted_a.sort();
    sorted_b.sort();
    assert_eq!(sorted_a, sorted_b);
    assert_eq!(normalised[0], "momentum");
    assert_eq!(normalised[1], "factor");
    let again = compose_plan(&normalised);
    let identity: Vec<ComposeSlot> = (0..normalised.len()).map(ComposeSlot::Existing).collect();
    assert_eq!(again, identity);
}

#[test]
fn predictor_parts() {
    let mut rng = SeededRng::new(0);
    let a = rng.next_bits();
    let expected = 1u64.wrapping_mul(6364136223846793005).wrapping_add(1) >> 11;
    assert_eq!(a, expected);
    let mut r2 = SeededRng::new(1);
    assert_eq!(r2.next_bits(), a);
    assert!(enabled_for_algorithm("placeholder_v1", "factor"));
    assert!(!enabled_for_algorithm("placeholder_v1", "momentum"));
    assert!(enabled_for_algorithm("compose", "volume"));
    assert!(!enabled_for_algorithm("compose", "message"));
    assert_eq!(bias_label(true, "up"), "高置信看涨");
    assert_eq!(bias_label(true, "down"), "高置信看跌");
    assert_eq!(bias_label(false, "up"), "看涨");
    assert_eq!(bias_label(false, "flat"), "看跌");
}

#[test]
fn candle_messages() {
    assert_eq!(empty_source_message(KlineSource::Sina, KlinePeriod::Day), "新浪day返回为空");
    assert_eq!(
        kline_failure_message(KlinePeriod::Week, &["a".to_string(), "b".to_string()]),
        "week K 线获取失败: a；b"
    );
}

#[test]
fn watch_control_steps() {
    let mut c = WatchControl::new();
    assert_eq!(c.tick_action(true, 3), TickAction::Skip);
    c.start();
    assert_eq!(c.tick_action(true, 3), TickAction::FetchQuotes);
    assert_eq!(c.tick_action(false, 3), TickAction::Skip);
    assert_eq!(c.tick_action(true, 0), TickAction::Skip);
    assert_eq!(c.sleep_secs(), 15);
    c.apply_settings(30, true);
    assert_eq!(c.sleep_secs(), 30);
    c.record_fetch(false);
    c.record_fetch(false);
    assert_eq!(c.consecutive_failures, 2);
    c.record_fetch(true);
    assert_eq!(c.consecutive_failures, 0);
    c.stop();
    assert_eq!(c.tick_action(true, 3), TickAction::Skip);
}

#[test]
fn legacy_codes_become_stocks() {
    let w = legacy_watchlist(&["600519".to_string()]);
    assert_eq!(w.len(), 1);
    assert_eq!(w[0].code, "600519");
    assert_eq!(w[0].name, "600519");
    assert_eq!(w[0].market, "");
}
