use stock_predict::backtest::short_history;
use stock_predict::calendar::{date_text_ok, try_next_trading_day, Date, MAX_DAYS};
use stock_predict::cninfo::json_body_ok;
use stock_predict::replies::{
    cninfo_page, cninfo_page_read, em_page, em_page_read, news_titles, news_titles_read, org_id_from_reply,
    search_page, search_page_read, CninfoFields, EmFields, SearchFields,
};

fn d(y: i32, m: u32, day: u32) -> Date {
    Date::from_ymd_opt(y, m, day).unwrap()
}

fn s(x: &str) -> Option<String> {
    Some(x.to_string())
}

#[test]
fn east_money_page_fields() {
    let f = |has: bool, tc: Option<String>, t: Option<String>, nd: Option<String>| EmFields {
        has_title_ch: has,
        title_ch: tc,
        title: t,
        notice_date: nd,
        ei_time: None,
        display_time: s("2025-01-02 08:00"),
    };
    let fields = vec![
        f(true, s(" 年报 "), s("ignored"), s("2025-01-03")),
        f(false, None, s("季报"), None),
        f(true, None, s("not used"), s("2025-01-04")),
        f(false, None, s("旧闻"), s("2024-12-20")),
    ];
    let read = em_page_read("", Ok(Some(fields)), d(2025, 1, 1), d(2025, 1, 31)).unwrap().unwrap();
    let titles: Vec<&str> = read.scan.accepted.iter().map(|a| a.title.as_str()).collect();
    assert_eq!(titles, vec!["年报", "季报"]);
    assert_eq!(read.scan.accepted[1].date, d(2025, 1, 2));
    assert_eq!(read.scan.oldest, Some(d(2024, 12, 20)));
    assert_eq!(read.count, 4);
    assert!(!read.more);
    let err = em_page_read("oops", Err("bad".to_string()), d(2025, 1, 1), d(2025, 1, 31)).unwrap();
    assert_eq!(err.unwrap_err(), "东财公告 JSON 失败: bad · oops");
    let none = em_page_read("", Ok(None), d(2025, 1, 1), d(2025, 1, 31)).unwrap().unwrap();
    assert_eq!(none.count, 0);
}

#[test]
fn east_money_page_reply() {
    let text = r#"jQuery1({"data":{"list":[{"title":"公告A","notice_date":"2025-01-05 00:00:00"},{"title_ch":"公告B","notice_date":"2025-02-01"}]}})"#;
    let read = em_page(text, d(2025, 1, 1), d(2025, 1, 31)).unwrap().unwrap();
    assert_eq!(read.scan.accepted.len(), 1);
    assert_eq!(read.scan.accepted[0].title, "公告A");
    assert_eq!(read.scan.accepted[0].date, d(2025, 1, 5));
    assert_eq!(read.count, 2);
    let bad = em_page("jQuery1(not json)", d(2025, 1, 1), d(2025, 1, 31)).unwrap();
    assert!(bad.unwrap_err().starts_with("东财公告 JSON 失败: "));
    assert!(em_page("}x{", d(2025, 1, 1), d(2025, 1, 31)).is_none());
    let unreadable = r#"{"data":{"list":[{"title":"x","notice_date":"2025-01-0é"}]}}"#;
    assert!(em_page(unreadable, d(2025, 1, 1), d(2025, 1, 31)).is_none());
}

#[test]
fn cninfo_page_fields_and_reply() {
    let fields = vec![
        CninfoFields { has_announcement_title: true, announcement_title: s(" 公告 "), short_title: s("短"), announcement_time: Some(1_735_689_600_000) },
        CninfoFields { has_announcement_title: false, announcement_title: None, short_title: s("短标题"), announcement_time: Some(0) },
    ];
    let read = cninfo_page_read("", Ok((Some(fields), Some(true))), d(2025, 1, 1), d(2025, 1, 31)).unwrap().unwrap();
    assert_eq!(read.scan.accepted.len(), 1);
    assert_eq!(read.scan.accepted[0].title, "公告");
    assert_eq!(read.count, 2);
    assert!(!read.more);
    let text = r#"{"announcements":[{"announcementTitle":"年度报告","announcementTime":1735776000000}],"hasMore":false}"#;
    let read = cninfo_page(text, d(2025, 1, 1), d(2025, 1, 31)).unwrap().unwrap();
    assert_eq!(read.scan.accepted[0].title, "年度报告");
    assert_eq!(read.scan.accepted[0].date, d(2025, 1, 2));
    assert!(cninfo_page("{oops}", d(2025, 1, 1), d(2025, 1, 31)).unwrap().unwrap_err().starts_with("巨潮 JSON 解析失败: "));
}

#[test]
fn search_page_fields_and_reply() {
    let fields = vec![
        SearchFields { title: s("<em>平安</em>银行"), date: s("2025-01-03 10:00:00") },
        SearchFields { title: s("<b></b>"), date: s("garbage") },
    ];
    let read = search_page_read("", Ok(Some(fields)), d(2025, 1, 1), d(2025, 1, 31)).unwrap().unwrap();
    assert_eq!(read.scan.accepted.len(), 1);
    assert_eq!(read.scan.accepted[0].title, "平安银行");
    assert_eq!(read.count, 2);
    let text = r#"jQuery({"result":{"cmsArticleWebOld":[{"title":"新闻","date":"2025-01-06 09:00:00"}]}})"#;
    let read = search_page(text, d(2025, 1, 1), d(2025, 1, 31)).unwrap().unwrap();
    assert_eq!(read.scan.accepted[0].date, d(2025, 1, 6));
}

#[test]
fn news_titles_of_reply() {
    let fields = vec![SearchFields { title: s("甲"), date: None }, SearchFields { title: None, date: None }];
    assert_eq!(news_titles_read(Ok(Some(fields))).unwrap(), vec!["甲".to_string()]);
    assert_eq!(news_titles_read(Err("e".into())).unwrap_err(), "e");
    let text = r#"jQuery({"result":{"cmsArticleWebOld":[{"title":"标题一"},{"title":"标题二"}]}})"#;
    assert_eq!(news_titles(text).unwrap().unwrap(), vec!["标题一".to_string(), "标题二".to_string()]);
    assert_eq!(news_titles("no parens").unwrap().unwrap_err(), "jsonp 解析失败");
    assert!(news_titles(")(").is_none());
    assert_eq!(news_titles("cb({})").unwrap().unwrap(), Vec::<String>::new());
}

#[test]
fn org_id_of_reply() {
    let text = r#"[{"code":"000001","orgId":"gssz0000001"},{"code":"600000","orgId":"gssh0600000"}]"#;
    assert_eq!(org_id_from_reply(text, "600000", "guess".into()), "gssh0600000");
    assert_eq!(org_id_from_reply(text, "300750", "guess".into()), "gssz0000001");
    assert_eq!(org_id_from_reply("not json", "600000", "guess".into()), "guess");
}

#[test]
fn checks_before_reading() {
    assert!(json_body_ok("cb({\"a\":1})"));
    assert!(!json_body_ok("}x{"));
    assert!(json_body_ok("}{"));
    assert!(date_text_ok("2025-01-02"));
    assert!(!date_text_ok("2025-01-0é"));
}

#[test]
fn short_history_summary() {
    assert_eq!(short_history(10, 20, 1), Some("历史数据不足（仅 10 根 K 线，至少需要 22 根）".to_string()));
    assert_eq!(short_history(22, 20, 1), None);
}

#[test]
fn next_trading_day_near_the_end() {
    assert_eq!(try_next_trading_day(Date { days: MAX_DAYS - 1 }), Some(Date { days: MAX_DAYS }));
    assert_eq!(try_next_trading_day(Date { days: MAX_DAYS - 3 }), Some(Date { days: MAX_DAYS }));
    assert_eq!(try_next_trading_day(Date { days: MAX_DAYS }), None);
    assert_eq!(try_next_trading_day(d(2026, 7, 17)), Some(d(2026, 7, 20)));
}
