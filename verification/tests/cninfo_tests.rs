use stock_predict::calendar::Date;
use stock_predict::cninfo::{
    dedupe_sort, extract_json_body, heuristic_org_id, market_column_plate, normalize_code,
    preview, strip_html, urlencoding_simple, Announcement, MessageArchive,
};

fn ann(y: i32, m: u32, d: u32, title: &str) -> Announcement {
    Announcement { date: Date::from_ymd_opt(y, m, d).unwrap(), title: title.to_string() }
}

#[test]
fn titles_as_of_filters_future() {
    let archive = MessageArchive::from_items(vec![
        ann(2025, 1, 1, "旧"),
        ann(2025, 1, 10, "中"),
        ann(2025, 1, 20, "未来"),
    ]);
    let as_of = Date::from_ymd_opt(2025, 1, 12).unwrap();
    assert_eq!(archive.titles_as_of(as_of, 7), vec!["中".to_string()]);
}

#[test]
fn normalize_code_strips_prefix() {
    assert_eq!(normalize_code("SH600519"), "600519");
    assert_eq!(normalize_code("600519"), "600519");
}

#[test]
fn normalize_code_pads_and_keeps_last_six() {
    assert_eq!(normalize_code("858"), "000858");
    assert_eq!(normalize_code("1.600519"), "600519");
    assert_eq!(normalize_code(""), "000000");
}

#[test]
fn items_as_of_newest_first_then_title() {
    let archive = MessageArchive::from_items(vec![
        ann(2025, 1, 5, "b"),
        ann(2025, 1, 8, "z"),
        ann(2025, 1, 5, "a"),
        ann(2024, 12, 1, "old"),
    ]);
    let as_of = Date::from_ymd_opt(2025, 1, 8).unwrap();
    let items = archive.items_as_of(as_of, 30);
    let titles: Vec<String> = items.iter().map(|(_, t)| t.clone()).collect();
    assert_eq!(titles, vec!["z".to_string(), "a".to_string(), "b".to_string()]);
    // a look-back below one day still covers the day before
    let one = archive.titles_as_of(as_of, 0);
    assert_eq!(one, vec!["z".to_string()]);
    assert_eq!(archive.len(), 4);
    assert!(!archive.is_empty());
    assert!(MessageArchive::new().is_empty());
}

#[test]
fn dedupe_sort_orders_and_drops_repeats() {
    let out = dedupe_sort(vec![
        ann(2025, 1, 2, "b"),
        ann(2025, 1, 1, "x"),
        ann(2025, 1, 2, "a"),
        ann(2025, 1, 2, "b"),
    ]);
    let keys: Vec<(i32, String)> = out.iter().map(|a| (a.date.days, a.title.clone())).collect();
    let d1 = Date::from_ymd_opt(2025, 1, 1).unwrap().days;
    let d2 = Date::from_ymd_opt(2025, 1, 2).unwrap().days;
    assert_eq!(
        keys,
        vec![(d1, "x".to_string()), (d2, "a".to_string()), (d2, "b".to_string())]
    );
}

#[test]
fn column_plate_and_org_id() {
    assert_eq!(market_column_plate("SZ"), ("szse", "sz"));
    assert_eq!(market_column_plate("sz"), ("szse", "sz"));
    assert_eq!(market_column_plate("SH"), ("sse", "sh"));
    assert_eq!(heuristic_org_id("SZ", " 858 "), "gssz0000858");
    assert_eq!(heuristic_org_id("SH", "600519"), "gssh0600519");
}

#[test]
fn url_encoding_of_form_values() {
    assert_eq!(urlencoding_simple("600519,gssh0600519"), "600519%2Cgssh0600519");
    assert_eq!(urlencoding_simple("a b~"), "a%20b~");
    assert_eq!(urlencoding_simple("中"), "%E4%B8%AD");
}

#[test]
fn html_is_stripped() {
    assert_eq!(strip_html("  <em>贵州茅台</em>&amp;公告&nbsp; "), "贵州茅台&公告");
    assert_eq!(strip_html("\"a&lt;b&gt;\""), "a<b>");
}

#[test]
fn json_body_from_plain_and_jsonp() {
    assert_eq!(extract_json_body("  {\"a\":1}  "), "{\"a\":1}");
    assert_eq!(extract_json_body("cb({\"a\":1})"), "{\"a\":1}");
    assert_eq!(extract_json_body("no json"), "no json");
}

#[test]
fn previews_are_short() {
    assert_eq!(preview("   "), "(空响应)");
    assert_eq!(preview(" a\nb "), "a b");
    let long: String = std::iter::repeat('x').take(100).collect();
    assert_eq!(preview(&long).chars().count(), 80);
}
