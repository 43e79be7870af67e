use stock_predict::market;
use stock_predict::symbol::{
    infer_market, market_from_search_fields, parse_market_from_sc, sector_from_search_fields,
    strip_market_prefix, ths_market_to_str, to_secid, to_sina_symbol, to_tencent_symbol,
};

#[test]
fn symbol_secid_mapping() {
    assert_eq!(to_secid("SH", "600519"), "1.600519");
    assert_eq!(to_secid("SZ", "000858"), "0.000858");
    assert_eq!(to_secid("SH", "510980"), "1.510980");
}

#[test]
fn symbol_parse_market_prefix() {
    assert_eq!(
        parse_market_from_sc("SH600519"),
        ("SH".to_string(), "600519".to_string())
    );
    assert_eq!(
        parse_market_from_sc("SZ000858"),
        ("SZ".to_string(), "000858".to_string())
    );
}

#[test]
fn symbol_tencent_symbol_mapping() {
    assert_eq!(to_tencent_symbol("SH", "600519"), "sh600519");
    assert_eq!(to_tencent_symbol("SZ", "300628"), "sz300628");
    assert_eq!(to_tencent_symbol("SH", "510980"), "sh510980");
}

#[test]
fn symbol_infer_market_for_etf() {
    assert_eq!(infer_market("510980"), "SH");
    assert_eq!(infer_market("159915"), "SZ");
    assert_eq!(infer_market("600519"), "SH");
    assert_eq!(infer_market("000858"), "SZ");
}

#[test]
fn hot_ths_market_mapping() {
    assert_eq!(ths_market_to_str(17, "600519"), "SH");
    assert_eq!(ths_market_to_str(33, "000858"), "SZ");
    assert_eq!(ths_market_to_str(99, "600000"), "SH");
}

#[test]
fn market_secid_mapping() {
    assert_eq!(market::to_secid("SH", "600519"), "1.600519");
    assert_eq!(market::to_secid("SZ", "000858"), "0.000858");
    assert_eq!(market::to_secid("SH", "510980"), "1.510980");
}

#[test]
fn market_parse_market_prefix() {
    assert_eq!(
        market::parse_market_from_sc("SH600519"),
        ("SH".to_string(), "600519".to_string())
    );
    assert_eq!(
        market::parse_market_from_sc("SZ000858"),
        ("SZ".to_string(), "000858".to_string())
    );
}

#[test]
fn market_tencent_symbol_mapping() {
    assert_eq!(market::to_tencent_symbol("SH", "600519"), "sh600519");
    assert_eq!(market::to_tencent_symbol("SZ", "300628"), "sz300628");
    assert_eq!(market::to_tencent_symbol("SH", "510980"), "sh510980");
}

#[test]
fn market_infer_market_for_etf() {
    assert_eq!(market::infer_market("510980"), "SH");
    assert_eq!(market::infer_market("159915"), "SZ");
    assert_eq!(market::infer_market("600519"), "SH");
    assert_eq!(market::infer_market("000858"), "SZ");
}

#[test]
fn market_ths_market_mapping() {
    assert_eq!(market::ths_market_to_str(17, "600519"), "SH");
    assert_eq!(market::ths_market_to_str(33, "000858"), "SZ");
    assert_eq!(market::ths_market_to_str(99, "600000"), "SH");
}

#[test]
fn sina_symbol_follows_market() {
    assert_eq!(to_sina_symbol("SH", "600519"), "sh600519");
    assert_eq!(to_sina_symbol("SZ", "000858"), "sz000858");
    assert_eq!(to_sina_symbol("BJ", "830799"), "sz830799");
}

#[test]
fn secid_defaults_to_shanghai() {
    assert_eq!(to_secid("XX", "123"), "1.123");
    assert_eq!(to_tencent_symbol("", "000001"), "sz000001");
}

#[test]
fn infer_market_other_prefixes() {
    assert_eq!(infer_market("  688981 "), "SH");
    assert_eq!(infer_market("300750"), "SZ");
    assert_eq!(infer_market("830799"), "SZ");
    assert_eq!(infer_market(""), "SZ");
}

#[test]
fn sc_without_prefix_uses_first_digit() {
    assert_eq!(
        parse_market_from_sc("601991"),
        ("SH".to_string(), "601991".to_string())
    );
    assert_eq!(
        parse_market_from_sc("001309"),
        ("SZ".to_string(), "001309".to_string())
    );
    assert_eq!(parse_market_from_sc(""), ("SZ".to_string(), String::new()));
}

#[test]
fn strip_prefix_of_quote_symbols() {
    assert_eq!(strip_market_prefix(" sh600519 "), "600519");
    assert_eq!(strip_market_prefix("bj830799"), "830799");
    assert_eq!(strip_market_prefix("sh"), "sh");
    assert_eq!(strip_market_prefix("600519"), "600519");
}

#[test]
fn ths_unknown_market_infers_from_code() {
    assert_eq!(ths_market_to_str(0, "000858"), "SZ");
    assert_eq!(ths_market_to_str(-1, "510300"), "SH");
}

#[test]
fn search_market_prefers_quote_id() {
    assert_eq!(market_from_search_fields(Some("1.600519"), Some(0), "600519"), "SH");
    assert_eq!(market_from_search_fields(Some("0.000858"), None, "000858"), "SZ");
    assert_eq!(market_from_search_fields(Some("116.00700"), None, "600000"), "SH");
    assert_eq!(market_from_search_fields(Some("nodot"), Some(0), "600519"), "SZ");
    assert_eq!(market_from_search_fields(None, Some(1), "000858"), "SH");
    assert_eq!(market_from_search_fields(None, Some(7), "000858"), "SZ");
    assert_eq!(market_from_search_fields(None, None, "510980"), "SH");
}

#[test]
fn search_sector_detects_funds() {
    assert_eq!(sector_from_search_fields("fund", "", "招商"), "ETF");
    assert_eq!(sector_from_search_fields("", "开放式基金", "x"), "ETF");
    assert_eq!(sector_from_search_fields("", "", "沪深300ETF"), "ETF");
    assert_eq!(sector_from_search_fields("AStock", "沪A", "贵州茅台"), "—");
}
