use stock_predict::capital::{
    north_page_count, NORTH_MAX_PAGES,
    resolve_tushare_token, token_status, token_to_save, tushare_token_configured, FetchMode,
};
use stock_predict::market::{em_hot_entries, hot_display_name, hot_failure_message, hot_per_source};
use stock_predict::models::list_algorithms;
use stock_predict::paths::{resolve_data_dir, FUND_FLOW_CACHE_FILE, TOKEN_FILE, USER_DB_FILE};
use stock_predict::screener::{
    default_concurrency, default_horizon, default_lookback, default_top_n, is_main_board,
    normalize_code, passes_name_and_board, universe_order, MAX_UNIVERSE,
};
use stock_predict::strategy::catalog;
use stock_predict::text::signed_decimal_text;
use stock_predict::user_store::{
    db_status, default_extra_json, default_groups, group_order, meta_flag, migration_step,
    needs_watch_backfill, normalize_code as store_code, schema_too_new, MigrationStep, PoolItem,
    GROUP_WATCH,
};

#[test]
fn main_board_rules() {
    assert!(is_main_board("600519"));
    assert!(is_main_board("000858"));
    assert!(!is_main_board("300750"));
    assert!(!is_main_board("688981"));
}

#[test]
fn main_board_other_codes() {
    assert!(!is_main_board("830799"));
    assert!(!is_main_board("430047"));
    assert!(!is_main_board("301001"));
    assert!(!is_main_board(""));
    assert!(is_main_board("SH601318"));
}

#[test]
fn screener_codes_and_defaults() {
    assert_eq!(normalize_code("SZ000858"), "000858");
    assert_eq!(normalize_code("858"), "000858");
    assert_eq!(normalize_code("ETF"), "");
    assert_eq!(default_horizon(), 1);
    assert_eq!(default_lookback(), 50);
    assert_eq!(default_top_n(), 20);
    assert_eq!(default_concurrency(), 4);
}

#[test]
fn st_and_board_filter() {
    assert!(passes_name_and_board("浦发银行", "600000", true, false));
    assert!(!passes_name_and_board("ST示例", "000001", true, false));
    assert!(!passes_name_and_board("*st示例", "000001", true, false));
    assert!(passes_name_and_board("*st示例", "000001", false, false));
    assert!(!passes_name_and_board("宁德时代", "300750", false, true));
}

#[test]
fn universe_dedupes_sorts_and_errors() {
    let codes: Vec<String> = ["600519", "SH600519", "000858", "", "ETF", "300750"]
        .iter()
        .map(|s| s.to_string())
        .collect();
    assert_eq!(universe_order(&codes).unwrap(), vec![2, 5, 0]);
    let none: Vec<String> = vec!["".to_string(), "abc".to_string()];
    assert_eq!(
        universe_order(&none).unwrap_err(),
        "股票池为空，请检查自选股或网络后重试"
    );
}

#[test]
fn universe_is_capped() {
    let codes: Vec<String> = (0..150).rev().map(|i| format!("{:06}", i)).collect();
    let order = universe_order(&codes).unwrap();
    assert_eq!(order.len(), MAX_UNIVERSE);
    assert_eq!(codes[order[0]], "000000");
    assert_eq!(codes[order[MAX_UNIVERSE - 1]], "000119");
}

#[test]
fn store_defaults_and_codes() {
    assert_eq!(default_extra_json(), "{}");
    assert_eq!(store_code("sh600519"), "600519");
    assert_eq!(store_code(" 858"), "000858");
    assert_eq!(store_code("  HK  "), "HK");
    assert_eq!(GROUP_WATCH, "g_watch");
}

#[test]
fn store_status() {
    let fresh = db_status(None, None, 0, "/tmp/u.sqlite".to_string());
    assert_eq!(fresh.schema_version, 0);
    assert!(fresh.needs_localstorage_import);
    assert!(!fresh.has_user_rows);
    assert_eq!(fresh.path, "/tmp/u.sqlite");
    let used = db_status(Some(3), Some(false), 4, String::new());
    assert!(!used.needs_localstorage_import);
    assert!(used.has_user_rows);
    let migrated = db_status(Some(3), Some(true), 0, String::new());
    assert!(!migrated.needs_localstorage_import);
}

fn item(code: &str, group: &str, order: i64) -> PoolItem {
    PoolItem {
        code: code.to_string(),
        group_id: group.to_string(),
        name: String::new(),
        market: String::new(),
        sector: String::new(),
        sort_order: order,
        extra_json: "{}".to_string(),
    }
}

#[test]
fn pool_group_order() {
    let items = vec![
        item("600519", "g_watch", 2),
        item("000858", "g_buy", 0),
        item("300750", "g_watch", 1),
        item("000001", "g_watch", 2),
        item("000001", "g_watch", 2),
    ];
    assert_eq!(group_order(&items, "g_watch"), vec![2, 3, 4, 0]);
    assert_eq!(group_order(&items, "g_buy"), vec![1]);
    assert!(group_order(&items, "none").is_empty());
}

#[test]
fn tushare_token_sources() {
    let files = vec![None, Some("  # comment".to_string()), Some(" tok2 \n".to_string())];
    assert_eq!(resolve_tushare_token(Some("  env "), &files), Some("env".to_string()));
    assert_eq!(resolve_tushare_token(Some("   "), &files), Some("tok2".to_string()));
    assert_eq!(resolve_tushare_token(None, &[Some("".to_string())]), None);
    assert!(tushare_token_configured(None, &files));
    assert!(!tushare_token_configured(None, &[]));
    assert_eq!(token_to_save("  abc "), Some("abc".to_string()));
    assert_eq!(token_to_save(" \t "), None);
    assert_ne!(FetchMode::Fast, FetchMode::Full);
}

#[test]
fn tushare_status_hints() {
    let on = token_status(true);
    assert!(on.configured);
    assert!(on.hint.starts_with("已配置"));
    let off = token_status(false);
    assert!(!off.configured);
    assert!(off.hint.starts_with("未配置 Tushare"));
}

#[test]
fn data_directory_choice() {
    assert_eq!(resolve_data_dir(Some(" /data "), Some("/app"), "/legacy"), "/data");
    assert_eq!(resolve_data_dir(Some("  "), Some("/app"), "/legacy"), "/app");
    assert_eq!(resolve_data_dir(None, None, "/legacy"), "/legacy");
    assert_eq!(USER_DB_FILE, "user_data.sqlite");
    assert_eq!(TOKEN_FILE, "tushare_token.txt");
    assert_eq!(FUND_FLOW_CACHE_FILE, "market_fund_flow.json");
}

#[test]
fn signal_source_catalog() {
    let c = catalog();
    assert_eq!(c.len(), 9);
    assert_eq!(c[0].id, "factor");
    assert_eq!(c[4].id, "message");
    assert!(c[4].backtestable);
    assert_eq!(c[5].id, "news");
    assert!(!c[5].backtestable);
    assert_eq!(c[8].id, "capital_flow");
    assert_eq!(c[8].category, "资金面");
    assert!(c.iter().all(|s| s.available));
}

#[test]
fn algorithm_list() {
    let a = list_algorithms();
    assert_eq!(a.len(), 2);
    assert_eq!(a[0].id, "compose");
    assert_eq!(a[1].id, "placeholder_v1");
    assert!(a.iter().all(|x| x.enabled));
}

#[test]
fn popularity_list_rules() {
    assert_eq!(hot_per_source(0), 20);
    assert_eq!(hot_per_source(12), 24);
    assert_eq!(hot_per_source(80), 100);
    let pairs = em_hot_entries(&["SH600519".to_string(), String::new(), "001309".to_string()]);
    assert_eq!(
        pairs,
        vec![
            ("SH".to_string(), "600519".to_string()),
            ("SZ".to_string(), "001309".to_string())
        ]
    );
    assert_eq!(hot_display_name(Some("大唐发电"), Some("x"), "601991"), "大唐发电");
    assert_eq!(hot_display_name(Some(""), Some("x"), "601991"), "x");
    assert_eq!(hot_display_name(None, None, "601991"), "601991");
    assert_eq!(hot_failure_message(&[]), "人气榜联网采集失败: 无可用数据源");
    assert_eq!(
        hot_failure_message(&["a".to_string(), "b".to_string()]),
        "人气榜联网采集失败: a；b"
    );
}

#[test]
fn schema_migration_steps() {
    assert_eq!(migration_step(0), Ok(Some(MigrationStep::MarkVersionOne)));
    assert_eq!(migration_step(1), Ok(Some(MigrationStep::AddPool)));
    assert_eq!(migration_step(2), Ok(Some(MigrationStep::AddHoldingsJournal)));
    assert_eq!(migration_step(3), Ok(None));
    assert_eq!(migration_step(7), Ok(None));
    assert_eq!(migration_step(-2), Err("不支持的 schema 迁移: -2 → 3".to_string()));
    // every step raises the version by one until the current one
    let mut v: i64 = 0;
    let mut steps = 0;
    while let Ok(Some(step)) = migration_step(v) {
        v = match step {
            MigrationStep::MarkVersionOne => 1,
            MigrationStep::AddPool => 2,
            MigrationStep::AddHoldingsJournal => 3,
        };
        steps += 1;
    }
    assert_eq!((v, steps), (3, 3));
}

#[test]
fn schema_newer_than_known() {
    assert_eq!(schema_too_new(3), None);
    assert_eq!(schema_too_new(-1), None);
    assert_eq!(
        schema_too_new(4),
        Some("用户库 schema_version=4 高于本应用支持的 3，请升级应用或从备份恢复".to_string())
    );
}

#[test]
fn signed_decimal_texts() {
    assert_eq!(signed_decimal_text(0), "0");
    assert_eq!(signed_decimal_text(-15), "-15");
    assert_eq!(signed_decimal_text(i64::MIN), i64::MIN.to_string());
    assert_eq!(signed_decimal_text(i64::MAX), i64::MAX.to_string());
}

#[test]
fn default_pool_groups() {
    let g = default_groups();
    let rows: Vec<(String, String, i64, String)> =
        g.into_iter().map(|g| (g.id, g.name, g.sort_order, g.kind)).collect();
    assert_eq!(
        rows,
        vec![
            ("g_watch".to_string(), "关注".to_string(), 0, "user".to_string()),
            ("g_buy".to_string(), "待买".to_string(), 1, "user".to_string()),
            ("g_observe".to_string(), "观察".to_string(), 2, "user".to_string()),
            ("g_removed".to_string(), "已剔除".to_string(), 3, "user".to_string()),
            ("g_holdings_mirror".to_string(), "持仓镜像".to_string(), 99, "mirror".to_string()),
        ]
    );
}

#[test]
fn meta_flags() {
    assert!(meta_flag("1"));
    assert!(meta_flag("true"));
    assert!(meta_flag("TRUE"));
    assert!(meta_flag("True"));
    assert!(!meta_flag("0"));
    assert!(!meta_flag("yes"));
    assert!(!meta_flag(" true"));
    assert!(!meta_flag(""));
}

#[test]
fn watch_backfill_rule() {
    let other = vec![item("600519", "g_buy", 0)];
    assert!(needs_watch_backfill(&other, 2));
    assert!(!needs_watch_backfill(&other, 0));
    let with_watch = vec![item("600519", "g_buy", 0), item("000001", GROUP_WATCH, 0)];
    assert!(!needs_watch_backfill(&with_watch, 2));
    assert!(needs_watch_backfill(&[], 1));
}

#[test]
fn northbound_page_count() {
    assert_eq!(north_page_count(None, NORTH_MAX_PAGES), 8);
    assert_eq!(north_page_count(Some(3), NORTH_MAX_PAGES), 3);
    assert_eq!(north_page_count(Some(40), NORTH_MAX_PAGES), 8);
    assert_eq!(north_page_count(Some(0), NORTH_MAX_PAGES), 1);
    assert_eq!(north_page_count(Some(-2), NORTH_MAX_PAGES), 8);
    assert_eq!(north_page_count(None, 0), 1);
    assert_eq!(north_page_count(Some(15), 30), 10);
}
