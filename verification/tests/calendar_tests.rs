use stock_predict::calendar::{
    is_ashare_closed, is_ashare_holiday, ms_to_date, next_trading_day, parse_flexible_date,
    parse_trade_date, weekday_of, Date, MAX_DAYS, MIN_DAYS,
};
use stock_predict::session::{is_trading_session, LocalClock};

fn d(y: i32, m: u32, day: u32) -> Date {
    Date::from_ymd_opt(y, m, day).unwrap()
}

/// A Monday reading at `hour:minute:00`.
fn is_trading_hm(hour: u32, minute: u32) -> bool {
    is_trading_session(LocalClock { weekday: 0, hour, minute, second: 0, nanosecond: 0 })
}

#[test]
fn weekend_predicts_monday() {
    assert_eq!(next_trading_day(d(2026, 7, 17)), d(2026, 7, 20));
    assert_eq!(next_trading_day(d(2026, 7, 18)), d(2026, 7, 20));
    assert_eq!(next_trading_day(d(2026, 7, 19)), d(2026, 7, 20));
    assert_eq!(next_trading_day(d(2026, 7, 16)), d(2026, 7, 17));
}

#[test]
fn next_trading_day_skips_spring_festival() {
    // 2026-02-13 is a Friday; the exchange is closed 02-16 .. 02-23.
    assert_eq!(next_trading_day(d(2026, 2, 13)), d(2026, 2, 24));
    assert_eq!(next_trading_day(d(2025, 12, 31)), d(2026, 1, 5));
}

#[test]
fn holidays_and_weekends_are_closed() {
    assert!(is_ashare_holiday(d(2025, 10, 1)));
    assert!(!is_ashare_holiday(d(2025, 10, 9)));
    assert!(is_ashare_closed(d(2026, 7, 18)));
    assert!(is_ashare_closed(d(2026, 5, 1)));
    assert!(!is_ashare_closed(d(2026, 7, 20)));
    assert_eq!(weekday_of(d(2026, 7, 20)), 0);
    assert_eq!(weekday_of(d(2026, 7, 19)), 6);
}

#[test]
fn date_round_trips_and_steps() {
    let x = d(2024, 2, 28);
    assert_eq!(x.ymd(), Some((2024, 2, 28)));
    assert_eq!(x.add_days(1).ymd(), Some((2024, 2, 29)));
    assert_eq!(x.add_days(2).ymd(), Some((2024, 3, 1)));
    assert!(Date::from_ymd_opt(2023, 2, 29).is_none());
    assert_eq!(Date::from_ymd_opt(1970, 1, 1).unwrap().days, 719_163);
    assert_eq!(Date::from_ymd_opt(1, 1, 1).unwrap().days, 1);
}

#[test]
fn flexible_dates() {
    assert_eq!(parse_flexible_date(" 2025-01-31 10:00:00"), Some(d(2025, 1, 31)));
    assert_eq!(parse_flexible_date("2025/01/31"), Some(d(2025, 1, 31)));
    assert_eq!(parse_flexible_date("20250131"), Some(d(2025, 1, 31)));
    assert_eq!(parse_flexible_date("x2025.01.31y"), Some(d(2025, 1, 31)));
    assert_eq!(parse_flexible_date("2025-13-01"), None);
    assert_eq!(parse_flexible_date("abc"), None);
}

#[test]
fn trade_dates() {
    assert_eq!(parse_trade_date("20250131"), Some(d(2025, 1, 31)));
    assert_eq!(parse_trade_date(" 2025-01-31T00:00:00 "), Some(d(2025, 1, 31)));
    assert_eq!(parse_trade_date("2025013"), None);
}

#[test]
fn millis_to_utc_date() {
    assert_eq!(ms_to_date(0), Some(d(1970, 1, 1)));
    assert_eq!(ms_to_date(1_735_689_600_000), Some(d(2025, 1, 1)));
    assert_eq!(ms_to_date(-1), Some(d(1969, 12, 31)));
}

#[test]
fn weekday_morning_open() {
    assert!(is_trading_hm(9, 15));
    assert!(is_trading_hm(10, 0));
    assert!(is_trading_hm(11, 30));
}

#[test]
fn weekday_lunch_closed() {
    assert!(!is_trading_hm(11, 31));
    assert!(!is_trading_hm(12, 0));
    assert!(!is_trading_hm(12, 59));
}

#[test]
fn weekday_afternoon() {
    assert!(is_trading_hm(13, 0));
    assert!(is_trading_hm(14, 30));
    assert!(is_trading_hm(15, 0));
    assert!(!is_trading_hm(15, 1));
}

#[test]
fn weekend_closed() {
    // 2026-07-25 is a Saturday.
    assert_eq!(weekday_of(d(2026, 7, 25)), 5);
    let sat = LocalClock { weekday: weekday_of(d(2026, 7, 25)), hour: 10, minute: 0, second: 0, nanosecond: 0 };
    assert!(!is_trading_session(sat));
}

#[test]
fn before_open_closed() {
    assert!(!is_trading_hm(9, 14));
    assert!(!is_trading_hm(8, 0));
}

#[test]
fn session_end_is_inclusive_to_the_second() {
    let at_close = LocalClock { weekday: 2, hour: 15, minute: 0, second: 0, nanosecond: 0 };
    let just_after = LocalClock { weekday: 2, hour: 15, minute: 0, second: 0, nanosecond: 1 };
    assert!(is_trading_session(at_close));
    assert!(!is_trading_session(just_after));
}

#[test]
fn calendar_range_ends() {
    assert_eq!(Date { days: MIN_DAYS }.ymd(), Some((-262143, 1, 1)));
    assert_eq!(Date { days: MAX_DAYS }.ymd(), Some((262142, 12, 31)));
    assert_eq!(Date { days: MIN_DAYS - 1 }.ymd(), None);
    assert_eq!(Date { days: MAX_DAYS + 1 }.ymd(), None);
    assert_eq!(Date::from_ymd_opt(-262143, 1, 1).map(|x| x.days), Some(MIN_DAYS));
    assert!(Date::from_ymd_opt(-262144, 12, 31).is_none());
    assert_eq!(Date::from_ymd_opt(2000, 2, 29).unwrap().ymd(), Some((2000, 2, 29)));
    assert!(Date::from_ymd_opt(1900, 2, 29).is_none());
    assert_eq!(d(2024, 3, 1).days - d(2024, 2, 28).days, 2);
    assert_eq!(ms_to_date(i64::MAX), None);
    assert_eq!(ms_to_date(-86_400_001), Some(d(1969, 12, 30)));
}
