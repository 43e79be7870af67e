use stock_predict::monitor::{
    default_cooldown, default_interval_secs, default_max_per_day, effective_interval_secs,
    evaluate, monitor_status, utc_day_of, AlertRule, EngineState, UtcInstant,
};

fn rule(id: &str, code: &str) -> AlertRule {
    AlertRule {
        id: id.to_string(),
        code: code.to_string(),
        name: "测试".to_string(),
        enabled: true,
        cooldown_sec: 300,
        max_per_day: 5,
    }
}

/// 2026-07-23 02:00:00 UTC.
fn t0() -> UtcInstant {
    UtcInstant { secs: 1_784_772_000, nanos: 0 }
}

fn plus(t: UtcInstant, secs: i64) -> UtcInstant {
    UtcInstant { secs: t.secs + secs, nanos: t.nanos }
}

#[test]
fn fires_on_change_pct() {
    let rules = vec![rule("r1", "600519")];
    // change 3.5% against a 3.0% threshold
    let matched = vec![3.5_f64 >= 3.0];
    let names = vec![("600519".to_string(), "茅台".to_string())];
    let mut state = EngineState::new();
    let fired = evaluate(&rules, &matched, &names, &mut state, t0());
    assert_eq!(fired.len(), 1);
    assert!(fired[0].title.contains("茅台"));
    assert_eq!(fired[0].title, "茅台 触发预警");
}

#[test]
fn cooldown_blocks_repeat() {
    let rules = vec![rule("r1", "600519")];
    let matched = vec![2.0_f64 >= 1.0];
    let names: Vec<(String, String)> = Vec::new();
    let mut state = EngineState::new();
    assert_eq!(evaluate(&rules, &matched, &names, &mut state, t0()).len(), 1);
    assert_eq!(evaluate(&rules, &matched, &names, &mut state, plus(t0(), 60)).len(), 0);
    assert_eq!(evaluate(&rules, &matched, &names, &mut state, plus(t0(), 301)).len(), 1);
}

#[test]
fn max_per_day() {
    let mut r = rule("r1", "600519");
    r.max_per_day = 2;
    r.cooldown_sec = 0;
    let rules = vec![r];
    let matched = vec![20.0_f64 >= 10.0];
    let names: Vec<(String, String)> = Vec::new();
    let mut state = EngineState::new();
    assert_eq!(evaluate(&rules, &matched, &names, &mut state, t0()).len(), 1);
    assert_eq!(evaluate(&rules, &matched, &names, &mut state, plus(t0(), 1)).len(), 1);
    assert_eq!(evaluate(&rules, &matched, &names, &mut state, plus(t0(), 2)).len(), 0);
}

#[test]
fn daily_cap_resets_on_a_new_utc_day() {
    let mut r = rule("r1", "600519");
    r.max_per_day = 1;
    r.cooldown_sec = 0;
    let rules = vec![r];
    let matched = vec![true];
    let names: Vec<(String, String)> = Vec::new();
    let mut state = EngineState::new();
    assert_eq!(evaluate(&rules, &matched, &names, &mut state, t0()).len(), 1);
    assert_eq!(evaluate(&rules, &matched, &names, &mut state, plus(t0(), 10)).len(), 0);
    assert_eq!(evaluate(&rules, &matched, &names, &mut state, plus(t0(), 86_400)).len(), 1);
}

#[test]
fn disabled_or_unmatched_rules_never_fire() {
    let mut off = rule("off", "000001");
    off.enabled = false;
    let rules = vec![off, rule("miss", "000002"), rule("hit", "000003")];
    let matched = vec![true, false, true];
    let names: Vec<(String, String)> = Vec::new();
    let mut state = EngineState::new();
    let fired = evaluate(&rules, &matched, &names, &mut state, t0());
    assert_eq!(fired.len(), 1);
    assert_eq!(fired[0].rule_index, 2);
    assert_eq!(fired[0].rule_id, "hit");
    assert_eq!(fired[0].code, "000003");
    assert_eq!(fired[0].name, "测试");
    assert_eq!(state.records.len(), 1);
    assert_eq!(state.records[0].count, 1);
}

#[test]
fn cooldown_counts_whole_seconds() {
    let rules = vec![rule("r1", "600519")];
    let matched = vec![true];
    let names: Vec<(String, String)> = Vec::new();
    let mut state = EngineState::new();
    let start = UtcInstant { secs: t0().secs, nanos: 500_000_000 };
    assert_eq!(evaluate(&rules, &matched, &names, &mut state, start).len(), 1);
    // 299.9 s later: 299 whole seconds, still cooling down
    let almost = UtcInstant { secs: t0().secs + 300, nanos: 400_000_000 };
    assert_eq!(evaluate(&rules, &matched, &names, &mut state, almost).len(), 0);
    let done = UtcInstant { secs: t0().secs + 300, nanos: 500_000_000 };
    assert_eq!(evaluate(&rules, &matched, &names, &mut state, done).len(), 1);
}

#[test]
fn defaults_and_status() {
    assert_eq!(default_interval_secs(), 15);
    assert_eq!(default_cooldown(), 300);
    assert_eq!(default_max_per_day(), 5);
    assert_eq!(effective_interval_secs(0), 15);
    assert_eq!(effective_interval_secs(60), 60);
    let mut off = rule("off", "000001");
    off.enabled = false;
    let rules = vec![off, rule("a", "000002"), rule("b", "000003")];
    let s = monitor_status(true, 7, &rules, 0, 2);
    assert!(s.enabled);
    assert_eq!(s.stock_count, 7);
    assert_eq!(s.rule_count, 2);
    assert_eq!(s.interval_secs, 15);
    assert_eq!(s.consecutive_failures, 2);
}

#[test]
fn utc_days_floor() {
    assert_eq!(utc_day_of(UtcInstant { secs: 0, nanos: 0 }), 0);
    assert_eq!(utc_day_of(UtcInstant { secs: 86_399, nanos: 0 }), 0);
    assert_eq!(utc_day_of(UtcInstant { secs: -1, nanos: 0 }), -1);
    assert_eq!(utc_day_of(t0()), 20_657);
}
