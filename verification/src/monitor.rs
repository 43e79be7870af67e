//! Alert engine of the watch assistant: which enabled, matching rules fire,
//! under a per-rule cooldown and a per-UTC-day cap, and how the firing state
//! moves on.
//!
//! Whether a rule's price condition matches the latest quote is decided by
//! the caller and handed in as one flag per rule.

use vstd::prelude::*;
use crate::text::{push_str, str_eq, to_owned_string};

verus! {

/// Default polling interval of the watch service, in seconds.
pub const DEFAULT_INTERVAL_SECS: u64 = 15;

/// The default polling interval of the watch service.
pub fn default_interval_secs() -> (r: u64)
    ensures
        r == DEFAULT_INTERVAL_SECS,
{
    DEFAULT_INTERVAL_SECS
}

/// The interval actually used: a configured zero means the default.
pub fn effective_interval_secs(configured: u64) -> (r: u64)
    ensures
        r == (if configured == 0 { DEFAULT_INTERVAL_SECS } else { configured }),
{
    if configured == 0 {
        DEFAULT_INTERVAL_SECS
    } else {
        configured
    }
}

/// Default cooldown between two alerts of one rule, in seconds.
pub fn default_cooldown() -> (r: u64)
    ensures
        r == 300,
{
    300
}

/// Default number of alerts of one rule per day.
pub fn default_max_per_day() -> (r: u32)
    ensures
        r == 5,
{
    5
}

/// A UTC instant: Unix seconds and the nanoseconds within that second.
#[derive(Clone, Copy, Debug, PartialEq, Eq, Structural)]
pub struct UtcInstant {
    pub secs: i64,
    pub nanos: u32,
}

/// Whole seconds from `last` to `now`, zero when `now` is not later
/// (`(now - last).num_seconds().max(0)`).
pub open spec fn elapsed_secs(now: UtcInstant, last: UtcInstant) -> int {
    let s = now.secs - last.secs - (if now.nanos < last.nanos { 1int } else { 0int });
    if s < 0 {
        0
    } else {
        s
    }
}

/// UTC day number (days since 1970-01-01) of an instant.
pub open spec fn utc_day(t: UtcInstant) -> int {
    t.secs as int / 86400
}

/// The limits of an alert rule that the engine applies.
#[derive(Clone, Debug)]
pub struct AlertRule {
    pub id: String,
    pub code: String,
    pub name: String,
    pub enabled: bool,
    pub cooldown_sec: u64,
    pub max_per_day: u32,
}

/// What the watch service reports about itself.
#[derive(Clone, Debug)]
pub struct MonitorStatus {
    pub enabled: bool,
    pub stock_count: usize,
    pub rule_count: usize,
    pub interval_secs: u64,
    pub consecutive_failures: u32,
}

/// Number of enabled rules.
pub open spec fn enabled_rule_count(rules: Seq<AlertRule>) -> nat
    decreases rules.len(),
{
    if rules.len() == 0 {
        0
    } else {
        enabled_rule_count(rules.drop_last()) + if rules.last().enabled { 1nat } else { 0nat }
    }
}

/// The status of the watch service: the rules counted are the enabled
/// ones, and a configured interval of zero reports the default.
pub fn monitor_status(
    enabled: bool,
    stock_count: usize,
    rules: &[AlertRule],
    interval_secs: u64,
    consecutive_failures: u32,
) -> (r: MonitorStatus)
    ensures
        r.enabled == enabled,
        r.stock_count == stock_count,
        r.rule_count == enabled_rule_count(rules@),
        r.interval_secs == (if interval_secs == 0 { DEFAULT_INTERVAL_SECS } else { interval_secs }),
        r.consecutive_failures == consecutive_failures,
{
    let mut n: usize = 0;
    let mut i: usize = 0;
    while i < rules.len()
        invariant
            i <= rules.len(),
            n == enabled_rule_count(rules@.take(i as int)),
            n <= i,
        decreases rules.len() - i,
    {
        assert(rules@.take(i as int + 1).drop_last() =~= rules@.take(i as int));
        if rules[i].enabled {
            n += 1;
        }
        i += 1;
    }
    assert(rules@.take(rules.len() as int) =~= rules@);
    MonitorStatus {
        enabled,
        stock_count,
        rule_count: n,
        interval_secs: effective_interval_secs(interval_secs),
        consecutive_failures,
    }
}

/// Firing state of one rule: when it last fired, and how often on which UTC
/// day.
#[derive(Clone, Debug)]
pub struct FireRecord {
    pub rule_id: String,
    pub last_fired: UtcInstant,
    pub day: i64,
    pub count: u32,
}

/// Firing state of all rules.
#[derive(Clone, Debug)]
pub struct EngineState {
    pub records: Vec<FireRecord>,
}

/// An alert the engine decided to raise.
#[derive(Clone, Debug)]
pub struct FiredAlert {
    /// Index of the rule in the evaluated list.
    pub rule_index: usize,
    pub rule_id: String,
    pub code: String,
    pub name: String,
    pub title: String,
}

/// Index of the first record of `id`.
pub open spec fn find_record(recs: Seq<FireRecord>, id: Seq<char>) -> Option<int>
    decreases recs.len(),
{
    if recs.len() == 0 {
        None
    } else if recs.last().rule_id@ == id && find_record(recs.drop_last(), id) is None {
        Some(recs.len() - 1)
    } else {
        find_record(recs.drop_last(), id)
    }
}

/// The records after a rule fires: its first record replaced, or a new one
/// appended.
pub open spec fn upsert(recs: Seq<FireRecord>, rec: FireRecord) -> Seq<FireRecord> {
    match find_record(recs, rec.rule_id@) {
        Some(i) => recs.update(i, rec),
        None => recs.push(rec),
    }
}

/// Today's count of a rule before this evaluation (0 on a new day).
pub open spec fn count_today(recs: Seq<FireRecord>, id: Seq<char>, today: int) -> int {
    match find_record(recs, id) {
        Some(i) => if recs[i].day == today {
            recs[i].count as int
        } else {
            0
        },
        None => 0,
    }
}

/// The rule may fire now: enabled, matching, under its daily cap and out of
/// its cooldown.
pub open spec fn may_fire(recs: Seq<FireRecord>, rule: AlertRule, matched: bool, now: UtcInstant) -> bool {
    &&& rule.enabled
    &&& matched
    &&& count_today(recs, rule.id@, utc_day(now)) < rule.max_per_day
    &&& match find_record(recs, rule.id@) {
        Some(i) => elapsed_secs(now, recs[i].last_fired) >= rule.cooldown_sec,
        None => true,
    }
}

/// State and fired rule indices after evaluating the first `n` rules.
pub open spec fn run(
    recs: Seq<FireRecord>,
    rules: Seq<AlertRule>,
    matched: Seq<bool>,
    now: UtcInstant,
    n: int,
) -> (Seq<FireRecord>, Seq<int>)
    decreases n,
{
    if n <= 0 {
        (recs, Seq::empty())
    } else {
        let prev = run(recs, rules, matched, now, n - 1);
        let rule = rules[n - 1];
        if may_fire(prev.0, rule, matched[n - 1], now) {
            let rec = FireRecord {
                rule_id: rule.id,
                last_fired: now,
                day: utc_day(now) as i64,
                count: (count_today(prev.0, rule.id@, utc_day(now)) + 1) as u32,
            };
            (upsert(prev.0, rec), prev.1.push(n - 1))
        } else {
            prev
        }
    }
}

/// `(now - last).num_seconds().max(0)`.
fn elapsed_exec(now: UtcInstant, last: UtcInstant) -> (r: u64)
    ensures
        r == elapsed_secs(now, last),
{
    let borrow: i128 = if now.nanos < last.nanos {
        1
    } else {
        0
    };
    let s: i128 = now.secs as i128 - last.secs as i128 - borrow;
    if s < 0 {
        0
    } else {
        s as u64
    }
}

/// UTC day number of an instant.
pub fn utc_day_of(t: UtcInstant) -> (r: i64)
    ensures
        r == utc_day(t),
{
    let q: i64 = t.secs / 86400;
    let m: i64 = t.secs % 86400;
    assert(t.secs as int == 86400 * (t.secs as int / 86400) + t.secs as int % 86400);
    if m < 0 {
        assert(q == t.secs as int / 86400 + 1);
        q - 1
    } else {
        assert(q == t.secs as int / 86400);
        q
    }
}

proof fn lemma_find_record_bounds(recs: Seq<FireRecord>, id: Seq<char>)
    ensures
        find_record(recs, id) matches Some(i) ==> 0 <= i < recs.len() && recs[i].rule_id@ == id,
        find_record(recs, id) is None ==> forall|k: int|
            0 <= k < recs.len() ==> #[trigger] recs[k].rule_id@ != id,
        find_record(recs, id) matches Some(i) ==> forall|k: int|
            0 <= k < i ==> #[trigger] recs[k].rule_id@ != id,
    decreases recs.len(),
{
    if recs.len() > 0 {
        lemma_find_record_bounds(recs.drop_last(), id);
        assert forall|k: int| 0 <= k < recs.len() - 1 implies #[trigger] recs[k] == recs.drop_last()[k] by {}
    }
}

proof fn lemma_find_record_first(recs: Seq<FireRecord>, id: Seq<char>, i: int)
    requires
        0 <= i < recs.len(),
        recs[i].rule_id@ == id,
        forall|k: int| 0 <= k < i ==> #[trigger] recs[k].rule_id@ != id,
    ensures
        find_record(recs, id) == Some(i),
    decreases recs.len(),
{
    if i < recs.len() - 1 {
        assert forall|k: int| 0 <= k < i implies #[trigger] recs.drop_last()[k].rule_id@ != id by {
            assert(recs.drop_last()[k] == recs[k]);
        }
        assert(recs.drop_last()[i] == recs[i]);
        lemma_find_record_first(recs.drop_last(), id, i);
    } else {
        assert forall|k: int| 0 <= k < recs.drop_last().len() implies #[trigger] recs.drop_last()[k].rule_id@ != id by {
            assert(recs.drop_last()[k] == recs[k]);
        }
        lemma_find_record_bounds(recs.drop_last(), id);
    }
}

proof fn lemma_find_record_none(recs: Seq<FireRecord>, id: Seq<char>)
    requires
        forall|k: int| 0 <= k < recs.len() ==> #[trigger] recs[k].rule_id@ != id,
    ensures
        find_record(recs, id) is None,
    decreases recs.len(),
{
    if recs.len() > 0 {
        assert forall|k: int| 0 <= k < recs.drop_last().len() implies #[trigger] recs.drop_last()[k].rule_id@ != id by {
            assert(recs.drop_last()[k] == recs[k]);
        }
        lemma_find_record_none(recs.drop_last(), id);
    }
}

impl EngineState {
    /// A state in which no rule has fired yet.
    pub fn new() -> (r: EngineState)
        ensures
            r.records@ == Seq::<FireRecord>::empty(),
    {
        EngineState { records: Vec::new() }
    }

    /// Index of the record of a rule id.
    fn find(&self, id: &String) -> (r: Option<usize>)
        ensures
            match r {
                Some(i) => find_record(self.records@, id@) == Some(i as int),
                None => find_record(self.records@, id@) is None,
            },
    {
        let mut i: usize = 0;
        while i < self.records.len()
            invariant
                i <= self.records.len(),
                forall|k: int| 0 <= k < i ==> #[trigger] self.records@[k].rule_id@ != id@,
            decreases self.records.len() - i,
        {
            if str_eq(self.records[i].rule_id.as_str(), id.as_str()) {
                proof {
                    lemma_find_record_first(self.records@, id@, i as int);
                }
                return Some(i);
            }
            i += 1;
        }
        proof {
            lemma_find_record_none(self.records@, id@);
        }
        None
    }
}

/// The display name of a rule's stock: the name known for its code (first
/// match in `names`), else the rule's own name.
pub open spec fn display_name(names: Seq<(String, String)>, rule: AlertRule) -> Seq<char>
    decreases names.len(),
{
    if names.len() == 0 {
        rule.name@
    } else if names[0].0@ == rule.code@ {
        names[0].1@
    } else {
        display_name(names.drop_first(), rule)
    }
}

/// Title of an alert: `"{name} 触发预警"`.
pub open spec fn alert_title(name: Seq<char>) -> Seq<char> {
    name + " 触发预警"@
}

fn lookup_name(names: &[(String, String)], rule: &AlertRule) -> (r: String)
    ensures
        r@ == display_name(names@, *rule),
{
    let mut i: usize = 0;
    assert(names@.skip(0) == names@);
    while i < names.len()
        invariant
            i <= names.len(),
            display_name(names@, *rule) == display_name(names@.skip(i as int), *rule),
        decreases names.len() - i,
    {
        assert(names@.skip(i as int)[0] == names@[i as int]);
        assert(names@.skip(i as int).drop_first() == names@.skip(i + 1));
        if str_eq(names[i].0.as_str(), rule.code.as_str()) {
            return to_owned_string(names[i].1.as_str());
        }
        i += 1;
    }
    to_owned_string(rule.name.as_str())
}

/// Evaluates enabled rules against `matched` (whether each rule's condition
/// holds on the latest quote of its stock, `false` where there is no quote),
/// updates cooldown and daily counts, and returns the alerts raised, in rule
/// order.
pub fn evaluate(
    rules: &[AlertRule],
    matched: &[bool],
    names: &[(String, String)],
    state: &mut EngineState,
    now: UtcInstant,
) -> (fired: Vec<FiredAlert>)
    requires
        matched.len() == rules.len(),
    ensures
        final(state).records@ == run(old(state).records@, rules@, matched@, now, rules.len() as int).0,
        fired.len() == run(old(state).records@, rules@, matched@, now, rules.len() as int).1.len(),
        forall|j: int|
            0 <= j < fired.len() ==> {
                let i = #[trigger] fired@[j].rule_index as int;
                &&& i == run(old(state).records@, rules@, matched@, now, rules.len() as int).1[j]
                &&& fired@[j].rule_id@ == rules@[i].id@
                &&& fired@[j].code@ == rules@[i].code@
                &&& fired@[j].name@ == display_name(names@, rules@[i])
                &&& fired@[j].title@ == alert_title(display_name(names@, rules@[i]))
            },
{
    let today = utc_day_of(now);
    let mut fired: Vec<FiredAlert> = Vec::new();
    let ghost init = state.records@;
    let mut i: usize = 0;
    while i < rules.len()
        invariant
            i <= rules.len(),
            matched.len() == rules.len(),
            today == utc_day(now),
            state.records@ == run(init, rules@, matched@, now, i as int).0,
            fired.len() == run(init, rules@, matched@, now, i as int).1.len(),
            forall|j: int|
                0 <= j < fired.len() ==> {
                    let k = #[trigger] fired@[j].rule_index as int;
                    &&& k == run(init, rules@, matched@, now, i as int).1[j]
                    &&& fired@[j].rule_id@ == rules@[k].id@
                    &&& fired@[j].code@ == rules@[k].code@
                    &&& fired@[j].name@ == display_name(names@, rules@[k])
                    &&& fired@[j].title@ == alert_title(display_name(names@, rules@[k]))
                },
        decreases rules.len() - i,
    {
        let rule = &rules[i];
        let ghost prev = run(init, rules@, matched@, now, i as int);
        let found = state.find(&rule.id);
        proof {
            lemma_find_record_bounds(state.records@, rule.id@);
        }
        let count: u32 = match found {
            Some(k) => if state.records[k].day == today {
                state.records[k].count
            } else {
                0
            },
            None => 0,
        };
        let cooled: bool = match found {
            Some(k) => elapsed_exec(now, state.records[k].last_fired) >= rule.cooldown_sec,
            None => true,
        };
        if rule.enabled && matched[i] && count < rule.max_per_day && cooled {
            let rec = FireRecord {
                rule_id: rule.id.clone(),
                last_fired: now,
                day: today,
                count: count + 1,
            };
            match found {
                Some(k) => {
                    state.records.set(k, rec);
                },
                None => {
                    state.records.push(rec);
                },
            }
            let name = lookup_name(names, rule);
            let mut title = to_owned_string(name.as_str());
            push_str(&mut title, " 触发预警");
            fired.push(
                FiredAlert {
                    rule_index: i,
                    rule_id: to_owned_string(rule.id.as_str()),
                    code: to_owned_string(rule.code.as_str()),
                    name,
                    title,
                },
            );
            proof {
                let next = run(init, rules@, matched@, now, i + 1);
                assert(next.1 == prev.1.push(i as int));
                assert(fired@.last().rule_index == i);
            }
        }
        proof {
            let next = run(init, rules@, matched@, now, i + 1);
            assert forall|j: int| 0 <= j < fired.len() implies {
                let k = #[trigger] fired@[j].rule_index as int;
                &&& k == next.1[j]
                &&& fired@[j].rule_id@ == rules@[k].id@
                &&& fired@[j].code@ == rules@[k].code@
                &&& fired@[j].name@ == display_name(names@, rules@[k])
                &&& fired@[j].title@ == alert_title(display_name(names@, rules@[k]))
            } by {}
        }
        i += 1;
    }
    fired
}


proof fn lemma_upsert_find(recs: Seq<FireRecord>, rec: FireRecord)
    ensures
        find_record(upsert(recs, rec), rec.rule_id@) matches Some(i) && 0 <= i < upsert(
            recs,
            rec,
        ).len() && upsert(recs, rec)[i] == rec,
{
    lemma_find_record_bounds(recs, rec.rule_id@);
    let up = upsert(recs, rec);
    match find_record(recs, rec.rule_id@) {
        Some(i) => {
            assert forall|k: int| 0 <= k < i implies #[trigger] up[k].rule_id@ != rec.rule_id@ by {
                assert(up[k] == recs[k]);
            }
            lemma_find_record_first(up, rec.rule_id@, i);
        },
        None => {
            assert forall|k: int| 0 <= k < recs.len() implies #[trigger] up[k].rule_id@ != rec.rule_id@ by {
                assert(up[k] == recs[k]);
            }
            lemma_find_record_first(up, rec.rule_id@, recs.len() as int);
        },
    }
}

/// Only an enabled rule whose condition holds can fire: every index that an
/// evaluation of the first `n` rules reports names such a rule among them.
pub proof fn law_only_enabled_matching_rules_fire(
    recs: Seq<FireRecord>,
    rules: Seq<AlertRule>,
    matched: Seq<bool>,
    now: UtcInstant,
    n: int,
    j: int,
)
    requires
        0 <= n <= rules.len(),
        matched.len() == rules.len(),
        run(recs, rules, matched, now, n).1.contains(j),
    ensures
        0 <= j < n,
        rules[j].enabled,
        matched[j],
    decreases n,
{
    if n > 0 {
        let prev = run(recs, rules, matched, now, n - 1);
        if may_fire(prev.0, rules[n - 1], matched[n - 1], now) {
            if j != n - 1 {
                let pushed = prev.1.push(n - 1);
                let k = choose|k: int| 0 <= k < pushed.len() && #[trigger] pushed[k] == j;
                assert(k < prev.1.len());
                assert(prev.1[k] == j);
                assert(prev.1.contains(j));
                law_only_enabled_matching_rules_fire(recs, rules, matched, now, n - 1, j);
            }
        } else {
            law_only_enabled_matching_rules_fire(recs, rules, matched, now, n - 1, j);
        }
    }
}

/// The state after evaluating the single rule `rule` with condition flag
/// `matched` at `now`, and whether it fired.
pub open spec fn step_one(recs: Seq<FireRecord>, rule: AlertRule, matched: bool, now: UtcInstant) -> (
    Seq<FireRecord>,
    bool,
) {
    let r = run(recs, seq![rule], seq![matched], now, 1);
    (r.0, r.1.len() == 1)
}

/// Cooldown: once a rule has fired at `t0`, it does not fire again at any
/// `t1` less than `cooldown_sec` whole seconds later.
pub proof fn law_cooldown_blocks_repeat(
    recs: Seq<FireRecord>,
    rule: AlertRule,
    t0: UtcInstant,
    t1: UtcInstant,
    matched_later: bool,
)
    requires
        step_one(recs, rule, true, t0).1,
        elapsed_secs(t1, t0) < rule.cooldown_sec,
    ensures
        !step_one(step_one(recs, rule, true, t0).0, rule, matched_later, t1).1,
{
    let s = seq![rule];
    assert(run(recs, s, seq![true], t0, 0) == (recs, Seq::<int>::empty()));
    let first = step_one(recs, rule, true, t0).0;
    let rec = FireRecord {
        rule_id: rule.id,
        last_fired: t0,
        day: utc_day(t0) as i64,
        count: (count_today(recs, rule.id@, utc_day(t0)) + 1) as u32,
    };
    assert(first == upsert(recs, rec));
    lemma_upsert_find(recs, rec);
    assert(run(first, s, seq![matched_later], t1, 0) == (first, Seq::<int>::empty()));
    assert(!may_fire(first, rule, matched_later, t1));
}

/// Daily cap: evaluating a rule raises its count for the day by one exactly
/// when it fires, never past `max_per_day`, and a rule at its cap does not
/// fire.
pub proof fn law_daily_cap(recs: Seq<FireRecord>, rule: AlertRule, matched: bool, now: UtcInstant)
    ensures
        ({
            let after = step_one(recs, rule, matched, now);
            let day = utc_day(now);
            &&& after.1 ==> count_today(after.0, rule.id@, day) == count_today(recs, rule.id@, day)
                + 1 <= rule.max_per_day
            &&& !after.1 ==> after.0 == recs
            &&& count_today(recs, rule.id@, day) >= rule.max_per_day ==> !after.1
        }),
{
    let s = seq![rule];
    assert(run(recs, s, seq![matched], now, 0) == (recs, Seq::<int>::empty()));
    if may_fire(recs, rule, matched, now) {
        let rec = FireRecord {
            rule_id: rule.id,
            last_fired: now,
            day: utc_day(now) as i64,
            count: (count_today(recs, rule.id@, utc_day(now)) + 1) as u32,
        };
        lemma_upsert_find(recs, rec);
        assert(utc_day(now) == (utc_day(now) as i64) as int) by {
            assert(i64::MIN <= now.secs as int / 86400 <= i64::MAX);
        }
    }
}

/// The firing record of rule id `id`, if it has one.
pub open spec fn record_of(recs: Seq<FireRecord>, id: Seq<char>) -> Option<FireRecord> {
    match find_record(recs, id) {
        Some(i) => Some(recs[i]),
        None => None,
    }
}

/// Rule ids that are pairwise distinct.
pub open spec fn distinct_rule_ids(rules: Seq<AlertRule>) -> bool {
    forall|a: int, b: int| 0 <= a < rules.len() && 0 <= b < rules.len() && a != b ==> #[trigger] rules[a].id@
        != #[trigger] rules[b].id@
}

proof fn lemma_may_fire_by_record(a: Seq<FireRecord>, b: Seq<FireRecord>, rule: AlertRule, matched: bool, now: UtcInstant)
    requires
        record_of(a, rule.id@) == record_of(b, rule.id@),
    ensures
        may_fire(a, rule, matched, now) == may_fire(b, rule, matched, now),
        count_today(a, rule.id@, utc_day(now)) == count_today(b, rule.id@, utc_day(now)),
{
}

proof fn lemma_upsert_other(recs: Seq<FireRecord>, rec: FireRecord, id: Seq<char>)
    requires
        rec.rule_id@ != id,
    ensures
        record_of(upsert(recs, rec), id) == record_of(recs, id),
{
    let up = upsert(recs, rec);
    lemma_find_record_bounds(recs, rec.rule_id@);
    lemma_find_record_bounds(recs, id);
    match find_record(recs, rec.rule_id@) {
        Some(p) => {
            assert forall|k: int| 0 <= k < up.len() && k != p implies #[trigger] up[k] == recs[k] by {}
            match find_record(recs, id) {
                Some(i) => {
                    assert(i != p);
                    assert forall|k: int| 0 <= k < i implies #[trigger] up[k].rule_id@ != id by {
                        if k != p {
                            assert(up[k] == recs[k]);
                        }
                    }
                    lemma_find_record_first(up, id, i);
                },
                None => {
                    assert forall|k: int| 0 <= k < up.len() implies #[trigger] up[k].rule_id@ != id by {
                        if k != p {
                            assert(up[k] == recs[k]);
                        }
                    }
                    lemma_find_record_none(up, id);
                },
            }
        },
        None => {
            assert forall|k: int| 0 <= k < recs.len() implies #[trigger] up[k] == recs[k] by {}
            match find_record(recs, id) {
                Some(i) => {
                    assert forall|k: int| 0 <= k < i implies #[trigger] up[k].rule_id@ != id by {
                        assert(up[k] == recs[k]);
                    }
                    lemma_find_record_first(up, id, i);
                },
                None => {
                    assert forall|k: int| 0 <= k < up.len() implies #[trigger] up[k].rule_id@ != id by {
                        if k < recs.len() {
                            assert(up[k] == recs[k]);
                        }
                    }
                    lemma_find_record_none(up, id);
                },
            }
        },
    }
}

/// Evaluating rules `m..n` leaves the record of an id that none of them
/// carries as it was.
proof fn lemma_run_keeps_other(
    recs: Seq<FireRecord>,
    rules: Seq<AlertRule>,
    matched: Seq<bool>,
    now: UtcInstant,
    m: int,
    n: int,
    id: Seq<char>,
)
    requires
        0 <= m <= n <= rules.len(),
        forall|k: int| m <= k < n ==> #[trigger] rules[k].id@ != id,
    ensures
        record_of(run(recs, rules, matched, now, n).0, id) == record_of(run(recs, rules, matched, now, m).0, id),
    decreases n - m,
{
    if m < n {
        lemma_run_keeps_other(recs, rules, matched, now, m, n - 1, id);
        let prev = run(recs, rules, matched, now, n - 1);
        if may_fire(prev.0, rules[n - 1], matched[n - 1], now) {
            let rec = FireRecord {
                rule_id: rules[n - 1].id,
                last_fired: now,
                day: utc_day(now) as i64,
                count: (count_today(prev.0, rules[n - 1].id@, utc_day(now)) + 1) as u32,
            };
            lemma_upsert_other(prev.0, rec, id);
        }
    }
}

/// The fired indices of an evaluation of the first `n` rules lie below `n`.
proof fn lemma_run_indices_below(recs: Seq<FireRecord>, rules: Seq<AlertRule>, matched: Seq<bool>, now: UtcInstant, n: int)
    requires
        0 <= n,
    ensures
        forall|k: int| 0 <= k < run(recs, rules, matched, now, n).1.len() ==> #[trigger] run(recs, rules, matched, now, n).1[k] < n,
    decreases n,
{
    if n > 0 {
        lemma_run_indices_below(recs, rules, matched, now, n - 1);
        let prev = run(recs, rules, matched, now, n - 1);
        let cur = run(recs, rules, matched, now, n);
        assert forall|k: int| 0 <= k < cur.1.len() implies #[trigger] cur.1[k] < n by {
            if k < prev.1.len() {
                assert(prev.1[k] < n - 1);
                if may_fire(prev.0, rules[n - 1], matched[n - 1], now) {
                    assert(cur.1[k] == prev.1.push(n - 1)[k]);
                }
            }
        }
    }
}

/// Rule `j` is among the fired rules of the first `n` exactly when it may
/// fire on the records as rule `j` finds them.
proof fn lemma_run_contains(
    recs: Seq<FireRecord>,
    rules: Seq<AlertRule>,
    matched: Seq<bool>,
    now: UtcInstant,
    n: int,
    j: int,
)
    requires
        0 <= j < n,
    ensures
        run(recs, rules, matched, now, n).1.contains(j) == may_fire(run(recs, rules, matched, now, j).0, rules[j], matched[j], now),
    decreases n,
{
    let prev = run(recs, rules, matched, now, n - 1);
    lemma_run_indices_below(recs, rules, matched, now, n - 1);
    if n - 1 == j {
        if may_fire(prev.0, rules[j], matched[j], now) {
            assert(prev.1.push(j)[prev.1.len() as int] == j);
        } else {
            assert(!prev.1.contains(j));
        }
    } else {
        lemma_run_contains(recs, rules, matched, now, n - 1, j);
        if may_fire(prev.0, rules[n - 1], matched[n - 1], now) {
            let pushed = prev.1.push(n - 1);
            if pushed.contains(j) {
                let k = choose|k: int| 0 <= k < pushed.len() && pushed[k] == j;
                assert(k < prev.1.len());
                assert(prev.1[k] == j);
            }
            if prev.1.contains(j) {
                let k = choose|k: int| 0 <= k < prev.1.len() && prev.1[k] == j;
                assert(pushed[k] == j);
            }
        }
    }
}

/// Rules fire independently of one another: among rules with distinct ids,
/// rule `j` fires in an evaluation of all the rules exactly when it would
/// fire if it were evaluated alone on the same records at the same time,
/// and its record after the evaluation is the one it would then have. No
/// other rule firing before it in the same evaluation changes that.
pub proof fn law_rules_fire_independently(
    recs: Seq<FireRecord>,
    rules: Seq<AlertRule>,
    matched: Seq<bool>,
    now: UtcInstant,
    j: int,
)
    requires
        matched.len() == rules.len(),
        0 <= j < rules.len(),
        distinct_rule_ids(rules),
    ensures
        run(recs, rules, matched, now, rules.len() as int).1.contains(j) == step_one(recs, rules[j], matched[j], now).1,
        record_of(run(recs, rules, matched, now, rules.len() as int).0, rules[j].id@) == record_of(
            step_one(recs, rules[j], matched[j], now).0,
            rules[j].id@,
        ),
{
    let n = rules.len() as int;
    let id = rules[j].id@;
    assert(run(recs, rules, matched, now, 0).0 == recs);
    lemma_run_keeps_other(recs, rules, matched, now, 0, j, id);
    let before = run(recs, rules, matched, now, j).0;
    lemma_may_fire_by_record(before, recs, rules[j], matched[j], now);
    lemma_run_contains(recs, rules, matched, now, n, j);
    let s = seq![rules[j]];
    let ms = seq![matched[j]];
    assert(run(recs, s, ms, now, 0) == (recs, Seq::<int>::empty()));
    assert(s[0] == rules[j] && ms[0] == matched[j]);
    let one = run(recs, s, ms, now, 1);
    if may_fire(recs, rules[j], matched[j], now) {
        assert(one.1.len() == 1);
    } else {
        assert(one.1.len() == 0);
    }
    // The record right after rule j, then kept by the later rules.
    let after = run(recs, rules, matched, now, j + 1).0;
    if may_fire(before, rules[j], matched[j], now) {
        let rec = FireRecord {
            rule_id: rules[j].id,
            last_fired: now,
            day: utc_day(now) as i64,
            count: (count_today(before, id, utc_day(now)) + 1) as u32,
        };
        let rec1 = FireRecord {
            rule_id: rules[j].id,
            last_fired: now,
            day: utc_day(now) as i64,
            count: (count_today(recs, id, utc_day(now)) + 1) as u32,
        };
        assert(rec == rec1);
        lemma_upsert_find(before, rec);
        lemma_upsert_find(recs, rec1);
        assert(after == upsert(before, rec));
        assert(one.0 == upsert(recs, rec1));
    } else {
        assert(after == before);
        assert(one.0 == recs);
    }
    assert(record_of(after, id) == record_of(one.0, id));
    assert forall|k: int| j + 1 <= k < n implies #[trigger] rules[k].id@ != id by {
        assert(rules[k].id@ != rules[j].id@);
    }
    lemma_run_keeps_other(recs, rules, matched, now, j + 1, n, id);
}

/// A rule that has no record yet fires when it is enabled, its condition
/// holds and its daily cap allows at least one alert.
pub proof fn law_fresh_rule_fires(recs: Seq<FireRecord>, rule: AlertRule, now: UtcInstant)
    requires
        record_of(recs, rule.id@) is None,
        rule.enabled,
        rule.max_per_day >= 1,
    ensures
        step_one(recs, rule, true, now).1,
{
    let s = seq![rule];
    assert(run(recs, s, seq![true], now, 0) == (recs, Seq::<int>::empty()));
}

/// The control state of the watch service: whether it runs, its polling
/// interval and how many quote fetches failed in a row.
#[derive(Clone, Copy, Debug, PartialEq, Eq, Structural)]
pub struct WatchControl {
    pub enabled: bool,
    pub interval_secs: u64,
    pub consecutive_failures: u32,
}

/// What one tick of the watch service does.
#[derive(Clone, Copy, Debug, PartialEq, Eq, Structural)]
pub enum TickAction {
    /// Outside the session, disabled, or nothing to watch.
    Skip,
    /// Fetch quotes and evaluate the rules.
    FetchQuotes,
}

impl WatchControl {
    /// A service that has not started: disabled, default interval.
    pub fn new() -> (r: WatchControl)
        ensures
            r == (WatchControl { enabled: false, interval_secs: 0, consecutive_failures: 0 }),
    {
        WatchControl { enabled: false, interval_secs: 0, consecutive_failures: 0 }
    }

    /// Settings from the interface: a zero interval means the default.
    pub fn apply_settings(&mut self, interval_secs: u64, enabled: bool)
        ensures
            final(self).enabled == enabled,
            final(self).interval_secs == (if interval_secs == 0 { DEFAULT_INTERVAL_SECS } else { interval_secs }),
            final(self).consecutive_failures == old(self).consecutive_failures,
    {
        self.interval_secs = effective_interval_secs(interval_secs);
        self.enabled = enabled;
    }

    /// The service starts: enabled, with no failure counted.
    pub fn start(&mut self)
        ensures
            final(self).enabled,
            final(self).consecutive_failures == 0,
            final(self).interval_secs == old(self).interval_secs,
    {
        self.enabled = true;
        self.consecutive_failures = 0;
    }

    /// The service is shut down.
    pub fn stop(&mut self)
        ensures
            !final(self).enabled,
            final(self).interval_secs == old(self).interval_secs,
            final(self).consecutive_failures == old(self).consecutive_failures,
    {
        self.enabled = false;
    }

    /// What a tick does: quotes are fetched only in session, when enabled,
    /// with something to watch.
    pub fn tick_action(&self, in_session: bool, stock_count: usize) -> (r: TickAction)
        ensures
            r == (if in_session && self.enabled && stock_count > 0 { TickAction::FetchQuotes } else { TickAction::Skip }),
    {
        if in_session && self.enabled && stock_count > 0 {
            TickAction::FetchQuotes
        } else {
            TickAction::Skip
        }
    }

    /// Records a quote fetch: a success clears the failure count, a failure
    /// adds one (saturating).
    pub fn record_fetch(&mut self, ok: bool)
        ensures
            ok ==> final(self).consecutive_failures == 0,
            !ok ==> final(self).consecutive_failures == (if old(self).consecutive_failures == u32::MAX {
                u32::MAX as int
            } else {
                old(self).consecutive_failures + 1
            }),
            final(self).enabled == old(self).enabled,
            final(self).interval_secs == old(self).interval_secs,
    {
        if ok {
            self.consecutive_failures = 0;
        } else if self.consecutive_failures < u32::MAX {
            self.consecutive_failures = self.consecutive_failures + 1;
        }
    }

    /// Seconds to sleep before the next tick.
    pub fn sleep_secs(&self) -> (r: u64)
        ensures
            r == (if self.interval_secs == 0 { DEFAULT_INTERVAL_SECS } else { self.interval_secs }),
            r > 0,
    {
        effective_interval_secs(self.interval_secs)
    }
}

} // verus!
