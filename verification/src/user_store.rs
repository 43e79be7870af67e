//! Records of the user's store (stock pool, journal, status) and the rules
//! that decide what is read back.

use vstd::prelude::*;
use crate::cninfo::six_digit_code;
use crate::models::Stock;
use crate::text::{
    ascii_digits, chars_ascii_digits, chars_lt, from_chars, lemma_seq_lt_total, lemma_seq_lt_trans,
    push_str, seq_lt, signed_decimal_spec, signed_decimal_text, str_eq, string_of_range, to_chars,
    to_owned_string, trim, trim_str, zero_pad_chars,
};

verus! {

/// Version of the store's schema that this library writes.
pub const CURRENT_SCHEMA_VERSION: i64 = 3;

/// The "watching" group of the pool.
pub const GROUP_WATCH: &'static str = "g_watch";
/// The "to buy" group of the pool.
pub const GROUP_BUY: &'static str = "g_buy";
/// The "observing" group of the pool.
pub const GROUP_OBSERVE: &'static str = "g_observe";
/// The group of removed entries.
pub const GROUP_REMOVED: &'static str = "g_removed";
/// The group mirroring holdings.
pub const GROUP_HOLDINGS_MIRROR: &'static str = "g_holdings_mirror";

/// Tables of schema version 1: meta data, the old watch list, settings,
/// strategies, watch rules and alerts.
pub const SCHEMA_V1_DDL: &'static str = "CREATE TABLE IF NOT EXISTS meta (key TEXT PRIMARY KEY NOT NULL, value TEXT NOT NULL); CREATE TABLE IF NOT EXISTS watchlist (code TEXT PRIMARY KEY NOT NULL, name TEXT NOT NULL, market TEXT NOT NULL, sector TEXT NOT NULL, sort_order INTEGER NOT NULL DEFAULT 0, extra_json TEXT NOT NULL DEFAULT '{}'); CREATE TABLE IF NOT EXISTS kv_settings (key TEXT PRIMARY KEY NOT NULL, value_json TEXT NOT NULL); CREATE TABLE IF NOT EXISTS strategy_compose (stock_code TEXT PRIMARY KEY NOT NULL, compose_json TEXT NOT NULL); CREATE TABLE IF NOT EXISTS monitor_rules (id TEXT PRIMARY KEY NOT NULL, rule_json TEXT NOT NULL); CREATE TABLE IF NOT EXISTS monitor_alerts (id TEXT PRIMARY KEY NOT NULL, alert_json TEXT NOT NULL, created_at TEXT NOT NULL);";

/// Tables added by schema version 2: the stock pool's groups and entries.
pub const SCHEMA_V2_DDL: &'static str = "CREATE TABLE IF NOT EXISTS pool_groups (id TEXT PRIMARY KEY NOT NULL, name TEXT NOT NULL, sort_order INTEGER NOT NULL, kind TEXT NOT NULL DEFAULT 'user'); CREATE TABLE IF NOT EXISTS pool_items (code TEXT NOT NULL, group_id TEXT NOT NULL, name TEXT NOT NULL DEFAULT '', market TEXT NOT NULL DEFAULT '', sector TEXT NOT NULL DEFAULT '', sort_order INTEGER NOT NULL DEFAULT 0, extra_json TEXT NOT NULL DEFAULT '{}', PRIMARY KEY (code, group_id));";

/// Tables added by schema version 3: holdings and the journal.
pub const SCHEMA_V3_DDL: &'static str = "CREATE TABLE IF NOT EXISTS holdings (code TEXT PRIMARY KEY NOT NULL, name TEXT NOT NULL DEFAULT '', market TEXT NOT NULL DEFAULT '', sector TEXT NOT NULL DEFAULT '', cost REAL NOT NULL, qty REAL NOT NULL, buy_date TEXT NOT NULL, note TEXT NOT NULL DEFAULT ''); CREATE TABLE IF NOT EXISTS journal_entries (id TEXT PRIMARY KEY NOT NULL, date TEXT NOT NULL, code TEXT, body TEXT NOT NULL, extra_json TEXT NOT NULL DEFAULT '{}');";

/// Copies the old watch list into the "watching" group (`?1`), skipping
/// entries already there.
pub const WATCHLIST_TO_POOL_SQL: &'static str = "INSERT INTO pool_items(code, group_id, name, market, sector, sort_order, extra_json) SELECT code, ?1, name, market, sector, sort_order, extra_json FROM watchlist WHERE NOT EXISTS (SELECT 1 FROM pool_items p WHERE p.code = watchlist.code AND p.group_id = ?1)";

/// Writes a meta value (`?1` key, `?2` value).
pub const SET_META_SQL: &'static str = "INSERT INTO meta(key, value) VALUES (?1, ?2) ON CONFLICT(key) DO UPDATE SET value = excluded.value";

/// Reads a meta value by key.
pub const GET_META_SQL: &'static str = "SELECT value FROM meta WHERE key = ?1";

/// Inserts a group unless its id is taken.
pub const SEED_GROUP_SQL: &'static str = "INSERT INTO pool_groups(id, name, sort_order, kind) VALUES (?1, ?2, ?3, ?4) ON CONFLICT(id) DO NOTHING";

/// Inserts a pool entry.
pub const INSERT_POOL_ITEM_SQL: &'static str = "INSERT INTO pool_items(code, group_id, name, market, sector, sort_order, extra_json) VALUES (?1, ?2, ?3, ?4, ?5, ?6, ?7)";

/// The pool's groups in display order.
pub const SELECT_GROUPS_SQL: &'static str = "SELECT id, name, sort_order, kind FROM pool_groups ORDER BY sort_order ASC, id ASC";

/// The pool's entries, by group and position.
pub const SELECT_POOL_ITEMS_SQL: &'static str = "SELECT code, group_id, name, market, sector, sort_order, extra_json FROM pool_items ORDER BY group_id ASC, sort_order ASC, code ASC";

/// The old watch list in its order.
pub const SELECT_WATCHLIST_SQL: &'static str = "SELECT code, name, market, sector, sort_order, extra_json FROM watchlist ORDER BY sort_order ASC";

/// The per-security strategies.
pub const SELECT_STRATEGIES_SQL: &'static str = "SELECT stock_code, compose_json FROM strategy_compose";

/// The settings.
pub const SELECT_SETTINGS_SQL: &'static str = "SELECT key, value_json FROM kv_settings";

/// The watch rules.
pub const SELECT_RULES_SQL: &'static str = "SELECT id, rule_json FROM monitor_rules";

/// The holdings, by purchase date and code.
pub const SELECT_HOLDINGS_SQL: &'static str = "SELECT code, name, market, sector, cost, qty, buy_date, note FROM holdings ORDER BY buy_date ASC, code ASC";

/// The journal, newest first.
pub const SELECT_JOURNAL_SQL: &'static str = "SELECT id, date, code, body, extra_json FROM journal_entries ORDER BY date DESC, id ASC";

/// Empties one group (`?1`).
pub const DELETE_GROUP_ITEMS_SQL: &'static str = "DELETE FROM pool_items WHERE group_id = ?1";

/// Inserts a group.
pub const INSERT_GROUP_SQL: &'static str = "INSERT INTO pool_groups(id, name, sort_order, kind) VALUES (?1, ?2, ?3, ?4)";

/// Inserts a holding.
pub const INSERT_HOLDING_SQL: &'static str = "INSERT INTO holdings(code, name, market, sector, cost, qty, buy_date, note) VALUES (?1, ?2, ?3, ?4, ?5, ?6, ?7, ?8)";

/// Inserts a journal entry.
pub const INSERT_JOURNAL_SQL: &'static str = "INSERT INTO journal_entries(id, date, code, body, extra_json) VALUES (?1, ?2, ?3, ?4, ?5)";

/// Inserts a security's strategy.
pub const INSERT_STRATEGY_SQL: &'static str = "INSERT INTO strategy_compose(stock_code, compose_json) VALUES (?1, ?2)";

/// Writes a setting (`?1` key, `?2` JSON value).
pub const UPSERT_SETTING_SQL: &'static str = "INSERT INTO kv_settings(key, value_json) VALUES (?1, ?2) ON CONFLICT(key) DO UPDATE SET value_json = excluded.value_json";

/// Inserts a watch rule.
pub const INSERT_RULE_SQL: &'static str = "INSERT INTO monitor_rules(id, rule_json) VALUES (?1, ?2)";

/// Inserts an alert.
pub const INSERT_ALERT_SQL: &'static str = "INSERT INTO monitor_alerts(id, alert_json, created_at) VALUES (?1, ?2, ?3)";

/// A group of the stock pool.
#[derive(Clone, Debug)]
pub struct PoolGroup {
    pub id: String,
    pub name: String,
    pub sort_order: i64,
    pub kind: String,
}

/// An entry of the stock pool, in one group.
#[derive(Clone, Debug)]
pub struct PoolItem {
    pub code: String,
    pub group_id: String,
    pub name: String,
    pub market: String,
    pub sector: String,
    pub sort_order: i64,
    pub extra_json: String,
}

/// A journal note, possibly about one code.
#[derive(Clone, Debug)]
pub struct JournalEntry {
    pub id: String,
    pub date: String,
    pub code: Option<String>,
    pub body: String,
    pub extra_json: String,
}

/// State of the user's store as reported to the interface.
#[derive(Clone, Debug)]
pub struct UserDbStatus {
    pub schema_version: i64,
    pub path: String,
    pub needs_localstorage_import: bool,
    pub has_user_rows: bool,
}

/// The extra fields of an entry that has none: an empty JSON object.
pub fn default_extra_json() -> (r: String)
    ensures
        r@ == "{}"@,
{
    to_owned_string("{}")
}

/// How the store keys a code: the six-digit code when it has digits,
/// otherwise the code trimmed.
pub open spec fn store_code(code: Seq<char>) -> Seq<char> {
    if ascii_digits(code).len() == 0 {
        trim(code)
    } else {
        six_digit_code(code)
    }
}

/// Normalises a code as the store keys it.
pub fn normalize_code(code: &str) -> (r: String)
    ensures
        r@ == store_code(code@),
{
    let v = to_chars(code);
    let digits = chars_ascii_digits(&v);
    if digits.len() >= 6 {
        string_of_range(&digits, digits.len() - 6, digits.len())
    } else if digits.len() > 0 {
        let padded = zero_pad_chars(&digits, 6);
        from_chars(&padded)
    } else {
        trim_str(code)
    }
}

/// The status of the store: a fresh store (never migrated, no rows of its
/// own) asks for the browser's saved data to be imported.
pub open spec fn status_spec(schema_version: Option<i64>, migrated: Option<bool>, user_rows: nat) -> (i64, bool, bool) {
    let migrated = match migrated {
        Some(b) => b,
        None => false,
    };
    let has_rows = user_rows > 0;
    (
        match schema_version {
            Some(v) => v,
            None => 0i64,
        },
        !migrated && !has_rows,
        has_rows,
    )
}

/// Builds the status from what the store's meta table and row count say.
pub fn db_status(schema_version: Option<i64>, migrated: Option<bool>, user_rows: usize, path: String) -> (r: UserDbStatus)
    ensures
        (r.schema_version, r.needs_localstorage_import, r.has_user_rows) == status_spec(
            schema_version,
            migrated,
            user_rows as nat,
        ),
        r.path@ == path@,
{
    let migrated = match migrated {
        Some(b) => b,
        None => false,
    };
    let has_user_rows = user_rows > 0;
    UserDbStatus {
        schema_version: match schema_version {
            Some(v) => v,
            None => 0,
        },
        path,
        needs_localstorage_import: !migrated && !has_user_rows,
        has_user_rows,
    }
}

/// A step that brings the store's schema one version forward.
#[derive(Clone, Copy, Debug, PartialEq, Eq, Structural)]
pub enum MigrationStep {
    /// Tables exist but carry no version: record version 1.
    MarkVersionOne,
    /// Version 1 to 2: create the pool tables, seed the default groups and
    /// copy the old watch list into the "watching" group.
    AddPool,
    /// Version 2 to 3: create the holdings and journal tables.
    AddHoldingsJournal,
}

/// The version a step leaves the schema at.
pub open spec fn version_after(step: MigrationStep) -> int {
    match step {
        MigrationStep::MarkVersionOne => 1,
        MigrationStep::AddPool => 2,
        MigrationStep::AddHoldingsJournal => 3,
    }
}

/// The step taken from version `from`: none once current, an error for a
/// version no step starts from.
pub open spec fn migration_step_spec(from: int) -> Result<Option<MigrationStep>, Seq<char>> {
    if from >= CURRENT_SCHEMA_VERSION {
        Ok(None)
    } else if from == 0 {
        Ok(Some(MigrationStep::MarkVersionOne))
    } else if from == 1 {
        Ok(Some(MigrationStep::AddPool))
    } else if from == 2 {
        Ok(Some(MigrationStep::AddHoldingsJournal))
    } else {
        Err("不支持的 schema 迁移: "@ + signed_decimal_spec(from) + " → 3"@)
    }
}

/// Decides the next migration step from the stored schema version.
pub fn migration_step(from: i64) -> (r: Result<Option<MigrationStep>, String>)
    ensures
        match (r, migration_step_spec(from as int)) {
            (Ok(a), Ok(b)) => a == b,
            (Err(e), Err(m)) => e@ == m,
            _ => false,
        },
{
    if from >= CURRENT_SCHEMA_VERSION {
        Ok(None)
    } else if from == 0 {
        Ok(Some(MigrationStep::MarkVersionOne))
    } else if from == 1 {
        Ok(Some(MigrationStep::AddPool))
    } else if from == 2 {
        Ok(Some(MigrationStep::AddHoldingsJournal))
    } else {
        let mut msg = to_owned_string("不支持的 schema 迁移: ");
        let n = signed_decimal_text(from);
        push_str(&mut msg, n.as_str());
        push_str(&mut msg, " → 3");
        Err(msg)
    }
}

/// The version reached by taking steps from `from` until none is left or
/// one is refused.
pub open spec fn migrated_version(from: int) -> int
    decreases CURRENT_SCHEMA_VERSION - from,
{
    if from >= CURRENT_SCHEMA_VERSION || from < 0 {
        from
    } else {
        match migration_step_spec(from) {
            Ok(Some(step)) => if version_after(step) > from {
                migrated_version(version_after(step))
            } else {
                from
            },
            _ => from,
        }
    }
}

/// Migrating a store from any version it may hold, zero up to the current
/// one, ends at the current version: every step raises the version by one.
pub proof fn law_migration_reaches_current(from: int)
    requires
        0 <= from <= CURRENT_SCHEMA_VERSION,
    ensures
        migrated_version(from) == CURRENT_SCHEMA_VERSION,
        from < CURRENT_SCHEMA_VERSION ==> (migration_step_spec(from) matches Ok(Some(step))
            && version_after(step) == from + 1),
    decreases CURRENT_SCHEMA_VERSION - from,
{
    if from < CURRENT_SCHEMA_VERSION {
        law_migration_reaches_current(from + 1);
    }
}

/// The error for a store written by a newer version of the schema, if it is.
pub open spec fn schema_too_new_spec(version: int) -> Option<Seq<char>> {
    if version > CURRENT_SCHEMA_VERSION {
        Some("用户库 schema_version="@ + signed_decimal_spec(version)
            + " 高于本应用支持的 3，请升级应用或从备份恢复"@)
    } else {
        None
    }
}

/// Refuses a store whose schema is newer than this library knows.
pub fn schema_too_new(version: i64) -> (r: Option<String>)
    ensures
        match (r, schema_too_new_spec(version as int)) {
            (Some(a), Some(b)) => a@ == b,
            (None, None) => true,
            _ => false,
        },
{
    if version > CURRENT_SCHEMA_VERSION {
        let mut msg = to_owned_string("用户库 schema_version=");
        let n = signed_decimal_text(version);
        push_str(&mut msg, n.as_str());
        push_str(&mut msg, " 高于本应用支持的 3，请升级应用或从备份恢复");
        Some(msg)
    } else {
        None
    }
}

/// The groups a new store starts with: id, name, sort order, kind.
pub open spec fn default_group_spec(i: int) -> (Seq<char>, Seq<char>, i64, Seq<char>) {
    if i == 0 {
        (GROUP_WATCH@, "关注"@, 0i64, "user"@)
    } else if i == 1 {
        (GROUP_BUY@, "待买"@, 1i64, "user"@)
    } else if i == 2 {
        (GROUP_OBSERVE@, "观察"@, 2i64, "user"@)
    } else if i == 3 {
        (GROUP_REMOVED@, "已剔除"@, 3i64, "user"@)
    } else {
        (GROUP_HOLDINGS_MIRROR@, "持仓镜像"@, 99i64, "mirror"@)
    }
}

fn group_of(id: &str, name: &str, sort_order: i64, kind: &str) -> (r: PoolGroup)
    ensures
        (r.id@, r.name@, r.sort_order, r.kind@) == (id@, name@, sort_order, kind@),
{
    PoolGroup {
        id: to_owned_string(id),
        name: to_owned_string(name),
        sort_order,
        kind: to_owned_string(kind),
    }
}

/// The default groups seeded into a new store, in order.
pub fn default_groups() -> (r: Vec<PoolGroup>)
    ensures
        r@.len() == 5,
        forall|i: int| 0 <= i < 5 ==> ((#[trigger] r@[i]).id@, r@[i].name@, r@[i].sort_order, r@[i].kind@)
            == default_group_spec(i),
{
    let mut v: Vec<PoolGroup> = Vec::new();
    v.push(group_of(GROUP_WATCH, "关注", 0, "user"));
    v.push(group_of(GROUP_BUY, "待买", 1, "user"));
    v.push(group_of(GROUP_OBSERVE, "观察", 2, "user"));
    v.push(group_of(GROUP_REMOVED, "已剔除", 3, "user"));
    v.push(group_of(GROUP_HOLDINGS_MIRROR, "持仓镜像", 99, "mirror"));
    v
}

/// Whether a stored flag reads as set: `1`, or `true` in any letter case.
pub open spec fn meta_flag_spec(s: Seq<char>) -> bool {
    ||| s == seq!['1']
    ||| s.len() == 4 && (s[0] == 't' || s[0] == 'T') && (s[1] == 'r' || s[1] == 'R')
        && (s[2] == 'u' || s[2] == 'U') && (s[3] == 'e' || s[3] == 'E')
}

/// Reads a flag of the store's meta table.
pub fn meta_flag(s: &str) -> (r: bool)
    ensures
        r == meta_flag_spec(s@),
{
    let v = to_chars(s);
    if v.len() == 1 {
        assert(v@ == seq![v@[0]]);
        return v[0] == '1';
    }
    if v.len() != 4 {
        return false;
    }
    (v[0] == 't' || v[0] == 'T') && (v[1] == 'r' || v[1] == 'R') && (v[2] == 'u' || v[2] == 'U')
        && (v[3] == 'e' || v[3] == 'E')
}

/// Whether an imported snapshot's watch list must fill the "watching"
/// group: the pool has no entry there and the list is not empty.
pub fn needs_watch_backfill(items: &[PoolItem], watchlist_len: usize) -> (r: bool)
    ensures
        r == (watchlist_len > 0 && forall|i: int| 0 <= i < items@.len() ==> (#[trigger] items@[i]).group_id@ != GROUP_WATCH@),
{
    let mut i: usize = 0;
    while i < items.len()
        invariant
            i <= items.len(),
            forall|k: int| 0 <= k < i ==> (#[trigger] items@[k]).group_id@ != GROUP_WATCH@,
        decreases items.len() - i,
    {
        if str_eq(items[i].group_id.as_str(), GROUP_WATCH) {
            return false;
        }
        i += 1;
    }
    watchlist_len > 0
}

/// Order of pool entries within a group: by sort order, then code, then
/// position (the sort is stable).
pub open spec fn entry_before(a: (i64, Seq<char>, int), b: (i64, Seq<char>, int)) -> bool {
    ||| a.0 < b.0
    ||| a.0 == b.0 && seq_lt(a.1, b.1)
    ||| a.0 == b.0 && a.1 == b.1 && a.2 < b.2
}

/// Entry `i` as the key it is sorted by.
pub open spec fn entry_key(items: Seq<PoolItem>, i: int) -> (i64, Seq<char>, int) {
    (items[i].sort_order, items[i].code@, i)
}

/// The entries of `group`, as indices, in display order.
pub open spec fn is_group_order(items: Seq<PoolItem>, group: Seq<char>, r: Seq<usize>) -> bool {
    &&& forall|k: int| 0 <= k < r.len() ==> (#[trigger] r[k]) < items.len() && items[r[k] as int].group_id@ == group
    &&& forall|j: int| 0 <= j < items.len() && items[j].group_id@ == group ==> r.contains(j as usize)
    &&& forall|k1: int, k2: int|
        0 <= k1 < k2 < r.len() ==> entry_before(
            entry_key(items, #[trigger] r[k1] as int),
            entry_key(items, #[trigger] r[k2] as int),
        )
}

proof fn lemma_entry_total(a: (i64, Seq<char>, int), b: (i64, Seq<char>, int))
    requires
        a.2 != b.2,
    ensures
        entry_before(a, b) || entry_before(b, a),
{
    lemma_seq_lt_total(a.1, b.1);
}

proof fn lemma_entry_trans(a: (i64, Seq<char>, int), b: (i64, Seq<char>, int), c: (i64, Seq<char>, int))
    requires
        entry_before(a, b),
        entry_before(b, c),
    ensures
        entry_before(a, c),
{
    if a.0 == b.0 && b.0 == c.0 {
        if seq_lt(a.1, b.1) && seq_lt(b.1, c.1) {
            lemma_seq_lt_trans(a.1, b.1, c.1);
        }
    }
}

fn entry_less(items: &[PoolItem], a: usize, b: usize) -> (r: bool)
    requires
        a < items@.len(),
        b < items@.len(),
    ensures
        r == entry_before(entry_key(items@, a as int), entry_key(items@, b as int)),
{
    let x = &items[a];
    let y = &items[b];
    if x.sort_order != y.sort_order {
        return x.sort_order < y.sort_order;
    }
    let cx = to_chars(x.code.as_str());
    let cy = to_chars(y.code.as_str());
    if chars_lt(&cx, &cy) {
        return true;
    }
    if str_eq(x.code.as_str(), y.code.as_str()) {
        return a < b;
    }
    false
}

/// The entries of one group, in display order (by sort order, then code;
/// equal keys keep their order), as indices into `items`.
pub fn group_order(items: &[PoolItem], group_id: &str) -> (r: Vec<usize>)
    ensures
        is_group_order(items@, group_id@, r@),
{
    let mut out: Vec<usize> = Vec::new();
    let mut i: usize = 0;
    while i < items.len()
        invariant
            i <= items.len(),
            forall|k: int| 0 <= k < out@.len() ==> (#[trigger] out@[k]) < i && items@[out@[k] as int].group_id@ == group_id@,
            forall|j: int| 0 <= j < i && items@[j].group_id@ == group_id@ ==> out@.contains(j as usize),
            forall|k1: int, k2: int|
                0 <= k1 < k2 < out@.len() ==> entry_before(
                    entry_key(items@, #[trigger] out@[k1] as int),
                    entry_key(items@, #[trigger] out@[k2] as int),
                ),
        decreases items.len() - i,
    {
        if str_eq(items[i].group_id.as_str(), group_id) {
            let mut p: usize = 0;
            while p < out.len() && entry_less(items, out[p], i)
                invariant
                    p <= out@.len(),
                    i < items@.len(),
                    forall|k: int| 0 <= k < out@.len() ==> (#[trigger] out@[k]) < i,
                    forall|k: int| 0 <= k < p ==> entry_before(entry_key(items@, #[trigger] out@[k] as int), entry_key(items@, i as int)),
                decreases out@.len() - p,
            {
                p += 1;
            }
            let ghost old_out = out@;
            proof {
                if p < out@.len() {
                    let q = old_out[p as int] as int;
                    lemma_entry_total(entry_key(items@, q), entry_key(items@, i as int));
                }
            }
            out.insert(p, i);
            proof {
                let no = out@;
                assert(no == old_out.insert(p as int, i));
                assert forall|k1: int, k2: int| 0 <= k1 < k2 < no.len() implies entry_before(
                    entry_key(items@, #[trigger] no[k1] as int),
                    entry_key(items@, #[trigger] no[k2] as int),
                ) by {
                    if k2 < p {
                        assert(no[k1] == old_out[k1] && no[k2] == old_out[k2]);
                    } else if k2 == p {
                        assert(no[k1] == old_out[k1]);
                    } else if k1 == p {
                        assert(no[k2] == old_out[k2 - 1]);
                        if k2 - 1 > p {
                            lemma_entry_trans(
                                entry_key(items@, i as int),
                                entry_key(items@, old_out[p as int] as int),
                                entry_key(items@, old_out[k2 - 1] as int),
                            );
                        }
                    } else if k1 < p {
                        assert(no[k1] == old_out[k1] && no[k2] == old_out[k2 - 1]);
                    } else {
                        assert(no[k1] == old_out[k1 - 1] && no[k2] == old_out[k2 - 1]);
                    }
                }
                assert forall|k: int| 0 <= k < no.len() implies (#[trigger] no[k]) < i + 1
                    && items@[no[k] as int].group_id@ == group_id@ by {
                    if k < p {
                        assert(no[k] == old_out[k]);
                    } else if k > p {
                        assert(no[k] == old_out[k - 1]);
                    }
                }
                assert forall|j: int| 0 <= j < i + 1 && items@[j].group_id@ == group_id@ implies no.contains(j as usize) by {
                    if j < i {
                        assert(old_out.contains(j as usize));
                        let k = choose|k: int| 0 <= k < old_out.len() && old_out[k] == j as usize;
                        if k < p {
                            assert(no[k] == j as usize);
                        } else {
                            assert(no[k + 1] == j as usize);
                        }
                    } else {
                        assert(no[p as int] == i);
                    }
                }
            }
        }
        i += 1;
    }
    out
}

/// A watch list saved by an old version as bare codes: each code becomes a
/// stock named by its code, with no market or sector.
pub fn legacy_watchlist(codes: &[String]) -> (r: Vec<Stock>)
    ensures
        r@.len() == codes@.len(),
        forall|i: int| 0 <= i < r@.len() ==> {
            &&& (#[trigger] r@[i]).code@ == codes@[i]@
            &&& r@[i].name@ == codes@[i]@
            &&& r@[i].market@.len() == 0
            &&& r@[i].sector@.len() == 0
            &&& !r@[i].is_hot
        },
{
    let mut out: Vec<Stock> = Vec::new();
    let mut i: usize = 0;
    while i < codes.len()
        invariant
            i <= codes.len(),
            out@.len() == i,
            forall|k: int| 0 <= k < i ==> {
                &&& (#[trigger] out@[k]).code@ == codes@[k]@
                &&& out@[k].name@ == codes@[k]@
                &&& out@[k].market@.len() == 0
                &&& out@[k].sector@.len() == 0
                &&& !out@[k].is_hot
            },
        decreases codes.len() - i,
    {
        let s = Stock {
            code: to_owned_string(codes[i].as_str()),
            name: to_owned_string(codes[i].as_str()),
            market: String::new(),
            sector: String::new(),
            is_hot: false,
        };
        out.push(s);
        i += 1;
    }
    out
}

} // verus!
