//! Where the user's data lives: the choice of the data directory and the
//! names of the files under it.

use vstd::prelude::*;
use crate::text::{to_chars, to_owned_string, trim, trim_str};

verus! {

/// Directory of caches, under the data directory.
pub const CACHE_DIR_NAME: &'static str = "cache";
/// Directory of store backups, under the data directory.
pub const BACKUPS_DIR_NAME: &'static str = "backups";
/// The user's SQLite store, under the data directory.
pub const USER_DB_FILE: &'static str = "user_data.sqlite";
/// The saved Tushare token, under the data directory.
pub const TOKEN_FILE: &'static str = "tushare_token.txt";
/// The market fund-flow cache, under the cache directory.
pub const FUND_FLOW_CACHE_FILE: &'static str = "market_fund_flow.json";

/// The data directory: the `STOCK_PREDICT_DATA` value when it holds more
/// than blanks (trimmed), else the directory the application was given,
/// else the legacy directory.
pub open spec fn data_dir_spec(env_value: Option<Seq<char>>, injected: Option<Seq<char>>, legacy: Seq<char>) -> Seq<char> {
    match env_value {
        Some(p) if trim(p).len() > 0 => trim(p),
        _ => match injected {
            Some(d) => d,
            None => legacy,
        },
    }
}

/// An optional string slice as plain characters.
pub open spec fn opt_view(s: Option<&str>) -> Option<Seq<char>> {
    match s {
        Some(x) => Some(x@),
        None => None,
    }
}

/// Chooses the data directory.
pub fn resolve_data_dir(env_value: Option<&str>, injected: Option<&str>, legacy: &str) -> (r: String)
    ensures
        r@ == data_dir_spec(opt_view(env_value), opt_view(injected), legacy@),
{
    if let Some(p) = env_value {
        let t = trim_str(p);
        if to_chars(t.as_str()).len() > 0 {
            return t;
        }
    }
    match injected {
        Some(d) => to_owned_string(d),
        None => to_owned_string(legacy),
    }
}

} // verus!
