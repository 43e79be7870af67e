//! What kind of news drives a security, and the search it starts from.

use vstd::prelude::*;
use crate::cninfo::{normalize_code, six_digit_code};
use crate::models::Stock;
use crate::text::{contains, push_char, push_str, starts_with, str_contains, str_eq, str_starts_with, to_owned_string};

verus! {

/// The news profile of a security.
#[derive(Clone, Copy, Debug, PartialEq, Eq, Structural)]
pub enum MessageKind {
    /// A listed company in general.
    Corporate,
    /// Liquor and consumer goods.
    Consumer,
    /// Banks, insurers and brokers.
    Finance,
    /// Semiconductors, AI, new energy, solar, security, panels.
    Tech,
    /// Pharmaceuticals.
    Pharma,
    /// Non-ferrous metals (other than gold), power and other cycles.
    Cyclical,
    /// Gold miners and gold ETFs.
    Gold,
    /// Broad A-share index ETFs.
    BroadEtf,
    /// Sector-theme ETFs.
    ThemeEtf,
    /// Overseas index ETFs.
    OverseasEtf,
}

/// Named or coded as gold.
pub open spec fn is_gold_security(name: Seq<char>, code: Seq<char>) -> bool {
    ||| contains(name, "黄金"@)
    ||| code == "518880"@
    ||| code == "159934"@
    ||| code == "159937"@
    ||| code == "518800"@
    ||| code == "600547"@
}

/// An overseas index ETF by name or code.
pub open spec fn is_overseas_etf(name: Seq<char>, code: Seq<char>) -> bool {
    ||| contains(name, "纳指"@)
    ||| contains(name, "标普"@)
    ||| contains(name, "道指"@)
    ||| starts_with(code, "513"@)
}

/// A broad-index ETF by name.
pub open spec fn is_broad_etf_name(name: Seq<char>) -> bool {
    ||| contains(name, "沪深300"@)
    ||| contains(name, "中证500"@)
    ||| contains(name, "上证50"@)
    ||| contains(name, "上证指数"@)
    ||| contains(name, "上证综指"@)
    ||| contains(name, "创业板"@)
    ||| contains(name, "科创50"@)
    ||| contains(name, "红利"@)
}

/// The profile of a non-ETF security by sector.
pub open spec fn sector_kind(sector: Seq<char>) -> MessageKind {
    if sector == "白酒"@ || sector == "消费"@ || sector == "家电"@ {
        MessageKind::Consumer
    } else if sector == "银行"@ || sector == "保险"@ || sector == "证券"@ {
        MessageKind::Finance
    } else if sector == "半导体"@ || sector == "AI"@ || sector == "新能源"@ || sector == "光伏"@
        || sector == "安防"@ || sector == "面板"@ {
        MessageKind::Tech
    } else if sector == "医药"@ {
        MessageKind::Pharma
    } else if sector == "有色"@ || sector == "电力"@ {
        MessageKind::Cyclical
    } else if sector == "ETF"@ {
        MessageKind::BroadEtf
    } else {
        MessageKind::Corporate
    }
}

/// The news profile: gold first, then ETFs by what they track, then the
/// sector.
pub open spec fn classify_spec(name: Seq<char>, code: Seq<char>, sector: Seq<char>) -> MessageKind {
    if is_gold_security(name, code) {
        MessageKind::Gold
    } else if sector == "ETF"@ || contains(name, "ETF"@) {
        if is_overseas_etf(name, code) {
            MessageKind::OverseasEtf
        } else if is_broad_etf_name(name) {
            MessageKind::BroadEtf
        } else {
            MessageKind::ThemeEtf
        }
    } else {
        sector_kind(sector)
    }
}

fn gold_security(name: &str, code: &str) -> (r: bool)
    ensures
        r == is_gold_security(name@, code@),
{
    str_contains(name, "黄金") || str_eq(code, "518880") || str_eq(code, "159934") || str_eq(
        code,
        "159937",
    ) || str_eq(code, "518800") || str_eq(code, "600547")
}

fn overseas_etf(name: &str, code: &str) -> (r: bool)
    ensures
        r == is_overseas_etf(name@, code@),
{
    str_contains(name, "纳指") || str_contains(name, "标普") || str_contains(name, "道指")
        || str_starts_with(code, "513")
}

fn broad_etf_name(name: &str) -> (r: bool)
    ensures
        r == is_broad_etf_name(name@),
{
    str_contains(name, "沪深300") || str_contains(name, "中证500") || str_contains(name, "上证50")
        || str_contains(name, "上证指数") || str_contains(name, "上证综指") || str_contains(
        name,
        "创业板",
    ) || str_contains(name, "科创50") || str_contains(name, "红利")
}

fn kind_of_sector(sector: &str) -> (r: MessageKind)
    ensures
        r == sector_kind(sector@),
{
    if str_eq(sector, "白酒") || str_eq(sector, "消费") || str_eq(sector, "家电") {
        MessageKind::Consumer
    } else if str_eq(sector, "银行") || str_eq(sector, "保险") || str_eq(sector, "证券") {
        MessageKind::Finance
    } else if str_eq(sector, "半导体") || str_eq(sector, "AI") || str_eq(sector, "新能源") || str_eq(
        sector,
        "光伏",
    ) || str_eq(sector, "安防") || str_eq(sector, "面板") {
        MessageKind::Tech
    } else if str_eq(sector, "医药") {
        MessageKind::Pharma
    } else if str_eq(sector, "有色") || str_eq(sector, "电力") {
        MessageKind::Cyclical
    } else if str_eq(sector, "ETF") {
        MessageKind::BroadEtf
    } else {
        MessageKind::Corporate
    }
}

/// Classifies the news profile of a security, sector-theme ETFs included.
pub fn classify(stock: &Stock) -> (r: MessageKind)
    ensures
        r == classify_spec(stock.name@, stock.code@, stock.sector@),
{
    let name = stock.name.as_str();
    let sector = stock.sector.as_str();
    let code = stock.code.as_str();
    if gold_security(name, code) {
        return MessageKind::Gold;
    }
    if str_eq(sector, "ETF") || str_contains(name, "ETF") {
        if overseas_etf(name, code) {
            return MessageKind::OverseasEtf;
        }
        if str_contains(name, "黄金") {
            return MessageKind::Gold;
        }
        if broad_etf_name(name) {
            return MessageKind::BroadEtf;
        }
        return MessageKind::ThemeEtf;
    }
    kind_of_sector(sector)
}

/// The sector logic that a theme ETF follows, read from its name.
pub open spec fn theme_spec(name: Seq<char>) -> MessageKind {
    if contains(name, "证券"@) {
        MessageKind::Finance
    } else if contains(name, "半导体"@) || contains(name, "人工智能"@) || contains(name, "光伏"@) {
        MessageKind::Tech
    } else if contains(name, "医药"@) {
        MessageKind::Pharma
    } else if contains(name, "酒"@) {
        MessageKind::Consumer
    } else if contains(name, "煤炭"@) {
        MessageKind::Cyclical
    } else if contains(name, "黄金"@) {
        MessageKind::Gold
    } else {
        MessageKind::BroadEtf
    }
}

/// Maps a theme ETF's name onto the sector whose news drives it; anything
/// unrecognised is read like a broad-index ETF.
pub fn theme_from_etf_name(name: &str) -> (r: MessageKind)
    ensures
        r == theme_spec(name@),
{
    if str_contains(name, "证券") {
        MessageKind::Finance
    } else if str_contains(name, "半导体") || str_contains(name, "人工智能") || str_contains(name, "光伏") {
        MessageKind::Tech
    } else if str_contains(name, "医药") {
        MessageKind::Pharma
    } else if str_contains(name, "酒") {
        MessageKind::Consumer
    } else if str_contains(name, "煤炭") {
        MessageKind::Cyclical
    } else if str_contains(name, "黄金") {
        MessageKind::Gold
    } else {
        MessageKind::BroadEtf
    }
}

/// Two word lists, the second after the first.
pub fn merge_words(base: &[&'static str], extra: &[&'static str]) -> (r: Vec<&'static str>)
    ensures
        r@ == base@ + extra@,
{
    let mut v: Vec<&'static str> = Vec::new();
    let mut i: usize = 0;
    while i < base.len()
        invariant
            i <= base.len(),
            v@ == base@.take(i as int),
        decreases base.len() - i,
    {
        v.push(base[i]);
        assert(base@.take(i as int + 1) =~= base@.take(i as int).push(base@[i as int]));
        i += 1;
    }
    let mut j: usize = 0;
    while j < extra.len()
        invariant
            i == base.len(),
            j <= extra.len(),
            v@ == base@ + extra@.take(j as int),
        decreases extra.len() - j,
    {
        v.push(extra[j]);
        assert(extra@.take(j as int + 1) =~= extra@.take(j as int).push(extra@[j as int]));
        assert(base@ + extra@.take(j as int + 1) =~= (base@ + extra@.take(j as int)).push(extra@[j as int]));
        j += 1;
    }
    assert(base@.take(base.len() as int) =~= base@);
    assert(extra@.take(extra.len() as int) =~= extra@);
    v
}

/// The first news query of a security: its name and six-digit code
/// separated by a space, or the code alone when it has no name.
pub open spec fn primary_query_spec(name: Seq<char>, code: Seq<char>) -> Seq<char> {
    if name.len() == 0 {
        six_digit_code(code)
    } else {
        name + seq![' '] + six_digit_code(code)
    }
}

/// Builds the first news query of a security.
pub fn primary_search_query(stock: &Stock) -> (r: String)
    ensures
        r@ == primary_query_spec(stock.name@, stock.code@),
{
    let code = normalize_code(stock.code.as_str());
    if stock.name.as_str().unicode_len() == 0 {
        code
    } else {
        let mut q = to_owned_string(stock.name.as_str());
        push_char(&mut q, ' ');
        push_str(&mut q, code.as_str());
        q
    }
}


/// A security that is neither gold nor an ETF takes its news profile from
/// its sector: 白酒, 消费 and 家电 are consumer; 银行, 保险 and 证券 finance;
/// 半导体, AI, 新能源, 光伏, 安防 and 面板 tech; 医药 pharma; 有色 and 电力
/// cyclical.
pub proof fn law_sector_profiles(name: Seq<char>, code: Seq<char>, sector: Seq<char>)
    requires
        !is_gold_security(name, code),
        sector != "ETF"@,
        !contains(name, "ETF"@),
    ensures
        sector == "白酒"@ || sector == "消费"@ || sector == "家电"@ ==> classify_spec(name, code, sector)
            == MessageKind::Consumer,
        sector == "银行"@ || sector == "保险"@ || sector == "证券"@ ==> classify_spec(name, code, sector)
            == MessageKind::Finance,
        sector == "半导体"@ || sector == "AI"@ || sector == "新能源"@ || sector == "光伏"@ || sector == "安防"@
            || sector == "面板"@ ==> classify_spec(name, code, sector) == MessageKind::Tech,
        sector == "医药"@ ==> classify_spec(name, code, sector) == MessageKind::Pharma,
        sector == "有色"@ || sector == "电力"@ ==> classify_spec(name, code, sector) == MessageKind::Cyclical,
{
    reveal_strlit("白酒");
    reveal_strlit("消费");
    reveal_strlit("家电");
    reveal_strlit("银行");
    reveal_strlit("保险");
    reveal_strlit("证券");
    reveal_strlit("半导体");
    reveal_strlit("AI");
    reveal_strlit("新能源");
    reveal_strlit("光伏");
    reveal_strlit("安防");
    reveal_strlit("面板");
    reveal_strlit("医药");
    reveal_strlit("有色");
    reveal_strlit("电力");
    reveal_strlit("ETF");
    assert("白酒"@.len() > 0 && "白酒"@[0] == '白');
    assert("消费"@.len() > 0 && "消费"@[0] == '消');
    assert("家电"@.len() > 0 && "家电"@[0] == '家');
    assert("银行"@.len() > 0 && "银行"@[0] == '银');
    assert("保险"@.len() > 0 && "保险"@[0] == '保');
    assert("证券"@.len() > 0 && "证券"@[0] == '证');
    assert("半导体"@.len() > 0 && "半导体"@[0] == '半');
    assert("AI"@.len() > 0 && "AI"@[0] == 'A');
    assert("新能源"@.len() > 0 && "新能源"@[0] == '新');
    assert("光伏"@.len() > 0 && "光伏"@[0] == '光');
    assert("安防"@.len() > 0 && "安防"@[0] == '安');
    assert("面板"@.len() > 0 && "面板"@[0] == '面');
    assert("医药"@.len() > 0 && "医药"@[0] == '医');
    assert("有色"@.len() > 0 && "有色"@[0] == '有');
    assert("电力"@.len() > 0 && "电力"@[0] == '电');
    assert("ETF"@.len() > 0 && "ETF"@[0] == 'E');
    let ls = seq!["白酒"@, "消费"@, "家电"@, "银行"@, "保险"@, "证券"@, "半导体"@, "AI"@, "新能源"@, "光伏"@,
        "安防"@, "面板"@, "医药"@, "有色"@, "电力"@, "ETF"@];
    assert forall|a: int, b: int| 0 <= a < 16 && 0 <= b < 16 && a != b implies #[trigger] ls[a] != #[trigger] ls[b] by {
        if ls[a] == ls[b] {
            assert(ls[a][0] == ls[b][0]);
        }
    }
    assert(ls[0] == "白酒"@ && ls[1] == "消费"@ && ls[2] == "家电"@ && ls[3] == "银行"@ && ls[4] == "保险"@
        && ls[5] == "证券"@ && ls[6] == "半导体"@ && ls[7] == "AI"@ && ls[8] == "新能源"@ && ls[9] == "光伏"@
        && ls[10] == "安防"@ && ls[11] == "面板"@ && ls[12] == "医药"@ && ls[13] == "有色"@ && ls[14] == "电力"@
        && ls[15] == "ETF"@);
}

} // verus!
