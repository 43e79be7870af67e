//! The catalogue of signal sources that an ensemble can combine.

use vstd::prelude::*;
use crate::text::{str_eq, to_owned_string};

verus! {

/// One entry of the signal-source catalogue.
#[derive(Clone, Debug)]
pub struct StrategySourceInfo {
    pub id: String,
    pub name: String,
    pub category: String,
    pub description: String,
    /// Whether the source can take part in a historical back-test (it needs
    /// nothing beyond daily bars and archives).
    pub backtestable: bool,
    pub available: bool,
}

/// A catalogue entry as plain values.
pub open spec fn source_view(s: StrategySourceInfo) -> (Seq<char>, Seq<char>, Seq<char>, Seq<char>, bool, bool) {
    (s.id@, s.name@, s.category@, s.description@, s.backtestable, s.available)
}

/// The catalogue, in display order.
pub open spec fn catalog_rows() -> Seq<(Seq<char>, Seq<char>, Seq<char>, Seq<char>, bool, bool)> {
    seq![
        ("factor"@, "技术多因子"@, "技术面"@, "MA/RSI/动量/量能；宽基ETF自动切换为MA20+隔日反向模型。"@, true, true),
        ("momentum"@, "趋势动量"@, "技术面"@, "短中期动量；宽基ETF改为3日动量互补（不与多因子重复隔日反向）。"@, true, true),
        ("mean_reversion"@, "均值回归"@, "技术面"@, "偏离 MA20 / RSI 极端时的反转倾向。"@, true, true),
        ("volume"@, "量价确认"@, "技术面"@, "放量上涨 / 放量下跌 / 缩量整理判断。"@, true, true),
        ("message"@, "消息面"@, "舆情"@, "按股票类型选用关键词与打分（黄金看美联储/地缘，金融看降准息差，科技看制裁替代等）。"@, true, true),
        ("news"@, "资讯新闻"@, "舆情"@, "财经资讯标题情绪打分。"@, false, true),
        ("policy"@, "政策面"@, "宏观"@, "政策/监管/财政等相关新闻关键词情绪。"@, false, true),
        ("us_market"@, "美股联动"@, "宏观"@, "参考纳斯达克/标普隔夜涨跌作为风险偏好。"@, false, true),
        ("capital_flow"@, "资金流(主力)"@, "资金面"@, "优先大盘主力净流入；无 Token 时用两市成交额代理（免费可回测）；可回退北向净额。"@, true, true),
    ]
}

/// Look-back window, in trading days, of a composition that names none.
pub fn default_lookback() -> (r: u32)
    ensures
        r == 50,
{
    50
}

fn source_info(id: &str, name: &str, category: &str, description: &str, backtestable: bool, available: bool) -> (r: StrategySourceInfo)
    ensures
        source_view(r) == (id@, name@, category@, description@, backtestable, available),
{
    StrategySourceInfo {
        id: to_owned_string(id),
        name: to_owned_string(name),
        category: to_owned_string(category),
        description: to_owned_string(description),
        backtestable,
        available,
    }
}

/// The signal sources that a composition may enable, with their category
/// and whether they can be back-tested.
pub fn catalog() -> (r: Vec<StrategySourceInfo>)
    ensures
        r@.map_values(|s: StrategySourceInfo| source_view(s)) == catalog_rows(),
{
    let mut out: Vec<StrategySourceInfo> = Vec::new();
    out.push(source_info("factor", "技术多因子", "技术面", "MA/RSI/动量/量能；宽基ETF自动切换为MA20+隔日反向模型。", true, true));
    out.push(source_info("momentum", "趋势动量", "技术面", "短中期动量；宽基ETF改为3日动量互补（不与多因子重复隔日反向）。", true, true));
    out.push(source_info("mean_reversion", "均值回归", "技术面", "偏离 MA20 / RSI 极端时的反转倾向。", true, true));
    out.push(source_info("volume", "量价确认", "技术面", "放量上涨 / 放量下跌 / 缩量整理判断。", true, true));
    out.push(source_info("message", "消息面", "舆情", "按股票类型选用关键词与打分（黄金看美联储/地缘，金融看降准息差，科技看制裁替代等）。", true, true));
    out.push(source_info("news", "资讯新闻", "舆情", "财经资讯标题情绪打分。", false, true));
    out.push(source_info("policy", "政策面", "宏观", "政策/监管/财政等相关新闻关键词情绪。", false, true));
    out.push(source_info("us_market", "美股联动", "宏观", "参考纳斯达克/标普隔夜涨跌作为风险偏好。", false, true));
    out.push(source_info("capital_flow", "资金流(主力)", "资金面", "优先大盘主力净流入；无 Token 时用两市成交额代理（免费可回测）；可回退北向净额。", true, true));
    assert(out@.map_values(|s: StrategySourceInfo| source_view(s)) =~= catalog_rows());
    out
}

/// Where an entry of a normalised composition comes from: the caller's
/// entry at that index, or the default entry of the catalogue source at
/// that index.
#[derive(Clone, Copy, Debug, PartialEq, Eq, Structural)]
pub enum ComposeSlot {
    Existing(usize),
    Added(usize),
}

/// The ids of the catalogue, in order.
pub open spec fn catalog_ids() -> Seq<Seq<char>> {
    catalog_rows().map_values(|r: (Seq<char>, Seq<char>, Seq<char>, Seq<char>, bool, bool)| r.0)
}

/// The caller's entries whose id is in the catalogue, in order.
pub open spec fn known_slots(ids: Seq<Seq<char>>) -> Seq<ComposeSlot>
    decreases ids.len(),
{
    if ids.len() == 0 {
        Seq::empty()
    } else {
        let prev = known_slots(ids.drop_last());
        if catalog_ids().contains(ids.last()) {
            prev.push(ComposeSlot::Existing((ids.len() - 1) as usize))
        } else {
            prev
        }
    }
}

/// The catalogue sources, among the first `n`, that the caller's entries
/// lack, in catalogue order.
pub open spec fn added_slots(ids: Seq<Seq<char>>, n: nat) -> Seq<ComposeSlot>
    decreases n,
{
    if n == 0 {
        Seq::empty()
    } else {
        let prev = added_slots(ids, (n - 1) as nat);
        if ids.contains(catalog_ids()[n - 1]) {
            prev
        } else {
            prev.push(ComposeSlot::Added((n - 1) as usize))
        }
    }
}

fn id_listed(ids: &[String], id: &String) -> (r: bool)
    ensures
        r == ids@.map_values(|s: String| s@).contains(id@),
{
    let ghost iv = ids@.map_values(|s: String| s@);
    let mut i: usize = 0;
    while i < ids.len()
        invariant
            i <= ids.len(),
            iv == ids@.map_values(|s: String| s@),
            forall|k: int| 0 <= k < i ==> iv[k] != id@,
        decreases ids.len() - i,
    {
        if str_eq(ids[i].as_str(), id.as_str()) {
            assert(iv[i as int] == id@);
            return true;
        }
        i += 1;
    }
    false
}

/// How a composition's sources are normalised: the caller's entries whose
/// source is in the catalogue stay, in order, and every catalogue source
/// they lack is added after them, in catalogue order.
pub fn compose_plan(ids: &[String]) -> (r: Vec<ComposeSlot>)
    ensures
        r@ == known_slots(ids@.map_values(|s: String| s@)) + added_slots(
            ids@.map_values(|s: String| s@),
            catalog_rows().len(),
        ),
{
    let ghost iv = ids@.map_values(|s: String| s@);
    let cat = catalog();
    let ghost cv = cat@.map_values(|x: StrategySourceInfo| x.id@);
    assert(cv =~= catalog_ids()) by {
        assert forall|k: int| 0 <= k < cv.len() implies cv[k] == catalog_ids()[k] by {
            assert(source_view(cat@[k]) == catalog_rows()[k]);
        }
    }
    let mut out: Vec<ComposeSlot> = Vec::new();
    let mut i: usize = 0;
    while i < ids.len()
        invariant
            i <= ids.len(),
            iv == ids@.map_values(|s: String| s@),
            cv == catalog_ids(),
            cv == cat@.map_values(|x: StrategySourceInfo| x.id@),
            out@ == known_slots(iv.take(i as int)),
        decreases ids.len() - i,
    {
        assert(iv.take(i as int + 1).drop_last() =~= iv.take(i as int));
        assert(iv.take(i as int + 1).last() == ids@[i as int]@);
        if id_listed_in_catalog(&cat, &ids[i]) {
            out.push(ComposeSlot::Existing(i));
        }
        i += 1;
    }
    assert(iv.take(ids.len() as int) =~= iv);
    let ghost known = out@;
    let mut c: usize = 0;
    while c < cat.len()
        invariant
            c <= cat.len(),
            iv == ids@.map_values(|s: String| s@),
            cv == catalog_ids(),
            cv == cat@.map_values(|x: StrategySourceInfo| x.id@),
            known == known_slots(iv),
            out@ == known + added_slots(iv, c as nat),
        decreases cat.len() - c,
    {
        assert(cv[c as int] == cat@[c as int].id@);
        if !id_listed(ids, &cat[c].id) {
            out.push(ComposeSlot::Added(c));
            assert(out@ =~= known + added_slots(iv, (c + 1) as nat));
        } else {
            assert(out@ =~= known + added_slots(iv, (c + 1) as nat));
        }
        c += 1;
    }
    out
}

fn id_listed_in_catalog(cat: &Vec<StrategySourceInfo>, id: &String) -> (r: bool)
    ensures
        r == cat@.map_values(|x: StrategySourceInfo| x.id@).contains(id@),
{
    let ghost cv = cat@.map_values(|x: StrategySourceInfo| x.id@);
    let mut i: usize = 0;
    while i < cat.len()
        invariant
            i <= cat.len(),
            cv == cat@.map_values(|x: StrategySourceInfo| x.id@),
            forall|k: int| 0 <= k < i ==> cv[k] != id@,
        decreases cat.len() - i,
    {
        if str_eq(cat[i].id.as_str(), id.as_str()) {
            assert(cv[i as int] == id@);
            return true;
        }
        i += 1;
    }
    false
}

proof fn lemma_known_slot(ids: Seq<Seq<char>>, i: int)
    requires
        0 <= i < ids.len(),
        catalog_ids().contains(ids[i]),
    ensures
        known_slots(ids).contains(ComposeSlot::Existing(i as usize)),
    decreases ids.len(),
{
    let prev = known_slots(ids.drop_last());
    if i < ids.len() - 1 {
        assert(ids.drop_last()[i] == ids[i]);
        lemma_known_slot(ids.drop_last(), i);
        let k = choose|k: int| 0 <= k < prev.len() && prev[k] == ComposeSlot::Existing(i as usize);
        assert(known_slots(ids)[k] == ComposeSlot::Existing(i as usize));
    } else {
        assert(known_slots(ids) == prev.push(ComposeSlot::Existing(i as usize)));
        assert(known_slots(ids)[prev.len() as int] == ComposeSlot::Existing(i as usize));
    }
}

proof fn lemma_added_slot(ids: Seq<Seq<char>>, n: nat, c: int)
    requires
        0 <= c < n,
        !ids.contains(catalog_ids()[c]),
    ensures
        added_slots(ids, n).contains(ComposeSlot::Added(c as usize)),
    decreases n,
{
    let prev = added_slots(ids, (n - 1) as nat);
    if c < n - 1 {
        lemma_added_slot(ids, (n - 1) as nat, c);
        let k = choose|k: int| 0 <= k < prev.len() && prev[k] == ComposeSlot::Added(c as usize);
        if ids.contains(catalog_ids()[n - 1]) {
        } else {
            assert(added_slots(ids, n)[k] == ComposeSlot::Added(c as usize));
        }
    } else {
        assert(added_slots(ids, n) == prev.push(ComposeSlot::Added(c as usize)));
        assert(added_slots(ids, n)[prev.len() as int] == ComposeSlot::Added(c as usize));
    }
}

/// After normalisation every catalogue source is present: kept from the
/// caller's entries when they name it, added otherwise.
pub proof fn law_plan_covers_catalog(ids: Seq<Seq<char>>, c: int)
    requires
        0 <= c < catalog_rows().len(),
    ensures
        ids.contains(catalog_ids()[c]) ==> exists|i: int|
            0 <= i < ids.len() && ids[i] == catalog_ids()[c] && known_slots(ids).contains(
                ComposeSlot::Existing(i as usize),
            ),
        !ids.contains(catalog_ids()[c]) ==> added_slots(ids, catalog_rows().len()).contains(
            ComposeSlot::Added(c as usize),
        ),
{
    if ids.contains(catalog_ids()[c]) {
        let i = choose|i: int| 0 <= i < ids.len() && ids[i] == catalog_ids()[c];
        assert(catalog_ids()[c] == catalog_ids()[c]);
        assert(catalog_ids().contains(ids[i]));
        lemma_known_slot(ids, i);
    } else {
        lemma_added_slot(ids, catalog_rows().len(), c);
    }
}

/// The id that a slot of a normalisation plan stands for.
pub open spec fn slot_id(ids: Seq<Seq<char>>, s: ComposeSlot) -> Seq<char> {
    match s {
        ComposeSlot::Existing(i) => ids[i as int],
        ComposeSlot::Added(c) => catalog_ids()[c as int],
    }
}

/// The source ids of a normalised composition, in order.
pub open spec fn plan_ids(ids: Seq<Seq<char>>) -> Seq<Seq<char>> {
    (known_slots(ids) + added_slots(ids, catalog_rows().len())).map_values(
        |s: ComposeSlot| slot_id(ids, s),
    )
}

spec fn slot_pos(s: ComposeSlot) -> int {
    match s {
        ComposeSlot::Existing(i) => i as int,
        ComposeSlot::Added(c) => c as int,
    }
}

proof fn lemma_known_shape(ids: Seq<Seq<char>>)
    requires
        ids.len() <= usize::MAX,
    ensures
        known_slots(ids).len() <= ids.len(),
        forall|k: int|
            0 <= k < known_slots(ids).len() ==> {
                let s = #[trigger] known_slots(ids)[k];
                &&& s is Existing
                &&& 0 <= slot_pos(s) < ids.len()
                &&& catalog_ids().contains(ids[slot_pos(s)])
            },
        forall|k1: int, k2: int|
            0 <= k1 < k2 < known_slots(ids).len() ==> slot_pos(known_slots(ids)[k1]) < slot_pos(
                known_slots(ids)[k2],
            ),
    decreases ids.len(),
{
    if ids.len() > 0 {
        let rest = ids.drop_last();
        lemma_known_shape(rest);
        let prev = known_slots(rest);
        assert forall|k: int| 0 <= k < prev.len() implies ids[slot_pos(prev[k])] == rest[slot_pos(
            prev[k],
        )] by {}
    }
}

proof fn lemma_added_shape(ids: Seq<Seq<char>>, n: nat)
    requires
        n <= catalog_rows().len(),
    ensures
        added_slots(ids, n).len() <= n,
        forall|k: int|
            0 <= k < added_slots(ids, n).len() ==> {
                let s = #[trigger] added_slots(ids, n)[k];
                &&& s is Added
                &&& 0 <= slot_pos(s) < n
                &&& !ids.contains(catalog_ids()[slot_pos(s)])
            },
        forall|k1: int, k2: int|
            0 <= k1 < k2 < added_slots(ids, n).len() ==> slot_pos(added_slots(ids, n)[k1])
                < slot_pos(added_slots(ids, n)[k2]),
    decreases n,
{
    if n > 0 {
        lemma_added_shape(ids, (n - 1) as nat);
    }
}

proof fn lemma_catalog_ids_distinct()
    ensures
        catalog_ids().no_duplicates(),
        catalog_ids().len() == catalog_rows().len(),
{
    reveal_strlit("factor");
    reveal_strlit("momentum");
    reveal_strlit("mean_reversion");
    reveal_strlit("volume");
    reveal_strlit("message");
    reveal_strlit("news");
    reveal_strlit("policy");
    reveal_strlit("us_market");
    reveal_strlit("capital_flow");
    let ids = seq![
        "factor"@, "momentum"@, "mean_reversion"@, "volume"@, "message"@, "news"@, "policy"@,
        "us_market"@, "capital_flow"@,
    ];
    assert(catalog_ids() =~= ids);
    let lens = seq![6int, 8, 14, 6, 7, 4, 6, 9, 12];
    let heads = seq!['f', 'm', 'm', 'v', 'm', 'n', 'p', 'u', 'c'];
    assert forall|k: int| 0 <= k < 9 implies #[trigger] ids[k].len() == lens[k] && ids[k][0]
        == heads[k] by {}
    assert forall|a: int, b: int| 0 <= a < 9 && 0 <= b < 9 && a != b implies ids[a] != ids[b] by {
        if ids[a] == ids[b] {
            assert(ids[a].len() == ids[b].len());
            assert(ids[a][0] == ids[b][0]);
        }
    }
}

proof fn lemma_plan_within_catalog(ids: Seq<Seq<char>>)
    requires
        ids.len() <= usize::MAX,
    ensures
        plan_ids(ids).len() <= ids.len() + catalog_rows().len(),
        forall|j: int| 0 <= j < plan_ids(ids).len() ==> catalog_ids().contains(#[trigger] plan_ids(ids)[j]),
        forall|c: int| 0 <= c < catalog_rows().len() ==> plan_ids(ids).contains(#[trigger] catalog_ids()[c]),
{
    let known = known_slots(ids);
    let added = added_slots(ids, catalog_rows().len());
    let plan = known + added;
    lemma_known_shape(ids);
    lemma_added_shape(ids, catalog_rows().len());
    assert forall|j: int| 0 <= j < plan_ids(ids).len() implies catalog_ids().contains(
        #[trigger] plan_ids(ids)[j],
    ) by {
        if j < known.len() {
            assert(plan[j] == known[j]);
        } else {
            assert(plan[j] == added[j - known.len()]);
            let c = slot_pos(added[j - known.len()]);
            assert(catalog_ids()[c] == plan_ids(ids)[j]);
        }
    }
    assert forall|c: int| 0 <= c < catalog_rows().len() implies plan_ids(ids).contains(
        #[trigger] catalog_ids()[c],
    ) by {
        law_plan_covers_catalog(ids, c);
        if ids.contains(catalog_ids()[c]) {
            let i = choose|i: int|
                0 <= i < ids.len() && ids[i] == catalog_ids()[c] && known.contains(
                    ComposeSlot::Existing(i as usize),
                );
            let k = choose|k: int| 0 <= k < known.len() && known[k] == ComposeSlot::Existing(i as usize);
            assert(plan[k] == known[k]);
            assert(plan_ids(ids)[k] == catalog_ids()[c]);
        } else {
            let k = choose|k: int| 0 <= k < added.len() && added[k] == ComposeSlot::Added(c as usize);
            assert(plan[known.len() + k] == added[k]);
            assert(plan_ids(ids)[known.len() + k] == catalog_ids()[c]);
        }
    }
}

/// Normalising a composition whose source ids are pairwise distinct yields
/// every catalogue source exactly once: its ids are a permutation of the
/// catalogue's.
pub proof fn law_compose_plan_permutes_catalog(ids: Seq<Seq<char>>)
    requires
        ids.no_duplicates(),
        ids.len() <= usize::MAX,
    ensures
        plan_ids(ids).no_duplicates(),
        plan_ids(ids).to_set() == catalog_ids().to_set(),
        plan_ids(ids).len() == catalog_ids().len(),
{
    let known = known_slots(ids);
    let added = added_slots(ids, catalog_rows().len());
    let plan = known + added;
    let out = plan_ids(ids);
    lemma_known_shape(ids);
    lemma_added_shape(ids, catalog_rows().len());
    lemma_catalog_ids_distinct();
    lemma_plan_within_catalog(ids);
    assert forall|j1: int, j2: int| 0 <= j1 < out.len() && 0 <= j2 < out.len() && j1 != j2 implies out[j1]
        != out[j2] by {
        let (a, b) = if j1 < j2 { (j1, j2) } else { (j2, j1) };
        if b < known.len() {
            assert(plan[a] == known[a] && plan[b] == known[b]);
        } else if a >= known.len() {
            assert(plan[a] == added[a - known.len()] && plan[b] == added[b - known.len()]);
        } else {
            assert(plan[a] == known[a] && plan[b] == added[b - known.len()]);
            assert(ids.contains(out[a]));
        }
    }
    assert(out.to_set() =~= catalog_ids().to_set()) by {
        assert forall|x: Seq<char>| out.to_set().contains(x) implies catalog_ids().to_set().contains(x) by {
            let j = choose|j: int| 0 <= j < out.len() && out[j] == x;
            assert(catalog_ids().contains(out[j]));
        }
        assert forall|x: Seq<char>| catalog_ids().to_set().contains(x) implies out.to_set().contains(x) by {
            let c = choose|c: int| 0 <= c < catalog_ids().len() && catalog_ids()[c] == x;
            assert(out.contains(catalog_ids()[c]));
        }
    }
    out.unique_seq_to_set();
    catalog_ids().unique_seq_to_set();
}

proof fn lemma_all_known(s: Seq<Seq<char>>)
    requires
        s.len() <= usize::MAX,
        forall|j: int| 0 <= j < s.len() ==> catalog_ids().contains(#[trigger] s[j]),
    ensures
        known_slots(s) == Seq::new(s.len(), |i: int| ComposeSlot::Existing(i as usize)),
    decreases s.len(),
{
    if s.len() > 0 {
        let rest = s.drop_last();
        assert forall|j: int| 0 <= j < rest.len() implies catalog_ids().contains(#[trigger] rest[j]) by {
            assert(rest[j] == s[j]);
        }
        lemma_all_known(rest);
        assert(catalog_ids().contains(s[s.len() - 1]));
        assert(known_slots(s) =~= Seq::new(s.len(), |i: int| ComposeSlot::Existing(i as usize)));
    }
}

proof fn lemma_none_added(s: Seq<Seq<char>>, n: nat)
    requires
        n <= catalog_rows().len(),
        forall|c: int| 0 <= c < n ==> s.contains(#[trigger] catalog_ids()[c]),
    ensures
        added_slots(s, n) == Seq::<ComposeSlot>::empty(),
    decreases n,
{
    if n > 0 {
        lemma_none_added(s, (n - 1) as nat);
        assert(s.contains(catalog_ids()[n - 1]));
    }
}

/// Normalisation is idempotent: planning an already planned composition
/// (what `compose_plan` states for it) keeps every entry in place, in
/// order, and adds none; its ids are the same.
pub proof fn law_compose_plan_idempotent(ids: Seq<Seq<char>>)
    requires
        ids.len() + catalog_rows().len() <= usize::MAX,
    ensures
        known_slots(plan_ids(ids)) + added_slots(plan_ids(ids), catalog_rows().len()) == Seq::new(
            plan_ids(ids).len(),
            |i: int| ComposeSlot::Existing(i as usize),
        ),
        known_slots(plan_ids(ids)) == Seq::new(
            plan_ids(ids).len(),
            |i: int| ComposeSlot::Existing(i as usize),
        ),
        added_slots(plan_ids(ids), catalog_rows().len()) == Seq::<ComposeSlot>::empty(),
        plan_ids(plan_ids(ids)) == plan_ids(ids),
{
    let out = plan_ids(ids);
    lemma_plan_within_catalog(ids);
    lemma_all_known(out);
    lemma_none_added(out, catalog_rows().len());
    let again = known_slots(out) + added_slots(out, catalog_rows().len());
    assert(again =~= known_slots(out));
    assert(again =~= Seq::new(out.len(), |i: int| ComposeSlot::Existing(i as usize)));
    assert(plan_ids(out) =~= out);
}

/// A source computed from daily bars alone.
pub open spec fn is_bar_source(id: Seq<char>) -> bool {
    id == "factor"@ || id == "momentum"@ || id == "mean_reversion"@ || id == "volume"@
}

/// A source read from an archive as of a date.
pub open spec fn is_archive_source(id: Seq<char>) -> bool {
    id == "message"@ || id == "capital_flow"@
}

/// The entries a historical evaluation runs, in order: active entries of
/// back-testable sources, the archive-based ones only when the evaluation
/// has a date.
pub open spec fn historical_spec(ids: Seq<Seq<char>>, active: Seq<bool>, has_date: bool) -> Seq<usize>
    decreases ids.len(),
{
    if ids.len() == 0 || active.len() != ids.len() {
        Seq::empty()
    } else {
        let prev = historical_spec(ids.drop_last(), active.drop_last(), has_date);
        let id = ids.last();
        if active.last() && (is_bar_source(id) || (is_archive_source(id) && has_date)) {
            prev.push((ids.len() - 1) as usize)
        } else {
            prev
        }
    }
}

fn bar_source(id: &str) -> (r: bool)
    ensures
        r == is_bar_source(id@),
{
    str_eq(id, "factor") || str_eq(id, "momentum") || str_eq(id, "mean_reversion") || str_eq(id, "volume")
}

fn archive_source(id: &str) -> (r: bool)
    ensures
        r == is_archive_source(id@),
{
    str_eq(id, "message") || str_eq(id, "capital_flow")
}

/// Picks the entries of a normalised composition that a historical
/// evaluation runs; `active[i]` tells whether entry `i` is enabled with a
/// positive weight.
pub fn historical_sources(ids: &[String], active: &[bool], has_date: bool) -> (r: Vec<usize>)
    requires
        ids.len() == active.len(),
    ensures
        r@ == historical_spec(ids@.map_values(|s: String| s@), active@, has_date),
{
    let ghost iv = ids@.map_values(|s: String| s@);
    let mut out: Vec<usize> = Vec::new();
    let mut i: usize = 0;
    while i < ids.len()
        invariant
            i <= ids.len(),
            ids.len() == active.len(),
            iv == ids@.map_values(|s: String| s@),
            out@ == historical_spec(iv.take(i as int), active@.take(i as int), has_date),
        decreases ids.len() - i,
    {
        assert(iv.take(i as int + 1).drop_last() =~= iv.take(i as int));
        assert(active@.take(i as int + 1).drop_last() =~= active@.take(i as int));
        assert(iv.take(i as int + 1).last() == ids@[i as int]@);
        let id = ids[i].as_str();
        if active[i] && (bar_source(id) || (archive_source(id) && has_date)) {
            out.push(i);
        }
        i += 1;
    }
    assert(iv.take(ids.len() as int) =~= iv);
    assert(active@.take(ids.len() as int) =~= active@);
    out
}

/// Some active entry is of source `target`.
pub open spec fn needs_source_spec(ids: Seq<Seq<char>>, active: Seq<bool>, target: Seq<char>) -> bool {
    exists|i: int| 0 <= i < ids.len() && i < active.len() && active[i] && ids[i] == target
}

/// Whether a normalised composition needs a source (the announcement
/// archive for `message`, the capital-flow archive for `capital_flow`).
pub fn compose_needs(ids: &[String], active: &[bool], target: &str) -> (r: bool)
    requires
        ids.len() == active.len(),
    ensures
        r == needs_source_spec(ids@.map_values(|s: String| s@), active@, target@),
{
    let ghost iv = ids@.map_values(|s: String| s@);
    let mut i: usize = 0;
    while i < ids.len()
        invariant
            i <= ids.len(),
            ids.len() == active.len(),
            iv == ids@.map_values(|s: String| s@),
            forall|k: int| 0 <= k < i ==> !(active@[k] && iv[k] == target@),
        decreases ids.len() - i,
    {
        if active[i] && str_eq(ids[i].as_str(), target) {
            assert(iv[i as int] == target@);
            return true;
        }
        i += 1;
    }
    false
}

/// A source a batch screen leaves off: the live-only ones and those that
/// need an archive.
pub open spec fn is_screen_excluded(id: Seq<char>) -> bool {
    id == "news"@ || id == "policy"@ || id == "us_market"@ || id == "message"@ || id == "capital_flow"@
}

/// The enabled flags a batch screen runs a composition with: every entry
/// keeps its flag unless its source is left off; `None` when no technical
/// source stays enabled with a positive weight (the screen then falls back
/// to its default composition).
pub open spec fn screen_flags_spec(ids: Seq<Seq<char>>, enabled: Seq<bool>, positive: Seq<bool>) -> Option<Seq<bool>> {
    let flags = Seq::new(ids.len(), |i: int| enabled[i] && !is_screen_excluded(ids[i]));
    if exists|i: int| 0 <= i < ids.len() && #[trigger] flags[i] && positive[i] && is_bar_source(ids[i]) {
        Some(flags)
    } else {
        None
    }
}

fn screen_excluded(id: &str) -> (r: bool)
    ensures
        r == is_screen_excluded(id@),
{
    str_eq(id, "news") || str_eq(id, "policy") || str_eq(id, "us_market") || str_eq(id, "message")
        || str_eq(id, "capital_flow")
}

/// Decides how a batch screen runs a normalised composition; `positive[i]`
/// tells whether entry `i` has a positive weight.
pub fn screen_source_flags(ids: &[String], enabled: &[bool], positive: &[bool]) -> (r: Option<Vec<bool>>)
    requires
        ids.len() == enabled.len(),
        ids.len() == positive.len(),
    ensures
        match r {
            Some(v) => screen_flags_spec(ids@.map_values(|s: String| s@), enabled@, positive@) == Some(v@),
            None => screen_flags_spec(ids@.map_values(|s: String| s@), enabled@, positive@) is None,
        },
{
    let ghost iv = ids@.map_values(|s: String| s@);
    let ghost flags = Seq::new(iv.len(), |i: int| enabled@[i] && !is_screen_excluded(iv[i]));
    let mut out: Vec<bool> = Vec::new();
    let mut any_tech = false;
    let mut i: usize = 0;
    while i < ids.len()
        invariant
            i <= ids.len(),
            ids.len() == enabled.len(),
            ids.len() == positive.len(),
            iv == ids@.map_values(|s: String| s@),
            flags == Seq::new(iv.len(), |i: int| enabled@[i] && !is_screen_excluded(iv[i])),
            out@ == flags.take(i as int),
            any_tech == exists|k: int| 0 <= k < i && #[trigger] flags[k] && positive@[k] && is_bar_source(iv[k]),
        decreases ids.len() - i,
    {
        let id = ids[i].as_str();
        let keep = enabled[i] && !screen_excluded(id);
        assert(keep == flags[i as int]);
        if keep && positive[i] && bar_source(id) {
            any_tech = true;
        }
        out.push(keep);
        assert(out@ =~= flags.take(i as int + 1));
        i += 1;
    }
    assert(out@ =~= flags);
    if any_tech {
        Some(out)
    } else {
        None
    }
}

/// A batch screen never runs a live-only or archive source, and keeps the
/// flag of every technical source as the composition sets it.
pub proof fn law_screen_runs_no_live_source(ids: Seq<Seq<char>>, enabled: Seq<bool>, positive: Seq<bool>)
    requires
        ids.len() == enabled.len(),
        ids.len() == positive.len(),
    ensures
        screen_flags_spec(ids, enabled, positive) matches Some(f) ==> forall|i: int|
            0 <= i < ids.len() ==> (f[i] ==> !is_screen_excluded(#[trigger] ids[i])) && (is_bar_source(ids[i])
                ==> f[i] == enabled[i]),
{
    assert forall|id: Seq<char>| is_bar_source(id) implies !is_screen_excluded(id) by {
        lemma_bar_source_kept(id);
    }
}

proof fn lemma_bar_source_kept(id: Seq<char>)
    requires
        is_bar_source(id),
    ensures
        !is_screen_excluded(id),
{
    reveal_strlit("factor");
    reveal_strlit("momentum");
    reveal_strlit("mean_reversion");
    reveal_strlit("volume");
    reveal_strlit("news");
    reveal_strlit("policy");
    reveal_strlit("us_market");
    reveal_strlit("message");
    reveal_strlit("capital_flow");
    assert("factor"@.len() == 6 && "volume"@.len() == 6 && "momentum"@.len() == 8);
    assert("mean_reversion"@.len() == 14 && "news"@.len() == 4 && "policy"@.len() == 6);
    assert("us_market"@.len() == 9 && "message"@.len() == 7 && "capital_flow"@.len() == 12);
    assert("policy"@[0] == 'p' && "factor"@[0] == 'f' && "volume"@[0] == 'v');
}

proof fn lemma_historical_members(ids: Seq<Seq<char>>, active: Seq<bool>, has_date: bool, k: int)
    requires
        0 <= k < historical_spec(ids, active, has_date).len(),
        ids.len() <= usize::MAX,
    ensures
        ({
            let i = historical_spec(ids, active, has_date)[k] as int;
            &&& 0 <= i < ids.len()
            &&& active[i]
            &&& (is_bar_source(ids[i]) || (is_archive_source(ids[i]) && has_date))
        }),
    decreases ids.len(),
{
    let prev = historical_spec(ids.drop_last(), active.drop_last(), has_date);
    if k < prev.len() {
        lemma_historical_members(ids.drop_last(), active.drop_last(), has_date, k);
        let i = prev[k] as int;
        assert(ids.drop_last()[i] == ids[i]);
        assert(active.drop_last()[i] == active[i]);
    }
}

/// A historical evaluation only runs sources that the catalogue marks as
/// back-testable, and archive-based ones only as of a date.
pub proof fn law_historical_only_backtestable(ids: Seq<Seq<char>>, active: Seq<bool>, has_date: bool, k: int)
    requires
        0 <= k < historical_spec(ids, active, has_date).len(),
        ids.len() <= usize::MAX,
    ensures
        ({
            let i = historical_spec(ids, active, has_date)[k] as int;
            &&& active[i]
            &&& exists|c: int| 0 <= c < catalog_rows().len() && (#[trigger] catalog_rows()[c]).0 == ids[i] && catalog_rows()[c].4
            &&& (is_archive_source(ids[i]) ==> has_date)
        }),
{
    lemma_historical_members(ids, active, has_date, k);
    let i = historical_spec(ids, active, has_date)[k] as int;
    let id = ids[i];
    let rows = catalog_rows();
    if id == "factor"@ {
        assert(rows[0].0 == id && rows[0].4);
    } else if id == "momentum"@ {
        assert(rows[1].0 == id && rows[1].4);
    } else if id == "mean_reversion"@ {
        assert(rows[2].0 == id && rows[2].4);
    } else if id == "volume"@ {
        assert(rows[3].0 == id && rows[3].4);
    } else if id == "message"@ {
        assert(rows[4].0 == id && rows[4].4);
    } else {
        assert(rows[8].0 == id && rows[8].4);
    }
    reveal_strlit("factor");
    reveal_strlit("momentum");
    reveal_strlit("mean_reversion");
    reveal_strlit("volume");
    reveal_strlit("message");
    reveal_strlit("capital_flow");
    assert("message"@.len() == 7 && "capital_flow"@.len() == 12);
    assert("factor"@.len() == 6 && "momentum"@.len() == 8 && "mean_reversion"@.len() == 14 && "volume"@.len() == 6);
    assert("factor"@[0] == 'f' && "volume"@[0] == 'v');
}

} // verus!
