//! The news vocabulary of each kind of security: words read as good or bad
//! news, and the extra searches run for it.

use vstd::prelude::*;
use crate::models::Stock;
use crate::sentiment::{classify, classify_spec, merge_words, primary_query_spec, primary_search_query, theme_from_etf_name, theme_spec, MessageKind};
use crate::text::{str_eq, to_owned_string};

verus! {

/// Word lists as plain values.
pub open spec fn words_view(v: Seq<&'static str>) -> Seq<Seq<char>> {
    v.map_values(|w: &'static str| w@)
}

/// Good news of a listed company in general.
pub open spec fn corp_bull_words() -> Seq<Seq<char>> {
    seq!["增长"@, "回购"@, "中标"@, "利好"@, "上涨"@, "突破"@, "签约"@, "盈利"@, "增持"@, "预增"@, "扭亏"@, "获得"@, "通过"@, "批准"@, "超预期"@, "高增"@, "景气"@, "扩产"@, "投产"@, "量产"@, "订单"@, "合作"@, "收购"@, "战略"@, "独家"@, "专利"@, "授权"@, "落地"@, "复牌"@, "摘帽"@, "注入"@, "业绩预喜"@, "同比增"@, "环比增"@, "创新高"@, "大涨"@, "涨停"@, "反弹"@, "走强"@, "净流入"@, "加仓"@, "超配"@]
}

/// Good news of a listed company in general.
pub fn corp_bull() -> (r: Vec<&'static str>)
    ensures
        words_view(r@) == corp_bull_words(),
{
    let v: Vec<&'static str> = vec!["增长", "回购", "中标", "利好", "上涨", "突破", "签约", "盈利", "增持", "预增", "扭亏", "获得", "通过", "批准", "超预期", "高增", "景气", "扩产", "投产", "量产", "订单", "合作", "收购", "战略", "独家", "专利", "授权", "落地", "复牌", "摘帽", "注入", "业绩预喜", "同比增", "环比增", "创新高", "大涨", "涨停", "反弹", "走强", "净流入", "加仓", "超配"];
    assert(words_view(v@) =~= corp_bull_words());
    v
}

/// Bad news of a listed company in general.
pub open spec fn corp_bear_words() -> Seq<Seq<char>> {
    seq!["下调"@, "减持"@, "亏损"@, "处罚"@, "立案"@, "跌停"@, "风险"@, "爆雷"@, "问询"@, "预减"@, "退市"@, "违规"@, "诉讼"@, "冻结"@, "警示"@, "停牌"@, "调查"@, "造假"@, "违约"@, "债务"@, "爆仓"@, "业绩预降"@, "业绩变脸"@, "商誉减值"@, "计提"@, "终止"@, "失败"@, "否决"@, "撤回"@, "推迟"@, "下滑"@, "同比降"@, "环比降"@, "大跌"@, "暴跌"@, "走弱"@, "跌破"@, "净流出"@, "减仓"@, "低配"@]
}

/// Bad news of a listed company in general.
pub fn corp_bear() -> (r: Vec<&'static str>)
    ensures
        words_view(r@) == corp_bear_words(),
{
    let v: Vec<&'static str> = vec!["下调", "减持", "亏损", "处罚", "立案", "跌停", "风险", "爆雷", "问询", "预减", "退市", "违规", "诉讼", "冻结", "警示", "停牌", "调查", "造假", "违约", "债务", "爆仓", "业绩预降", "业绩变脸", "商誉减值", "计提", "终止", "失败", "否决", "撤回", "推迟", "下滑", "同比降", "环比降", "大跌", "暴跌", "走弱", "跌破", "净流出", "减仓", "低配"];
    assert(words_view(v@) =~= corp_bear_words());
    v
}

/// Good news for liquor and consumer goods.
pub open spec fn consumer_bull_words() -> Seq<Seq<char>> {
    seq!["提价"@, "涨价"@, "动销"@, "旺季"@, "开瓶"@, "批价上涨"@, "渠道补货"@, "库存下降"@, "高端化"@, "消费复苏"@, "出行复苏"@, "免税"@, "客流回升"@, "销量增长"@, "份额提升"@]
}

/// Good news for liquor and consumer goods.
pub fn consumer_bull() -> (r: Vec<&'static str>)
    ensures
        words_view(r@) == consumer_bull_words(),
{
    let v: Vec<&'static str> = vec!["提价", "涨价", "动销", "旺季", "开瓶", "批价上涨", "渠道补货", "库存下降", "高端化", "消费复苏", "出行复苏", "免税", "客流回升", "销量增长", "份额提升"];
    assert(words_view(v@) =~= consumer_bull_words());
    v
}

/// Bad news for liquor and consumer goods.
pub open spec fn consumer_bear_words() -> Seq<Seq<char>> {
    seq!["降价"@, "窜货"@, "库存高企"@, "动销疲软"@, "批价下跌"@, "消费疲软"@, "需求下滑"@, "渠道去库存"@, "宴席减少"@, "客流下滑"@]
}

/// Bad news for liquor and consumer goods.
pub fn consumer_bear() -> (r: Vec<&'static str>)
    ensures
        words_view(r@) == consumer_bear_words(),
{
    let v: Vec<&'static str> = vec!["降价", "窜货", "库存高企", "动销疲软", "批价下跌", "消费疲软", "需求下滑", "渠道去库存", "宴席减少", "客流下滑"];
    assert(words_view(v@) =~= consumer_bear_words());
    v
}

/// Good words in general market news.
pub open spec fn market_news_bull_words() -> Seq<Seq<char>> {
    seq!["回暖"@, "反弹"@, "流入"@, "利好"@, "增长"@, "复苏"@]
}

/// Good words in general market news.
pub fn market_news_bull() -> (r: Vec<&'static str>)
    ensures
        words_view(r@) == market_news_bull_words(),
{
    let v: Vec<&'static str> = vec!["回暖", "反弹", "流入", "利好", "增长", "复苏"];
    assert(words_view(v@) =~= market_news_bull_words());
    v
}

/// Bad words in general market news.
pub open spec fn market_news_bear_words() -> Seq<Seq<char>> {
    seq!["下跌"@, "承压"@, "流出"@, "风险"@, "收紧"@, "暴跌"@]
}

/// Bad words in general market news.
pub fn market_news_bear() -> (r: Vec<&'static str>)
    ensures
        words_view(r@) == market_news_bear_words(),
{
    let v: Vec<&'static str> = vec!["下跌", "承压", "流出", "风险", "收紧", "暴跌"];
    assert(words_view(v@) =~= market_news_bear_words());
    v
}

/// Good words in policy news.
pub open spec fn policy_bull_words() -> Seq<Seq<char>> {
    seq!["降准"@, "降息"@, "支持"@, "刺激"@, "放开"@, "利好"@, "扩内需"@]
}

/// Good words in policy news.
pub fn policy_bull() -> (r: Vec<&'static str>)
    ensures
        words_view(r@) == policy_bull_words(),
{
    let v: Vec<&'static str> = vec!["降准", "降息", "支持", "刺激", "放开", "利好", "扩内需"];
    assert(words_view(v@) =~= policy_bull_words());
    v
}

/// Bad words in policy news.
pub open spec fn policy_bear_words() -> Seq<Seq<char>> {
    seq!["收紧"@, "监管"@, "处罚"@, "限制"@, "加税"@, "整顿"@]
}

/// Bad words in policy news.
pub fn policy_bear() -> (r: Vec<&'static str>)
    ensures
        words_view(r@) == policy_bear_words(),
{
    let v: Vec<&'static str> = vec!["收紧", "监管", "处罚", "限制", "加税", "整顿"];
    assert(words_view(v@) =~= policy_bear_words());
    v
}

/// The search query of general market news.
pub fn market_news_query() -> (r: &'static str)
    ensures
        r@ == "A股 市场"@,
{
    "A股 市场"
}

/// The search query of policy news.
pub fn policy_news_query() -> (r: &'static str)
    ensures
        r@ == "政策 央行 财政 监管"@,
{
    "政策 央行 财政 监管"
}

/// Good news for banks, insurers and brokers.
pub open spec fn fin_bull_words() -> Seq<Seq<char>> {
    seq!["降准"@, "降息"@, "宽松"@, "息差改善"@, "不良下降"@, "资产质量改善"@, "零售回暖"@, "成交额放大"@, "两融余额升"@, "日均成交"@, "牛市"@, "行情回暖"@, "保费增长"@, "新单增长"@]
}

/// Good news for banks, insurers and brokers.
pub fn fin_bull() -> (r: Vec<&'static str>)
    ensures
        words_view(r@) == fin_bull_words(),
{
    let v: Vec<&'static str> = vec!["降准", "降息", "宽松", "息差改善", "不良下降", "资产质量改善", "零售回暖", "成交额放大", "两融余额升", "日均成交", "牛市", "行情回暖", "保费增长", "新单增长"];
    assert(words_view(v@) =~= fin_bull_words());
    v
}

/// Bad news for banks, insurers and brokers.
pub open spec fn fin_bear_words() -> Seq<Seq<char>> {
    seq!["加息"@, "收紧"@, "息差收窄"@, "不良上升"@, "资产质量恶化"@, "爆雷"@, "理财赎回"@, "成交低迷"@, "两融余额降"@, "熊市"@, "保费下滑"@, "退保"@]
}

/// Bad news for banks, insurers and brokers.
pub fn fin_bear() -> (r: Vec<&'static str>)
    ensures
        words_view(r@) == fin_bear_words(),
{
    let v: Vec<&'static str> = vec!["加息", "收紧", "息差收窄", "不良上升", "资产质量恶化", "爆雷", "理财赎回", "成交低迷", "两融余额降", "熊市", "保费下滑", "退保"];
    assert(words_view(v@) =~= fin_bear_words());
    v
}

/// Good news for technology and manufacturing.
pub open spec fn tech_bull_words() -> Seq<Seq<char>> {
    seq!["国产替代"@, "自主可控"@, "芯片"@, "先进制程"@, "产能满载"@, "涨价函"@, "缺货"@, "大模型"@, "算力"@, "AI应用"@, "中标"@, "定点"@, "装机量"@, "渗透率提升"@, "补贴"@, "出海"@]
}

/// Good news for technology and manufacturing.
pub fn tech_bull() -> (r: Vec<&'static str>)
    ensures
        words_view(r@) == tech_bull_words(),
{
    let v: Vec<&'static str> = vec!["国产替代", "自主可控", "芯片", "先进制程", "产能满载", "涨价函", "缺货", "大模型", "算力", "AI应用", "中标", "定点", "装机量", "渗透率提升", "补贴", "出海"];
    assert(words_view(v@) =~= tech_bull_words());
    v
}

/// Bad news for technology and manufacturing.
pub open spec fn tech_bear_words() -> Seq<Seq<char>> {
    seq!["制裁"@, "出口管制"@, "实体清单"@, "禁令"@, "产能过剩"@, "价格战"@, "降价"@, "库存积压"@, "需求不及预期"@, "砍单"@, "扩产放缓"@, "补贴退坡"@]
}

/// Bad news for technology and manufacturing.
pub fn tech_bear() -> (r: Vec<&'static str>)
    ensures
        words_view(r@) == tech_bear_words(),
{
    let v: Vec<&'static str> = vec!["制裁", "出口管制", "实体清单", "禁令", "产能过剩", "价格战", "降价", "库存积压", "需求不及预期", "砍单", "扩产放缓", "补贴退坡"];
    assert(words_view(v@) =~= tech_bear_words());
    v
}

/// Good news for pharmaceuticals.
pub open spec fn pharma_bull_words() -> Seq<Seq<char>> {
    seq!["获批"@, "IND"@, "临床"@, "三期"@, "NDA"@, "BLA"@, "纳入医保"@, "集采中标"@, "创新药"@, "授权出海"@, "BD合作"@, "阳性结果"@, "突破性疗法"@, "新药上市"@]
}

/// Good news for pharmaceuticals.
pub fn pharma_bull() -> (r: Vec<&'static str>)
    ensures
        words_view(r@) == pharma_bull_words(),
{
    let v: Vec<&'static str> = vec!["获批", "IND", "临床", "三期", "NDA", "BLA", "纳入医保", "集采中标", "创新药", "授权出海", "BD合作", "阳性结果", "突破性疗法", "新药上市"];
    assert(words_view(v@) =~= pharma_bull_words());
    v
}

/// Bad news for pharmaceuticals.
pub open spec fn pharma_bear_words() -> Seq<Seq<char>> {
    seq!["集采降价"@, "未中标"@, "临床失败"@, "安全性"@, "召回"@, "停产"@, "医保谈判降幅"@, "负面临床"@, "驳回"@, "撤回申请"@]
}

/// Bad news for pharmaceuticals.
pub fn pharma_bear() -> (r: Vec<&'static str>)
    ensures
        words_view(r@) == pharma_bear_words(),
{
    let v: Vec<&'static str> = vec!["集采降价", "未中标", "临床失败", "安全性", "召回", "停产", "医保谈判降幅", "负面临床", "驳回", "撤回申请"];
    assert(words_view(v@) =~= pharma_bear_words());
    v
}

/// Good news for cyclical sectors.
pub open spec fn cyclical_bull_words() -> Seq<Seq<char>> {
    seq!["涨价"@, "供给收缩"@, "库存低位"@, "景气上行"@, "开工率升"@, "电价上浮"@, "来水偏丰"@, "铜价上涨"@, "锂价上涨"@, "煤价上涨"@]
}

/// Good news for cyclical sectors.
pub fn cyclical_bull() -> (r: Vec<&'static str>)
    ensures
        words_view(r@) == cyclical_bull_words(),
{
    let v: Vec<&'static str> = vec!["涨价", "供给收缩", "库存低位", "景气上行", "开工率升", "电价上浮", "来水偏丰", "铜价上涨", "锂价上涨", "煤价上涨"];
    assert(words_view(v@) =~= cyclical_bull_words());
    v
}

/// Bad news for cyclical sectors.
pub open spec fn cyclical_bear_words() -> Seq<Seq<char>> {
    seq!["跌价"@, "供给过剩"@, "库存高企"@, "景气下行"@, "开工率降"@, "电价下调"@, "来水偏枯"@, "铜价下跌"@, "锂价下跌"@, "煤价下跌"@]
}

/// Bad news for cyclical sectors.
pub fn cyclical_bear() -> (r: Vec<&'static str>)
    ensures
        words_view(r@) == cyclical_bear_words(),
{
    let v: Vec<&'static str> = vec!["跌价", "供给过剩", "库存高企", "景气下行", "开工率降", "电价下调", "来水偏枯", "铜价下跌", "锂价下跌", "煤价下跌"];
    assert(words_view(v@) =~= cyclical_bear_words());
    v
}

/// Good news for gold (rates, dollar, safe haven, flows).
pub open spec fn gold_bull_words() -> Seq<Seq<char>> {
    seq!["降息"@, "宽松"@, "暂停加息"@, "结束加息"@, "鸽派"@, "降息预期"@, "实际利率下行"@, "美元走弱"@, "美元下跌"@, "美元指数回落"@, "通胀回升"@, "滞胀"@, "避险"@, "避险情绪"@, "避险买盘"@, "地缘冲突"@, "地缘紧张"@, "战争"@, "开战"@, "空袭"@, "冲突升级"@, "制裁"@, "中东紧张"@, "台海紧张"@, "军事冲突"@, "金价上涨"@, "金价大涨"@, "金价走强"@, "金价创新高"@, "金价飙升"@, "升破"@, "收涨"@, "购金"@, "央行购金"@, "黄金储备"@, "增持黄金"@, "净申购"@, "资金流入"@]
}

/// Good news for gold (rates, dollar, safe haven, flows).
pub fn gold_bull() -> (r: Vec<&'static str>)
    ensures
        words_view(r@) == gold_bull_words(),
{
    let v: Vec<&'static str> = vec!["降息", "宽松", "暂停加息", "结束加息", "鸽派", "降息预期", "实际利率下行", "美元走弱", "美元下跌", "美元指数回落", "通胀回升", "滞胀", "避险", "避险情绪", "避险买盘", "地缘冲突", "地缘紧张", "战争", "开战", "空袭", "冲突升级", "制裁", "中东紧张", "台海紧张", "军事冲突", "金价上涨", "金价大涨", "金价走强", "金价创新高", "金价飙升", "升破", "收涨", "购金", "央行购金", "黄金储备", "增持黄金", "净申购", "资金流入"];
    assert(words_view(v@) =~= gold_bull_words());
    v
}

/// Bad news for gold.
pub open spec fn gold_bear_words() -> Seq<Seq<char>> {
    seq!["加息"@, "鹰派"@, "继续加息"@, "加速加息"@, "紧缩"@, "缩表"@, "加息预期"@, "实际利率上行"@, "美元走强"@, "美元上涨"@, "美元指数走强"@, "避险情绪降温"@, "风险偏好回升"@, "停火"@, "和谈"@, "局势缓和"@, "冲突降温"@, "金价下跌"@, "金价大跌"@, "金价走弱"@, "金价跌破"@, "收跌"@, "抛售黄金"@, "获利了结"@, "净赎回"@, "资金流出"@]
}

/// Bad news for gold.
pub fn gold_bear() -> (r: Vec<&'static str>)
    ensures
        words_view(r@) == gold_bear_words(),
{
    let v: Vec<&'static str> = vec!["加息", "鹰派", "继续加息", "加速加息", "紧缩", "缩表", "加息预期", "实际利率上行", "美元走强", "美元上涨", "美元指数走强", "避险情绪降温", "风险偏好回升", "停火", "和谈", "局势缓和", "冲突降温", "金价下跌", "金价大跌", "金价走弱", "金价跌破", "收跌", "抛售黄金", "获利了结", "净赎回", "资金流出"];
    assert(words_view(v@) =~= gold_bear_words());
    v
}

/// Extra searches for gold.
pub open spec fn gold_queries_words() -> Seq<Seq<char>> {
    seq!["黄金 美联储"@, "黄金 加息"@, "黄金 降息"@, "金价 避险"@, "黄金 战争"@, "黄金 地缘"@, "美元指数 黄金"@]
}

/// Extra searches for gold.
pub fn gold_queries() -> (r: Vec<&'static str>)
    ensures
        words_view(r@) == gold_queries_words(),
{
    let v: Vec<&'static str> = vec!["黄金 美联储", "黄金 加息", "黄金 降息", "金价 避险", "黄金 战争", "黄金 地缘", "美元指数 黄金"];
    assert(words_view(v@) =~= gold_queries_words());
    v
}

/// Good news for broad-index ETFs.
pub open spec fn broad_bull_words() -> Seq<Seq<char>> {
    seq!["央行降准"@, "降准"@, "LPR下调"@, "北向净买入"@, "北向流入"@, "外资流入"@, "社融超预期"@, "PMI回升"@, "成交额破万亿"@, "政策托底"@, "稳增长"@, "流动性宽松"@, "赚钱效应"@, "风险偏好回升"@, "降息"@, "宽松"@, "政策利好"@, "经济复苏"@]
}

/// Good news for broad-index ETFs.
pub fn broad_bull() -> (r: Vec<&'static str>)
    ensures
        words_view(r@) == broad_bull_words(),
{
    let v: Vec<&'static str> = vec!["央行降准", "降准", "LPR下调", "北向净买入", "北向流入", "外资流入", "社融超预期", "PMI回升", "成交额破万亿", "政策托底", "稳增长", "流动性宽松", "赚钱效应", "风险偏好回升", "降息", "宽松", "政策利好", "经济复苏"];
    assert(words_view(v@) =~= broad_bull_words());
    v
}

/// Bad news for broad-index ETFs, including words after which the index tended to fall.
pub open spec fn broad_bear_words() -> Seq<Seq<char>> {
    seq!["北向净卖出"@, "北向流出"@, "外资流出"@, "暴跌"@, "跳水"@, "杀跌"@, "破位"@, "亏钱效应"@, "流动性收紧"@, "成交低迷"@, "风险偏好下降"@, "沪指下跌"@, "上证下跌"@, "ETF净赎回"@, "两融余额降"@, "社融不及预期"@, "PMI回落"@, "收紧"@, "熊市"@, "恐慌"@, "失守"@, "经济疲软"@, "回落"@, "承压"@, "缩量"@, "走弱"@, "下跌"@, "跌破"@, "反弹"@, "放量"@, "收涨"@, "新高"@, "活跃"@, "增量资金"@]
}

/// Bad news for broad-index ETFs, including words after which the index tended to fall.
pub fn broad_bear() -> (r: Vec<&'static str>)
    ensures
        words_view(r@) == broad_bear_words(),
{
    let v: Vec<&'static str> = vec!["北向净卖出", "北向流出", "外资流出", "暴跌", "跳水", "杀跌", "破位", "亏钱效应", "流动性收紧", "成交低迷", "风险偏好下降", "沪指下跌", "上证下跌", "ETF净赎回", "两融余额降", "社融不及预期", "PMI回落", "收紧", "熊市", "恐慌", "失守", "经济疲软", "回落", "承压", "缩量", "走弱", "下跌", "跌破", "反弹", "放量", "收涨", "新高", "活跃", "增量资金"];
    assert(words_view(v@) =~= broad_bear_words());
    v
}

/// Extra searches for broad-index ETFs.
pub open spec fn broad_queries_words() -> Seq<Seq<char>> {
    seq!["上证指数"@, "沪指"@, "A股 市场"@, "北向资金"@, "两市成交"@, "降准 稳增长"@, "成交额破万亿"@, "风险偏好"@]
}

/// Extra searches for broad-index ETFs.
pub fn broad_queries() -> (r: Vec<&'static str>)
    ensures
        words_view(r@) == broad_queries_words(),
{
    let v: Vec<&'static str> = vec!["上证指数", "沪指", "A股 市场", "北向资金", "两市成交", "降准 稳增长", "成交额破万亿", "风险偏好"];
    assert(words_view(v@) =~= broad_queries_words());
    v
}

/// Good news for overseas index ETFs.
pub open spec fn overseas_bull_words() -> Seq<Seq<char>> {
    seq!["降息"@, "鸽派"@, "纳指上涨"@, "标普上涨"@, "科技股大涨"@, "风险偏好回升"@, "软着陆"@]
}

/// Good news for overseas index ETFs.
pub fn overseas_bull() -> (r: Vec<&'static str>)
    ensures
        words_view(r@) == overseas_bull_words(),
{
    let v: Vec<&'static str> = vec!["降息", "鸽派", "纳指上涨", "标普上涨", "科技股大涨", "风险偏好回升", "软着陆"];
    assert(words_view(v@) =~= overseas_bull_words());
    v
}

/// Bad news for overseas index ETFs.
pub open spec fn overseas_bear_words() -> Seq<Seq<char>> {
    seq!["加息"@, "鹰派"@, "纳指下跌"@, "标普下跌"@, "科技股大跌"@, "衰退担忧"@, "关税"@]
}

/// Bad news for overseas index ETFs.
pub fn overseas_bear() -> (r: Vec<&'static str>)
    ensures
        words_view(r@) == overseas_bear_words(),
{
    let v: Vec<&'static str> = vec!["加息", "鹰派", "纳指下跌", "标普下跌", "科技股大跌", "衰退担忧", "关税"];
    assert(words_view(v@) =~= overseas_bear_words());
    v
}

/// Extra searches for overseas index ETFs.
pub open spec fn overseas_queries_words() -> Seq<Seq<char>> {
    seq!["纳斯达克"@, "标普500"@, "美股 科技"@, "美联储"@]
}

/// Extra searches for overseas index ETFs.
pub fn overseas_queries() -> (r: Vec<&'static str>)
    ensures
        words_view(r@) == overseas_queries_words(),
{
    let v: Vec<&'static str> = vec!["纳斯达克", "标普500", "美股 科技", "美联储"];
    assert(words_view(v@) =~= overseas_queries_words());
    v
}

/// The vocabulary of one kind of security.
#[derive(Clone, Debug)]
pub struct MessageWords {
    pub kind: MessageKind,
    pub label: &'static str,
    pub bullish: Vec<&'static str>,
    pub bearish: Vec<&'static str>,
    pub extra_queries: Vec<&'static str>,
}

/// A vocabulary as plain values.
pub open spec fn message_words_view(w: MessageWords) -> (MessageKind, Seq<char>, Seq<Seq<char>>, Seq<Seq<char>>, Seq<Seq<char>>) {
    (w.kind, w.label@, words_view(w.bullish@), words_view(w.bearish@), words_view(w.extra_queries@))
}

/// The vocabulary of a sector kind: the company-wide words followed by the
/// sector's own, and the sector's searches; every other kind reads like a
/// company in general.
pub open spec fn kind_words_spec(kind: MessageKind) -> (MessageKind, Seq<char>, Seq<Seq<char>>, Seq<Seq<char>>, Seq<Seq<char>>) {
    match kind {
        MessageKind::Consumer => (
            MessageKind::Consumer,
            "消费/白酒"@,
            corp_bull_words() + consumer_bull_words(),
            corp_bear_words() + consumer_bear_words(),
            seq!["白酒 批价"@, "消费复苏"@],
        ),
        MessageKind::Finance => (
            MessageKind::Finance,
            "金融"@,
            corp_bull_words() + fin_bull_words(),
            corp_bear_words() + fin_bear_words(),
            seq!["降准"@, "两融余额"@, "银行 息差"@],
        ),
        MessageKind::Tech => (
            MessageKind::Tech,
            "科技制造"@,
            corp_bull_words() + tech_bull_words(),
            corp_bear_words() + tech_bear_words(),
            seq!["国产替代"@, "芯片 制裁"@, "新能源 装机"@],
        ),
        MessageKind::Pharma => (
            MessageKind::Pharma,
            "医药"@,
            corp_bull_words() + pharma_bull_words(),
            corp_bear_words() + pharma_bear_words(),
            seq!["创新药"@, "集采"@, "医保谈判"@],
        ),
        MessageKind::Cyclical => (
            MessageKind::Cyclical,
            "周期"@,
            corp_bull_words() + cyclical_bull_words(),
            corp_bear_words() + cyclical_bear_words(),
            seq!["有色 涨价"@, "煤价"@, "电力 来水"@],
        ),
        _ => (MessageKind::Corporate, "一般个股"@, corp_bull_words(), corp_bear_words(), Seq::empty()),
    }
}

/// The vocabulary of a sector kind.
pub fn words_for_kind(kind: MessageKind) -> (r: MessageWords)
    ensures
        message_words_view(r) == kind_words_spec(kind),
{
    match kind {
        MessageKind::Consumer => {
            let bullish = merge_words(corp_bull().as_slice(), consumer_bull().as_slice());
            let bearish = merge_words(corp_bear().as_slice(), consumer_bear().as_slice());
            let extra_queries: Vec<&'static str> = vec!["白酒 批价", "消费复苏"];
            let w = MessageWords { kind: MessageKind::Consumer, label: "消费/白酒", bullish, bearish, extra_queries };
            assert(words_view(w.bullish@) =~= corp_bull_words() + consumer_bull_words());
            assert(words_view(w.bearish@) =~= corp_bear_words() + consumer_bear_words());
            assert(words_view(w.extra_queries@) =~= seq!["白酒 批价"@, "消费复苏"@]);
            w
        },
        MessageKind::Finance => {
            let bullish = merge_words(corp_bull().as_slice(), fin_bull().as_slice());
            let bearish = merge_words(corp_bear().as_slice(), fin_bear().as_slice());
            let extra_queries: Vec<&'static str> = vec!["降准", "两融余额", "银行 息差"];
            let w = MessageWords { kind: MessageKind::Finance, label: "金融", bullish, bearish, extra_queries };
            assert(words_view(w.bullish@) =~= corp_bull_words() + fin_bull_words());
            assert(words_view(w.bearish@) =~= corp_bear_words() + fin_bear_words());
            assert(words_view(w.extra_queries@) =~= seq!["降准"@, "两融余额"@, "银行 息差"@]);
            w
        },
        MessageKind::Tech => {
            let bullish = merge_words(corp_bull().as_slice(), tech_bull().as_slice());
            let bearish = merge_words(corp_bear().as_slice(), tech_bear().as_slice());
            let extra_queries: Vec<&'static str> = vec!["国产替代", "芯片 制裁", "新能源 装机"];
            let w = MessageWords { kind: MessageKind::Tech, label: "科技制造", bullish, bearish, extra_queries };
            assert(words_view(w.bullish@) =~= corp_bull_words() + tech_bull_words());
            assert(words_view(w.bearish@) =~= corp_bear_words() + tech_bear_words());
            assert(words_view(w.extra_queries@) =~= seq!["国产替代"@, "芯片 制裁"@, "新能源 装机"@]);
            w
        },
        MessageKind::Pharma => {
            let bullish = merge_words(corp_bull().as_slice(), pharma_bull().as_slice());
            let bearish = merge_words(corp_bear().as_slice(), pharma_bear().as_slice());
            let extra_queries: Vec<&'static str> = vec!["创新药", "集采", "医保谈判"];
            let w = MessageWords { kind: MessageKind::Pharma, label: "医药", bullish, bearish, extra_queries };
            assert(words_view(w.bullish@) =~= corp_bull_words() + pharma_bull_words());
            assert(words_view(w.bearish@) =~= corp_bear_words() + pharma_bear_words());
            assert(words_view(w.extra_queries@) =~= seq!["创新药"@, "集采"@, "医保谈判"@]);
            w
        },
        MessageKind::Cyclical => {
            let bullish = merge_words(corp_bull().as_slice(), cyclical_bull().as_slice());
            let bearish = merge_words(corp_bear().as_slice(), cyclical_bear().as_slice());
            let extra_queries: Vec<&'static str> = vec!["有色 涨价", "煤价", "电力 来水"];
            let w = MessageWords { kind: MessageKind::Cyclical, label: "周期", bullish, bearish, extra_queries };
            assert(words_view(w.bullish@) =~= corp_bull_words() + cyclical_bull_words());
            assert(words_view(w.bearish@) =~= corp_bear_words() + cyclical_bear_words());
            assert(words_view(w.extra_queries@) =~= seq!["有色 涨价"@, "煤价"@, "电力 来水"@]);
            w
        },
        _ => {
            let extra_queries: Vec<&'static str> = Vec::new();
            let w = MessageWords { kind: MessageKind::Corporate, label: "一般个股", bullish: corp_bull(), bearish: corp_bear(), extra_queries };
            assert(words_view(w.extra_queries@) =~= Seq::<Seq<char>>::empty());
            w
        },
    }
}

/// The vocabulary of a security: gold, broad-index and overseas ETFs have
/// their own; a theme ETF takes the words of the sector its name points to;
/// everything else those of its kind.
pub open spec fn profile_words_spec(name: Seq<char>, code: Seq<char>, sector: Seq<char>) -> (MessageKind, Seq<char>, Seq<Seq<char>>, Seq<Seq<char>>, Seq<Seq<char>>) {
    let kind = classify_spec(name, code, sector);
    match kind {
        MessageKind::Gold => (kind, "黄金/避险"@, gold_bull_words(), gold_bear_words(), gold_queries_words()),
        MessageKind::BroadEtf => (kind, "宽基ETF"@, broad_bull_words(), broad_bear_words(), broad_queries_words()),
        MessageKind::OverseasEtf => (kind, "海外ETF"@, overseas_bull_words(), overseas_bear_words(), overseas_queries_words()),
        MessageKind::ThemeEtf => {
            let p = kind_words_spec(theme_spec(name));
            (MessageKind::ThemeEtf, "主题ETF"@, p.2, p.3, p.4)
        },
        _ => kind_words_spec(kind),
    }
}

/// Builds the vocabulary of a security.
pub fn profile_words(stock: &Stock) -> (r: MessageWords)
    ensures
        message_words_view(r) == profile_words_spec(stock.name@, stock.code@, stock.sector@),
{
    let kind = classify(stock);
    match kind {
        MessageKind::Gold => MessageWords {
            kind,
            label: "黄金/避险",
            bullish: gold_bull(),
            bearish: gold_bear(),
            extra_queries: gold_queries(),
        },
        MessageKind::BroadEtf => MessageWords {
            kind,
            label: "宽基ETF",
            bullish: broad_bull(),
            bearish: broad_bear(),
            extra_queries: broad_queries(),
        },
        MessageKind::OverseasEtf => MessageWords {
            kind,
            label: "海外ETF",
            bullish: overseas_bull(),
            bearish: overseas_bear(),
            extra_queries: overseas_queries(),
        },
        MessageKind::ThemeEtf => {
            let theme = theme_from_etf_name(stock.name.as_str());
            let p = words_for_kind(theme);
            MessageWords {
                kind: MessageKind::ThemeEtf,
                label: "主题ETF",
                bullish: p.bullish,
                bearish: p.bearish,
                extra_queries: p.extra_queries,
            }
        },
        other => words_for_kind(other),
    }
}

/// `extra` appended to `q`, each one only when not already there.
pub open spec fn append_distinct(q: Seq<Seq<char>>, extra: Seq<Seq<char>>) -> Seq<Seq<char>>
    decreases extra.len(),
{
    if extra.len() == 0 {
        q
    } else {
        let before = append_distinct(q, extra.drop_last());
        if before.contains(extra.last()) {
            before
        } else {
            before.push(extra.last())
        }
    }
}

/// Strings as plain values.
pub open spec fn strings_view(v: Seq<String>) -> Seq<Seq<char>> {
    v.map_values(|s: String| s@)
}

fn listed(q: &Vec<String>, s: &String) -> (r: bool)
    ensures
        r == strings_view(q@).contains(s@),
{
    let mut i: usize = 0;
    while i < q.len()
        invariant
            i <= q.len(),
            forall|k: int| 0 <= k < i ==> q@[k]@ != s@,
        decreases q.len() - i,
    {
        if str_eq(q[i].as_str(), s.as_str()) {
            assert(strings_view(q@)[i as int] == s@);
            return true;
        }
        i += 1;
    }
    proof {
        if strings_view(q@).contains(s@) {
            let k = choose|k: int| 0 <= k < strings_view(q@).len() && strings_view(q@)[k] == s@;
            assert(q@[k]@ == s@);
        }
    }
    false
}

/// Appends the queries of `extra` that `q` does not hold yet, in order.
pub fn append_new_queries(q: &mut Vec<String>, extra: &[String])
    ensures
        strings_view(final(q)@) == append_distinct(strings_view(old(q)@), strings_view(extra@)),
{
    let ghost q0 = strings_view(q@);
    let mut i: usize = 0;
    while i < extra.len()
        invariant
            i <= extra.len(),
            q0 == strings_view(old(q)@),
            strings_view(q@) == append_distinct(q0, strings_view(extra@).take(i as int)),
        decreases extra.len() - i,
    {
        let ghost ev = strings_view(extra@);
        assert(ev.take(i as int + 1).drop_last() =~= ev.take(i as int));
        assert(ev.take(i as int + 1).last() == extra@[i as int]@);
        if !listed(q, &extra[i]) {
            let ghost before = q@;
            q.push(to_owned_string(extra[i].as_str()));
            assert(strings_view(q@) =~= strings_view(before).push(extra@[i as int]@));
        }
        i += 1;
    }
    assert(strings_view(extra@).take(extra.len() as int) =~= strings_view(extra@));
}

/// The news queries of a security: its own query first, then its
/// vocabulary's extra searches; a broad-index ETF adds the searches of its
/// trained word file that are not there yet.
pub open spec fn search_queries_spec(name: Seq<char>, code: Seq<char>, sector: Seq<char>, file_queries: Seq<Seq<char>>) -> Seq<Seq<char>> {
    let p = profile_words_spec(name, code, sector);
    let base = seq![primary_query_spec(name, code)] + p.4;
    if p.0 == MessageKind::BroadEtf {
        append_distinct(base, file_queries)
    } else {
        base
    }
}

/// Builds the news queries of a security; `file_queries` are the extra
/// searches of the broad-index word file (empty without one).
pub fn search_queries(stock: &Stock, file_queries: &[String]) -> (r: Vec<String>)
    ensures
        strings_view(r@) == search_queries_spec(stock.name@, stock.code@, stock.sector@, strings_view(file_queries@)),
{
    let profile = profile_words(stock);
    let mut q: Vec<String> = Vec::new();
    q.push(primary_search_query(stock));
    let mut i: usize = 0;
    while i < profile.extra_queries.len()
        invariant
            i <= profile.extra_queries.len(),
            strings_view(q@) == seq![primary_query_spec(stock.name@, stock.code@)] + words_view(profile.extra_queries@).take(i as int),
        decreases profile.extra_queries.len() - i,
    {
        let ghost before = q@;
        q.push(to_owned_string(profile.extra_queries[i]));
        assert(words_view(profile.extra_queries@).take(i as int + 1) =~= words_view(profile.extra_queries@).take(i as int).push(profile.extra_queries@[i as int]@));
        assert(strings_view(q@) =~= strings_view(before).push(profile.extra_queries@[i as int]@));
        i += 1;
    }
    assert(words_view(profile.extra_queries@).take(profile.extra_queries.len() as int) =~= words_view(profile.extra_queries@));
    if profile.kind == MessageKind::BroadEtf {
        append_new_queries(&mut q, file_queries);
    }
    q
}

} // verus!
