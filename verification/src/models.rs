//! Plain records shared across the library.

use vstd::prelude::*;
use crate::text::to_owned_string;

verus! {

/// A security as the rules of the library read it: code, name, market,
/// sector and whether it came from a popularity list. Quotes travel
/// beside it, outside the library.
#[derive(Clone, Debug)]
pub struct Stock {
    pub code: String,
    pub name: String,
    pub market: String,
    pub sector: String,
    pub is_hot: bool,
}

/// One selectable prediction algorithm.
#[derive(Clone, Debug)]
pub struct AlgorithmInfo {
    pub id: String,
    pub name: String,
    pub description: String,
    pub enabled: bool,
}

/// An algorithm entry as plain values.
pub open spec fn algorithm_view(a: AlgorithmInfo) -> (Seq<char>, Seq<char>, Seq<char>, bool) {
    (a.id@, a.name@, a.description@, a.enabled)
}

/// The algorithms offered, in display order.
pub open spec fn algorithm_rows() -> Seq<(Seq<char>, Seq<char>, Seq<char>, bool)> {
    seq![
        ("compose"@, "组合策略"@, "按股票自定义启用信号源并加权融合（技术/舆情/宏观）。"@, true),
        ("placeholder_v1"@, "占位模型 v1"@, "伪随机演示算法，仅用于对比测试。"@, true),
    ]
}

/// Lists the prediction algorithms: the configurable ensemble and the
/// pseudo-random baseline.
pub fn list_algorithms() -> (r: Vec<AlgorithmInfo>)
    ensures
        r@.map_values(|a: AlgorithmInfo| algorithm_view(a)) == algorithm_rows(),
{
    let mut out: Vec<AlgorithmInfo> = Vec::new();
    out.push(AlgorithmInfo {
        id: to_owned_string("compose"),
        name: to_owned_string("组合策略"),
        description: to_owned_string("按股票自定义启用信号源并加权融合（技术/舆情/宏观）。"),
        enabled: true,
    });
    out.push(AlgorithmInfo {
        id: to_owned_string("placeholder_v1"),
        name: to_owned_string("占位模型 v1"),
        description: to_owned_string("伪随机演示算法，仅用于对比测试。"),
        enabled: true,
    });
    assert(out@.map_values(|a: AlgorithmInfo| algorithm_view(a)) =~= algorithm_rows());
    out
}

} // verus!
