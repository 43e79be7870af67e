//! Buy/sell markers laid over the daily chart, and their windowing.

use vstd::prelude::*;
use crate::text::{str_eq, to_owned_string};

verus! {

/// Golden cross (buy) or death cross (sell).
#[derive(Clone, Copy, Debug, PartialEq, Eq, Structural)]
pub enum BsMarkerKind {
    Buy,
    Sell,
}

/// One chart marker: the bar's date and the kind of cross.
#[derive(Clone, Debug)]
pub struct BsMarker {
    pub date: String,
    pub kind: BsMarkerKind,
}

/// A marker as plain values.
pub open spec fn marker_view(m: BsMarker) -> (Seq<char>, BsMarkerKind) {
    (m.date@, m.kind)
}

/// The dates of a window as plain values.
pub open spec fn dates_view(dates: Seq<String>) -> Seq<Seq<char>> {
    dates.map_values(|s: String| s@)
}

/// The markers, in order, whose date occurs among `dates`.
pub open spec fn kept_markers(ms: Seq<(Seq<char>, BsMarkerKind)>, dates: Seq<Seq<char>>) -> Seq<(Seq<char>, BsMarkerKind)>
    decreases ms.len(),
{
    if ms.len() == 0 {
        Seq::empty()
    } else {
        let rest = kept_markers(ms.drop_last(), dates);
        if dates.contains(ms.last().0) {
            rest.push(ms.last())
        } else {
            rest
        }
    }
}

fn date_listed(date: &String, dates: &[String]) -> (r: bool)
    ensures
        r == dates_view(dates@).contains(date@),
{
    let mut i: usize = 0;
    while i < dates.len()
        invariant
            i <= dates.len(),
            forall|j: int| 0 <= j < i ==> dates@[j]@ != date@,
        decreases dates.len() - i,
    {
        if str_eq(dates[i].as_str(), date.as_str()) {
            assert(dates_view(dates@)[i as int] == date@);
            return true;
        }
        i += 1;
    }
    proof {
        if dates_view(dates@).contains(date@) {
            let k = choose|k: int| 0 <= k < dates_view(dates@).len() && dates_view(dates@)[k] == date@;
            assert(dates@[k]@ == date@);
        }
    }
    false
}

/// Keeps the markers whose date is one of `dates` (the bars of the chart
/// window), in the order they came.
pub fn filter_markers_by_dates(markers: &[BsMarker], dates: &[String]) -> (r: Vec<BsMarker>)
    ensures
        r@.map_values(|m: BsMarker| marker_view(m)) == kept_markers(
            markers@.map_values(|m: BsMarker| marker_view(m)),
            dates_view(dates@),
        ),
{
    let ghost src = markers@.map_values(|m: BsMarker| marker_view(m));
    let ghost dv = dates_view(dates@);
    let mut out: Vec<BsMarker> = Vec::new();
    let mut i: usize = 0;
    while i < markers.len()
        invariant
            i <= markers.len(),
            src == markers@.map_values(|m: BsMarker| marker_view(m)),
            dv == dates_view(dates@),
            out@.map_values(|m: BsMarker| marker_view(m)) == kept_markers(src.take(i as int), dv),
        decreases markers.len() - i,
    {
        assert(src.take(i as int + 1).drop_last() =~= src.take(i as int));
        assert(src.take(i as int + 1).last() == marker_view(markers@[i as int]));
        let m = &markers[i];
        if date_listed(&m.date, dates) {
            let copy = BsMarker { date: to_owned_string(m.date.as_str()), kind: m.kind };
            let ghost before = out@;
            out.push(copy);
            assert(out@.map_values(|m: BsMarker| marker_view(m)) =~= before.map_values(
                |m: BsMarker| marker_view(m),
            ).push(marker_view(markers@[i as int])));
        }
        i += 1;
    }
    assert(src.take(markers.len() as int) =~= src);
    out
}

/// Every kept marker is one of the given markers and lies on a date of the
/// window.
pub proof fn law_kept_markers_in_window(ms: Seq<(Seq<char>, BsMarkerKind)>, dates: Seq<Seq<char>>, i: int)
    requires
        0 <= i < kept_markers(ms, dates).len(),
    ensures
        dates.contains(kept_markers(ms, dates)[i].0),
        ms.contains(kept_markers(ms, dates)[i]),
    decreases ms.len(),
{
    let rest = kept_markers(ms.drop_last(), dates);
    if i < rest.len() {
        law_kept_markers_in_window(ms.drop_last(), dates, i);
        let k = choose|k: int| 0 <= k < ms.drop_last().len() && ms.drop_last()[k] == rest[i];
        assert(ms[k] == rest[i]);
    } else {
        assert(ms[ms.len() - 1] == ms.last());
    }
}

} // verus!
