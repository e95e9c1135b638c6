//! The ten ISA metrics: their names in canonical order, their default
//! category weights, and the order of their names.
use vstd::prelude::*;

use crate::text::same_text;

verus! {

/// How many ISA metrics the protocol defines.
pub const METRIC_COUNT: usize = 10;

/// The name of the metric at canonical position `i`.
pub open spec fn metric_name_spec(i: int) -> Seq<char> {
    if i == 0 {
        seq!['T', 'I', 'I']
    } else if i == 1 {
        seq!['L', 'P', 'S']
    } else if i == 2 {
        seq!['E', 'F', 'R']
    } else if i == 3 {
        seq!['P', 'Q']
    } else if i == 4 {
        seq!['T', 'A', 'I']
    } else if i == 5 {
        seq!['I', 'C', 'S']
    } else if i == 6 {
        seq!['C', 'I', 'I']
    } else if i == 7 {
        seq!['S', 'R', 'S']
    } else if i == 8 {
        seq!['S', 'F', 'R']
    } else {
        seq!['R', 'C', 'I']
    }
}

/// The default category weight of the metric at canonical position `i`,
/// in tenths (the protocol's weights all have one decimal).
pub open spec fn metric_weight_tenths_spec(i: int) -> nat {
    if i == 0 {
        10
    } else if i == 1 {
        12
    } else if i == 2 {
        15
    } else if i == 3 {
        11
    } else if i == 4 {
        8
    } else if i == 5 {
        13
    } else if i == 6 {
        14
    } else if i == 7 {
        12
    } else if i == 8 {
        13
    } else {
        11
    }
}

/// The canonical position of the metric that comes `k`-th when the ten
/// names are ordered as strings: CII, EFR, ICS, LPS, PQ, RCI, SFR, SRS,
/// TAI, TII.
pub open spec fn name_order_spec(k: int) -> int {
    if k == 0 {
        6
    } else if k == 1 {
        2
    } else if k == 2 {
        5
    } else if k == 3 {
        1
    } else if k == 4 {
        3
    } else if k == 5 {
        9
    } else if k == 6 {
        8
    } else if k == 7 {
        7
    } else if k == 8 {
        4
    } else {
        0
    }
}

/// Whether `s` names one of the ten metrics.
pub open spec fn is_metric_name(s: Seq<char>) -> bool {
    exists|i: int| 0 <= i < 10 && #[trigger] metric_name_spec(i) == s
}

/// The canonical position of the metric named `s`, if any.
pub open spec fn metric_position(s: Seq<char>) -> Option<int> {
    if is_metric_name(s) {
        Some(choose|i: int| 0 <= i < 10 && #[trigger] metric_name_spec(i) == s)
    } else {
        None
    }
}

/// The ten names are pairwise distinct.
pub proof fn lemma_metric_names_distinct(i: int, j: int)
    requires
        0 <= i < 10,
        0 <= j < 10,
        i != j,
    ensures
        metric_name_spec(i) != metric_name_spec(j),
{
    let a = metric_name_spec(i);
    let b = metric_name_spec(j);
    if a.len() == b.len() {
        assert(a[0] != b[0] || a[1] != b[1] || a[2] != b[2]);
    }
}

/// A metric name has exactly one canonical position.
pub proof fn lemma_metric_position(i: int)
    requires
        0 <= i < 10,
    ensures
        metric_position(metric_name_spec(i)) == Some(i),
{
    let s = metric_name_spec(i);
    assert(is_metric_name(s));
    let j = choose|j: int| 0 <= j < 10 && #[trigger] metric_name_spec(j) == s;
    if j != i {
        lemma_metric_names_distinct(i, j);
    }
}

/// Where the metric at canonical position `i` comes in the order of the
/// names: the inverse of `name_order_spec`.
pub open spec fn name_rank_spec(i: int) -> int {
    if i == 0 {
        9
    } else if i == 1 {
        3
    } else if i == 2 {
        1
    } else if i == 3 {
        4
    } else if i == 4 {
        8
    } else if i == 5 {
        2
    } else if i == 6 {
        0
    } else if i == 7 {
        7
    } else if i == 8 {
        6
    } else {
        5
    }
}

/// The name order visits each canonical position exactly once.
pub proof fn lemma_name_order_is_permutation()
    ensures
        forall|k: int| 0 <= k < 10 ==> 0 <= #[trigger] name_order_spec(k) < 10,
        forall|k: int| 0 <= k < 10 ==> #[trigger] name_rank_spec(name_order_spec(k)) == k,
        forall|i: int|
            0 <= i < 10 ==> 0 <= #[trigger] name_rank_spec(i) < 10 && name_order_spec(
                name_rank_spec(i),
            ) == i,
{
}

/// The name of the metric at canonical position `i`.
pub fn metric_name(i: usize) -> (s: &'static str)
    requires
        i < METRIC_COUNT,
    ensures
        s@ == metric_name_spec(i as int),
{
    if i == 0 {
        proof { reveal_strlit("TII"); }
        "TII"
    } else if i == 1 {
        proof { reveal_strlit("LPS"); }
        "LPS"
    } else if i == 2 {
        proof { reveal_strlit("EFR"); }
        "EFR"
    } else if i == 3 {
        proof { reveal_strlit("PQ"); }
        "PQ"
    } else if i == 4 {
        proof { reveal_strlit("TAI"); }
        "TAI"
    } else if i == 5 {
        proof { reveal_strlit("ICS"); }
        "ICS"
    } else if i == 6 {
        proof { reveal_strlit("CII"); }
        "CII"
    } else if i == 7 {
        proof { reveal_strlit("SRS"); }
        "SRS"
    } else if i == 8 {
        proof { reveal_strlit("SFR"); }
        "SFR"
    } else {
        proof { reveal_strlit("RCI"); }
        "RCI"
    }
}

/// The default category weight of the metric at canonical position `i`,
/// in tenths: 1.0, 1.2, 1.5, 1.1, 0.8, 1.3, 1.4, 1.2, 1.3, 1.1 in
/// canonical order.
pub fn metric_weight_tenths(i: usize) -> (w: u32)
    requires
        i < METRIC_COUNT,
    ensures
        w == metric_weight_tenths_spec(i as int),
{
    if i == 0 {
        10
    } else if i == 1 {
        12
    } else if i == 2 {
        15
    } else if i == 3 {
        11
    } else if i == 4 {
        8
    } else if i == 5 {
        13
    } else if i == 6 {
        14
    } else if i == 7 {
        12
    } else if i == 8 {
        13
    } else {
        11
    }
}

/// The canonical position of the metric that comes `k`-th in the order of
/// the names.
pub fn name_order(k: usize) -> (i: usize)
    requires
        k < METRIC_COUNT,
    ensures
        i == name_order_spec(k as int),
        i < METRIC_COUNT,
{
    if k == 0 {
        6
    } else if k == 1 {
        2
    } else if k == 2 {
        5
    } else if k == 3 {
        1
    } else if k == 4 {
        3
    } else if k == 5 {
        9
    } else if k == 6 {
        8
    } else if k == 7 {
        7
    } else if k == 8 {
        4
    } else {
        0
    }
}

/// The canonical position of the metric named `m`, or `None` when `m`
/// names none of the ten.
pub fn metric_index(m: &str) -> (r: Option<usize>)
    ensures
        r matches Some(i) ==> i < METRIC_COUNT && metric_name_spec(i as int) == m@,
        r is None <==> !is_metric_name(m@),
        r matches Some(i) ==> metric_position(m@) == Some(i as int),
{
    let mut i: usize = 0;
    while i < METRIC_COUNT
        invariant
            i <= METRIC_COUNT,
            forall|j: int| 0 <= j < i ==> metric_name_spec(j) != m@,
        decreases METRIC_COUNT - i,
    {
        if same_text(metric_name(i), m) {
            proof { lemma_metric_position(i as int); }
            return Some(i);
        }
        i = i + 1;
    }
    None
}

/// Whether `m` names one of the ten ISA metrics.
pub fn known_metric(m: &str) -> (r: bool)
    ensures
        r == is_metric_name(m@),
{
    metric_index(m).is_some()
}

} // verus!
