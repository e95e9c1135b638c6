//! Behavioural-probe measurements and the capability proxy's per-probe
//! (identity) gate.
use vstd::prelude::*;

use crate::error::{EfficacyError, ErrorView};
use crate::text::{
    bool_string, bool_text, decimal, decimal_text, join_text, joined, lemma_ascending_distinct,
    strictly_ascending, text_less, views,
};

verus! {

/// The probe result of one measurement pass.
#[derive(Debug, Clone)]
pub struct ProbeMeasurement {
    pub total: u32,
    pub passed: u32,
    /// Optional per-probe outcomes: one `(probe id, passed)` entry per
    /// probe, in ascending id order (the entries of an id-keyed map). When
    /// present in both measurements, the identity gate is cross-checked
    /// against the aggregate gate (see D1b).
    pub results: Option<Vec<(String, bool)>>,
}

/// How many entries of `s` record a passed probe.
pub open spec fn passed_count(s: Seq<(String, bool)>) -> nat
    decreases s.len(),
{
    if s.len() == 0 {
        0
    } else {
        passed_count(s.drop_last()) + if s.last().1 {
            1nat
        } else {
            0nat
        }
    }
}

/// The ids of the entries of `s`, in order.
pub open spec fn probe_ids(s: Seq<(String, bool)>) -> Seq<Seq<char>> {
    s.map_values(|e: (String, bool)| e.0@)
}

/// Per-probe results as an id-keyed map holds them: ids strictly
/// ascending, so each probe appears once.
pub open spec fn results_ascending(results: Option<Vec<(String, bool)>>) -> bool {
    results matches Some(r) ==> strictly_ascending(probe_ids(r@))
}

/// Why a probe measurement is malformed, if it is.
pub open spec fn probe_refusal(p: ProbeMeasurement) -> Option<Seq<char>> {
    if p.total == 0 {
        Some("probes.total must be > 0"@)
    } else if p.passed > p.total {
        Some("probes.passed exceeds probes.total"@)
    } else {
        match p.results {
            Some(r) => {
                let n = r@.len() as u32;
                let k = passed_count(r@) as u32;
                if n != p.total || k != p.passed {
                    Some(
                        "probes.results ("@ + decimal(k as nat) + "/"@ + decimal(n as nat)
                            + ") disagrees with probes.passed/total ("@ + decimal(
                            p.passed as nat,
                        ) + "/"@ + decimal(p.total as nat) + ")"@,
                    )
                } else {
                    None
                }
            },
            None => None,
        }
    }
}

/// The ids of the probes that passed before and fail after, in order;
/// `before` and `after` are read position by position.
pub open spec fn regressed_ids(before: Seq<(String, bool)>, after: Seq<(String, bool)>) -> Seq<
    Seq<char>,
>
    decreases before.len(),
{
    if before.len() == 0 {
        Seq::empty()
    } else {
        let i = before.len() - 1;
        let prev = regressed_ids(before.drop_last(), after);
        if before[i].1 && !after[i].1 {
            prev.push(before[i].0@)
        } else {
            prev
        }
    }
}

/// The message of the refusal when the two measurements list different
/// probe ids.
pub open spec fn probe_ids_differ_message() -> Seq<char> {
    "probe ids differ between baseline and after measurements"@
}

/// The detail of the D1b refusal.
pub open spec fn d1b_detail(aggregate_ok: bool, regressed: Seq<Seq<char>>) -> Seq<char> {
    "aggregate pass-rate gate says capability_ok="@ + bool_text(aggregate_ok)
        + " but per-probe identity gate says capability_ok="@ + bool_text(regressed.len() <= 1)
        + " ("@ + decimal(regressed.len()) + " baseline-passing probes regressed: "@ + joined(
        regressed,
        ", "@,
    ) + ")"@
}

/// What the capability gate refuses, if anything: when both measurements
/// carry per-probe results, differing probe ids are malformed data, and an
/// identity gate (at most one baseline-passing probe regressed) that
/// disagrees with the aggregate gate awaits ruling D1b.
pub open spec fn capability_refusal(
    aggregate_ok: bool,
    before: Option<Vec<(String, bool)>>,
    after: Option<Vec<(String, bool)>>,
) -> Option<ErrorView> {
    match (before, after) {
        (Some(b), Some(a)) => if probe_ids(b@) != probe_ids(a@) {
            Some(ErrorView::Data(probe_ids_differ_message()))
        } else {
            let regressed = regressed_ids(b@, a@);
            if (regressed.len() <= 1) != aggregate_ok {
                Some(
                    ErrorView::AwaitingRuling {
                        question: "D1b"@,
                        detail: d1b_detail(aggregate_ok, regressed),
                    },
                )
            } else {
                None
            }
        },
        _ => None,
    }
}

impl ProbeMeasurement {
    /// Refuse a malformed probe measurement: no probes, more passes than
    /// probes, or per-probe results that disagree with the totals.
    pub fn check(&self) -> (r: Result<(), EfficacyError>)
        requires
            results_ascending(self.results),
        ensures
            r is Ok <==> probe_refusal(*self) is None,
            r matches Err(e) ==> probe_refusal(*self) matches Some(m) && e@ == ErrorView::Data(m),
    {
        if self.total == 0 {
            return Err(EfficacyError::Data("probes.total must be > 0".to_owned()));
        }
        if self.passed > self.total {
            return Err(EfficacyError::Data("probes.passed exceeds probes.total".to_owned()));
        }
        match &self.results {
            Some(results) => {
                let n = results.len() as u32;
                let mut count: usize = 0;
                let mut i: usize = 0;
                while i < results.len()
                    invariant
                        i <= results.len(),
                        count <= i,
                        count == passed_count(results@.subrange(0, i as int)),
                    decreases results.len() - i,
                {
                    proof {
                        assert(results@.subrange(0, i + 1).drop_last() =~= results@.subrange(
                            0,
                            i as int,
                        ));
                    }
                    if results[i].1 {
                        count = count + 1;
                    }
                    i = i + 1;
                }
                proof {
                    assert(results@.subrange(0, results@.len() as int) =~= results@);
                }
                let k = count as u32;
                if n != self.total || k != self.passed {
                    let mut msg = "probes.results (".to_owned();
                    msg.push_str(decimal_text(k as u64).as_str());
                    msg.push_str("/");
                    msg.push_str(decimal_text(n as u64).as_str());
                    msg.push_str(") disagrees with probes.passed/total (");
                    msg.push_str(decimal_text(self.passed as u64).as_str());
                    msg.push_str("/");
                    msg.push_str(decimal_text(self.total as u64).as_str());
                    msg.push_str(")");
                    return Err(EfficacyError::Data(msg));
                }
                Ok(())
            },
            None => Ok(()),
        }
    }
}

/// The ids of the probes that passed in `before` and fail in `after`, in
/// order; refused as malformed data when the two list different ids.
pub fn regressed_probes(before: &Vec<(String, bool)>, after: &Vec<(String, bool)>) -> (r: Result<
    Vec<String>,
    EfficacyError,
>)
    requires
        strictly_ascending(probe_ids(before@)),
        strictly_ascending(probe_ids(after@)),
    ensures
        r is Err <==> probe_ids(before@) != probe_ids(after@),
        r matches Err(e) ==> e@ == ErrorView::Data(probe_ids_differ_message()),
        r matches Ok(v) ==> views(v@) == regressed_ids(before@, after@),
{
    if before.len() != after.len() {
        proof {
            assert(probe_ids(before@).len() != probe_ids(after@).len());
        }
        return Err(EfficacyError::Data(
            "probe ids differ between baseline and after measurements".to_owned(),
        ));
    }
    let mut i: usize = 0;
    while i < before.len()
        invariant
            i <= before.len(),
            before.len() == after.len(),
            forall|j: int| 0 <= j < i ==> #[trigger] before@[j].0@ == after@[j].0@,
        decreases before.len() - i,
    {
        if before[i].0 != after[i].0 {
            proof {
                assert(probe_ids(before@)[i as int] != probe_ids(after@)[i as int]);
            }
            return Err(EfficacyError::Data(
                "probe ids differ between baseline and after measurements".to_owned(),
            ));
        }
        i = i + 1;
    }
    proof {
        assert(probe_ids(before@) =~= probe_ids(after@));
    }
    let mut out: Vec<String> = Vec::new();
    let mut i: usize = 0;
    while i < before.len()
        invariant
            i <= before.len(),
            before.len() == after.len(),
            views(out@) == regressed_ids(before@.subrange(0, i as int), after@),
        decreases before.len() - i,
    {
        proof {
            assert(before@.subrange(0, i + 1).drop_last() =~= before@.subrange(0, i as int));
        }
        if before[i].1 && !after[i].1 {
            let id = before[i].0.clone();
            out.push(id);
            proof {
                assert(views(out@) =~= regressed_ids(before@.subrange(0, i as int), after@).push(
                    before@[i as int].0@,
                ));
            }
        }
        i = i + 1;
    }
    proof {
        assert(before@.subrange(0, before@.len() as int) =~= before@);
    }
    Ok(out)
}

/// The capability proxy's cross-check. When both measurements carry
/// per-probe results, returns the regressed probe ids, refusing malformed
/// ids and a disagreement between the aggregate gate (`aggregate_ok`) and
/// the identity gate (at most one regressed probe) as awaiting ruling D1b;
/// otherwise `None`.
pub fn capability_cross_check(
    aggregate_ok: bool,
    before: &Option<Vec<(String, bool)>>,
    after: &Option<Vec<(String, bool)>>,
) -> (r: Result<Option<Vec<String>>, EfficacyError>)
    requires
        results_ascending(*before),
        results_ascending(*after),
    ensures
        r is Ok <==> capability_refusal(aggregate_ok, *before, *after) is None,
        r matches Err(e) ==> capability_refusal(aggregate_ok, *before, *after) == Some(e@),
        r matches Ok(o) ==> match (*before, *after) {
            (Some(b), Some(a)) => o matches Some(v) && views(v@) == regressed_ids(b@, a@),
            _ => o is None,
        },
{
    match (before, after) {
        (Some(b), Some(a)) => {
            let regressed = regressed_probes(b, a)?;
            let identity_ok = regressed.len() <= 1;
            if identity_ok != aggregate_ok {
                let mut detail = "aggregate pass-rate gate says capability_ok=".to_owned();
                detail.push_str(bool_string(aggregate_ok).as_str());
                detail.push_str(" but per-probe identity gate says capability_ok=");
                detail.push_str(bool_string(identity_ok).as_str());
                detail.push_str(" (");
                detail.push_str(decimal_text(regressed.len() as u64).as_str());
                detail.push_str(" baseline-passing probes regressed: ");
                detail.push_str(join_text(&regressed, ", ").as_str());
                detail.push_str(")");
                proof {
                    assert(views(regressed@).len() == regressed@.len());
                }
                return Err(EfficacyError::AwaitingRuling { question: "D1b", detail });
            }
            proof {
                assert(views(regressed@).len() == regressed@.len());
            }
            Ok(Some(regressed))
        },
        _ => Ok(None),
    }
}

/// The identity gate counts genuine regressions: every regressed id is the
/// id of a probe that passed before and fails after, and there are no more
/// regressions than probes that passed before.
pub proof fn lemma_regressed_are_regressions(
    before: Seq<(String, bool)>,
    after: Seq<(String, bool)>,
)
    ensures
        forall|k: int|
            0 <= k < regressed_ids(before, after).len() ==> exists|j: int|
                0 <= j < before.len() && before[j].0@ == #[trigger] regressed_ids(before, after)[k]
                    && before[j].1 && !after[j].1,
        regressed_ids(before, after).len() <= passed_count(before),
    decreases before.len(),
{
    if before.len() > 0 {
        let b0 = before.drop_last();
        lemma_regressed_are_regressions(b0, after);
        let r = regressed_ids(before, after);
        let r0 = regressed_ids(b0, after);
        assert forall|k: int| 0 <= k < r.len() implies exists|j: int|
            0 <= j < before.len() && before[j].0@ == #[trigger] r[k] && before[j].1
                && !after[j].1 by {
            if k < r0.len() {
                assert(r[k] == r0[k]);
                let j = choose|j: int|
                    0 <= j < b0.len() && b0[j].0@ == #[trigger] r0[k] && b0[j].1 && !after[j].1;
                assert(before[j] == b0[j]);
            } else {
                let i = before.len() - 1;
                assert(before[i].0@ == r[k]);
            }
        }
    }
}

/// The identity gate misses no regression: the id of every probe that
/// passed before and fails after is among the regressed ids.
pub proof fn lemma_regressed_complete(before: Seq<(String, bool)>, after: Seq<(String, bool)>)
    ensures
        forall|j: int|
            0 <= j < before.len() && #[trigger] before[j].1 && !after[j].1 ==> regressed_ids(
                before,
                after,
            ).contains(before[j].0@),
    decreases before.len(),
{
    if before.len() > 0 {
        let b0 = before.drop_last();
        lemma_regressed_complete(b0, after);
        let r = regressed_ids(before, after);
        let r0 = regressed_ids(b0, after);
        let i = before.len() - 1;
        assert forall|j: int| 0 <= j < before.len() && #[trigger] before[j].1 && !after[j].1 implies r.contains(
            before[j].0@,
        ) by {
            if j < i {
                assert(b0[j] == before[j]);
                assert(r0.contains(b0[j].0@));
                let k = choose|k: int| 0 <= k < r0.len() && r0[k] == b0[j].0@;
                assert(r[k] == r0[k]);
            } else {
                assert(r[r.len() - 1] == before[i].0@);
            }
        }
    }
}

/// With each probe listed once (ids ascending), the regressed ids are
/// exactly the ids of the probes that passed before and fail after, each
/// once and in ascending order.
pub proof fn lemma_regressed_ids_exact(before: Seq<(String, bool)>, after: Seq<(String, bool)>)
    requires
        strictly_ascending(probe_ids(before)),
    ensures
        forall|j: int|
            0 <= j < before.len() ==> (regressed_ids(before, after).contains(#[trigger] before[j].0@)
                <==> (before[j].1 && !after[j].1)),
        strictly_ascending(regressed_ids(before, after)),
    decreases before.len(),
{
    let ids = probe_ids(before);
    lemma_ascending_distinct(ids);
    lemma_regressed_complete(before, after);
    lemma_regressed_are_regressions(before, after);
    let r = regressed_ids(before, after);
    assert forall|j: int| 0 <= j < before.len() && r.contains(#[trigger] before[j].0@) implies (
    before[j].1 && !after[j].1) by {
        let k = choose|k: int| 0 <= k < r.len() && r[k] == before[j].0@;
        let q = choose|q: int|
            0 <= q < before.len() && before[q].0@ == #[trigger] r[k] && before[q].1 && !after[q].1;
        assert(ids[q] == ids[j]);
    }
    if before.len() > 0 {
        let b0 = before.drop_last();
        let i = before.len() - 1;
        assert forall|x: int, y: int| 0 <= x < y < probe_ids(b0).len() implies text_less(
            #[trigger] probe_ids(b0)[x],
            #[trigger] probe_ids(b0)[y],
        ) by {
            assert(probe_ids(b0)[x] == ids[x]);
            assert(probe_ids(b0)[y] == ids[y]);
        }
        lemma_regressed_ids_exact(b0, after);
        let r0 = regressed_ids(b0, after);
        if before[i].1 && !after[i].1 {
            lemma_regressed_are_regressions(b0, after);
            assert forall|x: int, y: int| 0 <= x < y < r.len() implies text_less(
                #[trigger] r[x],
                #[trigger] r[y],
            ) by {
                if y < r0.len() {
                    assert(r[x] == r0[x]);
                    assert(r[y] == r0[y]);
                } else {
                    assert(r[x] == r0[x]);
                    let q = choose|q: int|
                        0 <= q < b0.len() && b0[q].0@ == #[trigger] r0[x] && b0[q].1
                            && !after[q].1;
                    assert(ids[q] == b0[q].0@);
                    assert(r[y] == ids[i]);
                    assert(text_less(ids[q], ids[i]));
                }
            }
        } else {
            assert(r == r0);
        }
    }
}

} // verus!
