//! What the evaluator and the writers produce, the validators accept: the
//! laws that tie the two halves of the protocol together.
use vstd::prelude::*;

use crate::evaluation::{
    all_improved, collateral_exceeded, collateral_positions, collateral_prefix, comparison_of,
    evaluation_refusal, evaluation_verdict, improvements, input_refusal, none_improved,
    unknown_target, warned_names, zero_baseline_target, MeasurementShape, MetricComparison,
};
use crate::metric::{
    is_metric_name, lemma_name_order_is_permutation, metric_name_spec, name_order_spec,
    name_rank_spec,
};
use crate::report::{first_unnamed, notes_refusal, notes_text};
use crate::text::{has_substring, is_blank_spec};
use crate::efficacy_validation::{
    efficacy_problems,
    any_beyond, collateral_arith_problems, collateral_names, collateral_set_problems, complete,
    coverage_problems, expected_verdict, notes_problems, structural_problems, target_arith_problems,
    target_flags, target_names, target_set_problems, unnamed_problems, uncovered,
    verdict_problems, warned_collateral, CollateralFacts, EfficacyReportFacts, ProblemView,
    TargetFacts,
};
use crate::frontier::{
    appended_record, frontier_before, lemma_appended_record_attempts,
    lemma_appended_record_invariant, lemma_frontier_moves_only_up, model_verdicts, record_invariant,
    RecordModel,
};
use crate::frontier_validation::{
    attempt_problems, attempt_verdicts, attempts_problems, baseline_problems, frontier_problems,
    lemma_accepted_record_is_sound,
    record_header_problems, record_tail_problems, AttemptFacts, FrontierProblemView,
    FrontierRecordFacts,
};
use crate::report::{EFFICACY_VERSION, FRONTIER_VERSION};
use crate::text::{has_prefix, views};
use crate::verdict::{acceptance, lemma_acceptance_gates, Verdict};

verus! {

/// The collateral facts of a report list, in order, the evaluator's
/// collateral metrics with the outcomes of their comparisons.
pub open spec fn collateral_recorded(
    cs: Seq<CollateralFacts>,
    positions: Seq<int>,
    comparisons: Seq<MetricComparison>,
) -> bool {
    &&& cs.len() == positions.len()
    &&& forall|j: int|
        0 <= j < cs.len() ==> {
            &&& (#[trigger] cs[j]).metric@ == metric_name_spec(positions[j])
            &&& cs[j].beyond_warning == comparisons[positions[j]].beyond_warning
            &&& cs[j].in_warning_band == comparisons[positions[j]].in_warning_band
        }
}

/// The target facts of a report list exactly the evaluator's targets (each
/// once, in any order), with the outcomes of their comparisons.
pub open spec fn targets_recorded(
    f: EfficacyReportFacts,
    targets: Seq<Seq<char>>,
    comparisons: Seq<MetricComparison>,
) -> bool {
    &&& forall|j: int|
        0 <= j < f.targets@.len() ==> {
            &&& targets.contains((#[trigger] f.targets@[j]).metric@)
            &&& f.targets@[j].improved == comparison_of(f.targets@[j].metric@, comparisons).improved
        }
    &&& forall|k: int| 0 <= k < targets.len() ==> target_names(f.targets@).contains(#[trigger] targets[k])
}

proof fn lemma_warned_agree(
    cs: Seq<CollateralFacts>,
    positions: Seq<int>,
    comparisons: Seq<MetricComparison>,
)
    requires
        collateral_recorded(cs, positions, comparisons),
    ensures
        warned_collateral(cs) == warned_names(positions, comparisons),
    decreases cs.len(),
{
    if cs.len() > 0 {
        let cs0 = cs.drop_last();
        let ps0 = positions.drop_last();
        assert forall|j: int| 0 <= j < cs0.len() implies {
            &&& (#[trigger] cs0[j]).metric@ == metric_name_spec(ps0[j])
            &&& cs0[j].beyond_warning == comparisons[ps0[j]].beyond_warning
            &&& cs0[j].in_warning_band == comparisons[ps0[j]].in_warning_band
        } by {
            assert(cs0[j] == cs[j]);
        }
        lemma_warned_agree(cs0, ps0, comparisons);
        assert(cs.last() == cs[cs.len() - 1]);
    }
}

/// Validation agrees with evaluation on the verdict. Given a stored
/// evaluation (its targets with their improvement, its collateral
/// metrics in order with their band outcomes, its capability gate and the
/// sign of its `D_ISA`), the verdict the acceptance rule implies for the
/// report is the verdict the evaluator decided.
pub proof fn lemma_validator_recomputes_evaluator_verdict(
    targets: Seq<Seq<char>>,
    comparisons: Seq<MetricComparison>,
    aggregate_ok: bool,
    net_nonnegative: bool,
    f: EfficacyReportFacts,
)
    requires
        targets_recorded(f, targets, comparisons),
        collateral_recorded(f.collateral@, collateral_positions(targets), comparisons),
        f.capability_ok == aggregate_ok,
        f.isa_nonnegative == net_nonnegative,
    ensures
        expected_verdict(f) == evaluation_verdict(
            targets,
            comparisons,
            aggregate_ok,
            net_nonnegative,
        ),
{
    let positions = collateral_positions(targets);
    let flags = target_flags(f.targets@);
    let eflags = improvements(targets, comparisons);
    assert(none_improved(flags) == none_improved(eflags)) by {
        if none_improved(flags) {
            assert forall|k: int| 0 <= k < eflags.len() implies !#[trigger] eflags[k] by {
                assert(target_names(f.targets@).contains(targets[k]));
                let j = choose|j: int|
                    0 <= j < target_names(f.targets@).len() && target_names(f.targets@)[j]
                        == targets[k];
                assert(!flags[j]);
            }
        }
        if none_improved(eflags) {
            assert forall|j: int| 0 <= j < flags.len() implies !#[trigger] flags[j] by {
                assert(targets.contains(f.targets@[j].metric@));
                let k = choose|k: int| 0 <= k < targets.len() && targets[k] == f.targets@[j].metric@;
                assert(!eflags[k]);
            }
        }
    }
    assert(any_beyond(f.collateral@) == collateral_exceeded(positions, comparisons)) by {
        if any_beyond(f.collateral@) {
            let j = choose|j: int|
                0 <= j < f.collateral@.len() && (#[trigger] f.collateral@[j]).beyond_warning;
            assert(comparisons[positions[j]].beyond_warning);
        }
        if collateral_exceeded(positions, comparisons) {
            let j = choose|j: int|
                0 <= j < positions.len() && comparisons[#[trigger] positions[j]].beyond_warning;
            assert(f.collateral@[j].beyond_warning);
        }
    }
    lemma_warned_agree(f.collateral@, positions, comparisons);
}

proof fn lemma_collateral_prefix(targets: Seq<Seq<char>>, k: int)
    requires
        0 <= k <= 10,
    ensures
        forall|j: int|
            0 <= j < collateral_prefix(targets, k).len() ==> {
                &&& 0 <= #[trigger] collateral_prefix(targets, k)[j] < 10
                &&& !targets.contains(metric_name_spec(collateral_prefix(targets, k)[j]))
            },
        forall|q: int|
            0 <= q < k && !targets.contains(metric_name_spec(#[trigger] name_order_spec(q)))
                ==> collateral_prefix(targets, k).contains(name_order_spec(q)),
    decreases k,
{
    lemma_name_order_is_permutation();
    if k > 0 {
        lemma_collateral_prefix(targets, k - 1);
        let prev = collateral_prefix(targets, k - 1);
        let cur = collateral_prefix(targets, k);
        assert forall|q: int|
            0 <= q < k && !targets.contains(metric_name_spec(#[trigger] name_order_spec(q)))
                implies cur.contains(name_order_spec(q)) by {
            if q < k - 1 {
                let j = choose|j: int| 0 <= j < prev.len() && prev[j] == name_order_spec(q);
                assert(cur[j] == prev[j]);
            } else {
                assert(cur[cur.len() - 1] == name_order_spec(q));
            }
        }
        assert forall|j: int| 0 <= j < cur.len() implies {
            &&& 0 <= #[trigger] cur[j] < 10
            &&& !targets.contains(metric_name_spec(cur[j]))
        } by {
            if j < prev.len() {
                assert(cur[j] == prev[j]);
            }
        }
    }
}

proof fn lemma_no_target_set_problems(ts: Seq<Seq<char>>, cs: Seq<Seq<char>>, targets: Seq<Seq<char>>)
    requires
        forall|k: int| 0 <= k < ts.len() ==> is_metric_name(#[trigger] ts[k]) && targets.contains(ts[k]),
        forall|j: int| 0 <= j < cs.len() ==> !targets.contains(#[trigger] cs[j]),
    ensures
        target_set_problems(ts, cs) == Seq::<ProblemView>::empty(),
    decreases ts.len(),
{
    if ts.len() > 0 {
        let t0 = ts.drop_last();
        assert forall|k: int| 0 <= k < t0.len() implies is_metric_name(#[trigger] t0[k])
            && targets.contains(t0[k]) by {
            assert(t0[k] == ts[k]);
        }
        lemma_no_target_set_problems(t0, cs, targets);
        assert(ts.last() == ts[ts.len() - 1]);
        if cs.contains(ts.last()) {
            let j = choose|j: int| 0 <= j < cs.len() && cs[j] == ts.last();
            assert(!targets.contains(cs[j]));
        }
        assert(target_set_problems(ts, cs) =~= Seq::empty());
    }
}

proof fn lemma_no_collateral_set_problems(cs: Seq<Seq<char>>)
    requires
        forall|j: int| 0 <= j < cs.len() ==> is_metric_name(#[trigger] cs[j]),
    ensures
        collateral_set_problems(cs) == Seq::<ProblemView>::empty(),
    decreases cs.len(),
{
    if cs.len() > 0 {
        let c0 = cs.drop_last();
        assert forall|j: int| 0 <= j < c0.len() implies is_metric_name(#[trigger] c0[j]) by {
            assert(c0[j] == cs[j]);
        }
        lemma_no_collateral_set_problems(c0);
        assert(cs.last() == cs[cs.len() - 1]);
        assert(collateral_set_problems(cs) =~= Seq::empty());
    }
}

proof fn lemma_no_coverage_problems(ts: Seq<Seq<char>>, cs: Seq<Seq<char>>, n: int)
    requires
        0 <= n <= 10,
        forall|i: int| 0 <= i < 10 ==> !#[trigger] uncovered(ts, cs, i),
    ensures
        coverage_problems(ts, cs, n) == Seq::<ProblemView>::empty(),
    decreases n,
{
    if n > 0 {
        lemma_no_coverage_problems(ts, cs, n - 1);
        assert(!uncovered(ts, cs, n - 1));
        assert(coverage_problems(ts, cs, n) =~= Seq::empty());
    }
}

/// The evaluator's partition validates: a report whose target metrics are
/// exactly the evaluator's (known) targets and whose collateral metrics are
/// the evaluator's collateral metrics, in order, has no unknown metric, no
/// metric in both sets and no metric in neither set.
pub proof fn lemma_evaluator_partition_validates(
    targets: Seq<Seq<char>>,
    comparisons: Seq<MetricComparison>,
    f: EfficacyReportFacts,
)
    requires
        unknown_target(targets, 0) is None,
        targets_recorded(f, targets, comparisons),
        collateral_recorded(f.collateral@, collateral_positions(targets), comparisons),
    ensures
        target_set_problems(target_names(f.targets@), collateral_names(f.collateral@))
            == Seq::<ProblemView>::empty(),
        collateral_set_problems(collateral_names(f.collateral@)) == Seq::<ProblemView>::empty(),
        coverage_problems(target_names(f.targets@), collateral_names(f.collateral@), 10)
            == Seq::<ProblemView>::empty(),
{
    let ts = target_names(f.targets@);
    let cs = collateral_names(f.collateral@);
    let positions = collateral_positions(targets);
    lemma_collateral_prefix(targets, 10);
    lemma_name_order_is_permutation();
    lemma_known_targets(targets, 0);
    assert forall|k: int| 0 <= k < ts.len() implies is_metric_name(#[trigger] ts[k])
        && targets.contains(ts[k]) by {
        assert(targets.contains(f.targets@[k].metric@));
        let q = choose|q: int| 0 <= q < targets.len() && targets[q] == f.targets@[k].metric@;
        assert(is_metric_name(targets[q]));
    }
    assert forall|j: int| 0 <= j < cs.len() implies !targets.contains(#[trigger] cs[j])
        && is_metric_name(cs[j]) by {
        assert(f.collateral@[j].metric@ == metric_name_spec(positions[j]));
        assert(is_metric_name(metric_name_spec(positions[j])));
    }
    lemma_no_target_set_problems(ts, cs, targets);
    lemma_no_collateral_set_problems(cs);
    assert forall|i: int| 0 <= i < 10 implies !#[trigger] uncovered(ts, cs, i) by {
        let name = metric_name_spec(i);
        if targets.contains(name) {
            let q = choose|q: int| 0 <= q < targets.len() && targets[q] == name;
            assert(ts.contains(targets[q]));
        } else {
            let r = name_rank_spec(i);
            assert(name_order_spec(r) == i);
            assert(positions.contains(name_order_spec(r)));
            let j = choose|j: int| 0 <= j < positions.len() && positions[j] == i;
            assert(cs[j] == f.collateral@[j].metric@);
            assert(cs.contains(name));
        }
    }
    lemma_no_coverage_problems(ts, cs, 10);
}

proof fn lemma_known_targets(targets: Seq<Seq<char>>, k: int)
    requires
        0 <= k,
        unknown_target(targets, k) is None,
    ensures
        forall|q: int| k <= q < targets.len() ==> is_metric_name(#[trigger] targets[q]),
    decreases targets.len() - k,
{
    if k < targets.len() {
        lemma_known_targets(targets, k + 1);
    }
}

proof fn lemma_all_named(warned: Seq<Seq<char>>, notes: Seq<char>, k: int)
    requires
        0 <= k,
        first_unnamed(warned, notes, k) is None,
    ensures
        forall|q: int| k <= q < warned.len() ==> has_substring(notes, #[trigger] warned[q]),
    decreases warned.len() - k,
{
    if k < warned.len() {
        lemma_all_named(warned, notes, k + 1);
    }
}

proof fn lemma_no_unnamed_problems(warned: Seq<Seq<char>>, notes: Seq<char>)
    requires
        forall|q: int| 0 <= q < warned.len() ==> has_substring(notes, #[trigger] warned[q]),
    ensures
        unnamed_problems(warned, notes) == Seq::<ProblemView>::empty(),
    decreases warned.len(),
{
    if warned.len() > 0 {
        let w0 = warned.drop_last();
        assert forall|q: int| 0 <= q < w0.len() implies has_substring(notes, #[trigger] w0[q]) by {
            assert(w0[q] == warned[q]);
        }
        lemma_no_unnamed_problems(w0, notes);
        assert(warned.last() == warned[warned.len() - 1]);
        assert(unnamed_problems(warned, notes) =~= Seq::empty());
    }
}

/// The report writer and the validator agree on verdict notes: notes that
/// the writer accepts for an `accept_with_warning` report with warned
/// metrics `warned` give no notes problem in a stored report with that
/// verdict, those notes and those warned collateral metrics.
pub proof fn lemma_accepted_notes_validate(
    warned: Seq<Seq<char>>,
    notes: Option<String>,
    f: EfficacyReportFacts,
)
    requires
        notes_refusal(Verdict::AcceptWithWarning, warned, notes) is None,
        f.verdict == Verdict::AcceptWithWarning,
        f.verdict_notes == notes,
        warned_collateral(f.collateral@) == warned,
    ensures
        notes_problems(f) == Seq::<ProblemView>::empty(),
{
    if notes is None {
        assert(is_blank_spec(notes_text(notes)));
    } else {
        lemma_all_named(warned, notes_text(notes), 0);
        lemma_no_unnamed_problems(warned, notes_text(notes));
    }
}

/// What the frontier validator reads of the record `r`, each figure
/// compared with no tolerance: the same index and verdict, whether the gap
/// lies outside [0, 1] (0 to 1000 thousandths), whether it exceeds the
/// frontier before it, whether the frontier differs from the gap or from
/// the previous frontier or lies below the latter, whether
/// `frontier_final` differs from the last frontier, and the same counts.
pub open spec fn read_from_record(f: FrontierRecordFacts, r: RecordModel) -> bool {
    &&& f.attempts@.len() == r.attempts.len()
    &&& forall|i: int|
        0 <= i < r.attempts.len() ==> {
            let a = #[trigger] f.attempts@[i];
            let m = r.attempts[i];
            let prev = frontier_before(r.attempts, i);
            &&& a.index == m.index
            &&& a.verdict == m.verdict
            &&& a.gap_out_of_range == !(0 <= m.gap <= 1000)
            &&& a.gap_exceeds_frontier == (m.gap > prev)
            &&& a.frontier_off_gap == (m.frontier != m.gap)
            &&& a.frontier_off_previous == (m.frontier != prev)
            &&& a.frontier_decreased == (m.frontier < prev)
        }
    &&& f.final_mismatch == (r.frontier_final != frontier_before(
        r.attempts,
        r.attempts.len() as int,
    ))
    &&& f.methods_tried == r.methods_tried
    &&& f.methods_rejected == r.methods_rejected
}

/// A verdict the acceptance rule can yield.
pub open spec fn accepted_rule_verdict(v: Verdict) -> bool {
    exists|n: bool, c: bool, x: bool, net: bool, w: bool| v == acceptance(n, c, x, net, w)
}

/// The record the writer produces satisfies the validator. A record built
/// from a new record by successive appends, each decided by
/// `decide_append` (as `FrontierLedger::append` does), for a metric of the
/// ten, against a content-addressed scenario set, with the baseline keys
/// the writer stores, whose appended verdicts come from the acceptance
/// rule (as `decide_evaluation`'s do) and whose gaps lie in [0, 1], has no
/// problem at all as the validator reads it: indices and counts as the
/// decisions give them, a frontier that moves only up and only on an
/// accepted attempt, and no `unverified` verdict. (A target that worsened
/// gives a negative gap, which the writer stores and the validator flags.)
pub proof fn lemma_written_record_validates(steps: Seq<(Verdict, int)>, f: FrontierRecordFacts)
    requires
        steps.len() < u64::MAX,
        read_from_record(f, appended_record(steps)),
        forall|k: int| 0 <= k < steps.len() ==> 0 <= (#[trigger] steps[k]).1 <= 1000,
        forall|k: int| 0 <= k < steps.len() ==> accepted_rule_verdict((#[trigger] steps[k]).0),
        f.version@ == FRONTIER_VERSION@,
        is_metric_name(f.metric@),
        has_prefix(f.scenario_set@, "sha256:"@),
        views(f.baseline_keys@).contains(f.metric@),
        views(f.baseline_keys@).contains("isa_score"@),
        views(f.baseline_keys@).contains("probe_pass_rate"@),
    ensures
        frontier_problems(f) == Seq::<FrontierProblemView>::empty(),
{
    let r = appended_record(steps);
    lemma_appended_record_invariant(steps);
    lemma_appended_record_attempts(steps);
    assert forall|i: int| 0 <= i < r.attempts.len() implies 0 <= (#[trigger] r.attempts[i]).gap <= 1000
        && accepted_rule_verdict(r.attempts[i].verdict) by {
        assert(r.attempts[i].gap == steps[i].1);
        assert(r.attempts[i].verdict == steps[i].0);
    }
    lemma_invariant_record_validates(r, f);
}

/// What the validator accepts, the writer could have written: a record
/// read as `read_from_record` describes, in which the validator finds no
/// problem, satisfies the record invariant (the converse of
/// `lemma_written_record_validates`).
pub proof fn lemma_accepted_record_satisfies_invariant(r: RecordModel, f: FrontierRecordFacts)
    requires
        read_from_record(f, r),
        frontier_problems(f) == Seq::<FrontierProblemView>::empty(),
    ensures
        record_invariant(r),
{
    lemma_accepted_record_is_sound(f);
    assert(attempt_verdicts(f.attempts@) =~= model_verdicts(r.attempts));
    assert forall|i: int| 0 <= i < r.attempts.len() implies {
        &&& (#[trigger] r.attempts[i]).index == i + 1
        &&& r.attempts[i].frontier == if r.attempts[i].verdict.advances_frontier()
            && r.attempts[i].gap > frontier_before(r.attempts, i) {
            r.attempts[i].gap
        } else {
            frontier_before(r.attempts, i)
        }
    } by {
        let a = f.attempts@[i];
    }
}

proof fn lemma_invariant_record_validates(r: RecordModel, f: FrontierRecordFacts)
    requires
        record_invariant(r),
        read_from_record(f, r),
        forall|i: int| 0 <= i < r.attempts.len() ==> 0 <= (#[trigger] r.attempts[i]).gap <= 1000,
        forall|i: int|
            0 <= i < r.attempts.len() ==> accepted_rule_verdict((#[trigger] r.attempts[i]).verdict),
        f.version@ == FRONTIER_VERSION@,
        is_metric_name(f.metric@),
        has_prefix(f.scenario_set@, "sha256:"@),
        views(f.baseline_keys@).contains(f.metric@),
        views(f.baseline_keys@).contains("isa_score"@),
        views(f.baseline_keys@).contains("probe_pass_rate"@),
    ensures
        frontier_problems(f) == Seq::<FrontierProblemView>::empty(),
{
    let n = r.attempts.len() as int;
    assert forall|i: int| 0 <= i < n implies attempt_problems(#[trigger] f.attempts@[i], i)
        == Seq::<FrontierProblemView>::empty() by {
        let a = f.attempts@[i];
        let m = r.attempts[i];
        assert(m.index == i + 1);
        assert(0 <= m.gap <= 1000);
        assert(accepted_rule_verdict(m.verdict));
        let (b1, b2, b3, b4, b5) = choose|b1: bool, b2: bool, b3: bool, b4: bool, b5: bool|
            m.verdict == acceptance(b1, b2, b3, b4, b5);
        lemma_acceptance_gates(b1, b2, b3, b4, b5);
        lemma_frontier_moves_only_up(a.verdict, a.gap_exceeds_frontier);
        assert(attempt_problems(a, i) =~= Seq::empty());
    }
    lemma_attempts_without_problems(f.attempts@);
    assert(attempt_verdicts(f.attempts@) =~= model_verdicts(r.attempts));
    assert(record_tail_problems(f) =~= Seq::empty());
    assert(record_header_problems(f) =~= Seq::empty());
    assert(baseline_problems(views(f.baseline_keys@), f.metric@) =~= Seq::empty());
    assert(frontier_problems(f) =~= Seq::empty());
}

proof fn lemma_attempts_without_problems(attempts: Seq<AttemptFacts>)
    requires
        forall|i: int|
            0 <= i < attempts.len() ==> attempt_problems(#[trigger] attempts[i], i) == Seq::<
                FrontierProblemView,
            >::empty(),
    ensures
        attempts_problems(attempts) == Seq::<FrontierProblemView>::empty(),
    decreases attempts.len(),
{
    if attempts.len() > 0 {
        let a0 = attempts.drop_last();
        assert forall|i: int| 0 <= i < a0.len() implies attempt_problems(#[trigger] a0[i], i)
            == Seq::<FrontierProblemView>::empty() by {
            assert(a0[i] == attempts[i]);
        }
        lemma_attempts_without_problems(a0);
        let last = attempts.len() - 1;
        assert(attempt_problems(attempts[last], last) == Seq::<FrontierProblemView>::empty());
        assert(attempts_problems(attempts) =~= Seq::empty());
    }
}

proof fn lemma_target_flags_agree(
    targets: Seq<Seq<char>>,
    comparisons: Seq<MetricComparison>,
    f: EfficacyReportFacts,
)
    requires
        targets_recorded(f, targets, comparisons),
    ensures
        none_improved(target_flags(f.targets@)) == none_improved(improvements(targets, comparisons)),
        all_improved(target_flags(f.targets@)) == all_improved(improvements(targets, comparisons)),
{
    let flags = target_flags(f.targets@);
    let eflags = improvements(targets, comparisons);
    assert forall|k: int| 0 <= k < eflags.len() implies exists|j: int|
        0 <= j < flags.len() && flags[j] == #[trigger] eflags[k] by {
        assert(target_names(f.targets@).contains(targets[k]));
        let j = choose|j: int|
            0 <= j < target_names(f.targets@).len() && target_names(f.targets@)[j] == targets[k];
        assert(flags[j] == eflags[k]);
    }
    assert forall|j: int| 0 <= j < flags.len() implies exists|k: int|
        0 <= k < eflags.len() && eflags[k] == #[trigger] flags[j] by {
        assert(targets.contains(f.targets@[j].metric@));
        let k = choose|k: int| 0 <= k < targets.len() && targets[k] == f.targets@[j].metric@;
        assert(eflags[k] == flags[j]);
    }
    if none_improved(flags) {
        assert forall|k: int| 0 <= k < eflags.len() implies !#[trigger] eflags[k] by {
            let j = choose|j: int| 0 <= j < flags.len() && flags[j] == eflags[k];
        }
    }
    if none_improved(eflags) {
        assert forall|j: int| 0 <= j < flags.len() implies !#[trigger] flags[j] by {
            let k = choose|k: int| 0 <= k < eflags.len() && eflags[k] == flags[j];
        }
    }
    if all_improved(flags) {
        assert forall|k: int| 0 <= k < eflags.len() implies #[trigger] eflags[k] by {
            let j = choose|j: int| 0 <= j < flags.len() && flags[j] == eflags[k];
        }
    }
    if all_improved(eflags) {
        assert forall|j: int| 0 <= j < flags.len() implies #[trigger] flags[j] by {
            let k = choose|k: int| 0 <= k < eflags.len() && eflags[k] == flags[j];
        }
    }
}

proof fn lemma_no_zero_baseline(targets: Seq<Seq<char>>, comparisons: Seq<MetricComparison>, k: int)
    requires
        0 <= k,
        zero_baseline_target(targets, comparisons, k) is None,
    ensures
        forall|q: int|
            k <= q < targets.len() ==> !(#[trigger] comparison_of(targets[q], comparisons)).baseline_zero,
    decreases targets.len() - k,
{
    if k < targets.len() {
        lemma_no_zero_baseline(targets, comparisons, k + 1);
    }
}

proof fn lemma_no_target_arith(ts: Seq<TargetFacts>)
    requires
        forall|j: int|
            0 <= j < ts.len() ==> !(#[trigger] ts[j]).baseline_zero && !ts[j].gap_mismatch
                && !ts[j].reduction_mismatch,
    ensures
        target_arith_problems(ts) == Seq::<ProblemView>::empty(),
    decreases ts.len(),
{
    if ts.len() > 0 {
        let t0 = ts.drop_last();
        assert forall|j: int| 0 <= j < t0.len() implies !(#[trigger] t0[j]).baseline_zero
            && !t0[j].gap_mismatch && !t0[j].reduction_mismatch by {
            assert(t0[j] == ts[j]);
        }
        lemma_no_target_arith(t0);
        assert(ts.last() == ts[ts.len() - 1]);
        assert(target_arith_problems(ts) =~= Seq::empty());
    }
}

proof fn lemma_no_collateral_arith(cs: Seq<CollateralFacts>)
    requires
        forall|j: int| 0 <= j < cs.len() ==> !(#[trigger] cs[j]).delta_mismatch,
    ensures
        collateral_arith_problems(cs) == Seq::<ProblemView>::empty(),
    decreases cs.len(),
{
    if cs.len() > 0 {
        let c0 = cs.drop_last();
        assert forall|j: int| 0 <= j < c0.len() implies !(#[trigger] c0[j]).delta_mismatch by {
            assert(c0[j] == cs[j]);
        }
        lemma_no_collateral_arith(c0);
        assert(cs.last() == cs[cs.len() - 1]);
        assert(collateral_arith_problems(cs) =~= Seq::empty());
    }
}

/// What the tool emits validates, and the validator reaches the
/// evaluator's verdict. For an evaluation that `decide_evaluation` does not
/// refuse, whose notes `check_report` accepts, stored in a report with the
/// writer's version, a content-addressed scenario set, the evaluator's
/// targets (each once, with their zero-baseline and improvement outcomes)
/// and collateral metrics (in order, with their band outcomes), the
/// evaluator's capability gate and `D_ISA` sign, the evaluation's probe
/// count, and stored figures that agree with their recomputation (the
/// rounded `gap_closed`, `mean_reduction`, deltas and `D_ISA`, and rounded
/// pass rates that imply the stored gate), the validator finds no problem
/// at all. (Rounded pass rates can imply the other gate value; such a
/// report is excluded.)
pub proof fn lemma_emitted_report_validates(
    baseline: MeasurementShape,
    after: MeasurementShape,
    targets: Seq<Seq<char>>,
    comparisons: Seq<MetricComparison>,
    aggregate_ok: bool,
    net_nonnegative: bool,
    f: EfficacyReportFacts,
)
    requires
        evaluation_refusal(baseline, after, targets, comparisons, aggregate_ok) is None,
        f.verdict == evaluation_verdict(targets, comparisons, aggregate_ok, net_nonnegative),
        notes_refusal(
            f.verdict,
            warned_names(collateral_positions(targets), comparisons),
            f.verdict_notes,
        ) is None,
        targets_recorded(f, targets, comparisons),
        forall|j: int|
            0 <= j < f.targets@.len() ==> (#[trigger] f.targets@[j]).baseline_zero == comparison_of(
                f.targets@[j].metric@,
                comparisons,
            ).baseline_zero,
        collateral_recorded(f.collateral@, collateral_positions(targets), comparisons),
        f.version@ == EFFICACY_VERSION@,
        has_prefix(f.scenario_set@, "sha256:"@),
        forall|j: int|
            0 <= j < f.targets@.len() ==> !(#[trigger] f.targets@[j]).gap_mismatch
                && !f.targets@[j].reduction_mismatch,
        forall|j: int| 0 <= j < f.collateral@.len() ==> !(#[trigger] f.collateral@[j]).delta_mismatch,
        !f.isa_mismatch,
        f.probes_total == baseline.probes.total,
        f.capability_consistent,
        f.capability_ok == aggregate_ok,
        f.isa_nonnegative == net_nonnegative,
    ensures
        efficacy_problems(f) == Seq::<ProblemView>::empty(),
        expected_verdict(f) == f.verdict,
{
    let positions = collateral_positions(targets);
    assert(input_refusal(baseline, after, targets) is None);
    assert(unknown_target(targets, 0) is None);
    assert(targets.len() > 0);
    assert(f.probes_total != 0);
    assert(target_names(f.targets@).contains(targets[0]));
    assert(f.targets@.len() > 0);
    lemma_evaluator_partition_validates(targets, comparisons, f);
    lemma_no_zero_baseline(targets, comparisons, 0);
    assert forall|j: int| 0 <= j < f.targets@.len() implies !(#[trigger] f.targets@[j]).baseline_zero
        && !f.targets@[j].gap_mismatch && !f.targets@[j].reduction_mismatch by {
        assert(targets.contains(f.targets@[j].metric@));
        let q = choose|q: int| 0 <= q < targets.len() && targets[q] == f.targets@[j].metric@;
        assert(!comparison_of(targets[q], comparisons).baseline_zero);
    }
    lemma_no_target_arith(f.targets@);
    lemma_no_collateral_arith(f.collateral@);
    lemma_no_coverage_problems_complete(target_names(f.targets@), collateral_names(f.collateral@));
    assert(structural_problems(f) =~= Seq::empty());
    lemma_validator_recomputes_evaluator_verdict(targets, comparisons, aggregate_ok, net_nonnegative, f);
    lemma_target_flags_agree(targets, comparisons, f);
    lemma_warned_agree(f.collateral@, positions, comparisons);
    if f.verdict == Verdict::AcceptWithWarning {
        lemma_accepted_notes_validate(warned_names(positions, comparisons), f.verdict_notes, f);
    }
    assert(verdict_problems(f) =~= Seq::empty());
}

proof fn lemma_no_coverage_problems_complete(ts: Seq<Seq<char>>, cs: Seq<Seq<char>>)
    requires
        coverage_problems(ts, cs, 10) == Seq::<ProblemView>::empty(),
    ensures
        complete(ts, cs),
{
    assert forall|i: int| 0 <= i < 10 implies !#[trigger] uncovered(ts, cs, i) by {
        lemma_coverage_prefix(ts, cs, 10, i);
    }
}

proof fn lemma_coverage_prefix(ts: Seq<Seq<char>>, cs: Seq<Seq<char>>, n: int, i: int)
    requires
        0 <= i < n <= 10,
        coverage_problems(ts, cs, n) == Seq::<ProblemView>::empty(),
    ensures
        !uncovered(ts, cs, i),
    decreases n,
{
    let prev = coverage_problems(ts, cs, n - 1);
    if prev.len() > 0 {
        assert((prev + crate::efficacy_validation::when(uncovered(ts, cs, n - 1), (crate::efficacy_validation::EfficacyProblemKind::Uncovered, metric_name_spec(n - 1), n - 1))).len() > 0);
    }
    if i < n - 1 {
        lemma_coverage_prefix(ts, cs, n - 1, i);
    } else {
        if uncovered(ts, cs, i) {
            assert(coverage_problems(ts, cs, n).len() > 0);
        }
    }
}

} // verus!
