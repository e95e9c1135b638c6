//! The evaluator's rules: what it refuses, which metrics are collateral,
//! which are in the warning band, and the verdict. The scores themselves
//! are compared by the caller; the rules here see the outcome of each
//! comparison.
use vstd::prelude::*;

use crate::error::{EfficacyError, ErrorView};
use crate::metric::{
    is_metric_name, metric_index, metric_name, metric_name_spec, metric_position, name_order,
    name_order_spec, METRIC_COUNT,
};
use crate::probes::{
    capability_cross_check, capability_refusal, probe_refusal, results_ascending, ProbeMeasurement,
};
use crate::text::{decimal, decimal_text, join_text, joined, same_text, strictly_ascending, views};
use crate::verdict::{acceptance, acceptance_verdict, Verdict};

verus! {

/// What the evaluation reads of one measurement besides its scores.
pub struct MeasurementShape {
    /// The content-addressed scenario set, when the measurement names one.
    pub scenario_set: Option<String>,
    /// The names of the metrics the measurement scores.
    pub metrics: Vec<String>,
    pub probes: ProbeMeasurement,
}

impl MeasurementShape {
    /// The metric names and probe ids as id-keyed maps hold them: each
    /// strictly ascending.
    pub open spec fn well_formed(self) -> bool {
        &&& strictly_ascending(views(self.metrics@))
        &&& results_ascending(self.probes.results)
    }
}

/// How the two scores of one metric compare.
#[derive(Clone, Copy)]
pub struct MetricComparison {
    /// The baseline score is zero, so `G_m` is undefined.
    pub baseline_zero: bool,
    /// The after score is below the baseline by more than the tolerance.
    pub improved: bool,
    /// The collateral delta (after - baseline) lies above the warning band.
    pub beyond_warning: bool,
    /// The collateral delta lies in the warning band.
    pub in_warning_band: bool,
}

/// What the evaluator decides besides the figures.
pub struct EvaluationDecision {
    pub verdict: Verdict,
    /// The canonical positions of the collateral metrics (those outside the
    /// target set), in the order of their names.
    pub collateral: Vec<usize>,
    /// The collateral metrics in the warning band, in the order of their
    /// names.
    pub warned_metrics: Vec<String>,
    /// The regressed probe ids, when both measurements carry per-probe
    /// results.
    pub probes_regressed: Option<Vec<String>>,
}

/// The message when a measurement lacks a metric: the baseline when
/// `in_baseline`, else the after measurement.
pub open spec fn missing_metric_message(in_baseline: bool, m: Seq<char>) -> Seq<char> {
    if in_baseline {
        "baseline is missing metric "@ + m + "; all ten ISA metrics are required"@
    } else {
        "after is missing metric "@ + m + "; all ten ISA metrics are required"@
    }
}

/// The first metric, from canonical position `i` on, that the baseline or
/// the after measurement lacks (the baseline is asked first).
pub open spec fn missing_metric_refusal(
    baseline: Seq<Seq<char>>,
    after: Seq<Seq<char>>,
    i: int,
) -> Option<Seq<char>>
    decreases 10 - i,
{
    if i >= 10 || i < 0 {
        None
    } else if !baseline.contains(metric_name_spec(i)) {
        Some(missing_metric_message(true, metric_name_spec(i)))
    } else if !after.contains(metric_name_spec(i)) {
        Some(missing_metric_message(false, metric_name_spec(i)))
    } else {
        missing_metric_refusal(baseline, after, i + 1)
    }
}

/// The first target, from position `k` on, that names no metric.
pub open spec fn unknown_target(targets: Seq<Seq<char>>, k: int) -> Option<Seq<char>>
    decreases targets.len() - k,
{
    if k < 0 || k >= targets.len() {
        None
    } else if !is_metric_name(targets[k]) {
        Some(targets[k])
    } else {
        unknown_target(targets, k + 1)
    }
}

/// Why the inputs of an evaluation are malformed, if they are: no target,
/// a malformed probe measurement, probe suites of different sizes,
/// different scenario sets, a missing metric, an unknown target.
pub open spec fn input_refusal(
    baseline: MeasurementShape,
    after: MeasurementShape,
    targets: Seq<Seq<char>>,
) -> Option<Seq<char>> {
    if targets.len() == 0 {
        Some("at least one target metric required"@)
    } else if probe_refusal(baseline.probes) is Some {
        probe_refusal(baseline.probes)
    } else if probe_refusal(after.probes) is Some {
        probe_refusal(after.probes)
    } else if baseline.probes.total != after.probes.total {
        Some(
            "probe suite size changed between measurements ("@ + decimal(
                baseline.probes.total as nat,
            ) + " vs "@ + decimal(after.probes.total as nat) + ")"@,
        )
    } else if baseline.scenario_set is Some && after.scenario_set is Some
        && baseline.scenario_set->0@ != after.scenario_set->0@ {
        Some(
            "scenario_set mismatch: baseline "@ + baseline.scenario_set->0@ + " vs after "@
                + after.scenario_set->0@,
        )
    } else if missing_metric_refusal(views(baseline.metrics@), views(after.metrics@), 0) is Some {
        missing_metric_refusal(views(baseline.metrics@), views(after.metrics@), 0)
    } else if unknown_target(targets, 0) is Some {
        Some("unknown target metric "@ + unknown_target(targets, 0)->0)
    } else {
        None
    }
}

/// The comparison of the metric named `t` (a known metric name).
pub open spec fn comparison_of(t: Seq<char>, comparisons: Seq<MetricComparison>) -> MetricComparison {
    comparisons[metric_position(t)->0]
}

/// The first target, from position `k` on, whose baseline is zero.
pub open spec fn zero_baseline_target(
    targets: Seq<Seq<char>>,
    comparisons: Seq<MetricComparison>,
    k: int,
) -> Option<Seq<char>>
    decreases targets.len() - k,
{
    if k < 0 || k >= targets.len() {
        None
    } else if comparison_of(targets[k], comparisons).baseline_zero {
        Some(targets[k])
    } else {
        zero_baseline_target(targets, comparisons, k + 1)
    }
}

/// For each target in turn, whether it improved.
pub open spec fn improvements(targets: Seq<Seq<char>>, comparisons: Seq<MetricComparison>) -> Seq<
    bool,
> {
    targets.map_values(|t: Seq<char>| comparison_of(t, comparisons).improved)
}

/// Every target improved.
pub open spec fn all_improved(flags: Seq<bool>) -> bool {
    forall|k: int| 0 <= k < flags.len() ==> #[trigger] flags[k]
}

/// No target improved.
pub open spec fn none_improved(flags: Seq<bool>) -> bool {
    forall|k: int| 0 <= k < flags.len() ==> !#[trigger] flags[k]
}

/// How one target fared, as the D1c refusal lists it.
pub open spec fn improvement_item(t: Seq<char>, improved: bool) -> Seq<char> {
    t + ": "@ + if improved {
        "improved"@
    } else {
        "not improved"@
    }
}

/// The detail of the D1c refusal.
pub open spec fn d1c_detail(targets: Seq<Seq<char>>, flags: Seq<bool>) -> Seq<char> {
    "targets disagree on improvement ("@ + joined(
        Seq::new(targets.len(), |k: int| improvement_item(targets[k], flags[k])),
        ", "@,
    ) + "); the multi-target acceptance rule is undecided"@
}

/// Why an evaluation is refused, if it is, in the order the evaluator
/// checks: malformed inputs, a zero-baseline target (D1a), the capability
/// cross-check (malformed probe ids, D1b), targets that disagree on
/// improvement (D1c).
pub open spec fn evaluation_refusal(
    baseline: MeasurementShape,
    after: MeasurementShape,
    targets: Seq<Seq<char>>,
    comparisons: Seq<MetricComparison>,
    aggregate_ok: bool,
) -> Option<ErrorView> {
    let flags = improvements(targets, comparisons);
    if input_refusal(baseline, after, targets) is Some {
        Some(ErrorView::Data(input_refusal(baseline, after, targets)->0))
    } else if zero_baseline_target(targets, comparisons, 0) is Some {
        Some(
            ErrorView::AwaitingRuling {
                question: "D1a"@,
                detail: "target metric "@ + zero_baseline_target(targets, comparisons, 0)->0
                    + " has baseline 0; G_m = (B_m - A_m) / B_m is undefined"@,
            },
        )
    } else if capability_refusal(aggregate_ok, baseline.probes.results, after.probes.results) is Some {
        capability_refusal(aggregate_ok, baseline.probes.results, after.probes.results)
    } else if !all_improved(flags) && !none_improved(flags) {
        Some(ErrorView::AwaitingRuling { question: "D1c"@, detail: d1c_detail(targets, flags) })
    } else {
        None
    }
}

/// The canonical positions of the metrics outside the target set among the
/// first `k` metrics in name order, in that order.
pub open spec fn collateral_prefix(targets: Seq<Seq<char>>, k: int) -> Seq<int>
    decreases k,
{
    if k <= 0 {
        Seq::empty()
    } else {
        let prev = collateral_prefix(targets, k - 1);
        let i = name_order_spec(k - 1);
        if targets.contains(metric_name_spec(i)) {
            prev
        } else {
            prev.push(i)
        }
    }
}

/// The canonical positions of the collateral metrics, in name order.
pub open spec fn collateral_positions(targets: Seq<Seq<char>>) -> Seq<int> {
    collateral_prefix(targets, 10)
}

/// The names of the collateral metrics, among `positions`, whose delta lies
/// in the warning band, in order.
pub open spec fn warned_names(positions: Seq<int>, comparisons: Seq<MetricComparison>) -> Seq<
    Seq<char>,
>
    decreases positions.len(),
{
    if positions.len() == 0 {
        Seq::empty()
    } else {
        let prev = warned_names(positions.drop_last(), comparisons);
        let i = positions.last();
        if comparisons[i].in_warning_band {
            prev.push(metric_name_spec(i))
        } else {
            prev
        }
    }
}

/// Some collateral metric, among `positions`, regressed beyond the warning
/// band.
pub open spec fn collateral_exceeded(positions: Seq<int>, comparisons: Seq<MetricComparison>) -> bool {
    exists|j: int| 0 <= j < positions.len() && comparisons[#[trigger] positions[j]].beyond_warning
}

/// The verdict of an evaluation that is not refused.
pub open spec fn evaluation_verdict(
    targets: Seq<Seq<char>>,
    comparisons: Seq<MetricComparison>,
    aggregate_ok: bool,
    net_nonnegative: bool,
) -> Verdict {
    let positions = collateral_positions(targets);
    acceptance(
        none_improved(improvements(targets, comparisons)),
        aggregate_ok,
        collateral_exceeded(positions, comparisons),
        net_nonnegative,
        warned_names(positions, comparisons).len() > 0,
    )
}

/// Whether `s` is one of `names`.
pub fn names_contain(names: &[String], s: &str) -> (r: bool)
    ensures
        r == views(names@).contains(s@),
{
    let mut i: usize = 0;
    while i < names.len()
        invariant
            i <= names.len(),
            forall|j: int| 0 <= j < i ==> (#[trigger] names@[j])@ != s@,
        decreases names.len() - i,
    {
        if same_text(names[i].as_str(), s) {
            proof {
                assert(views(names@)[i as int] == s@);
            }
            return true;
        }
        i = i + 1;
    }
    proof {
        if views(names@).contains(s@) {
            let j = choose|j: int| 0 <= j < views(names@).len() && views(names@)[j] == s@;
            assert(names@[j]@ == s@);
        }
    }
    false
}

/// Refuse malformed evaluation inputs: no target, a malformed probe
/// measurement, probe suites of different sizes, different scenario sets,
/// a metric missing from either measurement, an unknown target.
#[verifier::loop_isolation(false)]
pub fn check_inputs(baseline: &MeasurementShape, after: &MeasurementShape, targets: &[String]) -> (r:
    Result<(), EfficacyError>)
    requires
        baseline.well_formed(),
        after.well_formed(),
    ensures
        r is Ok <==> input_refusal(*baseline, *after, views(targets@)) is None,
        r matches Err(e) ==> e@ == ErrorView::Data(
            input_refusal(*baseline, *after, views(targets@))->0,
        ),
{
    if targets.len() == 0 {
        return Err(EfficacyError::Data("at least one target metric required".to_owned()));
    }
    baseline.probes.check()?;
    after.probes.check()?;
    if baseline.probes.total != after.probes.total {
        let mut msg = "probe suite size changed between measurements (".to_owned();
        msg.push_str(decimal_text(baseline.probes.total as u64).as_str());
        msg.push_str(" vs ");
        msg.push_str(decimal_text(after.probes.total as u64).as_str());
        msg.push_str(")");
        return Err(EfficacyError::Data(msg));
    }
    match (&baseline.scenario_set, &after.scenario_set) {
        (Some(b), Some(a)) => {
            if !same_text(b.as_str(), a.as_str()) {
                let mut msg = "scenario_set mismatch: baseline ".to_owned();
                msg.push_str(b.as_str());
                msg.push_str(" vs after ");
                msg.push_str(a.as_str());
                return Err(EfficacyError::Data(msg));
            }
        },
        _ => {},
    }
    let ghost bnames = views(baseline.metrics@);
    let ghost anames = views(after.metrics@);
    let mut i: usize = 0;
    while i < METRIC_COUNT
        invariant
            i <= METRIC_COUNT,
            bnames == views(baseline.metrics@),
            anames == views(after.metrics@),
            missing_metric_refusal(bnames, anames, 0) == missing_metric_refusal(
                bnames,
                anames,
                i as int,
            ),
        decreases METRIC_COUNT - i,
    {
        let name = metric_name(i);
        if !names_contain(baseline.metrics.as_slice(), name) {
            proof {
                assert(missing_metric_refusal(bnames, anames, i as int) == Some(
                    missing_metric_message(true, name@),
                ));
            }
            let mut msg = "baseline is missing metric ".to_owned();
            msg.push_str(name);
            msg.push_str("; all ten ISA metrics are required");
            return Err(EfficacyError::Data(msg));
        }
        if !names_contain(after.metrics.as_slice(), name) {
            proof {
                assert(missing_metric_refusal(bnames, anames, i as int) == Some(
                    missing_metric_message(false, name@),
                ));
            }
            let mut msg = "after is missing metric ".to_owned();
            msg.push_str(name);
            msg.push_str("; all ten ISA metrics are required");
            return Err(EfficacyError::Data(msg));
        }
        i = i + 1;
    }
    proof {
        assert(missing_metric_refusal(bnames, anames, i as int) is None);
    }
    let ghost tnames = views(targets@);
    let mut k: usize = 0;
    while k < targets.len()
        invariant
            k <= targets.len(),
            tnames == views(targets@),
            bnames == views(baseline.metrics@),
            anames == views(after.metrics@),
            missing_metric_refusal(bnames, anames, 0) is None,
            unknown_target(tnames, 0) == unknown_target(tnames, k as int),
        decreases targets.len() - k,
    {
        proof {
            assert(tnames[k as int] == targets@[k as int]@);
        }
        if metric_index(targets[k].as_str()).is_none() {
            proof {
                assert(missing_metric_refusal(bnames, anames, 0) is None);
                assert(unknown_target(tnames, k as int) == Some(tnames[k as int]));
            }
            let mut msg = "unknown target metric ".to_owned();
            msg.push_str(targets[k].as_str());
            return Err(EfficacyError::Data(msg));
        }
        k = k + 1;
    }
    Ok(())
}

/// Refuse an evaluation whose first zero-baseline target makes `G_m`
/// undefined (awaiting ruling D1a).
pub fn check_zero_baselines(targets: &[String], comparisons: &Vec<MetricComparison>) -> (r: Result<
    (),
    EfficacyError,
>)
    requires
        comparisons@.len() == METRIC_COUNT,
        unknown_target(views(targets@), 0) is None,
    ensures
        r is Ok <==> zero_baseline_target(views(targets@), comparisons@, 0) is None,
        r matches Err(e) ==> e@ == (ErrorView::AwaitingRuling {
            question: "D1a"@,
            detail: "target metric "@ + zero_baseline_target(views(targets@), comparisons@, 0)->0
                + " has baseline 0; G_m = (B_m - A_m) / B_m is undefined"@,
        }),
{
    let ghost tnames = views(targets@);
    let mut k: usize = 0;
    while k < targets.len()
        invariant
            k <= targets.len(),
            tnames == views(targets@),
            comparisons@.len() == METRIC_COUNT,
            unknown_target(tnames, k as int) is None,
            zero_baseline_target(tnames, comparisons@, 0) == zero_baseline_target(
                tnames,
                comparisons@,
                k as int,
            ),
        decreases targets.len() - k,
    {
        proof {
            assert(tnames[k as int] == targets@[k as int]@);
        }
        let idx = metric_index(targets[k].as_str());
        let i = idx.unwrap();
        if comparisons[i].baseline_zero {
            let mut detail = "target metric ".to_owned();
            detail.push_str(targets[k].as_str());
            detail.push_str(" has baseline 0; G_m = (B_m - A_m) / B_m is undefined");
            return Err(EfficacyError::AwaitingRuling { question: "D1a", detail });
        }
        k = k + 1;
    }
    Ok(())
}

/// For each target in turn, whether it improved.
pub fn target_improvements(targets: &[String], comparisons: &Vec<MetricComparison>) -> (v: Vec<bool>)
    requires
        comparisons@.len() == METRIC_COUNT,
        unknown_target(views(targets@), 0) is None,
    ensures
        v@ == improvements(views(targets@), comparisons@),
{
    let ghost tnames = views(targets@);
    let mut out: Vec<bool> = Vec::new();
    let mut k: usize = 0;
    while k < targets.len()
        invariant
            k <= targets.len(),
            tnames == views(targets@),
            comparisons@.len() == METRIC_COUNT,
            unknown_target(tnames, k as int) is None,
            out@.len() == k,
            forall|j: int| 0 <= j < k ==> out@[j] == #[trigger] improvements(tnames, comparisons@)[j],
        decreases targets.len() - k,
    {
        proof {
            assert(tnames[k as int] == targets@[k as int]@);
        }
        let i = metric_index(targets[k].as_str()).unwrap();
        out.push(comparisons[i].improved);
        k = k + 1;
    }
    proof {
        assert(out@ =~= improvements(tnames, comparisons@));
    }
    out
}

/// The D1c refusal: the targets disagree on improvement.
fn disagreement_refusal(targets: &[String], flags: &Vec<bool>) -> (e: EfficacyError)
    requires
        flags@.len() == targets@.len(),
    ensures
        e@ == (ErrorView::AwaitingRuling {
            question: "D1c"@,
            detail: d1c_detail(views(targets@), flags@),
        }),
{
    let ghost tnames = views(targets@);
    let mut items: Vec<String> = Vec::new();
    let mut k: usize = 0;
    while k < targets.len()
        invariant
            k <= targets.len(),
            flags@.len() == targets@.len(),
            tnames == views(targets@),
            items@.len() == k,
            forall|j: int|
                0 <= j < k ==> (#[trigger] items@[j])@ == improvement_item(tnames[j], flags@[j]),
        decreases targets.len() - k,
    {
        let mut item = targets[k].clone();
        item.push_str(": ");
        if flags[k] {
            item.push_str("improved");
        } else {
            item.push_str("not improved");
        }
        items.push(item);
        k = k + 1;
    }
    proof {
        assert(views(items@) =~= Seq::new(
            tnames.len(),
            |k: int| improvement_item(tnames[k], flags@[k]),
        ));
    }
    let mut detail = "targets disagree on improvement (".to_owned();
    detail.push_str(join_text(&items, ", ").as_str());
    detail.push_str("); the multi-target acceptance rule is undecided");
    EfficacyError::AwaitingRuling { question: "D1c", detail }
}

/// The canonical positions of the metrics outside the target set, in the
/// order of their names.
pub fn collateral_metrics(targets: &[String]) -> (v: Vec<usize>)
    ensures
        v@.len() == collateral_positions(views(targets@)).len(),
        forall|j: int|
            0 <= j < v@.len() ==> v@[j] as int == #[trigger] collateral_positions(
                views(targets@),
            )[j],
        forall|j: int| 0 <= j < v@.len() ==> v@[j] < METRIC_COUNT,
{
    let ghost tnames = views(targets@);
    let mut out: Vec<usize> = Vec::new();
    let mut k: usize = 0;
    while k < METRIC_COUNT
        invariant
            k <= METRIC_COUNT,
            tnames == views(targets@),
            out@.len() == collateral_prefix(tnames, k as int).len(),
            forall|j: int|
                0 <= j < out@.len() ==> out@[j] as int == #[trigger] collateral_prefix(
                    tnames,
                    k as int,
                )[j],
            forall|j: int| 0 <= j < out@.len() ==> out@[j] < METRIC_COUNT,
        decreases METRIC_COUNT - k,
    {
        let i = name_order(k);
        if !names_contain(targets, metric_name(i)) {
            out.push(i);
        }
        k = k + 1;
    }
    out
}

/// Whether some metric at one of `positions` regressed beyond the warning
/// band.
pub fn any_beyond_warning(positions: &Vec<usize>, comparisons: &Vec<MetricComparison>) -> (r: bool)
    requires
        comparisons@.len() == METRIC_COUNT,
        forall|j: int| 0 <= j < positions@.len() ==> positions@[j] < METRIC_COUNT,
    ensures
        r == collateral_exceeded(positions@.map_values(|i: usize| i as int), comparisons@),
{
    let ghost ps = positions@.map_values(|i: usize| i as int);
    let mut j: usize = 0;
    while j < positions.len()
        invariant
            j <= positions.len(),
            ps == positions@.map_values(|i: usize| i as int),
            comparisons@.len() == METRIC_COUNT,
            forall|q: int| 0 <= q < positions@.len() ==> positions@[q] < METRIC_COUNT,
            forall|q: int| 0 <= q < j ==> !comparisons@[#[trigger] ps[q]].beyond_warning,
        decreases positions.len() - j,
    {
        if comparisons[positions[j]].beyond_warning {
            proof {
                assert(comparisons@[ps[j as int]].beyond_warning);
            }
            return true;
        }
        j = j + 1;
    }
    false
}

/// The names of the metrics at `positions` whose delta lies in the warning
/// band, in order.
pub fn warned_metrics(positions: &Vec<usize>, comparisons: &Vec<MetricComparison>) -> (v: Vec<
    String,
>)
    requires
        comparisons@.len() == METRIC_COUNT,
        forall|j: int| 0 <= j < positions@.len() ==> positions@[j] < METRIC_COUNT,
    ensures
        views(v@) == warned_names(positions@.map_values(|i: usize| i as int), comparisons@),
{
    let ghost ps = positions@.map_values(|i: usize| i as int);
    let mut out: Vec<String> = Vec::new();
    let mut j: usize = 0;
    while j < positions.len()
        invariant
            j <= positions.len(),
            ps == positions@.map_values(|i: usize| i as int),
            comparisons@.len() == METRIC_COUNT,
            forall|q: int| 0 <= q < positions@.len() ==> positions@[q] < METRIC_COUNT,
            views(out@) == warned_names(ps.subrange(0, j as int), comparisons@),
        decreases positions.len() - j,
    {
        proof {
            assert(ps.subrange(0, j + 1).drop_last() =~= ps.subrange(0, j as int));
        }
        let i = positions[j];
        if comparisons[i].in_warning_band {
            out.push(metric_name(i).to_owned());
            proof {
                assert(views(out@) =~= warned_names(ps.subrange(0, j as int), comparisons@).push(
                    metric_name_spec(i as int),
                ));
            }
        }
        j = j + 1;
    }
    proof {
        assert(ps.subrange(0, ps.len() as int) =~= ps);
    }
    out
}

/// The evaluator's rules. Refuses what `evaluation_refusal` refuses, in
/// that order; otherwise decides the collateral set (every metric outside
/// the target set), the metrics in the warning band, the regressed probes
/// and the verdict by the acceptance rule and its precedence order.
/// `comparisons` holds the outcome of comparing each metric's two scores,
/// in canonical order; `aggregate_ok` is the aggregate pass-rate gate and
/// `net_nonnegative` whether the rounded `D_ISA` is not negative.
pub fn decide_evaluation(
    baseline: &MeasurementShape,
    after: &MeasurementShape,
    targets: &[String],
    comparisons: &Vec<MetricComparison>,
    aggregate_ok: bool,
    net_nonnegative: bool,
) -> (r: Result<EvaluationDecision, EfficacyError>)
    requires
        baseline.well_formed(),
        after.well_formed(),
        comparisons@.len() == METRIC_COUNT,
    ensures
        r is Err <==> evaluation_refusal(
            *baseline,
            *after,
            views(targets@),
            comparisons@,
            aggregate_ok,
        ) is Some,
        r matches Err(e) ==> evaluation_refusal(
            *baseline,
            *after,
            views(targets@),
            comparisons@,
            aggregate_ok,
        ) == Some(e@),
        r matches Ok(d) ==> {
            &&& d.verdict == evaluation_verdict(
                views(targets@),
                comparisons@,
                aggregate_ok,
                net_nonnegative,
            )
            &&& d.collateral@.map_values(|i: usize| i as int) == collateral_positions(
                views(targets@),
            )
            &&& views(d.warned_metrics@) == warned_names(
                collateral_positions(views(targets@)),
                comparisons@,
            )
            &&& match (baseline.probes.results, after.probes.results) {
                (Some(b), Some(a)) => d.probes_regressed matches Some(v) && views(v@)
                    == crate::probes::regressed_ids(b@, a@),
                _ => d.probes_regressed is None,
            }
        },
{
    let ghost tnames = views(targets@);
    check_inputs(baseline, after, targets)?;
    check_zero_baselines(targets, comparisons)?;
    let regressed = capability_cross_check(
        aggregate_ok,
        &baseline.probes.results,
        &after.probes.results,
    )?;
    let flags = target_improvements(targets, comparisons);
    let mut all = true;
    let mut none = true;
    let mut k: usize = 0;
    while k < flags.len()
        invariant
            k <= flags.len(),
            all == (forall|j: int| 0 <= j < k ==> #[trigger] flags@[j]),
            none == (forall|j: int| 0 <= j < k ==> !#[trigger] flags@[j]),
        decreases flags.len() - k,
    {
        if !flags[k] {
            all = false;
        } else {
            none = false;
        }
        k = k + 1;
    }
    if !all && !none {
        return Err(disagreement_refusal(targets, &flags));
    }
    let collateral = collateral_metrics(targets);
    proof {
        assert(collateral@.map_values(|i: usize| i as int) =~= collateral_positions(tnames));
    }
    let exceeded = any_beyond_warning(&collateral, comparisons);
    let warned = warned_metrics(&collateral, comparisons);
    let verdict = acceptance_verdict(none, aggregate_ok, exceeded, net_nonnegative, warned.len() > 0);
    proof {
        assert(views(warned@).len() == warned@.len());
    }
    Ok(EvaluationDecision { verdict, collateral, warned_metrics: warned, probes_regressed: regressed })
}

/// Position `j` holds a greatest key, and no later key is as great: the
/// element `Iterator::max_by` returns (it returns the last of several equal
/// maxima).
pub open spec fn is_last_max(keys: Seq<i64>, j: int) -> bool {
    &&& 0 <= j < keys.len()
    &&& forall|q: int| 0 <= q < keys.len() ==> keys[q] <= keys[j]
    &&& forall|q: int| j < q < keys.len() ==> keys[q] < keys[j]
}

/// The position of the last greatest of `keys`, or `None` when there are
/// none. The worst collateral regression is found this way, each delta
/// keyed by its place in the total order of floating-point values.
pub fn last_max_position(keys: &Vec<i64>) -> (r: Option<usize>)
    ensures
        r is None <==> keys@.len() == 0,
        r matches Some(j) ==> is_last_max(keys@, j as int),
{
    if keys.len() == 0 {
        return None;
    }
    let mut best: usize = 0;
    let mut i: usize = 1;
    while i < keys.len()
        invariant
            1 <= i <= keys.len(),
            best < i,
            forall|q: int| 0 <= q < i ==> keys@[q] <= keys@[best as int],
            forall|q: int| best < q < i ==> keys@[q] < keys@[best as int],
        decreases keys.len() - i,
    {
        if keys[i] >= keys[best] {
            best = i;
        }
        i = i + 1;
    }
    Some(best)
}

/// Open normative questions are refused, never guessed: an evaluation
/// with a zero-baseline target (D1a) or with targets that disagree on
/// improvement (D1c) yields no verdict, and every refusal awaiting a ruling
/// names D1a, D1b or D1c.
pub proof fn lemma_open_questions_are_refused(
    baseline: MeasurementShape,
    after: MeasurementShape,
    targets: Seq<Seq<char>>,
    comparisons: Seq<MetricComparison>,
    aggregate_ok: bool,
)
    ensures
        ({
            let flags = improvements(targets, comparisons);
            zero_baseline_target(targets, comparisons, 0) is Some || (!all_improved(flags)
                && !none_improved(flags))
        }) ==> evaluation_refusal(baseline, after, targets, comparisons, aggregate_ok) is Some,
        evaluation_refusal(baseline, after, targets, comparisons, aggregate_ok) matches Some(
            ErrorView::AwaitingRuling { question, .. },
        ) ==> question == "D1a"@ || question == "D1b"@ || question == "D1c"@,
{
}

} // verus!
