//! The efficacy validator's rules: which problems a stored
//! `vexometer-efficacy-v2` report has, in which order they are listed, and
//! how each is worded. The stored figures are recomputed and compared by
//! the caller, which also renders them as text; the rules here see the
//! outcome of each comparison.
use vstd::prelude::*;

use crate::error::ISSUE_D1;
use crate::evaluation::{all_improved, none_improved};
use crate::metric::{is_metric_name, known_metric, metric_name, metric_name_spec, METRIC_COUNT};
use crate::report::EFFICACY_VERSION;
use crate::text::{
    bool_string, bool_text, decimal, decimal_text, has_prefix, has_substring, same_text,
    strictly_ascending, text_contains, text_starts_with, views,
};
use crate::verdict::{acceptance, acceptance_verdict, verdict_text, Verdict};

verus! {

/// What a stored efficacy report says of one target metric.
pub struct TargetFacts {
    pub metric: String,
    /// The stored baseline is zero, so `gap_closed` is undefined.
    pub baseline_zero: bool,
    /// The stored `gap_closed` disagrees with its recomputation.
    pub gap_mismatch: bool,
    /// The stored `mean_reduction` disagrees with its recomputation.
    pub reduction_mismatch: bool,
    /// The stored after score is below the baseline by more than the
    /// tolerance.
    pub improved: bool,
    /// The stored `gap_closed`, as text.
    pub gap_closed_text: String,
    /// The recomputed (rounded) `gap_closed`, as text.
    pub gap_recomputed_text: String,
    /// The stored `mean_reduction`, as text.
    pub reduction_text: String,
    /// The recomputed (rounded) `mean_reduction`, as text.
    pub reduction_recomputed_text: String,
}

/// What a stored efficacy report says of one collateral metric.
pub struct CollateralFacts {
    pub metric: String,
    /// The stored `delta` disagrees with its recomputation.
    pub delta_mismatch: bool,
    /// The stored `delta` lies above the warning band.
    pub beyond_warning: bool,
    /// The stored `delta` lies in the warning band.
    pub in_warning_band: bool,
    /// The stored `delta`, as text.
    pub delta_text: String,
    /// The recomputed (rounded) delta, as text.
    pub delta_recomputed_text: String,
}

/// What the efficacy validator reads of a stored report.
pub struct EfficacyReportFacts {
    pub version: String,
    /// The stored version as a quoted, escaped string literal.
    pub version_text: String,
    pub scenario_set: String,
    /// The target metrics, in the order of their names.
    pub targets: Vec<TargetFacts>,
    /// The collateral metrics, in the order of their names.
    pub collateral: Vec<CollateralFacts>,
    /// The stored `isa_delta` disagrees with the weighted recomputation
    /// (consulted only when every metric is covered).
    pub isa_mismatch: bool,
    /// The stored `isa_delta` is not negative.
    pub isa_nonnegative: bool,
    /// The stored `isa_delta`, as text.
    pub isa_text: String,
    /// The recomputed (rounded) `D_ISA`, as text.
    pub isa_recomputed_text: String,
    pub probes_total: u32,
    pub capability_ok: bool,
    /// The stored pass rates imply the stored `capability_ok` (consulted
    /// only when `probes_total > 0`).
    pub capability_consistent: bool,
    /// The stored pass rates, as text.
    pub pass_rate_before_text: String,
    pub pass_rate_after_text: String,
    pub verdict: Verdict,
    pub verdict_notes: Option<String>,
}

impl EfficacyReportFacts {
    /// The target and collateral metrics as the report's metric-keyed maps
    /// hold them: each list strictly ascending by name.
    pub open spec fn well_formed(self) -> bool {
        &&& strictly_ascending(target_names(self.targets@))
        &&& strictly_ascending(collateral_names(self.collateral@))
    }
}

/// The kinds of problem a stored efficacy report can have.
#[derive(Debug, Clone, Copy, PartialEq, Eq, Structural)]
pub enum EfficacyProblemKind {
    VersionMismatch,
    ScenarioNotContentAddressed,
    NoTargets,
    UnknownTarget,
    InBothSets,
    UnknownCollateral,
    Uncovered,
    ZeroBaselineTarget,
    GapClosedMismatch,
    MeanReductionMismatch,
    DeltaMismatch,
    IsaDeltaMismatch,
    NoProbes,
    CapabilityMismatch,
    TargetsDisagree,
    /// The stored verdict is not the one the acceptance rule implies, which
    /// is carried here.
    VerdictMismatch(Verdict),
    NotesMissing,
    NotesOmitMetric,
}

/// One problem of a stored efficacy report: its kind, the metric it
/// concerns (empty when it concerns none), the position of that metric in
/// the list of targets or collateral metrics it comes from (for a metric in
/// neither set, its canonical position; 0 when it concerns none), and the
/// problem's wording.
pub struct EfficacyProblem {
    pub kind: EfficacyProblemKind,
    pub metric: String,
    pub position: usize,
    pub message: String,
}

/// A problem as its kind, the characters of its metric and its position.
pub type ProblemView = (EfficacyProblemKind, Seq<char>, int);

/// The problems as kinds, metric names and positions.
pub open spec fn problem_views(v: Seq<EfficacyProblem>) -> Seq<ProblemView> {
    v.map_values(|p: EfficacyProblem| (p.kind, p.metric@, p.position as int))
}

/// A problem that concerns no metric.
pub open spec fn plain(kind: EfficacyProblemKind) -> ProblemView {
    (kind, Seq::empty(), 0)
}

/// The names of the target metrics.
pub open spec fn target_names(ts: Seq<TargetFacts>) -> Seq<Seq<char>> {
    ts.map_values(|t: TargetFacts| t.metric@)
}

/// The names of the collateral metrics.
pub open spec fn collateral_names(cs: Seq<CollateralFacts>) -> Seq<Seq<char>> {
    cs.map_values(|c: CollateralFacts| c.metric@)
}

/// `seq![p]` when `cond`, else nothing.
pub open spec fn when(cond: bool, p: ProblemView) -> Seq<ProblemView> {
    if cond {
        seq![p]
    } else {
        Seq::empty()
    }
}

/// The version, scenario-set and target-count problems.
pub open spec fn header_problems(f: EfficacyReportFacts) -> Seq<ProblemView> {
    when(f.version@ != EFFICACY_VERSION@, plain(EfficacyProblemKind::VersionMismatch)) + when(
        !has_prefix(f.scenario_set@, "sha256:"@),
        plain(EfficacyProblemKind::ScenarioNotContentAddressed),
    ) + when(f.targets@.len() == 0, plain(EfficacyProblemKind::NoTargets))
}

/// For each target in turn: unknown, and listed as collateral too.
pub open spec fn target_set_problems(ts: Seq<Seq<char>>, cs: Seq<Seq<char>>) -> Seq<ProblemView>
    decreases ts.len(),
{
    if ts.len() == 0 {
        Seq::empty()
    } else {
        let m = ts.last();
        let i = ts.len() - 1;
        target_set_problems(ts.drop_last(), cs) + when(
            !is_metric_name(m),
            (EfficacyProblemKind::UnknownTarget, m, i),
        ) + when(cs.contains(m), (EfficacyProblemKind::InBothSets, m, i))
    }
}

/// For each collateral metric in turn: unknown.
pub open spec fn collateral_set_problems(cs: Seq<Seq<char>>) -> Seq<ProblemView>
    decreases cs.len(),
{
    if cs.len() == 0 {
        Seq::empty()
    } else {
        collateral_set_problems(cs.drop_last()) + when(
            !is_metric_name(cs.last()),
            (EfficacyProblemKind::UnknownCollateral, cs.last(), cs.len() - 1),
        )
    }
}

/// Whether the metric at canonical position `i` is in neither set.
pub open spec fn uncovered(ts: Seq<Seq<char>>, cs: Seq<Seq<char>>, i: int) -> bool {
    !ts.contains(metric_name_spec(i)) && !cs.contains(metric_name_spec(i))
}

/// The metrics, among the first `n` in canonical order, in neither set.
pub open spec fn coverage_problems(ts: Seq<Seq<char>>, cs: Seq<Seq<char>>, n: int) -> Seq<
    ProblemView,
>
    decreases n,
{
    if n <= 0 {
        Seq::empty()
    } else {
        coverage_problems(ts, cs, n - 1) + when(
            uncovered(ts, cs, n - 1),
            (EfficacyProblemKind::Uncovered, metric_name_spec(n - 1), n - 1),
        )
    }
}

/// The arithmetic problems of one target, at position `i`.
pub open spec fn target_arith(t: TargetFacts, i: int) -> Seq<ProblemView> {
    if t.baseline_zero {
        seq![(EfficacyProblemKind::ZeroBaselineTarget, t.metric@, i)]
    } else {
        when(t.gap_mismatch, (EfficacyProblemKind::GapClosedMismatch, t.metric@, i)) + when(
            t.reduction_mismatch,
            (EfficacyProblemKind::MeanReductionMismatch, t.metric@, i),
        )
    }
}

/// The arithmetic problems of the targets, in turn.
pub open spec fn target_arith_problems(ts: Seq<TargetFacts>) -> Seq<ProblemView>
    decreases ts.len(),
{
    if ts.len() == 0 {
        Seq::empty()
    } else {
        target_arith_problems(ts.drop_last()) + target_arith(ts.last(), ts.len() - 1)
    }
}

/// The arithmetic problems of the collateral metrics, in turn.
pub open spec fn collateral_arith_problems(cs: Seq<CollateralFacts>) -> Seq<ProblemView>
    decreases cs.len(),
{
    if cs.len() == 0 {
        Seq::empty()
    } else {
        collateral_arith_problems(cs.drop_last()) + when(
            cs.last().delta_mismatch,
            (EfficacyProblemKind::DeltaMismatch, cs.last().metric@, cs.len() - 1),
        )
    }
}

/// Every one of the ten metrics is a target or a collateral metric.
pub open spec fn complete(ts: Seq<Seq<char>>, cs: Seq<Seq<char>>) -> bool {
    forall|i: int| 0 <= i < 10 ==> !#[trigger] uncovered(ts, cs, i)
}

/// The `D_ISA` and capability problems.
pub open spec fn figure_problems(f: EfficacyReportFacts) -> Seq<ProblemView> {
    when(
        complete(target_names(f.targets@), collateral_names(f.collateral@)) && f.isa_mismatch,
        plain(EfficacyProblemKind::IsaDeltaMismatch),
    ) + if f.probes_total == 0 {
        seq![plain(EfficacyProblemKind::NoProbes)]
    } else {
        when(!f.capability_consistent, plain(EfficacyProblemKind::CapabilityMismatch))
    }
}

/// Every problem found before the verdict is recomputed.
pub open spec fn structural_problems(f: EfficacyReportFacts) -> Seq<ProblemView> {
    let ts = target_names(f.targets@);
    let cs = collateral_names(f.collateral@);
    header_problems(f) + target_set_problems(ts, cs) + collateral_set_problems(cs)
        + coverage_problems(ts, cs, 10) + target_arith_problems(f.targets@)
        + collateral_arith_problems(f.collateral@) + figure_problems(f)
}

/// For each target in turn, whether it improved.
pub open spec fn target_flags(ts: Seq<TargetFacts>) -> Seq<bool> {
    ts.map_values(|t: TargetFacts| t.improved)
}

/// The collateral metrics whose stored delta lies in the warning band, in
/// order.
pub open spec fn warned_collateral(cs: Seq<CollateralFacts>) -> Seq<Seq<char>>
    decreases cs.len(),
{
    if cs.len() == 0 {
        Seq::empty()
    } else {
        let prev = warned_collateral(cs.drop_last());
        if cs.last().in_warning_band {
            prev.push(cs.last().metric@)
        } else {
            prev
        }
    }
}

/// Some collateral metric's stored delta lies above the warning band.
pub open spec fn any_beyond(cs: Seq<CollateralFacts>) -> bool {
    exists|j: int| 0 <= j < cs.len() && (#[trigger] cs[j]).beyond_warning
}

/// The verdict the acceptance rule implies for a stored report.
pub open spec fn expected_verdict(f: EfficacyReportFacts) -> Verdict {
    acceptance(
        none_improved(target_flags(f.targets@)),
        f.capability_ok,
        any_beyond(f.collateral@),
        f.isa_nonnegative,
        warned_collateral(f.collateral@).len() > 0,
    )
}

/// The warned metrics that `notes` does not name, in order.
pub open spec fn unnamed_problems(warned: Seq<Seq<char>>, notes: Seq<char>) -> Seq<ProblemView>
    decreases warned.len(),
{
    if warned.len() == 0 {
        Seq::empty()
    } else {
        unnamed_problems(warned.drop_last(), notes) + when(
            !has_substring(notes, warned.last()),
            (EfficacyProblemKind::NotesOmitMetric, warned.last(), warned.len() - 1),
        )
    }
}

/// The notes problems of an `accept_with_warning` report.
pub open spec fn notes_problems(f: EfficacyReportFacts) -> Seq<ProblemView> {
    if f.verdict == Verdict::AcceptWithWarning {
        match f.verdict_notes {
            None => seq![plain(EfficacyProblemKind::NotesMissing)],
            Some(n) => unnamed_problems(warned_collateral(f.collateral@), n@),
        }
    } else {
        Seq::empty()
    }
}

/// The problems found by recomputing the verdict.
pub open spec fn verdict_problems(f: EfficacyReportFacts) -> Seq<ProblemView> {
    let flags = target_flags(f.targets@);
    if !all_improved(flags) && !none_improved(flags) {
        seq![plain(EfficacyProblemKind::TargetsDisagree)]
    } else {
        when(
            expected_verdict(f) != f.verdict,
            plain(EfficacyProblemKind::VerdictMismatch(expected_verdict(f))),
        ) + notes_problems(f)
    }
}

/// Every problem of a stored efficacy report, in order. The verdict is
/// recomputed only for a report with no other problem whose verdict is not
/// the `unverified` sentinel.
pub open spec fn efficacy_problems(f: EfficacyReportFacts) -> Seq<ProblemView> {
    let s = structural_problems(f);
    if f.verdict != Verdict::Unverified && s.len() == 0 {
        verdict_problems(f)
    } else {
        s
    }
}

/// The wording of the problem `p` of the report `f`.
pub open spec fn efficacy_message(p: ProblemView, f: EfficacyReportFacts) -> Seq<char> {
    let m = p.1;
    let i = p.2;
    match p.0 {
        EfficacyProblemKind::VersionMismatch => "version is "@ + f.version_text@
            + ", expected \"vexometer-efficacy-v2\""@,
        EfficacyProblemKind::ScenarioNotContentAddressed =>
            "scenario_set is not content-addressed (sha256:...)"@,
        EfficacyProblemKind::NoTargets => "target_metrics is empty"@,
        EfficacyProblemKind::UnknownTarget => "unknown target metric "@ + m,
        EfficacyProblemKind::InBothSets => m + " appears in both target and collateral sets"@,
        EfficacyProblemKind::UnknownCollateral => "unknown collateral metric "@ + m,
        EfficacyProblemKind::Uncovered => "metric "@ + m
            + " is in neither target_metrics nor collateral_metrics; collateral must cover every non-target metric"@,
        EfficacyProblemKind::ZeroBaselineTarget => "target "@ + m
            + " has baseline 0: gap_closed is undefined (awaiting ruling D1a, "@ + ISSUE_D1@
            + ")"@,
        EfficacyProblemKind::GapClosedMismatch => "target "@ + m + ": gap_closed "@
            + f.targets@[i].gap_closed_text@ + " does not match (baseline - after) / baseline = "@
            + f.targets@[i].gap_recomputed_text@,
        EfficacyProblemKind::MeanReductionMismatch => "target "@ + m + ": mean_reduction "@
            + f.targets@[i].reduction_text@ + " does not match baseline - after = "@
            + f.targets@[i].reduction_recomputed_text@,
        EfficacyProblemKind::DeltaMismatch => "collateral "@ + m + ": delta "@
            + f.collateral@[i].delta_text@ + " does not match after - baseline = "@
            + f.collateral@[i].delta_recomputed_text@,
        EfficacyProblemKind::IsaDeltaMismatch => "isa_delta "@ + f.isa_text@
            + " does not match weighted recomputation "@ + f.isa_recomputed_text@,
        EfficacyProblemKind::NoProbes => "capability.probes_total must be > 0"@,
        EfficacyProblemKind::CapabilityMismatch => "capability_ok is "@ + bool_text(
            f.capability_ok,
        ) + " but pass rates "@ + f.pass_rate_before_text@ + " -> "@ + f.pass_rate_after_text@
            + " with tolerance 1/"@ + decimal(f.probes_total as nat) + " imply "@ + bool_text(
            !f.capability_ok,
        ),
        EfficacyProblemKind::TargetsDisagree =>
            "targets disagree on improvement; the multi-target acceptance rule is undecided (awaiting ruling D1c, "@
            + ISSUE_D1@ + ")"@,
        EfficacyProblemKind::VerdictMismatch(e) => "verdict is "@ + verdict_text(f.verdict)
            + " but the acceptance rule implies "@ + verdict_text(e),
        EfficacyProblemKind::NotesMissing =>
            "accept_with_warning requires verdict_notes naming the regressed metric"@,
        EfficacyProblemKind::NotesOmitMetric => "verdict_notes must name regressed metric "@ + m,
    }
}

/// Each problem of `v` is worded as `efficacy_message` words it.
pub open spec fn worded(v: Seq<EfficacyProblem>, f: EfficacyReportFacts) -> bool {
    forall|k: int|
        0 <= k < v.len() ==> (#[trigger] v[k]).message@ == efficacy_message(
            (v[k].kind, v[k].metric@, v[k].position as int),
            f,
        )
}

/// The position of a problem that quotes a target's or a collateral
/// metric's figures lies in that list.
pub open spec fn position_fits(kind: EfficacyProblemKind, i: int, f: EfficacyReportFacts) -> bool {
    &&& (kind is GapClosedMismatch || kind is MeanReductionMismatch) ==> 0 <= i < f.targets@.len()
    &&& kind is DeltaMismatch ==> 0 <= i < f.collateral@.len()
}

/// The wording of a problem of kind `kind` concerning `metric` at
/// position `i`.
fn efficacy_message_text(
    kind: EfficacyProblemKind,
    metric: &str,
    i: usize,
    f: &EfficacyReportFacts,
) -> (s: String)
    requires
        position_fits(kind, i as int, *f),
    ensures
        s@ == efficacy_message((kind, metric@, i as int), *f),
{
    let mut s = String::new();
    match kind {
        EfficacyProblemKind::VersionMismatch => {
            s.push_str("version is ");
            s.push_str(f.version_text.as_str());
            s.push_str(", expected \"vexometer-efficacy-v2\"");
        },
        EfficacyProblemKind::ScenarioNotContentAddressed => {
            s.push_str("scenario_set is not content-addressed (sha256:...)");
        },
        EfficacyProblemKind::NoTargets => {
            s.push_str("target_metrics is empty");
        },
        EfficacyProblemKind::UnknownTarget => {
            s.push_str("unknown target metric ");
            s.push_str(metric);
        },
        EfficacyProblemKind::InBothSets => {
            s.push_str(metric);
            s.push_str(" appears in both target and collateral sets");
        },
        EfficacyProblemKind::UnknownCollateral => {
            s.push_str("unknown collateral metric ");
            s.push_str(metric);
        },
        EfficacyProblemKind::Uncovered => {
            s.push_str("metric ");
            s.push_str(metric);
            s.push_str(
                " is in neither target_metrics nor collateral_metrics; collateral must cover every non-target metric",
            );
        },
        EfficacyProblemKind::ZeroBaselineTarget => {
            s.push_str("target ");
            s.push_str(metric);
            s.push_str(" has baseline 0: gap_closed is undefined (awaiting ruling D1a, ");
            s.push_str(ISSUE_D1);
            s.push_str(")");
        },
        EfficacyProblemKind::GapClosedMismatch => {
            s.push_str("target ");
            s.push_str(metric);
            s.push_str(": gap_closed ");
            s.push_str(f.targets[i].gap_closed_text.as_str());
            s.push_str(" does not match (baseline - after) / baseline = ");
            s.push_str(f.targets[i].gap_recomputed_text.as_str());
        },
        EfficacyProblemKind::MeanReductionMismatch => {
            s.push_str("target ");
            s.push_str(metric);
            s.push_str(": mean_reduction ");
            s.push_str(f.targets[i].reduction_text.as_str());
            s.push_str(" does not match baseline - after = ");
            s.push_str(f.targets[i].reduction_recomputed_text.as_str());
        },
        EfficacyProblemKind::DeltaMismatch => {
            s.push_str("collateral ");
            s.push_str(metric);
            s.push_str(": delta ");
            s.push_str(f.collateral[i].delta_text.as_str());
            s.push_str(" does not match after - baseline = ");
            s.push_str(f.collateral[i].delta_recomputed_text.as_str());
        },
        EfficacyProblemKind::IsaDeltaMismatch => {
            s.push_str("isa_delta ");
            s.push_str(f.isa_text.as_str());
            s.push_str(" does not match weighted recomputation ");
            s.push_str(f.isa_recomputed_text.as_str());
        },
        EfficacyProblemKind::NoProbes => {
            s.push_str("capability.probes_total must be > 0");
        },
        EfficacyProblemKind::CapabilityMismatch => {
            s.push_str("capability_ok is ");
            s.push_str(bool_string(f.capability_ok).as_str());
            s.push_str(" but pass rates ");
            s.push_str(f.pass_rate_before_text.as_str());
            s.push_str(" -> ");
            s.push_str(f.pass_rate_after_text.as_str());
            s.push_str(" with tolerance 1/");
            s.push_str(decimal_text(f.probes_total as u64).as_str());
            s.push_str(" imply ");
            s.push_str(bool_string(!f.capability_ok).as_str());
        },
        EfficacyProblemKind::TargetsDisagree => {
            s.push_str(
                "targets disagree on improvement; the multi-target acceptance rule is undecided (awaiting ruling D1c, ",
            );
            s.push_str(ISSUE_D1);
            s.push_str(")");
        },
        EfficacyProblemKind::VerdictMismatch(e) => {
            s.push_str("verdict is ");
            s.push_str(f.verdict.as_str());
            s.push_str(" but the acceptance rule implies ");
            s.push_str(e.as_str());
        },
        EfficacyProblemKind::NotesMissing => {
            s.push_str("accept_with_warning requires verdict_notes naming the regressed metric");
        },
        EfficacyProblemKind::NotesOmitMetric => {
            s.push_str("verdict_notes must name regressed metric ");
            s.push_str(metric);
        },
    }
    s
}

/// Append a problem of kind `kind` concerning `metric` at position `i`,
/// worded.
fn push_problem(
    v: &mut Vec<EfficacyProblem>,
    kind: EfficacyProblemKind,
    metric: &str,
    i: usize,
    f: &EfficacyReportFacts,
)
    requires
        position_fits(kind, i as int, *f),
        worded(old(v)@, *f),
    ensures
        problem_views(final(v)@) == problem_views(old(v)@).push((kind, metric@, i as int)),
        worded(final(v)@, *f),
{
    let message = efficacy_message_text(kind, metric, i, f);
    v.push(EfficacyProblem { kind, metric: metric.to_owned(), position: i, message });
    proof {
        assert(problem_views(v@) =~= problem_views(old(v)@).push((kind, metric@, i as int)));
    }
}

/// Append a worded problem concerning no metric.
fn push_plain(v: &mut Vec<EfficacyProblem>, kind: EfficacyProblemKind, f: &EfficacyReportFacts)
    requires
        position_fits(kind, 0, *f),
        worded(old(v)@, *f),
    ensures
        problem_views(final(v)@) == problem_views(old(v)@).push(plain(kind)),
        worded(final(v)@, *f),
{
    let message = efficacy_message_text(kind, "", 0, f);
    proof {
        reveal_strlit("");
    }
    v.push(EfficacyProblem { kind, metric: String::new(), position: 0, message });
    proof {
        assert(problem_views(v@) =~= problem_views(old(v)@).push(plain(kind)));
    }
}

/// Whether `s` names one of the collateral metrics.
fn collateral_contains(cs: &Vec<CollateralFacts>, s: &str) -> (r: bool)
    ensures
        r == collateral_names(cs@).contains(s@),
{
    let mut i: usize = 0;
    while i < cs.len()
        invariant
            i <= cs.len(),
            forall|j: int| 0 <= j < i ==> (#[trigger] cs@[j]).metric@ != s@,
        decreases cs.len() - i,
    {
        if same_text(cs[i].metric.as_str(), s) {
            proof {
                assert(collateral_names(cs@)[i as int] == s@);
            }
            return true;
        }
        i = i + 1;
    }
    proof {
        if collateral_names(cs@).contains(s@) {
            let j = choose|j: int|
                0 <= j < collateral_names(cs@).len() && collateral_names(cs@)[j] == s@;
            assert(cs@[j].metric@ == s@);
        }
    }
    false
}

/// Whether `s` names one of the target metrics.
fn targets_contain(ts: &Vec<TargetFacts>, s: &str) -> (r: bool)
    ensures
        r == target_names(ts@).contains(s@),
{
    let mut i: usize = 0;
    while i < ts.len()
        invariant
            i <= ts.len(),
            forall|j: int| 0 <= j < i ==> (#[trigger] ts@[j]).metric@ != s@,
        decreases ts.len() - i,
    {
        if same_text(ts[i].metric.as_str(), s) {
            proof {
                assert(target_names(ts@)[i as int] == s@);
            }
            return true;
        }
        i = i + 1;
    }
    proof {
        if target_names(ts@).contains(s@) {
            let j = choose|j: int| 0 <= j < target_names(ts@).len() && target_names(ts@)[j] == s@;
            assert(ts@[j].metric@ == s@);
        }
    }
    false
}

/// The problems found before the verdict is recomputed.
fn structural_check(f: &EfficacyReportFacts) -> (v: Vec<EfficacyProblem>)
    ensures
        problem_views(v@) == structural_problems(*f),
        worded(v@, *f),
{
    let ghost ts = target_names(f.targets@);
    let ghost cs = collateral_names(f.collateral@);
    let mut v: Vec<EfficacyProblem> = Vec::new();
    proof {
        assert(problem_views(v@) =~= Seq::<ProblemView>::empty());
    }
    if !same_text(f.version.as_str(), EFFICACY_VERSION) {
        push_plain(&mut v, EfficacyProblemKind::VersionMismatch, f);
    }
    if !text_starts_with(f.scenario_set.as_str(), "sha256:") {
        push_plain(&mut v, EfficacyProblemKind::ScenarioNotContentAddressed, f);
    }
    if f.targets.len() == 0 {
        push_plain(&mut v, EfficacyProblemKind::NoTargets, f);
    }
    proof {
        assert(problem_views(v@) =~= header_problems(*f));
    }
    let ghost base = problem_views(v@);
    let mut k: usize = 0;
    while k < f.targets.len()
        invariant
            worded(v@, *f),
            k <= f.targets.len(),
            ts == target_names(f.targets@),
            cs == collateral_names(f.collateral@),
            problem_views(v@) == base + target_set_problems(ts.subrange(0, k as int), cs),
        decreases f.targets.len() - k,
    {
        let ghost prev = problem_views(v@);
        proof {
            assert(ts.subrange(0, k + 1).drop_last() =~= ts.subrange(0, k as int));
            assert(ts.subrange(0, k + 1).last() == f.targets@[k as int].metric@);
        }
        let m = f.targets[k].metric.as_str();
        if !known_metric(m) {
            push_problem(&mut v, EfficacyProblemKind::UnknownTarget, m, k, f);
        }
        if collateral_contains(&f.collateral, m) {
            push_problem(&mut v, EfficacyProblemKind::InBothSets, m, k, f);
        }
        proof {
            assert(problem_views(v@) =~= base + target_set_problems(
                ts.subrange(0, k + 1),
                cs,
            ));
        }
        k = k + 1;
    }
    proof {
        assert(ts.subrange(0, ts.len() as int) =~= ts);
    }
    let ghost base = problem_views(v@);
    let mut k: usize = 0;
    while k < f.collateral.len()
        invariant
            worded(v@, *f),
            k <= f.collateral.len(),
            cs == collateral_names(f.collateral@),
            problem_views(v@) == base + collateral_set_problems(cs.subrange(0, k as int)),
        decreases f.collateral.len() - k,
    {
        proof {
            assert(cs.subrange(0, k + 1).drop_last() =~= cs.subrange(0, k as int));
            assert(cs.subrange(0, k + 1).last() == f.collateral@[k as int].metric@);
        }
        let m = f.collateral[k].metric.as_str();
        if !known_metric(m) {
            push_problem(&mut v, EfficacyProblemKind::UnknownCollateral, m, k, f);
        }
        proof {
            assert(problem_views(v@) =~= base + collateral_set_problems(
                cs.subrange(0, k + 1),
            ));
        }
        k = k + 1;
    }
    proof {
        assert(cs.subrange(0, cs.len() as int) =~= cs);
    }
    let ghost base = problem_views(v@);
    let mut complete_so_far = true;
    let mut i: usize = 0;
    while i < METRIC_COUNT
        invariant
            worded(v@, *f),
            i <= METRIC_COUNT,
            ts == target_names(f.targets@),
            cs == collateral_names(f.collateral@),
            problem_views(v@) == base + coverage_problems(ts, cs, i as int),
            complete_so_far == (forall|j: int| 0 <= j < i ==> !#[trigger] uncovered(ts, cs, j)),
        decreases METRIC_COUNT - i,
    {
        let name = metric_name(i);
        if !targets_contain(&f.targets, name) && !collateral_contains(&f.collateral, name) {
            push_problem(&mut v, EfficacyProblemKind::Uncovered, name, i, f);
            complete_so_far = false;
        }
        proof {
            assert(problem_views(v@) =~= base + coverage_problems(ts, cs, i + 1));
        }
        i = i + 1;
    }
    let ghost base = problem_views(v@);
    let mut k: usize = 0;
    while k < f.targets.len()
        invariant
            worded(v@, *f),
            k <= f.targets.len(),
            problem_views(v@) == base + target_arith_problems(f.targets@.subrange(0, k as int)),
        decreases f.targets.len() - k,
    {
        proof {
            assert(f.targets@.subrange(0, k + 1).drop_last() =~= f.targets@.subrange(0, k as int));
        }
        let t = &f.targets[k];
        if t.baseline_zero {
            push_problem(&mut v, EfficacyProblemKind::ZeroBaselineTarget, t.metric.as_str(), k, f);
        } else {
            if t.gap_mismatch {
                push_problem(&mut v, EfficacyProblemKind::GapClosedMismatch, t.metric.as_str(), k, f);
            }
            if t.reduction_mismatch {
                push_problem(
                    &mut v,
                    EfficacyProblemKind::MeanReductionMismatch,
                    t.metric.as_str(),
                    k,
                    f,
                );
            }
        }
        proof {
            assert(problem_views(v@) =~= base + target_arith_problems(
                f.targets@.subrange(0, k + 1),
            ));
        }
        k = k + 1;
    }
    proof {
        assert(f.targets@.subrange(0, f.targets@.len() as int) =~= f.targets@);
    }
    let ghost base = problem_views(v@);
    let mut k: usize = 0;
    while k < f.collateral.len()
        invariant
            worded(v@, *f),
            k <= f.collateral.len(),
            problem_views(v@) == base + collateral_arith_problems(
                f.collateral@.subrange(0, k as int),
            ),
        decreases f.collateral.len() - k,
    {
        proof {
            assert(f.collateral@.subrange(0, k + 1).drop_last() =~= f.collateral@.subrange(
                0,
                k as int,
            ));
        }
        let c = &f.collateral[k];
        if c.delta_mismatch {
            push_problem(&mut v, EfficacyProblemKind::DeltaMismatch, c.metric.as_str(), k, f);
        }
        proof {
            assert(problem_views(v@) =~= base + collateral_arith_problems(
                f.collateral@.subrange(0, k + 1),
            ));
        }
        k = k + 1;
    }
    proof {
        assert(f.collateral@.subrange(0, f.collateral@.len() as int) =~= f.collateral@);
    }
    let ghost base = problem_views(v@);
    if complete_so_far && f.isa_mismatch {
        push_plain(&mut v, EfficacyProblemKind::IsaDeltaMismatch, f);
    }
    if f.probes_total == 0 {
        push_plain(&mut v, EfficacyProblemKind::NoProbes, f);
    } else if !f.capability_consistent {
        push_plain(&mut v, EfficacyProblemKind::CapabilityMismatch, f);
    }
    proof {
        assert(problem_views(v@) =~= base + figure_problems(*f));
        assert(problem_views(v@) =~= structural_problems(*f));
    }
    v
}

/// The problems found by recomputing the verdict of a report.
fn verdict_check(f: &EfficacyReportFacts) -> (v: Vec<EfficacyProblem>)
    ensures
        problem_views(v@) == verdict_problems(*f),
        worded(v@, *f),
{
    let mut v: Vec<EfficacyProblem> = Vec::new();
    let ghost flags = target_flags(f.targets@);
    let mut all = true;
    let mut none = true;
    let mut k: usize = 0;
    while k < f.targets.len()
        invariant
            worded(v@, *f),
            k <= f.targets.len(),
            flags == target_flags(f.targets@),
            all == (forall|j: int| 0 <= j < k ==> #[trigger] flags[j]),
            none == (forall|j: int| 0 <= j < k ==> !#[trigger] flags[j]),
        decreases f.targets.len() - k,
    {
        proof {
            assert(flags[k as int] == f.targets@[k as int].improved);
        }
        if f.targets[k].improved {
            none = false;
        } else {
            all = false;
        }
        k = k + 1;
    }
    if !all && !none {
        push_plain(&mut v, EfficacyProblemKind::TargetsDisagree, f);
        proof {
            assert(problem_views(v@) =~= verdict_problems(*f));
        }
        return v;
    }
    let mut beyond = false;
    let mut warned: Vec<String> = Vec::new();
    let mut k: usize = 0;
    while k < f.collateral.len()
        invariant
            worded(v@, *f),
            k <= f.collateral.len(),
            beyond == (exists|j: int| 0 <= j < k && (#[trigger] f.collateral@[j]).beyond_warning),
            views(warned@) == warned_collateral(f.collateral@.subrange(0, k as int)),
        decreases f.collateral.len() - k,
    {
        proof {
            assert(f.collateral@.subrange(0, k + 1).drop_last() =~= f.collateral@.subrange(
                0,
                k as int,
            ));
        }
        if f.collateral[k].beyond_warning {
            beyond = true;
        }
        if f.collateral[k].in_warning_band {
            warned.push(f.collateral[k].metric.clone());
            proof {
                assert(views(warned@) =~= warned_collateral(f.collateral@.subrange(0, k as int)).push(
                    f.collateral@[k as int].metric@,
                ));
            }
        }
        k = k + 1;
    }
    proof {
        assert(f.collateral@.subrange(0, f.collateral@.len() as int) =~= f.collateral@);
        assert(views(warned@).len() == warned@.len());
    }
    let expected = acceptance_verdict(
        none,
        f.capability_ok,
        beyond,
        f.isa_nonnegative,
        warned.len() > 0,
    );
    if expected != f.verdict {
        push_plain(&mut v, EfficacyProblemKind::VerdictMismatch(expected), f);
    }
    let ghost base = problem_views(v@);
    if f.verdict == Verdict::AcceptWithWarning {
        match &f.verdict_notes {
            None => {
                push_plain(&mut v, EfficacyProblemKind::NotesMissing, f);
            },
            Some(notes) => {
                let ghost ws = views(warned@);
                let mut k: usize = 0;
                while k < warned.len()
                    invariant
                        worded(v@, *f),
                        k <= warned.len(),
                        ws == views(warned@),
                        problem_views(v@) == base + unnamed_problems(
                            ws.subrange(0, k as int),
                            notes@,
                        ),
                    decreases warned.len() - k,
                {
                    proof {
                        assert(ws.subrange(0, k + 1).drop_last() =~= ws.subrange(0, k as int));
                        assert(ws.subrange(0, k + 1).last() == warned@[k as int]@);
                    }
                    if !text_contains(notes.as_str(), warned[k].as_str()) {
                        push_problem(&mut v, EfficacyProblemKind::NotesOmitMetric, warned[k].as_str(), k, f);
                    }
                    proof {
                        assert(problem_views(v@) =~= base + unnamed_problems(
                            ws.subrange(0, k + 1),
                            notes@,
                        ));
                    }
                    k = k + 1;
                }
                proof {
                    assert(ws.subrange(0, ws.len() as int) =~= ws);
                }
            },
        }
    }
    proof {
        assert(problem_views(v@) =~= verdict_problems(*f));
    }
    v
}

/// Validate a stored efficacy report: the problems of `efficacy_problems`,
/// in that order, each worded as `efficacy_message` words it; an empty list
/// means the report is valid.
pub fn efficacy_report_problems(f: &EfficacyReportFacts) -> (v: Vec<EfficacyProblem>)
    requires
        f.well_formed(),
    ensures
        problem_views(v@) == efficacy_problems(*f),
        worded(v@, *f),
{
    let structural = structural_check(f);
    if f.verdict != Verdict::Unverified && structural.len() == 0 {
        proof {
            assert(problem_views(structural@).len() == structural@.len());
        }
        verdict_check(f)
    } else {
        proof {
            assert(problem_views(structural@).len() == structural@.len());
        }
        structural
    }
}


/// Some collateral metric lies in the warning band exactly when the list
/// of warned metrics is not empty.
pub proof fn lemma_warned_collateral_nonempty(cs: Seq<CollateralFacts>)
    ensures
        warned_collateral(cs).len() > 0 <==> exists|j: int|
            0 <= j < cs.len() && (#[trigger] cs[j]).in_warning_band,
    decreases cs.len(),
{
    if cs.len() > 0 {
        let c0 = cs.drop_last();
        lemma_warned_collateral_nonempty(c0);
        if exists|j: int| 0 <= j < c0.len() && (#[trigger] c0[j]).in_warning_band {
            let j = choose|j: int| 0 <= j < c0.len() && (#[trigger] c0[j]).in_warning_band;
            assert(cs[j] == c0[j]);
        }
        if exists|j: int| 0 <= j < cs.len() && (#[trigger] cs[j]).in_warning_band {
            let j = choose|j: int| 0 <= j < cs.len() && (#[trigger] cs[j]).in_warning_band;
            if j < c0.len() {
                assert(c0[j] == cs[j]);
            }
        }
    }
}

/// A report the validator accepts carries the verdict the acceptance rule
/// gives for its stored outcomes (or the `unverified` sentinel), whatever
/// that verdict is, rejections included: the rule applied to whether no
/// target improved, the stored capability gate, whether a collateral
/// metric lies beyond the warning band, the sign of the stored `D_ISA`, and
/// whether a collateral metric lies in the warning band. Its targets then
/// agree on improvement.
pub proof fn lemma_accepted_report_has_rule_verdict(f: EfficacyReportFacts)
    requires
        efficacy_problems(f) == Seq::<ProblemView>::empty(),
    ensures
        f.verdict == Verdict::Unverified || f.verdict == acceptance(
            forall|j: int| 0 <= j < f.targets@.len() ==> !(#[trigger] f.targets@[j]).improved,
            f.capability_ok,
            exists|j: int| 0 <= j < f.collateral@.len() && (#[trigger] f.collateral@[j]).beyond_warning,
            f.isa_nonnegative,
            exists|j: int| 0 <= j < f.collateral@.len() && (#[trigger] f.collateral@[j]).in_warning_band,
        ),
        f.verdict != Verdict::Unverified ==> (forall|j: int|
            0 <= j < f.targets@.len() ==> (#[trigger] f.targets@[j]).improved) || (forall|j: int|
            0 <= j < f.targets@.len() ==> !(#[trigger] f.targets@[j]).improved),
{
    lemma_warned_collateral_nonempty(f.collateral@);
    let flags = target_flags(f.targets@);
    if f.verdict != Verdict::Unverified {
        let s = structural_problems(f);
        if s.len() > 0 {
            assert(efficacy_problems(f) == s);
            assert(efficacy_problems(f).len() > 0);
        }
        assert(efficacy_problems(f) == verdict_problems(f));
        if !all_improved(flags) && !none_improved(flags) {
            assert(verdict_problems(f).len() > 0);
        }
        if expected_verdict(f) != f.verdict {
            assert(verdict_problems(f).len() > 0);
        }
        assert(none_improved(flags) == (forall|j: int|
            0 <= j < f.targets@.len() ==> !(#[trigger] f.targets@[j]).improved)) by {
            assert forall|j: int| 0 <= j < f.targets@.len() implies flags[j] == (#[trigger] f.targets@[j]).improved by {}
        }
        assert(all_improved(flags) == (forall|j: int|
            0 <= j < f.targets@.len() ==> (#[trigger] f.targets@[j]).improved)) by {
            assert forall|j: int| 0 <= j < f.targets@.len() implies flags[j] == (#[trigger] f.targets@[j]).improved by {}
        }
    }
}

/// A stored verdict that differs from the acceptance rule's is flagged:
/// when the stored report has no structural problem, its verdict is not
/// the sentinel and its targets agree on improvement, the first problem is
/// a verdict mismatch naming the verdict the rule gives.
pub proof fn lemma_wrong_verdict_reported(f: EfficacyReportFacts)
    requires
        structural_problems(f) == Seq::<ProblemView>::empty(),
        f.verdict != Verdict::Unverified,
        all_improved(target_flags(f.targets@)) || none_improved(target_flags(f.targets@)),
        f.verdict != expected_verdict(f),
    ensures
        efficacy_problems(f).len() > 0,
        efficacy_problems(f)[0] == plain(EfficacyProblemKind::VerdictMismatch(expected_verdict(f))),
{
    assert(verdict_problems(f)[0] == plain(EfficacyProblemKind::VerdictMismatch(expected_verdict(f))));
}

} // verus!
