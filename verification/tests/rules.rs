//! Concrete cases of the library's rules: the metric catalogue, verdicts,
//! probe checks, refusals, report checks, the frontier writer and both
//! validators.

use vexometer_efficacy::error::{EfficacyError, ISSUE_D1};
use vexometer_efficacy::evaluation::{
    check_inputs, decide_evaluation, last_max_position, MeasurementShape, MetricComparison,
};
use vexometer_efficacy::frontier::{count_rejects, decide_append, FrontierLedger};
use vexometer_efficacy::metric::{
    known_metric, metric_index, metric_name, metric_weight_tenths, name_order, METRIC_COUNT,
};
use vexometer_efficacy::probes::{capability_cross_check, regressed_probes, ProbeMeasurement};
use vexometer_efficacy::report::{check_report, ReportMeta, EFFICACY_VERSION, FRONTIER_VERSION};
use vexometer_efficacy::text::{is_blank, join_text};
use vexometer_efficacy::efficacy_validation::{
    efficacy_report_problems, CollateralFacts, EfficacyProblemKind, EfficacyReportFacts,
    TargetFacts,
};
use vexometer_efficacy::frontier_validation::{
    frontier_record_problems, AttemptFacts, FrontierProblemKind, FrontierRecordFacts,
};
use vexometer_efficacy::verdict::{acceptance_verdict, Verdict};

const ALL: [&str; 10] = ["TII", "LPS", "EFR", "PQ", "TAI", "ICS", "CII", "SRS", "SFR", "RCI"];

fn data_message(r: Result<(), EfficacyError>) -> String {
    match r {
        Err(EfficacyError::Data(m)) => m,
        other => panic!("expected a data error, got {other:?}"),
    }
}

fn probes(total: u32, passed: u32) -> ProbeMeasurement {
    ProbeMeasurement { total, passed, results: None }
}

fn full_shape() -> MeasurementShape {
    let mut metrics: Vec<String> = ALL.iter().map(|m| m.to_string()).collect();
    metrics.sort();
    MeasurementShape {
        scenario_set: Some("sha256:x".into()),
        metrics,
        probes: probes(13, 12),
    }
}

fn neutral() -> MetricComparison {
    MetricComparison {
        baseline_zero: false,
        improved: false,
        beyond_warning: false,
        in_warning_band: false,
    }
}

fn improved() -> MetricComparison {
    MetricComparison { improved: true, ..neutral() }
}

fn strings(v: &[&str]) -> Vec<String> {
    v.iter().map(|s| s.to_string()).collect()
}

// ---------------------------------------------------------------------------
// Metric catalogue
// ---------------------------------------------------------------------------

#[test]
fn catalogue_names_weights_and_order() {
    for (i, name) in ALL.iter().enumerate() {
        assert_eq!(metric_name(i), *name);
        assert_eq!(metric_index(name), Some(i));
        assert!(known_metric(name));
    }
    let weights: Vec<u32> = (0..METRIC_COUNT).map(metric_weight_tenths).collect();
    assert_eq!(weights, vec![10, 12, 15, 11, 8, 13, 14, 12, 13, 11]);
    assert_eq!(weights.iter().sum::<u32>(), 119);
    let ordered: Vec<&str> = (0..METRIC_COUNT).map(|k| metric_name(name_order(k))).collect();
    let mut sorted = ALL.to_vec();
    sorted.sort();
    assert_eq!(ordered, sorted);
    assert!(!known_metric("XYZ"));
    assert!(!known_metric("lps"));
    assert!(!known_metric(""));
    assert_eq!(metric_index("isa_score"), None);
}

// ---------------------------------------------------------------------------
// Verdicts
// ---------------------------------------------------------------------------

#[test]
fn verdict_classes_and_names() {
    let all = [
        (Verdict::Accept, "accept", false, true),
        (Verdict::AcceptWithWarning, "accept_with_warning", false, true),
        (Verdict::RejectCollateral, "reject_collateral", true, false),
        (Verdict::RejectCapability, "reject_capability", true, false),
        (Verdict::RejectNet, "reject_net", true, false),
        (Verdict::RejectNull, "reject_null", true, false),
        (Verdict::Unverified, "unverified", false, false),
    ];
    for (v, name, rejects, advances) in all {
        assert_eq!(v.as_str(), name);
        assert_eq!(v.is_reject(), rejects);
        assert_eq!(v.advances_frontier(), advances);
    }
}

#[test]
fn acceptance_rule_precedence() {
    assert_eq!(acceptance_verdict(true, false, true, true, true), Verdict::RejectNull);
    assert_eq!(acceptance_verdict(false, false, true, true, true), Verdict::RejectCapability);
    assert_eq!(acceptance_verdict(false, true, true, true, true), Verdict::RejectCollateral);
    assert_eq!(acceptance_verdict(false, true, false, true, true), Verdict::RejectNet);
    assert_eq!(acceptance_verdict(false, true, false, false, true), Verdict::AcceptWithWarning);
    assert_eq!(acceptance_verdict(false, true, false, false, false), Verdict::Accept);
}

// ---------------------------------------------------------------------------
// Probes
// ---------------------------------------------------------------------------

#[test]
fn probe_check_refusals() {
    assert_eq!(data_message(probes(0, 0).check()), "probes.total must be > 0");
    assert_eq!(data_message(probes(3, 4).check()), "probes.passed exceeds probes.total");
    assert!(probes(3, 3).check().is_ok());
    let with = |results: Vec<(&str, bool)>, total, passed| ProbeMeasurement {
        total,
        passed,
        results: Some(results.into_iter().map(|(id, ok)| (id.to_string(), ok)).collect()),
    };
    assert!(with(vec![("a", true), ("b", false)], 2, 1).check().is_ok());
    assert_eq!(
        data_message(with(vec![("a", true), ("b", true)], 2, 1).check()),
        "probes.results (2/2) disagrees with probes.passed/total (1/2)"
    );
    assert_eq!(
        data_message(with(vec![("a", true)], 12, 1).check()),
        "probes.results (1/1) disagrees with probes.passed/total (1/12)"
    );
}

#[test]
fn regressed_probes_and_cross_check() {
    let before: Vec<(String, bool)> =
        vec![("a".into(), true), ("b".into(), true), ("c".into(), false)];
    let after: Vec<(String, bool)> =
        vec![("a".into(), false), ("b".into(), true), ("c".into(), true)];
    assert_eq!(regressed_probes(&before, &after).unwrap(), vec!["a".to_string()]);
    let other: Vec<(String, bool)> =
        vec![("a".into(), false), ("b".into(), true), ("d".into(), true)];
    match regressed_probes(&before, &other) {
        Err(EfficacyError::Data(m)) => {
            assert_eq!(m, "probe ids differ between baseline and after measurements")
        }
        r => panic!("unexpected {r:?}"),
    }
    assert!(regressed_probes(&before, &after[..2].to_vec()).is_err());
    // One regression: the identity gate passes, as does the aggregate gate.
    assert_eq!(
        capability_cross_check(true, &Some(before.clone()), &Some(after.clone())).unwrap(),
        Some(vec!["a".to_string()])
    );
    // The gates disagree.
    match capability_cross_check(false, &Some(before.clone()), &Some(after.clone())) {
        Err(EfficacyError::AwaitingRuling { question, detail }) => {
            assert_eq!(question, "D1b");
            assert_eq!(
                detail,
                "aggregate pass-rate gate says capability_ok=false but per-probe identity \
                 gate says capability_ok=true (1 baseline-passing probes regressed: a)"
            );
        }
        r => panic!("unexpected {r:?}"),
    }
    assert_eq!(capability_cross_check(false, &Some(before), &None).unwrap(), None);
}

// ---------------------------------------------------------------------------
// Evaluation refusals and decisions
// ---------------------------------------------------------------------------

#[test]
fn input_refusals_in_order() {
    let b = full_shape();
    let a = full_shape();
    assert_eq!(
        data_message(check_inputs(&b, &a, &[])),
        "at least one target metric required"
    );
    let targets = strings(&["LPS"]);
    assert!(check_inputs(&b, &a, &targets).is_ok());

    let mut bad = full_shape();
    bad.probes = probes(0, 0);
    assert_eq!(data_message(check_inputs(&bad, &a, &targets)), "probes.total must be > 0");

    let mut other = full_shape();
    other.probes = probes(14, 12);
    assert_eq!(
        data_message(check_inputs(&b, &other, &targets)),
        "probe suite size changed between measurements (13 vs 14)"
    );

    let mut elsewhere = full_shape();
    elsewhere.scenario_set = Some("sha256:y".into());
    assert_eq!(
        data_message(check_inputs(&b, &elsewhere, &targets)),
        "scenario_set mismatch: baseline sha256:x vs after sha256:y"
    );
    let mut unnamed = full_shape();
    unnamed.scenario_set = None;
    assert!(check_inputs(&b, &unnamed, &targets).is_ok());

    let mut short = full_shape();
    short.metrics.retain(|m| m != "EFR" && m != "RCI");
    assert_eq!(
        data_message(check_inputs(&b, &short, &targets)),
        "after is missing metric EFR; all ten ISA metrics are required"
    );
    assert_eq!(
        data_message(check_inputs(&short, &short, &targets)),
        "baseline is missing metric EFR; all ten ISA metrics are required"
    );

    assert_eq!(
        data_message(check_inputs(&b, &a, &strings(&["LPS", "XYZ"]))),
        "unknown target metric XYZ"
    );
}

#[test]
fn decision_collateral_warnings_and_verdict() {
    let b = full_shape();
    let a = full_shape();
    let mut cmp = vec![neutral(); METRIC_COUNT];
    cmp[1] = improved(); // LPS
    cmp[6].in_warning_band = true; // CII
    cmp[9].in_warning_band = true; // RCI
    let d = decide_evaluation(&b, &a, &strings(&["LPS"]), &cmp, true, false).unwrap();
    assert_eq!(d.verdict, Verdict::AcceptWithWarning);
    assert_eq!(d.warned_metrics, strings(&["CII", "RCI"]));
    let names: Vec<&str> = d.collateral.iter().map(|&i| metric_name(i)).collect();
    assert_eq!(names, vec!["CII", "EFR", "ICS", "PQ", "RCI", "SFR", "SRS", "TAI", "TII"]);

    // A warning band on the target itself is not collateral.
    let mut cmp2 = cmp.clone();
    cmp2[6].in_warning_band = false;
    cmp2[9].in_warning_band = false;
    cmp2[1].in_warning_band = true;
    let d = decide_evaluation(&b, &a, &strings(&["LPS"]), &cmp2, true, false).unwrap();
    assert_eq!(d.verdict, Verdict::Accept);

    // Collateral beyond the band, and a non-negative D_ISA.
    let mut cmp3 = cmp.clone();
    cmp3[2].beyond_warning = true;
    let d = decide_evaluation(&b, &a, &strings(&["LPS"]), &cmp3, true, false).unwrap();
    assert_eq!(d.verdict, Verdict::RejectCollateral);
    let d = decide_evaluation(&b, &a, &strings(&["LPS"]), &cmp, true, true).unwrap();
    assert_eq!(d.verdict, Verdict::RejectNet);

    // Every metric a target: no collateral.
    let mut all_improved = vec![improved(); METRIC_COUNT];
    all_improved[0].beyond_warning = true;
    let d = decide_evaluation(&b, &a, &strings(&ALL), &all_improved, true, false).unwrap();
    assert!(d.collateral.is_empty());
    assert_eq!(d.verdict, Verdict::Accept);
}

#[test]
fn zero_baseline_refusal_names_first_target() {
    let b = full_shape();
    let mut cmp = vec![improved(); METRIC_COUNT];
    cmp[0].baseline_zero = true; // TII
    cmp[1].baseline_zero = true; // LPS
    match decide_evaluation(&b, &b, &strings(&["PQ", "LPS", "TII"]), &cmp, true, false) {
        Err(e @ EfficacyError::AwaitingRuling { .. }) => assert_eq!(
            e.message(),
            format!(
                "awaiting ruling D1a (see {ISSUE_D1}): target metric LPS has baseline 0; \
                 G_m = (B_m - A_m) / B_m is undefined"
            )
        ),
        r => panic!("unexpected {:?}", r.map(|d| d.verdict)),
    }
}

#[test]
fn last_max_takes_the_last_of_equal_maxima() {
    assert_eq!(last_max_position(&vec![]), None);
    assert_eq!(last_max_position(&vec![3, 7, 1, 7, 2]), Some(3));
    assert_eq!(last_max_position(&vec![-5]), Some(0));
    assert_eq!(last_max_position(&vec![9, 1, 2]), Some(0));
}

// ---------------------------------------------------------------------------
// Report checks
// ---------------------------------------------------------------------------

fn meta(notes: Option<&str>, frontier: Option<&str>) -> ReportMeta {
    ReportMeta {
        satellite: "sat".into(),
        evaluation_date: "2026-09-01".into(),
        sample_size: 1,
        scenario_set: "sha256:x".into(),
        methodology: "m".into(),
        traces_available: false,
        verdict_notes: notes.map(|s| s.to_string()),
        frontier_record: frontier.map(|s| s.to_string()),
    }
}

#[test]
fn report_notes_must_name_warned_metrics() {
    let warned = strings(&["CII", "RCI"]);
    let blank = check_report(Verdict::AcceptWithWarning, &warned, 1, &meta(Some(" \t\n"), None));
    match blank {
        Err(EfficacyError::Data(m)) => assert_eq!(
            m,
            "verdict is accept_with_warning: the regressed metric(s) (CII, RCI) must be named \
             in verdict_notes (pass --notes)"
        ),
        r => panic!("unexpected {r:?}"),
    }
    assert!(check_report(Verdict::AcceptWithWarning, &warned, 1, &meta(None, None)).is_err());
    match check_report(Verdict::AcceptWithWarning, &warned, 1, &meta(Some("CII regressed"), None)) {
        Err(EfficacyError::Data(m)) => {
            assert_eq!(m, "verdict_notes must name regressed metric RCI")
        }
        r => panic!("unexpected {r:?}"),
    }
    let ok = check_report(
        Verdict::AcceptWithWarning,
        &warned,
        1,
        &meta(Some("CII and RCI regressed"), Some("f.json")),
    );
    assert_eq!(ok.unwrap(), Vec::<String>::new());
    // A prefix of a name does not name it.
    match check_report(Verdict::AcceptWithWarning, &strings(&["CII"]), 1, &meta(Some("CI"), None)) {
        Err(EfficacyError::Data(m)) => {
            assert_eq!(m, "verdict_notes must name regressed metric CII")
        }
        r => panic!("unexpected {r:?}"),
    }
    // Other verdicts need no notes.
    assert!(check_report(Verdict::Accept, &warned, 1, &meta(None, None)).is_ok());
}

#[test]
fn report_plurality_warning() {
    let w = check_report(Verdict::Accept, &vec![], 3, &meta(None, Some("f.json"))).unwrap();
    assert_eq!(
        w,
        vec![format!(
            "frontier_record is a single reference but the report has 3 targets; plurality \
             is undecided -- awaiting ruling D1d (see {ISSUE_D1})"
        )]
    );
    assert!(check_report(Verdict::Accept, &vec![], 3, &meta(None, None)).unwrap().is_empty());
    assert!(check_report(Verdict::Accept, &vec![], 1, &meta(None, Some("f"))).unwrap().is_empty());
}

// ---------------------------------------------------------------------------
// Frontier writer
// ---------------------------------------------------------------------------

#[test]
fn append_refusals_and_counts() {
    let none: Vec<Verdict> = Vec::new();
    let err = |r: Result<_, EfficacyError>| match r {
        Err(EfficacyError::Data(m)) => m,
        Ok(_) => panic!("expected a refusal"),
        Err(e) => panic!("unexpected {e:?}"),
    };
    assert_eq!(
        err(decide_append("s", "LPS", "s", false, true, Verdict::Accept, true, &none)),
        "evaluation has no target outcome for this record's metric LPS"
    );
    assert_eq!(
        err(decide_append("s", "LPS", "s", true, false, Verdict::Accept, true, &none)),
        "evaluation has no collateral metrics"
    );
    let prior = vec![Verdict::Accept, Verdict::RejectNet, Verdict::Unverified];
    let d = decide_append("s", "LPS", "s", true, true, Verdict::RejectNull, true, &prior).unwrap();
    assert_eq!(d.index, 4);
    assert_eq!(d.methods_tried, 4);
    assert_eq!(d.methods_rejected, 2);
    assert!(!d.advances);
    let d = decide_append("s", "LPS", "s", true, true, Verdict::AcceptWithWarning, true, &prior)
        .unwrap();
    assert!(d.advances);
    assert_eq!(d.methods_rejected, 1);
    let d = decide_append("s", "LPS", "s", true, true, Verdict::Accept, false, &prior).unwrap();
    assert!(!d.advances);
    assert_eq!(count_rejects(&prior), 1);
}

#[test]
fn ledger_keeps_the_record_invariant() {
    let mut l = FrontierLedger::new("LPS", "sha256:s");
    assert_eq!(l.current_frontier(), 0);
    // A rejection with a large gap does not move the frontier.
    let d = l.append("sha256:s", true, true, Verdict::RejectCollateral, 900).unwrap();
    assert_eq!((d.index, d.advances, d.methods_rejected), (1, false, 1));
    assert_eq!(l.attempts[0].frontier, 0);
    // An accepted attempt above the frontier moves it.
    l.append("sha256:s", true, true, Verdict::Accept, 420).unwrap();
    assert_eq!(l.frontier_final, 420);
    // A lower accepted gap keeps it.
    l.append("sha256:s", true, true, Verdict::AcceptWithWarning, 300).unwrap();
    assert_eq!(l.attempts[2].frontier, 420);
    assert_eq!(l.frontier_final, 420);
    assert_eq!(l.current_frontier(), 420);
    // A refused append leaves the ledger unchanged.
    match l.append("sha256:other", true, true, Verdict::Accept, 999) {
        Err(EfficacyError::Data(m)) => assert_eq!(
            m,
            "every attempt in a frontier record must run against the identical scenario set \
             (record: sha256:s, attempt: sha256:other)"
        ),
        Ok(_) => panic!("expected a refusal"),
        Err(e) => panic!("unexpected {e:?}"),
    }
    assert_eq!(l.attempts.len(), 3);
    assert_eq!(l.frontier_final, 420);
    let indices: Vec<u64> = l.attempts.iter().map(|a| a.index).collect();
    assert_eq!(indices, vec![1, 2, 3]);
    assert_eq!((l.methods_tried, l.methods_rejected), (3, 1));
}

// ---------------------------------------------------------------------------
// Efficacy validator
// ---------------------------------------------------------------------------

fn target(m: &str, improved: bool) -> TargetFacts {
    TargetFacts {
        metric: m.into(),
        baseline_zero: false,
        gap_mismatch: false,
        reduction_mismatch: false,
        improved,
        gap_closed_text: "0.585".into(),
        gap_recomputed_text: "0.585".into(),
        reduction_text: "0.24".into(),
        reduction_recomputed_text: "0.24".into(),
    }
}

fn collateral(m: &str) -> CollateralFacts {
    CollateralFacts {
        metric: m.into(),
        delta_mismatch: false,
        beyond_warning: false,
        in_warning_band: false,
        delta_text: "0.01".into(),
        delta_recomputed_text: "0.01".into(),
    }
}

/// The protocol example's report: targets LPS and TII, CII in the warning
/// band, verdict accept_with_warning.
fn example_report() -> EfficacyReportFacts {
    let mut cs: Vec<CollateralFacts> =
        ["CII", "EFR", "ICS", "PQ", "RCI", "SFR", "SRS", "TAI"].iter().map(|m| collateral(m)).collect();
    cs[0].in_warning_band = true;
    EfficacyReportFacts {
        version: EFFICACY_VERSION.into(),
        version_text: format!("{:?}", EFFICACY_VERSION),
        scenario_set: "sha256:6b2f...".into(),
        targets: vec![target("LPS", true), target("TII", true)],
        collateral: cs,
        isa_mismatch: false,
        isa_nonnegative: false,
        isa_text: "-2.71".into(),
        isa_recomputed_text: "-2.71".into(),
        probes_total: 13,
        capability_ok: true,
        capability_consistent: true,
        pass_rate_before_text: "0.923".into(),
        pass_rate_after_text: "0.923".into(),
        verdict: Verdict::AcceptWithWarning,
        verdict_notes: Some("CII regressed by 0.04".into()),
    }
}

fn kinds(f: &EfficacyReportFacts) -> Vec<(EfficacyProblemKind, String)> {
    efficacy_report_problems(f).into_iter().map(|p| (p.kind, p.metric)).collect()
}

fn messages(f: &EfficacyReportFacts) -> Vec<String> {
    efficacy_report_problems(f).into_iter().map(|p| p.message).collect()
}

#[test]
fn example_report_has_no_problems() {
    assert!(kinds(&example_report()).is_empty());
}

#[test]
fn validator_catches_wrong_verdict() {
    let mut f = example_report();
    f.verdict = Verdict::Accept;
    assert_eq!(
        kinds(&f),
        vec![(EfficacyProblemKind::VerdictMismatch(Verdict::AcceptWithWarning), String::new())]
    );
    assert_eq!(
        messages(&f),
        vec!["verdict is accept but the acceptance rule implies accept_with_warning".to_string()]
    );
}

#[test]
fn validator_catches_bad_gap_arithmetic() {
    let mut f = example_report();
    f.targets[0].gap_mismatch = true;
    f.targets[0].gap_closed_text = "0.9".into();
    assert_eq!(kinds(&f), vec![(EfficacyProblemKind::GapClosedMismatch, "LPS".to_string())]);
    assert_eq!(
        messages(&f),
        vec!["target LPS: gap_closed 0.9 does not match (baseline - after) / baseline = 0.585"
            .to_string()]
    );
}

#[test]
fn validator_catches_missing_collateral_coverage() {
    let mut f = example_report();
    f.collateral.retain(|c| c.metric != "RCI");
    f.isa_mismatch = true; // not consulted: the report is incomplete
    assert_eq!(kinds(&f), vec![(EfficacyProblemKind::Uncovered, "RCI".to_string())]);
    assert_eq!(
        messages(&f),
        vec!["metric RCI is in neither target_metrics nor collateral_metrics; collateral must \
              cover every non-target metric"
            .to_string()]
    );
}

#[test]
fn validator_structural_problems_in_order() {
    let mut f = example_report();
    f.version = "vexometer-efficacy-v1".into();
    f.version_text = format!("{:?}", f.version);
    f.scenario_set = "md5:abc".into();
    f.targets.push(target("XYZ", true));
    f.collateral.insert(2, collateral("FOO"));
    f.collateral.insert(4, collateral("LPS"));
    f.targets[1].baseline_zero = true;
    f.targets[1].gap_mismatch = true;
    f.targets[0].reduction_mismatch = true;
    f.collateral[3].delta_mismatch = true;
    f.isa_mismatch = true;
    f.capability_consistent = false;
    type K = EfficacyProblemKind;
    assert_eq!(
        kinds(&f),
        vec![
            (K::VersionMismatch, String::new()),
            (K::ScenarioNotContentAddressed, String::new()),
            (K::InBothSets, "LPS".to_string()),
            (K::UnknownTarget, "XYZ".to_string()),
            (K::UnknownCollateral, "FOO".to_string()),
            (K::MeanReductionMismatch, "LPS".to_string()),
            (K::ZeroBaselineTarget, "TII".to_string()),
            (K::DeltaMismatch, "ICS".to_string()),
            (K::IsaDeltaMismatch, String::new()),
            (K::CapabilityMismatch, String::new()),
        ]
    );
    assert_eq!(
        messages(&f),
        vec![
            "version is \"vexometer-efficacy-v1\", expected \"vexometer-efficacy-v2\"".to_string(),
            "scenario_set is not content-addressed (sha256:...)".to_string(),
            "LPS appears in both target and collateral sets".to_string(),
            "unknown target metric XYZ".to_string(),
            "unknown collateral metric FOO".to_string(),
            "target LPS: mean_reduction 0.24 does not match baseline - after = 0.24".to_string(),
            format!("target TII has baseline 0: gap_closed is undefined (awaiting ruling D1a, {ISSUE_D1})"),
            "collateral ICS: delta 0.01 does not match after - baseline = 0.01".to_string(),
            "isa_delta -2.71 does not match weighted recomputation -2.71".to_string(),
            "capability_ok is true but pass rates 0.923 -> 0.923 with tolerance 1/13 imply false"
                .to_string(),
        ]
    );
}

#[test]
fn validator_empty_targets_and_probes() {
    let mut f = example_report();
    f.targets.clear();
    f.probes_total = 0;
    type K = EfficacyProblemKind;
    assert_eq!(
        kinds(&f),
        vec![
            (K::NoTargets, String::new()),
            (K::Uncovered, "TII".to_string()),
            (K::Uncovered, "LPS".to_string()),
            (K::NoProbes, String::new()),
        ]
    );
}

#[test]
fn validator_verdict_recomputation() {
    type K = EfficacyProblemKind;
    let mut f = example_report();
    f.targets[1].improved = false;
    assert_eq!(kinds(&f), vec![(K::TargetsDisagree, String::new())]);

    let mut f = example_report();
    f.verdict_notes = None;
    assert_eq!(kinds(&f), vec![(K::NotesMissing, String::new())]);

    let mut f = example_report();
    f.verdict_notes = Some("nothing named".into());
    assert_eq!(kinds(&f), vec![(K::NotesOmitMetric, "CII".to_string())]);

    let mut f = example_report();
    f.collateral[1].beyond_warning = true;
    f.verdict = Verdict::RejectCollateral;
    assert!(kinds(&f).is_empty());

    // The sentinel is not recomputed.
    let mut f = example_report();
    f.verdict = Verdict::Unverified;
    assert!(kinds(&f).is_empty());
}

// ---------------------------------------------------------------------------
// Frontier validator
// ---------------------------------------------------------------------------

fn attempt(index: u64, verdict: Verdict, exceeds: bool, moved: bool) -> AttemptFacts {
    AttemptFacts {
        index,
        verdict,
        gap_out_of_range: false,
        gap_exceeds_frontier: exceeds,
        frontier_off_gap: !moved,
        frontier_off_previous: moved,
        frontier_decreased: false,
        gap_text: "0.5".into(),
        frontier_text: "0.5".into(),
        previous_text: "0.3".into(),
    }
}

/// The protocol example's record: an accepted attempt, a capability
/// rejection with a larger gap that leaves the frontier, and an accepted
/// attempt that moves it.
fn example_record() -> FrontierRecordFacts {
    FrontierRecordFacts {
        version: FRONTIER_VERSION.into(),
        version_text: format!("{:?}", FRONTIER_VERSION),
        metric: "LPS".into(),
        scenario_set: "sha256:6b2f...".into(),
        baseline_keys: strings(&["LPS", "isa_score", "probe_pass_rate"]),
        attempts: vec![
            attempt(1, Verdict::Accept, true, true),
            attempt(2, Verdict::RejectCapability, true, false),
            attempt(3, Verdict::AcceptWithWarning, true, true),
        ],
        final_mismatch: false,
        final_text: "0.585".into(),
        last_frontier_text: "0.585".into(),
        methods_tried: 3,
        methods_rejected: 1,
    }
}

fn frontier_kinds(f: &FrontierRecordFacts) -> Vec<(FrontierProblemKind, usize, String)> {
    frontier_record_problems(f).into_iter().map(|p| (p.kind, p.attempt, p.key)).collect()
}

fn frontier_messages(f: &FrontierRecordFacts) -> Vec<String> {
    frontier_record_problems(f).into_iter().map(|p| p.message).collect()
}

#[test]
fn example_record_has_no_problems() {
    assert!(frontier_kinds(&example_record()).is_empty());
}

/// What the validator reads of a ledger, each figure compared exactly.
fn ledger_facts(l: &FrontierLedger) -> FrontierRecordFacts {
    let mut prev = 0;
    let mut attempts = Vec::new();
    for a in &l.attempts {
        attempts.push(AttemptFacts {
            index: a.index,
            verdict: a.verdict,
            gap_out_of_range: !(0..=1000).contains(&a.gap),
            gap_exceeds_frontier: a.gap > prev,
            frontier_off_gap: a.frontier != a.gap,
            frontier_off_previous: a.frontier != prev,
            frontier_decreased: a.frontier < prev,
            gap_text: a.gap.to_string(),
            frontier_text: a.frontier.to_string(),
            previous_text: prev.to_string(),
        });
        prev = a.frontier;
    }
    FrontierRecordFacts {
        version: FRONTIER_VERSION.into(),
        version_text: format!("{:?}", FRONTIER_VERSION),
        metric: l.metric.clone(),
        scenario_set: l.scenario_set.clone(),
        baseline_keys: strings(&[l.metric.as_str(), "isa_score", "probe_pass_rate"]),
        attempts,
        final_mismatch: l.frontier_final != prev,
        final_text: l.frontier_final.to_string(),
        last_frontier_text: prev.to_string(),
        methods_tried: l.methods_tried,
        methods_rejected: l.methods_rejected,
    }
}

#[test]
fn written_ledger_validates() {
    let mut l = FrontierLedger::new("LPS", "sha256:6b2f...");
    let steps = [
        (Verdict::Accept, 510),
        (Verdict::RejectCapability, 780),
        (Verdict::RejectNull, 0),
        (Verdict::AcceptWithWarning, 585),
        (Verdict::Accept, 400),
    ];
    for (v, gap) in steps {
        l.append("sha256:6b2f...", true, true, v, gap).unwrap();
    }
    assert!(l.append("sha256:other", true, true, Verdict::Accept, 900).is_err());
    assert_eq!(l.frontier_final, 585);
    assert!(frontier_kinds(&ledger_facts(&l)).is_empty());
    // A worsened target stores a negative gap, which the validator flags.
    l.append("sha256:6b2f...", true, true, Verdict::RejectNull, -20).unwrap();
    assert_eq!(
        frontier_kinds(&ledger_facts(&l)),
        vec![(FrontierProblemKind::GapOutOfRange, 5, String::new())]
    );
}

#[test]
fn validator_catches_frontier_advanced_by_reject() {
    let mut f = example_record();
    // The capability rejection's stored frontier moved to its gap.
    f.attempts[1].frontier_off_gap = false;
    f.attempts[1].frontier_off_previous = true;
    f.attempts[1].frontier_text = "0.78".into();
    assert_eq!(
        frontier_kinds(&f),
        vec![(FrontierProblemKind::FrontierInvariant(false), 1, String::new())]
    );
    assert_eq!(
        frontier_messages(&f),
        vec!["attempt 2: frontier 0.78 violates the invariant (expected 0.3; the frontier \
              advances only on accept/accept_with_warning exceeding the current frontier)"
            .to_string()]
    );
}

#[test]
fn validator_frontier_problems_in_order() {
    type K = FrontierProblemKind;
    let mut f = example_record();
    f.version = "x".into();
    f.version_text = format!("{:?}", f.version);
    f.metric = "ABC".into();
    f.scenario_set = "nope".into();
    f.baseline_keys = strings(&["probe_pass_rate"]);
    f.attempts[0].index = 7;
    f.attempts[0].gap_out_of_range = true;
    f.attempts[2].verdict = Verdict::Unverified;
    f.attempts[2].frontier_decreased = true;
    f.final_mismatch = true;
    f.methods_tried = 2;
    f.methods_rejected = 0;
    assert_eq!(
        frontier_kinds(&f),
        vec![
            (K::VersionMismatch, 0, String::new()),
            (K::UnknownMetric, 0, String::new()),
            (K::ScenarioNotContentAddressed, 0, String::new()),
            (K::BaselineMissing, 0, "ABC".to_string()),
            (K::BaselineMissing, 0, "isa_score".to_string()),
            (K::IndexMismatch, 0, String::new()),
            (K::GapOutOfRange, 0, String::new()),
            (K::UnverifiedAttempt, 2, String::new()),
            (K::FrontierInvariant(false), 2, String::new()),
            (K::FrontierDecreased, 2, String::new()),
            (K::FinalMismatch, 0, String::new()),
            (K::TriedMismatch, 0, String::new()),
            (K::RejectedMismatch, 0, String::new()),
        ]
    );
    let m = frontier_messages(&f);
    assert_eq!(m[0], "version is \"x\", expected \"vexometer-frontier-v1\"");
    assert_eq!(m[1], "unknown metric ABC");
    assert_eq!(m[3], "baseline block is missing ABC");
    assert_eq!(m[5], "attempt 1 has index 7, expected 1");
    assert_eq!(m[6], "attempt 7: gap_closed 0.5 outside [0, 1]");
    assert_eq!(
        m[7],
        "attempt 3: unverified is a verification-status sentinel, not a frontier verdict"
    );
    assert_eq!(m[9], "attempt 3: frontier decreased (0.3 -> 0.5)");
    assert_eq!(m[10], "frontier_final 0.585 does not match last attempt frontier 0.585");
    assert_eq!(m[11], "methods_tried 2 does not match attempt count 3");
    assert_eq!(m[12], "methods_rejected 0 does not match reject verdict count 1");
}

// ---------------------------------------------------------------------------
// Text
// ---------------------------------------------------------------------------

#[test]
fn text_helpers() {
    assert!(is_blank(""));
    assert!(is_blank(" \t\r\n\u{a0}\u{3000}"));
    assert!(!is_blank("  x "));
    assert!(is_blank("\u{85}\u{1680}\u{2000}\u{200a}\u{2028}\u{2029}\u{202f}\u{205f}\u{b}\u{c}"));
    // Zero-width space and the byte-order mark are not white space.
    assert!(!is_blank("\u{200b}"));
    assert!(!is_blank("\u{feff}"));
    assert!(!is_blank("\u{1f}"));
    assert_eq!(join_text(&strings(&["a", "b", "c"]), ", "), "a, b, c");
    assert_eq!(join_text(&vec![], ", "), "");
}

#[test]
fn error_messages() {
    assert_eq!(EfficacyError::Data("x".into()).message(), "invalid input: x");
    assert_eq!(
        EfficacyError::AwaitingRuling { question: "D1c", detail: "d".into() }.message(),
        format!("awaiting ruling D1c (see {ISSUE_D1}): d")
    );
}
