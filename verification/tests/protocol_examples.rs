//! The protocol's scenarios, run through the library's rules. The scores
//! are compared here as the application compares them, with the same
//! tolerance and bands; every refusal, verdict and frontier move comes from
//! the library.

use vexometer_efficacy::error::EfficacyError;
use vexometer_efficacy::evaluation::{
    decide_evaluation, EvaluationDecision, MeasurementShape, MetricComparison,
};
use vexometer_efficacy::frontier::decide_append;
use vexometer_efficacy::metric::{metric_name, metric_weight_tenths, METRIC_COUNT};
use vexometer_efficacy::probes::ProbeMeasurement;
use vexometer_efficacy::report::{check_report, ReportMeta};
use vexometer_efficacy::report::{EFFICACY_VERSION, FRONTIER_VERSION};
use vexometer_efficacy::efficacy_validation::{
    efficacy_report_problems, CollateralFacts, EfficacyReportFacts, TargetFacts,
};
use vexometer_efficacy::frontier_validation::{
    frontier_record_problems, AttemptFacts, FrontierRecordFacts,
};
use vexometer_efficacy::verdict::Verdict;

const EPS: f64 = 1e-9;
const COLLATERAL_ACCEPT: f64 = 0.02;
const COLLATERAL_WARN: f64 = 0.05;

#[derive(Clone)]
struct Scores {
    scores: Vec<(&'static str, f64)>,
    total: u32,
    passed: u32,
    results: Option<Vec<(String, bool)>>,
}

impl Scores {
    fn get(&self, m: &str) -> f64 {
        self.scores.iter().find(|(n, _)| *n == m).map_or(0.0, |(_, s)| *s)
    }
    fn set(&mut self, m: &'static str, v: f64) {
        for e in self.scores.iter_mut() {
            if e.0 == m {
                e.1 = v;
            }
        }
    }
    fn shape(&self) -> MeasurementShape {
        let mut metrics: Vec<String> = self.scores.iter().map(|(n, _)| n.to_string()).collect();
        metrics.sort();
        MeasurementShape {
            scenario_set: Some("sha256:6b2f...".to_string()),
            metrics,
            probes: ProbeMeasurement {
                total: self.total,
                passed: self.passed,
                results: self.results.clone(),
            },
        }
    }
}

fn example_baseline() -> Scores {
    Scores {
        scores: vec![
            ("LPS", 0.41),
            ("TII", 0.33),
            ("EFR", 0.19),
            ("PQ", 0.28),
            ("TAI", 0.15),
            ("ICS", 0.22),
            ("CII", 0.31),
            ("SRS", 0.26),
            ("SFR", 0.24),
            ("RCI", 0.30),
        ],
        total: 13,
        passed: 12,
        results: None,
    }
}

fn example_after() -> Scores {
    Scores {
        scores: vec![
            ("LPS", 0.17),
            ("TII", 0.22),
            ("EFR", 0.20),
            ("PQ", 0.26),
            ("TAI", 0.15),
            ("ICS", 0.23),
            ("CII", 0.35),
            ("SRS", 0.26),
            ("SFR", 0.25),
            ("RCI", 0.30),
        ],
        total: 13,
        passed: 12,
        results: None,
    }
}

fn round2(x: f64) -> f64 {
    (x * 100.0).round() / 100.0
}

fn round3(x: f64) -> f64 {
    (x * 1000.0).round() / 1000.0
}

fn evaluate(
    baseline: &Scores,
    after: &Scores,
    targets: &[&str],
) -> Result<EvaluationDecision, EfficacyError> {
    let comparisons: Vec<MetricComparison> = (0..METRIC_COUNT)
        .map(|i| {
            let b = baseline.get(metric_name(i));
            let a = after.get(metric_name(i));
            let delta = a - b;
            MetricComparison {
                baseline_zero: b == 0.0,
                improved: a < b - EPS,
                beyond_warning: delta > COLLATERAL_WARN + EPS,
                in_warning_band: delta > COLLATERAL_ACCEPT + EPS
                    && delta <= COLLATERAL_WARN + EPS,
            }
        })
        .collect();
    let mut num = 0.0;
    let mut den = 0.0;
    for i in 0..METRIC_COUNT {
        let w = f64::from(metric_weight_tenths(i)) / 10.0;
        num += w * (after.get(metric_name(i)) - baseline.get(metric_name(i)));
        den += w;
    }
    let isa = num / den * 100.0;
    let tolerance = 1.0 / f64::from(baseline.total);
    let rate_before = f64::from(baseline.passed) / f64::from(baseline.total);
    let rate_after = f64::from(after.passed) / f64::from(after.total);
    let aggregate_ok = rate_after >= rate_before - tolerance - EPS;
    let targets: Vec<String> = targets.iter().map(|t| t.to_string()).collect();
    decide_evaluation(
        &baseline.shape(),
        &after.shape(),
        &targets,
        &comparisons,
        aggregate_ok,
        round2(isa) >= 0.0,
    )
}

fn expect_ruling(result: Result<EvaluationDecision, EfficacyError>, question: &str) {
    match result {
        Err(EfficacyError::AwaitingRuling { question: q, .. }) => assert_eq!(q, question),
        Err(other) => panic!("expected AwaitingRuling({question}), got {other:?}"),
        Ok(d) => panic!("expected AwaitingRuling({question}), got verdict {:?}", d.verdict),
    }
}

#[test]
fn evaluator_reproduces_protocol_efficacy_example() {
    let eval = evaluate(&example_baseline(), &example_after(), &["LPS", "TII"])
        .expect("the protocol example inputs must evaluate cleanly");
    assert_eq!(eval.verdict, Verdict::AcceptWithWarning);
    assert_eq!(eval.warned_metrics, vec!["CII".to_string()]);
    let collateral: Vec<&str> = eval.collateral.iter().map(|&i| metric_name(i)).collect();
    assert_eq!(
        collateral,
        vec!["CII", "EFR", "ICS", "PQ", "RCI", "SFR", "SRS", "TAI"]
    );
    assert!(eval.probes_regressed.is_none());

    let meta = ReportMeta {
        satellite: "vex-verbosity-compressor".into(),
        evaluation_date: "2026-09-01".into(),
        sample_size: 500,
        scenario_set: "sha256:6b2f...".into(),
        methodology: "A/B testing with vexometer validation".into(),
        traces_available: true,
        verdict_notes: Some(
            "CII regressed by 0.04 -- compression removes content in long-form code \
             scenarios. Must be declared in satellite README."
                .into(),
        ),
        frontier_record: Some("frontier/LPS-2026-09-01.json".into()),
    };
    let warnings = check_report(eval.verdict, &eval.warned_metrics, 2, &meta)
        .expect("report must build");
    assert!(
        warnings.iter().any(|w| w.contains("D1d")),
        "expected a D1d plurality warning, got: {warnings:?}"
    );
}

#[test]
fn zero_baseline_target_awaits_d1a() {
    let mut baseline = example_baseline();
    baseline.set("LPS", 0.0);
    expect_ruling(evaluate(&baseline, &example_after(), &["LPS"]), "D1a");
}

#[test]
fn probe_gate_disagreement_awaits_d1b() {
    let mut ids: Vec<String> = (1..=13).map(|i| format!("P{i:02}")).collect();
    ids.sort();
    let before: Vec<(String, bool)> = ids.iter().map(|id| (id.clone(), id != "P13")).collect();
    // Two baseline-passing probes regress, one baseline-failing probe now
    // passes: aggregate rate drops by exactly one probe (gate passes) while
    // the identity gate counts two regressions (gate fails).
    let after_r: Vec<(String, bool)> = before
        .iter()
        .map(|(id, was)| {
            let v = match id.as_str() {
                "P01" | "P02" => false,
                "P13" => true,
                _ => *was,
            };
            (id.clone(), v)
        })
        .collect();

    let mut baseline = example_baseline();
    baseline.results = Some(before);
    let mut after = example_after();
    after.passed = 11;
    after.results = Some(after_r);

    let result = evaluate(&baseline, &after, &["LPS", "TII"]);
    match &result {
        Err(EfficacyError::AwaitingRuling { detail, .. }) => {
            assert!(detail.contains("capability_ok=true"), "{detail}");
            assert!(detail.contains("capability_ok=false"), "{detail}");
            assert!(detail.contains("(2 baseline-passing probes regressed: P01, P02)"), "{detail}");
        }
        _ => {}
    }
    expect_ruling(result, "D1b");
}

#[test]
fn mixed_target_improvement_awaits_d1c() {
    let mut after = example_after();
    // TII regresses while LPS improves.
    after.set("TII", 0.34);
    let result = evaluate(&example_baseline(), &after, &["LPS", "TII"]);
    match &result {
        Err(EfficacyError::AwaitingRuling { detail, .. }) => assert_eq!(
            detail,
            "targets disagree on improvement (LPS: improved, TII: not improved); \
             the multi-target acceptance rule is undecided"
        ),
        _ => {}
    }
    expect_ruling(result, "D1c");
}

#[test]
fn reject_null_outranks_all_other_rejects() {
    let baseline = example_baseline();
    let mut after = example_after();
    // Target worse, capability destroyed, collateral blown, D_ISA positive.
    after.set("LPS", 0.60);
    after.set("CII", 0.90);
    after.passed = 5;
    let eval = evaluate(&baseline, &after, &["LPS"]).unwrap();
    assert_eq!(eval.verdict, Verdict::RejectNull);
}

#[test]
fn reject_capability_outranks_collateral_and_net() {
    let baseline = example_baseline();
    let mut after = example_after();
    after.set("CII", 0.90);
    after.passed = 5;
    let eval = evaluate(&baseline, &after, &["LPS", "TII"]).unwrap();
    assert_eq!(eval.verdict, Verdict::RejectCapability);
}

#[test]
fn clean_improvement_accepts() {
    let baseline = example_baseline();
    let mut after = example_after();
    // Remove the CII warning-band regression.
    after.set("CII", 0.31);
    let eval = evaluate(&baseline, &after, &["LPS", "TII"]).unwrap();
    assert_eq!(eval.verdict, Verdict::Accept);
    assert!(eval.warned_metrics.is_empty());
}

fn frontier_eval(after_lps: f64, capability_pass: u32) -> (EvaluationDecision, f64) {
    let baseline = example_baseline();
    let mut after = example_after();
    after.set("LPS", after_lps);
    // Keep CII clean so verdicts differ only via capability.
    after.set("CII", 0.31);
    after.passed = capability_pass;
    let d = evaluate(&baseline, &after, &["LPS", "TII"]).unwrap();
    (d, (0.41 - after_lps) / 0.41)
}

#[test]
fn rejected_attempt_with_higher_gap_does_not_advance_frontier() {
    let mut verdicts: Vec<Verdict> = Vec::new();
    let mut frontiers: Vec<f64> = Vec::new();
    let mut append = |d: &EvaluationDecision, gap_closed: f64| {
        let prev = frontiers.last().copied().unwrap_or(0.0);
        let gap = round3(gap_closed);
        let step = decide_append(
            "sha256:6b2f...",
            "LPS",
            "sha256:6b2f...",
            true,
            true,
            d.verdict,
            gap > prev,
            &verdicts,
        )
        .unwrap();
        verdicts.push(d.verdict);
        assert_eq!(step.index as usize, verdicts.len());
        frontiers.push(if step.advances { gap } else { prev });
        step
    };

    // Attempt 1: modest accepted improvement.
    let (a1, g1) = frontier_eval(0.34, 12);
    assert!(a1.verdict.advances_frontier());
    append(&a1, g1);

    // Attempt 2: much larger gap, but capability-rejected.
    let (a2, g2) = frontier_eval(0.05, 10);
    assert_eq!(a2.verdict, Verdict::RejectCapability);
    let s2 = append(&a2, g2);
    assert!(!s2.advances, "a rejected attempt must not advance the frontier");

    // Attempt 3: accepted and better than attempt 1.
    let (a3, g3) = frontier_eval(0.17, 12);
    assert!(a3.verdict.advances_frontier());
    let s3 = append(&a3, g3);
    assert!(s3.advances);

    assert_eq!(frontiers[1], frontiers[0]);
    assert!(frontiers[2] > frontiers[0]);
    assert_eq!(s3.methods_tried, 3);
    assert_eq!(s3.methods_rejected, 1);
}

#[test]
fn scenario_set_mismatch_is_rejected() {
    let (a1, _) = frontier_eval(0.34, 12);
    let err = decide_append(
        "sha256:aaaa",
        "LPS",
        "sha256:bbbb",
        true,
        true,
        a1.verdict,
        true,
        &Vec::new(),
    )
    .err()
    .expect("a different scenario set must be refused");
    assert!(err.message().contains("identical"));
    assert_eq!(
        err.message(),
        "invalid input: every attempt in a frontier record must run against the identical \
         scenario set (record: sha256:aaaa, attempt: sha256:bbbb)"
    );
}

#[test]
fn emitted_report_validates() {
    let baseline = example_baseline();
    let after = example_after();
    let eval = evaluate(&baseline, &after, &["LPS", "TII"]).unwrap();
    // The report stores the figures rounded; the validator compares the
    // stored figures as the application does.
    let mut targets: Vec<TargetFacts> = ["LPS", "TII"]
        .iter()
        .map(|m| {
            let (b, a) = (baseline.get(m), after.get(m));
            TargetFacts {
                metric: m.to_string(),
                baseline_zero: b == 0.0,
                gap_mismatch: false,
                reduction_mismatch: false,
                improved: a < b - EPS,
                gap_closed_text: round3((b - a) / b).to_string(),
                gap_recomputed_text: round3((b - a) / b).to_string(),
                reduction_text: round2(b - a).to_string(),
                reduction_recomputed_text: round2(b - a).to_string(),
            }
        })
        .collect();
    targets.sort_by(|x, y| x.metric.cmp(&y.metric));
    let collateral: Vec<CollateralFacts> = eval
        .collateral
        .iter()
        .map(|&i| {
            let m = metric_name(i);
            let delta = round2(after.get(m) - baseline.get(m));
            CollateralFacts {
                metric: m.to_string(),
                delta_mismatch: false,
                beyond_warning: delta > COLLATERAL_WARN + EPS,
                in_warning_band: delta > COLLATERAL_ACCEPT + EPS && delta <= COLLATERAL_WARN + EPS,
                delta_text: delta.to_string(),
                delta_recomputed_text: delta.to_string(),
            }
        })
        .collect();
    let facts = EfficacyReportFacts {
        version: EFFICACY_VERSION.to_string(),
        version_text: format!("{:?}", EFFICACY_VERSION),
        scenario_set: "sha256:6b2f...".to_string(),
        targets,
        collateral,
        isa_mismatch: false,
        isa_nonnegative: false,
        isa_text: "-2.71".to_string(),
        isa_recomputed_text: "-2.71".to_string(),
        probes_total: 13,
        capability_ok: true,
        capability_consistent: true,
        pass_rate_before_text: "0.923".to_string(),
        pass_rate_after_text: "0.923".to_string(),
        verdict: eval.verdict,
        verdict_notes: Some("CII regressed by 0.04".to_string()),
    };
    let problems = efficacy_report_problems(&facts);
    let messages: Vec<&str> = problems.iter().map(|p| p.message.as_str()).collect();
    assert!(problems.is_empty(), "emitted report invalid: {messages:?}");
}

#[test]
fn written_record_validates() {
    let attempts_in = [(0.34, 12), (0.05, 10), (0.17, 12)];
    let mut verdicts: Vec<Verdict> = Vec::new();
    let mut facts: Vec<AttemptFacts> = Vec::new();
    let mut prev = 0.0;
    let mut rejected = 0;
    for (after_lps, pass) in attempts_in {
        let (d, gap_closed) = frontier_eval(after_lps, pass);
        let gap = round3(gap_closed);
        let step = decide_append(
            "sha256:6b2f...",
            "LPS",
            "sha256:6b2f...",
            true,
            true,
            d.verdict,
            gap > prev,
            &verdicts,
        )
        .unwrap();
        verdicts.push(d.verdict);
        let frontier = if step.advances { gap } else { prev };
        facts.push(AttemptFacts {
            index: step.index,
            verdict: d.verdict,
            gap_out_of_range: !(0.0..=1.0).contains(&gap),
            gap_exceeds_frontier: gap > prev + EPS,
            frontier_off_gap: (frontier - gap).abs() > EPS,
            frontier_off_previous: (frontier - prev).abs() > EPS,
            frontier_decreased: frontier < prev - EPS,
            gap_text: gap.to_string(),
            frontier_text: frontier.to_string(),
            previous_text: prev.to_string(),
        });
        prev = frontier;
        rejected = step.methods_rejected;
    }
    let record = FrontierRecordFacts {
        version: FRONTIER_VERSION.to_string(),
        version_text: format!("{:?}", FRONTIER_VERSION),
        metric: "LPS".to_string(),
        scenario_set: "sha256:6b2f...".to_string(),
        baseline_keys: vec!["LPS".into(), "isa_score".into(), "probe_pass_rate".into()],
        attempts: facts,
        final_mismatch: false,
        final_text: prev.to_string(),
        last_frontier_text: prev.to_string(),
        methods_tried: 3,
        methods_rejected: rejected,
    };
    assert_eq!(rejected, 1);
    let problems = frontier_record_problems(&record);
    let messages: Vec<&str> = problems.iter().map(|p| p.message.as_str()).collect();
    assert!(problems.is_empty(), "written record invalid: {messages:?}");
}
