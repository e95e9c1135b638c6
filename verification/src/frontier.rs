//! The rules of the `vexometer-frontier-v1` record writer: which attempts
//! it refuses, when the frontier moves, and how attempts are counted.
use vstd::prelude::*;

use crate::error::{EfficacyError, ErrorView};
use crate::text::same_text;
use crate::verdict::Verdict;

verus! {

/// How many of `verdicts` are rejections.
pub open spec fn reject_count(verdicts: Seq<Verdict>) -> nat
    decreases verdicts.len(),
{
    if verdicts.len() == 0 {
        0
    } else {
        reject_count(verdicts.drop_last()) + if verdicts.last().is_reject() {
            1nat
        } else {
            0nat
        }
    }
}

/// Whether an attempt moves the frontier to its own `gap_closed`: only an
/// `accept` or `accept_with_warning` whose gap exceeds the current
/// frontier does.
pub open spec fn frontier_moves(verdict: Verdict, gap_exceeds_frontier: bool) -> bool {
    verdict.advances_frontier() && gap_exceeds_frontier
}

/// Why an attempt may not be appended to a record, if it may not: it ran
/// against another scenario set, its evaluation has no outcome for the
/// record's metric, or it has no collateral metric.
pub open spec fn append_refusal(
    record_scenario: Seq<char>,
    record_metric: Seq<char>,
    attempt_scenario: Seq<char>,
    has_target: bool,
    has_collateral: bool,
) -> Option<Seq<char>> {
    if attempt_scenario != record_scenario {
        Some(
            "every attempt in a frontier record must run against the identical scenario set (record: "@
                + record_scenario + ", attempt: "@ + attempt_scenario + ")"@,
        )
    } else if !has_target {
        Some("evaluation has no target outcome for this record's metric "@ + record_metric)
    } else if !has_collateral {
        Some("evaluation has no collateral metrics"@)
    } else {
        None
    }
}

/// What the record writer decides for one appended attempt.
pub struct AttemptDecision {
    /// The attempt's 1-based index.
    pub index: u64,
    /// Whether the frontier moves to the attempt's `gap_closed`.
    pub advances: bool,
    /// The attempt count after the append.
    pub methods_tried: u64,
    /// The count of rejected attempts after the append.
    pub methods_rejected: u64,
}

/// What the writer decides for an attempt with `verdict`, whose gap
/// exceeds the current frontier when `gap_exceeds_frontier`, appended after
/// attempts with `prior`.
pub open spec fn append_decision(prior: Seq<Verdict>, verdict: Verdict, gap_exceeds_frontier: bool) -> AttemptDecision {
    AttemptDecision {
        index: (prior.len() + 1) as u64,
        advances: frontier_moves(verdict, gap_exceeds_frontier),
        methods_tried: (prior.len() + 1) as u64,
        methods_rejected: reject_count(prior.push(verdict)) as u64,
    }
}

/// How many of `verdicts` are rejections.
pub fn count_rejects(verdicts: &Vec<Verdict>) -> (n: u64)
    ensures
        n == reject_count(verdicts@),
{
    let mut n: u64 = 0;
    let mut i: usize = 0;
    while i < verdicts.len()
        invariant
            i <= verdicts.len(),
            n == reject_count(verdicts@.subrange(0, i as int)),
            n <= i,
        decreases verdicts.len() - i,
    {
        proof {
            assert(verdicts@.subrange(0, i + 1).drop_last() =~= verdicts@.subrange(0, i as int));
        }
        if verdicts[i].is_reject() {
            n = n + 1;
        }
        i = i + 1;
    }
    proof {
        assert(verdicts@.subrange(0, verdicts@.len() as int) =~= verdicts@);
    }
    n
}

/// The record writer's rules for appending one attempt to a record whose
/// attempts so far have `prior_verdicts`. Refuses what `append_refusal`
/// refuses; otherwise the attempt gets the next index, moves the frontier
/// exactly when `frontier_moves`, and the counts become the number of
/// attempts and of rejections among them.
pub fn decide_append(
    record_scenario: &str,
    record_metric: &str,
    attempt_scenario: &str,
    has_target: bool,
    has_collateral: bool,
    verdict: Verdict,
    gap_exceeds_frontier: bool,
    prior_verdicts: &Vec<Verdict>,
) -> (r: Result<AttemptDecision, EfficacyError>)
    requires
        prior_verdicts@.len() < u64::MAX,
    ensures
        r is Err <==> append_refusal(
            record_scenario@,
            record_metric@,
            attempt_scenario@,
            has_target,
            has_collateral,
        ) is Some,
        r matches Err(e) ==> e@ == ErrorView::Data(
            append_refusal(
                record_scenario@,
                record_metric@,
                attempt_scenario@,
                has_target,
                has_collateral,
            )->0,
        ),
        r matches Ok(d) ==> d == append_decision(prior_verdicts@, verdict, gap_exceeds_frontier),
        r matches Ok(d) ==> {
            &&& d.index == prior_verdicts@.len() + 1
            &&& d.advances == frontier_moves(verdict, gap_exceeds_frontier)
            &&& d.methods_tried == prior_verdicts@.len() + 1
            &&& d.methods_rejected == reject_count(prior_verdicts@.push(verdict))
        },
{
    if !same_text(attempt_scenario, record_scenario) {
        let mut msg =
            "every attempt in a frontier record must run against the identical scenario set (record: ".to_owned();
        msg.push_str(record_scenario);
        msg.push_str(", attempt: ");
        msg.push_str(attempt_scenario);
        msg.push_str(")");
        return Err(EfficacyError::Data(msg));
    }
    if !has_target {
        let mut msg = "evaluation has no target outcome for this record's metric ".to_owned();
        msg.push_str(record_metric);
        return Err(EfficacyError::Data(msg));
    }
    if !has_collateral {
        return Err(EfficacyError::Data("evaluation has no collateral metrics".to_owned()));
    }
    let prior_rejects = count_rejects(prior_verdicts);
    proof {
        assert(prior_verdicts@.push(verdict).drop_last() =~= prior_verdicts@);
        assert(reject_count(prior_verdicts@) <= prior_verdicts@.len()) by {
            lemma_reject_count_bounded(prior_verdicts@);
        }
    }
    let rejected = if verdict.is_reject() {
        prior_rejects + 1
    } else {
        prior_rejects
    };
    let n = prior_verdicts.len() as u64;
    Ok(AttemptDecision {
        index: n + 1,
        advances: verdict.advances_frontier() && gap_exceeds_frontier,
        methods_tried: n + 1,
        methods_rejected: rejected,
    })
}

/// There are no more rejections than verdicts.
pub proof fn lemma_reject_count_bounded(verdicts: Seq<Verdict>)
    ensures
        reject_count(verdicts) <= verdicts.len(),
    decreases verdicts.len(),
{
    if verdicts.len() > 0 {
        lemma_reject_count_bounded(verdicts.drop_last());
    }
}

/// A rejected attempt never moves the frontier, however large its gap; nor
/// does the `unverified` sentinel.
pub proof fn lemma_reject_never_moves_frontier(verdict: Verdict, gap_exceeds_frontier: bool)
    requires
        verdict.is_reject() || verdict == Verdict::Unverified,
    ensures
        !frontier_moves(verdict, gap_exceeds_frontier),
{
}

/// An attempt that moves the frontier is an accepted one whose gap exceeds
/// the current frontier, so the frontier never moves down and never moves
/// on a rejection.
pub proof fn lemma_frontier_moves_only_up(verdict: Verdict, gap_exceeds_frontier: bool)
    ensures
        frontier_moves(verdict, gap_exceeds_frontier) ==> gap_exceeds_frontier
            && !verdict.is_reject() && verdict != Verdict::Unverified,
{
}

/// Counting rejections over a record grown one attempt at a time gives the
/// rejections among all its attempts: appending a verdict adds one exactly
/// when it is a rejection.
pub proof fn lemma_reject_count_push(verdicts: Seq<Verdict>, v: Verdict)
    ensures
        reject_count(verdicts.push(v)) == reject_count(verdicts) + if v.is_reject() {
            1nat
        } else {
            0nat
        },
{
    assert(verdicts.push(v).drop_last() =~= verdicts);
}

/// An attempt of a frontier record with its gap and frontier as numbers
/// (in thousandths: the writer rounds `gap_closed` to three decimals).
pub struct AttemptModel {
    pub index: u64,
    pub verdict: Verdict,
    pub gap: int,
    pub frontier: int,
}

/// A frontier record with its figures as numbers.
pub struct RecordModel {
    pub attempts: Seq<AttemptModel>,
    pub frontier_final: int,
    pub methods_tried: u64,
    pub methods_rejected: u64,
}

/// The verdicts of the attempts.
pub open spec fn model_verdicts(attempts: Seq<AttemptModel>) -> Seq<Verdict> {
    attempts.map_values(|a: AttemptModel| a.verdict)
}

/// The frontier before the attempt at position `i`: 0 before the first,
/// else the frontier stored with the attempt before it.
pub open spec fn frontier_before(attempts: Seq<AttemptModel>, i: int) -> int {
    if i <= 0 {
        0
    } else {
        attempts[i - 1].frontier
    }
}

/// The record invariant: attempts are numbered 1, 2, ...; each attempt's
/// frontier is its gap when it is an `accept` or `accept_with_warning`
/// whose gap exceeds the frontier before it, and that frontier otherwise;
/// `frontier_final` is the last frontier (0 without attempts);
/// `methods_tried` counts the attempts and `methods_rejected` the
/// rejections among them.
pub open spec fn record_invariant(r: RecordModel) -> bool {
    let n = r.attempts.len();
    &&& forall|i: int|
        0 <= i < n ==> {
            &&& (#[trigger] r.attempts[i]).index == i + 1
            &&& r.attempts[i].frontier == if r.attempts[i].verdict.advances_frontier()
                && r.attempts[i].gap > frontier_before(r.attempts, i) {
                r.attempts[i].gap
            } else {
                frontier_before(r.attempts, i)
            }
        }
    &&& r.frontier_final == frontier_before(r.attempts, n as int)
    &&& r.methods_tried == n
    &&& r.methods_rejected == reject_count(model_verdicts(r.attempts))
}

/// A new record: no attempts, frontier 0, nothing counted.
pub open spec fn new_record() -> RecordModel {
    RecordModel { attempts: Seq::empty(), frontier_final: 0, methods_tried: 0, methods_rejected: 0 }
}

/// The record after the writer appends an attempt with `verdict` and `gap`
/// as `d` decides: the attempt gets `d.index`, its frontier is its gap when
/// `d.advances` and the current frontier otherwise, which it also becomes
/// `frontier_final`; the counts are those of `d`.
pub open spec fn record_after_append(r: RecordModel, d: AttemptDecision, verdict: Verdict, gap: int) -> RecordModel {
    let frontier = if d.advances {
        gap
    } else {
        frontier_before(r.attempts, r.attempts.len() as int)
    };
    RecordModel {
        attempts: r.attempts.push(AttemptModel { index: d.index, verdict, gap, frontier }),
        frontier_final: frontier,
        methods_tried: d.methods_tried,
        methods_rejected: d.methods_rejected,
    }
}

/// A new record satisfies the record invariant.
pub proof fn lemma_new_record_invariant()
    ensures
        record_invariant(new_record()),
{
    assert(model_verdicts(new_record().attempts) =~= Seq::<Verdict>::empty());
}

/// Appending keeps the record invariant: for an attempt with `verdict` and
/// `gap`, the writer's decision (`decide_append`'s result, whose
/// `gap_exceeds_frontier` compares the gap with the current frontier) gives
/// a record that satisfies it again. A refused append leaves the record as
/// it was.
pub proof fn lemma_append_keeps_record_invariant(r: RecordModel, verdict: Verdict, gap: int)
    requires
        record_invariant(r),
        r.attempts.len() < u64::MAX,
    ensures
        ({
            let n = r.attempts.len() as int;
            let d = append_decision(model_verdicts(r.attempts), verdict, gap > frontier_before(r.attempts, n));
            record_invariant(record_after_append(r, d, verdict, gap))
        }),
{
    let n = r.attempts.len() as int;
    let prior = model_verdicts(r.attempts);
    let d = append_decision(prior, verdict, gap > frontier_before(r.attempts, n));
    let r2 = record_after_append(r, d, verdict, gap);
    lemma_reject_count_bounded(prior.push(verdict));
    assert(model_verdicts(r2.attempts) =~= prior.push(verdict));
    assert forall|i: int| 0 <= i < n implies frontier_before(r2.attempts, i) == frontier_before(
        r.attempts,
        i,
    ) by {
        if i > 0 {
            assert(r2.attempts[i - 1] == r.attempts[i - 1]);
        }
    }
    assert forall|i: int| 0 <= i < r2.attempts.len() implies {
        &&& (#[trigger] r2.attempts[i]).index == i + 1
        &&& r2.attempts[i].frontier == if r2.attempts[i].verdict.advances_frontier()
            && r2.attempts[i].gap > frontier_before(r2.attempts, i) {
            r2.attempts[i].gap
        } else {
            frontier_before(r2.attempts, i)
        }
    } by {
        if i < n {
            assert(r2.attempts[i] == r.attempts[i]);
        } else {
            assert(frontier_before(r2.attempts, n) == frontier_before(r.attempts, n));
        }
    }
}

/// The frontier never decreases and never falls below 0: along a record
/// that satisfies the invariant, the frontier before a later attempt is at
/// least the frontier before an earlier one.
pub proof fn lemma_record_frontier_monotone(r: RecordModel, i: int, j: int)
    requires
        record_invariant(r),
        0 <= i <= j <= r.attempts.len(),
    ensures
        0 <= frontier_before(r.attempts, i) <= frontier_before(r.attempts, j),
    decreases j,
{
    if j > 0 {
        let k = j - 1;
        assert(r.attempts[k].index == k + 1);
        if i < j {
            lemma_record_frontier_monotone(r, i, k);
        } else {
            lemma_record_frontier_monotone(r, 0, k);
        }
    }
}


/// The record after `steps` appends, each an attempt's verdict and gap,
/// starting from a new record, every one decided as `decide_append`
/// decides it (its `gap_exceeds_frontier` comparing the gap with the
/// frontier before it).
pub open spec fn appended_record(steps: Seq<(Verdict, int)>) -> RecordModel
    decreases steps.len(),
{
    if steps.len() == 0 {
        new_record()
    } else {
        let r = appended_record(steps.drop_last());
        let (verdict, gap) = steps.last();
        let n = r.attempts.len() as int;
        record_after_append(
            r,
            append_decision(model_verdicts(r.attempts), verdict, gap > frontier_before(r.attempts, n)),
            verdict,
            gap,
        )
    }
}

/// A record built by successive appends has one attempt per append.
pub proof fn lemma_appended_record_len(steps: Seq<(Verdict, int)>)
    ensures
        appended_record(steps).attempts.len() == steps.len(),
    decreases steps.len(),
{
    if steps.len() > 0 {
        lemma_appended_record_len(steps.drop_last());
    }
}

/// The attempts of a record built by successive appends carry, in order,
/// the verdicts and gaps of the appends.
pub proof fn lemma_appended_record_attempts(steps: Seq<(Verdict, int)>)
    ensures
        appended_record(steps).attempts.len() == steps.len(),
        forall|k: int|
            0 <= k < steps.len() ==> (#[trigger] appended_record(steps).attempts[k]).verdict == steps[k].0
                && appended_record(steps).attempts[k].gap == steps[k].1,
    decreases steps.len(),
{
    if steps.len() > 0 {
        let prior = steps.drop_last();
        lemma_appended_record_attempts(prior);
        assert forall|k: int| 0 <= k < steps.len() implies (#[trigger] appended_record(
            steps,
        ).attempts[k]).verdict == steps[k].0 && appended_record(steps).attempts[k].gap == steps[k].1 by {
            if k < prior.len() {
                assert(appended_record(steps).attempts[k] == appended_record(prior).attempts[k]);
                assert(prior[k] == steps[k]);
            }
        }
    }
}

/// Every record the writer builds by successive appends satisfies the
/// record invariant.
pub proof fn lemma_appended_record_invariant(steps: Seq<(Verdict, int)>)
    requires
        steps.len() < u64::MAX,
    ensures
        record_invariant(appended_record(steps)),
    decreases steps.len(),
{
    if steps.len() == 0 {
        lemma_new_record_invariant();
    } else {
        let prior = steps.drop_last();
        lemma_appended_record_invariant(prior);
        lemma_appended_record_len(prior);
        let (verdict, gap) = steps.last();
        lemma_append_keeps_record_invariant(appended_record(prior), verdict, gap);
    }
}

/// An attempt as the record writer keeps it: its index, verdict, and its
/// gap and frontier in thousandths.
pub struct LedgerAttempt {
    pub index: u64,
    pub verdict: Verdict,
    pub gap: i64,
    pub frontier: i64,
}

/// The part of a frontier record that the writer's rules govern: its
/// scenario set and metric, its attempts, and its final frontier and
/// counts (frontier values in thousandths).
pub struct FrontierLedger {
    pub scenario_set: String,
    pub metric: String,
    pub attempts: Vec<LedgerAttempt>,
    pub frontier_final: i64,
    pub methods_tried: u64,
    pub methods_rejected: u64,
}

/// An attempt of the ledger as a number-valued attempt.
pub open spec fn attempt_model(a: LedgerAttempt) -> AttemptModel {
    AttemptModel { index: a.index, verdict: a.verdict, gap: a.gap as int, frontier: a.frontier as int }
}

impl FrontierLedger {
    /// The ledger as a record with number-valued figures.
    pub open spec fn model(&self) -> RecordModel {
        RecordModel {
            attempts: self.attempts@.map_values(|a: LedgerAttempt| attempt_model(a)),
            frontier_final: self.frontier_final as int,
            methods_tried: self.methods_tried,
            methods_rejected: self.methods_rejected,
        }
    }

    /// A ledger for `metric` against `scenario_set`, with no attempts.
    pub fn new(metric: &str, scenario_set: &str) -> (l: FrontierLedger)
        ensures
            l.model() == new_record(),
            l.metric@ == metric@,
            l.scenario_set@ == scenario_set@,
    {
        let l = FrontierLedger {
            scenario_set: scenario_set.to_owned(),
            metric: metric.to_owned(),
            attempts: Vec::new(),
            frontier_final: 0,
            methods_tried: 0,
            methods_rejected: 0,
        };
        assert(l.model().attempts =~= Seq::<AttemptModel>::empty());
        l
    }

    /// The frontier before the next attempt: the last attempt's, 0 without
    /// attempts.
    pub fn current_frontier(&self) -> (f: i64)
        ensures
            f == frontier_before(self.model().attempts, self.attempts@.len() as int),
    {
        let n = self.attempts.len();
        if n == 0 {
            0
        } else {
            self.attempts[n - 1].frontier
        }
    }

    /// Appends an attempt with `verdict` and `gap` (in thousandths) run
    /// against `attempt_scenario`, as `decide_append` decides: refused, the
    /// ledger stays as it was; else the attempt is numbered next, its
    /// frontier is its gap when it moves the frontier and the current
    /// frontier otherwise, that frontier becomes `frontier_final`, and the
    /// counts are the decision's. Either way a ledger that satisfies the
    /// record invariant still does.
    pub fn append(
        &mut self,
        attempt_scenario: &str,
        has_target: bool,
        has_collateral: bool,
        verdict: Verdict,
        gap: i64,
    ) -> (r: Result<AttemptDecision, EfficacyError>)
        requires
            old(self).attempts@.len() < u64::MAX,
        ensures
            r is Err <==> append_refusal(
                old(self).scenario_set@,
                old(self).metric@,
                attempt_scenario@,
                has_target,
                has_collateral,
            ) is Some,
            r matches Err(e) ==> e@ == ErrorView::Data(
                append_refusal(
                    old(self).scenario_set@,
                    old(self).metric@,
                    attempt_scenario@,
                    has_target,
                    has_collateral,
                )->0,
            ),
            r is Err ==> *final(self) == *old(self),
            r matches Ok(d) ==> {
                let m = old(self).model();
                let n = m.attempts.len() as int;
                &&& d == append_decision(model_verdicts(m.attempts), verdict, gap > frontier_before(m.attempts, n))
                &&& final(self).model() == record_after_append(m, d, verdict, gap as int)
                &&& final(self).scenario_set == old(self).scenario_set
                &&& final(self).metric == old(self).metric
            },
            record_invariant(old(self).model()) ==> record_invariant(final(self).model()),
    {
        let ghost m = self.model();
        let mut prior: Vec<Verdict> = Vec::new();
        let mut i: usize = 0;
        while i < self.attempts.len()
            invariant
                i <= self.attempts@.len(),
                self.model() == m,
                prior@ == model_verdicts(m.attempts).subrange(0, i as int),
            decreases self.attempts@.len() - i,
        {
            prior.push(self.attempts[i].verdict);
            i = i + 1;
            proof {
                assert(prior@ =~= model_verdicts(m.attempts).subrange(0, i as int));
            }
        }
        proof {
            assert(prior@ =~= model_verdicts(m.attempts));
        }
        let prev = self.current_frontier();
        let d = decide_append(
            self.scenario_set.as_str(),
            self.metric.as_str(),
            attempt_scenario,
            has_target,
            has_collateral,
            verdict,
            gap > prev,
            &prior,
        );
        match d {
            Err(e) => Err(e),
            Ok(d) => {
                let frontier = if d.advances {
                    gap
                } else {
                    prev
                };
                self.attempts.push(LedgerAttempt { index: d.index, verdict, gap, frontier });
                self.frontier_final = frontier;
                self.methods_tried = d.methods_tried;
                self.methods_rejected = d.methods_rejected;
                proof {
                    let am = AttemptModel { index: d.index, verdict, gap: gap as int, frontier: frontier as int };
                    assert(self.model().attempts =~= m.attempts.push(am));
                    if record_invariant(m) {
                        lemma_append_keeps_record_invariant(m, verdict, gap as int);
                    }
                }
                Ok(d)
            },
        }
    }
}

} // verus!
