//! The frontier validator's rules: which problems a stored
//! `vexometer-frontier-v1` record has, in which order they are listed, and
//! how each is worded. The stored figures are compared by the caller, which
//! also renders them as text; the rules here see the outcome of each
//! comparison.
use vstd::prelude::*;

use crate::evaluation::names_contain;
use crate::frontier::{count_rejects, frontier_moves, reject_count};
use crate::metric::{is_metric_name, known_metric};
use crate::report::FRONTIER_VERSION;
use crate::text::{
    decimal, decimal_text, has_prefix, same_text, strictly_ascending, text_starts_with, views,
};
use crate::verdict::Verdict;

verus! {

/// What a stored frontier record says of one attempt, each figure compared
/// with the frontier of the attempt before it (0 for the first).
pub struct AttemptFacts {
    pub index: u64,
    pub verdict: Verdict,
    /// The stored `gap_closed` lies outside [0, 1].
    pub gap_out_of_range: bool,
    /// The stored `gap_closed` exceeds the previous frontier by more than
    /// the tolerance.
    pub gap_exceeds_frontier: bool,
    /// The stored frontier differs from `gap_closed` by more than the
    /// tolerance.
    pub frontier_off_gap: bool,
    /// The stored frontier differs from the previous frontier by more than
    /// the tolerance.
    pub frontier_off_previous: bool,
    /// The stored frontier lies below the previous frontier by more than the
    /// tolerance.
    pub frontier_decreased: bool,
    /// The stored `gap_closed`, as text.
    pub gap_text: String,
    /// The stored frontier, as text.
    pub frontier_text: String,
    /// The previous frontier, as text.
    pub previous_text: String,
}

/// What the frontier validator reads of a stored record.
pub struct FrontierRecordFacts {
    pub version: String,
    /// The stored version as a quoted, escaped string literal.
    pub version_text: String,
    pub metric: String,
    pub scenario_set: String,
    /// The keys of the baseline block.
    pub baseline_keys: Vec<String>,
    pub attempts: Vec<AttemptFacts>,
    /// The stored `frontier_final` differs from the last attempt's frontier
    /// (0 without attempts) by more than the tolerance.
    pub final_mismatch: bool,
    /// The stored `frontier_final`, as text.
    pub final_text: String,
    /// The last attempt's frontier (0 without attempts), as text.
    pub last_frontier_text: String,
    pub methods_tried: u64,
    pub methods_rejected: u64,
}

impl FrontierRecordFacts {
    /// The baseline keys as the record's key-ordered map holds them:
    /// strictly ascending.
    pub open spec fn well_formed(self) -> bool {
        strictly_ascending(views(self.baseline_keys@))
    }
}

/// The kinds of problem a stored frontier record can have.
#[derive(Debug, Clone, Copy, PartialEq, Eq, Structural)]
pub enum FrontierProblemKind {
    VersionMismatch,
    UnknownMetric,
    ScenarioNotContentAddressed,
    /// The baseline block lacks the key carried by the problem.
    BaselineMissing,
    IndexMismatch,
    GapOutOfRange,
    UnverifiedAttempt,
    /// The attempt's frontier breaks the invariant: it moves only on an
    /// accepted attempt whose gap exceeds the current frontier. Carries
    /// whether the attempt should have moved it to its gap.
    FrontierInvariant(bool),
    FrontierDecreased,
    FinalMismatch,
    TriedMismatch,
    RejectedMismatch,
}

/// One problem of a stored frontier record: its kind, the position (from
/// 0) of the attempt it concerns (0 when it concerns none), the baseline
/// key it concerns (empty when it concerns none), and its wording.
pub struct FrontierProblem {
    pub kind: FrontierProblemKind,
    pub attempt: usize,
    pub key: String,
    pub message: String,
}

/// A frontier problem as its kind, attempt position and key.
pub type FrontierProblemView = (FrontierProblemKind, int, Seq<char>);

/// The problems as kinds, positions and keys.
pub open spec fn frontier_problem_views(v: Seq<FrontierProblem>) -> Seq<FrontierProblemView> {
    v.map_values(|p: FrontierProblem| (p.kind, p.attempt as int, p.key@))
}

/// A record-level problem.
pub open spec fn record_level(kind: FrontierProblemKind) -> FrontierProblemView {
    (kind, 0, Seq::empty())
}

/// `seq![p]` when `cond`, else nothing.
pub open spec fn when_f(cond: bool, p: FrontierProblemView) -> Seq<FrontierProblemView> {
    if cond {
        seq![p]
    } else {
        Seq::empty()
    }
}

/// The keys the baseline block lacks among those it must have: the
/// record's metric, `isa_score` and `probe_pass_rate`, in that order.
pub open spec fn baseline_problems(keys: Seq<Seq<char>>, metric: Seq<char>) -> Seq<
    FrontierProblemView,
> {
    when_f(!keys.contains(metric), (FrontierProblemKind::BaselineMissing, 0, metric)) + when_f(
        !keys.contains("isa_score"@),
        (FrontierProblemKind::BaselineMissing, 0, "isa_score"@),
    ) + when_f(
        !keys.contains("probe_pass_rate"@),
        (FrontierProblemKind::BaselineMissing, 0, "probe_pass_rate"@),
    )
}

/// The frontier invariant fails for an attempt: its frontier should be its
/// gap when it moves the frontier, and the previous frontier otherwise.
pub open spec fn breaks_invariant(a: AttemptFacts) -> bool {
    if frontier_moves(a.verdict, a.gap_exceeds_frontier) {
        a.frontier_off_gap
    } else {
        a.frontier_off_previous
    }
}

/// The problems of the attempt at position `p`.
pub open spec fn attempt_problems(a: AttemptFacts, p: int) -> Seq<FrontierProblemView> {
    when_f(a.index != p + 1, (FrontierProblemKind::IndexMismatch, p, Seq::empty())) + when_f(
        a.gap_out_of_range,
        (FrontierProblemKind::GapOutOfRange, p, Seq::empty()),
    ) + when_f(
        a.verdict == Verdict::Unverified,
        (FrontierProblemKind::UnverifiedAttempt, p, Seq::empty()),
    ) + when_f(
        breaks_invariant(a),
        (
            FrontierProblemKind::FrontierInvariant(frontier_moves(a.verdict, a.gap_exceeds_frontier)),
            p,
            Seq::empty(),
        ),
    )
        + when_f(a.frontier_decreased, (FrontierProblemKind::FrontierDecreased, p, Seq::empty()))
}

/// The problems of the attempts, in turn.
pub open spec fn attempts_problems(attempts: Seq<AttemptFacts>) -> Seq<FrontierProblemView>
    decreases attempts.len(),
{
    if attempts.len() == 0 {
        Seq::empty()
    } else {
        attempts_problems(attempts.drop_last()) + attempt_problems(
            attempts.last(),
            attempts.len() - 1,
        )
    }
}

/// The verdicts of the attempts.
pub open spec fn attempt_verdicts(attempts: Seq<AttemptFacts>) -> Seq<Verdict> {
    attempts.map_values(|a: AttemptFacts| a.verdict)
}

/// The version, metric and scenario-set problems of a record.
pub open spec fn record_header_problems(f: FrontierRecordFacts) -> Seq<FrontierProblemView> {
    when_f(f.version@ != FRONTIER_VERSION@, record_level(FrontierProblemKind::VersionMismatch))
        + when_f(!is_metric_name(f.metric@), record_level(FrontierProblemKind::UnknownMetric))
        + when_f(
        !has_prefix(f.scenario_set@, "sha256:"@),
        record_level(FrontierProblemKind::ScenarioNotContentAddressed),
    )
}

/// The final-frontier and count problems of a record.
pub open spec fn record_tail_problems(f: FrontierRecordFacts) -> Seq<FrontierProblemView> {
    when_f(f.final_mismatch, record_level(FrontierProblemKind::FinalMismatch)) + when_f(
        f.methods_tried != f.attempts@.len(),
        record_level(FrontierProblemKind::TriedMismatch),
    ) + when_f(
        f.methods_rejected != reject_count(attempt_verdicts(f.attempts@)),
        record_level(FrontierProblemKind::RejectedMismatch),
    )
}

/// Every problem of a stored frontier record, in order.
pub open spec fn frontier_problems(f: FrontierRecordFacts) -> Seq<FrontierProblemView> {
    record_header_problems(f) + baseline_problems(views(f.baseline_keys@), f.metric@)
        + attempts_problems(f.attempts@) + record_tail_problems(f)
}

/// The wording of the problem `p` of the record `f`.
pub open spec fn frontier_message(p: FrontierProblemView, f: FrontierRecordFacts) -> Seq<char> {
    let a = f.attempts@[p.1];
    match p.0 {
        FrontierProblemKind::VersionMismatch => "version is "@ + f.version_text@
            + ", expected \"vexometer-frontier-v1\""@,
        FrontierProblemKind::UnknownMetric => "unknown metric "@ + f.metric@,
        FrontierProblemKind::ScenarioNotContentAddressed =>
            "scenario_set is not content-addressed (sha256:...)"@,
        FrontierProblemKind::BaselineMissing => "baseline block is missing "@ + p.2,
        FrontierProblemKind::IndexMismatch => "attempt "@ + decimal((p.1 + 1) as nat)
            + " has index "@ + decimal(a.index as nat) + ", expected "@ + decimal(
            (p.1 + 1) as nat,
        ),
        FrontierProblemKind::GapOutOfRange => "attempt "@ + decimal(a.index as nat)
            + ": gap_closed "@ + a.gap_text@ + " outside [0, 1]"@,
        FrontierProblemKind::UnverifiedAttempt => "attempt "@ + decimal(a.index as nat)
            + ": unverified is a verification-status sentinel, not a frontier verdict"@,
        FrontierProblemKind::FrontierInvariant(to_gap) => "attempt "@ + decimal(a.index as nat)
            + ": frontier "@ + a.frontier_text@ + " violates the invariant (expected "@ + (if to_gap {
            a.gap_text@
        } else {
            a.previous_text@
        })
            + "; the frontier advances only on accept/accept_with_warning exceeding the current frontier)"@,
        FrontierProblemKind::FrontierDecreased => "attempt "@ + decimal(a.index as nat)
            + ": frontier decreased ("@ + a.previous_text@ + " -> "@ + a.frontier_text@ + ")"@,
        FrontierProblemKind::FinalMismatch => "frontier_final "@ + f.final_text@
            + " does not match last attempt frontier "@ + f.last_frontier_text@,
        FrontierProblemKind::TriedMismatch => "methods_tried "@ + decimal(f.methods_tried as nat)
            + " does not match attempt count "@ + decimal(f.attempts@.len()),
        FrontierProblemKind::RejectedMismatch => "methods_rejected "@ + decimal(
            f.methods_rejected as nat,
        ) + " does not match reject verdict count "@ + decimal(
            reject_count(attempt_verdicts(f.attempts@)),
        ),
    }
}

/// Each problem of `v` is worded as `frontier_message` words it.
pub open spec fn worded(v: Seq<FrontierProblem>, f: FrontierRecordFacts) -> bool {
    forall|k: int|
        0 <= k < v.len() ==> (#[trigger] v[k]).message@ == frontier_message(
            (v[k].kind, v[k].attempt as int, v[k].key@),
            f,
        )
}

/// Whether a problem kind concerns one attempt.
pub open spec fn per_attempt(kind: FrontierProblemKind) -> bool {
    kind is IndexMismatch || kind is GapOutOfRange || kind is UnverifiedAttempt
        || kind is FrontierInvariant || kind is FrontierDecreased
}

/// The wording of a problem of kind `kind` concerning the attempt at
/// position `p` and the baseline key `key`.
fn frontier_message_text(kind: FrontierProblemKind, p: usize, key: &str, f: &FrontierRecordFacts) -> (s: String)
    requires
        per_attempt(kind) ==> p < f.attempts@.len(),
    ensures
        s@ == frontier_message((kind, p as int, key@), *f),
{
    let attempt_count = f.attempts.len();
    let mut s = String::new();
    match kind {
        FrontierProblemKind::VersionMismatch => {
            s.push_str("version is ");
            s.push_str(f.version_text.as_str());
            s.push_str(", expected \"vexometer-frontier-v1\"");
        },
        FrontierProblemKind::UnknownMetric => {
            s.push_str("unknown metric ");
            s.push_str(f.metric.as_str());
        },
        FrontierProblemKind::ScenarioNotContentAddressed => {
            s.push_str("scenario_set is not content-addressed (sha256:...)");
        },
        FrontierProblemKind::BaselineMissing => {
            s.push_str("baseline block is missing ");
            s.push_str(key);
        },
        FrontierProblemKind::IndexMismatch => {
            let a = &f.attempts[p];
            s.push_str("attempt ");
            s.push_str(decimal_text(p as u64 + 1).as_str());
            s.push_str(" has index ");
            s.push_str(decimal_text(a.index).as_str());
            s.push_str(", expected ");
            s.push_str(decimal_text(p as u64 + 1).as_str());
        },
        FrontierProblemKind::GapOutOfRange => {
            let a = &f.attempts[p];
            s.push_str("attempt ");
            s.push_str(decimal_text(a.index).as_str());
            s.push_str(": gap_closed ");
            s.push_str(a.gap_text.as_str());
            s.push_str(" outside [0, 1]");
        },
        FrontierProblemKind::UnverifiedAttempt => {
            let a = &f.attempts[p];
            s.push_str("attempt ");
            s.push_str(decimal_text(a.index).as_str());
            s.push_str(": unverified is a verification-status sentinel, not a frontier verdict");
        },
        FrontierProblemKind::FrontierInvariant(to_gap) => {
            let a = &f.attempts[p];
            s.push_str("attempt ");
            s.push_str(decimal_text(a.index).as_str());
            s.push_str(": frontier ");
            s.push_str(a.frontier_text.as_str());
            s.push_str(" violates the invariant (expected ");
            if to_gap {
                s.push_str(a.gap_text.as_str());
            } else {
                s.push_str(a.previous_text.as_str());
            }
            s.push_str(
                "; the frontier advances only on accept/accept_with_warning exceeding the current frontier)",
            );
        },
        FrontierProblemKind::FrontierDecreased => {
            let a = &f.attempts[p];
            s.push_str("attempt ");
            s.push_str(decimal_text(a.index).as_str());
            s.push_str(": frontier decreased (");
            s.push_str(a.previous_text.as_str());
            s.push_str(" -> ");
            s.push_str(a.frontier_text.as_str());
            s.push_str(")");
        },
        FrontierProblemKind::FinalMismatch => {
            s.push_str("frontier_final ");
            s.push_str(f.final_text.as_str());
            s.push_str(" does not match last attempt frontier ");
            s.push_str(f.last_frontier_text.as_str());
        },
        FrontierProblemKind::TriedMismatch => {
            s.push_str("methods_tried ");
            s.push_str(decimal_text(f.methods_tried).as_str());
            s.push_str(" does not match attempt count ");
            s.push_str(decimal_text(attempt_count as u64).as_str());
        },
        FrontierProblemKind::RejectedMismatch => {
            let rejected = count_record_rejects(f);
            s.push_str("methods_rejected ");
            s.push_str(decimal_text(f.methods_rejected).as_str());
            s.push_str(" does not match reject verdict count ");
            s.push_str(decimal_text(rejected).as_str());
        },
    }
    s
}

/// How many of the record's attempts are rejections.
fn count_record_rejects(f: &FrontierRecordFacts) -> (n: u64)
    ensures
        n == reject_count(attempt_verdicts(f.attempts@)),
{
    let mut verdicts: Vec<Verdict> = Vec::new();
    let mut p: usize = 0;
    while p < f.attempts.len()
        invariant
            p <= f.attempts.len(),
            verdicts@ == attempt_verdicts(f.attempts@.subrange(0, p as int)),
        decreases f.attempts.len() - p,
    {
        verdicts.push(f.attempts[p].verdict);
        proof {
            assert(verdicts@ =~= attempt_verdicts(f.attempts@.subrange(0, p + 1)));
        }
        p = p + 1;
    }
    proof {
        assert(f.attempts@.subrange(0, f.attempts@.len() as int) =~= f.attempts@);
    }
    count_rejects(&verdicts)
}

/// Append a worded problem of kind `kind` concerning the attempt at
/// position `p` and the baseline key `key`.
fn push_frontier(
    v: &mut Vec<FrontierProblem>,
    kind: FrontierProblemKind,
    p: usize,
    key: &str,
    f: &FrontierRecordFacts,
)
    requires
        per_attempt(kind) ==> p < f.attempts@.len(),
        worded(old(v)@, *f),
    ensures
        frontier_problem_views(final(v)@) == frontier_problem_views(old(v)@).push(
            (kind, p as int, key@),
        ),
        worded(final(v)@, *f),
{
    let message = frontier_message_text(kind, p, key, f);
    v.push(FrontierProblem { kind, attempt: p, key: key.to_owned(), message });
    proof {
        assert(frontier_problem_views(v@) =~= frontier_problem_views(old(v)@).push(
            (kind, p as int, key@),
        ));
    }
}

/// Append a worded problem of kind `kind` when `cond` holds.
fn push_frontier_if(
    v: &mut Vec<FrontierProblem>,
    cond: bool,
    kind: FrontierProblemKind,
    p: usize,
    f: &FrontierRecordFacts,
)
    requires
        per_attempt(kind) ==> p < f.attempts@.len(),
        worded(old(v)@, *f),
    ensures
        frontier_problem_views(final(v)@) == frontier_problem_views(old(v)@) + when_f(
            cond,
            (kind, p as int, Seq::empty()),
        ),
        worded(final(v)@, *f),
{
    proof {
        reveal_strlit("");
        assert(""@ =~= Seq::<char>::empty());
    }
    if cond {
        push_frontier(v, kind, p, "", f);
    }
    proof {
        assert(frontier_problem_views(v@) =~= frontier_problem_views(old(v)@) + when_f(
            cond,
            (kind, p as int, Seq::empty()),
        ));
    }
}

/// The version, metric and scenario-set problems of a record.
fn record_header_check(f: &FrontierRecordFacts) -> (v: Vec<FrontierProblem>)
    ensures
        frontier_problem_views(v@) == record_header_problems(*f),
        worded(v@, *f),
{
    let mut v: Vec<FrontierProblem> = Vec::new();
    proof {
        assert(frontier_problem_views(v@) =~= Seq::<FrontierProblemView>::empty());
    }
    push_frontier_if(
        &mut v,
        !same_text(f.version.as_str(), FRONTIER_VERSION),
        FrontierProblemKind::VersionMismatch,
        0,
        f,
    );
    push_frontier_if(&mut v, !known_metric(f.metric.as_str()), FrontierProblemKind::UnknownMetric, 0, f);
    push_frontier_if(
        &mut v,
        !text_starts_with(f.scenario_set.as_str(), "sha256:"),
        FrontierProblemKind::ScenarioNotContentAddressed,
        0,
        f,
    );
    proof {
        assert(frontier_problem_views(v@) =~= record_header_problems(*f));
    }
    v
}

/// The problems of the baseline block.
fn baseline_check(f: &FrontierRecordFacts) -> (v: Vec<FrontierProblem>)
    ensures
        frontier_problem_views(v@) == baseline_problems(views(f.baseline_keys@), f.metric@),
        worded(v@, *f),
{
    let keys = &f.baseline_keys;
    let metric = f.metric.as_str();
    let mut v: Vec<FrontierProblem> = Vec::new();
    if !names_contain(keys.as_slice(), metric) {
        push_frontier(&mut v, FrontierProblemKind::BaselineMissing, 0, metric, f);
    }
    if !names_contain(keys.as_slice(), "isa_score") {
        push_frontier(&mut v, FrontierProblemKind::BaselineMissing, 0, "isa_score", f);
    }
    if !names_contain(keys.as_slice(), "probe_pass_rate") {
        push_frontier(&mut v, FrontierProblemKind::BaselineMissing, 0, "probe_pass_rate", f);
    }
    proof {
        assert(frontier_problem_views(v@) =~= baseline_problems(views(keys@), metric@));
    }
    v
}

/// The problems of the attempt at position `p`.
fn attempt_check(f: &FrontierRecordFacts, p: usize) -> (v: Vec<FrontierProblem>)
    requires
        p < f.attempts@.len() <= usize::MAX,
    ensures
        frontier_problem_views(v@) == attempt_problems(f.attempts@[p as int], p as int),
        worded(v@, *f),
{
    let a = &f.attempts[p];
    let mut v: Vec<FrontierProblem> = Vec::new();
    proof {
        assert(frontier_problem_views(v@) =~= Seq::<FrontierProblemView>::empty());
    }
    push_frontier_if(&mut v, a.index != p as u64 + 1, FrontierProblemKind::IndexMismatch, p, f);
    push_frontier_if(&mut v, a.gap_out_of_range, FrontierProblemKind::GapOutOfRange, p, f);
    push_frontier_if(
        &mut v,
        a.verdict == Verdict::Unverified,
        FrontierProblemKind::UnverifiedAttempt,
        p,
        f,
    );
    let moves = a.verdict.advances_frontier() && a.gap_exceeds_frontier;
    let broken = if moves {
        a.frontier_off_gap
    } else {
        a.frontier_off_previous
    };
    push_frontier_if(&mut v, broken, FrontierProblemKind::FrontierInvariant(moves), p, f);
    push_frontier_if(&mut v, a.frontier_decreased, FrontierProblemKind::FrontierDecreased, p, f);
    proof {
        assert(frontier_problem_views(v@) =~= attempt_problems(*a, p as int));
    }
    v
}

/// Append the problems of `extra` to `v`.
fn append_problems(v: &mut Vec<FrontierProblem>, extra: Vec<FrontierProblem>, f: &FrontierRecordFacts)
    requires
        worded(old(v)@, *f),
        worded(extra@, *f),
    ensures
        frontier_problem_views(final(v)@) == frontier_problem_views(old(v)@)
            + frontier_problem_views(extra@),
        worded(final(v)@, *f),
{
    let ghost e = extra@;
    let mut extra = extra;
    v.append(&mut extra);
    proof {
        assert(v@ =~= old(v)@ + e);
        assert(frontier_problem_views(v@) =~= frontier_problem_views(old(v)@)
            + frontier_problem_views(e));
        assert forall|k: int| 0 <= k < v@.len() implies (#[trigger] v@[k]).message@
            == frontier_message((v@[k].kind, v@[k].attempt as int, v@[k].key@), *f) by {
            if k < old(v)@.len() {
                assert(v@[k] == old(v)@[k]);
            } else {
                assert(v@[k] == e[k - old(v)@.len()]);
            }
        }
    }
}

/// The problems of the attempts, in turn.
fn attempts_check(f: &FrontierRecordFacts) -> (v: Vec<FrontierProblem>)
    ensures
        frontier_problem_views(v@) == attempts_problems(f.attempts@),
        worded(v@, *f),
{
    let mut v: Vec<FrontierProblem> = Vec::new();
    proof {
        assert(frontier_problem_views(v@) =~= attempts_problems(f.attempts@.subrange(0, 0)));
    }
    let mut p: usize = 0;
    while p < f.attempts.len()
        invariant
            p <= f.attempts.len(),
            worded(v@, *f),
            frontier_problem_views(v@) == attempts_problems(f.attempts@.subrange(0, p as int)),
        decreases f.attempts.len() - p,
    {
        proof {
            assert(f.attempts@.subrange(0, p + 1).drop_last() =~= f.attempts@.subrange(
                0,
                p as int,
            ));
            assert(f.attempts@.subrange(0, p + 1).last() == f.attempts@[p as int]);
        }
        append_problems(&mut v, attempt_check(f, p), f);
        p = p + 1;
    }
    proof {
        assert(f.attempts@.subrange(0, f.attempts@.len() as int) =~= f.attempts@);
    }
    v
}

/// The final-frontier and count problems of a record.
fn record_tail_check(f: &FrontierRecordFacts) -> (v: Vec<FrontierProblem>)
    ensures
        frontier_problem_views(v@) == record_tail_problems(*f),
        worded(v@, *f),
{
    let rejected = count_record_rejects(f);
    let mut v: Vec<FrontierProblem> = Vec::new();
    proof {
        assert(frontier_problem_views(v@) =~= Seq::<FrontierProblemView>::empty());
    }
    push_frontier_if(&mut v, f.final_mismatch, FrontierProblemKind::FinalMismatch, 0, f);
    push_frontier_if(
        &mut v,
        f.methods_tried != f.attempts.len() as u64,
        FrontierProblemKind::TriedMismatch,
        0,
        f,
    );
    push_frontier_if(
        &mut v,
        f.methods_rejected != rejected,
        FrontierProblemKind::RejectedMismatch,
        0,
        f,
    );
    proof {
        assert(frontier_problem_views(v@) =~= record_tail_problems(*f));
    }
    v
}

/// Validate a stored frontier record: the problems of `frontier_problems`,
/// in that order, each worded as `frontier_message` words it; an empty list
/// means the record is valid.
pub fn frontier_record_problems(f: &FrontierRecordFacts) -> (v: Vec<FrontierProblem>)
    requires
        f.well_formed(),
    ensures
        frontier_problem_views(v@) == frontier_problems(*f),
        worded(v@, *f),
{
    let mut v = record_header_check(f);
    append_problems(&mut v, baseline_check(f), f);
    append_problems(&mut v, attempts_check(f), f);
    append_problems(&mut v, record_tail_check(f), f);
    v
}

/// When the attempts have no problem, neither has any one of them.
pub proof fn lemma_attempts_problem_free(attempts: Seq<AttemptFacts>)
    requires
        attempts_problems(attempts) == Seq::<FrontierProblemView>::empty(),
    ensures
        forall|i: int|
            0 <= i < attempts.len() ==> attempt_problems(#[trigger] attempts[i], i) == Seq::<
                FrontierProblemView,
            >::empty(),
    decreases attempts.len(),
{
    if attempts.len() > 0 {
        let a0 = attempts.drop_last();
        let last = attempts.len() - 1;
        let p0 = attempts_problems(a0);
        let pl = attempt_problems(attempts[last], last);
        assert(attempts_problems(attempts) == p0 + pl);
        assert(p0.len() == 0 && pl.len() == 0);
        lemma_attempts_problem_free(a0);
        assert forall|i: int| 0 <= i < attempts.len() implies attempt_problems(
            #[trigger] attempts[i],
            i,
        ) == Seq::<FrontierProblemView>::empty() by {
            if i < last {
                assert(attempts[i] == a0[i]);
            }
        }
    }
}

/// What a record the validator accepts says of itself: the version, a
/// metric of the ten, a content-addressed scenario set and the three
/// baseline keys; attempts numbered 1, 2, ... in order, with gaps in
/// [0, 1] and no `unverified` verdict; each attempt's frontier equal to its
/// gap when it is an accepted attempt whose gap exceeds the frontier before
/// it, and equal to that frontier otherwise, never below it;
/// `frontier_final` equal to the last frontier; and counts of the attempts
/// and of the rejections among them.
pub proof fn lemma_accepted_record_is_sound(f: FrontierRecordFacts)
    requires
        frontier_problems(f) == Seq::<FrontierProblemView>::empty(),
    ensures
        f.version@ == FRONTIER_VERSION@,
        is_metric_name(f.metric@),
        has_prefix(f.scenario_set@, "sha256:"@),
        views(f.baseline_keys@).contains(f.metric@),
        views(f.baseline_keys@).contains("isa_score"@),
        views(f.baseline_keys@).contains("probe_pass_rate"@),
        forall|i: int|
            0 <= i < f.attempts@.len() ==> {
                let a = #[trigger] f.attempts@[i];
                &&& a.index == i + 1
                &&& !a.gap_out_of_range
                &&& a.verdict != Verdict::Unverified
                &&& (a.verdict.advances_frontier() && a.gap_exceeds_frontier) ==> !a.frontier_off_gap
                &&& !(a.verdict.advances_frontier() && a.gap_exceeds_frontier)
                    ==> !a.frontier_off_previous
                &&& !a.frontier_decreased
            },
        !f.final_mismatch,
        f.methods_tried == f.attempts@.len(),
        f.methods_rejected == reject_count(attempt_verdicts(f.attempts@)),
{
    let h = record_header_problems(f);
    let b = baseline_problems(views(f.baseline_keys@), f.metric@);
    let at = attempts_problems(f.attempts@);
    let t = record_tail_problems(f);
    assert(frontier_problems(f) == h + b + at + t);
    assert(h.len() == 0 && b.len() == 0 && at.len() == 0 && t.len() == 0);
    lemma_attempts_problem_free(f.attempts@);
    assert forall|i: int| 0 <= i < f.attempts@.len() implies {
        let a = #[trigger] f.attempts@[i];
        &&& a.index == i + 1
        &&& !a.gap_out_of_range
        &&& a.verdict != Verdict::Unverified
        &&& (a.verdict.advances_frontier() && a.gap_exceeds_frontier) ==> !a.frontier_off_gap
        &&& !(a.verdict.advances_frontier() && a.gap_exceeds_frontier) ==> !a.frontier_off_previous
        &&& !a.frontier_decreased
    } by {
        let a = f.attempts@[i];
        assert(attempt_problems(a, i).len() == 0);
    }
    if f.final_mismatch || f.methods_tried != f.attempts@.len() || f.methods_rejected
        != reject_count(attempt_verdicts(f.attempts@)) {
        assert(t.len() > 0);
    }
    if f.version@ != FRONTIER_VERSION@ || !is_metric_name(f.metric@) || !has_prefix(
        f.scenario_set@,
        "sha256:"@,
    ) {
        assert(h.len() > 0);
    }
}

} // verus!
