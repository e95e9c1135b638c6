//! The rules of the `vexometer-efficacy-v2` report writer: what it
//! refuses and what it warns of.
use vstd::prelude::*;

use crate::error::{EfficacyError, ErrorView, ISSUE_D1};
use crate::text::{
    decimal, decimal_text, has_substring, is_blank, is_blank_spec, join_text, joined,
    text_contains, views,
};
use crate::verdict::Verdict;

verus! {

/// The version tag of efficacy reports.
pub const EFFICACY_VERSION: &'static str = "vexometer-efficacy-v2";

/// The version tag of frontier records.
pub const FRONTIER_VERSION: &'static str = "vexometer-frontier-v1";

/// The capability proxy named in every report.
pub const PROBE_PROXY_PATH: &'static str = "data/probes/behavioural_probes.json";

/// Report-level metadata supplied by the caller rather than computed.
#[derive(Debug, Clone)]
pub struct ReportMeta {
    pub satellite: String,
    pub evaluation_date: String,
    pub sample_size: u64,
    pub scenario_set: String,
    pub methodology: String,
    pub traces_available: bool,
    pub verdict_notes: Option<String>,
    pub frontier_record: Option<String>,
}

/// The notes as text; absent notes read as empty text.
pub open spec fn notes_text(notes: Option<String>) -> Seq<char> {
    match notes {
        Some(n) => n@,
        None => Seq::empty(),
    }
}

/// The first metric of `warned`, from position `k` on, that `notes` does
/// not name.
pub open spec fn first_unnamed(warned: Seq<Seq<char>>, notes: Seq<char>, k: int) -> Option<
    Seq<char>,
>
    decreases warned.len() - k,
{
    if k < 0 || k >= warned.len() {
        None
    } else if !has_substring(notes, warned[k]) {
        Some(warned[k])
    } else {
        first_unnamed(warned, notes, k + 1)
    }
}

/// Why a report may not be written, if it may not: an
/// `accept_with_warning` verdict must come with notes that name every
/// metric in the warning band.
pub open spec fn notes_refusal(verdict: Verdict, warned: Seq<Seq<char>>, notes: Option<String>) -> Option<
    Seq<char>,
> {
    if verdict == Verdict::AcceptWithWarning {
        if is_blank_spec(notes_text(notes)) {
            Some(
                "verdict is accept_with_warning: the regressed metric(s) ("@ + joined(
                    warned,
                    ", "@,
                ) + ") must be named in verdict_notes (pass --notes)"@,
            )
        } else if first_unnamed(warned, notes_text(notes), 0) is Some {
            Some(
                "verdict_notes must name regressed metric "@ + first_unnamed(
                    warned,
                    notes_text(notes),
                    0,
                )->0,
            )
        } else {
            None
        }
    } else {
        None
    }
}

/// The warning given when a report with several targets names a single
/// frontier record (the plurality of `frontier_record` awaits ruling D1d).
pub open spec fn plurality_warning(target_count: nat) -> Seq<char> {
    "frontier_record is a single reference but the report has "@ + decimal(target_count)
        + " targets; plurality is undecided -- awaiting ruling D1d (see "@ + ISSUE_D1@ + ")"@
}

/// The non-fatal warnings of a report.
pub open spec fn report_warnings(target_count: nat, meta: ReportMeta) -> Seq<Seq<char>> {
    if target_count > 1 && meta.frontier_record is Some {
        seq![plurality_warning(target_count)]
    } else {
        Seq::empty()
    }
}

/// The report writer's checks. Refuses an `accept_with_warning` verdict
/// whose notes are blank or fail to name a metric of `warned_metrics` (the
/// metrics in the warning band); otherwise returns the non-fatal warnings
/// (the D1d plurality warning when there are several targets and a
/// frontier record).
#[verifier::loop_isolation(false)]
pub fn check_report(
    verdict: Verdict,
    warned_metrics: &Vec<String>,
    target_count: usize,
    meta: &ReportMeta,
) -> (r: Result<Vec<String>, EfficacyError>)
    ensures
        r is Err <==> notes_refusal(verdict, views(warned_metrics@), meta.verdict_notes) is Some,
        r matches Err(e) ==> e@ == ErrorView::Data(
            notes_refusal(verdict, views(warned_metrics@), meta.verdict_notes)->0,
        ),
        r matches Ok(w) ==> views(w@) == report_warnings(target_count as nat, *meta),
{
    if verdict == Verdict::AcceptWithWarning {
        let notes: &str = match &meta.verdict_notes {
            Some(n) => n.as_str(),
            None => {
                proof {
                    reveal_strlit("");
                }
                ""
            },
        };
        if is_blank(notes) {
            let mut msg = "verdict is accept_with_warning: the regressed metric(s) (".to_owned();
            msg.push_str(join_text(warned_metrics, ", ").as_str());
            msg.push_str(") must be named in verdict_notes (pass --notes)");
            return Err(EfficacyError::Data(msg));
        }
        let ghost wnames = views(warned_metrics@);
        let mut k: usize = 0;
        while k < warned_metrics.len()
            invariant
                k <= warned_metrics.len(),
                wnames == views(warned_metrics@),
                notes@ == notes_text(meta.verdict_notes),
                first_unnamed(wnames, notes@, 0) == first_unnamed(wnames, notes@, k as int),
            decreases warned_metrics.len() - k,
        {
            proof {
                assert(wnames[k as int] == warned_metrics@[k as int]@);
            }
            if !text_contains(notes, warned_metrics[k].as_str()) {
                let mut msg = "verdict_notes must name regressed metric ".to_owned();
                msg.push_str(warned_metrics[k].as_str());
                return Err(EfficacyError::Data(msg));
            }
            k = k + 1;
        }
    }
    let mut warnings: Vec<String> = Vec::new();
    if target_count > 1 && meta.frontier_record.is_some() {
        let mut w = "frontier_record is a single reference but the report has ".to_owned();
        w.push_str(decimal_text(target_count as u64).as_str());
        w.push_str(" targets; plurality is undecided -- awaiting ruling D1d (see ");
        w.push_str(ISSUE_D1);
        w.push_str(")");
        warnings.push(w);
        proof {
            assert(views(warnings@) =~= seq![plurality_warning(target_count as nat)]);
        }
    } else {
        proof {
            assert(views(warnings@) =~= Seq::<Seq<char>>::empty());
        }
    }
    Ok(warnings)
}

/// `first_unnamed` from position `k` finds a metric exactly when some
/// metric from `k` on is not named in the notes.
pub proof fn lemma_first_unnamed_some(warned: Seq<Seq<char>>, notes: Seq<char>, k: int)
    requires
        0 <= k,
    ensures
        first_unnamed(warned, notes, k) is Some <==> exists|j: int|
            k <= j < warned.len() && !has_substring(notes, #[trigger] warned[j]),
        first_unnamed(warned, notes, k) matches Some(m) ==> !has_substring(notes, m)
            && warned.contains(m),
    decreases warned.len() - k,
{
    if k < warned.len() {
        lemma_first_unnamed_some(warned, notes, k + 1);
        if has_substring(notes, warned[k]) {
            if exists|j: int| k <= j < warned.len() && !has_substring(notes, #[trigger] warned[j]) {
                let j = choose|j: int| k <= j < warned.len() && !has_substring(notes, #[trigger] warned[j]);
                assert(j != k);
            }
        }
    }
}

/// The writer refuses a report exactly when its verdict is
/// `accept_with_warning` and its notes are blank or fail to name some
/// metric in the warning band; a report with any other verdict is always
/// written, with or without notes. A refusal over named metrics reports a
/// warned metric the notes do not name.
pub proof fn lemma_notes_refused_exactly(verdict: Verdict, warned: Seq<Seq<char>>, notes: Option<String>)
    ensures
        notes_refusal(verdict, warned, notes) is Some <==> (verdict == Verdict::AcceptWithWarning && (
        is_blank_spec(notes_text(notes)) || exists|j: int|
            0 <= j < warned.len() && !has_substring(notes_text(notes), #[trigger] warned[j]))),
        verdict != Verdict::AcceptWithWarning ==> notes_refusal(verdict, warned, notes) is None,
        verdict == Verdict::AcceptWithWarning && !is_blank_spec(notes_text(notes))
            && notes_refusal(verdict, warned, notes) is Some ==> exists|m: Seq<char>|
            warned.contains(m) && !has_substring(notes_text(notes), m)
                && notes_refusal(verdict, warned, notes) == Some(
                "verdict_notes must name regressed metric "@ + m,
            ),
{
    lemma_first_unnamed_some(warned, notes_text(notes), 0);
    if verdict == Verdict::AcceptWithWarning && !is_blank_spec(notes_text(notes)) {
        if let Some(m) = first_unnamed(warned, notes_text(notes), 0) {
            assert(warned.contains(m) && !has_substring(notes_text(notes), m));
        }
    }
}

} // verus!
