//! The errors of the evaluator and the record writer.
use vstd::prelude::*;

use crate::text::concat3;

verus! {

/// The owner-ruling issue batching the open normative questions.
pub const ISSUE_D1: &'static str = "https://github.com/hyperpolymath/vexometer/issues/69";

/// Why an evaluation, a report or a frontier append was refused.
#[derive(Debug)]
pub enum EfficacyError {
    /// The computation requires an answer to an open D1 question.
    AwaitingRuling { question: &'static str, detail: String },
    /// The input data is malformed or incomplete.
    Data(String),
}

/// An error as characters: which kind, and its texts.
pub enum ErrorView {
    AwaitingRuling { question: Seq<char>, detail: Seq<char> },
    Data(Seq<char>),
}

impl View for EfficacyError {
    type V = ErrorView;

    open spec fn view(&self) -> ErrorView {
        match self {
            EfficacyError::AwaitingRuling { question, detail } => ErrorView::AwaitingRuling {
                question: question@,
                detail: detail@,
            },
            EfficacyError::Data(msg) => ErrorView::Data(msg@),
        }
    }
}

/// The human-readable rendering of an error.
pub open spec fn error_message(e: ErrorView) -> Seq<char> {
    match e {
        ErrorView::AwaitingRuling { question, detail } => "awaiting ruling "@ + question
            + " (see "@ + ISSUE_D1@ + "): "@ + detail,
        ErrorView::Data(msg) => "invalid input: "@ + msg,
    }
}

impl EfficacyError {
    /// The human-readable rendering of the error.
    pub fn message(&self) -> (s: String)
        ensures
            s@ == error_message(self@),
    {
        match self {
            EfficacyError::AwaitingRuling { question, detail } => {
                let mut s = concat3("awaiting ruling ", question, " (see ");
                s.push_str(ISSUE_D1);
                s.push_str("): ");
                s.push_str(detail.as_str());
                s
            },
            EfficacyError::Data(msg) => {
                let mut s = "invalid input: ".to_owned();
                s.push_str(msg.as_str());
                s
            },
        }
    }
}

} // verus!
