//! The rules of the vexometer ISA efficacy protocol: the metric catalogue,
//! the acceptance rule and its precedence order, the evaluator's refusals
//! (including the open D1 questions, which are refused rather than
//! guessed), the report and frontier-record writers' rules, and the two
//! validators, with the laws that tie writers and validators together.

pub mod agreement;
pub mod efficacy_validation;
pub mod error;
pub mod evaluation;
pub mod frontier;
pub mod frontier_validation;
pub mod metric;
pub mod probes;
pub mod report;
pub mod text;
pub mod verdict;

pub use error::{EfficacyError, ISSUE_D1};
pub use metric::known_metric;
pub use probes::ProbeMeasurement;
pub use report::{ReportMeta, EFFICACY_VERSION, FRONTIER_VERSION, PROBE_PROXY_PATH};
pub use verdict::Verdict;
