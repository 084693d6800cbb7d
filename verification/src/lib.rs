//! The engine of a course-assignment manager: ruleset execution and outcome
//! classification, submission timing against due dates with grace and
//! extension days, score snapshots with ranking, and the course and
//! assignment configuration model. Everything here is verified; the
//! surrounding command-line program drives these functions and performs the
//! filesystem and subprocess work they decide.

pub mod actions;
pub mod asgn;
pub mod context;
pub mod dates;
pub mod error;
pub mod rules;
pub mod stats;
pub mod strutil;
pub mod submission;
pub mod table;

pub use asgn::{AsgnSpec, AsgnSpecToml};
pub use context::{Context, CourseToml, Role};
pub use dates::LocalDatetime;
pub use error::{Error, ErrorLog, FilePresenceErrorKind, InactiveKind};
pub use rules::{MetricMap, MetricValue, Rule, RuleEvent, Ruleset, RunState, RunSummary, SubmissionFatal};
pub use stats::{RankRow, StatBlock, StatBlockSet};
pub use submission::{SubmissionSlot, SubmissionStatus};
pub use table::Table;
