//! Batch file renaming, planned before it is carried out.
//!
//! A [`Renamer`] collects `(source, target)` pairs. Planning drops the pairs
//! that would change nothing and orders the rest by target; the resulting
//! [`Plan`] can be rendered, and then applied one operation at a time.
//!
//! The library itself never touches the file system: applying a plan yields
//! the requests to perform, and takes back what the file system answered.

pub mod collator;
pub mod error;
pub mod fsutil;
pub mod operation;
pub mod order;
pub mod plan;
pub mod renamer;
pub mod sort;

pub use self::error::{ApplyError, ApplyErrorDetails, Error, IoFailure, IoFailureKind, PlanError};
pub use self::operation::{Action, Event, Rename, Stage, Step, Style};
pub use self::order::{Collation, TargetOrder};
pub use self::plan::{Execution, Plan};
pub use self::renamer::Renamer;
