//! What can go wrong: while planning, and while applying a plan.

use icu_collator::CollatorError;
use vstd::prelude::*;
use vstd::string::StringExecFns;

verus! {

/// How `std`'s `Debug` writes a string: in double quotes, with what needs it
/// escaped.
pub uninterp spec fn debug_quoted(text: Seq<char>) -> Seq<char>;

/// Formats a string with `{:?}`, `std`'s `Debug` for `str`.
///
/// Trusted: the outcome depends on the string alone; it is the named text.
#[verifier::external_body]
fn quoted(text: &str) -> (quoted: String)
    ensures
        quoted@ == debug_quoted(text@),
{
    format!("{:?}", text)
}

/// Formats a collator error with `{}`, its `Display` in `icu_collator`.
///
/// Trusted: nothing is claimed of the text.
#[verifier::external_body]
fn collator_error_text(error: &CollatorError) -> String {
    format!("{}", error)
}

/// The general error type for this crate.
#[derive(Debug)]
pub enum Error {
    /// A plan error.
    Plan(PlanError),
    /// An apply error.
    Apply(ApplyError),
}

/// The error type returned when planning.
#[derive(Debug)]
#[non_exhaustive]
pub enum PlanError {
    /// The collator for the natural order could not be created.
    IcuCollator(CollatorError),
}

/// Why the file system refused, as far as this library tells failures apart.
#[derive(Debug, Clone, Copy, PartialEq, Eq)]
#[non_exhaustive]
pub enum IoFailureKind {
    /// There is no entry at the path.
    NotFound,
    /// Anything else: permissions, a full disk, a move across devices.
    Other,
}

/// A failed file-system operation, as the caller reports it.
#[derive(Debug)]
pub struct IoFailure {
    /// The kind of failure.
    pub kind: IoFailureKind,
    /// The system's description of it.
    pub message: String,
}

/// The details of an [`ApplyError`].
#[derive(Debug)]
#[non_exhaustive]
pub enum ApplyErrorDetails {
    /// The target path already exists.
    TargetExists,
    /// An I/O error occurred.
    Io(IoFailure),
}

/// The error type returned when applying a plan: which operation failed, and
/// how.
#[derive(Debug)]
pub struct ApplyError {
    /// The source path of the rename operation.
    pub source: String,
    /// The target path of the rename operation.
    pub target: String,
    /// The details of the error.
    pub details: ApplyErrorDetails,
}

/// What an [`ApplyError`] says.
pub struct ApplyErrorView {
    pub source: Seq<char>,
    pub target: Seq<char>,
    pub details: ApplyErrorDetails,
}

impl View for ApplyError {
    type V = ApplyErrorView;

    open spec fn view(&self) -> ApplyErrorView {
        ApplyErrorView { source: self.source@, target: self.target@, details: self.details }
    }
}

impl IoFailure {
    /// A failure of the given kind, with the system's description.
    pub fn new(kind: IoFailureKind, message: String) -> (failure: Self)
        ensures
            failure == (IoFailure { kind, message }),
    {
        IoFailure { kind, message }
    }

    /// Whether the failure says that there is no entry at the path.
    pub fn is_not_found(&self) -> (not_found: bool)
        ensures
            not_found == (self.kind is NotFound),
    {
        match self.kind {
            IoFailureKind::NotFound => true,
            IoFailureKind::Other => false,
        }
    }
}

/// What the details of an error read as.
pub open spec fn details_text(details: ApplyErrorDetails) -> Seq<char> {
    match details {
        ApplyErrorDetails::TargetExists => "target already exists"@,
        ApplyErrorDetails::Io(failure) => failure.message@,
    }
}

/// What an error reads as.
pub open spec fn apply_error_text(error: ApplyErrorView) -> Seq<char> {
    "failed to rename "@ + debug_quoted(error.source) + " to "@ + debug_quoted(error.target)
        + ": "@ + details_text(error.details)
}

impl ApplyErrorDetails {
    /// The details in words.
    pub fn message(&self) -> (text: String)
        ensures
            text@ == details_text(*self),
    {
        match self {
            ApplyErrorDetails::TargetExists => "target already exists".to_owned(),
            ApplyErrorDetails::Io(failure) => failure.message.clone(),
        }
    }
}

impl ApplyError {
    /// An error about the operation from `source` to `target`.
    pub fn new(source: &str, target: &str, details: ApplyErrorDetails) -> (error: Self)
        ensures
            error@ == (ApplyErrorView { source: source@, target: target@, details }),
    {
        Self { source: source.to_owned(), target: target.to_owned(), details }
    }

    /// The target of the operation was there already.
    pub fn target_exists(source: &str, target: &str) -> (error: Self)
        ensures
            error@ == (ApplyErrorView {
                source: source@,
                target: target@,
                details: ApplyErrorDetails::TargetExists,
            }),
    {
        Self::new(source, target, ApplyErrorDetails::TargetExists)
    }

    /// The file system refused a step of the operation.
    pub fn from_io(from: &str, to: &str, failure: IoFailure) -> (error: Self)
        ensures
            error@ == (ApplyErrorView {
                source: from@,
                target: to@,
                details: ApplyErrorDetails::Io(failure),
            }),
    {
        Self::new(from, to, ApplyErrorDetails::Io(failure))
    }

    /// The failure underneath, where there is one.
    pub fn cause(&self) -> (cause: Option<&IoFailure>)
        ensures
            match self.details {
                ApplyErrorDetails::TargetExists => cause is None,
                ApplyErrorDetails::Io(failure) => cause == Some(&failure),
            },
    {
        match &self.details {
            ApplyErrorDetails::TargetExists => None,
            ApplyErrorDetails::Io(failure) => Some(failure),
        }
    }

    /// The error in words: the two paths as `Debug` writes them, then the
    /// details.
    pub fn message(&self) -> (text: String)
        ensures
            text@ == apply_error_text(self@),
    {
        let mut text = "failed to rename ".to_owned();
        text.append(quoted(&self.source).as_str());
        text.append(" to ");
        text.append(quoted(&self.target).as_str());
        text.append(": ");
        text.append(self.details.message().as_str());
        text
    }
}

impl PlanError {
    /// The error in words: that the collator could not be created, then the
    /// collator's own reason.
    pub fn message(&self) -> (text: String)
        ensures
            "could not create collator: "@.is_prefix_of(text@),
    {
        let mut text = "could not create collator: ".to_owned();
        match self {
            PlanError::IcuCollator(error) => {
                text.append(collator_error_text(error).as_str());
            },
        }
        text
    }
}

impl Error {
    /// The error in words: those of the error inside.
    pub fn message(&self) -> (text: String)
        ensures
            match self {
                Error::Plan(_) => "could not create collator: "@.is_prefix_of(text@),
                Error::Apply(error) => text@ == apply_error_text(error@),
            },
    {
        match self {
            Error::Plan(error) => error.message(),
            Error::Apply(error) => error.message(),
        }
    }
}

impl From<PlanError> for Error {
    fn from(error: PlanError) -> (wrapped: Error) {
        Error::Plan(error)
    }
}

impl vstd::std_specs::convert::FromSpecImpl<PlanError> for Error {
    open spec fn obeys_from_spec() -> bool {
        true
    }

    open spec fn from_spec(error: PlanError) -> Error {
        Error::Plan(error)
    }
}

impl From<ApplyError> for Error {
    fn from(error: ApplyError) -> (wrapped: Error) {
        Error::Apply(error)
    }
}

impl vstd::std_specs::convert::FromSpecImpl<ApplyError> for Error {
    open spec fn obeys_from_spec() -> bool {
        true
    }

    open spec fn from_spec(error: ApplyError) -> Error {
        Error::Apply(error)
    }
}

} // verus!
