//! Gating application startup on the posture.
use vstd::prelude::*;

use crate::report::{PostureReport, PostureStatus};
use crate::{Error, error_text};
use crate::text::concat2;

verus! {

/// Why startup was refused: the check itself failed, or the posture did.
#[derive(Debug)]
pub enum StartupError {
    Core(Error),
    Failed(PostureReport),
}

impl From<Error> for StartupError {
    /// A failed check becomes the `Core` refusal.
    fn from(value: Error) -> (r: Self) {
        StartupError::Core(value)
    }
}

impl vstd::std_specs::convert::FromSpecImpl<Error> for StartupError {
    open spec fn obeys_from_spec() -> bool {
        true
    }

    open spec fn from_spec(v: Error) -> StartupError {
        StartupError::Core(v)
    }
}

/// Startup proceeds with the report unless the check failed or its status
/// is `Fail`.
pub fn require_startup_posture(checked: Result<PostureReport, Error>) -> (r: Result<
    PostureReport,
    StartupError,
>)
    ensures
        match checked {
            Err(e) => r == Err::<PostureReport, StartupError>(StartupError::Core(e)),
            Ok(rep) => if rep.status == PostureStatus::Fail {
                r == Err::<PostureReport, StartupError>(StartupError::Failed(rep))
            } else {
                r == Ok::<PostureReport, StartupError>(rep)
            },
        },
{
    let report = match checked {
        Ok(rep) => rep,
        Err(e) => {
            return Err(StartupError::Core(e));
        },
    };
    if report.status == PostureStatus::Fail {
        return Err(StartupError::Failed(report));
    }
    Ok(report)
}

/// The lower-case name of a status.
pub open spec fn status_name(s: PostureStatus) -> Seq<char> {
    match s {
        PostureStatus::Pass => "pass"@,
        PostureStatus::Warn => "warn"@,
        PostureStatus::Fail => "fail"@,
        PostureStatus::Degraded => "degraded"@,
    }
}

/// The lower-case name of the report's status.
pub fn report_status(report: &PostureReport) -> (r: &'static str)
    ensures
        r@ == status_name(report.status),
{
    match report.status {
        PostureStatus::Pass => "pass",
        PostureStatus::Warn => "warn",
        PostureStatus::Fail => "fail",
        PostureStatus::Degraded => "degraded",
    }
}

/// The message of a startup refusal: the check's own error, or the failing
/// status.
pub open spec fn startup_text(e: StartupError) -> Seq<char> {
    match e {
        StartupError::Core(err) => error_text(err),
        StartupError::Failed(rep) => "southpaw failed startup checks (status="@ + status_name(
            rep.status,
        ) + ")"@,
    }
}

impl StartupError {
    /// The message of the refusal, as it is shown to a user.
    pub fn message(&self) -> (r: String)
        ensures
            r@ == startup_text(*self),
    {
        match self {
            StartupError::Core(err) => err.message(),
            StartupError::Failed(rep) => {
                let mut m = concat2("southpaw failed startup checks (status=", report_status(rep));
                m.append(")");
                m
            },
        }
    }
}

} // verus!
