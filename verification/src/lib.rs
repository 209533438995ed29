//! Runtime posture checking for Linux-hosted processes: a policy, the facts
//! observed about the host, and the report that weighs one against the other.
use vstd::prelude::*;

pub mod checks;
pub mod cli;
pub mod policy;
pub mod report;
pub mod startup;
pub mod text;

pub use checks::HostSnapshot;
pub use policy::Policy;
pub use report::{
    Finding, FindingSection, FindingSeverity, FsReport, IdentityReport, NetworkReport,
    PostureReport, PostureStatus, SandboxReport,
};

use checks::{host_readable, host_report};
use text::concat2;

verus! {

/// Why a posture check could not produce a report.
#[derive(Debug)]
pub enum Error {
    /// The policy file could not be read.
    Io(String),
    /// The policy text is not valid JSON for a policy.
    Json(String),
    /// The policy text is not valid YAML for a policy.
    Yaml(String),
    /// The format hint names no supported policy format.
    InvalidPolicyFormat(String),
}

/// The message of an error: what went wrong, then the detail it carries.
pub open spec fn error_text(e: Error) -> Seq<char> {
    match e {
        Error::Io(m) => "io error: "@ + m@,
        Error::Json(m) => "json error: "@ + m@,
        Error::Yaml(m) => "yaml error: "@ + m@,
        Error::InvalidPolicyFormat(f) => "invalid policy format: "@ + f@,
    }
}

impl Error {
    /// The message of the error, as it is shown to a user.
    pub fn message(&self) -> (r: String)
        ensures
            r@ == error_text(*self),
    {
        match self {
            Error::Io(m) => concat2("io error: ", m.as_str()),
            Error::Json(m) => concat2("json error: ", m.as_str()),
            Error::Yaml(m) => concat2("yaml error: ", m.as_str()),
            Error::InvalidPolicyFormat(f) => concat2("invalid policy format: ", f.as_str()),
        }
    }
}

/// Checks the posture of the host described by `host` against `policy`.
pub fn check_posture(policy: &Policy, host: &HostSnapshot) -> (r: Result<PostureReport, Error>)
    requires
        host_readable(*host),
    ensures
        r is Ok,
        r matches Ok(rep) && rep@ == host_report(*policy, *host),
{
    checks::collect(policy, host)
}

} // verus!
