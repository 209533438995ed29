//! Host posture collection: the Linux checks, or a warning on any other
//! platform.
use vstd::prelude::*;

pub mod linux;
pub mod procfs;

use crate::checks::linux::{LinuxHost, host_decodable, lemma_linux_report_consistent, linux_report};
use crate::policy::Policy;
use crate::report::{
    FindingSection, FindingSeverity, FindingView, PostureReport, ReportView, empty_report, evaluated,
    total_score, with_finding,
};
use crate::Error;

verus! {

/// What the collector observed: a Linux host, or a platform it does not
/// support.
#[derive(Debug)]
pub enum HostSnapshot {
    Linux(LinuxHost),
    Unsupported,
}

/// The report for a platform the collector does not support: one warning,
/// evaluated against the policy.
pub open spec fn unsupported_report(p: Policy) -> ReportView {
    evaluated(
        with_finding(
            empty_report(),
            FindingView {
                id: "runtime.platform_unsupported"@,
                section: FindingSection::Runtime,
                message: "Collector scaffold only supports Linux posture checks in this build"@,
                severity: FindingSeverity::Warn,
                score: 2,
                details: Seq::empty(),
            },
        ),
        p.severity,
        p.enforcement.mode,
    )
}

/// The report the collector gives for policy `p` on host `h`.
pub open spec fn host_report(p: Policy, h: HostSnapshot) -> ReportView {
    match h {
        HostSnapshot::Linux(l) => linux_report(p, l),
        HostSnapshot::Unsupported => unsupported_report(p),
    }
}

/// Whether what the host showed can be read by the collector.
pub open spec fn host_readable(h: HostSnapshot) -> bool {
    match h {
        HostSnapshot::Linux(l) => host_decodable(l),
        HostSnapshot::Unsupported => true,
    }
}

/// Runs the posture checks for the platform the host is on and evaluates the
/// report against the policy; the report is always produced.
pub fn collect(policy: &Policy, host: &HostSnapshot) -> (r: Result<PostureReport, Error>)
    requires
        host_readable(*host),
    ensures
        r is Ok,
        r matches Ok(rep) && rep@ == host_report(*policy, *host),
{
    match host {
        HostSnapshot::Linux(linux) => linux::collect(policy, linux),
        HostSnapshot::Unsupported => {
            let mut report = PostureReport::empty();
            report.add_finding(
                "runtime.platform_unsupported",
                FindingSection::Runtime,
                "Collector scaffold only supports Linux posture checks in this build",
                FindingSeverity::Warn,
                2,
            );
            proof {
                reveal_with_fuel(crate::report::total_score, 2);
            }
            report.evaluate_against(policy);
            Ok(report)
        },
    }
}

/// The collector's report agrees with its findings on every host: its risk
/// total is the plain sum of their scores, its thresholds are the policy's,
/// and evaluating it against the policy once more changes nothing.
pub proof fn lemma_host_report_consistent(p: Policy, h: HostSnapshot)
    ensures
        host_report(p, h).risk_total == total_score(host_report(p, h).findings),
        host_report(p, h).warn_threshold == p.severity.warn_threshold,
        host_report(p, h).fail_threshold == p.severity.fail_threshold,
        evaluated(host_report(p, h), p.severity, p.enforcement.mode) == host_report(p, h),
{
    match h {
        HostSnapshot::Linux(l) => lemma_linux_report_consistent(p, l),
        HostSnapshot::Unsupported => {
            reveal_with_fuel(total_score, 2);
        },
    }
}

} // verus!
