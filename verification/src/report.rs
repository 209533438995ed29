//! The posture report: findings, observed facts, and the status they add up to.
use vstd::prelude::*;

use crate::policy::{Policy, RunMode, SeverityPolicy};
use crate::text::strs_of;

verus! {

/// The overall outcome of a posture check.
#[derive(Debug, Clone, Copy, PartialEq, Eq, Structural)]
pub enum PostureStatus {
    Pass,
    Warn,
    Fail,
    Degraded,
}

/// How serious a single finding is.
#[derive(Debug, Clone, Copy, PartialEq, Eq, Structural)]
pub enum FindingSeverity {
    Info,
    Warn,
    Fail,
}

/// The part of the posture a finding is about.
#[derive(Debug, Clone, Copy, PartialEq, Eq, Structural)]
pub enum FindingSection {
    Identity,
    Filesystem,
    Sandbox,
    Network,
    Runtime,
}

/// One observation that adds risk to the posture. `details` holds key/value
/// pairs with distinct keys, in ascending key order.
#[derive(Debug)]
pub struct Finding {
    pub id: String,
    pub section: FindingSection,
    pub message: String,
    pub severity: FindingSeverity,
    pub score: u32,
    pub details: Vec<(String, String)>,
}

/// What was observed about the identity of the process.
#[derive(Debug)]
pub struct IdentityReport {
    pub uid: Option<u32>,
    pub effective_uid: Option<u32>,
    pub gid: Option<u32>,
    pub effective_gid: Option<u32>,
    pub is_root: bool,
    pub effective_caps: Vec<String>,
    pub setuid_mismatch: bool,
    pub setgid_mismatch: bool,
}

/// What was observed about the mounted filesystems.
#[derive(Debug)]
pub struct FsReport {
    pub writable_paths: Vec<String>,
    pub root_is_writable: bool,
    pub suspicious_mounts: Vec<String>,
}

/// What was observed about kernel sandboxing.
#[derive(Debug)]
pub struct SandboxReport {
    pub seccomp_mode: Option<u8>,
    pub no_new_privs: Option<bool>,
    pub apparmor_enabled: Option<bool>,
    pub apparmor_profile: Option<String>,
    pub selinux_enforcing: Option<bool>,
}

/// What was observed about network reachability.
#[derive(Debug, Clone, Copy, PartialEq, Eq, Structural)]
pub struct NetworkReport {
    pub metadata_probe_attempted: bool,
    pub metadata_reachable: Option<bool>,
}

/// The result of a posture check.
#[derive(Debug)]
pub struct PostureReport {
    pub status: PostureStatus,
    pub risk_total: u32,
    pub warn_threshold: u32,
    pub fail_threshold: u32,
    pub findings: Vec<Finding>,
    pub identity: IdentityReport,
    pub filesystem: FsReport,
    pub sandbox: SandboxReport,
    pub network: NetworkReport,
}

// ---------------------------------------------------------------------------
// Mathematical model
// ---------------------------------------------------------------------------

/// A finding with its strings as character sequences.
#[verifier::ext_equal]
pub struct FindingView {
    pub id: Seq<char>,
    pub section: FindingSection,
    pub message: Seq<char>,
    pub severity: FindingSeverity,
    pub score: u32,
    pub details: Seq<(Seq<char>, Seq<char>)>,
}

/// The identity part of a report as mathematical values.
#[verifier::ext_equal]
pub struct IdentityView {
    pub uid: Option<u32>,
    pub effective_uid: Option<u32>,
    pub gid: Option<u32>,
    pub effective_gid: Option<u32>,
    pub is_root: bool,
    pub effective_caps: Seq<Seq<char>>,
    pub setuid_mismatch: bool,
    pub setgid_mismatch: bool,
}

/// The filesystem part of a report as mathematical values.
#[verifier::ext_equal]
pub struct FsView {
    pub writable_paths: Seq<Seq<char>>,
    pub root_is_writable: bool,
    pub suspicious_mounts: Seq<Seq<char>>,
}

/// The sandbox part of a report as mathematical values.
#[verifier::ext_equal]
pub struct SandboxView {
    pub seccomp_mode: Option<u8>,
    pub no_new_privs: Option<bool>,
    pub apparmor_enabled: Option<bool>,
    pub apparmor_profile: Option<Seq<char>>,
    pub selinux_enforcing: Option<bool>,
}

/// A report as mathematical values.
#[verifier::ext_equal]
pub struct ReportView {
    pub status: PostureStatus,
    pub risk_total: u32,
    pub warn_threshold: u32,
    pub fail_threshold: u32,
    pub findings: Seq<FindingView>,
    pub identity: IdentityView,
    pub filesystem: FsView,
    pub sandbox: SandboxView,
    pub network: NetworkReport,
}

/// The views of key/value detail pairs.
pub open spec fn pairs_of(d: Seq<(String, String)>) -> Seq<(Seq<char>, Seq<char>)> {
    d.map_values(|p: (String, String)| (p.0@, p.1@))
}

impl View for Finding {
    type V = FindingView;

    open spec fn view(&self) -> FindingView {
        FindingView {
            id: self.id@,
            section: self.section,
            message: self.message@,
            severity: self.severity,
            score: self.score,
            details: pairs_of(self.details@),
        }
    }
}

impl View for IdentityReport {
    type V = IdentityView;

    open spec fn view(&self) -> IdentityView {
        IdentityView {
            uid: self.uid,
            effective_uid: self.effective_uid,
            gid: self.gid,
            effective_gid: self.effective_gid,
            is_root: self.is_root,
            effective_caps: strs_of(self.effective_caps@),
            setuid_mismatch: self.setuid_mismatch,
            setgid_mismatch: self.setgid_mismatch,
        }
    }
}

impl View for FsReport {
    type V = FsView;

    open spec fn view(&self) -> FsView {
        FsView {
            writable_paths: strs_of(self.writable_paths@),
            root_is_writable: self.root_is_writable,
            suspicious_mounts: strs_of(self.suspicious_mounts@),
        }
    }
}

impl View for SandboxReport {
    type V = SandboxView;

    open spec fn view(&self) -> SandboxView {
        SandboxView {
            seccomp_mode: self.seccomp_mode,
            no_new_privs: self.no_new_privs,
            apparmor_enabled: self.apparmor_enabled,
            apparmor_profile: match self.apparmor_profile {
                Some(p) => Some(p@),
                None => None,
            },
            selinux_enforcing: self.selinux_enforcing,
        }
    }
}

/// The views of a sequence of findings.
pub open spec fn findings_of(f: Seq<Finding>) -> Seq<FindingView> {
    f.map_values(|x: Finding| x@)
}

impl View for PostureReport {
    type V = ReportView;

    open spec fn view(&self) -> ReportView {
        ReportView {
            status: self.status,
            risk_total: self.risk_total,
            warn_threshold: self.warn_threshold,
            fail_threshold: self.fail_threshold,
            findings: findings_of(self.findings@),
            identity: self.identity@,
            filesystem: self.filesystem@,
            sandbox: self.sandbox@,
            network: self.network,
        }
    }
}

/// Whether `a` comes strictly before `b` in the order of strings: the first
/// differing character decides by its code, and a proper prefix comes first.
pub open spec fn chars_less(a: Seq<char>, b: Seq<char>) -> bool
    decreases a.len(),
{
    if b.len() == 0 {
        false
    } else if a.len() == 0 {
        true
    } else if a[0] != b[0] {
        (a[0] as u32) < (b[0] as u32)
    } else {
        chars_less(a.skip(1), b.skip(1))
    }
}

/// Whether the detail pairs are in strictly ascending key order, as a map
/// from keys to values lists them (so no key occurs twice).
pub open spec fn keys_ascending(d: Seq<(Seq<char>, Seq<char>)>) -> bool {
    forall|i: int, j: int| 0 <= i < j < d.len() ==> chars_less(d[i].0, d[j].0)
}

/// The report that a check starts from: passing, with nothing observed.
pub open spec fn empty_report() -> ReportView {
    ReportView {
        status: PostureStatus::Pass,
        risk_total: 0,
        warn_threshold: 0,
        fail_threshold: 0,
        findings: Seq::empty(),
        identity: IdentityView {
            uid: None,
            effective_uid: None,
            gid: None,
            effective_gid: None,
            is_root: false,
            effective_caps: Seq::empty(),
            setuid_mismatch: false,
            setgid_mismatch: false,
        },
        filesystem: FsView {
            writable_paths: Seq::empty(),
            root_is_writable: false,
            suspicious_mounts: Seq::empty(),
        },
        sandbox: SandboxView {
            seccomp_mode: None,
            no_new_privs: None,
            apparmor_enabled: None,
            apparmor_profile: None,
            selinux_enforcing: None,
        },
        network: NetworkReport { metadata_probe_attempted: false, metadata_reachable: None },
    }
}

/// `r` with the finding `f` added after the others.
pub open spec fn with_finding(r: ReportView, f: FindingView) -> ReportView {
    ReportView { findings: r.findings.push(f), ..r }
}

/// The sum of the scores of `fs`.
pub open spec fn total_score(fs: Seq<FindingView>) -> nat
    decreases fs.len(),
{
    if fs.len() == 0 {
        0
    } else {
        total_score(fs.drop_last()) + fs.last().score as nat
    }
}

/// Whether some finding of `fs` has severity `sev`.
pub open spec fn has_severity(fs: Seq<FindingView>, sev: FindingSeverity) -> bool {
    exists|i: int| 0 <= i < fs.len() && (#[trigger] fs[i]).severity == sev
}

/// The status that findings give before the run mode is applied: fail on a
/// failing finding or a total at the fail threshold, else warn on a warning
/// finding or a total at the warn threshold, else pass.
pub open spec fn base_status(fs: Seq<FindingView>, sev: SeverityPolicy) -> PostureStatus {
    if has_severity(fs, FindingSeverity::Fail) || total_score(fs) >= sev.fail_threshold {
        PostureStatus::Fail
    } else if has_severity(fs, FindingSeverity::Warn) || total_score(fs) >= sev.warn_threshold {
        PostureStatus::Warn
    } else {
        PostureStatus::Pass
    }
}

/// The status enforced under `mode`: warn mode turns fail into warn,
/// degraded mode turns every status but pass into degraded.
pub open spec fn mode_status(mode: RunMode, s: PostureStatus) -> PostureStatus {
    match mode {
        RunMode::Warn => if s == PostureStatus::Fail {
            PostureStatus::Warn
        } else {
            s
        },
        RunMode::Degraded => if s == PostureStatus::Pass {
            PostureStatus::Pass
        } else {
            PostureStatus::Degraded
        },
        RunMode::Fail => s,
    }
}

/// `r` evaluated against thresholds `sev` and run mode `mode`.
pub open spec fn evaluated(r: ReportView, sev: SeverityPolicy, mode: RunMode) -> ReportView {
    ReportView {
        status: mode_status(mode, base_status(r.findings, sev)),
        risk_total: total_score(r.findings) as u32,
        warn_threshold: sev.warn_threshold,
        fail_threshold: sev.fail_threshold,
        ..r
    }
}

// ---------------------------------------------------------------------------
// Operations
// ---------------------------------------------------------------------------

impl Default for IdentityReport {
    fn default() -> (r: Self)
        ensures
            r@ == empty_report().identity,
    {
        let r = IdentityReport {
            uid: None,
            effective_uid: None,
            gid: None,
            effective_gid: None,
            is_root: false,
            effective_caps: Vec::new(),
            setuid_mismatch: false,
            setgid_mismatch: false,
        };
        assert(r@.effective_caps =~= Seq::<Seq<char>>::empty());
        r
    }
}

impl Default for FsReport {
    fn default() -> (r: Self)
        ensures
            r@ == empty_report().filesystem,
    {
        let r = FsReport {
            writable_paths: Vec::new(),
            root_is_writable: false,
            suspicious_mounts: Vec::new(),
        };
        assert(r@.writable_paths =~= Seq::<Seq<char>>::empty());
        assert(r@.suspicious_mounts =~= Seq::<Seq<char>>::empty());
        r
    }
}

impl Default for SandboxReport {
    fn default() -> (r: Self)
        ensures
            r@ == empty_report().sandbox,
    {
        SandboxReport {
            seccomp_mode: None,
            no_new_privs: None,
            apparmor_enabled: None,
            apparmor_profile: None,
            selinux_enforcing: None,
        }
    }
}

impl Default for NetworkReport {
    fn default() -> (r: Self)
        ensures
            r == empty_report().network,
    {
        NetworkReport { metadata_probe_attempted: false, metadata_reachable: None }
    }
}

impl Default for PostureReport {
    fn default() -> (r: Self)
        ensures
            r@ == empty_report(),
    {
        PostureReport::empty()
    }
}

impl PostureReport {
    /// A passing report with no findings and nothing observed.
    pub fn empty() -> (r: Self)
        ensures
            r@ == empty_report(),
    {
        let r = PostureReport {
            status: PostureStatus::Pass,
            risk_total: 0,
            warn_threshold: 0,
            fail_threshold: 0,
            findings: Vec::new(),
            identity: IdentityReport::default(),
            filesystem: FsReport::default(),
            sandbox: SandboxReport::default(),
            network: NetworkReport::default(),
        };
        assert(r@.findings =~= Seq::<FindingView>::empty());
        r
    }

    /// Adds a finding without details after the existing ones.
    pub fn add_finding(
        &mut self,
        id: &str,
        section: FindingSection,
        message: &str,
        severity: FindingSeverity,
        score: u32,
    )
        ensures
            final(self)@ == with_finding(
                old(self)@,
                FindingView {
                    id: id@,
                    section,
                    message: message@,
                    severity,
                    score,
                    details: Seq::empty(),
                },
            ),
    {
        let f = Finding {
            id: id.to_owned(),
            section,
            message: message.to_owned(),
            severity,
            score,
            details: Vec::new(),
        };
        assert(f@.details =~= Seq::<(Seq<char>, Seq<char>)>::empty());
        self.findings.push(f);
        assert(findings_of(self.findings@) =~= findings_of(old(self).findings@).push(f@));
    }

    /// Adds a finding with key/value details after the existing ones.
    pub fn add_finding_with_details(
        &mut self,
        id: &str,
        section: FindingSection,
        message: &str,
        severity: FindingSeverity,
        score: u32,
        details: Vec<(String, String)>,
    )
        requires
            keys_ascending(pairs_of(details@)),
        ensures
            final(self)@ == with_finding(
                old(self)@,
                FindingView {
                    id: id@,
                    section,
                    message: message@,
                    severity,
                    score,
                    details: pairs_of(details@),
                },
            ),
    {
        let f = Finding {
            id: id.to_owned(),
            section,
            message: message.to_owned(),
            severity,
            score,
            details,
        };
        self.findings.push(f);
        assert(findings_of(self.findings@) =~= findings_of(old(self).findings@).push(f@));
    }

    /// Sets the risk total, the thresholds and the status from the findings
    /// and the policy's severity thresholds and run mode.
    pub fn evaluate_against(&mut self, policy: &Policy)
        requires
            total_score(old(self)@.findings) <= u32::MAX,
        ensures
            final(self)@ == evaluated(old(self)@, policy.severity, policy.enforcement.mode),
    {
        let ghost fs = self@.findings;
        let mut total: u64 = 0;
        let mut has_fail = false;
        let mut has_warn = false;
        let n = self.findings.len();
        for i in 0..n
            invariant
                n == self.findings.len(),
                fs == findings_of(self.findings@),
                total_score(fs) <= u32::MAX,
                total == total_score(fs.take(i as int)),
                has_fail == has_severity(fs.take(i as int), FindingSeverity::Fail),
                has_warn == has_severity(fs.take(i as int), FindingSeverity::Warn),
        {
            proof {
                let t = fs.take(i + 1);
                assert(t.drop_last() == fs.take(i as int));
                assert(t.last() == self.findings@[i as int]@);
                lemma_total_score_prefix(fs, i + 1);
                assert(has_severity(t, FindingSeverity::Fail) == (has_severity(
                    fs.take(i as int),
                    FindingSeverity::Fail,
                ) || t.last().severity == FindingSeverity::Fail)) by {
                    if has_severity(t, FindingSeverity::Fail) {
                        let k = choose|k: int|
                            0 <= k < t.len() && (#[trigger] t[k]).severity == FindingSeverity::Fail;
                        if k < i {
                            assert(fs.take(i as int)[k] == t[k]);
                        }
                    }
                    if has_severity(fs.take(i as int), FindingSeverity::Fail) {
                        let k = choose|k: int|
                            0 <= k < i && (#[trigger] fs.take(i as int)[k]).severity
                                == FindingSeverity::Fail;
                        assert(t[k] == fs.take(i as int)[k]);
                    }
                    if t.last().severity == FindingSeverity::Fail {
                        assert(t[i as int] == t.last());
                    }
                }
                assert(has_severity(t, FindingSeverity::Warn) == (has_severity(
                    fs.take(i as int),
                    FindingSeverity::Warn,
                ) || t.last().severity == FindingSeverity::Warn)) by {
                    if has_severity(t, FindingSeverity::Warn) {
                        let k = choose|k: int|
                            0 <= k < t.len() && (#[trigger] t[k]).severity == FindingSeverity::Warn;
                        if k < i {
                            assert(fs.take(i as int)[k] == t[k]);
                        }
                    }
                    if has_severity(fs.take(i as int), FindingSeverity::Warn) {
                        let k = choose|k: int|
                            0 <= k < i && (#[trigger] fs.take(i as int)[k]).severity
                                == FindingSeverity::Warn;
                        assert(t[k] == fs.take(i as int)[k]);
                    }
                    if t.last().severity == FindingSeverity::Warn {
                        assert(t[i as int] == t.last());
                    }
                }
            }
            let f = &self.findings[i];
            total = total + f.score as u64;
            match f.severity {
                FindingSeverity::Fail => {
                    has_fail = true;
                },
                FindingSeverity::Warn => {
                    has_warn = true;
                },
                FindingSeverity::Info => {},
            }
        }
        assert(fs.take(n as int) == fs);
        let total_score = total as u32;
        self.risk_total = total_score;
        self.warn_threshold = policy.severity.warn_threshold;
        self.fail_threshold = policy.severity.fail_threshold;
        let status = if has_fail || total_score >= policy.severity.fail_threshold {
            PostureStatus::Fail
        } else if has_warn || total_score >= policy.severity.warn_threshold {
            PostureStatus::Warn
        } else {
            PostureStatus::Pass
        };
        let status = match policy.enforcement.mode {
            RunMode::Warn => match status {
                PostureStatus::Fail => PostureStatus::Warn,
                other => other,
            },
            RunMode::Degraded => match status {
                PostureStatus::Pass => PostureStatus::Pass,
                _ => PostureStatus::Degraded,
            },
            RunMode::Fail => status,
        };
        self.status = status;
    }
}

/// The total score of a prefix is at most the total score of the whole.
pub proof fn lemma_total_score_prefix(fs: Seq<FindingView>, k: int)
    requires
        0 <= k <= fs.len(),
    ensures
        total_score(fs.take(k)) <= total_score(fs),
    decreases fs.len() - k,
{
    if k < fs.len() {
        lemma_total_score_prefix(fs, k + 1);
        assert(fs.take(k + 1).drop_last() == fs.take(k));
    } else {
        assert(fs.take(k) == fs);
    }
}


// ---------------------------------------------------------------------------
// Laws of evaluation
// ---------------------------------------------------------------------------

/// How bad a status is: pass 0, warn and degraded 1, fail 2.
pub open spec fn status_rank(s: PostureStatus) -> int {
    match s {
        PostureStatus::Pass => 0,
        PostureStatus::Warn | PostureStatus::Degraded => 1,
        PostureStatus::Fail => 2,
    }
}

/// In warn mode no report evaluates to fail: a status that would fail is
/// reported as warn.
pub proof fn lemma_warn_mode_never_fails(r: ReportView, sev: SeverityPolicy)
    ensures
        evaluated(r, sev, RunMode::Warn).status != PostureStatus::Fail,
        base_status(r.findings, sev) == PostureStatus::Fail ==> evaluated(
            r,
            sev,
            RunMode::Warn,
        ).status == PostureStatus::Warn,
{
}

/// In degraded mode a report evaluates to pass when its findings pass and to
/// degraded otherwise.
pub proof fn lemma_degraded_mode(r: ReportView, sev: SeverityPolicy)
    ensures
        evaluated(r, sev, RunMode::Degraded).status == if base_status(r.findings, sev)
            == PostureStatus::Pass {
            PostureStatus::Pass
        } else {
            PostureStatus::Degraded
        },
{
}

/// In fail mode a failing finding makes the report fail, and a warning
/// finding makes it at least warn.
pub proof fn lemma_fail_mode_findings(r: ReportView, sev: SeverityPolicy, i: int)
    requires
        0 <= i < r.findings.len(),
    ensures
        r.findings[i].severity == FindingSeverity::Fail ==> evaluated(
            r,
            sev,
            RunMode::Fail,
        ).status == PostureStatus::Fail,
        r.findings[i].severity == FindingSeverity::Warn ==> status_rank(
            evaluated(r, sev, RunMode::Fail).status,
        ) >= 1,
{
    assert(r.findings[i] == r.findings[i]);
}

/// Under every mode a report passes exactly when it has no failing or
/// warning finding and its total is below both thresholds.
pub proof fn lemma_pass_iff_clean(r: ReportView, sev: SeverityPolicy, mode: RunMode)
    ensures
        (evaluated(r, sev, mode).status == PostureStatus::Pass) == (!has_severity(
            r.findings,
            FindingSeverity::Fail,
        ) && !has_severity(r.findings, FindingSeverity::Warn) && total_score(r.findings)
            < sev.fail_threshold && total_score(r.findings) < sev.warn_threshold),
{
}

/// Evaluating an evaluated report again changes nothing.
pub proof fn lemma_evaluate_idempotent(r: ReportView, sev: SeverityPolicy, mode: RunMode)
    ensures
        evaluated(evaluated(r, sev, mode), sev, mode) == evaluated(r, sev, mode),
{
}

/// The evaluation reads only the findings, the thresholds and the mode: two
/// reports with the same findings get the same status and risk total.
pub proof fn lemma_evaluate_reads_findings_only(
    r1: ReportView,
    r2: ReportView,
    sev: SeverityPolicy,
    mode: RunMode,
)
    requires
        r1.findings == r2.findings,
    ensures
        evaluated(r1, sev, mode).status == evaluated(r2, sev, mode).status,
        evaluated(r1, sev, mode).risk_total == evaluated(r2, sev, mode).risk_total,
{
}

/// Adding a finding never makes the evaluated status better, under every
/// mode.
pub proof fn lemma_finding_never_improves_status(
    r: ReportView,
    f: FindingView,
    sev: SeverityPolicy,
    mode: RunMode,
)
    ensures
        status_rank(evaluated(with_finding(r, f), sev, mode).status) >= status_rank(
            evaluated(r, sev, mode).status,
        ),
{
    let fs = r.findings;
    let gs = fs.push(f);
    assert(gs.drop_last() == fs);
    assert(total_score(gs) == total_score(fs) + f.score);
    if has_severity(fs, FindingSeverity::Fail) {
        let k = choose|k: int| 0 <= k < fs.len() && (#[trigger] fs[k]).severity == FindingSeverity::Fail;
        assert(gs[k] == fs[k]);
    }
    if has_severity(fs, FindingSeverity::Warn) {
        let k = choose|k: int| 0 <= k < fs.len() && (#[trigger] fs[k]).severity == FindingSeverity::Warn;
        assert(gs[k] == fs[k]);
    }
}

/// Adding a finding raises the total score of the findings, which the
/// evaluation makes the risk total, by exactly the finding's score.
pub proof fn lemma_finding_adds_its_score(r: ReportView, f: FindingView)
    ensures
        total_score(with_finding(r, f).findings) == total_score(r.findings) + f.score,
{
    assert(r.findings.push(f).drop_last() == r.findings);
}

} // verus!
