use southpaw::policy::{Policy, RunMode};
use southpaw::report::{FindingSection, FindingSeverity, PostureReport, PostureStatus};
use southpaw::startup::{report_status, require_startup_posture, StartupError};
use southpaw::Error;

fn policy_with_mode(mode: RunMode) -> Policy {
    let mut policy = Policy::default();
    policy.enforcement.mode = mode;
    policy
}

#[test]
fn evaluates_pass_when_no_findings() {
    let policy = policy_with_mode(RunMode::Fail);
    let mut report = PostureReport::empty();

    report.evaluate_against(&policy);

    assert_eq!(report.status, PostureStatus::Pass);
    assert_eq!(report.risk_total, 0);
}

#[test]
fn evaluates_warn_from_warn_finding() {
    let policy = policy_with_mode(RunMode::Fail);
    let mut report = PostureReport::empty();
    report.add_finding(
        "test.warn",
        FindingSection::Runtime,
        "warn",
        FindingSeverity::Warn,
        1,
    );

    report.evaluate_against(&policy);

    assert_eq!(report.status, PostureStatus::Warn);
}

#[test]
fn evaluates_fail_from_fail_finding() {
    let policy = policy_with_mode(RunMode::Fail);
    let mut report = PostureReport::empty();
    report.add_finding(
        "test.fail",
        FindingSection::Runtime,
        "fail",
        FindingSeverity::Fail,
        1,
    );

    report.evaluate_against(&policy);

    assert_eq!(report.status, PostureStatus::Fail);
}

#[test]
fn warn_mode_downgrades_fail_to_warn() {
    let policy = policy_with_mode(RunMode::Warn);
    let mut report = PostureReport::empty();
    report.add_finding(
        "test.fail",
        FindingSection::Runtime,
        "fail",
        FindingSeverity::Fail,
        10,
    );

    report.evaluate_against(&policy);

    assert_eq!(report.status, PostureStatus::Warn);
}

#[test]
fn degraded_mode_maps_findings_to_degraded() {
    let policy = policy_with_mode(RunMode::Degraded);
    let mut report = PostureReport::empty();
    report.add_finding(
        "test.fail",
        FindingSection::Runtime,
        "fail",
        FindingSeverity::Fail,
        10,
    );

    report.evaluate_against(&policy);

    assert_eq!(report.status, PostureStatus::Degraded);
}

#[test]
fn thresholds_turn_info_findings_into_warn_and_fail() {
    let policy = policy_with_mode(RunMode::Fail);
    let mut report = PostureReport::empty();
    report.add_finding("a", FindingSection::Runtime, "a", FindingSeverity::Info, 5);
    report.evaluate_against(&policy);
    assert_eq!(report.status, PostureStatus::Warn);
    assert_eq!(report.risk_total, 5);
    assert_eq!(report.warn_threshold, 5);
    assert_eq!(report.fail_threshold, 10);

    report.add_finding("b", FindingSection::Runtime, "b", FindingSeverity::Info, 5);
    report.evaluate_against(&policy);
    assert_eq!(report.status, PostureStatus::Fail);
    assert_eq!(report.risk_total, 10);
}

#[test]
fn info_findings_below_thresholds_pass() {
    let policy = policy_with_mode(RunMode::Fail);
    let mut report = PostureReport::empty();
    report.add_finding("a", FindingSection::Identity, "a", FindingSeverity::Info, 4);
    report.evaluate_against(&policy);
    assert_eq!(report.status, PostureStatus::Pass);
    assert_eq!(report.risk_total, 4);
}

#[test]
fn degraded_mode_keeps_a_clean_pass() {
    let policy = policy_with_mode(RunMode::Degraded);
    let mut report = PostureReport::empty();
    report.evaluate_against(&policy);
    assert_eq!(report.status, PostureStatus::Pass);
}

#[test]
fn warn_mode_keeps_warn_and_pass() {
    let policy = policy_with_mode(RunMode::Warn);
    let mut report = PostureReport::empty();
    report.evaluate_against(&policy);
    assert_eq!(report.status, PostureStatus::Pass);
    report.add_finding("w", FindingSection::Network, "w", FindingSeverity::Warn, 1);
    report.evaluate_against(&policy);
    assert_eq!(report.status, PostureStatus::Warn);
}

#[test]
fn evaluating_twice_gives_the_same_result() {
    let policy = policy_with_mode(RunMode::Fail);
    let mut report = PostureReport::empty();
    report.add_finding("w", FindingSection::Network, "w", FindingSeverity::Warn, 3);
    report.evaluate_against(&policy);
    let (status, risk) = (report.status, report.risk_total);
    report.evaluate_against(&policy);
    assert_eq!(report.status, status);
    assert_eq!(report.risk_total, risk);
}

#[test]
fn adding_a_finding_never_improves_the_status() {
    let policy = policy_with_mode(RunMode::Fail);
    let mut report = PostureReport::empty();
    report.add_finding("f", FindingSection::Sandbox, "f", FindingSeverity::Fail, 1);
    report.evaluate_against(&policy);
    assert_eq!(report.status, PostureStatus::Fail);
    report.add_finding("i", FindingSection::Sandbox, "i", FindingSeverity::Info, 0);
    report.evaluate_against(&policy);
    assert_eq!(report.status, PostureStatus::Fail);
}

#[test]
fn findings_with_details_keep_their_pairs() {
    let mut report = PostureReport::empty();
    report.add_finding_with_details(
        "x.y",
        FindingSection::Filesystem,
        "message",
        FindingSeverity::Warn,
        2,
        vec![("key".to_string(), "value".to_string())],
    );
    assert_eq!(report.findings.len(), 1);
    let f = &report.findings[0];
    assert_eq!(f.id, "x.y");
    assert_eq!(f.message, "message");
    assert_eq!(f.section, FindingSection::Filesystem);
    assert_eq!(f.severity, FindingSeverity::Warn);
    assert_eq!(f.score, 2);
    assert_eq!(f.details, vec![("key".to_string(), "value".to_string())]);
}

#[test]
fn empty_report_has_nothing_observed() {
    let report = PostureReport::empty();
    assert_eq!(report.status, PostureStatus::Pass);
    assert!(report.findings.is_empty());
    assert_eq!(report.identity.uid, None);
    assert!(!report.identity.is_root);
    assert!(report.filesystem.writable_paths.is_empty());
    assert!(!report.filesystem.root_is_writable);
    assert_eq!(report.sandbox.apparmor_profile, None);
    assert!(!report.network.metadata_probe_attempted);
}

#[test]
fn startup_is_refused_only_on_fail() {
    let policy = policy_with_mode(RunMode::Fail);
    let mut failing = PostureReport::empty();
    failing.add_finding("f", FindingSection::Runtime, "f", FindingSeverity::Fail, 1);
    failing.evaluate_against(&policy);
    assert!(matches!(
        require_startup_posture(Ok(failing)),
        Err(StartupError::Failed(_))
    ));

    let mut warning = PostureReport::empty();
    warning.add_finding("w", FindingSection::Runtime, "w", FindingSeverity::Warn, 1);
    warning.evaluate_against(&policy);
    let passed = require_startup_posture(Ok(warning)).expect("warn passes startup");
    assert_eq!(passed.status, PostureStatus::Warn);

    assert!(matches!(
        require_startup_posture(Err(Error::Io("missing".to_string()))),
        Err(StartupError::Core(Error::Io(_)))
    ));
}

#[test]
fn report_status_names_each_status() {
    let mut report = PostureReport::empty();
    assert_eq!(report_status(&report), "pass");
    report.status = PostureStatus::Warn;
    assert_eq!(report_status(&report), "warn");
    report.status = PostureStatus::Fail;
    assert_eq!(report_status(&report), "fail");
    report.status = PostureStatus::Degraded;
    assert_eq!(report_status(&report), "degraded");
}

#[test]
fn core_errors_become_core_refusals() {
    let refused = StartupError::from(Error::Yaml("bad indent".to_string()));
    assert!(matches!(refused, StartupError::Core(Error::Yaml(ref m)) if m == "bad indent"));
}

#[test]
fn startup_refusals_have_messages() {
    let mut report = PostureReport::empty();
    report.status = PostureStatus::Fail;
    assert_eq!(
        StartupError::Failed(report).message(),
        "southpaw failed startup checks (status=fail)"
    );
    assert_eq!(StartupError::Core(Error::Io("gone".to_string())).message(), "io error: gone");
}
