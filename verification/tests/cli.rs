use southpaw::cli::{
    after_check, classify_args, exit_code_for_status, parse_args, parse_init_args,
    parse_output_format, parse_run_mode, policy_template, render_text_report, section_name,
    severity_marker_colored, status_label, AfterCheck, CliCommand, CliEnv, Colors, OutputFormat,
};
use southpaw::policy::{Policy, RunMode};
use southpaw::report::{FindingSection, FindingSeverity, PostureReport, PostureStatus};

fn strings(v: &[&str]) -> Vec<String> {
    v.iter().map(|s| s.to_string()).collect()
}

fn no_env() -> CliEnv {
    CliEnv { policy: None, format: None, mode: None }
}

#[test]
fn exit_codes_match_documented_statuses() {
    assert_eq!(exit_code_for_status(PostureStatus::Pass), 0);
    assert_eq!(exit_code_for_status(PostureStatus::Warn), 1);
    assert_eq!(exit_code_for_status(PostureStatus::Degraded), 1);
    assert_eq!(exit_code_for_status(PostureStatus::Fail), 2);
}

#[test]
fn init_templates_are_available() {
    for name in [
        "default",
        "minimal",
        "python-runtime",
        "go-runtime",
        "rust-runtime",
    ] {
        let template = policy_template(name).expect("template exists");
        assert!(template.contains("version:"));
        assert!(template.contains("enforcement:"));
    }
}

#[test]
fn unknown_init_template_is_rejected() {
    let err = policy_template("ruby-runtime").expect_err("unknown template fails");
    assert!(err.contains("unknown template"));
}

#[test]
fn minimal_template_requires_non_root() {
    let t = policy_template("minimal").unwrap();
    assert!(t.contains("require_non_root: true"));
    assert!(t.contains("require_lsm: false"));
}

#[test]
fn labels_name_statuses_and_sections() {
    assert_eq!(status_label(PostureStatus::Pass), "PASS");
    assert_eq!(status_label(PostureStatus::Degraded), "DEGRADED");
    assert_eq!(section_name(&FindingSection::Filesystem), "Filesystem");
    let c = Colors::enabled();
    assert_eq!(severity_marker_colored(&FindingSeverity::Fail, &c), ("x", "\x1b[31m"));
    assert_eq!(severity_marker_colored(&FindingSeverity::Info, &Colors::disabled()), ("i", ""));
}

#[test]
fn output_format_and_mode_values() {
    assert_eq!(parse_output_format("json").unwrap(), OutputFormat::Json);
    assert_eq!(
        parse_output_format("xml").unwrap_err(),
        "unsupported format `xml` (expected text|json)"
    );
    assert_eq!(parse_run_mode("WARN").unwrap(), RunMode::Warn);
    assert_eq!(parse_run_mode("Degraded").unwrap(), RunMode::Degraded);
    assert_eq!(
        parse_run_mode("Observe").unwrap_err(),
        "unsupported mode `Observe` (expected warn|fail|degraded)"
    );
}

#[test]
fn command_line_is_classified() {
    assert!(matches!(classify_args(&strings(&[])), CliCommand::Help));
    assert!(matches!(classify_args(&strings(&["check", "-h"])), CliCommand::Help));
    assert!(matches!(classify_args(&strings(&["--version", "--help"])), CliCommand::Help));
    assert!(matches!(classify_args(&strings(&["init", "-v"])), CliCommand::Version));
    match classify_args(&strings(&["init", "--template", "minimal"])) {
        CliCommand::Init(rest) => assert_eq!(rest, strings(&["--template", "minimal"])),
        other => panic!("unexpected {other:?}"),
    }
    match classify_args(&strings(&["--json"])) {
        CliCommand::Check(all) => assert_eq!(all, strings(&["--json"])),
        other => panic!("unexpected {other:?}"),
    }
}

#[test]
fn init_arguments_pick_the_template() {
    assert_eq!(parse_init_args(&strings(&[])).unwrap(), "default");
    assert_eq!(
        parse_init_args(&strings(&["--template", "a", "--template", "go-runtime"])).unwrap(),
        "go-runtime"
    );
    assert_eq!(
        parse_init_args(&strings(&["--template"])).unwrap_err(),
        "missing value for --template"
    );
    assert_eq!(
        parse_init_args(&strings(&["--force"])).unwrap_err(),
        "unknown init argument `--force`"
    );
}

#[test]
fn check_arguments_and_environment() {
    let args = parse_args(strings(&["check"]), &no_env()).unwrap();
    assert_eq!(args.policy_file, "southpaw.yaml");
    assert_eq!(args.output_format, OutputFormat::Text);
    assert_eq!(args.mode_override, None);
    assert!(args.exec_cmd.is_empty());

    let env = CliEnv {
        policy: Some("env.yaml".to_string()),
        format: Some("json".to_string()),
        mode: Some("warn".to_string()),
    };
    let args = parse_args(strings(&["check"]), &env).unwrap();
    assert_eq!(args.policy_file, "env.yaml");
    assert_eq!(args.output_format, OutputFormat::Json);
    assert_eq!(args.mode_override, Some(RunMode::Warn));

    let args = parse_args(
        strings(&["--policy", "p.yaml", "--format", "text", "--mode", "fail", "--exec", "node", "server.js"]),
        &env,
    )
    .unwrap();
    assert_eq!(args.policy_file, "p.yaml");
    assert_eq!(args.output_format, OutputFormat::Text);
    assert_eq!(args.mode_override, Some(RunMode::Fail));
    assert_eq!(args.exec_cmd, strings(&["node", "server.js"]));

    let args = parse_args(strings(&["--json", "--exec", "a", "--policy", "x"]), &no_env()).unwrap();
    assert_eq!(args.output_format, OutputFormat::Json);
    assert_eq!(args.exec_cmd, strings(&["a", "--policy", "x"]));
}

#[test]
fn check_arguments_are_refused() {
    assert_eq!(
        parse_args(strings(&["check", "--format", "xml"]), &no_env()).unwrap_err(),
        "unsupported format `xml` (expected text|json)"
    );
    assert!(parse_args(strings(&["check", "--mode", "observe"]), &no_env())
        .unwrap_err()
        .contains("unsupported mode"));
    assert_eq!(
        parse_args(strings(&["--policy"]), &no_env()).unwrap_err(),
        "missing value for --policy"
    );
    assert_eq!(
        parse_args(strings(&["--exec"]), &no_env()).unwrap_err(),
        "missing command after --exec"
    );
    assert_eq!(
        parse_args(strings(&["run"]), &no_env()).unwrap_err(),
        "unknown argument `run`"
    );
    let env = CliEnv { policy: None, format: Some("yaml".to_string()), mode: None };
    assert!(parse_args(strings(&[]), &env).unwrap_err().contains("unsupported format"));
}

#[test]
fn exec_runs_unless_the_check_fails() {
    let cmd = strings(&["app"]);
    assert_eq!(after_check(&cmd, PostureStatus::Warn), AfterCheck::Exec);
    assert_eq!(after_check(&cmd, PostureStatus::Fail), AfterCheck::Exit(2));
    assert_eq!(after_check(&Vec::new(), PostureStatus::Degraded), AfterCheck::Exit(1));
}

#[test]
fn text_report_lists_findings_by_section() {
    let mut report = PostureReport::empty();
    report.add_finding("network.x", FindingSection::Network, "Network issue", FindingSeverity::Fail, 9);
    report.add_finding("identity.y", FindingSection::Identity, "Identity note", FindingSeverity::Info, 0);
    report.status = PostureStatus::Fail;
    report.risk_total = 9;
    report.warn_threshold = 5;
    report.fail_threshold = 10;
    let text = render_text_report(&report, &Colors::disabled());
    let expected = "SOUTHPAW CHECK: FAIL (risk: 9, threshold: 10)\n\
\n\
Identity:\n  i Identity note (identity.y)\n\n\
Filesystem:\n  ok\n\n\
Sandbox:\n  ok\n\n\
Network:\n  x Network issue (network.x)\n\n\
Runtime:\n  ok\n\n\
risk: 9 (warn: 5, fail: 10)\n";
    assert_eq!(text, expected);
    let colored = render_text_report(&report, &Colors::enabled());
    assert!(colored.starts_with("\x1b[1mSOUTHPAW CHECK: \x1b[31mFAIL\x1b[0m"));
    assert!(colored.ends_with("risk: \x1b[33m\x1b[1m9\x1b[0m \x1b[2m(warn: 5, fail: 10)\x1b[0m\n"));
}

#[test]
fn lenient_modes_still_launch_after_failing_findings() {
    for mode in [RunMode::Warn, RunMode::Degraded] {
        let mut policy = Policy::default();
        policy.enforcement.mode = mode;
        let mut report = PostureReport::empty();
        report.add_finding("test.fail", FindingSection::Runtime, "fail", FindingSeverity::Fail, 10);
        report.evaluate_against(&policy);
        assert_eq!(after_check(&strings(&["app"]), report.status), AfterCheck::Exec);
        assert!(exit_code_for_status(report.status) <= 1);
    }
}
