//! The command line's decisions: arguments, templates, labels, exit codes
//! and the text rendering of a report.
use vstd::prelude::*;

use crate::policy::RunMode;
use crate::report::{
    Finding, FindingSection, FindingSeverity, FindingView, PostureReport, PostureStatus, ReportView,
    findings_of,
};
use crate::text::{
    concat2, decimal, lower, lowercase_ascii, push_decimal, str_eq, string_from, strs_of,
};

verus! {

// ---------------------------------------------------------------------------
// Policy templates
// ---------------------------------------------------------------------------

/// The policy template text of each template name.
pub open spec fn template_text(name: Seq<char>) -> Option<Seq<char>> {
    if name == "default"@ {
        Some(r#"# southpaw posture policy
version: "1.0"

identity:
  # Refuse to start as root (effective UID 0).
  require_non_root: true
  # Effective UIDs the process may run as; empty allows any.
  allowed_uids: []

filesystem:
  # Writable mounts outside these paths are reported.
  allowed_writable_paths:
    - /tmp
  deny_writable_root: true

sandbox:
  require_seccomp: false
  require_lsm: false
  require_no_new_privs: false

network:
  # Probe the cloud metadata endpoint and fail when it answers.
  block_metadata: false
  metadata_probe_port: 80
  metadata_probe_timeout_ms: 200
  allowed_egress_hosts: []

severity:
  warn_threshold: 5
  fail_threshold: 10

enforcement:
  # fail | warn | degraded
  mode: fail
"#@)
    } else if name == "minimal"@ {
        Some(r#"version: "1.0"

identity:
  require_non_root: true
  allowed_uids: []

filesystem:
  allowed_writable_paths:
    - /tmp
  deny_writable_root: true

sandbox:
  require_seccomp: false
  require_lsm: false
  require_no_new_privs: false

network:
  block_metadata: true
  metadata_probe_port: 80
  metadata_probe_timeout_ms: 200
  allowed_egress_hosts: []

severity:
  warn_threshold: 5
  fail_threshold: 10

enforcement:
  mode: fail
"#@)
    } else if name == "python-runtime"@ {
        Some(r#"# Python runtime preset: strict startup gating for production containers
version: "1.0"

identity:
  require_non_root: true
  allowed_uids: []

filesystem:
  allowed_writable_paths:
    - /tmp
  deny_writable_root: true

sandbox:
  require_seccomp: true
  require_lsm: false
  require_no_new_privs: true

network:
  block_metadata: true
  metadata_probe_port: 80
  metadata_probe_timeout_ms: 200
  allowed_egress_hosts: []

severity:
  warn_threshold: 5
  fail_threshold: 10

enforcement:
  mode: fail
"#@)
    } else if name == "go-runtime"@ {
        Some(r#"# Go runtime preset: strict startup gating for production containers
version: "1.0"

identity:
  require_non_root: true
  allowed_uids: []

filesystem:
  allowed_writable_paths:
    - /tmp
  deny_writable_root: true

sandbox:
  require_seccomp: true
  require_lsm: false
  require_no_new_privs: true

network:
  block_metadata: true
  metadata_probe_port: 80
  metadata_probe_timeout_ms: 200
  allowed_egress_hosts: []

severity:
  warn_threshold: 5
  fail_threshold: 10

enforcement:
  mode: fail
"#@)
    } else if name == "rust-runtime"@ {
        Some(r#"# Rust runtime preset: strict startup gating for production containers
version: "1.0"

identity:
  require_non_root: true
  allowed_uids: []

filesystem:
  allowed_writable_paths:
    - /tmp
  deny_writable_root: true

sandbox:
  require_seccomp: true
  require_lsm: false
  require_no_new_privs: true

network:
  block_metadata: true
  metadata_probe_port: 80
  metadata_probe_timeout_ms: 200
  allowed_egress_hosts: []

severity:
  warn_threshold: 5
  fail_threshold: 10

enforcement:
  mode: fail
"#@)
    } else {
        None
    }
}

/// The message for an unknown template name.
pub open spec fn unknown_template_message(name: Seq<char>) -> Seq<char> {
    "unknown template `"@ + name + "` (expected default|minimal|python-runtime|go-runtime|rust-runtime)"@
}

/// The text of the named policy template, or why there is none.
pub fn policy_template(name: &str) -> (r: Result<&'static str, String>)
    ensures
        match template_text(name@) {
            Some(t) => r matches Ok(x) && x@ == t,
            None => r matches Err(m) && m@ == unknown_template_message(name@),
        },
{
    if str_eq(name, "default") {
        Ok(r#"# southpaw posture policy
version: "1.0"

identity:
  # Refuse to start as root (effective UID 0).
  require_non_root: true
  # Effective UIDs the process may run as; empty allows any.
  allowed_uids: []

filesystem:
  # Writable mounts outside these paths are reported.
  allowed_writable_paths:
    - /tmp
  deny_writable_root: true

sandbox:
  require_seccomp: false
  require_lsm: false
  require_no_new_privs: false

network:
  # Probe the cloud metadata endpoint and fail when it answers.
  block_metadata: false
  metadata_probe_port: 80
  metadata_probe_timeout_ms: 200
  allowed_egress_hosts: []

severity:
  warn_threshold: 5
  fail_threshold: 10

enforcement:
  # fail | warn | degraded
  mode: fail
"#)
    } else if str_eq(name, "minimal") {
        Ok(r#"version: "1.0"

identity:
  require_non_root: true
  allowed_uids: []

filesystem:
  allowed_writable_paths:
    - /tmp
  deny_writable_root: true

sandbox:
  require_seccomp: false
  require_lsm: false
  require_no_new_privs: false

network:
  block_metadata: true
  metadata_probe_port: 80
  metadata_probe_timeout_ms: 200
  allowed_egress_hosts: []

severity:
  warn_threshold: 5
  fail_threshold: 10

enforcement:
  mode: fail
"#)
    } else if str_eq(name, "python-runtime") {
        Ok(r#"# Python runtime preset: strict startup gating for production containers
version: "1.0"

identity:
  require_non_root: true
  allowed_uids: []

filesystem:
  allowed_writable_paths:
    - /tmp
  deny_writable_root: true

sandbox:
  require_seccomp: true
  require_lsm: false
  require_no_new_privs: true

network:
  block_metadata: true
  metadata_probe_port: 80
  metadata_probe_timeout_ms: 200
  allowed_egress_hosts: []

severity:
  warn_threshold: 5
  fail_threshold: 10

enforcement:
  mode: fail
"#)
    } else if str_eq(name, "go-runtime") {
        Ok(r#"# Go runtime preset: strict startup gating for production containers
version: "1.0"

identity:
  require_non_root: true
  allowed_uids: []

filesystem:
  allowed_writable_paths:
    - /tmp
  deny_writable_root: true

sandbox:
  require_seccomp: true
  require_lsm: false
  require_no_new_privs: true

network:
  block_metadata: true
  metadata_probe_port: 80
  metadata_probe_timeout_ms: 200
  allowed_egress_hosts: []

severity:
  warn_threshold: 5
  fail_threshold: 10

enforcement:
  mode: fail
"#)
    } else if str_eq(name, "rust-runtime") {
        Ok(r#"# Rust runtime preset: strict startup gating for production containers
version: "1.0"

identity:
  require_non_root: true
  allowed_uids: []

filesystem:
  allowed_writable_paths:
    - /tmp
  deny_writable_root: true

sandbox:
  require_seccomp: true
  require_lsm: false
  require_no_new_privs: true

network:
  block_metadata: true
  metadata_probe_port: 80
  metadata_probe_timeout_ms: 200
  allowed_egress_hosts: []

severity:
  warn_threshold: 5
  fail_threshold: 10

enforcement:
  mode: fail
"#)
    } else {
        let mut m = concat2("unknown template `", name);
        m.append("` (expected default|minimal|python-runtime|go-runtime|rust-runtime)");
        Err(m)
    }
}


// ---------------------------------------------------------------------------
// Labels and exit codes
// ---------------------------------------------------------------------------

/// The process exit code for a status: 0 pass, 1 warn or degraded, 2 fail.
pub open spec fn exit_code(status: PostureStatus) -> i32 {
    match status {
        PostureStatus::Pass => 0,
        PostureStatus::Warn | PostureStatus::Degraded => 1,
        PostureStatus::Fail => 2,
    }
}

/// The process exit code for a status.
pub fn exit_code_for_status(status: PostureStatus) -> (r: i32)
    ensures
        r == exit_code(status),
{
    match status {
        PostureStatus::Pass => 0,
        PostureStatus::Warn | PostureStatus::Degraded => 1,
        PostureStatus::Fail => 2,
    }
}

/// The upper-case label of a status.
pub open spec fn status_text(status: PostureStatus) -> Seq<char> {
    match status {
        PostureStatus::Pass => "PASS"@,
        PostureStatus::Warn => "WARN"@,
        PostureStatus::Fail => "FAIL"@,
        PostureStatus::Degraded => "DEGRADED"@,
    }
}

/// The upper-case label of a status.
pub fn status_label(status: PostureStatus) -> (r: &'static str)
    ensures
        r@ == status_text(status),
{
    match status {
        PostureStatus::Pass => "PASS",
        PostureStatus::Warn => "WARN",
        PostureStatus::Fail => "FAIL",
        PostureStatus::Degraded => "DEGRADED",
    }
}

/// The heading of a section.
pub open spec fn section_text(section: FindingSection) -> Seq<char> {
    match section {
        FindingSection::Identity => "Identity"@,
        FindingSection::Filesystem => "Filesystem"@,
        FindingSection::Sandbox => "Sandbox"@,
        FindingSection::Network => "Network"@,
        FindingSection::Runtime => "Runtime"@,
    }
}

/// The heading of a section.
pub fn section_name(section: &FindingSection) -> (r: &'static str)
    ensures
        r@ == section_text(*section),
{
    match section {
        FindingSection::Identity => "Identity",
        FindingSection::Filesystem => "Filesystem",
        FindingSection::Sandbox => "Sandbox",
        FindingSection::Network => "Network",
        FindingSection::Runtime => "Runtime",
    }
}

/// The terminal escape sequences used by the text report; all empty when
/// color is off.
#[derive(Debug, Clone, Copy)]
pub struct Colors {
    pub red: &'static str,
    pub yellow: &'static str,
    pub green: &'static str,
    pub cyan: &'static str,
    pub bold: &'static str,
    pub dim: &'static str,
    pub reset: &'static str,
}

impl Colors {
    /// ANSI colors and styles.
    pub fn enabled() -> (c: Self)
        ensures
            c.red@ == "\x1b[31m"@,
            c.yellow@ == "\x1b[33m"@,
            c.green@ == "\x1b[32m"@,
            c.cyan@ == "\x1b[36m"@,
            c.bold@ == "\x1b[1m"@,
            c.dim@ == "\x1b[2m"@,
            c.reset@ == "\x1b[0m"@,
    {
        Colors {
            red: "\x1b[31m",
            yellow: "\x1b[33m",
            green: "\x1b[32m",
            cyan: "\x1b[36m",
            bold: "\x1b[1m",
            dim: "\x1b[2m",
            reset: "\x1b[0m",
        }
    }

    /// No colors: every sequence is empty.
    pub fn disabled() -> (c: Self)
        ensures
            c.red@ == ""@,
            c.yellow@ == ""@,
            c.green@ == ""@,
            c.cyan@ == ""@,
            c.bold@ == ""@,
            c.dim@ == ""@,
            c.reset@ == ""@,
    {
        Colors { red: "", yellow: "", green: "", cyan: "", bold: "", dim: "", reset: "" }
    }
}

/// The marker of a severity in the text report.
pub open spec fn severity_marker(sev: FindingSeverity) -> Seq<char> {
    match sev {
        FindingSeverity::Info => "i"@,
        FindingSeverity::Warn => "!"@,
        FindingSeverity::Fail => "x"@,
    }
}

/// The color of a severity in the text report.
pub open spec fn severity_color(sev: FindingSeverity, c: Colors) -> Seq<char> {
    match sev {
        FindingSeverity::Info => c.cyan@,
        FindingSeverity::Warn => c.yellow@,
        FindingSeverity::Fail => c.red@,
    }
}

/// The marker and color of a severity.
pub fn severity_marker_colored(sev: &FindingSeverity, c: &Colors) -> (r: (&'static str, &'static str))
    ensures
        r.0@ == severity_marker(*sev),
        r.1@ == severity_color(*sev, *c),
{
    match sev {
        FindingSeverity::Info => ("i", c.cyan),
        FindingSeverity::Warn => ("!", c.yellow),
        FindingSeverity::Fail => ("x", c.red),
    }
}

// ---------------------------------------------------------------------------
// Option values
// ---------------------------------------------------------------------------

/// The format the report is printed in.
#[derive(Debug, Clone, Copy, PartialEq, Eq, Structural)]
pub enum OutputFormat {
    Text,
    Json,
}

/// The output format a value names, or the message refusing it.
pub open spec fn output_format_of(value: Seq<char>) -> Result<OutputFormat, Seq<char>> {
    if value == "text"@ {
        Ok(OutputFormat::Text)
    } else if value == "json"@ {
        Ok(OutputFormat::Json)
    } else {
        Err("unsupported format `"@ + value + "` (expected text|json)"@)
    }
}

/// The output format `text` or `json`.
pub fn parse_output_format(value: &str) -> (r: Result<OutputFormat, String>)
    ensures
        match output_format_of(value@) {
            Ok(f) => r == Ok::<OutputFormat, String>(f),
            Err(m) => r matches Err(e) && e@ == m,
        },
{
    if str_eq(value, "text") {
        Ok(OutputFormat::Text)
    } else if str_eq(value, "json") {
        Ok(OutputFormat::Json)
    } else {
        let mut m = concat2("unsupported format `", value);
        m.append("` (expected text|json)");
        Err(m)
    }
}

/// The run mode a value names, case-insensitively in ASCII, or the message
/// refusing it.
pub open spec fn run_mode_of(value: Seq<char>) -> Result<RunMode, Seq<char>> {
    let l = lower(value);
    if l == "warn"@ {
        Ok(RunMode::Warn)
    } else if l == "fail"@ {
        Ok(RunMode::Fail)
    } else if l == "degraded"@ {
        Ok(RunMode::Degraded)
    } else {
        Err("unsupported mode `"@ + value + "` (expected warn|fail|degraded)"@)
    }
}

/// The run mode `warn`, `fail` or `degraded`, in any ASCII case.
pub fn parse_run_mode(value: &str) -> (r: Result<RunMode, String>)
    ensures
        match run_mode_of(value@) {
            Ok(m) => r == Ok::<RunMode, String>(m),
            Err(m) => r matches Err(e) && e@ == m,
        },
{
    let l = lowercase_ascii(value);
    if str_eq(l.as_str(), "warn") {
        Ok(RunMode::Warn)
    } else if str_eq(l.as_str(), "fail") {
        Ok(RunMode::Fail)
    } else if str_eq(l.as_str(), "degraded") {
        Ok(RunMode::Degraded)
    } else {
        let mut m = concat2("unsupported mode `", value);
        m.append("` (expected warn|fail|degraded)");
        Err(m)
    }
}


// ---------------------------------------------------------------------------
// Command line
// ---------------------------------------------------------------------------

/// What the command line asks for.
#[derive(Debug)]
pub enum CliCommand {
    /// Print the help text (also for no arguments at all).
    Help,
    /// Print the version.
    Version,
    /// Write a policy template; the arguments after `init`.
    Init(Vec<String>),
    /// Check the posture; all the arguments.
    Check(Vec<String>),
}

/// Whether some argument is `a` or `b`.
pub open spec fn has_either(args: Seq<Seq<char>>, a: Seq<char>, b: Seq<char>) -> bool {
    args.contains(a) || args.contains(b)
}

fn any_arg_is(args: &Vec<String>, a: &str, b: &str) -> (r: bool)
    ensures
        r == has_either(strs_of(args@), a@, b@),
{
    let ghost all = strs_of(args@);
    for i in 0..args.len()
        invariant
            all == strs_of(args@),
            forall|j: int| 0 <= j < i ==> all[j] != a@ && all[j] != b@,
    {
        if str_eq(args[i].as_str(), a) || str_eq(args[i].as_str(), b) {
            assert(all[i as int] == a@ || all[i as int] == b@);
            return true;
        }
    }
    false
}

/// The copies of `v[lo..]`.
fn tail_strings(v: &Vec<String>, lo: usize) -> (r: Vec<String>)
    requires
        lo <= v.len(),
    ensures
        strs_of(r@) == strs_of(v@).skip(lo as int),
{
    let mut r: Vec<String> = Vec::new();
    let mut i = lo;
    while i < v.len()
        invariant
            lo <= i <= v.len(),
            strs_of(r@) == strs_of(v@).subrange(lo as int, i as int),
        decreases v.len() - i,
    {
        let ghost o = strs_of(r@);
        r.push(v[i].clone());
        assert(strs_of(r@) =~= o.push(v@[i as int]@));
        assert(strs_of(r@) =~= strs_of(v@).subrange(lo as int, i + 1));
        i += 1;
    }
    assert(strs_of(v@).subrange(lo as int, v.len() as int) == strs_of(v@).skip(lo as int));
    r
}

/// The command the arguments ask for: help when any argument is `-h` or
/// `--help`, else the version when any is `-v` or `--version`, else help for
/// no arguments, else `init` with the arguments after it, else a check.
pub open spec fn command_of(args: Seq<Seq<char>>) -> (u8, Seq<Seq<char>>) {
    if has_either(args, "-h"@, "--help"@) {
        (0, Seq::empty())
    } else if has_either(args, "-v"@, "--version"@) {
        (1, Seq::empty())
    } else if args.len() == 0 {
        (0, Seq::empty())
    } else if args[0] == "init"@ {
        (2, args.skip(1))
    } else {
        (3, args)
    }
}

/// The kind and arguments of a command, as in `command_of`.
pub open spec fn command_view(c: CliCommand) -> (u8, Seq<Seq<char>>) {
    match c {
        CliCommand::Help => (0, Seq::empty()),
        CliCommand::Version => (1, Seq::empty()),
        CliCommand::Init(a) => (2, strs_of(a@)),
        CliCommand::Check(a) => (3, strs_of(a@)),
    }
}

/// Decides what the command line asks for.
pub fn classify_args(args: &Vec<String>) -> (r: CliCommand)
    ensures
        command_view(r) == command_of(strs_of(args@)),
{
    if any_arg_is(args, "-h", "--help") {
        return CliCommand::Help;
    }
    if any_arg_is(args, "-v", "--version") {
        return CliCommand::Version;
    }
    if args.len() == 0 {
        return CliCommand::Help;
    }
    if str_eq(args[0].as_str(), "init") {
        return CliCommand::Init(tail_strings(args, 1));
    }
    assert(strs_of(args@).skip(0) == strs_of(args@));
    CliCommand::Check(tail_strings(args, 0))
}

/// The template that the `init` arguments name: the value of the last
/// `--template` (default `default`), or the message refusing them.
pub open spec fn init_template_scan(args: Seq<Seq<char>>, i: int, cur: Seq<char>) -> Result<
    Seq<char>,
    Seq<char>,
>
    decreases args.len() - i,
{
    if i < 0 || i >= args.len() {
        Ok(cur)
    } else if args[i] == "--template"@ {
        if i + 1 < args.len() {
            init_template_scan(args, i + 2, args[i + 1])
        } else {
            Err("missing value for --template"@)
        }
    } else {
        Err("unknown init argument `"@ + args[i] + "`"@)
    }
}

/// The template name the `init` arguments ask for.
pub open spec fn init_template_of(args: Seq<Seq<char>>) -> Result<Seq<char>, Seq<char>> {
    init_template_scan(args, 0, "default"@)
}

/// The template name the `init` arguments ask for, or why they are refused.
pub fn parse_init_args(args: &Vec<String>) -> (r: Result<String, String>)
    ensures
        match init_template_of(strs_of(args@)) {
            Ok(t) => r matches Ok(x) && x@ == t,
            Err(m) => r matches Err(e) && e@ == m,
        },
{
    let ghost all = strs_of(args@);
    let mut name = string_from("default");
    let mut i: usize = 0;
    while i < args.len()
        invariant
            all == strs_of(args@),
            i <= args.len() + 1,
            init_template_scan(all, 0, "default"@) == init_template_scan(all, i as int, name@),
        decreases args.len() + 1 - i,
    {
        if str_eq(args[i].as_str(), "--template") {
            if i + 1 >= args.len() {
                return Err(string_from("missing value for --template"));
            }
            name = args[i + 1].clone();
            i += 2;
        } else {
            let mut m = concat2("unknown init argument `", args[i].as_str());
            m.append("`");
            return Err(m);
        }
    }
    Ok(name)
}

/// The values of the environment variables the check reads:
/// `SOUTHPAW_POLICY`, `SOUTHPAW_FORMAT` and `SOUTHPAW_MODE`.
#[derive(Debug)]
pub struct CliEnv {
    pub policy: Option<String>,
    pub format: Option<String>,
    pub mode: Option<String>,
}

/// The options of a check.
#[derive(Debug)]
pub struct CheckArgs {
    pub policy_file: String,
    pub output_format: OutputFormat,
    pub mode_override: Option<RunMode>,
    pub exec_cmd: Vec<String>,
}

/// The options of a check as mathematical values.
#[verifier::ext_equal]
pub struct CheckArgsView {
    pub policy_file: Seq<char>,
    pub output_format: OutputFormat,
    pub mode_override: Option<RunMode>,
    pub exec_cmd: Seq<Seq<char>>,
}

/// The options given by flags so far.
#[verifier::ext_equal]
pub struct FlagsView {
    pub policy: Option<Seq<char>>,
    pub format: Option<OutputFormat>,
    pub mode: Option<RunMode>,
    pub command: Seq<Seq<char>>,
}

/// The flags from index `i` on, added to `acc`: `--policy <file>`,
/// `--format <text|json>`, `--json`, `--mode <mode>`, and `--exec` taking
/// every argument after it; a later flag overrides an earlier one.
pub open spec fn scan_flags(args: Seq<Seq<char>>, i: int, acc: FlagsView) -> Result<
    FlagsView,
    Seq<char>,
>
    decreases args.len() - i,
{
    if i < 0 || i >= args.len() {
        Ok(acc)
    } else if args[i] == "--policy"@ {
        if i + 1 < args.len() {
            scan_flags(args, i + 2, FlagsView { policy: Some(args[i + 1]), ..acc })
        } else {
            Err("missing value for --policy"@)
        }
    } else if args[i] == "--format"@ {
        if i + 1 < args.len() {
            match output_format_of(args[i + 1]) {
                Ok(f) => scan_flags(args, i + 2, FlagsView { format: Some(f), ..acc }),
                Err(m) => Err(m),
            }
        } else {
            Err("missing value for --format"@)
        }
    } else if args[i] == "--json"@ {
        scan_flags(args, i + 1, FlagsView { format: Some(OutputFormat::Json), ..acc })
    } else if args[i] == "--mode"@ {
        if i + 1 < args.len() {
            match run_mode_of(args[i + 1]) {
                Ok(m) => scan_flags(args, i + 2, FlagsView { mode: Some(m), ..acc }),
                Err(m) => Err(m),
            }
        } else {
            Err("missing value for --mode"@)
        }
    } else if args[i] == "--exec"@ {
        if i + 1 < args.len() {
            Ok(FlagsView { command: args.skip(i + 1), ..acc })
        } else {
            Err("missing command after --exec"@)
        }
    } else {
        Err("unknown argument `"@ + args[i] + "`"@)
    }
}

/// The options of a check: an optional leading `check`, then flags; the
/// policy file comes from `--policy`, else `SOUTHPAW_POLICY`, else
/// `southpaw.yaml`; the format from the flags, else `SOUTHPAW_FORMAT`, else
/// text; the mode from the flags, else `SOUTHPAW_MODE`, else none.
pub open spec fn check_args_of(
    args: Seq<Seq<char>>,
    env_policy: Option<Seq<char>>,
    env_format: Option<Seq<char>>,
    env_mode: Option<Seq<char>>,
) -> Result<CheckArgsView, Seq<char>> {
    let start = if args.len() > 0 && args[0] == "check"@ {
        1int
    } else {
        0int
    };
    match scan_flags(
        args,
        start,
        FlagsView { policy: None, format: None, mode: None, command: Seq::empty() },
    ) {
        Err(m) => Err(m),
        Ok(f) => {
            let policy_file = match f.policy {
                Some(p) => p,
                None => match env_policy {
                    Some(p) => p,
                    None => "southpaw.yaml"@,
                },
            };
            let format = match f.format {
                Some(x) => Ok(x),
                None => match env_format {
                    Some(v) => output_format_of(v),
                    None => Ok(OutputFormat::Text),
                },
            };
            match format {
                Err(m) => Err(m),
                Ok(fmt) => {
                    let mode = match f.mode {
                        Some(m) => Ok(Some(m)),
                        None => match env_mode {
                            Some(v) => match run_mode_of(v) {
                                Ok(m) => Ok(Some(m)),
                                Err(e) => Err(e),
                            },
                            None => Ok(None),
                        },
                    };
                    match mode {
                        Err(m) => Err(m),
                        Ok(m) => Ok(
                            CheckArgsView {
                                policy_file,
                                output_format: fmt,
                                mode_override: m,
                                exec_cmd: f.command,
                            },
                        ),
                    }
                },
            }
        },
    }
}

/// The view of the options of a check.
pub open spec fn args_view(a: CheckArgs) -> CheckArgsView {
    CheckArgsView {
        policy_file: a.policy_file@,
        output_format: a.output_format,
        mode_override: a.mode_override,
        exec_cmd: strs_of(a.exec_cmd@),
    }
}

/// The view of an optional string.
pub open spec fn opt_chars(o: Option<String>) -> Option<Seq<char>> {
    match o {
        Some(s) => Some(s@),
        None => None,
    }
}

/// Reads the options of a check from the arguments and the environment.
pub fn parse_args(args: Vec<String>, env: &CliEnv) -> (r: Result<CheckArgs, String>)
    ensures
        match check_args_of(
            strs_of(args@),
            opt_chars(env.policy),
            opt_chars(env.format),
            opt_chars(env.mode),
        ) {
            Ok(v) => r matches Ok(a) && args_view(a) == v,
            Err(m) => r matches Err(e) && e@ == m,
        },
{
    let ghost all = strs_of(args@);
    let start: usize = if args.len() > 0 && str_eq(args[0].as_str(), "check") {
        1
    } else {
        0
    };
    let mut i = start;
    let mut policy_file: Option<String> = None;
    let mut output_format: Option<OutputFormat> = None;
    let mut mode_override: Option<RunMode> = None;
    let mut exec_cmd: Vec<String> = Vec::new();
    let ghost init = FlagsView { policy: None, format: None, mode: None, command: Seq::empty() };
    assert(strs_of(exec_cmd@) =~= Seq::<Seq<char>>::empty());
    while i < args.len()
        invariant_except_break
            all == strs_of(args@),
            init == (FlagsView { policy: None, format: None, mode: None, command: Seq::empty() }),
            start as int == (if all.len() > 0 && all[0] == "check"@ {
                1int
            } else {
                0int
            }),
            i <= args.len() + 1,
            strs_of(exec_cmd@) == Seq::<Seq<char>>::empty(),
            scan_flags(all, start as int, init) == scan_flags(
                all,
                i as int,
                FlagsView {
                    policy: opt_chars(policy_file),
                    format: output_format,
                    mode: mode_override,
                    command: Seq::empty(),
                },
            ),
        ensures
            all == strs_of(args@),
            init == (FlagsView { policy: None, format: None, mode: None, command: Seq::empty() }),
            start as int == (if all.len() > 0 && all[0] == "check"@ {
                1int
            } else {
                0int
            }),
            scan_flags(all, start as int, init) == Ok::<FlagsView, Seq<char>>(
                FlagsView {
                    policy: opt_chars(policy_file),
                    format: output_format,
                    mode: mode_override,
                    command: strs_of(exec_cmd@),
                },
            ),
        decreases args.len() + 1 - i,
    {
        let a = args[i].as_str();
        assert(a@ == all[i as int]);
        if str_eq(a, "--policy") {
            if i + 1 >= args.len() {
                return Err(string_from("missing value for --policy"));
            }
            policy_file = Some(args[i + 1].clone());
            i += 2;
        } else if str_eq(a, "--format") {
            if i + 1 >= args.len() {
                return Err(string_from("missing value for --format"));
            }
            match parse_output_format(args[i + 1].as_str()) {
                Ok(f) => {
                    output_format = Some(f);
                },
                Err(m) => {
                    return Err(m);
                },
            }
            i += 2;
        } else if str_eq(a, "--json") {
            output_format = Some(OutputFormat::Json);
            i += 1;
        } else if str_eq(a, "--mode") {
            if i + 1 >= args.len() {
                return Err(string_from("missing value for --mode"));
            }
            match parse_run_mode(args[i + 1].as_str()) {
                Ok(m) => {
                    mode_override = Some(m);
                },
                Err(m) => {
                    return Err(m);
                },
            }
            i += 2;
        } else if str_eq(a, "--exec") {
            if i + 1 >= args.len() {
                return Err(string_from("missing command after --exec"));
            }
            exec_cmd = tail_strings(&args, i + 1);
            break;
        } else {
            let mut m = concat2("unknown argument `", a);
            m.append("`");
            return Err(m);
        }
    }
    let policy_file = match policy_file {
        Some(p) => p,
        None => match &env.policy {
            Some(p) => p.clone(),
            None => string_from("southpaw.yaml"),
        },
    };
    let output_format = match output_format {
        Some(f) => f,
        None => match &env.format {
            Some(v) => match parse_output_format(v.as_str()) {
                Ok(f) => f,
                Err(m) => {
                    return Err(m);
                },
            },
            None => OutputFormat::Text,
        },
    };
    if mode_override.is_none() {
        if let Some(v) = &env.mode {
            match parse_run_mode(v.as_str()) {
                Ok(m) => {
                    mode_override = Some(m);
                },
                Err(m) => {
                    return Err(m);
                },
            }
        }
    }
    Ok(CheckArgs { policy_file, output_format, mode_override, exec_cmd })
}

/// What follows a check.
#[derive(Debug, Clone, Copy, PartialEq, Eq, Structural)]
pub enum AfterCheck {
    /// Replace the process by the `--exec` command.
    Exec,
    /// Exit with this code.
    Exit(i32),
}

/// After a check, the `--exec` command runs unless the status is `Fail`;
/// without a command the process exits with the status's code.
pub open spec fn after_check_of(has_command: bool, status: PostureStatus) -> AfterCheck {
    if has_command && status != PostureStatus::Fail {
        AfterCheck::Exec
    } else {
        AfterCheck::Exit(exit_code(status))
    }
}

/// Decides what follows a check with status `status`.
pub fn after_check(exec_cmd: &Vec<String>, status: PostureStatus) -> (r: AfterCheck)
    ensures
        r == after_check_of(exec_cmd.len() > 0, status),
{
    if exec_cmd.len() > 0 && status != PostureStatus::Fail {
        AfterCheck::Exec
    } else {
        AfterCheck::Exit(exit_code_for_status(status))
    }
}


// ---------------------------------------------------------------------------
// Text report
// ---------------------------------------------------------------------------

/// The color of a status.
pub open spec fn status_color(status: PostureStatus, c: Colors) -> Seq<char> {
    match status {
        PostureStatus::Pass => c.green@,
        PostureStatus::Warn | PostureStatus::Degraded => c.yellow@,
        PostureStatus::Fail => c.red@,
    }
}

/// The first line: the status and the risk against the fail threshold.
pub open spec fn heading_line(r: ReportView, c: Colors) -> Seq<char> {
    c.bold@ + "SOUTHPAW CHECK: "@ + status_color(r.status, c) + status_text(r.status) + c.reset@
        + " "@ + c.dim@ + "(risk: "@ + decimal(r.risk_total as nat) + ", threshold: "@ + decimal(
        r.fail_threshold as nat,
    ) + ")"@ + c.reset@ + "\n"@
}

/// The line of one finding: marker, message and id.
pub open spec fn finding_line(f: FindingView, c: Colors) -> Seq<char> {
    "  "@ + severity_color(f.severity, c) + severity_marker(f.severity) + c.reset@ + " "@
        + f.message + " "@ + c.dim@ + "("@ + f.id + ")"@ + c.reset@ + "\n"@
}

/// The lines of the findings of `fs` in section `s`, in order.
pub open spec fn section_lines(fs: Seq<FindingView>, s: FindingSection, c: Colors) -> Seq<char>
    decreases fs.len(),
{
    if fs.len() == 0 {
        Seq::empty()
    } else if fs.last().section == s {
        section_lines(fs.drop_last(), s, c) + finding_line(fs.last(), c)
    } else {
        section_lines(fs.drop_last(), s, c)
    }
}

/// Whether some finding of `fs` is in section `s`.
pub open spec fn section_has(fs: Seq<FindingView>, s: FindingSection) -> bool {
    exists|i: int| 0 <= i < fs.len() && (#[trigger] fs[i]).section == s
}

/// The block of a section: its heading, then its findings or `ok`, then an
/// empty line.
pub open spec fn section_block(fs: Seq<FindingView>, s: FindingSection, c: Colors) -> Seq<char> {
    c.bold@ + section_text(s) + ":"@ + c.reset@ + "\n"@ + (if section_has(fs, s) {
        section_lines(fs, s, c)
    } else {
        "  "@ + c.green@ + "ok"@ + c.reset@ + "\n"@
    }) + "\n"@
}

/// The color of the risk total: red at the fail threshold, yellow at the
/// warn threshold, green below.
pub open spec fn risk_color(r: ReportView, c: Colors) -> Seq<char> {
    if r.risk_total >= r.fail_threshold {
        c.red@
    } else if r.risk_total >= r.warn_threshold {
        c.yellow@
    } else {
        c.green@
    }
}

/// The last line: the risk total and both thresholds.
pub open spec fn risk_line(r: ReportView, c: Colors) -> Seq<char> {
    "risk: "@ + risk_color(r, c) + c.bold@ + decimal(r.risk_total as nat) + c.reset@ + " "@ + c.dim@
        + "(warn: "@ + decimal(r.warn_threshold as nat) + ", fail: "@ + decimal(
        r.fail_threshold as nat,
    ) + ")"@ + c.reset@ + "\n"@
}

/// The text report: the heading, an empty line, the blocks of the
/// identity, filesystem, sandbox, network and runtime sections, and the
/// risk line.
pub open spec fn text_report(r: ReportView, c: Colors) -> Seq<char> {
    heading_line(r, c) + "\n"@ + section_block(r.findings, FindingSection::Identity, c)
        + section_block(r.findings, FindingSection::Filesystem, c) + section_block(
        r.findings,
        FindingSection::Sandbox,
        c,
    ) + section_block(r.findings, FindingSection::Network, c) + section_block(
        r.findings,
        FindingSection::Runtime,
        c,
    ) + risk_line(r, c)
}

fn status_color_exec(status: PostureStatus, c: &Colors) -> (r: &'static str)
    ensures
        r@ == status_color(status, *c),
{
    match status {
        PostureStatus::Pass => c.green,
        PostureStatus::Warn | PostureStatus::Degraded => c.yellow,
        PostureStatus::Fail => c.red,
    }
}

fn push_finding_line(out: &mut String, f: &Finding, c: &Colors)
    ensures
        final(out)@ == old(out)@ + finding_line(f@, *c),
{
    let (marker, color) = severity_marker_colored(&f.severity, c);
    let ghost o = out@;
    out.append("  ");
    out.append(color);
    out.append(marker);
    out.append(c.reset);
    out.append(" ");
    out.append(f.message.as_str());
    out.append(" ");
    out.append(c.dim);
    out.append("(");
    out.append(f.id.as_str());
    out.append(")");
    out.append(c.reset);
    out.append("\n");
    assert(out@ =~= o + finding_line(f@, *c));
}

fn push_section_block(out: &mut String, findings: &Vec<Finding>, s: FindingSection, c: &Colors)
    ensures
        final(out)@ == old(out)@ + section_block(findings_of(findings@), s, *c),
{
    let ghost fs = findings_of(findings@);
    let ghost o = out@;
    out.append(c.bold);
    out.append(section_name(&s));
    out.append(":");
    out.append(c.reset);
    out.append("\n");
    let ghost head = out@;
    let mut found = false;
    for i in 0..findings.len()
        invariant
            fs == findings_of(findings@),
            out@ == head + section_lines(fs.take(i as int), s, *c),
            found == section_has(fs.take(i as int), s),
            !found ==> section_lines(fs.take(i as int), s, *c) == Seq::<char>::empty(),
    {
        proof {
            assert(fs.take(i + 1).drop_last() == fs.take(i as int));
            assert(fs.take(i + 1).last() == findings@[i as int]@);
            assert(section_has(fs.take(i + 1), s) == (section_has(fs.take(i as int), s)
                || findings@[i as int]@.section == s)) by {
                let t = fs.take(i + 1);
                if section_has(t, s) {
                    let k = choose|k: int| 0 <= k < t.len() && (#[trigger] t[k]).section == s;
                    if k < i {
                        assert(fs.take(i as int)[k] == t[k]);
                    }
                }
                if section_has(fs.take(i as int), s) {
                    let k = choose|k: int|
                        0 <= k < i && (#[trigger] fs.take(i as int)[k]).section == s;
                    assert(t[k] == fs.take(i as int)[k]);
                }
                if findings@[i as int]@.section == s {
                    assert(t[i as int] == findings@[i as int]@);
                }
            }
        }
        if findings[i].section == s {
            let ghost before = out@;
            push_finding_line(out, &findings[i], c);
            found = true;
            assert(out@ =~= head + section_lines(fs.take(i + 1), s, *c));
        }
    }
    assert(fs.take(findings.len() as int) == fs);
    if !found {
        out.append("  ");
        out.append(c.green);
        out.append("ok");
        out.append(c.reset);
        out.append("\n");
    }
    out.append("\n");
    assert(out@ =~= o + section_block(fs, s, *c));
}

/// Renders the report as the command line prints it in text format.
#[verifier::spinoff_prover]
#[verifier::rlimit(40)]
pub fn render_text_report(report: &PostureReport, c: &Colors) -> (r: String)
    ensures
        r@ == text_report(report@, *c),
{
    let mut out = String::new();
    out.append(c.bold);
    out.append("SOUTHPAW CHECK: ");
    out.append(status_color_exec(report.status, c));
    out.append(status_label(report.status));
    out.append(c.reset);
    out.append(" ");
    out.append(c.dim);
    out.append("(risk: ");
    push_decimal(&mut out, report.risk_total as u64);
    out.append(", threshold: ");
    push_decimal(&mut out, report.fail_threshold as u64);
    out.append(")");
    out.append(c.reset);
    out.append("\n");
    assert(out@ =~= heading_line(report@, *c));
    out.append("\n");
    let ghost after_heading = out@;
    push_section_block(&mut out, &report.findings, FindingSection::Identity, c);
    push_section_block(&mut out, &report.findings, FindingSection::Filesystem, c);
    push_section_block(&mut out, &report.findings, FindingSection::Sandbox, c);
    push_section_block(&mut out, &report.findings, FindingSection::Network, c);
    push_section_block(&mut out, &report.findings, FindingSection::Runtime, c);
    let ghost after_blocks = out@;
    let risk_color = if report.risk_total >= report.fail_threshold {
        c.red
    } else if report.risk_total >= report.warn_threshold {
        c.yellow
    } else {
        c.green
    };
    out.append("risk: ");
    out.append(risk_color);
    out.append(c.bold);
    push_decimal(&mut out, report.risk_total as u64);
    out.append(c.reset);
    out.append(" ");
    out.append(c.dim);
    out.append("(warn: ");
    push_decimal(&mut out, report.warn_threshold as u64);
    out.append(", fail: ");
    push_decimal(&mut out, report.fail_threshold as u64);
    out.append(")");
    out.append(c.reset);
    out.append("\n");
    assert(out@ =~= after_blocks + risk_line(report@, *c));
    assert(out@ =~= text_report(report@, *c));
    out
}


/// The `--exec` command never runs after a failing check, and always runs
/// after any other; a failing check exits with code 2.
pub proof fn lemma_exec_gated_by_status(status: PostureStatus)
    ensures
        (after_check_of(true, status) == AfterCheck::Exec) == (status != PostureStatus::Fail),
        status == PostureStatus::Fail ==> after_check_of(true, status) == AfterCheck::Exit(2),
        after_check_of(false, status) == AfterCheck::Exit(exit_code(status)),
{
}

/// Under the warn or degraded run mode no check blocks the `--exec`
/// command, and no check exits with the failing code 2.
pub proof fn lemma_lenient_modes_always_launch(
    r: ReportView,
    sev: crate::policy::SeverityPolicy,
    mode: RunMode,
)
    requires
        mode != RunMode::Fail,
    ensures
        after_check_of(true, crate::report::evaluated(r, sev, mode).status) == AfterCheck::Exec,
        exit_code(crate::report::evaluated(r, sev, mode).status) <= 1,
{
}

} // verus!
