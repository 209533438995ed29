use southpaw::checks::linux::{
    apply_network, collect, evaluate_filesystem_mounts, is_writable_mount, metadata_probe,
    path_allowed_by_policy, path_is_within, LinuxHost, LsmFiles,
};
use southpaw::checks::procfs::{
    decode_capabilities, decode_mount_field, mountinfo_decodable, parse_mountinfo,
    parse_proc_status,
};
use southpaw::checks::HostSnapshot;
use southpaw::policy::{Policy, RunMode};
use southpaw::report::{FindingSeverity, PostureReport, PostureStatus};
use southpaw::{check_posture, text};

fn finding_ids(report: &PostureReport) -> Vec<&str> {
    report.findings.iter().map(|f| f.id.as_str()).collect()
}

fn filesystem_policy() -> Policy {
    let mut policy = Policy::default();
    policy.filesystem.allowed_writable_paths = vec!["/tmp".to_string()];
    policy.filesystem.deny_writable_root = true;
    policy
}

#[test]
fn parses_proc_status_identity_sandbox_and_caps() {
    let snapshot = parse_proc_status(
        r#"
Name: posture
Uid:	1000	1001	1000	1000
Gid:	2000	2001	2000	2000
CapEff:	0000000000000400
NoNewPrivs:	1
Seccomp:	2
"#,
    );

    assert_eq!(snapshot.uid, Some(1000));
    assert_eq!(snapshot.euid, Some(1001));
    assert_eq!(snapshot.gid, Some(2000));
    assert_eq!(snapshot.egid, Some(2001));
    assert_eq!(snapshot.cap_eff, Some(0x400));
    assert_eq!(snapshot.no_new_privs, Some(true));
    assert_eq!(snapshot.seccomp, Some(2));
    assert_eq!(
        decode_capabilities(snapshot.cap_eff.unwrap()),
        vec!["CAP_NET_BIND_SERVICE".to_string()]
    );
}

#[test]
fn mountinfo_decodes_escaped_paths_and_writable_state() {
    let mounts = parse_mountinfo(
        "36 25 0:32 / /tmp/my\\040cache rw,relatime - tmpfs tmpfs rw,size=1024k\n",
    );

    assert_eq!(mounts.len(), 1);
    assert_eq!(mounts[0].mount_point, "/tmp/my cache");
    assert_eq!(mounts[0].fs_type, "tmpfs");
    assert!(is_writable_mount(&mounts[0].mount_options));
}

#[test]
fn path_allowlist_respects_boundaries() {
    let allowed = vec!["/tmp".to_string()];

    assert!(path_allowed_by_policy("/tmp", &allowed));
    assert!(path_allowed_by_policy("/tmp/cache", &allowed));
    assert!(!path_allowed_by_policy("/tmpx", &allowed));
}

#[test]
fn filesystem_flags_writable_root_and_disallowed_mounts() {
    let policy = filesystem_policy();
    let mounts = parse_mountinfo(
        "1 0 8:1 / / rw,relatime - ext4 /dev/root rw\n\
         2 1 0:32 / /tmp rw,relatime - tmpfs tmpfs rw\n\
         3 1 0:33 / /var/lib/app rw,relatime - tmpfs tmpfs rw\n",
    );
    let mut report = PostureReport::empty();

    evaluate_filesystem_mounts(&policy, &mounts, &mut report);

    assert!(report.filesystem.root_is_writable);
    assert!(finding_ids(&report).contains(&"filesystem.root_writable"));
    assert!(finding_ids(&report).contains(&"filesystem.disallowed_writable_mounts"));
}

#[test]
fn filesystem_detects_readonly_host_socket_mounts() {
    let policy = filesystem_policy();
    let mounts = parse_mountinfo(
        "4 1 0:44 /docker.sock /var/run/docker.sock ro,relatime - bind /var/run/docker.sock ro\n",
    );
    let mut report = PostureReport::empty();

    evaluate_filesystem_mounts(&policy, &mounts, &mut report);

    assert!(report
        .filesystem
        .suspicious_mounts
        .iter()
        .any(|mount| mount.contains("docker.sock")));
    assert!(finding_ids(&report).contains(&"filesystem.suspicious_host_mount"));
}

#[test]
fn egress_policy_is_flagged_without_metadata_probe() {
    let mut policy = Policy::default();
    policy.network.block_metadata = false;
    policy.network.allowed_egress_hosts = vec!["api.example.com".to_string()];
    let mut report = PostureReport::empty();

    apply_network(&policy, &mut report, false);

    assert!(!report.network.metadata_probe_attempted);
    assert!(finding_ids(&report).contains(&"network.egress_validation_todo"));
}

#[test]
fn filesystem_details_list_the_offending_mounts() {
    let policy = filesystem_policy();
    let mounts = parse_mountinfo(
        "1 0 8:1 / / ro,relatime - ext4 /dev/root ro\n\
         2 1 0:32 / /data rw,noatime - xfs /dev/sdb rw\n\
         3 1 0:33 / /srv rw - ext4 /dev/sdc rw\n\
         4 1 0:34 / /proc rw - proc proc rw\n\
         5 1 0:35 / /run/containerd/containerd.sock rw - tmpfs tmpfs rw\n",
    );
    let mut report = PostureReport::empty();
    evaluate_filesystem_mounts(&policy, &mounts, &mut report);

    assert!(!report.filesystem.root_is_writable);
    assert_eq!(
        report.filesystem.writable_paths,
        vec!["/data", "/srv", "/proc", "/run/containerd/containerd.sock"]
    );
    assert_eq!(
        report.filesystem.suspicious_mounts,
        vec!["/run/containerd/containerd.sock (tmpfs)"]
    );
    assert_eq!(
        finding_ids(&report),
        vec![
            "filesystem.disallowed_writable_mounts",
            "filesystem.suspicious_host_mount"
        ]
    );
    assert_eq!(
        report.findings[0].details,
        vec![(
            "paths".to_string(),
            "/data [xfs], /srv [ext4], /run/containerd/containerd.sock [tmpfs]".to_string()
        )]
    );
    assert_eq!(report.findings[0].severity, FindingSeverity::Warn);
    assert_eq!(report.findings[0].score, 5);
    assert_eq!(report.findings[1].score, 9);
}

#[test]
fn mountinfo_skips_short_and_unseparated_lines() {
    let mounts = parse_mountinfo("1 2 3 4 5 - ext4 src\nno separator here at all\n\n");
    assert!(mounts.is_empty());
    let mounts = parse_mountinfo("1 2 3 4 /mnt rw - \n");
    assert_eq!(mounts.len(), 1);
    assert_eq!(mounts[0].fs_type, "");
    assert_eq!(mounts[0].source, "");
}

#[test]
fn mount_fields_decode_octal_escapes() {
    assert_eq!(decode_mount_field("a\\040b").unwrap(), "a b");
    assert_eq!(decode_mount_field("\\134x").unwrap(), "\\x");
    assert_eq!(decode_mount_field("\\+12").unwrap(), "\n");
    assert_eq!(decode_mount_field("\\400x").unwrap(), "\\400x");
    assert_eq!(decode_mount_field("ab\\04").unwrap(), "ab\\04");
    assert_eq!(decode_mount_field("\\012").unwrap(), "\n");
}

#[test]
fn mount_field_cut_inside_a_character_is_refused() {
    assert_eq!(decode_mount_field("\\abé"), None);
    assert!(!mountinfo_decodable("1 2 3 4 /x\\abé rw - ext4 src\n"));
    assert!(mountinfo_decodable("1 2 3 4 /x\\040é rw - ext4 src\n"));
}

#[test]
fn proc_status_later_lines_override_and_bad_values_clear() {
    let s = parse_proc_status("Uid: 5\nUid: 7 8\nSeccomp: 300\nNoNewPrivs: 2\r\nCapEff: zz\n");
    assert_eq!(s.uid, Some(7));
    assert_eq!(s.euid, Some(8));
    assert_eq!(s.seccomp, None);
    assert_eq!(s.no_new_privs, None);
    assert_eq!(s.cap_eff, None);
    let s = parse_proc_status("Uid: x +9 10\nNoNewPrivs:\t0\r\nCapEff: FFFFFFFFFFFFFFFF");
    assert_eq!(s.uid, Some(9));
    assert_eq!(s.euid, Some(10));
    assert_eq!(s.no_new_privs, Some(false));
    assert_eq!(s.cap_eff, Some(u64::MAX));
}

#[test]
fn capabilities_decode_in_order_and_ignore_high_bits() {
    assert!(decode_capabilities(0).is_empty());
    assert_eq!(
        decode_capabilities(0b1 | (1 << 21) | (1 << 40) | (1 << 63)),
        vec!["CAP_CHOWN", "CAP_SYS_ADMIN", "CAP_CHECKPOINT_RESTORE"]
    );
    assert_eq!(decode_capabilities(u64::MAX).len(), 41);
}

#[test]
fn paths_normalize_trailing_slashes() {
    assert!(path_is_within("/tmp/", "/tmp"));
    assert!(path_is_within("/tmp/a/b", "/tmp///"));
    assert!(path_is_within("/anything", "/"));
    assert!(path_is_within("/anything", "//"));
    assert!(!path_is_within("/var", "/tmp"));
    assert!(!path_allowed_by_policy("/tmp", &Vec::new()));
}

#[test]
fn writable_mounts_need_rw_without_ro() {
    assert!(is_writable_mount("rw,relatime"));
    assert!(!is_writable_mount("ro,relatime"));
    assert!(!is_writable_mount("rw,ro"));
    assert!(!is_writable_mount("rwx,noatime"));
    assert!(!is_writable_mount(""));
}

#[test]
fn metadata_probe_follows_policy() {
    let mut policy = Policy::default();
    assert!(metadata_probe(&policy).is_none());
    policy.network.block_metadata = true;
    policy.network.metadata_probe_timeout_ms = 0;
    policy.network.metadata_probe_port = 8080;
    let probe = metadata_probe(&policy).expect("probe requested");
    assert_eq!(probe.address, [169, 254, 169, 254]);
    assert_eq!(probe.port, 8080);
    assert_eq!(probe.timeout_ms, 1);
}

#[test]
fn metadata_reachable_fails_when_blocked() {
    let mut policy = Policy::default();
    policy.network.block_metadata = true;
    let mut report = PostureReport::empty();
    apply_network(&policy, &mut report, true);
    assert!(report.network.metadata_probe_attempted);
    assert_eq!(report.network.metadata_reachable, Some(true));
    assert_eq!(finding_ids(&report), vec!["network.metadata_reachable"]);

    let mut report = PostureReport::empty();
    apply_network(&policy, &mut report, false);
    assert_eq!(report.network.metadata_reachable, Some(false));
    assert!(report.findings.is_empty());
}

fn container_host() -> LinuxHost {
    LinuxHost {
        proc_status: Ok("Uid:\t0\t0\t0\t0\nGid:\t0\t0\t0\t0\nCapEff:\t00000000a80425fb\nNoNewPrivs:\t0\nSeccomp:\t0\n".to_string()),
        mountinfo: Ok("1 0 0:1 / / rw,relatime - overlay overlay rw\n2 1 0:2 / /proc rw - proc proc rw\n".to_string()),
        lsm: LsmFiles {
            apparmor_enabled: Some("Y\n".to_string()),
            apparmor_current: Some("unconfined\n".to_string()),
            selinux_enforce: None,
        },
        metadata_reachable: false,
    }
}

#[test]
fn root_container_fails_default_policy() {
    let policy = Policy::default();
    let report = collect(&policy, &container_host()).expect("report");
    assert_eq!(
        finding_ids(&report),
        vec![
            "identity.non_root",
            "identity.capabilities_present",
            "filesystem.root_writable",
        ]
    );
    assert_eq!(report.status, PostureStatus::Fail);
    assert_eq!(report.risk_total, 25);
    assert!(report.identity.is_root);
    assert_eq!(report.identity.effective_caps.len(), 14);
    assert_eq!(report.sandbox.apparmor_enabled, Some(true));
    assert_eq!(report.sandbox.apparmor_profile.as_deref(), Some("unconfined"));
    assert_eq!(report.sandbox.seccomp_mode, Some(0));
    assert_eq!(report.filesystem.writable_paths, vec!["/", "/proc"]);
}

#[test]
fn strict_policy_adds_sandbox_findings() {
    let mut policy = Policy::default();
    policy.sandbox.require_seccomp = true;
    policy.sandbox.require_no_new_privs = true;
    policy.sandbox.require_lsm = true;
    policy.identity.allowed_uids = vec![1000, 1001];
    policy.enforcement.mode = RunMode::Warn;
    let report = collect(&policy, &container_host()).expect("report");
    let ids = finding_ids(&report);
    assert!(ids.contains(&"identity.allowed_uids"));
    assert!(ids.contains(&"sandbox.seccomp_required"));
    assert!(ids.contains(&"sandbox.no_new_privs_required"));
    assert!(ids.contains(&"sandbox.lsm_required"));
    assert_eq!(report.status, PostureStatus::Warn);
    let uid_finding = report
        .findings
        .iter()
        .find(|f| f.id == "identity.allowed_uids")
        .expect("uid finding");
    assert_eq!(
        uid_finding.details,
        vec![
            ("allowed_uids".to_string(), "1000,1001".to_string()),
            ("effective_uid".to_string(), "0".to_string()),
        ]
    );
}

#[test]
fn unreadable_host_files_become_warnings() {
    let policy = Policy::default();
    let host = LinuxHost {
        proc_status: Err("permission denied".to_string()),
        mountinfo: Err("no such file".to_string()),
        lsm: LsmFiles { apparmor_enabled: None, apparmor_current: None, selinux_enforce: Some("1".to_string()) },
        metadata_reachable: true,
    };
    let report = collect(&policy, &host).expect("report");
    assert_eq!(
        finding_ids(&report),
        vec!["runtime.proc_status_unavailable", "filesystem.mountinfo_unavailable"]
    );
    assert_eq!(report.findings[0].details, vec![("error".to_string(), "permission denied".to_string())]);
    assert_eq!(report.status, PostureStatus::Warn);
    assert_eq!(report.risk_total, 6);
    assert_eq!(report.sandbox.selinux_enforcing, Some(true));
    assert_eq!(report.identity.uid, None);
    assert!(!report.network.metadata_probe_attempted);
}

#[test]
fn unsupported_platform_warns() {
    let policy = Policy::default();
    let report = check_posture(&policy, &HostSnapshot::Unsupported).expect("report");
    assert_eq!(finding_ids(&report), vec!["runtime.platform_unsupported"]);
    assert_eq!(report.status, PostureStatus::Warn);
    assert_eq!(report.risk_total, 2);
}

#[test]
fn text_helpers_follow_std() {
    let v: Vec<char> = " a\u{a0}b \t".chars().collect();
    assert_eq!(text::trim_chars(&v), vec!['a', '\u{a0}', 'b']);
    assert_eq!(text::parse_uint_str("+42", 10, 255), Some(42));
    assert_eq!(text::parse_uint_str("256", 10, 255), None);
    assert_eq!(text::parse_uint_str("+", 10, 255), None);
    assert_eq!(text::parse_uint_str("ff", 16, u64::MAX), Some(255));
    assert_eq!(text::decimal_string(0), "0");
    assert_eq!(text::decimal_string(4096), "4096");
    let lines = text::split_lines(&"a\r\nb\n\nc\r".chars().collect());
    assert_eq!(lines, vec![vec!['a'], vec!['b'], vec![], vec!['c', '\r']]);
}

#[test]
fn collected_report_is_already_evaluated() {
    let policy = Policy::default();
    let mut report = collect(&policy, &container_host()).expect("report");
    let sum: u32 = report.findings.iter().map(|f| f.score).sum();
    assert_eq!(report.risk_total, sum);
    assert_eq!(report.warn_threshold, policy.severity.warn_threshold);
    assert_eq!(report.fail_threshold, policy.severity.fail_threshold);
    let (status, total) = (report.status, report.risk_total);
    report.evaluate_against(&policy);
    assert_eq!(report.status, status);
    assert_eq!(report.risk_total, total);
}
