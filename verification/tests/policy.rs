use southpaw::policy::{Policy, PolicyFormat, RunMode};
use southpaw::Error;

#[test]
fn default_policy_holds_documented_values() {
    let policy = Policy::default();
    assert_eq!(policy.version, "1.0");
    assert!(policy.identity.require_non_root);
    assert!(policy.identity.allowed_uids.is_empty());
    assert_eq!(policy.filesystem.allowed_writable_paths, vec!["/tmp"]);
    assert!(policy.filesystem.deny_writable_root);
    assert!(!policy.sandbox.require_seccomp);
    assert!(!policy.sandbox.require_lsm);
    assert!(!policy.sandbox.require_no_new_privs);
    assert!(!policy.network.block_metadata);
    assert_eq!(policy.network.metadata_probe_port, 80);
    assert_eq!(policy.network.metadata_probe_timeout_ms, 200);
    assert!(policy.network.allowed_egress_hosts.is_empty());
    assert_eq!(policy.severity.warn_threshold, 5);
    assert_eq!(policy.severity.fail_threshold, 10);
    assert_eq!(policy.enforcement.mode, RunMode::Fail);
}

#[test]
fn format_hint_decides_the_format() {
    assert_eq!(Policy::format_of("{}", Some("yaml")).unwrap(), PolicyFormat::Yaml);
    assert_eq!(Policy::format_of("a: 1", Some("JSON")).unwrap(), PolicyFormat::Json);
    assert_eq!(Policy::format_of("", Some("Yml")).unwrap(), PolicyFormat::Yaml);
}

#[test]
fn unknown_format_hint_is_refused_lowercased() {
    match Policy::format_of("{}", Some("TOML")) {
        Err(Error::InvalidPolicyFormat(h)) => assert_eq!(h, "toml"),
        other => panic!("unexpected {other:?}"),
    }
}

#[test]
fn content_decides_the_format_without_hint() {
    assert_eq!(Policy::format_of("  \n\t{\"a\":1}", None).unwrap(), PolicyFormat::Json);
    assert_eq!(Policy::format_of("version: \"1.0\"", None).unwrap(), PolicyFormat::Yaml);
    assert_eq!(Policy::format_of("", None).unwrap(), PolicyFormat::Yaml);
    assert_eq!(Policy::format_of("\u{3000}{}", None).unwrap(), PolicyFormat::Json);
}

#[test]
fn mode_override_replaces_only_the_mode() {
    let mut policy = Policy::default();
    policy.override_mode(None);
    assert_eq!(policy.enforcement.mode, RunMode::Fail);
    policy.override_mode(Some(RunMode::Degraded));
    assert_eq!(policy.enforcement.mode, RunMode::Degraded);
    assert_eq!(policy.severity.fail_threshold, 10);
    assert_eq!(policy.filesystem.allowed_writable_paths, vec!["/tmp"]);
}

#[test]
fn errors_have_messages() {
    assert_eq!(Error::Io("gone".to_string()).message(), "io error: gone");
    assert_eq!(Error::Json("eof".to_string()).message(), "json error: eof");
    assert_eq!(Error::Yaml("tab".to_string()).message(), "yaml error: tab");
    assert_eq!(
        Error::InvalidPolicyFormat("toml".to_string()).message(),
        "invalid policy format: toml"
    );
}
