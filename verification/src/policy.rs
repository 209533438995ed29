//! The posture policy: what a deployment requires of the process it gates.
use vstd::prelude::*;

use crate::text::{chars_of, lower, lowercase_ascii, str_eq, string_from, strs_of, trim_start, trim_start_chars};
use crate::Error;

verus! {

/// How a failing posture is enforced.
#[derive(Debug, Clone, Copy, PartialEq, Eq, Structural)]
pub enum RunMode {
    Warn,
    Fail,
    Degraded,
}

/// Requirements on the identity the process runs as.
#[derive(Debug)]
pub struct IdentityPolicy {
    pub require_non_root: bool,
    pub allowed_uids: Vec<u32>,
}

/// Requirements on the writable filesystem scope.
#[derive(Debug)]
pub struct FilesystemPolicy {
    pub allowed_writable_paths: Vec<String>,
    pub deny_writable_root: bool,
}

/// Requirements on kernel sandboxing features.
#[derive(Debug, Clone, Copy, PartialEq, Eq, Structural)]
pub struct SandboxPolicy {
    pub require_seccomp: bool,
    pub require_lsm: bool,
    pub require_no_new_privs: bool,
}

/// Requirements on network reachability.
#[derive(Debug)]
pub struct NetworkPolicy {
    pub block_metadata: bool,
    pub metadata_probe_port: u16,
    pub metadata_probe_timeout_ms: u64,
    pub allowed_egress_hosts: Vec<String>,
}

/// Risk thresholds at which the posture turns to warn and to fail.
#[derive(Debug, Clone, Copy, PartialEq, Eq, Structural)]
pub struct SeverityPolicy {
    pub warn_threshold: u32,
    pub fail_threshold: u32,
}

/// How the computed status is enforced.
#[derive(Debug, Clone, Copy, PartialEq, Eq, Structural)]
pub struct EnforcementPolicy {
    pub mode: RunMode,
}

/// A complete posture policy.
#[derive(Debug)]
pub struct Policy {
    pub version: String,
    pub identity: IdentityPolicy,
    pub filesystem: FilesystemPolicy,
    pub sandbox: SandboxPolicy,
    pub network: NetworkPolicy,
    pub severity: SeverityPolicy,
    pub enforcement: EnforcementPolicy,
}

impl Default for RunMode {
    fn default() -> (r: Self)
        ensures
            r == RunMode::Fail,
    {
        RunMode::Fail
    }
}

impl Default for IdentityPolicy {
    fn default() -> (r: Self)
        ensures
            r.require_non_root,
            r.allowed_uids@ == Seq::<u32>::empty(),
    {
        IdentityPolicy { require_non_root: true, allowed_uids: Vec::new() }
    }
}

impl Default for FilesystemPolicy {
    fn default() -> (r: Self)
        ensures
            strs_of(r.allowed_writable_paths@) == seq!["/tmp"@],
            r.deny_writable_root,
    {
        let mut paths: Vec<String> = Vec::new();
        paths.push(string_from("/tmp"));
        assert(strs_of(paths@) =~= seq!["/tmp"@]);
        FilesystemPolicy { allowed_writable_paths: paths, deny_writable_root: true }
    }
}

impl Default for SandboxPolicy {
    fn default() -> (r: Self)
        ensures
            r == (SandboxPolicy {
                require_seccomp: false,
                require_lsm: false,
                require_no_new_privs: false,
            }),
    {
        SandboxPolicy { require_seccomp: false, require_lsm: false, require_no_new_privs: false }
    }
}

impl Default for NetworkPolicy {
    fn default() -> (r: Self)
        ensures
            !r.block_metadata,
            r.metadata_probe_port == 80,
            r.metadata_probe_timeout_ms == 200,
            r.allowed_egress_hosts@ == Seq::<String>::empty(),
    {
        NetworkPolicy {
            block_metadata: false,
            metadata_probe_port: 80,
            metadata_probe_timeout_ms: 200,
            allowed_egress_hosts: Vec::new(),
        }
    }
}

impl Default for SeverityPolicy {
    fn default() -> (r: Self)
        ensures
            r == (SeverityPolicy { warn_threshold: 5, fail_threshold: 10 }),
    {
        SeverityPolicy { warn_threshold: 5, fail_threshold: 10 }
    }
}

impl Default for EnforcementPolicy {
    fn default() -> (r: Self)
        ensures
            r == (EnforcementPolicy { mode: RunMode::Fail }),
    {
        EnforcementPolicy { mode: RunMode::Fail }
    }
}

/// Whether `p` holds the documented default of every field.
pub open spec fn is_default_policy(p: Policy) -> bool {
    &&& p.version@ == "1.0"@
    &&& p.identity.require_non_root
    &&& p.identity.allowed_uids@ == Seq::<u32>::empty()
    &&& strs_of(p.filesystem.allowed_writable_paths@) == seq!["/tmp"@]
    &&& p.filesystem.deny_writable_root
    &&& p.sandbox == (SandboxPolicy {
        require_seccomp: false,
        require_lsm: false,
        require_no_new_privs: false,
    })
    &&& !p.network.block_metadata
    &&& p.network.metadata_probe_port == 80
    &&& p.network.metadata_probe_timeout_ms == 200
    &&& p.network.allowed_egress_hosts@ == Seq::<String>::empty()
    &&& p.severity == (SeverityPolicy { warn_threshold: 5, fail_threshold: 10 })
    &&& p.enforcement == (EnforcementPolicy { mode: RunMode::Fail })
}

impl Default for Policy {
    fn default() -> (r: Self)
        ensures
            is_default_policy(r),
    {
        Policy {
            version: string_from("1.0"),
            identity: IdentityPolicy::default(),
            filesystem: FilesystemPolicy::default(),
            sandbox: SandboxPolicy::default(),
            network: NetworkPolicy::default(),
            severity: SeverityPolicy::default(),
            enforcement: EnforcementPolicy::default(),
        }
    }
}

/// The document format a policy text is read in.
#[derive(Debug, Clone, Copy, PartialEq, Eq, Structural)]
pub enum PolicyFormat {
    Json,
    Yaml,
}

/// The format a policy text is read in: the lower-cased hint when one is
/// given (`json`, `yaml` or `yml`; any other hint is refused, with the
/// lower-cased hint), else JSON when the text starts with `{` after leading
/// whitespace and YAML otherwise.
pub open spec fn policy_format(input: Seq<char>, hint: Option<Seq<char>>) -> Result<
    PolicyFormat,
    Seq<char>,
> {
    match hint {
        Some(h) => {
            let l = lower(h);
            if l == "json"@ {
                Ok(PolicyFormat::Json)
            } else if l == "yaml"@ || l == "yml"@ {
                Ok(PolicyFormat::Yaml)
            } else {
                Err(l)
            }
        },
        None => {
            let t = trim_start(input);
            if t.len() > 0 && t[0] == '{' {
                Ok(PolicyFormat::Json)
            } else {
                Ok(PolicyFormat::Yaml)
            }
        },
    }
}

impl Policy {
    /// Replaces the run mode by the override when there is one; every other
    /// field stays as it is.
    pub fn override_mode(&mut self, mode_override: Option<RunMode>)
        ensures
            *final(self) == (Policy {
                enforcement: EnforcementPolicy {
                    mode: match mode_override {
                        Some(m) => m,
                        None => old(self).enforcement.mode,
                    },
                },
                ..*old(self)
            }),
    {
        if let Some(mode) = mode_override {
            self.enforcement.mode = mode;
        }
    }

    /// Decides which format `input` is parsed in, from the optional format
    /// hint (such as a file extension) or from the text itself.
    pub fn format_of(input: &str, format_hint: Option<&str>) -> (r: Result<PolicyFormat, Error>)
        ensures
            match policy_format(
                input@,
                match format_hint {
                    Some(h) => Some(h@),
                    None => None,
                },
            ) {
                Ok(f) => r == Ok::<PolicyFormat, Error>(f),
                Err(h) => r matches Err(Error::InvalidPolicyFormat(s)) && s@ == h,
            },
    {
        match format_hint {
            Some(h) => {
                let l = lowercase_ascii(h);
                if str_eq(l.as_str(), "json") {
                    Ok(PolicyFormat::Json)
                } else if str_eq(l.as_str(), "yaml") || str_eq(l.as_str(), "yml") {
                    Ok(PolicyFormat::Yaml)
                } else {
                    Err(Error::InvalidPolicyFormat(l))
                }
            },
            None => {
                let v = chars_of(input);
                let t = trim_start_chars(&v);
                if t.len() > 0 && t[0] == '{' {
                    Ok(PolicyFormat::Json)
                } else {
                    Ok(PolicyFormat::Yaml)
                }
            },
        }
    }
}

} // verus!
