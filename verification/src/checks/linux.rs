//! The Linux posture checks: what the host shows, weighed against the policy.
use vstd::prelude::*;

use crate::checks::procfs::{
    MountInfo, MountView, ProcStatusSnapshot, cap_names, decode_capabilities, mountinfo_decodes,
    mountinfo_of, mounts_of, parse_mountinfo, parse_proc_status, proc_status_of,
};
use crate::Error;
use crate::policy::Policy;
use crate::report::{
    FindingSection, FindingSeverity, FindingView, FsView, IdentityView, NetworkReport, PostureReport,
    ReportView, SandboxView, empty_report, chars_less, evaluated, keys_ascending, pairs_of, total_score,
};
use crate::text::{
    chars_eq, chars_of, contains_seq, join, join_strings, split_chars_on, split_on, str_contains,
    str_eq, string_from, strs_of, seqs_of, lemma_contains_push, decimal, decimal_string, trim, trim_chars,
    string_of,
};

verus! {

// ---------------------------------------------------------------------------
// Mount options, paths and the allowlist
// ---------------------------------------------------------------------------

/// Whether the comma-separated mount options hold `rw` and not `ro`.
pub open spec fn writable_options(opts: Seq<char>) -> bool {
    split_on(opts, ',').contains("rw"@) && !split_on(opts, ',').contains("ro"@)
}

/// Whether a mount with these options is writable.
pub fn is_writable_mount(mount_options: &str) -> (r: bool)
    ensures
        r == writable_options(mount_options@),
{
    let v = chars_of(mount_options);
    let parts = split_chars_on(&v, ',');
    let rw = chars_of("rw");
    let ro = chars_of("ro");
    let ghost all = seqs_of(parts@);
    let mut has_rw = false;
    let mut has_ro = false;
    for i in 0..parts.len()
        invariant
            all == seqs_of(parts@),
            all == split_on(mount_options@, ','),
            rw@ == "rw"@,
            ro@ == "ro"@,
            has_rw == all.take(i as int).contains("rw"@),
            has_ro == all.take(i as int).contains("ro"@),
    {
        proof {
            assert(all.take(i + 1) == all.take(i as int).push(all[i as int]));
            assert(all[i as int] == parts@[i as int]@);
            lemma_contains_push(all.take(i as int), all[i as int], "rw"@);
            lemma_contains_push(all.take(i as int), all[i as int], "ro"@);
        }
        if chars_eq(&parts[i], &rw) {
            has_rw = true;
        }
        if chars_eq(&parts[i], &ro) {
            has_ro = true;
        }
    }
    assert(all.take(parts.len() as int) == all);
    has_rw && !has_ro
}

/// `p` without its trailing slashes.
pub open spec fn trim_trailing_slashes(p: Seq<char>) -> Seq<char>
    decreases p.len(),
{
    if p.len() > 0 && p.last() == '/' {
        trim_trailing_slashes(p.drop_last())
    } else {
        p
    }
}

/// A path with trailing slashes removed, the root `/` itself excepted.
pub open spec fn normalize_path(p: Seq<char>) -> Seq<char> {
    if p == "/"@ {
        "/"@
    } else {
        trim_trailing_slashes(p)
    }
}

/// Whether `path` lies at or below `base` on path-component boundaries,
/// after both are normalized; a base of `/` holds every path.
pub open spec fn path_within(path: Seq<char>, base: Seq<char>) -> bool {
    let np = normalize_path(path);
    let nb = normalize_path(base);
    ||| nb == "/"@
    ||| np == nb
    ||| (np.len() > nb.len() && np.take(nb.len() as int) == nb && np[nb.len() as int] == '/')
}

/// Whether some path of the allowlist holds `path`; an empty allowlist holds
/// nothing.
pub open spec fn path_allowed(path: Seq<char>, allowed: Seq<Seq<char>>) -> bool {
    exists|i: int| 0 <= i < allowed.len() && path_within(path, #[trigger] allowed[i])
}

proof fn lemma_trim_trailing_slashes(p: Seq<char>, k: int)
    requires
        0 <= k <= p.len(),
        forall|j: int| k <= j < p.len() ==> p[j] == '/',
    ensures
        trim_trailing_slashes(p) == trim_trailing_slashes(p.take(k)),
    decreases p.len() - k,
{
    if k < p.len() {
        assert(p.drop_last() == p.take(p.len() - 1));
        lemma_trim_trailing_slashes(p.drop_last(), k);
        assert(p.drop_last().take(k) == p.take(k));
    } else {
        assert(p.take(k) == p);
    }
}

/// The path with trailing slashes removed, `/` itself excepted.
fn normalize_pathish(path: &str) -> (r: Vec<char>)
    ensures
        r@ == normalize_path(path@),
{
    let v = chars_of(path);
    if str_eq(path, "/") {
        return chars_of("/");
    }
    let mut k = v.len();
    while k > 0 && v[k - 1] == '/'
        invariant
            k <= v.len(),
            forall|j: int| k <= j < v.len() ==> v@[j] == '/',
        decreases k,
    {
        k -= 1;
    }
    proof {
        lemma_trim_trailing_slashes(v@, k as int);
        let t = v@.take(k as int);
        assert(trim_trailing_slashes(t) == t) by {
            if t.len() > 0 {
                assert(t.last() == v@[k - 1]);
            }
        }
    }
    let mut out: Vec<char> = Vec::new();
    for i in 0..k
        invariant
            k <= v.len(),
            out@ == v@.take(i as int),
    {
        out.push(v[i]);
        assert(v@.take(i + 1) == v@.take(i as int).push(v@[i as int]));
    }
    out
}

/// Whether `path` lies at or below `base`.
pub fn path_is_within(path: &str, base: &str) -> (r: bool)
    ensures
        r == path_within(path@, base@),
{
    let np = normalize_pathish(path);
    let nb = normalize_pathish(base);
    if chars_eq(&nb, &chars_of("/")) {
        return true;
    }
    if chars_eq(&np, &nb) {
        return true;
    }
    if np.len() <= nb.len() {
        return false;
    }
    for i in 0..nb.len()
        invariant
            np.len() > nb.len(),
            np@ == normalize_path(path@),
            nb@ == normalize_path(base@),
            nb@ != "/"@,
            np@ != nb@,
            forall|j: int| 0 <= j < i ==> np@[j] == nb@[j],
    {
        if np[i] != nb[i] {
            assert(np@.take(nb.len() as int)[i as int] != nb@[i as int]);
            return false;
        }
    }
    assert(np@.take(nb.len() as int) =~= nb@);
    np[nb.len()] == '/'
}

/// Whether some path of `allowed_paths` holds `path`.
pub fn path_allowed_by_policy(path: &str, allowed_paths: &Vec<String>) -> (r: bool)
    ensures
        r == path_allowed(path@, strs_of(allowed_paths@)),
{
    let ghost all = strs_of(allowed_paths@);
    for i in 0..allowed_paths.len()
        invariant
            all == strs_of(allowed_paths@),
            forall|j: int| 0 <= j < i ==> !path_within(path@, #[trigger] all[j]),
    {
        if path_is_within(path, allowed_paths[i].as_str()) {
            assert(path_within(path@, all[i as int]));
            return true;
        }
    }
    false
}

/// Names of container runtime control sockets.
pub open spec fn socket_markers() -> Seq<Seq<char>> {
    seq!["docker.sock"@, "containerd.sock"@, "podman.sock"@, "crio.sock"@]
}

fn socket_marker(i: usize) -> (s: &'static str)
    requires
        i < 4,
    ensures
        s@ == socket_markers()[i as int],
{
    if i == 0 {
        "docker.sock"
    } else if i == 1 {
        "containerd.sock"
    } else if i == 2 {
        "podman.sock"
    } else {
        "crio.sock"
    }
}

/// Pseudo and layered filesystems whose writability is not weighed against the allowlist.
pub open spec fn ignored_fs_types() -> Seq<Seq<char>> {
    seq!["proc"@, "sysfs"@, "cgroup"@, "cgroup2"@, "mqueue"@, "devpts"@, "securityfs"@, "tracefs"@, "configfs"@, "pstore"@, "autofs"@, "overlay"@]
}

fn ignored_fs_type(i: usize) -> (s: &'static str)
    requires
        i < 12,
    ensures
        s@ == ignored_fs_types()[i as int],
{
    if i == 0 {
        "proc"
    } else if i == 1 {
        "sysfs"
    } else if i == 2 {
        "cgroup"
    } else if i == 3 {
        "cgroup2"
    } else if i == 4 {
        "mqueue"
    } else if i == 5 {
        "devpts"
    } else if i == 6 {
        "securityfs"
    } else if i == 7 {
        "tracefs"
    } else if i == 8 {
        "configfs"
    } else if i == 9 {
        "pstore"
    } else if i == 10 {
        "autofs"
    } else {
        "overlay"
    }
}


// ---------------------------------------------------------------------------
// Filesystem findings
// ---------------------------------------------------------------------------

/// Whether the mount point or the source of `m` names a container runtime
/// control socket.
pub open spec fn suspicious_mount(m: MountView) -> bool {
    exists|i: int|
        0 <= i < 4 && (contains_seq(m.mount_point, #[trigger] socket_markers()[i]) || contains_seq(
            m.source,
            socket_markers()[i],
        ))
}

/// `mount_point (source)`.
pub open spec fn mount_descriptor(m: MountView) -> Seq<char> {
    m.mount_point + " ("@ + m.source + ")"@
}

/// `mount_point [fs_type]`.
pub open spec fn typed_descriptor(m: MountView) -> Seq<char> {
    m.mount_point + " ["@ + m.fs_type + "]"@
}

/// The descriptor of a suspicious mount.
pub open spec fn suspicious_fn() -> spec_fn(MountView) -> Option<Seq<char>> {
    |m: MountView|
        if suspicious_mount(m) {
            Some(mount_descriptor(m))
        } else {
            None
        }
}

/// The mount point of a writable mount.
pub open spec fn writable_fn() -> spec_fn(MountView) -> Option<Seq<char>> {
    |m: MountView|
        if writable_options(m.mount_options) {
            Some(m.mount_point)
        } else {
            None
        }
}

/// The typed descriptor of a writable mount that is neither of an ignored
/// filesystem type nor held by the allowlist.
pub open spec fn disallowed_fn(allowed: Seq<Seq<char>>) -> spec_fn(MountView) -> Option<Seq<char>> {
    |m: MountView|
        if writable_options(m.mount_options) && !ignored_fs_types().contains(m.fs_type)
            && !path_allowed(m.mount_point, allowed) {
            Some(typed_descriptor(m))
        } else {
            None
        }
}

/// Whether some writable mount is the root `/`.
pub open spec fn writes_root(ms: Seq<MountView>) -> bool {
    exists|i: int|
        0 <= i < ms.len() && writable_options((#[trigger] ms[i]).mount_options) && ms[i].mount_point
            == "/"@
}

/// `seq![f]` when `c` holds, else nothing.
pub open spec fn when(c: bool, f: FindingView) -> Seq<FindingView> {
    if c {
        seq![f]
    } else {
        Seq::empty()
    }
}

/// A finding without details.
pub open spec fn plain_finding(
    id: Seq<char>,
    section: FindingSection,
    message: Seq<char>,
    severity: FindingSeverity,
    score: u32,
) -> FindingView {
    FindingView { id, section, message, severity, score, details: Seq::empty() }
}

/// A finding with one detail.
pub open spec fn detailed_finding(
    id: Seq<char>,
    section: FindingSection,
    message: Seq<char>,
    severity: FindingSeverity,
    score: u32,
    key: Seq<char>,
    value: Seq<char>,
) -> FindingView {
    FindingView { id, section, message, severity, score, details: seq![(key, value)] }
}

// ---------------------------------------------------------------------------
// The findings of the Linux checks
// ---------------------------------------------------------------------------

/// The failure for a writable root mount.
pub open spec fn root_writable_finding() -> FindingView {
    plain_finding(
        "filesystem.root_writable"@,
        FindingSection::Filesystem,
        "Root filesystem mount (/) is writable"@,
        FindingSeverity::Fail,
        10,
    )
}

/// The warning for writable mounts outside the allowlist, with their list.
pub open spec fn disallowed_mounts_finding(paths: Seq<char>) -> FindingView {
    detailed_finding(
        "filesystem.disallowed_writable_mounts"@,
        FindingSection::Filesystem,
        "Writable mounts exist outside the policy allowlist"@,
        FindingSeverity::Warn,
        5,
        "paths"@,
        paths,
    )
}

/// The failure for host-control socket mounts, with their list.
pub open spec fn suspicious_mount_finding(mounts: Seq<char>) -> FindingView {
    detailed_finding(
        "filesystem.suspicious_host_mount"@,
        FindingSection::Filesystem,
        "Potential host-control socket mount detected (e.g. docker socket)"@,
        FindingSeverity::Fail,
        9,
        "mounts"@,
        mounts,
    )
}

/// The warning that the effective uid is unknown to the allowlist.
pub open spec fn uid_unknown_finding() -> FindingView {
    plain_finding(
        "identity.allowed_uids_unknown"@,
        FindingSection::Identity,
        "Unable to determine effective UID for allowlist enforcement"@,
        FindingSeverity::Warn,
        3,
    )
}

/// The failure for running as root.
pub open spec fn non_root_finding() -> FindingView {
    plain_finding(
        "identity.non_root"@,
        FindingSection::Identity,
        "Process is running as root (effective UID 0)"@,
        FindingSeverity::Fail,
        10,
    )
}

/// The warning that the real and effective uids differ.
pub open spec fn setuid_mismatch_finding() -> FindingView {
    plain_finding(
        "identity.setuid_mismatch"@,
        FindingSection::Identity,
        "Real UID and effective UID differ (setuid or privilege transition)"@,
        FindingSeverity::Warn,
        4,
    )
}

/// The warning that the real and effective gids differ.
pub open spec fn setgid_mismatch_finding() -> FindingView {
    plain_finding(
        "identity.setgid_mismatch"@,
        FindingSection::Identity,
        "Real GID and effective GID differ (setgid or privilege transition)"@,
        FindingSeverity::Warn,
        4,
    )
}

/// The warning for effective capabilities, with their list.
pub open spec fn capabilities_finding(caps: Seq<char>) -> FindingView {
    detailed_finding(
        "identity.capabilities_present"@,
        FindingSection::Identity,
        "Process has effective Linux capabilities; review least-privilege settings"@,
        FindingSeverity::Warn,
        5,
        "capabilities"@,
        caps,
    )
}

/// The failure for a missing seccomp filter.
pub open spec fn seccomp_finding() -> FindingView {
    plain_finding(
        "sandbox.seccomp_required"@,
        FindingSection::Sandbox,
        "Seccomp is not enabled for this process"@,
        FindingSeverity::Fail,
        10,
    )
}

/// The warning for a missing no_new_privs flag.
pub open spec fn no_new_privs_finding() -> FindingView {
    plain_finding(
        "sandbox.no_new_privs_required"@,
        FindingSection::Sandbox,
        "no_new_privs is not set for this process"@,
        FindingSeverity::Warn,
        4,
    )
}

/// The failure for a missing enforcing LSM.
pub open spec fn lsm_finding() -> FindingView {
    plain_finding(
        "sandbox.lsm_required"@,
        FindingSection::Sandbox,
        "No enforcing AppArmor or SELinux profile detected"@,
        FindingSeverity::Fail,
        8,
    )
}

/// The failure for an egress allowlist that is not enforced.
pub open spec fn egress_finding() -> FindingView {
    plain_finding(
        "network.egress_validation_todo"@,
        FindingSection::Network,
        "allowed_egress_hosts is configured but egress validation is NOT YET IMPLEMENTED — this policy is not being enforced"@,
        FindingSeverity::Fail,
        10,
    )
}

/// The failure for a reachable cloud metadata endpoint.
pub open spec fn metadata_finding() -> FindingView {
    plain_finding(
        "network.metadata_reachable"@,
        FindingSection::Network,
        "Cloud metadata endpoint appears reachable from the process"@,
        FindingSeverity::Fail,
        9,
    )
}

/// The warning that the status file could not be read, with the error.
pub open spec fn proc_status_unavailable_finding(e: Seq<char>) -> FindingView {
    detailed_finding(
        "runtime.proc_status_unavailable"@,
        FindingSection::Runtime,
        "Unable to read /proc/self/status; some checks were skipped"@,
        FindingSeverity::Warn,
        3,
        "error"@,
        e,
    )
}

/// The warning that the mount table could not be read, with the error.
pub open spec fn mountinfo_unavailable_finding(e: Seq<char>) -> FindingView {
    detailed_finding(
        "filesystem.mountinfo_unavailable"@,
        FindingSection::Filesystem,
        "Unable to read /proc/self/mountinfo; filesystem scope checks skipped"@,
        FindingSeverity::Warn,
        3,
        "error"@,
        e,
    )
}

/// The findings about the mount table: a writable root when the policy
/// denies it, writable mounts outside the allowlist, and host-control socket
/// mounts.
pub open spec fn mount_findings(
    deny_writable_root: bool,
    root_writable: bool,
    disallowed: Seq<Seq<char>>,
    suspicious: Seq<Seq<char>>,
) -> Seq<FindingView> {
    when(
        deny_writable_root && root_writable,
        root_writable_finding(),
    ) + when(
        disallowed.len() > 0,
        disallowed_mounts_finding(join(disallowed, ", "@)),
    ) + when(
        suspicious.len() > 0,
        suspicious_mount_finding(join(suspicious, ", "@)),
    )
}

/// `r` after the mount table `ms` is weighed against policy `p`: writable
/// mount points are added to the writable paths, the root is writable once a
/// writable `/` is seen, the suspicious mounts are replaced, and the mount
/// findings are added.
pub open spec fn mounts_step(p: Policy, ms: Seq<MountView>, r: ReportView) -> ReportView {
    let root = r.filesystem.root_is_writable || writes_root(ms);
    let sus = ms.filter_map(suspicious_fn());
    let dis = ms.filter_map(disallowed_fn(strs_of(p.filesystem.allowed_writable_paths@)));
    ReportView {
        filesystem: FsView {
            writable_paths: r.filesystem.writable_paths + ms.filter_map(writable_fn()),
            root_is_writable: root,
            suspicious_mounts: sus,
        },
        findings: r.findings + mount_findings(p.filesystem.deny_writable_root, root, dis, sus),
        ..r
    }
}

fn is_suspicious_mount(m: &MountInfo) -> (r: bool)
    ensures
        r == suspicious_mount(m@),
{
    for i in 0..4
        invariant
            forall|j: int|
                0 <= j < i ==> !contains_seq(m@.mount_point, #[trigger] socket_markers()[j])
                    && !contains_seq(m@.source, socket_markers()[j]),
    {
        let marker = socket_marker(i);
        if str_contains(m.mount_point.as_str(), marker) || str_contains(m.source.as_str(), marker) {
            assert(contains_seq(m@.mount_point, socket_markers()[i as int]) || contains_seq(
                m@.source,
                socket_markers()[i as int],
            ));
            return true;
        }
    }
    false
}

fn is_ignored_fs_type(t: &str) -> (r: bool)
    ensures
        r == ignored_fs_types().contains(t@),
{
    for i in 0..12
        invariant
            forall|j: int| 0 <= j < i ==> ignored_fs_types()[j] != t@,
    {
        if str_eq(ignored_fs_type(i), t) {
            assert(ignored_fs_types()[i as int] == t@);
            return true;
        }
    }
    false
}

/// `a + b + c + d` as a new `String`.
fn concat3(a: &str, b: &str, c: &str, d: &str) -> (s: String)
    ensures
        s@ == a@ + b@ + c@ + d@,
{
    let mut s = a.to_owned();
    s.append(b);
    s.append(c);
    s.append(d);
    s
}

/// A one-pair detail list.
fn one_detail(key: &str, value: String) -> (d: Vec<(String, String)>)
    ensures
        pairs_of(d@) == seq![(key@, value@)],
        keys_ascending(pairs_of(d@)),
{
    let mut d: Vec<(String, String)> = Vec::new();
    d.push((key.to_owned(), value));
    assert(pairs_of(d@) =~= seq![(key@, value@)]);
    d
}

/// Weighs the mount table against the policy: records writable mount
/// points, a writable root and suspicious socket mounts, and adds the
/// matching findings.
pub fn evaluate_filesystem_mounts(policy: &Policy, mounts: &Vec<MountInfo>, report: &mut PostureReport)
    ensures
        final(report)@ == mounts_step(*policy, mounts_of(mounts@), old(report)@),
{
    let ghost ms = mounts_of(mounts@);
    let ghost allowed = strs_of(policy.filesystem.allowed_writable_paths@);
    let ghost start = report@;
    let mut disallowed: Vec<String> = Vec::new();
    let mut suspicious: Vec<String> = Vec::new();
    let mut root = report.filesystem.root_is_writable;
    for i in 0..mounts.len()
        invariant
            ms == mounts_of(mounts@),
            allowed == strs_of(policy.filesystem.allowed_writable_paths@),
            report@ == (ReportView {
                filesystem: FsView {
                    writable_paths: start.filesystem.writable_paths + ms.take(i as int).filter_map(
                        writable_fn(),
                    ),
                    ..start.filesystem
                },
                ..start
            }),
            root == (start.filesystem.root_is_writable || writes_root(ms.take(i as int))),
            strs_of(suspicious@) == ms.take(i as int).filter_map(suspicious_fn()),
            strs_of(disallowed@) == ms.take(i as int).filter_map(disallowed_fn(allowed)),
    {
        let m = &mounts[i];
        proof {
            assert(ms[i as int] == m@);
            ms.lemma_filter_map_take_succ(suspicious_fn(), i as int);
            ms.lemma_filter_map_take_succ(writable_fn(), i as int);
            ms.lemma_filter_map_take_succ(disallowed_fn(allowed), i as int);
            assert(ms.take(i + 1) == ms.take(i as int).push(m@));
            assert(writes_root(ms.take(i + 1)) == (writes_root(ms.take(i as int)) || (
            writable_options(m@.mount_options) && m@.mount_point == "/"@))) by {
                if writes_root(ms.take(i + 1)) {
                    let k = choose|k: int|
                        0 <= k < ms.take(i + 1).len() && writable_options(
                            (#[trigger] ms.take(i + 1)[k]).mount_options,
                        ) && ms.take(i + 1)[k].mount_point == "/"@;
                    if k < i {
                        assert(ms.take(i as int)[k] == ms.take(i + 1)[k]);
                    }
                }
                if writes_root(ms.take(i as int)) {
                    let k = choose|k: int|
                        0 <= k < ms.take(i as int).len() && writable_options(
                            (#[trigger] ms.take(i as int)[k]).mount_options,
                        ) && ms.take(i as int)[k].mount_point == "/"@;
                    assert(ms.take(i + 1)[k] == ms.take(i as int)[k]);
                }
                if writable_options(m@.mount_options) && m@.mount_point == "/"@ {
                    assert(ms.take(i + 1)[i as int] == m@);
                }
            }
        }
        if is_suspicious_mount(m) {
            let d = concat3(m.mount_point.as_str(), " (", m.source.as_str(), ")");
            let ghost o = strs_of(suspicious@);
            suspicious.push(d);
            assert(strs_of(suspicious@) =~= o + seq![mount_descriptor(m@)]);
        } else {
            assert(ms.take(i as int).filter_map(suspicious_fn()) + Seq::<Seq<char>>::empty()
                == ms.take(i as int).filter_map(suspicious_fn()));
        }
        if is_writable_mount(m.mount_options.as_str()) {
            let ghost w0 = strs_of(report.filesystem.writable_paths@);
            report.filesystem.writable_paths.push(m.mount_point.clone());
            assert(strs_of(report.filesystem.writable_paths@) =~= w0.push(m@.mount_point));
            assert(report@.filesystem.writable_paths == start.filesystem.writable_paths + ms.take(
                i + 1,
            ).filter_map(writable_fn()));
            assert(start.filesystem.writable_paths + ms.take(i as int).filter_map(writable_fn()) + seq![
                m@.mount_point,
            ] == (start.filesystem.writable_paths + ms.take(i as int).filter_map(writable_fn())).push(
                m@.mount_point,
            ));
            if str_eq(m.mount_point.as_str(), "/") {
                root = true;
            }
            let ignored = is_ignored_fs_type(m.fs_type.as_str());
            if !ignored && !path_allowed_by_policy(
                m.mount_point.as_str(),
                &policy.filesystem.allowed_writable_paths,
            ) {
                let d = concat3(m.mount_point.as_str(), " [", m.fs_type.as_str(), "]");
                let ghost o = strs_of(disallowed@);
                disallowed.push(d);
                assert(strs_of(disallowed@) =~= o + seq![typed_descriptor(m@)]);
            } else {
                assert(ms.take(i as int).filter_map(disallowed_fn(allowed)) + Seq::<Seq<char>>::empty()
                    == ms.take(i as int).filter_map(disallowed_fn(allowed)));
            }
        } else {
                assert(ms.take(i as int).filter_map(writable_fn()) + Seq::<Seq<char>>::empty()
                    == ms.take(i as int).filter_map(writable_fn()));
                assert(ms.take(i as int).filter_map(disallowed_fn(allowed)) + Seq::<Seq<char>>::empty()
                    == ms.take(i as int).filter_map(disallowed_fn(allowed)));
        }
    }
    assert(ms.take(mounts.len() as int) == ms);
    let ghost before = report@;
    let ghost sus = strs_of(suspicious@);
    let ghost dis = strs_of(disallowed@);
    report.filesystem.root_is_writable = root;
    let n_sus = suspicious.len();
    let n_dis = disallowed.len();
    let sus_text = join_strings(&suspicious, ", ");
    let dis_text = join_strings(&disallowed, ", ");
    report.filesystem.suspicious_mounts = suspicious;
    let ghost mid = report@;
    assert(mid.findings == start.findings);
    if policy.filesystem.deny_writable_root && root {
        report.add_finding(
            "filesystem.root_writable",
            FindingSection::Filesystem,
            "Root filesystem mount (/) is writable",
            FindingSeverity::Fail,
            10,
        );
    }
    let ghost after_root = report@.findings;
    assert(after_root == start.findings + when(
        policy.filesystem.deny_writable_root && root,
        root_writable_finding(),
    ));
    if n_dis > 0 {
        report.add_finding_with_details(
            "filesystem.disallowed_writable_mounts",
            FindingSection::Filesystem,
            "Writable mounts exist outside the policy allowlist",
            FindingSeverity::Warn,
            5,
            one_detail("paths", dis_text),
        );
    }
    let ghost after_dis = report@.findings;
    assert(after_dis == after_root + when(
        dis.len() > 0,
        disallowed_mounts_finding(join(dis, ", "@)),
    ));
    if n_sus > 0 {
        report.add_finding_with_details(
            "filesystem.suspicious_host_mount",
            FindingSection::Filesystem,
            "Potential host-control socket mount detected (e.g. docker socket)",
            FindingSeverity::Fail,
            9,
            one_detail("mounts", sus_text),
        );
    }
    let ghost after_sus = report@.findings;
    assert(after_sus == after_dis + when(
        sus.len() > 0,
        suspicious_mount_finding(join(sus, ", "@)),
    ));
    assert(report@.filesystem == mounts_step(*policy, ms, start).filesystem);
    assert(report@.findings =~= mounts_step(*policy, ms, start).findings);
}


// ---------------------------------------------------------------------------
// Identity findings
// ---------------------------------------------------------------------------

/// Whether both ids are known and differ.
pub open spec fn ids_differ(a: Option<u32>, b: Option<u32>) -> bool {
    a is Some && b is Some && a->0 != b->0
}

/// The decimal forms of the uids, joined by commas.
pub open spec fn uid_list(uids: Seq<u32>) -> Seq<char> {
    join(uid_texts(uids), ","@)
}

/// The decimal forms of the uids.
pub open spec fn uid_texts(uids: Seq<u32>) -> Seq<Seq<char>> {
    uids.map_values(|u: u32| decimal(u as nat))
}

/// The capability list of the capability finding: the names joined by
/// commas, or `unknown` when no known capability is set.
pub open spec fn capability_list(caps: Seq<Seq<char>>) -> Seq<char> {
    if caps.len() == 0 {
        "unknown"@
    } else {
        join(caps, ","@)
    }
}

/// The finding for an effective uid outside the allowlist.
pub open spec fn uid_not_allowed(uid: u32, uids: Seq<u32>) -> FindingView {
    FindingView {
        id: "identity.allowed_uids"@,
        section: FindingSection::Identity,
        message: "Effective UID is not in policy allowlist"@,
        severity: FindingSeverity::Fail,
        score: 9,
        details: seq![("allowed_uids"@, uid_list(uids)), ("effective_uid"@, decimal(uid as nat))],
    }
}

/// The allowlist findings: with a non-empty allowlist, an effective uid
/// outside it fails and an unknown one warns.
pub open spec fn allowlist_findings(uids: Seq<u32>, euid: Option<u32>) -> Seq<FindingView> {
    if uids.len() == 0 {
        Seq::empty()
    } else {
        match euid {
            Some(u) => when(!uids.contains(u), uid_not_allowed(u, uids)),
            None => seq![
                uid_unknown_finding(),
            ],
        }
    }
}

/// The identity findings for policy `p` and status `s`, in order: running
/// as root when forbidden, the allowlist, a uid mismatch, a gid mismatch,
/// and effective capabilities.
pub open spec fn identity_findings(p: Policy, s: ProcStatusSnapshot) -> Seq<FindingView> {
    when(
        p.identity.require_non_root && s.euid == Some(0u32),
        non_root_finding(),
    ) + allowlist_findings(p.identity.allowed_uids@, s.euid) + when(
        ids_differ(s.uid, s.euid),
        setuid_mismatch_finding(),
    ) + when(
        ids_differ(s.gid, s.egid),
        setgid_mismatch_finding(),
    ) + when(
        s.cap_eff is Some && s.cap_eff->0 != 0,
        capabilities_finding(capability_list(cap_names(s.cap_eff->0))),
    )
}

/// `r` after the identity checks: without a status nothing changes; with
/// one, the ids, root-ness, mismatches and (when the mask was read) the
/// capability names are recorded and the identity findings added.
pub open spec fn identity_step(p: Policy, snap: Option<ProcStatusSnapshot>, r: ReportView) -> ReportView {
    match snap {
        None => r,
        Some(s) => ReportView {
            identity: IdentityView {
                uid: s.uid,
                effective_uid: s.euid,
                gid: s.gid,
                effective_gid: s.egid,
                is_root: s.euid == Some(0u32),
                effective_caps: match s.cap_eff {
                    Some(m) => cap_names(m),
                    None => r.identity.effective_caps,
                },
                setuid_mismatch: ids_differ(s.uid, s.euid),
                setgid_mismatch: ids_differ(s.gid, s.egid),
            },
            findings: r.findings + identity_findings(p, s),
            ..r
        },
    }
}

fn differ(a: Option<u32>, b: Option<u32>) -> (r: bool)
    ensures
        r == ids_differ(a, b),
{
    match (a, b) {
        (Some(x), Some(y)) => x != y,
        _ => false,
    }
}

fn u32_list_contains(v: &Vec<u32>, x: u32) -> (r: bool)
    ensures
        r == v@.contains(x),
{
    for i in 0..v.len()
        invariant
            forall|j: int| 0 <= j < i ==> v@[j] != x,
    {
        if v[i] == x {
            assert(v@[i as int] == x);
            return true;
        }
    }
    false
}

fn uid_list_string(uids: &Vec<u32>) -> (r: String)
    ensures
        r@ == uid_list(uids@),
{
    let mut parts: Vec<String> = Vec::new();
    for i in 0..uids.len()
        invariant
            strs_of(parts@) == uid_texts(uids@.take(i as int)),
    {
        let ghost o = strs_of(parts@);
        let d = decimal_string(uids[i] as u64);
        parts.push(d);
        assert(strs_of(parts@) =~= o.push(decimal(uids@[i as int] as nat)));
        assert(uid_texts(uids@.take(i + 1)) =~= uid_texts(uids@.take(i as int)).push(
            decimal(uids@[i as int] as nat),
        ));
    }
    assert(uids@.take(uids.len() as int) == uids@);
    join_strings(&parts, ",")
}

/// `r` with the findings `fs` added after the others.
pub open spec fn with_findings(r: ReportView, fs: Seq<FindingView>) -> ReportView {
    ReportView { findings: r.findings + fs, ..r }
}

/// Adds the allowlist findings for the effective uid.
fn add_allowlist_finding(policy: &Policy, euid: Option<u32>, report: &mut PostureReport)
    ensures
        final(report)@ == with_findings(
            old(report)@,
            allowlist_findings(policy.identity.allowed_uids@, euid),
        ),
{
    let ghost start = report@;
    if policy.identity.allowed_uids.len() > 0 {
        match euid {
            Some(uid) => {
                if !u32_list_contains(&policy.identity.allowed_uids, uid) {
                    let mut details: Vec<(String, String)> = Vec::new();
                    details.push((string_from("allowed_uids"), uid_list_string(&policy.identity.allowed_uids)));
                    details.push((string_from("effective_uid"), decimal_string(uid as u64)));
                    proof {
                        reveal_strlit("allowed_uids");
                        reveal_strlit("effective_uid");
                        assert(pairs_of(details@) =~= seq![
                            ("allowed_uids"@, uid_list(policy.identity.allowed_uids@)),
                            ("effective_uid"@, decimal(uid as nat)),
                        ]);
                        assert(chars_less("allowed_uids"@, "effective_uid"@));
                    }
                    report.add_finding_with_details(
                        "identity.allowed_uids",
                        FindingSection::Identity,
                        "Effective UID is not in policy allowlist",
                        FindingSeverity::Fail,
                        9,
                        details,
                    );
                }
            },
            None => {
                report.add_finding(
                    "identity.allowed_uids_unknown",
                    FindingSection::Identity,
                    "Unable to determine effective UID for allowlist enforcement",
                    FindingSeverity::Warn,
                    3,
                );
            },
        }
    }
    assert(report@ =~= with_findings(start, allowlist_findings(policy.identity.allowed_uids@, euid)));
}

/// Adds the identity findings for `status`; the report's capability list
/// must already hold the names decoded from the capability mask when there
/// is one.
#[verifier::spinoff_prover]
fn add_identity_findings(policy: &Policy, status: ProcStatusSnapshot, report: &mut PostureReport)
    requires
        status.cap_eff is Some ==> strs_of(old(report).identity.effective_caps@) == cap_names(
            status.cap_eff->0,
        ),
    ensures
        final(report)@ == with_findings(old(report)@, identity_findings(*policy, status)),
{
    let ghost start = report@;
    if policy.identity.require_non_root && status.euid == Some(0u32) {
        report.add_finding(
            "identity.non_root",
            FindingSection::Identity,
            "Process is running as root (effective UID 0)",
            FindingSeverity::Fail,
            10,
        );
    }
    let ghost r1 = report@;
    assert(r1 =~= with_findings(
        start,
        when(
            policy.identity.require_non_root && status.euid == Some(0u32),
            non_root_finding(),
        ),
    ));
    add_allowlist_finding(policy, status.euid, report);
    let ghost r2 = report@;
    if differ(status.uid, status.euid) {
        report.add_finding(
            "identity.setuid_mismatch",
            FindingSection::Identity,
            "Real UID and effective UID differ (setuid or privilege transition)",
            FindingSeverity::Warn,
            4,
        );
    }
    let ghost r3 = report@;
    assert(r3 =~= with_findings(
        r2,
        when(
            ids_differ(status.uid, status.euid),
            setuid_mismatch_finding(),
        ),
    ));
    if differ(status.gid, status.egid) {
        report.add_finding(
            "identity.setgid_mismatch",
            FindingSection::Identity,
            "Real GID and effective GID differ (setgid or privilege transition)",
            FindingSeverity::Warn,
            4,
        );
    }
    let ghost r4 = report@;
    assert(r4 =~= with_findings(
        r3,
        when(
            ids_differ(status.gid, status.egid),
            setgid_mismatch_finding(),
        ),
    ));
    let mask = match status.cap_eff {
        Some(m) => m,
        None => 0,
    };
    if mask != 0 {
        let cap_list = if report.identity.effective_caps.len() == 0 {
            string_from("unknown")
        } else {
            join_strings(&report.identity.effective_caps, ",")
        };
        report.add_finding_with_details(
            "identity.capabilities_present",
            FindingSection::Identity,
            "Process has effective Linux capabilities; review least-privilege settings",
            FindingSeverity::Warn,
            5,
            one_detail("capabilities", cap_list),
        );
    }
    let ghost r5 = report@;
    assert(r5 =~= with_findings(
        r4,
        when(
            status.cap_eff is Some && status.cap_eff->0 != 0,
            capabilities_finding(capability_list(cap_names(status.cap_eff->0))),
        ),
    ));
    assert(r5.findings =~= start.findings + identity_findings(*policy, status));
}

/// Records what the status shows about identity and adds the identity
/// findings; without a status the report is left as it is.
pub fn apply_identity(policy: &Policy, status: Option<&ProcStatusSnapshot>, report: &mut PostureReport)
    ensures
        final(report)@ == identity_step(
            *policy,
            match status {
                Some(s) => Some(*s),
                None => None,
            },
            old(report)@,
        ),
{
    let status = match status {
        Some(s) => *s,
        None => {
            return ;
        },
    };
    let ghost start = report@;
    report.identity.uid = status.uid;
    report.identity.effective_uid = status.euid;
    report.identity.gid = status.gid;
    report.identity.effective_gid = status.egid;
    report.identity.is_root = status.euid == Some(0u32);
    report.identity.setuid_mismatch = differ(status.uid, status.euid);
    report.identity.setgid_mismatch = differ(status.gid, status.egid);
    if let Some(mask) = status.cap_eff {
        report.identity.effective_caps = decode_capabilities(mask);
    }
    let ghost mid = report@;
    assert(mid.findings == start.findings);
    add_identity_findings(policy, status, report);
    assert(report@ =~= identity_step(*policy, Some(status), start));
}


// ---------------------------------------------------------------------------
// Sandbox findings
// ---------------------------------------------------------------------------

/// The raw contents of the files the sandbox checks read; `None` for a file
/// that could not be read.
#[derive(Debug)]
pub struct LsmFiles {
    /// `/sys/module/apparmor/parameters/enabled`
    pub apparmor_enabled: Option<String>,
    /// `/proc/self/attr/current`
    pub apparmor_current: Option<String>,
    /// `/sys/fs/selinux/enforce`
    pub selinux_enforce: Option<String>,
}

/// The view of an optional string.
pub open spec fn opt_view(o: Option<String>) -> Option<Seq<char>> {
    match o {
        Some(s) => Some(s@),
        None => None,
    }
}

/// AppArmor is enabled when its parameter, trimmed, starts with `Y` or `y`.
pub open spec fn apparmor_enabled_of(raw: Option<Seq<char>>) -> Option<bool> {
    match raw {
        Some(v) => Some(trim(v).len() > 0 && (trim(v)[0] == 'Y' || trim(v)[0] == 'y')),
        None => None,
    }
}

/// The AppArmor profile of the process: the attribute text, trimmed.
pub open spec fn apparmor_profile_of(raw: Option<Seq<char>>) -> Option<Seq<char>> {
    match raw {
        Some(v) => Some(trim(v)),
        None => None,
    }
}

/// SELinux enforces when its `enforce` file, trimmed, is `1`.
pub open spec fn selinux_enforcing_of(raw: Option<Seq<char>>) -> Option<bool> {
    match raw {
        Some(v) => Some(trim(v) == "1"@),
        None => None,
    }
}

/// Whether an AppArmor profile other than `unconfined` confines the process,
/// or SELinux enforces.
pub open spec fn lsm_enforced(profile: Option<Seq<char>>, selinux: Option<bool>) -> bool {
    (profile is Some && profile->0.len() > 0 && profile->0 != "unconfined"@) || selinux == Some(
        true,
    )
}

/// The seccomp and no_new_privs findings for status `s`.
pub open spec fn status_sandbox_findings(p: Policy, s: ProcStatusSnapshot) -> Seq<FindingView> {
    when(
        p.sandbox.require_seccomp && (match s.seccomp {
            Some(m) => m,
            None => 0u8,
        }) == 0,
        seccomp_finding(),
    ) + when(
        p.sandbox.require_no_new_privs && s.no_new_privs != Some(true),
        no_new_privs_finding(),
    )
}

/// `r` after the sandbox checks: the status (when read) gives the seccomp
/// mode and no_new_privs and their findings; the LSM files give AppArmor and
/// SELinux state, and a missing enforcing LSM fails when one is required.
pub open spec fn sandbox_step(
    p: Policy,
    snap: Option<ProcStatusSnapshot>,
    lsm: LsmFiles,
    r: ReportView,
) -> ReportView {
    let r1 = match snap {
        Some(s) => ReportView {
            sandbox: SandboxView { seccomp_mode: s.seccomp, no_new_privs: s.no_new_privs, ..r.sandbox },
            findings: r.findings + status_sandbox_findings(p, s),
            ..r
        },
        None => r,
    };
    let profile = apparmor_profile_of(opt_view(lsm.apparmor_current));
    let selinux = selinux_enforcing_of(opt_view(lsm.selinux_enforce));
    ReportView {
        sandbox: SandboxView {
            apparmor_enabled: apparmor_enabled_of(opt_view(lsm.apparmor_enabled)),
            apparmor_profile: profile,
            selinux_enforcing: selinux,
            ..r1.sandbox
        },
        findings: r1.findings + when(
            p.sandbox.require_lsm && !lsm_enforced(profile, selinux),
            lsm_finding(),
        ),
        ..r1
    }
}

/// Whether AppArmor is enabled, from the raw parameter file.
pub fn read_apparmor_enabled(raw: Option<&str>) -> (r: Option<bool>)
    ensures
        r == apparmor_enabled_of(
            match raw {
                Some(v) => Some(v@),
                None => None,
            },
        ),
{
    match raw {
        Some(v) => {
            let t = trim_chars(&chars_of(v));
            Some(t.len() > 0 && (t[0] == 'Y' || t[0] == 'y'))
        },
        None => None,
    }
}

/// The AppArmor profile, from the raw attribute file.
pub fn read_apparmor_profile(raw: Option<&str>) -> (r: Option<String>)
    ensures
        opt_view(r) == apparmor_profile_of(
            match raw {
                Some(v) => Some(v@),
                None => None,
            },
        ),
{
    match raw {
        Some(v) => {
            let t = trim_chars(&chars_of(v));
            Some(string_of(&t))
        },
        None => None,
    }
}

/// Whether SELinux enforces, from the raw `enforce` file.
pub fn read_selinux_enforcing(raw: Option<&str>) -> (r: Option<bool>)
    ensures
        r == selinux_enforcing_of(
            match raw {
                Some(v) => Some(v@),
                None => None,
            },
        ),
{
    match raw {
        Some(v) => {
            let t = trim_chars(&chars_of(v));
            Some(chars_eq(&t, &chars_of("1")))
        },
        None => None,
    }
}

fn opt_str(o: &Option<String>) -> (r: Option<&str>)
    ensures
        match r {
            Some(v) => o is Some && v@ == o->0@,
            None => o is None,
        },
{
    match o {
        Some(s) => Some(s.as_str()),
        None => None,
    }
}

/// Records the sandbox state and adds the sandbox findings.
pub fn apply_sandbox(
    policy: &Policy,
    status: Option<&ProcStatusSnapshot>,
    lsm: &LsmFiles,
    report: &mut PostureReport,
)
    ensures
        final(report)@ == sandbox_step(
            *policy,
            match status {
                Some(s) => Some(*s),
                None => None,
            },
            *lsm,
            old(report)@,
        ),
{
    let ghost start = report@;
    if let Some(status) = status {
        report.sandbox.seccomp_mode = status.seccomp;
        report.sandbox.no_new_privs = status.no_new_privs;
        let seccomp = match status.seccomp {
            Some(m) => m,
            None => 0,
        };
        if policy.sandbox.require_seccomp && seccomp == 0 {
            report.add_finding(
                "sandbox.seccomp_required",
                FindingSection::Sandbox,
                "Seccomp is not enabled for this process",
                FindingSeverity::Fail,
                10,
            );
        }
        if policy.sandbox.require_no_new_privs && status.no_new_privs != Some(true) {
            report.add_finding(
                "sandbox.no_new_privs_required",
                FindingSection::Sandbox,
                "no_new_privs is not set for this process",
                FindingSeverity::Warn,
                4,
            );
        }
        assert(report@.findings =~= start.findings + status_sandbox_findings(*policy, *status));
    }
    let ghost r1 = report@;
    report.sandbox.apparmor_enabled = read_apparmor_enabled(opt_str(&lsm.apparmor_enabled));
    report.sandbox.apparmor_profile = read_apparmor_profile(opt_str(&lsm.apparmor_current));
    report.sandbox.selinux_enforcing = read_selinux_enforcing(opt_str(&lsm.selinux_enforce));
    let apparmor_enforced = match &report.sandbox.apparmor_profile {
        Some(v) => !v.as_str().is_empty() && !str_eq(v.as_str(), "unconfined"),
        None => false,
    };
    let selinux_enforced = report.sandbox.selinux_enforcing == Some(true);
    if policy.sandbox.require_lsm && !(apparmor_enforced || selinux_enforced) {
        report.add_finding(
            "sandbox.lsm_required",
            FindingSection::Sandbox,
            "No enforcing AppArmor or SELinux profile detected",
            FindingSeverity::Fail,
            8,
        );
    }
    assert(report@ =~= sandbox_step(
        *policy,
        match status {
            Some(s) => Some(*s),
            None => None,
        },
        *lsm,
        start,
    ));
}

// ---------------------------------------------------------------------------
// Network findings
// ---------------------------------------------------------------------------

/// `r` after the network checks: an egress allowlist is flagged as not
/// enforced; with `block_metadata`, the metadata probe is recorded and a
/// reachable endpoint fails.
pub open spec fn network_step(p: Policy, reachable: bool, r: ReportView) -> ReportView {
    let r1 = with_findings(
        r,
        when(
            p.network.allowed_egress_hosts@.len() > 0,
            egress_finding(),
        ),
    );
    if !p.network.block_metadata {
        r1
    } else {
        ReportView {
            network: NetworkReport { metadata_probe_attempted: true, metadata_reachable: Some(reachable) },
            findings: r1.findings + when(
                reachable,
                metadata_finding(),
            ),
            ..r1
        }
    }
}

/// Where and how long to probe for the cloud metadata endpoint.
#[derive(Debug, Clone, Copy)]
pub struct MetadataProbe {
    pub address: [u8; 4],
    pub port: u16,
    pub timeout_ms: u64,
}

/// The metadata probe that the policy asks for: only with `block_metadata`,
/// to 169.254.169.254 on the policy's port, with the policy's timeout but at
/// least one millisecond.
pub fn metadata_probe(policy: &Policy) -> (r: Option<MetadataProbe>)
    ensures
        match r {
            Some(probe) => policy.network.block_metadata && probe.address@ == seq![
                169u8,
                254u8,
                169u8,
                254u8,
            ] && probe.port == policy.network.metadata_probe_port && probe.timeout_ms == (if policy.network.metadata_probe_timeout_ms
                >= 1 {
                policy.network.metadata_probe_timeout_ms
            } else {
                1
            }),
            None => !policy.network.block_metadata,
        },
{
    if !policy.network.block_metadata {
        return None;
    }
    let t = policy.network.metadata_probe_timeout_ms;
    let timeout_ms = if t >= 1 {
        t
    } else {
        1
    };
    let address: [u8; 4] = [169, 254, 169, 254];
    assert(address@ =~= seq![169u8, 254u8, 169u8, 254u8]);
    Some(MetadataProbe { address, port: policy.network.metadata_probe_port, timeout_ms })
}

/// Flags an unenforced egress allowlist and, with `block_metadata`, records
/// whether the metadata endpoint answered (`metadata_reachable`, the outcome
/// of the probe `metadata_probe` describes; unused otherwise).
pub fn apply_network(policy: &Policy, report: &mut PostureReport, metadata_reachable: bool)
    ensures
        final(report)@ == network_step(*policy, metadata_reachable, old(report)@),
{
    let ghost start = report@;
    if policy.network.allowed_egress_hosts.len() > 0 {
        report.add_finding(
            "network.egress_validation_todo",
            FindingSection::Network,
            "allowed_egress_hosts is configured but egress validation is NOT YET IMPLEMENTED — this policy is not being enforced",
            FindingSeverity::Fail,
            10,
        );
    }
    assert(report@ =~= with_findings(
        start,
        when(
            policy.network.allowed_egress_hosts@.len() > 0,
            egress_finding(),
        ),
    ));
    if !policy.network.block_metadata {
        return ;
    }
    let ghost r1 = report@;
    report.network.metadata_probe_attempted = true;
    report.network.metadata_reachable = Some(metadata_reachable);
    if metadata_reachable {
        report.add_finding(
            "network.metadata_reachable",
            FindingSection::Network,
            "Cloud metadata endpoint appears reachable from the process",
            FindingSeverity::Fail,
            9,
        );
    }
    assert(report@ =~= network_step(*policy, metadata_reachable, start));
}


// ---------------------------------------------------------------------------
// The collector
// ---------------------------------------------------------------------------

/// What the Linux collector reads from the host, as plain values: the text
/// of `/proc/self/status` and of `/proc/self/mountinfo` or why it could not
/// be read, the LSM files, and whether the metadata probe connected.
#[derive(Debug)]
pub struct LinuxHost {
    pub proc_status: Result<String, String>,
    pub mountinfo: Result<String, String>,
    pub lsm: LsmFiles,
    pub metadata_reachable: bool,
}

/// The status snapshot the host gives, when its status text was read.
pub open spec fn snapshot_of(h: LinuxHost) -> Option<ProcStatusSnapshot> {
    match h.proc_status {
        Ok(t) => Some(proc_status_of(t@)),
        Err(_) => None,
    }
}

/// `r` with a warning when the status text could not be read.
pub open spec fn runtime_step(h: LinuxHost, r: ReportView) -> ReportView {
    match h.proc_status {
        Ok(_) => r,
        Err(e) => with_findings(
            r,
            seq![
                proc_status_unavailable_finding(e@),
            ],
        ),
    }
}

/// `r` after the filesystem checks: a warning when the mount table could not
/// be read, else the mount table weighed against the policy.
pub open spec fn filesystem_step(p: Policy, mountinfo: Result<String, String>, r: ReportView) -> ReportView {
    match mountinfo {
        Ok(t) => mounts_step(p, mountinfo_of(t@), r),
        Err(e) => with_findings(
            r,
            seq![
                mountinfo_unavailable_finding(e@),
            ],
        ),
    }
}

/// Whether the host's mount table, when read, can be decoded.
pub open spec fn host_decodable(h: LinuxHost) -> bool {
    match h.mountinfo {
        Ok(t) => mountinfo_decodes(t@),
        Err(_) => true,
    }
}

/// The findings before evaluation: runtime, identity, filesystem, sandbox
/// and network checks in that order, starting from the empty report.
pub open spec fn linux_checks(p: Policy, h: LinuxHost) -> ReportView {
    network_step(
        p,
        h.metadata_reachable,
        sandbox_step(
            p,
            snapshot_of(h),
            h.lsm,
            filesystem_step(
                p,
                h.mountinfo,
                identity_step(p, snapshot_of(h), runtime_step(h, empty_report())),
            ),
        ),
    )
}

/// The report the Linux collector gives for policy `p` on host `h`.
pub open spec fn linux_report(p: Policy, h: LinuxHost) -> ReportView {
    evaluated(linux_checks(p, h), p.severity, p.enforcement.mode)
}

/// At most `n` findings, each scoring at most 10.
pub open spec fn bounded_findings(fs: Seq<FindingView>, n: nat) -> bool {
    fs.len() <= n && forall|i: int| 0 <= i < fs.len() ==> (#[trigger] fs[i]).score <= 10
}

proof fn lemma_bounded_concat(a: Seq<FindingView>, b: Seq<FindingView>, n: nat, m: nat)
    requires
        bounded_findings(a, n),
        bounded_findings(b, m),
    ensures
        bounded_findings(a + b, n + m),
{
    assert forall|i: int| 0 <= i < (a + b).len() implies (#[trigger] (a + b)[i]).score <= 10 by {
        if i < a.len() {
            assert((a + b)[i] == a[i]);
        } else {
            assert((a + b)[i] == b[i - a.len()]);
        }
    }
}

proof fn lemma_when_bounded(c: bool, f: FindingView)
    requires
        f.score <= 10,
    ensures
        bounded_findings(when(c, f), 1),
{
}

/// The total of at most `n` findings scoring at most 10 is at most `10 n`.
pub proof fn lemma_bounded_total(fs: Seq<FindingView>, n: nat)
    requires
        bounded_findings(fs, n),
    ensures
        total_score(fs) <= 10 * fs.len(),
    decreases fs.len(),
{
    if fs.len() > 0 {
        assert(fs.last() == fs[fs.len() - 1]);
        assert(bounded_findings(fs.drop_last(), n));
        lemma_bounded_total(fs.drop_last(), n);
    }
}

proof fn lemma_linux_checks_bounded(p: Policy, h: LinuxHost)
    ensures
        bounded_findings(linux_checks(p, h).findings, 14),
{
    let e: Seq<FindingView> = Seq::empty();
    let r0 = runtime_step(h, empty_report());
    assert(bounded_findings(r0.findings, 1)) by {
        if h.proc_status is Err {
            assert(r0.findings =~= e + r0.findings.skip(0));
        }
    }
    let snap = snapshot_of(h);
    let r1 = identity_step(p, snap, r0);
    assert(bounded_findings(r1.findings, 6)) by {
        if snap is Some {
            let s = snap->0;
            let t = identity_findings(p, s);
            reveal_with_fuel(Seq::filter_map, 1);
            lemma_when_bounded(
                p.identity.require_non_root && s.euid == Some(0u32),
                non_root_finding(),
            );
            assert(bounded_findings(allowlist_findings(p.identity.allowed_uids@, s.euid), 1));
            assert(bounded_findings(t, 5)) by {
                let a = when(
                    p.identity.require_non_root && s.euid == Some(0u32),
                    non_root_finding(),
                );
                let b = allowlist_findings(p.identity.allowed_uids@, s.euid);
                let c = when(
                    ids_differ(s.uid, s.euid),
                    setuid_mismatch_finding(),
                );
                let d = when(
                    ids_differ(s.gid, s.egid),
                    setgid_mismatch_finding(),
                );
                let f = when(
                    s.cap_eff is Some && s.cap_eff->0 != 0,
                    capabilities_finding(capability_list(cap_names(s.cap_eff->0))),
                );
                lemma_bounded_concat(a, b, 1, 1);
                lemma_bounded_concat(a + b, c, 2, 1);
                lemma_bounded_concat(a + b + c, d, 3, 1);
                lemma_bounded_concat(a + b + c + d, f, 4, 1);
            }
            lemma_bounded_concat(r0.findings, t, 1, 5);
        }
    }
    let r2 = filesystem_step(p, h.mountinfo, r1);
    assert(bounded_findings(r2.findings, 9)) by {
        match h.mountinfo {
            Ok(t) => {
                let ms = mountinfo_of(t@);
                let root = r1.filesystem.root_is_writable || writes_root(ms);
                let sus = ms.filter_map(suspicious_fn());
                let dis = ms.filter_map(disallowed_fn(strs_of(p.filesystem.allowed_writable_paths@)));
                let a = when(
                    p.filesystem.deny_writable_root && root,
                    root_writable_finding(),
                );
                let b = when(
                    dis.len() > 0,
                    disallowed_mounts_finding(join(dis, ", "@)),
                );
                let c = when(
                    sus.len() > 0,
                    suspicious_mount_finding(join(sus, ", "@)),
                );
                lemma_bounded_concat(a, b, 1, 1);
                lemma_bounded_concat(a + b, c, 2, 1);
                lemma_bounded_concat(r1.findings, a + b + c, 6, 3);
            },
            Err(e) => {
                let x = seq![
                    mountinfo_unavailable_finding(e@),
                ];
                lemma_bounded_concat(r1.findings, x, 6, 1);
            },
        }
    }
    let r3 = sandbox_step(p, snap, h.lsm, r2);
    assert(bounded_findings(r3.findings, 12)) by {
        let mid = match snap {
            Some(s) => r2.findings + status_sandbox_findings(p, s),
            None => r2.findings,
        };
        assert(bounded_findings(mid, 11)) by {
            if snap is Some {
                let s = snap->0;
                let a = when(
                    p.sandbox.require_seccomp && (match s.seccomp {
                        Some(m) => m,
                        None => 0u8,
                    }) == 0,
                    seccomp_finding(),
                );
                let b = when(
                    p.sandbox.require_no_new_privs && s.no_new_privs != Some(true),
                    no_new_privs_finding(),
                );
                lemma_bounded_concat(a, b, 1, 1);
                lemma_bounded_concat(r2.findings, a + b, 9, 2);
            }
        }
        let profile = apparmor_profile_of(opt_view(h.lsm.apparmor_current));
        let selinux = selinux_enforcing_of(opt_view(h.lsm.selinux_enforce));
        let c = when(
            p.sandbox.require_lsm && !lsm_enforced(profile, selinux),
            lsm_finding(),
        );
        lemma_bounded_concat(mid, c, 11, 1);
    }
    let r4 = network_step(p, h.metadata_reachable, r3);
    assert(bounded_findings(r4.findings, 14)) by {
        let a = when(
            p.network.allowed_egress_hosts@.len() > 0,
            egress_finding(),
        );
        let b = when(
            h.metadata_reachable,
            metadata_finding(),
        );
        lemma_bounded_concat(r3.findings, a, 12, 1);
        lemma_bounded_concat(r3.findings + a, b, 13, 1);
    }
}

/// Runs the Linux posture checks on what the host showed and evaluates the
/// report against the policy; the report is always produced.
pub fn collect(policy: &Policy, host: &LinuxHost) -> (r: Result<PostureReport, Error>)
    requires
        host_decodable(*host),
    ensures
        r is Ok,
        r matches Ok(rep) && rep@ == linux_report(*policy, *host),
{
    let mut report = PostureReport::empty();
    let proc_status = match &host.proc_status {
        Ok(text) => Some(parse_proc_status(text.as_str())),
        Err(err) => {
            report.add_finding_with_details(
                "runtime.proc_status_unavailable",
                FindingSection::Runtime,
                "Unable to read /proc/self/status; some checks were skipped",
                FindingSeverity::Warn,
                3,
                one_detail("error", err.clone()),
            );
            None
        },
    };
    assert(report@ =~= runtime_step(*host, empty_report()));
    assert(proc_status == snapshot_of(*host));
    apply_identity(policy, proc_status.as_ref(), &mut report);
    apply_filesystem(policy, &host.mountinfo, &mut report);
    apply_sandbox(policy, proc_status.as_ref(), &host.lsm, &mut report);
    apply_network(policy, &mut report, host.metadata_reachable);
    assert(report@ == linux_checks(*policy, *host));
    proof {
        lemma_linux_checks_bounded(*policy, *host);
        lemma_bounded_total(report@.findings, 14);
    }
    report.evaluate_against(policy);
    Ok(report)
}

/// Weighs the mount table when it was read, else adds a warning that it
/// could not be.
pub fn apply_filesystem(policy: &Policy, mountinfo: &Result<String, String>, report: &mut PostureReport)
    requires
        match mountinfo {
            Ok(t) => mountinfo_decodes(t@),
            Err(_) => true,
        },
    ensures
        final(report)@ == filesystem_step(*policy, *mountinfo, old(report)@),
{
    let ghost start = report@;
    match mountinfo {
        Ok(text) => {
            let mounts = parse_mountinfo(text.as_str());
            evaluate_filesystem_mounts(policy, &mounts, report);
        },
        Err(err) => {
            report.add_finding_with_details(
                "filesystem.mountinfo_unavailable",
                FindingSection::Filesystem,
                "Unable to read /proc/self/mountinfo; filesystem scope checks skipped",
                FindingSeverity::Warn,
                3,
                one_detail("error", err.clone()),
            );
        },
    }
}


// ---------------------------------------------------------------------------
// Laws of the Linux checks
// ---------------------------------------------------------------------------

/// The base `/` holds every path.
pub proof fn lemma_root_base_holds_every_path(path: Seq<char>)
    ensures
        path_within(path, "/"@),
{
}

/// Every path lies within itself.
pub proof fn lemma_path_within_itself(path: Seq<char>)
    ensures
        path_within(path, path),
{
}

/// A path that merely shares a prefix with the base, without a `/` at the
/// boundary, does not lie within it (so `/tmpx` is not within `/tmp`).
pub proof fn lemma_allowlist_respects_boundaries(path: Seq<char>, base: Seq<char>)
    requires
        normalize_path(base) != "/"@,
        normalize_path(path) != normalize_path(base),
        normalize_path(path).len() > normalize_path(base).len() ==> normalize_path(
            path,
        )[normalize_path(base).len() as int] != '/',
    ensures
        !path_within(path, base),
{
}

/// An empty allowlist holds no path.
pub proof fn lemma_empty_allowlist_holds_nothing(path: Seq<char>)
    ensures
        !path_allowed(path, Seq::empty()),
{
}

/// A Linux report has at most 14 findings and a risk total of at most 140,
/// so its evaluation never overflows.
pub proof fn lemma_linux_report_bounded(p: Policy, h: LinuxHost)
    ensures
        linux_report(p, h).findings.len() <= 14,
        total_score(linux_checks(p, h).findings) <= 140,
        linux_report(p, h).risk_total <= 140,
{
    lemma_linux_checks_bounded(p, h);
    lemma_bounded_total(linux_checks(p, h).findings, 14);
}

/// The Linux report agrees with its findings: its risk total is the plain
/// sum of their scores, its thresholds are the policy's, and evaluating it
/// against the policy once more changes nothing.
pub proof fn lemma_linux_report_consistent(p: Policy, h: LinuxHost)
    ensures
        linux_report(p, h).risk_total == total_score(linux_report(p, h).findings),
        linux_report(p, h).warn_threshold == p.severity.warn_threshold,
        linux_report(p, h).fail_threshold == p.severity.fail_threshold,
        evaluated(linux_report(p, h), p.severity, p.enforcement.mode) == linux_report(p, h),
{
    lemma_linux_report_bounded(p, h);
}

/// Whether a finding with this id was added in going from `before` to
/// `after` (findings are only ever appended).
pub open spec fn added_finding_with_id(before: ReportView, after: ReportView, id: Seq<char>) -> bool {
    exists|i: int|
        before.findings.len() <= i < after.findings.len() && (#[trigger] after.findings[i]).id == id
}

/// With a non-empty uid allowlist and a known effective uid `u`, the
/// identity checks add an `identity.allowed_uids` finding exactly when `u`
/// stands at no position of the allowlist.
pub proof fn lemma_allowlist_finding_iff_not_listed(
    p: Policy,
    s: ProcStatusSnapshot,
    u: u32,
    r: ReportView,
)
    requires
        p.identity.allowed_uids@.len() > 0,
        s.euid == Some(u),
    ensures
        added_finding_with_id(r, identity_step(p, Some(s), r), "identity.allowed_uids"@) <==> (
        forall|k: int|
            0 <= k < p.identity.allowed_uids@.len() ==> p.identity.allowed_uids@[k] != u),
{
    reveal_strlit("identity.allowed_uids");
    reveal_strlit("identity.non_root");
    reveal_strlit("identity.setuid_mismatch");
    reveal_strlit("identity.setgid_mismatch");
    reveal_strlit("identity.capabilities_present");
    assert("identity.allowed_uids"@.len() == 21);
    assert("identity.non_root"@.len() == 17);
    assert("identity.setuid_mismatch"@.len() == 24);
    assert("identity.setgid_mismatch"@.len() == 24);
    assert("identity.capabilities_present"@.len() == 29);
    let uids = p.identity.allowed_uids@;
    let a = when(p.identity.require_non_root && s.euid == Some(0u32), non_root_finding());
    let b = allowlist_findings(uids, s.euid);
    let c = when(ids_differ(s.uid, s.euid), setuid_mismatch_finding());
    let d = when(ids_differ(s.gid, s.egid), setgid_mismatch_finding());
    let f = when(
        s.cap_eff is Some && s.cap_eff->0 != 0,
        capabilities_finding(capability_list(cap_names(s.cap_eff->0))),
    );
    let after = identity_step(p, Some(s), r);
    let n: int = r.findings.len() as int;
    assert(after.findings == r.findings + (a + b + c + d + f));
    let listed = exists|k: int| 0 <= k < uids.len() && uids[k] == u;
    if listed {
        let k = choose|k: int| 0 <= k < uids.len() && uids[k] == u;
        assert(uids.contains(u));
        assert(b =~= Seq::<FindingView>::empty());
        if added_finding_with_id(r, after, "identity.allowed_uids"@) {
            let i = choose|i: int|
                n <= i < after.findings.len() && (#[trigger] after.findings[i]).id
                    == "identity.allowed_uids"@;
            let j = i - n;
            assert(a + b =~= a);
            let acd = a + c + d;
            assert(after.findings[i] == (acd + f)[j]);
            if j < a.len() {
                assert((acd + f)[j] == a[j]);
                assert(a[j].id == "identity.non_root"@);
            } else if j < a.len() + c.len() {
                assert((acd + f)[j] == c[j - a.len()]);
                assert(c[j - a.len()].id == "identity.setuid_mismatch"@);
            } else if j < acd.len() {
                assert((acd + f)[j] == d[j - a.len() - c.len()]);
                assert(d[j - a.len() - c.len()].id == "identity.setgid_mismatch"@);
            } else {
                assert((acd + f)[j] == f[j - acd.len()]);
                assert(f[j - acd.len()].id == "identity.capabilities_present"@);
            }
            assert(false);
        }
    } else {
        assert(!uids.contains(u));
        assert(b == seq![uid_not_allowed(u, uids)]);
        let i: int = n + a.len();
        assert(after.findings[i] == uid_not_allowed(u, uids));
        assert(added_finding_with_id(r, after, "identity.allowed_uids"@));
    }
}

/// Whether `t` names a pseudo or layered filesystem: proc, sysfs, cgroup,
/// cgroup2, mqueue, devpts, securityfs, tracefs, configfs, pstore, autofs or
/// overlay.
pub open spec fn is_pseudo_fs_name(t: Seq<char>) -> bool {
    ||| t == "proc"@
    ||| t == "sysfs"@
    ||| t == "cgroup"@
    ||| t == "cgroup2"@
    ||| t == "mqueue"@
    ||| t == "devpts"@
    ||| t == "securityfs"@
    ||| t == "tracefs"@
    ||| t == "configfs"@
    ||| t == "pstore"@
    ||| t == "autofs"@
    ||| t == "overlay"@
}

proof fn lemma_pseudo_fs_ignored(t: Seq<char>)
    requires
        is_pseudo_fs_name(t),
    ensures
        ignored_fs_types().contains(t),
{
    let ts = ignored_fs_types();
    if t == "proc"@ {
        assert(ts[0] == t);
    } else if t == "sysfs"@ {
        assert(ts[1] == t);
    } else if t == "cgroup"@ {
        assert(ts[2] == t);
    } else if t == "cgroup2"@ {
        assert(ts[3] == t);
    } else if t == "mqueue"@ {
        assert(ts[4] == t);
    } else if t == "devpts"@ {
        assert(ts[5] == t);
    } else if t == "securityfs"@ {
        assert(ts[6] == t);
    } else if t == "tracefs"@ {
        assert(ts[7] == t);
    } else if t == "configfs"@ {
        assert(ts[8] == t);
    } else if t == "pstore"@ {
        assert(ts[9] == t);
    } else if t == "autofs"@ {
        assert(ts[10] == t);
    } else {
        assert(ts[11] == t);
    }
}

proof fn lemma_pseudo_prefix_not_disallowed(allowed: Seq<Seq<char>>, ms: Seq<MountView>, k: int)
    requires
        0 <= k <= ms.len(),
        forall|i: int| 0 <= i < ms.len() ==> is_pseudo_fs_name(#[trigger] ms[i].fs_type),
    ensures
        ms.take(k).filter_map(disallowed_fn(allowed)) == Seq::<Seq<char>>::empty(),
    decreases k,
{
    let f = disallowed_fn(allowed);
    if k == 0 {
        assert(ms.take(0) =~= Seq::<MountView>::empty());
    } else {
        lemma_pseudo_prefix_not_disallowed(allowed, ms, k - 1);
        ms.lemma_filter_map_take_succ(f, k - 1);
        lemma_pseudo_fs_ignored(ms[k - 1].fs_type);
        assert(f(ms[k - 1]) is None);
        assert(ms.take(k).filter_map(f) =~= Seq::<Seq<char>>::empty());
    }
}

/// A writable mount of a pseudo or layered filesystem (proc, sysfs, cgroup,
/// cgroup2, mqueue, devpts, securityfs, tracefs, configfs, pstore, autofs,
/// overlay) never counts as a disallowed writable mount, wherever it is
/// mounted: a mount table made only of such mounts adds no
/// `filesystem.disallowed_writable_mounts` finding.
pub proof fn lemma_pseudo_fs_never_disallowed(p: Policy, ms: Seq<MountView>, r: ReportView)
    requires
        forall|i: int| 0 <= i < ms.len() ==> is_pseudo_fs_name(#[trigger] ms[i].fs_type),
    ensures
        !added_finding_with_id(
            r,
            mounts_step(p, ms, r),
            "filesystem.disallowed_writable_mounts"@,
        ),
{
    reveal_strlit("filesystem.disallowed_writable_mounts");
    reveal_strlit("filesystem.root_writable");
    reveal_strlit("filesystem.suspicious_host_mount");
    assert("filesystem.disallowed_writable_mounts"@.len() == 37);
    assert("filesystem.root_writable"@.len() == 24);
    assert("filesystem.suspicious_host_mount"@.len() == 32);
    let allowed = strs_of(p.filesystem.allowed_writable_paths@);
    let f = disallowed_fn(allowed);
    lemma_pseudo_prefix_not_disallowed(allowed, ms, ms.len() as int);
    assert(ms.take(ms.len() as int) == ms);
    let dis = ms.filter_map(f);
    assert(dis.len() == 0);
    let root = r.filesystem.root_is_writable || writes_root(ms);
    let sus = ms.filter_map(suspicious_fn());
    let a = when(p.filesystem.deny_writable_root && root, root_writable_finding());
    let c = when(sus.len() > 0, suspicious_mount_finding(join(sus, ", "@)));
    let after = mounts_step(p, ms, r);
    assert(mount_findings(p.filesystem.deny_writable_root, root, dis, sus) =~= a + c);
    assert(after.findings == r.findings + (a + c));
    if added_finding_with_id(r, after, "filesystem.disallowed_writable_mounts"@) {
        let i = choose|i: int|
            r.findings.len() <= i < after.findings.len() && (#[trigger] after.findings[i]).id
                == "filesystem.disallowed_writable_mounts"@;
        let j = i - r.findings.len();
        if j < a.len() {
            assert(after.findings[i] == a[j]);
        } else {
            assert(after.findings[i] == c[j - a.len()]);
        }
        assert(false);
    }
}

/// The sandbox checks add a `sandbox.lsm_required` finding exactly when the
/// policy requires an LSM and neither an AppArmor profile confines the
/// process (its attribute text, trimmed, is neither empty nor `unconfined`)
/// nor SELinux enforces (its `enforce` file, trimmed, is `1`).
pub proof fn lemma_lsm_finding_iff_unconfined(
    p: Policy,
    snap: Option<ProcStatusSnapshot>,
    lsm: LsmFiles,
    r: ReportView,
)
    ensures
        added_finding_with_id(r, sandbox_step(p, snap, lsm, r), "sandbox.lsm_required"@) <==> (
        p.sandbox.require_lsm && !(match lsm.apparmor_current {
            Some(v) => trim(v@).len() > 0 && trim(v@) != "unconfined"@,
            None => false,
        }) && !(match lsm.selinux_enforce {
            Some(v) => trim(v@) == "1"@,
            None => false,
        })),
{
    reveal_strlit("sandbox.lsm_required");
    reveal_strlit("sandbox.seccomp_required");
    reveal_strlit("sandbox.no_new_privs_required");
    assert("sandbox.lsm_required"@.len() == 20);
    assert("sandbox.seccomp_required"@.len() == 24);
    assert("sandbox.no_new_privs_required"@.len() == 29);
    let mid = match snap {
        Some(s) => status_sandbox_findings(p, s),
        None => Seq::<FindingView>::empty(),
    };
    let profile = apparmor_profile_of(opt_view(lsm.apparmor_current));
    let selinux = selinux_enforcing_of(opt_view(lsm.selinux_enforce));
    let c = when(p.sandbox.require_lsm && !lsm_enforced(profile, selinux), lsm_finding());
    let after = sandbox_step(p, snap, lsm, r);
    assert(after.findings =~= r.findings + (mid + c));
    let n: int = r.findings.len() as int;
    if snap is Some {
        let s = snap->0;
        assert(forall|j: int| 0 <= j < mid.len() ==> (#[trigger] mid[j]).id
            == "sandbox.seccomp_required"@ || mid[j].id == "sandbox.no_new_privs_required"@);
    }
    if added_finding_with_id(r, after, "sandbox.lsm_required"@) {
        let i = choose|i: int|
            n <= i < after.findings.len() && (#[trigger] after.findings[i]).id
                == "sandbox.lsm_required"@;
        let j = i - n;
        if j < mid.len() {
            assert(after.findings[i] == mid[j]);
            assert(false);
        }
        assert(after.findings[i] == c[j - mid.len()]);
    }
    if p.sandbox.require_lsm && !lsm_enforced(profile, selinux) {
        let i: int = n + mid.len();
        assert(after.findings[i] == lsm_finding());
        assert(added_finding_with_id(r, after, "sandbox.lsm_required"@));
    }
}

} // verus!
