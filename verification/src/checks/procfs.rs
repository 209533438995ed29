//! Reading the text the Linux kernel exposes under `/proc/self`: the status
//! fields, the capability mask and the mount table.
use vstd::prelude::*;
use vstd::utf8::{encode_utf8, is_continuation_byte};

use crate::text::{
    chars_eq, chars_of, parse_uint, parse_uint_chars, seqs_of, split_lines, split_words,
    strip_prefix, strip_prefix_chars, trim, trim_chars, words, lines, string_from, strs_of, push_char, find_chars, sub_chars,
    split_once, string_of, occurs_at,
};

verus! {

// ---------------------------------------------------------------------------
// /proc/self/status
// ---------------------------------------------------------------------------

/// The fields of `/proc/self/status` that the checks read.
#[derive(Debug, Clone, Copy, PartialEq, Eq, Structural)]
pub struct ProcStatusSnapshot {
    pub uid: Option<u32>,
    pub euid: Option<u32>,
    pub gid: Option<u32>,
    pub egid: Option<u32>,
    pub seccomp: Option<u8>,
    pub no_new_privs: Option<bool>,
    pub cap_eff: Option<u64>,
}

/// A snapshot with no field read.
pub open spec fn empty_snapshot() -> ProcStatusSnapshot {
    ProcStatusSnapshot {
        uid: None,
        euid: None,
        gid: None,
        egid: None,
        seccomp: None,
        no_new_privs: None,
        cap_eff: None,
    }
}

/// The decimal `u32` values among the whitespace-separated words of `s`,
/// words that are not such a value being skipped.
pub open spec fn u32_fields(s: Seq<char>) -> Seq<u32> {
    words(s).filter_map(u32_of_word())
}

/// The decimal `u32` a word writes, if any.
pub open spec fn u32_of_word() -> spec_fn(Seq<char>) -> Option<u32> {
    |w: Seq<char>|
        match parse_uint(w, 10, 0xffff_ffff) {
            Some(n) => Some(n as u32),
            None => None,
        }
}

/// The element at `i`, if there is one.
pub open spec fn nth(s: Seq<u32>, i: int) -> Option<u32> {
    if 0 <= i < s.len() {
        Some(s[i])
    } else {
        None
    }
}

/// `s` updated by one line of `/proc/self/status`: `Uid:` and `Gid:` give the
/// first two numbers as the real and effective ids, `Seccomp:` a decimal
/// `u8`, `NoNewPrivs:` `1` or `0`, `CapEff:` a hexadecimal `u64`; other
/// lines leave `s` as it is.
pub open spec fn status_line_update(s: ProcStatusSnapshot, line: Seq<char>) -> ProcStatusSnapshot {
    match strip_prefix(line, "Uid:"@) {
        Some(v) => ProcStatusSnapshot { uid: nth(u32_fields(v), 0), euid: nth(u32_fields(v), 1), ..s },
        None => match strip_prefix(line, "Gid:"@) {
            Some(v) => ProcStatusSnapshot {
                gid: nth(u32_fields(v), 0),
                egid: nth(u32_fields(v), 1),
                ..s
            },
            None => match strip_prefix(line, "Seccomp:"@) {
                Some(v) => ProcStatusSnapshot {
                    seccomp: match parse_uint(trim(v), 10, 0xff) {
                        Some(n) => Some(n as u8),
                        None => None,
                    },
                    ..s
                },
                None => match strip_prefix(line, "NoNewPrivs:"@) {
                    Some(v) => ProcStatusSnapshot {
                        no_new_privs: if trim(v) == "1"@ {
                            Some(true)
                        } else if trim(v) == "0"@ {
                            Some(false)
                        } else {
                            None
                        },
                        ..s
                    },
                    None => match strip_prefix(line, "CapEff:"@) {
                        Some(v) => ProcStatusSnapshot {
                            cap_eff: match parse_uint(trim(v), 16, 0xffff_ffff_ffff_ffff) {
                                Some(n) => Some(n as u64),
                                None => None,
                            },
                            ..s
                        },
                        None => s,
                    },
                },
            },
        },
    }
}

/// The snapshot that the lines `ls` give, read in order.
pub open spec fn status_of_lines(ls: Seq<Seq<char>>) -> ProcStatusSnapshot
    decreases ls.len(),
{
    if ls.len() == 0 {
        empty_snapshot()
    } else {
        status_line_update(status_of_lines(ls.drop_last()), ls.last())
    }
}

/// The snapshot that the text of `/proc/self/status` gives.
pub open spec fn proc_status_of(content: Seq<char>) -> ProcStatusSnapshot {
    status_of_lines(lines(content))
}

/// The decimal `u32` values among the words of `v`.
pub fn parse_u32_fields(v: &Vec<char>) -> (r: Vec<u32>)
    ensures
        r@ == u32_fields(v@),
{
    let ws = split_words(v);
    let ghost f = u32_of_word();
    let ghost all = seqs_of(ws@);
    let mut out: Vec<u32> = Vec::new();
    for i in 0..ws.len()
        invariant
            all == seqs_of(ws@),
            all == words(v@),
            f == u32_of_word(),
            out@ == all.take(i as int).filter_map(f),
    {
        proof {
            all.lemma_filter_map_take_succ(f, i as int);
            assert(all[i as int] == ws@[i as int]@);
        }
        match parse_uint_chars(&ws[i], 10, 0xffff_ffff) {
            Some(n) => {
                assert(f(all[i as int]) == Some(n as u32));
                out.push(n as u32);
            },
            None => {
                assert(f(all[i as int]) is None);
            },
        }
    }
    assert(all.take(ws.len() as int) == all);
    out
}

fn nth_exec(v: &Vec<u32>, i: usize) -> (r: Option<u32>)
    ensures
        r == nth(v@, i as int),
{
    if i < v.len() {
        Some(v[i])
    } else {
        None
    }
}

fn update_from_line(s: ProcStatusSnapshot, line: &Vec<char>) -> (r: ProcStatusSnapshot)
    ensures
        r == status_line_update(s, line@),
{
    if let Some(v) = strip_prefix_chars(line, &chars_of("Uid:")) {
        let nums = parse_u32_fields(&v);
        return ProcStatusSnapshot { uid: nth_exec(&nums, 0), euid: nth_exec(&nums, 1), ..s };
    }
    if let Some(v) = strip_prefix_chars(line, &chars_of("Gid:")) {
        let nums = parse_u32_fields(&v);
        return ProcStatusSnapshot { gid: nth_exec(&nums, 0), egid: nth_exec(&nums, 1), ..s };
    }
    if let Some(v) = strip_prefix_chars(line, &chars_of("Seccomp:")) {
        let t = trim_chars(&v);
        let seccomp = match parse_uint_chars(&t, 10, 0xff) {
            Some(n) => Some(n as u8),
            None => None,
        };
        return ProcStatusSnapshot { seccomp, ..s };
    }
    if let Some(v) = strip_prefix_chars(line, &chars_of("NoNewPrivs:")) {
        let t = trim_chars(&v);
        let no_new_privs = if chars_eq(&t, &chars_of("1")) {
            Some(true)
        } else if chars_eq(&t, &chars_of("0")) {
            Some(false)
        } else {
            None
        };
        return ProcStatusSnapshot { no_new_privs, ..s };
    }
    if let Some(v) = strip_prefix_chars(line, &chars_of("CapEff:")) {
        let t = trim_chars(&v);
        let cap_eff = parse_uint_chars(&t, 16, 0xffff_ffff_ffff_ffff);
        return ProcStatusSnapshot { cap_eff, ..s };
    }
    s
}

/// Reads the identity, sandbox and capability fields out of the text of
/// `/proc/self/status`; a later line of the same kind overrides an earlier one.
pub fn parse_proc_status(content: &str) -> (r: ProcStatusSnapshot)
    ensures
        r == proc_status_of(content@),
{
    let v = chars_of(content);
    let ls = split_lines(&v);
    let ghost all = seqs_of(ls@);
    let mut out = ProcStatusSnapshot {
        uid: None,
        euid: None,
        gid: None,
        egid: None,
        seccomp: None,
        no_new_privs: None,
        cap_eff: None,
    };
    for i in 0..ls.len()
        invariant
            all == seqs_of(ls@),
            all == lines(content@),
            out == status_of_lines(all.take(i as int)),
    {
        proof {
            assert(all.take(i + 1).drop_last() == all.take(i as int));
            assert(all.take(i + 1).last() == ls@[i as int]@);
        }
        out = update_from_line(out, &ls[i]);
    }
    assert(all.take(ls.len() as int) == all);
    out
}

// ---------------------------------------------------------------------------
// Capabilities
// ---------------------------------------------------------------------------

/// The name of Linux capability number `i`, for `i < 41`.
pub open spec fn cap_name(i: int) -> Seq<char> {
    if i == 0 {
        "CAP_CHOWN"@
    } else if i == 1 {
        "CAP_DAC_OVERRIDE"@
    } else if i == 2 {
        "CAP_DAC_READ_SEARCH"@
    } else if i == 3 {
        "CAP_FOWNER"@
    } else if i == 4 {
        "CAP_FSETID"@
    } else if i == 5 {
        "CAP_KILL"@
    } else if i == 6 {
        "CAP_SETGID"@
    } else if i == 7 {
        "CAP_SETUID"@
    } else if i == 8 {
        "CAP_SETPCAP"@
    } else if i == 9 {
        "CAP_LINUX_IMMUTABLE"@
    } else if i == 10 {
        "CAP_NET_BIND_SERVICE"@
    } else if i == 11 {
        "CAP_NET_BROADCAST"@
    } else if i == 12 {
        "CAP_NET_ADMIN"@
    } else if i == 13 {
        "CAP_NET_RAW"@
    } else if i == 14 {
        "CAP_IPC_LOCK"@
    } else if i == 15 {
        "CAP_IPC_OWNER"@
    } else if i == 16 {
        "CAP_SYS_MODULE"@
    } else if i == 17 {
        "CAP_SYS_RAWIO"@
    } else if i == 18 {
        "CAP_SYS_CHROOT"@
    } else if i == 19 {
        "CAP_SYS_PTRACE"@
    } else if i == 20 {
        "CAP_SYS_PACCT"@
    } else if i == 21 {
        "CAP_SYS_ADMIN"@
    } else if i == 22 {
        "CAP_SYS_BOOT"@
    } else if i == 23 {
        "CAP_SYS_NICE"@
    } else if i == 24 {
        "CAP_SYS_RESOURCE"@
    } else if i == 25 {
        "CAP_SYS_TIME"@
    } else if i == 26 {
        "CAP_SYS_TTY_CONFIG"@
    } else if i == 27 {
        "CAP_MKNOD"@
    } else if i == 28 {
        "CAP_LEASE"@
    } else if i == 29 {
        "CAP_AUDIT_WRITE"@
    } else if i == 30 {
        "CAP_AUDIT_CONTROL"@
    } else if i == 31 {
        "CAP_SETFCAP"@
    } else if i == 32 {
        "CAP_MAC_OVERRIDE"@
    } else if i == 33 {
        "CAP_MAC_ADMIN"@
    } else if i == 34 {
        "CAP_SYSLOG"@
    } else if i == 35 {
        "CAP_WAKE_ALARM"@
    } else if i == 36 {
        "CAP_BLOCK_SUSPEND"@
    } else if i == 37 {
        "CAP_AUDIT_READ"@
    } else if i == 38 {
        "CAP_PERFMON"@
    } else if i == 39 {
        "CAP_BPF"@
    } else {
        "CAP_CHECKPOINT_RESTORE"@
    }
}

/// The name of Linux capability number `i`.
fn cap_name_str(i: u64) -> (s: &'static str)
    requires
        i < 41,
    ensures
        s@ == cap_name(i as int),
{
    if i == 0 {
        "CAP_CHOWN"
    } else if i == 1 {
        "CAP_DAC_OVERRIDE"
    } else if i == 2 {
        "CAP_DAC_READ_SEARCH"
    } else if i == 3 {
        "CAP_FOWNER"
    } else if i == 4 {
        "CAP_FSETID"
    } else if i == 5 {
        "CAP_KILL"
    } else if i == 6 {
        "CAP_SETGID"
    } else if i == 7 {
        "CAP_SETUID"
    } else if i == 8 {
        "CAP_SETPCAP"
    } else if i == 9 {
        "CAP_LINUX_IMMUTABLE"
    } else if i == 10 {
        "CAP_NET_BIND_SERVICE"
    } else if i == 11 {
        "CAP_NET_BROADCAST"
    } else if i == 12 {
        "CAP_NET_ADMIN"
    } else if i == 13 {
        "CAP_NET_RAW"
    } else if i == 14 {
        "CAP_IPC_LOCK"
    } else if i == 15 {
        "CAP_IPC_OWNER"
    } else if i == 16 {
        "CAP_SYS_MODULE"
    } else if i == 17 {
        "CAP_SYS_RAWIO"
    } else if i == 18 {
        "CAP_SYS_CHROOT"
    } else if i == 19 {
        "CAP_SYS_PTRACE"
    } else if i == 20 {
        "CAP_SYS_PACCT"
    } else if i == 21 {
        "CAP_SYS_ADMIN"
    } else if i == 22 {
        "CAP_SYS_BOOT"
    } else if i == 23 {
        "CAP_SYS_NICE"
    } else if i == 24 {
        "CAP_SYS_RESOURCE"
    } else if i == 25 {
        "CAP_SYS_TIME"
    } else if i == 26 {
        "CAP_SYS_TTY_CONFIG"
    } else if i == 27 {
        "CAP_MKNOD"
    } else if i == 28 {
        "CAP_LEASE"
    } else if i == 29 {
        "CAP_AUDIT_WRITE"
    } else if i == 30 {
        "CAP_AUDIT_CONTROL"
    } else if i == 31 {
        "CAP_SETFCAP"
    } else if i == 32 {
        "CAP_MAC_OVERRIDE"
    } else if i == 33 {
        "CAP_MAC_ADMIN"
    } else if i == 34 {
        "CAP_SYSLOG"
    } else if i == 35 {
        "CAP_WAKE_ALARM"
    } else if i == 36 {
        "CAP_BLOCK_SUSPEND"
    } else if i == 37 {
        "CAP_AUDIT_READ"
    } else if i == 38 {
        "CAP_PERFMON"
    } else if i == 39 {
        "CAP_BPF"
    } else {
        "CAP_CHECKPOINT_RESTORE"
    }
}

/// Whether bit `i` of `mask` is set.
pub open spec fn cap_bit(mask: u64, i: int) -> bool {
    mask & (1u64 << (i as u64)) != 0
}

/// The names of the capabilities numbered below `n` whose bits are set in
/// `mask`, in ascending order.
pub open spec fn caps_below(mask: u64, n: int) -> Seq<Seq<char>>
    decreases n,
{
    if n <= 0 {
        Seq::empty()
    } else if cap_bit(mask, n - 1) {
        caps_below(mask, n - 1).push(cap_name(n - 1))
    } else {
        caps_below(mask, n - 1)
    }
}

/// The names of the known capabilities (numbers 0 to 40) set in `mask`.
pub open spec fn cap_names(mask: u64) -> Seq<Seq<char>> {
    caps_below(mask, 41)
}

/// The names of the known capabilities set in the effective capability
/// mask, in ascending order of their numbers; higher bits are ignored.
pub fn decode_capabilities(mask: u64) -> (r: Vec<String>)
    ensures
        strs_of(r@) == cap_names(mask),
{
    let mut out: Vec<String> = Vec::new();
    let mut idx: u64 = 0;
    while idx < 41
        invariant
            idx <= 41,
            strs_of(out@) == caps_below(mask, idx as int),
        decreases 41 - idx,
    {
        if (mask & (1u64 << idx)) != 0 {
            let ghost o = strs_of(out@);
            out.push(string_from(cap_name_str(idx)));
            assert(strs_of(out@) =~= o.push(cap_name(idx as int)));
        }
        idx += 1;
    }
    out
}

/// A mask without bits names no capability.
pub proof fn lemma_zero_mask_has_no_capabilities()
    ensures
        cap_names(0) == Seq::<Seq<char>>::empty(),
{
    lemma_caps_below_zero(41);
}

proof fn lemma_caps_below_zero(n: int)
    requires
        0 <= n <= 41,
    ensures
        caps_below(0, n) == Seq::<Seq<char>>::empty(),
    decreases n,
{
    if n > 0 {
        lemma_caps_below_zero(n - 1);
        let i = (n - 1) as u64;
        assert(0u64 & (1u64 << i) == 0) by (bit_vector);
    }
}

/// The Linux capabilities by number, as `linux/capability.h` lists them
/// (`CAP_CHOWN` is 0, `CAP_CHECKPOINT_RESTORE` is 40).
pub open spec fn linux_capability_table() -> Seq<Seq<char>> {
    seq![
        "CAP_CHOWN"@,
        "CAP_DAC_OVERRIDE"@,
        "CAP_DAC_READ_SEARCH"@,
        "CAP_FOWNER"@,
        "CAP_FSETID"@,
        "CAP_KILL"@,
        "CAP_SETGID"@,
        "CAP_SETUID"@,
        "CAP_SETPCAP"@,
        "CAP_LINUX_IMMUTABLE"@,
        "CAP_NET_BIND_SERVICE"@,
        "CAP_NET_BROADCAST"@,
        "CAP_NET_ADMIN"@,
        "CAP_NET_RAW"@,
        "CAP_IPC_LOCK"@,
        "CAP_IPC_OWNER"@,
        "CAP_SYS_MODULE"@,
        "CAP_SYS_RAWIO"@,
        "CAP_SYS_CHROOT"@,
        "CAP_SYS_PTRACE"@,
        "CAP_SYS_PACCT"@,
        "CAP_SYS_ADMIN"@,
        "CAP_SYS_BOOT"@,
        "CAP_SYS_NICE"@,
        "CAP_SYS_RESOURCE"@,
        "CAP_SYS_TIME"@,
        "CAP_SYS_TTY_CONFIG"@,
        "CAP_MKNOD"@,
        "CAP_LEASE"@,
        "CAP_AUDIT_WRITE"@,
        "CAP_AUDIT_CONTROL"@,
        "CAP_SETFCAP"@,
        "CAP_MAC_OVERRIDE"@,
        "CAP_MAC_ADMIN"@,
        "CAP_SYSLOG"@,
        "CAP_WAKE_ALARM"@,
        "CAP_BLOCK_SUSPEND"@,
        "CAP_AUDIT_READ"@,
        "CAP_PERFMON"@,
        "CAP_BPF"@,
        "CAP_CHECKPOINT_RESTORE"@,
    ]
}

proof fn lemma_single_bit(i: u64, j: u64)
    requires
        i < 64,
        j < 64,
    ensures
        ((1u64 << i) & (1u64 << j) != 0) == (i == j),
{
    assert(((1u64 << i) & (1u64 << j) != 0) == (i == j)) by (bit_vector)
        requires
            i < 64,
            j < 64,
    ;
}

proof fn lemma_caps_below_single(i: int, n: int)
    requires
        0 <= i < 41,
        0 <= n <= 41,
    ensures
        caps_below(1u64 << (i as u64), n) == (if n > i {
            seq![cap_name(i)]
        } else {
            Seq::<Seq<char>>::empty()
        }),
    decreases n,
{
    if n > 0 {
        lemma_caps_below_single(i, n - 1);
        lemma_single_bit(i as u64, (n - 1) as u64);
        if n - 1 == i {
            assert(Seq::<Seq<char>>::empty().push(cap_name(i)) == seq![cap_name(i)]);
        }
    }
}

/// A mask with only bit `i` set names exactly Linux capability number `i`
/// (so bit 12 is `CAP_NET_ADMIN` and bit 13 is `CAP_NET_RAW`).
pub proof fn lemma_single_bit_names_its_capability(i: int)
    requires
        0 <= i < 41,
    ensures
        cap_names(1u64 << (i as u64)) == seq![linux_capability_table()[i]],
{
    lemma_caps_below_single(i, 41);
    assert(cap_name(i) == linux_capability_table()[i]);
}

/// At most 41 capability names come out of any mask.
pub proof fn lemma_capability_count(mask: u64)
    ensures
        cap_names(mask).len() <= 41,
{
    lemma_caps_below_len(mask, 41);
}

proof fn lemma_caps_below_len(mask: u64, n: int)
    requires
        0 <= n,
    ensures
        caps_below(mask, n).len() <= n,
    decreases n,
{
    if n > 0 {
        lemma_caps_below_len(mask, n - 1);
    }
}

// ---------------------------------------------------------------------------
// /proc/self/mountinfo
// ---------------------------------------------------------------------------

/// One mount as the filesystem checks read it.
#[derive(Debug)]
pub struct MountInfo {
    pub mount_point: String,
    pub mount_options: String,
    pub fs_type: String,
    pub source: String,
}

/// A mount as character sequences.
pub struct MountView {
    pub mount_point: Seq<char>,
    pub mount_options: Seq<char>,
    pub fs_type: Seq<char>,
    pub source: Seq<char>,
}

impl View for MountInfo {
    type V = MountView;

    open spec fn view(&self) -> MountView {
        MountView {
            mount_point: self.mount_point@,
            mount_options: self.mount_options@,
            fs_type: self.fs_type@,
            source: self.source@,
        }
    }
}

/// The views of a sequence of mounts.
pub open spec fn mounts_of(m: Seq<MountInfo>) -> Seq<MountView> {
    m.map_values(|x: MountInfo| x@)
}

/// The byte value that three bytes write in octal: an optional `+`, then
/// digits `0`-`7`, at most 255.
pub open spec fn octal_byte(b1: u8, b2: u8, b3: u8) -> Option<nat> {
    parse_uint(seq![b1 as char, b2 as char, b3 as char], 8, 255)
}

/// The backslash byte.
pub open spec fn is_backslash(b: u8) -> bool {
    b == 92u8
}

/// A mountinfo field decoded from its UTF-8 bytes: a backslash followed by
/// at least three bytes that write an octal byte value stands for that
/// value; every other byte stands for itself; each value becomes the
/// character with that code.
pub open spec fn decode_mount_bytes(b: Seq<u8>) -> Seq<char>
    decreases b.len(),
{
    if b.len() == 0 {
        Seq::empty()
    } else if is_backslash(b[0]) && b.len() > 3 && octal_byte(b[1], b[2], b[3]) is Some {
        seq![(octal_byte(b[1], b[2], b[3])->0 as u8) as char] + decode_mount_bytes(b.skip(4))
    } else {
        seq![b[0] as char] + decode_mount_bytes(b.skip(1))
    }
}

/// Whether decoding meets a backslash whose three following bytes end
/// inside a multi-byte character: such a field cannot be cut there, and
/// the field is refused.
pub open spec fn decode_mount_stuck(b: Seq<u8>) -> bool
    decreases b.len(),
{
    if b.len() == 0 {
        false
    } else if is_backslash(b[0]) && b.len() > 3 {
        (b.len() > 4 && is_continuation_byte(b[4])) || if octal_byte(b[1], b[2], b[3]) is Some {
            decode_mount_stuck(b.skip(4))
        } else {
            decode_mount_stuck(b.skip(1))
        }
    } else {
        decode_mount_stuck(b.skip(1))
    }
}

fn octal_byte_exec(b1: u8, b2: u8, b3: u8) -> (r: Option<u8>)
    ensures
        match r {
            Some(v) => octal_byte(b1, b2, b3) == Some(v as nat),
            None => octal_byte(b1, b2, b3) is None,
        },
{
    let mut v: Vec<char> = Vec::new();
    v.push(b1 as char);
    v.push(b2 as char);
    v.push(b3 as char);
    assert(v@ =~= seq![b1 as char, b2 as char, b3 as char]);
    match parse_uint_chars(&v, 8, 255) {
        Some(n) => Some(n as u8),
        None => None,
    }
}

/// Decodes the octal escapes of a mountinfo field; `None` when a backslash's
/// three following bytes end inside a multi-byte character.
pub fn decode_mount_field(input: &str) -> (r: Option<String>)
    ensures
        match r {
            Some(s) => !decode_mount_stuck(encode_utf8(input@)) && s@ == decode_mount_bytes(
                encode_utf8(input@),
            ),
            None => decode_mount_stuck(encode_utf8(input@)),
        },
{
    let bytes = input.as_bytes();
    let ghost b = bytes@;
    assert(b == encode_utf8(input@));
    let mut out = String::new();
    let mut i: usize = 0;
    assert(b.skip(0) == b);
    while i < bytes.len()
        invariant
            b == bytes@,
            b == encode_utf8(input@),
            i <= bytes.len(),
            decode_mount_bytes(b) == out@ + decode_mount_bytes(b.skip(i as int)),
            decode_mount_stuck(b) == decode_mount_stuck(b.skip(i as int)),
        decreases bytes.len() - i,
    {
        let ghost rest = b.skip(i as int);
        assert(rest[0] == b[i as int]);
        if bytes[i] == 92u8 && bytes.len() - i > 3 {
            assert(rest[1] == b[i + 1] && rest[2] == b[i + 2] && rest[3] == b[i + 3]);
            if bytes.len() - i > 4 && 0x80 <= bytes[i + 4] && bytes[i + 4] <= 0xbf {
                assert(rest[4] == b[i + 4]);
                assert(is_backslash(rest[0]));
                assert(is_continuation_byte(rest[4]));
                assert(decode_mount_stuck(rest));
                return None;
            }
            match octal_byte_exec(bytes[i + 1], bytes[i + 2], bytes[i + 3]) {
                Some(v) => {
                    let ghost o = out@;
                    push_char(&mut out, v as char);
                    assert(rest.skip(4) == b.skip(i + 4));
                    assert(decode_mount_bytes(rest) == seq![v as char] + decode_mount_bytes(
                        rest.skip(4),
                    ));
                    assert(o + (seq![v as char] + decode_mount_bytes(b.skip(i + 4))) == o.push(
                        v as char,
                    ) + decode_mount_bytes(b.skip(i + 4)));
                    i += 4;
                    continue ;
                },
                None => {},
            }
        }
        let ghost o = out@;
        push_char(&mut out, bytes[i] as char);
        assert(rest.skip(1) == b.skip(i + 1));
        assert(o + (seq![b[i as int] as char] + decode_mount_bytes(b.skip(i + 1))) == o.push(
            b[i as int] as char,
        ) + decode_mount_bytes(b.skip(i + 1)));
        i += 1;
    }
    assert(b.skip(i as int) =~= Seq::<u8>::empty());
    assert(out@ + Seq::<char>::empty() == out@);
    Some(out)
}

/// The filesystem type named after the separator of a mountinfo line.
pub open spec fn fs_type_of(right: Seq<char>) -> Seq<char> {
    if words(right).len() > 0 {
        words(right)[0]
    } else {
        Seq::empty()
    }
}

/// The mount source named after the separator of a mountinfo line.
pub open spec fn source_of(right: Seq<char>) -> Seq<char> {
    if words(right).len() > 1 {
        words(right)[1]
    } else {
        Seq::empty()
    }
}

/// The mount a line of `/proc/self/mountinfo` describes: the line splits at
/// its first ` - ` and has at least six words before it; the fifth is the
/// mount point and the sixth the mount options; after it come the
/// filesystem type and the source.
pub open spec fn mount_line(line: Seq<char>) -> Option<MountView> {
    match split_once(line, " - "@) {
        None => None,
        Some((left, right)) => if words(left).len() < 6 {
            None
        } else {
            Some(
                MountView {
                    mount_point: decode_mount_bytes(encode_utf8(words(left)[4])),
                    mount_options: words(left)[5],
                    fs_type: fs_type_of(right),
                    source: decode_mount_bytes(encode_utf8(source_of(right))),
                },
            )
        },
    }
}

/// For a mountinfo line that splits at its first ` - ` into `left` and
/// `right`, with at least six words in `left` and two in `right`: the mount
/// point is the fifth word of `left` and the options the sixth, the
/// filesystem type is the first word of `right`, and the source is the
/// second word of `right`; mount point and source have their octal escapes
/// decoded.
pub proof fn lemma_mount_line_fields(line: Seq<char>, left: Seq<char>, right: Seq<char>)
    requires
        split_once(line, " - "@) == Some((left, right)),
        words(left).len() >= 6,
        words(right).len() >= 2,
    ensures
        mount_line(line) == Some(
            MountView {
                mount_point: decode_mount_bytes(encode_utf8(words(left)[4])),
                mount_options: words(left)[5],
                fs_type: words(right)[0],
                source: decode_mount_bytes(encode_utf8(words(right)[1])),
            },
        ),
{
}

/// Whether the mount point or the source of a line cannot be decoded.
pub open spec fn mount_line_stuck(line: Seq<char>) -> bool {
    match split_once(line, " - "@) {
        None => false,
        Some((left, right)) => words(left).len() >= 6 && (decode_mount_stuck(
            encode_utf8(words(left)[4]),
        ) || decode_mount_stuck(encode_utf8(source_of(right)))),
    }
}

/// `mount_line` as a function value.
pub open spec fn mount_line_fn() -> spec_fn(Seq<char>) -> Option<MountView> {
    |l: Seq<char>| mount_line(l)
}

/// The mounts that the text of `/proc/self/mountinfo` describes, in order;
/// lines that describe none are skipped.
pub open spec fn mountinfo_of(input: Seq<char>) -> Seq<MountView> {
    lines(input).filter_map(mount_line_fn())
}

/// Whether every line of the text can be decoded.
pub open spec fn mountinfo_decodes(input: Seq<char>) -> bool {
    forall|i: int| 0 <= i < lines(input).len() ==> !mount_line_stuck(#[trigger] lines(input)[i])
}

fn word_or_empty(ws: &Vec<Vec<char>>, i: usize) -> (r: Vec<char>)
    ensures
        r@ == (if i < ws@.len() {
            ws@[i as int]@
        } else {
            Seq::<char>::empty()
        }),
{
    if i < ws.len() {
        let mut r: Vec<char> = Vec::new();
        let n = ws[i].len();
        for k in 0..n
            invariant
                i < ws@.len(),
                n == ws@[i as int]@.len(),
                r@ == ws@[i as int]@.take(k as int),
        {
            r.push(ws[i][k]);
            assert(ws@[i as int]@.take(k + 1) == ws@[i as int]@.take(k as int).push(
                ws@[i as int]@[k as int],
            ));
        }
        assert(ws@[i as int]@.take(ws@[i as int]@.len() as int) == ws@[i as int]@);
        r
    } else {
        Vec::new()
    }
}

/// The mount a line describes, `Err` when it cannot be decoded.
fn parse_mount_line(line: &Vec<char>) -> (r: Result<Option<MountInfo>, ()>)
    ensures
        match r {
            Ok(Some(m)) => !mount_line_stuck(line@) && mount_line(line@) == Some(m@),
            Ok(None) => !mount_line_stuck(line@) && mount_line(line@) is None,
            Err(_) => mount_line_stuck(line@),
        },
{
    let sep = chars_of(" - ");
    proof {
        reveal_strlit(" - ");
    }
    assert(sep@.len() == 3);
    let at = match find_chars(line, &sep) {
        Some(i) => i,
        None => {
            return Ok(None);
        },
    };
    assert(occurs_at(line@, sep@, at as int));
    assert(at + 3 <= line.len());
    let left = sub_chars(line, 0, at);
    let right = sub_chars(line, at + 3, line.len());
    assert(left@ == line@.take(at as int));
    assert(right@ == line@.skip(at + 3));
    let lp = split_words(&left);
    if lp.len() < 6 {
        return Ok(None);
    }
    let rp = split_words(&right);
    let fs_type = word_or_empty(&rp, 0);
    let source = word_or_empty(&rp, 1);
    let mp_word = word_or_empty(&lp, 4);
    let opts = word_or_empty(&lp, 5);
    let mp_text = string_of(&mp_word);
    let source_text = string_of(&source);
    let mount_point = match decode_mount_field(mp_text.as_str()) {
        Some(m) => m,
        None => {
            return Err(());
        },
    };
    let source = match decode_mount_field(source_text.as_str()) {
        Some(m) => m,
        None => {
            return Err(());
        },
    };
    Ok(Some(MountInfo { mount_point, mount_options: string_of(&opts), fs_type: string_of(&fs_type), source }))
}

/// The mounts of the text, `None` when some line cannot be decoded.
fn try_parse_mountinfo(input: &str) -> (r: Option<Vec<MountInfo>>)
    ensures
        match r {
            Some(ms) => mountinfo_decodes(input@) && mounts_of(ms@) == mountinfo_of(input@),
            None => !mountinfo_decodes(input@),
        },
{
    let v = chars_of(input);
    let ls = split_lines(&v);
    let ghost all = seqs_of(ls@);
    let ghost f = mount_line_fn();
    let mut out: Vec<MountInfo> = Vec::new();
    for i in 0..ls.len()
        invariant
            all == seqs_of(ls@),
            all == lines(input@),
            f == mount_line_fn(),
            forall|j: int| 0 <= j < i ==> !mount_line_stuck(#[trigger] all[j]),
            mounts_of(out@) == all.take(i as int).filter_map(f),
    {
        proof {
            all.lemma_filter_map_take_succ(f, i as int);
            assert(all[i as int] == ls@[i as int]@);
        }
        match parse_mount_line(&ls[i]) {
            Ok(Some(m)) => {
                let ghost o = mounts_of(out@);
                out.push(m);
                assert(mounts_of(out@) =~= o.push(m@));
                assert(o.push(m@) == o + seq![m@]);
            },
            Ok(None) => {
                assert(all.take(i as int).filter_map(f) + Seq::<MountView>::empty()
                    == all.take(i as int).filter_map(f));
            },
            Err(_) => {
                return None;
            },
        }
    }
    assert(all.take(ls.len() as int) == all);
    Some(out)
}

/// The mounts that the text of `/proc/self/mountinfo` describes.
pub fn parse_mountinfo(input: &str) -> (r: Vec<MountInfo>)
    requires
        mountinfo_decodes(input@),
    ensures
        mounts_of(r@) == mountinfo_of(input@),
{
    match try_parse_mountinfo(input) {
        Some(ms) => ms,
        None => {
            proof {
                assert(false);
            }
            Vec::new()
        },
    }
}

/// Whether every line of the mountinfo text can be decoded.
pub fn mountinfo_decodable(input: &str) -> (r: bool)
    ensures
        r == mountinfo_decodes(input@),
{
    match try_parse_mountinfo(input) {
        Some(_) => true,
        None => false,
    }
}

} // verus!
