//! The seccomp profile that blocks the syscalls used to extract a protected workload.
use vstd::prelude::*;
use crate::harden::string_views;

verus! {

/// A seccomp profile in the Docker JSON layout.
pub struct SeccompProfile {
    pub default_action: String,
    pub architectures: Vec<String>,
    pub syscalls: Vec<SyscallRule>,
}

/// An action applied to a list of syscalls.
pub struct SyscallRule {
    pub names: Vec<String>,
    pub action: String,
}

/// The syscalls a protected workload may make.
pub open spec fn allowed_syscalls() -> Seq<Seq<char>> {
    seq![
        "read"@, "write"@, "close"@, "openat"@, "newfstatat"@, "mmap"@, "munmap"@, "brk"@,
        "socket"@, "bind"@, "listen"@, "accept"@, "connect"@, "sendto"@, "recvfrom"@,
        "epoll_wait"@, "epoll_ctl"@, "epoll_create1"@, "clock_gettime"@, "futex"@, "exit"@,
        "exit_group"@,
    ]
}

/// The syscalls refused explicitly: tracing, cross-process memory access, mounts, module
/// loading and host control.
pub open spec fn denied_syscalls() -> Seq<Seq<char>> {
    seq![
        "ptrace"@, "process_vm_readv"@, "process_vm_writev"@, "mount"@, "umount2"@,
        "pivot_root"@, "chroot"@, "kexec_load"@, "init_module"@, "finit_module"@,
        "delete_module"@, "reboot"@, "sethostname"@,
    ]
}

/// The architectures the profile covers.
pub open spec fn profile_architectures() -> Seq<Seq<char>> {
    seq!["SCMP_ARCH_X86_64"@, "SCMP_ARCH_AARCH64"@]
}

/// A rule's view: its syscall names and its action.
pub open spec fn rule_view(r: SyscallRule) -> (Seq<Seq<char>>, Seq<char>) {
    (string_views(r.names@), r.action@)
}

/// The rules of a profile.
pub open spec fn rules_view(rules: Seq<SyscallRule>) -> Seq<(Seq<Seq<char>>, Seq<char>)> {
    rules.map_values(|r: SyscallRule| rule_view(r))
}

/// The anti-extraction profile: refuse by default, allow the listed syscalls, and refuse
/// the denied ones explicitly.
pub open spec fn anti_extraction_profile_spec(p: SeccompProfile) -> bool {
    &&& p.default_action@ == "SCMP_ACT_ERRNO"@
    &&& string_views(p.architectures@) == profile_architectures()
    &&& rules_view(p.syscalls@) == seq![
        (allowed_syscalls(), "SCMP_ACT_ALLOW"@),
        (denied_syscalls(), "SCMP_ACT_ERRNO"@),
    ]
}

/// The views of a sequence of string slices.
pub open spec fn str_views(s: Seq<&str>) -> Seq<Seq<char>> {
    s.map_values(|x: &str| x@)
}

fn strings_of(items: &[&str]) -> (r: Vec<String>)
    ensures
        string_views(r@) == str_views(items@),
{
    let mut r: Vec<String> = Vec::new();
    let mut i: usize = 0;
    while i < items.len()
        invariant
            i <= items@.len(),
            r@.len() == i,
            string_views(r@) == str_views(items@.take(i as int)),
        decreases items@.len() - i,
    {
        let ghost before = r@;
        let owned = items[i].to_owned();
        r.push(owned);
        assert(r@ == before.push(owned));
        assert forall|j: int| 0 <= j < i + 1 implies #[trigger] string_views(r@)[j]
            == str_views(items@.take(i + 1))[j] by {
            if j < i {
                assert(string_views(before)[j] == str_views(items@.take(i as int))[j]);
                assert(items@.take(i as int)[j] == items@.take(i + 1)[j]);
            } else {
                assert(r@[j] == owned);
                assert(items@.take(i + 1)[j] == items@[j]);
            }
        }
        assert(string_views(r@) =~= str_views(items@.take(i + 1)));
        i = i + 1;
    }
    assert(items@.take(items@.len() as int) =~= items@);
    r
}

/// The seccomp profile that keeps a protected workload to the syscalls it needs and refuses
/// debugging and extraction.
pub fn generate_anti_extraction_profile() -> (p: SeccompProfile)
    ensures
        anti_extraction_profile_spec(p),
{
    let allowed: [&str; 22] = [
        "read", "write", "close", "openat", "newfstatat", "mmap", "munmap", "brk", "socket",
        "bind", "listen", "accept", "connect", "sendto", "recvfrom", "epoll_wait", "epoll_ctl",
        "epoll_create1", "clock_gettime", "futex", "exit", "exit_group",
    ];
    let denied: [&str; 13] = [
        "ptrace", "process_vm_readv", "process_vm_writev", "mount", "umount2", "pivot_root",
        "chroot", "kexec_load", "init_module", "finit_module", "delete_module", "reboot",
        "sethostname",
    ];
    let arches: [&str; 2] = ["SCMP_ARCH_X86_64", "SCMP_ARCH_AARCH64"];
    let allow_rule = SyscallRule { names: strings_of(&allowed), action: "SCMP_ACT_ALLOW".to_owned() };
    let deny_rule = SyscallRule { names: strings_of(&denied), action: "SCMP_ACT_ERRNO".to_owned() };
    assert(str_views(allowed@) =~= allowed_syscalls());
    assert(str_views(denied@) =~= denied_syscalls());
    assert(str_views(arches@) =~= profile_architectures());
    let mut syscalls: Vec<SyscallRule> = Vec::new();
    syscalls.push(allow_rule);
    syscalls.push(deny_rule);
    let p = SeccompProfile {
        default_action: "SCMP_ACT_ERRNO".to_owned(),
        architectures: strings_of(&arches),
        syscalls,
    };
    assert(rules_view(p.syscalls@) =~= seq![
        (allowed_syscalls(), "SCMP_ACT_ALLOW"@),
        (denied_syscalls(), "SCMP_ACT_ERRNO"@),
    ]);
    p
}

/// In the anti-extraction profile `ptrace` is refused: a rule names it, every rule that
/// names it refuses it, and so does the default action.
pub proof fn lemma_ptrace_refused(p: SeccompProfile)
    requires
        anti_extraction_profile_spec(p),
    ensures
        p.default_action@ == "SCMP_ACT_ERRNO"@,
        exists|i: int|
            0 <= i < rules_view(p.syscalls@).len() && (#[trigger] rules_view(p.syscalls@)[i]).0.contains(
                "ptrace"@,
            ),
        forall|i: int|
            0 <= i < rules_view(p.syscalls@).len() && (#[trigger] rules_view(p.syscalls@)[i]).0.contains(
                "ptrace"@,
            ) ==> rules_view(p.syscalls@)[i].1 == "SCMP_ACT_ERRNO"@,
{
    reveal_strlit("ptrace");
    reveal_strlit("read");
    reveal_strlit("write");
    reveal_strlit("close");
    reveal_strlit("openat");
    reveal_strlit("newfstatat");
    reveal_strlit("mmap");
    reveal_strlit("munmap");
    reveal_strlit("brk");
    reveal_strlit("socket");
    reveal_strlit("bind");
    reveal_strlit("listen");
    reveal_strlit("accept");
    reveal_strlit("connect");
    reveal_strlit("sendto");
    reveal_strlit("recvfrom");
    reveal_strlit("epoll_wait");
    reveal_strlit("epoll_ctl");
    reveal_strlit("epoll_create1");
    reveal_strlit("clock_gettime");
    reveal_strlit("futex");
    reveal_strlit("exit");
    reveal_strlit("exit_group");
    let rules = rules_view(p.syscalls@);
    assert(denied_syscalls()[0] == "ptrace"@);
    assert(rules[1].0.contains("ptrace"@));
    assert(!allowed_syscalls().contains("ptrace"@)) by {
        assert forall|j: int| 0 <= j < allowed_syscalls().len() implies allowed_syscalls()[j]
            != "ptrace"@ by {
            assert(allowed_syscalls()[j][0] != 'p' || allowed_syscalls()[j].len() != 6);
        }
    }
}

/// No syscall is both allowed and refused by the anti-extraction profile.
pub proof fn lemma_allow_deny_disjoint()
    ensures
        forall|i: int, j: int|
            0 <= i < allowed_syscalls().len() && 0 <= j < denied_syscalls().len()
                ==> #[trigger] allowed_syscalls()[i] != #[trigger] denied_syscalls()[j],
{
    reveal_strlit("read");
    reveal_strlit("write");
    reveal_strlit("close");
    reveal_strlit("openat");
    reveal_strlit("newfstatat");
    reveal_strlit("mmap");
    reveal_strlit("munmap");
    reveal_strlit("brk");
    reveal_strlit("socket");
    reveal_strlit("bind");
    reveal_strlit("listen");
    reveal_strlit("accept");
    reveal_strlit("connect");
    reveal_strlit("sendto");
    reveal_strlit("recvfrom");
    reveal_strlit("epoll_wait");
    reveal_strlit("epoll_ctl");
    reveal_strlit("epoll_create1");
    reveal_strlit("clock_gettime");
    reveal_strlit("futex");
    reveal_strlit("exit");
    reveal_strlit("exit_group");
    reveal_strlit("ptrace");
    reveal_strlit("process_vm_readv");
    reveal_strlit("process_vm_writev");
    reveal_strlit("mount");
    reveal_strlit("umount2");
    reveal_strlit("pivot_root");
    reveal_strlit("chroot");
    reveal_strlit("kexec_load");
    reveal_strlit("init_module");
    reveal_strlit("finit_module");
    reveal_strlit("delete_module");
    reveal_strlit("reboot");
    reveal_strlit("sethostname");
    assert forall|i: int, j: int|
        0 <= i < allowed_syscalls().len() && 0 <= j < denied_syscalls().len() implies #[trigger] allowed_syscalls()[i]
            != #[trigger] denied_syscalls()[j] by {
        let a = allowed_syscalls()[i];
        let d = denied_syscalls()[j];
        assert(a.len() != d.len() || a[0] != d[0]);
    }
}

/// The anti-extraction profile refuses by default; its first rule allows exactly the
/// listed syscalls a workload needs, each once, among them `read`, `write`, `openat`,
/// the socket calls and `exit`; its second rule refuses each listed extraction syscall,
/// `ptrace` first.
pub proof fn lemma_profile_lists(p: SeccompProfile)
    requires
        anti_extraction_profile_spec(p),
    ensures
        p.default_action@ == "SCMP_ACT_ERRNO"@,
        rules_view(p.syscalls@).len() == 2,
        rules_view(p.syscalls@)[0].1 == "SCMP_ACT_ALLOW"@,
        rules_view(p.syscalls@)[1].1 == "SCMP_ACT_ERRNO"@,
        rules_view(p.syscalls@)[0].0.len() == 22,
        rules_view(p.syscalls@)[1].0.len() == 13,
        rules_view(p.syscalls@)[0].0.contains("read"@),
        rules_view(p.syscalls@)[0].0.contains("write"@),
        rules_view(p.syscalls@)[0].0.contains("close"@),
        rules_view(p.syscalls@)[0].0.contains("openat"@),
        rules_view(p.syscalls@)[0].0.contains("newfstatat"@),
        rules_view(p.syscalls@)[0].0.contains("mmap"@),
        rules_view(p.syscalls@)[0].0.contains("munmap"@),
        rules_view(p.syscalls@)[0].0.contains("brk"@),
        rules_view(p.syscalls@)[0].0.contains("socket"@),
        rules_view(p.syscalls@)[0].0.contains("bind"@),
        rules_view(p.syscalls@)[0].0.contains("listen"@),
        rules_view(p.syscalls@)[0].0.contains("accept"@),
        rules_view(p.syscalls@)[0].0.contains("connect"@),
        rules_view(p.syscalls@)[0].0.contains("sendto"@),
        rules_view(p.syscalls@)[0].0.contains("recvfrom"@),
        rules_view(p.syscalls@)[0].0.contains("epoll_wait"@),
        rules_view(p.syscalls@)[0].0.contains("epoll_ctl"@),
        rules_view(p.syscalls@)[0].0.contains("epoll_create1"@),
        rules_view(p.syscalls@)[0].0.contains("clock_gettime"@),
        rules_view(p.syscalls@)[0].0.contains("futex"@),
        rules_view(p.syscalls@)[0].0.contains("exit"@),
        rules_view(p.syscalls@)[0].0.contains("exit_group"@),
        rules_view(p.syscalls@)[1].0.contains("ptrace"@),
        rules_view(p.syscalls@)[1].0.contains("process_vm_readv"@),
        rules_view(p.syscalls@)[1].0.contains("process_vm_writev"@),
        rules_view(p.syscalls@)[1].0.contains("mount"@),
        rules_view(p.syscalls@)[1].0.contains("umount2"@),
        rules_view(p.syscalls@)[1].0.contains("pivot_root"@),
        rules_view(p.syscalls@)[1].0.contains("chroot"@),
        rules_view(p.syscalls@)[1].0.contains("kexec_load"@),
        rules_view(p.syscalls@)[1].0.contains("init_module"@),
        rules_view(p.syscalls@)[1].0.contains("finit_module"@),
        rules_view(p.syscalls@)[1].0.contains("delete_module"@),
        rules_view(p.syscalls@)[1].0.contains("reboot"@),
        rules_view(p.syscalls@)[1].0.contains("sethostname"@),
        rules_view(p.syscalls@)[1].0[0] == "ptrace"@,
        forall|i: int, j: int|
            0 <= i < j < rules_view(p.syscalls@)[0].0.len() ==> rules_view(p.syscalls@)[0].0[i]
                != rules_view(p.syscalls@)[0].0[j],
        forall|i: int, j: int|
            0 <= i < j < rules_view(p.syscalls@)[1].0.len() ==> rules_view(p.syscalls@)[1].0[i]
                != rules_view(p.syscalls@)[1].0[j],
{
    reveal_strlit("read");
    reveal_strlit("write");
    reveal_strlit("close");
    reveal_strlit("openat");
    reveal_strlit("newfstatat");
    reveal_strlit("mmap");
    reveal_strlit("munmap");
    reveal_strlit("brk");
    reveal_strlit("socket");
    reveal_strlit("bind");
    reveal_strlit("listen");
    reveal_strlit("accept");
    reveal_strlit("connect");
    reveal_strlit("sendto");
    reveal_strlit("recvfrom");
    reveal_strlit("epoll_wait");
    reveal_strlit("epoll_ctl");
    reveal_strlit("epoll_create1");
    reveal_strlit("clock_gettime");
    reveal_strlit("futex");
    reveal_strlit("exit");
    reveal_strlit("exit_group");
    reveal_strlit("ptrace");
    reveal_strlit("process_vm_readv");
    reveal_strlit("process_vm_writev");
    reveal_strlit("mount");
    reveal_strlit("umount2");
    reveal_strlit("pivot_root");
    reveal_strlit("chroot");
    reveal_strlit("kexec_load");
    reveal_strlit("init_module");
    reveal_strlit("finit_module");
    reveal_strlit("delete_module");
    reveal_strlit("reboot");
    reveal_strlit("sethostname");
    let a = rules_view(p.syscalls@)[0].0;
    let d = rules_view(p.syscalls@)[1].0;
    let la = seq!["read"@, "write"@, "close"@, "openat"@, "newfstatat"@, "mmap"@, "munmap"@, "brk"@, "socket"@, "bind"@, "listen"@, "accept"@, "connect"@, "sendto"@, "recvfrom"@, "epoll_wait"@, "epoll_ctl"@, "epoll_create1"@, "clock_gettime"@, "futex"@, "exit"@, "exit_group"@];
    let ld = seq!["ptrace"@, "process_vm_readv"@, "process_vm_writev"@, "mount"@, "umount2"@, "pivot_root"@, "chroot"@, "kexec_load"@, "init_module"@, "finit_module"@, "delete_module"@, "reboot"@, "sethostname"@];
    assert(a =~= la);
    assert(d =~= ld);
    assert(a[0] == "read"@);
    assert(a[1] == "write"@);
    assert(a[2] == "close"@);
    assert(a[3] == "openat"@);
    assert(a[4] == "newfstatat"@);
    assert(a[5] == "mmap"@);
    assert(a[6] == "munmap"@);
    assert(a[7] == "brk"@);
    assert(a[8] == "socket"@);
    assert(a[9] == "bind"@);
    assert(a[10] == "listen"@);
    assert(a[11] == "accept"@);
    assert(a[12] == "connect"@);
    assert(a[13] == "sendto"@);
    assert(a[14] == "recvfrom"@);
    assert(a[15] == "epoll_wait"@);
    assert(a[16] == "epoll_ctl"@);
    assert(a[17] == "epoll_create1"@);
    assert(a[18] == "clock_gettime"@);
    assert(a[19] == "futex"@);
    assert(a[20] == "exit"@);
    assert(a[21] == "exit_group"@);
    assert(d[0] == "ptrace"@);
    assert(d[1] == "process_vm_readv"@);
    assert(d[2] == "process_vm_writev"@);
    assert(d[3] == "mount"@);
    assert(d[4] == "umount2"@);
    assert(d[5] == "pivot_root"@);
    assert(d[6] == "chroot"@);
    assert(d[7] == "kexec_load"@);
    assert(d[8] == "init_module"@);
    assert(d[9] == "finit_module"@);
    assert(d[10] == "delete_module"@);
    assert(d[11] == "reboot"@);
    assert(d[12] == "sethostname"@);
    assert forall|i: int, j: int| 0 <= i < j < a.len() implies a[i] != a[j] by {
        assert(a[i].len() != a[j].len() || a[i][0] != a[j][0] || a[i][1] != a[j][1]);
    }
    assert forall|i: int, j: int| 0 <= i < j < d.len() implies d[i] != d[j] by {
        assert(d[i].len() != d[j].len() || d[i][0] != d[j][0]);
    }
}

} // verus!
