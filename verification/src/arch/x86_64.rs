//! The syscalls of the 64-bit x86 kernel interface, by name.

use crate::text::same_text;
use vstd::prelude::*;

verus! {
/// The syscall names that begin with `_` to `e`.
pub open spec fn named_underscore_to_e(name: Seq<char>) -> bool {
    name == "_sysctl"@
    || name == "accept"@
    || name == "accept4"@
    || name == "access"@
    || name == "acct"@
    || name == "add_key"@
    || name == "adjtimex"@
    || name == "afs_syscall"@
    || name == "alarm"@
    || name == "arch_prctl"@
    || name == "bind"@
    || name == "bpf"@
    || name == "brk"@
    || name == "capget"@
    || name == "capset"@
    || name == "chdir"@
    || name == "chmod"@
    || name == "chown"@
    || name == "chroot"@
    || name == "clock_adjtime"@
    || name == "clock_getres"@
    || name == "clock_gettime"@
    || name == "clock_nanosleep"@
    || name == "clock_settime"@
    || name == "clone"@
    || name == "clone3"@
    || name == "close"@
    || name == "close_range"@
    || name == "connect"@
    || name == "copy_file_range"@
    || name == "creat"@
    || name == "create_module"@
    || name == "delete_module"@
    || name == "dup"@
    || name == "dup2"@
    || name == "dup3"@
    || name == "epoll_create"@
    || name == "epoll_create1"@
    || name == "epoll_ctl"@
    || name == "epoll_ctl_old"@
    || name == "epoll_pwait"@
    || name == "epoll_pwait2"@
    || name == "epoll_wait"@
    || name == "epoll_wait_old"@
    || name == "eventfd"@
    || name == "eventfd2"@
    || name == "execve"@
    || name == "execveat"@
    || name == "exit"@
    || name == "exit_group"@
}

fn is_named_underscore_to_e(name: &str) -> (found: bool)
    ensures
        found == named_underscore_to_e(name@),
{
    same_text(name, "_sysctl")
    || same_text(name, "accept")
    || same_text(name, "accept4")
    || same_text(name, "access")
    || same_text(name, "acct")
    || same_text(name, "add_key")
    || same_text(name, "adjtimex")
    || same_text(name, "afs_syscall")
    || same_text(name, "alarm")
    || same_text(name, "arch_prctl")
    || same_text(name, "bind")
    || same_text(name, "bpf")
    || same_text(name, "brk")
    || same_text(name, "capget")
    || same_text(name, "capset")
    || same_text(name, "chdir")
    || same_text(name, "chmod")
    || same_text(name, "chown")
    || same_text(name, "chroot")
    || same_text(name, "clock_adjtime")
    || same_text(name, "clock_getres")
    || same_text(name, "clock_gettime")
    || same_text(name, "clock_nanosleep")
    || same_text(name, "clock_settime")
    || same_text(name, "clone")
    || same_text(name, "clone3")
    || same_text(name, "close")
    || same_text(name, "close_range")
    || same_text(name, "connect")
    || same_text(name, "copy_file_range")
    || same_text(name, "creat")
    || same_text(name, "create_module")
    || same_text(name, "delete_module")
    || same_text(name, "dup")
    || same_text(name, "dup2")
    || same_text(name, "dup3")
    || same_text(name, "epoll_create")
    || same_text(name, "epoll_create1")
    || same_text(name, "epoll_ctl")
    || same_text(name, "epoll_ctl_old")
    || same_text(name, "epoll_pwait")
    || same_text(name, "epoll_pwait2")
    || same_text(name, "epoll_wait")
    || same_text(name, "epoll_wait_old")
    || same_text(name, "eventfd")
    || same_text(name, "eventfd2")
    || same_text(name, "execve")
    || same_text(name, "execveat")
    || same_text(name, "exit")
    || same_text(name, "exit_group")
}

/// The syscall names that begin with `f` to `g`.
pub open spec fn named_f_to_g(name: Seq<char>) -> bool {
    name == "faccessat"@
    || name == "faccessat2"@
    || name == "fadvise64"@
    || name == "fallocate"@
    || name == "fanotify_init"@
    || name == "fanotify_mark"@
    || name == "fchdir"@
    || name == "fchmod"@
    || name == "fchmodat"@
    || name == "fchown"@
    || name == "fchownat"@
    || name == "fcntl"@
    || name == "fdatasync"@
    || name == "fgetxattr"@
    || name == "finit_module"@
    || name == "flistxattr"@
    || name == "flock"@
    || name == "fork"@
    || name == "fremovexattr"@
    || name == "fsconfig"@
    || name == "fsetxattr"@
    || name == "fsmount"@
    || name == "fsopen"@
    || name == "fspick"@
    || name == "fstat"@
    || name == "fstatfs"@
    || name == "fsync"@
    || name == "ftruncate"@
    || name == "futex"@
    || name == "futex_waitv"@
    || name == "futimesat"@
    || name == "get_kernel_syms"@
    || name == "get_mempolicy"@
    || name == "get_robust_list"@
    || name == "get_thread_area"@
    || name == "getcpu"@
    || name == "getcwd"@
    || name == "getdents"@
    || name == "getdents64"@
    || name == "getegid"@
    || name == "geteuid"@
    || name == "getgid"@
    || name == "getgroups"@
    || name == "getitimer"@
    || name == "getpeername"@
    || name == "getpgid"@
    || name == "getpgrp"@
    || name == "getpid"@
    || name == "getpmsg"@
    || name == "getppid"@
    || name == "getpriority"@
    || name == "getrandom"@
    || name == "getresgid"@
    || name == "getresuid"@
    || name == "getrlimit"@
    || name == "getrusage"@
    || name == "getsid"@
    || name == "getsockname"@
    || name == "getsockopt"@
    || name == "gettid"@
    || name == "gettimeofday"@
    || name == "getuid"@
    || name == "getxattr"@
}

fn is_named_f_to_g(name: &str) -> (found: bool)
    ensures
        found == named_f_to_g(name@),
{
    same_text(name, "faccessat")
    || same_text(name, "faccessat2")
    || same_text(name, "fadvise64")
    || same_text(name, "fallocate")
    || same_text(name, "fanotify_init")
    || same_text(name, "fanotify_mark")
    || same_text(name, "fchdir")
    || same_text(name, "fchmod")
    || same_text(name, "fchmodat")
    || same_text(name, "fchown")
    || same_text(name, "fchownat")
    || same_text(name, "fcntl")
    || same_text(name, "fdatasync")
    || same_text(name, "fgetxattr")
    || same_text(name, "finit_module")
    || same_text(name, "flistxattr")
    || same_text(name, "flock")
    || same_text(name, "fork")
    || same_text(name, "fremovexattr")
    || same_text(name, "fsconfig")
    || same_text(name, "fsetxattr")
    || same_text(name, "fsmount")
    || same_text(name, "fsopen")
    || same_text(name, "fspick")
    || same_text(name, "fstat")
    || same_text(name, "fstatfs")
    || same_text(name, "fsync")
    || same_text(name, "ftruncate")
    || same_text(name, "futex")
    || same_text(name, "futex_waitv")
    || same_text(name, "futimesat")
    || same_text(name, "get_kernel_syms")
    || same_text(name, "get_mempolicy")
    || same_text(name, "get_robust_list")
    || same_text(name, "get_thread_area")
    || same_text(name, "getcpu")
    || same_text(name, "getcwd")
    || same_text(name, "getdents")
    || same_text(name, "getdents64")
    || same_text(name, "getegid")
    || same_text(name, "geteuid")
    || same_text(name, "getgid")
    || same_text(name, "getgroups")
    || same_text(name, "getitimer")
    || same_text(name, "getpeername")
    || same_text(name, "getpgid")
    || same_text(name, "getpgrp")
    || same_text(name, "getpid")
    || same_text(name, "getpmsg")
    || same_text(name, "getppid")
    || same_text(name, "getpriority")
    || same_text(name, "getrandom")
    || same_text(name, "getresgid")
    || same_text(name, "getresuid")
    || same_text(name, "getrlimit")
    || same_text(name, "getrusage")
    || same_text(name, "getsid")
    || same_text(name, "getsockname")
    || same_text(name, "getsockopt")
    || same_text(name, "gettid")
    || same_text(name, "gettimeofday")
    || same_text(name, "getuid")
    || same_text(name, "getxattr")
}

/// The syscall names that begin with `i` to `m`.
pub open spec fn named_i_to_m(name: Seq<char>) -> bool {
    name == "init_module"@
    || name == "inotify_add_watch"@
    || name == "inotify_init"@
    || name == "inotify_init1"@
    || name == "inotify_rm_watch"@
    || name == "io_cancel"@
    || name == "io_destroy"@
    || name == "io_getevents"@
    || name == "io_pgetevents"@
    || name == "io_setup"@
    || name == "io_submit"@
    || name == "io_uring_enter"@
    || name == "io_uring_register"@
    || name == "io_uring_setup"@
    || name == "ioctl"@
    || name == "ioperm"@
    || name == "iopl"@
    || name == "ioprio_get"@
    || name == "ioprio_set"@
    || name == "kcmp"@
    || name == "kexec_file_load"@
    || name == "kexec_load"@
    || name == "keyctl"@
    || name == "kill"@
    || name == "landlock_add_rule"@
    || name == "landlock_create_ruleset"@
    || name == "landlock_restrict_self"@
    || name == "lchown"@
    || name == "lgetxattr"@
    || name == "link"@
    || name == "linkat"@
    || name == "listen"@
    || name == "listxattr"@
    || name == "llistxattr"@
    || name == "lookup_dcookie"@
    || name == "lremovexattr"@
    || name == "lseek"@
    || name == "lsetxattr"@
    || name == "lstat"@
    || name == "madvise"@
    || name == "mbind"@
    || name == "membarrier"@
    || name == "memfd_create"@
    || name == "memfd_secret"@
    || name == "migrate_pages"@
    || name == "mincore"@
    || name == "mkdir"@
    || name == "mkdirat"@
    || name == "mknod"@
    || name == "mknodat"@
    || name == "mlock"@
    || name == "mlock2"@
    || name == "mlockall"@
    || name == "mmap"@
    || name == "modify_ldt"@
    || name == "mount"@
    || name == "mount_setattr"@
    || name == "move_mount"@
    || name == "move_pages"@
    || name == "mprotect"@
    || name == "mq_getsetattr"@
    || name == "mq_notify"@
    || name == "mq_open"@
    || name == "mq_timedreceive"@
    || name == "mq_timedsend"@
    || name == "mq_unlink"@
    || name == "mremap"@
    || name == "msgctl"@
    || name == "msgget"@
    || name == "msgrcv"@
    || name == "msgsnd"@
    || name == "msync"@
    || name == "munlock"@
    || name == "munlockall"@
    || name == "munmap"@
}

fn is_named_i_to_m(name: &str) -> (found: bool)
    ensures
        found == named_i_to_m(name@),
{
    same_text(name, "init_module")
    || same_text(name, "inotify_add_watch")
    || same_text(name, "inotify_init")
    || same_text(name, "inotify_init1")
    || same_text(name, "inotify_rm_watch")
    || same_text(name, "io_cancel")
    || same_text(name, "io_destroy")
    || same_text(name, "io_getevents")
    || same_text(name, "io_pgetevents")
    || same_text(name, "io_setup")
    || same_text(name, "io_submit")
    || same_text(name, "io_uring_enter")
    || same_text(name, "io_uring_register")
    || same_text(name, "io_uring_setup")
    || same_text(name, "ioctl")
    || same_text(name, "ioperm")
    || same_text(name, "iopl")
    || same_text(name, "ioprio_get")
    || same_text(name, "ioprio_set")
    || same_text(name, "kcmp")
    || same_text(name, "kexec_file_load")
    || same_text(name, "kexec_load")
    || same_text(name, "keyctl")
    || same_text(name, "kill")
    || same_text(name, "landlock_add_rule")
    || same_text(name, "landlock_create_ruleset")
    || same_text(name, "landlock_restrict_self")
    || same_text(name, "lchown")
    || same_text(name, "lgetxattr")
    || same_text(name, "link")
    || same_text(name, "linkat")
    || same_text(name, "listen")
    || same_text(name, "listxattr")
    || same_text(name, "llistxattr")
    || same_text(name, "lookup_dcookie")
    || same_text(name, "lremovexattr")
    || same_text(name, "lseek")
    || same_text(name, "lsetxattr")
    || same_text(name, "lstat")
    || same_text(name, "madvise")
    || same_text(name, "mbind")
    || same_text(name, "membarrier")
    || same_text(name, "memfd_create")
    || same_text(name, "memfd_secret")
    || same_text(name, "migrate_pages")
    || same_text(name, "mincore")
    || same_text(name, "mkdir")
    || same_text(name, "mkdirat")
    || same_text(name, "mknod")
    || same_text(name, "mknodat")
    || same_text(name, "mlock")
    || same_text(name, "mlock2")
    || same_text(name, "mlockall")
    || same_text(name, "mmap")
    || same_text(name, "modify_ldt")
    || same_text(name, "mount")
    || same_text(name, "mount_setattr")
    || same_text(name, "move_mount")
    || same_text(name, "move_pages")
    || same_text(name, "mprotect")
    || same_text(name, "mq_getsetattr")
    || same_text(name, "mq_notify")
    || same_text(name, "mq_open")
    || same_text(name, "mq_timedreceive")
    || same_text(name, "mq_timedsend")
    || same_text(name, "mq_unlink")
    || same_text(name, "mremap")
    || same_text(name, "msgctl")
    || same_text(name, "msgget")
    || same_text(name, "msgrcv")
    || same_text(name, "msgsnd")
    || same_text(name, "msync")
    || same_text(name, "munlock")
    || same_text(name, "munlockall")
    || same_text(name, "munmap")
}

/// The syscall names that begin with `n` to `q`.
pub open spec fn named_n_to_q(name: Seq<char>) -> bool {
    name == "name_to_handle_at"@
    || name == "nanosleep"@
    || name == "newfstatat"@
    || name == "nfsservctl"@
    || name == "open"@
    || name == "open_by_handle_at"@
    || name == "open_tree"@
    || name == "openat"@
    || name == "openat2"@
    || name == "pause"@
    || name == "perf_event_open"@
    || name == "personality"@
    || name == "pidfd_getfd"@
    || name == "pidfd_open"@
    || name == "pidfd_send_signal"@
    || name == "pipe"@
    || name == "pipe2"@
    || name == "pivot_root"@
    || name == "pkey_alloc"@
    || name == "pkey_free"@
    || name == "pkey_mprotect"@
    || name == "poll"@
    || name == "ppoll"@
    || name == "prctl"@
    || name == "pread64"@
    || name == "preadv"@
    || name == "preadv2"@
    || name == "prlimit64"@
    || name == "process_madvise"@
    || name == "process_mrelease"@
    || name == "process_vm_readv"@
    || name == "process_vm_writev"@
    || name == "pselect6"@
    || name == "ptrace"@
    || name == "putpmsg"@
    || name == "pwrite64"@
    || name == "pwritev"@
    || name == "pwritev2"@
    || name == "query_module"@
    || name == "quotactl"@
    || name == "quotactl_fd"@
}

fn is_named_n_to_q(name: &str) -> (found: bool)
    ensures
        found == named_n_to_q(name@),
{
    same_text(name, "name_to_handle_at")
    || same_text(name, "nanosleep")
    || same_text(name, "newfstatat")
    || same_text(name, "nfsservctl")
    || same_text(name, "open")
    || same_text(name, "open_by_handle_at")
    || same_text(name, "open_tree")
    || same_text(name, "openat")
    || same_text(name, "openat2")
    || same_text(name, "pause")
    || same_text(name, "perf_event_open")
    || same_text(name, "personality")
    || same_text(name, "pidfd_getfd")
    || same_text(name, "pidfd_open")
    || same_text(name, "pidfd_send_signal")
    || same_text(name, "pipe")
    || same_text(name, "pipe2")
    || same_text(name, "pivot_root")
    || same_text(name, "pkey_alloc")
    || same_text(name, "pkey_free")
    || same_text(name, "pkey_mprotect")
    || same_text(name, "poll")
    || same_text(name, "ppoll")
    || same_text(name, "prctl")
    || same_text(name, "pread64")
    || same_text(name, "preadv")
    || same_text(name, "preadv2")
    || same_text(name, "prlimit64")
    || same_text(name, "process_madvise")
    || same_text(name, "process_mrelease")
    || same_text(name, "process_vm_readv")
    || same_text(name, "process_vm_writev")
    || same_text(name, "pselect6")
    || same_text(name, "ptrace")
    || same_text(name, "putpmsg")
    || same_text(name, "pwrite64")
    || same_text(name, "pwritev")
    || same_text(name, "pwritev2")
    || same_text(name, "query_module")
    || same_text(name, "quotactl")
    || same_text(name, "quotactl_fd")
}

/// The syscall names that begin with `r` to `s`.
pub open spec fn named_r_to_s(name: Seq<char>) -> bool {
    name == "read"@
    || name == "readahead"@
    || name == "readlink"@
    || name == "readlinkat"@
    || name == "readv"@
    || name == "reboot"@
    || name == "recvfrom"@
    || name == "recvmmsg"@
    || name == "recvmsg"@
    || name == "remap_file_pages"@
    || name == "removexattr"@
    || name == "rename"@
    || name == "renameat"@
    || name == "renameat2"@
    || name == "request_key"@
    || name == "restart_syscall"@
    || name == "rmdir"@
    || name == "rseq"@
    || name == "rt_sigaction"@
    || name == "rt_sigpending"@
    || name == "rt_sigprocmask"@
    || name == "rt_sigqueueinfo"@
    || name == "rt_sigreturn"@
    || name == "rt_sigsuspend"@
    || name == "rt_sigtimedwait"@
    || name == "rt_tgsigqueueinfo"@
    || name == "sched_get_priority_max"@
    || name == "sched_get_priority_min"@
    || name == "sched_getaffinity"@
    || name == "sched_getattr"@
    || name == "sched_getparam"@
    || name == "sched_getscheduler"@
    || name == "sched_rr_get_interval"@
    || name == "sched_setaffinity"@
    || name == "sched_setattr"@
    || name == "sched_setparam"@
    || name == "sched_setscheduler"@
    || name == "sched_yield"@
    || name == "seccomp"@
    || name == "security"@
    || name == "select"@
    || name == "semctl"@
    || name == "semget"@
    || name == "semop"@
    || name == "semtimedop"@
    || name == "sendfile"@
    || name == "sendmmsg"@
    || name == "sendmsg"@
    || name == "sendto"@
    || name == "set_mempolicy"@
    || name == "set_mempolicy_home_node"@
    || name == "set_robust_list"@
    || name == "set_thread_area"@
    || name == "set_tid_address"@
    || name == "setdomainname"@
    || name == "setfsgid"@
    || name == "setfsuid"@
    || name == "setgid"@
    || name == "setgroups"@
    || name == "sethostname"@
    || name == "setitimer"@
    || name == "setns"@
    || name == "setpgid"@
    || name == "setpriority"@
    || name == "setregid"@
    || name == "setresgid"@
    || name == "setresuid"@
    || name == "setreuid"@
    || name == "setrlimit"@
    || name == "setsid"@
    || name == "setsockopt"@
    || name == "settimeofday"@
    || name == "setuid"@
    || name == "setxattr"@
    || name == "shmat"@
    || name == "shmctl"@
    || name == "shmdt"@
    || name == "shmget"@
    || name == "shutdown"@
    || name == "sigaltstack"@
    || name == "signalfd"@
    || name == "signalfd4"@
    || name == "socket"@
    || name == "socketpair"@
    || name == "splice"@
    || name == "stat"@
    || name == "statfs"@
    || name == "statx"@
    || name == "swapoff"@
    || name == "swapon"@
    || name == "symlink"@
    || name == "symlinkat"@
    || name == "sync"@
    || name == "sync_file_range"@
    || name == "syncfs"@
    || name == "sysfs"@
    || name == "sysinfo"@
    || name == "syslog"@
}

fn is_named_r_to_s(name: &str) -> (found: bool)
    ensures
        found == named_r_to_s(name@),
{
    same_text(name, "read")
    || same_text(name, "readahead")
    || same_text(name, "readlink")
    || same_text(name, "readlinkat")
    || same_text(name, "readv")
    || same_text(name, "reboot")
    || same_text(name, "recvfrom")
    || same_text(name, "recvmmsg")
    || same_text(name, "recvmsg")
    || same_text(name, "remap_file_pages")
    || same_text(name, "removexattr")
    || same_text(name, "rename")
    || same_text(name, "renameat")
    || same_text(name, "renameat2")
    || same_text(name, "request_key")
    || same_text(name, "restart_syscall")
    || same_text(name, "rmdir")
    || same_text(name, "rseq")
    || same_text(name, "rt_sigaction")
    || same_text(name, "rt_sigpending")
    || same_text(name, "rt_sigprocmask")
    || same_text(name, "rt_sigqueueinfo")
    || same_text(name, "rt_sigreturn")
    || same_text(name, "rt_sigsuspend")
    || same_text(name, "rt_sigtimedwait")
    || same_text(name, "rt_tgsigqueueinfo")
    || same_text(name, "sched_get_priority_max")
    || same_text(name, "sched_get_priority_min")
    || same_text(name, "sched_getaffinity")
    || same_text(name, "sched_getattr")
    || same_text(name, "sched_getparam")
    || same_text(name, "sched_getscheduler")
    || same_text(name, "sched_rr_get_interval")
    || same_text(name, "sched_setaffinity")
    || same_text(name, "sched_setattr")
    || same_text(name, "sched_setparam")
    || same_text(name, "sched_setscheduler")
    || same_text(name, "sched_yield")
    || same_text(name, "seccomp")
    || same_text(name, "security")
    || same_text(name, "select")
    || same_text(name, "semctl")
    || same_text(name, "semget")
    || same_text(name, "semop")
    || same_text(name, "semtimedop")
    || same_text(name, "sendfile")
    || same_text(name, "sendmmsg")
    || same_text(name, "sendmsg")
    || same_text(name, "sendto")
    || same_text(name, "set_mempolicy")
    || same_text(name, "set_mempolicy_home_node")
    || same_text(name, "set_robust_list")
    || same_text(name, "set_thread_area")
    || same_text(name, "set_tid_address")
    || same_text(name, "setdomainname")
    || same_text(name, "setfsgid")
    || same_text(name, "setfsuid")
    || same_text(name, "setgid")
    || same_text(name, "setgroups")
    || same_text(name, "sethostname")
    || same_text(name, "setitimer")
    || same_text(name, "setns")
    || same_text(name, "setpgid")
    || same_text(name, "setpriority")
    || same_text(name, "setregid")
    || same_text(name, "setresgid")
    || same_text(name, "setresuid")
    || same_text(name, "setreuid")
    || same_text(name, "setrlimit")
    || same_text(name, "setsid")
    || same_text(name, "setsockopt")
    || same_text(name, "settimeofday")
    || same_text(name, "setuid")
    || same_text(name, "setxattr")
    || same_text(name, "shmat")
    || same_text(name, "shmctl")
    || same_text(name, "shmdt")
    || same_text(name, "shmget")
    || same_text(name, "shutdown")
    || same_text(name, "sigaltstack")
    || same_text(name, "signalfd")
    || same_text(name, "signalfd4")
    || same_text(name, "socket")
    || same_text(name, "socketpair")
    || same_text(name, "splice")
    || same_text(name, "stat")
    || same_text(name, "statfs")
    || same_text(name, "statx")
    || same_text(name, "swapoff")
    || same_text(name, "swapon")
    || same_text(name, "symlink")
    || same_text(name, "symlinkat")
    || same_text(name, "sync")
    || same_text(name, "sync_file_range")
    || same_text(name, "syncfs")
    || same_text(name, "sysfs")
    || same_text(name, "sysinfo")
    || same_text(name, "syslog")
}

/// The syscall names that begin with `t` to `w`.
pub open spec fn named_t_to_w(name: Seq<char>) -> bool {
    name == "tee"@
    || name == "tgkill"@
    || name == "time"@
    || name == "timer_create"@
    || name == "timer_delete"@
    || name == "timer_getoverrun"@
    || name == "timer_gettime"@
    || name == "timer_settime"@
    || name == "timerfd_create"@
    || name == "timerfd_gettime"@
    || name == "timerfd_settime"@
    || name == "times"@
    || name == "tkill"@
    || name == "truncate"@
    || name == "tuxcall"@
    || name == "umask"@
    || name == "umount2"@
    || name == "uname"@
    || name == "unlink"@
    || name == "unlinkat"@
    || name == "unshare"@
    || name == "uselib"@
    || name == "userfaultfd"@
    || name == "ustat"@
    || name == "utime"@
    || name == "utimensat"@
    || name == "utimes"@
    || name == "vfork"@
    || name == "vhangup"@
    || name == "vmsplice"@
    || name == "vserver"@
    || name == "wait4"@
    || name == "waitid"@
    || name == "write"@
    || name == "writev"@
}

fn is_named_t_to_w(name: &str) -> (found: bool)
    ensures
        found == named_t_to_w(name@),
{
    same_text(name, "tee")
    || same_text(name, "tgkill")
    || same_text(name, "time")
    || same_text(name, "timer_create")
    || same_text(name, "timer_delete")
    || same_text(name, "timer_getoverrun")
    || same_text(name, "timer_gettime")
    || same_text(name, "timer_settime")
    || same_text(name, "timerfd_create")
    || same_text(name, "timerfd_gettime")
    || same_text(name, "timerfd_settime")
    || same_text(name, "times")
    || same_text(name, "tkill")
    || same_text(name, "truncate")
    || same_text(name, "tuxcall")
    || same_text(name, "umask")
    || same_text(name, "umount2")
    || same_text(name, "uname")
    || same_text(name, "unlink")
    || same_text(name, "unlinkat")
    || same_text(name, "unshare")
    || same_text(name, "uselib")
    || same_text(name, "userfaultfd")
    || same_text(name, "ustat")
    || same_text(name, "utime")
    || same_text(name, "utimensat")
    || same_text(name, "utimes")
    || same_text(name, "vfork")
    || same_text(name, "vhangup")
    || same_text(name, "vmsplice")
    || same_text(name, "vserver")
    || same_text(name, "wait4")
    || same_text(name, "waitid")
    || same_text(name, "write")
    || same_text(name, "writev")
}

/// `name` is a syscall of the 64-bit x86 kernel interface.
pub open spec fn syscall_name(name: Seq<char>) -> bool {
    named_underscore_to_e(name)
    || named_f_to_g(name)
    || named_i_to_m(name)
    || named_n_to_q(name)
    || named_r_to_s(name)
    || named_t_to_w(name)
}

/// Tells whether `name` is a syscall of the 64-bit x86 kernel interface.
pub fn is_syscall(name: &str) -> (found: bool)
    ensures
        found == syscall_name(name@),
{
    is_named_underscore_to_e(name)
    || is_named_f_to_g(name)
    || is_named_i_to_m(name)
    || is_named_n_to_q(name)
    || is_named_r_to_s(name)
    || is_named_t_to_w(name)
}

} // verus!
