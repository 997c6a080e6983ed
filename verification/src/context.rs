//! What the init process is asked to set up.

use crate::envs::Envs;
use crate::path::FsPath;
use vstd::prelude::*;

verus! {

/// An I/O scheduling class.
#[derive(Debug, Clone, Copy, PartialEq, Eq, Structural)]
pub enum IOPriorityClass {
    IoprioClassRt,
    IoprioClassBe,
    IoprioClassIdle,
}

/// The I/O priority of the payload.
#[derive(Debug, Clone, Copy, PartialEq, Eq, Structural)]
pub struct LinuxIOPriority {
    pub class: IOPriorityClass,
    pub priority: i64,
}

/// A CPU scheduling policy.
#[derive(Debug, Clone, Copy, PartialEq, Eq, Structural)]
pub enum LinuxSchedulerPolicy {
    SchedOther,
    SchedFifo,
    SchedRr,
    SchedBatch,
    SchedIso,
    SchedIdle,
    SchedDeadline,
}

/// A flag of the CPU scheduler.
#[derive(Debug, Clone, Copy, PartialEq, Eq, Structural)]
pub enum LinuxSchedulerFlag {
    SchedResetOnFork,
    SchedFlagReclaim,
    SchedFlagDLOverrun,
    SchedFlagKeepPolicy,
    SchedFlagKeepParams,
    SchedFlagUtilClampMin,
    SchedFlagUtilClampMax,
}

/// How the payload is to be scheduled.
#[derive(Debug, PartialEq, Eq)]
pub struct Scheduler {
    pub policy: LinuxSchedulerPolicy,
    pub nice: Option<i32>,
    pub priority: Option<i32>,
    pub flags: Option<Vec<LinuxSchedulerFlag>>,
    pub runtime: Option<u64>,
    pub deadline: Option<u64>,
    pub period: Option<u64>,
}

/// The user that the payload runs as.
#[derive(Debug, PartialEq, Eq)]
pub struct User {
    pub uid: u32,
    pub gid: u32,
    pub umask: Option<u32>,
    pub additional_gids: Option<Vec<u32>>,
}

/// The payload.
#[derive(Debug, PartialEq, Eq)]
pub struct Process {
    pub user: User,
    pub cwd: FsPath,
    /// Whether there is a list of arguments, the program among them.
    pub has_args: bool,
    /// Whether there is a set of capabilities to drop to.
    pub has_capabilities: bool,
    pub no_new_privileges: Option<bool>,
    pub apparmor_profile: Option<String>,
    pub io_priority: Option<LinuxIOPriority>,
    pub scheduler: Option<Scheduler>,
}

/// What is particular to Linux.
#[derive(Debug, PartialEq, Eq)]
pub struct Linux {
    /// Kernel parameters and their values, each name once, in the order in which they are set.
    pub sysctl: Option<Vec<(String, String)>>,
    pub readonly_paths: Option<Vec<String>>,
    pub masked_paths: Option<Vec<String>>,
    pub mount_label: Option<String>,
    /// Whether there is a seccomp profile and the means to install it.
    pub has_seccomp: bool,
}

/// The user namespace that was made for the container.
#[derive(Debug, Clone, Copy, PartialEq, Eq, Structural)]
pub struct UserNamespaceConfig {
    /// Whether a privileged user made it.
    pub privileged: bool,
}

/// Whether the process is the first of its container.
#[derive(Debug, Clone, Copy, PartialEq, Eq, Structural)]
pub enum ContainerType {
    InitContainer,
    TenantContainer,
}

/// All that the init process goes by.
#[derive(Debug, PartialEq, Eq)]
pub struct InitContext {
    pub container_type: ContainerType,
    pub console_socket: Option<i32>,
    pub stdin: Option<i32>,
    pub stdout: Option<i32>,
    pub stderr: Option<i32>,
    /// How many descriptors above the standard ones the payload inherits.
    pub preserve_fds: i32,
    pub no_pivot: bool,
    pub user_ns_config: Option<UserNamespaceConfig>,
    pub rootfs: FsPath,
    pub rootfs_ro: bool,
    pub has_hooks: bool,
    pub hostname: Option<String>,
    pub domainname: Option<String>,
    pub envs: Envs,
    pub process: Process,
    pub linux: Linux,
}

} // verus!
