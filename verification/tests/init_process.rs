use container_init::call::{
    Call, HookPoint, MountArgs, Namespace, NamespaceFilter, NamespaceType, Reply, Variable,
};
use container_init::context::{
    ContainerType, IOPriorityClass, InitContext, Linux, LinuxIOPriority, LinuxSchedulerPolicy,
    Process, Scheduler, User, UserNamespaceConfig,
};
use container_init::envs::Envs;
use container_init::error::{Errno, HostError, InitProcessError, MissingSpecError};
use container_init::path::FsPath;
use container_init::process::{container_init_process, InitProcess};

type Failure = InitProcessError<&'static str>;

fn errno(errno: nix::errno::Errno) -> HostError<&'static str> {
    HostError::Nix(Errno { code: errno as i32 })
}

/// A context that asks for as little as it can.
fn context(container_type: ContainerType) -> InitContext {
    InitContext {
        container_type,
        console_socket: None,
        stdin: None,
        stdout: None,
        stderr: None,
        preserve_fds: 0,
        no_pivot: false,
        user_ns_config: None,
        rootfs: FsPath::new("/rootfs"),
        rootfs_ro: false,
        has_hooks: false,
        hostname: None,
        domainname: None,
        envs: Envs::new(),
        process: Process {
            user: User { uid: 1000, gid: 100, umask: None, additional_gids: None },
            cwd: FsPath::new("/work"),
            has_args: true,
            has_capabilities: false,
            no_new_privileges: None,
            apparmor_profile: None,
            io_priority: None,
            scheduler: None,
        },
        linux: Linux {
            sysctl: None,
            readonly_paths: None,
            masked_paths: None,
            mount_label: None,
            has_seccomp: false,
        },
    }
}

/// A context that asks for all that there is.
fn full_context() -> InitContext {
    let mut ctx = context(ContainerType::InitContainer);
    ctx.stdin = Some(10);
    ctx.stdout = Some(11);
    ctx.stderr = Some(12);
    ctx.preserve_fds = 2;
    ctx.rootfs_ro = true;
    ctx.has_hooks = true;
    ctx.hostname = Some("box".to_string());
    ctx.domainname = Some("example".to_string());
    ctx.envs.insert("PATH".to_string(), "/bin".to_string());
    ctx.process.user.umask = Some(0o027);
    ctx.process.user.additional_gids = Some(vec![33, 34]);
    ctx.process.has_capabilities = true;
    ctx.process.no_new_privileges = Some(true);
    ctx.process.apparmor_profile = Some("docker-default".to_string());
    ctx.process.io_priority =
        Some(LinuxIOPriority { class: IOPriorityClass::IoprioClassBe, priority: 4 });
    ctx.process.scheduler = Some(Scheduler {
        policy: LinuxSchedulerPolicy::SchedRr,
        nice: None,
        priority: Some(50),
        flags: None,
        runtime: None,
        deadline: None,
        period: None,
    });
    ctx.linux.sysctl = Some(vec![("net.core.somaxconn".to_string(), "256".to_string())]);
    ctx.linux.readonly_paths = Some(vec!["/proc/bus".to_string(), "/proc/fs".to_string()]);
    ctx.linux.masked_paths = Some(vec!["/proc/kcore".to_string()]);
    ctx.linux.has_seccomp = true;
    ctx
}

/// What a host answers where all goes well and every namespace is a new one.
fn well(call: &Call) -> Reply<&'static str> {
    match call {
        Call::GetNamespace(_) => Reply::Namespace(Ok(Some(Namespace { path: None }))),
        Call::IsInNewUserns => Reply::Userns(Ok(false)),
        Call::Open(_) => Reply::Descriptor(Ok(20)),
        Call::Fstat(20) => Reply::Device(Ok(259)),
        Call::Fstat(_) => Reply::Device(Ok(34816)),
        Call::ReadToString(_) => Reply::Contents(Ok("allow\n".to_string())),
        Call::ReadVariable(_) => Reply::Variable(Variable::NotPresent),
        Call::GetCwd => Reply::Directory(Ok(FsPath::new("/work"))),
        Call::GetUserHome(_) => Reply::Home(None),
        Call::InitializeSeccomp => Reply::Notify(Ok(None)),
        Call::Exec => Reply::Outcome(Err(HostError::Other("not executed"))),
        _ => Reply::Outcome(Ok(())),
    }
}

/// Runs the init process against a host, and gives the calls that it made and how it ended.
fn run_with(
    ctx: InitContext,
    host: impl Fn(&Call) -> Option<Reply<&'static str>>,
) -> (Vec<Call>, Failure) {
    let mut process: InitProcess<&'static str> = container_init_process(ctx);
    let mut calls = vec![];
    while let Some(call) = process.next_call() {
        let received = host(&call).unwrap_or_else(|| well(&call));
        assert!(process.accepts(&received), "{:?} to {:?}", received, call);
        calls.push(call);
        process = process.resume(received);
    }
    (calls, process.finish().unwrap_err())
}

fn run_well(ctx: InitContext) -> (Vec<Call>, Failure) {
    run_with(ctx, |_| None)
}

fn not_executed() -> Failure {
    InitProcessError::Workload(HostError::Other("not executed"))
}

fn position(calls: &[Call], wanted: &Call) -> usize {
    calls.iter().position(|call| call == wanted).unwrap()
}

fn enter_the_rest() -> Call {
    Call::ApplyNamespaces(NamespaceFilter { left_out: vec![0x1000_0000, 0x2000_0000] })
}

fn bind(path: &str, flags: u64) -> Call {
    Call::Mount(MountArgs {
        source: Some(FsPath::new(path)),
        target: FsPath::new(path),
        fstype: None,
        flags,
        data: None,
    })
}

#[test]
fn a_small_container_takes_few_calls() {
    let (calls, failure) = run_well(context(ContainerType::TenantContainer));
    assert_eq!(failure, not_executed());
    assert_eq!(
        calls,
        vec![
            Call::SetSid,
            enter_the_rest(),
            Call::GetNamespace(NamespaceType::Uts),
            Call::Chdir(FsPath::new("/work")),
            Call::SetId { uid: 1000, gid: 100 },
            Call::ReadVariable("LISTEN_FDS".to_string()),
            Call::CloseRange(0),
            Call::ResetEffective,
            Call::GetCwd,
            Call::GetUserHome(1000),
            Call::Validate,
            Call::SetupEnvs(Envs::new()),
            Call::InitReady,
            Call::CloseMainSender,
            Call::WaitForContainerStart,
            Call::CloseNotifyListener,
            Call::Exec,
        ]
    );
}

#[test]
fn a_full_container_takes_all_calls_in_order() {
    let (calls, failure) = run_well(full_context());
    assert_eq!(failure, not_executed());
    let mut envs = Envs::new();
    envs.insert("PATH".to_string(), "/bin".to_string());
    assert_eq!(calls[0], Call::SetSid);
    assert_eq!(calls[1], Call::SetIoPriority { class: 2, priority: 4 });
    match &calls[2] {
        Call::SchedSetattr { pid, attr, call_flags } => {
            assert_eq!((*pid, *call_flags), (0, 0));
            assert_eq!((attr.size, attr.sched_policy, attr.sched_priority), (56, 2, 50));
        }
        other => panic!("unexpected call: {:?}", other),
    }
    assert_eq!(
        calls[3..],
        vec![
            Call::Dup2 { from: 10, to: 0 },
            Call::Close(10),
            Call::Dup2 { from: 11, to: 1 },
            Call::Close(11),
            Call::Dup2 { from: 12, to: 2 },
            Call::Close(12),
            enter_the_rest(),
            Call::GetNamespace(NamespaceType::Uts),
            Call::SetHostname("box".to_string()),
            Call::SetDomainname("example".to_string()),
            Call::SetNoNewPrivileges,
            Call::RunHooks(HookPoint::CreateContainer),
            Call::IsInNewUserns,
            Call::GetNamespace(NamespaceType::User),
            Call::GetNamespace(NamespaceType::Cgroup),
            Call::PrepareRootfs { bind_service: true, cgroup_ns: true },
            Call::GetNamespace(NamespaceType::Mount),
            Call::PivotRootfs(FsPath::new("/rootfs")),
            Call::AdjustRootMountPropagation,
            Call::Open(FsPath::new("/dev/null")),
            Call::Fstat(20),
            Call::Fstat(0),
            Call::Fstat(1),
            Call::Fstat(2),
            Call::Close(20),
            Call::WriteFile {
                path: FsPath::new("/proc/sys/net/core/somaxconn"),
                contents: b"256".to_vec(),
            },
            Call::ApplyProfile("docker-default".to_string()),
            Call::Mount(MountArgs {
                source: None,
                target: FsPath::new("/"),
                fstype: None,
                flags: 0x1021,
                data: None,
            }),
            Call::Umask(0o027),
            bind("/proc/bus", 0x5000),
            bind("/proc/bus", 0x102f),
            bind("/proc/fs", 0x5000),
            bind("/proc/fs", 0x102f),
            Call::Mount(MountArgs {
                source: Some(FsPath::new("/dev/null")),
                target: FsPath::new("/proc/kcore"),
                fstype: None,
                flags: 0x1000,
                data: None,
            }),
            Call::Chdir(FsPath::new("/work")),
            Call::ReadToString(FsPath::new("/proc/self/setgroups")),
            Call::SetGroups(vec![33, 34]),
            Call::SetId { uid: 1000, gid: 100 },
            Call::ReadVariable("LISTEN_FDS".to_string()),
            Call::CloseRange(2),
            Call::ResetEffective,
            Call::DropPrivileges,
            Call::GetCwd,
            Call::InitializeSeccomp,
            Call::GetUserHome(1000),
            Call::Validate,
            Call::SetupEnvs(envs),
            Call::InitReady,
            Call::CloseMainSender,
            Call::WaitForContainerStart,
            Call::CloseNotifyListener,
            Call::RunHooks(HookPoint::StartContainer),
            Call::Exec,
        ]
    );
}

#[test]
fn no_call_is_made_twice() {
    let (calls, _) = run_well(full_context());
    for (i, call) in calls.iter().enumerate() {
        assert!(!calls[i + 1..].contains(call), "{:?} is made twice", call);
    }
}

#[test]
fn a_tenant_leaves_the_container_as_it_is() {
    let mut ctx = full_context();
    ctx.container_type = ContainerType::TenantContainer;
    let (calls, failure) = run_well(ctx);
    assert_eq!(failure, not_executed());
    for call in &calls {
        assert!(!matches!(
            call,
            Call::RunHooks(_)
                | Call::PrepareRootfs { .. }
                | Call::PivotRootfs(_)
                | Call::AdjustRootMountPropagation
                | Call::Open(_)
                | Call::WriteFile { .. }
        ));
    }
    assert!(calls.contains(&Call::ApplyProfile("docker-default".to_string())));
}

#[test]
fn a_console_takes_the_place_of_the_standard_descriptors() {
    let mut ctx = full_context();
    ctx.console_socket = Some(30);
    let (calls, _) = run_well(ctx);
    assert_eq!(calls[3], Call::SetupConsole(30));
    assert_eq!(calls[4], enter_the_rest());
}

#[test]
fn a_descriptor_given_twice_is_closed_twice() {
    let mut ctx = context(ContainerType::TenantContainer);
    ctx.stdin = Some(10);
    ctx.stderr = Some(10);
    let (calls, _) = run_well(ctx);
    assert_eq!(
        calls[1..5],
        vec![
            Call::Dup2 { from: 10, to: 0 },
            Call::Close(10),
            Call::Dup2 { from: 10, to: 2 },
            Call::Close(10),
        ]
    );
}

#[test]
fn a_refused_working_directory_is_tried_again_as_the_user() {
    let mut ctx = full_context();
    ctx.process.cwd = FsPath::new("/home/user");
    let cwd = || Call::Chdir(FsPath::new("/home/user"));
    let tries = std::cell::Cell::new(0);
    let (calls, failure) = run_with(ctx, |call| {
        if *call == cwd() {
            tries.set(tries.get() + 1);
            if tries.get() == 1 {
                return Some(Reply::Outcome(Err(errno(nix::errno::Errno::EPERM))));
            }
        }
        None
    });
    assert_eq!(failure, not_executed());
    let first = position(&calls, &cwd());
    let again = first + 1 + position(&calls[first + 1..], &cwd());
    assert!(first < position(&calls, &Call::SetGroups(vec![33, 34])));
    assert_eq!(calls[again - 1], Call::DropPrivileges);
    assert_eq!(calls[again + 1], Call::GetCwd);
}

#[test]
fn a_working_directory_that_is_refused_twice_is_an_error() {
    let (calls, failure) = run_with(context(ContainerType::TenantContainer), |call| match call {
        Call::Chdir(_) => Some(Reply::Outcome(Err(errno(nix::errno::Errno::EPERM)))),
        _ => None,
    });
    assert_eq!(failure, InitProcessError::NixOther(errno(nix::errno::Errno::EPERM)));
    assert_eq!(calls.last(), Some(&Call::Chdir(FsPath::new("/work"))));
    assert!(calls.contains(&Call::ResetEffective));
}

#[test]
fn a_missing_working_directory_is_an_error_at_once() {
    let (calls, failure) = run_with(context(ContainerType::TenantContainer), |call| match call {
        Call::Chdir(_) => Some(Reply::Outcome(Err(errno(nix::errno::Errno::ENOENT)))),
        _ => None,
    });
    assert_eq!(failure, InitProcessError::NixOther(errno(nix::errno::Errno::ENOENT)));
    assert_eq!(calls.len(), 4);
}

#[test]
fn an_empty_working_directory_is_not_changed_to() {
    let mut ctx = context(ContainerType::TenantContainer);
    ctx.process.cwd = FsPath::new("");
    let (calls, failure) = run_well(ctx);
    assert_eq!(failure, not_executed());
    assert!(!calls.iter().any(|call| matches!(call, Call::Chdir(_))));
    assert!(calls.contains(&Call::GetCwd));
}

#[test]
fn a_working_directory_outside_the_container_is_an_error() {
    let (calls, failure) = run_with(context(ContainerType::TenantContainer), |call| match call {
        Call::GetCwd => Some(Reply::Directory(Ok(FsPath::new("(unreachable)/")))),
        _ => None,
    });
    assert_eq!(failure, InitProcessError::InvalidCwd(errno(nix::errno::Errno::ENOENT)));
    assert_eq!(calls.last(), Some(&Call::GetCwd));
}

#[test]
fn a_umask_with_other_bits_is_an_error() {
    let mut ctx = full_context();
    ctx.process.user.umask = Some(0o10022);
    let (calls, failure) = run_well(ctx);
    assert_eq!(failure, InitProcessError::InvalidUmask(0o10022));
    // The root was made read-only before the umask is looked at.
    assert!(matches!(calls.last(), Some(Call::Mount(_))));
}

#[test]
fn every_bit_of_a_mode_can_be_in_a_umask() {
    let mut ctx = context(ContainerType::TenantContainer);
    ctx.process.user.umask = Some(0o7777);
    let (calls, failure) = run_well(ctx);
    assert_eq!(failure, not_executed());
    assert!(calls.contains(&Call::Umask(0o7777)));
}

#[test]
fn a_payload_without_arguments_is_an_error_in_the_end() {
    let mut ctx = full_context();
    ctx.process.has_args = false;
    let (calls, failure) = run_well(ctx);
    assert_eq!(failure, InitProcessError::MissingSpec(MissingSpecError::Args));
    assert_eq!(calls.last(), Some(&Call::RunHooks(HookPoint::StartContainer)));
}

/// The calls of a run in which the seccomp profile has calls notified.
fn run_notified(no_new_privileges: Option<bool>) -> Vec<Call> {
    let mut ctx = full_context();
    ctx.process.no_new_privileges = no_new_privileges;
    let (calls, failure) = run_with(ctx, |call| match call {
        Call::InitializeSeccomp => Some(Reply::Notify(Ok(Some(40)))),
        _ => None,
    });
    assert_eq!(failure, not_executed());
    assert_eq!(calls.iter().filter(|call| **call == Call::InitializeSeccomp).count(), 1);
    calls
}

#[test]
fn seccomp_comes_before_capabilities_unless_new_privileges_are_forbidden() {
    for no_new_privileges in [None, Some(false)] {
        let calls = run_notified(no_new_privileges);
        let start = position(&calls, &Call::InitializeSeccomp);
        assert_eq!(calls[start - 1], Call::CloseRange(2));
        assert_eq!(
            calls[start..start + 6],
            vec![
                Call::InitializeSeccomp,
                Call::SeccompNotifyRequest(40),
                Call::WaitForSeccompRequestDone,
                Call::Close(40),
                Call::ResetEffective,
                Call::DropPrivileges,
            ]
        );
        assert!(!calls.contains(&Call::SetNoNewPrivileges));
    }
}

#[test]
fn seccomp_comes_late_where_new_privileges_are_forbidden() {
    let calls = run_notified(Some(true));
    let start = position(&calls, &Call::InitializeSeccomp);
    assert_eq!(calls[start - 1], Call::GetCwd);
    assert_eq!(
        calls[start..start + 4],
        vec![
            Call::InitializeSeccomp,
            Call::SeccompNotifyRequest(40),
            Call::WaitForSeccompRequestDone,
            Call::Close(40),
        ]
    );
    assert!(calls.contains(&Call::SetNoNewPrivileges));
}

#[test]
fn a_failure_to_forbid_new_privileges_is_tolerated() {
    let (_, failure) = run_with(full_context(), |call| match call {
        Call::SetNoNewPrivileges => {
            Some(Reply::Outcome(Err(errno(nix::errno::Errno::EINVAL))))
        }
        _ => None,
    });
    assert_eq!(failure, not_executed());
}

fn envs_of(calls: &[Call]) -> &Envs {
    for call in calls {
        if let Call::SetupEnvs(envs) = call {
            return envs;
        }
    }
    panic!("no environment was set up");
}

#[test]
fn descriptors_are_announced_to_the_payload() {
    let (calls, _) = run_with(full_context(), |call| match call {
        Call::ReadVariable(_) => Some(Reply::Variable(Variable::Present("3".to_string()))),
        _ => None,
    });
    assert!(calls.contains(&Call::CloseRange(5)));
    let envs = envs_of(&calls);
    assert_eq!(envs.get("LISTEN_FDS"), Some(&"3".to_string()));
    assert_eq!(envs.get("LISTEN_PID"), Some(&"1".to_string()));
    assert_eq!(envs.get("PATH"), Some(&"/bin".to_string()));
    assert_eq!(envs.get("HOME"), None);
}

#[test]
fn nothing_is_announced_where_nothing_is_to_be() {
    for text in ["0", "-2", "none"] {
        let mut ctx = full_context();
        ctx.envs.insert("LISTEN_FDS".to_string(), "7".to_string());
        let (calls, _) = run_with(ctx, |call| match call {
            Call::ReadVariable(_) => Some(Reply::Variable(Variable::Present(text.to_string()))),
            _ => None,
        });
        let envs = envs_of(&calls);
        assert_eq!(envs.get("LISTEN_FDS"), Some(&"7".to_string()));
        assert_eq!(envs.get("LISTEN_PID"), None);
    }
}

#[test]
fn a_missing_home_is_filled_in() {
    let (calls, _) = run_with(full_context(), |call| match call {
        Call::GetUserHome(uid) => {
            assert_eq!(*uid, 1000);
            Some(Reply::Home(Some(FsPath::new("/home/user"))))
        }
        _ => None,
    });
    assert_eq!(envs_of(&calls).get("HOME"), Some(&"/home/user".to_string()));
}

#[test]
fn a_home_that_is_not_unicode_is_made_so() {
    let (calls, _) = run_with(full_context(), |call| match call {
        Call::GetUserHome(_) => {
            Some(Reply::Home(Some(FsPath { bytes: vec![b'/', 0xff, b'x'] })))
        }
        _ => None,
    });
    assert_eq!(envs_of(&calls).get("HOME"), Some(&"/\u{fffd}x".to_string()));
}

#[test]
fn a_home_of_the_configuration_is_kept() {
    let mut ctx = full_context();
    ctx.envs.insert("HOME".to_string(), "/srv".to_string());
    let (calls, _) = run_with(ctx, |call| match call {
        Call::GetUserHome(_) => panic!("the home directory is known"),
        _ => None,
    });
    assert_eq!(envs_of(&calls).get("HOME"), Some(&"/srv".to_string()));
}

#[test]
fn the_root_is_moved_where_pivoting_is_off() {
    let mut ctx = context(ContainerType::InitContainer);
    ctx.no_pivot = true;
    let (calls, failure) = run_with(ctx, |call| match call {
        Call::Umount2 { .. } => Some(Reply::Outcome(Err(errno(nix::errno::Errno::EINVAL)))),
        _ => None,
    });
    assert_eq!(failure, not_executed());
    let start = position(&calls, &Call::Chdir(FsPath::new("/rootfs")));
    assert!(matches!(calls[start + 1], Call::Umount2 { .. }));
    assert!(matches!(calls[start + 2], Call::Mount(_)));
    assert!(matches!(calls[start + 3], Call::Umount2 { .. }));
    assert!(matches!(calls[start + 4], Call::Mount(_)));
    assert!(matches!(calls[start + 5], Call::Mount(_)));
    assert_eq!(calls[start + 6], Call::Chroot(FsPath::new(".")));
    assert_eq!(calls[start + 7], Call::Chdir(FsPath::new("/")));
    assert_eq!(calls[start + 8], Call::AdjustRootMountPropagation);
}

#[test]
fn the_host_mount_namespace_is_not_pivoted() {
    let (calls, _) = run_with(context(ContainerType::InitContainer), |call| match call {
        Call::GetNamespace(NamespaceType::Mount) => Some(Reply::Namespace(Ok(None))),
        _ => None,
    });
    assert!(calls.contains(&Call::Chroot(FsPath::new("/rootfs"))));
    assert!(!calls.contains(&Call::PivotRootfs(FsPath::new("/rootfs"))));
}

/// Where a call fails, the error that the process ends with; it makes no other call.
fn failure_of(failing: impl Fn(&Call) -> bool) -> Failure {
    let (calls, failure) = run_with(full_context(), |call| {
        if failing(call) {
            Some(Reply::Outcome(Err(errno(nix::errno::Errno::EIO))))
        } else {
            None
        }
    });
    assert!(failing(calls.last().unwrap()));
    assert_eq!(calls.iter().filter(|call| failing(call)).count(), 1);
    failure
}

#[test]
fn every_failed_call_has_its_error() {
    let io = || errno(nix::errno::Errno::EIO);
    assert_eq!(failure_of(|c| *c == Call::SetSid), InitProcessError::NixOther(io()));
    assert_eq!(
        failure_of(|c| matches!(c, Call::SetIoPriority { .. })),
        InitProcessError::SyscallOther(io())
    );
    assert_eq!(
        failure_of(|c| matches!(c, Call::SchedSetattr { .. })),
        InitProcessError::SchedSetattr("5".to_string())
    );
    assert_eq!(
        failure_of(|c| *c == Call::Dup2 { from: 11, to: 1 }),
        InitProcessError::NixOther(io())
    );
    assert_eq!(failure_of(|c| *c == Call::Close(12)), InitProcessError::NixOther(io()));
    assert_eq!(failure_of(|c| *c == enter_the_rest()), InitProcessError::Namespaces(io()));
    assert_eq!(
        failure_of(|c| matches!(c, Call::SetHostname(_))),
        InitProcessError::SetHostname(io())
    );
    assert_eq!(
        failure_of(|c| matches!(c, Call::SetDomainname(_))),
        InitProcessError::SetDomainname(io())
    );
    assert_eq!(
        failure_of(|c| *c == Call::RunHooks(HookPoint::CreateContainer)),
        InitProcessError::Hooks(io())
    );
    assert_eq!(
        failure_of(|c| matches!(c, Call::PrepareRootfs { .. })),
        InitProcessError::RootFS(io())
    );
    assert_eq!(
        failure_of(|c| matches!(c, Call::PivotRootfs(_))),
        InitProcessError::SyscallOther(io())
    );
    assert_eq!(
        failure_of(|c| *c == Call::AdjustRootMountPropagation),
        InitProcessError::RootFS(io())
    );
    assert_eq!(
        failure_of(|c| matches!(c, Call::WriteFile { .. })),
        InitProcessError::Sysctl(io())
    );
    assert_eq!(
        failure_of(|c| matches!(c, Call::ApplyProfile(_))),
        InitProcessError::AppArmor(io())
    );
    assert_eq!(
        failure_of(|c| matches!(c, Call::Mount(args) if args.flags == 0x1021)),
        InitProcessError::SyscallOther(io())
    );
    assert_eq!(
        failure_of(|c| *c == bind("/proc/fs", 0x5000)),
        InitProcessError::MountPathReadonly(io())
    );
    assert_eq!(
        failure_of(|c| matches!(c, Call::Mount(args) if args.flags == 0x1000)),
        InitProcessError::MountPathMasked(io())
    );
    assert_eq!(failure_of(|c| matches!(c, Call::Chdir(_))), InitProcessError::NixOther(io()));
    assert_eq!(
        failure_of(|c| matches!(c, Call::SetGroups(_))),
        InitProcessError::SyscallOther(io())
    );
    assert_eq!(
        failure_of(|c| matches!(c, Call::SetId { .. })),
        InitProcessError::SyscallOther(io())
    );
    assert_eq!(
        failure_of(|c| matches!(c, Call::CloseRange(_))),
        InitProcessError::SyscallOther(io())
    );
    assert_eq!(failure_of(|c| *c == Call::ResetEffective), InitProcessError::SyscallOther(io()));
    assert_eq!(failure_of(|c| *c == Call::DropPrivileges), InitProcessError::SyscallOther(io()));
    assert_eq!(failure_of(|c| *c == Call::Validate), InitProcessError::WorkloadValidation(io()));
    assert_eq!(
        failure_of(|c| matches!(c, Call::SetupEnvs(_))),
        InitProcessError::WorkloadSetEnvs(io())
    );
    assert_eq!(failure_of(|c| *c == Call::InitReady), InitProcessError::Channel(io()));
    assert_eq!(failure_of(|c| *c == Call::CloseMainSender), InitProcessError::Channel(io()));
    assert_eq!(
        failure_of(|c| *c == Call::WaitForContainerStart),
        InitProcessError::NotifyListener(io())
    );
    assert_eq!(
        failure_of(|c| *c == Call::CloseNotifyListener),
        InitProcessError::NotifyListener(io())
    );
    assert_eq!(
        failure_of(|c| *c == Call::RunHooks(HookPoint::StartContainer)),
        InitProcessError::Hooks(io())
    );
    assert_eq!(failure_of(|c| *c == Call::Exec), InitProcessError::Workload(io()));
}

#[test]
fn a_failed_console_is_an_error_of_the_terminal() {
    let mut ctx = context(ContainerType::TenantContainer);
    ctx.console_socket = Some(3);
    let (calls, failure) = run_with(ctx, |call| match call {
        Call::SetupConsole(_) => Some(Reply::Outcome(Err(HostError::Other("no pty")))),
        _ => None,
    });
    assert_eq!(failure, InitProcessError::Tty(HostError::Other("no pty")));
    assert_eq!(calls.len(), 2);
}

#[test]
fn failed_questions_have_their_errors() {
    let lost = || HostError::Other("lost");
    let ask = |failing: Call, received: fn() -> Reply<&'static str>| -> Failure {
        let (calls, failure) =
            run_with(full_context(), |call| if *call == failing { Some(received()) } else { None });
        assert_eq!(calls.last(), Some(&failing));
        failure
    };
    for namespace in [
        NamespaceType::Uts,
        NamespaceType::User,
        NamespaceType::Cgroup,
        NamespaceType::Mount,
    ] {
        assert_eq!(
            ask(Call::GetNamespace(namespace), || Reply::Namespace(Err(HostError::Other("lost")))),
            InitProcessError::Namespaces(lost())
        );
    }
    assert_eq!(
        ask(Call::IsInNewUserns, || Reply::Userns(Err(HostError::Other("lost")))),
        InitProcessError::Io(lost())
    );
    assert_eq!(
        ask(Call::Open(FsPath::new("/dev/null")), || Reply::Descriptor(Err(HostError::Other(
            "lost"
        )))),
        InitProcessError::ReopenDevNull(lost())
    );
    assert_eq!(
        ask(Call::ReadToString(FsPath::new("/proc/self/setgroups")), || Reply::Contents(Err(
            HostError::Other("lost")
        ))),
        InitProcessError::Io(lost())
    );
    assert_eq!(
        ask(Call::ReadToString(FsPath::new("/proc/self/setgroups")), || Reply::Contents(Ok(
            "deny".to_string()
        ))),
        InitProcessError::SetGroupDisabled
    );
    assert_eq!(
        ask(Call::GetCwd, || Reply::Directory(Err(HostError::Other("lost")))),
        InitProcessError::NixOther(lost())
    );
    assert_eq!(
        ask(Call::InitializeSeccomp, || Reply::Notify(Err(HostError::Other("lost")))),
        InitProcessError::Seccomp(lost())
    );
}

#[test]
fn an_opened_dev_null_is_closed_after_a_failure() {
    let bad = || errno(nix::errno::Errno::EBADF);
    for failing in [Call::Fstat(20), Call::Fstat(1), Call::Dup2 { from: 20, to: 2 }] {
        let (calls, failure) = run_with(full_context(), |call| match call {
            call if *call == failing && matches!(call, Call::Dup2 { .. }) => {
                Some(Reply::Outcome(Err(bad())))
            }
            call if *call == failing => Some(Reply::Device(Err(bad()))),
            Call::Fstat(2) => Some(Reply::Device(Ok(259))),
            // Whether that works does not matter.
            Call::Close(20) => Some(Reply::Outcome(Err(errno(nix::errno::Errno::EIO)))),
            _ => None,
        });
        assert_eq!(failure, InitProcessError::NixOther(bad()));
        assert_eq!(calls[calls.len() - 2], failing);
        assert_eq!(calls[calls.len() - 1], Call::Close(20));
    }
}

#[test]
fn each_kernel_parameter_is_written_once() {
    let mut ctx = full_context();
    ctx.linux.sysctl = Some(vec![
        ("kernel.shmmax".to_string(), "1".to_string()),
        ("net.core.somaxconn".to_string(), "2".to_string()),
        ("fs.mqueue.msg_max".to_string(), "3".to_string()),
    ]);
    let (calls, _) = run_well(ctx);
    for (path, value) in [
        ("/proc/sys/kernel/shmmax", "1"),
        ("/proc/sys/net/core/somaxconn", "2"),
        ("/proc/sys/fs/mqueue/msg_max", "3"),
    ] {
        let write = Call::WriteFile { path: FsPath::new(path), contents: value.into() };
        assert_eq!(calls.iter().filter(|call| **call == write).count(), 1);
    }
}

/// The process before its first call that is such, where all has gone well.
fn process_before(ctx: InitContext, wanted: impl Fn(&Call) -> bool) -> InitProcess<&'static str> {
    let mut process: InitProcess<&'static str> = container_init_process(ctx);
    while let Some(call) = process.next_call() {
        if wanted(&call) {
            return process;
        }
        process = process.resume(well(&call));
    }
    panic!("there is no such call");
}

#[test]
fn only_answers_that_fit_are_accepted() {
    let start = process_before(full_context(), |call| *call == Call::SetSid);
    assert!(start.accepts(&Reply::Outcome(Ok(()))));
    assert!(!start.accepts(&Reply::Home(None)));

    let scheduler =
        process_before(full_context(), |call| matches!(call, Call::SchedSetattr { .. }));
    assert!(scheduler.accepts(&Reply::Outcome(Err(errno(nix::errno::Errno::EINVAL)))));
    assert!(!scheduler.accepts(&Reply::Outcome(Err(HostError::Other("no number")))));

    let umask = process_before(full_context(), |call| matches!(call, Call::Umask(_)));
    assert!(umask.accepts(&Reply::Outcome(Ok(()))));
    assert!(!umask.accepts(&Reply::Outcome(Err(errno(nix::errno::Errno::EINVAL)))));

    let most = || Reply::Variable(Variable::Present("2147483647".to_string()));
    let listen = process_before(full_context(), |call| matches!(call, Call::ReadVariable(_)));
    assert!(!listen.accepts(&most()));
    assert!(listen.accepts(&Reply::Variable(Variable::Present("2147483645".to_string()))));

    let exec = process_before(full_context(), |call| *call == Call::Exec);
    assert!(exec.accepts(&Reply::Outcome(Err(HostError::Other("no such file")))));
    assert!(!exec.accepts(&Reply::Outcome(Ok(()))));
}

#[test]
fn groups_need_a_privileged_user_namespace() {
    for (privileged, accepted) in [(true, true), (false, false)] {
        let mut ctx = full_context();
        ctx.user_ns_config = Some(UserNamespaceConfig { privileged });
        let process = process_before(ctx, |call| matches!(call, Call::ReadToString(_)));
        assert_eq!(process.accepts(&Reply::Contents(Ok("allow".to_string()))), accepted);
        assert!(process.accepts(&Reply::Contents(Ok("deny".to_string()))));
    }
}

#[test]
fn the_longest_run_is_within_its_bound() {
    let mut ctx = full_context();
    ctx.no_pivot = true;
    let tries = std::cell::Cell::new(0);
    let (calls, failure) = run_with(ctx, |call| match call {
        Call::Umount2 { .. } => Some(Reply::Outcome(Err(errno(nix::errno::Errno::EINVAL)))),
        Call::Fstat(_) => Some(Reply::Device(Ok(259))),
        Call::InitializeSeccomp => Some(Reply::Notify(Ok(Some(40)))),
        Call::Mount(args) if args.flags == 0x1000 => {
            Some(Reply::Outcome(Err(errno(nix::errno::Errno::ENOTDIR))))
        }
        Call::Chdir(path) if *path == FsPath::new("/work") => {
            tries.set(tries.get() + 1);
            if tries.get() == 1 {
                Some(Reply::Outcome(Err(errno(nix::errno::Errno::EPERM))))
            } else {
                None
            }
        }
        _ => None,
    });
    assert_eq!(failure, not_executed());
    // One kernel parameter, two read-only paths and one masked path.
    assert_eq!(calls.len(), 64 + 1 + 2 * 2 + 2);
}
