use container_init::call::{
    Call, MountArgs, Namespace, NamespaceFilter, NamespaceType, Outcome, Reply, Variable,
};
use container_init::context::{IOPriorityClass, LinuxIOPriority, User, UserNamespaceConfig};
use container_init::envs::Envs;
use container_init::error::{Errno, HostError, InitProcessError};
use container_init::io_priority::{io_priority_class, set_io_priority};
use container_init::path::FsPath;
use container_init::procedures::{
    apply_rest_namespaces, do_pivot_root, listen_fds, masked_path, move_root, prepare_rootfs,
    readonly_path, readonly_root, reopen_dev_null, set_supplementary_gids, sync_seccomp, sysctl,
    unmount_or_hide, verify_cwd,
};
use nix::mount::{MntFlags, MsFlags};
use nix::sched::CloneFlags;
use oci_spec::runtime::SpecBuilder;

type Failure = InitProcessError<&'static str>;

fn nix_error(errno: nix::errno::Errno) -> HostError<&'static str> {
    HostError::Nix(Errno { code: errno as i32 })
}

fn failing(errno: nix::errno::Errno) -> Outcome<&'static str> {
    Err(nix_error(errno))
}

/// Makes the mounts of a read-only path, each with the next of the outcomes, and gives
/// those that worked.
fn mount_readonly(
    path: &str,
    outcomes: Vec<Outcome<&'static str>>,
) -> (Result<(), Failure>, Vec<MountArgs>) {
    let mut outcomes = outcomes.into_iter();
    let mut mounts = vec![];
    let mut next = Some(readonly_path::Step::Bind);
    while let Some(step) = next {
        let outcome = outcomes.next().unwrap_or(Ok(()));
        match readonly_path::call(step, &FsPath::new(path)) {
            Call::Mount(args) => {
                if outcome.is_ok() {
                    mounts.push(args);
                }
            }
            other => panic!("not a mount: {:?}", other),
        }
        match readonly_path::reply(step, outcome) {
            Ok(step) => next = step,
            Err(err) => return (Err(err), mounts),
        }
    }
    (Ok(()), mounts)
}

/// Makes the mounts of a masked path, each with the next of the outcomes, and gives those
/// that worked.
fn mount_masked(
    path: &str,
    label: &Option<String>,
    outcomes: Vec<Outcome<&'static str>>,
) -> (Result<(), Failure>, Vec<MountArgs>) {
    let mut outcomes = outcomes.into_iter();
    let mut mounts = vec![];
    let mut next = Some(masked_path::Step::DevNull);
    while let Some(step) = next {
        let outcome = outcomes.next().unwrap_or(Ok(()));
        match masked_path::call(step, &FsPath::new(path), label) {
            Call::Mount(args) => {
                if outcome.is_ok() {
                    mounts.push(args);
                }
            }
            other => panic!("not a mount: {:?}", other),
        }
        match masked_path::reply(step, outcome) {
            Ok(step) => next = step,
            Err(err) => return (Err(err), mounts),
        }
    }
    (Ok(()), mounts)
}

#[test]
fn test_readonly_path() {
    let (result, got) = mount_readonly("/proc/sys", vec![]);
    assert!(result.is_ok());

    let want = vec![
        MountArgs {
            source: Some(FsPath::new("/proc/sys")),
            target: FsPath::new("/proc/sys"),
            fstype: None,
            flags: (MsFlags::MS_BIND | MsFlags::MS_REC).bits(),
            data: None,
        },
        MountArgs {
            source: Some(FsPath::new("/proc/sys")),
            target: FsPath::new("/proc/sys"),
            fstype: None,
            flags: (MsFlags::MS_NOSUID
                | MsFlags::MS_NODEV
                | MsFlags::MS_NOEXEC
                | MsFlags::MS_BIND
                | MsFlags::MS_REMOUNT
                | MsFlags::MS_RDONLY)
                .bits(),
            data: None,
        },
    ];
    assert_eq!(want, got);
    assert_eq!(got.len(), 2);
}

#[test]
fn readonly_path_that_does_not_exist_is_left_alone() {
    let (result, got) = mount_readonly("/proc/sys", vec![failing(nix::errno::Errno::ENOENT)]);
    assert_eq!(result, Ok(()));
    assert_eq!(got.len(), 0);
}

#[test]
fn readonly_path_reports_a_failed_mount() {
    let (result, got) = mount_readonly("/proc/sys", vec![failing(nix::errno::Errno::EACCES)]);
    assert_eq!(
        result,
        Err(InitProcessError::MountPathReadonly(nix_error(nix::errno::Errno::EACCES)))
    );
    assert_eq!(got.len(), 0);
}

#[test]
fn readonly_path_reports_a_failed_remount() {
    let outcomes = vec![Ok(()), failing(nix::errno::Errno::ENOENT)];
    let (result, got) = mount_readonly("/proc/sys", outcomes);
    assert_eq!(
        result,
        Err(InitProcessError::MountPathReadonly(nix_error(nix::errno::Errno::ENOENT)))
    );
    assert_eq!(got.len(), 1);
}

#[test]
fn test_masked_path_does_not_exist() {
    let outcomes = vec![failing(nix::errno::Errno::ENOENT)];
    let (result, got) = mount_masked("/proc/self", &None, outcomes);
    assert!(result.is_ok());
    assert_eq!(0, got.len());
}

#[test]
fn test_masked_path_is_file_with_no_label() {
    let outcomes = vec![failing(nix::errno::Errno::ENOTDIR)];
    let (result, got) = mount_masked("/proc/self", &None, outcomes);
    assert!(result.is_ok());

    let want = MountArgs {
        source: Some(FsPath::new("tmpfs")),
        target: FsPath::new("/proc/self"),
        fstype: Some("tmpfs".to_string()),
        flags: MsFlags::MS_RDONLY.bits(),
        data: Some("".to_string()),
    };
    assert_eq!(1, got.len());
    assert_eq!(want, got[0]);
}

#[test]
fn test_masked_path_is_file_with_label() {
    let outcomes = vec![failing(nix::errno::Errno::ENOTDIR)];
    let (result, got) = mount_masked("/proc/self", &Some("default".to_string()), outcomes);
    assert!(result.is_ok());

    let want = MountArgs {
        source: Some(FsPath::new("tmpfs")),
        target: FsPath::new("/proc/self"),
        fstype: Some("tmpfs".to_string()),
        flags: MsFlags::MS_RDONLY.bits(),
        data: Some("context=\"default\"".to_string()),
    };
    assert_eq!(1, got.len());
    assert_eq!(want, got[0]);
}

#[test]
fn test_masked_path_with_unknown_error() {
    let outcomes = vec![failing(nix::errno::Errno::UnknownErrno)];
    let (result, got) = mount_masked("/proc/self", &None, outcomes);
    assert!(result.is_err());
    assert_eq!(0, got.len());
}

#[test]
fn masked_path_covers_a_file_with_dev_null() {
    let (result, got) = mount_masked("/proc/keys", &Some("default".to_string()), vec![]);
    assert!(result.is_ok());
    let want = MountArgs {
        source: Some(FsPath::new("/dev/null")),
        target: FsPath::new("/proc/keys"),
        fstype: None,
        flags: MsFlags::MS_BIND.bits(),
        data: None,
    };
    assert_eq!(vec![want], got);
}

#[test]
fn masked_path_reports_a_failed_tmpfs() {
    let outcomes =
        vec![failing(nix::errno::Errno::ENOTDIR), failing(nix::errno::Errno::ENOENT)];
    let (result, _) = mount_masked("/proc/acpi", &None, outcomes);
    assert_eq!(
        result,
        Err(InitProcessError::MountPathMasked(nix_error(nix::errno::Errno::ENOENT)))
    );
}

#[test]
fn masked_path_tells_errors_of_other_kinds_from_error_numbers() {
    let (result, _) = mount_masked("/proc/acpi", &None, vec![Err(HostError::Other("lost"))]);
    assert_eq!(result, Err(InitProcessError::MountPathMasked(HostError::Other("lost"))));
}

/// Enters the rest of the namespaces, with the given uts namespace, and gives the calls
/// that it takes.
fn enter_namespaces(
    uts: Option<Namespace>,
    hostname: &Option<String>,
    domainname: &Option<String>,
) -> Vec<Call> {
    let mut uts = uts;
    let mut calls = vec![];
    let mut next = Some(apply_rest_namespaces::Step::Apply);
    while let Some(step) = next {
        let call = apply_rest_namespaces::call(step, hostname, domainname);
        let received: Reply<&'static str> = match call {
            Call::GetNamespace(_) => Reply::Namespace(Ok(uts.take())),
            _ => Reply::Outcome(Ok(())),
        };
        calls.push(call);
        next = apply_rest_namespaces::reply(
            step,
            hostname.is_some(),
            domainname.is_some(),
            received,
        )
        .unwrap();
    }
    calls
}

#[test]
fn test_apply_rest_namespaces() {
    let spec = SpecBuilder::default().build().unwrap();
    let uts = Some(Namespace { path: None });
    let calls = enter_namespaces(uts, spec.hostname(), spec.domainname());

    let mut got_hostnames = vec![];
    let mut got_domainnames = vec![];
    for call in calls {
        match call {
            Call::SetHostname(name) => got_hostnames.push(name),
            Call::SetDomainname(name) => got_domainnames.push(name),
            _ => {}
        }
    }
    assert_eq!(1, got_hostnames.len());
    assert_eq!("youki".to_string(), got_hostnames[0]);
    assert_eq!(0, got_domainnames.len());
}

#[test]
fn names_are_set_host_first() {
    let hostname = Some("box".to_string());
    let domainname = Some("example".to_string());
    assert_eq!(
        enter_namespaces(Some(Namespace { path: None }), &hostname, &domainname),
        vec![
            enter_the_rest(),
            Call::GetNamespace(NamespaceType::Uts),
            Call::SetHostname("box".to_string()),
            Call::SetDomainname("example".to_string()),
        ]
    );
    assert_eq!(
        enter_namespaces(Some(Namespace { path: None }), &None, &domainname),
        vec![
            enter_the_rest(),
            Call::GetNamespace(NamespaceType::Uts),
            Call::SetDomainname("example".to_string()),
        ]
    );
}

#[test]
fn names_are_not_set_outside_a_new_uts_namespace() {
    let hostname = Some("box".to_string());
    let joined = Namespace { path: Some(FsPath::new("/proc/1/ns/uts")) };
    let calls = vec![enter_the_rest(), Call::GetNamespace(NamespaceType::Uts)];
    assert_eq!(enter_namespaces(Some(joined), &hostname, &None), calls);
    assert_eq!(enter_namespaces(None, &hostname, &None), calls);
}

#[test]
fn namespace_errors_are_told_apart() {
    assert_namespace_error(
        apply_rest_namespaces::Step::Apply,
        Reply::Outcome(Err(HostError::Other("ns"))),
        InitProcessError::Namespaces(HostError::Other("ns")),
    );
    assert_namespace_error(
        apply_rest_namespaces::Step::LookUpUts,
        Reply::Namespace(Err(HostError::Other("ns"))),
        InitProcessError::Namespaces(HostError::Other("ns")),
    );
    assert_namespace_error(
        apply_rest_namespaces::Step::Hostname,
        Reply::Outcome(failing(nix::errno::Errno::EPERM)),
        InitProcessError::SetHostname(nix_error(nix::errno::Errno::EPERM)),
    );
    assert_namespace_error(
        apply_rest_namespaces::Step::Domainname,
        Reply::Outcome(failing(nix::errno::Errno::EPERM)),
        InitProcessError::SetDomainname(nix_error(nix::errno::Errno::EPERM)),
    );
}

fn assert_namespace_error(
    step: apply_rest_namespaces::Step,
    received: Reply<&'static str>,
    error: Failure,
) {
    assert_eq!(apply_rest_namespaces::reply(step, true, true, received), Err(error));
}

/// The call that enters all namespaces but the user and the pid namespace.
fn enter_the_rest() -> Call {
    Call::ApplyNamespaces(NamespaceFilter {
        left_out: vec![CloneFlags::CLONE_NEWUSER.bits(), CloneFlags::CLONE_NEWPID.bits()],
    })
}

#[test]
fn user_and_pid_namespaces_were_entered_before() {
    let call = apply_rest_namespaces::call(apply_rest_namespaces::Step::Apply, &None, &None);
    assert_eq!(call, enter_the_rest());
    let passes = |flags: CloneFlags| match &call {
        Call::ApplyNamespaces(filter) => filter.passes(flags.bits()),
        other => panic!("unexpected call: {:?}", other),
    };
    assert!(!passes(CloneFlags::CLONE_NEWUSER));
    assert!(!passes(CloneFlags::CLONE_NEWPID));
    assert!(passes(CloneFlags::CLONE_NEWUTS));
    assert!(passes(CloneFlags::CLONE_NEWNS));
    assert!(passes(CloneFlags::CLONE_NEWUSER | CloneFlags::CLONE_NEWPID));
}

fn user(additional_gids: Option<Vec<u32>>) -> User {
    User { uid: 0, gid: 0, umask: None, additional_gids }
}

/// Sets the supplementary groups where the kernel's file reads as given, and gives the
/// groups that were set.
fn set_groups(
    user: &User,
    user_ns_config: &Option<UserNamespaceConfig>,
    setgroups: &str,
) -> (Result<(), Failure>, Vec<u32>) {
    let mut set = vec![];
    let mut next = set_supplementary_gids::start(user);
    while let Some(step) = next {
        let received: Reply<&'static str> = match set_supplementary_gids::call(step, user) {
            Call::ReadToString(path) => {
                assert_eq!(path, FsPath::new("/proc/self/setgroups"));
                Reply::Contents(Ok(setgroups.to_string()))
            }
            Call::SetGroups(gids) => {
                set.extend(gids);
                Reply::Outcome(Ok(()))
            }
            other => panic!("unexpected call: {:?}", other),
        };
        assert!(set_supplementary_gids::admits(step, user_ns_config, &received));
        match set_supplementary_gids::reply(step, user_ns_config, received) {
            Ok(step) => next = step,
            Err(err) => return (Err(err), set),
        }
    }
    (Ok(()), set)
}

#[test]
fn test_set_supplementary_gids() {
    // gids additional gids is empty case
    assert!(set_groups(&user(None), &None, "allow\n").0.is_ok());

    let tests = vec![
        (user(Some(vec![33, 34])), None::<UserNamespaceConfig>, vec![33, 34]),
        // unreachable case
        (user(None), Some(UserNamespaceConfig { privileged: false }), vec![]),
        (
            user(Some(vec![37, 38])),
            Some(UserNamespaceConfig { privileged: true }),
            vec![37, 38],
        ),
        (user(Some(vec![33, 34, 34])), None::<UserNamespaceConfig>, vec![33, 34, 34]),
    ];
    for (user, ns_config, want) in tests.into_iter() {
        for setgroups in ["deny", "allow"] {
            let contents = format!("{}\n", setgroups);
            let (result, got) = set_groups(&user, &ns_config, &contents);
            match setgroups {
                "deny" => {
                    assert_eq!(result.is_err(), user.additional_gids.is_some());
                    assert_eq!(0, got.len());
                }
                "allow" => {
                    assert!(result.is_ok());
                    assert_eq!(want.len(), got.len());
                    for gid in &want {
                        assert!(got.contains(gid));
                    }
                }
                _ => unreachable!("setgroups value unknown"),
            }
        }
    }
}

#[test]
fn an_empty_list_of_groups_is_not_set() {
    assert_eq!(set_supplementary_gids::start(&user(Some(vec![]))), None);
}

#[test]
fn denied_groups_are_an_error() {
    let (result, got) = set_groups(&user(Some(vec![33])), &None, " \tdeny\r\n");
    assert_eq!(result, Err(InitProcessError::SetGroupDisabled));
    assert_eq!(got, Vec::<u32>::new());
    let (result, got) = set_groups(&user(Some(vec![33])), &None, "denying");
    assert_eq!(result, Ok(()));
    assert_eq!(got, vec![33]);
}

#[test]
fn groups_of_an_unprivileged_user_namespace_are_not_gone_on_with() {
    let config = Some(UserNamespaceConfig { privileged: false });
    let step = set_supplementary_gids::Step::ReadSetgroups;
    let allowed: Reply<&'static str> = Reply::Contents(Ok("allow\n".to_string()));
    let denied: Reply<&'static str> = Reply::Contents(Ok("deny\n".to_string()));
    assert!(!set_supplementary_gids::admits(step, &config, &allowed));
    assert!(set_supplementary_gids::admits(step, &config, &denied));
    assert!(set_supplementary_gids::admits(step, &None, &allowed));
}

#[test]
fn group_errors_are_told_apart() {
    let read: Reply<&'static str> = Reply::Contents(Err(HostError::Other("no proc")));
    assert_eq!(
        set_supplementary_gids::reply(set_supplementary_gids::Step::ReadSetgroups, &None, read),
        Err(InitProcessError::Io(HostError::Other("no proc")))
    );
    let set: Reply<&'static str> = Reply::Outcome(failing(nix::errno::Errno::EPERM));
    assert_eq!(
        set_supplementary_gids::reply(set_supplementary_gids::Step::SetGroups, &None, set),
        Err(InitProcessError::SyscallOther(nix_error(nix::errno::Errno::EPERM)))
    );
}

#[test]
fn test_sync_seccomp() {
    let fd = nix::fcntl::open(
        "/dev/null",
        nix::fcntl::OFlag::O_RDONLY,
        nix::sys::stat::Mode::empty(),
    )
    .unwrap();
    let mut requested = false;
    let mut done = false;
    let mut next = Some(sync_seccomp::Step::Initialize);
    while let Some(step) = next {
        let received: Reply<&'static str> = match sync_seccomp::call(step) {
            Call::InitializeSeccomp => Reply::Notify(Ok(Some(fd))),
            Call::SeccompNotifyRequest(notify) => {
                assert_eq!(notify, fd);
                requested = true;
                Reply::Outcome(Ok(()))
            }
            Call::WaitForSeccompRequestDone => {
                assert!(requested);
                done = true;
                Reply::Outcome(Ok(()))
            }
            Call::Close(notify) => {
                assert!(done);
                assert!(nix::unistd::close(notify).is_ok());
                Reply::Outcome(Ok(()))
            }
            other => panic!("unexpected call: {:?}", other),
        };
        next = sync_seccomp::reply(step, received).unwrap();
    }
    // The descriptor is closed, so closing it again fails.
    assert_eq!(nix::errno::Errno::EBADF, nix::unistd::close(fd).unwrap_err());
}

#[test]
fn seccomp_without_notifications_is_not_synced() {
    let none: Reply<&'static str> = Reply::Notify(Ok(None));
    assert_eq!(sync_seccomp::reply(sync_seccomp::Step::Initialize, none), Ok(None));
}

#[test]
fn seccomp_errors_are_told_apart() {
    let profile: Reply<&'static str> = Reply::Notify(Err(HostError::Other("profile")));
    assert_eq!(
        sync_seccomp::reply(sync_seccomp::Step::Initialize, profile),
        Err(InitProcessError::Seccomp(HostError::Other("profile")))
    );
    let request: Reply<&'static str> = Reply::Outcome(Err(HostError::Other("pipe")));
    assert_eq!(
        sync_seccomp::reply(sync_seccomp::Step::Request { fd: 7 }, request),
        Err(InitProcessError::Channel(HostError::Other("pipe")))
    );
    let wait: Reply<&'static str> = Reply::Outcome(Err(HostError::Other("pipe")));
    assert_eq!(
        sync_seccomp::reply(sync_seccomp::Step::Wait { fd: 7 }, wait),
        Err(InitProcessError::Channel(HostError::Other("pipe")))
    );
    let close: Reply<&'static str> = Reply::Outcome(failing(nix::errno::Errno::EBADF));
    assert_eq!(sync_seccomp::reply(sync_seccomp::Step::Close { fd: 7 }, close), Ok(None));
}

fn library_priority(priority: &oci_spec::runtime::LinuxIOPriority) -> LinuxIOPriority {
    LinuxIOPriority {
        class: match priority.class() {
            oci_spec::runtime::IOPriorityClass::IoprioClassRt => IOPriorityClass::IoprioClassRt,
            oci_spec::runtime::IOPriorityClass::IoprioClassBe => IOPriorityClass::IoprioClassBe,
            oci_spec::runtime::IOPriorityClass::IoprioClassIdle => {
                IOPriorityClass::IoprioClassIdle
            }
        },
        priority: priority.priority(),
    }
}

#[test]
fn test_set_io_priority() {
    let none: Result<Option<(i64, i64)>, Failure> = set_io_priority(&None);
    assert!(none.is_ok());
    assert_eq!(none, Ok(None));

    let data = "{\"class\":\"IOPRIO_CLASS_RT\",\"priority\":1}";
    let iop: oci_spec::runtime::LinuxIOPriority = serde_json::from_str(data).unwrap();
    let set: Result<Option<(i64, i64)>, Failure> = set_io_priority(&Some(library_priority(&iop)));
    assert!(set.is_ok());
    assert_eq!(set, Ok(Some((1, 1))));
}

#[test]
fn every_io_class_has_its_number() {
    for (class, number) in [
        (IOPriorityClass::IoprioClassRt, 1),
        (IOPriorityClass::IoprioClassBe, 2),
        (IOPriorityClass::IoprioClassIdle, 3),
    ] {
        let set: Result<Option<(i64, i64)>, Failure> =
            set_io_priority(&Some(LinuxIOPriority { class, priority: 7 }));
        assert_eq!(set, Ok(Some((number, 7))));
    }
}

#[test]
fn io_class_is_found_by_its_name_in_json() {
    let found = |json: Result<&str, &str>| -> Result<i64, Failure> {
        io_priority_class(json.map(|text| text.to_string()).map_err(|text| text.to_string()))
    };
    assert_eq!(found(Ok("\"IOPRIO_CLASS_RT\"")), Ok(1));
    assert_eq!(found(Ok("\"IOPRIO_CLASS_BE\"")), Ok(2));
    assert_eq!(found(Ok("\"IOPRIO_CLASS_IDLE\"")), Ok(3));
    assert_eq!(
        found(Ok("IOPRIO_CLASS_RT")),
        Err(InitProcessError::IoPriorityClass("IOPRIO_CLASS_RT".to_string()))
    );
    assert_eq!(
        found(Err("not written")),
        Err(InitProcessError::IoPriorityClass("not written".to_string()))
    );
}

/// Looks at the standard descriptors, which stand for the given devices, and gives the
/// calls that it takes.
fn reopen(dev: i32, rdev: u64, stdio: [u64; 3]) -> Vec<Call> {
    let mut calls = vec![];
    let mut next = Some(reopen_dev_null::Step::Open);
    while let Some(step) = next {
        let call = reopen_dev_null::call(step);
        let received: Reply<&'static str> = match &call {
            Call::Open(path) => {
                assert_eq!(*path, FsPath::new("/dev/null"));
                Reply::Descriptor(Ok(dev))
            }
            Call::Fstat(fd) if *fd == dev => Reply::Device(Ok(rdev)),
            Call::Fstat(fd) => Reply::Device(Ok(stdio[*fd as usize])),
            _ => Reply::Outcome(Ok(())),
        };
        calls.push(call);
        next = reopen_dev_null::reply(step, received).unwrap();
    }
    calls
}

#[test]
fn descriptors_of_dev_null_are_redirected() {
    assert_eq!(
        reopen(9, 259, [259, 34816, 259]),
        vec![
            Call::Open(FsPath::new("/dev/null")),
            Call::Fstat(9),
            Call::Fstat(0),
            Call::Dup2 { from: 9, to: 0 },
            Call::Fstat(1),
            Call::Fstat(2),
            Call::Dup2 { from: 9, to: 2 },
            Call::Close(9),
        ]
    );
    assert_eq!(
        reopen(9, 259, [1, 2, 3]),
        vec![
            Call::Open(FsPath::new("/dev/null")),
            Call::Fstat(9),
            Call::Fstat(0),
            Call::Fstat(1),
            Call::Fstat(2),
            Call::Close(9),
        ]
    );
}

#[test]
fn an_open_dev_null_is_released_after_a_failure() {
    let last = Some(reopen_dev_null::Step::Release { dev: 9 });
    assert_eq!(reopen_dev_null::release(reopen_dev_null::Step::Open), None);
    assert_eq!(
        reopen_dev_null::release(reopen_dev_null::Step::StatDevNull { dev: 9 }),
        last
    );
    assert_eq!(
        reopen_dev_null::release(reopen_dev_null::Step::StatStdio { dev: 9, rdev: 1, fd: 0 }),
        last
    );
    assert_eq!(
        reopen_dev_null::release(reopen_dev_null::Step::Redirect { dev: 9, rdev: 1, fd: 2 }),
        last
    );
    assert_eq!(reopen_dev_null::release(reopen_dev_null::Step::Release { dev: 9 }), None);
}

#[test]
fn dev_null_errors_are_told_apart() {
    let open: Reply<&'static str> = Reply::Descriptor(Err(HostError::Other("gone")));
    assert_eq!(
        reopen_dev_null::reply(reopen_dev_null::Step::Open, open),
        Err(InitProcessError::ReopenDevNull(HostError::Other("gone")))
    );
    let bad = || nix_error(nix::errno::Errno::EBADF);
    assert_eq!(
        reopen_dev_null::reply(
            reopen_dev_null::Step::StatDevNull { dev: 9 },
            Reply::Device(Err(bad()))
        ),
        Err(InitProcessError::NixOther(bad()))
    );
    assert_eq!(
        reopen_dev_null::reply(
            reopen_dev_null::Step::StatStdio { dev: 9, rdev: 1, fd: 1 },
            Reply::Device(Err(bad()))
        ),
        Err(InitProcessError::NixOther(bad()))
    );
    assert_eq!(
        reopen_dev_null::reply(
            reopen_dev_null::Step::Redirect { dev: 9, rdev: 1, fd: 1 },
            Reply::Outcome(Err(bad()))
        ),
        Err(InitProcessError::NixOther(bad()))
    );
    assert_eq!(
        reopen_dev_null::reply(
            reopen_dev_null::Step::Release { dev: 9 },
            Reply::Outcome(Err(bad()))
        ),
        Ok(None)
    );
}

#[test]
fn a_mount_is_detached_or_hidden() {
    let sys = FsPath::new("/sys");
    assert_eq!(
        unmount_or_hide::call(unmount_or_hide::Step::Unmount, &sys),
        Call::Umount2 { target: FsPath::new("/sys"), flags: MntFlags::MNT_DETACH.bits() }
    );
    assert_eq!(
        unmount_or_hide::call(unmount_or_hide::Step::Hide, &sys),
        Call::Mount(MountArgs {
            source: None,
            target: FsPath::new("/sys"),
            fstype: Some("tmpfs".to_string()),
            flags: MsFlags::MS_RDONLY.bits(),
            data: Some("size=0k".to_string()),
        })
    );
    let unmounted: Outcome<&'static str> = Ok(());
    assert_eq!(unmount_or_hide::reply(unmount_or_hide::Step::Unmount, unmounted), Ok(None));
    assert_eq!(
        unmount_or_hide::reply(
            unmount_or_hide::Step::Unmount,
            failing(nix::errno::Errno::EINVAL)
        ),
        Ok(Some(unmount_or_hide::Step::Hide))
    );
    assert_eq!(
        unmount_or_hide::reply(unmount_or_hide::Step::Unmount, failing(nix::errno::Errno::EPERM)),
        Err(InitProcessError::SyscallOther(nix_error(nix::errno::Errno::EPERM)))
    );
    assert_eq!(
        unmount_or_hide::reply(unmount_or_hide::Step::Hide, failing(nix::errno::Errno::EINVAL)),
        Err(InitProcessError::SyscallOther(nix_error(nix::errno::Errno::EINVAL)))
    );
}

#[test]
fn the_root_is_moved_without_pivoting() {
    let rootfs = FsPath::new("/run/bundle/rootfs");
    let mut calls = vec![];
    let mut next = Some(move_root::Step::EnterRootfs);
    while let Some(step) = next {
        let call = move_root::call(step, &rootfs);
        // /proc cannot be unmounted here, /sys can.
        let outcome: Outcome<&'static str> = match step {
            move_root::Step::Proc(unmount_or_hide::Step::Unmount) => {
                failing(nix::errno::Errno::EINVAL)
            }
            _ => Ok(()),
        };
        calls.push(call);
        next = move_root::reply(step, outcome).unwrap();
    }
    assert_eq!(
        calls,
        vec![
            Call::Chdir(rootfs.clone()),
            Call::Umount2 { target: FsPath::new("/sys"), flags: 2 },
            Call::Umount2 { target: FsPath::new("/proc"), flags: 2 },
            Call::Mount(MountArgs {
                source: None,
                target: FsPath::new("/proc"),
                fstype: Some("tmpfs".to_string()),
                flags: 1,
                data: Some("size=0k".to_string()),
            }),
            Call::Mount(MountArgs {
                source: Some(rootfs.clone()),
                target: FsPath::new("/"),
                fstype: None,
                flags: MsFlags::MS_MOVE.bits(),
                data: None,
            }),
            Call::Chroot(FsPath::new(".")),
            Call::Chdir(FsPath::new("/")),
        ]
    );
}

#[test]
fn errors_of_moving_the_root_are_told_apart() {
    let fails = |step: move_root::Step| -> Result<Option<move_root::Step>, Failure> {
        move_root::reply(step, failing(nix::errno::Errno::EBUSY))
    };
    let busy = || nix_error(nix::errno::Errno::EBUSY);
    assert_eq!(fails(move_root::Step::EnterRootfs), Err(InitProcessError::NixOther(busy())));
    assert_eq!(
        fails(move_root::Step::Sys(unmount_or_hide::Step::Unmount)),
        Err(InitProcessError::SyscallOther(busy()))
    );
    assert_eq!(fails(move_root::Step::MoveMount), Err(InitProcessError::SyscallOther(busy())));
    assert_eq!(fails(move_root::Step::Chroot), Err(InitProcessError::SyscallOther(busy())));
    assert_eq!(fails(move_root::Step::EnterRoot), Err(InitProcessError::NixOther(busy())));
}

#[test]
fn the_mount_namespace_decides_how_the_root_is_entered() {
    let after = |no_pivot: bool, namespace: Option<Namespace>| {
        let received: Reply<&'static str> = Reply::Namespace(Ok(namespace));
        do_pivot_root::reply(do_pivot_root::Step::LookUp, no_pivot, received)
    };
    let own = || Some(Namespace { path: None });
    assert_eq!(after(false, own()), Ok(Some(do_pivot_root::Step::Pivot)));
    assert_eq!(
        after(true, own()),
        Ok(Some(do_pivot_root::Step::MoveRoot(move_root::Step::EnterRootfs)))
    );
    assert_eq!(after(false, None), Ok(Some(do_pivot_root::Step::Chroot)));
    assert_eq!(after(true, None), Ok(Some(do_pivot_root::Step::Chroot)));

    let rootfs = FsPath::new("/rootfs");
    assert_eq!(
        do_pivot_root::call(do_pivot_root::Step::Pivot, &rootfs),
        Call::PivotRootfs(FsPath::new("/rootfs"))
    );
    assert_eq!(
        do_pivot_root::call(do_pivot_root::Step::Chroot, &rootfs),
        Call::Chroot(FsPath::new("/rootfs"))
    );
    let refused: Reply<&'static str> = Reply::Outcome(failing(nix::errno::Errno::EPERM));
    assert_eq!(
        do_pivot_root::reply(do_pivot_root::Step::Pivot, false, refused),
        Err(InitProcessError::SyscallOther(nix_error(nix::errno::Errno::EPERM)))
    );
}

#[test]
fn devices_are_bound_in_a_user_namespace() {
    for (in_user_ns, user, bind_service) in
        [(false, false, false), (true, false, true), (false, true, true), (true, true, true)]
    {
        let probe: Reply<&'static str> = Reply::Userns(Ok(in_user_ns));
        let step = prepare_rootfs::reply(prepare_rootfs::Step::Probe, probe).unwrap().unwrap();
        let namespace = if user { Some(Namespace { path: None }) } else { None };
        let found: Reply<&'static str> = Reply::Namespace(Ok(namespace));
        let step = prepare_rootfs::reply(step, found).unwrap().unwrap();
        let cgroup: Reply<&'static str> = Reply::Namespace(Ok(None));
        let step = prepare_rootfs::reply(step, cgroup).unwrap().unwrap();
        assert_eq!(
            prepare_rootfs::call(step),
            Call::PrepareRootfs { bind_service, cgroup_ns: false }
        );
    }
    let probe: Reply<&'static str> = Reply::Userns(Err(HostError::Other("proc")));
    assert_eq!(
        prepare_rootfs::reply(prepare_rootfs::Step::Probe, probe),
        Err(InitProcessError::Io(HostError::Other("proc")))
    );
    let prepare = prepare_rootfs::Step::Prepare { bind_service: true, cgroup_ns: true };
    let failed: Reply<&'static str> = Reply::Outcome(Err(HostError::Other("mount")));
    assert_eq!(
        prepare_rootfs::reply(prepare, failed),
        Err(InitProcessError::RootFS(HostError::Other("mount")))
    );
}

#[test]
fn the_root_is_remounted_in_place() {
    assert_eq!(
        readonly_root::call(),
        Call::Mount(MountArgs {
            source: None,
            target: FsPath::new("/"),
            fstype: None,
            flags: (MsFlags::MS_RDONLY | MsFlags::MS_REMOUNT | MsFlags::MS_BIND).bits(),
            data: None,
        })
    );
}

fn parameter(name: &str, value: &str) -> (FsPath, Vec<u8>) {
    match sysctl::call(&name.to_string(), &value.to_string()) {
        Call::WriteFile { path, contents } => (path, contents),
        other => panic!("not a write: {:?}", other),
    }
}

#[test]
fn kernel_parameters_are_files() {
    assert_eq!(
        parameter("net.ipv4.ip_forward", "1"),
        (FsPath::new("/proc/sys/net/ipv4/ip_forward"), vec![b'1'])
    );
    assert_eq!(
        parameter("kernel/dömain", "ä"),
        (FsPath::new("/proc/sys/kernel/dömain"), "ä".as_bytes().to_vec())
    );
    assert_eq!(parameter("", ""), (FsPath::new("/proc/sys/"), vec![]));
}

#[test]
fn a_parameter_has_no_dots_in_its_path() {
    assert_eq!(parameter("net/ipv4/ip_forward", ""), parameter("net.ipv4.ip_forward", ""));
    assert_eq!(parameter("net...x", "").0, FsPath::new("/proc/sys/net///x"));
    assert!(!parameter("a..b/../c", "").0.bytes.contains(&b'.'));
}

#[test]
fn a_parameter_that_starts_with_a_dot_is_an_absolute_path() {
    assert_eq!(parameter(".etc.x", "").0, FsPath::new("/etc/x"));
}

#[test]
fn announced_descriptors_are_kept_open() {
    let keep = |preserve_fds: i32, variable: Variable| {
        let mut envs = Envs::new();
        assert!(listen_fds::admits(preserve_fds, &variable));
        let total = listen_fds::keep_open(preserve_fds, &variable, &mut envs);
        let value = |name: &str| envs.get(name).map(|value| value.to_string());
        (total, value("LISTEN_FDS"), value("LISTEN_PID"))
    };
    let present = |text: &str| Variable::Present(text.to_string());
    assert_eq!(keep(2, present("3")), (5, Some("3".to_string()), Some("1".to_string())));
    assert_eq!(keep(2, present("+012")), (14, Some("12".to_string()), Some("1".to_string())));
    assert_eq!(keep(2, present("0")), (2, None, None));
    assert_eq!(keep(2, present("-1")), (1, None, None));
    assert_eq!(keep(2, present("three")), (2, None, None));
    assert_eq!(keep(2, present(" 3")), (2, None, None));
    assert_eq!(keep(2, present("")), (2, None, None));
    assert_eq!(keep(2, present("2147483648")), (2, None, None));
    assert_eq!(keep(2, Variable::NotPresent), (2, None, None));
    assert_eq!(keep(2, Variable::NotUnicode), (2, None, None));
}

#[test]
fn too_many_descriptors_are_not_gone_on_with() {
    let most = Variable::Present("2147483647".to_string());
    assert!(listen_fds::admits(0, &most));
    assert!(!listen_fds::admits(1, &most));
    let least = Variable::Present("-2147483648".to_string());
    assert!(listen_fds::admits(0, &least));
    assert!(!listen_fds::admits(-1, &least));
}

#[test]
fn the_working_directory_has_to_be_absolute() {
    let verdict = |cwd: Result<FsPath, HostError<&'static str>>| -> Result<(), Failure> {
        verify_cwd::verify_cwd(cwd)
    };
    assert_eq!(verdict(Ok(FsPath::new("/"))), Ok(()));
    assert_eq!(verdict(Ok(FsPath::new("/var/lib"))), Ok(()));
    assert_eq!(
        verdict(Ok(FsPath::new("(unreachable)/var"))),
        Err(InitProcessError::InvalidCwd(nix_error(nix::errno::Errno::ENOENT)))
    );
    assert_eq!(
        verdict(Ok(FsPath::new(""))),
        Err(InitProcessError::InvalidCwd(nix_error(nix::errno::Errno::ENOENT)))
    );
    assert_eq!(
        verdict(Err(nix_error(nix::errno::Errno::ENOENT))),
        Err(InitProcessError::InvalidCwd(nix_error(nix::errno::Errno::ENOENT)))
    );
    assert_eq!(
        verdict(Err(nix_error(nix::errno::Errno::EACCES))),
        Err(InitProcessError::NixOther(nix_error(nix::errno::Errno::EACCES)))
    );
}
