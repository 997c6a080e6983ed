//! The stages of the init process: what each asks of the host, and what its answer leads
//! to.

use crate::abi::KnownErrno;
use crate::call::{text_option, Call, CallView, HookPoint, Reply, ReplyKind};
use crate::context::InitContext;
use crate::envs::Envs;
use crate::error::{HostError, InitErrorView, InitProcessError, MissingSpecError};
use crate::path::FsPath;
use crate::plan::{spec_tail, tail};
use crate::procedures::{
    apply_rest_namespaces, do_pivot_root, listen_fds, masked_path, prepare_rootfs, readonly_path,
    readonly_root, reopen_dev_null, set_supplementary_gids, sync_seccomp, sysctl, verify_cwd,
};
use crate::scheduler::SchedAttr;
use crate::text::{decimal, i32_to_string, lossy_text, to_string_lossy};
use vstd::prelude::*;
use vstd::utf8::encode_utf8;

verus! {

/// When the seccomp profile is installed. Unless new privileges are forbidden to the process
/// that is a privileged operation, which has to come before capabilities are dropped; else
/// it comes as close to the payload as possible.
#[derive(Debug, Clone, Copy, PartialEq, Eq, Structural)]
pub enum SeccompTiming {
    BeforeCapabilities,
    BeforePayload,
}

/// One call of the init process. Numbered stages refer to the lists of the context.
#[derive(Debug, Clone, Copy, PartialEq, Eq, Structural)]
pub enum Stage {
    SetSid,
    IoPriority { class: i64, priority: i64 },
    Scheduler(SchedAttr),
    Console(i32),
    StdioDup { from: i32, to: i32 },
    StdioClose(i32),
    RestNamespaces(apply_rest_namespaces::Step),
    NoNewPrivileges,
    CreateContainerHooks,
    PrepareRootfs(prepare_rootfs::Step),
    PivotRoot(do_pivot_root::Step),
    RootPropagation,
    DevNull(reopen_dev_null::Step),
    Sysctl(usize),
    AppArmor,
    ReadonlyRoot,
    Umask(u32),
    InvalidUmask(u32),
    ReadonlyPath(usize, readonly_path::Step),
    MaskedPath(usize, masked_path::Step),
    Chdir,
    Gids(set_supplementary_gids::Step),
    SetId,
    ListenFds,
    CloseRange(i32),
    Seccomp(SeccompTiming, sync_seccomp::Step),
    ResetEffective,
    DropPrivileges,
    ChdirAgain,
    VerifyCwd,
    UserHome,
    Validate,
    SetupEnvs,
    InitReady,
    CloseMainSender,
    WaitForStart,
    CloseNotifyListener,
    StartContainerHooks,
    MissingArgs,
    Exec,
}

/// The kernel parameters of a context.
pub open spec fn parameters(ctx: InitContext) -> Seq<(String, String)> {
    match ctx.linux.sysctl {
        Some(parameters) => parameters@,
        None => seq![],
    }
}

/// The texts of an optional list.
pub open spec fn paths(list: Option<Vec<String>>) -> Seq<String> {
    match list {
        Some(paths) => paths@,
        None => seq![],
    }
}

/// Whether the context has what the stage refers to.
pub open spec fn valid(ctx: InitContext, stage: Stage) -> bool {
    match stage {
        Stage::RestNamespaces(step) => apply_rest_namespaces::valid(
            step,
            text_option(ctx.hostname),
            text_option(ctx.domainname),
        ),
        Stage::DevNull(step) => reopen_dev_null::valid(step),
        Stage::Sysctl(i) => i < parameters(ctx).len(),
        Stage::AppArmor => ctx.process.apparmor_profile is Some,
        Stage::ReadonlyPath(i, _) => i < paths(ctx.linux.readonly_paths).len(),
        Stage::MaskedPath(i, _) => i < paths(ctx.linux.masked_paths).len(),
        _ => true,
    }
}

/// The error of a stage that makes no call, but ends the process.
pub open spec fn rejection<E>(stage: Stage) -> Option<InitErrorView<E>> {
    match stage {
        Stage::InvalidUmask(bits) => Some(InitProcessError::InvalidUmask(bits)),
        Stage::MissingArgs => Some(InitProcessError::MissingSpec(MissingSpecError::Args)),
        _ => None,
    }
}

/// Whether a stage ends the process instead of making a call.
pub open spec fn rejects(stage: Stage) -> bool {
    stage is InvalidUmask || stage is MissingArgs
}

/// The kind of answer that a stage gets.
pub open spec fn spec_answer(stage: Stage) -> ReplyKind {
    match stage {
        Stage::RestNamespaces(step) => apply_rest_namespaces::answer(step),
        Stage::PrepareRootfs(step) => prepare_rootfs::answer(step),
        Stage::PivotRoot(step) => do_pivot_root::answer(step),
        Stage::DevNull(step) => reopen_dev_null::answer(step),
        Stage::Gids(step) => set_supplementary_gids::answer(step),
        Stage::Seccomp(_, step) => sync_seccomp::answer(step),
        Stage::ListenFds => ReplyKind::Variable,
        Stage::VerifyCwd => ReplyKind::Directory,
        Stage::UserHome => ReplyKind::Home,
        _ => ReplyKind::Outcome,
    }
}

/// The call that a stage makes, with the environment of the payload as it is by then.
pub open spec fn spec_call(
    ctx: InitContext,
    envs: Map<Seq<char>, Seq<char>>,
    stage: Stage,
) -> CallView {
    match stage {
        Stage::SetSid => CallView::SetSid,
        Stage::IoPriority { class, priority } => CallView::SetIoPriority { class, priority },
        Stage::Scheduler(attr) => CallView::SchedSetattr { pid: 0, attr, call_flags: 0 },
        Stage::Console(fd) => CallView::SetupConsole(fd),
        Stage::StdioDup { from, to } => CallView::Dup2 { from, to },
        Stage::StdioClose(fd) => CallView::Close(fd),
        Stage::RestNamespaces(step) => apply_rest_namespaces::spec_call(
            step,
            text_option(ctx.hostname),
            text_option(ctx.domainname),
        ),
        Stage::NoNewPrivileges => CallView::SetNoNewPrivileges,
        Stage::CreateContainerHooks => CallView::RunHooks(HookPoint::CreateContainer),
        Stage::PrepareRootfs(step) => prepare_rootfs::spec_call(step),
        Stage::PivotRoot(step) => do_pivot_root::spec_call(step, ctx.rootfs@),
        Stage::RootPropagation => CallView::AdjustRootMountPropagation,
        Stage::DevNull(step) => reopen_dev_null::spec_call(step),
        Stage::Sysctl(i) => sysctl::spec_call(
            parameters(ctx)[i as int].0@,
            parameters(ctx)[i as int].1@,
        ),
        Stage::AppArmor => CallView::ApplyProfile(ctx.process.apparmor_profile->0@),
        Stage::ReadonlyRoot => readonly_root::spec_call(),
        Stage::Umask(mode) => CallView::Umask(mode),
        Stage::ReadonlyPath(i, step) => readonly_path::spec_call(
            step,
            encode_utf8(paths(ctx.linux.readonly_paths)[i as int]@),
        ),
        Stage::MaskedPath(i, step) => masked_path::spec_call(
            step,
            encode_utf8(paths(ctx.linux.masked_paths)[i as int]@),
            text_option(ctx.linux.mount_label),
        ),
        Stage::Chdir => CallView::Chdir(ctx.process.cwd@),
        Stage::Gids(step) => set_supplementary_gids::spec_call(
            step,
            set_supplementary_gids::gids(ctx.process.user),
        ),
        Stage::SetId => CallView::SetId { uid: ctx.process.user.uid, gid: ctx.process.user.gid },
        Stage::ListenFds => CallView::ReadVariable("LISTEN_FDS"@),
        Stage::CloseRange(preserve_fds) => CallView::CloseRange(preserve_fds),
        Stage::Seccomp(_, step) => sync_seccomp::spec_call(step),
        Stage::ResetEffective => CallView::ResetEffective,
        Stage::DropPrivileges => CallView::DropPrivileges,
        Stage::ChdirAgain => CallView::Chdir(ctx.process.cwd@),
        Stage::VerifyCwd => CallView::GetCwd,
        Stage::UserHome => CallView::GetUserHome(ctx.process.user.uid),
        Stage::Validate => CallView::Validate,
        Stage::SetupEnvs => CallView::SetupEnvs(envs),
        Stage::InitReady => CallView::InitReady,
        Stage::CloseMainSender => CallView::CloseMainSender,
        Stage::WaitForStart => CallView::WaitForContainerStart,
        Stage::CloseNotifyListener => CallView::CloseNotifyListener,
        Stage::StartContainerHooks => CallView::RunHooks(HookPoint::StartContainer),
        _ => CallView::Exec,
    }
}

/// The error that a failed call becomes, where the stage has no rule of its own.
pub open spec fn stage_error<E>(stage: Stage, err: HostError<E>) -> InitErrorView<E> {
    match stage {
        Stage::SetSid => InitProcessError::NixOther(err),
        Stage::Console(_) => InitProcessError::Tty(err),
        Stage::StdioDup { .. } => InitProcessError::NixOther(err),
        Stage::StdioClose(_) => InitProcessError::NixOther(err),
        Stage::CreateContainerHooks => InitProcessError::Hooks(err),
        Stage::RootPropagation => InitProcessError::RootFS(err),
        Stage::Sysctl(_) => InitProcessError::Sysctl(err),
        Stage::AppArmor => InitProcessError::AppArmor(err),
        Stage::ChdirAgain => InitProcessError::NixOther(err),
        Stage::Validate => InitProcessError::WorkloadValidation(err),
        Stage::SetupEnvs => InitProcessError::WorkloadSetEnvs(err),
        Stage::InitReady => InitProcessError::Channel(err),
        Stage::CloseMainSender => InitProcessError::Channel(err),
        Stage::WaitForStart => InitProcessError::NotifyListener(err),
        Stage::CloseNotifyListener => InitProcessError::NotifyListener(err),
        Stage::StartContainerHooks => InitProcessError::Hooks(err),
        Stage::Exec => InitProcessError::Workload(err),
        _ => InitProcessError::SyscallOther(err),
    }
}

/// The stage of the step that follows in a procedure.
pub open spec fn continued<S, E>(
    next: Result<Option<S>, InitErrorView<E>>,
    stage: spec_fn(S) -> Stage,
) -> Result<Seq<Stage>, InitErrorView<E>> {
    match next {
        Ok(Some(step)) => Ok(seq![stage(step)]),
        Ok(None) => Ok(seq![]),
        Err(err) => Err(err),
    }
}

/// The stages that the answer to a stage brings up, to be gone through before all others,
/// or the error that it ends the process with.
pub open spec fn spec_respond<E>(ctx: InitContext, stage: Stage, reply: Reply<E>) -> Result<
    Seq<Stage>,
    InitErrorView<E>,
> {
    match (stage, reply) {
        (Stage::RestNamespaces(step), _) => continued(
            apply_rest_namespaces::spec_reply(
                step,
                ctx.hostname is Some,
                ctx.domainname is Some,
                reply,
            ),
            |step| Stage::RestNamespaces(step),
        ),
        (Stage::PrepareRootfs(step), _) => continued(
            prepare_rootfs::spec_reply(step, reply),
            |step| Stage::PrepareRootfs(step),
        ),
        (Stage::PivotRoot(step), _) => continued(
            do_pivot_root::spec_reply(step, ctx.no_pivot, reply),
            |step| Stage::PivotRoot(step),
        ),
        (Stage::DevNull(step), _) => continued(
            reopen_dev_null::spec_reply(step, reply),
            |step| Stage::DevNull(step),
        ),
        (Stage::Gids(step), _) => continued(
            set_supplementary_gids::spec_reply(step, reply),
            |step| Stage::Gids(step),
        ),
        (Stage::Seccomp(timing, step), _) => continued(
            sync_seccomp::spec_reply(step, reply),
            |step| Stage::Seccomp(timing, step),
        ),
        (Stage::ReadonlyPath(i, step), Reply::Outcome(outcome)) => continued(
            readonly_path::spec_reply(step, outcome),
            |step| Stage::ReadonlyPath(i, step),
        ),
        (Stage::MaskedPath(i, step), Reply::Outcome(outcome)) => continued(
            masked_path::spec_reply(step, outcome),
            |step| Stage::MaskedPath(i, step),
        ),
        (Stage::Chdir, Reply::Outcome(outcome)) => match outcome {
            Ok(_) => Ok(spec_tail(ctx, false)),
            Err(err) => if err.is_errno(KnownErrno::NotPermitted) {
                Ok(spec_tail(ctx, true))
            } else {
                Err(InitProcessError::NixOther(err))
            },
        },
        (Stage::ListenFds, Reply::Variable(variable)) => Ok(
            seq![Stage::CloseRange(listen_fds::kept_open(ctx.preserve_fds, variable))],
        ),
        (Stage::VerifyCwd, Reply::Directory(cwd)) => match verify_cwd::spec_verify_cwd(cwd) {
            Ok(_) => Ok(seq![]),
            Err(err) => Err(err),
        },
        (Stage::NoNewPrivileges, _) => Ok(seq![]),
        (Stage::Scheduler(_), Reply::Outcome(Err(HostError::Nix(errno)))) => Err(
            InitProcessError::SchedSetattr(decimal(errno.code as int)),
        ),
        (_, Reply::Outcome(Err(err))) => Err(stage_error(stage, err)),
        _ => Ok(seq![]),
    }
}

/// What is left to do when a stage has ended the process.
pub open spec fn spec_cleanup(stage: Stage) -> Seq<Stage> {
    match stage {
        Stage::DevNull(step) => match reopen_dev_null::spec_release(step) {
            Some(last) => seq![Stage::DevNull(last)],
            None => seq![],
        },
        _ => seq![],
    }
}

/// The stages that come right after a stage, by the answer to it.
pub open spec fn brought_up<E>(ctx: InitContext, stage: Stage, reply: Reply<E>) -> Seq<Stage> {
    match spec_respond(ctx, stage, reply) {
        Ok(stages) => stages,
        Err(_) => spec_cleanup(stage),
    }
}

/// The environment of the payload after the answer to a stage.
pub open spec fn spec_envs<E>(
    envs: Map<Seq<char>, Seq<char>>,
    stage: Stage,
    reply: Reply<E>,
) -> Map<Seq<char>, Seq<char>> {
    match (stage, reply) {
        (Stage::ListenFds, Reply::Variable(variable)) => listen_fds::spec_envs(envs, variable),
        (Stage::UserHome, Reply::Home(Some(home))) => envs.insert("HOME"@, lossy_text(home@)),
        _ => envs,
    }
}

/// Whether an answer can be gone on from: it is of the right kind, a payload that was
/// executed does not come back, `umask(2)` does not fail, `sched_setattr(2)` fails with an
/// error number, and the procedures admit it.
pub open spec fn spec_accepts<E>(ctx: InitContext, stage: Stage, reply: Reply<E>) -> bool {
    &&& !rejects(stage)
    &&& reply.spec_kind() == spec_answer(stage)
    &&& match (stage, reply) {
        (Stage::Exec, Reply::Outcome(outcome)) => outcome is Err,
        (Stage::Umask(_), Reply::Outcome(outcome)) => outcome is Ok,
        (Stage::Scheduler(_), Reply::Outcome(Err(err))) => err is Nix,
        (Stage::ListenFds, Reply::Variable(variable)) => listen_fds::spec_admits(
            ctx.preserve_fds,
            variable,
        ),
        (Stage::Gids(step), _) => set_supplementary_gids::spec_admits(
            step,
            ctx.user_ns_config,
            reply,
        ),
        _ => true,
    }
}

/// The kind of answer that a stage gets.
pub fn answer(stage: Stage) -> (kind: ReplyKind)
    ensures
        kind == spec_answer(stage),
{
    match stage {
        Stage::RestNamespaces(apply_rest_namespaces::Step::LookUpUts) => ReplyKind::Namespace,
        Stage::PrepareRootfs(prepare_rootfs::Step::Probe) => ReplyKind::Userns,
        Stage::PrepareRootfs(prepare_rootfs::Step::LookUpUser { .. }) => ReplyKind::Namespace,
        Stage::PrepareRootfs(prepare_rootfs::Step::LookUpCgroup { .. }) => ReplyKind::Namespace,
        Stage::PivotRoot(do_pivot_root::Step::LookUp) => ReplyKind::Namespace,
        Stage::DevNull(reopen_dev_null::Step::Open) => ReplyKind::Descriptor,
        Stage::DevNull(reopen_dev_null::Step::StatDevNull { .. }) => ReplyKind::Device,
        Stage::DevNull(reopen_dev_null::Step::StatStdio { .. }) => ReplyKind::Device,
        Stage::Gids(set_supplementary_gids::Step::ReadSetgroups) => ReplyKind::Contents,
        Stage::Seccomp(_, sync_seccomp::Step::Initialize) => ReplyKind::Notify,
        Stage::ListenFds => ReplyKind::Variable,
        Stage::VerifyCwd => ReplyKind::Directory,
        Stage::UserHome => ReplyKind::Home,
        _ => ReplyKind::Outcome,
    }
}

/// The call that a stage makes.
pub fn call(ctx: &InitContext, envs: &Envs, stage: Stage) -> (call: Call)
    requires
        valid(*ctx, stage),
        !rejects(stage),
    ensures
        call@ == spec_call(*ctx, envs@, stage),
{
    match stage {
        Stage::SetSid => Call::SetSid,
        Stage::IoPriority { class, priority } => Call::SetIoPriority { class, priority },
        Stage::Scheduler(attr) => Call::SchedSetattr { pid: 0, attr, call_flags: 0 },
        Stage::Console(fd) => Call::SetupConsole(fd),
        Stage::StdioDup { from, to } => Call::Dup2 { from, to },
        Stage::StdioClose(fd) => Call::Close(fd),
        Stage::RestNamespaces(step) => apply_rest_namespaces::call(
            step,
            &ctx.hostname,
            &ctx.domainname,
        ),
        Stage::NoNewPrivileges => Call::SetNoNewPrivileges,
        Stage::CreateContainerHooks => Call::RunHooks(HookPoint::CreateContainer),
        Stage::PrepareRootfs(step) => prepare_rootfs::call(step),
        Stage::PivotRoot(step) => do_pivot_root::call(step, &ctx.rootfs),
        Stage::RootPropagation => Call::AdjustRootMountPropagation,
        Stage::DevNull(step) => reopen_dev_null::call(step),
        Stage::Sysctl(i) => {
            let parameters: &Vec<(String, String)> = ctx.linux.sysctl.as_ref().unwrap();
            sysctl::call(&parameters[i].0, &parameters[i].1)
        },
        Stage::AppArmor => Call::ApplyProfile(
            ctx.process.apparmor_profile.as_ref().unwrap().clone(),
        ),
        Stage::ReadonlyRoot => readonly_root::call(),
        Stage::Umask(mode) => Call::Umask(mode),
        Stage::ReadonlyPath(i, step) => {
            let paths: &Vec<String> = ctx.linux.readonly_paths.as_ref().unwrap();
            readonly_path::call(step, &FsPath::new(paths[i].as_str()))
        },
        Stage::MaskedPath(i, step) => {
            let paths: &Vec<String> = ctx.linux.masked_paths.as_ref().unwrap();
            masked_path::call(step, &FsPath::new(paths[i].as_str()), &ctx.linux.mount_label)
        },
        Stage::Chdir => Call::Chdir(ctx.process.cwd.clone()),
        Stage::Gids(step) => set_supplementary_gids::call(step, &ctx.process.user),
        Stage::SetId => Call::SetId { uid: ctx.process.user.uid, gid: ctx.process.user.gid },
        Stage::ListenFds => Call::ReadVariable("LISTEN_FDS".to_owned()),
        Stage::CloseRange(preserve_fds) => Call::CloseRange(preserve_fds),
        Stage::Seccomp(_, step) => sync_seccomp::call(step),
        Stage::ResetEffective => Call::ResetEffective,
        Stage::DropPrivileges => Call::DropPrivileges,
        Stage::ChdirAgain => Call::Chdir(ctx.process.cwd.clone()),
        Stage::VerifyCwd => Call::GetCwd,
        Stage::UserHome => Call::GetUserHome(ctx.process.user.uid),
        Stage::Validate => Call::Validate,
        Stage::SetupEnvs => Call::SetupEnvs(envs.copy()),
        Stage::InitReady => Call::InitReady,
        Stage::CloseMainSender => Call::CloseMainSender,
        Stage::WaitForStart => Call::WaitForContainerStart,
        Stage::CloseNotifyListener => Call::CloseNotifyListener,
        Stage::StartContainerHooks => Call::RunHooks(HookPoint::StartContainer),
        _ => Call::Exec,
    }
}

/// Whether an answer can be gone on from.
pub fn accepts<E>(ctx: &InitContext, stage: Stage, received: &Reply<E>) -> (b: bool)
    ensures
        b == spec_accepts(*ctx, stage, *received),
{
    if received.kind() != answer(stage) {
        return false;
    }
    match (stage, received) {
        (Stage::InvalidUmask(_), _) => false,
        (Stage::MissingArgs, _) => false,
        (Stage::Exec, Reply::Outcome(outcome)) => outcome.is_err(),
        (Stage::Umask(_), Reply::Outcome(outcome)) => outcome.is_ok(),
        (Stage::Scheduler(_), Reply::Outcome(Err(HostError::Other(_)))) => false,
        (Stage::ListenFds, Reply::Variable(variable)) => listen_fds::admits(
            ctx.preserve_fds,
            variable,
        ),
        (Stage::Gids(step), _) => set_supplementary_gids::admits(
            step,
            &ctx.user_ns_config,
            received,
        ),
        _ => true,
    }
}

fn error<E>(stage: Stage, err: HostError<E>) -> (error: InitProcessError<E>)
    ensures
        error@ == stage_error(stage, err),
{
    match stage {
        Stage::SetSid => InitProcessError::NixOther(err),
        Stage::Console(_) => InitProcessError::Tty(err),
        Stage::StdioDup { .. } => InitProcessError::NixOther(err),
        Stage::StdioClose(_) => InitProcessError::NixOther(err),
        Stage::CreateContainerHooks => InitProcessError::Hooks(err),
        Stage::RootPropagation => InitProcessError::RootFS(err),
        Stage::Sysctl(_) => InitProcessError::Sysctl(err),
        Stage::AppArmor => InitProcessError::AppArmor(err),
        Stage::ChdirAgain => InitProcessError::NixOther(err),
        Stage::Validate => InitProcessError::WorkloadValidation(err),
        Stage::SetupEnvs => InitProcessError::WorkloadSetEnvs(err),
        Stage::InitReady => InitProcessError::Channel(err),
        Stage::CloseMainSender => InitProcessError::Channel(err),
        Stage::WaitForStart => InitProcessError::NotifyListener(err),
        Stage::CloseNotifyListener => InitProcessError::NotifyListener(err),
        Stage::StartContainerHooks => InitProcessError::Hooks(err),
        Stage::Exec => InitProcessError::Workload(err),
        _ => InitProcessError::SyscallOther(err),
    }
}

/// A list of stages with the texts of its error as sequences of characters.
pub open spec fn stages_view<E>(stages: Result<Vec<Stage>, InitProcessError<E>>) -> Result<
    Seq<Stage>,
    InitErrorView<E>,
> {
    match stages {
        Ok(stages) => Ok(stages@),
        Err(err) => Err(err@),
    }
}

fn none<E>() -> (stages: Result<Vec<Stage>, InitProcessError<E>>)
    ensures
        stages_view(stages) == Ok::<Seq<Stage>, InitErrorView<E>>(seq![]),
{
    let stages: Vec<Stage> = Vec::new();
    assert(stages@ =~= seq![]);
    Ok(stages)
}

fn one<E>(stage: Stage) -> (stages: Result<Vec<Stage>, InitProcessError<E>>)
    ensures
        stages_view(stages) == Ok::<Seq<Stage>, InitErrorView<E>>(seq![stage]),
{
    let stages: Vec<Stage> = vec![stage];
    assert(stages@ =~= seq![stage]);
    Ok(stages)
}

/// What is left to do when a stage has ended the process.
pub fn cleanup(stage: Stage) -> (stages: Vec<Stage>)
    ensures
        stages@ == spec_cleanup(stage),
{
    let mut stages: Vec<Stage> = Vec::new();
    if let Stage::DevNull(step) = stage {
        if let Some(last) = reopen_dev_null::release(step) {
            stages.push(Stage::DevNull(last));
        }
    }
    assert(stages@ =~= spec_cleanup(stage));
    stages
}

/// The stages that the answer to a stage brings up, or the error that it ends the process
/// with; the environment of the payload takes up what the answer adds to it.
pub fn respond<E>(ctx: &InitContext, envs: &mut Envs, stage: Stage, received: Reply<E>) -> (stages:
    Result<Vec<Stage>, InitProcessError<E>>)
    requires
        valid(*ctx, stage),
        spec_accepts(*ctx, stage, received),
    ensures
        stages_view(stages) == spec_respond(*ctx, stage, received),
        final(envs)@ == spec_envs(old(envs)@, stage, received),
{
    match (stage, received) {
        (Stage::RestNamespaces(step), received) => match apply_rest_namespaces::reply(
            step,
            ctx.hostname.is_some(),
            ctx.domainname.is_some(),
            received,
        ) {
            Ok(Some(step)) => one(Stage::RestNamespaces(step)),
            Ok(None) => none(),
            Err(err) => Err(err),
        },
        (Stage::PrepareRootfs(step), received) => match prepare_rootfs::reply(step, received) {
            Ok(Some(step)) => one(Stage::PrepareRootfs(step)),
            Ok(None) => none(),
            Err(err) => Err(err),
        },
        (Stage::PivotRoot(step), received) => match do_pivot_root::reply(
            step,
            ctx.no_pivot,
            received,
        ) {
            Ok(Some(step)) => one(Stage::PivotRoot(step)),
            Ok(None) => none(),
            Err(err) => Err(err),
        },
        (Stage::DevNull(step), received) => match reopen_dev_null::reply(step, received) {
            Ok(Some(step)) => one(Stage::DevNull(step)),
            Ok(None) => none(),
            Err(err) => Err(err),
        },
        (Stage::Gids(step), received) => match set_supplementary_gids::reply(
            step,
            &ctx.user_ns_config,
            received,
        ) {
            Ok(Some(step)) => one(Stage::Gids(step)),
            Ok(None) => none(),
            Err(err) => Err(err),
        },
        (Stage::Seccomp(timing, step), received) => match sync_seccomp::reply(step, received) {
            Ok(Some(step)) => one(Stage::Seccomp(timing, step)),
            Ok(None) => none(),
            Err(err) => Err(err),
        },
        (Stage::ReadonlyPath(i, step), Reply::Outcome(outcome)) => match readonly_path::reply(
            step,
            outcome,
        ) {
            Ok(Some(step)) => one(Stage::ReadonlyPath(i, step)),
            Ok(None) => none(),
            Err(err) => Err(err),
        },
        (Stage::MaskedPath(i, step), Reply::Outcome(outcome)) => match masked_path::reply(
            step,
            outcome,
        ) {
            Ok(Some(step)) => one(Stage::MaskedPath(i, step)),
            Ok(None) => none(),
            Err(err) => Err(err),
        },
        (Stage::Chdir, Reply::Outcome(outcome)) => match outcome {
            Ok(_) => Ok(tail(ctx, false)),
            Err(err) => if err.is(KnownErrno::NotPermitted) {
                Ok(tail(ctx, true))
            } else {
                Err(InitProcessError::NixOther(err))
            },
        },
        (Stage::ListenFds, Reply::Variable(variable)) => {
            let preserve_fds: i32 = listen_fds::keep_open(ctx.preserve_fds, &variable, envs);
            one(Stage::CloseRange(preserve_fds))
        },
        (Stage::VerifyCwd, Reply::Directory(cwd)) => match verify_cwd::verify_cwd(cwd) {
            Ok(_) => none(),
            Err(err) => Err(err),
        },
        (Stage::UserHome, Reply::Home(Some(home))) => {
            envs.insert("HOME".to_owned(), to_string_lossy(home.bytes.as_slice()));
            none()
        },
        (Stage::NoNewPrivileges, _) => none(),
        (Stage::Scheduler(_), Reply::Outcome(Err(HostError::Nix(errno)))) => Err(
            InitProcessError::SchedSetattr(i32_to_string(errno.code)),
        ),
        (_, Reply::Outcome(Err(err))) => Err(error(stage, err)),
        _ => none(),
    }
}

} // verus!
