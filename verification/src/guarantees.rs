//! What the container and its payload can rely on.

use crate::abi::KnownErrno;
use crate::call::Reply;
use crate::causes::{brings_up, law_every_stage_has_a_cause, law_procedures_are_not_interrupted};
use crate::context::{ContainerType, InitContext};
use crate::envs::distinct_names;
use crate::laws::{
    law_earlier_stages_are_done, law_failure_ends_the_process, law_payload_comes_last,
    lemma_after_failure, lemma_contains, lemma_exec_has_args, went_on,
};
use crate::order::{law_no_stage_is_repeated, law_stages_in_order, place};
use crate::path::{absolute, FsPath};
use crate::plan::{each, seccomp_timing, spec_head, spec_plan, spec_tail};
use crate::procedures::{
    apply_rest_namespaces, do_pivot_root, listen_fds, masked_path, move_root, readonly_path,
    reopen_dev_null, set_supplementary_gids, sync_seccomp, unmount_or_hide,
};
use crate::process::cleans_up;
use crate::run::{
    lemma_pending_after, lemma_run_all, lemma_run_well_formed, lemma_trace_len, lemma_trace_prefix,
    run, trace, valid_run,
};
use crate::stage::{brought_up, parameters, rejects, spec_answer, spec_call, SeccompTiming, Stage};
use crate::stages::{all, group_all};
use crate::text::{decimal, i32_value, law_decimal_reads_back, lossy_text};
use vstd::prelude::*;

verus! {

/// A stage expects the kind of answer that its call gets.
pub proof fn law_answers_fit_calls(
    ctx: InitContext,
    envs: Map<Seq<char>, Seq<char>>,
    stage: Stage,
)
    requires
        !rejects(stage),
    ensures
        spec_answer(stage) == spec_call(ctx, envs, stage).answer(),
{
}

/// The supplementary groups are set only right after the kernel was asked whether it lets
/// the process do so and did not deny it, and not in a user namespace that an
/// unprivileged user made.
pub proof fn law_groups_are_set_where_allowed<E>(ctx: InitContext, replies: Seq<Reply<E>>, j: int)
    requires
        valid_run(ctx, replies),
        0 <= j < replies.len(),
        trace(ctx, replies)[j] == Stage::Gids(set_supplementary_gids::Step::SetGroups),
    ensures
        j > 0,
        trace(ctx, replies)[j - 1] == Stage::Gids(set_supplementary_gids::Step::ReadSetgroups),
        replies[j - 1] matches Reply::Contents(Ok(contents))
            && !set_supplementary_gids::denied(contents@),
        ctx.user_ns_config matches Some(config) ==> config.privileged,
{
    law_procedures_are_not_interrupted(ctx, replies, j);
    lemma_trace_prefix(ctx, replies, j - 1);
}

/// Whether the container's uts namespace was looked up at a stage, and found to be a new
/// one.
pub open spec fn finds_new_uts<E>(stage: Stage, reply: Reply<E>) -> bool {
    &&& stage == Stage::RestNamespaces(apply_rest_namespaces::Step::LookUpUts)
    &&& reply matches Reply::Namespace(Ok(Some(namespace))) && namespace.path is None
}

/// The host and the domain are named only in a new uts namespace.
pub proof fn law_names_are_set_in_a_new_namespace<E>(
    ctx: InitContext,
    replies: Seq<Reply<E>>,
    j: int,
)
    requires
        valid_run(ctx, replies),
        0 <= j < replies.len(),
        trace(ctx, replies)[j] == Stage::RestNamespaces(apply_rest_namespaces::Step::Hostname)
            || trace(ctx, replies)[j] == Stage::RestNamespaces(
            apply_rest_namespaces::Step::Domainname,
        ),
    ensures
        exists|i: int| 0 <= i < j && finds_new_uts(#[trigger] trace(ctx, replies)[i], replies[i]),
{
    law_procedures_are_not_interrupted(ctx, replies, j);
    if trace(ctx, replies)[j - 1] == Stage::RestNamespaces(apply_rest_namespaces::Step::Hostname) {
        law_procedures_are_not_interrupted(ctx, replies, j - 1);
            assert(finds_new_uts(trace(ctx, replies)[j - 2], replies[j - 2]));
    } else {
        assert(finds_new_uts(trace(ctx, replies)[j - 1], replies[j - 1]));
    }
}

/// How the root is entered: by `pivot_root(2)` or by moving the mount only where the
/// container has a mount namespace of its own, and by a mere `chroot(2)` only where it has
/// none.
pub proof fn law_root_is_entered_by_namespace<E>(ctx: InitContext, replies: Seq<Reply<E>>, j: int)
    requires
        valid_run(ctx, replies),
        0 <= j < replies.len(),
        trace(ctx, replies)[j] matches Stage::PivotRoot(step) && (step
            == do_pivot_root::Step::Pivot || step == do_pivot_root::Step::Chroot || step
            == do_pivot_root::Step::MoveRoot(move_root::Step::EnterRootfs)),
    ensures
        j > 0,
        trace(ctx, replies)[j - 1] == Stage::PivotRoot(do_pivot_root::Step::LookUp),
        replies[j - 1] matches Reply::Namespace(Ok(namespace)) && trace(ctx, replies)[j]
            == Stage::PivotRoot(
            if namespace is None {
                do_pivot_root::Step::Chroot
            } else if ctx.no_pivot {
                do_pivot_root::Step::MoveRoot(move_root::Step::EnterRootfs)
            } else {
                do_pivot_root::Step::Pivot
            },
        ),
{
    law_procedures_are_not_interrupted(ctx, replies, j);
}

/// A path is remounted read-only right after it was mounted onto itself.
pub proof fn law_remount_follows_a_mount<E>(
    ctx: InitContext,
    replies: Seq<Reply<E>>,
    j: int,
    path: usize,
)
    requires
        valid_run(ctx, replies),
        0 <= j < replies.len(),
        trace(ctx, replies)[j] == Stage::ReadonlyPath(path, readonly_path::Step::Remount),
    ensures
        j > 0,
        trace(ctx, replies)[j - 1] == Stage::ReadonlyPath(path, readonly_path::Step::Bind),
        replies[j - 1] matches Reply::Outcome(Ok(_)),
{
    law_procedures_are_not_interrupted(ctx, replies, j);
}

/// A path is hidden under a tmpfs only where it turned out to be a directory when
/// `/dev/null` was to be mounted over it.
pub proof fn law_tmpfs_hides_directories<E>(
    ctx: InitContext,
    replies: Seq<Reply<E>>,
    j: int,
    path: usize,
)
    requires
        valid_run(ctx, replies),
        0 <= j < replies.len(),
        trace(ctx, replies)[j] == Stage::MaskedPath(path, masked_path::Step::Tmpfs),
    ensures
        j > 0,
        trace(ctx, replies)[j - 1] == Stage::MaskedPath(path, masked_path::Step::DevNull),
        replies[j - 1] matches Reply::Outcome(Err(err)) && err.is_errno(KnownErrno::NotDirectory),
{
    law_procedures_are_not_interrupted(ctx, replies, j);
}

/// The `/sys` and the `/proc` of the host are hidden only where they could not be
/// unmounted as they are.
pub proof fn law_hiding_follows_a_refused_unmount<E>(
    ctx: InitContext,
    replies: Seq<Reply<E>>,
    j: int,
    sys: bool,
)
    requires
        valid_run(ctx, replies),
        0 <= j < replies.len(),
        trace(ctx, replies)[j] == Stage::PivotRoot(
            do_pivot_root::Step::MoveRoot(
                if sys {
                    move_root::Step::Sys(unmount_or_hide::Step::Hide)
                } else {
                    move_root::Step::Proc(unmount_or_hide::Step::Hide)
                },
            ),
        ),
    ensures
        j > 0,
        trace(ctx, replies)[j - 1] == Stage::PivotRoot(
            do_pivot_root::Step::MoveRoot(
                if sys {
                    move_root::Step::Sys(unmount_or_hide::Step::Unmount)
                } else {
                    move_root::Step::Proc(unmount_or_hide::Step::Unmount)
                },
            ),
        ),
        replies[j - 1] matches Reply::Outcome(Err(err)) && err.is_errno(
            KnownErrno::InvalidArgument,
        ),
{
    law_procedures_are_not_interrupted(ctx, replies, j);
}

/// Whether the `/sys` or the `/proc` of the host was unmounted or hidden at a stage.
pub open spec fn takes_out_of_sight<E>(stage: Stage, reply: Reply<E>, sys: bool) -> bool {
    &&& stage matches Stage::PivotRoot(do_pivot_root::Step::MoveRoot(step)) && (if sys {
        step is Sys
    } else {
        step is Proc
    })
    &&& reply matches Reply::Outcome(Ok(_))
}

/// When the mount of the container is moved to the root, both the `/sys` and the `/proc` of
/// the host have been unmounted or hidden.
pub proof fn law_host_file_systems_are_out_of_sight<E>(
    ctx: InitContext,
    replies: Seq<Reply<E>>,
    j: int,
    sys: bool,
)
    requires
        valid_run(ctx, replies),
        0 <= j < replies.len(),
        trace(ctx, replies)[j] == Stage::PivotRoot(
            do_pivot_root::Step::MoveRoot(move_root::Step::MoveMount),
        ),
    ensures
        exists|i: int|
            0 <= i < j && takes_out_of_sight(#[trigger] trace(ctx, replies)[i], replies[i], sys),
{
    law_procedures_are_not_interrupted(ctx, replies, j);
    assert(takes_out_of_sight(trace(ctx, replies)[j - 1], replies[j - 1], false));
    law_procedures_are_not_interrupted(ctx, replies, j - 1);
    let k: int = if trace(ctx, replies)[j - 1] == Stage::PivotRoot(
        do_pivot_root::Step::MoveRoot(move_root::Step::Proc(unmount_or_hide::Step::Hide)),
    ) {
        law_procedures_are_not_interrupted(ctx, replies, j - 2);
        j - 3
    } else {
        j - 2
    };
    assert(takes_out_of_sight(trace(ctx, replies)[k], replies[k], true));
}

/// A standard descriptor is pointed to the container's `/dev/null` only where it stands
/// for the same device.
pub proof fn law_redirect_keeps_the_device<E>(
    ctx: InitContext,
    replies: Seq<Reply<E>>,
    j: int,
    dev: i32,
    rdev: u64,
    fd: i32,
)
    requires
        valid_run(ctx, replies),
        0 <= j < replies.len(),
        trace(ctx, replies)[j] == Stage::DevNull(reopen_dev_null::Step::Redirect { dev, rdev, fd }),
    ensures
        j > 0,
        trace(ctx, replies)[j - 1] == Stage::DevNull(
            reopen_dev_null::Step::StatStdio { dev, rdev, fd },
        ),
        replies[j - 1] matches Reply::Device(Ok(device)) && device == rdev,
{
    law_procedures_are_not_interrupted(ctx, replies, j);
}

/// The descriptor for seccomp notifications is closed only after the main process has
/// acknowledged that it got its own.
pub proof fn law_notify_descriptor_is_handed_over<E>(
    ctx: InitContext,
    replies: Seq<Reply<E>>,
    j: int,
    timing: SeccompTiming,
    fd: i32,
)
    requires
        valid_run(ctx, replies),
        0 <= j < replies.len(),
        trace(ctx, replies)[j] == Stage::Seccomp(timing, sync_seccomp::Step::Close { fd }),
    ensures
        j >= 3,
        trace(ctx, replies)[j - 3] == Stage::Seccomp(timing, sync_seccomp::Step::Initialize),
        replies[j - 3] matches Reply::Notify(Ok(Some(notify))) && notify == fd,
        trace(ctx, replies)[j - 2] == Stage::Seccomp(timing, sync_seccomp::Step::Request { fd }),
        replies[j - 2] matches Reply::Outcome(Ok(_)),
        trace(ctx, replies)[j - 1] == Stage::Seccomp(timing, sync_seccomp::Step::Wait { fd }),
        replies[j - 1] matches Reply::Outcome(Ok(_)),
{
    law_procedures_are_not_interrupted(ctx, replies, j);
    law_procedures_are_not_interrupted(ctx, replies, j - 1);
    law_procedures_are_not_interrupted(ctx, replies, j - 2);
}

/// The descriptors that stay open are those that the context asks for and those that
/// `LISTEN_FDS` announces.
pub proof fn law_announced_descriptors_stay_open<E>(
    ctx: InitContext,
    replies: Seq<Reply<E>>,
    j: int,
    total: i32,
)
    requires
        valid_run(ctx, replies),
        0 <= j < replies.len(),
        trace(ctx, replies)[j] == Stage::CloseRange(total),
    ensures
        j > 0,
        trace(ctx, replies)[j - 1] == Stage::ListenFds,
        replies[j - 1] matches Reply::Variable(variable) && total == ctx.preserve_fds
            + listen_fds::announced(variable),
{
    law_procedures_are_not_interrupted(ctx, replies, j);
    lemma_trace_prefix(ctx, replies, j - 1);
}

/// Whether the process was not permitted to change to the working directory.
pub open spec fn refuses_cwd<E>(stage: Stage, reply: Reply<E>) -> bool {
    &&& stage is Chdir
    &&& reply matches Reply::Outcome(Err(err)) && err.is_errno(KnownErrno::NotPermitted)
}

proof fn lemma_chdir_again_is_not_planned(ctx: InitContext)
    ensures
        all(spec_plan(ctx), |other: Stage| other != Stage::ChdirAgain),
        all(spec_tail(ctx, false), |other: Stage| other != Stage::ChdirAgain),
{
    broadcast use group_all;

}

/// The change to the working directory is tried again as the user of the payload only
/// where the process was not permitted to make it before.
pub proof fn law_second_change_follows_a_refused_one<E>(
    ctx: InitContext,
    replies: Seq<Reply<E>>,
    j: int,
)
    requires
        valid_run(ctx, replies),
        0 <= j < replies.len(),
        trace(ctx, replies)[j] == Stage::ChdirAgain,
    ensures
        exists|i: int| 0 <= i < j && refuses_cwd(#[trigger] trace(ctx, replies)[i], replies[i]),
{
    lemma_chdir_again_is_not_planned(ctx);
    lemma_contains(spec_plan(ctx), Stage::ChdirAgain);
    lemma_contains(spec_tail(ctx, false), Stage::ChdirAgain);
    law_every_stage_has_a_cause(ctx, replies, j);
    let i = choose|i: int|
        0 <= i < j && brings_up(
            ctx,
            #[trigger] trace(ctx, replies)[i],
            replies[i],
            Stage::ChdirAgain,
        );
    lemma_brings_up_chdir(ctx, trace(ctx, replies)[i], replies[i]);
}

proof fn lemma_brings_up_chdir<E>(ctx: InitContext, stage: Stage, reply: Reply<E>)
    requires
        brings_up(ctx, stage, reply, Stage::ChdirAgain),
        !spec_tail(ctx, false).contains(Stage::ChdirAgain),
    ensures
        refuses_cwd(stage, reply),
{
}

/// Which stages have to come before which others: the create_container hooks run in the
/// namespaces of the container, but outside its root; the files of the container are in
/// place before they are made read-only or masked; the working directory is changed to
/// before the process gives up its user; descriptors are closed when it has done so;
/// a seccomp profile is installed before capabilities are dropped if that takes privileges,
/// and else after the working directory was verified; the main process hears that all is
/// ready before it is asked to start the payload.
pub open spec fn precedes(first: Stage, second: Stage) -> bool {
    ||| first is RestNamespaces && (second is CreateContainerHooks || second is PrepareRootfs)
    ||| first is CreateContainerHooks && second is PivotRoot
    ||| first is PrepareRootfs && second is PivotRoot
    ||| first is PivotRoot && (second is DevNull || second is Sysctl || second is ReadonlyRoot
        || second is ReadonlyPath || second is MaskedPath)
    ||| first is Chdir && (second is Gids || second is SetId)
    ||| first is Gids && second is SetId
    ||| first is SetId && (second is CloseRange || second is ChdirAgain)
    ||| (first matches Stage::Seccomp(SeccompTiming::BeforeCapabilities, _)) && (
    second is ResetEffective || second is DropPrivileges)
    ||| (first is DropPrivileges || first is VerifyCwd) && (
    second matches Stage::Seccomp(SeccompTiming::BeforePayload, _))
    ||| first is ChdirAgain && second is VerifyCwd
    ||| first is VerifyCwd && second is InitReady
    ||| first is SetupEnvs && second is InitReady
    ||| first is InitReady && second is WaitForStart
    ||| first is WaitForStart && second is StartContainerHooks
    ||| !(first is Exec) && second is Exec
}

/// What has to come before comes before.
pub proof fn law_stages_precede<E>(ctx: InitContext, replies: Seq<Reply<E>>, i: int, j: int)
    requires
        valid_run(ctx, replies),
        0 <= i < replies.len(),
        0 <= j < replies.len(),
        precedes(trace(ctx, replies)[i], trace(ctx, replies)[j]),
    ensures
        i < j,
{
    law_stages_in_order(ctx, replies);
    lemma_trace_len(ctx, replies);
    lemma_trace_prefix(ctx, replies, i);
    let first = trace(ctx, replies)[i];
    let second = trace(ctx, replies)[j];
    assert(!(first is MissingArgs));
    assert(place(first) < place(second)) by {
        lemma_precedes_place(first, second);
    }
}

proof fn lemma_precedes_place(first: Stage, second: Stage)
    requires
        precedes(first, second),
        !(first is MissingArgs),
    ensures
        place(first) < place(second),
{
}

/// Only a payload that has arguments is executed.
pub proof fn law_payload_has_arguments<E>(ctx: InitContext, replies: Seq<Reply<E>>)
    requires
        valid_run(ctx, replies),
        run(ctx, replies).pending.len() > 0,
        run(ctx, replies).pending[0] is Exec,
    ensures
        ctx.process.has_args,
{
    lemma_exec_has_args(ctx, replies);
    reveal(all);
    let p = |stage: Stage| stage is Exec ==> ctx.process.has_args;
    assert(p(run(ctx, replies).pending[0]));
}

/// Nothing follows the execution of the payload.
pub proof fn law_nothing_follows_the_payload<E>(ctx: InitContext, replies: Seq<Reply<E>>, i: int)
    requires
        valid_run(ctx, replies),
        0 <= i < replies.len(),
        trace(ctx, replies)[i] is Exec,
    ensures
        i == replies.len() - 1,
{
    lemma_trace_prefix(ctx, replies, i);
    lemma_trace_len(ctx, replies);
    lemma_after_failure(ctx, replies, i);
    let rest = trace(ctx, replies).skip(i + 1);
    assert((rest + run(ctx, replies).pending).len() == 0);
}

/// Whether a stage is for the first process of a container alone.
pub open spec fn sets_up_container(stage: Stage) -> bool {
    ||| stage is CreateContainerHooks
    ||| stage is PrepareRootfs
    ||| stage is PivotRoot
    ||| stage is RootPropagation
    ||| stage is DevNull
    ||| stage is Sysctl
    ||| stage is StartContainerHooks
}

proof fn lemma_tenant_plan(ctx: InitContext, do_chdir: bool)
    requires
        ctx.container_type == ContainerType::TenantContainer,
    ensures
        all(spec_plan(ctx), |stage: Stage| !sets_up_container(stage)),
        all(spec_tail(ctx, do_chdir), |stage: Stage| !sets_up_container(stage)),
{
    broadcast use group_all;

    assert(all(spec_tail(ctx, false), |stage: Stage| !sets_up_container(stage)));
}

proof fn lemma_tenant_respond<E>(ctx: InitContext, stage: Stage, reply: Reply<E>)
    requires
        ctx.container_type == ContainerType::TenantContainer,
        !sets_up_container(stage),
    ensures
        all(brought_up(ctx, stage, reply), |stage: Stage| !sets_up_container(stage)),
{
    broadcast use group_all;

    lemma_tenant_plan(ctx, false);
    lemma_tenant_plan(ctx, true);
}

/// A process that joins a container runs no hooks and leaves the root file system, the
/// standard descriptors and the kernel parameters as they are.
pub proof fn law_tenant_joins_the_container_as_it_is<E>(
    ctx: InitContext,
    replies: Seq<Reply<E>>,
    i: int,
)
    requires
        ctx.container_type == ContainerType::TenantContainer,
        valid_run(ctx, replies),
        0 <= i < replies.len(),
    ensures
        !sets_up_container(trace(ctx, replies)[i]),
{
    let p = |stage: Stage| !sets_up_container(stage);
    lemma_tenant_plan(ctx, false);
    assert forall|stage: Stage, reply: Reply<E>| p(stage) implies all(
        #[trigger] brought_up(ctx, stage, reply),
        p,
    ) by {
        lemma_tenant_respond(ctx, stage, reply);
    }
    lemma_run_all(ctx, replies, p);
    lemma_trace_len(ctx, replies);
    reveal(all);
    assert(p(trace(ctx, replies)[i]));
}

/// Whether the working directory was found to be inside the container at a stage.
pub open spec fn finds_cwd_inside<E>(stage: Stage, reply: Reply<E>) -> bool {
    &&& stage is VerifyCwd
    &&& reply matches Reply::Directory(Ok(path)) && absolute(path@)
}

/// The stages that no payload is executed without.
pub open spec fn indispensable(ctx: InitContext, stage: Stage) -> bool {
    ||| stage is SetSid
    ||| stage == Stage::RestNamespaces(apply_rest_namespaces::Step::Apply)
    ||| stage is SetId
    ||| stage is ListenFds
    ||| stage is ResetEffective
    ||| stage is DropPrivileges && ctx.process.has_capabilities
    ||| stage is VerifyCwd
    ||| stage is Validate
    ||| stage is SetupEnvs
    ||| stage is InitReady
    ||| stage is WaitForStart
    ||| stage == Stage::Seccomp(
        SeccompTiming::BeforeCapabilities,
        sync_seccomp::Step::Initialize,
    ) && ctx.linux.has_seccomp && ctx.process.no_new_privileges != Some(true)
    ||| stage == Stage::Seccomp(SeccompTiming::BeforePayload, sync_seccomp::Step::Initialize)
        && ctx.linux.has_seccomp && ctx.process.no_new_privileges == Some(true)
    ||| stage is NoNewPrivileges && ctx.process.no_new_privileges == Some(true)
    ||| stage is AppArmor && ctx.process.apparmor_profile is Some
    ||| stage is ReadonlyRoot && ctx.rootfs_ro
    ||| stage == Stage::PivotRoot(do_pivot_root::Step::LookUp) && ctx.container_type
        == ContainerType::InitContainer
}

proof fn lemma_indispensable_planned(ctx: InitContext, stage: Stage)
    requires
        indispensable(ctx, stage),
    ensures
        !all(spec_head(ctx), |other: Stage| other != stage) || !all(
            spec_tail(ctx, false),
            |other: Stage| other != stage,
        ),
{
    broadcast use group_all;

}

/// When the payload is about to be executed, it has its own session and namespaces, its
/// user and its capabilities, the seccomp and the AppArmor profile are in place, and the
/// main process has given the word to start.
pub proof fn law_payload_is_confined<E>(ctx: InitContext, replies: Seq<Reply<E>>, stage: Stage)
    requires
        valid_run(ctx, replies),
        run(ctx, replies).pending.len() > 0,
        run(ctx, replies).pending[0] is Exec,
        indispensable(ctx, stage),
    ensures
        trace(ctx, replies).contains(stage),
        went_on(ctx, replies, replies.len() as int),
{
    lemma_run_well_formed(ctx, replies);
    lemma_indispensable_in_plan(ctx, stage);
    law_payload_comes_last(ctx, replies, stage);
    law_failure_ends_the_process(ctx, replies);
    lemma_trace_len(ctx, replies);
}

/// A payload is executed only if the working directory was found to be inside the
/// container.
pub proof fn law_payload_starts_inside<E>(ctx: InitContext, replies: Seq<Reply<E>>)
    requires
        valid_run(ctx, replies),
        run(ctx, replies).pending.len() > 0,
        run(ctx, replies).pending[0] is Exec,
    ensures
        exists|i: int|
            0 <= i < replies.len() && finds_cwd_inside(
                #[trigger] trace(ctx, replies)[i],
                replies[i],
            ),
{
    law_payload_is_confined(ctx, replies, Stage::VerifyCwd);
    lemma_trace_len(ctx, replies);
    let i = choose|i: int|
        0 <= i < trace(ctx, replies).len() && trace(ctx, replies)[i] == Stage::VerifyCwd;
    lemma_trace_prefix(ctx, replies, i);
    assert(finds_cwd_inside(trace(ctx, replies)[i], replies[i]));
}

/// A variable has in one environment what it has in another, or is in neither.
pub open spec fn agree(
    a: Map<Seq<char>, Seq<char>>,
    b: Map<Seq<char>, Seq<char>>,
    name: Seq<char>,
) -> bool {
    &&& a.contains_key(name) == b.contains_key(name)
    &&& a.contains_key(name) ==> a[name] == b[name]
}

#[verifier::rlimit(50)]
proof fn lemma_home_is_looked_up_if_missing<E>(ctx: InitContext, replies: Seq<Reply<E>>, i: int)
    requires
        valid_run(ctx, replies),
        0 <= i < replies.len(),
        trace(ctx, replies)[i] is UserHome,
    ensures
        !ctx.envs@.contains_key("HOME"@),
{
    broadcast use group_all;

    let p = |stage: Stage| stage is UserHome ==> !ctx.envs@.contains_key("HOME"@);
    assert(all(spec_tail(ctx, false), p) && all(spec_tail(ctx, true), p));
    assert(all(spec_plan(ctx), p));
    lemma_run_all(ctx, replies, p);
    lemma_trace_len(ctx, replies);
    assert(!ctx.envs@.contains_key("HOME"@)) by {
        reveal(all);
        assert(p(trace(ctx, replies)[i]));
    }
}

/// The payload gets the environment of the configuration. Only the variables that
/// announce descriptors are set anew, and `HOME` where the configuration does not have it.
pub proof fn law_environment_is_kept<E>(
    ctx: InitContext,
    replies: Seq<Reply<E>>,
    name: Seq<char>,
)
    requires
        valid_run(ctx, replies),
        name != "LISTEN_FDS"@,
        name != "LISTEN_PID"@,
        name == "HOME"@ ==> ctx.envs@.contains_key(name),
    ensures
        agree(run(ctx, replies).envs, ctx.envs@, name),
    decreases replies.len(),
{
    if replies.len() > 0 {
        let before = replies.drop_last();
        law_environment_is_kept(ctx, before, name);
        let stage = run(ctx, before).pending[0];
        lemma_trace_len(ctx, before);
        assert(trace(ctx, replies)[replies.len() - 1] == stage);
        if stage is UserHome {
            lemma_home_is_looked_up_if_missing(ctx, replies, replies.len() - 1);
        }
    }
}

/// Whether descriptors were announced to the init process itself.
pub open spec fn announces<E>(stage: Stage, reply: Reply<E>) -> bool {
    &&& stage is ListenFds
    &&& reply matches Reply::Variable(variable) && listen_fds::announced(variable) > 0
}

/// Where no descriptors are announced to the init process, none are announced to the
/// payload beyond what the configuration says.
pub proof fn law_nothing_is_announced_for_nothing<E>(ctx: InitContext, replies: Seq<Reply<E>>)
    requires
        valid_run(ctx, replies),
        forall|i: int|
            0 <= i < replies.len() ==> !announces(#[trigger] trace(ctx, replies)[i], replies[i]),
    ensures
        agree(run(ctx, replies).envs, ctx.envs@, "LISTEN_FDS"@),
        agree(run(ctx, replies).envs, ctx.envs@, "LISTEN_PID"@),
    decreases replies.len(),
{
    if replies.len() > 0 {
        let before = replies.drop_last();
        lemma_trace_len(ctx, before);
        assert forall|i: int| 0 <= i < before.len() implies !announces(
            #[trigger] trace(ctx, before)[i],
            before[i],
        ) by {
            assert(trace(ctx, replies)[i] == trace(ctx, before)[i]);
            assert(replies[i] == before[i]);
        }
        law_nothing_is_announced_for_nothing(ctx, before);
        let last = replies.len() - 1;
        assert(!announces(trace(ctx, replies)[last], replies[last]));
        lemma_names_differ();
    }
}

proof fn lemma_names_differ()
    ensures
        "HOME"@ != "LISTEN_FDS"@,
        "HOME"@ != "LISTEN_PID"@,
        "LISTEN_FDS"@ != "LISTEN_PID"@,
{
    reveal_strlit("HOME");
    reveal_strlit("LISTEN_FDS");
    reveal_strlit("LISTEN_PID");
    assert("HOME"@.len() == 4);
    assert("LISTEN_FDS"@[7] == 'F');
    assert("LISTEN_PID"@[7] == 'P');
}

/// Announced descriptors reach the payload: their number stands in `LISTEN_FDS`, in decimal
/// notation, which reads back as the number, and `LISTEN_PID` is 1, the payload's own number
/// in its namespace.
pub proof fn law_descriptors_are_announced<E>(ctx: InitContext, replies: Seq<Reply<E>>, i: int)
    requires
        valid_run(ctx, replies),
        0 <= i < replies.len(),
        announces(trace(ctx, replies)[i], replies[i]),
    ensures
        run(ctx, replies).envs.contains_key("LISTEN_FDS"@),
        replies[i] matches Reply::Variable(variable) && run(ctx, replies).envs["LISTEN_FDS"@]
            == decimal(listen_fds::announced(variable) as int) && i32_value(
            run(ctx, replies).envs["LISTEN_FDS"@],
        ) == Some(listen_fds::announced(variable)),
        run(ctx, replies).envs.contains_key("LISTEN_PID"@),
        run(ctx, replies).envs["LISTEN_PID"@] == decimal(1),
        i32_value(run(ctx, replies).envs["LISTEN_PID"@]) == Some(1i32),
    decreases replies.len(),
{
    let before = replies.drop_last();
    let last = replies.len() - 1;
    lemma_names_differ();
    lemma_trace_len(ctx, before);
    if i == last {
        law_decimal_reads_back(listen_fds::announced(replies[i]->Variable_0));
        law_decimal_reads_back(1);
    } else {
        assert(trace(ctx, replies)[i] == trace(ctx, before)[i]);
        assert(replies[i] == before[i]);
        law_descriptors_are_announced(ctx, before, i);
        law_no_stage_is_repeated(ctx, replies, i, last);
    }
}

/// The home directory that was found for the user of the payload reaches the payload.
pub proof fn law_home_is_filled_in<E>(
    ctx: InitContext,
    replies: Seq<Reply<E>>,
    i: int,
    home: FsPath,
)
    requires
        valid_run(ctx, replies),
        0 <= i < replies.len(),
        trace(ctx, replies)[i] is UserHome,
        replies[i] == Reply::<E>::Home(Some(home)),
    ensures
        run(ctx, replies).envs.contains_key("HOME"@),
        run(ctx, replies).envs["HOME"@] == lossy_text(home@),
    decreases replies.len(),
{
    let before = replies.drop_last();
    let last = replies.len() - 1;
    lemma_names_differ();
    lemma_trace_len(ctx, before);
    if i < last {
        assert(trace(ctx, replies)[i] == trace(ctx, before)[i]);
        assert(replies[i] == before[i]);
        law_home_is_filled_in(ctx, before, i, home);
        law_no_stage_is_repeated(ctx, replies, i, last);
    }
}

/// Whether a home directory was found for the user of the payload.
pub open spec fn finds_home<E>(stage: Stage, reply: Reply<E>) -> bool {
    &&& stage is UserHome
    &&& reply matches Reply::Home(Some(_))
}

/// `HOME` stays absent where neither the configuration nor the user of the payload has one.
pub proof fn law_home_is_not_made_up<E>(ctx: InitContext, replies: Seq<Reply<E>>)
    requires
        valid_run(ctx, replies),
        !ctx.envs@.contains_key("HOME"@),
        forall|i: int|
            0 <= i < replies.len() ==> !finds_home(#[trigger] trace(ctx, replies)[i], replies[i]),
    ensures
        !run(ctx, replies).envs.contains_key("HOME"@),
    decreases replies.len(),
{
    if replies.len() > 0 {
        let before = replies.drop_last();
        lemma_trace_len(ctx, before);
        assert forall|i: int| 0 <= i < before.len() implies !finds_home(
            #[trigger] trace(ctx, before)[i],
            before[i],
        ) by {
            assert(trace(ctx, replies)[i] == trace(ctx, before)[i]);
            assert(replies[i] == before[i]);
        }
        law_home_is_not_made_up(ctx, before);
        let last = replies.len() - 1;
        assert(!finds_home(trace(ctx, replies)[last], replies[last]));
        lemma_names_differ();
    }
}

proof fn lemma_seccomp_plan(ctx: InitContext, do_chdir: bool)
    ensures
        all(spec_plan(ctx), |stage: Stage| fits_seccomp(ctx, stage)),
        all(spec_tail(ctx, do_chdir), |stage: Stage| fits_seccomp(ctx, stage)),
{
    broadcast use group_all;

    assert(all(spec_tail(ctx, false), |stage: Stage| fits_seccomp(ctx, stage)));
}

/// A stage that has to do with seccomp fits what the context says of it.
pub open spec fn fits_seccomp(ctx: InitContext, stage: Stage) -> bool {
    stage matches Stage::Seccomp(timing, _) ==> ctx.linux.has_seccomp && timing == seccomp_timing(
        ctx,
    )
}

proof fn lemma_seccomp_respond<E>(ctx: InitContext, stage: Stage, reply: Reply<E>)
    requires
        fits_seccomp(ctx, stage),
    ensures
        all(brought_up(ctx, stage, reply), |stage: Stage| fits_seccomp(ctx, stage)),
{
    broadcast use group_all;

    lemma_seccomp_plan(ctx, false);
    lemma_seccomp_plan(ctx, true);
}

/// The seccomp profile is loaded only if there is one, at the one moment that fits, and never
/// twice.
pub proof fn law_seccomp_is_loaded_at_one_moment<E>(
    ctx: InitContext,
    replies: Seq<Reply<E>>,
    i: int,
    timing: SeccompTiming,
)
    requires
        valid_run(ctx, replies),
        0 <= i < replies.len(),
        trace(ctx, replies)[i] == Stage::Seccomp(timing, sync_seccomp::Step::Initialize),
    ensures
        ctx.linux.has_seccomp,
        timing == seccomp_timing(ctx),
        forall|j: int|
            0 <= j < replies.len() && (#[trigger] trace(ctx, replies)[j] matches Stage::Seccomp(
                _,
                sync_seccomp::Step::Initialize,
            )) ==> i == j,
{
    let p = |stage: Stage| fits_seccomp(ctx, stage);
    lemma_seccomp_plan(ctx, false);
    assert forall|stage: Stage, reply: Reply<E>| p(stage) implies all(
        #[trigger] brought_up(ctx, stage, reply),
        p,
    ) by {
        lemma_seccomp_respond(ctx, stage, reply);
    }
    lemma_run_all(ctx, replies, p);
    lemma_trace_len(ctx, replies);
    reveal(all);
    assert(p(trace(ctx, replies)[i]));
    assert forall|j: int|
        0 <= j < replies.len() && (#[trigger] trace(ctx, replies)[j] matches Stage::Seccomp(
            _,
            sync_seccomp::Step::Initialize,
        )) implies i == j by {
        assert(p(trace(ctx, replies)[j]));
        if i < j {
            law_no_stage_is_repeated(ctx, replies, i, j);
        } else if j < i {
            law_no_stage_is_repeated(ctx, replies, j, i);
        }
    }
}

/// When capabilities are dropped, the seccomp profile has been loaded, unless new privileges
/// are forbidden to the process: loading it is a privileged operation otherwise.
pub proof fn law_seccomp_is_loaded_with_privileges<E>(
    ctx: InitContext,
    replies: Seq<Reply<E>>,
    j: int,
)
    requires
        valid_run(ctx, replies),
        ctx.linux.has_seccomp,
        ctx.process.no_new_privileges != Some(true),
        0 <= j < replies.len(),
        trace(ctx, replies)[j] is ResetEffective || trace(ctx, replies)[j] is DropPrivileges,
    ensures
        exists|i: int|
            0 <= i < j && #[trigger] trace(ctx, replies)[i] == Stage::Seccomp(
                SeccompTiming::BeforeCapabilities,
                sync_seccomp::Step::Initialize,
            ),
{
    let stage = Stage::Seccomp(
        SeccompTiming::BeforeCapabilities,
        sync_seccomp::Step::Initialize,
    );
    lemma_done_before(ctx, replies, j, stage);
}

/// What no payload is executed without is done before anything of a later place.
proof fn lemma_done_before<E>(ctx: InitContext, replies: Seq<Reply<E>>, j: int, stage: Stage)
    requires
        valid_run(ctx, replies),
        0 <= j < replies.len(),
        indispensable(ctx, stage),
        place(stage) < place(trace(ctx, replies)[j]),
        !cleans_up(trace(ctx, replies)[j]),
    ensures
        exists|i: int| 0 <= i < j && #[trigger] trace(ctx, replies)[i] == stage,
{
    lemma_trace_prefix(ctx, replies, j);
    lemma_trace_len(ctx, replies);
    lemma_run_well_formed(ctx, replies.take(j));
    lemma_indispensable_in_plan(ctx, stage);
    law_earlier_stages_are_done(ctx, replies.take(j), stage);
    let done = trace(ctx, replies).take(j);
    let i = choose|i: int| 0 <= i < done.len() && done[i] == stage;
    assert(trace(ctx, replies)[i] == stage);
}

proof fn lemma_indispensable_in_plan(ctx: InitContext, stage: Stage)
    requires
        indispensable(ctx, stage),
    ensures
        spec_plan(ctx).contains(stage) || spec_tail(ctx, false).contains(stage),
{
    lemma_indispensable_planned(ctx, stage);
    lemma_contains(spec_head(ctx), stage);
    lemma_contains(spec_tail(ctx, false), stage);
    if spec_head(ctx).contains(stage) {
        let k = choose|k: int| 0 <= k < spec_head(ctx).len() && spec_head(ctx)[k] == stage;
        assert(spec_plan(ctx)[k] == stage);
    }
}

proof fn lemma_parameter_planned(ctx: InitContext, k: usize)
    requires
        ctx.container_type == ContainerType::InitContainer,
        k < parameters(ctx).len(),
    ensures
        !all(spec_plan(ctx), |other: Stage| other != Stage::Sysctl(k)),
{
    broadcast use group_all;

    let p = |other: Stage| other != Stage::Sysctl(k);
    let stage = |i: usize| Stage::Sysctl(i);
    assert(!p(stage(k as int as usize)));
    assert(!all(each(parameters(ctx).len(), stage), p));
}

/// Whether a stage writes the kernel parameter of this name.
pub open spec fn writes_parameter(ctx: InitContext, stage: Stage, name: Seq<char>) -> bool {
    stage matches Stage::Sysctl(i) && i < parameters(ctx).len() && parameters(ctx)[i as int].0@
        == name
}

/// Where each kernel parameter is named once, as in a map, each is written exactly once by
/// the time that the payload is executed.
pub proof fn law_each_parameter_is_written_once<E>(
    ctx: InitContext,
    replies: Seq<Reply<E>>,
    k: usize,
)
    requires
        valid_run(ctx, replies),
        ctx.container_type == ContainerType::InitContainer,
        distinct_names(parameters(ctx)),
        k < parameters(ctx).len(),
        run(ctx, replies).pending.len() > 0,
        run(ctx, replies).pending[0] is Exec,
    ensures
        exists|i: int|
            0 <= i < replies.len() && #[trigger] trace(ctx, replies)[i] == Stage::Sysctl(k),
        forall|j: int|
            0 <= j < replies.len() && writes_parameter(
                ctx,
                #[trigger] trace(ctx, replies)[j],
                parameters(ctx)[k as int].0@,
            ) ==> trace(ctx, replies)[j] == Stage::Sysctl(k),
        forall|i: int, j: int|
            0 <= i < replies.len() && 0 <= j < replies.len() && #[trigger] trace(ctx, replies)[i]
                == Stage::Sysctl(k) && #[trigger] trace(ctx, replies)[j] == Stage::Sysctl(k) ==> i
                == j,
{
    let name = parameters(ctx)[k as int].0@;
    lemma_parameter_planned(ctx, k);
    lemma_contains(spec_plan(ctx), Stage::Sysctl(k));
    law_payload_comes_last(ctx, replies, Stage::Sysctl(k));
    lemma_trace_len(ctx, replies);
    assert forall|j: int|
        0 <= j < replies.len() && writes_parameter(
            ctx,
            #[trigger] trace(ctx, replies)[j],
            name,
        ) implies trace(ctx, replies)[j] == Stage::Sysctl(k) by {
        let other = trace(ctx, replies)[j]->Sysctl_0;
        if other < k {
            assert(parameters(ctx)[other as int].0@ != parameters(ctx)[k as int].0@);
        } else if k < other {
            assert(parameters(ctx)[k as int].0@ != parameters(ctx)[other as int].0@);
        }
    }
    assert forall|i: int, j: int|
        0 <= i < replies.len() && 0 <= j < replies.len() && #[trigger] trace(ctx, replies)[i]
            == Stage::Sysctl(k) && #[trigger] trace(ctx, replies)[j] == Stage::Sysctl(
            k,
        ) implies i == j by {
        if i < j {
            law_no_stage_is_repeated(ctx, replies, i, j);
        } else if j < i {
            law_no_stage_is_repeated(ctx, replies, j, i);
        }
    }
}

/// Whether a stage of a run releases the descriptor of the container's `/dev/null`.
pub open spec fn releases(stages: Seq<Stage>, dev: i32) -> bool {
    stages.contains(Stage::DevNull(reopen_dev_null::Step::Release { dev }))
}

/// The descriptor of the container's `/dev/null` is held until it is released.
#[verifier::rlimit(50)]
proof fn lemma_dev_null_is_held<E>(ctx: InitContext, replies: Seq<Reply<E>>, j: int, dev: i32)
    requires
        valid_run(ctx, replies),
        0 <= j < replies.len(),
        trace(ctx, replies)[j] == Stage::DevNull(reopen_dev_null::Step::Open),
        replies[j] == Reply::<E>::Descriptor(Ok(dev)),
    ensures
        releases(trace(ctx, replies), dev) || (run(ctx, replies).pending.len() > 0 && (run(
            ctx,
            replies,
        ).pending[0] matches Stage::DevNull(step) && reopen_dev_null::held(step) == Some(dev))),
    decreases replies.len(),
{
    let before = replies.drop_last();
    let last = replies.len() - 1;
    lemma_trace_len(ctx, before);
    let stage = run(ctx, before).pending[0];
    assert(trace(ctx, replies)[last] == stage);
    lemma_pending_after(ctx, replies);
    if j < last {
        assert(trace(ctx, replies)[j] == trace(ctx, before)[j]);
        assert(replies[j] == before[j]);
        lemma_dev_null_is_held(ctx, before, j, dev);
        let release = Stage::DevNull(reopen_dev_null::Step::Release { dev });
        if releases(trace(ctx, before), dev) {
            let i = choose|i: int|
                0 <= i < trace(ctx, before).len() && trace(ctx, before)[i] == release;
            assert(trace(ctx, replies)[i] == release);
        } else if stage == release {
            assert(trace(ctx, replies)[last] == release);
        }
    }
}

/// The container's `/dev/null` does not stay open: when the process has ended, or has come to
/// any stage that is not about it, the descriptor has been released, whether or not looking
/// at the standard ones has failed.
pub proof fn law_dev_null_is_released<E>(
    ctx: InitContext,
    replies: Seq<Reply<E>>,
    j: int,
    dev: i32,
)
    requires
        valid_run(ctx, replies),
        0 <= j < replies.len(),
        trace(ctx, replies)[j] == Stage::DevNull(reopen_dev_null::Step::Open),
        replies[j] == Reply::<E>::Descriptor(Ok(dev)),
        run(ctx, replies).pending.len() > 0 ==> !(run(ctx, replies).pending[0] is DevNull),
    ensures
        releases(trace(ctx, replies), dev),
{
    lemma_dev_null_is_held(ctx, replies, j, dev);
}

} // verus!
