//! The order of the stages.

use crate::abi::{mode_bits, mode_from_bits};
use crate::context::{ContainerType, InitContext};
use crate::io_priority::{set_io_priority, spec_set_io_priority};
use crate::procedures::{
    apply_rest_namespaces, do_pivot_root, masked_path, prepare_rootfs, readonly_path,
    reopen_dev_null, set_supplementary_gids, sync_seccomp,
};
use crate::scheduler::{setup_scheduler, spec_setup_scheduler};
use crate::stage::{parameters, paths, SeccompTiming, Stage};
use vstd::prelude::*;

verus! {

/// A stage that is gone through only on a condition.
pub open spec fn only_if(condition: bool, stage: Stage) -> Seq<Stage> {
    if condition {
        seq![stage]
    } else {
        seq![]
    }
}

/// A stage for each entry of a list.
pub open spec fn each(len: nat, stage: spec_fn(usize) -> Stage) -> Seq<Stage> {
    Seq::new(len, |i: int| stage(i as usize))
}

/// The I/O priority.
pub open spec fn io_priority_plan(ctx: InitContext) -> Seq<Stage> {
    match spec_set_io_priority(ctx.process.io_priority) {
        Some((class, priority)) => seq![Stage::IoPriority { class, priority }],
        None => seq![],
    }
}

/// The CPU scheduler.
pub open spec fn scheduler_plan(ctx: InitContext) -> Seq<Stage> {
    match spec_setup_scheduler(ctx.process.scheduler) {
        Some(attr) => seq![Stage::Scheduler(attr)],
        None => seq![],
    }
}

/// A descriptor that takes the place of a standard one.
pub open spec fn redirect_plan(fd: Option<i32>, to: i32) -> Seq<Stage> {
    match fd {
        Some(from) => seq![Stage::StdioDup { from, to }] + seq![Stage::StdioClose(from)],
        None => seq![],
    }
}

/// The terminal, or else the standard descriptors.
pub open spec fn stdio_plan(ctx: InitContext) -> Seq<Stage> {
    match ctx.console_socket {
        Some(fd) => seq![Stage::Console(fd)],
        None => redirect_plan(ctx.stdin, 0) + redirect_plan(ctx.stdout, 1) + redirect_plan(
            ctx.stderr,
            2,
        ),
    }
}

/// The root file system, which only the first process of a container sets up.
pub open spec fn rootfs_plan(ctx: InitContext) -> Seq<Stage> {
    only_if(ctx.has_hooks, Stage::CreateContainerHooks) + seq![
        Stage::PrepareRootfs(prepare_rootfs::Step::Probe),
    ] + seq![Stage::PivotRoot(do_pivot_root::Step::LookUp)] + seq![Stage::RootPropagation] + seq![
        Stage::DevNull(reopen_dev_null::Step::Open),
    ] + each(parameters(ctx).len(), |i: usize| Stage::Sysctl(i))
}

/// The file mode creation mask, if it is one.
pub open spec fn umask_plan(ctx: InitContext) -> Seq<Stage> {
    match ctx.process.user.umask {
        Some(bits) => if bits & !mode_bits() == 0 {
            seq![Stage::Umask(bits)]
        } else {
            seq![Stage::InvalidUmask(bits)]
        },
        None => seq![],
    }
}

/// What comes before the process changes to the working directory of the payload.
pub open spec fn spec_head(ctx: InitContext) -> Seq<Stage> {
    seq![Stage::SetSid] + io_priority_plan(ctx) + scheduler_plan(ctx) + stdio_plan(ctx) + seq![
        Stage::RestNamespaces(apply_rest_namespaces::Step::Apply),
    ] + only_if(ctx.process.no_new_privileges == Some(true), Stage::NoNewPrivileges) + (
    if ctx.container_type == ContainerType::InitContainer {
        rootfs_plan(ctx)
    } else {
        seq![]
    }) + only_if(ctx.process.apparmor_profile is Some, Stage::AppArmor) + only_if(
        ctx.rootfs_ro,
        Stage::ReadonlyRoot,
    ) + umask_plan(ctx) + each(
        paths(ctx.linux.readonly_paths).len(),
        |i: usize| Stage::ReadonlyPath(i, readonly_path::Step::Bind),
    ) + each(
        paths(ctx.linux.masked_paths).len(),
        |i: usize| Stage::MaskedPath(i, masked_path::Step::DevNull),
    )
}

/// The supplementary groups.
pub open spec fn gids_plan(ctx: InitContext) -> Seq<Stage> {
    match set_supplementary_gids::spec_start(ctx.process.user) {
        Some(step) => seq![Stage::Gids(step)],
        None => seq![],
    }
}

/// When the seccomp profile is installed: late only where new privileges are forbidden to
/// the process, since otherwise it takes a capability that is dropped by then.
pub open spec fn seccomp_timing(ctx: InitContext) -> SeccompTiming {
    if ctx.process.no_new_privileges == Some(true) {
        SeccompTiming::BeforePayload
    } else {
        SeccompTiming::BeforeCapabilities
    }
}

/// The seccomp profile, at one of the two moments at which it can be installed.
pub open spec fn seccomp_plan(ctx: InitContext, timing: SeccompTiming) -> Seq<Stage> {
    only_if(
        ctx.linux.has_seccomp && timing == seccomp_timing(ctx),
        Stage::Seccomp(timing, sync_seccomp::Step::Initialize),
    )
}

/// What comes after, up to the payload. The process changes to the working directory here
/// if it was not permitted to do so before it took on the user of the payload.
pub open spec fn spec_tail(ctx: InitContext, do_chdir: bool) -> Seq<Stage> {
    gids_plan(ctx) + seq![Stage::SetId] + seq![Stage::ListenFds] + seccomp_plan(
        ctx,
        SeccompTiming::BeforeCapabilities,
    ) + seq![Stage::ResetEffective] + only_if(ctx.process.has_capabilities, Stage::DropPrivileges)
        + only_if(do_chdir, Stage::ChdirAgain) + seq![Stage::VerifyCwd] + seccomp_plan(
        ctx,
        SeccompTiming::BeforePayload,
    ) + only_if(!ctx.envs@.contains_key("HOME"@), Stage::UserHome) + seq![Stage::Validate]
        + seq![Stage::SetupEnvs] + seq![Stage::InitReady] + seq![Stage::CloseMainSender] + seq![
        Stage::WaitForStart,
    ] + seq![Stage::CloseNotifyListener] + only_if(
        ctx.container_type == ContainerType::InitContainer && ctx.has_hooks,
        Stage::StartContainerHooks,
    ) + seq![
        if ctx.process.has_args {
            Stage::Exec
        } else {
            Stage::MissingArgs
        },
    ]
}

/// All stages that the context alone calls for. A working directory that is empty is not
/// changed to; else the answer to that change brings up what comes after it.
pub open spec fn spec_plan(ctx: InitContext) -> Seq<Stage> {
    spec_head(ctx) + if ctx.process.cwd@.len() == 0 {
        spec_tail(ctx, false)
    } else {
        seq![Stage::Chdir]
    }
}

fn push_if(plan: &mut Vec<Stage>, condition: bool, stage: Stage)
    ensures
        final(plan)@ == old(plan)@ + only_if(condition, stage),
{
    if condition {
        plan.push(stage);
    }
    assert(plan@ =~= old(plan)@ + only_if(condition, stage));
}

fn push_redirect(plan: &mut Vec<Stage>, fd: Option<i32>, to: i32)
    ensures
        final(plan)@ == old(plan)@ + redirect_plan(fd, to),
{
    if let Some(from) = fd {
        plan.push(Stage::StdioDup { from, to });
        plan.push(Stage::StdioClose(from));
    }
    assert(plan@ =~= old(plan)@ + redirect_plan(fd, to));
}

fn push_stdio(plan: &mut Vec<Stage>, ctx: &InitContext)
    ensures
        final(plan)@ == old(plan)@ + stdio_plan(*ctx),
{
    match ctx.console_socket {
        Some(fd) => plan.push(Stage::Console(fd)),
        None => {
            push_redirect(plan, ctx.stdin, 0);
            push_redirect(plan, ctx.stdout, 1);
            push_redirect(plan, ctx.stderr, 2);
        },
    }
    assert(plan@ =~= old(plan)@ + stdio_plan(*ctx));
}

fn push_io_priority(plan: &mut Vec<Stage>, ctx: &InitContext)
    ensures
        final(plan)@ == old(plan)@ + io_priority_plan(*ctx),
{
    if let Ok(Some((class, priority))) = set_io_priority::<()>(&ctx.process.io_priority) {
        plan.push(Stage::IoPriority { class, priority });
    }
    assert(plan@ =~= old(plan)@ + io_priority_plan(*ctx));
}

fn push_scheduler(plan: &mut Vec<Stage>, ctx: &InitContext)
    ensures
        final(plan)@ == old(plan)@ + scheduler_plan(*ctx),
{
    if let Some(attr) = setup_scheduler(&ctx.process.scheduler) {
        plan.push(Stage::Scheduler(attr));
    }
    assert(plan@ =~= old(plan)@ + scheduler_plan(*ctx));
}

fn push_sysctl(plan: &mut Vec<Stage>, ctx: &InitContext)
    ensures
        final(plan)@ == old(plan)@ + each(parameters(*ctx).len(), |i: usize| Stage::Sysctl(i)),
{
    let len: usize = match &ctx.linux.sysctl {
        Some(parameters) => parameters.len(),
        None => 0,
    };
    let mut i: usize = 0;
    while i < len
        invariant
            i <= len,
            plan@ == old(plan)@ + each(i as nat, |i: usize| Stage::Sysctl(i)),
        decreases len - i,
    {
        plan.push(Stage::Sysctl(i));
        assert(plan@ =~= old(plan)@ + each((i + 1) as nat, |i: usize| Stage::Sysctl(i)));
        i += 1;
    }
}

fn push_readonly_paths(plan: &mut Vec<Stage>, ctx: &InitContext)
    ensures
        final(plan)@ == old(plan)@ + each(
            paths(ctx.linux.readonly_paths).len(),
            |i: usize| Stage::ReadonlyPath(i, readonly_path::Step::Bind),
        ),
{
    let len: usize = match &ctx.linux.readonly_paths {
        Some(paths) => paths.len(),
        None => 0,
    };
    let mut i: usize = 0;
    while i < len
        invariant
            i <= len,
            plan@ == old(plan)@ + each(
                i as nat,
                |i: usize| Stage::ReadonlyPath(i, readonly_path::Step::Bind),
            ),
        decreases len - i,
    {
        plan.push(Stage::ReadonlyPath(i, readonly_path::Step::Bind));
        assert(plan@ =~= old(plan)@ + each(
            (i + 1) as nat,
            |i: usize| Stage::ReadonlyPath(i, readonly_path::Step::Bind),
        ));
        i += 1;
    }
}

fn push_masked_paths(plan: &mut Vec<Stage>, ctx: &InitContext)
    ensures
        final(plan)@ == old(plan)@ + each(
            paths(ctx.linux.masked_paths).len(),
            |i: usize| Stage::MaskedPath(i, masked_path::Step::DevNull),
        ),
{
    let len: usize = match &ctx.linux.masked_paths {
        Some(paths) => paths.len(),
        None => 0,
    };
    let mut i: usize = 0;
    while i < len
        invariant
            i <= len,
            plan@ == old(plan)@ + each(
                i as nat,
                |i: usize| Stage::MaskedPath(i, masked_path::Step::DevNull),
            ),
        decreases len - i,
    {
        plan.push(Stage::MaskedPath(i, masked_path::Step::DevNull));
        assert(plan@ =~= old(plan)@ + each(
            (i + 1) as nat,
            |i: usize| Stage::MaskedPath(i, masked_path::Step::DevNull),
        ));
        i += 1;
    }
}

fn push_rootfs(plan: &mut Vec<Stage>, ctx: &InitContext)
    ensures
        final(plan)@ == old(plan)@ + rootfs_plan(*ctx),
{
    // The create_container hooks run in the namespaces of the container, but before its
    // root is entered.
    push_if(plan, ctx.has_hooks, Stage::CreateContainerHooks);
    plan.push(Stage::PrepareRootfs(prepare_rootfs::Step::Probe));
    plan.push(Stage::PivotRoot(do_pivot_root::Step::LookUp));
    plan.push(Stage::RootPropagation);
    plan.push(Stage::DevNull(reopen_dev_null::Step::Open));
    push_sysctl(plan, ctx);
    assert(plan@ =~= old(plan)@ + rootfs_plan(*ctx));
}

fn push_umask(plan: &mut Vec<Stage>, ctx: &InitContext)
    ensures
        final(plan)@ == old(plan)@ + umask_plan(*ctx),
{
    if let Some(umask) = ctx.process.user.umask {
        match mode_from_bits(umask) {
            Some(mode) => plan.push(Stage::Umask(mode)),
            None => plan.push(Stage::InvalidUmask(umask)),
        }
    }
    assert(plan@ =~= old(plan)@ + umask_plan(*ctx));
}

/// Whether new privileges are forbidden to the payload.
fn forbids_new_privileges(ctx: &InitContext) -> (forbidden: bool)
    ensures
        forbidden == (ctx.process.no_new_privileges == Some(true)),
{
    match ctx.process.no_new_privileges {
        Some(forbidden) => forbidden,
        None => false,
    }
}

fn head(ctx: &InitContext) -> (plan: Vec<Stage>)
    ensures
        plan@ == spec_head(*ctx),
{
    let mut plan: Vec<Stage> = Vec::new();
    plan.push(Stage::SetSid);
    assert(plan@ =~= seq![Stage::SetSid]);
    push_io_priority(&mut plan, ctx);
    push_scheduler(&mut plan, ctx);
    push_stdio(&mut plan, ctx);
    push_if(&mut plan, true, Stage::RestNamespaces(apply_rest_namespaces::Step::Apply));
    push_if(&mut plan, forbids_new_privileges(ctx), Stage::NoNewPrivileges);
    let ghost before = plan@;
    if let ContainerType::InitContainer = ctx.container_type {
        push_rootfs(&mut plan, ctx);
    }
    assert(plan@ =~= before + (if ctx.container_type == ContainerType::InitContainer {
        rootfs_plan(*ctx)
    } else {
        seq![]
    }));
    push_if(&mut plan, ctx.process.apparmor_profile.is_some(), Stage::AppArmor);
    push_if(&mut plan, ctx.rootfs_ro, Stage::ReadonlyRoot);
    push_umask(&mut plan, ctx);
    push_readonly_paths(&mut plan, ctx);
    push_masked_paths(&mut plan, ctx);
    plan
}

fn push_seccomp(plan: &mut Vec<Stage>, ctx: &InitContext, timing: SeccompTiming)
    ensures
        final(plan)@ == old(plan)@ + seccomp_plan(*ctx, timing),
{
    let forbidden = forbids_new_privileges(ctx);
    let moment = match timing {
        SeccompTiming::BeforeCapabilities => !forbidden,
        SeccompTiming::BeforePayload => forbidden,
    };
    push_if(
        plan,
        ctx.linux.has_seccomp && moment,
        Stage::Seccomp(timing, sync_seccomp::Step::Initialize),
    );
}

/// What comes after the working directory has been changed to.
pub fn tail(ctx: &InitContext, do_chdir: bool) -> (plan: Vec<Stage>)
    ensures
        plan@ == spec_tail(*ctx, do_chdir),
{
    let mut plan: Vec<Stage> = Vec::new();
    if let Some(step) = set_supplementary_gids::start(&ctx.process.user) {
        plan.push(Stage::Gids(step));
    }
    assert(plan@ =~= gids_plan(*ctx));
    push_if(&mut plan, true, Stage::SetId);
    push_if(&mut plan, true, Stage::ListenFds);
    push_seccomp(&mut plan, ctx, SeccompTiming::BeforeCapabilities);
    push_if(&mut plan, true, Stage::ResetEffective);
    push_if(&mut plan, ctx.process.has_capabilities, Stage::DropPrivileges);
    push_if(&mut plan, do_chdir, Stage::ChdirAgain);
    push_if(&mut plan, true, Stage::VerifyCwd);
    push_seccomp(&mut plan, ctx, SeccompTiming::BeforePayload);
    push_if(&mut plan, !ctx.envs.contains_key("HOME"), Stage::UserHome);
    push_if(&mut plan, true, Stage::Validate);
    push_if(&mut plan, true, Stage::SetupEnvs);
    // The pid outside the pid namespace is known to the main process already.
    push_if(&mut plan, true, Stage::InitReady);
    push_if(&mut plan, true, Stage::CloseMainSender);
    push_if(&mut plan, true, Stage::WaitForStart);
    push_if(&mut plan, true, Stage::CloseNotifyListener);
    let first = match ctx.container_type {
        ContainerType::InitContainer => true,
        ContainerType::TenantContainer => false,
    };
    push_if(&mut plan, first && ctx.has_hooks, Stage::StartContainerHooks);
    let last = if ctx.process.has_args {
        Stage::Exec
    } else {
        Stage::MissingArgs
    };
    push_if(&mut plan, true, last);
    plan
}

/// All stages that the context alone calls for.
pub fn plan(ctx: &InitContext) -> (stages: Vec<Stage>)
    ensures
        stages@ == spec_plan(*ctx),
{
    let mut stages: Vec<Stage> = head(ctx);
    if ctx.process.cwd.is_empty() {
        let mut rest: Vec<Stage> = tail(ctx, false);
        stages.append(&mut rest);
    } else {
        stages.push(Stage::Chdir);
    }
    assert(stages@ =~= spec_plan(*ctx));
    stages
}

} // verus!
