//! How the init process ends.

use crate::call::Reply;
use crate::context::{ContainerType, InitContext};
use crate::plan::{
    each, gids_plan, io_priority_plan, only_if, redirect_plan, rootfs_plan, scheduler_plan,
    seccomp_plan, spec_head, spec_plan, spec_tail, stdio_plan, umask_plan,
};
use crate::procedures::{
    apply_rest_namespaces, do_pivot_root, masked_path, move_root, prepare_rootfs, readonly_path,
    reopen_dev_null, set_supplementary_gids, sync_seccomp, unmount_or_hide,
};
use crate::process::next_call;
use crate::run::{lemma_pending_after, lemma_run_well_formed, run, valid_run};
use crate::stage::{brought_up, parameters, paths, SeccompTiming, Stage};
use vstd::prelude::*;

verus! {

/// As long as the init process has not failed it has a call to make, the last of which
/// executes the payload: it never ends as if all were done. Once it has failed it makes no
/// other call than to close a descriptor that it has open.
pub proof fn law_ends_only_by_failing<E>(ctx: InitContext, replies: Seq<Reply<E>>)
    requires
        valid_run(ctx, replies),
    ensures
        next_call(ctx, run(ctx, replies)) is None ==> run(ctx, replies).failure is Some,
        run(ctx, replies).failure is Some ==> (next_call(ctx, run(ctx, replies)) matches Some(
            call,
        ) ==> call is Close),
{
    lemma_run_well_formed(ctx, replies);
}

/// How many calls a stage can lead to, its own among them.
pub open spec fn cost(stage: Stage) -> nat {
    match stage {
        Stage::RestNamespaces(step) => match step {
            apply_rest_namespaces::Step::Apply => 4,
            apply_rest_namespaces::Step::LookUpUts => 3,
            apply_rest_namespaces::Step::Hostname => 2,
            apply_rest_namespaces::Step::Domainname => 1,
        },
        Stage::PrepareRootfs(step) => match step {
            prepare_rootfs::Step::Probe => 4,
            prepare_rootfs::Step::LookUpUser { .. } => 3,
            prepare_rootfs::Step::LookUpCgroup { .. } => 2,
            prepare_rootfs::Step::Prepare { .. } => 1,
        },
        Stage::PivotRoot(step) => match step {
            do_pivot_root::Step::LookUp => 9,
            do_pivot_root::Step::MoveRoot(step) => match step {
                move_root::Step::EnterRootfs => 8,
                move_root::Step::Sys(unmount_or_hide::Step::Unmount) => 7,
                move_root::Step::Sys(unmount_or_hide::Step::Hide) => 6,
                move_root::Step::Proc(unmount_or_hide::Step::Unmount) => 5,
                move_root::Step::Proc(unmount_or_hide::Step::Hide) => 4,
                move_root::Step::MoveMount => 3,
                move_root::Step::Chroot => 2,
                move_root::Step::EnterRoot => 1,
            },
            do_pivot_root::Step::Pivot => 1,
            do_pivot_root::Step::Chroot => 1,
        },
        Stage::DevNull(step) => match step {
            reopen_dev_null::Step::Open => 9,
            reopen_dev_null::Step::StatDevNull { .. } => 8,
            reopen_dev_null::Step::StatStdio { fd, .. } => if fd < 2 {
                (7 - 2 * fd) as nat
            } else {
                3
            },
            reopen_dev_null::Step::Redirect { fd, .. } => if fd < 2 {
                (6 - 2 * fd) as nat
            } else {
                2
            },
            reopen_dev_null::Step::Release { .. } => 1,
        },
        Stage::ReadonlyPath(_, readonly_path::Step::Bind) => 2,
        Stage::MaskedPath(_, masked_path::Step::DevNull) => 2,
        Stage::Gids(set_supplementary_gids::Step::ReadSetgroups) => 2,
        Stage::ListenFds => 2,
        Stage::Seccomp(_, step) => match step {
            sync_seccomp::Step::Initialize => 4,
            sync_seccomp::Step::Request { .. } => 3,
            sync_seccomp::Step::Wait { .. } => 2,
            sync_seccomp::Step::Close { .. } => 1,
        },
        Stage::Chdir => 23,
        _ => 1,
    }
}

/// How many calls a sequence of stages can lead to.
pub open spec fn total(stages: Seq<Stage>) -> nat
    decreases stages.len(),
{
    if stages.len() == 0 {
        0
    } else {
        total(stages.drop_last()) + cost(stages.last())
    }
}

proof fn lemma_total_add(a: Seq<Stage>, b: Seq<Stage>)
    ensures
        total(a + b) == total(a) + total(b),
    decreases b.len(),
{
    if b.len() == 0 {
        assert(a + b =~= a);
    } else {
        lemma_total_add(a, b.drop_last());
        assert((a + b).drop_last() =~= a + b.drop_last());
    }
}

proof fn lemma_total_one(stage: Stage)
    ensures
        total(seq![stage]) == cost(stage),
{
    assert(seq![stage].drop_last() =~= seq![]);
    assert(total(seq![]) == 0);
}

proof fn lemma_total_only_if(condition: bool, stage: Stage)
    ensures
        total(only_if(condition, stage)) <= cost(stage),
        !condition ==> total(only_if(condition, stage)) == 0,
{
    lemma_total_one(stage);
}

proof fn lemma_total_each(len: nat, stage: spec_fn(usize) -> Stage, c: nat)
    requires
        forall|i: usize| cost(#[trigger] stage(i)) == c,
    ensures
        total(each(len, stage)) == len * c,
    decreases len,
{
    if len > 0 {
        let before = (len - 1) as nat;
        lemma_total_each(before, stage, c);
        assert(each(len, stage).drop_last() =~= each(before, stage));
        assert(each(len, stage).last() == stage(before as usize));
        assert(len * c == before * c + c) by (nonlinear_arith)
            requires
                len == before + 1,
        ;
    } else {
        assert(len * c == 0) by (nonlinear_arith)
            requires
                len == 0,
        ;
    }
}

proof fn lemma_total_tail(ctx: InitContext, do_chdir: bool)
    ensures
        total(spec_tail(ctx, do_chdir)) <= 22,
{
    let early = seccomp_plan(ctx, SeccompTiming::BeforeCapabilities);
    let late = seccomp_plan(ctx, SeccompTiming::BeforePayload);
    let privileges = only_if(ctx.process.has_capabilities, Stage::DropPrivileges);
    let again = only_if(do_chdir, Stage::ChdirAgain);
    let home = only_if(!ctx.envs@.contains_key("HOME"@), Stage::UserHome);
    let hooks = only_if(
        ctx.container_type == ContainerType::InitContainer && ctx.has_hooks,
        Stage::StartContainerHooks,
    );
    let last = if ctx.process.has_args {
        Stage::Exec
    } else {
        Stage::MissingArgs
    };
    let p0 = gids_plan(ctx);
    lemma_total_one(Stage::Gids(set_supplementary_gids::Step::ReadSetgroups));
    assert(total(p0) <= 2);
    let p1 = lemma_append_one(p0, Stage::SetId, 2);
    let p2 = lemma_append_one(p1, Stage::ListenFds, 3);
    lemma_total_add(p2, early);
    let p3 = p2 + early;
    let initialize = |timing: SeccompTiming|
        Stage::Seccomp(timing, sync_seccomp::Step::Initialize);
    lemma_total_one(initialize(SeccompTiming::BeforeCapabilities));
    lemma_total_one(initialize(SeccompTiming::BeforePayload));
    assert(total(early) + total(late) <= 4);
    let e = total(early);
    let p4 = lemma_append_one(p3, Stage::ResetEffective, 5 + e);
    lemma_total_add(p4, privileges);
    lemma_total_only_if(ctx.process.has_capabilities, Stage::DropPrivileges);
    let p5 = p4 + privileges;
    lemma_total_add(p5, again);
    lemma_total_only_if(do_chdir, Stage::ChdirAgain);
    let p6 = p5 + again;
    let p7 = lemma_append_one(p6, Stage::VerifyCwd, 8 + e);
    lemma_total_add(p7, late);
    let p8 = p7 + late;
    lemma_total_add(p8, home);
    lemma_total_only_if(!ctx.envs@.contains_key("HOME"@), Stage::UserHome);
    let p9 = p8 + home;
    let p10 = lemma_append_one(p9, Stage::Validate, 14);
    let p11 = lemma_append_one(p10, Stage::SetupEnvs, 15);
    let p12 = lemma_append_one(p11, Stage::InitReady, 16);
    let p13 = lemma_append_one(p12, Stage::CloseMainSender, 17);
    let p14 = lemma_append_one(p13, Stage::WaitForStart, 18);
    let p15 = lemma_append_one(p14, Stage::CloseNotifyListener, 19);
    lemma_total_add(p15, hooks);
    lemma_total_only_if(
        ctx.container_type == ContainerType::InitContainer && ctx.has_hooks,
        Stage::StartContainerHooks,
    );
    let p16 = p15 + hooks;
    let p17 = lemma_append_one(p16, last, 21);
    assert(p17 == spec_tail(ctx, do_chdir));
}

proof fn lemma_append_one(stages: Seq<Stage>, stage: Stage, bound: nat) -> (longer: Seq<Stage>)
    requires
        total(stages) <= bound,
    ensures
        longer == stages + seq![stage],
        total(longer) <= bound + cost(stage),
{
    lemma_total_add(stages, seq![stage]);
    lemma_total_one(stage);
    stages + seq![stage]
}

proof fn lemma_total_redirect(fd: Option<i32>, to: i32)
    ensures
        total(redirect_plan(fd, to)) <= 2,
{
    if let Some(from) = fd {
        lemma_total_one(Stage::StdioDup { from, to });
        lemma_append_one(seq![Stage::StdioDup { from, to }], Stage::StdioClose(from), 1);
    }
}

proof fn lemma_total_stdio(ctx: InitContext)
    ensures
        total(stdio_plan(ctx)) <= 6,
{
    match ctx.console_socket {
        Some(fd) => lemma_total_one(Stage::Console(fd)),
        None => {
            let stdin = redirect_plan(ctx.stdin, 0);
            let stdout = redirect_plan(ctx.stdout, 1);
            let stderr = redirect_plan(ctx.stderr, 2);
            lemma_total_redirect(ctx.stdin, 0);
            lemma_total_redirect(ctx.stdout, 1);
            lemma_total_redirect(ctx.stderr, 2);
            lemma_total_add(stdin, stdout);
            lemma_total_add(stdin + stdout, stderr);
        },
    }
}

proof fn lemma_total_rootfs(ctx: InitContext)
    ensures
        total(rootfs_plan(ctx)) <= 24 + parameters(ctx).len(),
{
    let p0 = only_if(ctx.has_hooks, Stage::CreateContainerHooks);
    lemma_total_only_if(ctx.has_hooks, Stage::CreateContainerHooks);
    let p1 = lemma_append_one(p0, Stage::PrepareRootfs(prepare_rootfs::Step::Probe), 1);
    let p2 = lemma_append_one(p1, Stage::PivotRoot(do_pivot_root::Step::LookUp), 5);
    let p3 = lemma_append_one(p2, Stage::RootPropagation, 14);
    let p4 = lemma_append_one(p3, Stage::DevNull(reopen_dev_null::Step::Open), 15);
    let sysctl = each(parameters(ctx).len(), |i: usize| Stage::Sysctl(i));
    lemma_total_each(parameters(ctx).len(), |i: usize| Stage::Sysctl(i), 1);
    lemma_total_add(p4, sysctl);
    assert(p4 + sysctl == rootfs_plan(ctx));
}

#[verifier::rlimit(50)]
proof fn lemma_total_head(ctx: InitContext)
    ensures
        total(spec_head(ctx)) <= 41 + parameters(ctx).len() + 2 * paths(
            ctx.linux.readonly_paths,
        ).len() + 2 * paths(ctx.linux.masked_paths).len(),
{
    let n = parameters(ctx).len();
    let r = paths(ctx.linux.readonly_paths).len();
    let m = paths(ctx.linux.masked_paths).len();
    let p0 = seq![Stage::SetSid];
    lemma_total_one(Stage::SetSid);
    let p1 = p0 + io_priority_plan(ctx);
    lemma_total_add(p0, io_priority_plan(ctx));
    if io_priority_plan(ctx).len() > 0 {
        lemma_total_one(io_priority_plan(ctx)[0]);
        assert(io_priority_plan(ctx) =~= seq![io_priority_plan(ctx)[0]]);
    }
    assert(total(p1) <= 2);
    let p2 = p1 + scheduler_plan(ctx);
    lemma_total_add(p1, scheduler_plan(ctx));
    if scheduler_plan(ctx).len() > 0 {
        lemma_total_one(scheduler_plan(ctx)[0]);
        assert(scheduler_plan(ctx) =~= seq![scheduler_plan(ctx)[0]]);
    }
    assert(total(p2) <= 3);
    let p3 = p2 + stdio_plan(ctx);
    lemma_total_add(p2, stdio_plan(ctx));
    lemma_total_stdio(ctx);
    let p4 = lemma_append_one(p3, Stage::RestNamespaces(apply_rest_namespaces::Step::Apply), 9);
    let forbidden = ctx.process.no_new_privileges == Some(true);
    let p5 = p4 + only_if(forbidden, Stage::NoNewPrivileges);
    lemma_total_add(p4, only_if(forbidden, Stage::NoNewPrivileges));
    lemma_total_only_if(forbidden, Stage::NoNewPrivileges);
    let rootfs = if ctx.container_type == ContainerType::InitContainer {
        rootfs_plan(ctx)
    } else {
        seq![]
    };
    lemma_total_rootfs(ctx);
    let p6 = p5 + rootfs;
    lemma_total_add(p5, rootfs);
    assert(total(p6) <= 38 + n);
    let profile = ctx.process.apparmor_profile is Some;
    let p7 = p6 + only_if(profile, Stage::AppArmor);
    lemma_total_add(p6, only_if(profile, Stage::AppArmor));
    lemma_total_only_if(profile, Stage::AppArmor);
    let p8 = p7 + only_if(ctx.rootfs_ro, Stage::ReadonlyRoot);
    lemma_total_add(p7, only_if(ctx.rootfs_ro, Stage::ReadonlyRoot));
    lemma_total_only_if(ctx.rootfs_ro, Stage::ReadonlyRoot);
    let p9 = p8 + umask_plan(ctx);
    lemma_total_add(p8, umask_plan(ctx));
    if umask_plan(ctx).len() > 0 {
        lemma_total_one(umask_plan(ctx)[0]);
        assert(umask_plan(ctx) =~= seq![umask_plan(ctx)[0]]);
    }
    assert(total(p9) <= 41 + n);
    let bind = |i: usize| Stage::ReadonlyPath(i, readonly_path::Step::Bind);
    let p10 = p9 + each(r, bind);
    lemma_total_add(p9, each(r, bind));
    lemma_total_each(r, bind, 2);
    let mask = |i: usize| Stage::MaskedPath(i, masked_path::Step::DevNull);
    let p11 = p10 + each(m, mask);
    lemma_total_add(p10, each(m, mask));
    lemma_total_each(m, mask, 2);
    assert(p11 == spec_head(ctx));
}

/// A stage that an answer brings up stands for less.
#[verifier::rlimit(50)]
proof fn lemma_next_costs_less<E>(ctx: InitContext, stage: Stage, reply: Reply<E>)
    requires
        !(stage is Chdir),
    ensures
        brought_up(ctx, stage, reply).len() <= 1,
        brought_up(ctx, stage, reply).len() == 1 ==> cost(brought_up(ctx, stage, reply)[0]) < cost(
            stage,
        ),
        cost(stage) > 0,
{
}

/// The answer to a stage brings up less than the stage stood for.
proof fn lemma_respond_total<E>(ctx: InitContext, stage: Stage, reply: Reply<E>)
    ensures
        total(brought_up(ctx, stage, reply)) < cost(stage),
{
    let stages = brought_up(ctx, stage, reply);
    if stage is Chdir {
        lemma_total_tail(ctx, false);
        lemma_total_tail(ctx, true);
    } else {
        lemma_next_costs_less(ctx, stage, reply);
        if stages.len() > 0 {
            lemma_total_one(stages[0]);
            assert(stages =~= seq![stages[0]]);
        }
    }
}

proof fn lemma_total_run<E>(ctx: InitContext, replies: Seq<Reply<E>>)
    requires
        valid_run(ctx, replies),
    ensures
        replies.len() + total(run(ctx, replies).pending) <= total(spec_plan(ctx)),
    decreases replies.len(),
{
    if replies.len() > 0 {
        let before = replies.drop_last();
        lemma_total_run(ctx, before);
        let pending = run(ctx, before).pending;
        let rest = pending.drop_first();
        assert(pending =~= seq![pending[0]] + rest);
        lemma_total_add(seq![pending[0]], rest);
        lemma_total_one(pending[0]);
        let stages = brought_up(ctx, pending[0], replies.last());
        lemma_respond_total(ctx, pending[0], replies.last());
        lemma_total_add(stages, rest);
        lemma_pending_after(ctx, replies);
    }
}

/// The init process comes to an end, whatever the host answers: it makes no more than a
/// fixed number of calls, one more for each kernel parameter, and two more for each
/// read-only and each masked path.
pub proof fn law_calls_are_bounded<E>(ctx: InitContext, replies: Seq<Reply<E>>)
    requires
        valid_run(ctx, replies),
    ensures
        replies.len() <= 64 + parameters(ctx).len() + 2 * paths(ctx.linux.readonly_paths).len() + 2
            * paths(ctx.linux.masked_paths).len(),
{
    lemma_total_run(ctx, replies);
    lemma_total_head(ctx);
    lemma_total_tail(ctx, false);
    lemma_total_one(Stage::Chdir);
    lemma_total_add(
        spec_head(ctx),
        if ctx.process.cwd@.len() == 0 {
            spec_tail(ctx, false)
        } else {
            seq![Stage::Chdir]
        },
    );
}

} // verus!
