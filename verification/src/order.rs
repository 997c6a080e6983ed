//! The order in which the init process goes through its stages.

use crate::call::Reply;
use crate::context::{ContainerType, InitContext};
use crate::ending::cost;
use crate::plan::{
    each, gids_plan, io_priority_plan, only_if, redirect_plan, rootfs_plan, scheduler_plan,
    seccomp_plan, spec_head, spec_plan, spec_tail, stdio_plan, umask_plan,
};
use crate::procedures::{
    apply_rest_namespaces, do_pivot_root, masked_path, prepare_rootfs, readonly_path,
    reopen_dev_null,
};
use crate::run::{lemma_pending_after, lemma_trace_len, run, trace, valid_run};
use crate::stage::{brought_up, parameters, paths, SeccompTiming, Stage};
use crate::stages::{all, group_all};
use vstd::prelude::*;

verus! {

/// The place of a stage in the order of the init process. The stages of one procedure
/// share a place.
pub open spec fn place(stage: Stage) -> int {
    match stage {
        Stage::SetSid => 0,
        Stage::IoPriority { .. } => 1,
        Stage::Scheduler(_) => 2,
        Stage::Console(_) => 3,
        Stage::StdioDup { .. } => 3,
        Stage::StdioClose(_) => 3,
        Stage::RestNamespaces(_) => 4,
        Stage::NoNewPrivileges => 5,
        Stage::CreateContainerHooks => 6,
        Stage::PrepareRootfs(_) => 7,
        Stage::PivotRoot(_) => 8,
        Stage::RootPropagation => 9,
        Stage::DevNull(_) => 10,
        Stage::Sysctl(_) => 11,
        Stage::AppArmor => 12,
        Stage::ReadonlyRoot => 13,
        Stage::Umask(_) => 14,
        Stage::InvalidUmask(_) => 14,
        Stage::ReadonlyPath(_, _) => 15,
        Stage::MaskedPath(_, _) => 16,
        Stage::Chdir => 17,
        Stage::Gids(_) => 18,
        Stage::SetId => 19,
        Stage::ListenFds => 20,
        Stage::CloseRange(_) => 20,
        Stage::Seccomp(SeccompTiming::BeforeCapabilities, _) => 21,
        Stage::ResetEffective => 22,
        Stage::DropPrivileges => 23,
        Stage::ChdirAgain => 24,
        Stage::VerifyCwd => 25,
        Stage::Seccomp(SeccompTiming::BeforePayload, _) => 26,
        Stage::UserHome => 27,
        Stage::Validate => 28,
        Stage::SetupEnvs => 29,
        Stage::InitReady => 30,
        Stage::CloseMainSender => 31,
        Stage::WaitForStart => 32,
        Stage::CloseNotifyListener => 33,
        Stage::StartContainerHooks => 34,
        Stage::MissingArgs => 35,
        Stage::Exec => 35,
    }
}

/// The entry of a list that a stage is for.
pub open spec fn entry(stage: Stage) -> int {
    match stage {
        Stage::StdioDup { to, .. } => to as int,
        Stage::Sysctl(i) => i as int,
        Stage::ReadonlyPath(i, _) => i as int,
        Stage::MaskedPath(i, _) => i as int,
        _ => 0,
    }
}

/// Whether a stage stands for another part of the order, before that of the other. The
/// standard descriptors may come from the same one, which is then closed more than once.
pub open spec fn apart(first: Stage, second: Stage) -> bool {
    ||| place(first) < place(second)
    ||| place(first) == place(second) && entry(first) < entry(second)
    ||| place(first) == place(second) && first is StdioClose
    ||| place(first) == place(second) && second is StdioClose
}

/// Whether a stage stands before another: in another part of the order, or in the same
/// procedure with more still to come.
pub open spec fn before(first: Stage, second: Stage) -> bool {
    ||| apart(first, second)
    ||| place(first) == place(second) && entry(first) == entry(second) && cost(first) > cost(second)
}

/// The stages stand for different parts, in their order.
pub open spec fn in_parts(stages: Seq<Stage>) -> bool {
    forall|i: int, j: int|
        0 <= i < j < stages.len() ==> apart(#[trigger] stages[i], #[trigger] stages[j])
}

/// The stages stand in order.
pub open spec fn in_order(stages: Seq<Stage>) -> bool {
    forall|i: int, j: int|
        0 <= i < j < stages.len() ==> before(#[trigger] stages[i], #[trigger] stages[j])
}

/// Two sequences in order make one where a place lies between them.
proof fn lemma_in_parts_add(a: Seq<Stage>, b: Seq<Stage>, k: int)
    requires
        in_parts(a),
        in_parts(b),
        all(a, |stage: Stage| place(stage) < k),
        all(b, |stage: Stage| place(stage) >= k),
    ensures
        in_parts(a + b),
{
    reveal(all);
    let low = |stage: Stage| place(stage) < k;
    let high = |stage: Stage| place(stage) >= k;
    assert forall|i: int, j: int| 0 <= i < j < (a + b).len() implies apart(
        #[trigger] (a + b)[i],
        #[trigger] (a + b)[j],
    ) by {
        if i < a.len() && j >= a.len() {
            assert(low(a[i]));
            assert(high(b[j - a.len()]));
        }
    }
}

/// The entries of a list are different parts.
proof fn lemma_in_parts_each(len: nat, stage: spec_fn(usize) -> Stage, k: int)
    requires
        len <= usize::MAX,
        forall|i: usize| #[trigger] place(stage(i)) == k && entry(stage(i)) == i,
    ensures
        in_parts(each(len, stage)),
{
    let stages = each(len, stage);
    assert forall|i: int, j: int| 0 <= i < j < stages.len() implies apart(
        #[trigger] stages[i],
        #[trigger] stages[j],
    ) by {
        assert(place(stage(i as usize)) == k && place(stage(j as usize)) == k);
    }
}

/// Two descriptors take the places of different standard ones.
proof fn lemma_redirects_add(a: Seq<Stage>, b: Seq<Stage>, to: int)
    requires
        in_parts(a),
        in_parts(b),
        all(a, |stage: Stage| place(stage) == 3 && (stage is StdioClose || entry(stage) < to)),
        all(b, |stage: Stage| place(stage) == 3 && (stage is StdioClose || entry(stage) >= to)),
    ensures
        in_parts(a + b),
{
    reveal(all);
    let low = |stage: Stage|
        place(stage) == 3 && (stage is StdioClose || entry(stage) < to);
    let high = |stage: Stage|
        place(stage) == 3 && (stage is StdioClose || entry(stage) >= to);
    assert forall|i: int, j: int| 0 <= i < j < (a + b).len() implies apart(
        #[trigger] (a + b)[i],
        #[trigger] (a + b)[j],
    ) by {
        if i < a.len() && j >= a.len() {
            assert(low(a[i]));
            assert(high(b[j - a.len()]));
        }
    }
}

proof fn lemma_stdio_in_order(ctx: InitContext)
    ensures
        in_parts(stdio_plan(ctx)),
{
    broadcast use group_all;

    if ctx.console_socket is None {
        let stdin = redirect_plan(ctx.stdin, 0);
        let stdout = redirect_plan(ctx.stdout, 1);
        let stderr = redirect_plan(ctx.stderr, 2);
        lemma_redirects_add(stdin, stdout, 1);
        lemma_redirects_add(stdin + stdout, stderr, 2);
    }
}

/// The lists of a context are no longer than memory.
proof fn lemma_list_lengths(ctx: InitContext)
    ensures
        parameters(ctx).len() <= usize::MAX,
        paths(ctx.linux.readonly_paths).len() <= usize::MAX,
        paths(ctx.linux.masked_paths).len() <= usize::MAX,
{
    if let Some(parameters) = ctx.linux.sysctl {
        assert(parameters.len() == parameters@.len());
    }
    if let Some(paths) = ctx.linux.readonly_paths {
        assert(paths.len() == paths@.len());
    }
    if let Some(paths) = ctx.linux.masked_paths {
        assert(paths.len() == paths@.len());
    }
}

proof fn lemma_head_in_order(ctx: InitContext)
    ensures
        in_parts(spec_head(ctx)),
        all(spec_head(ctx), |stage: Stage| place(stage) < 17),
{
    broadcast use group_all;

    let p0 = seq![Stage::SetSid];
    let p1 = p0 + io_priority_plan(ctx);
    lemma_in_parts_add(p0, io_priority_plan(ctx), 1);
    let p2 = p1 + scheduler_plan(ctx);
    lemma_in_parts_add(p1, scheduler_plan(ctx), 2);
    let p3 = p2 + stdio_plan(ctx);
    lemma_stdio_in_order(ctx);
    lemma_in_parts_add(p2, stdio_plan(ctx), 3);
    let namespaces = seq![Stage::RestNamespaces(apply_rest_namespaces::Step::Apply)];
    let p4 = p3 + namespaces;
    lemma_in_parts_add(p3, namespaces, 4);
    let privileges = only_if(
        ctx.process.no_new_privileges == Some(true),
        Stage::NoNewPrivileges,
    );
    let p5 = p4 + privileges;
    lemma_in_parts_add(p4, privileges, 5);
    let rootfs = if ctx.container_type == ContainerType::InitContainer {
        rootfs_plan(ctx)
    } else {
        seq![]
    };
    lemma_rootfs_in_order(ctx);
    let p6 = p5 + rootfs;
    lemma_in_parts_add(p5, rootfs, 6);
    let apparmor = only_if(ctx.process.apparmor_profile is Some, Stage::AppArmor);
    let p7 = p6 + apparmor;
    lemma_in_parts_add(p6, apparmor, 12);
    let readonly = only_if(ctx.rootfs_ro, Stage::ReadonlyRoot);
    let p8 = p7 + readonly;
    lemma_in_parts_add(p7, readonly, 13);
    let p9 = p8 + umask_plan(ctx);
    lemma_in_parts_add(p8, umask_plan(ctx), 14);
    let readonly_paths = each(
        paths(ctx.linux.readonly_paths).len(),
        |i: usize| Stage::ReadonlyPath(i, readonly_path::Step::Bind),
    );
    lemma_list_lengths(ctx);
    lemma_in_parts_each(
        paths(ctx.linux.readonly_paths).len(),
        |i: usize| Stage::ReadonlyPath(i, readonly_path::Step::Bind),
        15,
    );
    let p10 = p9 + readonly_paths;
    lemma_in_parts_add(p9, readonly_paths, 15);
    let masked_paths = each(
        paths(ctx.linux.masked_paths).len(),
        |i: usize| Stage::MaskedPath(i, masked_path::Step::DevNull),
    );
    lemma_in_parts_each(
        paths(ctx.linux.masked_paths).len(),
        |i: usize| Stage::MaskedPath(i, masked_path::Step::DevNull),
        16,
    );
    lemma_in_parts_add(p10, masked_paths, 16);
    assert(p10 + masked_paths == spec_head(ctx));
}

proof fn lemma_rootfs_in_order(ctx: InitContext)
    ensures
        in_parts(rootfs_plan(ctx)),
        all(rootfs_plan(ctx), |stage: Stage| place(stage) >= 6),
        all(rootfs_plan(ctx), |stage: Stage| place(stage) < 12),
{
    broadcast use group_all;

    let p0 = only_if(ctx.has_hooks, Stage::CreateContainerHooks);
    let prepare = seq![Stage::PrepareRootfs(prepare_rootfs::Step::Probe)];
    let p1 = p0 + prepare;
    lemma_in_parts_add(p0, prepare, 7);
    let pivot = seq![Stage::PivotRoot(do_pivot_root::Step::LookUp)];
    let p2 = p1 + pivot;
    lemma_in_parts_add(p1, pivot, 8);
    let propagation = seq![Stage::RootPropagation];
    let p3 = p2 + propagation;
    lemma_in_parts_add(p2, propagation, 9);
    let dev_null = seq![Stage::DevNull(reopen_dev_null::Step::Open)];
    let p4 = p3 + dev_null;
    lemma_in_parts_add(p3, dev_null, 10);
    let sysctl = each(parameters(ctx).len(), |i: usize| Stage::Sysctl(i));
    lemma_list_lengths(ctx);
    lemma_in_parts_each(parameters(ctx).len(), |i: usize| Stage::Sysctl(i), 11);
    lemma_in_parts_add(p4, sysctl, 11);
    assert(p4 + sysctl == rootfs_plan(ctx));
}

/// What comes after the change to the working directory is in order, and has later places.
pub proof fn lemma_tail_in_order(ctx: InitContext, do_chdir: bool)
    ensures
        in_parts(spec_tail(ctx, do_chdir)),
        all(spec_tail(ctx, do_chdir), |stage: Stage| place(stage) >= 18),
{
    broadcast use group_all;

    let p0 = gids_plan(ctx);
    let p1 = p0 + seq![Stage::SetId];
    lemma_in_parts_add(p0, seq![Stage::SetId], 19);
    let p2 = p1 + seq![Stage::ListenFds];
    lemma_in_parts_add(p1, seq![Stage::ListenFds], 20);
    let early = seccomp_plan(ctx, SeccompTiming::BeforeCapabilities);
    let p3 = p2 + early;
    lemma_in_parts_add(p2, early, 21);
    let p4 = p3 + seq![Stage::ResetEffective];
    lemma_in_parts_add(p3, seq![Stage::ResetEffective], 22);
    let privileges = only_if(ctx.process.has_capabilities, Stage::DropPrivileges);
    let p5 = p4 + privileges;
    lemma_in_parts_add(p4, privileges, 23);
    let again = only_if(do_chdir, Stage::ChdirAgain);
    let p6 = p5 + again;
    lemma_in_parts_add(p5, again, 24);
    let p7 = p6 + seq![Stage::VerifyCwd];
    lemma_in_parts_add(p6, seq![Stage::VerifyCwd], 25);
    let late = seccomp_plan(ctx, SeccompTiming::BeforePayload);
    let p8 = p7 + late;
    lemma_in_parts_add(p7, late, 26);
    let home = only_if(!ctx.envs@.contains_key("HOME"@), Stage::UserHome);
    let p9 = p8 + home;
    lemma_in_parts_add(p8, home, 27);
    let p10 = p9 + seq![Stage::Validate];
    lemma_in_parts_add(p9, seq![Stage::Validate], 28);
    let p11 = p10 + seq![Stage::SetupEnvs];
    lemma_in_parts_add(p10, seq![Stage::SetupEnvs], 29);
    let p12 = p11 + seq![Stage::InitReady];
    lemma_in_parts_add(p11, seq![Stage::InitReady], 30);
    let p13 = p12 + seq![Stage::CloseMainSender];
    lemma_in_parts_add(p12, seq![Stage::CloseMainSender], 31);
    let p14 = p13 + seq![Stage::WaitForStart];
    lemma_in_parts_add(p13, seq![Stage::WaitForStart], 32);
    let p15 = p14 + seq![Stage::CloseNotifyListener];
    lemma_in_parts_add(p14, seq![Stage::CloseNotifyListener], 33);
    let hooks = only_if(
        ctx.container_type == ContainerType::InitContainer && ctx.has_hooks,
        Stage::StartContainerHooks,
    );
    let p16 = p15 + hooks;
    lemma_in_parts_add(p15, hooks, 34);
    let last = seq![
        if ctx.process.has_args {
            Stage::Exec
        } else {
            Stage::MissingArgs
        },
    ];
    lemma_in_parts_add(p16, last, 35);
    assert(p16 + last == spec_tail(ctx, do_chdir));
}

/// The answer to a stage brings up at most one stage, which goes on with its procedure;
/// only the change to the working directory brings up all that comes after it.
#[verifier::rlimit(50)]
proof fn lemma_respond_place<E>(ctx: InitContext, stage: Stage, reply: Reply<E>)
    ensures
        stage is Chdir ==> in_parts(brought_up(ctx, stage, reply)) && all(
            brought_up(ctx, stage, reply),
            |other: Stage| place(other) >= 18,
        ),
        !(stage is Chdir) ==> brought_up(ctx, stage, reply).len() <= 1 && all(
            brought_up(ctx, stage, reply),
            |other: Stage| goes_on(stage, other),
        ),
{
    broadcast use group_all;

    lemma_tail_in_order(ctx, false);
    lemma_tail_in_order(ctx, true);
}

/// Whether a stage goes on with the procedure of another.
spec fn goes_on(stage: Stage, next: Stage) -> bool {
    &&& place(stage) == place(next)
    &&& !(stage is StdioClose)
    &&& !(next is StdioClose)
    &&& entry(stage) == entry(next)
    &&& cost(stage) > cost(next)
}

/// How the stages that are done and those that are pending stand to each other.
spec fn ordered(done: Seq<Stage>, pending: Seq<Stage>) -> bool {
    &&& in_order(done)
    &&& in_parts(pending)
    &&& forall|i: int, j: int|
        0 <= i < done.len() && 0 <= j < pending.len() ==> before(
            #[trigger] done[i],
            #[trigger] pending[j],
        )
    &&& forall|j: int|
        0 <= j < pending.len() && #[trigger] pending[j] is Chdir ==> j == pending.len() - 1
}

proof fn lemma_ordered_start(ctx: InitContext)
    ensures
        ordered(seq![], spec_plan(ctx)),
{
    broadcast use group_all;

    lemma_head_in_order(ctx);
    lemma_tail_in_order(ctx, false);
    let rest = if ctx.process.cwd@.len() == 0 {
        spec_tail(ctx, false)
    } else {
        seq![Stage::Chdir]
    };
    assert(all(rest, |stage: Stage| place(stage) >= 17));
    lemma_in_parts_add(spec_head(ctx), rest, 17);
    let head = spec_head(ctx);
    let plan = spec_plan(ctx);
    reveal(all);
    let low = |stage: Stage| place(stage) < 17;
    let high = |stage: Stage| place(stage) >= 18;
    assert forall|j: int| 0 <= j < plan.len() && #[trigger] plan[j] is Chdir implies j == plan.len()
        - 1 by {
        if j < head.len() {
            assert(low(head[j]));
        } else if ctx.process.cwd@.len() == 0 {
            assert(high(spec_tail(ctx, false)[j - head.len()]));
        }
    }
}

/// The stages that an answer brings up keep the order.
proof fn lemma_ordered_step(done: Seq<Stage>, pending: Seq<Stage>, stages: Seq<Stage>)
    requires
        ordered(done, pending),
        pending.len() > 0,
        pending[0] is Chdir ==> in_parts(stages) && all(
            stages,
            |other: Stage| place(other) >= 18,
        ),
        !(pending[0] is Chdir) ==> stages.len() <= 1 && all(
            stages,
            |other: Stage| goes_on(pending[0], other),
        ),
    ensures
        ordered(done.push(pending[0]), stages + pending.drop_first()),
{
    reveal(all);
    let stage = pending[0];
    let rest = pending.drop_first();
    let after = stages + rest;
    let longer = done.push(stage);
    assert forall|j: int| 0 <= j < stages.len() implies before(stage, #[trigger] stages[j])
        && !(stages[j] is Chdir) by {
        if stage is Chdir {
            let high = |other: Stage| place(other) >= 18;
            assert(high(stages[j]));
        } else {
            let same = |other: Stage| goes_on(pending[0], other);
            assert(same(stages[j]));
        }
    }
    assert forall|j: int| 0 <= j < rest.len() implies apart(stage, #[trigger] rest[j]) by {
        assert(rest[j] == pending[j + 1]);
    }
    assert forall|i: int, j: int| 0 <= i < done.len() && 0 <= j < stages.len() implies before(
        #[trigger] done[i],
        #[trigger] stages[j],
    ) by {
        assert(before(done[i], pending[0]));
        if stage is Chdir {
            let high = |other: Stage| place(other) >= 18;
            assert(high(stages[j]));
        } else {
            let same = |other: Stage| goes_on(pending[0], other);
            assert(same(stages[j]));
        }
    }
    assert forall|i: int, j: int| 0 <= i < stages.len() && 0 <= j < rest.len() implies apart(
        #[trigger] stages[i],
        #[trigger] rest[j],
    ) by {
        assert(rest[j] == pending[j + 1]);
        let same = |other: Stage| goes_on(pending[0], other);
        assert(same(stages[i]));
    }
    assert forall|i: int, j: int| 0 <= i < j < rest.len() implies apart(
        #[trigger] rest[i],
        #[trigger] rest[j],
    ) by {
        assert(rest[i] == pending[i + 1] && rest[j] == pending[j + 1]);
    }
    assert forall|i: int, j: int|
        0 <= i < longer.len() && 0 <= j < after.len() implies before(
        #[trigger] longer[i],
        #[trigger] after[j],
    ) by {
        if i < done.len() && j >= stages.len() {
            assert(after[j] == pending[j - stages.len() + 1]);
        }
    }
    assert forall|j: int| 0 <= j < after.len() && #[trigger] after[j] is Chdir implies j
        == after.len() - 1 by {
        if j >= stages.len() {
            assert(after[j] == pending[j - stages.len() + 1]);
        }
    }
}

proof fn lemma_ordered_run<E>(ctx: InitContext, replies: Seq<Reply<E>>)
    requires
        valid_run(ctx, replies),
    ensures
        ordered(trace(ctx, replies), run(ctx, replies).pending),
    decreases replies.len(),
{
    if replies.len() == 0 {
        lemma_ordered_start(ctx);
    } else {
        let before = replies.drop_last();
        lemma_ordered_run(ctx, before);
        let done = trace(ctx, before);
        let pending = run(ctx, before).pending;
        let stages = brought_up(ctx, pending[0], replies.last());
        lemma_respond_place(ctx, pending[0], replies.last());
        lemma_ordered_step(done, pending, stages);
        lemma_ordered_step(done, seq![pending[0]], stages);
        assert(stages + seq![pending[0]].drop_first() =~= stages);
        lemma_pending_after(ctx, replies);
    }
}

/// The init process goes through its stages in their order, whatever the host answers.
pub proof fn law_stages_in_order<E>(ctx: InitContext, replies: Seq<Reply<E>>)
    requires
        valid_run(ctx, replies),
    ensures
        in_order(trace(ctx, replies)),
        in_order(run(ctx, replies).pending),
        forall|i: int, j: int|
            0 <= i < replies.len() && 0 <= j < run(ctx, replies).pending.len() ==> before(
                #[trigger] trace(ctx, replies)[i],
                #[trigger] run(ctx, replies).pending[j],
            ),
{
    lemma_ordered_run(ctx, replies);
    lemma_trace_len(ctx, replies);
}

/// No stage is gone through twice, but that a descriptor is closed again which was given for
/// two of the standard ones.
pub proof fn law_no_stage_is_repeated<E>(ctx: InitContext, replies: Seq<Reply<E>>, i: int, j: int)
    requires
        valid_run(ctx, replies),
        0 <= i < j < replies.len(),
        !(trace(ctx, replies)[i] is StdioClose),
    ensures
        trace(ctx, replies)[i] != trace(ctx, replies)[j],
{
    law_stages_in_order(ctx, replies);
    lemma_trace_len(ctx, replies);
}

} // verus!
