//! What a context calls for, and that just that is gone through.

use crate::call::Reply;
use crate::causes::follow_up;
use crate::context::{
    IOPriorityClass, InitContext, LinuxSchedulerFlag, LinuxSchedulerPolicy, Scheduler,
};
use crate::laws::{law_earlier_stages_are_done, law_payload_comes_last, lemma_contains};
use crate::order::place;
use crate::plan::{
    each, rootfs_plan, scheduler_plan, spec_head, spec_plan, spec_tail, stdio_plan, umask_plan,
};
use crate::procedures::{masked_path, readonly_path};
use crate::process::cleans_up;
use crate::run::{
    lemma_run_all, lemma_run_well_formed, lemma_trace_len, lemma_trace_prefix, run, trace,
    valid_run,
};
use crate::scheduler::{
    flag_bits, law_flag_bits, law_no_other_bits, listed_flags, scheduler_attr, spec_setup_scheduler,
    SchedAttr,
};
use crate::stage::{brought_up, parameters, paths, Stage};
use crate::stages::{all, group_all, lemma_all_add, lemma_all_empty, lemma_all_push};
use vstd::prelude::*;

verus! {

/// A number that may be left out, as 0 where it is.
pub open spec fn given_or_zero(field: Option<u64>, value: u64) -> bool {
    match field {
        Some(given) => value == given,
        None => value == 0,
    }
}

/// Whether a list has a flag exactly if a bit is set.
pub open spec fn shows(scheduler: Scheduler, flag: LinuxSchedulerFlag, bit: bool) -> bool {
    bit <==> (scheduler.flags matches Some(flags) && flags@.contains(flag))
}

/// Whether attributes say for the kernel what a scheduler says in the configuration.
pub open spec fn describes(attr: SchedAttr, scheduler: Scheduler) -> bool {
    let bits = attr.sched_flags;
    &&& attr.size == 56
    &&& attr.sched_policy == match scheduler.policy {
        LinuxSchedulerPolicy::SchedOther => 0u32,
        LinuxSchedulerPolicy::SchedFifo => 1,
        LinuxSchedulerPolicy::SchedRr => 2,
        LinuxSchedulerPolicy::SchedBatch => 3,
        LinuxSchedulerPolicy::SchedIso => 4,
        LinuxSchedulerPolicy::SchedIdle => 5,
        LinuxSchedulerPolicy::SchedDeadline => 6,
    }
    &&& bits & !0x7fu64 == 0
    &&& shows(scheduler, LinuxSchedulerFlag::SchedResetOnFork, bits & 0x01 != 0)
    &&& shows(scheduler, LinuxSchedulerFlag::SchedFlagReclaim, bits & 0x02 != 0)
    &&& shows(scheduler, LinuxSchedulerFlag::SchedFlagDLOverrun, bits & 0x04 != 0)
    &&& shows(scheduler, LinuxSchedulerFlag::SchedFlagKeepPolicy, bits & 0x08 != 0)
    &&& shows(scheduler, LinuxSchedulerFlag::SchedFlagKeepParams, bits & 0x10 != 0)
    &&& shows(scheduler, LinuxSchedulerFlag::SchedFlagUtilClampMin, bits & 0x20 != 0)
    &&& shows(scheduler, LinuxSchedulerFlag::SchedFlagUtilClampMax, bits & 0x40 != 0)
    &&& match scheduler.nice {
        Some(nice) => attr.sched_nice == nice,
        None => attr.sched_nice == 0,
    }
    &&& match scheduler.priority {
        // The kernel takes the number as unsigned.
        Some(priority) => attr.sched_priority == priority || attr.sched_priority == priority
            + 0x1_0000_0000,
        None => attr.sched_priority == 0,
    }
    &&& given_or_zero(scheduler.runtime, attr.sched_runtime)
    &&& given_or_zero(scheduler.deadline, attr.sched_deadline)
    &&& given_or_zero(scheduler.period, attr.sched_period)
    &&& attr.sched_util_min == 0
    &&& attr.sched_util_max == 0
}

/// The attributes of a scheduler describe it.
pub proof fn law_attributes_describe_the_scheduler(scheduler: Scheduler)
    ensures
        describes(scheduler_attr(scheduler), scheduler),
{
    let flags = listed_flags(scheduler);
    law_no_other_bits(flags);
    law_flag_bits(flags, LinuxSchedulerFlag::SchedResetOnFork);
    law_flag_bits(flags, LinuxSchedulerFlag::SchedFlagReclaim);
    law_flag_bits(flags, LinuxSchedulerFlag::SchedFlagDLOverrun);
    law_flag_bits(flags, LinuxSchedulerFlag::SchedFlagKeepPolicy);
    law_flag_bits(flags, LinuxSchedulerFlag::SchedFlagKeepParams);
    law_flag_bits(flags, LinuxSchedulerFlag::SchedFlagUtilClampMin);
    law_flag_bits(flags, LinuxSchedulerFlag::SchedFlagUtilClampMax);
    assert(flag_bits(seq![]) == 0);
}

/// Whether a list has an entry of this number.
pub open spec fn has_entry<T>(list: Option<Vec<T>>, i: int) -> bool {
    list matches Some(entries) && 0 <= i < entries@.len()
}

/// Whether the configuration calls for a stage, which is the first of its procedure.
pub open spec fn called_for(ctx: InitContext, stage: Stage) -> bool {
    let first = ctx.container_type is InitContainer;
    match stage {
        Stage::IoPriority { class, priority } => {
            &&& ctx.process.io_priority is Some
            &&& ctx.process.io_priority->0.priority == priority
            &&& match ctx.process.io_priority->0.class {
                IOPriorityClass::IoprioClassRt => class == 1,
                IOPriorityClass::IoprioClassBe => class == 2,
                IOPriorityClass::IoprioClassIdle => class == 3,
            }
        },
        Stage::Scheduler(attr) => ctx.process.scheduler is Some && describes(
            attr,
            ctx.process.scheduler->0,
        ),
        Stage::Console(fd) => ctx.console_socket == Some(fd),
        Stage::StdioDup { from, to } => ctx.console_socket is None && {
            ||| to == 0 && ctx.stdin == Some(from)
            ||| to == 1 && ctx.stdout == Some(from)
            ||| to == 2 && ctx.stderr == Some(from)
        },
        Stage::StdioClose(fd) => ctx.console_socket is None && (ctx.stdin == Some(fd) || ctx.stdout
            == Some(fd) || ctx.stderr == Some(fd)),
        Stage::NoNewPrivileges => ctx.process.no_new_privileges == Some(true),
        Stage::CreateContainerHooks => first && ctx.has_hooks,
        Stage::PrepareRootfs(step) => first && step is Probe,
        Stage::PivotRoot(step) => first && step is LookUp,
        Stage::RootPropagation => first,
        Stage::DevNull(step) => first && step is Open,
        Stage::Sysctl(i) => first && has_entry(ctx.linux.sysctl, i as int),
        Stage::AppArmor => ctx.process.apparmor_profile is Some,
        Stage::ReadonlyRoot => ctx.rootfs_ro,
        Stage::Umask(bits) => ctx.process.user.umask == Some(bits) && bits & !0o7777u32 == 0,
        Stage::InvalidUmask(bits) => ctx.process.user.umask == Some(bits) && bits & !0o7777u32
            != 0,
        Stage::ReadonlyPath(i, step) => has_entry(ctx.linux.readonly_paths, i as int)
            && step is Bind,
        Stage::MaskedPath(i, step) => has_entry(ctx.linux.masked_paths, i as int)
            && step is DevNull,
        Stage::RestNamespaces(step) => step is Apply,
        Stage::Chdir => ctx.process.cwd@.len() > 0,
        Stage::Gids(step) => has_entry(ctx.process.user.additional_gids, 0)
            && step is ReadSetgroups,
        Stage::CloseRange(_) => false,
        Stage::Seccomp(timing, step) => {
            &&& ctx.linux.has_seccomp
            &&& step is Initialize
            &&& timing is BeforePayload <==> ctx.process.no_new_privileges == Some(true)
        },
        Stage::DropPrivileges => ctx.process.has_capabilities,
        Stage::ChdirAgain => false,
        Stage::UserHome => !ctx.envs@.contains_key("HOME"@),
        Stage::StartContainerHooks => first && ctx.has_hooks,
        Stage::MissingArgs => !ctx.process.has_args,
        Stage::Exec => ctx.process.has_args,
        _ => true,
    }
}

/// Whether a stage is called for, or can only be so by the answer to another.
pub open spec fn justified(ctx: InitContext, stage: Stage) -> bool {
    called_for(ctx, stage) || follow_up(stage) || stage is ChdirAgain
}

/// What the configuration calls for is justified.
#[verifier::rlimit(50)]
pub proof fn lemma_plan_justified(ctx: InitContext, do_chdir: bool)
    ensures
        all(spec_plan(ctx), |stage: Stage| justified(ctx, stage)),
        all(spec_tail(ctx, do_chdir), |stage: Stage| justified(ctx, stage)),
{
    broadcast use group_all;

    if ctx.process.scheduler is Some {
        law_attributes_describe_the_scheduler(ctx.process.scheduler->0);
    }
    assert(all(spec_tail(ctx, false), |stage: Stage| justified(ctx, stage)));
}

/// An answer brings up only what goes on with a procedure, but for the change to the working
/// directory.
#[verifier::rlimit(50)]
proof fn lemma_brings_up_follow_ups<E>(ctx: InitContext, stage: Stage, reply: Reply<E>)
    requires
        !(stage is Chdir),
    ensures
        brought_up(ctx, stage, reply).len() <= 1,
        brought_up(ctx, stage, reply).len() == 1 ==> follow_up(brought_up(ctx, stage, reply)[0]),
{
}

/// What an answer brings up is justified.
pub proof fn lemma_justified_respond<E>(ctx: InitContext, stage: Stage, reply: Reply<E>)
    ensures
        all(brought_up(ctx, stage, reply), |stage: Stage| justified(ctx, stage)),
{
    if stage is Chdir {
        lemma_plan_justified(ctx, false);
        lemma_plan_justified(ctx, true);
        lemma_all_empty(|stage: Stage| justified(ctx, stage));
    } else {
        lemma_brings_up_follow_ups(ctx, stage, reply);
        reveal(all);
    }
}

/// A stage that begins a procedure is gone through only if the configuration calls for it.
pub proof fn law_only_what_is_called_for<E>(ctx: InitContext, replies: Seq<Reply<E>>, j: int)
    requires
        valid_run(ctx, replies),
        0 <= j < replies.len(),
        !follow_up(trace(ctx, replies)[j]),
        !(trace(ctx, replies)[j] is ChdirAgain),
    ensures
        called_for(ctx, trace(ctx, replies)[j]),
{
    let p = |stage: Stage| justified(ctx, stage);
    lemma_plan_justified(ctx, false);
    assert forall|stage: Stage, reply: Reply<E>| p(stage) implies all(
        #[trigger] brought_up(ctx, stage, reply),
        p,
    ) by {
        lemma_justified_respond(ctx, stage, reply);
    }
    lemma_run_all(ctx, replies, p);
    lemma_trace_len(ctx, replies);
    reveal(all);
    assert(p(trace(ctx, replies)[j]));
}

/// A scheduler is described in only one way.
proof fn lemma_describes_unique(a: SchedAttr, b: SchedAttr, scheduler: Scheduler)
    requires
        describes(a, scheduler),
        describes(b, scheduler),
    ensures
        a == b,
{
    let x = a.sched_flags;
    let y = b.sched_flags;
    assert(x == y) by (bit_vector)
        requires
            x & !0x7fu64 == 0,
            y & !0x7fu64 == 0,
            (x & 0x01 != 0) == (y & 0x01 != 0),
            (x & 0x02 != 0) == (y & 0x02 != 0),
            (x & 0x04 != 0) == (y & 0x04 != 0),
            (x & 0x08 != 0) == (y & 0x08 != 0),
            (x & 0x10 != 0) == (y & 0x10 != 0),
            (x & 0x20 != 0) == (y & 0x20 != 0),
            (x & 0x40 != 0) == (y & 0x40 != 0),
    ;
}

/// A list gives rise to a stage for each of its entries.
proof fn lemma_each_has(len: nat, of: spec_fn(usize) -> Stage, i: usize, stage: Stage)
    requires
        i < len,
        of(i) == stage,
    ensures
        !all(each(len, of), |other: Stage| other != stage),
{
    reveal(all);
    let p = |other: Stage| other != stage;
    assert(each(len, of)[i as int] == of(i));
    assert(!p(each(len, of)[i as int]));
}

proof fn lemma_tail_has(ctx: InitContext, stage: Stage)
    requires
        called_for(ctx, stage),
        place(stage) >= 18,
    ensures
        !all(spec_tail(ctx, false), |other: Stage| other != stage),
{
    broadcast use group_all;

}

/// Whether a stage is for an entry of a list.
spec fn for_entry(stage: Stage) -> bool {
    stage is Sysctl || stage is ReadonlyPath || stage is MaskedPath
}

proof fn lemma_rootfs_has(ctx: InitContext, stage: Stage)
    requires
        called_for(ctx, stage),
        6 <= place(stage) < 11,
    ensures
        !all(spec_head(ctx), |other: Stage| other != stage),
{
    broadcast use group_all;

    assert(!all(rootfs_plan(ctx), |other: Stage| other != stage));
}

proof fn lemma_early_has(ctx: InitContext, stage: Stage)
    requires
        called_for(ctx, stage),
        place(stage) < 6,
    ensures
        !all(spec_head(ctx), |other: Stage| other != stage),
{
    broadcast use group_all;

    let p = |other: Stage| other != stage;
    if let Stage::Scheduler(attr) = stage {
        law_attributes_describe_the_scheduler(ctx.process.scheduler->0);
        lemma_describes_unique(
            attr,
            scheduler_attr(ctx.process.scheduler->0),
            ctx.process.scheduler->0,
        );
        assert(!all(scheduler_plan(ctx), p));
    }
    if place(stage) == 3 {
        assert(!all(stdio_plan(ctx), p));
    }
}

proof fn lemma_late_head_has(ctx: InitContext, stage: Stage)
    requires
        called_for(ctx, stage),
        12 <= place(stage) < 15,
    ensures
        !all(spec_head(ctx), |other: Stage| other != stage),
{
    broadcast use group_all;

    assert(stage is Umask || stage is InvalidUmask ==> !all(
        umask_plan(ctx),
        |other: Stage| other != stage,
    ));
}

proof fn lemma_entries_have(ctx: InitContext, stage: Stage)
    requires
        called_for(ctx, stage),
        for_entry(stage),
    ensures
        !all(spec_head(ctx), |other: Stage| other != stage),
{
    match stage {
        Stage::Sysctl(i) => {
            lemma_each_has(ctx.linux.sysctl->0@.len(), |i: usize| Stage::Sysctl(i), i, stage);
        },
        Stage::ReadonlyPath(i, _) => {
            lemma_each_has(
                ctx.linux.readonly_paths->0@.len(),
                |i: usize| Stage::ReadonlyPath(i, readonly_path::Step::Bind),
                i,
                stage,
            );
        },
        Stage::MaskedPath(i, _) => {
            lemma_each_has(
                ctx.linux.masked_paths->0@.len(),
                |i: usize| Stage::MaskedPath(i, masked_path::Step::DevNull),
                i,
                stage,
            );
        },
        _ => {},
    }
    let p = |other: Stage| other != stage;
    if all(spec_head(ctx), p) {
        lemma_head_parts(ctx, p);
    }
}

/// What holds of all that comes first holds of its lists.
proof fn lemma_head_parts(ctx: InitContext, p: spec_fn(Stage) -> bool)
    requires
        all(spec_head(ctx), p),
    ensures
        ctx.container_type is InitContainer ==> all(
            each(parameters(ctx).len(), |i: usize| Stage::Sysctl(i)),
            p,
        ),
        all(
            each(
                paths(ctx.linux.readonly_paths).len(),
                |i: usize| Stage::ReadonlyPath(i, readonly_path::Step::Bind),
            ),
            p,
        ),
        all(
            each(
                paths(ctx.linux.masked_paths).len(),
                |i: usize| Stage::MaskedPath(i, masked_path::Step::DevNull),
            ),
            p,
        ),
{
    broadcast use lemma_all_add;

}

proof fn lemma_called_for_in_parts(ctx: InitContext, stage: Stage)
    requires
        called_for(ctx, stage),
    ensures
        !all(spec_plan(ctx), |other: Stage| other != stage) || !all(
            spec_tail(ctx, false),
            |other: Stage| other != stage,
        ),
{
    broadcast use {lemma_all_add, lemma_all_push};

    if place(stage) >= 18 {
        lemma_tail_has(ctx, stage);
    } else if for_entry(stage) {
        lemma_entries_have(ctx, stage);
    } else if place(stage) < 6 {
        lemma_early_has(ctx, stage);
    } else if place(stage) < 11 {
        lemma_rootfs_has(ctx, stage);
    } else if place(stage) < 15 {
        lemma_late_head_has(ctx, stage);
    }
}

proof fn lemma_called_for_planned(ctx: InitContext, stage: Stage)
    requires
        called_for(ctx, stage),
    ensures
        spec_plan(ctx).contains(stage) || spec_tail(ctx, false).contains(stage),
{
    lemma_called_for_in_parts(ctx, stage);
    lemma_contains(spec_plan(ctx), stage);
    lemma_contains(spec_tail(ctx, false), stage);
}

/// When the payload is about to be executed, all that the configuration calls for has been
/// gone through.
pub proof fn law_all_that_is_called_for<E>(ctx: InitContext, replies: Seq<Reply<E>>, stage: Stage)
    requires
        valid_run(ctx, replies),
        run(ctx, replies).pending.len() > 0,
        run(ctx, replies).pending[0] is Exec,
        called_for(ctx, stage),
        !(stage is Exec),
    ensures
        exists|i: int| 0 <= i < replies.len() && #[trigger] trace(ctx, replies)[i] == stage,
{
    lemma_called_for_planned(ctx, stage);
    law_payload_comes_last(ctx, replies, stage);
    lemma_trace_len(ctx, replies);
}

/// When a stage is gone through, all that the configuration calls for and that has an earlier
/// place has been gone through before.
pub proof fn law_called_for_comes_before<E>(
    ctx: InitContext,
    replies: Seq<Reply<E>>,
    j: int,
    stage: Stage,
)
    requires
        valid_run(ctx, replies),
        0 <= j < replies.len(),
        called_for(ctx, stage),
        place(stage) < place(trace(ctx, replies)[j]),
        !cleans_up(trace(ctx, replies)[j]),
    ensures
        exists|i: int| 0 <= i < j && #[trigger] trace(ctx, replies)[i] == stage,
{
    lemma_trace_prefix(ctx, replies, j);
    lemma_trace_len(ctx, replies);
    lemma_run_well_formed(ctx, replies.take(j));
    lemma_called_for_planned(ctx, stage);
    law_earlier_stages_are_done(ctx, replies.take(j), stage);
    let done = trace(ctx, replies).take(j);
    let i = choose|i: int| 0 <= i < done.len() && done[i] == stage;
    assert(trace(ctx, replies)[i] == stage);
}

/// What is asked of the kernel for a scheduler describes it, and nothing is asked for none.
pub proof fn law_scheduler_is_set_as_configured(scheduler: Option<Scheduler>)
    ensures
        scheduler is None <==> spec_setup_scheduler(scheduler) is None,
        scheduler matches Some(scheduler) ==> (spec_setup_scheduler(
            Some(scheduler),
        ) matches Some(attr) && describes(attr, scheduler)),
{
    if let Some(scheduler) = scheduler {
        law_attributes_describe_the_scheduler(scheduler);
    }
}

} // verus!
