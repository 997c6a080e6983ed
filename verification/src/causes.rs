//! Why the init process goes through a stage.

use crate::call::Reply;
use crate::context::InitContext;
use crate::error::InitErrorView;
use crate::plan::{spec_plan, spec_tail};
use crate::procedures::{
    apply_rest_namespaces, do_pivot_root, listen_fds, masked_path, prepare_rootfs, readonly_path,
    reopen_dev_null, set_supplementary_gids, sync_seccomp,
};
use crate::run::{
    lemma_pending_after, lemma_trace_len, lemma_trace_prefix, run, trace, valid_run,
};
use crate::stage::{brought_up, spec_respond, Stage};
use crate::stages::{all, group_all};
use vstd::prelude::*;

verus! {

/// Whether the answer to one stage brings up another.
pub open spec fn brings_up<E>(
    ctx: InitContext,
    stage: Stage,
    reply: Reply<E>,
    other: Stage,
) -> bool {
    brought_up(ctx, stage, reply).contains(other)
}

/// Whether a stage is called for by the context or was brought up by an answer.
pub open spec fn caused<E>(ctx: InitContext, replies: Seq<Reply<E>>, stage: Stage) -> bool {
    ||| spec_plan(ctx).contains(stage)
    ||| exists|i: int|
        0 <= i < replies.len() && brings_up(
            ctx,
            #[trigger] trace(ctx, replies)[i],
            replies[i],
            stage,
        )
}

proof fn lemma_caused_step<E>(ctx: InitContext, replies: Seq<Reply<E>>, stage: Stage)
    requires
        replies.len() > 0,
        caused(ctx, replies.drop_last(), stage),
    ensures
        caused(ctx, replies, stage),
{
    let before = replies.drop_last();
    lemma_trace_len(ctx, before);
    if !spec_plan(ctx).contains(stage) {
        let i = choose|i: int|
            0 <= i < before.len() && brings_up(
                ctx,
                #[trigger] trace(ctx, before)[i],
                before[i],
                stage,
            );
        assert(trace(ctx, replies)[i] == trace(ctx, before)[i]);
        assert(replies[i] == before[i]);
    }
}

proof fn lemma_pending_caused<E>(ctx: InitContext, replies: Seq<Reply<E>>, stage: Stage)
    requires
        valid_run(ctx, replies),
        run(ctx, replies).pending.contains(stage),
    ensures
        caused(ctx, replies, stage),
    decreases replies.len(),
{
    if replies.len() > 0 {
        let before = replies.drop_last();
        let pending = run(ctx, before).pending;
        lemma_trace_len(ctx, before);
        assert(trace(ctx, replies)[replies.len() - 1] == pending[0]);
        let stages = brought_up(ctx, pending[0], replies.last());
        let after = run(ctx, replies).pending;
        lemma_pending_after(ctx, replies);
        let k = choose|k: int| 0 <= k < after.len() && after[k] == stage;
        if k < stages.len() {
            assert(stages[k] == stage);
            assert(brings_up(
                ctx,
                trace(ctx, replies)[replies.len() - 1],
                replies[replies.len() - 1],
                stage,
            ));
        } else {
            assert(pending[k - stages.len() + 1] == stage);
            lemma_pending_caused(ctx, before, stage);
            lemma_caused_step(ctx, replies, stage);
        }
    }
}

/// Every stage that the process goes through is called for by the context, or was brought
/// up by the answer to an earlier one.
pub proof fn law_every_stage_has_a_cause<E>(ctx: InitContext, replies: Seq<Reply<E>>, j: int)
    requires
        valid_run(ctx, replies),
        0 <= j < replies.len(),
    ensures
        ({
            ||| spec_plan(ctx).contains(trace(ctx, replies)[j])
            ||| exists|i: int|
                0 <= i < j && brings_up(
                    ctx,
                    #[trigger] trace(ctx, replies)[i],
                    replies[i],
                    trace(ctx, replies)[j],
                )
        }),
{
    let stage = trace(ctx, replies)[j];
    let prefix = replies.take(j);
    lemma_trace_prefix(ctx, replies, j);
    lemma_trace_len(ctx, replies);
    let pending = run(ctx, prefix).pending;
    assert(pending[0] == stage);
    lemma_pending_caused(ctx, prefix, stage);
    if !spec_plan(ctx).contains(stage) {
        let i = choose|i: int|
            0 <= i < prefix.len() && brings_up(
                ctx,
                #[trigger] trace(ctx, prefix)[i],
                prefix[i],
                stage,
            );
        assert(trace(ctx, prefix)[i] == trace(ctx, replies)[i]);
        assert(prefix[i] == replies[i]);
    }
}

/// Whether a stage goes on with a procedure that an earlier stage began.
pub open spec fn follow_up(stage: Stage) -> bool {
    match stage {
        Stage::RestNamespaces(step) => step != apply_rest_namespaces::Step::Apply,
        Stage::PrepareRootfs(step) => step != prepare_rootfs::Step::Probe,
        Stage::PivotRoot(step) => step != do_pivot_root::Step::LookUp,
        Stage::DevNull(step) => step != reopen_dev_null::Step::Open,
        Stage::ReadonlyPath(_, step) => step != readonly_path::Step::Bind,
        Stage::MaskedPath(_, step) => step != masked_path::Step::DevNull,
        Stage::Gids(step) => step != set_supplementary_gids::Step::ReadSetgroups,
        Stage::CloseRange(_) => true,
        Stage::Seccomp(_, step) => step != sync_seccomp::Step::Initialize,
        _ => false,
    }
}

/// The context calls only for the beginnings of procedures.
proof fn lemma_plan_begins(ctx: InitContext, do_chdir: bool)
    ensures
        all(spec_plan(ctx), |stage: Stage| !follow_up(stage)),
        all(spec_tail(ctx, do_chdir), |stage: Stage| !follow_up(stage)),
{
    broadcast use group_all;

    assert(all(spec_tail(ctx, false), |stage: Stage| !follow_up(stage)));
}

/// Only the change to the working directory brings up more than one stage.
proof fn lemma_respond_len<E>(ctx: InitContext, stage: Stage, reply: Reply<E>)
    requires
        !(stage is Chdir) || spec_respond(ctx, stage, reply) is Err,
    ensures
        brought_up(ctx, stage, reply).len() <= 1,
{
}

/// Whether a stage is what the procedure of another goes on with after an answer.
pub open spec fn continues<E>(
    ctx: InitContext,
    stage: Stage,
    reply: Reply<E>,
    next: Stage,
) -> bool {
    match (stage, next) {
        (
            Stage::RestNamespaces(step),
            Stage::RestNamespaces(next),
        ) => apply_rest_namespaces::spec_reply(
            step,
            ctx.hostname is Some,
            ctx.domainname is Some,
            reply,
        ) == Ok::<_, InitErrorView<E>>(Some(next)),
        (Stage::PrepareRootfs(step), Stage::PrepareRootfs(next)) => prepare_rootfs::spec_reply(
            step,
            reply,
        ) == Ok::<_, InitErrorView<E>>(Some(next)),
        (Stage::PivotRoot(step), Stage::PivotRoot(next)) => do_pivot_root::spec_reply(
            step,
            ctx.no_pivot,
            reply,
        ) == Ok::<_, InitErrorView<E>>(Some(next)),
        (Stage::DevNull(step), Stage::DevNull(next)) => match reopen_dev_null::spec_reply(
            step,
            reply,
        ) {
            Ok(following) => following == Some(next),
            Err(_) => reopen_dev_null::spec_release(step) == Some(next),
        },
        (Stage::ReadonlyPath(i, step), Stage::ReadonlyPath(j, next)) => {
            &&& i == j
            &&& reply matches Reply::Outcome(outcome) && readonly_path::spec_reply(step, outcome)
                == Ok::<_, InitErrorView<E>>(Some(next))
        },
        (Stage::MaskedPath(i, step), Stage::MaskedPath(j, next)) => {
            &&& i == j
            &&& reply matches Reply::Outcome(outcome) && masked_path::spec_reply(step, outcome)
                == Ok::<_, InitErrorView<E>>(Some(next))
        },
        (Stage::Gids(step), Stage::Gids(next)) => set_supplementary_gids::spec_reply(step, reply)
            == Ok::<_, InitErrorView<E>>(Some(next)),
        (Stage::ListenFds, Stage::CloseRange(total)) => {
            reply matches Reply::Variable(variable) && total == listen_fds::kept_open(
                ctx.preserve_fds,
                variable,
            )
        },
        (Stage::Seccomp(timing, step), Stage::Seccomp(later, next)) => {
            &&& timing == later
            &&& sync_seccomp::spec_reply(step, reply) == Ok::<_, InitErrorView<E>>(Some(next))
        },
        _ => false,
    }
}

proof fn lemma_continues<E>(ctx: InitContext, stage: Stage, reply: Reply<E>, next: Stage)
    requires
        !(stage is Chdir),
        brought_up(ctx, stage, reply).len() > 0,
        next == brought_up(ctx, stage, reply)[0],
    ensures
        continues(ctx, stage, reply, next),
{
}

/// Behind the next stage nothing is pending that goes on with a procedure.
proof fn lemma_pending_begins<E>(ctx: InitContext, replies: Seq<Reply<E>>, k: int)
    requires
        valid_run(ctx, replies),
        0 < k < run(ctx, replies).pending.len(),
    ensures
        !follow_up(run(ctx, replies).pending[k]),
    decreases replies.len(),
{
    let p = |stage: Stage| !follow_up(stage);
    lemma_plan_begins(ctx, false);
    lemma_plan_begins(ctx, true);
    reveal(all);
    if replies.len() == 0 {
        assert(p(spec_plan(ctx)[k]));
    } else {
        let before = replies.drop_last();
        let pending = run(ctx, before).pending;
        let stages = brought_up(ctx, pending[0], replies.last());
        lemma_pending_after(ctx, replies);
        if k < stages.len() {
            if pending[0] is Chdir && spec_respond(ctx, pending[0], replies.last()) is Ok {
                assert(p(stages[k]));
            } else {
                lemma_respond_len(ctx, pending[0], replies.last());
            }
        } else {
            lemma_pending_begins(ctx, before, k - stages.len() + 1);
        }
    }
}

/// A procedure is gone through without a break: a stage that goes on with one follows from
/// the answer to the stage just before it.
pub proof fn law_procedures_are_not_interrupted<E>(
    ctx: InitContext,
    replies: Seq<Reply<E>>,
    j: int,
)
    requires
        valid_run(ctx, replies),
        0 <= j < replies.len(),
        follow_up(trace(ctx, replies)[j]),
    ensures
        j > 0,
        continues(ctx, trace(ctx, replies)[j - 1], replies[j - 1], trace(ctx, replies)[j]),
{
    let stage = trace(ctx, replies)[j];
    let p = |stage: Stage| !follow_up(stage);
    lemma_plan_begins(ctx, false);
    lemma_plan_begins(ctx, true);
    reveal(all);
    lemma_trace_prefix(ctx, replies, j);
    if j == 0 {
        assert(replies.take(0) =~= seq![]);
        assert(p(spec_plan(ctx)[0]));
    } else {
        lemma_trace_prefix(ctx, replies, j - 1);
        let before = replies.take(j - 1);
        let pending = run(ctx, before).pending;
        let current = pending[0];
        let reply = replies[j - 1];
        assert(replies.take(j).drop_last() =~= before);
        assert(replies.take(j).last() == reply);
        let stages = brought_up(ctx, current, reply);
        lemma_pending_after(ctx, replies.take(j));
        if stages.len() == 0 {
            assert(stage == pending[1]);
            lemma_pending_begins(ctx, before, 1);
        } else {
            assert(stage == stages[0]);
            if current is Chdir {
                assert(p(stages[0]));
            }
            lemma_continues(ctx, current, reply, stage);
        }
    }
}

/// What an answer brings up comes next.
pub proof fn law_answers_take_effect<E>(ctx: InitContext, replies: Seq<Reply<E>>, j: int)
    requires
        valid_run(ctx, replies),
        0 <= j < replies.len() - 1,
    ensures
        brought_up(ctx, trace(ctx, replies)[j], replies[j]).len() > 0 ==> trace(ctx, replies)[j + 1]
            == brought_up(ctx, trace(ctx, replies)[j], replies[j])[0],
{
    lemma_trace_prefix(ctx, replies, j);
    lemma_trace_prefix(ctx, replies, j + 1);
    assert(replies.take(j + 1).drop_last() =~= replies.take(j));
    assert(replies.take(j + 1).last() == replies[j]);
    lemma_pending_after(ctx, replies.take(j + 1));
}

} // verus!
