//! Runs of the init process: what it does for a sequence of answers.

use crate::call::Reply;
use crate::context::InitContext;
use crate::plan::spec_plan;
use crate::process::{
    acceptable, initial, lemma_initial_well_formed, lemma_step_well_formed, step, well_formed,
    InitState,
};
use crate::stage::{brought_up, spec_respond, Stage};
use crate::stages::{all, group_all};
use vstd::prelude::*;

verus! {

/// Where the init process stands after these answers.
pub open spec fn run<E>(ctx: InitContext, replies: Seq<Reply<E>>) -> InitState<E>
    decreases replies.len(),
{
    if replies.len() == 0 {
        initial(ctx)
    } else {
        step(ctx, run(ctx, replies.drop_last()), replies.last())
    }
}

/// The answers are such that the process can go on from each of them.
pub open spec fn valid_run<E>(ctx: InitContext, replies: Seq<Reply<E>>) -> bool
    decreases replies.len(),
{
    replies.len() > 0 ==> {
        &&& valid_run(ctx, replies.drop_last())
        &&& acceptable(ctx, run(ctx, replies.drop_last()), replies.last())
    }
}

/// The stages that the answers were given to, one for each.
pub open spec fn trace<E>(ctx: InitContext, replies: Seq<Reply<E>>) -> Seq<Stage>
    decreases replies.len(),
{
    if replies.len() == 0 {
        seq![]
    } else {
        trace(ctx, replies.drop_last()).push(run(ctx, replies.drop_last()).pending[0])
    }
}

/// Each answer was given to one stage.
pub proof fn lemma_trace_len<E>(ctx: InitContext, replies: Seq<Reply<E>>)
    ensures
        trace(ctx, replies).len() == replies.len(),
    decreases replies.len(),
{
    if replies.len() > 0 {
        lemma_trace_len(ctx, replies.drop_last());
    }
}

/// A stage was reached by the answers before it.
pub proof fn lemma_trace_prefix<E>(ctx: InitContext, replies: Seq<Reply<E>>, i: int)
    requires
        valid_run(ctx, replies),
        0 <= i < replies.len(),
    ensures
        valid_run(ctx, replies.take(i)),
        valid_run(ctx, replies.take(i + 1)),
        acceptable(ctx, run(ctx, replies.take(i)), replies[i]),
        trace(ctx, replies)[i] == run(ctx, replies.take(i)).pending[0],
        trace(ctx, replies.take(i)) == trace(ctx, replies).take(i),
    decreases replies.len(),
{
    let before = replies.drop_last();
    lemma_trace_len(ctx, replies);
    lemma_trace_len(ctx, before);
    if i == replies.len() - 1 {
        assert(replies.take(i) =~= before);
        assert(replies.take(i + 1) =~= replies);
        assert(trace(ctx, replies).take(i) =~= trace(ctx, before));
    } else {
        lemma_trace_prefix(ctx, before, i);
        assert(replies.take(i) =~= before.take(i));
        assert(replies.take(i + 1) =~= before.take(i + 1));
        assert(trace(ctx, before).take(i) =~= trace(ctx, replies).take(i));
    }
}

/// What is pending after the answer to a call: what the answer brings up and, unless it is
/// an error, what was pending before. A stage that ends the process leaves nothing.
pub proof fn lemma_pending_after<E>(ctx: InitContext, replies: Seq<Reply<E>>)
    requires
        replies.len() > 0,
    ensures
        ({
            let pending = run(ctx, replies.drop_last()).pending;
            let stages = brought_up(ctx, pending[0], replies.last());
            ||| run(ctx, replies).pending == stages + pending.drop_first()
            ||| run(ctx, replies).pending == stages && spec_respond(
                ctx,
                pending[0],
                replies.last(),
            ) is Err
            ||| run(ctx, replies).pending.len() == 0
        }),
{
}

/// The init process is well-formed at any time.
pub proof fn lemma_run_well_formed<E>(ctx: InitContext, replies: Seq<Reply<E>>)
    requires
        valid_run(ctx, replies),
    ensures
        well_formed(ctx, run(ctx, replies)),
    decreases replies.len(),
{
    if replies.len() == 0 {
        lemma_initial_well_formed::<E>(ctx);
    } else {
        lemma_run_well_formed(ctx, replies.drop_last());
        lemma_step_well_formed(ctx, run(ctx, replies.drop_last()), replies.last());
    }
}

/// A property of the planned stages that answers hand on holds of all stages of a run.
pub proof fn lemma_run_all<E>(ctx: InitContext, replies: Seq<Reply<E>>, p: spec_fn(Stage) -> bool)
    requires
        valid_run(ctx, replies),
        all(spec_plan(ctx), p),
        forall|stage: Stage, reply: Reply<E>|
            p(stage) ==> all(#[trigger] brought_up(ctx, stage, reply), p),
    ensures
        all(trace(ctx, replies), p),
        all(run(ctx, replies).pending, p),
    decreases replies.len(),
{
    broadcast use group_all;

    if replies.len() > 0 {
        let before = run(ctx, replies.drop_last());
        lemma_run_all(ctx, replies.drop_last(), p);
        assert(before.pending =~= seq![before.pending[0]] + before.pending.drop_first());
        assert(all(before.pending.drop_first(), p) && p(before.pending[0]));
        let stages = brought_up(ctx, before.pending[0], replies.last());
        assert(all(stages + before.pending.drop_first(), p));
        lemma_pending_after(ctx, replies);
        if run(ctx, replies).pending.len() == 0 {
            assert(run(ctx, replies).pending =~= Seq::empty());
        }
    }
}

} // verus!
