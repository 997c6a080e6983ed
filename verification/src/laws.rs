//! What holds of every run of the init process.

use crate::call::Reply;
use crate::context::InitContext;
use crate::error::{InitErrorView, InitProcessError, MissingSpecError};
use crate::order::{before, law_stages_in_order, lemma_tail_in_order, place};
use crate::plan::{spec_plan, spec_tail};
use crate::process::next_call;
use crate::run::{lemma_run_all, lemma_run_well_formed, lemma_trace_len, run, trace, valid_run};
use crate::stage::{spec_cleanup, spec_respond, Stage};
use crate::stages::{all, group_all};
use vstd::prelude::*;

verus! {

/// Whether the process went on from each of the first answers.
pub open spec fn went_on<E>(ctx: InitContext, replies: Seq<Reply<E>>, k: int) -> bool {
    forall|i: int|
        0 <= i < k ==> spec_respond(ctx, #[trigger] trace(ctx, replies)[i], replies[i]) is Ok
}

/// Whether the process ends with an error since an answer: it went on from all answers before,
/// and goes through no other stage after it but to clean up.
pub open spec fn fails_at<E>(
    ctx: InitContext,
    replies: Seq<Reply<E>>,
    k: int,
    err: InitErrorView<E>,
) -> bool {
    &&& 0 <= k < replies.len()
    &&& went_on(ctx, replies, k)
    &&& spec_respond(ctx, trace(ctx, replies)[k], replies[k]) == Err::<Seq<Stage>, _>(err)
    &&& trace(ctx, replies).skip(k + 1) + run(ctx, replies).pending == spec_cleanup(
        trace(ctx, replies)[k],
    )
}

/// A call whose failure is not tolerated ends the process with its error, and no other call
/// follows but to clean up. The process ends for no other reason than a failed call or a
/// configuration that has no valid umask or no arguments.
pub proof fn law_failure_ends_the_process<E>(ctx: InitContext, replies: Seq<Reply<E>>)
    requires
        valid_run(ctx, replies),
    ensures
        run(ctx, replies).failure is None ==> went_on(ctx, replies, replies.len() as int),
        run(ctx, replies).failure matches Some(err) ==> {
            ||| exists|k: int| #[trigger] fails_at(ctx, replies, k, err)
            ||| {
                &&& went_on(ctx, replies, replies.len() as int)
                &&& next_call(ctx, run(ctx, replies)) is None
                &&& err is InvalidUmask || err == InitProcessError::<E, Seq<char>>::MissingSpec(
                    MissingSpecError::Args,
                )
            }
        },
    decreases replies.len(),
{
    lemma_trace_len(ctx, replies);
    if replies.len() > 0 {
        let before = replies.drop_last();
        let last = replies.len() - 1;
        law_failure_ends_the_process(ctx, before);
        lemma_run_well_formed(ctx, before);
        lemma_trace_len(ctx, before);
        assert forall|i: int| 0 <= i < last implies #[trigger] trace(ctx, replies)[i] == trace(
            ctx,
            before,
        )[i] && replies[i] == before[i] by {}
        let stage = run(ctx, before).pending[0];
        assert(trace(ctx, replies)[last] == stage);
        assert forall|k: int| 0 <= k <= last && #[trigger] went_on(ctx, before, k) implies went_on(
            ctx,
            replies,
            k,
        ) by {
            assert forall|i: int| 0 <= i < k implies spec_respond(
                ctx,
                #[trigger] trace(ctx, replies)[i],
                replies[i],
            ) is Ok by {
                assert(spec_respond(ctx, trace(ctx, before)[i], before[i]) is Ok);
            }
        }
        match run(ctx, before).failure {
            None => {
                assert(went_on(ctx, before, last));
                if let Err(err) = spec_respond(ctx, stage, replies.last()) {
                    assert(trace(ctx, replies).skip(last + 1) + run(ctx, replies).pending
                        =~= spec_cleanup(stage));
                    assert(fails_at(ctx, replies, last, err));
                }
            },
            Some(err) => {
                let k = choose|k: int| #[trigger] fails_at(ctx, before, k, err);
                assert(fails_at(ctx, before, k, err));
                assert(went_on(ctx, before, k));
                assert(run(ctx, replies).pending =~= seq![]);
                let rest = trace(ctx, before).skip(k + 1);
                assert((rest + run(ctx, before).pending)[rest.len() as int] == stage);
                assert(trace(ctx, replies).skip(k + 1) + run(ctx, replies).pending
                    =~= rest + run(ctx, before).pending);
                assert(fails_at(ctx, replies, k, err));
            },
        }
    }
}

/// After an answer that ends the process there is nothing but to clean up.
pub proof fn lemma_after_failure<E>(ctx: InitContext, replies: Seq<Reply<E>>, i: int)
    requires
        valid_run(ctx, replies),
        0 <= i < replies.len(),
        spec_respond(ctx, trace(ctx, replies)[i], replies[i]) is Err,
    ensures
        trace(ctx, replies).skip(i + 1) + run(ctx, replies).pending == spec_cleanup(
            trace(ctx, replies)[i],
        ),
{
    law_failure_ends_the_process(ctx, replies);
    lemma_trace_len(ctx, replies);
    let err = run(ctx, replies).failure->0;
    let k = choose|k: int| #[trigger] fails_at(ctx, replies, k, err);
    assert(fails_at(ctx, replies, k, err));
    if i > k {
        let rest = trace(ctx, replies).skip(k + 1);
        assert(rest[i - k - 1] == trace(ctx, replies)[i]);
        assert((rest + run(ctx, replies).pending)[i - k - 1] == trace(ctx, replies)[i]);
        lemma_cleanup_goes_on(ctx, trace(ctx, replies)[k], i - k - 1, replies[i]);
    }
}

proof fn lemma_cleanup_goes_on<E>(ctx: InitContext, stage: Stage, i: int, reply: Reply<E>)
    requires
        0 <= i < spec_cleanup(stage).len(),
    ensures
        spec_respond(ctx, spec_cleanup(stage)[i], reply) is Ok,
{
}

/// A sequence has a stage unless all of its stages are others.
pub proof fn lemma_contains(stages: Seq<Stage>, stage: Stage)
    ensures
        stages.contains(stage) <==> !all(stages, |other: Stage| other != stage),
{
    reveal(all);
    let p = |other: Stage| other != stage;
    if stages.contains(stage) {
        let i = choose|i: int| 0 <= i < stages.len() && stages[i] == stage;
        assert(!p(stages[i]));
    }
    if !all(stages, p) {
        let i = choose|i: int| 0 <= i < stages.len() && !p(stages[i]);
        assert(stages[i] == stage);
    }
}

/// A process that has not failed had not failed before.
pub proof fn lemma_not_failed_before<E>(ctx: InitContext, replies: Seq<Reply<E>>)
    requires
        replies.len() > 0,
        run(ctx, replies).failure is None,
    ensures
        run(ctx, replies.drop_last()).failure is None,
{
}

/// Whether a stage has been gone through or is still pending.
pub open spec fn accounted<E>(ctx: InitContext, replies: Seq<Reply<E>>, stage: Stage) -> bool {
    trace(ctx, replies).contains(stage) || run(ctx, replies).pending.contains(stage)
}

/// What is pending or done stays so, as long as the process does not fail.
pub proof fn lemma_accounted_step<E>(ctx: InitContext, replies: Seq<Reply<E>>, stage: Stage)
    requires
        replies.len() > 0,
        valid_run(ctx, replies),
        run(ctx, replies).failure is None,
        accounted(ctx, replies.drop_last(), stage),
    ensures
        accounted(ctx, replies, stage),
{
    broadcast use group_all;

    let before = replies.drop_last();
    let pending = run(ctx, before).pending;
    let done = trace(ctx, before);
    let stages = spec_respond(ctx, pending[0], replies.last())->Ok_0;
    lemma_contains(done, stage);
    lemma_contains(pending, stage);
    lemma_contains(trace(ctx, replies), stage);
    lemma_contains(run(ctx, replies).pending, stage);
    assert(pending =~= seq![pending[0]] + pending.drop_first());
    assert(run(ctx, replies).pending == stages + pending.drop_first());
}

/// No stage that the context calls for is left out: each is gone through or still pending,
/// unless the process has failed. What comes after the change to the working directory is
/// accounted for as soon as that change is done.
pub proof fn law_nothing_is_left_out<E>(ctx: InitContext, replies: Seq<Reply<E>>, stage: Stage)
    requires
        valid_run(ctx, replies),
        run(ctx, replies).failure is None,
    ensures
        spec_plan(ctx).contains(stage) ==> accounted(ctx, replies, stage),
        spec_tail(ctx, false).contains(stage) && (ctx.process.cwd@.len() == 0 || trace(
            ctx,
            replies,
        ).contains(Stage::Chdir)) ==> accounted(ctx, replies, stage),
    decreases replies.len(),
{
    broadcast use group_all;

    lemma_contains(spec_tail(ctx, false), stage);
    if replies.len() == 0 {
        lemma_contains(spec_plan(ctx), stage);
    } else {
        let before = replies.drop_last();
        lemma_not_failed_before(ctx, replies);
        law_nothing_is_left_out(ctx, before, stage);
        if accounted(ctx, before, stage) {
            lemma_accounted_step(ctx, replies, stage);
        } else if spec_tail(ctx, false).contains(stage) && trace(ctx, replies).contains(
            Stage::Chdir,
        ) {
            // The change to the working directory has just been answered.
            let current = run(ctx, before).pending[0];
            lemma_contains(trace(ctx, replies), Stage::Chdir);
            lemma_contains(trace(ctx, before), Stage::Chdir);
            assert(current is Chdir);
            lemma_contains(spec_tail(ctx, true), stage);
            let stages = spec_respond(ctx, current, replies.last())->Ok_0;
            let rest = run(ctx, before).pending.drop_first();
            lemma_contains(stages + rest, stage);
            lemma_contains(stages, stage);
            assert(run(ctx, replies).pending == stages + rest);
        }
    }
}

proof fn lemma_plan_parts(ctx: InitContext)
    ensures
        ctx.process.cwd@.len() != 0 ==> !all(
            spec_plan(ctx),
            |other: Stage| other != Stage::Chdir,
        ),
        ctx.process.has_args ==> all(spec_plan(ctx), |other: Stage| other != Stage::MissingArgs),
        ctx.process.has_args ==> all(
            spec_tail(ctx, false),
            |other: Stage| other != Stage::MissingArgs,
        ),
{
    broadcast use group_all;

}

proof fn lemma_plan_facts(ctx: InitContext)
    ensures
        ctx.process.cwd@.len() != 0 ==> spec_plan(ctx).contains(Stage::Chdir),
        spec_plan(ctx).contains(Stage::MissingArgs) ==> !ctx.process.has_args,
        spec_tail(ctx, false).contains(Stage::MissingArgs) ==> !ctx.process.has_args,
{
    lemma_plan_parts(ctx);
    lemma_contains(spec_plan(ctx), Stage::Chdir);
    lemma_contains(spec_plan(ctx), Stage::MissingArgs);
    lemma_contains(spec_tail(ctx, false), Stage::MissingArgs);
}

/// When the payload is about to be executed, every stage that the context calls for has
/// been gone through.
#[verifier::rlimit(60)]
pub proof fn law_payload_comes_last<E>(ctx: InitContext, replies: Seq<Reply<E>>, stage: Stage)
    requires
        valid_run(ctx, replies),
        run(ctx, replies).pending.len() > 0,
        run(ctx, replies).pending[0] is Exec,
        spec_plan(ctx).contains(stage) || spec_tail(ctx, false).contains(stage),
        !(stage is Exec),
    ensures
        trace(ctx, replies).contains(stage),
{
    let pending = run(ctx, replies).pending;
    lemma_run_well_formed(ctx, replies);
    law_stages_in_order(ctx, replies);
    law_nothing_is_left_out(ctx, replies, stage);
    law_nothing_is_left_out(ctx, replies, Stage::Chdir);
    lemma_plan_facts(ctx);
    assert forall|other: Stage| #[trigger] pending.contains(other) implies place(other) >= 35 by {
        let i = choose|i: int| 0 <= i < pending.len() && pending[i] == other;
        assert(i > 0 ==> before(pending[0], pending[i]));
    }
    if pending.contains(stage) {
        assert(stage is MissingArgs);
        lemma_exec_has_args(ctx, replies);
        assert(false) by {
            reveal(all);
            let p = |stage: Stage| stage is Exec ==> ctx.process.has_args;
            assert(p(pending[0]));
        }
    }
}

/// Only a payload that has arguments is to be executed.
#[verifier::rlimit(50)]
pub proof fn lemma_exec_has_args<E>(ctx: InitContext, replies: Seq<Reply<E>>)
    requires
        valid_run(ctx, replies),
    ensures
        all(
            run(ctx, replies).pending,
            |stage: Stage| stage is Exec ==> ctx.process.has_args,
        ),
{
    broadcast use group_all;

    let p = |stage: Stage| stage is Exec ==> ctx.process.has_args;
    assert(all(spec_tail(ctx, false), p) && all(spec_tail(ctx, true), p));
    assert(all(spec_plan(ctx), p));
    lemma_run_all(ctx, replies, p);
}

/// When a stage comes up, every stage of an earlier place that the context calls for has been
/// gone through.
pub proof fn law_earlier_stages_are_done<E>(ctx: InitContext, replies: Seq<Reply<E>>, stage: Stage)
    requires
        valid_run(ctx, replies),
        run(ctx, replies).failure is None,
        spec_plan(ctx).contains(stage) || spec_tail(ctx, false).contains(stage),
        place(stage) < place(run(ctx, replies).pending[0]),
    ensures
        trace(ctx, replies).contains(stage),
{
    let pending = run(ctx, replies).pending;
    lemma_run_well_formed(ctx, replies);
    law_stages_in_order(ctx, replies);
    law_nothing_is_left_out(ctx, replies, stage);
    law_nothing_is_left_out(ctx, replies, Stage::Chdir);
    lemma_plan_facts(ctx);
    if spec_tail(ctx, false).contains(stage) {
        lemma_tail_in_order(ctx, false);
        reveal(all);
        let high = |other: Stage| place(other) >= 18;
        let k = choose|k: int|
            0 <= k < spec_tail(ctx, false).len() && spec_tail(ctx, false)[k] == stage;
        assert(high(spec_tail(ctx, false)[k]));
    }
    assert forall|other: Stage| #[trigger] pending.contains(other) implies place(other) >= place(
        pending[0],
    ) by {
        let i = choose|i: int| 0 <= i < pending.len() && pending[i] == other;
        assert(i > 0 ==> before(pending[0], pending[i]));
    }
}

} // verus!
