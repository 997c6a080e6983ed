//! The init process of a container, as a sequence of calls to the host.

use crate::call::{Call, CallView, Reply};
use crate::context::InitContext;
use crate::envs::Envs;
use crate::error::{InitErrorView, InitProcessError, MissingSpecError};
use crate::plan::{plan, spec_head, spec_plan, spec_tail};
use crate::procedures::reopen_dev_null;
use crate::stage::{
    accepts, call, cleanup, rejection, rejects, respond, spec_accepts, spec_call, spec_cleanup,
    spec_envs, spec_respond, valid, Stage,
};
use crate::stages::{all, group_all};
use vstd::prelude::*;

verus! {

/// Where the init process stands.
pub struct InitState<E> {
    /// The stages that are still to be gone through, in order.
    pub pending: Seq<Stage>,
    /// The environment of the payload.
    pub envs: Map<Seq<char>, Seq<char>>,
    /// The error that ends the process.
    pub failure: Option<InitErrorView<E>>,
}

/// An init process that ends with an error, when it has cleaned up.
pub open spec fn failed<E>(
    pending: Seq<Stage>,
    envs: Map<Seq<char>, Seq<char>>,
    err: InitErrorView<E>,
) -> InitState<E> {
    InitState { pending, envs, failure: Some(err) }
}

/// An init process that goes on with these stages, unless the first ends it.
pub open spec fn proceeding<E>(
    pending: Seq<Stage>,
    envs: Map<Seq<char>, Seq<char>>,
) -> InitState<E> {
    if pending.len() > 0 && rejects(pending[0]) {
        failed(seq![], envs, rejection::<E>(pending[0])->0)
    } else {
        InitState { pending, envs, failure: None }
    }
}

/// Where the init process starts.
pub open spec fn initial<E>(ctx: InitContext) -> InitState<E> {
    proceeding(spec_plan(ctx), ctx.envs@)
}

/// The call that the init process makes next, until it has ended.
pub open spec fn next_call<E>(ctx: InitContext, state: InitState<E>) -> Option<CallView> {
    if state.pending.len() > 0 {
        Some(spec_call(ctx, state.envs, state.pending[0]))
    } else {
        None
    }
}

/// Whether the init process can go on from the answer to its call.
pub open spec fn acceptable<E>(ctx: InitContext, state: InitState<E>, reply: Reply<E>) -> bool {
    state.pending.len() > 0 && spec_accepts(ctx, state.pending[0], reply)
}

/// Where the init process stands after the answer to its call: the stages that the answer
/// brings up come before those that were pending. An error ends the process, but for what
/// has to be cleaned up.
pub open spec fn step<E>(ctx: InitContext, state: InitState<E>, reply: Reply<E>) -> InitState<E> {
    let envs = spec_envs(state.envs, state.pending[0], reply);
    match (spec_respond(ctx, state.pending[0], reply), state.failure) {
        (Ok(stages), None) => proceeding(stages + state.pending.drop_first(), envs),
        (Ok(stages), Some(err)) => failed(stages + state.pending.drop_first(), envs, err),
        (Err(err), _) => failed(spec_cleanup(state.pending[0]), envs, err),
    }
}

/// Whether a stage can be the last one that is pending.
pub open spec fn closes(stage: Stage) -> bool {
    stage is Chdir || stage is MissingArgs || stage is Exec
}

/// Whether a stage only cleans up.
pub open spec fn cleans_up(stage: Stage) -> bool {
    stage matches Stage::DevNull(reopen_dev_null::Step::Release { .. })
}

/// Whether the context has what the pending stages refer to, and they lead up to the
/// payload. A process that has failed has at most something to clean up.
pub open spec fn well_formed<E>(ctx: InitContext, state: InitState<E>) -> bool {
    &&& forall|i: int| 0 <= i < state.pending.len() ==> valid(ctx, #[trigger] state.pending[i])
    &&& state.failure is None ==> {
        &&& state.pending.len() > 0
        &&& !rejects(state.pending[0])
        &&& closes(state.pending.last())
    }
    &&& state.failure is Some ==> {
        &&& state.pending.len() <= 1
        &&& state.pending.len() == 1 ==> cleans_up(state.pending[0])
    }
}

/// What the context calls for, it has.
pub proof fn lemma_plan_valid(ctx: InitContext, do_chdir: bool)
    ensures
        all(spec_head(ctx), |stage: Stage| valid(ctx, stage)),
        all(spec_tail(ctx, do_chdir), |stage: Stage| valid(ctx, stage)),
{
    broadcast use group_all;

}

/// An init process starts well-formed.
pub proof fn lemma_initial_well_formed<E>(ctx: InitContext)
    ensures
        well_formed(ctx, initial::<E>(ctx)),
{
    broadcast use group_all;

    lemma_plan_valid(ctx, false);
    assert(all(spec_plan(ctx), |stage: Stage| valid(ctx, stage)));
    assert(closes(spec_tail(ctx, false).last()));
    assert(closes(spec_plan(ctx).last()));
    reveal(all);
}

/// An answer brings up only what the context has.
pub proof fn lemma_respond_valid<E>(ctx: InitContext, stage: Stage, reply: Reply<E>)
    requires
        valid(ctx, stage),
    ensures
        spec_respond(ctx, stage, reply) matches Ok(stages) ==> all(
            stages,
            |stage: Stage| valid(ctx, stage),
        ),
{
    broadcast use group_all;

    lemma_plan_valid(ctx, false);
    lemma_plan_valid(ctx, true);
}

/// An init process stays well-formed.
pub proof fn lemma_step_well_formed<E>(ctx: InitContext, state: InitState<E>, reply: Reply<E>)
    requires
        well_formed(ctx, state),
        acceptable(ctx, state, reply),
    ensures
        well_formed(ctx, step(ctx, state, reply)),
{
    lemma_respond_valid(ctx, state.pending[0], reply);
    if let Ok(stages) = spec_respond(ctx, state.pending[0], reply) {
        reveal(all);
        let pending = stages + state.pending.drop_first();
        assert forall|i: int| 0 <= i < pending.len() implies valid(ctx, #[trigger] pending[i]) by {
            if i < stages.len() {
                let p = |stage: Stage| valid(ctx, stage);
                assert(p(stages[i]));
            } else {
                assert(pending[i] == state.pending[i - stages.len() + 1]);
            }
        }
        if state.failure is Some {
            assert(pending =~= seq![]);
        } else if state.pending.len() == 1 {
            assert(state.pending[0] is Chdir);
            assert(closes(spec_tail(ctx, false).last()) && closes(spec_tail(ctx, true).last()));
            assert(pending =~= stages);
        } else {
            assert(pending.last() == state.pending.last());
        }
    }
}

/// The init process of a container.
#[derive(Debug)]
pub struct InitProcess<E> {
    ctx: InitContext,
    pending: Vec<Stage>,
    envs: Envs,
    failure: Option<InitProcessError<E>>,
}

impl<E> View for InitProcess<E> {
    type V = InitState<E>;

    closed spec fn view(&self) -> InitState<E> {
        InitState {
            pending: self.pending@,
            envs: self.envs@,
            failure: match self.failure {
                Some(err) => Some(err@),
                None => None,
            },
        }
    }
}

/// An init process that goes on with these stages, unless the first ends it.
fn proceed<E>(ctx: InitContext, pending: Vec<Stage>, envs: Envs) -> (process: InitProcess<E>)
    requires
        well_formed(ctx, proceeding::<E>(pending@, envs@)),
    ensures
        process.context() == ctx,
        process@ == proceeding::<E>(pending@, envs@),
{
    if pending.len() > 0 {
        match pending[0] {
            Stage::InvalidUmask(bits) => {
                return fail(ctx, Vec::new(), envs, InitProcessError::InvalidUmask(bits));
            },
            Stage::MissingArgs => {
                let err = InitProcessError::MissingSpec(MissingSpecError::Args);
                return fail(ctx, Vec::new(), envs, err);
            },
            _ => {},
        }
    }
    InitProcess { ctx, pending, envs, failure: None }
}

/// An init process that ends with an error, when it has cleaned up.
fn fail<E>(ctx: InitContext, pending: Vec<Stage>, envs: Envs, err: InitProcessError<E>) -> (process:
    InitProcess<E>)
    requires
        well_formed(ctx, failed::<E>(pending@, envs@, err@)),
    ensures
        process.context() == ctx,
        process@ == failed::<E>(pending@, envs@, err@),
{
    InitProcess { ctx, pending, envs, failure: Some(err) }
}

/// Starts the init process of a container.
pub fn container_init_process<E>(ctx: InitContext) -> (process: InitProcess<E>)
    ensures
        process.context() == ctx,
        process@ == initial::<E>(ctx),
{
    proof {
        lemma_initial_well_formed::<E>(ctx);
    }
    let stages: Vec<Stage> = plan(&ctx);
    let envs: Envs = ctx.envs.copy();
    proceed(ctx, stages, envs)
}

impl<E> InitProcess<E> {
    /// What the init process goes by.
    pub closed spec fn context(self) -> InitContext {
        self.ctx
    }

    #[verifier::type_invariant]
    spec fn inv(self) -> bool {
        well_formed(self.ctx, self@)
    }

    /// The call to make next, until the process has ended.
    pub fn next_call(&self) -> (next: Option<Call>)
        ensures
            match next {
                Some(call) => Some(call@),
                None => None,
            } == next_call(self.context(), self@),
    {
        proof {
            use_type_invariant(self);
        }
        if self.pending.len() > 0 {
            Some(call(&self.ctx, &self.envs, self.pending[0]))
        } else {
            None
        }
    }

    /// Whether the process can go on from this answer to its call.
    pub fn accepts(&self, received: &Reply<E>) -> (b: bool)
        ensures
            b == acceptable(self.context(), self@, *received),
    {
        self.pending.len() > 0 && accepts(&self.ctx, self.pending[0], received)
    }

    /// Goes on from the answer to the call.
    pub fn resume(self, received: Reply<E>) -> (process: InitProcess<E>)
        requires
            acceptable(self.context(), self@, received),
        ensures
            process.context() == self.context(),
            process@ == step(self.context(), self@, received),
    {
        proof {
            use_type_invariant(&self);
            lemma_step_well_formed(self.ctx, self@, received);
        }
        let ghost before = self@;
        let InitProcess { ctx, mut pending, mut envs, failure } = self;
        let stage: Stage = pending.remove(0);
        assert(pending@ =~= before.pending.drop_first());
        match respond(&ctx, &mut envs, stage, received) {
            Ok(mut stages) => {
                stages.append(&mut pending);
                match failure {
                    None => proceed(ctx, stages, envs),
                    Some(err) => fail(ctx, stages, envs, err),
                }
            },
            Err(err) => fail(ctx, cleanup(stage), envs, err),
        }
    }

    /// How the process ended. A process that ends has failed: otherwise the payload has
    /// taken its place.
    pub fn finish(self) -> (result: Result<(), InitProcessError<E>>)
        requires
            self@.pending.len() == 0,
        ensures
            result is Err,
            self@.failure == Some(result->Err_0@),
    {
        proof {
            use_type_invariant(&self);
        }
        match self.failure {
            Some(err) => Err(err),
            None => Ok(()),
        }
    }
}

} // verus!
