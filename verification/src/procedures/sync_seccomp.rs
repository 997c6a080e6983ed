//! Installs the seccomp profile and, where the profile has calls notified, hands the
//! descriptor for the notifications to the main process.

use crate::call::{result_view, Call, CallView, Reply, ReplyKind};
use crate::error::{InitErrorView, InitProcessError};
use vstd::prelude::*;

verus! {

/// The steps of the procedure.
#[derive(Debug, Clone, Copy, PartialEq, Eq, Structural)]
pub enum Step {
    Initialize,
    Request { fd: i32 },
    Wait { fd: i32 },
    Close { fd: i32 },
}

/// The kind of answer that a step gets.
pub open spec fn answer(step: Step) -> ReplyKind {
    match step {
        Step::Initialize => ReplyKind::Notify,
        _ => ReplyKind::Outcome,
    }
}

/// The call of a step.
pub open spec fn spec_call(step: Step) -> CallView {
    match step {
        Step::Initialize => CallView::InitializeSeccomp,
        Step::Request { fd } => CallView::SeccompNotifyRequest(fd),
        Step::Wait { .. } => CallView::WaitForSeccompRequestDone,
        Step::Close { fd } => CallView::Close(fd),
    }
}

/// The descriptor is closed once the main process has its own; whether that works does
/// not matter.
pub open spec fn spec_reply<E>(step: Step, reply: Reply<E>) -> Result<
    Option<Step>,
    InitErrorView<E>,
> {
    match (step, reply) {
        (Step::Initialize, Reply::Notify(Ok(Some(fd)))) => Ok(Some(Step::Request { fd })),
        (Step::Initialize, Reply::Notify(Err(err))) => Err(InitProcessError::Seccomp(err)),
        (Step::Request { fd }, Reply::Outcome(Ok(_))) => Ok(Some(Step::Wait { fd })),
        (Step::Wait { fd }, Reply::Outcome(Ok(_))) => Ok(Some(Step::Close { fd })),
        (Step::Close { .. }, _) => Ok(None),
        (_, Reply::Outcome(Err(err))) => Err(InitProcessError::Channel(err)),
        _ => Ok(None),
    }
}

/// The call of a step.
pub fn call(step: Step) -> (call: Call)
    ensures
        call@ == spec_call(step),
{
    match step {
        Step::Initialize => Call::InitializeSeccomp,
        Step::Request { fd } => Call::SeccompNotifyRequest(fd),
        Step::Wait { .. } => Call::WaitForSeccompRequestDone,
        Step::Close { fd } => Call::Close(fd),
    }
}

/// What follows from the answer to a step: the next step, if there is one, or an error.
pub fn reply<E>(step: Step, received: Reply<E>) -> (next: Result<
    Option<Step>,
    InitProcessError<E>,
>)
    requires
        received.spec_kind() == answer(step),
    ensures
        result_view(next) == spec_reply(step, received),
{
    match (step, received) {
        (Step::Initialize, Reply::Notify(Ok(Some(fd)))) => Ok(Some(Step::Request { fd })),
        (Step::Initialize, Reply::Notify(Err(err))) => Err(InitProcessError::Seccomp(err)),
        (Step::Request { fd }, Reply::Outcome(Ok(_))) => Ok(Some(Step::Wait { fd })),
        (Step::Wait { fd }, Reply::Outcome(Ok(_))) => Ok(Some(Step::Close { fd })),
        (Step::Close { .. }, _) => Ok(None),
        (_, Reply::Outcome(Err(err))) => Err(InitProcessError::Channel(err)),
        _ => Ok(None),
    }
}

} // verus!
