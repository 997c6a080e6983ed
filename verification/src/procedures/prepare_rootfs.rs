//! Finds out what the root file system depends on, and has it prepared.

use crate::call::{result_view, Call, CallView, NamespaceType, Reply, ReplyKind};
use crate::error::{InitErrorView, InitProcessError};
use vstd::prelude::*;

verus! {

/// The steps of the procedure.
#[derive(Debug, Clone, Copy, PartialEq, Eq, Structural)]
pub enum Step {
    Probe,
    LookUpUser { in_user_ns: bool },
    LookUpCgroup { bind_service: bool },
    Prepare { bind_service: bool, cgroup_ns: bool },
}

/// The kind of answer that a step gets.
pub open spec fn answer(step: Step) -> ReplyKind {
    match step {
        Step::Probe => ReplyKind::Userns,
        Step::LookUpUser { .. } => ReplyKind::Namespace,
        Step::LookUpCgroup { .. } => ReplyKind::Namespace,
        Step::Prepare { .. } => ReplyKind::Outcome,
    }
}

/// The call of a step.
pub open spec fn spec_call(step: Step) -> CallView {
    match step {
        Step::Probe => CallView::IsInNewUserns,
        Step::LookUpUser { .. } => CallView::GetNamespace(NamespaceType::User),
        Step::LookUpCgroup { .. } => CallView::GetNamespace(NamespaceType::Cgroup),
        Step::Prepare { bind_service, cgroup_ns } => CallView::PrepareRootfs {
            bind_service,
            cgroup_ns,
        },
    }
}

/// Devices are bound rather than made if the container has a user namespace or the
/// process is in one already.
pub open spec fn spec_reply<E>(step: Step, reply: Reply<E>) -> Result<
    Option<Step>,
    InitErrorView<E>,
> {
    match (step, reply) {
        (Step::Probe, Reply::Userns(Ok(in_user_ns))) => Ok(Some(Step::LookUpUser { in_user_ns })),
        (Step::Probe, Reply::Userns(Err(err))) => Err(InitProcessError::Io(err)),
        (Step::LookUpUser { in_user_ns }, Reply::Namespace(Ok(namespace))) => Ok(
            Some(Step::LookUpCgroup { bind_service: namespace is Some || in_user_ns }),
        ),
        (Step::LookUpCgroup { bind_service }, Reply::Namespace(Ok(namespace))) => Ok(
            Some(Step::Prepare { bind_service, cgroup_ns: namespace is Some }),
        ),
        (_, Reply::Namespace(Err(err))) => Err(InitProcessError::Namespaces(err)),
        (_, Reply::Outcome(Err(err))) => Err(InitProcessError::RootFS(err)),
        _ => Ok(None),
    }
}

/// The call of a step.
pub fn call(step: Step) -> (call: Call)
    ensures
        call@ == spec_call(step),
{
    match step {
        Step::Probe => Call::IsInNewUserns,
        Step::LookUpUser { .. } => Call::GetNamespace(NamespaceType::User),
        Step::LookUpCgroup { .. } => Call::GetNamespace(NamespaceType::Cgroup),
        Step::Prepare { bind_service, cgroup_ns } => Call::PrepareRootfs { bind_service, cgroup_ns },
    }
}

/// What follows from the answer to a step: the next step, if there is one, or an error.
pub fn reply<E>(step: Step, received: Reply<E>) -> (next: Result<
    Option<Step>,
    InitProcessError<E>,
>)
    requires
        received.spec_kind() == answer(step),
    ensures
        result_view(next) == spec_reply(step, received),
{
    match (step, received) {
        (Step::Probe, Reply::Userns(Ok(in_user_ns))) => Ok(Some(Step::LookUpUser { in_user_ns })),
        (Step::Probe, Reply::Userns(Err(err))) => Err(InitProcessError::Io(err)),
        (Step::LookUpUser { in_user_ns }, Reply::Namespace(Ok(namespace))) => {
            let bind_service = namespace.is_some() || in_user_ns;
            Ok(Some(Step::LookUpCgroup { bind_service }))
        },
        (Step::LookUpCgroup { bind_service }, Reply::Namespace(Ok(namespace))) => {
            let cgroup_ns = namespace.is_some();
            Ok(Some(Step::Prepare { bind_service, cgroup_ns }))
        },
        (_, Reply::Namespace(Err(err))) => Err(InitProcessError::Namespaces(err)),
        (_, Reply::Outcome(Err(err))) => Err(InitProcessError::RootFS(err)),
        _ => Ok(None),
    }
}

} // verus!
