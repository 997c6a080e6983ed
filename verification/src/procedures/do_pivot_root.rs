//! Enters the root file system of the container: with `pivot_root(2)`, or by moving the
//! mount, where the container has a mount namespace, and with a mere `chroot(2)` where it
//! is in the mount namespace of the host.

use crate::call::{result_view, Call, CallView, NamespaceType, Reply, ReplyKind};
use crate::error::{InitErrorView, InitProcessError};
use crate::path::FsPath;
use crate::procedures::move_root;
use vstd::prelude::*;

verus! {

/// The steps of the procedure.
#[derive(Debug, Clone, Copy, PartialEq, Eq, Structural)]
pub enum Step {
    LookUp,
    MoveRoot(move_root::Step),
    Pivot,
    Chroot,
}

/// The kind of answer that a step gets.
pub open spec fn answer(step: Step) -> ReplyKind {
    match step {
        Step::LookUp => ReplyKind::Namespace,
        _ => ReplyKind::Outcome,
    }
}

/// The call of a step.
pub open spec fn spec_call(step: Step, rootfs: Seq<u8>) -> CallView {
    match step {
        Step::LookUp => CallView::GetNamespace(NamespaceType::Mount),
        Step::MoveRoot(step) => move_root::spec_call(step, rootfs),
        Step::Pivot => CallView::PivotRootfs(rootfs),
        Step::Chroot => CallView::Chroot(rootfs),
    }
}

/// The mount namespace and `no_pivot` decide how the root is entered.
pub open spec fn spec_reply<E>(step: Step, no_pivot: bool, reply: Reply<E>) -> Result<
    Option<Step>,
    InitErrorView<E>,
> {
    match (step, reply) {
        (Step::LookUp, Reply::Namespace(Ok(namespace))) => Ok(
            Some(
                if namespace is None {
                    Step::Chroot
                } else if no_pivot {
                    Step::MoveRoot(move_root::Step::EnterRootfs)
                } else {
                    Step::Pivot
                },
            ),
        ),
        (Step::LookUp, Reply::Namespace(Err(err))) => Err(InitProcessError::Namespaces(err)),
        (Step::MoveRoot(inner), Reply::Outcome(outcome)) => match move_root::spec_reply(
            inner,
            outcome,
        ) {
            Ok(Some(next)) => Ok(Some(Step::MoveRoot(next))),
            Ok(None) => Ok(None),
            Err(err) => Err(err),
        },
        (_, Reply::Outcome(Err(err))) => Err(InitProcessError::SyscallOther(err)),
        _ => Ok(None),
    }
}

/// The call of a step.
pub fn call(step: Step, rootfs: &FsPath) -> (call: Call)
    ensures
        call@ == spec_call(step, rootfs@),
{
    match step {
        Step::LookUp => Call::GetNamespace(NamespaceType::Mount),
        Step::MoveRoot(step) => move_root::call(step, rootfs),
        Step::Pivot => Call::PivotRootfs(rootfs.clone()),
        Step::Chroot => Call::Chroot(rootfs.clone()),
    }
}

/// What follows from the answer to a step: the next step, if there is one, or an error.
pub fn reply<E>(step: Step, no_pivot: bool, received: Reply<E>) -> (next: Result<
    Option<Step>,
    InitProcessError<E>,
>)
    requires
        received.spec_kind() == answer(step),
    ensures
        result_view(next) == spec_reply(step, no_pivot, received),
{
    match (step, received) {
        (Step::LookUp, Reply::Namespace(Ok(Some(_)))) => if no_pivot {
            Ok(Some(Step::MoveRoot(move_root::Step::EnterRootfs)))
        } else {
            Ok(Some(Step::Pivot))
        },
        (Step::LookUp, Reply::Namespace(Ok(None))) => Ok(Some(Step::Chroot)),
        (Step::LookUp, Reply::Namespace(Err(err))) => Err(InitProcessError::Namespaces(err)),
        (Step::MoveRoot(inner), Reply::Outcome(outcome)) => match move_root::reply(inner, outcome) {
            Ok(Some(next)) => Ok(Some(Step::MoveRoot(next))),
            Ok(None) => Ok(None),
            Err(err) => Err(err),
        },
        (_, Reply::Outcome(Err(err))) => Err(InitProcessError::SyscallOther(err)),
        _ => Ok(None),
    }
}

} // verus!
