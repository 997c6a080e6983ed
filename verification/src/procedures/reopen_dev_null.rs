//! Points the standard descriptors that lead to the host's `/dev/null` to the one of the
//! container.

use crate::call::{result_view, Call, CallView, Reply, ReplyKind};
use crate::error::{InitErrorView, InitProcessError};
use crate::path::FsPath;
use vstd::prelude::*;
use vstd::utf8::encode_utf8;

verus! {

/// `dev` is the descriptor of the container's `/dev/null`, `rdev` the device that it
/// stands for, and `fd` the standard descriptor that is looked at.
#[derive(Debug, Clone, Copy, PartialEq, Eq, Structural)]
pub enum Step {
    Open,
    StatDevNull { dev: i32 },
    StatStdio { dev: i32, rdev: u64, fd: i32 },
    Redirect { dev: i32, rdev: u64, fd: i32 },
    Release { dev: i32 },
}

/// Only the standard descriptors are looked at.
pub open spec fn valid(step: Step) -> bool {
    match step {
        Step::StatStdio { fd, .. } => 0 <= fd < 3,
        Step::Redirect { fd, .. } => 0 <= fd < 3,
        _ => true,
    }
}

/// The kind of answer that a step gets.
pub open spec fn answer(step: Step) -> ReplyKind {
    match step {
        Step::Open => ReplyKind::Descriptor,
        Step::StatDevNull { .. } => ReplyKind::Device,
        Step::StatStdio { .. } => ReplyKind::Device,
        Step::Redirect { .. } => ReplyKind::Outcome,
        Step::Release { .. } => ReplyKind::Outcome,
    }
}

/// The call of a step.
pub open spec fn spec_call(step: Step) -> CallView {
    match step {
        Step::Open => CallView::Open(encode_utf8("/dev/null"@)),
        Step::StatDevNull { dev } => CallView::Fstat(dev),
        Step::StatStdio { fd, .. } => CallView::Fstat(fd),
        Step::Redirect { dev, fd, .. } => CallView::Dup2 { from: dev, to: fd },
        Step::Release { dev } => CallView::Close(dev),
    }
}

/// What follows when a standard descriptor has been dealt with.
pub open spec fn after_stdio(dev: i32, rdev: u64, fd: i32) -> Step {
    if fd < 2 {
        Step::StatStdio { dev, rdev, fd: (fd + 1) as i32 }
    } else {
        Step::Release { dev }
    }
}

/// A standard descriptor is redirected if and only if it stands for the same device as
/// the container's `/dev/null`.
pub open spec fn spec_reply<E>(step: Step, reply: Reply<E>) -> Result<
    Option<Step>,
    InitErrorView<E>,
> {
    match (step, reply) {
        (Step::Open, Reply::Descriptor(Ok(dev))) => Ok(Some(Step::StatDevNull { dev })),
        (Step::Open, Reply::Descriptor(Err(err))) => Err(InitProcessError::ReopenDevNull(err)),
        (Step::StatDevNull { dev }, Reply::Device(Ok(rdev))) => Ok(
            Some(Step::StatStdio { dev, rdev, fd: 0 }),
        ),
        (Step::StatStdio { dev, rdev, fd }, Reply::Device(Ok(device))) => Ok(
            Some(
                if device == rdev {
                    Step::Redirect { dev, rdev, fd }
                } else {
                    after_stdio(dev, rdev, fd)
                },
            ),
        ),
        (Step::Redirect { dev, rdev, fd }, Reply::Outcome(Ok(_))) => Ok(
            Some(after_stdio(dev, rdev, fd)),
        ),
        (Step::Release { .. }, _) => Ok(None),
        (_, Reply::Device(Err(err))) => Err(InitProcessError::NixOther(err)),
        (_, Reply::Outcome(Err(err))) => Err(InitProcessError::NixOther(err)),
        _ => Ok(None),
    }
}

/// The descriptor of the container's `/dev/null`, from when it is open until it is released.
pub open spec fn held(step: Step) -> Option<i32> {
    match step {
        Step::Open => None,
        Step::StatDevNull { dev } => Some(dev),
        Step::StatStdio { dev, .. } => Some(dev),
        Step::Redirect { dev, .. } => Some(dev),
        Step::Release { dev } => Some(dev),
    }
}

/// What is left to do when a step has failed: a descriptor that is open is released.
pub open spec fn spec_release(step: Step) -> Option<Step> {
    if step is Release {
        None
    } else {
        match held(step) {
            Some(dev) => Some(Step::Release { dev }),
            None => None,
        }
    }
}

/// The call of a step.
pub fn call(step: Step) -> (call: Call)
    ensures
        call@ == spec_call(step),
{
    match step {
        Step::Open => Call::Open(FsPath::new("/dev/null")),
        Step::StatDevNull { dev } => Call::Fstat(dev),
        Step::StatStdio { fd, .. } => Call::Fstat(fd),
        Step::Redirect { dev, fd, .. } => Call::Dup2 { from: dev, to: fd },
        Step::Release { dev } => Call::Close(dev),
    }
}

fn next_stdio(dev: i32, rdev: u64, fd: i32) -> (next: Step)
    requires
        0 <= fd < 3,
    ensures
        next == after_stdio(dev, rdev, fd),
        valid(next),
{
    if fd < 2 {
        Step::StatStdio { dev, rdev, fd: fd + 1 }
    } else {
        Step::Release { dev }
    }
}

/// What is left to do when a step has failed.
pub fn release(step: Step) -> (last: Option<Step>)
    ensures
        last == spec_release(step),
{
    match step {
        Step::StatDevNull { dev } => Some(Step::Release { dev }),
        Step::StatStdio { dev, .. } => Some(Step::Release { dev }),
        Step::Redirect { dev, .. } => Some(Step::Release { dev }),
        Step::Open => None,
        Step::Release { .. } => None,
    }
}

/// What follows from the answer to a step: the next step, if there is one, or an error.
pub fn reply<E>(step: Step, received: Reply<E>) -> (next: Result<
    Option<Step>,
    InitProcessError<E>,
>)
    requires
        valid(step),
        received.spec_kind() == answer(step),
    ensures
        result_view(next) == spec_reply(step, received),
        next matches Ok(Some(next)) ==> valid(next),
{
    match (step, received) {
        (Step::Open, Reply::Descriptor(Ok(dev))) => Ok(Some(Step::StatDevNull { dev })),
        (Step::Open, Reply::Descriptor(Err(err))) => Err(InitProcessError::ReopenDevNull(err)),
        (Step::StatDevNull { dev }, Reply::Device(Ok(rdev))) => Ok(
            Some(Step::StatStdio { dev, rdev, fd: 0 }),
        ),
        (Step::StatStdio { dev, rdev, fd }, Reply::Device(Ok(device))) => if device == rdev {
            // This FD points to /dev/null outside of the container.
            Ok(Some(Step::Redirect { dev, rdev, fd }))
        } else {
            Ok(Some(next_stdio(dev, rdev, fd)))
        },
        (Step::Redirect { dev, rdev, fd }, Reply::Outcome(Ok(_))) => Ok(
            Some(next_stdio(dev, rdev, fd)),
        ),
        (Step::Release { .. }, _) => Ok(None),
        (_, Reply::Device(Err(err))) => Err(InitProcessError::NixOther(err)),
        (_, Reply::Outcome(Err(err))) => Err(InitProcessError::NixOther(err)),
        _ => Ok(None),
    }
}

} // verus!
