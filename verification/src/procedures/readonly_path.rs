//! Makes a path read-only. The first bind mount ignores all other flags, so the path is
//! mounted once and then remounted with the flags that matter.

use crate::abi::{mount_flag, KnownErrno, MountFlag};
use crate::call::{result_view, Call, CallView, MountArgs, MountView, Outcome};
use crate::error::{InitErrorView, InitProcessError};
use crate::path::FsPath;
use vstd::prelude::*;

verus! {

/// The steps of the procedure.
#[derive(Debug, Clone, Copy, PartialEq, Eq, Structural)]
pub enum Step {
    Bind,
    Remount,
}

/// The flags of the first mount.
pub open spec fn bind_flags() -> u64 {
    MountFlag::Bind.bits() | MountFlag::Recursive.bits()
}

/// The flags of the second mount.
pub open spec fn remount_flags() -> u64 {
    MountFlag::NoSuid.bits() | MountFlag::NoDev.bits() | MountFlag::NoExec.bits()
        | MountFlag::Bind.bits() | MountFlag::Remount.bits() | MountFlag::ReadOnly.bits()
}

/// Both steps mount the path onto itself.
pub open spec fn spec_call(step: Step, path: Seq<u8>) -> CallView {
    CallView::Mount(
        MountView {
            source: Some(path),
            target: path,
            fstype: None,
            flags: match step {
                Step::Bind => bind_flags(),
                Step::Remount => remount_flags(),
            },
            data: None,
        },
    )
}

/// A path that does not exist is left alone; any other failure is an error.
pub open spec fn spec_reply<E>(step: Step, outcome: Outcome<E>) -> Result<
    Option<Step>,
    InitErrorView<E>,
> {
    match (step, outcome) {
        (Step::Bind, Ok(_)) => Ok(Some(Step::Remount)),
        (Step::Remount, Ok(_)) => Ok(None),
        (_, Err(err)) => if step == Step::Bind && err.is_errno(KnownErrno::NoEntry) {
            Ok(None)
        } else {
            Err(InitProcessError::MountPathReadonly(err))
        },
    }
}

/// The call of a step.
pub fn call(step: Step, path: &FsPath) -> (call: Call)
    ensures
        call@ == spec_call(step, path@),
{
    let flags: u64 = match step {
        Step::Bind => mount_flag(MountFlag::Bind) | mount_flag(MountFlag::Recursive),
        Step::Remount => mount_flag(MountFlag::NoSuid) | mount_flag(MountFlag::NoDev) | mount_flag(
            MountFlag::NoExec,
        ) | mount_flag(MountFlag::Bind) | mount_flag(MountFlag::Remount) | mount_flag(
            MountFlag::ReadOnly,
        ),
    };
    Call::Mount(
        MountArgs {
            source: Some(path.clone()),
            target: path.clone(),
            fstype: None,
            flags,
            data: None,
        },
    )
}

/// What follows from the answer to a step: the next step, if there is one, or an error.
pub fn reply<E>(step: Step, outcome: Outcome<E>) -> (next: Result<
    Option<Step>,
    InitProcessError<E>,
>)
    ensures
        result_view(next) == spec_reply(step, outcome),
{
    match outcome {
        Ok(_) => match step {
            Step::Bind => Ok(Some(Step::Remount)),
            Step::Remount => Ok(None),
        },
        Err(err) => match step {
            Step::Bind if err.is(KnownErrno::NoEntry) => Ok(None),
            _ => Err(InitProcessError::MountPathReadonly(err)),
        },
    }
}

} // verus!
