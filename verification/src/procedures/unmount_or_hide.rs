//! Takes a mounted file system out of sight: it is unmounted or, where the kernel does
//! not allow that, hidden under an empty tmpfs.

use crate::abi::{detach_bits, detach_flag, mount_flag, KnownErrno, MountFlag};
use crate::call::{result_view, Call, CallView, MountArgs, MountView, Outcome};
use crate::error::{InitErrorView, InitProcessError};
use crate::path::FsPath;
use vstd::prelude::*;

verus! {

/// The steps of the procedure.
#[derive(Debug, Clone, Copy, PartialEq, Eq, Structural)]
pub enum Step {
    Unmount,
    Hide,
}

/// The call of a step.
pub open spec fn spec_call(step: Step, target: Seq<u8>) -> CallView {
    match step {
        Step::Unmount => CallView::Umount2 { target, flags: detach_bits() },
        Step::Hide => CallView::Mount(
            MountView {
                source: None,
                target,
                fstype: Some("tmpfs"@),
                flags: MountFlag::ReadOnly.bits(),
                data: Some("size=0k"@),
            },
        ),
    }
}

/// A target that cannot be unmounted as it is gets hidden; any other failure is an error.
pub open spec fn spec_reply<E>(step: Step, outcome: Outcome<E>) -> Result<
    Option<Step>,
    InitErrorView<E>,
> {
    match outcome {
        Ok(_) => Ok(None),
        Err(err) => if step == Step::Unmount && err.is_errno(KnownErrno::InvalidArgument) {
            Ok(Some(Step::Hide))
        } else {
            Err(InitProcessError::SyscallOther(err))
        },
    }
}

/// The call of a step.
pub fn call(step: Step, target: &FsPath) -> (call: Call)
    ensures
        call@ == spec_call(step, target@),
{
    match step {
        Step::Unmount => Call::Umount2 { target: target.clone(), flags: detach_flag() },
        Step::Hide => Call::Mount(
            MountArgs {
                source: None,
                target: target.clone(),
                fstype: Some("tmpfs".to_owned()),
                flags: mount_flag(MountFlag::ReadOnly),
                data: Some("size=0k".to_owned()),
            },
        ),
    }
}

/// What follows from the answer to a step: the next step, if there is one, or an error.
pub fn reply<E>(step: Step, outcome: Outcome<E>) -> (next: Result<
    Option<Step>,
    InitProcessError<E>,
>)
    ensures
        result_view(next) == spec_reply(step, outcome),
{
    match outcome {
        Ok(_) => Ok(None),
        Err(err) => match step {
            Step::Unmount if err.is(KnownErrno::InvalidArgument) => Ok(Some(Step::Hide)),
            _ => Err(InitProcessError::SyscallOther(err)),
        },
    }
}

} // verus!
