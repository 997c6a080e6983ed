//! Makes the container's file system the root of the mount namespace without
//! `pivot_root(2)`. The `/sys` and `/proc` of the host are taken out of sight first, so
//! that they cannot be reached from the new root.

use crate::abi::{mount_flag, MountFlag};
use crate::call::{result_view, Call, CallView, MountArgs, MountView, Outcome};
use crate::error::{InitErrorView, InitProcessError};
use crate::path::FsPath;
use crate::procedures::unmount_or_hide;
use vstd::prelude::*;
use vstd::utf8::encode_utf8;

verus! {

/// The steps of the procedure.
#[derive(Debug, Clone, Copy, PartialEq, Eq, Structural)]
pub enum Step {
    EnterRootfs,
    Sys(unmount_or_hide::Step),
    Proc(unmount_or_hide::Step),
    MoveMount,
    Chroot,
    EnterRoot,
}

/// The call of a step.
pub open spec fn spec_call(step: Step, rootfs: Seq<u8>) -> CallView {
    match step {
        Step::EnterRootfs => CallView::Chdir(rootfs),
        Step::Sys(step) => unmount_or_hide::spec_call(step, encode_utf8("/sys"@)),
        Step::Proc(step) => unmount_or_hide::spec_call(step, encode_utf8("/proc"@)),
        Step::MoveMount => CallView::Mount(
            MountView {
                source: Some(rootfs),
                target: encode_utf8("/"@),
                fstype: None,
                flags: MountFlag::Move.bits(),
                data: None,
            },
        ),
        Step::Chroot => CallView::Chroot(encode_utf8("."@)),
        Step::EnterRoot => CallView::Chdir(encode_utf8("/"@)),
    }
}

/// The steps follow each other; the first failure that hiding a file system cannot mend
/// is an error.
pub open spec fn spec_reply<E>(step: Step, outcome: Outcome<E>) -> Result<
    Option<Step>,
    InitErrorView<E>,
> {
    match (step, outcome) {
        (Step::EnterRootfs, Ok(_)) => Ok(Some(Step::Sys(unmount_or_hide::Step::Unmount))),
        (Step::Sys(inner), _) => match unmount_or_hide::spec_reply(inner, outcome) {
            Ok(Some(next)) => Ok(Some(Step::Sys(next))),
            Ok(None) => Ok(Some(Step::Proc(unmount_or_hide::Step::Unmount))),
            Err(err) => Err(err),
        },
        (Step::Proc(inner), _) => match unmount_or_hide::spec_reply(inner, outcome) {
            Ok(Some(next)) => Ok(Some(Step::Proc(next))),
            Ok(None) => Ok(Some(Step::MoveMount)),
            Err(err) => Err(err),
        },
        (Step::MoveMount, Ok(_)) => Ok(Some(Step::Chroot)),
        (Step::Chroot, Ok(_)) => Ok(Some(Step::EnterRoot)),
        (Step::EnterRoot, Ok(_)) => Ok(None),
        (Step::EnterRootfs, Err(err)) => Err(InitProcessError::NixOther(err)),
        (Step::EnterRoot, Err(err)) => Err(InitProcessError::NixOther(err)),
        (Step::MoveMount, Err(err)) => Err(InitProcessError::SyscallOther(err)),
        (Step::Chroot, Err(err)) => Err(InitProcessError::SyscallOther(err)),
    }
}

/// The call of a step.
pub fn call(step: Step, rootfs: &FsPath) -> (call: Call)
    ensures
        call@ == spec_call(step, rootfs@),
{
    match step {
        Step::EnterRootfs => Call::Chdir(rootfs.clone()),
        Step::Sys(step) => unmount_or_hide::call(step, &FsPath::new("/sys")),
        Step::Proc(step) => unmount_or_hide::call(step, &FsPath::new("/proc")),
        Step::MoveMount => Call::Mount(
            MountArgs {
                source: Some(rootfs.clone()),
                target: FsPath::new("/"),
                fstype: None,
                flags: mount_flag(MountFlag::Move),
                data: None,
            },
        ),
        Step::Chroot => Call::Chroot(FsPath::new(".")),
        Step::EnterRoot => Call::Chdir(FsPath::new("/")),
    }
}

/// What follows from the answer to a step: the next step, if there is one, or an error.
pub fn reply<E>(step: Step, outcome: Outcome<E>) -> (next: Result<
    Option<Step>,
    InitProcessError<E>,
>)
    ensures
        result_view(next) == spec_reply(step, outcome),
{
    match step {
        Step::EnterRootfs => match outcome {
            Ok(_) => Ok(Some(Step::Sys(unmount_or_hide::Step::Unmount))),
            Err(err) => Err(InitProcessError::NixOther(err)),
        },
        Step::Sys(inner) => match unmount_or_hide::reply(inner, outcome) {
            Ok(Some(next)) => Ok(Some(Step::Sys(next))),
            Ok(None) => Ok(Some(Step::Proc(unmount_or_hide::Step::Unmount))),
            Err(err) => Err(err),
        },
        Step::Proc(inner) => match unmount_or_hide::reply(inner, outcome) {
            Ok(Some(next)) => Ok(Some(Step::Proc(next))),
            Ok(None) => Ok(Some(Step::MoveMount)),
            Err(err) => Err(err),
        },
        Step::MoveMount => match outcome {
            Ok(_) => Ok(Some(Step::Chroot)),
            Err(err) => Err(InitProcessError::SyscallOther(err)),
        },
        Step::Chroot => match outcome {
            Ok(_) => Ok(Some(Step::EnterRoot)),
            Err(err) => Err(InitProcessError::SyscallOther(err)),
        },
        Step::EnterRoot => match outcome {
            Ok(_) => Ok(None),
            Err(err) => Err(InitProcessError::NixOther(err)),
        },
    }
}

} // verus!
