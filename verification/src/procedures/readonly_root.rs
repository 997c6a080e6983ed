//! Makes the root file system of the container read-only.

use crate::abi::{mount_flag, MountFlag};
use crate::call::{Call, CallView, MountArgs, MountView};
use crate::path::FsPath;
use vstd::prelude::*;
use vstd::utf8::encode_utf8;

verus! {

/// The root is remounted in place.
pub open spec fn spec_call() -> CallView {
    CallView::Mount(
        MountView {
            source: None,
            target: encode_utf8("/"@),
            fstype: None,
            flags: MountFlag::ReadOnly.bits() | MountFlag::Remount.bits() | MountFlag::Bind.bits(),
            data: None,
        },
    )
}

/// The call that remounts the root.
pub fn call() -> (call: Call)
    ensures
        call@ == spec_call(),
{
    Call::Mount(
        MountArgs {
            source: None,
            target: FsPath::new("/"),
            fstype: None,
            flags: mount_flag(MountFlag::ReadOnly) | mount_flag(MountFlag::Remount) | mount_flag(
                MountFlag::Bind,
            ),
            data: None,
        },
    )
}

} // verus!
