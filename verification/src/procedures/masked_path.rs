//! Hides a path: `/dev/null` is mounted over a file, and a read-only tmpfs over a
//! directory.

use crate::abi::{mount_flag, KnownErrno, MountFlag};
use crate::call::{result_view, text_option, Call, CallView, MountArgs, MountView, Outcome};
use crate::error::{InitErrorView, InitProcessError};
use crate::path::FsPath;
use vstd::prelude::*;
use vstd::utf8::encode_utf8;

verus! {

/// The steps of the procedure.
#[derive(Debug, Clone, Copy, PartialEq, Eq, Structural)]
pub enum Step {
    DevNull,
    Tmpfs,
}

/// The mount data that carries a label, empty where there is no label.
pub open spec fn label_data(label: Option<Seq<char>>) -> Seq<char> {
    match label {
        Some(label) => "context=\""@ + label + "\""@,
        None => ""@,
    }
}

/// The call of a step.
pub open spec fn spec_call(step: Step, path: Seq<u8>, label: Option<Seq<char>>) -> CallView {
    CallView::Mount(
        match step {
            Step::DevNull => MountView {
                source: Some(encode_utf8("/dev/null"@)),
                target: path,
                fstype: None,
                flags: MountFlag::Bind.bits(),
                data: None,
            },
            Step::Tmpfs => MountView {
                source: Some(encode_utf8("tmpfs"@)),
                target: path,
                fstype: Some("tmpfs"@),
                flags: MountFlag::ReadOnly.bits(),
                data: Some(label_data(label)),
            },
        },
    )
}

/// A path that does not exist is left alone, and one that turns out to be a directory
/// gets a tmpfs; any other failure is an error.
pub open spec fn spec_reply<E>(step: Step, outcome: Outcome<E>) -> Result<
    Option<Step>,
    InitErrorView<E>,
> {
    match outcome {
        Ok(_) => Ok(None),
        Err(err) => if step == Step::DevNull && err.is_errno(KnownErrno::NoEntry) {
            Ok(None)
        } else if step == Step::DevNull && err.is_errno(KnownErrno::NotDirectory) {
            Ok(Some(Step::Tmpfs))
        } else {
            Err(InitProcessError::MountPathMasked(err))
        },
    }
}

/// The call of a step.
pub fn call(step: Step, path: &FsPath, mount_label: &Option<String>) -> (call: Call)
    ensures
        call@ == spec_call(step, path@, text_option(*mount_label)),
{
    match step {
        Step::DevNull => Call::Mount(
            MountArgs {
                source: Some(FsPath::new("/dev/null")),
                target: path.clone(),
                fstype: None,
                flags: mount_flag(MountFlag::Bind),
                data: None,
            },
        ),
        Step::Tmpfs => {
            let label: String = match mount_label {
                Some(l) => {
                    let mut label: String = "context=\"".to_owned();
                    label.append(l.as_str());
                    label.append("\"");
                    label
                },
                None => "".to_owned(),
            };
            Call::Mount(
                MountArgs {
                    source: Some(FsPath::new("tmpfs")),
                    target: path.clone(),
                    fstype: Some("tmpfs".to_owned()),
                    flags: mount_flag(MountFlag::ReadOnly),
                    data: Some(label),
                },
            )
        },
    }
}

/// What follows from the answer to a step: the next step, if there is one, or an error.
pub fn reply<E>(step: Step, outcome: Outcome<E>) -> (next: Result<
    Option<Step>,
    InitProcessError<E>,
>)
    ensures
        result_view(next) == spec_reply(step, outcome),
{
    match outcome {
        Ok(_) => Ok(None),
        Err(err) => match step {
            Step::DevNull if err.is(KnownErrno::NoEntry) => Ok(None),
            Step::DevNull if err.is(KnownErrno::NotDirectory) => Ok(Some(Step::Tmpfs)),
            _ => Err(InitProcessError::MountPathMasked(err)),
        },
    }
}

} // verus!
