//! Makes sure that the working directory is inside the mount namespace of the process.

use crate::abi::{errno_code, KnownErrno};
use crate::call::result_view;
use crate::error::{Errno, HostError, InitErrorView, InitProcessError};
use crate::path::{absolute, FsPath};
use vstd::prelude::*;

verus! {

/// A directory inside is an absolute path. A directory that has no path, or one that
/// does not start at the root, is not inside.
pub open spec fn spec_verify_cwd<E>(cwd: Result<FsPath, HostError<E>>) -> Result<
    (),
    InitErrorView<E>,
> {
    match cwd {
        Ok(path) => if absolute(path@) {
            Ok(())
        } else {
            Err(
                InitProcessError::InvalidCwd(
                    HostError::Nix(Errno { code: KnownErrno::NoEntry.code() }),
                ),
            )
        },
        Err(err) => if err.is_errno(KnownErrno::NoEntry) {
            Err(InitProcessError::InvalidCwd(err))
        } else {
            Err(InitProcessError::NixOther(err))
        },
    }
}

/// Judges the answer to the question for the working directory.
pub fn verify_cwd<E>(cwd: Result<FsPath, HostError<E>>) -> (verdict: Result<
    (),
    InitProcessError<E>,
>)
    ensures
        result_view(verdict) == spec_verify_cwd(cwd),
{
    match cwd {
        Ok(path) => if path.is_absolute() {
            Ok(())
        } else {
            let code: i32 = errno_code(KnownErrno::NoEntry);
            Err(InitProcessError::InvalidCwd(HostError::Nix(Errno { code })))
        },
        Err(err) => if err.is(KnownErrno::NoEntry) {
            Err(InitProcessError::InvalidCwd(err))
        } else {
            Err(InitProcessError::NixOther(err))
        },
    }
}

} // verus!
