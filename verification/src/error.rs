//! What can go wrong in the init process.

use crate::abi::{errno_code, KnownErrno};
use vstd::prelude::*;

verus! {

/// An error number of the kernel.
#[derive(Debug, Clone, Copy, PartialEq, Eq, Structural)]
pub struct Errno {
    pub code: i32,
}

/// Why a call failed: with an error number, or with an error of another kind.
#[derive(Debug, PartialEq, Eq)]
pub enum HostError<E> {
    Nix(Errno),
    Other(E),
}

impl<E> HostError<E> {
    /// Whether the call failed with this error number.
    pub open spec fn is_errno(self, known: KnownErrno) -> bool {
        self matches HostError::Nix(errno) && errno.code == known.code()
    }

    /// Whether the call failed with this error number.
    pub fn is(&self, known: KnownErrno) -> (b: bool)
        ensures
            b == self.is_errno(known),
    {
        match self {
            HostError::Nix(errno) => errno.code == errno_code(known),
            HostError::Other(_) => false,
        }
    }
}

/// A part of the container's configuration that has to be there.
#[derive(Debug, Clone, Copy, PartialEq, Eq, Structural)]
pub enum MissingSpecError {
    Args,
}

/// Why the init process gave up. An error of a call is kept as it was reported; `T` is
/// the type of the texts, which stand as sequences of characters in specifications.
#[derive(Debug, PartialEq, Eq)]
pub enum InitProcessError<E, T = String> {
    /// A call that goes straight to the kernel.
    NixOther(HostError<E>),
    /// A call through the layer of system calls.
    SyscallOther(HostError<E>),
    Io(HostError<E>),
    Tty(HostError<E>),
    Namespaces(HostError<E>),
    SetHostname(HostError<E>),
    SetDomainname(HostError<E>),
    Hooks(HostError<E>),
    RootFS(HostError<E>),
    ReopenDevNull(HostError<E>),
    Sysctl(HostError<E>),
    AppArmor(HostError<E>),
    MountPathReadonly(HostError<E>),
    MountPathMasked(HostError<E>),
    InvalidUmask(u32),
    /// The kernel does not let this process set its supplementary groups.
    SetGroupDisabled,
    IoPriorityClass(T),
    SchedSetattr(T),
    Seccomp(HostError<E>),
    Channel(HostError<E>),
    /// The working directory is not inside the container.
    InvalidCwd(HostError<E>),
    WorkloadValidation(HostError<E>),
    WorkloadSetEnvs(HostError<E>),
    NotifyListener(HostError<E>),
    MissingSpec(MissingSpecError),
    Workload(HostError<E>),
}

/// An error with its texts as sequences of characters.
pub type InitErrorView<E> = InitProcessError<E, Seq<char>>;

impl<E> View for InitProcessError<E, String> {
    type V = InitProcessError<E, Seq<char>>;

    open spec fn view(&self) -> InitProcessError<E, Seq<char>> {
        match *self {
            InitProcessError::NixOther(e) => InitProcessError::NixOther(e),
            InitProcessError::SyscallOther(e) => InitProcessError::SyscallOther(e),
            InitProcessError::Io(e) => InitProcessError::Io(e),
            InitProcessError::Tty(e) => InitProcessError::Tty(e),
            InitProcessError::Namespaces(e) => InitProcessError::Namespaces(e),
            InitProcessError::SetHostname(e) => InitProcessError::SetHostname(e),
            InitProcessError::SetDomainname(e) => InitProcessError::SetDomainname(e),
            InitProcessError::Hooks(e) => InitProcessError::Hooks(e),
            InitProcessError::RootFS(e) => InitProcessError::RootFS(e),
            InitProcessError::ReopenDevNull(e) => InitProcessError::ReopenDevNull(e),
            InitProcessError::Sysctl(e) => InitProcessError::Sysctl(e),
            InitProcessError::AppArmor(e) => InitProcessError::AppArmor(e),
            InitProcessError::MountPathReadonly(e) => InitProcessError::MountPathReadonly(e),
            InitProcessError::MountPathMasked(e) => InitProcessError::MountPathMasked(e),
            InitProcessError::InvalidUmask(bits) => InitProcessError::InvalidUmask(bits),
            InitProcessError::SetGroupDisabled => InitProcessError::SetGroupDisabled,
            InitProcessError::IoPriorityClass(text) => InitProcessError::IoPriorityClass(text@),
            InitProcessError::SchedSetattr(text) => InitProcessError::SchedSetattr(text@),
            InitProcessError::Seccomp(e) => InitProcessError::Seccomp(e),
            InitProcessError::Channel(e) => InitProcessError::Channel(e),
            InitProcessError::InvalidCwd(e) => InitProcessError::InvalidCwd(e),
            InitProcessError::WorkloadValidation(e) => InitProcessError::WorkloadValidation(e),
            InitProcessError::WorkloadSetEnvs(e) => InitProcessError::WorkloadSetEnvs(e),
            InitProcessError::NotifyListener(e) => InitProcessError::NotifyListener(e),
            InitProcessError::MissingSpec(e) => InitProcessError::MissingSpec(e),
            InitProcessError::Workload(e) => InitProcessError::Workload(e),
        }
    }
}

/// An error is told from others by its number alone.
pub proof fn law_errors_are_told_by_number<E>(err: HostError<E>)
    ensures
        err.is_errno(KnownErrno::NotPermitted) <==> err == HostError::<E>::Nix(Errno { code: 1 }),
        err.is_errno(KnownErrno::NoEntry) <==> err == HostError::<E>::Nix(Errno { code: 2 }),
        err.is_errno(KnownErrno::NotDirectory) <==> err == HostError::<E>::Nix(Errno { code: 20 }),
        err.is_errno(KnownErrno::InvalidArgument) <==> err == HostError::<E>::Nix(
            Errno { code: 22 },
        ),
{
}

/// Specifications see what an error holds as it is.
pub proof fn law_errors_are_seen_as_they_are<E>(
    e: HostError<E>,
    bits: u32,
    text: String,
    part: MissingSpecError,
)
    ensures
        InitProcessError::<E>::NixOther(e)@ == InitErrorView::<E>::NixOther(e),
        InitProcessError::<E>::SyscallOther(e)@ == InitErrorView::<E>::SyscallOther(e),
        InitProcessError::<E>::Io(e)@ == InitErrorView::<E>::Io(e),
        InitProcessError::<E>::Tty(e)@ == InitErrorView::<E>::Tty(e),
        InitProcessError::<E>::Namespaces(e)@ == InitErrorView::<E>::Namespaces(e),
        InitProcessError::<E>::SetHostname(e)@ == InitErrorView::<E>::SetHostname(e),
        InitProcessError::<E>::SetDomainname(e)@ == InitErrorView::<E>::SetDomainname(e),
        InitProcessError::<E>::Hooks(e)@ == InitErrorView::<E>::Hooks(e),
        InitProcessError::<E>::RootFS(e)@ == InitErrorView::<E>::RootFS(e),
        InitProcessError::<E>::ReopenDevNull(e)@ == InitErrorView::<E>::ReopenDevNull(e),
        InitProcessError::<E>::Sysctl(e)@ == InitErrorView::<E>::Sysctl(e),
        InitProcessError::<E>::AppArmor(e)@ == InitErrorView::<E>::AppArmor(e),
        InitProcessError::<E>::MountPathReadonly(e)@ == InitErrorView::<E>::MountPathReadonly(e),
        InitProcessError::<E>::MountPathMasked(e)@ == InitErrorView::<E>::MountPathMasked(e),
        InitProcessError::<E>::InvalidUmask(bits)@ == InitErrorView::<E>::InvalidUmask(bits),
        InitProcessError::<E>::SetGroupDisabled@ == InitErrorView::<E>::SetGroupDisabled,
        InitProcessError::<E>::IoPriorityClass(text)@ == InitErrorView::<E>::IoPriorityClass(text@),
        InitProcessError::<E>::SchedSetattr(text)@ == InitErrorView::<E>::SchedSetattr(text@),
        InitProcessError::<E>::Seccomp(e)@ == InitErrorView::<E>::Seccomp(e),
        InitProcessError::<E>::Channel(e)@ == InitErrorView::<E>::Channel(e),
        InitProcessError::<E>::InvalidCwd(e)@ == InitErrorView::<E>::InvalidCwd(e),
        InitProcessError::<E>::WorkloadValidation(e)@ == InitErrorView::<E>::WorkloadValidation(e),
        InitProcessError::<E>::WorkloadSetEnvs(e)@ == InitErrorView::<E>::WorkloadSetEnvs(e),
        InitProcessError::<E>::NotifyListener(e)@ == InitErrorView::<E>::NotifyListener(e),
        InitProcessError::<E>::MissingSpec(part)@ == InitErrorView::<E>::MissingSpec(part),
        InitProcessError::<E>::Workload(e)@ == InitErrorView::<E>::Workload(e),
{
}

} // verus!
