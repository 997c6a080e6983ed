//! The numbers of the kernel's interface, as `nix` and `nc` hold them.

use nix::errno::Errno as NixErrno;
use nix::mount::{MntFlags, MsFlags};
use nix::sched::CloneFlags;
use nix::sys::stat::Mode;
use vstd::prelude::*;

verus! {

/// The mount flags that the init process uses.
#[derive(Debug, Clone, Copy, PartialEq, Eq, Structural)]
pub enum MountFlag {
    ReadOnly,
    NoSuid,
    NoDev,
    NoExec,
    Remount,
    Bind,
    Move,
    Recursive,
}

impl MountFlag {
    /// The bit of `mount(2)` that the flag stands for.
    pub open spec fn bits(self) -> u64 {
        match self {
            MountFlag::ReadOnly => 0x01,
            MountFlag::NoSuid => 0x02,
            MountFlag::NoDev => 0x04,
            MountFlag::NoExec => 0x08,
            MountFlag::Remount => 0x20,
            MountFlag::Bind => 0x1000,
            MountFlag::Move => 0x2000,
            MountFlag::Recursive => 0x4000,
        }
    }
}

/// The bit of a mount flag, from the constants of `nix::mount::MsFlags` and its
/// `bits`: each constant has the value that Linux gives to the flag.
#[verifier::external_body]
pub(crate) fn mount_flag(flag: MountFlag) -> (bits: u64)
    ensures
        bits == flag.bits(),
{
    let flags = match flag {
        MountFlag::ReadOnly => MsFlags::MS_RDONLY,
        MountFlag::NoSuid => MsFlags::MS_NOSUID,
        MountFlag::NoDev => MsFlags::MS_NODEV,
        MountFlag::NoExec => MsFlags::MS_NOEXEC,
        MountFlag::Remount => MsFlags::MS_REMOUNT,
        MountFlag::Bind => MsFlags::MS_BIND,
        MountFlag::Move => MsFlags::MS_MOVE,
        MountFlag::Recursive => MsFlags::MS_REC,
    };
    flags.bits()
}

/// The flag of `umount2(2)` that detaches a mount at once and cleans up when it is no
/// longer busy.
pub open spec fn detach_bits() -> i32 {
    2
}

/// The value of `nix::mount::MntFlags::MNT_DETACH`, through its `bits`.
#[verifier::external_body]
pub(crate) fn detach_flag() -> (bits: i32)
    ensures
        bits == detach_bits(),
{
    MntFlags::MNT_DETACH.bits()
}

/// The namespaces that the init process has entered before it starts.
#[derive(Debug, Clone, Copy, PartialEq, Eq, Structural)]
pub enum EnteredNamespace {
    User,
    Pid,
}

impl EnteredNamespace {
    /// The bit of `clone(2)` that creates such a namespace.
    pub open spec fn bits(self) -> i32 {
        match self {
            EnteredNamespace::User => 0x1000_0000,
            EnteredNamespace::Pid => 0x2000_0000,
        }
    }
}

/// The bit of a namespace, from the constants of `nix::sched::CloneFlags` and its
/// `bits`: each constant has the value that Linux gives to the flag.
#[verifier::external_body]
pub(crate) fn namespace_flag(namespace: EnteredNamespace) -> (bits: i32)
    ensures
        bits == namespace.bits(),
{
    let flags = match namespace {
        EnteredNamespace::User => CloneFlags::CLONE_NEWUSER,
        EnteredNamespace::Pid => CloneFlags::CLONE_NEWPID,
    };
    flags.bits()
}

/// The error numbers that the init process tells from all others.
#[derive(Debug, Clone, Copy, PartialEq, Eq, Structural)]
pub enum KnownErrno {
    NotPermitted,
    NoEntry,
    NotDirectory,
    InvalidArgument,
}

impl KnownErrno {
    /// The number that Linux gives to the error.
    pub open spec fn code(self) -> i32 {
        match self {
            KnownErrno::NotPermitted => 1,
            KnownErrno::NoEntry => 2,
            KnownErrno::NotDirectory => 20,
            KnownErrno::InvalidArgument => 22,
        }
    }
}

/// The number of an error, from the variants of `nix::errno::Errno`: the discriminant
/// of each is the number that Linux gives to the error.
#[verifier::external_body]
pub(crate) fn errno_code(known: KnownErrno) -> (code: i32)
    ensures
        code == known.code(),
{
    let errno = match known {
        KnownErrno::NotPermitted => NixErrno::EPERM,
        KnownErrno::NoEntry => NixErrno::ENOENT,
        KnownErrno::NotDirectory => NixErrno::ENOTDIR,
        KnownErrno::InvalidArgument => NixErrno::EINVAL,
    };
    errno as i32
}

/// The bits of a file mode: read, write and execute for owner, group and other, and
/// the set-user-id, set-group-id and sticky bits.
pub open spec fn mode_bits() -> u32 {
    0o7777
}

/// Reads a number as a file mode, with `nix::sys::stat::Mode::from_bits`: the number
/// itself where it has no other bit than those of a file mode, else nothing.
#[verifier::external_body]
pub(crate) fn mode_from_bits(bits: u32) -> (mode: Option<u32>)
    ensures
        mode == (if bits & !mode_bits() == 0 {
            Some(bits)
        } else {
            None
        }),
{
    Mode::from_bits(bits).map(|mode| mode.bits())
}

/// The size of `nc::sched_attr_t`, from `std::mem::size_of`: the structure has the
/// layout of C, in which its five `u32`, its `i32` and its four `u64` leave no gaps.
#[verifier::external_body]
pub(crate) fn sched_attr_size() -> (size: u32)
    ensures
        size == 56,
{
    std::mem::size_of::<nc::sched_attr_t>() as u32
}

} // verus!
