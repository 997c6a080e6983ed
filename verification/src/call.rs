//! What the init process asks of the host, and what the host answers.

use crate::envs::Envs;
use crate::error::{HostError, InitErrorView, InitProcessError};
use crate::path::FsPath;
use crate::scheduler::SchedAttr;
use vstd::prelude::*;

verus! {

/// The arguments of `mount(2)`.
#[derive(Debug, PartialEq, Eq)]
pub struct MountArgs {
    pub source: Option<FsPath>,
    pub target: FsPath,
    pub fstype: Option<String>,
    pub flags: u64,
    pub data: Option<String>,
}

/// The arguments of `mount(2)`, with paths and texts as sequences.
pub struct MountView {
    pub source: Option<Seq<u8>>,
    pub target: Seq<u8>,
    pub fstype: Option<Seq<char>>,
    pub flags: u64,
    pub data: Option<Seq<char>>,
}

pub open spec fn path_option(path: Option<FsPath>) -> Option<Seq<u8>> {
    match path {
        Some(path) => Some(path@),
        None => None,
    }
}

pub open spec fn text_option(text: Option<String>) -> Option<Seq<char>> {
    match text {
        Some(text) => Some(text@),
        None => None,
    }
}

impl View for MountArgs {
    type V = MountView;

    open spec fn view(&self) -> MountView {
        MountView {
            source: path_option(self.source),
            target: self.target@,
            fstype: text_option(self.fstype),
            flags: self.flags,
            data: text_option(self.data),
        }
    }
}

/// The kinds of namespaces that the init process asks about.
#[derive(Debug, Clone, Copy, PartialEq, Eq, Structural)]
pub enum NamespaceType {
    Uts,
    User,
    Cgroup,
    Mount,
}

/// Which namespaces are to be entered: all but some, given by their bits of `clone(2)`.
#[derive(Debug, PartialEq, Eq)]
pub struct NamespaceFilter {
    pub left_out: Vec<i32>,
}

impl View for NamespaceFilter {
    type V = Seq<i32>;

    open spec fn view(&self) -> Seq<i32> {
        self.left_out@
    }
}

impl NamespaceFilter {
    /// Whether a namespace, given by its bit of `clone(2)`, is to be entered.
    pub fn passes(&self, bits: i32) -> (b: bool)
        ensures
            b == !self@.contains(bits),
    {
        let mut i: usize = 0;
        while i < self.left_out.len()
            invariant
                i <= self.left_out@.len(),
                forall|j: int| 0 <= j < i ==> self.left_out@[j] != bits,
            decreases self.left_out@.len() - i,
        {
            if self.left_out[i] == bits {
                return false;
            }
            i += 1;
        }
        true
    }
}

/// When hooks run.
#[derive(Debug, Clone, Copy, PartialEq, Eq, Structural)]
pub enum HookPoint {
    CreateContainer,
    StartContainer,
}

/// A call that the host makes for the init process.
#[derive(Debug, PartialEq, Eq)]
pub enum Call {
    SetSid,
    SetIoPriority { class: i64, priority: i64 },
    /// The arguments of `sched_setattr(2)`, in which the process 0 is the caller.
    SchedSetattr { pid: i32, attr: SchedAttr, call_flags: u32 },
    SetupConsole(i32),
    Dup2 { from: i32, to: i32 },
    Close(i32),
    /// Enter those of the container's namespaces that pass the filter.
    ApplyNamespaces(NamespaceFilter),
    /// Look up the container's namespace of a type.
    GetNamespace(NamespaceType),
    SetHostname(String),
    SetDomainname(String),
    SetNoNewPrivileges,
    RunHooks(HookPoint),
    IsInNewUserns,
    PrepareRootfs { bind_service: bool, cgroup_ns: bool },
    Chdir(FsPath),
    Mount(MountArgs),
    Umount2 { target: FsPath, flags: i32 },
    PivotRootfs(FsPath),
    Chroot(FsPath),
    AdjustRootMountPropagation,
    Open(FsPath),
    Fstat(i32),
    WriteFile { path: FsPath, contents: Vec<u8> },
    ApplyProfile(String),
    Umask(u32),
    ReadToString(FsPath),
    SetGroups(Vec<u32>),
    SetId { uid: u32, gid: u32 },
    ReadVariable(String),
    CloseRange(i32),
    InitializeSeccomp,
    SeccompNotifyRequest(i32),
    WaitForSeccompRequestDone,
    ResetEffective,
    DropPrivileges,
    GetCwd,
    GetUserHome(u32),
    Validate,
    SetupEnvs(Envs),
    InitReady,
    CloseMainSender,
    WaitForContainerStart,
    CloseNotifyListener,
    Exec,
}

/// A call with paths, texts and lists as sequences, and the environment as a map.
pub enum CallView {
    SetSid,
    SetIoPriority { class: i64, priority: i64 },
    SchedSetattr { pid: i32, attr: SchedAttr, call_flags: u32 },
    SetupConsole(i32),
    Dup2 { from: i32, to: i32 },
    Close(i32),
    ApplyNamespaces { left_out: Seq<i32> },
    GetNamespace(NamespaceType),
    SetHostname(Seq<char>),
    SetDomainname(Seq<char>),
    SetNoNewPrivileges,
    RunHooks(HookPoint),
    IsInNewUserns,
    PrepareRootfs { bind_service: bool, cgroup_ns: bool },
    Chdir(Seq<u8>),
    Mount(MountView),
    Umount2 { target: Seq<u8>, flags: i32 },
    PivotRootfs(Seq<u8>),
    Chroot(Seq<u8>),
    AdjustRootMountPropagation,
    Open(Seq<u8>),
    Fstat(i32),
    WriteFile { path: Seq<u8>, contents: Seq<u8> },
    ApplyProfile(Seq<char>),
    Umask(u32),
    ReadToString(Seq<u8>),
    SetGroups(Seq<u32>),
    SetId { uid: u32, gid: u32 },
    ReadVariable(Seq<char>),
    CloseRange(i32),
    InitializeSeccomp,
    SeccompNotifyRequest(i32),
    WaitForSeccompRequestDone,
    ResetEffective,
    DropPrivileges,
    GetCwd,
    GetUserHome(u32),
    Validate,
    SetupEnvs(Map<Seq<char>, Seq<char>>),
    InitReady,
    CloseMainSender,
    WaitForContainerStart,
    CloseNotifyListener,
    Exec,
}

impl View for Call {
    type V = CallView;

    open spec fn view(&self) -> CallView {
        match *self {
            Call::SetSid => CallView::SetSid,
            Call::SetIoPriority { class, priority } => CallView::SetIoPriority { class, priority },
            Call::SchedSetattr { pid, attr, call_flags } => CallView::SchedSetattr {
                pid,
                attr,
                call_flags,
            },
            Call::SetupConsole(fd) => CallView::SetupConsole(fd),
            Call::Dup2 { from, to } => CallView::Dup2 { from, to },
            Call::Close(fd) => CallView::Close(fd),
            Call::ApplyNamespaces(filter) => CallView::ApplyNamespaces { left_out: filter@ },
            Call::GetNamespace(namespace) => CallView::GetNamespace(namespace),
            Call::SetHostname(name) => CallView::SetHostname(name@),
            Call::SetDomainname(name) => CallView::SetDomainname(name@),
            Call::SetNoNewPrivileges => CallView::SetNoNewPrivileges,
            Call::RunHooks(point) => CallView::RunHooks(point),
            Call::IsInNewUserns => CallView::IsInNewUserns,
            Call::PrepareRootfs { bind_service, cgroup_ns } => CallView::PrepareRootfs {
                bind_service,
                cgroup_ns,
            },
            Call::Chdir(path) => CallView::Chdir(path@),
            Call::Mount(args) => CallView::Mount(args@),
            Call::Umount2 { target, flags } => CallView::Umount2 { target: target@, flags },
            Call::PivotRootfs(path) => CallView::PivotRootfs(path@),
            Call::Chroot(path) => CallView::Chroot(path@),
            Call::AdjustRootMountPropagation => CallView::AdjustRootMountPropagation,
            Call::Open(path) => CallView::Open(path@),
            Call::Fstat(fd) => CallView::Fstat(fd),
            Call::WriteFile { path, contents } => CallView::WriteFile {
                path: path@,
                contents: contents@,
            },
            Call::ApplyProfile(profile) => CallView::ApplyProfile(profile@),
            Call::Umask(mode) => CallView::Umask(mode),
            Call::ReadToString(path) => CallView::ReadToString(path@),
            Call::SetGroups(gids) => CallView::SetGroups(gids@),
            Call::SetId { uid, gid } => CallView::SetId { uid, gid },
            Call::ReadVariable(name) => CallView::ReadVariable(name@),
            Call::CloseRange(preserve_fds) => CallView::CloseRange(preserve_fds),
            Call::InitializeSeccomp => CallView::InitializeSeccomp,
            Call::SeccompNotifyRequest(fd) => CallView::SeccompNotifyRequest(fd),
            Call::WaitForSeccompRequestDone => CallView::WaitForSeccompRequestDone,
            Call::ResetEffective => CallView::ResetEffective,
            Call::DropPrivileges => CallView::DropPrivileges,
            Call::GetCwd => CallView::GetCwd,
            Call::GetUserHome(uid) => CallView::GetUserHome(uid),
            Call::Validate => CallView::Validate,
            Call::SetupEnvs(envs) => CallView::SetupEnvs(envs@),
            Call::InitReady => CallView::InitReady,
            Call::CloseMainSender => CallView::CloseMainSender,
            Call::WaitForContainerStart => CallView::WaitForContainerStart,
            Call::CloseNotifyListener => CallView::CloseNotifyListener,
            Call::Exec => CallView::Exec,
        }
    }
}

/// A namespace of the container.
#[derive(Debug, PartialEq, Eq)]
pub struct Namespace {
    /// The namespace to join, where it is not a new one.
    pub path: Option<FsPath>,
}

/// An environment variable of the init process itself.
#[derive(Debug, PartialEq, Eq)]
pub enum Variable {
    Present(String),
    NotPresent,
    NotUnicode,
}

/// How a call without a result went.
pub type Outcome<E> = Result<(), HostError<E>>;

/// What the host answers to a call.
#[derive(Debug, PartialEq, Eq)]
pub enum Reply<E> {
    Outcome(Outcome<E>),
    /// To `Call::GetNamespace`.
    Namespace(Result<Option<Namespace>, HostError<E>>),
    /// To `Call::IsInNewUserns`.
    Userns(Result<bool, HostError<E>>),
    /// To `Call::Open`.
    Descriptor(Result<i32, HostError<E>>),
    /// To `Call::Fstat`: the device that the descriptor stands for.
    Device(Result<u64, HostError<E>>),
    /// To `Call::ReadToString`.
    Contents(Result<String, HostError<E>>),
    /// To `Call::ReadVariable`.
    Variable(Variable),
    /// To `Call::GetCwd`.
    Directory(Result<FsPath, HostError<E>>),
    /// To `Call::GetUserHome`.
    Home(Option<FsPath>),
    /// To `Call::InitializeSeccomp`: the descriptor to hand on, if there is one.
    Notify(Result<Option<i32>, HostError<E>>),
}

/// The kinds of answers.
#[derive(Debug, Clone, Copy, PartialEq, Eq, Structural)]
pub enum ReplyKind {
    Outcome,
    Namespace,
    Userns,
    Descriptor,
    Device,
    Contents,
    Variable,
    Directory,
    Home,
    Notify,
}

impl<E> Reply<E> {
    /// The kind of the answer.
    pub open spec fn spec_kind(self) -> ReplyKind {
        match self {
            Reply::Outcome(_) => ReplyKind::Outcome,
            Reply::Namespace(_) => ReplyKind::Namespace,
            Reply::Userns(_) => ReplyKind::Userns,
            Reply::Descriptor(_) => ReplyKind::Descriptor,
            Reply::Device(_) => ReplyKind::Device,
            Reply::Contents(_) => ReplyKind::Contents,
            Reply::Variable(_) => ReplyKind::Variable,
            Reply::Directory(_) => ReplyKind::Directory,
            Reply::Home(_) => ReplyKind::Home,
            Reply::Notify(_) => ReplyKind::Notify,
        }
    }

    /// The kind of the answer.
    pub fn kind(&self) -> (kind: ReplyKind)
        ensures
            kind == self.spec_kind(),
    {
        match self {
            Reply::Outcome(_) => ReplyKind::Outcome,
            Reply::Namespace(_) => ReplyKind::Namespace,
            Reply::Userns(_) => ReplyKind::Userns,
            Reply::Descriptor(_) => ReplyKind::Descriptor,
            Reply::Device(_) => ReplyKind::Device,
            Reply::Contents(_) => ReplyKind::Contents,
            Reply::Variable(_) => ReplyKind::Variable,
            Reply::Directory(_) => ReplyKind::Directory,
            Reply::Home(_) => ReplyKind::Home,
            Reply::Notify(_) => ReplyKind::Notify,
        }
    }
}

impl CallView {
    /// The kind of answer that a call gets.
    pub open spec fn answer(self) -> ReplyKind {
        match self {
            CallView::GetNamespace(_) => ReplyKind::Namespace,
            CallView::IsInNewUserns => ReplyKind::Userns,
            CallView::Open(_) => ReplyKind::Descriptor,
            CallView::Fstat(_) => ReplyKind::Device,
            CallView::ReadToString(_) => ReplyKind::Contents,
            CallView::ReadVariable(_) => ReplyKind::Variable,
            CallView::GetCwd => ReplyKind::Directory,
            CallView::GetUserHome(_) => ReplyKind::Home,
            CallView::InitializeSeccomp => ReplyKind::Notify,
            _ => ReplyKind::Outcome,
        }
    }
}

/// A result with the texts of its error as sequences of characters.
pub open spec fn result_view<T, E>(result: Result<T, InitProcessError<E>>) -> Result<
    T,
    InitErrorView<E>,
> {
    match result {
        Ok(value) => Ok(value),
        Err(err) => Err(err@),
    }
}

/// Specifications see a mount as it is.
pub proof fn law_mounts_are_seen_as_they_are(args: MountArgs)
    ensures
        args@.target == args.target.bytes@,
        args@.flags == args.flags,
        args.source is None <==> args@.source is None,
        args.source matches Some(path) ==> args@.source == Some(path.bytes@),
        args.fstype is None <==> args@.fstype is None,
        args.fstype matches Some(text) ==> args@.fstype == Some(text@),
        args.data is None <==> args@.data is None,
        args.data matches Some(text) ==> args@.data == Some(text@),
{
}

/// Specifications see a text or an error as it is.
pub proof fn law_results_are_seen_as_they_are<T, E>(
    value: T,
    err: InitProcessError<E>,
    text: Option<String>,
)
    ensures
        result_view(Ok::<T, InitProcessError<E>>(value)) == Ok::<T, InitErrorView<E>>(value),
        result_view(Err::<T, InitProcessError<E>>(err)) == Err::<T, InitErrorView<E>>(err@),
        text is None ==> text_option(text) is None,
        text matches Some(text) ==> text_option(Some(text)) == Some(text@),
{
}

/// Specifications see the numbers of a call as they are.
pub proof fn law_numbers_of_calls_are_seen_as_they_are(
    a: i32,
    b: i32,
    u: u32,
    v: u32,
    w: i64,
    x: i64,
)
    ensures
        (Call::SetIoPriority { class: w, priority: x })@ == (CallView::SetIoPriority {
            class: w,
            priority: x,
        }),
        Call::SetupConsole(a)@ == CallView::SetupConsole(a),
        (Call::Dup2 { from: a, to: b })@ == (CallView::Dup2 { from: a, to: b }),
        Call::Close(a)@ == CallView::Close(a),
        Call::Fstat(a)@ == CallView::Fstat(a),
        Call::Umask(u)@ == CallView::Umask(u),
        (Call::SetId { uid: u, gid: v })@ == (CallView::SetId { uid: u, gid: v }),
        Call::CloseRange(a)@ == CallView::CloseRange(a),
        Call::SeccompNotifyRequest(a)@ == CallView::SeccompNotifyRequest(a),
        Call::GetUserHome(u)@ == CallView::GetUserHome(u),
{
}

/// Specifications see the choices of a call as they are.
pub proof fn law_choices_of_calls_are_seen_as_they_are(
    namespace: NamespaceType,
    point: HookPoint,
    bind_service: bool,
    cgroup_ns: bool,
    pid: i32,
    attr: SchedAttr,
    call_flags: u32,
)
    ensures
        Call::GetNamespace(namespace)@ == CallView::GetNamespace(namespace),
        Call::RunHooks(point)@ == CallView::RunHooks(point),
        (Call::PrepareRootfs { bind_service, cgroup_ns })@ == (CallView::PrepareRootfs {
            bind_service,
            cgroup_ns,
        }),
        (Call::SchedSetattr { pid, attr, call_flags })@ == (CallView::SchedSetattr {
            pid,
            attr,
            call_flags,
        }),
{
}

/// Specifications see the paths, texts and lists of a call as they are.
pub proof fn law_contents_of_calls_are_seen_as_they_are(
    path: FsPath,
    text: String,
    bytes: Vec<u8>,
    gids: Vec<u32>,
    envs: Envs,
    filter: NamespaceFilter,
    args: MountArgs,
    flags: i32,
)
    ensures
        Call::ApplyNamespaces(filter)@ == (CallView::ApplyNamespaces {
            left_out: filter.left_out@,
        }),
        Call::SetHostname(text)@ == CallView::SetHostname(text@),
        Call::SetDomainname(text)@ == CallView::SetDomainname(text@),
        Call::Chdir(path)@ == CallView::Chdir(path.bytes@),
        Call::Mount(args)@ == CallView::Mount(args@),
        (Call::Umount2 { target: path, flags })@ == (CallView::Umount2 {
            target: path.bytes@,
            flags,
        }),
        Call::PivotRootfs(path)@ == CallView::PivotRootfs(path.bytes@),
        Call::Chroot(path)@ == CallView::Chroot(path.bytes@),
        Call::Open(path)@ == CallView::Open(path.bytes@),
        (Call::WriteFile { path, contents: bytes })@ == (CallView::WriteFile {
            path: path.bytes@,
            contents: bytes@,
        }),
        Call::ApplyProfile(text)@ == CallView::ApplyProfile(text@),
        Call::ReadToString(path)@ == CallView::ReadToString(path.bytes@),
        Call::SetGroups(gids)@ == CallView::SetGroups(gids@),
        Call::ReadVariable(text)@ == CallView::ReadVariable(text@),
        Call::SetupEnvs(envs)@ == CallView::SetupEnvs(envs@),
{
}

/// Specifications see a call that holds nothing as that call.
pub proof fn law_bare_calls_are_seen_as_they_are(call: Call)
    ensures
        call is SetSid <==> call@ is SetSid,
        call is SetNoNewPrivileges <==> call@ is SetNoNewPrivileges,
        call is IsInNewUserns <==> call@ is IsInNewUserns,
        call is AdjustRootMountPropagation <==> call@ is AdjustRootMountPropagation,
        call is InitializeSeccomp <==> call@ is InitializeSeccomp,
        call is WaitForSeccompRequestDone <==> call@ is WaitForSeccompRequestDone,
        call is ResetEffective <==> call@ is ResetEffective,
        call is DropPrivileges <==> call@ is DropPrivileges,
        call is GetCwd <==> call@ is GetCwd,
        call is Validate <==> call@ is Validate,
        call is InitReady <==> call@ is InitReady,
        call is CloseMainSender <==> call@ is CloseMainSender,
        call is WaitForContainerStart <==> call@ is WaitForContainerStart,
        call is CloseNotifyListener <==> call@ is CloseNotifyListener,
        call is Exec <==> call@ is Exec,
{
}

} // verus!
