//! How the procedures of the init process go on from the answers, and what they ask for.

use crate::asked::{asked, executing, law_calls_have_their_stages, lemma_asked, lemma_executing};
use crate::call::{CallView, MountView, NamespaceType, Reply, Variable};
use crate::causes::law_procedures_are_not_interrupted;
use crate::context::InitContext;
use crate::coverage::law_all_that_is_called_for;
use crate::error::InitErrorView;
use crate::files::{failed_with, lemma_answer_kind, lemma_went_on, succeeded};
use crate::laws::{accounted, lemma_accounted_step, lemma_contains, lemma_not_failed_before};
use crate::order::{before, law_stages_in_order};
use crate::plan::spec_tail;
use crate::procedures::{
    apply_rest_namespaces, do_pivot_root, masked_path, move_root, prepare_rootfs, readonly_path,
    reopen_dev_null, set_supplementary_gids, sync_seccomp, unmount_or_hide,
};
use crate::run::{
    lemma_run_well_formed, lemma_trace_len, lemma_trace_prefix, run, trace, valid_run,
};
use crate::stage::{spec_accepts, spec_answer, spec_respond, valid, Stage};
use crate::stages::{all, group_all};
use crate::text::i32_value;
use vstd::prelude::*;
use vstd::utf8::encode_utf8;

verus! {

/// The root file system is prepared for the namespaces that the container has: it is told of
/// a cgroup namespace if and only if there is one, and to bind devices if and only if there
/// is a user namespace or the process is in one already.
pub proof fn law_rootfs_is_prepared_for_its_namespaces<E>(
    ctx: InitContext,
    replies: Seq<Reply<E>>,
    j: int,
    bind_service: bool,
    cgroup_ns: bool,
)
    requires
        valid_run(ctx, replies),
        0 <= j < replies.len(),
        asked(ctx, replies, j) == (CallView::PrepareRootfs { bind_service, cgroup_ns }),
    ensures
        j >= 3,
        asked(ctx, replies, j - 3) == CallView::IsInNewUserns,
        asked(ctx, replies, j - 2) == CallView::GetNamespace(NamespaceType::User),
        asked(ctx, replies, j - 1) == CallView::GetNamespace(NamespaceType::Cgroup),
        cgroup_ns <==> (replies[j - 1] matches Reply::Namespace(Ok(Some(_)))),
        bind_service <==> (replies[j - 3] matches Reply::Userns(Ok(true))) || (replies[j
            - 2] matches Reply::Namespace(Ok(Some(_)))),
{
    lemma_asked(ctx, replies, j);
    law_calls_have_their_stages(ctx, replies, j);
    law_procedures_are_not_interrupted(ctx, replies, j);
    law_procedures_are_not_interrupted(ctx, replies, j - 1);
    law_procedures_are_not_interrupted(ctx, replies, j - 2);
    lemma_asked(ctx, replies, j - 1);
    lemma_asked(ctx, replies, j - 2);
    lemma_asked(ctx, replies, j - 3);
}

/// The names and the profile that are asked for are those of the configuration.
#[verifier::rlimit(50)]
pub proof fn law_identity_is_as_configured<E>(ctx: InitContext, replies: Seq<Reply<E>>, j: int)
    requires
        valid_run(ctx, replies),
        0 <= j < replies.len(),
    ensures
        asked(ctx, replies, j) matches CallView::SetHostname(name) ==> ctx.hostname is Some && name
            == ctx.hostname->0@,
        asked(ctx, replies, j) matches CallView::SetDomainname(name) ==> ctx.domainname is Some
            && name == ctx.domainname->0@,
        asked(ctx, replies, j) matches CallView::ApplyProfile(profile) ==> {
            &&& ctx.process.apparmor_profile is Some
            &&& profile == ctx.process.apparmor_profile->0@
        },
{
    lemma_asked(ctx, replies, j);
}

/// All namespaces but the user and the pid namespace are to be entered.
pub proof fn law_other_namespaces_are_entered<E>(
    ctx: InitContext,
    replies: Seq<Reply<E>>,
    j: int,
    left_out: Seq<i32>,
    bits: i32,
)
    requires
        valid_run(ctx, replies),
        0 <= j < replies.len(),
        asked(ctx, replies, j) == (CallView::ApplyNamespaces { left_out }),
    ensures
        left_out.contains(bits) <==> bits == 0x1000_0000 || bits == 0x2000_0000,
{
    lemma_asked(ctx, replies, j);
    law_calls_have_their_stages(ctx, replies, j);
    apply_rest_namespaces::law_rest_namespaces_pass(bits);
}

/// A mount without a source and with a file system of its own.
pub open spec fn hides(call: CallView, target: Seq<char>) -> bool {
    call == CallView::Mount(
        MountView {
            source: None,
            target: encode_utf8(target),
            fstype: Some("tmpfs"@),
            flags: 0x01,
            data: Some("size=0k"@),
        },
    )
}

/// The calls that enter the root are about the root file system of the configuration.
pub proof fn law_root_calls<E>(ctx: InitContext, replies: Seq<Reply<E>>, j: int)
    requires
        valid_run(ctx, replies),
        0 <= j < replies.len(),
    ensures
        trace(ctx, replies)[j] matches Stage::PivotRoot(step) ==> {
            let call = asked(ctx, replies, j);
            match step {
                do_pivot_root::Step::LookUp => call == CallView::GetNamespace(NamespaceType::Mount),
                do_pivot_root::Step::Pivot => call == CallView::PivotRootfs(ctx.rootfs@),
                do_pivot_root::Step::Chroot => call == CallView::Chroot(ctx.rootfs@),
                do_pivot_root::Step::MoveRoot(step) => match step {
                    move_root::Step::EnterRootfs => call == CallView::Chdir(ctx.rootfs@),
                    move_root::Step::Sys(unmount_or_hide::Step::Unmount) => call
                        == (CallView::Umount2 { target: encode_utf8("/sys"@), flags: 2 }),
                    move_root::Step::Sys(unmount_or_hide::Step::Hide) => hides(call, "/sys"@),
                    move_root::Step::Proc(unmount_or_hide::Step::Unmount) => call
                        == (CallView::Umount2 { target: encode_utf8("/proc"@), flags: 2 }),
                    move_root::Step::Proc(unmount_or_hide::Step::Hide) => hides(call, "/proc"@),
                    move_root::Step::MoveMount => call == CallView::Mount(
                        MountView {
                            source: Some(ctx.rootfs@),
                            target: encode_utf8("/"@),
                            fstype: None,
                            flags: 0x2000,
                            data: None,
                        },
                    ),
                    move_root::Step::Chroot => call == CallView::Chroot(encode_utf8("."@)),
                    move_root::Step::EnterRoot => call == CallView::Chdir(encode_utf8("/"@)),
                },
            }
        },
        trace(ctx, replies)[j] is Chdir || trace(ctx, replies)[j] is ChdirAgain ==> asked(
            ctx,
            replies,
            j,
        ) == CallView::Chdir(ctx.process.cwd@),
        trace(ctx, replies)[j] is ReadonlyRoot ==> (asked(ctx, replies, j) matches CallView::Mount(
            mount,
        ) && mount.target == encode_utf8("/"@)),
{
    lemma_asked(ctx, replies, j);
}

/// The calls about descriptors are about those that the configuration gives, or that were
/// opened.
pub proof fn law_descriptor_calls<E>(ctx: InitContext, replies: Seq<Reply<E>>, j: int)
    requires
        valid_run(ctx, replies),
        0 <= j < replies.len(),
    ensures
        match trace(ctx, replies)[j] {
            Stage::Console(fd) => asked(ctx, replies, j) == CallView::SetupConsole(fd),
            Stage::StdioDup { from, to } => asked(ctx, replies, j) == (CallView::Dup2 { from, to }),
            Stage::StdioClose(fd) => asked(ctx, replies, j) == CallView::Close(fd),
            Stage::DevNull(step) => asked(ctx, replies, j) == match step {
                reopen_dev_null::Step::Open => CallView::Open(encode_utf8("/dev/null"@)),
                reopen_dev_null::Step::StatDevNull { dev } => CallView::Fstat(dev),
                reopen_dev_null::Step::StatStdio { fd, .. } => CallView::Fstat(fd),
                reopen_dev_null::Step::Redirect { dev, fd, .. } => CallView::Dup2 {
                    from: dev,
                    to: fd,
                },
                reopen_dev_null::Step::Release { dev } => CallView::Close(dev),
            },
            Stage::Seccomp(_, step) => asked(ctx, replies, j) == match step {
                sync_seccomp::Step::Initialize => CallView::InitializeSeccomp,
                sync_seccomp::Step::Request { fd } => CallView::SeccompNotifyRequest(fd),
                sync_seccomp::Step::Wait { .. } => CallView::WaitForSeccompRequestDone,
                sync_seccomp::Step::Close { fd } => CallView::Close(fd),
            },
            _ => true,
        },
{
    lemma_asked(ctx, replies, j);
}

/// Whether a call found the container's namespace of a type.
pub open spec fn found<E>(reply: Reply<E>) -> bool {
    reply matches Reply::Namespace(Ok(Some(_)))
}

/// Whether a call found a new namespace, which has no path to join.
pub open spec fn found_new<E>(reply: Reply<E>) -> bool {
    reply matches Reply::Namespace(Ok(Some(namespace))) && namespace.path is None
}

/// The stage that follows in a procedure. The host is named before the domain, both where
/// the uts namespace is new; the root is entered by the mount namespace; a mount that can not
/// be undone is hidden, `/sys` before `/proc`; the standard descriptors are looked at one by
/// one, and redirected where they stand for `/dev/null`; what is bound is remounted; what can
/// not be covered is buried; and a descriptor for notifications is handed over.
pub open spec fn leads_to<E>(ctx: InitContext, stage: Stage, reply: Reply<E>) -> Option<Stage> {
    let moves = |step: move_root::Step| Some(
        Stage::PivotRoot(do_pivot_root::Step::MoveRoot(step)),
    );
    let domain = if ctx.domainname is Some {
        Some(Stage::RestNamespaces(apply_rest_namespaces::Step::Domainname))
    } else {
        None
    };
    let looks_at = |dev: i32, rdev: u64, fd: int| if fd < 3 {
        Some(Stage::DevNull(reopen_dev_null::Step::StatStdio { dev, rdev, fd: fd as i32 }))
    } else {
        Some(Stage::DevNull(reopen_dev_null::Step::Release { dev }))
    };
    match stage {
        Stage::RestNamespaces(apply_rest_namespaces::Step::Apply) => Some(
            Stage::RestNamespaces(apply_rest_namespaces::Step::LookUpUts),
        ),
        Stage::RestNamespaces(apply_rest_namespaces::Step::LookUpUts) => if !found_new(reply) {
            None
        } else if ctx.hostname is Some {
            Some(Stage::RestNamespaces(apply_rest_namespaces::Step::Hostname))
        } else {
            domain
        },
        Stage::RestNamespaces(apply_rest_namespaces::Step::Hostname) => domain,
        Stage::PrepareRootfs(prepare_rootfs::Step::Probe) => Some(
            Stage::PrepareRootfs(
                prepare_rootfs::Step::LookUpUser {
                    in_user_ns: reply matches Reply::Userns(Ok(true)),
                },
            ),
        ),
        Stage::PrepareRootfs(prepare_rootfs::Step::LookUpUser { in_user_ns }) => Some(
            Stage::PrepareRootfs(
                prepare_rootfs::Step::LookUpCgroup { bind_service: in_user_ns || found(reply) },
            ),
        ),
        Stage::PrepareRootfs(prepare_rootfs::Step::LookUpCgroup { bind_service }) => Some(
            Stage::PrepareRootfs(
                prepare_rootfs::Step::Prepare { bind_service, cgroup_ns: found(reply) },
            ),
        ),
        Stage::PivotRoot(do_pivot_root::Step::LookUp) => if !found(reply) {
            Some(Stage::PivotRoot(do_pivot_root::Step::Chroot))
        } else if ctx.no_pivot {
            moves(move_root::Step::EnterRootfs)
        } else {
            Some(Stage::PivotRoot(do_pivot_root::Step::Pivot))
        },
        Stage::PivotRoot(do_pivot_root::Step::MoveRoot(step)) => match step {
            move_root::Step::EnterRootfs => moves(
                move_root::Step::Sys(unmount_or_hide::Step::Unmount),
            ),
            move_root::Step::Sys(unmount_or_hide::Step::Unmount) => if succeeded(reply) {
                moves(move_root::Step::Proc(unmount_or_hide::Step::Unmount))
            } else {
                moves(move_root::Step::Sys(unmount_or_hide::Step::Hide))
            },
            move_root::Step::Sys(unmount_or_hide::Step::Hide) => moves(
                move_root::Step::Proc(unmount_or_hide::Step::Unmount),
            ),
            move_root::Step::Proc(unmount_or_hide::Step::Unmount) => if succeeded(reply) {
                moves(move_root::Step::MoveMount)
            } else {
                moves(move_root::Step::Proc(unmount_or_hide::Step::Hide))
            },
            move_root::Step::Proc(unmount_or_hide::Step::Hide) => moves(
                move_root::Step::MoveMount,
            ),
            move_root::Step::MoveMount => moves(move_root::Step::Chroot),
            move_root::Step::Chroot => moves(move_root::Step::EnterRoot),
            move_root::Step::EnterRoot => None,
        },
        Stage::DevNull(reopen_dev_null::Step::Open) => Some(
            Stage::DevNull(
                reopen_dev_null::Step::StatDevNull { dev: reply->Descriptor_0->Ok_0 },
            ),
        ),
        Stage::DevNull(reopen_dev_null::Step::StatDevNull { dev }) => looks_at(
            dev,
            reply->Device_0->Ok_0,
            0,
        ),
        Stage::DevNull(
            reopen_dev_null::Step::StatStdio { dev, rdev, fd },
        ) => if reply->Device_0->Ok_0 == rdev {
            Some(Stage::DevNull(reopen_dev_null::Step::Redirect { dev, rdev, fd }))
        } else {
            looks_at(dev, rdev, fd + 1)
        },
        Stage::DevNull(reopen_dev_null::Step::Redirect { dev, rdev, fd }) => looks_at(
            dev,
            rdev,
            fd + 1,
        ),
        Stage::ReadonlyPath(i, readonly_path::Step::Bind) => if succeeded(reply) {
            Some(Stage::ReadonlyPath(i, readonly_path::Step::Remount))
        } else {
            None
        },
        Stage::MaskedPath(i, masked_path::Step::DevNull) => if failed_with(reply, 20) {
            Some(Stage::MaskedPath(i, masked_path::Step::Tmpfs))
        } else {
            None
        },
        Stage::Gids(set_supplementary_gids::Step::ReadSetgroups) => Some(
            Stage::Gids(set_supplementary_gids::Step::SetGroups),
        ),
        Stage::ListenFds => Some(
            Stage::CloseRange(
                match reply {
                    Reply::Variable(Variable::Present(text)) => match i32_value(text@) {
                        Some(number) => (ctx.preserve_fds + number) as i32,
                        None => ctx.preserve_fds,
                    },
                    _ => ctx.preserve_fds,
                },
            ),
        ),
        Stage::Seccomp(timing, sync_seccomp::Step::Initialize) => match reply {
            Reply::Notify(Ok(Some(fd))) => Some(
                Stage::Seccomp(timing, sync_seccomp::Step::Request { fd }),
            ),
            _ => None,
        },
        Stage::Seccomp(timing, sync_seccomp::Step::Request { fd }) => Some(
            Stage::Seccomp(timing, sync_seccomp::Step::Wait { fd }),
        ),
        Stage::Seccomp(timing, sync_seccomp::Step::Wait { fd }) => Some(
            Stage::Seccomp(timing, sync_seccomp::Step::Close { fd }),
        ),
        _ => None,
    }
}

/// Where the process goes on from an answer, its procedures follow their course.
pub proof fn law_procedures_follow_their_course<E>(ctx: InitContext, stage: Stage, reply: Reply<E>)
    requires
        valid(ctx, stage),
        spec_accepts(ctx, stage, reply),
        spec_respond(ctx, stage, reply) is Ok,
        !(stage is Chdir),
    ensures
        spec_respond(ctx, stage, reply)->Ok_0 == match leads_to(ctx, stage, reply) {
            Some(next) => seq![next],
            None => seq![],
        },
{
}

proof fn lemma_tail_tries_again(ctx: InitContext)
    ensures
        spec_tail(ctx, true).contains(Stage::ChdirAgain),
{
    lemma_tail_has_again(ctx);
    lemma_contains(spec_tail(ctx, true), Stage::ChdirAgain);
}

proof fn lemma_tail_has_again(ctx: InitContext)
    ensures
        !all(spec_tail(ctx, true), |other: Stage| other != Stage::ChdirAgain),
{
    broadcast use group_all;

}

/// A refused change to the working directory brings up another try.
proof fn lemma_refused_change<E>(ctx: InitContext, reply: Reply<E>)
    requires
        failed_with(reply, 1),
    ensures
        spec_respond(ctx, Stage::Chdir, reply) == Ok::<_, InitErrorView<E>>(spec_tail(ctx, true)),
{
}

#[verifier::rlimit(50)]
proof fn lemma_tries_again<E>(ctx: InitContext, replies: Seq<Reply<E>>, i: int)
    requires
        valid_run(ctx, replies),
        run(ctx, replies).failure is None,
        0 <= i < replies.len(),
        trace(ctx, replies)[i] is Chdir,
        failed_with(replies[i], 1),
    ensures
        accounted(ctx, replies, Stage::ChdirAgain),
    decreases replies.len(),
{
    let before = replies.drop_last();
    let last = replies.len() - 1;
    lemma_trace_len(ctx, before);
    lemma_not_failed_before(ctx, replies);
    if i < last {
        assert(trace(ctx, replies)[i] == trace(ctx, before)[i]);
        assert(replies[i] == before[i]);
        lemma_tries_again(ctx, before, i);
        lemma_accounted_step(ctx, replies, Stage::ChdirAgain);
    } else {
        lemma_refused_change(ctx, replies[i]);
        lemma_tail_tries_again(ctx);
        let tail = spec_tail(ctx, true);
        let k = choose|k: int| 0 <= k < tail.len() && tail[k] == Stage::ChdirAgain;
        assert(run(ctx, before).pending[0] == Stage::Chdir);
        assert(run(ctx, replies).pending[k] == Stage::ChdirAgain);
    }
}

/// When the payload is about to be executed, its working directory has been changed to, if it
/// has one: at the first try, or else, where that was not permitted, at the second.
#[verifier::rlimit(50)]
pub proof fn law_working_directory_is_entered<E>(ctx: InitContext, replies: Seq<Reply<E>>)
    requires
        valid_run(ctx, replies),
        executing(ctx, replies),
        ctx.process.cwd@.len() > 0,
    ensures
        exists|i: int|
            0 <= i < replies.len() && #[trigger] asked(ctx, replies, i) == CallView::Chdir(
                ctx.process.cwd@,
            ) && succeeded(replies[i]) && (trace(ctx, replies)[i] is Chdir || trace(
                ctx,
                replies,
            )[i] is ChdirAgain),
{
    lemma_executing(ctx, replies);
    lemma_run_well_formed(ctx, replies);
    law_all_that_is_called_for(ctx, replies, Stage::Chdir);
    let i = choose|i: int|
        0 <= i < replies.len() && #[trigger] trace(ctx, replies)[i] == Stage::Chdir;
    law_root_calls(ctx, replies, i);
    lemma_answer_kind(ctx, replies, i);
    lemma_went_on(ctx, replies, i);
    lemma_change_answer(ctx, Stage::Chdir, replies[i]);
    if failed_with(replies[i], 1) {
        lemma_tries_again(ctx, replies, i);
        law_stages_in_order(ctx, replies);
        let pending = run(ctx, replies).pending;
        if pending.contains(Stage::ChdirAgain) {
            let k = choose|k: int| 0 <= k < pending.len() && pending[k] == Stage::ChdirAgain;
            assert(before(pending[0], pending[k]));
        }
        lemma_trace_len(ctx, replies);
        let j = choose|j: int|
            0 <= j < trace(ctx, replies).len() && trace(ctx, replies)[j] == Stage::ChdirAgain;
        law_root_calls(ctx, replies, j);
        lemma_answer_kind(ctx, replies, j);
        lemma_went_on(ctx, replies, j);
        lemma_change_answer(ctx, Stage::ChdirAgain, replies[j]);
        assert(asked(ctx, replies, j) == CallView::Chdir(ctx.process.cwd@));
    } else {
        assert(asked(ctx, replies, i) == CallView::Chdir(ctx.process.cwd@));
    }
}

proof fn lemma_change_answer<E>(ctx: InitContext, stage: Stage, reply: Reply<E>)
    requires
        stage is Chdir || stage is ChdirAgain,
        reply is Outcome,
        spec_respond(ctx, stage, reply) is Ok,
    ensures
        succeeded(reply) || stage is Chdir && failed_with(reply, 1),
{
}

/// If the payload is about to be executed, a procedure has followed its course.
proof fn lemma_course<E>(ctx: InitContext, replies: Seq<Reply<E>>, i: int)
    requires
        valid_run(ctx, replies),
        executing(ctx, replies),
        0 <= i < replies.len(),
        !(trace(ctx, replies)[i] is Chdir),
    ensures
        spec_respond(ctx, trace(ctx, replies)[i], replies[i]) is Ok,
        replies[i].spec_kind() == spec_answer(trace(ctx, replies)[i]),
        leads_to(ctx, trace(ctx, replies)[i], replies[i]) matches Some(next) ==> {
            ||| next is Exec
            ||| i + 1 < replies.len() && trace(ctx, replies)[i + 1] == next
        },
{
    lemma_asked(ctx, replies, i);
    lemma_answer_kind(ctx, replies, i);
    lemma_trace_prefix(ctx, replies, i);
    lemma_went_on(ctx, replies, i);
    law_procedures_follow_their_course(ctx, trace(ctx, replies)[i], replies[i]);
}

proof fn lemma_prepare_answer<E>(ctx: InitContext, step: prepare_rootfs::Step, reply: Reply<E>)
    requires
        step is Prepare,
        reply is Outcome,
        spec_respond(ctx, Stage::PrepareRootfs(step), reply) is Ok,
    ensures
        succeeded(reply),
{
}

/// When the payload of the first process is about to be executed, the root file system has
/// been prepared.
pub proof fn law_rootfs_is_prepared<E>(ctx: InitContext, replies: Seq<Reply<E>>)
    requires
        valid_run(ctx, replies),
        executing(ctx, replies),
        ctx.container_type is InitContainer,
    ensures
        exists|i: int|
            0 <= i < replies.len() && #[trigger] asked(ctx, replies, i) is PrepareRootfs
                && succeeded(replies[i]),
{
    lemma_executing(ctx, replies);
    let probe = Stage::PrepareRootfs(prepare_rootfs::Step::Probe);
    law_all_that_is_called_for(ctx, replies, probe);
    let i = choose|i: int| 0 <= i < replies.len() && #[trigger] trace(ctx, replies)[i] == probe;
    lemma_course(ctx, replies, i);
    lemma_course(ctx, replies, i + 1);
    lemma_course(ctx, replies, i + 2);
    lemma_course(ctx, replies, i + 3);
    law_calls_have_their_stages(ctx, replies, i + 3);
    lemma_prepare_answer(ctx, trace(ctx, replies)[i + 3]->PrepareRootfs_0, replies[i + 3]);
    assert(asked(ctx, replies, i + 3) is PrepareRootfs);
}

/// How the root is entered since an answer about the mount namespace.
pub open spec fn enters_root<E>(ctx: InitContext, replies: Seq<Reply<E>>, i: int) -> bool {
    &&& 0 <= i < replies.len() - 1
    &&& asked(ctx, replies, i) == CallView::GetNamespace(NamespaceType::Mount)
    &&& succeeded(replies[i + 1])
    &&& if !found(replies[i]) {
        asked(ctx, replies, i + 1) == CallView::Chroot(ctx.rootfs@)
    } else if ctx.no_pivot {
        asked(ctx, replies, i + 1) == CallView::Chdir(ctx.rootfs@)
    } else {
        asked(ctx, replies, i + 1) == CallView::PivotRootfs(ctx.rootfs@)
    }
}

proof fn lemma_enter_answer<E>(ctx: InitContext, step: do_pivot_root::Step, reply: Reply<E>)
    requires
        step is Pivot || step is Chroot || step == do_pivot_root::Step::MoveRoot(
            move_root::Step::EnterRootfs,
        ),
        reply is Outcome,
        spec_respond(ctx, Stage::PivotRoot(step), reply) is Ok,
    ensures
        succeeded(reply),
{
}

/// When the payload of the first process is about to be executed, the root of the
/// configuration has been entered, as the mount namespace demands.
pub proof fn law_root_is_entered<E>(ctx: InitContext, replies: Seq<Reply<E>>)
    requires
        valid_run(ctx, replies),
        executing(ctx, replies),
        ctx.container_type is InitContainer,
    ensures
        exists|i: int| #[trigger] enters_root(ctx, replies, i),
{
    lemma_executing(ctx, replies);
    let look_up = Stage::PivotRoot(do_pivot_root::Step::LookUp);
    law_all_that_is_called_for(ctx, replies, look_up);
    let i = choose|i: int| 0 <= i < replies.len() && #[trigger] trace(ctx, replies)[i] == look_up;
    lemma_course(ctx, replies, i);
    lemma_course(ctx, replies, i + 1);
    law_root_calls(ctx, replies, i);
    law_root_calls(ctx, replies, i + 1);
    lemma_enter_answer(ctx, trace(ctx, replies)[i + 1]->PivotRoot_0, replies[i + 1]);
    assert(enters_root(ctx, replies, i));
}

} // verus!
