//! What the init process asks of the host in a run, by the configuration and the answers
//! before.

use crate::call::{CallView, HookPoint, NamespaceType, Reply};
use crate::causes::{law_answers_take_effect, law_procedures_are_not_interrupted};
use crate::context::InitContext;
use crate::coverage::{
    called_for, describes, has_entry, law_all_that_is_called_for, law_only_what_is_called_for,
};
use crate::laws::law_failure_ends_the_process;
use crate::order::law_no_stage_is_repeated;
use crate::procedures::{
    apply_rest_namespaces, do_pivot_root, prepare_rootfs, reopen_dev_null, set_supplementary_gids,
};
use crate::process::next_call;
use crate::run::{
    lemma_pending_after, lemma_run_well_formed, lemma_trace_prefix, run, trace, valid_run,
};
use crate::stage::{spec_call, valid, Stage};
use vstd::prelude::*;
use vstd::utf8::encode_utf8;

verus! {

/// The call that an answer was given to.
pub open spec fn asked<E>(ctx: InitContext, replies: Seq<Reply<E>>, j: int) -> CallView {
    next_call(ctx, run(ctx, replies.take(j)))->0
}

/// Whether the payload is about to be executed.
pub open spec fn executing<E>(ctx: InitContext, replies: Seq<Reply<E>>) -> bool {
    next_call(ctx, run(ctx, replies)) == Some(CallView::Exec)
}

/// A stage makes its call.
pub proof fn lemma_asked<E>(ctx: InitContext, replies: Seq<Reply<E>>, j: int)
    requires
        valid_run(ctx, replies),
        0 <= j < replies.len(),
    ensures
        next_call(ctx, run(ctx, replies.take(j))) is Some,
        asked(ctx, replies, j) == spec_call(
            ctx,
            run(ctx, replies.take(j)).envs,
            trace(ctx, replies)[j],
        ),
        valid(ctx, trace(ctx, replies)[j]),
        !(trace(ctx, replies)[j] is InvalidUmask),
        !(trace(ctx, replies)[j] is MissingArgs),
{
    lemma_trace_prefix(ctx, replies, j);
    lemma_run_well_formed(ctx, replies.take(j));
}

/// Each stage makes the call that it is named after, and no other stage does.
pub proof fn law_calls_have_their_stages<E>(ctx: InitContext, replies: Seq<Reply<E>>, j: int)
    requires
        valid_run(ctx, replies),
        0 <= j < replies.len(),
    ensures
        ({
            let stage = trace(ctx, replies)[j];
            let call = asked(ctx, replies, j);
            &&& stage is SetSid <==> call is SetSid
            &&& stage is IoPriority <==> call is SetIoPriority
            &&& stage is Scheduler <==> call is SchedSetattr
            &&& stage is Console <==> call is SetupConsole
            &&& stage == Stage::RestNamespaces(apply_rest_namespaces::Step::Apply)
                <==> call is ApplyNamespaces
            &&& stage == Stage::RestNamespaces(apply_rest_namespaces::Step::LookUpUts) <==> call
                == CallView::GetNamespace(NamespaceType::Uts)
            &&& stage == Stage::RestNamespaces(apply_rest_namespaces::Step::Hostname)
                <==> call is SetHostname
            &&& stage == Stage::RestNamespaces(apply_rest_namespaces::Step::Domainname)
                <==> call is SetDomainname
            &&& stage is NoNewPrivileges <==> call is SetNoNewPrivileges
            &&& stage is CreateContainerHooks <==> call == CallView::RunHooks(
                HookPoint::CreateContainer,
            )
            &&& stage == Stage::PrepareRootfs(prepare_rootfs::Step::Probe)
                <==> call is IsInNewUserns
            &&& (stage matches Stage::PrepareRootfs(step) && step is LookUpUser) <==> call
                == CallView::GetNamespace(NamespaceType::User)
            &&& (stage matches Stage::PrepareRootfs(step) && step is LookUpCgroup) <==> call
                == CallView::GetNamespace(NamespaceType::Cgroup)
            &&& (stage matches Stage::PrepareRootfs(step) && step is Prepare)
                <==> call is PrepareRootfs
            &&& stage == Stage::PivotRoot(do_pivot_root::Step::LookUp) <==> call
                == CallView::GetNamespace(NamespaceType::Mount)
            &&& stage == Stage::PivotRoot(do_pivot_root::Step::Pivot) <==> call is PivotRootfs
            &&& stage is RootPropagation <==> call is AdjustRootMountPropagation
            &&& stage == Stage::DevNull(reopen_dev_null::Step::Open) <==> call is Open
            &&& stage is Sysctl <==> call is WriteFile
            &&& stage is AppArmor <==> call is ApplyProfile
            &&& stage is Umask <==> call is Umask
            &&& stage == Stage::Gids(set_supplementary_gids::Step::ReadSetgroups)
                <==> call is ReadToString
            &&& stage == Stage::Gids(set_supplementary_gids::Step::SetGroups) <==> call is SetGroups
            &&& stage is SetId <==> call is SetId
            &&& stage is ListenFds <==> call is ReadVariable
            &&& stage is CloseRange <==> call is CloseRange
            &&& (stage matches Stage::Seccomp(_, step) && step is Initialize)
                <==> call is InitializeSeccomp
            &&& (stage matches Stage::Seccomp(_, step) && step is Request)
                <==> call is SeccompNotifyRequest
            &&& (stage matches Stage::Seccomp(_, step) && step is Wait)
                <==> call is WaitForSeccompRequestDone
            &&& stage is ResetEffective <==> call is ResetEffective
            &&& stage is DropPrivileges <==> call is DropPrivileges
            &&& stage is VerifyCwd <==> call is GetCwd
            &&& stage is UserHome <==> call is GetUserHome
            &&& stage is Validate <==> call is Validate
            &&& stage is SetupEnvs <==> call is SetupEnvs
            &&& stage is InitReady <==> call is InitReady
            &&& stage is CloseMainSender <==> call is CloseMainSender
            &&& stage is WaitForStart <==> call is WaitForContainerStart
            &&& stage is CloseNotifyListener <==> call is CloseNotifyListener
            &&& stage is StartContainerHooks <==> call == CallView::RunHooks(
                HookPoint::StartContainer,
            )
            &&& stage is Exec <==> call is Exec
        }),
{
    lemma_asked(ctx, replies, j);
}

/// The payload is about to be executed if and only if that stage is next.
pub proof fn lemma_executing<E>(ctx: InitContext, replies: Seq<Reply<E>>)
    requires
        valid_run(ctx, replies),
    ensures
        executing(ctx, replies) <==> run(ctx, replies).pending.len() > 0 && run(
            ctx,
            replies,
        ).pending[0] is Exec,
{
    lemma_run_well_formed(ctx, replies);
}

/// The scheduling that is asked for is that of the configuration.
pub proof fn law_scheduling_is_as_configured<E>(ctx: InitContext, replies: Seq<Reply<E>>, j: int)
    requires
        valid_run(ctx, replies),
        0 <= j < replies.len(),
    ensures
        asked(ctx, replies, j) matches CallView::SetIoPriority { class, priority } ==> called_for(
            ctx,
            Stage::IoPriority { class, priority },
        ),
        asked(ctx, replies, j) matches CallView::SchedSetattr { pid, attr, call_flags } ==> {
            &&& pid == 0
            &&& call_flags == 0
            &&& ctx.process.scheduler is Some
            &&& describes(attr, ctx.process.scheduler->0)
        },
{
    lemma_asked(ctx, replies, j);
    law_calls_have_their_stages(ctx, replies, j);
    if trace(ctx, replies)[j] is IoPriority || trace(ctx, replies)[j] is Scheduler {
        law_only_what_is_called_for(ctx, replies, j);
    }
}

/// The process takes on the user of the configuration: its uid and gid, its supplementary
/// groups, all of them, and its umask. The home directory that is looked up is that user's.
pub proof fn law_user_is_as_configured<E>(ctx: InitContext, replies: Seq<Reply<E>>, j: int)
    requires
        valid_run(ctx, replies),
        0 <= j < replies.len(),
    ensures
        asked(ctx, replies, j) matches CallView::SetId { uid, gid } ==> uid == ctx.process.user.uid
            && gid == ctx.process.user.gid,
        asked(ctx, replies, j) matches CallView::SetGroups(gids) ==> {
            &&& ctx.process.user.additional_gids is Some
            &&& gids == ctx.process.user.additional_gids->0@
            &&& gids.len() > 0
        },
        asked(ctx, replies, j) matches CallView::Umask(mode) ==> ctx.process.user.umask == Some(
            mode,
        ) && mode & !0o7777u32 == 0,
        asked(ctx, replies, j) matches CallView::GetUserHome(uid) ==> uid == ctx.process.user.uid
            && !ctx.envs@.contains_key("HOME"@),
        asked(ctx, replies, j) matches CallView::ReadToString(path) ==> path == encode_utf8(
            "/proc/self/setgroups"@,
        ),
{
    lemma_asked(ctx, replies, j);
    law_calls_have_their_stages(ctx, replies, j);
    let stage = trace(ctx, replies)[j];
    if stage is Umask || stage is UserHome {
        law_only_what_is_called_for(ctx, replies, j);
    }
    if stage == Stage::Gids(set_supplementary_gids::Step::SetGroups) {
        law_procedures_are_not_interrupted(ctx, replies, j);
        law_only_what_is_called_for(ctx, replies, j - 1);
    }
}

/// The user of the payload is taken on exactly once, and its groups before that, if it has
/// any.
pub proof fn law_user_is_taken_on_once<E>(ctx: InitContext, replies: Seq<Reply<E>>)
    requires
        valid_run(ctx, replies),
        executing(ctx, replies),
    ensures
        exists|i: int|
            0 <= i < replies.len() && #[trigger] asked(ctx, replies, i) == (CallView::SetId {
                uid: ctx.process.user.uid,
                gid: ctx.process.user.gid,
            }),
        forall|i: int, k: int|
            0 <= i < replies.len() && 0 <= k < replies.len() && #[trigger] asked(
                ctx,
                replies,
                i,
            ) is SetId && #[trigger] asked(ctx, replies, k) is SetId ==> i == k,
        has_entry(ctx.process.user.additional_gids, 0) ==> exists|i: int|
            0 <= i < replies.len() && #[trigger] asked(ctx, replies, i) == CallView::SetGroups(
                ctx.process.user.additional_gids->0@,
            ),
{
    lemma_executing(ctx, replies);
    law_all_that_is_called_for(ctx, replies, Stage::SetId);
    let i = choose|i: int|
        0 <= i < replies.len() && #[trigger] trace(ctx, replies)[i] == Stage::SetId;
    law_calls_have_their_stages(ctx, replies, i);
    law_user_is_as_configured(ctx, replies, i);
    assert forall|i: int, k: int|
        0 <= i < replies.len() && 0 <= k < replies.len() && #[trigger] asked(
            ctx,
            replies,
            i,
        ) is SetId && #[trigger] asked(ctx, replies, k) is SetId implies i == k by {
        law_calls_have_their_stages(ctx, replies, i);
        law_calls_have_their_stages(ctx, replies, k);
        if i < k {
            law_no_stage_is_repeated(ctx, replies, i, k);
        } else if k < i {
            law_no_stage_is_repeated(ctx, replies, k, i);
        }
    }
    if has_entry(ctx.process.user.additional_gids, 0) {
        let read = Stage::Gids(set_supplementary_gids::Step::ReadSetgroups);
        law_all_that_is_called_for(ctx, replies, read);
        let r = choose|r: int| 0 <= r < replies.len() && #[trigger] trace(ctx, replies)[r] == read;
        lemma_groups_follow(ctx, replies, r);
        law_calls_have_their_stages(ctx, replies, r + 1);
        law_user_is_as_configured(ctx, replies, r + 1);
    }
}

/// Where the kernel was asked about the groups and the process has not failed, they are set.
proof fn lemma_groups_follow<E>(ctx: InitContext, replies: Seq<Reply<E>>, r: int)
    requires
        valid_run(ctx, replies),
        executing(ctx, replies),
        0 <= r < replies.len(),
        trace(ctx, replies)[r] == Stage::Gids(set_supplementary_gids::Step::ReadSetgroups),
    ensures
        r + 1 < replies.len(),
        trace(ctx, replies)[r + 1] == Stage::Gids(set_supplementary_gids::Step::SetGroups),
{
    lemma_executing(ctx, replies);
    lemma_run_well_formed(ctx, replies);
    law_failure_ends_the_process(ctx, replies);
    lemma_trace_prefix(ctx, replies, r);
    if r + 1 == replies.len() {
        assert(replies.take(r) =~= replies.drop_last());
        lemma_pending_after(ctx, replies);
    } else {
        law_answers_take_effect(ctx, replies, r);
    }
}

} // verus!
