//! Which calls have been made when the payload is about to be executed, and in which order.

use crate::asked::{asked, executing, law_calls_have_their_stages, lemma_asked, lemma_executing};
use crate::call::{CallView, HookPoint, Reply};
use crate::context::{IOPriorityClass, InitContext};
use crate::coverage::{
    called_for, justified, law_all_that_is_called_for, law_attributes_describe_the_scheduler,
    lemma_justified_respond, lemma_plan_justified,
};
use crate::error::InitProcessError;
use crate::files::{lemma_answer_kind, lemma_went_on, succeeded};
use crate::order::{before, law_stages_in_order, place};
use crate::plan::spec_plan;
use crate::procedures::sync_seccomp;
use crate::run::{lemma_run_all, lemma_trace_len, run, trace, valid_run};
use crate::scheduler::scheduler_attr;
use crate::stage::{brought_up, spec_respond, SeccompTiming, Stage};
use crate::stages::all;
use vstd::prelude::*;

verus! {

/// Whether a call has been made and went well.
pub open spec fn made<E>(ctx: InitContext, replies: Seq<Reply<E>>, call: CallView) -> bool {
    exists|i: int|
        0 <= i < replies.len() && #[trigger] asked(ctx, replies, i) == call && succeeded(replies[i])
}

/// Whether a call has been made.
pub open spec fn tried<E>(ctx: InitContext, replies: Seq<Reply<E>>, call: CallView) -> bool {
    exists|i: int| 0 <= i < replies.len() && #[trigger] asked(ctx, replies, i) == call
}

/// Whether a stage has to go well, and what its call is.
spec fn strict(stage: Stage, call: CallView) -> bool {
    match stage {
        Stage::SetSid => call is SetSid,
        Stage::IoPriority { class, priority } => call == (CallView::SetIoPriority {
            class,
            priority,
        }),
        Stage::Scheduler(attr) => call == (CallView::SchedSetattr { pid: 0, attr, call_flags: 0 }),
        Stage::Console(fd) => call == CallView::SetupConsole(fd),
        Stage::StdioDup { from, to } => call == (CallView::Dup2 { from, to }),
        Stage::StdioClose(fd) => call == CallView::Close(fd),
        Stage::CreateContainerHooks => call == CallView::RunHooks(HookPoint::CreateContainer),
        Stage::RootPropagation => call is AdjustRootMountPropagation,
        Stage::ResetEffective => call is ResetEffective,
        Stage::DropPrivileges => call is DropPrivileges,
        Stage::Validate => call is Validate,
        Stage::InitReady => call is InitReady,
        Stage::CloseMainSender => call is CloseMainSender,
        Stage::WaitForStart => call is WaitForContainerStart,
        Stage::CloseNotifyListener => call is CloseNotifyListener,
        Stage::StartContainerHooks => call == CallView::RunHooks(HookPoint::StartContainer),
        _ => false,
    }
}

proof fn lemma_strict_answer<E>(ctx: InitContext, stage: Stage, call: CallView, reply: Reply<E>)
    requires
        strict(stage, call),
        reply is Outcome,
        spec_respond(ctx, stage, reply) is Ok,
    ensures
        succeeded(reply),
{
}

proof fn lemma_made<E>(ctx: InitContext, replies: Seq<Reply<E>>, stage: Stage, call: CallView)
    requires
        valid_run(ctx, replies),
        executing(ctx, replies),
        called_for(ctx, stage),
        strict(stage, call),
    ensures
        made(ctx, replies, call),
{
    lemma_executing(ctx, replies);
    law_all_that_is_called_for(ctx, replies, stage);
    let i = choose|i: int| 0 <= i < replies.len() && #[trigger] trace(ctx, replies)[i] == stage;
    lemma_asked(ctx, replies, i);
    lemma_answer_kind(ctx, replies, i);
    lemma_went_on(ctx, replies, i);
    lemma_strict_answer(ctx, stage, call, replies[i]);
}

/// When the payload is about to be executed, it has a session of its own, its capabilities,
/// the validation of its executor and the word to start.
#[verifier::rlimit(50)]
pub proof fn law_payload_is_ready<E>(ctx: InitContext, replies: Seq<Reply<E>>)
    requires
        valid_run(ctx, replies),
        executing(ctx, replies),
    ensures
        made(ctx, replies, CallView::SetSid),
        made(ctx, replies, CallView::ResetEffective),
        ctx.process.has_capabilities ==> made(ctx, replies, CallView::DropPrivileges),
        made(ctx, replies, CallView::Validate),
        made(ctx, replies, CallView::InitReady),
        made(ctx, replies, CallView::CloseMainSender),
        made(ctx, replies, CallView::WaitForContainerStart),
        made(ctx, replies, CallView::CloseNotifyListener),
{
    lemma_made(ctx, replies, Stage::SetSid, CallView::SetSid);
    lemma_made(ctx, replies, Stage::ResetEffective, CallView::ResetEffective);
    if ctx.process.has_capabilities {
        lemma_made(ctx, replies, Stage::DropPrivileges, CallView::DropPrivileges);
    }
    lemma_made(ctx, replies, Stage::Validate, CallView::Validate);
    lemma_made(ctx, replies, Stage::InitReady, CallView::InitReady);
    lemma_made(ctx, replies, Stage::CloseMainSender, CallView::CloseMainSender);
    lemma_made(ctx, replies, Stage::WaitForStart, CallView::WaitForContainerStart);
    lemma_made(ctx, replies, Stage::CloseNotifyListener, CallView::CloseNotifyListener);
}

/// When the payload is about to be executed, the terminal or the standard descriptors are in
/// place, and the descriptors that they came from are closed.
pub proof fn law_stdio_is_in_place<E>(ctx: InitContext, replies: Seq<Reply<E>>, fd: i32)
    requires
        valid_run(ctx, replies),
        executing(ctx, replies),
    ensures
        ctx.console_socket == Some(fd) ==> made(ctx, replies, CallView::SetupConsole(fd)),
        ctx.console_socket is None && ctx.stdin == Some(fd) ==> made(
            ctx,
            replies,
            CallView::Dup2 { from: fd, to: 0 },
        ) && made(ctx, replies, CallView::Close(fd)),
        ctx.console_socket is None && ctx.stdout == Some(fd) ==> made(
            ctx,
            replies,
            CallView::Dup2 { from: fd, to: 1 },
        ) && made(ctx, replies, CallView::Close(fd)),
        ctx.console_socket is None && ctx.stderr == Some(fd) ==> made(
            ctx,
            replies,
            CallView::Dup2 { from: fd, to: 2 },
        ) && made(ctx, replies, CallView::Close(fd)),
{
    if ctx.console_socket == Some(fd) {
        lemma_made(ctx, replies, Stage::Console(fd), CallView::SetupConsole(fd));
    }
    if ctx.console_socket is None {
        if ctx.stdin == Some(fd) {
            lemma_made(
                ctx,
                replies,
                Stage::StdioDup { from: fd, to: 0 },
                CallView::Dup2 { from: fd, to: 0 },
            );
            lemma_made(ctx, replies, Stage::StdioClose(fd), CallView::Close(fd));
        }
        if ctx.stdout == Some(fd) {
            lemma_made(
                ctx,
                replies,
                Stage::StdioDup { from: fd, to: 1 },
                CallView::Dup2 { from: fd, to: 1 },
            );
            lemma_made(ctx, replies, Stage::StdioClose(fd), CallView::Close(fd));
        }
        if ctx.stderr == Some(fd) {
            lemma_made(
                ctx,
                replies,
                Stage::StdioDup { from: fd, to: 2 },
                CallView::Dup2 { from: fd, to: 2 },
            );
            lemma_made(ctx, replies, Stage::StdioClose(fd), CallView::Close(fd));
        }
    }
}

/// When the payload of the first process is about to be executed, the hooks have run and the
/// mounts of the container propagate as configured.
pub proof fn law_container_is_set_up<E>(ctx: InitContext, replies: Seq<Reply<E>>)
    requires
        valid_run(ctx, replies),
        executing(ctx, replies),
        ctx.container_type is InitContainer,
    ensures
        made(ctx, replies, CallView::AdjustRootMountPropagation),
        ctx.has_hooks ==> made(ctx, replies, CallView::RunHooks(HookPoint::CreateContainer)),
        ctx.has_hooks ==> made(ctx, replies, CallView::RunHooks(HookPoint::StartContainer)),
{
    lemma_made(ctx, replies, Stage::RootPropagation, CallView::AdjustRootMountPropagation);
    if ctx.has_hooks {
        lemma_made(
            ctx,
            replies,
            Stage::CreateContainerHooks,
            CallView::RunHooks(HookPoint::CreateContainer),
        );
        lemma_made(
            ctx,
            replies,
            Stage::StartContainerHooks,
            CallView::RunHooks(HookPoint::StartContainer),
        );
    }
}

/// When the payload is about to be executed, it is scheduled as configured.
pub proof fn law_scheduling_is_set<E>(ctx: InitContext, replies: Seq<Reply<E>>)
    requires
        valid_run(ctx, replies),
        executing(ctx, replies),
    ensures
        ctx.process.io_priority is Some ==> exists|i: int|
            0 <= i < replies.len() && #[trigger] asked(ctx, replies, i) is SetIoPriority
                && succeeded(replies[i]),
        ctx.process.scheduler is Some ==> exists|i: int|
            0 <= i < replies.len() && #[trigger] asked(ctx, replies, i) is SchedSetattr
                && succeeded(replies[i]),
{
    if ctx.process.io_priority is Some {
        let priority = ctx.process.io_priority->0.priority;
        let class: i64 = match ctx.process.io_priority->0.class {
            IOPriorityClass::IoprioClassRt => 1,
            IOPriorityClass::IoprioClassBe => 2,
            IOPriorityClass::IoprioClassIdle => 3,
        };
        lemma_made(
            ctx,
            replies,
            Stage::IoPriority { class, priority },
            CallView::SetIoPriority { class, priority },
        );
        let i = choose|i: int|
            0 <= i < replies.len() && #[trigger] asked(ctx, replies, i)
                == (CallView::SetIoPriority { class, priority }) && succeeded(replies[i]);
        assert(asked(ctx, replies, i) is SetIoPriority);
    }
    if ctx.process.scheduler is Some {
        let attr = scheduler_attr(ctx.process.scheduler->0);
        law_attributes_describe_the_scheduler(ctx.process.scheduler->0);
        let call = CallView::SchedSetattr { pid: 0, attr, call_flags: 0 };
        lemma_made(ctx, replies, Stage::Scheduler(attr), call);
        let i = choose|i: int|
            0 <= i < replies.len() && #[trigger] asked(ctx, replies, i) == call && succeeded(
                replies[i],
            );
        assert(asked(ctx, replies, i) is SchedSetattr);
    }
}

/// When the payload is about to be executed, all that need not go well has at least been
/// tried.
pub proof fn law_nothing_is_left_untried<E>(ctx: InitContext, replies: Seq<Reply<E>>)
    requires
        valid_run(ctx, replies),
        executing(ctx, replies),
    ensures
        ctx.process.no_new_privileges == Some(true) ==> tried(
            ctx,
            replies,
            CallView::SetNoNewPrivileges,
        ),
        ctx.linux.has_seccomp ==> tried(ctx, replies, CallView::InitializeSeccomp),
        tried(ctx, replies, CallView::GetCwd),
        ctx.process.apparmor_profile is Some ==> tried(
            ctx,
            replies,
            CallView::ApplyProfile(ctx.process.apparmor_profile->0@),
        ),
        ctx.process.user.umask is Some ==> tried(
            ctx,
            replies,
            CallView::Umask(ctx.process.user.umask->0),
        ),
{
    if ctx.process.no_new_privileges == Some(true) {
        lemma_tried(ctx, replies, Stage::NoNewPrivileges);
    }
    if ctx.linux.has_seccomp {
        let timing = if ctx.process.no_new_privileges == Some(true) {
            SeccompTiming::BeforePayload
        } else {
            SeccompTiming::BeforeCapabilities
        };
        lemma_tried(ctx, replies, Stage::Seccomp(timing, sync_seccomp::Step::Initialize));
    }
    lemma_tried(ctx, replies, Stage::VerifyCwd);
    if ctx.process.apparmor_profile is Some {
        lemma_tried(ctx, replies, Stage::AppArmor);
    }
    if ctx.process.user.umask is Some {
        let bits = ctx.process.user.umask->0;
        if bits & !0o7777u32 == 0 {
            lemma_tried(ctx, replies, Stage::Umask(bits));
        } else {
            lemma_tried(ctx, replies, Stage::InvalidUmask(bits));
        }
    }
}

proof fn lemma_tried<E>(ctx: InitContext, replies: Seq<Reply<E>>, stage: Stage)
    requires
        valid_run(ctx, replies),
        executing(ctx, replies),
        called_for(ctx, stage),
        !(stage is Exec),
    ensures
        stage is NoNewPrivileges ==> tried(ctx, replies, CallView::SetNoNewPrivileges),
        stage is Seccomp ==> tried(ctx, replies, CallView::InitializeSeccomp),
        stage is VerifyCwd ==> tried(ctx, replies, CallView::GetCwd),
        stage is AppArmor ==> tried(
            ctx,
            replies,
            CallView::ApplyProfile(ctx.process.apparmor_profile->0@),
        ),
        stage matches Stage::Umask(bits) ==> tried(ctx, replies, CallView::Umask(bits)),
        !(stage is InvalidUmask),
{
    lemma_executing(ctx, replies);
    law_all_that_is_called_for(ctx, replies, stage);
    let i = choose|i: int| 0 <= i < replies.len() && #[trigger] trace(ctx, replies)[i] == stage;
    lemma_asked(ctx, replies, i);
    assert(asked(ctx, replies, i) == asked(ctx, replies, i));
}

/// When a call is made, in the order of the calls that are made at one moment only.
pub open spec fn moment(call: CallView) -> Option<int> {
    match call {
        CallView::SetSid => Some(0),
        CallView::SetIoPriority { .. } => Some(1),
        CallView::SchedSetattr { .. } => Some(2),
        CallView::SetupConsole(_) => Some(3),
        CallView::ApplyNamespaces { .. } => Some(4),
        CallView::SetHostname(_) => Some(4),
        CallView::SetDomainname(_) => Some(4),
        CallView::SetNoNewPrivileges => Some(5),
        CallView::RunHooks(HookPoint::CreateContainer) => Some(6),
        CallView::IsInNewUserns => Some(7),
        CallView::PrepareRootfs { .. } => Some(7),
        CallView::PivotRootfs(_) => Some(8),
        CallView::AdjustRootMountPropagation => Some(9),
        CallView::Open(_) => Some(10),
        CallView::WriteFile { .. } => Some(11),
        CallView::ApplyProfile(_) => Some(12),
        CallView::Umask(_) => Some(14),
        CallView::ReadToString(_) => Some(18),
        CallView::SetGroups(_) => Some(18),
        CallView::SetId { .. } => Some(19),
        CallView::ReadVariable(_) => Some(20),
        CallView::CloseRange(_) => Some(20),
        CallView::ResetEffective => Some(22),
        CallView::DropPrivileges => Some(23),
        CallView::GetCwd => Some(25),
        CallView::GetUserHome(_) => Some(27),
        CallView::Validate => Some(28),
        CallView::SetupEnvs(_) => Some(29),
        CallView::InitReady => Some(30),
        CallView::CloseMainSender => Some(31),
        CallView::WaitForContainerStart => Some(32),
        CallView::CloseNotifyListener => Some(33),
        CallView::RunHooks(HookPoint::StartContainer) => Some(34),
        CallView::Exec => Some(35),
        _ => None,
    }
}

/// The calls are made in their order.
pub proof fn law_calls_in_order<E>(ctx: InitContext, replies: Seq<Reply<E>>, i: int, j: int)
    requires
        valid_run(ctx, replies),
        0 <= i < replies.len(),
        0 <= j < replies.len(),
        moment(asked(ctx, replies, i)) is Some,
        moment(asked(ctx, replies, j)) is Some,
        moment(asked(ctx, replies, i))->0 < moment(asked(ctx, replies, j))->0,
    ensures
        i < j,
{
    lemma_moment(ctx, replies, i);
    lemma_moment(ctx, replies, j);
    law_stages_in_order(ctx, replies);
    lemma_trace_len(ctx, replies);
    if j < i {
        assert(before(trace(ctx, replies)[j], trace(ctx, replies)[i]));
    }
}

proof fn lemma_moment<E>(ctx: InitContext, replies: Seq<Reply<E>>, i: int)
    requires
        valid_run(ctx, replies),
        0 <= i < replies.len(),
        moment(asked(ctx, replies, i)) is Some,
    ensures
        moment(asked(ctx, replies, i))->0 == place(trace(ctx, replies)[i]),
{
    law_calls_have_their_stages(ctx, replies, i);
}

proof fn lemma_pending_justified<E>(ctx: InitContext, replies: Seq<Reply<E>>)
    requires
        valid_run(ctx, replies),
    ensures
        all(run(ctx, replies).pending, |stage: Stage| justified(ctx, stage)),
{
    let p = |stage: Stage| justified(ctx, stage);
    lemma_plan_justified(ctx, false);
    assert forall|stage: Stage, reply: Reply<E>| p(stage) implies all(
        #[trigger] brought_up(ctx, stage, reply),
        p,
    ) by {
        lemma_justified_respond(ctx, stage, reply);
    }
    lemma_run_all(ctx, replies, p);
}

/// What comes up next is justified.
proof fn lemma_next_justified<E>(
    ctx: InitContext,
    pending: Seq<Stage>,
    reply: Reply<E>,
    after: Seq<Stage>,
)
    requires
        pending.len() > 0,
        all(pending, |stage: Stage| justified(ctx, stage)),
        after == brought_up(ctx, pending[0], reply) + pending.drop_first(),
        after.len() > 0,
    ensures
        justified(ctx, after[0]),
{
    let p = |stage: Stage| justified(ctx, stage);
    let stages = brought_up(ctx, pending[0], reply);
    lemma_justified_respond(ctx, pending[0], reply);
    reveal(all);
    if stages.len() > 0 {
        assert(p(stages[0]));
    } else {
        assert(after[0] == pending[1]);
        assert(p(pending[1]));
    }
}

proof fn lemma_rejection<E>(ctx: InitContext, replies: Seq<Reply<E>>)
    requires
        valid_run(ctx, replies),
    ensures
        run(ctx, replies).failure matches Some(InitProcessError::InvalidUmask(bits)) ==> called_for(
            ctx,
            Stage::InvalidUmask(bits),
        ),
        run(ctx, replies).failure matches Some(InitProcessError::MissingSpec(part)) ==> part is Args
            && called_for(ctx, Stage::MissingArgs),
    decreases replies.len(),
{
    if replies.len() == 0 {
        assert(spec_plan(ctx)[0] is SetSid);
    } else {
        let previous = replies.drop_last();
        lemma_rejection(ctx, previous);
        lemma_pending_justified(ctx, previous);
        let pending = run(ctx, previous).pending;
        lemma_no_such_error(ctx, pending[0], replies.last());
        let after = brought_up(ctx, pending[0], replies.last()) + pending.drop_first();
        if after.len() > 0 {
            lemma_next_justified(ctx, pending, replies.last(), after);
        }
    }
}

/// No answer has the errors of a configuration.
proof fn lemma_no_such_error<E>(ctx: InitContext, stage: Stage, reply: Reply<E>)
    ensures
        spec_respond(ctx, stage, reply) matches Err(err) ==> !(err is InvalidUmask) && !(
        err is MissingSpec),
{
}

/// The process ends with an invalid umask only if that is the configured one and it has other
/// bits than a mode, and with missing arguments only if they are missing.
pub proof fn law_configuration_errors_are_true<E>(ctx: InitContext, replies: Seq<Reply<E>>)
    requires
        valid_run(ctx, replies),
    ensures
        run(ctx, replies).failure matches Some(InitProcessError::InvalidUmask(bits)) ==> {
            &&& ctx.process.user.umask == Some(bits)
            &&& bits & !0o7777u32 != 0
        },
        run(ctx, replies).failure matches Some(InitProcessError::MissingSpec(part)) ==> {
            &&& part is Args
            &&& !ctx.process.has_args
        },
{
    lemma_rejection(ctx, replies);
}

/// A payload whose umask is invalid or whose arguments are missing is not executed.
pub proof fn law_bad_configuration_is_not_executed<E>(ctx: InitContext, replies: Seq<Reply<E>>)
    requires
        valid_run(ctx, replies),
        executing(ctx, replies),
    ensures
        ctx.process.has_args,
        ctx.process.user.umask matches Some(bits) ==> bits & !0o7777u32 == 0,
{
    lemma_executing(ctx, replies);
    if !ctx.process.has_args {
        law_all_that_is_called_for(ctx, replies, Stage::MissingArgs);
        let i = choose|i: int|
            0 <= i < replies.len() && #[trigger] trace(ctx, replies)[i] == Stage::MissingArgs;
        lemma_asked(ctx, replies, i);
    }
    if let Some(bits) = ctx.process.user.umask {
        if bits & !0o7777u32 != 0 {
            lemma_tried(ctx, replies, Stage::InvalidUmask(bits));
        }
    }
}

} // verus!
