//! What the init process makes of the answers that it gets.

use crate::call::{CallView, Reply, Variable};
use crate::context::InitContext;
use crate::error::{Errno, HostError, InitErrorView, InitProcessError};
use crate::procedures::{
    apply_rest_namespaces, do_pivot_root, masked_path, move_root, prepare_rootfs, readonly_path,
    reopen_dev_null, set_supplementary_gids, sync_seccomp, unmount_or_hide,
};
use crate::process::{acceptable, next_call};
use crate::run::{lemma_run_well_formed, run, valid_run};
use crate::stage::{
    rejects, spec_accepts, spec_call, spec_cleanup, spec_respond, stages_view, valid, Stage,
};
use crate::text::{decimal, i32_value, is_white_space, trimmed};
use vstd::prelude::*;

verus! {

/// Whether a text is white space alone.
pub open spec fn blank(text: Seq<char>) -> bool {
    forall|i: int| 0 <= i < text.len() ==> is_white_space(#[trigger] text[i])
}

/// Whether a text is a word, with nothing but white space around it.
pub open spec fn is_word(text: Seq<char>, word: Seq<char>) -> bool {
    exists|a: Seq<char>, b: Seq<char>|
        #![trigger a + word + b]
        blank(a) && blank(b) && text == a + word + b
}

proof fn lemma_trimmed_word(a: Seq<char>, word: Seq<char>, b: Seq<char>)
    requires
        blank(a),
        blank(b),
        word.len() > 0,
        !is_white_space(word.first()),
        !is_white_space(word.last()),
    ensures
        trimmed(a + word + b) == word,
    decreases a.len() + b.len(),
{
    let text = a + word + b;
    if a.len() > 0 {
        assert(text.first() == a[0]);
        assert(text.drop_first() =~= a.drop_first() + word + b);
        assert forall|i: int| 0 <= i < a.drop_first().len() implies is_white_space(
            #[trigger] a.drop_first()[i],
        ) by {
            assert(a.drop_first()[i] == a[i + 1]);
        }
        lemma_trimmed_word(a.drop_first(), word, b);
    } else if b.len() > 0 {
        assert(text.first() == word.first());
        assert(text.last() == b.last());
        assert(is_white_space(b[b.len() - 1]));
        assert(text.drop_last() =~= a + word + b.drop_last());
        assert forall|i: int| 0 <= i < b.drop_last().len() implies is_white_space(
            #[trigger] b.drop_last()[i],
        ) by {
            assert(b.drop_last()[i] == b[i]);
        }
        lemma_trimmed_word(a, word, b.drop_last());
    } else {
        assert(text =~= word);
    }
}

proof fn lemma_trimmed_parts(text: Seq<char>)
    ensures
        is_word(text, trimmed(text)),
    decreases text.len(),
{
    let word = trimmed(text);
    if text.len() > 0 && is_white_space(text.first()) {
        lemma_trimmed_parts(text.drop_first());
        let (a, b) = choose|a: Seq<char>, b: Seq<char>|
            #![trigger a + word + b]
            blank(a) && blank(b) && text.drop_first() == a + word + b;
        let longer = seq![text.first()] + a;
        assert(blank(longer)) by {
            assert forall|i: int| 0 <= i < longer.len() implies is_white_space(
                #[trigger] longer[i],
            ) by {
                if i > 0 {
                    assert(longer[i] == a[i - 1]);
                }
            }
        }
        assert(text.drop_first() == a + word + b);
        assert(text =~= seq![text.first()] + text.drop_first());
        assert(longer + word + b =~= seq![text.first()] + (a + word + b));
    } else if text.len() > 0 && is_white_space(text.last()) {
        lemma_trimmed_parts(text.drop_last());
        let (a, b) = choose|a: Seq<char>, b: Seq<char>|
            #![trigger a + word + b]
            blank(a) && blank(b) && text.drop_last() == a + word + b;
        let longer = b.push(text.last());
        assert(blank(longer)) by {
            assert forall|i: int| 0 <= i < longer.len() implies is_white_space(
                #[trigger] longer[i],
            ) by {
                if i < b.len() {
                    assert(longer[i] == b[i]);
                }
            }
        }
        assert(text.drop_last() == a + word + b);
        assert(text =~= text.drop_last().push(text.last()));
        assert(a + word + longer =~= (a + word + b).push(text.last()));
    } else {
        let none: Seq<char> = seq![];
        assert(blank(none));
        assert(text =~= none + word + none);
    }
}

/// The kernel denies that groups are set exactly if its file holds the word `deny`.
pub proof fn law_groups_are_denied_by_a_word(contents: Seq<char>)
    ensures
        set_supplementary_gids::denied(contents) <==> is_word(contents, "deny"@),
{
    reveal_strlit("deny");
    let word = "deny"@;
    assert(word.first() == 'd' && word.last() == 'y');
    if is_word(contents, word) {
        let (a, b) = choose|a: Seq<char>, b: Seq<char>|
            #![trigger a + word + b]
            blank(a) && blank(b) && contents == a + word + b;
        lemma_trimmed_word(a, word, b);
    }
    lemma_trimmed_parts(contents);
}

/// Why a call failed, if it did.
pub open spec fn fault<E>(reply: Reply<E>) -> Option<HostError<E>> {
    match reply {
        Reply::Outcome(Err(err)) => Some(err),
        Reply::Namespace(Err(err)) => Some(err),
        Reply::Userns(Err(err)) => Some(err),
        Reply::Descriptor(Err(err)) => Some(err),
        Reply::Device(Err(err)) => Some(err),
        Reply::Contents(Err(err)) => Some(err),
        Reply::Directory(Err(err)) => Some(err),
        Reply::Notify(Err(err)) => Some(err),
        _ => None,
    }
}

/// Whether an error is this error number.
pub open spec fn numbered<E>(err: HostError<E>, code: i32) -> bool {
    err matches HostError::Nix(errno) && errno.code == code
}

/// The failures that the process goes on from: what it closes may be closed already, new
/// privileges may not be known to the kernel, a path that is to be masked or made read-only
/// may be missing, and there are other ways to hide a directory, to get rid of a mount, and
/// to enter the working directory.
pub open spec fn tolerated<E>(stage: Stage, err: HostError<E>) -> bool {
    ||| stage is NoNewPrivileges
    ||| stage matches Stage::Seccomp(_, sync_seccomp::Step::Close { .. })
    ||| stage matches Stage::DevNull(reopen_dev_null::Step::Release { .. })
    ||| (stage matches Stage::ReadonlyPath(_, readonly_path::Step::Bind)) && numbered(err, 2)
    ||| (stage matches Stage::MaskedPath(_, masked_path::Step::DevNull)) && (numbered(err, 2)
        || numbered(err, 20))
    ||| (stage matches Stage::PivotRoot(
        do_pivot_root::Step::MoveRoot(move_root::Step::Sys(unmount_or_hide::Step::Unmount)),
    )) && numbered(err, 22)
    ||| (stage matches Stage::PivotRoot(
        do_pivot_root::Step::MoveRoot(move_root::Step::Proc(unmount_or_hide::Step::Unmount)),
    )) && numbered(err, 22)
    ||| stage is Chdir && numbered(err, 1)
}

/// The error that the failure of a call becomes, with its reason.
pub open spec fn error_of<E>(stage: Stage, err: HostError<E>) -> InitErrorView<E> {
    match stage {
        Stage::SetSid | Stage::StdioDup { .. } | Stage::StdioClose(_) | Stage::Chdir
        | Stage::ChdirAgain => InitProcessError::NixOther(err),
        Stage::Console(_) => InitProcessError::Tty(err),
        Stage::Scheduler(_) => InitProcessError::SchedSetattr(
            decimal((err->Nix_0).code as int),
        ),
        Stage::RestNamespaces(
            apply_rest_namespaces::Step::Hostname,
        ) => InitProcessError::SetHostname(err),
        Stage::RestNamespaces(
            apply_rest_namespaces::Step::Domainname,
        ) => InitProcessError::SetDomainname(err),
        Stage::RestNamespaces(_) => InitProcessError::Namespaces(err),
        Stage::CreateContainerHooks | Stage::StartContainerHooks => InitProcessError::Hooks(err),
        Stage::PrepareRootfs(prepare_rootfs::Step::Probe) => InitProcessError::Io(err),
        Stage::PrepareRootfs(prepare_rootfs::Step::Prepare { .. }) => InitProcessError::RootFS(err),
        Stage::PrepareRootfs(_) => InitProcessError::Namespaces(err),
        Stage::PivotRoot(do_pivot_root::Step::LookUp) => InitProcessError::Namespaces(err),
        Stage::PivotRoot(
            do_pivot_root::Step::MoveRoot(move_root::Step::EnterRootfs),
        ) => InitProcessError::NixOther(err),
        Stage::PivotRoot(
            do_pivot_root::Step::MoveRoot(move_root::Step::EnterRoot),
        ) => InitProcessError::NixOther(err),
        Stage::RootPropagation => InitProcessError::RootFS(err),
        Stage::DevNull(reopen_dev_null::Step::Open) => InitProcessError::ReopenDevNull(err),
        Stage::DevNull(_) => InitProcessError::NixOther(err),
        Stage::Sysctl(_) => InitProcessError::Sysctl(err),
        Stage::AppArmor => InitProcessError::AppArmor(err),
        Stage::ReadonlyPath(_, _) => InitProcessError::MountPathReadonly(err),
        Stage::MaskedPath(_, _) => InitProcessError::MountPathMasked(err),
        Stage::Gids(set_supplementary_gids::Step::ReadSetgroups) => InitProcessError::Io(err),
        Stage::Seccomp(_, sync_seccomp::Step::Initialize) => InitProcessError::Seccomp(err),
        Stage::Seccomp(_, _) => InitProcessError::Channel(err),
        Stage::VerifyCwd => if numbered(err, 2) {
            InitProcessError::InvalidCwd(err)
        } else {
            InitProcessError::NixOther(err)
        },
        Stage::Validate => InitProcessError::WorkloadValidation(err),
        Stage::SetupEnvs => InitProcessError::WorkloadSetEnvs(err),
        Stage::InitReady | Stage::CloseMainSender => InitProcessError::Channel(err),
        Stage::WaitForStart | Stage::CloseNotifyListener => InitProcessError::NotifyListener(err),
        Stage::Exec => InitProcessError::Workload(err),
        _ => InitProcessError::SyscallOther(err),
    }
}

/// The error that an answer is refused with though the call went well: the working directory
/// is not inside the container, or the kernel denies that groups are set.
pub open spec fn refusal<E>(stage: Stage, reply: Reply<E>) -> Option<InitErrorView<E>> {
    match (stage, reply) {
        (Stage::VerifyCwd, Reply::Directory(Ok(path))) => if path@.len() > 0 && path@[0] == 0x2f {
            None
        } else {
            Some(InitProcessError::InvalidCwd(HostError::Nix(Errno { code: 2 })))
        },
        (
            Stage::Gids(set_supplementary_gids::Step::ReadSetgroups),
            Reply::Contents(Ok(contents)),
        ) => if is_word(contents@, "deny"@) {
            Some(InitProcessError::SetGroupDisabled)
        } else {
            None
        },
        _ => None,
    }
}

/// Every failure that is not tolerated ends the process with its own error, which keeps the
/// reason; no other answer does, but for a refused one.
pub proof fn law_failures_have_their_errors<E>(ctx: InitContext, stage: Stage, reply: Reply<E>)
    requires
        valid(ctx, stage),
        spec_accepts(ctx, stage, reply),
    ensures
        match fault(reply) {
            Some(err) => if tolerated(stage, err) {
                spec_respond(ctx, stage, reply) is Ok
            } else {
                spec_respond(ctx, stage, reply) == Err::<Seq<Stage>, _>(error_of(stage, err))
            },
            None => match refusal(stage, reply) {
                Some(err) => spec_respond(ctx, stage, reply) == Err::<Seq<Stage>, _>(err),
                None => spec_respond(ctx, stage, reply) is Ok,
            },
        },
{
    if let Reply::Contents(Ok(contents)) = reply {
        law_groups_are_denied_by_a_word(contents@);
    }
}

/// Whether an answer can be given to a call.
pub open spec fn answers<E>(ctx: InitContext, call: CallView, reply: Reply<E>) -> bool {
    match call {
        CallView::GetNamespace(_) => reply is Namespace,
        CallView::IsInNewUserns => reply is Userns,
        CallView::Open(_) => reply is Descriptor,
        CallView::Fstat(_) => reply is Device,
        CallView::GetCwd => reply is Directory,
        CallView::GetUserHome(_) => reply is Home,
        CallView::InitializeSeccomp => reply is Notify,
        // The sum has to be in range.
        CallView::ReadVariable(_) => match reply {
            Reply::Variable(Variable::Present(text)) => match i32_value(text@) {
                Some(number) => i32::MIN <= ctx.preserve_fds + number <= i32::MAX,
                None => true,
            },
            Reply::Variable(_) => true,
            _ => false,
        },
        // Groups can not be set in the user namespace of an unprivileged user.
        CallView::ReadToString(_) => match reply {
            Reply::Contents(Ok(contents)) => {
                ||| is_word(contents@, "deny"@)
                ||| ctx.user_ns_config is None
                ||| ctx.user_ns_config->0.privileged
            },
            Reply::Contents(Err(_)) => true,
            _ => false,
        },
        // The kernel reports an error by its number.
        CallView::SchedSetattr { .. } => match reply {
            Reply::Outcome(Err(HostError::Other(_))) => false,
            Reply::Outcome(_) => true,
            _ => false,
        },
        // This never fails.
        CallView::Umask(_) => reply matches Reply::Outcome(Ok(_)),
        // This does not return if it goes well.
        CallView::Exec => reply matches Reply::Outcome(Err(_)),
        _ => reply is Outcome,
    }
}

proof fn lemma_accepts<E>(
    ctx: InitContext,
    envs: Map<Seq<char>, Seq<char>>,
    stage: Stage,
    reply: Reply<E>,
)
    requires
        !rejects(stage),
    ensures
        spec_accepts(ctx, stage, reply) <==> answers(ctx, spec_call(ctx, envs, stage), reply),
{
    match reply {
        Reply::Contents(Ok(contents)) => {
            law_groups_are_denied_by_a_word(contents@);
        },
        _ => {},
    }
}

/// The process goes on from every answer that the host can give.
pub proof fn law_answers_are_accepted<E>(
    ctx: InitContext,
    replies: Seq<Reply<E>>,
    call: CallView,
    reply: Reply<E>,
)
    requires
        valid_run(ctx, replies),
        next_call(ctx, run(ctx, replies)) == Some(call),
    ensures
        acceptable(ctx, run(ctx, replies), reply) <==> answers(ctx, call, reply),
{
    lemma_run_well_formed(ctx, replies);
    lemma_accepts(ctx, run(ctx, replies).envs, run(ctx, replies).pending[0], reply);
}

/// A stage that ends the process leaves something to do only if it is about a `/dev/null` that
/// is open, which is then released.
pub proof fn law_only_dev_null_is_cleaned_up(stage: Stage, dev: i32)
    ensures
        spec_cleanup(stage).contains(
            Stage::DevNull(reopen_dev_null::Step::Release { dev }),
        ) <==> (stage matches Stage::DevNull(step) && match step {
            reopen_dev_null::Step::Open => false,
            reopen_dev_null::Step::StatDevNull { dev: open } => open == dev,
            reopen_dev_null::Step::StatStdio { dev: open, .. } => open == dev,
            reopen_dev_null::Step::Redirect { dev: open, .. } => open == dev,
            reopen_dev_null::Step::Release { .. } => false,
        }),
        spec_cleanup(stage).len() <= 1,
        spec_cleanup(stage).len() == 1 ==> (spec_cleanup(stage)[0] matches Stage::DevNull(
            reopen_dev_null::Step::Release { .. },
        )),
{
    let release = Stage::DevNull(reopen_dev_null::Step::Release { dev });
    if let Stage::DevNull(step) = stage {
        if let Some(last) = reopen_dev_null::spec_release(step) {
            assert(spec_cleanup(stage)[0] == Stage::DevNull(last));
        }
    }
}

/// Specifications see the outcome of an answer as it is.
pub proof fn law_stages_are_seen_as_they_are<E>(stages: Vec<Stage>, err: InitProcessError<E>)
    ensures
        stages_view(Ok::<Vec<Stage>, InitProcessError<E>>(stages)) == Ok::<
            Seq<Stage>,
            InitErrorView<E>,
        >(stages@),
        stages_view(Err::<Vec<Stage>, InitProcessError<E>>(err)) == Err::<
            Seq<Stage>,
            InitErrorView<E>,
        >(err@),
{
}

} // verus!
