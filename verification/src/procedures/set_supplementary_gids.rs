//! Sets the supplementary groups of the payload, where the kernel lets the process do so.
//!
//! In a user namespace that an unprivileged user made, `setgroups(2)` is disabled for good
//! before the gid mapping is written, so additional groups can never work there; such a
//! configuration is turned down before the init process starts. A privileged user need
//! not disable it, and has had the groups checked against the mapping.

use crate::call::{result_view, Call, CallView, Reply, ReplyKind};
use crate::context::{User, UserNamespaceConfig};
use crate::error::{InitErrorView, InitProcessError};
use crate::path::FsPath;
use crate::text::{trim, trimmed};
use vstd::prelude::*;
use vstd::utf8::encode_utf8;

verus! {

/// The steps of the procedure.
#[derive(Debug, Clone, Copy, PartialEq, Eq, Structural)]
pub enum Step {
    ReadSetgroups,
    SetGroups,
}

/// The groups that the configuration lists.
pub open spec fn gids(user: User) -> Seq<u32> {
    match user.additional_gids {
        Some(gids) => gids@,
        None => seq![],
    }
}

/// The first step, if there are groups to set.
pub open spec fn spec_start(user: User) -> Option<Step> {
    if gids(user).len() > 0 {
        Some(Step::ReadSetgroups)
    } else {
        None
    }
}

/// The kind of answer that a step gets.
pub open spec fn answer(step: Step) -> ReplyKind {
    match step {
        Step::ReadSetgroups => ReplyKind::Contents,
        Step::SetGroups => ReplyKind::Outcome,
    }
}

/// Whether the kernel has disabled `setgroups(2)`, by the contents of its file.
pub open spec fn denied(contents: Seq<char>) -> bool {
    trimmed(contents) == "deny"@
}

/// Whether the step can go on from a reply: not where the groups could be set in a user
/// namespace that an unprivileged user made.
pub open spec fn spec_admits<E>(
    step: Step,
    user_ns_config: Option<UserNamespaceConfig>,
    reply: Reply<E>,
) -> bool {
    match (step, reply) {
        (Step::ReadSetgroups, Reply::Contents(Ok(contents))) => {
            ||| denied(contents@)
            ||| user_ns_config is None
            ||| user_ns_config->0.privileged
        },
        _ => true,
    }
}

/// The call of a step.
pub open spec fn spec_call(step: Step, gids: Seq<u32>) -> CallView {
    match step {
        Step::ReadSetgroups => CallView::ReadToString(encode_utf8("/proc/self/setgroups"@)),
        Step::SetGroups => CallView::SetGroups(gids),
    }
}

/// The groups are set unless the kernel has disabled it.
pub open spec fn spec_reply<E>(step: Step, reply: Reply<E>) -> Result<
    Option<Step>,
    InitErrorView<E>,
> {
    match (step, reply) {
        (Step::ReadSetgroups, Reply::Contents(Ok(contents))) => if denied(contents@) {
            Err(InitProcessError::SetGroupDisabled)
        } else {
            Ok(Some(Step::SetGroups))
        },
        (Step::ReadSetgroups, Reply::Contents(Err(err))) => Err(InitProcessError::Io(err)),
        (Step::SetGroups, Reply::Outcome(Err(err))) => Err(InitProcessError::SyscallOther(err)),
        _ => Ok(None),
    }
}

/// The first step, if there are groups to set.
pub fn start(user: &User) -> (step: Option<Step>)
    ensures
        step == spec_start(*user),
{
    match &user.additional_gids {
        Some(additional_gids) if additional_gids.len() > 0 => Some(Step::ReadSetgroups),
        _ => None,
    }
}

/// The call of a step.
pub fn call(step: Step, user: &User) -> (call: Call)
    ensures
        call@ == spec_call(step, gids(*user)),
{
    match step {
        Step::ReadSetgroups => Call::ReadToString(FsPath::new("/proc/self/setgroups")),
        Step::SetGroups => {
            let gids: Vec<u32> = match &user.additional_gids {
                Some(additional_gids) => additional_gids.clone(),
                None => Vec::new(),
            };
            assert(gids@ =~= self::gids(*user));
            Call::SetGroups(gids)
        },
    }
}

fn is_denied(contents: &String) -> (b: bool)
    ensures
        b == denied(contents@),
{
    trim(contents.as_str()) == "deny".to_owned()
}

/// Whether the answer can be gone on from.
pub fn admits<E>(
    step: Step,
    user_ns_config: &Option<UserNamespaceConfig>,
    received: &Reply<E>,
) -> (b: bool)
    ensures
        b == spec_admits(step, *user_ns_config, *received),
{
    match (step, received) {
        (Step::ReadSetgroups, Reply::Contents(Ok(contents))) => is_denied(contents) || (
        match user_ns_config {
            Some(config) => config.privileged,
            None => true,
        }),
        _ => true,
    }
}

/// What follows from the answer to a step: the next step, if there is one, or an error.
pub fn reply<E>(step: Step, user_ns_config: &Option<UserNamespaceConfig>, received: Reply<E>) -> (
    next: Result<Option<Step>, InitProcessError<E>>)
    requires
        received.spec_kind() == answer(step),
        spec_admits(step, *user_ns_config, received),
    ensures
        result_view(next) == spec_reply(step, received),
{
    match (step, received) {
        (Step::ReadSetgroups, Reply::Contents(Ok(contents))) => if is_denied(&contents) {
            Err(InitProcessError::SetGroupDisabled)
        } else {
            Ok(Some(Step::SetGroups))
        },
        (Step::ReadSetgroups, Reply::Contents(Err(err))) => Err(InitProcessError::Io(err)),
        (Step::SetGroups, Reply::Outcome(Err(err))) => Err(InitProcessError::SyscallOther(err)),
        _ => Ok(None),
    }
}

} // verus!
