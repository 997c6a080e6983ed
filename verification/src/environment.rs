//! What environment the payload is given, and which descriptors it inherits.

use crate::asked::{asked, executing, law_calls_have_their_stages, lemma_asked, lemma_executing};
use crate::call::{CallView, Reply, Variable};
use crate::causes::law_procedures_are_not_interrupted;
use crate::context::InitContext;
use crate::coverage::{law_all_that_is_called_for, law_called_for_comes_before};
use crate::guarantees::{
    agree, announces, finds_home, law_descriptors_are_announced, law_environment_is_kept,
    law_home_is_filled_in, law_home_is_not_made_up, law_nothing_is_announced_for_nothing,
};
use crate::order::law_no_stage_is_repeated;
use crate::run::{lemma_trace_len, lemma_trace_prefix, run, trace, valid_run};
use crate::stage::Stage;
use crate::text::{decimal, i32_value, lossy_text};
use vstd::prelude::*;

verus! {

/// How many descriptors a variable announces, if it announces any.
pub open spec fn announced_number(variable: Variable) -> Option<i32> {
    match variable {
        Variable::Present(text) => match i32_value(text@) {
            Some(number) => if number > 0 {
                Some(number)
            } else {
                None
            },
            None => None,
        },
        Variable::NotPresent => None,
        Variable::NotUnicode => None,
    }
}

/// Whether an environment announces to the payload what was announced to the init process,
/// and else is as configured.
pub open spec fn passes_on(
    envs: Map<Seq<char>, Seq<char>>,
    configured: Map<Seq<char>, Seq<char>>,
    variable: Variable,
) -> bool {
    match announced_number(variable) {
        Some(number) => {
            &&& envs.contains_key("LISTEN_FDS"@)
            &&& envs["LISTEN_FDS"@] == decimal(number as int)
            &&& envs.contains_key("LISTEN_PID"@)
            &&& envs["LISTEN_PID"@] == decimal(1)
        },
        None => {
            &&& agree(envs, configured, "LISTEN_FDS"@)
            &&& agree(envs, configured, "LISTEN_PID"@)
        },
    }
}

/// Whether an environment has the home directory that was found, if any was.
pub open spec fn has_home(envs: Map<Seq<char>, Seq<char>>, home: Option<Seq<u8>>) -> bool {
    match home {
        Some(path) => envs.contains_key("HOME"@) && envs["HOME"@] == lossy_text(path),
        None => !envs.contains_key("HOME"@),
    }
}

/// Whether an answer was that about `LISTEN_FDS`, and an environment has what follows from
/// it.
pub open spec fn announced_at<E>(
    ctx: InitContext,
    replies: Seq<Reply<E>>,
    i: int,
    envs: Map<Seq<char>, Seq<char>>,
) -> bool {
    &&& asked(ctx, replies, i) == CallView::ReadVariable("LISTEN_FDS"@)
    &&& replies[i] matches Reply::Variable(variable) && passes_on(envs, ctx.envs@, variable)
}

/// Whether an answer was that about the home directory of the user, and an environment has
/// what follows from it.
pub open spec fn home_at<E>(
    ctx: InitContext,
    replies: Seq<Reply<E>>,
    i: int,
    envs: Map<Seq<char>, Seq<char>>,
) -> bool {
    &&& asked(ctx, replies, i) == CallView::GetUserHome(ctx.process.user.uid)
    &&& match replies[i] {
        Reply::Home(Some(home)) => has_home(envs, Some(home@)),
        Reply::Home(None) => has_home(envs, None),
        _ => false,
    }
}

/// The call that gives the payload its environment gives it the configured variables, the
/// announced descriptors, and the home directory that was found where none is configured.
#[verifier::rlimit(50)]
pub proof fn law_payload_gets_its_environment<E>(
    ctx: InitContext,
    replies: Seq<Reply<E>>,
    j: int,
    envs: Map<Seq<char>, Seq<char>>,
)
    requires
        valid_run(ctx, replies),
        0 <= j < replies.len(),
        asked(ctx, replies, j) == CallView::SetupEnvs(envs),
    ensures
        forall|name: Seq<char>|
            name != "LISTEN_FDS"@ && name != "LISTEN_PID"@ && name != "HOME"@ ==> #[trigger] agree(
                envs,
                ctx.envs@,
                name,
            ),
        ctx.envs@.contains_key("HOME"@) ==> agree(envs, ctx.envs@, "HOME"@),
        !ctx.envs@.contains_key("HOME"@) ==> exists|i: int|
            0 <= i < j && #[trigger] home_at(ctx, replies, i, envs),
        exists|i: int| 0 <= i < j && #[trigger] announced_at(ctx, replies, i, envs),
{
    lemma_asked(ctx, replies, j);
    law_calls_have_their_stages(ctx, replies, j);
    lemma_trace_prefix(ctx, replies, j);
    lemma_trace_len(ctx, replies);
    let before = replies.take(j);
    assert(envs == run(ctx, before).envs);
    assert forall|name: Seq<char>|
        name != "LISTEN_FDS"@ && name != "LISTEN_PID"@ && name != "HOME"@ implies #[trigger] agree(
        envs,
        ctx.envs@,
        name,
    ) by {
        law_environment_is_kept(ctx, before, name);
    }
    if ctx.envs@.contains_key("HOME"@) {
        lemma_names(ctx, before);
    }
    law_called_for_comes_before(ctx, replies, j, Stage::ListenFds);
    let i = choose|i: int| 0 <= i < j && #[trigger] trace(ctx, replies)[i] == Stage::ListenFds;
    lemma_announced_at(ctx, replies, i, j);
    if !ctx.envs@.contains_key("HOME"@) {
        law_called_for_comes_before(ctx, replies, j, Stage::UserHome);
        let h = choose|h: int| 0 <= h < j && #[trigger] trace(ctx, replies)[h] == Stage::UserHome;
        lemma_home_at(ctx, replies, h, j);
    }
}

proof fn lemma_names<E>(ctx: InitContext, replies: Seq<Reply<E>>)
    requires
        valid_run(ctx, replies),
        ctx.envs@.contains_key("HOME"@),
    ensures
        agree(run(ctx, replies).envs, ctx.envs@, "HOME"@),
{
    reveal_strlit("HOME");
    reveal_strlit("LISTEN_FDS");
    reveal_strlit("LISTEN_PID");
    assert("HOME"@.len() == 4);
    assert("LISTEN_FDS"@.len() == 10);
    assert("LISTEN_PID"@.len() == 10);
    law_environment_is_kept(ctx, replies, "HOME"@);
}

proof fn lemma_announced_at<E>(ctx: InitContext, replies: Seq<Reply<E>>, i: int, j: int)
    requires
        valid_run(ctx, replies),
        0 <= i < j < replies.len(),
        trace(ctx, replies)[i] is ListenFds,
    ensures
        announced_at(ctx, replies, i, run(ctx, replies.take(j)).envs),
{
    let before = replies.take(j);
    lemma_trace_prefix(ctx, replies, j);
    lemma_trace_len(ctx, replies);
    assert(trace(ctx, before)[i] == trace(ctx, replies)[i]);
    assert(before[i] == replies[i]);
    lemma_listen_answer(ctx, replies, i);
    lemma_passes_on(ctx, before, i, replies[i]->Variable_0);
}

proof fn lemma_listen_answer<E>(ctx: InitContext, replies: Seq<Reply<E>>, i: int)
    requires
        valid_run(ctx, replies),
        0 <= i < replies.len(),
        trace(ctx, replies)[i] is ListenFds,
    ensures
        asked(ctx, replies, i) == CallView::ReadVariable("LISTEN_FDS"@),
        replies[i] is Variable,
{
    lemma_asked(ctx, replies, i);
    lemma_trace_prefix(ctx, replies, i);
}

proof fn lemma_only_listen<E>(ctx: InitContext, replies: Seq<Reply<E>>, i: int, k: int)
    requires
        valid_run(ctx, replies),
        0 <= i < replies.len(),
        0 <= k < replies.len(),
        trace(ctx, replies)[i] is ListenFds,
        trace(ctx, replies)[k] is ListenFds,
    ensures
        i == k,
{
    if k < i {
        law_no_stage_is_repeated(ctx, replies, k, i);
    } else if i < k {
        law_no_stage_is_repeated(ctx, replies, i, k);
    }
}

proof fn lemma_passes_on<E>(
    ctx: InitContext,
    replies: Seq<Reply<E>>,
    i: int,
    variable: Variable,
)
    requires
        valid_run(ctx, replies),
        0 <= i < replies.len(),
        trace(ctx, replies)[i] is ListenFds,
        replies[i] == Reply::<E>::Variable(variable),
    ensures
        passes_on(run(ctx, replies).envs, ctx.envs@, variable),
{
    if announces(trace(ctx, replies)[i], replies[i]) {
        law_descriptors_are_announced(ctx, replies, i);
    } else {
        assert forall|k: int| 0 <= k < replies.len() implies !announces(
            #[trigger] trace(ctx, replies)[k],
            replies[k],
        ) by {
            if trace(ctx, replies)[k] is ListenFds {
                lemma_only_listen(ctx, replies, i, k);
            }
        }
        law_nothing_is_announced_for_nothing(ctx, replies);
    }
}

#[verifier::rlimit(50)]
proof fn lemma_home_at<E>(ctx: InitContext, replies: Seq<Reply<E>>, i: int, j: int)
    requires
        valid_run(ctx, replies),
        0 <= i < j < replies.len(),
        trace(ctx, replies)[i] is UserHome,
        !ctx.envs@.contains_key("HOME"@),
    ensures
        home_at(ctx, replies, i, run(ctx, replies.take(j)).envs),
{
    let before = replies.take(j);
    lemma_asked(ctx, replies, i);
    lemma_trace_prefix(ctx, replies, i);
    lemma_trace_prefix(ctx, replies, j);
    lemma_trace_len(ctx, replies);
    lemma_trace_len(ctx, before);
    assert(trace(ctx, before)[i] == trace(ctx, replies)[i]);
    assert(before[i] == replies[i]);
    if let Reply::Home(Some(home)) = replies[i] {
        law_home_is_filled_in(ctx, before, i, home);
    } else {
        assert forall|k: int| 0 <= k < before.len() implies !finds_home(
            #[trigger] trace(ctx, before)[k],
            before[k],
        ) by {
            if trace(ctx, before)[k] is UserHome {
                if k < i {
                    law_no_stage_is_repeated(ctx, before, k, i);
                } else if i < k {
                    law_no_stage_is_repeated(ctx, before, i, k);
                }
            }
        }
        law_home_is_not_made_up(ctx, before);
    }
}

/// No payload is executed without its environment.
pub proof fn law_payload_has_an_environment<E>(ctx: InitContext, replies: Seq<Reply<E>>)
    requires
        valid_run(ctx, replies),
        executing(ctx, replies),
    ensures
        exists|i: int| 0 <= i < replies.len() && #[trigger] asked(ctx, replies, i) is SetupEnvs,
{
    lemma_executing(ctx, replies);
    law_all_that_is_called_for(ctx, replies, Stage::SetupEnvs);
    let i = choose|i: int|
        0 <= i < replies.len() && #[trigger] trace(ctx, replies)[i] == Stage::SetupEnvs;
    law_calls_have_their_stages(ctx, replies, i);
}

/// The variable that is asked for is `LISTEN_FDS`; right after it, all descriptors are closed
/// but the standard ones, those that the configuration preserves, and those that the variable
/// counts, where it is a number.
#[verifier::rlimit(50)]
pub proof fn law_descriptors_are_closed_but_the_announced<E>(
    ctx: InitContext,
    replies: Seq<Reply<E>>,
    j: int,
)
    requires
        valid_run(ctx, replies),
        0 <= j < replies.len(),
    ensures
        asked(ctx, replies, j) matches CallView::ReadVariable(name) ==> name == "LISTEN_FDS"@,
        asked(ctx, replies, j) matches CallView::CloseRange(total) ==> {
            &&& j > 0
            &&& asked(ctx, replies, j - 1) == CallView::ReadVariable("LISTEN_FDS"@)
            &&& match replies[j - 1] {
                Reply::Variable(Variable::Present(text)) => match i32_value(text@) {
                    Some(number) => total == ctx.preserve_fds + number,
                    None => total == ctx.preserve_fds,
                },
                Reply::Variable(_) => total == ctx.preserve_fds,
                _ => false,
            }
        },
{
    lemma_asked(ctx, replies, j);
    law_calls_have_their_stages(ctx, replies, j);
    if trace(ctx, replies)[j] is CloseRange {
        law_procedures_are_not_interrupted(ctx, replies, j);
        lemma_asked(ctx, replies, j - 1);
        lemma_trace_prefix(ctx, replies, j - 1);
    }
}

} // verus!
