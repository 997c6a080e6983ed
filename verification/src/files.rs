//! What the init process does to the files of the container.

use crate::asked::{asked, executing, law_calls_have_their_stages, lemma_asked, lemma_executing};
use crate::call::{CallView, MountView, Reply};
use crate::causes::law_answers_take_effect;
use crate::context::InitContext;
use crate::coverage::{has_entry, law_all_that_is_called_for, law_only_what_is_called_for};
use crate::error::HostError;
use crate::laws::{law_failure_ends_the_process, went_on};
use crate::procedures::{masked_path, readonly_path, sysctl, unmount_or_hide};
use crate::run::{lemma_pending_after, lemma_run_well_formed, lemma_trace_prefix, trace, valid_run};
use crate::stage::{spec_answer, spec_respond, Stage};
use vstd::prelude::*;
use vstd::utf8::{
    decode_utf8, encode_utf8, encode_utf8_decode_utf8, encode_utf8_valid_utf8, valid_utf8,
};

verus! {

/// Whether a call went well that has no result.
pub open spec fn succeeded<E>(reply: Reply<E>) -> bool {
    reply matches Reply::Outcome(Ok(_))
}

/// Whether a call failed with an error number.
pub open spec fn failed_with<E>(reply: Reply<E>, code: i32) -> bool {
    reply matches Reply::Outcome(Err(HostError::Nix(errno))) && errno.code == code
}

/// Whether a path is that of the file of a kernel parameter: the name with slashes for dots,
/// under `/proc/sys` unless it then starts with a slash.
pub open spec fn names_parameter(path: Seq<u8>, name: Seq<char>) -> bool {
    let slashes = Seq::new(
        name.len(),
        |i: int|
            if name[i] == '.' {
                '/'
            } else {
                name[i]
            },
    );
    if slashes.len() > 0 && slashes[0] == '/' {
        path == encode_utf8(slashes)
    } else {
        path == encode_utf8("/proc/sys/"@) + encode_utf8(slashes)
    }
}

/// Whether a call writes the whole value of a kernel parameter to its file.
pub open spec fn writes(call: CallView, name: Seq<char>, value: Seq<char>) -> bool {
    call matches CallView::WriteFile { path, contents } && names_parameter(path, name)
        && valid_utf8(contents) && decode_utf8(contents) == value
}

/// Whatever its name and its value, a parameter is written as it is.
pub proof fn law_parameter_is_written_whole(name: Seq<char>, value: Seq<char>)
    ensures
        writes(sysctl::spec_call(name, value), name, value),
{
    let slashes = Seq::new(
        name.len(),
        |i: int|
            if name[i] == '.' {
                '/'
            } else {
                name[i]
            },
    );
    assert(sysctl::slashed(name) =~= slashes);
    encode_utf8_valid_utf8(value);
    encode_utf8_decode_utf8(value);
    if name.len() > 0 && (name[0] == '.' || name[0] == '/') {
        sysctl::lemma_absolute_parameter(name);
    } else {
        sysctl::law_parameter_is_under_proc_sys(name);
    }
}

/// Two parameters that are written alike have the same value.
pub proof fn law_different_values_are_written_differently(
    name: Seq<char>,
    a: Seq<char>,
    b: Seq<char>,
)
    requires
        sysctl::spec_call(name, a) == sysctl::spec_call(name, b),
    ensures
        a == b,
{
    law_parameter_is_written_whole(name, a);
    law_parameter_is_written_whole(name, b);
}

/// A file is written only to set a kernel parameter of the configuration to its value.
pub proof fn law_only_parameters_are_written<E>(ctx: InitContext, replies: Seq<Reply<E>>, j: int)
    requires
        valid_run(ctx, replies),
        0 <= j < replies.len(),
        asked(ctx, replies, j) is WriteFile,
    ensures
        ctx.container_type is InitContainer,
        ctx.linux.sysctl is Some,
        exists|k: int|
            0 <= k < ctx.linux.sysctl->0@.len() && writes(
                asked(ctx, replies, j),
                (#[trigger] ctx.linux.sysctl->0@[k]).0@,
                ctx.linux.sysctl->0@[k].1@,
            ),
{
    lemma_asked(ctx, replies, j);
    law_calls_have_their_stages(ctx, replies, j);
    law_only_what_is_called_for(ctx, replies, j);
    let k = trace(ctx, replies)[j]->Sysctl_0 as int;
    let entry = ctx.linux.sysctl->0@[k];
    law_parameter_is_written_whole(entry.0@, entry.1@);
}

/// When the payload is about to be executed, every kernel parameter of the configuration has
/// been written.
pub proof fn law_every_parameter_is_written<E>(ctx: InitContext, replies: Seq<Reply<E>>, k: int)
    requires
        valid_run(ctx, replies),
        executing(ctx, replies),
        ctx.container_type is InitContainer,
        has_entry(ctx.linux.sysctl, k),
    ensures
        exists|i: int|
            0 <= i < replies.len() && writes(
                #[trigger] asked(ctx, replies, i),
                ctx.linux.sysctl->0@[k].0@,
                ctx.linux.sysctl->0@[k].1@,
            ) && succeeded(replies[i]),
{
    lemma_executing(ctx, replies);
    assert(ctx.linux.sysctl->0.len() == ctx.linux.sysctl->0@.len());
    let stage = Stage::Sysctl(k as usize);
    law_all_that_is_called_for(ctx, replies, stage);
    let i = choose|i: int| 0 <= i < replies.len() && #[trigger] trace(ctx, replies)[i] == stage;
    lemma_asked(ctx, replies, i);
    let entry = ctx.linux.sysctl->0@[k];
    law_parameter_is_written_whole(entry.0@, entry.1@);
    lemma_answer_kind(ctx, replies, i);
    lemma_went_on(ctx, replies, i);
    lemma_plain_answer(ctx, stage, replies[i]);
    assert(writes(asked(ctx, replies, i), entry.0@, entry.1@));
}

/// Whether a call mounts `/dev/null` over a path.
pub open spec fn covers(call: CallView, path: Seq<char>) -> bool {
    call == CallView::Mount(
        MountView {
            source: Some(encode_utf8("/dev/null"@)),
            target: encode_utf8(path),
            fstype: None,
            flags: 0x1000,
            data: None,
        },
    )
}

/// Whether a call mounts a read-only tmpfs over a path, with the label of the configuration
/// if there is one.
pub open spec fn buries(call: CallView, path: Seq<char>, label: Option<String>) -> bool {
    call == CallView::Mount(
        MountView {
            source: Some(encode_utf8("tmpfs"@)),
            target: encode_utf8(path),
            fstype: Some("tmpfs"@),
            flags: 0x01,
            data: Some(
                match label {
                    Some(label) => "context=\""@ + label@ + "\""@,
                    None => ""@,
                },
            ),
        },
    )
}

/// Whether a call mounts a path onto itself.
pub open spec fn rebinds(call: CallView, path: Seq<char>, flags: u64) -> bool {
    call == CallView::Mount(
        MountView {
            source: Some(encode_utf8(path)),
            target: encode_utf8(path),
            fstype: None,
            flags,
            data: None,
        },
    )
}

proof fn lemma_flags()
    ensures
        readonly_path::bind_flags() == 0x5000,
        readonly_path::remount_flags() == 0x102f,
{
    assert(0x1000u64 | 0x4000u64 == 0x5000u64) by (bit_vector);
    assert(0x02u64 | 0x04u64 | 0x08u64 | 0x1000u64 | 0x20u64 | 0x01u64 == 0x102fu64)
        by (bit_vector);
}

/// The mounts for a masked path of the configuration, or for a read-only one, are over just
/// that path.
pub proof fn law_mounts_are_over_their_path<E>(
    ctx: InitContext,
    replies: Seq<Reply<E>>,
    j: int,
    k: usize,
)
    requires
        valid_run(ctx, replies),
        0 <= j < replies.len(),
    ensures
        trace(ctx, replies)[j] == Stage::MaskedPath(k, masked_path::Step::DevNull) ==> has_entry(
            ctx.linux.masked_paths,
            k as int,
        ) && covers(asked(ctx, replies, j), ctx.linux.masked_paths->0@[k as int]@),
        trace(ctx, replies)[j] == Stage::MaskedPath(k, masked_path::Step::Tmpfs) ==> has_entry(
            ctx.linux.masked_paths,
            k as int,
        ) && buries(
            asked(ctx, replies, j),
            ctx.linux.masked_paths->0@[k as int]@,
            ctx.linux.mount_label,
        ),
        trace(ctx, replies)[j] == Stage::ReadonlyPath(k, readonly_path::Step::Bind) ==> has_entry(
            ctx.linux.readonly_paths,
            k as int,
        ) && rebinds(asked(ctx, replies, j), ctx.linux.readonly_paths->0@[k as int]@, 0x5000),
        trace(ctx, replies)[j] == Stage::ReadonlyPath(k, readonly_path::Step::Remount)
            ==> has_entry(ctx.linux.readonly_paths, k as int) && rebinds(
            asked(ctx, replies, j),
            ctx.linux.readonly_paths->0@[k as int]@,
            0x102f,
        ),
{
    lemma_asked(ctx, replies, j);
    lemma_flags();
}

/// How a masked path has been dealt with since an answer: `/dev/null` was mounted over it, or
/// it does not exist, or it is a directory and is under a tmpfs.
pub open spec fn masks<E>(
    ctx: InitContext,
    replies: Seq<Reply<E>>,
    i: int,
    path: Seq<char>,
) -> bool {
    &&& covers(asked(ctx, replies, i), path)
    &&& {
        ||| succeeded(replies[i])
        ||| failed_with(replies[i], 2)
        ||| {
            &&& failed_with(replies[i], 20)
            &&& i + 1 < replies.len()
            &&& buries(asked(ctx, replies, i + 1), path, ctx.linux.mount_label)
            &&& succeeded(replies[i + 1])
        }
    }
}

/// How a path has been made read-only since an answer, unless it does not exist.
pub open spec fn locks<E>(
    ctx: InitContext,
    replies: Seq<Reply<E>>,
    i: int,
    path: Seq<char>,
) -> bool {
    &&& rebinds(asked(ctx, replies, i), path, 0x5000)
    &&& {
        ||| failed_with(replies[i], 2)
        ||| {
            &&& succeeded(replies[i])
            &&& i + 1 < replies.len()
            &&& rebinds(asked(ctx, replies, i + 1), path, 0x102f)
            &&& succeeded(replies[i + 1])
        }
    }
}

/// A stage that makes a call without a result and has no rule of its own goes on only if the
/// call went well.
proof fn lemma_plain_answer<E>(ctx: InitContext, stage: Stage, reply: Reply<E>)
    requires
        stage is Sysctl || stage is ReadonlyRoot,
        reply is Outcome,
        spec_respond(ctx, stage, reply) is Ok,
    ensures
        succeeded(reply),
{
}

proof fn lemma_masked_answer<E>(ctx: InitContext, k: usize, reply: Reply<E>)
    requires
        reply is Outcome,
        spec_respond(ctx, Stage::MaskedPath(k, masked_path::Step::DevNull), reply) is Ok,
    ensures
        succeeded(reply) || failed_with(reply, 2) || failed_with(reply, 20),
        failed_with(reply, 20) ==> {
            let stages = spec_respond(
                ctx,
                Stage::MaskedPath(k, masked_path::Step::DevNull),
                reply,
            )->Ok_0;
            stages.len() > 0 && stages[0] == Stage::MaskedPath(k, masked_path::Step::Tmpfs)
        },
{
}

proof fn lemma_tmpfs_answer<E>(ctx: InitContext, k: usize, reply: Reply<E>)
    requires
        reply is Outcome,
        spec_respond(ctx, Stage::MaskedPath(k, masked_path::Step::Tmpfs), reply) is Ok,
    ensures
        succeeded(reply),
{
}

proof fn lemma_readonly_answer<E>(ctx: InitContext, k: usize, reply: Reply<E>)
    requires
        reply is Outcome,
        spec_respond(ctx, Stage::ReadonlyPath(k, readonly_path::Step::Bind), reply) is Ok,
    ensures
        succeeded(reply) || failed_with(reply, 2),
        succeeded(reply) ==> {
            let stages = spec_respond(
                ctx,
                Stage::ReadonlyPath(k, readonly_path::Step::Bind),
                reply,
            )->Ok_0;
            stages.len() > 0 && stages[0] == Stage::ReadonlyPath(k, readonly_path::Step::Remount)
        },
{
}

proof fn lemma_remount_answer<E>(ctx: InitContext, k: usize, reply: Reply<E>)
    requires
        reply is Outcome,
        spec_respond(ctx, Stage::ReadonlyPath(k, readonly_path::Step::Remount), reply) is Ok,
    ensures
        succeeded(reply),
{
}

/// An answer is of the kind that its stage gets.
pub proof fn lemma_answer_kind<E>(ctx: InitContext, replies: Seq<Reply<E>>, i: int)
    requires
        valid_run(ctx, replies),
        0 <= i < replies.len(),
    ensures
        replies[i].spec_kind() == spec_answer(trace(ctx, replies)[i]),
{
    lemma_trace_prefix(ctx, replies, i);
}

/// What an answer brings up has come up, if the payload is about to be executed.
pub proof fn lemma_went_on<E>(ctx: InitContext, replies: Seq<Reply<E>>, i: int)
    requires
        valid_run(ctx, replies),
        executing(ctx, replies),
        0 <= i < replies.len(),
    ensures
        spec_respond(ctx, trace(ctx, replies)[i], replies[i]) is Ok,
        ({
            let stages = spec_respond(ctx, trace(ctx, replies)[i], replies[i])->Ok_0;
            stages.len() > 0 && !(stages[0] is Exec) ==> i + 1 < replies.len() && trace(
                ctx,
                replies,
            )[i + 1] == stages[0]
        }),
{
    lemma_executing(ctx, replies);
    lemma_run_well_formed(ctx, replies);
    law_failure_ends_the_process(ctx, replies);
    assert(went_on(ctx, replies, replies.len() as int));
    lemma_trace_prefix(ctx, replies, i);
    if i + 1 == replies.len() {
        assert(replies.take(i) =~= replies.drop_last());
        lemma_pending_after(ctx, replies);
    } else {
        law_answers_take_effect(ctx, replies, i);
    }
}

/// When the payload is about to be executed, every masked path of the configuration is masked.
pub proof fn law_every_masked_path_is_masked<E>(ctx: InitContext, replies: Seq<Reply<E>>, k: int)
    requires
        valid_run(ctx, replies),
        executing(ctx, replies),
        has_entry(ctx.linux.masked_paths, k),
    ensures
        exists|i: int|
            0 <= i < replies.len() && #[trigger] masks(
                ctx,
                replies,
                i,
                ctx.linux.masked_paths->0@[k]@,
            ),
{
    lemma_executing(ctx, replies);
    assert(ctx.linux.masked_paths->0.len() == ctx.linux.masked_paths->0@.len());
    let n = k as usize;
    let stage = Stage::MaskedPath(n, masked_path::Step::DevNull);
    law_all_that_is_called_for(ctx, replies, stage);
    let i = choose|i: int| 0 <= i < replies.len() && #[trigger] trace(ctx, replies)[i] == stage;
    law_mounts_are_over_their_path(ctx, replies, i, n);
    lemma_answer_kind(ctx, replies, i);
    lemma_went_on(ctx, replies, i);
    lemma_masked_answer(ctx, n, replies[i]);
    if failed_with(replies[i], 20) {
        law_mounts_are_over_their_path(ctx, replies, i + 1, n);
        lemma_answer_kind(ctx, replies, i + 1);
        lemma_went_on(ctx, replies, i + 1);
        lemma_tmpfs_answer(ctx, n, replies[i + 1]);
    }
    assert(masks(ctx, replies, i, ctx.linux.masked_paths->0@[k]@));
}

/// When the payload is about to be executed, every read-only path of the configuration is
/// read-only.
pub proof fn law_every_readonly_path_is_locked<E>(ctx: InitContext, replies: Seq<Reply<E>>, k: int)
    requires
        valid_run(ctx, replies),
        executing(ctx, replies),
        has_entry(ctx.linux.readonly_paths, k),
    ensures
        exists|i: int|
            0 <= i < replies.len() && #[trigger] locks(
                ctx,
                replies,
                i,
                ctx.linux.readonly_paths->0@[k]@,
            ),
{
    lemma_executing(ctx, replies);
    assert(ctx.linux.readonly_paths->0.len() == ctx.linux.readonly_paths->0@.len());
    let n = k as usize;
    let stage = Stage::ReadonlyPath(n, readonly_path::Step::Bind);
    law_all_that_is_called_for(ctx, replies, stage);
    let i = choose|i: int| 0 <= i < replies.len() && #[trigger] trace(ctx, replies)[i] == stage;
    law_mounts_are_over_their_path(ctx, replies, i, n);
    lemma_answer_kind(ctx, replies, i);
    lemma_went_on(ctx, replies, i);
    lemma_readonly_answer(ctx, n, replies[i]);
    if succeeded(replies[i]) {
        law_mounts_are_over_their_path(ctx, replies, i + 1, n);
        lemma_answer_kind(ctx, replies, i + 1);
        lemma_went_on(ctx, replies, i + 1);
        lemma_remount_answer(ctx, n, replies[i + 1]);
    }
    assert(locks(ctx, replies, i, ctx.linux.readonly_paths->0@[k]@));
}

/// Where the configuration asks for it, the root has been remounted read-only, in place, when
/// the payload is about to be executed.
pub proof fn law_root_is_locked<E>(ctx: InitContext, replies: Seq<Reply<E>>)
    requires
        valid_run(ctx, replies),
        executing(ctx, replies),
        ctx.rootfs_ro,
    ensures
        exists|i: int|
            0 <= i < replies.len() && #[trigger] asked(ctx, replies, i) == CallView::Mount(
                MountView {
                    source: None,
                    target: encode_utf8("/"@),
                    fstype: None,
                    flags: 0x1021,
                    data: None,
                },
            ) && succeeded(replies[i]),
{
    lemma_executing(ctx, replies);
    law_all_that_is_called_for(ctx, replies, Stage::ReadonlyRoot);
    let i = choose|i: int|
        0 <= i < replies.len() && #[trigger] trace(ctx, replies)[i] == Stage::ReadonlyRoot;
    lemma_asked(ctx, replies, i);
    lemma_answer_kind(ctx, replies, i);
    lemma_went_on(ctx, replies, i);
    lemma_plain_answer(ctx, Stage::ReadonlyRoot, replies[i]);
    assert(0x01u64 | 0x20u64 | 0x1000u64 == 0x1021u64) by (bit_vector);
}

/// Whatever the path, given by its bytes, it is mounted onto itself to make it read-only.
pub proof fn law_any_path_is_rebound(path: Seq<u8>)
    ensures
        readonly_path::spec_call(readonly_path::Step::Bind, path) == CallView::Mount(
            MountView { source: Some(path), target: path, fstype: None, flags: 0x5000, data: None },
        ),
        readonly_path::spec_call(readonly_path::Step::Remount, path) == CallView::Mount(
            MountView { source: Some(path), target: path, fstype: None, flags: 0x102f, data: None },
        ),
{
    lemma_flags();
}

/// Whatever the path, given by its bytes, and the label, the path is what is mounted over to
/// mask it, and the label stands in quotes in the data of a tmpfs.
pub proof fn law_any_path_is_masked(path: Seq<u8>, label: Seq<char>)
    ensures
        forall|any: Option<Seq<char>>| #[trigger]
            masked_path::spec_call(masked_path::Step::DevNull, path, any) == CallView::Mount(
                MountView {
                    source: Some(encode_utf8("/dev/null"@)),
                    target: path,
                    fstype: None,
                    flags: 0x1000,
                    data: None,
                },
            ),
        masked_path::spec_call(masked_path::Step::Tmpfs, path, None) == CallView::Mount(
            MountView {
                source: Some(encode_utf8("tmpfs"@)),
                target: path,
                fstype: Some("tmpfs"@),
                flags: 0x01,
                data: Some(""@),
            },
        ),
        masked_path::spec_call(masked_path::Step::Tmpfs, path, Some(label)) == CallView::Mount(
            MountView {
                source: Some(encode_utf8("tmpfs"@)),
                target: path,
                fstype: Some("tmpfs"@),
                flags: 0x01,
                data: Some("context=\""@ + label + "\""@),
            },
        ),
{
}

/// Whatever the target, it is detached or hidden under an empty tmpfs.
pub proof fn law_any_target_is_detached_or_hidden(target: Seq<u8>)
    ensures
        unmount_or_hide::spec_call(unmount_or_hide::Step::Unmount, target) == (CallView::Umount2 {
            target,
            flags: 2,
        }),
        unmount_or_hide::spec_call(unmount_or_hide::Step::Hide, target) == CallView::Mount(
            MountView {
                source: None,
                target,
                fstype: Some("tmpfs"@),
                flags: 0x01,
                data: Some("size=0k"@),
            },
        ),
{
}

} // verus!
