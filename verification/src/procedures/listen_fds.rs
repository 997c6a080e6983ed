//! Socket activation: descriptors that systemd has opened for the payload are kept open
//! and announced to it.

use crate::call::Variable;
use crate::envs::Envs;
use crate::text::{decimal, i32_to_string, i32_value, parse_i32};
use vstd::prelude::*;

verus! {

/// How many descriptors `LISTEN_FDS` announces: none where it is not set or is not a
/// number.
pub open spec fn announced(variable: Variable) -> i32 {
    match variable {
        Variable::Present(text) => match i32_value(text@) {
            Some(number) => number,
            None => 0,
        },
        _ => 0,
    }
}

/// Whether the number of descriptors to keep is in range.
pub open spec fn spec_admits(preserve_fds: i32, variable: Variable) -> bool {
    i32::MIN <= preserve_fds + announced(variable) <= i32::MAX
}

/// How many descriptors above the standard ones stay open.
pub open spec fn kept_open(preserve_fds: i32, variable: Variable) -> i32 {
    (preserve_fds + announced(variable)) as i32
}

/// The environment with the descriptors announced to the payload, which is process 1 of
/// its namespace. Where there are none, nothing is set.
pub open spec fn spec_envs(
    envs: Map<Seq<char>, Seq<char>>,
    variable: Variable,
) -> Map<Seq<char>, Seq<char>> {
    if announced(variable) > 0 {
        envs.insert("LISTEN_FDS"@, decimal(announced(variable) as int)).insert(
            "LISTEN_PID"@,
            decimal(1),
        )
    } else {
        envs
    }
}

fn listen_fds(variable: &Variable) -> (number: i32)
    ensures
        number == announced(*variable),
{
    match variable {
        Variable::Present(text) => match parse_i32(text.as_str()) {
            Some(number) => number,
            None => 0,
        },
        Variable::NotPresent => 0,
        Variable::NotUnicode => 0,
    }
}

/// Whether the answer can be gone on from.
pub fn admits(preserve_fds: i32, variable: &Variable) -> (b: bool)
    ensures
        b == spec_admits(preserve_fds, *variable),
{
    preserve_fds.checked_add(listen_fds(variable)).is_some()
}

/// Announces the descriptors in the environment, and counts those to keep.
pub fn keep_open(preserve_fds: i32, variable: &Variable, envs: &mut Envs) -> (total: i32)
    requires
        spec_admits(preserve_fds, *variable),
    ensures
        total == kept_open(preserve_fds, *variable),
        final(envs)@ == spec_envs(old(envs)@, *variable),
{
    let number: i32 = listen_fds(variable);
    if number > 0 {
        envs.insert("LISTEN_FDS".to_owned(), i32_to_string(number));
        envs.insert("LISTEN_PID".to_owned(), i32_to_string(1));
    }
    preserve_fds + number
}

} // verus!
