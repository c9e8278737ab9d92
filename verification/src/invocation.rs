//! How Cargo was invoked: whether the command that runs this build asked Cargo
//! to stay off the network.
use vstd::prelude::*;

use crate::source::text_of;
use crate::text::str_eq;

verus! {

/// The argument asks Cargo to stay off the network.
pub open spec fn is_offline_flag(argument: Option<String>) -> bool {
    text_of(argument) == Some("--offline"@) || text_of(argument) == Some("--frozen"@)
}

/// No argument up to and including `i` is the `--` that ends Cargo's own options.
pub open spec fn before_separator(arguments: Seq<Option<String>>, i: int) -> bool {
    forall|j: int| 0 <= j <= i ==> text_of(#[trigger] arguments[j]) != Some("--"@)
}

/// Some argument before the first `--` is `--offline` or `--frozen`.
pub open spec fn asks_offline(arguments: Seq<Option<String>>) -> bool {
    exists|i: int|
        0 <= i < arguments.len() && is_offline_flag(#[trigger] arguments[i]) && before_separator(
            arguments,
            i,
        )
}

/// Cargo's own options (those before `--`) include `--offline` or `--frozen`.
/// An argument that is not Unicode is none of these.
pub fn offline_requested(arguments: &[Option<String>]) -> (r: bool)
    ensures
        r == asks_offline(arguments@),
{
    let mut i: usize = 0;
    while i < arguments.len()
        invariant
            i <= arguments@.len(),
            forall|j: int| 0 <= j < i ==> text_of(#[trigger] arguments@[j]) != Some("--"@),
            forall|j: int| 0 <= j < i ==> !is_offline_flag(#[trigger] arguments@[j]),
        decreases arguments@.len() - i,
    {
        let (separator, flag) = match &arguments[i] {
            Some(a) => (
                str_eq(a.as_str(), "--"),
                str_eq(a.as_str(), "--offline") || str_eq(a.as_str(), "--frozen"),
            ),
            None => (false, false),
        };
        if separator {
            assert forall|k: int|
                0 <= k < arguments@.len() && is_offline_flag(#[trigger] arguments@[k])
                    implies !before_separator(arguments@, k) by {
                if k >= i {
                    assert(text_of(arguments@[i as int]) == Some("--"@));
                }
            }
            return false;
        }
        if flag {
            assert(is_offline_flag(arguments@[i as int]));
            assert(before_separator(arguments@, i as int));
            return true;
        }
        i += 1;
    }
    false
}

/// Why the command that runs this build could not be read.
#[derive(Clone, Copy, Debug, PartialEq, Eq, Structural)]
pub enum InvocationError {
    ParentUnavailable,
}

/// Whether Cargo runs offline, from the command of the parent process (none
/// when that process could not be found).
pub fn offline(parent_command: Option<&[Option<String>]>) -> (r: Result<bool, InvocationError>)
    ensures
        match parent_command {
            Some(arguments) => r == Ok::<bool, InvocationError>(asks_offline(arguments@)),
            None => r == Err::<bool, InvocationError>(InvocationError::ParentUnavailable),
        },
{
    match parent_command {
        Some(arguments) => Ok(offline_requested(arguments)),
        None => Err(InvocationError::ParentUnavailable),
    }
}

} // verus!
