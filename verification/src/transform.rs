//! The name transformer: given the active action and a file's base name,
//! computes the new base name. Sequential renaming ignores the old base
//! name and builds `{prefix}_{n}` from the running counter.

use crate::casing::{
    first_letter_lower, first_letter_upper, lower_of, to_first_letter_lower_case,
    to_first_letter_upper_case, to_lower_case, to_uppper_case, upper_of,
};
use crate::config::Action;
use crate::naming::{sequential_file_name, sequential_name};
use vstd::prelude::*;

verus! {

/// The new base name for one file: the sequential name `{prefix}_{n}`
/// under `Action::Rename`, and the respective case mapping of `base`
/// under the four case actions.
pub open spec fn transformed_name(action: Action, base: Seq<char>, prefix: Seq<char>, n: nat) -> Seq<
    char,
> {
    match action {
        Action::Rename => sequential_name(prefix, n),
        Action::Uppercase => upper_of(base),
        Action::Lowercase => lower_of(base),
        Action::FirstLetterUppercase => first_letter_upper(base),
        Action::FirstLetterLowercase => first_letter_lower(base),
    }
}

/// Computes the new base name for one file under `action`, with `prefix`
/// and the counter `n` consulted only by sequential renaming.
pub fn transform_base_name(action: Action, base: &str, prefix: &str, n: u64) -> (r: String)
    ensures
        r@ == transformed_name(action, base@, prefix@, n as nat),
{
    match action {
        Action::Rename => sequential_file_name(prefix, n),
        Action::Uppercase => to_uppper_case(base),
        Action::Lowercase => to_lower_case(base),
        Action::FirstLetterUppercase => to_first_letter_upper_case(base),
        Action::FirstLetterLowercase => to_first_letter_lower_case(base),
    }
}

} // verus!
