use vstd::prelude::*;

use crate::numbers::{parse_u64, parse_u64_spec};

verus! {

/// The user a moderation command names: the id written in `text` when it
/// is a number, else the first user mentioned in the message.
pub open spec fn resolve_target_spec(text: Seq<char>, first_mention: Option<u64>) -> Option<u64> {
    match parse_u64_spec(text) {
        Some(id) => Some(id),
        None => first_mention,
    }
}

/// Resolves the user a moderation command names.
pub fn resolve_target(text: &Vec<char>, first_mention: Option<u64>) -> (r: Option<u64>)
    ensures
        r == resolve_target_spec(text@, first_mention),
{
    match parse_u64(text) {
        Some(id) => Some(id),
        None => first_mention,
    }
}

} // verus!
