use vstd::prelude::*;

verus! {

/// The owner of the bot: the only user whose commands change the automod
/// lists, the deletion tracker, the ignore list and the ledger directly.
pub const OWNER_ID: u64 = 1103203454123511878;

/// The user whose reactions are rate-limited.
pub const WATCHED_USER_ID: u64 = 1474908448784121896;

/// Whether `user` is the owner.
pub fn is_owner(user: u64) -> (b: bool)
    ensures
        b == (user == OWNER_ID),
{
    user == OWNER_ID
}

} // verus!
