use vstd::prelude::*;

use crate::numbers::{decimal, decimal_chars, lemma_decimal_injective};
use crate::perms::{is_owner, OWNER_ID};
use crate::target::{resolve_target, resolve_target_spec};
use crate::text::{chars_of, string_of, trim_chars, trim_spec};
use crate::words::{holds_word, remove_word, texts, without_word};

verus! {

/// The users (ids in decimal) whose messages the bot does not answer.
pub struct IgnoreList {
    pub ignored_users: Vec<String>,
}

impl View for IgnoreList {
    type V = Seq<Seq<char>>;

    open spec fn view(&self) -> Seq<Seq<char>> {
        texts(self.ignored_users@)
    }
}

/// Whether the list holds the id of `user`.
pub open spec fn ignored_spec(list: Seq<Seq<char>>, user: u64) -> bool {
    list.contains(decimal(user as nat))
}

/// Whether the bot ignores `user_id`.
pub fn is_ignored(list: &IgnoreList, user_id: u64) -> (r: bool)
    ensures
        r == ignored_spec(list@, user_id),
{
    holds_word(&list.ignored_users, &string_of(&decimal_chars(user_id)))
}

/// The answer to `!ignore`.
#[derive(Debug, PartialEq, Eq)]
pub enum IgnoreReply {
    InvalidPerms,
    Usage,
    AlreadyIgnored,
    Ignored(u64),
}

/// What `!ignore` answers.
pub open spec fn ignore_reply_spec(
    list: Seq<Seq<char>>,
    author: u64,
    args: Seq<char>,
    first_mention: Option<u64>,
) -> IgnoreReply {
    if author != OWNER_ID {
        IgnoreReply::InvalidPerms
    } else {
        match resolve_target_spec(trim_spec(args), first_mention) {
            None => IgnoreReply::Usage,
            Some(user) => if ignored_spec(list, user) {
                IgnoreReply::AlreadyIgnored
            } else {
                IgnoreReply::Ignored(user)
            },
        }
    }
}

/// `!ignore <user>`: the owner has the bot ignore a user.
pub fn cmd_ignore(list: &mut IgnoreList, author: u64, args: &str, first_mention: Option<u64>) -> (r:
    IgnoreReply)
    ensures
        r == ignore_reply_spec(old(list)@, author, args@, first_mention),
        r matches IgnoreReply::Ignored(user) ==> final(list)@ == old(list)@.push(
            decimal(user as nat),
        ),
        !(r is Ignored) ==> final(list)@ == old(list)@,
{
    if !is_owner(author) {
        return IgnoreReply::InvalidPerms;
    }
    let user = match resolve_target(&trim_chars(&chars_of(args)), first_mention) {
        Some(u) => u,
        None => return IgnoreReply::Usage,
    };
    let key = string_of(&decimal_chars(user));
    if holds_word(&list.ignored_users, &key) {
        return IgnoreReply::AlreadyIgnored;
    }
    list.ignored_users.push(key);
    assert(list@ =~= old(list)@.push(decimal(user as nat)));
    IgnoreReply::Ignored(user)
}

/// The answer to `!unignore`.
#[derive(Debug, PartialEq, Eq)]
pub enum UnignoreReply {
    InvalidPerms,
    Usage,
    Unignored(u64),
}

/// What `!unignore` answers.
pub open spec fn unignore_reply_spec(author: u64, args: Seq<char>, first_mention: Option<u64>) -> UnignoreReply {
    if author != OWNER_ID {
        UnignoreReply::InvalidPerms
    } else {
        match resolve_target_spec(trim_spec(args), first_mention) {
            None => UnignoreReply::Usage,
            Some(user) => UnignoreReply::Unignored(user),
        }
    }
}

/// `!unignore <user>`: the owner has the bot answer a user again; every
/// copy of the user's id leaves the list.
pub fn cmd_unignore(list: &mut IgnoreList, author: u64, args: &str, first_mention: Option<u64>) -> (r:
    UnignoreReply)
    ensures
        r == unignore_reply_spec(author, args@, first_mention),
        r matches UnignoreReply::Unignored(user) ==> final(list)@ == without_word(
            old(list)@,
            decimal(user as nat),
        ),
        !(r is Unignored) ==> final(list)@ == old(list)@,
{
    if !is_owner(author) {
        return UnignoreReply::InvalidPerms;
    }
    let user = match resolve_target(&trim_chars(&chars_of(args)), first_mention) {
        Some(u) => u,
        None => return UnignoreReply::Usage,
    };
    let key = string_of(&decimal_chars(user));
    list.ignored_users = remove_word(&list.ignored_users, &key);
    UnignoreReply::Unignored(user)
}

/// After `!ignore` the user is ignored, and after `!unignore` the user is
/// not; the other users keep their standing in both cases.
pub proof fn lemma_ignore_unignore(list: Seq<Seq<char>>, user: u64, other: u64)
    ensures
        ignored_spec(list.push(decimal(user as nat)), user),
        !ignored_spec(without_word(list, decimal(user as nat)), user),
        other != user ==> ignored_spec(list.push(decimal(user as nat)), other) == ignored_spec(
            list,
            other,
        ),
        other != user ==> ignored_spec(without_word(list, decimal(user as nat)), other)
            == ignored_spec(list, other),
{
    let k = decimal(user as nat);
    let o = decimal(other as nat);
    lemma_decimal_injective(other, user);
    assert(list.push(k)[list.len() as int] == k);
    let f = without_word(list, k);
    if f.contains(k) {
        let i = choose|i: int| 0 <= i < f.len() && f[i] == k;
        assert(list.filter(|x: Seq<char>| x != k)[i] != k);
    }
    if other != user {
        if list.push(k).contains(o) {
            let i = choose|i: int| 0 <= i < list.push(k).len() && list.push(k)[i] == o;
            assert(i < list.len());
            assert(list[i] == o);
        }
        if list.contains(o) {
            let i = choose|i: int| 0 <= i < list.len() && list[i] == o;
            assert(list.push(k)[i] == o);
        }
        crate::words::lemma_filter_keeps(list, k, o);
    }
}

} // verus!
