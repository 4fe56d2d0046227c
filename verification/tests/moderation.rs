use nationbot::ignore::{cmd_ignore, cmd_unignore, is_ignored, IgnoreList, IgnoreReply, UnignoreReply};
use nationbot::perms::{is_owner, OWNER_ID, WATCHED_USER_ID};
use nationbot::reactions::{reaction_add, ReactionAction, ReactionLog};

#[test]
fn ignore_then_unignore() {
    let mut list = IgnoreList { ignored_users: vec![] };
    assert_eq!(cmd_ignore(&mut list, OWNER_ID, "  314 ", None), IgnoreReply::Ignored(314));
    assert_eq!(list.ignored_users, vec!["314".to_string()]);
    assert!(is_ignored(&list, 314));
    assert!(!is_ignored(&list, 31));
    assert_eq!(cmd_ignore(&mut list, OWNER_ID, "314", None), IgnoreReply::AlreadyIgnored);
    assert_eq!(cmd_unignore(&mut list, OWNER_ID, "314", None), UnignoreReply::Unignored(314));
    assert!(!is_ignored(&list, 314));
    assert!(list.ignored_users.is_empty());
}

#[test]
fn unignore_removes_every_copy() {
    let mut list = IgnoreList { ignored_users: vec!["5".to_string(), "6".to_string(), "5".to_string()] };
    assert_eq!(cmd_unignore(&mut list, OWNER_ID, "<@5>", Some(5)), UnignoreReply::Unignored(5));
    assert_eq!(list.ignored_users, vec!["6".to_string()]);
}

#[test]
fn ignore_refusals() {
    let mut list = IgnoreList { ignored_users: vec![] };
    assert_eq!(cmd_ignore(&mut list, 2, "5", None), IgnoreReply::InvalidPerms);
    assert_eq!(cmd_ignore(&mut list, OWNER_ID, "", None), IgnoreReply::Usage);
    assert_eq!(cmd_unignore(&mut list, 2, "5", None), UnignoreReply::InvalidPerms);
    assert_eq!(cmd_unignore(&mut list, OWNER_ID, "abc", None), UnignoreReply::Usage);
    assert!(list.ignored_users.is_empty());
}

#[test]
fn ignore_key_is_canonical_decimal() {
    let mut list = IgnoreList { ignored_users: vec!["007".to_string()] };
    assert!(!is_ignored(&list, 7));
    assert_eq!(cmd_ignore(&mut list, OWNER_ID, "+007", None), IgnoreReply::Ignored(7));
    assert!(is_ignored(&list, 7));
}

#[test]
fn owner_is_recognised() {
    assert!(is_owner(OWNER_ID));
    assert!(!is_owner(OWNER_ID - 1));
}

fn flag() -> Option<String> {
    Some("\u{1F1EE}\u{1F1F1}".to_string())
}

#[test]
fn reactions_of_others_are_ignored() {
    let mut log = ReactionLog { times: vec![] };
    assert_eq!(reaction_add(&mut log, Some(1), &flag(), 10), ReactionAction::Ignore);
    assert_eq!(reaction_add(&mut log, None, &flag(), 10), ReactionAction::Ignore);
    assert!(log.times.is_empty());
}

#[test]
fn other_emoji_of_watched_user_is_deleted() {
    let mut log = ReactionLog { times: vec![] };
    assert_eq!(reaction_add(&mut log, Some(WATCHED_USER_ID), &Some("x".to_string()), 10), ReactionAction::Delete);
    assert_eq!(reaction_add(&mut log, Some(WATCHED_USER_ID), &None, 10), ReactionAction::Delete);
    assert!(log.times.is_empty());
}

#[test]
fn flag_limited_to_three_per_window() {
    let mut log = ReactionLog { times: vec![] };
    let u = Some(WATCHED_USER_ID);
    assert_eq!(reaction_add(&mut log, u, &flag(), 100), ReactionAction::Record);
    assert_eq!(reaction_add(&mut log, u, &flag(), 150), ReactionAction::Record);
    assert_eq!(reaction_add(&mut log, u, &flag(), 200), ReactionAction::Record);
    assert_eq!(reaction_add(&mut log, u, &flag(), 250), ReactionAction::Delete);
    assert_eq!(log.times, vec![100, 150, 200]);
    // at 400 the reaction from 100 has left the window
    assert_eq!(reaction_add(&mut log, u, &flag(), 400), ReactionAction::Record);
    assert_eq!(log.times, vec![150, 200, 400]);
    assert!(log.times.len() <= 3);
}
