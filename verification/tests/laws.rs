use nationbot::automod::{
    add_word, automod_triggered, cmd_addword, cmd_removeword, drop_word, lowered_text_hits,
    split_word_args, AutomodConfig, WordReply,
};
use nationbot::commands::{first_role_named_admin, ticket_permissions, OverwriteTarget, Role, TicketAccess};
use nationbot::keyed::Entry;
use nationbot::perms::{OWNER_ID, WATCHED_USER_ID};
use nationbot::reactions::{reaction_add, ReactionAction, ReactionLog};
use nationbot::text::is_whitespace;
use nationbot::tracker::{
    cmd_deletesentmessages, cmd_deletesentmessages_checked, cmd_undeletesentmessages,
    parse_duration, parse_duration_checked, parse_lowered_duration, DeleteReply, DeleteTracker,
    UndeleteReply,
};

fn s(x: &str) -> String {
    x.to_string()
}

fn automod_snapshot(cfg: &AutomodConfig) -> (Vec<String>, Vec<(String, Vec<String>)>) {
    (
        cfg.global.clone(),
        cfg.users.iter().map(|e| (e.key.clone(), e.value.clone())).collect(),
    )
}

fn tracker_snapshot(t: &DeleteTracker) -> Vec<(String, Option<i64>)> {
    t.tracked_users.iter().map(|e| (e.key.clone(), e.value)).collect()
}

#[test]
fn whitespace_table_matches_std() {
    for code in 0u32..=0x10FFFF {
        if let Some(c) = char::from_u32(code) {
            assert_eq!(is_whitespace(c), c.is_whitespace(), "U+{:04X}", code);
        }
    }
}

#[test]
fn lowered_text_hits_with_and_without_spaces() {
    assert!(lowered_text_hits("buy spam now", "spam"));
    assert!(lowered_text_hits("s p a m", "spam"));
    assert!(!lowered_text_hits("spa", "spam"));
    assert!(!lowered_text_hits("SPAM", "spam"));
    assert!(lowered_text_hits("anything", ""));
}

#[test]
fn split_word_args_keeps_case() {
    assert_eq!(split_word_args("global  BaD "), Some((s("global"), s("BaD"))));
    assert_eq!(split_word_args("42 x y"), Some((s("42"), s("x y"))));
    assert_eq!(split_word_args("global"), None);
}

#[test]
fn add_and_drop_word() {
    let mut cfg = AutomodConfig { global: vec![], users: vec![] };
    add_word(&mut cfg, &s("global"), &s("bad"));
    add_word(&mut cfg, &s("global"), &s("bad"));
    assert_eq!(cfg.global, vec![s("bad")]);
    add_word(&mut cfg, &s("7"), &s("worse"));
    assert_eq!(automod_snapshot(&cfg).1, vec![(s("7"), vec![s("worse")])]);
    drop_word(&mut cfg, &s("7"), &s("worse"));
    assert_eq!(automod_snapshot(&cfg).1, vec![(s("7"), vec![])]);
    drop_word(&mut cfg, &s("global"), &s("bad"));
    assert!(cfg.global.is_empty());
    drop_word(&mut cfg, &s("8"), &s("bad"));
    assert_eq!(automod_snapshot(&cfg).1, vec![(s("7"), vec![])]);
}

#[test]
fn removeword_undoes_addword_global_bad() {
    let mut cfg = AutomodConfig {
        global: vec![s("spam")],
        users: vec![Entry { key: s("*"), value: vec![s("scam")] }],
    };
    let before = automod_snapshot(&cfg);
    let added = cmd_addword(&mut cfg, OWNER_ID, "global bad");
    assert!(matches!(added, WordReply::Added { ref word, ref target } if word == "bad" && target == "global"));
    assert_eq!(cfg.global, vec![s("spam"), s("bad")]);
    let removed = cmd_removeword(&mut cfg, OWNER_ID, "global bad");
    assert!(matches!(removed, WordReply::Removed { ref word, ref target } if word == "bad" && target == "global"));
    assert_eq!(automod_snapshot(&cfg), before);
}

#[test]
fn addword_lowercases_the_word() {
    let mut cfg = AutomodConfig { global: vec![], users: vec![] };
    let r = cmd_addword(&mut cfg, OWNER_ID, "global BaD");
    assert!(matches!(r, WordReply::Added { ref word, .. } if word == "bad"));
}

#[test]
fn automod_ignores_case_and_spaces() {
    let cfg = AutomodConfig {
        global: vec![s("spam")],
        users: vec![Entry { key: s("5"), value: vec![s("Scam")] }],
    };
    for (a, b) in [("buy spam", "BUY   S P A M"), ("a scam", "AS CAM"), ("hello", "HeL Lo")] {
        assert_eq!(automod_triggered(&cfg, 5, a), automod_triggered(&cfg, 5, b));
    }
    assert!(automod_triggered(&cfg, 5, "AS CAM"));
    assert!(!automod_triggered(&cfg, 6, "AS CAM"));
    assert!(!automod_triggered(&cfg, 5, "HeL Lo"));
}

#[test]
fn lowered_durations() {
    assert_eq!(parse_lowered_duration("*"), Some(Some(-1)));
    assert_eq!(parse_lowered_duration("5m"), Some(Some(300)));
    assert_eq!(parse_lowered_duration("5M"), Some(None));
    assert_eq!(parse_lowered_duration("x"), Some(None));
    assert_eq!(parse_lowered_duration("9223372036854775807d"), None);
}

#[test]
fn star_means_forever() {
    assert_eq!(parse_duration("*"), Some(-1));
    assert_eq!(parse_duration_checked(" * "), Some(Some(-1)));
    assert_eq!(parse_duration_checked("-1"), Some(Some(-1)));
    assert_eq!(parse_duration_checked("9223372036854775807d"), None);
    assert_eq!(parse_duration_checked("soon"), Some(None));
}

#[test]
fn undelete_undoes_delete() {
    let mut t = DeleteTracker { tracked_users: vec![Entry { key: s("9"), value: None }] };
    let before = tracker_snapshot(&t);
    let target: u64 = 123456789;
    let r = cmd_deletesentmessages(&mut t, OWNER_ID, &format!("{} 5m", target), None, 1_000);
    assert_eq!(r, DeleteReply::Tracking { user: target, duration: 300 });
    assert_eq!(
        tracker_snapshot(&t),
        vec![(s("9"), None), (target.to_string(), Some(1_300))]
    );
    let u = cmd_undeletesentmessages(&mut t, OWNER_ID, &target.to_string(), None);
    assert_eq!(u, UndeleteReply::Stopped(target));
    assert_eq!(tracker_snapshot(&t), before);
}

#[test]
fn checked_delete_refuses_overflow() {
    let mut t = DeleteTracker { tracked_users: vec![] };
    let r = cmd_deletesentmessages_checked(&mut t, OWNER_ID, "5 9223372036854775807d", None, 0);
    assert_eq!(r, None);
    assert!(t.tracked_users.is_empty());
    let r = cmd_deletesentmessages_checked(&mut t, OWNER_ID, "5 1s", None, i64::MAX);
    assert_eq!(r, None);
    assert!(t.tracked_users.is_empty());
    let r = cmd_deletesentmessages_checked(&mut t, OWNER_ID, "5 1s", None, 10);
    assert_eq!(r, Some(DeleteReply::Tracking { user: 5, duration: 1 }));
    assert_eq!(tracker_snapshot(&t), vec![(s("5"), Some(11))]);
}

#[test]
fn admin_role_is_found_by_lowered_name() {
    let roles = vec![
        Role { id: 1, name: s("mod") },
        Role { id: 2, name: s("admin") },
        Role { id: 3, name: s("admin") },
    ];
    assert_eq!(first_role_named_admin(&roles), Some(2));
    assert_eq!(first_role_named_admin(&vec![Role { id: 4, name: s("Admin") }]), None);
}

#[test]
fn ticket_policy() {
    let p = ticket_permissions(10, 20, 30);
    assert_eq!(
        p,
        vec![
            TicketAccess {
                target: OverwriteTarget::Role(10),
                allow_view: false,
                allow_send: false,
                deny_view: true,
            },
            TicketAccess {
                target: OverwriteTarget::Member(20),
                allow_view: true,
                allow_send: true,
                deny_view: false,
            },
            TicketAccess {
                target: OverwriteTarget::Member(30),
                allow_view: true,
                allow_send: true,
                deny_view: false,
            },
        ]
    );
}

#[test]
fn rate_limit_over_a_history() {
    let flag = Some("\u{1F1EE}\u{1F1F1}".to_string());
    let mut log = ReactionLog { times: vec![] };
    let mut kept: Vec<u64> = vec![];
    let times: [u64; 12] = [0, 10, 20, 30, 100, 299, 300, 310, 320, 600, 601, 602];
    for &t in times.iter() {
        let a = reaction_add(&mut log, Some(WATCHED_USER_ID), &flag, t);
        if a == ReactionAction::Record {
            kept.push(t);
        }
        assert!(log.times.len() <= 3);
    }
    assert_eq!(kept, vec![0, 10, 20, 300, 310, 320, 600]);
    for end in 0..1000u64 {
        let n = kept.iter().filter(|&&x| end < x + 300 && x <= end).count();
        assert!(n <= 3, "window ending at {}", end);
    }
}
