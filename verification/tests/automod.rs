use nationbot::automod::{automod_triggered, cmd_addword, cmd_removeword, AutomodConfig, WordReply};
use nationbot::keyed::Entry;
use nationbot::perms::OWNER_ID;

fn s(x: &str) -> String {
    x.to_string()
}

fn config() -> AutomodConfig {
    AutomodConfig {
        global: vec![s("Spam")],
        users: vec![
            Entry { key: s("*"), value: vec![s("scam")] },
            Entry { key: s("42"), value: vec![s("pineapple")] },
        ],
    }
}

#[test]
fn global_word_is_caught_case_insensitively() {
    let cfg = config();
    assert!(automod_triggered(&cfg, 7, "buy my SPAM now"));
    assert!(automod_triggered(&cfg, 7, "sPaM"));
}

#[test]
fn word_is_caught_across_spaces() {
    let cfg = config();
    assert!(automod_triggered(&cfg, 7, "s p a m"));
    assert!(automod_triggered(&cfg, 7, "this is a S c A m"));
}

#[test]
fn wildcard_list_applies_to_everyone() {
    let cfg = config();
    assert!(automod_triggered(&cfg, 1, "it is a scam"));
    assert!(automod_triggered(&cfg, 42, "it is a scam"));
}

#[test]
fn user_list_applies_only_to_that_user() {
    let cfg = config();
    assert!(automod_triggered(&cfg, 42, "pineapple pizza"));
    assert!(!automod_triggered(&cfg, 43, "pineapple pizza"));
}

#[test]
fn clean_text_passes() {
    let cfg = config();
    assert!(!automod_triggered(&cfg, 42, "hello there"));
    let empty = AutomodConfig { global: vec![], users: vec![] };
    assert!(!automod_triggered(&empty, 42, "anything at all"));
}

#[test]
fn empty_word_catches_everything() {
    let cfg = AutomodConfig { global: vec![s("")], users: vec![] };
    assert!(automod_triggered(&cfg, 1, "x"));
}

#[test]
fn addword_needs_owner() {
    let mut cfg = config();
    assert!(matches!(cmd_addword(&mut cfg, 5, "global word"), WordReply::InvalidPerms));
    assert_eq!(cfg.global, vec![s("Spam")]);
}

#[test]
fn addword_needs_two_words() {
    let mut cfg = config();
    assert!(matches!(cmd_addword(&mut cfg, OWNER_ID, "global"), WordReply::Usage));
    assert_eq!(cfg.global.len(), 1);
}

#[test]
fn addword_global_lowercases_and_trims() {
    let mut cfg = config();
    match cmd_addword(&mut cfg, OWNER_ID, "global   BadWord  ") {
        WordReply::Added { word, target } => {
            assert_eq!(word, "badword");
            assert_eq!(target, "global");
        }
        _ => panic!("expected Added"),
    }
    assert_eq!(cfg.global, vec![s("Spam"), s("badword")]);
    assert!(automod_triggered(&cfg, 9, "what a BADWORD"));
}

#[test]
fn addword_twice_keeps_one_copy() {
    let mut cfg = config();
    cmd_addword(&mut cfg, OWNER_ID, "global x");
    cmd_addword(&mut cfg, OWNER_ID, "global X");
    assert_eq!(cfg.global, vec![s("Spam"), s("x")]);
}

#[test]
fn addword_creates_user_list() {
    let mut cfg = config();
    cmd_addword(&mut cfg, OWNER_ID, "77 mango");
    assert_eq!(cfg.users.len(), 3);
    assert_eq!(cfg.users[2].key, "77");
    assert_eq!(cfg.users[2].value, vec![s("mango")]);
    assert!(automod_triggered(&cfg, 77, "MANGO!"));
    assert!(!automod_triggered(&cfg, 78, "MANGO!"));
}

#[test]
fn addword_extends_existing_user_list() {
    let mut cfg = config();
    cmd_addword(&mut cfg, OWNER_ID, "42 kiwi");
    assert_eq!(cfg.users[1].value, vec![s("pineapple"), s("kiwi")]);
    assert_eq!(cfg.users.len(), 2);
}

#[test]
fn removeword_global() {
    let mut cfg = config();
    cmd_addword(&mut cfg, OWNER_ID, "global extra");
    match cmd_removeword(&mut cfg, OWNER_ID, "global EXTRA") {
        WordReply::Removed { word, target } => {
            assert_eq!(word, "extra");
            assert_eq!(target, "global");
        }
        _ => panic!("expected Removed"),
    }
    assert_eq!(cfg.global, vec![s("Spam")]);
}

#[test]
fn removeword_user_and_missing_target() {
    let mut cfg = config();
    cmd_removeword(&mut cfg, OWNER_ID, "42 pineapple");
    assert_eq!(cfg.users[1].value, Vec::<String>::new());
    assert!(!automod_triggered(&cfg, 42, "pineapple"));
    cmd_removeword(&mut cfg, OWNER_ID, "999 pineapple");
    assert_eq!(cfg.users.len(), 2);
}

#[test]
fn removeword_needs_owner_and_args() {
    let mut cfg = config();
    assert!(matches!(cmd_removeword(&mut cfg, 1, "global spam"), WordReply::InvalidPerms));
    assert!(matches!(cmd_removeword(&mut cfg, OWNER_ID, "nospace"), WordReply::Usage));
    assert_eq!(cfg.global, vec![s("Spam")]);
}

#[test]
fn remove_undoes_add_on_existing_list() {
    let mut cfg = config();
    cmd_addword(&mut cfg, OWNER_ID, "* fresh");
    cmd_removeword(&mut cfg, OWNER_ID, "* fresh");
    assert_eq!(cfg.users[0].value, vec![s("scam")]);
}
