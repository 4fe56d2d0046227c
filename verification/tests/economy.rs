use nationbot::economy::{
    cmd_addgdp, cmd_checkbalance, cmd_give, cmd_pay, cmd_remove, pay_args, settle_pay, AmountReply,
    LedgerChange, PayArgs, PayRequest, PaySettlement,
};
use nationbot::members::{
    all_readable, country_of, is_member, is_registered_country, search_readable, Member, OneOrMany,
};
use nationbot::perms::OWNER_ID;

fn members() -> Vec<Member> {
    vec![
        Member { id: OneOrMany::One("11".to_string()), country: "Atlantis".to_string() },
        Member { id: OneOrMany::Many(vec!["22".to_string(), "33".to_string()]), country: "Lemuria".to_string() },
    ]
}

#[test]
fn to_ids_parses_one_or_many() {
    assert_eq!(OneOrMany::One("15".to_string()).to_ids(), vec![15]);
    assert_eq!(OneOrMany::Many(vec!["1".to_string(), "+2".to_string()]).to_ids(), vec![1, 2]);
    assert_eq!(OneOrMany::Many(vec![]).to_ids(), Vec::<u64>::new());
}

#[test]
fn country_lookup() {
    let ms = members();
    assert_eq!(country_of(&ms, 11), Some("Atlantis".to_string()));
    assert_eq!(country_of(&ms, 33), Some("Lemuria".to_string()));
    assert_eq!(country_of(&ms, 44), None);
    assert!(is_member(&ms, 22));
    assert!(!is_member(&ms, 23));
    assert!(is_registered_country(&ms, &"Lemuria".to_string()));
    assert!(!is_registered_country(&ms, &"lemuria".to_string()));
}

#[test]
fn first_member_wins() {
    let ms = vec![
        Member { id: OneOrMany::One("5".to_string()), country: "A".to_string() },
        Member { id: OneOrMany::One("5".to_string()), country: "B".to_string() },
    ];
    assert_eq!(country_of(&ms, 5), Some("A".to_string()));
}

#[test]
fn give_remove_addgdp() {
    match cmd_give(OWNER_ID, "100  Atlantis ") {
        AmountReply::Update { change, amount, country } => {
            assert_eq!(change, LedgerChange::AddBalance);
            assert_eq!(amount, 100);
            assert_eq!(country, "Atlantis");
        }
        _ => panic!("expected Update"),
    }
    match cmd_remove(OWNER_ID, "-5 Lemuria") {
        AmountReply::Update { change, amount, .. } => {
            assert_eq!(change, LedgerChange::RemoveBalance);
            assert_eq!(amount, -5);
        }
        _ => panic!("expected Update"),
    }
    match cmd_addgdp(OWNER_ID, "7 New Atlantis") {
        AmountReply::Update { change, amount, country } => {
            assert_eq!(change, LedgerChange::AddGdp);
            assert_eq!(amount, 7);
            assert_eq!(country, "New Atlantis");
        }
        _ => panic!("expected Update"),
    }
}

#[test]
fn amount_command_refusals() {
    assert!(matches!(cmd_give(1, "100 Atlantis"), AmountReply::InvalidPerms));
    assert!(matches!(cmd_give(OWNER_ID, "100"), AmountReply::Silent));
    assert!(matches!(cmd_remove(OWNER_ID, "ten Atlantis"), AmountReply::InvalidAmount));
    assert!(matches!(cmd_addgdp(OWNER_ID, " 10 Atlantis"), AmountReply::InvalidAmount));
}

#[test]
fn pay_arguments() {
    match pay_args("50 Lemuria ") {
        PayArgs::Pay { amount, target } => {
            assert_eq!(amount, 50);
            assert_eq!(target, "Lemuria");
        }
        _ => panic!("expected Pay"),
    }
    assert!(matches!(pay_args("50"), PayArgs::Silent));
    assert!(matches!(pay_args("fifty Lemuria"), PayArgs::InvalidAmount));
}

#[test]
fn pay_member_step() {
    let ms = members();
    match cmd_pay(&ms, 11, 50, "Lemuria".to_string()) {
        PayRequest::Check { amount, sender, target } => {
            assert_eq!(amount, 50);
            assert_eq!(sender, "Atlantis");
            assert_eq!(target, "Lemuria");
        }
        _ => panic!("expected Check"),
    }
    assert!(matches!(cmd_pay(&ms, 99, 50, "Lemuria".to_string()), PayRequest::NoCountry));
    match cmd_pay(&ms, 22, 50, "Mu".to_string()) {
        PayRequest::InvalidTarget(t) => assert_eq!(t, "Mu"),
        _ => panic!("expected InvalidTarget"),
    }
}

#[test]
fn member_ids_readable() {
    let ms = vec![
        Member { id: OneOrMany::One("11".to_string()), country: "A".to_string() },
        Member { id: OneOrMany::Many(vec!["x".to_string()]), country: "B".to_string() },
    ];
    assert!(search_readable(&ms, 11));
    assert!(!search_readable(&ms, 12));
    assert!(!all_readable(&ms));
    assert!(all_readable(&members()));
}

#[test]
fn pay_settlement() {
    assert_eq!(settle_pay(50, 100), PaySettlement::Transfer);
    assert_eq!(settle_pay(100, 100), PaySettlement::Transfer);
    assert_eq!(settle_pay(101, 100), PaySettlement::Insufficient(100));
    assert_eq!(settle_pay(0, 100), PaySettlement::Insufficient(100));
    assert_eq!(settle_pay(-5, 100), PaySettlement::Insufficient(100));
}

#[test]
fn checkbalance_country() {
    let ms = members();
    assert_eq!(cmd_checkbalance(&ms, 22), Some("Lemuria".to_string()));
    assert_eq!(cmd_checkbalance(&ms, 1), None);
}
