use nationbot::commands::{
    arsenal_entry, arsenal_file_path, cmd_demote, cmd_rng, cmd_save, cmd_savearsenal, cmd_weather,
    find_admin_role, has_role, is_ticket_channel, rng_outcome, ticket_channel_name, timeout_until,
    weather_for, ArsenalDecision, DemoteStart, Role, RngRoll, SaveDecision, Weather,
};
use nationbot::members::{Member, OneOrMany};
use nationbot::perms::OWNER_ID;
use nationbot::schedule::{seconds_until_noon, TimeOfDay};

fn s(x: &str) -> String {
    x.to_string()
}

fn members() -> Vec<Member> {
    vec![Member { id: OneOrMany::One(s("11")), country: s("Atlantis") }]
}

#[test]
fn rng_rolls_in_range() {
    for _ in 0..50 {
        let r = cmd_rng(" 30 ").unwrap();
        assert_eq!(r.chance, 30);
        assert!(1 <= r.roll && r.roll <= 100);
        assert_eq!(r.success, r.roll <= 30);
    }
}

#[test]
fn rng_rejects_bad_chances() {
    assert_eq!(cmd_rng("0"), None);
    assert_eq!(cmd_rng("101"), None);
    assert_eq!(cmd_rng("half"), None);
    assert!(cmd_rng("100").unwrap().success);
}

#[test]
fn rng_outcome_compares() {
    assert_eq!(rng_outcome(40, 40), RngRoll { roll: 40, chance: 40, success: true });
    assert_eq!(rng_outcome(40, 41), RngRoll { roll: 41, chance: 40, success: false });
}

#[test]
fn weather_table() {
    assert_eq!(weather_for(1), Weather::Normal);
    assert_eq!(weather_for(2), Weather::Monsoon);
    assert_eq!(weather_for(3), Weather::Winter);
    assert_eq!(weather_for(4), Weather::Drought);
}

#[test]
fn weather_for_members_only() {
    let ms = members();
    assert_eq!(cmd_weather(&ms, 12), None);
    assert!(cmd_weather(&ms, 11).is_some());
}

#[test]
fn save_decisions() {
    let ms = members();
    assert!(matches!(cmd_save(&ms, 1236138274855194756, 1), SaveDecision::Blocked));
    assert!(matches!(cmd_save(&ms, 12, 1), SaveDecision::NoCountry));
    assert!(matches!(cmd_save(&ms, 11, 0), SaveDecision::NoAttachment));
    match cmd_save(&ms, 11, 2) {
        SaveDecision::Save(c) => assert_eq!(c, "Atlantis"),
        _ => panic!("expected Save"),
    }
}

#[test]
fn savearsenal_prefers_txt_attachment() {
    let ms = members();
    let names = vec![s("photo.png"), s("list.txt"), s("other.txt")];
    match cmd_savearsenal(&ms, 11, &names, "!savearsenal ignored") {
        ArsenalDecision::Download { country, file_name, index } => {
            assert_eq!(country, "Atlantis");
            assert_eq!(file_name, "list.txt");
            assert_eq!(index, 1);
        }
        _ => panic!("expected Download"),
    }
}

#[test]
fn savearsenal_inline_text() {
    let ms = members();
    match cmd_savearsenal(&ms, 11, &vec![s("a.png")], "!savearsenal!savearsenal  10 tanks ") {
        ArsenalDecision::Inline { country, file_name, content } => {
            assert_eq!(country, "Atlantis");
            assert_eq!(file_name, "entry");
            assert_eq!(content, "10 tanks");
        }
        _ => panic!("expected Inline"),
    }
    assert!(matches!(cmd_savearsenal(&ms, 11, &vec![], "!savearsenal   "), ArsenalDecision::NeedContent));
    assert!(matches!(cmd_savearsenal(&ms, 12, &vec![], "!savearsenal x"), ArsenalDecision::NoCountry));
}

#[test]
fn arsenal_entry_and_path() {
    let e = arsenal_entry(s("Atlantis"), 11, s("tanks"), 99);
    assert_eq!(e.user_id, "11");
    assert_eq!(e.timestamp, 99);
    assert_eq!(arsenal_file_path("/app/saves", "2024-01-02", "Atlantis", "list.txt"), "/app/saves/2024-01-02_Atlantis_list.txt");
}

#[test]
fn demote_steps() {
    assert_eq!(cmd_demote(1, Some(1), Some(2)), DemoteStart::InvalidPerms);
    assert_eq!(cmd_demote(OWNER_ID, None, Some(2)), DemoteStart::NotInGuild);
    assert_eq!(cmd_demote(OWNER_ID, Some(1), None), DemoteStart::Usage);
    assert_eq!(cmd_demote(OWNER_ID, Some(1), Some(2)), DemoteStart::FetchRoles(2));
    let roles = vec![
        Role { id: 1, name: s("Moderator") },
        Role { id: 2, name: s("ADMIN") },
        Role { id: 3, name: s("admin") },
    ];
    assert_eq!(find_admin_role(&roles), Some(2));
    assert_eq!(find_admin_role(&vec![Role { id: 1, name: s("admins") }]), None);
    assert!(has_role(&vec![4, 2], 2));
    assert!(!has_role(&vec![4], 2));
}

#[test]
fn ticket_names() {
    assert_eq!(ticket_channel_name("bob"), "ticket-bob");
    assert!(is_ticket_channel("ticket-bob"));
    assert!(!is_ticket_channel("general"));
}

#[test]
fn timeout_is_five_minutes_later() {
    assert_eq!(timeout_until(0), "1970-01-01T00:05:00+00:00");
    assert_eq!(timeout_until(1431647700), "2015-05-15T00:00:00+00:00");
}

#[test]
fn noon_waits() {
    assert_eq!(seconds_until_noon(TimeOfDay { secs: 0, frac: 0 }), 43200);
    assert_eq!(seconds_until_noon(TimeOfDay { secs: 43199, frac: 500_000_000 }), 0);
    assert_eq!(seconds_until_noon(TimeOfDay { secs: 36000, frac: 1 }), 7199);
    assert_eq!(seconds_until_noon(TimeOfDay { secs: 43200, frac: 0 }), 86400);
    assert_eq!(seconds_until_noon(TimeOfDay { secs: 86399, frac: 0 }), 43201);
    assert_eq!(seconds_until_noon(TimeOfDay { secs: 43139, frac: 1_500_000_000 }), 60);
}
