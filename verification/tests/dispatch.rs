use nationbot::automod::AutomodConfig;
use nationbot::dispatch::{message_action, route_command, Command, MessageAction};
use nationbot::ignore::IgnoreList;
use nationbot::keyed::Entry;
use nationbot::perms::OWNER_ID;
use nationbot::tracker::DeleteTracker;

fn s(x: &str) -> String {
    x.to_string()
}

#[test]
fn routes_commands_with_arguments() {
    assert_eq!(route_command("!rng 50"), Command::Rng(s("50")));
    assert_eq!(route_command("!pay 10 Atlantis"), Command::Pay(s("10 Atlantis")));
    assert_eq!(route_command("!give 1 X"), Command::Give(s("1 X")));
    assert_eq!(route_command("!remove 1 X"), Command::Remove(s("1 X")));
    assert_eq!(route_command("!addgdp 1 X"), Command::AddGdp(s("1 X")));
    assert_eq!(route_command("!addword global x"), Command::AddWord(s("global x")));
    assert_eq!(route_command("!removeword global x"), Command::RemoveWord(s("global x")));
}

#[test]
fn routes_exact_commands() {
    assert_eq!(route_command("!checkbalance"), Command::CheckBalance);
    assert_eq!(route_command("!ticket"), Command::Ticket);
    assert_eq!(route_command("!close"), Command::Close);
    assert_eq!(route_command("!weather"), Command::Weather);
    assert_eq!(route_command("!checkall"), Command::CheckAll);
    assert_eq!(route_command("!save"), Command::Save);
    assert_eq!(route_command("!stocks"), Command::Stocks);
    assert_eq!(route_command("!checkbalance now"), Command::Unknown);
}

#[test]
fn routes_prefix_commands() {
    assert_eq!(route_command("!savearsenal tanks"), Command::SaveArsenal);
    assert_eq!(route_command("!demote <@1>"), Command::Demote);
    assert_eq!(route_command("!ignore   <@5>"), Command::Ignore(s("<@5>")));
    assert_eq!(route_command("!ignored"), Command::Ignore(s("d")));
    assert_eq!(route_command("!unignore 5"), Command::Unignore(s("5")));
    assert_eq!(route_command("!deletesentmessages 5 1h"), Command::DeleteSentMessages(s("5 1h")));
    assert_eq!(route_command("!undeletesentmessages 5"), Command::UndeleteSentMessages(s("5")));
}

#[test]
fn unknown_messages() {
    assert_eq!(route_command("hello"), Command::Unknown);
    assert_eq!(route_command("!rng"), Command::Unknown);
    assert_eq!(route_command(""), Command::Unknown);
}

fn setup() -> (AutomodConfig, DeleteTracker, IgnoreList) {
    (
        AutomodConfig { global: vec![s("bad")], users: vec![] },
        DeleteTracker { tracked_users: vec![Entry { key: s("8"), value: None }] },
        IgnoreList { ignored_users: vec![s("9")] },
    )
}

#[test]
fn message_gates_in_order() {
    let (cfg, tracker, ignore) = setup();
    assert_eq!(message_action(true, 1, "!close", &cfg, &tracker, &ignore, 0), MessageAction::Nothing);
    assert_eq!(message_action(false, 1, "so BAD", &cfg, &tracker, &ignore, 0), MessageAction::AutomodDelete);
    assert_eq!(message_action(false, 8, "so BAD", &cfg, &tracker, &ignore, 0), MessageAction::AutomodDelete);
    assert_eq!(message_action(false, 8, "hi", &cfg, &tracker, &ignore, 0), MessageAction::TrackedDelete);
    assert_eq!(message_action(false, 9, "!close", &cfg, &tracker, &ignore, 0), MessageAction::Nothing);
    assert_eq!(message_action(false, 1, "  !close  ", &cfg, &tracker, &ignore, 0), MessageAction::Run(Command::Close));
}

#[test]
fn owner_passes_automod() {
    let (cfg, tracker, ignore) = setup();
    assert_eq!(
        message_action(false, OWNER_ID, "bad !close", &cfg, &tracker, &ignore, 0),
        MessageAction::Run(Command::Unknown)
    );
}
