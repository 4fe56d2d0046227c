use nationbot::keyed::Entry;
use nationbot::perms::OWNER_ID;
use nationbot::tracker::{
    cmd_deletesentmessages, cmd_undeletesentmessages, deletesentmessages_overflows, duration_overflows,
    is_tracked, is_tracked_at, parse_duration, time_display, DeleteReply, DeleteTracker, TimeDisplay,
    UndeleteReply,
};

fn empty() -> DeleteTracker {
    DeleteTracker { tracked_users: vec![] }
}

#[test]
fn parse_duration_units() {
    assert_eq!(parse_duration("300"), Some(300));
    assert_eq!(parse_duration("5m"), Some(300));
    assert_eq!(parse_duration("2h"), Some(7200));
    assert_eq!(parse_duration("1d"), Some(86400));
    assert_eq!(parse_duration("45s"), Some(45));
    assert_eq!(parse_duration(" 3H "), Some(10800));
}

#[test]
fn parse_duration_forever() {
    assert_eq!(parse_duration("*"), Some(-1));
    assert_eq!(parse_duration("  *  "), Some(-1));
    assert_eq!(parse_duration("-1"), Some(-1));
}

#[test]
fn parse_duration_rejects() {
    assert_eq!(parse_duration("5x"), None);
    assert_eq!(parse_duration("5 m"), None);
    assert_eq!(parse_duration("m"), None);
    assert_eq!(parse_duration("5mm"), None);
    assert_eq!(parse_duration(""), None);
    assert_eq!(parse_duration("**"), None);
    assert_eq!(parse_duration("1.5h"), None);
}

#[test]
fn parse_duration_signs() {
    assert_eq!(parse_duration("+2m"), Some(120));
    assert_eq!(parse_duration("-2m"), Some(-120));
}

#[test]
fn duration_overflow_detected() {
    assert!(duration_overflows("9223372036854775807d"));
    assert!(!duration_overflows("9223372036854775807"));
    assert!(!duration_overflows("9223372036854775807s"));
    assert!(!duration_overflows("nonsense"));
    assert_eq!(parse_duration("153722867280912930m"), Some(153722867280912930 * 60));
}

#[test]
fn track_forever_then_already_tracked() {
    let mut t = empty();
    let r = cmd_deletesentmessages(&mut t, OWNER_ID, "123", None, 1000);
    assert_eq!(r, DeleteReply::Tracking { user: 123, duration: -1 });
    assert_eq!(t.tracked_users[0].key, "123");
    assert_eq!(t.tracked_users[0].value, None);
    assert!(is_tracked_at(&t, 123, i64::MAX));
    assert_eq!(is_tracked(&t, 123), Some(true));
    let r = cmd_deletesentmessages(&mut t, OWNER_ID, "123 5m", None, 2000);
    assert_eq!(r, DeleteReply::AlreadyTracked);
    assert_eq!(t.tracked_users.len(), 1);
}

#[test]
fn track_for_a_time() {
    let mut t = empty();
    let r = cmd_deletesentmessages(&mut t, OWNER_ID, "55 10m", None, 1000);
    assert_eq!(r, DeleteReply::Tracking { user: 55, duration: 600 });
    assert_eq!(t.tracked_users[0].value, Some(1600));
    assert!(is_tracked_at(&t, 55, 1599));
    assert!(!is_tracked_at(&t, 55, 1600));
    assert!(!is_tracked_at(&t, 56, 1000));
}

#[test]
fn expired_tracking_is_replaced() {
    let mut t = DeleteTracker { tracked_users: vec![Entry { key: "55".to_string(), value: Some(100) }] };
    let r = cmd_deletesentmessages(&mut t, OWNER_ID, "55 1h", None, 200);
    assert_eq!(r, DeleteReply::Tracking { user: 55, duration: 3600 });
    assert_eq!(t.tracked_users.len(), 1);
    assert_eq!(t.tracked_users[0].value, Some(3800));
}

#[test]
fn delete_uses_mention_when_target_is_not_a_number() {
    let mut t = empty();
    let r = cmd_deletesentmessages(&mut t, OWNER_ID, "<@77> 30", Some(77), 0);
    assert_eq!(r, DeleteReply::Tracking { user: 77, duration: 30 });
    let r = cmd_deletesentmessages(&mut t, OWNER_ID, "nobody", None, 0);
    assert_eq!(r, DeleteReply::Usage);
}

#[test]
fn delete_refusals() {
    let mut t = empty();
    assert_eq!(cmd_deletesentmessages(&mut t, 3, "1", None, 0), DeleteReply::InvalidPerms);
    assert_eq!(cmd_deletesentmessages(&mut t, OWNER_ID, "1 soon", None, 0), DeleteReply::InvalidTime);
    assert!(t.tracked_users.is_empty());
}

#[test]
fn delete_overflow_condition() {
    let t = empty();
    assert!(deletesentmessages_overflows(&t, OWNER_ID, "1 9223372036854775807d", None, 0));
    assert!(deletesentmessages_overflows(&t, OWNER_ID, "1 9223372036854775807", None, 10));
    assert!(!deletesentmessages_overflows(&t, OWNER_ID, "1 9223372036854775807", None, 0));
    assert!(!deletesentmessages_overflows(&t, 5, "1 9223372036854775807d", None, 0));
    assert!(!deletesentmessages_overflows(&t, OWNER_ID, "x 9223372036854775807d", None, 0));
}

#[test]
fn time_display_units() {
    assert_eq!(time_display(-1), TimeDisplay::Forever);
    assert_eq!(time_display(59), TimeDisplay::Seconds(59));
    assert_eq!(time_display(-30), TimeDisplay::Seconds(-30));
    assert_eq!(time_display(60), TimeDisplay::Minutes(1));
    assert_eq!(time_display(3599), TimeDisplay::Minutes(59));
    assert_eq!(time_display(7200), TimeDisplay::Hours(2));
    assert_eq!(time_display(172800), TimeDisplay::Days(2));
}

#[test]
fn undelete_stops_tracking() {
    let mut t = empty();
    cmd_deletesentmessages(&mut t, OWNER_ID, "9", None, 0);
    cmd_deletesentmessages(&mut t, OWNER_ID, "10", None, 0);
    assert_eq!(cmd_undeletesentmessages(&mut t, OWNER_ID, " 9 ", None), UndeleteReply::Stopped(9));
    assert!(!is_tracked_at(&t, 9, 0));
    assert!(is_tracked_at(&t, 10, 0));
    assert_eq!(cmd_undeletesentmessages(&mut t, OWNER_ID, "9", None), UndeleteReply::NotTracked);
}

#[test]
fn undelete_refusals() {
    let mut t = empty();
    assert_eq!(cmd_undeletesentmessages(&mut t, 1, "9", None), UndeleteReply::InvalidPerms);
    assert_eq!(cmd_undeletesentmessages(&mut t, OWNER_ID, "someone", None), UndeleteReply::Usage);
    assert_eq!(cmd_undeletesentmessages(&mut t, OWNER_ID, "someone", Some(4)), UndeleteReply::NotTracked);
}
