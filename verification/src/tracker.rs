use vstd::prelude::*;

use crate::keyed::{
    find_key, key_map, keys_distinct, lemma_key_index, lemma_key_map_push, lemma_key_map_remove,
    lemma_key_map_update, Entry,
};
use crate::numbers::{
    decimal, decimal_chars, lemma_decimal, lemma_decimal_injective, lemma_parse_decimal,
    parse_i64, parse_i64_spec,
};
use crate::perms::{is_owner, OWNER_ID};
use crate::target::{resolve_target, resolve_target_spec};
use crate::text::{
    all_ascii, ascii_lower, chars_of, first_alphabetic, first_index, is_ascii_letter,
    lemma_ascii_lower_ascii, lemma_ascii_trim, lemma_first_index, lemma_first_index_facts,
    lemma_kept_len, same_chars, slice_chars, spec_is_alphabetic, spec_is_whitespace,
    spec_to_lowercase, split_at_first_space, split_first_space, string_of, to_lowercase,
    trim_chars, trim_spec,
};

verus! {

/// The users whose messages the bot deletes: for each user id (in decimal)
/// the moment (Unix seconds) the deletion stops, or none for "forever".
pub struct DeleteTracker {
    pub tracked_users: Vec<Entry<Option<i64>>>,
}

impl DeleteTracker {
    /// Well-formed: no user is tracked twice.
    pub open spec fn wf(&self) -> bool {
        keys_distinct(self.tracked_users@)
    }
}

impl View for DeleteTracker {
    type V = Map<Seq<char>, Option<i64>>;

    open spec fn view(&self) -> Map<Seq<char>, Option<i64>> {
        key_map(self.tracked_users@, |v: Option<i64>| v)
    }
}

/// Whether the messages of `user` are being deleted at the time `now`: the
/// user is tracked forever, or until a moment after `now`.
pub open spec fn tracked_at_spec(t: Map<Seq<char>, Option<i64>>, user: u64, now: int) -> bool {
    let k = decimal(user as nat);
    t.contains_key(k) && match t[k] {
        None => true,
        Some(until) => now < until,
    }
}

/// Reads the system clock: the whole seconds since the Unix epoch (as
/// `SystemTime::now().duration_since(UNIX_EPOCH)`), or none when the clock
/// reads before the epoch (the error std documents for that call) or the
/// seconds do not fit an `i64`. Only that a reading is not negative is
/// promised: its value is the time.
#[verifier::external_body]
fn unix_now() -> (t: Option<i64>)
    ensures
        t matches Some(secs) ==> secs >= 0,
{
    match std::time::SystemTime::now().duration_since(std::time::UNIX_EPOCH) {
        Ok(d) => i64::try_from(d.as_secs()).ok(),
        Err(_) => None,
    }
}

/// Whether the messages of `user_id` are being deleted at the time `now`.
pub fn is_tracked_at(tracker: &DeleteTracker, user_id: u64, now: i64) -> (r: bool)
    requires
        tracker.wf(),
    ensures
        r == tracked_at_spec(tracker@, user_id, now as int),
{
    let key = string_of(&decimal_chars(user_id));
    match find_key(&tracker.tracked_users, &key) {
        Some(i) => {
            proof {
                lemma_key_index(tracker.tracked_users@, key@, i as int);
            }
            match tracker.tracked_users[i].value {
                None => true,
                Some(until) => now < until,
            }
        },
        None => false,
    }
}

/// Whether the messages of `user_id` are being deleted now (by the system
/// clock); none when the clock cannot be read (it reads before the Unix
/// epoch). Whatever the clock reads, an untracked user is not tracked, a
/// user tracked forever is, and a user tracked until a moment not after the
/// epoch is not.
pub fn is_tracked(tracker: &DeleteTracker, user_id: u64) -> (r: Option<bool>)
    requires
        tracker.wf(),
    ensures
        r matches Some(b) ==> {
            let k = decimal(user_id as nat);
            &&& b ==> tracker@.contains_key(k)
            &&& tracker@.contains_key(k) && tracker@[k] is None ==> b
            &&& (tracker@.contains_key(k) && (tracker@[k] matches Some(until) && until <= 0)) ==> !b
            &&& exists|now: i64| now >= 0 && b == tracked_at_spec(tracker@, user_id, now as int)
        },
{
    match unix_now() {
        Some(now) => Some(is_tracked_at(tracker, user_id, now)),
        None => None,
    }
}

/// The number of seconds that a unit suffix stands for.
pub open spec fn duration_unit(suffix: Seq<char>) -> Option<int> {
    if suffix == "s"@ {
        Some(1)
    } else if suffix == "m"@ {
        Some(60)
    } else if suffix == "h"@ {
        Some(3600)
    } else if suffix == "d"@ {
        Some(86400)
    } else {
        None
    }
}

/// The duration (in seconds) that a time argument denotes, before any
/// arithmetic limit: the argument is trimmed and lower-cased, then read as
/// `duration_of_lowered` reads it.
pub open spec fn duration_value(s: Seq<char>) -> Option<int> {
    duration_of_lowered(spec_to_lowercase(trim_spec(s)))
}

/// The duration (in seconds) of a trimmed, lower-cased time argument `t`:
/// `*` is -1 ("forever"); otherwise `t` is a number (seconds), or a number
/// followed by exactly one of the units `s`, `m`, `h`, `d`, split at its
/// first alphabetic character.
pub open spec fn duration_of_lowered(t: Seq<char>) -> Option<int> {
    duration_split_by(t, |c: char| spec_is_alphabetic(c))
}

/// The duration of a trimmed, lower-cased time argument `t`, the number
/// and the unit being split at the first character that `letter` accepts.
pub open spec fn duration_split_by(t: Seq<char>, letter: spec_fn(char) -> bool) -> Option<int> {
    if t == "*"@ {
        Some(-1)
    } else {
        let k = first_index(t, letter);
        if k < t.len() {
            match parse_i64_spec(t.take(k as int)) {
                Some(n) => match duration_unit(t.skip(k as int)) {
                    Some(u) => Some(n * u),
                    None => None,
                },
                None => None,
            }
        } else {
            match parse_i64_spec(t) {
                Some(n) => Some(n as int),
                None => None,
            }
        }
    }
}

/// `duration_value` for an ASCII argument, where lower-casing turns each
/// capital into its small letter.
pub open spec fn ascii_duration_value(s: Seq<char>) -> Option<int> {
    duration_split_by(ascii_lower(trim_spec(s)), |c: char| is_ascii_letter(c))
}

/// Whether the duration of `s`, if any, fits an `i64` (a larger one
/// overflows the multiplication by its unit).
pub open spec fn duration_fits(s: Seq<char>) -> bool {
    duration_value(s) is Some ==> i64::MIN <= duration_value(s)->0 <= i64::MAX
}

/// The seconds of a unit suffix.
fn unit_of(suffix: &Vec<char>) -> (r: Option<i64>)
    ensures
        r is Some == duration_unit(suffix@) is Some,
        r is Some ==> r->0 == duration_unit(suffix@)->0,
{
    if same_chars(suffix, &chars_of("s")) {
        Some(1)
    } else if same_chars(suffix, &chars_of("m")) {
        Some(60)
    } else if same_chars(suffix, &chars_of("h")) {
        Some(3600)
    } else if same_chars(suffix, &chars_of("d")) {
        Some(86400)
    } else {
        None
    }
}

/// The number and the unit of a trimmed, lower-cased time argument, before
/// multiplying them.
fn read_lowered(t: &Vec<char>) -> (r: Option<(i64, i64)>)
    ensures
        r is Some == duration_of_lowered(t@) is Some,
        r is Some ==> (r->0).0 * (r->0).1 == duration_of_lowered(t@)->0,
        r is Some ==> 1 <= (r->0).1 <= 86400,
        all_ascii(t@) ==> duration_of_lowered(t@) == duration_split_by(
            t@,
            |c: char| is_ascii_letter(c),
        ),
{
    if same_chars(t, &chars_of("*")) {
        assert(duration_of_lowered(t@) == Some(-1int));
        assert((-1i64) * (1i64) == -1int) by (nonlinear_arith);
        return Some((-1, 1));
    }
    let k = first_alphabetic(t);
    proof {
        lemma_first_index_facts(t@, |c: char| spec_is_alphabetic(c));
    }
    if k < t.len() {
        let num = slice_chars(t, 0, k);
        let suffix = slice_chars(t, k, t.len());
        assert(num@ =~= t@.take(k as int));
        assert(suffix@ =~= t@.skip(k as int));
        match parse_i64(&num) {
            Some(n) => match unit_of(&suffix) {
                Some(u) => {
                    assert(duration_of_lowered(t@) == Some(n * u));
                    Some((n, u))
                },
                None => None,
            },
            None => None,
        }
    } else {
        match parse_i64(t) {
            Some(n) => {
                assert(n * 1 == n as int) by (nonlinear_arith);
                Some((n, 1))
            },
            None => None,
        }
    }
}

/// The number and the unit of a time argument, before multiplying them.
fn read_duration(input: &str) -> (r: Option<(i64, i64)>)
    ensures
        r is Some == duration_value(input@) is Some,
        r is Some ==> (r->0).0 * (r->0).1 == duration_value(input@)->0,
        r is Some ==> 1 <= (r->0).1 <= 86400,
        all_ascii(input@) ==> duration_value(input@) == ascii_duration_value(input@),
{
    proof {
        if all_ascii(input@) {
            lemma_ascii_trim(input@);
            lemma_ascii_lower_ascii(trim_spec(input@));
        }
    }
    let trimmed = string_of(&trim_chars(&chars_of(input)));
    let lower = to_lowercase(trimmed.as_str());
    read_lowered(&chars_of(lower.as_str()))
}

/// Reads a trimmed, lower-cased time argument into seconds: `None` when its
/// seconds overflow an `i64`, else the duration (none when the text is not
/// a time).
pub fn parse_lowered_duration(t: &str) -> (r: Option<Option<i64>>)
    ensures
        r is None <==> (duration_of_lowered(t@) is Some && !(i64::MIN <= duration_of_lowered(t@)->0
            <= i64::MAX)),
        r matches Some(d) ==> (d is Some == duration_of_lowered(t@) is Some && (d is Some ==> d->0
            == duration_of_lowered(t@)->0)),
{
    match read_lowered(&chars_of(t)) {
        Some((n, u)) => match n.checked_mul(u) {
            Some(d) => Some(Some(d)),
            None => None,
        },
        None => Some(None),
    }
}

/// Parses a time argument (`300`, `5m`, `1h`, `1d`, `*`) into seconds, -1
/// standing for "forever"; none when the text is not one. A number whose
/// seconds do not fit an `i64` is not an input this function takes.
pub fn parse_duration(input: &str) -> (r: Option<i64>)
    requires
        duration_fits(input@),
    ensures
        r is Some == duration_value(input@) is Some,
        r is Some ==> r->0 == duration_value(input@)->0,
        all_ascii(input@) ==> duration_value(input@) == ascii_duration_value(input@),
{
    match read_duration(input) {
        Some((n, u)) => Some(n * u),
        None => None,
    }
}

/// Parses a time argument into seconds: `None` when its seconds overflow an
/// `i64` (the inputs `parse_duration` does not take), else what
/// `parse_duration` gives.
pub fn parse_duration_checked(input: &str) -> (r: Option<Option<i64>>)
    ensures
        r is None <==> !duration_fits(input@),
        r matches Some(d) ==> (d is Some == duration_value(input@) is Some && (d is Some ==> d->0
            == duration_value(input@)->0)),
        all_ascii(input@) ==> duration_value(input@) == ascii_duration_value(input@),
{
    if duration_overflows(input) {
        None
    } else {
        Some(parse_duration(input))
    }
}

/// Whether the seconds of a time argument overflow an `i64`.
pub fn duration_overflows(input: &str) -> (r: bool)
    ensures
        r == !duration_fits(input@),
        all_ascii(input@) ==> duration_value(input@) == ascii_duration_value(input@),
{
    match read_duration(input) {
        Some((n, u)) => n.checked_mul(u).is_none(),
        None => false,
    }
}

/// The answer to `!deletesentmessages`.
#[derive(Debug, PartialEq, Eq)]
pub enum DeleteReply {
    InvalidPerms,
    Usage,
    InvalidTime,
    AlreadyTracked,
    Tracking { user: u64, duration: i64 },
}

/// The target text (trimmed) and the time text of `!deletesentmessages`:
/// the words before and after the first space, the time being `*` when
/// there is no space.
pub open spec fn delete_args(args: Seq<char>) -> (Seq<char>, Seq<char>) {
    let (first, rest) = split_first_space(args);
    (
        trim_spec(first),
        match rest {
            Some(r) => r,
            None => "*"@,
        },
    )
}

/// The moment a tracking of `duration` seconds that starts at `now` stops;
/// none for "forever".
pub open spec fn expiry(duration: int, now: int) -> Option<i64> {
    if duration == -1 {
        None
    } else {
        Some((now + duration) as i64)
    }
}

/// Whether `!deletesentmessages` overflows an `i64`: reading the time, or
/// adding it to the clock.
pub open spec fn delete_overflows(
    t: Map<Seq<char>, Option<i64>>,
    author: u64,
    args: Seq<char>,
    first_mention: Option<u64>,
    now: i64,
) -> bool {
    let (target_text, time_text) = delete_args(args);
    &&& author == OWNER_ID
    &&& resolve_target_spec(target_text, first_mention) is Some
    &&& {
        ||| !duration_fits(time_text)
        ||| {
            &&& duration_value(time_text) is Some
            &&& duration_value(time_text)->0 != -1
            &&& !tracked_at_spec(t, resolve_target_spec(target_text, first_mention)->0, now as int)
            &&& !(i64::MIN <= now + duration_value(time_text)->0 <= i64::MAX)
        }
    }
}

/// What `!deletesentmessages` answers.
pub open spec fn delete_reply_spec(
    t: Map<Seq<char>, Option<i64>>,
    author: u64,
    args: Seq<char>,
    first_mention: Option<u64>,
    now: i64,
) -> DeleteReply {
    let (target_text, time_text) = delete_args(args);
    if author != OWNER_ID {
        DeleteReply::InvalidPerms
    } else {
        match resolve_target_spec(target_text, first_mention) {
            None => DeleteReply::Usage,
            Some(user) => match duration_value(time_text) {
                None => DeleteReply::InvalidTime,
                Some(d) => if tracked_at_spec(t, user, now as int) {
                    DeleteReply::AlreadyTracked
                } else {
                    DeleteReply::Tracking { user, duration: d as i64 }
                },
            },
        }
    }
}

/// The tracker once `!deletesentmessages` has answered `reply`.
pub open spec fn delete_state_spec(
    t: Map<Seq<char>, Option<i64>>,
    reply: DeleteReply,
    now: i64,
) -> Map<Seq<char>, Option<i64>> {
    match reply {
        DeleteReply::Tracking { user, duration } => t.insert(
            decimal(user as nat),
            expiry(duration as int, now as int),
        ),
        _ => t,
    }
}

/// Records the moment the deletion of the user keyed `key` stops.
fn set_tracking(tracker: &mut DeleteTracker, key: String, until: Option<i64>)
    requires
        old(tracker).wf(),
    ensures
        final(tracker).wf(),
        final(tracker)@ == old(tracker)@.insert(key@, until),
{
    let ghost f = |v: Option<i64>| v;
    let ghost before = tracker.tracked_users@;
    match find_key(&tracker.tracked_users, &key) {
        Some(i) => {
            let _ = tracker.tracked_users.remove(i);
            let e = Entry { key, value: until };
            tracker.tracked_users.insert(i, e);
            proof {
                assert(tracker.tracked_users@ =~= before.update(i as int, e));
                lemma_key_map_update(before, i as int, e, f);
            }
        },
        None => {
            let e = Entry { key, value: until };
            tracker.tracked_users.push(e);
            proof {
                lemma_key_map_push(before, e, f);
            }
        },
    }
}

/// `!deletesentmessages <user> [time]`: the owner has the bot delete every
/// message of a user, forever (`*`, the default) or for a time, unless the
/// user is already tracked. `now` is the time of the command (Unix seconds).
pub fn cmd_deletesentmessages(
    tracker: &mut DeleteTracker,
    author: u64,
    args: &str,
    first_mention: Option<u64>,
    now: i64,
) -> (r: DeleteReply)
    requires
        old(tracker).wf(),
        !delete_overflows(old(tracker)@, author, args@, first_mention, now),
    ensures
        final(tracker).wf(),
        r == delete_reply_spec(old(tracker)@, author, args@, first_mention, now),
        final(tracker)@ == delete_state_spec(old(tracker)@, r, now),
{
    if !is_owner(author) {
        return DeleteReply::InvalidPerms;
    }
    let v = chars_of(args);
    let (first, rest) = split_at_first_space(&v);
    let target_text = trim_chars(&first);
    let time_text = match rest {
        Some(r) => string_of(&r),
        None => string_of(&chars_of("*")),
    };
    let user = match resolve_target(&target_text, first_mention) {
        Some(u) => u,
        None => return DeleteReply::Usage,
    };
    let duration = match parse_duration(time_text.as_str()) {
        Some(d) => d,
        None => return DeleteReply::InvalidTime,
    };
    if is_tracked_at(tracker, user, now) {
        return DeleteReply::AlreadyTracked;
    }
    let until = if duration == -1 {
        None
    } else {
        Some(now + duration)
    };
    set_tracking(tracker, string_of(&decimal_chars(user)), until);
    DeleteReply::Tracking { user, duration }
}

/// Whether `!deletesentmessages` would overflow an `i64` (the condition
/// under which the command cannot be answered).
pub fn deletesentmessages_overflows(
    tracker: &DeleteTracker,
    author: u64,
    args: &str,
    first_mention: Option<u64>,
    now: i64,
) -> (r: bool)
    requires
        tracker.wf(),
    ensures
        r == delete_overflows(tracker@, author, args@, first_mention, now),
{
    if !is_owner(author) {
        return false;
    }
    let v = chars_of(args);
    let (first, rest) = split_at_first_space(&v);
    let target_text = trim_chars(&first);
    let time_text = match rest {
        Some(r) => string_of(&r),
        None => string_of(&chars_of("*")),
    };
    let user = match resolve_target(&target_text, first_mention) {
        Some(u) => u,
        None => return false,
    };
    if duration_overflows(time_text.as_str()) {
        return true;
    }
    match parse_duration(time_text.as_str()) {
        Some(d) => d != -1 && !is_tracked_at(tracker, user, now) && now.checked_add(d).is_none(),
        None => false,
    }
}

/// `!deletesentmessages`, for every input: `None`, with the tracker
/// unchanged, exactly when the command would overflow an `i64`; otherwise
/// what `cmd_deletesentmessages` answers and does.
pub fn cmd_deletesentmessages_checked(
    tracker: &mut DeleteTracker,
    author: u64,
    args: &str,
    first_mention: Option<u64>,
    now: i64,
) -> (r: Option<DeleteReply>)
    requires
        old(tracker).wf(),
    ensures
        final(tracker).wf(),
        r is None <==> delete_overflows(old(tracker)@, author, args@, first_mention, now),
        r is None ==> *final(tracker) == *old(tracker),
        r matches Some(reply) ==> reply == delete_reply_spec(
            old(tracker)@,
            author,
            args@,
            first_mention,
            now,
        ) && final(tracker)@ == delete_state_spec(old(tracker)@, reply, now),
{
    if deletesentmessages_overflows(tracker, author, args, first_mention, now) {
        None
    } else {
        Some(cmd_deletesentmessages(tracker, author, args, first_mention, now))
    }
}

/// How the reply of `!deletesentmessages` shows a duration.
#[derive(Debug, PartialEq, Eq)]
pub enum TimeDisplay {
    Forever,
    Seconds(i64),
    Minutes(i64),
    Hours(i64),
    Days(i64),
}

/// The unit a duration is shown in: -1 is "forever"; below a minute in
/// seconds, below an hour in whole minutes, below a day in whole hours,
/// else in whole days.
pub fn time_display(duration: i64) -> (r: TimeDisplay)
    ensures
        duration == -1 ==> r == TimeDisplay::Forever,
        duration != -1 && duration < 60 ==> r == TimeDisplay::Seconds(duration),
        60 <= duration < 3600 ==> r == TimeDisplay::Minutes((duration / 60) as i64),
        3600 <= duration < 86400 ==> r == TimeDisplay::Hours((duration / 3600) as i64),
        86400 <= duration ==> r == TimeDisplay::Days((duration / 86400) as i64),
{
    if duration == -1 {
        TimeDisplay::Forever
    } else if duration < 60 {
        TimeDisplay::Seconds(duration)
    } else if duration < 3600 {
        TimeDisplay::Minutes(duration / 60)
    } else if duration < 86400 {
        TimeDisplay::Hours(duration / 3600)
    } else {
        TimeDisplay::Days(duration / 86400)
    }
}

/// The answer to `!undeletesentmessages`.
#[derive(Debug, PartialEq, Eq)]
pub enum UndeleteReply {
    InvalidPerms,
    Usage,
    Stopped(u64),
    NotTracked,
}

/// What `!undeletesentmessages` answers.
pub open spec fn undelete_reply_spec(
    t: Map<Seq<char>, Option<i64>>,
    author: u64,
    args: Seq<char>,
    first_mention: Option<u64>,
) -> UndeleteReply {
    if author != OWNER_ID {
        UndeleteReply::InvalidPerms
    } else {
        match resolve_target_spec(trim_spec(args), first_mention) {
            None => UndeleteReply::Usage,
            Some(user) => if t.contains_key(decimal(user as nat)) {
                UndeleteReply::Stopped(user)
            } else {
                UndeleteReply::NotTracked
            },
        }
    }
}

/// `!undeletesentmessages <user>`: the owner stops the deletion of a user's
/// messages.
pub fn cmd_undeletesentmessages(
    tracker: &mut DeleteTracker,
    author: u64,
    args: &str,
    first_mention: Option<u64>,
) -> (r: UndeleteReply)
    requires
        old(tracker).wf(),
    ensures
        final(tracker).wf(),
        r == undelete_reply_spec(old(tracker)@, author, args@, first_mention),
        r matches UndeleteReply::Stopped(user) ==> final(tracker)@ == old(tracker)@.remove(
            decimal(user as nat),
        ),
        !(r is Stopped) ==> final(tracker)@ == old(tracker)@,
{
    if !is_owner(author) {
        return UndeleteReply::InvalidPerms;
    }
    let target_text = trim_chars(&chars_of(args));
    let user = match resolve_target(&target_text, first_mention) {
        Some(u) => u,
        None => return UndeleteReply::Usage,
    };
    let key = string_of(&decimal_chars(user));
    match find_key(&tracker.tracked_users, &key) {
        Some(i) => {
            let ghost before = tracker.tracked_users@;
            let _ = tracker.tracked_users.remove(i);
            proof {
                lemma_key_map_remove(before, i as int, |v: Option<i64>| v);
            }
            UndeleteReply::Stopped(user)
        },
        None => UndeleteReply::NotTracked,
    }
}

/// Once `!deletesentmessages` starts tracking a user, that user's messages
/// are deleted forever (`*`), or exactly until the requested number of
/// seconds after the command; every other user is tracked as before.
pub proof fn lemma_tracking_started(
    t: Map<Seq<char>, Option<i64>>,
    author: u64,
    args: Seq<char>,
    first_mention: Option<u64>,
    now: i64,
    later: int,
    other: u64,
)
    requires
        !delete_overflows(t, author, args, first_mention, now),
        delete_reply_spec(t, author, args, first_mention, now) is Tracking,
    ensures
        ({
            let r = delete_reply_spec(t, author, args, first_mention, now);
            let t2 = delete_state_spec(t, r, now);
            &&& r->duration == -1 ==> tracked_at_spec(t2, r->user, later)
            &&& r->duration != -1 ==> (tracked_at_spec(t2, r->user, later) <==> later < now
                + r->duration)
            &&& other != r->user ==> (tracked_at_spec(t2, other, later) == tracked_at_spec(
                t,
                other,
                later,
            ))
        }),
{
    let r = delete_reply_spec(t, author, args, first_mention, now);
    lemma_decimal_injective(other, r->user);
}

/// A command that did not start tracking leaves the tracker as it was.
pub proof fn lemma_refusal_keeps_tracker(
    t: Map<Seq<char>, Option<i64>>,
    author: u64,
    args: Seq<char>,
    first_mention: Option<u64>,
    now: i64,
)
    ensures
        !(delete_reply_spec(t, author, args, first_mention, now) is Tracking) ==> delete_state_spec(
            t,
            delete_reply_spec(t, author, args, first_mention, now),
            now,
        ) == t,
{
}

/// Once `!undeletesentmessages` stops a user, that user's messages are no
/// longer deleted at any time, and every other user is tracked as before.
pub proof fn lemma_tracking_stopped(
    t: Map<Seq<char>, Option<i64>>,
    user: u64,
    later: int,
    other: u64,
)
    ensures
        !tracked_at_spec(t.remove(decimal(user as nat)), user, later),
        other != user ==> tracked_at_spec(t.remove(decimal(user as nat)), other, later)
            == tracked_at_spec(t, other, later),
{
    lemma_decimal_injective(other, user);
}

/// A user id written in decimal is its own trimmed text.
proof fn lemma_trim_decimal(user: u64)
    ensures
        trim_spec(decimal(user as nat)) == decimal(user as nat),
{
    let d = decimal(user as nat);
    lemma_decimal(user as nat);
    assert(crate::numbers::is_digit(d[0]));
    lemma_first_index(d, |c: char| !spec_is_whitespace(c), 0);
    assert(d.skip(0) =~= d);
    assert(crate::numbers::is_digit(d[d.len() - 1]));
    lemma_kept_len(d, |c: char| spec_is_whitespace(c), d.len() as int);
    assert(d.take(d.len() as int) =~= d);
}

/// The arguments `<id> <time>` of `!deletesentmessages` name the user `id`
/// and the time text.
proof fn lemma_delete_args_of_id(user: u64, time_text: Seq<char>)
    ensures
        delete_args(decimal(user as nat) + " "@ + time_text) == (decimal(user as nat), time_text),
        resolve_target_spec(decimal(user as nat), None) == Some(user),
{
    let d = decimal(user as nat);
    let args = d + " "@ + time_text;
    reveal_strlit(" ");
    lemma_decimal(user as nat);
    assert forall|j: int| 0 <= j < d.len() implies !((|c: char| c == ' ')(#[trigger] args[j])) by {
        assert(args[j] == d[j]);
        assert(crate::numbers::is_digit(d[j]));
    }
    assert(args[d.len() as int] == ' ');
    lemma_first_index(args, |c: char| c == ' ', d.len() as int);
    assert(args.take(d.len() as int) =~= d);
    assert(args.skip(d.len() + 1int) =~= time_text);
    lemma_trim_decimal(user);
    lemma_parse_decimal(user);
}

/// `!undeletesentmessages <id>` undoes `!deletesentmessages <id> <time>`
/// given by the owner for a user who was not tracked: when the time text
/// is a time, the user is tracked, the stop answers `Stopped` for that
/// user, and the tracker is again what it was before (when it is not a
/// time, the tracker never changed).
pub proof fn lemma_undelete_undoes_delete(
    t: Map<Seq<char>, Option<i64>>,
    user: u64,
    time_text: Seq<char>,
    first_mention: Option<u64>,
    now: i64,
)
    requires
        !t.contains_key(decimal(user as nat)),
        !delete_overflows(
            t,
            OWNER_ID,
            decimal(user as nat) + " "@ + time_text,
            first_mention,
            now,
        ),
    ensures
        ({
            let r = delete_reply_spec(
                t,
                OWNER_ID,
                decimal(user as nat) + " "@ + time_text,
                first_mention,
                now,
            );
            let t2 = delete_state_spec(t, r, now);
            &&& duration_value(time_text) is Some ==> r == DeleteReply::Tracking {
                user,
                duration: duration_value(time_text)->0 as i64,
            }
            &&& duration_value(time_text) is None ==> r == DeleteReply::InvalidTime && t2 == t
            &&& r is Tracking ==> undelete_reply_spec(
                t2,
                OWNER_ID,
                decimal(user as nat),
                first_mention,
            ) == UndeleteReply::Stopped(user) && t2.remove(decimal(user as nat)) == t
        }),
{
    lemma_delete_args_of_id(user, time_text);
    lemma_parse_decimal(user);
    lemma_trim_decimal(user);
    let r = delete_reply_spec(
        t,
        OWNER_ID,
        decimal(user as nat) + " "@ + time_text,
        first_mention,
        now,
    );
    if r is Tracking {
        let t2 = delete_state_spec(t, r, now);
        assert(t2.remove(decimal(user as nat)) =~= t);
    }
}

/// `!deletesentmessages` from the owner, naming a user and a valid time:
/// when the tracker holds that user forever, or until a moment after the
/// command, the answer is `AlreadyTracked` and the tracker is untouched;
/// otherwise (never tracked, or the tracking has run out) the user is
/// tracked anew: forever for -1, else until `now` plus the duration, every
/// other user staying as before.
pub proof fn lemma_delete_refuses_only_live_tracking(
    t: Map<Seq<char>, Option<i64>>,
    args: Seq<char>,
    first_mention: Option<u64>,
    now: i64,
    user: u64,
)
    requires
        !delete_overflows(t, OWNER_ID, args, first_mention, now),
        resolve_target_spec(delete_args(args).0, first_mention) == Some(user),
        duration_value(delete_args(args).1) is Some,
    ensures
        ({
            let k = decimal(user as nat);
            let d = duration_value(delete_args(args).1)->0;
            let r = delete_reply_spec(t, OWNER_ID, args, first_mention, now);
            let t2 = delete_state_spec(t, r, now);
            let live = t.contains_key(k) && match t[k] {
                None => true,
                Some(until) => now < until,
            };
            &&& live ==> r == DeleteReply::AlreadyTracked && t2 == t
            &&& !live ==> r == DeleteReply::Tracking { user, duration: d as i64 }
            &&& !live && d == -1 ==> t2 == t.insert(k, None)
            &&& !live && d != -1 ==> t2 == t.insert(k, Some((now + d) as i64)) && now + d
                <= i64::MAX
        }),
{
}

} // verus!
