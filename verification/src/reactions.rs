use vstd::prelude::*;

use crate::perms::WATCHED_USER_ID;
use crate::text::{chars_of, same_chars};

verus! {

/// When (Unix seconds) the watched user's recent flag reactions were kept.
pub struct ReactionLog {
    pub times: Vec<u64>,
}

/// What the bot does with a new reaction.
#[derive(Debug, PartialEq, Eq)]
pub enum ReactionAction {
    Ignore,
    Delete,
    Record,
}

/// The flag the watched user may react with, at most three times in five
/// minutes: U+1F1EE U+1F1F1.
pub open spec fn allowed_flag() -> Seq<char> {
    seq!['\u{1F1EE}', '\u{1F1F1}']
}

/// The window, in seconds, over which flag reactions are counted.
pub const WINDOW_SECS: u64 = 300;

/// Whether a reaction at `t` is still inside the window at `now`.
pub open spec fn in_window(now: u64) -> spec_fn(u64) -> bool {
    |t: u64| now - t < 300
}

/// The reactions that are still inside the window at `now`.
pub open spec fn recent(times: Seq<u64>, now: u64) -> Seq<u64> {
    times.filter(in_window(now))
}

/// Whether a reaction counts: by the watched user, with the allowed flag (a
/// custom emoji has no text).
pub open spec fn counted(user: Option<u64>, emoji: Option<Seq<char>>) -> bool {
    user == Some(WATCHED_USER_ID) && emoji == Some(allowed_flag())
}

/// What the bot does with a reaction of `user` with `emoji` at `now`.
pub open spec fn reaction_action_spec(
    times: Seq<u64>,
    user: Option<u64>,
    emoji: Option<Seq<char>>,
    now: u64,
) -> ReactionAction {
    if user != Some(WATCHED_USER_ID) {
        ReactionAction::Ignore
    } else if emoji != Some(allowed_flag()) {
        ReactionAction::Delete
    } else if recent(times, now).len() >= 3 {
        ReactionAction::Delete
    } else {
        ReactionAction::Record
    }
}

/// The log once the bot has handled the reaction.
pub open spec fn reaction_log_spec(
    times: Seq<u64>,
    user: Option<u64>,
    emoji: Option<Seq<char>>,
    now: u64,
) -> Seq<u64> {
    if !counted(user, emoji) {
        times
    } else if recent(times, now).len() >= 3 {
        recent(times, now)
    } else {
        recent(times, now).push(now)
    }
}

/// The text of an emoji, if it has one.
pub open spec fn emoji_text(emoji: Option<String>) -> Option<Seq<char>> {
    match emoji {
        Some(s) => Some(s@),
        None => None,
    }
}

/// Whether the emoji is the allowed flag.
fn is_allowed_flag(emoji: &Option<String>) -> (b: bool)
    ensures
        b == (emoji_text(*emoji) == Some(allowed_flag())),
{
    match emoji {
        Some(s) => {
            let v = chars_of(s.as_str());
            let mut flag: Vec<char> = Vec::new();
            flag.push('\u{1F1EE}');
            flag.push('\u{1F1F1}');
            assert(flag@ =~= allowed_flag());
            same_chars(&v, &flag)
        },
        None => false,
    }
}

/// Keeps the reactions still inside the window.
fn keep_recent(times: &Vec<u64>, now: u64) -> (r: Vec<u64>)
    requires
        forall|i: int| 0 <= i < times@.len() ==> times@[i] <= now,
    ensures
        r@ == recent(times@, now),
{
    let mut r: Vec<u64> = Vec::new();
    let mut i: usize = 0;
    while i < times.len()
        invariant
            i <= times.len(),
            forall|j: int| 0 <= j < times@.len() ==> times@[j] <= now,
            r@ == recent(times@.take(i as int), now),
        decreases times.len() - i,
    {
        assert(times@.take(i + 1).drop_last() =~= times@.take(i as int));
        reveal_with_fuel(Seq::filter, 1);
        if now - times[i] < WINDOW_SECS {
            r.push(times[i]);
        }
        i = i + 1;
    }
    assert(times@.take(times.len() as int) =~= times@);
    r
}

/// A reaction was added: reactions of the watched user other than the
/// allowed flag are deleted; the flag is deleted too when it was already
/// kept three times in the last five minutes, and recorded otherwise. The
/// clock (`now`) reading earlier than a kept reaction is not an input this
/// function takes.
pub fn reaction_add(
    log: &mut ReactionLog,
    user: Option<u64>,
    emoji: &Option<String>,
    now: u64,
) -> (r: ReactionAction)
    requires
        counted(user, emoji_text(*emoji)) ==> forall|i: int|
            0 <= i < old(log).times@.len() ==> old(log).times@[i] <= now,
    ensures
        r == reaction_action_spec(old(log).times@, user, emoji_text(*emoji), now),
        final(log).times@ == reaction_log_spec(old(log).times@, user, emoji_text(*emoji), now),
{
    let watched = match user {
        Some(u) => u == WATCHED_USER_ID,
        None => false,
    };
    if !watched {
        return ReactionAction::Ignore;
    }
    if !is_allowed_flag(emoji) {
        return ReactionAction::Delete;
    }
    let kept = keep_recent(&log.times, now);
    log.times = kept;
    if log.times.len() >= 3 {
        ReactionAction::Delete
    } else {
        log.times.push(now);
        ReactionAction::Record
    }
}

/// The log never holds more than three reactions, all of them from the
/// last five minutes and none from after `now`: whatever reaction comes,
/// the bot keeps this invariant.
pub proof fn lemma_log_bounded(
    times: Seq<u64>,
    user: Option<u64>,
    emoji: Option<Seq<char>>,
    now: u64,
)
    requires
        times.len() <= 3,
        counted(user, emoji) ==> forall|i: int| 0 <= i < times.len() ==> times[i] <= now,
    ensures
        reaction_log_spec(times, user, emoji, now).len() <= 3,
        counted(user, emoji) ==> forall|i: int|
            0 <= i < reaction_log_spec(times, user, emoji, now).len() ==> {
                let t = #[trigger] reaction_log_spec(times, user, emoji, now)[i];
                t <= now && now - t < 300
            },
{
    if counted(user, emoji) {
        let f = in_window(now);
        broadcast use vstd::seq_lib::group_filter_ensures;
        let k = recent(times, now);
        assert forall|i: int| 0 <= i < k.len() implies k[i] <= now && now - k[i] < 300 by {
            lemma_filter_from(times, f, i);
        }
        if k.len() < 3 {
            let p = k.push(now);
            assert forall|i: int| 0 <= i < p.len() implies p[i] <= now && now - p[i] < 300 by {
                if i < k.len() {
                    assert(p[i] == k[i]);
                }
            }
        }
        assert(k.len() <= times.len());
    }
}

/// Every element that filtering keeps comes from the filtered sequence.
proof fn lemma_filter_from(s: Seq<u64>, f: spec_fn(u64) -> bool, i: int)
    requires
        0 <= i < s.filter(f).len(),
    ensures
        s.contains(s.filter(f)[i]),
    decreases s.len(),
{
    reveal_with_fuel(Seq::filter, 1);
    if s.len() > 0 {
        let d = s.drop_last().filter(f);
        if i < d.len() {
            if f(s.last()) {
                assert(s.filter(f)[i] == d[i]);
            }
            lemma_filter_from(s.drop_last(), f, i);
            let j = choose|j: int| 0 <= j < s.drop_last().len() && s.drop_last()[j] == d[i];
            assert(s[j] == d[i]);
        } else {
            assert(s.filter(f)[i] == s[s.len() - 1]);
        }
    }
}

/// A reaction as the bot sees it: who reacted, with what emoji (its text,
/// if it has one) and when (Unix seconds).
pub struct SeenReaction {
    pub user: Option<u64>,
    pub emoji: Option<Seq<char>>,
    pub time: u64,
}

/// Whether the reactions come in the order of their times.
pub open spec fn in_time_order(rs: Seq<SeenReaction>) -> bool {
    forall|i: int, j: int| 0 <= i <= j < rs.len() ==> #[trigger] rs[i].time <= #[trigger] rs[j].time
}

/// The log once the bot, starting from an empty log, has handled the
/// reactions `rs` in turn.
pub open spec fn log_after(rs: Seq<SeenReaction>) -> Seq<u64>
    decreases rs.len(),
{
    if rs.len() == 0 {
        Seq::empty()
    } else {
        let r = rs.last();
        reaction_log_spec(log_after(rs.drop_last()), r.user, r.emoji, r.time)
    }
}

/// The times of the reactions among `rs` that the bot recorded (and so left
/// in place).
pub open spec fn recorded(rs: Seq<SeenReaction>) -> Seq<u64>
    decreases rs.len(),
{
    if rs.len() == 0 {
        Seq::empty()
    } else {
        let r = rs.last();
        let before = recorded(rs.drop_last());
        let action = reaction_action_spec(log_after(rs.drop_last()), r.user, r.emoji, r.time);
        if action is Record {
            before.push(r.time)
        } else {
            before
        }
    }
}

/// The time of the last reaction among `rs` that counts (0 when none does).
pub open spec fn last_counted(rs: Seq<SeenReaction>) -> u64
    decreases rs.len(),
{
    if rs.len() == 0 {
        0
    } else if counted(rs.last().user, rs.last().emoji) {
        rs.last().time
    } else {
        last_counted(rs.drop_last())
    }
}

/// Whether a time lies in the five minutes that end at `t`: after
/// `t - 300` and not after `t`.
pub open spec fn in_five_minutes_to(t: int) -> spec_fn(u64) -> bool {
    |x: u64| t - 300 < x && x <= t
}

/// Whether every time of `s` is at most `t`.
pub open spec fn all_at_most(s: Seq<u64>, t: int) -> bool {
    forall|i: int| 0 <= i < s.len() ==> #[trigger] s[i] <= t
}

/// Filtering twice is filtering by the second test alone when the second
/// implies the first on every element.
proof fn lemma_filter_twice(s: Seq<u64>, p: spec_fn(u64) -> bool, q: spec_fn(u64) -> bool)
    requires
        forall|i: int| 0 <= i < s.len() && q(#[trigger] s[i]) ==> p(s[i]),
    ensures
        s.filter(p).filter(q) == s.filter(q),
    decreases s.len(),
{
    broadcast use Seq::lemma_filter_push;

    if s.len() > 0 {
        let d = s.drop_last();
        assert forall|i: int| 0 <= i < d.len() && q(#[trigger] d[i]) implies p(d[i]) by {
            assert(d[i] == s[i]);
        }
        lemma_filter_twice(d, p, q);
        assert(d.push(s.last()) =~= s);
        assert(q(s[s.len() - 1]) ==> p(s[s.len() - 1]));
    }
}

/// A weaker test keeps at least as many elements.
proof fn lemma_filter_len_mono(s: Seq<u64>, p: spec_fn(u64) -> bool, q: spec_fn(u64) -> bool)
    requires
        forall|i: int| 0 <= i < s.len() && p(#[trigger] s[i]) ==> q(s[i]),
    ensures
        s.filter(p).len() <= s.filter(q).len(),
    decreases s.len(),
{
    broadcast use Seq::lemma_filter_len_push;

    if s.len() > 0 {
        let d = s.drop_last();
        assert forall|i: int| 0 <= i < d.len() && p(#[trigger] d[i]) implies q(d[i]) by {
            assert(d[i] == s[i]);
        }
        lemma_filter_len_mono(d, p, q);
        assert(d.push(s.last()) =~= s);
        assert(p(s[s.len() - 1]) ==> q(s[s.len() - 1]));
    }
}

/// What holds after every prefix of a history in time order: the log is
/// the recorded reactions still inside the window at the last counted
/// reaction, it holds at most three of them, and no five minutes hold more
/// than three recorded reactions.
proof fn lemma_history_invariant(rs: Seq<SeenReaction>)
    requires
        in_time_order(rs),
    ensures
        log_after(rs) == recorded(rs).filter(in_window(last_counted(rs))),
        all_at_most(recorded(rs), last_counted(rs) as int),
        rs.len() > 0 ==> last_counted(rs) <= rs.last().time,
        log_after(rs).len() <= 3,
        forall|t: int| #[trigger] recorded(rs).filter(in_five_minutes_to(t)).len() <= 3,
    decreases rs.len(),
{
    broadcast use Seq::lemma_filter_push;
    broadcast use Seq::lemma_filter_len_push;

    if rs.len() == 0 {
        assert(recorded(rs).filter(in_window(0)) =~= Seq::<u64>::empty()) by {
            reveal_with_fuel(Seq::filter, 1);
        }
        assert forall|t: int| #[trigger] recorded(rs).filter(in_five_minutes_to(t)).len() <= 3 by {
            reveal_with_fuel(Seq::filter, 1);
        }
    } else {
        let d = rs.drop_last();
        let r = rs.last();
        assert(in_time_order(d)) by {
            assert forall|i: int, j: int| 0 <= i <= j < d.len() implies #[trigger] d[i].time
                <= #[trigger] d[j].time by {
                assert(rs[i].time <= rs[j].time);
            }
        }
        lemma_history_invariant(d);
        let lc = last_counted(d);
        let kept = recorded(d);
        let log = log_after(d);
        let now = r.time;
        assert(lc <= now) by {
            if d.len() > 0 {
                assert(d.last().time == rs[rs.len() - 2].time);
                assert(rs[rs.len() - 2].time <= rs[rs.len() - 1].time);
            }
        }
        if counted(r.user, r.emoji) {
            lemma_filter_twice(kept, in_window(lc), in_window(now));
            let rec = recent(log, now);
            assert(rec == kept.filter(in_window(now)));
            log.lemma_filter_len(in_window(now));
            if rec.len() >= 3 {
                assert(log_after(rs) == rec);
                assert(recorded(rs) == kept);
            } else {
                assert(log_after(rs) == rec.push(now));
                assert(recorded(rs) == kept.push(now));
                assert(kept.push(now).filter(in_window(now)) == rec.push(now));
                assert forall|t: int| #[trigger] recorded(rs).filter(in_five_minutes_to(t)).len()
                    <= 3 by {
                    let w = in_five_minutes_to(t);
                    assert(kept.filter(w).len() <= 3);
                    if w(now) {
                        lemma_filter_len_mono(kept, w, in_window(now));
                    }
                }
            }
        } else {
            assert(log_after(rs) == log);
            assert(recorded(rs) == kept);
            assert(last_counted(rs) == lc);
        }
    }
}

/// The rate limit holds over any history of reactions in time order,
/// handled from an empty log: the log never holds more than three
/// reactions, and in no five minutes does the bot leave more than three of
/// the watched user's flag reactions in place.
pub proof fn lemma_rate_limit_holds(rs: Seq<SeenReaction>, t: int)
    requires
        in_time_order(rs),
    ensures
        log_after(rs).len() <= 3,
        recorded(rs).filter(in_five_minutes_to(t)).len() <= 3,
        rs.len() > 0 ==> all_at_most(log_after(rs), rs.last().time as int),
{
    lemma_history_invariant(rs);
    if rs.len() > 0 {
        let f = in_window(last_counted(rs));
        assert forall|i: int| 0 <= i < log_after(rs).len() implies #[trigger] log_after(rs)[i]
            <= rs.last().time by {
            lemma_filter_from(recorded(rs), f, i);
            let j = choose|j: int|
                0 <= j < recorded(rs).len() && recorded(rs)[j] == recorded(rs).filter(f)[i];
            assert(recorded(rs)[j] <= last_counted(rs));
        }
    }
}

} // verus!
