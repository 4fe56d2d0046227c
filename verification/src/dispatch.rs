use vstd::prelude::*;

use crate::automod::{
    ascii_lists, automod_triggered, triggered_ascii, triggered_spec, AutomodConfig,
};
use crate::ignore::{ignored_spec, is_ignored, IgnoreList};
use crate::perms::{is_owner, OWNER_ID};
use crate::text::{
    all_ascii, chars_of, lemma_ascii_trim, same_chars, starts_with_chars, starts_with_spec,
    string_of, strip_prefix_chars, strip_prefix_spec, trim_chars, trim_spec, trim_start_chars,
    trim_start_spec,
};
use crate::tracker::{is_tracked_at, tracked_at_spec, DeleteTracker};

verus! {

/// The command a message asks for, with the text of its arguments.
#[derive(Debug, PartialEq, Eq)]
pub enum Command {
    Rng(String),
    Pay(String),
    CheckBalance,
    Ticket,
    Close,
    Weather,
    Give(String),
    Remove(String),
    CheckAll,
    Save,
    SaveArsenal,
    AddGdp(String),
    Stocks,
    Demote,
    AddWord(String),
    RemoveWord(String),
    Ignore(String),
    Unignore(String),
    DeleteSentMessages(String),
    UndeleteSentMessages(String),
    Unknown,
}

/// The text after `prefix`, when `c` begins with it.
pub open spec fn after(c: Seq<char>, prefix: Seq<char>) -> Seq<char> {
    strip_prefix_spec(c, prefix)->0
}

/// Whether `c` begins with `prefix`.
pub open spec fn has_prefix(c: Seq<char>, prefix: Seq<char>) -> bool {
    strip_prefix_spec(c, prefix) is Some
}

/// Whether `cmd` is the command that the (trimmed) message text `c` asks
/// for: the prefixes are tried in the bot's order, the first that matches
/// wins, and the arguments of the moderation commands lose their leading
/// whitespace.
pub open spec fn route_spec(c: Seq<char>, cmd: Command) -> bool {
    if has_prefix(c, "!rng "@) {
        cmd matches Command::Rng(a) && a@ == after(c, "!rng "@)
    } else if has_prefix(c, "!pay "@) {
        cmd matches Command::Pay(a) && a@ == after(c, "!pay "@)
    } else if c == "!checkbalance"@ {
        cmd is CheckBalance
    } else if c == "!ticket"@ {
        cmd is Ticket
    } else if c == "!close"@ {
        cmd is Close
    } else if c == "!weather"@ {
        cmd is Weather
    } else if has_prefix(c, "!give "@) {
        cmd matches Command::Give(a) && a@ == after(c, "!give "@)
    } else if has_prefix(c, "!remove "@) {
        cmd matches Command::Remove(a) && a@ == after(c, "!remove "@)
    } else if c == "!checkall"@ {
        cmd is CheckAll
    } else if c == "!save"@ {
        cmd is Save
    } else if starts_with_spec(c, "!savearsenal"@) {
        cmd is SaveArsenal
    } else if has_prefix(c, "!addgdp "@) {
        cmd matches Command::AddGdp(a) && a@ == after(c, "!addgdp "@)
    } else if c == "!stocks"@ {
        cmd is Stocks
    } else if starts_with_spec(c, "!demote"@) {
        cmd is Demote
    } else if has_prefix(c, "!addword "@) {
        cmd matches Command::AddWord(a) && a@ == after(c, "!addword "@)
    } else if has_prefix(c, "!removeword "@) {
        cmd matches Command::RemoveWord(a) && a@ == after(c, "!removeword "@)
    } else if has_prefix(c, "!ignore"@) {
        cmd matches Command::Ignore(a) && a@ == trim_start_spec(after(c, "!ignore"@))
    } else if has_prefix(c, "!unignore"@) {
        cmd matches Command::Unignore(a) && a@ == trim_start_spec(after(c, "!unignore"@))
    } else if has_prefix(c, "!deletesentmessages"@) {
        cmd matches Command::DeleteSentMessages(a) && a@ == trim_start_spec(
            after(c, "!deletesentmessages"@),
        )
    } else if has_prefix(c, "!undeletesentmessages"@) {
        cmd matches Command::UndeleteSentMessages(a) && a@ == trim_start_spec(
            after(c, "!undeletesentmessages"@),
        )
    } else {
        cmd is Unknown
    }
}

/// The arguments after `prefix`, when `c` begins with it.
fn args_after(c: &Vec<char>, prefix: &str) -> (r: Option<String>)
    ensures
        r is Some == has_prefix(c@, prefix@),
        r is Some ==> r->0@ == after(c@, prefix@),
{
    match strip_prefix_chars(c, &chars_of(prefix)) {
        Some(a) => Some(string_of(&a)),
        None => None,
    }
}

/// The arguments after `prefix` without their leading whitespace, when `c`
/// begins with `prefix`.
fn trimmed_args_after(c: &Vec<char>, prefix: &str) -> (r: Option<String>)
    ensures
        r is Some == has_prefix(c@, prefix@),
        r is Some ==> r->0@ == trim_start_spec(after(c@, prefix@)),
{
    match strip_prefix_chars(c, &chars_of(prefix)) {
        Some(a) => Some(string_of(&trim_start_chars(&a))),
        None => None,
    }
}

/// Whether `c` is exactly `word`.
fn is_word(c: &Vec<char>, word: &str) -> (b: bool)
    ensures
        b == (c@ == word@),
{
    same_chars(c, &chars_of(word))
}

/// Whether `c` begins with `prefix`.
fn begins(c: &Vec<char>, prefix: &str) -> (b: bool)
    ensures
        b == starts_with_spec(c@, prefix@),
{
    starts_with_chars(c, &chars_of(prefix))
}

/// The command that the (trimmed) message text `content` asks for.
pub fn route_command(content: &str) -> (r: Command)
    ensures
        route_spec(content@, r),
{
    let c = chars_of(content);
    if let Some(a) = args_after(&c, "!rng ") {
        Command::Rng(a)
    } else if let Some(a) = args_after(&c, "!pay ") {
        Command::Pay(a)
    } else if is_word(&c, "!checkbalance") {
        Command::CheckBalance
    } else if is_word(&c, "!ticket") {
        Command::Ticket
    } else if is_word(&c, "!close") {
        Command::Close
    } else if is_word(&c, "!weather") {
        Command::Weather
    } else if let Some(a) = args_after(&c, "!give ") {
        Command::Give(a)
    } else if let Some(a) = args_after(&c, "!remove ") {
        Command::Remove(a)
    } else if is_word(&c, "!checkall") {
        Command::CheckAll
    } else if is_word(&c, "!save") {
        Command::Save
    } else if begins(&c, "!savearsenal") {
        Command::SaveArsenal
    } else if let Some(a) = args_after(&c, "!addgdp ") {
        Command::AddGdp(a)
    } else if is_word(&c, "!stocks") {
        Command::Stocks
    } else if begins(&c, "!demote") {
        Command::Demote
    } else if let Some(a) = args_after(&c, "!addword ") {
        Command::AddWord(a)
    } else if let Some(a) = args_after(&c, "!removeword ") {
        Command::RemoveWord(a)
    } else if let Some(a) = trimmed_args_after(&c, "!ignore") {
        Command::Ignore(a)
    } else if let Some(a) = trimmed_args_after(&c, "!unignore") {
        Command::Unignore(a)
    } else if let Some(a) = trimmed_args_after(&c, "!deletesentmessages") {
        Command::DeleteSentMessages(a)
    } else if let Some(a) = trimmed_args_after(&c, "!undeletesentmessages") {
        Command::UndeleteSentMessages(a)
    } else {
        Command::Unknown
    }
}

/// What the bot does with a new message.
#[derive(Debug, PartialEq, Eq)]
pub enum MessageAction {
    /// Say nothing: the author is a bot, or ignored.
    Nothing,
    /// Delete the message and time the author out: it breaks the automod
    /// rules.
    AutomodDelete,
    /// Delete the message: its author is tracked.
    TrackedDelete,
    /// Run the command.
    Run(Command),
}

/// Whether `r` is what the bot does with a message: messages of bots are
/// left alone; the owner's messages pass the automod rules; then the
/// deletion tracker and the ignore list apply; then the trimmed text is
/// routed.
pub open spec fn message_action_spec(
    r: MessageAction,
    author_is_bot: bool,
    author: u64,
    content: Seq<char>,
    cfg: AutomodConfig,
    tracker: DeleteTracker,
    ignore: IgnoreList,
    now: i64,
) -> bool {
    let c = trim_spec(content);
    if author_is_bot {
        r is Nothing
    } else if author != OWNER_ID && triggered_spec(cfg@, author, c) {
        r is AutomodDelete
    } else if tracked_at_spec(tracker@, author, now as int) {
        r is TrackedDelete
    } else if ignored_spec(ignore@, author) {
        r is Nothing
    } else {
        r matches MessageAction::Run(cmd) && route_spec(c, cmd)
    }
}

/// Decides what the bot does with a message of `author` whose text is
/// `content`, at the time `now`.
pub fn message_action(
    author_is_bot: bool,
    author: u64,
    content: &str,
    cfg: &AutomodConfig,
    tracker: &DeleteTracker,
    ignore: &IgnoreList,
    now: i64,
) -> (r: MessageAction)
    requires
        cfg.wf(),
        tracker.wf(),
    ensures
        message_action_spec(r, author_is_bot, author, content@, *cfg, *tracker, *ignore, now),
        !author_is_bot && author != OWNER_ID && all_ascii(content@) && ascii_lists(cfg@, author)
            ==> triggered_spec(cfg@, author, trim_spec(content@)) == triggered_ascii(
            cfg@,
            author,
            trim_spec(content@),
        ),
{
    if author_is_bot {
        return MessageAction::Nothing;
    }
    proof {
        if all_ascii(content@) {
            lemma_ascii_trim(content@);
        }
    }
    let c = string_of(&trim_chars(&chars_of(content)));
    if !is_owner(author) && automod_triggered(cfg, author, c.as_str()) {
        return MessageAction::AutomodDelete;
    }
    if is_tracked_at(tracker, author, now) {
        return MessageAction::TrackedDelete;
    }
    if is_ignored(ignore, author) {
        return MessageAction::Nothing;
    }
    MessageAction::Run(route_command(c.as_str()))
}

/// The gates every message passes: bots are never answered; the owner is
/// never caught by the automod rules; a command runs only for an author who
/// is neither tracked nor ignored (and, unless the owner, breaks no automod
/// rule).
pub proof fn lemma_message_gates(
    r: MessageAction,
    author_is_bot: bool,
    author: u64,
    content: Seq<char>,
    cfg: AutomodConfig,
    tracker: DeleteTracker,
    ignore: IgnoreList,
    now: i64,
)
    requires
        message_action_spec(r, author_is_bot, author, content, cfg, tracker, ignore, now),
    ensures
        author_is_bot ==> r is Nothing,
        author == OWNER_ID ==> !(r is AutomodDelete),
        r is Run ==> {
            &&& !author_is_bot
            &&& !tracked_at_spec(tracker@, author, now as int)
            &&& !ignored_spec(ignore@, author)
            &&& author != OWNER_ID ==> !triggered_spec(cfg@, author, trim_spec(content))
        },
{
}

/// A text that begins with `p` does not begin with a `q` that differs
/// from `p` at a position both have.
proof fn lemma_other_prefix(c: Seq<char>, p: Seq<char>, q: Seq<char>, i: int)
    requires
        starts_with_spec(c, p),
        0 <= i < p.len(),
        i < q.len(),
        p[i] != q[i],
    ensures
        !starts_with_spec(c, q),
        !has_prefix(c, q),
{
    if starts_with_spec(c, q) {
        assert(c.take(p.len() as int)[i] == c.take(q.len() as int)[i]);
    }
}

/// Every message text that begins with `!savearsenal` asks for
/// `!savearsenal`, whatever follows (an attachment's command is often the
/// bare word).
pub proof fn lemma_savearsenal_routes(c: Seq<char>, cmd: Command)
    requires
        starts_with_spec(c, "!savearsenal"@),
        route_spec(c, cmd),
    ensures
        cmd is SaveArsenal,
{
    let p = "!savearsenal"@;
    reveal_strlit("!savearsenal");
    reveal_strlit("!rng ");
    reveal_strlit("!pay ");
    reveal_strlit("!give ");
    reveal_strlit("!remove ");
    reveal_strlit("!checkbalance");
    reveal_strlit("!ticket");
    reveal_strlit("!close");
    reveal_strlit("!weather");
    reveal_strlit("!checkall");
    reveal_strlit("!save");
    lemma_other_prefix(c, p, "!rng "@, 1);
    lemma_other_prefix(c, p, "!pay "@, 1);
    lemma_other_prefix(c, p, "!give "@, 1);
    lemma_other_prefix(c, p, "!remove "@, 1);
    assert(c.len() >= 12);
    assert(c != "!checkbalance"@) by {
        if c == "!checkbalance"@ {
            assert(c.take(12)[1] == c[1]);
        }
    }
    assert(c != "!ticket"@);
    assert(c != "!close"@);
    assert(c != "!weather"@);
    assert(c != "!checkall"@);
    assert(c != "!save"@);
}

} // verus!
