use vstd::prelude::*;

use crate::members::{
    all_members_parse, country_of, country_of_spec, is_member, is_member_spec, search_parses, Member,
};
use crate::numbers::{decimal, decimal_chars, parse_i64, parse_i64_spec};
use crate::perms::{is_owner, OWNER_ID};
use crate::words::texts;
use crate::text::{
    all_ascii, ascii_lower, chars_of, ends_with_chars, ends_with_spec, same_chars,
    spec_to_lowercase, starts_with_chars, starts_with_spec, string_of, to_lowercase, trim_chars,
    trim_spec, trim_start_matches_chars, trim_start_matches_spec,
};

verus! {

/// Calls rand 0.8: `rand::thread_rng().gen_range(low..=high)`, a random
/// number between the bounds, both included (an empty range, which makes it
/// panic, is excluded). Which number comes is chance: only the range is
/// promised.
#[verifier::external_body]
fn random_between(low: i64, high: i64) -> (r: i64)
    requires
        low <= high,
    ensures
        low <= r <= high,
{
    rand::Rng::gen_range(&mut rand::thread_rng(), low..=high)
}

/// A roll of `!rng`.
#[derive(Debug, PartialEq, Eq)]
pub struct RngRoll {
    pub roll: i64,
    pub chance: i64,
    pub success: bool,
}

/// The chance (in percent) that `!rng <chance>` asks for: the trimmed
/// argument read as a number between 1 and 100.
pub open spec fn rng_chance(args: Seq<char>) -> Option<i64> {
    match parse_i64_spec(trim_spec(args)) {
        Some(c) => if 1 <= c <= 100 {
            Some(c)
        } else {
            None
        },
        None => None,
    }
}

/// The outcome of a roll against a chance: a success when the roll is at
/// most the chance.
pub fn rng_outcome(chance: i64, roll: i64) -> (r: RngRoll)
    ensures
        r == (RngRoll { roll, chance, success: roll <= chance }),
{
    RngRoll { roll, chance, success: roll <= chance }
}

/// `!rng <chance>`: rolls a number from 1 to 100 against a chance; nothing
/// when the chance is not a number from 1 to 100.
pub fn cmd_rng(args: &str) -> (r: Option<RngRoll>)
    ensures
        r is Some == rng_chance(args@) is Some,
        r matches Some(x) ==> x.chance == rng_chance(args@)->0 && 1 <= x.roll <= 100 && x.success
            == (x.roll <= x.chance),
{
    let chance = match parse_i64(&trim_chars(&chars_of(args))) {
        Some(c) => c,
        None => return None,
    };
    if chance < 1 || chance > 100 {
        return None;
    }
    let roll = random_between(1, 100);
    Some(rng_outcome(chance, roll))
}

/// The weather that `!weather` announces.
#[derive(Debug, PartialEq, Eq, Clone, Copy)]
pub enum Weather {
    Normal,
    Monsoon,
    Winter,
    Drought,
}

/// The weather for a roll from 1 to 4.
pub open spec fn weather_for_spec(roll: i64) -> Weather {
    if roll == 1 {
        Weather::Normal
    } else if roll == 2 {
        Weather::Monsoon
    } else if roll == 3 {
        Weather::Winter
    } else {
        Weather::Drought
    }
}

/// The weather for a roll: 1 normal, 2 monsoon, 3 winter, otherwise drought.
pub fn weather_for(roll: i64) -> (w: Weather)
    ensures
        w == weather_for_spec(roll),
{
    if roll == 1 {
        Weather::Normal
    } else if roll == 2 {
        Weather::Monsoon
    } else if roll == 3 {
        Weather::Winter
    } else {
        Weather::Drought
    }
}

/// `!weather`: a member draws one of the four weathers at random; a user
/// who speaks for no country gets none. Every member's ids are read.
pub fn cmd_weather(members: &Vec<Member>, author: u64) -> (r: Option<Weather>)
    requires
        all_members_parse(members@),
    ensures
        r is Some == is_member_spec(members@, author),
        r matches Some(w) ==> exists|roll: i64| 1 <= roll <= 4 && w == weather_for_spec(roll),
{
    if !is_member(members, author) {
        return None;
    }
    let roll = random_between(1, 4);
    Some(weather_for(roll))
}

/// The users whose `!save` the bot ignores.
pub open spec fn save_blocked(user: u64) -> bool {
    user == 1236138274855194756u64 || user == 1474908448784121896u64 || user
        == 1039098840193716324u64
}

/// Whether the bot ignores `!save` from `user`.
pub fn save_blocked_user(user: u64) -> (b: bool)
    ensures
        b == save_blocked(user),
{
    user == 1236138274855194756u64 || user == 1474908448784121896u64 || user == 1039098840193716324u64
}

/// What `!save` does.
pub enum SaveDecision {
    /// The author may not save: the bot says nothing.
    Blocked,
    NoCountry,
    NoAttachment,
    /// Forward each attachment, signed with the country.
    Save(String),
}

/// `!save`: a member forwards the message's attachments to the archive
/// channel.
pub fn cmd_save(members: &Vec<Member>, author: u64, attachment_count: usize) -> (r: SaveDecision)
    requires
        !save_blocked(author) ==> search_parses(members@, author),
    ensures
        save_blocked(author) ==> r is Blocked,
        !save_blocked(author) && country_of_spec(members@, author) is None ==> r is NoCountry,
        !save_blocked(author) && country_of_spec(members@, author) is Some && attachment_count == 0
            ==> r is NoAttachment,
        !save_blocked(author) && country_of_spec(members@, author) is Some && attachment_count > 0
            ==> (r matches SaveDecision::Save(c) && c@ == country_of_spec(members@, author)->0),
{
    if save_blocked_user(author) {
        return SaveDecision::Blocked;
    }
    let country = match country_of(members, author) {
        Some(c) => c,
        None => return SaveDecision::NoCountry,
    };
    if attachment_count == 0 {
        return SaveDecision::NoAttachment;
    }
    SaveDecision::Save(country)
}

/// The index of the first attachment whose name ends with `.txt`.
pub open spec fn first_txt(names: Seq<Seq<char>>) -> Option<int>
    decreases names.len(),
{
    if names.len() == 0 {
        None
    } else if ends_with_spec(names[0], ".txt"@) {
        Some(0)
    } else {
        match first_txt(names.drop_first()) {
            Some(i) => Some(i + 1),
            None => None,
        }
    }
}

proof fn lemma_first_txt(names: Seq<Seq<char>>, k: int)
    requires
        0 <= k <= names.len(),
        forall|j: int| 0 <= j < k ==> !ends_with_spec(#[trigger] names[j], ".txt"@),
        k == names.len() || ends_with_spec(names[k], ".txt"@),
    ensures
        first_txt(names) == (if k < names.len() {
            Some(k)
        } else {
            None::<int>
        }),
    decreases k,
{
    if k > 0 {
        assert(!ends_with_spec(names[0], ".txt"@));
        assert forall|j: int| 0 <= j < k - 1 implies !ends_with_spec(
            #[trigger] names.drop_first()[j],
            ".txt"@,
        ) by {
            assert(names.drop_first()[j] == names[j + 1]);
        }
        if k < names.len() {
            assert(names.drop_first()[k - 1] == names[k]);
        }
        lemma_first_txt(names.drop_first(), k - 1);
    }
}

/// The text that a `!savearsenal` message carries after its command word:
/// the message text, without leading repetitions of `!savearsenal`,
/// trimmed.
pub open spec fn arsenal_text(content: Seq<char>) -> Seq<char> {
    trim_spec(trim_start_matches_spec(content, "!savearsenal"@))
}

/// What `!savearsenal` does.
pub enum ArsenalDecision {
    NoCountry,
    /// Download the attachment at `index` (the first `.txt` file).
    Download { country: String, file_name: String, index: usize },
    /// Save the text of the message itself.
    Inline { country: String, file_name: String, content: String },
    /// Neither a `.txt` file nor any text.
    NeedContent,
}

/// `!savearsenal`: a member files an arsenal entry for their country, from
/// the first attached `.txt` file or else from the text after the command
/// word; the saved file is named after that attachment, else `entry`.
pub fn cmd_savearsenal(
    members: &Vec<Member>,
    author: u64,
    attachment_names: &Vec<String>,
    content: &str,
) -> (r: ArsenalDecision)
    requires
        search_parses(members@, author),
    ensures
        ({
            let names = texts(attachment_names@);
            match country_of_spec(members@, author) {
                None => r is NoCountry,
                Some(country) => match first_txt(names) {
                    Some(i) => r matches ArsenalDecision::Download { country: c, file_name: f, index: x }
                        && c@ == country && x == i && f@ == names[i],
                    None => if arsenal_text(content@).len() > 0 {
                        r matches ArsenalDecision::Inline { country: c, file_name: f, content: t }
                            && c@ == country && f@ == "entry"@ && t@ == arsenal_text(content@)
                    } else {
                        r is NeedContent
                    },
                },
            }
        }),
{
    let ghost names = texts(attachment_names@);
    let country = match country_of(members, author) {
        Some(c) => c,
        None => return ArsenalDecision::NoCountry,
    };
    let txt = chars_of(".txt");
    let mut i: usize = 0;
    while i < attachment_names.len()
        invariant
            i <= attachment_names.len(),
            names == texts(attachment_names@),
            txt@ == ".txt"@,
            country_of_spec(members@, author) is Some,
            country@ == country_of_spec(members@, author)->0,
            forall|j: int| 0 <= j < i ==> !ends_with_spec(#[trigger] names[j], ".txt"@),
        decreases attachment_names.len() - i,
    {
        let name = chars_of(attachment_names[i].as_str());
        assert(names[i as int] == attachment_names@[i as int]@);
        if ends_with_chars(&name, &txt) {
            proof {
                lemma_first_txt(names, i as int);
            }
            let file_name = attachment_names[i].clone();
            assert(file_name@ == names[i as int]);
            assert(first_txt(names) == Some(i as int));
            return ArsenalDecision::Download { country, file_name, index: i };
        }
        i = i + 1;
    }
    proof {
        lemma_first_txt(names, i as int);
    }
    let text = trim_chars(&trim_start_matches_chars(&chars_of(content), &chars_of("!savearsenal")));
    if text.len() > 0 {
        ArsenalDecision::Inline {
            country,
            file_name: string_of(&chars_of("entry")),
            content: string_of(&text),
        }
    } else {
        ArsenalDecision::NeedContent
    }
}

/// An arsenal entry as the bot files it.
pub struct ArsenalEntry {
    pub country: String,
    pub user_id: String,
    pub content: String,
    pub timestamp: u64,
}

/// The entry that `author` files for `country` at `timestamp`; the user id
/// is written in decimal.
pub fn arsenal_entry(country: String, author: u64, content: String, timestamp: u64) -> (e: ArsenalEntry)
    ensures
        e.country == country,
        e.user_id@ == decimal(author as nat),
        e.content == content,
        e.timestamp == timestamp,
{
    ArsenalEntry { country, user_id: string_of(&decimal_chars(author)), content, timestamp }
}

/// The path under which an arsenal entry is also saved:
/// `<dir>/<date>_<country>_<file name>`.
pub fn arsenal_file_path(dir: &str, date: &str, country: &str, file_name: &str) -> (r: String)
    ensures
        r@ == dir@ + "/"@ + date@ + "_"@ + country@ + "_"@ + file_name@,
{
    let mut v = chars_of(dir);
    let mut parts: Vec<Vec<char>> = Vec::new();
    parts.push(chars_of("/"));
    parts.push(chars_of(date));
    parts.push(chars_of("_"));
    parts.push(chars_of(country));
    parts.push(chars_of("_"));
    parts.push(chars_of(file_name));
    let mut k: usize = 0;
    while k < parts.len()
        invariant
            k <= parts.len(),
            parts.len() == 6,
            parts@[0]@ == "/"@,
            parts@[1]@ == date@,
            parts@[2]@ == "_"@,
            parts@[3]@ == country@,
            parts@[4]@ == "_"@,
            parts@[5]@ == file_name@,
            v@ == (if k == 0 {
                dir@
            } else if k == 1 {
                dir@ + "/"@
            } else if k == 2 {
                dir@ + "/"@ + date@
            } else if k == 3 {
                dir@ + "/"@ + date@ + "_"@
            } else if k == 4 {
                dir@ + "/"@ + date@ + "_"@ + country@
            } else if k == 5 {
                dir@ + "/"@ + date@ + "_"@ + country@ + "_"@
            } else {
                dir@ + "/"@ + date@ + "_"@ + country@ + "_"@ + file_name@
            }),
        decreases parts.len() - k,
    {
        let ghost before = v@;
        let mut j: usize = 0;
        while j < parts[k].len()
            invariant
                k < parts.len(),
                j <= parts@[k as int].len(),
                v@ == before + parts@[k as int]@.take(j as int),
            decreases parts@[k as int].len() - j,
        {
            v.push(parts[k][j]);
            j = j + 1;
            assert(v@ =~= before + parts@[k as int]@.take(j as int));
        }
        assert(parts@[k as int]@.take(j as int) =~= parts@[k as int]@);
        k = k + 1;
    }
    string_of(&v)
}

/// The first step of `!demote`.
#[derive(Debug, PartialEq, Eq)]
pub enum DemoteStart {
    InvalidPerms,
    NotInGuild,
    Usage,
    /// Look up the server's roles, then the mentioned member.
    FetchRoles(u64),
}

/// `!demote @user`: the owner, in a server, names a member to lose the
/// admin role.
pub fn cmd_demote(author: u64, guild: Option<u64>, first_mention: Option<u64>) -> (r: DemoteStart)
    ensures
        r == (if author != OWNER_ID {
            DemoteStart::InvalidPerms
        } else if guild is None {
            DemoteStart::NotInGuild
        } else if first_mention is None {
            DemoteStart::Usage
        } else {
            DemoteStart::FetchRoles(first_mention->0)
        }),
{
    if !is_owner(author) {
        return DemoteStart::InvalidPerms;
    }
    if guild.is_none() {
        return DemoteStart::NotInGuild;
    }
    match first_mention {
        Some(u) => DemoteStart::FetchRoles(u),
        None => DemoteStart::Usage,
    }
}

/// A role of a server: its id and name.
pub struct Role {
    pub id: u64,
    pub name: String,
}

/// Whether a role is the admin role: its lower-cased name is `admin`.
pub open spec fn is_admin_role(r: Role) -> bool {
    spec_to_lowercase(r.name@) == "admin"@
}

/// The id of the first role (in the order given) named exactly `admin`;
/// the names are taken as already lower-cased.
pub fn first_role_named_admin(roles: &Vec<Role>) -> (r: Option<u64>)
    ensures
        r is None ==> forall|i: int| 0 <= i < roles@.len() ==> (#[trigger] roles@[i]).name@ != "admin"@,
        r matches Some(id) ==> exists|i: int|
            0 <= i < roles@.len() && (#[trigger] roles@[i]).name@ == "admin"@ && roles@[i].id == id
                && forall|j: int| 0 <= j < i ==> (#[trigger] roles@[j]).name@ != "admin"@,
{
    let admin = chars_of("admin");
    let mut i: usize = 0;
    while i < roles.len()
        invariant
            i <= roles.len(),
            admin@ == "admin"@,
            forall|j: int| 0 <= j < i ==> (#[trigger] roles@[j]).name@ != "admin"@,
        decreases roles.len() - i,
    {
        if same_chars(&chars_of(roles[i].name.as_str()), &admin) {
            return Some(roles[i].id);
        }
        i = i + 1;
    }
    None
}

/// The id of the first role (in the order given) whose lower-cased name is
/// `admin`.
pub fn find_admin_role(roles: &Vec<Role>) -> (r: Option<u64>)
    ensures
        r is None ==> forall|i: int| 0 <= i < roles@.len() ==> !is_admin_role(#[trigger] roles@[i]),
        r matches Some(id) ==> exists|i: int|
            0 <= i < roles@.len() && is_admin_role(#[trigger] roles@[i]) && roles@[i].id == id
                && forall|j: int| 0 <= j < i ==> !is_admin_role(#[trigger] roles@[j]),
        forall|i: int|
            0 <= i < roles@.len() && all_ascii(#[trigger] roles@[i].name@) ==> (is_admin_role(
                roles@[i],
            ) == (ascii_lower(roles@[i].name@) == "admin"@)),
{
    let mut lowered: Vec<Role> = Vec::new();
    let mut i: usize = 0;
    while i < roles.len()
        invariant
            i <= roles.len(),
            lowered@.len() == i,
            forall|j: int|
                0 <= j < i ==> (#[trigger] lowered@[j]).id == roles@[j].id && lowered@[j].name@
                    == spec_to_lowercase(roles@[j].name@) && (all_ascii(roles@[j].name@)
                    ==> lowered@[j].name@ == ascii_lower(roles@[j].name@)),
        decreases roles.len() - i,
    {
        lowered.push(Role { id: roles[i].id, name: to_lowercase(roles[i].name.as_str()) });
        i = i + 1;
    }
    let r = first_role_named_admin(&lowered);
    proof {
        assert forall|k: int| 0 <= k < roles@.len() && all_ascii(#[trigger] roles@[k].name@) implies (
        is_admin_role(roles@[k]) == (ascii_lower(roles@[k].name@) == "admin"@)) by {
            assert(lowered@[k].name@ == ascii_lower(roles@[k].name@));
        }
        if r is None {
            assert forall|k: int| 0 <= k < roles@.len() implies !is_admin_role(#[trigger] roles@[k]) by {
                assert(lowered@[k].name@ != "admin"@);
            }
        } else {
            let k = choose|k: int|
                0 <= k < lowered@.len() && (#[trigger] lowered@[k]).name@ == "admin"@ && lowered@[k].id
                    == r->0 && forall|j: int| 0 <= j < k ==> (#[trigger] lowered@[j]).name@ != "admin"@;
            assert(is_admin_role(roles@[k]));
            assert forall|j: int| 0 <= j < k implies !is_admin_role(#[trigger] roles@[j]) by {
                assert(lowered@[j].name@ != "admin"@);
            }
        }
    }
    r
}

/// Whether a member's roles include `role`.
pub fn has_role(member_roles: &Vec<u64>, role: u64) -> (b: bool)
    ensures
        b == member_roles@.contains(role),
{
    let mut i: usize = 0;
    while i < member_roles.len()
        invariant
            i <= member_roles.len(),
            forall|j: int| 0 <= j < i ==> member_roles@[j] != role,
        decreases member_roles.len() - i,
    {
        if member_roles[i] == role {
            return true;
        }
        i = i + 1;
    }
    false
}

/// The name of the ticket channel that `!ticket` opens for a user:
/// `ticket-<user name>`.
pub fn ticket_channel_name(user_name: &str) -> (r: String)
    ensures
        r@ == "ticket-"@ + user_name@,
{
    let mut v = chars_of("ticket-");
    let name = chars_of(user_name);
    let ghost start = v@;
    let mut j: usize = 0;
    while j < name.len()
        invariant
            j <= name.len(),
            start == "ticket-"@,
            v@ == start + name@.take(j as int),
        decreases name.len() - j,
    {
        v.push(name[j]);
        j = j + 1;
        assert(v@ =~= start + name@.take(j as int));
    }
    assert(name@.take(j as int) =~= name@);
    string_of(&v)
}

/// Whom a permission overwrite of a ticket channel applies to.
#[derive(Debug, PartialEq, Eq, Clone, Copy)]
pub enum OverwriteTarget {
    Role(u64),
    Member(u64),
}

/// One permission overwrite of a ticket channel: which of viewing and
/// sending it allows, and whether it denies viewing.
#[derive(Debug, PartialEq, Eq, Clone, Copy)]
pub struct TicketAccess {
    pub target: OverwriteTarget,
    pub allow_view: bool,
    pub allow_send: bool,
    pub deny_view: bool,
}

/// Who may see a ticket channel: the `@everyone` role may not view it;
/// the author and the bot may view it and send to it.
pub fn ticket_permissions(everyone_role: u64, author: u64, bot: u64) -> (r: Vec<TicketAccess>)
    ensures
        r@ == seq![
            TicketAccess {
                target: OverwriteTarget::Role(everyone_role),
                allow_view: false,
                allow_send: false,
                deny_view: true,
            },
            TicketAccess {
                target: OverwriteTarget::Member(author),
                allow_view: true,
                allow_send: true,
                deny_view: false,
            },
            TicketAccess {
                target: OverwriteTarget::Member(bot),
                allow_view: true,
                allow_send: true,
                deny_view: false,
            },
        ],
{
    let mut r: Vec<TicketAccess> = Vec::new();
    r.push(
        TicketAccess {
            target: OverwriteTarget::Role(everyone_role),
            allow_view: false,
            allow_send: false,
            deny_view: true,
        },
    );
    r.push(
        TicketAccess {
            target: OverwriteTarget::Member(author),
            allow_view: true,
            allow_send: true,
            deny_view: false,
        },
    );
    r.push(
        TicketAccess {
            target: OverwriteTarget::Member(bot),
            allow_view: true,
            allow_send: true,
            deny_view: false,
        },
    );
    assert(r@ =~= seq![
        TicketAccess {
            target: OverwriteTarget::Role(everyone_role),
            allow_view: false,
            allow_send: false,
            deny_view: true,
        },
        TicketAccess { target: OverwriteTarget::Member(author), allow_view: true, allow_send: true, deny_view: false },
        TicketAccess { target: OverwriteTarget::Member(bot), allow_view: true, allow_send: true, deny_view: false },
    ]);
    r
}

/// Whether `!close` may delete a channel: its name begins with `ticket-`.
pub fn is_ticket_channel(channel_name: &str) -> (b: bool)
    ensures
        b == starts_with_spec(channel_name@, "ticket-"@),
{
    starts_with_chars(&chars_of(channel_name), &chars_of("ticket-"))
}

/// The last Unix second that chrono 0.4 turns into a date (the end of its
/// year 262142).
pub const MAX_TIMESTAMP: i64 = 8210266876799;

/// What chrono's RFC 3339 rendering of the UTC time `secs` (Unix seconds)
/// gives.
pub uninterp spec fn spec_rfc3339_utc(secs: int) -> Seq<char>;

/// Calls chrono: `DateTime::<Utc>::from_timestamp(secs, 0)` and
/// `to_rfc3339`. The text is named, not described. `from_timestamp` fails
/// past chrono's last date, which is excluded.
#[verifier::external_body]
fn rfc3339_utc(secs: i64) -> (r: String)
    requires
        0 <= secs <= MAX_TIMESTAMP,
    ensures
        r@ == spec_rfc3339_utc(secs as int),
{
    chrono::DateTime::<chrono::Utc>::from_timestamp(secs, 0).unwrap().to_rfc3339()
}

/// How long (seconds) an automod timeout lasts.
pub const TIMEOUT_SECS: u64 = 300;

/// The moment, in RFC 3339, until which an author caught by the automod
/// rules at `now` (Unix seconds) is timed out: five minutes later.
pub fn timeout_until(now: u64) -> (r: String)
    requires
        now + 300 <= MAX_TIMESTAMP,
    ensures
        r@ == spec_rfc3339_utc(now + 300),
{
    let secs = now + TIMEOUT_SECS;
    rfc3339_utc(secs as i64)
}

} // verus!
