use vstd::prelude::*;

use crate::numbers::{parse_u64, parse_u64_spec};
use crate::text::chars_of;

verus! {

/// The Discord user ids of a member, written as decimal text: one id or
/// several.
pub enum OneOrMany {
    One(String),
    Many(Vec<String>),
}

/// A registered member: the user ids that speak for a country.
pub struct Member {
    pub id: OneOrMany,
    pub country: String,
}

impl OneOrMany {
    /// The id texts, in order.
    pub open spec fn texts(&self) -> Seq<Seq<char>> {
        match self {
            OneOrMany::One(s) => seq![s@],
            OneOrMany::Many(v) => v@.map_values(|s: String| s@),
        }
    }

    /// Whether every id text is a number that `u64` parsing accepts.
    pub open spec fn all_parse(&self) -> bool {
        forall|i: int| 0 <= i < self.texts().len() ==> (#[trigger] parse_u64_spec(self.texts()[i])) is Some
    }

    /// The ids, once parsed.
    pub open spec fn ids(&self) -> Seq<u64> {
        self.texts().map_values(|t: Seq<char>| parse_u64_spec(t)->0)
    }

    /// The ids as numbers, in order; a text that is not a number is not an
    /// input this function takes.
    pub fn to_ids(&self) -> (r: Vec<u64>)
        requires
            self.all_parse(),
        ensures
            r@ == self.ids(),
    {
        match self {
            OneOrMany::One(s) => {
                let v = chars_of(s.as_str());
                let n = parse_u64(&v);
                assert(self.texts()[0] == s@);
                assert(parse_u64_spec(self.texts()[0]) is Some);
                let mut r: Vec<u64> = Vec::new();
                r.push(n.unwrap());
                assert(r@ =~= self.ids());
                r
            },
            OneOrMany::Many(texts) => {
                let mut r: Vec<u64> = Vec::new();
                let mut i: usize = 0;
                while i < texts.len()
                    invariant
                        i <= texts.len(),
                        self.texts() == texts@.map_values(|s: String| s@),
                        self.all_parse(),
                        r@ == self.ids().take(i as int),
                    decreases texts.len() - i,
                {
                    let v = chars_of(texts[i].as_str());
                    let n = parse_u64(&v);
                    assert(self.texts()[i as int] == texts@[i as int]@);
                    r.push(n.unwrap());
                    i = i + 1;
                    assert(r@ =~= self.ids().take(i as int));
                }
                assert(self.ids().take(i as int) =~= self.ids());
                r
            },
        }
    }
}

/// Whether the member's ids include `user`.
pub open spec fn speaks_for(m: Member, user: u64) -> bool {
    m.id.ids().contains(user)
}

/// Whether the search for the member of `user` (which stops at the first
/// member whose ids include `user`) only reads members whose ids parse.
pub open spec fn search_parses(ms: Seq<Member>, user: u64) -> bool {
    forall|i: int|
        0 <= i < ms.len() && (forall|j: int| 0 <= j < i ==> !speaks_for(ms[j], user))
            ==> (#[trigger] ms[i]).id.all_parse()
}

/// The country of the first member whose ids include `user`.
pub open spec fn country_of_spec(ms: Seq<Member>, user: u64) -> Option<Seq<char>>
    decreases ms.len(),
{
    if ms.len() == 0 {
        None
    } else if speaks_for(ms[0], user) {
        Some(ms[0].country@)
    } else {
        country_of_spec(ms.drop_first(), user)
    }
}

proof fn lemma_country_of_none(ms: Seq<Member>, user: u64, k: int)
    requires
        0 <= k <= ms.len(),
        forall|j: int| 0 <= j < k ==> !speaks_for(#[trigger] ms[j], user),
    ensures
        country_of_spec(ms, user) == country_of_spec(ms.skip(k), user),
    decreases k,
{
    if k > 0 {
        assert(!speaks_for(ms[0], user));
        assert forall|j: int| 0 <= j < k - 1 implies !speaks_for(#[trigger] ms.drop_first()[j], user) by {
            assert(ms.drop_first()[j] == ms[j + 1]);
        }
        lemma_country_of_none(ms.drop_first(), user, k - 1);
        assert(ms.drop_first().skip(k - 1) =~= ms.skip(k));
    } else {
        assert(ms.skip(0) =~= ms);
    }
}

/// Whether `ids` holds `user`.
fn holds_id(ids: &Vec<u64>, user: u64) -> (r: bool)
    ensures
        r == ids@.contains(user),
{
    let mut i: usize = 0;
    while i < ids.len()
        invariant
            i <= ids.len(),
            forall|j: int| 0 <= j < i ==> ids@[j] != user,
        decreases ids.len() - i,
    {
        if ids[i] == user {
            return true;
        }
        i = i + 1;
    }
    false
}

/// The country of the first member (in the order given) whose ids include
/// `user`, as the commands find the country of the author.
pub fn country_of(members: &Vec<Member>, user: u64) -> (r: Option<String>)
    requires
        search_parses(members@, user),
    ensures
        r is Some == country_of_spec(members@, user) is Some,
        r is Some ==> r->0@ == country_of_spec(members@, user)->0,
{
    let mut i: usize = 0;
    while i < members.len()
        invariant
            i <= members.len(),
            search_parses(members@, user),
            forall|j: int| 0 <= j < i ==> !speaks_for(#[trigger] members@[j], user),
        decreases members.len() - i,
    {
        assert(members@[i as int].id.all_parse());
        let ids = members[i].id.to_ids();
        if holds_id(&ids, user) {
            proof {
                lemma_country_of_none(members@, user, i as int);
                assert(members@.skip(i as int)[0] == members@[i as int]);
            }
            return Some(members[i].country.clone());
        }
        i = i + 1;
    }
    proof {
        lemma_country_of_none(members@, user, i as int);
    }
    None
}

/// Whether some member's country is named `name`.
pub open spec fn is_country_spec(ms: Seq<Member>, name: Seq<char>) -> bool {
    exists|i: int| 0 <= i < ms.len() && (#[trigger] ms[i]).country@ == name
}

/// Whether some member's country is named `name` (the test that `!pay`
/// makes of its target).
pub fn is_registered_country(members: &Vec<Member>, name: &String) -> (r: bool)
    ensures
        r == is_country_spec(members@, name@),
        r ==> exists|i: int| 0 <= i < members@.len() && members@[i].country@ == name@,
        !r ==> forall|i: int| 0 <= i < members@.len() ==> members@[i].country@ != name@,
{
    let mut i: usize = 0;
    while i < members.len()
        invariant
            i <= members.len(),
            forall|j: int| 0 <= j < i ==> (#[trigger] members@[j]).country@ != name@,
        decreases members.len() - i,
    {
        if members[i].country == *name {
            return true;
        }
        i = i + 1;
    }
    false
}

/// Whether the ids of `m` are all numbers.
fn ids_parse(m: &Member) -> (r: bool)
    ensures
        r == m.id.all_parse(),
{
    match &m.id {
        OneOrMany::One(s) => {
            let ok = parse_u64(&chars_of(s.as_str())).is_some();
            assert(m.id.texts()[0] == s@);
            ok
        },
        OneOrMany::Many(texts) => {
            let mut i: usize = 0;
            while i < texts.len()
                invariant
                    i <= texts.len(),
                    m.id.texts() == texts@.map_values(|s: String| s@),
                    forall|j: int| 0 <= j < i ==> (#[trigger] parse_u64_spec(m.id.texts()[j])) is Some,
                decreases texts.len() - i,
            {
                assert(m.id.texts()[i as int] == texts@[i as int]@);
                if parse_u64(&chars_of(texts[i].as_str())).is_none() {
                    return false;
                }
                i = i + 1;
            }
            true
        },
    }
}

/// Whether the search for the member of `user` reads only ids that are
/// numbers (the condition under which the commands that look up the
/// author's country can run).
pub fn search_readable(members: &Vec<Member>, user: u64) -> (r: bool)
    ensures
        r == search_parses(members@, user),
{
    let mut i: usize = 0;
    while i < members.len()
        invariant
            i <= members.len(),
            forall|j: int| 0 <= j < i ==> (#[trigger] members@[j]).id.all_parse(),
            forall|j: int| 0 <= j < i ==> !speaks_for(#[trigger] members@[j], user),
        decreases members.len() - i,
    {
        if !ids_parse(&members[i]) {
            return false;
        }
        let ids = members[i].id.to_ids();
        if holds_id(&ids, user) {
            assert forall|k: int|
                0 <= k < members@.len() && (forall|j: int| 0 <= j < k ==> !speaks_for(members@[j], user))
                    implies (#[trigger] members@[k]).id.all_parse() by {
                if k > i {
                    assert(!speaks_for(members@[i as int], user));
                }
            }
            return true;
        }
        i = i + 1;
    }
    true
}

/// Whether every member's ids are numbers (the condition under which
/// `!weather` can run).
pub fn all_readable(members: &Vec<Member>) -> (r: bool)
    ensures
        r == all_members_parse(members@),
{
    let mut i: usize = 0;
    while i < members.len()
        invariant
            i <= members.len(),
            forall|j: int| 0 <= j < i ==> (#[trigger] members@[j]).id.all_parse(),
        decreases members.len() - i,
    {
        if !ids_parse(&members[i]) {
            return false;
        }
        i = i + 1;
    }
    true
}

/// Whether every member's ids parse.
pub open spec fn all_members_parse(ms: Seq<Member>) -> bool {
    forall|i: int| 0 <= i < ms.len() ==> (#[trigger] ms[i]).id.all_parse()
}

/// Whether some member speaks for `user`.
pub open spec fn is_member_spec(ms: Seq<Member>, user: u64) -> bool {
    exists|i: int| 0 <= i < ms.len() && speaks_for(#[trigger] ms[i], user)
}

/// Whether `user` is among the ids of all members (the set that
/// `!weather` admits); every member's ids are read, so all must parse.
pub fn is_member(members: &Vec<Member>, user: u64) -> (r: bool)
    requires
        all_members_parse(members@),
    ensures
        r == is_member_spec(members@, user),
{
    let mut found = false;
    let mut i: usize = 0;
    while i < members.len()
        invariant
            i <= members.len(),
            all_members_parse(members@),
            found == exists|j: int| 0 <= j < i && speaks_for(#[trigger] members@[j], user),
        decreases members.len() - i,
    {
        let ids = members[i].id.to_ids();
        if holds_id(&ids, user) {
            found = true;
        }
        i = i + 1;
    }
    found
}

/// Searching for a user's country succeeds exactly for the users that some
/// member speaks for, and the country found belongs to such a member.
pub proof fn lemma_country_of_member(ms: Seq<Member>, user: u64)
    ensures
        country_of_spec(ms, user) is Some <==> is_member_spec(ms, user),
        country_of_spec(ms, user) is Some ==> is_country_spec(ms, country_of_spec(ms, user)->0),
    decreases ms.len(),
{
    if ms.len() > 0 {
        lemma_country_of_member(ms.drop_first(), user);
        if is_member_spec(ms.drop_first(), user) {
            let j = choose|j: int| 0 <= j < ms.drop_first().len() && speaks_for(#[trigger] ms.drop_first()[j], user);
            assert(ms[j + 1] == ms.drop_first()[j]);
        }
        if is_member_spec(ms, user) && !speaks_for(ms[0], user) {
            let j = choose|j: int| 0 <= j < ms.len() && speaks_for(#[trigger] ms[j], user);
            assert(ms.drop_first()[j - 1] == ms[j]);
        }
        if !speaks_for(ms[0], user) && country_of_spec(ms, user) is Some {
            let c = country_of_spec(ms, user)->0;
            let j = choose|j: int| 0 <= j < ms.drop_first().len() && (#[trigger] ms.drop_first()[j]).country@ == c;
            assert(ms[j + 1] == ms.drop_first()[j]);
        }
        if speaks_for(ms[0], user) {
            assert(ms[0].country@ == country_of_spec(ms, user)->0);
        }
    }
}

/// `!pay` refuses a target exactly when no member's country has that very
/// name (a prefix or a part of a name is no country): for an author who
/// speaks for a country, the request is `InvalidTarget` if and only if
/// every member's country differs from the target, and otherwise it checks
/// the payment to that target.
pub proof fn lemma_pay_target_is_a_country(
    r: crate::economy::PayRequest,
    ms: Seq<Member>,
    author: u64,
    amount: i64,
    target: Seq<char>,
)
    requires
        crate::economy::pay_request_matches(r, ms, author, amount, target),
        country_of_spec(ms, author) is Some,
    ensures
        r is InvalidTarget <==> forall|i: int| 0 <= i < ms.len() ==> ms[i].country@ != target,
        !(r is InvalidTarget) ==> (r matches crate::economy::PayRequest::Check { target: t, .. }
            && t@ == target && exists|i: int| 0 <= i < ms.len() && ms[i].country@ == target),
{
    if exists|i: int| 0 <= i < ms.len() && ms[i].country@ == target {
        let i = choose|i: int| 0 <= i < ms.len() && ms[i].country@ == target;
        assert(is_country_spec(ms, target)) by {
            assert(ms[i].country@ == target);
        }
    } else {
        assert(!is_country_spec(ms, target));
    }
}

} // verus!
