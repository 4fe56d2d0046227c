use vstd::prelude::*;

use crate::members::{country_of, country_of_spec, is_country_spec, is_registered_country, search_parses, Member};
use crate::numbers::{parse_i64, parse_i64_spec};
use crate::perms::{is_owner, OWNER_ID};
use crate::text::{chars_of, split_at_first_space, split_first_space, string_of, trim_chars, trim_spec};

verus! {

/// The change an owner command makes to a country's row.
#[derive(Debug, PartialEq, Eq, Clone, Copy)]
pub enum LedgerChange {
    AddBalance,
    RemoveBalance,
    AddGdp,
}

/// The answer to `!give`, `!remove` and `!addgdp`.
pub enum AmountReply {
    InvalidPerms,
    /// Too few words: the bot says nothing.
    Silent,
    InvalidAmount,
    Update { change: LedgerChange, amount: i64, country: String },
}

/// The amount and the country of `<amount> <country>`: the amount is the
/// text before the first space, read as an `i64` (none if it is not one);
/// the country is the rest, trimmed. Without a space there are none.
pub open spec fn amount_args(args: Seq<char>) -> Option<(Option<i64>, Seq<char>)> {
    match split_first_space(args).1 {
        Some(rest) => Some((parse_i64_spec(split_first_space(args).0), trim_spec(rest))),
        None => None,
    }
}

/// Reads `<amount> <country>`.
fn read_amount_args(args: &str) -> (r: Option<(Option<i64>, String)>)
    ensures
        r is Some == amount_args(args@) is Some,
        r is Some ==> (r->0).0 == (amount_args(args@)->0).0 && (r->0).1@ == (amount_args(
            args@,
        )->0).1,
{
    let v = chars_of(args);
    let (first, rest) = split_at_first_space(&v);
    match rest {
        Some(rest) => Some((parse_i64(&first), string_of(&trim_chars(&rest)))),
        None => None,
    }
}

/// What an owner amount command answers.
pub open spec fn amount_reply_matches(
    r: AmountReply,
    author: u64,
    args: Seq<char>,
    change: LedgerChange,
) -> bool {
    if author != OWNER_ID {
        r is InvalidPerms
    } else {
        match amount_args(args) {
            None => r is Silent,
            Some((None, _)) => r is InvalidAmount,
            Some((Some(amount), country)) => r matches AmountReply::Update { change: c, amount: a, country: n }
                && c == change && a == amount && n@ == country,
        }
    }
}

/// The owner command that makes `change`.
fn owner_amount(author: u64, args: &str, change: LedgerChange) -> (r: AmountReply)
    ensures
        amount_reply_matches(r, author, args@, change),
{
    if !is_owner(author) {
        return AmountReply::InvalidPerms;
    }
    match read_amount_args(args) {
        None => AmountReply::Silent,
        Some((None, _)) => AmountReply::InvalidAmount,
        Some((Some(amount), country)) => AmountReply::Update { change, amount, country },
    }
}

/// `!give <amount> <country>`: the owner adds to a country's balance.
pub fn cmd_give(author: u64, args: &str) -> (r: AmountReply)
    ensures
        amount_reply_matches(r, author, args@, LedgerChange::AddBalance),
{
    owner_amount(author, args, LedgerChange::AddBalance)
}

/// `!remove <amount> <country>`: the owner takes from a country's balance.
pub fn cmd_remove(author: u64, args: &str) -> (r: AmountReply)
    ensures
        amount_reply_matches(r, author, args@, LedgerChange::RemoveBalance),
{
    owner_amount(author, args, LedgerChange::RemoveBalance)
}

/// `!addgdp <amount> <country>`: the owner adds to a country's GDP.
pub fn cmd_addgdp(author: u64, args: &str) -> (r: AmountReply)
    ensures
        amount_reply_matches(r, author, args@, LedgerChange::AddGdp),
{
    owner_amount(author, args, LedgerChange::AddGdp)
}

/// The arguments of `!pay <amount> <country>`, read before anything else.
pub enum PayArgs {
    /// Too few words: the bot says nothing.
    Silent,
    InvalidAmount,
    Pay { amount: i64, target: String },
}

/// Reads the arguments of `!pay`.
pub fn pay_args(args: &str) -> (r: PayArgs)
    ensures
        match amount_args(args@) {
            None => r is Silent,
            Some((None, _)) => r is InvalidAmount,
            Some((Some(amount), target)) => r matches PayArgs::Pay { amount: a, target: t } && a
                == amount && t@ == target,
        },
{
    match read_amount_args(args) {
        None => PayArgs::Silent,
        Some((None, _)) => PayArgs::InvalidAmount,
        Some((Some(amount), target)) => PayArgs::Pay { amount, target },
    }
}

/// The step of `!pay` that reads the member list.
pub enum PayRequest {
    /// The author speaks for no country.
    NoCountry,
    /// The target is no registered country.
    InvalidTarget(String),
    /// The sender's balance is to be read and checked against the amount.
    Check { amount: i64, sender: String, target: String },
}

/// What `!pay` decides from the member list: the author's country (the
/// first member, in the order given, that speaks for the author), then
/// whether the target is a registered country.
pub open spec fn pay_request_matches(
    r: PayRequest,
    members: Seq<Member>,
    author: u64,
    amount: i64,
    target: Seq<char>,
) -> bool {
    match country_of_spec(members, author) {
        None => r is NoCountry,
        Some(sender) => if !is_country_spec(members, target) {
            r matches PayRequest::InvalidTarget(t) && t@ == target
        } else {
            r matches PayRequest::Check { amount: a, sender: s, target: t } && a == amount && s@
                == sender && t@ == target
        },
    }
}

/// `!pay <amount> <country>`: any member pays from their country's balance
/// to a registered country. The members' ids that the search for the
/// author reads must be numbers.
pub fn cmd_pay(members: &Vec<Member>, author: u64, amount: i64, target: String) -> (r: PayRequest)
    requires
        search_parses(members@, author),
    ensures
        pay_request_matches(r, members@, author, amount, target@),
{
    let sender = match country_of(members, author) {
        Some(c) => c,
        None => return PayRequest::NoCountry,
    };
    if !is_registered_country(members, &target) {
        return PayRequest::InvalidTarget(target);
    }
    PayRequest::Check { amount, sender, target }
}

/// The second step of `!pay`, once the sender's balance is known.
#[derive(Debug, PartialEq, Eq)]
pub enum PaySettlement {
    Insufficient(i64),
    Transfer,
}

/// `!pay`, second step: the amount moves only when it is positive and the
/// balance covers it.
pub fn settle_pay(amount: i64, balance: i64) -> (r: PaySettlement)
    ensures
        r == (if amount <= 0 || balance < amount {
            PaySettlement::Insufficient(balance)
        } else {
            PaySettlement::Transfer
        }),
{
    if amount <= 0 || balance < amount {
        PaySettlement::Insufficient(balance)
    } else {
        PaySettlement::Transfer
    }
}

/// `!checkbalance`: the country whose balance the author may read.
pub fn cmd_checkbalance(members: &Vec<Member>, author: u64) -> (r: Option<String>)
    requires
        search_parses(members@, author),
    ensures
        r is Some == country_of_spec(members@, author) is Some,
        r is Some ==> r->0@ == country_of_spec(members@, author)->0,
{
    country_of(members, author)
}

/// A country's row in the ledger, as far as the bot's updates touch it.
pub struct CountryRow {
    pub balance: int,
    pub gdp: int,
}

/// The ledger: the rows of the countries, by name.
pub type Ledger = Map<Seq<char>, CountryRow>;

/// The ledger after the update that `change` stands for, by `amount`, on
/// the row named `country`; a name with no row changes nothing.
pub open spec fn apply_change(l: Ledger, change: LedgerChange, amount: int, country: Seq<char>) -> Ledger {
    if !l.contains_key(country) {
        l
    } else {
        let row = l[country];
        l.insert(
            country,
            match change {
                LedgerChange::AddBalance => CountryRow { balance: row.balance + amount, gdp: row.gdp },
                LedgerChange::RemoveBalance => CountryRow {
                    balance: row.balance - amount,
                    gdp: row.gdp,
                },
                LedgerChange::AddGdp => CountryRow { balance: row.balance, gdp: row.gdp + amount },
            },
        )
    }
}

/// The ledger after an owner amount command answered `r`: only an update
/// changes it.
pub open spec fn amount_reply_effect(l: Ledger, r: AmountReply) -> Ledger {
    match r {
        AmountReply::Update { change, amount, country } => apply_change(l, change, amount as int, country@),
        _ => l,
    }
}

/// The ledger after a settled `!pay`: a transfer takes the amount from the
/// sender's balance, then adds it to the target's.
pub open spec fn settlement_effect(
    l: Ledger,
    s: PaySettlement,
    amount: i64,
    sender: Seq<char>,
    target: Seq<char>,
) -> Ledger {
    match s {
        PaySettlement::Transfer => apply_change(
            apply_change(l, LedgerChange::RemoveBalance, amount as int, sender),
            LedgerChange::AddBalance,
            amount as int,
            target,
        ),
        PaySettlement::Insufficient(_) => l,
    }
}

/// `!give` then `!remove` with the same arguments leave the ledger as it
/// was (and so do `!remove` then `!give`).
pub proof fn lemma_give_remove_restores(l: Ledger, author: u64, args: Seq<char>, give: AmountReply, remove: AmountReply)
    requires
        amount_reply_matches(give, author, args, LedgerChange::AddBalance),
        amount_reply_matches(remove, author, args, LedgerChange::RemoveBalance),
    ensures
        amount_reply_effect(amount_reply_effect(l, give), remove) == l,
        amount_reply_effect(amount_reply_effect(l, remove), give) == l,
{
    if give is Update {
        let c = (amount_args(args)->0).1;
        if l.contains_key(c) {
            assert(amount_reply_effect(amount_reply_effect(l, give), remove) =~= l);
            assert(amount_reply_effect(amount_reply_effect(l, remove), give) =~= l);
        }
    }
}

/// A payment only moves money: when the settlement is a transfer between
/// two countries with rows, the sender's and the target's balances together
/// are unchanged, every other row and every GDP stays as it was, and the
/// sender's balance does not go below zero (it covered the amount). A
/// payment to oneself changes nothing, and a refused one changes nothing.
pub proof fn lemma_pay_moves_money(
    l: Ledger,
    amount: i64,
    sender: Seq<char>,
    target: Seq<char>,
)
    requires
        l.contains_key(sender),
        l.contains_key(target),
        l[sender].balance == l[sender].balance as i64,
    ensures
        ({
            let s = if amount <= 0 || (l[sender].balance as i64) < amount {
                PaySettlement::Insufficient(l[sender].balance as i64)
            } else {
                PaySettlement::Transfer
            };
            let l2 = settlement_effect(l, s, amount, sender, target);
            &&& l2.dom() == l.dom()
            &&& forall|k: Seq<char>| #[trigger] l.contains_key(k) && k != sender && k != target ==> l2[k] == l[k]
            &&& forall|k: Seq<char>| #[trigger] l.contains_key(k) ==> l2[k].gdp == l[k].gdp
            &&& sender != target ==> l2[sender].balance + l2[target].balance == l[sender].balance
                + l[target].balance
            &&& sender == target ==> l2 == l
            &&& s is Transfer ==> l2[sender].balance >= 0 || sender == target
            &&& s is Insufficient ==> l2 == l
        }),
{
    let s = if amount <= 0 || (l[sender].balance as i64) < amount {
        PaySettlement::Insufficient(l[sender].balance as i64)
    } else {
        PaySettlement::Transfer
    };
    let l2 = settlement_effect(l, s, amount, sender, target);
    if s is Transfer {
        let l1 = apply_change(l, LedgerChange::RemoveBalance, amount as int, sender);
        assert(l1.dom() =~= l.dom());
        assert(l2.dom() =~= l.dom());
        if sender == target {
            assert(l2 =~= l);
        }
    }
}

/// The sum of the balances of the countries named in `names` (a name with
/// no row counts nothing).
pub open spec fn balance_sum(l: Ledger, names: Seq<Seq<char>>) -> int
    decreases names.len(),
{
    if names.len() == 0 {
        0
    } else {
        let n = names.last();
        balance_sum(l, names.drop_last()) + if l.contains_key(n) {
            l[n].balance
        } else {
            0
        }
    }
}

/// How the balance of `n` changed from `l` to `l2` (0 for a name with no
/// row in either).
pub open spec fn balance_change(l: Ledger, l2: Ledger, n: Seq<char>) -> int {
    (if l2.contains_key(n) {
        l2[n].balance
    } else {
        0
    }) - (if l.contains_key(n) {
        l[n].balance
    } else {
        0
    })
}

/// When only the rows `a` and `b` (distinct) may change their balances,
/// the sum over a list of distinct names changes by the changes of those of
/// the two it holds.
proof fn lemma_balance_sum_change(
    l: Ledger,
    l2: Ledger,
    names: Seq<Seq<char>>,
    a: Seq<char>,
    b: Seq<char>,
)
    requires
        a != b,
        names.no_duplicates(),
        forall|k: Seq<char>| k != a && k != b ==> balance_change(l, l2, k) == 0,
    ensures
        balance_sum(l2, names) - balance_sum(l, names) == (if names.contains(a) {
            balance_change(l, l2, a)
        } else {
            0
        }) + (if names.contains(b) {
            balance_change(l, l2, b)
        } else {
            0
        }),
    decreases names.len(),
{
    if names.len() > 0 {
        let d = names.drop_last();
        let n = names.last();
        assert(d.no_duplicates()) by {
            assert forall|i: int, j: int| 0 <= i < d.len() && 0 <= j < d.len() && i != j implies d[i]
                != d[j] by {
                assert(d[i] == names[i] && d[j] == names[j]);
            }
        }
        lemma_balance_sum_change(l, l2, d, a, b);
        assert(!d.contains(n)) by {
            if d.contains(n) {
                let i = choose|i: int| 0 <= i < d.len() && d[i] == n;
                assert(names[i] == names[names.len() - 1]);
            }
        }
        assert forall|k: Seq<char>| #[trigger] names.contains(k) == (d.contains(k) || k == n) by {
            if names.contains(k) && k != n {
                let i = choose|i: int| 0 <= i < names.len() && names[i] == k;
                assert(i < names.len() - 1);
                assert(d[i] == k);
            }
            if d.contains(k) {
                let i = choose|i: int| 0 <= i < d.len() && d[i] == k;
                assert(names[i] == k);
            }
            if k == n {
                assert(names[names.len() - 1] == k);
            }
        }
        assert(names.contains(a) == (d.contains(a) || a == n));
        assert(names.contains(b) == (d.contains(b) || b == n));
        if n != a && n != b {
            assert(balance_change(l, l2, n) == 0);
        }
    }
}

/// A payment conserves money over the whole ledger: for any list of
/// distinct country names that holds the sender and the target (all the
/// rows, say), the sum of their balances is the same after the payment.
pub proof fn lemma_pay_conserves_total(
    l: Ledger,
    amount: i64,
    sender: Seq<char>,
    target: Seq<char>,
    names: Seq<Seq<char>>,
)
    requires
        l.contains_key(sender),
        l.contains_key(target),
        l[sender].balance == l[sender].balance as i64,
        names.no_duplicates(),
        names.contains(sender),
        names.contains(target),
    ensures
        ({
            let s = if amount <= 0 || (l[sender].balance as i64) < amount {
                PaySettlement::Insufficient(l[sender].balance as i64)
            } else {
                PaySettlement::Transfer
            };
            balance_sum(settlement_effect(l, s, amount, sender, target), names) == balance_sum(
                l,
                names,
            )
        }),
{
    let s = if amount <= 0 || (l[sender].balance as i64) < amount {
        PaySettlement::Insufficient(l[sender].balance as i64)
    } else {
        PaySettlement::Transfer
    };
    let l2 = settlement_effect(l, s, amount, sender, target);
    lemma_pay_moves_money(l, amount, sender, target);
    if sender == target {
        assert(l2 == l);
    } else {
        assert forall|k: Seq<char>| k != sender && k != target implies balance_change(l, l2, k)
            == 0 by {
            if l.contains_key(k) {
                assert(l2[k] == l[k]);
            }
            assert(l2.contains_key(k) == l.contains_key(k));
        }
        lemma_balance_sum_change(l, l2, names, sender, target);
    }
}

} // verus!
