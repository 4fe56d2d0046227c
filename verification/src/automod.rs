use vstd::prelude::*;

use crate::words::{holds_word, remove_word, texts, without_word};
use crate::keyed::{
    find_key, key_map, keys_distinct, lemma_key_map_push, lemma_key_map_update, Entry,
};
use crate::numbers::{decimal, decimal_chars};
use crate::perms::{is_owner, OWNER_ID};
use crate::text::{
    all_ascii, ascii_lower, chars_of, contains_chars, first_index, lemma_ascii_lower_no_space,
    lemma_first_index_facts,
    lemma_ascii_subrange, lemma_ascii_trim, lemma_occurs_without_spaces, occurs_in, remove_char,
    spec_to_lowercase, split_at_first_space, split_first_space, string_of, to_lowercase,
    trim_chars, trim_spec, without_char,
};

verus! {

/// The banned words: a global list, and lists per target (`*` for every
/// user, or a user id written in decimal).
pub struct AutomodConfig {
    pub global: Vec<String>,
    pub users: Vec<Entry<Vec<String>>>,
}

/// What an automod configuration means: the global list and the map from
/// targets to their lists.
pub struct AutomodView {
    pub global: Seq<Seq<char>>,
    pub users: Map<Seq<char>, Seq<Seq<char>>>,
}

impl AutomodConfig {
    /// Well-formed: no target has two lists.
    pub open spec fn wf(&self) -> bool {
        keys_distinct(self.users@)
    }
}

impl View for AutomodConfig {
    type V = AutomodView;

    open spec fn view(&self) -> AutomodView {
        AutomodView {
            global: texts(self.global@),
            users: key_map(self.users@, |v: Vec<String>| texts(v@)),
        }
    }
}

/// Whether a word, already lower-cased as `wl`, is caught in a message whose
/// lower-cased text is `lower`: it occurs in that text, or in that text with
/// its spaces removed.
pub open spec fn lowered_hits(lower: Seq<char>, wl: Seq<char>) -> bool {
    occurs_in(lower, wl) || occurs_in(without_char(lower, ' '), wl)
}

/// Whether the word `w` is caught in a message whose lower-cased text is
/// `lower`.
pub open spec fn hits(lower: Seq<char>, w: Seq<char>) -> bool {
    lowered_hits(lower, spec_to_lowercase(w))
}

/// Whether some word of `ws` is caught.
pub open spec fn any_hits(lower: Seq<char>, ws: Seq<Seq<char>>) -> bool {
    exists|i: int| 0 <= i < ws.len() && hits(lower, #[trigger] ws[i])
}

/// Whether the list kept for `key` exists and catches a word.
pub open spec fn list_hits(users: Map<Seq<char>, Seq<Seq<char>>>, key: Seq<char>, lower: Seq<char>) -> bool {
    users.contains_key(key) && any_hits(lower, users[key])
}

/// Whether a message of `user` with text `text` breaks the automod rules:
/// some word of the global list, of the `*` list or of the user's own list
/// occurs (lower-cased) in the lower-cased text, with or without its
/// spaces.
pub open spec fn triggered_spec(cfg: AutomodView, user: u64, text: Seq<char>) -> bool {
    let lower = spec_to_lowercase(text);
    ||| any_hits(lower, cfg.global)
    ||| list_hits(cfg.users, "*"@, lower)
    ||| list_hits(cfg.users, decimal(user as nat), lower)
}

/// Whether every word of `ws` is ASCII.
pub open spec fn ascii_words(ws: Seq<Seq<char>>) -> bool {
    forall|i: int| 0 <= i < ws.len() ==> all_ascii(#[trigger] ws[i])
}

/// Whether some word of `ws`, its ASCII capitals lower-cased, is caught in
/// the lower-cased text `lower`.
pub open spec fn any_hits_ascii(lower: Seq<char>, ws: Seq<Seq<char>>) -> bool {
    exists|i: int| 0 <= i < ws.len() && lowered_hits(lower, ascii_lower(#[trigger] ws[i]))
}

/// Whether the list kept for `key` exists and catches a word, the words
/// lower-cased as ASCII.
pub open spec fn list_hits_ascii(
    users: Map<Seq<char>, Seq<Seq<char>>>,
    key: Seq<char>,
    lower: Seq<char>,
) -> bool {
    users.contains_key(key) && any_hits_ascii(lower, users[key])
}

/// Whether the lists that apply to a message of `user` (the global list,
/// the `*` list and the user's own) satisfy `p` wherever they exist.
pub open spec fn lists_satisfy(
    cfg: AutomodView,
    user: u64,
    p: spec_fn(Seq<Seq<char>>) -> bool,
) -> bool {
    &&& p(cfg.global)
    &&& cfg.users.contains_key("*"@) ==> p(cfg.users["*"@])
    &&& cfg.users.contains_key(decimal(user as nat)) ==> p(cfg.users[decimal(user as nat)])
}

/// Whether the lists that apply to a message of `user` hold ASCII words
/// only.
pub open spec fn ascii_lists(cfg: AutomodView, user: u64) -> bool {
    lists_satisfy(cfg, user, |ws: Seq<Seq<char>>| ascii_words(ws))
}

/// Whether no word of the lists that apply to a message of `user` holds a
/// space.
pub open spec fn spaceless_lists(cfg: AutomodView, user: u64) -> bool {
    lists_satisfy(
        cfg,
        user,
        |ws: Seq<Seq<char>>| forall|i: int| 0 <= i < ws.len() ==> !(#[trigger] ws[i]).contains(' '),
    )
}

/// `triggered_spec` for an ASCII message and ASCII words, where lower-casing
/// turns each capital into its small letter.
pub open spec fn triggered_ascii(cfg: AutomodView, user: u64, text: Seq<char>) -> bool {
    let lower = ascii_lower(text);
    ||| any_hits_ascii(lower, cfg.global)
    ||| list_hits_ascii(cfg.users, "*"@, lower)
    ||| list_hits_ascii(cfg.users, decimal(user as nat), lower)
}

/// Whether the lower-cased word `lowered_word` is caught in the lower-cased
/// message text `lower`.
pub fn lowered_text_hits(lower: &str, lowered_word: &str) -> (r: bool)
    ensures
        r == lowered_hits(lower@, lowered_word@),
{
    let l = chars_of(lower);
    let squeezed = remove_char(&l, ' ');
    let w = chars_of(lowered_word);
    contains_chars(&l, &w) || contains_chars(&squeezed, &w)
}

/// Whether some word of `words` is caught in the lower-cased text `lower`.
fn any_word_hits(words: &Vec<String>, lower: &str) -> (r: bool)
    ensures
        r == any_hits(lower@, texts(words@)),
        ascii_words(texts(words@)) ==> r == any_hits_ascii(lower@, texts(words@)),
{
    let ghost ws = texts(words@);
    let mut i: usize = 0;
    while i < words.len()
        invariant
            i <= words.len(),
            ws == texts(words@),
            forall|j: int| 0 <= j < i ==> !hits(lower@, #[trigger] ws[j]),
            ascii_words(ws) ==> forall|j: int|
                0 <= j < i ==> !lowered_hits(lower@, ascii_lower(#[trigger] ws[j])),
        decreases words.len() - i,
    {
        let wl = to_lowercase(words[i].as_str());
        assert(ws[i as int] == words@[i as int]@);
        if lowered_text_hits(lower, wl.as_str()) {
            proof {
                if ascii_words(ws) {
                    assert(all_ascii(ws[i as int]));
                    assert(lowered_hits(lower@, ascii_lower(ws[i as int])));
                }
            }
            return true;
        }
        proof {
            if ascii_words(ws) {
                assert(all_ascii(ws[i as int]));
            }
        }
        i = i + 1;
    }
    false
}

/// Whether the list kept for `key` catches a word.
fn key_hits(cfg: &AutomodConfig, key: &String, lower: &str) -> (r: bool)
    requires
        cfg.wf(),
    ensures
        r == list_hits(cfg@.users, key@, lower@),
        (cfg@.users.contains_key(key@) ==> ascii_words(cfg@.users[key@])) ==> r == list_hits_ascii(
            cfg@.users,
            key@,
            lower@,
        ),
{
    match find_key(&cfg.users, key) {
        Some(i) => {
            proof {
                crate::keyed::lemma_key_index(cfg.users@, key@, i as int);
            }
            any_word_hits(&cfg.users[i].value, lower)
        },
        None => false,
    }
}

/// Whether a message of `user_id` with text `text` breaks the automod
/// rules.
pub fn automod_triggered(cfg: &AutomodConfig, user_id: u64, text: &str) -> (r: bool)
    requires
        cfg.wf(),
    ensures
        r == triggered_spec(cfg@, user_id, text@),
        all_ascii(text@) && ascii_lists(cfg@, user_id) ==> r == triggered_ascii(cfg@, user_id, text@),
{
    let lower = to_lowercase(text);
    if any_word_hits(&cfg.global, lower.as_str()) {
        return true;
    }
    let star = string_of(&chars_of("*"));
    if key_hits(cfg, &star, lower.as_str()) {
        return true;
    }
    let uid = string_of(&decimal_chars(user_id));
    key_hits(cfg, &uid, lower.as_str())
}

/// The answer to `!addword` and `!removeword`.
pub enum WordReply {
    InvalidPerms,
    Usage,
    Added { word: String, target: String },
    Removed { word: String, target: String },
}

/// The target and the word that `!addword` and `!removeword` read from
/// their arguments: the text before the first space (trimmed), and the text
/// after it (trimmed and lower-cased); none without a space.
pub open spec fn word_args(args: Seq<char>) -> Option<(Seq<char>, Seq<char>)> {
    match raw_word_args(args) {
        Some((target, word)) => Some((target, spec_to_lowercase(word))),
        None => None,
    }
}

/// The target and the word of `!addword` and `!removeword` before the word
/// is lower-cased: the text before the first space and the text after it,
/// both trimmed; none without a space.
pub open spec fn raw_word_args(args: Seq<char>) -> Option<(Seq<char>, Seq<char>)> {
    match split_first_space(args).1 {
        Some(rest) => Some((trim_spec(split_first_space(args).0), trim_spec(rest))),
        None => None,
    }
}

/// `word_args` for ASCII arguments, where lower-casing turns each capital
/// into its small letter.
pub open spec fn ascii_word_args(args: Seq<char>) -> Option<(Seq<char>, Seq<char>)> {
    match raw_word_args(args) {
        Some((target, word)) => Some((target, ascii_lower(word))),
        None => None,
    }
}

/// `ws` with `w` appended unless it is already there.
pub open spec fn add_unique(ws: Seq<Seq<char>>, w: Seq<char>) -> Seq<Seq<char>> {
    if ws.contains(w) {
        ws
    } else {
        ws.push(w)
    }
}

/// The configuration once `word` is added to the list of `target`.
pub open spec fn added_view(cfg: AutomodView, target: Seq<char>, word: Seq<char>) -> AutomodView {
    if target == "global"@ {
        AutomodView { global: add_unique(cfg.global, word), users: cfg.users }
    } else {
        let old_list = if cfg.users.contains_key(target) {
            cfg.users[target]
        } else {
            Seq::empty()
        };
        AutomodView { global: cfg.global, users: cfg.users.insert(target, add_unique(old_list, word)) }
    }
}

/// The configuration once `word` is removed from the list of `target`.
pub open spec fn removed_view(cfg: AutomodView, target: Seq<char>, word: Seq<char>) -> AutomodView {
    if target == "global"@ {
        AutomodView { global: without_word(cfg.global, word), users: cfg.users }
    } else if cfg.users.contains_key(target) {
        AutomodView {
            global: cfg.global,
            users: cfg.users.insert(target, without_word(cfg.users[target], word)),
        }
    } else {
        cfg
    }
}

/// Appends `w` to `words` unless it is already there.
fn push_unique(words: &mut Vec<String>, w: &String)
    ensures
        texts(final(words)@) == add_unique(texts(old(words)@), w@),
{
    if !holds_word(words, w) {
        words.push(w.clone());
        assert(texts(words@) =~= texts(old(words)@).push(w@));
    }
}

/// Splits the arguments of `!addword` and `!removeword` into the target
/// and the word, both trimmed (the word not yet lower-cased).
pub fn split_word_args(args: &str) -> (r: Option<(String, String)>)
    ensures
        r is Some == raw_word_args(args@) is Some,
        r is Some ==> (r->0).0@ == (raw_word_args(args@)->0).0 && (r->0).1@ == (raw_word_args(
            args@,
        )->0).1,
{
    let v = chars_of(args);
    let (first, rest) = split_at_first_space(&v);
    match rest {
        Some(rest) => Some((string_of(&trim_chars(&first)), string_of(&trim_chars(&rest)))),
        None => None,
    }
}

/// Reads the target and the word of `!addword` and `!removeword`.
fn parse_word_args(args: &str) -> (r: Option<(String, String)>)
    ensures
        r is Some == word_args(args@) is Some,
        r is Some ==> (r->0).0@ == (word_args(args@)->0).0 && (r->0).1@ == (word_args(args@)->0).1,
        all_ascii(args@) ==> word_args(args@) == ascii_word_args(args@),
{
    match split_word_args(args) {
        Some((target, word)) => {
            proof {
                if all_ascii(args@) {
                    let k: int = first_index(args@, |c: char| c == ' ') as int;
                    lemma_first_index_facts(args@, |c: char| c == ' ');
                    lemma_ascii_subrange(args@, k + 1, args@.len() as int);
                    assert(args@.skip(k + 1int) =~= args@.subrange(k + 1int, args@.len() as int));
                    lemma_ascii_trim(args@.skip(k + 1int));
                }
            }
            Some((target, to_lowercase(word.as_str())))
        },
        None => None,
    }
}

/// Whether `target` names the global list.
fn is_global(target: &String) -> (b: bool)
    ensures
        b == (target@ == "global"@),
{
    *target == string_of(&chars_of("global"))
}

/// Adds the (lower-cased) `word` to the list of `target`: the global list
/// when the target is `global`, else the target's own list, which is made
/// when missing; a word already there is not added again.
pub fn add_word(cfg: &mut AutomodConfig, target: &String, word: &String)
    requires
        old(cfg).wf(),
    ensures
        final(cfg).wf(),
        final(cfg)@ == added_view(old(cfg)@, target@, word@),
{
    let ghost f = |v: Vec<String>| texts(v@);
    if is_global(target) {
        push_unique(&mut cfg.global, word);
        return;
    }
    match find_key(&cfg.users, target) {
        Some(i) => {
            let ghost before = cfg.users@;
            let mut e = cfg.users.remove(i);
            push_unique(&mut e.value, word);
            cfg.users.insert(i, e);
            proof {
                assert(cfg.users@ =~= before.update(i as int, e));
                lemma_key_map_update(before, i as int, e, f);
                crate::keyed::lemma_key_index(before, target@, i as int);
            }
        },
        None => {
            let ghost before = cfg.users@;
            let mut words: Vec<String> = Vec::new();
            words.push(word.clone());
            let e = Entry { key: target.clone(), value: words };
            cfg.users.push(e);
            proof {
                lemma_key_map_push(before, e, f);
                assert(texts(e.value@) =~= add_unique(Seq::empty(), word@));
            }
        },
    }
}

/// Removes every copy of the (lower-cased) `word` from the list of
/// `target` (the global list when the target is `global`), if that list
/// exists.
pub fn drop_word(cfg: &mut AutomodConfig, target: &String, word: &String)
    requires
        old(cfg).wf(),
    ensures
        final(cfg).wf(),
        final(cfg)@ == removed_view(old(cfg)@, target@, word@),
{
    let ghost f = |v: Vec<String>| texts(v@);
    if is_global(target) {
        cfg.global = remove_word(&cfg.global, word);
        return;
    }
    match find_key(&cfg.users, target) {
        Some(i) => {
            let ghost before = cfg.users@;
            let mut e = cfg.users.remove(i);
            e.value = remove_word(&e.value, word);
            cfg.users.insert(i, e);
            proof {
                assert(cfg.users@ =~= before.update(i as int, e));
                lemma_key_map_update(before, i as int, e, f);
                crate::keyed::lemma_key_index(before, target@, i as int);
            }
        },
        None => {
            assert(!cfg@.users.contains_key(target@));
        },
    }
}

/// `!addword <target> <word>`: the owner adds a lower-cased word to the
/// global list (target `global`) or to the list of a target.
pub fn cmd_addword(cfg: &mut AutomodConfig, author: u64, args: &str) -> (r: WordReply)
    requires
        old(cfg).wf(),
    ensures
        final(cfg).wf(),
        author != OWNER_ID ==> r is InvalidPerms && *final(cfg) == *old(cfg),
        author == OWNER_ID && word_args(args@) is None ==> r is Usage && *final(cfg) == *old(cfg),
        author == OWNER_ID && all_ascii(args@) ==> word_args(args@) == ascii_word_args(args@),
        author == OWNER_ID && word_args(args@) is Some ==> (r matches WordReply::Added { word, target }
            && target@ == (word_args(args@)->0).0 && word@ == (word_args(args@)->0).1
            && final(cfg)@ == added_view(old(cfg)@, target@, word@)),
{
    if !is_owner(author) {
        return WordReply::InvalidPerms;
    }
    match parse_word_args(args) {
        Some((target, word)) => {
            add_word(cfg, &target, &word);
            WordReply::Added { word, target }
        },
        None => WordReply::Usage,
    }
}

/// `!removeword <target> <word>`: the owner removes a lower-cased word from
/// the global list (target `global`) or from the list of a target.
pub fn cmd_removeword(cfg: &mut AutomodConfig, author: u64, args: &str) -> (r: WordReply)
    requires
        old(cfg).wf(),
    ensures
        final(cfg).wf(),
        author != OWNER_ID ==> r is InvalidPerms && *final(cfg) == *old(cfg),
        author == OWNER_ID && word_args(args@) is None ==> r is Usage && *final(cfg) == *old(cfg),
        author == OWNER_ID && all_ascii(args@) ==> word_args(args@) == ascii_word_args(args@),
        author == OWNER_ID && word_args(args@) is Some ==> (r matches WordReply::Removed {
            word,
            target,
        } && target@ == (word_args(args@)->0).0 && word@ == (word_args(args@)->0).1
            && final(cfg)@ == removed_view(old(cfg)@, target@, word@)),
{
    if !is_owner(author) {
        return WordReply::InvalidPerms;
    }
    match parse_word_args(args) {
        Some((target, word)) => {
            drop_word(cfg, &target, &word);
            WordReply::Removed { word, target }
        },
        None => WordReply::Usage,
    }
}

/// A lower-cased word without a space is caught in a lower-cased text
/// exactly when it occurs in that text with the spaces removed.
proof fn lemma_spaceless_hits(lower: Seq<char>, wl: Seq<char>)
    requires
        !wl.contains(' '),
    ensures
        lowered_hits(lower, wl) == occurs_in(without_char(lower, ' '), wl),
{
    if occurs_in(lower, wl) {
        lemma_occurs_without_spaces(lower, wl);
    }
}

/// Two lower-cased texts that agree once their spaces are removed catch
/// the same words of a list whose words hold no space.
proof fn lemma_any_hits_ascii_squeezed(l1: Seq<char>, l2: Seq<char>, ws: Seq<Seq<char>>)
    requires
        without_char(l1, ' ') == without_char(l2, ' '),
        forall|i: int| 0 <= i < ws.len() ==> !(#[trigger] ws[i]).contains(' '),
    ensures
        any_hits_ascii(l1, ws) == any_hits_ascii(l2, ws),
{
    assert forall|i: int| 0 <= i < ws.len() implies lowered_hits(
        l1,
        ascii_lower(#[trigger] ws[i]),
    ) == lowered_hits(l2, ascii_lower(ws[i])) by {
        lemma_ascii_lower_no_space(ws[i]);
        lemma_spaceless_hits(l1, ascii_lower(ws[i]));
        lemma_spaceless_hits(l2, ascii_lower(ws[i]));
    }
    if any_hits_ascii(l1, ws) {
        let i = choose|i: int| 0 <= i < ws.len() && lowered_hits(l1, ascii_lower(#[trigger] ws[i]));
        assert(lowered_hits(l2, ascii_lower(ws[i])));
    }
    if any_hits_ascii(l2, ws) {
        let i = choose|i: int| 0 <= i < ws.len() && lowered_hits(l2, ascii_lower(#[trigger] ws[i]));
        assert(lowered_hits(l1, ascii_lower(ws[i])));
    }
}

/// Automod ignores letter case and spaces: two messages whose texts differ
/// only in the case of their ASCII letters and in where and how many spaces
/// they hold are judged alike, as long as no word of the lists that apply
/// holds a space. (For an ASCII message and ASCII word lists,
/// `automod_triggered` decides by `triggered_ascii`.)
pub proof fn lemma_automod_ignores_case_and_spaces(
    cfg: AutomodView,
    user: u64,
    t1: Seq<char>,
    t2: Seq<char>,
)
    requires
        without_char(ascii_lower(t1), ' ') == without_char(ascii_lower(t2), ' '),
        spaceless_lists(cfg, user),
    ensures
        triggered_ascii(cfg, user, t1) == triggered_ascii(cfg, user, t2),
{
    let l1 = ascii_lower(t1);
    let l2 = ascii_lower(t2);
    lemma_any_hits_ascii_squeezed(l1, l2, cfg.global);
    if cfg.users.contains_key("*"@) {
        lemma_any_hits_ascii_squeezed(l1, l2, cfg.users["*"@]);
    }
    if cfg.users.contains_key(decimal(user as nat)) {
        lemma_any_hits_ascii_squeezed(l1, l2, cfg.users[decimal(user as nat)]);
    }
}

/// A word that a list holds is caught wherever it occurs.
proof fn lemma_held_word_hits(ws: Seq<Seq<char>>, w: Seq<char>, lower: Seq<char>)
    requires
        ws.contains(w),
        hits(lower, w),
    ensures
        any_hits(lower, ws),
{
    let i = choose|i: int| 0 <= i < ws.len() && ws[i] == w;
    assert(hits(lower, ws[i]));
}

/// After adding, the list holds the word.
proof fn lemma_add_unique_contains(ws: Seq<Seq<char>>, w: Seq<char>)
    ensures
        add_unique(ws, w).contains(w),
{
    if !ws.contains(w) {
        assert(ws.push(w)[ws.len() as int] == w);
    }
}

/// A word added to the global list, to the `*` list or to a user's own list
/// is caught in every message of that user whose lower-cased text contains
/// the lower-cased word (with or without the text's spaces).
pub proof fn lemma_added_word_caught(
    cfg: AutomodView,
    target: Seq<char>,
    word: Seq<char>,
    user: u64,
    text: Seq<char>,
)
    requires
        target == "global"@ || target == "*"@ || target == decimal(user as nat),
        hits(spec_to_lowercase(text), word),
    ensures
        triggered_spec(added_view(cfg, target, word), user, text),
{
    let lower = spec_to_lowercase(text);
    let new = added_view(cfg, target, word);
    reveal_strlit("global");
    reveal_strlit("*");
    crate::numbers::lemma_decimal(user as nat);
    if target == "global"@ {
        lemma_add_unique_contains(cfg.global, word);
        lemma_held_word_hits(new.global, word, lower);
    } else {
        if target == decimal(user as nat) {
            assert(crate::numbers::is_digit(target[0]));
        }
        assert(target != "global"@);
        let old_list = if cfg.users.contains_key(target) {
            cfg.users[target]
        } else {
            Seq::empty()
        };
        lemma_add_unique_contains(old_list, word);
        assert(new.users[target] == add_unique(old_list, word));
        lemma_held_word_hits(new.users[target], word, lower);
    }
}

/// Adding a word twice is the same as adding it once.
pub proof fn lemma_add_idempotent(cfg: AutomodView, target: Seq<char>, word: Seq<char>)
    ensures
        added_view(added_view(cfg, target, word), target, word) == added_view(cfg, target, word),
{
    let once = added_view(cfg, target, word);
    if target == "global"@ {
        lemma_add_unique_contains(cfg.global, word);
    } else {
        let old_list = if cfg.users.contains_key(target) {
            cfg.users[target]
        } else {
            Seq::empty()
        };
        lemma_add_unique_contains(old_list, word);
        assert(once.users.insert(target, add_unique(once.users[target], word)) =~= once.users);
    }
}

/// Filtering out a word that is absent changes nothing.
proof fn lemma_without_absent(ws: Seq<Seq<char>>, w: Seq<char>)
    requires
        !ws.contains(w),
    ensures
        without_word(ws, w) == ws,
    decreases ws.len(),
{
    reveal_with_fuel(Seq::filter, 1);
    if ws.len() > 0 {
        assert(!ws.drop_last().contains(w)) by {
            if ws.drop_last().contains(w) {
                let i = choose|i: int| 0 <= i < ws.drop_last().len() && ws.drop_last()[i] == w;
                assert(ws[i] == w);
            }
        }
        lemma_without_absent(ws.drop_last(), w);
        assert(ws.last() != w) by {
            if ws.last() == w {
                assert(ws[ws.len() - 1] == w);
            }
        }
        assert(ws.drop_last().push(ws.last()) =~= ws);
    }
}

/// After removal, the list of the target no longer holds the word.
pub proof fn lemma_removed_absent(cfg: AutomodView, target: Seq<char>, word: Seq<char>)
    ensures
        target == "global"@ ==> !removed_view(cfg, target, word).global.contains(word),
        target != "global"@ && cfg.users.contains_key(target) ==> !removed_view(
            cfg,
            target,
            word,
        ).users[target].contains(word),
{
    if target == "global"@ {
        lemma_filter_drops(cfg.global, word);
    } else if cfg.users.contains_key(target) {
        lemma_filter_drops(cfg.users[target], word);
    }
}

/// The filtered list holds no copy of the word.
proof fn lemma_filter_drops(ws: Seq<Seq<char>>, w: Seq<char>)
    ensures
        !without_word(ws, w).contains(w),
{
    let f = without_word(ws, w);
    if f.contains(w) {
        let i = choose|i: int| 0 <= i < f.len() && f[i] == w;
        assert(ws.filter(|x: Seq<char>| x != w)[i] != w);
    }
}

/// Removing a word that a list did not hold undoes adding it: the
/// configuration is as before, whenever the target's list existed already
/// (or the target is the global list).
pub proof fn lemma_remove_undoes_add(cfg: AutomodView, target: Seq<char>, word: Seq<char>)
    requires
        target == "global"@ ==> !cfg.global.contains(word),
        target != "global"@ ==> cfg.users.contains_key(target) && !cfg.users[target].contains(
            word,
        ),
    ensures
        removed_view(added_view(cfg, target, word), target, word) == cfg,
{
    if target == "global"@ {
        lemma_without_absent(cfg.global, word);
        lemma_without_push(cfg.global, word);
    } else {
        let l = cfg.users[target];
        lemma_without_absent(l, word);
        lemma_without_push(l, word);
        let added = added_view(cfg, target, word);
        assert(added.users[target] == l.push(word));
        assert(added.users.insert(target, without_word(added.users[target], word)) =~= cfg.users);
    }
}

/// `!removeword` with the arguments of an `!addword` just made by the owner
/// undoes it, whenever the word was not in the target's list before (and
/// that list existed, or the target is the global list): the
/// configuration is the one before the `!addword`.
pub proof fn lemma_removeword_undoes_addword(cfg: AutomodView, args: Seq<char>)
    requires
        word_args(args) is Some,
        (word_args(args)->0).0 == "global"@ ==> !cfg.global.contains((word_args(args)->0).1),
        (word_args(args)->0).0 != "global"@ ==> cfg.users.contains_key((word_args(args)->0).0)
            && !cfg.users[(word_args(args)->0).0].contains((word_args(args)->0).1),
    ensures
        removed_view(
            added_view(cfg, (word_args(args)->0).0, (word_args(args)->0).1),
            (word_args(args)->0).0,
            (word_args(args)->0).1,
        ) == cfg,
{
    lemma_remove_undoes_add(cfg, (word_args(args)->0).0, (word_args(args)->0).1);
}

/// Filtering out the word just appended drops it again.
proof fn lemma_without_push(ws: Seq<Seq<char>>, w: Seq<char>)
    ensures
        without_word(ws.push(w), w) == without_word(ws, w),
{
    reveal_with_fuel(Seq::filter, 1);
    assert(ws.push(w).drop_last() =~= ws);
}

} // verus!
