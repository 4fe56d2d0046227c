use vstd::prelude::*;

verus! {

// ---------------------------------------------------------------------------
// Character classes that std decides by the Unicode tables.
// ---------------------------------------------------------------------------

/// Whether `c` is white space: the Unicode White_Space property, which
/// `char::is_whitespace` tests (tab to carriage return, space, next line,
/// no-break space, ogham space mark, the spaces U+2000 to U+200A, line and
/// paragraph separators, narrow no-break space, medium mathematical space
/// and ideographic space).
pub open spec fn spec_is_whitespace(c: char) -> bool {
    ||| ('\u{9}' <= c && c <= '\u{d}')
    ||| c == ' '
    ||| c == '\u{85}'
    ||| c == '\u{a0}'
    ||| c == '\u{1680}'
    ||| ('\u{2000}' <= c && c <= '\u{200a}')
    ||| c == '\u{2028}'
    ||| c == '\u{2029}'
    ||| c == '\u{202f}'
    ||| c == '\u{205f}'
    ||| c == '\u{3000}'
}

/// Whether `char::is_alphabetic` holds of `c` (the Unicode Alphabetic property).
pub uninterp spec fn spec_is_alphabetic(c: char) -> bool;

/// What `str::to_lowercase` returns for a string with the characters `s`.
pub uninterp spec fn spec_to_lowercase(s: Seq<char>) -> Seq<char>;

/// Whether `c` is an ASCII character.
pub open spec fn is_ascii_char(c: char) -> bool {
    (c as u32) < 128
}

/// Whether every character of `s` is ASCII.
pub open spec fn all_ascii(s: Seq<char>) -> bool {
    forall|i: int| 0 <= i < s.len() ==> is_ascii_char(#[trigger] s[i])
}

/// Whether `c` is an ASCII letter.
pub open spec fn is_ascii_letter(c: char) -> bool {
    ('a' <= c && c <= 'z') || ('A' <= c && c <= 'Z')
}

/// `c` with an ASCII capital turned into its small letter.
pub open spec fn ascii_lower_char(c: char) -> char {
    if 'A' <= c && c <= 'Z' {
        ((c as u32) + 32) as char
    } else {
        c
    }
}

/// `s` with its ASCII capitals turned into small letters.
pub open spec fn ascii_lower(s: Seq<char>) -> Seq<char> {
    s.map_values(|c: char| ascii_lower_char(c))
}

/// Whether `c` is white space.
pub fn is_whitespace(c: char) -> (b: bool)
    ensures
        b == spec_is_whitespace(c),
{
    ('\u{9}' <= c && c <= '\u{d}') || c == ' ' || c == '\u{85}' || c == '\u{a0}' || c
        == '\u{1680}' || ('\u{2000}' <= c && c <= '\u{200a}') || c == '\u{2028}' || c
        == '\u{2029}' || c == '\u{202f}' || c == '\u{205f}' || c == '\u{3000}'
}

/// Calls `char::is_alphabetic`; the result is named. Only the ASCII part of
/// the Unicode Alphabetic property is stated: among ASCII characters
/// exactly the letters are alphabetic; the rest of the table is not
/// restated here.
#[verifier::external_body]
pub(crate) fn is_alphabetic(c: char) -> (b: bool)
    ensures
        b == spec_is_alphabetic(c),
        is_ascii_char(c) ==> (b == is_ascii_letter(c)),
{
    c.is_alphabetic()
}

/// Calls `str::to_lowercase`; the result is named. Only ASCII text is
/// described: there each capital becomes its small letter and every other
/// character stays; Unicode case mapping beyond ASCII (which may change the
/// length of the text) is not restated here.
#[verifier::external_body]
pub(crate) fn to_lowercase(s: &str) -> (r: String)
    ensures
        r@ == spec_to_lowercase(s@),
        all_ascii(s@) ==> r@ == ascii_lower(s@),
{
    s.to_lowercase()
}

/// Calls `String::push`, which appends one character.
#[verifier::external_body]
pub(crate) fn push_char(s: &mut String, c: char)
    ensures
        final(s)@ == old(s)@.push(c),
{
    s.push(c)
}

// ---------------------------------------------------------------------------
// Conversions between strings and character vectors.
// ---------------------------------------------------------------------------

/// The characters of a string slice, in order.
pub fn chars_of(s: &str) -> (v: Vec<char>)
    ensures
        v@ == s@,
{
    let mut v: Vec<char> = Vec::new();
    for c in it: s.chars()
        invariant
            v@ == it.seq().take(it.index() as int),
    {
        v.push(c);
    }
    v
}

/// The string made of the characters `v`, in order.
pub fn string_of(v: &Vec<char>) -> (s: String)
    ensures
        s@ == v@,
{
    let mut s = String::new();
    let mut i: usize = 0;
    while i < v.len()
        invariant
            i <= v.len(),
            s@ == v@.take(i as int),
        decreases v.len() - i,
    {
        push_char(&mut s, v[i]);
        i = i + 1;
        assert(v@.take(i as int) =~= v@.take((i - 1) as int).push(v@[i - 1]));
    }
    assert(v@.take(v.len() as int) =~= v@);
    s
}

/// Whether two character vectors hold the same characters.
pub fn same_chars(a: &Vec<char>, b: &Vec<char>) -> (r: bool)
    ensures
        r == (a@ == b@),
{
    if a.len() != b.len() {
        return false;
    }
    let mut i: usize = 0;
    while i < a.len()
        invariant
            a.len() == b.len(),
            i <= a.len(),
            forall|j: int| 0 <= j < i ==> a@[j] == b@[j],
        decreases a.len() - i,
    {
        if a[i] != b[i] {
            return false;
        }
        i = i + 1;
    }
    assert(a@ =~= b@);
    true
}

/// A copy of `v[from..to]`.
pub fn slice_chars(v: &Vec<char>, from: usize, to: usize) -> (r: Vec<char>)
    requires
        from <= to <= v.len(),
    ensures
        r@ == v@.subrange(from as int, to as int),
{
    let mut r: Vec<char> = Vec::new();
    let mut i: usize = from;
    while i < to
        invariant
            from <= i <= to <= v.len(),
            r@ == v@.subrange(from as int, i as int),
        decreases to - i,
    {
        r.push(v[i]);
        i = i + 1;
        assert(r@ =~= v@.subrange(from as int, i as int));
    }
    r
}

// ---------------------------------------------------------------------------
// Searching.
// ---------------------------------------------------------------------------

/// The index of the first character of `s` that satisfies `p`, or the
/// length of `s` when none does.
pub open spec fn first_index(s: Seq<char>, p: spec_fn(char) -> bool) -> nat
    decreases s.len(),
{
    if s.len() == 0 {
        0
    } else if p(s[0]) {
        0
    } else {
        1 + first_index(s.drop_first(), p)
    }
}

/// `first_index` is the only index before which no character satisfies `p`
/// and at which one does (or the text ends).
pub proof fn lemma_first_index(s: Seq<char>, p: spec_fn(char) -> bool, k: int)
    requires
        0 <= k <= s.len(),
        forall|j: int| 0 <= j < k ==> !p(#[trigger] s[j]),
        k == s.len() || p(s[k]),
    ensures
        first_index(s, p) == k,
    decreases s.len(),
{
    if s.len() > 0 && k > 0 {
        assert(!p(s[0]));
        assert forall|j: int| 0 <= j < k - 1 implies !p(#[trigger] s.drop_first()[j]) by {
            assert(s.drop_first()[j] == s[j + 1]);
        }
        lemma_first_index(s.drop_first(), p, k - 1);
    }
}

/// The facts that characterise `first_index`.
pub proof fn lemma_first_index_facts(s: Seq<char>, p: spec_fn(char) -> bool)
    ensures
        first_index(s, p) <= s.len(),
        forall|j: int| 0 <= j < first_index(s, p) ==> !p(#[trigger] s[j]),
        first_index(s, p) < s.len() ==> p(s[first_index(s, p) as int]),
    decreases s.len(),
{
    if s.len() > 0 && !p(s[0]) {
        lemma_first_index_facts(s.drop_first(), p);
        assert forall|j: int| 0 <= j < first_index(s, p) implies !p(#[trigger] s[j]) by {
            if j > 0 {
                assert(s[j] == s.drop_first()[j - 1]);
            }
        }
    }
}

/// The number of characters of `s` left once every trailing character that
/// satisfies `p` has been removed.
pub open spec fn kept_len(s: Seq<char>, p: spec_fn(char) -> bool) -> nat
    decreases s.len(),
{
    if s.len() == 0 {
        0
    } else if p(s.last()) {
        kept_len(s.drop_last(), p)
    } else {
        s.len()
    }
}

/// `kept_len` is the only length after which every character satisfies `p`
/// and before which the last character does not.
pub proof fn lemma_kept_len(s: Seq<char>, p: spec_fn(char) -> bool, k: int)
    requires
        0 <= k <= s.len(),
        forall|j: int| k <= j < s.len() ==> p(#[trigger] s[j]),
        k == 0 || !p(s[k - 1]),
    ensures
        kept_len(s, p) == k,
    decreases s.len(),
{
    if s.len() > 0 && k < s.len() {
        assert(p(s[s.len() - 1]));
        assert forall|j: int| k <= j < s.len() - 1 implies p(#[trigger] s.drop_last()[j]) by {
            assert(s.drop_last()[j] == s[j]);
        }
        lemma_kept_len(s.drop_last(), p, k);
    }
}

/// Whether `needle` occurs in `hay` as a run of consecutive characters
/// (the empty needle occurs in every text).
pub open spec fn occurs_in(hay: Seq<char>, needle: Seq<char>) -> bool {
    exists|i: int|
        0 <= i && i + needle.len() <= hay.len() && #[trigger] hay.subrange(i, i + needle.len())
            == needle
}

/// Whether `needle` occurs in `hay` at position `i`.
fn occurs_at(hay: &Vec<char>, needle: &Vec<char>, i: usize) -> (r: bool)
    requires
        i + needle.len() <= hay.len(),
    ensures
        r == (hay@.subrange(i as int, i + needle.len()) == needle@),
{
    let mut j: usize = 0;
    while j < needle.len()
        invariant
            i + needle.len() <= hay.len(),
            j <= needle.len(),
            forall|k: int| 0 <= k < j ==> hay@[i + k] == needle@[k],
        decreases needle.len() - j,
    {
        if hay[i + j] != needle[j] {
            assert(hay@.subrange(i as int, i + needle.len())[j as int] != needle@[j as int]);
            return false;
        }
        j = j + 1;
    }
    assert(hay@.subrange(i as int, i + needle.len()) =~= needle@);
    true
}

/// Whether `needle` occurs in `hay` (as `str::contains` with a string pattern).
pub fn contains_chars(hay: &Vec<char>, needle: &Vec<char>) -> (r: bool)
    ensures
        r == occurs_in(hay@, needle@),
{
    if needle.len() > hay.len() {
        return false;
    }
    let last = hay.len() - needle.len();
    let mut i: usize = 0;
    while i <= last
        invariant
            last == hay.len() - needle.len(),
            needle.len() <= hay.len(),
            i <= last + 1,
            forall|k: int|
                0 <= k < i ==> #[trigger] hay@.subrange(k, k + needle.len()) != needle@,
        decreases last + 1 - i,
    {
        if occurs_at(hay, needle, i) {
            return true;
        }
        if i == last {
            return false;
        }
        i = i + 1;
    }
    false
}

/// The characters of `s` other than `c`, in order (as `str::replace` of a
/// one-character pattern by the empty string).
pub open spec fn without_char(s: Seq<char>, c: char) -> Seq<char> {
    s.filter(other_than(c))
}

/// The test that a character differs from `c`.
pub open spec fn other_than(c: char) -> spec_fn(char) -> bool {
    |x: char| x != c
}

/// Removes every occurrence of `c`.
pub fn remove_char(v: &Vec<char>, c: char) -> (r: Vec<char>)
    ensures
        r@ == without_char(v@, c),
{
    let mut r: Vec<char> = Vec::new();
    let mut i: usize = 0;
    while i < v.len()
        invariant
            i <= v.len(),
            r@ == without_char(v@.take(i as int), c),
        decreases v.len() - i,
    {
        assert(v@.take(i + 1).drop_last() =~= v@.take(i as int));
        reveal_with_fuel(Seq::filter, 1);
        if v[i] != c {
            r.push(v[i]);
        }
        i = i + 1;
    }
    assert(v@.take(v.len() as int) =~= v@);
    r
}

/// Filtering keeps a text whole when every character passes.
pub proof fn lemma_filter_keeps_all(s: Seq<char>, p: spec_fn(char) -> bool)
    requires
        forall|i: int| 0 <= i < s.len() ==> p(#[trigger] s[i]),
    ensures
        s.filter(p) == s,
    decreases s.len(),
{
    broadcast use Seq::lemma_filter_push;

    if s.len() > 0 {
        let d = s.drop_last();
        assert forall|i: int| 0 <= i < d.len() implies p(#[trigger] d[i]) by {
            assert(d[i] == s[i]);
        }
        lemma_filter_keeps_all(d, p);
        assert(p(s[s.len() - 1]));
        assert(d.push(s.last()) =~= s);
    }
}

/// A run of characters without a space that occurs in a text still occurs
/// once the text's spaces are removed.
pub proof fn lemma_occurs_without_spaces(hay: Seq<char>, needle: Seq<char>)
    requires
        !needle.contains(' '),
        occurs_in(hay, needle),
    ensures
        occurs_in(without_char(hay, ' '), needle),
{
    let p = other_than(' ');
    let i = choose|i: int|
        0 <= i && i + needle.len() <= hay.len() && #[trigger] hay.subrange(i, i + needle.len())
            == needle;
    let a = hay.take(i);
    let b = hay.skip(i + needle.len());
    assert(hay =~= a + needle + b);
    assert forall|j: int| 0 <= j < needle.len() implies p(#[trigger] needle[j]) by {
        if needle[j] == ' ' {
            assert(needle.contains(' '));
        }
    }
    lemma_filter_keeps_all(needle, p);
    Seq::filter_distributes_over_add(a + needle, b, p);
    Seq::filter_distributes_over_add(a, needle, p);
    let fa = a.filter(p);
    let f = without_char(hay, ' ');
    assert(f == (a + needle + b).filter(p));
    assert(f =~= fa + needle + b.filter(p));
    assert(f.subrange(fa.len() as int, (fa.len() + needle.len()) as int) =~= needle);
}

/// A run of an ASCII text is ASCII.
pub proof fn lemma_ascii_subrange(s: Seq<char>, i: int, j: int)
    requires
        all_ascii(s),
        0 <= i <= j <= s.len(),
    ensures
        all_ascii(s.subrange(i, j)),
{
    assert forall|k: int| 0 <= k < j - i implies is_ascii_char(#[trigger] s.subrange(i, j)[k]) by {
        assert(s.subrange(i, j)[k] == s[i + k]);
    }
}

/// The trimmed text of an ASCII text is ASCII.
pub proof fn lemma_ascii_trim(s: Seq<char>)
    requires
        all_ascii(s),
    ensures
        all_ascii(trim_spec(s)),
{
    let k = first_index(s, |c: char| !spec_is_whitespace(c));
    lemma_first_index_facts(s, |c: char| !spec_is_whitespace(c));
    let a = trim_start_spec(s);
    lemma_ascii_subrange(s, k as int, s.len() as int);
    assert(a =~= s.subrange(k as int, s.len() as int));
    let n = kept_len(a, |c: char| spec_is_whitespace(c));
    lemma_kept_len_bound(a, |c: char| spec_is_whitespace(c));
    lemma_ascii_subrange(a, 0, n as int);
    assert(trim_spec(s) =~= a.subrange(0, n as int));
}

/// `kept_len` is at most the length of the text.
pub proof fn lemma_kept_len_bound(s: Seq<char>, p: spec_fn(char) -> bool)
    ensures
        kept_len(s, p) <= s.len(),
    decreases s.len(),
{
    if s.len() > 0 && p(s.last()) {
        lemma_kept_len_bound(s.drop_last(), p);
    }
}

/// Lower-casing the capitals of an ASCII text leaves it ASCII.
pub proof fn lemma_ascii_lower_ascii(s: Seq<char>)
    requires
        all_ascii(s),
    ensures
        all_ascii(ascii_lower(s)),
{
    let l = ascii_lower(s);
    assert forall|i: int| 0 <= i < l.len() implies is_ascii_char(#[trigger] l[i]) by {
        let c = s[i];
        assert(is_ascii_char(c));
        assert(l[i] == ascii_lower_char(c));
    }
}

/// Lower-casing ASCII capitals makes no space of a character that is none.
pub proof fn lemma_ascii_lower_no_space(s: Seq<char>)
    requires
        !s.contains(' '),
    ensures
        !ascii_lower(s).contains(' '),
{
    let l = ascii_lower(s);
    if l.contains(' ') {
        let i = choose|i: int| 0 <= i < l.len() && l[i] == ' ';
        assert(s[i] != ' ') by {
            if s[i] == ' ' {
                assert(s.contains(' '));
            }
        }
        assert(l[i] == ascii_lower_char(s[i]));
    }
}

// ---------------------------------------------------------------------------
// Trimming, splitting and prefixes.
// ---------------------------------------------------------------------------

/// `s` without leading whitespace (as `str::trim_start`).
pub open spec fn trim_start_spec(s: Seq<char>) -> Seq<char> {
    s.skip(first_index(s, |c: char| !spec_is_whitespace(c)) as int)
}

/// `s` without leading or trailing whitespace (as `str::trim`).
pub open spec fn trim_spec(s: Seq<char>) -> Seq<char> {
    let a = trim_start_spec(s);
    a.take(kept_len(a, |c: char| spec_is_whitespace(c)) as int)
}

/// The index of the first character of `v` that is not whitespace.
fn skip_whitespace(v: &Vec<char>) -> (i: usize)
    ensures
        i == first_index(v@, |c: char| !spec_is_whitespace(c)),
{
    let mut i: usize = 0;
    while i < v.len() && is_whitespace(v[i])
        invariant
            i <= v.len(),
            forall|j: int| 0 <= j < i ==> spec_is_whitespace(#[trigger] v@[j]),
        decreases v.len() - i,
    {
        i = i + 1;
    }
    proof {
        lemma_first_index(v@, |c: char| !spec_is_whitespace(c), i as int);
    }
    i
}

/// The index of the first alphabetic character of `v` (its length when
/// there is none), as `str::find(char::is_alphabetic)` counts characters.
pub fn first_alphabetic(v: &Vec<char>) -> (i: usize)
    ensures
        i == first_index(v@, |c: char| spec_is_alphabetic(c)),
        all_ascii(v@) ==> i == first_index(v@, |c: char| is_ascii_letter(c)),
{
    let mut i: usize = 0;
    let mut found = false;
    while i < v.len() && !found
        invariant
            i <= v.len(),
            found ==> i < v.len() && spec_is_alphabetic(v@[i as int]) && (is_ascii_char(v@[i as int])
                ==> is_ascii_letter(v@[i as int])),
            forall|j: int| 0 <= j < i ==> !spec_is_alphabetic(#[trigger] v@[j]),
            forall|j: int|
                0 <= j < i && is_ascii_char(#[trigger] v@[j]) ==> !is_ascii_letter(v@[j]),
        decreases v.len() - i + (if found { 0int } else { 1int }),
    {
        if is_alphabetic(v[i]) {
            found = true;
        } else {
            i = i + 1;
        }
    }
    proof {
        lemma_first_index(v@, |c: char| spec_is_alphabetic(c), i as int);
        if all_ascii(v@) {
            assert(i < v.len() ==> is_ascii_char(v@[i as int]));
            lemma_first_index(v@, |c: char| is_ascii_letter(c), i as int);
        }
    }
    i
}

/// `v` without leading whitespace.
pub fn trim_start_chars(v: &Vec<char>) -> (r: Vec<char>)
    ensures
        r@ == trim_start_spec(v@),
{
    let i = skip_whitespace(v);
    proof {
        lemma_first_index_facts(v@, |c: char| !spec_is_whitespace(c));
    }
    slice_chars(v, i, v.len())
}

/// `v` without leading or trailing whitespace.
pub fn trim_chars(v: &Vec<char>) -> (r: Vec<char>)
    ensures
        r@ == trim_spec(v@),
{
    let a = trim_start_chars(v);
    let mut k: usize = a.len();
    while k > 0 && is_whitespace(a[k - 1])
        invariant
            k <= a.len(),
            forall|j: int| k <= j < a.len() ==> spec_is_whitespace(#[trigger] a@[j]),
        decreases k,
    {
        k = k - 1;
    }
    proof {
        lemma_kept_len(a@, |c: char| spec_is_whitespace(c), k as int);
    }
    slice_chars(&a, 0, k)
}

/// What `s.splitn(2, ' ')` yields: the text before the first space, and
/// the text after it when there is a space.
pub open spec fn split_first_space(s: Seq<char>) -> (Seq<char>, Option<Seq<char>>) {
    let k = first_index(s, |c: char| c == ' ');
    if k < s.len() {
        (s.take(k as int), Some(s.skip(k + 1int)))
    } else {
        (s, None)
    }
}

/// Splits at the first space (as `str::splitn(2, ' ')`).
pub fn split_at_first_space(v: &Vec<char>) -> (r: (Vec<char>, Option<Vec<char>>))
    ensures
        r.0@ == split_first_space(v@).0,
        r.1 is Some == split_first_space(v@).1 is Some,
        r.1 is Some ==> r.1->0@ == split_first_space(v@).1->0,
{
    let mut i: usize = 0;
    while i < v.len() && v[i] != ' '
        invariant
            i <= v.len(),
            forall|j: int| 0 <= j < i ==> #[trigger] v@[j] != ' ',
        decreases v.len() - i,
    {
        i = i + 1;
    }
    proof {
        lemma_first_index(v@, |c: char| c == ' ', i as int);
    }
    if i < v.len() {
        (slice_chars(v, 0, i), Some(slice_chars(v, i + 1, v.len())))
    } else {
        assert(v@.subrange(0, v.len() as int) =~= v@);
        (slice_chars(v, 0, v.len()), None)
    }
}

/// Whether `s` begins with `p`.
pub open spec fn starts_with_spec(s: Seq<char>, p: Seq<char>) -> bool {
    p.len() <= s.len() && s.take(p.len() as int) == p
}

/// Whether `s` ends with `p`.
pub open spec fn ends_with_spec(s: Seq<char>, p: Seq<char>) -> bool {
    p.len() <= s.len() && s.skip(s.len() - p.len()) == p
}

/// Whether `v` begins with `p` (as `str::starts_with`).
pub fn starts_with_chars(v: &Vec<char>, p: &Vec<char>) -> (r: bool)
    ensures
        r == starts_with_spec(v@, p@),
{
    if p.len() > v.len() {
        return false;
    }
    let r = occurs_at(v, p, 0);
    assert(v@.subrange(0, p.len() as int) =~= v@.take(p.len() as int));
    r
}

/// Whether `v` ends with `p` (as `str::ends_with`).
pub fn ends_with_chars(v: &Vec<char>, p: &Vec<char>) -> (r: bool)
    ensures
        r == ends_with_spec(v@, p@),
{
    if p.len() > v.len() {
        return false;
    }
    let r = occurs_at(v, p, v.len() - p.len());
    assert(v@.subrange(v.len() - p.len(), v.len() as int) =~= v@.skip(v.len() - p.len()));
    r
}

/// `s` with the prefix `p` removed, when `s` begins with `p` (as
/// `str::strip_prefix`).
pub open spec fn strip_prefix_spec(s: Seq<char>, p: Seq<char>) -> Option<Seq<char>> {
    if starts_with_spec(s, p) {
        Some(s.skip(p.len() as int))
    } else {
        None
    }
}

/// Removes the prefix `p` when `v` begins with it.
pub fn strip_prefix_chars(v: &Vec<char>, p: &Vec<char>) -> (r: Option<Vec<char>>)
    ensures
        r is Some == strip_prefix_spec(v@, p@) is Some,
        r is Some ==> r->0@ == strip_prefix_spec(v@, p@)->0,
{
    if starts_with_chars(v, p) {
        Some(slice_chars(v, p.len(), v.len()))
    } else {
        None
    }
}

/// `s` with every leading repetition of the non-empty pattern `p` removed
/// (as `str::trim_start_matches` with a string pattern); an empty pattern
/// leaves `s` unchanged.
pub open spec fn trim_start_matches_spec(s: Seq<char>, p: Seq<char>) -> Seq<char>
    decreases s.len(),
{
    if p.len() > 0 && starts_with_spec(s, p) {
        trim_start_matches_spec(s.skip(p.len() as int), p)
    } else {
        s
    }
}

/// Removes every leading repetition of `p`.
pub fn trim_start_matches_chars(v: &Vec<char>, p: &Vec<char>) -> (r: Vec<char>)
    ensures
        r@ == trim_start_matches_spec(v@, p@),
{
    if p.len() == 0 {
        return slice_chars(v, 0, v.len());
    }
    let mut cur = slice_chars(v, 0, v.len());
    assert(cur@ =~= v@);
    loop
        invariant
            p.len() > 0,
            trim_start_matches_spec(cur@, p@) == trim_start_matches_spec(v@, p@),
        decreases cur.len(),
    {
        if starts_with_chars(&cur, p) {
            cur = slice_chars(&cur, p.len(), cur.len());
        } else {
            return cur;
        }
    }
}

} // verus!
