use vstd::prelude::*;

verus! {

/// Whether `c` is one of the ASCII digits `0` to `9`.
pub open spec fn is_digit(c: char) -> bool {
    '0' <= c && c <= '9'
}

/// The value of the ASCII digit `c`.
pub open spec fn digit_value(c: char) -> int {
    (c as int) - ('0' as int)
}

/// The ASCII digit for `d` (for `d` in `0..10`).
pub open spec fn digit_char(d: int) -> char {
    (d + ('0' as int)) as char
}

/// Whether every character of `s` is an ASCII digit.
pub open spec fn all_digits(s: Seq<char>) -> bool {
    forall|i: int| 0 <= i < s.len() ==> is_digit(#[trigger] s[i])
}

/// The number that the decimal digits `s` denote.
pub open spec fn digits_value(s: Seq<char>) -> int
    decreases s.len(),
{
    if s.len() == 0 {
        0
    } else {
        digits_value(s.drop_last()) * 10 + digit_value(s.last())
    }
}

/// The decimal representation of `n`, without sign or leading zeros (as
/// `u64::to_string` writes it).
pub open spec fn decimal(n: nat) -> Seq<char>
    decreases n,
{
    if n < 10 {
        seq![digit_char(n as int)]
    } else {
        decimal(n / 10).push(digit_char((n % 10) as int))
    }
}

/// The digits of `s` once an optional leading `+` is removed.
pub open spec fn unsigned_body(s: Seq<char>) -> Seq<char> {
    if s.len() > 0 && s[0] == '+' {
        s.drop_first()
    } else {
        s
    }
}

/// What `str::parse::<u64>` gives for the text `s`: an optional `+`
/// followed by at least one ASCII digit, denoting a value that fits.
pub open spec fn parse_u64_spec(s: Seq<char>) -> Option<u64> {
    let body = unsigned_body(s);
    if body.len() > 0 && all_digits(body) && digits_value(body) <= u64::MAX {
        Some(digits_value(body) as u64)
    } else {
        None
    }
}

/// What `str::parse::<i64>` gives for the text `s`: an optional `+` or `-`
/// followed by at least one ASCII digit, denoting a value that fits.
pub open spec fn parse_i64_spec(s: Seq<char>) -> Option<i64> {
    if s.len() > 0 && s[0] == '-' {
        let body = s.drop_first();
        if body.len() > 0 && all_digits(body) && digits_value(body) <= 0x8000_0000_0000_0000 {
            Some((-digits_value(body)) as i64)
        } else {
            None
        }
    } else {
        let body = unsigned_body(s);
        if body.len() > 0 && all_digits(body) && digits_value(body) <= i64::MAX {
            Some(digits_value(body) as i64)
        } else {
            None
        }
    }
}

/// Digits denote a value no smaller than the one their prefix denotes.
pub proof fn lemma_digits_value_prefix(s: Seq<char>, k: int)
    requires
        all_digits(s),
        0 <= k <= s.len(),
    ensures
        0 <= digits_value(s.take(k)) <= digits_value(s),
    decreases s.len(),
{
    if s.len() > 0 {
        if k == s.len() {
            assert(s.take(k) =~= s);
            lemma_digits_value_prefix(s.drop_last(), k - 1);
            assert(s.drop_last().take(k - 1) =~= s.drop_last());
        } else {
            lemma_digits_value_prefix(s.drop_last(), k);
            assert(s.drop_last().take(k) =~= s.take(k));
            lemma_digits_value_prefix(s.drop_last(), s.len() - 1);
            assert(s.drop_last().take(s.len() - 1) =~= s.drop_last());
        }
    }
}

/// Adding one digit to a prefix.
proof fn lemma_digits_value_step(s: Seq<char>, i: int)
    requires
        0 <= i < s.len(),
    ensures
        digits_value(s.take(i + 1)) == digits_value(s.take(i)) * 10 + digit_value(s[i]),
{
    assert(s.take(i + 1).drop_last() =~= s.take(i));
}

/// The value of the digits `v[from..]`, or `None` when it exceeds `bound`
/// or a character is not a digit.
fn digits_up_to(v: &Vec<char>, from: usize, bound: u64) -> (r: Option<u64>)
    requires
        from <= v.len(),
        bound >= 9,
    ensures
        r is Some == (all_digits(v@.skip(from as int)) && digits_value(v@.skip(from as int))
            <= bound),
        r is Some ==> r->0 == digits_value(v@.skip(from as int)),
{
    let ghost body = v@.skip(from as int);
    let mut acc: u64 = 0;
    let mut i: usize = from;
    while i < v.len()
        invariant
            from <= i <= v.len(),
            body == v@.skip(from as int),
            all_digits(body.take(i - from)),
            acc == digits_value(body.take(i - from)),
            acc <= bound,
            bound >= 9,
        decreases v.len() - i,
    {
        let c = v[i];
        proof {
            lemma_digits_value_step(body, i - from);
            assert(body[i - from] == c);
        }
        if c < '0' || c > '9' {
            assert(!is_digit(body[i - from]));
            return None;
        }
        let d: u64 = (c as u64) - ('0' as u64);
        if acc > bound / 10 || acc * 10 > bound - d {
            proof {
                assert(acc * 10 + d > bound) by (nonlinear_arith)
                    requires acc > bound / 10 || acc * 10 > bound - d, d <= 9;
                if all_digits(body) {
                    lemma_digits_value_prefix(body, i + 1 - from);
                }
            }
            return None;
        }
        acc = acc * 10 + d;
        i = i + 1;
        proof {
            assert forall|j: int| 0 <= j < i - from implies is_digit(
                #[trigger] body.take(i - from)[j],
            ) by {
                if j < i - 1 - from {
                    assert(body.take(i - from)[j] == body.take(i - 1 - from)[j]);
                }
            }
        }
    }
    assert(body.take(i - from) =~= body);
    Some(acc)
}

/// Parses an unsigned decimal number (as `str::parse::<u64>`).
pub fn parse_u64(v: &Vec<char>) -> (r: Option<u64>)
    ensures
        r == parse_u64_spec(v@),
{
    let from: usize = if v.len() > 0 && v[0] == '+' { 1 } else { 0 };
    assert(v@.skip(from as int) =~= unsigned_body(v@));
    if from == v.len() {
        return None;
    }
    digits_up_to(v, from, u64::MAX)
}

/// Parses a signed decimal number (as `str::parse::<i64>`).
pub fn parse_i64(v: &Vec<char>) -> (r: Option<i64>)
    ensures
        r == parse_i64_spec(v@),
{
    if v.len() > 0 && v[0] == '-' {
        assert(v@.skip(1) =~= v@.drop_first());
        if v.len() == 1 {
            return None;
        }
        match digits_up_to(v, 1, 0x8000_0000_0000_0000) {
            Some(m) => {
                if m == 0x8000_0000_0000_0000 {
                    Some(i64::MIN)
                } else {
                    Some(-(m as i64))
                }
            },
            None => None,
        }
    } else {
        let from: usize = if v.len() > 0 && v[0] == '+' { 1 } else { 0 };
        assert(v@.skip(from as int) =~= unsigned_body(v@));
        if from == v.len() {
            return None;
        }
        match digits_up_to(v, from, i64::MAX as u64) {
            Some(m) => Some(m as i64),
            None => None,
        }
    }
}

/// The decimal representation of `n` (as `u64::to_string`).
pub fn decimal_chars(n: u64) -> (r: Vec<char>)
    ensures
        r@ == decimal(n as nat),
    decreases n,
{
    let d = (n % 10) as u32;
    let c = char_of_digit(d);
    if n < 10 {
        let mut r: Vec<char> = Vec::new();
        r.push(c);
        assert(r@ =~= decimal(n as nat));
        r
    } else {
        let mut r = decimal_chars(n / 10);
        r.push(c);
        r
    }
}

/// The ASCII digit for `d`.
fn char_of_digit(d: u32) -> (c: char)
    requires
        d < 10,
    ensures
        c == digit_char(d as int),
        is_digit(c),
{
    let c = if d == 0 { '0' } else if d == 1 { '1' } else if d == 2 { '2' } else if d == 3 {
        '3'
    } else if d == 4 { '4' } else if d == 5 { '5' } else if d == 6 { '6' } else if d == 7 {
        '7'
    } else if d == 8 { '8' } else { '9' };
    c
}

/// A decimal representation is made of digits and denotes its number.
pub proof fn lemma_decimal(n: nat)
    ensures
        decimal(n).len() > 0,
        all_digits(decimal(n)),
        digits_value(decimal(n)) == n,
    decreases n,
{
    if n >= 10 {
        lemma_decimal(n / 10);
        let s = decimal(n);
        assert(s.drop_last() =~= decimal(n / 10));
        assert forall|i: int| 0 <= i < s.len() implies is_digit(#[trigger] s[i]) by {
            if i < s.len() - 1 {
                assert(s[i] == decimal(n / 10)[i]);
            }
        }
    } else {
        assert(digits_value(decimal(n)) == digits_value(decimal(n).drop_last()) * 10
            + digit_value(decimal(n).last()));
        assert(decimal(n).drop_last() =~= Seq::<char>::empty());
    }
}

/// Reading back the decimal representation of a number gives the number.
pub proof fn lemma_parse_decimal(n: u64)
    ensures
        parse_u64_spec(decimal(n as nat)) == Some(n),
{
    lemma_decimal(n as nat);
    assert(unsigned_body(decimal(n as nat)) == decimal(n as nat));
}

/// Distinct numbers have distinct decimal representations.
pub proof fn lemma_decimal_injective(a: u64, b: u64)
    ensures
        decimal(a as nat) == decimal(b as nat) ==> a == b,
{
    lemma_parse_decimal(a);
    lemma_parse_decimal(b);
}

} // verus!
