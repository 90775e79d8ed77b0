//! Decimal numerals and small string helpers.

use vstd::prelude::*;

verus! {

/// The decimal digit character for `d`.
pub open spec fn digit_char(d: nat) -> char {
    ((d + 48) as u8) as char
}

/// Whether `c` is one of the characters `0` to `9`.
pub open spec fn is_digit(c: char) -> bool {
    '0' <= c && c <= '9'
}

/// The shortest decimal numeral of `n`.
pub open spec fn decimal(n: nat) -> Seq<char>
    decreases n,
{
    if n < 10 {
        seq![digit_char(n)]
    } else {
        decimal(n / 10).push(digit_char(n % 10))
    }
}

/// The number that a string of decimal digits denotes.
pub open spec fn digits_value(s: Seq<char>) -> nat
    decreases s.len(),
{
    if s.len() == 0 {
        0
    } else {
        digits_value(s.drop_last()) * 10 + ((s.last() as u32) - 48) as nat
    }
}

/// Whether every character of `s` is a decimal digit.
pub open spec fn all_digits(s: Seq<char>) -> bool {
    forall|i: int| 0 <= i < s.len() ==> is_digit(#[trigger] s[i])
}

/// What reading `s` as an unsigned machine integer gives: an optional `+`,
/// then one or more decimal digits, denoting at most `usize::MAX`.
pub open spec fn parse_usize(s: Seq<char>) -> Option<nat> {
    let body = if s.len() > 0 && s[0] == '+' { s.drop_first() } else { s };
    if body.len() > 0 && all_digits(body) && digits_value(body) <= usize::MAX {
        Some(digits_value(body))
    } else {
        None
    }
}

/// Relies on String::push: the character is appended at the end.
#[verifier::external_body]
pub(crate) fn push_char(s: &mut String, c: char)
    ensures
        final(s)@ == old(s)@.push(c),
{
    s.push(c)
}

/// The characters of `s`, in order.
pub fn chars_of(s: &str) -> (r: Vec<char>)
    ensures
        r@ == s@,
{
    let mut r: Vec<char> = Vec::new();
    for c in it: s.chars()
        invariant
            r@ == it.seq().take(it.index() as int),
    {
        r.push(c);
    }
    r
}

/// Whether `i` is the position of the first `:` in `s`.
pub open spec fn first_colon(s: Seq<char>, i: int) -> bool {
    &&& 0 <= i < s.len()
    &&& s[i] == ':'
    &&& forall|j: int| 0 <= j < i ==> s[j] != ':'
}

/// A token read as `index:label`: the text before its first `:` must be
/// the decimal numeral of an index (digits only, no sign, no leading zero),
/// and the label is the rest, which holds no further `:`.
pub open spec fn split_token(s: Seq<char>) -> Option<(nat, Seq<char>)> {
    if exists|i: int| first_colon(s, i) {
        let i = choose|i: int| first_colon(s, i);
        match parse_usize(s.take(i)) {
            Some(n) => if decimal(n) == s.take(i) && !s.skip(i + 1).contains(':') {
                Some((n, s.skip(i + 1)))
            } else {
                None
            },
            None => None,
        }
    } else {
        None
    }
}

/// The token that names slot `n` under `label`.
pub open spec fn token_text(n: nat, label: Seq<char>) -> Seq<char> {
    decimal(n) + seq![':'] + label
}

/// Appends the decimal numeral of `n` to `s`.
pub fn push_decimal(s: &mut String, n: usize)
    ensures
        final(s)@ == old(s)@ + decimal(n as nat),
    decreases n,
{
    if n >= 10 {
        push_decimal(s, n / 10);
    }
    let d: u8 = (n % 10) as u8;
    push_char(s, (d + 48) as char);
    proof {
        assert(old(s)@ + decimal(n as nat) =~= (old(s)@ + if n >= 10 { decimal((n / 10) as nat) } else { Seq::empty() }).push(digit_char((n % 10) as nat)));
    }
}

proof fn lemma_digits_prefix_le(s: Seq<char>, j: int)
    requires
        all_digits(s),
        0 <= j <= s.len(),
    ensures
        digits_value(s.take(j)) <= digits_value(s),
    decreases s.len(),
{
    if j < s.len() {
        let t = s.drop_last();
        assert(t.take(j) =~= s.take(j));
        lemma_digits_prefix_le(t, j);
    } else {
        assert(s.take(j) =~= s);
    }
}

/// Reads `s[lo..hi]` as an unsigned integer, as `parse_usize` describes.
#[verifier::loop_isolation(false)]
pub fn parse_index(s: &Vec<char>, lo: usize, hi: usize) -> (r: Option<usize>)
    requires
        lo <= hi <= s@.len(),
    ensures
        r matches Some(n) ==> parse_usize(s@.subrange(lo as int, hi as int)) == Some(n as nat),
        r is None ==> parse_usize(s@.subrange(lo as int, hi as int)) is None,
{
    let ghost whole = s@.subrange(lo as int, hi as int);
    let mut start = lo;
    if lo < hi && s[lo] == '+' {
        start = lo + 1;
    }
    let ghost body = s@.subrange(start as int, hi as int);
    assert(body =~= (if whole.len() > 0 && whole[0] == '+' { whole.drop_first() } else { whole }));
    if start == hi {
        return None;
    }
    let mut i = start;
    while i < hi
        invariant
            start <= i <= hi <= s@.len(),
            body == s@.subrange(start as int, hi as int),
            forall|k: int| start <= k < i ==> is_digit(#[trigger] s@[k]),
        decreases hi - i,
    {
        if !('0' <= s[i] && s[i] <= '9') {
            assert(!is_digit(body[i - start]));
            return None;
        }
        i = i + 1;
    }
    assert(all_digits(body));
    let mut v: usize = 0;
    let mut i = start;
    while i < hi
        invariant
            start <= i <= hi <= s@.len(),
            body == s@.subrange(start as int, hi as int),
            all_digits(body),
            v as nat == digits_value(body.take(i - start)),
        decreases hi - i,
    {
        let ghost pre = body.take(i - start);
        let ghost next = body.take(i - start + 1);
        assert(next.drop_last() =~= pre);
        assert(is_digit(body[i - start]));
        let d: usize = (s[i] as u32 - 48) as usize;
        if v > (usize::MAX - d) / 10 {
            proof {
                lemma_digits_prefix_le(body, i - start + 1);
                assert(digits_value(next) == v * 10 + d) by (nonlinear_arith)
                    requires digits_value(next) == digits_value(pre) * 10 + d, v == digits_value(pre);
                assert(v * 10 + d > usize::MAX) by (nonlinear_arith)
                    requires v > (usize::MAX - d) / 10, d < 10;
            }
            return None;
        }
        proof {
            assert(v * 10 + d <= usize::MAX) by (nonlinear_arith)
                requires v <= (usize::MAX - d) / 10, d < 10;
        }
        v = v * 10 + d;
        i = i + 1;
    }
    assert(body.take(hi - start) =~= body);
    Some(v)
}

/// Position of the first `:` in `s[lo..]`, if there is one.
pub fn find_colon(s: &Vec<char>, lo: usize) -> (r: Option<usize>)
    requires
        lo <= s@.len(),
    ensures
        r matches Some(i) ==> lo <= i < s@.len() && s@[i as int] == ':' && forall|j: int| lo <= j < i ==> s@[j] != ':',
        r is None ==> forall|j: int| lo <= j < s@.len() ==> s@[j] != ':',
{
    let mut i = lo;
    while i < s.len()
        invariant
            lo <= i <= s@.len(),
            forall|j: int| lo <= j < i ==> s@[j] != ':',
        decreases s@.len() - i,
    {
        if s[i] == ':' {
            return Some(i);
        }
        i = i + 1;
    }
    None
}

/// The decimal numeral of `n` is made of digits and reads back as `n`.
pub proof fn lemma_decimal_digits(n: nat)
    ensures
        decimal(n).len() > 0,
        all_digits(decimal(n)),
        digits_value(decimal(n)) == n,
    decreases n,
{
    let c = digit_char(n % 10);
    assert((c as u32) == (n % 10) + 48);
    if n >= 10 {
        lemma_decimal_digits(n / 10);
        let d = decimal(n / 10);
        assert(decimal(n).drop_last() =~= d);
        assert(decimal(n).last() == c);
        assert(n == (n / 10) * 10 + n % 10);
        assert(digits_value(decimal(n)) == digits_value(d) * 10 + ((c as u32) - 48) as nat);
        assert forall|i: int| 0 <= i < decimal(n).len() implies is_digit(#[trigger] decimal(n)[i]) by {
            if i < d.len() {
                assert(decimal(n)[i] == d[i]);
            }
        }
    } else {
        assert(decimal(n).drop_last() =~= Seq::<char>::empty());
        assert(decimal(n).last() == c);
        assert(is_digit(decimal(n)[0]));
        assert(digits_value(decimal(n)) == digits_value(Seq::<char>::empty()) * 10 + ((c as u32) - 48) as nat);
    }
}

/// How a token with its first `:` at `i` is read.
pub proof fn lemma_split_at(s: Seq<char>, i: int)
    requires
        first_colon(s, i),
    ensures
        split_token(s) == match parse_usize(s.take(i)) {
            Some(n) => if decimal(n) == s.take(i) && !s.skip(i + 1).contains(':') {
                Some((n, s.skip(i + 1)))
            } else {
                None
            },
            None => None::<(nat, Seq<char>)>,
        },
{
    let k = choose|k: int| first_colon(s, k);
    assert(k == i) by {
        if k < i {
            assert(s[k] != ':');
        } else if k > i {
            assert(s[i] != ':');
        }
    }
}

/// A token read back gives the slot index and the label it was made from.
pub proof fn lemma_token_round_trip(n: nat, label: Seq<char>)
    requires
        n <= usize::MAX,
        !label.contains(':'),
    ensures
        split_token(token_text(n, label)) == Some((n, label)),
{
    let d = decimal(n);
    let t = token_text(n, label);
    lemma_decimal_digits(n);
    let i = d.len() as int;
    assert(t[i] == ':');
    assert forall|j: int| 0 <= j < i implies t[j] != ':' by {
        assert(t[j] == d[j]);
        assert(is_digit(d[j]));
    }
    assert(first_colon(t, i));
    lemma_split_at(t, i);
    assert(t.take(i) =~= d);
    assert(t.skip(i + 1) =~= label);
    assert(is_digit(d[0]));
}

/// A text that reads as a token is the token of what it reads as: each slot
/// index and label have exactly one token.
pub proof fn lemma_token_is_canonical(s: Seq<char>)
    requires
        split_token(s) is Some,
    ensures
        s == token_text(split_token(s)->Some_0.0, split_token(s)->Some_0.1),
{
    let i = choose|i: int| first_colon(s, i);
    lemma_split_at(s, i);
    assert(s =~= s.take(i) + seq![':'] + s.skip(i + 1));
}

} // verus!
