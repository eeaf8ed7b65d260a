use vstd::prelude::*;
use vstd::string::*;

verus! {

/// Calls `String::push`, which appends the character to the string.
#[verifier::external_body]
pub(crate) fn push_char(s: &mut String, c: char)
    ensures
        final(s)@ == old(s)@.push(c),
{
    s.push(c)
}

/// The string holding exactly the given characters.
pub fn string_from_chars(chars: &[char]) -> (s: String)
    ensures
        s@ == chars@,
{
    let mut s = String::new();
    let mut i: usize = 0;
    while i < chars.len()
        invariant
            i <= chars@.len(),
            s@ == chars@.subrange(0, i as int),
        decreases chars@.len() - i,
    {
        push_char(&mut s, chars[i]);
        i = i + 1;
        proof {
            assert(s@ =~= chars@.subrange(0, i as int));
        }
    }
    proof {
        assert(chars@.subrange(0, chars@.len() as int) =~= chars@);
    }
    s
}

/// The characters of a string, in order.
pub fn chars_of(s: &str) -> (chars: Vec<char>)
    ensures
        chars@ == s@,
{
    let n = s.unicode_len();
    let mut chars: Vec<char> = Vec::new();
    let mut i: usize = 0;
    while i < n
        invariant
            n == s@.len(),
            i <= n,
            chars@ == s@.subrange(0, i as int),
        decreases n - i,
    {
        chars.push(s.get_char(i));
        i = i + 1;
        proof {
            assert(chars@ =~= s@.subrange(0, i as int));
        }
    }
    proof {
        assert(s@.subrange(0, n as int) =~= s@);
    }
    chars
}

/// Whether two strings hold the same characters.
pub fn str_equals(a: &str, b: &str) -> (equal: bool)
    ensures
        equal <==> a@ == b@,
{
    let n = a.unicode_len();
    if n != b.unicode_len() {
        return false;
    }
    let mut i: usize = 0;
    while i < n
        invariant
            n == a@.len() == b@.len(),
            i <= n,
            a@.subrange(0, i as int) == b@.subrange(0, i as int),
        decreases n - i,
    {
        if a.get_char(i) != b.get_char(i) {
            assert(a@[i as int] != b@[i as int]);
            return false;
        }
        i = i + 1;
        assert(a@.subrange(0, i as int) =~= b@.subrange(0, i as int));
    }
    assert(a@ =~= a@.subrange(0, n as int));
    assert(b@ =~= b@.subrange(0, n as int));
    true
}

/// The decimal digit character of a value below ten.
pub open spec fn digit_char(d: nat) -> char {
    if d == 0 { '0' }
    else if d == 1 { '1' }
    else if d == 2 { '2' }
    else if d == 3 { '3' }
    else if d == 4 { '4' }
    else if d == 5 { '5' }
    else if d == 6 { '6' }
    else if d == 7 { '7' }
    else if d == 8 { '8' }
    else { '9' }
}

/// The value of a decimal digit character, if it is one.
pub open spec fn digit_value(c: char) -> Option<nat> {
    if '0' <= c && c <= '9' {
        Some((c as nat - '0' as nat) as nat)
    } else {
        None
    }
}

/// The decimal representation of a natural number, most significant digit first, without
/// leading zeros ("0" for zero).
pub open spec fn decimal(n: nat) -> Seq<char>
    decreases n,
{
    if n < 10 {
        seq![digit_char(n)]
    } else {
        decimal(n / 10).push(digit_char(n % 10))
    }
}

/// The value of a nonempty sequence of decimal digits, if every character is a digit.
pub open spec fn digits_value(s: Seq<char>) -> Option<nat>
    decreases s.len(),
{
    if s.len() == 0 {
        Some(0)
    } else {
        match (digits_value(s.drop_last()), digit_value(s.last())) {
            (Some(high), Some(low)) => Some(high * 10 + low),
            _ => None,
        }
    }
}

/// What `str::parse::<usize>` accepts: an optional leading `+` followed by at least one
/// decimal digit, whose value fits in a `usize`.
pub open spec fn parse_usize_spec(s: Seq<char>) -> Option<usize> {
    let digits = if s.len() > 0 && s[0] == '+' { s.drop_first() } else { s };
    if digits.len() == 0 {
        None
    } else {
        match digits_value(digits) {
            Some(v) => if v <= usize::MAX { Some(v as usize) } else { None },
            None => None,
        }
    }
}

proof fn lemma_digit_char_value(d: nat)
    requires
        d < 10,
    ensures
        digit_value(digit_char(d)) == Some(d),
{
}

/// Reading back the decimal representation of a number gives the number.
pub proof fn lemma_decimal_round_trip(n: nat)
    ensures
        digits_value(decimal(n)) == Some(n),
        decimal(n).len() > 0,
        decimal(n)[0] != '+',
    decreases n,
{
    if n < 10 {
        lemma_digit_char_value(n);
        assert(decimal(n).drop_last() =~= Seq::<char>::empty());
        assert(digits_value(Seq::<char>::empty()) == Some(0nat));
        assert(decimal(n).last() == digit_char(n));
    } else {
        lemma_decimal_round_trip(n / 10);
        lemma_digit_char_value(n % 10);
        assert(decimal(n).drop_last() =~= decimal(n / 10));
        assert(decimal(n).last() == digit_char(n % 10));
        assert(n / 10 * 10 + n % 10 == n);
    }
}

/// The decimal representation of a `usize`.
pub fn usize_to_decimal(n: usize) -> (s: String)
    ensures
        s@ == decimal(n as nat),
    decreases n,
{
    if n < 10 {
        let mut s = String::new();
        push_char(&mut s, decimal_digit(n));
        proof {
            assert(s@ =~= decimal(n as nat));
        }
        s
    } else {
        let mut s = usize_to_decimal(n / 10);
        push_char(&mut s, decimal_digit(n % 10));
        s
    }
}

fn decimal_digit(d: usize) -> (c: char)
    requires
        d < 10,
    ensures
        c == digit_char(d as nat),
{
    match d {
        0 => '0',
        1 => '1',
        2 => '2',
        3 => '3',
        4 => '4',
        5 => '5',
        6 => '6',
        7 => '7',
        8 => '8',
        _ => '9',
    }
}

/// Parses a `usize` the way `str::parse::<usize>` does: an optional `+` and then one or more
/// decimal digits, rejecting values that overflow.
pub fn parse_usize(s: &[char]) -> (parsed: Option<usize>)
    ensures
        parsed == parse_usize_spec(s@),
{
    let start: usize = if s.len() > 0 && s[0] == '+' { 1 } else { 0 };
    let ghost digits = if s@.len() > 0 && s@[0] == '+' { s@.drop_first() } else { s@ };
    proof {
        assert(digits =~= s@.subrange(start as int, s@.len() as int));
    }
    if start == s.len() {
        return None;
    }
    let mut value: usize = 0;
    let mut i: usize = start;
    while i < s.len()
        invariant
            start <= i <= s@.len(),
            digits == s@.subrange(start as int, s@.len() as int),
            digits == (if s@.len() > 0 && s@[0] == '+' { s@.drop_first() } else { s@ }),
            digits_value(s@.subrange(start as int, i as int)) == Some(value as nat),
        decreases s@.len() - i,
    {
        let c = s[i];
        proof {
            assert(s@.subrange(start as int, i + 1).drop_last() =~= s@.subrange(start as int, i as int));
        }
        if c < '0' || c > '9' {
            proof {
                lemma_digits_none_extends(s@, start as int, i as int);
                assert(digits.len() > 0);
                assert(digits_value(digits) is None);
                assert(parse_usize_spec(s@) is None);
            }
            return None;
        }
        let d: usize = (c as u32 - '0' as u32) as usize;
        if value > (usize::MAX - d) / 10 {
            proof {
                assert(value * 10 + d > usize::MAX) by (nonlinear_arith)
                    requires
                        value > (usize::MAX - d) / 10,
                        d <= 9,
                ;
                lemma_digits_overflow_extends(s@, start as int, i as int, value as nat, d as nat);
                assert(digits.len() > 0);
            }
            return None;
        }
        proof {
            assert(value * 10 + d <= usize::MAX) by (nonlinear_arith)
                requires
                    value <= (usize::MAX - d) / 10,
                    d <= 9,
            ;
            assert(s@.subrange(start as int, i + 1).last() == c);
        }
        value = value * 10 + d;
        i = i + 1;
    }
    proof {
        assert(s@.subrange(start as int, s@.len() as int) =~= digits);
    }
    Some(value)
}

/// A non-digit anywhere makes the whole digit sequence invalid.
proof fn lemma_digits_none_extends(s: Seq<char>, start: int, i: int)
    requires
        0 <= start <= i < s.len(),
        digit_value(s[i]) is None,
    ensures
        digits_value(s.subrange(start, s.len() as int)) is None,
    decreases s.len() - i,
{
    lemma_digits_none_prefix(s.subrange(start, s.len() as int), i - start + 1);
}

proof fn lemma_digits_none_prefix(t: Seq<char>, k: int)
    requires
        0 < k <= t.len(),
        digits_value(t.subrange(0, k)) is None || digit_value(t[k - 1]) is None,
    ensures
        digits_value(t) is None,
    decreases t.len() - k,
{
    if k == t.len() {
        assert(t.subrange(0, k) =~= t);
        if digit_value(t[k - 1]) is None {
            assert(t.last() == t[k - 1]);
        }
    } else {
        assert(t.subrange(0, k + 1).drop_last() =~= t.subrange(0, k));
        if digit_value(t[k - 1]) is None {
            lemma_digits_none_prefix_last(t.subrange(0, k));
        }
        lemma_digits_none_prefix(t, k + 1);
    }
}

proof fn lemma_digits_none_prefix_last(t: Seq<char>)
    requires
        t.len() > 0,
        digit_value(t.last()) is None,
    ensures
        digits_value(t) is None,
{
}

/// Digit sequences only grow in value when extended, so one that overflows stays overflowed.
proof fn lemma_digits_overflow_extends(s: Seq<char>, start: int, i: int, value: nat, d: nat)
    requires
        0 <= start <= i < s.len(),
        digits_value(s.subrange(start, i)) == Some(value),
        digit_value(s[i]) == Some(d),
        value * 10 + d > usize::MAX,
    ensures
        match digits_value(s.subrange(start, s.len() as int)) {
            Some(v) => v > usize::MAX,
            None => true,
        },
{
    assert(s.subrange(start, i + 1).drop_last() =~= s.subrange(start, i));
    assert(s.subrange(start, i + 1).last() == s[i]);
    assert(digits_value(s.subrange(start, i + 1)) == Some(value * 10 + d));
    assert(s.subrange(start, s.len() as int).subrange(0, i - start + 1) =~= s.subrange(start, i + 1));
    lemma_digits_grow(s.subrange(start, s.len() as int), i - start + 1, value * 10 + d);
}

proof fn lemma_digits_grow(t: Seq<char>, k: int, v: nat)
    requires
        0 < k <= t.len(),
        digits_value(t.subrange(0, k)) == Some(v),
    ensures
        match digits_value(t) {
            Some(w) => w >= v,
            None => true,
        },
    decreases t.len() - k,
{
    if k == t.len() {
        assert(t.subrange(0, k) =~= t);
    } else {
        assert(t.subrange(0, k + 1).drop_last() =~= t.subrange(0, k));
        match digits_value(t.subrange(0, k + 1)) {
            Some(w) => {
                lemma_digits_grow(t, k + 1, w);
            },
            None => {
                lemma_digits_none_prefix(t, k + 1);
            },
        }
    }
}

/// Parsing the decimal representation of a `usize` gives it back.
pub proof fn lemma_parse_decimal(n: usize)
    ensures
        parse_usize_spec(decimal(n as nat)) == Some(n),
{
    lemma_decimal_round_trip(n as nat);
}

} // verus!
