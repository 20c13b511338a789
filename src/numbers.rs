use vstd::prelude::*;

use crate::error::FetchError;

verus! {

pub open spec fn is_digit(c: char) -> bool {
    '0' <= c && c <= '9'
}

pub open spec fn digit_value(c: char) -> nat {
    (c as u32 - '0' as u32) as nat
}

/// The decimal digits of `s`, in order, with every other character dropped.
pub open spec fn digits_of(s: Seq<char>) -> Seq<char>
    decreases s.len(),
{
    if s.len() == 0 {
        Seq::empty()
    } else if is_digit(s.last()) {
        digits_of(s.drop_last()).push(s.last())
    } else {
        digits_of(s.drop_last())
    }
}

/// The number that a string of decimal digits denotes.
pub open spec fn decimal_value(d: Seq<char>) -> nat
    decreases d.len(),
{
    if d.len() == 0 {
        0
    } else {
        decimal_value(d.drop_last()) * 10 + digit_value(d.last())
    }
}

/// The number formed by the digits of `s`, ignoring all other characters.
pub open spec fn number_in(s: Seq<char>) -> nat {
    decimal_value(digits_of(s))
}

/// The line number that a fragment token denotes: its digits read as a
/// decimal number, which must exist, be positive and fit a `usize`.
pub open spec fn token_value(s: Seq<char>) -> Option<usize> {
    if digits_of(s).len() == 0 || number_in(s) == 0 || number_in(s) > usize::MAX {
        None
    } else {
        Some(number_in(s) as usize)
    }
}

/// A string made of decimal digits only.
pub open spec fn all_digits(s: Seq<char>) -> bool {
    forall|i: int| 0 <= i < s.len() ==> is_digit(#[trigger] s[i])
}

/// The pull-request number that a path segment denotes: a non-empty run of
/// decimal digits whose value fits a `u64`.
pub open spec fn pull_number_of(s: Seq<char>) -> Option<u64> {
    if s.len() > 0 && all_digits(s) && decimal_value(s) <= u64::MAX {
        Some(decimal_value(s) as u64)
    } else {
        None
    }
}

pub open spec fn digit_char(d: nat) -> char {
    if d == 0 {
        '0'
    } else if d == 1 {
        '1'
    } else if d == 2 {
        '2'
    } else if d == 3 {
        '3'
    } else if d == 4 {
        '4'
    } else if d == 5 {
        '5'
    } else if d == 6 {
        '6'
    } else if d == 7 {
        '7'
    } else if d == 8 {
        '8'
    } else {
        '9'
    }
}

/// The decimal text of `n`, without leading zeros.
pub open spec fn decimal_text(n: nat) -> Seq<char>
    decreases n,
{
    if n < 10 {
        seq![digit_char(n)]
    } else {
        decimal_text(n / 10).push(digit_char(n % 10))
    }
}

proof fn lemma_decimal_value_grows(s: Seq<char>, i: int)
    requires
        0 <= i <= s.len(),
    ensures
        decimal_value(s.subrange(0, i)) <= decimal_value(s),
    decreases s.len(),
{
    if i < s.len() {
        assert(s.drop_last().subrange(0, i) =~= s.subrange(0, i));
        lemma_decimal_value_grows(s.drop_last(), i);
    } else {
        assert(s.subrange(0, i) =~= s);
    }
}

proof fn lemma_number_in_grows(s: Seq<char>, i: int)
    requires
        0 <= i <= s.len(),
    ensures
        number_in(s.subrange(0, i)) <= number_in(s),
        digits_of(s.subrange(0, i)).len() <= digits_of(s).len(),
    decreases s.len(),
{
    if i < s.len() {
        assert(s.drop_last().subrange(0, i) =~= s.subrange(0, i));
        lemma_number_in_grows(s.drop_last(), i);
        if is_digit(s.last()) {
            assert(digits_of(s).drop_last() =~= digits_of(s.drop_last()));
        }
    } else {
        assert(s.subrange(0, i) =~= s);
    }
}

proof fn lemma_number_in_step(s: Seq<char>, i: int)
    requires
        0 <= i < s.len(),
    ensures
        is_digit(s[i]) ==> number_in(s.subrange(0, i + 1)) == number_in(s.subrange(0, i)) * 10
            + digit_value(s[i]) && digits_of(s.subrange(0, i + 1)).len() > 0,
        !is_digit(s[i]) ==> number_in(s.subrange(0, i + 1)) == number_in(s.subrange(0, i))
            && digits_of(s.subrange(0, i + 1)) == digits_of(s.subrange(0, i)),
{
    let p = s.subrange(0, i + 1);
    assert(p.drop_last() =~= s.subrange(0, i));
    if is_digit(s[i]) {
        assert(digits_of(p).drop_last() =~= digits_of(s.subrange(0, i)));
    }
}

/// Reads the digits of `token` as a decimal number, skipping every other
/// character. `None` when there are no digits or the number exceeds `usize`.
pub fn parse_digits(token: &str) -> (r: Option<usize>)
    ensures
        r == (if digits_of(token@).len() > 0 && number_in(token@) <= usize::MAX {
            Some(number_in(token@) as usize)
        } else {
            None
        }),
{
    let n = token.unicode_len();
    let mut acc: usize = 0;
    let mut seen = false;
    let mut i: usize = 0;
    proof {
        assert(token@.subrange(0, 0) =~= Seq::<char>::empty());
    }
    while i < n
        invariant
            n == token@.len(),
            i <= n,
            seen == (digits_of(token@.subrange(0, i as int)).len() > 0),
            acc == number_in(token@.subrange(0, i as int)),
        decreases n - i,
    {
        let c = token.get_char(i);
        proof {
            lemma_number_in_step(token@, i as int);
        }
        if '0' <= c && c <= '9' {
            let d = (c as u32 - '0' as u32) as usize;
            match acc.checked_mul(10) {
                Some(m) => match m.checked_add(d) {
                    Some(v) => {
                        acc = v;
                    },
                    None => {
                        proof {
                            lemma_number_in_grows(token@, i + 1);
                        }
                        return None;
                    },
                },
                None => {
                    proof {
                        lemma_number_in_grows(token@, i + 1);
                    }
                    return None;
                },
            }
            seen = true;
        }
        i = i + 1;
    }
    proof {
        assert(token@.subrange(0, n as int) =~= token@);
    }
    if seen {
        Some(acc)
    } else {
        None
    }
}

/// Reads one token of a line fragment as a 1-based line number: the number
/// formed by its digits, every other character (such as a leading `L` line
/// marker) being ignored. A token without digits, or whose number is zero or
/// exceeds `usize`, is malformed.
pub fn parse_numbers(num: &str) -> (r: Result<usize, FetchError>)
    ensures
        r == (match token_value(num@) {
            Some(n) => Ok::<usize, FetchError>(n),
            None => Err(FetchError::MalformedUrl),
        }),
{
    match parse_digits(num) {
        Some(v) => {
            if v == 0 {
                Err(FetchError::MalformedUrl)
            } else {
                Ok(v)
            }
        },
        None => Err(FetchError::MalformedUrl),
    }
}

/// Reads a path segment as a pull-request number: decimal digits only.
pub fn parse_pull_number(seg: &str) -> (r: Option<u64>)
    ensures
        r == pull_number_of(seg@),
{
    let n = seg.unicode_len();
    if n == 0 {
        return None;
    }
    let mut acc: u64 = 0;
    let mut i: usize = 0;
    proof {
        assert(seg@.subrange(0, 0) =~= Seq::<char>::empty());
    }
    while i < n
        invariant
            n == seg@.len(),
            i <= n,
            all_digits(seg@.subrange(0, i as int)),
            acc == decimal_value(seg@.subrange(0, i as int)),
        decreases n - i,
    {
        let c = seg.get_char(i);
        proof {
            assert(seg@.subrange(0, i + 1).drop_last() =~= seg@.subrange(0, i as int));
        }
        if !('0' <= c && c <= '9') {
            assert(!is_digit(seg@[i as int]));
            return None;
        }
        let d = (c as u32 - '0' as u32) as u64;
        match acc.checked_mul(10) {
            Some(m) => match m.checked_add(d) {
                Some(v) => {
                    acc = v;
                },
                None => {
                    proof {
                        lemma_decimal_value_grows(seg@, i + 1);
                    }
                    return None;
                },
            },
            None => {
                proof {
                    lemma_decimal_value_grows(seg@, i + 1);
                }
                return None;
            },
        }
        i = i + 1;
        assert(all_digits(seg@.subrange(0, i as int))) by {
            assert forall|j: int| 0 <= j < i implies is_digit(#[trigger] seg@.subrange(0, i as int)[j]) by {
                if j < i - 1 {
                    assert(seg@.subrange(0, i as int)[j] == seg@.subrange(0, i - 1)[j]);
                }
            }
        }
    }
    proof {
        assert(seg@.subrange(0, n as int) =~= seg@);
    }
    Some(acc)
}

fn digit_str(d: u64) -> (r: &'static str)
    requires
        d < 10,
    ensures
        r@ == seq![digit_char(d as nat)],
{
    if d == 0 {
        proof { reveal_strlit("0"); }
        "0"
    } else if d == 1 {
        proof { reveal_strlit("1"); }
        "1"
    } else if d == 2 {
        proof { reveal_strlit("2"); }
        "2"
    } else if d == 3 {
        proof { reveal_strlit("3"); }
        "3"
    } else if d == 4 {
        proof { reveal_strlit("4"); }
        "4"
    } else if d == 5 {
        proof { reveal_strlit("5"); }
        "5"
    } else if d == 6 {
        proof { reveal_strlit("6"); }
        "6"
    } else if d == 7 {
        proof { reveal_strlit("7"); }
        "7"
    } else if d == 8 {
        proof { reveal_strlit("8"); }
        "8"
    } else {
        proof { reveal_strlit("9"); }
        "9"
    }
}

/// Appends the decimal text of `n` to `out`.
pub fn push_decimal(out: &mut String, n: u64)
    ensures
        final(out)@ == old(out)@ + decimal_text(n as nat),
    decreases n,
{
    if n >= 10 {
        push_decimal(out, n / 10);
    }
    out.append(digit_str(n % 10));
    proof {
        if n >= 10 {
            assert(decimal_text(n as nat) =~= decimal_text((n / 10) as nat) + seq![digit_char((n % 10) as nat)]);
        }
    }
}

} // verus!
