//! Unsigned decimal numbers as text: reading them and writing them.

use vstd::prelude::*;

verus! {

/// `c` is one of the ten ASCII digits.
pub open spec fn is_digit(c: char) -> bool {
    '0' <= c && c <= '9'
}

/// The value of an ASCII digit.
pub open spec fn digit_value(c: char) -> int {
    c as int - '0' as int
}

/// Every character of `s` is an ASCII digit.
pub open spec fn all_digits(s: Seq<char>) -> bool {
    forall|i: int| 0 <= i < s.len() ==> is_digit(#[trigger] s[i])
}

/// The number that the digits of `s` write in base ten.
pub open spec fn decimal_value(s: Seq<char>) -> int
    decreases s.len(),
{
    if s.len() == 0 {
        0
    } else {
        decimal_value(s.drop_last()) * 10 + digit_value(s.last())
    }
}

/// What is left of `s` once one leading plus sign, if there is one, is taken off.
pub open spec fn unsigned_digits(s: Seq<char>) -> Seq<char> {
    if s.len() > 0 && s[0] == '+' {
        s.subrange(1, s.len() as int)
    } else {
        s
    }
}

/// The unsigned 64-bit number that `s` writes: an optional plus sign, then one
/// or more ASCII digits and nothing else, whose value fits. `None` for every
/// other text.
pub open spec fn parsed_u64(s: Seq<char>) -> Option<u64> {
    let digits = unsigned_digits(s);
    if digits.len() > 0 && all_digits(digits) && decimal_value(digits) <= u64::MAX {
        Some(decimal_value(digits) as u64)
    } else {
        None
    }
}

/// The value of a run of digits is never negative, and no smaller than the
/// value of any of its prefixes.
pub proof fn lemma_decimal_value_grows(s: Seq<char>, k: int)
    requires
        all_digits(s),
        0 <= k <= s.len(),
    ensures
        0 <= decimal_value(s.take(k)) <= decimal_value(s),
    decreases s.len(),
{
    if s.len() == 0 {
        assert(s.take(k) =~= s);
    } else if k == s.len() {
        assert(s.take(k) =~= s);
        lemma_decimal_value_grows(s.drop_last(), 0);
        assert(is_digit(s[s.len() - 1]));
    } else {
        lemma_decimal_value_grows(s.drop_last(), k);
        assert(s.drop_last().take(k) =~= s.take(k));
        assert(is_digit(s[s.len() - 1]));
    }
}

/// The value of the digit `c`.
pub fn digit_of(c: char) -> (d: Option<u8>)
    ensures
        d is Some <==> is_digit(c),
        d is Some ==> d->0 as int == digit_value(c),
{
    if '0' <= c && c <= '9' {
        Some((c as u32 - '0' as u32) as u8)
    } else {
        None
    }
}

/// Reads the digits of `v` from position `from` to the end as an unsigned
/// 64-bit number.
pub fn parse_digits(v: &Vec<char>, from: usize) -> (n: Option<u64>)
    requires
        from <= v.len(),
    ensures
        n == (if from < v.len() && all_digits(v@.subrange(from as int, v.len() as int))
            && decimal_value(v@.subrange(from as int, v.len() as int)) <= u64::MAX {
            Some(decimal_value(v@.subrange(from as int, v.len() as int)) as u64)
        } else {
            None
        }),
        n is Some ==> n->0 as int == decimal_value(v@.subrange(from as int, v.len() as int)),
{
    let ghost digits = v@.subrange(from as int, v.len() as int);
    if from == v.len() {
        return None;
    }
    let mut acc: u64 = 0;
    let mut i: usize = from;
    while i < v.len()
        invariant
            from <= i <= v.len(),
            digits == v@.subrange(from as int, v.len() as int),
            all_digits(digits.take(i - from)),
            acc as int == decimal_value(digits.take(i - from)),
        decreases v.len() - i,
    {
        let ghost k = i - from;
        proof {
            assert(digits.take(k + 1).drop_last() =~= digits.take(k));
            assert(digits.take(k + 1).last() == v@[i as int]);
        }
        match digit_of(v[i]) {
            None => {
                assert(!is_digit(digits[k]));
                return None;
            },
            Some(d) => {
                if acc > (u64::MAX - d as u64) / 10 {
                    proof {
                        if all_digits(digits) {
                            lemma_decimal_value_grows(digits, k + 1);
                        }
                    }
                    return None;
                }
                acc = acc * 10 + d as u64;
                assert forall|j: int| 0 <= j < k + 1 implies is_digit(
                    #[trigger] digits.take(k + 1)[j],
                ) by {
                    if j < k {
                        assert(digits.take(k)[j] == digits.take(k + 1)[j]);
                    }
                }
            },
        }
        i += 1;
    }
    assert(digits.take(i - from) =~= digits);
    Some(acc)
}

/// Reads `v` as an unsigned 64-bit number, as `u64`'s own parser does.
pub fn parse_u64(v: &Vec<char>) -> (n: Option<u64>)
    ensures
        n == parsed_u64(v@),
        n is Some ==> n->0 as int == decimal_value(unsigned_digits(v@)),
{
    if v.len() > 0 && v[0] == '+' {
        parse_digits(v, 1)
    } else {
        assert(v@.subrange(0, v.len() as int) =~= v@);
        parse_digits(v, 0)
    }
}

/// The character that writes the digit `d`.
pub open spec fn digit_char(d: int) -> char {
    if d == 0 {
        '0'
    } else if d == 1 {
        '1'
    } else if d == 2 {
        '2'
    } else if d == 3 {
        '3'
    } else if d == 4 {
        '4'
    } else if d == 5 {
        '5'
    } else if d == 6 {
        '6'
    } else if d == 7 {
        '7'
    } else if d == 8 {
        '8'
    } else {
        '9'
    }
}

/// The digits that write `n` in base ten, without leading zeros.
pub open spec fn decimal_digits(n: nat) -> Seq<char>
    decreases n,
{
    if n < 10 {
        seq![digit_char(n as int)]
    } else {
        decimal_digits(n / 10).push(digit_char((n % 10) as int))
    }
}

/// Writing a number and reading it back gives the number again.
pub proof fn lemma_decimal_round_trip(n: nat)
    ensures
        all_digits(decimal_digits(n)),
        decimal_digits(n).len() > 0,
        decimal_value(decimal_digits(n)) == n,
    decreases n,
{
    let s = decimal_digits(n);
    if n < 10 {
        assert(s.drop_last() =~= Seq::<char>::empty());
        assert(decimal_value(s.drop_last()) == 0);
        assert(s.last() == digit_char(n as int));
    } else {
        lemma_decimal_round_trip(n / 10);
        let head = decimal_digits(n / 10);
        assert(s.drop_last() =~= head);
        assert(s.last() == digit_char((n % 10) as int));
        assert forall|i: int| 0 <= i < s.len() implies is_digit(#[trigger] s[i]) by {
            if i < head.len() {
                assert(s[i] == head[i]);
            }
        }
    }
}

fn char_of_digit(d: u64) -> (c: char)
    requires
        d < 10,
    ensures
        c == digit_char(d as int),
{
    if d == 0 {
        '0'
    } else if d == 1 {
        '1'
    } else if d == 2 {
        '2'
    } else if d == 3 {
        '3'
    } else if d == 4 {
        '4'
    } else if d == 5 {
        '5'
    } else if d == 6 {
        '6'
    } else if d == 7 {
        '7'
    } else if d == 8 {
        '8'
    } else {
        '9'
    }
}

/// Appends the decimal digits of `n` to `out`.
pub fn push_decimal(out: &mut Vec<char>, n: u64)
    ensures
        final(out)@ == old(out)@ + decimal_digits(n as nat),
    decreases n,
{
    if n >= 10 {
        push_decimal(out, n / 10);
    }
    out.push(char_of_digit(n % 10));
    assert(out@ =~= old(out)@ + decimal_digits(n as nat));
}

/// The decimal digits of `n`.
pub fn decimal_of(n: u64) -> (digits: Vec<char>)
    ensures
        digits@ == decimal_digits(n as nat),
{
    let mut digits: Vec<char> = Vec::new();
    push_decimal(&mut digits, n);
    assert(Seq::<char>::empty() + decimal_digits(n as nat) =~= decimal_digits(n as nat));
    digits
}

} // verus!
