//! Byte ranges written as text, such as `45-67`.

use crate::decimal::{
    decimal_digits, is_digit, lemma_decimal_round_trip, parse_u64, parsed_u64, unsigned_digits,
};
use crate::error::{DashMpdError, ErrorKind};
use crate::text::{chars_of, slice_chars};
use vstd::prelude::*;
use vstd::string::StringExecFns;

verus! {

/// The position of the first dash of `s` at or after `from`, or the length of
/// `s` where there is none.
pub open spec fn dash_position(s: Seq<char>, from: int) -> int
    decreases s.len() - from,
{
    if from < 0 || from >= s.len() {
        s.len() as int
    } else if s[from] == '-' {
        from
    } else {
        dash_position(s, from + 1)
    }
}

/// The two fields of a range specifier: what stands before its one dash and
/// what stands after it. `None` where the text holds no dash, more than one
/// dash, or nothing after its dash.
pub open spec fn range_fields(s: Seq<char>) -> Option<(Seq<char>, Seq<char>)> {
    let first = dash_position(s, 0);
    if first < s.len() && dash_position(s, first + 1) >= s.len() && first + 1 < s.len() {
        Some((s.subrange(0, first), s.subrange(first + 1, s.len() as int)))
    } else {
        None
    }
}

/// What a range specifier means: its two bounds, or the text of the error
/// that says which part of it is wrong.
pub open spec fn parsed_range(s: Seq<char>) -> Result<(u64, u64), Seq<char>> {
    match range_fields(s) {
        None => Err("invalid range specifier: "@ + s),
        Some((start, end)) => match parsed_u64(start) {
            None => Err("invalid start for range specifier"@),
            Some(first) => match parsed_u64(end) {
                None => Err("invalid end for range specifier"@),
                Some(last) => Ok((first, last)),
            },
        },
    }
}

fn find_dash(v: &Vec<char>, from: usize) -> (at: usize)
    requires
        from <= v.len(),
    ensures
        at as int == dash_position(v@, from as int),
        from <= at <= v.len(),
{
    let mut i: usize = from;
    while i < v.len() && v[i] != '-'
        invariant
            from <= i <= v.len(),
            dash_position(v@, from as int) == dash_position(v@, i as int),
        decreases v.len() - i,
    {
        i += 1;
    }
    i
}

/// Reads a range specifier such as `45-67`: two unsigned 64-bit numbers with
/// a dash between them. Every other text is a parsing error.
pub fn parse_range(range: &str) -> (bounds: Result<(u64, u64), DashMpdError>)
    ensures
        match bounds {
            Ok(pair) => parsed_range(range@) == Ok::<(u64, u64), Seq<char>>(pair),
            Err(error) => error.spec_kind() == ErrorKind::Parsing && parsed_range(range@) == Err::<
                (u64, u64),
                Seq<char>,
            >(error.spec_message()),
        },
{
    let v = chars_of(range);
    let first = find_dash(&v, 0);
    let mut fields: Option<(Vec<char>, Vec<char>)> = None;
    if first < v.len() {
        let second = find_dash(&v, first + 1);
        if second >= v.len() && first + 1 < v.len() {
            fields = Some((slice_chars(&v, 0, first), slice_chars(&v, first + 1, v.len())));
        }
    }
    match fields {
        None => {
            let mut text = String::from_str("invalid range specifier: ");
            text.append(range);
            Err(DashMpdError::Parsing(text))
        },
        Some((start, end)) => {
            match parse_u64(&start) {
                None => Err(DashMpdError::parsing("invalid start for range specifier")),
                Some(first_byte) => match parse_u64(&end) {
                    None => Err(DashMpdError::parsing("invalid end for range specifier")),
                    Some(last_byte) => Ok((first_byte, last_byte)),
                },
            }
        },
    }
}


proof fn lemma_dash_position(s: Seq<char>, from: int)
    requires
        0 <= from <= s.len(),
    ensures
        from <= dash_position(s, from) <= s.len(),
        dash_position(s, from) < s.len() ==> s[dash_position(s, from)] == '-',
        forall|i: int| from <= i < dash_position(s, from) ==> s[i] != '-',
    decreases s.len() - from,
{
    if from < s.len() && s[from] != '-' {
        lemma_dash_position(s, from + 1);
    }
}

/// A range is read from nothing but two numbers with one dash between them:
/// where bounds come out, the text is a first text, a dash and a second
/// text, and the bounds are the numbers that the two texts write. A text
/// without a dash is never a range.
pub proof fn lemma_range_is_two_numbers(s: Seq<char>)
    ensures
        match parsed_range(s) {
            Ok((first, last)) => exists|x: Seq<char>, y: Seq<char>|
                s == x + seq!['-'] + y && parsed_u64(x) == Some(first) && parsed_u64(y) == Some(
                    last,
                ),
            Err(_) => true,
        },
        !s.contains('-') ==> parsed_range(s) is Err,
{
    lemma_dash_position(s, 0);
    let at = dash_position(s, 0);
    if at < s.len() {
        assert(s.contains('-'));
    }
    match parsed_range(s) {
        Ok((first, last)) => {
            let x = s.subrange(0, at);
            let y = s.subrange(at + 1, s.len() as int);
            assert(s =~= x + seq!['-'] + y);
            assert(parsed_u64(x) == Some(first) && parsed_u64(y) == Some(last));
        },
        Err(_) => {},
    }
}

proof fn lemma_no_dash_before(s: Seq<char>, from: int, to: int)
    requires
        0 <= from <= to <= s.len(),
        forall|i: int| from <= i < to ==> s[i] != '-',
    ensures
        dash_position(s, from) == dash_position(s, to),
    decreases to - from,
{
    if from < to {
        lemma_no_dash_before(s, from + 1, to);
    }
}

proof fn lemma_digits_parse(n: u64)
    ensures
        parsed_u64(decimal_digits(n as nat)) == Some(n),
{
    lemma_decimal_round_trip(n as nat);
    let digits = decimal_digits(n as nat);
    assert(is_digit(digits[0]));
    assert(unsigned_digits(digits) == digits);
}

/// What is written of a range is read back as it was: two numbers in
/// decimal digits with a dash between them are the range of those numbers.
pub proof fn lemma_range_round_trip(first: u64, last: u64)
    ensures
        parsed_range(decimal_digits(first as nat) + seq!['-'] + decimal_digits(last as nat)) == Ok::<
            (u64, u64),
            Seq<char>,
        >((first, last)),
{
    let a = decimal_digits(first as nat);
    let b = decimal_digits(last as nat);
    let s = a + seq!['-'] + b;
    lemma_decimal_round_trip(first as nat);
    lemma_decimal_round_trip(last as nat);
    lemma_digits_parse(first);
    lemma_digits_parse(last);
    assert forall|i: int| 0 <= i < a.len() implies s[i] != '-' by {
        assert(s[i] == a[i]);
        assert(is_digit(a[i]));
    }
    assert(s[a.len() as int] == '-');
    assert forall|i: int| a.len() < i < s.len() implies s[i] != '-' by {
        assert(s[i] == b[i - a.len() - 1]);
        assert(is_digit(b[i - a.len() - 1]));
    }
    lemma_no_dash_before(s, 0, a.len() as int);
    lemma_no_dash_before(s, a.len() as int + 1, s.len() as int);
    assert(dash_position(s, 0) == a.len());
    assert(dash_position(s, a.len() as int + 1) == s.len());
    assert(s.subrange(0, a.len() as int) =~= a);
    assert(s.subrange(a.len() as int + 1, s.len() as int) =~= b);
}

} // verus!
