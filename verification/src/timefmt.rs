//! Timestamps are stored as string-encoded integer epoch seconds. This module
//! defines the decimal encoding, its specification-level inverse, and the
//! clock wrapper that reads the current time.

use vstd::prelude::*;

use crate::strutil::chars_to_string;

verus! {

/// The character for one decimal digit.
pub open spec fn digit_char(d: int) -> char {
    if d == 0 {
        '0'
    } else if d == 1 {
        '1'
    } else if d == 2 {
        '2'
    } else if d == 3 {
        '3'
    } else if d == 4 {
        '4'
    } else if d == 5 {
        '5'
    } else if d == 6 {
        '6'
    } else if d == 7 {
        '7'
    } else if d == 8 {
        '8'
    } else {
        '9'
    }
}

/// The value of one decimal digit character, or -1 for any other character.
pub open spec fn digit_val(c: char) -> int {
    if c == '0' {
        0
    } else if c == '1' {
        1
    } else if c == '2' {
        2
    } else if c == '3' {
        3
    } else if c == '4' {
        4
    } else if c == '5' {
        5
    } else if c == '6' {
        6
    } else if c == '7' {
        7
    } else if c == '8' {
        8
    } else if c == '9' {
        9
    } else {
        -1
    }
}

/// The decimal rendering of a nonnegative integer, without leading zeros.
pub open spec fn dec_str_nat(n: nat) -> Seq<char>
    decreases n,
{
    if n < 10 {
        seq![digit_char(n as int)]
    } else {
        dec_str_nat(n / 10).push(digit_char((n % 10) as int))
    }
}

/// The decimal rendering of an integer: a minus sign for negative values,
/// then the digits of the magnitude.
pub open spec fn dec_str_int(n: int) -> Seq<char> {
    if n < 0 {
        seq!['-'] + dec_str_nat((-n) as nat)
    } else {
        dec_str_nat(n as nat)
    }
}

/// The value of a nonempty all-digit sequence, most significant digit first;
/// `None` if the sequence is empty or holds a non-digit.
pub open spec fn dec_val_digits(s: Seq<char>) -> Option<int>
    decreases s.len(),
{
    if s.len() == 0 {
        None
    } else if s.len() == 1 {
        if digit_val(s[0]) >= 0 {
            Some(digit_val(s[0]))
        } else {
            None
        }
    } else {
        match dec_val_digits(s.drop_last()) {
            Some(v) => if digit_val(s.last()) >= 0 {
                Some(v * 10 + digit_val(s.last()))
            } else {
                None
            },
            None => None,
        }
    }
}

/// The integer a stored timestamp string denotes, if it is well-formed:
/// an optional minus sign followed by decimal digits.
pub open spec fn time_value(s: Seq<char>) -> Option<int> {
    if s.len() >= 1 && s[0] == '-' {
        match dec_val_digits(s.drop_first()) {
            Some(v) => Some(-v),
            None => None,
        }
    } else {
        dec_val_digits(s)
    }
}

proof fn lemma_digit_round_trip(d: int)
    requires
        0 <= d < 10,
    ensures
        digit_val(digit_char(d)) == d,
{
}

/// Decoding inverts encoding on every nonnegative integer.
proof fn lemma_dec_val_digits_of_dec_str_nat(n: nat)
    ensures
        dec_val_digits(dec_str_nat(n)) == Some(n as int),
    decreases n,
{
    if n < 10 {
        lemma_digit_round_trip(n as int);
    } else {
        lemma_dec_val_digits_of_dec_str_nat(n / 10);
        lemma_digit_round_trip((n % 10) as int);
        let s = dec_str_nat(n);
        assert(s.drop_last() =~= dec_str_nat(n / 10));
        assert(s.last() == digit_char((n % 10) as int));
    }
}

/// Law: decoding a stored timestamp gives back exactly the integer it was
/// rendered from.
pub proof fn lemma_time_value_round_trip(n: int)
    ensures
        time_value(dec_str_int(n)) == Some(n),
{
    if n < 0 {
        lemma_dec_val_digits_of_dec_str_nat((-n) as nat);
        let s = dec_str_int(n);
        assert(s.drop_first() =~= dec_str_nat((-n) as nat));
    } else {
        lemma_dec_val_digits_of_dec_str_nat(n as nat);
        let s = dec_str_nat(n as nat);
        if s[0] == '-' {
            if n < 10 {
                assert(s[0] == digit_char(n));
            } else {
                assert(digit_val(s[0]) >= 0 ==> s[0] != '-');
                lemma_dec_str_nat_digits(n as nat);
            }
        }
    }
}

/// Every character of a rendered magnitude is a decimal digit.
proof fn lemma_dec_str_nat_digits(n: nat)
    ensures
        forall|i: int| 0 <= i < dec_str_nat(n).len() ==> digit_val(
            #[trigger] dec_str_nat(n)[i],
        ) >= 0,
    decreases n,
{
    if n < 10 {
        lemma_digit_round_trip(n as int);
    } else {
        lemma_dec_str_nat_digits(n / 10);
        lemma_digit_round_trip((n % 10) as int);
        let s = dec_str_nat(n);
        assert forall|i: int| 0 <= i < s.len() implies digit_val(#[trigger] s[i]) >= 0 by {
            if i < s.len() - 1 {
                assert(s[i] == dec_str_nat(n / 10)[i]);
            }
        }
    }
}

/// Law: rendered timestamps order as their integers do; in particular the
/// stored update time never decreases while the clock does not go backwards.
pub proof fn lemma_time_value_monotone(t1: int, t2: int)
    requires
        t1 <= t2,
    ensures
        time_value(dec_str_int(t1)) matches Some(v1) && time_value(dec_str_int(t2)) matches Some(
            v2,
        ) && v1 <= v2,
{
    lemma_time_value_round_trip(t1);
    lemma_time_value_round_trip(t2);
}

fn digit_to_char(d: u64) -> (c: char)
    requires
        d < 10,
    ensures
        c == digit_char(d as int),
{
    if d == 0 {
        '0'
    } else if d == 1 {
        '1'
    } else if d == 2 {
        '2'
    } else if d == 3 {
        '3'
    } else if d == 4 {
        '4'
    } else if d == 5 {
        '5'
    } else if d == 6 {
        '6'
    } else if d == 7 {
        '7'
    } else if d == 8 {
        '8'
    } else {
        '9'
    }
}

fn encode_u64_chars(n: u64) -> (v: Vec<char>)
    ensures
        v@ == dec_str_nat(n as nat),
{
    let mut digits: Vec<char> = Vec::new();
    let mut m: u64 = n;
    while m >= 10
        invariant
            dec_str_nat(n as nat) == dec_str_nat(m as nat) + digits@.reverse(),
        decreases m,
    {
        let ghost old_digits = digits@;
        let ghost old_m = m as nat;
        digits.push(digit_to_char(m % 10));
        m = m / 10;
        proof {
            assert(dec_str_nat(old_m) == dec_str_nat(old_m / 10).push(
                digit_char((old_m % 10) as int),
            ));
            assert(digits@.reverse() =~= seq![digit_char((old_m % 10) as int)]
                + old_digits.reverse());
            assert(dec_str_nat(m as nat) + digits@.reverse() =~= dec_str_nat(m as nat).push(
                digit_char((old_m % 10) as int),
            ) + old_digits.reverse());
        }
    }
    let mut v: Vec<char> = Vec::new();
    v.push(digit_to_char(m));
    let mut i: usize = 0;
    while i < digits.len()
        invariant
            i <= digits@.len(),
            v@ == seq![digit_char(m as int)] + digits@.reverse().take(i as int),
            m < 10,
        decreases digits@.len() - i,
    {
        v.push(digits[digits.len() - 1 - i]);
        i = i + 1;
        proof {
            assert(v@ =~= seq![digit_char(m as int)] + digits@.reverse().take(i as int));
        }
    }
    proof {
        assert(v@ =~= dec_str_nat(m as nat) + digits@.reverse());
    }
    v
}

/// Renders an integer number of epoch seconds in the stored string form.
pub fn encode_time(n: i64) -> (s: String)
    ensures
        s@ == dec_str_int(n as int),
{
    if n >= 0 {
        let v = encode_u64_chars(n as u64);
        chars_to_string(&v)
    } else {
        let wide: i128 = n as i128;
        let mag: u64 = (-wide) as u64;
        proof {
            assert(mag as int == -(n as int));
        }
        let tail = encode_u64_chars(mag);
        let mut v: Vec<char> = Vec::new();
        v.push('-');
        let mut i: usize = 0;
        while i < tail.len()
            invariant
                i <= tail@.len(),
                v@ == seq!['-'] + tail@.take(i as int),
            decreases tail@.len() - i,
        {
            v.push(tail[i]);
            i = i + 1;
            proof {
                assert(v@ =~= seq!['-'] + tail@.take(i as int));
            }
        }
        proof {
            assert(v@ =~= seq!['-'] + tail@);
        }
        chars_to_string(&v)
    }
}

/// Relies on `chrono::offset::Utc::now` and `DateTime::timestamp`: the
/// current wall-clock time as whole seconds since the Unix epoch. Nothing is
/// promised of the value; it depends on the machine's clock.
#[verifier::external_body]
pub fn now_epoch_seconds() -> i64 {
    chrono::offset::Utc::now().timestamp()
}

} // verus!
