//! What is typed into the number fields of a form.
//!
//! A field that is left empty clears the number; anything that is typed sets
//! it, to zero where it is no number of the kind that the field holds.

use crate::text::chars_of;
use vstd::prelude::*;

verus! {

/// The number that a decimal digit stands for.
pub open spec fn digit_value(c: char) -> Option<nat> {
    if c == '0' {
        Some(0)
    } else if c == '1' {
        Some(1)
    } else if c == '2' {
        Some(2)
    } else if c == '3' {
        Some(3)
    } else if c == '4' {
        Some(4)
    } else if c == '5' {
        Some(5)
    } else if c == '6' {
        Some(6)
    } else if c == '7' {
        Some(7)
    } else if c == '8' {
        Some(8)
    } else if c == '9' {
        Some(9)
    } else {
        None
    }
}

/// The number that a run of decimal digits stands for; none for an empty run
/// and for one that holds anything but digits.
pub open spec fn digits_value(s: Seq<char>) -> Option<nat>
    decreases s.len(),
{
    if s.len() == 0 {
        None
    } else if s.len() == 1 {
        digit_value(s[0])
    } else {
        match (digits_value(s.drop_last()), digit_value(s.last())) {
            (Some(front), Some(d)) => Some(front * 10 + d),
            _ => None,
        }
    }
}

/// The number that a text stands for: digits, with `+` or `-` before them or
/// without a sign.
pub open spec fn number_value(s: Seq<char>) -> Option<int> {
    if s.len() > 0 && s[0] == '-' {
        match digits_value(s.skip(1)) {
            Some(n) => Some(-(n as int)),
            None => None,
        }
    } else if s.len() > 0 && s[0] == '+' {
        match digits_value(s.skip(1)) {
            Some(n) => Some(n as int),
            None => None,
        }
    } else {
        match digits_value(s) {
            Some(n) => Some(n as int),
            None => None,
        }
    }
}

/// What a field for a count holds after `s` was typed into it: nothing where
/// `s` is empty, the number that `s` stands for where that is a `u32` written
/// without `-`, and 0 otherwise.
pub open spec fn typed_count(s: Seq<char>) -> Option<u32> {
    if s.len() == 0 {
        None
    } else {
        match number_value(s) {
            Some(n) => if 0 <= n <= u32::MAX && s[0] != '-' {
                Some(n as u32)
            } else {
                Some(0)
            },
            None => Some(0),
        }
    }
}

/// What a field for a bound holds after `s` was typed into it: nothing where
/// `s` is empty, the number that `s` stands for where that is an `i32`, and 0
/// otherwise.
pub open spec fn typed_bound(s: Seq<char>) -> Option<i32> {
    if s.len() == 0 {
        None
    } else {
        match number_value(s) {
            Some(n) => if i32::MIN <= n <= i32::MAX {
                Some(n as i32)
            } else {
                Some(0)
            },
            None => Some(0),
        }
    }
}

fn digit_of(c: char) -> (r: Option<u64>)
    ensures
        match r {
            Some(d) => d < 10 && digit_value(c) == Some(d as nat),
            None => digit_value(c) is None,
        },
{
    if c == '0' {
        Some(0)
    } else if c == '1' {
        Some(1)
    } else if c == '2' {
        Some(2)
    } else if c == '3' {
        Some(3)
    } else if c == '4' {
        Some(4)
    } else if c == '5' {
        Some(5)
    } else if c == '6' {
        Some(6)
    } else if c == '7' {
        Some(7)
    } else if c == '8' {
        Some(8)
    } else if c == '9' {
        Some(9)
    } else {
        None
    }
}

/// The number that the digits of `v` from `from` on stand for, as far as it
/// is at most `limit`.
fn read_digits(v: &Vec<char>, from: usize, limit: u64) -> (r: Option<u64>)
    requires
        from <= v.len(),
        limit <= 0xffff_ffff,
    ensures
        match r {
            Some(n) => n <= limit && digits_value(v@.skip(from as int)) == Some(n as nat),
            None => match digits_value(v@.skip(from as int)) {
                Some(n) => n > limit,
                None => true,
            },
        },
{
    let ghost s = v@.skip(from as int);
    let mut value: u64 = 0;
    let mut fits = true;
    let mut digits = true;
    let mut i: usize = from;
    while i < v.len()
        invariant
            from <= i <= v.len(),
            limit <= 0xffff_ffff,
            s == v@.skip(from as int),
            i > from ==> (digits <==> digits_value(s.take(i - from)) is Some),
            i == from ==> digits && fits && value == 0,
            i > from && digits && fits ==> value <= limit && digits_value(s.take(i - from)) == Some(
                value as nat,
            ),
            i > from && digits && !fits ==> digits_value(s.take(i - from))->0 > limit,
        decreases v.len() - i,
    {
        proof {
            let now = s.take(i - from + 1);
            assert(now.drop_last() =~= s.take(i - from));
            assert(now.last() == v@[i as int]);
            if i == from {
                assert(now.len() == 1);
            }
        }
        match digit_of(v[i]) {
            Some(d) => {
                if digits && fits {
                    let next = value * 10 + d;
                    if next <= limit {
                        value = next;
                    } else {
                        fits = false;
                    }
                }
            },
            None => {
                digits = false;
            },
        }
        i = i + 1;
    }
    proof {
        assert(s.take(i - from) =~= s);
    }
    if i > from && digits && fits {
        Some(value)
    } else {
        None
    }
}

/// What a field for a count holds after `text` was typed into it.
pub fn count_input(text: &str) -> (r: Option<u32>)
    ensures
        r == typed_count(text@),
{
    let v = chars_of(text);
    if v.len() == 0 {
        return None;
    }
    if v[0] == '-' {
        return Some(0);
    }
    let from: usize = if v[0] == '+' {
        1
    } else {
        0
    };
    assert(v@.skip(0) =~= v@);
    match read_digits(&v, from, 0xffff_ffff) {
        Some(n) => Some(n as u32),
        None => Some(0),
    }
}

/// What a field for a bound holds after `text` was typed into it.
pub fn bound_input(text: &str) -> (r: Option<i32>)
    ensures
        r == typed_bound(text@),
{
    let v = chars_of(text);
    if v.len() == 0 {
        return None;
    }
    assert(v@.skip(0) =~= v@);
    if v[0] == '-' {
        match read_digits(&v, 1, 0x8000_0000) {
            Some(n) => {
                if n == 0x8000_0000 {
                    Some(-0x8000_0000)
                } else {
                    Some(-(n as i32))
                }
            },
            None => Some(0),
        }
    } else {
        let from: usize = if v[0] == '+' {
            1
        } else {
            0
        };
        match read_digits(&v, from, 0x7fff_ffff) {
            Some(n) => Some(n as i32),
            None => Some(0),
        }
    }
}

} // verus!
