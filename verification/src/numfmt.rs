//! Verified decimal rendering of integers, for the log lines that carry an
//! exit code.

use vstd::prelude::*;
use vstd::string::StringExecFns;

verus! {

/// The decimal digit character for a value below ten.
pub open spec fn spec_digit(d: int) -> char {
    if d == 0 {
        '0'
    } else if d == 1 {
        '1'
    } else if d == 2 {
        '2'
    } else if d == 3 {
        '3'
    } else if d == 4 {
        '4'
    } else if d == 5 {
        '5'
    } else if d == 6 {
        '6'
    } else if d == 7 {
        '7'
    } else if d == 8 {
        '8'
    } else {
        '9'
    }
}

/// The decimal digits of a non-negative value, most significant first, with
/// no leading zero except for the value zero itself.
pub open spec fn spec_udec(n: nat) -> Seq<char>
    decreases n,
{
    if n < 10 {
        seq![spec_digit(n as int)]
    } else {
        spec_udec(n / 10).push(spec_digit((n % 10) as int))
    }
}

/// The decimal rendering of an integer: a minus sign before the digits of
/// its magnitude when it is negative.
pub open spec fn spec_idec(n: int) -> Seq<char> {
    if n < 0 {
        seq!['-'] + spec_udec((-n) as nat)
    } else {
        spec_udec(n as nat)
    }
}

/// The one-character string of a decimal digit.
fn digit_str(d: u8) -> (r: &'static str)
    requires
        d < 10,
    ensures
        r@ == seq![spec_digit(d as int)],
{
    if d == 0 {
        proof {
            reveal_strlit("0");
            assert("0"@ =~= seq![spec_digit(0)]);
        }
        "0"
    } else if d == 1 {
        proof {
            reveal_strlit("1");
            assert("1"@ =~= seq![spec_digit(1)]);
        }
        "1"
    } else if d == 2 {
        proof {
            reveal_strlit("2");
            assert("2"@ =~= seq![spec_digit(2)]);
        }
        "2"
    } else if d == 3 {
        proof {
            reveal_strlit("3");
            assert("3"@ =~= seq![spec_digit(3)]);
        }
        "3"
    } else if d == 4 {
        proof {
            reveal_strlit("4");
            assert("4"@ =~= seq![spec_digit(4)]);
        }
        "4"
    } else if d == 5 {
        proof {
            reveal_strlit("5");
            assert("5"@ =~= seq![spec_digit(5)]);
        }
        "5"
    } else if d == 6 {
        proof {
            reveal_strlit("6");
            assert("6"@ =~= seq![spec_digit(6)]);
        }
        "6"
    } else if d == 7 {
        proof {
            reveal_strlit("7");
            assert("7"@ =~= seq![spec_digit(7)]);
        }
        "7"
    } else if d == 8 {
        proof {
            reveal_strlit("8");
            assert("8"@ =~= seq![spec_digit(8)]);
        }
        "8"
    } else {
        proof {
            reveal_strlit("9");
            assert("9"@ =~= seq![spec_digit(9)]);
        }
        "9"
    }
}

/// Appends the decimal digits of `n` to the string.
fn push_udec(s: &mut String, n: u64)
    ensures
        final(s)@ == old(s)@ + spec_udec(n as nat),
    decreases n,
{
    if n < 10 {
        let d = digit_str(n as u8);
        s.append(d);
        proof {
            assert(old(s)@ + d@ =~= old(s)@ + spec_udec(n as nat));
        }
    } else {
        push_udec(s, n / 10);
        let d = digit_str((n % 10) as u8);
        s.append(d);
        proof {
            assert(spec_udec(n as nat) == spec_udec((n as nat) / 10).push(spec_digit(
                ((n as nat) % 10) as int,
            )));
            assert((old(s)@ + spec_udec((n / 10) as nat)) + d@ =~= old(s)@ + spec_udec(n as nat));
        }
    }
}

/// The decimal rendering of a signed 32-bit value.
pub fn i32_string(n: i32) -> (r: String)
    ensures
        r@ == spec_idec(n as int),
{
    let mut s = String::new();
    if n < 0 {
        proof {
            reveal_strlit("-");
            assert("-"@ =~= seq!['-']);
        }
        s.append("-");
        let mag: u64 = (-(n as i64)) as u64;
        push_udec(&mut s, mag);
        proof {
            assert(Seq::<char>::empty() + seq!['-'] =~= seq!['-']);
            assert(seq!['-'] + spec_udec(mag as nat) =~= spec_idec(n as int));
        }
    } else {
        push_udec(&mut s, n as u64);
        proof {
            assert(Seq::<char>::empty() + spec_udec(n as nat) =~= spec_idec(n as int));
        }
    }
    s
}

} // verus!
