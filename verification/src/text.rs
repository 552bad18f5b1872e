//! Verified construction of the diagnostic texts the layer produces, and of
//! decimal numerals for string coercion.

use vstd::prelude::*;
use vstd::string::StringExecFns;

verus! {

/// The decimal digit character of `d`.
pub open spec fn digit_char(d: nat) -> char {
    if d == 0 {
        '0'
    } else if d == 1 {
        '1'
    } else if d == 2 {
        '2'
    } else if d == 3 {
        '3'
    } else if d == 4 {
        '4'
    } else if d == 5 {
        '5'
    } else if d == 6 {
        '6'
    } else if d == 7 {
        '7'
    } else if d == 8 {
        '8'
    } else {
        '9'
    }
}

/// The decimal numeral of `n`, most significant digit first.
pub open spec fn dec_seq(n: nat) -> Seq<char>
    decreases n,
{
    if n < 10 {
        seq![digit_char(n)]
    } else {
        dec_seq(n / 10).push(digit_char(n % 10))
    }
}

/// The decimal text of a signed number.
pub open spec fn int_dec_seq(i: int) -> Seq<char> {
    if i < 0 {
        seq!['-'] + dec_seq((-i) as nat)
    } else {
        dec_seq(i as nat)
    }
}

/// Appends one decimal digit.
fn append_digit(s: &mut String, d: u64)
    requires
        d < 10,
    ensures
        final(s)@ == old(s)@.push(digit_char(d as nat)),
{
    if d == 0 {
        s.append("0");
        proof {
            reveal_strlit("0");
            assert(s@ =~= old(s)@.push(digit_char(d as nat)));
        }
    } else if d == 1 {
        s.append("1");
        proof {
            reveal_strlit("1");
            assert(s@ =~= old(s)@.push(digit_char(d as nat)));
        }
    } else if d == 2 {
        s.append("2");
        proof {
            reveal_strlit("2");
            assert(s@ =~= old(s)@.push(digit_char(d as nat)));
        }
    } else if d == 3 {
        s.append("3");
        proof {
            reveal_strlit("3");
            assert(s@ =~= old(s)@.push(digit_char(d as nat)));
        }
    } else if d == 4 {
        s.append("4");
        proof {
            reveal_strlit("4");
            assert(s@ =~= old(s)@.push(digit_char(d as nat)));
        }
    } else if d == 5 {
        s.append("5");
        proof {
            reveal_strlit("5");
            assert(s@ =~= old(s)@.push(digit_char(d as nat)));
        }
    } else if d == 6 {
        s.append("6");
        proof {
            reveal_strlit("6");
            assert(s@ =~= old(s)@.push(digit_char(d as nat)));
        }
    } else if d == 7 {
        s.append("7");
        proof {
            reveal_strlit("7");
            assert(s@ =~= old(s)@.push(digit_char(d as nat)));
        }
    } else if d == 8 {
        s.append("8");
        proof {
            reveal_strlit("8");
            assert(s@ =~= old(s)@.push(digit_char(d as nat)));
        }
    } else {
        s.append("9");
        proof {
            reveal_strlit("9");
            assert(s@ =~= old(s)@.push(digit_char(d as nat)));
        }
    }
}

/// Appends the decimal numeral of `n`.
pub fn append_dec(s: &mut String, n: u64)
    ensures
        final(s)@ == old(s)@ + dec_seq(n as nat),
    decreases n,
{
    if n < 10 {
        append_digit(s, n);
        proof {
            assert(s@ =~= old(s)@ + dec_seq(n as nat));
        }
    } else {
        append_dec(s, n / 10);
        append_digit(s, n % 10);
        proof {
            assert((n as nat) / 10 == (n / 10) as nat);
            assert((n as nat) % 10 == (n % 10) as nat);
            assert(s@ =~= old(s)@ + dec_seq(n as nat));
        }
    }
}

/// The decimal text of `n`.
pub fn u64_to_dec(n: u64) -> (s: String)
    ensures
        s@ == dec_seq(n as nat),
{
    let mut s = String::from_str("");
    proof {
        reveal_strlit("");
        assert(s@ =~= Seq::<char>::empty());
    }
    append_dec(&mut s, n);
    proof {
        assert(s@ =~= dec_seq(n as nat));
    }
    s
}

/// The decimal text of a 32-bit signed value.
pub fn i32_to_dec(i: i32) -> (s: String)
    ensures
        s@ == int_dec_seq(i as int),
{
    if i < 0 {
        let mut s = String::from_str("-");
        let m: u64 = (-(i as i64)) as u64;
        append_dec(&mut s, m);
        proof {
            reveal_strlit("-");
            assert("-"@ =~= seq!['-']);
            assert(s@ =~= int_dec_seq(i as int));
        }
        s
    } else {
        let s = u64_to_dec(i as u64);
        s
    }
}

/// The script-visible message for a call with the wrong number of
/// arguments.
pub open spec fn invalid_count_msg(expected: nat, got: nat) -> Seq<char> {
    "Invalid argument count: Expected "@ + dec_seq(expected) + ", got "@ + dec_seq(got)
}

/// Builds the message for a call with the wrong number of arguments.
pub fn invalid_count_string(expected: usize, got: usize) -> (s: String)
    ensures
        s@ == invalid_count_msg(expected as nat, got as nat),
{
    let mut s = String::from_str("Invalid argument count: Expected ");
    append_dec(&mut s, expected as u64);
    s.append(", got ");
    append_dec(&mut s, got as u64);
    proof {
        assert(s@ =~= invalid_count_msg(expected as nat, got as nat));
    }
    s
}

/// The message for a property fetch that resolved to nothing.
pub open spec fn property_not_found_msg(name: Seq<char>) -> Seq<char> {
    "Property '"@ + name + "' not found"@
}

/// Builds the message for a property fetch that resolved to nothing.
pub fn property_not_found_string(name: &str) -> (s: String)
    ensures
        s@ == property_not_found_msg(name@),
{
    let mut s = String::from_str("Property '");
    s.append(name);
    s.append("' not found");
    proof {
        assert(s@ =~= property_not_found_msg(name@));
    }
    s
}

} // verus!
