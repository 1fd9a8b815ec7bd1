//! Decimal rendering of small integers, used when formatting error kinds.

use vstd::prelude::*;
use vstd::string::StringExecFns;

verus! {

/// The character for a single decimal digit.
pub open spec fn dec_digit(d: nat) -> char {
    if d == 0 {
        '0'
    } else if d == 1 {
        '1'
    } else if d == 2 {
        '2'
    } else if d == 3 {
        '3'
    } else if d == 4 {
        '4'
    } else if d == 5 {
        '5'
    } else if d == 6 {
        '6'
    } else if d == 7 {
        '7'
    } else if d == 8 {
        '8'
    } else {
        '9'
    }
}

/// The usual decimal representation of `n`: most significant digit first,
/// no leading zeros (except for `n == 0` itself).
pub open spec fn dec_rep(n: nat) -> Seq<char>
    decreases n,
{
    if n < 10 {
        seq![dec_digit(n)]
    } else {
        dec_rep(n / 10).push(dec_digit(n % 10))
    }
}

fn digit_str(d: u8) -> (r: &'static str)
    requires
        d < 10,
    ensures
        r@ == seq![dec_digit(d as nat)],
{
    let s: &'static str = match d {
        0 => "0",
        1 => "1",
        2 => "2",
        3 => "3",
        4 => "4",
        5 => "5",
        6 => "6",
        7 => "7",
        8 => "8",
        _ => "9",
    };
    proof {
        reveal_strlit("0");
        reveal_strlit("1");
        reveal_strlit("2");
        reveal_strlit("3");
        reveal_strlit("4");
        reveal_strlit("5");
        reveal_strlit("6");
        reveal_strlit("7");
        reveal_strlit("8");
        reveal_strlit("9");
        assert(s@ =~= seq![dec_digit(d as nat)]);
    }
    s
}

/// Renders `n` in decimal.
pub fn u8_dec(n: u8) -> (r: String)
    ensures
        r@ == dec_rep(n as nat),
{
    if n < 10 {
        let s = String::from_str(digit_str(n));
        proof {
            assert(s@ =~= dec_rep(n as nat));
        }
        s
    } else if n < 100 {
        let q: u8 = n / 10;
        let d0: u8 = n % 10;
        let mut s = String::from_str(digit_str(q));
        s.append(digit_str(d0));
        proof {
            assert(dec_rep(n as nat) == dec_rep(n as nat / 10).push(dec_digit(n as nat % 10)));
            assert(q as nat == n as nat / 10);
            assert(d0 as nat == n as nat % 10);
            assert(s@ =~= dec_rep(n as nat));
        }
        s
    } else {
        let q: u8 = n / 10;
        let d0: u8 = n % 10;
        let d1: u8 = q % 10;
        let d2: u8 = q / 10;
        let mut s = String::from_str(digit_str(d2));
        s.append(digit_str(d1));
        s.append(digit_str(d0));
        proof {
            assert(dec_rep(n as nat) == dec_rep(n as nat / 10).push(dec_digit(n as nat % 10)));
            assert(q as nat == n as nat / 10);
            assert(dec_rep(q as nat) == dec_rep(q as nat / 10).push(dec_digit(q as nat % 10)));
            assert(s@ =~= dec_rep(n as nat));
        }
        s
    }
}

} // verus!
