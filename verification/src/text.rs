//! Text building blocks: decimal rendering of integers, and joining
//! line sequences with a separator. Both are shared by the dispatcher's
//! message formatting and the frame codec.

use vstd::prelude::*;
use vstd::string::StringExecFns;

verus! {

/// The decimal digit character for `d` (`d < 10`).
pub open spec fn spec_digit(d: nat) -> char {
    if d == 0 {
        '0'
    } else if d == 1 {
        '1'
    } else if d == 2 {
        '2'
    } else if d == 3 {
        '3'
    } else if d == 4 {
        '4'
    } else if d == 5 {
        '5'
    } else if d == 6 {
        '6'
    } else if d == 7 {
        '7'
    } else if d == 8 {
        '8'
    } else {
        '9'
    }
}

/// The decimal rendering of `n`, without sign or padding.
pub open spec fn spec_dec_digits(n: nat) -> Seq<char>
    decreases n,
{
    if n < 10 {
        seq![spec_digit(n)]
    } else {
        spec_dec_digits(n / 10).push(spec_digit(n % 10))
    }
}

/// The decimal rendering of `i`, with a leading minus sign if negative.
pub open spec fn spec_int_digits(i: int) -> Seq<char> {
    if i < 0 {
        seq!['-'] + spec_dec_digits((-i) as nat)
    } else {
        spec_dec_digits(i as nat)
    }
}

/// The single decimal digit `d` as a string slice.
fn digit_str(d: u64) -> (r: &'static str)
    requires
        d < 10,
    ensures
        r@ == seq![spec_digit(d as nat)],
{
    proof {
        reveal_strlit("0");
        reveal_strlit("1");
        reveal_strlit("2");
        reveal_strlit("3");
        reveal_strlit("4");
        reveal_strlit("5");
        reveal_strlit("6");
        reveal_strlit("7");
        reveal_strlit("8");
        reveal_strlit("9");
    }
    match d {
        0 => "0",
        1 => "1",
        2 => "2",
        3 => "3",
        4 => "4",
        5 => "5",
        6 => "6",
        7 => "7",
        8 => "8",
        _ => "9",
    }
}

/// Renders `n` in decimal.
pub fn u64_to_string(n: u64) -> (r: String)
    ensures
        r@ == spec_dec_digits(n as nat),
    decreases n,
{
    if n < 10 {
        let mut s = String::new();
        s.append(digit_str(n));
        proof {
            assert(s@ =~= seq![spec_digit(n as nat)]);
        }
        s
    } else {
        proof {
            assert(n / 10 < n) by (nonlinear_arith)
                requires
                    n >= 10,
            ;
        }
        let mut s = u64_to_string(n / 10);
        s.append(digit_str(n % 10));
        proof {
            assert(s@ =~= spec_dec_digits((n / 10) as nat).push(spec_digit((n % 10) as nat)));
        }
        s
    }
}

/// Renders `i` in decimal, signed.
pub fn i64_to_string(i: i64) -> (r: String)
    ensures
        r@ == spec_int_digits(i as int),
{
    if i >= 0 {
        u64_to_string(i as u64)
    } else {
        let m: u64 = ((-(i + 1)) as u64) + 1;
        proof {
            assert(m as nat == (-(i as int)) as nat);
        }
        let mut s = String::from_str("-");
        proof {
            reveal_strlit("-");
        }
        s.append(u64_to_string(m).as_str());
        proof {
            assert(s@ =~= seq!['-'] + spec_dec_digits((-(i as int)) as nat));
        }
        s
    }
}

/// `parts` joined by `sep`: nothing for no parts, no separator around a
/// single part.
pub open spec fn spec_join(parts: Seq<Seq<char>>, sep: Seq<char>) -> Seq<char>
    decreases parts.len(),
{
    if parts.len() == 0 {
        Seq::empty()
    } else if parts.len() == 1 {
        parts[0]
    } else {
        parts[0] + sep + spec_join(parts.drop_first(), sep)
    }
}

/// Appending a part appends a separator and the part, except to an empty
/// join.
pub proof fn lemma_join_push(parts: Seq<Seq<char>>, sep: Seq<char>, p: Seq<char>)
    ensures
        spec_join(parts.push(p), sep) == if parts.len() == 0 {
            p
        } else {
            spec_join(parts, sep) + sep + p
        },
    decreases parts.len(),
{
    reveal_with_fuel(spec_join, 2);
    if parts.len() == 0 {
        assert(parts.push(p)[0] == p);
        assert(spec_join(parts.push(p), sep) == p);
    } else if parts.len() == 1 {
        assert(parts.push(p)[0] == parts[0]);
        assert(parts.push(p).drop_first() =~= seq![p]);
        assert(spec_join(seq![p], sep) == p);
        assert(spec_join(parts.push(p), sep) =~= spec_join(parts, sep) + sep + p);
    } else {
        lemma_join_push(parts.drop_first(), sep, p);
        assert(parts.push(p)[0] == parts[0]);
        assert(parts.push(p).drop_first() =~= parts.drop_first().push(p));
        assert(spec_join(parts.push(p), sep) == parts[0] + sep + spec_join(
            parts.drop_first().push(p),
            sep,
        ));
        assert(parts[0] + sep + (spec_join(parts.drop_first(), sep) + sep + p) =~= (parts[0] + sep
            + spec_join(parts.drop_first(), sep)) + sep + p);
    }
}

} // verus!
