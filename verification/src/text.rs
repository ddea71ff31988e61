use vstd::prelude::*;

verus! {

// Small text-building helpers shared by the scanner, the error display
// and the expression printer.

/// Relies on std's String::push: appends one character.
#[verifier::external_body]
pub(crate) fn push_char(s: &mut String, c: char)
    ensures
        final(s)@ == old(s)@.push(c),
{
    s.push(c);
}

/// The digit character for one decimal digit.
pub open spec fn digit_of(d: nat) -> char {
    ((48 + (d % 10)) as u8) as char
}

/// The decimal rendering of a natural number, most significant digit first.
pub open spec fn dec_rep(n: nat) -> Seq<char>
    decreases n,
{
    if n < 10 {
        seq![digit_of(n)]
    } else {
        dec_rep(n / 10).push(digit_of(n % 10))
    }
}

fn digit_char(d: usize) -> (c: char)
    requires
        d < 10,
    ensures
        c == digit_of(d as nat),
{
    ((48 + d) as u8) as char
}

/// Renders a machine integer in decimal.
pub fn fmt_usize(n: usize) -> (r: String)
    ensures
        r@ == dec_rep(n as nat),
    decreases n,
{
    if n < 10 {
        let mut s = String::from_str("");
        proof {
            reveal_strlit("");
        }
        push_char(&mut s, digit_char(n));
        proof {
            assert(s@ =~= dec_rep(n as nat));
        }
        s
    } else {
        let mut s = fmt_usize(n / 10);
        push_char(&mut s, digit_char(n % 10));
        s
    }
}

} // verus!
