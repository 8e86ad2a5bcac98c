use vstd::prelude::*;

verus! {

/// Relies on std's String::push: appends exactly the given character.
#[verifier::external_body]
pub fn push_char(s: &mut String, c: char)
    ensures
        final(s)@ == old(s)@.push(c),
{
    s.push(c);
}

/// The decimal digit character for `n % 10`.
pub open spec fn dec_digit(n: u64) -> char {
    ((n % 10) as u8 + 48) as char
}

/// Decimal rendering of an unsigned integer, most significant digit first,
/// with no leading zeros (a single `'0'` for zero).
pub open spec fn dec_of(n: u64) -> Seq<char>
    decreases n,
{
    if n < 10 {
        seq![dec_digit(n)]
    } else {
        dec_of(n / 10) + seq![dec_digit(n)]
    }
}

/// Appends the decimal rendering of `n` to `s`.
pub fn push_decimal(s: &mut String, n: u64)
    ensures
        final(s)@ == old(s)@ + dec_of(n),
    decreases n,
{
    if n >= 10 {
        push_decimal(s, n / 10);
    }
    let d: u8 = (n % 10) as u8 + 48;
    push_char(s, d as char);
    proof {
        if n < 10 {
            assert(old(s)@.push(dec_digit(n)) =~= old(s)@ + dec_of(n));
        } else {
            assert((old(s)@ + dec_of(n / 10)).push(dec_digit(n)) =~= old(s)@ + dec_of(n));
        }
    }
}

} // verus!
