use vstd::prelude::*;
use vstd::string::StringExecFns;

verus! {

/// The human-readable rendering that `bytesize` gives a byte count.
pub uninterp spec fn human_of(b: u64) -> Seq<char>;

/// Relies on bytesize::ByteSize's Display impl: the rendered text is a
/// function of the byte count alone, and always holds at least one character.
#[verifier::external_body]
pub fn human(b: u64) -> (r: String)
    ensures
        r@ == human_of(b),
        r@.len() > 0,
{
    bytesize::ByteSize(b).to_string()
}

/// The single decimal digit character for `d` in 0..10.
pub open spec fn dec_digit(d: int) -> Seq<char> {
    if d == 0 {
        "0"@
    } else if d == 1 {
        "1"@
    } else if d == 2 {
        "2"@
    } else if d == 3 {
        "3"@
    } else if d == 4 {
        "4"@
    } else if d == 5 {
        "5"@
    } else if d == 6 {
        "6"@
    } else if d == 7 {
        "7"@
    } else if d == 8 {
        "8"@
    } else {
        "9"@
    }
}

/// The decimal representation of a non-negative integer, most significant
/// digit first, with no leading zeros (a lone "0" for zero).
pub open spec fn dec_of(n: int) -> Seq<char>
    decreases n,
{
    if n < 10 {
        dec_digit(n)
    } else {
        dec_of(n / 10) + dec_digit(n % 10)
    }
}

fn digit_str(d: u64) -> (r: String)
    requires
        d < 10,
    ensures
        r@ == dec_digit(d as int),
{
    if d == 0 {
        String::from_str("0")
    } else if d == 1 {
        String::from_str("1")
    } else if d == 2 {
        String::from_str("2")
    } else if d == 3 {
        String::from_str("3")
    } else if d == 4 {
        String::from_str("4")
    } else if d == 5 {
        String::from_str("5")
    } else if d == 6 {
        String::from_str("6")
    } else if d == 7 {
        String::from_str("7")
    } else if d == 8 {
        String::from_str("8")
    } else {
        String::from_str("9")
    }
}

/// Renders `n` in decimal.
pub fn u64_dec(n: u64) -> (r: String)
    ensures
        r@ == dec_of(n as int),
    decreases n,
{
    if n < 10 {
        digit_str(n)
    } else {
        proof {
            assert(n / 10 < n) by (nonlinear_arith)
                requires
                    n >= 10,
            ;
        }
        let high = u64_dec(n / 10);
        let low = digit_str(n % 10);
        high.concat(low.as_str())
    }
}

} // verus!
