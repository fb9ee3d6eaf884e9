//! Decimal numbers as text, plain and zero-padded.

use crate::url::hex_digit_char;
use crate::url::hex_digit_str;
use vstd::prelude::*;
use vstd::string::*;

verus! {

/// The decimal digits of `n`, most significant first. The digit
/// characters below ten coincide with the hexadecimal ones.
pub open spec fn dec_str(n: int) -> Seq<char>
    recommends
        n >= 0,
    decreases n,
{
    if n < 10 {
        seq![hex_digit_char(n)]
    } else {
        dec_str(n / 10) + seq![hex_digit_char(n % 10)]
    }
}

/// `k` zero characters.
pub open spec fn zeros(k: int) -> Seq<char>
    decreases k,
{
    if k <= 0 {
        seq![]
    } else {
        zeros(k - 1).push('0')
    }
}

/// The decimal digits of `n`, zero-padded on the left to at least
/// `width` characters.
pub open spec fn dec_pad(n: int, width: int) -> Seq<char> {
    zeros(width - dec_str(n).len()) + dec_str(n)
}

/// Appends the decimal digits of `n` to `s`.
pub fn push_decimal(s: &mut String, n: u64)
    ensures
        final(s)@ == old(s)@ + dec_str(n as int),
    decreases n,
{
    if n >= 10 {
        push_decimal(s, n / 10);
    }
    s.append(hex_digit_str((n % 10) as u8));
    proof {
        if n >= 10 {
            assert(old(s)@ + dec_str(n as int) =~= (old(s)@ + dec_str(n as int / 10)) + seq![
                hex_digit_char(n as int % 10),
            ]);
        }
    }
}

/// A number's digit string is never empty and never longer than the
/// number itself.
proof fn lemma_dec_str_len(n: int)
    requires
        n >= 0,
    ensures
        1 <= dec_str(n).len(),
        n >= 1 ==> dec_str(n).len() <= n,
        n == 0 ==> dec_str(n).len() == 1,
    decreases n,
{
    if n >= 10 {
        lemma_dec_str_len(n / 10);
    }
}

/// Appends the decimal digits of `n` to `s`, zero-padded on the left to
/// at least `width` characters.
pub fn push_decimal_padded(s: &mut String, n: u64, width: usize)
    ensures
        final(s)@ == old(s)@ + dec_pad(n as int, width as int),
{
    let mut digits: u64 = 1;
    let mut m: u64 = n;
    proof {
        lemma_dec_str_len(n as int);
    }
    while m >= 10
        invariant
            dec_str(n as int).len() == dec_str(m as int).len() + digits - 1,
            digits >= 1,
            digits <= dec_str(n as int).len(),
            dec_str(n as int).len() <= u64::MAX,
        decreases m,
    {
        proof {
            lemma_dec_str_len(m as int / 10);
        }
        m = m / 10;
        digits = digits + 1;
    }
    proof {
        assert(dec_str(n as int).len() == digits);
    }
    let mut pad: usize = 0;
    proof {
        reveal_strlit("0");
        assert(old(s)@ + zeros(0) =~= old(s)@);
    }
    while digits < width as u64 && (pad as u64) < width as u64 - digits
        invariant
            s@ == old(s)@ + zeros(pad as int),
            pad + digits <= width || pad == 0,
            pad <= width,
        decreases width as u64 - digits - pad as u64,
    {
        s.append("0");
        proof {
            reveal_strlit("0");
            assert(s@ =~= old(s)@ + zeros(pad + 1));
        }
        pad = pad + 1;
    }
    proof {
        assert(zeros(pad as int) =~= zeros(width - dec_str(n as int).len()));
    }
    push_decimal(s, n);
    proof {
        assert(s@ =~= old(s)@ + dec_pad(n as int, width as int));
    }
}

} // verus!
