//! Decimal rendering of integers.
//!
//! Query text, protocol frames and human-readable sizes all need numbers
//! written out in base ten.  `spec_decimal` fixes the mathematical digit
//! string of a natural number, and the executable functions are proved to
//! produce exactly that string.

use vstd::prelude::*;

verus! {

/// The character for a single decimal digit.
pub open spec fn dec_digit(d: nat) -> char {
    ((d + 48) as u8) as char
}

/// The base-ten digit string of `n`, most significant digit first.
pub open spec fn spec_decimal(n: nat) -> Seq<char>
    decreases n,
{
    if n < 10 {
        seq![dec_digit(n)]
    } else {
        spec_decimal(n / 10).push(dec_digit(n % 10))
    }
}

/// The rendering of a possibly negative integer: a minus sign followed by
/// the digit string of the magnitude.
pub open spec fn spec_decimal_int(n: int) -> Seq<char> {
    if n < 0 {
        seq!['-'] + spec_decimal((-n) as nat)
    } else {
        spec_decimal(n as nat)
    }
}

/// Appends the decimal digits of `n` to `out`.
pub fn push_u64(out: &mut String, n: u64)
    ensures
        final(out)@ == old(out)@ + spec_decimal(n as nat),
    decreases n,
{
    if n >= 10 {
        push_u64(out, n / 10);
    }
    let d: u8 = (n % 10) as u8;
    out.push((d + 48) as char);
    proof {
        assert(final(out)@ =~= old(out)@ + spec_decimal(n as nat));
    }
}

/// Appends the decimal rendering of `n`, with a leading minus sign when
/// `n` is negative.
pub fn push_i64(out: &mut String, n: i64)
    ensures
        final(out)@ == old(out)@ + spec_decimal_int(n as int),
{
    if n < 0 {
        out.push('-');
        let m: u64 = (-(n as i128)) as u64;
        push_u64(out, m);
        proof {
            assert(final(out)@ =~= old(out)@ + spec_decimal_int(n as int));
        }
    } else {
        push_u64(out, n as u64);
    }
}

/// Whether `s` is one or more decimal digits.
pub open spec fn all_digits(s: Seq<char>) -> bool {
    s.len() > 0 && forall|i: int| 0 <= i < s.len() ==> '0' <= #[trigger] s[i] && s[i] <= '9'
}

/// The number a digit string denotes.
pub open spec fn dec_val(s: Seq<char>) -> nat
    decreases s.len(),
{
    if s.len() == 0 {
        0
    } else {
        let d = if '0' <= s.last() && s.last() <= '9' {
            (s.last() as int - 48) as nat
        } else {
            0
        };
        dec_val(s.drop_last()) * 10 + d
    }
}

/// Reads an unsigned decimal number: exactly the digit strings whose
/// value fits in `u64` parse, to their value.
pub fn parse_u64(s: &str) -> (r: Option<u64>)
    ensures
        match r {
            Some(n) => all_digits(s@) && n == dec_val(s@),
            None => !all_digits(s@) || dec_val(s@) > 0xFFFF_FFFF_FFFF_FFFF,
        },
{
    let cs = crate::strutil::chars_vec(s);
    let n = cs.len();
    if n == 0 {
        return None;
    }
    let mut acc: u64 = 0;
    let mut i: usize = 0;
    while i < n
        invariant
            cs@ == s@,
            n == cs@.len(),
            0 <= i <= n,
            forall|j: int| 0 <= j < i ==> '0' <= #[trigger] cs@[j] && cs@[j] <= '9',
            acc == dec_val(cs@.take(i as int)),
        decreases n - i,
    {
        let c = cs[i];
        if !('0' <= c && c <= '9') {
            return None;
        }
        let d: u64 = (c as u32 as u64) - 48;
        proof {
            assert(cs@.take(i + 1).drop_last() =~= cs@.take(i as int));
            assert(cs@.take(i + 1).last() == cs@[i as int]);
        }
        if acc > 0xFFFF_FFFF_FFFF_FFFF / 10 {
            proof {
                lemma_dec_val_grows(cs@, i as int);
            }
            return None;
        }
        let base = acc * 10;
        if d > 0xFFFF_FFFF_FFFF_FFFF - base {
            proof {
                lemma_dec_val_grows(cs@, i as int);
            }
            return None;
        }
        acc = base + d;
        i = i + 1;
    }
    proof {
        assert(cs@.take(n as int) =~= cs@);
    }
    Some(acc)
}

/// A longer digit prefix never denotes a smaller number.
proof fn lemma_dec_val_grows(s: Seq<char>, i: int)
    requires
        0 <= i < s.len(),
    ensures
        dec_val(s) >= dec_val(s.take(i + 1)),
    decreases s.len() - i,
{
    if i + 1 < s.len() {
        lemma_dec_val_grows(s, i + 1);
        assert(s.take(i + 2).drop_last() =~= s.take(i + 1));
        assert(dec_val(s.take(i + 2)) >= dec_val(s.take(i + 1)));
    } else {
        assert(s.take(i + 1) =~= s);
    }
}

} // verus!
