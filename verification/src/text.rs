//! Byte-level rendering of plain text: ASCII literals and decimal numbers.

use vstd::prelude::*;

verus! {

/// The bytes of an ASCII text: one byte per character.
pub open spec fn ascii_bytes(s: Seq<char>) -> Seq<u8> {
    Seq::new(s.len(), |i: int| s[i] as u8)
}

/// Appends the bytes of an ASCII text, one byte per character.
pub fn push_ascii(out: &mut Vec<u8>, s: &str)
    requires
        vstd::utf8::is_ascii_chars(s@),
    ensures
        final(out)@ == old(out)@ + ascii_bytes(s@),
{
    proof {
        vstd::utf8::is_ascii_chars_encode_utf8(s@);
    }
    let b = s.as_bytes();
    out.extend_from_slice(b);
    proof {
        assert(final(out)@ =~= old(out)@ + ascii_bytes(s@));
    }
}

/// The shortest decimal numeral of `n`, as ASCII digit bytes.
pub open spec fn spec_decimal(n: nat) -> Seq<u8>
    decreases n,
{
    if n < 10 {
        seq![(48 + n) as u8]
    } else {
        spec_decimal(n / 10).push((48 + n % 10) as u8)
    }
}

/// Appends the decimal numeral of `n`.
pub fn push_decimal(out: &mut Vec<u8>, n: u64)
    ensures
        final(out)@ == old(out)@ + spec_decimal(n as nat),
    decreases n,
{
    if n < 10 {
        out.push(48 + (n as u8));
        proof {
            assert(final(out)@ =~= old(out)@ + spec_decimal(n as nat));
        }
    } else {
        push_decimal(out, n / 10);
        out.push(48 + ((n % 10) as u8));
        proof {
            assert(final(out)@ =~= old(out)@ + spec_decimal(n as nat));
        }
    }
}

/// The decimal numeral of `n` on its own.
pub fn decimal_bytes(n: u64) -> (r: Vec<u8>)
    ensures
        r@ == spec_decimal(n as nat),
{
    let mut out: Vec<u8> = Vec::new();
    push_decimal(&mut out, n);
    proof {
        assert(out@ =~= spec_decimal(n as nat));
    }
    out
}

/// Distinct numbers have distinct decimal numerals.
pub proof fn lemma_decimal_injective(a: nat, b: nat)
    requires
        spec_decimal(a) == spec_decimal(b),
    ensures
        a == b,
    decreases a,
{
    let da = spec_decimal(a);
    let db = spec_decimal(b);
    if a < 10 && b < 10 {
        assert(da[0] == db[0]);
        assert(da[0] == (48 + a) as u8);
        assert(db[0] == (48 + b) as u8);
        assert(((48 + a) as u8) as nat == 48 + a);
        assert(((48 + b) as u8) as nat == 48 + b);
    } else if a < 10 {
        lemma_decimal_len_pos(b / 10);
        assert(da.len() == 1);
        assert(db.len() == spec_decimal(b / 10).len() + 1);
        assert(false);
    } else if b < 10 {
        lemma_decimal_len_pos(a / 10);
        assert(db.len() == 1);
        assert(da.len() == spec_decimal(a / 10).len() + 1);
        assert(false);
    } else {
        assert(da.last() == db.last());
        assert(da.last() == (48 + a % 10) as u8);
        assert(db.last() == (48 + b % 10) as u8);
        assert(a % 10 < 10 && b % 10 < 10);
        assert(((48 + a % 10) as u8) as nat == 48 + a % 10);
        assert(((48 + b % 10) as u8) as nat == 48 + b % 10);
        assert(a % 10 == b % 10);
        assert(da.drop_last() == spec_decimal(a / 10));
        assert(db.drop_last() == spec_decimal(b / 10));
        lemma_decimal_injective(a / 10, b / 10);
        assert(a == 10 * (a / 10) + a % 10) by (nonlinear_arith);
        assert(b == 10 * (b / 10) + b % 10) by (nonlinear_arith);
    }
}

/// A decimal numeral is never empty.
pub proof fn lemma_decimal_len_pos(n: nat)
    ensures
        spec_decimal(n).len() >= 1,
{
}

} // verus!
