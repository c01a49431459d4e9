//! Decimal formatting of quantities, for observability attributes.

use vstd::prelude::*;

use crate::text::{ascii_chars, ascii_to_string};

verus! {

/// The decimal digits of `n`, most significant first, as ASCII bytes.
pub open spec fn dec_bytes(n: nat) -> Seq<u8>
    decreases n,
{
    if n < 10 {
        seq![(0x30 + n) as u8]
    } else {
        dec_bytes(n / 10).push((0x30 + n % 10) as u8)
    }
}

/// The decimal digits of `n`, most significant first, as characters.
pub open spec fn dec_chars(n: nat) -> Seq<char> {
    ascii_chars(dec_bytes(n))
}

/// Every decimal digit byte is an ASCII digit.
proof fn lemma_dec_bytes_ascii(n: nat)
    ensures
        forall|i: int| 0 <= i < dec_bytes(n).len() ==> 0x30 <= #[trigger] dec_bytes(n)[i] <= 0x39,
    decreases n,
{
    if n < 10 {
        assert(dec_bytes(n) == seq![(0x30 + n) as u8]);
        assert(dec_bytes(n)[0] == (0x30 + n) as u8);
    } else {
        lemma_dec_bytes_ascii(n / 10);
        let prefix = dec_bytes(n / 10);
        assert(dec_bytes(n) == prefix.push((0x30 + n % 10) as u8));
        assert forall|i: int|
            0 <= i < dec_bytes(n).len() implies 0x30 <= #[trigger] dec_bytes(n)[i] <= 0x39 by {
            if i < prefix.len() {
                assert(dec_bytes(n)[i] == prefix[i]);
            } else {
                assert(dec_bytes(n)[i] == (0x30 + n % 10) as u8);
            }
        }
    }
}

/// Writes `n` in decimal.
pub fn u128_to_string(n: u128) -> (s: String)
    ensures
        s@ == dec_chars(n as nat),
{
    let mut digits: Vec<u8> = Vec::new();
    let mut m: u128 = n;
    if m == 0 {
        digits.push(0x30);
        proof {
            assert(digits@.reverse() =~= dec_bytes(n as nat));
        }
    }
    while m > 0
        invariant
            m > 0 ==> dec_bytes(n as nat) == dec_bytes(m as nat) + digits@.reverse(),
            m == 0 ==> digits@.reverse() == dec_bytes(n as nat),
        decreases m,
    {
        let ghost pre = digits@;
        let d: u8 = 0x30 + (m % 10) as u8;
        digits.push(d);
        proof {
            assert(digits@.reverse() =~= seq![d] + pre.reverse());
            if m >= 10 {
                assert(dec_bytes(m as nat) == dec_bytes((m as nat) / 10).push(
                    (0x30 + (m as nat) % 10) as u8,
                ));
                assert(dec_bytes((m / 10) as nat) + digits@.reverse() =~= dec_bytes(m as nat)
                    + pre.reverse());
            } else {
                assert(dec_bytes(m as nat) == seq![(0x30 + (m as nat)) as u8]);
                assert(digits@.reverse() =~= dec_bytes(m as nat) + pre.reverse());
            }
        }
        m = m / 10;
    }
    let mut out: Vec<u8> = Vec::new();
    let mut i: usize = digits.len();
    while i > 0
        invariant
            i <= digits@.len(),
            out@ == digits@.subrange(i as int, digits@.len() as int).reverse(),
        decreases i,
    {
        i = i - 1;
        let ghost pre_out = out@;
        out.push(digits[i]);
        proof {
            assert(out@ =~= digits@.subrange(i as int, digits@.len() as int).reverse());
        }
    }
    proof {
        assert(digits@.subrange(0, digits@.len() as int) =~= digits@);
        assert(out@ == dec_bytes(n as nat));
        lemma_dec_bytes_ascii(n as nat);
    }
    ascii_to_string(out)
}

} // verus!
