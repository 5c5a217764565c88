//! Reading and writing unsigned bit fields inside a 64-bit word.
use vstd::arithmetic::power2::{
    lemma2_to64,
    lemma2_to64_rest,
    lemma_pow2_adds,
    lemma_pow2_pos,
    lemma_pow2_strictly_increases,
    pow2,
};
use vstd::arithmetic::div_mod::{lemma_basic_div, lemma_small_mod};
use vstd::bits::{
    lemma_u64_low_bits_mask_is_mod,
    lemma_u64_pow2_no_overflow,
    lemma_u64_shl_is_mul,
    lemma_u64_shr_is_div,
    low_bits_mask,
};
use vstd::prelude::*;

verus! {

/// The `width`-bit unsigned value that starts at bit `lsb` of `word`.
pub open spec fn field_value(word: nat, width: nat, lsb: nat) -> nat {
    (word / pow2(lsb)) % pow2(width)
}

/// Computes 2 to the power `n`.
pub fn exp_base2(n: u64) -> (r: u64)
    requires
        n < 64,
    ensures
        r == pow2(n as nat),
{
    proof {
        lemma_u64_pow2_no_overflow(n as nat);
        lemma_u64_shl_is_mul(1, n);
    }
    1u64 << n
}

/// Whether the unsigned value `n` can be written in `width` bits.
pub fn fitsu(n: u64, width: u64) -> (r: bool)
    ensures
        r == (n < pow2(width as nat)),
{
    if width >= 64 {
        proof {
            lemma2_to64_rest();
            if width > 64 {
                lemma_pow2_strictly_increases(64, width as nat);
            }
        }
        true
    } else {
        n < exp_base2(width)
    }
}

/// The `width`-bit unsigned value that starts at bit `lsb` of `word`.
pub fn getu(word: u64, width: u64, lsb: u64) -> (r: u64)
    requires
        width + lsb <= 64,
    ensures
        r == field_value(word as nat, width as nat, lsb as nat),
{
    if width == 0 {
        proof {
            lemma2_to64();
        }
        return 0;
    }
    let shifted = word >> lsb;
    proof {
        lemma_u64_shr_is_div(word, lsb);
    }
    if width == 64 {
        proof {
            lemma2_to64();
            lemma2_to64_rest();
            assert(word as nat / 1 == word);
            lemma_small_mod(word as nat, pow2(64));
        }
        shifted
    } else {
        proof {
            lemma_pow2_pos(width as nat);
        }
        let mask = exp_base2(width) - 1;
        proof {
            lemma_u64_low_bits_mask_is_mod(shifted, width as nat);
            lemma_u64_pow2_no_overflow(width as nat);
            assert(mask == low_bits_mask(width as nat) as u64);
        }
        shifted & mask
    }
}

/// `word` with the `width` bits that start at bit `lsb` replaced by `value`,
/// or `None` where `value` does not fit in `width` bits. The bits below and
/// above the field keep their values.
pub fn newu(word: u64, width: u64, lsb: u64, value: u64) -> (r: Option<u64>)
    requires
        width + lsb <= 64,
    ensures
        r is Some <==> value < pow2(width as nat),
        r matches Some(w) ==> {
            &&& field_value(w as nat, width as nat, lsb as nat) == value
            &&& w as nat % pow2(lsb as nat) == word as nat % pow2(lsb as nat)
            &&& w as nat / pow2((lsb + width) as nat) == word as nat / pow2((lsb + width) as nat)
        },
{
    if !fitsu(value, width) {
        return None;
    }
    proof {
        lemma2_to64();
        lemma2_to64_rest();
    }
    if width == 0 {
        proof {
            lemma_small_mod(0, pow2(lsb as nat));
        }
        return Some(word);
    }
    if width == 64 {
        proof {
            assert(value as nat / 1 == value);
            assert(word as nat / 1 == word);
            lemma_small_mod(value as nat, pow2(64));
            lemma_basic_div(value as int, pow2(64) as int);
            lemma_basic_div(word as int, pow2(64) as int);
        }
        return Some(value);
    }
    let ones = exp_base2(width);
    proof {
        lemma_u64_shl_is_mul(1, width);
        lemma_pow2_pos(width as nat);
        assert(ones == 1u64 << width);
    }
    let mask: u64 = ones - 1;
    let w = (word & !(mask << lsb)) | (value << lsb);
    proof {
        let top = (lsb + width) as u64;
        assert((w >> lsb) & mask == value) by (bit_vector)
            requires
                w == (word & !(mask << lsb)) | (value << lsb),
                mask == (1u64 << width) - 1,
                value < (1u64 << width),
                0 < width < 64,
                lsb + width <= 64,
        ;
        lemma_u64_pow2_no_overflow(lsb as nat);
        lemma_u64_shl_is_mul(1, lsb);
        lemma_pow2_pos(lsb as nat);
        let low: u64 = ((1u64 << lsb) - 1) as u64;
        assert(w & low == word & low) by (bit_vector)
            requires
                low + 1 == 1u64 << lsb,
                w == (word & !(mask << lsb)) | (value << lsb),
                mask == (1u64 << width) - 1,
                value < (1u64 << width),
                0 < width < 64,
                lsb + width <= 64,
        ;
        lemma_u64_shr_is_div(w, lsb);
        lemma_u64_low_bits_mask_is_mod(w >> lsb, width as nat);
        assert(low_bits_mask(width as nat) as u64 == mask);
        lemma_u64_low_bits_mask_is_mod(w, lsb as nat);
        lemma_u64_low_bits_mask_is_mod(word, lsb as nat);
        assert(low_bits_mask(lsb as nat) as u64 == low);
        if top < 64 {
            assert(w >> top == word >> top) by (bit_vector)
                requires
                    w == (word & !(mask << lsb)) | (value << lsb),
                    mask == (1u64 << width) - 1,
                    value < (1u64 << width),
                    0 < width < 64,
                    top == lsb + width,
                    top < 64,
            ;
            lemma_u64_shr_is_div(w, top);
            lemma_u64_shr_is_div(word, top);
        } else {
            lemma_basic_div(w as int, pow2(64) as int);
            lemma_basic_div(word as int, pow2(64) as int);
        }
    }
    Some(w)
}

} // verus!
