//! Laws of the field element's encodings and bit-level operations.

use crate::field::{
    bits_and, bits_xor, hex_literal_value, lemma_pow2_values, masked_and, masked_xor, modulus,
    FieldElement,
};
use crate::radix::{
    be_bits, be_bytes, be_value, bit_at, bit_length, lemma_be_bits_of_bits_value,
    lemma_be_bits_of_mod, lemma_be_value_of_be_bytes, lemma_bit_length_bounds,
    lemma_bits_value_bound, lemma_bits_value_of_be_bits, lemma_leading_zeros_bound,
    lemma_lex_less_is_less, lex_less,
};
use crate::text::{hex_chars, lemma_hex_chars_is_hex, lemma_hex_value_of_hex_chars};
use vstd::arithmetic::div_mod::*;
use vstd::arithmetic::power2::*;
use vstd::bits::*;
use vstd::prelude::*;

verus! {

/// The canonical encodings round-trip: the 32 bytes of an element denote its
/// value, so reading them back without reduction gives the element again,
/// and so does reading back its hexadecimal text.
pub proof fn lemma_encoding_round_trip(v: FieldElement)
    requires
        v.is_canonical(),
    ensures
        be_bytes(v@, 32).len() == 32,
        be_value(be_bytes(v@, 32)) == v@,
        FieldElement::from_value(be_value(be_bytes(v@, 32))) == v,
        hex_literal_value(hex_chars(be_bytes(v@, 32))) == Some(v@),
{
    lemma_pow2_values();
    lemma_be_value_of_be_bytes(v@, 32);
    lemma_small_mod(v@, pow2(256));
    v.lemma_from_value_of_view();
    lemma_hex_chars_is_hex(be_bytes(v@, 32));
    lemma_hex_value_of_hex_chars(be_bytes(v@, 32));
}

/// Equality and order of elements are those of their canonical encodings:
/// two elements are equal exactly when their 32 bytes are, and one is below
/// another exactly when its bytes come first in the order of the dictionary.
pub proof fn lemma_order_of_encodings(a: FieldElement, b: FieldElement)
    requires
        a.is_canonical(),
        b.is_canonical(),
    ensures
        a == b <==> be_bytes(a@, 32) == be_bytes(b@, 32),
        a@ < b@ <==> lex_less(be_bytes(a@, 32), be_bytes(b@, 32)),
{
    lemma_encoding_round_trip(a);
    lemma_encoding_round_trip(b);
    lemma_lex_less_is_less(be_bytes(a@, 32), be_bytes(b@, 32));
    if a@ == b@ {
        a.lemma_same_value(b);
    }
}

/// Zero needs no bit, one needs one, and no element needs more than 254.
pub proof fn lemma_bit_count(v: FieldElement)
    requires
        v.is_canonical(),
    ensures
        bit_length(0) == 0,
        bit_length(1) == 1,
        0 <= bit_length(v@) <= 254,
{
    assert(bit_length(1) == 1 + bit_length(0));
    lemma_pow2_values();
    lemma_bit_length_bounds(v@);
    if bit_length(v@) > 254 {
        if bit_length(v@) - 1 > 254 {
            lemma_pow2_strictly_increases(254, (bit_length(v@) - 1) as nat);
        }
    }
}

/// Masking is idempotent: masking a masked element to the same width
/// changes nothing.
pub proof fn lemma_mask_idempotent(v: FieldElement, n: nat)
    ensures
        (v@ % pow2(n)) % pow2(n) == v@ % pow2(n),
        v.is_canonical() ==> v@ % pow2(n) < modulus(),
{
    lemma_pow2_pos(n);
    lemma_mod_twice(v@ as int, pow2(n) as int);
    lemma_mod_decreases(v@, pow2(n));
}

/// The XOR of values masked to `n` bits is below `2^n`, so below the order
/// for every `n` up to 253.
pub proof fn lemma_masked_xor_bound(a: FieldElement, b: FieldElement, n: nat)
    requires
        n <= 256,
    ensures
        masked_xor(a@, b@, n) < pow2(n),
        n <= 253 ==> masked_xor(a@, b@, n) < modulus(),
{
    let x = be_bits(a@ % pow2(n), 256);
    let y = be_bits(b@ % pow2(n), 256);
    let bits = bits_xor(x, y);
    let v = masked_xor(a@, b@, n);
    lemma_pow2_values();
    lemma_bits_value_bound(bits);
    lemma_be_bits_of_bits_value(bits);
    lemma_be_bits_of_mod(a@, n, 256);
    lemma_be_bits_of_mod(b@, n, 256);
    assert forall|i: int| 0 <= i < 256 - n implies !be_bits(v, 256)[i] by {
        assert(be_bits(v, 256)[i] == bits[i]);
        assert(!x[i]);
        assert(!y[i]);
    }
    lemma_leading_zeros_bound(v, 256, (256 - n) as nat);
    if n < 253 {
        lemma_pow2_strictly_increases(n, 253);
    }
}

proof fn lemma_u8_bitwise(x: u8, y: u8, k: u8)
    by (bit_vector)
    requires
        k < 8,
    ensures
        (((x ^ y) >> k) % 2 == 1) == (((x >> k) % 2 == 1) != ((y >> k) % 2 == 1)),
        (((x & y) >> k) % 2 == 1) == (((x >> k) % 2 == 1) && ((y >> k) % 2 == 1)),
{
}

proof fn lemma_bit_at_u8(x: u8, k: nat)
    ensures
        bit_at(x as nat, k) == (k < 8 && (x >> (k as u8)) % 2 == 1),
{
    if k < 8 {
        lemma_u8_shr_is_div(x, k as u8);
    } else {
        lemma2_to64();
        if k > 8 {
            lemma_pow2_strictly_increases(8, k);
        }
        lemma_basic_div(x as int, pow2(k) as int);
    }
}

/// On eight bits the emulated operators are the machine's: the result is the
/// XOR, or the AND, of the two low bytes taken as 8-bit integers.
pub proof fn lemma_bitwise_on_bytes(a: FieldElement, b: FieldElement)
    ensures
        masked_xor(a@, b@, 8) == (((a@ % 256) as u8) ^ ((b@ % 256) as u8)) as nat,
        masked_and(a@, b@, 8) == (((a@ % 256) as u8) & ((b@ % 256) as u8)) as nat,
        masked_xor(a@, b@, 8) < modulus(),
{
    lemma_pow2_values();
    let x = (a@ % 256) as u8;
    let y = (b@ % 256) as u8;
    let bx = be_bits(x as nat, 256);
    let by = be_bits(y as nat, 256);
    assert(bits_xor(bx, by) =~= be_bits((x ^ y) as nat, 256)) by {
        assert forall|i: int| 0 <= i < 256 implies bits_xor(bx, by)[i] == be_bits(
            (x ^ y) as nat,
            256,
        )[i] by {
            let k = (255 - i) as nat;
            lemma_bit_at_u8(x, k);
            lemma_bit_at_u8(y, k);
            lemma_bit_at_u8(x ^ y, k);
            if k < 8 {
                lemma_u8_bitwise(x, y, k as u8);
            }
        }
    }
    assert(bits_and(bx, by) =~= be_bits((x & y) as nat, 256)) by {
        assert forall|i: int| 0 <= i < 256 implies bits_and(bx, by)[i] == be_bits(
            (x & y) as nat,
            256,
        )[i] by {
            let k = (255 - i) as nat;
            lemma_bit_at_u8(x, k);
            lemma_bit_at_u8(y, k);
            lemma_bit_at_u8(x & y, k);
            if k < 8 {
                lemma_u8_bitwise(x, y, k as u8);
            }
        }
    }
    lemma_bits_value_of_be_bits((x ^ y) as nat, 256);
    lemma_bits_value_of_be_bits((x & y) as nat, 256);
    lemma_small_mod((x ^ y) as nat, pow2(256));
    lemma_small_mod((x & y) as nat, pow2(256));
}

} // verus!
