//! What the field takes on trust from `ark_ff`, `hex` and `num_bigint`: each
//! function here hands its arguments to one of those crates, and its
//! contract says what comes back. Nothing here is proved.

use super::{fr_display_text, modulus, signed_value, FieldElement};
use crate::radix::{be_bits, be_value};
use crate::text::{dec_value, decimal_digits, hex_bytes, hex_chars, hex_value, is_decimal, is_hex};
use ark_bn254::Fr;
use ark_ff::biginteger::BigInteger256;
use ark_ff::{BitIteratorBE, Field, PrimeField};
use num_bigint::{BigInt, BigUint};
use std::str::FromStr;
use vstd::prelude::*;

verus! {

/// `BitIteratorBE` over the four limbs, collected: the 256 bits of the
/// integer that the limbs hold, from bit 255 down to bit 0.
#[verifier::external_body]
pub(crate) fn limb_bits(a: &FieldElement) -> (r: Vec<bool>)
    ensures
        r@ == be_bits(a@, 256),
{
    BitIteratorBE::new([a.w0, a.w1, a.w2, a.w3]).collect()
}

/// `Fr`'s `+`: the sum modulo the order. Here and below an element goes in
/// through `from_repr`, which takes the canonical integer as four limbs and
/// refuses one that is not below the order, and comes out through
/// `into_repr`, which gives the canonical integer.
#[verifier::external_body]
pub(crate) fn fr_add(a: FieldElement, b: FieldElement) -> (r: FieldElement)
    requires
        a.is_canonical(),
        b.is_canonical(),
    ensures
        r@ == (a@ + b@) % modulus(),
{
    let x = Fr::from_repr(BigInteger256([a.w0, a.w1, a.w2, a.w3])).unwrap();
    let y = Fr::from_repr(BigInteger256([b.w0, b.w1, b.w2, b.w3])).unwrap();
    let s = (x + y).into_repr().0;
    FieldElement { w3: s[3], w2: s[2], w1: s[1], w0: s[0] }
}

/// `Fr`'s `-`: the difference modulo the order.
#[verifier::external_body]
pub(crate) fn fr_sub(a: FieldElement, b: FieldElement) -> (r: FieldElement)
    requires
        a.is_canonical(),
        b.is_canonical(),
    ensures
        r@ == signed_value(a@ - b@),
{
    let x = Fr::from_repr(BigInteger256([a.w0, a.w1, a.w2, a.w3])).unwrap();
    let y = Fr::from_repr(BigInteger256([b.w0, b.w1, b.w2, b.w3])).unwrap();
    let s = (x - y).into_repr().0;
    FieldElement { w3: s[3], w2: s[2], w1: s[1], w0: s[0] }
}

/// `Fr`'s `*`: the product modulo the order.
#[verifier::external_body]
pub(crate) fn fr_mul(a: FieldElement, b: FieldElement) -> (r: FieldElement)
    requires
        a.is_canonical(),
        b.is_canonical(),
    ensures
        r@ == (a@ * b@) % modulus(),
{
    let x = Fr::from_repr(BigInteger256([a.w0, a.w1, a.w2, a.w3])).unwrap();
    let y = Fr::from_repr(BigInteger256([b.w0, b.w1, b.w2, b.w3])).unwrap();
    let s = (x * y).into_repr().0;
    FieldElement { w3: s[3], w2: s[2], w1: s[1], w0: s[0] }
}

/// `Fr`'s unary `-`: zero for zero, else the order minus the value.
#[verifier::external_body]
pub(crate) fn fr_neg(a: FieldElement) -> (r: FieldElement)
    requires
        a.is_canonical(),
    ensures
        r@ == signed_value(-(a@ as int)),
{
    let x = Fr::from_repr(BigInteger256([a.w0, a.w1, a.w2, a.w3])).unwrap();
    let s = (-x).into_repr().0;
    FieldElement { w3: s[3], w2: s[2], w1: s[1], w0: s[0] }
}

/// `Field::inverse`: `None` for zero, else the element whose product with
/// the argument is one.
#[verifier::external_body]
pub(crate) fn fr_inverse(a: &FieldElement) -> (r: Option<FieldElement>)
    requires
        a.is_canonical(),
    ensures
        a@ == 0 ==> r is None,
        a@ != 0 ==> r is Some && (a@ * r->0@) % modulus() == 1,
{
    let x = Fr::from_repr(BigInteger256([a.w0, a.w1, a.w2, a.w3])).unwrap();
    let s = x.inverse()?.into_repr().0;
    Some(FieldElement { w3: s[3], w2: s[2], w1: s[1], w0: s[0] })
}

/// `Fr`'s `FromStr`: accepts exactly the canonical decimal numerals and
/// gives the number that one denotes, reduced modulo the order.
#[verifier::external_body]
pub(crate) fn fr_from_str(s: &str) -> (r: Option<FieldElement>)
    ensures
        r is Some <==> is_decimal(s@),
        r is Some ==> r->0@ == dec_value(s@) % modulus(),
{
    let s = Fr::from_str(s).ok()?.into_repr().0;
    Some(FieldElement { w3: s[3], w2: s[2], w1: s[1], w0: s[0] })
}

/// `PrimeField::from_be_bytes_mod_order`: the number that big-endian bytes
/// denote, reduced modulo the order.
#[verifier::external_body]
pub(crate) fn fr_from_be_bytes_mod_order(bytes: &[u8]) -> (r: FieldElement)
    ensures
        r@ == be_value(bytes@) % modulus(),
{
    let s = Fr::from_be_bytes_mod_order(bytes).into_repr().0;
    FieldElement { w3: s[3], w2: s[2], w1: s[1], w0: s[0] }
}

/// `Fr`'s `Display`, through `to_string`: a text that depends on the value
/// alone. Nothing more is claimed of it.
#[verifier::external_body]
pub(crate) fn fr_display(a: &FieldElement) -> (r: String)
    requires
        a.is_canonical(),
    ensures
        r@ == fr_display_text(a@),
{
    Fr::from_repr(BigInteger256([a.w0, a.w1, a.w2, a.w3])).unwrap().to_string()
}

/// `hex::encode`: two lower-case hexadecimal digits for each byte, in order.
#[verifier::external_body]
pub(crate) fn hex_encode(bytes: &[u8]) -> (r: String)
    ensures
        r@ == hex_chars(bytes@),
{
    hex::encode(bytes)
}

/// The error of `hex::decode`.
#[verifier::external_type_specification]
#[verifier::external_body]
pub struct ExFromHexError(hex::FromHexError);

/// `hex::decode`: one byte for each pair of hexadecimal digits of either
/// case; an error where the count of digits is odd or a character is no
/// hexadecimal digit.
#[verifier::external_body]
pub(crate) fn hex_decode(s: &str) -> (r: Result<Vec<u8>, hex::FromHexError>)
    ensures
        r is Ok <==> (s@.len() % 2 == 0 && is_hex(s@)),
        r is Ok ==> r->Ok_0@ == hex_bytes(s@),
{
    hex::decode(s)
}

/// `BigInt::parse_bytes` in radix 16, then `to_str_radix` in radix 10: the
/// canonical decimal numeral of the number that the hexadecimal digits
/// denote.
#[verifier::external_body]
pub(crate) fn hex_digits_to_decimal(digits: &str) -> (r: String)
    requires
        digits@.len() > 0,
        is_hex(digits@),
    ensures
        r@ == decimal_digits(hex_value(digits@)),
{
    BigInt::parse_bytes(digits.as_bytes(), 16).unwrap().to_str_radix(10)
}

/// `BigUint::from_bytes_be`, then `to_str_radix` in radix 10: the canonical
/// decimal numeral of the number that big-endian bytes denote.
#[verifier::external_body]
pub(crate) fn bytes_to_decimal(bytes: &[u8]) -> (r: String)
    ensures
        r@ == decimal_digits(be_value(bytes@)),
{
    BigUint::from_bytes_be(bytes).to_str_radix(10)
}

} // verus!
