//! Elements of the BN254 scalar field in canonical form.
//!
//! An element is held as the integer below the order of the field that
//! stands for it. The arithmetic of the field, the parsing of decimal text
//! and the conversions between radixes are done by `ark_ff`, `hex` and
//! `num_bigint`; what this module adds is the bit-level view of an element:
//! its bits and bytes, masks, truncations and bitwise operators.

use crate::radix::{
    be_bits, be_bytes, be_value, bit_length, bits_value, lemma_be_bits_of_mod,
    lemma_be_bytes_of_be_value, lemma_be_value_of_be_bytes, lemma_be_value_of_pack_bits,
    lemma_bit_at_lower_bound, lemma_bit_length_bounds, lemma_bit_length_from_bits,
    lemma_bits_value_bound, lemma_bits_value_first, lemma_bits_value_of_be_bits,
    lemma_leading_zeros_bound, lemma_pack_reversed_groups, lemma_pow2_step, low_bits_kept,
    pack_bits, pack_bits_low_first, reverse_groups,
};
use crate::text::{
    contains_char, dec_value, decimal_digits, hex_chars, hex_value, is_decimal, is_hex_literal,
    is_hex_literal_str, lemma_dec_value_of_decimal_digits,
    lemma_decimal_digits_is_decimal, lemma_decimal_digits_of_dec_value,
    lemma_hex_bytes_of_hex_chars, lemma_hex_chars_is_hex, lemma_hex_value_of_hex_chars,
    strip_0x, strip_hex_prefix,
};
use self::outside::{
    bytes_to_decimal, fr_add, fr_display, fr_from_be_bytes_mod_order, fr_from_str, fr_inverse,
    fr_mul, fr_neg, fr_sub, hex_decode, hex_digits_to_decimal, hex_encode, limb_bits,
};
use vstd::arithmetic::div_mod::*;
use vstd::arithmetic::mul::*;
use vstd::arithmetic::power2::*;
use vstd::prelude::*;
use vstd::string::*;

mod outside;

verus! {

/// The order of the field.
pub open spec fn modulus() -> nat {
    21888242871839275222246405745257275088548364400416034343698204186575808495617nat
}

/// The number held by four 64-bit limbs, least significant first.
pub open spec fn limbs_value(w0: u64, w1: u64, w2: u64, w3: u64) -> nat {
    (w0 as nat) + (w1 as nat) * 0x1_0000_0000_0000_0000nat + (w2 as nat)
        * 0x1_0000_0000_0000_0000_0000_0000_0000_0000nat + (w3 as nat)
        * 0x1_0000_0000_0000_0000_0000_0000_0000_0000_0000_0000_0000_0000nat
}

/// The text that `Fr`'s `Display` writes for the element of value `v`.
pub uninterp spec fn fr_display_text(v: nat) -> Seq<char>;

/// The inverse of `a` in the field, and 0 where `a` has none.
pub open spec fn field_inverse(a: nat) -> nat {
    if exists|x: nat| is_inverse(a, x) {
        choose|x: nat| is_inverse(a, x)
    } else {
        0
    }
}

/// `x` is below the order, and its product with `a` is one in the field.
pub open spec fn is_inverse(a: nat, x: nat) -> bool {
    x < modulus() && (a * x) % modulus() == 1
}

/// The bits of `a` and of `b`, position by position: both set.
pub open spec fn bits_and(a: Seq<bool>, b: Seq<bool>) -> Seq<bool> {
    Seq::new(a.len(), |i: int| a[i] && b[i])
}

/// The bits of `a` and of `b`, position by position: exactly one set.
pub open spec fn bits_xor(a: Seq<bool>, b: Seq<bool>) -> Seq<bool> {
    Seq::new(a.len(), |i: int| a[i] != b[i])
}

/// Bitwise AND of the low `n` bits of `a` and of `b`, in a 256-bit container.
pub open spec fn masked_and(a: nat, b: nat, n: nat) -> nat {
    bits_value(bits_and(be_bits(a % pow2(n), 256), be_bits(b % pow2(n), 256)))
}

/// Bitwise XOR of the low `n` bits of `a` and of `b`, in a 256-bit container.
pub open spec fn masked_xor(a: nat, b: nat, n: nat) -> nat {
    bits_value(bits_xor(be_bits(a % pow2(n), 256), be_bits(b % pow2(n), 256)))
}

/// What a hexadecimal literal denotes, where it is one and its value is in
/// the field.
pub open spec fn hex_literal_value(s: Seq<char>) -> Option<nat> {
    if is_hex_literal(s) && hex_value(strip_0x(s)) < modulus() {
        Some(hex_value(strip_0x(s)))
    } else {
        None
    }
}

/// What a decimal numeral denotes, where it is canonical and its value is in
/// the field.
pub open spec fn decimal_literal_value(s: Seq<char>) -> Option<nat> {
    if is_decimal(s) && dec_value(s) < modulus() {
        Some(dec_value(s))
    } else {
        None
    }
}

/// What a numeric literal denotes: text with an `x` in it is read as
/// hexadecimal, any other as decimal.
pub open spec fn literal_value(s: Seq<char>) -> Option<nat> {
    if s.contains('x') {
        hex_literal_value(s)
    } else {
        decimal_literal_value(s)
    }
}

/// A number as the value of an element, where it is below the order.
pub open spec fn in_field(v: nat) -> Option<nat> {
    if v < modulus() {
        Some(v)
    } else {
        None
    }
}

/// The value of an element that may be absent.
pub open spec fn value_of(r: Option<FieldElement>) -> Option<nat> {
    match r {
        Some(f) => Some(f@),
        None => None,
    }
}

/// The value of an integer in the field: itself where it is not negative,
/// else the order minus its magnitude.
pub open spec fn signed_value(a: int) -> nat {
    (a % (modulus() as int)) as nat
}

/// One element of the field, held as the canonical integer below the order.
///
/// Two elements are equal exactly when their values are. The limbs are
/// declared most significant first, so that the derived total order compares
/// the values, as the comparison operators do.
#[derive(Clone, Copy, Debug, PartialEq, Eq, Structural, Ord, Hash)]
pub struct FieldElement {
    w3: u64,
    w2: u64,
    w1: u64,
    w0: u64,
}

impl View for FieldElement {
    type V = nat;

    closed spec fn view(&self) -> nat {
        limbs_value(self.w0, self.w1, self.w2, self.w3)
    }
}

/// The powers of two that bound the limbs, the container and the order.
pub proof fn lemma_pow2_values()
    ensures
        pow2(8) == 0x100,
        pow2(64) == 0x1_0000_0000_0000_0000nat,
        pow2(128) == 0x1_0000_0000_0000_0000_0000_0000_0000_0000nat,
        pow2(192) == 0x1_0000_0000_0000_0000_0000_0000_0000_0000_0000_0000_0000_0000nat,
        pow2(253) == 0x2000_0000_0000_0000_0000_0000_0000_0000_0000_0000_0000_0000_0000_0000_0000_0000nat,
        pow2(254) == 0x4000_0000_0000_0000_0000_0000_0000_0000_0000_0000_0000_0000_0000_0000_0000_0000nat,
        pow2(256)
            == 0x1_0000_0000_0000_0000_0000_0000_0000_0000_0000_0000_0000_0000_0000_0000_0000_0000nat,
        pow2(253) < modulus() < pow2(254),
{
    lemma2_to64();
    lemma2_to64_rest();
    lemma_pow2_adds(64, 64);
    lemma_pow2_adds(128, 64);
    lemma_pow2_adds(192, 64);
    lemma_pow2_adds(192, 62);
    lemma_pow2_adds(192, 61);
}

impl FieldElement {
    /// Canonical form: the value is below the order of the field.
    #[verifier::type_invariant]
    pub open spec fn is_canonical(self) -> bool {
        self@ < modulus()
    }

    /// The element whose limbs spell `v`.
    pub closed spec fn from_value(v: nat) -> FieldElement {
        FieldElement {
            w3: ((v / 0x1_0000_0000_0000_0000_0000_0000_0000_0000_0000_0000_0000_0000nat)
                % 0x1_0000_0000_0000_0000nat) as u64,
            w2: ((v / 0x1_0000_0000_0000_0000_0000_0000_0000_0000nat)
                % 0x1_0000_0000_0000_0000nat) as u64,
            w1: ((v / 0x1_0000_0000_0000_0000nat) % 0x1_0000_0000_0000_0000nat) as u64,
            w0: (v % 0x1_0000_0000_0000_0000nat) as u64,
        }
    }

    /// An element is determined by its value.
    pub proof fn lemma_from_value_of_view(self)
        ensures
            FieldElement::from_value(self@) == self,
    {
        let b = 0x1_0000_0000_0000_0000int;
        let v = self@ as int;
        let r2 = self.w2 as int + b * (self.w3 as int);
        let r1 = self.w1 as int + b * r2;
        lemma_fundamental_div_mod_converse(v, b, r1, self.w0 as int);
        lemma_fundamental_div_mod_converse(r1, b, r2, self.w1 as int);
        lemma_fundamental_div_mod_converse(r2, b, self.w3 as int, self.w2 as int);
        lemma_div_denominator(v, b, b);
        lemma_div_denominator(v, b * b, b);
        lemma_small_mod(self.w3 as nat, b as nat);
    }

    /// Every value below the order is the value of one element, which is
    /// canonical.
    pub proof fn lemma_view_of_from_value(v: nat)
        requires
            v < modulus(),
        ensures
            FieldElement::from_value(v)@ == v,
            FieldElement::from_value(v).is_canonical(),
    {
        let b = 0x1_0000_0000_0000_0000int;
        let x = v as int;
        lemma_fundamental_div_mod(x, b);
        lemma_fundamental_div_mod(x / b, b);
        lemma_fundamental_div_mod(x / b / b, b);
        lemma_div_denominator(x, b, b);
        lemma_div_denominator(x, b * b, b);
        lemma_small_mod((x / b / b / b) as nat, b as nat);
    }

    /// Two elements of one value are the same element.
    pub proof fn lemma_same_value(self, other: FieldElement)
        requires
            self@ == other@,
        ensures
            self == other,
    {
        self.lemma_from_value_of_view();
        other.lemma_from_value_of_view();
    }

    /// The additive identity.
    pub fn zero() -> (r: FieldElement)
        ensures
            r@ == 0,
    {
        FieldElement { w3: 0, w2: 0, w1: 0, w0: 0 }
    }

    /// The multiplicative identity.
    pub fn one() -> (r: FieldElement)
        ensures
            r@ == 1,
    {
        FieldElement { w3: 0, w2: 0, w1: 0, w0: 1 }
    }

    /// The number of bits that suffice for every element: the bit length of
    /// the order.
    pub fn max_num_bits() -> (r: u32)
        ensures
            r == 254,
    {
        254
    }

    /// Whether this is the additive identity.
    pub fn is_zero(&self) -> (r: bool)
        ensures
            r == (self@ == 0),
    {
        self.w0 == 0 && self.w1 == 0 && self.w2 == 0 && self.w3 == 0
    }

    /// Whether this is the multiplicative identity.
    pub fn is_one(&self) -> (r: bool)
        ensures
            r == (self@ == 1),
    {
        self.w0 == 1 && self.w1 == 0 && self.w2 == 0 && self.w3 == 0
    }

    /// The low 128 bits of the value.
    pub fn to_u128(&self) -> (r: u128)
        ensures
            r == self@ % pow2(128),
    {
        proof {
            lemma_pow2_values();
        }
        (self.w1 as u128) * 0x1_0000_0000_0000_0000u128 + (self.w0 as u128)
    }

    /// The element of value `v`.
    fn from_u128(v: u128) -> (r: FieldElement)
        ensures
            r@ == v,
    {
        FieldElement {
            w3: 0,
            w2: 0,
            w1: (v / 0x1_0000_0000_0000_0000u128) as u64,
            w0: (v % 0x1_0000_0000_0000_0000u128) as u64,
        }
    }
}

impl FieldElement {
    /// What a numeric literal denotes; `None` where the text is neither a
    /// canonical decimal numeral nor a hexadecimal literal, or denotes a number
    /// that is not below the order.
    pub fn try_from_str(input: &str) -> (r: Option<FieldElement>)
        ensures
            value_of(r) == literal_value(input@),
    {
        if contains_char(input, 'x') {
            return FieldElement::from_hex(input);
        }
        FieldElement::from_decimal(input)
    }

    /// What a decimal numeral denotes. The numeral is read by the field's
    /// own parser, which reduces; it is canonical and in range exactly when
    /// writing the result out again gives the same text.
    fn from_decimal(input: &str) -> (r: Option<FieldElement>)
        ensures
            value_of(r) == decimal_literal_value(input@),
    {
        match fr_from_str(input) {
            None => None,
            Some(element) => {
                let bytes = pack_big_endian(element.bits());
                let written = bytes_to_decimal(bytes.as_slice());
                let given = input.to_owned();
                proof {
                    use_type_invariant(&element);
                    element.lemma_bits_are_bytes();
                    lemma_be_value_of_be_bytes(element@, 32);
                    lemma_pow2_values();
                    lemma_small_mod(element@, pow2(256));
                    lemma_dec_value_of_decimal_digits(element@);
                    if dec_value(input@) < modulus() {
                        lemma_small_mod(dec_value(input@), modulus());
                        lemma_decimal_digits_of_dec_value(input@);
                    }
                }
                if written == given {
                    Some(element)
                } else {
                    None
                }
            },
        }
    }

    /// The bits of a canonical element, packed, are its 32 big-endian bytes.
    proof fn lemma_bits_are_bytes(self)
        requires
            self.is_canonical(),
        ensures
            pack_bits(be_bits(self@, 256)) == be_bytes(self@, 32),
            be_value(be_bytes(self@, 32)) == self@,
    {
        let bits = be_bits(self@, 256);
        lemma_pow2_values();
        lemma_be_value_of_pack_bits(bits);
        lemma_bits_value_of_be_bits(self@, 256);
        lemma_small_mod(self@, pow2(256));
        lemma_be_bytes_of_be_value(pack_bits(bits));
    }

    /// The number of bits that make up the container of an element beyond
    /// those that an element can need.
    fn wasted_bits() -> (r: u32)
        ensures
            r == 2,
    {
        let vec = FieldElement::one().bits();
        let num_bits_used = vec.len() as u32;
        let num_bits_needed = FieldElement::max_num_bits();
        num_bits_used - num_bits_needed
    }

    /// The text that the field's own formatter writes for this element.
    pub fn debug_str(&self) -> (r: String)
        ensures
            r@ == fr_display_text(self@),
    {
        proof {
            use_type_invariant(self);
        }
        fr_display(self)
    }

    /// The number of bits that this element needs: 0 for zero, else the
    /// position of its highest set bit, counted from 1.
    pub fn num_bits(&self) -> (r: u32)
        ensures
            r == bit_length(self@),
            r <= 254,
    {
        let bits = self.bits();
        let mut index: usize = 0;
        proof {
            use_type_invariant(self);
            lemma_pow2_values();
        }
        while index < bits.len() && !bits[index]
            invariant
                bits@ == be_bits(self@, 256),
                index <= 256,
                forall|i: int| 0 <= i < index ==> !bits@[i],
            decreases 256 - index,
        {
            index += 1;
        }
        if index == bits.len() {
            proof {
                lemma_leading_zeros_bound(self@, 256, 256);
                lemma2_to64();
                assert(bit_length(0) == 0);
            }
            0
        } else {
            proof {
                lemma_bit_length_from_bits(self@, 256, index as nat);
                if index < 2 {
                    lemma_bit_at_lower_bound(self@, (255 - index) as nat);
                    if index == 0 {
                        lemma_pow2_strictly_increases(254, 255);
                    }
                }
            }
            // The most significant bit was found at `index`: that many
            // bits came before it, the wasted ones among them.
            let offset = FieldElement::wasted_bits();
            let msb_index_offset = (index as u32) - offset;
            FieldElement::max_num_bits() - msb_index_offset
        }
    }

    /// Whether the value is below `2^128`.
    pub fn fits_in_u128(&self) -> (r: bool)
        ensures
            r == (bit_length(self@) <= 128),
            r == (self@ < pow2(128)),
    {
        proof {
            lemma_bit_length_bounds(self@);
            if bit_length(self@) < 128 {
                lemma_pow2_strictly_increases(bit_length(self@), 128);
            }
            if bit_length(self@) > 128 {
                if bit_length(self@) - 1 > 128 {
                    lemma_pow2_strictly_increases(128, (bit_length(self@) - 1) as nat);
                }
            }
        }
        self.num_bits() <= 128
    }

    /// The inverse in the field; zero for zero, which has none.
    pub fn inverse(&self) -> (r: FieldElement)
        ensures
            r@ == field_inverse(self@),
            self@ == 0 ==> r@ == 0,
            self@ != 0 ==> (self@ * r@) % modulus() == 1,
    {
        proof {
            use_type_invariant(self);
        }
        let inv = fr_inverse(self);
        proof {
            match inv {
                Some(x) => {
                    use_type_invariant(&x);
                    lemma_inverse_unique(self@, x@, field_inverse(self@));
                },
                None => {
                    lemma_zero_has_no_inverse();
                },
            }
        }
        inv.unwrap_or(FieldElement::zero())
    }

    /// The 32 big-endian bytes of the value, as 64 lower-case hexadecimal
    /// digits.
    pub fn to_hex(&self) -> (r: String)
        ensures
            r@ == hex_chars(be_bytes(self@, 32)),
    {
        let bytes = pack_big_endian(self.bits());
        proof {
            use_type_invariant(self);
            self.lemma_bits_are_bytes();
        }
        hex_encode(bytes.as_slice())
    }

    /// What a hexadecimal literal denotes; `None` where the text is no such
    /// literal or denotes a number that is not below the order.
    pub fn from_hex(hex_str: &str) -> (r: Option<FieldElement>)
        ensures
            value_of(r) == hex_literal_value(hex_str@),
    {
        if !is_hex_literal_str(hex_str) {
            return None;
        }
        let dec_str = hex_to_decimal(hex_str);
        proof {
            let v = hex_value(strip_0x(hex_str@));
            lemma_decimal_digits_is_decimal(v);
            lemma_dec_value_of_decimal_digits(v);
        }
        FieldElement::from_decimal(dec_str.as_str())
    }

    /// The canonical encoding: 32 bytes, most significant first.
    pub fn to_bytes(&self) -> (r: [u8; 32])
        ensures
            r@ == be_bytes(self@, 32),
    {
        let hex_str = self.to_hex();
        proof {
            lemma_hex_chars_is_hex(be_bytes(self@, 32));
            lemma_hex_bytes_of_hex_chars(be_bytes(self@, 32));
        }
        let decoded = hex_decode(hex_str.as_str()).unwrap();
        let mut out = [0u8; 32];
        let mut i: usize = 0;
        while i < 32
            invariant
                i <= 32,
                decoded@ == be_bytes(self@, 32),
                forall|j: int| 0 <= j < i ==> out@[j] == decoded@[j],
            decreases 32 - i,
        {
            out[i] = decoded[i];
            i += 1;
        }
        assert(out@ =~= decoded@);
        out
    }

    /// The element that big-endian bytes denote. The bytes must denote a
    /// number below the order: nothing is reduced here.
    pub fn from_bytes(bytes: &[u8]) -> (r: FieldElement)
        requires
            bytes@.len() > 0,
            be_value(bytes@) < modulus(),
        ensures
            r@ == be_value(bytes@),
    {
        let hex_str = hex_encode(bytes);
        proof {
            lemma_hex_chars_is_hex(bytes@);
            lemma_hex_value_of_hex_chars(bytes@);
        }
        FieldElement::from_hex(hex_str.as_str()).unwrap()
    }

    /// The element that big-endian bytes denote; `None` where there are no
    /// bytes, or they denote a number that is not below the order.
    pub fn try_from_bytes(bytes: &[u8]) -> (r: Option<FieldElement>)
        ensures
            value_of(r) == if bytes@.len() > 0 && be_value(bytes@) < modulus() {
                Some(be_value(bytes@))
            } else {
                None
            },
    {
        let hex_str = hex_encode(bytes);
        proof {
            lemma_hex_chars_is_hex(bytes@);
            lemma_hex_value_of_hex_chars(bytes@);
        }
        FieldElement::from_hex(hex_str.as_str())
    }

    /// Whether the value is less than the value of `other`.
    pub fn is_less_than(&self, other: &FieldElement) -> (r: bool)
        ensures
            r == (self@ < other@),
    {
        if self.w3 != other.w3 {
            self.w3 < other.w3
        } else if self.w2 != other.w2 {
            self.w2 < other.w2
        } else if self.w1 != other.w1 {
            self.w1 < other.w1
        } else {
            self.w0 < other.w0
        }
    }

    /// The element that big-endian bytes denote, reduced modulo the order.
    pub fn from_bytes_reduce(bytes: &[u8]) -> (r: FieldElement)
        ensures
            r@ == be_value(bytes@) % modulus(),
    {
        fr_from_be_bytes_mod_order(bytes)
    }

    /// The element with all bits above the low `num_bits` cleared.
    pub fn mask_to_field(&self, num_bits: u32) -> (r: FieldElement)
        requires
            num_bits <= 256,
        ensures
            r@ == self@ % pow2(num_bits as nat),
    {
        let bit_iter = self.mask_to_bits(num_bits);
        let byte_arr = pack_big_endian(bit_iter);
        proof {
            use_type_invariant(self);
            self.lemma_masked_bytes(num_bits as nat);
        }
        FieldElement::from_bytes(byte_arr.as_slice())
    }

    /// The 32 big-endian bytes of the element with all bits above the low
    /// `num_bits` cleared.
    pub fn mask_to_bytes(&self, num_bits: u32) -> (r: Vec<u8>)
        requires
            num_bits <= 256,
        ensures
            r@ == be_bytes(self@ % pow2(num_bits as nat), 32),
    {
        let bit_iter = self.mask_to_bits(num_bits);
        proof {
            use_type_invariant(self);
            self.lemma_masked_bytes(num_bits as nat);
        }
        pack_big_endian(bit_iter)
    }

    /// What packing the masked bits gives.
    proof fn lemma_masked_bytes(self, n: nat)
        requires
            self.is_canonical(),
        ensures
            self@ % pow2(n) <= self@,
            pack_bits(be_bits(self@ % pow2(n), 256)) == be_bytes(self@ % pow2(n), 32),
            be_value(be_bytes(self@ % pow2(n), 32)) == self@ % pow2(n),
            be_bytes(self@ % pow2(n), 32).len() == 32,
    {
        lemma_pow2_pos(n);
        lemma_mod_decreases(self@, pow2(n));
        let m = self@ % pow2(n);
        FieldElement::lemma_view_of_from_value(m);
        FieldElement::from_value(m).lemma_bits_are_bytes();
    }

    /// The 256 bits of the container, most significant first.
    pub fn bits(&self) -> (r: Vec<bool>)
        ensures
            r@ == be_bits(self@, 256),
    {
        limb_bits(self)
    }

    /// The 256 bits with all above the low `num_bits` cleared.
    fn mask_to_bits(&self, num_bits: u32) -> (r: Vec<bool>)
        requires
            num_bits <= 256,
        ensures
            r@ == be_bits(self@ % pow2(num_bits as nat), 256),
    {
        let max_bits = FieldElement::max_num_bits() + FieldElement::wasted_bits();
        let bits = self.bits();
        let mut bit_iter: Vec<bool> = Vec::new();
        let mut i: usize = 0;
        proof {
            lemma_be_bits_of_mod(self@, num_bits as nat, 256);
        }
        while i < bits.len()
            invariant
                max_bits == 256,
                num_bits <= 256,
                bits@.len() == 256,
                i <= 256,
                bit_iter@.len() == i,
                forall|j: int| 0 <= j < i ==> bit_iter@[j] == low_bits_kept(bits@, num_bits as nat)[j],
            decreases 256 - i,
        {
            if i < (max_bits - num_bits) as usize {
                bit_iter.push(false);
            } else {
                bit_iter.push(bits[i]);
            }
            i += 1;
        }
        assert(bit_iter@ =~= low_bits_kept(bits@, num_bits as nat));
        bit_iter
    }

    /// The low `num_bits` bits, most significant first.
    fn truncate_to_bits(&self, num_bits: u32) -> (r: Vec<bool>)
        requires
            num_bits <= 256,
        ensures
            r@ == be_bits(self@, num_bits as nat),
    {
        let max_bits = FieldElement::max_num_bits() + FieldElement::wasted_bits();
        let bits = self.bits();
        let mut bit_iter: Vec<bool> = Vec::new();
        let skipped = (max_bits - num_bits) as usize;
        let mut i: usize = skipped;
        while i < bits.len()
            invariant
                skipped == 256 - num_bits,
                num_bits <= 256,
                bits@ == be_bits(self@, 256),
                skipped <= i <= 256,
                bit_iter@.len() == i - skipped,
                forall|j: int|
                    0 <= j < i - skipped ==> bit_iter@[j] == be_bits(self@, num_bits as nat)[j],
            decreases 256 - i,
        {
            bit_iter.push(bits[i]);
            i += 1;
        }
        assert(bit_iter@ =~= be_bits(self@, num_bits as nat));
        bit_iter
    }

    /// The low `num_bits / 8` bytes, most significant first. The count of
    /// bits must be a whole number of bytes.
    pub fn truncate_to_bytes(&self, num_bits: u32) -> (r: Vec<u8>)
        requires
            num_bits <= 256,
            num_bits % 8 == 0,
        ensures
            r@ == be_bytes(self@, (num_bits / 8) as nat),
    {
        let bit_iter = self.truncate_to_bits(num_bits);
        proof {
            let n = num_bits as nat;
            let bits = be_bits(self@, n);
            lemma_be_value_of_pack_bits(bits);
            lemma_bits_value_of_be_bits(self@, n);
            lemma_be_bytes_of_be_value(pack_bits(bits));
            lemma_be_value_of_be_bytes(self@, n / 8);
            lemma_be_bytes_of_be_value(be_bytes(self@, n / 8));
        }
        pack_big_endian(bit_iter)
    }

    /// The leading bytes of the canonical encoding: as many as hold
    /// `num_bits` bits, rounded up to whole bytes.
    pub fn fetch_nearest_bytes(&self, num_bits: usize) -> (r: Vec<u8>)
        requires
            num_bits <= 256,
        ensures
            r@ == be_bytes(self@, 32).subrange(0, (num_bits + 7) / 8),
    {
        let num_bytes = ((num_bits + 7) / 8) * 8;
        let num_elements = num_bytes / 8;
        let bytes = self.to_bytes();
        let mut out: Vec<u8> = Vec::new();
        let mut i: usize = 0;
        while i < num_elements
            invariant
                num_elements == (num_bits + 7) / 8,
                num_elements <= 32,
                i <= num_elements,
                bytes@ == be_bytes(self@, 32),
                out@ == bytes@.subrange(0, i as int),
            decreases num_elements - i,
        {
            out.push(bytes[i]);
            assert(bytes@.subrange(0, i as int).push(bytes@[i as int]) =~= bytes@.subrange(
                0,
                i + 1,
            ));
            i += 1;
        }
        out
    }

    /// Both operands masked to `num_bits`, their bits combined position by
    /// position, and the result read as an element; `None` where the result
    /// is not below the order.
    fn and_xor(&self, rhs: &FieldElement, num_bits: u32, is_xor: bool) -> (r: Option<FieldElement>)
        requires
            num_bits <= 256,
        ensures
            is_xor ==> value_of(r) == in_field(masked_xor(self@, rhs@, num_bits as nat)),
            !is_xor ==> value_of(r) == Some(masked_and(self@, rhs@, num_bits as nat)),
    {
        let lhs = self.mask_to_field(num_bits);
        let lhs_bits = lhs.bits();
        let rhs = rhs.mask_to_field(num_bits);
        let rhs_bits = rhs.bits();
        let mut and_iter: Vec<bool> = Vec::new();
        let mut i: usize = 0;
        while i < lhs_bits.len()
            invariant
                lhs_bits@.len() == 256,
                rhs_bits@.len() == 256,
                i <= 256,
                and_iter@.len() == i,
                forall|j: int|
                    0 <= j < i ==> and_iter@[j] == if is_xor {
                        lhs_bits@[j] != rhs_bits@[j]
                    } else {
                        lhs_bits@[j] && rhs_bits@[j]
                    },
            decreases 256 - i,
        {
            let bit_a = lhs_bits[i];
            let bit_b = rhs_bits[i];
            and_iter.push(
                if is_xor {
                    bit_a != bit_b
                } else {
                    bit_a && bit_b
                },
            );
            i += 1;
        }
        let byte_arr = pack_big_endian(and_iter);
        proof {
            use_type_invariant(&lhs);
            if is_xor {
                assert(and_iter@ =~= bits_xor(lhs_bits@, rhs_bits@));
            } else {
                assert(and_iter@ =~= bits_and(lhs_bits@, rhs_bits@));
                lemma_bits_and_below(lhs_bits@, rhs_bits@);
                lemma_bits_value_of_be_bits(lhs@, 256);
                lemma_pow2_values();
                lemma_small_mod(lhs@, pow2(256));
            }
            lemma_be_value_of_pack_bits(and_iter@);
        }
        FieldElement::try_from_bytes(byte_arr.as_slice())
    }

    /// Bitwise AND of the low `num_bits` bits of the two values.
    pub fn and(&self, rhs: &FieldElement, num_bits: u32) -> (r: FieldElement)
        requires
            num_bits <= 256,
        ensures
            r@ == masked_and(self@, rhs@, num_bits as nat),
    {
        self.and_xor(rhs, num_bits, false).unwrap()
    }

    /// Bitwise XOR of the low `num_bits` bits of the two values. The result
    /// must be below the order, as it is for every `num_bits` up to 253.
    pub fn xor(&self, rhs: &FieldElement, num_bits: u32) -> (r: FieldElement)
        requires
            num_bits <= 256,
            masked_xor(self@, rhs@, num_bits as nat) < modulus(),
        ensures
            r@ == masked_xor(self@, rhs@, num_bits as nat),
    {
        self.and_xor(rhs, num_bits, true).unwrap()
    }

    /// Bitwise XOR of the low `num_bits` bits of the two values; `None`
    /// where the result is not below the order.
    pub fn checked_xor(&self, rhs: &FieldElement, num_bits: u32) -> (r: Option<FieldElement>)
        requires
            num_bits <= 256,
        ensures
            value_of(r) == in_field(masked_xor(self@, rhs@, num_bits as nat)),
    {
        self.and_xor(rhs, num_bits, true)
    }
}

/// The AND of two bit sequences denotes no more than the first of them.
pub proof fn lemma_bits_and_below(a: Seq<bool>, b: Seq<bool>)
    requires
        a.len() == b.len(),
    ensures
        bits_value(bits_and(a, b)) <= bits_value(a),
    decreases a.len(),
{
    if a.len() > 0 {
        assert(bits_and(a, b).drop_last() =~= bits_and(a.drop_last(), b.drop_last()));
        lemma_bits_and_below(a.drop_last(), b.drop_last());
    }
}

/// A number has at most one inverse below the modulus.
pub proof fn lemma_inverse_unique(a: nat, x: nat, y: nat)
    requires
        x < modulus(),
        (a * x) % modulus() == 1,
        y == field_inverse(a),
    ensures
        x == y,
{
    let m = modulus() as int;
    assert(is_inverse(a, x));
    assert(is_inverse(a, y));
    // x == x * (a * y) == (x * a) * y == y, all modulo m
    lemma_mul_mod_noop_right(x as int, (a * y) as int, m);
    lemma_mul_mod_noop_right(y as int, (a * x) as int, m);
    assert(x * (a * y) == y * (a * x)) by (nonlinear_arith);
    lemma_small_mod(x, modulus());
    lemma_small_mod(y, modulus());
    assert(((x * 1) as int) % m == x);
    assert(((y * 1) as int) % m == y);
}

/// Zero has no inverse.
pub proof fn lemma_zero_has_no_inverse()
    ensures
        field_inverse(0) == 0,
{
    assert forall|x: nat| !is_inverse(0, x) by {
        assert(0 * x == 0) by (nonlinear_arith);
    }
}

/// Bits taken eight at a time, each group packed into one byte, least
/// significant bit first: the first bit of a group becomes the lowest bit of
/// its byte. The count of bits must be a whole number of bytes.
pub fn pack_bits_into_bytes(bits: Vec<bool>) -> (r: Vec<u8>)
    requires
        bits@.len() % 8 == 0,
    ensures
        r@ == pack_bits_low_first(bits@),
{
    let mut message_bytes: Vec<u8> = Vec::new();
    let total = bits.len();
    let mut start: usize = 0;
    while start < total
        invariant
            total == bits@.len(),
            total % 8 == 0,
            start % 8 == 0,
            start <= total,
            message_bytes@.len() == start / 8,
            forall|j: int|
                0 <= j < start / 8 ==> message_bytes@[j] == bits_value(
                    bits@.subrange(8 * j, 8 * j + 8).reverse(),
                ) as u8,
        decreases total - start,
    {
        let mut byte: u8 = 0;
        let mut weight: u16 = 1;
        let mut i: usize = 0;
        proof {
            lemma2_to64();
            assert(bits@.subrange(start as int, start as int).reverse() =~= Seq::<bool>::empty());
        }
        while i < 8
            invariant
                i <= 8,
                start + 8 <= total,
                total == bits@.len(),
                weight == pow2(i as nat),
                byte as nat == bits_value(bits@.subrange(start as int, start + i).reverse()),
            decreases 8 - i,
        {
            proof {
                let chunk = bits@.subrange(start as int, start + i).reverse();
                let next = bits@.subrange(start as int, start + i + 1).reverse();
                assert(next =~= seq![bits@[start + i]] + chunk);
                lemma_bits_value_first(bits@[start + i], chunk);
                lemma_bits_value_bound(chunk);
                lemma_pow2_step(i as nat);
                lemma2_to64();
                if i + 1 < 8 {
                    lemma_pow2_strictly_increases((i + 1) as nat, 8);
                }
            }
            if bits[start + i] {
                byte = byte + (weight as u8);
            }
            weight = weight * 2;
            i += 1;
        }
        message_bytes.push(byte);
        start += 8;
    }
    assert(message_bytes@ =~= pack_bits_low_first(bits@));
    message_bytes
}

/// The bits with each group of eight turned end for end. The count of bits
/// must be a whole number of groups.
fn reverse_each_group(bits: Vec<bool>) -> (r: Vec<bool>)
    requires
        bits@.len() % 8 == 0,
    ensures
        r@ == reverse_groups(bits@),
{
    let mut turned: Vec<bool> = Vec::new();
    let total = bits.len();
    let mut i: usize = 0;
    while i < total
        invariant
            total == bits@.len(),
            total % 8 == 0,
            i <= total,
            turned@.len() == i,
            forall|k: int| 0 <= k < i ==> turned@[k] == bits@[8 * (k / 8) + 7 - k % 8],
        decreases total - i,
    {
        turned.push(bits[8 * (i / 8) + 7 - i % 8]);
        i += 1;
    }
    assert(turned@ =~= reverse_groups(bits@));
    turned
}

/// Bits taken eight at a time, each group packed into one byte, most
/// significant bit first, as the bytes of a big-endian number are written:
/// each group is turned end for end and then packed.
fn pack_big_endian(bits: Vec<bool>) -> (r: Vec<u8>)
    requires
        bits@.len() % 8 == 0,
    ensures
        r@ == pack_bits(bits@),
{
    proof {
        lemma_pack_reversed_groups(bits@);
    }
    pack_bits_into_bytes(reverse_each_group(bits))
}

/// The decimal numeral of the number that a hexadecimal literal denotes.
pub fn hex_to_decimal(value: &str) -> (r: String)
    requires
        is_hex_literal(value@),
    ensures
        r@ == decimal_digits(hex_value(strip_0x(value@))),
{
    let value = strip_hex_prefix(value);
    hex_digits_to_decimal(value)
}

impl From<i128> for FieldElement {
    /// The element that stands for a signed integer: itself where it is not
    /// negative, else the negation of its magnitude.
    fn from(a: i128) -> (r: FieldElement)
        ensures
            r@ == signed_value(a as int),
    {
        let magnitude: u128 = if a >= 0 {
            a as u128
        } else if a == i128::MIN {
            0x8000_0000_0000_0000_0000_0000_0000_0000u128
        } else {
            (-a) as u128
        };
        let positive = FieldElement::from_u128(magnitude);
        proof {
            use_type_invariant(&positive);
            lemma_pow2_values();
        }
        let r = if a >= 0 {
            positive
        } else {
            fr_neg(positive)
        };
        proof {
            r.lemma_from_value_of_view();
        }
        r
    }
}

impl vstd::std_specs::convert::FromSpecImpl<i128> for FieldElement {
    open spec fn obeys_from_spec() -> bool {
        true
    }

    open spec fn from_spec(a: i128) -> FieldElement {
        FieldElement::from_value(signed_value(a as int))
    }
}

impl core::ops::Neg for FieldElement {
    type Output = FieldElement;

    fn neg(self) -> (r: FieldElement)
        ensures
            r@ == signed_value(-(self@ as int)),
    {
        proof {
            use_type_invariant(&self);
        }
        let r = fr_neg(self);
        proof {
            r.lemma_from_value_of_view();
        }
        r
    }
}

impl vstd::std_specs::ops::NegSpecImpl for FieldElement {
    open spec fn obeys_neg_spec() -> bool {
        true
    }

    open spec fn neg_req(self) -> bool {
        true
    }

    open spec fn neg_spec(self) -> FieldElement {
        FieldElement::from_value(signed_value(-(self@ as int)))
    }
}

impl core::ops::Add for FieldElement {
    type Output = FieldElement;

    fn add(self, rhs: FieldElement) -> (r: FieldElement)
        ensures
            r@ == (self@ + rhs@) % modulus(),
    {
        proof {
            use_type_invariant(&self);
            use_type_invariant(&rhs);
        }
        let r = fr_add(self, rhs);
        proof {
            r.lemma_from_value_of_view();
        }
        r
    }
}

impl vstd::std_specs::ops::AddSpecImpl for FieldElement {
    open spec fn obeys_add_spec() -> bool {
        true
    }

    open spec fn add_req(self, rhs: FieldElement) -> bool {
        true
    }

    open spec fn add_spec(self, rhs: FieldElement) -> FieldElement {
        FieldElement::from_value((self@ + rhs@) % modulus())
    }
}

impl core::ops::Sub for FieldElement {
    type Output = FieldElement;

    fn sub(self, rhs: FieldElement) -> (r: FieldElement)
        ensures
            r@ == signed_value(self@ - rhs@),
    {
        proof {
            use_type_invariant(&self);
            use_type_invariant(&rhs);
        }
        let r = fr_sub(self, rhs);
        proof {
            r.lemma_from_value_of_view();
        }
        r
    }
}

impl vstd::std_specs::ops::SubSpecImpl for FieldElement {
    open spec fn obeys_sub_spec() -> bool {
        true
    }

    open spec fn sub_req(self, rhs: FieldElement) -> bool {
        true
    }

    open spec fn sub_spec(self, rhs: FieldElement) -> FieldElement {
        FieldElement::from_value(signed_value(self@ - rhs@))
    }
}

impl core::ops::Mul for FieldElement {
    type Output = FieldElement;

    fn mul(self, rhs: FieldElement) -> (r: FieldElement)
        ensures
            r@ == (self@ * rhs@) % modulus(),
    {
        proof {
            use_type_invariant(&self);
            use_type_invariant(&rhs);
        }
        let r = fr_mul(self, rhs);
        proof {
            r.lemma_from_value_of_view();
        }
        r
    }
}

impl vstd::std_specs::ops::MulSpecImpl for FieldElement {
    open spec fn obeys_mul_spec() -> bool {
        true
    }

    open spec fn mul_req(self, rhs: FieldElement) -> bool {
        true
    }

    open spec fn mul_spec(self, rhs: FieldElement) -> FieldElement {
        FieldElement::from_value((self@ * rhs@) % modulus())
    }
}

impl core::ops::Div for FieldElement {
    type Output = FieldElement;

    /// The product with the inverse of `rhs`; zero where `rhs` is zero.
    fn div(self, rhs: FieldElement) -> (r: FieldElement)
        ensures
            r@ == (self@ * field_inverse(rhs@)) % modulus(),
    {
        let inverse = rhs.inverse();
        proof {
            use_type_invariant(&self);
            use_type_invariant(&inverse);
        }
        let r = fr_mul(self, inverse);
        proof {
            r.lemma_from_value_of_view();
        }
        r
    }
}

impl vstd::std_specs::ops::DivSpecImpl for FieldElement {
    open spec fn obeys_div_spec() -> bool {
        true
    }

    open spec fn div_req(self, rhs: FieldElement) -> bool {
        true
    }

    open spec fn div_spec(self, rhs: FieldElement) -> FieldElement {
        FieldElement::from_value((self@ * field_inverse(rhs@)) % modulus())
    }
}

impl core::ops::AddAssign for FieldElement {
    fn add_assign(&mut self, rhs: FieldElement)
        ensures
            final(self)@ == (old(self)@ + rhs@) % modulus(),
    {
        proof {
            use_type_invariant(&*self);
            use_type_invariant(&rhs);
        }
        *self = fr_add(*self, rhs);
    }
}

impl core::ops::SubAssign for FieldElement {
    fn sub_assign(&mut self, rhs: FieldElement)
        ensures
            final(self)@ == signed_value(old(self)@ - rhs@),
    {
        proof {
            use_type_invariant(&*self);
            use_type_invariant(&rhs);
        }
        *self = fr_sub(*self, rhs);
    }
}

} // verus!
