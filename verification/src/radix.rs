//! Positional notation: natural numbers as big-endian sequences of bits and
//! of bytes, and the facts that relate the two to `/`, `%` and powers of two.

use vstd::arithmetic::div_mod::*;
use vstd::arithmetic::mul::*;
use vstd::arithmetic::power2::*;
use vstd::prelude::*;

verus! {

/// Bit `k` of `v`; bit 0 is the least significant.
pub open spec fn bit_at(v: nat, k: nat) -> bool {
    (v / pow2(k)) % 2 == 1
}

/// The `width` low bits of `v`, most significant first.
pub open spec fn be_bits(v: nat, width: nat) -> Seq<bool> {
    Seq::new(width, |i: int| bit_at(v, (width - 1 - i) as nat))
}

/// The number that a sequence of bits denotes, most significant first.
pub open spec fn bits_value(bits: Seq<bool>) -> nat
    decreases bits.len(),
{
    if bits.len() == 0 {
        0
    } else {
        2 * bits_value(bits.drop_last()) + if bits.last() {
            1nat
        } else {
            0nat
        }
    }
}

/// The number of bits needed to write `v`: 0 for 0, else the index of the
/// highest set bit plus one.
pub open spec fn bit_length(v: nat) -> nat
    decreases v,
{
    if v == 0 {
        0
    } else {
        1 + bit_length(v / 2)
    }
}

/// Byte `k` of `v`; byte 0 is the least significant.
pub open spec fn byte_at(v: nat, k: nat) -> u8 {
    ((v / pow2(8 * k)) % 256) as u8
}

/// The `len` low bytes of `v`, most significant first.
pub open spec fn be_bytes(v: nat, len: nat) -> Seq<u8> {
    Seq::new(len, |i: int| byte_at(v, (len - 1 - i) as nat))
}

/// The number that a sequence of bytes denotes, most significant first.
pub open spec fn be_value(bytes: Seq<u8>) -> nat
    decreases bytes.len(),
{
    if bytes.len() == 0 {
        0
    } else {
        256 * be_value(bytes.drop_last()) + bytes.last() as nat
    }
}

/// A sequence of bits with all but the last `n` of them cleared.
pub open spec fn low_bits_kept(bits: Seq<bool>, n: nat) -> Seq<bool> {
    Seq::new(bits.len(), |i: int| bits.len() - i <= n && bits[i])
}

/// The order of the dictionary on byte sequences of one length: at the first
/// place where the two differ, `a` has the smaller byte.
pub open spec fn lex_less(a: Seq<u8>, b: Seq<u8>) -> bool
    decreases a.len(),
{
    if a.len() == 0 || b.len() == 0 {
        false
    } else if a[0] != b[0] {
        a[0] < b[0]
    } else {
        lex_less(a.subrange(1, a.len() as int), b.subrange(1, b.len() as int))
    }
}

/// Bits taken eight at a time, each group read as one byte, most significant
/// bit first.
pub open spec fn pack_bits(bits: Seq<bool>) -> Seq<u8> {
    Seq::new(bits.len() / 8, |j: int| bits_value(bits.subrange(8 * j, 8 * j + 8)) as u8)
}

/// Bits taken eight at a time, each group read as one byte, least
/// significant bit first: the first bit of a group is the lowest bit of its
/// byte.
pub open spec fn pack_bits_low_first(bits: Seq<bool>) -> Seq<u8> {
    Seq::new(
        bits.len() / 8,
        |j: int| bits_value(bits.subrange(8 * j, 8 * j + 8).reverse()) as u8,
    )
}

/// The bits with each group of eight turned end for end.
pub open spec fn reverse_groups(bits: Seq<bool>) -> Seq<bool> {
    Seq::new(bits.len(), |i: int| bits[8 * (i / 8) + 7 - i % 8])
}

/// Each power of two is twice the one before, and none is zero.
pub proof fn lemma_pow2_step(k: nat)
    ensures
        pow2(k + 1) == 2 * pow2(k),
        pow2(k) > 0,
{
    lemma_pow2_unfold(k + 1);
    lemma_pow2_pos(k);
}

/// `v % 2^(k+1)` splits into the lowest bit and the rest.
pub proof fn lemma_mod_pow2_step(v: nat, k: nat)
    ensures
        v % pow2(k + 1) == 2 * ((v / 2) % pow2(k)) + v % 2,
        (v % pow2(k + 1)) / 2 == (v / 2) % pow2(k),
        (v % pow2(k + 1)) % 2 == v % 2,
{
    lemma_pow2_step(k);
    lemma_mod_breakdown(v as int, 2, pow2(k) as int);
}

/// Halving a number moves each of its bits one place down.
pub proof fn lemma_bit_at_half(v: nat, k: nat)
    ensures
        bit_at(v, k + 1) == bit_at(v / 2, k),
{
    lemma_pow2_step(k);
    lemma_div_denominator(v as int, 2, pow2(k) as int);
}

/// The lowest bit of a number says whether it is odd.
pub proof fn lemma_bit_at_zero(v: nat)
    ensures
        bit_at(v, 0) == (v % 2 == 1),
{
    lemma2_to64();
}

/// A sequence of bits denotes a number below two to the power of its length.
pub proof fn lemma_bits_value_bound(bits: Seq<bool>)
    ensures
        bits_value(bits) < pow2(bits.len()),
    decreases bits.len(),
{
    if bits.len() == 0 {
        lemma2_to64();
    } else {
        lemma_bits_value_bound(bits.drop_last());
        lemma_pow2_step(bits.drop_last().len());
    }
}

/// Reading back the `width` low bits of `v` gives `v` modulo `2^width`.
pub proof fn lemma_bits_value_of_be_bits(v: nat, width: nat)
    ensures
        bits_value(be_bits(v, width)) == v % pow2(width),
    decreases width,
{
    if width == 0 {
        lemma2_to64();
    } else {
        let b = be_bits(v, width);
        let w1 = (width - 1) as nat;
        assert(b.drop_last() =~= be_bits(v / 2, w1)) by {
            assert forall|i: int| 0 <= i < w1 implies b.drop_last()[i] == be_bits(v / 2, w1)[i] by {
                lemma_bit_at_half(v, (w1 - 1 - i) as nat);
            }
        }
        lemma_bits_value_of_be_bits(v / 2, w1);
        lemma_bit_at_zero(v);
        assert(b.last() == bit_at(v, 0));
        lemma_mod_pow2_step(v, w1);
    }
}

/// Writing the number that `bits` denotes in as many bits gives `bits` back.
pub proof fn lemma_be_bits_of_bits_value(bits: Seq<bool>)
    ensures
        be_bits(bits_value(bits), bits.len()) =~= bits,
    decreases bits.len(),
{
    if bits.len() > 0 {
        let v = bits_value(bits);
        let rest = bits.drop_last();
        let w1 = rest.len();
        lemma_be_bits_of_bits_value(rest);
        assert(v / 2 == bits_value(rest));
        assert forall|i: int| 0 <= i < bits.len() implies be_bits(v, bits.len())[i] == bits[i] by {
            if i < w1 {
                lemma_bit_at_half(v, (w1 - 1 - i) as nat);
                assert(be_bits(bits_value(rest), w1)[i] == rest[i]);
            } else {
                lemma_bit_at_zero(v);
            }
        }
    }
}

/// The number that two sequences of bits denote when one follows the other.
pub proof fn lemma_bits_value_concat(a: Seq<bool>, b: Seq<bool>)
    ensures
        bits_value(a + b) == bits_value(a) * pow2(b.len()) + bits_value(b),
    decreases b.len(),
{
    if b.len() == 0 {
        lemma2_to64();
        assert(a + b =~= a);
    } else {
        assert((a + b).drop_last() =~= a + b.drop_last());
        lemma_bits_value_concat(a, b.drop_last());
        lemma_pow2_step(b.drop_last().len());
        let p = pow2(b.drop_last().len());
        assert(2 * (bits_value(a) * p) == bits_value(a) * (2 * p)) by (nonlinear_arith);
    }
}

/// A bit of `v % 2^n` is the same bit of `v` below position `n`, and clear
/// from there on.
pub proof fn lemma_bit_at_of_mod(v: nat, n: nat, k: nat)
    ensures
        bit_at(v % pow2(n), k) == (k < n && bit_at(v, k)),
    decreases k,
{
    lemma_pow2_pos(n);
    if n == 0 {
        lemma2_to64();
        lemma_pow2_pos(k);
        assert(v % pow2(n) == 0);
        lemma_div_of0(pow2(k) as int);
    } else if k == 0 {
        lemma_bit_at_zero(v);
        lemma_bit_at_zero(v % pow2(n));
        lemma_mod_pow2_step(v, (n - 1) as nat);
    } else {
        lemma_mod_pow2_step(v, (n - 1) as nat);
        lemma_bit_at_half(v % pow2(n), (k - 1) as nat);
        lemma_bit_at_half(v, (k - 1) as nat);
        lemma_bit_at_of_mod(v / 2, (n - 1) as nat, (k - 1) as nat);
    }
}

/// A number with a set bit at position `k` is at least `2^k`.
pub proof fn lemma_bit_at_lower_bound(v: nat, k: nat)
    requires
        bit_at(v, k),
    ensures
        pow2(k) <= v,
{
    lemma_pow2_pos(k);
    if v < pow2(k) {
        lemma_basic_div(v as int, pow2(k) as int);
    }
}

/// A number below `2^(k+1)` whose bit `k` is clear is below `2^k`.
pub proof fn lemma_clear_top_bit(v: nat, k: nat)
    requires
        v < pow2(k + 1),
        !bit_at(v, k),
    ensures
        v < pow2(k),
{
    lemma_pow2_step(k);
    let p = pow2(k) as int;
    lemma_fundamental_div_mod(v as int, p);
    lemma_mod_bound(v as int, p);
    let q = (v as int) / p;
    assert(q < 2) by {
        if q >= 2 {
            assert(p * q >= p * 2) by (nonlinear_arith)
                requires
                    q >= 2,
                    p > 0,
            ;
        }
    }
    assert(q >= 0) by {
        lemma_div_pos_is_pos(v as int, p);
    }
    assert(q == 0);
    assert(p * q == 0) by (nonlinear_arith)
        requires
            q == 0,
    ;
}

/// The bit length of a number between `2^(n-1)` and `2^n`.
pub proof fn lemma_bit_length_between(v: nat, n: nat)
    requires
        n > 0,
        pow2((n - 1) as nat) <= v < pow2(n),
    ensures
        bit_length(v) == n,
    decreases n,
{
    lemma_pow2_pos((n - 1) as nat);
    if n == 1 {
        lemma2_to64();
        assert(v == 1);
        assert(bit_length(1) == 1 + bit_length(0));
    } else {
        lemma_pow2_step((n - 2) as nat);
        lemma_pow2_step((n - 1) as nat);
        lemma_bit_length_between(v / 2, (n - 1) as nat);
    }
}

/// The bit length bounds the number from both sides.
pub proof fn lemma_bit_length_bounds(v: nat)
    ensures
        v < pow2(bit_length(v)),
        v > 0 ==> pow2((bit_length(v) - 1) as nat) <= v,
    decreases v,
{
    if v == 0 {
        lemma2_to64();
    } else {
        lemma_bit_length_bounds(v / 2);
        lemma_pow2_step(bit_length(v / 2));
        if v / 2 > 0 {
            lemma_pow2_step((bit_length(v / 2) - 1) as nat);
        } else {
            lemma2_to64();
        }
    }
}

/// Dividing a number by 256 moves each of its bytes one place down.
pub proof fn lemma_byte_at_shift(v: nat, k: nat)
    ensures
        byte_at(v, k + 1) == byte_at(v / 256, k),
        byte_at(v, 0) == (v % 256) as u8,
{
    lemma2_to64();
    lemma_pow2_adds(8, 8 * k);
    lemma_pow2_pos(8 * k);
    lemma_div_denominator(v as int, 256, pow2(8 * k) as int);
    assert(pow2(8 * 0) == 1);
}

/// Reading back the `len` low bytes of `v` gives `v` modulo `256^len`.
pub proof fn lemma_be_value_of_be_bytes(v: nat, len: nat)
    ensures
        be_value(be_bytes(v, len)) == v % pow2(8 * len),
    decreases len,
{
    lemma2_to64();
    if len > 0 {
        let b = be_bytes(v, len);
        let l1 = (len - 1) as nat;
        assert(b.drop_last() =~= be_bytes(v / 256, l1)) by {
            assert forall|i: int| 0 <= i < l1 implies b.drop_last()[i] == be_bytes(v / 256, l1)[i] by {
                lemma_byte_at_shift(v, (l1 - 1 - i) as nat);
            }
        }
        lemma_be_value_of_be_bytes(v / 256, l1);
        lemma_byte_at_shift(v, 0);
        assert(b.last() == (v % 256) as u8);
        lemma_pow2_adds(8, 8 * l1);
        lemma_pow2_pos(8 * l1);
        lemma_mod_breakdown(v as int, 256, pow2(8 * l1) as int);
    }
}

/// Writing the number that `bytes` denotes in as many bytes gives `bytes`
/// back.
pub proof fn lemma_be_bytes_of_be_value(bytes: Seq<u8>)
    ensures
        be_bytes(be_value(bytes), bytes.len()) =~= bytes,
    decreases bytes.len(),
{
    if bytes.len() > 0 {
        let v = be_value(bytes);
        let rest = bytes.drop_last();
        let l1 = rest.len();
        lemma_be_bytes_of_be_value(rest);
        assert(v / 256 == be_value(rest));
        assert(v % 256 == bytes.last());
        assert forall|i: int| 0 <= i < bytes.len() implies be_bytes(v, bytes.len())[i]
            == bytes[i] by {
            if i < l1 {
                lemma_byte_at_shift(v, (l1 - 1 - i) as nat);
                assert(be_bytes(be_value(rest), l1)[i] == rest[i]);
            } else {
                lemma_byte_at_shift(v, 0);
            }
        }
    }
}

/// Packed bytes denote the number that the bits denote.
pub proof fn lemma_be_value_of_pack_bits(bits: Seq<bool>)
    requires
        bits.len() % 8 == 0,
    ensures
        pack_bits(bits).len() == bits.len() / 8,
        be_value(pack_bits(bits)) == bits_value(bits),
    decreases bits.len(),
{
    lemma2_to64();
    if bits.len() > 0 {
        let n = bits.len() as int;
        let head = bits.subrange(0, n - 8);
        let tail = bits.subrange(n - 8, n);
        assert(bits =~= head + tail);
        lemma_bits_value_concat(head, tail);
        lemma_bits_value_bound(tail);
        lemma_be_value_of_pack_bits(head);
        let p = pack_bits(bits);
        assert(p.drop_last() =~= pack_bits(head)) by {
            assert forall|j: int| 0 <= j < p.len() - 1 implies p.drop_last()[j] == pack_bits(
                head,
            )[j] by {
                assert(bits.subrange(8 * j, 8 * j + 8) =~= head.subrange(8 * j, 8 * j + 8));
            }
        }
        assert(bits.subrange(8 * (n / 8 - 1), 8 * (n / 8 - 1) + 8) =~= tail);
        assert(p.last() == bits_value(tail) as u8);
        assert(be_value(p) == 256 * be_value(p.drop_last()) + p.last() as nat);
    }
}

/// The bits of `v % 2^n` are the bits of `v` with all above the low `n`
/// cleared.
pub proof fn lemma_be_bits_of_mod(v: nat, n: nat, width: nat)
    ensures
        be_bits(v % pow2(n), width) == low_bits_kept(be_bits(v, width), n),
{
    let masked = be_bits(v % pow2(n), width);
    let kept = low_bits_kept(be_bits(v, width), n);
    assert forall|i: int| 0 <= i < width implies masked[i] == kept[i] by {
        lemma_bit_at_of_mod(v, n, (width - 1 - i) as nat);
    }
    assert(masked =~= kept);
}

/// A number below `2^width` whose `zeros` highest bits are clear is below
/// `2^(width - zeros)`.
pub proof fn lemma_leading_zeros_bound(v: nat, width: nat, zeros: nat)
    requires
        v < pow2(width),
        zeros <= width,
        forall|i: int| 0 <= i < zeros ==> !be_bits(v, width)[i],
    ensures
        v < pow2((width - zeros) as nat),
    decreases zeros,
{
    if zeros > 0 {
        lemma_leading_zeros_bound(v, width, (zeros - 1) as nat);
        assert(!be_bits(v, width)[zeros - 1]);
        lemma_clear_top_bit(v, (width - zeros) as nat);
    }
}

/// The bit length of a number, from the place of its first set bit among
/// `width` bits.
pub proof fn lemma_bit_length_from_bits(v: nat, width: nat, first: nat)
    requires
        v < pow2(width),
        first < width,
        be_bits(v, width)[first as int],
        forall|i: int| 0 <= i < first ==> !be_bits(v, width)[i],
    ensures
        bit_length(v) == width - first,
{
    lemma_leading_zeros_bound(v, width, first);
    lemma_bit_at_lower_bound(v, (width - 1 - first) as nat);
    lemma_bit_length_between(v, (width - first) as nat);
}

/// A sequence of bytes denotes a number below 256 to the power of its
/// length.
pub proof fn lemma_be_value_bound(bytes: Seq<u8>)
    ensures
        be_value(bytes) < pow2(8 * bytes.len()),
    decreases bytes.len(),
{
    lemma2_to64();
    if bytes.len() > 0 {
        lemma_be_value_bound(bytes.drop_last());
        lemma_pow2_adds(8 * bytes.drop_last().len(), 8);
    }
}

/// The number that bytes denote splits at the first byte.
pub proof fn lemma_be_value_first(bytes: Seq<u8>)
    requires
        bytes.len() > 0,
    ensures
        be_value(bytes) == bytes[0] * pow2((8 * (bytes.len() - 1)) as nat) + be_value(
            bytes.subrange(1, bytes.len() as int),
        ),
    decreases bytes.len(),
{
    lemma2_to64();
    let rest = bytes.subrange(1, bytes.len() as int);
    let front = bytes.drop_last();
    if bytes.len() == 1 {
        assert(be_value(front) == 0);
        assert(be_value(rest) == 0);
        assert(bytes[0] * pow2(0) == bytes[0]) by (nonlinear_arith)
            requires
                pow2(0) == 1,
        ;
    } else {
        lemma_be_value_first(front);
        assert(front.subrange(1, front.len() as int) =~= rest.drop_last());
        let p = pow2((8 * (front.len() - 1)) as nat);
        let q = pow2((8 * (bytes.len() - 1)) as nat);
        assert(q == p * 256) by {
            lemma_pow2_adds((8 * (front.len() - 1)) as nat, 8);
        }
        assert(be_value(front) == bytes[0] * p + be_value(rest.drop_last()));
        assert(be_value(rest) == 256 * be_value(rest.drop_last()) + bytes.last());
        assert(256 * (bytes[0] * p) == bytes[0] * q) by (nonlinear_arith)
            requires
                q == p * 256,
        ;
    }
}

/// Byte sequences of one length stand in the order of the dictionary as the
/// numbers that they denote stand in theirs.
pub proof fn lemma_lex_less_is_less(a: Seq<u8>, b: Seq<u8>)
    requires
        a.len() == b.len(),
    ensures
        lex_less(a, b) <==> be_value(a) < be_value(b),
    decreases a.len(),
{
    if a.len() > 0 {
        let ra = a.subrange(1, a.len() as int);
        let rb = b.subrange(1, b.len() as int);
        let p = pow2((8 * (a.len() - 1)) as nat);
        lemma_be_value_first(a);
        lemma_be_value_first(b);
        lemma_be_value_bound(ra);
        lemma_be_value_bound(rb);
        lemma_lex_less_is_less(ra, rb);
        let x = a[0] as int;
        let y = b[0] as int;
        if x < y {
            assert(x * p + p <= y * p) by (nonlinear_arith)
                requires
                    x < y,
                    p > 0,
            ;
        } else if y < x {
            assert(y * p + p <= x * p) by (nonlinear_arith)
                requires
                    y < x,
                    p > 0,
            ;
        }
    }
}

/// Packing least significant bit first what was turned group by group is
/// packing most significant bit first.
pub proof fn lemma_pack_reversed_groups(bits: Seq<bool>)
    requires
        bits.len() % 8 == 0,
    ensures
        pack_bits_low_first(reverse_groups(bits)) == pack_bits(bits),
{
    let turned = reverse_groups(bits);
    assert forall|j: int| 0 <= j < bits.len() / 8 implies pack_bits_low_first(turned)[j]
        == pack_bits(bits)[j] by {
        let group = bits.subrange(8 * j, 8 * j + 8);
        let back = turned.subrange(8 * j, 8 * j + 8).reverse();
        assert forall|i: int| 0 <= i < 8 implies back[i] == group[i] by {
            let at = 8 * j + 7 - i;
            assert(at / 8 == j && at % 8 == 7 - i);
        }
        assert(back =~= group);
    }
    assert(pack_bits_low_first(turned) =~= pack_bits(bits));
}

/// The first bit of a sequence weighs as much as all that follow allow.
pub proof fn lemma_bits_value_first(first: bool, rest: Seq<bool>)
    ensures
        bits_value(seq![first] + rest) == (if first {
            pow2(rest.len())
        } else {
            0
        }) + bits_value(rest),
{
    lemma_bits_value_concat(seq![first], rest);
    assert(seq![first].drop_last() =~= Seq::<bool>::empty());
    assert(bits_value(seq![first].drop_last()) == 0);
    assert(bits_value(seq![first]) == if first {
        1nat
    } else {
        0nat
    });
    assert(1 * pow2(rest.len()) == pow2(rest.len())) by (nonlinear_arith);
    assert(0 * pow2(rest.len()) == 0) by (nonlinear_arith);
}

/// In a byte packed least significant bit first, bit `i` is the bit at place
/// `i` of its group.
pub proof fn lemma_low_first_bit(bits: Seq<bool>, k: int, i: int)
    requires
        bits.len() % 8 == 0,
        0 <= k < bits.len() / 8,
        0 <= i < 8,
    ensures
        pack_bits_low_first(bits).len() == bits.len() / 8,
        bit_at(pack_bits_low_first(bits)[k] as nat, i as nat) == bits[8 * k + i],
{
    let turned = bits.subrange(8 * k, 8 * k + 8).reverse();
    let v = bits_value(turned);
    lemma_bits_value_bound(turned);
    lemma2_to64();
    lemma_be_bits_of_bits_value(turned);
    assert(be_bits(v, 8)[7 - i] == turned[7 - i]);
}

} // verus!
