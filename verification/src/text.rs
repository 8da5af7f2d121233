//! Numbers as text: hexadecimal and decimal digit strings, what they denote,
//! and how they relate to big-endian bytes.

use crate::radix::be_value;
use vstd::prelude::*;
use vstd::string::*;

verus! {

/// The value of a hexadecimal digit of either case.
pub open spec fn hex_digit_value(c: char) -> Option<nat> {
    if '0' as int <= c as int <= '9' as int {
        Some((c as int - '0' as int) as nat)
    } else if 'a' as int <= c as int <= 'f' as int {
        Some((c as int - 'a' as int + 10) as nat)
    } else if 'A' as int <= c as int <= 'F' as int {
        Some((c as int - 'A' as int + 10) as nat)
    } else {
        None
    }
}

/// The lower-case hexadecimal digit for a value below 16.
pub open spec fn lower_hex_digit(d: nat) -> char {
    if d < 10 {
        ('0' as int + d) as char
    } else {
        ('a' as int + d - 10) as char
    }
}

/// The value of a digit, 0 for any other character.
pub open spec fn hex_digit_or_zero(c: char) -> nat {
    match hex_digit_value(c) {
        Some(d) => d,
        None => 0,
    }
}

/// Every character is a hexadecimal digit.
pub open spec fn is_hex(s: Seq<char>) -> bool {
    forall|i: int| 0 <= i < s.len() ==> (#[trigger] hex_digit_value(s[i])) is Some
}

/// The number that a string of hexadecimal digits denotes.
pub open spec fn hex_value(s: Seq<char>) -> nat
    decreases s.len(),
{
    if s.len() == 0 {
        0
    } else {
        16 * hex_value(s.drop_last()) + hex_digit_or_zero(s.last())
    }
}

/// Two lower-case hexadecimal digits for each byte, high digit first.
pub open spec fn hex_chars(bytes: Seq<u8>) -> Seq<char> {
    Seq::new(
        2 * bytes.len(),
        |i: int|
            lower_hex_digit(
                if i % 2 == 0 {
                    bytes[i / 2] as nat / 16
                } else {
                    bytes[i / 2] as nat % 16
                },
            ),
    )
}

/// One byte for each pair of hexadecimal digits, high digit first.
pub open spec fn hex_bytes(s: Seq<char>) -> Seq<u8> {
    Seq::new(
        s.len() / 2,
        |j: int| (16 * hex_digit_or_zero(s[2 * j]) + hex_digit_or_zero(s[2 * j + 1])) as u8,
    )
}

/// The text without a leading `0x`, if it has one.
pub open spec fn strip_0x(s: Seq<char>) -> Seq<char> {
    if s.len() >= 2 && s[0] == '0' && s[1] == 'x' {
        s.subrange(2, s.len() as int)
    } else {
        s
    }
}

/// A hexadecimal literal: at least one hexadecimal digit, with or without a
/// leading `0x`.
pub open spec fn is_hex_literal(s: Seq<char>) -> bool {
    strip_0x(s).len() > 0 && is_hex(strip_0x(s))
}

/// The value of a decimal digit.
pub open spec fn dec_digit_value(c: char) -> Option<nat> {
    if '0' as int <= c as int <= '9' as int {
        Some((c as int - '0' as int) as nat)
    } else {
        None
    }
}

/// The decimal digit for a value below 10.
pub open spec fn dec_digit(d: nat) -> char {
    ('0' as int + d) as char
}

/// The value of a decimal digit, 0 for any other character.
pub open spec fn dec_digit_or_zero(c: char) -> nat {
    match dec_digit_value(c) {
        Some(d) => d,
        None => 0,
    }
}

/// A canonical decimal numeral: one or more decimal digits, the first of
/// them `0` only when it stands alone.
pub open spec fn is_decimal(s: Seq<char>) -> bool {
    &&& s.len() > 0
    &&& forall|i: int| 0 <= i < s.len() ==> (#[trigger] dec_digit_value(s[i])) is Some
    &&& s.len() > 1 ==> s[0] != '0'
}

/// The number that a string of decimal digits denotes.
pub open spec fn dec_value(s: Seq<char>) -> nat
    decreases s.len(),
{
    if s.len() == 0 {
        0
    } else {
        10 * dec_value(s.drop_last()) + dec_digit_or_zero(s.last())
    }
}

/// The canonical decimal numeral of `n`.
pub open spec fn decimal_digits(n: nat) -> Seq<char>
    decreases n,
{
    if n < 10 {
        seq![dec_digit(n)]
    } else {
        decimal_digits(n / 10).push(dec_digit(n % 10))
    }
}

/// The digit written for a value below 16 has that value, and is no `x`.
pub proof fn lemma_lower_hex_digit_value(d: nat)
    requires
        d < 16,
    ensures
        hex_digit_value(lower_hex_digit(d)) == Some(d),
        lower_hex_digit(d) != 'x',
{
}

/// The hexadecimal text of some bytes is made of digits alone, two for each
/// byte, and has no prefix to strip.
pub proof fn lemma_hex_chars_is_hex(bytes: Seq<u8>)
    ensures
        hex_chars(bytes).len() == 2 * bytes.len(),
        is_hex(hex_chars(bytes)),
        strip_0x(hex_chars(bytes)) == hex_chars(bytes),
{
    let h = hex_chars(bytes);
    assert forall|i: int| 0 <= i < h.len() implies (#[trigger] hex_digit_value(h[i])) is Some by {
        lemma_lower_hex_digit_value(bytes[i / 2] as nat / 16);
        lemma_lower_hex_digit_value(bytes[i / 2] as nat % 16);
    }
    if h.len() >= 2 {
        lemma_lower_hex_digit_value(bytes[0] as nat % 16);
        assert(h[1] != 'x');
    }
}

/// The hexadecimal text of some bytes denotes the number that the bytes
/// denote.
pub proof fn lemma_hex_value_of_hex_chars(bytes: Seq<u8>)
    ensures
        hex_value(hex_chars(bytes)) == be_value(bytes),
    decreases bytes.len(),
{
    if bytes.len() > 0 {
        let h = hex_chars(bytes);
        let rest = bytes.drop_last();
        let b = bytes.last() as nat;
        assert(h.drop_last().drop_last() =~= hex_chars(rest));
        lemma_hex_value_of_hex_chars(rest);
        lemma_lower_hex_digit_value(b / 16);
        lemma_lower_hex_digit_value(b % 16);
        assert(h.last() == lower_hex_digit(b % 16));
        assert(h.drop_last().last() == lower_hex_digit(b / 16));
        assert(hex_value(h) == 16 * hex_value(h.drop_last()) + b % 16);
        assert(hex_value(h.drop_last()) == 16 * hex_value(h.drop_last().drop_last()) + b / 16);
    }
}

/// Decoding the hexadecimal text of some bytes gives the bytes back.
pub proof fn lemma_hex_bytes_of_hex_chars(bytes: Seq<u8>)
    ensures
        hex_bytes(hex_chars(bytes)) =~= bytes,
{
    let h = hex_chars(bytes);
    assert forall|j: int| 0 <= j < bytes.len() implies hex_bytes(h)[j] == bytes[j] by {
        let b = bytes[j] as nat;
        lemma_lower_hex_digit_value(b / 16);
        lemma_lower_hex_digit_value(b % 16);
        assert(h[2 * j] == lower_hex_digit(b / 16));
        assert(h[2 * j + 1] == lower_hex_digit(b % 16));
    }
}

/// The numeral written for a number is canonical.
pub proof fn lemma_decimal_digits_is_decimal(n: nat)
    ensures
        is_decimal(decimal_digits(n)),
        n >= 10 ==> decimal_digits(n).len() > 1,
        n > 0 ==> decimal_digits(n)[0] != '0',
    decreases n,
{
    if n >= 10 {
        lemma_decimal_digits_is_decimal(n / 10);
        let d = decimal_digits(n);
        let r = decimal_digits(n / 10);
        assert forall|i: int| 0 <= i < d.len() implies (#[trigger] dec_digit_value(d[i])) is Some by {
            if i < r.len() {
                assert(d[i] == r[i]);
                assert(dec_digit_value(r[i]) is Some);
            }
        }
        assert(d[0] == r[0]);
    }
}

/// A numeral denotes the number it was written for.
pub proof fn lemma_dec_value_of_decimal_digits(n: nat)
    ensures
        dec_value(decimal_digits(n)) == n,
    decreases n,
{
    if n < 10 {
        let d = decimal_digits(n);
        assert(d.drop_last() =~= Seq::<char>::empty());
        assert(dec_value(d) == 10 * dec_value(d.drop_last()) + dec_digit_or_zero(d.last()));
    } else {
        let d = decimal_digits(n);
        assert(d.drop_last() =~= decimal_digits(n / 10));
        lemma_dec_value_of_decimal_digits(n / 10);
    }
}

/// Digits that do not begin with `0` denote a positive number.
pub proof fn lemma_dec_value_positive(s: Seq<char>)
    requires
        s.len() > 0,
        forall|i: int| 0 <= i < s.len() ==> (#[trigger] dec_digit_value(s[i])) is Some,
        s[0] != '0',
    ensures
        dec_value(s) >= 1,
    decreases s.len(),
{
    if s.len() == 1 {
        assert(dec_digit_value(s[0]) is Some);
        assert(s.drop_last().len() == 0);
    } else {
        let rest = s.drop_last();
        assert forall|i: int| 0 <= i < rest.len() implies (#[trigger] dec_digit_value(rest[i])) is Some by {
            assert(rest[i] == s[i]);
        }
        lemma_dec_value_positive(rest);
    }
}

/// A canonical numeral is the one that is written for the number it
/// denotes.
pub proof fn lemma_decimal_digits_of_dec_value(s: Seq<char>)
    requires
        is_decimal(s),
    ensures
        decimal_digits(dec_value(s)) =~= s,
    decreases s.len(),
{
    let rest = s.drop_last();
    assert(dec_digit_value(s.last()) is Some);
    let d = dec_digit_or_zero(s.last());
    assert(s.last() == dec_digit(d));
    if s.len() == 1 {
        assert(dec_value(rest) == 0);
        assert(dec_value(s) == d);
    } else {
        assert forall|i: int| 0 <= i < rest.len() implies (#[trigger] dec_digit_value(rest[i])) is Some by {
            assert(rest[i] == s[i]);
        }
        assert(rest[0] == s[0]);
        lemma_dec_value_positive(rest);
        lemma_decimal_digits_of_dec_value(rest);
        let v = dec_value(s);
        assert(v / 10 == dec_value(rest));
        assert(v % 10 == d);
        assert(s =~= rest.push(s.last()));
    }
}

/// Whether `c` occurs in `s`.
pub fn contains_char(s: &str, c: char) -> (b: bool)
    ensures
        b == s@.contains(c),
{
    let n = s.unicode_len();
    let mut i: usize = 0;
    while i < n
        invariant
            n == s@.len(),
            i <= n,
            forall|j: int| 0 <= j < i ==> s@[j] != c,
        decreases n - i,
    {
        if s.get_char(i) == c {
            return true;
        }
        i += 1;
    }
    false
}

/// Whether `c` is a hexadecimal digit of either case.
pub fn is_hex_digit(c: char) -> (b: bool)
    ensures
        b == hex_digit_value(c) is Some,
{
    ('0' <= c && c <= '9') || ('a' <= c && c <= 'f') || ('A' <= c && c <= 'F')
}

/// The text after a leading `0x`, or all of it where there is none.
pub fn strip_hex_prefix(s: &str) -> (r: &str)
    ensures
        r@ == strip_0x(s@),
{
    let n = s.unicode_len();
    if n >= 2 && s.get_char(0) == '0' && s.get_char(1) == 'x' {
        s.substring_char(2, n)
    } else {
        s
    }
}

/// Whether `s` is a hexadecimal literal.
pub fn is_hex_literal_str(s: &str) -> (b: bool)
    ensures
        b == is_hex_literal(s@),
{
    let digits = strip_hex_prefix(s);
    let n = digits.unicode_len();
    if n == 0 {
        return false;
    }
    let mut i: usize = 0;
    while i < n
        invariant
            n == digits@.len(),
            n > 0,
            digits@ == strip_0x(s@),
            i <= n,
            forall|j: int| 0 <= j < i ==> (#[trigger] hex_digit_value(digits@[j])) is Some,
        decreases n - i,
    {
        if !is_hex_digit(digits.get_char(i)) {
            return false;
        }
        i += 1;
    }
    true
}

} // verus!
