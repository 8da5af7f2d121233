use noir_core::field::{hex_to_decimal, pack_bits_into_bytes, FieldElement};
use std::collections::HashSet;

const MODULUS: &str =
    "21888242871839275222246405745257275088548364400416034343698204186575808495617";
const MODULUS_MINUS_ONE: &str =
    "21888242871839275222246405745257275088548364400416034343698204186575808495616";
const A_DEC: &str = "446371678903360124661747118626766461972311602250509962735";
const A_HEX: &str = "1234567890abcdef1234567890abcdef1234567890abcdef";
const B_DEC: &str = "21173125052858393283395314067335103265";

fn dec(text: &str) -> FieldElement {
    FieldElement::try_from_str(text).expect("a canonical decimal numeral")
}

#[test]
fn zero_and_one_are_what_they_say() {
    assert!(FieldElement::zero().is_zero());
    assert!(!FieldElement::zero().is_one());
    assert!(FieldElement::one().is_one());
    assert!(!FieldElement::one().is_zero());
    assert_eq!(FieldElement::zero(), dec("0"));
    assert_eq!(FieldElement::one(), dec("1"));
    assert_ne!(FieldElement::zero(), FieldElement::one());
}

#[test]
fn bit_counts_of_zero_one_and_the_largest_element() {
    assert_eq!(FieldElement::max_num_bits(), 254);
    assert_eq!(FieldElement::zero().num_bits(), 0);
    assert_eq!(FieldElement::one().num_bits(), 1);
    assert_eq!(dec("2").num_bits(), 2);
    assert_eq!(dec("255").num_bits(), 8);
    assert_eq!(dec("256").num_bits(), 9);
    assert_eq!(dec(A_DEC).num_bits(), 189);
    assert_eq!(dec(MODULUS_MINUS_ONE).num_bits(), 254);
    for text in ["0", "1", "77", A_DEC, B_DEC, MODULUS_MINUS_ONE] {
        assert!(dec(text).num_bits() <= FieldElement::max_num_bits());
    }
}

#[test]
fn fits_in_u128_at_the_boundary() {
    let below = dec("340282366920938463463374607431768211455");
    let at = dec("340282366920938463463374607431768211456");
    assert!(below.fits_in_u128());
    assert!(!at.fits_in_u128());
    assert!(FieldElement::zero().fits_in_u128());
    assert!(!dec(A_DEC).fits_in_u128());
    assert!(dec(B_DEC).fits_in_u128());
}

#[test]
fn to_u128_keeps_the_low_half() {
    assert_eq!(dec(B_DEC).to_u128(), 21173125052858393283395314067335103265u128);
    assert_eq!(
        dec(MODULUS_MINUS_ONE).to_u128(),
        53438638232309528389504892708671455232u128
    );
    assert_eq!(FieldElement::zero().to_u128(), 0);
}

#[test]
fn bytes_round_trip() {
    for text in ["0", "1", "255", "256", A_DEC, B_DEC, MODULUS_MINUS_ONE] {
        let v = dec(text);
        assert_eq!(FieldElement::from_bytes(&v.to_bytes()), v);
    }
}

#[test]
fn hex_round_trip() {
    for text in ["0", "1", "255", "256", A_DEC, B_DEC, MODULUS_MINUS_ONE] {
        let v = dec(text);
        assert_eq!(FieldElement::from_hex(&v.to_hex()), Some(v));
    }
}

#[test]
fn to_bytes_is_big_endian() {
    let mut expected = [0u8; 32];
    expected[31] = 1;
    assert_eq!(FieldElement::one().to_bytes(), expected);
    let mut expected = [0u8; 32];
    expected[30] = 1;
    expected[31] = 2;
    assert_eq!(dec("258").to_bytes(), expected);
    assert_eq!(FieldElement::zero().to_bytes(), [0u8; 32]);
}

#[test]
fn to_hex_is_64_lower_case_digits() {
    assert_eq!(
        dec("255").to_hex(),
        "00000000000000000000000000000000000000000000000000000000000000ff"
    );
    assert_eq!(
        dec(A_DEC).to_hex(),
        "00000000000000001234567890abcdef1234567890abcdef1234567890abcdef"
    );
    assert_eq!(
        dec(MODULUS_MINUS_ONE).to_hex(),
        "30644e72e131a029b85045b68181585d2833e84879b9709143e1f593f0000000"
    );
}

#[test]
fn from_hex_reads_both_cases_with_and_without_prefix() {
    assert_eq!(FieldElement::from_hex(A_HEX), Some(dec(A_DEC)));
    assert_eq!(
        FieldElement::from_hex("0x1234567890ABCDEF1234567890abcdef1234567890ABCDEF"),
        Some(dec(A_DEC))
    );
    assert_eq!(FieldElement::from_hex("ff"), Some(dec("255")));
    assert_eq!(FieldElement::from_hex("0x00ff"), Some(dec("255")));
    assert_eq!(FieldElement::from_hex("0x0"), Some(FieldElement::zero()));
}

#[test]
fn from_hex_rejects_what_is_no_literal() {
    assert_eq!(FieldElement::from_hex(""), None);
    assert_eq!(FieldElement::from_hex("0x"), None);
    assert_eq!(FieldElement::from_hex("0xzz"), None);
    assert_eq!(FieldElement::from_hex("1x2"), None);
    assert_eq!(FieldElement::from_hex("-ff"), None);
    assert_eq!(FieldElement::from_hex("f_f"), None);
    assert_eq!(FieldElement::from_hex("0X10"), None);
}

#[test]
fn from_hex_rejects_what_is_not_below_the_order() {
    assert_eq!(
        FieldElement::from_hex("30644e72e131a029b85045b68181585d2833e84879b9709143e1f593f0000001"),
        None
    );
    assert_eq!(
        FieldElement::from_hex("ffffffffffffffffffffffffffffffffffffffffffffffffffffffffffffffff"),
        None
    );
    assert_eq!(
        FieldElement::from_hex("30644e72e131a029b85045b68181585d2833e84879b9709143e1f593f0000000"),
        Some(dec(MODULUS_MINUS_ONE))
    );
}

#[test]
fn decimal_and_hex_literals_agree() {
    assert_eq!(
        FieldElement::try_from_str("255"),
        FieldElement::try_from_str("0xff")
    );
    assert!(FieldElement::try_from_str("255").is_some());
    assert_eq!(FieldElement::try_from_str(A_DEC), FieldElement::from_hex(A_HEX));
}

#[test]
fn try_from_str_rejects_what_is_no_canonical_numeral() {
    assert_eq!(FieldElement::try_from_str(""), None);
    assert_eq!(FieldElement::try_from_str("abc"), None);
    assert_eq!(FieldElement::try_from_str("ff"), None);
    assert_eq!(FieldElement::try_from_str("01"), None);
    assert_eq!(FieldElement::try_from_str("00"), None);
    assert_eq!(FieldElement::try_from_str("-1"), None);
    assert_eq!(FieldElement::try_from_str("+1"), None);
    assert_eq!(FieldElement::try_from_str("1 "), None);
    assert_eq!(FieldElement::try_from_str("12x"), None);
    assert_eq!(FieldElement::try_from_str("x"), None);
}

#[test]
fn try_from_str_rejects_what_is_not_below_the_order() {
    assert_eq!(FieldElement::try_from_str(MODULUS), None);
    assert_eq!(
        FieldElement::try_from_str(
            "21888242871839275222246405745257275088548364400416034343698204186575808495618"
        ),
        None
    );
    assert_eq!(
        FieldElement::try_from_str(
            "115792089237316195423570985008687907853269984665640564039457584007913129639935"
        ),
        None
    );
    let largest = FieldElement::try_from_str(MODULUS_MINUS_ONE).expect("the largest element");
    assert_eq!(largest + FieldElement::one(), FieldElement::zero());
}

#[test]
fn from_bytes_reduce_reduces() {
    let order = FieldElement::from_bytes_reduce(&[
        0x30, 0x64, 0x4e, 0x72, 0xe1, 0x31, 0xa0, 0x29, 0xb8, 0x50, 0x45, 0xb6, 0x81, 0x81, 0x58,
        0x5d, 0x28, 0x33, 0xe8, 0x48, 0x79, 0xb9, 0x70, 0x91, 0x43, 0xe1, 0xf5, 0x93, 0xf0, 0x00,
        0x00, 0x01,
    ]);
    assert_eq!(order, FieldElement::zero());
    let all_ones = FieldElement::from_bytes_reduce(&[0xff; 32]);
    assert_eq!(
        all_ones,
        dec("6350874878119819312338956282401532410528162663560392320966563075034087161850")
    );
    assert_eq!(FieldElement::from_bytes_reduce(&[]), FieldElement::zero());
    assert_eq!(FieldElement::from_bytes_reduce(&[1, 2]), dec("258"));
    let long = [0xffu8; 40];
    let expected = (0..40).fold(FieldElement::zero(), |acc, _| acc * dec("256") + dec("255"));
    assert_eq!(FieldElement::from_bytes_reduce(&long), expected);
}

#[test]
fn from_bytes_takes_any_length() {
    assert_eq!(FieldElement::from_bytes(&[1, 2]), dec("258"));
    assert_eq!(FieldElement::from_bytes(&[0]), FieldElement::zero());
    let mut long = vec![0u8; 40];
    long[39] = 7;
    assert_eq!(FieldElement::from_bytes(&long), dec("7"));
}

#[test]
fn sums_wrap_at_the_order() {
    assert_eq!(dec("2") + dec("3"), dec("5"));
    assert_eq!(dec(MODULUS_MINUS_ONE) + dec("2"), FieldElement::one());
    let mut acc = dec(MODULUS_MINUS_ONE);
    acc += dec("5");
    assert_eq!(acc, dec("4"));
}

#[test]
fn differences_wrap_at_zero() {
    assert_eq!(dec("5") - dec("3"), dec("2"));
    assert_eq!(FieldElement::zero() - FieldElement::one(), dec(MODULUS_MINUS_ONE));
    assert_eq!(
        dec(B_DEC) - dec(A_DEC),
        dec("21888242871839275221800034066353914963907790406842126275009287898392633636147")
    );
    let mut acc = dec("1");
    acc -= dec("2");
    assert_eq!(acc, dec(MODULUS_MINUS_ONE));
}

#[test]
fn products_are_reduced() {
    assert_eq!(dec("6") * dec("7"), dec("42"));
    assert_eq!(
        dec(A_DEC) * dec(B_DEC),
        dec("8014608081432725530126594839279826023177895081067794099391614458443462264168")
    );
    assert_eq!(dec(MODULUS_MINUS_ONE) * dec(MODULUS_MINUS_ONE), FieldElement::one());
}

#[test]
fn negation_is_the_order_minus_the_value() {
    assert_eq!(-FieldElement::zero(), FieldElement::zero());
    assert_eq!(-FieldElement::one(), dec(MODULUS_MINUS_ONE));
    assert_eq!(-dec(MODULUS_MINUS_ONE), FieldElement::one());
}

#[test]
fn inverse_of_zero_is_zero_and_else_multiplies_to_one() {
    assert_eq!(FieldElement::zero().inverse(), FieldElement::zero());
    assert_eq!(FieldElement::one().inverse(), FieldElement::one());
    assert_eq!(
        dec("2").inverse(),
        dec("10944121435919637611123202872628637544274182200208017171849102093287904247809")
    );
    assert_eq!(
        dec(A_DEC).inverse(),
        dec("11314426505216914901268852296743667747145009368369596196758864437037768200151")
    );
    assert_eq!(dec(A_DEC) * dec(A_DEC).inverse(), FieldElement::one());
}

#[test]
fn division_multiplies_by_the_inverse() {
    assert_eq!(dec("42") / dec("7"), dec("6"));
    assert_eq!(
        dec(A_DEC) / dec(B_DEC),
        dec("809669294827263620708016129910392735106708308158867633430895623693817036361")
    );
    assert_eq!(dec("5") / FieldElement::zero(), FieldElement::zero());
}

#[test]
fn signed_integers_map_into_the_field() {
    assert_eq!(FieldElement::from(0i128), FieldElement::zero());
    assert_eq!(FieldElement::from(17i128), dec("17"));
    assert_eq!(FieldElement::from(-1i128), dec(MODULUS_MINUS_ONE));
    assert_eq!(
        FieldElement::from(i128::MAX),
        dec("170141183460469231731687303715884105727")
    );
    assert_eq!(
        FieldElement::from(i128::MIN),
        dec("21888242871839275222246405745257275088378223216955565111966516882859924389889")
    );
    assert_eq!(FieldElement::from(-5i128) + dec("5"), FieldElement::zero());
}

#[test]
fn order_is_the_order_of_the_values() {
    assert!(dec("1") < dec("2"));
    assert!(dec("255") < dec("256"));
    assert!(dec("18446744073709551615") < dec("18446744073709551616"));
    assert!(dec(B_DEC) < dec(A_DEC));
    assert!(dec(MODULUS_MINUS_ONE) > dec(A_DEC));
    assert!(FieldElement::from(-1i128) > FieldElement::from(1i128));
    let mut values = vec![dec(A_DEC), dec("3"), dec(MODULUS_MINUS_ONE), dec(B_DEC), dec("0")];
    values.sort();
    assert_eq!(
        values,
        vec![dec("0"), dec("3"), dec(B_DEC), dec(A_DEC), dec(MODULUS_MINUS_ONE)]
    );
    for (x, y) in [(dec("1"), dec("2")), (dec(B_DEC), dec(A_DEC))] {
        assert_eq!(x.cmp(&y), x.to_bytes().cmp(&y.to_bytes()));
    }
}

#[test]
fn equal_elements_hash_alike() {
    let mut seen = HashSet::new();
    seen.insert(dec("255"));
    assert!(seen.contains(&FieldElement::from_hex("0xff").expect("a literal")));
    assert!(!seen.contains(&dec("256")));
}

#[test]
fn bits_are_256_most_significant_first() {
    let bits = FieldElement::one().bits();
    assert_eq!(bits.len(), 256);
    assert!(bits[255]);
    assert!(bits[..255].iter().all(|b| !b));
    let bits = dec("6").bits();
    assert_eq!(&bits[252..], &[false, true, true, false]);
    let bits = dec(MODULUS_MINUS_ONE).bits();
    assert_eq!(&bits[..8], &[false, false, true, true, false, false, false, false]);
}

#[test]
fn masking_clears_the_high_bits() {
    let a = dec(A_DEC);
    assert_eq!(a.mask_to_field(8), dec("239"));
    assert_eq!(a.mask_to_field(20), dec("773615"));
    assert_eq!(a.mask_to_field(0), FieldElement::zero());
    assert_eq!(a.mask_to_field(1), FieldElement::one());
    assert_eq!(a.mask_to_field(189), a);
    assert_eq!(a.mask_to_field(254), a);
    assert_eq!(a.mask_to_field(256), a);
    assert_eq!(
        a.mask_to_field(188),
        dec("54052820441692576922010279676287310965914386971507805679")
    );
}

#[test]
fn masking_twice_is_masking_once() {
    for text in ["0", "1", "255", A_DEC, B_DEC, MODULUS_MINUS_ONE] {
        let v = dec(text);
        for n in [0u32, 1, 7, 8, 9, 64, 100, 128, 200, 253, 254, 255, 256] {
            let once = v.mask_to_field(n);
            assert_eq!(once.mask_to_field(n), once);
        }
    }
}

#[test]
fn mask_to_bytes_keeps_32_bytes() {
    let a = dec(A_DEC);
    let bytes = a.mask_to_bytes(20);
    assert_eq!(bytes.len(), 32);
    assert_eq!(&bytes[28..], &[0, 11, 205, 239]);
    assert!(bytes[..28].iter().all(|b| *b == 0));
    assert_eq!(a.mask_to_bytes(256), a.to_bytes().to_vec());
    assert_eq!(a.mask_to_bytes(0), vec![0u8; 32]);
}

#[test]
fn truncating_drops_the_high_bytes() {
    let a = dec(A_DEC);
    assert_eq!(a.truncate_to_bytes(24), vec![0xab, 0xcd, 0xef]);
    assert_eq!(a.truncate_to_bytes(8), vec![0xef]);
    assert_eq!(a.truncate_to_bytes(0), Vec::<u8>::new());
    assert_eq!(a.truncate_to_bytes(256), a.to_bytes().to_vec());
}

#[test]
fn fetch_nearest_bytes_rounds_up_to_whole_bytes() {
    let largest = dec(MODULUS_MINUS_ONE);
    assert_eq!(largest.fetch_nearest_bytes(0), Vec::<u8>::new());
    assert_eq!(largest.fetch_nearest_bytes(1), vec![0x30]);
    assert_eq!(largest.fetch_nearest_bytes(8), vec![0x30]);
    assert_eq!(largest.fetch_nearest_bytes(9), vec![0x30, 0x64]);
    assert_eq!(largest.fetch_nearest_bytes(24), vec![0x30, 0x64, 0x4e]);
    assert_eq!(largest.fetch_nearest_bytes(256), largest.to_bytes().to_vec());
    assert_eq!(largest.fetch_nearest_bytes(250).len(), 32);
}

#[test]
fn xor_and_and_on_eight_bits_are_those_of_the_low_bytes() {
    let a = dec(A_DEC);
    let b = dec(B_DEC);
    assert_eq!(a.xor(&b, 8), dec("206"));
    assert_eq!(a.and(&b, 8), dec("33"));
    for (x, y) in [(0u8, 0u8), (1, 1), (0xff, 0x0f), (0xaa, 0x55), (0x80, 0x81), (239, 33)] {
        let fx = FieldElement::from(x as i128 + 256 * 7);
        let fy = FieldElement::from(y as i128 + 256 * 1000);
        assert_eq!(fx.xor(&fy, 8), FieldElement::from((x ^ y) as i128));
        assert_eq!(fx.and(&fy, 8), FieldElement::from((x & y) as i128));
    }
}

#[test]
fn xor_and_and_on_wider_words() {
    let a = dec(A_DEC);
    let b = dec(B_DEC);
    assert_eq!(a.xor(&b, 64), dec("2150923818419261134"));
    assert_eq!(a.and(&b, 64), dec("154321028953227553"));
    assert_eq!(a.xor(&a, 253), FieldElement::zero());
    assert_eq!(a.and(&a, 253), a);
    assert_eq!(a.xor(&FieldElement::zero(), 200), a);
    assert_eq!(a.and(&b, 0), FieldElement::zero());
    assert_eq!(dec(MODULUS_MINUS_ONE).and(&dec(MODULUS_MINUS_ONE), 256), dec(MODULUS_MINUS_ONE));
}

#[test]
fn packing_reads_each_group_least_significant_bit_first() {
    assert_eq!(pack_bits_into_bytes(vec![]), Vec::<u8>::new());
    assert_eq!(
        pack_bits_into_bytes(vec![true, false, false, false, false, false, false, false]),
        vec![0x01]
    );
    assert_eq!(
        pack_bits_into_bytes(vec![false, false, false, false, false, false, false, true]),
        vec![0x80]
    );
    assert_eq!(
        pack_bits_into_bytes(vec![
            true, false, false, false, false, false, false, false, false, true, false, false,
            false, false, false, false,
        ]),
        vec![1u8, 2u8]
    );
    assert_eq!(
        pack_bits_into_bytes(vec![
            false, false, false, false, false, false, false, true, true, true, true, true, false,
            false, false, false,
        ]),
        vec![0x80, 0x0f]
    );
    let bits = FieldElement::from(258i128).bits();
    let packed = pack_bits_into_bytes(bits.clone());
    assert_eq!(packed.len(), 32);
    assert_eq!(&packed[30..], &[0x80, 0x40]);
    for (k, byte) in packed.iter().enumerate() {
        for i in 0..8 {
            assert_eq!((byte >> i) & 1 == 1, bits[8 * k + i]);
        }
    }
}

#[test]
fn the_bytes_of_an_element_keep_the_order_of_its_bits() {
    for text in ["1", "258", A_DEC, MODULUS_MINUS_ONE] {
        let v = dec(text);
        let bits = v.bits();
        let bytes = v.to_bytes();
        for (k, byte) in bytes.iter().enumerate() {
            for i in 0..8 {
                assert_eq!((byte >> (7 - i)) & 1 == 1, bits[8 * k + i]);
            }
        }
        assert_eq!(v.mask_to_bytes(256), bytes.to_vec());
        assert_eq!(v.truncate_to_bytes(256), bytes.to_vec());
    }
}

#[test]
fn hex_to_decimal_converts_the_radix() {
    assert_eq!(hex_to_decimal("0xff"), "255");
    assert_eq!(hex_to_decimal("ff"), "255");
    assert_eq!(hex_to_decimal("FF"), "255");
    assert_eq!(hex_to_decimal("0"), "0");
    assert_eq!(hex_to_decimal("000a"), "10");
    assert_eq!(hex_to_decimal(A_HEX), A_DEC);
    assert_eq!(
        hex_to_decimal("0xffffffffffffffffffffffffffffffffffffffffffffffffffffffffffffffff"),
        "115792089237316195423570985008687907853269984665640564039457584007913129639935"
    );
}

#[test]
fn debug_str_tells_values_apart() {
    let one = FieldElement::one().debug_str();
    let two = dec("2").debug_str();
    assert_ne!(one, two);
    assert_eq!(one, FieldElement::from(1i128).debug_str());
    assert!(one.contains("0000000000000001"));
    assert!(dec("255").debug_str().contains("00000000000000FF"));
}

#[test]
fn try_from_bytes_tells_canonical_encodings_from_others() {
    assert_eq!(FieldElement::try_from_bytes(&[]), None);
    assert_eq!(FieldElement::try_from_bytes(&[1, 2]), Some(dec("258")));
    assert_eq!(FieldElement::try_from_bytes(&[0xff; 32]), None);
    let largest = dec(MODULUS_MINUS_ONE);
    assert_eq!(FieldElement::try_from_bytes(&largest.to_bytes()), Some(largest));
    let mut order = largest.to_bytes();
    order[31] += 1;
    assert_eq!(FieldElement::try_from_bytes(&order), None);
}

#[test]
fn checked_xor_is_none_exactly_when_the_result_leaves_the_field() {
    let a = dec(A_DEC);
    let b = dec(B_DEC);
    assert_eq!(a.checked_xor(&b, 8), Some(dec("206")));
    assert_eq!(a.checked_xor(&b, 64), Some(a.xor(&b, 64)));
    let high = FieldElement::from_hex(
        "2000000000000000000000000000000000000000000000000000000000000000",
    )
    .expect("a literal below the order");
    let low = FieldElement::from_hex(
        "1fffffffffffffffffffffffffffffffffffffffffffffffffffffffffffffff",
    )
    .expect("a literal below the order");
    assert_eq!(high.checked_xor(&low, 254), None);
    assert_eq!(high.checked_xor(&low, 256), None);
    assert_eq!(high.checked_xor(&low, 253), Some(low));
    assert_eq!(high.and(&low, 254), FieldElement::zero());
    assert_eq!(high.checked_xor(&high, 254), Some(FieldElement::zero()));
}

#[test]
fn is_less_than_compares_the_values() {
    assert!(dec("1").is_less_than(&dec("2")));
    assert!(!dec("2").is_less_than(&dec("1")));
    assert!(!dec("2").is_less_than(&dec("2")));
    assert!(dec("18446744073709551615").is_less_than(&dec("18446744073709551616")));
    assert!(dec("340282366920938463463374607431768211455")
        .is_less_than(&dec("340282366920938463463374607431768211456")));
    assert!(dec(A_DEC).is_less_than(&dec(MODULUS_MINUS_ONE)));
    assert_eq!(dec(A_DEC).partial_cmp(&dec(B_DEC)), Some(std::cmp::Ordering::Greater));
    assert_eq!(dec(A_DEC).partial_cmp(&dec(A_DEC)), Some(std::cmp::Ordering::Equal));
}

#[test]
fn text_that_is_not_ascii_is_no_literal() {
    assert_eq!(FieldElement::try_from_str("\u{661}\u{662}\u{663}"), None);
    assert_eq!(FieldElement::try_from_str("12\u{e9}"), None);
    assert_eq!(FieldElement::try_from_str("\u{ff11}\u{ff12}"), None);
    assert_eq!(FieldElement::try_from_str("0x1\u{e9}2"), None);
    assert_eq!(FieldElement::from_hex("0x\u{e9}"), None);
    assert_eq!(FieldElement::from_hex("\u{e9}\u{e9}"), None);
    assert_eq!(FieldElement::from_hex("0\u{445}10"), None);
}

#[test]
fn very_long_numerals_are_out_of_range_or_padded() {
    let long_decimal = "9".repeat(1000);
    assert_eq!(FieldElement::try_from_str(&long_decimal), None);
    let long_hex = "f".repeat(200);
    assert_eq!(FieldElement::from_hex(&long_hex), None);
    let padded = format!("0x{}{}", "0".repeat(200), "ff");
    assert_eq!(FieldElement::from_hex(&padded), Some(dec("255")));
    assert_eq!(FieldElement::try_from_str(&padded), Some(dec("255")));
    let seventy_seven_digits =
        "10000000000000000000000000000000000000000000000000000000000000000000000000000";
    assert_eq!(seventy_seven_digits.len(), 77);
    assert_eq!(
        FieldElement::try_from_str(seventy_seven_digits).map(|v| v.num_bits()),
        Some(253)
    );
}
