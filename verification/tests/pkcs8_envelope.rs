use rsa_keypair::pkcs8::{detect_pkcs8, from_pkcs8, to_pkcs8};
use rsa_keypair::rsa::RsaKeyPair;

const PRIVATE_123: [u8; 25] = [
    0x30, 0x17, 0x02, 0x01, 0x00, 0x30, 0x0d, 0x06, 0x09, 0x2a, 0x86, 0x48, 0x86, 0xf7, 0x0d, 0x01,
    0x01, 0x01, 0x05, 0x00, 0x04, 0x03, 0x01, 0x02, 0x03,
];

const PUBLIC_123: [u8; 23] = [
    0x30, 0x15, 0x30, 0x0d, 0x06, 0x09, 0x2a, 0x86, 0x48, 0x86, 0xf7, 0x0d, 0x01, 0x01, 0x01, 0x05,
    0x00, 0x03, 0x04, 0x00, 0x01, 0x02, 0x03,
];

#[test]
fn a_private_key_is_wrapped_with_version_and_octet_string() {
    assert_eq!(to_pkcs8(&[1, 2, 3], false), PRIVATE_123.to_vec());
    assert_eq!(RsaKeyPair::to_pkcs8(&[1, 2, 3], false), PRIVATE_123.to_vec());
}

#[test]
fn a_public_key_is_wrapped_with_a_bit_string() {
    assert_eq!(to_pkcs8(&[1, 2, 3], true), PUBLIC_123.to_vec());
}

#[test]
fn an_empty_key_is_wrapped_too() {
    let wrapped = to_pkcs8(&[], false);
    assert_eq!(&wrapped[..2], &[0x30, 0x14]);
    assert_eq!(&wrapped[wrapped.len() - 2..], &[0x04, 0x00]);
    assert_eq!(from_pkcs8(&wrapped, false), Some(vec![]));
    assert_eq!(from_pkcs8(&to_pkcs8(&[], true), true), Some(vec![]));
}

#[test]
fn envelopes_are_detected() {
    assert_eq!(detect_pkcs8(&PRIVATE_123, false), Some(()));
    assert_eq!(detect_pkcs8(&PUBLIC_123, true), Some(()));
    assert_eq!(RsaKeyPair::detect_pkcs8(&PRIVATE_123, false), Some(()));
    assert_eq!(detect_pkcs8(&PRIVATE_123, true), None);
    assert_eq!(detect_pkcs8(&PUBLIC_123, false), None);
    assert_eq!(detect_pkcs8(&[], false), None);
    assert_eq!(detect_pkcs8(&[1, 2, 3], false), None);
}

#[test]
fn unwrapping_gives_the_key_back() {
    for len in [0usize, 1, 2, 100, 127, 128, 255, 256, 1000, 70000] {
        let raw: Vec<u8> = (0..len).map(|i| (i * 7 + 3) as u8).collect();
        for is_public in [false, true] {
            let wrapped = to_pkcs8(&raw, is_public);
            assert_eq!(detect_pkcs8(&wrapped, is_public), Some(()));
            assert_eq!(from_pkcs8(&wrapped, is_public), Some(raw.clone()));
        }
    }
    assert_eq!(from_pkcs8(&PRIVATE_123, false), Some(vec![1, 2, 3]));
    assert_eq!(from_pkcs8(&PUBLIC_123, true), Some(vec![1, 2, 3]));
}

#[test]
fn wrapping_twice_is_unwrapped_twice() {
    let raw = vec![9u8, 8, 7];
    let twice = to_pkcs8(&to_pkcs8(&raw, false), false);
    let once = from_pkcs8(&twice, false).unwrap();
    assert_eq!(from_pkcs8(&once, false), Some(raw));
}

#[test]
fn a_wrong_version_is_not_detected() {
    let mut bytes = PRIVATE_123.to_vec();
    bytes[4] = 0x01;
    assert_eq!(detect_pkcs8(&bytes, false), None);
    assert_eq!(from_pkcs8(&bytes, false), None);
    let padded_zero = [
        0x30, 0x18, 0x02, 0x02, 0x00, 0x00, 0x30, 0x0d, 0x06, 0x09, 0x2a, 0x86, 0x48, 0x86, 0xf7,
        0x0d, 0x01, 0x01, 0x01, 0x05, 0x00, 0x04, 0x03, 0x01, 0x02, 0x03,
    ];
    assert_eq!(detect_pkcs8(&padded_zero, false), None);
}

#[test]
fn a_wrong_identifier_is_not_detected() {
    let mut bytes = PRIVATE_123.to_vec();
    bytes[17] = 0x02;
    assert_eq!(detect_pkcs8(&bytes, false), None);
    let mut public = PUBLIC_123.to_vec();
    public[12] = 0x0e;
    assert_eq!(detect_pkcs8(&public, true), None);
}

#[test]
fn a_missing_null_is_not_detected() {
    let bytes = [
        0x30, 0x15, 0x02, 0x01, 0x00, 0x30, 0x0b, 0x06, 0x09, 0x2a, 0x86, 0x48, 0x86, 0xf7, 0x0d,
        0x01, 0x01, 0x01, 0x04, 0x03, 0x01, 0x02, 0x03,
    ];
    assert_eq!(detect_pkcs8(&bytes, false), None);
}

#[test]
fn other_parameters_are_not_detected() {
    let with_integer = [
        0x30, 0x18, 0x02, 0x01, 0x00, 0x30, 0x0e, 0x06, 0x09, 0x2a, 0x86, 0x48, 0x86, 0xf7, 0x0d,
        0x01, 0x01, 0x01, 0x02, 0x01, 0x00, 0x04, 0x03, 0x01, 0x02, 0x03,
    ];
    assert_eq!(detect_pkcs8(&with_integer, false), None);
    let with_two_nulls = [
        0x30, 0x19, 0x02, 0x01, 0x00, 0x30, 0x0f, 0x06, 0x09, 0x2a, 0x86, 0x48, 0x86, 0xf7, 0x0d,
        0x01, 0x01, 0x01, 0x05, 0x00, 0x05, 0x00, 0x04, 0x03, 0x01, 0x02, 0x03,
    ];
    assert_eq!(detect_pkcs8(&with_two_nulls, false), None);
}

#[test]
fn missing_or_extra_fields_are_not_detected() {
    let without_key = &PRIVATE_123[..20];
    let mut shorter = without_key.to_vec();
    shorter[1] = 0x12;
    assert_eq!(detect_pkcs8(&shorter, false), None);
    let mut extra_inside = PRIVATE_123.to_vec();
    extra_inside.extend_from_slice(&[0x05, 0x00]);
    extra_inside[1] = 0x19;
    assert_eq!(detect_pkcs8(&extra_inside, false), None);
    let mut extra_after = PRIVATE_123.to_vec();
    extra_after.push(0x00);
    assert_eq!(detect_pkcs8(&extra_after, false), None);
    let without_version = &PUBLIC_123;
    assert_eq!(detect_pkcs8(&without_version[..], false), None);
}

#[test]
fn truncated_envelopes_are_not_detected() {
    for cut in 0..PRIVATE_123.len() {
        assert_eq!(detect_pkcs8(&PRIVATE_123[..cut], false), None);
    }
    for cut in 0..PUBLIC_123.len() {
        assert_eq!(detect_pkcs8(&PUBLIC_123[..cut], true), None);
    }
}

#[test]
fn a_wrong_key_field_is_not_detected() {
    let mut octets_in_public = PUBLIC_123.to_vec();
    octets_in_public[17] = 0x04;
    assert_eq!(detect_pkcs8(&octets_in_public, true), None);
    let mut unused_bits = PUBLIC_123.to_vec();
    unused_bits[19] = 0x01;
    assert_eq!(detect_pkcs8(&unused_bits, true), None);
    let mut bits_in_private = PRIVATE_123.to_vec();
    bits_in_private[20] = 0x03;
    assert_eq!(detect_pkcs8(&bits_in_private, false), None);
}

#[test]
fn lengths_that_are_not_minimal_are_not_detected() {
    let long_form = [
        0x30, 0x81, 0x17, 0x02, 0x01, 0x00, 0x30, 0x0d, 0x06, 0x09, 0x2a, 0x86, 0x48, 0x86, 0xf7,
        0x0d, 0x01, 0x01, 0x01, 0x05, 0x00, 0x04, 0x03, 0x01, 0x02, 0x03,
    ];
    assert_eq!(detect_pkcs8(&long_form, false), None);
}

#[test]
fn der_that_is_an_envelope_is_kept_and_other_der_is_wrapped() {
    assert_eq!(RsaKeyPair::der_to_pkcs8(&PRIVATE_123), PRIVATE_123.to_vec());
    assert_eq!(RsaKeyPair::der_to_pkcs8(&[1, 2, 3]), PRIVATE_123.to_vec());
    assert_eq!(RsaKeyPair::der_to_pkcs8(&PUBLIC_123), to_pkcs8(&PUBLIC_123, false));
}
