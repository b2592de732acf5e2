use rsa_keypair::der::builder::{append_bytes, append_element, DerBuilder};
use rsa_keypair::der::error::DerError;
use rsa_keypair::der::integer::{decode_u8, decode_unsigned, encode_integer, encode_u8};
use rsa_keypair::der::length::{decode_length, encode_length};
use rsa_keypair::der::oid::ObjectIdentifier;
use rsa_keypair::der::reader::DerReader;
use rsa_keypair::der::tag::DerType;

const RSA_OID_CONTENT: [u8; 9] = [0x2a, 0x86, 0x48, 0x86, 0xf7, 0x0d, 0x01, 0x01, 0x01];

#[test]
fn tag_bytes_are_the_universal_ones() {
    assert_eq!(DerType::Integer.tag_byte(), 0x02);
    assert_eq!(DerType::BitString.tag_byte(), 0x03);
    assert_eq!(DerType::OctetString.tag_byte(), 0x04);
    assert_eq!(DerType::Null.tag_byte(), 0x05);
    assert_eq!(DerType::ObjectIdentifier.tag_byte(), 0x06);
    assert_eq!(DerType::Sequence.tag_byte(), 0x30);
}

#[test]
fn every_tag_byte_reads_back_as_its_type() {
    let all = [
        DerType::Integer,
        DerType::BitString,
        DerType::OctetString,
        DerType::Null,
        DerType::ObjectIdentifier,
        DerType::Sequence,
    ];
    for t in all {
        assert_eq!(DerType::from_tag_byte(t.tag_byte()), Some(t));
    }
    let mut known = 0;
    for byte in 0..=255u8 {
        if DerType::from_tag_byte(byte).is_some() {
            known += 1;
        }
    }
    assert_eq!(known, 6);
    assert_eq!(DerType::from_tag_byte(0x01), None);
    assert_eq!(DerType::from_tag_byte(0x31), None);
}

#[test]
fn only_the_sequence_is_constructed() {
    assert!(DerType::Sequence.is_constructed());
    assert!(!DerType::Integer.is_constructed());
    assert!(!DerType::OctetString.is_constructed());
}

#[test]
fn short_lengths_take_one_octet() {
    assert_eq!(encode_length(0), vec![0x00]);
    assert_eq!(encode_length(1), vec![0x01]);
    assert_eq!(encode_length(127), vec![0x7f]);
}

#[test]
fn long_lengths_take_the_fewest_digits() {
    assert_eq!(encode_length(128), vec![0x81, 0x80]);
    assert_eq!(encode_length(255), vec![0x81, 0xff]);
    assert_eq!(encode_length(256), vec![0x82, 0x01, 0x00]);
    assert_eq!(encode_length(65535), vec![0x82, 0xff, 0xff]);
    assert_eq!(encode_length(65536), vec![0x83, 0x01, 0x00, 0x00]);
    assert_eq!(encode_length(0x0102_0304), vec![0x84, 0x01, 0x02, 0x03, 0x04]);
}

#[test]
fn lengths_read_back() {
    for n in [0usize, 1, 127, 128, 255, 256, 4660, 65535, 65536, 1 << 24, 0xffff_ffff] {
        let mut bytes = vec![0xaa, 0xbb];
        let octets = encode_length(n);
        bytes.extend_from_slice(&octets);
        bytes.push(0xcc);
        assert_eq!(decode_length(&bytes, 2), Ok((n, octets.len())));
    }
}

#[test]
fn lengths_that_are_not_der_are_refused() {
    assert_eq!(decode_length(&[], 0), Err(DerError::UnexpectedEnd));
    assert_eq!(decode_length(&[0x05], 1), Err(DerError::UnexpectedEnd));
    assert_eq!(decode_length(&[0x80], 0), Err(DerError::InvalidLength));
    assert_eq!(decode_length(&[0x81], 0), Err(DerError::UnexpectedEnd));
    assert_eq!(decode_length(&[0x82, 0x01], 0), Err(DerError::UnexpectedEnd));
    assert_eq!(decode_length(&[0x81, 0x7f], 0), Err(DerError::InvalidLength));
    assert_eq!(decode_length(&[0x82, 0x00, 0x80], 0), Err(DerError::InvalidLength));
    assert_eq!(
        decode_length(&[0x89, 1, 0, 0, 0, 0, 0, 0, 0, 0], 0),
        Err(DerError::InvalidLength)
    );
    assert_eq!(decode_length(&[0xff], 0), Err(DerError::UnexpectedEnd));
}

#[test]
fn a_set_high_bit_gets_a_zero_octet_in_front() {
    assert_eq!(encode_integer(&[0x80], false), vec![0x00, 0x80]);
    assert_eq!(encode_integer(&[0xff, 0x01], false), vec![0x00, 0xff, 0x01]);
    assert_eq!(encode_integer(&[0x7f], false), vec![0x7f]);
    assert_eq!(encode_integer(&[0x80], true), vec![0x80]);
}

#[test]
fn leading_zero_octets_are_stripped() {
    assert_eq!(encode_integer(&[0x00, 0x00, 0x7f], false), vec![0x7f]);
    assert_eq!(encode_integer(&[0x00, 0xc3], false), vec![0x00, 0xc3]);
    assert_eq!(encode_integer(&[], false), vec![0x00]);
    assert_eq!(encode_integer(&[0x00, 0x00], false), vec![0x00]);
    assert_eq!(encode_integer(&[0x00, 0x80], true), vec![0x80]);
}

#[test]
fn small_integers_are_written_in_one_or_two_octets() {
    assert_eq!(encode_u8(0), vec![0x00]);
    assert_eq!(encode_u8(1), vec![0x01]);
    assert_eq!(encode_u8(127), vec![0x7f]);
    assert_eq!(encode_u8(128), vec![0x00, 0x80]);
    assert_eq!(encode_u8(255), vec![0x00, 0xff]);
}

#[test]
fn small_integers_read_back() {
    for v in 0..=255u8 {
        assert_eq!(decode_u8(&encode_u8(v)), Some(v));
    }
}

#[test]
fn integers_outside_a_byte_are_refused() {
    assert_eq!(decode_u8(&[]), None);
    assert_eq!(decode_u8(&[0x80]), None);
    assert_eq!(decode_u8(&[0x01, 0x00]), None);
    assert_eq!(decode_u8(&[0x00, 0x05]), None);
    assert_eq!(decode_u8(&[0x00, 0x80, 0x00]), None);
    assert_eq!(decode_u8(&[0x00, 0x80]), Some(0x80));
}

#[test]
fn padded_integers_read_back_without_the_padding() {
    for value in [vec![0x80u8], vec![0xff, 0x00, 0x01], vec![0xc3; 256]] {
        let content = encode_integer(&value, false);
        assert_eq!(content[0], 0x00);
        assert_eq!(&content[1..], &value[..]);
        assert_eq!(decode_unsigned(&content), Some(value));
    }
}

#[test]
fn magnitudes_that_are_not_minimal_or_negative_are_refused() {
    assert_eq!(decode_unsigned(&[]), None);
    assert_eq!(decode_unsigned(&[0x80]), None);
    assert_eq!(decode_unsigned(&[0x00, 0x7f]), None);
    assert_eq!(decode_unsigned(&[0x00, 0x00]), None);
    assert_eq!(decode_unsigned(&[0x00]), Some(vec![0x00]));
    assert_eq!(decode_unsigned(&[0x01, 0x00]), Some(vec![0x01, 0x00]));
}

#[test]
fn the_rsa_identifier_has_its_known_octets() {
    let oid = ObjectIdentifier::rsa_encryption();
    assert_eq!(oid.arcs(), &[1, 2, 840, 113549, 1, 1, 1]);
    assert_eq!(oid.to_der_content(), RSA_OID_CONTENT.to_vec());
    let same = ObjectIdentifier::from_slice(&[1, 2, 840, 113549, 1, 1, 1]).unwrap();
    assert!(same.equals(&oid));
    assert!(oid.clone().equals(&oid));
    assert!(same == oid);
    assert!(ObjectIdentifier::from_slice(&[1, 2, 840]).unwrap() != oid);
}

#[test]
fn identifiers_read_back() {
    let oid = ObjectIdentifier::from_der_content(&RSA_OID_CONTENT).unwrap();
    assert!(oid.equals(&ObjectIdentifier::rsa_encryption()));
    for arcs in [
        vec![0u64, 0],
        vec![2, 39],
        vec![1, 2, 0],
        vec![1, 2, 127, 128, 16383, 16384],
        vec![2, 5, u64::MAX],
    ] {
        let oid = ObjectIdentifier::from_slice(&arcs).unwrap();
        let back = ObjectIdentifier::from_der_content(&oid.to_der_content()).unwrap();
        assert_eq!(back.arcs(), &arcs[..]);
    }
}

#[test]
fn arcs_are_written_in_base_128() {
    let oid = ObjectIdentifier::from_slice(&[1, 2, 127, 128, 16384]).unwrap();
    assert_eq!(oid.to_der_content(), vec![0x2a, 0x7f, 0x81, 0x00, 0x81, 0x80, 0x00]);
    let big = ObjectIdentifier::from_slice(&[2, 5, u64::MAX]).unwrap();
    assert_eq!(
        big.to_der_content(),
        vec![0x55, 0x81, 0xff, 0xff, 0xff, 0xff, 0xff, 0xff, 0xff, 0xff, 0x7f]
    );
}

#[test]
fn arcs_that_do_not_fit_the_first_octet_are_refused() {
    assert!(ObjectIdentifier::from_slice(&[]).is_none());
    assert!(ObjectIdentifier::from_slice(&[1]).is_none());
    assert!(ObjectIdentifier::from_slice(&[3, 1]).is_none());
    assert!(ObjectIdentifier::from_slice(&[1, 40]).is_none());
    assert!(ObjectIdentifier::from_slice(&[2, 39]).is_some());
}

#[test]
fn malformed_identifier_octets_are_refused() {
    assert!(ObjectIdentifier::from_der_content(&[]).is_none());
    assert!(ObjectIdentifier::from_der_content(&[0x78]).is_none());
    assert!(ObjectIdentifier::from_der_content(&[0x2a, 0x80, 0x01]).is_none());
    assert!(ObjectIdentifier::from_der_content(&[0x2a, 0x86]).is_none());
    assert!(ObjectIdentifier::from_der_content(&[0x2a, 0x01, 0x86, 0x80]).is_none());
    let too_big = [0x2a, 0x82, 0x80, 0x80, 0x80, 0x80, 0x80, 0x80, 0x80, 0x80, 0x00];
    assert!(ObjectIdentifier::from_der_content(&too_big).is_none());
    assert!(ObjectIdentifier::from_der_content(&[0x2a]).is_some());
}

#[test]
fn different_arcs_have_different_octets() {
    let lists: [&[u64]; 6] =
        [&[1, 2], &[1, 2, 0], &[1, 2, 128], &[1, 2, 1, 0], &[0, 2, 128], &[1, 2, 16384]];
    for a in lists {
        for b in lists {
            let x = ObjectIdentifier::from_slice(a).unwrap();
            let y = ObjectIdentifier::from_slice(b).unwrap();
            assert_eq!(x.to_der_content() == y.to_der_content(), a == b);
            assert_eq!(x.equals(&y), a == b);
        }
    }
}

#[test]
fn the_reader_walks_elements_in_turn() {
    let bytes = [0x02, 0x01, 0x05, 0x05, 0x00];
    let mut reader = DerReader::from_bytes(&bytes);
    assert_eq!(reader.der_type(), None);
    assert_eq!(reader.next(), Ok(Some(DerType::Integer)));
    assert_eq!(reader.der_type(), Some(DerType::Integer));
    assert_eq!(reader.length(), Some(1));
    assert_eq!(reader.to_u8(), Ok(5));
    assert_eq!(reader.length(), None);
    assert_eq!(reader.next(), Ok(Some(DerType::Null)));
    assert_eq!(reader.to_null(), Ok(()));
    assert!(reader.at_end());
    assert_eq!(reader.next(), Ok(None));
    assert_eq!(reader.next(), Ok(None));
}

#[test]
fn the_reader_steps_over_what_was_not_taken() {
    let bytes = [0x04, 0x02, 0xaa, 0xbb, 0x02, 0x01, 0x07];
    let mut reader = DerReader::from_bytes(&bytes);
    assert_eq!(reader.next(), Ok(Some(DerType::OctetString)));
    assert!(!reader.at_end());
    assert_eq!(reader.next(), Ok(Some(DerType::Integer)));
    assert_eq!(reader.to_u8(), Ok(7));
    assert_eq!(reader.next(), Ok(None));
}

#[test]
fn the_reader_steps_over_a_sequence_that_was_not_entered() {
    let bytes = [0x30, 0x03, 0x02, 0x01, 0x09, 0x05, 0x00];
    let mut reader = DerReader::from_bytes(&bytes);
    assert_eq!(reader.next(), Ok(Some(DerType::Sequence)));
    assert_eq!(reader.length(), Some(3));
    assert_eq!(reader.next(), Ok(Some(DerType::Null)));
    assert_eq!(reader.next(), Ok(None));
}

#[test]
fn a_nested_reader_sees_the_inside_of_a_sequence() {
    let bytes = [0x30, 0x03, 0x02, 0x01, 0x09, 0x05, 0x00];
    let mut outer = DerReader::from_bytes(&bytes);
    assert_eq!(outer.next(), Ok(Some(DerType::Sequence)));
    let mut inner = outer.nested().unwrap();
    assert_eq!(inner.next(), Ok(Some(DerType::Integer)));
    assert_eq!(inner.to_u8(), Ok(9));
    assert_eq!(inner.next(), Ok(None));
    assert_eq!(outer.next(), Ok(Some(DerType::Null)));
    assert_eq!(outer.nested().err(), Some(DerError::UnexpectedType));
}

#[test]
fn unsupported_tags_are_an_error() {
    let mut reader = DerReader::from_bytes(&[0x01, 0x01, 0xff]);
    assert_eq!(reader.next(), Err(DerError::UnsupportedTag));
    let mut set = DerReader::from_bytes(&[0x31, 0x00]);
    assert_eq!(set.next(), Err(DerError::UnsupportedTag));
}

#[test]
fn broken_headers_are_an_error() {
    assert_eq!(DerReader::from_bytes(&[0x02]).next(), Err(DerError::UnexpectedEnd));
    assert_eq!(DerReader::from_bytes(&[0x02, 0x80]).next(), Err(DerError::InvalidLength));
    assert_eq!(DerReader::from_bytes(&[0x02, 0x81, 0x05]).next(), Err(DerError::InvalidLength));
    assert_eq!(DerReader::from_bytes(&[0x02, 0x82, 0x01]).next(), Err(DerError::UnexpectedEnd));
    assert_eq!(DerReader::from_bytes(&[]).next(), Ok(None));
}

#[test]
fn values_that_run_past_the_input_are_an_error() {
    let bytes = [0x04, 0x05, 0x01];
    let mut reader = DerReader::from_bytes(&bytes);
    assert_eq!(reader.next(), Ok(Some(DerType::OctetString)));
    assert_eq!(reader.to_octet_string(), Err(DerError::UnexpectedEnd));
    assert_eq!(reader.next(), Err(DerError::UnexpectedEnd));
    assert!(reader.at_end());
}

#[test]
fn accessors_ask_for_their_own_type() {
    let bytes = [0x02, 0x01, 0x05];
    let mut reader = DerReader::from_bytes(&bytes);
    assert_eq!(reader.to_u8(), Err(DerError::UnexpectedType));
    assert_eq!(reader.next(), Ok(Some(DerType::Integer)));
    assert_eq!(reader.to_null(), Err(DerError::UnexpectedType));
    assert_eq!(reader.to_octet_string(), Err(DerError::UnexpectedType));
    assert_eq!(reader.to_bit_string(0), Err(DerError::UnexpectedType));
    assert_eq!(reader.to_object_identifier().err(), Some(DerError::UnexpectedType));
    assert_eq!(reader.contents(DerType::Sequence), Err(DerError::UnexpectedType));
    assert_eq!(reader.to_u8(), Ok(5));
    assert_eq!(reader.to_u8(), Err(DerError::UnexpectedType));
}

#[test]
fn the_reader_takes_integers() {
    let bytes = [0x02, 0x02, 0x00, 0x80, 0x02, 0x02, 0x01, 0x00, 0x02, 0x03, 0x00, 0xff, 0x01];
    let mut reader = DerReader::from_bytes(&bytes);
    assert_eq!(reader.next(), Ok(Some(DerType::Integer)));
    assert_eq!(reader.to_u8(), Ok(128));
    assert_eq!(reader.next(), Ok(Some(DerType::Integer)));
    assert_eq!(reader.to_u8(), Err(DerError::InvalidContents));
    assert_eq!(reader.next(), Ok(Some(DerType::Integer)));
    assert_eq!(reader.to_unsigned_be_bytes(), Ok(vec![0xff, 0x01]));
    assert_eq!(reader.next(), Ok(None));
}

#[test]
fn the_reader_takes_identifiers() {
    let mut bytes = vec![0x06, 0x09];
    bytes.extend_from_slice(&RSA_OID_CONTENT);
    bytes.extend_from_slice(&[0x06, 0x02, 0x2a, 0x80]);
    let mut reader = DerReader::from_bytes(&bytes);
    assert_eq!(reader.next(), Ok(Some(DerType::ObjectIdentifier)));
    let oid = reader.to_object_identifier().unwrap();
    assert!(oid.equals(&ObjectIdentifier::rsa_encryption()));
    assert_eq!(reader.next(), Ok(Some(DerType::ObjectIdentifier)));
    assert_eq!(reader.to_object_identifier().err(), Some(DerError::InvalidContents));
}

#[test]
fn the_reader_takes_strings() {
    let bytes = [0x04, 0x02, 0xaa, 0xbb, 0x03, 0x03, 0x00, 0xcc, 0xdd, 0x03, 0x02, 0x01, 0xee];
    let mut reader = DerReader::from_bytes(&bytes);
    assert_eq!(reader.next(), Ok(Some(DerType::OctetString)));
    assert_eq!(reader.to_octet_string(), Ok(&[0xaa, 0xbb][..]));
    assert_eq!(reader.next(), Ok(Some(DerType::BitString)));
    assert_eq!(reader.to_bit_string(0), Ok(&[0xcc, 0xdd][..]));
    assert_eq!(reader.next(), Ok(Some(DerType::BitString)));
    assert_eq!(reader.to_bit_string(0), Err(DerError::InvalidContents));
    assert_eq!(reader.next(), Ok(None));
    let mut other = DerReader::from_bytes(&[0x03, 0x02, 0x01, 0xee]);
    assert_eq!(other.next(), Ok(Some(DerType::BitString)));
    assert_eq!(other.to_bit_string(1), Ok(&[0xee][..]));
    let mut empty = DerReader::from_bytes(&[0x03, 0x00]);
    assert_eq!(empty.next(), Ok(Some(DerType::BitString)));
    assert_eq!(empty.to_bit_string(0), Err(DerError::InvalidContents));
}

#[test]
fn a_null_with_a_value_is_refused() {
    let mut reader = DerReader::from_bytes(&[0x05, 0x01, 0x00]);
    assert_eq!(reader.next(), Ok(Some(DerType::Null)));
    assert_eq!(reader.to_null(), Err(DerError::InvalidContents));
}

#[test]
fn read_takes_one_element_of_the_expected_type() {
    let bytes = [0x02, 0x01, 0x05, 0x04, 0x01, 0xaa];
    let mut reader = DerReader::from_bytes(&bytes);
    assert_eq!(reader.read(DerType::Integer), Ok(&[0x05][..]));
    assert_eq!(reader.read(DerType::OctetString), Ok(&[0xaa][..]));
    assert!(reader.at_end());
    assert_eq!(reader.read(DerType::Null), Err(DerError::UnexpectedEnd));
    let mut wrong = DerReader::from_bytes(&bytes);
    assert_eq!(wrong.read(DerType::Null), Err(DerError::UnexpectedType));
    let mut short = DerReader::from_bytes(&[0x04, 0x02, 0xaa]);
    assert_eq!(short.read(DerType::OctetString), Err(DerError::UnexpectedEnd));
    let mut both = DerReader::from_bytes(&[0x04, 0x02, 0xaa]);
    assert_eq!(both.read(DerType::Integer), Err(DerError::UnexpectedType));
    assert_eq!(both.der_type(), Some(DerType::OctetString));
    assert_eq!(both.length(), Some(2));
}

#[test]
fn the_builder_writes_elements_one_after_the_other() {
    let mut builder = DerBuilder::new();
    builder.append_integer_from_u8(5);
    builder.append_null();
    builder.append_octed_string_from_slice(&[0xaa, 0xbb]);
    builder.append_bit_string_from_slice(&[0xcc], 0);
    builder.append_object_identifier(&ObjectIdentifier::rsa_encryption());
    let mut expected =
        vec![0x02, 0x01, 0x05, 0x05, 0x00, 0x04, 0x02, 0xaa, 0xbb, 0x03, 0x02, 0x00, 0xcc];
    expected.extend_from_slice(&[0x06, 0x09]);
    expected.extend_from_slice(&RSA_OID_CONTENT);
    assert_eq!(builder.build(), expected);
}

#[test]
fn the_builder_nests_sequences() {
    let mut builder = DerBuilder::new();
    builder.append_null();
    builder.begin(DerType::Sequence);
    builder.append_integer_from_u8(1);
    builder.begin(DerType::Sequence);
    builder.append_integer_from_u8(200);
    builder.end();
    builder.begin(DerType::Sequence);
    builder.end();
    builder.append_null();
    builder.end();
    builder.append_integer_from_u8(3);
    assert_eq!(
        builder.build(),
        vec![
            0x05, 0x00, 0x30, 0x0d, 0x02, 0x01, 0x01, 0x30, 0x04, 0x02, 0x02, 0x00, 0xc8, 0x30,
            0x00, 0x05, 0x00, 0x02, 0x01, 0x03
        ]
    );
}

#[test]
fn the_builder_counts_its_open_sequences() {
    let mut builder = DerBuilder::new();
    assert_eq!(builder.depth(), 0);
    builder.begin(DerType::Sequence);
    builder.begin(DerType::Sequence);
    assert_eq!(builder.depth(), 2);
    builder.end();
    assert_eq!(builder.depth(), 1);
    builder.end();
    assert_eq!(builder.depth(), 0);
    assert_eq!(builder.build(), vec![0x30, 0x02, 0x30, 0x00]);
}

#[test]
fn an_empty_builder_builds_nothing() {
    assert_eq!(DerBuilder::new().build(), Vec::<u8>::new());
}

#[test]
fn the_builder_pads_integers_with_a_set_high_bit() {
    let mut builder = DerBuilder::new();
    builder.append_integer_from_be_slice(&[0x80, 0x01], false);
    builder.append_integer_from_be_slice(&[0x00, 0x00, 0x12], false);
    builder.append_integer_from_be_slice(&[0x80, 0x01], true);
    assert_eq!(
        builder.build(),
        vec![0x02, 0x03, 0x00, 0x80, 0x01, 0x02, 0x01, 0x12, 0x02, 0x02, 0x80, 0x01]
    );
}

#[test]
fn an_integer_of_127_octets_has_a_short_length() {
    let mut builder = DerBuilder::new();
    builder.append_integer_from_be_slice(&[0x01; 127], false);
    let out = builder.build();
    assert_eq!(out.len(), 2 + 127);
    assert_eq!(&out[..2], &[0x02, 0x7f]);
    assert_eq!(&out[2..], &[0x01; 127][..]);
}

#[test]
fn an_integer_of_128_octets_has_a_long_length() {
    let mut builder = DerBuilder::new();
    builder.append_integer_from_be_slice(&[0x01; 128], false);
    let out = builder.build();
    assert_eq!(out.len(), 3 + 128);
    assert_eq!(&out[..3], &[0x02, 0x81, 0x80]);
    assert_eq!(&out[3..], &[0x01; 128][..]);
    let mut padded = DerBuilder::new();
    padded.append_integer_from_be_slice(&[0xff; 127], false);
    assert_eq!(&padded.build()[..4], &[0x02, 0x81, 0x80, 0x00]);
}

#[test]
fn what_the_builder_writes_the_reader_reads() {
    let value = vec![0xc3u8; 300];
    let mut builder = DerBuilder::new();
    builder.begin(DerType::Sequence);
    builder.append_integer_from_be_slice(&value, false);
    builder.append_octed_string_from_slice(&value);
    builder.end();
    let bytes = builder.build();
    let mut outer = DerReader::from_bytes(&bytes);
    assert_eq!(outer.next(), Ok(Some(DerType::Sequence)));
    let mut inner = outer.nested().unwrap();
    assert_eq!(outer.next(), Ok(None));
    assert_eq!(inner.next(), Ok(Some(DerType::Integer)));
    assert_eq!(inner.to_unsigned_be_bytes(), Ok(value.clone()));
    assert_eq!(inner.next(), Ok(Some(DerType::OctetString)));
    assert_eq!(inner.to_octet_string(), Ok(&value[..]));
    assert_eq!(inner.next(), Ok(None));
}

#[test]
fn elements_are_appended_to_a_buffer() {
    let mut buffer = vec![0xff];
    append_bytes(&mut buffer, &[0x01, 0x02]);
    append_element(&mut buffer, DerType::OctetString, &[0x09]);
    assert_eq!(buffer, vec![0xff, 0x01, 0x02, 0x04, 0x01, 0x09]);
}
