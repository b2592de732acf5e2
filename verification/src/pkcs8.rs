//! The PKCS#8 envelopes of RSA keys: PrivateKeyInfo round a PKCS#1
//! RSAPrivateKey, and SubjectPublicKeyInfo round a PKCS#1 RSAPublicKey.

use vstd::prelude::*;
use vstd::slice::slice_subrange;
use vstd::slice::slice_to_vec;
use crate::der::builder::DerBuilder;
use crate::der::element::{
    expect_element, lemma_expect_element_at_end, lemma_expect_element_complete,
    lemma_expect_element_sound, lemma_tlv_prefix_free, tlv,
};
use crate::der::integer::{
    content_as_u8, decode_u8, integer_content, lemma_magnitude_sound, lemma_u8_round_trip,
    unsigned_magnitude,
};
use crate::der::oid::{
    lemma_oid_content_injective, oid_content, rsa_encryption_arcs, valid_arcs, ObjectIdentifier,
};
use crate::der::reader::DerReader;
use crate::der::tag::DerType;

verus! {

/// The version field of a PrivateKeyInfo: INTEGER 0.
pub open spec fn version_element() -> Seq<u8> {
    tlv(DerType::Integer, integer_content(seq![0u8], false))
}

/// What an AlgorithmIdentifier for RSA holds: rsaEncryption, then NULL.
pub open spec fn rsa_algorithm() -> Seq<u8> {
    tlv(DerType::ObjectIdentifier, oid_content(rsa_encryption_arcs())) + tlv(
        DerType::Null,
        Seq::empty(),
    )
}

/// The field that carries the key: an OCTET STRING for a private key, a BIT
/// STRING without unused bits for a public key.
pub open spec fn key_element(raw: Seq<u8>, is_public: bool) -> Seq<u8> {
    if is_public {
        tlv(DerType::BitString, seq![0u8] + raw)
    } else {
        tlv(DerType::OctetString, raw)
    }
}

/// The fields that stand before the AlgorithmIdentifier: the version for a
/// private key, nothing for a public key.
pub open spec fn version_fields(is_public: bool) -> Seq<u8> {
    if is_public {
        Seq::empty()
    } else {
        version_element()
    }
}

/// A SEQUENCE of some leading fields, an AlgorithmIdentifier that holds
/// `algorithm`, and some closing fields.
pub open spec fn envelope(leading: Seq<u8>, algorithm: Seq<u8>, closing: Seq<u8>) -> Seq<u8> {
    tlv(DerType::Sequence, leading + tlv(DerType::Sequence, algorithm) + closing)
}

/// The PKCS#8 envelope of the PKCS#1 key `raw`.
pub open spec fn pkcs8_encoding(raw: Seq<u8>, is_public: bool) -> Seq<u8> {
    envelope(version_fields(is_public), rsa_algorithm(), key_element(raw, is_public))
}

/// Whether `bytes` is the PKCS#8 envelope of some RSA key, and nothing else.
pub open spec fn is_pkcs8(bytes: Seq<u8>, is_public: bool) -> bool {
    exists|raw: Seq<u8>| bytes == #[trigger] pkcs8_encoding(raw, is_public)
}

spec fn after_version(s: Seq<u8>, is_public: bool) -> Option<Seq<u8>> {
    if is_public {
        Some(s)
    } else {
        match expect_element(s, DerType::Integer) {
            Ok((c, rest)) => if content_as_u8(c) == Some(0u8) {
                Some(rest)
            } else {
                None
            },
            Err(_) => None,
        }
    }
}

spec fn holds_rsa_algorithm(s: Seq<u8>) -> bool {
    match expect_element(s, DerType::ObjectIdentifier) {
        Ok((c, rest)) => c == oid_content(rsa_encryption_arcs()) && match expect_element(
            rest,
            DerType::Null,
        ) {
            Ok((nothing, end)) => nothing.len() == 0 && end.len() == 0,
            Err(_) => false,
        },
        Err(_) => false,
    }
}

spec fn closing_key(s: Seq<u8>, is_public: bool) -> Option<Seq<u8>> {
    if is_public {
        match expect_element(s, DerType::BitString) {
            Ok((c, rest)) => if rest.len() == 0 && c.len() > 0 && c[0] == 0 {
                Some(c.subrange(1, c.len() as int))
            } else {
                None
            },
            Err(_) => None,
        }
    } else {
        match expect_element(s, DerType::OctetString) {
            Ok((c, rest)) => if rest.len() == 0 {
                Some(c)
            } else {
                None
            },
            Err(_) => None,
        }
    }
}

/// The key inside `s`, read field by field as `from_pkcs8` does.
spec fn enveloped_key(s: Seq<u8>, is_public: bool) -> Option<Seq<u8>> {
    match expect_element(s, DerType::Sequence) {
        Err(_) => None,
        Ok((body, rest)) => if rest.len() != 0 {
            None
        } else {
            match after_version(body, is_public) {
                None => None,
                Some(fields) => match expect_element(fields, DerType::Sequence) {
                    Err(_) => None,
                    Ok((algorithm, closing)) => if holds_rsa_algorithm(algorithm) {
                        closing_key(closing, is_public)
                    } else {
                        None
                    },
                },
            }
        },
    }
}

proof fn lemma_enveloped_key_sound(s: Seq<u8>, is_public: bool)
    requires
        enveloped_key(s, is_public) is Some,
    ensures
        s == pkcs8_encoding(enveloped_key(s, is_public)->Some_0, is_public),
{
    let raw = enveloped_key(s, is_public)->Some_0;
    lemma_expect_element_sound(s, DerType::Sequence);
    let (body, rest) = expect_element(s, DerType::Sequence)->Ok_0;
    assert(s =~= tlv(DerType::Sequence, body));
    let fields = after_version(body, is_public)->Some_0;
    if !is_public {
        lemma_expect_element_sound(body, DerType::Integer);
        let c = (expect_element(body, DerType::Integer)->Ok_0).0;
        lemma_magnitude_sound(c);
        assert(unsigned_magnitude(c)->Some_0 =~= seq![0u8]);
    }
    assert(body =~= version_fields(is_public) + fields);
    lemma_expect_element_sound(fields, DerType::Sequence);
    let (algorithm, closing) = expect_element(fields, DerType::Sequence)->Ok_0;
    lemma_expect_element_sound(algorithm, DerType::ObjectIdentifier);
    let after_oid = (expect_element(algorithm, DerType::ObjectIdentifier)->Ok_0).1;
    lemma_expect_element_sound(after_oid, DerType::Null);
    let (nothing, end) = expect_element(after_oid, DerType::Null)->Ok_0;
    assert(nothing =~= Seq::empty());
    assert(algorithm =~= rsa_algorithm());
    if is_public {
        lemma_expect_element_sound(closing, DerType::BitString);
        let c = (expect_element(closing, DerType::BitString)->Ok_0).0;
        assert(c =~= seq![0u8] + raw);
    } else {
        lemma_expect_element_sound(closing, DerType::OctetString);
    }
    assert(closing =~= key_element(raw, is_public));
    assert(body =~= version_fields(is_public) + tlv(DerType::Sequence, rsa_algorithm())
        + key_element(raw, is_public));
}

proof fn lemma_enveloped_key_complete(raw: Seq<u8>, is_public: bool)
    requires
        pkcs8_encoding(raw, is_public).len() <= usize::MAX,
    ensures
        enveloped_key(pkcs8_encoding(raw, is_public), is_public) == Some(raw),
{
    let s = pkcs8_encoding(raw, is_public);
    let closing = key_element(raw, is_public);
    let algorithm = rsa_algorithm();
    let fields = tlv(DerType::Sequence, algorithm) + closing;
    let body = version_fields(is_public) + tlv(DerType::Sequence, algorithm) + closing;
    let none = Seq::<u8>::empty();
    assert(s =~= tlv(DerType::Sequence, body) + none);
    lemma_expect_element_complete(DerType::Sequence, body, none);
    if !is_public {
        let zero = integer_content(seq![0u8], false);
        lemma_u8_round_trip(0u8);
        assert(body =~= tlv(DerType::Integer, zero) + fields);
        lemma_expect_element_complete(DerType::Integer, zero, fields);
    } else {
        assert(body =~= fields);
    }
    lemma_expect_element_complete(DerType::Sequence, algorithm, closing);
    let oid = oid_content(rsa_encryption_arcs());
    let null = tlv(DerType::Null, none);
    lemma_expect_element_complete(DerType::ObjectIdentifier, oid, null);
    assert(null =~= tlv(DerType::Null, none) + none);
    lemma_expect_element_complete(DerType::Null, none, none);
    if is_public {
        let c = seq![0u8] + raw;
        assert(closing =~= tlv(DerType::BitString, c) + none);
        lemma_expect_element_complete(DerType::BitString, c, none);
        assert(c.subrange(1, c.len() as int) =~= raw);
    } else {
        assert(closing =~= tlv(DerType::OctetString, raw) + none);
        lemma_expect_element_complete(DerType::OctetString, raw, none);
    }
}

/// Unwrapping what was wrapped gives the key back: two keys with the same
/// envelope are the same key, so the key that `from_pkcs8` finds in the output
/// of `to_pkcs8` is the key that went in.
pub proof fn lemma_unwrap_after_wrap(raw: Seq<u8>, unwrapped: Seq<u8>, is_public: bool)
    requires
        pkcs8_encoding(raw, is_public).len() <= usize::MAX,
        pkcs8_encoding(unwrapped, is_public) == pkcs8_encoding(raw, is_public),
    ensures
        unwrapped == raw,
        is_pkcs8(pkcs8_encoding(raw, is_public), is_public),
{
    lemma_enveloped_key_complete(raw, is_public);
    lemma_enveloped_key_complete(unwrapped, is_public);
}

/// No buffer whose first field is an INTEGER with other value octets than
/// those of 0 is a PrivateKeyInfo, whatever else it holds.
pub proof fn lemma_other_version_is_no_pkcs8(
    version: Seq<u8>,
    algorithm: Seq<u8>,
    closing: Seq<u8>,
)
    requires
        version != integer_content(seq![0u8], false),
        envelope(tlv(DerType::Integer, version), algorithm, closing).len() <= usize::MAX,
    ensures
        !is_pkcs8(envelope(tlv(DerType::Integer, version), algorithm, closing), false),
{
    let s = envelope(tlv(DerType::Integer, version), algorithm, closing);
    let fields = tlv(DerType::Sequence, algorithm) + closing;
    let body = tlv(DerType::Integer, version) + tlv(DerType::Sequence, algorithm) + closing;
    let none = Seq::<u8>::empty();
    assert forall|raw: Seq<u8>| s != #[trigger] pkcs8_encoding(raw, false) by {
        if s == pkcs8_encoding(raw, false) {
            let zero = integer_content(seq![0u8], false);
            let rest = tlv(DerType::Sequence, rsa_algorithm()) + key_element(raw, false);
            let other = version_element() + tlv(DerType::Sequence, rsa_algorithm()) + key_element(
                raw,
                false,
            );
            assert(s =~= tlv(DerType::Sequence, body) + none);
            assert(s =~= tlv(DerType::Sequence, other) + none);
            lemma_tlv_prefix_free(DerType::Sequence, body, none, DerType::Sequence, other, none);
            assert(body =~= tlv(DerType::Integer, version) + fields);
            assert(other =~= tlv(DerType::Integer, zero) + rest);
            lemma_tlv_prefix_free(
                DerType::Integer,
                version,
                fields,
                DerType::Integer,
                zero,
                rest,
            );
        }
    }
}

/// No buffer with a version other than 0 is a PrivateKeyInfo, whatever else
/// it holds.
pub proof fn lemma_wrong_version_is_no_pkcs8(version: u8, algorithm: Seq<u8>, closing: Seq<u8>)
    requires
        version != 0,
        envelope(
            tlv(DerType::Integer, integer_content(seq![version], false)),
            algorithm,
            closing,
        ).len() <= usize::MAX,
    ensures
        !is_pkcs8(
            envelope(
                tlv(DerType::Integer, integer_content(seq![version], false)),
                algorithm,
                closing,
            ),
            false,
        ),
{
    let c = integer_content(seq![version], false);
    let fields = tlv(DerType::Sequence, algorithm) + closing;
    let body = tlv(DerType::Integer, c) + tlv(DerType::Sequence, algorithm) + closing;
    let s = envelope(tlv(DerType::Integer, c), algorithm, closing);
    let none = Seq::<u8>::empty();
    assert(s =~= tlv(DerType::Sequence, body) + none);
    lemma_expect_element_complete(DerType::Sequence, body, none);
    assert(body =~= tlv(DerType::Integer, c) + fields);
    lemma_expect_element_complete(DerType::Integer, c, fields);
    lemma_u8_round_trip(version);
    assert(enveloped_key(s, false) is None);
    lemma_refused_is_no_pkcs8(s, false);
}

/// No buffer whose AlgorithmIdentifier holds anything but rsaEncryption and
/// NULL is a PKCS#8 envelope of an RSA key: not with another identifier, not
/// without the NULL, not with parameters more.
pub proof fn lemma_other_algorithm_is_no_pkcs8(
    algorithm: Seq<u8>,
    closing: Seq<u8>,
    is_public: bool,
)
    requires
        algorithm != rsa_algorithm(),
        envelope(version_fields(is_public), algorithm, closing).len() <= usize::MAX,
    ensures
        !is_pkcs8(envelope(version_fields(is_public), algorithm, closing), is_public),
{
    let leading = version_fields(is_public);
    let s = envelope(leading, algorithm, closing);
    let body = leading + tlv(DerType::Sequence, algorithm) + closing;
    let none = Seq::<u8>::empty();
    assert forall|raw: Seq<u8>| s != #[trigger] pkcs8_encoding(raw, is_public) by {
        if s == pkcs8_encoding(raw, is_public) {
            let key = key_element(raw, is_public);
            let other = leading + tlv(DerType::Sequence, rsa_algorithm()) + key;
            assert(s =~= tlv(DerType::Sequence, body) + none);
            assert(s =~= tlv(DerType::Sequence, other) + none);
            lemma_tlv_prefix_free(DerType::Sequence, body, none, DerType::Sequence, other, none);
            let n = leading.len() as int;
            assert(body.subrange(n, body.len() as int) =~= tlv(DerType::Sequence, algorithm)
                + closing);
            assert(other.subrange(n, other.len() as int) =~= tlv(
                DerType::Sequence,
                rsa_algorithm(),
            ) + key);
            lemma_tlv_prefix_free(
                DerType::Sequence,
                algorithm,
                closing,
                DerType::Sequence,
                rsa_algorithm(),
                key,
            );
        }
    }
}

/// No buffer whose AlgorithmIdentifier names another algorithm than
/// rsaEncryption is a PKCS#8 envelope of an RSA key.
pub proof fn lemma_wrong_oid_is_no_pkcs8(
    arcs: Seq<u64>,
    parameters: Seq<u8>,
    closing: Seq<u8>,
    is_public: bool,
)
    requires
        valid_arcs(arcs),
        arcs != rsa_encryption_arcs(),
        envelope(
            version_fields(is_public),
            tlv(DerType::ObjectIdentifier, oid_content(arcs)) + parameters,
            closing,
        ).len() <= usize::MAX,
    ensures
        !is_pkcs8(
            envelope(
                version_fields(is_public),
                tlv(DerType::ObjectIdentifier, oid_content(arcs)) + parameters,
                closing,
            ),
            is_public,
        ),
{
    let algorithm = tlv(DerType::ObjectIdentifier, oid_content(arcs)) + parameters;
    let s = envelope(version_fields(is_public), algorithm, closing);
    lemma_reaches_algorithm(algorithm, closing, is_public);
    lemma_expect_element_complete(DerType::ObjectIdentifier, oid_content(arcs), parameters);
    if oid_content(arcs) == oid_content(rsa_encryption_arcs()) {
        lemma_oid_content_injective(arcs, rsa_encryption_arcs());
    }
    assert(enveloped_key(s, is_public) is None);
    lemma_refused_is_no_pkcs8(s, is_public);
}

/// No buffer whose AlgorithmIdentifier holds rsaEncryption alone, without the
/// NULL, is a PKCS#8 envelope of an RSA key.
pub proof fn lemma_missing_null_is_no_pkcs8(closing: Seq<u8>, is_public: bool)
    requires
        envelope(
            version_fields(is_public),
            tlv(DerType::ObjectIdentifier, oid_content(rsa_encryption_arcs())),
            closing,
        ).len() <= usize::MAX,
    ensures
        !is_pkcs8(
            envelope(
                version_fields(is_public),
                tlv(DerType::ObjectIdentifier, oid_content(rsa_encryption_arcs())),
                closing,
            ),
            is_public,
        ),
{
    let oid = oid_content(rsa_encryption_arcs());
    let algorithm = tlv(DerType::ObjectIdentifier, oid);
    let s = envelope(version_fields(is_public), algorithm, closing);
    let none = Seq::<u8>::empty();
    lemma_reaches_algorithm(algorithm, closing, is_public);
    assert(algorithm =~= tlv(DerType::ObjectIdentifier, oid) + none);
    lemma_expect_element_complete(DerType::ObjectIdentifier, oid, none);
    lemma_expect_element_at_end(DerType::Null);
    assert(enveloped_key(s, is_public) is None);
    lemma_refused_is_no_pkcs8(s, is_public);
}

proof fn lemma_reaches_algorithm(algorithm: Seq<u8>, closing: Seq<u8>, is_public: bool)
    requires
        envelope(version_fields(is_public), algorithm, closing).len() <= usize::MAX,
    ensures
        enveloped_key(envelope(version_fields(is_public), algorithm, closing), is_public) == if
            holds_rsa_algorithm(algorithm) {
            closing_key(closing, is_public)
        } else {
            None
        },
{
    let s = envelope(version_fields(is_public), algorithm, closing);
    let fields = tlv(DerType::Sequence, algorithm) + closing;
    let body = version_fields(is_public) + tlv(DerType::Sequence, algorithm) + closing;
    let none = Seq::<u8>::empty();
    assert(s =~= tlv(DerType::Sequence, body) + none);
    lemma_expect_element_complete(DerType::Sequence, body, none);
    if !is_public {
        let zero = integer_content(seq![0u8], false);
        lemma_u8_round_trip(0u8);
        assert(body =~= tlv(DerType::Integer, zero) + fields);
        lemma_expect_element_complete(DerType::Integer, zero, fields);
    } else {
        assert(body =~= fields);
    }
    lemma_expect_element_complete(DerType::Sequence, algorithm, closing);
}

proof fn lemma_refused_is_no_pkcs8(s: Seq<u8>, is_public: bool)
    requires
        s.len() <= usize::MAX,
        enveloped_key(s, is_public) is None,
    ensures
        !is_pkcs8(s, is_public),
{
    assert forall|raw: Seq<u8>| s != #[trigger] pkcs8_encoding(raw, is_public) by {
        if s == pkcs8_encoding(raw, is_public) {
            lemma_enveloped_key_complete(raw, is_public);
        }
    }
}

fn locate_key<'a>(input: &'a [u8], is_public: bool) -> (res: Option<&'a [u8]>)
    ensures
        match res {
            Some(key) => enveloped_key(input@, is_public) == Some(key@),
            None => enveloped_key(input@, is_public) is None,
        },
        input@.len() <= usize::MAX,
{
    let mut outer = DerReader::from_bytes(input);
    let body_bytes: &[u8] = match outer.read(DerType::Sequence) {
        Ok(c) => c,
        Err(_) => {
            return None;
        },
    };
    if !outer.at_end() {
        return None;
    }
    let mut body = DerReader::from_bytes(body_bytes);
    if !is_public {
        let version: &[u8] = match body.read(DerType::Integer) {
            Ok(c) => c,
            Err(_) => {
                return None;
            },
        };
        match decode_u8(version) {
            Some(v) => {
                if v != 0 {
                    return None;
                }
            },
            None => {
                return None;
            },
        }
    }
    let algorithm_bytes: &[u8] = match body.read(DerType::Sequence) {
        Ok(c) => c,
        Err(_) => {
            return None;
        },
    };
    let mut algorithm = DerReader::from_bytes(algorithm_bytes);
    let oid_bytes: &[u8] = match algorithm.read(DerType::ObjectIdentifier) {
        Ok(c) => c,
        Err(_) => {
            return None;
        },
    };
    let rsa = ObjectIdentifier::rsa_encryption();
    match ObjectIdentifier::from_der_content(oid_bytes) {
        Some(oid) => {
            if !oid.equals(&rsa) {
                proof {
                    if oid_content(oid@) == oid_content(rsa@) {
                        lemma_oid_content_injective(oid@, rsa@);
                    }
                }
                return None;
            }
        },
        None => {
            return None;
        },
    }
    let nothing: &[u8] = match algorithm.read(DerType::Null) {
        Ok(c) => c,
        Err(_) => {
            return None;
        },
    };
    if nothing.len() != 0 || !algorithm.at_end() {
        return None;
    }
    if is_public {
        let bits: &[u8] = match body.read(DerType::BitString) {
            Ok(c) => c,
            Err(_) => {
                return None;
            },
        };
        if !body.at_end() || bits.len() == 0 || bits[0] != 0 {
            return None;
        }
        Some(slice_subrange(bits, 1, bits.len()))
    } else {
        let octets: &[u8] = match body.read(DerType::OctetString) {
            Ok(c) => c,
            Err(_) => {
                return None;
            },
        };
        if !body.at_end() {
            return None;
        }
        Some(octets)
    }
}

/// The PKCS#1 key inside the PKCS#8 envelope `input`, or `None` where
/// `input` is no such envelope. What `to_pkcs8` made of a key is unwrapped
/// to that key.
pub fn from_pkcs8(input: &[u8], is_public: bool) -> (res: Option<Vec<u8>>)
    ensures
        match res {
            Some(raw) => input@ == pkcs8_encoding(raw@, is_public),
            None => !is_pkcs8(input@, is_public),
        },
        forall|raw: Seq<u8>|
            input@ == #[trigger] pkcs8_encoding(raw, is_public) ==> res is Some && res->Some_0@
                == raw,
{
    match locate_key(input, is_public) {
        Some(key) => {
            proof {
                lemma_enveloped_key_sound(input@, is_public);
                assert forall|raw: Seq<u8>|
                    input@ == #[trigger] pkcs8_encoding(raw, is_public) implies key@ == raw by {
                    lemma_unwrap_after_wrap(raw, key@, is_public);
                }
            }
            Some(slice_to_vec(key))
        },
        None => {
            proof {
                lemma_refused_is_no_pkcs8(input@, is_public);
            }
            None
        },
    }
}

/// Tells whether `input` is the PKCS#8 envelope of an RSA key: a SEQUENCE of
/// the version 0 (private keys only), the AlgorithmIdentifier of
/// rsaEncryption with NULL parameters, and the key, with nothing besides.
/// Whatever departs from that is answered with `None`, never with an error.
pub fn detect_pkcs8(input: &[u8], is_public: bool) -> (res: Option<()>)
    ensures
        res is Some <==> is_pkcs8(input@, is_public),
{
    match locate_key(input, is_public) {
        Some(key) => {
            proof {
                lemma_enveloped_key_sound(input@, is_public);
            }
            Some(())
        },
        None => {
            proof {
                lemma_refused_is_no_pkcs8(input@, is_public);
            }
            None
        },
    }
}

/// Wraps the PKCS#1 key `input` in its PKCS#8 envelope.
pub fn to_pkcs8(input: &[u8], is_public: bool) -> (out: Vec<u8>)
    ensures
        out@ == pkcs8_encoding(input@, is_public),
{
    let mut builder = DerBuilder::new();
    let ghost none = Seq::<u8>::empty();
    assert(builder.buffer() =~= none);
    builder.begin(DerType::Sequence);
    {
        if !is_public {
            builder.append_integer_from_u8(0);
        }
        assert(builder.buffer() =~= version_fields(is_public));
        builder.begin(DerType::Sequence);
        {
            builder.append_object_identifier(&ObjectIdentifier::rsa_encryption());
            builder.append_null();
            assert(builder.buffer() =~= rsa_algorithm());
        }
        builder.end();
        if is_public {
            builder.append_bit_string_from_slice(input, 0);
        } else {
            builder.append_octed_string_from_slice(input);
        }
    }
    assert(builder.buffer() =~= version_fields(is_public) + tlv(
        DerType::Sequence,
        rsa_algorithm(),
    ) + key_element(input@, is_public));
    builder.end();
    assert(builder.buffer() =~= pkcs8_encoding(input@, is_public));
    builder.build()
}

} // verus!
