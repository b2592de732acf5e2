//! The PKCS#1 RSAPrivateKey structure, and the numbers of a key as JWK
//! parameters.

use vstd::prelude::*;
use vstd::utf8::encode_utf8;
use crate::b64::{
    base64_bytes, base64_decoded, base64url_text, decodable_len, decode_error_text, decode_error_words,
    decode_url_safe, encodable, encode_url_safe,
};
use crate::der::builder::DerBuilder;
use crate::der::element::tlv;
use crate::der::integer::integer_content;
use crate::der::tag::DerType;
use crate::error::{JoseError, KeyFormatError, KeyFormatErrorView, RsaParameter};
use crate::jwk::{Jwk, JwkValue, JwkView};

verus! {

/// The numbers of an RSA public key, each as big-endian bytes.
#[derive(Debug, Clone, PartialEq, Eq)]
pub struct RsaPublicNumbers {
    pub n: Vec<u8>,
    pub e: Vec<u8>,
}

/// The numbers of an RSA private key, each as big-endian bytes.
#[derive(Debug, Clone, PartialEq, Eq)]
pub struct RsaPrivateNumbers {
    pub n: Vec<u8>,
    pub e: Vec<u8>,
    pub d: Vec<u8>,
    pub p: Vec<u8>,
    pub q: Vec<u8>,
    pub dp: Vec<u8>,
    pub dq: Vec<u8>,
    pub qi: Vec<u8>,
}

pub struct RsaPublicNumbersView {
    pub n: Seq<u8>,
    pub e: Seq<u8>,
}

pub struct RsaPrivateNumbersView {
    pub n: Seq<u8>,
    pub e: Seq<u8>,
    pub d: Seq<u8>,
    pub p: Seq<u8>,
    pub q: Seq<u8>,
    pub dp: Seq<u8>,
    pub dq: Seq<u8>,
    pub qi: Seq<u8>,
}

impl View for RsaPublicNumbers {
    type V = RsaPublicNumbersView;

    open spec fn view(&self) -> RsaPublicNumbersView {
        RsaPublicNumbersView { n: self.n@, e: self.e@ }
    }
}

impl View for RsaPrivateNumbers {
    type V = RsaPrivateNumbersView;

    open spec fn view(&self) -> RsaPrivateNumbersView {
        RsaPrivateNumbersView {
            n: self.n@,
            e: self.e@,
            d: self.d@,
            p: self.p@,
            q: self.q@,
            dp: self.dp@,
            dq: self.dq@,
            qi: self.qi@,
        }
    }
}

/// The encoding of an unsigned number as a DER INTEGER.
pub open spec fn unsigned_integer(value: Seq<u8>) -> Seq<u8> {
    tlv(DerType::Integer, integer_content(value, false))
}

/// The PKCS#1 RSAPrivateKey of the numbers: the version 0, then the modulus,
/// the two exponents, the two primes, the two exponents modulo the primes
/// less one, and the coefficient, each an INTEGER that reads as positive.
pub open spec fn pkcs1_encoding(k: RsaPrivateNumbersView) -> Seq<u8> {
    tlv(
        DerType::Sequence,
        unsigned_integer(seq![0u8]) + unsigned_integer(k.n) + unsigned_integer(k.e)
            + unsigned_integer(k.d) + unsigned_integer(k.p) + unsigned_integer(k.q)
            + unsigned_integer(k.dp) + unsigned_integer(k.dq) + unsigned_integer(k.qi),
    )
}

/// What reading the parameter `p` of a JWK gives: its bytes, or the reason
/// why there are none.
pub open spec fn parameter_bytes(jwk: JwkView, p: RsaParameter) -> Result<
    Seq<u8>,
    KeyFormatErrorView,
> {
    if !jwk.parameters.contains_key(p.spec_name()) {
        Err(KeyFormatErrorView::MissingParameter(p))
    } else {
        match jwk.parameters[p.spec_name()] {
            None => Err(KeyFormatErrorView::ParameterNotString(p)),
            Some(text) => if !decodable_len(encode_utf8(text).len()) {
                Err(KeyFormatErrorView::TooLarge)
            } else {
                match base64_decoded(encode_utf8(text), true) {
                    Ok(bytes) => Ok(bytes),
                    Err(error) => Err(
                        KeyFormatErrorView::InvalidBase64(p, decode_error_text(error)),
                    ),
                }
            },
        }
    }
}

/// What reading a JWK as an RSA private key gives: its numbers, or the first
/// fault found, the key type first and then the parameters in the order n, e,
/// d, p, q, dp, dq, qi.
pub open spec fn private_numbers_of(jwk: JwkView) -> Result<
    RsaPrivateNumbersView,
    KeyFormatErrorView,
> {
    let n = parameter_bytes(jwk, RsaParameter::N);
    let e = parameter_bytes(jwk, RsaParameter::E);
    let d = parameter_bytes(jwk, RsaParameter::D);
    let p = parameter_bytes(jwk, RsaParameter::P);
    let q = parameter_bytes(jwk, RsaParameter::Q);
    let dp = parameter_bytes(jwk, RsaParameter::Dp);
    let dq = parameter_bytes(jwk, RsaParameter::Dq);
    let qi = parameter_bytes(jwk, RsaParameter::Qi);
    if jwk.key_type != "RSA"@ {
        Err(KeyFormatErrorView::InvalidKeyType(jwk.key_type))
    } else if n is Err {
        Err(n->Err_0)
    } else if e is Err {
        Err(e->Err_0)
    } else if d is Err {
        Err(d->Err_0)
    } else if p is Err {
        Err(p->Err_0)
    } else if q is Err {
        Err(q->Err_0)
    } else if dp is Err {
        Err(dp->Err_0)
    } else if dq is Err {
        Err(dq->Err_0)
    } else if qi is Err {
        Err(qi->Err_0)
    } else {
        Ok(
            RsaPrivateNumbersView {
                n: n->Ok_0,
                e: e->Ok_0,
                d: d->Ok_0,
                p: p->Ok_0,
                q: q->Ok_0,
                dp: dp->Ok_0,
                dq: dq->Ok_0,
                qi: qi->Ok_0,
            },
        )
    }
}

/// The parameters of the JWK of a public key.
pub open spec fn public_parameters(k: RsaPublicNumbersView) -> Map<Seq<char>, Option<Seq<char>>> {
    Map::<Seq<char>, Option<Seq<char>>>::empty().insert(
        "n"@,
        Some(base64url_text(k.n)),
    ).insert("e"@, Some(base64url_text(k.e)))
}

/// The parameters of the JWK of a private key.
pub open spec fn private_parameters(k: RsaPrivateNumbersView) -> Map<
    Seq<char>,
    Option<Seq<char>>,
> {
    public_parameters(RsaPublicNumbersView { n: k.n, e: k.e }).insert(
        "d"@,
        Some(base64url_text(k.d)),
    ).insert("p"@, Some(base64url_text(k.p))).insert("q"@, Some(base64url_text(k.q))).insert(
        "dp"@,
        Some(base64url_text(k.dp)),
    ).insert("dq"@, Some(base64url_text(k.dq))).insert("qi"@, Some(base64url_text(k.qi)))
}

/// The PKCS#1 RSAPrivateKey of the numbers `k`.
pub fn to_pkcs1(k: &RsaPrivateNumbers) -> (out: Vec<u8>)
    ensures
        out@ == pkcs1_encoding(k@),
{
    let mut builder = DerBuilder::new();
    assert(builder.buffer() =~= Seq::<u8>::empty());
    builder.begin(DerType::Sequence);
    {
        builder.append_integer_from_u8(0);
        builder.append_integer_from_be_slice(k.n.as_slice(), false);
        builder.append_integer_from_be_slice(k.e.as_slice(), false);
        builder.append_integer_from_be_slice(k.d.as_slice(), false);
        builder.append_integer_from_be_slice(k.p.as_slice(), false);
        builder.append_integer_from_be_slice(k.q.as_slice(), false);
        builder.append_integer_from_be_slice(k.dp.as_slice(), false);
        builder.append_integer_from_be_slice(k.dq.as_slice(), false);
        builder.append_integer_from_be_slice(k.qi.as_slice(), false);
    }
    assert(builder.buffer() =~= unsigned_integer(seq![0u8]) + unsigned_integer(k@.n)
        + unsigned_integer(k@.e) + unsigned_integer(k@.d) + unsigned_integer(k@.p)
        + unsigned_integer(k@.q) + unsigned_integer(k@.dp) + unsigned_integer(k@.dq)
        + unsigned_integer(k@.qi));
    builder.end();
    assert(builder.buffer() =~= pkcs1_encoding(k@));
    builder.build()
}

/// Reads the parameter `p` of `jwk`, which must be there, be a string, and
/// be base64url.
pub fn parameter_from_jwk(jwk: &Jwk, p: RsaParameter) -> (res: Result<Vec<u8>, JoseError>)
    ensures
        match res {
            Ok(bytes) => parameter_bytes(jwk@, p) == Ok::<Seq<u8>, KeyFormatErrorView>(bytes@),
            Err(e) => parameter_bytes(jwk@, p) == Err::<Seq<u8>, KeyFormatErrorView>(e@),
        },
{
    match jwk.parameter(p.name()) {
        None => Err(JoseError::InvalidKeyFormat(KeyFormatError::MissingParameter(p))),
        Some(JwkValue::Other) => Err(
            JoseError::InvalidKeyFormat(KeyFormatError::ParameterNotString(p)),
        ),
        Some(JwkValue::Text(text)) => {
            let bytes: &[u8] = text.as_str().as_bytes();
            if bytes.len() > usize::MAX - 7 {
                return Err(JoseError::InvalidKeyFormat(KeyFormatError::TooLarge));
            }
            match decode_url_safe(bytes) {
                Ok(value) => Ok(value),
                Err(error) => Err(
                    JoseError::InvalidKeyFormat(
                        KeyFormatError::InvalidBase64(p, decode_error_words(&error)),
                    ),
                ),
            }
        },
    }
}

/// Reads `jwk` as an RSA private key: its key type must be RSA, and each of
/// n, e, d, p, q, dp, dq and qi must be there as a base64url string.
pub fn private_numbers_from_jwk(jwk: &Jwk) -> (res: Result<RsaPrivateNumbers, JoseError>)
    ensures
        match res {
            Ok(k) => private_numbers_of(jwk@) == Ok::<RsaPrivateNumbersView, KeyFormatErrorView>(
                k@,
            ),
            Err(e) => private_numbers_of(jwk@) == Err::<
                RsaPrivateNumbersView,
                KeyFormatErrorView,
            >(e@),
        },
{
    let key_type: String = jwk.key_type().to_owned();
    if key_type != "RSA".to_owned() {
        return Err(JoseError::InvalidKeyFormat(KeyFormatError::InvalidKeyType(key_type)));
    }
    let n: Vec<u8> = match parameter_from_jwk(jwk, RsaParameter::N) {
        Ok(v) => v,
        Err(e) => {
            return Err(e);
        },
    };
    let e: Vec<u8> = match parameter_from_jwk(jwk, RsaParameter::E) {
        Ok(v) => v,
        Err(e) => {
            return Err(e);
        },
    };
    let d: Vec<u8> = match parameter_from_jwk(jwk, RsaParameter::D) {
        Ok(v) => v,
        Err(e) => {
            return Err(e);
        },
    };
    let p: Vec<u8> = match parameter_from_jwk(jwk, RsaParameter::P) {
        Ok(v) => v,
        Err(e) => {
            return Err(e);
        },
    };
    let q: Vec<u8> = match parameter_from_jwk(jwk, RsaParameter::Q) {
        Ok(v) => v,
        Err(e) => {
            return Err(e);
        },
    };
    let dp: Vec<u8> = match parameter_from_jwk(jwk, RsaParameter::Dp) {
        Ok(v) => v,
        Err(e) => {
            return Err(e);
        },
    };
    let dq: Vec<u8> = match parameter_from_jwk(jwk, RsaParameter::Dq) {
        Ok(v) => v,
        Err(e) => {
            return Err(e);
        },
    };
    let qi: Vec<u8> = match parameter_from_jwk(jwk, RsaParameter::Qi) {
        Ok(v) => v,
        Err(e) => {
            return Err(e);
        },
    };
    Ok(RsaPrivateNumbers { n, e, d, p, q, dp, dq, qi })
}

/// Whether the base64url text of `value` is read back as `value`.
pub open spec fn reads_back(value: Seq<u8>) -> bool {
    &&& decodable_len(encode_utf8(base64url_text(value)).len())
    &&& base64_bytes(encode_utf8(base64url_text(value)), true) == Some(value)
}

fn set_number(jwk: &mut Jwk, p: RsaParameter, value: &[u8]) -> (fits: bool)
    ensures
        fits == encodable(value@),
        fits ==> reads_back(value@),
        fits ==> final(jwk)@ == (JwkView {
            parameters: old(jwk)@.parameters.insert(p.spec_name(), Some(base64url_text(value@))),
            ..old(jwk)@
        }),
{
    if value.len() / 3 > (usize::MAX - 10) / 4 {
        return false;
    }
    jwk.set_parameter(p.name(), JwkValue::Text(encode_url_safe(value)));
    true
}

/// The names of the eight parameters differ from one another.
pub proof fn lemma_parameter_names_differ(a: RsaParameter, b: RsaParameter)
    ensures
        a.spec_name() == b.spec_name() <==> a == b,
{
    reveal_strlit("n");
    reveal_strlit("e");
    reveal_strlit("d");
    reveal_strlit("p");
    reveal_strlit("q");
    reveal_strlit("dp");
    reveal_strlit("dq");
    reveal_strlit("qi");
    if a != b && a.spec_name() == b.spec_name() {
        assert(a.spec_name().len() == b.spec_name().len());
        assert(a.spec_name()[0] == b.spec_name()[0]);
        if a.spec_name().len() == 2 {
            assert(a.spec_name()[1] == b.spec_name()[1]);
        }
    }
}

/// Reading the JWK of a public key as a private key fails at d, the first
/// parameter that it lacks, where n and e are read back from their text.
pub proof fn lemma_public_jwk_lacks_d(algorithm: Option<Seq<char>>, k: RsaPublicNumbersView)
    requires
        reads_back(k.n),
        reads_back(k.e),
    ensures
        private_numbers_of(
            JwkView { key_type: "RSA"@, algorithm: algorithm, parameters: public_parameters(k) },
        ) == Err::<RsaPrivateNumbersView, KeyFormatErrorView>(
            KeyFormatErrorView::MissingParameter(RsaParameter::D),
        ),
{
    let jwk = JwkView { key_type: "RSA"@, algorithm: algorithm, parameters: public_parameters(k) };
    lemma_parameter_names_differ(RsaParameter::N, RsaParameter::E);
    lemma_parameter_names_differ(RsaParameter::N, RsaParameter::D);
    lemma_parameter_names_differ(RsaParameter::E, RsaParameter::D);
    assert(parameter_bytes(jwk, RsaParameter::N) == Ok::<Seq<u8>, KeyFormatErrorView>(k.n));
    assert(parameter_bytes(jwk, RsaParameter::E) == Ok::<Seq<u8>, KeyFormatErrorView>(k.e));
    assert(!jwk.parameters.contains_key(RsaParameter::D.spec_name()));
}

/// Reading the JWK of a private key gives the numbers that were written to
/// it, where each of them is read back from its base64url text.
pub proof fn lemma_private_jwk_reads_back(algorithm: Option<Seq<char>>, k: RsaPrivateNumbersView)
    requires
        reads_back(k.n),
        reads_back(k.e),
        reads_back(k.d),
        reads_back(k.p),
        reads_back(k.q),
        reads_back(k.dp),
        reads_back(k.dq),
        reads_back(k.qi),
    ensures
        private_numbers_of(
            JwkView { key_type: "RSA"@, algorithm: algorithm, parameters: private_parameters(k) },
        ) == Ok::<RsaPrivateNumbersView, KeyFormatErrorView>(k),
{
    let jwk = JwkView { key_type: "RSA"@, algorithm: algorithm, parameters: private_parameters(k) };
    lemma_parameter_names_differ(RsaParameter::N, RsaParameter::E);
    lemma_parameter_names_differ(RsaParameter::N, RsaParameter::D);
    lemma_parameter_names_differ(RsaParameter::N, RsaParameter::P);
    lemma_parameter_names_differ(RsaParameter::N, RsaParameter::Q);
    lemma_parameter_names_differ(RsaParameter::N, RsaParameter::Dp);
    lemma_parameter_names_differ(RsaParameter::N, RsaParameter::Dq);
    lemma_parameter_names_differ(RsaParameter::N, RsaParameter::Qi);
    lemma_parameter_names_differ(RsaParameter::E, RsaParameter::D);
    lemma_parameter_names_differ(RsaParameter::E, RsaParameter::P);
    lemma_parameter_names_differ(RsaParameter::E, RsaParameter::Q);
    lemma_parameter_names_differ(RsaParameter::E, RsaParameter::Dp);
    lemma_parameter_names_differ(RsaParameter::E, RsaParameter::Dq);
    lemma_parameter_names_differ(RsaParameter::E, RsaParameter::Qi);
    lemma_parameter_names_differ(RsaParameter::D, RsaParameter::P);
    lemma_parameter_names_differ(RsaParameter::D, RsaParameter::Q);
    lemma_parameter_names_differ(RsaParameter::D, RsaParameter::Dp);
    lemma_parameter_names_differ(RsaParameter::D, RsaParameter::Dq);
    lemma_parameter_names_differ(RsaParameter::D, RsaParameter::Qi);
    lemma_parameter_names_differ(RsaParameter::P, RsaParameter::Q);
    lemma_parameter_names_differ(RsaParameter::P, RsaParameter::Dp);
    lemma_parameter_names_differ(RsaParameter::P, RsaParameter::Dq);
    lemma_parameter_names_differ(RsaParameter::P, RsaParameter::Qi);
    lemma_parameter_names_differ(RsaParameter::Q, RsaParameter::Dp);
    lemma_parameter_names_differ(RsaParameter::Q, RsaParameter::Dq);
    lemma_parameter_names_differ(RsaParameter::Q, RsaParameter::Qi);
    lemma_parameter_names_differ(RsaParameter::Dp, RsaParameter::Dq);
    lemma_parameter_names_differ(RsaParameter::Dp, RsaParameter::Qi);
    lemma_parameter_names_differ(RsaParameter::Dq, RsaParameter::Qi);
    assert(parameter_bytes(jwk, RsaParameter::N) == Ok::<Seq<u8>, KeyFormatErrorView>(k.n));
    assert(parameter_bytes(jwk, RsaParameter::E) == Ok::<Seq<u8>, KeyFormatErrorView>(k.e));
    assert(parameter_bytes(jwk, RsaParameter::D) == Ok::<Seq<u8>, KeyFormatErrorView>(k.d));
    assert(parameter_bytes(jwk, RsaParameter::P) == Ok::<Seq<u8>, KeyFormatErrorView>(k.p));
    assert(parameter_bytes(jwk, RsaParameter::Q) == Ok::<Seq<u8>, KeyFormatErrorView>(k.q));
    assert(parameter_bytes(jwk, RsaParameter::Dp) == Ok::<Seq<u8>, KeyFormatErrorView>(k.dp));
    assert(parameter_bytes(jwk, RsaParameter::Dq) == Ok::<Seq<u8>, KeyFormatErrorView>(k.dq));
    assert(parameter_bytes(jwk, RsaParameter::Qi) == Ok::<Seq<u8>, KeyFormatErrorView>(k.qi));
}

/// Whether the numbers of a public key have base64url text of a length that
/// this machine can address.
pub open spec fn public_encodable(k: RsaPublicNumbersView) -> bool {
    encodable(k.n) && encodable(k.e)
}

/// Whether the numbers of a private key have base64url text of a length that
/// this machine can address.
pub open spec fn private_encodable(k: RsaPrivateNumbersView) -> bool {
    &&& encodable(k.n)
    &&& encodable(k.e)
    &&& encodable(k.d)
    &&& encodable(k.p)
    &&& encodable(k.q)
    &&& encodable(k.dp)
    &&& encodable(k.dq)
    &&& encodable(k.qi)
}

/// The JWK of a public key: the key type RSA, the algorithm label if there
/// is one, and n and e as base64url text.
pub fn public_jwk(algorithm: Option<&str>, k: &RsaPublicNumbers) -> (res: Result<Jwk, JoseError>)
    ensures
        match res {
            Ok(jwk) => {
                &&& public_encodable(k@)
                &&& jwk@ == (JwkView {
                    key_type: "RSA"@,
                    algorithm: match algorithm {
                        Some(a) => Some(a@),
                        None => None,
                    },
                    parameters: public_parameters(k@),
                })
                &&& reads_back(k@.n)
                &&& reads_back(k@.e)
                &&& private_numbers_of(jwk@) == Err::<RsaPrivateNumbersView, KeyFormatErrorView>(
                    KeyFormatErrorView::MissingParameter(RsaParameter::D),
                )
            },
            Err(e) => !public_encodable(k@) && e@ == KeyFormatErrorView::TooLarge,
        },
{
    let mut jwk = Jwk::new("RSA");
    if let Some(a) = algorithm {
        jwk.set_algorithm(a);
    }
    if !set_number(&mut jwk, RsaParameter::N, k.n.as_slice()) {
        return Err(JoseError::InvalidKeyFormat(KeyFormatError::TooLarge));
    }
    if !set_number(&mut jwk, RsaParameter::E, k.e.as_slice()) {
        return Err(JoseError::InvalidKeyFormat(KeyFormatError::TooLarge));
    }
    proof {
        lemma_public_jwk_lacks_d(jwk@.algorithm, k@);
    }
    Ok(jwk)
}

/// The JWK of a private key: the key type RSA, the algorithm label if there
/// is one, and n, e, d, p, q, dp, dq and qi as base64url text.
pub fn private_jwk(algorithm: Option<&str>, k: &RsaPrivateNumbers) -> (res: Result<
    Jwk,
    JoseError,
>)
    ensures
        match res {
            Ok(jwk) => {
                &&& private_encodable(k@)
                &&& jwk@ == (JwkView {
                    key_type: "RSA"@,
                    algorithm: match algorithm {
                        Some(a) => Some(a@),
                        None => None,
                    },
                    parameters: private_parameters(k@),
                })
                &&& private_numbers_of(jwk@) == Ok::<RsaPrivateNumbersView, KeyFormatErrorView>(
                    k@,
                )
            },
            Err(e) => !private_encodable(k@) && e@ == KeyFormatErrorView::TooLarge,
        },
{
    let mut jwk = Jwk::new("RSA");
    if let Some(a) = algorithm {
        jwk.set_algorithm(a);
    }
    if !set_number(&mut jwk, RsaParameter::N, k.n.as_slice()) {
        return Err(JoseError::InvalidKeyFormat(KeyFormatError::TooLarge));
    }
    if !set_number(&mut jwk, RsaParameter::E, k.e.as_slice()) {
        return Err(JoseError::InvalidKeyFormat(KeyFormatError::TooLarge));
    }
    if !set_number(&mut jwk, RsaParameter::D, k.d.as_slice()) {
        return Err(JoseError::InvalidKeyFormat(KeyFormatError::TooLarge));
    }
    if !set_number(&mut jwk, RsaParameter::P, k.p.as_slice()) {
        return Err(JoseError::InvalidKeyFormat(KeyFormatError::TooLarge));
    }
    if !set_number(&mut jwk, RsaParameter::Q, k.q.as_slice()) {
        return Err(JoseError::InvalidKeyFormat(KeyFormatError::TooLarge));
    }
    if !set_number(&mut jwk, RsaParameter::Dp, k.dp.as_slice()) {
        return Err(JoseError::InvalidKeyFormat(KeyFormatError::TooLarge));
    }
    if !set_number(&mut jwk, RsaParameter::Dq, k.dq.as_slice()) {
        return Err(JoseError::InvalidKeyFormat(KeyFormatError::TooLarge));
    }
    if !set_number(&mut jwk, RsaParameter::Qi, k.qi.as_slice()) {
        return Err(JoseError::InvalidKeyFormat(KeyFormatError::TooLarge));
    }
    proof {
        lemma_private_jwk_reads_back(jwk@.algorithm, k@);
    }
    Ok(jwk)
}

} // verus!
