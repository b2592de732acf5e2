//! RSA key pairs: read from DER, PEM or JWK, written as DER, PEM or JWK.

use openssl::bn::BigNumRef;
use openssl::error::ErrorStack;
use openssl::pkey::{PKey, Private};
use openssl::rsa::Rsa;
use vstd::prelude::*;
use vstd::utf8::{decode_utf8, encode_utf8_decode_utf8};
use crate::crypto::{
    bignum_bytes, bignum_to_vec, error_stack_text, is_shortest, error_stack_words, generate_rsa, pkey_clone,
    pkey_from_rsa, pkey_private_key_to_pem_pkcs8, pkey_private_pem, pkey_public_der,
    pkey_public_key_to_der, pkey_public_key_to_pem, pkey_public_pem, pkey_rsa,
    private_key_from_der, rsa_coefficient, rsa_d, rsa_dmp1, rsa_dmq1, rsa_e, rsa_first_exponent,
    rsa_first_prime, rsa_iqmp, rsa_modulus, rsa_modulus_size, rsa_n, rsa_of, rsa_p,
    rsa_private_der, rsa_private_exponent, rsa_private_key_to_der, rsa_private_key_to_pem,
    rsa_private_pem, rsa_public_der, rsa_public_exponent, rsa_public_key_to_der_pkcs1,
    rsa_public_key_to_pem_pkcs1, rsa_public_pem, rsa_q, rsa_second_exponent, rsa_second_prime,
    rsa_size,
};
use crate::error::{JoseError, KeyFormatError, KeyFormatErrorView, RsaParameter};
use crate::jwk::{Jwk, JwkView};
use crate::key_pair::KeyPair;
use crate::pem::{parse_pem, pem_contents};
use crate::pkcs1::{
    pkcs1_encoding, private_encodable, private_jwk, private_numbers_from_jwk,
    private_numbers_of, private_parameters, public_encodable, public_jwk, public_parameters,
    to_pkcs1, RsaPrivateNumbers, RsaPrivateNumbersView, RsaPublicNumbers, RsaPublicNumbersView,
};
use crate::pkcs8::{is_pkcs8, pkcs8_encoding};

verus! {

/// An RSA key pair: a private key that OpenSSL holds, the size of its
/// modulus in bytes, and the algorithm label that its JWK is to carry.
#[derive(Debug)]
pub struct RsaKeyPair {
    private_key: PKey<Private>,
    key_len: u32,
    alg: Option<String>,
}

/// The PKCS#8 bytes that `from_der` hands to OpenSSL for `input`: `input`
/// itself where it is a PrivateKeyInfo, else `input` wrapped as a PKCS#1 key.
pub open spec fn pkcs8_of_der(input: Seq<u8>) -> Seq<u8> {
    if is_pkcs8(input, false) {
        input
    } else {
        pkcs8_encoding(input, false)
    }
}

/// The PKCS#8 bytes that `from_pem` hands to OpenSSL for the contents `data`
/// of a PEM envelope with the label `label`, or the reason why it hands
/// none: under `PRIVATE KEY` the contents must be a PrivateKeyInfo, under
/// `RSA PRIVATE KEY` they are wrapped, and no other label is taken.
pub open spec fn pkcs8_of_labelled(label: Seq<char>, data: Seq<u8>) -> Result<
    Seq<u8>,
    KeyFormatErrorView,
> {
    if label == "PRIVATE KEY"@ {
        if is_pkcs8(data, false) {
            Ok(data)
        } else {
            Err(KeyFormatErrorView::InvalidPemContents)
        }
    } else if label == "RSA PRIVATE KEY"@ {
        Ok(pkcs8_encoding(data, false))
    } else {
        Err(KeyFormatErrorView::InappropriateAlgorithm(label))
    }
}

/// The PKCS#8 bytes that `from_pem` hands to OpenSSL for `input`, or the
/// reason why it hands none.
pub open spec fn pkcs8_of_pem(input: Seq<u8>) -> Result<Seq<u8>, KeyFormatErrorView> {
    match pem_contents(input) {
        None => Err(KeyFormatErrorView::InvalidPemFormat),
        Some((label, data)) => pkcs8_of_labelled(decode_utf8(label), data),
    }
}

/// The PKCS#8 bytes that `from_jwk` hands to OpenSSL for `jwk`, or the
/// reason why it hands none.
pub open spec fn pkcs8_of_jwk(jwk: JwkView) -> Result<Seq<u8>, KeyFormatErrorView> {
    match private_numbers_of(jwk) {
        Err(e) => Err(e),
        Ok(k) => Ok(pkcs8_encoding(pkcs1_encoding(k), false)),
    }
}

/// The bytes of a number that a key may lack.
pub open spec fn optional_number(found: Option<BigNumRef>) -> Option<Seq<u8>> {
    match found {
        Some(number) => Some(bignum_bytes(number)),
        None => None,
    }
}

/// The modulus and the public exponent of an RSA key, as OpenSSL holds
/// them.
pub open spec fn public_numbers_of_key(rsa: Rsa<Private>) -> RsaPublicNumbersView {
    RsaPublicNumbersView {
        n: bignum_bytes(rsa_modulus(rsa)),
        e: bignum_bytes(rsa_public_exponent(rsa)),
    }
}

/// The eight numbers of an RSA key, as OpenSSL holds them, or the first of
/// p, q, dp, dq and qi that the key lacks.
pub open spec fn private_numbers_of_key(rsa: Rsa<Private>) -> Result<
    RsaPrivateNumbersView,
    KeyFormatErrorView,
> {
    let p = optional_number(rsa_first_prime(rsa));
    let q = optional_number(rsa_second_prime(rsa));
    let dp = optional_number(rsa_first_exponent(rsa));
    let dq = optional_number(rsa_second_exponent(rsa));
    let qi = optional_number(rsa_coefficient(rsa));
    if p is None {
        Err(KeyFormatErrorView::MissingComponent(RsaParameter::P))
    } else if q is None {
        Err(KeyFormatErrorView::MissingComponent(RsaParameter::Q))
    } else if dp is None {
        Err(KeyFormatErrorView::MissingComponent(RsaParameter::Dp))
    } else if dq is None {
        Err(KeyFormatErrorView::MissingComponent(RsaParameter::Dq))
    } else if qi is None {
        Err(KeyFormatErrorView::MissingComponent(RsaParameter::Qi))
    } else {
        Ok(
            RsaPrivateNumbersView {
                n: bignum_bytes(rsa_modulus(rsa)),
                e: bignum_bytes(rsa_public_exponent(rsa)),
                d: bignum_bytes(rsa_private_exponent(rsa)),
                p: p->Some_0,
                q: q->Some_0,
                dp: dp->Some_0,
                dq: dq->Some_0,
                qi: qi->Some_0,
            },
        )
    }
}

/// Whether each of the eight numbers is written without a zero byte at its
/// start, as OpenSSL hands numbers out.
pub open spec fn all_shortest(k: RsaPrivateNumbersView) -> bool {
    &&& is_shortest(k.n)
    &&& is_shortest(k.e)
    &&& is_shortest(k.d)
    &&& is_shortest(k.p)
    &&& is_shortest(k.q)
    &&& is_shortest(k.dp)
    &&& is_shortest(k.dq)
    &&& is_shortest(k.qi)
}

/// The JWK of an RSA key with the algorithm label `algorithm`: with all
/// eight numbers where `private`, with n and e alone else; or the reason
/// why there is none, a number that the key lacks or that is too long.
pub open spec fn jwk_of_key(algorithm: Option<Seq<char>>, rsa: Rsa<Private>, private: bool)
    -> Result<JwkView, KeyFormatErrorView> {
    if private {
        match private_numbers_of_key(rsa) {
            Err(e) => Err(e),
            Ok(k) => if private_encodable(k) {
                Ok(
                    JwkView {
                        key_type: "RSA"@,
                        algorithm: algorithm,
                        parameters: private_parameters(k),
                    },
                )
            } else {
                Err(KeyFormatErrorView::TooLarge)
            },
        }
    } else {
        let k = public_numbers_of_key(rsa);
        if public_encodable(k) {
            Ok(JwkView { key_type: "RSA"@, algorithm: algorithm, parameters: public_parameters(k) })
        } else {
            Err(KeyFormatErrorView::TooLarge)
        }
    }
}

/// What `from_jwk` makes of the JWK that `to_jwk` wrote for a key: for the
/// private JWK the PKCS#8 form of the key's own numbers, which it hands to
/// OpenSSL; for the public JWK the refusal that d is missing.
pub open spec fn jwk_of_key_read_back(rsa: Rsa<Private>, private: bool) -> Result<
    Seq<u8>,
    KeyFormatErrorView,
> {
    if private {
        Ok(pkcs8_encoding(pkcs1_encoding(private_numbers_of_key(rsa)->Ok_0), false))
    } else {
        Err(KeyFormatErrorView::MissingParameter(RsaParameter::D))
    }
}

/// What a refusal of OpenSSL becomes: this library's error with the cause
/// `Crypto`, which carries OpenSSL's words.
pub fn refusal(error: &ErrorStack) -> (res: JoseError)
    ensures
        res@ == KeyFormatErrorView::Crypto(error_stack_text(*error)),
{
    JoseError::InvalidKeyFormat(KeyFormatError::Crypto(error_stack_words(error)))
}

/// What an export returns for OpenSSL's answer: the bytes that OpenSSL wrote,
/// as they are, or its refusal as this library's error.
pub fn exported(outcome: Result<Vec<u8>, ErrorStack>) -> (res: Result<Vec<u8>, JoseError>)
    ensures
        match outcome {
            Ok(bytes) => res is Ok && res->Ok_0 == bytes,
            Err(error) => res is Err && res->Err_0@ == KeyFormatErrorView::Crypto(
                error_stack_text(error),
            ),
        },
{
    match outcome {
        Ok(bytes) => Ok(bytes),
        Err(error) => Err(refusal(&error)),
    }
}

/// What reading the number `p` of a key returns for what OpenSSL holds: the
/// number, as it is, or that the key lacks it.
pub fn component(found: Option<Vec<u8>>, p: RsaParameter) -> (res: Result<Vec<u8>, JoseError>)
    ensures
        match found {
            Some(bytes) => res is Ok && res->Ok_0 == bytes,
            None => res is Err && res->Err_0@ == KeyFormatErrorView::MissingComponent(p),
        },
{
    match found {
        Some(bytes) => Ok(bytes),
        None => Err(JoseError::InvalidKeyFormat(KeyFormatError::MissingComponent(p))),
    }
}

fn owned_label(value: Option<&str>) -> (res: Option<String>)
    ensures
        match value {
            Some(v) => res is Some && res->Some_0@ == v@,
            None => res is None,
        },
{
    match value {
        Some(v) => Some(v.to_owned()),
        None => None,
    }
}

impl RsaKeyPair {
    /// The size of the modulus in bytes.
    pub closed spec fn spec_key_len(&self) -> u32 {
        self.key_len
    }

    /// The algorithm label.
    pub closed spec fn spec_algorithm(&self) -> Option<Seq<char>> {
        match self.alg {
            Some(a) => Some(a@),
            None => None,
        }
    }

    /// The key that OpenSSL holds.
    pub closed spec fn handle(&self) -> PKey<Private> {
        self.private_key
    }

    /// The RSA key inside the key that OpenSSL holds.
    pub open spec fn rsa_key(&self) -> Rsa<Private> {
        rsa_of(self.handle())->Some_0
    }

    /// What holds of every pair: its key is an RSA key, and its size is the
    /// size of the modulus of that key, the number of bytes of n.
    pub open spec fn sound(&self) -> bool {
        &&& rsa_of(self.handle()) is Some
        &&& self.spec_key_len() == rsa_modulus_size(self.rsa_key())
        &&& self.spec_key_len() == public_numbers_of_key(self.rsa_key()).n.len()
    }

    #[verifier::type_invariant]
    spec fn inv(self) -> bool {
        &&& rsa_of(self.private_key) is Some
        &&& self.key_len == rsa_modulus_size(rsa_of(self.private_key)->Some_0)
        &&& self.key_len == bignum_bytes(rsa_modulus(rsa_of(self.private_key)->Some_0)).len()
    }

    /// The size of the modulus in bytes.
    pub fn key_len(&self) -> (len: u32)
        ensures
            len == self.spec_key_len(),
            len == public_numbers_of_key(self.rsa_key()).n.len(),
            self.sound(),
    {
        proof {
            use_type_invariant(self);
        }
        self.key_len
    }

    /// Sets or clears the algorithm label; the key stays as it is.
    pub fn set_algorithm(&mut self, value: Option<&str>)
        ensures
            final(self).spec_algorithm() == match value {
                Some(v) => Some(v@),
                None => None,
            },
            final(self).spec_key_len() == old(self).spec_key_len(),
            final(self).handle() == old(self).handle(),
    {
        proof {
            use_type_invariant(&*self);
        }
        self.alg = owned_label(value);
    }

    fn assemble(private_key: PKey<Private>, key_len: u32) -> (pair: RsaKeyPair)
        requires
            rsa_of(private_key) is Some,
            key_len == rsa_modulus_size(rsa_of(private_key)->Some_0),
            key_len == bignum_bytes(rsa_modulus(rsa_of(private_key)->Some_0)).len(),
        ensures
            pair.handle() == private_key,
            pair.spec_key_len() == key_len,
            pair.spec_algorithm() is None,
            pair.sound(),
    {
        RsaKeyPair { private_key, key_len, alg: None }
    }

    /// The key pair round a private key that OpenSSL holds: that key, the
    /// size of its modulus, and no algorithm label. There is one for every
    /// RSA key, and none for a key of another kind.
    pub fn from_private_key(private_key: PKey<Private>) -> (res: Result<RsaKeyPair, JoseError>)
        ensures
            res is Ok <==> rsa_of(private_key) is Some,
            match res {
                Ok(pair) => {
                    &&& pair.handle() == private_key
                    &&& pair.spec_key_len() == rsa_modulus_size(rsa_of(private_key)->Some_0)
                    &&& pair.spec_algorithm() is None
                    &&& pair.sound()
                },
                Err(e) => e@ is Crypto,
            },
    {
        match pkey_rsa(&private_key) {
            Ok(rsa) => {
                let key_len: u32 = rsa_size(&rsa);
                Ok(Self::assemble(private_key, key_len))
            },
            Err(error) => Err(refusal(&error)),
        }
    }

    /// The key that OpenSSL holds, without the rest. It is an RSA key, so
    /// that `from_private_key` makes a pair of it again.
    pub fn into_private_key(self) -> (key: PKey<Private>)
        ensures
            key == self.handle(),
            rsa_of(key) is Some,
    {
        proof {
            use_type_invariant(&self);
        }
        self.private_key
    }

    /// Reads the key in the PKCS#8 bytes `pkcs8`. OpenSSL is handed `pkcs8`
    /// as it is and says whether that is a key; what becomes of the key it
    /// reads, `from_private_key` says.
    fn load(pkcs8: &[u8]) -> (res: Result<RsaKeyPair, JoseError>)
        ensures
            match res {
                Ok(pair) => pair.spec_algorithm() is None && pair.sound(),
                Err(e) => e@ is Crypto,
            },
    {
        match private_key_from_der(pkcs8) {
            Ok(private_key) => Self::from_private_key(private_key),
            Err(error) => Err(refusal(&error)),
        }
    }

    /// Generates a key pair of `bits` bits. OpenSSL is handed `bits` as it is
    /// and says whether a key comes; the pair holds the key that came, with
    /// the size that OpenSSL reports for its modulus and without an algorithm
    /// label.
    pub fn generate(bits: u32) -> (res: Result<RsaKeyPair, JoseError>)
        ensures
            match res {
                Ok(pair) => pair.spec_algorithm() is None && pair.sound(),
                Err(e) => e@ is Crypto,
            },
    {
        let rsa: Rsa<Private> = match generate_rsa(bits) {
            Ok(rsa) => rsa,
            Err(error) => {
                return Err(refusal(&error));
            },
        };
        let key_len: u32 = rsa_size(&rsa);
        match pkey_from_rsa(rsa) {
            Ok(private_key) => Ok(Self::assemble(private_key, key_len)),
            Err(error) => Err(refusal(&error)),
        }
    }

    /// Tells whether `input` is the PKCS#8 envelope of an RSA key.
    pub fn detect_pkcs8(input: &[u8], is_public: bool) -> (res: Option<()>)
        ensures
            res is Some <==> is_pkcs8(input@, is_public),
    {
        crate::pkcs8::detect_pkcs8(input, is_public)
    }

    /// Wraps the PKCS#1 key `input` in its PKCS#8 envelope.
    pub fn to_pkcs8(input: &[u8], is_public: bool) -> (out: Vec<u8>)
        ensures
            out@ == pkcs8_encoding(input@, is_public),
    {
        crate::pkcs8::to_pkcs8(input, is_public)
    }

    /// The PKCS#8 form of a private key in DER that is either a PKCS#8
    /// PrivateKeyInfo already or a PKCS#1 RSAPrivateKey.
    pub fn der_to_pkcs8(input: &[u8]) -> (out: Vec<u8>)
        ensures
            out@ == pkcs8_of_der(input@),
    {
        match crate::pkcs8::detect_pkcs8(input, false) {
            Some(_) => vstd::slice::slice_to_vec(input),
            None => crate::pkcs8::to_pkcs8(input, false),
        }
    }

    /// Reads a private key in DER: a PKCS#8 PrivateKeyInfo, or a PKCS#1
    /// RSAPrivateKey. OpenSSL is handed `der_to_pkcs8(input)` and says
    /// whether that is a key; what becomes of the key it reads,
    /// `from_private_key` says.
    pub fn from_der(input: &[u8]) -> (res: Result<RsaKeyPair, JoseError>)
        ensures
            match res {
                Ok(pair) => pair.spec_algorithm() is None && pair.sound(),
                Err(e) => e@ is Crypto,
            },
    {
        let pkcs8: Vec<u8> = Self::der_to_pkcs8(input);
        Self::load(pkcs8.as_slice())
    }

    /// The PKCS#8 form of the contents `data` of a PEM envelope with the
    /// label `label`.
    pub fn labelled_to_pkcs8(label: &str, data: &[u8]) -> (res: Result<Vec<u8>, JoseError>)
        ensures
            match res {
                Ok(der) => pkcs8_of_labelled(label@, data@) == Ok::<Seq<u8>, KeyFormatErrorView>(
                    der@,
                ),
                Err(e) => pkcs8_of_labelled(label@, data@) == Err::<Seq<u8>, KeyFormatErrorView>(
                    e@,
                ),
            },
    {
        let owned: String = label.to_owned();
        if owned == "PRIVATE KEY".to_owned() {
            match crate::pkcs8::detect_pkcs8(data, false) {
                Some(_) => Ok(vstd::slice::slice_to_vec(data)),
                None => Err(JoseError::InvalidKeyFormat(KeyFormatError::InvalidPemContents)),
            }
        } else if owned == "RSA PRIVATE KEY".to_owned() {
            Ok(crate::pkcs8::to_pkcs8(data, false))
        } else {
            Err(JoseError::InvalidKeyFormat(KeyFormatError::InappropriateAlgorithm(owned)))
        }
    }

    /// The PKCS#8 form of a private key in PEM.
    pub fn pem_to_pkcs8(input: &[u8]) -> (res: Result<Vec<u8>, JoseError>)
        ensures
            match res {
                Ok(der) => pkcs8_of_pem(input@) == Ok::<Seq<u8>, KeyFormatErrorView>(der@),
                Err(e) => pkcs8_of_pem(input@) == Err::<Seq<u8>, KeyFormatErrorView>(e@),
            },
    {
        match parse_pem(input) {
            Err(e) => Err(e),
            Ok((label, data)) => {
                proof {
                    encode_utf8_decode_utf8(label@);
                }
                Self::labelled_to_pkcs8(label.as_str(), data.as_slice())
            },
        }
    }

    /// Reads a private key in PEM: a PKCS#8 PrivateKeyInfo under the label
    /// `PRIVATE KEY`, or a PKCS#1 RSAPrivateKey under `RSA PRIVATE KEY`.
    /// Where the envelope or the label is at fault the error says so; else
    /// OpenSSL is handed the PKCS#8 form and says whether that is a key.
    pub fn from_pem(input: &[u8]) -> (res: Result<RsaKeyPair, JoseError>)
        ensures
            match pkcs8_of_pem(input@) {
                Err(cause) => res is Err && res->Err_0@ == cause,
                Ok(_) => match res {
                    Ok(pair) => pair.spec_algorithm() is None && pair.sound(),
                    Err(e) => e@ is Crypto,
                },
            },
    {
        match Self::pem_to_pkcs8(input) {
            Err(e) => Err(e),
            Ok(pkcs8) => Self::load(pkcs8.as_slice()),
        }
    }

    /// The PKCS#8 form of the RSA private key in `jwk`.
    pub fn jwk_to_pkcs8(jwk: &Jwk) -> (res: Result<Vec<u8>, JoseError>)
        ensures
            match res {
                Ok(der) => pkcs8_of_jwk(jwk@) == Ok::<Seq<u8>, KeyFormatErrorView>(der@),
                Err(e) => pkcs8_of_jwk(jwk@) == Err::<Seq<u8>, KeyFormatErrorView>(e@),
            },
    {
        match private_numbers_from_jwk(jwk) {
            Err(e) => Err(e),
            Ok(numbers) => {
                let pkcs1: Vec<u8> = to_pkcs1(&numbers);
                Ok(crate::pkcs8::to_pkcs8(pkcs1.as_slice(), false))
            },
        }
    }

    /// Reads a private key from a JWK of the key type RSA that has n, e, d,
    /// p, q, dp, dq and qi as base64url strings. Where the JWK is at fault
    /// the error names the parameter; else OpenSSL is handed the PKCS#8 form
    /// of the numbers and says whether that is a key.
    pub fn from_jwk(jwk: &Jwk) -> (res: Result<RsaKeyPair, JoseError>)
        ensures
            match pkcs8_of_jwk(jwk@) {
                Err(cause) => res is Err && res->Err_0@ == cause,
                Ok(_) => match res {
                    Ok(pair) => pair.spec_algorithm() is None && pair.sound(),
                    Err(e) => e@ is Crypto,
                },
            },
    {
        match Self::jwk_to_pkcs8(jwk) {
            Err(e) => Err(e),
            Ok(pkcs8) => Self::load(pkcs8.as_slice()),
        }
    }

    /// The RSA key inside the key of the pair, as OpenSSL hands it out.
    fn rsa(&self) -> (res: Result<Rsa<Private>, JoseError>)
        ensures
            res is Ok,
            res->Ok_0 == self.rsa_key(),
    {
        proof {
            use_type_invariant(self);
        }
        match pkey_rsa(&self.private_key) {
            Ok(rsa) => Ok(rsa),
            Err(error) => Err(refusal(&error)),
        }
    }

    /// The private key as a PKCS#1 RSAPrivateKey in DER, as OpenSSL writes
    /// it: OpenSSL is handed the key of the pair, and `exported` says what
    /// becomes of its answer.
    pub fn to_raw_private_key(&self) -> (res: Result<Vec<u8>, JoseError>)
        ensures
            match res {
                Ok(bytes) => bytes@ == rsa_private_der(self.rsa_key()),
                Err(e) => e@ is Crypto,
            },
    {
        match self.rsa() {
            Ok(rsa) => exported(rsa_private_key_to_der(&rsa)),
            Err(e) => Err(e),
        }
    }

    /// The private key as a PKCS#1 RSAPrivateKey in PEM, as OpenSSL writes
    /// it: OpenSSL is handed the key of the pair, and `exported` says what
    /// becomes of its answer.
    pub fn to_traditional_pem_private_key(&self) -> (res: Result<Vec<u8>, JoseError>)
        ensures
            match res {
                Ok(bytes) => bytes@ == rsa_private_pem(self.rsa_key()),
                Err(e) => e@ is Crypto,
            },
    {
        match self.rsa() {
            Ok(rsa) => exported(rsa_private_key_to_pem(&rsa)),
            Err(e) => Err(e),
        }
    }

    /// The public key as a PKCS#1 RSAPublicKey in DER, as OpenSSL writes it:
    /// OpenSSL is handed the key of the pair, and `exported` says what
    /// becomes of its answer.
    pub fn to_raw_public_key(&self) -> (res: Result<Vec<u8>, JoseError>)
        ensures
            match res {
                Ok(bytes) => bytes@ == rsa_public_der(self.rsa_key()),
                Err(e) => e@ is Crypto,
            },
    {
        match self.rsa() {
            Ok(rsa) => exported(rsa_public_key_to_der_pkcs1(&rsa)),
            Err(e) => Err(e),
        }
    }

    /// The public key as a PKCS#1 RSAPublicKey in PEM, as OpenSSL writes it:
    /// OpenSSL is handed the key of the pair, and `exported` says what
    /// becomes of its answer.
    pub fn to_traditional_pem_public_key(&self) -> (res: Result<Vec<u8>, JoseError>)
        ensures
            match res {
                Ok(bytes) => bytes@ == rsa_public_pem(self.rsa_key()),
                Err(e) => e@ is Crypto,
            },
    {
        match self.rsa() {
            Ok(rsa) => exported(rsa_public_key_to_pem_pkcs1(&rsa)),
            Err(e) => Err(e),
        }
    }

    /// The modulus and the public exponent, as OpenSSL gives them for the
    /// key of the pair. They are always there.
    pub fn to_public_numbers(&self) -> (res: Result<RsaPublicNumbers, JoseError>)
        ensures
            res is Ok,
            res->Ok_0@ == public_numbers_of_key(self.rsa_key()),
            res->Ok_0@.n.len() == self.spec_key_len(),
            is_shortest(res->Ok_0@.n),
            is_shortest(res->Ok_0@.e),
    {
        proof {
            use_type_invariant(self);
        }
        let rsa: Rsa<Private> = match self.rsa() {
            Ok(rsa) => rsa,
            Err(e) => {
                return Err(e);
            },
        };
        let n: Vec<u8> = bignum_to_vec(rsa_n(&rsa));
        let e: Vec<u8> = bignum_to_vec(rsa_e(&rsa));
        Ok(RsaPublicNumbers { n, e })
    }

    /// The eight numbers of the private key, as OpenSSL gives them. A key
    /// without its primes, its exponents modulo the primes less one, or its
    /// coefficient has no such numbers: the error names the first that lacks,
    /// as `component` says.
    pub fn to_private_numbers(&self) -> (res: Result<RsaPrivateNumbers, JoseError>)
        ensures
            match private_numbers_of_key(self.rsa_key()) {
                Ok(k) => res is Ok && res->Ok_0@ == k && k.n.len() == self.spec_key_len()
                    && all_shortest(k),
                Err(cause) => res is Err && res->Err_0@ == cause,
            },
    {
        proof {
            use_type_invariant(self);
        }
        let rsa: Rsa<Private> = match self.rsa() {
            Ok(rsa) => rsa,
            Err(e) => {
                return Err(e);
            },
        };
        let n: Vec<u8> = bignum_to_vec(rsa_n(&rsa));
        let e: Vec<u8> = bignum_to_vec(rsa_e(&rsa));
        let d: Vec<u8> = bignum_to_vec(rsa_d(&rsa));
        let p: Vec<u8> = match component(Self::bytes_of(rsa_p(&rsa)), RsaParameter::P) {
            Ok(bytes) => bytes,
            Err(e) => {
                return Err(e);
            },
        };
        let q: Vec<u8> = match component(Self::bytes_of(rsa_q(&rsa)), RsaParameter::Q) {
            Ok(bytes) => bytes,
            Err(e) => {
                return Err(e);
            },
        };
        let dp: Vec<u8> = match component(Self::bytes_of(rsa_dmp1(&rsa)), RsaParameter::Dp) {
            Ok(bytes) => bytes,
            Err(e) => {
                return Err(e);
            },
        };
        let dq: Vec<u8> = match component(Self::bytes_of(rsa_dmq1(&rsa)), RsaParameter::Dq) {
            Ok(bytes) => bytes,
            Err(e) => {
                return Err(e);
            },
        };
        let qi: Vec<u8> = match component(Self::bytes_of(rsa_iqmp(&rsa)), RsaParameter::Qi) {
            Ok(bytes) => bytes,
            Err(e) => {
                return Err(e);
            },
        };
        Ok(RsaPrivateNumbers { n, e, d, p, q, dp, dq, qi })
    }

    fn bytes_of(number: Option<&BigNumRef>) -> (res: Option<Vec<u8>>)
        ensures
            match number {
                Some(n) => res is Some && res->Some_0@ == bignum_bytes(*n) && is_shortest(
                    res->Some_0@,
                ),
                None => res is None,
            },
    {
        match number {
            Some(number) => Some(bignum_to_vec(number)),
            None => None,
        }
    }

    /// The key as a JWK of the key type RSA with the algorithm label of the
    /// pair: with all eight numbers of the key where `private`, with n and e
    /// alone else. `from_jwk` reads the private JWK back as the same numbers;
    /// it refuses the public JWK for want of d.
    pub fn to_jwk(&self, private: bool) -> (res: Result<Jwk, JoseError>)
        ensures
            match jwk_of_key(self.spec_algorithm(), self.rsa_key(), private) {
                Ok(jwk) => res is Ok && res->Ok_0@ == jwk && pkcs8_of_jwk(jwk)
                    == jwk_of_key_read_back(self.rsa_key(), private),
                Err(cause) => res is Err && res->Err_0@ == cause,
            },
    {
        if private {
            let numbers: RsaPrivateNumbers = match self.to_private_numbers() {
                Ok(numbers) => numbers,
                Err(e) => {
                    return Err(e);
                },
            };
            private_jwk(self.algorithm(), &numbers)
        } else {
            let numbers: RsaPublicNumbers = match self.to_public_numbers() {
                Ok(numbers) => numbers,
                Err(e) => {
                    return Err(e);
                },
            };
            public_jwk(self.algorithm(), &numbers)
        }
    }
}

impl KeyPair for RsaKeyPair {
    /// The algorithm label.
    fn algorithm(&self) -> (res: Option<&str>)
        ensures
            match res {
                Some(a) => self.spec_algorithm() == Some(a@),
                None => self.spec_algorithm() is None,
            },
    {
        match &self.alg {
            Some(val) => Some(val.as_str()),
            None => None,
        }
    }

    /// The private key as a PKCS#8 PrivateKeyInfo in DER: the envelope of
    /// this library round the PKCS#1 key that OpenSSL writes. `from_der`
    /// hands these bytes to OpenSSL as they are.
    fn to_der_private_key(&self) -> (res: Result<Vec<u8>, JoseError>)
        ensures
            match res {
                Ok(der) => {
                    &&& der@ == pkcs8_encoding(rsa_private_der(self.rsa_key()), false)
                    &&& is_pkcs8(der@, false)
                    &&& pkcs8_of_der(der@) == der@
                },
                Err(e) => e@ is Crypto,
            },
    {
        match self.to_raw_private_key() {
            Ok(raw) => Ok(crate::pkcs8::to_pkcs8(raw.as_slice(), false)),
            Err(e) => Err(e),
        }
    }

    /// The public key as a SubjectPublicKeyInfo in DER, as OpenSSL writes
    /// it: OpenSSL is handed the key of the pair, and `exported` says what
    /// becomes of its answer.
    fn to_der_public_key(&self) -> (res: Result<Vec<u8>, JoseError>)
        ensures
            match res {
                Ok(bytes) => bytes@ == pkey_public_der(self.handle()),
                Err(e) => e@ is Crypto,
            },
    {
        exported(pkey_public_key_to_der(&self.private_key))
    }

    /// The private key as a PKCS#8 PrivateKeyInfo in PEM, as OpenSSL writes
    /// it: OpenSSL is handed the key of the pair, and `exported` says what
    /// becomes of its answer.
    fn to_pem_private_key(&self) -> (res: Result<Vec<u8>, JoseError>)
        ensures
            match res {
                Ok(bytes) => bytes@ == pkey_private_pem(self.handle()),
                Err(e) => e@ is Crypto,
            },
    {
        exported(pkey_private_key_to_pem_pkcs8(&self.private_key))
    }

    /// The public key as a SubjectPublicKeyInfo in PEM, as OpenSSL writes
    /// it: OpenSSL is handed the key of the pair, and `exported` says what
    /// becomes of its answer.
    fn to_pem_public_key(&self) -> (res: Result<Vec<u8>, JoseError>)
        ensures
            match res {
                Ok(bytes) => bytes@ == pkey_public_pem(self.handle()),
                Err(e) => e@ is Crypto,
            },
    {
        exported(pkey_public_key_to_pem(&self.private_key))
    }

    /// The JWK of the private key: all eight numbers.
    fn to_jwk_private_key(&self) -> (res: Result<Jwk, JoseError>)
        ensures
            match jwk_of_key(self.spec_algorithm(), self.rsa_key(), true) {
                Ok(jwk) => res is Ok && res->Ok_0@ == jwk && pkcs8_of_jwk(jwk)
                    == jwk_of_key_read_back(self.rsa_key(), true),
                Err(cause) => res is Err && res->Err_0@ == cause,
            },
    {
        self.to_jwk(true)
    }

    /// The JWK of the public key: n and e alone.
    fn to_jwk_public_key(&self) -> (res: Result<Jwk, JoseError>)
        ensures
            match jwk_of_key(self.spec_algorithm(), self.rsa_key(), false) {
                Ok(jwk) => res is Ok && res->Ok_0@ == jwk && pkcs8_of_jwk(jwk)
                    == jwk_of_key_read_back(self.rsa_key(), false),
                Err(cause) => res is Err && res->Err_0@ == cause,
            },
    {
        self.to_jwk(false)
    }

    /// The JWK of the key pair: all eight numbers.
    fn to_jwk_keypair(&self) -> (res: Result<Jwk, JoseError>)
        ensures
            match jwk_of_key(self.spec_algorithm(), self.rsa_key(), true) {
                Ok(jwk) => res is Ok && res->Ok_0@ == jwk && pkcs8_of_jwk(jwk)
                    == jwk_of_key_read_back(self.rsa_key(), true),
                Err(cause) => res is Err && res->Err_0@ == cause,
            },
    {
        self.to_jwk(true)
    }
}

impl Clone for RsaKeyPair {
    fn clone(&self) -> (res: RsaKeyPair)
        ensures
            res.handle() == self.handle(),
            res.spec_key_len() == self.spec_key_len(),
            res.spec_algorithm() == self.spec_algorithm(),
    {
        proof {
            use_type_invariant(self);
        }
        RsaKeyPair {
            private_key: pkey_clone(&self.private_key),
            key_len: self.key_len,
            alg: match &self.alg {
                Some(a) => Some(a.clone()),
                None => None,
            },
        }
    }
}

} // verus!
