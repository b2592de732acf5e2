//! The calls into OpenSSL. Nothing here is proved: each function hands its
//! arguments to one function of the `openssl` crate and its result back.
//! What OpenSSL gives for a key depends on that key alone; each such result
//! has a name, so that contracts can speak of it.

use openssl::bn::BigNumRef;
use openssl::error::ErrorStack;
use openssl::pkey::{PKey, Private};
use openssl::rsa::Rsa;
use vstd::prelude::*;

verus! {

/// `openssl::pkey::Private`, the mark of a key that has its private half.
#[verifier::external_type_specification]
#[verifier::external_body]
pub struct ExPrivate(Private);

/// `openssl::pkey::PKey`, a handle on a key that OpenSSL holds. Nothing of
/// the key is visible here.
#[verifier::external_type_specification]
#[verifier::external_body]
#[verifier::reject_recursive_types(T)]
pub struct ExPKey<T>(PKey<T>);

/// `openssl::rsa::Rsa`, a handle on an RSA key that OpenSSL holds. Nothing
/// of the key is visible here.
#[verifier::external_type_specification]
#[verifier::external_body]
#[verifier::reject_recursive_types(T)]
pub struct ExRsa<T>(Rsa<T>);

/// `openssl::error::ErrorStack`, what OpenSSL says when it refuses.
#[verifier::external_type_specification]
#[verifier::external_body]
pub struct ExErrorStack(ErrorStack);

/// `openssl::bn::BigNumRef`, a number that OpenSSL holds.
#[verifier::external_type_specification]
#[verifier::external_body]
pub struct ExBigNumRef(BigNumRef);

/// The RSA key inside a key handle, as `PKeyRef::rsa` hands it out: `None`
/// for a key of another kind.
pub uninterp spec fn rsa_of(key: PKey<Private>) -> Option<Rsa<Private>>;

/// The size of the modulus of an RSA key in bytes, as `RsaRef::size` gives
/// it.
pub uninterp spec fn rsa_modulus_size(rsa: Rsa<Private>) -> u32;

/// The PKCS#1 RSAPrivateKey of an RSA key in DER, as
/// `RsaRef::private_key_to_der` writes it.
pub uninterp spec fn rsa_private_der(rsa: Rsa<Private>) -> Seq<u8>;

/// The PKCS#1 RSAPrivateKey of an RSA key in PEM, as
/// `RsaRef::private_key_to_pem` writes it.
pub uninterp spec fn rsa_private_pem(rsa: Rsa<Private>) -> Seq<u8>;

/// The PKCS#1 RSAPublicKey of an RSA key in DER, as
/// `RsaRef::public_key_to_der_pkcs1` writes it.
pub uninterp spec fn rsa_public_der(rsa: Rsa<Private>) -> Seq<u8>;

/// The PKCS#1 RSAPublicKey of an RSA key in PEM, as
/// `RsaRef::public_key_to_pem_pkcs1` writes it.
pub uninterp spec fn rsa_public_pem(rsa: Rsa<Private>) -> Seq<u8>;

/// The SubjectPublicKeyInfo of a key in DER, as `PKeyRef::public_key_to_der`
/// writes it.
pub uninterp spec fn pkey_public_der(key: PKey<Private>) -> Seq<u8>;

/// The PKCS#8 PrivateKeyInfo of a key in PEM, as
/// `PKeyRef::private_key_to_pem_pkcs8` writes it.
pub uninterp spec fn pkey_private_pem(key: PKey<Private>) -> Seq<u8>;

/// The SubjectPublicKeyInfo of a key in PEM, as `PKeyRef::public_key_to_pem`
/// writes it.
pub uninterp spec fn pkey_public_pem(key: PKey<Private>) -> Seq<u8>;

/// The modulus of an RSA key, as `RsaRef::n` gives it.
pub uninterp spec fn rsa_modulus(rsa: Rsa<Private>) -> BigNumRef;

/// The public exponent of an RSA key, as `RsaRef::e` gives it.
pub uninterp spec fn rsa_public_exponent(rsa: Rsa<Private>) -> BigNumRef;

/// The private exponent of an RSA key, as `RsaRef::d` gives it.
pub uninterp spec fn rsa_private_exponent(rsa: Rsa<Private>) -> BigNumRef;

/// The first prime of an RSA key, as `RsaRef::p` gives it.
pub uninterp spec fn rsa_first_prime(rsa: Rsa<Private>) -> Option<BigNumRef>;

/// The second prime of an RSA key, as `RsaRef::q` gives it.
pub uninterp spec fn rsa_second_prime(rsa: Rsa<Private>) -> Option<BigNumRef>;

/// The private exponent modulo the first prime less one, as `RsaRef::dmp1`
/// gives it.
pub uninterp spec fn rsa_first_exponent(rsa: Rsa<Private>) -> Option<BigNumRef>;

/// The private exponent modulo the second prime less one, as `RsaRef::dmq1`
/// gives it.
pub uninterp spec fn rsa_second_exponent(rsa: Rsa<Private>) -> Option<BigNumRef>;

/// The inverse of the second prime modulo the first, as `RsaRef::iqmp`
/// gives it.
pub uninterp spec fn rsa_coefficient(rsa: Rsa<Private>) -> Option<BigNumRef>;

/// The magnitude of a number as big-endian bytes, as `BigNumRef::to_vec`
/// gives it.
pub uninterp spec fn bignum_bytes(number: BigNumRef) -> Seq<u8>;

/// Whether a big-endian number is written without a zero byte at its start.
pub open spec fn is_shortest(bytes: Seq<u8>) -> bool {
    bytes.len() > 0 ==> bytes[0] != 0
}

/// The `Display` text of a refusal of OpenSSL.
pub uninterp spec fn error_stack_text(error: ErrorStack) -> Seq<char>;

/// `Rsa::generate`: a fresh key of `bits` bits with the public exponent
/// 65537, or OpenSSL's refusal. The key is random: nothing is claimed of it.
#[verifier::external_body]
pub(crate) fn generate_rsa(bits: u32) -> (res: Result<Rsa<Private>, ErrorStack>) {
    Rsa::generate(bits)
}

/// `RsaRef::size`: the size of the modulus in bytes, which depends on the
/// key alone and is named `rsa_modulus_size`. It is the number of bytes
/// that `BigNumRef::to_vec` gives for the modulus.
#[verifier::external_body]
pub(crate) fn rsa_size(rsa: &Rsa<Private>) -> (size: u32)
    ensures
        size == rsa_modulus_size(*rsa),
        size == bignum_bytes(rsa_modulus(*rsa)).len(),
{
    rsa.size()
}

/// `PKey::from_rsa`: a key handle round an RSA key. The handle that comes
/// holds that RSA key, so that `PKeyRef::rsa` hands it out again.
#[verifier::external_body]
pub(crate) fn pkey_from_rsa(rsa: Rsa<Private>) -> (res: Result<PKey<Private>, ErrorStack>)
    ensures
        res is Ok ==> rsa_of(res->Ok_0) == Some(rsa),
{
    PKey::from_rsa(rsa)
}

/// `PKey::private_key_from_der`: the private key that OpenSSL reads from
/// DER, or its refusal. What is read is for the OpenSSL at hand to say:
/// nothing is claimed of it.
#[verifier::external_body]
pub(crate) fn private_key_from_der(der: &[u8]) -> (res: Result<PKey<Private>, ErrorStack>) {
    PKey::private_key_from_der(der)
}

/// `PKeyRef::rsa`: the RSA key inside a key handle, or OpenSSL's refusal
/// where the handle holds a key of another kind. Which of the two comes, and
/// which RSA key, depends on the key alone and is named `rsa_of`.
#[verifier::external_body]
pub(crate) fn pkey_rsa(key: &PKey<Private>) -> (res: Result<Rsa<Private>, ErrorStack>)
    ensures
        match res {
            Ok(rsa) => rsa_of(*key) == Some(rsa),
            Err(_) => rsa_of(*key) is None,
        },
{
    key.rsa()
}

/// `Clone::clone` of `PKey`: another handle on the same key.
#[verifier::external_body]
pub(crate) fn pkey_clone(key: &PKey<Private>) -> (res: PKey<Private>)
    ensures
        res == *key,
{
    key.clone()
}

/// `RsaRef::private_key_to_der`: the key as a PKCS#1 RSAPrivateKey in DER.
/// What is written depends on the key alone and is named `rsa_private_der`.
#[verifier::external_body]
pub(crate) fn rsa_private_key_to_der(rsa: &Rsa<Private>) -> (res: Result<Vec<u8>, ErrorStack>)
    ensures
        res is Ok ==> res->Ok_0@ == rsa_private_der(*rsa),
{
    rsa.private_key_to_der()
}

/// `RsaRef::private_key_to_pem`: the key as a PKCS#1 RSAPrivateKey in PEM.
/// What is written depends on the key alone and is named `rsa_private_pem`.
#[verifier::external_body]
pub(crate) fn rsa_private_key_to_pem(rsa: &Rsa<Private>) -> (res: Result<Vec<u8>, ErrorStack>)
    ensures
        res is Ok ==> res->Ok_0@ == rsa_private_pem(*rsa),
{
    rsa.private_key_to_pem()
}

/// `RsaRef::public_key_to_der_pkcs1`: the public key as a PKCS#1
/// RSAPublicKey in DER. What is written depends on the key alone and is
/// named `rsa_public_der`.
#[verifier::external_body]
pub(crate) fn rsa_public_key_to_der_pkcs1(rsa: &Rsa<Private>) -> (res: Result<
    Vec<u8>,
    ErrorStack,
>)
    ensures
        res is Ok ==> res->Ok_0@ == rsa_public_der(*rsa),
{
    rsa.public_key_to_der_pkcs1()
}

/// `RsaRef::public_key_to_pem_pkcs1`: the public key as a PKCS#1
/// RSAPublicKey in PEM. What is written depends on the key alone and is
/// named `rsa_public_pem`.
#[verifier::external_body]
pub(crate) fn rsa_public_key_to_pem_pkcs1(rsa: &Rsa<Private>) -> (res: Result<
    Vec<u8>,
    ErrorStack,
>)
    ensures
        res is Ok ==> res->Ok_0@ == rsa_public_pem(*rsa),
{
    rsa.public_key_to_pem_pkcs1()
}

/// `PKeyRef::public_key_to_der`: the public key as a SubjectPublicKeyInfo in
/// DER. What is written depends on the key alone and is named
/// `pkey_public_der`.
#[verifier::external_body]
pub(crate) fn pkey_public_key_to_der(key: &PKey<Private>) -> (res: Result<Vec<u8>, ErrorStack>)
    ensures
        res is Ok ==> res->Ok_0@ == pkey_public_der(*key),
{
    key.public_key_to_der()
}

/// `PKeyRef::private_key_to_pem_pkcs8`: the key as a PKCS#8 PrivateKeyInfo
/// in PEM. What is written depends on the key alone and is named
/// `pkey_private_pem`.
#[verifier::external_body]
pub(crate) fn pkey_private_key_to_pem_pkcs8(key: &PKey<Private>) -> (res: Result<
    Vec<u8>,
    ErrorStack,
>)
    ensures
        res is Ok ==> res->Ok_0@ == pkey_private_pem(*key),
{
    key.private_key_to_pem_pkcs8()
}

/// `PKeyRef::public_key_to_pem`: the public key as a SubjectPublicKeyInfo in
/// PEM. What is written depends on the key alone and is named
/// `pkey_public_pem`.
#[verifier::external_body]
pub(crate) fn pkey_public_key_to_pem(key: &PKey<Private>) -> (res: Result<Vec<u8>, ErrorStack>)
    ensures
        res is Ok ==> res->Ok_0@ == pkey_public_pem(*key),
{
    key.public_key_to_pem()
}

/// `RsaRef::n`: the modulus, named `rsa_modulus`.
#[verifier::external_body]
pub(crate) fn rsa_n(rsa: &Rsa<Private>) -> (res: &BigNumRef)
    ensures
        *res == rsa_modulus(*rsa),
{
    rsa.n()
}

/// `RsaRef::e`: the public exponent, named `rsa_public_exponent`.
#[verifier::external_body]
pub(crate) fn rsa_e(rsa: &Rsa<Private>) -> (res: &BigNumRef)
    ensures
        *res == rsa_public_exponent(*rsa),
{
    rsa.e()
}

/// `RsaRef::d`: the private exponent, named `rsa_private_exponent`.
#[verifier::external_body]
pub(crate) fn rsa_d(rsa: &Rsa<Private>) -> (res: &BigNumRef)
    ensures
        *res == rsa_private_exponent(*rsa),
{
    rsa.d()
}

/// `RsaRef::p`: the first prime, if the key has it, named
/// `rsa_first_prime`.
#[verifier::external_body]
pub(crate) fn rsa_p(rsa: &Rsa<Private>) -> (res: Option<&BigNumRef>)
    ensures
        match res {
            Some(number) => rsa_first_prime(*rsa) == Some(*number),
            None => rsa_first_prime(*rsa) is None,
        },
{
    rsa.p()
}

/// `RsaRef::q`: the second prime, if the key has it, named
/// `rsa_second_prime`.
#[verifier::external_body]
pub(crate) fn rsa_q(rsa: &Rsa<Private>) -> (res: Option<&BigNumRef>)
    ensures
        match res {
            Some(number) => rsa_second_prime(*rsa) == Some(*number),
            None => rsa_second_prime(*rsa) is None,
        },
{
    rsa.q()
}

/// `RsaRef::dmp1`: the private exponent modulo the first prime less one, if
/// the key has it, named `rsa_first_exponent`.
#[verifier::external_body]
pub(crate) fn rsa_dmp1(rsa: &Rsa<Private>) -> (res: Option<&BigNumRef>)
    ensures
        match res {
            Some(number) => rsa_first_exponent(*rsa) == Some(*number),
            None => rsa_first_exponent(*rsa) is None,
        },
{
    rsa.dmp1()
}

/// `RsaRef::dmq1`: the private exponent modulo the second prime less one, if
/// the key has it, named `rsa_second_exponent`.
#[verifier::external_body]
pub(crate) fn rsa_dmq1(rsa: &Rsa<Private>) -> (res: Option<&BigNumRef>)
    ensures
        match res {
            Some(number) => rsa_second_exponent(*rsa) == Some(*number),
            None => rsa_second_exponent(*rsa) is None,
        },
{
    rsa.dmq1()
}

/// `RsaRef::iqmp`: the inverse of the second prime modulo the first, if the
/// key has it, named `rsa_coefficient`.
#[verifier::external_body]
pub(crate) fn rsa_iqmp(rsa: &Rsa<Private>) -> (res: Option<&BigNumRef>)
    ensures
        match res {
            Some(number) => rsa_coefficient(*rsa) == Some(*number),
            None => rsa_coefficient(*rsa) is None,
        },
{
    rsa.iqmp()
}

/// `BigNumRef::to_vec`: the magnitude of the number as big-endian bytes,
/// which depends on the number alone and is named `bignum_bytes`. There are
/// as many bytes as the significant bits of the number fill, so that the
/// first byte, if there is one, is not zero.
#[verifier::external_body]
pub(crate) fn bignum_to_vec(number: &BigNumRef) -> (res: Vec<u8>)
    ensures
        res@ == bignum_bytes(*number),
        is_shortest(res@),
{
    number.to_vec()
}

/// The `Display` text of an `ErrorStack`, which depends on the errors in it
/// alone and is named `error_stack_text`.
#[verifier::external_body]
pub(crate) fn error_stack_words(error: &ErrorStack) -> (words: String)
    ensures
        words@ == error_stack_text(*error),
{
    error.to_string()
}

} // verus!
