//! What every kind of key pair offers: its algorithm label, and the key in
//! DER, in PEM and as a JWK.

use vstd::prelude::*;
use crate::error::JoseError;
use crate::jwk::Jwk;

verus! {

/// A key pair of some kind.
pub trait KeyPair {
    /// The algorithm label.
    fn algorithm(&self) -> Option<&str>;

    /// The private key as a PKCS#8 PrivateKeyInfo in DER.
    fn to_der_private_key(&self) -> Result<Vec<u8>, JoseError>;

    /// The public key as a SubjectPublicKeyInfo in DER.
    fn to_der_public_key(&self) -> Result<Vec<u8>, JoseError>;

    /// The private key as a PKCS#8 PrivateKeyInfo in PEM.
    fn to_pem_private_key(&self) -> Result<Vec<u8>, JoseError>;

    /// The public key as a SubjectPublicKeyInfo in PEM.
    fn to_pem_public_key(&self) -> Result<Vec<u8>, JoseError>;

    /// The JWK of the private key.
    fn to_jwk_private_key(&self) -> Result<Jwk, JoseError>;

    /// The JWK of the public key.
    fn to_jwk_public_key(&self) -> Result<Jwk, JoseError>;

    /// The JWK of the key pair.
    fn to_jwk_keypair(&self) -> Result<Jwk, JoseError>;
}

} // verus!
