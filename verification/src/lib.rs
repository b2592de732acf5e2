//! Conversion of RSA key material between DER (PKCS#1 and PKCS#8), PEM and
//! JSON Web Key form, built on a small DER codec.

pub mod b64;
pub mod crypto;
pub mod der;
pub mod error;
pub mod jwk;
pub mod key_pair;
pub mod pem;
pub mod pkcs1;
pub mod pkcs8;
pub mod rsa;
