//! The one error that the conversions surface, and its causes.

use vstd::prelude::*;
use vstd::string::StringExecFns;

verus! {

/// The parameters of an RSA private key in a JWK.
#[derive(Clone, Copy, Debug, PartialEq, Eq, Structural)]
pub enum RsaParameter {
    N,
    E,
    D,
    P,
    Q,
    Dp,
    Dq,
    Qi,
}

impl RsaParameter {
    /// The name of the parameter in a JWK.
    pub open spec fn spec_name(self) -> Seq<char> {
        match self {
            RsaParameter::N => "n"@,
            RsaParameter::E => "e"@,
            RsaParameter::D => "d"@,
            RsaParameter::P => "p"@,
            RsaParameter::Q => "q"@,
            RsaParameter::Dp => "dp"@,
            RsaParameter::Dq => "dq"@,
            RsaParameter::Qi => "qi"@,
        }
    }

    pub fn name(self) -> (res: &'static str)
        ensures
            res@ == self.spec_name(),
    {
        match self {
            RsaParameter::N => "n",
            RsaParameter::E => "e",
            RsaParameter::D => "d",
            RsaParameter::P => "p",
            RsaParameter::Q => "q",
            RsaParameter::Dp => "dp",
            RsaParameter::Dq => "dq",
            RsaParameter::Qi => "qi",
        }
    }
}

/// Why key material was refused.
#[derive(Debug, Clone)]
pub enum KeyFormatError {
    /// The input is no PEM envelope.
    InvalidPemFormat,
    /// The PEM label promises PKCS#8 and the contents are not.
    InvalidPemContents,
    /// The PEM label is not one of an RSA private key; it is carried along.
    InappropriateAlgorithm(String),
    /// The key type of the JWK is not RSA; it is carried along.
    InvalidKeyType(String),
    /// The JWK lacks the parameter.
    MissingParameter(RsaParameter),
    /// The parameter of the JWK is not a string.
    ParameterNotString(RsaParameter),
    /// The parameter of the JWK is not base64url; the decoder's words are
    /// carried along.
    InvalidBase64(RsaParameter, String),
    /// The key lacks one of the numbers that a JWK of a private key needs.
    MissingComponent(RsaParameter),
    /// A value is too long for its encoding to be addressed on this machine.
    TooLarge,
    /// The cryptographic library refused; its words are carried along.
    Crypto(String),
}

/// A cause, with the words that it carries.
pub enum KeyFormatErrorView {
    InvalidPemFormat,
    InvalidPemContents,
    InappropriateAlgorithm(Seq<char>),
    InvalidKeyType(Seq<char>),
    MissingParameter(RsaParameter),
    ParameterNotString(RsaParameter),
    InvalidBase64(RsaParameter, Seq<char>),
    MissingComponent(RsaParameter),
    TooLarge,
    Crypto(Seq<char>),
}

impl View for KeyFormatError {
    type V = KeyFormatErrorView;

    open spec fn view(&self) -> KeyFormatErrorView {
        match self {
            KeyFormatError::InvalidPemFormat => KeyFormatErrorView::InvalidPemFormat,
            KeyFormatError::InvalidPemContents => KeyFormatErrorView::InvalidPemContents,
            KeyFormatError::InappropriateAlgorithm(label) => KeyFormatErrorView::InappropriateAlgorithm(
                label@,
            ),
            KeyFormatError::InvalidKeyType(kty) => KeyFormatErrorView::InvalidKeyType(kty@),
            KeyFormatError::MissingParameter(p) => KeyFormatErrorView::MissingParameter(*p),
            KeyFormatError::ParameterNotString(p) => KeyFormatErrorView::ParameterNotString(*p),
            KeyFormatError::InvalidBase64(p, words) => KeyFormatErrorView::InvalidBase64(
                *p,
                words@,
            ),
            KeyFormatError::MissingComponent(p) => KeyFormatErrorView::MissingComponent(*p),
            KeyFormatError::TooLarge => KeyFormatErrorView::TooLarge,
            KeyFormatError::Crypto(words) => KeyFormatErrorView::Crypto(words@),
        }
    }
}

impl KeyFormatError {
    /// The words of the cause.
    pub open spec fn spec_message(&self) -> Seq<char> {
        match self {
            KeyFormatError::InvalidPemFormat => "Invalid PEM format."@,
            KeyFormatError::InvalidPemContents => "Invalid PEM contents"@,
            KeyFormatError::InappropriateAlgorithm(label) => "Inappropriate algorithm: "@ + label@,
            KeyFormatError::InvalidKeyType(kty) => "A parameter kty must be RSA: "@ + kty@,
            KeyFormatError::MissingParameter(p) => "A parameter "@ + p.spec_name()
                + " is required."@,
            KeyFormatError::ParameterNotString(p) => "A parameter "@ + p.spec_name()
                + " must be a string."@,
            KeyFormatError::InvalidBase64(_, words) => words@,
            KeyFormatError::MissingComponent(p) => "The key has no "@ + p.spec_name() + "."@,
            KeyFormatError::TooLarge => "A value is too large."@,
            KeyFormatError::Crypto(words) => words@,
        }
    }

    /// The words of the cause, which name the parameter or the label at fault.
    pub fn message(&self) -> (res: String)
        ensures
            res@ == self.spec_message(),
    {
        match self {
            KeyFormatError::InvalidPemFormat => String::from_str("Invalid PEM format."),
            KeyFormatError::InvalidPemContents => String::from_str("Invalid PEM contents"),
            KeyFormatError::InappropriateAlgorithm(label) => String::from_str(
                "Inappropriate algorithm: ",
            ).concat(label.as_str()),
            KeyFormatError::InvalidKeyType(kty) => String::from_str(
                "A parameter kty must be RSA: ",
            ).concat(kty.as_str()),
            KeyFormatError::MissingParameter(p) => String::from_str("A parameter ").concat(
                p.name(),
            ).concat(" is required."),
            KeyFormatError::ParameterNotString(p) => String::from_str("A parameter ").concat(
                p.name(),
            ).concat(" must be a string."),
            KeyFormatError::InvalidBase64(_, words) => words.clone(),
            KeyFormatError::MissingComponent(p) => String::from_str("The key has no ").concat(
                p.name(),
            ).concat("."),
            KeyFormatError::TooLarge => String::from_str("A value is too large."),
            KeyFormatError::Crypto(words) => words.clone(),
        }
    }
}

/// The error of this library.
#[derive(Debug, Clone)]
pub enum JoseError {
    /// Key material could not be read or converted.
    InvalidKeyFormat(KeyFormatError),
}

impl View for JoseError {
    type V = KeyFormatErrorView;

    /// The cause.
    open spec fn view(&self) -> KeyFormatErrorView {
        match self {
            JoseError::InvalidKeyFormat(cause) => cause@,
        }
    }
}

impl JoseError {
    pub open spec fn spec_message(&self) -> Seq<char> {
        match self {
            JoseError::InvalidKeyFormat(cause) => "Invalid key format: "@ + cause.spec_message(),
        }
    }

    /// The cause of the error.
    pub fn cause(&self) -> (res: &KeyFormatError)
        ensures
            *self == JoseError::InvalidKeyFormat(*res),
    {
        match self {
            JoseError::InvalidKeyFormat(cause) => cause,
        }
    }

    /// The words of the error: its kind, then the words of its cause.
    pub fn message(&self) -> (res: String)
        ensures
            res@ == self.spec_message(),
    {
        match self {
            JoseError::InvalidKeyFormat(cause) => {
                let words: String = cause.message();
                String::from_str("Invalid key format: ").concat(words.as_str())
            },
        }
    }
}

} // verus!
