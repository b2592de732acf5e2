use vstd::prelude::*;

verus! {

/// Why a byte string was refused as DER.
#[derive(Clone, Copy, Debug, PartialEq, Eq, Structural)]
pub enum DerError {
    /// The input stops inside a header or before the end of a value.
    UnexpectedEnd,
    /// The identifier octet is none of the supported universal types.
    UnsupportedTag,
    /// The length octets are indefinite, not minimal, or too large for this machine.
    InvalidLength,
    /// The value octets are not a valid encoding of the requested type.
    InvalidContents,
    /// The current element is not of the requested type, or there is none.
    UnexpectedType,
}

} // verus!
