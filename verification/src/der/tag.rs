use vstd::prelude::*;

verus! {

/// The universal ASN.1 types that this codec reads and writes.
#[derive(Clone, Copy, Debug, PartialEq, Eq, Structural)]
pub enum DerType {
    Integer,
    BitString,
    OctetString,
    Null,
    ObjectIdentifier,
    Sequence,
}

impl DerType {
    /// The identifier octet of the type.
    pub open spec fn spec_tag_byte(self) -> u8 {
        match self {
            DerType::Integer => 0x02,
            DerType::BitString => 0x03,
            DerType::OctetString => 0x04,
            DerType::Null => 0x05,
            DerType::ObjectIdentifier => 0x06,
            DerType::Sequence => 0x30,
        }
    }

    /// The type that an identifier octet stands for, if it is supported.
    pub open spec fn spec_from_tag_byte(byte: u8) -> Option<DerType> {
        if byte == 0x02 {
            Some(DerType::Integer)
        } else if byte == 0x03 {
            Some(DerType::BitString)
        } else if byte == 0x04 {
            Some(DerType::OctetString)
        } else if byte == 0x05 {
            Some(DerType::Null)
        } else if byte == 0x06 {
            Some(DerType::ObjectIdentifier)
        } else if byte == 0x30 {
            Some(DerType::Sequence)
        } else {
            None
        }
    }

    /// Whether values of the type hold nested elements.
    pub open spec fn spec_is_constructed(self) -> bool {
        self == DerType::Sequence
    }

    #[verifier::when_used_as_spec(spec_tag_byte)]
    pub fn tag_byte(self) -> (byte: u8)
        ensures
            byte == self.spec_tag_byte(),
    {
        match self {
            DerType::Integer => 0x02,
            DerType::BitString => 0x03,
            DerType::OctetString => 0x04,
            DerType::Null => 0x05,
            DerType::ObjectIdentifier => 0x06,
            DerType::Sequence => 0x30,
        }
    }

    pub fn from_tag_byte(byte: u8) -> (res: Option<DerType>)
        ensures
            res == Self::spec_from_tag_byte(byte),
    {
        if byte == 0x02 {
            Some(DerType::Integer)
        } else if byte == 0x03 {
            Some(DerType::BitString)
        } else if byte == 0x04 {
            Some(DerType::OctetString)
        } else if byte == 0x05 {
            Some(DerType::Null)
        } else if byte == 0x06 {
            Some(DerType::ObjectIdentifier)
        } else if byte == 0x30 {
            Some(DerType::Sequence)
        } else {
            None
        }
    }

    #[verifier::when_used_as_spec(spec_is_constructed)]
    pub fn is_constructed(self) -> (b: bool)
        ensures
            b == self.spec_is_constructed(),
    {
        match self {
            DerType::Sequence => true,
            _ => false,
        }
    }
}

/// Every identifier octet stands for at most one type, and each type is read
/// back from its own octet.
pub proof fn lemma_tag_byte_round_trip(t: DerType, byte: u8)
    ensures
        DerType::spec_from_tag_byte(t.spec_tag_byte()) == Some(t),
        DerType::spec_from_tag_byte(byte) == Some(t) ==> byte == t.spec_tag_byte(),
{
}

} // verus!
