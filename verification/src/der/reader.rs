use vstd::prelude::*;
use vstd::slice::slice_subrange;
use crate::der::element::{expect_element, lemma_parse_header_sound, parse_header};
use crate::der::error::DerError;
use crate::der::integer::{content_as_u8, decode_u8, decode_unsigned, unsigned_magnitude};
use crate::der::length::decode_length;
use crate::der::oid::{oid_content, valid_arcs, ObjectIdentifier};
use crate::der::tag::DerType;

verus! {

/// A cursor over the elements that lie one after the other in a byte string.
///
/// `next` reads the header of the element at the cursor. The element is then
/// current until an accessor takes its value, or until the following `next`
/// steps over it. The elements inside a constructed value are read with a
/// reader of their own, which `nested` makes.
#[derive(Debug)]
pub struct DerReader<'a> {
    input: &'a [u8],
    end: usize,
    pos: usize,
    current: Option<(DerType, usize)>,
}

/// What `next` does, as a function of the reader's state: the result, and the
/// position and current element afterwards. On an error nothing moves.
pub open spec fn next_outcome(input: Seq<u8>, pos: nat, current: Option<(DerType, nat)>) -> (
    Result<Option<DerType>, DerError>,
    nat,
    Option<(DerType, nat)>,
) {
    let start = match current {
        Some((_, n)) => pos + n,
        None => pos,
    };
    if start > input.len() {
        (Err(DerError::UnexpectedEnd), pos, current)
    } else if start == input.len() {
        (Ok(None), start, None)
    } else {
        match parse_header(input.subrange(start as int, input.len() as int)) {
            Err(e) => (Err(e), pos, current),
            Ok((t, n, h)) => (Ok(Some(t)), start + h, Some((t, n))),
        }
    }
}

/// The value octets that an accessor for the type `expected` takes, as a
/// function of the reader's state.
pub open spec fn current_contents(
    input: Seq<u8>,
    pos: nat,
    current: Option<(DerType, nat)>,
    expected: DerType,
) -> Result<Seq<u8>, DerError> {
    match current {
        None => Err(DerError::UnexpectedType),
        Some((t, n)) => if t != expected {
            Err(DerError::UnexpectedType)
        } else if pos + n > input.len() {
            Err(DerError::UnexpectedEnd)
        } else {
            Ok(input.subrange(pos as int, (pos + n) as int))
        },
    }
}

impl<'a> DerReader<'a> {
    #[verifier::type_invariant]
    spec fn inv(self) -> bool {
        self.pos <= self.end == self.input@.len()
    }

    /// The bytes that the reader walks.
    pub closed spec fn input(&self) -> Seq<u8> {
        self.input@
    }

    /// The cursor: the start of the current element's value, or of the next
    /// header where no element is current.
    pub closed spec fn position(&self) -> nat {
        self.pos as nat
    }

    /// The type and length of the element whose header was read last and
    /// whose value has not been taken.
    pub closed spec fn current(&self) -> Option<(DerType, nat)> {
        match self.current {
            Some((t, n)) => Some((t, n as nat)),
            None => None,
        }
    }

    /// What follows the current element, or the cursor where none is current.
    pub open spec fn remaining(&self) -> Seq<u8> {
        let start = match self.current() {
            Some((_, n)) => self.position() + n,
            None => self.position(),
        };
        if start <= self.input().len() {
            self.input().subrange(start as int, self.input().len() as int)
        } else {
            Seq::empty()
        }
    }

    /// The value octets that an accessor for `expected` would take now.
    pub open spec fn contents_of(&self, expected: DerType) -> Result<Seq<u8>, DerError> {
        current_contents(self.input(), self.position(), self.current(), expected)
    }

    /// Whether `after` is this reader once the current value has been taken.
    pub open spec fn taken(&self, after: &Self) -> bool {
        &&& after.input() == self.input()
        &&& after.current() is None
        &&& self.current() is Some
        &&& after.position() == self.position() + (self.current()->Some_0).1
    }

    /// Whether `after` is this reader as it stands.
    pub open spec fn unchanged(&self, after: &Self) -> bool {
        &&& after.input() == self.input()
        &&& after.current() == self.current()
        &&& after.position() == self.position()
    }

    /// A reader at the start of `input`.
    pub fn from_bytes(input: &'a [u8]) -> (reader: DerReader<'a>)
        ensures
            reader.input() == input@,
            reader.position() == 0,
            reader.current() is None,
            reader.remaining() == input@,
            input@.len() <= usize::MAX,
    {
        assert(input@.subrange(0, input@.len() as int) =~= input@);
        DerReader { input, end: input.len(), pos: 0, current: None }
    }

    /// Whether nothing follows the current element, or the cursor where none
    /// is current.
    pub fn at_end(&self) -> (res: bool)
        ensures
            res == (self.remaining().len() == 0),
    {
        proof {
            use_type_invariant(self);
        }
        let left: usize = self.end - self.pos;
        match self.current {
            Some((_, n)) => n >= left,
            None => left == 0,
        }
    }

    /// Reads the element that follows, which must be of the type `expected`,
    /// and takes its value. After an error the reader stands where `next`
    /// alone would have left it.
    pub fn read(&mut self, expected: DerType) -> (res: Result<&'a [u8], DerError>)
        ensures
            final(self).input() == old(self).input(),
            match expect_element(old(self).remaining(), expected) {
                Ok((c, rest)) => {
                    &&& res is Ok
                    &&& res->Ok_0@ == c
                    &&& final(self).current() is None
                    &&& final(self).remaining() == rest
                },
                Err(e) => {
                    &&& res is Err
                    &&& res->Err_0 == e
                    &&& final(self).position() == next_outcome(
                        old(self).input(),
                        old(self).position(),
                        old(self).current(),
                    ).1
                    &&& final(self).current() == next_outcome(
                        old(self).input(),
                        old(self).position(),
                        old(self).current(),
                    ).2
                },
            },
    {
        proof {
            use_type_invariant(&*self);
        }
        reveal(expect_element);
        let ghost before = self.remaining();
        let ghost start = match self.current() {
            Some((_, n)) => self.position() + n,
            None => self.position(),
        };
        match self.next() {
            Err(e) => Err(e),
            Ok(None) => Err(DerError::UnexpectedEnd),
            Ok(Some(t)) => {
                proof {
                    use_type_invariant(&*self);
                }
                let ghost header_end = self.position();
                let ghost n = (self.current()->Some_0).1;
                match self.contents(expected) {
                    Err(e) => Err(e),
                    Ok(c) => {
                        proof {
                            let h = header_end - start;
                            assert(before.subrange(h as int, (h + n) as int) =~= c@);
                            assert(self.remaining() =~= before.subrange(
                                (h + n) as int,
                                before.len() as int,
                            ));
                        }
                        Ok(c)
                    },
                }
            },
        }
    }

    /// The type of the current element.
    pub fn der_type(&self) -> (res: Option<DerType>)
        ensures
            res == match self.current() {
                Some((t, _)) => Some(t),
                None => None,
            },
    {
        match self.current {
            Some((t, _)) => Some(t),
            None => None,
        }
    }

    /// The length of the current element's value.
    pub fn length(&self) -> (res: Option<usize>)
        ensures
            res is Some == self.current() is Some,
            res is Some ==> res->Some_0 as nat == (self.current()->Some_0).1,
    {
        match self.current {
            Some((_, n)) => Some(n),
            None => None,
        }
    }

    /// Steps over what is left of the current element and reads the header of
    /// the one that follows: its type, or `None` at the end of the input.
    pub fn next(&mut self) -> (res: Result<Option<DerType>, DerError>)
        ensures
            final(self).input() == old(self).input(),
            (res, final(self).position(), final(self).current()) == next_outcome(
                old(self).input(),
                old(self).position(),
                old(self).current(),
            ),
    {
        proof {
            use_type_invariant(&*self);
        }
        let total: usize = self.end;
        let start: usize = match self.current {
            Some((_, n)) => {
                if n > total - self.pos {
                    return Err(DerError::UnexpectedEnd);
                }
                self.pos + n
            },
            None => self.pos,
        };
        if start == total {
            self.pos = start;
            self.current = None;
            return Ok(None);
        }
        let ghost rest = self.input@.subrange(start as int, total as int);
        assert(rest[0] == self.input@[start as int]);
        let t: DerType = match DerType::from_tag_byte(self.input[start]) {
            Some(t) => t,
            None => {
                return Err(DerError::UnsupportedTag);
            },
        };
        assert(rest.subrange(1, rest.len() as int) =~= self.input@.subrange(
            start + 1,
            total as int,
        ));
        match decode_length(self.input, start + 1) {
            Err(e) => Err(e),
            Ok((n, k)) => {
                proof {
                    lemma_parse_header_sound(rest);
                }
                self.pos = start + 1 + k;
                self.current = Some((t, n));
                Ok(Some(t))
            },
        }
    }

    /// Takes the value octets of the current element, which must be of the
    /// type `expected` and lie whole in the input.
    pub fn contents(&mut self, expected: DerType) -> (res: Result<&'a [u8], DerError>)
        ensures
            match res {
                Ok(c) => old(self).contents_of(expected) == Ok::<Seq<u8>, DerError>(c@) && old(
                    self,
                ).taken(final(self)),
                Err(e) => old(self).contents_of(expected) == Err::<Seq<u8>, DerError>(e) && old(
                    self,
                ).unchanged(final(self)),
            },
    {
        proof {
            use_type_invariant(&*self);
        }
        match self.current {
            None => Err(DerError::UnexpectedType),
            Some((t, n)) => {
                if t != expected {
                    return Err(DerError::UnexpectedType);
                }
                if n > self.end - self.pos {
                    return Err(DerError::UnexpectedEnd);
                }
                let c: &'a [u8] = slice_subrange(self.input, self.pos, self.pos + n);
                self.pos = self.pos + n;
                self.current = None;
                Ok(c)
            },
        }
    }

    /// A reader over the elements inside the current SEQUENCE, which this
    /// reader steps over.
    pub fn nested(&mut self) -> (res: Result<DerReader<'a>, DerError>)
        ensures
            match res {
                Ok(inner) => {
                    &&& old(self).contents_of(DerType::Sequence) == Ok::<Seq<u8>, DerError>(
                        inner.input(),
                    )
                    &&& inner.position() == 0
                    &&& inner.current() is None
                    &&& old(self).taken(final(self))
                },
                Err(e) => old(self).contents_of(DerType::Sequence) == Err::<Seq<u8>, DerError>(e)
                    && old(self).unchanged(final(self)),
            },
    {
        match self.contents(DerType::Sequence) {
            Ok(c) => Ok(DerReader::from_bytes(c)),
            Err(e) => Err(e),
        }
    }

    /// Takes the current INTEGER as a number in 0..=255.
    pub fn to_u8(&mut self) -> (res: Result<u8, DerError>)
        ensures
            match old(self).contents_of(DerType::Integer) {
                Ok(c) => old(self).taken(final(self)) && res == match content_as_u8(c) {
                    Some(v) => Ok::<u8, DerError>(v),
                    None => Err(DerError::InvalidContents),
                },
                Err(e) => old(self).unchanged(final(self)) && res == Err::<u8, DerError>(e),
            },
    {
        match self.contents(DerType::Integer) {
            Ok(c) => match decode_u8(c) {
                Some(v) => Ok(v),
                None => Err(DerError::InvalidContents),
            },
            Err(e) => Err(e),
        }
    }

    /// Takes the current INTEGER, which must not be negative, as big-endian
    /// octets without a sign octet.
    pub fn to_unsigned_be_bytes(&mut self) -> (res: Result<Vec<u8>, DerError>)
        ensures
            match old(self).contents_of(DerType::Integer) {
                Ok(c) => old(self).taken(final(self)) && match unsigned_magnitude(c) {
                    Some(m) => res is Ok && res->Ok_0@ == m,
                    None => res == Err::<Vec<u8>, DerError>(DerError::InvalidContents),
                },
                Err(e) => old(self).unchanged(final(self)) && res == Err::<Vec<u8>, DerError>(e),
            },
    {
        match self.contents(DerType::Integer) {
            Ok(c) => match decode_unsigned(c) {
                Some(m) => Ok(m),
                None => Err(DerError::InvalidContents),
            },
            Err(e) => Err(e),
        }
    }

    /// Takes the current OBJECT IDENTIFIER.
    pub fn to_object_identifier(&mut self) -> (res: Result<ObjectIdentifier, DerError>)
        ensures
            match old(self).contents_of(DerType::ObjectIdentifier) {
                Ok(c) => old(self).taken(final(self)) && match res {
                    Ok(oid) => valid_arcs(oid@) && oid_content(oid@) == c,
                    Err(e) => e == DerError::InvalidContents && forall|arcs: Seq<u64>|
                        valid_arcs(arcs) ==> #[trigger] oid_content(arcs) != c,
                },
                Err(e) => old(self).unchanged(final(self)) && res is Err && res->Err_0 == e,
            },
    {
        match self.contents(DerType::ObjectIdentifier) {
            Ok(c) => match ObjectIdentifier::from_der_content(c) {
                Some(oid) => Ok(oid),
                None => Err(DerError::InvalidContents),
            },
            Err(e) => Err(e),
        }
    }

    /// Takes the current NULL, whose value must be empty.
    pub fn to_null(&mut self) -> (res: Result<(), DerError>)
        ensures
            match old(self).contents_of(DerType::Null) {
                Ok(c) => old(self).taken(final(self)) && res == if c.len() == 0 {
                    Ok::<(), DerError>(())
                } else {
                    Err(DerError::InvalidContents)
                },
                Err(e) => old(self).unchanged(final(self)) && res == Err::<(), DerError>(e),
            },
    {
        match self.contents(DerType::Null) {
            Ok(c) => if c.len() == 0 {
                Ok(())
            } else {
                Err(DerError::InvalidContents)
            },
            Err(e) => Err(e),
        }
    }

    /// Takes the octets of the current OCTET STRING.
    pub fn to_octet_string(&mut self) -> (res: Result<&'a [u8], DerError>)
        ensures
            match res {
                Ok(c) => old(self).contents_of(DerType::OctetString) == Ok::<Seq<u8>, DerError>(
                    c@,
                ) && old(self).taken(final(self)),
                Err(e) => old(self).contents_of(DerType::OctetString) == Err::<
                    Seq<u8>,
                    DerError,
                >(e) && old(self).unchanged(final(self)),
            },
    {
        self.contents(DerType::OctetString)
    }

    /// Takes the octets of the current BIT STRING, whose first value octet,
    /// the count of unused bits, must be `unused_bits`.
    pub fn to_bit_string(&mut self, unused_bits: u8) -> (res: Result<&'a [u8], DerError>)
        ensures
            match old(self).contents_of(DerType::BitString) {
                Ok(c) => old(self).taken(final(self)) && if c.len() > 0 && c[0] == unused_bits {
                    res is Ok && res->Ok_0@ == c.subrange(1, c.len() as int)
                } else {
                    res is Err && res->Err_0 == DerError::InvalidContents
                },
                Err(e) => old(self).unchanged(final(self)) && res is Err && res->Err_0 == e,
            },
    {
        match self.contents(DerType::BitString) {
            Ok(c) => if c.len() > 0 && c[0] == unused_bits {
                Ok(slice_subrange(c, 1, c.len()))
            } else {
                Err(DerError::InvalidContents)
            },
            Err(e) => Err(e),
        }
    }
}

} // verus!
