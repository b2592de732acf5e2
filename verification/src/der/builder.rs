use vstd::prelude::*;
use crate::der::element::tlv;
use crate::der::integer::{encode_integer, encode_u8, integer_content};
use crate::der::length::encode_length;
use crate::der::oid::{oid_content, ObjectIdentifier};
use crate::der::tag::DerType;

verus! {

/// A constructed element that has been begun: its type, and what its parent
/// held when it began.
#[derive(Debug)]
struct Frame {
    tag: DerType,
    parent: Vec<u8>,
}

/// Writes DER. Elements are appended to the innermost constructed element
/// that has been begun and not ended, or to the output where there is none.
#[derive(Debug)]
pub struct DerBuilder {
    stack: Vec<Frame>,
    current: Vec<u8>,
}

/// Appends `src` to `dst`.
pub fn append_bytes(dst: &mut Vec<u8>, src: &[u8])
    ensures
        final(dst)@ == old(dst)@ + src@,
{
    let n: usize = src.len();
    let mut i: usize = 0;
    assert(src@.subrange(0, 0).len() == 0);
    assert(dst@ =~= old(dst)@ + src@.subrange(0, 0));
    while i < n
        invariant
            i <= n,
            n == src@.len(),
            dst@ == old(dst)@ + src@.subrange(0, i as int),
        decreases n - i,
    {
        dst.push(src[i]);
        i = i + 1;
        assert(dst@ =~= old(dst)@ + src@.subrange(0, i as int));
    }
    assert(src@.subrange(0, n as int) =~= src@);
}

/// Appends the encoding of one element to `dst`.
pub fn append_element(dst: &mut Vec<u8>, tag: DerType, content: &[u8])
    ensures
        final(dst)@ == old(dst)@ + tlv(tag, content@),
{
    dst.push(tag.tag_byte());
    let length: Vec<u8> = encode_length(content.len());
    append_bytes(dst, length.as_slice());
    append_bytes(dst, content);
    assert(dst@ =~= old(dst)@ + tlv(tag, content@));
}

impl DerBuilder {
    /// The constructed elements that are open, outermost first: the type of
    /// each, and what its parent held when it began.
    pub closed spec fn frames(&self) -> Seq<(DerType, Seq<u8>)> {
        Seq::new(self.stack@.len(), |i: int| (self.stack@[i].tag, self.stack@[i].parent@))
    }

    /// What has been written inside the innermost open element, or to the
    /// output where none is open.
    pub closed spec fn buffer(&self) -> Seq<u8> {
        self.current@
    }

    /// Whether `after` is this builder with `bytes` appended where it writes.
    pub open spec fn appended(&self, after: &Self, bytes: Seq<u8>) -> bool {
        &&& after.frames() == self.frames()
        &&& after.buffer() == self.buffer() + bytes
    }

    /// A builder that has written nothing.
    pub fn new() -> (builder: DerBuilder)
        ensures
            builder.frames().len() == 0,
            builder.buffer().len() == 0,
    {
        DerBuilder { stack: Vec::new(), current: Vec::new() }
    }

    /// The number of constructed elements that are open.
    pub fn depth(&self) -> (depth: usize)
        ensures
            depth == self.frames().len(),
    {
        self.stack.len()
    }

    /// Begins a constructed element of the type `tag`; what follows is
    /// written inside it until the matching `end`.
    pub fn begin(&mut self, tag: DerType)
        ensures
            final(self).frames() == old(self).frames().push((tag, old(self).buffer())),
            final(self).buffer().len() == 0,
    {
        let mut parent: Vec<u8> = Vec::new();
        std::mem::swap(&mut parent, &mut self.current);
        self.stack.push(Frame { tag, parent });
        assert(self.frames() =~= old(self).frames().push((tag, old(self).buffer())));
    }

    /// Ends the innermost open element: its encoding, with the length of
    /// what was written inside it, is appended to its parent.
    pub fn end(&mut self)
        requires
            old(self).frames().len() > 0,
        ensures
            final(self).frames() == old(self).frames().drop_last(),
            final(self).buffer() == old(self).frames().last().1 + tlv(
                old(self).frames().last().0,
                old(self).buffer(),
            ),
    {
        let ghost before = self.frames();
        assert(before.last() == (self.stack@.last().tag, self.stack@.last().parent@));
        let frame: Frame = self.stack.pop().unwrap();
        let mut content: Vec<u8> = frame.parent;
        std::mem::swap(&mut content, &mut self.current);
        append_element(&mut self.current, frame.tag, content.as_slice());
        assert(self.frames() =~= before.drop_last());
    }

    /// Appends an INTEGER with a value in 0..=255.
    pub fn append_integer_from_u8(&mut self, value: u8)
        ensures
            old(self).appended(
                final(self),
                tlv(DerType::Integer, integer_content(seq![value], false)),
            ),
    {
        let content: Vec<u8> = encode_u8(value);
        append_element(&mut self.current, DerType::Integer, content.as_slice());
    }

    /// Appends an INTEGER with the big-endian value `value`. Its leading zero
    /// octets go; unless `signed` says that the octets are two's complement
    /// already, a zero octet keeps a set high bit from reading as a sign.
    pub fn append_integer_from_be_slice(&mut self, value: &[u8], signed: bool)
        ensures
            old(self).appended(
                final(self),
                tlv(DerType::Integer, integer_content(value@, signed)),
            ),
    {
        let content: Vec<u8> = encode_integer(value, signed);
        append_element(&mut self.current, DerType::Integer, content.as_slice());
    }

    /// Appends an OBJECT IDENTIFIER.
    pub fn append_object_identifier(&mut self, oid: &ObjectIdentifier)
        ensures
            old(self).appended(final(self), tlv(DerType::ObjectIdentifier, oid_content(oid@))),
    {
        let content: Vec<u8> = oid.to_der_content();
        append_element(&mut self.current, DerType::ObjectIdentifier, content.as_slice());
    }

    /// Appends a NULL.
    pub fn append_null(&mut self)
        ensures
            old(self).appended(final(self), tlv(DerType::Null, Seq::empty())),
    {
        let content: Vec<u8> = Vec::new();
        append_element(&mut self.current, DerType::Null, content.as_slice());
        assert(content@ =~= Seq::empty());
    }

    /// Appends a BIT STRING with the octets `contents`, of whose last octet
    /// `unused_bits` bits do not count.
    pub fn append_bit_string_from_slice(&mut self, contents: &[u8], unused_bits: u8)
        ensures
            old(self).appended(
                final(self),
                tlv(DerType::BitString, seq![unused_bits] + contents@),
            ),
    {
        let mut content: Vec<u8> = Vec::new();
        content.push(unused_bits);
        append_bytes(&mut content, contents);
        assert(content@ =~= seq![unused_bits] + contents@);
        append_element(&mut self.current, DerType::BitString, content.as_slice());
    }

    /// Appends an OCTET STRING with the octets `contents`.
    pub fn append_octed_string_from_slice(&mut self, contents: &[u8])
        ensures
            old(self).appended(final(self), tlv(DerType::OctetString, contents@)),
    {
        append_element(&mut self.current, DerType::OctetString, contents);
    }

    /// The bytes written. Every element that was begun must have been ended.
    pub fn build(self) -> (out: Vec<u8>)
        requires
            self.frames().len() == 0,
        ensures
            out@ == self.buffer(),
    {
        self.current
    }
}

} // verus!
