use vstd::prelude::*;
use crate::der::error::DerError;
use crate::der::length::{
    be_digits, lemma_parse_length_complete, lemma_parse_length_sound, length_octets, parse_length,
};
use crate::der::tag::DerType;

verus! {

/// The identifier and length octets of an element of type `t` whose value has
/// `len` octets.
pub open spec fn header_octets(t: DerType, len: nat) -> Seq<u8> {
    seq![t.spec_tag_byte()] + length_octets(len)
}

/// The encoding of an element: identifier, length, value.
pub open spec fn tlv(t: DerType, content: Seq<u8>) -> Seq<u8> {
    header_octets(t, content.len()) + content
}

/// What a reader makes of the header at the start of `s`: the type, the
/// length of the value, and the number of octets of the header itself.
pub open spec fn parse_header(s: Seq<u8>) -> Result<(DerType, nat, nat), DerError> {
    if s.len() == 0 {
        Err(DerError::UnexpectedEnd)
    } else {
        match DerType::spec_from_tag_byte(s[0]) {
            None => Err(DerError::UnsupportedTag),
            Some(t) => match parse_length(s.subrange(1, s.len() as int)) {
                Err(e) => Err(e),
                Ok((n, k)) => Ok((t, n, 1 + k)),
            },
        }
    }
}

/// What a reader makes of the element at the start of `s`: the type, the
/// value octets, and the number of octets of the whole element.
pub open spec fn parse_element(s: Seq<u8>) -> Result<(DerType, Seq<u8>, nat), DerError> {
    match parse_header(s) {
        Err(e) => Err(e),
        Ok((t, n, h)) => if s.len() < h + n {
            Err(DerError::UnexpectedEnd)
        } else {
            Ok((t, s.subrange(h as int, (h + n) as int), h + n))
        },
    }
}

/// What a reader that expects an element of type `t` at the start of `s`
/// makes of it: the value octets, and what follows the element.
#[verifier::opaque]
pub open spec fn expect_element(s: Seq<u8>, t: DerType) -> Result<(Seq<u8>, Seq<u8>), DerError> {
    match parse_header(s) {
        Err(e) => Err(e),
        Ok((found, n, h)) => if found != t {
            Err(DerError::UnexpectedType)
        } else if s.len() < h + n {
            Err(DerError::UnexpectedEnd)
        } else {
            Ok((s.subrange(h as int, (h + n) as int), s.subrange((h + n) as int, s.len() as int)))
        },
    }
}

/// An accepted header is the header octets of the type and length it gives.
pub proof fn lemma_parse_header_sound(s: Seq<u8>)
    requires
        parse_header(s) is Ok,
    ensures
        ({
            let (t, n, h) = parse_header(s)->Ok_0;
            &&& 2 <= h <= s.len()
            &&& n <= usize::MAX
            &&& s.subrange(0, h as int) == header_octets(t, n)
        }),
{
    let (t, n, h) = parse_header(s)->Ok_0;
    let rest = s.subrange(1, s.len() as int);
    lemma_parse_length_sound(rest);
    assert(rest.subrange(0, h - 1) =~= s.subrange(1, h as int));
    assert(s.subrange(0, h as int) =~= seq![s[0]] + s.subrange(1, h as int));
}

/// The header octets of a length that fits the machine are accepted,
/// whatever follows them, and give the type and the length back.
pub proof fn lemma_parse_header_complete(t: DerType, n: nat, rest: Seq<u8>)
    requires
        n <= usize::MAX,
    ensures
        parse_header(header_octets(t, n) + rest) == Ok::<(DerType, nat, nat), DerError>(
            (t, n, header_octets(t, n).len()),
        ),
{
    let s = header_octets(t, n) + rest;
    lemma_parse_length_complete(n, rest);
    assert(s.subrange(1, s.len() as int) =~= length_octets(n) + rest);
    assert(s[0] == t.spec_tag_byte());
}

/// An accepted element is the encoding of the type and value it gives.
pub proof fn lemma_parse_element_sound(s: Seq<u8>)
    requires
        parse_element(s) is Ok,
    ensures
        ({
            let (t, c, k) = parse_element(s)->Ok_0;
            &&& 2 <= k <= s.len()
            &&& s.subrange(0, k as int) == tlv(t, c)
        }),
{
    let (t, n, h) = parse_header(s)->Ok_0;
    lemma_parse_header_sound(s);
    assert(s.subrange(0, (h + n) as int) =~= s.subrange(0, h as int) + s.subrange(
        h as int,
        (h + n) as int,
    ));
}

/// The encoding of an element is accepted, whatever follows it, and gives
/// the type and the value back.
pub proof fn lemma_parse_element_complete(t: DerType, c: Seq<u8>, rest: Seq<u8>)
    requires
        c.len() <= usize::MAX,
    ensures
        parse_element(tlv(t, c) + rest) == Ok::<(DerType, Seq<u8>, nat), DerError>(
            (t, c, tlv(t, c).len()),
        ),
{
    let s = tlv(t, c) + rest;
    let h = header_octets(t, c.len()).len();
    lemma_parse_header_complete(t, c.len(), c + rest);
    assert(s =~= header_octets(t, c.len()) + (c + rest));
    assert(s.subrange(h as int, (h + c.len()) as int) =~= c);
}

/// Where an element of type `t` is found, the string is its encoding
/// followed by the rest.
pub proof fn lemma_expect_element_sound(s: Seq<u8>, t: DerType)
    requires
        expect_element(s, t) is Ok,
    ensures
        s == tlv(t, (expect_element(s, t)->Ok_0).0) + (expect_element(s, t)->Ok_0).1,
        (expect_element(s, t)->Ok_0).0.len() <= usize::MAX,
{
    reveal(expect_element);
    lemma_parse_element_sound(s);
    lemma_parse_header_sound(s);
    let (found, c, k) = parse_element(s)->Ok_0;
    assert(s =~= s.subrange(0, k as int) + s.subrange(k as int, s.len() as int));
    assert(c.len() <= usize::MAX);
}

/// The encoding of an element of type `t`, followed by anything, is found as
/// that element and that rest.
pub proof fn lemma_expect_element_complete(t: DerType, c: Seq<u8>, rest: Seq<u8>)
    requires
        c.len() <= usize::MAX,
    ensures
        expect_element(tlv(t, c) + rest, t) == Ok::<(Seq<u8>, Seq<u8>), DerError>((c, rest)),
{
    reveal(expect_element);
    lemma_parse_element_complete(t, c, rest);
    let s = tlv(t, c) + rest;
    assert(s.subrange(tlv(t, c).len() as int, s.len() as int) =~= rest);
}

/// Nothing is found in an empty string.
pub proof fn lemma_expect_element_at_end(t: DerType)
    ensures
        expect_element(Seq::empty(), t) == Err::<(Seq<u8>, Seq<u8>), DerError>(
            DerError::UnexpectedEnd,
        ),
{
    reveal(expect_element);
}

/// Two encodings that start the same string are one: the same type, the same
/// value, and the same rest.
pub proof fn lemma_tlv_prefix_free(
    t1: DerType,
    c1: Seq<u8>,
    r1: Seq<u8>,
    t2: DerType,
    c2: Seq<u8>,
    r2: Seq<u8>,
)
    requires
        c1.len() <= usize::MAX,
        c2.len() <= usize::MAX,
        tlv(t1, c1) + r1 == tlv(t2, c2) + r2,
    ensures
        t1 == t2,
        c1 == c2,
        r1 == r2,
{
    lemma_parse_element_complete(t1, c1, r1);
    lemma_parse_element_complete(t2, c2, r2);
    let s = tlv(t1, c1) + r1;
    assert(r1 =~= s.subrange(tlv(t1, c1).len() as int, s.len() as int));
    assert(r2 =~= s.subrange(tlv(t2, c2).len() as int, s.len() as int));
}

/// A value of 127 octets has a single length octet; one of 128 octets has the
/// long form, with one digit.
pub proof fn lemma_length_form_boundary()
    ensures
        length_octets(127) == seq![0x7fu8],
        length_octets(128) == seq![0x81u8, 0x80u8],
{
    reveal_with_fuel(be_digits, 3);
    assert(be_digits(128) =~= seq![0x80u8]);
    assert(length_octets(128) =~= seq![0x81u8, 0x80u8]);
}

} // verus!
