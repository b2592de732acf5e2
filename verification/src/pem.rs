//! The PEM envelope: a label between dashes, and base64 text between two
//! such lines.

use std::string::FromUtf8Error;
use vstd::prelude::*;
use vstd::utf8::{encode_utf8, partial_valid_utf8, partial_valid_utf8_extend_ascii_block, valid_utf8};
use vstd::utf8::is_leading_byte_width_1;
use crate::b64::{base64_bytes, decodable_len, decode_standard};
use crate::der::builder::append_bytes;
use crate::error::{JoseError, KeyFormatError, KeyFormatErrorView};

verus! {

/// A byte of a label: an upper-case letter, a digit or a space.
pub open spec fn is_label_byte(b: u8) -> bool {
    (0x41 <= b <= 0x5a) || (0x30 <= b <= 0x39) || b == 0x20
}

/// A space, a tab, a carriage return or a line feed.
pub open spec fn is_whitespace(b: u8) -> bool {
    b == 0x20 || b == 0x09 || b == 0x0d || b == 0x0a
}

/// A byte of the text between the two lines: a letter, a digit, `+`, `/`,
/// `=`, or whitespace.
pub open spec fn is_body_byte(b: u8) -> bool {
    (0x41 <= b <= 0x5a) || (0x61 <= b <= 0x7a) || (0x30 <= b <= 0x39) || b == 0x2b || b == 0x2f
        || b == 0x3d || is_whitespace(b)
}

/// `-----BEGIN `
pub open spec fn begin_marker() -> Seq<u8> {
    seq![0x2du8, 0x2du8, 0x2du8, 0x2du8, 0x2du8, 0x42u8, 0x45u8, 0x47u8, 0x49u8, 0x4eu8, 0x20u8]
}

/// `-----END `
pub open spec fn end_marker() -> Seq<u8> {
    seq![0x2du8, 0x2du8, 0x2du8, 0x2du8, 0x2du8, 0x45u8, 0x4eu8, 0x44u8, 0x20u8]
}

/// `-----`
pub open spec fn dashes() -> Seq<u8> {
    seq![0x2du8, 0x2du8, 0x2du8, 0x2du8, 0x2du8]
}

/// Whether `pattern` stands in `s` at the index `at`.
pub open spec fn stands_at(s: Seq<u8>, at: int, pattern: Seq<u8>) -> bool {
    0 <= at && at + pattern.len() <= s.len() && s.subrange(at, at + pattern.len()) == pattern
}

/// The number of label bytes at the start of `s`.
pub open spec fn label_run(s: Seq<u8>) -> nat
    decreases s.len(),
{
    if s.len() > 0 && is_label_byte(s[0]) {
        1 + label_run(s.drop_first())
    } else {
        0
    }
}

/// The number of body bytes at the start of `s`.
pub open spec fn body_run(s: Seq<u8>) -> nat
    decreases s.len(),
{
    if s.len() > 0 && is_body_byte(s[0]) {
        1 + body_run(s.drop_first())
    } else {
        0
    }
}

/// `s` without its whitespace.
pub open spec fn without_whitespace(s: Seq<u8>) -> Seq<u8>
    decreases s.len(),
{
    if s.len() == 0 {
        Seq::empty()
    } else if is_whitespace(s.last()) {
        without_whitespace(s.drop_last())
    } else {
        without_whitespace(s.drop_last()).push(s.last())
    }
}

/// Whether all of `s` from the index `from` on is whitespace.
pub open spec fn whitespace_from(s: Seq<u8>, from: int) -> bool {
    forall|i: int| from <= i < s.len() ==> is_whitespace(#[trigger] s[i])
}

/// The label and the base64 text of the PEM envelope `s`.
///
/// An envelope is `-----BEGIN `, a label of upper-case letters, digits and
/// spaces, `-----`, base64 text with whitespace anywhere in it, `-----END `,
/// the same label, `-----`, and whitespace at most after that.
pub open spec fn pem_envelope(s: Seq<u8>) -> Option<(Seq<u8>, Seq<u8>)> {
    let label_start = begin_marker().len() as int;
    let label_len = label_run(s.subrange(label_start, s.len() as int)) as int;
    let label = s.subrange(label_start, label_start + label_len);
    let body_start = label_start + label_len + dashes().len();
    let body_len = body_run(s.subrange(body_start, s.len() as int)) as int;
    let closing = end_marker() + label + dashes();
    if !stands_at(s, 0, begin_marker()) {
        None
    } else if label_len == 0 || !stands_at(s, label_start + label_len, dashes()) {
        None
    } else if !stands_at(s, body_start + body_len, closing) || !whitespace_from(
        s,
        body_start + body_len + closing.len(),
    ) {
        None
    } else {
        Some((label, without_whitespace(s.subrange(body_start, body_start + body_len))))
    }
}

/// The label and the bytes of the PEM envelope `s`: the bytes that its
/// base64 text stands for.
pub open spec fn pem_contents(s: Seq<u8>) -> Option<(Seq<u8>, Seq<u8>)> {
    match pem_envelope(s) {
        None => None,
        Some((label, text)) => if !decodable_len(text.len()) {
            None
        } else {
            match base64_bytes(text, false) {
                Some(data) => Some((label, data)),
                None => None,
            }
        },
    }
}

proof fn lemma_label_run_bound(s: Seq<u8>)
    ensures
        label_run(s) <= s.len(),
        forall|i: int| 0 <= i < label_run(s) ==> is_label_byte(#[trigger] s[i]),
    decreases s.len(),
{
    if s.len() > 0 && is_label_byte(s[0]) {
        let t = s.drop_first();
        lemma_label_run_bound(t);
        assert forall|i: int| 0 <= i < label_run(s) implies is_label_byte(#[trigger] s[i]) by {
            if i > 0 {
                assert(s[i] == t[i - 1]);
            }
        }
    }
}

/// A run of label bytes is UTF-8, for it is ASCII.
proof fn lemma_label_is_utf8(s: Seq<u8>, start: int, label: Seq<u8>)
    requires
        0 <= start <= s.len(),
        label == s.subrange(
            start,
            start + label_run(s.subrange(start, s.len() as int)),
        ),
    ensures
        valid_utf8(label),
{
    lemma_label_run_bound(s.subrange(start, s.len() as int));
    assert forall|k: int| 0 <= k < label.len() implies #[trigger] is_leading_byte_width_1(
        label[k],
    ) by {
        let b = label[k];
        assert(b == s.subrange(start, s.len() as int)[k]);
        assert(is_label_byte(b));
        assert(b & 0x80 == 0) by (bit_vector)
            requires
                b < 0x80,
        ;
    }
    assert(label.subrange(0, 0) =~= Seq::<u8>::empty());
    assert(partial_valid_utf8(label, 0));
    partial_valid_utf8_extend_ascii_block(label, 0, label.len() as int);
    assert(label.subrange(0, label.len() as int) =~= label);
}

/// `std::string::FromUtf8Error`, the refusal of bytes that are not UTF-8.
#[verifier::external_type_specification]
#[verifier::external_body]
pub struct ExFromUtf8Error(FromUtf8Error);

/// `String::from_utf8` of std: the string whose UTF-8 bytes are `bytes`, or
/// an error where `bytes` is not UTF-8.
#[verifier::external_body]
fn string_from_utf8(bytes: Vec<u8>) -> (res: Result<String, FromUtf8Error>)
    ensures
        match res {
            Ok(s) => encode_utf8(s@) == bytes@,
            Err(_) => !valid_utf8(bytes@),
        },
{
    String::from_utf8(bytes)
}

fn matches_at(input: &[u8], at: usize, pattern: &[u8]) -> (res: bool)
    requires
        at <= input@.len(),
    ensures
        res == stands_at(input@, at as int, pattern@),
        input@.len() <= usize::MAX,
{
    let n: usize = pattern.len();
    if n > input.len() - at {
        return false;
    }
    let mut i: usize = 0;
    while i < n
        invariant
            i <= n,
            n == pattern@.len(),
            at + n <= input@.len() <= usize::MAX,
            input@.subrange(at as int, at + i) == pattern@.subrange(0, i as int),
        decreases n - i,
    {
        if input[at + i] != pattern[i] {
            assert(input@.subrange(at as int, at + n)[i as int] != pattern@[i as int]);
            return false;
        }
        i = i + 1;
        assert(input@.subrange(at as int, at + i) =~= input@.subrange(at as int, at + i - 1).push(
            input@[at + i - 1],
        ));
        assert(pattern@.subrange(0, i as int) =~= pattern@.subrange(0, i - 1).push(
            pattern@[i - 1],
        ));
    }
    assert(pattern@.subrange(0, n as int) =~= pattern@);
    true
}

fn label_end(input: &[u8], start: usize) -> (end: usize)
    requires
        start <= input@.len(),
    ensures
        start <= end <= input@.len(),
        end - start == label_run(input@.subrange(start as int, input@.len() as int)),
{
    let n: usize = input.len();
    let mut i: usize = start;
    while i < n && ((0x41 <= input[i] && input[i] <= 0x5a) || (0x30 <= input[i] && input[i]
        <= 0x39) || input[i] == 0x20)
        invariant
            start <= i <= n,
            n == input@.len(),
            label_run(input@.subrange(start as int, n as int)) == (i - start) + label_run(
                input@.subrange(i as int, n as int),
            ),
        decreases n - i,
    {
        assert(input@.subrange(i as int, n as int).drop_first() =~= input@.subrange(
            i + 1,
            n as int,
        ));
        i = i + 1;
    }
    i
}

fn is_body(b: u8) -> (res: bool)
    ensures
        res == is_body_byte(b),
{
    (0x41 <= b && b <= 0x5a) || (0x61 <= b && b <= 0x7a) || (0x30 <= b && b <= 0x39) || b == 0x2b
        || b == 0x2f || b == 0x3d || b == 0x20 || b == 0x09 || b == 0x0d || b == 0x0a
}

fn body_end(input: &[u8], start: usize) -> (end: usize)
    requires
        start <= input@.len(),
    ensures
        start <= end <= input@.len(),
        end - start == body_run(input@.subrange(start as int, input@.len() as int)),
{
    let n: usize = input.len();
    let mut i: usize = start;
    while i < n && is_body(input[i])
        invariant
            start <= i <= n,
            n == input@.len(),
            body_run(input@.subrange(start as int, n as int)) == (i - start) + body_run(
                input@.subrange(i as int, n as int),
            ),
        decreases n - i,
    {
        assert(input@.subrange(i as int, n as int).drop_first() =~= input@.subrange(
            i + 1,
            n as int,
        ));
        i = i + 1;
    }
    i
}

fn copy_range(input: &[u8], start: usize, end: usize, skip_whitespace: bool) -> (out: Vec<u8>)
    requires
        start <= end <= input@.len(),
    ensures
        out@ == if skip_whitespace {
            without_whitespace(input@.subrange(start as int, end as int))
        } else {
            input@.subrange(start as int, end as int)
        },
{
    let mut out: Vec<u8> = Vec::new();
    let mut i: usize = start;
    assert(input@.subrange(start as int, start as int) =~= Seq::empty());
    while i < end
        invariant
            start <= i <= end <= input@.len(),
            out@ == if skip_whitespace {
                without_whitespace(input@.subrange(start as int, i as int))
            } else {
                input@.subrange(start as int, i as int)
            },
        decreases end - i,
    {
        let b: u8 = input[i];
        let ghost more = input@.subrange(start as int, i + 1);
        assert(more.drop_last() =~= input@.subrange(start as int, i as int));
        assert(more.last() == b);
        if !(skip_whitespace && (b == 0x20 || b == 0x09 || b == 0x0d || b == 0x0a)) {
            out.push(b);
        }
        i = i + 1;
        assert(!skip_whitespace ==> out@ =~= more);
    }
    out
}

fn only_whitespace_from(input: &[u8], from: usize) -> (res: bool)
    requires
        from <= input@.len(),
    ensures
        res == whitespace_from(input@, from as int),
{
    let n: usize = input.len();
    let mut i: usize = from;
    while i < n
        invariant
            from <= i <= n,
            n == input@.len(),
            forall|j: int| from <= j < i ==> is_whitespace(#[trigger] input@[j]),
        decreases n - i,
    {
        let b: u8 = input[i];
        if !(b == 0x20 || b == 0x09 || b == 0x0d || b == 0x0a) {
            return false;
        }
        i = i + 1;
    }
    true
}

/// Reads a PEM envelope: its label, and the bytes that its base64 text
/// stands for.
pub fn parse_pem(input: &[u8]) -> (res: Result<(String, Vec<u8>), JoseError>)
    ensures
        match res {
            Ok((label, data)) => pem_contents(input@) == Some((encode_utf8(label@), data@)),
            Err(e) => pem_contents(input@) is None && e@ == KeyFormatErrorView::InvalidPemFormat,
        },
{
    let begin: Vec<u8> = vec![
        0x2du8, 0x2du8, 0x2du8, 0x2du8, 0x2du8, 0x42u8, 0x45u8, 0x47u8, 0x49u8, 0x4eu8, 0x20u8,
    ];
    let five: Vec<u8> = vec![0x2du8, 0x2du8, 0x2du8, 0x2du8, 0x2du8];
    let mut closing: Vec<u8> = vec![
        0x2du8, 0x2du8, 0x2du8, 0x2du8, 0x2du8, 0x45u8, 0x4eu8, 0x44u8, 0x20u8,
    ];
    assert(begin@ =~= begin_marker());
    assert(five@ =~= dashes());
    assert(closing@ =~= end_marker());
    if !matches_at(input, 0, begin.as_slice()) {
        return Err(JoseError::InvalidKeyFormat(KeyFormatError::InvalidPemFormat));
    }
    let label_start: usize = begin.len();
    let label_stop: usize = label_end(input, label_start);
    if label_stop == label_start || !matches_at(input, label_stop, five.as_slice()) {
        return Err(JoseError::InvalidKeyFormat(KeyFormatError::InvalidPemFormat));
    }
    let label_bytes: Vec<u8> = copy_range(input, label_start, label_stop, false);
    let body_start: usize = label_stop + five.len();
    let body_stop: usize = body_end(input, body_start);
    append_bytes(&mut closing, label_bytes.as_slice());
    append_bytes(&mut closing, five.as_slice());
    if !matches_at(input, body_stop, closing.as_slice()) {
        return Err(JoseError::InvalidKeyFormat(KeyFormatError::InvalidPemFormat));
    }
    if !only_whitespace_from(input, body_stop + closing.len()) {
        return Err(JoseError::InvalidKeyFormat(KeyFormatError::InvalidPemFormat));
    }
    let text: Vec<u8> = copy_range(input, body_start, body_stop, true);
    assert(pem_envelope(input@) == Some((label_bytes@, text@)));
    if text.len() > usize::MAX - 7 {
        return Err(JoseError::InvalidKeyFormat(KeyFormatError::InvalidPemFormat));
    }
    let data: Vec<u8> = match decode_standard(text.as_slice()) {
        Ok(data) => data,
        Err(_) => {
            return Err(JoseError::InvalidKeyFormat(KeyFormatError::InvalidPemFormat));
        },
    };
    proof {
        lemma_label_is_utf8(input@, label_start as int, label_bytes@);
    }
    match string_from_utf8(label_bytes) {
        Ok(label) => Ok((label, data)),
        Err(_) => Err(JoseError::InvalidKeyFormat(KeyFormatError::InvalidPemFormat)),
    }
}

} // verus!
