use vstd::prelude::*;
use vstd::slice::slice_subrange;
use vstd::slice::slice_to_vec;

verus! {

/// A big-endian string of octets without the zero octets at its start.
pub open spec fn strip_leading_zeros(s: Seq<u8>) -> Seq<u8>
    decreases s.len(),
{
    if s.len() > 0 && s[0] == 0 {
        strip_leading_zeros(s.drop_first())
    } else {
        s
    }
}

/// The value octets of a DER INTEGER for the big-endian number `s`.
///
/// Leading zero octets go; nothing left stands for zero, one zero octet.
/// Unless the caller vouches with `signed` that the octets are two's
/// complement already, a zero octet is put in front of a first octet whose
/// high bit is set, so that the number reads as positive.
pub open spec fn integer_content(s: Seq<u8>, signed: bool) -> Seq<u8> {
    let m = strip_leading_zeros(s);
    if m.len() == 0 {
        seq![0u8]
    } else if !signed && m[0] >= 0x80 {
        seq![0u8] + m
    } else {
        m
    }
}

/// The shortest big-endian octets of the number `s`, one zero octet for zero.
pub open spec fn canonical_magnitude(s: Seq<u8>) -> Seq<u8> {
    let m = strip_leading_zeros(s);
    if m.len() == 0 {
        seq![0u8]
    } else {
        m
    }
}

/// The magnitude of a DER INTEGER that is not negative and minimally encoded:
/// its value octets without the sign octet. `None` for every other string.
pub open spec fn unsigned_magnitude(c: Seq<u8>) -> Option<Seq<u8>> {
    if c.len() == 0 {
        None
    } else if c[0] >= 0x80 {
        None
    } else if c.len() >= 2 && c[0] == 0 {
        if c[1] < 0x80 {
            None
        } else {
            Some(c.subrange(1, c.len() as int))
        }
    } else {
        Some(c)
    }
}

/// The number in 0..=255 that the value octets of a DER INTEGER stand for.
pub open spec fn content_as_u8(c: Seq<u8>) -> Option<u8> {
    match unsigned_magnitude(c) {
        Some(m) => if m.len() == 1 {
            Some(m[0])
        } else {
            None
        },
        None => None,
    }
}

/// Stripping leaves the end of the string, and what is left does not start
/// with zero.
pub proof fn lemma_strip_leading_zeros(s: Seq<u8>)
    ensures
        strip_leading_zeros(s).len() <= s.len(),
        strip_leading_zeros(s) == s.subrange(
            s.len() - strip_leading_zeros(s).len(),
            s.len() as int,
        ),
        strip_leading_zeros(s).len() > 0 ==> strip_leading_zeros(s)[0] != 0,
        forall|i: int| 0 <= i < s.len() - strip_leading_zeros(s).len() ==> s[i] == 0,
    decreases s.len(),
{
    if s.len() > 0 && s[0] == 0 {
        let t = s.drop_first();
        lemma_strip_leading_zeros(t);
        let m = strip_leading_zeros(t);
        assert(t.subrange(t.len() - m.len(), t.len() as int) =~= s.subrange(
            s.len() - m.len(),
            s.len() as int,
        ));
        assert forall|i: int| 0 <= i < s.len() - m.len() implies s[i] == 0 by {
            if i > 0 {
                assert(s[i] == t[i - 1]);
            }
        }
    } else {
        assert(s.subrange(0, s.len() as int) =~= s);
    }
}

/// A number whose first octet has its high bit set is written with a zero
/// octet in front, and reading the magnitude back gives the number as it was.
pub proof fn lemma_sign_padding(s: Seq<u8>)
    requires
        s.len() > 0,
        s[0] >= 0x80,
    ensures
        integer_content(s, false) == seq![0u8] + s,
        unsigned_magnitude(integer_content(s, false)) == Some(s),
{
    let c = seq![0u8] + s;
    assert(c.subrange(1, c.len() as int) =~= s);
    assert(c[1] == s[0]);
}

/// Reading back what was written for an unsigned number gives its shortest
/// form.
pub proof fn lemma_integer_round_trip(s: Seq<u8>)
    ensures
        unsigned_magnitude(integer_content(s, false)) == Some(canonical_magnitude(s)),
{
    lemma_strip_leading_zeros(s);
    let m = strip_leading_zeros(s);
    if m.len() > 0 && m[0] >= 0x80 {
        let c = seq![0u8] + m;
        assert(c.subrange(1, c.len() as int) =~= m);
        assert(c[1] == m[0]);
    }
}

/// A number that is not empty and does not start with a zero octet is read
/// back as it was written, octet for octet.
pub proof fn lemma_shortest_round_trip(s: Seq<u8>)
    requires
        s.len() > 0,
        s[0] != 0,
    ensures
        canonical_magnitude(s) == s,
        unsigned_magnitude(integer_content(s, false)) == Some(s),
{
    lemma_integer_round_trip(s);
}

/// Value octets that are read as a magnitude are the ones that are written
/// for that magnitude: no number has two accepted encodings.
pub proof fn lemma_magnitude_sound(c: Seq<u8>)
    requires
        unsigned_magnitude(c) is Some,
    ensures
        integer_content(unsigned_magnitude(c)->Some_0, false) == c,
{
    let m = unsigned_magnitude(c)->Some_0;
    if c.len() >= 2 && c[0] == 0 {
        assert(m[0] == c[1]);
        assert(seq![0u8] + m =~= c);
    } else if c[0] == 0 {
        assert(c.len() == 1);
        assert(c.drop_first().len() == 0);
        assert(strip_leading_zeros(c.drop_first()) == c.drop_first());
        assert(c =~= seq![0u8]);
    }
}

/// The value octets of a number in 0..=255 are read back as that number.
pub proof fn lemma_u8_round_trip(v: u8)
    ensures
        content_as_u8(integer_content(seq![v], false)) == Some(v),
        integer_content(seq![v], false) == if v == 0 {
            seq![0u8]
        } else if v >= 0x80 {
            seq![0u8, v]
        } else {
            seq![v]
        },
{
    let s = seq![v];
    lemma_integer_round_trip(s);
    assert(s.drop_first().len() == 0);
    if v == 0 {
        assert(strip_leading_zeros(s.drop_first()) == s.drop_first());
    } else {
        assert(strip_leading_zeros(s) == s);
        if v >= 0x80 {
            assert(seq![0u8] + s =~= seq![0u8, v]);
        }
    }
}

/// The value octets of a DER INTEGER for the big-endian number `value`.
pub fn encode_integer(value: &[u8], signed: bool) -> (out: Vec<u8>)
    ensures
        out@ == integer_content(value@, signed),
{
    let n: usize = value.len();
    let mut i: usize = 0;
    assert(value@.subrange(0, n as int) =~= value@);
    while i < n && value[i] == 0
        invariant
            i <= n,
            n == value@.len(),
            strip_leading_zeros(value@) == strip_leading_zeros(value@.subrange(i as int, n as int)),
        decreases n - i,
    {
        assert(value@.subrange(i as int, n as int).drop_first() =~= value@.subrange(
            i + 1,
            n as int,
        ));
        i = i + 1;
    }
    let ghost m = value@.subrange(i as int, n as int);
    assert(strip_leading_zeros(m) == m);
    let mut out: Vec<u8> = Vec::new();
    if i == n {
        out.push(0u8);
        assert(out@ =~= seq![0u8]);
        return out;
    }
    if !signed && value[i] >= 0x80 {
        out.push(0u8);
    }
    let ghost head = out@;
    let mut j: usize = i;
    while j < n
        invariant
            i <= j <= n,
            n == value@.len(),
            out@ == head + value@.subrange(i as int, j as int),
        decreases n - j,
    {
        out.push(value[j]);
        j = j + 1;
        assert(out@ =~= head + value@.subrange(i as int, j as int));
    }
    assert(m[0] == value@[i as int]);
    assert(out@ =~= if !signed && m[0] >= 0x80 {
        seq![0u8] + m
    } else {
        m
    });
    out
}

/// The value octets of a DER INTEGER for a number in 0..=255.
pub fn encode_u8(value: u8) -> (out: Vec<u8>)
    ensures
        out@ == integer_content(seq![value], false),
{
    let mut out: Vec<u8> = Vec::new();
    if value >= 0x80 {
        out.push(0u8);
    }
    out.push(value);
    proof {
        lemma_u8_round_trip(value);
        if value == 0 {
            assert(out@ =~= seq![0u8]);
        } else if value >= 0x80 {
            assert(out@ =~= seq![0u8, value]);
        } else {
            assert(out@ =~= seq![value]);
        }
    }
    out
}

/// The magnitude of the DER INTEGER with the value octets `content`.
pub fn decode_unsigned(content: &[u8]) -> (res: Option<Vec<u8>>)
    ensures
        match res {
            Some(m) => unsigned_magnitude(content@) == Some(m@),
            None => unsigned_magnitude(content@) is None,
        },
{
    let n: usize = content.len();
    if n == 0 {
        return None;
    }
    if content[0] >= 0x80 {
        return None;
    }
    if n >= 2 && content[0] == 0 {
        if content[1] < 0x80 {
            return None;
        }
        return Some(slice_to_vec(slice_subrange(content, 1, n)));
    }
    Some(slice_to_vec(content))
}

/// The number in 0..=255 that the value octets `content` stand for.
pub fn decode_u8(content: &[u8]) -> (res: Option<u8>)
    ensures
        res == content_as_u8(content@),
{
    let n: usize = content.len();
    if n == 1 && content[0] < 0x80 {
        Some(content[0])
    } else if n == 2 && content[0] == 0 && content[1] >= 0x80 {
        assert(content@.subrange(1, 2)[0] == content@[1]);
        Some(content[1])
    } else {
        None
    }
}

} // verus!
