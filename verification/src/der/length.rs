use vstd::prelude::*;
use crate::der::error::DerError;

verus! {

/// 256 to the power `k`.
pub open spec fn pow256(k: nat) -> nat
    decreases k,
{
    if k == 0 {
        1
    } else {
        256 * pow256((k - 1) as nat)
    }
}

/// The number that a big-endian string of octets stands for.
pub open spec fn be_value(s: Seq<u8>) -> nat
    decreases s.len(),
{
    if s.len() == 0 {
        0
    } else {
        be_value(s.drop_last()) * 256 + s.last() as nat
    }
}

/// The shortest big-endian string of octets that stands for `n`: empty for zero.
pub open spec fn be_digits(n: nat) -> Seq<u8>
    decreases n,
{
    if n == 0 {
        Seq::empty()
    } else {
        be_digits(n / 256).push((n % 256) as u8)
    }
}

/// The definite-form length octets of DER: one octet up to 127, else the count
/// of digits with the high bit set, followed by the minimal big-endian digits.
pub open spec fn length_octets(n: nat) -> Seq<u8> {
    if n < 128 {
        seq![n as u8]
    } else {
        seq![(0x80 + be_digits(n).len()) as u8] + be_digits(n)
    }
}

/// What a reader makes of the length octets at the start of `s`: the length
/// and the number of octets that encode it.
pub open spec fn parse_length(s: Seq<u8>) -> Result<(nat, nat), DerError> {
    if s.len() == 0 {
        Err(DerError::UnexpectedEnd)
    } else if s[0] < 0x80 {
        Ok((s[0] as nat, 1))
    } else if s[0] == 0x80 {
        Err(DerError::InvalidLength)
    } else {
        let k = (s[0] - 0x80) as nat;
        if s.len() < 1 + k {
            Err(DerError::UnexpectedEnd)
        } else {
            let digits = s.subrange(1, 1 + k as int);
            if digits[0] == 0 || be_value(digits) < 128 || be_value(digits) > usize::MAX {
                Err(DerError::InvalidLength)
            } else {
                Ok((be_value(digits), 1 + k))
            }
        }
    }
}

/// The powers of 256 that lengths of up to eight digits meet.
pub proof fn lemma_pow256_values()
    ensures
        pow256(0) == 1,
        pow256(1) == 0x100,
        pow256(2) == 0x1_0000,
        pow256(3) == 0x100_0000,
        pow256(4) == 0x1_0000_0000,
        pow256(5) == 0x100_0000_0000,
        pow256(6) == 0x1_0000_0000_0000,
        pow256(7) == 0x100_0000_0000_0000,
        pow256(8) == 0x1_0000_0000_0000_0000,
{
    reveal_with_fuel(pow256, 10);
}

/// The powers of 256 grow with the exponent, from one on.
pub proof fn lemma_pow256_monotonic(a: nat, b: nat)
    requires
        a <= b,
    ensures
        pow256(a) <= pow256(b),
        pow256(a) >= 1,
    decreases b,
{
    if b > a {
        lemma_pow256_monotonic(a, (b - 1) as nat);
    } else if a > 0 {
        lemma_pow256_monotonic((a - 1) as nat, (a - 1) as nat);
    }
}

/// A string of `k` octets stands for a number below 256 to the `k`, and for
/// one of at least 256 to the `k - 1` when its first octet is not zero.
pub proof fn lemma_be_value_bounds(s: Seq<u8>)
    ensures
        be_value(s) < pow256(s.len()),
        s.len() > 0 && s[0] != 0 ==> be_value(s) >= pow256((s.len() - 1) as nat),
    decreases s.len(),
{
    if s.len() > 0 {
        lemma_be_value_bounds(s.drop_last());
        if s.len() == 1 {
            assert(s.drop_last().len() == 0);
            assert(be_value(s.drop_last()) == 0);
        } else {
            assert(s.drop_last()[0] == s[0]);
        }
    }
}

/// The digits of a number stand for that number, and the digits of a number
/// other than zero start with an octet other than zero.
pub proof fn lemma_be_digits_value(n: nat)
    ensures
        be_value(be_digits(n)) == n,
        n > 0 ==> be_digits(n).len() > 0 && be_digits(n)[0] != 0,
        n == 0 ==> be_digits(n).len() == 0,
    decreases n,
{
    if n > 0 {
        lemma_be_digits_value(n / 256);
        let d = be_digits(n / 256);
        let s = d.push((n % 256) as u8);
        assert(s.drop_last() =~= d);
        assert(s.last() == (n % 256) as u8);
        if n / 256 > 0 {
            assert(s[0] == d[0]);
        } else {
            assert(d.len() == 0);
            assert(s[0] == (n % 256) as u8);
        }
    }
}

/// A string of octets that does not start with zero is the digits of the
/// number it stands for.
pub proof fn lemma_be_value_digits(s: Seq<u8>)
    requires
        s.len() > 0 ==> s[0] != 0,
    ensures
        be_digits(be_value(s)) == s,
    decreases s.len(),
{
    if s.len() > 0 {
        let v = be_value(s);
        let init = s.drop_last();
        if init.len() > 0 {
            assert(init[0] == s[0]);
        }
        lemma_be_value_digits(init);
        lemma_be_value_bounds(s);
        lemma_pow256_monotonic(0, (s.len() - 1) as nat);
        assert(v > 0);
        assert(v / 256 == be_value(init));
        assert(v % 256 == s.last() as nat);
        assert(be_digits(v) == be_digits(v / 256).push((v % 256) as u8));
        assert(init.push(s.last()) =~= s);
    }
}

/// The number of digits of a number below 256 to the `k` is at most `k`.
pub proof fn lemma_be_digits_len(n: nat, k: nat)
    requires
        n < pow256(k),
    ensures
        be_digits(n).len() <= k,
    decreases n,
{
    if n > 0 {
        assert(k > 0);
        lemma_be_digits_len(n / 256, (k - 1) as nat);
    }
}

/// What `parse_length` accepts is the length octets of the number it gives.
pub proof fn lemma_parse_length_sound(s: Seq<u8>)
    requires
        parse_length(s) is Ok,
    ensures
        ({
            let (n, k) = parse_length(s)->Ok_0;
            &&& 1 <= k <= s.len()
            &&& n <= usize::MAX
            &&& s.subrange(0, k as int) == length_octets(n)
        }),
{
    let (n, k) = parse_length(s)->Ok_0;
    if s[0] < 0x80 {
        assert(s.subrange(0, 1) =~= seq![s[0]]);
    } else {
        let digits = s.subrange(1, k as int);
        lemma_be_value_digits(digits);
        assert(s.subrange(0, k as int) =~= seq![s[0]] + digits);
    }
}

/// The length octets of a number that fits the machine are accepted, whatever
/// follows them, and give that number back.
pub proof fn lemma_parse_length_complete(n: nat, rest: Seq<u8>)
    requires
        n <= usize::MAX,
    ensures
        parse_length(length_octets(n) + rest) == Ok::<(nat, nat), DerError>(
            (n, length_octets(n).len()),
        ),
{
    let s = length_octets(n) + rest;
    if n >= 128 {
        lemma_be_digits_value(n);
        lemma_pow256_values();
        lemma_be_digits_len(n, 8);
        let d = be_digits(n);
        assert(s[0] == (0x80 + d.len()) as u8);
        assert(s.subrange(1, 1 + d.len() as int) =~= d);
    }
}

/// No two lengths that fit the machine share their length octets, even as
/// the start of a longer string.
pub proof fn lemma_length_octets_prefix_free(a: nat, b: nat, x: Seq<u8>, y: Seq<u8>)
    requires
        a <= usize::MAX,
        b <= usize::MAX,
        length_octets(a) + x == length_octets(b) + y,
    ensures
        a == b,
        x == y,
{
    let s = length_octets(a) + x;
    let t = length_octets(b) + y;
    lemma_parse_length_complete(a, x);
    lemma_parse_length_complete(b, y);
    assert(x =~= s.subrange(length_octets(a).len() as int, s.len() as int));
    assert(y =~= t.subrange(length_octets(b).len() as int, t.len() as int));
}

/// The length octets of `n`.
pub fn encode_length(n: usize) -> (out: Vec<u8>)
    ensures
        out@ == length_octets(n as nat),
{
    let mut out: Vec<u8> = Vec::new();
    if n < 128 {
        out.push(n as u8);
        assert(out@ =~= seq![n as u8]);
        return out;
    }
    let mut low_first: Vec<u8> = Vec::new();
    let mut rem: usize = n;
    proof {
        lemma_pow256_values();
        assert(be_digits(rem as nat) + low_first@.reverse() =~= be_digits(n as nat));
    }
    while rem > 0
        invariant
            be_digits(n as nat) == be_digits(rem as nat) + low_first@.reverse(),
            low_first@.len() <= 8,
            (rem as nat) < pow256((8 - low_first@.len()) as nat),
        decreases rem,
    {
        let ghost prev = low_first@;
        let ghost before = rem as nat;
        let digit: u8 = (rem % 256) as u8;
        low_first.push(digit);
        rem = rem / 256;
        proof {
            assert(prev.len() < 8) by {
                if prev.len() == 8 {
                    assert(pow256(0) == 1);
                }
            }
            assert(be_digits(before) == be_digits(rem as nat).push(digit));
            assert(low_first@.reverse() =~= seq![digit] + prev.reverse());
            assert(be_digits(rem as nat).push(digit) + prev.reverse() =~= be_digits(rem as nat)
                + low_first@.reverse());
        }
    }
    let k: usize = low_first.len();
    assert(be_digits(n as nat) =~= low_first@.reverse());
    out.push((0x80 + k) as u8);
    let mut i: usize = k;
    while i > 0
        invariant
            i <= k,
            k == low_first@.len(),
            k <= 8,
            out@ == seq![(0x80 + k) as u8] + low_first@.reverse().subrange(0, k - i),
        decreases i,
    {
        i = i - 1;
        out.push(low_first[i]);
        assert(out@ =~= seq![(0x80 + k) as u8] + low_first@.reverse().subrange(0, k - i));
    }
    assert(low_first@.reverse().subrange(0, k as int) =~= low_first@.reverse());
    out
}

/// Reads the length octets of `input` that start at `start`.
pub fn decode_length(input: &[u8], start: usize) -> (res: Result<(usize, usize), DerError>)
    requires
        start <= input@.len(),
    ensures
        match res {
            Ok((n, k)) => parse_length(input@.subrange(start as int, input@.len() as int))
                == Ok::<(nat, nat), DerError>((n as nat, k as nat)),
            Err(e) => parse_length(input@.subrange(start as int, input@.len() as int))
                == Err::<(nat, nat), DerError>(e),
        },
{
    let ghost s = input@.subrange(start as int, input@.len() as int);
    if start >= input.len() {
        return Err(DerError::UnexpectedEnd);
    }
    let first: u8 = input[start];
    assert(s[0] == first);
    if first < 0x80 {
        return Ok((first as usize, 1));
    }
    if first == 0x80 {
        return Err(DerError::InvalidLength);
    }
    let k: usize = (first - 0x80) as usize;
    if input.len() - start - 1 < k {
        return Err(DerError::UnexpectedEnd);
    }
    let ghost digits = s.subrange(1, 1 + k as int);
    assert(digits[0] == input@[start + 1]);
    if input[start + 1] == 0 {
        return Err(DerError::InvalidLength);
    }
    proof {
        lemma_pow256_values();
        lemma_be_value_bounds(digits);
    }
    if k > 8 {
        proof {
            lemma_pow256_monotonic(8, (k - 1) as nat);
        }
        return Err(DerError::InvalidLength);
    }
    let mut value: u64 = 0;
    let mut i: usize = 0;
    assert(digits.subrange(0, 0).len() == 0);
    assert(input@.len() == input.len());
    while i < k
        invariant
            i <= k <= 8,
            start + 1 + k <= input@.len() <= usize::MAX,
            digits == input@.subrange(start + 1, start + 1 + k),
            value as nat == be_value(digits.subrange(0, i as int)),
        decreases k - i,
    {
        let ghost prefix = digits.subrange(0, i as int);
        let ghost next = digits.subrange(0, i + 1);
        proof {
            lemma_be_value_bounds(prefix);
            lemma_pow256_values();
            lemma_pow256_monotonic(i as nat, 7);
            assert(next.drop_last() =~= prefix);
            assert(next.last() == input@[start + 1 + i]);
        }
        value = value * 256 + input[start + 1 + i] as u64;
        i = i + 1;
    }
    assert(digits.subrange(0, k as int) =~= digits);
    assert(digits =~= s.subrange(1, 1 + k as int));
    if value < 128 {
        return Err(DerError::InvalidLength);
    }
    if value > usize::MAX as u64 {
        return Err(DerError::InvalidLength);
    }
    Ok((value as usize, 1 + k))
}

} // verus!
