use vstd::prelude::*;

verus! {

/// The arcs that this codec can write: the first is 0, 1 or 2 and the second
/// is below 40, so that the two share the first octet.
pub open spec fn valid_arcs(arcs: Seq<u64>) -> bool {
    arcs.len() >= 2 && arcs[0] <= 2 && arcs[1] < 40
}

/// The base-128 digits of `n`, each with its high bit set: none for zero.
pub open spec fn leading_octets(n: nat) -> Seq<u8>
    decreases n,
{
    if n == 0 {
        Seq::empty()
    } else {
        leading_octets(n / 128).push((0x80 + n % 128) as u8)
    }
}

/// The octets of one arc: its base-128 digits, high bit set on all but the last.
pub open spec fn subidentifier_octets(n: nat) -> Seq<u8> {
    leading_octets(n / 128).push((n % 128) as u8)
}

/// The octets of a run of arcs, one after the other.
pub open spec fn subidentifiers_octets(arcs: Seq<u64>) -> Seq<u8>
    decreases arcs.len(),
{
    if arcs.len() == 0 {
        Seq::empty()
    } else {
        subidentifiers_octets(arcs.drop_last()) + subidentifier_octets(arcs.last() as nat)
    }
}

/// The value octets of a DER OBJECT IDENTIFIER: the first two arcs in one
/// octet, as forty times the first plus the second, then the other arcs.
pub open spec fn oid_content(arcs: Seq<u64>) -> Seq<u8> {
    seq![(arcs[0] * 40 + arcs[1]) as u8] + subidentifiers_octets(
        arcs.subrange(2, arcs.len() as int),
    )
}

/// Where a reader stands inside a run of arcs: the arcs read so far, and the
/// digits of the arc that has begun, if `pending`.
pub struct ScanState {
    pub arcs: Seq<u64>,
    pub acc: nat,
    pub pending: bool,
}

/// The state after one more octet, or `None` where the octet cannot follow: a
/// first digit of zero, or an arc that outgrows 64 bits.
pub open spec fn scan_step(st: ScanState, b: u8) -> Option<ScanState> {
    let v = st.acc * 128 + (b % 128) as nat;
    if !st.pending && b == 0x80 {
        None
    } else if v > u64::MAX {
        None
    } else if b >= 0x80 {
        Some(ScanState { arcs: st.arcs, acc: v, pending: true })
    } else {
        Some(ScanState { arcs: st.arcs.push(v as u64), acc: 0, pending: false })
    }
}

/// The state after all of `s`.
pub open spec fn scan(s: Seq<u8>) -> Option<ScanState>
    decreases s.len(),
{
    if s.len() == 0 {
        Some(ScanState { arcs: Seq::empty(), acc: 0, pending: false })
    } else {
        match scan(s.drop_last()) {
            None => None,
            Some(st) => scan_step(st, s.last()),
        }
    }
}

/// The arcs that the value octets `c` hold, read strictly.
pub open spec fn parse_oid_content(c: Seq<u8>) -> Option<Seq<u64>> {
    if c.len() == 0 || c[0] >= 120 {
        None
    } else {
        match scan(c.subrange(1, c.len() as int)) {
            Some(st) => if st.pending {
                None
            } else {
                Some(seq![(c[0] / 40) as u64, (c[0] % 40) as u64] + st.arcs)
            },
            None => None,
        }
    }
}

/// Once an octet has been refused, nothing that follows mends it.
pub proof fn lemma_scan_refused_prefix(s: Seq<u8>, i: int)
    requires
        0 <= i <= s.len(),
        scan(s.subrange(0, i)) is None,
    ensures
        scan(s) is None,
    decreases s.len() - i,
{
    if i < s.len() {
        let p = s.subrange(0, i + 1);
        assert(p.drop_last() =~= s.subrange(0, i));
        lemma_scan_refused_prefix(s, i + 1);
    } else {
        assert(s.subrange(0, i) =~= s);
    }
}

/// What was scanned is the octets of the arcs read, followed by the digits
/// of the arc that has begun.
pub proof fn lemma_scan_sound(s: Seq<u8>)
    requires
        scan(s) is Some,
    ensures
        ({
            let st = scan(s)->Some_0;
            &&& s == subidentifiers_octets(st.arcs) + leading_octets(st.acc)
            &&& st.pending ==> 1 <= st.acc
            &&& !st.pending ==> st.acc == 0
            &&& st.acc <= u64::MAX
        }),
    decreases s.len(),
{
    let st = scan(s)->Some_0;
    if s.len() == 0 {
        assert(s =~= subidentifiers_octets(st.arcs) + leading_octets(st.acc));
    } else {
        let init = s.drop_last();
        let b = s.last();
        lemma_scan_sound(init);
        let prev = scan(init)->Some_0;
        let v = prev.acc * 128 + (b % 128) as nat;
        assert(s =~= init.push(b));
        assert(v / 128 == prev.acc);
        assert(v % 128 == (b % 128) as nat);
        if b >= 0x80 {
            assert(st.arcs == prev.arcs);
            assert(leading_octets(v) == leading_octets(prev.acc).push(b));
        } else {
            assert(st.arcs == prev.arcs.push(v as u64));
            assert(st.arcs.drop_last() =~= prev.arcs);
            assert(st.arcs.last() == v as u64);
            assert(subidentifier_octets(v) == leading_octets(prev.acc).push(b));
        }
        assert(s =~= subidentifiers_octets(st.arcs) + leading_octets(st.acc));
    }
}

proof fn lemma_scan_leading(s: Seq<u8>, m: nat)
    requires
        scan(s) is Some,
        !(scan(s)->Some_0).pending,
        1 <= m <= u64::MAX,
    ensures
        scan(s + leading_octets(m)) == Some(
            ScanState { arcs: (scan(s)->Some_0).arcs, acc: m, pending: true },
        ),
    decreases m,
{
    lemma_scan_sound(s);
    let b = (0x80 + m % 128) as u8;
    let t = s + leading_octets(m);
    assert(t.drop_last() =~= s + leading_octets(m / 128));
    assert(t.last() == b);
    assert((b % 128) as nat == m % 128);
    if m < 128 {
        assert(s + leading_octets(m / 128) =~= s);
    } else {
        lemma_scan_leading(s, m / 128);
    }
}

/// After whole arcs, the octets of one more arc are read as that arc.
pub proof fn lemma_scan_subidentifier(s: Seq<u8>, n: u64)
    requires
        scan(s) is Some,
        !(scan(s)->Some_0).pending,
    ensures
        scan(s + subidentifier_octets(n as nat)) == Some(
            ScanState { arcs: (scan(s)->Some_0).arcs.push(n), acc: 0, pending: false },
        ),
{
    lemma_scan_sound(s);
    let t = s + subidentifier_octets(n as nat);
    assert(t.drop_last() =~= s + leading_octets((n / 128) as nat));
    assert(t.last() == (n % 128) as u8);
    if n < 128 {
        assert(s + leading_octets((n / 128) as nat) =~= s);
    } else {
        lemma_scan_leading(s, (n / 128) as nat);
    }
}

/// The octets of a run of arcs are read as that run.
pub proof fn lemma_scan_complete(arcs: Seq<u64>)
    ensures
        scan(subidentifiers_octets(arcs)) == Some(
            ScanState { arcs: arcs, acc: 0, pending: false },
        ),
    decreases arcs.len(),
{
    if arcs.len() == 0 {
        assert(arcs =~= Seq::empty());
    } else {
        lemma_scan_complete(arcs.drop_last());
        lemma_scan_subidentifier(subidentifiers_octets(arcs.drop_last()), arcs.last());
        assert(arcs.drop_last().push(arcs.last()) =~= arcs);
    }
}

/// The value octets of valid arcs are read as those arcs.
pub proof fn lemma_oid_content_round_trip(arcs: Seq<u64>)
    requires
        valid_arcs(arcs),
    ensures
        parse_oid_content(oid_content(arcs)) == Some(arcs),
{
    let c = oid_content(arcs);
    let rest = arcs.subrange(2, arcs.len() as int);
    lemma_scan_complete(rest);
    assert(c.subrange(1, c.len() as int) =~= subidentifiers_octets(rest));
    let first = (arcs[0] * 40 + arcs[1]) as u8;
    assert(c[0] == first);
    assert(first / 40 == arcs[0] && first % 40 == arcs[1]);
    assert(seq![arcs[0], arcs[1]] + rest =~= arcs);
}

/// Value octets that are read as arcs are the value octets of those arcs.
pub proof fn lemma_parse_oid_content_sound(c: Seq<u8>)
    requires
        parse_oid_content(c) is Some,
    ensures
        valid_arcs(parse_oid_content(c)->Some_0),
        oid_content(parse_oid_content(c)->Some_0) == c,
{
    let arcs = parse_oid_content(c)->Some_0;
    let tail = c.subrange(1, c.len() as int);
    lemma_scan_sound(tail);
    let st = scan(tail)->Some_0;
    assert(arcs.subrange(2, arcs.len() as int) =~= st.arcs);
    assert(tail =~= subidentifiers_octets(st.arcs));
    assert(((c[0] / 40) * 40 + c[0] % 40) as u8 == c[0]);
    assert(oid_content(arcs) =~= c);
}

/// Encoding is injective: two valid identifiers with the same value octets
/// have the same arcs.
pub proof fn lemma_oid_content_injective(a: Seq<u64>, b: Seq<u64>)
    requires
        valid_arcs(a),
        valid_arcs(b),
        oid_content(a) == oid_content(b),
    ensures
        a == b,
{
    lemma_oid_content_round_trip(a);
    lemma_oid_content_round_trip(b);
}

/// Value octets that are not read as arcs are the value octets of no valid
/// identifier.
pub proof fn lemma_refused_content_has_no_arcs(c: Seq<u8>)
    requires
        parse_oid_content(c) is None,
    ensures
        forall|arcs: Seq<u64>| valid_arcs(arcs) ==> #[trigger] oid_content(arcs) != c,
{
    assert forall|arcs: Seq<u64>| valid_arcs(arcs) implies #[trigger] oid_content(arcs) != c by {
        if oid_content(arcs) == c {
            lemma_oid_content_round_trip(arcs);
        }
    }
}

/// The arcs of rsaEncryption, 1.2.840.113549.1.1.1.
pub open spec fn rsa_encryption_arcs() -> Seq<u64> {
    seq![1u64, 2u64, 840u64, 113549u64, 1u64, 1u64, 1u64]
}

/// An object identifier: a run of arcs that DER can write.
#[derive(Debug)]
pub struct ObjectIdentifier {
    arcs: Vec<u64>,
}

impl View for ObjectIdentifier {
    type V = Seq<u64>;

    closed spec fn view(&self) -> Seq<u64> {
        self.arcs@
    }
}

fn push_subidentifier(out: &mut Vec<u8>, n: u64)
    ensures
        final(out)@ == old(out)@ + subidentifier_octets(n as nat),
{
    let last: u8 = (n % 128) as u8;
    let mut rem: u64 = n / 128;
    let mut low_first: Vec<u8> = Vec::new();
    let ghost high = rem as nat;
    assert(leading_octets(rem as nat) + low_first@.reverse() =~= leading_octets(high));
    while rem > 0
        invariant
            leading_octets(high) == leading_octets(rem as nat) + low_first@.reverse(),
        decreases rem,
    {
        let ghost prev = low_first@;
        let digit: u8 = (0x80 + rem % 128) as u8;
        low_first.push(digit);
        let ghost before = rem as nat;
        rem = rem / 128;
        proof {
            let lower = leading_octets(rem as nat);
            assert(leading_octets(before) == lower.push(digit));
            assert(low_first@.reverse() =~= seq![digit] + prev.reverse());
            assert(lower.push(digit) + prev.reverse() =~= lower + low_first@.reverse());
        }
    }
    let ghost start = out@;
    let k: usize = low_first.len();
    let mut i: usize = k;
    while i > 0
        invariant
            i <= k,
            k == low_first@.len(),
            out@ == start + low_first@.reverse().subrange(0, k - i),
        decreases i,
    {
        i = i - 1;
        out.push(low_first[i]);
        assert(out@ =~= start + low_first@.reverse().subrange(0, k - i));
    }
    out.push(last);
    proof {
        assert(low_first@.reverse().subrange(0, k as int) =~= low_first@.reverse());
        assert(out@ =~= start + leading_octets(high).push(last));
    }
}

impl ObjectIdentifier {
    #[verifier::type_invariant]
    spec fn inv(self) -> bool {
        valid_arcs(self.arcs@)
    }

    /// The identifier with the given arcs, if DER can write them.
    pub fn from_slice(arcs: &[u64]) -> (res: Option<ObjectIdentifier>)
        ensures
            match res {
                Some(oid) => oid@ == arcs@ && valid_arcs(arcs@),
                None => !valid_arcs(arcs@),
            },
    {
        if arcs.len() < 2 || arcs[0] > 2 || arcs[1] >= 40 {
            return None;
        }
        let mut own: Vec<u64> = Vec::new();
        let mut i: usize = 0;
        while i < arcs.len()
            invariant
                i <= arcs@.len(),
                own@ == arcs@.subrange(0, i as int),
            decreases arcs@.len() - i,
        {
            own.push(arcs[i]);
            i = i + 1;
            assert(own@ =~= arcs@.subrange(0, i as int));
        }
        assert(own@ =~= arcs@);
        Some(ObjectIdentifier { arcs: own })
    }

    /// rsaEncryption, the identifier of RSA keys.
    pub fn rsa_encryption() -> (oid: ObjectIdentifier)
        ensures
            oid@ == rsa_encryption_arcs(),
    {
        let arcs: Vec<u64> = vec![1u64, 2u64, 840u64, 113549u64, 1u64, 1u64, 1u64];
        assert(arcs@ =~= rsa_encryption_arcs());
        ObjectIdentifier { arcs }
    }

    /// The arcs, which are always ones that DER can write.
    pub fn arcs(&self) -> (res: &[u64])
        ensures
            res@ == self@,
            valid_arcs(self@),
    {
        proof {
            use_type_invariant(self);
        }
        self.arcs.as_slice()
    }

    /// Whether two identifiers have the same arcs.
    pub fn equals(&self, other: &ObjectIdentifier) -> (same: bool)
        ensures
            same == (self@ == other@),
    {
        let n: usize = self.arcs.len();
        if n != other.arcs.len() {
            return false;
        }
        let mut i: usize = 0;
        while i < n
            invariant
                i <= n,
                n == self.arcs@.len(),
                n == other.arcs@.len(),
                self.arcs@.subrange(0, i as int) == other.arcs@.subrange(0, i as int),
            decreases n - i,
        {
            if self.arcs[i] != other.arcs[i] {
                return false;
            }
            i = i + 1;
            assert(self.arcs@.subrange(0, i as int) =~= self.arcs@.subrange(0, i - 1).push(
                self.arcs@[i - 1],
            ));
            assert(other.arcs@.subrange(0, i as int) =~= other.arcs@.subrange(0, i - 1).push(
                other.arcs@[i - 1],
            ));
        }
        assert(self.arcs@ =~= self.arcs@.subrange(0, n as int));
        assert(other.arcs@ =~= other.arcs@.subrange(0, n as int));
        true
    }

    /// The value octets of the identifier in DER.
    pub fn to_der_content(&self) -> (out: Vec<u8>)
        ensures
            out@ == oid_content(self@),
    {
        proof {
            use_type_invariant(self);
        }
        let n: usize = self.arcs.len();
        let mut out: Vec<u8> = Vec::new();
        let first: u64 = self.arcs[0] * 40 + self.arcs[1];
        out.push(first as u8);
        let mut i: usize = 2;
        assert(self.arcs@.subrange(2, 2).len() == 0);
        while i < n
            invariant
                2 <= i <= n,
                n == self.arcs@.len(),
                out@ == seq![first as u8] + subidentifiers_octets(self.arcs@.subrange(2, i as int)),
            decreases n - i,
        {
            let ghost done = self.arcs@.subrange(2, i as int);
            let ghost more = self.arcs@.subrange(2, i + 1);
            push_subidentifier(&mut out, self.arcs[i]);
            proof {
                assert(more.drop_last() =~= done);
                assert(more.last() == self.arcs@[i as int]);
                assert(out@ =~= seq![first as u8] + subidentifiers_octets(more));
            }
            i = i + 1;
        }
        out
    }

    /// The identifier with the value octets `content`: the one that is
    /// written so, if there is one.
    pub fn from_der_content(content: &[u8]) -> (res: Option<ObjectIdentifier>)
        ensures
            match res {
                Some(oid) => valid_arcs(oid@) && oid_content(oid@) == content@,
                None => forall|arcs: Seq<u64>|
                    valid_arcs(arcs) ==> #[trigger] oid_content(arcs) != content@,
            },
    {
        let n: usize = content.len();
        if n == 0 || content[0] >= 120 {
            proof {
                lemma_refused_content_has_no_arcs(content@);
            }
            return None;
        }
        let ghost tail = content@.subrange(1, n as int);
        let mut arcs: Vec<u64> = Vec::new();
        arcs.push((content[0] / 40) as u64);
        arcs.push((content[0] % 40) as u64);
        let mut acc: u64 = 0;
        let mut pending: bool = false;
        let mut i: usize = 1;
        assert(tail.subrange(0, 0).len() == 0);
        assert(arcs@.subrange(2, 2) =~= Seq::empty());
        while i < n
            invariant
                1 <= i <= n,
                n == content@.len(),
                tail == content@.subrange(1, n as int),
                arcs@.len() >= 2,
                arcs@[0] == (content@[0] / 40) as u64,
                arcs@[1] == (content@[0] % 40) as u64,
                scan(tail.subrange(0, i - 1)) == Some(
                    ScanState {
                        arcs: arcs@.subrange(2, arcs@.len() as int),
                        acc: acc as nat,
                        pending: pending,
                    },
                ),
            decreases n - i,
        {
            let b: u8 = content[i];
            let ghost next = tail.subrange(0, i as int);
            let ghost read = arcs@.subrange(2, arcs@.len() as int);
            proof {
                assert(next.drop_last() =~= tail.subrange(0, i - 1));
                assert(next.last() == b);
            }
            if (!pending && b == 0x80) || acc > 0x01FF_FFFF_FFFF_FFFF {
                proof {
                    assert(scan(next) is None);
                    lemma_scan_refused_prefix(tail, i as int);
                    lemma_refused_content_has_no_arcs(content@);
                }
                return None;
            }
            let v: u64 = acc * 128 + (b % 128) as u64;
            if b >= 0x80 {
                acc = v;
                pending = true;
            } else {
                arcs.push(v);
                acc = 0;
                pending = false;
                assert(arcs@.subrange(2, arcs@.len() as int) =~= read.push(v));
            }
            i = i + 1;
        }
        assert(tail.subrange(0, n - 1) =~= tail);
        if pending {
            proof {
                lemma_refused_content_has_no_arcs(content@);
            }
            return None;
        }
        proof {
            assert(seq![arcs@[0], arcs@[1]] + arcs@.subrange(2, arcs@.len() as int) =~= arcs@);
            assert(parse_oid_content(content@) == Some(arcs@));
            lemma_parse_oid_content_sound(content@);
        }
        Some(ObjectIdentifier { arcs })
    }
}

impl PartialEq for ObjectIdentifier {
    fn eq(&self, other: &ObjectIdentifier) -> (same: bool) {
        self.equals(other)
    }
}

impl vstd::std_specs::cmp::PartialEqSpecImpl for ObjectIdentifier {
    open spec fn obeys_eq_spec() -> bool {
        true
    }

    open spec fn eq_spec(&self, other: &ObjectIdentifier) -> bool {
        self@ == other@
    }
}

impl Clone for ObjectIdentifier {
    fn clone(&self) -> (res: ObjectIdentifier)
        ensures
            res@ == self@,
    {
        proof {
            use_type_invariant(self);
        }
        ObjectIdentifier { arcs: self.arcs.clone() }
    }
}

} // verus!
