//! Fixed-size byte values of the chain: 20-byte addresses and 32-byte hashes.

use vstd::prelude::*;
use crate::hex::{hex_char, hex_digits, hex_text, to_hex_text};

verus! {

pub open spec fn is_hex_digit(c: char) -> bool {
    ('0' <= c && c <= '9') || ('a' <= c && c <= 'f') || ('A' <= c && c <= 'F')
}

pub open spec fn hex_digit_value(c: char) -> int {
    if '0' <= c && c <= '9' {
        c as int - '0' as int
    } else if 'a' <= c && c <= 'f' {
        c as int - 'a' as int + 10
    } else {
        c as int - 'A' as int + 10
    }
}

/// Characters that a hex reading passes over.
pub open spec fn is_hex_blank(c: char) -> bool {
    c == ' ' || c == '\r' || c == '\n' || c == '\t'
}

/// The text without one leading `0x`, if it has one.
pub open spec fn without_0x(s: Seq<char>) -> Seq<char> {
    if s.len() >= 2 && s[0] == '0' && s[1] == 'x' {
        s.subrange(2, s.len() as int)
    } else {
        s
    }
}

/// The digits of a hex text, blanks left out.
pub open spec fn hex_body(s: Seq<char>) -> Seq<char> {
    without_0x(s).filter(|c: char| !is_hex_blank(c))
}

/// The `n` bytes that a hex text spells, two digits per byte, most significant
/// first: present when the text, after an optional `0x`, holds only digits and
/// blanks, and exactly `2 * n` digits.
pub open spec fn hex_decoding(s: Seq<char>, n: nat) -> Option<Seq<u8>> {
    let d = hex_body(s);
    if (forall|i: int| 0 <= i < without_0x(s).len() ==> is_hex_digit(#[trigger] without_0x(s)[i])
        || is_hex_blank(without_0x(s)[i])) && d.len() == 2 * n {
        Some(Seq::new(n, |i: int| (16 * hex_digit_value(d[2 * i]) + hex_digit_value(d[2 * i + 1])) as u8))
    } else {
        None
    }
}

proof fn lemma_hex_char_facts(n: int)
    requires
        0 <= n < 16,
    ensures
        is_hex_digit(hex_char(n)),
        !is_hex_blank(hex_char(n)),
        hex_digit_value(hex_char(n)) == n,
{
}

proof fn lemma_hex_digits_shape(b: Seq<u8>)
    ensures
        hex_digits(b).len() == 2 * b.len(),
        forall|i: int| 0 <= i < b.len() ==> hex_digits(b)[2 * i] == hex_char(#[trigger] b[i] as int / 16)
            && hex_digits(b)[2 * i + 1] == hex_char(b[i] as int % 16),
    decreases b.len(),
{
    if b.len() > 0 {
        let b1 = b.drop_last();
        lemma_hex_digits_shape(b1);
        assert forall|i: int| 0 <= i < b.len() implies hex_digits(b)[2 * i] == hex_char(#[trigger] b[i] as int / 16)
            && hex_digits(b)[2 * i + 1] == hex_char(b[i] as int % 16) by {
            if i < b1.len() {
                assert(b1[i] == b[i]);
            }
        }
    }
}

proof fn lemma_filter_keeps_all(s: Seq<char>, pred: spec_fn(char) -> bool)
    requires
        forall|i: int| 0 <= i < s.len() ==> pred(#[trigger] s[i]),
    ensures
        s.filter(pred) == s,
    decreases s.len(),
{
    reveal(Seq::filter);
    if s.len() == 0 {
        assert(s.filter(pred) == s);
    } else {
        let s1 = s.drop_last();
        assert forall|i: int| 0 <= i < s1.len() implies pred(#[trigger] s1[i]) by {
            assert(s1[i] == s[i]);
        }
        lemma_filter_keeps_all(s1, pred);
        assert(pred(s.last()));
        assert(s.filter(pred) == s1.filter(pred).push(s.last()));
        assert(s1.push(s.last()) =~= s);
    }
}

/// Reading the hex text of bytes gives the bytes back.
pub proof fn lemma_hex_round_trip(h: Seq<u8>)
    ensures
        hex_decoding(hex_text(h), h.len()) == Some(h),
{
    let s = hex_text(h);
    let d = hex_digits(h);
    assert(without_0x(s) =~= d);
    lemma_hex_digits_shape(h);
    assert forall|i: int| 0 <= i < d.len() implies is_hex_digit(#[trigger] d[i]) && !is_hex_blank(d[i]) by {
        let k = i / 2;
        if i % 2 == 0 {
            assert(i == 2 * k);
            lemma_hex_char_facts(h[k] as int / 16);
        } else {
            assert(i == 2 * k + 1);
            lemma_hex_char_facts(h[k] as int % 16);
        }
    }
    lemma_filter_keeps_all(d, |c: char| !is_hex_blank(c));
    assert(hex_body(s) == d);
    let v = Seq::new(h.len(), |i: int| (16 * hex_digit_value(d[2 * i]) + hex_digit_value(d[2 * i + 1])) as u8);
    assert forall|i: int| 0 <= i < h.len() implies v[i] == h[i] by {
        lemma_hex_char_facts(h[i] as int / 16);
        lemma_hex_char_facts(h[i] as int % 16);
        assert(16 * (h[i] as int / 16) + h[i] as int % 16 == h[i] as int);
    }
    assert(v =~= h);
}

/// Relies on `FromStr` for `ethers_core::types::H160` (fixed-hash over
/// rustc-hex's `FromHexIter`): it strips one `0x`, skips spaces, tabs and line
/// breaks, and needs exactly forty hex digits of either case.
#[verifier::external_body]
fn parse_h160(s: &str) -> (r: Option<[u8; 20]>)
    ensures
        r is Some <==> hex_decoding(s@, 20) is Some,
        r matches Some(b) ==> b@ == hex_decoding(s@, 20)->0,
{
    s.parse::<ethers_core::types::H160>().ok().map(|h| h.0)
}

/// Relies on `FromStr` for `ethers_core::types::H256`, the same reading as for
/// `H160` with sixty-four digits.
#[verifier::external_body]
fn parse_h256(s: &str) -> (r: Option<[u8; 32]>)
    ensures
        r is Some <==> hex_decoding(s@, 32) is Some,
        r matches Some(b) ==> b@ == hex_decoding(s@, 32)->0,
{
    s.parse::<ethers_core::types::H256>().ok().map(|h| h.0)
}

/// Whether two byte strings are equal.
pub fn bytes_equal(a: &[u8], b: &[u8]) -> (r: bool)
    ensures
        r == (a@ == b@),
{
    if a.len() != b.len() {
        return false;
    }
    let mut i: usize = 0;
    while i < a.len()
        invariant
            0 <= i <= a@.len(),
            a@.len() == b@.len(),
            forall|j: int| 0 <= j < i ==> a@[j] == b@[j],
        decreases a.len() - i,
    {
        if a[i] != b[i] {
            return false;
        }
        i = i + 1;
    }
    proof { assert(a@ =~= b@); }
    true
}

/// A 20-byte account or contract address.
#[derive(Clone, Copy, Debug, PartialEq, Eq, Hash)]
pub struct Address {
    pub bytes: [u8; 20],
}

impl View for Address {
    type V = Seq<u8>;

    open spec fn view(&self) -> Seq<u8> {
        self.bytes@
    }
}

/// A 32-byte hash, or a 32-byte log topic.
#[derive(Clone, Copy, Debug, PartialEq, Eq, Hash)]
pub struct Hash32 {
    pub bytes: [u8; 32],
}

impl View for Hash32 {
    type V = Seq<u8>;

    open spec fn view(&self) -> Seq<u8> {
        self.bytes@
    }
}

impl Address {
    pub fn same(&self, other: &Address) -> (r: bool)
        ensures
            r == (self@ == other@),
    {
        bytes_equal(self.bytes.as_slice(), other.bytes.as_slice())
    }

    /// `0x` and forty lower-case hex digits.
    pub fn to_hex(&self) -> (r: String)
        ensures
            r@ == hex_text(self@),
    {
        to_hex_text(self.bytes.as_slice())
    }

    /// Reads an address written in hex; see `hex_decoding`.
    pub fn parse(s: &str) -> (r: Option<Address>)
        ensures
            r is Some <==> hex_decoding(s@, 20) is Some,
            r matches Some(a) ==> a@ == hex_decoding(s@, 20)->0,
    {
        match parse_h160(s) {
            Some(b) => Some(Address { bytes: b }),
            None => None,
        }
    }

    /// The address held in the last twenty bytes of a topic.
    pub fn from_topic(t: &Hash32) -> (r: Address)
        ensures
            r@ == t@.subrange(12, 32),
    {
        let mut b: [u8; 20] = [0u8; 20];
        let mut i: usize = 0;
        while i < 20
            invariant
                0 <= i <= 20,
                forall|j: int| 0 <= j < i ==> b@[j] == t@[j + 12],
            decreases 20 - i,
        {
            b[i] = t.bytes[i + 12];
            i = i + 1;
        }
        let r = Address { bytes: b };
        proof { assert(r@ =~= t@.subrange(12, 32)); }
        r
    }
}

impl Hash32 {
    pub fn same(&self, other: &Hash32) -> (r: bool)
        ensures
            r == (self@ == other@),
    {
        bytes_equal(self.bytes.as_slice(), other.bytes.as_slice())
    }

    /// `0x` and sixty-four lower-case hex digits.
    pub fn to_hex(&self) -> (r: String)
        ensures
            r@ == hex_text(self@),
    {
        to_hex_text(self.bytes.as_slice())
    }

    /// Reads a hash written in hex; see `hex_decoding`.
    pub fn parse(s: &str) -> (r: Option<Hash32>)
        ensures
            r is Some <==> hex_decoding(s@, 32) is Some,
            r matches Some(h) ==> h@ == hex_decoding(s@, 32)->0,
    {
        match parse_h256(s) {
            Some(b) => Some(Hash32 { bytes: b }),
            None => None,
        }
    }
}

} // verus!
