//! A 256-bit unsigned integer held as four little-endian 64-bit words, with
//! its numeric value as the view.

use vstd::prelude::*;

verus! {

/// 2^64, the weight of one word.
pub open spec fn word_base() -> int {
    0x1_0000_0000_0000_0000
}

/// The value of bytes read most significant first.
pub open spec fn be_value(b: Seq<u8>) -> nat
    decreases b.len(),
{
    if b.len() == 0 {
        0
    } else {
        (be_value(b.drop_last()) * 256 + b.last()) as nat
    }
}

pub open spec fn pow256(n: nat) -> nat
    decreases n,
{
    if n == 0 {
        1
    } else {
        (256 * pow256((n - 1) as nat)) as nat
    }
}

/// Unsigned 256-bit integer; `words[0]` is the least significant word.
#[derive(Clone, Copy, Debug, PartialEq, Eq)]
pub struct Uint256 {
    pub words: [u64; 4],
}

impl View for Uint256 {
    type V = nat;

    open spec fn view(&self) -> nat {
        (self.words[0] + self.words[1] * word_base() + self.words[2] * word_base() * word_base()
            + self.words[3] * word_base() * word_base() * word_base()) as nat
    }
}

proof fn lemma_be_concat(a: Seq<u8>, b: Seq<u8>)
    ensures
        be_value(a + b) == be_value(a) * pow256(b.len()) + be_value(b),
    decreases b.len(),
{
    if b.len() == 0 {
        assert(a + b =~= a);
        assert(pow256(b.len()) == 1);
        assert(be_value(b) == 0);
        assert(be_value(a) * 1 == be_value(a));
    } else {
        let b1 = b.drop_last();
        assert((a + b).drop_last() =~= a + b1);
        assert((a + b).last() == b.last());
        lemma_be_concat(a, b1);
        assert(pow256(b.len()) == 256 * pow256(b1.len()));
        assert(be_value(a + b) == be_value(a + b1) * 256 + b.last());
        assert(be_value(b) == be_value(b1) * 256 + b.last());
        let x = be_value(a);
        let p = pow256(b1.len());
        let y = be_value(b1);
        assert((x * p + y) * 256 + b.last() == x * (256 * p) + (y * 256 + b.last()))
            by (nonlinear_arith);
        assert(be_value(a + b) == x * pow256(b.len()) + y * 256 + b.last());
    }
}

proof fn lemma_be_bound(b: Seq<u8>)
    ensures
        be_value(b) < pow256(b.len()),
    decreases b.len(),
{
    if b.len() > 0 {
        lemma_be_bound(b.drop_last());
        let x = be_value(b.drop_last());
        let p = pow256(b.drop_last().len());
        assert(x < p ==> x * 256 + b.last() < 256 * p) by (nonlinear_arith)
            requires b.last() < 256;
    }
}

proof fn lemma_pow256_8()
    ensures
        pow256(8) == word_base(),
{
    reveal_with_fuel(pow256, 9);
}

/// The word formed by the eight bytes at `start`, most significant first.
fn read_word(b: &[u8], start: usize) -> (r: u64)
    requires
        start + 8 <= b@.len(),
    ensures
        r == be_value(b@.subrange(start as int, start + 8)),
{
    let mut acc: u64 = 0;
    let mut j: usize = start;
    let n: usize = b.len();
    let end: usize = start + 8;
    while j < end
        invariant
            end == start + 8,
            start <= j <= start + 8,
            start + 8 <= b@.len(),
            acc == be_value(b@.subrange(start as int, j as int)),
        decreases end - j,
    {
        proof {
            lemma_be_bound(b@.subrange(start as int, j as int));
            reveal_with_fuel(pow256, 8);
            assert(acc < 0x100_0000_0000_0000);
        }
        let byte = b[j];
        proof {
            let s = b@.subrange(start as int, j + 1);
            assert(s.drop_last() =~= b@.subrange(start as int, j as int));
        }
        acc = acc * 256 + byte as u64;
        j = j + 1;
    }
    acc
}

impl Uint256 {
    pub fn zero() -> (r: Uint256)
        ensures
            r@ == 0,
    {
        Uint256 { words: [0, 0, 0, 0] }
    }

    /// The integer that a word of 64 bits holds.
    pub fn from_u64(v: u64) -> (r: Uint256)
        ensures
            r@ == v,
    {
        Uint256 { words: [v, 0, 0, 0] }
    }

    /// Reads 32 bytes as one big-endian integer.
    pub fn from_big_endian(b: &[u8]) -> (r: Uint256)
        requires
            b@.len() == 32,
        ensures
            r@ == be_value(b@),
    {
        let w3 = read_word(b, 0);
        let w2 = read_word(b, 8);
        let w1 = read_word(b, 16);
        let w0 = read_word(b, 24);
        let r = Uint256 { words: [w0, w1, w2, w3] };
        proof {
            let s0 = b@.subrange(0, 8);
            let s1 = b@.subrange(8, 16);
            let s2 = b@.subrange(16, 24);
            let s3 = b@.subrange(24, 32);
            lemma_pow256_8();
            lemma_be_concat(s0, s1);
            lemma_be_concat(s0 + s1, s2);
            lemma_be_concat(s0 + s1 + s2, s3);
            assert(s0 + s1 + s2 + s3 =~= b@);
            assert((s0 + s1).len() == 16);
            let p = word_base();
            let (a0, a1, a2, a3) = (w3 as int, w2 as int, w1 as int, w0 as int);
            assert(((a0 * p + a1) * p + a2) * p + a3 == a3 + a2 * p + a1 * p * p + a0 * p * p * p)
                by (nonlinear_arith);
        }
        r
    }

    pub fn is_zero(&self) -> (r: bool)
        ensures
            r == (self@ == 0),
    {
        proof {
            let p = word_base();
            let (a, b, c, d) = (
                self.words[0] as int,
                self.words[1] as int,
                self.words[2] as int,
                self.words[3] as int,
            );
            assert(a >= 0 && b >= 0 && c >= 0 && d >= 0 && p > 0 ==> (a + b * p + c * p * p + d
                * p * p * p == 0 <==> a == 0 && b == 0 && c == 0 && d == 0)) by (nonlinear_arith);
        }
        self.words[0] == 0 && self.words[1] == 0 && self.words[2] == 0 && self.words[3] == 0
    }

    /// The value as an `i64`, when it is at most `i64::MAX`.
    pub fn to_i64(&self) -> (r: Option<i64>)
        ensures
            r matches Some(v) ==> v == self@,
            r is Some <==> self@ <= i64::MAX,
    {
        proof {
            let p = word_base();
            let (a, b, c, d) = (
                self.words[0] as int,
                self.words[1] as int,
                self.words[2] as int,
                self.words[3] as int,
            );
            assert(a >= 0 && b >= 0 && c >= 0 && d >= 0 && p > 0 && (b != 0 || c != 0 || d != 0)
                ==> a + b * p + c * p * p + d * p * p * p >= p) by (nonlinear_arith);
        }
        if self.words[1] != 0 || self.words[2] != 0 || self.words[3] != 0 {
            None
        } else if self.words[0] > 0x7fff_ffff_ffff_ffff {
            None
        } else {
            Some(self.words[0] as i64)
        }
    }
}

} // verus!
