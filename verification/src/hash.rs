//! The non-cryptographic hash that routes keys to shards.

use vstd::prelude::*;

verus! {

/// Odd 64-bit multiplier used by every mixing round.
pub const GOLDEN: u64 = 0x9E37_79B1_85EB_CA87;

/// `x` rotated left by five bits.
pub open spec fn rotate5(x: u64) -> u64 {
    (x << 5) | (x >> 59)
}

/// `rotate5` is a rotation: the low 59 bits move up by five places and the
/// high five bits come round to the bottom.
pub proof fn lemma_rotate5_rotates(x: u64)
    ensures
        rotate5(x) >> 5 == x & 0x07FF_FFFF_FFFF_FFFF,
        rotate5(x) & 0x1F == x >> 59,
{
    assert(((x << 5) | (x >> 59)) >> 5 == x & 0x07FF_FFFF_FFFF_FFFF) by (bit_vector);
    assert(((x << 5) | (x >> 59)) & 0x1F == x >> 59) by (bit_vector);
}

/// One mixing round: fold the byte in, rotate, multiply modulo 2^64.
pub open spec fn mix(h: u64, b: u8) -> u64 {
    rotate5(h ^ (b as u64)).wrapping_mul(GOLDEN)
}

/// The state reached from `h` after absorbing `bytes` front to back.
pub open spec fn absorb(h: u64, bytes: Seq<u8>) -> u64
    decreases bytes.len(),
{
    if bytes.len() == 0 {
        h
    } else {
        mix(absorb(h, bytes.drop_last()), bytes.last())
    }
}

/// The hash of a whole byte string, starting from the zero state.
pub open spec fn fast_hash(bytes: Seq<u8>) -> u64 {
    absorb(0, bytes)
}

/// Absorbing a concatenation is absorbing the parts in turn.
pub proof fn lemma_absorb_concat(h: u64, a: Seq<u8>, b: Seq<u8>)
    ensures
        absorb(h, a + b) == absorb(absorb(h, a), b),
    decreases b.len(),
{
    if b.len() == 0 {
        assert(a + b =~= a);
    } else {
        assert((a + b).drop_last() =~= a + b.drop_last());
        assert((a + b).last() == b.last());
        lemma_absorb_concat(h, a, b.drop_last());
    }
}

/// A streaming hasher: a 64-bit state that absorbs bytes.
pub struct FastHasher {
    pub state: u64,
}

impl FastHasher {
    /// A hasher in the zero state.
    pub fn new() -> (h: FastHasher)
        ensures
            h.state == 0,
    {
        FastHasher { state: 0 }
    }

    /// Absorbs `bytes`, in order, into the state.
    pub fn write(&mut self, bytes: &[u8])
        ensures
            final(self).state == absorb(old(self).state, bytes@),
    {
        let mut h: u64 = self.state;
        let mut i: usize = 0;
        while i < bytes.len()
            invariant
                i <= bytes.len(),
                h == absorb(old(self).state, bytes@.take(i as int)),
            decreases bytes.len() - i,
        {
            let b: u8 = bytes[i];
            proof {
                let next = bytes@.take(i + 1);
                assert(next.drop_last() =~= bytes@.take(i as int));
                assert(next.last() == b);
            }
            h = h ^ (b as u64);
            h = ((h << 5) | (h >> 59)).wrapping_mul(GOLDEN);
            i = i + 1;
        }
        proof {
            assert(bytes@.take(bytes.len() as int) =~= bytes@);
        }
        self.state = h;
    }

    /// The hash of everything absorbed so far.
    pub fn finish(&self) -> (h: u64)
        ensures
            h == self.state,
    {
        self.state
    }
}

} // verus!
