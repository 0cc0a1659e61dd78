//! Jitter for poll timing: a tiny xorshift generator, seeded from the
//! clock's nanoseconds mixed with a salt (the league, say) so that pollers
//! started together drift apart. The caller reads the clock and turns each
//! draw of 53 bits into a fraction in `0..1`.

use vstd::prelude::*;
use vstd::string::StringSliceAdditionalSpecFns;

verus! {

/// The 64-bit FNV-1a offset basis.
pub const FNV_OFFSET: u64 = 0xcbf2_9ce4_8422_2325;

/// The 64-bit FNV-1a prime.
pub const FNV_PRIME: u64 = 0x100_0000_01b3;

/// The 64-bit FNV-1a hash of `bytes`.
pub open spec fn fnv1a(bytes: Seq<u8>) -> u64
    decreases bytes.len(),
{
    if bytes.len() == 0 {
        FNV_OFFSET
    } else {
        vstd::wrapping::u64_specs::wrapping_mul(fnv1a(bytes.drop_last()) ^ (bytes.last() as u64), FNV_PRIME)
    }
}

/// One xorshift step, with shifts 13, 7 and 17.
pub open spec fn xorshift(x: u64) -> u64 {
    let a = x ^ (x << 13u64);
    let b = a ^ (a >> 7u64);
    b ^ (b << 17u64)
}

/// The state a generator starts from: the clock's nanoseconds mixed with
/// the salt's hash, made odd so that it is never zero.
pub open spec fn seed(salt: Seq<u8>, nanos: u32) -> u64 {
    (nanos as u64 ^ fnv1a(salt)) | 1
}

/// A xorshift generator; its view is its state.
#[derive(Debug)]
pub struct Rng(u64);

impl View for Rng {
    type V = u64;

    closed spec fn view(&self) -> u64 {
        self.0
    }
}

/// The 64-bit FNV-1a hash of `bytes`.
fn fnv1a_exec(bytes: &[u8]) -> (h: u64)
    ensures
        h == fnv1a(bytes@),
{
    let mut h: u64 = FNV_OFFSET;
    let mut i: usize = 0;
    while i < bytes.len()
        invariant
            i <= bytes@.len(),
            h == fnv1a(bytes@.take(i as int)),
        decreases bytes@.len() - i,
    {
        assert(bytes@.take(i + 1).drop_last() =~= bytes@.take(i as int));
        h = (h ^ (bytes[i] as u64)).wrapping_mul(FNV_PRIME);
        i = i + 1;
    }
    assert(bytes@.take(bytes@.len() as int) =~= bytes@);
    h
}

/// An odd state is never zero, and a step never takes a non-zero state
/// to zero: the generator never gets stuck.
pub proof fn lemma_xorshift_nonzero(x: u64)
    requires
        x != 0,
    ensures
        xorshift(x) != 0,
{
    let a = x ^ (x << 13u64);
    let b = a ^ (a >> 7u64);
    assert(a != 0) by (bit_vector)
        requires
            x != 0,
            a == x ^ (x << 13u64),
    ;
    assert(b != 0) by (bit_vector)
        requires
            a != 0,
            b == a ^ (a >> 7u64),
    ;
    assert(b ^ (b << 17u64) != 0) by (bit_vector)
        requires
            b != 0,
    ;
}

impl Rng {
    /// A generator seeded from `salt` and the clock's nanoseconds within
    /// the current second.
    pub fn seeded(salt: &str, nanos: u32) -> (r: Rng)
        ensures
            r@ == seed(salt.spec_bytes(), nanos),
            r@ != 0,
    {
        let salt_hash = fnv1a_exec(salt.as_bytes());
        let state = ((nanos as u64) ^ salt_hash) | 1;
        assert(state != 0) by (bit_vector)
            requires
                state == ((nanos as u64) ^ salt_hash) | 1,
        ;
        Rng(state)
    }

    /// Steps the generator and gives the top 53 bits of the new state:
    /// divided by 2^53 that is a fraction in `0..1`.
    pub fn unit_bits(&mut self) -> (bits: u64)
        ensures
            final(self)@ == xorshift(old(self)@),
            bits == xorshift(old(self)@) >> 11u64,
            bits < 0x20_0000_0000_0000,
            old(self)@ != 0 ==> final(self)@ != 0,
    {
        let x = self.0;
        let a = x ^ (x << 13u64);
        let b = a ^ (a >> 7u64);
        let c = b ^ (b << 17u64);
        self.0 = c;
        proof {
            if x != 0 {
                lemma_xorshift_nonzero(x);
            }
        }
        assert(c >> 11u64 < 0x20_0000_0000_0000) by (bit_vector);
        c >> 11u64
    }
}

} // verus!
