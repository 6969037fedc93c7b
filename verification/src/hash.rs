//! The content-hashing primitive used for identity and linkage.
//!
//! Records are content-addressed: an `Entry` is identified by a hash of
//! its payload, and a `Header` by a hash of its fields. Both are built
//! from one deterministic 64-bit mixing step, so equal content always
//! yields equal hashes, in every process and on every machine.

use vstd::prelude::*;
use vstd::string::StrSliceExecFns;

verus! {

/// Starting value of every hash computation.
pub const HASH_SEED: u64 = 0xcbf2_9ce4_8422_2325;

/// One mixing step: multiply the running hash by 31, add the next
/// value, and keep the low 64 bits.
pub open spec fn spec_mix(h: u64, v: u64) -> u64 {
    (((h as int) * 31 + (v as int)) % 0x1_0000_0000_0000_0000) as u64
}

pub fn mix(h: u64, v: u64) -> (r: u64)
    ensures
        r == spec_mix(h, v),
{
    let wide: u128 = (h as u128) * 31 + (v as u128);
    (wide % 0x1_0000_0000_0000_0000u128) as u64
}

/// Content hash of a character sequence: the seed mixed with each
/// character in order.
pub open spec fn spec_hash_chars(s: Seq<char>) -> u64
    decreases s.len(),
{
    if s.len() == 0 {
        HASH_SEED
    } else {
        spec_mix(spec_hash_chars(s.drop_last()), s.last() as u64)
    }
}

pub fn hash_chars(s: &str) -> (r: u64)
    ensures
        r == spec_hash_chars(s@),
{
    let n = s.unicode_len();
    let mut h: u64 = HASH_SEED;
    let mut i: usize = 0;
    while i < n
        invariant
            i <= n,
            n == s@.len(),
            h == spec_hash_chars(s@.take(i as int)),
        decreases n - i,
    {
        let c = s.get_char(i);
        proof {
            assert(s@.take(i as int + 1).drop_last() =~= s@.take(i as int));
            assert(s@.take(i as int + 1).last() == s@[i as int]);
        }
        h = mix(h, c as u64);
        i = i + 1;
    }
    proof {
        assert(s@.take(n as int) =~= s@);
    }
    h
}

} // verus!
