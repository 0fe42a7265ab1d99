//! The one source of randomness, and the arithmetic that turns a random
//! word into a value below a bound.

use vstd::prelude::*;

verus! {

/// Calls `rand::random::<u32>()`, which draws one word from the calling
/// thread's generator. Nothing is claimed of the word: every `u32` may
/// come back, and two calls may differ. The generator seeds itself from
/// the operating system at a thread's first draw, and the call fails only
/// if that source of entropy does.
#[verifier::external_body]
pub(crate) fn random_word() -> u32 {
    rand::random::<u32>()
}

/// The product of `extent` and the fraction `word / 2^32`, rounded down.
/// As `word` runs over all words the result runs evenly over `0..extent`.
pub open spec fn fraction_of(word: u32, extent: int) -> int {
    word * extent / 0x1_0000_0000
}

/// A fraction of a positive extent lies below the extent.
pub proof fn lemma_fraction_below_extent(word: u32, extent: int)
    requires
        0 < extent,
    ensures
        0 <= fraction_of(word, extent) < extent,
{
    assert(0 <= word * extent <= 0xffff_ffff * extent) by (nonlinear_arith)
        requires
            0 <= word <= 0xffff_ffff,
            0 < extent,
    ;
}

/// `extent` times the fraction `word / 2^32`, rounded down.
pub fn scale_fraction(word: u32, extent: u32) -> (part: u32)
    ensures
        part == fraction_of(word, extent as int),
        extent > 0 ==> part < extent,
        extent == 0 ==> part == 0,
{
    proof {
        if extent > 0 {
            lemma_fraction_below_extent(word, extent as int);
        }
        assert(0 <= word * extent <= 0xffff_ffff * 0xffff_ffff) by (nonlinear_arith)
            requires
                0 <= word <= 0xffff_ffff,
                0 <= extent <= 0xffff_ffff,
        ;
    }
    let product: u64 = (word as u64) * (extent as u64);
    (product / 0x1_0000_0000) as u32
}

} // verus!
