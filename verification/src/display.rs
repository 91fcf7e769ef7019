//! What a display loop needs beside the frame itself: the samples as
//! screen words, and the depth that a zoom calls for.

use vstd::prelude::*;
use vstd::arithmetic::power2::lemma_pow2_unfold;
use vstd::arithmetic::power2::pow2;
use crate::viewport::Zoom;

verus! {

/// One pixel as a screen word: red in bits 16 to 23, green in bits 8 to 15,
/// blue in bits 0 to 7, the top byte zero.
pub open spec fn screen_word(r: u8, g: u8, b: u8) -> u32 {
    (r * 65536 + g * 256 + b) as u32
}

/// Packs one pixel into a screen word.
pub fn pack_pixel(r: u8, g: u8, b: u8) -> (word: u32)
    ensures
        word == screen_word(r, g, b),
{
    let red: u32 = r as u32;
    let green: u32 = g as u32;
    let blue: u32 = b as u32;
    assert((red << 16) | (green << 8) | blue == red * 65536 + green * 256 + blue) by (bit_vector)
        requires
            red < 256,
            green < 256,
            blue < 256,
    ;
    (red << 16) | (green << 8) | blue
}

/// Packs the samples of a frame into screen words, one for each whole
/// pixel, in the same order. Samples that do not make up a whole pixel at
/// the end are left out.
pub fn pack_pixels(samples: &Vec<u8>) -> (words: Vec<u32>)
    ensures
        words@.len() == samples@.len() / 3,
        forall|i: int|
            0 <= i < words@.len() ==> #[trigger] words@[i] == screen_word(
                samples@[3 * i],
                samples@[3 * i + 1],
                samples@[3 * i + 2],
            ),
{
    let len: usize = samples.len();
    let count: usize = len / 3;
    let mut words: Vec<u32> = Vec::new();
    let mut i: usize = 0;
    while i < count
        invariant
            i <= count,
            count == samples@.len() / 3,
            len == samples@.len(),
            3 * count <= len,
            words@.len() == i,
            forall|j: int|
                0 <= j < i ==> #[trigger] words@[j] == screen_word(
                    samples@[3 * j],
                    samples@[3 * j + 1],
                    samples@[3 * j + 2],
                ),
        decreases count - i,
    {
        let at: usize = 3 * i;
        words.push(pack_pixel(samples[at], samples[at + 1], samples[at + 2]));
        i = i + 1;
    }
    words
}

/// How often `low` can be doubled without passing `high`: for
/// `1 <= low <= high` the whole part of the binary logarithm of
/// `high / low`, and zero otherwise.
pub open spec fn doublings(high: nat, low: nat) -> nat
    decreases high - low,
{
    if low == 0 || 2 * low > high {
        0
    } else {
        1 + doublings(high, 2 * low)
    }
}

/// `doublings(high, low)` is the one `k` with
/// `low * 2^k <= high < low * 2^(k + 1)`.
pub proof fn lemma_doublings_brackets(high: nat, low: nat)
    requires
        1 <= low <= high,
    ensures
        low * pow2(doublings(high, low)) <= high < low * pow2(doublings(high, low) + 1),
    decreases high - low,
{
    let k = doublings(high, low);
    lemma_pow2_unfold(k + 1);
    if 2 * low > high {
        vstd::arithmetic::power2::lemma2_to64();
        assert(low * 1 == low) by (nonlinear_arith);
        assert(low * 2 == 2 * low) by (nonlinear_arith);
    } else {
        let j = doublings(high, 2 * low);
        lemma_doublings_brackets(high, 2 * low);
        lemma_pow2_unfold(j + 1);
        lemma_pow2_unfold(j + 2);
        assert((2 * low) * pow2(j) == low * (2 * pow2(j))) by (nonlinear_arith);
        assert((2 * low) * pow2(j + 1) == low * (2 * pow2(j + 1))) by (nonlinear_arith);
    }
}

/// The depth that a zoom calls for.
pub open spec fn spec_detail_budget(zoom: Zoom, base: u32, cap: u32) -> int {
    let wanted = base + doublings(zoom.num as nat, zoom.den as nat);
    if wanted < cap {
        wanted
    } else {
        cap as int
    }
}

/// The iteration budget for a zoom: `base`, and one level more for each
/// doubling of the zoom above one, `cap` at most.
pub fn detail_budget(zoom: Zoom, base: u32, cap: u32) -> (budget: u32)
    ensures
        budget == spec_detail_budget(zoom, base, cap),
{
    let high: u64 = zoom.num as u64;
    let mut low: u64 = zoom.den as u64;
    let mut extra: u64 = 0;
    if low != 0 {
        while 2 * low <= high
            invariant
                1 <= low <= 0xffff_ffff,
                high == zoom.num,
                extra < low,
                extra + doublings(high as nat, low as nat) == doublings(
                    zoom.num as nat,
                    zoom.den as nat,
                ),
            decreases high - low,
        {
            low = 2 * low;
            extra = extra + 1;
        }
    }
    let wanted: u64 = base as u64 + extra;
    if wanted < cap as u64 {
        wanted as u32
    } else {
        cap
    }
}

} // verus!
