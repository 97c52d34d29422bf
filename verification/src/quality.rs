//! Quality normalisation for the lossy encoders.

use vstd::prelude::*;

verus! {

/// Lowest quality an encoder is ever handed.
pub const MIN_QUALITY: u8 = 1;

/// Highest quality an encoder is ever handed; also the default.
pub const MAX_QUALITY: u8 = 100;

/// The quality in `[1, 100]` nearest to `q`: values below 1 become 1, values
/// above 100 become 100.
pub open spec fn clamp_quality(q: int) -> int {
    vstd::math::max(1, vstd::math::min(100, q))
}

/// The quality used for encoding: 100 when none is given, else the given
/// value clamped into `[1, 100]`.
pub open spec fn normalized_quality(quality: Option<u8>) -> int {
    match quality {
        Some(q) => clamp_quality(q as int),
        None => 100,
    }
}

/// Normalises an optional quality into the range every encoder accepts.
pub fn normalize_quality(quality: Option<u8>) -> (result: u8)
    ensures
        result as int == normalized_quality(quality),
        quality is None ==> result == 100,
        quality matches Some(q) ==> result as int == vstd::math::max(
            1,
            vstd::math::min(100, q as int),
        ),
        MIN_QUALITY <= result <= MAX_QUALITY,
{
    match quality {
        None => MAX_QUALITY,
        Some(q) => {
            if q < MIN_QUALITY {
                MIN_QUALITY
            } else if q > MAX_QUALITY {
                MAX_QUALITY
            } else {
                q
            }
        },
    }
}

/// Clamping puts every integer into `[1, 100]`: a value in the range is
/// kept, a smaller one becomes 1, a larger one becomes 100.
pub proof fn lemma_clamp_quality(q: int)
    ensures
        1 <= clamp_quality(q) <= 100,
        1 <= q <= 100 ==> clamp_quality(q) == q,
        q < 1 ==> clamp_quality(q) == 1,
        q > 100 ==> clamp_quality(q) == 100,
        clamp_quality(clamp_quality(q)) == clamp_quality(q),
{
}

} // verus!
