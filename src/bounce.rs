use vstd::prelude::*;

verus! {

/// The tail's length for a ball at pixel `pixel` whose speed, halved and
/// truncated, is `half_speed`: one more than that, cut so that the tail
/// never reaches past pixel 0.
pub open spec fn tail_len_spec(half_speed: usize, pixel: usize) -> nat {
    let t: nat = if half_speed == usize::MAX { usize::MAX as nat } else { (half_speed + 1) as nat };
    if t > pixel { pixel as nat } else { t }
}

/// The length of a ball's fading tail, as [`tail_len_spec`] states.
pub fn tail_len(half_speed: usize, pixel: usize) -> (t: usize)
    ensures
        t == tail_len_spec(half_speed, pixel),
        t <= pixel,
{
    let t = if half_speed == usize::MAX { usize::MAX } else { half_speed + 1 };
    if t > pixel { pixel } else { t }
}

/// The pixel `i` steps behind a ball at `pixel`: below it while the ball
/// rises, above it while it falls.
pub open spec fn tail_pixel(pixel: nat, i: nat, rising: bool) -> int {
    if rising { pixel - i } else { (pixel + i) as int }
}

/// The pixel `i` steps along the tail of a ball at `pixel`, when it lies
/// on the first `len` pixels of the strip.
pub fn trail_pixel(pixel: usize, i: usize, rising: bool, len: usize) -> (r: Option<usize>)
    ensures
        r == (if 0 <= tail_pixel(pixel as nat, i as nat, rising) < len {
            Some(tail_pixel(pixel as nat, i as nat, rising) as usize)
        } else {
            None
        }),
{
    if rising {
        if i <= pixel && pixel - i < len {
            Some(pixel - i)
        } else {
            None
        }
    } else if pixel < len && i < len - pixel {
        Some(pixel + i)
    } else {
        None
    }
}

} // verus!
