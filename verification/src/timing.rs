//! Conversion from beat time to real time: an alternating shuffle offset
//! applied to every other shuffle-period window, then a rescale by the
//! tempo.  Times are 64-bit integers in the level's time unit, and all
//! divisions truncate toward zero, as the game engine's do.

use vstd::prelude::*;

verus! {

/// Division truncating toward zero, for a positive divisor.  (In
/// specifications `/` rounds toward negative infinity; the engine's
/// division truncates.)
pub open spec fn trunc_div(a: int, b: int) -> int
    recommends
        b > 0,
{
    if a >= 0 {
        a / b
    } else {
        -((-a) / b)
    }
}

/// Whether the shuffle offset applies: the shuffle period is positive and
/// the zero-based window index `num / shuffle_period` (truncated toward
/// zero) is odd, so that every other window is offset.
pub open spec fn shuffle_applies(num: int, shuffle_period: int) -> bool {
    shuffle_period > 0 && trunc_div(num, shuffle_period) % 2 == 1
}

/// The beat time after the shuffle step: offset by
/// `shuffle * shuffle_period` in every other period window.
pub open spec fn spec_shuffled(num: int, shuffle: int, shuffle_period: int) -> int {
    if shuffle_applies(num, shuffle_period) {
        num + shuffle * shuffle_period
    } else {
        num
    }
}

/// The real time for beat time `num`: the shuffle step, then — when the
/// tempo is positive — a rescale by `60 / bpm`.  A non-positive tempo
/// disables the rescale.
pub open spec fn spec_bpm_time_to_real(num: int, bpm: int, shuffle: int, shuffle_period: int) -> int {
    let shuffled = spec_shuffled(num, shuffle, shuffle_period);
    if bpm > 0 {
        trunc_div(shuffled * 60, bpm)
    } else {
        shuffled
    }
}

/// Division of `a` by the positive `b`, truncating toward zero.
fn trunc_div_i64(a: i64, b: i64) -> (q: i64)
    requires
        b > 0,
    ensures
        q == trunc_div(a as int, b as int),
{
    if a >= 0 {
        ((a as u64) / (b as u64)) as i64
    } else {
        let m: u64 = if a == i64::MIN {
            0x8000_0000_0000_0000u64
        } else {
            (-a) as u64
        };
        let qm = m / (b as u64);
        if qm >= 0x8000_0000_0000_0000u64 {
            proof {
                assert(qm <= m);
            }
            i64::MIN
        } else {
            -(qm as i64)
        }
    }
}

/// Whether `a` is odd (its magnitude is, equivalently under the
/// specification's Euclidean remainder, `a % 2 == 1`).
fn is_odd_i64(a: i64) -> (r: bool)
    ensures
        r == ((a as int) % 2 == 1),
{
    if a >= 0 {
        (a as u64) % 2 == 1
    } else if a == i64::MIN {
        false
    } else {
        ((-a) as u64) % 2 == 1
    }
}

/// Converts beat time `num` to real time: adds `shuffle * shuffle_period`
/// in every other shuffle-period window (window index truncated toward
/// zero), then, when `bpm` is positive, rescales by `60 / bpm`; a
/// non-positive `bpm` leaves the shuffled value as it is.  The bounds in
/// the contract only keep the 64-bit arithmetic from overflowing.
pub fn bpm_time_to_real(num: i64, bpm: i64, shuffle: i64, shuffle_period: i64) -> (r: i64)
    requires
        shuffle_applies(num as int, shuffle_period as int) ==> i64::MIN <= shuffle * shuffle_period
            <= i64::MAX && i64::MIN <= num + shuffle * shuffle_period <= i64::MAX,
        bpm > 0 ==> i64::MIN <= spec_shuffled(num as int, shuffle as int, shuffle_period as int)
            * 60 <= i64::MAX,
    ensures
        r == spec_bpm_time_to_real(num as int, bpm as int, shuffle as int, shuffle_period as int),
{
    let shuffled: i64 = if shuffle_period > 0 {
        let window = trunc_div_i64(num, shuffle_period);
        if is_odd_i64(window) {
            num + shuffle * shuffle_period
        } else {
            num
        }
    } else {
        num
    };
    proof {
        assert(shuffled as int == spec_shuffled(num as int, shuffle as int, shuffle_period as int));
    }
    if bpm > 0 {
        trunc_div_i64(shuffled * 60, bpm)
    } else {
        shuffled
    }
}

/// Law: with the tempo rescale disabled (`bpm <= 0`) and the shuffle step
/// inert (no positive period, or a zero shuffle amount), the conversion
/// returns the beat time unchanged.
pub proof fn lemma_bpm_disabled_identity(num: int, bpm: int, shuffle: int, shuffle_period: int)
    requires
        bpm <= 0,
        shuffle_period <= 0 || shuffle == 0,
    ensures
        spec_bpm_time_to_real(num, bpm, shuffle, shuffle_period) == num,
{
}

} // verus!
