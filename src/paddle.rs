use vstd::prelude::*;
use crate::geometry::{clamp, clamp_spec, MAX_COORD};

verus! {

/// Pointer-follow mapping: the paddle's new x for pointer x `pointer` (if a
/// pointer is present), in a field of half width `field_half`, for a paddle of
/// half width `paddle_half`. The paddle moves to the pointer only when the
/// pointer lies strictly inside `(-field_half + paddle_half, field_half -
/// paddle_half)`; otherwise it stays.
pub open spec fn follow_pointer_spec(x: int, pointer: Option<i64>, field_half: int, paddle_half: int) -> int {
    match pointer {
        Some(p) => if -field_half + paddle_half < p < field_half - paddle_half {
            p as int
        } else {
            x
        },
        None => x,
    }
}

/// Pointer-follow mapping of the paddle: out-of-range pointer input, or no
/// pointer at all, leaves the paddle where it is (no clamping).
pub fn follow_pointer(x: i64, pointer: Option<i64>, field_half: i64, paddle_half: i64) -> (r: i64)
    requires
        0 <= field_half <= MAX_COORD,
        0 <= paddle_half <= MAX_COORD,
    ensures
        r == follow_pointer_spec(x as int, pointer, field_half as int, paddle_half as int),
{
    match pointer {
        Some(p) => {
            if -field_half + paddle_half < p && p < field_half - paddle_half {
                p
            } else {
                x
            }
        },
        None => x,
    }
}

/// The displacement for one tick from the two opposing keys: `step` to the
/// right, `step` to the left, or nothing when both or neither are held.
pub open spec fn key_step_spec(left: bool, right: bool, step: int) -> int {
    if right && !left {
        step
    } else if left && !right {
        -step
    } else {
        0
    }
}

/// Directional-key mapping: `x + direction * (speed / hz)` (rounded down), always clamped into `[-field_half + paddle_half, field_half -
/// paddle_half]`.
pub open spec fn move_by_keys_spec(
    x: int,
    left: bool,
    right: bool,
    speed: int,
    hz: int,
    field_half: int,
    paddle_half: int,
) -> int {
    clamp_spec(
        x + key_step_spec(left, right, speed / hz),
        -field_half + paddle_half,
        field_half - paddle_half,
    )
}

/// Directional-key mapping of the paddle for one tick of a `hz`-per-second
/// clock; the result is always clamped into the field.
pub fn move_by_keys(
    x: i64,
    left: bool,
    right: bool,
    speed: i64,
    hz: u64,
    field_half: i64,
    paddle_half: i64,
) -> (r: i64)
    requires
        -MAX_COORD <= x <= MAX_COORD,
        0 <= speed <= MAX_COORD,
        hz > 0,
        0 <= paddle_half <= field_half <= MAX_COORD,
    ensures
        r == move_by_keys_spec(
            x as int,
            left,
            right,
            speed as int,
            hz as int,
            field_half as int,
            paddle_half as int,
        ),
        -field_half + paddle_half <= r <= field_half - paddle_half,
{
    let step: i64 = ((speed as u64) / hz) as i64;
    assert(step <= speed) by (nonlinear_arith)
        requires
            step == (speed as int) / (hz as int),
            hz > 0,
            speed >= 0,
    ;
    let moved: i64 = if right && !left {
        x + step
    } else if left && !right {
        x - step
    } else {
        x
    };
    clamp(moved, -field_half + paddle_half, field_half - paddle_half)
}

} // verus!
