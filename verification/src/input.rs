//! Simulation input intents: keyboard movement events and the
//! accumulated mouse rotation.
//!
//! Mouse motion is modelled in whole motion counts, and the camera's
//! accumulated rotation in thousandths of a radian: the sensitivity
//! is one thousandth of a radian per count, so accumulating a frame's
//! motion is exact integer arithmetic. Turning the accumulated angles
//! into a camera quaternion is trigonometry on floats and happens
//! outside this crate.

use vstd::prelude::*;

verus! {

/// Largest motion a single event may carry, in counts.
pub const MAX_MOUSE_DELTA: i64 = 1000000;

/// Most rotation events one frame may hand over.
pub const MAX_MOUSE_EVENTS: usize = 1000000;

/// Largest accumulated rotation magnitude, in milliradians.
pub const MAX_MOUSE_ROTATION: i64 = 0x4000_0000_0000_0000;

/// A movement intent from the keyboard.
#[derive(Clone, Copy, PartialEq, Eq, Structural, Debug)]
pub enum Movement {
    Forward,
    Back,
    Left,
    Right,
}

/// Event carrying one movement intent.
#[derive(Clone, Copy, PartialEq, Eq, Structural, Debug)]
pub struct PlayerMovementEvent(pub Movement);

/// A two-component fixed-point vector.
#[derive(Clone, Copy, PartialEq, Eq, Structural, Debug)]
pub struct Vec2Fixed {
    pub x: i64,
    pub y: i64,
}

/// Event carrying one frame's mouse motion, in counts.
#[derive(Clone, Copy, PartialEq, Eq, Structural, Debug)]
pub struct PlayerRotateEvent(pub Vec2Fixed);

/// The camera's accumulated rotation, in milliradians: yaw around
/// the vertical axis, then pitch.
#[derive(Clone, Copy, PartialEq, Eq, Structural, Debug)]
pub struct MouseRotation(pub Vec2Fixed);

/// Sum of the horizontal motion of a batch of rotation events.
pub open spec fn spec_sum_x(events: Seq<PlayerRotateEvent>) -> int
    decreases events.len(),
{
    if events.len() == 0 {
        0
    } else {
        spec_sum_x(events.drop_last()) + events.last().0.x
    }
}

/// Sum of the vertical motion of a batch of rotation events.
pub open spec fn spec_sum_y(events: Seq<PlayerRotateEvent>) -> int
    decreases events.len(),
{
    if events.len() == 0 {
        0
    } else {
        spec_sum_y(events.drop_last()) + events.last().0.y
    }
}

/// Fold one frame's rotation events into the accumulated rotation.
/// When the frame saw no net motion nothing changes and no new
/// orientation is reported; otherwise the net motion is subtracted
/// from the accumulated angles — one count is one milliradian — and
/// the new orientation is handed back for the camera to apply.
pub fn mouse_move_cmd(
    player_rotate: &Vec<PlayerRotateEvent>,
    mouse_rotation: &mut MouseRotation,
) -> (r: Option<Vec2Fixed>)
    requires
        player_rotate@.len() <= MAX_MOUSE_EVENTS,
        forall|i: int|
            0 <= i < player_rotate@.len() ==> -MAX_MOUSE_DELTA <= #[trigger] player_rotate@[i].0.x
                <= MAX_MOUSE_DELTA && -MAX_MOUSE_DELTA <= player_rotate@[i].0.y
                <= MAX_MOUSE_DELTA,
        -MAX_MOUSE_ROTATION <= old(mouse_rotation).0.x <= MAX_MOUSE_ROTATION,
        -MAX_MOUSE_ROTATION <= old(mouse_rotation).0.y <= MAX_MOUSE_ROTATION,
    ensures
        spec_sum_x(player_rotate@) == 0 && spec_sum_y(player_rotate@) == 0 ==> *final(
            mouse_rotation) == *old(mouse_rotation) && r is None,
        !(spec_sum_x(player_rotate@) == 0 && spec_sum_y(player_rotate@) == 0) ==> {
            &&& final(mouse_rotation).0.x == old(mouse_rotation).0.x - spec_sum_x(player_rotate@)
            &&& final(mouse_rotation).0.y == old(mouse_rotation).0.y - spec_sum_y(player_rotate@)
            &&& r == Some(final(mouse_rotation).0)
        },
{
    let mut total_x: i64 = 0;
    let mut total_y: i64 = 0;
    let mut i: usize = 0;
    proof {
        assert(player_rotate@.subrange(0, 0) =~= Seq::<PlayerRotateEvent>::empty());
    }
    while i < player_rotate.len()
        invariant
            i <= player_rotate@.len(),
            player_rotate@.len() <= MAX_MOUSE_EVENTS,
            forall|k: int|
                0 <= k < player_rotate@.len() ==> -MAX_MOUSE_DELTA
                    <= #[trigger] player_rotate@[k].0.x <= MAX_MOUSE_DELTA && -MAX_MOUSE_DELTA
                    <= player_rotate@[k].0.y <= MAX_MOUSE_DELTA,
            total_x == spec_sum_x(player_rotate@.subrange(0, i as int)),
            total_y == spec_sum_y(player_rotate@.subrange(0, i as int)),
            -(i as int) * MAX_MOUSE_DELTA <= total_x <= (i as int) * MAX_MOUSE_DELTA,
            -(i as int) * MAX_MOUSE_DELTA <= total_y <= (i as int) * MAX_MOUSE_DELTA,
        decreases player_rotate@.len() - i,
    {
        let delta = player_rotate[i].0;
        total_x = total_x + delta.x;
        total_y = total_y + delta.y;
        proof {
            assert(player_rotate@.subrange(0, (i + 1) as int).drop_last() =~= player_rotate@
                .subrange(0, i as int));
            assert(player_rotate@.subrange(0, (i + 1) as int).last() == player_rotate@[i as int]);
        }
        i = i + 1;
    }
    proof {
        assert(player_rotate@.subrange(0, player_rotate@.len() as int) =~= player_rotate@);
    }
    if total_x == 0 && total_y == 0 {
        None
    } else {
        let new_rotation = Vec2Fixed {
            x: mouse_rotation.0.x - total_x,
            y: mouse_rotation.0.y - total_y,
        };
        mouse_rotation.0 = new_rotation;
        Some(new_rotation)
    }
}

} // verus!
