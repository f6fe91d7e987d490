//! Player input latching, jump consumption and the fixed-timestep bookkeeping around them.

use vstd::prelude::*;

verus! {

/// Horizontal movement intent: `x` strafes (right positive), `y` walks (forward positive).
/// Each axis is -1, 0 or 1.
#[derive(Clone, Copy, Debug, PartialEq, Eq, Structural)]
pub struct MoveIntent {
    pub x: i8,
    pub y: i8,
}

/// Keyboard intent gathered once per rendered frame and consumed by the physics ticks.
#[derive(Clone, Copy, Debug, PartialEq, Eq, Structural)]
pub struct AccumulatedInput {
    /// Movement intent of the last rendered frame.
    pub movement: MoveIntent,
    /// Set when Space is pressed while grounded; cleared when a physics tick performs the jump.
    pub jump_pressed: bool,
}

/// Whether the player touches the ground.
#[derive(Clone, Copy, Debug, PartialEq, Eq, Structural)]
pub struct Grounded(pub bool);

/// Whether the fixed-timestep schedule ran during the current rendered frame.
#[derive(Clone, Copy, Debug, PartialEq, Eq, Structural)]
pub struct DidFixedTimestepRunThisFrame(bool);

impl Default for AccumulatedInput {
    fn default() -> (a: Self)
        ensures
            a.movement == (MoveIntent { x: 0, y: 0 }),
            !a.jump_pressed,
    {
        AccumulatedInput { movement: MoveIntent { x: 0, y: 0 }, jump_pressed: false }
    }
}

impl Default for Grounded {
    fn default() -> (g: Self)
        ensures
            !g.0,
    {
        Grounded(false)
    }
}

impl Default for DidFixedTimestepRunThisFrame {
    fn default() -> (f: Self)
        ensures
            !f@,
    {
        DidFixedTimestepRunThisFrame(false)
    }
}

impl View for DidFixedTimestepRunThisFrame {
    type V = bool;

    closed spec fn view(&self) -> bool {
        self.0
    }
}

/// 1 when `b` holds, 0 otherwise.
pub open spec fn bit(b: bool) -> int {
    if b { 1 } else { 0 }
}

/// Movement intent read from the held movement keys: W and S on the forward axis, D and A on the
/// strafe axis; opposite keys cancel.
pub open spec fn intent_from_keys(forward: bool, back: bool, left: bool, right: bool) -> MoveIntent {
    MoveIntent { x: (bit(right) - bit(left)) as i8, y: (bit(forward) - bit(back)) as i8 }
}

/// Whether each axis of the intent is -1, 0 or 1.
pub open spec fn unit_intent(m: MoveIntent) -> bool {
    -1 <= m.x <= 1 && -1 <= m.y <= 1
}

/// Reads the keyboard into `input`, once per rendered frame. The movement intent is overwritten
/// from the held keys (W forward, S back, A left, D right). The jump latch is set when Space was
/// just pressed while grounded, and is never cleared here: a press in mid-air is ignored, and a
/// latched jump waits for a physics tick.
pub fn accumulate_player_input(
    input: &mut AccumulatedInput,
    forward: bool,
    back: bool,
    left: bool,
    right: bool,
    jump_just_pressed: bool,
    grounded: Grounded,
)
    ensures
        final(input).movement == intent_from_keys(forward, back, left, right),
        unit_intent(final(input).movement),
        final(input).movement.x == (if right && !left { 1int } else if left && !right { -1int } else { 0int }),
        final(input).movement.y == (if forward && !back { 1int } else if back && !forward { -1int } else { 0int }),
        final(input).jump_pressed == (old(input).jump_pressed || (jump_just_pressed && grounded.0)),
{
    let mut x: i8 = 0;
    let mut y: i8 = 0;
    if forward {
        y = y + 1;
    }
    if back {
        y = y - 1;
    }
    if left {
        x = x - 1;
    }
    if right {
        x = x + 1;
    }
    input.movement = MoveIntent { x, y };
    if jump_just_pressed && grounded.0 {
        input.jump_pressed = true;
    }
}

/// Resets the movement intent after the physics ticks of a frame; the jump latch is kept
/// (a physics tick clears it when it performs the jump).
pub fn clear_accumulated_input(input: &mut AccumulatedInput)
    ensures
        final(input).movement == (MoveIntent { x: 0, y: 0 }),
        final(input).jump_pressed == old(input).jump_pressed,
{
    input.movement = MoveIntent { x: 0, y: 0 };
}

/// Whether the fixed-timestep schedule ran this frame.
pub fn did_fixed_timestep_run(flag: &DidFixedTimestepRunThisFrame) -> (b: bool)
    ensures
        b == flag@,
{
    flag.0
}

/// Marks, at the start of a rendered frame, that no fixed tick has run yet.
pub fn clear_fixed_timestep_flag(flag: &mut DidFixedTimestepRunThisFrame)
    ensures
        !final(flag)@,
{
    flag.0 = false;
}

/// Marks that a fixed tick ran this frame.
pub fn set_fixed_timestep_flag(flag: &mut DidFixedTimestepRunThisFrame)
    ensures
        final(flag)@,
{
    flag.0 = true;
}

/// After the fixed ticks of a frame: the movement intent is cleared only when a tick ran and so
/// consumed it; otherwise it is kept for the next frame's ticks.
pub fn finish_frame_input(input: &mut AccumulatedInput, flag: &DidFixedTimestepRunThisFrame)
    ensures
        flag@ ==> final(input).movement == (MoveIntent { x: 0, y: 0 }),
        !flag@ ==> final(input).movement == old(input).movement,
        final(input).jump_pressed == old(input).jump_pressed,
{
    if did_fixed_timestep_run(flag) {
        clear_accumulated_input(input);
    }
}

/// Whether a physics tick performs a jump: one is latched and the player is grounded.
pub open spec fn jump_fires(jump_pressed: bool, grounded: bool) -> bool {
    jump_pressed && grounded
}

/// The jump part of a physics tick: a latched jump while grounded is performed (the caller gives
/// the upward impulse), which leaves the ground and consumes the latch. Returns whether it fired.
/// Gravity then applies exactly when the player is not grounded.
pub fn consume_jump(input: &mut AccumulatedInput, grounded: &mut Grounded) -> (jumped: bool)
    ensures
        jumped == jump_fires(old(input).jump_pressed, old(grounded).0),
        jumped == (old(input).jump_pressed && old(grounded).0),
        !jumped ==> *final(input) == *old(input) && *final(grounded) == *old(grounded),
        jumped ==> !final(input).jump_pressed && !final(grounded).0,
        final(input).jump_pressed == (old(input).jump_pressed && !jumped),
        final(grounded).0 == (old(grounded).0 && !jumped),
        final(input).movement == old(input).movement,
{
    if input.jump_pressed && grounded.0 {
        grounded.0 = false;
        input.jump_pressed = false;
        true
    } else {
        false
    }
}

/// One press gives one jump: right after a tick that jumped, another tick with no new input
/// cannot jump again.
pub proof fn lemma_no_double_jump(jump_pressed: bool, grounded: bool)
    requires
        jump_fires(jump_pressed, grounded),
    ensures
        !jump_fires(jump_pressed && !jump_fires(jump_pressed, grounded), grounded && !jump_fires(jump_pressed, grounded)),
{
}


/// A physics tick jumps exactly when a jump is latched and the player is grounded: never without
/// a latched press (no bouncing on landing), never in mid-air.
pub proof fn lemma_jump_needs_latch_and_ground(jump_pressed: bool, grounded: bool)
    ensures
        jump_fires(jump_pressed, grounded) ==> jump_pressed,
        jump_fires(jump_pressed, grounded) ==> grounded,
        jump_pressed && grounded ==> jump_fires(jump_pressed, grounded),
{
}

/// The strafe axis is read from A and D alone and the walk axis from W and S alone; each key
/// pushes its axis one step its way, and opposite keys cancel.
pub proof fn lemma_axes_independent(forward: bool, back: bool, left: bool, right: bool, f2: bool, b2: bool, l2: bool, r2: bool)
    ensures
        intent_from_keys(forward, back, left, right).x == intent_from_keys(f2, b2, left, right).x,
        intent_from_keys(forward, back, left, right).y == intent_from_keys(forward, back, l2, r2).y,
        intent_from_keys(forward, back, false, true).x == 1,
        intent_from_keys(forward, back, true, false).x == -1,
        intent_from_keys(forward, back, false, false).x == 0,
        intent_from_keys(forward, back, true, true).x == 0,
        intent_from_keys(true, false, left, right).y == 1,
        intent_from_keys(false, true, left, right).y == -1,
        intent_from_keys(false, false, left, right).y == 0,
        intent_from_keys(true, true, left, right).y == 0,
        unit_intent(intent_from_keys(forward, back, left, right)),
{
}

} // verus!
