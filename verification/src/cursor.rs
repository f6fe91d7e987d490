//! Pointer lock of the game window: a left click captures the mouse, Escape releases it.

use vstd::prelude::*;

verus! {

/// How the cursor is held by the window.
#[derive(Clone, Copy, Debug, PartialEq, Eq, Structural)]
pub enum GrabMode {
    /// The cursor moves freely.
    Free,
    /// The cursor is kept inside the window.
    Confined,
    /// The cursor is locked in place (pointer lock); only raw motion is reported.
    Locked,
}

impl GrabMode {
    /// Whether this is the locked mode.
    pub open spec fn is_locked_mode(self) -> bool {
        self is Locked
    }
}

/// Grab mode and visibility of the cursor.
#[derive(Clone, Copy, Debug, PartialEq, Eq, Structural)]
pub struct CursorState {
    pub grab_mode: GrabMode,
    pub visible: bool,
}

/// The cursor is hidden exactly when it is locked.
pub open spec fn lock_consistent(c: CursorState) -> bool {
    c.visible <==> !(c.grab_mode is Locked)
}

impl CursorState {
    /// A free, visible cursor, as a window starts with.
    pub fn new() -> (c: Self)
        ensures
            c.grab_mode == GrabMode::Free,
            c.visible,
    {
        CursorState { grab_mode: GrabMode::Free, visible: true }
    }

    /// Whether the pointer is locked; mouse look and terrain editing act only then.
    pub fn is_locked(&self) -> (b: bool)
        ensures
            b == (self.grab_mode is Locked),
    {
        match self.grab_mode {
            GrabMode::Locked => true,
            _ => false,
        }
    }
}

/// Cursor state after a frame in which the left button and Escape were (or were not) just pressed.
pub open spec fn pointer_lock_step(c: CursorState, left_just_pressed: bool, escape_just_pressed: bool) -> CursorState {
    if escape_just_pressed {
        CursorState { grab_mode: GrabMode::Free, visible: true }
    } else if left_just_pressed {
        CursorState { grab_mode: GrabMode::Locked, visible: false }
    } else {
        c
    }
}

/// Applies one frame of input to the pointer lock: a left click (just pressed) locks and hides
/// the cursor, then Escape (just pressed) unlocks and shows it, so Escape wins when both come in
/// the same frame. Without either the state is unchanged.
pub fn update_pointer_lock(cursor: &mut CursorState, left_just_pressed: bool, escape_just_pressed: bool)
    ensures
        *final(cursor) == pointer_lock_step(*old(cursor), left_just_pressed, escape_just_pressed),
        escape_just_pressed ==> final(cursor).grab_mode == GrabMode::Free && final(cursor).visible,
        !escape_just_pressed && left_just_pressed ==> final(cursor).grab_mode == GrabMode::Locked
            && !final(cursor).visible,
        !escape_just_pressed && !left_just_pressed ==> *final(cursor) == *old(cursor),
{
    if left_just_pressed {
        cursor.grab_mode = GrabMode::Locked;
        cursor.visible = false;
    }
    if escape_just_pressed {
        cursor.grab_mode = GrabMode::Free;
        cursor.visible = true;
    }
}

/// A cursor that is hidden exactly when locked stays so after any frame of input.
pub proof fn lemma_lock_consistency_kept(c: CursorState, left: bool, escape: bool)
    requires
        lock_consistent(c),
    ensures
        lock_consistent(pointer_lock_step(c, left, escape)),
{
}

/// Escape releases the pointer whatever else happened in the frame; a click alone captures it.
pub proof fn lemma_escape_wins(c: CursorState, left: bool)
    ensures
        !pointer_lock_step(c, left, true).grab_mode.is_locked_mode(),
        pointer_lock_step(c, left, true).visible,
        pointer_lock_step(c, true, false).grab_mode.is_locked_mode(),
{
}


/// Whatever the cursor was: Escape always frees and shows it, a click alone always locks and hides
/// it, and a frame with neither leaves it as it was.
pub proof fn lemma_pointer_lock_outcomes(c: CursorState, left: bool)
    ensures
        pointer_lock_step(c, left, true) == (CursorState { grab_mode: GrabMode::Free, visible: true }),
        pointer_lock_step(c, true, false) == (CursorState { grab_mode: GrabMode::Locked, visible: false }),
        pointer_lock_step(c, false, false) == c,
{
}

} // verus!
