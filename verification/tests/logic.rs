use fps_walkthrough::cursor::{update_pointer_lock, CursorState, GrabMode};
use fps_walkthrough::deform::{deform_requests, refresh_after_deform, ChunkRefresh, DeformKind};
use fps_walkthrough::player::{
    accumulate_player_input, clear_accumulated_input, clear_fixed_timestep_flag, consume_jump,
    did_fixed_timestep_run, finish_frame_input, set_fixed_timestep_flag, AccumulatedInput,
    DidFixedTimestepRunThisFrame, Grounded, MoveIntent,
};
use fps_walkthrough::voxel::{addresses_voxel, voxel_index, voxel_index_in_chunk, voxel_world_coord, CHUNK_SIZE, CHUNK_VOL};

#[test]
fn voxel_index_formula() {
    assert_eq!(voxel_index(0, 0, 0), 0);
    assert_eq!(voxel_index(1, 2, 3), 1 + 2 * 32 + 3 * 1024);
    assert_eq!(voxel_index(31, 31, 31), CHUNK_VOL - 1);
    assert_eq!(CHUNK_SIZE * CHUNK_SIZE * CHUNK_SIZE, CHUNK_VOL);
    assert_eq!(voxel_index(40, 0, 0), 40);
    assert!(addresses_voxel(40, 0, 0));
    assert!(addresses_voxel(31, 31, 31));
    assert!(!addresses_voxel(0, 0, 32));
    assert!(!addresses_voxel(32767, 1, 0));
    assert!(!addresses_voxel(usize::MAX, 0, 0));
}

#[test]
fn voxel_index_in_chunk_bounds() {
    assert_eq!(voxel_index_in_chunk(5, 6, 7), Some(5 + 6 * 32 + 7 * 1024));
    assert_eq!(voxel_index_in_chunk(-1, 0, 0), None);
    assert_eq!(voxel_index_in_chunk(0, 32, 0), None);
    assert_eq!(voxel_index_in_chunk(0, 0, 32), None);
    assert_eq!(voxel_index_in_chunk(31, 31, 31), Some(CHUNK_VOL - 1));
}

#[test]
fn voxel_index_distinct_slots() {
    let mut seen = vec![false; CHUNK_VOL];
    for z in 0..32 {
        for y in 0..32 {
            for x in 0..32 {
                let i = voxel_index(x, y, z);
                assert!(!seen[i]);
                seen[i] = true;
            }
        }
    }
    assert!(seen.iter().all(|b| *b));
}

#[test]
fn world_coordinates() {
    assert_eq!(voxel_world_coord(0, 5), Some(5));
    assert_eq!(voxel_world_coord(-1, 0), Some(-32));
    assert_eq!(voxel_world_coord(-1, 31), Some(-1));
    assert_eq!(voxel_world_coord(3, 2), Some(98));
    assert_eq!(voxel_world_coord(i32::MAX / 32, 31), Some(i32::MAX));
    assert_eq!(voxel_world_coord(i32::MAX / 32 + 1, 0), None);
    assert_eq!(voxel_world_coord(i32::MIN / 32, 0), Some(i32::MIN));
    assert_eq!(voxel_world_coord(i32::MIN / 32 - 1, 31), None);
}

#[test]
fn pointer_lock_transitions() {
    let mut c = CursorState::new();
    assert!(!c.is_locked() && c.visible);
    update_pointer_lock(&mut c, false, false);
    assert_eq!(c, CursorState::new());
    update_pointer_lock(&mut c, true, false);
    assert_eq!(c, CursorState { grab_mode: GrabMode::Locked, visible: false });
    assert!(c.is_locked());
    update_pointer_lock(&mut c, false, false);
    assert!(c.is_locked());
    update_pointer_lock(&mut c, false, true);
    assert_eq!(c, CursorState { grab_mode: GrabMode::Free, visible: true });
    update_pointer_lock(&mut c, true, true);
    assert_eq!(c, CursorState { grab_mode: GrabMode::Free, visible: true });
    let mut confined = CursorState { grab_mode: GrabMode::Confined, visible: true };
    update_pointer_lock(&mut confined, false, false);
    assert!(!confined.is_locked());
}

#[test]
fn movement_keys_and_cancel() {
    let mut i = AccumulatedInput::default();
    accumulate_player_input(&mut i, true, false, true, false, false, Grounded(true));
    assert_eq!(i.movement, MoveIntent { x: -1, y: 1 });
    accumulate_player_input(&mut i, true, true, true, true, false, Grounded(true));
    assert_eq!(i.movement, MoveIntent { x: 0, y: 0 });
    accumulate_player_input(&mut i, false, true, false, true, false, Grounded(true));
    assert_eq!(i.movement, MoveIntent { x: 1, y: -1 });
    assert!(!i.jump_pressed);
}

#[test]
fn jump_latch_and_single_jump() {
    let mut i = AccumulatedInput::default();
    let mut g = Grounded(false);
    accumulate_player_input(&mut i, false, false, false, false, true, g);
    assert!(!i.jump_pressed, "mid-air press is ignored");
    g = Grounded(true);
    accumulate_player_input(&mut i, false, false, false, false, true, g);
    assert!(i.jump_pressed);
    accumulate_player_input(&mut i, false, false, false, false, false, g);
    clear_accumulated_input(&mut i);
    assert!(i.jump_pressed, "latch survives frames");
    assert!(consume_jump(&mut i, &mut g));
    assert!(!g.0 && !i.jump_pressed);
    assert!(!consume_jump(&mut i, &mut g), "no double jump");
    let mut i2 = AccumulatedInput { movement: MoveIntent { x: 1, y: 0 }, jump_pressed: true };
    let mut air = Grounded(false);
    assert!(!consume_jump(&mut i2, &mut air));
    assert!(i2.jump_pressed && !air.0);
    assert_eq!(i2.movement, MoveIntent { x: 1, y: 0 });
}

#[test]
fn fixed_timestep_flag_guards_clearing() {
    let mut f = DidFixedTimestepRunThisFrame::default();
    assert!(!did_fixed_timestep_run(&f));
    let mut i = AccumulatedInput { movement: MoveIntent { x: 1, y: 1 }, jump_pressed: true };
    finish_frame_input(&mut i, &f);
    assert_eq!(i.movement, MoveIntent { x: 1, y: 1 }, "input kept when no tick ran");
    set_fixed_timestep_flag(&mut f);
    assert!(did_fixed_timestep_run(&f));
    finish_frame_input(&mut i, &f);
    assert_eq!(i.movement, MoveIntent { x: 0, y: 0 });
    assert!(i.jump_pressed);
    clear_fixed_timestep_flag(&mut f);
    assert!(!did_fixed_timestep_run(&f));
}

#[test]
fn deform_requests_by_buttons() {
    assert!(deform_requests(false, true, true).is_empty());
    assert!(deform_requests(true, false, false).is_empty());
    assert_eq!(deform_requests(true, true, false), vec![DeformKind::Dig]);
    assert_eq!(deform_requests(true, false, true), vec![DeformKind::Fill]);
    assert_eq!(deform_requests(true, true, true), vec![DeformKind::Dig, DeformKind::Fill]);
    assert_eq!(DeformKind::Dig.sign(), -1);
    assert_eq!(DeformKind::Fill.sign(), 1);
}

#[test]
fn refresh_decisions() {
    assert_eq!(refresh_after_deform(None, true), ChunkRefresh::Keep);
    assert_eq!(refresh_after_deform(None, false), ChunkRefresh::Keep);
    assert_eq!(refresh_after_deform(Some(7), true), ChunkRefresh::Despawn(7));
    assert_eq!(refresh_after_deform(Some(7), false), ChunkRefresh::ReplaceMesh(7));
}
