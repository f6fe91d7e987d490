use fps_walkthrough::chunk_manager::{chunks_around, ChunkManager};
use fps_walkthrough::chunk_map::ChunkMap;
use fps_walkthrough::chunk_pos::{chunk_box, ChunkPos};

fn p(x: i32, y: i32, z: i32) -> ChunkPos {
    ChunkPos { x, y, z }
}

#[test]
fn chunk_box_walks_z_then_y_then_x() {
    let b = chunk_box(p(0, 0, 0), p(1, 1, 1));
    assert_eq!(
        b,
        vec![
            p(0, 0, 0), p(1, 0, 0), p(0, 1, 0), p(1, 1, 0),
            p(0, 0, 1), p(1, 0, 1), p(0, 1, 1), p(1, 1, 1),
        ]
    );
}

#[test]
fn chunk_box_empty_when_inverted() {
    assert!(chunk_box(p(1, 0, 0), p(0, 5, 5)).is_empty());
    assert!(chunk_box(p(0, 0, 3), p(5, 5, 2)).is_empty());
}

#[test]
fn chunk_box_single_and_extreme() {
    assert_eq!(chunk_box(p(-3, 7, 2), p(-3, 7, 2)), vec![p(-3, 7, 2)]);
    let m = i32::MAX;
    assert_eq!(chunk_box(p(m - 1, m, m), p(m, m, m)), vec![p(m - 1, m, m), p(m, m, m)]);
}

#[test]
fn chunks_around_counts_cube() {
    let c = p(10, -2, 5);
    let v = chunks_around(c, 4);
    assert_eq!(v.len(), 9 * 9 * 9);
    assert_eq!(v[0], p(6, -6, 1));
    assert_eq!(v[v.len() - 1], p(14, 2, 9));
    assert_eq!(chunks_around(c, 0), vec![c]);
    assert!(chunks_around(c, -1).is_empty());
}

#[test]
fn chunk_map_read_after_write() {
    let mut m: ChunkMap<u64> = ChunkMap::new();
    assert_eq!(m.len(), 0);
    assert_eq!(m.insert(p(1, 2, 3), 7), None);
    assert_eq!(m.insert(p(4, 5, 6), 8), None);
    assert_eq!(m.get(&p(1, 2, 3)), Some(&7));
    assert_eq!(m.insert(p(1, 2, 3), 9), Some(7));
    assert_eq!(m.get(&p(1, 2, 3)), Some(&9));
    assert_eq!(m.len(), 2);
    assert_eq!(m.remove(&p(1, 2, 3)), Some(9));
    assert_eq!(m.remove(&p(1, 2, 3)), None);
    assert!(!m.contains_key(&p(1, 2, 3)));
    assert!(m.contains_key(&p(4, 5, 6)));
    assert_eq!(m.entries(), vec![(p(4, 5, 6), 8)]);
}

#[test]
fn chunk_manager_default_values() {
    let m = ChunkManager::default();
    assert_eq!(m.view_distance, 4);
    assert_eq!(m.seed, 42);
    assert_eq!(m.loaded.len(), 0);
}

#[test]
fn chunks_to_load_skips_loaded() {
    let mut m = ChunkManager::default();
    m.view_distance = 1;
    let c = p(0, 0, 0);
    assert_eq!(m.chunks_to_load(c).len(), 27);
    m.mark_loaded(p(-1, -1, -1), 100);
    m.mark_loaded(c, 101);
    let todo = m.chunks_to_load(c);
    assert_eq!(todo.len(), 25);
    assert_eq!(todo[0], p(0, -1, -1));
    assert!(!todo.contains(&c));
}

#[test]
fn unload_keeps_view_and_border_chunks() {
    let mut m = ChunkManager::default();
    let c = p(0, 0, 0);
    m.mark_loaded(p(4, 0, 0), 1); // at view distance: wanted
    m.mark_loaded(p(0, -5, 5), 2); // one beyond: kept (hysteresis)
    m.mark_loaded(p(6, 0, 0), 3); // beyond unload distance
    m.mark_loaded(p(0, 0, -9), 4);
    assert!(m.unload_fits(c));
    let mut removed = m.unload_far(c);
    removed.sort_by_key(|e| e.1);
    assert_eq!(removed, vec![(p(6, 0, 0), 3), (p(0, 0, -9), 4)]);
    assert!(m.loaded.contains_key(&p(4, 0, 0)));
    assert!(m.loaded.contains_key(&p(0, -5, 5)));
    assert_eq!(m.loaded.len(), 2);
    assert!(m.unload_far(c).is_empty());
}

#[test]
fn overflow_guards() {
    let mut m = ChunkManager::default();
    assert!(m.plan_fits(p(0, 0, 0)));
    assert!(!m.plan_fits(p(i32::MAX - 3, 0, 0)));
    m.view_distance = -2;
    assert!(m.plan_fits(p(i32::MAX, 0, 0)));
    assert!(m.chunks_to_load(p(i32::MAX, 0, 0)).is_empty());
    m.view_distance = i32::MIN;
    assert!(!m.plan_fits(p(0, 0, 0)));
    let mut m = ChunkManager::default();
    m.mark_loaded(p(i32::MIN, 0, 0), 1);
    assert!(m.unload_fits(p(-1, 0, 0)));
    assert!(!m.unload_fits(p(0, 0, 0)));
    m.view_distance = i32::MAX;
    assert!(!m.unload_fits(p(-1, 0, 0)));
}
