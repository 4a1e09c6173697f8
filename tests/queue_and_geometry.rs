use tnt_run::decay::DecayQueue;
use tnt_run::geom::{arena_tiles, floor_block, footprint_tiles, BlockPosition, Position, ARENA_TILES};

fn tile(x: i64, y: i64, z: i64) -> BlockPosition {
    BlockPosition { x, y, z }
}

#[test]
fn queue_refuses_second_entry_for_tile() {
    let mut q = DecayQueue::new();
    assert!(q.push_if_absent(5, tile(1, 2, 3)));
    assert!(!q.push_if_absent(6, tile(1, 2, 3)));
    assert!(q.push_if_absent(6, tile(1, 2, 4)));
    assert_eq!(q.len(), 2);
    assert!(q.contains(tile(1, 2, 3)));
    assert!(!q.contains(tile(0, 2, 3)));
}

#[test]
fn queue_drains_due_prefix_in_order() {
    let mut q = DecayQueue::new();
    q.push_if_absent(3, tile(0, 0, 0));
    q.push_if_absent(3, tile(1, 0, 0));
    q.push_if_absent(8, tile(2, 0, 0));
    assert!(q.drain_due(2).is_empty());
    assert_eq!(q.drain_due(7), vec![(3, tile(0, 0, 0)), (3, tile(1, 0, 0))]);
    assert_eq!(q.len(), 1);
    assert_eq!(q.drain_due(8), vec![(8, tile(2, 0, 0))]);
    assert_eq!(q.len(), 0);
}

#[test]
fn floor_block_rounds_down() {
    assert_eq!(floor_block(0), 0);
    assert_eq!(floor_block(999), 0);
    assert_eq!(floor_block(1000), 1);
    assert_eq!(floor_block(-1), -1);
    assert_eq!(floor_block(-1000), -1);
    assert_eq!(floor_block(-1001), -2);
}

#[test]
fn footprint_inside_one_tile() {
    let p = Position { x: 500, y: 21000, z: 500 };
    let tiles = footprint_tiles(p, 300);
    assert_eq!(tiles, vec![tile(0, 20, 0); 4]);
}

#[test]
fn footprint_across_tile_boundary() {
    let p = Position { x: -100, y: 21500, z: 900 };
    let tiles = footprint_tiles(p, 300);
    assert_eq!(tiles, vec![tile(0, 20, 1), tile(-1, 20, 1), tile(0, 20, 0), tile(-1, 20, 0)]);
}

#[test]
fn arena_covers_every_layer_of_the_square() {
    let tiles = arena_tiles();
    assert_eq!(tiles.len(), ARENA_TILES);
    assert_eq!(tiles[0], tile(-15, 20, -15));
    assert_eq!(tiles[1], tile(-15, 15, -15));
    assert_eq!(tiles[2], tile(-15, 10, -15));
    assert_eq!(tiles[3], tile(-15, 20, -14));
    assert_eq!(tiles[ARENA_TILES - 1], tile(15, 10, 15));
    assert!(tiles.contains(&tile(0, 15, 7)));
    assert!(!tiles.contains(&tile(16, 15, 0)));
    assert!(!tiles.contains(&tile(0, 16, 0)));
}
