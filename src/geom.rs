use vstd::prelude::*;

verus! {

/// Fixed-point units per block: coordinates are held in thousandths of a block.
pub const SCALE: i64 = 1000;

/// An integer block coordinate in the world.
#[derive(Clone, Copy, Debug, PartialEq, Eq, Structural)]
pub struct BlockPosition {
    pub x: i64,
    pub y: i64,
    pub z: i64,
}

/// An entity position in thousandths of a block.
#[derive(Clone, Copy, Debug, PartialEq, Eq, Structural)]
pub struct Position {
    pub x: i64,
    pub y: i64,
    pub z: i64,
}

/// The block index that a fixed-point coordinate lies in (rounding toward negative infinity).
pub open spec fn block_coord(c: int) -> int {
    c / (SCALE as int)
}

/// The block directly beneath the block that holds the point `(x, y, z)`.
pub open spec fn tile_below(x: int, y: int, z: int) -> BlockPosition {
    BlockPosition {
        x: block_coord(x) as i64,
        y: (block_coord(y) - 1) as i64,
        z: block_coord(z) as i64,
    }
}

/// The four tiles beneath the corners of a square footprint of half-width `hw` centred on `p`.
pub open spec fn footprint_spec(p: Position, hw: int) -> Seq<BlockPosition> {
    seq![
        tile_below(p.x + hw, p.y as int, p.z + hw),
        tile_below(p.x - hw, p.y as int, p.z + hw),
        tile_below(p.x + hw, p.y as int, p.z - hw),
        tile_below(p.x - hw, p.y as int, p.z - hw),
    ]
}

/// Rounds a fixed-point coordinate down to the block that holds it.
pub fn floor_block(c: i64) -> (r: i64)
    ensures
        r as int == block_coord(c as int),
{
    let q = c / SCALE;
    let m = c % SCALE;
    if m < 0 {
        q - 1
    } else {
        q
    }
}

/// The tiles beneath the four horizontal corners of a player's square footprint of
/// half-width `half_width` centred on `p`, in the order (+,+), (-,+), (+,-), (-,-).
pub fn footprint_tiles(p: Position, half_width: i64) -> (r: Vec<BlockPosition>)
    requires
        0 <= half_width,
        i64::MIN <= p.x - half_width && p.x + half_width <= i64::MAX,
        i64::MIN <= p.z - half_width && p.z + half_width <= i64::MAX,
    ensures
        r@ == footprint_spec(p, half_width as int),
{
    let y = floor_block(p.y) - 1;
    let mut r: Vec<BlockPosition> = Vec::new();
    r.push(BlockPosition { x: floor_block(p.x + half_width), y, z: floor_block(p.z + half_width) });
    r.push(BlockPosition { x: floor_block(p.x - half_width), y, z: floor_block(p.z + half_width) });
    r.push(BlockPosition { x: floor_block(p.x + half_width), y, z: floor_block(p.z - half_width) });
    r.push(BlockPosition { x: floor_block(p.x - half_width), y, z: floor_block(p.z - half_width) });
    assert(r@ =~= footprint_spec(p, half_width as int));
    r
}

/// Half the side of the square arena, in blocks.
pub const LAYER_RADIUS: i64 = 15;

/// Number of floor layers.
pub const LAYER_COUNT: usize = 3;

/// Blocks along one side of the arena.
pub const ARENA_SIDE: usize = 31;

/// Number of floor tiles in the arena: every column of the square, on every layer.
pub const ARENA_TILES: usize = 2883;

/// Height of floor layer `k`, from the top.
pub open spec fn layer_y(k: int) -> i64 {
    if k == 0 {
        20
    } else if k == 1 {
        15
    } else {
        10
    }
}

/// `p` is a floor tile of the arena: a column within `LAYER_RADIUS` of the origin on both
/// horizontal axes, on one of the layers.
pub open spec fn in_arena(p: BlockPosition) -> bool {
    -LAYER_RADIUS <= p.x <= LAYER_RADIUS && -LAYER_RADIUS <= p.z <= LAYER_RADIUS && (p.y == layer_y(0)
        || p.y == layer_y(1) || p.y == layer_y(2))
}

/// The `i`-th arena tile: columns by increasing x, then z, and each column's layers from the top.
pub open spec fn arena_tile(i: int) -> BlockPosition {
    BlockPosition {
        x: (i / ((ARENA_SIDE * LAYER_COUNT) as int) - LAYER_RADIUS) as i64,
        y: layer_y(i % (LAYER_COUNT as int)),
        z: ((i / (LAYER_COUNT as int)) % (ARENA_SIDE as int) - LAYER_RADIUS) as i64,
    }
}

/// Height of floor layer `k`, from the top.
pub fn layer_height(k: usize) -> (r: i64)
    requires
        k < LAYER_COUNT,
    ensures
        r == layer_y(k as int),
{
    if k == 0 {
        20
    } else if k == 1 {
        15
    } else {
        10
    }
}

/// Every arena tile has an index below `ARENA_TILES`.
pub proof fn lemma_arena_tile_onto(p: BlockPosition)
    requires
        in_arena(p),
    ensures
        exists|i: int| 0 <= i < ARENA_TILES && #[trigger] arena_tile(i) == p,
{
    let k: int = if p.y == layer_y(0) { 0 } else if p.y == layer_y(1) { 1 } else { 2 };
    let xi: int = p.x + 15;
    let zi: int = p.z + 15;
    let i: int = xi * 93 + zi * 3 + k;
    assert(i / 93 == xi && i % 3 == k && (i / 3) % 31 == zi) by (nonlinear_arith)
        requires
            0 <= xi < 31,
            0 <= zi < 31,
            0 <= k < 3,
            i == xi * 93 + zi * 3 + k,
    ;
    assert(arena_tile(i) == p);
}

/// The tiles that rebuilding the arena sets to floor material, in rebuild order.
pub fn arena_tiles() -> (r: Vec<BlockPosition>)
    ensures
        r@.len() == ARENA_TILES,
        forall|i: int| 0 <= i < r@.len() ==> r@[i] == arena_tile(i),
        forall|i: int| 0 <= i < r@.len() ==> in_arena(#[trigger] r@[i]),
        forall|p: BlockPosition| in_arena(p) ==> r@.contains(p),
{
    let mut r: Vec<BlockPosition> = Vec::new();
    let mut i: usize = 0;
    while i < ARENA_TILES
        invariant
            i <= ARENA_TILES,
            r@.len() == i,
            forall|j: int| 0 <= j < i ==> r@[j] == arena_tile(j),
        decreases ARENA_TILES - i,
    {
        let x = (i / (ARENA_SIDE * LAYER_COUNT)) as i64 - LAYER_RADIUS;
        let z = ((i / LAYER_COUNT) % ARENA_SIDE) as i64 - LAYER_RADIUS;
        let y = layer_height(i % LAYER_COUNT);
        r.push(BlockPosition { x, y, z });
        i = i + 1;
    }
    assert forall|j: int| 0 <= j < r@.len() implies in_arena(#[trigger] r@[j]) by {
        assert(r@[j] == arena_tile(j));
        assert((ARENA_SIDE * LAYER_COUNT) as int == 93);
        assert(0 <= j / 93 < 31 && 0 <= (j / 3) % 31 < 31 && 0 <= j % 3 < 3) by (nonlinear_arith)
            requires
                0 <= j < 2883,
        ;
    }
    assert forall|p: BlockPosition| in_arena(p) implies r@.contains(p) by {
        lemma_arena_tile_onto(p);
        let i = choose|i: int| 0 <= i < ARENA_TILES && #[trigger] arena_tile(i) == p;
        assert(r@[i] == p);
    }
    r
}

} // verus!
