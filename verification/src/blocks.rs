//! The board is made of square blocks.  Block `b` (counting from 1) holds
//! `b * b` consecutive board positions, and its picture is a grid of `b` by `b`
//! tiles drawn on a `BLOCK_SIZE` by `BLOCK_SIZE` canvas.

use vstd::prelude::*;

verus! {

/// Side, in pixels, of the picture of one block.
pub const BLOCK_SIZE: u32 = 80;

/// Number of blocks whose pictures are rendered (blocks `1 ..= BLOCK_COUNT`).
pub const BLOCK_COUNT: u32 = 9;

/// `1² + 2² + ... + n²`, and zero when `n <= 0`.
pub open spec fn square_sum(n: int) -> int
    decreases n,
{
    if n <= 0 {
        0
    } else {
        square_sum(n - 1) + n * n
    }
}

/// First board position of block `block`.
pub open spec fn block_start(block: int) -> int {
    1 + square_sum(block - 1)
}

/// Last board position of block `block`.
pub open spec fn block_end(block: int) -> int {
    square_sum(block)
}

/// Side, in pixels, of one tile of block `block`.
pub open spec fn tile_side(block: int) -> int {
    (BLOCK_SIZE as int) / block
}

/// Column of the tile with index `idx` in block `block`.
pub open spec fn tile_column(idx: int, block: int) -> int {
    idx % block
}

/// Row of the tile with index `idx` in block `block`.
pub open spec fn tile_row(idx: int, block: int) -> int {
    idx / block
}

proof fn lemma_square_sum_nonneg(n: int)
    ensures
        square_sum(n) >= 0,
    decreases n,
{
    if n > 0 {
        lemma_square_sum_nonneg(n - 1);
        assert(n * n >= 0) by (nonlinear_arith);
    }
}

proof fn lemma_square_sum_monotone(a: int, b: int)
    requires
        a <= b,
    ensures
        square_sum(a) <= square_sum(b),
    decreases b - a,
{
    if a < b {
        lemma_square_sum_monotone(a, b - 1);
        if b > 0 {
            assert(b * b >= 0) by (nonlinear_arith);
        }
    }
}

/// Board positions `(first, last)` covered by block `block`: block `b` starts
/// right after the `1² + ... + (b-1)²` positions of the blocks before it and
/// ends at position `1² + ... + b²`.
pub fn get_position_range_on_block(block: u32) -> (range: (u32, u32))
    requires
        square_sum(block as int) <= u32::MAX,
    ensures
        range.0 == block_start(block as int),
        range.1 == block_end(block as int),
        6 * range.1 == block * (block + 1) * (2 * block + 1),
        range.1 - range.0 + 1 == block * block,
{
    let mut sum: u32 = 0;
    let mut i: u32 = 1;
    while i < block
        invariant
            1 <= i,
            block == 0 || i <= block,
            sum == square_sum(i - 1),
            square_sum(block as int) <= u32::MAX,
        decreases block - i,
    {
        proof {
            lemma_square_sum_monotone(i as int, block as int);
            lemma_square_sum_nonneg(i - 1);
        }
        sum = sum + i * i;
        i = i + 1;
    }
    proof {
        lemma_block_end_closed_form(block as nat);
        lemma_block_holds_square(block as nat);
    }
    if block == 0 {
        (1, 0)
    } else {
        proof {
            assert(block * block >= 1) by (nonlinear_arith)
                requires
                    block >= 1,
            ;
        }
        (sum + 1, sum + block * block)
    }
}

/// Block `block` covers exactly `block * block` board positions.
pub proof fn lemma_block_holds_square(block: nat)
    ensures
        block_end(block as int) - block_start(block as int) + 1 == block * block,
{
    if block > 0 {
        assert(square_sum(block as int) == square_sum(block - 1) + block * block);
    }
}

/// The position right after the end of a block is the start of the next block.
pub proof fn lemma_blocks_adjacent(block: nat)
    ensures
        block_start(block + 1 as int) == block_end(block as int) + 1,
{
}

/// A block ends before any later block starts.
pub proof fn lemma_blocks_disjoint(a: int, b: int)
    requires
        0 <= a < b,
    ensures
        block_end(a) < block_start(b),
{
    lemma_square_sum_monotone(a, b - 1);
}

proof fn lemma_locate_from(p: int, b: int) -> (found: int)
    requires
        b >= 1,
        block_start(b) <= p,
    ensures
        found >= b,
        block_start(found) <= p <= block_end(found),
    decreases p - block_start(b),
{
    if p <= block_end(b) {
        b
    } else {
        assert(b * b >= 1) by (nonlinear_arith)
            requires
                b >= 1,
        ;
        lemma_locate_from(p, b + 1)
    }
}

/// Every board position belongs to exactly one block.
pub proof fn lemma_position_in_one_block(p: int) -> (block: int)
    requires
        p >= 1,
    ensures
        block >= 1,
        block_start(block) <= p <= block_end(block),
        forall|other: int|
            other >= 1 && block_start(other) <= p && p <= block_end(other) ==> other == block,
{
    let block = lemma_locate_from(p, 1);
    assert forall|other: int|
        other >= 1 && block_start(other) <= p && p <= block_end(other) implies other == block by {
        if other < block {
            lemma_blocks_disjoint(other, block);
        } else if other > block {
            lemma_blocks_disjoint(block, other);
        }
    }
    block
}

/// The last position of block `n` is `n (n + 1) (2n + 1) / 6`.
pub proof fn lemma_block_end_closed_form(n: nat)
    ensures
        6 * block_end(n as int) == n * (n + 1) * (2 * n + 1),
    decreases n,
{
    if n > 0 {
        lemma_block_end_closed_form((n - 1) as nat);
        let m: int = n - 1;
        assert(6 * (square_sum(m) + n * n) == n * (n + 1) * (2 * n + 1)) by (nonlinear_arith)
            requires
                6 * square_sum(m) == m * (m + 1) * (2 * m + 1),
                m == n - 1,
        ;
    }
}

/// Side, in pixels, of each tile of block `block`.
pub fn child_image_size(block: u32) -> (side: u32)
    requires
        block > 0,
    ensures
        side == tile_side(block as int),
        side == BLOCK_SIZE / block,
{
    BLOCK_SIZE / block
}

/// Pixel coordinates `(x, y)` of the top-left corner of tile `idx` in the
/// picture of block `block`: tiles fill the picture row by row, `block` per row.
pub fn tile_origin(idx: u32, block: u32) -> (origin: (u32, u32))
    requires
        block > 0,
        tile_row(idx as int, block as int) * tile_side(block as int) <= u32::MAX,
    ensures
        origin.0 == tile_column(idx as int, block as int) * tile_side(block as int),
        origin.1 == tile_row(idx as int, block as int) * tile_side(block as int),
        origin.0 == (idx % block) * (BLOCK_SIZE / block),
        origin.1 == (idx / block) * (BLOCK_SIZE / block),
{
    let side = BLOCK_SIZE / block;
    proof {
        let c: int = (idx % block) as int;
        let s: int = side as int;
        assert(c * s <= block * s) by (nonlinear_arith)
            requires
                0 <= c < block,
                s >= 0,
        ;
        assert(block * s <= BLOCK_SIZE) by (nonlinear_arith)
            requires
                s == BLOCK_SIZE as int / block as int,
                block > 0,
        ;
    }
    ((idx % block) * side, (idx / block) * side)
}

/// The tile side is the largest side for which a row of `block` tiles fits in
/// the picture: `block` tiles of that side fit, `block` tiles one pixel wider
/// do not.
pub proof fn lemma_tile_side_is_largest_fitting(block: int)
    requires
        block >= 1,
    ensures
        tile_side(block) >= 0,
        block * tile_side(block) <= BLOCK_SIZE,
        block * (tile_side(block) + 1) > BLOCK_SIZE,
{
    let s = tile_side(block);
    assert(block * s <= BLOCK_SIZE && block * (s + 1) > BLOCK_SIZE && s >= 0) by (nonlinear_arith)
        requires
            s == BLOCK_SIZE as int / block,
            block >= 1,
    ;
}

/// For a block of at most `BLOCK_SIZE` tiles a side, every tile of the block
/// lies inside the picture.
pub proof fn lemma_tile_within_picture(idx: int, block: int)
    requires
        1 <= block <= BLOCK_SIZE,
        0 <= idx < block * block,
    ensures
        0 <= tile_column(idx, block) * tile_side(block),
        tile_column(idx, block) * tile_side(block) + tile_side(block) <= BLOCK_SIZE,
        0 <= tile_row(idx, block) * tile_side(block),
        tile_row(idx, block) * tile_side(block) + tile_side(block) <= BLOCK_SIZE,
{
    let s = tile_side(block);
    let c = tile_column(idx, block);
    let r = tile_row(idx, block);
    assert(0 <= c < block);
    assert(block * s <= BLOCK_SIZE) by (nonlinear_arith)
        requires
            s == BLOCK_SIZE as int / block,
            block > 0,
    ;
    assert(0 <= r < block) by (nonlinear_arith)
        requires
            r == idx / block,
            0 <= idx < block * block,
            block > 0,
    ;
    assert(0 <= c * s && c * s + s <= block * s) by (nonlinear_arith)
        requires
            0 <= c < block,
            s >= 0,
    ;
    assert(0 <= r * s && r * s + s <= block * s) by (nonlinear_arith)
        requires
            0 <= r < block,
            s >= 0,
    ;
}

/// Two different tiles of a block of at most `BLOCK_SIZE` tiles a side never
/// overlap: one lies entirely left of, right of, above or below the other.
pub proof fn lemma_tiles_do_not_overlap(i: int, j: int, block: int)
    requires
        1 <= block <= BLOCK_SIZE,
        0 <= i < block * block,
        0 <= j < block * block,
        i != j,
    ensures
        ({
            let s = tile_side(block);
            let (xi, yi) = (tile_column(i, block) * s, tile_row(i, block) * s);
            let (xj, yj) = (tile_column(j, block) * s, tile_row(j, block) * s);
            xi + s <= xj || xj + s <= xi || yi + s <= yj || yj + s <= yi
        }),
{
    let s = tile_side(block);
    let ci = tile_column(i, block);
    let cj = tile_column(j, block);
    let ri = tile_row(i, block);
    let rj = tile_row(j, block);
    assert(i == ri * block + ci && j == rj * block + cj) by (nonlinear_arith)
        requires
            ci == i % block,
            cj == j % block,
            ri == i / block,
            rj == j / block,
            block > 0,
    ;
    if ci < cj {
        assert(ci * s + s <= cj * s) by (nonlinear_arith)
            requires
                ci + 1 <= cj,
                s >= 0,
        ;
    } else if cj < ci {
        assert(cj * s + s <= ci * s) by (nonlinear_arith)
            requires
                cj + 1 <= ci,
                s >= 0,
        ;
    } else if ri < rj {
        assert(ri * s + s <= rj * s) by (nonlinear_arith)
            requires
                ri + 1 <= rj,
                s >= 0,
        ;
    } else if rj < ri {
        assert(rj * s + s <= ri * s) by (nonlinear_arith)
            requires
                rj + 1 <= ri,
                s >= 0,
        ;
    } else {
        assert(i == j);
    }
}

/// The NFTs of a block, listed in the order of their positions, take one tile
/// each: the NFT at board position `p` of block `block` takes tile
/// `p - block_start(block)`, which is a tile of the block and, for a block of
/// at most `BLOCK_SIZE` tiles a side, lies inside its picture.
pub proof fn lemma_position_has_tile(p: int, block: int)
    requires
        1 <= block <= BLOCK_SIZE,
        block_start(block) <= p <= block_end(block),
    ensures
        0 <= p - block_start(block) < block * block,
        tile_column(p - block_start(block), block) * tile_side(block) + tile_side(block)
            <= BLOCK_SIZE,
        tile_row(p - block_start(block), block) * tile_side(block) + tile_side(block) <= BLOCK_SIZE,
{
    lemma_block_holds_square(block as nat);
    lemma_tile_within_picture(p - block_start(block), block);
}

} // verus!
