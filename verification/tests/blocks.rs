use server::blocks::{child_image_size, get_position_range_on_block, tile_origin, BLOCK_COUNT, BLOCK_SIZE};

#[test]
fn position_range_of_first_blocks() {
    assert_eq!(get_position_range_on_block(1), (1, 1));
    assert_eq!(get_position_range_on_block(2), (2, 5));
    assert_eq!(get_position_range_on_block(3), (6, 14));
    assert_eq!(get_position_range_on_block(9), (205, 285));
}

#[test]
fn position_range_of_block_zero_is_empty() {
    assert_eq!(get_position_range_on_block(0), (1, 0));
}

#[test]
fn blocks_hold_squares_and_are_adjacent() {
    for b in 1..=BLOCK_COUNT {
        let (start, end) = get_position_range_on_block(b);
        assert_eq!(end - start + 1, b * b);
        let (next_start, _) = get_position_range_on_block(b + 1);
        assert_eq!(next_start, end + 1);
    }
}

#[test]
fn block_end_closed_form() {
    for b in 0..200u32 {
        let (_, end) = get_position_range_on_block(b);
        let n = b as u64;
        assert_eq!(6 * end as u64, n * (n + 1) * (2 * n + 1));
    }
}

#[test]
fn largest_block_that_fits_in_u32() {
    // 1² + ... + 2343² = 4_290_161_084 fits in u32.
    assert_eq!(get_position_range_on_block(2343), (4_284_671_436, 4_290_161_084));
}

#[test]
fn tile_sizes() {
    assert_eq!(child_image_size(1), 80);
    assert_eq!(child_image_size(3), 26);
    assert_eq!(child_image_size(9), 8);
}

#[test]
fn tile_origins_fill_rows() {
    assert_eq!(tile_origin(0, 3), (0, 0));
    assert_eq!(tile_origin(2, 3), (52, 0));
    assert_eq!(tile_origin(4, 3), (26, 26));
    assert_eq!(tile_origin(8, 3), (52, 52));
    assert_eq!(tile_origin(9, 3), (0, 78));
}

#[test]
fn tiles_stay_inside_and_apart() {
    for b in 1..=BLOCK_COUNT {
        let side = child_image_size(b);
        let mut seen = Vec::new();
        for idx in 0..b * b {
            let (x, y) = tile_origin(idx, b);
            assert!(x + side <= BLOCK_SIZE && y + side <= BLOCK_SIZE);
            for &(ox, oy) in &seen {
                let (ox, oy): (u32, u32) = (ox, oy);
                assert!(x + side <= ox || ox + side <= x || y + side <= oy || oy + side <= y);
            }
            seen.push((x, y));
        }
    }
}
