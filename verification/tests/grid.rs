use editor::fill::{fill, fill_tiles};
use editor::tiles::{collect_tiles, TileBase};

fn t(index: u8) -> TileBase {
    TileBase { index, flags: 0 }
}

#[test]
fn collect_tiles_copies_rectangle() {
    let tiles: Vec<u8> = (0..12).collect();
    let r = collect_tiles(&tiles, 4, 1, 2, 1, 2);
    assert_eq!(r, vec![5, 6, 9, 10]);
}

#[test]
fn fill_marks_connected_region() {
    // 3 x 3 grid, a diagonal line of 1s
    let tiles = vec![t(1), t(0), t(0), t(0), t(1), t(0), t(0), t(0), t(1)];
    let (filled, min, max) = fill(&tiles, 3, 3, 0, 0);
    assert_eq!(
        filled,
        vec![true, false, false, false, true, false, false, false, true]
    );
    assert_eq!(min, (0, 0));
    assert_eq!(max, (2, 2));
}

#[test]
fn collect_tiles_leaves_out_rows_past_end() {
    let tiles: Vec<u8> = (0..6).collect();
    let r = collect_tiles(&tiles, 3, 0, 2, 1, 5);
    assert_eq!(r, vec![3, 4]);
    let none = collect_tiles(&tiles, 3, 0, 3, 4, 1);
    assert!(none.is_empty());
}

#[test]
fn fill_covers_uniform_grid() {
    let tiles = vec![t(2); 6];
    let (filled, min, max) = fill(&tiles, 3, 2, 1, 1);
    assert_eq!(filled, vec![true; 6]);
    assert_eq!(min, (0, 0));
    assert_eq!(max, (2, 1));
}

#[test]
fn fill_stops_at_other_numbers() {
    // 4 x 1: the fill from the right end does not cross the 1
    let tiles = vec![t(0), t(1), t(0), t(0)];
    let (filled, min, max) = fill(&tiles, 4, 1, 3, 0);
    assert_eq!(filled, vec![false, false, true, true]);
    assert_eq!(min, (2, 0));
    assert_eq!(max, (3, 0));
}

#[test]
fn fill_of_single_cell() {
    let tiles = vec![t(1), t(0), t(0), t(0)];
    let (filled, min, max) = fill(&tiles, 2, 2, 0, 0);
    assert_eq!(filled, vec![true, false, false, false]);
    assert_eq!((min, max), ((0, 0), (0, 0)));
}

#[test]
fn fill_tiles_returns_box_and_tiles() {
    let tiles = vec![t(0), t(1), t(0), t(1), t(1), t(1)];
    let brush = vec![t(8)];
    let (old, new, at, w, h) = fill_tiles(&tiles, &brush, 3, 2, (0, 0), false);
    assert_eq!((at, w, h), ((0, 0), 1, 1));
    assert_eq!(old, vec![t(0)]);
    assert_eq!(new, vec![t(8)]);
    let (old, new, at, w, h) = fill_tiles(&tiles, &brush, 3, 2, (1, 1), true);
    assert_eq!((at, w, h), ((0, 0), 3, 2));
    assert_eq!(old, tiles);
    assert_eq!(new, vec![t(0), t(8), t(0), t(8), t(8), t(8)]);
}
