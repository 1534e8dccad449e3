use editor::layer_pick::{next_clicked_layer, tile_hit};
use editor::tiles::TileBase;

fn t(index: u8) -> TileBase {
    TileBase { index, flags: 0 }
}

#[test]
fn tile_hit_only_on_solid_tiles_inside() {
    let tiles = vec![t(0), t(1), t(0), t(2)];
    assert!(!tile_hit(&tiles, 2, 2, 0, 0));
    assert!(tile_hit(&tiles, 2, 2, 1, 0));
    assert!(tile_hit(&tiles, 2, 2, 1, 1));
    assert!(!tile_hit(&tiles, 2, 2, 2, 0));
    assert!(!tile_hit(&tiles, 2, 2, -1, 1));
}

#[test]
fn next_layer_after_active_one() {
    // (hit, is_active)
    let layers = vec![(true, false), (false, true), (false, false), (true, false)];
    assert_eq!(next_clicked_layer(&layers), Some(3));
}

#[test]
fn next_layer_wraps_to_first_hit() {
    let layers = vec![(false, false), (true, false), (true, true)];
    assert_eq!(next_clicked_layer(&layers), Some(1));
}

#[test]
fn next_layer_none_without_hits() {
    let layers = vec![(false, true), (false, false)];
    assert_eq!(next_clicked_layer(&layers), None);
    assert_eq!(next_clicked_layer(&vec![]), None);
}
