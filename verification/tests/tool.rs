use editor::brush::TileBrushTiles;
use editor::layers::{DesignTileLayer, EditorAction, LayerTiles, PhysicsGroup, TileLayerRef};
use editor::tiles::TileBase;
use editor::tool::{repeat_area, BrushDrawInput, TileBrush};

fn t(index: u8) -> TileBase {
    TileBase { index, flags: 0 }
}

fn idle_input(pointer_tile: (i32, i32)) -> BrushDrawInput {
    BrushDrawInput {
        ctrl: false,
        shift: false,
        primary_down: false,
        primary_pressed: false,
        secondary_pressed: false,
        fill_key_down: false,
        pointer_tile,
        fill_pos: (0, 0),
    }
}

fn tool_with_brush(tiles: Vec<TileBase>, w: u16, h: u16, neg: (u16, u16)) -> TileBrush {
    TileBrush {
        brush: Some(TileBrushTiles { tiles: LayerTiles::Design(tiles), w, h, negative_offset: neg }),
        last_apply: None,
        shift_pointer_down: None,
        destructive: true,
        allow_unused: false,
        showed_unused_id: None,
        brush_id_counter: 42,
    }
}

fn replaced_at(a: &EditorAction) -> (u16, u16, u16, u16, Vec<TileBase>) {
    match a {
        EditorAction::TileLayerReplaceTiles { x, y, w, h, new_tiles, .. } => (*x, *y, *w, *h, new_tiles.clone()),
        other => panic!("unexpected action {:?}", other),
    }
}

#[test]
fn new_tool_starts_without_brush() {
    let a = TileBrush::new();
    assert!(a.brush.is_none());
    assert!(a.last_apply.is_none());
    assert!(a.shift_pointer_down.is_none());
    assert!(a.destructive);
    assert!(!a.allow_unused);
    assert!(a.showed_unused_id.is_none());
}

#[test]
fn new_tools_get_random_ids() {
    let a = TileBrush::new();
    let b = TileBrush::new();
    assert_ne!(a.brush_id_counter, b.brush_id_counter);
}

#[test]
fn repeat_area_towards_smaller_x() {
    assert_eq!(repeat_area((5, 0), (2, 0), 2, 1), ((2, 0), (1, 0), 4, 1));
}

#[test]
fn repeat_area_mixed_directions() {
    assert_eq!(repeat_area((5, 5), (3, 7), 2, 2), ((3, 5), (0, 0), 3, 3));
    assert_eq!(repeat_area((0, 0), (0, 0), 3, 3), ((0, 0), (0, 0), 1, 1));
}

#[test]
fn secondary_click_drops_brush() {
    let group = PhysicsGroup { width: 1, height: 1, layers: vec![] };
    let layer = DesignTileLayer { width: 3, height: 3, tiles: vec![t(0); 9] };
    let lref = TileLayerRef::Design { group_index: 0, layer_index: 0, is_background: false, layer: &layer };
    let mut tb = tool_with_brush(vec![t(1)], 1, 1, (0, 0));
    let mut input = idle_input((1, 1));
    input.secondary_pressed = true;
    let r = tb.handle_brush_draw(&group, &lref, input);
    assert!(r.is_empty());
    assert!(tb.brush.is_none());
}

#[test]
fn holding_primary_pastes_under_pointer() {
    let group = PhysicsGroup { width: 1, height: 1, layers: vec![] };
    let layer = DesignTileLayer { width: 3, height: 3, tiles: vec![t(0); 9] };
    let lref = TileLayerRef::Design { group_index: 0, layer_index: 0, is_background: false, layer: &layer };
    let mut tb = tool_with_brush(vec![t(1)], 1, 1, (0, 0));
    let mut input = idle_input((1, 2));
    input.primary_down = true;
    let r = tb.handle_brush_draw(&group, &lref, input);
    assert_eq!(r.len(), 1);
    assert_eq!(replaced_at(&r[0].actions[0]), (1, 2, 1, 1, vec![t(1)]));
    assert_eq!(r[0].identifier.map(|i| i.1), Some(42));
    let again = tb.handle_brush_draw(&group, &lref, input);
    assert!(again.is_empty());
}

#[test]
fn negative_offset_moves_paste() {
    let group = PhysicsGroup { width: 1, height: 1, layers: vec![] };
    let layer = DesignTileLayer { width: 3, height: 3, tiles: vec![t(0); 9] };
    let lref = TileLayerRef::Design { group_index: 0, layer_index: 0, is_background: false, layer: &layer };
    let mut tb = tool_with_brush(vec![t(1), t(2)], 2, 1, (1, 0));
    let mut input = idle_input((2, 0));
    input.primary_down = true;
    let r = tb.handle_brush_draw(&group, &lref, input);
    assert_eq!(replaced_at(&r[0].actions[0]), (1, 0, 2, 1, vec![t(1), t(2)]));
}

#[test]
fn ctrl_keeps_primary_from_pasting() {
    let group = PhysicsGroup { width: 1, height: 1, layers: vec![] };
    let layer = DesignTileLayer { width: 3, height: 3, tiles: vec![t(0); 9] };
    let lref = TileLayerRef::Design { group_index: 0, layer_index: 0, is_background: false, layer: &layer };
    let mut tb = tool_with_brush(vec![t(1)], 1, 1, (0, 0));
    let mut input = idle_input((1, 1));
    input.primary_down = true;
    input.ctrl = true;
    assert!(tb.handle_brush_draw(&group, &lref, input).is_empty());
}

#[test]
fn shift_drag_pastes_repeatedly_on_release() {
    let group = PhysicsGroup { width: 1, height: 1, layers: vec![] };
    let layer = DesignTileLayer { width: 3, height: 1, tiles: vec![t(0); 3] };
    let lref = TileLayerRef::Design { group_index: 0, layer_index: 0, is_background: false, layer: &layer };
    let mut tb = tool_with_brush(vec![t(7)], 1, 1, (0, 0));
    let mut press = idle_input((0, 0));
    press.shift = true;
    press.primary_down = true;
    press.primary_pressed = true;
    assert!(tb.handle_brush_draw(&group, &lref, press).is_empty());
    assert_eq!(tb.shift_pointer_down, Some((0, 0)));
    let mut hold = idle_input((2, 0));
    hold.shift = true;
    hold.primary_down = true;
    assert!(tb.handle_brush_draw(&group, &lref, hold).is_empty());
    let mut release = idle_input((2, 0));
    release.shift = true;
    let r = tb.handle_brush_draw(&group, &lref, release);
    assert_eq!(r.len(), 3);
    for (i, g) in r.iter().enumerate() {
        assert_eq!(replaced_at(&g.actions[0]), (i as u16, 0, 1, 1, vec![t(7)]));
    }
    assert!(tb.shift_pointer_down.is_none());
}

#[test]
fn fill_key_fills_on_press() {
    let group = PhysicsGroup { width: 1, height: 1, layers: vec![] };
    let layer = DesignTileLayer { width: 2, height: 1, tiles: vec![t(0), t(0)] };
    let lref = TileLayerRef::Design { group_index: 0, layer_index: 0, is_background: false, layer: &layer };
    let mut tb = tool_with_brush(vec![t(3)], 1, 1, (0, 0));
    let mut input = idle_input((0, 0));
    input.fill_key_down = true;
    input.primary_pressed = true;
    input.primary_down = true;
    input.fill_pos = (1, 0);
    let r = tb.handle_brush_draw(&group, &lref, input);
    assert_eq!(r.len(), 1);
    assert!(r[0].identifier.is_none());
    assert_eq!(replaced_at(&r[0].actions[0]), (0, 0, 2, 1, vec![t(3), t(3)]));
}

#[test]
fn picks_brush_without_brush_or_while_selecting() {
    let empty = TileBrush::new();
    assert!(empty.picks_brush(false, false));
    let tb = tool_with_brush(vec![t(1)], 1, 1, (0, 0));
    assert!(!tb.picks_brush(false, false));
    assert!(tb.picks_brush(true, false));
    assert!(tb.picks_brush(false, true));
}

#[test]
fn brush_id_joins_halves() {
    assert_eq!(editor::tool::brush_id_from_halves(1, 2), (1u128 << 64) + 2);
    assert_eq!(editor::tool::brush_id_from_halves(u64::MAX, u64::MAX), u128::MAX);
    assert_eq!(editor::tool::brush_id_from_halves(0, 5), 5);
}
