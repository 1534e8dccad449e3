use editor::layers::{
    DesignTileLayer, EditorAction, LayerTiles, PhysKind, PhysicsGroup, PhysicsTiles, TileLayerRef,
};
use editor::select::{
    select_pointer_step, TileBrushDown,
    brush_from_layer, delete_selection_actions, has_unused_tiles, picker_indices, picker_tiles,
    selection_rect, PickerProps, SelectSource, TileUsage,
};
use editor::tiles::TileBase;
use editor::tool::TileBrush;

fn t(index: u8) -> TileBase {
    TileBase { index, flags: 0 }
}

fn props() -> PickerProps {
    PickerProps {
        active_tele: 4,
        active_switch: 5,
        active_tune_zone: 6,
        speedup_force: 50,
        speedup_max_speed: 0,
        speedup_angle: 90,
        switch_delay: 2,
    }
}

fn all_drawn() -> TileUsage {
    TileUsage {
        design: None,
        game: vec![true; 256],
        front: vec![true; 256],
        tele: vec![true; 256],
        speedup: vec![true; 256],
        switch: vec![true; 256],
        tune: vec![true; 256],
    }
}

fn tool(counter: u128) -> TileBrush {
    TileBrush {
        brush: None,
        last_apply: None,
        shift_pointer_down: None,
        destructive: true,
        allow_unused: false,
        showed_unused_id: None,
        brush_id_counter: counter,
    }
}

#[test]
fn picker_indices_read_rows_of_sixteen() {
    let (idx, w, h) = picker_indices(2, 1, 3, 2);
    assert_eq!((w, h), (2, 2));
    assert_eq!(idx, vec![18, 19, 34, 35]);
}

#[test]
fn picker_indices_of_empty_rectangle() {
    let (idx, w, h) = picker_indices(3, 0, 2, 0);
    assert_eq!((w, h), (0, 1));
    assert!(idx.is_empty());
}

#[test]
fn picker_tiles_carry_layer_values() {
    let idx = vec![1, 2];
    match picker_tiles(&idx, Some(PhysKind::Tele), props()) {
        LayerTiles::Physics(PhysicsTiles::Tele(v)) => {
            assert_eq!(v.len(), 2);
            assert_eq!(v[1].base, t(2));
            assert_eq!(v[1].number, 4);
        }
        other => panic!("unexpected tiles {:?}", other),
    }
    match picker_tiles(&idx, Some(PhysKind::Speedup), props()) {
        LayerTiles::Physics(PhysicsTiles::Speedup(v)) => {
            assert_eq!((v[0].force, v[0].max_speed, v[0].angle), (50, 0, 90));
        }
        other => panic!("unexpected tiles {:?}", other),
    }
    match picker_tiles(&idx, Some(PhysKind::Switch), props()) {
        LayerTiles::Physics(PhysicsTiles::Switch(v)) => assert_eq!((v[0].number, v[0].delay), (5, 2)),
        other => panic!("unexpected tiles {:?}", other),
    }
    match picker_tiles(&idx, None, props()) {
        LayerTiles::Design(v) => assert_eq!(v, vec![t(1), t(2)]),
        other => panic!("unexpected tiles {:?}", other),
    }
}

#[test]
fn unused_tiles_are_detected() {
    let mut usage = all_drawn();
    usage.game[7] = false;
    let used = LayerTiles::Physics(PhysicsTiles::Game(vec![t(1), t(0)]));
    let unused = LayerTiles::Physics(PhysicsTiles::Game(vec![t(1), t(7)]));
    assert!(!has_unused_tiles(&used, &usage));
    assert!(has_unused_tiles(&unused, &usage));
    let mut pct = vec![100u8; 256];
    pct[9] = 0;
    usage.design = Some(pct);
    assert!(has_unused_tiles(&LayerTiles::Design(vec![t(9)]), &usage));
    assert!(!has_unused_tiles(&LayerTiles::Design(vec![t(0), t(8)]), &usage));
}

#[test]
fn selection_rect_is_clamped_to_layer() {
    assert_eq!(selection_rect(-1, 0, 2, 3, 4, 2), (0, 0, 2, 2));
    assert_eq!(selection_rect(1, 1, 3, 2, 10, 10), (1, 1, 2, 1));
}

#[test]
fn brush_from_design_layer_copies_rectangle() {
    let group = PhysicsGroup { width: 1, height: 1, layers: vec![] };
    let layer = DesignTileLayer { width: 3, height: 2, tiles: (0..6).map(t).collect() };
    let lref = TileLayerRef::Design { group_index: 0, layer_index: 0, is_background: false, layer: &layer };
    match brush_from_layer(&group, &lref, 1, 0, 2, 2) {
        LayerTiles::Design(v) => assert_eq!(v, vec![t(1), t(2), t(4), t(5)]),
        other => panic!("unexpected tiles {:?}", other),
    }
}

#[test]
fn delete_selection_clears_rectangle() {
    let group = PhysicsGroup { width: 1, height: 1, layers: vec![] };
    let layer = DesignTileLayer { width: 2, height: 1, tiles: vec![t(3), t(4)] };
    let lref = TileLayerRef::Design { group_index: 2, layer_index: 1, is_background: true, layer: &layer };
    let brush = LayerTiles::Design(vec![t(4)]);
    let actions = delete_selection_actions(&group, &lref, &brush, 1, 0, 1, 1);
    assert_eq!(actions.len(), 1);
    match &actions[0] {
        EditorAction::TileLayerReplaceTiles { old_tiles, new_tiles, x, group_index, .. } => {
            assert_eq!(old_tiles, &vec![t(4)]);
            assert_eq!(new_tiles, &vec![t(0)]);
            assert_eq!((*x, *group_index), (1, 2));
        }
        other => panic!("unexpected action {:?}", other),
    }
}

#[test]
fn offer_brush_takes_used_tiles() {
    let mut tb = tool(5);
    let notify = tb.offer_brush(LayerTiles::Design(vec![t(1)]), 1, 1, (0, 0), false);
    assert!(!notify);
    assert_eq!(tb.brush_id_counter, 6);
    let b = tb.brush.as_ref().expect("a brush");
    assert_eq!((b.w, b.h, b.negative_offset), (1, 1, (0, 0)));
}

#[test]
fn offer_brush_refuses_unused_tiles_and_tells_once() {
    let mut tb = tool(5);
    let first = tb.offer_brush(LayerTiles::Design(vec![t(1)]), 1, 1, (0, 0), true);
    assert!(first);
    assert!(tb.brush.is_none());
    assert_eq!(tb.showed_unused_id, Some(5));
    let second = tb.offer_brush(LayerTiles::Design(vec![t(1)]), 1, 1, (0, 0), true);
    assert!(!second);
    assert_eq!(tb.brush_id_counter, 5);
}

#[test]
fn offer_brush_allows_unused_when_asked() {
    let mut tb = tool(5);
    tb.allow_unused = true;
    let notify = tb.offer_brush(LayerTiles::Design(vec![t(1)]), 1, 1, (0, 0), true);
    assert!(!notify);
    assert!(tb.brush.is_some());
}

#[test]
fn select_from_picker_builds_brush() {
    let group = PhysicsGroup { width: 2, height: 2, layers: vec![PhysicsTiles::Game(vec![t(0); 4])] };
    let lref = TileLayerRef::Physics { layer_index: 0 };
    let mut tb = tool(0);
    let out = tb.handle_brush_select(
        &group,
        &lref,
        SelectSource::Picker { x0: 1, y0: 0, x1: 2, y1: 0 },
        props(),
        &all_drawn(),
        false,
        false,
    );
    assert!(!out.notify_unused);
    assert!(out.groups.is_empty());
    let b = tb.brush.as_ref().expect("a brush");
    assert_eq!((b.w, b.h), (2, 1));
    assert!(matches!(&b.tiles, LayerTiles::Physics(PhysicsTiles::Game(v)) if *v == vec![t(1), t(2)]));
    assert_eq!(tb.brush_id_counter, 1);
}

#[test]
fn select_from_layer_with_offsets() {
    let group = PhysicsGroup { width: 1, height: 1, layers: vec![] };
    let layer = DesignTileLayer { width: 3, height: 3, tiles: (0..9).map(t).collect() };
    let lref = TileLayerRef::Design { group_index: 0, layer_index: 0, is_background: false, layer: &layer };
    let mut tb = tool(0);
    let out = tb.handle_brush_select(
        &group,
        &lref,
        SelectSource::Layer { x0: 0, y0: 1, x1: 2, y1: 3, x_needs_offset: true, y_needs_offset: false },
        props(),
        &all_drawn(),
        false,
        false,
    );
    assert!(out.groups.is_empty());
    let b = tb.brush.as_ref().expect("a brush");
    assert_eq!((b.w, b.h, b.negative_offset), (2, 2, (1, 0)));
    assert!(matches!(&b.tiles, LayerTiles::Design(v) if *v == vec![t(3), t(4), t(6), t(7)]));
}

#[test]
fn shift_selection_release_clears_layer() {
    let group = PhysicsGroup { width: 1, height: 1, layers: vec![] };
    let layer = DesignTileLayer { width: 2, height: 1, tiles: vec![t(1), t(2)] };
    let lref = TileLayerRef::Design { group_index: 0, layer_index: 0, is_background: false, layer: &layer };
    let mut tb = tool(3);
    let out = tb.handle_brush_select(
        &group,
        &lref,
        SelectSource::Layer { x0: 0, y0: 0, x1: 2, y1: 1, x_needs_offset: false, y_needs_offset: false },
        props(),
        &all_drawn(),
        true,
        true,
    );
    assert!(tb.brush.is_none());
    assert_eq!(out.groups.len(), 1);
    assert_eq!(out.groups[0].identifier.map(|i| i.1), Some(4));
    match &out.groups[0].actions[0] {
        EditorAction::TileLayerReplaceTiles { old_tiles, new_tiles, .. } => {
            assert_eq!(old_tiles, &vec![t(1), t(2)]);
            assert_eq!(new_tiles, &vec![t(0), t(0)]);
        }
        other => panic!("unexpected action {:?}", other),
    }
}

#[test]
fn empty_layer_selection_drops_brush() {
    let group = PhysicsGroup { width: 1, height: 1, layers: vec![] };
    let layer = DesignTileLayer { width: 2, height: 2, tiles: vec![t(1); 4] };
    let lref = TileLayerRef::Design { group_index: 0, layer_index: 0, is_background: false, layer: &layer };
    let mut tb = tool(0);
    tb.offer_brush(LayerTiles::Design(vec![t(1)]), 1, 1, (0, 0), false);
    let out = tb.handle_brush_select(
        &group,
        &lref,
        SelectSource::Layer { x0: 5, y0: 0, x1: 6, y1: 1, x_needs_offset: false, y_needs_offset: false },
        props(),
        &all_drawn(),
        false,
        false,
    );
    assert!(tb.brush.is_none());
    assert!(out.groups.is_empty());
}

#[test]
fn picking_unused_tiles_notifies() {
    let group = PhysicsGroup { width: 1, height: 1, layers: vec![PhysicsTiles::Game(vec![t(0)])] };
    let lref = TileLayerRef::Physics { layer_index: 0 };
    let mut usage = all_drawn();
    usage.game[1] = false;
    let mut tb = tool(8);
    let out = tb.handle_brush_select(
        &group,
        &lref,
        SelectSource::Picker { x0: 1, y0: 0, x1: 1, y1: 0 },
        props(),
        &usage,
        false,
        false,
    );
    assert!(out.notify_unused);
    assert!(tb.brush.is_none());
    assert_eq!(tb.showed_unused_id, Some(8));
}

#[test]
fn pointer_press_records_selection_start() {
    let mut down: Option<TileBrushDown<(f32, f32)>> = None;
    assert!(select_pointer_step(&mut down, false, true, true, true, (1.0, 2.0)).is_none());
    let d = down.expect("recorded");
    assert_eq!((d.pos, d.shift), ((1.0, 2.0), true));
    let held = select_pointer_step(&mut down, false, true, false, false, (3.0, 3.0)).expect("selecting");
    assert!(!held.1);
    assert_eq!(held.0.pos, (1.0, 2.0));
    let released = select_pointer_step(&mut down, false, false, false, false, (3.0, 3.0)).expect("selecting");
    assert!(released.1 && released.0.shift);
    assert!(down.is_none());
    assert!(select_pointer_step(&mut down, true, true, true, false, (0.0, 0.0)).is_none());
    assert!(down.is_none());
}
