use editor::brush::{
    apply_brush_internal, apply_brush_repeating_internal, brush_hookthrough_cut,
    brush_tiles_match_layer, collect_phy_brush_tiles, design_brush_actions, fill_layer_actions,
    phy_brush_actions, TileBrushTiles,
};
use editor::layers::{
    DesignTileLayer, EditorAction, LayerTiles, PhysicsGroup, PhysicsTiles,
    TileBrushLastApply, TileBrushLastApplyLayer, TileLayerRef,
};
use editor::tiles::TileBase;

fn t(index: u8) -> TileBase {
    TileBase { index, flags: 0 }
}

fn empty_group() -> PhysicsGroup {
    PhysicsGroup { width: 1, height: 1, layers: vec![] }
}

fn design_brush(tiles: Vec<TileBase>, w: u16, h: u16) -> TileBrushTiles {
    TileBrushTiles { tiles: LayerTiles::Design(tiles), w, h, negative_offset: (0, 0) }
}

fn game_brush(tiles: Vec<TileBase>, w: u16, h: u16) -> TileBrushTiles {
    TileBrushTiles {
        tiles: LayerTiles::Physics(PhysicsTiles::Game(tiles)),
        w,
        h,
        negative_offset: (0, 0),
    }
}

fn design_replace(a: &EditorAction) -> (Vec<TileBase>, Vec<TileBase>, u16, u16, u16, u16) {
    match a {
        EditorAction::TileLayerReplaceTiles { old_tiles, new_tiles, x, y, w, h, .. } => {
            (old_tiles.clone(), new_tiles.clone(), *x, *y, *w, *h)
        }
        other => panic!("unexpected action {:?}", other),
    }
}

fn game_tiles(p: &PhysicsTiles) -> Vec<TileBase> {
    match p {
        PhysicsTiles::Game(v) => v.clone(),
        other => panic!("not game tiles {:?}", other),
    }
}

fn front_tiles(p: &PhysicsTiles) -> Vec<TileBase> {
    match p {
        PhysicsTiles::Front(v) => v.clone(),
        other => panic!("not front tiles {:?}", other),
    }
}

#[test]
fn apply_clips_brush_at_layer_corner() {
    let group = empty_group();
    let layer = DesignTileLayer { width: 4, height: 4, tiles: vec![t(0); 16] };
    let lref = TileLayerRef::Design {
        group_index: 1,
        layer_index: 2,
        is_background: false,
        layer: &layer,
    };
    let brush = design_brush(vec![t(1), t(2), t(3), t(4)], 2, 2);
    let mut last = None;
    let mut front = None;
    let g = apply_brush_internal(7, &group, &lref, &brush, &mut last, 3, 3, 0, 0, 2, 2, &mut front, true)
        .expect("the brush applies");
    assert_eq!(g.actions.len(), 1);
    let (old, new, x, y, w, h) = design_replace(&g.actions[0]);
    assert_eq!((x, y, w, h), (3, 3, 1, 1));
    assert_eq!(old, vec![t(0)]);
    assert_eq!(new, vec![t(1)]);
    let layer_id = TileBrushLastApplyLayer::Design { group_index: 1, layer_index: 2, is_background: false };
    assert_eq!(g.identifier, Some((layer_id, 7)));
    assert_eq!(last, Some(TileBrushLastApply { x: 3, y: 3, w: 1, h: 1, layer: layer_id }));
    assert_eq!(front, None);
}

#[test]
fn apply_clips_brush_left_of_layer() {
    let group = empty_group();
    let layer = DesignTileLayer { width: 4, height: 4, tiles: vec![t(0); 16] };
    let lref = TileLayerRef::Design {
        group_index: 0,
        layer_index: 0,
        is_background: true,
        layer: &layer,
    };
    let brush = design_brush(vec![t(1), t(2), t(3), t(4)], 2, 2);
    let mut last = None;
    let mut front = None;
    let g = apply_brush_internal(1, &group, &lref, &brush, &mut last, -1, 0, 0, 0, 2, 2, &mut front, true)
        .expect("the brush applies");
    let (_, new, x, y, w, h) = design_replace(&g.actions[0]);
    assert_eq!((x, y, w, h), (0, 0, 1, 2));
    assert_eq!(new, vec![t(2), t(4)]);
}

#[test]
fn apply_twice_at_same_spot_acts_once() {
    let group = empty_group();
    let layer = DesignTileLayer { width: 3, height: 3, tiles: vec![t(0); 9] };
    let lref = TileLayerRef::Design {
        group_index: 0,
        layer_index: 0,
        is_background: false,
        layer: &layer,
    };
    let brush = design_brush(vec![t(9)], 1, 1);
    let mut last = None;
    let mut front = None;
    let first = apply_brush_internal(3, &group, &lref, &brush, &mut last, 1, 1, 0, 0, 1, 1, &mut front, true);
    assert!(first.is_some());
    let second = apply_brush_internal(3, &group, &lref, &brush, &mut last, 1, 1, 0, 0, 1, 1, &mut front, true);
    assert!(second.is_none());
    let third = apply_brush_internal(3, &group, &lref, &brush, &mut last, 2, 1, 0, 0, 1, 1, &mut front, true);
    assert!(third.is_some());
}

#[test]
fn apply_outside_layer_does_nothing() {
    let group = empty_group();
    let layer = DesignTileLayer { width: 2, height: 2, tiles: vec![t(0); 4] };
    let lref = TileLayerRef::Design {
        group_index: 0,
        layer_index: 0,
        is_background: false,
        layer: &layer,
    };
    let brush = design_brush(vec![t(9)], 1, 1);
    let mut last = None;
    let mut front = None;
    let r = apply_brush_internal(0, &group, &lref, &brush, &mut last, -5, 0, 0, 0, 1, 1, &mut front, true);
    assert!(r.is_none());
    assert_eq!(last, None);
}

#[test]
fn apply_non_destructive_keeps_existing_tiles() {
    let group = empty_group();
    let layer = DesignTileLayer { width: 2, height: 1, tiles: vec![t(4), t(0)] };
    let lref = TileLayerRef::Design {
        group_index: 0,
        layer_index: 0,
        is_background: false,
        layer: &layer,
    };
    let brush = design_brush(vec![t(1), t(2)], 2, 1);
    let mut last = None;
    let mut front = None;
    let g = apply_brush_internal(0, &group, &lref, &brush, &mut last, 0, 0, 0, 0, 2, 1, &mut front, false)
        .expect("the brush applies");
    let (old, new, _, _, _, _) = design_replace(&g.actions[0]);
    assert_eq!(old, vec![t(4), t(0)]);
    assert_eq!(new, vec![t(4), t(2)]);
}

#[test]
fn apply_design_brush_on_physics_layer_refused() {
    let group = PhysicsGroup {
        width: 2,
        height: 1,
        layers: vec![PhysicsTiles::Game(vec![t(0), t(0)])],
    };
    let lref = TileLayerRef::Physics { layer_index: 0 };
    let brush = design_brush(vec![t(1)], 1, 1);
    let mut last = None;
    let mut front = None;
    let r = apply_brush_internal(0, &group, &lref, &brush, &mut last, 0, 0, 0, 0, 1, 1, &mut front, true);
    assert!(r.is_none());
    assert!(!brush_tiles_match_layer(&brush.tiles, &lref, &group));
}

#[test]
fn game_paste_with_cut_updates_front_layer() {
    let group = PhysicsGroup {
        width: 3,
        height: 1,
        layers: vec![
            PhysicsTiles::Game(vec![t(0), t(0), t(0)]),
            PhysicsTiles::Front(vec![t(0), t(0), t(0)]),
        ],
    };
    let lref = TileLayerRef::Physics { layer_index: 0 };
    let brush = game_brush(vec![t(5), t(1)], 2, 1);
    let mut last = None;
    let mut front = None;
    let g = apply_brush_internal(2, &group, &lref, &brush, &mut last, 0, 0, 0, 0, 2, 1, &mut front, true)
        .expect("the brush applies");
    assert_eq!(g.actions.len(), 2);
    match &g.actions[0] {
        EditorAction::TilePhysicsLayerReplaceTiles { layer_index, old_tiles, new_tiles, x, y, w, h } => {
            assert_eq!(*layer_index, 1);
            assert_eq!(front_tiles(old_tiles), vec![t(0), t(0)]);
            assert_eq!(front_tiles(new_tiles), vec![t(5), t(0)]);
            assert_eq!((*x, *y, *w, *h), (0, 0, 2, 1));
        }
        other => panic!("unexpected action {:?}", other),
    }
    match &g.actions[1] {
        EditorAction::TilePhysicsLayerReplaceTiles { layer_index, old_tiles, new_tiles, .. } => {
            assert_eq!(*layer_index, 0);
            assert_eq!(game_tiles(old_tiles), vec![t(0), t(0)]);
            assert_eq!(game_tiles(new_tiles), vec![t(3), t(1)]);
        }
        other => panic!("unexpected action {:?}", other),
    }
}

#[test]
fn game_paste_with_cut_creates_front_layer() {
    let group = PhysicsGroup {
        width: 3,
        height: 1,
        layers: vec![PhysicsTiles::Game(vec![t(0), t(0), t(0)])],
    };
    let lref = TileLayerRef::Physics { layer_index: 0 };
    let brush = game_brush(vec![t(5), t(1)], 2, 1);
    let mut last = None;
    let mut front = None;
    let g = apply_brush_internal(2, &group, &lref, &brush, &mut last, 1, 0, 0, 0, 2, 1, &mut front, true)
        .expect("the brush applies");
    assert_eq!(g.actions.len(), 2);
    match &g.actions[0] {
        EditorAction::AddPhysicsTileLayer { index, tiles } => {
            assert_eq!(*index, 1);
            assert_eq!(tiles, &vec![t(0), t(5), t(0)]);
        }
        other => panic!("unexpected action {:?}", other),
    }
    match &g.actions[1] {
        EditorAction::TilePhysicsLayerReplaceTiles { new_tiles, x, .. } => {
            assert_eq!(*x, 1);
            assert_eq!(game_tiles(new_tiles), vec![t(3), t(1)]);
        }
        other => panic!("unexpected action {:?}", other),
    }
}

#[test]
fn phy_brush_actions_plain_replace() {
    let group = PhysicsGroup {
        width: 2,
        height: 1,
        layers: vec![PhysicsTiles::Game(vec![t(0), t(0)])],
    };
    let mut front = Some(false);
    let actions = phy_brush_actions(
        &group,
        PhysicsTiles::Game(vec![t(0), t(0)]),
        PhysicsTiles::Game(vec![t(1), t(2)]),
        0,
        2,
        0,
        1,
        0,
        &mut front,
    );
    assert_eq!(actions.len(), 1);
    match &actions[0] {
        EditorAction::TilePhysicsLayerReplaceTiles { new_tiles, .. } => {
            assert_eq!(game_tiles(new_tiles), vec![t(1), t(2)]);
        }
        other => panic!("unexpected action {:?}", other),
    }
    assert_eq!(front, Some(false));
}

#[test]
fn repeated_paste_marks_created_front_layer() {
    let group = PhysicsGroup {
        width: 2,
        height: 1,
        layers: vec![PhysicsTiles::Game(vec![t(0), t(0)])],
    };
    let mut front = Some(false);
    let actions = phy_brush_actions(
        &group,
        PhysicsTiles::Game(vec![t(0)]),
        PhysicsTiles::Game(vec![t(5)]),
        1,
        1,
        0,
        1,
        0,
        &mut front,
    );
    assert_eq!(actions.len(), 2);
    assert!(matches!(actions[0], EditorAction::AddPhysicsTileLayer { index: 1, .. }));
    assert_eq!(front, Some(true));
}

#[test]
fn design_brush_actions_single_replace() {
    let actions = design_brush_actions(vec![t(0)], vec![t(1)], true, 4, 5, 6, 7, 1, 1);
    assert_eq!(actions.len(), 1);
    match &actions[0] {
        EditorAction::TileLayerReplaceTiles {
            is_background,
            group_index,
            layer_index,
            old_tiles,
            new_tiles,
            x,
            y,
            w,
            h,
        } => {
            assert!(*is_background);
            assert_eq!((*group_index, *layer_index), (4, 5));
            assert_eq!(old_tiles, &vec![t(0)]);
            assert_eq!(new_tiles, &vec![t(1)]);
            assert_eq!((*x, *y, *w, *h), (6, 7, 1, 1));
        }
        other => panic!("unexpected action {:?}", other),
    }
}

#[test]
fn brush_matches_layer_kinds() {
    let group = PhysicsGroup {
        width: 1,
        height: 1,
        layers: vec![PhysicsTiles::Game(vec![t(0)]), PhysicsTiles::Front(vec![t(0)])],
    };
    let layer = DesignTileLayer { width: 1, height: 1, tiles: vec![t(0)] };
    let des = TileLayerRef::Design { group_index: 0, layer_index: 0, is_background: false, layer: &layer };
    let game = TileLayerRef::Physics { layer_index: 0 };
    let front = TileLayerRef::Physics { layer_index: 1 };
    let db = LayerTiles::Design(vec![t(1)]);
    let gb = LayerTiles::Physics(PhysicsTiles::Game(vec![t(1)]));
    assert!(brush_tiles_match_layer(&db, &des, &group));
    assert!(!brush_tiles_match_layer(&gb, &des, &group));
    assert!(brush_tiles_match_layer(&gb, &game, &group));
    assert!(!brush_tiles_match_layer(&gb, &front, &group));
}

#[test]
fn non_destructive_brush_keeps_cut_over_solid_front() {
    let group = PhysicsGroup {
        width: 2,
        height: 1,
        layers: vec![
            PhysicsTiles::Game(vec![t(0), t(0)]),
            PhysicsTiles::Front(vec![t(7), t(0)]),
        ],
    };
    let brush = game_brush(vec![t(5), t(1)], 2, 1);
    let old = PhysicsTiles::Game(vec![t(0), t(0)]);
    let r = collect_phy_brush_tiles(&brush, 0, 2, 0, 1, &group, &old, 0, 0, false);
    assert_eq!(game_tiles(&r), vec![t(0), t(1)]);
    let destructive = collect_phy_brush_tiles(&brush, 0, 2, 0, 1, &group, &old, 0, 0, true);
    assert_eq!(game_tiles(&destructive), vec![t(5), t(1)]);
}

#[test]
fn picked_unhookable_under_cut_becomes_cut() {
    let group = PhysicsGroup {
        width: 2,
        height: 1,
        layers: vec![
            PhysicsTiles::Game(vec![t(3), t(3)]),
            PhysicsTiles::Front(vec![t(5), t(0)]),
        ],
    };
    let mut tiles = LayerTiles::Physics(PhysicsTiles::Game(vec![t(3), t(3)]));
    brush_hookthrough_cut(&group, &mut tiles, 2, 2, 0, 0);
    match &tiles {
        LayerTiles::Physics(p) => assert_eq!(game_tiles(p), vec![t(5), t(3)]),
        other => panic!("unexpected tiles {:?}", other),
    }
}

#[test]
fn pick_then_paste_restores_unhookable_tile() {
    // the brush picked an unhookable tile under a cut as a cut; pasting it on
    // the game layer stores the unhookable tile again
    let group = PhysicsGroup {
        width: 1,
        height: 1,
        layers: vec![PhysicsTiles::Game(vec![t(3)]), PhysicsTiles::Front(vec![t(5)])],
    };
    let mut tiles = LayerTiles::Physics(PhysicsTiles::Game(vec![t(3)]));
    brush_hookthrough_cut(&group, &mut tiles, 1, 1, 0, 0);
    let brush = TileBrushTiles { tiles, w: 1, h: 1, negative_offset: (0, 0) };
    let lref = TileLayerRef::Physics { layer_index: 0 };
    let mut last = None;
    let mut front = None;
    let g = apply_brush_internal(0, &group, &lref, &brush, &mut last, 0, 0, 0, 0, 1, 1, &mut front, true)
        .expect("the brush applies");
    let replace = g.actions.last().expect("an action");
    match replace {
        EditorAction::TilePhysicsLayerReplaceTiles { layer_index, new_tiles, .. } => {
            assert_eq!(*layer_index, 0);
            assert_eq!(game_tiles(new_tiles), vec![t(3)]);
        }
        other => panic!("unexpected action {:?}", other),
    }
}

#[test]
fn repeating_paste_covers_area_with_brush_copies() {
    let group = empty_group();
    let layer = DesignTileLayer { width: 4, height: 1, tiles: vec![t(0); 4] };
    let lref = TileLayerRef::Design { group_index: 0, layer_index: 0, is_background: false, layer: &layer };
    let brush = design_brush(vec![t(1), t(2)], 2, 1);
    let mut last = None;
    let groups = apply_brush_repeating_internal(9, true, &brush, &mut last, &group, &lref, (0, 0), (0, 0), 4, 1);
    assert_eq!(groups.len(), 2);
    let (_, n0, x0, _, w0, _) = design_replace(&groups[0].actions[0]);
    let (_, n1, x1, _, w1, _) = design_replace(&groups[1].actions[0]);
    assert_eq!((x0, w0, n0), (0, 2, vec![t(1), t(2)]));
    assert_eq!((x1, w1, n1), (2, 2, vec![t(1), t(2)]));
    assert_eq!(last.map(|l| (l.x, l.y, l.w, l.h)), Some((2, 0, 2, 1)));
    assert!(groups.iter().all(|g| g.identifier.map(|i| i.1) == Some(9)));
}

#[test]
fn repeating_paste_starts_inside_brush() {
    let group = empty_group();
    let layer = DesignTileLayer { width: 3, height: 1, tiles: vec![t(0); 3] };
    let lref = TileLayerRef::Design { group_index: 0, layer_index: 0, is_background: false, layer: &layer };
    let brush = design_brush(vec![t(1), t(2)], 2, 1);
    let mut last = None;
    let groups = apply_brush_repeating_internal(0, true, &brush, &mut last, &group, &lref, (0, 0), (1, 0), 3, 1);
    let news: Vec<Vec<TileBase>> = groups.iter().map(|g| design_replace(&g.actions[0]).1).collect();
    assert_eq!(news, vec![vec![t(2)], vec![t(1), t(2)]]);
}

#[test]
fn fill_replaces_touching_region() {
    let group = empty_group();
    let tiles = vec![t(0), t(0), t(1), t(0), t(1), t(1), t(1), t(1), t(1)];
    let layer = DesignTileLayer { width: 3, height: 3, tiles };
    let lref = TileLayerRef::Design { group_index: 0, layer_index: 0, is_background: false, layer: &layer };
    let brush = design_brush(vec![t(9)], 1, 1);
    let actions = fill_layer_actions(&group, &lref, &brush, (0, 0));
    assert_eq!(actions.len(), 1);
    let (old, new, x, y, w, h) = design_replace(&actions[0]);
    assert_eq!((x, y, w, h), (0, 0, 2, 2));
    assert_eq!(old, vec![t(0), t(0), t(0), t(1)]);
    assert_eq!(new, vec![t(9), t(9), t(9), t(1)]);
}
