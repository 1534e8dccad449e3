use editor::hookthrough::hookthrough_cut;
use editor::layers::{EditorAction, PhysicsGroup, PhysicsTiles};
use editor::tiles::TileBase;

fn t(index: u8) -> TileBase {
    TileBase { index, flags: 0 }
}

#[test]
fn front_paste_moves_unhookable_tiles_with_cuts() {
    let group = PhysicsGroup {
        width: 2,
        height: 1,
        layers: vec![
            PhysicsTiles::Game(vec![t(3), t(1)]),
            PhysicsTiles::Front(vec![t(5), t(0)]),
        ],
    };
    let old = PhysicsTiles::Front(vec![t(5), t(0)]);
    let mut new = PhysicsTiles::Front(vec![t(0), t(5)]);
    let mut actions = Vec::new();
    let mut front = None;
    hookthrough_cut(&group, &old, &mut new, 0, 2, 0, 1, &mut actions, &mut front);
    assert_eq!(actions.len(), 1);
    match &actions[0] {
        EditorAction::TilePhysicsLayerReplaceTiles { layer_index, old_tiles, new_tiles, x, y, w, h } => {
            assert_eq!(*layer_index, 0);
            assert!(matches!(old_tiles, PhysicsTiles::Game(v) if *v == vec![t(3), t(1)]));
            assert!(matches!(new_tiles, PhysicsTiles::Game(v) if *v == vec![t(0), t(3)]));
            assert_eq!((*x, *y, *w, *h), (0, 0, 2, 1));
        }
        other => panic!("unexpected action {:?}", other),
    }
    assert!(matches!(&new, PhysicsTiles::Front(v) if *v == vec![t(0), t(5)]));
    assert_eq!(front, None);
}

#[test]
fn front_paste_without_cut_change_adds_nothing() {
    let group = PhysicsGroup {
        width: 2,
        height: 1,
        layers: vec![
            PhysicsTiles::Game(vec![t(1), t(1)]),
            PhysicsTiles::Front(vec![t(0), t(0)]),
        ],
    };
    let old = PhysicsTiles::Front(vec![t(0), t(0)]);
    let mut new = PhysicsTiles::Front(vec![t(2), t(0)]);
    let mut actions = Vec::new();
    let mut front = None;
    hookthrough_cut(&group, &old, &mut new, 0, 2, 0, 1, &mut actions, &mut front);
    assert!(actions.is_empty());
}

#[test]
fn game_paste_turns_cuts_into_unhookable_tiles() {
    let group = PhysicsGroup {
        width: 2,
        height: 1,
        layers: vec![PhysicsTiles::Game(vec![t(0), t(0)])],
    };
    let old = PhysicsTiles::Game(vec![t(0), t(0)]);
    let mut new = PhysicsTiles::Game(vec![TileBase { index: 5, flags: 2 }, t(1)]);
    let mut actions = Vec::new();
    let mut front = Some(false);
    hookthrough_cut(&group, &old, &mut new, 0, 2, 0, 1, &mut actions, &mut front);
    assert!(matches!(&new, PhysicsTiles::Game(v) if *v == vec![TileBase { index: 3, flags: 2 }, t(1)]));
    assert_eq!(actions.len(), 1);
    match &actions[0] {
        EditorAction::AddPhysicsTileLayer { index, tiles } => {
            assert_eq!(*index, 1);
            assert_eq!(tiles, &vec![t(5), t(0)]);
        }
        other => panic!("unexpected action {:?}", other),
    }
    assert_eq!(front, Some(true));
}

#[test]
fn repeated_game_paste_reuses_created_front_layer() {
    // a front layer was already created by this repeated paste: the cuts
    // go to the layer about to be added, no second layer is created
    let group = PhysicsGroup {
        width: 2,
        height: 1,
        layers: vec![PhysicsTiles::Game(vec![t(0), t(0)])],
    };
    let old = PhysicsTiles::Game(vec![t(0)]);
    let mut new = PhysicsTiles::Game(vec![t(5)]);
    let mut actions = Vec::new();
    let mut front = Some(true);
    hookthrough_cut(&group, &old, &mut new, 1, 1, 0, 1, &mut actions, &mut front);
    assert_eq!(actions.len(), 1);
    match &actions[0] {
        EditorAction::TilePhysicsLayerReplaceTiles { layer_index, old_tiles, new_tiles, x, .. } => {
            assert_eq!(*layer_index, 1);
            assert!(matches!(old_tiles, PhysicsTiles::Front(v) if *v == vec![t(0)]));
            assert!(matches!(new_tiles, PhysicsTiles::Front(v) if *v == vec![t(5)]));
            assert_eq!(*x, 1);
        }
        other => panic!("unexpected action {:?}", other),
    }
    assert_eq!(front, Some(true));
}
