use editor::layers::{
    collect_phy_tiles, first_of_kind_index, non_destructive_copy, non_destructive_copy_ex,
    DesignTileLayer, PhysKind, PhysicsGroup, PhysicsTiles, TileBrushLastApplyLayer,
    TileLayerRef,
};
use editor::tiles::{TeleTile, TileBase};

fn t(index: u8) -> TileBase {
    TileBase { index, flags: 0 }
}

#[test]
fn non_destructive_copy_keeps_solid_tiles() {
    let old = vec![t(0), t(1), t(0), t(2)];
    let mut new = vec![t(7), t(7), t(7), t(7)];
    non_destructive_copy(&old, &mut new);
    assert_eq!(new, vec![t(7), t(1), t(7), t(2)]);
}

#[test]
fn non_destructive_copy_ex_keeps_marked_cells() {
    let old = vec![t(0), t(1), t(0), t(0)];
    let mut new = vec![t(5), t(5), t(5), t(5)];
    let keep = vec![false, false, true, false];
    non_destructive_copy_ex(&old, &mut new, &keep);
    assert_eq!(new, vec![t(5), t(1), t(0), t(5)]);
}

#[test]
fn collect_phy_tiles_takes_game_rectangle() {
    let layer = PhysicsTiles::Game((0..6).map(t).collect());
    let r = collect_phy_tiles(&layer, 3, 1, 2, 0, 2);
    match r {
        PhysicsTiles::Game(v) => assert_eq!(v, vec![t(1), t(2), t(4), t(5)]),
        other => panic!("unexpected kind {:?}", other),
    }
}

#[test]
fn collect_phy_tiles_keeps_tele_numbers() {
    let tiles: Vec<TeleTile> = (0..4)
        .map(|i| TeleTile { base: t(i), number: 10 + i })
        .collect();
    let layer = PhysicsTiles::Tele(tiles);
    let r = collect_phy_tiles(&layer, 2, 1, 1, 0, 2);
    match r {
        PhysicsTiles::Tele(v) => {
            assert_eq!(v.len(), 2);
            assert_eq!(v[0].number, 11);
            assert_eq!(v[1].number, 13);
            assert_eq!(v[1].base, t(3));
        }
        other => panic!("unexpected kind {:?}", other),
    }
}

#[test]
fn first_of_kind_index_finds_first_layer() {
    let group = PhysicsGroup {
        width: 1,
        height: 1,
        layers: vec![
            PhysicsTiles::Game(vec![t(0)]),
            PhysicsTiles::Front(vec![t(0)]),
            PhysicsTiles::Front(vec![t(1)]),
        ],
    };
    assert_eq!(first_of_kind_index(&group, PhysKind::Game), Some(0));
    assert_eq!(first_of_kind_index(&group, PhysKind::Front), Some(1));
    assert_eq!(first_of_kind_index(&group, PhysKind::Tele), None);
}

#[test]
fn layer_ref_reports_size_and_identity() {
    let group = PhysicsGroup {
        width: 5,
        height: 4,
        layers: vec![PhysicsTiles::Game(vec![t(0); 20])],
    };
    let design = DesignTileLayer { width: 2, height: 3, tiles: vec![t(0); 6] };
    let phys = TileLayerRef::Physics { layer_index: 0 };
    let des = TileLayerRef::Design {
        group_index: 1,
        layer_index: 2,
        is_background: true,
        layer: &design,
    };
    assert_eq!(phys.get_width_and_height(&group), (5, 4));
    assert_eq!(des.get_width_and_height(&group), (2, 3));
    assert_eq!(
        phys.apply_layer_exec(),
        TileBrushLastApplyLayer::Physics { layer_index: 0 }
    );
    assert_eq!(
        des.apply_layer_exec(),
        TileBrushLastApplyLayer::Design { group_index: 1, layer_index: 2, is_background: true }
    );
    assert_eq!(phys.kind_exec(&group), Some(PhysKind::Game));
    assert_eq!(des.kind_exec(&group), None);
    assert_eq!(group.layers[0].kind(), PhysKind::Game);
}
