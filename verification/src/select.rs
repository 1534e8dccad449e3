//! Picking a brush: from the tile picker grid or from a rectangle of the
//! active layer, refusing tiles the layer's texture does not draw, and
//! clearing the picked rectangle when the selection was made with shift.
use vstd::prelude::*;

use crate::brush::{
    brush_hookthrough_cut, brush_hookthrough_spec, phy_brush_actions, phy_brush_actions_spec,
    EditorActionGroup, TileBrushTiles,
};
use crate::hookthrough::air;
use crate::layers::{
    actions_view, collect_phy_tiles, phys_collect_spec, EditorAction, EditorActionView,
    LayerTiles, LayerTilesView, PhysKind, PhysicsGroup, PhysicsTiles, PhysicsTilesView,
    TileLayerRef,
};
use crate::tiles::{
    collect_spec, collect_tiles, lemma_u16_product, SpeedupTile, SwitchTile, TeleTile, TileBase,
    TileKind, TuneTile,
};
use crate::tool::TileBrush;

verus! {

/// Tile numbers of the picker cells `x0..=x1` x `y0..=y1` of the 16 x 16
/// tile set, row by row.
pub open spec fn picker_indices_spec(x0: int, y0: int, x1: int, y1: int) -> Seq<u8> {
    let w = x1 + 1 - x0;
    let h = y1 + 1 - y0;
    Seq::new((w * h) as nat, |k: int| (x0 + k % w + (y0 + k / w) * 16) as u8)
}

/// The tile numbers of a rectangle of the tile picker, with its width and
/// height (zero when the rectangle is empty).
pub fn picker_indices(x0: usize, y0: usize, x1: usize, y1: usize) -> (r: (Vec<u8>, usize, usize))
    requires
        x1 < 16,
        y1 < 16,
        x0 <= x1 + 1,
        y0 <= y1 + 1,
    ensures
        r.1 == x1 + 1 - x0,
        r.2 == y1 + 1 - y0,
        r.0@ == picker_indices_spec(x0 as int, y0 as int, x1 as int, y1 as int),
{
    let w = x1 + 1 - x0;
    let h = y1 + 1 - y0;
    let ghost spec_r = picker_indices_spec(x0 as int, y0 as int, x1 as int, y1 as int);
    proof {
        assert(w * h <= 256) by (nonlinear_arith)
            requires w <= 16, h <= 16, 0 <= w, 0 <= h;
    }
    let n = w * h;
    let mut r: Vec<u8> = Vec::new();
    let mut k: usize = 0;
    while k < n
        invariant
            n == w * h,
            n <= 256,
            w == x1 + 1 - x0,
            h == y1 + 1 - y0,
            x1 < 16,
            y1 < 16,
            k <= n,
            r@.len() == k,
            spec_r == picker_indices_spec(x0 as int, y0 as int, x1 as int, y1 as int),
            forall|j: int| 0 <= j < k ==> r@[j] == spec_r[j],
        decreases n - k,
    {
        proof {
            assert(w > 0) by (nonlinear_arith)
                requires k < n, n == w * h, 0 <= h;
            crate::brush::lemma_rect_cell_bounds(k as int, w as int, x0 as int, y0 as int, 16, h as int, 16);
        }
        let v = x0 + k % w + (y0 + k / w) * 16;
        r.push(v as u8);
        k += 1;
    }
    assert(r@ =~= spec_r);
    (r, w, h)
}

/// Values the picked physics tiles carry besides their number.
#[derive(Clone, Copy, Debug)]
pub struct PickerProps {
    pub active_tele: u8,
    pub active_switch: u8,
    pub active_tune_zone: u8,
    pub speedup_force: u8,
    pub speedup_max_speed: u8,
    pub speedup_angle: i16,
    pub switch_delay: u8,
}

/// The tile with number `i` and no flags.
pub open spec fn plain(i: u8) -> TileBase {
    TileBase { index: i, flags: 0 }
}

/// Brush tiles made from picked tile numbers for a layer of the given kind
/// (`None`: a design layer).
pub open spec fn picker_tiles_spec(idx: Seq<u8>, kind: Option<PhysKind>, p: PickerProps) -> LayerTilesView {
    match kind {
        None => LayerTilesView::Design(idx.map_values(|i: u8| plain(i))),
        Some(PhysKind::Front) => LayerTilesView::Physics(
            PhysicsTilesView::Front(idx.map_values(|i: u8| plain(i))),
        ),
        Some(PhysKind::Tele) => LayerTilesView::Physics(
            PhysicsTilesView::Tele(
                idx.map_values(|i: u8| TeleTile { base: plain(i), number: p.active_tele }),
            ),
        ),
        Some(PhysKind::Speedup) => LayerTilesView::Physics(
            PhysicsTilesView::Speedup(
                idx.map_values(
                    |i: u8|
                        SpeedupTile {
                            base: plain(i),
                            force: p.speedup_force,
                            max_speed: p.speedup_max_speed,
                            angle: p.speedup_angle,
                        },
                ),
            ),
        ),
        Some(PhysKind::Switch) => LayerTilesView::Physics(
            PhysicsTilesView::Switch(
                idx.map_values(
                    |i: u8| SwitchTile { base: plain(i), number: p.active_switch, delay: p.switch_delay },
                ),
            ),
        ),
        Some(PhysKind::Tune) => LayerTilesView::Physics(
            PhysicsTilesView::Tune(
                idx.map_values(|i: u8| TuneTile { base: plain(i), number: p.active_tune_zone }),
            ),
        ),
        _ => LayerTilesView::Physics(PhysicsTilesView::Game(idx.map_values(|i: u8| plain(i)))),
    }
}

fn map_tiles<T: TileKind>(idx: &Vec<u8>, make: impl Fn(u8) -> T, Ghost(f): Ghost<spec_fn(u8) -> T>) -> (r: Vec<T>)
    requires
        forall|i: u8| #[trigger] make.requires((i,)),
        forall|i: u8, t: T| make.ensures((i,), t) ==> t == f(i),
    ensures
        r@ == idx@.map_values(f),
{
    let mut r: Vec<T> = Vec::new();
    let mut k: usize = 0;
    while k < idx.len()
        invariant
            k <= idx@.len(),
            r@.len() == k,
            forall|i: u8| #[trigger] make.requires((i,)),
            forall|i: u8, t: T| make.ensures((i,), t) ==> t == f(i),
            forall|j: int| 0 <= j < k ==> r@[j] == f(idx@[j]),
        decreases idx@.len() - k,
    {
        let t = make(idx[k]);
        r.push(t);
        k += 1;
    }
    assert(r@ =~= idx@.map_values(f));
    r
}

/// Brush tiles for the picked tile numbers.
pub fn picker_tiles(idx: &Vec<u8>, kind: Option<PhysKind>, p: PickerProps) -> (r: LayerTiles)
    requires
        kind != Some(PhysKind::Arbitrary),
    ensures
        r@ == picker_tiles_spec(idx@, kind, p),
{
    match kind {
        None => LayerTiles::Design(
            map_tiles(idx, |i: u8| -> (t: TileBase) ensures t == plain(i) { TileBase { index: i, flags: 0 } }, Ghost(|i: u8| plain(i))),
        ),
        Some(PhysKind::Front) => LayerTiles::Physics(
            PhysicsTiles::Front(
                map_tiles(idx, |i: u8| -> (t: TileBase) ensures t == plain(i) { TileBase { index: i, flags: 0 } }, Ghost(|i: u8| plain(i))),
            ),
        ),
        Some(PhysKind::Tele) => LayerTiles::Physics(
            PhysicsTiles::Tele(
                map_tiles(
                    idx,
                    |i: u8| -> (t: TeleTile)
                        ensures t == (TeleTile { base: plain(i), number: p.active_tele })
                    { TeleTile { base: TileBase { index: i, flags: 0 }, number: p.active_tele } },
                    Ghost(|i: u8| TeleTile { base: plain(i), number: p.active_tele }),
                ),
            ),
        ),
        Some(PhysKind::Speedup) => LayerTiles::Physics(
            PhysicsTiles::Speedup(
                map_tiles(
                    idx,
                    |i: u8| -> (t: SpeedupTile)
                        ensures t == (SpeedupTile {
                            base: plain(i),
                            force: p.speedup_force,
                            max_speed: p.speedup_max_speed,
                            angle: p.speedup_angle,
                        })
                    {
                        SpeedupTile {
                            base: TileBase { index: i, flags: 0 },
                            force: p.speedup_force,
                            max_speed: p.speedup_max_speed,
                            angle: p.speedup_angle,
                        }
                    },
                    Ghost(
                        |i: u8|
                            SpeedupTile {
                                base: plain(i),
                                force: p.speedup_force,
                                max_speed: p.speedup_max_speed,
                                angle: p.speedup_angle,
                            },
                    ),
                ),
            ),
        ),
        Some(PhysKind::Switch) => LayerTiles::Physics(
            PhysicsTiles::Switch(
                map_tiles(
                    idx,
                    |i: u8| -> (t: SwitchTile)
                        ensures t == (SwitchTile { base: plain(i), number: p.active_switch, delay: p.switch_delay })
                    {
                        SwitchTile {
                            base: TileBase { index: i, flags: 0 },
                            number: p.active_switch,
                            delay: p.switch_delay,
                        }
                    },
                    Ghost(|i: u8| SwitchTile { base: plain(i), number: p.active_switch, delay: p.switch_delay }),
                ),
            ),
        ),
        Some(PhysKind::Tune) => LayerTiles::Physics(
            PhysicsTiles::Tune(
                map_tiles(
                    idx,
                    |i: u8| -> (t: TuneTile)
                        ensures t == (TuneTile { base: plain(i), number: p.active_tune_zone })
                    { TuneTile { base: TileBase { index: i, flags: 0 }, number: p.active_tune_zone } },
                    Ghost(|i: u8| TuneTile { base: plain(i), number: p.active_tune_zone }),
                ),
            ),
        ),
        _ => LayerTiles::Physics(
            PhysicsTiles::Game(
                map_tiles(idx, |i: u8| -> (t: TileBase) ensures t == plain(i) { TileBase { index: i, flags: 0 } }, Ghost(|i: u8| plain(i))),
            ),
        ),
    }
}

/// Which tile numbers a layer's texture draws.
#[derive(Debug)]
pub struct TileUsage {
    /// Per tile number, the percentage of non-transparent pixels of the design
    /// layer's image; `None` when the layer has no image.
    pub design: Option<Vec<u8>>,
    pub game: Vec<bool>,
    pub front: Vec<bool>,
    pub tele: Vec<bool>,
    pub speedup: Vec<bool>,
    pub switch: Vec<bool>,
    pub tune: Vec<bool>,
}

impl TileUsage {
    /// Every table covers all 256 tile numbers.
    pub open spec fn wf(&self) -> bool {
        &&& self.design matches Some(d) ==> d@.len() >= 256
        &&& self.game@.len() >= 256
        &&& self.front@.len() >= 256
        &&& self.tele@.len() >= 256
        &&& self.speedup@.len() >= 256
        &&& self.switch@.len() >= 256
        &&& self.tune@.len() >= 256
    }
}

/// Some non-air tile has a number that the texture does not draw.
pub open spec fn unused_in<T: TileKind>(s: Seq<T>, drawn: Seq<bool>) -> bool {
    exists|k: int|
        0 <= k < s.len() && (#[trigger] s[k]).base_spec().index != 0 && !drawn[s[k].base_spec().index as int]
}

/// Some non-air design tile has a number whose image cell is fully transparent.
pub open spec fn unused_in_design(s: Seq<TileBase>, pct: Seq<u8>) -> bool {
    exists|k: int| 0 <= k < s.len() && (#[trigger] s[k]).index != 0 && pct[s[k].index as int] == 0
}

/// The brush holds tiles that the layer's texture does not draw.
pub open spec fn has_unused_spec(t: LayerTilesView, u: &TileUsage) -> bool {
    match t {
        LayerTilesView::Design(s) => match u.design {
            Some(p) => unused_in_design(s, p@),
            None => false,
        },
        LayerTilesView::Physics(PhysicsTilesView::Arbitrary(_)) => false,
        LayerTilesView::Physics(PhysicsTilesView::Game(s)) => unused_in(s, u.game@),
        LayerTilesView::Physics(PhysicsTilesView::Front(s)) => unused_in(s, u.front@),
        LayerTilesView::Physics(PhysicsTilesView::Tele(s)) => unused_in(s, u.tele@),
        LayerTilesView::Physics(PhysicsTilesView::Speedup(s)) => unused_in(s, u.speedup@),
        LayerTilesView::Physics(PhysicsTilesView::Switch(s)) => unused_in(s, u.switch@),
        LayerTilesView::Physics(PhysicsTilesView::Tune(s)) => unused_in(s, u.tune@),
    }
}

fn has_unused<T: TileKind>(tiles: &Vec<T>, drawn: &Vec<bool>) -> (r: bool)
    requires
        drawn@.len() >= 256,
    ensures
        r == unused_in(tiles@, drawn@),
{
    let mut k: usize = 0;
    while k < tiles.len()
        invariant
            k <= tiles@.len(),
            drawn@.len() >= 256,
            forall|j: int|
                0 <= j < k ==> !((#[trigger] tiles@[j]).base_spec().index != 0
                    && !drawn@[tiles@[j].base_spec().index as int]),
        decreases tiles@.len() - k,
    {
        let index = tiles[k].base().index;
        if index != 0 && !drawn[index as usize] {
            assert((tiles@[k as int]).base_spec().index != 0 && !drawn@[tiles@[k as int].base_spec().index as int]);
            return true;
        }
        k += 1;
    }
    false
}

/// Whether the tiles hold a number the layer's texture does not draw.
pub fn has_unused_tiles(tiles: &LayerTiles, usage: &TileUsage) -> (r: bool)
    requires
        usage.wf(),
    ensures
        r == has_unused_spec(tiles@, usage),
{
    match tiles {
        LayerTiles::Design(s) => match &usage.design {
            Some(pct) => {
                let mut k: usize = 0;
                while k < s.len()
                    invariant
                        k <= s@.len(),
                        pct@.len() >= 256,
                        usage.design == Some(*pct),
                        tiles@ == LayerTilesView::Design(s@),
                        forall|j: int|
                            0 <= j < k ==> !((#[trigger] s@[j]).index != 0 && pct@[s@[j].index as int]
                                == 0),
                    decreases s@.len() - k,
                {
                    let index = s[k].index;
                    if index != 0 && pct[index as usize] == 0 {
                        assert((s@[k as int]).index != 0 && pct@[s@[k as int].index as int] == 0);
                        return true;
                    }
                    k += 1;
                }
                false
            },
            None => false,
        },
        LayerTiles::Physics(p) => match p {
            PhysicsTiles::Arbitrary(_) => false,
            PhysicsTiles::Game(t) => has_unused(t, &usage.game),
            PhysicsTiles::Front(t) => has_unused(t, &usage.front),
            PhysicsTiles::Tele(t) => has_unused(t, &usage.tele),
            PhysicsTiles::Speedup(t) => has_unused(t, &usage.speedup),
            PhysicsTiles::Switch(t) => has_unused(t, &usage.switch),
            PhysicsTiles::Tune(t) => has_unused(t, &usage.tune),
        },
    }
}

/// `v` clamped to `0..=hi`.
pub open spec fn clamp_to(v: int, hi: int) -> int {
    if v < 0 {
        0
    } else if v > hi {
        hi
    } else {
        v
    }
}

/// Tile rectangle selected on a layer from tile `x0, y0` (rounded down) to
/// tile edge `x1, y1` (rounded up), clamped to the layer: left, top, width,
/// height.
pub fn selection_rect(x0: i32, y0: i32, x1: i32, y1: i32, lw: u16, lh: u16) -> (r: (u16, u16, u16, u16))
    requires
        x0 <= x1,
        y0 <= y1,
    ensures
        r.0 == clamp_to(x0 as int, lw as int),
        r.1 == clamp_to(y0 as int, lh as int),
        r.2 == clamp_to(x1 as int, lw as int) - clamp_to(x0 as int, lw as int),
        r.3 == clamp_to(y1 as int, lh as int) - clamp_to(y0 as int, lh as int),
{
    let cx0 = clamp_u16(x0, lw);
    let cy0 = clamp_u16(y0, lh);
    let cx1 = clamp_u16(x1, lw);
    let cy1 = clamp_u16(y1, lh);
    (cx0, cy0, cx1 - cx0, cy1 - cy0)
}

fn clamp_u16(v: i32, hi: u16) -> (r: u16)
    ensures
        r == clamp_to(v as int, hi as int),
{
    if v < 0 {
        0
    } else if v > hi as i32 {
        hi
    } else {
        v as u16
    }
}

/// Brush tiles copied out of the rectangle at (`x`, `y`) of a layer.
pub open spec fn layer_rect_spec(
    group: &PhysicsGroup,
    layer: TileLayerRef,
    x: nat,
    y: nat,
    cw: nat,
    ch: nat,
) -> LayerTilesView {
    match layer {
        TileLayerRef::Physics { layer_index } => brush_hookthrough_spec(
            LayerTilesView::Physics(
                phys_collect_spec(group.layers@[layer_index as int]@, group.width as nat, x, cw, y, ch),
            ),
            group.layers_view(),
            group.width as nat,
            cw,
            x,
            y,
        ),
        TileLayerRef::Design { layer, .. } => LayerTilesView::Design(
            collect_spec(layer.tiles@, layer.width as nat, x, cw, y, ch),
        ),
    }
}

/// Copies the rectangle at (`x`, `y`) of the layer into brush tiles; picked
/// game tiles under a front cut become cuts.
pub fn brush_from_layer(
    group: &PhysicsGroup,
    layer: &TileLayerRef,
    x: u16,
    y: u16,
    cw: u16,
    ch: u16,
) -> (r: LayerTiles)
    requires
        layer.wf(group),
        layer matches TileLayerRef::Physics { layer_index } ==> group.layers@[layer_index as int]@.kind()
            != PhysKind::Arbitrary,
        cw > 0,
        ch > 0,
        x + cw <= layer.dims(group).0,
        y + ch <= layer.dims(group).1,
    ensures
        r@ == layer_rect_spec(group, *layer, x as nat, y as nat, cw as nat, ch as nat),
        r@.len() == cw * ch,
{
    match layer {
        TileLayerRef::Physics { layer_index } => {
            proof {
                crate::hookthrough::lemma_rect_len(
                    group.width as int,
                    group.height as int,
                    x as int,
                    cw as int,
                    y as int,
                    ch as int,
                );
                crate::tiles::lemma_join_index(ch as int, 0, cw as int);
                assert(ch * cw == cw * ch) by (nonlinear_arith);
            }
            let p = collect_phy_tiles(
                &group.layers[*layer_index],
                group.width,
                x as usize,
                cw as usize,
                y as usize,
                ch as usize,
            );
            let mut tiles = LayerTiles::Physics(p);
            brush_hookthrough_cut(group, &mut tiles, group.width, cw, x, y);
            tiles
        },
        TileLayerRef::Design { layer: design, .. } => {
            proof {
                crate::hookthrough::lemma_rect_len(
                    design.width as int,
                    design.height as int,
                    x as int,
                    cw as int,
                    y as int,
                    ch as int,
                );
            }
            LayerTiles::Design(
                collect_tiles(
                    &design.tiles,
                    design.width as usize,
                    x as usize,
                    cw as usize,
                    y as usize,
                    ch as usize,
                ),
            )
        },
    }
}

/// An empty rectangle of `n` tiles of the brush's physics kind.
pub open spec fn empty_like(t: LayerTilesView, n: nat) -> PhysicsTilesView {
    match crate::brush::brush_phys(t) {
        PhysicsTilesView::Game(_) => PhysicsTilesView::Game(Seq::new(n, |i: int| air())),
        PhysicsTilesView::Front(_) => PhysicsTilesView::Front(Seq::new(n, |i: int| air())),
        PhysicsTilesView::Tele(_) => PhysicsTilesView::Tele(Seq::new(n, |i: int| TeleTile::empty_spec())),
        PhysicsTilesView::Speedup(_) => PhysicsTilesView::Speedup(
            Seq::new(n, |i: int| SpeedupTile::empty_spec()),
        ),
        PhysicsTilesView::Switch(_) => PhysicsTilesView::Switch(
            Seq::new(n, |i: int| SwitchTile::empty_spec()),
        ),
        PhysicsTilesView::Tune(_) => PhysicsTilesView::Tune(Seq::new(n, |i: int| TuneTile::empty_spec())),
        PhysicsTilesView::Arbitrary(_) => PhysicsTilesView::Arbitrary(Seq::empty()),
    }
}

fn empty_vec<T: TileKind>(n: usize) -> (r: Vec<T>)
    ensures
        r@ == Seq::new(n as nat, |i: int| T::empty_spec()),
{
    let mut r: Vec<T> = Vec::new();
    while r.len() < n
        invariant
            r@.len() <= n,
            forall|k: int| 0 <= k < r@.len() ==> r@[k] == T::empty_spec(),
        decreases n - r@.len(),
    {
        r.push(T::empty());
    }
    assert(r@ =~= Seq::new(n as nat, |i: int| T::empty_spec()));
    r
}

/// The actions that clear the rectangle at (`x`, `y`) of the layer.
pub open spec fn delete_actions_spec(
    group: &PhysicsGroup,
    layer: TileLayerRef,
    brush_tiles: LayerTilesView,
    x: u16,
    y: u16,
    bw: u16,
    bh: u16,
) -> Seq<EditorActionView> {
    match layer {
        TileLayerRef::Physics { layer_index } => phy_brush_actions_spec(
            group.layers_view(),
            group.width as nat,
            group.height as nat,
            phys_collect_spec(
                group.layers@[layer_index as int]@,
                group.width as nat,
                x as nat,
                bw as nat,
                y as nat,
                bh as nat,
            ),
            empty_like(brush_tiles, (bw * bh) as nat),
            x,
            bw,
            y,
            bh,
            layer_index,
            None,
        ),
        TileLayerRef::Design { group_index, layer_index, is_background, layer } => seq![
            EditorActionView::TileLayerReplaceTiles {
                is_background,
                group_index,
                layer_index,
                old_tiles: collect_spec(
                    layer.tiles@,
                    layer.width as nat,
                    x as nat,
                    bw as nat,
                    y as nat,
                    bh as nat,
                ),
                new_tiles: Seq::new((bw * bh) as nat, |i: int| air()),
                x,
                y,
                w: bw,
                h: bh,
            },
        ],
    }
}

/// Clears the `bw` x `bh` rectangle at (`x`, `y`) of the layer (the tiles a
/// shift-selection picked up).
pub fn delete_selection_actions(
    group: &PhysicsGroup,
    layer: &TileLayerRef,
    brush_tiles: &LayerTiles,
    x: u16,
    y: u16,
    bw: u16,
    bh: u16,
) -> (r: Vec<EditorAction>)
    requires
        layer.wf(group),
        bw > 0,
        bh > 0,
        x + bw <= layer.dims(group).0,
        y + bh <= layer.dims(group).1,
        layer matches TileLayerRef::Physics { layer_index } ==> {
            &&& group.layers@[layer_index as int]@.kind() != PhysKind::Arbitrary
            &&& brush_tiles@ is Physics
            &&& crate::brush::brush_phys(brush_tiles@).kind() != PhysKind::Arbitrary
        },
    ensures
        actions_view(r@) == delete_actions_spec(group, *layer, brush_tiles@, x, y, bw, bh),
{
    proof {
        lemma_u16_product(bw as int, bh as int);
    }
    let n = bw as usize * bh as usize;
    match layer {
        TileLayerRef::Physics { layer_index } => {
            proof {
                crate::hookthrough::lemma_rect_len(
                    group.width as int,
                    group.height as int,
                    x as int,
                    bw as int,
                    y as int,
                    bh as int,
                );
            }
            let old_tiles = collect_phy_tiles(
                &group.layers[*layer_index],
                group.width,
                x as usize,
                bw as usize,
                y as usize,
                bh as usize,
            );
            let new_tiles = match brush_tiles {
                LayerTiles::Physics(PhysicsTiles::Game(_)) => PhysicsTiles::Game(empty_vec(n)),
                LayerTiles::Physics(PhysicsTiles::Front(_)) => PhysicsTiles::Front(empty_vec(n)),
                LayerTiles::Physics(PhysicsTiles::Tele(_)) => PhysicsTiles::Tele(empty_vec(n)),
                LayerTiles::Physics(PhysicsTiles::Speedup(_)) => PhysicsTiles::Speedup(empty_vec(n)),
                LayerTiles::Physics(PhysicsTiles::Switch(_)) => PhysicsTiles::Switch(empty_vec(n)),
                LayerTiles::Physics(PhysicsTiles::Tune(_)) => PhysicsTiles::Tune(empty_vec(n)),
                _ => {
                    proof {
                        assert(false);
                    }
                    return Vec::new();
                },
            };
            proof {
                assert(Seq::new(n as nat, |i: int| TileBase::empty_spec()) =~= Seq::new(n as nat, |i: int| air()));
                assert(new_tiles@ == empty_like(brush_tiles@, (bw * bh) as nat));
            }
            let mut flag: Option<bool> = None;
            phy_brush_actions(group, old_tiles, new_tiles, x, bw, y, bh, *layer_index, &mut flag)
        },
        TileLayerRef::Design { group_index, layer_index, is_background, layer: design } => {
            let old_tiles = collect_tiles(
                &design.tiles,
                design.width as usize,
                x as usize,
                bw as usize,
                y as usize,
                bh as usize,
            );
            let new_tiles: Vec<TileBase> = empty_vec(n);
            proof {
                assert(Seq::new(n as nat, |i: int| TileBase::empty_spec()) =~= Seq::new(n as nat, |i: int| air()));
            }
            crate::brush::design_brush_actions(
                old_tiles,
                new_tiles,
                *is_background,
                *group_index,
                *layer_index,
                x,
                y,
                bw,
                bh,
            )
        },
    }
}

impl TileBrush {
    /// Takes `tiles` as the new brush, unless it holds tiles the texture does
    /// not draw and unused tiles are not allowed: then the brush is dropped, and
    /// the user is told once per brush id. Returns whether to tell the user.
    pub fn offer_brush(
        &mut self,
        tiles: LayerTiles,
        w: u16,
        h: u16,
        negative_offset: (u16, u16),
        unused: bool,
    ) -> (notify: bool)
        requires
            old(self).brush_id_counter < u128::MAX,
        ensures
            final(self).destructive == old(self).destructive,
            final(self).allow_unused == old(self).allow_unused,
            final(self).shift_pointer_down == old(self).shift_pointer_down,
            if !old(self).allow_unused && unused {
                &&& final(self).brush is None
                &&& notify == (old(self).showed_unused_id != Some(old(self).brush_id_counter))
                &&& final(self).showed_unused_id == Some(old(self).brush_id_counter)
                &&& final(self).brush_id_counter == old(self).brush_id_counter
                &&& final(self).last_apply == old(self).last_apply
            } else {
                &&& !notify
                &&& final(self).brush matches Some(b) && b.tiles@ == tiles@ && b.w == w && b.h == h
                    && b.negative_offset == negative_offset
                &&& final(self).brush_id_counter == old(self).brush_id_counter + 1
                &&& final(self).last_apply is None
                &&& final(self).showed_unused_id == old(self).showed_unused_id
            },
    {
        if !self.allow_unused && unused {
            self.brush = None;
            let id = self.brush_id_counter;
            let notify = match self.showed_unused_id {
                Some(shown) => shown != id,
                None => true,
            };
            if notify {
                self.showed_unused_id = Some(id);
            }
            notify
        } else {
            self.brush_id_counter = self.brush_id_counter + 1;
            self.brush = Some(TileBrushTiles { tiles, w, h, negative_offset });
            self.last_apply = None;
            false
        }
    }
}

/// Where the primary button went down to start a brush selection, and
/// whether shift was held then; `P` is the pointer position (in the world
/// and on screen).
#[derive(Clone, Copy, Debug)]
pub struct TileBrushDown<P> {
    pub pos: P,
    pub shift: bool,
}

/// The pointer part of a frame of picking a brush. While a selection is
/// held (`down` is set), the frame returns it together with whether the
/// primary button was let go (ctrl counts as let go), and a release forgets
/// it; otherwise a primary press without ctrl records where it went down
/// and whether shift was held, and nothing comes back.
pub fn select_pointer_step<P: Copy>(
    down: &mut Option<TileBrushDown<P>>,
    ctrl: bool,
    primary_down: bool,
    primary_pressed: bool,
    shift: bool,
    pos: P,
) -> (r: Option<(TileBrushDown<P>, bool)>)
    ensures
        match *old(down) {
            Some(d) => {
                &&& r == Some((d, !(!ctrl && primary_down)))
                &&& *final(down) == if !ctrl && primary_down {
                    Some(d)
                } else {
                    None::<TileBrushDown<P>>
                }
            },
            None => {
                &&& r is None
                &&& *final(down) == if !ctrl && primary_pressed {
                    Some(TileBrushDown { pos, shift })
                } else {
                    None::<TileBrushDown<P>>
                }
            },
        },
{
    let allowed_down = !ctrl && primary_down;
    let allowed_pressed = !ctrl && primary_pressed;
    match *down {
        Some(d) => {
            if !allowed_down {
                *down = None;
            }
            Some((d, !allowed_down))
        },
        None => {
            if allowed_pressed {
                *down = Some(TileBrushDown { pos, shift });
            }
            None
        },
    }
}

/// Where a brush selection comes from.
#[derive(Clone, Copy, Debug)]
#[allow(inconsistent_fields)]
pub enum SelectSource {
    /// Cells `x0..=x1` x `y0..=y1` of the 16 x 16 tile picker.
    Picker { x0: usize, y0: usize, x1: usize, y1: usize },
    /// Layer tiles from tile (`x0`, `y0`) (rounded down) to tile edge
    /// (`x1`, `y1`) (rounded up); the offsets tell whether the drag went
    /// towards larger x (y), so that the pointer holds the brush by its
    /// far corner.
    Layer { x0: i32, y0: i32, x1: i32, y1: i32, x_needs_offset: bool, y_needs_offset: bool },
}

/// What a selection step asks of the caller.
#[derive(Debug)]
pub struct SelectOutcome {
    /// Tell the user that unused tiles cannot be used.
    pub notify_unused: bool,
    /// Action groups to execute, in order.
    pub groups: Vec<EditorActionGroup>,
}

/// The state after `offer_brush` refused the brush.
pub open spec fn refused(old: &TileBrush, new: &TileBrush, notify: bool) -> bool {
    &&& new.brush is None
    &&& notify == (old.showed_unused_id != Some(old.brush_id_counter))
    &&& new.showed_unused_id == Some(old.brush_id_counter)
    &&& new.brush_id_counter == old.brush_id_counter
    &&& new.last_apply == old.last_apply
}

/// The state after `offer_brush` took the brush.
pub open spec fn taken(
    old: &TileBrush,
    new: &TileBrush,
    t: LayerTilesView,
    w: u16,
    h: u16,
    neg: (u16, u16),
) -> bool {
    &&& new.brush matches Some(b) && b.tiles@ == t && b.w == w && b.h == h && b.negative_offset == neg
    &&& new.brush_id_counter == old.brush_id_counter + 1
    &&& new.last_apply is None
    &&& new.showed_unused_id == old.showed_unused_id
}

/// The tiles selected with `source` fit the brush tool.
pub open spec fn select_ok(
    state: &TileBrush,
    group: &PhysicsGroup,
    layer: TileLayerRef,
    source: SelectSource,
    usage: &TileUsage,
) -> bool {
    &&& layer.wf(group)
    &&& layer matches TileLayerRef::Physics { layer_index } ==> group.layers@[layer_index as int]@.kind()
        != PhysKind::Arbitrary
    &&& usage.wf()
    &&& state.brush_id_counter < u128::MAX
    &&& match source {
        SelectSource::Picker { x0, y0, x1, y1 } => x1 < 16 && y1 < 16 && x0 <= x1 + 1 && y0 <= y1 + 1,
        SelectSource::Layer { x0, y0, x1, y1, .. } => x0 <= x1 && y0 <= y1,
    }
}

impl TileBrush {
    /// One step of picking a brush while the pointer is held (`release`: it
    /// was let go this frame): the picked tiles become the brush (see
    /// `offer_brush`); a selection on the layer that was started with shift
    /// also clears the selected rectangle when released.
    pub fn handle_brush_select(
        &mut self,
        group: &PhysicsGroup,
        layer: &TileLayerRef,
        source: SelectSource,
        props: PickerProps,
        usage: &TileUsage,
        release: bool,
        shift_at_down: bool,
    ) -> (r: SelectOutcome)
        requires
            select_ok(old(self), group, *layer, source, usage),
        ensures
            final(self).destructive == old(self).destructive,
            final(self).allow_unused == old(self).allow_unused,
            final(self).shift_pointer_down == old(self).shift_pointer_down,
            match source {
                SelectSource::Picker { x0, y0, x1, y1 } => {
                    let idx = picker_indices_spec(x0 as int, y0 as int, x1 as int, y1 as int);
                    let t = picker_tiles_spec(idx, crate::brush::layer_kind(*layer, group), props);
                    &&& r.groups@.len() == 0
                    &&& if idx.len() == 0 {
                        &&& final(self).brush == old(self).brush
                        &&& final(self).brush_id_counter == old(self).brush_id_counter
                        &&& final(self).last_apply == old(self).last_apply
                        &&& final(self).showed_unused_id == old(self).showed_unused_id
                        &&& !r.notify_unused
                    } else if !old(self).allow_unused && has_unused_spec(t, usage) {
                        refused(old(self), final(self), r.notify_unused)
                    } else {
                        &&& !r.notify_unused
                        &&& taken(
                            old(self),
                            final(self),
                            t,
                            (x1 + 1 - x0) as u16,
                            (y1 + 1 - y0) as u16,
                            (0, 0),
                        )
                    }
                },
                SelectSource::Layer { x0, y0, x1, y1, x_needs_offset, y_needs_offset } => {
                    let (lw, lh) = layer.dims(group);
                    let x = clamp_to(x0 as int, lw as int);
                    let y = clamp_to(y0 as int, lh as int);
                    let cw = clamp_to(x1 as int, lw as int) - x;
                    let ch = clamp_to(y1 as int, lh as int) - y;
                    let t = layer_rect_spec(group, *layer, x as nat, y as nat, cw as nat, ch as nat);
                    if cw == 0 || ch == 0 {
                        &&& final(self).brush is None
                        &&& !r.notify_unused
                        &&& r.groups@.len() == 0
                        &&& final(self).brush_id_counter == old(self).brush_id_counter
                        &&& final(self).last_apply == old(self).last_apply
                        &&& final(self).showed_unused_id == old(self).showed_unused_id
                    } else if !old(self).allow_unused && has_unused_spec(t, usage) {
                        &&& refused(old(self), final(self), r.notify_unused)
                        &&& r.groups@.len() == 0
                    } else {
                        let neg = (
                            if x_needs_offset {
                                (cw - 1) as u16
                            } else {
                                0u16
                            },
                            if y_needs_offset {
                                (ch - 1) as u16
                            } else {
                                0u16
                            },
                        );
                        &&& !r.notify_unused
                        &&& final(self).brush_id_counter == old(self).brush_id_counter + 1
                        &&& final(self).last_apply is None
                        &&& final(self).showed_unused_id == old(self).showed_unused_id
                        &&& if release && shift_at_down {
                            &&& final(self).brush is None
                            &&& r.groups@.len() == 1
                            &&& actions_view(r.groups@[0].actions@) == delete_actions_spec(
                                group,
                                *layer,
                                t,
                                x as u16,
                                y as u16,
                                cw as u16,
                                ch as u16,
                            )
                            &&& r.groups@[0].identifier == Some(
                                (layer.apply_layer(), (old(self).brush_id_counter + 1) as u128),
                            )
                        } else {
                            &&& r.groups@.len() == 0
                            &&& taken(old(self), final(self), t, cw as u16, ch as u16, neg)
                        }
                    }
                },
            },
    {
        let mut groups: Vec<EditorActionGroup> = Vec::new();
        let mut notify = false;
        match source {
            SelectSource::Picker { x0, y0, x1, y1 } => {
                let (idx, w, h) = picker_indices(x0, y0, x1, y1);
                if idx.len() > 0 {
                    let kind = layer.kind_exec(group);
                    let tiles = picker_tiles(&idx, kind, props);
                    let unused = has_unused_tiles(&tiles, usage);
                    notify = self.offer_brush(tiles, w as u16, h as u16, (0, 0), unused);
                }
            },
            SelectSource::Layer { x0, y0, x1, y1, x_needs_offset, y_needs_offset } => {
                let (lw, lh) = layer.get_width_and_height(group);
                let (x, y, cw, ch) = selection_rect(x0, y0, x1, y1, lw, lh);
                if cw > 0 && ch > 0 {
                    let tiles = brush_from_layer(group, layer, x, y, cw, ch);
                    let unused = has_unused_tiles(&tiles, usage);
                    let neg = (
                        if x_needs_offset {
                            cw - 1
                        } else {
                            0
                        },
                        if y_needs_offset {
                            ch - 1
                        } else {
                            0
                        },
                    );
                    notify = self.offer_brush(tiles, cw, ch, neg, unused);
                } else {
                    self.brush = None;
                }
                if release {
                    if shift_at_down {
                        match &self.brush {
                            Some(b) => {
                                let actions = delete_selection_actions(
                                    group,
                                    layer,
                                    &b.tiles,
                                    x,
                                    y,
                                    b.w,
                                    b.h,
                                );
                                groups.push(
                                    EditorActionGroup {
                                        actions,
                                        identifier: Some(
                                            (layer.apply_layer_exec(), self.brush_id_counter),
                                        ),
                                    },
                                );
                            },
                            None => {},
                        }
                        self.brush = None;
                    }
                }
            },
        }
        SelectOutcome { notify_unused: notify, groups }
    }
}

} // verus!
