//! The tile brush: what it copies out of a layer, what it pastes, and the
//! hook-through cut bookkeeping between the game and the front layer.
use vstd::prelude::*;

use crate::hookthrough::{hook_actions, hook_flag, hook_new_tiles, hookthrough_cut, lemma_rect_len};
use crate::layers::{
    TileBrushLastApply, TileBrushLastApplyLayer, TileLayerRef,
    actions_view, collect_phy_tiles, first_of_kind, first_of_kind_index, no_keep,
    non_destructive_copy, non_destructive_copy_ex, non_destructive_spec, opt_seq,
    phys_collect_spec, EditorAction, EditorActionView, LayerTiles, LayerTilesView, PhysKind,
    PhysicsGroup, PhysicsTiles, PhysicsTilesView,
};
use crate::fill::fill_tiles;
use crate::tiles::{
    collect_spec, collect_tiles, lemma_cell_before_row, lemma_join_index, lemma_split_index,
    TileBase, TileKind, TILE_AIR, TILE_NO_HOOK, TILE_THROUGH_CUT,
};

verus! {

/// Cell of the layer (rows `w` wide) under cell `k` of a `bw` wide rectangle
/// placed at (`x`, `y`).
pub open spec fn rect_cell(k: int, bw: int, x: int, y: int, w: int) -> int {
    (y + k / bw) * w + x + k % bw
}

/// Bounds of `rect_cell` for a rectangle inside the layer.
pub(crate) proof fn lemma_rect_cell_bounds(k: int, bw: int, x: int, y: int, w: int, rows: int, h: int)
    requires
        0 <= k < rows * bw,
        0 < bw,
        0 <= x,
        x + bw <= w,
        0 <= y,
        y + rows <= h,
    ensures
        0 <= rect_cell(k, bw, x, y, w) < w * h,
        0 <= k / bw < rows,
        0 <= k % bw < bw,
{
    lemma_split_index(k, bw);
    let j = k / bw;
    let i = k % bw;
    assert(j < rows) by (nonlinear_arith)
        requires k == j * bw + i, 0 <= i, k < rows * bw, 0 <= j, 0 < bw;
    lemma_cell_before_row(y + j, x + i, w, h);
    assert(h * w == w * h) by (nonlinear_arith);
    assert(rect_cell(k, bw, x, y, w) == (y + j) * w + (x + i));
}

fn rect_cell_exec(k: usize, bw: u16, x: usize, y: usize, w: u16, Ghost(rows): Ghost<int>, Ghost(h): Ghost<int>) -> (r: usize)
    requires
        0 <= k < rows * bw,
        0 < bw,
        x + bw <= w,
        y + rows <= h,
        h <= u16::MAX,
    ensures
        r == rect_cell(k as int, bw as int, x as int, y as int, w as int),
        r < w * h,
{
    proof {
        lemma_rect_cell_bounds(k as int, bw as int, x as int, y as int, w as int, rows, h);
        assert(w * h <= u16::MAX * u16::MAX) by (nonlinear_arith)
            requires w <= u16::MAX, h <= u16::MAX, 0 <= w, 0 <= h;
    }
    (y + k / bw as usize) * w as usize + x + k % bw as usize
}

/// Keep-mask of a non-destructive paste on the game (front) layer: where the
/// pasted tile is a hook-through cut and the first front (game) layer holds a
/// non-air tile at that cell, the old tile stays.
pub open spec fn cut_keep_spec(
    new: Seq<TileBase>,
    layers: Seq<PhysicsTilesView>,
    other: PhysKind,
    w: nat,
    cw: nat,
    ox: nat,
    oy: nat,
) -> Seq<bool> {
    match first_of_kind(layers, other) {
        Some(li) => Seq::new(
            new.len(),
            |k: int|
                new[k].index == TILE_THROUGH_CUT && layers[li].bases()[rect_cell(
                    k,
                    cw as int,
                    ox as int,
                    oy as int,
                    w as int,
                )].index != TILE_AIR,
        ),
        None => no_keep(new.len()),
    }
}

fn cut_keep_mask(
    new: &Vec<TileBase>,
    group: &PhysicsGroup,
    other: PhysKind,
    cw: usize,
    ox: usize,
    oy: usize,
    Ghost(rows): Ghost<int>,
) -> (r: Vec<bool>)
    requires
        group.wf(),
        other == PhysKind::Game || other == PhysKind::Front,
        0 <= rows,
        new@.len() == rows * cw,
        ox + cw <= group.width,
        oy + rows <= group.height,
    ensures
        r@ == cut_keep_spec(
            new@,
            group.layers_view(),
            other,
            group.width as nat,
            cw as nat,
            ox as nat,
            oy as nat,
        ),
{
    let ghost lv = group.layers_view();
    let mut r: Vec<bool> = Vec::new();
    let n = new.len();
    if n == 0 {
        assert(r@ =~= cut_keep_spec(
            new@,
            lv,
            other,
            group.width as nat,
            cw as nat,
            ox as nat,
            oy as nat,
        ));
        return r;
    }
    match first_of_kind_index(group, other) {
        None => {
            while r.len() < n
                invariant
                    r@.len() <= n,
                    forall|k: int| 0 <= k < r@.len() ==> !r@[k],
                decreases n - r@.len(),
            {
                r.push(false);
            }
            assert(r@ =~= no_keep(n as nat));
        },
        Some(li) => {
            assert(0 < cw && 0 < rows) by (nonlinear_arith)
                requires n == rows * cw, n > 0, 0 <= cw, 0 <= rows;
            let layer = &group.layers[li];
            proof {
                assert(lv[li as int] == group.layers@[li as int]@);
                assert(layer@.len() == group.width * group.height);
            }
            let other_tiles = match layer {
                PhysicsTiles::Game(t) => t,
                PhysicsTiles::Front(t) => t,
                _ => {
                    proof {
                        assert(false);
                    }
                    return Vec::new();
                },
            };
            let mut k: usize = 0;
            while k < n
                invariant
                    n == new@.len(),
                    n == rows * cw,
                    0 < cw,
                    0 <= rows,
                    ox + cw <= group.width,
                    oy + rows <= group.height,
                    group.height <= u16::MAX,
                    other_tiles@.len() == group.width * group.height,
                    other_tiles@ == lv[li as int].bases(),
                    r@.len() == k,
                    k <= n,
                    forall|j: int|
                        0 <= j < k ==> r@[j] == (new@[j].index == TILE_THROUGH_CUT && other_tiles@[rect_cell(
                            j,
                            cw as int,
                            ox as int,
                            oy as int,
                            group.width as int,
                        )].index != TILE_AIR),
                decreases n - k,
            {
                let keep = if new[k].index == TILE_THROUGH_CUT {
                    let pos = rect_cell_exec(
                        k,
                        cw as u16,
                        ox,
                        oy,
                        group.width,
                        Ghost(rows),
                        Ghost(group.height as int),
                    );
                    other_tiles[pos].index != TILE_AIR
                } else {
                    false
                };
                r.push(keep);
                k += 1;
            }
            assert(r@ =~= cut_keep_spec(
                new@,
                lv,
                other,
                group.width as nat,
                cw as nat,
                ox as nat,
                oy as nat,
            ));
        },
    }
    r
}

/// The tiles a brush holds, with its size and where it was last applied.
#[derive(Debug)]
pub struct TileBrushTiles {
    pub tiles: LayerTiles,
    pub w: u16,
    pub h: u16,
    /// Offset of the pointer inside the brush, when the selection was drawn
    /// from bottom-right to top-left.
    pub negative_offset: (u16, u16),
}

impl TileBrushTiles {
    /// The brush is at least one tile in each direction and holds `w * h` tiles.
    pub open spec fn wf(&self) -> bool {
        &&& self.w > 0
        &&& self.h > 0
        &&& self.tiles@.len() == self.w * self.h
    }
}

/// The physics tiles that a brush pastes: its rectangle at
/// (`cx`, `cy`), and, if not destructive, the old tile wherever it is not air
/// (on the game and front layers also where a hook-through cut would land on a
/// non-air tile of the other layer).
pub open spec fn phys_brush_spec(
    brush: PhysicsTilesView,
    bw: nat,
    cx: nat,
    cw: nat,
    cy: nat,
    ch: nat,
    layers: Seq<PhysicsTilesView>,
    w: nat,
    old: PhysicsTilesView,
    ox: nat,
    oy: nat,
    destructive: bool,
) -> PhysicsTilesView {
    let c = phys_collect_spec(brush, bw, cx, cw, cy, ch);
    if destructive {
        c
    } else {
        match (c, old) {
            (PhysicsTilesView::Game(n), PhysicsTilesView::Game(o)) => PhysicsTilesView::Game(
                non_destructive_spec(o, n, cut_keep_spec(n, layers, PhysKind::Front, w, cw, ox, oy)),
            ),
            (PhysicsTilesView::Front(n), PhysicsTilesView::Front(o)) => PhysicsTilesView::Front(
                non_destructive_spec(
                    o,
                    non_destructive_spec(
                        o,
                        n,
                        cut_keep_spec(n, layers, PhysKind::Game, w, cw, ox, oy),
                    ),
                    no_keep(n.len()),
                ),
            ),
            (PhysicsTilesView::Tele(n), PhysicsTilesView::Tele(o)) => PhysicsTilesView::Tele(
                non_destructive_spec(o, n, no_keep(n.len())),
            ),
            (PhysicsTilesView::Speedup(n), PhysicsTilesView::Speedup(o)) => PhysicsTilesView::Speedup(
                non_destructive_spec(o, n, no_keep(n.len())),
            ),
            (PhysicsTilesView::Switch(n), PhysicsTilesView::Switch(o)) => PhysicsTilesView::Switch(
                non_destructive_spec(o, n, no_keep(n.len())),
            ),
            (PhysicsTilesView::Tune(n), PhysicsTilesView::Tune(o)) => PhysicsTilesView::Tune(
                non_destructive_spec(o, n, no_keep(n.len())),
            ),
            _ => c,
        }
    }
}

/// The brush's physics tiles, when it holds physics tiles.
pub open spec fn brush_phys(t: LayerTilesView) -> PhysicsTilesView {
    match t {
        LayerTilesView::Physics(p) => p,
        LayerTilesView::Design(s) => PhysicsTilesView::Game(s),
    }
}

/// Copies the rectangle at (`copy_x`, `copy_y`) out of a physics brush; if
/// not `destructive`, the old tiles at (`old_x`, `old_y`) that are not air stay.
pub fn collect_phy_brush_tiles(
    brush: &TileBrushTiles,
    copy_x: usize,
    copy_width: usize,
    copy_y: usize,
    copy_height: usize,
    group: &PhysicsGroup,
    old_tiles: &PhysicsTiles,
    old_x: usize,
    old_y: usize,
    destructive: bool,
) -> (r: PhysicsTiles)
    requires
        brush.wf(),
        brush.tiles@ is Physics,
        brush_phys(brush.tiles@).kind() != PhysKind::Arbitrary,
        copy_x + copy_width <= brush.w,
        copy_y + copy_height <= brush.h,
        !destructive ==> {
            &&& group.wf()
            &&& old_tiles@.kind() == brush_phys(brush.tiles@).kind()
            &&& old_tiles@.len() >= copy_width * copy_height
            &&& old_x + copy_width <= group.width
            &&& old_y + copy_height <= group.height
        },
    ensures
        r@ == phys_brush_spec(
            brush_phys(brush.tiles@),
            brush.w as nat,
            copy_x as nat,
            copy_width as nat,
            copy_y as nat,
            copy_height as nat,
            group.layers_view(),
            group.width as nat,
            old_tiles@,
            old_x as nat,
            old_y as nat,
            destructive,
        ),
{
    let bw = brush.w as usize;
    proof {
        assert(brush.w * brush.h / (brush.w as int) == brush.h as int) by {
            lemma_join_index(brush.h as int, 0, brush.w as int);
        }
        assert(crate::tiles::collected_rows(
            (brush.w * brush.h) as nat,
            brush.w as nat,
            copy_y as nat,
            copy_height as nat,
        ) == copy_height);
        assert(copy_height * copy_width == copy_width * copy_height) by (nonlinear_arith);
    }
    let p = match &brush.tiles {
        LayerTiles::Physics(p) => p,
        LayerTiles::Design(_) => {
            proof {
                assert(false);
            }
            return PhysicsTiles::Arbitrary(Vec::new());
        },
    };
    match p {
        PhysicsTiles::Arbitrary(_) => {
            proof {
                assert(false);
            }
            PhysicsTiles::Arbitrary(Vec::new())
        },
        PhysicsTiles::Game(t) => {
            let mut tiles = collect_tiles(t, bw, copy_x, copy_width, copy_y, copy_height);
            if !destructive {
                match old_tiles {
                    PhysicsTiles::Game(o) => {
                        let keep = cut_keep_mask(
                            &tiles,
                            group,
                            PhysKind::Front,
                            copy_width,
                            old_x,
                            old_y,
                            Ghost(copy_height as int),
                        );
                        non_destructive_copy_ex(o, &mut tiles, &keep);
                    },
                    _ => {
                        proof {
                            assert(false);
                        }
                    },
                }
            }
            PhysicsTiles::Game(tiles)
        },
        PhysicsTiles::Front(t) => {
            let mut tiles = collect_tiles(t, bw, copy_x, copy_width, copy_y, copy_height);
            if !destructive {
                match old_tiles {
                    PhysicsTiles::Front(o) => {
                        let keep = cut_keep_mask(
                            &tiles,
                            group,
                            PhysKind::Game,
                            copy_width,
                            old_x,
                            old_y,
                            Ghost(copy_height as int),
                        );
                        let ghost n = tiles@;
                        non_destructive_copy_ex(o, &mut tiles, &keep);
                        non_destructive_copy(o, &mut tiles);
                    },
                    _ => {
                        proof {
                            assert(false);
                        }
                    },
                }
            }
            PhysicsTiles::Front(tiles)
        },
        PhysicsTiles::Tele(t) => {
            let mut tiles = collect_tiles(t, bw, copy_x, copy_width, copy_y, copy_height);
            if !destructive {
                match old_tiles {
                    PhysicsTiles::Tele(o) => non_destructive_copy(o, &mut tiles),
                    _ => {
                        proof {
                            assert(false);
                        }
                    },
                }
            }
            PhysicsTiles::Tele(tiles)
        },
        PhysicsTiles::Speedup(t) => {
            let mut tiles = collect_tiles(t, bw, copy_x, copy_width, copy_y, copy_height);
            if !destructive {
                match old_tiles {
                    PhysicsTiles::Speedup(o) => non_destructive_copy(o, &mut tiles),
                    _ => {
                        proof {
                            assert(false);
                        }
                    },
                }
            }
            PhysicsTiles::Speedup(tiles)
        },
        PhysicsTiles::Switch(t) => {
            let mut tiles = collect_tiles(t, bw, copy_x, copy_width, copy_y, copy_height);
            if !destructive {
                match old_tiles {
                    PhysicsTiles::Switch(o) => non_destructive_copy(o, &mut tiles),
                    _ => {
                        proof {
                            assert(false);
                        }
                    },
                }
            }
            PhysicsTiles::Switch(tiles)
        },
        PhysicsTiles::Tune(t) => {
            let mut tiles = collect_tiles(t, bw, copy_x, copy_width, copy_y, copy_height);
            if !destructive {
                match old_tiles {
                    PhysicsTiles::Tune(o) => non_destructive_copy(o, &mut tiles),
                    _ => {
                        proof {
                            assert(false);
                        }
                    },
                }
            }
            PhysicsTiles::Tune(tiles)
        },
    }
}

/// Game tiles of a brush picked from a map after the cut correction: an
/// unhookable tile under a cut of the first front layer is picked as a cut.
pub open spec fn brush_cut_spec(
    t: Seq<TileBase>,
    front: Seq<TileBase>,
    lw: nat,
    bw: nat,
    x: nat,
    y: nat,
) -> Seq<TileBase> {
    Seq::new(
        t.len(),
        |k: int|
            if t[k].index == TILE_NO_HOOK && front[rect_cell(
                k,
                bw as int,
                x as int,
                y as int,
                lw as int,
            )].index == TILE_THROUGH_CUT {
                TileBase { index: TILE_THROUGH_CUT, flags: 0 }
            } else {
                t[k]
            },
    )
}

/// Brush tiles after `brush_hookthrough_cut`.
pub open spec fn brush_hookthrough_spec(
    t: LayerTilesView,
    layers: Seq<PhysicsTilesView>,
    lw: nat,
    bw: nat,
    x: nat,
    y: nat,
) -> LayerTilesView {
    match t {
        LayerTilesView::Physics(PhysicsTilesView::Game(g)) => match first_of_kind(
            layers,
            PhysKind::Front,
        ) {
            Some(fi) => LayerTilesView::Physics(
                PhysicsTilesView::Game(brush_cut_spec(g, layers[fi].bases(), lw, bw, x, y)),
            ),
            None => t,
        },
        _ => t,
    }
}

/// When game tiles are picked into a brush, an unhookable tile under a
/// hook-through cut of the front layer becomes a cut in the brush.
pub fn brush_hookthrough_cut(
    group: &PhysicsGroup,
    tiles: &mut LayerTiles,
    layer_width: u16,
    brush_w: u16,
    x: u16,
    y: u16,
)
    requires
        group.wf(),
        old(tiles)@ matches LayerTilesView::Physics(PhysicsTilesView::Game(g)) ==> {
            &&& layer_width == group.width
            &&& brush_w > 0
            &&& x + brush_w <= layer_width
            &&& (g.len() as int) % (brush_w as int) == 0
            &&& y + (g.len() as int) / (brush_w as int) <= group.height
        },
    ensures
        final(tiles)@ == brush_hookthrough_spec(
            old(tiles)@,
            group.layers_view(),
            layer_width as nat,
            brush_w as nat,
            x as nat,
            y as nat,
        ),
{
    let ghost lv = group.layers_view();
    match tiles {
        LayerTiles::Physics(PhysicsTiles::Game(t)) => {
            match first_of_kind_index(group, PhysKind::Front) {
                Some(fi) => {
                    let layer = &group.layers[fi];
                    proof {
                        assert(lv[fi as int] == layer@);
                    }
                    let front = match layer {
                        PhysicsTiles::Front(f) => f,
                        _ => {
                            proof {
                                assert(false);
                            }
                            return;
                        },
                    };
                    let ghost orig = t@;
                    let ghost rows: int = (orig.len() as int) / (brush_w as int);
                    proof {
                        lemma_split_index(orig.len() as int, brush_w as int);
                    }
                    let n = t.len();
                    let mut k: usize = 0;
                    while k < n
                        invariant
                            n == orig.len(),
                            n == rows * brush_w,
                            0 <= rows,
                            t@.len() == n,
                            k <= n,
                            0 < brush_w,
                            x + brush_w <= layer_width,
                            layer_width == group.width,
                            y + rows <= group.height,
                            group.height <= u16::MAX,
                            front@ == lv[fi as int].bases(),
                            front@.len() == group.width * group.height,
                            forall|j: int|
                                0 <= j < k ==> t@[j] == brush_cut_spec(
                                    orig,
                                    front@,
                                    layer_width as nat,
                                    brush_w as nat,
                                    x as nat,
                                    y as nat,
                                )[j],
                            forall|j: int| k <= j < n ==> t@[j] == orig[j],
                        decreases n - k,
                    {
                        let pos = rect_cell_exec(
                            k,
                            brush_w,
                            x as usize,
                            y as usize,
                            layer_width,
                            Ghost(rows),
                            Ghost(group.height as int),
                        );
                        if t[k].index == TILE_NO_HOOK && front[pos].index == TILE_THROUGH_CUT {
                            t.set(k, TileBase { index: TILE_THROUGH_CUT, flags: 0 });
                        }
                        k += 1;
                    }
                    assert(t@ =~= brush_cut_spec(
                        orig,
                        front@,
                        layer_width as nat,
                        brush_w as nat,
                        x as nat,
                        y as nat,
                    ));
                },
                None => {},
            }
        },
        _ => {},
    }
}

/// The actions of pasting `new` over `old` on physics layer `layer_index`:
/// the cut bookkeeping of the other layer, then the replacement itself.
pub open spec fn phy_brush_actions_spec(
    layers: Seq<PhysicsTilesView>,
    w: nat,
    h: nat,
    old: PhysicsTilesView,
    new: PhysicsTilesView,
    x: u16,
    bw: u16,
    y: u16,
    bh: u16,
    layer_index: usize,
    flag: Option<bool>,
) -> Seq<EditorActionView> {
    hook_actions(layers, w, h, old, new, x, bw, y, bh, flag) + seq![
        EditorActionView::TilePhysicsLayerReplaceTiles {
            layer_index,
            old_tiles: old,
            new_tiles: hook_new_tiles(new),
            x,
            y,
            w: bw,
            h: bh,
        },
    ]
}

/// Actions that paste `new_tiles` over `old_tiles` on a physics layer.
pub fn phy_brush_actions(
    group: &PhysicsGroup,
    old_tiles: PhysicsTiles,
    new_tiles: PhysicsTiles,
    x: u16,
    brush_w: u16,
    y: u16,
    brush_h: u16,
    layer_index: usize,
    front_created: &mut Option<bool>,
) -> (r: Vec<EditorAction>)
    requires
        group.wf(),
        brush_w > 0,
        brush_h > 0,
        x + brush_w <= group.width,
        y + brush_h <= group.height,
        old_tiles@.len() == brush_w * brush_h,
        new_tiles@.len() == brush_w * brush_h,
    ensures
        actions_view(r@) == phy_brush_actions_spec(
            group.layers_view(),
            group.width as nat,
            group.height as nat,
            old_tiles@,
            new_tiles@,
            x,
            brush_w,
            y,
            brush_h,
            layer_index,
            *old(front_created),
        ),
        *final(front_created) == hook_flag(
            group.layers_view(),
            group.width as nat,
            group.height as nat,
            new_tiles@,
            x,
            brush_w,
            y,
            brush_h,
            *old(front_created),
        ),
{
    let mut actions: Vec<EditorAction> = Vec::new();
    let mut new_tiles = new_tiles;
    proof {
        assert(actions_view(actions@) =~= Seq::empty());
    }
    hookthrough_cut(
        group,
        &old_tiles,
        &mut new_tiles,
        x,
        brush_w,
        y,
        brush_h,
        &mut actions,
        front_created,
    );
    let ghost before = actions_view(actions@);
    actions.push(
        EditorAction::TilePhysicsLayerReplaceTiles {
            layer_index,
            old_tiles,
            new_tiles,
            x,
            y,
            w: brush_w,
            h: brush_h,
        },
    );
    proof {
        assert(actions_view(actions@) =~= before + seq![actions@[actions@.len() - 1]@]);
    }
    actions
}

/// The action of pasting `new_tiles` over `old_tiles` on a design layer.
pub fn design_brush_actions(
    old_tiles: Vec<TileBase>,
    new_tiles: Vec<TileBase>,
    is_background: bool,
    group_index: usize,
    layer_index: usize,
    x: u16,
    y: u16,
    brush_w: u16,
    brush_h: u16,
) -> (r: Vec<EditorAction>)
    requires
        brush_w > 0,
        brush_h > 0,
    ensures
        actions_view(r@) == seq![
            EditorActionView::TileLayerReplaceTiles {
                is_background,
                group_index,
                layer_index,
                old_tiles: old_tiles@,
                new_tiles: new_tiles@,
                x,
                y,
                w: brush_w,
                h: brush_h,
            },
        ],
{
    let mut r: Vec<EditorAction> = Vec::new();
    r.push(
        EditorAction::TileLayerReplaceTiles {
            is_background,
            group_index,
            layer_index,
            old_tiles,
            new_tiles,
            x,
            y,
            w: brush_w,
            h: brush_h,
        },
    );
    proof {
        assert(actions_view(r@) =~= seq![r@[0]@]);
    }
    r
}

/// Kind of tiles a layer holds: `Some(kind)` for a physics layer, `None`
/// for a design tile layer.
pub open spec fn layer_kind(layer: TileLayerRef, group: &PhysicsGroup) -> Option<PhysKind> {
    match layer {
        TileLayerRef::Physics { layer_index } => Some(group.layers@[layer_index as int]@.kind()),
        TileLayerRef::Design { .. } => None,
    }
}

/// The brush's tiles are of the layer's kind.
pub open spec fn tiles_match_kind(t: LayerTilesView, kind: Option<PhysKind>) -> bool {
    match kind {
        Some(k) => t is Physics && brush_phys(t).kind() == k,
        None => t is Design,
    }
}

/// Whether the brush's tiles can be pasted on the layer: physics tiles of
/// the layer's kind, or design tiles on a design layer.
pub fn brush_tiles_match_layer(
    brush_tiles: &LayerTiles,
    layer: &TileLayerRef,
    group: &PhysicsGroup,
) -> (r: bool)
    requires
        layer matches TileLayerRef::Physics { layer_index } ==> layer_index < group.layers@.len(),
    ensures
        r == tiles_match_kind(brush_tiles@, layer_kind(*layer, group)),
{
    match layer {
        TileLayerRef::Physics { layer_index } => {
            let k = group.layers[*layer_index].kind();
            match brush_tiles {
                LayerTiles::Physics(p) => p.kind() == k,
                LayerTiles::Design(_) => false,
            }
        },
        TileLayerRef::Design { .. } => match brush_tiles {
            LayerTiles::Design(_) => true,
            LayerTiles::Physics(_) => false,
        },
    }
}

/// The smaller of two integers.
pub open spec fn min_int(a: int, b: int) -> int {
    if a < b {
        a
    } else {
        b
    }
}

/// Clipping of a brush along one axis of a layer `len` cells long: the brush
/// wants to start at `p` with `size` cells taken from brush offset `off`.
/// Returns the start on the layer, the number of cells kept and the brush
/// offset of the first kept cell. A start past the end is moved to the last
/// cell.
pub open spec fn clip_axis(p: int, len: int, size: int, off: int) -> (int, int, int) {
    let d = if p < 0 {
        min_int(-p, size)
    } else {
        0
    };
    let size1 = size - d;
    let boff = off + d;
    let pos = if p < 0 {
        0
    } else if p > len - 1 {
        len - 1
    } else {
        p
    };
    let size2 = if pos + size1 >= len {
        len - pos
    } else {
        size1
    };
    (pos, size2, boff)
}

proof fn lemma_clip_axis(p: int, len: int, size: int, off: int)
    requires
        0 < len,
        0 <= size,
        0 <= off,
    ensures
        0 <= clip_axis(p, len, size, off).0 < len,
        0 <= clip_axis(p, len, size, off).1 <= size,
        clip_axis(p, len, size, off).0 + clip_axis(p, len, size, off).1 <= len,
        off <= clip_axis(p, len, size, off).2,
        clip_axis(p, len, size, off).2 + clip_axis(p, len, size, off).1 <= off + size,
{
}

fn clip_axis_exec(p: i32, len: u16, size: u16, off: u16) -> (r: (u16, u16, u16))
    requires
        p > i32::MIN,
        0 < len,
        off + size <= u16::MAX,
    ensures
        (r.0 as int, r.1 as int, r.2 as int) == clip_axis(p as int, len as int, size as int, off as int),
{
    let mut size1 = size;
    let mut boff = off;
    if p < 0 {
        let d: u16 = if -p < size as i32 {
            (-p) as u16
        } else {
            size
        };
        size1 = size1 - d;
        boff = boff + d;
    }
    let pos: u16 = if p < 0 {
        0
    } else if p > len as i32 - 1 {
        len - 1
    } else {
        p as u16
    };
    if pos as i32 + size1 as i32 >= len as i32 {
        size1 = len - pos;
    }
    (pos, size1, boff)
}

/// Where a brush lands on a layer: layer x, layer y, width, height, brush x
/// and brush y of the kept rectangle.
pub open spec fn clipped(
    dims: (u16, u16),
    brush_w: u16,
    brush_h: u16,
    x: i32,
    y: i32,
    brush_off_x: u16,
    brush_off_y: u16,
    max_brush_w: u16,
    max_brush_h: u16,
) -> (int, int, int, int, int, int) {
    let cx = clip_axis(
        x as int,
        dims.0 as int,
        min_int(brush_w as int, max_brush_w as int),
        brush_off_x as int,
    );
    let cy = clip_axis(
        y as int,
        dims.1 as int,
        min_int(brush_h as int, max_brush_h as int),
        brush_off_y as int,
    );
    (cx.0, cy.0, cx.1, cy.1, cx.2, cy.2)
}

/// Design tiles of a brush.
pub open spec fn brush_design(t: LayerTilesView) -> Seq<TileBase> {
    match t {
        LayerTilesView::Design(s) => s,
        LayerTilesView::Physics(p) => p.bases(),
    }
}

/// The actions of pasting the kept rectangle `c` of a brush on a layer.
pub open spec fn apply_actions_spec(
    group: &PhysicsGroup,
    layer: TileLayerRef,
    brush_tiles: LayerTilesView,
    brush_w: u16,
    c: (int, int, int, int, int, int),
    destructive: bool,
    flag: Option<bool>,
) -> Seq<EditorActionView> {
    let (px, py, w, h, bx, by) = c;
    match layer {
        TileLayerRef::Physics { layer_index } => {
            let old = phys_collect_spec(
                group.layers@[layer_index as int]@,
                group.width as nat,
                px as nat,
                w as nat,
                py as nat,
                h as nat,
            );
            let new = phys_brush_spec(
                brush_phys(brush_tiles),
                brush_w as nat,
                bx as nat,
                w as nat,
                by as nat,
                h as nat,
                group.layers_view(),
                group.width as nat,
                old,
                px as nat,
                py as nat,
                destructive,
            );
            phy_brush_actions_spec(
                group.layers_view(),
                group.width as nat,
                group.height as nat,
                old,
                new,
                px as u16,
                w as u16,
                py as u16,
                h as u16,
                layer_index,
                flag,
            )
        },
        TileLayerRef::Design { group_index, layer_index, is_background, layer } => {
            let old = collect_spec(
                layer.tiles@,
                layer.width as nat,
                px as nat,
                w as nat,
                py as nat,
                h as nat,
            );
            let new = collect_spec(
                brush_design(brush_tiles),
                brush_w as nat,
                bx as nat,
                w as nat,
                by as nat,
                h as nat,
            );
            seq![
                EditorActionView::TileLayerReplaceTiles {
                    is_background,
                    group_index,
                    layer_index,
                    old_tiles: old,
                    new_tiles: if destructive {
                        new
                    } else {
                        non_destructive_spec(old, new, no_keep(new.len()))
                    },
                    x: px as u16,
                    y: py as u16,
                    w: w as u16,
                    h: h as u16,
                },
            ]
        },
    }
}

/// The repeated-paste flag after pasting the kept rectangle `c`.
pub open spec fn apply_flag_spec(
    group: &PhysicsGroup,
    layer: TileLayerRef,
    brush_tiles: LayerTilesView,
    brush_w: u16,
    c: (int, int, int, int, int, int),
    destructive: bool,
    flag: Option<bool>,
) -> Option<bool> {
    let (px, py, w, h, bx, by) = c;
    match layer {
        TileLayerRef::Physics { layer_index } => {
            let old = phys_collect_spec(
                group.layers@[layer_index as int]@,
                group.width as nat,
                px as nat,
                w as nat,
                py as nat,
                h as nat,
            );
            let new = phys_brush_spec(
                brush_phys(brush_tiles),
                brush_w as nat,
                bx as nat,
                w as nat,
                by as nat,
                h as nat,
                group.layers_view(),
                group.width as nat,
                old,
                px as nat,
                py as nat,
                destructive,
            );
            hook_flag(
                group.layers_view(),
                group.width as nat,
                group.height as nat,
                new,
                px as u16,
                w as u16,
                py as u16,
                h as u16,
                flag,
            )
        },
        TileLayerRef::Design { .. } => flag,
    }
}

/// Record of the application of the kept rectangle `c`.
pub open spec fn next_apply_spec(layer: TileLayerRef, c: (int, int, int, int, int, int)) -> TileBrushLastApply {
    TileBrushLastApply {
        x: c.0 as u16,
        y: c.1 as u16,
        w: c.2 as u16,
        h: c.3 as u16,
        layer: layer.apply_layer(),
    }
}

/// A group of actions executed (and undone) together, tagged with the layer
/// and the brush that produced it.
#[derive(Debug)]
pub struct EditorActionGroup {
    pub actions: Vec<EditorAction>,
    pub identifier: Option<(TileBrushLastApplyLayer, u128)>,
}

proof fn lemma_phys_brush_len(
    brush: PhysicsTilesView,
    bw: nat,
    cx: nat,
    cw: nat,
    cy: nat,
    ch: nat,
    layers: Seq<PhysicsTilesView>,
    w: nat,
    old: PhysicsTilesView,
    ox: nat,
    oy: nat,
    destructive: bool,
)
    requires
        brush.kind() != PhysKind::Arbitrary,
    ensures
        phys_brush_spec(brush, bw, cx, cw, cy, ch, layers, w, old, ox, oy, destructive).len()
            == phys_collect_spec(brush, bw, cx, cw, cy, ch).len(),
{
}

/// Pastes the brush with its top-left corner at tile (`x`, `y`), using at most
/// `max_brush_w` x `max_brush_h` of its tiles from (`brush_off_x`, `brush_off_y`)
/// on, clipped to the layer. Nothing happens if nothing is left or the brush
/// holds tiles of another kind; the actions are handed out only if this
/// application differs from the last one.
pub fn apply_brush_internal(
    brush_id_counter: u128,
    group: &PhysicsGroup,
    layer: &TileLayerRef,
    brush: &TileBrushTiles,
    last_apply: &mut Option<TileBrushLastApply>,
    x: i32,
    y: i32,
    brush_off_x: u16,
    brush_off_y: u16,
    max_brush_w: u16,
    max_brush_h: u16,
    front_created: &mut Option<bool>,
    destructive: bool,
) -> (r: Option<EditorActionGroup>)
    requires
        layer.wf(group),
        layer matches TileLayerRef::Physics { layer_index } ==> group.layers@[layer_index as int]@.kind()
            != PhysKind::Arbitrary,
        brush.wf(),
        x > i32::MIN,
        y > i32::MIN,
        brush_off_x + min_int(brush.w as int, max_brush_w as int) <= brush.w,
        brush_off_y + min_int(brush.h as int, max_brush_h as int) <= brush.h,
    ensures
        ({
            let c = clipped(
                layer.dims(group),
                brush.w,
                brush.h,
                x,
                y,
                brush_off_x,
                brush_off_y,
                max_brush_w,
                max_brush_h,
            );
            let applies = c.2 > 0 && c.3 > 0 && tiles_match_kind(
                brush.tiles@,
                layer_kind(*layer, group),
            );
            let next = next_apply_spec(*layer, c);
            &&& *final(front_created) == if applies {
                apply_flag_spec(
                    group,
                    *layer,
                    brush.tiles@,
                    brush.w,
                    c,
                    destructive,
                    *old(front_created),
                )
            } else {
                *old(front_created)
            }
            &&& (r is Some <==> applies && *old(last_apply) != Some(next))
            &&& r matches Some(g) ==> actions_view(g.actions@) == apply_actions_spec(
                group,
                *layer,
                brush.tiles@,
                brush.w,
                c,
                destructive,
                *old(front_created),
            ) && g.identifier == Some((layer.apply_layer(), brush_id_counter))
            &&& *final(last_apply) == if r is Some {
                Some(next)
            } else {
                *old(last_apply)
            }
        }),
{
    let ghost c = clipped(
        layer.dims(group),
        brush.w,
        brush.h,
        x,
        y,
        brush_off_x,
        brush_off_y,
        max_brush_w,
        max_brush_h,
    );
    let (layer_width, layer_height) = layer.get_width_and_height(group);
    let bw0 = if brush.w < max_brush_w {
        brush.w
    } else {
        max_brush_w
    };
    let bh0 = if brush.h < max_brush_h {
        brush.h
    } else {
        max_brush_h
    };
    let (px, w, bx) = clip_axis_exec(x, layer_width, bw0, brush_off_x);
    let (py, h, by) = clip_axis_exec(y, layer_height, bh0, brush_off_y);
    proof {
        lemma_clip_axis(x as int, layer_width as int, bw0 as int, brush_off_x as int);
        lemma_clip_axis(y as int, layer_height as int, bh0 as int, brush_off_y as int);
        assert(c == (px as int, py as int, w as int, h as int, bx as int, by as int));
    }
    let matches = brush_tiles_match_layer(&brush.tiles, layer, group);
    if w > 0 && h > 0 && matches {
        let (actions, apply_layer) = match layer {
            TileLayerRef::Physics { layer_index } => {
                let layer_tiles = &group.layers[*layer_index];
                proof {
                    lemma_rect_len(
                        group.width as int,
                        group.height as int,
                        px as int,
                        w as int,
                        py as int,
                        h as int,
                    );
                    lemma_rect_len(
                        brush.w as int,
                        brush.h as int,
                        bx as int,
                        w as int,
                        by as int,
                        h as int,
                    );
                }
                let old_tiles = collect_phy_tiles(
                    layer_tiles,
                    group.width,
                    px as usize,
                    w as usize,
                    py as usize,
                    h as usize,
                );
                let new_tiles = collect_phy_brush_tiles(
                    brush,
                    bx as usize,
                    w as usize,
                    by as usize,
                    h as usize,
                    group,
                    &old_tiles,
                    px as usize,
                    py as usize,
                    destructive,
                );
                proof {
                    lemma_phys_brush_len(
                        brush_phys(brush.tiles@),
                        brush.w as nat,
                        bx as nat,
                        w as nat,
                        by as nat,
                        h as nat,
                        group.layers_view(),
                        group.width as nat,
                        old_tiles@,
                        px as nat,
                        py as nat,
                        destructive,
                    );
                }
                let actions = phy_brush_actions(
                    group,
                    old_tiles,
                    new_tiles,
                    px,
                    w,
                    py,
                    h,
                    *layer_index,
                    front_created,
                );
                (actions, TileBrushLastApplyLayer::Physics { layer_index: *layer_index })
            },
            TileLayerRef::Design { group_index, layer_index, is_background, layer: design } => {
                let brush_tiles = match &brush.tiles {
                    LayerTiles::Design(t) => t,
                    LayerTiles::Physics(_) => {
                        proof {
                            assert(false);
                        }
                        return None;
                    },
                };
                proof {
                    lemma_rect_len(
                        design.width as int,
                        design.height as int,
                        px as int,
                        w as int,
                        py as int,
                        h as int,
                    );
                    lemma_rect_len(
                        brush.w as int,
                        brush.h as int,
                        bx as int,
                        w as int,
                        by as int,
                        h as int,
                    );
                }
                let old_tiles = collect_tiles(
                    &design.tiles,
                    design.width as usize,
                    px as usize,
                    w as usize,
                    py as usize,
                    h as usize,
                );
                let mut new_tiles = collect_tiles(
                    brush_tiles,
                    brush.w as usize,
                    bx as usize,
                    w as usize,
                    by as usize,
                    h as usize,
                );
                if !destructive {
                    non_destructive_copy(&old_tiles, &mut new_tiles);
                }
                let actions = design_brush_actions(
                    old_tiles,
                    new_tiles,
                    *is_background,
                    *group_index,
                    *layer_index,
                    px,
                    py,
                    w,
                    h,
                );
                (
                    actions,
                    TileBrushLastApplyLayer::Design {
                        group_index: *group_index,
                        layer_index: *layer_index,
                        is_background: *is_background,
                    },
                )
            },
        };
        let next_apply = TileBrushLastApply { x: px, y: py, w, h, layer: apply_layer };
        let apply = match *last_apply {
            Some(b) => b != next_apply,
            None => true,
        };
        if apply {
            *last_apply = Some(next_apply);
            Some(EditorActionGroup { actions, identifier: Some((apply_layer, brush_id_counter)) })
        } else {
            None
        }
    } else {
        None
    }
}

/// One application of a repeated paste: layer x, layer y, brush x, brush y
/// and the most brush columns to use (one row at a time).
pub type ApplyCall = (int, int, int, int, int);

/// Applications that cover one layer row `width` tiles wide from `x0 + off`
/// on with brush row `by`, the first piece starting at brush column `tx`.
pub open spec fn row_calls(x0: int, y: int, by: int, bw: int, tx: int, width: int, off: int) -> Seq<
    ApplyCall,
>
    decreases width,
{
    if width <= 0 || bw - tx <= 0 {
        Seq::empty()
    } else {
        let w = min_int(bw - tx, width);
        seq![(x0 + off, y, tx, by, w)] + row_calls(x0, y, by, bw, 0, width - w, off + w)
    }
}

/// Applications covering the first `k` rows of a repeated paste; row `r`
/// uses brush row `(ty + r) % bh`.
pub open spec fn rows_calls(
    x0: int,
    y0: int,
    bw: int,
    bh: int,
    tx: int,
    ty: int,
    width: int,
    k: int,
) -> Seq<ApplyCall>
    decreases k,
{
    if k <= 0 {
        Seq::empty()
    } else {
        rows_calls(x0, y0, bw, bh, tx, ty, width, k - 1) + row_calls(
            x0,
            y0 + k - 1,
            (ty + k - 1) % bh,
            bw,
            tx,
            width,
            0,
        )
    }
}

/// State threaded through applications: last application and the
/// repeated-paste flag; and the action lists handed out so far.
pub open spec fn apply_fold(
    group: &PhysicsGroup,
    layer: TileLayerRef,
    brush: &TileBrushTiles,
    destructive: bool,
    calls: Seq<ApplyCall>,
    last: Option<TileBrushLastApply>,
    flag: Option<bool>,
) -> (Option<TileBrushLastApply>, Option<bool>, Seq<Seq<EditorActionView>>)
    decreases calls.len(),
{
    if calls.len() == 0 {
        (last, flag, Seq::empty())
    } else {
        let prev = apply_fold(group, layer, brush, destructive, calls.drop_last(), last, flag);
        let call = calls.last();
        let c = clipped(
            layer.dims(group),
            brush.w,
            brush.h,
            call.0 as i32,
            call.1 as i32,
            call.2 as u16,
            call.3 as u16,
            call.4 as u16,
            1,
        );
        let applies = c.2 > 0 && c.3 > 0 && tiles_match_kind(brush.tiles@, layer_kind(layer, group));
        let next = next_apply_spec(layer, c);
        let flag1 = if applies {
            apply_flag_spec(group, layer, brush.tiles@, brush.w, c, destructive, prev.1)
        } else {
            prev.1
        };
        let emits = applies && prev.0 != Some(next);
        (
            if emits {
                Some(next)
            } else {
                prev.0
            },
            flag1,
            if emits {
                prev.2.push(apply_actions_spec(group, layer, brush.tiles@, brush.w, c, destructive, prev.1))
            } else {
                prev.2
            },
        )
    }
}

/// Action lists of a list of groups.
pub open spec fn groups_view(groups: Seq<EditorActionGroup>) -> Seq<Seq<EditorActionView>> {
    groups.map_values(|g: EditorActionGroup| actions_view(g.actions@))
}

proof fn lemma_row_calls_step(x0: int, y: int, by: int, bw: int, tx: int, width: int, off: int)
    requires
        width > 0,
        bw - tx > 0,
    ensures
        row_calls(x0, y, by, bw, tx, width, off) == seq![
            (x0 + off, y, tx, by, min_int(bw - tx, width)),
        ] + row_calls(x0, y, by, bw, 0, width - min_int(bw - tx, width), off + min_int(bw - tx, width)),
{
}

/// Pastes the brush repeatedly over the `width` x `height` rectangle at
/// `center`, row by row and piece by piece, starting inside the brush at
/// `tile_offset`; hands out the action groups of the applications that
/// changed something, in order.
pub fn apply_brush_repeating_internal(
    brush_id_counter: u128,
    destructive: bool,
    brush: &TileBrushTiles,
    last_apply: &mut Option<TileBrushLastApply>,
    group: &PhysicsGroup,
    layer: &TileLayerRef,
    center: (i32, i32),
    tile_offset: (u16, u16),
    width: u16,
    height: u16,
) -> (r: Vec<EditorActionGroup>)
    requires
        layer.wf(group),
        layer matches TileLayerRef::Physics { layer_index } ==> group.layers@[layer_index as int]@.kind()
            != PhysKind::Arbitrary,
        brush.wf(),
        tile_offset.0 < brush.w,
        tile_offset.1 < brush.h,
        center.0 > i32::MIN,
        center.1 > i32::MIN,
        center.0 + width <= i32::MAX,
        center.1 + height <= i32::MAX,
    ensures
        ({
            let calls = rows_calls(
                center.0 as int,
                center.1 as int,
                brush.w as int,
                brush.h as int,
                tile_offset.0 as int,
                tile_offset.1 as int,
                width as int,
                height as int,
            );
            let f = apply_fold(group, *layer, brush, destructive, calls, *old(last_apply), Some(false));
            &&& groups_view(r@) == f.2
            &&& *final(last_apply) == f.0
            &&& forall|i: int|
                0 <= i < r@.len() ==> (#[trigger] r@[i]).identifier == Some(
                    (layer.apply_layer(), brush_id_counter),
                )
        }),
{
    let ghost x0 = center.0 as int;
    let ghost y0 = center.1 as int;
    let ghost bwi = brush.w as int;
    let ghost bhi = brush.h as int;
    let ghost txi = tile_offset.0 as int;
    let ghost tyi = tile_offset.1 as int;
    let ghost last0 = *last_apply;
    let mut groups: Vec<EditorActionGroup> = Vec::new();
    let mut front_created: Option<bool> = Some(false);
    let mut off_y: u16 = 0;
    let mut height_left: u16 = height;
    let mut ty: u16 = tile_offset.1;
    let ghost mut done: Seq<ApplyCall> = Seq::empty();
    proof {
        crate::tiles::lemma_join_index(0, tyi, bhi);
    }
    while height_left > 0
        invariant
            layer.wf(group),
            layer matches TileLayerRef::Physics { layer_index } ==> group.layers@[layer_index as int]@.kind()
                != PhysKind::Arbitrary,
            brush.wf(),
            tile_offset.0 < brush.w,
            center.0 > i32::MIN,
            center.1 > i32::MIN,
            center.0 + width <= i32::MAX,
            center.1 + height <= i32::MAX,
            x0 == center.0,
            y0 == center.1,
            bwi == brush.w,
            bhi == brush.h,
            txi == tile_offset.0,
            tyi == tile_offset.1,
            tyi < bhi,
            off_y + height_left == height,
            ty < brush.h,
            height_left > 0 ==> ty as int == (tyi + off_y) % bhi,
            done == rows_calls(x0, y0, bwi, bhi, txi, tyi, width as int, off_y as int),
            groups_view(groups@) == apply_fold(group, *layer, brush, destructive, done, last0, Some(false)).2,
            *last_apply == apply_fold(group, *layer, brush, destructive, done, last0, Some(false)).0,
            front_created == apply_fold(group, *layer, brush, destructive, done, last0, Some(false)).1,
            forall|i: int|
                0 <= i < groups@.len() ==> (#[trigger] groups@[i]).identifier == Some(
                    (layer.apply_layer(), brush_id_counter),
                ),
        decreases height_left,
    {
        let brush_h = if brush.h - ty < height_left {
            brush.h - ty
        } else {
            height_left
        };
        let mut y: u16 = 0;
        while y < brush_h
            invariant
                layer.wf(group),
                layer matches TileLayerRef::Physics { layer_index } ==> group.layers@[layer_index as int]@.kind()
                    != PhysKind::Arbitrary,
                brush.wf(),
                tile_offset.0 < brush.w,
                center.0 > i32::MIN,
                center.1 > i32::MIN,
                center.0 + width <= i32::MAX,
                center.1 + height <= i32::MAX,
                x0 == center.0,
                y0 == center.1,
                bwi == brush.w,
                bhi == brush.h,
                txi == tile_offset.0,
                tyi == tile_offset.1,
                tyi < bhi,
                off_y + height_left == height,
                ty < brush.h,
                ty as int == (tyi + off_y) % bhi,
                0 < brush_h <= height_left,
                ty + brush_h <= brush.h,
                y <= brush_h,
                done == rows_calls(x0, y0, bwi, bhi, txi, tyi, width as int, off_y + y),
                groups_view(groups@) == apply_fold(group, *layer, brush, destructive, done, last0, Some(false)).2,
                *last_apply == apply_fold(group, *layer, brush, destructive, done, last0, Some(false)).0,
                front_created == apply_fold(group, *layer, brush, destructive, done, last0, Some(false)).1,
                forall|i: int|
                    0 <= i < groups@.len() ==> (#[trigger] groups@[i]).identifier == Some(
                        (layer.apply_layer(), brush_id_counter),
                    ),
            decreases brush_h - y,
        {
            let brush_y = ty + y;
            let ghost row = (off_y + y) as int;
            proof {
                assert(brush_y as int == (tyi + row) % bhi) by {
                    lemma_split_index(tyi + off_y, bhi);
                    let q = (tyi + off_y) / bhi;
                    crate::tiles::lemma_join_index(q, ty + y, bhi);
                    assert(tyi + row == q * bhi + (ty + y));
                }
            }
            let ghost row_start = done;
            let mut off_x: u16 = 0;
            let mut width_left: u16 = width;
            let mut tx: u16 = tile_offset.0;
            while width_left > 0
                invariant
                    layer.wf(group),
                    layer matches TileLayerRef::Physics { layer_index } ==> group.layers@[layer_index as int]@.kind()
                        != PhysKind::Arbitrary,
                    brush.wf(),
                    center.0 > i32::MIN,
                    center.1 > i32::MIN,
                    center.0 + width <= i32::MAX,
                    center.1 + height <= i32::MAX,
                    x0 == center.0,
                    y0 == center.1,
                    bwi == brush.w,
                    txi == tile_offset.0,
                    tx < brush.w,
                    off_x + width_left == width,
                    brush_y < brush.h,
                    row < height,
                    row == off_y + y,
                    brush_y as int == (tyi + row) % bhi,
                    done + row_calls(x0, y0 + row, brush_y as int, bwi, tx as int, width_left as int, off_x as int)
                        == row_start + row_calls(x0, y0 + row, brush_y as int, bwi, txi, width as int, 0),
                    groups_view(groups@) == apply_fold(group, *layer, brush, destructive, done, last0, Some(false)).2,
                    *last_apply == apply_fold(group, *layer, brush, destructive, done, last0, Some(false)).0,
                    front_created == apply_fold(group, *layer, brush, destructive, done, last0, Some(false)).1,
                    forall|i: int|
                        0 <= i < groups@.len() ==> (#[trigger] groups@[i]).identifier == Some(
                            (layer.apply_layer(), brush_id_counter),
                        ),
                decreases width_left,
            {
                let brush_x = tx;
                let brush_w = if brush.w - tx < width_left {
                    brush.w - tx
                } else {
                    width_left
                };
                let ax = center.0 + off_x as i32;
                let ay = center.1 + off_y as i32 + y as i32;
                let ghost call: ApplyCall = (ax as int, ay as int, brush_x as int, brush_y as int, brush_w as int);
                proof {
                    lemma_row_calls_step(x0, y0 + row, brush_y as int, bwi, tx as int, width_left as int, off_x as int);
                    assert(done + row_calls(x0, y0 + row, brush_y as int, bwi, tx as int, width_left as int, off_x as int)
                        =~= done.push(call) + row_calls(x0, y0 + row, brush_y as int, bwi, 0, (width_left - brush_w) as int, (off_x + brush_w) as int));
                    assert(done.push(call).drop_last() =~= done);
                }
                let ghost groups_before = groups@;
                let res = apply_brush_internal(
                    brush_id_counter,
                    group,
                    layer,
                    brush,
                    last_apply,
                    ax,
                    ay,
                    brush_x,
                    brush_y,
                    brush_w,
                    1,
                    &mut front_created,
                    destructive,
                );
                match res {
                    Some(g) => {
                        groups.push(g);
                    },
                    None => {},
                }
                proof {
                    done = done.push(call);
                    assert(groups_view(groups@) =~= apply_fold(group, *layer, brush, destructive, done, last0, Some(false)).2);
                }
                width_left = width_left - brush_w;
                tx = 0;
                off_x = off_x + brush_w;
            }
            proof {
                assert(row_calls(x0, y0 + row, brush_y as int, bwi, tx as int, 0, off_x as int) =~= Seq::<ApplyCall>::empty());
                assert(done =~= row_start + row_calls(x0, y0 + row, brush_y as int, bwi, txi, width as int, 0));
                assert(rows_calls(x0, y0, bwi, bhi, txi, tyi, width as int, row + 1) == rows_calls(x0, y0, bwi, bhi, txi, tyi, width as int, row) + row_calls(x0, y0 + row, (tyi + row) % bhi, bwi, txi, width as int, 0));
            }
            y += 1;
        }
        proof {
            if brush_h < height_left {
                assert(ty + brush_h == brush.h);
                lemma_split_index(tyi + off_y, bhi);
                let q = (tyi + off_y) / bhi;
                assert((q + 1) * bhi == q * bhi + bhi) by (nonlinear_arith);
                vstd::arithmetic::div_mod::lemma_fundamental_div_mod_converse(
                    tyi + off_y + brush_h,
                    bhi,
                    q + 1,
                    0,
                );
            }
        }
        height_left = height_left - brush_h;
        ty = 0;
        off_y = off_y + brush_h;
    }
    groups
}

/// Result of a fill of `s` from `pos` with brush tile `b0`: old tiles, new
/// tiles, top-left corner, width and height of the filled box.
pub open spec fn fill_result<T: TileKind>(s: Seq<T>, b0: T, w: int, h: int, pos: (u16, u16)) -> (
    Seq<T>,
    Seq<T>,
    (u16, u16),
    u16,
    u16,
) {
    let start = (pos.0 as int, pos.1 as int);
    let (lo, hi) = crate::fill::fill_bounds(s, w, h, start);
    let fw = (hi.0 - lo.0 + 1) as u16;
    let fh = (hi.1 - lo.1 + 1) as u16;
    (
        collect_spec(s, w as nat, lo.0 as nat, fw as nat, lo.1 as nat, fh as nat),
        crate::fill::fill_new_spec(s, b0, w, h, start, lo, fw as int, fh as int, false),
        lo,
        fw,
        fh,
    )
}

/// Old tiles, new tiles and box of a fill on a physics layer.
pub open spec fn fill_phys_spec(
    layer: PhysicsTilesView,
    brush: PhysicsTilesView,
    w: int,
    h: int,
    pos: (u16, u16),
) -> (PhysicsTilesView, PhysicsTilesView, (u16, u16), u16, u16) {
    match (layer, brush) {
        (PhysicsTilesView::Game(s), PhysicsTilesView::Game(b)) => {
            let r = fill_result(s, b[0], w, h, pos);
            (PhysicsTilesView::Game(r.0), PhysicsTilesView::Game(r.1), r.2, r.3, r.4)
        },
        (PhysicsTilesView::Front(s), PhysicsTilesView::Front(b)) => {
            let r = fill_result(s, b[0], w, h, pos);
            (PhysicsTilesView::Front(r.0), PhysicsTilesView::Front(r.1), r.2, r.3, r.4)
        },
        (PhysicsTilesView::Tele(s), PhysicsTilesView::Tele(b)) => {
            let r = fill_result(s, b[0], w, h, pos);
            (PhysicsTilesView::Tele(r.0), PhysicsTilesView::Tele(r.1), r.2, r.3, r.4)
        },
        (PhysicsTilesView::Speedup(s), PhysicsTilesView::Speedup(b)) => {
            let r = fill_result(s, b[0], w, h, pos);
            (PhysicsTilesView::Speedup(r.0), PhysicsTilesView::Speedup(r.1), r.2, r.3, r.4)
        },
        (PhysicsTilesView::Switch(s), PhysicsTilesView::Switch(b)) => {
            let r = fill_result(s, b[0], w, h, pos);
            (PhysicsTilesView::Switch(r.0), PhysicsTilesView::Switch(r.1), r.2, r.3, r.4)
        },
        (PhysicsTilesView::Tune(s), PhysicsTilesView::Tune(b)) => {
            let r = fill_result(s, b[0], w, h, pos);
            (PhysicsTilesView::Tune(r.0), PhysicsTilesView::Tune(r.1), r.2, r.3, r.4)
        },
        _ => (layer, brush, (0, 0), 0, 0),
    }
}

/// The actions of the fill tool at `pos` of a layer.
pub open spec fn fill_actions_spec(
    group: &PhysicsGroup,
    layer: TileLayerRef,
    brush_tiles: LayerTilesView,
    pos: (u16, u16),
) -> Seq<EditorActionView> {
    match layer {
        TileLayerRef::Physics { layer_index } => {
            let f = fill_phys_spec(
                group.layers@[layer_index as int]@,
                brush_phys(brush_tiles),
                group.width as int,
                group.height as int,
                pos,
            );
            phy_brush_actions_spec(
                group.layers_view(),
                group.width as nat,
                group.height as nat,
                f.0,
                f.1,
                f.2.0,
                f.3,
                f.2.1,
                f.4,
                layer_index,
                None,
            )
        },
        TileLayerRef::Design { group_index, layer_index, is_background, layer } => {
            let f = fill_result(
                layer.tiles@,
                brush_design(brush_tiles)[0],
                layer.width as int,
                layer.height as int,
                pos,
            );
            seq![
                EditorActionView::TileLayerReplaceTiles {
                    is_background,
                    group_index,
                    layer_index,
                    old_tiles: f.0,
                    new_tiles: f.1,
                    x: f.2.0,
                    y: f.2.1,
                    w: f.3,
                    h: f.4,
                },
            ]
        },
    }
}

/// The fill tool at `pos`: fills the region of equal tiles around `pos` on
/// the layer with the brush's first tile and returns the actions.
pub fn fill_layer_actions(
    group: &PhysicsGroup,
    layer: &TileLayerRef,
    brush: &TileBrushTiles,
    pos: (u16, u16),
) -> (r: Vec<EditorAction>)
    requires
        layer.wf(group),
        brush.wf(),
        tiles_match_kind(brush.tiles@, layer_kind(*layer, group)),
        layer matches TileLayerRef::Physics { layer_index } ==> group.layers@[layer_index as int]@.kind()
            != PhysKind::Arbitrary,
        pos.0 < layer.dims(group).0,
        pos.1 < layer.dims(group).1,
    ensures
        actions_view(r@) == fill_actions_spec(group, *layer, brush.tiles@, pos),
{
    match layer {
        TileLayerRef::Physics { layer_index } => {
            let layer_tiles = &group.layers[*layer_index];
            proof {
                assert(layer_tiles@.len() == group.width * group.height);
                assert(brush.tiles@.len() > 0) by {
                    crate::tiles::lemma_u16_product(brush.w as int, brush.h as int);
                    assert(brush.w * brush.h > 0) by (nonlinear_arith)
                        requires brush.w > 0, brush.h > 0;
                }
            }
            let (old_p, new_p, lo, fw, fh) = match (layer_tiles, &brush.tiles) {
                (PhysicsTiles::Game(t), LayerTiles::Physics(PhysicsTiles::Game(b))) => {
                    let (o, n, lo, fw, fh) = fill_tiles(t, b, group.width, group.height, pos, false);
                    (PhysicsTiles::Game(o), PhysicsTiles::Game(n), lo, fw, fh)
                },
                (PhysicsTiles::Front(t), LayerTiles::Physics(PhysicsTiles::Front(b))) => {
                    let (o, n, lo, fw, fh) = fill_tiles(t, b, group.width, group.height, pos, false);
                    (PhysicsTiles::Front(o), PhysicsTiles::Front(n), lo, fw, fh)
                },
                (PhysicsTiles::Tele(t), LayerTiles::Physics(PhysicsTiles::Tele(b))) => {
                    let (o, n, lo, fw, fh) = fill_tiles(t, b, group.width, group.height, pos, false);
                    (PhysicsTiles::Tele(o), PhysicsTiles::Tele(n), lo, fw, fh)
                },
                (PhysicsTiles::Speedup(t), LayerTiles::Physics(PhysicsTiles::Speedup(b))) => {
                    let (o, n, lo, fw, fh) = fill_tiles(t, b, group.width, group.height, pos, false);
                    (PhysicsTiles::Speedup(o), PhysicsTiles::Speedup(n), lo, fw, fh)
                },
                (PhysicsTiles::Switch(t), LayerTiles::Physics(PhysicsTiles::Switch(b))) => {
                    let (o, n, lo, fw, fh) = fill_tiles(t, b, group.width, group.height, pos, false);
                    (PhysicsTiles::Switch(o), PhysicsTiles::Switch(n), lo, fw, fh)
                },
                (PhysicsTiles::Tune(t), LayerTiles::Physics(PhysicsTiles::Tune(b))) => {
                    let (o, n, lo, fw, fh) = fill_tiles(t, b, group.width, group.height, pos, false);
                    (PhysicsTiles::Tune(o), PhysicsTiles::Tune(n), lo, fw, fh)
                },
                _ => {
                    proof {
                        assert(false);
                    }
                    return Vec::new();
                },
            };
            let mut flag: Option<bool> = None;
            phy_brush_actions(group, old_p, new_p, lo.0, fw, lo.1, fh, *layer_index, &mut flag)
        },
        TileLayerRef::Design { group_index, layer_index, is_background, layer: design } => {
            let b = match &brush.tiles {
                LayerTiles::Design(b) => b,
                LayerTiles::Physics(_) => {
                    proof {
                        assert(false);
                    }
                    return Vec::new();
                },
            };
            proof {
                assert(b@.len() > 0) by {
                    assert(brush.w * brush.h > 0) by (nonlinear_arith)
                        requires brush.w > 0, brush.h > 0;
                }
            }
            let (o, n, lo, fw, fh) = fill_tiles(&design.tiles, b, design.width, design.height, pos, false);
            design_brush_actions(o, n, *is_background, *group_index, *layer_index, lo.0, lo.1, fw, fh)
        },
    }
}

} // verus!
