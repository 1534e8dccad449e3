//! Hook-through cuts: a through cut lives on the front layer, and the game
//! layer holds an unhookable tile under it. Pasting on either layer keeps
//! the two in step.
use vstd::prelude::*;

use crate::brush::rect_cell;
use crate::layers::{
    actions_view, collect_phy_tiles, first_of_kind, first_of_kind_index, opt_seq,
    EditorAction, EditorActionView, PhysKind, PhysicsGroup, PhysicsTiles, PhysicsTilesView,
};
use crate::tiles::{
    collect_spec, lemma_cell_before_row, lemma_join_index, lemma_split_index, lemma_u16_product,
    TileBase,
    TILE_AIR, TILE_NO_HOOK, TILE_THROUGH_CUT,
};

verus! {

/// An empty tile.
pub open spec fn air() -> TileBase {
    TileBase { index: TILE_AIR, flags: 0 }
}

/// Some cut of the old front tiles becomes air.
pub open spec fn removes_cuts(fo: Seq<TileBase>, fnw: Seq<TileBase>) -> bool {
    exists|i: int|
        0 <= i < fo.len() && (#[trigger] fo[i]).index == TILE_THROUGH_CUT && fnw[i].index
            == TILE_AIR
}

/// Some non-cut of the old front tiles becomes a cut.
pub open spec fn adds_cuts(fo: Seq<TileBase>, fnw: Seq<TileBase>) -> bool {
    exists|i: int|
        0 <= i < fo.len() && (#[trigger] fo[i]).index != TILE_THROUGH_CUT && fnw[i].index
            == TILE_THROUGH_CUT
}

/// Game tiles under a front change: an unhookable tile under a removed cut
/// becomes air, and a hookable one under a new cut becomes unhookable.
pub open spec fn game_cut_fix(g: Seq<TileBase>, fo: Seq<TileBase>, fnw: Seq<TileBase>) -> Seq<
    TileBase,
> {
    Seq::new(
        g.len(),
        |i: int|
            if g[i].index == TILE_NO_HOOK && fo[i].index == TILE_THROUGH_CUT && fnw[i].index
                == TILE_AIR {
                air()
            } else if g[i].index != TILE_NO_HOOK && fo[i].index != TILE_THROUGH_CUT
                && fnw[i].index == TILE_THROUGH_CUT {
                TileBase { index: TILE_NO_HOOK, flags: 0 }
            } else {
                g[i]
            },
    )
}

/// Some unhookable game tile under a cut is replaced by something hookable.
pub open spec fn game_replaces_cut(og: Seq<TileBase>, fl: Seq<TileBase>, ng: Seq<TileBase>) -> bool {
    exists|i: int|
        0 <= i < og.len() && (#[trigger] og[i]).index == TILE_NO_HOOK && fl[i].index
            == TILE_THROUGH_CUT && ng[i].index != TILE_NO_HOOK
}

/// Some new game tile is a cut where the front layer has none.
pub open spec fn game_contains_cut(ng: Seq<TileBase>, fl: Seq<TileBase>) -> bool {
    exists|i: int|
        0 <= i < ng.len() && (#[trigger] ng[i]).index == TILE_THROUGH_CUT && fl[i].index
            != TILE_THROUGH_CUT
}

/// Some tile is a cut.
pub open spec fn contains_cut(ng: Seq<TileBase>) -> bool {
    exists|i: int| 0 <= i < ng.len() && (#[trigger] ng[i]).index == TILE_THROUGH_CUT
}

/// Front tiles under a game change: a cut whose unhookable game tile is
/// replaced becomes air, and every cut pasted on the game layer moves here.
pub open spec fn front_cut_fix(og: Seq<TileBase>, fl: Seq<TileBase>, ng: Seq<TileBase>) -> Seq<
    TileBase,
> {
    Seq::new(
        fl.len(),
        |i: int|
            if ng[i].index == TILE_THROUGH_CUT {
                TileBase { index: TILE_THROUGH_CUT, flags: 0 }
            } else if og[i].index == TILE_NO_HOOK && fl[i].index == TILE_THROUGH_CUT
                && ng[i].index != TILE_NO_HOOK {
                air()
            } else {
                fl[i]
            },
    )
}

/// A whole new front layer holding the cuts of `ng` (a `bw` x `bh` rectangle
/// at (`x`, `y`)) and air elsewhere.
pub open spec fn front_from_cuts(
    ng: Seq<TileBase>,
    w: nat,
    h: nat,
    x: nat,
    y: nat,
    bw: nat,
    bh: nat,
) -> Seq<TileBase> {
    Seq::new(
        w * h,
        |p: int|
            {
                let px = p % (w as int);
                let py = p / (w as int);
                if x <= px < x + bw && y <= py < y + bh && ng[(py - y) * bw + (px - x)].index
                    == TILE_THROUGH_CUT {
                    TileBase { index: TILE_THROUGH_CUT, flags: 0 }
                } else {
                    air()
                }
            },
    )
}

/// Cuts are never stored on the game layer: they become unhookable tiles.
pub open spec fn cuts_to_no_hook(ng: Seq<TileBase>) -> Seq<TileBase> {
    Seq::new(
        ng.len(),
        |i: int|
            if ng[i].index == TILE_THROUGH_CUT {
                TileBase { index: TILE_NO_HOOK, flags: ng[i].flags }
            } else {
                ng[i]
            },
    )
}

/// Action on the game layer when front tiles add or remove cuts.
pub open spec fn hook_front_action(
    layers: Seq<PhysicsTilesView>,
    w: nat,
    old: PhysicsTilesView,
    new: PhysicsTilesView,
    x: u16,
    bw: u16,
    y: u16,
    bh: u16,
) -> Option<EditorActionView> {
    match (old, new) {
        (PhysicsTilesView::Front(fo), PhysicsTilesView::Front(fnw)) => {
            if removes_cuts(fo, fnw) || adds_cuts(fo, fnw) {
                match first_of_kind(layers, PhysKind::Game) {
                    Some(li) => {
                        let g = collect_spec(
                            layers[li].bases(),
                            w,
                            x as nat,
                            bw as nat,
                            y as nat,
                            bh as nat,
                        );
                        Some(
                            EditorActionView::TilePhysicsLayerReplaceTiles {
                                layer_index: li as usize,
                                old_tiles: PhysicsTilesView::Game(g),
                                new_tiles: PhysicsTilesView::Game(game_cut_fix(g, fo, fnw)),
                                x,
                                y,
                                w: bw,
                                h: bh,
                            },
                        )
                    },
                    None => None,
                }
            } else {
                None
            }
        },
        _ => None,
    }
}

/// The front tiles under the rectangle: those of the first front layer, or,
/// while a repeated paste has already created one, an empty rectangle of the
/// layer about to be added.
pub open spec fn front_source(
    layers: Seq<PhysicsTilesView>,
    w: nat,
    x: u16,
    bw: u16,
    y: u16,
    bh: u16,
    flag: Option<bool>,
) -> Option<(int, Seq<TileBase>)> {
    match first_of_kind(layers, PhysKind::Front) {
        Some(fi) => Some(
            (fi, collect_spec(layers[fi].bases(), w, x as nat, bw as nat, y as nat, bh as nat)),
        ),
        None => if flag == Some(true) {
            Some((layers.len() as int, Seq::new((bw * bh) as nat, |i: int| air())))
        } else {
            None
        },
    }
}

/// Action on the front layer when game tiles replace or add cuts.
pub open spec fn hook_game_action(
    layers: Seq<PhysicsTilesView>,
    w: nat,
    old: PhysicsTilesView,
    new: PhysicsTilesView,
    x: u16,
    bw: u16,
    y: u16,
    bh: u16,
    flag: Option<bool>,
) -> Option<EditorActionView> {
    match (old, new) {
        (PhysicsTilesView::Game(og), PhysicsTilesView::Game(ng)) => match front_source(
            layers,
            w,
            x,
            bw,
            y,
            bh,
            flag,
        ) {
            Some((fi, fl)) => if game_replaces_cut(og, fl, ng) || game_contains_cut(ng, fl) {
                Some(
                    EditorActionView::TilePhysicsLayerReplaceTiles {
                        layer_index: fi as usize,
                        old_tiles: PhysicsTilesView::Front(fl),
                        new_tiles: PhysicsTilesView::Front(front_cut_fix(og, fl, ng)),
                        x,
                        y,
                        w: bw,
                        h: bh,
                    },
                )
            } else {
                None
            },
            None => None,
        },
        _ => None,
    }
}

/// Action that creates the front layer when game tiles bring cuts and the
/// map has no front layer yet.
pub open spec fn hook_add_front(
    layers: Seq<PhysicsTilesView>,
    w: nat,
    h: nat,
    new: PhysicsTilesView,
    x: u16,
    bw: u16,
    y: u16,
    bh: u16,
    flag: Option<bool>,
) -> Option<EditorActionView> {
    match new {
        PhysicsTilesView::Game(ng) => if contains_cut(ng) && first_of_kind(layers, PhysKind::Front)
            is None && flag != Some(true) {
            Some(
                EditorActionView::AddPhysicsTileLayer {
                    index: layers.len() as usize,
                    tiles: front_from_cuts(ng, w, h, x as nat, y as nat, bw as nat, bh as nat),
                },
            )
        } else {
            None
        },
        _ => None,
    }
}

/// The actions that keep the game and front layers in step, in order.
pub open spec fn hook_actions(
    layers: Seq<PhysicsTilesView>,
    w: nat,
    h: nat,
    old: PhysicsTilesView,
    new: PhysicsTilesView,
    x: u16,
    bw: u16,
    y: u16,
    bh: u16,
    flag: Option<bool>,
) -> Seq<EditorActionView> {
    opt_seq(hook_front_action(layers, w, old, new, x, bw, y, bh)) + opt_seq(
        hook_game_action(layers, w, old, new, x, bw, y, bh, flag),
    ) + opt_seq(hook_add_front(layers, w, h, new, x, bw, y, bh, flag))
}

/// The pasted tiles after the cut bookkeeping.
pub open spec fn hook_new_tiles(new: PhysicsTilesView) -> PhysicsTilesView {
    match new {
        PhysicsTilesView::Game(ng) => PhysicsTilesView::Game(cuts_to_no_hook(ng)),
        _ => new,
    }
}

/// A repeated paste remembers that it has created the front layer.
pub open spec fn hook_flag(
    layers: Seq<PhysicsTilesView>,
    w: nat,
    h: nat,
    new: PhysicsTilesView,
    x: u16,
    bw: u16,
    y: u16,
    bh: u16,
    flag: Option<bool>,
) -> Option<bool> {
    if hook_add_front(layers, w, h, new, x, bw, y, bh, flag) is Some && flag is Some {
        Some(true)
    } else {
        flag
    }
}

fn any_removes_cuts(fo: &Vec<TileBase>, fnw: &Vec<TileBase>) -> (r: bool)
    requires
        fnw@.len() >= fo@.len(),
    ensures
        r == removes_cuts(fo@, fnw@),
{
    let mut i: usize = 0;
    while i < fo.len()
        invariant
            i <= fo@.len(),
            fnw@.len() >= fo@.len(),
            forall|j: int|
                0 <= j < i ==> !((#[trigger] fo@[j]).index == TILE_THROUGH_CUT && fnw@[j].index
                    == TILE_AIR),
        decreases fo@.len() - i,
    {
        if fo[i].index == TILE_THROUGH_CUT && fnw[i].index == TILE_AIR {
            return true;
        }
        i += 1;
    }
    false
}

fn any_adds_cuts(fo: &Vec<TileBase>, fnw: &Vec<TileBase>) -> (r: bool)
    requires
        fnw@.len() >= fo@.len(),
    ensures
        r == adds_cuts(fo@, fnw@),
{
    let mut i: usize = 0;
    while i < fo.len()
        invariant
            i <= fo@.len(),
            fnw@.len() >= fo@.len(),
            forall|j: int|
                0 <= j < i ==> !((#[trigger] fo@[j]).index != TILE_THROUGH_CUT && fnw@[j].index
                    == TILE_THROUGH_CUT),
        decreases fo@.len() - i,
    {
        if fo[i].index != TILE_THROUGH_CUT && fnw[i].index == TILE_THROUGH_CUT {
            return true;
        }
        i += 1;
    }
    false
}

fn any_game_replaces_cut(og: &Vec<TileBase>, fl: &Vec<TileBase>, ng: &Vec<TileBase>) -> (r: bool)
    requires
        fl@.len() >= og@.len(),
        ng@.len() >= og@.len(),
    ensures
        r == game_replaces_cut(og@, fl@, ng@),
{
    let mut i: usize = 0;
    while i < og.len()
        invariant
            i <= og@.len(),
            fl@.len() >= og@.len(),
            ng@.len() >= og@.len(),
            forall|j: int|
                0 <= j < i ==> !((#[trigger] og@[j]).index == TILE_NO_HOOK && fl@[j].index
                    == TILE_THROUGH_CUT && ng@[j].index != TILE_NO_HOOK),
        decreases og@.len() - i,
    {
        if og[i].index == TILE_NO_HOOK && fl[i].index == TILE_THROUGH_CUT && ng[i].index
            != TILE_NO_HOOK {
            return true;
        }
        i += 1;
    }
    false
}

fn any_game_contains_cut(ng: &Vec<TileBase>, fl: &Vec<TileBase>) -> (r: bool)
    requires
        fl@.len() >= ng@.len(),
    ensures
        r == game_contains_cut(ng@, fl@),
{
    let mut i: usize = 0;
    while i < ng.len()
        invariant
            i <= ng@.len(),
            fl@.len() >= ng@.len(),
            forall|j: int|
                0 <= j < i ==> !((#[trigger] ng@[j]).index == TILE_THROUGH_CUT && fl@[j].index
                    != TILE_THROUGH_CUT),
        decreases ng@.len() - i,
    {
        if ng[i].index == TILE_THROUGH_CUT && fl[i].index != TILE_THROUGH_CUT {
            return true;
        }
        i += 1;
    }
    false
}

fn any_cut(ng: &Vec<TileBase>) -> (r: bool)
    ensures
        r == contains_cut(ng@),
{
    let mut i: usize = 0;
    while i < ng.len()
        invariant
            i <= ng@.len(),
            forall|j: int| 0 <= j < i ==> (#[trigger] ng@[j]).index != TILE_THROUGH_CUT,
        decreases ng@.len() - i,
    {
        if ng[i].index == TILE_THROUGH_CUT {
            return true;
        }
        i += 1;
    }
    false
}

fn fix_game_tiles(g: &mut Vec<TileBase>, fo: &Vec<TileBase>, fnw: &Vec<TileBase>)
    requires
        fo@.len() >= old(g)@.len(),
        fnw@.len() >= old(g)@.len(),
    ensures
        final(g)@ == game_cut_fix(old(g)@, fo@, fnw@),
{
    let ghost orig = g@;
    let n = g.len();
    let mut i: usize = 0;
    while i < n
        invariant
            n == orig.len(),
            g@.len() == n,
            i <= n,
            fo@.len() >= n,
            fnw@.len() >= n,
            forall|k: int| 0 <= k < i ==> g@[k] == game_cut_fix(orig, fo@, fnw@)[k],
            forall|k: int| i <= k < n ==> g@[k] == orig[k],
        decreases n - i,
    {
        let t = g[i];
        if t.index == TILE_NO_HOOK && fo[i].index == TILE_THROUGH_CUT && fnw[i].index == TILE_AIR {
            g.set(i, TileBase { index: TILE_AIR, flags: 0 });
        } else if t.index != TILE_NO_HOOK && fo[i].index != TILE_THROUGH_CUT && fnw[i].index
            == TILE_THROUGH_CUT {
            g.set(i, TileBase { index: TILE_NO_HOOK, flags: 0 });
        }
        i += 1;
    }
    assert(g@ =~= game_cut_fix(orig, fo@, fnw@));
}

fn fix_front_tiles(f: &mut Vec<TileBase>, og: &Vec<TileBase>, ng: &Vec<TileBase>)
    requires
        og@.len() == old(f)@.len(),
        ng@.len() == old(f)@.len(),
    ensures
        final(f)@ == front_cut_fix(og@, old(f)@, ng@),
{
    let ghost orig = f@;
    let n = f.len();
    let mut i: usize = 0;
    while i < n
        invariant
            n == orig.len(),
            f@.len() == n,
            i <= n,
            og@.len() == n,
            ng@.len() == n,
            forall|k: int| 0 <= k < i ==> f@[k] == front_cut_fix(og@, orig, ng@)[k],
            forall|k: int| i <= k < n ==> f@[k] == orig[k],
        decreases n - i,
    {
        if og[i].index == TILE_NO_HOOK && f[i].index == TILE_THROUGH_CUT && ng[i].index
            != TILE_NO_HOOK {
            f.set(i, TileBase { index: TILE_AIR, flags: 0 });
        }
        if ng[i].index == TILE_THROUGH_CUT {
            f.set(i, TileBase { index: TILE_THROUGH_CUT, flags: 0 });
        }
        i += 1;
    }
    assert(f@ =~= front_cut_fix(og@, orig, ng@));
}

fn make_front_from_cuts(
    ng: &Vec<TileBase>,
    w: u16,
    h: u16,
    x: u16,
    y: u16,
    bw: u16,
    bh: u16,
) -> (r: Vec<TileBase>)
    requires
        0 < w,
        0 < h,
        x + bw <= w,
        y + bh <= h,
        ng@.len() == bw * bh,
    ensures
        r@ == front_from_cuts(ng@, w as nat, h as nat, x as nat, y as nat, bw as nat, bh as nat),
{
    proof {
        lemma_u16_product(w as int, h as int);
        lemma_u16_product(bw as int, bh as int);
    }
    let n: usize = w as usize * h as usize;
    let ghost spec_r = front_from_cuts(
        ng@,
        w as nat,
        h as nat,
        x as nat,
        y as nat,
        bw as nat,
        bh as nat,
    );
    let mut r: Vec<TileBase> = Vec::new();
    let mut p: usize = 0;
    while p < n
        invariant
            n == w * h,
            bw * bh <= usize::MAX,
            bh * bw == bw * bh,
            0 < w,
            x + bw <= w,
            y + bh <= h,
            ng@.len() == bw * bh,
            p <= n,
            r@.len() == p,
            spec_r == front_from_cuts(
                ng@,
                w as nat,
                h as nat,
                x as nat,
                y as nat,
                bw as nat,
                bh as nat,
            ),
            forall|k: int| 0 <= k < p ==> r@[k] == spec_r[k],
        decreases n - p,
    {
        let px = p % w as usize;
        let py = p / w as usize;
        let mut t = TileBase { index: TILE_AIR, flags: 0 };
        if x as usize <= px && px < x as usize + bw as usize && y as usize <= py && py < y as usize
            + bh as usize {
            proof {
                lemma_cell_before_row(
                    (py - y) as int,
                    (px - x) as int,
                    bw as int,
                    bh as int,
                );
            }
            let k = (py - y as usize) * bw as usize + (px - x as usize);
            if ng[k].index == TILE_THROUGH_CUT {
                t = TileBase { index: TILE_THROUGH_CUT, flags: 0 };
            }
        }
        r.push(t);
        p += 1;
    }
    assert(r@ =~= spec_r);
    r
}

fn cuts_become_no_hook(ng: &mut Vec<TileBase>)
    ensures
        final(ng)@ == cuts_to_no_hook(old(ng)@),
{
    let ghost orig = ng@;
    let n = ng.len();
    let mut i: usize = 0;
    while i < n
        invariant
            n == orig.len(),
            ng@.len() == n,
            i <= n,
            forall|k: int| 0 <= k < i ==> ng@[k] == cuts_to_no_hook(orig)[k],
            forall|k: int| i <= k < n ==> ng@[k] == orig[k],
        decreases n - i,
    {
        let t = ng[i];
        if t.index == TILE_THROUGH_CUT {
            ng.set(i, TileBase { index: TILE_NO_HOOK, flags: t.flags });
        }
        i += 1;
    }
    assert(ng@ =~= cuts_to_no_hook(orig));
}

fn air_tiles(n: usize) -> (r: Vec<TileBase>)
    ensures
        r@ == Seq::new(n as nat, |i: int| air()),
{
    let mut r: Vec<TileBase> = Vec::new();
    while r.len() < n
        invariant
            r@.len() <= n,
            forall|k: int| 0 <= k < r@.len() ==> r@[k] == air(),
        decreases n - r@.len(),
    {
        r.push(TileBase { index: TILE_AIR, flags: 0 });
    }
    assert(r@ =~= Seq::new(n as nat, |i: int| air()));
    r
}

pub proof fn lemma_rect_len(w: int, h: int, x: int, bw: int, y: int, bh: int)
    requires
        0 < w,
        0 <= x,
        0 <= y,
        x + bw <= w,
        y + bh <= h,
        0 <= bw,
        0 <= bh,
    ensures
        crate::tiles::collected_rows((w * h) as nat, w as nat, y as nat, bh as nat) * bw == bw * bh,
{
    lemma_join_index(h, 0, w);
    assert(w * h == h * w) by (nonlinear_arith);
    assert((w * h) / w == h);
    assert(bh * bw == bw * bh) by (nonlinear_arith);
}

/// Keeps the game and front layers in step for a paste of `new_tiles` over
/// `old_tiles` at (`x`, `y`): appends the actions that change the other layer
/// (and that create the front layer if cuts arrive on a map without one), and
/// turns pasted cuts on the game layer into unhookable tiles.
/// `front_created` is `None` outside a repeated paste; during one it records
/// whether the paste already created the front layer.
pub fn hookthrough_cut(
    group: &PhysicsGroup,
    old_tiles: &PhysicsTiles,
    new_tiles: &mut PhysicsTiles,
    x: u16,
    brush_w: u16,
    y: u16,
    brush_h: u16,
    actions: &mut Vec<EditorAction>,
    front_created: &mut Option<bool>,
)
    requires
        group.wf(),
        brush_w > 0,
        brush_h > 0,
        x + brush_w <= group.width,
        y + brush_h <= group.height,
        old_tiles@.len() == brush_w * brush_h,
        old(new_tiles)@.len() == brush_w * brush_h,
    ensures
        actions_view(final(actions)@) == actions_view(old(actions)@) + hook_actions(
            group.layers_view(),
            group.width as nat,
            group.height as nat,
            old_tiles@,
            old(new_tiles)@,
            x,
            brush_w,
            y,
            brush_h,
            *old(front_created),
        ),
        final(new_tiles)@ == hook_new_tiles(old(new_tiles)@),
        *final(front_created) == hook_flag(
            group.layers_view(),
            group.width as nat,
            group.height as nat,
            old(new_tiles)@,
            x,
            brush_w,
            y,
            brush_h,
            *old(front_created),
        ),
{
    let ghost lv = group.layers_view();
    let ghost new0 = new_tiles@;
    let ghost flag0 = *front_created;
    let ghost acts0 = actions_view(actions@);
    let ghost gw = group.width as nat;
    let ghost gh = group.height as nat;
    let bw = brush_w as usize;
    let bh = brush_h as usize;
    let xu = x as usize;
    let yu = y as usize;
    proof {
        lemma_rect_len(group.width as int, group.height as int, x as int, bw as int, y as int, bh as int);
        lemma_u16_product(bw as int, bh as int);
    }
    // the front layer adds or removes cuts: fix the game layer below
    let a: Option<EditorAction> = match old_tiles {
        PhysicsTiles::Front(fo) => match &*new_tiles {
            PhysicsTiles::Front(fnw) => {
                if any_removes_cuts(fo, fnw) || any_adds_cuts(fo, fnw) {
                    match first_of_kind_index(group, PhysKind::Game) {
                        Some(li) => {
                            let layer = &group.layers[li];
                            proof {
                                assert(lv[li as int] == layer@);
                            }
                            let old_g = collect_phy_tiles(layer, group.width, xu, bw, yu, bh);
                            let new_g = collect_phy_tiles(layer, group.width, xu, bw, yu, bh);
                            match new_g {
                                PhysicsTiles::Game(mut g) => {
                                    fix_game_tiles(&mut g, fo, fnw);
                                    Some(
                                        EditorAction::TilePhysicsLayerReplaceTiles {
                                            layer_index: li,
                                            old_tiles: old_g,
                                            new_tiles: PhysicsTiles::Game(g),
                                            x,
                                            y,
                                            w: brush_w,
                                            h: brush_h,
                                        },
                                    )
                                },
                                _ => {
                                    proof {
                                        assert(false);
                                    }
                                    None
                                },
                            }
                        },
                        None => None,
                    }
                } else {
                    None
                }
            },
            _ => None,
        },
        _ => None,
    };
    proof {
        assert(a matches Some(act) ==> hook_front_action(lv, gw, old_tiles@, new0, x, brush_w, y, brush_h) == Some(act@));
        assert(a is None ==> hook_front_action(lv, gw, old_tiles@, new0, x, brush_w, y, brush_h) is None);
    }
    // the game layer replaces or adds cuts: fix the front layer above
    let b: Option<EditorAction> = match old_tiles {
        PhysicsTiles::Game(og) => match &*new_tiles {
            PhysicsTiles::Game(ng) => {
                let src: Option<(usize, Vec<TileBase>, Vec<TileBase>)> = match first_of_kind_index(
                    group,
                    PhysKind::Front,
                ) {
                    Some(fi) => {
                        let layer = &group.layers[fi];
                        proof {
                            assert(lv[fi as int] == layer@);
                        }
                        let fo = collect_phy_tiles(layer, group.width, xu, bw, yu, bh);
                        let fo2 = collect_phy_tiles(layer, group.width, xu, bw, yu, bh);
                        match (fo, fo2) {
                            (PhysicsTiles::Front(f1), PhysicsTiles::Front(f2)) => Some((fi, f1, f2)),
                            _ => {
                                proof {
                                    assert(false);
                                }
                                None
                            },
                        }
                    },
                    None => {
                        if matches!(*front_created, Some(true)) {
                            Some((group.layers.len(), air_tiles(bw * bh), air_tiles(bw * bh)))
                        } else {
                            None
                        }
                    },
                };
                proof {
                    assert(src matches Some(t) ==> front_source(lv, gw, x, brush_w, y, brush_h, flag0) == Some((t.0 as int, t.1@)) && t.1@ == t.2@ && t.0 == front_source(lv, gw, x, brush_w, y, brush_h, flag0).unwrap().0);
                    assert(src is None ==> front_source(lv, gw, x, brush_w, y, brush_h, flag0) is None);
                }
                match src {
                    Some((fi, fl, mut tiles)) => {
                        if any_game_replaces_cut(og, &fl, ng) || any_game_contains_cut(ng, &fl) {
                            fix_front_tiles(&mut tiles, og, ng);
                            Some(
                                EditorAction::TilePhysicsLayerReplaceTiles {
                                    layer_index: fi,
                                    old_tiles: PhysicsTiles::Front(fl),
                                    new_tiles: PhysicsTiles::Front(tiles),
                                    x,
                                    y,
                                    w: brush_w,
                                    h: brush_h,
                                },
                            )
                        } else {
                            None
                        }
                    },
                    None => None,
                }
            },
            _ => None,
        },
        _ => None,
    };
    proof {
        assert(b matches Some(act) ==> hook_game_action(lv, gw, old_tiles@, new0, x, brush_w, y, brush_h, flag0) == Some(act@));
        assert(b is None ==> hook_game_action(lv, gw, old_tiles@, new0, x, brush_w, y, brush_h, flag0) is None);
    }
    // cuts arrive on the game layer of a map without a front layer
    let c: Option<EditorAction> = match &*new_tiles {
        PhysicsTiles::Game(ng) => {
            if any_cut(ng) && first_of_kind_index(group, PhysKind::Front).is_none() && !matches!(
                *front_created,
                Some(true)
            ) {
                let tiles = make_front_from_cuts(
                    ng,
                    group.width,
                    group.height,
                    x,
                    y,
                    brush_w,
                    brush_h,
                );
                if front_created.is_some() {
                    *front_created = Some(true);
                }
                Some(EditorAction::AddPhysicsTileLayer { index: group.layers.len(), tiles })
            } else {
                None
            }
        },
        _ => None,
    };
    proof {
        assert(c matches Some(act) ==> hook_add_front(lv, gw, gh, new0, x, brush_w, y, brush_h, flag0) == Some(act@));
        assert(c is None ==> hook_add_front(lv, gw, gh, new0, x, brush_w, y, brush_h, flag0) is None);
    }
    let ghost acts_a = actions_view(actions@);
    match a {
        Some(act) => actions.push(act),
        None => {},
    }
    match b {
        Some(act) => actions.push(act),
        None => {},
    }
    match c {
        Some(act) => actions.push(act),
        None => {},
    }
    proof {
        assert(actions_view(actions@) =~= acts0 + hook_actions(
            lv,
            gw,
            gh,
            old_tiles@,
            new0,
            x,
            brush_w,
            y,
            brush_h,
            flag0,
        ));
    }
    // the game layer never stores cuts
    match new_tiles {
        PhysicsTiles::Game(ng) => cuts_become_no_hook(ng),
        _ => {},
    }
}

} // verus!
