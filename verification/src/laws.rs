//! Properties that hold across the tile tools and the animation editing.
use vstd::prelude::*;

use crate::animation::{
    index_after_delete, index_after_insert, indices_after_delete, indices_after_insert,
    insert_position, keys_after_delete, keys_after_insert, points_after_insert, AnimPoint,
};
use crate::brush::{
    apply_fold, brush_cut_spec, clip_axis, rect_cell, row_calls, rows_calls, ApplyCall, TileBrushTiles,
};
use crate::fill::{fill_reaches, in_grid, is_fill_path, number_at, touching, grid_index};
use crate::hookthrough::{
    adds_cuts, cuts_to_no_hook, front_cut_fix, game_contains_cut, game_cut_fix, game_replaces_cut,
    hook_new_tiles, removes_cuts,
};
use crate::objects::{is_quad_shift, BrushQuad};
use crate::select::{refused, taken};
use crate::tool::TileBrush;
use crate::layers::LayerTilesView;
use crate::layers::{no_keep, non_destructive_spec, PhysicsGroup, PhysicsTilesView, TileLayerRef};
use crate::tiles::{TileBase, TileKind, TILE_AIR, TILE_NO_HOOK, TILE_THROUGH_CUT};

verus! {

/// A fill always covers its start cell.
pub proof fn law_fill_covers_start<T: TileKind>(tiles: Seq<T>, w: int, h: int, start: (int, int))
    requires
        in_grid(w, h, start),
    ensures
        fill_reaches(tiles, w, h, start, start),
{
    let path = seq![start];
    assert(is_fill_path(tiles, w, h, number_at(tiles, w, start), path));
}

/// Every cell a fill reaches carries the start's tile number.
pub proof fn law_fill_same_number<T: TileKind>(
    tiles: Seq<T>,
    w: int,
    h: int,
    start: (int, int),
    p: (int, int),
)
    requires
        fill_reaches(tiles, w, h, start, p),
    ensures
        number_at(tiles, w, p) == number_at(tiles, w, start),
        in_grid(w, h, p),
{
    let path = choose|path: Seq<(int, int)>|
        #[trigger] is_fill_path(tiles, w, h, number_at(tiles, w, start), path) && path[0] == start
            && path.last() == p;
    assert(path[path.len() - 1] == p);
}

/// A fill region is closed: a touching cell with the start's number is
/// reached too.
pub proof fn law_fill_closed<T: TileKind>(
    tiles: Seq<T>,
    w: int,
    h: int,
    start: (int, int),
    p: (int, int),
    q: (int, int),
)
    requires
        fill_reaches(tiles, w, h, start, p),
        in_grid(w, h, q),
        touching(p, q),
        number_at(tiles, w, q) == number_at(tiles, w, start),
    ensures
        fill_reaches(tiles, w, h, start, q),
{
    let path = choose|path: Seq<(int, int)>|
        #[trigger] is_fill_path(tiles, w, h, number_at(tiles, w, start), path) && path[0] == start
            && path.last() == p;
    let path2 = path.push(q);
    assert(is_fill_path(tiles, w, h, number_at(tiles, w, start), path2)) by {
        assert forall|k: int| 0 <= k < path2.len() - 1 implies touching(
            #[trigger] path2[k],
            path2[k + 1],
        ) by {
            if k < path.len() - 1 {
                assert(path2[k] == path[k]);
                assert(path2[k + 1] == path[k + 1]);
            }
        }
        assert forall|k: int| 0 <= k < path2.len() implies in_grid(w, h, #[trigger] path2[k])
            && number_at(tiles, w, path2[k]) == number_at(tiles, w, start) by {
            if k < path.len() {
                assert(path2[k] == path[k]);
            }
        }
    }
    assert(path2[0] == start);
    assert(path2.last() == q);
}

/// A non-destructive paste never replaces a tile that is not air.
pub proof fn law_non_destructive_keeps_tiles<T: TileKind>(old: Seq<T>, new: Seq<T>, keep: Seq<bool>, i: int)
    requires
        0 <= i < new.len(),
        old[i].base_spec().index != TILE_AIR,
    ensures
        non_destructive_spec(old, new, keep)[i] == old[i],
{
}

/// A non-destructive paste places the new tile wherever the old one is air
/// (and nothing asks to keep it).
pub proof fn law_non_destructive_fills_air<T: TileKind>(old: Seq<T>, new: Seq<T>, i: int)
    requires
        0 <= i < new.len(),
        old[i].base_spec().index == TILE_AIR,
    ensures
        non_destructive_spec(old, new, no_keep(new.len()))[i] == new[i],
{
}

/// The game layer never receives a hook-through cut: pasted cuts become
/// unhookable tiles.
pub proof fn law_game_layer_has_no_cuts(ng: Seq<TileBase>, i: int)
    requires
        0 <= i < ng.len(),
    ensures
        hook_new_tiles(PhysicsTilesView::Game(ng)) matches PhysicsTilesView::Game(g) && g[i].index
            != TILE_THROUGH_CUT,
{
}

/// Picking game tiles into a brush and pasting them back gives the same tiles
/// (for unhookable tiles without flags): the cut the brush shows turns back
/// into the unhookable tile.
pub proof fn law_pick_paste_game_round_trip(
    t: Seq<TileBase>,
    front: Seq<TileBase>,
    lw: nat,
    bw: nat,
    x: nat,
    y: nat,
)
    requires
        forall|k: int| 0 <= k < t.len() ==> (#[trigger] t[k]).index != TILE_THROUGH_CUT,
        forall|k: int| 0 <= k < t.len() && (#[trigger] t[k]).index == TILE_NO_HOOK ==> t[k].flags == 0,
    ensures
        cuts_to_no_hook(brush_cut_spec(t, front, lw, bw, x, y)) == t,
{
    assert(cuts_to_no_hook(brush_cut_spec(t, front, lw, bw, x, y)) =~= t);
}

/// A pasted rectangle always lies inside the layer, and takes its tiles from
/// inside the requested part of the brush.
pub proof fn law_clip_inside_layer(p: int, len: int, size: int, off: int)
    requires
        0 < len,
        0 <= size,
        0 <= off,
    ensures
        0 <= clip_axis(p, len, size, off).0,
        clip_axis(p, len, size, off).0 + clip_axis(p, len, size, off).1 <= len,
        off <= clip_axis(p, len, size, off).2,
        clip_axis(p, len, size, off).2 + clip_axis(p, len, size, off).1 <= off + size,
{
}

/// Applying the brush twice in a row at the same spot hands out actions only
/// once.
pub proof fn law_apply_twice_once(
    group: &PhysicsGroup,
    layer: TileLayerRef,
    brush: &TileBrushTiles,
    destructive: bool,
    calls: Seq<ApplyCall>,
    c: ApplyCall,
    last: Option<crate::layers::TileBrushLastApply>,
    flag: Option<bool>,
)
    ensures
        apply_fold(group, layer, brush, destructive, calls.push(c).push(c), last, flag).2 == apply_fold(
            group,
            layer,
            brush,
            destructive,
            calls.push(c),
            last,
            flag,
        ).2,
        apply_fold(group, layer, brush, destructive, calls.push(c).push(c), last, flag).0 == apply_fold(
            group,
            layer,
            brush,
            destructive,
            calls.push(c),
            last,
            flag,
        ).0,
{
    assert(calls.push(c).push(c).drop_last() =~= calls.push(c));
    assert(calls.push(c).drop_last() =~= calls);
}

/// Inserting a point at `k` and removing it again leaves every index as it was.
pub proof fn law_index_insert_then_delete(p: usize, k: usize)
    requires
        p < usize::MAX,
    ensures
        index_after_delete(index_after_insert(p, k), k) == Some(p),
{
}

/// Moving a list of indices past an insertion at `k` and back leaves it unchanged.
pub proof fn law_indices_insert_then_delete(s: Seq<usize>, k: usize)
    requires
        forall|i: int| 0 <= i < s.len() ==> #[trigger] s[i] < usize::MAX,
    ensures
        indices_after_delete(indices_after_insert(s, k), k) == s,
    decreases s.len(),
{
    if s.len() > 0 {
        let t = s.drop_last();
        law_indices_insert_then_delete(t, k);
        assert(indices_after_insert(s, k).drop_last() =~= indices_after_insert(t, k));
        assert(indices_after_delete(indices_after_insert(s, k), k) =~= s);
    }
}

/// Moving keyed entries past an insertion at `k` and back leaves them unchanged.
pub proof fn law_keys_insert_then_delete<T>(s: Seq<(usize, T)>, k: usize)
    requires
        forall|i: int| 0 <= i < s.len() ==> (#[trigger] s[i]).0 < usize::MAX,
    ensures
        keys_after_delete(keys_after_insert(s, k), k) == s,
    decreases s.len(),
{
    if s.len() > 0 {
        let t = s.drop_last();
        law_keys_insert_then_delete(t, k);
        assert(keys_after_insert(s, k).drop_last() =~= keys_after_insert(t, k));
        assert(keys_after_delete(keys_after_insert(s, k), k) =~= s);
    }
}

/// After an insertion at `k`, every index still names the same point.
pub proof fn law_insert_keeps_pointing<V>(points: Seq<AnimPoint<V>>, np: AnimPoint<V>, k: usize, p: usize)
    requires
        k <= points.len(),
        p < points.len(),
        points.len() < usize::MAX,
    ensures
        points.insert(k as int, np)[index_after_insert(p, k) as int] == points[p as int],
{
    if p < k {
        assert(points.insert(k as int, np)[p as int] == points[p as int]);
    } else {
        assert(points.insert(k as int, np)[p + 1] == points[p as int]);
    }
}

/// After the point at `k` is removed, every other index still names the same
/// point.
pub proof fn law_delete_keeps_pointing<V>(points: Seq<AnimPoint<V>>, k: usize, p: usize)
    requires
        k < points.len(),
        p < points.len(),
        p != k,
    ensures
        index_after_delete(p, k) matches Some(q) && points.remove(k as int)[q as int] == points[p as int],
{
    if p < k {
        assert(points.remove(k as int)[p as int] == points[p as int]);
    } else {
        assert(points.remove(k as int)[p - 1] == points[p as int]);
    }
}

/// Points ordered by strictly increasing time.
pub open spec fn strictly_sorted<V>(points: Seq<AnimPoint<V>>) -> bool {
    forall|i: int, j: int| 0 <= i < j < points.len() ==> points[i].time < points[j].time
}

proof fn lemma_first_not_before<V>(points: Seq<AnimPoint<V>>, t: u128, j: int)
    requires
        0 <= j,
    ensures
        crate::animation::first_not_before(points, t, j) matches Some(i) ==> j <= i < points.len()
            && points[i].time >= t && forall|m: int| j <= m < i ==> points[m].time < t,
        crate::animation::first_not_before(points, t, j) is None ==> forall|m: int|
            j <= m < points.len() ==> points[m].time < t,
    decreases points.len() - j,
{
    if j < points.len() && points[j].time < t {
        lemma_first_not_before(points, t, j + 1);
    }
}

/// Putting a point at the current time keeps the points ordered by time, and
/// afterwards a point at that time exists.
pub proof fn law_insert_keeps_order<V>(points: Seq<AnimPoint<V>>, t: u128, value: V)
    requires
        strictly_sorted(points),
    ensures
        strictly_sorted(points_after_insert(points, t, value)),
        exists|i: int|
            0 <= i < points_after_insert(points, t, value).len() && (#[trigger] points_after_insert(
                points,
                t,
                value,
            )[i]).time == t,
{
    lemma_first_not_before(points, t, 0);
    let r = points_after_insert(points, t, value);
    match insert_position(points, t) {
        Some(i) => {
            assert(r[i].time == t);
        },
        None => {
            assert(r[points.len() as int].time == t);
        },
    }
}

/// Points ordered by time, equal times allowed.
pub open spec fn sorted_by_time<V>(points: Seq<AnimPoint<V>>) -> bool {
    forall|i: int, j: int| 0 <= i < j < points.len() ==> points[i].time <= points[j].time
}

/// Putting a point at the current time keeps points that are ordered by
/// time (equal times allowed) ordered; a point at that time exists
/// afterwards; the count stays when a point at that time already existed and
/// grows by one otherwise.
pub proof fn law_insert_keeps_sorted<V>(points: Seq<AnimPoint<V>>, t: u128, value: V)
    requires
        sorted_by_time(points),
    ensures
        sorted_by_time(points_after_insert(points, t, value)),
        exists|i: int|
            0 <= i < points_after_insert(points, t, value).len() && (#[trigger] points_after_insert(
                points,
                t,
                value,
            )[i]).time == t,
        points_after_insert(points, t, value).len() == if exists|i: int|
            0 <= i < points.len() && (#[trigger] points[i]).time == t {
            points.len()
        } else {
            points.len() + 1
        },
{
    lemma_first_not_before(points, t, 0);
    let r = points_after_insert(points, t, value);
    match insert_position(points, t) {
        Some(i) => {
            assert(r[i].time == t);
            if points[i].time != t {
                assert forall|m: int| 0 <= m < points.len() implies (#[trigger] points[m]).time != t by {
                    if m >= i {
                        assert(points[i].time <= points[m].time);
                    }
                }
                assert forall|a: int, b: int| 0 <= a < b < r.len() implies r[a].time <= r[b].time by {
                    if b < i {
                        assert(r[a] == points[a] && r[b] == points[b]);
                    } else if b == i {
                        assert(r[a] == points[a]);
                    } else if a < i {
                        assert(r[a] == points[a] && r[b] == points[b - 1]);
                        assert(points[i].time <= points[b - 1].time);
                    } else if a == i {
                        assert(r[b] == points[b - 1]);
                        assert(points[i].time <= points[b - 1].time);
                    } else {
                        assert(r[a] == points[a - 1] && r[b] == points[b - 1]);
                    }
                }
            } else {
                assert forall|a: int, b: int| 0 <= a < b < r.len() implies r[a].time <= r[b].time by {
                    if a != i && b != i {
                        assert(r[a] == points[a] && r[b] == points[b]);
                    } else if a == i {
                        assert(r[b] == points[b]);
                    } else {
                        assert(r[a] == points[a]);
                    }
                }
            }
        },
        None => {
            assert(r[points.len() as int].time == t);
            assert forall|a: int, b: int| 0 <= a < b < r.len() implies r[a].time <= r[b].time by {
                assert(r[a] == points[a]);
                if b < points.len() {
                    assert(r[b] == points[b]);
                }
            }
        },
    }
}

/// A quad taken into a brush from a box selection (moved so that the box's
/// corner is the origin) and placed again at that corner is the quad it was.
pub proof fn law_box_then_place_round_trip<R>(q: BrushQuad<R>, taken: BrushQuad<R>, placed: BrushQuad<R>, x0: int, y0: int)
    requires
        crate::objects::quad_shift_fits(q, -x0, -y0),
        is_quad_shift(q, taken, -x0, -y0),
        is_quad_shift(taken, placed, x0, y0),
    ensures
        placed == q,
{
    assert(placed.points@ =~= q.points@) by {
        assert forall|k: int| 0 <= k < 5 implies placed.points@[k] == q.points@[k] by {
            assert(placed.points@[k] == crate::objects::shifted(taken.points@[k], x0, y0));
            assert(taken.points@[k] == crate::objects::shifted(q.points@[k], -x0, -y0));
            assert(crate::objects::shift_fits(q.points@[k], -x0, -y0));
        }
    }
    assert(placed.points == q.points);
}


/// Call `c` of a repeated paste covers layer cell (`x`, `y`).
pub open spec fn call_covers(c: ApplyCall, x: int, y: int) -> bool {
    c.1 == y && c.0 <= x < c.0 + c.4
}

proof fn lemma_row_calls_shape(x0: int, y: int, by: int, bw: int, tx: int, width: int, off: int)
    requires
        0 < bw,
        0 <= tx < bw,
    ensures
        forall|j: int| 0 <= j < row_calls(x0, y, by, bw, tx, width, off).len() ==> {
            let c = #[trigger] row_calls(x0, y, by, bw, tx, width, off)[j];
            &&& c.1 == y
            &&& c.3 == by
            &&& c.0 >= x0 + off
            &&& c.0 + c.4 <= x0 + off + width
            &&& 0 < c.4
        },
    decreases width,
{
    if width > 0 {
        let w = crate::brush::min_int(bw - tx, width);
        lemma_row_calls_shape(x0, y, by, bw, 0, width - w, off + w);
        let rest = row_calls(x0, y, by, bw, 0, width - w, off + w);
        let all = row_calls(x0, y, by, bw, tx, width, off);
        assert(all == seq![(x0 + off, y, tx, by, w)] + rest);
        assert forall|j: int| 0 < j < all.len() implies all[j] == rest[j - 1] by {}
    }
}

proof fn lemma_row_calls_tile(x0: int, y: int, by: int, bw: int, tx: int, width: int, off: int, i: int)
    requires
        0 < bw,
        0 <= tx < bw,
        0 <= i < width,
    ensures
        ({
            let calls = row_calls(x0, y, by, bw, tx, width, off);
            exists|j: int|
                0 <= j < calls.len() && call_covers(#[trigger] calls[j], x0 + off + i, y) && calls[j].2
                    + (x0 + off + i - calls[j].0) == (tx + i) % bw && calls[j].3 == by
        }),
        ({
            let calls = row_calls(x0, y, by, bw, tx, width, off);
            forall|j: int, k: int|
                0 <= j < calls.len() && 0 <= k < calls.len() && call_covers(#[trigger] calls[j], x0 + off + i, y)
                    && call_covers(#[trigger] calls[k], x0 + off + i, y) ==> j == k
        }),
    decreases width,
{
    let w = crate::brush::min_int(bw - tx, width);
    let rest = row_calls(x0, y, by, bw, 0, width - w, off + w);
    let all = row_calls(x0, y, by, bw, tx, width, off);
    assert(all == seq![(x0 + off, y, tx, by, w)] + rest);
    assert forall|j: int| 0 < j < all.len() implies all[j] == rest[j - 1] by {}
    lemma_row_calls_shape(x0, y, by, bw, 0, width - w, off + w);
    if i < w {
        assert((tx + i) % bw == tx + i) by {
            vstd::arithmetic::div_mod::lemma_small_mod((tx + i) as nat, bw as nat);
        }
        assert(call_covers(all[0], x0 + off + i, y));
        assert forall|j: int, k: int|
            0 <= j < all.len() && 0 <= k < all.len() && call_covers(#[trigger] all[j], x0 + off + i, y)
                && call_covers(#[trigger] all[k], x0 + off + i, y) implies j == k by {
            if j > 0 {
                assert(rest[j - 1].0 >= x0 + off + w);
            }
            if k > 0 {
                assert(rest[k - 1].0 >= x0 + off + w);
            }
        }
    } else {
        assert(w == bw - tx);
        lemma_row_calls_tile(x0, y, by, bw, 0, width - w, off + w, i - w);
        let jj = choose|j: int|
            0 <= j < rest.len() && call_covers(#[trigger] rest[j], x0 + off + w + (i - w), y) && rest[j].2
                + (x0 + off + w + (i - w) - rest[j].0) == (0 + (i - w)) % bw && rest[j].3 == by;
        assert((i - w) % bw == (tx + i) % bw) by {
            vstd::arithmetic::div_mod::lemma_mod_add_multiples_vanish(i - w, bw);
        }
        assert(all[jj + 1] == rest[jj]);
        assert(call_covers(all[jj + 1], x0 + off + i, y));
        assert forall|j: int, k: int|
            0 <= j < all.len() && 0 <= k < all.len() && call_covers(#[trigger] all[j], x0 + off + i, y)
                && call_covers(#[trigger] all[k], x0 + off + i, y) implies j == k by {
            assert(!call_covers(all[0], x0 + off + i, y));
            assert(j > 0 && k > 0);
            assert(call_covers(rest[j - 1], x0 + off + w + (i - w), y));
            assert(call_covers(rest[k - 1], x0 + off + w + (i - w), y));
        }
    }
}

/// A repeated paste over a `width` x `k` area tiles it with the brush: every
/// cell of the area is pasted by exactly one application, and gets the brush
/// cell that lines up with where the drag started (brush offset `tx`, `ty`).
pub proof fn law_repeat_area_tiled(
    x0: int,
    y0: int,
    bw: int,
    bh: int,
    tx: int,
    ty: int,
    width: int,
    k: int,
    i: int,
    r: int,
)
    requires
        0 < bw,
        0 < bh,
        0 <= tx < bw,
        0 <= ty < bh,
        0 <= i < width,
        0 <= r < k,
    ensures
        ({
            let calls = rows_calls(x0, y0, bw, bh, tx, ty, width, k);
            &&& exists|j: int|
                0 <= j < calls.len() && call_covers(#[trigger] calls[j], x0 + i, y0 + r) && calls[j].2 + (
                x0 + i - calls[j].0) == (tx + i) % bw && calls[j].3 == (ty + r) % bh
            &&& forall|j: int, l: int|
                0 <= j < calls.len() && 0 <= l < calls.len() && call_covers(#[trigger] calls[j], x0 + i, y0 + r)
                    && call_covers(#[trigger] calls[l], x0 + i, y0 + r) ==> j == l
        }),
    decreases k,
{
    let prev = rows_calls(x0, y0, bw, bh, tx, ty, width, k - 1);
    let row = row_calls(x0, y0 + k - 1, (ty + k - 1) % bh, bw, tx, width, 0);
    let calls = rows_calls(x0, y0, bw, bh, tx, ty, width, k);
    assert(calls == prev + row);
    lemma_row_calls_shape(x0, y0 + k - 1, (ty + k - 1) % bh, bw, tx, width, 0);
    lemma_rows_calls_rows(x0, y0, bw, bh, tx, ty, width, k - 1);
    if r < k - 1 {
        law_repeat_area_tiled(x0, y0, bw, bh, tx, ty, width, k - 1, i, r);
        let jj = choose|j: int|
            0 <= j < prev.len() && call_covers(#[trigger] prev[j], x0 + i, y0 + r) && prev[j].2 + (x0 + i
                - prev[j].0) == (tx + i) % bw && prev[j].3 == (ty + r) % bh;
        assert(calls[jj] == prev[jj]);
        assert forall|j: int, l: int|
            0 <= j < calls.len() && 0 <= l < calls.len() && call_covers(#[trigger] calls[j], x0 + i, y0 + r)
                && call_covers(#[trigger] calls[l], x0 + i, y0 + r) implies j == l by {
            if j >= prev.len() {
                assert(calls[j] == row[j - prev.len()]);
            }
            if l >= prev.len() {
                assert(calls[l] == row[l - prev.len()]);
            }
            assert(calls[j] == prev[j]);
            assert(calls[l] == prev[l]);
        }
    } else {
        lemma_row_calls_tile(x0, y0 + k - 1, (ty + k - 1) % bh, bw, tx, width, 0, i);
        let jj = choose|j: int|
            0 <= j < row.len() && call_covers(#[trigger] row[j], x0 + 0 + i, y0 + k - 1) && row[j].2 + (x0
                + 0 + i - row[j].0) == (tx + i) % bw && row[j].3 == (ty + k - 1) % bh;
        assert(calls[prev.len() + jj] == row[jj]);
        assert(call_covers(calls[prev.len() + jj], x0 + i, y0 + r));
        assert forall|j: int, l: int|
            0 <= j < calls.len() && 0 <= l < calls.len() && call_covers(#[trigger] calls[j], x0 + i, y0 + r)
                && call_covers(#[trigger] calls[l], x0 + i, y0 + r) implies j == l by {
            if j < prev.len() {
                assert(calls[j] == prev[j]);
            }
            if l < prev.len() {
                assert(calls[l] == prev[l]);
            }
            assert(calls[j] == row[j - prev.len()]);
            assert(calls[l] == row[l - prev.len()]);
        }
    }
}

proof fn lemma_rows_calls_rows(x0: int, y0: int, bw: int, bh: int, tx: int, ty: int, width: int, k: int)
    requires
        0 < bw,
        0 <= tx < bw,
    ensures
        forall|j: int| 0 <= j < rows_calls(x0, y0, bw, bh, tx, ty, width, k).len() ==> {
            let c = #[trigger] rows_calls(x0, y0, bw, bh, tx, ty, width, k)[j];
            y0 <= c.1 < y0 + k
        },
    decreases k,
{
    if k > 0 {
        lemma_rows_calls_rows(x0, y0, bw, bh, tx, ty, width, k - 1);
        lemma_row_calls_shape(x0, y0 + k - 1, (ty + k - 1) % bh, bw, tx, width, 0);
        let prev = rows_calls(x0, y0, bw, bh, tx, ty, width, k - 1);
        let row = row_calls(x0, y0 + k - 1, (ty + k - 1) % bh, bw, tx, width, 0);
        let calls = rows_calls(x0, y0, bw, bh, tx, ty, width, k);
        assert(calls == prev + row);
        assert forall|j: int| 0 <= j < calls.len() implies y0 <= (#[trigger] calls[j]).1 < y0 + k by {
            if j < prev.len() {
                assert(calls[j] == prev[j]);
            } else {
                assert(calls[j] == row[j - prev.len()]);
            }
        }
    }
}

/// The user hears about unusable tiles once per brush: a second refusal
/// before a new brush is taken does not tell again.
pub proof fn law_unused_notice_once(a: &TileBrush, b: &TileBrush, c: &TileBrush, n1: bool, n2: bool)
    requires
        refused(a, b, n1),
        refused(b, c, n2),
    ensures
        !n2,
{
}

/// Every brush taken gets a new id, so its pastes never merge into the undo
/// step of the brush before.
pub proof fn law_new_brush_new_id(a: &TileBrush, b: &TileBrush, t: LayerTilesView, w: u16, h: u16, neg: (u16, u16))
    requires
        taken(a, b, t, w, h, neg),
    ensures
        b.brush_id_counter != a.brush_id_counter,
        b.last_apply is None,
{
}

proof fn lemma_collect_whole<T>(b: Seq<T>, bw: int, bh: int)
    requires
        0 < bw,
        0 < bh,
        b.len() == bw * bh,
    ensures
        crate::tiles::collect_spec(b, bw as nat, 0, bw as nat, 0, bh as nat) == b,
{
    crate::tiles::lemma_join_index(bh, 0, bw);
    assert((bh * bw + 0) == bw * bh) by (nonlinear_arith);
    let c = crate::tiles::collect_spec(b, bw as nat, 0, bw as nat, 0, bh as nat);
    assert(c.len() == b.len());
    assert forall|k: int| 0 <= k < b.len() implies c[k] == b[k] by {
        crate::tiles::lemma_split_index(k, bw);
    }
    assert(c =~= b);
}

/// A destructive paste of a design brush that lies wholly inside the layer
/// writes exactly the brush's tiles over its rectangle and is remembered as
/// applied there.
pub proof fn law_paste_inside_writes_brush(group: &PhysicsGroup, layer: TileLayerRef, brush: &TileBrushTiles, x: i32, y: i32, flag: Option<bool>)
    requires
        layer is Design,
        layer.wf(group),
        brush.wf(),
        brush.tiles@ is Design,
        0 <= x,
        x + brush.w <= layer.dims(group).0,
        0 <= y,
        y + brush.h <= layer.dims(group).1,
    ensures
        ({
            let c = crate::brush::clipped(layer.dims(group), brush.w, brush.h, x, y, 0, 0, brush.w, brush.h);
            &&& c == (x as int, y as int, brush.w as int, brush.h as int, 0int, 0int)
            &&& crate::brush::apply_actions_spec(group, layer, brush.tiles@, brush.w, c, true, flag).len() == 1
            &&& crate::brush::apply_actions_spec(group, layer, brush.tiles@, brush.w, c, true, flag)[0] matches
                crate::layers::EditorActionView::TileLayerReplaceTiles { new_tiles, x: ax, y: ay, w, h, .. }
                && new_tiles == crate::brush::brush_design(brush.tiles@) && ax == x && ay == y && w == brush.w && h
                == brush.h
            &&& crate::brush::next_apply_spec(layer, c) == crate::layers::TileBrushLastApply {
                x: x as u16,
                y: y as u16,
                w: brush.w,
                h: brush.h,
                layer: layer.apply_layer(),
            }
        }),
{
    lemma_collect_whole(crate::brush::brush_design(brush.tiles@), brush.w as int, brush.h as int);
}

/// Every hook-through cut of the front layer has an unhookable tile below it
/// on the game layer (over a rectangle of both).
pub open spec fn cuts_over_no_hook(game: Seq<TileBase>, front: Seq<TileBase>) -> bool {
    forall|i: int| 0 <= i < front.len() && (#[trigger] front[i]).index == TILE_THROUGH_CUT ==> game[i].index == TILE_NO_HOOK
}

/// Pasting on the front layer keeps every cut over an unhookable game tile:
/// the game layer is fixed up exactly when cuts come or go.
pub proof fn law_front_paste_keeps_cuts_over_no_hook(g: Seq<TileBase>, fo: Seq<TileBase>, fnw: Seq<TileBase>)
    requires
        g.len() == fo.len(),
        fnw.len() == fo.len(),
        cuts_over_no_hook(g, fo),
    ensures
        cuts_over_no_hook(
            if removes_cuts(fo, fnw) || adds_cuts(fo, fnw) {
                game_cut_fix(g, fo, fnw)
            } else {
                g
            },
            fnw,
        ),
{
    if !(removes_cuts(fo, fnw) || adds_cuts(fo, fnw)) {
        assert forall|i: int| 0 <= i < fnw.len() && (#[trigger] fnw[i]).index == TILE_THROUGH_CUT implies g[i].index
            == TILE_NO_HOOK by {
            if fo[i].index != TILE_THROUGH_CUT {
                assert(adds_cuts(fo, fnw));
            }
        }
    }
}

/// Pasting on the game layer keeps every cut of the front layer over an
/// unhookable game tile: pasted cuts become unhookable tiles under new cuts,
/// and a cut whose unhookable tile is replaced goes away.
pub proof fn law_game_paste_keeps_cuts_over_no_hook(og: Seq<TileBase>, fl: Seq<TileBase>, ng: Seq<TileBase>)
    requires
        og.len() == fl.len(),
        ng.len() == fl.len(),
        cuts_over_no_hook(og, fl),
    ensures
        cuts_over_no_hook(
            cuts_to_no_hook(ng),
            if game_replaces_cut(og, fl, ng) || game_contains_cut(ng, fl) {
                front_cut_fix(og, fl, ng)
            } else {
                fl
            },
        ),
{
    if !(game_replaces_cut(og, fl, ng) || game_contains_cut(ng, fl)) {
        assert forall|i: int| 0 <= i < fl.len() && (#[trigger] fl[i]).index == TILE_THROUGH_CUT implies cuts_to_no_hook(
            ng,
        )[i].index == TILE_NO_HOOK by {
            assert(og[i].index == TILE_NO_HOOK);
            if ng[i].index != TILE_NO_HOOK {
                assert(game_replaces_cut(og, fl, ng));
            }
        }
    }
}

/// A fill changes exactly the cells its flood reaches: in the fill's box,
/// a cell that a touching path of cells with the start's number reaches
/// gets the brush's tile, and any other cell (even one with the start's
/// number, when it is cut off) keeps its tile, or becomes air when the fill
/// clears the rest of the box.
pub proof fn law_fill_changes_only_reached<T: TileKind>(
    tiles: Seq<T>,
    brush0: T,
    w: int,
    h: int,
    start: (int, int),
    lo: (u16, u16),
    bw: int,
    bh: int,
    fill_with_empty_tile: bool,
    k: int,
)
    requires
        0 < bw,
        0 <= k < bw * bh,
    ensures
        ({
            let p = (lo.0 + k % bw, lo.1 + k / bw);
            let n = crate::fill::fill_new_spec(tiles, brush0, w, h, start, lo, bw, bh, fill_with_empty_tile);
            &&& fill_reaches(tiles, w, h, start, p) ==> n[k] == brush0
            &&& !fill_reaches(tiles, w, h, start, p) ==> n[k] == if fill_with_empty_tile {
                T::empty_spec()
            } else {
                tiles[grid_index(w, p)]
            }
        }),
{
    assert(0 <= bw * bh) by (nonlinear_arith)
        requires 0 < bw, 0 <= k < bw * bh;
}

/// A paste takes each cell from the brush cell that lies on it: a brush
/// placed with its cell (`off_x`, `off_y`) at layer cell (`x`, `y`) puts, in
/// the kept rectangle at (`px`, `py`), the brush cells starting at
/// (`off_x + px - x`, `off_y + py - y`). (A brush placed wholly right of or
/// below the layer is clamped onto its last column or row instead, so the
/// start lies inside the layer.)
pub proof fn law_paste_aligns_brush(
    dims: (u16, u16),
    bw: u16,
    bh: u16,
    x: i32,
    y: i32,
    off_x: u16,
    off_y: u16,
    max_w: u16,
    max_h: u16,
)
    requires
        0 < dims.0,
        0 < dims.1,
        x < dims.0,
        y < dims.1,
    ensures
        ({
            let c = crate::brush::clipped(dims, bw, bh, x, y, off_x, off_y, max_w, max_h);
            &&& c.2 > 0 ==> c.4 == off_x + c.0 - x
            &&& c.3 > 0 ==> c.5 == off_y + c.1 - y
        }),
{
}

/// A destructive paste of a design brush writes, at cell (`i`, `j`) of the
/// kept rectangle (layer cell (`px + i`, `py + j`)), the brush cell
/// (`off_x + px + i - x`, `off_y + py + j - y`).
pub proof fn law_paste_cell_from_brush(
    group: &PhysicsGroup,
    layer: TileLayerRef,
    brush: &TileBrushTiles,
    x: i32,
    y: i32,
    off_x: u16,
    off_y: u16,
    max_w: u16,
    max_h: u16,
    flag: Option<bool>,
    i: int,
    j: int,
)
    requires
        layer is Design,
        layer.wf(group),
        brush.wf(),
        brush.tiles@ is Design,
        off_x + crate::brush::min_int(brush.w as int, max_w as int) <= brush.w,
        off_y + crate::brush::min_int(brush.h as int, max_h as int) <= brush.h,
        x < layer.dims(group).0,
        y < layer.dims(group).1,
        ({
            let c = crate::brush::clipped(layer.dims(group), brush.w, brush.h, x, y, off_x, off_y, max_w, max_h);
            0 <= i < c.2 && 0 <= j < c.3
        }),
    ensures
        ({
            let c = crate::brush::clipped(layer.dims(group), brush.w, brush.h, x, y, off_x, off_y, max_w, max_h);
            let acts = crate::brush::apply_actions_spec(group, layer, brush.tiles@, brush.w, c, true, flag);
            let b = crate::brush::brush_design(brush.tiles@);
            acts[0] matches crate::layers::EditorActionView::TileLayerReplaceTiles { new_tiles, .. }
                && new_tiles[j * c.2 + i] == b[(off_y + c.1 + j - y) * brush.w + (off_x + c.0 + i - x)]
        }),
{
    let dims = layer.dims(group);
    let c = crate::brush::clipped(dims, brush.w, brush.h, x, y, off_x, off_y, max_w, max_h);
    law_clip_inside_layer(x as int, dims.0 as int, crate::brush::min_int(brush.w as int, max_w as int), off_x as int);
    law_clip_inside_layer(y as int, dims.1 as int, crate::brush::min_int(brush.h as int, max_h as int), off_y as int);
    law_paste_aligns_brush(dims, brush.w, brush.h, x, y, off_x, off_y, max_w, max_h);
    let b = crate::brush::brush_design(brush.tiles@);
    let bwi = brush.w as int;
    let bhi = brush.h as int;
    // the brush holds `bh` whole rows, and the kept rows lie inside them
    crate::tiles::lemma_join_index(bhi, 0, bwi);
    assert(bhi * bwi + 0 == bwi * bhi) by (nonlinear_arith);
    assert(b.len() / (bwi as nat) == bhi);
    assert(crate::tiles::collected_rows(b.len(), bwi as nat, c.5 as nat, c.3 as nat) == c.3);
    let k = j * c.2 + i;
    crate::tiles::lemma_join_index(j, i, c.2);
    assert(0 <= k < c.3 * c.2) by (nonlinear_arith)
        requires k == j * c.2 + i, 0 <= i < c.2, 0 <= j < c.3;
    assert(c.3 * c.2 == c.2 * c.3) by (nonlinear_arith);
}

/// A repeated paste lines the brush up with where the drag started: the
/// start tile lies in the dragged rectangle, the brush offset puts brush
/// cell (0, 0) on it, and the application that covers it uses brush cell
/// (0, 0).
pub proof fn law_repeat_start_gets_brush_origin(old: (i32, i32), cur: (i32, i32), bw: u16, bh: u16)
    requires
        0 < bw,
        0 < bh,
    ensures
        ({
            let a = crate::tool::repeat_area_spec(old, cur, bw, bh);
            let (tl, off, width, height) = a;
            let i = old.0 - tl.0;
            let r = old.1 - tl.1;
            &&& 0 <= i < width && 0 <= r < height
            &&& 0 <= off.0 < bw && 0 <= off.1 < bh
            &&& (off.0 + i) % (bw as int) == 0
            &&& (off.1 + r) % (bh as int) == 0
            &&& exists|k: int|
                0 <= k < rows_calls(tl.0, tl.1, bw as int, bh as int, off.0, off.1, width, height).len()
                    && call_covers(
                    #[trigger] rows_calls(tl.0, tl.1, bw as int, bh as int, off.0, off.1, width, height)[k],
                    old.0 as int,
                    old.1 as int,
                ) && rows_calls(tl.0, tl.1, bw as int, bh as int, off.0, off.1, width, height)[k].2 + (old.0
                    - rows_calls(tl.0, tl.1, bw as int, bh as int, off.0, off.1, width, height)[k].0) == 0
                    && rows_calls(tl.0, tl.1, bw as int, bh as int, off.0, off.1, width, height)[k].3 == 0
        }),
{
    let a = crate::tool::repeat_area_spec(old, cur, bw, bh);
    let (tl, off, width, height) = a;
    let i = old.0 - tl.0;
    let r = old.1 - tl.1;
    let dx = cur.0 - old.0;
    let dy = cur.1 - old.1;
    let bwi = bw as int;
    let bhi = bh as int;
    if dx < 0 {
        assert(i == -dx);
        assert((dx % bwi + (-dx)) % bwi == 0) by {
            let q = dx / bwi;
            vstd::arithmetic::div_mod::lemma_fundamental_div_mod(dx, bwi);
            assert(dx % bwi + (-dx) == (-q) * bwi) by (nonlinear_arith)
                requires dx == bwi * q + dx % bwi;
            vstd::arithmetic::mul::lemma_mul_is_commutative(-q, bwi);
            vstd::arithmetic::div_mod::lemma_mod_multiples_basic(-q, bwi);
        }
    } else {
        assert(i == 0);
        vstd::arithmetic::div_mod::lemma_small_mod(0, bwi as nat);
    }
    if dy < 0 {
        assert(r == -dy);
        assert((dy % bhi + (-dy)) % bhi == 0) by {
            let q = dy / bhi;
            vstd::arithmetic::div_mod::lemma_fundamental_div_mod(dy, bhi);
            assert(dy % bhi + (-dy) == (-q) * bhi) by (nonlinear_arith)
                requires dy == bhi * q + dy % bhi;
            vstd::arithmetic::mul::lemma_mul_is_commutative(-q, bhi);
            vstd::arithmetic::div_mod::lemma_mod_multiples_basic(-q, bhi);
        }
    } else {
        assert(r == 0);
        vstd::arithmetic::div_mod::lemma_small_mod(0, bhi as nat);
    }
    vstd::arithmetic::div_mod::lemma_mod_bound(crate::brush::min_int(dx, 0), bwi);
    vstd::arithmetic::div_mod::lemma_mod_bound(crate::brush::min_int(dy, 0), bhi);
    law_repeat_area_tiled(tl.0, tl.1, bwi, bhi, off.0, off.1, width, height, i, r);
}

proof fn lemma_first_from_bounds(s: Seq<char>, i: int, k: crate::tune::CharClass)
    requires
        0 <= i,
    ensures
        crate::tune::first_from(s, i, k) matches Some(m) ==> i <= m < s.len() && crate::tune::in_class(k, s[m])
            && forall|q: int| i <= q < m ==> !crate::tune::in_class(k, s[q]),
        crate::tune::first_from(s, i, k) is None ==> forall|q: int| i <= q < s.len() ==> !crate::tune::in_class(k, s[q]),
    decreases s.len() - i,
{
    if i < s.len() && !crate::tune::in_class(k, s[i]) {
        lemma_first_from_bounds(s, i + 1, k);
    }
}

proof fn lemma_last_before_bounds(s: Seq<char>, j: int, k: crate::tune::CharClass)
    requires
        j <= s.len(),
    ensures
        crate::tune::last_before(s, j, k) matches Some(m) ==> 0 <= m < j,
    decreases j,
{
    if j > 0 && !crate::tune::in_class(k, s[j - 1]) {
        lemma_last_before_bounds(s, j - 1, k);
    }
}

/// Trimming keeps a stretch of the text: every character of the trimmed
/// text is a character of the text.
proof fn lemma_trim_within(t: Seq<char>)
    ensures
        forall|q: int| 0 <= q < crate::tune::trim_spec(t).len() ==> t.contains(#[trigger] crate::tune::trim_spec(t)[q]),
{
    lemma_first_from_bounds(t, 0, crate::tune::CharClass::Solid);
    lemma_last_before_bounds(t, t.len() as int, crate::tune::CharClass::Solid);
    match crate::tune::first_from(t, 0, crate::tune::CharClass::Solid) {
        Some(a) => match crate::tune::last_before(t, t.len() as int, crate::tune::CharClass::Solid) {
            Some(b) => {
                crate::tune::lemma_last_at_least(t, t.len() as int, a);
                assert forall|q: int| 0 <= q < crate::tune::trim_spec(t).len() implies t.contains(
                    #[trigger] crate::tune::trim_spec(t)[q],
                ) by {
                    assert(crate::tune::trim_spec(t)[q] == t[a + q]);
                    assert(0 <= a + q < t.len());
                }
            },
            None => {},
        },
        None => {},
    }
}

/// A server command splits at the first `#`: the command is the trimmed
/// text before it and holds no `#` (a `#` in the comment never reaches the
/// server), the comment is the trimmed rest; text without `#` is the
/// command, trimmed, with no comment.
pub proof fn law_server_command_splits_at_first_hash(s: Seq<char>, i: int)
    requires
        0 <= i < s.len(),
        s[i] == '#',
        forall|m: int| 0 <= m < i ==> s[m] != '#',
    ensures
        crate::commands::parse_command_spec(s).0 == crate::tune::trim_spec(s.take(i)),
        crate::commands::parse_command_spec(s).1 == Some(crate::tune::trim_spec(s.skip(i + 1))),
        !crate::commands::parse_command_spec(s).0.contains('#'),
{
    lemma_first_from_bounds(s, 0, crate::tune::CharClass::Hash);
    let f = crate::tune::first_from(s, 0, crate::tune::CharClass::Hash);
    assert(f == Some(i)) by {
        match f {
            Some(m) => {
                if m < i {
                    assert(s[m] != '#');
                } else if m > i {
                    assert(!crate::tune::in_class(crate::tune::CharClass::Hash, s[i]));
                }
            },
            None => {
                assert(!crate::tune::in_class(crate::tune::CharClass::Hash, s[i]));
            },
        }
    }
    lemma_trim_within(s.take(i));
    if crate::tune::trim_spec(s.take(i)).contains('#') {
        let q = choose|q: int| 0 <= q < crate::tune::trim_spec(s.take(i)).len() && crate::tune::trim_spec(s.take(i))[q] == '#';
        assert(s.take(i).contains(crate::tune::trim_spec(s.take(i))[q]));
        let m = choose|m: int| 0 <= m < s.take(i).len() && s.take(i)[m] == '#';
        assert(s[m] == '#');
    }
}

/// Text without `#` is the whole command, trimmed, with no comment.
pub proof fn law_server_command_without_hash(s: Seq<char>)
    requires
        forall|m: int| 0 <= m < s.len() ==> s[m] != '#',
    ensures
        crate::commands::parse_command_spec(s) == (crate::tune::trim_spec(s), None::<Seq<char>>),
{
    lemma_first_from_bounds(s, 0, crate::tune::CharClass::Hash);
}

/// The play button: while the timeline plays, either way, it pauses (and
/// forgets the last frame time); while it is paused, it plays forward. The
/// stop button always pauses and rewinds; the back button alone plays
/// backwards.
pub proof fn law_play_controls(dir: crate::timeline::PlayDir, toggle: bool)
    ensures
        ({
            let s = crate::timeline::controls_step_spec(dir, false, false, true);
            &&& dir != crate::timeline::PlayDir::Paused ==> s.dir == crate::timeline::PlayDir::Paused
                && s.forget_last_time && !s.reset_time
            &&& dir == crate::timeline::PlayDir::Paused ==> s.dir == crate::timeline::PlayDir::Forward
                && !s.forget_last_time && !s.reset_time
        }),
        ({
            let s = crate::timeline::controls_step_spec(dir, false, true, false);
            s.dir == crate::timeline::PlayDir::Paused && s.reset_time && s.forget_last_time
        }),
        crate::timeline::controls_step_spec(dir, true, false, false).dir == crate::timeline::PlayDir::Backward,
        crate::timeline::controls_step_spec(dir, false, false, false).dir == dir,
{
}

/// A tune command splits like a server command at the first `#`, and its
/// command part at its first white space: the name holds no white space,
/// and neither the name nor the value holds a `#`.
pub proof fn law_tune_command_parts(s: Seq<char>)
    ensures
        crate::tune::parse_tune_spec(s) matches Some((name, value, comment)) ==> {
            &&& forall|q: int| 0 <= q < name.len() ==> !crate::tune::white_space(#[trigger] name[q])
            &&& !name.contains('#')
            &&& !value.contains('#')
        },
{
    if s.len() > 0 {
        let t = crate::tune::trim_spec(s);
        lemma_first_from_bounds(t, 0, crate::tune::CharClass::Hash);
        let body = match crate::tune::first_from(t, 0, crate::tune::CharClass::Hash) {
            Some(i) => crate::tune::trim_spec(t.take(i)),
            None => t,
        };
        assert(!body.contains('#')) by {
            match crate::tune::first_from(t, 0, crate::tune::CharClass::Hash) {
                Some(i) => {
                    lemma_trim_within(t.take(i));
                    if body.contains('#') {
                        let q = choose|q: int| 0 <= q < body.len() && body[q] == '#';
                        assert(t.take(i).contains(body[q]));
                        let m = choose|m: int| 0 <= m < t.take(i).len() && t.take(i)[m] == '#';
                        assert(!crate::tune::in_class(crate::tune::CharClass::Hash, t[m]));
                    }
                },
                None => {
                    if body.contains('#') {
                        let q = choose|q: int| 0 <= q < body.len() && body[q] == '#';
                        assert(!crate::tune::in_class(crate::tune::CharClass::Hash, t[q]));
                    }
                },
            }
        }
        lemma_first_from_bounds(body, 0, crate::tune::CharClass::White);
        match crate::tune::first_from(body, 0, crate::tune::CharClass::White) {
            Some(j) => {
                let name = body.take(j);
                let value = body.skip(j + 1);
                assert forall|q: int| 0 <= q < name.len() implies !crate::tune::white_space(#[trigger] name[q]) by {
                    assert(!crate::tune::in_class(crate::tune::CharClass::White, body[q]));
                }
                if name.contains('#') {
                    let q = choose|q: int| 0 <= q < name.len() && name[q] == '#';
                    assert(body[q] == '#');
                }
                if value.contains('#') {
                    let q = choose|q: int| 0 <= q < value.len() && value[q] == '#';
                    assert(body[j + 1 + q] == '#');
                }
            },
            None => {},
        }
    }
}

} // verus!
