//! The tile brush tool's state and its decisions on pointer input: reset,
//! paste, repeated paste over a dragged rectangle, and fill.
use vstd::prelude::*;

use rand::Rng;

use crate::brush::{
    apply_brush_internal, apply_brush_repeating_internal, apply_fold, brush_tiles_match_layer,
    fill_actions_spec, fill_layer_actions, groups_view, layer_kind, rows_calls, tiles_match_kind,
    EditorActionGroup, TileBrushTiles,
};
use crate::layers::{actions_view, PhysKind, PhysicsGroup, TileBrushLastApply, TileLayerRef};

verus! {

/// `rand::rng().next_u64()`: a random number from the thread-local generator.
/// Nothing is claimed of the value. The call panics only if the operating
/// system's random source fails, when the generator is first seeded or when
/// it reseeds itself; no argument can exclude that.
#[verifier::external_body]
fn random_u64() -> u64 {
    rand::rng().next_u64()
}

/// State of the tile brush tool.
#[derive(Debug)]
pub struct TileBrush {
    pub brush: Option<TileBrushTiles>,
    /// Where the brush was last applied (a brush applies only once per spot).
    pub last_apply: Option<TileBrushLastApply>,
    /// Tile where a shift-drag for a repeated paste started.
    pub shift_pointer_down: Option<(i32, i32)>,
    /// Can the brush destroy existing tiles
    pub destructive: bool,
    /// Can place unused tiles
    pub allow_unused: bool,
    pub showed_unused_id: Option<u128>,
    /// Random id counted up, used for action identifiers
    pub brush_id_counter: u128,
}

/// The 128-bit brush id made of a high and a low 64-bit half.
pub open spec fn brush_id_spec(hi: u64, lo: u64) -> u128 {
    (hi * 0x1_0000_0000_0000_0000 + lo) as u128
}

/// Joins two 64-bit halves into a brush id: `hi` in the upper bits, `lo` in
/// the lower ones.
pub fn brush_id_from_halves(hi: u64, lo: u64) -> (r: u128)
    ensures
        r == hi * 0x1_0000_0000_0000_0000 + lo,
        r == brush_id_spec(hi, lo),
{
    let high: u128 = (hi as u128) << 64u128;
    proof {
        assert(((hi as u128) << 64u128) == (hi as u128) * 0x1_0000_0000_0000_0000u128) by (bit_vector);
        assert((hi as u128) * 0x1_0000_0000_0000_0000u128 + (lo as u128) <= u128::MAX) by (nonlinear_arith)
            requires hi <= u64::MAX, lo <= u64::MAX;
    }
    high + lo as u128
}

impl TileBrush {
    /// A tool without a brush, destructive, refusing unused tiles, with a
    /// random 128-bit brush id made of two random 64-bit halves.
    pub fn new() -> (r: TileBrush)
        ensures
            exists|hi: u64, lo: u64| r.brush_id_counter == brush_id_spec(hi, lo),
            r.brush is None,
            r.last_apply is None,
            r.shift_pointer_down is None,
            r.destructive,
            !r.allow_unused,
            r.showed_unused_id is None,
    {
        let hi = random_u64();
        let lo = random_u64();
        TileBrush {
            brush: None,
            last_apply: None,
            shift_pointer_down: None,
            destructive: true,
            allow_unused: false,
            showed_unused_id: None,
            brush_id_counter: brush_id_from_halves(hi, lo),
        }
    }
}

impl TileBrush {
    /// Whether a frame of the tile tool picks a brush rather than paints
    /// with one: there is no brush, a selection is being dragged, or space
    /// is held.
    pub fn picks_brush(&self, selecting: bool, space_down: bool) -> (r: bool)
        ensures
            r == (self.brush is None || selecting || space_down),
    {
        self.brush.is_none() || selecting || space_down
    }
}

/// Absolute value of an integer.
pub open spec fn abs_int(v: int) -> int {
    if v < 0 {
        -v
    } else {
        v
    }
}

/// Rectangle of a repeated paste dragged from tile `old` to tile `cur`: its
/// top-left tile, the brush offset to start from (so that the brush stays
/// aligned with where the drag started), width and height.
pub open spec fn repeat_area_spec(old: (i32, i32), cur: (i32, i32), bw: u16, bh: u16) -> (
    (int, int),
    (int, int),
    int,
    int,
) {
    let dx = cur.0 - old.0;
    let dy = cur.1 - old.1;
    (
        (crate::brush::min_int(cur.0 as int, old.0 as int), crate::brush::min_int(cur.1 as int, old.1 as int)),
        (crate::brush::min_int(dx, 0) % (bw as int), crate::brush::min_int(dy, 0) % (bh as int)),
        abs_int(dx) + 1,
        abs_int(dy) + 1,
    )
}

/// Computes [`repeat_area_spec`].
pub fn repeat_area(old: (i32, i32), cur: (i32, i32), bw: u16, bh: u16) -> (r: (
    (i32, i32),
    (u16, u16),
    u16,
    u16,
))
    requires
        bw > 0,
        bh > 0,
        abs_int(cur.0 - old.0) < u16::MAX,
        abs_int(cur.1 - old.1) < u16::MAX,
    ensures
        ({
            let s = repeat_area_spec(old, cur, bw, bh);
            &&& r.0.0 == s.0.0 && r.0.1 == s.0.1
            &&& r.1.0 == s.1.0 && r.1.1 == s.1.1
            &&& r.2 == s.2 && r.3 == s.3
            &&& r.1.0 < bw && r.1.1 < bh
        }),
{
    let dx = cur.0 - old.0;
    let dy = cur.1 - old.1;
    let width: u16 = if dx < 0 {
        (-dx) as u16 + 1
    } else {
        dx as u16 + 1
    };
    let height: u16 = if dy < 0 {
        (-dy) as u16 + 1
    } else {
        dy as u16 + 1
    };
    let min_x = if cur.0 < old.0 {
        cur.0
    } else {
        old.0
    };
    let min_y = if cur.1 < old.1 {
        cur.1
    } else {
        old.1
    };
    let vx: i32 = if dx < 0 {
        dx
    } else {
        0
    };
    let vy: i32 = if dy < 0 {
        dy
    } else {
        0
    };
    let ox = match vx.checked_rem_euclid(bw as i32) {
        Some(m) => m,
        None => 0,
    };
    let oy = match vy.checked_rem_euclid(bh as i32) {
        Some(m) => m,
        None => 0,
    };
    ((min_x, min_y), (ox as u16, oy as u16), width, height)
}

/// Pointer and keyboard input of one frame, in tiles of the active layer.
#[derive(Clone, Copy, Debug)]
pub struct BrushDrawInput {
    pub ctrl: bool,
    pub shift: bool,
    pub primary_down: bool,
    pub primary_pressed: bool,
    pub secondary_pressed: bool,
    /// The fill key is held.
    pub fill_key_down: bool,
    /// Tile under the pointer.
    pub pointer_tile: (i32, i32),
    /// Tile under the pointer for the fill tool, clamped to the layer.
    pub fill_pos: (u16, u16),
}

/// What the brush does with one frame of input.
pub enum DrawBranch {
    Reset,
    ShiftApply,
    ShiftWait,
    ShiftStart,
    ShiftIdle,
    Fill,
    Apply,
    Nothing,
}

/// Decision of the brush on one frame of input.
pub open spec fn draw_branch(
    state: &TileBrush,
    input: BrushDrawInput,
    matches_layer: bool,
) -> DrawBranch {
    let down = !input.ctrl && input.primary_down;
    let pressed = !input.ctrl && input.primary_pressed;
    if input.secondary_pressed {
        DrawBranch::Reset
    } else if (input.shift && (!down || pressed)) || state.shift_pointer_down is Some {
        if state.shift_pointer_down is Some {
            if !down {
                DrawBranch::ShiftApply
            } else {
                DrawBranch::ShiftWait
            }
        } else if pressed {
            DrawBranch::ShiftStart
        } else {
            DrawBranch::ShiftIdle
        }
    } else if input.fill_key_down && matches_layer && pressed {
        DrawBranch::Fill
    } else if !input.fill_key_down && down {
        DrawBranch::Apply
    } else {
        DrawBranch::Nothing
    }
}

/// Inputs on which the brush can act without leaving the integer ranges.
pub open spec fn draw_input_ok(
    state: &TileBrush,
    input: BrushDrawInput,
    group: &PhysicsGroup,
    layer: TileLayerRef,
) -> bool {
    let b = state.brush->Some_0;
    let m = tiles_match_kind(b.tiles@, layer_kind(layer, group));
    &&& state.brush is Some
    &&& b.wf()
    &&& layer.wf(group)
    &&& layer matches TileLayerRef::Physics { layer_index } ==> group.layers@[layer_index as int]@.kind()
        != PhysKind::Arbitrary
    &&& draw_branch(state, input, m) is ShiftApply ==> {
        let old = state.shift_pointer_down->Some_0;
        let cur = input.pointer_tile;
        &&& abs_int(cur.0 - old.0) < u16::MAX
        &&& abs_int(cur.1 - old.1) < u16::MAX
        &&& crate::brush::min_int(cur.0 as int, old.0 as int) > i32::MIN
        &&& crate::brush::min_int(cur.1 as int, old.1 as int) > i32::MIN
        &&& crate::brush::min_int(cur.0 as int, old.0 as int) + abs_int(cur.0 - old.0) + 1 <= i32::MAX
        &&& crate::brush::min_int(cur.1 as int, old.1 as int) + abs_int(cur.1 - old.1) + 1 <= i32::MAX
    }
    &&& draw_branch(state, input, m) is Fill ==> input.fill_pos.0 < layer.dims(group).0
        && input.fill_pos.1 < layer.dims(group).1
    &&& draw_branch(state, input, m) is Apply ==> input.pointer_tile.0 - b.negative_offset.0
        > i32::MIN && input.pointer_tile.1 - b.negative_offset.1 > i32::MIN
}

impl TileBrush {
    /// Handles one frame of input while the tool holds a brush: a secondary
    /// click drops the brush; shift-dragging pastes the brush repeatedly over
    /// the dragged rectangle when released; with the fill key a click fills;
    /// otherwise holding the primary button pastes the brush under the pointer
    /// (shifted by the brush's negative offset). Returns the action groups to
    /// execute, in order.
    pub fn handle_brush_draw(
        &mut self,
        group: &PhysicsGroup,
        layer: &TileLayerRef,
        input: BrushDrawInput,
    ) -> (r: Vec<EditorActionGroup>)
        requires
            draw_input_ok(old(self), input, group, *layer),
        ensures
            ({
                let b = old(self).brush->Some_0;
                let m = tiles_match_kind(b.tiles@, layer_kind(*layer, group));
                let branch = draw_branch(old(self), input, m);
                &&& final(self).destructive == old(self).destructive
                &&& final(self).allow_unused == old(self).allow_unused
                &&& final(self).showed_unused_id == old(self).showed_unused_id
                &&& final(self).brush_id_counter == old(self).brush_id_counter
                &&& match branch {
                    DrawBranch::Reset => final(self).brush is None && final(self).shift_pointer_down
                        is None && r@.len() == 0 && final(self).last_apply == old(self).last_apply,
                    DrawBranch::ShiftStart => final(self).brush == old(self).brush
                        && final(self).shift_pointer_down == Some(input.pointer_tile) && r@.len() == 0
                        && final(self).last_apply == old(self).last_apply,
                    DrawBranch::ShiftApply => {
                        let a = repeat_area_spec(
                            old(self).shift_pointer_down->Some_0,
                            input.pointer_tile,
                            b.w,
                            b.h,
                        );
                        let calls = rows_calls(
                            a.0.0,
                            a.0.1,
                            b.w as int,
                            b.h as int,
                            a.1.0,
                            a.1.1,
                            a.2,
                            a.3,
                        );
                        let f = apply_fold(
                            group,
                            *layer,
                            &b,
                            old(self).destructive,
                            calls,
                            old(self).last_apply,
                            Some(false),
                        );
                        &&& final(self).brush == old(self).brush
                        &&& final(self).shift_pointer_down is None
                        &&& groups_view(r@) == f.2
                        &&& final(self).last_apply == f.0
                    },
                    DrawBranch::Fill => final(self).brush == old(self).brush
                        && final(self).shift_pointer_down == old(self).shift_pointer_down
                        && final(self).last_apply == old(self).last_apply && r@.len() == 1
                        && actions_view(r@[0].actions@) == fill_actions_spec(
                        group,
                        *layer,
                        b.tiles@,
                        input.fill_pos,
                    ) && r@[0].identifier is None,
                    DrawBranch::Apply => {
                        let x = input.pointer_tile.0 - b.negative_offset.0;
                        let y = input.pointer_tile.1 - b.negative_offset.1;
                        let c = crate::brush::clipped(
                            layer.dims(group),
                            b.w,
                            b.h,
                            x as i32,
                            y as i32,
                            0,
                            0,
                            b.w,
                            b.h,
                        );
                        let applies = c.2 > 0 && c.3 > 0 && m;
                        let next = crate::brush::next_apply_spec(*layer, c);
                        &&& final(self).brush == old(self).brush
                        &&& final(self).shift_pointer_down == old(self).shift_pointer_down
                        &&& (r@.len() == 1 <==> applies && old(self).last_apply != Some(next))
                        &&& r@.len() <= 1
                        &&& r@.len() == 1 ==> actions_view(r@[0].actions@)
                            == crate::brush::apply_actions_spec(
                            group,
                            *layer,
                            b.tiles@,
                            b.w,
                            c,
                            old(self).destructive,
                            None,
                        ) && r@[0].identifier == Some(
                            (layer.apply_layer(), old(self).brush_id_counter),
                        )
                        &&& final(self).last_apply == if r@.len() == 1 {
                            Some(next)
                        } else {
                            old(self).last_apply
                        }
                    },
                    _ => final(self).brush == old(self).brush && final(self).shift_pointer_down
                        == old(self).shift_pointer_down && final(self).last_apply
                        == old(self).last_apply && r@.len() == 0,
                }
            }),
    {
        let mut groups: Vec<EditorActionGroup> = Vec::new();
        let down = !input.ctrl && input.primary_down;
        let pressed = !input.ctrl && input.primary_pressed;
        if input.secondary_pressed {
            self.brush = None;
            self.shift_pointer_down = None;
            return groups;
        }
        let brush = match &self.brush {
            Some(b) => b,
            None => {
                return groups;
            },
        };
        let matches = brush_tiles_match_layer(&brush.tiles, layer, group);
        if (input.shift && (!down || pressed)) || self.shift_pointer_down.is_some() {
            match self.shift_pointer_down {
                Some(start) => {
                    if !down {
                        let (pos_min, offset, width, height) = repeat_area(
                            start,
                            input.pointer_tile,
                            brush.w,
                            brush.h,
                        );
                        groups = apply_brush_repeating_internal(
                            self.brush_id_counter,
                            self.destructive,
                            brush,
                            &mut self.last_apply,
                            group,
                            layer,
                            pos_min,
                            offset,
                            width,
                            height,
                        );
                        self.shift_pointer_down = None;
                    }
                },
                None => {
                    if pressed {
                        self.shift_pointer_down = Some(input.pointer_tile);
                    }
                },
            }
        } else if input.fill_key_down && matches && pressed {
            let actions = fill_layer_actions(group, layer, brush, input.fill_pos);
            groups.push(EditorActionGroup { actions, identifier: None });
        } else if !input.fill_key_down && down {
            let x = input.pointer_tile.0 - brush.negative_offset.0 as i32;
            let y = input.pointer_tile.1 - brush.negative_offset.1 as i32;
            let mut flag: Option<bool> = None;
            match apply_brush_internal(
                self.brush_id_counter,
                group,
                layer,
                brush,
                &mut self.last_apply,
                x,
                y,
                0,
                0,
                brush.w,
                brush.h,
                &mut flag,
                self.destructive,
            ) {
                Some(g) => groups.push(g),
                None => {},
            }
        }
        groups
    }
}

} // verus!
