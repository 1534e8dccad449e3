//! Ctrl + right click on the map selects the layer whose tile was clicked:
//! the next such layer after the active one, else the first.
use vstd::prelude::*;

use crate::tiles::TileKind;

verus! {

/// The tile at (`x`, `y`) of a `w` x `h` layer exists and is not air.
pub open spec fn hit_spec<T: TileKind>(tiles: Seq<T>, w: int, h: int, x: int, y: int) -> bool {
    0 <= x < w && 0 <= y < h && tiles[y * w + x].base_spec().index != 0
}

/// Whether the pointer at tile (`x`, `y`) is over a non-air tile of the layer.
pub fn tile_hit<T: TileKind>(tiles: &Vec<T>, w: u16, h: u16, x: i32, y: i32) -> (r: bool)
    requires
        tiles@.len() == w * h,
    ensures
        r == hit_spec(tiles@, w as int, h as int, x as int, y as int),
{
    if x >= 0 && y >= 0 && x < w as i32 && y < h as i32 {
        proof {
            crate::tiles::lemma_cell_before_row(y as int, x as int, w as int, h as int);
            crate::tiles::lemma_u16_product(w as int, h as int);
        }
        let index = y as usize * w as usize + x as usize;
        tiles[index].base().index != 0
    } else {
        false
    }
}

/// Some layer before index `i` is the active one.
pub open spec fn active_before(layers: Seq<(bool, bool)>, i: int) -> bool {
    exists|j: int| 0 <= j < i && (#[trigger] layers[j]).1
}

/// First index with a hit that comes after an active layer.
pub open spec fn first_hit_after_active(layers: Seq<(bool, bool)>) -> Option<int> {
    if exists|i: int| 0 <= i < layers.len() && (#[trigger] layers[i]).0 && active_before(layers, i) {
        Some(
            choose|i: int|
                0 <= i < layers.len() && (#[trigger] layers[i]).0 && active_before(layers, i)
                    && forall|j: int|
                    0 <= j < i ==> !(layers[j].0 && active_before(layers, j)),
        )
    } else {
        None
    }
}

/// First index with a hit.
pub open spec fn first_hit(layers: Seq<(bool, bool)>) -> Option<int> {
    if exists|i: int| 0 <= i < layers.len() && (#[trigger] layers[i]).0 {
        Some(
            choose|i: int|
                0 <= i < layers.len() && (#[trigger] layers[i]).0 && forall|j: int|
                    0 <= j < i ==> !layers[j].0,
        )
    } else {
        None
    }
}

/// Picks the layer to make active from `(hit, is_active)` per candidate
/// layer in cycling order: the first hit after the active layer, else the
/// first hit.
pub fn next_clicked_layer(layers: &Vec<(bool, bool)>) -> (r: Option<usize>)
    ensures
        r == match first_hit_after_active(layers@) {
            Some(i) => Some(i as usize),
            None => match first_hit(layers@) {
                Some(i) => Some(i as usize),
                None => None::<usize>,
            },
        },
{
    let mut first_found: Option<usize> = None;
    let mut first_after_active_found: Option<usize> = None;
    let mut active_found = false;
    let mut i: usize = 0;
    while i < layers.len()
        invariant
            i <= layers@.len(),
            active_found == active_before(layers@, i as int),
            match first_found {
                Some(f) => f < i && layers@[f as int].0 && forall|j: int| 0 <= j < f ==> !layers@[j].0,
                None => forall|j: int| 0 <= j < i ==> !layers@[j].0,
            },
            match first_after_active_found {
                Some(f) => f < i && layers@[f as int].0 && active_before(layers@, f as int)
                    && forall|j: int| 0 <= j < f ==> !(layers@[j].0 && active_before(layers@, j)),
                None => forall|j: int| 0 <= j < i ==> !(layers@[j].0 && active_before(layers@, j)),
            },
        decreases layers@.len() - i,
    {
        let (hit, active) = layers[i];
        if hit {
            if first_found.is_none() {
                first_found = Some(i);
            }
            if active_found && first_after_active_found.is_none() {
                first_after_active_found = Some(i);
            }
        }
        if active {
            active_found = true;
        }
        proof {
            if active {
                assert(layers@[i as int].1);
            } else {
                if active_before(layers@, i + 1) {
                    let a = choose|a: int| 0 <= a < i + 1 && (#[trigger] layers@[a]).1;
                    assert(a < i);
                }
            }
        }
        i += 1;
    }
    proof {
        match first_after_active_found {
            Some(f) => {
                let g = choose|k: int|
                    0 <= k < layers@.len() && (#[trigger] layers@[k]).0 && active_before(layers@, k)
                        && forall|j: int| 0 <= j < k ==> !(layers@[j].0 && active_before(layers@, j));
                assert(layers@[f as int].0);
                assert(g == f as int) by {
                    if g < f {
                    } else if g > f {
                        assert(!(layers@[f as int].0 && active_before(layers@, f as int)));
                    }
                }
            },
            None => {},
        }
        match first_found {
            Some(f) => {
                let g = choose|k: int|
                    0 <= k < layers@.len() && (#[trigger] layers@[k]).0 && forall|j: int|
                        0 <= j < k ==> !layers@[j].0;
                assert(layers@[f as int].0);
                assert(g == f as int) by {
                    if g < f {
                    } else if g > f {
                        assert(!layers@[f as int].0);
                    }
                }
            },
            None => {},
        }
    }
    match first_after_active_found {
        Some(f) => Some(f),
        None => first_found,
    }
}

} // verus!
