//! Flood fill over a tile grid: the region of equal tile numbers that the
//! fill tool replaces, and the rectangle of old and new tiles it produces.
use vstd::prelude::*;

use crate::tiles::{collect_spec, collect_tiles, lemma_cell_before_row, lemma_u16_product, TileKind};

verus! {

/// Index of cell `p = (x, y)` in a grid whose rows are `w` cells wide.
pub open spec fn grid_index(w: int, p: (int, int)) -> int {
    p.1 * w + p.0
}

/// Cell `p` lies inside the `w` x `h` grid.
pub open spec fn in_grid(w: int, h: int, p: (int, int)) -> bool {
    0 <= p.0 < w && 0 <= p.1 < h
}

/// Cells `p` and `q` touch: they differ by at most one in each direction
/// (diagonal neighbours count, and so does the cell itself).
pub open spec fn touching(p: (int, int), q: (int, int)) -> bool {
    -1 <= p.0 - q.0 <= 1 && -1 <= p.1 - q.1 <= 1
}

/// Tile number of cell `p`.
pub open spec fn number_at<T: TileKind>(tiles: Seq<T>, w: int, p: (int, int)) -> u8 {
    tiles[grid_index(w, p)].base_spec().index
}

/// `path` walks through touching cells of the grid, all with tile number `n`.
pub open spec fn is_fill_path<T: TileKind>(
    tiles: Seq<T>,
    w: int,
    h: int,
    n: u8,
    path: Seq<(int, int)>,
) -> bool {
    &&& path.len() > 0
    &&& forall|k: int|
        0 <= k < path.len() ==> in_grid(w, h, #[trigger] path[k]) && number_at(tiles, w, path[k])
            == n
    &&& forall|k: int| 0 <= k < path.len() - 1 ==> touching(#[trigger] path[k], path[k + 1])
}

/// A fill started at `start` reaches `p`: some path of touching cells with
/// the start's tile number leads from `start` to `p`.
pub open spec fn fill_reaches<T: TileKind>(
    tiles: Seq<T>,
    w: int,
    h: int,
    start: (int, int),
    p: (int, int),
) -> bool {
    exists|path: Seq<(int, int)>|
        #[trigger] is_fill_path(tiles, w, h, number_at(tiles, w, start), path) && path[0]
            == start && path.last() == p
}

/// Number of `false` entries.
pub open spec fn count_false(s: Seq<bool>) -> nat
    decreases s.len(),
{
    if s.len() == 0 {
        0
    } else {
        count_false(s.drop_last()) + if s.last() {
            0nat
        } else {
            1nat
        }
    }
}

proof fn lemma_count_false_update(s: Seq<bool>, i: int)
    requires
        0 <= i < s.len(),
        !s[i],
    ensures
        count_false(s.update(i, true)) + 1 == count_false(s),
    decreases s.len(),
{
    if i == s.len() - 1 {
        assert(s.update(i, true).drop_last() =~= s.drop_last());
    } else {
        lemma_count_false_update(s.drop_last(), i);
        assert(s.update(i, true).drop_last() =~= s.drop_last().update(i, true));
    }
}

/// The set of filled cells is closed: every in-grid neighbour with the
/// searched number of a filled cell is filled too.
pub open spec fn fill_closed<T: TileKind>(
    tiles: Seq<T>,
    w: int,
    h: int,
    n: u8,
    filled: Seq<bool>,
) -> bool {
    forall|p: (int, int), q: (int, int)|
        in_grid(w, h, p) && in_grid(w, h, q) && #[trigger] filled[grid_index(w, p)] && touching(p, q)
            && number_at(tiles, w, q) == n ==> #[trigger] filled[grid_index(w, q)]
}

proof fn lemma_closed_path_filled<T: TileKind>(
    tiles: Seq<T>,
    w: int,
    h: int,
    n: u8,
    filled: Seq<bool>,
    path: Seq<(int, int)>,
    k: int,
)
    requires
        fill_closed(tiles, w, h, n, filled),
        is_fill_path(tiles, w, h, n, path),
        filled[grid_index(w, path[0])],
        0 <= k < path.len(),
    ensures
        filled[grid_index(w, path[k])],
    decreases k,
{
    if k > 0 {
        lemma_closed_path_filled(tiles, w, h, n, filled, path, k - 1);
        assert(in_grid(w, h, path[k - 1]));
        assert(in_grid(w, h, path[k]));
        assert(touching(path[k - 1], path[k]));
    }
}

proof fn lemma_grid_index_bounds(w: int, h: int, p: (int, int))
    requires
        in_grid(w, h, p),
    ensures
        0 <= grid_index(w, p) < w * h,
{
    lemma_cell_before_row(p.1, p.0, w, h);
}

proof fn lemma_grid_index_injective(w: int, p: (int, int), q: (int, int))
    requires
        0 <= p.0 < w,
        0 <= q.0 < w,
        0 <= p.1,
        0 <= q.1,
        grid_index(w, p) == grid_index(w, q),
    ensures
        p == q,
{
    if p.1 < q.1 {
        lemma_cell_before_row(p.1, p.0, w, q.1);
        assert(q.1 * w <= grid_index(w, q));
    } else if q.1 < p.1 {
        lemma_cell_before_row(q.1, q.0, w, p.1);
        assert(p.1 * w <= grid_index(w, p));
    }
}

/// Neighbour coordinate `c - 1 + d` of `c` (for `d` in 0..3), if it lies in
/// `0..limit`.
fn neighbour(c: u16, d: u16, limit: u16) -> (r: Option<u16>)
    requires
        c < limit,
        d < 3,
    ensures
        r == (if 0 <= c - 1 + d < limit {
            Some((c - 1 + d) as u16)
        } else {
            None::<u16>
        }),
{
    if d == 0 {
        if c == 0 {
            None
        } else {
            Some(c - 1)
        }
    } else if d == 1 {
        Some(c)
    } else {
        if c < limit - 1 {
            Some(c + 1)
        } else {
            None
        }
    }
}

/// Every marked cell lies in the grid and is reached from `start`.
pub open spec fn fill_sound<T: TileKind>(
    tiles: Seq<T>,
    w: int,
    h: int,
    start: (int, int),
    filled: Seq<bool>,
) -> bool {
    &&& filled.len() == tiles.len()
    &&& forall|i: int| 0 <= i < filled.len() && #[trigger] filled[i] ==> i < w * h
    &&& forall|p: (int, int)|
        in_grid(w, h, p) && #[trigger] filled[grid_index(w, p)] ==> fill_reaches(
            tiles,
            w,
            h,
            start,
            p,
        )
}

/// Every cell on the work stack lies in the grid and is marked.
pub open spec fn stack_marked(w: int, h: int, filled: Seq<bool>, stack: Seq<(u16, u16)>) -> bool {
    forall|k: int|
        0 <= k < stack.len() ==> (#[trigger] stack[k]).0 < w && stack[k].1 < h && filled[grid_index(
            w,
            (stack[k].0 as int, stack[k].1 as int),
        )]
}

/// The marked cells lie inside the box `lo..=hi`, and the witnesses `wit` are
/// marked cells on each of its four sides.
pub open spec fn fill_box(
    w: int,
    h: int,
    filled: Seq<bool>,
    lo: (u16, u16),
    hi: (u16, u16),
    wit: ((int, int), (int, int), (int, int), (int, int)),
) -> bool {
    &&& forall|p: (int, int)|
        in_grid(w, h, p) && #[trigger] filled[grid_index(w, p)] ==> lo.0 <= p.0 <= hi.0 && lo.1
            <= p.1 <= hi.1
    &&& in_grid(w, h, wit.0) && filled[grid_index(w, wit.0)] && wit.0.0 == lo.0
    &&& in_grid(w, h, wit.1) && filled[grid_index(w, wit.1)] && wit.1.1 == lo.1
    &&& in_grid(w, h, wit.2) && filled[grid_index(w, wit.2)] && wit.2.0 == hi.0
    &&& in_grid(w, h, wit.3) && filled[grid_index(w, wit.3)] && wit.3.1 == hi.1
}

/// Marks cell `(qx, qy)` and pushes it on the stack if it carries the searched
/// number and is not marked yet.
fn fill_visit<T: TileKind>(
    tiles: &Vec<T>,
    w: u16,
    h: u16,
    search: u8,
    filled: &mut Vec<bool>,
    stack: &mut Vec<(u16, u16)>,
    lo: &mut (u16, u16),
    hi: &mut (u16, u16),
    qx: u16,
    qy: u16,
    Ghost(start): Ghost<(int, int)>,
    Ghost(cur): Ghost<(int, int)>,
    Ghost(wit): Ghost<((int, int), (int, int), (int, int), (int, int))>,
) -> (new_wit: Ghost<((int, int), (int, int), (int, int), (int, int))>)
    requires
        0 < w,
        0 < h,
        qx < w,
        qy < h,
        tiles@.len() >= w * h,
        in_grid(w as int, h as int, start),
        search == number_at(tiles@, w as int, start),
        in_grid(w as int, h as int, cur),
        touching(cur, (qx as int, qy as int)),
        old(filled)@[grid_index(w as int, cur)],
        fill_sound(tiles@, w as int, h as int, start, old(filled)@),
        stack_marked(w as int, h as int, old(filled)@, old(stack)@),
        fill_box(w as int, h as int, old(filled)@, *old(lo), *old(hi), wit),
    ensures
        fill_sound(tiles@, w as int, h as int, start, final(filled)@),
        stack_marked(w as int, h as int, final(filled)@, final(stack)@),
        fill_box(w as int, h as int, final(filled)@, *final(lo), *final(hi), new_wit@),
        forall|i: int| 0 <= i < old(filled)@.len() && old(filled)@[i] ==> #[trigger] final(filled)@[i],
        old(stack)@.len() <= final(stack)@.len(),
        forall|k: int| 0 <= k < old(stack)@.len() ==> #[trigger] final(stack)@[k] == old(stack)@[k],
        forall|k: int|
            old(stack)@.len() <= k < final(stack)@.len() ==> #[trigger] final(stack)@[k] == (qx, qy),
        2 * count_false(final(filled)@) + final(stack)@.len() <= 2 * count_false(old(filled)@)
            + old(stack)@.len(),
        forall|p: (int, int)|
            in_grid(w as int, h as int, p) && #[trigger] final(filled)@[grid_index(w as int, p)]
                && !old(filled)@[grid_index(w as int, p)] ==> final(stack)@.contains(
                (p.0 as u16, p.1 as u16),
            ),
        number_at(tiles@, w as int, (qx as int, qy as int)) == search ==> final(filled)@[grid_index(
            w as int,
            (qx as int, qy as int),
        )],
{
    let ghost wi = w as int;
    let ghost hi_ = h as int;
    let ghost q = (qx as int, qy as int);
    let len = tiles.len();
    proof {
        lemma_grid_index_bounds(wi, hi_, q);
    }
    let qi = qy as usize * w as usize + qx as usize;
    let ghost mut new_wit = wit;
    if tiles[qi].base().index == search && !filled[qi] {
        let ghost before = filled@;
        proof {
            lemma_count_false_update(filled@, qi as int);
        }
        filled.set(qi, true);
        stack.push((qx, qy));
        if qx < lo.0 {
            lo.0 = qx;
            proof {
                new_wit.0 = q;
            }
        }
        if qy < lo.1 {
            lo.1 = qy;
            proof {
                new_wit.1 = q;
            }
        }
        if qx > hi.0 {
            hi.0 = qx;
            proof {
                new_wit.2 = q;
            }
        }
        if qy > hi.1 {
            hi.1 = qy;
            proof {
                new_wit.3 = q;
            }
        }
        proof {
            assert(filled@ == before.update(qi as int, true));
            assert(fill_reaches(tiles@, wi, hi_, start, cur));
            let path = choose|path: Seq<(int, int)>|
                #[trigger] is_fill_path(tiles@, wi, hi_, number_at(tiles@, wi, start), path)
                    && path[0] == start && path.last() == cur;
            let path2 = path.push(q);
            assert(is_fill_path(tiles@, wi, hi_, number_at(tiles@, wi, start), path2)) by {
                assert forall|k: int| 0 <= k < path2.len() - 1 implies touching(
                    #[trigger] path2[k],
                    path2[k + 1],
                ) by {
                    if k < path.len() - 1 {
                        assert(path2[k] == path[k]);
                        assert(path2[k + 1] == path[k + 1]);
                    }
                }
                assert forall|k: int| 0 <= k < path2.len() implies in_grid(
                    wi,
                    hi_,
                    #[trigger] path2[k],
                ) && number_at(tiles@, wi, path2[k]) == number_at(tiles@, wi, start) by {
                    if k < path.len() {
                        assert(path2[k] == path[k]);
                    }
                }
            }
            assert(path2[0] == start);
            assert(path2.last() == q);
            assert forall|p: (int, int)|
                in_grid(wi, hi_, p) && #[trigger] filled@[grid_index(wi, p)] implies fill_reaches(
                tiles@,
                wi,
                hi_,
                start,
                p,
            ) by {
                lemma_grid_index_bounds(wi, hi_, p);
                if grid_index(wi, p) == qi {
                    lemma_grid_index_injective(wi, p, q);
                } else {
                    assert(before[grid_index(wi, p)]);
                }
            }
            assert forall|p: (int, int)|
                in_grid(wi, hi_, p) && #[trigger] filled@[grid_index(wi, p)] implies lo.0 <= p.0
                <= hi.0 && lo.1 <= p.1 <= hi.1 by {
                lemma_grid_index_bounds(wi, hi_, p);
                if grid_index(wi, p) == qi {
                    lemma_grid_index_injective(wi, p, q);
                } else {
                    assert(before[grid_index(wi, p)]);
                }
            }
            assert forall|k: int| 0 <= k < stack@.len() implies (#[trigger] stack@[k]).0 < w
                && stack@[k].1 < h && filled@[grid_index(
                wi,
                (stack@[k].0 as int, stack@[k].1 as int),
            )] by {
                if k < stack@.len() - 1 {
                    lemma_grid_index_bounds(wi, hi_, (stack@[k].0 as int, stack@[k].1 as int));
                }
            }
            assert forall|i: int| 0 <= i < filled@.len() && #[trigger] filled@[i] implies i < wi
                * hi_ by {
                if i != qi {
                    assert(before[i]);
                }
            }
            assert forall|p: (int, int)|
                in_grid(wi, hi_, p) && #[trigger] filled@[grid_index(wi, p)] && !before[grid_index(
                    wi,
                    p,
                )] implies stack@.contains((p.0 as u16, p.1 as u16)) by {
                lemma_grid_index_bounds(wi, hi_, p);
                if grid_index(wi, p) != qi {
                    assert(filled@[grid_index(wi, p)] == before[grid_index(wi, p)]);
                }
                lemma_grid_index_injective(wi, p, q);
                assert(stack@[stack@.len() - 1] == (qx, qy));
            }
            lemma_grid_index_bounds(wi, hi_, wit.0);
            lemma_grid_index_bounds(wi, hi_, wit.1);
            lemma_grid_index_bounds(wi, hi_, wit.2);
            lemma_grid_index_bounds(wi, hi_, wit.3);
        }
    }
    Ghost(new_wit)
}

/// Flood fill from `(x, y)`: marks every cell that a path of touching cells
/// (diagonals included) with the start's tile number reaches, and returns the
/// marks together with the smallest and largest marked coordinates.
pub fn fill<T: TileKind>(tiles: &Vec<T>, w: u16, h: u16, x: u16, y: u16) -> (r: (
    Vec<bool>,
    (u16, u16),
    (u16, u16),
))
    requires
        0 < w,
        0 < h,
        x < w,
        y < h,
        tiles@.len() >= w * h,
    ensures
        r.0@.len() == tiles@.len(),
        forall|i: int| 0 <= i < r.0@.len() && #[trigger] r.0@[i] ==> i < w * h,
        forall|p: (int, int)|
            in_grid(w as int, h as int, p) ==> (#[trigger] r.0@[grid_index(w as int, p)]
                <==> fill_reaches(tiles@, w as int, h as int, (x as int, y as int), p)),
        forall|p: (int, int)|
            in_grid(w as int, h as int, p) && #[trigger] r.0@[grid_index(w as int, p)] ==> r.1.0
                <= p.0 <= r.2.0 && r.1.1 <= p.1 <= r.2.1,
        exists|p: (int, int)|
            in_grid(w as int, h as int, p) && #[trigger] r.0@[grid_index(w as int, p)] && p.0
                == r.1.0,
        exists|p: (int, int)|
            in_grid(w as int, h as int, p) && #[trigger] r.0@[grid_index(w as int, p)] && p.1
                == r.1.1,
        exists|p: (int, int)|
            in_grid(w as int, h as int, p) && #[trigger] r.0@[grid_index(w as int, p)] && p.0
                == r.2.0,
        exists|p: (int, int)|
            in_grid(w as int, h as int, p) && #[trigger] r.0@[grid_index(w as int, p)] && p.1
                == r.2.1,
{
    let ghost wi = w as int;
    let ghost hi = h as int;
    let ghost start = (x as int, y as int);
    let len = tiles.len();
    let mut filled: Vec<bool> = Vec::new();
    while filled.len() < len
        invariant
            len == tiles@.len(),
            filled@.len() <= len,
            forall|i: int| 0 <= i < filled@.len() ==> !filled@[i],
        decreases len - filled@.len(),
    {
        filled.push(false);
    }
    proof {
        lemma_grid_index_bounds(wi, hi, start);
    }
    let index = y as usize * w as usize + x as usize;
    let search = tiles[index].base().index;
    let ghost all_false = filled@;
    filled.set(index, true);
    let mut stack: Vec<(u16, u16)> = Vec::new();
    stack.push((x, y));
    let mut lo = (x, y);
    let mut hi_box = (x, y);
    let ghost mut wit = (start, start, start, start);
    proof {
        assert(index == grid_index(wi, start));
        let path = seq![start];
        assert(is_fill_path(tiles@, wi, hi, number_at(tiles@, wi, start), path));
        assert forall|i: int| 0 <= i < filled@.len() && #[trigger] filled@[i] implies i == index by {
            if i != index {
                assert(filled@[i] == all_false[i]);
            }
        }
        assert forall|p: (int, int)|
            in_grid(wi, hi, p) && #[trigger] filled@[grid_index(wi, p)] implies p == start by {
            lemma_grid_index_bounds(wi, hi, p);
            assert(grid_index(wi, p) == index);
            lemma_grid_index_injective(wi, p, start);
        }
        assert(stack@[0] == (x, y));
        assert(stack@.contains((x, y)));
    }
    while stack.len() > 0
        invariant
            0 < w,
            0 < h,
            wi == w,
            hi == h,
            start == (x as int, y as int),
            in_grid(wi, hi, start),
            tiles@.len() >= w * h,
            search == number_at(tiles@, wi, start),
            filled@[grid_index(wi, start)],
            fill_sound(tiles@, wi, hi, start, filled@),
            stack_marked(wi, hi, filled@, stack@),
            fill_box(wi, hi, filled@, lo, hi_box, wit),
            forall|p: (int, int), q: (int, int)|
                in_grid(wi, hi, p) && in_grid(wi, hi, q) && #[trigger] filled@[grid_index(wi, p)]
                    && !stack@.contains((p.0 as u16, p.1 as u16)) && touching(p, q) && number_at(
                    tiles@,
                    wi,
                    q,
                ) == search ==> #[trigger] filled@[grid_index(wi, q)],
        decreases 2 * count_false(filled@) + stack@.len(),
    {
        let ghost stack_before = stack@;
        let ghost filled_before = filled@;
        let (cx, cy) = match stack.pop() {
            Some(c) => c,
            None => (0, 0),
        };
        let ghost cur = (cx as int, cy as int);
        let ghost stack_popped = stack@;
        let ghost count_popped = count_false(filled@);
        proof {
            assert(stack_before =~= stack_popped.push((cx, cy)));
            assert(stack_before[stack_before.len() - 1] == (cx, cy));
        }
        let mut dy: u16 = 0;
        while dy < 3
            invariant
                0 < w,
                0 < h,
                wi == w,
                hi == h,
                in_grid(wi, hi, start),
                tiles@.len() >= w * h,
                search == number_at(tiles@, wi, start),
                cx < w,
                cy < h,
                cur == (cx as int, cy as int),
                dy <= 3,
                filled@[grid_index(wi, cur)],
                stack_popped.len() <= stack@.len(),
                forall|k: int| 0 <= k < stack_popped.len() ==> stack@[k] == stack_popped[k],
                2 * count_false(filled@) + stack@.len() <= 2 * count_popped + stack_popped.len(),
                fill_sound(tiles@, wi, hi, start, filled@),
                stack_marked(wi, hi, filled@, stack@),
                fill_box(wi, hi, filled@, lo, hi_box, wit),
                filled_before.len() == tiles@.len(),
                forall|i: int|
                    0 <= i < filled_before.len() && filled_before[i] ==> #[trigger] filled@[i],
                forall|p: (int, int)|
                    in_grid(wi, hi, p) && #[trigger] filled@[grid_index(wi, p)]
                        && !filled_before[grid_index(wi, p)] ==> stack@.contains(
                        (p.0 as u16, p.1 as u16),
                    ),
                forall|q: (int, int)|
                    in_grid(wi, hi, q) && touching(cur, q) && q.1 < cy - 1 + dy && number_at(
                        tiles@,
                        wi,
                        q,
                    ) == search ==> #[trigger] filled@[grid_index(wi, q)],
            decreases 3 - dy,
        {
            let ny = neighbour(cy, dy, h);
            let mut dx: u16 = 0;
            while dx < 3
                invariant
                    0 < w,
                    0 < h,
                    wi == w,
                    hi == h,
                    in_grid(wi, hi, start),
                    tiles@.len() >= w * h,
                    search == number_at(tiles@, wi, start),
                    cx < w,
                    cy < h,
                    cur == (cx as int, cy as int),
                    dy < 3,
                    dx <= 3,
                    ny == (if 0 <= cy - 1 + dy < h {
                        Some((cy - 1 + dy) as u16)
                    } else {
                        None::<u16>
                    }),
                    filled@[grid_index(wi, cur)],
                    stack_popped.len() <= stack@.len(),
                    forall|k: int| 0 <= k < stack_popped.len() ==> stack@[k] == stack_popped[k],
                    2 * count_false(filled@) + stack@.len() <= 2 * count_popped
                        + stack_popped.len(),
                    fill_sound(tiles@, wi, hi, start, filled@),
                    stack_marked(wi, hi, filled@, stack@),
                    fill_box(wi, hi, filled@, lo, hi_box, wit),
                    filled_before.len() == tiles@.len(),
                    forall|i: int|
                        0 <= i < filled_before.len() && filled_before[i] ==> #[trigger] filled@[i],
                    forall|p: (int, int)|
                        in_grid(wi, hi, p) && #[trigger] filled@[grid_index(wi, p)]
                            && !filled_before[grid_index(wi, p)] ==> stack@.contains(
                            (p.0 as u16, p.1 as u16),
                        ),
                    forall|q: (int, int)|
                        in_grid(wi, hi, q) && touching(cur, q) && (q.1 < cy - 1 + dy || (q.1 == cy
                            - 1 + dy && q.0 < cx - 1 + dx)) && number_at(tiles@, wi, q) == search
                            ==> #[trigger] filled@[grid_index(wi, q)],
                decreases 3 - dx,
            {
                let nx = neighbour(cx, dx, w);
                let ghost filled_step = filled@;
                let ghost stack_step = stack@;
                if nx.is_some() && ny.is_some() {
                    let qx = nx.unwrap();
                    let qy = ny.unwrap();
                    let new_wit = fill_visit(
                        tiles,
                        w,
                        h,
                        search,
                        &mut filled,
                        &mut stack,
                        &mut lo,
                        &mut hi_box,
                        qx,
                        qy,
                        Ghost(start),
                        Ghost(cur),
                        Ghost(wit),
                    );
                    proof {
                        wit = new_wit@;
                    }
                }
                proof {
                    lemma_grid_index_bounds(wi, hi, cur);
                    lemma_grid_index_bounds(wi, hi, start);
                    assert(filled@[grid_index(wi, cur)]) by {
                        assert(filled_step[grid_index(wi, cur)]);
                    }
                    assert forall|i: int|
                        0 <= i < filled_before.len() && filled_before[i] implies #[trigger] filled@[i] by {
                        assert(filled_step[i]);
                    }
                    assert forall|p: (int, int)|
                        in_grid(wi, hi, p) && #[trigger] filled@[grid_index(wi, p)]
                            && !filled_before[grid_index(wi, p)] implies stack@.contains(
                        (p.0 as u16, p.1 as u16),
                    ) by {
                        lemma_grid_index_bounds(wi, hi, p);
                        if filled_step[grid_index(wi, p)] {
                            let k = choose|k: int|
                                0 <= k < stack_step.len() && stack_step[k] == (
                                    p.0 as u16,
                                    p.1 as u16,
                                );
                            assert(stack@[k] == stack_step[k]);
                        }
                    }
                    assert forall|q: (int, int)|
                        in_grid(wi, hi, q) && touching(cur, q) && (q.1 < cy - 1 + dy || (q.1 == cy
                            - 1 + dy && q.0 < cx - 1 + dx + 1)) && number_at(tiles@, wi, q)
                            == search implies #[trigger] filled@[grid_index(wi, q)] by {
                        lemma_grid_index_bounds(wi, hi, q);
                        if q.1 == cy - 1 + dy && q.0 == cx - 1 + dx {
                        } else {
                            assert(filled_step[grid_index(wi, q)]);
                        }
                    }
                    assert forall|k: int| 0 <= k < stack_popped.len() implies stack@[k]
                        == stack_popped[k] by {
                        assert(stack_step[k] == stack_popped[k]);
                    }
                }
                dx += 1;
            }
            dy += 1;
        }
        proof {
            lemma_grid_index_bounds(wi, hi, start);
            assert(filled_before[grid_index(wi, start)]);
            assert forall|p: (int, int), q: (int, int)|
                in_grid(wi, hi, p) && in_grid(wi, hi, q) && #[trigger] filled@[grid_index(wi, p)]
                    && !stack@.contains((p.0 as u16, p.1 as u16)) && touching(p, q) && number_at(
                    tiles@,
                    wi,
                    q,
                ) == search implies #[trigger] filled@[grid_index(wi, q)] by {
                lemma_grid_index_bounds(wi, hi, p);
                lemma_grid_index_bounds(wi, hi, q);
                if p == cur {
                } else if !filled_before[grid_index(wi, p)] {
                } else {
                    if stack_before.contains((p.0 as u16, p.1 as u16)) {
                        let k = choose|k: int|
                            0 <= k < stack_before.len() && stack_before[k] == (
                                p.0 as u16,
                                p.1 as u16,
                            );
                        if k < stack_popped.len() {
                            assert(stack@[k] == stack_before[k]);
                        } else {
                            assert(stack_before[k] == (cx, cy));
                        }
                    } else {
                        assert(filled_before[grid_index(wi, q)]);
                    }
                }
            }
        }
    }
    proof {
        assert(fill_closed(tiles@, wi, hi, search, filled@));
        assert forall|p: (int, int)|
            in_grid(wi, hi, p) implies (#[trigger] filled@[grid_index(wi, p)] <==> fill_reaches(
            tiles@,
            wi,
            hi,
            start,
            p,
        )) by {
            if fill_reaches(tiles@, wi, hi, start, p) {
                let path = choose|path: Seq<(int, int)>|
                    #[trigger] is_fill_path(tiles@, wi, hi, number_at(tiles@, wi, start), path)
                        && path[0] == start && path.last() == p;
                lemma_closed_path_filled(tiles@, wi, hi, search, filled@, path, path.len() - 1);
            }
        }
        assert(filled@[grid_index(wi, wit.0)]);
        assert(filled@[grid_index(wi, wit.1)]);
        assert(filled@[grid_index(wi, wit.2)]);
        assert(filled@[grid_index(wi, wit.3)]);
    }
    (filled, lo, hi_box)
}

/// `lo..=hi` is the bounding box of the cells a fill from `start` reaches:
/// every reached cell lies in it and each side touches a reached cell.
pub open spec fn fill_box_of<T: TileKind>(
    tiles: Seq<T>,
    w: int,
    h: int,
    start: (int, int),
    lo: (u16, u16),
    hi: (u16, u16),
) -> bool {
    &&& forall|p: (int, int)|
        in_grid(w, h, p) && #[trigger] fill_reaches(tiles, w, h, start, p) ==> lo.0 <= p.0 <= hi.0
            && lo.1 <= p.1 <= hi.1
    &&& exists|p: (int, int)|
        in_grid(w, h, p) && #[trigger] fill_reaches(tiles, w, h, start, p) && p.0 == lo.0
    &&& exists|p: (int, int)|
        in_grid(w, h, p) && #[trigger] fill_reaches(tiles, w, h, start, p) && p.1 == lo.1
    &&& exists|p: (int, int)|
        in_grid(w, h, p) && #[trigger] fill_reaches(tiles, w, h, start, p) && p.0 == hi.0
    &&& exists|p: (int, int)|
        in_grid(w, h, p) && #[trigger] fill_reaches(tiles, w, h, start, p) && p.1 == hi.1
}

proof fn lemma_fill_result_box<T: TileKind>(
    tiles: Seq<T>,
    wi: int,
    hi_: int,
    start: (int, int),
    filled: Seq<bool>,
    min: (u16, u16),
    max: (u16, u16),
)
    requires
        in_grid(wi, hi_, start),
        tiles.len() >= wi * hi_,
        filled.len() == tiles.len(),
        forall|p: (int, int)|
            in_grid(wi, hi_, p) ==> (#[trigger] filled[grid_index(wi, p)] <==> fill_reaches(
                tiles,
                wi,
                hi_,
                start,
                p,
            )),
        forall|p: (int, int)|
            in_grid(wi, hi_, p) && #[trigger] filled[grid_index(wi, p)] ==> min.0 <= p.0 <= max.0
                && min.1 <= p.1 <= max.1,
        exists|p: (int, int)| in_grid(wi, hi_, p) && #[trigger] filled[grid_index(wi, p)] && p.0 == min.0,
        exists|p: (int, int)| in_grid(wi, hi_, p) && #[trigger] filled[grid_index(wi, p)] && p.1 == min.1,
        exists|p: (int, int)| in_grid(wi, hi_, p) && #[trigger] filled[grid_index(wi, p)] && p.0 == max.0,
        exists|p: (int, int)| in_grid(wi, hi_, p) && #[trigger] filled[grid_index(wi, p)] && p.1 == max.1,
    ensures
        fill_box_of(tiles, wi, hi_, start, min, max),
        min.0 <= max.0 < wi,
        min.1 <= max.1 < hi_,
        filled[grid_index(wi, start)],
{
    let path = seq![start];
    assert(is_fill_path(tiles, wi, hi_, number_at(tiles, wi, start), path));
    assert(fill_reaches(tiles, wi, hi_, start, start));
    assert(filled[grid_index(wi, start)]);
    assert forall|p: (int, int)|
        in_grid(wi, hi_, p) && #[trigger] fill_reaches(tiles, wi, hi_, start, p) implies min.0 <= p.0
        <= max.0 && min.1 <= p.1 <= max.1 by {
        assert(filled[grid_index(wi, p)]);
    }
    let a = choose|p: (int, int)| in_grid(wi, hi_, p) && #[trigger] filled[grid_index(wi, p)] && p.0 == min.0;
    let b = choose|p: (int, int)| in_grid(wi, hi_, p) && #[trigger] filled[grid_index(wi, p)] && p.1 == min.1;
    let c = choose|p: (int, int)| in_grid(wi, hi_, p) && #[trigger] filled[grid_index(wi, p)] && p.0 == max.0;
    let d = choose|p: (int, int)| in_grid(wi, hi_, p) && #[trigger] filled[grid_index(wi, p)] && p.1 == max.1;
    assert(fill_reaches(tiles, wi, hi_, start, a));
    assert(fill_reaches(tiles, wi, hi_, start, b));
    assert(fill_reaches(tiles, wi, hi_, start, c));
    assert(fill_reaches(tiles, wi, hi_, start, d));
}

/// The bounding box of a fill is unique.
pub proof fn lemma_fill_box_unique<T: TileKind>(
    tiles: Seq<T>,
    w: int,
    h: int,
    start: (int, int),
    lo1: (u16, u16),
    hi1: (u16, u16),
    lo2: (u16, u16),
    hi2: (u16, u16),
)
    requires
        fill_box_of(tiles, w, h, start, lo1, hi1),
        fill_box_of(tiles, w, h, start, lo2, hi2),
    ensures
        lo1 == lo2,
        hi1 == hi2,
{
    let a = choose|p: (int, int)| in_grid(w, h, p) && #[trigger] fill_reaches(tiles, w, h, start, p) && p.0 == lo1.0;
    let b = choose|p: (int, int)| in_grid(w, h, p) && #[trigger] fill_reaches(tiles, w, h, start, p) && p.0 == lo2.0;
    let c = choose|p: (int, int)| in_grid(w, h, p) && #[trigger] fill_reaches(tiles, w, h, start, p) && p.1 == lo1.1;
    let d = choose|p: (int, int)| in_grid(w, h, p) && #[trigger] fill_reaches(tiles, w, h, start, p) && p.1 == lo2.1;
    let e = choose|p: (int, int)| in_grid(w, h, p) && #[trigger] fill_reaches(tiles, w, h, start, p) && p.0 == hi1.0;
    let f = choose|p: (int, int)| in_grid(w, h, p) && #[trigger] fill_reaches(tiles, w, h, start, p) && p.0 == hi2.0;
    let g = choose|p: (int, int)| in_grid(w, h, p) && #[trigger] fill_reaches(tiles, w, h, start, p) && p.1 == hi1.1;
    let k = choose|p: (int, int)| in_grid(w, h, p) && #[trigger] fill_reaches(tiles, w, h, start, p) && p.1 == hi2.1;
    assert(lo1.0 == lo2.0);
    assert(lo1.1 == lo2.1);
    assert(hi1.0 == hi2.0);
    assert(hi1.1 == hi2.1);
}

/// The bounding box of the cells a fill from `start` reaches.
pub open spec fn fill_bounds<T: TileKind>(tiles: Seq<T>, w: int, h: int, start: (int, int)) -> ((u16, u16), (u16, u16)) {
    choose|b: ((u16, u16), (u16, u16))| fill_box_of(tiles, w, h, start, b.0, b.1)
}

/// New tiles of a fill over its bounding box at `lo` (`bw` x `bh`): the
/// brush's first tile where the fill reaches, else air or the old tile.
pub open spec fn fill_new_spec<T: TileKind>(
    tiles: Seq<T>,
    brush0: T,
    w: int,
    h: int,
    start: (int, int),
    lo: (u16, u16),
    bw: int,
    bh: int,
    fill_with_empty_tile: bool,
) -> Seq<T> {
    Seq::new(
        (bw * bh) as nat,
        |k: int|
            {
                let p = (lo.0 + k % bw, lo.1 + k / bw);
                if fill_reaches(tiles, w, h, start, p) {
                    brush0
                } else if fill_with_empty_tile {
                    T::empty_spec()
                } else {
                    tiles[grid_index(w, p)]
                }
            },
    )
}

/// Fills from `pos` with the brush's first tile: returns the old and new
/// tiles of the fill's bounding box, its top-left corner, width and height.
/// Outside the filled region the new tiles are air if `fill_with_empty_tile`,
/// else the layer's own tiles.
pub fn fill_tiles<T: TileKind>(
    tiles: &Vec<T>,
    brush_tiles: &Vec<T>,
    w: u16,
    h: u16,
    pos: (u16, u16),
    fill_with_empty_tile: bool,
) -> (r: (Vec<T>, Vec<T>, (u16, u16), u16, u16))
    requires
        0 < w,
        0 < h,
        pos.0 < w,
        pos.1 < h,
        tiles@.len() == w * h,
        brush_tiles@.len() > 0,
    ensures
        ({
            let start = (pos.0 as int, pos.1 as int);
            let (lo, hi) = fill_bounds(tiles@, w as int, h as int, start);
            &&& fill_box_of(tiles@, w as int, h as int, start, lo, hi)
            &&& r.2 == lo
            &&& r.3 == hi.0 - lo.0 + 1
            &&& r.4 == hi.1 - lo.1 + 1
            &&& lo.0 <= hi.0 < w
            &&& lo.1 <= hi.1 < h
            &&& r.0@ == collect_spec(
                tiles@,
                w as nat,
                lo.0 as nat,
                r.3 as nat,
                lo.1 as nat,
                r.4 as nat,
            )
            &&& r.1@ == fill_new_spec(
                tiles@,
                brush_tiles@[0],
                w as int,
                h as int,
                start,
                lo,
                r.3 as int,
                r.4 as int,
                fill_with_empty_tile,
            )
            &&& r.0@.len() == r.3 * r.4
            &&& r.1@.len() == r.3 * r.4
        }),
{
    let ghost wi = w as int;
    let ghost hi_ = h as int;
    let ghost start = (pos.0 as int, pos.1 as int);
    let (filled, min, max) = fill(tiles, w, h, pos.0, pos.1);
    proof {
        lemma_fill_result_box(tiles@, wi, hi_, start, filled@, min, max);
        let mm = (min, max);
        assert(fill_box_of(tiles@, wi, hi_, start, mm.0, mm.1));
        let b = fill_bounds(tiles@, wi, hi_, start);
        lemma_fill_box_unique(tiles@, wi, hi_, start, min, max, b.0, b.1);
    }
    let width = max.0 - min.0 + 1;
    let height = max.1 - min.1 + 1;
    let old_tiles = collect_tiles(
        tiles,
        w as usize,
        min.0 as usize,
        width as usize,
        min.1 as usize,
        height as usize,
    );
    proof {
        crate::hookthrough::lemma_rect_len(wi, hi_, min.0 as int, width as int, min.1 as int, height as int);
        lemma_u16_product(width as int, height as int);
    }
    let ghost spec_new = fill_new_spec(
        tiles@,
        brush_tiles@[0],
        wi,
        hi_,
        start,
        min,
        width as int,
        height as int,
        fill_with_empty_tile,
    );
    let n = width as usize * height as usize;
    let mut new_tiles: Vec<T> = Vec::new();
    let mut k: usize = 0;
    while k < n
        invariant
            n == width * height,
            n == height * width,
            0 < width,
            min.0 + width <= w,
            min.1 + height <= h,
            tiles@.len() == w * h,
            brush_tiles@.len() > 0,
            filled@.len() == tiles@.len(),
            wi == w,
            hi_ == h,
            forall|p: (int, int)|
                in_grid(wi, hi_, p) ==> (#[trigger] filled@[grid_index(wi, p)]
                    <==> fill_reaches(tiles@, wi, hi_, start, p)),
            spec_new == fill_new_spec(
                tiles@,
                brush_tiles@[0],
                wi,
                hi_,
                start,
                min,
                width as int,
                height as int,
                fill_with_empty_tile,
            ),
            k <= n,
            new_tiles@.len() == k,
            forall|j: int| 0 <= j < k ==> new_tiles@[j] == spec_new[j],
        decreases n - k,
    {
        proof {
            crate::brush::lemma_rect_cell_bounds(k as int, width as int, min.0 as int, min.1 as int, wi, height as int, hi_);
        }
        let px = min.0 as usize + k % width as usize;
        let py = min.1 as usize + k / width as usize;
        let ghost p = (px as int, py as int);
        proof {
            assert(in_grid(wi, hi_, p));
            lemma_grid_index_bounds(wi, hi_, p);
            lemma_u16_product(wi, hi_);
        }
        let index = py * w as usize + px;
        let t = if filled[index] {
            brush_tiles[0]
        } else if fill_with_empty_tile {
            T::empty()
        } else {
            tiles[index]
        };
        new_tiles.push(t);
        k += 1;
    }
    assert(new_tiles@ =~= spec_new);
    (old_tiles, new_tiles, min, width, height)
}

} // verus!
