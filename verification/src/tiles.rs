//! Tile types of the map layers and the tile numbers the brushes care about.
use vstd::prelude::*;
use vstd::arithmetic::div_mod::lemma_fundamental_div_mod;

verus! {

/// Tile number of an empty tile.
pub const TILE_AIR: u8 = 0;
/// Tile number of an unhookable game tile.
pub const TILE_NO_HOOK: u8 = 3;
/// Tile number of a hook-through cut (front layer marker).
pub const TILE_THROUGH_CUT: u8 = 5;

/// The part every tile has: its number and its flags.
#[derive(Clone, Copy, PartialEq, Eq, Debug, Structural)]
pub struct TileBase {
    pub index: u8,
    pub flags: u8,
}

/// Behaviour shared by all tile kinds: they carry a [`TileBase`] and have an
/// empty value.
pub trait TileKind: Copy + Sized {
    spec fn base_spec(&self) -> TileBase;

    spec fn empty_spec() -> Self;

    fn base(&self) -> (r: TileBase)
        ensures
            r == self.base_spec(),
    ;

    fn empty() -> (r: Self)
        ensures
            r == Self::empty_spec(),
    ;
}

impl TileBase {
    pub open spec fn spec_empty() -> TileBase {
        TileBase { index: TILE_AIR, flags: 0 }
    }
}

impl TileKind for TileBase {
    open spec fn base_spec(&self) -> TileBase {
        *self
    }

    open spec fn empty_spec() -> TileBase {
        TileBase::spec_empty()
    }

    fn base(&self) -> (r: TileBase) {
        *self
    }

    fn empty() -> (r: TileBase) {
        TileBase { index: TILE_AIR, flags: 0 }
    }
}

/// Tile of a teleporter layer.
#[derive(Clone, Copy, PartialEq, Eq, Debug, Structural)]
pub struct TeleTile {
    pub base: TileBase,
    pub number: u8,
}

/// Tile of a speedup layer.
#[derive(Clone, Copy, PartialEq, Eq, Debug, Structural)]
pub struct SpeedupTile {
    pub base: TileBase,
    pub force: u8,
    pub max_speed: u8,
    pub angle: i16,
}

/// Tile of a switch layer.
#[derive(Clone, Copy, PartialEq, Eq, Debug, Structural)]
pub struct SwitchTile {
    pub base: TileBase,
    pub number: u8,
    pub delay: u8,
}

/// Tile of a tune-zone layer.
#[derive(Clone, Copy, PartialEq, Eq, Debug, Structural)]
pub struct TuneTile {
    pub base: TileBase,
    pub number: u8,
}

impl TileKind for TeleTile {
    open spec fn base_spec(&self) -> TileBase {
        self.base
    }

    open spec fn empty_spec() -> TeleTile {
        TeleTile { base: TileBase::spec_empty(), number: 0 }
    }

    fn base(&self) -> (r: TileBase) {
        self.base
    }

    fn empty() -> (r: TeleTile) {
        TeleTile { base: TileBase { index: TILE_AIR, flags: 0 }, number: 0 }
    }
}

impl TileKind for SpeedupTile {
    open spec fn base_spec(&self) -> TileBase {
        self.base
    }

    open spec fn empty_spec() -> SpeedupTile {
        SpeedupTile { base: TileBase::spec_empty(), force: 0, max_speed: 0, angle: 0 }
    }

    fn base(&self) -> (r: TileBase) {
        self.base
    }

    fn empty() -> (r: SpeedupTile) {
        SpeedupTile { base: TileBase { index: TILE_AIR, flags: 0 }, force: 0, max_speed: 0, angle: 0 }
    }
}

impl TileKind for SwitchTile {
    open spec fn base_spec(&self) -> TileBase {
        self.base
    }

    open spec fn empty_spec() -> SwitchTile {
        SwitchTile { base: TileBase::spec_empty(), number: 0, delay: 0 }
    }

    fn base(&self) -> (r: TileBase) {
        self.base
    }

    fn empty() -> (r: SwitchTile) {
        SwitchTile { base: TileBase { index: TILE_AIR, flags: 0 }, number: 0, delay: 0 }
    }
}

impl TileKind for TuneTile {
    open spec fn base_spec(&self) -> TileBase {
        self.base
    }

    open spec fn empty_spec() -> TuneTile {
        TuneTile { base: TileBase::spec_empty(), number: 0 }
    }

    fn base(&self) -> (r: TileBase) {
        self.base
    }

    fn empty() -> (r: TuneTile) {
        TuneTile { base: TileBase { index: TILE_AIR, flags: 0 }, number: 0 }
    }
}

/// `k` splits into row `k / w` and column `k % w`.
pub proof fn lemma_split_index(k: int, w: int)
    requires
        0 <= k,
        0 < w,
    ensures
        k == (k / w) * w + k % w,
        0 <= k % w < w,
        0 <= k / w,
{
    lemma_fundamental_div_mod(k, w);
    assert(w * (k / w) == (k / w) * w) by (nonlinear_arith);
    assert(0 <= k % w < w) by (nonlinear_arith)
        requires 0 < w;
    assert(0 <= k / w) by (nonlinear_arith)
        requires 0 <= k, 0 < w;
}

/// Row `j`, column `i` of a grid `w` wide is cell `j * w + i`, and back.
pub proof fn lemma_join_index(j: int, i: int, w: int)
    requires
        0 <= j,
        0 <= i < w,
    ensures
        (j * w + i) / w == j,
        (j * w + i) % w == i,
{
    vstd::arithmetic::div_mod::lemma_fundamental_div_mod_converse(j * w + i, w, j, i);
}

/// The product of two `u16` values fits in a `usize`.
pub proof fn lemma_u16_product(a: int, b: int)
    requires
        0 <= a <= u16::MAX,
        0 <= b <= u16::MAX,
    ensures
        a * b == b * a,
        0 <= a * b <= u16::MAX * u16::MAX,
        a * b <= usize::MAX,
{
    assert(a * b <= u16::MAX * u16::MAX) by (nonlinear_arith)
        requires 0 <= a <= u16::MAX, 0 <= b <= u16::MAX;
    assert(0 <= a * b) by (nonlinear_arith)
        requires 0 <= a, 0 <= b;
    assert(a * b == b * a) by (nonlinear_arith);
    assert(u16::MAX * u16::MAX <= usize::MAX);
}

/// Cell `i` of row `j` comes before every cell of row `k > j`.
pub proof fn lemma_cell_before_row(j: int, i: int, w: int, k: int)
    requires
        0 <= j < k,
        0 <= i < w,
    ensures
        0 <= j * w + i < k * w,
        j * w + i < (j + 1) * w,
{
    assert(j * w + i < (j + 1) * w) by (nonlinear_arith)
        requires 0 <= i < w;
    assert((j + 1) * w <= k * w) by (nonlinear_arith)
        requires j + 1 <= k, 0 < w;
    assert(0 <= j * w) by (nonlinear_arith)
        requires 0 <= j, 0 < w;
}

/// Rows of `tiles` (rows of `width` tiles each) that `collect_tiles` copies.
pub open spec fn collected_rows(len: nat, width: nat, y: nat, copy_height: nat) -> nat {
    let rows = len / width;
    if y >= rows {
        0
    } else if rows - y < copy_height {
        (rows - y) as nat
    } else {
        copy_height
    }
}

/// The rectangle that `collect_tiles` copies, row by row.
pub open spec fn collect_spec<T>(
    tiles: Seq<T>,
    width: nat,
    x: nat,
    copy_width: nat,
    y: nat,
    copy_height: nat,
) -> Seq<T> {
    Seq::new(
        collected_rows(tiles.len(), width, y, copy_height) * copy_width,
        |k: int| tiles[(y + k / (copy_width as int)) * width + x + k % (copy_width as int)],
    )
}

/// Copies the rectangle of `copy_width` x `copy_height` tiles at (`x`, `y`)
/// out of a grid of rows `width` tiles wide. Rows past the end of the grid
/// are left out.
pub fn collect_tiles<T: Copy>(
    tiles: &Vec<T>,
    width: usize,
    x: usize,
    copy_width: usize,
    y: usize,
    copy_height: usize,
) -> (r: Vec<T>)
    requires
        width > 0,
        x + copy_width <= width,
    ensures
        r@ == collect_spec(
            tiles@,
            width as nat,
            x as nat,
            copy_width as nat,
            y as nat,
            copy_height as nat,
        ),
        r@.len() == collected_rows(tiles@.len(), width as nat, y as nat, copy_height as nat)
            * copy_width,
        forall|j: int, i: int|
            0 <= j < collected_rows(tiles@.len(), width as nat, y as nat, copy_height as nat)
                && 0 <= i < copy_width ==> #[trigger] r@[j * copy_width + i] == tiles@[(y + j)
                * width + x + i],
{
    let len = tiles.len();
    let rows = len / width;
    let n: usize = if y >= rows {
        0
    } else if rows - y < copy_height {
        rows - y
    } else {
        copy_height
    };
    let mut r: Vec<T> = Vec::new();
    let mut j: usize = 0;
    while j < n
        invariant
            n == collected_rows(tiles@.len(), width as nat, y as nat, copy_height as nat),
            rows == tiles@.len() / (width as nat),
            len == tiles@.len(),
            width > 0,
            x + copy_width <= width,
            j <= n,
            n > 0 ==> y + n <= rows,
            r@.len() == j * copy_width,
            forall|jj: int, i: int|
                0 <= jj < j && 0 <= i < copy_width ==> #[trigger] r@[jj * copy_width + i]
                    == tiles@[(y + jj) * width + x + i],
        decreases n - j,
    {
        let row_start: usize;
        proof {
            assert((y + j + 1) * width <= rows * width) by (nonlinear_arith)
                requires y + j + 1 <= rows;
            assert(rows * width <= tiles@.len()) by (nonlinear_arith)
                requires rows == tiles@.len() / (width as nat), width > 0;
            assert((y + j + 1) * width == (y + j) * width + width) by (nonlinear_arith);
        }
        row_start = (y + j) * width;
        let mut i: usize = 0;
        while i < copy_width
            invariant
                0 <= i <= copy_width,
                j < n,
                row_start == (y + j) * width,
                row_start + width <= tiles@.len(),
                tiles@.len() <= usize::MAX,
                x + copy_width <= width,
                r@.len() == j * copy_width + i,
                forall|jj: int, ii: int|
                    0 <= jj < j && 0 <= ii < copy_width ==> #[trigger] r@[jj * copy_width + ii]
                        == tiles@[(y + jj) * width + x + ii],
                forall|ii: int|
                    0 <= ii < i ==> #[trigger] r@[j * copy_width + ii] == tiles@[(y + j) * width
                        + x + ii],
            decreases copy_width - i,
        {
            let t = tiles[row_start + x + i];
            r.push(t);
            proof {
                assert forall|jj: int, ii: int|
                    0 <= jj < j && 0 <= ii < copy_width implies #[trigger] r@[jj * copy_width + ii]
                    == tiles@[(y + jj) * width + x + ii] by {
                    lemma_cell_before_row(jj, ii, copy_width as int, j as int);
                }
            }
            i += 1;
        }
        proof {
            assert forall|jj: int, ii: int|
                0 <= jj < j + 1 && 0 <= ii < copy_width implies #[trigger] r@[jj * copy_width + ii]
                == tiles@[(y + jj) * width + x + ii] by {
                if jj < j {
                } else {
                    assert(jj == j);
                }
            }
            assert((j + 1) * copy_width == j * copy_width + copy_width) by (nonlinear_arith);
        }
        j += 1;
    }
    proof {
        let c = collect_spec(
            tiles@,
            width as nat,
            x as nat,
            copy_width as nat,
            y as nat,
            copy_height as nat,
        );
        assert forall|k: int| 0 <= k < r@.len() implies r@[k] == c[k] by {
            lemma_split_index(k, copy_width as int);
            let jj = k / (copy_width as int);
            let ii = k % (copy_width as int);
            assert(jj < n) by (nonlinear_arith)
                requires k == jj * copy_width + ii, 0 <= ii, k < n * copy_width, 0 <= jj;
            assert(r@[jj * copy_width + ii] == tiles@[(y + jj) * width + x + ii]);
        }
        assert(r@ =~= c);
    }
    r
}

} // verus!
