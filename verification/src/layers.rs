//! Tile layers of a map as the brushes see them, and the editor actions the
//! brushes emit.
use vstd::prelude::*;

use crate::tiles::{
    collect_spec, collect_tiles, SpeedupTile, SwitchTile, TeleTile, TileBase, TileKind, TuneTile,
    TILE_AIR,
};

verus! {

/// Which kind of physics layer a tile vector belongs to.
#[derive(Clone, Copy, PartialEq, Eq, Debug, Structural)]
pub enum PhysKind {
    Arbitrary,
    Game,
    Front,
    Tele,
    Speedup,
    Switch,
    Tune,
}

/// Tiles of a physics layer (or a rectangle of one), by layer kind.
#[derive(Debug)]
pub enum PhysicsTiles {
    Arbitrary(Vec<u8>),
    Game(Vec<TileBase>),
    Front(Vec<TileBase>),
    Tele(Vec<TeleTile>),
    Speedup(Vec<SpeedupTile>),
    Switch(Vec<SwitchTile>),
    Tune(Vec<TuneTile>),
}

/// Mathematical contents of [`PhysicsTiles`].
pub enum PhysicsTilesView {
    Arbitrary(Seq<u8>),
    Game(Seq<TileBase>),
    Front(Seq<TileBase>),
    Tele(Seq<TeleTile>),
    Speedup(Seq<SpeedupTile>),
    Switch(Seq<SwitchTile>),
    Tune(Seq<TuneTile>),
}

impl View for PhysicsTiles {
    type V = PhysicsTilesView;

    open spec fn view(&self) -> PhysicsTilesView {
        match self {
            PhysicsTiles::Arbitrary(v) => PhysicsTilesView::Arbitrary(v@),
            PhysicsTiles::Game(v) => PhysicsTilesView::Game(v@),
            PhysicsTiles::Front(v) => PhysicsTilesView::Front(v@),
            PhysicsTiles::Tele(v) => PhysicsTilesView::Tele(v@),
            PhysicsTiles::Speedup(v) => PhysicsTilesView::Speedup(v@),
            PhysicsTiles::Switch(v) => PhysicsTilesView::Switch(v@),
            PhysicsTiles::Tune(v) => PhysicsTilesView::Tune(v@),
        }
    }
}

impl PhysicsTilesView {
    pub open spec fn kind(self) -> PhysKind {
        match self {
            PhysicsTilesView::Arbitrary(_) => PhysKind::Arbitrary,
            PhysicsTilesView::Game(_) => PhysKind::Game,
            PhysicsTilesView::Front(_) => PhysKind::Front,
            PhysicsTilesView::Tele(_) => PhysKind::Tele,
            PhysicsTilesView::Speedup(_) => PhysKind::Speedup,
            PhysicsTilesView::Switch(_) => PhysKind::Switch,
            PhysicsTilesView::Tune(_) => PhysKind::Tune,
        }
    }

    /// Number of tiles (bytes for an arbitrary layer).
    pub open spec fn len(self) -> nat {
        match self {
            PhysicsTilesView::Arbitrary(s) => s.len(),
            PhysicsTilesView::Game(s) => s.len(),
            PhysicsTilesView::Front(s) => s.len(),
            PhysicsTilesView::Tele(s) => s.len(),
            PhysicsTilesView::Speedup(s) => s.len(),
            PhysicsTilesView::Switch(s) => s.len(),
            PhysicsTilesView::Tune(s) => s.len(),
        }
    }

    /// Tile numbers and flags, whatever the kind (empty for an arbitrary layer).
    pub open spec fn bases(self) -> Seq<TileBase> {
        match self {
            PhysicsTilesView::Arbitrary(_) => Seq::empty(),
            PhysicsTilesView::Game(s) => s,
            PhysicsTilesView::Front(s) => s,
            PhysicsTilesView::Tele(s) => s.map_values(|t: TeleTile| t.base),
            PhysicsTilesView::Speedup(s) => s.map_values(|t: SpeedupTile| t.base),
            PhysicsTilesView::Switch(s) => s.map_values(|t: SwitchTile| t.base),
            PhysicsTilesView::Tune(s) => s.map_values(|t: TuneTile| t.base),
        }
    }
}

impl PhysicsTiles {
    pub fn kind(&self) -> (r: PhysKind)
        ensures
            r == self@.kind(),
    {
        match self {
            PhysicsTiles::Arbitrary(_) => PhysKind::Arbitrary,
            PhysicsTiles::Game(_) => PhysKind::Game,
            PhysicsTiles::Front(_) => PhysKind::Front,
            PhysicsTiles::Tele(_) => PhysKind::Tele,
            PhysicsTiles::Speedup(_) => PhysKind::Speedup,
            PhysicsTiles::Switch(_) => PhysKind::Switch,
            PhysicsTiles::Tune(_) => PhysKind::Tune,
        }
    }
}

/// Tiles of a design layer or of a physics layer.
#[derive(Debug)]
pub enum LayerTiles {
    Design(Vec<TileBase>),
    Physics(PhysicsTiles),
}

/// Mathematical contents of [`LayerTiles`].
pub enum LayerTilesView {
    Design(Seq<TileBase>),
    Physics(PhysicsTilesView),
}

impl View for LayerTiles {
    type V = LayerTilesView;

    open spec fn view(&self) -> LayerTilesView {
        match self {
            LayerTiles::Design(v) => LayerTilesView::Design(v@),
            LayerTiles::Physics(p) => LayerTilesView::Physics(p@),
        }
    }
}

impl LayerTilesView {
    pub open spec fn len(self) -> nat {
        match self {
            LayerTilesView::Design(s) => s.len(),
            LayerTilesView::Physics(p) => p.len(),
        }
    }
}

/// The physics group of a map: its size and its layers.
#[derive(Debug)]
pub struct PhysicsGroup {
    pub width: u16,
    pub height: u16,
    pub layers: Vec<PhysicsTiles>,
}

impl PhysicsGroup {
    pub open spec fn layers_view(&self) -> Seq<PhysicsTilesView> {
        self.layers@.map_values(|l: PhysicsTiles| l@)
    }

    /// Both sides are at least one tile, and every tile layer covers the group.
    pub open spec fn wf(&self) -> bool {
        &&& self.width > 0
        &&& self.height > 0
        &&& forall|i: int|
            0 <= i < self.layers@.len() && (#[trigger] self.layers@[i])@.kind()
                != PhysKind::Arbitrary ==> self.layers@[i]@.len() == self.width * self.height
    }
}

/// A tile layer of a design group.
#[derive(Debug)]
pub struct DesignTileLayer {
    pub width: u16,
    pub height: u16,
    pub tiles: Vec<TileBase>,
}

impl DesignTileLayer {
    pub open spec fn wf(&self) -> bool {
        &&& self.width > 0
        &&& self.height > 0
        &&& self.tiles@.len() == self.width * self.height
    }
}

/// The active tile layer: a layer of the physics group, or a design tile layer
/// of a background or foreground group.
pub enum TileLayerRef<'a> {
    Physics { layer_index: usize },
    Design {
        group_index: usize,
        layer_index: usize,
        is_background: bool,
        layer: &'a DesignTileLayer,
    },
}

impl<'a> TileLayerRef<'a> {
    /// The layer exists in `group` (physics) and its tiles cover it.
    pub open spec fn wf(&self, group: &PhysicsGroup) -> bool {
        match self {
            TileLayerRef::Physics { layer_index } => group.wf() && *layer_index
                < group.layers@.len(),
            TileLayerRef::Design { layer, .. } => layer.wf(),
        }
    }

    /// Width and height of the layer.
    pub open spec fn dims(&self, group: &PhysicsGroup) -> (u16, u16) {
        match self {
            TileLayerRef::Physics { .. } => (group.width, group.height),
            TileLayerRef::Design { layer, .. } => (layer.width, layer.height),
        }
    }

    pub fn get_width_and_height(&self, group: &PhysicsGroup) -> (r: (u16, u16))
        ensures
            r == self.dims(group),
    {
        match self {
            TileLayerRef::Physics { .. } => (group.width, group.height),
            TileLayerRef::Design { layer, .. } => (layer.width, layer.height),
        }
    }

    pub fn apply_layer_exec(&self) -> (r: TileBrushLastApplyLayer)
        ensures
            r == self.apply_layer(),
    {
        match self {
            TileLayerRef::Physics { layer_index } => TileBrushLastApplyLayer::Physics {
                layer_index: *layer_index,
            },
            TileLayerRef::Design { group_index, layer_index, is_background, .. } => {
                TileBrushLastApplyLayer::Design {
                    group_index: *group_index,
                    layer_index: *layer_index,
                    is_background: *is_background,
                }
            },
        }
    }

    /// Kind of the layer's tiles: `Some(kind)` for a physics layer, `None` for
    /// a design layer.
    pub fn kind_exec(&self, group: &PhysicsGroup) -> (r: Option<PhysKind>)
        requires
            self matches TileLayerRef::Physics { layer_index } ==> layer_index < group.layers@.len(),
        ensures
            r == (match self {
                TileLayerRef::Physics { layer_index } => Some(group.layers@[*layer_index as int]@.kind()),
                TileLayerRef::Design { .. } => None::<PhysKind>,
            }),
    {
        match self {
            TileLayerRef::Physics { layer_index } => Some(group.layers[*layer_index].kind()),
            TileLayerRef::Design { .. } => None,
        }
    }

    /// Identity of the layer, as recorded for the last brush application.
    pub open spec fn apply_layer(&self) -> TileBrushLastApplyLayer {
        match self {
            TileLayerRef::Physics { layer_index } => TileBrushLastApplyLayer::Physics {
                layer_index: *layer_index,
            },
            TileLayerRef::Design { group_index, layer_index, is_background, .. } => {
                TileBrushLastApplyLayer::Design {
                    group_index: *group_index,
                    layer_index: *layer_index,
                    is_background: *is_background,
                }
            },
        }
    }
}

/// The layer a brush was last applied to.
#[derive(Clone, Copy, PartialEq, Eq, Debug, Structural)]
pub enum TileBrushLastApplyLayer {
    Physics { layer_index: usize },
    Design { group_index: usize, layer_index: usize, is_background: bool },
}

/// Where and on which layer a brush was last applied.
#[derive(Clone, Copy, PartialEq, Eq, Debug, Structural)]
pub struct TileBrushLastApply {
    pub x: u16,
    pub y: u16,
    pub w: u16,
    pub h: u16,
    pub layer: TileBrushLastApplyLayer,
}

/// A change to the map that the editor's undo history records.
#[derive(Debug)]
#[allow(inconsistent_fields)]
pub enum EditorAction {
    /// Replace a rectangle of a design tile layer.
    TileLayerReplaceTiles {
        is_background: bool,
        group_index: usize,
        layer_index: usize,
        old_tiles: Vec<TileBase>,
        new_tiles: Vec<TileBase>,
        x: u16,
        y: u16,
        w: u16,
        h: u16,
    },
    /// Replace a rectangle of a physics layer.
    TilePhysicsLayerReplaceTiles {
        layer_index: usize,
        old_tiles: PhysicsTiles,
        new_tiles: PhysicsTiles,
        x: u16,
        y: u16,
        w: u16,
        h: u16,
    },
    /// Insert a new front layer with the given tiles at `index`.
    AddPhysicsTileLayer { index: usize, tiles: Vec<TileBase> },
}

/// Mathematical contents of an [`EditorAction`].
#[allow(inconsistent_fields)]
pub enum EditorActionView {
    TileLayerReplaceTiles {
        is_background: bool,
        group_index: usize,
        layer_index: usize,
        old_tiles: Seq<TileBase>,
        new_tiles: Seq<TileBase>,
        x: u16,
        y: u16,
        w: u16,
        h: u16,
    },
    TilePhysicsLayerReplaceTiles {
        layer_index: usize,
        old_tiles: PhysicsTilesView,
        new_tiles: PhysicsTilesView,
        x: u16,
        y: u16,
        w: u16,
        h: u16,
    },
    AddPhysicsTileLayer { index: usize, tiles: Seq<TileBase> },
}

impl View for EditorAction {
    type V = EditorActionView;

    open spec fn view(&self) -> EditorActionView {
        match self {
            EditorAction::TileLayerReplaceTiles {
                is_background,
                group_index,
                layer_index,
                old_tiles,
                new_tiles,
                x,
                y,
                w,
                h,
            } => EditorActionView::TileLayerReplaceTiles {
                is_background: *is_background,
                group_index: *group_index,
                layer_index: *layer_index,
                old_tiles: old_tiles@,
                new_tiles: new_tiles@,
                x: *x,
                y: *y,
                w: *w,
                h: *h,
            },
            EditorAction::TilePhysicsLayerReplaceTiles {
                layer_index,
                old_tiles,
                new_tiles,
                x,
                y,
                w,
                h,
            } => EditorActionView::TilePhysicsLayerReplaceTiles {
                layer_index: *layer_index,
                old_tiles: old_tiles@,
                new_tiles: new_tiles@,
                x: *x,
                y: *y,
                w: *w,
                h: *h,
            },
            EditorAction::AddPhysicsTileLayer { index, tiles } => {
                EditorActionView::AddPhysicsTileLayer { index: *index, tiles: tiles@ }
            },
        }
    }
}

/// Contents of a list of actions.
pub open spec fn actions_view(actions: Seq<EditorAction>) -> Seq<EditorActionView> {
    actions.map_values(|a: EditorAction| a@)
}

/// `Some(a)` as a one-element sequence, `None` as the empty one.
pub open spec fn opt_seq<A>(o: Option<A>) -> Seq<A> {
    match o {
        Some(a) => seq![a],
        None => Seq::empty(),
    }
}

/// Index of the first layer at or after `i` with the given kind.
pub open spec fn first_of_kind_from(layers: Seq<PhysicsTilesView>, kind: PhysKind, i: int) -> Option<
    int,
>
    decreases layers.len() - i,
{
    if i < 0 || i >= layers.len() {
        None
    } else if layers[i].kind() == kind {
        Some(i)
    } else {
        first_of_kind_from(layers, kind, i + 1)
    }
}

/// Index of the first layer with the given kind.
pub open spec fn first_of_kind(layers: Seq<PhysicsTilesView>, kind: PhysKind) -> Option<int> {
    first_of_kind_from(layers, kind, 0)
}

/// The first layer of `group` that has the given kind.
pub fn first_of_kind_index(group: &PhysicsGroup, kind: PhysKind) -> (r: Option<usize>)
    ensures
        r matches Some(i) ==> first_of_kind(group.layers_view(), kind) == Some(i as int),
        r is None ==> first_of_kind(group.layers_view(), kind) is None,
        r matches Some(i) ==> i < group.layers@.len() && group.layers@[i as int]@.kind() == kind,
{
    let ghost lv = group.layers_view();
    let mut i: usize = 0;
    while i < group.layers.len()
        invariant
            i <= group.layers@.len(),
            lv == group.layers_view(),
            first_of_kind(lv, kind) == first_of_kind_from(lv, kind, i as int),
        decreases group.layers@.len() - i,
    {
        if group.layers[i].kind() == kind {
            proof {
                assert(lv[i as int] == group.layers@[i as int]@);
            }
            return Some(i);
        }
        proof {
            assert(lv[i as int] == group.layers@[i as int]@);
        }
        i += 1;
    }
    None
}

/// Rectangle of each kind of physics tiles.
pub open spec fn phys_collect_spec(
    v: PhysicsTilesView,
    width: nat,
    x: nat,
    cw: nat,
    y: nat,
    ch: nat,
) -> PhysicsTilesView {
    match v {
        PhysicsTilesView::Arbitrary(s) => PhysicsTilesView::Arbitrary(s),
        PhysicsTilesView::Game(s) => PhysicsTilesView::Game(collect_spec(s, width, x, cw, y, ch)),
        PhysicsTilesView::Front(s) => PhysicsTilesView::Front(collect_spec(s, width, x, cw, y, ch)),
        PhysicsTilesView::Tele(s) => PhysicsTilesView::Tele(collect_spec(s, width, x, cw, y, ch)),
        PhysicsTilesView::Speedup(s) => PhysicsTilesView::Speedup(
            collect_spec(s, width, x, cw, y, ch),
        ),
        PhysicsTilesView::Switch(s) => PhysicsTilesView::Switch(
            collect_spec(s, width, x, cw, y, ch),
        ),
        PhysicsTilesView::Tune(s) => PhysicsTilesView::Tune(collect_spec(s, width, x, cw, y, ch)),
    }
}

/// Copies the rectangle at (`x`, `y`) of `copy_width` x `copy_height` tiles
/// out of a physics layer whose rows are `width` tiles wide.
pub fn collect_phy_tiles(
    layer: &PhysicsTiles,
    width: u16,
    x: usize,
    copy_width: usize,
    y: usize,
    copy_height: usize,
) -> (r: PhysicsTiles)
    requires
        layer@.kind() != PhysKind::Arbitrary,
        width > 0,
        x + copy_width <= width,
    ensures
        r@ == phys_collect_spec(
            layer@,
            width as nat,
            x as nat,
            copy_width as nat,
            y as nat,
            copy_height as nat,
        ),
{
    let w = width as usize;
    match layer {
        PhysicsTiles::Arbitrary(_) => PhysicsTiles::Arbitrary(Vec::new()),
        PhysicsTiles::Game(t) => PhysicsTiles::Game(collect_tiles(t, w, x, copy_width, y, copy_height)),
        PhysicsTiles::Front(t) => PhysicsTiles::Front(collect_tiles(t, w, x, copy_width, y, copy_height)),
        PhysicsTiles::Tele(t) => PhysicsTiles::Tele(collect_tiles(t, w, x, copy_width, y, copy_height)),
        PhysicsTiles::Speedup(t) => PhysicsTiles::Speedup(
            collect_tiles(t, w, x, copy_width, y, copy_height),
        ),
        PhysicsTiles::Switch(t) => PhysicsTiles::Switch(
            collect_tiles(t, w, x, copy_width, y, copy_height),
        ),
        PhysicsTiles::Tune(t) => PhysicsTiles::Tune(collect_tiles(t, w, x, copy_width, y, copy_height)),
    }
}

/// Result of a non-destructive paste: where the old tile is not air, or
/// `keep` is set, the old tile stays.
pub open spec fn non_destructive_spec<T: TileKind>(old: Seq<T>, new: Seq<T>, keep: Seq<bool>) -> Seq<
    T,
> {
    Seq::new(
        new.len(),
        |i: int|
            if old[i].base_spec().index != TILE_AIR || keep[i] {
                old[i]
            } else {
                new[i]
            },
    )
}

/// A mask of `n` unset entries.
pub open spec fn no_keep(n: nat) -> Seq<bool> {
    Seq::new(n, |i: int| false)
}

/// Keeps the old tile wherever it is not air, or where `keep` is set.
pub fn non_destructive_copy_ex<T: TileKind>(old_tiles: &Vec<T>, new_tiles: &mut Vec<T>, keep: &Vec<bool>)
    requires
        old_tiles@.len() >= old(new_tiles)@.len(),
        keep@.len() >= old(new_tiles)@.len(),
    ensures
        final(new_tiles)@ == non_destructive_spec(old_tiles@, old(new_tiles)@, keep@),
{
    let ghost orig = new_tiles@;
    let n = new_tiles.len();
    let mut i: usize = 0;
    while i < n
        invariant
            n == orig.len(),
            new_tiles@.len() == n,
            i <= n,
            old_tiles@.len() >= n,
            keep@.len() >= n,
            forall|k: int| 0 <= k < i ==> new_tiles@[k] == non_destructive_spec(old_tiles@, orig, keep@)[k],
            forall|k: int| i <= k < n ==> new_tiles@[k] == orig[k],
        decreases n - i,
    {
        if old_tiles[i].base().index != TILE_AIR || keep[i] {
            let t = old_tiles[i];
            new_tiles.set(i, t);
        }
        i += 1;
    }
    assert(new_tiles@ =~= non_destructive_spec(old_tiles@, orig, keep@));
}

/// Keeps the old tile wherever it is not air.
pub fn non_destructive_copy<T: TileKind>(old_tiles: &Vec<T>, new_tiles: &mut Vec<T>)
    requires
        old_tiles@.len() >= old(new_tiles)@.len(),
    ensures
        final(new_tiles)@ == non_destructive_spec(old_tiles@, old(new_tiles)@, no_keep(old(new_tiles)@.len())),
{
    let n = new_tiles.len();
    let mut keep: Vec<bool> = Vec::new();
    while keep.len() < n
        invariant
            keep@.len() <= n,
            forall|k: int| 0 <= k < keep@.len() ==> !keep@[k],
        decreases n - keep@.len(),
    {
        keep.push(false);
    }
    assert(keep@ =~= no_keep(n as nat));
    non_destructive_copy_ex(old_tiles, new_tiles, &keep);
}

} // verus!
