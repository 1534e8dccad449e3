//! Editing the points of an animation at the timeline's current time, and
//! keeping the hovered and selected point indices pointing at the same
//! points.
use vstd::prelude::*;

verus! {

/// A point of an animation; `time` is in nanoseconds.
#[derive(Debug)]
pub struct AnimPoint<V> {
    pub time: u128,
    pub value: V,
}

/// Hovered and selected points (and channels of points) of the active
/// animation, by point index. `C` is a set of channels, `B` a set of bezier
/// handles of a point.
#[derive(Debug)]
pub struct AnimSelection<C, B> {
    pub hovered_point: Option<usize>,
    pub hovered_point_channels: Vec<(usize, C)>,
    pub hovered_point_channel_beziers: Vec<(usize, B)>,
    pub selected_points: Vec<usize>,
    pub selected_point_channels: Vec<(usize, C)>,
    pub selected_point_channel_beziers: Vec<(usize, B)>,
}

/// Index of point `p` after a point was inserted at index `k`.
pub open spec fn index_after_insert(p: usize, k: usize) -> usize {
    if p < k {
        p
    } else {
        (p + 1) as usize
    }
}

/// Index of point `p` after the point at index `k` was removed (`None`: `p`
/// was removed).
pub open spec fn index_after_delete(p: usize, k: usize) -> Option<usize> {
    if p < k {
        Some(p)
    } else if p == k {
        None
    } else {
        Some((p - 1) as usize)
    }
}

/// Keyed entries after an insertion at `k`.
pub open spec fn keys_after_insert<T>(s: Seq<(usize, T)>, k: usize) -> Seq<(usize, T)> {
    s.map_values(|e: (usize, T)| (index_after_insert(e.0, k), e.1))
}

/// Keyed entries after a removal at `k`.
pub open spec fn keys_after_delete<T>(s: Seq<(usize, T)>, k: usize) -> Seq<(usize, T)> {
    s.filter_map(
        |e: (usize, T)|
            match index_after_delete(e.0, k) {
                Some(p) => Some((p, e.1)),
                None => None,
            },
    )
}

/// Indices after an insertion at `k`.
pub open spec fn indices_after_insert(s: Seq<usize>, k: usize) -> Seq<usize> {
    s.map_values(|p: usize| index_after_insert(p, k))
}

/// Indices after a removal at `k`.
pub open spec fn indices_after_delete(s: Seq<usize>, k: usize) -> Seq<usize> {
    s.filter_map(|p: usize| index_after_delete(p, k))
}

impl<C: Copy, B: Copy> AnimSelection<C, B> {
    /// No index is `usize::MAX` (so that it can move up by one).
    pub open spec fn wf(&self) -> bool {
        &&& self.hovered_point matches Some(p) ==> p < usize::MAX
        &&& forall|i: int|
            0 <= i < self.hovered_point_channels@.len() ==> (#[trigger] self.hovered_point_channels@[i]).0
                < usize::MAX
        &&& forall|i: int|
            0 <= i < self.hovered_point_channel_beziers@.len()
                ==> (#[trigger] self.hovered_point_channel_beziers@[i]).0 < usize::MAX
        &&& forall|i: int|
            0 <= i < self.selected_points@.len() ==> #[trigger] self.selected_points@[i] < usize::MAX
        &&& forall|i: int|
            0 <= i < self.selected_point_channels@.len()
                ==> (#[trigger] self.selected_point_channels@[i]).0 < usize::MAX
        &&& forall|i: int|
            0 <= i < self.selected_point_channel_beziers@.len()
                ==> (#[trigger] self.selected_point_channel_beziers@[i]).0 < usize::MAX
    }
}

fn insert_index(p: usize, k: usize) -> (r: usize)
    requires
        p < usize::MAX,
    ensures
        r == index_after_insert(p, k),
{
    if p < k {
        p
    } else {
        p + 1
    }
}

fn delete_index(p: usize, k: usize) -> (r: Option<usize>)
    ensures
        r == index_after_delete(p, k),
{
    if p < k {
        Some(p)
    } else if p == k {
        None
    } else {
        Some(p - 1)
    }
}

fn keyed_after_insert<T: Copy>(v: &Vec<(usize, T)>, k: usize) -> (r: Vec<(usize, T)>)
    requires
        forall|i: int| 0 <= i < v@.len() ==> (#[trigger] v@[i]).0 < usize::MAX,
    ensures
        r@ == keys_after_insert(v@, k),
{
    let mut r: Vec<(usize, T)> = Vec::new();
    let mut i: usize = 0;
    while i < v.len()
        invariant
            i <= v@.len(),
            forall|j: int| 0 <= j < v@.len() ==> (#[trigger] v@[j]).0 < usize::MAX,
            r@ == keys_after_insert(v@.subrange(0, i as int), k),
        decreases v@.len() - i,
    {
        let e = v[i];
        r.push((insert_index(e.0, k), e.1));
        proof {
            assert(v@.subrange(0, i + 1) =~= v@.subrange(0, i as int).push(e));
        }
        i += 1;
    }
    assert(v@.subrange(0, v@.len() as int) =~= v@);
    r
}

fn keyed_after_delete<T: Copy>(v: &Vec<(usize, T)>, k: usize) -> (r: Vec<(usize, T)>)
    ensures
        r@ == keys_after_delete(v@, k),
{
    let mut r: Vec<(usize, T)> = Vec::new();
    let mut i: usize = 0;
    while i < v.len()
        invariant
            i <= v@.len(),
            r@ == keys_after_delete(v@.subrange(0, i as int), k),
        decreases v@.len() - i,
    {
        let e = v[i];
        proof {
            assert(v@.subrange(0, i + 1).drop_last() =~= v@.subrange(0, i as int));
        }
        match delete_index(e.0, k) {
            Some(p) => r.push((p, e.1)),
            None => {},
        }
        proof {
            assert(r@ =~= keys_after_delete(v@.subrange(0, i + 1), k));
        }
        i += 1;
    }
    assert(v@.subrange(0, v@.len() as int) =~= v@);
    r
}

fn indexes_after_insert(v: &Vec<usize>, k: usize) -> (r: Vec<usize>)
    requires
        forall|i: int| 0 <= i < v@.len() ==> #[trigger] v@[i] < usize::MAX,
    ensures
        r@ == indices_after_insert(v@, k),
{
    let mut r: Vec<usize> = Vec::new();
    let mut i: usize = 0;
    while i < v.len()
        invariant
            i <= v@.len(),
            forall|j: int| 0 <= j < v@.len() ==> #[trigger] v@[j] < usize::MAX,
            r@ == indices_after_insert(v@.subrange(0, i as int), k),
        decreases v@.len() - i,
    {
        let e = v[i];
        r.push(insert_index(e, k));
        proof {
            assert(v@.subrange(0, i + 1) =~= v@.subrange(0, i as int).push(e));
        }
        i += 1;
    }
    assert(v@.subrange(0, v@.len() as int) =~= v@);
    r
}

fn indexes_after_delete(v: &Vec<usize>, k: usize) -> (r: Vec<usize>)
    ensures
        r@ == indices_after_delete(v@, k),
{
    let mut r: Vec<usize> = Vec::new();
    let mut i: usize = 0;
    while i < v.len()
        invariant
            i <= v@.len(),
            r@ == indices_after_delete(v@.subrange(0, i as int), k),
        decreases v@.len() - i,
    {
        let e = v[i];
        proof {
            assert(v@.subrange(0, i + 1).drop_last() =~= v@.subrange(0, i as int));
        }
        match delete_index(e, k) {
            Some(p) => r.push(p),
            None => {},
        }
        proof {
            assert(r@ =~= indices_after_delete(v@.subrange(0, i + 1), k));
        }
        i += 1;
    }
    assert(v@.subrange(0, v@.len() as int) =~= v@);
    r
}

/// `new` is `old` with every index moved past an insertion at `k`.
pub open spec fn selection_after_insert<C, B>(
    old: &AnimSelection<C, B>,
    new: &AnimSelection<C, B>,
    k: usize,
) -> bool {
    &&& new.hovered_point == match old.hovered_point {
        Some(p) => Some(index_after_insert(p, k)),
        None => None,
    }
    &&& new.hovered_point_channels@ == keys_after_insert(old.hovered_point_channels@, k)
    &&& new.hovered_point_channel_beziers@ == keys_after_insert(
        old.hovered_point_channel_beziers@,
        k,
    )
    &&& new.selected_points@ == indices_after_insert(old.selected_points@, k)
    &&& new.selected_point_channels@ == keys_after_insert(old.selected_point_channels@, k)
    &&& new.selected_point_channel_beziers@ == keys_after_insert(
        old.selected_point_channel_beziers@,
        k,
    )
}

/// `new` is `old` with the point at `k` forgotten and later indices moved down.
pub open spec fn selection_after_delete<C, B>(
    old: &AnimSelection<C, B>,
    new: &AnimSelection<C, B>,
    k: usize,
) -> bool {
    &&& new.hovered_point == match old.hovered_point {
        Some(p) => index_after_delete(p, k),
        None => None,
    }
    &&& new.hovered_point_channels@ == keys_after_delete(old.hovered_point_channels@, k)
    &&& new.hovered_point_channel_beziers@ == keys_after_delete(
        old.hovered_point_channel_beziers@,
        k,
    )
    &&& new.selected_points@ == indices_after_delete(old.selected_points@, k)
    &&& new.selected_point_channels@ == keys_after_delete(old.selected_point_channels@, k)
    &&& new.selected_point_channel_beziers@ == keys_after_delete(
        old.selected_point_channel_beziers@,
        k,
    )
}

/// Same contents of two selections.
pub open spec fn same_selection<C, B>(a: &AnimSelection<C, B>, b: &AnimSelection<C, B>) -> bool {
    &&& a.hovered_point == b.hovered_point
    &&& a.hovered_point_channels@ == b.hovered_point_channels@
    &&& a.hovered_point_channel_beziers@ == b.hovered_point_channel_beziers@
    &&& a.selected_points@ == b.selected_points@
    &&& a.selected_point_channels@ == b.selected_point_channels@
    &&& a.selected_point_channel_beziers@ == b.selected_point_channel_beziers@
}

impl<C: Copy, B: Copy> AnimSelection<C, B> {
    /// Moves every index past an insertion at `k`.
    pub fn remap_after_insert(&mut self, k: usize)
        requires
            old(self).wf(),
        ensures
            selection_after_insert(old(self), final(self), k),
    {
        self.hovered_point = match self.hovered_point {
            Some(p) => Some(insert_index(p, k)),
            None => None,
        };
        self.hovered_point_channels = keyed_after_insert(&self.hovered_point_channels, k);
        self.hovered_point_channel_beziers = keyed_after_insert(&self.hovered_point_channel_beziers, k);
        self.selected_points = indexes_after_insert(&self.selected_points, k);
        self.selected_point_channels = keyed_after_insert(&self.selected_point_channels, k);
        self.selected_point_channel_beziers = keyed_after_insert(&self.selected_point_channel_beziers, k);
    }

    /// Forgets the point at `k` and moves later indices down.
    pub fn remap_after_delete(&mut self, k: usize)
        ensures
            selection_after_delete(old(self), final(self), k),
    {
        self.hovered_point = match self.hovered_point {
            Some(p) => delete_index(p, k),
            None => None,
        };
        self.hovered_point_channels = keyed_after_delete(&self.hovered_point_channels, k);
        self.hovered_point_channel_beziers = keyed_after_delete(&self.hovered_point_channel_beziers, k);
        self.selected_points = indexes_after_delete(&self.selected_points, k);
        self.selected_point_channels = keyed_after_delete(&self.selected_point_channels, k);
        self.selected_point_channel_beziers = keyed_after_delete(&self.selected_point_channel_beziers, k);
    }
}

impl<C, B> AnimSelection<C, B> {
    /// Some point, or some channel of a point, is selected: the animation's
    /// changed points are then written back as one replacement.
    pub fn points_selected(&self) -> (r: bool)
        ensures
            r == (self.selected_points@.len() > 0 || self.selected_point_channels@.len() > 0),
    {
        self.selected_points.len() > 0 || self.selected_point_channels.len() > 0
    }
}

/// Index of the first point at or after index `j` whose time is not before `t`.
pub open spec fn first_not_before<V>(points: Seq<AnimPoint<V>>, t: u128, j: int) -> Option<int>
    decreases points.len() - j,
{
    if j < 0 || j >= points.len() {
        None
    } else if points[j].time >= t {
        Some(j)
    } else {
        first_not_before(points, t, j + 1)
    }
}

/// Where a point at time `t` goes: it replaces a point at the same time,
/// is inserted before the first later point, or is appended.
pub open spec fn insert_position<V>(points: Seq<AnimPoint<V>>, t: u128) -> Option<int> {
    first_not_before(points, t, 0)
}

/// Points after putting a point with `template`'s value at time `t`.
pub open spec fn points_after_insert<V>(points: Seq<AnimPoint<V>>, t: u128, value: V) -> Seq<AnimPoint<V>> {
    let np = AnimPoint { time: t, value };
    match insert_position(points, t) {
        Some(i) => if points[i].time == t {
            points.update(i, np)
        } else {
            points.insert(i, np)
        },
        None => points.push(np),
    }
}

/// Puts a point with `template`'s value at time `cur_time`: replaces the
/// point at that time, or inserts it before the first later point (moving
/// the hovered and selected indices past it), or appends it.
pub fn add_or_insert<V: Copy, C: Copy, B: Copy>(
    cur_time: u128,
    points: &mut Vec<AnimPoint<V>>,
    template: &AnimPoint<V>,
    props: &mut AnimSelection<C, B>,
)
    requires
        old(props).wf(),
    ensures
        final(points)@ == points_after_insert(old(points)@, cur_time, template.value),
        match insert_position(old(points)@, cur_time) {
            Some(i) => if old(points)@[i].time == cur_time {
                same_selection(old(props), final(props))
            } else {
                selection_after_insert(old(props), final(props), i as usize)
            },
            None => same_selection(old(props), final(props)),
        },
{
    let ghost orig = points@;
    let mut i: usize = 0;
    while i < points.len() && points[i].time < cur_time
        invariant
            points@ == orig,
            i <= orig.len(),
            insert_position(orig, cur_time) == first_not_before(orig, cur_time, i as int),
        decreases orig.len() - i,
    {
        i += 1;
    }
    let np = AnimPoint { time: cur_time, value: template.value };
    if i < points.len() {
        if points[i].time == cur_time {
            points.set(i, np);
        } else {
            points.insert(i, np);
            props.remap_after_insert(i);
        }
    } else {
        points.push(np);
    }
}

/// Removes point `point_index` if the request is for this animation
/// (`name_matches`) and the point exists, and forgets it in the selection.
/// Returns whether the point was removed.
pub fn delete_point<V, C: Copy, B: Copy>(
    points: &mut Vec<AnimPoint<V>>,
    props: &mut AnimSelection<C, B>,
    name_matches: bool,
    point_index: usize,
) -> (r: bool)
    ensures
        r == (name_matches && point_index < old(points)@.len()),
        r ==> final(points)@ == old(points)@.remove(point_index as int) && selection_after_delete(
            old(props),
            final(props),
            point_index,
        ),
        !r ==> final(points)@ == old(points)@ && same_selection(old(props), final(props)),
{
    if name_matches && point_index < points.len() {
        points.remove(point_index);
        props.remap_after_delete(point_index);
        true
    } else {
        false
    }
}

} // verus!
