//! The animation timeline's pointer state and its point selection: which
//! points (or point channels, or bezier handles) of which group are
//! selected, and what a click on one of them does.
use vstd::prelude::*;

verus! {

/// What the pointer holds on the timeline; `P` is the screen position where
/// the drag started or was last seen.
#[derive(Clone, Copy, Debug)]
pub enum PointerDownState<P> {
    Idle,
    Graph { pos: P, scroll_y: bool },
    Time(P),
    TimelinePoint(P),
    ValuePoint(P),
    ValueBezierPoint(P),
}

impl<P> PointerDownState<P> {
    pub fn is_none(&self) -> (r: bool)
        ensures
            r == (*self is Idle),
    {
        match self {
            PointerDownState::Idle => true,
            _ => false,
        }
    }

    pub fn is_graph(&self) -> (r: bool)
        ensures
            r == (*self is Graph),
    {
        match self {
            PointerDownState::Graph { .. } => true,
            _ => false,
        }
    }

    pub fn is_time(&self) -> (r: bool)
        ensures
            r == (*self is Time),
    {
        match self {
            PointerDownState::Time(_) => true,
            _ => false,
        }
    }

    pub fn is_timeline_point(&self) -> (r: bool)
        ensures
            r == (*self is TimelinePoint),
    {
        match self {
            PointerDownState::TimelinePoint(_) => true,
            _ => false,
        }
    }

    pub fn is_value_point(&self) -> (r: bool)
        ensures
            r == (*self is ValuePoint),
    {
        match self {
            PointerDownState::ValuePoint(_) => true,
            _ => false,
        }
    }

    pub fn is_value_bezier_point(&self) -> (r: bool)
        ensures
            r == (*self is ValueBezierPoint),
    {
        match self {
            PointerDownState::ValueBezierPoint(_) => true,
            _ => false,
        }
    }

    /// The position the pointer state holds, if any.
    pub fn as_ref(&self) -> (r: Option<&P>)
        ensures
            r == match *self {
                PointerDownState::Idle => None::<&P>,
                PointerDownState::Graph { pos, .. } => Some(&pos),
                PointerDownState::Time(pos) => Some(&pos),
                PointerDownState::TimelinePoint(pos) => Some(&pos),
                PointerDownState::ValuePoint(pos) => Some(&pos),
                PointerDownState::ValueBezierPoint(pos) => Some(&pos),
            },
    {
        match self {
            PointerDownState::Idle => None,
            PointerDownState::Graph { pos, .. } => Some(pos),
            PointerDownState::Time(pos) => Some(pos),
            PointerDownState::TimelinePoint(pos) => Some(pos),
            PointerDownState::ValuePoint(pos) => Some(pos),
            PointerDownState::ValueBezierPoint(pos) => Some(pos),
        }
    }
}

/// What identifies a selected item of a point group: a point, a point's
/// channel, or a bezier handle of a point's channel.
pub trait SelectionKey: Sized {
    fn same(&self, other: &Self) -> (r: bool)
        ensures
            r == (*self == *other),
    ;
}

impl SelectionKey for usize {
    fn same(&self, other: &Self) -> (r: bool) {
        *self == *other
    }
}

impl SelectionKey for (usize, usize) {
    fn same(&self, other: &Self) -> (r: bool) {
        self.0 == other.0 && self.1 == other.1
    }
}

impl SelectionKey for (usize, (usize, bool)) {
    fn same(&self, other: &Self) -> (r: bool) {
        self.0 == other.0 && (self.1).0 == (other.1).0 && (self.1).1 == (other.1).1
    }
}

/// The selection of every group: each holds a key at most once.
pub open spec fn selection_wf<K>(groups: Seq<Vec<K>>) -> bool {
    forall|g: int| 0 <= g < groups.len() ==> (#[trigger] groups[g])@.no_duplicates()
}

/// The set of keys selected in a group.
pub open spec fn selected_set<K>(group: Vec<K>) -> Set<K> {
    group@.to_set()
}

fn contains_key<K: SelectionKey>(group: &Vec<K>, key: &K) -> (r: bool)
    ensures
        r == group@.contains(*key),
{
    let mut i: usize = 0;
    while i < group.len()
        invariant
            i <= group@.len(),
            forall|j: int| 0 <= j < i ==> group@[j] != *key,
        decreases group@.len() - i,
    {
        if group[i].same(key) {
            return true;
        }
        i = i + 1;
    }
    false
}

/// Clears the selection of every group.
pub fn clear_selections<K>(groups: &mut Vec<Vec<K>>)
    ensures
        final(groups)@.len() == old(groups)@.len(),
        forall|g: int| 0 <= g < final(groups)@.len() ==> (#[trigger] final(groups)@[g])@.len() == 0,
{
    let ghost n = groups@.len();
    let mut g: usize = 0;
    while g < groups.len()
        invariant
            g <= groups@.len(),
            groups@.len() == n,
            forall|h: int| 0 <= h < g ==> (#[trigger] groups@[h])@.len() == 0,
        decreases n - g,
    {
        groups.set(g, Vec::new());
        g = g + 1;
    }
}

/// The selections after `key` of group `g` was selected: every group's
/// selection was first cleared unless `shift` is held.
pub open spec fn selected_after<K>(old: Seq<Vec<K>>, new: Seq<Vec<K>>, g: int, key: K, shift: bool) -> bool {
    &&& new.len() == old.len()
    &&& forall|h: int| 0 <= h < old.len() ==> selected_set(#[trigger] new[h]) == {
        let kept = if shift { selected_set(old[h]) } else { Set::<K>::empty() };
        if h == g { kept.insert(key) } else { kept }
    }
}

/// Every group's selection is empty.
pub open spec fn all_cleared<K>(old: Seq<Vec<K>>, new: Seq<Vec<K>>) -> bool {
    &&& new.len() == old.len()
    &&& forall|h: int| 0 <= h < new.len() ==> (#[trigger] new[h])@.len() == 0
}

/// Selects item `key` of group `g`, after clearing every group's selection
/// unless `shift` is held.
pub fn select_key<K: SelectionKey>(groups: &mut Vec<Vec<K>>, g: usize, key: K, shift: bool)
    requires
        g < old(groups)@.len(),
        selection_wf(old(groups)@),
    ensures
        selection_wf(final(groups)@),
        selected_after(old(groups)@, final(groups)@, g as int, key, shift),
{
    let ghost before = groups@;
    if !shift {
        clear_selections(groups);
    }
    let ghost mid = groups@;
    assert(forall|h: int| 0 <= h < mid.len() ==> selected_set(#[trigger] mid[h]) == if shift {
        selected_set(before[h])
    } else {
        Set::<K>::empty()
    }) by {
        assert forall|h: int| 0 <= h < mid.len() implies selected_set(#[trigger] mid[h]) == if shift {
            selected_set(before[h])
        } else {
            Set::<K>::empty()
        } by {
            if !shift {
                assert(mid[h]@ == Seq::<K>::empty());
                assert(mid[h]@.to_set() =~= Set::<K>::empty());
            }
        }
    }
    assert(selection_wf(mid)) by {
        assert forall|h: int| 0 <= h < mid.len() implies (#[trigger] mid[h])@.no_duplicates() by {
            if shift {
                assert(mid[h] == before[h]);
            }
        }
    }
    if contains_key(&groups[g], &key) {
        proof {
            assert forall|h: int| 0 <= h < mid.len() implies selected_set(#[trigger] mid[h]) == {
                let kept = if shift { selected_set(before[h]) } else { Set::<K>::empty() };
                if h == g as int { kept.insert(key) } else { kept }
            } by {
                if h == g as int {
                    assert(mid[h]@.to_set().contains(key));
                    assert(mid[h]@.to_set().insert(key) =~= mid[h]@.to_set());
                }
            }
        }
        return;
    }
    let mut group = groups.remove(g);
    assert(group@ == mid[g as int]@);
    assert(!group@.contains(key));
    group.push(key);
    proof {
        assert(group@ == mid[g as int]@.push(key));
        assert(group@.to_set() =~= mid[g as int]@.to_set().insert(key)) by {
            assert forall|k: K| group@.to_set().contains(k) implies mid[g as int]@.to_set().insert(key).contains(k) by {
                let i = choose|i: int| 0 <= i < group@.len() && group@[i] == k;
                if i < mid[g as int]@.len() {
                    assert(mid[g as int]@[i] == k);
                    assert(mid[g as int]@.contains(k));
                }
            }
            assert forall|k: K| mid[g as int]@.to_set().insert(key).contains(k) implies group@.to_set().contains(k) by {
                if k == key {
                    assert(group@[group@.len() - 1] == key);
                    assert(group@.contains(k));
                } else {
                    let i = choose|i: int| 0 <= i < mid[g as int]@.len() && mid[g as int]@[i] == k;
                    assert(group@[i] == k);
                    assert(group@.contains(k));
                }
            }
        }
        assert(group@.no_duplicates()) by {
            assert forall|i: int, j: int| 0 <= i < j < group@.len() implies group@[i] != group@[j] by {
                assert(mid[g as int]@[i] == group@[i]);
                if j == group@.len() - 1 {
                    assert(mid[g as int]@.contains(group@[i]));
                } else {
                    assert(mid[g as int]@[j] == group@[j]);
                }
            }
        }
    }
    groups.insert(g, group);
    proof {
        assert(groups@ == mid.update(g as int, groups@[g as int]));
    }
}

/// A click on item `key` of group `g`: when it is selected already, nothing
/// changes and `true` comes back (the click may start a drag of the
/// selection); else it becomes selected, after every group's selection was
/// cleared unless `shift` is held, and `false` comes back.
pub fn click_select<K: SelectionKey>(groups: &mut Vec<Vec<K>>, g: usize, key: K, shift: bool) -> (had: bool)
    requires
        g < old(groups)@.len(),
        selection_wf(old(groups)@),
    ensures
        had == old(groups)@[g as int]@.contains(key),
        selection_wf(final(groups)@),
        had ==> final(groups)@ == old(groups)@,
        !had ==> selected_after(old(groups)@, final(groups)@, g as int, key, shift),
{
    if contains_key(&groups[g], &key) {
        return true;
    }
    select_key(groups, g, key, shift);
    false
}

/// Pointer input of one frame over a graph of the timeline.
#[derive(Clone, Copy, Debug)]
pub struct PointsInput<P> {
    pub primary_pressed: bool,
    pub primary_down: bool,
    pub secondary_clicked: bool,
    pub shift: bool,
    /// The pointer is inside the graph.
    pub inside: bool,
    /// Where the pointer is.
    pub pos: P,
}

/// What a frame on the timeline's point row asks of the caller.
#[derive(Clone, Copy, PartialEq, Eq, Debug, Structural)]
pub enum PointsAction {
    Nothing,
    /// Move the selected points by the pointer's way since the last frame.
    MoveSelected,
    /// Delete this point of this group.
    Delete { group: usize, point: usize },
}

/// One frame of the timeline's point row: `hit` is the first point under
/// the pointer, by group and point. Dragging moves the selected points; a
/// click selects a point (see [`click_select`]) or, on a selected one while
/// nothing else is dragged, starts dragging the selection; a click on empty
/// graph clears the selection; a secondary click deletes the point under the
/// pointer; releasing ends the drag.
pub fn timeline_points_step<P: Copy>(
    state: &mut PointerDownState<P>,
    selected: &mut Vec<Vec<usize>>,
    input: PointsInput<P>,
    hit: Option<(usize, usize)>,
) -> (r: PointsAction)
    requires
        selection_wf(old(selected)@),
        hit matches Some((g, p)) ==> g < old(selected)@.len(),
    ensures
        selection_wf(final(selected)@),
        if input.primary_pressed || input.primary_down {
            let point_hit = if input.primary_pressed { hit } else { None };
            if *old(state) is TimelinePoint {
                &&& r == PointsAction::MoveSelected
                &&& *final(state) == PointerDownState::TimelinePoint(input.pos)
                &&& final(selected)@ == old(selected)@
            } else {
                &&& r == PointsAction::Nothing
                &&& match point_hit {
                    Some((g, p)) => if old(selected)@[g as int]@.contains(p) {
                        &&& final(selected)@ == old(selected)@
                        &&& *final(state) == if *old(state) is Idle {
                            PointerDownState::TimelinePoint(input.pos)
                        } else {
                            *old(state)
                        }
                    } else {
                        &&& selected_after(old(selected)@, final(selected)@, g as int, p, input.shift)
                        &&& *final(state) is Idle
                    },
                    None => {
                        &&& *final(state) == *old(state)
                        &&& if input.primary_pressed && input.inside {
                            all_cleared(old(selected)@, final(selected)@)
                        } else {
                            final(selected)@ == old(selected)@
                        }
                    },
                }
            }
        } else if input.secondary_clicked {
            &&& final(selected)@ == old(selected)@
            &&& *final(state) == *old(state)
            &&& r == match hit {
                Some((g, p)) => PointsAction::Delete { group: g, point: p },
                None => PointsAction::Nothing,
            }
        } else {
            &&& final(selected)@ == old(selected)@
            &&& r == PointsAction::Nothing
            &&& *final(state) == if *old(state) is TimelinePoint {
                PointerDownState::Idle
            } else {
                *old(state)
            }
        },
{
    let before = *state;
    if input.primary_pressed || input.primary_down {
        let point_hit = if input.primary_pressed { hit } else { None };
        if before.is_timeline_point() {
            *state = PointerDownState::TimelinePoint(input.pos);
            return PointsAction::MoveSelected;
        }
        match point_hit {
            Some((g, p)) => {
                let had = click_select(selected, g, p, input.shift);
                if !had {
                    *state = PointerDownState::Idle;
                } else if before.is_none() {
                    *state = PointerDownState::TimelinePoint(input.pos);
                }
            },
            None => {
                if input.primary_pressed && input.inside {
                    clear_selections(selected);
                }
            },
        }
        PointsAction::Nothing
    } else if input.secondary_clicked {
        match hit {
            Some((g, p)) => PointsAction::Delete { group: g, point: p },
            None => PointsAction::Nothing,
        }
    } else {
        if before.is_timeline_point() {
            *state = PointerDownState::Idle;
        }
        PointsAction::Nothing
    }
}

/// What a frame on the timeline's value graph asks of the caller.
#[derive(Clone, Copy, PartialEq, Eq, Debug, Structural)]
pub enum ValueAction {
    Nothing,
    /// Move the selected channels of points by the pointer's way since the
    /// last frame.
    MoveChannels,
    /// Move the selected bezier handles by the pointer's way since the last
    /// frame.
    MoveBeziers,
}

/// One frame of the timeline's value graph: `point_hit` is the first point
/// channel under the pointer (group, point, channel), `bezier_hit` the first
/// bezier handle (group, point, (channel, outgoing)); a bezier handle wins
/// over a point. Dragging moves the selection; a click on a selected item
/// while nothing is dragged starts dragging, any other click on an item
/// selects it (with the rest of the selection cleared unless shift is held);
/// a click on empty graph clears both selections; releasing ends the drag.
pub fn value_points_step<P: Copy>(
    state: &mut PointerDownState<P>,
    channels: &mut Vec<Vec<(usize, usize)>>,
    beziers: &mut Vec<Vec<(usize, (usize, bool))>>,
    input: PointsInput<P>,
    point_hit: Option<(usize, usize, usize)>,
    bezier_hit: Option<(usize, usize, (usize, bool))>,
) -> (r: ValueAction)
    requires
        selection_wf(old(channels)@),
        selection_wf(old(beziers)@),
        point_hit matches Some((g, p, c)) ==> g < old(channels)@.len(),
        bezier_hit matches Some((g, p, b)) ==> g < old(beziers)@.len(),
    ensures
        selection_wf(final(channels)@),
        selection_wf(final(beziers)@),
        if input.primary_pressed || input.primary_down {
            let bh = if input.primary_pressed { bezier_hit } else { None };
            let ph = if input.primary_pressed && bh is None { point_hit } else { None };
            if *old(state) is ValuePoint {
                &&& r == ValueAction::MoveChannels
                &&& *final(state) == PointerDownState::ValuePoint(input.pos)
                &&& final(channels)@ == old(channels)@
                &&& final(beziers)@ == old(beziers)@
            } else if *old(state) is ValueBezierPoint {
                &&& r == ValueAction::MoveBeziers
                &&& *final(state) == PointerDownState::ValueBezierPoint(input.pos)
                &&& final(channels)@ == old(channels)@
                &&& final(beziers)@ == old(beziers)@
            } else {
                &&& r == ValueAction::Nothing
                &&& match ph {
                    Some((g, p, c)) => {
                        &&& final(beziers)@ == old(beziers)@
                        &&& if *old(state) is Idle && old(channels)@[g as int]@.contains((p, c)) {
                            &&& final(channels)@ == old(channels)@
                            &&& *final(state) == PointerDownState::ValuePoint(input.pos)
                        } else {
                            &&& selected_after(old(channels)@, final(channels)@, g as int, (p, c), input.shift)
                            &&& *final(state) is Idle
                        }
                    },
                    None => match bh {
                        Some((g, p, b)) => {
                            &&& final(channels)@ == old(channels)@
                            &&& if *old(state) is Idle && old(beziers)@[g as int]@.contains((p, b)) {
                                &&& final(beziers)@ == old(beziers)@
                                &&& *final(state) == PointerDownState::ValueBezierPoint(input.pos)
                            } else {
                                &&& selected_after(old(beziers)@, final(beziers)@, g as int, (p, b), input.shift)
                                &&& *final(state) is Idle
                            }
                        },
                        None => {
                            &&& *final(state) == *old(state)
                            &&& if input.primary_pressed && input.inside {
                                all_cleared(old(channels)@, final(channels)@) && all_cleared(
                                    old(beziers)@,
                                    final(beziers)@,
                                )
                            } else {
                                final(channels)@ == old(channels)@ && final(beziers)@ == old(beziers)@
                            }
                        },
                    },
                }
            }
        } else {
            &&& final(channels)@ == old(channels)@
            &&& final(beziers)@ == old(beziers)@
            &&& r == ValueAction::Nothing
            &&& *final(state) == if *old(state) is ValuePoint || *old(state) is ValueBezierPoint {
                PointerDownState::Idle
            } else {
                *old(state)
            }
        },
{
    let before = *state;
    if input.primary_pressed || input.primary_down {
        let bh = if input.primary_pressed { bezier_hit } else { None };
        let ph = if input.primary_pressed && bh.is_none() { point_hit } else { None };
        if before.is_value_point() {
            *state = PointerDownState::ValuePoint(input.pos);
            return ValueAction::MoveChannels;
        }
        if before.is_value_bezier_point() {
            *state = PointerDownState::ValueBezierPoint(input.pos);
            return ValueAction::MoveBeziers;
        }
        match ph {
            Some((g, p, c)) => {
                if before.is_none() && contains_key(&channels[g], &(p, c)) {
                    *state = PointerDownState::ValuePoint(input.pos);
                } else {
                    select_key(channels, g, (p, c), input.shift);
                    *state = PointerDownState::Idle;
                }
            },
            None => match bh {
                Some((g, p, b)) => {
                    if before.is_none() && contains_key(&beziers[g], &(p, b)) {
                        *state = PointerDownState::ValueBezierPoint(input.pos);
                    } else {
                        select_key(beziers, g, (p, b), input.shift);
                        *state = PointerDownState::Idle;
                    }
                },
                None => {
                    if input.primary_pressed && input.inside {
                        clear_selections(channels);
                        clear_selections(beziers);
                    }
                },
            },
        }
        ValueAction::Nothing
    } else {
        if before.is_value_point() || before.is_value_bezier_point() {
            *state = PointerDownState::Idle;
        }
        ValueAction::Nothing
    }
}

/// What a frame on the time dragger asks of the caller.
#[derive(Clone, Copy, PartialEq, Eq, Debug, Structural)]
pub struct TimeDragStep {
    /// Move the time by the pointer's way since the stored position.
    pub drag: bool,
    /// Put the time where the pointer clicked.
    pub jump: bool,
}

/// One frame of the time dragger: while another drag runs it does nothing;
/// holding the button drags the time, a press inside the graph starts the
/// drag (jumping to the pointer when nothing was held before); releasing
/// ends it.
pub fn time_drag_step<P: Copy>(
    state: &mut PointerDownState<P>,
    primary_down: bool,
    primary_pressed: bool,
    inside: bool,
    pos: P,
) -> (r: TimeDragStep)
    ensures
        if !(*old(state) is Time) && !(*old(state) is Idle) {
            *final(state) == *old(state) && !r.drag && !r.jump
        } else if primary_down {
            &&& r.drag == (*old(state) is Time)
            &&& if (primary_pressed && inside) || *old(state) is Time {
                &&& *final(state) == PointerDownState::Time(pos)
                &&& r.jump == (*old(state) is Idle)
            } else {
                *final(state) == *old(state) && !r.jump
            }
        } else {
            *final(state) is Idle && !r.drag && !r.jump
        },
{
    let before = *state;
    if !before.is_time() && !before.is_none() {
        return TimeDragStep { drag: false, jump: false };
    }
    if primary_down {
        let drag = before.is_time();
        let mut jump = false;
        if (primary_pressed && inside) || before.is_time() {
            jump = before.is_none();
            *state = PointerDownState::Time(pos);
        }
        TimeDragStep { drag, jump }
    } else {
        *state = PointerDownState::Idle;
        TimeDragStep { drag: false, jump: false }
    }
}

/// What a frame of panning the graph asks of the caller.
#[derive(Clone, Copy, PartialEq, Eq, Debug, Structural)]
pub struct GraphDragStep {
    /// Pan the graph by the pointer's way since the stored position.
    pub pan: bool,
    /// Pan vertically (else horizontally).
    pub scroll_y: bool,
}

/// One frame of panning the graph: while another drag runs it does nothing;
/// holding the button pans along the axis chosen when the drag started
/// (vertical where the graph can scroll vertically), a press inside the graph
/// starts the drag; releasing ends it.
pub fn graph_drag_step<P: Copy>(
    state: &mut PointerDownState<P>,
    primary_down: bool,
    primary_pressed: bool,
    inside: bool,
    can_y_scroll: bool,
    pos: P,
) -> (r: GraphDragStep)
    ensures
        if !(*old(state) is Graph) && !(*old(state) is Idle) {
            *final(state) == *old(state) && r == GraphDragStep { pan: false, scroll_y: false }
        } else if primary_down {
            let scroll_y = match *old(state) {
                PointerDownState::Graph { scroll_y, .. } => scroll_y,
                _ => can_y_scroll,
            };
            &&& r.pan == (*old(state) is Graph)
            &&& r.scroll_y == scroll_y
            &&& if (inside && primary_pressed) || *old(state) is Graph {
                *final(state) == PointerDownState::Graph { pos, scroll_y }
            } else {
                *final(state) == *old(state)
            }
        } else {
            *final(state) is Idle && r == GraphDragStep { pan: false, scroll_y: false }
        },
{
    let before = *state;
    if !before.is_graph() && !before.is_none() {
        return GraphDragStep { pan: false, scroll_y: false };
    }
    if primary_down {
        let scroll_y = match before {
            PointerDownState::Graph { scroll_y, .. } => scroll_y,
            _ => can_y_scroll,
        };
        if (inside && primary_pressed) || before.is_graph() {
            *state = PointerDownState::Graph { pos, scroll_y };
        }
        GraphDragStep { pan: before.is_graph(), scroll_y }
    } else {
        *state = PointerDownState::Idle;
        GraphDragStep { pan: false, scroll_y: false }
    }
}

/// The curve that leads from an animation point to the next one.
#[derive(Clone, Copy, PartialEq, Eq, Debug, Structural)]
pub enum CurveKind {
    Step,
    Linear,
    Slow,
    Fast,
    Smooth,
    Bezier,
}

/// A click on a point's curve button picks the next curve, in the order
/// step, linear, slow, fast, smooth, bezier, and back to step.
pub fn next_curve(k: CurveKind) -> (r: CurveKind)
    ensures
        r == match k {
            CurveKind::Step => CurveKind::Linear,
            CurveKind::Linear => CurveKind::Slow,
            CurveKind::Slow => CurveKind::Fast,
            CurveKind::Fast => CurveKind::Smooth,
            CurveKind::Smooth => CurveKind::Bezier,
            CurveKind::Bezier => CurveKind::Step,
        },
{
    match k {
        CurveKind::Step => CurveKind::Linear,
        CurveKind::Linear => CurveKind::Slow,
        CurveKind::Slow => CurveKind::Fast,
        CurveKind::Fast => CurveKind::Smooth,
        CurveKind::Smooth => CurveKind::Bezier,
        CurveKind::Bezier => CurveKind::Step,
    }
}

/// The letter the curve button shows.
pub fn curve_label(k: CurveKind) -> (r: char)
    ensures
        r == match k {
            CurveKind::Step => 'N',
            CurveKind::Linear => 'L',
            CurveKind::Slow => 'S',
            CurveKind::Fast => 'F',
            CurveKind::Smooth => 'M',
            CurveKind::Bezier => 'B',
        },
{
    match k {
        CurveKind::Step => 'N',
        CurveKind::Linear => 'L',
        CurveKind::Slow => 'S',
        CurveKind::Fast => 'F',
        CurveKind::Smooth => 'M',
        CurveKind::Bezier => 'B',
    }
}

/// Which way the timeline plays.
#[derive(Clone, Copy, PartialEq, Eq, Debug, Structural)]
pub enum PlayDir {
    Paused,
    Backward,
    Forward,
}

impl PlayDir {
    pub fn is_paused(&self) -> (r: bool)
        ensures
            r == (*self == PlayDir::Paused),
    {
        match self {
            PlayDir::Paused => true,
            _ => false,
        }
    }
}

/// What the play controls did in one frame.
#[derive(Clone, Copy, PartialEq, Eq, Debug, Structural)]
pub struct ControlsStep {
    pub dir: PlayDir,
    /// The time jumps back to zero.
    pub reset_time: bool,
    /// The frame time last seen is forgotten, so that playing resumes
    /// without a jump.
    pub forget_last_time: bool,
}

/// The play controls: "back" plays backwards; "stop" pauses and rewinds to
/// zero; the third button, after those two, plays forward when paused and
/// pauses otherwise.
pub open spec fn controls_step_spec(dir: PlayDir, back: bool, stop: bool, toggle: bool) -> ControlsStep {
    let d1 = if back { PlayDir::Backward } else { dir };
    let d2 = if stop { PlayDir::Paused } else { d1 };
    let d3 = if toggle {
        if d2 == PlayDir::Paused { PlayDir::Forward } else { PlayDir::Paused }
    } else {
        d2
    };
    ControlsStep {
        dir: d3,
        reset_time: stop,
        forget_last_time: stop || (toggle && d2 != PlayDir::Paused),
    }
}

/// One frame of the play controls, given which buttons were clicked.
pub fn controls_step(dir: PlayDir, back: bool, stop: bool, toggle: bool) -> (r: ControlsStep)
    ensures
        r == controls_step_spec(dir, back, stop, toggle),
{
    let mut d = dir;
    let mut forget = false;
    if back {
        d = PlayDir::Backward;
    }
    if stop {
        d = PlayDir::Paused;
        forget = true;
    }
    if d.is_paused() {
        if toggle {
            d = PlayDir::Forward;
        }
    } else if toggle {
        d = PlayDir::Paused;
        forget = true;
    }
    ControlsStep { dir: d, reset_time: stop, forget_last_time: forget }
}

} // verus!
