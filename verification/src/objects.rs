//! Quad and sound brushes: picking handles, boxing objects into a brush,
//! moving objects by fixed-point offsets, and the per-frame decisions of the
//! select mode. Positions are fixed-point numbers held by their raw bits;
//! adding two of them adds their bits.
use vstd::prelude::*;
use vstd::std_specs::cmp::PartialEqSpec;

verus! {

/// A fixed-point position, by the raw bits of its coordinates.
#[derive(Clone, Copy, PartialEq, Eq, Debug, Structural)]
pub struct FixedPos {
    pub x: i64,
    pub y: i64,
}

/// A quad: its four corners and its center (index 4), and the rest of its
/// attributes, which the brushes carry along unchanged.
#[derive(Clone, Copy, Debug)]
pub struct BrushQuad<R> {
    pub points: [FixedPos; 5],
    pub rest: R,
}

/// A sound source: its position and the rest of its attributes.
#[derive(Clone, Copy, Debug)]
pub struct BrushSound<R> {
    pub pos: FixedPos,
    pub rest: R,
}

/// The handle of a quad that the pointer grabbed.
#[derive(Clone, Copy, PartialEq, Eq, Debug, Structural)]
pub enum QuadPointerDownPoint {
    Center,
    Corner(usize),
}

/// The handle of a sound that the pointer grabbed.
#[derive(Clone, Copy, PartialEq, Eq, Debug, Structural)]
pub enum SoundPointerDownPoint {
    Center,
}

/// What the pointer holds in the quad brush's select mode; `P` is the
/// world position where a box selection started.
#[derive(Clone, Copy, Debug)]
pub enum QuadPointerDownState<P> {
    Idle,
    Point(QuadPointerDownPoint),
    Selection(P),
}

impl<P> QuadPointerDownState<P> {
    pub fn is_selection(&self) -> (r: bool)
        ensures
            r == (*self is Selection),
    {
        match self {
            QuadPointerDownState::Selection(_) => true,
            _ => false,
        }
    }
}

/// What the pointer holds in the sound brush's select mode.
#[derive(Clone, Copy, Debug)]
pub enum SoundPointerDownState<P> {
    Idle,
    Point(SoundPointerDownPoint),
    Selection(P),
}

impl<P> SoundPointerDownState<P> {
    pub fn is_selection(&self) -> (r: bool)
        ensures
            r == (*self is Selection),
    {
        match self {
            SoundPointerDownState::Selection(_) => true,
            _ => false,
        }
    }
}

/// Whether a frame of the quad or sound tool selects rather than places the
/// brush: there is no brush, or a box selection is open.
pub fn selects_this_frame(has_brush: bool, box_open: bool) -> (r: bool)
    ensures
        r == (!has_brush || box_open),
{
    !has_brush || box_open
}

/// The position moved by (`dx`, `dy`).
pub open spec fn shifted(p: FixedPos, dx: int, dy: int) -> FixedPos {
    FixedPos { x: (p.x + dx) as i64, y: (p.y + dy) as i64 }
}

/// Moving `p` by (`dx`, `dy`) stays in range.
pub open spec fn shift_fits(p: FixedPos, dx: int, dy: int) -> bool {
    &&& i64::MIN <= p.x + dx <= i64::MAX
    &&& i64::MIN <= p.y + dy <= i64::MAX
}

/// Moving every handle of the quad by (`dx`, `dy`) stays in range.
pub open spec fn quad_shift_fits<R>(q: BrushQuad<R>, dx: int, dy: int) -> bool {
    forall|k: int| 0 <= k < 5 ==> shift_fits(#[trigger] q.points@[k], dx, dy)
}

/// `n` is `q` with every handle moved by (`dx`, `dy`).
pub open spec fn is_quad_shift<R>(q: BrushQuad<R>, n: BrushQuad<R>, dx: int, dy: int) -> bool {
    &&& n.rest == q.rest
    &&& forall|k: int| 0 <= k < 5 ==> #[trigger] n.points@[k] == shifted(q.points@[k], dx, dy)
}

fn shift_pos(p: FixedPos, dx: i64, dy: i64) -> (r: FixedPos)
    requires
        shift_fits(p, dx as int, dy as int),
    ensures
        r == shifted(p, dx as int, dy as int),
{
    FixedPos { x: p.x + dx, y: p.y + dy }
}

fn shift_quad<R: Copy>(q: BrushQuad<R>, dx: i64, dy: i64) -> (r: BrushQuad<R>)
    requires
        quad_shift_fits(q, dx as int, dy as int),
    ensures
        is_quad_shift(q, r, dx as int, dy as int),
{
    let mut points = q.points;
    let mut k: usize = 0;
    while k < 5
        invariant
            k <= 5,
            quad_shift_fits(q, dx as int, dy as int),
            forall|j: int| 0 <= j < k ==> #[trigger] points@[j] == shifted(q.points@[j], dx as int, dy as int),
            forall|j: int| k <= j < 5 ==> #[trigger] points@[j] == q.points@[j],
        decreases 5 - k,
    {
        assert(shift_fits(q.points@[k as int], dx as int, dy as int));
        let p = points[k];
        points[k] = shift_pos(p, dx, dy);
        k = k + 1;
    }
    BrushQuad { points, rest: q.rest }
}

/// Moves every quad of a brush by (`dx`, `dy`), as placing a brush or
/// anchoring a boxed selection does.
pub fn move_quads<R: Copy>(quads: &mut Vec<BrushQuad<R>>, dx: i64, dy: i64)
    requires
        forall|i: int| 0 <= i < old(quads)@.len() ==> quad_shift_fits(#[trigger] old(quads)@[i], dx as int, dy as int),
    ensures
        final(quads)@.len() == old(quads)@.len(),
        forall|i: int| 0 <= i < old(quads)@.len() ==> is_quad_shift(old(quads)@[i], #[trigger] final(quads)@[i], dx as int, dy as int),
{
    let ghost start = quads@;
    let mut i: usize = 0;
    while i < quads.len()
        invariant
            i <= quads@.len(),
            quads@.len() == start.len(),
            forall|j: int| 0 <= j < start.len() ==> quad_shift_fits(#[trigger] start[j], dx as int, dy as int),
            forall|j: int| 0 <= j < i ==> is_quad_shift(start[j], #[trigger] quads@[j], dx as int, dy as int),
            forall|j: int| i <= j < start.len() ==> #[trigger] quads@[j] == start[j],
        decreases start.len() - i,
    {
        let q = quads[i];
        assert(quad_shift_fits(start[i as int], dx as int, dy as int));
        let n = shift_quad(q, dx, dy);
        quads.set(i, n);
        i = i + 1;
    }
}

/// Moves every sound of a brush by (`dx`, `dy`).
pub fn move_sounds<R: Copy>(sounds: &mut Vec<BrushSound<R>>, dx: i64, dy: i64)
    requires
        forall|i: int| 0 <= i < old(sounds)@.len() ==> shift_fits((#[trigger] old(sounds)@[i]).pos, dx as int, dy as int),
    ensures
        final(sounds)@.len() == old(sounds)@.len(),
        forall|i: int| 0 <= i < old(sounds)@.len() ==> (#[trigger] final(sounds)@[i]).rest == old(sounds)@[i].rest
            && final(sounds)@[i].pos == shifted(old(sounds)@[i].pos, dx as int, dy as int),
{
    let ghost start = sounds@;
    let mut i: usize = 0;
    while i < sounds.len()
        invariant
            i <= sounds@.len(),
            sounds@.len() == start.len(),
            forall|j: int| 0 <= j < start.len() ==> shift_fits((#[trigger] start[j]).pos, dx as int, dy as int),
            forall|j: int| 0 <= j < i ==> (#[trigger] sounds@[j]).rest == start[j].rest
                && sounds@[j].pos == shifted(start[j].pos, dx as int, dy as int),
            forall|j: int| i <= j < start.len() ==> #[trigger] sounds@[j] == start[j],
        decreases start.len() - i,
    {
        let s = sounds[i];
        assert(shift_fits(start[i as int].pos, dx as int, dy as int));
        let n = BrushSound { pos: shift_pos(s.pos, dx, dy), rest: s.rest };
        sounds.set(i, n);
        i = i + 1;
    }
}

/// The items whose mark is set, in their order.
pub open spec fn marked<T>(items: Seq<T>, marks: Seq<bool>) -> Seq<T>
    decreases items.len(),
{
    if items.len() == 0 {
        Seq::empty()
    } else {
        let rest = marked(items.drop_last(), marks);
        if marks[items.len() - 1] {
            rest.push(items.last())
        } else {
            rest
        }
    }
}

proof fn lemma_marked_len<T>(items: Seq<T>, marks: Seq<bool>)
    ensures
        marked(items, marks).len() <= items.len(),
        marked(items, marks).len() == 0 <==> forall|i: int| 0 <= i < items.len() ==> !marks[i],
    decreases items.len(),
{
    if items.len() > 0 {
        lemma_marked_len(items.drop_last(), marks);
    }
}

proof fn lemma_marked_contains<T>(items: Seq<T>, marks: Seq<bool>, k: int)
    requires
        0 <= k < marked(items, marks).len(),
    ensures
        exists|i: int| 0 <= i < items.len() && marks[i] && items[i] == #[trigger] marked(items, marks)[k],
    decreases items.len(),
{
    let rest = marked(items.drop_last(), marks);
    if marks[items.len() - 1] && k == rest.len() {
        assert(items[items.len() - 1] == marked(items, marks)[k]);
    } else {
        lemma_marked_contains(items.drop_last(), marks, k);
        let i = choose|i: int| 0 <= i < items.drop_last().len() && marks[i] && items.drop_last()[i] == rest[k];
        assert(items[i] == marked(items, marks)[k]);
    }
}

fn pick_marked<T: Copy>(items: &Vec<T>, marks: &Vec<bool>) -> (r: Vec<T>)
    requires
        marks@.len() == items@.len(),
    ensures
        r@ == marked(items@, marks@),
{
    let mut r: Vec<T> = Vec::new();
    let mut i: usize = 0;
    while i < items.len()
        invariant
            i <= items@.len(),
            marks@.len() == items@.len(),
            r@ == marked(items@.subrange(0, i as int), marks@),
        decreases items@.len() - i,
    {
        assert(items@.subrange(0, i as int + 1).drop_last() == items@.subrange(0, i as int));
        if marks[i] {
            r.push(items[i]);
        }
        i = i + 1;
    }
    assert(items@.subrange(0, items@.len() as int) == items@);
    r
}

/// The brush taken from a box selection: the quads with a handle inside the
/// box (`inside`, per quad of the layer), in layer order, moved by
/// (`dx`, `dy`) so that the box's corner becomes the brush's origin; `None`
/// where no quad is inside.
pub fn quads_in_box<R: Copy>(quads: &Vec<BrushQuad<R>>, inside: &Vec<bool>, dx: i64, dy: i64) -> (r: Option<Vec<BrushQuad<R>>>)
    requires
        inside@.len() == quads@.len(),
        forall|i: int| 0 <= i < quads@.len() && inside@[i] ==> quad_shift_fits(#[trigger] quads@[i], dx as int, dy as int),
    ensures
        (forall|i: int| 0 <= i < quads@.len() ==> !inside@[i]) <==> r is None,
        r matches Some(b) ==> b@.len() == marked(quads@, inside@).len() && forall|k: int|
            0 <= k < b@.len() ==> is_quad_shift(marked(quads@, inside@)[k], #[trigger] b@[k], dx as int, dy as int),
{
    let mut picked = pick_marked(quads, inside);
    proof {
        lemma_marked_len(quads@, inside@);
        assert forall|k: int| 0 <= k < picked@.len() implies quad_shift_fits(#[trigger] picked@[k], dx as int, dy as int) by {
            lemma_marked_contains(quads@, inside@, k);
        }
    }
    if picked.len() == 0 {
        None
    } else {
        move_quads(&mut picked, dx, dy);
        Some(picked)
    }
}

/// The brush taken from a box selection of sounds, as for quads.
pub fn sounds_in_box<R: Copy>(sounds: &Vec<BrushSound<R>>, inside: &Vec<bool>, dx: i64, dy: i64) -> (r: Option<Vec<BrushSound<R>>>)
    requires
        inside@.len() == sounds@.len(),
        forall|i: int| 0 <= i < sounds@.len() && inside@[i] ==> shift_fits((#[trigger] sounds@[i]).pos, dx as int, dy as int),
    ensures
        (forall|i: int| 0 <= i < sounds@.len() ==> !inside@[i]) <==> r is None,
        r matches Some(b) ==> b@.len() == marked(sounds@, inside@).len() && forall|k: int|
            0 <= k < b@.len() ==> (#[trigger] b@[k]).rest == marked(sounds@, inside@)[k].rest
                && b@[k].pos == shifted(marked(sounds@, inside@)[k].pos, dx as int, dy as int),
{
    let mut picked = pick_marked(sounds, inside);
    proof {
        lemma_marked_len(sounds@, inside@);
        assert forall|k: int| 0 <= k < picked@.len() implies shift_fits((#[trigger] picked@[k]).pos, dx as int, dy as int) by {
            lemma_marked_contains(sounds@, inside@, k);
        }
    }
    if picked.len() == 0 {
        None
    } else {
        move_sounds(&mut picked, dx, dy);
        Some(picked)
    }
}

/// The last of the five handles (four corners, then the center) that the
/// pointer is over; the center wins over the corners.
pub fn last_hit_handle(hits: &[bool; 5]) -> (r: Option<usize>)
    ensures
        r matches Some(h) ==> h < 5 && hits@[h as int] && forall|j: int| h < j < 5 ==> !hits@[j],
        r is None ==> forall|j: int| 0 <= j < 5 ==> !hits@[j],
{
    let mut k: usize = 5;
    while k > 0
        invariant
            k <= 5,
            forall|j: int| k <= j < 5 ==> !hits@[j],
        decreases k,
    {
        if hits[k - 1] {
            return Some(k - 1);
        }
        k = k - 1;
    }
    None
}

/// The first quad, in layer order, with a handle under the pointer, and
/// the last such handle of it.
pub open spec fn first_quad_hit_spec(hits: Seq<[bool; 5]>) -> Option<(int, int)> {
    if exists|q: int, h: int| 0 <= q < hits.len() && 0 <= h < 5 && #[trigger] hits[q]@[h] {
        let (q, h) = choose|q: int, h: int|
            0 <= q < hits.len() && 0 <= h < 5 && #[trigger] hits[q]@[h] && (forall|j: int| h < j < 5 ==> !hits[q]@[j])
                && forall|p: int, j: int| 0 <= p < q && 0 <= j < 5 ==> !hits[p]@[j];
        Some((q, h))
    } else {
        None
    }
}

/// Finds the quad and handle that a click grabs: the first quad with a
/// handle under the pointer (`hits`, per quad and handle), and its last such
/// handle.
pub fn first_quad_hit(hits: &Vec<[bool; 5]>) -> (r: Option<(usize, usize)>)
    ensures
        r matches Some((q, h)) ==> q < hits@.len() && h < 5 && hits@[q as int]@[h as int]
            && (forall|j: int| h < j < 5 ==> !hits@[q as int]@[j])
            && forall|p: int, j: int| 0 <= p < q && 0 <= j < 5 ==> !hits@[p]@[j],
        r is None <==> forall|p: int, j: int| 0 <= p < hits@.len() && 0 <= j < 5 ==> !hits@[p]@[j],
        r matches Some((q, h)) ==> first_quad_hit_spec(hits@) == Some((q as int, h as int)),
        r is None ==> first_quad_hit_spec(hits@) is None,
{
    let mut q: usize = 0;
    while q < hits.len()
        invariant
            q <= hits@.len(),
            forall|p: int, j: int| 0 <= p < q && 0 <= j < 5 ==> !hits@[p]@[j],
        decreases hits@.len() - q,
    {
        let row = hits[q];
        match last_hit_handle(&row) {
            Some(h) => {
                proof {
                    let w = choose|a: int, b: int|
                        0 <= a < hits@.len() && 0 <= b < 5 && #[trigger] hits@[a]@[b] && (forall|j: int| b < j < 5 ==> !hits@[a]@[j])
                            && forall|p: int, j: int| 0 <= p < a && 0 <= j < 5 ==> !hits@[p]@[j];
                    assert(hits@[q as int]@[h as int]);
                    if w.0 < q as int {
                        assert(!hits@[w.0]@[w.1]);
                    } else if w.0 > q as int {
                        assert(!hits@[q as int]@[h as int]);
                    } else if w.1 < h as int {
                        assert(!hits@[q as int]@[h as int]);
                    } else if w.1 > h as int {
                        assert(!hits@[q as int]@[w.1]);
                    }
                }
                return Some((q, h));
            },
            None => {},
        }
        q = q + 1;
    }
    None
}

/// Finds the sound that a click grabs: the first one under the pointer.
pub fn first_sound_hit(hits: &Vec<bool>) -> (r: Option<usize>)
    ensures
        r matches Some(s) ==> s < hits@.len() && hits@[s as int] && forall|p: int| 0 <= p < s ==> !hits@[p],
        r is None <==> forall|p: int| 0 <= p < hits@.len() ==> !hits@[p],
{
    let mut s: usize = 0;
    while s < hits.len()
        invariant
            s <= hits@.len(),
            forall|p: int| 0 <= p < s ==> !hits@[p],
        decreases hits@.len() - s,
    {
        if hits[s] {
            return Some(s);
        }
        s = s + 1;
    }
    None
}

/// The quad handle at index `h`: 4 is the center, the others are corners.
pub open spec fn handle_at_spec(h: int) -> QuadPointerDownPoint {
    if h == 4 {
        QuadPointerDownPoint::Center
    } else {
        QuadPointerDownPoint::Corner(h as usize)
    }
}

/// The quad handle at index `h`.
pub fn handle_at(h: usize) -> (r: QuadPointerDownPoint)
    requires
        h < 5,
    ensures
        r == handle_at_spec(h as int),
{
    if h == 4 {
        QuadPointerDownPoint::Center
    } else {
        QuadPointerDownPoint::Corner(h)
    }
}

/// The index of a quad handle.
pub open spec fn handle_index_spec(p: QuadPointerDownPoint) -> int {
    match p {
        QuadPointerDownPoint::Center => 4,
        QuadPointerDownPoint::Corner(i) => i as int,
    }
}

/// What one frame of the select mode of the quad or sound brush does.
#[derive(Clone, Copy, Debug)]
pub struct SelectDecision {
    /// The open box selection is turned into the brush.
    pub take_box: bool,
    /// The box selection ends (the pointer was released).
    pub end_box: bool,
    /// The object and handle grabbed this frame.
    pub grab: Option<(usize, usize)>,
    /// The grab starts a move (primary button); else it opens the object's
    /// popup (secondary button).
    pub grab_moves: bool,
    /// A box selection starts at the pointer.
    pub start_box: bool,
    /// The object being moved and the last selected one are forgotten.
    pub forget: bool,
    /// The object being moved follows the pointer.
    pub move_grabbed: bool,
}

/// The decision of one frame: `selecting` says whether a box selection is
/// open, `ctrl` whether ctrl is held (it keeps the primary button from
/// acting), `hit` the object and handle under the pointer (as
/// `first_quad_hit` or `first_sound_hit` found it), `moving` whether an
/// object is being moved.
pub open spec fn select_decision_spec(
    selecting: bool,
    ctrl: bool,
    primary_down: bool,
    primary_pressed: bool,
    secondary_pressed: bool,
    hit: Option<(usize, usize)>,
    moving: bool,
) -> SelectDecision {
    let down = !ctrl && primary_down;
    let pressed = !ctrl && primary_pressed;
    if selecting {
        SelectDecision {
            take_box: true,
            end_box: !down,
            grab: None,
            grab_moves: false,
            start_box: false,
            forget: false,
            move_grabbed: false,
        }
    } else {
        let grab = if pressed || secondary_pressed { hit } else { None };
        let moving_after = if grab is Some && pressed {
            true
        } else if grab is None && pressed {
            false
        } else {
            moving
        };
        SelectDecision {
            take_box: false,
            end_box: false,
            grab,
            grab_moves: grab is Some && pressed,
            start_box: grab is None && pressed && !moving,
            forget: grab is None && pressed,
            move_grabbed: down && moving_after,
        }
    }
}

/// Decides one frame of the select mode of the quad or sound brush.
pub fn select_decision(
    selecting: bool,
    ctrl: bool,
    primary_down: bool,
    primary_pressed: bool,
    secondary_pressed: bool,
    hit: Option<(usize, usize)>,
    moving: bool,
) -> (r: SelectDecision)
    ensures
        r == select_decision_spec(selecting, ctrl, primary_down, primary_pressed, secondary_pressed, hit, moving),
{
    let down = !ctrl && primary_down;
    let pressed = !ctrl && primary_pressed;
    if selecting {
        SelectDecision {
            take_box: true,
            end_box: !down,
            grab: None,
            grab_moves: false,
            start_box: false,
            forget: false,
            move_grabbed: false,
        }
    } else {
        let grab = if pressed || secondary_pressed { hit } else { None };
        let grabbed = grab.is_some();
        let moving_after = if grabbed && pressed {
            true
        } else if !grabbed && pressed {
            false
        } else {
            moving
        };
        SelectDecision {
            take_box: false,
            end_box: false,
            grab,
            grab_moves: grabbed && pressed,
            start_box: !grabbed && pressed && !moving,
            forget: !grabbed && pressed,
            move_grabbed: down && moving_after,
        }
    }
}

/// The quad brush's pointer state after a frame's decision: an open box
/// stays open until released; a grab holds the grabbed handle; a new box
/// starts at `box_start`.
pub open spec fn quad_pointer_after_spec<P>(pointer: QuadPointerDownState<P>, d: SelectDecision, box_start: P) -> QuadPointerDownState<P> {
    if d.take_box {
        if d.end_box { QuadPointerDownState::Idle } else { pointer }
    } else {
        match d.grab {
            Some((_, h)) => QuadPointerDownState::Point(handle_at_spec(h as int)),
            None => if d.start_box { QuadPointerDownState::Selection(box_start) } else { pointer },
        }
    }
}

/// Applies a frame's decision to the quad brush's pointer state.
pub fn quad_pointer_after<P: Copy>(pointer: QuadPointerDownState<P>, d: SelectDecision, box_start: P) -> (r: QuadPointerDownState<P>)
    requires
        d.grab matches Some((_, h)) ==> h < 5,
    ensures
        r == quad_pointer_after_spec(pointer, d, box_start),
{
    if d.take_box {
        if d.end_box { QuadPointerDownState::Idle } else { pointer }
    } else {
        match d.grab {
            Some((_, h)) => QuadPointerDownState::Point(handle_at(h)),
            None => if d.start_box { QuadPointerDownState::Selection(box_start) } else { pointer },
        }
    }
}

/// The sound brush's pointer state after a frame's decision, as for quads;
/// a sound has only its center to grab.
pub open spec fn sound_pointer_after_spec<P>(pointer: SoundPointerDownState<P>, d: SelectDecision, box_start: P) -> SoundPointerDownState<P> {
    if d.take_box {
        if d.end_box { SoundPointerDownState::Idle } else { pointer }
    } else if d.grab is Some {
        SoundPointerDownState::Point(SoundPointerDownPoint::Center)
    } else if d.start_box {
        SoundPointerDownState::Selection(box_start)
    } else {
        pointer
    }
}

/// Applies a frame's decision to the sound brush's pointer state.
pub fn sound_pointer_after<P: Copy>(pointer: SoundPointerDownState<P>, d: SelectDecision, box_start: P) -> (r: SoundPointerDownState<P>)
    ensures
        r == sound_pointer_after_spec(pointer, d, box_start),
{
    if d.take_box {
        if d.end_box { SoundPointerDownState::Idle } else { pointer }
    } else if d.grab.is_some() {
        SoundPointerDownState::Point(SoundPointerDownPoint::Center)
    } else if d.start_box {
        SoundPointerDownState::Selection(box_start)
    } else {
        pointer
    }
}

/// Applies a frame's decision to what the brush remembers of the grabbed
/// object: the object being moved (`moving`), the one whose popup is open
/// (`popup`) and the last selected one (`selected`). `grabbed` holds the new
/// records for the grabbed object (for moving, for the popup, for the
/// selection). A grab with the primary button starts a move, with the
/// secondary one opens the popup, and either selects the object; forgetting
/// drops the moved and the selected object.
pub fn apply_select_records<T, Q>(
    moving: &mut Option<T>,
    popup: &mut Option<Q>,
    selected: &mut Option<Q>,
    d: SelectDecision,
    grabbed: Option<(T, Q, Q)>,
)
    requires
        d.grab is Some ==> grabbed is Some,
        !(d.grab is Some && d.forget),
    ensures
        d.grab is Some ==> {
            let g = grabbed->Some_0;
            &&& *final(moving) == if d.grab_moves { Some(g.0) } else { *old(moving) }
            &&& *final(popup) == if d.grab_moves { *old(popup) } else { Some(g.1) }
            &&& *final(selected) == Some(g.2)
        },
        d.grab is None ==> {
            &&& *final(moving) == if d.forget { None } else { *old(moving) }
            &&& *final(popup) == *old(popup)
            &&& *final(selected) == if d.forget { None } else { *old(selected) }
        },
{
    if d.grab.is_some() {
        match grabbed {
            Some((t, q1, q2)) => {
                if d.grab_moves {
                    *moving = Some(t);
                } else {
                    *popup = Some(q1);
                }
                *selected = Some(q2);
            },
            None => {},
        }
    } else if d.forget {
        *moving = None;
        *selected = None;
    }
}

/// The grab a list of hits gives to the frame's decision.
pub open spec fn quad_hit_of(hits: Seq<[bool; 5]>) -> Option<(usize, usize)> {
    match first_quad_hit_spec(hits) {
        Some((q, h)) => Some((q as usize, h as usize)),
        None => None,
    }
}

/// The records after a frame's decision, given the records made for the
/// grabbed object (`g`, when something is grabbed).
pub open spec fn records_after<T, Q>(
    d: SelectDecision,
    g: (T, Q, Q),
    moving: Option<T>,
    popup: Option<Q>,
    selected: Option<Q>,
    new_moving: Option<T>,
    new_popup: Option<Q>,
    new_selected: Option<Q>,
) -> bool {
    if d.grab is Some {
        &&& new_moving == if d.grab_moves { Some(g.0) } else { moving }
        &&& new_popup == if d.grab_moves { popup } else { Some(g.1) }
        &&& new_selected == Some(g.2)
    } else {
        &&& new_moving == if d.forget { None } else { moving }
        &&& new_popup == popup
        &&& new_selected == if d.forget { None } else { selected }
    }
}

/// One frame of the quad brush's select mode: decides on the frame (see
/// [`select_decision`], with the grab found by [`first_quad_hit`] in
/// `hits`), then applies the decision to the pointer state and to the
/// records of the moved, popup and selected quad; `records` makes the
/// records for a grabbed quad and handle. Returns the decision, which tells
/// the caller whether to take the box into a brush and whether to move the
/// grabbed handle.
pub fn quad_select_frame<P: Copy, T, Q, F: Fn(usize, usize) -> (T, Q, Q)>(
    pointer: &mut QuadPointerDownState<P>,
    moving: &mut Option<T>,
    popup: &mut Option<Q>,
    selected: &mut Option<Q>,
    ctrl: bool,
    primary_down: bool,
    primary_pressed: bool,
    secondary_pressed: bool,
    hits: &Vec<[bool; 5]>,
    box_start: P,
    records: F,
) -> (d: SelectDecision)
    requires
        forall|q: usize, h: usize| #[trigger] records.requires((q, h)),
    ensures
        d == select_decision_spec(
            *old(pointer) is Selection,
            ctrl,
            primary_down,
            primary_pressed,
            secondary_pressed,
            quad_hit_of(hits@),
            *old(moving) is Some,
        ),
        *final(pointer) == quad_pointer_after_spec(*old(pointer), d, box_start),
        exists|g: (T, Q, Q)|
            records_after(d, g, *old(moving), *old(popup), *old(selected), *final(moving), *final(popup), *final(selected))
                && (d.grab matches Some((q, h)) ==> records.ensures((q, h), g)),
{
    let hit = first_quad_hit(hits);
    let selecting = pointer.is_selection();
    let d = select_decision(selecting, ctrl, primary_down, primary_pressed, secondary_pressed, hit, moving.is_some());
    *pointer = quad_pointer_after(*pointer, d, box_start);
    match d.grab {
        Some((q, h)) => {
            let g = records(q, h);
            let ghost gg = g;
            apply_select_records(moving, popup, selected, d, Some(g));
            assert(records_after(d, gg, *old(moving), *old(popup), *old(selected), *moving, *popup, *selected));
        },
        None => {
            apply_select_records(moving, popup, selected, d, None);
            proof {
                let g = vstd::pervasive::arbitrary::<(T, Q, Q)>();
                assert(records_after(d, g, *old(moving), *old(popup), *old(selected), *moving, *popup, *selected));
            }
        },
    }
    d
}

/// One frame of the sound brush's select mode, as for quads: the grab is
/// the first sound under the pointer (by [`first_sound_hit`] in `hits`);
/// `records` makes the records for a grabbed sound.
pub fn sound_select_frame<P: Copy, T, F: Fn(usize) -> (T, T, T)>(
    pointer: &mut SoundPointerDownState<P>,
    moving: &mut Option<T>,
    popup: &mut Option<T>,
    selected: &mut Option<T>,
    primary_down: bool,
    primary_pressed: bool,
    secondary_pressed: bool,
    hits: &Vec<bool>,
    box_start: P,
    records: F,
) -> (d: SelectDecision)
    requires
        forall|s: usize| #[trigger] records.requires((s,)),
    ensures
        ({
            let hit = if exists|s: int| 0 <= s < hits@.len() && hits@[s] {
                Some(((choose|s: int| 0 <= s < hits@.len() && hits@[s] && forall|p: int| 0 <= p < s ==> !hits@[p]) as usize, 4usize))
            } else {
                None
            };
            d == select_decision_spec(
                *old(pointer) is Selection,
                false,
                primary_down,
                primary_pressed,
                secondary_pressed,
                hit,
                *old(moving) is Some,
            )
        }),
        *final(pointer) == sound_pointer_after_spec(*old(pointer), d, box_start),
        exists|g: (T, T, T)|
            records_after(d, g, *old(moving), *old(popup), *old(selected), *final(moving), *final(popup), *final(selected))
                && (d.grab matches Some((s, h)) ==> records.ensures((s,), g)),
{
    let hit = match first_sound_hit(hits) {
        Some(s) => Some((s, 4usize)),
        None => None,
    };
    proof {
        if exists|s: int| 0 <= s < hits@.len() && hits@[s] {
            let c = choose|s: int| 0 <= s < hits@.len() && hits@[s] && forall|p: int| 0 <= p < s ==> !hits@[p];
            let w = choose|s: int| 0 <= s < hits@.len() && hits@[s];
            lemma_first_true(hits@, w);
            assert(hit matches Some((s, _)) && s as int == c) by {
                let s = hit->Some_0.0;
                if (s as int) < c {
                    assert(!hits@[s as int]);
                } else if (s as int) > c {
                    assert(!hits@[c]);
                }
            }
        }
    }
    let selecting = pointer.is_selection();
    let d = select_decision(selecting, false, primary_down, primary_pressed, secondary_pressed, hit, moving.is_some());
    *pointer = sound_pointer_after(*pointer, d, box_start);
    match d.grab {
        Some((s, _)) => {
            let g = records(s);
            let ghost gg = g;
            apply_select_records(moving, popup, selected, d, Some(g));
            assert(records_after(d, gg, *old(moving), *old(popup), *old(selected), *moving, *popup, *selected));
        },
        None => {
            apply_select_records(moving, popup, selected, d, None);
            proof {
                let g = vstd::pervasive::arbitrary::<(T, T, T)>();
                assert(records_after(d, g, *old(moving), *old(popup), *old(selected), *moving, *popup, *selected));
            }
        },
    }
    d
}

proof fn lemma_first_true(s: Seq<bool>, w: int)
    requires
        0 <= w < s.len(),
        s[w],
    ensures
        exists|c: int| 0 <= c < s.len() && s[c] && forall|p: int| 0 <= p < c ==> !s[p],
    decreases w,
{
    if exists|p: int| 0 <= p < w && s[p] {
        let p = choose|p: int| 0 <= p < w && s[p];
        lemma_first_true(s, p);
    } else {
        assert(forall|p: int| 0 <= p < w ==> !s[p]);
    }
}

/// What the quad or sound brush does with a frame while it holds a brush.
#[derive(Clone, Copy, PartialEq, Eq, Debug, Structural)]
pub enum ObjectDraw {
    /// A secondary press drops the brush.
    DropBrush,
    /// A primary press (without ctrl) places the brush at the pointer.
    Place,
    Nothing,
}

/// Decides a frame of placing a quad or sound brush (`ctrl` keeps the
/// primary button from acting; the sound brush passes `false`).
pub fn object_draw_step(secondary_pressed: bool, primary_pressed: bool, ctrl: bool) -> (r: ObjectDraw)
    ensures
        r == if secondary_pressed {
            ObjectDraw::DropBrush
        } else if !ctrl && primary_pressed {
            ObjectDraw::Place
        } else {
            ObjectDraw::Nothing
        },
{
    if secondary_pressed {
        ObjectDraw::DropBrush
    } else if !ctrl && primary_pressed {
        ObjectDraw::Place
    } else {
        ObjectDraw::Nothing
    }
}

/// The quads a brush places at the pointer: the brush's quads moved by the
/// pointer's position (`dx`, `dy`), added at the end of the layer's
/// `layer_len` quads; returns the index they go to and the quads.
pub fn quads_to_place<R: Copy>(brush: &Vec<BrushQuad<R>>, layer_len: usize, dx: i64, dy: i64) -> (r: (usize, Vec<BrushQuad<R>>))
    requires
        forall|i: int| 0 <= i < brush@.len() ==> quad_shift_fits(#[trigger] brush@[i], dx as int, dy as int),
    ensures
        r.0 == layer_len,
        r.1@.len() == brush@.len(),
        forall|i: int| 0 <= i < brush@.len() ==> is_quad_shift(brush@[i], #[trigger] r.1@[i], dx as int, dy as int),
{
    let mut quads: Vec<BrushQuad<R>> = Vec::new();
    let mut i: usize = 0;
    while i < brush.len()
        invariant
            i <= brush@.len(),
            quads@ == brush@.subrange(0, i as int),
        decreases brush@.len() - i,
    {
        quads.push(brush[i]);
        i = i + 1;
    }
    assert(quads@ == brush@);
    move_quads(&mut quads, dx, dy);
    (layer_len, quads)
}

/// The sounds a brush places at the pointer, as for quads.
pub fn sounds_to_place<R: Copy>(brush: &Vec<BrushSound<R>>, layer_len: usize, dx: i64, dy: i64) -> (r: (usize, Vec<BrushSound<R>>))
    requires
        forall|i: int| 0 <= i < brush@.len() ==> shift_fits((#[trigger] brush@[i]).pos, dx as int, dy as int),
    ensures
        r.0 == layer_len,
        r.1@.len() == brush@.len(),
        forall|i: int| 0 <= i < brush@.len() ==> (#[trigger] r.1@[i]).rest == brush@[i].rest
            && r.1@[i].pos == shifted(brush@[i].pos, dx as int, dy as int),
{
    let mut sounds: Vec<BrushSound<R>> = Vec::new();
    let mut i: usize = 0;
    while i < brush.len()
        invariant
            i <= brush@.len(),
            sounds@ == brush@.subrange(0, i as int),
        decreases brush@.len() - i,
    {
        sounds.push(brush[i]);
        i = i + 1;
    }
    assert(sounds@ == brush@);
    move_sounds(&mut sounds, dx, dy);
    (layer_len, sounds)
}

/// Dragging a handle by (`dx`, `dy`) stays in range.
pub open spec fn drag_fits<R>(q: BrushQuad<R>, handle: QuadPointerDownPoint, dx: int, dy: int) -> bool {
    &&& 0 <= handle_index_spec(handle) < 5
    &&& shift_fits(q.points@[handle_index_spec(handle)], dx, dy)
    &&& handle is Center ==> quad_shift_fits(q, dx, dy)
}

/// The quad after its handle was dragged by (`dx`, `dy`): a corner moves
/// alone; the center moves alone while `center_only` (shift) is held, else
/// the whole quad moves.
pub open spec fn dragged<R>(q: BrushQuad<R>, handle: QuadPointerDownPoint, dx: int, dy: int, center_only: bool, n: BrushQuad<R>) -> bool {
    &&& n.rest == q.rest
    &&& forall|k: int| 0 <= k < 5 ==> #[trigger] n.points@[k] == if k == handle_index_spec(handle)
        || (handle is Center && !center_only) {
        shifted(q.points@[k], dx, dy)
    } else {
        q.points@[k]
    }
}

/// Drags a handle of a quad by (`dx`, `dy`).
pub fn drag_quad_handle<R: Copy>(q: BrushQuad<R>, handle: QuadPointerDownPoint, dx: i64, dy: i64, center_only: bool) -> (r: BrushQuad<R>)
    requires
        drag_fits(q, handle, dx as int, dy as int),
    ensures
        dragged(q, handle, dx as int, dy as int, center_only, r),
{
    let p: usize = match handle {
        QuadPointerDownPoint::Center => 4,
        QuadPointerDownPoint::Corner(i) => i,
    };
    let mut points = q.points;
    let moved = points[p];
    points[p] = shift_pos(moved, dx, dy);
    let all = match handle {
        QuadPointerDownPoint::Center => !center_only,
        QuadPointerDownPoint::Corner(_) => false,
    };
    if all {
        let mut k: usize = 0;
        while k < 4
            invariant
                k <= 4,
                handle is Center,
                p == 4,
                quad_shift_fits(q, dx as int, dy as int),
                points@[4] == shifted(q.points@[4], dx as int, dy as int),
                forall|j: int| 0 <= j < k ==> #[trigger] points@[j] == shifted(q.points@[j], dx as int, dy as int),
                forall|j: int| k <= j < 4 ==> #[trigger] points@[j] == q.points@[j],
            decreases 4 - k,
        {
            assert(shift_fits(q.points@[k as int], dx as int, dy as int));
            let c = points[k];
            points[k] = shift_pos(c, dx, dy);
            k = k + 1;
        }
    }
    BrushQuad { points, rest: q.rest }
}

/// Whether two quads differ, in a handle or in the rest of their
/// attributes (compared with the attributes' own `==`); a moved quad is
/// written back only when it differs from the quad in the layer.
pub fn quads_differ<R: PartialEq>(a: &BrushQuad<R>, b: &BrushQuad<R>) -> (r: bool)
    ensures
        R::obeys_eq_spec() ==> (r <==> (exists|k: int| 0 <= k < 5 && #[trigger] a.points@[k] != b.points@[k])
            || !a.rest.eq_spec(&b.rest)),
{
    let mut k: usize = 0;
    while k < 5
        invariant
            k <= 5,
            forall|j: int| 0 <= j < k ==> #[trigger] a.points@[j] == b.points@[j],
        decreases 5 - k,
    {
        let pa = a.points[k];
        let pb = b.points[k];
        if pa.x != pb.x || pa.y != pb.y {
            return true;
        }
        k = k + 1;
    }
    !(a.rest == b.rest)
}

} // verus!
