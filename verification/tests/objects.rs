use editor::objects::{
    apply_select_records, object_draw_step, quad_pointer_after, quads_to_place, sound_pointer_after,
    sounds_to_place, ObjectDraw, SoundPointerDownPoint,
    drag_quad_handle, first_quad_hit, first_sound_hit, handle_at, last_hit_handle,
    quads_differ, quads_in_box, select_decision, sounds_in_box, move_quads,
    move_sounds, BrushQuad, BrushSound, FixedPos, QuadPointerDownPoint,
    QuadPointerDownState, SoundPointerDownState,
};

fn fp(x: i64, y: i64) -> FixedPos {
    FixedPos { x, y }
}

fn quad(x: i64, y: i64, tag: u8) -> BrushQuad<u8> {
    BrushQuad {
        points: [fp(x, y), fp(x + 2, y), fp(x, y + 2), fp(x + 2, y + 2), fp(x + 1, y + 1)],
        rest: tag,
    }
}

#[test]
fn pointer_states_report_selection() {
    assert!(QuadPointerDownState::Selection((1.0f32, 2.0f32)).is_selection());
    assert!(!QuadPointerDownState::<(f32, f32)>::Point(QuadPointerDownPoint::Center).is_selection());
    assert!(!QuadPointerDownState::<(f32, f32)>::Idle.is_selection());
    assert!(SoundPointerDownState::Selection(0u8).is_selection());
    assert!(!SoundPointerDownState::<u8>::Idle.is_selection());
}

#[test]
fn last_hit_handle_prefers_center() {
    assert_eq!(last_hit_handle(&[true, false, true, false, true]), Some(4));
    assert_eq!(last_hit_handle(&[true, true, false, false, false]), Some(1));
    assert_eq!(last_hit_handle(&[false; 5]), None);
}

#[test]
fn first_quad_hit_takes_first_quad() {
    let hits = vec![[false; 5], [true, false, true, false, false], [false, false, false, false, true]];
    assert_eq!(first_quad_hit(&hits), Some((1, 2)));
    assert_eq!(first_quad_hit(&vec![[false; 5]]), None);
    assert_eq!(first_sound_hit(&vec![false, true, true]), Some(1));
    assert_eq!(first_sound_hit(&vec![false]), None);
}

#[test]
fn handle_index_four_is_center() {
    assert_eq!(handle_at(4), QuadPointerDownPoint::Center);
    assert_eq!(handle_at(2), QuadPointerDownPoint::Corner(2));
}

#[test]
fn move_quads_moves_every_handle() {
    let mut quads = vec![quad(0, 0, 1), quad(10, 10, 2)];
    move_quads(&mut quads, 5, -3);
    assert_eq!(quads[0].points[0], fp(5, -3));
    assert_eq!(quads[0].points[4], fp(6, -2));
    assert_eq!(quads[1].points[3], fp(17, 9));
    assert_eq!(quads[1].rest, 2);
}

#[test]
fn move_sounds_moves_positions() {
    let mut sounds = vec![BrushSound { pos: fp(1, 1), rest: 'a' }];
    move_sounds(&mut sounds, -1, 4);
    assert_eq!(sounds[0].pos, fp(0, 5));
    assert_eq!(sounds[0].rest, 'a');
}

#[test]
fn box_selection_anchors_brush_at_box_corner() {
    let quads = vec![quad(0, 0, 1), quad(10, 10, 2), quad(20, 20, 3)];
    let inside = vec![false, true, true];
    let brush = quads_in_box(&quads, &inside, -10, -10).expect("quads inside");
    assert_eq!(brush.len(), 2);
    assert_eq!(brush[0].rest, 2);
    assert_eq!(brush[0].points[0], fp(0, 0));
    assert_eq!(brush[1].points[0], fp(10, 10));
    assert!(quads_in_box(&quads, &vec![false; 3], 0, 0).is_none());
}

#[test]
fn box_then_place_at_corner_gives_back_quads() {
    let quads = vec![quad(7, 3, 1)];
    let mut brush = quads_in_box(&quads, &vec![true], -7, -3).expect("quad inside");
    move_quads(&mut brush, 7, 3);
    assert_eq!(brush[0].points, quads[0].points);
}

#[test]
fn sound_box_selection() {
    let sounds = vec![BrushSound { pos: fp(4, 4), rest: 0u8 }, BrushSound { pos: fp(9, 9), rest: 1u8 }];
    let b = sounds_in_box(&sounds, &vec![false, true], -8, -8).expect("a sound inside");
    assert_eq!(b.len(), 1);
    assert_eq!(b[0].pos, fp(1, 1));
    assert!(sounds_in_box(&sounds, &vec![false, false], 0, 0).is_none());
}

#[test]
fn dragging_center_moves_whole_quad_unless_shift() {
    let q = quad(0, 0, 0);
    let moved = drag_quad_handle(q, QuadPointerDownPoint::Center, 3, 1, false);
    for k in 0..5 {
        assert_eq!(moved.points[k], fp(q.points[k].x + 3, q.points[k].y + 1));
    }
    let center_only = drag_quad_handle(q, QuadPointerDownPoint::Center, 3, 1, true);
    assert_eq!(center_only.points[4], fp(4, 2));
    assert_eq!(center_only.points[0], q.points[0]);
    let corner = drag_quad_handle(q, QuadPointerDownPoint::Corner(1), -2, 0, false);
    assert_eq!(corner.points[1], fp(0, 0));
    assert_eq!(corner.points[0], q.points[0]);
    assert!(quads_differ(&q, &corner));
    assert!(!quads_differ(&q, &q));
}

#[test]
fn open_box_selection_ends_on_release() {
    let d = select_decision(true, false, false, false, false, None, false);
    assert!(d.take_box && d.end_box);
    let d = select_decision(true, false, true, false, false, None, false);
    assert!(d.take_box && !d.end_box);
}

#[test]
fn click_on_handle_grabs_it() {
    let d = select_decision(false, false, true, true, false, Some((2, 4)), false);
    assert_eq!(d.grab, Some((2, 4)));
    assert!(d.grab_moves);
    assert!(!d.start_box && !d.forget);
    assert!(d.move_grabbed);
    let popup = select_decision(false, false, false, false, true, Some((0, 1)), false);
    assert_eq!(popup.grab, Some((0, 1)));
    assert!(!popup.grab_moves);
    assert!(!popup.move_grabbed);
}

#[test]
fn click_on_empty_space_starts_box() {
    let d = select_decision(false, false, true, true, false, None, false);
    assert!(d.grab.is_none());
    assert!(d.start_box && d.forget && !d.move_grabbed);
    let moving = select_decision(false, false, true, true, false, None, true);
    assert!(!moving.start_box && moving.forget && !moving.move_grabbed);
}

#[test]
fn ctrl_blocks_primary_button() {
    let d = select_decision(false, true, true, true, false, Some((0, 0)), true);
    assert!(d.grab.is_none());
    assert!(!d.start_box && !d.forget && !d.move_grabbed);
}

#[test]
fn held_button_keeps_moving() {
    let d = select_decision(false, false, true, false, false, None, true);
    assert!(d.grab.is_none() && !d.forget && d.move_grabbed);
}

#[test]
fn select_mode_without_brush_or_open_box() {
    assert!(editor::objects::selects_this_frame(false, false));
    assert!(editor::objects::selects_this_frame(true, true));
    assert!(!editor::objects::selects_this_frame(true, false));
}

#[test]
fn decision_moves_pointer_state_and_records() {
    let d = select_decision(false, false, true, true, false, Some((3, 4)), false);
    let p = quad_pointer_after(QuadPointerDownState::<u8>::Idle, d, 9);
    assert!(matches!(p, QuadPointerDownState::Point(QuadPointerDownPoint::Center)));
    let s = sound_pointer_after(SoundPointerDownState::<u8>::Idle, d, 9);
    assert!(matches!(s, SoundPointerDownState::Point(SoundPointerDownPoint::Center)));
    let mut moving: Option<&str> = None;
    let mut popup: Option<&str> = None;
    let mut selected: Option<&str> = Some("old");
    apply_select_records(&mut moving, &mut popup, &mut selected, d, Some(("move", "popup", "sel")));
    assert_eq!((moving, popup, selected), (Some("move"), None, Some("sel")));
    let empty = select_decision(false, false, true, true, false, None, false);
    let p = quad_pointer_after(QuadPointerDownState::<u8>::Idle, empty, 9);
    assert!(matches!(p, QuadPointerDownState::Selection(9)));
    apply_select_records(&mut moving, &mut popup, &mut selected, empty, None);
    assert_eq!((moving, popup, selected), (None, None, None));
    let release = select_decision(true, false, false, false, false, None, false);
    let p = quad_pointer_after(QuadPointerDownState::Selection(1u8), release, 9);
    assert!(matches!(p, QuadPointerDownState::Idle));
}

#[test]
fn draw_step_drops_or_places_brush() {
    assert_eq!(object_draw_step(true, true, false), ObjectDraw::DropBrush);
    assert_eq!(object_draw_step(false, true, false), ObjectDraw::Place);
    assert_eq!(object_draw_step(false, true, true), ObjectDraw::Nothing);
    let (at, quads) = quads_to_place(&vec![quad(0, 0, 1)], 4, 10, 20);
    assert_eq!(at, 4);
    assert_eq!(quads[0].points[0], fp(10, 20));
    let (at, sounds) = sounds_to_place(&vec![BrushSound { pos: fp(1, 1), rest: 0u8 }], 0, -1, -1);
    assert_eq!(at, 0);
    assert_eq!(sounds[0].pos, fp(0, 0));
}

#[test]
fn quads_differ_sees_attributes_too() {
    let a = quad(0, 0, 1);
    let b = quad(0, 0, 2);
    assert!(quads_differ(&a, &b));
    assert!(!quads_differ(&a, &quad(0, 0, 1)));
}

#[test]
fn quad_select_frame_grabs_and_records() {
    let mut pointer = QuadPointerDownState::<u8>::Idle;
    let mut moving: Option<(usize, usize)> = None;
    let mut popup: Option<usize> = None;
    let mut selected: Option<usize> = None;
    let hits = vec![[false; 5], [true, false, false, false, false]];
    let d = editor::objects::quad_select_frame(
        &mut pointer, &mut moving, &mut popup, &mut selected, false, true, true, false, &hits, 7,
        |q, h| ((q, h), q, q),
    );
    assert_eq!(d.grab, Some((1, 0)));
    assert!(matches!(pointer, QuadPointerDownState::Point(QuadPointerDownPoint::Corner(0))));
    assert_eq!((moving, popup, selected), (Some((1, 0)), None, Some(1)));
    let none = vec![[false; 5]];
    let d = editor::objects::quad_select_frame(
        &mut pointer, &mut moving, &mut popup, &mut selected, false, true, true, false, &none, 7,
        |q, h| ((q, h), q, q),
    );
    assert!(d.forget);
    assert!(matches!(pointer, QuadPointerDownState::Point(_)));
    assert_eq!((moving, selected), (None, None));
}

#[test]
fn sound_select_frame_starts_box() {
    let mut pointer = SoundPointerDownState::<u8>::Idle;
    let mut moving: Option<usize> = None;
    let mut popup: Option<usize> = None;
    let mut selected: Option<usize> = None;
    let d = editor::objects::sound_select_frame(
        &mut pointer, &mut moving, &mut popup, &mut selected, true, true, false, &vec![false, false], 3,
        |s| (s, s, s),
    );
    assert!(d.start_box);
    assert!(matches!(pointer, SoundPointerDownState::Selection(3)));
    let d = editor::objects::sound_select_frame(
        &mut pointer, &mut moving, &mut popup, &mut selected, false, false, false, &vec![false, true], 3,
        |s| (s, s, s),
    );
    assert!(d.take_box && d.end_box);
    assert!(matches!(pointer, SoundPointerDownState::Idle));
    let d = editor::objects::sound_select_frame(
        &mut pointer, &mut moving, &mut popup, &mut selected, false, false, true, &vec![false, true], 3,
        |s| (s, s, s),
    );
    assert_eq!(d.grab, Some((1, 4)));
    assert_eq!((moving, popup, selected), (None, Some(1), Some(1)));
}
