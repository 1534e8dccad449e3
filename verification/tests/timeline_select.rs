use editor::timeline::{
    clear_selections, click_select, controls_step, graph_drag_step, select_key, time_drag_step,
    timeline_points_step, value_points_step,
    PlayDir, PointerDownState, PointsAction, PointsInput, ValueAction,
};

#[test]
fn pointer_state_predicates() {
    let s: PointerDownState<(f32, f32)> = PointerDownState::TimelinePoint((1.0, 2.0));
    assert!(s.is_timeline_point());
    assert!(!s.is_none() && !s.is_graph() && !s.is_time() && !s.is_value_point() && !s.is_value_bezier_point());
    assert_eq!(s.as_ref(), Some(&(1.0, 2.0)));
    let idle: PointerDownState<(f32, f32)> = PointerDownState::Idle;
    assert!(idle.is_none());
    assert_eq!(idle.as_ref(), None);
    let g = PointerDownState::Graph { pos: 3u8, scroll_y: true };
    assert!(g.is_graph());
    assert_eq!(g.as_ref(), Some(&3u8));
}

#[test]
fn click_selects_only_clicked_point() {
    let mut groups: Vec<Vec<usize>> = vec![vec![0, 2], vec![1]];
    let had = click_select(&mut groups, 1, 3usize, false);
    assert!(!had);
    assert_eq!(groups, vec![vec![], vec![3]]);
}

#[test]
fn shift_click_adds_to_selection() {
    let mut groups: Vec<Vec<usize>> = vec![vec![0, 2], vec![1]];
    let had = click_select(&mut groups, 0, 5usize, true);
    assert!(!had);
    assert_eq!(groups, vec![vec![0, 2, 5], vec![1]]);
}

#[test]
fn click_on_selected_point_keeps_selection() {
    let mut groups: Vec<Vec<usize>> = vec![vec![0, 2], vec![1]];
    let had = click_select(&mut groups, 0, 2usize, false);
    assert!(had);
    assert_eq!(groups, vec![vec![0, 2], vec![1]]);
}

#[test]
fn channel_and_bezier_keys() {
    let mut channels: Vec<Vec<(usize, usize)>> = vec![vec![(1, 0)]];
    assert!(click_select(&mut channels, 0, (1, 0), false));
    assert!(!click_select(&mut channels, 0, (1, 1), false));
    assert_eq!(channels, vec![vec![(1, 1)]]);
    let mut beziers: Vec<Vec<(usize, (usize, bool))>> = vec![vec![], vec![]];
    assert!(!click_select(&mut beziers, 1, (0, (2, true)), true));
    assert!(!click_select(&mut beziers, 1, (0, (2, false)), true));
    assert_eq!(beziers, vec![vec![], vec![(0, (2, true)), (0, (2, false))]]);
}

#[test]
fn clear_selections_empties_every_group() {
    let mut groups: Vec<Vec<usize>> = vec![vec![0], vec![1, 2]];
    clear_selections(&mut groups);
    assert_eq!(groups, vec![Vec::<usize>::new(), vec![]]);
}

#[test]
fn play_controls_step() {
    let s = controls_step(PlayDir::Paused, false, false, true);
    assert_eq!(s.dir, PlayDir::Forward);
    assert!(!s.reset_time && !s.forget_last_time);
    let s = controls_step(PlayDir::Forward, false, false, true);
    assert_eq!(s.dir, PlayDir::Paused);
    assert!(s.forget_last_time);
    let s = controls_step(PlayDir::Forward, false, true, false);
    assert_eq!(s.dir, PlayDir::Paused);
    assert!(s.reset_time && s.forget_last_time);
    let s = controls_step(PlayDir::Paused, true, false, false);
    assert_eq!(s.dir, PlayDir::Backward);
    assert!(!PlayDir::Backward.is_paused());
    assert!(PlayDir::Paused.is_paused());
    let s = controls_step(PlayDir::Forward, false, false, false);
    assert_eq!(s.dir, PlayDir::Forward);
}

fn input(pressed: bool, down: bool, pos: u32) -> PointsInput<u32> {
    PointsInput { primary_pressed: pressed, primary_down: down, secondary_clicked: false, shift: false, inside: true, pos }
}

#[test]
fn select_key_adds_even_when_present() {
    let mut groups: Vec<Vec<usize>> = vec![vec![1, 2], vec![3]];
    select_key(&mut groups, 0, 2usize, false);
    assert_eq!(groups, vec![vec![2], vec![]]);
    select_key(&mut groups, 1, 4usize, true);
    assert_eq!(groups, vec![vec![2], vec![4]]);
}

#[test]
fn timeline_click_then_drag_then_release() {
    let mut state = PointerDownState::Idle;
    let mut sel: Vec<Vec<usize>> = vec![vec![], vec![]];
    // a click on an unselected point selects it
    let r = timeline_points_step(&mut state, &mut sel, input(true, true, 10), Some((1, 4)));
    assert_eq!(r, PointsAction::Nothing);
    assert_eq!(sel, vec![vec![], vec![4]]);
    assert!(state.is_none());
    // a click on the selected point starts dragging it
    let r = timeline_points_step(&mut state, &mut sel, input(true, true, 11), Some((1, 4)));
    assert_eq!(r, PointsAction::Nothing);
    assert_eq!(state.as_ref(), Some(&11));
    // holding the button moves the selection
    let r = timeline_points_step(&mut state, &mut sel, input(false, true, 15), None);
    assert_eq!(r, PointsAction::MoveSelected);
    assert_eq!(state.as_ref(), Some(&15));
    // releasing ends the drag
    let r = timeline_points_step(&mut state, &mut sel, input(false, false, 15), None);
    assert_eq!(r, PointsAction::Nothing);
    assert!(state.is_none());
    assert_eq!(sel, vec![vec![], vec![4]]);
}

#[test]
fn timeline_click_on_empty_graph_clears() {
    let mut state = PointerDownState::Idle;
    let mut sel: Vec<Vec<usize>> = vec![vec![0, 1]];
    let r = timeline_points_step(&mut state, &mut sel, input(true, true, 0), None);
    assert_eq!(r, PointsAction::Nothing);
    assert_eq!(sel, vec![Vec::<usize>::new()]);
}

#[test]
fn timeline_secondary_click_deletes() {
    let mut state: PointerDownState<u32> = PointerDownState::Idle;
    let mut sel: Vec<Vec<usize>> = vec![vec![]];
    let mut i = input(false, false, 0);
    i.secondary_clicked = true;
    assert_eq!(timeline_points_step(&mut state, &mut sel, i, Some((0, 2))), PointsAction::Delete { group: 0, point: 2 });
    assert_eq!(timeline_points_step(&mut state, &mut sel, i, None), PointsAction::Nothing);
}

#[test]
fn value_bezier_hit_wins_over_point() {
    let mut state = PointerDownState::Idle;
    let mut ch: Vec<Vec<(usize, usize)>> = vec![vec![(0, 0)]];
    let mut bz: Vec<Vec<(usize, (usize, bool))>> = vec![vec![]];
    let r = value_points_step(&mut state, &mut ch, &mut bz, input(true, true, 3), Some((0, 1, 0)), Some((0, 1, (0, true))));
    assert_eq!(r, ValueAction::Nothing);
    assert_eq!(ch, vec![vec![(0, 0)]]);
    assert_eq!(bz, vec![vec![(1, (0, true))]]);
    assert!(state.is_none());
}

#[test]
fn value_point_click_drag_and_release() {
    let mut state = PointerDownState::Idle;
    let mut ch: Vec<Vec<(usize, usize)>> = vec![vec![]];
    let mut bz: Vec<Vec<(usize, (usize, bool))>> = vec![vec![]];
    value_points_step(&mut state, &mut ch, &mut bz, input(true, true, 1), Some((0, 2, 1)), None);
    assert_eq!(ch, vec![vec![(2, 1)]]);
    value_points_step(&mut state, &mut ch, &mut bz, input(true, true, 2), Some((0, 2, 1)), None);
    assert!(state.is_value_point());
    let r = value_points_step(&mut state, &mut ch, &mut bz, input(false, true, 5), None, None);
    assert_eq!(r, ValueAction::MoveChannels);
    let r = value_points_step(&mut state, &mut ch, &mut bz, input(false, false, 5), None, None);
    assert_eq!(r, ValueAction::Nothing);
    assert!(state.is_none());
    value_points_step(&mut state, &mut ch, &mut bz, input(true, true, 0), None, None);
    assert_eq!(ch, vec![Vec::<(usize, usize)>::new()]);
}

#[test]
fn time_dragger_jumps_then_drags() {
    let mut state: PointerDownState<u32> = PointerDownState::Idle;
    let s = time_drag_step(&mut state, true, true, true, 4);
    assert!(s.jump && !s.drag);
    assert!(state.is_time());
    let s = time_drag_step(&mut state, true, false, false, 6);
    assert!(s.drag && !s.jump);
    assert_eq!(state.as_ref(), Some(&6));
    let s = time_drag_step(&mut state, false, false, false, 6);
    assert!(!s.drag && !s.jump);
    assert!(state.is_none());
    let mut other: PointerDownState<u32> = PointerDownState::ValuePoint(1);
    let s = time_drag_step(&mut other, true, true, true, 2);
    assert!(!s.drag && !s.jump);
    assert!(other.is_value_point());
}

#[test]
fn graph_pan_keeps_axis_of_drag_start() {
    let mut state: PointerDownState<u32> = PointerDownState::Idle;
    let s = graph_drag_step(&mut state, true, true, true, true, 1);
    assert!(!s.pan && s.scroll_y);
    assert!(state.is_graph());
    let s = graph_drag_step(&mut state, true, false, true, false, 3);
    assert!(s.pan && s.scroll_y);
    let s = graph_drag_step(&mut state, false, false, true, false, 3);
    assert!(!s.pan);
    assert!(state.is_none());
    let s = graph_drag_step(&mut state, true, false, true, false, 3);
    assert!(!s.pan);
    assert!(state.is_none());
}
