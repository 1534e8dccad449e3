use editor::animation::{add_or_insert, delete_point, AnimPoint, AnimSelection};

fn p(time: u128, value: i32) -> AnimPoint<i32> {
    AnimPoint { time, value }
}

fn times(points: &[AnimPoint<i32>]) -> Vec<(u128, i32)> {
    points.iter().map(|a| (a.time, a.value)).collect()
}

fn selection() -> AnimSelection<u8, u8> {
    AnimSelection {
        hovered_point: Some(1),
        hovered_point_channels: vec![(0, 1)],
        hovered_point_channel_beziers: vec![],
        selected_points: vec![0, 1, 2],
        selected_point_channels: vec![(2, 7)],
        selected_point_channel_beziers: vec![(1, 3)],
    }
}

#[test]
fn insert_between_points_moves_later_indices() {
    let mut points = vec![p(0, 1), p(10, 2), p(20, 3)];
    let mut sel = selection();
    add_or_insert(5, &mut points, &p(0, 9), &mut sel);
    assert_eq!(times(&points), vec![(0, 1), (5, 9), (10, 2), (20, 3)]);
    assert_eq!(sel.hovered_point, Some(2));
    assert_eq!(sel.hovered_point_channels, vec![(0, 1)]);
    assert_eq!(sel.selected_points, vec![0, 2, 3]);
    assert_eq!(sel.selected_point_channels, vec![(3, 7)]);
    assert_eq!(sel.selected_point_channel_beziers, vec![(2, 3)]);
}

#[test]
fn insert_at_existing_time_replaces_value() {
    let mut points = vec![p(0, 1), p(10, 2)];
    let mut sel = selection();
    add_or_insert(10, &mut points, &p(99, 5), &mut sel);
    assert_eq!(times(&points), vec![(0, 1), (10, 5)]);
    assert_eq!(sel.selected_points, vec![0, 1, 2]);
    assert_eq!(sel.hovered_point, Some(1));
}

#[test]
fn insert_after_last_point_appends() {
    let mut points = vec![p(0, 1)];
    let mut sel = selection();
    add_or_insert(30, &mut points, &p(0, 4), &mut sel);
    assert_eq!(times(&points), vec![(0, 1), (30, 4)]);
    assert_eq!(sel.selected_points, vec![0, 1, 2]);
}

#[test]
fn insert_into_empty_animation() {
    let mut points: Vec<AnimPoint<i32>> = vec![];
    let mut sel: AnimSelection<u8, u8> = AnimSelection {
        hovered_point: None,
        hovered_point_channels: vec![],
        hovered_point_channel_beziers: vec![],
        selected_points: vec![],
        selected_point_channels: vec![],
        selected_point_channel_beziers: vec![],
    };
    add_or_insert(7, &mut points, &p(0, 3), &mut sel);
    assert_eq!(times(&points), vec![(7, 3)]);
}

#[test]
fn delete_point_forgets_it_in_selection() {
    let mut points = vec![p(0, 1), p(10, 2), p(20, 3)];
    let mut sel = selection();
    assert!(delete_point(&mut points, &mut sel, true, 1));
    assert_eq!(times(&points), vec![(0, 1), (20, 3)]);
    assert_eq!(sel.hovered_point, None);
    assert_eq!(sel.selected_points, vec![0, 1]);
    assert_eq!(sel.selected_point_channels, vec![(1, 7)]);
    assert_eq!(sel.selected_point_channel_beziers, vec![]);
    assert_eq!(sel.hovered_point_channels, vec![(0, 1)]);
}

#[test]
fn delete_point_of_other_animation_is_ignored() {
    let mut points = vec![p(0, 1), p(10, 2)];
    let mut sel = selection();
    assert!(!delete_point(&mut points, &mut sel, false, 1));
    assert_eq!(points.len(), 2);
    assert_eq!(sel.selected_points, vec![0, 1, 2]);
}

#[test]
fn delete_point_out_of_range_is_ignored() {
    let mut points = vec![p(0, 1)];
    let mut sel = selection();
    assert!(!delete_point(&mut points, &mut sel, true, 3));
    assert_eq!(points.len(), 1);
}

#[test]
fn insert_then_delete_restores_indices() {
    let mut points = vec![p(0, 1), p(10, 2), p(20, 3)];
    let mut sel = selection();
    add_or_insert(5, &mut points, &p(0, 9), &mut sel);
    assert!(delete_point(&mut points, &mut sel, true, 1));
    assert_eq!(times(&points), vec![(0, 1), (10, 2), (20, 3)]);
    assert_eq!(sel.selected_points, vec![0, 1, 2]);
    assert_eq!(sel.hovered_point, Some(1));
    assert_eq!(sel.selected_point_channels, vec![(2, 7)]);
    assert_eq!(sel.selected_point_channel_beziers, vec![(1, 3)]);
}

#[test]
fn remap_after_insert_at_front() {
    let mut sel = selection();
    sel.remap_after_insert(0);
    assert_eq!(sel.selected_points, vec![1, 2, 3]);
    assert_eq!(sel.hovered_point_channels, vec![(1, 1)]);
}

#[test]
fn points_selected_sees_points_or_channels() {
    let mut sel = selection();
    assert!(sel.points_selected());
    sel.selected_points.clear();
    assert!(sel.points_selected());
    sel.selected_point_channels.clear();
    assert!(!sel.points_selected());
}

#[test]
fn insert_among_equal_times_replaces_first() {
    let mut points = vec![p(0, 1), p(10, 2), p(10, 3), p(20, 4)];
    let mut sel = selection();
    add_or_insert(10, &mut points, &p(0, 9), &mut sel);
    assert_eq!(times(&points), vec![(0, 1), (10, 9), (10, 3), (20, 4)]);
}
