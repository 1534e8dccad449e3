use editor::anim_select::{anim_to_load, common_anim, selector_step, AnimSelectorClick};

#[test]
fn common_anim_of_matching_items() {
    assert_eq!(common_anim(&vec![Some(2), Some(2)]), Some(2));
    assert_eq!(common_anim(&vec![Some(2), Some(3)]), None);
    assert_eq!(common_anim(&vec![None, None]), None);
    assert_eq!(common_anim(&vec![Some(1), None]), None);
    assert_eq!(common_anim(&vec![]), None);
    assert_eq!(common_anim(&vec![Some(5)]), Some(5));
}

#[test]
fn previous_goes_down_to_none() {
    assert_eq!(selector_step(Some(2), 4, AnimSelectorClick::Previous), (Some(1), true, false));
    assert_eq!(selector_step(Some(0), 4, AnimSelectorClick::Previous), (None, true, false));
    assert_eq!(selector_step(None, 4, AnimSelectorClick::Previous), (None, true, false));
}

#[test]
fn next_stops_at_last_animation() {
    assert_eq!(selector_step(Some(1), 3, AnimSelectorClick::Next), (Some(2), true, false));
    assert_eq!(selector_step(Some(2), 3, AnimSelectorClick::Next), (Some(2), true, false));
    assert_eq!(selector_step(None, 3, AnimSelectorClick::Next), (Some(0), true, false));
    assert_eq!(selector_step(None, 0, AnimSelectorClick::Next), (None, true, false));
}

#[test]
fn pick_and_delete() {
    assert_eq!(selector_step(Some(1), 3, AnimSelectorClick::Pick(None)), (None, false, false));
    assert_eq!(selector_step(None, 3, AnimSelectorClick::Pick(Some(2))), (Some(2), false, false));
    assert_eq!(selector_step(Some(2), 3, AnimSelectorClick::Delete), (Some(1), true, true));
    assert_eq!(selector_step(Some(0), 3, AnimSelectorClick::Delete), (Some(0), true, true));
    assert_eq!(selector_step(Some(5), 3, AnimSelectorClick::Delete), (Some(5), false, false));
    assert_eq!(selector_step(None, 3, AnimSelectorClick::Delete), (None, false, false));
}

#[test]
fn anim_loaded_when_selection_changes() {
    assert_eq!(anim_to_load(Some(1), 3, None), Some(1));
    assert_eq!(anim_to_load(Some(1), 3, Some(0)), Some(1));
    assert_eq!(anim_to_load(Some(1), 3, Some(1)), None);
    assert_eq!(anim_to_load(Some(3), 3, None), None);
    assert_eq!(anim_to_load(None, 3, Some(1)), None);
}
