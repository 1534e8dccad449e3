use editor::ui::{default_join_props, EditorModalDialogMode, EditorUi, TimelineResponse};

#[test]
fn editor_ui_builds() {
    let _ui = EditorUi::new();
}

#[test]
fn default_join_props_name_nameless_mapper() {
    let p = default_join_props();
    assert_eq!(p.mapper_name, "nameless mapper");
    assert_eq!(p.color, [255, 255, 255]);
    assert!(p.ip_port.is_empty());
    assert!(p.cert_hash.is_empty());
    assert!(p.password.is_empty());
}

#[test]
fn timeline_response_starts_unchanged() {
    let r = TimelineResponse::default();
    assert!(!r.time_changed);
    assert!(!r.points_changed);
    assert!(r.point_deleted.is_none());
}

#[test]
fn modal_dialog_modes_exist() {
    let m = EditorModalDialogMode::CloseTab { tab: "map".to_string() };
    assert!(matches!(m, EditorModalDialogMode::CloseTab { .. }));
    assert!(matches!(EditorModalDialogMode::NoDialog, EditorModalDialogMode::NoDialog));
}

#[test]
fn editor_ui_default_is_new() {
    let _ui: EditorUi = Default::default();
}
