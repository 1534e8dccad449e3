//! Plain state of the editor's menus and panels.
use vstd::prelude::*;

verus! {

/// The editor's user interface page.
#[derive(Debug)]
pub struct EditorUi {}

impl EditorUi {
    pub fn new() -> (r: EditorUi)
        ensures
            r == (EditorUi {}),
    {
        EditorUi {  }
    }
}

impl Default for EditorUi {
    fn default() -> (r: EditorUi)
        ensures
            r == (EditorUi {}),
    {
        EditorUi::new()
    }
}

/// Modal dialog the editor shows, if any.
#[derive(Debug)]
pub enum EditorModalDialogMode {
    /// No modal dialog is open.
    NoDialog,
    CloseTab { tab: String },
    CloseEditor,
}

/// Fields of the dialog for joining a hosted map.
#[derive(Debug, Clone)]
pub struct EditorMenuDialogJoinProps {
    pub ip_port: String,
    pub cert_hash: String,
    pub password: String,
    pub mapper_name: String,
    pub color: [u8; 3],
}

/// The join dialog's fields when no saved ones can be read: empty address,
/// certificate hash and password, mapper "nameless mapper" in white.
pub fn default_join_props() -> (r: EditorMenuDialogJoinProps)
    ensures
        r.ip_port@ == Seq::<char>::empty(),
        r.cert_hash@ == Seq::<char>::empty(),
        r.password@ == Seq::<char>::empty(),
        r.mapper_name@ == "nameless mapper"@,
        r.color@ == seq![255u8, 255u8, 255u8],
{
    EditorMenuDialogJoinProps {
        ip_port: String::new(),
        cert_hash: String::new(),
        password: String::new(),
        mapper_name: "nameless mapper".to_owned(),
        color: [255, 255, 255],
    }
}

/// What the timeline reports after a frame.
#[derive(Debug, Clone)]
pub struct TimelineResponse {
    /// the time changed, either because the timeline is currently set to `playing`
    /// or because the user moved the time dragger
    pub time_changed: bool,
    /// At least one point changed by the implementation
    pub points_changed: bool,
    /// A point deleted
    pub point_deleted: Option<(String, usize)>,
}

impl Default for TimelineResponse {
    fn default() -> (r: TimelineResponse)
        ensures
            !r.time_changed,
            !r.points_changed,
            r.point_deleted is None,
    {
        TimelineResponse { time_changed: false, points_changed: false, point_deleted: None }
    }
}

} // verus!
