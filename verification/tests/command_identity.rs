use workmux::command::identity::{JsonIdentity, render_human};
use workmux::workflow::identity::{MuxIdentity, MuxMode};

fn identity() -> MuxIdentity {
    MuxIdentity {
        handle: "work".to_string(),
        branch: "feature".to_string(),
        path: "/repo/work".to_string(),
        mode: MuxMode::Window,
        backend: "tmux".to_string(),
        server_start_time: Some("1755000000".to_string()),
        is_open: true,
        session: Some("main".to_string()),
        window_id: Some("@2".to_string()),
        window_name: Some("wm-work".to_string()),
        pane_ids: vec!["%9".to_string(), "%10".to_string()],
    }
}

#[test]
fn json_carries_every_id_a_caller_records() {
    let json = JsonIdentity::from_identity(&identity());
    assert_eq!(json.handle, "work");
    assert_eq!(json.mode, "window");
    assert_eq!(json.backend, "tmux");
    assert_eq!(json.server_start_time.as_deref(), Some("1755000000"));
    assert_eq!(json.session.as_deref(), Some("main"));
    assert_eq!(json.window_id.as_deref(), Some("@2"));
    assert_eq!(json.window_name.as_deref(), Some("wm-work"));
    assert_eq!(json.pane_ids, vec!["%9", "%10"]);
    assert!(json.is_open);
}

#[test]
fn a_closed_handle_reports_nulls_rather_than_omitting_the_fields() {
    // A caller distinguishes "no window" from "field missing because this
    // build is older", so the keys are always present.
    let mut closed = identity();
    closed.is_open = false;
    closed.session = None;
    closed.window_id = None;
    closed.window_name = None;
    closed.pane_ids.clear();
    let json = JsonIdentity::from_identity(&closed);
    assert!(!json.is_open);
    assert!(json.window_id.is_none());
    assert!(json.session.is_none());
    assert!(json.window_name.is_none());
    assert!(json.pane_ids.is_empty());
}

#[test]
fn a_session_mode_identity_spells_its_mode() {
    let mut session = identity();
    session.mode = MuxMode::Session;
    assert_eq!(JsonIdentity::from_identity(&session).mode, "session");
    assert_eq!(JsonIdentity::from_identity(&session).path, "/repo/work");
    assert_eq!(JsonIdentity::from_identity(&session).branch, "feature");
}

#[test]
fn the_text_form_labels_each_field_and_dashes_the_missing_ones() {
    let text = render_human(&JsonIdentity::from_identity(&identity()));
    assert_eq!(
        text,
        "handle            work\n\
         branch            feature\n\
         path              /repo/work\n\
         mode              window\n\
         backend           tmux\n\
         server start time 1755000000\n\
         open              true\n\
         session           main\n\
         window id         @2\n\
         window name       wm-work\n\
         panes             %9 %10\n"
    );
    let mut closed = identity();
    closed.is_open = false;
    closed.server_start_time = None;
    closed.session = None;
    closed.window_id = None;
    closed.window_name = None;
    closed.pane_ids.clear();
    let text = render_human(&JsonIdentity::from_identity(&closed));
    assert!(text.contains("server start time -\n"));
    assert!(text.contains("open              false\n"));
    assert!(text.contains("session           -\n"));
    assert!(text.contains("window id         -\n"));
    assert!(text.contains("window name       -\n"));
    assert!(text.ends_with("panes             -\n"));
}
