use workmux::command::identity::JsonIdentity;
use workmux::command::spawn::{SpawnError, require_command, spawn_pane, target_pane};
use workmux::workflow::identity::{MuxIdentity, MuxMode};

fn identity(pane_ids: &[&str]) -> MuxIdentity {
    MuxIdentity {
        handle: "work".to_string(),
        branch: "feature".to_string(),
        path: "/repo/work".to_string(),
        mode: MuxMode::Window,
        backend: "tmux".to_string(),
        server_start_time: Some("1755000000".to_string()),
        is_open: true,
        session: Some("main".to_string()),
        window_id: Some("@2".to_string()),
        window_name: Some("wm-work".to_string()),
        pane_ids: pane_ids.iter().map(|pane| pane.to_string()).collect(),
    }
}

#[test]
fn the_first_pane_is_the_default_target() {
    let identity = identity(&["%9", "%10"]);
    assert_eq!(target_pane(&identity, None).unwrap(), "%9");
    assert_eq!(target_pane(&identity, Some("%10")).unwrap(), "%10");
}

#[test]
fn a_pane_from_another_window_is_refused_rather_than_respawned() {
    // Respawning kills what is in the pane, so a wrong target is not a
    // no-op: it would take down somebody else's agent and report success.
    let error = target_pane(&identity(&["%9"]), Some("%42")).unwrap_err();
    assert!(error.message().contains("is not part of 'work'"));
}

#[test]
fn a_window_with_no_panes_has_nothing_to_spawn_into() {
    let error = target_pane(&identity(&[]), None).unwrap_err();
    assert!(error.message().contains("no panes"));
}

#[test]
fn the_json_shape_carries_the_identity_and_the_pane_it_spawned_into() {
    let spawned = identity(&["%9"]);
    let pane_id = spawn_pane(&spawned, None).unwrap();
    let json = JsonIdentity::from_identity(&spawned);
    assert_eq!(pane_id, "%9");
    assert_eq!(json.window_id.as_deref(), Some("@2"));
    assert_eq!(json.server_start_time.as_deref(), Some("1755000000"));
}

#[test]
fn refusals_say_what_was_wrong() {
    let error = target_pane(&identity(&["%9", "%10"]), Some("%42")).unwrap_err();
    assert_eq!(
        error.message(),
        "Pane '%42' is not part of 'work' (its panes are: %9, %10)"
    );
    let error = target_pane(&identity(&[]), Some("%42")).unwrap_err();
    assert_eq!(
        error.message(),
        "Pane '%42' is not part of 'work' (its panes are: none)"
    );
    let error = target_pane(&identity(&[]), None).unwrap_err();
    assert_eq!(error.message(), "'work' has no panes to spawn into");
    assert!(matches!(error, SpawnError::NoPanes { .. }));
}

#[test]
fn a_spawn_needs_a_command_and_an_open_window() {
    let error = require_command(&[]).unwrap_err();
    assert_eq!(error.message(), "No command provided");
    assert!(require_command(&vec!["agent".to_string()]).is_ok());

    let mut closed = identity(&["%9"]);
    closed.is_open = false;
    let error = spawn_pane(&closed, Some("%9")).unwrap_err();
    assert_eq!(
        error.message(),
        "'work' has no open window. Open one first: workmux open --background --no-pane-cmds work"
    );
    closed.mode = MuxMode::Session;
    let error = spawn_pane(&closed, None).unwrap_err();
    assert_eq!(
        error.message(),
        "'work' has no open session. Open one first: workmux open --background --no-pane-cmds work"
    );
    assert_eq!(spawn_pane(&identity(&["%9", "%10"]), Some("%10")).unwrap(), "%10");
}
