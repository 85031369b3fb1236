use workmux::workflow::identity::{
    IdentityError, IdentityLookup, LivePaneInfo, LookupStep, MuxAnswer, MuxIdentity, MuxMode,
    MuxQuery, OwnedWindowTarget, PaneSnapshot, WindowTarget, WorktreeInfo, identity,
};

/// What git and the multiplexer would answer.
struct World {
    worktree: Option<(&'static str, Option<&'static str>, &'static str)>,
    mode: MuxMode,
    running: Option<bool>,
    boot_id: Option<Option<&'static str>>,
    panes: Option<Vec<(&'static str, &'static str, &'static str, &'static str)>>,
    target_session: Option<&'static str>,
    sessions: Vec<&'static str>,
    target_window: Option<&'static str>,
    window_session: Option<&'static str>,
    ownership: bool,
    token: Option<&'static str>,
    owned: Result<Vec<(&'static str, Option<&'static str>, Option<&'static str>, bool)>, &'static str>,
    windows: Vec<&'static str>,
}

fn world() -> World {
    World {
        worktree: Some(("/repo/work", Some("work"), "feature")),
        mode: MuxMode::Window,
        running: Some(true),
        boot_id: Some(Some("1755000000")),
        panes: Some(vec![
            ("%10", "main", "wm-work", "@2"),
            ("%9", "main", "wm-work", "@2"),
            ("%3", "main", "wm-other", "@3"),
            ("%4", "side", "wm-work", "@7"),
        ]),
        target_session: None,
        sessions: vec!["wm-work"],
        target_window: None,
        window_session: None,
        ownership: false,
        token: None,
        owned: Ok(vec![]),
        windows: vec!["wm-work"],
    }
}

fn some(s: Option<&str>) -> Option<String> {
    s.map(str::to_string)
}

fn reply(world: &World, query: &MuxQuery) -> MuxAnswer {
    match query {
        MuxQuery::FindWorktree { .. } => MuxAnswer::Worktree(world.worktree.map(|(path, handle, branch)| {
            WorktreeInfo { path: path.to_string(), handle: some(handle), branch: branch.to_string() }
        })),
        MuxQuery::WorktreeMode { .. } => MuxAnswer::Mode(world.mode),
        MuxQuery::ServerRunning => MuxAnswer::ServerRunning(world.running),
        MuxQuery::ServerBootId => MuxAnswer::ServerBootId(world.boot_id.map(some)),
        MuxQuery::LivePanes => MuxAnswer::LivePanes(world.panes.as_ref().map(|panes| {
            let mut snapshot = PaneSnapshot::new();
            for (id, session, window, window_id) in panes {
                snapshot.insert(
                    id.to_string(),
                    LivePaneInfo {
                        session: Some(session.to_string()),
                        window: Some(window.to_string()),
                        window_id: Some(window_id.to_string()),
                    },
                );
            }
            snapshot
        })),
        MuxQuery::TargetSession { .. } => MuxAnswer::TargetSession(some(world.target_session)),
        MuxQuery::SessionExists { session } => {
            MuxAnswer::SessionExists(Some(world.sessions.contains(&session.as_str())))
        }
        MuxQuery::TargetWindow { .. } => MuxAnswer::TargetWindow(some(world.target_window)),
        MuxQuery::WindowSession { .. } => MuxAnswer::WindowSession(some(world.window_session)),
        MuxQuery::SupportsWindowOwnership => MuxAnswer::SupportsWindowOwnership(world.ownership),
        MuxQuery::WindowToken { .. } => MuxAnswer::WindowToken(some(world.token)),
        MuxQuery::OwnedWindows { .. } => MuxAnswer::OwnedWindows(match &world.owned {
            Ok(windows) => Ok(windows
                .iter()
                .map(|(name, id, parent, primary)| OwnedWindowTarget {
                    target: WindowTarget {
                        full_name: name.to_string(),
                        window_id: some(*id),
                        parent_session: some(*parent),
                    },
                    is_primary: *primary,
                })
                .collect()),
            Err(message) => Err(message.to_string()),
        }),
        MuxQuery::WindowExists { target } => {
            MuxAnswer::WindowExists(Some(world.windows.contains(&target.full_name.as_str())))
        }
    }
}

fn look_up(world: &World, prefix: &str) -> (Result<MuxIdentity, IdentityError>, Vec<String>) {
    let mut lookup = IdentityLookup::new("work".to_string(), prefix.to_string(), "tmux".to_string());
    let mut asked = Vec::new();
    loop {
        match identity(&lookup) {
            LookupStep::Ask(query) => {
                asked.push(format!("{:?}", query));
                let answer = reply(world, &query);
                lookup.answer(answer);
            }
            LookupStep::Done(result) => return (result, asked),
        }
    }
}

#[test]
fn an_unknown_name_is_an_error_and_asks_nothing_else() {
    let mut w = world();
    w.worktree = None;
    let (result, asked) = look_up(&w, "wm-");
    let error = result.unwrap_err();
    assert_eq!(
        error.message(),
        "Worktree 'work' not found. Use 'workmux list' to see available worktrees."
    );
    assert_eq!(asked.len(), 1);
}

#[test]
fn a_path_without_a_directory_name_is_an_error() {
    let mut w = world();
    w.worktree = Some(("/", None, "feature"));
    let error = look_up(&w, "wm-").0.unwrap_err();
    assert_eq!(error.message(), "Invalid worktree path: no directory name");
}

#[test]
fn a_server_that_is_not_running_reports_no_ids() {
    for running in [Some(false), None] {
        let mut w = world();
        w.running = running;
        let (result, asked) = look_up(&w, "wm-");
        let id = result.unwrap();
        assert_eq!(asked.len(), 3);
        assert_eq!(id.handle, "work");
        assert_eq!(id.branch, "feature");
        assert_eq!(id.path, "/repo/work");
        assert_eq!(id.backend, "tmux");
        assert!(!id.is_open);
        assert!(id.server_start_time.is_none());
        assert!(id.session.is_none() && id.window_id.is_none() && id.window_name.is_none());
        assert!(id.pane_ids.is_empty());
    }
}

#[test]
fn an_open_window_reports_its_ids_and_where_its_panes_are() {
    let (result, asked) = look_up(&world(), "wm-");
    let id = result.unwrap();
    assert!(id.is_open);
    assert_eq!(id.window_name.as_deref(), Some("wm-work"));
    // Known by name only, so the pane list is every wm-work window's, and the
    // id comes from the first pane.
    assert_eq!(id.pane_ids, vec!["%4", "%9", "%10"]);
    assert_eq!(id.window_id.as_deref(), Some("@7"));
    assert_eq!(id.session.as_deref(), Some("side"));
    assert_eq!(id.server_start_time.as_deref(), Some("1755000000"));
    assert!(!asked.iter().any(|q| q.contains("WindowToken")));
}

#[test]
fn the_recorded_parent_session_narrows_a_window_known_by_name() {
    let mut w = world();
    w.window_session = Some("main");
    let id = look_up(&w, "wm-").0.unwrap();
    assert_eq!(id.pane_ids, vec!["%9", "%10"]);
    assert_eq!(id.window_id.as_deref(), Some("@2"));
    assert_eq!(id.session.as_deref(), Some("main"));
}

#[test]
fn a_window_that_is_not_open_is_not_an_error() {
    let mut w = world();
    w.windows = vec![];
    let id = look_up(&w, "wm-").0.unwrap();
    assert!(!id.is_open);
    assert_eq!(id.server_start_time.as_deref(), Some("1755000000"));
    assert!(id.window_name.is_none() && id.window_id.is_none() && id.session.is_none());
    assert!(id.pane_ids.is_empty());
}

#[test]
fn the_primary_window_wins_over_the_first_token_holder() {
    let mut w = world();
    w.ownership = true;
    w.token = Some("tok");
    w.owned = Ok(vec![
        ("wm-work-2", Some("@9"), Some("main"), false),
        ("renamed", Some("@2"), Some("main"), true),
    ]);
    w.windows = vec!["renamed"];
    let (result, asked) = look_up(&w, "wm-");
    let id = result.unwrap();
    assert_eq!(id.window_name.as_deref(), Some("renamed"));
    assert_eq!(id.window_id.as_deref(), Some("@2"));
    assert_eq!(id.pane_ids, vec!["%9", "%10"]);
    assert!(asked.iter().any(|q| q.contains("OwnedWindows")));
}

#[test]
fn several_token_holders_without_a_primary_are_an_error() {
    let mut w = world();
    w.ownership = true;
    w.token = Some("tok");
    w.owned = Ok(vec![
        ("a", Some("@9"), None, false),
        ("b", Some("@8"), None, false),
    ]);
    let error = look_up(&w, "wm-").0.unwrap_err();
    assert_eq!(
        error.message(),
        "'work' owns 2 windows and none of them is the primary window; close the duplicates before asking for its identity"
    );
}

#[test]
fn a_backend_failure_to_resolve_tokens_is_reported() {
    let mut w = world();
    w.ownership = true;
    w.token = Some("tok");
    w.owned = Err("tmux exited with 1");
    let error = look_up(&w, "wm-").0.unwrap_err();
    assert_eq!(error.message(), "tmux exited with 1");
}

#[test]
fn a_handle_without_a_token_is_found_by_name() {
    let mut w = world();
    w.ownership = true;
    w.token = None;
    w.target_window = Some("renamed");
    w.windows = vec!["wm-renamed"];
    let (result, asked) = look_up(&w, "wm-");
    let id = result.unwrap();
    assert_eq!(id.window_name.as_deref(), Some("wm-renamed"));
    assert!(id.pane_ids.is_empty());
    assert!(id.window_id.is_none());
    assert!(!asked.iter().any(|q| q.contains("OwnedWindows")));
}

#[test]
fn a_session_reports_its_panes_whether_or_not_it_is_open() {
    let mut w = world();
    w.mode = MuxMode::Session;
    w.sessions = vec!["main"];
    let id = look_up(&w, "").0.unwrap();
    assert!(!id.is_open);
    assert!(id.session.is_none());
    assert!(id.pane_ids.is_empty());

    w.target_session = Some("main");
    let id = look_up(&w, "").0.unwrap();
    assert!(id.is_open);
    assert_eq!(id.session.as_deref(), Some("main"));
    assert_eq!(id.pane_ids, vec!["%3", "%9", "%10"]);
    assert!(id.window_id.is_none() && id.window_name.is_none());
    assert_eq!(id.mode, MuxMode::Session);

    w.sessions = vec![];
    let id = look_up(&w, "").0.unwrap();
    assert!(!id.is_open);
    assert!(id.session.is_none());
    assert_eq!(id.pane_ids, vec!["%3", "%9", "%10"]);
}

#[test]
fn failed_multiplexer_reads_fall_back_to_nothing() {
    let mut w = world();
    w.boot_id = None;
    w.panes = None;
    let id = look_up(&w, "wm-").0.unwrap();
    assert!(id.is_open);
    assert!(id.server_start_time.is_none());
    assert!(id.pane_ids.is_empty());
    assert!(id.session.is_none());
    assert!(id.window_id.is_none());
}


#[test]
fn two_lookups_of_the_same_world_report_the_same_identity() {
    let w = world();
    let first = look_up(&w, "wm-").0.unwrap();
    let second = look_up(&w, "wm-").0.unwrap();
    assert_eq!(first, second.clone());
    assert_eq!(first.pane_ids, second.pane_ids);
    assert_eq!(first.window_id, second.window_id);
    assert_eq!(first.session, second.session);
    assert_eq!(first.window_name, second.window_name);
    assert_eq!(first.is_open, second.is_open);
}

#[test]
fn the_count_of_duplicate_windows_is_written_in_full() {
    let mut w = world();
    w.ownership = true;
    w.token = Some("tok");
    w.owned = Ok((0..12).map(|_| ("dup", None, None, false)).collect());
    let error = look_up(&w, "wm-").0.unwrap_err();
    assert!(error.message().starts_with("'work' owns 12 windows and none"));
}

#[test]
fn no_question_is_asked_twice() {
    let mut w = world();
    w.ownership = true;
    w.token = Some("tok");
    w.owned = Ok(vec![("renamed", Some("@2"), Some("main"), true)]);
    w.windows = vec!["renamed"];
    let (_, asked) = look_up(&w, "wm-");
    let kinds: Vec<String> = asked
        .iter()
        .map(|q| q.split(|c: char| !c.is_alphanumeric()).next().unwrap().to_string())
        .collect();
    let mut distinct = kinds.clone();
    distinct.sort();
    distinct.dedup();
    assert_eq!(distinct.len(), kinds.len());
    assert_eq!(kinds.len(), 11);
}
