use workmux::workflow::identity::{
    LivePaneInfo, PaneSnapshot, pane_ordinal, panes_in_session, panes_in_window,
    sorted_pane_ids,
};

fn pane(session: &str, window: &str, window_id: &str) -> LivePaneInfo {
    LivePaneInfo {
        session: Some(session.to_string()),
        window: Some(window.to_string()),
        window_id: Some(window_id.to_string()),
    }
}

fn snapshot() -> PaneSnapshot {
    let mut panes = PaneSnapshot::new();
    panes.insert("%10".to_string(), pane("main", "wm-work", "@2"));
    panes.insert("%9".to_string(), pane("main", "wm-work", "@2"));
    panes.insert("%3".to_string(), pane("main", "wm-other", "@3"));
    panes.insert("%4".to_string(), pane("side", "wm-work", "@7"));
    panes
}

fn strings(ids: &[&str]) -> Vec<String> {
    ids.iter().map(|id| id.to_string()).collect()
}

#[test]
fn a_window_id_selects_its_panes_in_issue_order() {
    assert_eq!(
        panes_in_window(&snapshot(), Some("@2"), "wm-work", None),
        vec!["%9".to_string(), "%10".to_string()]
    );
}

#[test]
fn without_a_window_id_the_parent_session_disambiguates_the_name() {
    // Two sessions carry a window called wm-work, so the name alone would
    // hand back panes from a window this handle does not own.
    assert_eq!(
        panes_in_window(&snapshot(), None, "wm-work", None),
        vec!["%4".to_string(), "%9".to_string(), "%10".to_string()]
    );
    assert_eq!(
        panes_in_window(&snapshot(), None, "wm-work", Some("side")),
        vec!["%4".to_string()]
    );
}

#[test]
fn a_session_reports_every_pane_it_holds() {
    assert_eq!(
        panes_in_session(&snapshot(), "main"),
        vec!["%3".to_string(), "%9".to_string(), "%10".to_string()]
    );
    assert!(panes_in_session(&snapshot(), "absent").is_empty());
}

#[test]
fn pane_ids_that_are_not_numeric_still_sort_deterministically() {
    // WezTerm numbers panes without a sigil, and a backend could invent a
    // third spelling; none of them may make the order depend on the hash
    // map's iteration.
    let sorted = sorted_pane_ids(strings(&["pane-b", "pane-a", "%2"]));
    assert_eq!(sorted, vec!["%2", "pane-a", "pane-b"]);
}

#[test]
fn sorting_ignores_the_order_the_ids_arrive_in() {
    let expected = strings(&["%2", "%9", "%10", "%100", "pane-a", "pane-b"]);
    assert_eq!(
        sorted_pane_ids(strings(&["pane-b", "%10", "%2", "pane-a", "%100", "%9"])),
        expected
    );
    assert_eq!(
        sorted_pane_ids(strings(&["%100", "pane-a", "%9", "%10", "pane-b", "%2"])),
        expected
    );
}

#[test]
fn duplicate_ids_are_kept_side_by_side() {
    assert_eq!(
        sorted_pane_ids(strings(&["%3", "x", "%3"])),
        strings(&["%3", "%3", "x"])
    );
}

#[test]
fn a_pane_ordinal_is_the_number_after_the_sigil() {
    assert_eq!(pane_ordinal("%0"), Some(0));
    assert_eq!(pane_ordinal("%10"), Some(10));
    assert_eq!(pane_ordinal("%+7"), Some(7));
    assert_eq!(pane_ordinal("%007"), Some(7));
    assert_eq!(pane_ordinal("%18446744073709551615"), Some(u64::MAX));
    assert_eq!(pane_ordinal("%18446744073709551616"), None);
    assert_eq!(pane_ordinal("%"), None);
    assert_eq!(pane_ordinal("%+"), None);
    assert_eq!(pane_ordinal("%-1"), None);
    assert_eq!(pane_ordinal("%1a"), None);
    assert_eq!(pane_ordinal("12"), None);
    assert_eq!(pane_ordinal(""), None);
}

#[test]
fn even_the_largest_ordinal_sorts_before_every_unnumbered_id() {
    assert_eq!(
        sorted_pane_ids(strings(&["pane", "%18446744073709551615", "%1"])),
        strings(&["%1", "%18446744073709551615", "pane"])
    );
    assert_eq!(
        sorted_pane_ids(strings(&["!x", "%18446744073709551615"])),
        strings(&["%18446744073709551615", "!x"])
    );
    assert_eq!(
        sorted_pane_ids(strings(&["%a", "%18446744073709551615"])),
        strings(&["%18446744073709551615", "%a"])
    );
}

#[test]
fn a_later_pane_under_the_same_id_replaces_the_earlier() {
    let mut panes = snapshot();
    panes.insert("%9".to_string(), pane("side", "wm-work", "@7"));
    assert_eq!(
        panes_in_window(&panes, Some("@7"), "wm-work", None),
        vec!["%4".to_string(), "%9".to_string()]
    );
    assert_eq!(
        panes_in_window(&panes, Some("@2"), "wm-work", None),
        vec!["%10".to_string()]
    );
    assert_eq!(panes.get("%9").unwrap().session.as_deref(), Some("side"));
    assert!(panes.get("%99").is_none());
}

#[test]
fn a_window_id_alone_decides_and_a_parent_session_only_narrows() {
    assert_eq!(
        panes_in_window(&snapshot(), Some("@2"), "anything", Some("side")),
        panes_in_window(&snapshot(), Some("@2"), "wm-work", None)
    );
    let narrowed = panes_in_window(&snapshot(), None, "wm-work", Some("main"));
    let by_name = panes_in_window(&snapshot(), None, "wm-work", None);
    assert_eq!(narrowed, vec!["%9".to_string(), "%10".to_string()]);
    assert!(narrowed.iter().all(|id| by_name.contains(id)));
}
