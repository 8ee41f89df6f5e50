use syntax_tree::config_targets::{
    action_metadata_for_name, check_distinct_destination, check_pane_only_target,
    check_tab_only_target, destination_target, group_first_index, group_of_tab,
    select_single_pane_entry, select_tab_entries, select_window_ids, serialization_error,
    settings_write_error, single_tab_entry, theme_for_name, WorkspaceTab,
};
use syntax_tree::control_error::{ControlError, ErrorCode};
use syntax_tree::targets::{PaneEntry, PaneTarget, SessionTarget, TabEntry, TabTarget, TargetSelector, WindowTarget};

fn s(text: &str) -> String {
    text.to_string()
}

fn selector() -> TargetSelector {
    TargetSelector { window: None, tab: None, pane: None, session: None }
}

fn assert_error<T: std::fmt::Debug>(r: Result<T, ControlError>, code: ErrorCode, message: &str) {
    let e = r.unwrap_err();
    assert_eq!(e.code, code);
    assert_eq!(e.message, message);
}

fn tab(id: &str, title: &str, index: usize, active: usize) -> TabEntry {
    TabEntry {
        window_id: s("w1"),
        window_index: 0,
        tab_id: s(id),
        title: s(title),
        index,
        workspace_active_tab_index: active,
    }
}

fn tabs() -> Vec<TabEntry> {
    vec![tab("t1", "Build", 0, 1), tab("t2", "Logs", 1, 1), tab("t3", "Logs", 2, 1)]
}

fn ids(entries: &[TabEntry]) -> Vec<String> {
    entries.iter().map(|e| e.tab_id.clone()).collect()
}

fn pane(id: &str, index: usize, focused: bool) -> PaneEntry {
    PaneEntry {
        window_id: s("w1"),
        window_index: 0,
        tab_id: s("t1"),
        tab_index: 0,
        index,
        pane_id: s(id),
        is_focused: focused,
    }
}

#[test]
fn tab_mutations_refuse_pane_and_session_selectors() {
    assert!(check_tab_only_target(&selector(), "tab.rename").is_ok());
    let mut target = selector();
    target.pane = Some(PaneTarget::Active);
    assert_error(
        check_tab_only_target(&target, "tab.rename"),
        ErrorCode::InvalidSelector,
        "tab.rename does not accept pane or session selectors",
    );
    assert!(check_pane_only_target(&target, "pane.rename").is_ok());
    target.session = Some(SessionTarget::Active);
    assert_error(
        check_pane_only_target(&target, "pane.rename"),
        ErrorCode::InvalidSelector,
        "pane.rename does not accept session selectors",
    );
}

#[test]
fn mutation_windows() {
    let open = vec![s("w1"), s("w2")];
    assert_eq!(select_window_ids(&open, &selector(), &Ok(s("w2")), "tab.rename").unwrap(), vec!["w2"]);
    let missing = ControlError::new(ErrorCode::MissingTarget, s("no active window"));
    assert_error(select_window_ids(&open, &selector(), &Err(missing), "tab.rename"), ErrorCode::MissingTarget, "no active window");
    let mut target = selector();
    target.window = Some(WindowTarget::Id { id: s("w1") });
    assert_eq!(select_window_ids(&open, &target, &Ok(s("w2")), "tab.rename").unwrap(), vec!["w1"]);
    target.window = Some(WindowTarget::Id { id: s("w5") });
    assert_error(
        select_window_ids(&open, &target, &Ok(s("w2")), "tab.rename"),
        ErrorCode::StaleTarget,
        "tab.rename cannot resolve the requested window id",
    );
    target.window = Some(WindowTarget::Index { index: 0 });
    assert_error(
        select_window_ids(&open, &target, &Ok(s("w2")), "tab.rename"),
        ErrorCode::InvalidSelector,
        "tab.rename only supports active and opaque window id selectors",
    );
}

#[test]
fn mutation_tab_filters() {
    let mut target = selector();
    assert_eq!(ids(&select_tab_entries(tabs(), &target)), vec!["t2"]);
    target.tab = Some(TabTarget::Title { title: s("Logs") });
    assert_eq!(ids(&select_tab_entries(tabs(), &target)), vec!["t2", "t3"]);
    target.tab = Some(TabTarget::Index { index: 2 });
    assert_eq!(ids(&select_tab_entries(tabs(), &target)), vec!["t3"]);
    target.tab = Some(TabTarget::Id { id: s("t9") });
    assert!(select_tab_entries(tabs(), &target).is_empty());
}

#[test]
fn one_tab_exactly() {
    assert_eq!(single_tab_entry(vec![tab("t1", "A", 0, 0)], "tab.rename").unwrap().tab_id, "t1");
    assert_error(single_tab_entry(Vec::new(), "tab.rename"), ErrorCode::MissingTarget, "tab.rename requires a target tab");
    assert_error(single_tab_entry(tabs(), "tab.rename"), ErrorCode::AmbiguousTarget, "tab.rename resolved multiple tabs");
}

#[test]
fn one_pane_exactly() {
    let panes = || vec![pane("p1", 0, false), pane("p2", 1, true)];
    assert_error(
        select_single_pane_entry(Vec::new(), &selector(), "pane.rename"),
        ErrorCode::MissingTarget,
        "target tab has no visible panes",
    );
    assert_eq!(select_single_pane_entry(panes(), &selector(), "pane.rename").unwrap().pane_id, "p2");
    let mut target = selector();
    target.pane = Some(PaneTarget::Id { id: s("p1") });
    assert_eq!(select_single_pane_entry(panes(), &target, "pane.rename").unwrap().pane_id, "p1");
    target.pane = Some(PaneTarget::Index { index: 1 });
    assert_eq!(select_single_pane_entry(panes(), &target, "pane.rename").unwrap().pane_id, "p2");
    target.pane = Some(PaneTarget::Index { index: 4 });
    assert_error(
        select_single_pane_entry(panes(), &target, "pane.rename"),
        ErrorCode::StaleTarget,
        "pane.rename cannot resolve the requested pane",
    );
    target.pane = Some(PaneTarget::Id { id: s("p1") });
    assert_error(
        select_single_pane_entry(vec![pane("p1", 0, false), pane("p1", 1, false)], &target, "pane.rename"),
        ErrorCode::AmbiguousTarget,
        "pane.rename resolved multiple panes",
    );
}

#[test]
fn one_pane_refuses_session_selectors() {
    let mut target = selector();
    target.session = Some(SessionTarget::Id { id: s("s1") });
    assert_error(
        select_single_pane_entry(vec![pane("p1", 0, true)], &target, "pane.rename"),
        ErrorCode::InvalidSelector,
        "pane.rename does not accept session selectors",
    );
    target.session = Some(SessionTarget::Active);
    assert_error(
        select_single_pane_entry(Vec::new(), &target, "pane.close"),
        ErrorCode::InvalidSelector,
        "pane.close does not accept session selectors",
    );
}

#[test]
fn destination_is_resolved_in_the_same_window() {
    let mut target = selector();
    target.window = Some(WindowTarget::Id { id: s("w2") });
    target.tab = Some(TabTarget::Index { index: 0 });
    let d = destination_target("t7", &target);
    assert!(matches!(d.window, Some(WindowTarget::Id { ref id }) if id == "w2"));
    assert!(matches!(d.tab, Some(TabTarget::Id { ref id }) if id == "t7"));
    assert!(d.pane.is_none() && d.session.is_none());
    assert!(check_distinct_destination("t1", "t2").is_ok());
    assert_error(
        check_distinct_destination("t1", "t1"),
        ErrorCode::InvalidParams,
        "tab.group.move_tab was given the tab it is moving as the destination",
    );
}

fn workspace() -> Vec<WorkspaceTab> {
    vec![
        WorkspaceTab { tab_id: s("t1"), group_id: None },
        WorkspaceTab { tab_id: s("t2"), group_id: Some(s("g1")) },
        WorkspaceTab { tab_id: s("t3"), group_id: Some(s("g1")) },
        WorkspaceTab { tab_id: s("t4"), group_id: Some(s("g2")) },
    ]
}

#[test]
fn tab_groups() {
    assert_eq!(group_of_tab(&workspace(), "t3", "tab.group.rename").unwrap(), "g1");
    assert_error(
        group_of_tab(&workspace(), "t1", "tab.group.rename"),
        ErrorCode::MissingTarget,
        "tab.group.rename requires a tab that belongs to a tab group",
    );
    assert_error(
        group_of_tab(&workspace(), "t9", "tab.group.rename"),
        ErrorCode::MissingTarget,
        "tab.group.rename requires a tab that belongs to a tab group",
    );
    assert_eq!(group_first_index(&workspace(), "g1"), Some(1));
    assert_eq!(group_first_index(&workspace(), "g2"), Some(3));
    assert_eq!(group_first_index(&workspace(), "g3"), None);
}

#[test]
fn themes_by_public_name() {
    let names = vec![s("Dark"), s("Light"), s("Solarized"), s("Solarized")];
    assert_eq!(theme_for_name(&names, "Light").unwrap(), 1);
    assert_error(theme_for_name(&names, "Neon"), ErrorCode::InvalidParams, "Neon is not an available theme");
    assert_error(theme_for_name(&names, "Solarized"), ErrorCode::InvalidParams, "Solarized matches multiple themes");
}

#[test]
fn implemented_actions_by_name() {
    let names = vec![s("app.ping"), s("tab.list"), s("tab.list")];
    assert_eq!(action_metadata_for_name(&names, "tab.list").unwrap(), 1);
    assert_error(
        action_metadata_for_name(&names, "tab.fly"),
        ErrorCode::NotAllowlisted,
        "requested action is not an implemented local-control action",
    );
}

#[test]
fn internal_errors_carry_details() {
    let e = settings_write_error("theme.set", s("disk full"));
    assert_eq!(e.code, ErrorCode::Internal);
    assert_eq!(e.message, "theme.set failed to update app settings");
    assert_eq!(e.details.as_deref(), Some("disk full"));
    let e = serialization_error(s("bad"));
    assert_eq!(e.code, ErrorCode::Internal);
    assert_eq!(e.message, "failed to serialize local-control metadata response");
    assert_eq!(e.details.as_deref(), Some("bad"));
}
