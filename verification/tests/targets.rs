use syntax_tree::control_error::{ControlError, ErrorCode};
use syntax_tree::targets::{
    active_session_target, explicit_matches, pane_entries_for_tab, pane_inspect_target,
    select_pane_entries, select_session_entries, select_tab_entries, select_window_entries,
    session_entry_for_pane, session_inspect_selector, single_entry, tab_entries_for_window,
    tab_inspect_target, tab_selection_forces_active_window, window_entries, window_inspect_target,
    workspace_for_window, PaneEntry, PaneTarget, SessionEntry, SessionTarget, TabEntry, TabInfo,
    TabTarget, TargetSelector, WindowEntry, WindowTarget,
};

fn s(text: &str) -> String {
    text.to_string()
}

fn selector() -> TargetSelector {
    TargetSelector { window: None, tab: None, pane: None, session: None }
}

fn windows() -> Vec<WindowEntry> {
    vec![
        WindowEntry { window_id: s("w1"), index: 0 },
        WindowEntry { window_id: s("w2"), index: 1 },
        WindowEntry { window_id: s("w3"), index: 2 },
    ]
}

fn window_ids(entries: &[WindowEntry]) -> Vec<String> {
    entries.iter().map(|e| e.window_id.clone()).collect()
}

fn tab(window: &str, id: &str, title: &str, index: usize, active: usize) -> TabEntry {
    TabEntry {
        window_id: s(window),
        window_index: 0,
        tab_id: s(id),
        title: s(title),
        index,
        workspace_active_tab_index: active,
    }
}

fn tabs() -> Vec<TabEntry> {
    vec![
        tab("w1", "t1", "Build", 0, 1),
        tab("w1", "t2", "Logs", 1, 1),
        tab("w2", "t3", "Shell", 0, 0),
    ]
}

fn tab_ids(entries: &[TabEntry]) -> Vec<String> {
    entries.iter().map(|e| e.tab_id.clone()).collect()
}

fn pane(id: &str, index: usize, focused: bool) -> PaneEntry {
    PaneEntry {
        window_id: s("w1"),
        window_index: 0,
        tab_id: s("t1"),
        tab_index: 0,
        index,
        pane_id: s(id),
        is_focused: focused,
    }
}

fn panes() -> Vec<PaneEntry> {
    vec![pane("p1", 0, false), pane("p2", 1, true), pane("p3", 2, false)]
}

fn pane_ids(entries: &[PaneEntry]) -> Vec<String> {
    entries.iter().map(|e| e.pane_id.clone()).collect()
}

fn session(id: &str, active: bool) -> SessionEntry {
    SessionEntry {
        window_id: s("w1"),
        window_index: 0,
        tab_id: s("t1"),
        tab_index: 0,
        pane_id: s(id),
        pane_index: 0,
        is_active: active,
    }
}

fn assert_error<T: std::fmt::Debug>(r: Result<T, ControlError>, code: ErrorCode, message: &str) {
    let e = r.unwrap_err();
    assert_eq!(e.code, code);
    assert_eq!(e.message, message);
}

#[test]
fn explicit_matches_wants_exactly_one() {
    assert_eq!(explicit_matches(vec![7], "tab.list", "tab id", ErrorCode::StaleTarget).unwrap(), vec![7]);
    assert_error(
        explicit_matches(Vec::<u8>::new(), "tab.list", "tab id", ErrorCode::StaleTarget),
        ErrorCode::StaleTarget,
        "tab.list cannot resolve the requested tab id",
    );
    assert_error(
        explicit_matches(vec![1, 2], "tab.list", "tab id", ErrorCode::StaleTarget),
        ErrorCode::AmbiguousTarget,
        "tab.list resolved multiple targets by tab id",
    );
}

#[test]
fn all_windows_without_a_window_selector() {
    let r = select_window_entries(windows(), &selector(), false, &Ok(s("w2")), "window.list").unwrap();
    assert_eq!(window_ids(&r), vec!["w1", "w2", "w3"]);
}

#[test]
fn forced_default_picks_the_active_window() {
    let r = select_window_entries(windows(), &selector(), true, &Ok(s("w2")), "tab.list").unwrap();
    assert_eq!(window_ids(&r), vec!["w2"]);
    let mut target = selector();
    target.window = Some(WindowTarget::Active);
    let r = select_window_entries(windows(), &target, false, &Ok(s("w3")), "window.list").unwrap();
    assert_eq!(window_ids(&r), vec!["w3"]);
}

#[test]
fn missing_active_window_is_reported_as_given() {
    let none = ControlError::new(ErrorCode::MissingTarget, s("no active window"));
    assert_error(
        select_window_entries(windows(), &selector(), true, &Err(none), "tab.list"),
        ErrorCode::MissingTarget,
        "no active window",
    );
    assert_error(
        select_window_entries(windows(), &selector(), true, &Ok(s("gone")), "tab.list"),
        ErrorCode::MissingTarget,
        "tab.list cannot resolve the requested active window",
    );
}

#[test]
fn windows_by_id_index_and_title() {
    let mut target = selector();
    target.window = Some(WindowTarget::Id { id: s("w3") });
    let r = select_window_entries(windows(), &target, false, &Ok(s("w1")), "window.list").unwrap();
    assert_eq!(window_ids(&r), vec!["w3"]);
    target.window = Some(WindowTarget::Id { id: s("w9") });
    assert_error(
        select_window_entries(windows(), &target, false, &Ok(s("w1")), "window.list"),
        ErrorCode::StaleTarget,
        "window.list cannot resolve the requested window id",
    );
    target.window = Some(WindowTarget::Index { index: 1 });
    let r = select_window_entries(windows(), &target, false, &Ok(s("w1")), "window.list").unwrap();
    assert_eq!(window_ids(&r), vec!["w2"]);
    target.window = Some(WindowTarget::Index { index: 5 });
    assert_error(
        select_window_entries(windows(), &target, false, &Ok(s("w1")), "window.list"),
        ErrorCode::StaleTarget,
        "window.list cannot resolve the requested window index",
    );
    target.window = Some(WindowTarget::Title { title: s("Main") });
    assert_error(
        select_window_entries(windows(), &target, false, &Ok(s("w1")), "window.list"),
        ErrorCode::InvalidSelector,
        "window.list only supports active, opaque window id, and window index selectors",
    );
}

#[test]
fn duplicate_window_ids_are_ambiguous() {
    let mut entries = windows();
    entries.push(WindowEntry { window_id: s("w1"), index: 3 });
    let mut target = selector();
    target.window = Some(WindowTarget::Id { id: s("w1") });
    assert_error(
        select_window_entries(entries, &target, false, &Ok(s("w1")), "window.list"),
        ErrorCode::AmbiguousTarget,
        "window.list resolved multiple targets by window id",
    );
}

#[test]
fn tab_and_pane_positions_force_the_active_window() {
    let mut target = selector();
    assert!(!tab_selection_forces_active_window(&target));
    target.tab = Some(TabTarget::Index { index: 0 });
    assert!(tab_selection_forces_active_window(&target));
    target.tab = Some(TabTarget::Id { id: s("t1") });
    assert!(!tab_selection_forces_active_window(&target));
    target.pane = Some(PaneTarget::Active);
    assert!(tab_selection_forces_active_window(&target));
}

#[test]
fn tab_selection() {
    let mut target = selector();
    assert_eq!(tab_ids(&select_tab_entries(tabs(), &target, "tab.list").unwrap()), vec!["t1", "t2", "t3"]);
    target.pane = Some(PaneTarget::Index { index: 0 });
    assert_error(
        select_tab_entries(tabs(), &target, "pane.list"),
        ErrorCode::AmbiguousTarget,
        "pane.list resolved multiple targets by active tab",
    );
    let one_window: Vec<TabEntry> = tabs().into_iter().filter(|t| t.window_id == "w1").collect();
    assert_eq!(tab_ids(&select_tab_entries(one_window, &target, "pane.list").unwrap()), vec!["t2"]);
    target.pane = None;
    target.tab = Some(TabTarget::Id { id: s("t3") });
    assert_eq!(tab_ids(&select_tab_entries(tabs(), &target, "tab.list").unwrap()), vec!["t3"]);
    target.tab = Some(TabTarget::Id { id: s("t8") });
    assert_error(
        select_tab_entries(tabs(), &target, "tab.list"),
        ErrorCode::StaleTarget,
        "tab.list cannot resolve the requested tab id",
    );
    target.tab = Some(TabTarget::Index { index: 1 });
    assert_eq!(tab_ids(&select_tab_entries(tabs(), &target, "tab.list").unwrap()), vec!["t2"]);
    target.tab = Some(TabTarget::Title { title: s("Logs") });
    assert_error(
        select_tab_entries(tabs(), &target, "tab.list"),
        ErrorCode::InvalidSelector,
        "tab.list only supports active, opaque tab id, and tab index selectors",
    );
    target.tab = Some(TabTarget::Active);
    assert_error(
        select_tab_entries(Vec::new(), &target, "tab.list"),
        ErrorCode::MissingTarget,
        "tab.list cannot resolve the requested active tab",
    );
}

#[test]
fn pane_selection() {
    let mut target = selector();
    assert_eq!(pane_ids(&select_pane_entries(panes(), &target, "pane.list").unwrap()), vec!["p1", "p2", "p3"]);
    target.pane = Some(PaneTarget::Active);
    assert_eq!(pane_ids(&select_pane_entries(panes(), &target, "pane.list").unwrap()), vec!["p2"]);
    target.pane = Some(PaneTarget::Id { id: s("p3") });
    assert_eq!(pane_ids(&select_pane_entries(panes(), &target, "pane.list").unwrap()), vec!["p3"]);
    target.pane = Some(PaneTarget::Index { index: 0 });
    assert_eq!(pane_ids(&select_pane_entries(panes(), &target, "pane.list").unwrap()), vec!["p1"]);
    target.pane = Some(PaneTarget::Index { index: 9 });
    assert_error(
        select_pane_entries(panes(), &target, "pane.list"),
        ErrorCode::StaleTarget,
        "pane.list cannot resolve the requested pane index",
    );
    target.pane = Some(PaneTarget::Active);
    assert_error(
        select_pane_entries(vec![pane("p1", 0, false)], &target, "pane.list"),
        ErrorCode::MissingTarget,
        "pane.list cannot resolve the requested active pane",
    );
}

#[test]
fn session_selection() {
    let entries = || vec![session("p1", false), session("p2", true)];
    assert_eq!(select_session_entries(entries(), None, "session.list").unwrap().len(), 2);
    let active = select_session_entries(entries(), Some(&SessionTarget::Active), "session.list").unwrap();
    assert_eq!(active.len(), 1);
    assert_eq!(active[0].pane_id, "p2");
    let by_id = select_session_entries(entries(), Some(&SessionTarget::Id { id: s("p1") }), "session.list").unwrap();
    assert_eq!(by_id[0].pane_id, "p1");
    assert_error(
        select_session_entries(entries(), Some(&SessionTarget::Id { id: s("p7") }), "session.list"),
        ErrorCode::StaleTarget,
        "session.list cannot resolve the requested session id",
    );
    assert_error(
        select_session_entries(vec![session("p1", false)], Some(&SessionTarget::Active), "session.list"),
        ErrorCode::MissingTarget,
        "session.list cannot resolve the requested active session",
    );
}

#[test]
fn active_session_request_fills_in_the_active_chain() {
    let mut target = selector();
    target.session = Some(SessionTarget::Active);
    target.tab = Some(TabTarget::Index { index: 2 });
    let r = active_session_target(&target);
    assert!(matches!(r.window, Some(WindowTarget::Active)));
    assert!(matches!(r.tab, Some(TabTarget::Index { index: 2 })));
    assert!(matches!(r.pane, Some(PaneTarget::Active)));
    assert!(matches!(r.session, Some(SessionTarget::Active)));
    // Reading it again changes nothing.
    let again = active_session_target(&r);
    assert!(matches!(again.window, Some(WindowTarget::Active)));
    assert!(matches!(again.tab, Some(TabTarget::Index { index: 2 })));
    assert!(matches!(again.pane, Some(PaneTarget::Active)));

    let mut by_id = selector();
    by_id.session = Some(SessionTarget::Id { id: s("p1") });
    let r = active_session_target(&by_id);
    assert!(r.window.is_none() && r.tab.is_none() && r.pane.is_none());
    assert!(matches!(r.session, Some(SessionTarget::Id { ref id }) if id == "p1"));
}

#[test]
fn inspection_targets_default_to_the_active_item() {
    let mut target = selector();
    target.tab = Some(TabTarget::Id { id: s("t1") });
    target.pane = Some(PaneTarget::Index { index: 1 });
    let w = window_inspect_target(&target);
    assert!(matches!(w.window, Some(WindowTarget::Active)));
    assert!(w.tab.is_none() && w.pane.is_none() && w.session.is_none());
    let t = tab_inspect_target(&target);
    assert!(t.window.is_none());
    assert!(matches!(t.tab, Some(TabTarget::Id { ref id }) if id == "t1"));
    assert!(t.pane.is_none());
    let p = pane_inspect_target(&selector());
    assert!(matches!(p.pane, Some(PaneTarget::Active)));
    let p = pane_inspect_target(&target);
    assert!(matches!(p.pane, Some(PaneTarget::Index { index: 1 })));
    assert!(matches!(session_inspect_selector(&selector()), SessionTarget::Active));
}

#[test]
fn single_entry_cases() {
    assert_eq!(single_entry(Some(vec![3]), "pane.inspect").unwrap(), 3);
    assert_error(single_entry::<u8>(None, "pane.inspect"), ErrorCode::Internal, "pane.inspect handler returned malformed metadata");
    assert_error(single_entry::<u8>(Some(vec![]), "pane.inspect"), ErrorCode::MissingTarget, "pane.inspect could not resolve a target");
    assert_error(single_entry(Some(vec![1, 2]), "pane.inspect"), ErrorCode::AmbiguousTarget, "pane.inspect resolved multiple targets");
}

#[test]
fn workspace_for_window_cases() {
    assert_eq!(workspace_for_window::<u8>(None, "tab.list").unwrap(), None);
    assert_eq!(workspace_for_window::<u8>(Some(vec![]), "tab.list").unwrap(), None);
    assert_eq!(workspace_for_window(Some(vec![4]), "tab.list").unwrap(), Some(4));
    assert_error(
        workspace_for_window(Some(vec![4, 5]), "tab.list"),
        ErrorCode::AmbiguousTarget,
        "tab.list resolved multiple workspaces in one window",
    );
}

#[test]
fn windows_are_ordered_by_identifier_text() {
    let entries = window_entries(vec![s("b"), s("é"), s("a"), s("ab"), s("z")]);
    assert_eq!(window_ids(&entries), vec!["a", "ab", "b", "z", "é"]);
    let indices: Vec<usize> = entries.iter().map(|e| e.index).collect();
    assert_eq!(indices, vec![0, 1, 2, 3, 4]);
    assert!(window_entries(Vec::new()).is_empty());
}

#[test]
fn entries_are_numbered_by_place() {
    let window = WindowEntry { window_id: s("w2"), index: 1 };
    let tabs = tab_entries_for_window(
        &window,
        vec![TabInfo { tab_id: s("t1"), title: s("A") }, TabInfo { tab_id: s("t2"), title: s("B") }],
        1,
    );
    assert_eq!(tab_ids(&tabs), vec!["t1", "t2"]);
    assert_eq!(tabs[1].index, 1);
    assert_eq!(tabs[1].window_index, 1);
    assert_eq!(tabs[0].workspace_active_tab_index, 1);
    assert_eq!(tabs[1].title, "B");
    let panes = pane_entries_for_tab(&tabs[1], vec![s("p1"), s("p2")], "p2");
    assert_eq!(pane_ids(&panes), vec!["p1", "p2"]);
    assert!(!panes[0].is_focused && panes[1].is_focused);
    assert_eq!(panes[1].tab_index, 1);
    assert_eq!(panes[1].tab_id, "t2");
    let first = panes.into_iter().next().unwrap();
    let session = session_entry_for_pane(first, true, true).unwrap();
    assert_eq!(session.pane_id, "p1");
    assert_eq!(session.pane_index, 0);
    assert!(session.is_active);
    assert!(session_entry_for_pane(pane("p9", 0, true), false, true).is_none());
}
