//! The single tab or pane that a metadata or configuration mutation acts
//! on, and the lookups these mutations make: tab groups, themes, actions.

use vstd::prelude::*;
use crate::control_error::{ControlError, ErrorCode, concat2};
use crate::targets::{
    PaneEntry, PaneTarget, SelectorView, TabEntry, TabTarget, TargetSelector, TargetView,
    WindowTarget, active_tabs, dup_window, focused_panes, is_error, pane_id_is,
    pane_index_is, pane_is_focused, panes_with_id, panes_with_index, same_error, tab_id_is,
    tab_index_is, tab_is_active, tab_title_is, tabs_with_id, tabs_with_index, tabs_with_title,
};
use crate::text::str_equal;

verus! {

/// A mutation of one tab refuses pane and session selectors.
pub fn check_tab_only_target(target: &TargetSelector, action: &str) -> (r: Result<(), ControlError>)
    ensures
        target@.pane is None && target@.session is None <==> r is Ok,
        r is Err ==> is_error(r, ErrorCode::InvalidSelector, action@ + " does not accept pane or session selectors"@),
{
    if target.pane.is_some() || target.session.is_some() {
        return Err(
            ControlError::new(
                ErrorCode::InvalidSelector,
                concat2(action, " does not accept pane or session selectors"),
            ),
        );
    }
    Ok(())
}

/// A mutation of one pane refuses session selectors.
pub fn check_pane_only_target(target: &TargetSelector, action: &str) -> (r: Result<(), ControlError>)
    ensures
        target@.session is None <==> r is Ok,
        r is Err ==> is_error(r, ErrorCode::InvalidSelector, action@ + " does not accept session selectors"@),
{
    if target.session.is_some() {
        return Err(ControlError::new(ErrorCode::InvalidSelector, concat2(action, " does not accept session selectors")));
    }
    Ok(())
}

/// Whether `ids` holds the identifier `id`.
pub open spec fn holds_id(ids: Seq<String>, id: Seq<char>) -> bool {
    exists|k: int| 0 <= k < ids.len() && #[trigger] ids[k]@ == id
}

/// The windows a mutation may act in: the active one (or the error of there
/// being none) when no window or the active one is named, the named one
/// when it is open, and no window named by index or title.
pub open spec fn window_ids_selection(
    r: Result<Vec<String>, ControlError>,
    window_ids: Seq<String>,
    window: Option<TargetView>,
    active_window: Result<String, ControlError>,
    action: Seq<char>,
) -> bool {
    match window {
        None | Some(TargetView::Active) => match active_window {
            Ok(a) => r matches Ok(v) && v@.len() == 1 && v@[0]@ == a@,
            Err(e) => same_error(r, e),
        },
        Some(TargetView::Id(id)) => if holds_id(window_ids, id) {
            r matches Ok(v) && v@.len() == 1 && v@[0]@ == id
        } else {
            is_error(r, ErrorCode::StaleTarget, action + " cannot resolve the requested window id"@)
        },
        Some(_) => is_error(
            r,
            ErrorCode::InvalidSelector,
            action + " only supports active and opaque window id selectors"@,
        ),
    }
}

/// The windows a mutation acts in, out of the open `window_ids`
/// ([`window_ids_selection`]).
pub fn select_window_ids(
    window_ids: &Vec<String>,
    target: &TargetSelector,
    active_window: &Result<String, ControlError>,
    action: &str,
) -> (r: Result<Vec<String>, ControlError>)
    ensures
        window_ids_selection(r, window_ids@, target@.window, *active_window, action@),
{
    match &target.window {
        None | Some(WindowTarget::Active) => match active_window {
            Ok(a) => Ok(vec![a.clone()]),
            Err(e) => Err(e.duplicate()),
        },
        Some(WindowTarget::Id { id }) => {
            let mut k: usize = 0;
            while k < window_ids.len()
                invariant
                    k <= window_ids.len(),
                    target@.window == Some(TargetView::Id(id@)),
                    forall|j: int| 0 <= j < k ==> window_ids@[j]@ != id@,
                decreases window_ids.len() - k,
            {
                if str_equal(window_ids[k].as_str(), id.as_str()) {
                    assert(window_ids@[k as int]@ == id@);
                    let v = vec![window_ids[k].clone()];
                    assert(v@[0]@ == id@);
                    return Ok(v);
                }
                k = k + 1;
            }
            Err(
                ControlError::new(
                    ErrorCode::StaleTarget,
                    concat2(action, " cannot resolve the requested window id"),
                ),
            )
        },
        Some(WindowTarget::Index { .. }) | Some(WindowTarget::Title { .. }) => Err(
            ControlError::new(
                ErrorCode::InvalidSelector,
                concat2(action, " only supports active and opaque window id selectors"),
            ),
        ),
    }
}

/// The tabs a mutation's tab selector picks: the active tab of each window
/// when none or the active one is named, else those with the named
/// identifier, index or title.
pub open spec fn mutation_tab_filter(tab: Option<TargetView>) -> spec_fn(TabEntry) -> bool {
    match tab {
        Some(TargetView::Id(id)) => tab_id_is(id),
        Some(TargetView::Index(i)) => tab_index_is(i),
        Some(TargetView::Title(t)) => tab_title_is(t),
        _ => tab_is_active(),
    }
}

/// The tabs a mutation's tab selector picks out of the tabs of its windows
/// ([`mutation_tab_filter`]).
pub fn select_tab_entries(entries: Vec<TabEntry>, target: &TargetSelector) -> (r: Vec<TabEntry>)
    ensures
        r@ == entries@.filter(mutation_tab_filter(target@.tab)),
{
    match &target.tab {
        None | Some(TabTarget::Active) => active_tabs(entries),
        Some(TabTarget::Id { id }) => tabs_with_id(entries, id.as_str()),
        Some(TabTarget::Index { index }) => tabs_with_index(entries, *index),
        Some(TabTarget::Title { title }) => tabs_with_title(entries, title.as_str()),
    }
}

/// The one tab a mutation acts on, out of those its selector picked.
pub fn single_tab_entry(entries: Vec<TabEntry>, action: &str) -> (r: Result<TabEntry, ControlError>)
    ensures
        entries@.len() == 1 ==> r == Ok::<TabEntry, ControlError>(entries@[0]),
        entries@.len() == 0 ==> is_error(r, ErrorCode::MissingTarget, action@ + " requires a target tab"@),
        entries@.len() > 1 ==> is_error(r, ErrorCode::AmbiguousTarget, action@ + " resolved multiple tabs"@),
{
    let mut entries = entries;
    if entries.len() == 1 {
        match entries.pop() {
            Some(e) => Ok(e),
            None => Err(ControlError::new(ErrorCode::MissingTarget, concat2(action, " requires a target tab"))),
        }
    } else if entries.len() == 0 {
        Err(ControlError::new(ErrorCode::MissingTarget, concat2(action, " requires a target tab")))
    } else {
        Err(ControlError::new(ErrorCode::AmbiguousTarget, concat2(action, " resolved multiple tabs")))
    }
}

/// The panes of a tab that a mutation's pane selector picks: the focused
/// one when none or the active one is named, else those with the named
/// identifier or index.
pub open spec fn mutation_pane_filter(pane: Option<TargetView>) -> spec_fn(PaneEntry) -> bool {
    match pane {
        Some(TargetView::Id(id)) => pane_id_is(id),
        Some(TargetView::Index(i)) => pane_index_is(i),
        _ => pane_is_focused(),
    }
}

/// The one pane a mutation acts on, out of the visible panes of its tab; a
/// mutation of one pane refuses session selectors.
pub fn select_single_pane_entry(entries: Vec<PaneEntry>, target: &TargetSelector, action: &str) -> (r: Result<
    PaneEntry,
    ControlError,
>)
    ensures
        ({
            let picked = entries@.filter(mutation_pane_filter(target@.pane));
            if target@.session is Some {
                is_error(r, ErrorCode::InvalidSelector, action@ + " does not accept session selectors"@)
            } else if entries@.len() == 0 {
                is_error(r, ErrorCode::MissingTarget, "target tab has no visible panes"@)
            } else if picked.len() == 1 {
                r == Ok::<PaneEntry, ControlError>(picked[0])
            } else if picked.len() == 0 {
                is_error(r, ErrorCode::StaleTarget, action@ + " cannot resolve the requested pane"@)
            } else {
                is_error(r, ErrorCode::AmbiguousTarget, action@ + " resolved multiple panes"@)
            }
        }),
{
    check_pane_only_target(target, action)?;
    if entries.len() == 0 {
        return Err(ControlError::new(ErrorCode::MissingTarget, String::from_str("target tab has no visible panes")));
    }
    let mut selected = match &target.pane {
        None | Some(PaneTarget::Active) => focused_panes(entries),
        Some(PaneTarget::Id { id }) => panes_with_id(entries, id.as_str()),
        Some(PaneTarget::Index { index }) => panes_with_index(entries, *index),
    };
    if selected.len() == 1 {
        match selected.pop() {
            Some(e) => Ok(e),
            None => Err(
                ControlError::new(ErrorCode::StaleTarget, concat2(action, " cannot resolve the requested pane")),
            ),
        }
    } else if selected.len() == 0 {
        Err(ControlError::new(ErrorCode::StaleTarget, concat2(action, " cannot resolve the requested pane")))
    } else {
        Err(ControlError::new(ErrorCode::AmbiguousTarget, concat2(action, " resolved multiple panes")))
    }
}

/// The target a move resolves its destination tab by: the tab with
/// identifier `id`, in the window the request named.
pub fn destination_target(id: &str, target: &TargetSelector) -> (r: TargetSelector)
    ensures
        r@ == (SelectorView {
            window: target@.window,
            tab: Some(TargetView::Id(id@)),
            pane: None,
            session: None,
        }),
{
    TargetSelector {
        window: dup_window(&target.window),
        tab: Some(TabTarget::Id { id: String::from_str(id) }),
        pane: None,
        session: None,
    }
}

/// A tab cannot be moved into its own group by naming itself as the
/// destination.
pub fn check_distinct_destination(tab_id: &str, destination_tab_id: &str) -> (r: Result<(), ControlError>)
    ensures
        r is Ok <==> tab_id@ != destination_tab_id@,
        r is Err ==> is_error(
            r,
            ErrorCode::InvalidParams,
            "tab.group.move_tab was given the tab it is moving as the destination"@,
        ),
{
    if str_equal(tab_id, destination_tab_id) {
        return Err(
            ControlError::new(
                ErrorCode::InvalidParams,
                String::from_str("tab.group.move_tab was given the tab it is moving as the destination"),
            ),
        );
    }
    Ok(())
}

/// The index of the first item of `s` that `p` holds of, if any.
pub open spec fn first_index_where<T>(s: Seq<T>, p: spec_fn(T) -> bool) -> Option<int> {
    if exists|k: int| 0 <= k < s.len() && p(s[k]) && forall|j: int| 0 <= j < k ==> !p(s[j]) {
        Some(choose|k: int| 0 <= k < s.len() && p(s[k]) && forall|j: int| 0 <= j < k ==> !p(s[j]))
    } else {
        None
    }
}

/// `first_index_where` is the item `p` holds of with none before it, and
/// `None` exactly when `p` holds of no item.
pub proof fn lemma_first_index_where<T>(s: Seq<T>, p: spec_fn(T) -> bool, k: int)
    requires
        0 <= k <= s.len(),
        forall|j: int| 0 <= j < k ==> !p(s[j]),
    ensures
        k < s.len() && p(s[k]) ==> first_index_where(s, p) == Some(k),
        k == s.len() ==> first_index_where(s, p) is None,
{
    if k < s.len() && p(s[k]) {
        let c = choose|c: int| 0 <= c < s.len() && p(s[c]) && forall|j: int| 0 <= j < c ==> !p(s[j]);
        assert(0 <= c < s.len() && p(s[c]) && forall|j: int| 0 <= j < c ==> !p(s[j]));
        if c < k {
            assert(!p(s[c]));
        }
        if k < c {
            assert(!p(s[k]));
        }
    }
}

/// The index of the first item of `v` that `f` accepts.
pub(crate) fn position_where<T, F: Fn(&T) -> bool>(v: &Vec<T>, f: F, Ghost(p): Ghost<spec_fn(T) -> bool>) -> (r: Option<usize>)
    requires
        forall|t: &T| #[trigger] f.requires((t,)),
        forall|t: &T, b: bool| f.ensures((t,), b) ==> b == p(*t),
    ensures
        match r {
            Some(k) => first_index_where(v@, p) == Some(k as int),
            None => first_index_where(v@, p) is None,
        },
{
    let mut k: usize = 0;
    while k < v.len()
        invariant
            forall|t: &T| #[trigger] f.requires((t,)),
            forall|t: &T, b: bool| f.ensures((t,), b) ==> b == p(*t),
            k <= v.len(),
            forall|j: int| 0 <= j < k ==> !p(v@[j]),
        decreases v.len() - k,
    {
        if f(&v[k]) {
            proof {
                lemma_first_index_where(v@, p, k as int);
            }
            return Some(k);
        }
        k = k + 1;
    }
    proof {
        lemma_first_index_where(v@, p, k as int);
    }
    None
}

/// A tab as the workspace lists it: its identifier and its group, if any.
#[derive(Debug)]
pub struct WorkspaceTab {
    pub tab_id: String,
    pub group_id: Option<String>,
}

/// Tabs whose identifier is `id`.
pub open spec fn workspace_tab_is(id: Seq<char>) -> spec_fn(WorkspaceTab) -> bool {
    |t: WorkspaceTab| t.tab_id@ == id
}

/// Tabs in the group `group_id`.
pub open spec fn in_group(group_id: Seq<char>) -> spec_fn(WorkspaceTab) -> bool {
    |t: WorkspaceTab| t.group_id matches Some(g) && g@ == group_id
}

/// The group of the tab `tab_id`: the group of the first tab of the
/// workspace with that identifier, refused when it has none.
pub fn group_of_tab(tabs: &Vec<WorkspaceTab>, tab_id: &str, action: &str) -> (r: Result<String, ControlError>)
    ensures
        match first_index_where(tabs@, workspace_tab_is(tab_id@)) {
            Some(k) if tabs@[k].group_id is Some => r matches Ok(g) && g@ == tabs@[k].group_id->0@,
            _ => is_error(r, ErrorCode::MissingTarget, action@ + " requires a tab that belongs to a tab group"@),
        },
{
    let keep = |t: &WorkspaceTab| -> (b: bool)
        ensures
            b == (t.tab_id@ == tab_id@),
        { str_equal(t.tab_id.as_str(), tab_id) };
    match position_where(tabs, keep, Ghost(workspace_tab_is(tab_id@))) {
        Some(k) => match &tabs[k].group_id {
            Some(g) => Ok(g.clone()),
            None => Err(
                ControlError::new(
                    ErrorCode::MissingTarget,
                    concat2(action, " requires a tab that belongs to a tab group"),
                ),
            ),
        },
        None => Err(
            ControlError::new(ErrorCode::MissingTarget, concat2(action, " requires a tab that belongs to a tab group")),
        ),
    }
}

/// Where the first tab of the group `group_id` sits in the tab strip.
pub fn group_first_index(tabs: &Vec<WorkspaceTab>, group_id: &str) -> (r: Option<usize>)
    ensures
        match r {
            Some(k) => first_index_where(tabs@, in_group(group_id@)) == Some(k as int),
            None => first_index_where(tabs@, in_group(group_id@)) is None,
        },
{
    let keep = |t: &WorkspaceTab| -> (b: bool)
        ensures
            b == (t.group_id matches Some(g) && g@ == group_id@),
        {
            match &t.group_id {
                Some(g) => str_equal(g.as_str(), group_id),
                None => false,
            }
        };
    position_where(tabs, keep, Ghost(in_group(group_id@)))
}

/// Names equal to `name`.
pub open spec fn named(name: Seq<char>) -> spec_fn(String) -> bool {
    |s: String| s@ == name
}

/// The theme a request names, out of the public names of the available
/// themes: the one with that name, refused when none or several have it.
pub fn theme_for_name(names: &Vec<String>, name: &str) -> (r: Result<usize, ControlError>)
    ensures
        ({
            let count = names@.filter(named(name@)).len();
            &&& count == 1 ==> (r matches Ok(k) && k < names@.len() && names@[k as int]@ == name@)
            &&& count == 0 ==> is_error(r, ErrorCode::InvalidParams, name@ + " is not an available theme"@)
            &&& count > 1 ==> is_error(r, ErrorCode::InvalidParams, name@ + " matches multiple themes"@)
        }),
{
    let mut count: usize = 0;
    let mut found: usize = 0;
    let mut k: usize = 0;
    proof {
        reveal(Seq::filter);
    }
    assert(names@.subrange(0, 0) =~= Seq::<String>::empty());
    while k < names.len()
        invariant
            k <= names.len(),
            count == names@.subrange(0, k as int).filter(named(name@)).len(),
            count <= k,
            count > 0 ==> found < names@.len() && names@[found as int]@ == name@,
        decreases names.len() - k,
    {
        proof {
            assert(names@.subrange(0, k + 1) =~= names@.subrange(0, k as int).push(names@[k as int]));
            names@.subrange(0, k as int).lemma_filter_push(names@[k as int], named(name@));
        }
        if str_equal(names[k].as_str(), name) {
            if count == 0 {
                found = k;
            }
            count = count + 1;
        }
        k = k + 1;
    }
    assert(names@.subrange(0, names@.len() as int) =~= names@);
    if count == 1 {
        Ok(found)
    } else if count == 0 {
        Err(ControlError::new(ErrorCode::InvalidParams, concat2(name, " is not an available theme")))
    } else {
        Err(ControlError::new(ErrorCode::InvalidParams, concat2(name, " matches multiple themes")))
    }
}

/// The implemented action a request asks about, out of the names of the
/// implemented actions: the first with that name.
pub fn action_metadata_for_name(names: &Vec<String>, name: &str) -> (r: Result<usize, ControlError>)
    ensures
        match first_index_where(names@, named(name@)) {
            Some(k) => r == Ok::<usize, ControlError>(k as usize),
            None => is_error(
                r,
                ErrorCode::NotAllowlisted,
                "requested action is not an implemented local-control action"@,
            ),
        },
{
    let keep = |s: &String| -> (b: bool)
        ensures
            b == (s@ == name@),
        { str_equal(s.as_str(), name) };
    match position_where(names, keep, Ghost(named(name@))) {
        Some(k) => Ok(k),
        None => Err(
            ControlError::new(
                ErrorCode::NotAllowlisted,
                String::from_str("requested action is not an implemented local-control action"),
            ),
        ),
    }
}

/// The error a failed settings write is answered with.
pub fn settings_write_error(action: &str, details: String) -> (e: ControlError)
    ensures
        e.code == ErrorCode::Internal,
        e.message@ == action@ + " failed to update app settings"@,
        e.details matches Some(d) && d@ == details@,
{
    ControlError::with_details(ErrorCode::Internal, concat2(action, " failed to update app settings"), details)
}

/// The error a response that could not be serialized is answered with.
pub fn serialization_error(details: String) -> (e: ControlError)
    ensures
        e.code == ErrorCode::Internal,
        e.message@ == "failed to serialize local-control metadata response"@,
        e.details matches Some(d) && d@ == details@,
{
    ControlError::with_details(
        ErrorCode::Internal,
        String::from_str("failed to serialize local-control metadata response"),
        details,
    )
}

} // verus!
