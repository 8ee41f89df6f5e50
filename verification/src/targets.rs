//! Target selectors of local-control requests, and how they pick windows,
//! tabs, panes and sessions out of what the app has open.
//!
//! Windows, tabs and panes are known here by the text of their identifiers;
//! the app reads them, and whatever else a selection looks at, into the entry
//! types below.

use vstd::prelude::*;
use crate::control_error::{ControlError, ErrorCode, concat2, concat3};
use crate::text::str_equal;
use crate::text_order::{sort_texts, texts_sorted};

verus! {

/// How a request names a window.
#[derive(Debug)]
pub enum WindowTarget {
    Active,
    Id { id: String },
    Index { index: u32 },
    Title { title: String },
}

/// How a request names a tab.
#[derive(Debug)]
pub enum TabTarget {
    Active,
    Id { id: String },
    Index { index: u32 },
    Title { title: String },
}

/// How a request names a pane.
#[derive(Debug)]
pub enum PaneTarget {
    Active,
    Id { id: String },
    Index { index: u32 },
}

/// How a request names a terminal session.
#[derive(Debug)]
pub enum SessionTarget {
    Active,
    Id { id: String },
}

/// What a request targets: any of a window, a tab, a pane and a session.
#[derive(Debug)]
pub struct TargetSelector {
    pub window: Option<WindowTarget>,
    pub tab: Option<TabTarget>,
    pub pane: Option<PaneTarget>,
    pub session: Option<SessionTarget>,
}

/// A selector of any level, its texts taken by their characters.
pub enum TargetView {
    Active,
    Id(Seq<char>),
    Index(u32),
    Title(Seq<char>),
}

/// A whole target selector, its texts taken by their characters.
pub struct SelectorView {
    pub window: Option<TargetView>,
    pub tab: Option<TargetView>,
    pub pane: Option<TargetView>,
    pub session: Option<TargetView>,
}

impl View for WindowTarget {
    type V = TargetView;

    open spec fn view(&self) -> TargetView {
        match self {
            WindowTarget::Active => TargetView::Active,
            WindowTarget::Id { id } => TargetView::Id(id@),
            WindowTarget::Index { index } => TargetView::Index(*index),
            WindowTarget::Title { title } => TargetView::Title(title@),
        }
    }
}

impl View for TabTarget {
    type V = TargetView;

    open spec fn view(&self) -> TargetView {
        match self {
            TabTarget::Active => TargetView::Active,
            TabTarget::Id { id } => TargetView::Id(id@),
            TabTarget::Index { index } => TargetView::Index(*index),
            TabTarget::Title { title } => TargetView::Title(title@),
        }
    }
}

impl View for PaneTarget {
    type V = TargetView;

    open spec fn view(&self) -> TargetView {
        match self {
            PaneTarget::Active => TargetView::Active,
            PaneTarget::Id { id } => TargetView::Id(id@),
            PaneTarget::Index { index } => TargetView::Index(*index),
        }
    }
}

impl View for SessionTarget {
    type V = TargetView;

    open spec fn view(&self) -> TargetView {
        match self {
            SessionTarget::Active => TargetView::Active,
            SessionTarget::Id { id } => TargetView::Id(id@),
        }
    }
}

/// The view of an optional selector.
pub open spec fn opt_view<T: View<V = TargetView>>(t: Option<T>) -> Option<TargetView> {
    match t {
        Some(x) => Some(x@),
        None => None,
    }
}

impl View for TargetSelector {
    type V = SelectorView;

    open spec fn view(&self) -> SelectorView {
        SelectorView {
            window: opt_view(self.window),
            tab: opt_view(self.tab),
            pane: opt_view(self.pane),
            session: opt_view(self.session),
        }
    }
}

impl WindowTarget {
    /// A copy of this selector.
    pub fn duplicate(&self) -> (r: Self)
        ensures
            r@ == self@,
    {
        match self {
            WindowTarget::Active => WindowTarget::Active,
            WindowTarget::Id { id } => WindowTarget::Id { id: id.clone() },
            WindowTarget::Index { index } => WindowTarget::Index { index: *index },
            WindowTarget::Title { title } => WindowTarget::Title { title: title.clone() },
        }
    }
}

impl TabTarget {
    /// A copy of this selector.
    pub fn duplicate(&self) -> (r: Self)
        ensures
            r@ == self@,
    {
        match self {
            TabTarget::Active => TabTarget::Active,
            TabTarget::Id { id } => TabTarget::Id { id: id.clone() },
            TabTarget::Index { index } => TabTarget::Index { index: *index },
            TabTarget::Title { title } => TabTarget::Title { title: title.clone() },
        }
    }
}

impl PaneTarget {
    /// A copy of this selector.
    pub fn duplicate(&self) -> (r: Self)
        ensures
            r@ == self@,
    {
        match self {
            PaneTarget::Active => PaneTarget::Active,
            PaneTarget::Id { id } => PaneTarget::Id { id: id.clone() },
            PaneTarget::Index { index } => PaneTarget::Index { index: *index },
        }
    }
}

impl SessionTarget {
    /// A copy of this selector.
    pub fn duplicate(&self) -> (r: Self)
        ensures
            r@ == self@,
    {
        match self {
            SessionTarget::Active => SessionTarget::Active,
            SessionTarget::Id { id } => SessionTarget::Id { id: id.clone() },
        }
    }
}

pub(crate) fn dup_window(t: &Option<WindowTarget>) -> (r: Option<WindowTarget>)
    ensures
        opt_view(r) == opt_view(*t),
{
    match t {
        Some(x) => Some(x.duplicate()),
        None => None,
    }
}

fn dup_tab(t: &Option<TabTarget>) -> (r: Option<TabTarget>)
    ensures
        opt_view(r) == opt_view(*t),
{
    match t {
        Some(x) => Some(x.duplicate()),
        None => None,
    }
}

fn dup_pane(t: &Option<PaneTarget>) -> (r: Option<PaneTarget>)
    ensures
        opt_view(r) == opt_view(*t),
{
    match t {
        Some(x) => Some(x.duplicate()),
        None => None,
    }
}

fn dup_session(t: &Option<SessionTarget>) -> (r: Option<SessionTarget>)
    ensures
        opt_view(r) == opt_view(*t),
{
    match t {
        Some(x) => Some(x.duplicate()),
        None => None,
    }
}

impl TargetSelector {
    /// A copy of this selector.
    pub fn duplicate(&self) -> (r: Self)
        ensures
            r@ == self@,
    {
        TargetSelector {
            window: dup_window(&self.window),
            tab: dup_tab(&self.tab),
            pane: dup_pane(&self.pane),
            session: dup_session(&self.session),
        }
    }
}

/// `sel`, or `Active` where it names nothing.
pub open spec fn or_active(sel: Option<TargetView>) -> Option<TargetView> {
    match sel {
        Some(t) => Some(t),
        None => Some(TargetView::Active),
    }
}

/// What a session request targets: a request for the active session is
/// read as one for the active session of the active pane of the active tab
/// of the active window, wherever it names no window, tab or pane itself.
pub open spec fn session_request_target(t: SelectorView) -> SelectorView {
    if t.session == Some(TargetView::Active) {
        SelectorView {
            window: or_active(t.window),
            tab: or_active(t.tab),
            pane: or_active(t.pane),
            session: t.session,
        }
    } else {
        t
    }
}

/// [`session_request_target`] of `target`.
pub fn active_session_target(target: &TargetSelector) -> (r: TargetSelector)
    ensures
        r@ == session_request_target(target@),
        target@.session != Some(TargetView::Active) ==> r@ == target@,
{
    if !matches!(target.session, Some(SessionTarget::Active)) {
        return target.duplicate();
    }
    TargetSelector {
        window: match &target.window {
            Some(w) => Some(w.duplicate()),
            None => Some(WindowTarget::Active),
        },
        tab: match &target.tab {
            Some(t) => Some(t.duplicate()),
            None => Some(TabTarget::Active),
        },
        pane: match &target.pane {
            Some(p) => Some(p.duplicate()),
            None => Some(PaneTarget::Active),
        },
        session: dup_session(&target.session),
    }
}

/// The entries of `entries` that `keep` accepts, in their order.
pub(crate) fn retain_where<T, F: Fn(&T) -> bool>(entries: Vec<T>, keep: F, Ghost(p): Ghost<spec_fn(T) -> bool>) -> (kept: Vec<T>)
    requires
        forall|t: &T| #[trigger] keep.requires((t,)),
        forall|t: &T, b: bool| keep.ensures((t,), b) ==> b == p(*t),
    ensures
        kept@ == entries@.filter(p),
{
    let ghost orig = entries@;
    let mut rest = entries;
    let mut kept: Vec<T> = Vec::new();
    assert(orig.subrange(0, 0) =~= Seq::<T>::empty());
    proof {
        reveal(Seq::filter);
    }
    assert(orig.subrange(0, orig.len() as int) =~= orig);
    while rest.len() > 0
        invariant
            forall|t: &T| #[trigger] keep.requires((t,)),
            forall|t: &T, b: bool| keep.ensures((t,), b) ==> b == p(*t),
            rest.len() <= orig.len(),
            rest@ == orig.subrange(orig.len() - rest.len(), orig.len() as int),
            kept@ == orig.subrange(0, orig.len() - rest.len()).filter(p),
        decreases rest.len(),
    {
        let ghost k = orig.len() - rest.len();
        let e = rest.remove(0);
        assert(e == orig[k]);
        assert(orig.subrange(0, k + 1) =~= orig.subrange(0, k).push(e));
        proof {
            orig.subrange(0, k).lemma_filter_push(e, p);
        }
        assert(rest@ =~= orig.subrange(orig.len() - rest.len(), orig.len() as int));
        if keep(&e) {
            kept.push(e);
        }
    }
    kept
}

/// The message of an empty selection: `action` could not resolve `selector`.
pub open spec fn unresolved_message(action: Seq<char>, selector: Seq<char>) -> Seq<char> {
    action + " cannot resolve the requested "@ + selector
}

/// The message of a selection that matched several targets.
pub open spec fn ambiguous_message(action: Seq<char>, selector: Seq<char>) -> Seq<char> {
    action + " resolved multiple targets by "@ + selector
}

/// What an explicit selector is answered with, given what it matched: the
/// one match, `missing_code` when it matched nothing, and an ambiguity error
/// when it matched several.
pub open spec fn explicit_outcome<T>(
    r: Result<Vec<T>, ControlError>,
    matched: Seq<T>,
    action: Seq<char>,
    selector: Seq<char>,
    missing_code: ErrorCode,
) -> bool {
    if matched.len() == 0 {
        r matches Err(e) && e.code == missing_code && e.message@ == unresolved_message(action, selector)
    } else if matched.len() == 1 {
        r matches Ok(v) && v@ == matched
    } else {
        r matches Err(e) && e.code == ErrorCode::AmbiguousTarget && e.message@ == ambiguous_message(
            action,
            selector,
        )
    }
}

/// Accepts an explicit selection only when it matched exactly one target.
pub fn explicit_matches<T>(matches: Vec<T>, action: &str, selector: &str, missing_code: ErrorCode) -> (r:
    Result<Vec<T>, ControlError>)
    ensures
        explicit_outcome(r, matches@, action@, selector@, missing_code),
{
    if matches.len() == 0 {
        Err(ControlError::new(missing_code, concat3(action, " cannot resolve the requested ", selector)))
    } else if matches.len() == 1 {
        Ok(matches)
    } else {
        Err(
            ControlError::new(
                ErrorCode::AmbiguousTarget,
                concat3(action, " resolved multiple targets by ", selector),
            ),
        )
    }
}

/// A window the app has open: its identifier and its place among the
/// windows, ordered by identifier.
#[derive(Debug)]
pub struct WindowEntry {
    pub window_id: String,
    pub index: usize,
}

/// A tab: its window, its identifier and title, its place in the window,
/// and which tab of that window is the active one.
#[derive(Debug)]
pub struct TabEntry {
    pub window_id: String,
    pub window_index: usize,
    pub tab_id: String,
    pub title: String,
    pub index: usize,
    pub workspace_active_tab_index: usize,
}

/// A visible pane of a tab: where it sits, its identifier, and whether it
/// is the tab's focused pane.
#[derive(Debug)]
pub struct PaneEntry {
    pub window_id: String,
    pub window_index: usize,
    pub tab_id: String,
    pub tab_index: usize,
    pub index: usize,
    pub pane_id: String,
    pub is_focused: bool,
}

/// A pane that holds a terminal session, and whether that session is the
/// active one of its tab.
#[derive(Debug)]
pub struct SessionEntry {
    pub window_id: String,
    pub window_index: usize,
    pub tab_id: String,
    pub tab_index: usize,
    pub pane_id: String,
    pub pane_index: usize,
    pub is_active: bool,
}

/// An error with the same code and message as `e`.
pub open spec fn same_error<T>(r: Result<T, ControlError>, e: ControlError) -> bool {
    r matches Err(f) && f.code == e.code && f.message@ == e.message@
}

/// An error with `code` and `message`.
pub open spec fn is_error<T>(r: Result<T, ControlError>, code: ErrorCode, message: Seq<char>) -> bool {
    r matches Err(f) && f.code == code && f.message@ == message
}

/// Windows whose identifier is `id`.
pub open spec fn window_id_is(id: Seq<char>) -> spec_fn(WindowEntry) -> bool {
    |e: WindowEntry| e.window_id@ == id
}

/// Windows whose index, taken as a `u32`, is `i`.
pub open spec fn window_index_is(i: u32) -> spec_fn(WindowEntry) -> bool {
    |e: WindowEntry| e.index as u32 == i
}

/// How a window selector picks from `entries`. With no window named, all
/// windows, unless `force_active_default` asks for the active one; the
/// active window is `active_window`, or the error of there being none.
pub open spec fn window_selection(
    r: Result<Vec<WindowEntry>, ControlError>,
    entries: Seq<WindowEntry>,
    window: Option<TargetView>,
    force_active_default: bool,
    active_window: Result<String, ControlError>,
    action: Seq<char>,
) -> bool {
    if window is None && !force_active_default {
        r matches Ok(v) && v@ == entries
    } else if window is None || window == Some(TargetView::Active) {
        match active_window {
            Ok(a) => explicit_outcome(
                r,
                entries.filter(window_id_is(a@)),
                action,
                "active window"@,
                ErrorCode::MissingTarget,
            ),
            Err(e) => same_error(r, e),
        }
    } else {
        match window->0 {
            TargetView::Id(id) => explicit_outcome(
                r,
                entries.filter(window_id_is(id)),
                action,
                "window id"@,
                ErrorCode::StaleTarget,
            ),
            TargetView::Index(i) => explicit_outcome(
                r,
                entries.filter(window_index_is(i)),
                action,
                "window index"@,
                ErrorCode::StaleTarget,
            ),
            _ => is_error(
                r,
                ErrorCode::InvalidSelector,
                action + " only supports active, opaque window id, and window index selectors"@,
            ),
        }
    }
}

fn windows_with_id(entries: Vec<WindowEntry>, id: &str) -> (r: Vec<WindowEntry>)
    ensures
        r@ == entries@.filter(window_id_is(id@)),
{
    let keep = |e: &WindowEntry| -> (b: bool)
        ensures
            b == (e.window_id@ == id@),
        { str_equal(e.window_id.as_str(), id) };
    retain_where(entries, keep, Ghost(window_id_is(id@)))
}

fn windows_with_index(entries: Vec<WindowEntry>, i: u32) -> (r: Vec<WindowEntry>)
    ensures
        r@ == entries@.filter(window_index_is(i)),
{
    let keep = |e: &WindowEntry| -> (b: bool)
        ensures
            b == (e.index as u32 == i),
        { e.index as u32 == i };
    retain_where(entries, keep, Ghost(window_index_is(i)))
}

fn active_windows(entries: Vec<WindowEntry>, active_window: &Result<String, ControlError>, action: &str) -> (r:
    Result<Vec<WindowEntry>, ControlError>)
    ensures
        match *active_window {
            Ok(a) => explicit_outcome(
                r,
                entries@.filter(window_id_is(a@)),
                action@,
                "active window"@,
                ErrorCode::MissingTarget,
            ),
            Err(e) => same_error(r, e),
        },
{
    match active_window {
        Ok(a) => explicit_matches(windows_with_id(entries, a.as_str()), action, "active window", ErrorCode::MissingTarget),
        Err(e) => Err(e.duplicate()),
    }
}

/// The windows a request's window selector picks out of `entries`
/// ([`window_selection`]).
pub fn select_window_entries(
    entries: Vec<WindowEntry>,
    target: &TargetSelector,
    force_active_default: bool,
    active_window: &Result<String, ControlError>,
    action: &str,
) -> (r: Result<Vec<WindowEntry>, ControlError>)
    ensures
        window_selection(r, entries@, target@.window, force_active_default, *active_window, action@),
{
    match &target.window {
        None => {
            if force_active_default {
                active_windows(entries, active_window, action)
            } else {
                Ok(entries)
            }
        },
        Some(WindowTarget::Active) => active_windows(entries, active_window, action),
        Some(WindowTarget::Id { id }) => explicit_matches(
            windows_with_id(entries, id.as_str()),
            action,
            "window id",
            ErrorCode::StaleTarget,
        ),
        Some(WindowTarget::Index { index }) => explicit_matches(
            windows_with_index(entries, *index),
            action,
            "window index",
            ErrorCode::StaleTarget,
        ),
        Some(WindowTarget::Title { .. }) => Err(
            ControlError::new(
                ErrorCode::InvalidSelector,
                concat2(action, " only supports active, opaque window id, and window index selectors"),
            ),
        ),
    }
}

/// Tabs that are the active tab of their window.
pub open spec fn tab_is_active() -> spec_fn(TabEntry) -> bool {
    |e: TabEntry| e.index == e.workspace_active_tab_index
}

/// Tabs whose identifier is `id`.
pub open spec fn tab_id_is(id: Seq<char>) -> spec_fn(TabEntry) -> bool {
    |e: TabEntry| e.tab_id@ == id
}

/// Tabs whose index, taken as a `u32`, is `i`.
pub open spec fn tab_index_is(i: u32) -> spec_fn(TabEntry) -> bool {
    |e: TabEntry| e.index as u32 == i
}

/// Tabs whose title is `title`.
pub open spec fn tab_title_is(title: Seq<char>) -> spec_fn(TabEntry) -> bool {
    |e: TabEntry| e.title@ == title
}

/// A selector that names the active item or one by index.
pub open spec fn active_or_index(t: Option<TargetView>) -> bool {
    t == Some(TargetView::Active) || t matches Some(TargetView::Index(_))
}

/// Whether a tab listing is confined to the active window: it is when the
/// tab or the pane is named as the active one or by index, which only means
/// something within one window.
pub fn tab_selection_forces_active_window(target: &TargetSelector) -> (b: bool)
    ensures
        b == (active_or_index(target@.tab) || active_or_index(target@.pane)),
{
    matches!(target.tab, Some(TabTarget::Active) | Some(TabTarget::Index { .. })) || matches!(
        target.pane,
        Some(PaneTarget::Active) | Some(PaneTarget::Index { .. })
    )
}

/// How a tab selector picks from the tabs of the selected windows. With no
/// tab named, all of them, unless the pane is named as the active one or by
/// index, which asks for the active tab.
pub open spec fn tab_selection(
    r: Result<Vec<TabEntry>, ControlError>,
    entries: Seq<TabEntry>,
    target: SelectorView,
    action: Seq<char>,
) -> bool {
    if target.tab is None && !active_or_index(target.pane) {
        r matches Ok(v) && v@ == entries
    } else if target.tab is None || target.tab == Some(TargetView::Active) {
        explicit_outcome(r, entries.filter(tab_is_active()), action, "active tab"@, ErrorCode::MissingTarget)
    } else {
        match target.tab->0 {
            TargetView::Id(id) => explicit_outcome(
                r,
                entries.filter(tab_id_is(id)),
                action,
                "tab id"@,
                ErrorCode::StaleTarget,
            ),
            TargetView::Index(i) => explicit_outcome(
                r,
                entries.filter(tab_index_is(i)),
                action,
                "tab index"@,
                ErrorCode::StaleTarget,
            ),
            _ => is_error(
                r,
                ErrorCode::InvalidSelector,
                action + " only supports active, opaque tab id, and tab index selectors"@,
            ),
        }
    }
}

pub(crate) fn active_tabs(entries: Vec<TabEntry>) -> (r: Vec<TabEntry>)
    ensures
        r@ == entries@.filter(tab_is_active()),
{
    let keep = |e: &TabEntry| -> (b: bool)
        ensures
            b == (e.index == e.workspace_active_tab_index),
        { e.index == e.workspace_active_tab_index };
    retain_where(entries, keep, Ghost(tab_is_active()))
}

pub(crate) fn tabs_with_id(entries: Vec<TabEntry>, id: &str) -> (r: Vec<TabEntry>)
    ensures
        r@ == entries@.filter(tab_id_is(id@)),
{
    let keep = |e: &TabEntry| -> (b: bool)
        ensures
            b == (e.tab_id@ == id@),
        { str_equal(e.tab_id.as_str(), id) };
    retain_where(entries, keep, Ghost(tab_id_is(id@)))
}

pub(crate) fn tabs_with_index(entries: Vec<TabEntry>, i: u32) -> (r: Vec<TabEntry>)
    ensures
        r@ == entries@.filter(tab_index_is(i)),
{
    let keep = |e: &TabEntry| -> (b: bool)
        ensures
            b == (e.index as u32 == i),
        { e.index as u32 == i };
    retain_where(entries, keep, Ghost(tab_index_is(i)))
}

pub(crate) fn tabs_with_title(entries: Vec<TabEntry>, title: &str) -> (r: Vec<TabEntry>)
    ensures
        r@ == entries@.filter(tab_title_is(title@)),
{
    let keep = |e: &TabEntry| -> (b: bool)
        ensures
            b == (e.title@ == title@),
        { str_equal(e.title.as_str(), title) };
    retain_where(entries, keep, Ghost(tab_title_is(title@)))
}

/// The tabs a request's tab selector picks out of the tabs of the windows
/// it selected ([`tab_selection`]).
pub fn select_tab_entries(entries: Vec<TabEntry>, target: &TargetSelector, action: &str) -> (r: Result<
    Vec<TabEntry>,
    ControlError,
>)
    ensures
        tab_selection(r, entries@, target@, action@),
{
    let requires_active_tab_default = matches!(
        target.pane,
        Some(PaneTarget::Active) | Some(PaneTarget::Index { .. })
    );
    match &target.tab {
        None => {
            if requires_active_tab_default {
                explicit_matches(active_tabs(entries), action, "active tab", ErrorCode::MissingTarget)
            } else {
                Ok(entries)
            }
        },
        Some(TabTarget::Active) => explicit_matches(
            active_tabs(entries),
            action,
            "active tab",
            ErrorCode::MissingTarget,
        ),
        Some(TabTarget::Id { id }) => explicit_matches(
            tabs_with_id(entries, id.as_str()),
            action,
            "tab id",
            ErrorCode::StaleTarget,
        ),
        Some(TabTarget::Index { index }) => explicit_matches(
            tabs_with_index(entries, *index),
            action,
            "tab index",
            ErrorCode::StaleTarget,
        ),
        Some(TabTarget::Title { .. }) => Err(
            ControlError::new(
                ErrorCode::InvalidSelector,
                concat2(action, " only supports active, opaque tab id, and tab index selectors"),
            ),
        ),
    }
}

/// Panes that are the focused pane of their tab.
pub open spec fn pane_is_focused() -> spec_fn(PaneEntry) -> bool {
    |e: PaneEntry| e.is_focused
}

/// Panes whose identifier is `id`.
pub open spec fn pane_id_is(id: Seq<char>) -> spec_fn(PaneEntry) -> bool {
    |e: PaneEntry| e.pane_id@ == id
}

/// Panes whose index, taken as a `u32`, is `i`.
pub open spec fn pane_index_is(i: u32) -> spec_fn(PaneEntry) -> bool {
    |e: PaneEntry| e.index as u32 == i
}

/// How a pane selector picks from the panes of the selected tabs.
pub open spec fn pane_selection(
    r: Result<Vec<PaneEntry>, ControlError>,
    entries: Seq<PaneEntry>,
    pane: Option<TargetView>,
    action: Seq<char>,
) -> bool {
    match pane {
        None => r matches Ok(v) && v@ == entries,
        Some(TargetView::Id(id)) => explicit_outcome(
            r,
            entries.filter(pane_id_is(id)),
            action,
            "pane id"@,
            ErrorCode::StaleTarget,
        ),
        Some(TargetView::Index(i)) => explicit_outcome(
            r,
            entries.filter(pane_index_is(i)),
            action,
            "pane index"@,
            ErrorCode::StaleTarget,
        ),
        Some(_) => explicit_outcome(
            r,
            entries.filter(pane_is_focused()),
            action,
            "active pane"@,
            ErrorCode::MissingTarget,
        ),
    }
}

pub(crate) fn focused_panes(entries: Vec<PaneEntry>) -> (r: Vec<PaneEntry>)
    ensures
        r@ == entries@.filter(pane_is_focused()),
{
    let keep = |e: &PaneEntry| -> (b: bool)
        ensures
            b == e.is_focused,
        { e.is_focused };
    retain_where(entries, keep, Ghost(pane_is_focused()))
}

pub(crate) fn panes_with_id(entries: Vec<PaneEntry>, id: &str) -> (r: Vec<PaneEntry>)
    ensures
        r@ == entries@.filter(pane_id_is(id@)),
{
    let keep = |e: &PaneEntry| -> (b: bool)
        ensures
            b == (e.pane_id@ == id@),
        { str_equal(e.pane_id.as_str(), id) };
    retain_where(entries, keep, Ghost(pane_id_is(id@)))
}

pub(crate) fn panes_with_index(entries: Vec<PaneEntry>, i: u32) -> (r: Vec<PaneEntry>)
    ensures
        r@ == entries@.filter(pane_index_is(i)),
{
    let keep = |e: &PaneEntry| -> (b: bool)
        ensures
            b == (e.index as u32 == i),
        { e.index as u32 == i };
    retain_where(entries, keep, Ghost(pane_index_is(i)))
}

/// The panes a request's pane selector picks out of the panes of the tabs
/// it selected ([`pane_selection`]).
pub fn select_pane_entries(entries: Vec<PaneEntry>, target: &TargetSelector, action: &str) -> (r: Result<
    Vec<PaneEntry>,
    ControlError,
>)
    ensures
        pane_selection(r, entries@, target@.pane, action@),
{
    match &target.pane {
        None => Ok(entries),
        Some(PaneTarget::Active) => explicit_matches(
            focused_panes(entries),
            action,
            "active pane",
            ErrorCode::MissingTarget,
        ),
        Some(PaneTarget::Id { id }) => explicit_matches(
            panes_with_id(entries, id.as_str()),
            action,
            "pane id",
            ErrorCode::StaleTarget,
        ),
        Some(PaneTarget::Index { index }) => explicit_matches(
            panes_with_index(entries, *index),
            action,
            "pane index",
            ErrorCode::StaleTarget,
        ),
    }
}

/// Sessions that are the active session of their tab.
pub open spec fn session_is_active() -> spec_fn(SessionEntry) -> bool {
    |e: SessionEntry| e.is_active
}

/// Sessions of the pane whose identifier is `id`.
pub open spec fn session_id_is(id: Seq<char>) -> spec_fn(SessionEntry) -> bool {
    |e: SessionEntry| e.pane_id@ == id
}

/// How a session selector picks from the sessions of the selected panes.
pub open spec fn session_selection(
    r: Result<Vec<SessionEntry>, ControlError>,
    entries: Seq<SessionEntry>,
    session: Option<TargetView>,
    action: Seq<char>,
) -> bool {
    match session {
        None => r matches Ok(v) && v@ == entries,
        Some(TargetView::Id(id)) => explicit_outcome(
            r,
            entries.filter(session_id_is(id)),
            action,
            "session id"@,
            ErrorCode::StaleTarget,
        ),
        Some(_) => explicit_outcome(
            r,
            entries.filter(session_is_active()),
            action,
            "active session"@,
            ErrorCode::MissingTarget,
        ),
    }
}

/// The sessions a session selector picks out of `entries`
/// ([`session_selection`]).
pub fn select_session_entries(entries: Vec<SessionEntry>, session: Option<&SessionTarget>, action: &str) -> (r:
    Result<Vec<SessionEntry>, ControlError>)
    ensures
        session_selection(
            r,
            entries@,
            match session {
                Some(s) => Some(s@),
                None => None,
            },
            action@,
        ),
{
    match session {
        None => Ok(entries),
        Some(SessionTarget::Active) => {
            let keep = |e: &SessionEntry| -> (b: bool)
                ensures
                    b == e.is_active,
                { e.is_active };
            explicit_matches(
                retain_where(entries, keep, Ghost(session_is_active())),
                action,
                "active session",
                ErrorCode::MissingTarget,
            )
        },
        Some(SessionTarget::Id { id }) => {
            let keep = |e: &SessionEntry| -> (b: bool)
                ensures
                    b == (e.pane_id@ == id@),
                { str_equal(e.pane_id.as_str(), id.as_str()) };
            explicit_matches(
                retain_where(entries, keep, Ghost(session_id_is(id@))),
                action,
                "session id",
                ErrorCode::StaleTarget,
            )
        },
    }
}

/// The one item of a listing, or why there is not exactly one: a listing
/// that is missing is malformed, an empty one resolved nothing, a longer one
/// several targets.
pub fn single_entry<T>(items: Option<Vec<T>>, action: &str) -> (r: Result<T, ControlError>)
    ensures
        match items {
            None => is_error(r, ErrorCode::Internal, action@ + " handler returned malformed metadata"@),
            Some(v) => if v@.len() == 1 {
                r == Ok::<T, ControlError>(v@[0])
            } else if v@.len() == 0 {
                is_error(r, ErrorCode::MissingTarget, action@ + " could not resolve a target"@)
            } else {
                is_error(r, ErrorCode::AmbiguousTarget, action@ + " resolved multiple targets"@)
            },
        },
{
    match items {
        None => Err(ControlError::new(ErrorCode::Internal, concat2(action, " handler returned malformed metadata"))),
        Some(mut v) => {
            if v.len() == 1 {
                match v.pop() {
                    Some(item) => Ok(item),
                    None => Err(ControlError::new(ErrorCode::MissingTarget, concat2(action, " could not resolve a target"))),
                }
            } else if v.len() == 0 {
                Err(ControlError::new(ErrorCode::MissingTarget, concat2(action, " could not resolve a target")))
            } else {
                Err(ControlError::new(ErrorCode::AmbiguousTarget, concat2(action, " resolved multiple targets")))
            }
        },
    }
}

/// The workspace of a window, given the workspaces the window holds (none
/// when it holds no views of that kind): at most one is expected.
pub fn workspace_for_window<T>(workspaces: Option<Vec<T>>, action: &str) -> (r: Result<Option<T>, ControlError>)
    ensures
        match workspaces {
            None => r == Ok::<Option<T>, ControlError>(None),
            Some(v) => if v@.len() == 0 {
                r == Ok::<Option<T>, ControlError>(None)
            } else if v@.len() == 1 {
                r == Ok::<Option<T>, ControlError>(Some(v@[0]))
            } else {
                is_error(r, ErrorCode::AmbiguousTarget, action@ + " resolved multiple workspaces in one window"@)
            },
        },
{
    match workspaces {
        None => Ok(None),
        Some(mut v) => {
            if v.len() == 0 {
                Ok(None)
            } else if v.len() == 1 {
                Ok(v.pop())
            } else {
                Err(
                    ControlError::new(
                        ErrorCode::AmbiguousTarget,
                        concat2(action, " resolved multiple workspaces in one window"),
                    ),
                )
            }
        },
    }
}

/// What a window inspection lists: the named window, the active one by
/// default, and nothing below it.
pub fn window_inspect_target(target: &TargetSelector) -> (r: TargetSelector)
    ensures
        r@ == (SelectorView { window: or_active(target@.window), tab: None, pane: None, session: None }),
{
    TargetSelector {
        window: match &target.window {
            Some(w) => Some(w.duplicate()),
            None => Some(WindowTarget::Active),
        },
        tab: None,
        pane: None,
        session: None,
    }
}

/// What a tab inspection lists: the named tab, the active one by default,
/// in the named window, and nothing below it.
pub fn tab_inspect_target(target: &TargetSelector) -> (r: TargetSelector)
    ensures
        r@ == (SelectorView { window: target@.window, tab: or_active(target@.tab), pane: None, session: None }),
{
    TargetSelector {
        window: dup_window(&target.window),
        tab: match &target.tab {
            Some(t) => Some(t.duplicate()),
            None => Some(TabTarget::Active),
        },
        pane: None,
        session: None,
    }
}

/// What a pane inspection, and a selection read or write, acts on: the
/// named pane, the active one by default, in the named window and tab.
pub fn pane_inspect_target(target: &TargetSelector) -> (r: TargetSelector)
    ensures
        r@ == (SelectorView {
            window: target@.window,
            tab: target@.tab,
            pane: or_active(target@.pane),
            session: None,
        }),
{
    TargetSelector {
        window: dup_window(&target.window),
        tab: dup_tab(&target.tab),
        pane: match &target.pane {
            Some(p) => Some(p.duplicate()),
            None => Some(PaneTarget::Active),
        },
        session: None,
    }
}

/// The session selector a session inspection uses: the named one, the
/// active one by default.
pub fn session_inspect_selector(target: &TargetSelector) -> (r: SessionTarget)
    ensures
        Some(r@) == or_active(target@.session),
{
    match &target.session {
        Some(s) => s.duplicate(),
        None => SessionTarget::Active,
    }
}

/// Window entries for `ids`, each at its place in the list.
pub fn windows_of_ids(ids: Vec<String>) -> (r: Vec<WindowEntry>)
    ensures
        r@.len() == ids@.len(),
        forall|k: int| #![trigger r@[k]] 0 <= k < ids@.len() ==> r@[k].window_id == ids@[k] && r@[k].index == k,
{
    let ghost orig = ids@;
    let n = ids.len();
    let mut rest = ids;
    let mut r: Vec<WindowEntry> = Vec::new();
    let mut k: usize = 0;
    while rest.len() > 0
        invariant
            orig.len() == n,
            k + rest.len() == orig.len(),
            rest@ == orig.subrange(k as int, orig.len() as int),
            r@.len() == k,
            forall|j: int| #![trigger r@[j]] 0 <= j < k ==> r@[j].window_id == orig[j] && r@[j].index == j,
        decreases rest.len(),
    {
        let id = rest.remove(0);
        assert(id == orig[k as int]);
        assert(rest@ =~= orig.subrange(k + 1, orig.len() as int));
        r.push(WindowEntry { window_id: id, index: k });
        k = k + 1;
    }
    r
}

/// The identifiers of a list of windows.
pub open spec fn window_ids_of(entries: Seq<WindowEntry>) -> Seq<String> {
    entries.map_values(|e: WindowEntry| e.window_id)
}

/// The windows the app has open, ordered by the text of their identifiers
/// and numbered in that order.
pub fn window_entries(ids: Vec<String>) -> (r: Vec<WindowEntry>)
    ensures
        texts_sorted(window_ids_of(r@)),
        window_ids_of(r@).to_multiset() == ids@.to_multiset(),
        forall|k: int| #![trigger r@[k]] 0 <= k < r@.len() ==> r@[k].index == k,
{
    let sorted = sort_texts(ids);
    let r = windows_of_ids(sorted);
    assert(window_ids_of(r@) =~= sorted@);
    r
}

/// Only a request for the active session is widened: a request that names
/// no session, or a session by its id, targets exactly the windows, tabs,
/// panes and sessions it names (with no selector at all, every session).
/// A request for the active session keeps the session, and each of window,
/// tab and pane it names, and asks for the active one of each it leaves out.
pub proof fn lemma_session_target_widens_only_active(t: SelectorView)
    ensures
        t.session != Some(TargetView::Active) ==> session_request_target(t) == t,
        t.session == Some(TargetView::Active) ==> {
            let r = session_request_target(t);
            &&& r.session == t.session
            &&& r.window == (if t.window is Some { t.window } else { Some(TargetView::Active) })
            &&& r.tab == (if t.tab is Some { t.tab } else { Some(TargetView::Active) })
            &&& r.pane == (if t.pane is Some { t.pane } else { Some(TargetView::Active) })
        },
{
}

/// Reading a session request's target twice changes nothing more than
/// reading it once.
pub proof fn lemma_session_target_idempotent(t: SelectorView)
    ensures
        session_request_target(session_request_target(t)) == session_request_target(t),
{
}

/// A selection through an explicit selector that succeeds yields exactly
/// one window, tab, pane or session.
pub proof fn lemma_explicit_selection_is_single<T>(
    r: Result<Vec<T>, ControlError>,
    matched: Seq<T>,
    action: Seq<char>,
    selector: Seq<char>,
    missing_code: ErrorCode,
)
    requires
        explicit_outcome(r, matched, action, selector, missing_code),
        r is Ok,
    ensures
        r->Ok_0@.len() == 1,
        r->Ok_0@ == matched,
{
}

/// A window selection that names a window, or asks for the active one,
/// yields exactly one window when it succeeds, and that window is one of
/// the open ones.
pub proof fn lemma_named_window_is_single(
    r: Result<Vec<WindowEntry>, ControlError>,
    entries: Seq<WindowEntry>,
    window: Option<TargetView>,
    force_active_default: bool,
    active_window: Result<String, ControlError>,
    action: Seq<char>,
)
    requires
        window_selection(r, entries, window, force_active_default, active_window, action),
        window is Some || force_active_default,
        r is Ok,
    ensures
        r->Ok_0@.len() == 1,
        entries.contains(r->Ok_0@[0]),
{
    let v = r->Ok_0@;
    let p = if window is None || window == Some(TargetView::Active) {
        window_id_is(active_window->Ok_0@)
    } else {
        match window->0 {
            TargetView::Id(id) => window_id_is(id),
            TargetView::Index(i) => window_index_is(i),
            _ => window_id_is(Seq::empty()),
        }
    };
    assert(v == entries.filter(p));
    assert(entries.filter(p).contains(v[0]));
    entries.lemma_filter_contains_rev(p, v[0]);
}

/// Whatever a tab selection yields are tabs of the selected windows, in
/// their order.
pub proof fn lemma_tab_selection_keeps_order(
    r: Result<Vec<TabEntry>, ControlError>,
    entries: Seq<TabEntry>,
    target: SelectorView,
    action: Seq<char>,
)
    requires
        tab_selection(r, entries, target, action),
        r is Ok,
    ensures
        exists|p: spec_fn(TabEntry) -> bool| r->Ok_0@ == #[trigger] entries.filter(p),
{
    if target.tab is None && !active_or_index(target.pane) {
        assert(entries.filter(|e: TabEntry| true) =~= entries) by {
            lemma_filter_all(entries);
        }
        assert(r->Ok_0@ == entries.filter(|e: TabEntry| true));
    } else if target.tab is None || target.tab == Some(TargetView::Active) {
        assert(r->Ok_0@ == entries.filter(tab_is_active()));
    } else {
        match target.tab->0 {
            TargetView::Id(id) => assert(r->Ok_0@ == entries.filter(tab_id_is(id))),
            TargetView::Index(i) => assert(r->Ok_0@ == entries.filter(tab_index_is(i))),
            _ => {},
        }
    }
}

proof fn lemma_filter_all<T>(s: Seq<T>)
    ensures
        s.filter(|e: T| true) == s,
    decreases s.len(),
{
    reveal(Seq::filter);
    if s.len() > 0 {
        lemma_filter_all(s.drop_last());
        assert(s.drop_last().push(s.last()) =~= s);
    }
}

/// A tab as its window's workspace lists it.
#[derive(Debug)]
pub struct TabInfo {
    pub tab_id: String,
    pub title: String,
}

/// The tabs of `window`, its workspace listing `tabs` with the tab at
/// `active_tab_index` active, each numbered by its place.
pub fn tab_entries_for_window(window: &WindowEntry, tabs: Vec<TabInfo>, active_tab_index: usize) -> (r: Vec<
    TabEntry,
>)
    ensures
        r@.len() == tabs@.len(),
        forall|k: int|
            #![trigger r@[k]]
            0 <= k < r@.len() ==> {
                &&& r@[k].window_id@ == window.window_id@
                &&& r@[k].window_index == window.index
                &&& r@[k].tab_id == tabs@[k].tab_id
                &&& r@[k].title == tabs@[k].title
                &&& r@[k].index == k
                &&& r@[k].workspace_active_tab_index == active_tab_index
            },
{
    let ghost orig = tabs@;
    let n = tabs.len();
    let mut rest = tabs;
    let mut r: Vec<TabEntry> = Vec::new();
    let mut k: usize = 0;
    while rest.len() > 0
        invariant
            orig.len() == n,
            k + rest.len() == n,
            rest@ == orig.subrange(k as int, n as int),
            r@.len() == k,
            forall|j: int|
                #![trigger r@[j]]
                0 <= j < k ==> {
                    &&& r@[j].window_id@ == window.window_id@
                    &&& r@[j].window_index == window.index
                    &&& r@[j].tab_id == orig[j].tab_id
                    &&& r@[j].title == orig[j].title
                    &&& r@[j].index == j
                    &&& r@[j].workspace_active_tab_index == active_tab_index
                },
        decreases rest.len(),
    {
        let tab = rest.remove(0);
        assert(tab == orig[k as int]);
        assert(rest@ =~= orig.subrange(k + 1, n as int));
        let TabInfo { tab_id, title } = tab;
        r.push(
            TabEntry {
                window_id: window.window_id.clone(),
                window_index: window.index,
                tab_id,
                title,
                index: k,
                workspace_active_tab_index: active_tab_index,
            },
        );
        k = k + 1;
    }
    r
}

/// The visible panes of `tab`, listed as `pane_ids`, each numbered by its
/// place and marked focused when it is `focused_pane_id`.
pub fn pane_entries_for_tab(tab: &TabEntry, pane_ids: Vec<String>, focused_pane_id: &str) -> (r: Vec<PaneEntry>)
    ensures
        r@.len() == pane_ids@.len(),
        forall|k: int|
            #![trigger r@[k]]
            0 <= k < r@.len() ==> {
                &&& r@[k].window_id@ == tab.window_id@
                &&& r@[k].window_index == tab.window_index
                &&& r@[k].tab_id@ == tab.tab_id@
                &&& r@[k].tab_index == tab.index
                &&& r@[k].index == k
                &&& r@[k].pane_id == pane_ids@[k]
                &&& r@[k].is_focused == (pane_ids@[k]@ == focused_pane_id@)
            },
{
    let ghost orig = pane_ids@;
    let n = pane_ids.len();
    let mut rest = pane_ids;
    let mut r: Vec<PaneEntry> = Vec::new();
    let mut k: usize = 0;
    while rest.len() > 0
        invariant
            orig.len() == n,
            k + rest.len() == n,
            rest@ == orig.subrange(k as int, n as int),
            r@.len() == k,
            forall|j: int|
                #![trigger r@[j]]
                0 <= j < k ==> {
                    &&& r@[j].window_id@ == tab.window_id@
                    &&& r@[j].window_index == tab.window_index
                    &&& r@[j].tab_id@ == tab.tab_id@
                    &&& r@[j].tab_index == tab.index
                    &&& r@[j].index == j
                    &&& r@[j].pane_id == orig[j]
                    &&& r@[j].is_focused == (orig[j]@ == focused_pane_id@)
                },
        decreases rest.len(),
    {
        let pane_id = rest.remove(0);
        assert(pane_id == orig[k as int]);
        assert(rest@ =~= orig.subrange(k + 1, n as int));
        let is_focused = str_equal(pane_id.as_str(), focused_pane_id);
        r.push(
            PaneEntry {
                window_id: tab.window_id.clone(),
                window_index: tab.window_index,
                tab_id: tab.tab_id.clone(),
                tab_index: tab.index,
                index: k,
                pane_id,
                is_focused,
            },
        );
        k = k + 1;
    }
    r
}

/// The session of `pane`, if it holds a terminal session; `is_active` says
/// whether that session is its tab's active one.
pub fn session_entry_for_pane(pane: PaneEntry, has_terminal_session: bool, is_active: bool) -> (r: Option<
    SessionEntry,
>)
    ensures
        r is Some <==> has_terminal_session,
        r matches Some(e) ==> {
            &&& e.window_id == pane.window_id
            &&& e.window_index == pane.window_index
            &&& e.tab_id == pane.tab_id
            &&& e.tab_index == pane.tab_index
            &&& e.pane_id == pane.pane_id
            &&& e.pane_index == pane.index
            &&& e.is_active == is_active
        },
{
    if !has_terminal_session {
        return None;
    }
    let PaneEntry { window_id, window_index, tab_id, tab_index, index, pane_id, is_focused: _ } = pane;
    Some(SessionEntry { window_id, window_index, tab_id, tab_index, pane_id, pane_index: index, is_active })
}

} // verus!
