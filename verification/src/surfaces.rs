//! The app surfaces a local-control request can open, and why one may be
//! unavailable.

use vstd::prelude::*;

verus! {

/// A surface of the app that local control can open.
#[derive(Clone, Copy, Debug, PartialEq, Eq, Structural)]
pub enum SurfaceDestination {
    Settings,
    CommandPalette,
    CommandSearch,
    ThemePicker,
    Keybindings,
    WarpDrive,
    ResourceCenter,
    AiAssistant,
    CodeReview,
    ProjectExplorer,
    GlobalSearch,
    ConversationList,
    LeftPanel,
    RightPanel,
    VerticalTabs,
    AgentManagement,
}

/// The settings and feature flags that decide which surfaces are available.
#[derive(Clone, Copy, Debug)]
pub struct SurfaceSettings {
    pub warp_drive_enabled: bool,
    pub any_ai_enabled: bool,
    pub local_fs: bool,
    pub show_project_explorer: bool,
    pub global_search_flag: bool,
    pub show_global_search: bool,
    pub conversation_list_flag: bool,
    pub show_conversation_history: bool,
    pub vertical_tabs_flag: bool,
    pub use_vertical_tabs: bool,
    pub agent_management_flag: bool,
}

/// The name a surface is listed under.
pub open spec fn surface_name(d: SurfaceDestination) -> Seq<char> {
    match d {
        SurfaceDestination::Settings => "settings"@,
        SurfaceDestination::CommandPalette => "command_palette"@,
        SurfaceDestination::CommandSearch => "command_search"@,
        SurfaceDestination::ThemePicker => "theme_picker"@,
        SurfaceDestination::Keybindings => "keybindings"@,
        SurfaceDestination::WarpDrive => "warp_drive"@,
        SurfaceDestination::ResourceCenter => "resource_center"@,
        SurfaceDestination::AiAssistant => "ai_assistant"@,
        SurfaceDestination::CodeReview => "code_review"@,
        SurfaceDestination::ProjectExplorer => "project_explorer"@,
        SurfaceDestination::GlobalSearch => "global_search"@,
        SurfaceDestination::ConversationList => "conversation_list"@,
        SurfaceDestination::LeftPanel => "left_panel"@,
        SurfaceDestination::RightPanel => "right_panel"@,
        SurfaceDestination::VerticalTabs => "vertical_tabs"@,
        SurfaceDestination::AgentManagement => "agent_management"@,
    }
}

pub open spec fn project_explorer_available(s: SurfaceSettings) -> bool {
    s.local_fs && s.show_project_explorer
}

pub open spec fn global_search_available(s: SurfaceSettings) -> bool {
    s.local_fs && s.global_search_flag && s.show_global_search
}

pub open spec fn conversation_list_available(s: SurfaceSettings) -> bool {
    s.conversation_list_flag && s.any_ai_enabled && s.show_conversation_history
}

/// Why surface `d` is unavailable under settings `s`, if it is. The left panel
/// is unavailable only when none of the views it can show is available.
pub open spec fn unavailable_reason(d: SurfaceDestination, s: SurfaceSettings) -> Option<Seq<char>> {
    match d {
        SurfaceDestination::Settings | SurfaceDestination::CommandPalette
        | SurfaceDestination::CommandSearch | SurfaceDestination::ThemePicker
        | SurfaceDestination::Keybindings | SurfaceDestination::ResourceCenter => None,
        SurfaceDestination::WarpDrive => if !s.warp_drive_enabled {
            Some("Warp Drive is disabled"@)
        } else {
            None
        },
        SurfaceDestination::AiAssistant => if !s.any_ai_enabled {
            Some("AI features are disabled"@)
        } else {
            None
        },
        SurfaceDestination::CodeReview | SurfaceDestination::RightPanel => if !s.local_fs {
            Some("code review is unavailable without local filesystem support"@)
        } else {
            None
        },
        SurfaceDestination::ProjectExplorer => if !project_explorer_available(s) {
            Some("project explorer is unavailable or disabled"@)
        } else {
            None
        },
        SurfaceDestination::GlobalSearch => if !global_search_available(s) {
            Some("global search is unavailable or disabled"@)
        } else {
            None
        },
        SurfaceDestination::ConversationList => if !conversation_list_available(s) {
            Some("agent conversation history is unavailable or disabled"@)
        } else {
            None
        },
        SurfaceDestination::LeftPanel => if !project_explorer_available(s)
            && !global_search_available(s) && !conversation_list_available(s)
            && !s.warp_drive_enabled {
            Some("the left panel has no available views"@)
        } else {
            None
        },
        SurfaceDestination::VerticalTabs => if !(s.vertical_tabs_flag && s.use_vertical_tabs) {
            Some("vertical tabs are unavailable or disabled"@)
        } else {
            None
        },
        SurfaceDestination::AgentManagement => if !(s.agent_management_flag && s.any_ai_enabled) {
            Some("agent management is unavailable or disabled"@)
        } else {
            None
        },
    }
}

/// When each surface is available, by the settings and feature flags alone:
/// the settings, command palette, command search, theme picker, keybindings
/// and resource center always; Warp Drive when it is enabled; the AI
/// assistant when any AI feature is; Code Review and the right panel with
/// local filesystem support; the project explorer with it and its setting
/// on; global search with it, its flag and its setting; the conversation
/// list with its flag, AI and its setting; the left panel when any of the
/// project explorer, global search, the conversation list and Warp Drive is;
/// vertical tabs when both their flag and the user's setting are on; agent
/// management with its flag and AI.
pub proof fn lemma_surface_availability(s: SurfaceSettings)
    ensures
        unavailable_reason(SurfaceDestination::Settings, s) is None,
        unavailable_reason(SurfaceDestination::CommandPalette, s) is None,
        unavailable_reason(SurfaceDestination::CommandSearch, s) is None,
        unavailable_reason(SurfaceDestination::ThemePicker, s) is None,
        unavailable_reason(SurfaceDestination::Keybindings, s) is None,
        unavailable_reason(SurfaceDestination::ResourceCenter, s) is None,
        unavailable_reason(SurfaceDestination::WarpDrive, s) is None <==> s.warp_drive_enabled,
        unavailable_reason(SurfaceDestination::AiAssistant, s) is None <==> s.any_ai_enabled,
        unavailable_reason(SurfaceDestination::CodeReview, s) is None <==> s.local_fs,
        unavailable_reason(SurfaceDestination::RightPanel, s) is None <==> s.local_fs,
        unavailable_reason(SurfaceDestination::ProjectExplorer, s) is None <==> s.local_fs
            && s.show_project_explorer,
        unavailable_reason(SurfaceDestination::GlobalSearch, s) is None <==> s.local_fs
            && s.global_search_flag && s.show_global_search,
        unavailable_reason(SurfaceDestination::ConversationList, s) is None <==> s.conversation_list_flag
            && s.any_ai_enabled && s.show_conversation_history,
        unavailable_reason(SurfaceDestination::LeftPanel, s) is None <==> (s.local_fs
            && s.show_project_explorer) || (s.local_fs && s.global_search_flag && s.show_global_search)
            || (s.conversation_list_flag && s.any_ai_enabled && s.show_conversation_history)
            || s.warp_drive_enabled,
        unavailable_reason(SurfaceDestination::VerticalTabs, s) is None <==> s.vertical_tabs_flag
            && s.use_vertical_tabs,
        unavailable_reason(SurfaceDestination::AgentManagement, s) is None <==> s.agent_management_flag
            && s.any_ai_enabled,
{
}

/// The left panel is unavailable exactly when every view it can show is:
/// the project explorer, global search, the conversation list and Warp Drive.
pub proof fn lemma_left_panel_needs_a_view(s: SurfaceSettings)
    ensures
        unavailable_reason(SurfaceDestination::LeftPanel, s) is Some <==> (unavailable_reason(
            SurfaceDestination::ProjectExplorer,
            s,
        ) is Some && unavailable_reason(SurfaceDestination::GlobalSearch, s) is Some
            && unavailable_reason(SurfaceDestination::ConversationList, s) is Some
            && unavailable_reason(SurfaceDestination::WarpDrive, s) is Some),
{
}

/// A surface name's character: a lowercase ASCII letter or `'_'`.
pub open spec fn name_char(c: char) -> bool {
    ('a' <= c && c <= 'z') || c == '_'
}

/// Different surfaces are listed under different names, and every name is
/// a non-empty run of lowercase ASCII letters and underscores.
#[verifier::rlimit(50)]
pub proof fn lemma_surface_names(a: SurfaceDestination, b: SurfaceDestination)
    ensures
        a != b ==> surface_name(a) != surface_name(b),
        surface_name(a).len() > 0,
        forall|i: int| 0 <= i < surface_name(a).len() ==> name_char(#[trigger] surface_name(a)[i]),
{
    reveal_strlit("settings");
    reveal_strlit("command_palette");
    reveal_strlit("command_search");
    reveal_strlit("theme_picker");
    reveal_strlit("keybindings");
    reveal_strlit("warp_drive");
    reveal_strlit("resource_center");
    reveal_strlit("ai_assistant");
    reveal_strlit("code_review");
    reveal_strlit("project_explorer");
    reveal_strlit("global_search");
    reveal_strlit("conversation_list");
    reveal_strlit("left_panel");
    reveal_strlit("right_panel");
    reveal_strlit("vertical_tabs");
    reveal_strlit("agent_management");
    assert(surface_name(a).len() > 0);
    if a != b {
        let x = surface_name(a);
        let y = surface_name(b);
        assert(x.len() != y.len() || x[0] != y[0]);
    }
}

impl SurfaceDestination {
    /// Every surface, in the order they are listed.
    pub const ALL: [SurfaceDestination; 16] = [
        SurfaceDestination::Settings,
        SurfaceDestination::CommandPalette,
        SurfaceDestination::CommandSearch,
        SurfaceDestination::ThemePicker,
        SurfaceDestination::Keybindings,
        SurfaceDestination::WarpDrive,
        SurfaceDestination::ResourceCenter,
        SurfaceDestination::AiAssistant,
        SurfaceDestination::CodeReview,
        SurfaceDestination::ProjectExplorer,
        SurfaceDestination::GlobalSearch,
        SurfaceDestination::ConversationList,
        SurfaceDestination::LeftPanel,
        SurfaceDestination::RightPanel,
        SurfaceDestination::VerticalTabs,
        SurfaceDestination::AgentManagement,
    ];

    /// The name the surface is listed under ([`surface_name`]).
    pub fn name(self) -> (n: &'static str)
        ensures
            n@ == surface_name(self),
    {
        match self {
            SurfaceDestination::Settings => "settings",
            SurfaceDestination::CommandPalette => "command_palette",
            SurfaceDestination::CommandSearch => "command_search",
            SurfaceDestination::ThemePicker => "theme_picker",
            SurfaceDestination::Keybindings => "keybindings",
            SurfaceDestination::WarpDrive => "warp_drive",
            SurfaceDestination::ResourceCenter => "resource_center",
            SurfaceDestination::AiAssistant => "ai_assistant",
            SurfaceDestination::CodeReview => "code_review",
            SurfaceDestination::ProjectExplorer => "project_explorer",
            SurfaceDestination::GlobalSearch => "global_search",
            SurfaceDestination::ConversationList => "conversation_list",
            SurfaceDestination::LeftPanel => "left_panel",
            SurfaceDestination::RightPanel => "right_panel",
            SurfaceDestination::VerticalTabs => "vertical_tabs",
            SurfaceDestination::AgentManagement => "agent_management",
        }
    }
}

/// Why `destination` is unavailable under `settings` ([`unavailable_reason`]).
pub fn surface_unavailable_reason(destination: SurfaceDestination, settings: &SurfaceSettings) -> (r: Option<
    &'static str,
>)
    ensures
        (match r {
            Some(s) => Some(s@),
            None => None,
        }) == unavailable_reason(destination, *settings),
{
    let project_explorer = settings.local_fs && settings.show_project_explorer;
    let global_search = settings.local_fs && settings.global_search_flag
        && settings.show_global_search;
    let conversation_list = settings.conversation_list_flag && settings.any_ai_enabled
        && settings.show_conversation_history;
    match destination {
        SurfaceDestination::Settings | SurfaceDestination::CommandPalette
        | SurfaceDestination::CommandSearch | SurfaceDestination::ThemePicker
        | SurfaceDestination::Keybindings | SurfaceDestination::ResourceCenter => None,
        SurfaceDestination::WarpDrive => if !settings.warp_drive_enabled {
            Some("Warp Drive is disabled")
        } else {
            None
        },
        SurfaceDestination::AiAssistant => if !settings.any_ai_enabled {
            Some("AI features are disabled")
        } else {
            None
        },
        SurfaceDestination::CodeReview | SurfaceDestination::RightPanel => if !settings.local_fs {
            Some("code review is unavailable without local filesystem support")
        } else {
            None
        },
        SurfaceDestination::ProjectExplorer => if !project_explorer {
            Some("project explorer is unavailable or disabled")
        } else {
            None
        },
        SurfaceDestination::GlobalSearch => if !global_search {
            Some("global search is unavailable or disabled")
        } else {
            None
        },
        SurfaceDestination::ConversationList => if !conversation_list {
            Some("agent conversation history is unavailable or disabled")
        } else {
            None
        },
        SurfaceDestination::LeftPanel => if !project_explorer && !global_search
            && !conversation_list && !settings.warp_drive_enabled {
            Some("the left panel has no available views")
        } else {
            None
        },
        SurfaceDestination::VerticalTabs => if !(settings.vertical_tabs_flag
            && settings.use_vertical_tabs) {
            Some("vertical tabs are unavailable or disabled")
        } else {
            None
        },
        SurfaceDestination::AgentManagement => if !(settings.agent_management_flag
            && settings.any_ai_enabled) {
            Some("agent management is unavailable or disabled")
        } else {
            None
        },
    }
}

/// Every surface, in the order they are listed.
pub open spec fn all_surfaces() -> Seq<SurfaceDestination> {
    seq![
        SurfaceDestination::Settings,
        SurfaceDestination::CommandPalette,
        SurfaceDestination::CommandSearch,
        SurfaceDestination::ThemePicker,
        SurfaceDestination::Keybindings,
        SurfaceDestination::WarpDrive,
        SurfaceDestination::ResourceCenter,
        SurfaceDestination::AiAssistant,
        SurfaceDestination::CodeReview,
        SurfaceDestination::ProjectExplorer,
        SurfaceDestination::GlobalSearch,
        SurfaceDestination::ConversationList,
        SurfaceDestination::LeftPanel,
        SurfaceDestination::RightPanel,
        SurfaceDestination::VerticalTabs,
        SurfaceDestination::AgentManagement,
    ]
}

/// How a surface is listed: its name, whether it is available, and why not.
#[derive(Debug)]
pub struct SurfaceSummary {
    pub name: String,
    pub is_available: bool,
    pub unavailable_reason: Option<String>,
}

/// The listing of surface `d` under settings `s`.
pub open spec fn summarizes(m: SurfaceSummary, d: SurfaceDestination, s: SurfaceSettings) -> bool {
    &&& m.name@ == surface_name(d)
    &&& m.is_available == unavailable_reason(d, s) is None
    &&& match m.unavailable_reason {
        Some(r) => unavailable_reason(d, s) == Some(r@),
        None => unavailable_reason(d, s) is None,
    }
}

/// Every surface, in order, with its availability under `settings`.
pub fn surface_summaries(settings: &SurfaceSettings) -> (r: Vec<SurfaceSummary>)
    ensures
        r@.len() == all_surfaces().len(),
        forall|k: int| 0 <= k < r@.len() ==> summarizes(#[trigger] r@[k], all_surfaces()[k], *settings),
{
    let all = SurfaceDestination::ALL;
    assert(all@ =~= all_surfaces());
    let mut r: Vec<SurfaceSummary> = Vec::new();
    let mut k: usize = 0;
    while k < 16
        invariant
            k <= 16,
            all@ == all_surfaces(),
            r@.len() == k,
            forall|j: int| 0 <= j < k ==> summarizes(#[trigger] r@[j], all_surfaces()[j], *settings),
        decreases 16 - k,
    {
        let d = all[k];
        let reason = surface_unavailable_reason(d, settings);
        let summary = SurfaceSummary {
            name: String::from_str(d.name()),
            is_available: reason.is_none(),
            unavailable_reason: match reason {
                Some(why) => Some(String::from_str(why)),
                None => None,
            },
        };
        r.push(summary);
        k = k + 1;
    }
    r
}

} // verus!
