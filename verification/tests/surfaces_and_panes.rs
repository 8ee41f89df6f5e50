use syntax_tree::buffer::Buffer;
use syntax_tree::control_error::ErrorCode;
use syntax_tree::panes::{
    check_selection_ranges, first_some, focused_code_review, pane_selections, remote_host, selection_clear_order,
    selection_set_order, selection_set_step, wrong_shape_error, Carrier, configured_tab_color,
    SelectedTabColor, SetStep,
    CodeReviewSelection, EditorSelection, LspRange, SelectionSources,
};
use syntax_tree::surfaces::{surface_summaries, surface_unavailable_reason, SurfaceDestination, SurfaceSettings};
use syntax_tree::text_order::{sort_texts, text_less};

fn everything_on() -> SurfaceSettings {
    SurfaceSettings {
        warp_drive_enabled: true,
        any_ai_enabled: true,
        local_fs: true,
        show_project_explorer: true,
        global_search_flag: true,
        show_global_search: true,
        conversation_list_flag: true,
        show_conversation_history: true,
        vertical_tabs_flag: true,
        use_vertical_tabs: true,
        agent_management_flag: true,
    }
}

#[test]
fn surface_names_and_order() {
    let names: Vec<&str> = SurfaceDestination::ALL.iter().map(|d| d.name()).collect();
    assert_eq!(names.len(), 16);
    assert_eq!(names[0], "settings");
    assert_eq!(names[5], "warp_drive");
    assert_eq!(names[15], "agent_management");
    let summaries = surface_summaries(&everything_on());
    assert_eq!(summaries.len(), 16);
    assert!(summaries.iter().all(|s| s.is_available && s.unavailable_reason.is_none()));
    assert_eq!(summaries[12].name, "left_panel");
}

#[test]
fn unavailable_surfaces_say_why() {
    let mut settings = everything_on();
    settings.local_fs = false;
    settings.any_ai_enabled = false;
    assert_eq!(
        surface_unavailable_reason(SurfaceDestination::CodeReview, &settings),
        Some("code review is unavailable without local filesystem support")
    );
    assert_eq!(surface_unavailable_reason(SurfaceDestination::AiAssistant, &settings), Some("AI features are disabled"));
    assert_eq!(
        surface_unavailable_reason(SurfaceDestination::ConversationList, &settings),
        Some("agent conversation history is unavailable or disabled")
    );
    assert_eq!(surface_unavailable_reason(SurfaceDestination::Settings, &settings), None);
    // Warp Drive is still on, so the left panel still has a view.
    assert_eq!(surface_unavailable_reason(SurfaceDestination::LeftPanel, &settings), None);
    settings.warp_drive_enabled = false;
    assert_eq!(
        surface_unavailable_reason(SurfaceDestination::LeftPanel, &settings),
        Some("the left panel has no available views")
    );
    let summaries = surface_summaries(&settings);
    let left = &summaries[12];
    assert!(!left.is_available);
    assert_eq!(left.unavailable_reason.as_deref(), Some("the left panel has no available views"));
}

fn range(a: usize, b: usize, c: usize, d: usize) -> LspRange {
    LspRange { start_line: a, start_column: b, end_line: c, end_column: d }
}

#[test]
fn selections_come_in_carrier_order() {
    let sources = SelectionSources {
        terminal: Some("ls".to_string()),
        input: None,
        editor: Some(EditorSelection { text: "fn".to_string(), ranges: vec![range(0, 0, 0, 2)] }),
        editor_file_path: Some("src/lib.rs".to_string()),
        code_review: Some(CodeReviewSelection {
            file_path: "a.rs".to_string(),
            remote_host_id: Some("h1".to_string()),
            text: "x".to_string(),
            ranges: vec![range(3, 1, 3, 2)],
        }),
    };
    let selections = pane_selections(sources);
    let carriers: Vec<&str> = selections.iter().map(|s| s.carrier.name()).collect();
    assert_eq!(carriers, vec!["terminal", "editor", "code_review"]);
    assert_eq!(selections[0].text, "ls");
    assert!(selections[0].file_path.is_none() && selections[0].ranges.is_empty());
    assert_eq!(selections[1].file_path.as_deref(), Some("src/lib.rs"));
    assert_eq!(selections[1].ranges, vec![range(0, 0, 0, 2)]);
    assert!(selections[1].remote_host_id.is_none());
    assert_eq!(selections[2].remote_host_id.as_deref(), Some("h1"));
    assert_eq!(selections[2].carrier, Carrier::CodeReview);

    let none = SelectionSources { terminal: None, input: None, editor: None, editor_file_path: None, code_review: None };
    assert!(pane_selections(none).is_empty());
}

#[test]
fn first_answering_view_wins() {
    assert_eq!(first_some(vec![None, Some(2), Some(3)]), Some(2));
    assert_eq!(first_some::<u8>(vec![None, None]), None);
}

#[test]
fn remote_host_prefers_the_file() {
    assert_eq!(remote_host(Some("a".to_string()), Some("b".to_string())).as_deref(), Some("a"));
    assert_eq!(remote_host(None, Some("b".to_string())).as_deref(), Some("b"));
    assert_eq!(remote_host(None, None), None);
}

#[test]
fn selection_writes_need_a_range() {
    assert!(check_selection_ranges(&vec![range(0, 0, 0, 1)], "selection.set").is_ok());
    let e = check_selection_ranges(&Vec::new(), "selection.set").unwrap_err();
    assert_eq!(e.code, ErrorCode::InvalidParams);
    assert_eq!(e.message, "selection.set requires at least one range");
    let e = wrong_shape_error("selection.set");
    assert_eq!(e.message, "selection.set received parameters with the wrong shape");
}

#[test]
fn text_order_is_the_order_of_str() {
    let pairs = [("a", "b"), ("a", "ab"), ("", "a"), ("z", "é"), ("ab", "b"), ("b", "a"), ("a", "a")];
    for (x, y) in pairs {
        assert_eq!(text_less(x, y), x < y, "{x} < {y}");
    }
    let sorted = sort_texts(vec!["w3".to_string(), "w10".to_string(), "w2".to_string(), "w2".to_string()]);
    assert_eq!(sorted, vec!["w10", "w2", "w2", "w3"]);
}

#[test]
fn offsets_round_trip() {
    let buffer = Buffer::from_plain_text("aé中😀b");
    for c in 0..=buffer.len_chars() {
        assert_eq!(buffer.to_char_offset(buffer.to_byte_offset(c)), c);
    }
    // A byte inside a character rounds down to the character's start.
    for b in 0..12 {
        assert!(buffer.to_byte_offset(buffer.to_char_offset(b)) <= b);
    }
    assert_eq!(buffer.to_char_offset(2), 1);
    assert_eq!(buffer.to_byte_offset(3), 6);
}

#[test]
fn selection_carrier_orders() {
    assert_eq!(selection_set_order(true), vec![Carrier::CodeReview, Carrier::Editor]);
    assert_eq!(selection_set_order(false), vec![Carrier::Editor]);
    assert_eq!(
        selection_clear_order(true),
        vec![Carrier::Terminal, Carrier::Input, Carrier::Editor, Carrier::CodeReview]
    );
    assert_eq!(selection_clear_order(false), vec![Carrier::Terminal, Carrier::Input, Carrier::Editor]);
}

#[test]
fn only_the_active_pane_reports_code_review() {
    assert_eq!(focused_code_review(true, vec![None, Some(4), Some(5)]), Some(4));
    assert_eq!(focused_code_review(false, vec![Some(4)]), None);
}

#[test]
fn surface_names_are_distinct_lowercase_words() {
    let names: Vec<&str> = SurfaceDestination::ALL.iter().map(|d| d.name()).collect();
    for (i, a) in names.iter().enumerate() {
        assert!(!a.is_empty());
        assert!(a.chars().all(|c| c.is_ascii_lowercase() || c == '_'));
        for b in &names[i + 1..] {
            assert_ne!(a, b);
        }
    }
}

#[test]
fn a_selection_write_stops_at_the_first_taker() {
    assert_eq!(selection_set_step(true, &vec![]), SetStep::Try(Carrier::CodeReview));
    assert_eq!(selection_set_step(true, &vec![true]), SetStep::Done(Some(Carrier::CodeReview)));
    assert_eq!(selection_set_step(true, &vec![false]), SetStep::Try(Carrier::Editor));
    assert_eq!(selection_set_step(true, &vec![false, true]), SetStep::Done(Some(Carrier::Editor)));
    assert_eq!(selection_set_step(true, &vec![false, false]), SetStep::Done(None));
    assert_eq!(selection_set_step(false, &vec![]), SetStep::Try(Carrier::Editor));
    assert_eq!(selection_set_step(false, &vec![true]), SetStep::Done(Some(Carrier::Editor)));
    assert_eq!(selection_set_step(false, &vec![false]), SetStep::Done(None));
}

#[test]
fn only_an_explicit_tab_colour_counts() {
    assert_eq!(configured_tab_color(SelectedTabColor::Color("#ff0000".to_string())), Some("#ff0000".to_string()));
    assert_eq!(configured_tab_color(SelectedTabColor::Cleared), None);
    assert_eq!(configured_tab_color(SelectedTabColor::Unset), None);
}
