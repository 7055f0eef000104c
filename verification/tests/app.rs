use agt::app::draw::{
    inline_cursor, overlay_cursor, place_cursor, place_overlay, pty_rows, rows_gone_by,
    shows_overlay, Cursor, CursorFacts,
};
use agt::app::effect::Effect;
use agt::app::keys::{apply_view_action, copy_key, MessageResult, TreeAction, TreeFacts};
use agt::app::mode::{AppMode, AppScreen, ConfirmKind};
use agt::app::mouse::{
    handle_click_in_data_view, hit_to_hover, ClickAction, HoverTarget, Mouse, MouseAction,
    MouseHitResult, MouseKind, Places, PromptPlace, TerminalPlace,
};
use agt::app::session::{make_info, PanelState, SessionInfo};
use agt::app::state::{App, HookStatus, Surroundings};
use agt::clipboard::ClipboardBackend;
use agt::config::{AgentConfig, AgentsConfig};
use agt::geometry::Rect;
use agt::key::{Key, KeyCode};
use agt::providers::{Moment, ProviderKind, ProviderNames, TranscriptEntry};
use agt::status_bar::CollapsedCrop;

fn names() -> ProviderNames {
    ProviderNames { claude: "alpha".to_string() }
}

fn agents() -> AgentsConfig {
    AgentsConfig {
        claude: AgentConfig {
            binary: "sh".to_string(),
            extra_args: vec!["-x".to_string()],
            disable_plugin: false,
        },
        cursor: AgentConfig { binary: "agent".to_string(), extra_args: vec![], disable_plugin: true },
    }
}

fn picker_app() -> App {
    App::new(Some("/work".to_string()), names(), agents())
}

fn sh_info(id: &str) -> SessionInfo {
    SessionInfo {
        provider: ProviderKind::Claude,
        session_id: Some(id.to_string()),
        directory: "/".to_string(),
        binary: "sh".to_string(),
        extra_args: vec![],
        disable_plugin: false,
    }
}

fn live_app() -> App {
    let mut app = picker_app();
    app.screen = AppScreen::Transcript;
    app.transcript_open = true;
    app.panel = PanelState::Live(sh_info("test-sess"));
    app
}

fn around() -> Surroundings {
    Surroundings {
        now_ms: 7,
        cwd: Some("/work".to_string()),
        hooks: HookStatus { claude: true, cursor: true },
    }
}

fn facts() -> TreeFacts {
    TreeFacts { pending: false, interactive: false, terminal_selected: false, log_enabled: false }
}

fn ctrl(c: char) -> Key {
    Key { code: KeyCode::Char(c), ctrl: true, press: true }
}

fn plain(code: KeyCode) -> Key {
    Key { code, ctrl: false, press: true }
}

fn entry(id: &str) -> TranscriptEntry {
    TranscriptEntry {
        path: format!("/t/{id}.jsonl"),
        id: id.to_string(),
        title: "Title".to_string(),
        mtime: Moment { secs: 100, nanos: 0 },
        updated_at: None,
        size: None,
        last_user_message: None,
        message_count: 1,
        workspace_path: Some("/ws".to_string()),
        provider: ProviderKind::Claude,
    }
}

#[test]
fn terminal_panel_live_state_is_reachable() {
    let mut app = picker_app();
    app.on_launched(sh_info("test-abc"), true);
    assert!(matches!(app.panel, PanelState::Live(_)));
}

#[test]
fn live_to_exited_on_terminal_exited() {
    let mut app = live_app();
    assert!(matches!(app.panel, PanelState::Live(_)));

    app.apply_terminal_exited(0, Some(0));

    assert!(matches!(app.panel, PanelState::Exited { code: Some(0), .. }));
    if let PanelState::Exited { info, .. } = &app.panel {
        assert_eq!(info.session_id.as_deref(), Some("test-sess"));
    }
}

#[test]
fn exited_to_live_via_ctrl_y() {
    let mut app = live_app();
    app.apply_terminal_exited(0, Some(0));
    assert!(matches!(app.panel, PanelState::Exited { .. }));

    let effects = app.handle_key(ctrl('y'), facts(), &around());
    assert_eq!(effects, vec![Effect::Relaunch { id: 1, always_focus: false }]);
    let effects = app.on_relaunched(true, false);
    assert_eq!(effects, vec![Effect::FocusTerminal]);
    assert!(matches!(app.panel, PanelState::Live(_)));
}

#[test]
fn quit_intent_cleared_on_ctrl_o() {
    let mut app = live_app();
    app.quit_intent = true;
    app.mode = AppMode::Terminal;

    let effects = app.handle_key(ctrl('o'), facts(), &around());

    assert!(!app.quit_intent);
    assert_eq!(app.mode, AppMode::Normal);
    assert_eq!(effects, vec![Effect::RestoreCursor]);
}

#[test]
fn quit_intent_closes_app_on_exit() {
    let mut app = live_app();
    app.quit_intent = true;

    app.apply_terminal_exited(0, Some(0));

    assert!(!app.running);
}

#[test]
fn the_end_of_an_earlier_tool_is_passed_over() {
    let mut app = live_app();
    app.terminal_id = 2;
    app.quit_intent = true;
    assert!(app.apply_terminal_exited(1, Some(0)).is_empty());
    assert!(matches!(app.panel, PanelState::Live(_)));
    assert!(app.running);
}

#[test]
fn without_quit_intent_the_application_goes_on() {
    let mut app = live_app();
    app.mode = AppMode::Terminal;
    assert_eq!(app.apply_terminal_exited(0, None), vec![Effect::RestoreCursor]);
    assert!(app.running);
    assert_eq!(app.mode, AppMode::Normal);
}

#[test]
fn quitting_waits_for_the_tool() {
    let mut app = live_app();
    let effects = app.apply_tree_action(TreeAction::Quit, facts(), "", "", 9);
    assert!(app.running && app.quit_intent);
    assert_eq!(app.mode, AppMode::Terminal);
    assert_eq!(effects, vec![Effect::FocusTerminal]);
    let flash = app.flash.unwrap();
    assert_eq!(flash.message, " Ctrl-D twice to exit");

    let mut app = picker_app();
    app.apply_tree_action(TreeAction::Quit, facts(), "", "", 9);
    assert!(!app.running);
}

#[test]
fn leaving_a_running_session_is_asked_for() {
    let mut app = live_app();
    app.screen = AppScreen::Picker;
    app.on_picker_entries(vec![entry("one")]);
    app.picker.show_all = true;
    app.picker.set_tab(agt::picker::state::Tab::All);
    app.picker.move_to_top();
    while app.picker.selected_entry().is_none() {
        app.picker.move_down();
    }
    let effects = app.handle_key(plain(KeyCode::Enter), facts(), &around());
    assert_eq!(effects, vec![Effect::AbortRefresh]);
    assert_eq!(app.mode, AppMode::Confirm(ConfirmKind::SessionSwitch(entry("one"))));
    assert_eq!(app.screen, AppScreen::Transcript);

    // Another key changes nothing.
    assert!(app.handle_key(plain(KeyCode::Char('x')), facts(), &around()).is_empty());
    assert!(matches!(app.mode, AppMode::Confirm(_)));

    // A yes kills the tool and goes to the session.
    let effects = app.handle_key(plain(KeyCode::Char('y')), facts(), &around());
    assert_eq!(
        effects,
        vec![
            Effect::KillTerminal,
            Effect::LoadSession {
                provider: ProviderKind::Claude,
                path: "/t/one.jsonl".to_string(),
                workspace: Some("/ws".to_string()),
            },
        ]
    );
    match &app.panel {
        PanelState::Uninitialized(info) => {
            assert_eq!(info.session_id.as_deref(), Some("one"));
            assert_eq!(info.directory, "/ws");
            assert_eq!(info.binary, "sh");
            assert_eq!(info.extra_args, vec!["-x".to_string()]);
        }
        _ => panic!("expected Uninitialized"),
    }
}

#[test]
fn a_no_changes_nothing() {
    let mut app = live_app();
    app.handle_key(ctrl('k'), facts(), &around());
    assert_eq!(app.mode, AppMode::Confirm(ConfirmKind::Kill));
    assert!(app.handle_key(plain(KeyCode::Esc), facts(), &around()).is_empty());
    assert_eq!(app.mode, AppMode::Normal);
    assert!(matches!(app.panel, PanelState::Live(_)));

    app.handle_key(ctrl('k'), facts(), &around());
    assert_eq!(
        app.handle_key(plain(KeyCode::Char('Y')), facts(), &around()),
        vec![Effect::KillTerminal]
    );
}

#[test]
fn the_second_key_of_a_sequence_is_used_up() {
    let mut app = live_app();
    assert!(app.handle_key(plain(KeyCode::Char('!')), facts(), &around()).is_empty());
    assert_eq!(app.pending_app_key, Some('!'));
    assert!(app.handle_key(plain(KeyCode::Char('s')), facts(), &around()).is_empty());
    assert!(app.status_bar_debug);
    assert_eq!(app.pending_app_key, None);

    app.handle_key(plain(KeyCode::Char('!')), facts(), &around());
    assert_eq!(
        app.handle_key(plain(KeyCode::Char('l')), facts(), &around()),
        vec![Effect::OpenLogs]
    );
    assert!(app.data_view_open);
    app.data_view_open = false;

    app.handle_key(plain(KeyCode::Char('!')), facts(), &around());
    app.handle_key(plain(KeyCode::Char('L')), facts(), &around());
    assert_eq!(app.mode, AppMode::Confirm(ConfirmKind::DebugLog));
    assert_eq!(
        app.handle_key(plain(KeyCode::Enter), facts(), &around()),
        vec![Effect::EnableLog]
    );
}

#[test]
fn keys_go_to_the_tool_or_to_the_transcript() {
    let mut app = live_app();
    assert_eq!(
        app.handle_key(plain(KeyCode::Char('j')), facts(), &around()),
        vec![Effect::TreeKey]
    );
    assert_eq!(
        app.handle_key(plain(KeyCode::Esc), facts(), &around()),
        vec![Effect::FocusTerminal]
    );
    assert_eq!(app.mode, AppMode::Terminal);
    assert_eq!(
        app.handle_key(plain(KeyCode::Char('j')), facts(), &around()),
        vec![Effect::SendKey]
    );
    app.mode = AppMode::Normal;
    assert_eq!(
        app.handle_key(ctrl('m'), facts(), &around()),
        vec![Effect::SendBytes(vec![0x0f])]
    );
    assert_eq!(
        app.handle_key(ctrl('x'), facts(), &around()),
        vec![Effect::StartRefresh(Some("/work".to_string()))]
    );
    assert_eq!(app.screen, AppScreen::Picker);
}

#[test]
fn a_message_takes_keys_until_it_is_done() {
    let mut app = live_app();
    let effects = app.apply_tree_action(
        TreeAction::ToggleExpand,
        TreeFacts { interactive: true, ..facts() },
        "",
        "",
        0,
    );
    assert_eq!(effects, vec![Effect::FocusMessage]);
    assert_eq!(app.mode, AppMode::MessageInteraction);
    let effects =
        app.handle_message_interaction_key(MessageResult::Copy("text".to_string()));
    assert_eq!(effects, vec![Effect::Copy("text".to_string())]);
    app.handle_message_interaction_key(MessageResult::Exit);
    assert_eq!(app.mode, AppMode::Normal);
}

#[test]
fn texts_are_copied_in_three_forms() {
    let mut app = live_app();
    let mut copied = |action: TreeAction| app.apply_tree_action(action, facts(), "**b**", "{}", 0);
    assert_eq!(copied(TreeAction::CopyMarkdown), vec![Effect::Copy("**b**".to_string())]);
    assert_eq!(copied(TreeAction::CopyPlainText), vec![Effect::Copy("b".to_string())]);
    assert_eq!(copied(TreeAction::CopyRawData), vec![Effect::Copy("{}".to_string())]);
    assert_eq!(
        apply_view_action(TreeAction::CopyPlainText, "*i*", ""),
        vec![Effect::Copy("i".to_string())]
    );
    assert_eq!(apply_view_action(TreeAction::Quit, "", ""), vec![Effect::TreeApply]);
}

#[test]
fn a_missing_hook_is_told_of() {
    let mut app = picker_app();
    let mut a = around();
    a.hooks.cursor = false;
    let effects = app.start_new_session(ProviderKind::Cursor, &a);
    assert!(effects.iter().any(|e| matches!(e, Effect::Launch { id: 1, .. })));
    let flash = app.flash.unwrap();
    assert_eq!(
        flash.message,
        " Cursor session hook not installed. Run: agt install-hooks cursor"
    );
    assert!(flash.warning);
}

#[test]
fn a_session_that_the_tool_tells_of_is_read() {
    let mut app = live_app();
    let effects = app.apply_session_detected(
        "new".to_string(),
        Some("/t/new.jsonl".to_string()),
        Some("/ws2".to_string()),
    );
    assert_eq!(
        effects,
        vec![Effect::LoadSession {
            provider: ProviderKind::Claude,
            path: "/t/new.jsonl".to_string(),
            workspace: Some("/ws2".to_string()),
        }]
    );
    let effects = app.apply_session_detected("newer".to_string(), None, None);
    assert_eq!(
        effects,
        vec![Effect::FindTranscript {
            provider: ProviderKind::Claude,
            session_id: "newer".to_string(),
            workspace: None,
        }]
    );
    assert_eq!(app.resume_info(), Some((ProviderKind::Claude, "newer".to_string())));
}

#[test]
fn a_copy_is_told_of() {
    let mut app = picker_app();
    app.on_copied(ClipboardBackend::Xclip, None, 3);
    assert_eq!(app.flash.take().unwrap().message, "Copied (xclip)");
    app.on_copied(ClipboardBackend::Xclip, Some("no display".to_string()), 3);
    let said = app.flash.take().unwrap();
    assert_eq!(said.message, "Copy failed: no display");
    assert!(said.warning);
}

fn places() -> Places {
    Places {
        terminal: Some(TerminalPlace { x: 0, y: 10, height: 10, skip: 0 }),
        viewport_width: 80,
        prompt: Some(PromptPlace { x: 0, y: 25, height: 2, start: 5 }),
        popup: None,
    }
}

fn mouse(kind: MouseKind, column: u16, row: u16) -> Mouse {
    Mouse { kind, column, row }
}

#[test]
fn the_wheel_moves_three_rows_a_turn() {
    let mut app = live_app();
    app.mode = AppMode::Terminal;
    assert_eq!(
        app.handle_mouse(mouse(MouseKind::ScrollUp, 5, 2), 2, places()),
        MouseAction::Scroll { in_view: false, up: true, rows: 6, restore_cursor: true }
    );
    assert_eq!(app.mode, AppMode::Normal);
    assert_eq!(
        app.handle_mouse(mouse(MouseKind::ScrollDown, 5, 2), 1, places()),
        MouseAction::Scroll { in_view: false, up: false, rows: 3, restore_cursor: false }
    );
    let over = Places { popup: Some(Rect { x: 0, y: 0, width: 10, height: 10 }), ..places() };
    assert_eq!(
        app.handle_mouse(mouse(MouseKind::Moved, 5, 2), 1, over),
        MouseAction::Hover { in_view: true }
    );
}

#[test]
fn a_click_beside_the_tool_takes_the_keys_back() {
    let mut app = live_app();
    app.mode = AppMode::Terminal;
    assert_eq!(
        app.handle_mouse(mouse(MouseKind::LeftDown, 5, 12), 1, places()),
        MouseAction::Forward
    );
    assert_eq!(
        app.handle_mouse(mouse(MouseKind::LeftDown, 5, 2), 1, places()),
        MouseAction::Click { in_view: false }
    );
    assert_eq!(app.mode, AppMode::Normal);
    assert_eq!(
        app.handle_mouse(mouse(MouseKind::LeftDown, 5, 25), 1, places()),
        MouseAction::ActivateFloating
    );
    assert_eq!(app.mode, AppMode::Terminal);
}

#[test]
fn clicks_on_nodes() {
    let mut app = live_app();
    let at = |path: Vec<usize>| MouseHitResult::Message { path };
    assert_eq!(app.handle_click_in_tree(at(vec![1]), &vec![0]), ClickAction::Select(vec![1]));
    assert_eq!(app.handle_click_in_tree(at(vec![1]), &vec![1]), ClickAction::ToggleShowMore);
    assert_eq!(
        app.handle_click_in_tree(
            MouseHitResult::GapRow { path: vec![2], hidden_after: false },
            &vec![0]
        ),
        ClickAction::Reveal(vec![2])
    );
    assert_eq!(
        app.handle_click_in_tree(MouseHitResult::Terminal, &vec![0]),
        ClickAction::ActivateTerminal
    );
    assert_eq!(app.mode, AppMode::Terminal);
    assert!(matches!(
        app.handle_click_in_tree(
            MouseHitResult::InnerComponent { path: vec![3], hit: vec![] },
            &vec![0]
        ),
        ClickAction::Enter { cell: None, .. }
    ));
    assert_eq!(app.mode, AppMode::MessageInteraction);
    assert_eq!(
        handle_click_in_data_view(at(vec![1]), &vec![1], false),
        ClickAction::Nothing
    );
    assert_eq!(
        handle_click_in_data_view(at(vec![1]), &vec![1], true),
        ClickAction::ToggleShowMore
    );
}

#[test]
fn what_is_pointed_at() {
    let hover = hit_to_hover(MouseHitResult::GapRow { path: vec![1, 2], hidden_after: true });
    let hover = hover.unwrap();
    assert_eq!(hover.path, vec![1, 2]);
    assert_eq!(hover.target, HoverTarget::GapRow { hidden_after: true });
    assert_eq!(hit_to_hover(MouseHitResult::Terminal), None);
}

#[test]
fn the_cursor_stands_in_the_prompt_or_in_the_tool() {
    let area = Rect { x: 0, y: 0, width: 80, height: 30 };
    let crop = CollapsedCrop { start_row: 20, height: 4 };
    let overlay = place_overlay(area, crop, 21).unwrap();
    assert_eq!(overlay.area, Rect { x: 0, y: 25, width: 80, height: 5 });
    assert_eq!(overlay.prompt, PromptPlace { x: 0, y: 26, height: 3, start: 21 });
    assert_eq!(overlay.block_offset, 1);
    assert!(place_overlay(area, crop, 24).is_none());
    let far = CollapsedCrop { start_row: u16::MAX - 4, height: 4, ..crop };
    assert_eq!(place_overlay(area, far, u16::MAX - 2).unwrap().prompt.height, 2);

    let at = |row: u16| Cursor { row, col: 4, hidden: false };
    assert_eq!(overlay_cursor(overlay.prompt, at(22)), Some((5, 27)));
    assert_eq!(overlay_cursor(overlay.prompt, at(2)), None);
    assert_eq!(
        overlay_cursor(overlay.prompt, Cursor { row: 22, col: 4, hidden: true }),
        None
    );
    let place = TerminalPlace { x: 0, y: 5, height: 10, skip: 2 };
    assert_eq!(inline_cursor(place, at(3), 0, None), Some((5, 6)));
    assert_eq!(inline_cursor(place, at(3), 0, Some(3)), None);
    assert_eq!(inline_cursor(place, at(1), 0, None), None);
    assert_eq!(rows_gone_by(false, 7), 0);
    assert_eq!(rows_gone_by(true, 7), 7);
    assert_eq!(pty_rows(true, 40), 30);
    assert_eq!(pty_rows(true, 30), 20);
    assert_eq!(pty_rows(false, 40), 20);
    assert!(shows_overlay(Some(1), Some(crop), true, true, false));
    assert!(shows_overlay(Some(1), Some(crop), false, false, true));
    assert!(!shows_overlay(Some(1), Some(crop), false, true, true));
    assert!(!shows_overlay(None, Some(crop), true, false, true));
}

#[test]
fn a_tool_is_started_as_the_settings_say() {
    let info = make_info(&agents(), ProviderKind::Cursor, None, "/d".to_string());
    assert_eq!(info.binary, "agent");
    assert!(info.disable_plugin);
    assert_eq!(info.session_id, None);
    assert_eq!(info.directory, "/d");
}

#[test]
fn the_cursor_is_drawn_once() {
    let facts = CursorFacts {
        active: true,
        pinned: true,
        covered_from: Some(21),
        prompt: Some(PromptPlace { x: 0, y: 26, height: 3, start: 21 }),
        place: Some(TerminalPlace { x: 0, y: 5, height: 40, skip: 2 }),
        gone_by: 0,
        cursor: Cursor { row: 22, col: 4, hidden: false },
    };
    assert_eq!(place_cursor(facts), Some((5, 27)));
    let above = CursorFacts { cursor: Cursor { row: 10, col: 4, hidden: false }, ..facts };
    assert_eq!(place_cursor(above), Some((5, 13)));
    assert_eq!(place_cursor(CursorFacts { active: false, ..above }), None);
    assert_eq!(place_cursor(CursorFacts { active: false, pinned: false, ..above }), Some((5, 13)));
    assert_eq!(place_cursor(CursorFacts { prompt: None, place: None, ..facts }), None);
}

#[test]
fn keys_that_copy() {
    assert_eq!(copy_key(false, KeyCode::Char('Y')), (false, Some(TreeAction::CopyMarkdown)));
    assert_eq!(copy_key(false, KeyCode::Char('y')), (true, None));
    assert_eq!(copy_key(true, KeyCode::Char('y')), (false, Some(TreeAction::CopyMarkdown)));
    assert_eq!(copy_key(true, KeyCode::Char('t')), (false, Some(TreeAction::CopyPlainText)));
    assert_eq!(copy_key(true, KeyCode::Char('r')), (false, Some(TreeAction::CopyRawData)));
    assert_eq!(copy_key(true, KeyCode::Esc), (false, None));
    assert_eq!(copy_key(false, KeyCode::Char('t')), (false, None));
}

#[test]
fn esc_and_ctrl_o_lead_back_to_the_tool() {
    for key in [plain(KeyCode::Esc), ctrl('o')] {
        let mut app = live_app();
        app.mode = AppMode::Normal;
        app.handle_key(key, facts(), &around());
        assert!(matches!(app.mode, AppMode::Terminal));
    }
}
