use klawply::app::{App, Key, KeyCode, LineKind, Rect, Screen};
use klawply::event::{AgentCommand, AgentEvent};
use klawply::terminal::{handle_terminal_event, Mouse, TermEvent};

const SECOND: u64 = 1_000_000_000;

fn key(code: KeyCode) -> Key {
    Key { code, ctrl: false }
}

fn ctrl(c: char) -> Key {
    Key { code: KeyCode::Char(c), ctrl: true }
}

fn press(app: &mut App, k: Key, now: u64) -> Option<String> {
    handle_terminal_event(app, TermEvent::Press(k), now)
}

fn mouse(app: &mut App, kind: Mouse, column: u16, row: u16) -> Option<String> {
    handle_terminal_event(app, TermEvent::Mouse { kind, column, row }, 0)
}

fn on(screen: Screen) -> App {
    let mut app = App::new(0);
    app.screen = screen;
    app
}

fn chat_with_text() -> App {
    let mut app = on(Screen::Chat);
    let lines = vec!["hello world".to_string(), "second line".to_string(), "third".to_string()];
    app.set_chat_view(lines, Rect { x: 2, y: 1, width: 20, height: 2 }, 1);
    app
}

#[test]
fn app_starts_on_the_connect_screen() {
    let app = App::new(7);
    assert_eq!(app.screen, Screen::Connect);
    assert!(!app.should_quit && !app.busy && !app.connecting);
    assert!(app.transcript.is_empty());
    assert_eq!(app.last_input, 7);
}

#[test]
fn connecting_sends_a_command() {
    let mut app = App::new(0);
    app.start_connect();
    assert!(app.connecting);
    assert_eq!(app.status, "connecting to ChatGPT…");
    assert!(matches!(app.take_commands()[..], [AgentCommand::Connect]));
    assert!(app.take_commands().is_empty());
}

#[test]
fn events_change_the_state() {
    let mut app = App::new(0);
    app.handle_event(AgentEvent::Busy(true));
    app.handle_event(AgentEvent::Status("working".into()));
    assert!(app.busy);
    assert_eq!(app.status, "working");
    app.handle_event(AgentEvent::Busy(false));
    assert!(!app.busy);
    assert_eq!(app.status, "");
    app.handle_event(AgentEvent::ConnectPrompt { url: "http://l".into() });
    assert_eq!(app.connect_url.as_deref(), Some("http://l"));
    assert_eq!(
        app.transcript[0].text,
        "Log in to ChatGPT in your browser. If it didn't open: http://l"
    );
    app.handle_event(AgentEvent::Connected { email: "e".into(), plan: "p".into() });
    assert_eq!((app.email.as_str(), app.plan.as_str()), ("e", "p"));
    assert_eq!(app.connect_url, None);
    assert_eq!(app.status, "connected");
    app.handle_event(AgentEvent::NeedResume);
    assert_eq!(app.screen, Screen::Resume);
    assert_eq!(
        app.transcript[1].text,
        "Paste your resume text above, then press Enter (or Ctrl+D) to save it. \
         klawply will read it and fill in your application fields."
    );
    app.handle_event(AgentEvent::Ready);
    assert_eq!(app.screen, Screen::Chat);
    app.handle_event(AgentEvent::Error("bad".into()));
    assert_eq!(app.transcript[2].kind, LineKind::Error);
}

#[test]
fn changed_fields_are_listed() {
    let mut app = on(Screen::Chat);
    app.handle_event(AgentEvent::FieldsUpdated { changed: vec![] });
    assert!(app.transcript.is_empty());
    app.handle_event(AgentEvent::FieldsUpdated { changed: vec!["a".into(), "b".into()] });
    assert_eq!(app.transcript[0].text, "Updated fields.json: a, b");
}

#[test]
fn filled_forms_are_reported() {
    let mut app = on(Screen::Chat);
    app.handle_event(AgentEvent::Applied { url: "http://j".into(), filled: 3, failed: vec![] });
    assert_eq!(
        app.transcript[0].text,
        "Filled 3 field(s) on http://j.\nReview the page in Chrome and submit when you're happy."
    );
    let failed = vec!["A: x".to_string(), "B: y".to_string()];
    app.handle_event(AgentEvent::Applied { url: "http://j".into(), filled: 0, failed });
    assert_eq!(
        app.transcript[1].text,
        "Filled 0 field(s) on http://j.\nCould not fill 2: A: x; B: y\n\
         Review the page in Chrome and submit when you're happy."
    );
}

#[test]
fn streamed_fragments_build_one_entry() {
    let mut app = on(Screen::Chat);
    app.handle_event(AgentEvent::AssistantChunk("Hel".into()));
    app.handle_event(AgentEvent::AssistantChunk("lo".into()));
    assert_eq!(app.transcript.len(), 1);
    assert_eq!(app.transcript[0].text, "Hello");
    assert_eq!(app.transcript[0].kind, LineKind::Assistant);
    app.handle_event(AgentEvent::System("note".into()));
    app.handle_event(AgentEvent::AssistantChunk("again".into()));
    assert_eq!(app.transcript.len(), 3);
    assert_eq!(app.transcript[0].text, "Hello");
}

#[test]
fn new_content_pins_the_view_and_drops_the_selection() {
    let mut app = chat_with_text();
    mouse(&mut app, Mouse::Down, 2, 1);
    mouse(&mut app, Mouse::Drag, 8, 1);
    app.scroll_up(9);
    assert!(app.selection_range().is_some());
    app.handle_event(AgentEvent::System("note".into()));
    assert_eq!(app.scroll, 0);
    assert_eq!(app.selection_range(), None);
}

#[test]
fn keys_of_the_connect_screen() {
    let mut app = App::new(0);
    assert_eq!(press(&mut app, key(KeyCode::Char('c')), 0), None);
    app.handle_event(AgentEvent::ConnectPrompt { url: "http://l".into() });
    assert_eq!(press(&mut app, key(KeyCode::Char('Y')), 0), Some("http://l".to_string()));
    assert_eq!(press(&mut app, key(KeyCode::Other), 0), None);
    press(&mut app, key(KeyCode::Enter), 0);
    assert!(matches!(app.take_commands()[..], [AgentCommand::Connect]));
    app.busy = true;
    press(&mut app, key(KeyCode::Enter), 0);
    assert!(app.take_commands().is_empty());
    press(&mut app, key(KeyCode::Char('q')), 0);
    assert!(app.should_quit);
    assert!(matches!(app.take_commands()[..], [AgentCommand::Quit]));
}

#[test]
fn enter_submits_the_resume() {
    let mut app = on(Screen::Resume);
    app.on_paste("line one\nline two", SECOND);
    press(&mut app, key(KeyCode::Char('!')), 2 * SECOND);
    press(&mut app, key(KeyCode::Enter), 3 * SECOND);
    match &app.take_commands()[..] {
        [AgentCommand::SubmitResume(t)] => assert_eq!(t, "line one\nline two!"),
        other => panic!("{other:?}"),
    }
    assert_eq!(app.input, "");
}

#[test]
fn enter_in_a_burst_is_a_line_break() {
    let mut app = on(Screen::Resume);
    press(&mut app, key(KeyCode::Char('a')), SECOND);
    press(&mut app, key(KeyCode::Enter), SECOND + 39_999_999);
    assert_eq!(app.input, "a\n");
    press(&mut app, key(KeyCode::Char('b')), 2 * SECOND);
    press(&mut app, key(KeyCode::Enter), 2 * SECOND + 40_000_000);
    assert_eq!(app.input, "");
    assert_eq!(app.take_commands().len(), 1);
}

#[test]
fn ctrl_d_submits_the_resume_at_once() {
    let mut app = on(Screen::Resume);
    press(&mut app, ctrl('d'), 0);
    assert!(app.take_commands().is_empty());
    app.on_paste("cv", 0);
    press(&mut app, ctrl('S'), 0);
    assert_eq!(app.take_commands().len(), 1);
}

#[test]
fn editing_keys() {
    let mut app = on(Screen::Resume);
    app.on_paste("añ", 0);
    press(&mut app, key(KeyCode::Backspace), 0);
    assert_eq!(app.input, "a");
    press(&mut app, key(KeyCode::PageUp), 0);
    assert_eq!(app.scroll, 5);
    press(&mut app, key(KeyCode::PageDown), 0);
    press(&mut app, key(KeyCode::PageDown), 0);
    assert_eq!(app.scroll, 0);
    press(&mut app, key(KeyCode::Home), 0);
    assert_eq!(app.scroll, 0);
}

#[test]
fn enter_sends_the_message() {
    let mut app = on(Screen::Chat);
    press(&mut app, key(KeyCode::Enter), 0);
    assert!(app.take_commands().is_empty());
    app.on_paste("  hi there ", 0);
    press(&mut app, key(KeyCode::Enter), 0);
    match &app.take_commands()[..] {
        [AgentCommand::UserMessage(t)] => assert_eq!(t, "hi there"),
        other => panic!("{other:?}"),
    }
    assert_eq!(app.transcript[0].text, "hi there");
    assert_eq!(app.transcript[0].kind, LineKind::User);
    assert_eq!(app.input, "");
}

#[test]
fn input_is_locked_while_busy() {
    for screen in [Screen::Resume, Screen::Chat] {
        let mut app = on(screen);
        app.busy = true;
        app.on_paste("text", 0);
        press(&mut app, key(KeyCode::Enter), SECOND);
        press(&mut app, ctrl('d'), SECOND);
        assert!(app.take_commands().is_empty());
    }
}

#[test]
fn ctrl_r_syncs_from_the_browser() {
    let mut app = on(Screen::Chat);
    press(&mut app, ctrl('r'), 0);
    assert!(matches!(app.take_commands()[..], [AgentCommand::SyncFromBrowser]));
    press(&mut app, key(KeyCode::Char('r')), 0);
    assert_eq!(app.input, "r");
}

#[test]
fn scrolling_stays_in_range() {
    let mut app = on(Screen::Chat);
    press(&mut app, key(KeyCode::Home), 0);
    assert_eq!(app.scroll, 32767);
    app.scroll_up(u16::MAX);
    assert_eq!(app.scroll, u16::MAX);
    press(&mut app, key(KeyCode::End), 0);
    mouse(&mut app, Mouse::ScrollUp, 0, 0);
    assert_eq!(app.scroll, 3);
    mouse(&mut app, Mouse::ScrollDown, 0, 0);
    mouse(&mut app, Mouse::ScrollDown, 0, 0);
    assert_eq!(app.scroll, 0);
}

#[test]
fn pastes_are_taken_where_there_is_an_input() {
    let mut app = App::new(0);
    handle_terminal_event(&mut app, TermEvent::Paste("x".into()), 5);
    assert_eq!(app.input, "");
    assert_eq!(app.last_input, 0);
    app.screen = Screen::Chat;
    handle_terminal_event(&mut app, TermEvent::Paste("x".into()), 5);
    assert_eq!(app.input, "x");
    assert_eq!(app.last_input, 5);
}

#[test]
fn cells_map_to_content() {
    let app = chat_with_text();
    assert_eq!(app.content_pos(2, 1, false), Some((1, 0)));
    assert_eq!(app.content_pos(9, 2, false), Some((2, 5)));
    assert_eq!(app.content_pos(1, 1, false), None);
    assert_eq!(app.content_pos(22, 1, false), None);
    assert_eq!(app.content_pos(2, 3, false), None);
    assert_eq!(app.content_pos(0, 0, true), Some((1, 0)));
    assert_eq!(app.content_pos(90, 90, true), Some((2, 5)));
    assert_eq!(on(Screen::Chat).content_pos(0, 0, true), None);
}

#[test]
fn cells_at_the_far_edge_do_not_overflow() {
    let mut app = chat_with_text();
    let area = Rect { x: 65_530, y: 65_530, width: 10, height: 10 };
    app.set_chat_view(vec!["abcdefgh".to_string()], area, usize::MAX);
    assert_eq!(app.content_pos(65_535, 65_535, false), Some((0, 5)));
}

#[test]
fn dragging_selects_and_release_copies() {
    let mut app = chat_with_text();
    assert_eq!(mouse(&mut app, Mouse::Down, 2, 1), None);
    assert_eq!(mouse(&mut app, Mouse::Drag, 8, 1), None);
    assert_eq!(mouse(&mut app, Mouse::Up, 8, 1), Some("second".to_string()));
    assert_eq!(app.selection_range(), Some(((1, 0), (1, 6))));
}

#[test]
fn ctrl_c_copies_a_selection_instead_of_quitting() {
    let mut app = chat_with_text();
    mouse(&mut app, Mouse::Down, 2, 1);
    mouse(&mut app, Mouse::Drag, 5, 2);
    assert_eq!(press(&mut app, ctrl('c'), 0), Some("second line\nthi".to_string()));
    assert!(!app.should_quit);
    assert_eq!(press(&mut app, ctrl('C'), 0), Some("second line\nthi".to_string()));
}

#[test]
fn plain_click_clears_the_selection() {
    let mut app = chat_with_text();
    mouse(&mut app, Mouse::Down, 2, 1);
    mouse(&mut app, Mouse::Drag, 8, 1);
    mouse(&mut app, Mouse::Down, 3, 1);
    assert_eq!(mouse(&mut app, Mouse::Up, 3, 1), None);
    assert_eq!(app.selection_range(), None);
    mouse(&mut app, Mouse::Down, 3, 1);
    assert_eq!(press(&mut app, ctrl('c'), 0), None);
    assert!(app.should_quit);
}

#[test]
fn click_outside_selects_nothing() {
    let mut app = chat_with_text();
    mouse(&mut app, Mouse::Down, 0, 0);
    mouse(&mut app, Mouse::Drag, 8, 1);
    assert_eq!(app.finish_selection(), None);
    mouse(&mut app, Mouse::Other, 0, 0);
    assert_eq!(handle_terminal_event(&mut app, TermEvent::Other, 0), None);
}

#[test]
fn ctrl_c_quits_every_screen() {
    for screen in [Screen::Connect, Screen::Resume, Screen::Chat] {
        let mut app = on(screen);
        app.busy = true;
        press(&mut app, ctrl('c'), 0);
        assert!(app.should_quit);
        assert!(matches!(app.take_commands()[..], [AgentCommand::Quit]));
    }
}

#[test]
fn typing_is_undone_by_backspace() {
    let mut app = on(Screen::Chat);
    app.on_paste("abc", 0);
    press(&mut app, key(KeyCode::Char('é')), 0);
    press(&mut app, key(KeyCode::Backspace), 0);
    assert_eq!(app.input, "abc");
}

#[test]
fn events_leave_the_input_alone() {
    let mut app = on(Screen::Chat);
    app.on_paste("half a mess", 0);
    app.handle_event(AgentEvent::AssistantChunk("x".into()));
    app.handle_event(AgentEvent::Error("y".into()));
    app.handle_event(AgentEvent::NeedResume);
    assert_eq!(app.input, "half a mess");
    assert!(app.take_commands().is_empty());
    assert!(!app.should_quit);
}

#[test]
fn transcript_only_grows() {
    let mut app = on(Screen::Chat);
    let events = vec![
        AgentEvent::System("a".into()),
        AgentEvent::AssistantChunk("b".into()),
        AgentEvent::AssistantChunk("c".into()),
        AgentEvent::Status("d".into()),
        AgentEvent::Busy(false),
        AgentEvent::Error("e".into()),
    ];
    let mut before: Vec<String> = Vec::new();
    for event in events {
        app.handle_event(event);
        let after: Vec<String> = app.transcript.iter().map(|l| l.text.clone()).collect();
        assert!(before.iter().zip(&after).all(|(b, a)| a.starts_with(b.as_str())));
        assert!(after.len() >= before.len());
        before = after;
    }
    assert_eq!(before, ["a", "bc", "e"]);
}
