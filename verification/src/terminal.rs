//! Terminal input: what keys, pastes and the mouse do to the [`App`].
use crate::app;
use crate::app::{App, Key};
use crate::event;
use crate::text;
use vstd::prelude::*;

verus! {

/// What the mouse does, as far as it matters.
#[derive(Debug, Clone, Copy, PartialEq, Eq, Structural)]
pub enum Mouse {
    /// The wheel turns up.
    ScrollUp,
    /// The wheel turns down.
    ScrollDown,
    /// The left button goes down.
    Down,
    /// The mouse moves with the left button down.
    Drag,
    /// The left button goes up.
    Up,
    /// Anything else.
    Other,
}

/// An event of the terminal, as far as it matters.
#[derive(Debug)]
pub enum TermEvent {
    /// A key was pressed.
    Press(Key),
    /// Text was pasted.
    Paste(String),
    /// The mouse did something.
    Mouse {
        /// What.
        kind: Mouse,
        /// In which column.
        column: u16,
        /// In which row.
        row: u16,
    },
    /// Anything else.
    Other,
}

/// What handling an event comes to: the state, and the text to copy to the
/// clipboard.
pub struct Handled {
    /// The state.
    pub app: app::AppModel,
    /// The text to copy.
    pub copied: Option<Seq<char>>,
}

/// After a key that is not spent on copying a selection. It may queue text for
/// the clipboard (e.g. "c" on the connect screen copies the authorize link).
pub open spec fn after_key(a: app::AppModel, key: Key, now: u64) -> Handled {
    let b = a.key_pressed(key, now);
    Handled { app: app::AppModel { pending_copy: None, ..b }, copied: b.pending_copy }
}

/// After an event of the terminal.
pub open spec fn after_event(a: app::AppModel, e: TermEvent, now: u64) -> Handled {
    match e {
        TermEvent::Press(key) => if !key.ctrl_c() {
            after_key(a, key, now)
        } else if a.selection_text() is Some {
            Handled { app: a, copied: a.selection_text() }
        } else {
            after_key(a.selection_finished(), key, now)
        },
        TermEvent::Paste(said) => Handled { app: a.pasted(said@, now), copied: None },
        TermEvent::Mouse { kind, column, row } => match kind {
            Mouse::ScrollUp => Handled { app: a.scrolled_up(3), copied: None },
            Mouse::ScrollDown => Handled { app: a.scrolled_down(3), copied: None },
            Mouse::Down => Handled { app: a.selection_begun(column, row), copied: None },
            Mouse::Drag => Handled { app: a.selection_updated(column, row), copied: None },
            Mouse::Up => Handled { app: a.selection_finished(), copied: a.selection_text() },
            Mouse::Other => Handled { app: a, copied: None },
        },
        TermEvent::Other => Handled { app: a, copied: None },
    }
}

/// Handles an event of the terminal at the time `now`. Returns the text to copy
/// to the clipboard, if any.
pub fn handle_terminal_event(app: &mut App, event: TermEvent, now: u64) -> (r: Option<String>)
    ensures
        final(app)@ == after_event(old(app)@, event, now).app,
        text::opt_text(r) == after_event(old(app)@, event, now).copied,
{
    match event {
        TermEvent::Press(key) => {
            // If text is selected, Ctrl+C copies it instead of quitting.
            if key.is_ctrl_c() {
                if let Some(said) = app.finish_selection() {
                    return Some(said);
                }
            }
            app.on_key(key, now);
            app.take_pending_copy()
        },
        TermEvent::Paste(said) => {
            app.on_paste(said.as_str(), now);
            None
        },
        TermEvent::Mouse { kind, column, row } => match kind {
            Mouse::ScrollUp => {
                app.scroll_up(3);
                None
            },
            Mouse::ScrollDown => {
                app.scroll_down(3);
                None
            },
            Mouse::Down => {
                app.begin_selection(column, row);
                None
            },
            Mouse::Drag => {
                app.update_selection(column, row);
                None
            },
            Mouse::Up => app.finish_selection(),
            Mouse::Other => None,
        },
        TermEvent::Other => None,
    }
}

// ---------------------------------------------------------------------------
// Laws
// ---------------------------------------------------------------------------
/// With text selected, Ctrl+C copies it, and changes nothing.
pub proof fn ctrl_c_copies_a_selection(a: app::AppModel, key: Key, now: u64)
    requires
        key.ctrl_c(),
        a.selection_text() is Some,
    ensures
        after_event(a, TermEvent::Press(key), now).app == a,
        after_event(a, TermEvent::Press(key), now).copied == a.selection_text(),
{
}

/// Without text selected, Ctrl+C quits from every screen.
pub proof fn ctrl_c_quits(a: app::AppModel, key: Key, now: u64)
    requires
        key.ctrl_c(),
        a.selection_text() is None,
    ensures
        after_event(a, TermEvent::Press(key), now).app.should_quit,
        after_event(a, TermEvent::Press(key), now).app.outbox == a.outbox.push(
            event::CommandModel::Quit,
        ),
{
}

/// A click without a drag selects nothing and copies nothing.
pub proof fn click_copies_nothing(a: app::AppModel, column: u16, row: u16, now: u64)
    ensures
        ({
            let down = after_event(a, TermEvent::Mouse { kind: Mouse::Down, column, row }, now);
            let up = after_event(down.app, TermEvent::Mouse { kind: Mouse::Up, column, row }, now);
            up.copied is None && up.app == (app::AppModel { selection: None, ..a })
        }),
{
}

/// What a drag selected is copied on release, and again on Ctrl+C.
pub proof fn selection_outlives_the_release(a: app::AppModel, column: u16, row: u16, key: Key, now: u64)
    requires
        key.ctrl_c(),
        a.selection_text() is Some,
    ensures
        ({
            let up = after_event(a, TermEvent::Mouse { kind: Mouse::Up, column, row }, now);
            let again = after_event(up.app, TermEvent::Press(key), now);
            up.copied == a.selection_text() && again.copied == a.selection_text() && again.app == a
        }),
{
}

/// While the agent works, no event of the terminal sends it a resume, a message
/// or a request to connect; and no event ever takes back a command.
pub proof fn input_is_locked_while_busy(a: app::AppModel, e: TermEvent, now: u64)
    requires
        a.busy,
    ensures
        ({
            let after = after_event(a, e, now).app.outbox;
            ||| after == a.outbox
            ||| after == a.outbox.push(event::CommandModel::SyncFromBrowser)
            ||| after == a.outbox.push(event::CommandModel::Quit)
        }),
{
}

/// No event of the terminal breaks the state's invariant.
pub proof fn input_keeps_the_state_coherent(a: app::AppModel, e: TermEvent, now: u64)
    requires
        a.coherent(),
    ensures
        after_event(a, e, now).app.coherent(),
{
}

/// On the connect screen `c` puts the login link into the clipboard.
pub proof fn c_copies_the_link(a: app::AppModel, url: Seq<char>, now: u64)
    requires
        a.screen == app::Screen::Connect,
        a.connect_url == Some(url),
    ensures
        ({
            let after = after_event(
                a,
                TermEvent::Press(Key { code: app::KeyCode::Char('c'), ctrl: false }),
                now,
            );
            after.copied == Some(url) && after.app.pending_copy is None && after.app.connect_url
                == Some(url)
        }),
{
}

/// The wheel moves the view by three lines, and the mouse does nothing to what the
/// user types or sends.
pub proof fn the_mouse_only_scrolls_and_selects(
    a: app::AppModel,
    kind: Mouse,
    column: u16,
    row: u16,
    now: u64,
)
    ensures
        ({
            let after = after_event(a, TermEvent::Mouse { kind, column, row }, now).app;
            &&& kind is ScrollUp && a.scroll <= 65532 ==> after.scroll == a.scroll + 3
            &&& kind is ScrollDown && a.scroll >= 3 ==> after.scroll == a.scroll - 3
            &&& !(kind is ScrollUp || kind is ScrollDown) ==> after.scroll == a.scroll
            &&& after.input == a.input
            &&& after.outbox == a.outbox
            &&& after.transcript == a.transcript
            &&& after.should_quit == a.should_quit
        }),
{
}

/// Keys that are not spent on copying do what they do, and what they queue for the
/// clipboard is handed over at once.
pub proof fn keys_reach_the_app(a: app::AppModel, key: Key, now: u64)
    requires
        !(key.ctrl && (key.code == app::KeyCode::Char('c') || key.code == app::KeyCode::Char('C'))),
    ensures
        after_event(a, TermEvent::Press(key), now).copied == a.key_pressed(key, now).pending_copy,
        after_event(a, TermEvent::Press(key), now).app == (app::AppModel {
            pending_copy: None,
            ..a.key_pressed(key, now)
        }),
{
}

/// What is pasted reaches the app, and the mouse button begins, extends and ends a
/// selection.
pub proof fn pastes_and_drags_reach_the_app(
    a: app::AppModel,
    said: String,
    column: u16,
    row: u16,
    now: u64,
)
    ensures
        after_event(a, TermEvent::Paste(said), now).app == a.pasted(said@, now),
        after_event(a, TermEvent::Paste(said), now).copied is None,
        after_event(a, TermEvent::Mouse { kind: Mouse::Down, column, row }, now).app
            == a.selection_begun(column, row),
        after_event(a, TermEvent::Mouse { kind: Mouse::Drag, column, row }, now).app
            == a.selection_updated(column, row),
        after_event(a, TermEvent::Mouse { kind: Mouse::Up, column, row }, now).copied
            == a.selection_text(),
{
}

} // verus!
