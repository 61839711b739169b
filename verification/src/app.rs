//! UI-side state: the current screen, the chat transcript, the input buffer,
//! and the reducer that folds [`AgentEvent`]s into state. All network and
//! browser work happens on the agent's side; this file only ever touches memory.
use crate::decimal;
use crate::event;
use crate::event::{AgentCommand, AgentEvent};
use crate::llm;
use crate::selection;
use crate::selection::Selection;
use crate::text;
use crate::words;
use vstd::prelude::*;

verus! {

/// What is on the screen.
#[derive(Debug, Clone, Copy, PartialEq, Eq, Structural)]
pub enum Screen {
    /// Connecting the ChatGPT subscription.
    Connect,
    /// Pasting resume text (shown when `resume.txt` is blank).
    Resume,
    /// The main chat / apply loop.
    Chat,
}

/// Who speaks in a transcript line.
#[derive(Debug, Clone, Copy, PartialEq, Eq, Structural)]
pub enum LineKind {
    /// The user.
    User,
    /// The model.
    Assistant,
    /// klawply itself.
    System,
    /// klawply, of something that went wrong.
    Error,
}

/// An entry of the transcript.
#[derive(Debug, Clone)]
pub struct Line {
    /// Who speaks.
    pub kind: LineKind,
    /// What is said.
    pub text: String,
}

/// What a [`Line`] stands for.
#[verifier::ext_equal]
pub struct LineModel {
    /// Who speaks.
    pub kind: LineKind,
    /// What is said.
    pub text: Seq<char>,
}

impl View for Line {
    type V = LineModel;

    open spec fn view(&self) -> LineModel {
        LineModel { kind: self.kind, text: self.text@ }
    }
}

/// Transcript entries, as models.
pub open spec fn line_models(s: Seq<Line>) -> Seq<LineModel> {
    s.map_values(|l: Line| l@)
}

/// A rectangle of terminal cells.
#[derive(Debug, Clone, Copy, PartialEq, Eq, Structural)]
pub struct Rect {
    /// The leftmost column.
    pub x: u16,
    /// The topmost row.
    pub y: u16,
    /// How many columns.
    pub width: u16,
    /// How many rows.
    pub height: u16,
}

/// A key, as far as it matters.
#[derive(Debug, Clone, Copy, PartialEq, Eq, Structural)]
pub enum KeyCode {
    /// A character.
    Char(char),
    /// Enter.
    Enter,
    /// Backspace.
    Backspace,
    /// Page up.
    PageUp,
    /// Page down.
    PageDown,
    /// Home.
    Home,
    /// End.
    End,
    /// Any other key.
    Other,
}

/// A key press.
#[derive(Debug, Clone, Copy, PartialEq, Eq, Structural)]
pub struct Key {
    /// The key.
    pub code: KeyCode,
    /// Whether Ctrl was held.
    pub ctrl: bool,
}

impl Key {
    /// Whether the key is the letter `lower` or `upper`.
    pub open spec fn letter(self, lower: char, upper: char) -> bool {
        self.code == KeyCode::Char(lower) || self.code == KeyCode::Char(upper)
    }

    /// Whether the key is Ctrl+C.
    pub open spec fn ctrl_c(self) -> bool {
        self.ctrl && self.letter('c', 'C')
    }

    /// Whether the key is the letter `lower` or `upper`.
    pub fn is_letter(&self, lower: char, upper: char) -> (r: bool)
        ensures
            r == self.letter(lower, upper),
    {
        match self.code {
            KeyCode::Char(c) => c == lower || c == upper,
            _ => false,
        }
    }

    /// Whether the key is Ctrl+C.
    pub fn is_ctrl_c(&self) -> (r: bool)
        ensures
            r == self.ctrl_c(),
    {
        self.ctrl && self.is_letter('c', 'C')
    }
}

/// The state of the UI.
pub struct App {
    /// Whether to end the program.
    pub should_quit: bool,
    /// What is on the screen.
    pub screen: Screen,
    /// The chat transcript.
    pub transcript: Vec<Line>,
    /// Chat input, or the resume editor buffer on the resume screen.
    pub input: String,
    /// Header status / spinner text.
    pub status: String,
    /// Authorize link shown on the connect screen while waiting.
    pub connect_url: Option<String>,
    /// Who is connected.
    pub email: String,
    /// With which plan.
    pub plan: String,
    /// True while the agent is working: locks input and drives the spinner.
    pub busy: bool,
    /// True once the OAuth flow has begun.
    pub connecting: bool,
    /// Lines scrolled up from the bottom of the transcript (0 = pinned).
    pub scroll: u16,
    /// When the last character was typed or pasted, in nanoseconds: used to tell
    /// a manual Enter (submit) apart from newlines arriving inside a fast paste
    /// burst.
    pub last_input: u64,
    /// Active mouse text selection over the chat transcript, if any.
    pub selection: Option<Selection>,
    /// The exact wrapped visual lines of the transcript as last rendered, so
    /// that mouse cells can be mapped back to text (and the selection
    /// extracted).
    pub chat_lines: Vec<String>,
    /// Inner rectangle those lines were drawn in.
    pub chat_area: Rect,
    /// Index of the first visible transcript line (top of the view).
    pub chat_top: usize,
    /// Text queued to be copied to the clipboard; drained by the event loop
    /// (which owns terminal IO) after each keypress.
    pub pending_copy: Option<String>,
    /// True while an assistant reply is streaming, so that chunks append to the
    /// same transcript line instead of starting new ones.
    pub streaming: bool,
    /// Commands to send to the agent; drained by the event loop.
    pub outbox: Vec<AgentCommand>,
}

/// What an [`App`] stands for.
#[verifier::ext_equal]
pub struct AppModel {
    /// Whether to end the program.
    pub should_quit: bool,
    /// What is on the screen.
    pub screen: Screen,
    /// The chat transcript.
    pub transcript: Seq<LineModel>,
    /// The input.
    pub input: Seq<char>,
    /// The status.
    pub status: Seq<char>,
    /// The authorize link.
    pub connect_url: Option<Seq<char>>,
    /// Who is connected.
    pub email: Seq<char>,
    /// With which plan.
    pub plan: Seq<char>,
    /// Whether the agent is working.
    pub busy: bool,
    /// Whether the OAuth flow has begun.
    pub connecting: bool,
    /// Lines scrolled up from the bottom.
    pub scroll: u16,
    /// When the last character came.
    pub last_input: u64,
    /// The selection.
    pub selection: Option<selection::SelectionModel>,
    /// The wrapped lines as last rendered.
    pub chat_lines: Seq<Seq<char>>,
    /// The rectangle that they were drawn in.
    pub chat_area: Rect,
    /// The first visible line.
    pub chat_top: usize,
    /// Text to be copied.
    pub pending_copy: Option<Seq<char>>,
    /// Whether a reply is streaming.
    pub streaming: bool,
    /// Commands to send.
    pub outbox: Seq<event::CommandModel>,
}

impl View for App {
    type V = AppModel;

    open spec fn view(&self) -> AppModel {
        AppModel {
            should_quit: self.should_quit,
            screen: self.screen,
            transcript: line_models(self.transcript@),
            input: self.input@,
            status: self.status@,
            connect_url: text::opt_text(self.connect_url),
            email: self.email@,
            plan: self.plan@,
            busy: self.busy,
            connecting: self.connecting,
            scroll: self.scroll,
            last_input: self.last_input,
            selection: match self.selection {
                Some(s) => Some(s@),
                None => None,
            },
            chat_lines: text::texts(self.chat_lines@),
            chat_area: self.chat_area,
            chat_top: self.chat_top,
            pending_copy: text::opt_text(self.pending_copy),
            streaming: self.streaming,
            outbox: event::commands(self.outbox@),
        }
    }
}

/// How close two inputs have to be, in nanoseconds, for an Enter to be part of
/// a paste.
pub const BURST_NANOS: u64 = 40_000_000;

/// The middle one of three values that ascend at the ends.
pub open spec fn clamped(v: int, low: int, high: int) -> int {
    if v < low {
        low
    } else if v > high {
        high
    } else {
        v
    }
}

/// The smaller one.
pub open spec fn smaller(a: int, b: int) -> int {
    if a < b {
        a
    } else {
        b
    }
}

/// Whether a cell lies in a rectangle.
pub open spec fn lies_in(col: u16, row: u16, area: Rect) -> bool {
    area.x <= col < area.x + area.width && area.y <= row < area.y + area.height
}

/// The text that reports a filled form.
pub open spec fn applied_text(url: Seq<char>, filled: nat, failed: Seq<Seq<char>>) -> Seq<char> {
    "Filled "@ + decimal::decimal(filled) + " field(s) on "@ + url + "."@ + (if failed.len() > 0 {
        "\nCould not fill "@ + decimal::decimal(failed.len()) + ": "@ + words::joined(
            failed,
            "; "@,
        )
    } else {
        Seq::empty()
    }) + "\nReview the page in Chrome and submit when you're happy."@
}

/// What the resume screen asks for.
pub const RESUME_REQUEST: &'static str = "Paste your resume text above, then press Enter (or Ctrl+D) to save it. \
                     klawply will read it and fill in your application fields.";

impl AppModel {
    /// The state at the start.
    pub open spec fn initial(now: u64) -> AppModel {
        AppModel {
            should_quit: false,
            screen: Screen::Connect,
            transcript: Seq::empty(),
            input: Seq::empty(),
            status: Seq::empty(),
            connect_url: None,
            email: Seq::empty(),
            plan: Seq::empty(),
            busy: false,
            connecting: false,
            scroll: 0,
            last_input: now,
            selection: None,
            chat_lines: Seq::empty(),
            chat_area: Rect { x: 0, y: 0, width: 0, height: 0 },
            chat_top: 0,
            pending_copy: None,
            streaming: false,
            outbox: Seq::empty(),
        }
    }

    /// After sending a command.
    pub open spec fn sent(self, c: event::CommandModel) -> AppModel {
        AppModel { outbox: self.outbox.push(c), ..self }
    }

    /// After the connection was kicked off.
    pub open spec fn connect_started(self) -> AppModel {
        AppModel { connecting: true, status: "connecting to ChatGPT…"@, ..self }.sent(
            event::CommandModel::Connect,
        )
    }

    /// After another transcript entry: the view is pinned to the bottom, any
    /// selection is stale, and a streaming reply has ended.
    pub open spec fn pushed(self, kind: LineKind, said: Seq<char>) -> AppModel {
        AppModel {
            transcript: self.transcript.push(LineModel { kind, text: said }),
            scroll: 0,
            selection: None,
            streaming: false,
            ..self
        }
    }

    /// Whether a fragment extends the last entry.
    pub open spec fn extends(self) -> bool {
        self.streaming && self.transcript.len() > 0 && self.transcript.last().kind
            == LineKind::Assistant
    }

    /// After a streamed fragment.
    pub open spec fn chunk_added(self, delta: Seq<char>) -> AppModel {
        if self.extends() {
            let last = self.transcript.last();
            AppModel {
                transcript: self.transcript.drop_last().push(
                    LineModel { kind: last.kind, text: last.text + delta },
                ),
                scroll: 0,
                selection: None,
                ..self
            }
        } else {
            AppModel {
                transcript: self.transcript.push(
                    LineModel { kind: LineKind::Assistant, text: delta },
                ),
                scroll: 0,
                selection: None,
                streaming: true,
                ..self
            }
        }
    }

    /// The content position of a screen cell.
    pub open spec fn position(self, col: u16, row: u16, clamp: bool) -> Option<selection::Pos> {
        let area = self.chat_area;
        if area.width == 0 || area.height == 0 || self.chat_lines.len() == 0 {
            None
        } else if !lies_in(col, row, area) && !clamp {
            None
        } else {
            let down = clamped(row as int, area.y as int, area.y + area.height - 1) - area.y;
            let right = clamped(col as int, area.x as int, area.x + area.width - 1) - area.x;
            let line = smaller(self.chat_top + down, self.chat_lines.len() - 1);
            let column = smaller(right, self.chat_lines[line].len() as int);
            Some((line as usize, column as usize))
        }
    }

    /// After the mouse went down.
    pub open spec fn selection_begun(self, col: u16, row: u16) -> AppModel {
        AppModel {
            selection: match self.position(col, row, false) {
                Some(pos) => Some(selection::SelectionModel::click(pos)),
                None => None,
            },
            ..self
        }
    }

    /// After the mouse was dragged.
    pub open spec fn selection_updated(self, col: u16, row: u16) -> AppModel {
        match (self.position(col, row, true), self.selection) {
            (Some(pos), Some(s)) => AppModel { selection: Some(s.dragged(pos)), ..self },
            _ => self,
        }
    }

    /// The selected text, if a drag happened.
    pub open spec fn selection_text(self) -> Option<Seq<char>> {
        match self.selection {
            Some(s) => if s.active {
                Some(s.text_of(self.chat_lines))
            } else {
                None
            },
            None => None,
        }
    }

    /// After a selection was finished: only a plain click clears it.
    pub open spec fn selection_finished(self) -> AppModel {
        AppModel {
            selection: if self.selection_text() is Some {
                self.selection
            } else {
                None
            },
            ..self
        }
    }

    /// After an event of the agent.
    pub open spec fn handled(self, e: event::EventModel) -> AppModel {
        match e {
            event::EventModel::Status(s) => AppModel { status: s, ..self },
            event::EventModel::Busy(on) => AppModel {
                busy: on,
                status: if on {
                    self.status
                } else {
                    Seq::empty()
                },
                ..self
            },
            event::EventModel::ConnectPrompt { url } => AppModel {
                connect_url: Some(url),
                status: "waiting for you to authorize in the browser…"@,
                ..self.pushed(
                    LineKind::System,
                    "Log in to ChatGPT in your browser. If it didn't open: "@ + url,
                )
            },
            event::EventModel::Connected { email, plan } => AppModel {
                email,
                plan,
                connect_url: None,
                status: "connected"@,
                ..self
            },
            event::EventModel::NeedResume => AppModel {
                screen: Screen::Resume,
                ..self.pushed(LineKind::System, RESUME_REQUEST@)
            },
            event::EventModel::Ready => AppModel { screen: Screen::Chat, ..self },
            event::EventModel::AssistantChunk(delta) => self.chunk_added(delta),
            event::EventModel::System(said) => self.pushed(LineKind::System, said),
            event::EventModel::Error(said) => self.pushed(LineKind::Error, said),
            event::EventModel::FieldsUpdated { changed } => if changed.len() > 0 {
                self.pushed(
                    LineKind::System,
                    "Updated fields.json: "@ + words::joined(changed, ", "@),
                )
            } else {
                self
            },
            event::EventModel::Applied { url, filled, failed } => self.pushed(
                LineKind::System,
                applied_text(url, filled, failed),
            ),
        }
    }

    /// After a paste.
    pub open spec fn pasted(self, said: Seq<char>, now: u64) -> AppModel {
        if self.screen == Screen::Connect {
            self
        } else {
            AppModel { input: self.input + said, last_input: now, ..self }
        }
    }

    /// After a character was typed.
    pub open spec fn typed(self, c: char) -> AppModel {
        AppModel { input: self.input.push(c), ..self }
    }

    /// After a backspace.
    pub open spec fn rubbed_out(self) -> AppModel {
        AppModel { input: text::without_last(self.input), ..self }
    }

    /// After the resume was submitted, if there is one and the agent is idle.
    pub open spec fn resume_submitted(self) -> AppModel {
        if !text::is_blank(self.input) && !self.busy {
            AppModel { input: Seq::empty(), ..self }.sent(
                event::CommandModel::SubmitResume(self.input),
            )
        } else {
            self
        }
    }

    /// After a message was submitted, if there is one and the agent is idle.
    pub open spec fn message_submitted(self) -> AppModel {
        let said = text::trimmed(self.input);
        if said.len() > 0 && !self.busy {
            AppModel { input: Seq::empty(), ..self }.pushed(LineKind::User, said).sent(
                event::CommandModel::UserMessage(said),
            )
        } else {
            self
        }
    }

    /// After scrolling up.
    pub open spec fn scrolled_up(self, n: u16) -> AppModel {
        AppModel { scroll: smaller(self.scroll + n, 65535) as u16, ..self }
    }

    /// After scrolling down.
    pub open spec fn scrolled_down(self, n: u16) -> AppModel {
        AppModel {
            scroll: (if self.scroll < n {
                0
            } else {
                self.scroll - n
            }) as u16,
            ..self
        }
    }

    /// After quitting.
    pub open spec fn quitted(self) -> AppModel {
        AppModel { should_quit: true, ..self.sent(event::CommandModel::Quit) }
    }

    /// After a key on the connect screen.
    pub open spec fn connect_key(self, key: Key) -> AppModel {
        if key.letter('q', 'Q') {
            self.quitted()
        } else if key.letter('c', 'C') || key.letter('y', 'Y') {
            AppModel {
                pending_copy: match self.connect_url {
                    Some(url) => Some(url),
                    None => self.pending_copy,
                },
                ..self
            }
        } else if key.code == KeyCode::Enter && !self.busy {
            self.connect_started()
        } else {
            self
        }
    }

    /// Whether an Enter comes so soon after other input that it is part of a
    /// paste.
    pub open spec fn in_burst(self, now: u64) -> bool {
        now - self.last_input < BURST_NANOS
    }

    /// After a key on the resume screen.
    pub open spec fn resume_key(self, key: Key, now: u64) -> AppModel {
        if key.ctrl && (key.letter('s', 'S') || key.letter('d', 'D')) {
            self.resume_submitted()
        } else {
            match key.code {
                KeyCode::Char(c) => AppModel { last_input: now, ..self.typed(c) },
                KeyCode::Enter => if self.in_burst(now) {
                    AppModel { last_input: now, ..self.typed('\n') }
                } else {
                    self.resume_submitted()
                },
                KeyCode::Backspace => self.rubbed_out(),
                KeyCode::PageUp => self.scrolled_up(5),
                KeyCode::PageDown => self.scrolled_down(5),
                _ => self,
            }
        }
    }

    /// After a key on the chat screen.
    pub open spec fn chat_key(self, key: Key) -> AppModel {
        if key.ctrl && key.letter('r', 'R') {
            self.sent(event::CommandModel::SyncFromBrowser)
        } else {
            match key.code {
                KeyCode::Char(c) => self.typed(c),
                KeyCode::Backspace => self.rubbed_out(),
                KeyCode::Enter => self.message_submitted(),
                KeyCode::PageUp => self.scrolled_up(5),
                KeyCode::PageDown => self.scrolled_down(5),
                KeyCode::Home => AppModel { scroll: 32767, ..self },
                KeyCode::End => AppModel { scroll: 0, ..self },
                KeyCode::Other => self,
            }
        }
    }

    /// After a key.
    pub open spec fn key_pressed(self, key: Key, now: u64) -> AppModel {
        if key.ctrl_c() {
            self.quitted()
        } else {
            match self.screen {
                Screen::Connect => self.connect_key(key),
                Screen::Resume => self.resume_key(key, now),
                Screen::Chat => self.chat_key(key),
            }
        }
    }
}

impl AppModel {
    /// The state's invariant: a reply that is streaming is the last entry.
    pub open spec fn coherent(self) -> bool {
        self.streaming ==> self.transcript.len() > 0 && self.transcript.last().kind
            == LineKind::Assistant
    }
}

impl App {
    /// The state at the start, at the time `now`.
    pub fn new(now: u64) -> (r: App)
        ensures
            r@ == AppModel::initial(now),
    {
        let r = App {
            should_quit: false,
            screen: Screen::Connect,
            transcript: Vec::new(),
            input: String::new(),
            status: String::new(),
            connect_url: None,
            email: String::new(),
            plan: String::new(),
            busy: false,
            connecting: false,
            scroll: 0,
            last_input: now,
            selection: None,
            chat_lines: Vec::new(),
            chat_area: Rect { x: 0, y: 0, width: 0, height: 0 },
            chat_top: 0,
            pending_copy: None,
            streaming: false,
            outbox: Vec::new(),
        };
        assert(r@ =~= AppModel::initial(now));
        r
    }

    fn send(&mut self, cmd: AgentCommand)
        ensures
            final(self)@ == old(self)@.sent(cmd@),
    {
        broadcast use event::lemma_commands_push;

        self.outbox.push(cmd);
    }

    /// Takes the commands to send to the agent.
    pub fn take_commands(&mut self) -> (r: Vec<AgentCommand>)
        ensures
            event::commands(r@) == old(self)@.outbox,
            final(self)@ == (AppModel { outbox: Seq::empty(), ..old(self)@ }),
    {
        let mut r: Vec<AgentCommand> = Vec::new();
        std::mem::swap(&mut r, &mut self.outbox);
        assert(event::commands(self.outbox@) =~= Seq::<event::CommandModel>::empty());
        r
    }

    /// Kicks off the connection at startup.
    pub fn start_connect(&mut self)
        ensures
            final(self)@ == old(self)@.connect_started(),
    {
        self.connecting = true;
        self.status = text::owned("connecting to ChatGPT…");
        self.send(AgentCommand::Connect);
    }

    fn push(&mut self, kind: LineKind, said: String)
        ensures
            final(self)@ == old(self)@.pushed(kind, said@),
    {
        let ghost before = self.transcript@;
        self.transcript.push(Line { kind, text: said });
        assert(line_models(self.transcript@) =~= line_models(before).push(
            LineModel { kind, text: said@ },
        ));
        // Pin to the bottom on new content.
        self.scroll = 0;
        // New content shifts line indices, so any pending selection is stale.
        self.selection = None;
        // Any explicitly pushed line ends the current streaming reply.
        self.streaming = false;
    }

    /// Appends a streamed reply fragment: extends the current assistant line
    /// while streaming, otherwise starts a fresh one.
    fn append_assistant_chunk(&mut self, delta: &str)
        ensures
            final(self)@ == old(self)@.chunk_added(delta@),
    {
        let extend = self.streaming && self.transcript.len() > 0 && self.transcript[
            self.transcript.len() - 1].kind == LineKind::Assistant;
        if extend {
            if let Some(mut last) = self.transcript.pop() {
                last.text.append(delta);
                self.transcript.push(last);
            }
            assert(line_models(self.transcript@) =~= old(self)@.chunk_added(delta@).transcript);
        } else {
            self.transcript.push(Line { kind: LineKind::Assistant, text: text::owned(delta) });
            assert(line_models(self.transcript@) =~= old(self)@.chunk_added(delta@).transcript);
            self.streaming = true;
        }
        self.selection = None;
        self.scroll = 0;
    }

    // -- text selection (mouse drag → copy) --------------------------------
    /// Lets the renderer publish the wrapped transcript lines and their text
    /// rectangle so that mouse cells can be mapped back to content positions.
    pub fn set_chat_view(&mut self, lines: Vec<String>, area: Rect, top: usize)
        ensures
            final(self)@ == (AppModel {
                chat_lines: text::texts(lines@),
                chat_area: area,
                chat_top: top,
                ..old(self)@
            }),
    {
        self.chat_lines = lines;
        self.chat_area = area;
        self.chat_top = top;
    }

    /// The ordered selection range (content coordinates), for the highlighter.
    pub fn selection_range(&self) -> (r: Option<(selection::Pos, selection::Pos)>)
        ensures
            r == match self@.selection {
                Some(s) => s.ordered(),
                None => None,
            },
    {
        match &self.selection {
            Some(s) => s.range(),
            None => None,
        }
    }

    /// Records a selection anchor at a mouse cell. A click outside the chat text
    /// clears any selection.
    pub fn begin_selection(&mut self, col: u16, row: u16)
        ensures
            final(self)@ == old(self)@.selection_begun(col, row),
    {
        self.selection =
        match self.content_pos(col, row, false) {
            Some(pos) => Some(Selection::new(pos)),
            None => None,
        };
    }

    /// Extends the active selection to a mouse cell while dragging.
    pub fn update_selection(&mut self, col: u16, row: u16)
        ensures
            final(self)@ == old(self)@.selection_updated(col, row),
    {
        if let Some(pos) = self.content_pos(col, row, true) {
            if let Some(s) = self.selection {
                let mut dragged = s;
                dragged.drag(pos);
                self.selection = Some(dragged);
            }
        }
    }

    /// Finishes a selection (mouse release or Ctrl+C). Returns the selected text
    /// when a drag actually happened, else `None`. An active selection is kept
    /// highlighted after release (so that Ctrl+C can copy it too); only a plain
    /// click (no drag) clears it.
    pub fn finish_selection(&mut self) -> (r: Option<String>)
        ensures
            text::opt_text(r) == old(self)@.selection_text(),
            final(self)@ == old(self)@.selection_finished(),
    {
        if let Some(s) = &self.selection {
            if s.is_active() {
                return Some(s.extract(self.chat_lines.as_slice()));
            }
        }
        self.selection = None;
        None
    }

    /// Maps a screen cell to a `(line, column)` content position. Initial clicks
    /// (`clamp == false`) must land inside the chat text area; drags
    /// (`clamp == true`) are clamped into it so that a selection can extend past
    /// edges.
    pub fn content_pos(&self, col: u16, row: u16, clamp: bool) -> (r: Option<selection::Pos>)
        ensures
            r == self@.position(col, row, clamp),
    {
        let area = self.chat_area;
        if area.width == 0 || area.height == 0 || self.chat_lines.len() == 0 {
            return None;
        }
        let left: u32 = area.x as u32;
        let top: u32 = area.y as u32;
        let right: u32 = left + area.width as u32;
        let bottom: u32 = top + area.height as u32;
        let (x, y) = (col as u32, row as u32);
        let inside = x >= left && x < right && y >= top && y < bottom;
        if !inside && !clamp {
            return None;
        }
        let down: u32 = if y < top {
            0
        } else if y > bottom - 1 {
            bottom - 1 - top
        } else {
            y - top
        };
        let across: u32 = if x < left {
            0
        } else if x > right - 1 {
            right - 1 - left
        } else {
            x - left
        };
        let last: usize = self.chat_lines.len() - 1;
        let line: usize = if self.chat_top >= last || down as usize >= last - self.chat_top {
            last
        } else {
            self.chat_top + down as usize
        };
        assert(self@.chat_lines[line as int] == self.chat_lines@[line as int]@);
        let line_len: usize = text::chars_of(self.chat_lines[line].as_str()).len();
        let column: usize = if (across as usize) < line_len {
            across as usize
        } else {
            line_len
        };
        Some((line, column))
    }

    // -- agent events ------------------------------------------------------
    /// Folds an event of the agent into the state.
    pub fn handle_event(&mut self, event: AgentEvent)
        ensures
            final(self)@ == old(self)@.handled(event@),
    {
        match event {
            AgentEvent::Status(s) => {
                self.status = s;
            },
            AgentEvent::Busy(on) => {
                self.busy = on;
                if !on {
                    self.status = String::new();
                }
            },
            AgentEvent::ConnectPrompt { url } => {
                // Also drop it into the transcript so that it's visible on any
                // screen (e.g. when triggered by /login from the chat window).
                self.push(
                    LineKind::System,
                    text::chained(
                        "Log in to ChatGPT in your browser. If it didn't open: ",
                        url.as_str(),
                    ),
                );
                self.connect_url = Some(url);
                self.status = text::owned("waiting for you to authorize in the browser…");
            },
            AgentEvent::Connected { email, plan } => {
                self.email = email;
                self.plan = plan;
                self.connect_url = None;
                self.status = text::owned("connected");
            },
            AgentEvent::NeedResume => {
                self.screen = Screen::Resume;
                self.push(LineKind::System, text::owned(RESUME_REQUEST));
            },
            AgentEvent::Ready => {
                self.screen = Screen::Chat;
            },
            AgentEvent::AssistantChunk(delta) => self.append_assistant_chunk(delta.as_str()),
            AgentEvent::System(said) => self.push(LineKind::System, said),
            AgentEvent::Error(said) => self.push(LineKind::Error, said),
            AgentEvent::FieldsUpdated { changed } => {
                if changed.len() > 0 {
                    let names = words::join(&changed, ", ");
                    self.push(
                        LineKind::System,
                        text::chained("Updated fields.json: ", names.as_str()),
                    );
                }
            },
            AgentEvent::Applied { url, filled, failed } => {
                let mut msg = text::owned("Filled ");
                msg.append(decimal::size_decimal(filled).as_str());
                msg.append(" field(s) on ");
                msg.append(url.as_str());
                msg.append(".");
                let mut more = String::new();
                if failed.len() > 0 {
                    more = text::owned("\nCould not fill ");
                    more.append(decimal::size_decimal(failed.len()).as_str());
                    more.append(": ");
                    more.append(words::join(&failed, "; ").as_str());
                }
                msg.append(more.as_str());
                msg.append("\nReview the page in Chrome and submit when you're happy.");
                self.push(LineKind::System, msg);
            },
        }
    }

    // -- input -------------------------------------------------------------
    /// Takes in pasted text, on the screens that have an input.
    pub fn on_paste(&mut self, said: &str, now: u64)
        ensures
            final(self)@ == old(self)@.pasted(said@, now),
    {
        if self.screen == Screen::Resume || self.screen == Screen::Chat {
            self.input.append(said);
            self.last_input = now;
        }
    }

    fn submit_resume(&mut self)
        ensures
            final(self)@ == old(self)@.resume_submitted(),
    {
        if !text::blank(self.input.as_str()) && !self.busy {
            let said = self.input.clone();
            self.input = String::new();
            self.send(AgentCommand::SubmitResume(said));
        }
    }

    fn submit_message(&mut self)
        ensures
            final(self)@ == old(self)@.message_submitted(),
    {
        let said = text::trim(self.input.as_str());
        if !said.as_str().is_empty() && !self.busy {
            self.input = String::new();
            self.push(LineKind::User, said.clone());
            self.send(AgentCommand::UserMessage(said));
        }
    }

    /// Takes in a key press at the time `now`.
    pub fn on_key(&mut self, key: Key, now: u64)
        ensures
            final(self)@ == old(self)@.key_pressed(key, now),
    {
        // Global quit.
        if key.is_ctrl_c() {
            self.quit();
            return;
        }
        match self.screen {
            Screen::Connect => self.on_key_connect(key),
            Screen::Resume => self.on_key_resume(key, now),
            Screen::Chat => self.on_key_chat(key),
        }
    }

    fn on_key_connect(&mut self, key: Key)
        ensures
            final(self)@ == old(self)@.connect_key(key),
    {
        if key.is_letter('q', 'Q') {
            self.quit();
        } else if key.is_letter('c', 'C') || key.is_letter('y', 'Y') {
            // Copy the authorize link to the clipboard so that it can be pasted
            // into any browser (useful where auto-open fails).
            if let Some(url) = &self.connect_url {
                self.pending_copy = Some(url.clone());
            }
        } else if key.code == KeyCode::Enter && !self.busy {
            // Retry / (re)start the connection.
            self.start_connect();
        }
    }

    /// Takes any text queued for the clipboard (the event loop performs the
    /// copy).
    pub fn take_pending_copy(&mut self) -> (r: Option<String>)
        ensures
            text::opt_text(r) == old(self)@.pending_copy,
            final(self)@ == (AppModel { pending_copy: None, ..old(self)@ }),
    {
        self.pending_copy.take()
    }

    fn on_key_resume(&mut self, key: Key, now: u64)
        ensures
            final(self)@ == old(self)@.resume_key(key, now),
    {
        // Ctrl+D / Ctrl+S always submit. (Ctrl+S can be swallowed by terminal
        // flow-control, which is why Enter submits too — see below.)
        if key.ctrl && (key.is_letter('s', 'S') || key.is_letter('d', 'D')) {
            self.submit_resume();
            return;
        }
        match key.code {
            KeyCode::Char(c) => {
                self.input.push(c);
                self.last_input = now;
            },
            KeyCode::Enter => {
                // A bracketed paste delivers its newlines via on_paste, so a real
                // Enter key means "submit". But if the terminal lacks bracketed
                // paste, pasted newlines arrive as Enter keys in a fast burst —
                // treat those as literal newlines instead of submitting early.
                if now < self.last_input || now - self.last_input < BURST_NANOS {
                    self.input.push('\n');
                    self.last_input = now;
                } else {
                    self.submit_resume();
                }
            },
            KeyCode::Backspace => {
                self.input = text::drop_last_char(self.input.as_str());
            },
            KeyCode::PageUp => self.scroll_up(5),
            KeyCode::PageDown => self.scroll_down(5),
            _ => {},
        }
    }

    fn on_key_chat(&mut self, key: Key)
        ensures
            final(self)@ == old(self)@.chat_key(key),
    {
        if key.ctrl && key.is_letter('r', 'R') {
            self.send(AgentCommand::SyncFromBrowser);
            return;
        }
        match key.code {
            KeyCode::Char(c) => self.input.push(c),
            KeyCode::Backspace => {
                self.input = text::drop_last_char(self.input.as_str());
            },
            KeyCode::Enter => self.submit_message(),
            KeyCode::PageUp => self.scroll_up(5),
            KeyCode::PageDown => self.scroll_down(5),
            KeyCode::Home => {
                self.scroll = u16::MAX / 2;
            },
            KeyCode::End => {
                self.scroll = 0;
            },
            KeyCode::Other => {},
        }
    }

    /// Scrolls up by `n` lines.
    pub fn scroll_up(&mut self, n: u16)
        ensures
            final(self)@ == old(self)@.scrolled_up(n),
    {
        self.scroll = self.scroll.saturating_add(n);
    }

    /// Scrolls down by `n` lines.
    pub fn scroll_down(&mut self, n: u16)
        ensures
            final(self)@ == old(self)@.scrolled_down(n),
    {
        self.scroll = self.scroll.saturating_sub(n);
    }

    fn quit(&mut self)
        ensures
            final(self)@ == old(self)@.quitted(),
    {
        self.send(AgentCommand::Quit);
        self.should_quit = true;
    }
}

// ---------------------------------------------------------------------------
// Laws
// ---------------------------------------------------------------------------
/// The state at the start is coherent.
pub proof fn the_start_is_coherent(now: u64)
    ensures
        AppModel::initial(now).coherent(),
{
}

/// Every event of the agent keeps the state coherent.
pub proof fn events_keep_the_state_coherent(a: AppModel, e: event::EventModel)
    requires
        a.coherent(),
    ensures
        a.handled(e).coherent(),
{
}

/// Two fragments in a row are one fragment: a streamed reply builds one entry.
pub proof fn fragments_build_one_entry(a: AppModel, first: Seq<char>, second: Seq<char>)
    ensures
        a.chunk_added(first).chunk_added(second) == a.chunk_added(first + second),
{
    let once = a.chunk_added(first);
    let twice = once.chunk_added(second);
    let whole = a.chunk_added(first + second);
    assert(once.extends());
    assert(twice.transcript.last().text =~= whole.transcript.last().text);
    assert(twice.transcript =~= whole.transcript);
    assert(twice =~= whole);
}

/// An entry that is pushed ends a streaming reply: the next fragment starts
/// anew.
pub proof fn pushing_ends_the_reply(a: AppModel, kind: LineKind, said: Seq<char>, delta: Seq<char>)
    ensures
        a.pushed(kind, said).chunk_added(delta).transcript == a.pushed(
            kind,
            said,
        ).transcript.push(LineModel { kind: LineKind::Assistant, text: delta }),
{
}

/// No event of the agent takes back what was said: every entry stays, but for
/// the last one growing while a reply is streaming.
pub proof fn the_transcript_only_grows(a: AppModel, e: event::EventModel, i: int)
    requires
        0 <= i < a.transcript.len(),
    ensures
        a.handled(e).transcript.len() >= a.transcript.len(),
        a.handled(e).transcript[i].kind == a.transcript[i].kind,
        words::begins(a.handled(e).transcript[i].text, a.transcript[i].text),
        !(i == a.transcript.len() - 1 && a.extends()) ==> a.handled(e).transcript[i]
            == a.transcript[i],
{
    let before = a.transcript[i].text;
    let after = a.handled(e).transcript[i].text;
    assert(after.subrange(0, before.len() as int) =~= before);
}

/// New content pins the view to the bottom and drops a selection.
pub proof fn new_content_pins_the_view(a: AppModel, e: event::EventModel)
    ensures
        a.handled(e).transcript != a.transcript ==> a.handled(e).scroll == 0 && a.handled(
            e,
        ).selection is None,
{
}

/// No event of the agent touches what the user is typing, or sends a command.
pub proof fn events_leave_the_input_alone(a: AppModel, e: event::EventModel)
    ensures
        a.handled(e).input == a.input,
        a.handled(e).outbox == a.outbox,
        a.handled(e).should_quit == a.should_quit,
{
}

/// A position lies in the lines as they were last rendered.
pub proof fn positions_lie_in_the_text(a: AppModel, col: u16, row: u16, clamp: bool)
    requires
        a.chat_lines.len() <= usize::MAX,
        forall|i: int| 0 <= i < a.chat_lines.len() ==> (#[trigger] a.chat_lines[i]).len() <= usize::MAX,
    ensures
        a.position(col, row, clamp) matches Some(pos) ==> pos.0 < a.chat_lines.len() && pos.1
            <= a.chat_lines[pos.0 as int].len(),
{
}

/// A drag always has a position where a click had one.
pub proof fn drags_are_clamped(a: AppModel, col: u16, row: u16, col2: u16, row2: u16)
    requires
        a.position(col, row, false) is Some,
    ensures
        a.position(col2, row2, true) is Some,
        a.position(col, row, true) == a.position(col, row, false),
{
}

/// Typing a character and rubbing it out leaves the input as it was.
pub proof fn backspace_undoes_typing(a: AppModel, c: char)
    ensures
        a.typed(c).rubbed_out() == a,
{
    assert(a.typed(c).rubbed_out().input =~= a.input);
}

/// After events of the agent, in turn.
pub open spec fn handled_all(a: AppModel, ev: Seq<event::EventModel>) -> AppModel
    decreases ev.len(),
{
    if ev.len() == 0 {
        a
    } else {
        handled_all(a, ev.drop_last()).handled(ev.last())
    }
}

/// The input lock is what the agent last reported.
pub proof fn the_lock_follows_the_events(a: AppModel, ev: Seq<event::EventModel>)
    ensures
        handled_all(a, ev).busy == event::busy_after(ev, a.busy),
    decreases ev.len(),
{
    if ev.len() > 0 {
        the_lock_follows_the_events(a, ev.drop_last());
    }
}

/// Fragments of a reply, as events.
pub open spec fn chunk_events(fragments: Seq<Seq<char>>) -> Seq<event::EventModel> {
    fragments.map_values(|d: Seq<char>| event::EventModel::AssistantChunk(d))
}

/// A reply that is streamed after anything else was said is one entry of the
/// transcript: its fragments, one behind the other.
pub proof fn a_streamed_reply_is_one_entry(a: AppModel, fragments: Seq<Seq<char>>)
    requires
        !a.streaming,
        fragments.len() > 0,
    ensures
        handled_all(a, chunk_events(fragments)).transcript == a.transcript.push(
            LineModel { kind: LineKind::Assistant, text: llm::concatenated(fragments) },
        ),
        handled_all(a, chunk_events(fragments)).streaming,
    decreases fragments.len(),
{
    let before = fragments.drop_last();
    let ev = chunk_events(fragments);
    assert(ev.drop_last() =~= chunk_events(before));
    assert(ev.last() == event::EventModel::AssistantChunk(fragments.last()));
    reveal_with_fuel(llm::concatenated, 2);
    if before.len() == 0 {
        assert(chunk_events(before) =~= Seq::<event::EventModel>::empty());
        assert(handled_all(a, chunk_events(before)) == a);
        assert(llm::concatenated(fragments) =~= fragments.last());
    } else {
        a_streamed_reply_is_one_entry(a, before);
        let mid = handled_all(a, chunk_events(before));
        assert(mid.extends());
        assert(mid.transcript.drop_last() =~= a.transcript);
    }
}

/// What the agent says goes into the transcript, at its end, word for word: what
/// it tells as an entry of klawply, what went wrong as an error.
pub proof fn what_is_told_is_shown(a: AppModel, said: Seq<char>)
    ensures
        a.handled(event::EventModel::System(said)).transcript == a.transcript.push(
            LineModel { kind: LineKind::System, text: said },
        ),
        a.handled(event::EventModel::Error(said)).transcript == a.transcript.push(
            LineModel { kind: LineKind::Error, text: said },
        ),
        a.handled(event::EventModel::NeedResume).transcript == a.transcript.push(
            LineModel { kind: LineKind::System, text: RESUME_REQUEST@ },
        ),
{
}

/// The status line shows what the agent does, and nothing once it is done.
pub proof fn the_status_follows_the_work(a: AppModel, status: Seq<char>)
    ensures
        a.handled(event::EventModel::Status(status)).status == status,
        a.handled(event::EventModel::Status(status)).transcript == a.transcript,
        a.handled(event::EventModel::Busy(true)).busy,
        a.handled(event::EventModel::Busy(true)).status == a.status,
        !a.handled(event::EventModel::Busy(false)).busy,
        a.handled(event::EventModel::Busy(false)).status.len() == 0,
{
}

/// A login shows its link and keeps it to be copied, until someone is connected.
pub proof fn the_login_is_shown(
    a: AppModel,
    url: Seq<char>,
    email: Seq<char>,
    plan: Seq<char>,
)
    ensures
        ({
            let asked = a.handled(event::EventModel::ConnectPrompt { url });
            let done = asked.handled(event::EventModel::Connected { email, plan });
            &&& asked.connect_url == Some(url)
            &&& asked.transcript.len() == a.transcript.len() + 1
            &&& words::ends(asked.transcript.last().text, url)
            &&& asked.status == "waiting for you to authorize in the browser…"@
            &&& done.connect_url is None
            &&& done.email == email
            &&& done.plan == plan
            &&& done.status == "connected"@
        }),
{
    words::texts_are_found_where_they_stand(
        "Log in to ChatGPT in your browser. If it didn't open: "@,
        url,
        Seq::empty(),
    );
}

/// The screen changes when the agent asks for the resume and when it is ready for
/// a link, and at no other event.
pub proof fn the_agent_changes_the_screen(a: AppModel, e: event::EventModel)
    ensures
        e is NeedResume ==> a.handled(e).screen == Screen::Resume,
        e is Ready ==> a.handled(e).screen == Screen::Chat,
        !(e is NeedResume || e is Ready) ==> a.handled(e).screen == a.screen,
{
}

/// The fields that changed are listed by their names; where none did, nothing is
/// said.
pub proof fn changed_fields_are_listed(a: AppModel, changed: Seq<Seq<char>>, i: int)
    ensures
        changed.len() == 0 ==> a.handled(event::EventModel::FieldsUpdated { changed }) == a,
        0 <= i < changed.len() ==> ({
            let after = a.handled(event::EventModel::FieldsUpdated { changed });
            &&& after.transcript.len() == a.transcript.len() + 1
            &&& after.transcript.last().kind == LineKind::System
            &&& after.transcript.last().text == "Updated fields.json: "@ + words::joined(
                changed,
                ", "@,
            )
            &&& words::occurs(after.transcript.last().text, changed[i])
        }),
{
    if 0 <= i < changed.len() {
        let head = "Updated fields.json: "@;
        let list = words::joined(changed, ", "@);
        words::joined_texts_hold_their_parts(changed, ", "@, i);
        let k = choose|k: int| words::occurs_at(list, changed[i], k);
        let n = changed[i].len();
        assert((head + list).subrange(head.len() + k, head.len() + k + n) =~= list.subrange(
            k,
            k + n,
        ));
        assert(words::occurs_at(head + list, changed[i], head.len() + k));
    }
}

/// The report of a filled form tells how many fields were filled and where, how
/// many could not be, and each of these; and asks the user to submit.
pub proof fn the_report_tells_what_was_filled(
    a: AppModel,
    url: Seq<char>,
    filled: nat,
    failed: Seq<Seq<char>>,
    i: int,
)
    ensures
        ({
            let after = a.handled(event::EventModel::Applied { url, filled, failed });
            let said = after.transcript.last().text;
            let start = "Filled "@ + decimal::decimal(filled) + " field(s) on "@ + url + "."@;
            let end = "\nReview the page in Chrome and submit when you're happy."@;
            &&& after.transcript.len() == a.transcript.len() + 1
            &&& words::begins(said, start)
            &&& words::ends(said, end)
            &&& failed.len() == 0 ==> said == start + end
            &&& failed.len() > 0 ==> words::begins(
                said,
                start + "\nCould not fill "@ + decimal::decimal(failed.len()) + ": "@,
            )
            &&& 0 <= i < failed.len() ==> words::occurs(said, failed[i])
        }),
{
    let start = "Filled "@ + decimal::decimal(filled) + " field(s) on "@ + url + "."@;
    let end = "\nReview the page in Chrome and submit when you're happy."@;
    let said = applied_text(url, filled, failed);
    if failed.len() == 0 {
        assert(said =~= start + end);
        words::texts_are_found_where_they_stand(Seq::empty(), start, end);
        words::texts_are_found_where_they_stand(start, end, Seq::empty());
    } else {
        let count = "\nCould not fill "@ + decimal::decimal(failed.len()) + ": "@;
        let list = words::joined(failed, "; "@);
        assert(said =~= start + (count + list + end));
        words::texts_are_found_where_they_stand(Seq::empty(), start, count + list + end);
        assert(said =~= (start + count) + (list + end));
        words::texts_are_found_where_they_stand(Seq::empty(), start + count, list + end);
        assert(start + count =~= start + "\nCould not fill "@ + decimal::decimal(failed.len())
            + ": "@);
        assert(said =~= (start + count + list) + end);
        words::texts_are_found_where_they_stand(start + count + list, end, Seq::empty());
        if 0 <= i < failed.len() {
            words::joined_texts_hold_their_parts(failed, "; "@, i);
            let k = choose|k: int| words::occurs_at(list, failed[i], k);
            let base = (start + count).len();
            let n = failed[i].len();
            assert(said.subrange(base + k, base + k + n) =~= list.subrange(k, k + n));
            assert(words::occurs_at(said, failed[i], base + k));
        }
    }
}

/// Enter on the chat screen sends what was typed, without the white space around
/// it, shows it as the user's, and empties the input; unless it is blank or the
/// agent works, when nothing happens.
pub proof fn enter_sends_the_message(a: AppModel, now: u64)
    requires
        a.screen == Screen::Chat,
    ensures
        ({
            let after = a.key_pressed(Key { code: KeyCode::Enter, ctrl: false }, now);
            let said = text::trimmed(a.input);
            if text::is_blank(a.input) || a.busy {
                after == a
            } else {
                &&& after.outbox == a.outbox.push(event::CommandModel::UserMessage(said))
                &&& after.transcript == a.transcript.push(
                    LineModel { kind: LineKind::User, text: said },
                )
                &&& after.input.len() == 0
            }
        }),
{
    text::lemma_trimmed_empty(a.input);
}

/// A resume is handed in as it was pasted, by Ctrl+D, by Ctrl+S, or by an Enter
/// that is not part of a paste; unless it is blank or the agent works.
pub proof fn the_resume_is_handed_in_whole(a: AppModel, c: char, now: u64)
    requires
        a.screen == Screen::Resume,
        c == 'd' || c == 'D' || c == 's' || c == 'S',
    ensures
        ({
            let by_key = a.key_pressed(Key { code: KeyCode::Char(c), ctrl: true }, now);
            let by_enter = a.key_pressed(Key { code: KeyCode::Enter, ctrl: false }, now);
            &&& text::is_blank(a.input) || a.busy ==> by_key == a
            &&& !text::is_blank(a.input) && !a.busy ==> by_key.outbox == a.outbox.push(
                event::CommandModel::SubmitResume(a.input),
            ) && by_key.input.len() == 0
            &&& now - a.last_input >= 40_000_000 ==> by_enter == by_key
            &&& now - a.last_input < 40_000_000 ==> by_enter.input == a.input.push('\n')
                && by_enter.outbox == a.outbox && by_enter.last_input == now
        }),
{
}

/// What is typed and what is pasted goes behind the input, and nowhere else.
pub proof fn the_input_takes_what_is_typed(a: AppModel, c: char, said: Seq<char>, now: u64)
    requires
        a.screen != Screen::Connect,
    ensures
        a.key_pressed(Key { code: KeyCode::Char(c), ctrl: false }, now).input == a.input.push(c),
        a.pasted(said, now).input == a.input + said,
        a.pasted(said, now).outbox == a.outbox,
        a.pasted(said, now).last_input == now,
        a.key_pressed(Key { code: KeyCode::Backspace, ctrl: false }, now).input
            == text::without_last(a.input),
{
}

/// On the connect screen Enter connects where the agent is idle, `q` quits, `c`
/// and `y` copy the link, and a paste does nothing.
pub proof fn the_connect_screen_obeys(a: AppModel, c: char, said: Seq<char>, now: u64)
    requires
        a.screen == Screen::Connect,
    ensures
        ({
            let enter = a.key_pressed(Key { code: KeyCode::Enter, ctrl: false }, now);
            let key = a.key_pressed(Key { code: KeyCode::Char(c), ctrl: false }, now);
            &&& a.busy ==> enter == a
            &&& !a.busy ==> enter.outbox == a.outbox.push(event::CommandModel::Connect)
                && enter.connecting && enter.status == "connecting to ChatGPT…"@
            &&& c == 'q' || c == 'Q' ==> key.should_quit && key.outbox == a.outbox.push(
                event::CommandModel::Quit,
            )
            &&& c == 'c' || c == 'C' || c == 'y' || c == 'Y' ==> (a.connect_url is Some
                ==> key.pending_copy == a.connect_url) && key.outbox == a.outbox
                && key.should_quit == a.should_quit
            &&& a.pasted(said, now) == a
        }),
{
}

/// Ctrl+R on the chat screen reads back the form.
pub proof fn ctrl_r_reads_the_form(a: AppModel, now: u64)
    requires
        a.screen == Screen::Chat,
    ensures
        a.key_pressed(Key { code: KeyCode::Char('r'), ctrl: true }, now).outbox == a.outbox.push(
            event::CommandModel::SyncFromBrowser,
        ),
        a.key_pressed(Key { code: KeyCode::Char('r'), ctrl: true }, now).input == a.input,
{
}

/// Scrolling moves the view by as many lines as asked for, as far as it can; the
/// page keys move it by five, Home to the top and End to the bottom.
pub proof fn scrolling_moves_the_view(a: AppModel, n: u16, now: u64)
    ensures
        a.scroll + n <= 65535 ==> a.scrolled_up(n).scroll == a.scroll + n,
        a.scroll + n > 65535 ==> a.scrolled_up(n).scroll == 65535,
        a.scroll >= n ==> a.scrolled_down(n).scroll == a.scroll - n,
        a.scroll < n ==> a.scrolled_down(n).scroll == 0,
        a.screen != Screen::Connect ==> a.key_pressed(
            Key { code: KeyCode::PageUp, ctrl: false },
            now,
        ) == a.scrolled_up(5),
        a.screen != Screen::Connect ==> a.key_pressed(
            Key { code: KeyCode::PageDown, ctrl: false },
            now,
        ) == a.scrolled_down(5),
        a.screen == Screen::Chat ==> a.key_pressed(
            Key { code: KeyCode::Home, ctrl: false },
            now,
        ).scroll == 32767,
        a.screen == Screen::Chat ==> a.key_pressed(
            Key { code: KeyCode::End, ctrl: false },
            now,
        ).scroll == 0,
        a.scrolled_up(n).transcript == a.transcript && a.scrolled_down(n).transcript
            == a.transcript,
{
}

/// A cell of the drawn transcript stands for the character that shows there: the
/// line is as far below the first visible one as the row is below the top of the
/// area, and the column as far in as in the area.
pub proof fn cells_stand_for_characters(a: AppModel, col: u16, row: u16, down: int, right: int)
    requires
        a.chat_area.width > 0 && a.chat_area.height > 0,
        0 <= down < a.chat_area.height,
        0 <= right < a.chat_area.width,
        row == a.chat_area.y + down,
        col == a.chat_area.x + right,
        a.chat_top + down < a.chat_lines.len() <= usize::MAX,
        right <= a.chat_lines[a.chat_top + down].len(),
    ensures
        a.position(col, row, false) == Some(((a.chat_top + down) as usize, right as usize)),
        a.position(col, row, true) == a.position(col, row, false),
{
}

/// What is finished and copied is what the drag covered of the lines on the screen.
pub proof fn a_drag_selects_what_it_covers(
    a: AppModel,
    from: (u16, u16),
    to: (u16, u16),
    start: selection::Pos,
    end: selection::Pos,
)
    requires
        a.position(from.0, from.1, false) == Some(start),
        a.position(to.0, to.1, true) == Some(end),
    ensures
        ({
            let dragged = a.selection_begun(from.0, from.1).selection_updated(to.0, to.1);
            let s = selection::SelectionModel { anchor: start, cursor: end, active: true };
            &&& dragged.selection == Some(s)
            &&& dragged.selection_text() == Some(s.text_of(a.chat_lines))
            &&& dragged.selection_finished() == dragged
        }),
{
}

/// A drag that leaves the area counts at the edge that it left by.
pub proof fn drags_count_at_the_edge(a: AppModel, col: u16, row: u16)
    requires
        a.chat_area.width > 0 && a.chat_area.height > 0,
        a.chat_area.x + a.chat_area.width <= 65535,
        a.chat_area.y + a.chat_area.height <= 65535,
    ensures
        ({
            let area = a.chat_area;
            let right = (area.x + area.width - 1) as u16;
            let bottom = (area.y + area.height - 1) as u16;
            &&& col >= right ==> a.position(col, row, true) == a.position(right, row, true)
            &&& col <= area.x ==> a.position(col, row, true) == a.position(area.x, row, true)
            &&& row >= bottom ==> a.position(col, row, true) == a.position(col, bottom, true)
            &&& row <= area.y ==> a.position(col, row, true) == a.position(col, area.y, true)
            &&& !lies_in(col, row, area) ==> a.position(col, row, false) is None
        }),
{
}

/// The state stands for what it holds.
pub proof fn the_model_holds_the_state(a: App, line: Line)
    ensures
        a@.input == a.input@,
        a@.status == a.status@,
        a@.email == a.email@,
        a@.plan == a.plan@,
        a@.busy == a.busy,
        a@.screen == a.screen,
        a@.scroll == a.scroll,
        a@.should_quit == a.should_quit,
        a@.connect_url == text::opt_text(a.connect_url),
        a@.pending_copy == text::opt_text(a.pending_copy),
        a@.chat_lines == text::texts(a.chat_lines@),
        a@.transcript.len() == a.transcript@.len(),
        line@.kind == line.kind,
        line@.text == line.text@,
{
}

/// At the start the connect screen shows, and nothing was said, typed or sent.
pub proof fn the_start_is_empty(now: u64)
    ensures
        AppModel::initial(now).screen == Screen::Connect,
        AppModel::initial(now).transcript.len() == 0,
        AppModel::initial(now).input.len() == 0,
        AppModel::initial(now).outbox.len() == 0,
        !AppModel::initial(now).busy,
        !AppModel::initial(now).should_quit,
        AppModel::initial(now).connect_url is None,
        AppModel::initial(now).last_input == now,
{
}

} // verus!
