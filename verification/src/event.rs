//! The messages between the UI and the background agent. The UI never blocks on
//! network or browser work: it sends an [`AgentCommand`] and reacts to the
//! [`AgentEvent`]s that come back.
use crate::text;
use vstd::prelude::*;

verus! {

/// Sent from the UI to the agent.
#[derive(Debug, Clone)]
pub enum AgentCommand {
    /// Begin (or resume) the ChatGPT connection.
    Connect,
    /// The user pasted resume text; store it and derive fields.
    SubmitResume(String),
    /// A line the user typed into the chat box: a job link or a question.
    UserMessage(String),
    /// Re-read the current browser form and fold any user-typed values into
    /// `fields.json`.
    SyncFromBrowser,
    /// Stop.
    Quit,
}

/// What an [`AgentCommand`] stands for.
pub enum CommandModel {
    /// Begin (or resume) the ChatGPT connection.
    Connect,
    /// Store a resume and derive fields.
    SubmitResume(Seq<char>),
    /// A line that the user typed.
    UserMessage(Seq<char>),
    /// Re-read the current browser form.
    SyncFromBrowser,
    /// Stop.
    Quit,
}

impl View for AgentCommand {
    type V = CommandModel;

    open spec fn view(&self) -> CommandModel {
        match self {
            AgentCommand::Connect => CommandModel::Connect,
            AgentCommand::SubmitResume(t) => CommandModel::SubmitResume(t@),
            AgentCommand::UserMessage(t) => CommandModel::UserMessage(t@),
            AgentCommand::SyncFromBrowser => CommandModel::SyncFromBrowser,
            AgentCommand::Quit => CommandModel::Quit,
        }
    }
}

/// Commands, as models.
pub open spec fn commands(s: Seq<AgentCommand>) -> Seq<CommandModel> {
    s.map_values(|c: AgentCommand| c@)
}

/// One more command is one more model.
pub broadcast proof fn lemma_commands_push(s: Seq<AgentCommand>, c: AgentCommand)
    ensures
        #[trigger] commands(s.push(c)) == commands(s).push(c@),
{
    assert(commands(s.push(c)) =~= commands(s).push(c@));
}

/// Sent from the agent back to the UI.
#[derive(Debug, Clone)]
pub enum AgentEvent {
    /// Transient status for the header/spinner (e.g. "reading page…").
    Status(String),
    /// Show the OAuth authorize link (browser was also opened automatically).
    ConnectPrompt {
        /// The link.
        url: String,
    },
    /// Connection succeeded.
    Connected {
        /// Who is connected.
        email: String,
        /// With which plan.
        plan: String,
    },
    /// Connected, but `resume.txt` is blank: ask the user to paste it.
    NeedResume,
    /// Connected and resume present: ready to accept a job link.
    Ready,
    /// A streamed fragment of the assistant's reply, appended live to the
    /// current assistant line so that replies render token by token.
    AssistantChunk(String),
    /// A neutral system/info line for the transcript.
    System(String),
    /// A non-fatal error line for the transcript.
    Error(String),
    /// `fields.json` changed.
    FieldsUpdated {
        /// The affected keys.
        changed: Vec<String>,
    },
    /// A job form was filled.
    Applied {
        /// Where.
        url: String,
        /// How many fields were filled.
        filled: usize,
        /// What could not be filled, and why.
        failed: Vec<String>,
    },
    /// The agent started/stopped working (drives the spinner + input lock).
    Busy(bool),
}

/// What an [`AgentEvent`] stands for.
pub enum EventModel {
    /// Transient status.
    Status(Seq<char>),
    /// The OAuth authorize link.
    ConnectPrompt {
        /// The link.
        url: Seq<char>,
    },
    /// Connection succeeded.
    Connected {
        /// Who is connected.
        email: Seq<char>,
        /// With which plan.
        plan: Seq<char>,
    },
    /// Ask for the resume.
    NeedResume,
    /// Ready to accept a job link.
    Ready,
    /// A streamed fragment.
    AssistantChunk(Seq<char>),
    /// An info line.
    System(Seq<char>),
    /// An error line.
    Error(Seq<char>),
    /// `fields.json` changed.
    FieldsUpdated {
        /// The affected keys.
        changed: Seq<Seq<char>>,
    },
    /// A job form was filled.
    Applied {
        /// Where.
        url: Seq<char>,
        /// How many fields were filled.
        filled: nat,
        /// What could not be filled.
        failed: Seq<Seq<char>>,
    },
    /// The agent started/stopped working.
    Busy(bool),
}

impl View for AgentEvent {
    type V = EventModel;

    open spec fn view(&self) -> EventModel {
        match self {
            AgentEvent::Status(t) => EventModel::Status(t@),
            AgentEvent::ConnectPrompt { url } => EventModel::ConnectPrompt { url: url@ },
            AgentEvent::Connected { email, plan } => EventModel::Connected {
                email: email@,
                plan: plan@,
            },
            AgentEvent::NeedResume => EventModel::NeedResume,
            AgentEvent::Ready => EventModel::Ready,
            AgentEvent::AssistantChunk(t) => EventModel::AssistantChunk(t@),
            AgentEvent::System(t) => EventModel::System(t@),
            AgentEvent::Error(t) => EventModel::Error(t@),
            AgentEvent::FieldsUpdated { changed } => EventModel::FieldsUpdated {
                changed: text::texts(changed@),
            },
            AgentEvent::Applied { url, filled, failed } => EventModel::Applied {
                url: url@,
                filled: *filled as nat,
                failed: text::texts(failed@),
            },
            AgentEvent::Busy(on) => EventModel::Busy(*on),
        }
    }
}

/// Events, as models.
pub open spec fn events(s: Seq<AgentEvent>) -> Seq<EventModel> {
    s.map_values(|e: AgentEvent| e@)
}

/// One more event is one more model.
pub broadcast proof fn lemma_events_push(s: Seq<AgentEvent>, e: AgentEvent)
    ensures
        #[trigger] events(s.push(e)) == events(s).push(e@),
{
    assert(events(s.push(e)) =~= events(s).push(e@));
}

/// Whether the agent was last reported as working, given what was known before.
pub open spec fn busy_after(ev: Seq<EventModel>, before: bool) -> bool
    decreases ev.len(),
{
    if ev.len() == 0 {
        before
    } else {
        match ev.last() {
            EventModel::Busy(on) => on,
            _ => busy_after(ev.drop_last(), before),
        }
    }
}

/// One more event settles it if it tells.
pub broadcast proof fn lemma_busy_push(ev: Seq<EventModel>, e: EventModel, before: bool)
    ensures
        #[trigger] busy_after(ev.push(e), before) == match e {
            EventModel::Busy(on) => on,
            _ => busy_after(ev, before),
        },
{
    assert(ev.push(e).drop_last() =~= ev);
}

/// A single event settles it if it tells.
pub broadcast proof fn lemma_busy_one(e: EventModel, before: bool)
    ensures
        #[trigger] busy_after(seq![e], before) == match e {
            EventModel::Busy(on) => on,
            _ => before,
        },
{
    assert(seq![e].drop_last() =~= Seq::<EventModel>::empty());
    assert(busy_after(seq![e].drop_last(), before) == before);
}

// ---------------------------------------------------------------------------
// Laws
// ---------------------------------------------------------------------------
/// A message says what it holds, character for character, and messages keep their
/// order.
pub proof fn messages_say_what_they_hold(said: String, list: Seq<AgentCommand>, i: int)
    ensures
        AgentCommand::SubmitResume(said)@ == CommandModel::SubmitResume(said@),
        AgentCommand::UserMessage(said)@ == CommandModel::UserMessage(said@),
        AgentEvent::Status(said)@ == EventModel::Status(said@),
        AgentEvent::System(said)@ == EventModel::System(said@),
        AgentEvent::Error(said)@ == EventModel::Error(said@),
        AgentEvent::AssistantChunk(said)@ == EventModel::AssistantChunk(said@),
        (AgentEvent::ConnectPrompt { url: said })@ == (EventModel::ConnectPrompt { url: said@ }),
        commands(list).len() == list.len(),
        0 <= i < list.len() ==> commands(list)[i] == list[i]@,
{
}

/// A report says what it holds.
pub proof fn reports_say_what_they_hold(
    first: String,
    second: String,
    count: usize,
    names: Vec<String>,
)
    ensures
        (AgentEvent::Connected { email: first, plan: second })@ == (EventModel::Connected {
            email: first@,
            plan: second@,
        }),
        (AgentEvent::FieldsUpdated { changed: names })@ == (EventModel::FieldsUpdated {
            changed: text::texts(names@),
        }),
        (AgentEvent::Applied { url: first, filled: count, failed: names })@ == (EventModel::Applied {
            url: first@,
            filled: count as nat,
            failed: text::texts(names@),
        }),
        AgentEvent::Busy(true)@ == EventModel::Busy(true),
        AgentEvent::Busy(false)@ == EventModel::Busy(false),
{
}

} // verus!
