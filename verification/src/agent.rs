//! The background worker. It holds the tokens, knows whether a browser session
//! is open, receives [`AgentCommand`]s, and reports progress as [`AgentEvent`]s.
//!
//! What it does between two pieces of outside work (a request over the network,
//! a file, the browser) is one [`Agent::step`]: given what came of the last
//! piece, it says which events to report and which piece to do next. Doing them
//! is left to the caller.
use crate::auth;
use crate::auth::{Freshness, Tokens};
use crate::decimal;
use crate::event;
use crate::event::{AgentCommand, AgentEvent};
use crate::field_map::FieldMap;
use crate::fields;
use crate::llm;
use crate::llm::{Action, Prompt};
use crate::text;
use crate::words;
use vstd::prelude::*;

verus! {

// ---------------------------------------------------------------------------
// Rules
// ---------------------------------------------------------------------------
/// The name of a command, for the log.
pub fn command_name(cmd: &AgentCommand) -> (r: &'static str)
    ensures
        r@ == match cmd {
            AgentCommand::Connect => "Connect"@,
            AgentCommand::SubmitResume(_) => "SubmitResume"@,
            AgentCommand::UserMessage(_) => "UserMessage"@,
            AgentCommand::SyncFromBrowser => "SyncFromBrowser"@,
            AgentCommand::Quit => "Quit"@,
        },
{
    match cmd {
        AgentCommand::Connect => "Connect",
        AgentCommand::SubmitResume(_) => "SubmitResume",
        AgentCommand::UserMessage(_) => "UserMessage",
        AgentCommand::SyncFromBrowser => "SyncFromBrowser",
        AgentCommand::Quit => "Quit",
    }
}

/// Whether a text is a link.
pub open spec fn links(said: Seq<char>) -> bool {
    words::begins(said, "http://"@) || words::begins(said, "https://"@)
}

/// Whether a text is a link.
pub fn is_url(said: &str) -> (r: bool)
    ensures
        r == links(said@),
{
    words::starts_with(said, "http://") || words::starts_with(said, "https://")
}

/// Whether the value of `KLAWPLY_FORCE_LOGIN` asks to skip the stored tokens.
pub open spec fn forces_login(value: Option<Seq<char>>) -> bool {
    match value {
        Some(v) => v == "1"@ || text::ascii_lowered(v) == text::ascii_lowered("true"@),
        None => false,
    }
}

/// Whether `KLAWPLY_FORCE_LOGIN`, given its value, asks to skip the stored-token
/// fast path.
pub fn force_login_env(value: &Option<String>) -> (r: bool)
    ensures
        r == forces_login(text::opt_text(*value)),
{
    match value {
        Some(v) => text::same(v.as_str(), "1") || text::same_ignoring_case(v.as_str(), "true"),
        None => false,
    }
}

/// Whether an error tells that the access token was refused.
pub open spec fn refuses_token(e: Seq<char>) -> bool {
    words::occurs(e, "401"@) || words::occurs(e, "invalid_token"@) || words::occurs(
        e,
        "Unauthorized"@,
    )
}

/// Whether an error tells that the access token was refused.
pub fn is_auth_error(e: &str) -> (r: bool)
    ensures
        r == refuses_token(e@),
{
    words::contains(e, "401") || words::contains(e, "invalid_token") || words::contains(
        e,
        "Unauthorized",
    )
}

/// What is wrong where there is no resume document in the folder `dir`.
pub fn no_document(dir: &str) -> (r: String)
    ensures
        r@ == "no resume file to upload — put resume.pdf (or .docx) in "@ + dir@,
{
    text::chained("no resume file to upload — put resume.pdf (or .docx) in ", dir)
}

/// What an action is called in the transcript.
pub open spec fn action_name(a: llm::ActionModel) -> Seq<char> {
    if a.label.len() == 0 {
        a.selector
    } else {
        a.label
    }
}

/// Whether an action uploads the resume document.
pub open spec fn uploads(a: llm::ActionModel) -> bool {
    text::ascii_lowered(a.action) == text::ascii_lowered("upload"@)
}

// ---------------------------------------------------------------------------
// Requests and inputs
// ---------------------------------------------------------------------------
/// A piece of outside work to do next.
#[derive(Debug)]
pub enum Request {
    /// Wait for a command; answered by [`Input::Command`].
    Wait,
    /// Stop.
    Stop,
    /// Read `KLAWPLY_FORCE_LOGIN`; answered by [`Input::ForceLogin`].
    ReadForceLogin,
    /// Load the stored tokens; answered by [`Input::Stored`].
    LoadTokens,
    /// Refresh these tokens and persist them; answered by [`Input::Refreshed`].
    RefreshTokens(Tokens),
    /// Begin an interactive login: listen for the redirect; answered by
    /// [`Input::LoginBegun`].
    BeginLogin,
    /// Open the browser and wait for the redirect; answered by
    /// [`Input::LoggedIn`].
    FinishLogin,
    /// Read `resume.txt`; answered by [`Input::Resume`].
    ReadResume,
    /// Write `resume.txt`; answered by [`Input::ResumeWritten`].
    WriteResume(String),
    /// Load `fields.json`; answered by [`Input::Fields`].
    LoadFields,
    /// Merge these into `fields.json`; answered by [`Input::Merged`].
    MergeFields(FieldMap),
    /// Send a prompt to the model; answered by [`Input::Completed`], after any
    /// number of [`Input::Delta`] if it is to be streamed.
    Complete {
        /// The tokens to send it with.
        tokens: Tokens,
        /// The prompt.
        prompt: Prompt,
        /// Whether to hand on fragments.
        stream: bool,
    },
    /// Connect to Chrome; answered by [`Input::BrowserConnected`].
    ConnectBrowser,
    /// Open a page and capture its HTML; answered by [`Input::Page`].
    OpenPage(String),
    /// Carry out an action on the page, as [`crate::browser::Task`] says;
    /// answered by [`Input::ActionDone`].
    ApplyAction(Action),
    /// Upload the resume document to a file input; answered by
    /// [`Input::ActionDone`].
    UploadResume(String),
    /// Read the values of the form; answered by [`Input::Snapshot`].
    Snapshot,
}

/// What a [`Request`] stands for.
pub enum RequestModel {
    /// Wait for a command.
    Wait,
    /// Stop.
    Stop,
    /// Read `KLAWPLY_FORCE_LOGIN`.
    ReadForceLogin,
    /// Load the stored tokens.
    LoadTokens,
    /// Refresh these tokens.
    RefreshTokens(auth::TokensModel),
    /// Begin an interactive login.
    BeginLogin,
    /// Wait for the redirect.
    FinishLogin,
    /// Read `resume.txt`.
    ReadResume,
    /// Write `resume.txt`.
    WriteResume(Seq<char>),
    /// Load `fields.json`.
    LoadFields,
    /// Merge into `fields.json`.
    MergeFields(fields::FieldsModel),
    /// Send a prompt to the model.
    Complete {
        /// The tokens.
        tokens: auth::TokensModel,
        /// The prompt.
        prompt: llm::PromptModel,
        /// Whether to hand on fragments.
        stream: bool,
    },
    /// Connect to Chrome.
    ConnectBrowser,
    /// Open a page.
    OpenPage(Seq<char>),
    /// Carry out an action.
    ApplyAction(llm::ActionModel),
    /// Upload the resume document.
    UploadResume(Seq<char>),
    /// Read the values of the form.
    Snapshot,
}

impl View for Request {
    type V = RequestModel;

    open spec fn view(&self) -> RequestModel {
        match self {
            Request::Wait => RequestModel::Wait,
            Request::Stop => RequestModel::Stop,
            Request::ReadForceLogin => RequestModel::ReadForceLogin,
            Request::LoadTokens => RequestModel::LoadTokens,
            Request::RefreshTokens(t) => RequestModel::RefreshTokens(t@),
            Request::BeginLogin => RequestModel::BeginLogin,
            Request::FinishLogin => RequestModel::FinishLogin,
            Request::ReadResume => RequestModel::ReadResume,
            Request::WriteResume(t) => RequestModel::WriteResume(t@),
            Request::LoadFields => RequestModel::LoadFields,
            Request::MergeFields(m) => RequestModel::MergeFields(m@),
            Request::Complete { tokens, prompt, stream } => RequestModel::Complete {
                tokens: tokens@,
                prompt: prompt@,
                stream: *stream,
            },
            Request::ConnectBrowser => RequestModel::ConnectBrowser,
            Request::OpenPage(url) => RequestModel::OpenPage(url@),
            Request::ApplyAction(a) => RequestModel::ApplyAction(a@),
            Request::UploadResume(s) => RequestModel::UploadResume(s@),
            Request::Snapshot => RequestModel::Snapshot,
        }
    }
}

/// What came of a piece of outside work.
#[derive(Debug)]
pub enum Input {
    /// A command of the UI.
    Command(AgentCommand),
    /// The value of `KLAWPLY_FORCE_LOGIN`.
    ForceLogin(Option<String>),
    /// The stored tokens, if there are any, and the time in seconds.
    Stored {
        /// The tokens.
        tokens: Option<Tokens>,
        /// The time.
        now: i64,
    },
    /// Refreshed tokens.
    Refreshed(Result<Tokens, String>),
    /// The authorize link of a login that was begun.
    LoginBegun(Result<String, String>),
    /// The tokens of a login.
    LoggedIn(Result<Tokens, String>),
    /// The resume text.
    Resume(String),
    /// Whether the resume could be saved.
    ResumeWritten(Result<(), String>),
    /// The fields.
    Fields(FieldMap),
    /// The names of the fields that a merge changed.
    Merged(Result<Vec<String>, String>),
    /// A fragment of a reply.
    Delta(String),
    /// A reply.
    Completed(Result<String, String>),
    /// Whether Chrome could be connected to.
    BrowserConnected(Result<(), String>),
    /// The HTML of a page.
    Page(Result<String, String>),
    /// Whether an action could be carried out.
    ActionDone(Result<(), String>),
    /// The values of the form that are not blank.
    Snapshot(Result<FieldMap, String>),
}

/// What an [`Input`] stands for.
pub enum InputModel {
    /// A command of the UI.
    Command(event::CommandModel),
    /// The value of `KLAWPLY_FORCE_LOGIN`.
    ForceLogin(Option<Seq<char>>),
    /// The stored tokens and the time.
    Stored {
        /// The tokens.
        tokens: Option<auth::TokensModel>,
        /// The time.
        now: int,
    },
    /// Refreshed tokens.
    Refreshed(Result<auth::TokensModel, Seq<char>>),
    /// The authorize link.
    LoginBegun(Result<Seq<char>, Seq<char>>),
    /// The tokens of a login.
    LoggedIn(Result<auth::TokensModel, Seq<char>>),
    /// The resume text.
    Resume(Seq<char>),
    /// Whether the resume could be saved.
    ResumeWritten(Result<(), Seq<char>>),
    /// The fields.
    Fields(fields::FieldsModel),
    /// The names of the fields that a merge changed.
    Merged(Result<Seq<Seq<char>>, Seq<char>>),
    /// A fragment of a reply.
    Delta(Seq<char>),
    /// A reply.
    Completed(Result<Seq<char>, Seq<char>>),
    /// Whether Chrome could be connected to.
    BrowserConnected(Result<(), Seq<char>>),
    /// The HTML of a page.
    Page(Result<Seq<char>, Seq<char>>),
    /// Whether an action could be carried out.
    ActionDone(Result<(), Seq<char>>),
    /// The values of the form.
    Snapshot(Result<fields::FieldsModel, Seq<char>>),
}

impl View for Input {
    type V = InputModel;

    open spec fn view(&self) -> InputModel {
        match self {
            Input::Command(c) => InputModel::Command(c@),
            Input::ForceLogin(v) => InputModel::ForceLogin(text::opt_text(*v)),
            Input::Stored { tokens, now } => InputModel::Stored {
                tokens: auth::opt_tokens(*tokens),
                now: *now as int,
            },
            Input::Refreshed(r) => InputModel::Refreshed(auth::tokens_result(*r)),
            Input::LoginBegun(r) => InputModel::LoginBegun(text::result_text(*r)),
            Input::LoggedIn(r) => InputModel::LoggedIn(auth::tokens_result(*r)),
            Input::Resume(t) => InputModel::Resume(t@),
            Input::ResumeWritten(r) => InputModel::ResumeWritten(text::unit_result_text(*r)),
            Input::Fields(m) => InputModel::Fields(m@),
            Input::Merged(r) => InputModel::Merged(names_result(*r)),
            Input::Delta(t) => InputModel::Delta(t@),
            Input::Completed(r) => InputModel::Completed(text::result_text(*r)),
            Input::BrowserConnected(r) => InputModel::BrowserConnected(text::unit_result_text(*r)),
            Input::Page(r) => InputModel::Page(text::result_text(*r)),
            Input::ActionDone(r) => InputModel::ActionDone(text::unit_result_text(*r)),
            Input::Snapshot(r) => InputModel::Snapshot(llm::fields_result(*r)),
        }
    }
}

/// Names or an error message, as models.
pub open spec fn names_result(r: Result<Vec<String>, String>) -> Result<Seq<Seq<char>>, Seq<char>> {
    match r {
        Ok(names) => Ok(text::texts(names@)),
        Err(e) => Err(e@),
    }
}

// ---------------------------------------------------------------------------
// The state
// ---------------------------------------------------------------------------
/// What a prompt is sent for.
pub enum Purpose {
    /// To derive fields from the resume.
    Extract,
    /// To answer the user.
    Chat,
    /// To plan the filling of the form at this link.
    Plan(String),
    /// To name what the user entered in a form.
    Entries,
}

/// What a [`Purpose`] stands for.
pub enum PurposeModel {
    /// To derive fields from the resume.
    Extract,
    /// To answer the user.
    Chat,
    /// To plan the filling of a form.
    Plan(Seq<char>),
    /// To name what the user entered in a form.
    Entries,
}

impl View for Purpose {
    type V = PurposeModel;

    open spec fn view(&self) -> PurposeModel {
        match self {
            Purpose::Extract => PurposeModel::Extract,
            Purpose::Chat => PurposeModel::Chat,
            Purpose::Plan(url) => PurposeModel::Plan(url@),
            Purpose::Entries => PurposeModel::Entries,
        }
    }
}

/// A prompt that was sent.
pub struct Call {
    /// The prompt.
    pub prompt: Prompt,
    /// What for.
    pub purpose: Purpose,
}

/// What a [`Call`] stands for.
pub struct CallModel {
    /// The prompt.
    pub prompt: llm::PromptModel,
    /// What for.
    pub purpose: PurposeModel,
}

impl View for Call {
    type V = CallModel;

    open spec fn view(&self) -> CallModel {
        CallModel { prompt: self.prompt@, purpose: self.purpose@ }
    }
}

/// A form that is being filled.
pub struct Fill {
    /// Where.
    pub url: String,
    /// The planned actions.
    pub actions: Vec<Action>,
    /// How many were carried out or failed.
    pub done: usize,
    /// How many were carried out.
    pub filled: usize,
    /// What failed, and why.
    pub failed: Vec<String>,
}

/// What a [`Fill`] stands for.
#[verifier::ext_equal]
pub struct FillModel {
    /// Where.
    pub url: Seq<char>,
    /// The planned actions.
    pub actions: Seq<llm::ActionModel>,
    /// How many were carried out or failed.
    pub done: nat,
    /// How many were carried out.
    pub filled: nat,
    /// What failed, and why.
    pub failed: Seq<Seq<char>>,
}

impl View for Fill {
    type V = FillModel;

    open spec fn view(&self) -> FillModel {
        FillModel {
            url: self.url@,
            actions: llm::action_models(self.actions@),
            done: self.done as nat,
            filled: self.filled as nat,
            failed: text::texts(self.failed@),
        }
    }
}

/// What the agent waits for.
pub enum Phase {
    /// A command.
    Idle,
    /// Nothing more.
    Stopped,
    /// Whether a fresh login is forced.
    ReadingForce,
    /// The stored tokens.
    LoadingTokens,
    /// The stored tokens, refreshed.
    RefreshingStored,
    /// The authorize link.
    BeginningLogin,
    /// The tokens of a login.
    FinishingLogin,
    /// The resume, to see whether there is one.
    CheckingResume,
    /// The fields, to see whether there are any.
    CheckingFields,
    /// The resume, to derive fields from it.
    ReadingResume,
    /// That this resume is saved.
    SavingResume(String),
    /// The fields that are known beside this resume.
    LoadingExisting(String),
    /// The reply to a prompt, and whether the tokens were refreshed for it.
    Calling(Call, bool),
    /// Refreshed tokens, to send a prompt again.
    Refreshing(Call),
    /// That fields from the resume are saved.
    MergingResume,
    /// That fields from a form are saved.
    MergingEntries,
    /// Chrome, to open this link.
    ConnectingBrowser(String),
    /// The page at this link.
    OpeningPage(String),
    /// The fields, to fill the form of a page.
    LoadingForPlan {
        /// The link.
        url: String,
        /// The HTML of the page.
        html: String,
    },
    /// That an action is carried out.
    Filling(Fill),
    /// What the user entered in a form.
    Snapshotting,
    /// The fields that are known beside what the user entered.
    LoadingForEntries(FieldMap),
}

/// What a [`Phase`] stands for.
pub enum PhaseModel {
    /// A command.
    Idle,
    /// Nothing more.
    Stopped,
    /// Whether a fresh login is forced.
    ReadingForce,
    /// The stored tokens.
    LoadingTokens,
    /// The stored tokens, refreshed.
    RefreshingStored,
    /// The authorize link.
    BeginningLogin,
    /// The tokens of a login.
    FinishingLogin,
    /// The resume, to see whether there is one.
    CheckingResume,
    /// The fields, to see whether there are any.
    CheckingFields,
    /// The resume, to derive fields from it.
    ReadingResume,
    /// That this resume is saved.
    SavingResume(Seq<char>),
    /// The fields that are known beside this resume.
    LoadingExisting(Seq<char>),
    /// The reply to a prompt, and whether the tokens were refreshed for it.
    Calling(CallModel, bool),
    /// Refreshed tokens, to send a prompt again.
    Refreshing(CallModel),
    /// That fields from the resume are saved.
    MergingResume,
    /// That fields from a form are saved.
    MergingEntries,
    /// Chrome, to open this link.
    ConnectingBrowser(Seq<char>),
    /// The page at this link.
    OpeningPage(Seq<char>),
    /// The fields, to fill the form of a page.
    LoadingForPlan {
        /// The link.
        url: Seq<char>,
        /// The HTML of the page.
        html: Seq<char>,
    },
    /// That an action is carried out.
    Filling(FillModel),
    /// What the user entered in a form.
    Snapshotting,
    /// The fields that are known beside what the user entered.
    LoadingForEntries(fields::FieldsModel),
}

impl View for Phase {
    type V = PhaseModel;

    open spec fn view(&self) -> PhaseModel {
        match self {
            Phase::Idle => PhaseModel::Idle,
            Phase::Stopped => PhaseModel::Stopped,
            Phase::ReadingForce => PhaseModel::ReadingForce,
            Phase::LoadingTokens => PhaseModel::LoadingTokens,
            Phase::RefreshingStored => PhaseModel::RefreshingStored,
            Phase::BeginningLogin => PhaseModel::BeginningLogin,
            Phase::FinishingLogin => PhaseModel::FinishingLogin,
            Phase::CheckingResume => PhaseModel::CheckingResume,
            Phase::CheckingFields => PhaseModel::CheckingFields,
            Phase::ReadingResume => PhaseModel::ReadingResume,
            Phase::SavingResume(t) => PhaseModel::SavingResume(t@),
            Phase::LoadingExisting(t) => PhaseModel::LoadingExisting(t@),
            Phase::Calling(c, retried) => PhaseModel::Calling(c@, *retried),
            Phase::Refreshing(c) => PhaseModel::Refreshing(c@),
            Phase::MergingResume => PhaseModel::MergingResume,
            Phase::MergingEntries => PhaseModel::MergingEntries,
            Phase::ConnectingBrowser(url) => PhaseModel::ConnectingBrowser(url@),
            Phase::OpeningPage(url) => PhaseModel::OpeningPage(url@),
            Phase::LoadingForPlan { url, html } => PhaseModel::LoadingForPlan {
                url: url@,
                html: html@,
            },
            Phase::Filling(f) => PhaseModel::Filling(f@),
            Phase::Snapshotting => PhaseModel::Snapshotting,
            Phase::LoadingForEntries(m) => PhaseModel::LoadingForEntries(m@),
        }
    }
}

/// The background worker.
pub struct Agent {
    tokens: Option<Tokens>,
    browser: bool,
    phase: Phase,
}

/// What an [`Agent`] stands for.
pub struct AgentModel {
    /// The tokens, once it is connected.
    pub tokens: Option<auth::TokensModel>,
    /// Whether a browser session is open.
    pub browser: bool,
    /// What it waits for.
    pub phase: PhaseModel,
}

impl View for Agent {
    type V = AgentModel;

    closed spec fn view(&self) -> AgentModel {
        AgentModel {
            tokens: auth::opt_tokens(self.tokens),
            browser: self.browser,
            phase: self.phase@,
        }
    }
}

/// What a step comes to.
pub struct StepModel {
    /// The agent.
    pub agent: AgentModel,
    /// What to report, in order.
    pub events: Seq<event::EventModel>,
    /// What to do next; `None` to go on with what is being done.
    pub request: Option<RequestModel>,
}

/// What to report and what to do next.
#[derive(Debug)]
pub struct Output {
    /// What to report, in order.
    pub events: Vec<AgentEvent>,
    /// What to do next; `None` to go on with what is being done.
    pub request: Option<Request>,
}

/// An optional request, as a model.
pub open spec fn request_model(r: Option<Request>) -> Option<RequestModel> {
    match r {
        Some(r) => Some(r@),
        None => None,
    }
}

/// Whether an agent and an output are what a step comes to.
pub open spec fn is_step(agent: Agent, output: Output, step: StepModel) -> bool {
    &&& agent@ == step.agent
    &&& event::events(output.events@) == step.events
    &&& request_model(output.request) == step.request
}

impl PhaseModel {
    /// Whether the agent needs its tokens in this phase.
    pub open spec fn calls(self) -> bool {
        self is Calling || self is Refreshing
    }

    /// Whether the agent needs a browser session in this phase.
    pub open spec fn browses(self) -> bool {
        ||| self is OpeningPage
        ||| self is LoadingForPlan
        ||| self is Filling
        ||| self is Snapshotting
        ||| self is LoadingForEntries
        ||| self matches PhaseModel::Calling(c, _) && c.purpose is Plan
        ||| self matches PhaseModel::Refreshing(c) && c.purpose is Plan
    }

    /// Whether the UI shows the agent as working in this phase.
    pub open spec fn works(self) -> bool {
        !(self is Idle || self is Stopped || self is CheckingResume || self is CheckingFields
            || self is ReadingResume || self is SavingResume)
    }
}

impl AgentModel {
    /// The agent's invariant: it calls the model only with tokens, works on a
    /// page only with a browser session, has tried each action before the
    /// current one exactly once, and asks for names only where the user entered
    /// something.
    pub open spec fn coherent(self) -> bool {
        &&& self.phase.calls() ==> self.tokens is Some
        &&& self.phase.browses() ==> self.browser
        &&& self.phase matches PhaseModel::Filling(f) ==> f.done < f.actions.len() && f.filled
            + f.failed.len() == f.done
        &&& self.phase matches PhaseModel::LoadingForEntries(m) ==> m != Map::<
            Seq<char>,
            Seq<char>,
        >::empty()
    }

    /// The agent at the start.
    pub open spec fn initial() -> AgentModel {
        AgentModel { tokens: None, browser: false, phase: PhaseModel::Idle }
    }

    /// Goes on to a phase with a request.
    pub open spec fn goes_on(
        self,
        phase: PhaseModel,
        ev: Seq<event::EventModel>,
        request: RequestModel,
    ) -> StepModel {
        StepModel { agent: AgentModel { phase, ..self }, events: ev, request: Some(request) }
    }

    /// Goes back to waiting for a command.
    pub open spec fn rests(self, ev: Seq<event::EventModel>) -> StepModel {
        self.goes_on(PhaseModel::Idle, ev, RequestModel::Wait)
    }

    /// Stops working and waits for a command.
    pub open spec fn ends(self, ev: Seq<event::EventModel>) -> StepModel {
        self.rests(ev.push(event::EventModel::Busy(false)))
    }

    /// Stops working with an error.
    pub open spec fn fails(self, ev: Seq<event::EventModel>, e: Seq<char>) -> StepModel {
        self.ends(ev.push(event::EventModel::Error(e)))
    }

    /// Nothing comes of an input.
    pub open spec fn stays(self) -> StepModel {
        StepModel { agent: self, events: Seq::empty(), request: None }
    }

    // -- connect -----------------------------------------------------------
    /// Connects.
    pub open spec fn connects(self) -> StepModel {
        self.goes_on(
            PhaseModel::ReadingForce,
            seq![event::EventModel::Busy(true)].push(
                event::EventModel::Status("connecting to ChatGPT…"@),
            ),
            RequestModel::ReadForceLogin,
        )
    }

    /// Uses the stored tokens: as they are if they are fresh, refreshed if they
    /// have expired. Without any the user has to log in.
    pub open spec fn takes_stored(self, tokens: Option<auth::TokensModel>, now: int) -> StepModel {
        match tokens {
            Some(t) => if auth::expired(auth::claims_of(t.access_token), now) {
                self.goes_on(
                    PhaseModel::RefreshingStored,
                    Seq::empty(),
                    RequestModel::RefreshTokens(t),
                )
            } else {
                self.finishes_connect(t, Seq::empty())
            },
            None => self.logs_in(Seq::empty()),
        }
    }

    /// Runs the browser OAuth, ignoring any stored tokens.
    pub open spec fn logs_in(self, ev: Seq<event::EventModel>) -> StepModel {
        self.goes_on(
            PhaseModel::BeginningLogin,
            ev.push(event::EventModel::Busy(true)).push(
                event::EventModel::Status("opening browser to log in to ChatGPT…"@),
            ),
            RequestModel::BeginLogin,
        )
    }

    /// Is connected.
    pub open spec fn finishes_connect(
        self,
        t: auth::TokensModel,
        ev: Seq<event::EventModel>,
    ) -> StepModel {
        AgentModel { tokens: Some(t), ..self }.goes_on(
            PhaseModel::CheckingResume,
            ev.push(event::EventModel::Connected { email: t.email, plan: t.plan }).push(
                event::EventModel::Busy(false),
            ),
            RequestModel::ReadResume,
        )
    }

    // -- resume ------------------------------------------------------------
    /// Sends resume text to the model.
    pub open spec fn extracts(self, resume: Seq<char>, ev: Seq<event::EventModel>) -> StepModel {
        self.goes_on(
            PhaseModel::LoadingExisting(resume),
            ev.push(event::EventModel::Busy(true)).push(
                event::EventModel::Status("reading your resume with ChatGPT…"@),
            ),
            RequestModel::LoadFields,
        )
    }

    // -- the model ---------------------------------------------------------
    /// Sends a prompt with the current tokens.
    pub open spec fn calls_model(self, call: CallModel, ev: Seq<event::EventModel>) -> StepModel {
        match self.tokens {
            Some(t) => self.goes_on(
                PhaseModel::Calling(call, false),
                ev,
                RequestModel::Complete {
                    tokens: t,
                    prompt: call.prompt,
                    stream: call.purpose is Chat,
                },
            ),
            None => self.takes_answer(
                call.purpose,
                answer_of(call.purpose, Err("not connected to ChatGPT"@)),
                ev,
            ),
        }
    }

    /// Takes the reply to a prompt; where the access token was refused, refreshes
    /// once and sends the prompt again.
    pub open spec fn takes_reply(
        self,
        call: CallModel,
        retried: bool,
        reply: Result<Seq<char>, Seq<char>>,
    ) -> StepModel {
        let answer = answer_of(call.purpose, reply);
        match (answer.error(), self.tokens) {
            (Some(e), Some(t)) => if !retried && refuses_token(e) {
                self.goes_on(
                    PhaseModel::Refreshing(call),
                    seq![event::EventModel::Status("refreshing ChatGPT session…"@)],
                    RequestModel::RefreshTokens(t),
                )
            } else {
                self.takes_answer(call.purpose, answer, Seq::empty())
            },
            _ => self.takes_answer(call.purpose, answer, Seq::empty()),
        }
    }

    /// Takes refreshed tokens and sends the prompt again.
    pub open spec fn takes_refreshed(
        self,
        call: CallModel,
        r: Result<auth::TokensModel, Seq<char>>,
    ) -> StepModel {
        match r {
            Ok(t) => AgentModel { tokens: Some(t), ..self }.goes_on(
                PhaseModel::Calling(call, true),
                Seq::empty(),
                RequestModel::Complete {
                    tokens: t,
                    prompt: call.prompt,
                    stream: call.purpose is Chat,
                },
            ),
            Err(e) => self.takes_answer(
                call.purpose,
                answer_of(call.purpose, Err(e)),
                Seq::empty(),
            ),
        }
    }

    /// Takes what a reply holds.
    pub open spec fn takes_answer(
        self,
        purpose: PurposeModel,
        answer: AnswerModel,
        ev: Seq<event::EventModel>,
    ) -> StepModel {
        match (purpose, answer) {
            (PurposeModel::Extract, AnswerModel::Fields(Ok(m))) => self.goes_on(
                PhaseModel::MergingResume,
                ev,
                RequestModel::MergeFields(m),
            ),
            (PurposeModel::Extract, AnswerModel::Fields(Err(e))) => self.fails(
                ev,
                "resume parse failed: "@ + e + (if auth::tells_of_dead_login(text::lowercase(e))
                    || refuses_token(e) {
                    " — type /login to reconnect your ChatGPT account."@
                } else {
                    Seq::empty()
                }),
            ),
            (PurposeModel::Entries, AnswerModel::Fields(Ok(m))) => self.goes_on(
                PhaseModel::MergingEntries,
                ev,
                RequestModel::MergeFields(m),
            ),
            (PurposeModel::Entries, AnswerModel::Fields(Err(e))) => self.fails(
                ev,
                "could not save entries: "@ + e,
            ),
            (PurposeModel::Plan(url), AnswerModel::Actions(Ok(actions))) => if actions.len() == 0 {
                self.ends(
                    ev.push(
                        event::EventModel::System(
                            "ChatGPT found no fields it could confidently fill on this page."@,
                        ),
                    ),
                )
            } else {
                self.fills(
                    FillModel { url, actions, done: 0, filled: 0, failed: Seq::empty() },
                    ev,
                )
            },
            (PurposeModel::Plan(_), AnswerModel::Actions(Err(e))) => self.fails(
                ev,
                "could not plan form fill: "@ + e,
            ),
            (PurposeModel::Chat, AnswerModel::Said(Err(e))) => self.fails(ev, e),
            _ => self.ends(ev),
        }
    }

    // -- chat / apply ------------------------------------------------------
    /// Takes a line that the user typed.
    pub open spec fn takes_message(self, said: Seq<char>) -> StepModel {
        let lowered = text::ascii_lowered(said);
        if lowered == text::ascii_lowered("/login"@) {
            self.logs_in(Seq::empty())
        } else if lowered == text::ascii_lowered("/sync"@) || lowered == text::ascii_lowered(
            "/learn"@,
        ) {
            self.syncs()
        } else if links(said) {
            self.applies_to(said)
        } else {
            self.calls_model(
                CallModel {
                    prompt: llm::chat_model(Seq::empty(), said),
                    purpose: PurposeModel::Chat,
                },
                seq![event::EventModel::Busy(true)],
            )
        }
    }

    /// Applies to a job, with a browser session that is connected on first use.
    pub open spec fn applies_to(self, url: Seq<char>) -> StepModel {
        let ev = seq![event::EventModel::Busy(true)];
        if self.browser {
            self.opens_page(url, ev)
        } else {
            self.goes_on(
                PhaseModel::ConnectingBrowser(url),
                ev.push(
                    event::EventModel::Status("connecting to Chrome (launching it if needed)…"@),
                ),
                RequestModel::ConnectBrowser,
            )
        }
    }

    /// Opens the job page.
    pub open spec fn opens_page(self, url: Seq<char>, ev: Seq<event::EventModel>) -> StepModel {
        self.goes_on(
            PhaseModel::OpeningPage(url),
            ev.push(event::EventModel::Status("opening the job page in Chrome…"@)),
            RequestModel::OpenPage(url),
        )
    }

    /// Carries out the next action, or reports that the form is filled.
    pub open spec fn fills(self, f: FillModel, ev: Seq<event::EventModel>) -> StepModel {
        if f.done < f.actions.len() {
            let action = f.actions[f.done as int];
            self.goes_on(
                PhaseModel::Filling(f),
                ev.push(
                    event::EventModel::Status(
                        "filling "@ + decimal::decimal(f.done + 1) + "/"@ + decimal::decimal(
                            f.actions.len(),
                        ) + ": "@ + action_name(action),
                    ),
                ),
                if uploads(action) {
                    RequestModel::UploadResume(action.selector)
                } else {
                    RequestModel::ApplyAction(action)
                },
            )
        } else {
            self.ends(
                ev.push(
                    event::EventModel::Applied { url: f.url, filled: f.filled, failed: f.failed },
                ).push(
                    event::EventModel::System(
                        "Fill in anything I missed, then type /sync to save your entries to fields.json."@,
                    ),
                ),
            )
        }
    }

    /// Notes what came of an action and goes on to the next.
    pub open spec fn takes_outcome(self, f: FillModel, r: Result<(), Seq<char>>) -> StepModel {
        self.fills(f.after(r), Seq::empty())
    }

    /// Reads the live form from the debug Chrome.
    pub open spec fn syncs(self) -> StepModel {
        if self.browser {
            self.goes_on(
                PhaseModel::Snapshotting,
                seq![event::EventModel::Busy(true)].push(
                    event::EventModel::Status("reading what you entered on the page…"@),
                ),
                RequestModel::Snapshot,
            )
        } else {
            self.rests(
                seq![
                    event::EventModel::Error(
                        "no page open yet — paste a job link first, fill the form, then /sync."@,
                    ),
                ],
            )
        }
    }

    /// Takes what the user entered in the form.
    pub open spec fn takes_snapshot(self, r: Result<fields::FieldsModel, Seq<char>>) -> StepModel {
        match r {
            Ok(m) => if m == Map::<Seq<char>, Seq<char>>::empty() {
                self.ends(
                    seq![event::EventModel::System("Nothing filled on the page yet to learn."@)],
                )
            } else {
                self.goes_on(
                    PhaseModel::LoadingForEntries(m),
                    seq![event::EventModel::Status("saving your entries to fields.json…"@)],
                    RequestModel::LoadFields,
                )
            },
            Err(e) => self.fails(Seq::empty(), e),
        }
    }

    /// Reports what was saved from the resume.
    pub open spec fn reports_resume(self, r: Result<Seq<Seq<char>>, Seq<char>>) -> StepModel {
        match r {
            Ok(changed) => self.ends(
                seq![event::EventModel::FieldsUpdated { changed }].push(
                    event::EventModel::System(
                        "Saved "@ + decimal::decimal(changed.len())
                            + " field(s) to fields.json from your resume."@,
                    ),
                ).push(event::EventModel::Ready),
            ),
            Err(e) => self.fails(Seq::empty(), "could not save fields: "@ + e),
        }
    }

    /// Reports what was saved from a form.
    pub open spec fn reports_entries(self, r: Result<Seq<Seq<char>>, Seq<char>>) -> StepModel {
        match r {
            Ok(changed) => if changed.len() == 0 {
                self.ends(
                    seq![
                        event::EventModel::System(
                            "Your entries already match fields.json — nothing new to save."@,
                        ),
                    ],
                )
            } else {
                self.ends(
                    seq![
                        event::EventModel::System(
                            "Saved "@ + decimal::decimal(changed.len())
                                + " field(s) from the page: "@ + words::joined(changed, ", "@),
                        ),
                    ].push(event::EventModel::FieldsUpdated { changed }),
                )
            },
            Err(e) => self.fails(Seq::empty(), e),
        }
    }

    /// Takes a command.
    pub open spec fn obeys(self, c: event::CommandModel) -> StepModel {
        match c {
            event::CommandModel::Connect => self.connects(),
            event::CommandModel::SubmitResume(t) => self.goes_on(
                PhaseModel::SavingResume(t),
                Seq::empty(),
                RequestModel::WriteResume(t),
            ),
            event::CommandModel::UserMessage(t) => self.takes_message(text::trimmed(t)),
            event::CommandModel::SyncFromBrowser => self.syncs(),
            event::CommandModel::Quit => self.goes_on(
                PhaseModel::Stopped,
                Seq::empty(),
                RequestModel::Stop,
            ),
        }
    }

    /// Takes an input. One that the agent does not wait for changes nothing.
    pub open spec fn steps(self, input: InputModel) -> StepModel {
        match (self.phase, input) {
            (PhaseModel::Idle, InputModel::Command(c)) => self.obeys(c),
            (PhaseModel::ReadingForce, InputModel::ForceLogin(v)) => if forces_login(v) {
                self.logs_in(Seq::empty())
            } else {
                self.goes_on(PhaseModel::LoadingTokens, Seq::empty(), RequestModel::LoadTokens)
            },
            (PhaseModel::LoadingTokens, InputModel::Stored { tokens, now }) => self.takes_stored(
                tokens,
                now,
            ),
            (PhaseModel::RefreshingStored, InputModel::Refreshed(r)) => match r {
                Ok(t) => self.finishes_connect(t, Seq::empty()),
                Err(e) => self.logs_in(
                    seq![
                        event::EventModel::System(
                            "Your saved ChatGPT login has expired ("@ + e
                                + "). Signing in again…"@,
                        ),
                    ],
                ),
            },
            (PhaseModel::BeginningLogin, InputModel::LoginBegun(r)) => match r {
                Ok(url) => self.goes_on(
                    PhaseModel::FinishingLogin,
                    seq![event::EventModel::ConnectPrompt { url }],
                    RequestModel::FinishLogin,
                ),
                Err(e) => self.fails(Seq::empty(), "login failed: "@ + e),
            },
            (PhaseModel::FinishingLogin, InputModel::LoggedIn(r)) => match r {
                Ok(t) => self.finishes_connect(
                    t,
                    seq![event::EventModel::System("Logged in to ChatGPT."@)],
                ),
                Err(e) => self.fails(Seq::empty(), "login failed: "@ + e),
            },
            (PhaseModel::CheckingResume, InputModel::Resume(t)) => if text::is_blank(t) {
                self.rests(seq![event::EventModel::NeedResume])
            } else {
                self.goes_on(
                    PhaseModel::CheckingFields,
                    seq![event::EventModel::Ready],
                    RequestModel::LoadFields,
                )
            },
            (PhaseModel::CheckingFields, InputModel::Fields(m)) => if m == Map::<
                Seq<char>,
                Seq<char>,
            >::empty() {
                self.goes_on(
                    PhaseModel::ReadingResume,
                    seq![
                        event::EventModel::System(
                            "Found your saved resume — deriving application fields…"@,
                        ),
                    ],
                    RequestModel::ReadResume,
                )
            } else {
                self.rests(Seq::empty())
            },
            (PhaseModel::ReadingResume, InputModel::Resume(t)) => self.extracts(t, Seq::empty()),
            (PhaseModel::SavingResume(t), InputModel::ResumeWritten(r)) => match r {
                Ok(_) => self.extracts(t, Seq::empty()),
                Err(e) => self.rests(
                    seq![event::EventModel::Error("could not save resume: "@ + e)],
                ),
            },
            (PhaseModel::LoadingExisting(t), InputModel::Fields(m)) => self.calls_model(
                CallModel { prompt: llm::extract_model(t, m), purpose: PurposeModel::Extract },
                Seq::empty(),
            ),
            (PhaseModel::Calling(c, _), InputModel::Delta(d)) => if c.purpose is Chat {
                StepModel { events: seq![event::EventModel::AssistantChunk(d)], ..self.stays() }
            } else {
                self.stays()
            },
            (PhaseModel::Calling(c, retried), InputModel::Completed(r)) => self.takes_reply(
                c,
                retried,
                r,
            ),
            (PhaseModel::Refreshing(c), InputModel::Refreshed(r)) => self.takes_refreshed(c, r),
            (PhaseModel::MergingResume, InputModel::Merged(r)) => self.reports_resume(r),
            (PhaseModel::MergingEntries, InputModel::Merged(r)) => self.reports_entries(r),
            (PhaseModel::ConnectingBrowser(url), InputModel::BrowserConnected(r)) => match r {
                Ok(_) => AgentModel { browser: true, ..self }.opens_page(url, Seq::empty()),
                Err(e) => self.fails(Seq::empty(), e),
            },
            (PhaseModel::OpeningPage(url), InputModel::Page(r)) => match r {
                Ok(html) => self.goes_on(
                    PhaseModel::LoadingForPlan { url, html },
                    seq![event::EventModel::Status("asking ChatGPT which fields to fill…"@)],
                    RequestModel::LoadFields,
                ),
                Err(e) => self.fails(Seq::empty(), "could not open page: "@ + e),
            },
            (PhaseModel::LoadingForPlan { url, html }, InputModel::Fields(m)) => self.calls_model(
                CallModel { prompt: llm::plan_model(html, m), purpose: PurposeModel::Plan(url) },
                Seq::empty(),
            ),
            (PhaseModel::Filling(f), InputModel::ActionDone(r)) => self.takes_outcome(f, r),
            (PhaseModel::Snapshotting, InputModel::Snapshot(r)) => self.takes_snapshot(r),
            (PhaseModel::LoadingForEntries(o), InputModel::Fields(m)) => self.calls_model(
                CallModel { prompt: llm::map_model(o, m), purpose: PurposeModel::Entries },
                Seq::empty(),
            ),
            _ => self.stays(),
        }
    }
}

impl FillModel {
    /// After the current action was carried out or failed.
    pub open spec fn after(self, r: Result<(), Seq<char>>) -> FillModel {
        match r {
            Ok(_) => FillModel { done: self.done + 1, filled: self.filled + 1, ..self },
            Err(e) => FillModel {
                done: self.done + 1,
                failed: self.failed.push(
                    action_name(self.actions[self.done as int]) + ": "@ + e,
                ),
                ..self
            },
        }
    }
}

/// What a reply holds, by what it was asked for.
pub enum Answer {
    /// Fields.
    Fields(Result<FieldMap, String>),
    /// Actions.
    Actions(Result<Vec<Action>, String>),
    /// A text.
    Said(Result<String, String>),
}

/// What an [`Answer`] stands for.
pub enum AnswerModel {
    /// Fields.
    Fields(Result<fields::FieldsModel, Seq<char>>),
    /// Actions.
    Actions(Result<Seq<llm::ActionModel>, Seq<char>>),
    /// A text.
    Said(Result<Seq<char>, Seq<char>>),
}

impl View for Answer {
    type V = AnswerModel;

    open spec fn view(&self) -> AnswerModel {
        match self {
            Answer::Fields(r) => AnswerModel::Fields(llm::fields_result(*r)),
            Answer::Actions(r) => AnswerModel::Actions(llm::actions_result(*r)),
            Answer::Said(r) => AnswerModel::Said(text::result_text(*r)),
        }
    }
}

/// What a reply holds, by what it was asked for.
pub open spec fn answer_of(
    purpose: PurposeModel,
    reply: Result<Seq<char>, Seq<char>>,
) -> AnswerModel {
    match purpose {
        PurposeModel::Chat => AnswerModel::Said(reply),
        PurposeModel::Plan(_) => AnswerModel::Actions(
            match reply {
                Ok(t) => llm::replied_actions(t),
                Err(e) => Err(e),
            },
        ),
        _ => AnswerModel::Fields(
            match reply {
                Ok(t) => llm::replied_fields(t),
                Err(e) => Err(e),
            },
        ),
    }
}

impl AnswerModel {
    /// What went wrong.
    pub open spec fn error(self) -> Option<Seq<char>> {
        match self {
            AnswerModel::Fields(Err(e)) => Some(e),
            AnswerModel::Actions(Err(e)) => Some(e),
            AnswerModel::Said(Err(e)) => Some(e),
            _ => None,
        }
    }
}

// ---------------------------------------------------------------------------
// The worker
// ---------------------------------------------------------------------------
/// What a reply holds, by what it was asked for.
fn read_answer(purpose: &Purpose, reply: Result<String, String>) -> (r: Answer)
    ensures
        r@ == answer_of(purpose@, text::result_text(reply)),
{
    match purpose {
        Purpose::Chat => Answer::Said(reply),
        Purpose::Plan(_) => Answer::Actions(llm::plan_form_fill(reply)),
        _ => Answer::Fields(llm::extract_fields(reply)),
    }
}

impl Answer {
    /// Whether the access token was refused.
    fn is_refused(&self) -> (r: bool)
        ensures
            r == (self@.error() matches Some(e) && refuses_token(e)),
    {
        match self {
            Answer::Fields(Err(e)) => is_auth_error(e.as_str()),
            Answer::Actions(Err(e)) => is_auth_error(e.as_str()),
            Answer::Said(Err(e)) => is_auth_error(e.as_str()),
            _ => false,
        }
    }
}

fn no_events() -> (r: Vec<AgentEvent>)
    ensures
        event::events(r@) == Seq::<event::EventModel>::empty(),
{
    let r: Vec<AgentEvent> = Vec::new();
    assert(event::events(r@) =~= Seq::<event::EventModel>::empty());
    r
}

fn one_event(e: AgentEvent) -> (r: Vec<AgentEvent>)
    ensures
        event::events(r@) == seq![e@],
{
    let mut r: Vec<AgentEvent> = Vec::new();
    r.push(e);
    assert(event::events(r@) =~= seq![e@]);
    r
}

fn add_status(ev: &mut Vec<AgentEvent>, status: &str)
    ensures
        event::events(final(ev)@) == event::events(old(ev)@).push(
            event::EventModel::Status(status@),
        ),
{
    broadcast use event::lemma_events_push;

    ev.push(AgentEvent::Status(text::owned(status)));
}

fn add_system(ev: &mut Vec<AgentEvent>, said: &str)
    ensures
        event::events(final(ev)@) == event::events(old(ev)@).push(
            event::EventModel::System(said@),
        ),
{
    broadcast use event::lemma_events_push;

    ev.push(AgentEvent::System(text::owned(said)));
}

fn add_busy(ev: &mut Vec<AgentEvent>, on: bool)
    ensures
        event::events(final(ev)@) == event::events(old(ev)@).push(event::EventModel::Busy(on)),
{
    broadcast use event::lemma_events_push;

    ev.push(AgentEvent::Busy(on));
}

impl Agent {
    #[verifier::type_invariant]
    closed spec fn well_formed(self) -> bool {
        self@.coherent()
    }

    /// The agent at the start. It waits for a command.
    pub fn new() -> (r: Agent)
        ensures
            r@ == AgentModel::initial(),
    {
        Agent { tokens: None, browser: false, phase: Phase::Idle }
    }

    /// How many actions are planned for the form that is being filled in, if one
    /// is.
    pub fn planned(&self) -> (r: Option<usize>)
        ensures
            match (r, self@.phase) {
                (Some(n), PhaseModel::Filling(f)) => n == f.actions.len(),
                (None, PhaseModel::Filling(_)) => false,
                (_, _) => r is None,
            },
    {
        match &self.phase {
            Phase::Filling(fill) => Some(fill.actions.len()),
            _ => None,
        }
    }

    fn goes_on(self, phase: Phase, events: Vec<AgentEvent>, request: Request) -> (r: (
        Agent,
        Output,
    ))
        requires
            (AgentModel { phase: phase@, ..self@ }).coherent(),
        ensures
            is_step(r.0, r.1, self@.goes_on(phase@, event::events(events@), request@)),
    {
        let agent = Agent { tokens: self.tokens, browser: self.browser, phase };
        (agent, Output { events, request: Some(request) })
    }

    fn rests(self, events: Vec<AgentEvent>) -> (r: (Agent, Output))
        ensures
            is_step(r.0, r.1, self@.rests(event::events(events@))),
    {
        self.goes_on(Phase::Idle, events, Request::Wait)
    }

    fn ends(self, events: Vec<AgentEvent>) -> (r: (Agent, Output))
        ensures
            is_step(r.0, r.1, self@.ends(event::events(events@))),
    {
        let mut ev = events;
        add_busy(&mut ev, false);
        self.rests(ev)
    }

    fn fails(self, events: Vec<AgentEvent>, e: String) -> (r: (Agent, Output))
        ensures
            is_step(r.0, r.1, self@.fails(event::events(events@), e@)),
    {
        broadcast use event::lemma_events_push;

        let mut ev = events;
        ev.push(AgentEvent::Error(e));
        self.ends(ev)
    }

    // -- connect -----------------------------------------------------------
    fn connect(self) -> (r: (Agent, Output))
        ensures
            is_step(r.0, r.1, self@.connects()),
    {
        let mut ev = one_event(AgentEvent::Busy(true));
        add_status(&mut ev, "connecting to ChatGPT…");
        self.goes_on(Phase::ReadingForce, ev, Request::ReadForceLogin)
    }

    /// Fast path: reuse tokens from `~/.codex/auth.json`. They are refreshed
    /// first if the access token has expired.
    fn use_stored(self, tokens: Option<Tokens>, now: i64) -> (r: (Agent, Output))
        ensures
            is_step(r.0, r.1, self@.takes_stored(auth::opt_tokens(tokens), now as int)),
    {
        match tokens {
            Some(t) => match auth::ensure_fresh(t, now) {
                Freshness::Fresh(t) => self.finish_connect(t, no_events()),
                Freshness::Stale(t) => self.goes_on(
                    Phase::RefreshingStored,
                    no_events(),
                    Request::RefreshTokens(t),
                ),
            },
            None => self.interactive_login(no_events()),
        }
    }

    /// Always runs the browser OAuth, ignoring any stored tokens.
    fn interactive_login(self, events: Vec<AgentEvent>) -> (r: (Agent, Output))
        ensures
            is_step(r.0, r.1, self@.logs_in(event::events(events@))),
    {
        let mut ev = events;
        add_busy(&mut ev, true);
        add_status(&mut ev, "opening browser to log in to ChatGPT…");
        self.goes_on(Phase::BeginningLogin, ev, Request::BeginLogin)
    }

    fn finish_connect(self, tokens: Tokens, events: Vec<AgentEvent>) -> (r: (Agent, Output))
        ensures
            is_step(r.0, r.1, self@.finishes_connect(tokens@, event::events(events@))),
    {
        broadcast use event::lemma_events_push;

        let mut ev = events;
        ev.push(
            AgentEvent::Connected { email: tokens.email.clone(), plan: tokens.plan.clone() },
        );
        add_busy(&mut ev, false);
        let agent = Agent { tokens: Some(tokens), browser: self.browser, phase: Phase::Idle };
        agent.goes_on(Phase::CheckingResume, ev, Request::ReadResume)
    }

    /// Takes the tokens of an interactive login.
    fn logged_in(self, result: Result<Tokens, String>) -> (r: (Agent, Output))
        ensures
            is_step(
                r.0,
                r.1,
                match result {
                    Ok(t) => self@.finishes_connect(
                        t@,
                        seq![event::EventModel::System("Logged in to ChatGPT."@)],
                    ),
                    Err(e) => self@.fails(Seq::empty(), "login failed: "@ + e@),
                },
            ),
    {
        match result {
            Ok(tokens) => {
                let ev = one_event(AgentEvent::System(text::owned("Logged in to ChatGPT.")));
                self.finish_connect(tokens, ev)
            },
            Err(e) => self.fails(no_events(), text::chained("login failed: ", e.as_str())),
        }
    }

    // -- resume ------------------------------------------------------------
    /// Sends resume text to the model to populate fields.json. Shared by the
    /// resume screen and the auto-derive-on-connect path.
    fn run_extract(self, resume: String) -> (r: (Agent, Output))
        ensures
            is_step(r.0, r.1, self@.extracts(resume@, Seq::empty())),
    {
        let mut ev = no_events();
        add_busy(&mut ev, true);
        add_status(&mut ev, "reading your resume with ChatGPT…");
        self.goes_on(Phase::LoadingExisting(resume), ev, Request::LoadFields)
    }

    // -- chat / apply ------------------------------------------------------
    fn user_message(self, said: &str) -> (r: (Agent, Output))
        ensures
            is_step(r.0, r.1, self@.takes_message(text::trimmed(said@))),
    {
        let trimmed = text::trim(said);
        if text::same_ignoring_case(trimmed.as_str(), "/login") {
            self.interactive_login(no_events())
        } else if text::same_ignoring_case(trimmed.as_str(), "/sync") || text::same_ignoring_case(
            trimmed.as_str(),
            "/learn",
        ) {
            self.sync_from_browser()
        } else if is_url(trimmed.as_str()) {
            self.apply_to(trimmed)
        } else {
            self.chat(trimmed.as_str())
        }
    }

    fn chat(self, message: &str) -> (r: (Agent, Output))
        ensures
            is_step(
                r.0,
                r.1,
                self@.calls_model(
                    CallModel {
                        prompt: llm::chat_model(Seq::empty(), message@),
                        purpose: PurposeModel::Chat,
                    },
                    seq![event::EventModel::Busy(true)],
                ),
            ),
    {
        proof {
            reveal_strlit("");
            assert(""@ =~= Seq::<char>::empty());
        }
        let call = Call { prompt: llm::chat_prompt("", message), purpose: Purpose::Chat };
        self.with_refresh(call, one_event(AgentEvent::Busy(true)))
    }

    fn apply_to(self, url: String) -> (r: (Agent, Output))
        ensures
            is_step(r.0, r.1, self@.applies_to(url@)),
    {
        let mut ev = one_event(AgentEvent::Busy(true));
        if self.browser {
            return self.open_page(url, ev);
        }
        add_status(&mut ev, "connecting to Chrome (launching it if needed)…");
        self.goes_on(Phase::ConnectingBrowser(url), ev, Request::ConnectBrowser)
    }

    fn open_page(self, url: String, events: Vec<AgentEvent>) -> (r: (Agent, Output))
        requires
            self@.browser,
        ensures
            is_step(r.0, r.1, self@.opens_page(url@, event::events(events@))),
    {
        let mut ev = events;
        add_status(&mut ev, "opening the job page in Chrome…");
        let request = Request::OpenPage(url.clone());
        self.goes_on(Phase::OpeningPage(url), ev, request)
    }

    /// Takes the captured page.
    fn take_page(self, url: String, page: Result<String, String>) -> (r: (Agent, Output))
        requires
            self@.browser,
        ensures
            is_step(
                r.0,
                r.1,
                match page {
                    Ok(html) => self@.goes_on(
                        PhaseModel::LoadingForPlan { url: url@, html: html@ },
                        seq![event::EventModel::Status("asking ChatGPT which fields to fill…"@)],
                        RequestModel::LoadFields,
                    ),
                    Err(e) => self@.fails(Seq::empty(), "could not open page: "@ + e@),
                },
            ),
    {
        match page {
            Ok(html) => {
                let ev = one_event(
                    AgentEvent::Status(text::owned("asking ChatGPT which fields to fill…")),
                );
                self.goes_on(Phase::LoadingForPlan { url, html }, ev, Request::LoadFields)
            },
            Err(e) => self.fails(no_events(), text::chained("could not open page: ", e.as_str())),
        }
    }

    /// Goes on with the next action, with live progress so that the user sees
    /// each field being filled; or reports the form as filled.
    fn fill(self, fill: Fill, events: Vec<AgentEvent>) -> (r: (Agent, Output))
        requires
            self@.browser,
            fill@.done <= fill@.actions.len(),
            fill@.filled + fill@.failed.len() == fill@.done,
        ensures
            is_step(r.0, r.1, self@.fills(fill@, event::events(events@))),
    {
        broadcast use event::lemma_events_push;

        let mut ev = events;
        if fill.done < fill.actions.len() {
            let action = &fill.actions[fill.done];
            assert(fill@.actions[fill@.done as int] == action@);
            let mut status = text::owned("filling ");
            status.append(decimal::size_decimal(fill.done + 1).as_str());
            status.append("/");
            status.append(decimal::size_decimal(fill.actions.len()).as_str());
            status.append(": ");
            if action.label.as_str().is_empty() {
                status.append(action.selector.as_str());
            } else {
                status.append(action.label.as_str());
            }
            ev.push(AgentEvent::Status(status));
            let request = if text::same_ignoring_case(action.action.as_str(), "upload") {
                Request::UploadResume(action.selector.clone())
            } else {
                Request::ApplyAction(action.clone())
            };
            return self.goes_on(Phase::Filling(fill), ev, request);
        }
        ev.push(
            AgentEvent::Applied { url: fill.url, filled: fill.filled, failed: fill.failed },
        );
        add_system(
            &mut ev,
            "Fill in anything I missed, then type /sync to save your entries to fields.json.",
        );
        self.ends(ev)
    }

    /// Notes what came of the current action and goes on.
    fn action_done(self, fill: Fill, outcome: Result<(), String>) -> (r: (Agent, Output))
        requires
            self@.browser,
            fill@.done < fill@.actions.len(),
            fill@.filled + fill@.failed.len() == fill@.done,
        ensures
            is_step(r.0, r.1, self@.takes_outcome(fill@, text::unit_result_text(outcome))),
    {
        broadcast use text::lemma_texts_push;

        let ghost after = fill@.after(text::unit_result_text(outcome));
        let mut fill = fill;
        let total: usize = fill.actions.len();
        assert(fill.done < total);
        match outcome {
            Ok(_) => {
                fill.filled = fill.filled + 1;
            },
            Err(e) => {
                let action = &fill.actions[fill.done];
                assert(fill@.actions[fill@.done as int] == action@);
                let mut why = if action.label.as_str().is_empty() {
                    action.selector.clone()
                } else {
                    action.label.clone()
                };
                why.append(": ");
                why.append(e.as_str());
                fill.failed.push(why);
            },
        }
        fill.done = fill.done + 1;
        assert(fill@ =~= after);
        self.fill(fill, no_events())
    }

    /// Reads the live form from the debug Chrome, to normalise the values to
    /// clean field names and fold them into fields.json: the way manual entries
    /// get remembered for next time.
    fn sync_from_browser(self) -> (r: (Agent, Output))
        ensures
            is_step(r.0, r.1, self@.syncs()),
    {
        if !self.browser {
            return self.rests(
                one_event(
                    AgentEvent::Error(
                        text::owned(
                            "no page open yet — paste a job link first, fill the form, then /sync.",
                        ),
                    ),
                ),
            );
        }
        let mut ev = one_event(AgentEvent::Busy(true));
        add_status(&mut ev, "reading what you entered on the page…");
        self.goes_on(Phase::Snapshotting, ev, Request::Snapshot)
    }

    /// Takes what the user entered in the form.
    fn take_snapshot(self, observed: Result<FieldMap, String>) -> (r: (Agent, Output))
        requires
            self@.browser,
        ensures
            is_step(r.0, r.1, self@.takes_snapshot(llm::fields_result(observed))),
    {
        match observed {
            Ok(m) => {
                if m.is_empty() {
                    return self.ends(
                        one_event(
                            AgentEvent::System(
                                text::owned("Nothing filled on the page yet to learn."),
                            ),
                        ),
                    );
                }
                let ev = one_event(
                    AgentEvent::Status(text::owned("saving your entries to fields.json…")),
                );
                self.goes_on(Phase::LoadingForEntries(m), ev, Request::LoadFields)
            },
            Err(e) => self.fails(no_events(), e),
        }
    }

    /// Reports what was saved from the resume.
    fn report_resume(self, merged: Result<Vec<String>, String>) -> (r: (Agent, Output))
        ensures
            is_step(r.0, r.1, self@.reports_resume(names_result(merged))),
    {
        broadcast use event::lemma_events_push;

        match merged {
            Ok(changed) => {
                let mut said = text::owned("Saved ");
                said.append(decimal::size_decimal(changed.len()).as_str());
                said.append(" field(s) to fields.json from your resume.");
                let mut ev = one_event(AgentEvent::FieldsUpdated { changed });
                ev.push(AgentEvent::System(said));
                ev.push(AgentEvent::Ready);
                self.ends(ev)
            },
            Err(e) => self.fails(no_events(), text::chained("could not save fields: ", e.as_str())),
        }
    }

    /// Reports what was saved from a form.
    fn report_entries(self, merged: Result<Vec<String>, String>) -> (r: (Agent, Output))
        ensures
            is_step(r.0, r.1, self@.reports_entries(names_result(merged))),
    {
        broadcast use event::lemma_events_push;

        match merged {
            Ok(changed) => {
                if changed.len() == 0 {
                    return self.ends(
                        one_event(
                            AgentEvent::System(
                                text::owned(
                                    "Your entries already match fields.json — nothing new to save.",
                                ),
                            ),
                        ),
                    );
                }
                let mut said = text::owned("Saved ");
                said.append(decimal::size_decimal(changed.len()).as_str());
                said.append(" field(s) from the page: ");
                said.append(words::join(&changed, ", ").as_str());
                let mut ev = one_event(AgentEvent::System(said));
                ev.push(AgentEvent::FieldsUpdated { changed });
                self.ends(ev)
            },
            Err(e) => self.fails(no_events(), e),
        }
    }

    // -- the model ---------------------------------------------------------
    /// Calls the model with the current tokens.
    fn with_refresh(self, call: Call, events: Vec<AgentEvent>) -> (r: (Agent, Output))
        requires
            call@.purpose is Plan ==> self@.browser,
        ensures
            is_step(r.0, r.1, self@.calls_model(call@, event::events(events@))),
    {
        match &self.tokens {
            Some(tokens) => {
                let request = Request::Complete {
                    tokens: tokens.clone(),
                    prompt: call.prompt.clone(),
                    stream: matches!(call.purpose, Purpose::Chat),
                };
                self.goes_on(Phase::Calling(call, false), events, request)
            },
            None => {
                let answer = read_answer(
                    &call.purpose,
                    Err(text::owned("not connected to ChatGPT")),
                );
                self.take_answer(call.purpose, answer, events)
            },
        }
    }

    /// Takes the reply to a prompt; on a 401, refreshes once to send it again.
    fn take_reply(self, call: Call, retried: bool, reply: Result<String, String>) -> (r: (
        Agent,
        Output,
    ))
        requires
            call@.purpose is Plan ==> self@.browser,
        ensures
            is_step(r.0, r.1, self@.takes_reply(call@, retried, text::result_text(reply))),
    {
        let answer = read_answer(&call.purpose, reply);
        if !retried && answer.is_refused() {
            if let Some(tokens) = &self.tokens {
                let request = Request::RefreshTokens(tokens.clone());
                let ev = one_event(AgentEvent::Status(text::owned("refreshing ChatGPT session…")));
                return self.goes_on(Phase::Refreshing(call), ev, request);
            }
        }
        self.take_answer(call.purpose, answer, no_events())
    }

    /// Takes refreshed tokens to send the prompt again.
    fn take_refreshed(self, call: Call, refreshed: Result<Tokens, String>) -> (r: (Agent, Output))
        requires
            call@.purpose is Plan ==> self@.browser,
        ensures
            is_step(r.0, r.1, self@.takes_refreshed(call@, auth::tokens_result(refreshed))),
    {
        match refreshed {
            Ok(tokens) => {
                let request = Request::Complete {
                    tokens: tokens.clone(),
                    prompt: call.prompt.clone(),
                    stream: matches!(call.purpose, Purpose::Chat),
                };
                let agent = Agent {
                    tokens: Some(tokens),
                    browser: self.browser,
                    phase: Phase::Idle,
                };
                agent.goes_on(Phase::Calling(call, true), no_events(), request)
            },
            Err(e) => {
                let answer = read_answer(&call.purpose, Err(e));
                self.take_answer(call.purpose, answer, no_events())
            },
        }
    }

    /// Takes what a reply holds.
    fn take_answer(self, purpose: Purpose, answer: Answer, events: Vec<AgentEvent>) -> (r: (
        Agent,
        Output,
    ))
        requires
            purpose@ is Plan ==> self@.browser,
        ensures
            is_step(r.0, r.1, self@.takes_answer(purpose@, answer@, event::events(events@))),
    {
        let mut ev = events;
        match (purpose, answer) {
            (Purpose::Extract, Answer::Fields(Ok(m))) => self.goes_on(
                Phase::MergingResume,
                ev,
                Request::MergeFields(m),
            ),
            (Purpose::Extract, Answer::Fields(Err(e))) => {
                let mut said = text::chained("resume parse failed: ", e.as_str());
                let mut hint = String::new();
                if auth::is_relogin_error(e.as_str()) || is_auth_error(e.as_str()) {
                    hint = text::owned(" — type /login to reconnect your ChatGPT account.");
                }
                said.append(hint.as_str());
                self.fails(ev, said)
            },
            (Purpose::Entries, Answer::Fields(Ok(m))) => self.goes_on(
                Phase::MergingEntries,
                ev,
                Request::MergeFields(m),
            ),
            (Purpose::Entries, Answer::Fields(Err(e))) => self.fails(
                ev,
                text::chained("could not save entries: ", e.as_str()),
            ),
            (Purpose::Plan(url), Answer::Actions(Ok(actions))) => {
                if actions.len() == 0 {
                    add_system(
                        &mut ev,
                        "ChatGPT found no fields it could confidently fill on this page.",
                    );
                    return self.ends(ev);
                }
                let fill = Fill { url, actions, done: 0, filled: 0, failed: Vec::new() };
                assert(text::texts(fill.failed@) =~= Seq::<Seq<char>>::empty());
                self.fill(fill, ev)
            },
            (Purpose::Plan(_), Answer::Actions(Err(e))) => self.fails(
                ev,
                text::chained("could not plan form fill: ", e.as_str()),
            ),
            (Purpose::Chat, Answer::Said(Err(e))) => self.fails(ev, e),
            _ => self.ends(ev),
        }
    }

    /// Takes a command.
    fn obey(self, cmd: AgentCommand) -> (r: (Agent, Output))
        ensures
            is_step(r.0, r.1, self@.obeys(cmd@)),
    {
        match cmd {
            AgentCommand::Connect => self.connect(),
            AgentCommand::SubmitResume(t) => {
                let request = Request::WriteResume(t.clone());
                self.goes_on(Phase::SavingResume(t), no_events(), request)
            },
            AgentCommand::UserMessage(t) => self.user_message(t.as_str()),
            AgentCommand::SyncFromBrowser => self.sync_from_browser(),
            AgentCommand::Quit => self.goes_on(Phase::Stopped, no_events(), Request::Stop),
        }
    }

    /// Takes an input: what came of the last piece of outside work. Says what to
    /// report and what to do next. An input that the agent does not wait for
    /// changes nothing.
    pub fn step(self, input: Input) -> (r: (Agent, Output))
        ensures
            is_step(r.0, r.1, self@.steps(input@)),
    {
        proof {
            use_type_invariant(&self);
        }
        let Agent { tokens, browser, phase } = self;
        let agent = Agent { tokens, browser, phase: Phase::Idle };
        match (phase, input) {
            (Phase::Idle, Input::Command(cmd)) => agent.obey(cmd),
            (Phase::ReadingForce, Input::ForceLogin(v)) => if force_login_env(&v) {
                agent.interactive_login(no_events())
            } else {
                agent.goes_on(Phase::LoadingTokens, no_events(), Request::LoadTokens)
            },
            (Phase::LoadingTokens, Input::Stored { tokens, now }) => agent.use_stored(tokens, now),
            (Phase::RefreshingStored, Input::Refreshed(refreshed)) => match refreshed {
                Ok(t) => agent.finish_connect(t, no_events()),
                Err(e) => {
                    // Expired and not refreshable (rotated or revoked): a fresh
                    // browser login instead of pretending to be connected.
                    let mut said = text::owned("Your saved ChatGPT login has expired (");
                    said.append(e.as_str());
                    said.append("). Signing in again…");
                    agent.interactive_login(one_event(AgentEvent::System(said)))
                },
            },
            (Phase::BeginningLogin, Input::LoginBegun(begun)) => match begun {
                Ok(url) => agent.goes_on(
                    Phase::FinishingLogin,
                    one_event(AgentEvent::ConnectPrompt { url }),
                    Request::FinishLogin,
                ),
                Err(e) => agent.fails(no_events(), text::chained("login failed: ", e.as_str())),
            },
            (Phase::FinishingLogin, Input::LoggedIn(result)) => agent.logged_in(result),
            (Phase::CheckingResume, Input::Resume(resume)) => if fields::resume_is_blank(
                resume.as_str(),
            ) {
                // No resume yet: the resume screen asks the user to paste it.
                agent.rests(one_event(AgentEvent::NeedResume))
            } else {
                // Resume is present: go to the chat window straight away, THEN
                // derive fields if there are none, so that the progress and any
                // errors are visible in the chat.
                agent.goes_on(
                    Phase::CheckingFields,
                    one_event(AgentEvent::Ready),
                    Request::LoadFields,
                )
            },
            (Phase::CheckingFields, Input::Fields(m)) => if m.is_empty() {
                let ev = one_event(
                    AgentEvent::System(
                        text::owned("Found your saved resume — deriving application fields…"),
                    ),
                );
                agent.goes_on(Phase::ReadingResume, ev, Request::ReadResume)
            } else {
                agent.rests(no_events())
            },
            (Phase::ReadingResume, Input::Resume(resume)) => agent.run_extract(resume),
            (Phase::SavingResume(resume), Input::ResumeWritten(written)) => match written {
                Ok(_) => agent.run_extract(resume),
                Err(e) => agent.rests(
                    one_event(
                        AgentEvent::Error(text::chained("could not save resume: ", e.as_str())),
                    ),
                ),
            },
            (Phase::LoadingExisting(resume), Input::Fields(m)) => {
                let prompt = llm::extract_prompt(resume.as_str(), &m);
                agent.with_refresh(Call { prompt, purpose: Purpose::Extract }, no_events())
            },
            (Phase::Calling(call, retried), Input::Delta(delta)) => {
                let events = if matches!(call.purpose, Purpose::Chat) {
                    one_event(AgentEvent::AssistantChunk(delta))
                } else {
                    no_events()
                };
                let same = Agent {
                    tokens: agent.tokens,
                    browser: agent.browser,
                    phase: Phase::Calling(call, retried),
                };
                (same, Output { events, request: None })
            },
            (Phase::Calling(call, retried), Input::Completed(reply)) => agent.take_reply(
                call,
                retried,
                reply,
            ),
            (Phase::Refreshing(call), Input::Refreshed(refreshed)) => agent.take_refreshed(
                call,
                refreshed,
            ),
            (Phase::MergingResume, Input::Merged(merged)) => agent.report_resume(merged),
            (Phase::MergingEntries, Input::Merged(merged)) => agent.report_entries(merged),
            (Phase::ConnectingBrowser(url), Input::BrowserConnected(connected)) => match connected {
                Ok(_) => {
                    let agent = Agent { tokens: agent.tokens, browser: true, phase: Phase::Idle };
                    agent.open_page(url, no_events())
                },
                Err(e) => agent.fails(no_events(), e),
            },
            (Phase::OpeningPage(url), Input::Page(page)) => agent.take_page(url, page),
            (Phase::LoadingForPlan { url, html }, Input::Fields(m)) => {
                let prompt = llm::plan_prompt(html.as_str(), &m);
                agent.with_refresh(Call { prompt, purpose: Purpose::Plan(url) }, no_events())
            },
            (Phase::Filling(fill), Input::ActionDone(outcome)) => agent.action_done(fill, outcome),
            (Phase::Snapshotting, Input::Snapshot(observed)) => agent.take_snapshot(observed),
            (Phase::LoadingForEntries(observed), Input::Fields(m)) => {
                match llm::map_prompt(&observed, &m) {
                    Some(prompt) => agent.with_refresh(
                        Call { prompt, purpose: Purpose::Entries },
                        no_events(),
                    ),
                    None => agent.ends(no_events()),
                }
            },
            (phase, _) => {
                let same = Agent { tokens: agent.tokens, browser: agent.browser, phase };
                (same, Output { events: no_events(), request: None })
            },
        }
    }
}

// ---------------------------------------------------------------------------
// Laws
// ---------------------------------------------------------------------------
/// The agent is coherent at the start.
pub proof fn the_start_is_coherent()
    ensures
        AgentModel::initial().coherent(),
{
}

/// Every step keeps the agent coherent.
pub proof fn steps_keep_the_agent_coherent(a: AgentModel, input: InputModel)
    requires
        a.coherent(),
    ensures
        a.steps(input).agent.coherent(),
{
}

/// What is reported as working is what works: after every step the last report
/// tells whether the agent works. So the UI is never left locked when the agent
/// waits for a command.
pub proof fn reports_follow_the_work(a: AgentModel, input: InputModel)
    ensures
        event::busy_after(a.steps(input).events, a.phase.works())
            == a.steps(input).agent.phase.works(),
{
    broadcast use event::lemma_busy_push, event::lemma_busy_one;

}

/// The agent asks for a command exactly when it goes idle.
pub proof fn commands_are_asked_for_when_idle(a: AgentModel, input: InputModel)
    ensures
        a.steps(input).request matches Some(r) ==> (r is Wait <==> a.steps(
            input,
        ).agent.phase is Idle),
{
}

/// An agent that waits for a command takes nothing else, and one that has
/// stopped takes nothing at all.
pub proof fn stray_inputs_change_nothing(a: AgentModel, input: InputModel)
    requires
        a.phase is Stopped || (a.phase is Idle && !(input is Command)),
    ensures
        a.steps(input).agent == a,
        a.steps(input).events.len() == 0,
        a.steps(input).request is None,
{
}

/// A command that comes while the agent is at work changes nothing.
pub proof fn commands_do_not_interrupt(a: AgentModel, c: event::CommandModel)
    requires
        !(a.phase is Idle),
    ensures
        a.steps(InputModel::Command(c)) == a.stays(),
{
}

/// The tokens are refreshed at most once for a prompt.
pub proof fn a_prompt_is_sent_at_most_twice(a: AgentModel, call: CallModel, input: InputModel)
    requires
        a.phase == PhaseModel::Calling(call, true),
    ensures
        !(a.steps(input).agent.phase is Refreshing),
        !(a.steps(input).request is Some && a.steps(input).request->0 is Complete),
{
}

/// Where the access token is refused, the same prompt is sent again with the
/// refreshed tokens, and those are kept.
pub proof fn a_refused_prompt_is_sent_again(
    a: AgentModel,
    call: CallModel,
    e: Seq<char>,
    fresh: auth::TokensModel,
)
    requires
        a.phase == PhaseModel::Calling(call, false),
        a.tokens is Some,
        refuses_token(e),
    ensures
        ({
            let refused = a.steps(InputModel::Completed(Err(e)));
            let again = refused.agent.steps(InputModel::Refreshed(Ok(fresh)));
            &&& refused.request == Some(RequestModel::RefreshTokens(a.tokens->0))
            &&& again.request == Some(
                RequestModel::Complete {
                    tokens: fresh,
                    prompt: call.prompt,
                    stream: call.purpose is Chat,
                },
            )
            &&& again.agent.tokens == Some(fresh)
        }),
{
}

/// The agent is never disconnected: tokens and a browser session, once there,
/// stay.
pub proof fn connections_stay(a: AgentModel, input: InputModel)
    ensures
        a.tokens is Some ==> a.steps(input).agent.tokens is Some,
        a.browser ==> a.steps(input).agent.browser,
{
}

/// A prompt is sent with the agent's own tokens, and only with those.
pub proof fn prompts_carry_the_tokens(a: AgentModel, input: InputModel)
    ensures
        a.steps(input).request matches Some(RequestModel::Complete { tokens, .. }) ==> a.steps(
            input,
        ).agent.tokens == Some(tokens),
{
}

/// Nothing is asked of a page without a browser session.
pub proof fn pages_need_a_browser(a: AgentModel, input: InputModel)
    requires
        a.coherent(),
    ensures
        a.steps(input).request matches Some(r) ==> (r is OpenPage || r is ApplyAction
            || r is UploadResume || r is Snapshot) ==> a.steps(input).agent.browser,
{
}

/// The actions are tried in their order, each once, whatever came of the last.
pub proof fn actions_run_in_order(a: AgentModel, f: FillModel, r: Result<(), Seq<char>>)
    requires
        a.phase == PhaseModel::Filling(f),
        f.done + 1 < f.actions.len(),
    ensures
        ({
            let next = a.steps(InputModel::ActionDone(r));
            let action = f.actions[f.done as int + 1];
            &&& next.agent.phase == PhaseModel::Filling(f.after(r))
            &&& f.after(r).actions == f.actions
            &&& f.after(r).done == f.done + 1
            &&& next.request == Some(
                if uploads(action) {
                    RequestModel::UploadResume(action.selector)
                } else {
                    RequestModel::ApplyAction(action)
                },
            )
        }),
{
}

/// When a form is reported as filled, every planned action is counted: as
/// filled or as failed.
pub proof fn every_action_is_counted(a: AgentModel, f: FillModel, r: Result<(), Seq<char>>)
    requires
        a.coherent(),
        a.phase == PhaseModel::Filling(f),
        f.done + 1 == f.actions.len(),
    ensures
        ({
            let g = f.after(r);
            let last = a.steps(InputModel::ActionDone(r));
            &&& last.agent.phase is Idle
            &&& last.events[0] == (event::EventModel::Applied {
                url: f.url,
                filled: g.filled,
                failed: g.failed,
            })
            &&& g.filled + g.failed.len() == f.actions.len()
        }),
{
}

/// `/login`, in any case, logs in anew whether or not there are tokens.
pub proof fn login_ignores_stored_tokens(a: AgentModel, said: Seq<char>)
    requires
        a.phase is Idle,
        text::ascii_lowered(text::trimmed(said)) == text::ascii_lowered("/login"@),
    ensures
        a.steps(InputModel::Command(event::CommandModel::UserMessage(said))).request == Some(
            RequestModel::BeginLogin,
        ),
{
}

/// The link of a login is shown exactly once, when the login has begun, whether
/// the login then succeeds or not.
pub proof fn the_login_link_is_shown_once(
    a: AgentModel,
    url: Seq<char>,
    result: Result<auth::TokensModel, Seq<char>>,
)
    requires
        a.phase is BeginningLogin,
    ensures
        ({
            let begun = a.steps(InputModel::LoginBegun(Ok(url)));
            let ended = begun.agent.steps(InputModel::LoggedIn(result));
            &&& begun.events == seq![event::EventModel::ConnectPrompt { url }]
            &&& begun.request == Some(RequestModel::FinishLogin)
            &&& forall|i: int|
                0 <= i < ended.events.len() ==> !((#[trigger] ended.events[i]) is ConnectPrompt)
        }),
{
}

/// A login that fails, for one because it took too long, is reported as failed.
/// The agent keeps the tokens that it had and waits for the next command.
pub proof fn a_failed_login_changes_no_tokens(a: AgentModel, e: Seq<char>)
    requires
        a.phase is FinishingLogin,
    ensures
        ({
            let next = a.steps(InputModel::LoggedIn(Err(e)));
            &&& next.agent.tokens == a.tokens
            &&& next.agent.phase is Idle
            &&& next.events.contains(event::EventModel::Error("login failed: "@ + e))
        }),
{
    let next = a.steps(InputModel::LoggedIn(Err(e)));
    assert(next.events[0] == event::EventModel::Error("login failed: "@ + e));
}

/// The fragments of a chat reply are reported as they come, and nothing else
/// changes.
pub proof fn chat_fragments_are_reported(
    a: AgentModel,
    call: CallModel,
    retried: bool,
    delta: Seq<char>,
)
    requires
        a.phase == PhaseModel::Calling(call, retried),
        call.purpose is Chat,
    ensures
        a.steps(InputModel::Delta(delta)).agent == a,
        a.steps(InputModel::Delta(delta)).events == seq![
            event::EventModel::AssistantChunk(delta),
        ],
{
}

/// `KLAWPLY_FORCE_LOGIN` skips the stored tokens.
pub proof fn a_forced_login_skips_stored_tokens(a: AgentModel, value: Option<Seq<char>>)
    requires
        a.phase is ReadingForce,
        forces_login(value),
    ensures
        a.steps(InputModel::ForceLogin(value)).request == Some(RequestModel::BeginLogin),
{
}

/// Stored tokens that have not expired are used as they are, without a login
/// and without a refresh.
pub proof fn fresh_tokens_are_reused(a: AgentModel, t: auth::TokensModel, now: int)
    requires
        a.phase is LoadingTokens,
        !auth::expired(auth::claims_of(t.access_token), now),
    ensures
        ({
            let next = a.steps(InputModel::Stored { tokens: Some(t), now });
            next.agent.tokens == Some(t) && next.request == Some(RequestModel::ReadResume)
        }),
{
}

/// Once connected, the user is asked for a resume exactly where there is none,
/// and is taken to the chat otherwise; fields that are there are left alone.
pub proof fn the_resume_decides_the_screen(
    a: AgentModel,
    resume: Seq<char>,
    known: fields::FieldsModel,
)
    requires
        a.phase is CheckingResume,
    ensures
        ({
            let next = a.steps(InputModel::Resume(resume));
            if text::is_blank(resume) {
                next.events == seq![event::EventModel::NeedResume] && next.agent.phase is Idle
            } else {
                &&& next.events == seq![event::EventModel::Ready]
                &&& known != Map::<Seq<char>, Seq<char>>::empty() ==> next.agent.steps(
                    InputModel::Fields(known),
                ).agent.phase is Idle
            }
        }),
{
}

/// A page that was opened is what the plan is asked for: the prompt that is sent
/// holds that page and the fields that are known, and goes out with the tokens.
pub proof fn the_opened_page_is_planned_on(
    a: AgentModel,
    url: Seq<char>,
    html: Seq<char>,
    known: fields::FieldsModel,
    t: auth::TokensModel,
)
    requires
        a.phase == PhaseModel::OpeningPage(url),
        a.tokens == Some(t),
    ensures
        ({
            let opened = a.steps(InputModel::Page(Ok(html)));
            let asked = opened.agent.steps(InputModel::Fields(known));
            &&& opened.request == Some(RequestModel::LoadFields)
            &&& asked.request == Some(
                RequestModel::Complete {
                    tokens: t,
                    prompt: llm::plan_model(html, known),
                    stream: false,
                },
            )
        }),
{
}

/// The actions that the reply plans are carried out on the page that was opened,
/// from the first on.
pub proof fn the_plan_is_carried_out(
    a: AgentModel,
    url: Seq<char>,
    html: Seq<char>,
    known: fields::FieldsModel,
    reply: Seq<char>,
    actions: Seq<llm::ActionModel>,
)
    requires
        a.phase == PhaseModel::OpeningPage(url),
        a.tokens is Some,
        llm::replied_actions(reply) == Ok::<Seq<llm::ActionModel>, Seq<char>>(actions),
    ensures
        ({
            let asked = a.steps(InputModel::Page(Ok(html))).agent.steps(InputModel::Fields(known));
            let planned = asked.agent.steps(InputModel::Completed(Ok(reply)));
            if actions.len() == 0 {
                planned.agent.phase is Idle && planned.request == Some(RequestModel::Wait)
            } else {
                &&& planned.agent.phase == PhaseModel::Filling(
                    FillModel { url, actions, done: 0, filled: 0, failed: Seq::empty() },
                )
                &&& planned.request == Some(
                    if text::ascii_lowered(actions[0].action) == text::ascii_lowered("upload"@) {
                        RequestModel::UploadResume(actions[0].selector)
                    } else {
                        RequestModel::ApplyAction(actions[0])
                    },
                )
            }
        }),
{
}

/// A resume that the user hands in is saved as it is, sent to the model with the
/// fields that are known, and the fields of the reply are merged and reported.
pub proof fn a_resume_becomes_fields(
    a: AgentModel,
    t: auth::TokensModel,
    resume: Seq<char>,
    known: fields::FieldsModel,
    reply: Seq<char>,
    found: fields::FieldsModel,
    changed: Seq<Seq<char>>,
)
    requires
        a.phase is Idle,
        a.tokens == Some(t),
        llm::replied_fields(reply) == Ok::<fields::FieldsModel, Seq<char>>(found),
    ensures
        ({
            let saved = a.steps(InputModel::Command(event::CommandModel::SubmitResume(resume)));
            let read = saved.agent.steps(InputModel::ResumeWritten(Ok(())));
            let asked = read.agent.steps(InputModel::Fields(known));
            let merged = asked.agent.steps(InputModel::Completed(Ok(reply)));
            let told = merged.agent.steps(InputModel::Merged(Ok(changed)));
            &&& saved.request == Some(RequestModel::WriteResume(resume))
            &&& read.request == Some(RequestModel::LoadFields)
            &&& asked.request == Some(
                RequestModel::Complete {
                    tokens: t,
                    prompt: llm::extract_model(resume, known),
                    stream: false,
                },
            )
            &&& merged.request == Some(RequestModel::MergeFields(found))
            &&& told.events.contains(event::EventModel::FieldsUpdated { changed })
            &&& told.events.contains(event::EventModel::Ready)
            &&& told.agent.phase is Idle
        }),
{
    let saved = a.steps(InputModel::Command(event::CommandModel::SubmitResume(resume)));
    let read = saved.agent.steps(InputModel::ResumeWritten(Ok(())));
    let asked = read.agent.steps(InputModel::Fields(known));
    let merged = asked.agent.steps(InputModel::Completed(Ok(reply)));
    let told = merged.agent.steps(InputModel::Merged(Ok(changed)));
    assert(told.events[0] == (event::EventModel::FieldsUpdated { changed }));
    assert(told.events[2] == event::EventModel::Ready);
}

/// A resume that is there already becomes fields in the same way, where there are
/// none yet.
pub proof fn a_saved_resume_becomes_fields(
    a: AgentModel,
    t: auth::TokensModel,
    resume: Seq<char>,
    none: fields::FieldsModel,
)
    requires
        a.phase is CheckingFields,
        a.tokens == Some(t),
        none == Map::<Seq<char>, Seq<char>>::empty(),
    ensures
        ({
            let wanted = a.steps(InputModel::Fields(none));
            let read = wanted.agent.steps(InputModel::Resume(resume));
            let asked = read.agent.steps(InputModel::Fields(none));
            &&& wanted.request == Some(RequestModel::ReadResume)
            &&& asked.request == Some(
                RequestModel::Complete {
                    tokens: t,
                    prompt: llm::extract_model(resume, none),
                    stream: false,
                },
            )
        }),
{
}

/// What the user entered in a form is sent to the model with the fields that are
/// known, and the fields of the reply are merged and reported.
pub proof fn entries_become_fields(
    a: AgentModel,
    t: auth::TokensModel,
    entered: fields::FieldsModel,
    known: fields::FieldsModel,
    reply: Seq<char>,
    found: fields::FieldsModel,
    changed: Seq<Seq<char>>,
)
    requires
        a.phase is Idle,
        a.browser,
        a.tokens == Some(t),
        entered != Map::<Seq<char>, Seq<char>>::empty(),
        llm::replied_fields(reply) == Ok::<fields::FieldsModel, Seq<char>>(found),
        changed.len() > 0,
    ensures
        ({
            let read = a.steps(InputModel::Command(event::CommandModel::SyncFromBrowser));
            let saving = read.agent.steps(InputModel::Snapshot(Ok(entered)));
            let asked = saving.agent.steps(InputModel::Fields(known));
            let merged = asked.agent.steps(InputModel::Completed(Ok(reply)));
            let told = merged.agent.steps(InputModel::Merged(Ok(changed)));
            &&& read.request == Some(RequestModel::Snapshot)
            &&& saving.request == Some(RequestModel::LoadFields)
            &&& asked.request == Some(
                RequestModel::Complete {
                    tokens: t,
                    prompt: llm::map_model(entered, known),
                    stream: false,
                },
            )
            &&& merged.request == Some(RequestModel::MergeFields(found))
            &&& told.events.contains(event::EventModel::FieldsUpdated { changed })
            &&& told.events.contains(
                event::EventModel::System(
                    "Saved "@ + decimal::decimal(changed.len()) + " field(s) from the page: "@
                        + words::joined(changed, ", "@),
                ),
            )
            &&& told.agent.phase is Idle
        }),
{
    let read = a.steps(InputModel::Command(event::CommandModel::SyncFromBrowser));
    let saving = read.agent.steps(InputModel::Snapshot(Ok(entered)));
    let asked = saving.agent.steps(InputModel::Fields(known));
    let merged = asked.agent.steps(InputModel::Completed(Ok(reply)));
    let told = merged.agent.steps(InputModel::Merged(Ok(changed)));
    assert(told.events[1] == (event::EventModel::FieldsUpdated { changed }));
    assert(told.events[0] == event::EventModel::System(
        "Saved "@ + decimal::decimal(changed.len()) + " field(s) from the page: "@ + words::joined(
            changed,
            ", "@,
        ),
    ));
}

/// `/sync` and `/learn`, in any case, read the form; without a page there is
/// nothing to read.
pub proof fn entries_are_read_on_request(a: AgentModel, said: Seq<char>)
    requires
        a.phase is Idle,
        text::ascii_lowered(text::trimmed(said)) == "/sync"@ || text::ascii_lowered(
            text::trimmed(said),
        ) == "/learn"@,
    ensures
        ({
            let next = a.steps(InputModel::Command(event::CommandModel::UserMessage(said)));
            if a.browser {
                next.request == Some(RequestModel::Snapshot)
            } else {
                next.agent == a && next.request == Some(RequestModel::Wait) && next.events == seq![
                    event::EventModel::Error(
                        "no page open yet — paste a job link first, fill the form, then /sync."@,
                    ),
                ]
            }
        }),
{
    reveal_strlit("/login");
    reveal_strlit("/sync");
    reveal_strlit("/learn");
    assert(text::ascii_lowered("/sync"@) =~= "/sync"@);
    assert(text::ascii_lowered("/learn"@) =~= "/learn"@);
    assert(text::ascii_lowered("/login"@) =~= "/login"@);
    assert("/login"@[2] == 'o' && "/learn"@[2] == 'e');
    assert("/login"@.len() == 6 && "/sync"@.len() == 5);
}

/// A link that the user types is opened, by a browser that is connected first
/// where there is none yet.
pub proof fn links_are_opened(a: AgentModel, said: Seq<char>, link: Seq<char>, rest: Seq<char>)
    requires
        a.phase is Idle,
        text::trimmed(said) == link,
        link == "http://"@ + rest || link == "https://"@ + rest,
    ensures
        ({
            let next = a.steps(InputModel::Command(event::CommandModel::UserMessage(said)));
            if a.browser {
                next.request == Some(RequestModel::OpenPage(link))
            } else {
                let connected = next.agent.steps(InputModel::BrowserConnected(Ok(())));
                &&& next.request == Some(RequestModel::ConnectBrowser)
                &&& connected.request == Some(RequestModel::OpenPage(link))
                &&& connected.agent.browser
            }
        }),
{
    reveal_strlit("http://");
    reveal_strlit("https://");
    reveal_strlit("/login");
    reveal_strlit("/sync");
    reveal_strlit("/learn");
    words::texts_are_found_where_they_stand(Seq::empty(), "http://"@, rest);
    words::texts_are_found_where_they_stand(Seq::empty(), "https://"@, rest);
    assert(text::ascii_lowered(link)[0] == 'h') by {
        assert(link[0] == 'h');
    }
    assert(text::ascii_lowered("/login"@)[0] == '/') by {
        assert("/login"@[0] == '/');
    }
    assert(text::ascii_lowered("/sync"@)[0] == '/') by {
        assert("/sync"@[0] == '/');
    }
    assert(text::ascii_lowered("/learn"@)[0] == '/') by {
        assert("/learn"@[0] == '/');
    }
}

/// Anything else that the user types is sent to the model as a message, to be
/// answered bit by bit.
pub proof fn messages_are_sent_to_the_model(
    a: AgentModel,
    t: auth::TokensModel,
    said: Seq<char>,
    message: Seq<char>,
)
    requires
        a.phase is Idle,
        a.tokens == Some(t),
        text::trimmed(said) == message,
        !words::begins(message, "http://"@),
        !words::begins(message, "https://"@),
        text::ascii_lowered(message) != "/login"@,
        text::ascii_lowered(message) != "/sync"@,
        text::ascii_lowered(message) != "/learn"@,
    ensures
        a.steps(InputModel::Command(event::CommandModel::UserMessage(said))).request == Some(
            RequestModel::Complete {
                tokens: t,
                prompt: llm::chat_model(Seq::empty(), message),
                stream: true,
            },
        ),
{
    reveal_strlit("/login");
    reveal_strlit("/sync");
    reveal_strlit("/learn");
    assert(text::ascii_lowered("/sync"@) =~= "/sync"@);
    assert(text::ascii_lowered("/learn"@) =~= "/learn"@);
    assert(text::ascii_lowered("/login"@) =~= "/login"@);
}

/// Without tokens nothing is sent: the user is told that there is no connection.
pub proof fn nothing_is_sent_without_tokens(a: AgentModel, input: InputModel)
    requires
        a.tokens is None,
        a.phase is Idle || a.phase is LoadingExisting || a.phase is LoadingForPlan
            || a.phase is LoadingForEntries,
    ensures
        !(a.steps(input).request is Some && a.steps(input).request->0 is Complete),
        a.phase is LoadingForPlan && input is Fields ==> a.steps(input).events.contains(
            event::EventModel::Error("could not plan form fill: not connected to ChatGPT"@),
        ),
{
    reveal_strlit("could not plan form fill: ");
    reveal_strlit("not connected to ChatGPT");
    reveal_strlit("could not plan form fill: not connected to ChatGPT");
    if a.phase is LoadingForPlan && input is Fields {
        assert("could not plan form fill: "@ + "not connected to ChatGPT"@
            =~= "could not plan form fill: not connected to ChatGPT"@);
        assert(a.steps(input).events[0] == event::EventModel::Error(
            "could not plan form fill: not connected to ChatGPT"@,
        ));
    }
}

/// What went wrong is reported, with the reason, and the agent waits for the next
/// command.
pub proof fn failures_are_reported(a: AgentModel, e: Seq<char>)
    ensures
        a.phase is OpeningPage ==> a.steps(InputModel::Page(Err(e))).events == seq![
            event::EventModel::Error("could not open page: "@ + e),
            event::EventModel::Busy(false),
        ],
        a.phase is ConnectingBrowser ==> a.steps(InputModel::BrowserConnected(Err(e))).events
            == seq![event::EventModel::Error(e), event::EventModel::Busy(false)],
        a.phase is Snapshotting ==> a.steps(InputModel::Snapshot(Err(e))).events == seq![
            event::EventModel::Error(e),
            event::EventModel::Busy(false),
        ],
        a.phase is SavingResume ==> a.steps(InputModel::ResumeWritten(Err(e))).events == seq![
            event::EventModel::Error("could not save resume: "@ + e),
        ],
        a.phase is MergingResume ==> a.steps(InputModel::Merged(Err(e))).events == seq![
            event::EventModel::Error("could not save fields: "@ + e),
            event::EventModel::Busy(false),
        ],
        a.phase is MergingEntries ==> a.steps(InputModel::Merged(Err(e))).events == seq![
            event::EventModel::Error(e),
            event::EventModel::Busy(false),
        ],
        a.phase is BeginningLogin ==> a.steps(InputModel::LoginBegun(Err(e))).events == seq![
            event::EventModel::Error("login failed: "@ + e),
            event::EventModel::Busy(false),
        ],
{
    let none = Seq::<event::EventModel>::empty();
    assert(none.push(event::EventModel::Error("could not open page: "@ + e)).push(
        event::EventModel::Busy(false),
    ) =~= seq![
        event::EventModel::Error("could not open page: "@ + e),
        event::EventModel::Busy(false),
    ]);
    assert(none.push(event::EventModel::Error(e)).push(event::EventModel::Busy(false)) =~= seq![
        event::EventModel::Error(e),
        event::EventModel::Busy(false),
    ]);
    assert(none.push(event::EventModel::Error("could not save fields: "@ + e)).push(
        event::EventModel::Busy(false),
    ) =~= seq![
        event::EventModel::Error("could not save fields: "@ + e),
        event::EventModel::Busy(false),
    ]);
    assert(none.push(event::EventModel::Error("login failed: "@ + e)).push(
        event::EventModel::Busy(false),
    ) =~= seq![
        event::EventModel::Error("login failed: "@ + e),
        event::EventModel::Busy(false),
    ]);
}

/// A reply that cannot be used is reported with the reason, by what it was asked
/// for. Only a reply that refuses the token leads to another try.
pub proof fn unusable_replies_are_reported(
    a: AgentModel,
    call: CallModel,
    e: Seq<char>,
)
    requires
        a.phase == PhaseModel::Calling(call, true),
    ensures
        ({
            let next = a.steps(InputModel::Completed(Err(e)));
            &&& next.agent.phase is Idle
            &&& next.events.len() == 2
            &&& next.events[1] == event::EventModel::Busy(false)
            &&& match call.purpose {
                PurposeModel::Chat => next.events[0] == event::EventModel::Error(e),
                PurposeModel::Plan(_) => next.events[0] == event::EventModel::Error(
                    "could not plan form fill: "@ + e,
                ),
                PurposeModel::Entries => next.events[0] == event::EventModel::Error(
                    "could not save entries: "@ + e,
                ),
                PurposeModel::Extract => next.events[0] matches event::EventModel::Error(why)
                    && words::begins(why, "resume parse failed: "@ + e),
            }
        }),
{
    let why = "resume parse failed: "@ + e;
    words::texts_are_found_where_they_stand(
        Seq::empty(),
        why,
        " — type /login to reconnect your ChatGPT account."@,
    );
    words::texts_are_found_where_they_stand(Seq::empty(), why, Seq::empty());
    assert(why + Seq::<char>::empty() =~= why);
}

/// A chat that was answered leaves the agent waiting for the next command, with
/// nothing more to report than that.
pub proof fn answered_chats_end(a: AgentModel, call: CallModel, retried: bool, reply: Seq<char>)
    requires
        a.phase == PhaseModel::Calling(call, retried),
        call.purpose is Chat,
    ensures
        a.steps(InputModel::Completed(Ok(reply))).events == seq![event::EventModel::Busy(false)],
        a.steps(InputModel::Completed(Ok(reply))).agent.phase is Idle,
{
    assert(Seq::<event::EventModel>::empty().push(event::EventModel::Busy(false)) =~= seq![
        event::EventModel::Busy(false),
    ]);
}

/// The token counts as refused where the error says so, whatever stands around.
pub proof fn refusals_are_noticed(before: Seq<char>, after: Seq<char>)
    ensures
        refuses_token(before + "401"@ + after),
        refuses_token(before + "invalid_token"@ + after),
        refuses_token(before + "Unauthorized"@ + after),
{
    words::texts_are_found_where_they_stand(before, "401"@, after);
    words::texts_are_found_where_they_stand(before, "invalid_token"@, after);
    words::texts_are_found_where_they_stand(before, "Unauthorized"@, after);
}

/// What an action came to is noted: one that was carried out is counted, one that
/// failed is listed by its label, or its selector where it has none, with the
/// reason.
pub proof fn outcomes_are_noted(f: FillModel, e: Seq<char>)
    ensures
        f.after(Ok(())).filled == f.filled + 1,
        f.after(Ok(())).failed == f.failed,
        f.after(Ok(())).done == f.done + 1,
        f.after(Err(e)).filled == f.filled,
        f.after(Err(e)).done == f.done + 1,
        f.after(Err(e)).failed == f.failed.push(
            (if f.actions[f.done as int].label.len() > 0 {
                f.actions[f.done as int].label
            } else {
                f.actions[f.done as int].selector
            }) + ": "@ + e,
        ),
        f.after(Ok(())).url == f.url && f.after(Err(e)).url == f.url,
        f.after(Ok(())).actions == f.actions && f.after(Err(e)).actions == f.actions,
{
}

/// Before each action its number, how many there are and its name are shown.
pub proof fn progress_is_shown(a: AgentModel, f: FillModel, r: Result<(), Seq<char>>)
    requires
        a.phase == PhaseModel::Filling(f),
        f.done + 1 < f.actions.len(),
    ensures
        a.steps(InputModel::ActionDone(r)).events == seq![
            event::EventModel::Status(
                "filling "@ + decimal::decimal(f.done + 2) + "/"@ + decimal::decimal(
                    f.actions.len(),
                ) + ": "@ + (if f.actions[f.done as int + 1].label.len() > 0 {
                    f.actions[f.done as int + 1].label
                } else {
                    f.actions[f.done as int + 1].selector
                }),
            ),
        ],
{
    let next = a.steps(InputModel::ActionDone(r));
    assert(next.events =~= seq![next.events[0]]);
}

/// Connecting looks for a stored login, refreshes it where it has expired, and
/// asks for a new one where there is none or it cannot be refreshed.
pub proof fn connecting_reuses_the_login(
    a: AgentModel,
    value: Option<Seq<char>>,
    t: auth::TokensModel,
    fresh: auth::TokensModel,
    e: Seq<char>,
    now: int,
)
    requires
        a.phase is Idle,
        !forces_login(value),
    ensures
        ({
            let begun = a.steps(InputModel::Command(event::CommandModel::Connect));
            let looked = begun.agent.steps(InputModel::ForceLogin(value));
            let none = looked.agent.steps(InputModel::Stored { tokens: None, now });
            let some = looked.agent.steps(InputModel::Stored { tokens: Some(t), now });
            &&& begun.request == Some(RequestModel::ReadForceLogin)
            &&& looked.request == Some(RequestModel::LoadTokens)
            &&& none.request == Some(RequestModel::BeginLogin)
            &&& auth::expired(auth::claims_of(t.access_token), now) ==> some.request == Some(
                RequestModel::RefreshTokens(t),
            ) && some.agent.steps(InputModel::Refreshed(Ok(fresh))).agent.tokens == Some(fresh)
                && some.agent.steps(InputModel::Refreshed(Ok(fresh))).events.contains(
                event::EventModel::Connected { email: fresh.email, plan: fresh.plan },
            ) && some.agent.steps(InputModel::Refreshed(Err(e))).request == Some(
                RequestModel::BeginLogin,
            ) && some.agent.steps(InputModel::Refreshed(Err(e))).events.contains(
                event::EventModel::System(
                    "Your saved ChatGPT login has expired ("@ + e + "). Signing in again…"@,
                ),
            )
            &&& !auth::expired(auth::claims_of(t.access_token), now) ==> some.agent.tokens == Some(t)
                && some.events.contains(
                event::EventModel::Connected { email: t.email, plan: t.plan },
            )
        }),
{
    let begun = a.steps(InputModel::Command(event::CommandModel::Connect));
    let looked = begun.agent.steps(InputModel::ForceLogin(value));
    let some = looked.agent.steps(InputModel::Stored { tokens: Some(t), now });
    if auth::expired(auth::claims_of(t.access_token), now) {
        assert(some.agent.steps(InputModel::Refreshed(Ok(fresh))).events[0]
            == (event::EventModel::Connected { email: fresh.email, plan: fresh.plan }));
        assert(some.agent.steps(InputModel::Refreshed(Err(e))).events[0]
            == event::EventModel::System(
            "Your saved ChatGPT login has expired ("@ + e + "). Signing in again…"@,
        ));
    } else {
        assert(some.events[0] == (event::EventModel::Connected { email: t.email, plan: t.plan }));
    }
}

/// A login that goes through connects with its tokens.
pub proof fn a_login_connects(a: AgentModel, t: auth::TokensModel)
    requires
        a.phase is FinishingLogin,
    ensures
        ({
            let next = a.steps(InputModel::LoggedIn(Ok(t)));
            &&& next.agent.tokens == Some(t)
            &&& next.events.contains(event::EventModel::Connected { email: t.email, plan: t.plan })
            &&& next.request == Some(RequestModel::ReadResume)
        }),
{
    let next = a.steps(InputModel::LoggedIn(Ok(t)));
    assert(next.events[1] == (event::EventModel::Connected { email: t.email, plan: t.plan }));
}

/// A login is forced by `1` and by `true` in any case, and by nothing else.
pub proof fn a_login_is_forced_by_the_switch(value: Option<Seq<char>>)
    ensures
        forces_login(value) <==> (value matches Some(v) && (v == "1"@ || text::ascii_lowered(v)
            == "true"@)),
{
    reveal_strlit("true");
    assert(text::ascii_lowered("true"@) =~= "true"@);
}

/// What the agent sets out to do is announced.
pub proof fn the_work_is_announced(
    a: AgentModel,
    resume: Seq<char>,
    url: Seq<char>,
    html: Seq<char>,
    entered: fields::FieldsModel,
)
    ensures
        a.phase is Idle ==> a.steps(InputModel::Command(event::CommandModel::Connect)).events
            == seq![
            event::EventModel::Busy(true),
            event::EventModel::Status("connecting to ChatGPT…"@),
        ],
        a.phase is ReadingResume ==> a.steps(InputModel::Resume(resume)).events == seq![
            event::EventModel::Busy(true),
            event::EventModel::Status("reading your resume with ChatGPT…"@),
        ],
        a.phase is ConnectingBrowser ==> a.steps(InputModel::BrowserConnected(Ok(()))).events
            == seq![event::EventModel::Status("opening the job page in Chrome…"@)],
        a.phase is OpeningPage ==> a.steps(InputModel::Page(Ok(html))).events == seq![
            event::EventModel::Status("asking ChatGPT which fields to fill…"@),
        ],
        a.phase is Idle && a.browser ==> a.steps(
            InputModel::Command(event::CommandModel::SyncFromBrowser),
        ).events == seq![
            event::EventModel::Busy(true),
            event::EventModel::Status("reading what you entered on the page…"@),
        ],
        a.phase is Snapshotting && entered != Map::<Seq<char>, Seq<char>>::empty() ==> a.steps(
            InputModel::Snapshot(Ok(entered)),
        ).events == seq![event::EventModel::Status("saving your entries to fields.json…"@)],
        a.phase is LoadingTokens ==> a.steps(
            InputModel::Stored { tokens: None, now: 0 },
        ).events == seq![
            event::EventModel::Busy(true),
            event::EventModel::Status("opening browser to log in to ChatGPT…"@),
        ],
{
    let none = Seq::<event::EventModel>::empty();
    let busy = event::EventModel::Busy(true);
    let connecting = event::EventModel::Status("connecting to ChatGPT…"@);
    let reading = event::EventModel::Status("reading your resume with ChatGPT…"@);
    let opening = event::EventModel::Status("opening the job page in Chrome…"@);
    let entries = event::EventModel::Status("reading what you entered on the page…"@);
    let login = event::EventModel::Status("opening browser to log in to ChatGPT…"@);
    assert(seq![busy].push(connecting) =~= seq![busy, connecting]);
    assert(none.push(busy).push(reading) =~= seq![busy, reading]);
    assert(none.push(opening) =~= seq![opening]);
    assert(seq![busy].push(entries) =~= seq![busy, entries]);
    assert(none.push(busy).push(login) =~= seq![busy, login]);
}

/// Where a resume cannot be read because the login is dead or refused, the user is
/// told how to reconnect; otherwise only the reason is told.
pub proof fn dead_logins_are_told_of(a: AgentModel, call: CallModel, e: Seq<char>)
    requires
        a.phase == PhaseModel::Calling(call, true),
        call.purpose is Extract,
    ensures
        a.steps(InputModel::Completed(Err(e))).events[0] == event::EventModel::Error(
            if auth::tells_of_dead_login(text::lowercase(e)) || words::occurs(e, "401"@)
                || words::occurs(e, "invalid_token"@) || words::occurs(e, "Unauthorized"@) {
                "resume parse failed: "@ + e + " — type /login to reconnect your ChatGPT account."@
            } else {
                "resume parse failed: "@ + e
            },
        ),
{
    let why = "resume parse failed: "@ + e;
    assert(why + Seq::<char>::empty() =~= why);
}

/// Quitting stops the agent, and it stays stopped.
pub proof fn quitting_stops_the_agent(a: AgentModel, input: InputModel)
    requires
        a.phase is Idle,
    ensures
        ({
            let stopped = a.steps(InputModel::Command(event::CommandModel::Quit));
            &&& stopped.request == Some(RequestModel::Stop)
            &&& stopped.agent.steps(input).agent == stopped.agent
        }),
{
}

/// Fragments of replies that are not for the chat are not shown.
pub proof fn other_fragments_are_not_shown(
    a: AgentModel,
    call: CallModel,
    retried: bool,
    delta: Seq<char>,
)
    requires
        a.phase == PhaseModel::Calling(call, retried),
        !(call.purpose is Chat),
    ensures
        a.steps(InputModel::Delta(delta)).events.len() == 0,
        a.steps(InputModel::Delta(delta)).agent == a,
{
}

/// Where nothing was entered, or nothing is new, the user is told so and nothing
/// is asked or saved.
pub proof fn nothing_new_is_told(a: AgentModel, none: Seq<Seq<char>>)
    requires
        none.len() == 0,
    ensures
        a.phase is Snapshotting ==> a.steps(
            InputModel::Snapshot(Ok(Map::<Seq<char>, Seq<char>>::empty())),
        ).events[0] == event::EventModel::System("Nothing filled on the page yet to learn."@)
            && a.steps(
            InputModel::Snapshot(Ok(Map::<Seq<char>, Seq<char>>::empty())),
        ).agent.phase is Idle,
        a.phase is MergingEntries ==> a.steps(InputModel::Merged(Ok(none))).events[0]
            == event::EventModel::System(
            "Your entries already match fields.json — nothing new to save."@,
        ) && a.steps(InputModel::Merged(Ok(none))).agent.phase is Idle,
{
}

/// A request carries what the agent means: the link, the page's control, the
/// resume and the fields, as they are.
pub proof fn requests_carry_what_is_meant(said: String, action: Action, m: FieldMap, t: Tokens)
    ensures
        Request::OpenPage(said)@ == RequestModel::OpenPage(said@),
        Request::UploadResume(said)@ == RequestModel::UploadResume(said@),
        Request::WriteResume(said)@ == RequestModel::WriteResume(said@),
        Request::ApplyAction(action)@ == RequestModel::ApplyAction(action@),
        Request::MergeFields(m)@ == RequestModel::MergeFields(m@),
        Request::RefreshTokens(t)@ == RequestModel::RefreshTokens(t@),
        Input::Resume(said)@ == InputModel::Resume(said@),
        Input::Page(Ok(said))@ == InputModel::Page(Ok(said@)),
        Input::Completed(Ok(said))@ == InputModel::Completed(Ok(said@)),
        Input::Delta(said)@ == InputModel::Delta(said@),
        Input::Fields(m)@ == InputModel::Fields(m@),
        Input::Snapshot(Ok(m))@ == InputModel::Snapshot(Ok(m@)),
{
}

} // verus!
