use base64::Engine;
use klawply::agent::{
    command_name, force_login_env, is_auth_error, is_url, no_document, Agent, Input, Output,
    Request,
};
use klawply::auth::Tokens;
use klawply::event::{AgentCommand, AgentEvent};
use klawply::field_map::FieldMap;

fn tokens(name: &str) -> Tokens {
    Tokens {
        access_token: name.to_string(),
        refresh_token: "r".to_string(),
        email: "ada@example.org".to_string(),
        plan: "plus".to_string(),
        ..Tokens::default()
    }
}

fn fields(pairs: &[(&str, &str)]) -> FieldMap {
    let mut m = FieldMap::new();
    for (k, v) in pairs {
        m.insert(k.to_string(), v.to_string());
    }
    m
}

fn shown(e: &AgentEvent) -> String {
    match e {
        AgentEvent::Status(t) => format!("status {t}"),
        AgentEvent::ConnectPrompt { url } => format!("prompt {url}"),
        AgentEvent::Connected { email, plan } => format!("connected {email} {plan}"),
        AgentEvent::NeedResume => "need resume".to_string(),
        AgentEvent::Ready => "ready".to_string(),
        AgentEvent::AssistantChunk(t) => format!("chunk {t}"),
        AgentEvent::System(t) => format!("system {t}"),
        AgentEvent::Error(t) => format!("error {t}"),
        AgentEvent::FieldsUpdated { changed } => format!("updated {}", changed.join(",")),
        AgentEvent::Applied { url, filled, failed } => {
            format!("applied {url} {filled} [{}]", failed.join("|"))
        }
        AgentEvent::Busy(on) => format!("busy {on}"),
    }
}

fn asked(r: &Option<Request>) -> String {
    match r {
        None => "-".to_string(),
        Some(Request::Wait) => "wait".to_string(),
        Some(Request::Stop) => "stop".to_string(),
        Some(Request::ReadForceLogin) => "force?".to_string(),
        Some(Request::LoadTokens) => "tokens?".to_string(),
        Some(Request::RefreshTokens(t)) => format!("refresh {}", t.access_token),
        Some(Request::BeginLogin) => "begin login".to_string(),
        Some(Request::FinishLogin) => "finish login".to_string(),
        Some(Request::ReadResume) => "resume?".to_string(),
        Some(Request::WriteResume(t)) => format!("write {t}"),
        Some(Request::LoadFields) => "fields?".to_string(),
        Some(Request::MergeFields(m)) => format!("merge {}", m.keys().join(",")),
        Some(Request::Complete { tokens, prompt, stream }) => {
            format!("complete {} {} {stream}", tokens.access_token, prompt.user.len())
        }
        Some(Request::ConnectBrowser) => "browser".to_string(),
        Some(Request::OpenPage(url)) => format!("open {url}"),
        Some(Request::ApplyAction(a)) => format!("{} {}={}", a.action, a.selector, a.value),
        Some(Request::UploadResume(s)) => format!("upload {s}"),
        Some(Request::Snapshot) => "snapshot".to_string(),
    }
}

struct Script {
    agent: Option<Agent>,
}

impl Script {
    fn new() -> Script {
        Script { agent: Some(Agent::new()) }
    }

    fn feed(&mut self, input: Input) -> (Vec<String>, String) {
        let (agent, Output { events, request }) = self.agent.take().unwrap().step(input);
        self.agent = Some(agent);
        (events.iter().map(shown).collect(), asked(&request))
    }

    fn say(&mut self, text: &str) -> (Vec<String>, String) {
        self.feed(Input::Command(AgentCommand::UserMessage(text.to_string())))
    }
}

fn connected() -> Script {
    let mut s = Script::new();
    s.feed(Input::Command(AgentCommand::Connect));
    s.feed(Input::ForceLogin(None));
    s.feed(Input::Stored { tokens: Some(tokens("t1")), now: 0 });
    s.feed(Input::Resume("cv".to_string()));
    let (_, request) = s.feed(Input::Fields(fields(&[("email", "x")])));
    assert_eq!(request, "wait");
    s
}

fn browsing() -> Script {
    let mut s = connected();
    s.say("http://j");
    s.feed(Input::BrowserConnected(Ok(())));
    s.feed(Input::Page(Err("x".to_string())));
    s
}

#[test]
fn commands_have_names() {
    assert_eq!(command_name(&AgentCommand::Connect), "Connect");
    assert_eq!(command_name(&AgentCommand::SubmitResume("x".into())), "SubmitResume");
    assert_eq!(command_name(&AgentCommand::UserMessage("x".into())), "UserMessage");
    assert_eq!(command_name(&AgentCommand::SyncFromBrowser), "SyncFromBrowser");
    assert_eq!(command_name(&AgentCommand::Quit), "Quit");
}

#[test]
fn links_and_switches_are_recognised() {
    assert!(is_url("http://a") && is_url("https://a"));
    assert!(!is_url("ftp://a") && !is_url("HTTP://a"));
    assert!(force_login_env(&Some("1".into())));
    assert!(force_login_env(&Some("TrUe".into())));
    assert!(!force_login_env(&Some("yes".into())));
    assert!(!force_login_env(&None));
    assert!(is_auth_error("returned 401") && is_auth_error("invalid_token"));
    assert!(is_auth_error("Unauthorized") && !is_auth_error("unauthorized"));
    assert_eq!(
        no_document("/k"),
        "no resume file to upload — put resume.pdf (or .docx) in /k"
    );
}

#[test]
fn stored_login_is_reused() {
    let mut s = Script::new();
    let (events, request) = s.feed(Input::Command(AgentCommand::Connect));
    assert_eq!(events, ["busy true", "status connecting to ChatGPT…"]);
    assert_eq!(request, "force?");
    let (events, request) = s.feed(Input::ForceLogin(None));
    assert!(events.is_empty());
    assert_eq!(request, "tokens?");
    let (events, request) = s.feed(Input::Stored { tokens: Some(tokens("t1")), now: 0 });
    assert_eq!(events, ["connected ada@example.org plus", "busy false"]);
    assert_eq!(request, "resume?");
    let (events, request) = s.feed(Input::Resume("cv".into()));
    assert_eq!(events, ["ready"]);
    assert_eq!(request, "fields?");
    let (events, request) = s.feed(Input::Fields(fields(&[("a", "b")])));
    assert!(events.is_empty());
    assert_eq!(request, "wait");
}

#[test]
fn blank_resume_is_asked_for() {
    let mut s = Script::new();
    s.feed(Input::Command(AgentCommand::Connect));
    s.feed(Input::ForceLogin(None));
    s.feed(Input::Stored { tokens: Some(tokens("t1")), now: 0 });
    let (events, request) = s.feed(Input::Resume("  \n".into()));
    assert_eq!(events, ["need resume"]);
    assert_eq!(request, "wait");
}

#[test]
fn expired_login_is_refreshed() {
    let payload = base64::engine::general_purpose::URL_SAFE_NO_PAD.encode(r#"{"exp": 1000}"#);
    let expired = format!("h.{payload}.s");
    let mut s = Script::new();
    s.feed(Input::Command(AgentCommand::Connect));
    s.feed(Input::ForceLogin(None));
    let (events, request) = s.feed(Input::Stored { tokens: Some(tokens(&expired)), now: 2000 });
    assert!(events.is_empty());
    assert_eq!(request, format!("refresh {expired}"));
    let (events, request) = s.feed(Input::Refreshed(Err("reused".into())));
    assert_eq!(
        events,
        [
            "system Your saved ChatGPT login has expired (reused). Signing in again…",
            "busy true",
            "status opening browser to log in to ChatGPT…",
        ]
    );
    assert_eq!(request, "begin login");
}

#[test]
fn forced_login_ignores_stored_tokens() {
    let mut s = Script::new();
    s.feed(Input::Command(AgentCommand::Connect));
    let (_, request) = s.feed(Input::ForceLogin(Some("1".into())));
    assert_eq!(request, "begin login");
    let (events, request) = s.feed(Input::LoginBegun(Ok("http://l".into())));
    assert_eq!(events, ["prompt http://l"]);
    assert_eq!(request, "finish login");
    let (events, request) = s.feed(Input::LoggedIn(Ok(tokens("t2"))));
    assert_eq!(
        events,
        ["system Logged in to ChatGPT.", "connected ada@example.org plus", "busy false"]
    );
    assert_eq!(request, "resume?");
}

#[test]
fn failed_login_unlocks_the_input() {
    for input in [Input::LoginBegun(Err("bind".into()))] {
        let mut s = Script::new();
        assert_eq!(s.say("/LOGIN").1, "begin login");
        let (events, request) = s.feed(input);
        assert_eq!(events, ["error login failed: bind", "busy false"]);
        assert_eq!(request, "wait");
    }
    let mut s = Script::new();
    s.say(" /login ");
    s.feed(Input::LoginBegun(Ok("u".into())));
    let (events, request) = s.feed(Input::LoggedIn(Err("denied".into())));
    assert_eq!(events, ["error login failed: denied", "busy false"]);
    assert_eq!(request, "wait");
}

#[test]
fn fields_are_derived_from_a_saved_resume() {
    let mut s = Script::new();
    s.feed(Input::Command(AgentCommand::Connect));
    s.feed(Input::ForceLogin(None));
    s.feed(Input::Stored { tokens: Some(tokens("t1")), now: 0 });
    s.feed(Input::Resume("cv".into()));
    let (events, request) = s.feed(Input::Fields(fields(&[])));
    assert_eq!(events, ["system Found your saved resume — deriving application fields…"]);
    assert_eq!(request, "resume?");
    let (events, request) = s.feed(Input::Resume("cv".into()));
    assert_eq!(events, ["busy true", "status reading your resume with ChatGPT…"]);
    assert_eq!(request, "fields?");
    let (events, request) = s.feed(Input::Fields(fields(&[])));
    assert!(events.is_empty());
    assert!(request.starts_with("complete t1 ") && request.ends_with(" false"));
    let (events, request) = s.feed(Input::Delta("ignored".into()));
    assert!(events.is_empty());
    assert_eq!(request, "-");
    let (events, request) = s.feed(Input::Completed(Ok(r#"{"name": "Ada"}"#.into())));
    assert!(events.is_empty());
    assert_eq!(request, "merge name");
    let (events, request) = s.feed(Input::Merged(Ok(vec!["name".into()])));
    assert_eq!(
        events,
        [
            "updated name",
            "system Saved 1 field(s) to fields.json from your resume.",
            "ready",
            "busy false",
        ]
    );
    assert_eq!(request, "wait");
}

#[test]
fn submitted_resume_is_saved_first() {
    let mut s = connected();
    let (events, request) = s.feed(Input::Command(AgentCommand::SubmitResume("my cv".into())));
    assert!(events.is_empty());
    assert_eq!(request, "write my cv");
    let (events, request) = s.feed(Input::ResumeWritten(Err("disk".into())));
    assert_eq!(events, ["error could not save resume: disk"]);
    assert_eq!(request, "wait");
    s.feed(Input::Command(AgentCommand::SubmitResume("my cv".into())));
    let (_, request) = s.feed(Input::ResumeWritten(Ok(())));
    assert_eq!(request, "fields?");
}

#[test]
fn resume_failures_hint_at_a_login() {
    let fail = |reply: Result<String, String>, refreshed: Option<&str>| {
        let mut s = connected();
        s.feed(Input::Command(AgentCommand::SubmitResume("cv".into())));
        s.feed(Input::ResumeWritten(Ok(())));
        s.feed(Input::Fields(fields(&[])));
        let (mut events, _) = s.feed(Input::Completed(reply));
        if let Some(e) = refreshed {
            events = s.feed(Input::Refreshed(Err(e.to_string()))).0;
        }
        events
    };
    assert_eq!(
        fail(Ok("no json".into()), None),
        ["error resume parse failed: model did not return a JSON object", "busy false"]
    );
    assert_eq!(
        fail(Err("returned 401".into()), Some("Invalid_Grant")),
        [
            "error resume parse failed: Invalid_Grant — type /login to reconnect your ChatGPT account.",
            "busy false",
        ]
    );
    let mut s = connected();
    s.feed(Input::Command(AgentCommand::SubmitResume("cv".into())));
    s.feed(Input::ResumeWritten(Ok(())));
    s.feed(Input::Fields(fields(&[])));
    s.feed(Input::Completed(Ok("{\"a\": \"b\"}".into())));
    let (events, _) = s.feed(Input::Merged(Err("disk".into())));
    assert_eq!(events, ["error could not save fields: disk", "busy false"]);
}

#[test]
fn chat_is_streamed() {
    let mut s = connected();
    let (events, request) = s.say(" what now? ");
    assert_eq!(events, ["busy true"]);
    assert_eq!(request, format!("complete t1 {} true", "\nUser: what now?".len()));
    let (events, request) = s.feed(Input::Delta("Hel".into()));
    assert_eq!(events, ["chunk Hel"]);
    assert_eq!(request, "-");
    let (events, request) = s.feed(Input::Completed(Ok("Hello".into())));
    assert_eq!(events, ["busy false"]);
    assert_eq!(request, "wait");
    s.say("again");
    let (events, _) = s.feed(Input::Completed(Err("down".into())));
    assert_eq!(events, ["error down", "busy false"]);
}

#[test]
fn chat_needs_a_connection() {
    let mut s = Script::new();
    let (events, request) = s.say("hi");
    assert_eq!(events, ["busy true", "error not connected to ChatGPT", "busy false"]);
    assert_eq!(request, "wait");
}

#[test]
fn refused_token_is_refreshed_once() {
    let mut s = connected();
    s.say("hi");
    let (events, request) = s.feed(Input::Completed(Err("returned 401: x".into())));
    assert_eq!(events, ["status refreshing ChatGPT session…"]);
    assert_eq!(request, "refresh t1");
    let (events, request) = s.feed(Input::Refreshed(Ok(tokens("t2"))));
    assert!(events.is_empty());
    assert!(request.starts_with("complete t2 "));
    let (events, request) = s.feed(Input::Completed(Err("returned 401: x".into())));
    assert_eq!(events, ["error returned 401: x", "busy false"]);
    assert_eq!(request, "wait");
    assert!(s.say("hi").1.starts_with("complete t2 "));
}

#[test]
fn failed_refresh_ends_the_call() {
    let mut s = connected();
    s.say("hi");
    s.feed(Input::Completed(Err("Unauthorized".into())));
    let (events, request) = s.feed(Input::Refreshed(Err("dead".into())));
    assert_eq!(events, ["error dead", "busy false"]);
    assert_eq!(request, "wait");
    assert!(s.say("hi").1.starts_with("complete t1 "));
}

#[test]
fn forms_are_filled() {
    let mut s = connected();
    let (events, request) = s.say("https://job");
    assert_eq!(
        events,
        ["busy true", "status connecting to Chrome (launching it if needed)…"]
    );
    assert_eq!(request, "browser");
    let (events, request) = s.feed(Input::BrowserConnected(Ok(())));
    assert_eq!(events, ["status opening the job page in Chrome…"]);
    assert_eq!(request, "open https://job");
    let (events, request) = s.feed(Input::Page(Ok("<form>".into())));
    assert_eq!(events, ["status asking ChatGPT which fields to fill…"]);
    assert_eq!(request, "fields?");
    let (_, request) = s.feed(Input::Fields(fields(&[("name", "Ada")])));
    assert!(request.starts_with("complete t1 ") && request.ends_with(" false"));
    let plan = r##"[{"selector": "#n", "value": "Ada", "label": "Name"},
                   {"selector": "#cv", "action": "Upload"},
                   {"selector": "#ok", "action": "check"}]"##;
    let (events, request) = s.feed(Input::Completed(Ok(plan.into())));
    assert_eq!(events, ["status filling 1/3: Name"]);
    assert_eq!(request, "fill #n=Ada");
    let (events, request) = s.feed(Input::ActionDone(Ok(())));
    assert_eq!(events, ["status filling 2/3: #cv"]);
    assert_eq!(request, "upload #cv");
    let (events, request) = s.feed(Input::ActionDone(Err("no file".into())));
    assert_eq!(events, ["status filling 3/3: #ok"]);
    assert_eq!(request, "check #ok=");
    let (events, request) = s.feed(Input::ActionDone(Ok(())));
    assert_eq!(
        events,
        [
            "applied https://job 2 [#cv: no file]",
            "system Fill in anything I missed, then type /sync to save your entries to fields.json.",
            "busy false",
        ]
    );
    assert_eq!(request, "wait");
    let (events, request) = s.say("http://next");
    assert_eq!(events, ["busy true", "status opening the job page in Chrome…"]);
    assert_eq!(request, "open http://next");
}

#[test]
fn failures_to_apply_are_reported() {
    let mut s = connected();
    s.say("http://j");
    let (events, _) = s.feed(Input::BrowserConnected(Err("no chrome".into())));
    assert_eq!(events, ["error no chrome", "busy false"]);
    s.say("http://j");
    s.feed(Input::BrowserConnected(Ok(())));
    let (events, _) = s.feed(Input::Page(Err("gone".into())));
    assert_eq!(events, ["error could not open page: gone", "busy false"]);
    s.say("http://j");
    s.feed(Input::Page(Ok("<p>".into())));
    s.feed(Input::Fields(fields(&[])));
    let (events, _) = s.feed(Input::Completed(Err("down".into())));
    assert_eq!(events, ["error could not plan form fill: down", "busy false"]);
    s.say("http://j");
    s.feed(Input::Page(Ok("<p>".into())));
    s.feed(Input::Fields(fields(&[])));
    let (events, request) = s.feed(Input::Completed(Ok("[]".into())));
    assert_eq!(
        events,
        [
            "system ChatGPT found no fields it could confidently fill on this page.",
            "busy false",
        ]
    );
    assert_eq!(request, "wait");
}

#[test]
fn entries_are_learned_from_the_page() {
    let mut s = browsing();
    let (events, request) = s.say("/Sync");
    assert_eq!(events, ["busy true", "status reading what you entered on the page…"]);
    assert_eq!(request, "snapshot");
    let (events, request) = s.feed(Input::Snapshot(Ok(fields(&[("Sex", "F")]))));
    assert_eq!(events, ["status saving your entries to fields.json…"]);
    assert_eq!(request, "fields?");
    let (_, request) = s.feed(Input::Fields(fields(&[("email", "x")])));
    assert!(request.starts_with("complete t1 "));
    let (_, request) = s.feed(Input::Completed(Ok(r#"{"gender": "F", "city": "Oslo"}"#.into())));
    assert_eq!(request, "merge city,gender");
    let (events, request) = s.feed(Input::Merged(Ok(vec!["city".into(), "gender".into()])));
    assert_eq!(
        events,
        [
            "system Saved 2 field(s) from the page: city, gender",
            "updated city,gender",
            "busy false",
        ]
    );
    assert_eq!(request, "wait");
}

#[test]
fn nothing_new_to_learn() {
    let mut s = browsing();
    s.feed(Input::Command(AgentCommand::SyncFromBrowser));
    let (events, _) = s.feed(Input::Snapshot(Ok(fields(&[]))));
    assert_eq!(events, ["system Nothing filled on the page yet to learn.", "busy false"]);
    s.say("/learn");
    s.feed(Input::Snapshot(Ok(fields(&[("a", "b")]))));
    s.feed(Input::Fields(fields(&[])));
    s.feed(Input::Completed(Ok("{}".into())));
    let (events, _) = s.feed(Input::Merged(Ok(vec![])));
    assert_eq!(
        events,
        [
            "system Your entries already match fields.json — nothing new to save.",
            "busy false",
        ]
    );
}

#[test]
fn failures_to_learn_are_reported() {
    let mut s = connected();
    let (events, request) = s.say("/sync");
    assert_eq!(
        events,
        ["error no page open yet — paste a job link first, fill the form, then /sync."]
    );
    assert_eq!(request, "wait");
    let mut s = browsing();
    s.say("/sync");
    let (events, _) = s.feed(Input::Snapshot(Err("closed".into())));
    assert_eq!(events, ["error closed", "busy false"]);
    s.say("/sync");
    s.feed(Input::Snapshot(Ok(fields(&[("a", "b")]))));
    s.feed(Input::Fields(fields(&[])));
    let (events, _) = s.feed(Input::Completed(Err("down".into())));
    assert_eq!(events, ["error could not save entries: down", "busy false"]);
    s.say("/sync");
    s.feed(Input::Snapshot(Ok(fields(&[("a", "b")]))));
    s.feed(Input::Fields(fields(&[])));
    s.feed(Input::Completed(Ok("{}".into())));
    let (events, _) = s.feed(Input::Merged(Err("disk".into())));
    assert_eq!(events, ["error disk", "busy false"]);
}

#[test]
fn stray_inputs_and_quitting() {
    let mut s = connected();
    assert_eq!(s.feed(Input::Delta("x".into())), (vec![], "-".to_string()));
    s.say("hi");
    assert_eq!(s.say("again"), (vec![], "-".to_string()));
    s.feed(Input::Completed(Ok("x".into())));
    assert_eq!(s.feed(Input::Command(AgentCommand::Quit)), (vec![], "stop".to_string()));
    assert_eq!(s.say("hi"), (vec![], "-".to_string()));
}

#[test]
fn reports_tell_whether_the_agent_works() {
    let mut s = browsing();
    let mut busy = false;
    let mut feed = |s: &mut Script, input: Input| {
        let (events, request) = s.feed(input);
        for e in &events {
            if e.starts_with("busy ") {
                busy = e == "busy true";
            }
        }
        if request == "wait" {
            assert!(!busy);
        }
        busy
    };
    let say = |t: &str| Input::Command(AgentCommand::UserMessage(t.to_string()));
    assert!(feed(&mut s, say("http://j")));
    assert!(feed(&mut s, Input::Page(Ok("<p>".into()))));
    assert!(feed(&mut s, Input::Fields(fields(&[]))));
    assert!(feed(&mut s, Input::Completed(Ok("[[\"#a\"], [\"#b\"]]".into()))));
    assert!(feed(&mut s, Input::ActionDone(Ok(()))));
    assert!(!feed(&mut s, Input::ActionDone(Err("x".into()))));
    assert!(feed(&mut s, say("hello")));
    assert!(feed(&mut s, Input::Completed(Err("401".into()))));
    assert!(feed(&mut s, Input::Refreshed(Ok(tokens("t2")))));
    assert!(!feed(&mut s, Input::Completed(Ok("hi".into()))));
}

#[test]
fn login_that_times_out_leaves_the_agent_unconnected() {
    let mut s = Script::new();
    s.say("/login");
    let (events, _) = s.feed(Input::LoginBegun(Ok("http://l".into())));
    assert_eq!(events, ["prompt http://l"]);
    let (events, request) = s.feed(Input::LoggedIn(Err("login timed out".into())));
    assert_eq!(events, ["error login failed: login timed out", "busy false"]);
    assert_eq!(request, "wait");
    assert_eq!(s.say("hello").1, "wait");
}

#[test]
fn planned_actions_are_known_while_a_form_is_filled() {
    let planned = |s: &Script| s.agent.as_ref().and_then(Agent::planned);
    let mut s = browsing();
    assert_eq!(planned(&s), None);
    s.say("http://j");
    s.feed(Input::Page(Ok("<p>".into())));
    s.feed(Input::Fields(fields(&[])));
    assert_eq!(planned(&s), None);
    s.feed(Input::Completed(Ok("[[\"#a\"], [\"#b\"]]".into())));
    assert_eq!(planned(&s), Some(2));
    s.feed(Input::ActionDone(Ok(())));
    assert_eq!(planned(&s), Some(2));
    s.feed(Input::ActionDone(Ok(())));
    assert_eq!(planned(&s), None);
}
