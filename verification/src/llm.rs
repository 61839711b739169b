//! Talks to the ChatGPT subscription backend (`chatgpt.com/backend-api/codex`)
//! with the OAuth access token, the same way the Codex CLI does.
//!
//! The wire format is the Codex "Responses" API. It is centralised in
//! [`stream_request`] and [`complete`], so that there is a single place to
//! adjust. Everything else is provider-agnostic: the model is asked for strict
//! JSON, and the JSON is read. Sending a request and reading its reply line by
//! line is left to the caller.
use crate::auth::Tokens;
use crate::config;
use crate::field_map;
use crate::field_map::FieldMap;
use crate::json;
use crate::json::Json;
use crate::text;
use crate::utf8;
use crate::words;
use vstd::prelude::*;

verus! {

// ---------------------------------------------------------------------------
// Actions
// ---------------------------------------------------------------------------
/// One browser action the model wants performed to fill a form.
#[derive(Debug)]
pub struct Action {
    /// CSS selector for the target element.
    pub selector: String,
    /// One of: `fill`, `click`, `select`, `select_custom`, `check`, `uncheck`,
    /// `upload`.
    pub action: String,
    /// Value to type or option to select. Ignored for click/check.
    pub value: String,
    /// Human-readable label for the transcript ("First name").
    pub label: String,
}

/// What an [`Action`] stands for.
#[verifier::ext_equal]
pub struct ActionModel {
    /// The selector.
    pub selector: Seq<char>,
    /// What to do.
    pub action: Seq<char>,
    /// The value.
    pub value: Seq<char>,
    /// The label.
    pub label: Seq<char>,
}

impl View for Action {
    type V = ActionModel;

    open spec fn view(&self) -> ActionModel {
        ActionModel {
            selector: self.selector@,
            action: self.action@,
            value: self.value@,
            label: self.label@,
        }
    }
}

impl Clone for Action {
    fn clone(&self) -> (r: Self)
        ensures
            r@ == self@,
    {
        Action {
            selector: self.selector.clone(),
            action: self.action.clone(),
            value: self.value.clone(),
            label: self.label.clone(),
        }
    }
}

/// Actions, as models.
pub open spec fn action_models(s: Seq<Action>) -> Seq<ActionModel> {
    s.map_values(|a: Action| a@)
}

/// What an action does that does not say.
pub fn default_action() -> (r: String)
    ensures
        r@ == "fill"@,
{
    text::owned("fill")
}

/// The part of an action's JSON form that holds one of its texts: the member of
/// that name of an object, or the element at that place of an array.
pub open spec fn action_part(t: json::JsonTree, name: Seq<char>, place: int) -> Option<
    json::JsonTree,
> {
    match t {
        json::JsonTree::Object(m) => json::member(m, name),
        json::JsonTree::Array(a) => if place < a.len() {
            Some(a[place])
        } else {
            None
        },
        _ => None,
    }
}

/// The text that a part holds, or `default` if there is none; `None` if it is
/// not a string.
pub open spec fn part_text(part: Option<json::JsonTree>, default: Seq<char>) -> Option<Seq<char>> {
    match part {
        Some(v) => v.as_str(),
        None => Some(default),
    }
}

/// The action that a JSON value stands for: an object, or an array of at most
/// four elements. The selector has to be there, and every part that is there
/// has to be a string.
pub open spec fn read_action(t: json::JsonTree) -> Option<ActionModel> {
    let selector = action_part(t, "selector"@, 0);
    let action = part_text(action_part(t, "action"@, 1), "fill"@);
    let value = part_text(action_part(t, "value"@, 2), Seq::empty());
    let label = part_text(action_part(t, "label"@, 3), Seq::empty());
    if t is Array && t->Array_0.len() > 4 {
        None
    } else if selector is None || selector->0.as_str() is None || action is None || value is None
        || label is None {
        None
    } else {
        Some(
            ActionModel {
                selector: selector->0.as_str()->0,
                action: action->0,
                value: value->0,
                label: label->0,
            },
        )
    }
}

/// The part of an action's JSON form that holds one of its texts.
fn part_of<'a>(v: &'a Json, name: &str, place: usize) -> (r: Option<&'a Json>)
    ensures
        match r {
            Some(p) => action_part(v@, name@, place as int) == Some(p@),
            None => action_part(v@, name@, place as int) is None,
        },
{
    match v.as_array() {
        Some(a) => if place < a.len() {
            assert(json::views(a@)[place as int] == a@[place as int]@);
            Some(&a[place])
        } else {
            None
        },
        None => v.get(name),
    }
}

/// The text that a part holds, or `default` if there is none.
fn text_or(part: Option<&Json>, default: &str) -> (r: Option<String>)
    ensures
        text::opt_text(r) == part_text(
            match part {
                Some(p) => Some(p@),
                None => None,
            },
            default@,
        ),
{
    match part {
        Some(p) => match p.as_str() {
            Some(t) => Some(text::owned(t)),
            None => None,
        },
        None => Some(text::owned(default)),
    }
}

impl Action {
    /// The action that a JSON value stands for.
    pub fn from_json(v: &Json) -> (r: Option<Action>)
        ensures
            match r {
                Some(a) => read_action(v@) == Some(a@),
                None => read_action(v@) is None,
            },
    {
        if let Some(a) = v.as_array() {
            assert(json::views(a@).len() == a@.len());
            if a.len() > 4 {
                return None;
            }
        }
        let selector = match part_of(v, "selector", 0) {
            Some(p) => match p.as_str() {
                Some(t) => text::owned(t),
                None => return None,
            },
            None => return None,
        };
        let action = match text_or(part_of(v, "action", 1), default_action().as_str()) {
            Some(t) => t,
            None => return None,
        };
        proof {
            reveal_strlit("");
            assert(""@ =~= Seq::<char>::empty());
        }
        let value = match text_or(part_of(v, "value", 2), "") {
            Some(t) => t,
            None => return None,
        };
        let label = match text_or(part_of(v, "label", 3), "") {
            Some(t) => t,
            None => return None,
        };
        Some(Action { selector, action, value, label })
    }
}

// ---------------------------------------------------------------------------
// High-level operations
// ---------------------------------------------------------------------------
/// One system+user turn for the model.
#[derive(Debug)]
pub struct Prompt {
    /// The instructions.
    pub system: String,
    /// What the user says.
    pub user: String,
}

/// What a [`Prompt`] stands for.
#[verifier::ext_equal]
pub struct PromptModel {
    /// The instructions.
    pub system: Seq<char>,
    /// What the user says.
    pub user: Seq<char>,
}

impl View for Prompt {
    type V = PromptModel;

    open spec fn view(&self) -> PromptModel {
        PromptModel { system: self.system@, user: self.user@ }
    }
}

impl Clone for Prompt {
    fn clone(&self) -> (r: Self)
        ensures
            r@ == self@,
    {
        Prompt { system: self.system.clone(), user: self.user.clone() }
    }
}

/// How the model is told to read a resume.
pub const EXTRACT_SYSTEM: &'static str = "You extract structured job-application data from a resume. \
        Respond with ONE JSON object only — no prose, no markdown fences. Keys are \
        snake_case field names a job form would ask for (first_name, last_name, \
        full_name, email, phone, address, city, state, country, postal_code, \
        linkedin, github, portfolio, website, current_company, current_title, \
        years_experience, work_authorization, requires_sponsorship, \
        willing_to_relocate, desired_salary, summary, skills, education, \
        experience). Values are plain strings. Omit keys you cannot determine. \
        Keep any existing values unless the resume clearly contradicts them.";

/// How the model is told to plan the filling of a form.
pub const PLAN_SYSTEM: &'static str = "You are a browser automation planner for job-application forms. \
        You are given the HTML of a page and the applicant's data. Produce a JSON \
        ARRAY of actions to complete the form, in order. Each action is an object: \
        {\"selector\": <css selector>, \"action\": one of \
        \"fill\"|\"click\"|\"select\"|\"select_custom\"|\"check\"|\"uncheck\"|\
        \"upload\", \"value\": <string>, \"label\": <short human label>}. Prefer \
        stable selectors (id, name, aria-label, placeholder). Use \"select\" for \
        native <select> elements with the visible option text as value. \
        For CUSTOM dropdowns that are NOT a native <select> — e.g. a clickable \
        <div>/<button> with role=\"combobox\"/\"listbox\" or an aria-haspopup that \
        opens a list of <div>/<li> options (common for Gender, Country, etc.) — \
        use action \"select_custom\" with the selector of the trigger element and \
        the desired option's visible text as value; klawply will open it and click \
        the matching option. \
        For a resume/CV file-upload field, target the <input type=\"file\"> element \
        (it may be hidden behind a styled button — still select the input itself) \
        and use action \"upload\" with an empty value; klawply attaches the local \
        resume document automatically. Only include fields you can confidently map \
        from the applicant data. Do NOT click the final submit button. Respond \
        with the JSON array only — no prose, no markdown fences.";

/// How the model is told to chat.
pub const CHAT_SYSTEM: &'static str = "You are klawply, a concise terminal agent that helps a user apply \
        to jobs. Keep replies short and practical.";

/// How the model is told to name what was entered in a form.
pub const MAP_SYSTEM: &'static str = "You normalise job-application form inputs into a reusable applicant \
        profile. You are given raw form values (the form's field identifier → the \
        value currently entered) and the existing profile's key names. Output ONE \
        JSON object mapping canonical snake_case field names to values. Reuse an \
        existing profile key whenever the meaning matches (e.g. a form field \
        'Gender' or 'candidate[sex]' → 'gender'; 'Email address' → 'email'). Prefer \
        standard names (first_name, last_name, full_name, email, phone, gender, \
        address, city, state, country, postal_code, linkedin_profile_url, \
        github_profile_url, current_company, current_title, years_experience, \
        desired_salary). Drop UI noise (search boxes, empty values, one-time codes). \
        Values are plain strings. Respond with the JSON object only.";

/// How many bytes of a resume are sent.
pub const MAX_RESUME_BYTES: usize = 24_000;

/// How many bytes of a page are sent.
pub const MAX_PAGE_BYTES: usize = 120_000;

/// A field map as compact JSON text.
pub open spec fn fields_json(m: Map<Seq<char>, Seq<char>>) -> Seq<char> {
    json::rendered_json(json::object_of(field_map::sorted_pairs(m)))
}

/// The prompt that asks for the fields of a resume.
pub open spec fn extract_model(
    resume: Seq<char>,
    existing: Map<Seq<char>, Seq<char>>,
) -> PromptModel {
    PromptModel {
        system: EXTRACT_SYSTEM@,
        user: "Existing fields (JSON):\n"@ + fields_json(existing) + "\n\nResume text:\n\"\"\"\n"@
            + utf8::truncated(resume, MAX_RESUME_BYTES as nat) + "\n\"\"\""@,
    }
}

/// The prompt that turns resume text (plus whatever is already known) into a
/// flat map of application fields for `fields.json`.
pub fn extract_prompt(resume: &str, existing: &FieldMap) -> (r: Prompt)
    ensures
        r@ == extract_model(resume@, existing@),
{
    let mut user = text::owned("Existing fields (JSON):\n");
    user.append(json::json_fields(existing).as_str());
    user.append("\n\nResume text:\n\"\"\"\n");
    user.append(utf8::truncate(resume, MAX_RESUME_BYTES).as_str());
    user.append("\n\"\"\"");
    Prompt { system: text::owned(EXTRACT_SYSTEM), user }
}

/// The prompt that asks which form controls to fill.
pub open spec fn plan_model(
    page_html: Seq<char>,
    fields: Map<Seq<char>, Seq<char>>,
) -> PromptModel {
    PromptModel {
        system: PLAN_SYSTEM@,
        user: "Applicant data (JSON):\n"@ + fields_json(fields) + "\n\nPage HTML:\n\"\"\"\n"@
            + utf8::truncated(page_html, MAX_PAGE_BYTES as nat) + "\n\"\"\""@,
    }
}

/// The prompt that asks, given the page HTML and the user's fields, which form
/// controls to fill.
pub fn plan_prompt(page_html: &str, fields: &FieldMap) -> (r: Prompt)
    ensures
        r@ == plan_model(page_html@, fields@),
{
    let mut user = text::owned("Applicant data (JSON):\n");
    user.append(json::json_fields(fields).as_str());
    user.append("\n\nPage HTML:\n\"\"\"\n");
    user.append(utf8::truncate(page_html, MAX_PAGE_BYTES).as_str());
    user.append("\n\"\"\"");
    Prompt { system: text::owned(PLAN_SYSTEM), user }
}

/// The prompt of a chat message.
pub open spec fn chat_model(history: Seq<char>, message: Seq<char>) -> PromptModel {
    PromptModel { system: CHAT_SYSTEM@, user: history + "\nUser: "@ + message }
}

/// The prompt of a message in the chat window, after what was said before.
pub fn chat_prompt(history: &str, user_message: &str) -> (r: Prompt)
    ensures
        r@ == chat_model(history@, user_message@),
{
    let mut user = text::owned(history);
    user.append("\nUser: ");
    user.append(user_message);
    Prompt { system: text::owned(CHAT_SYSTEM), user }
}

/// The prompt that asks for the names of values read from a form.
pub open spec fn map_model(
    observed: Map<Seq<char>, Seq<char>>,
    existing: Map<Seq<char>, Seq<char>>,
) -> PromptModel {
    PromptModel {
        system: MAP_SYSTEM@,
        user: "Existing profile keys: "@ + words::joined(field_map::sorted_names(existing), ", "@)
            + "\n\nObserved form values (JSON):\n"@ + fields_json(observed),
    }
}

/// The prompt that normalises the raw values read back from a form (`identifier
/// -> value`) into canonical `fields.json` keys. Where nothing was observed
/// there is nothing to ask.
pub fn map_prompt(observed: &FieldMap, existing: &FieldMap) -> (r: Option<Prompt>)
    ensures
        match r {
            Some(p) => observed@ != Map::<Seq<char>, Seq<char>>::empty() && p@ == map_model(
                observed@,
                existing@,
            ),
            None => observed@ == Map::<Seq<char>, Seq<char>>::empty(),
        },
{
    if observed.is_empty() {
        return None;
    }
    let mut user = text::owned("Existing profile keys: ");
    user.append(words::join(&existing.keys(), ", ").as_str());
    user.append("\n\nObserved form values (JSON):\n");
    user.append(json::json_fields(observed).as_str());
    Some(Prompt { system: text::owned(MAP_SYSTEM), user })
}

/// A field map or an error message, as models.
pub open spec fn fields_result(r: Result<FieldMap, String>) -> Result<
    Map<Seq<char>, Seq<char>>,
    Seq<char>,
> {
    match r {
        Ok(m) => Ok(m@),
        Err(e) => Err(e@),
    }
}

/// Actions or an error message, as models.
pub open spec fn actions_result(r: Result<Vec<Action>, String>) -> Result<
    Seq<ActionModel>,
    Seq<char>,
> {
    match r {
        Ok(a) => Ok(action_models(a@)),
        Err(e) => Err(e@),
    }
}

/// The fields that a reply of the model holds.
pub open spec fn replied_fields(reply: Seq<char>) -> Result<Map<Seq<char>, Seq<char>>, Seq<char>> {
    match replied_object(reply) {
        Ok(m) => Ok(json::collected(json::with_rendering(m))),
        Err(e) => Err(e),
    }
}

/// What the reply to a prompt for fields comes to.
pub open spec fn fields_or_error(reply: Result<String, String>) -> Result<
    Map<Seq<char>, Seq<char>>,
    Seq<char>,
> {
    match reply {
        Ok(t) => replied_fields(t@),
        Err(e) => Err(e@),
    }
}

/// The fields that the model found in a resume, given what [`complete`]
/// returned.
pub fn extract_fields(reply: Result<String, String>) -> (r: Result<FieldMap, String>)
    ensures
        fields_result(r) == fields_or_error(reply),
{
    match reply {
        Ok(t) => match parse_json_object(t.as_str()) {
            Ok(members) => Ok(json::collect_fields(&members)),
            Err(e) => Err(e),
        },
        Err(e) => Err(e),
    }
}

/// The fields that values read from a form were mapped to, given what
/// [`complete`] returned. Where nothing was observed nothing was asked, and
/// there are none.
pub fn map_form_values(observed: &FieldMap, reply: Result<String, String>) -> (r: Result<
    FieldMap,
    String,
>)
    ensures
        fields_result(r) == if observed@ == Map::<Seq<char>, Seq<char>>::empty() {
            Ok(Map::empty())
        } else {
            fields_or_error(reply)
        },
{
    if observed.is_empty() {
        return Ok(FieldMap::new());
    }
    extract_fields(reply)
}

/// The actions among the elements of an array. What is not an action, or has no
/// selector, is left out.
pub open spec fn planned(items: Seq<json::JsonTree>) -> Seq<ActionModel>
    decreases items.len(),
{
    if items.len() == 0 {
        Seq::empty()
    } else {
        let before = planned(items.drop_last());
        match read_action(items.last()) {
            Some(a) => if text::is_blank(a.selector) {
                before
            } else {
                before.push(a)
            },
            None => before,
        }
    }
}

/// The actions among the elements of an array.
pub fn actions_of(items: &Vec<Json>) -> (r: Vec<Action>)
    ensures
        action_models(r@) == planned(json::views(items@)),
{
    let ghost all = json::views(items@);
    let mut out: Vec<Action> = Vec::new();
    assert(action_models(out@) =~= Seq::<ActionModel>::empty());
    let mut i: usize = 0;
    while i < items.len()
        invariant
            all == json::views(items@),
            0 <= i <= items@.len(),
            action_models(out@) == planned(all.take(i as int)),
        decreases items@.len() - i,
    {
        proof {
            assert(all.take(i + 1).drop_last() =~= all.take(i as int));
            assert(all.take(i + 1).last() == items@[i as int]@);
        }
        if let Some(a) = Action::from_json(&items[i]) {
            if !text::blank(a.selector.as_str()) {
                let ghost before = out@;
                out.push(a);
                assert(action_models(out@) =~= action_models(before).push(a@));
            }
        }
        i += 1;
    }
    assert(all.take(i as int) =~= all);
    out
}

/// The actions that a reply of the model plans.
pub open spec fn replied_actions(reply: Seq<char>) -> Result<Seq<ActionModel>, Seq<char>> {
    match replied_array(reply) {
        Ok(a) => Ok(planned(a)),
        Err(e) => Err(e),
    }
}

/// The ordered list of actions that a reply of the model plans, given what
/// [`complete`] returned.
pub fn plan_form_fill(reply: Result<String, String>) -> (r: Result<Vec<Action>, String>)
    ensures
        actions_result(r) == match reply {
            Ok(t) => replied_actions(t@),
            Err(e) => Err(e@),
        },
{
    match reply {
        Ok(t) => match parse_json_array(t.as_str()) {
            Ok(items) => Ok(actions_of(&items)),
            Err(e) => Err(e),
        },
        Err(e) => Err(e),
    }
}

// ---------------------------------------------------------------------------
// Wire format (Codex Responses API) — the one place to adjust if it changes.
// ---------------------------------------------------------------------------
/// A member of an object.
pub open spec fn entry(name: &str, value: json::JsonTree) -> (Seq<char>, json::JsonTree) {
    (name@, value)
}

/// The body of a request.
pub open spec fn body_tree(model: Seq<char>, prompt: PromptModel) -> json::JsonTree {
    json::JsonTree::Object(
        seq![
            entry(
                "input",
                json::JsonTree::Array(
                    seq![
                        json::JsonTree::Object(
                            seq![
                                entry(
                                    "content",
                                    json::JsonTree::Array(
                                        seq![
                                            json::JsonTree::Object(
                                                seq![
                                                    entry(
                                                        "text",
                                                        json::JsonTree::Text(prompt.user),
                                                    ),
                                                    entry(
                                                        "type",
                                                        json::JsonTree::Text("input_text"@),
                                                    ),
                                                ],
                                            ),
                                        ],
                                    ),
                                ),
                                entry("role", json::JsonTree::Text("user"@)),
                                entry("type", json::JsonTree::Text("message"@)),
                            ],
                        ),
                    ],
                ),
            ),
            entry("instructions", json::JsonTree::Text(prompt.system)),
            entry("model", json::JsonTree::Text(model)),
            entry("parallel_tool_calls", json::JsonTree::Bool(false)),
            entry("store", json::JsonTree::Bool(false)),
            entry("stream", json::JsonTree::Bool(true)),
            entry("tool_choice", json::JsonTree::Text("none"@)),
        ],
    )
}

/// A member whose value is a string.
fn text_member(name: &str, value: &str) -> (r: (String, Json))
    ensures
        r.0@ == name@,
        r.1@ == json::JsonTree::Text(value@),
{
    (text::owned(name), Json::Text(text::owned(value)))
}

/// An object of the given members.
fn object(members: Vec<(String, Json)>) -> (r: Json)
    ensures
        r@ == json::JsonTree::Object(json::member_views(members@)),
{
    proof {
        json::lemma_object_view(members);
    }
    Json::Object(members)
}

/// An array of one element.
fn singleton(item: Json) -> (r: Json)
    ensures
        r@ == json::JsonTree::Array(seq![item@]),
{
    let mut items: Vec<Json> = Vec::new();
    items.push(item);
    proof {
        json::lemma_array_view(items);
        assert(json::views(items@) =~= seq![item@]);
    }
    Json::Array(items)
}

/// Builds the Responses-API request body. `stream` is always true because the
/// Codex backend rejects `stream:false` ("Stream must be set to true").
pub fn request_body(model: &str, prompt: &Prompt) -> (r: Json)
    ensures
        r@ == body_tree(model@, prompt@),
{
    let mut part: Vec<(String, Json)> = Vec::new();
    part.push(text_member("text", prompt.user.as_str()));
    part.push(text_member("type", "input_text"));
    assert(json::member_views(part@) =~= seq![
        entry("text", json::JsonTree::Text(prompt.user@)),
        entry("type", json::JsonTree::Text("input_text"@)),
    ]);
    let content = singleton(object(part));
    let ghost content_tree = content@;
    let mut message: Vec<(String, Json)> = Vec::new();
    message.push((text::owned("content"), content));
    message.push(text_member("role", "user"));
    message.push(text_member("type", "message"));
    assert(json::member_views(message@) =~= seq![
        entry("content", content_tree),
        entry("role", json::JsonTree::Text("user"@)),
        entry("type", json::JsonTree::Text("message"@)),
    ]);
    let input = singleton(object(message));
    let ghost input_tree = input@;
    let mut body: Vec<(String, Json)> = Vec::new();
    body.push((text::owned("input"), input));
    body.push(text_member("instructions", prompt.system.as_str()));
    body.push(text_member("model", model));
    body.push((text::owned("parallel_tool_calls"), Json::Bool(false)));
    body.push((text::owned("store"), Json::Bool(false)));
    body.push((text::owned("stream"), Json::Bool(true)));
    body.push(text_member("tool_choice", "none"));
    assert(json::member_views(body@) =~= seq![
        entry("input", input_tree),
        entry("instructions", json::JsonTree::Text(prompt.system@)),
        entry("model", json::JsonTree::Text(model@)),
        entry("parallel_tool_calls", json::JsonTree::Bool(false)),
        entry("store", json::JsonTree::Bool(false)),
        entry("stream", json::JsonTree::Bool(true)),
        entry("tool_choice", json::JsonTree::Text("none"@)),
    ]);
    object(body)
}

/// A request to the backend.
#[derive(Debug)]
pub struct WireRequest {
    /// Where to POST it.
    pub url: String,
    /// The user agent of the client.
    pub user_agent: String,
    /// How many seconds the whole exchange may take.
    pub timeout_secs: u64,
    /// The bearer token.
    pub bearer: String,
    /// The other headers.
    pub headers: Vec<(String, String)>,
    /// The body, sent as JSON.
    pub body: Json,
}

/// The headers of a request, beside the bearer.
pub open spec fn wire_headers(account_id: Seq<char>) -> Seq<field_map::Pair> {
    let always = seq![
        ("OpenAI-Beta"@, "responses=experimental"@),
        ("originator"@, "codex_cli_rs"@),
        ("Accept"@, "text/event-stream"@),
        ("Content-Type"@, "application/json"@),
    ];
    if account_id.len() == 0 {
        always
    } else {
        always.push(("ChatGPT-Account-Id"@, account_id))
    }
}

/// The request that POSTs a prompt to the Codex `/responses` endpoint.
pub fn stream_request(tokens: &Tokens, model: &str, prompt: &Prompt) -> (r: WireRequest)
    ensures
        r.url@ == config::CODEX_BASE_URL@ + "/responses"@,
        r.user_agent@ == config::OAUTH_USER_AGENT@,
        r.timeout_secs == 180,
        r.bearer@ == tokens@.access_token,
        field_map::pair_texts(r.headers@) == wire_headers(tokens@.account_id),
        r.body@ == body_tree(model@, prompt@),
{
    let mut headers: Vec<(String, String)> = Vec::new();
    headers.push((text::owned("OpenAI-Beta"), text::owned("responses=experimental")));
    headers.push((text::owned("originator"), text::owned("codex_cli_rs")));
    headers.push((text::owned("Accept"), text::owned("text/event-stream")));
    headers.push((text::owned("Content-Type"), text::owned("application/json")));
    if !tokens.account_id.as_str().is_empty() {
        headers.push((text::owned("ChatGPT-Account-Id"), tokens.account_id.clone()));
    }
    assert(field_map::pair_texts(headers@) =~= wire_headers(tokens@.account_id));
    WireRequest {
        url: text::chained(config::CODEX_BASE_URL, "/responses"),
        user_agent: text::owned(config::OAUTH_USER_AGENT),
        timeout_secs: 180,
        bearer: tokens.access_token.clone(),
        headers,
        body: request_body(model, prompt),
    }
}

// ---------------------------------------------------------------------------
// The text of a payload
// ---------------------------------------------------------------------------
/// The text at that member, or none at all.
pub open spec fn text_or_none(v: json::JsonTree, name: Seq<char>) -> Seq<char> {
    match v.text_at(name) {
        Some(t) => t,
        None => Seq::empty(),
    }
}

/// The text of one part of a message.
pub open spec fn content_text(part: json::JsonTree) -> Seq<char> {
    let ty = text_or_none(part, "type"@);
    if ty == "output_text"@ || ty == "text"@ {
        text_or_none(part, "text"@)
    } else {
        Seq::empty()
    }
}

/// The text of the parts of a message.
pub open spec fn contents_text(parts: Seq<json::JsonTree>) -> Seq<char>
    decreases parts.len(),
{
    if parts.len() == 0 {
        Seq::empty()
    } else {
        contents_text(parts.drop_last()) + content_text(parts.last())
    }
}

/// The text of one output item; only a message has any.
pub open spec fn item_text(item: json::JsonTree) -> Seq<char> {
    if item.text_at("type"@) == Some("message"@) {
        match item.get("content"@) {
            Some(json::JsonTree::Array(parts)) => contents_text(parts),
            _ => Seq::empty(),
        }
    } else {
        Seq::empty()
    }
}

/// The text of the output items.
pub open spec fn items_text(items: Seq<json::JsonTree>) -> Seq<char>
    decreases items.len(),
{
    if items.len() == 0 {
        Seq::empty()
    } else {
        items_text(items.drop_last()) + item_text(items.last())
    }
}

/// What stands first in an array, or under `0` in an object.
pub open spec fn first_of(v: json::JsonTree) -> Option<json::JsonTree> {
    match v {
        json::JsonTree::Array(a) => if a.len() > 0 {
            Some(a[0])
        } else {
            None
        },
        _ => v.get("0"@),
    }
}

/// The text of a chat-completions payload: `/choices/0/message/content`.
pub open spec fn choice_text(v: json::JsonTree) -> Seq<char> {
    match v.get("choices"@) {
        Some(choices) => match first_of(choices) {
            Some(choice) => match choice.get("message"@) {
                Some(message) => text_or_none(message, "content"@),
                None => Seq::empty(),
            },
            None => Seq::empty(),
        },
        None => Seq::empty(),
    }
}

/// The assistant text of a payload: the convenience field if it has any; else
/// the text of the output messages; else that of the first choice.
pub open spec fn output_text(v: json::JsonTree) -> Seq<char> {
    let short = text_or_none(v, "output_text"@);
    let long = match v.get("output"@) {
        Some(json::JsonTree::Array(items)) => items_text(items),
        _ => Seq::empty(),
    };
    if short.len() > 0 {
        short
    } else if long.len() > 0 {
        long
    } else {
        choice_text(v)
    }
}

/// The text at that member, or none at all.
fn text_or_empty(v: &Json, name: &str) -> (r: String)
    ensures
        r@ == text_or_none(v@, name@),
{
    match v.text_at(name) {
        Some(t) => text::owned(t),
        None => String::new(),
    }
}

fn push_content(out: &mut String, parts: &Vec<Json>)
    ensures
        final(out)@ == old(out)@ + contents_text(json::views(parts@)),
{
    let ghost all = json::views(parts@);
    let ghost start = out@;
    let mut i: usize = 0;
    assert(start + contents_text(all.take(0)) =~= start);
    while i < parts.len()
        invariant
            all == json::views(parts@),
            0 <= i <= parts@.len(),
            out@ == start + contents_text(all.take(i as int)),
        decreases parts@.len() - i,
    {
        let part = &parts[i];
        proof {
            assert(all.take(i + 1).drop_last() =~= all.take(i as int));
            assert(all.take(i + 1).last() == part@);
        }
        let ty = text_or_empty(part, "type");
        if text::same(ty.as_str(), "output_text") || text::same(ty.as_str(), "text") {
            out.append(text_or_empty(part, "text").as_str());
        }
        assert(out@ =~= start + contents_text(all.take(i + 1)));
        i += 1;
    }
    assert(all.take(i as int) =~= all);
}

fn push_items(out: &mut String, items: &Vec<Json>)
    ensures
        final(out)@ == old(out)@ + items_text(json::views(items@)),
{
    let ghost all = json::views(items@);
    let ghost start = out@;
    let mut i: usize = 0;
    assert(start + items_text(all.take(0)) =~= start);
    while i < items.len()
        invariant
            all == json::views(items@),
            0 <= i <= items@.len(),
            out@ == start + items_text(all.take(i as int)),
        decreases items@.len() - i,
    {
        let item = &items[i];
        proof {
            assert(all.take(i + 1).drop_last() =~= all.take(i as int));
            assert(all.take(i + 1).last() == item@);
        }
        if let Some(ty) = item.text_at("type") {
            if text::same(ty, "message") {
                if let Some(content) = item.get("content") {
                    if let Some(parts) = content.as_array() {
                        push_content(out, parts);
                    }
                }
            }
        }
        assert(out@ =~= start + items_text(all.take(i + 1)));
        i += 1;
    }
    assert(all.take(i as int) =~= all);
}

/// What stands first in an array, or under `0` in an object.
fn first_item(v: &Json) -> (r: Option<&Json>)
    ensures
        match r {
            Some(f) => first_of(v@) == Some(f@),
            None => first_of(v@) is None,
        },
{
    match v.as_array() {
        Some(a) => {
            assert(json::views(a@).len() == a@.len());
            if a.len() > 0 {
                assert(json::views(a@)[0] == a@[0]@);
                Some(&a[0])
            } else {
                None
            }
        },
        None => v.get("0"),
    }
}

/// Pulls the assistant text out of a Responses-API payload. Handles the common
/// `output: [{type:"message", content:[{type:"output_text", text}]}]` shape and
/// a couple of fallbacks.
pub fn extract_output_text(value: &Json) -> (r: String)
    ensures
        r@ == output_text(value@),
{
    // Convenience field some responses include.
    let short = text_or_empty(value, "output_text");
    if !short.as_str().is_empty() {
        return short;
    }
    let mut collected = String::new();
    if let Some(output) = value.get("output") {
        if let Some(items) = output.as_array() {
            push_items(&mut collected, items);
            assert(collected@ =~= items_text(json::views(items@)));
        }
    }
    if !collected.as_str().is_empty() {
        return collected;
    }
    // Last-ditch: some deployments return chat-completions shape.
    if let Some(choices) = value.get("choices") {
        if let Some(choice) = first_item(choices) {
            if let Some(message) = choice.get("message") {
                return text_or_empty(message, "content");
            }
        }
    }
    String::new()
}

// ---------------------------------------------------------------------------
// The event stream
// ---------------------------------------------------------------------------
/// What was read of an event stream.
#[derive(Debug)]
pub struct SseReader {
    /// The text of the fragments so far.
    pub deltas: String,
    /// The text that a closing event carried.
    pub completed: String,
}

/// What an [`SseReader`] stands for.
#[verifier::ext_equal]
pub struct SseModel {
    /// The text of the fragments so far.
    pub deltas: Seq<char>,
    /// The text that a closing event carried.
    pub completed: Seq<char>,
}

impl View for SseReader {
    type V = SseModel;

    open spec fn view(&self) -> SseModel {
        SseModel { deltas: self.deltas@, completed: self.completed@ }
    }
}

/// The event of a line, if it carries one that can be read.
pub open spec fn event_of(line: Seq<char>) -> Option<json::JsonTree> {
    match words::after_prefix(text::trimmed(line), "data:"@) {
        Some(data) => {
            let data = text::trimmed(data);
            if data.len() == 0 || data == "[DONE]"@ {
                None
            } else {
                json::parsed_json(data)
            }
        },
        None => None,
    }
}

/// Whether an event carries a fragment of the text.
pub open spec fn is_delta(v: json::JsonTree) -> bool {
    let ty = text_or_none(v, "type"@);
    words::occurs(ty, "output_text"@) && words::ends(ty, "delta"@)
}

/// The fragment that an event carries.
pub open spec fn fragment_of(v: json::JsonTree) -> Option<Seq<char>> {
    if is_delta(v) {
        v.text_at("delta"@)
    } else {
        None
    }
}

/// Whether an event closes the response.
pub open spec fn is_closing(v: json::JsonTree) -> bool {
    let ty = text_or_none(v, "type"@);
    !is_delta(v) && (ty == "response.completed"@ || ty == "response.incomplete"@)
}

/// The fragment that a line carries.
pub open spec fn line_fragment(line: Seq<char>) -> Option<Seq<char>> {
    match event_of(line) {
        Some(v) => fragment_of(v),
        None => None,
    }
}

impl SseModel {
    /// Nothing was read yet.
    pub open spec fn empty() -> SseModel {
        SseModel { deltas: Seq::empty(), completed: Seq::empty() }
    }

    /// After another event.
    pub open spec fn after_event(self, v: json::JsonTree) -> SseModel {
        match fragment_of(v) {
            Some(d) => SseModel { deltas: self.deltas + d, ..self },
            None => match v.get("response"@) {
                Some(response) => if is_closing(v) && output_text(response).len() > 0 {
                    SseModel { completed: output_text(response), ..self }
                } else {
                    self
                },
                None => self,
            },
        }
    }

    /// After another line.
    pub open spec fn after_line(self, line: Seq<char>) -> SseModel {
        match event_of(line) {
            Some(v) => self.after_event(v),
            None => self,
        }
    }

    /// The whole text: that of the fragments, or, where none came, that of the
    /// closing event.
    pub open spec fn text(self) -> Seq<char> {
        if self.deltas.len() == 0 {
            self.completed
        } else {
            self.deltas
        }
    }
}

/// What is read of a stream of these lines.
pub open spec fn read_lines(lines: Seq<Seq<char>>) -> SseModel
    decreases lines.len(),
{
    if lines.len() == 0 {
        SseModel::empty()
    } else {
        read_lines(lines.drop_last()).after_line(lines.last())
    }
}

/// The fragments that lines carry.
pub open spec fn fragments(lines: Seq<Seq<char>>) -> Seq<Seq<char>>
    decreases lines.len(),
{
    if lines.len() == 0 {
        Seq::empty()
    } else {
        let before = fragments(lines.drop_last());
        match line_fragment(lines.last()) {
            Some(d) => before.push(d),
            None => before,
        }
    }
}

impl SseReader {
    /// Nothing was read yet.
    pub fn new() -> (r: SseReader)
        ensures
            r@ == SseModel::empty(),
    {
        SseReader { deltas: String::new(), completed: String::new() }
    }

    /// Takes in an event, and hands back the fragment that it carries.
    pub fn apply_event(&mut self, v: &Json) -> (r: Option<String>)
        ensures
            final(self)@ == old(self)@.after_event(v@),
            text::opt_text(r) == fragment_of(v@),
    {
        let ty = text_or_empty(v, "type");
        if words::contains(ty.as_str(), "output_text") && words::ends_with(ty.as_str(), "delta") {
            if let Some(d) = v.text_at("delta") {
                self.deltas.append(d);
                return Some(text::owned(d));
            }
        } else if text::same(ty.as_str(), "response.completed") || text::same(
            ty.as_str(),
            "response.incomplete",
        ) {
            if let Some(response) = v.get("response") {
                let t = extract_output_text(response);
                if !t.as_str().is_empty() {
                    self.completed = t;
                }
            }
        }
        None
    }

    /// Takes in a line of the stream, and hands back the fragment that it
    /// carries. Lines that carry no event are passed over.
    pub fn feed_line(&mut self, line: &str) -> (r: Option<String>)
        ensures
            final(self)@ == old(self)@.after_line(line@),
            text::opt_text(r) == line_fragment(line@),
    {
        let line = text::trim(line);
        let data = match words::strip_prefix(line.as_str(), "data:") {
            Some(d) => text::trim(d.as_str()),
            None => return None,
        };
        if data.as_str().is_empty() || text::same(data.as_str(), "[DONE]") {
            return None;
        }
        match json::parse_json(data.as_str()) {
            Some(v) => self.apply_event(&v),
            None => None,
        }
    }

    /// The whole text.
    pub fn finish(self) -> (r: String)
        ensures
            r@ == self@.text(),
    {
        if self.deltas.as_str().is_empty() {
            self.completed
        } else {
            self.deltas
        }
    }
}

// ---------------------------------------------------------------------------
// Completions
// ---------------------------------------------------------------------------
/// What to try where the model may have been rejected without an error.
pub open spec fn model_hint(model: Seq<char>) -> Seq<char> {
    if words::occurs(model, "gpt-5.5"@) {
        " — the ChatGPT Codex backend may be silently rejecting '"@ + model
            + "' on this account. Try KLAWPLY_MODEL=gpt-5.4 or gpt-5.3-codex."@
    } else {
        Seq::empty()
    }
}

/// What a text that was read to its end comes to: an error if it is blank.
pub open spec fn completion(model: Seq<char>, out: Seq<char>) -> Result<Seq<char>, Seq<char>> {
    if text::is_blank(out) {
        Err("empty completion from backend"@ + model_hint(model))
    } else {
        Ok(out)
    }
}

/// What a text that was read to its end comes to. The Codex backend has been
/// known to silently reject the gpt-5.5 family on some accounts (no events, no
/// error); the error then points at the fallbacks.
pub fn check_completion(model: &str, out: String) -> (r: Result<String, String>)
    ensures
        text::result_text(r) == completion(model@, out@),
{
    if text::blank(out.as_str()) {
        let mut e = text::owned("empty completion from backend");
        let ghost start = e@;
        if words::contains(model, "gpt-5.5") {
            let mut hint = text::owned(
                " — the ChatGPT Codex backend may be silently rejecting '",
            );
            hint.append(model);
            hint.append("' on this account. Try KLAWPLY_MODEL=gpt-5.4 or gpt-5.3-codex.");
            e.append(hint.as_str());
        }
        assert(e@ =~= start + model_hint(model@));
        return Err(e);
    }
    Ok(out)
}

/// What an HTTP error of the backend comes to.
pub open spec fn refusal(status: Seq<char>, body: Seq<char>) -> Seq<char> {
    "ChatGPT backend returned "@ + status + ": "@ + utf8::truncated(body, 500)
}

/// What an HTTP error of the backend comes to.
pub fn refused(status: &str, body: &str) -> (r: String)
    ensures
        r@ == refusal(status@, body@),
{
    let mut e = text::owned("ChatGPT backend returned ");
    e.append(status);
    e.append(": ");
    e.append(utf8::truncate(body, 500).as_str());
    e
}

/// What came back of a request.
#[derive(Debug)]
pub enum Reply {
    /// It could not be sent.
    Unsent(String),
    /// It was answered with an HTTP error.
    Refused {
        /// The status.
        status: String,
        /// The text of the answer.
        body: String,
    },
    /// It was answered with a stream.
    Stream {
        /// The lines that could be read.
        lines: Vec<String>,
        /// Why reading ended before the stream did, if it did.
        broken: Option<String>,
    },
}

/// What a reply comes to.
pub open spec fn completed(model: Seq<char>, reply: Reply) -> Result<Seq<char>, Seq<char>> {
    match reply {
        Reply::Unsent(e) => Err(e@),
        Reply::Refused { status, body } => Err(refusal(status@, body@)),
        Reply::Stream { lines, broken } => match broken {
            Some(e) => Err(e@),
            None => completion(model, read_lines(text::texts(lines@)).text()),
        },
    }
}

/// The fragments that a reply carries.
pub open spec fn reply_fragments(reply: Reply) -> Seq<Seq<char>> {
    match reply {
        Reply::Stream { lines, .. } => fragments(text::texts(lines@)),
        _ => Seq::empty(),
    }
}

/// The full assistant text of the reply to one system+user turn.
pub fn complete(model: &str, reply: Reply) -> (r: Result<String, String>)
    ensures
        text::result_text(r) == completed(model@, reply),
{
    complete_streaming(model, reply).result
}

/// A reply, fragment by fragment and as a whole.
#[derive(Debug)]
pub struct Streamed {
    /// The text fragments in the order in which they came.
    pub deltas: Vec<String>,
    /// What the reply comes to.
    pub result: Result<String, String>,
}

/// Like [`complete`], but also hands back each text fragment as it streamed in,
/// so that a reply can be rendered token by token.
pub fn complete_streaming(model: &str, reply: Reply) -> (r: Streamed)
    ensures
        text::texts(r.deltas@) == reply_fragments(reply),
        text::result_text(r.result) == completed(model@, reply),
{
    broadcast use text::lemma_texts_push;

    let mut deltas: Vec<String> = Vec::new();
    assert(text::texts(deltas@) =~= Seq::<Seq<char>>::empty());
    match reply {
        Reply::Unsent(e) => Streamed { deltas, result: Err(e) },
        Reply::Refused { status, body } => Streamed {
            deltas,
            result: Err(refused(status.as_str(), body.as_str())),
        },
        Reply::Stream { lines, broken } => {
            let ghost all = text::texts(lines@);
            let mut reader = SseReader::new();
            let mut i: usize = 0;
            while i < lines.len()
                invariant
                    all == text::texts(lines@),
                    0 <= i <= lines@.len(),
                    reader@ == read_lines(all.take(i as int)),
                    text::texts(deltas@) == fragments(all.take(i as int)),
                decreases lines@.len() - i,
            {
                proof {
                    assert(all.take(i + 1).drop_last() =~= all.take(i as int));
                    assert(all.take(i + 1).last() == lines@[i as int]@);
                }
                if let Some(d) = reader.feed_line(lines[i].as_str()) {
                    deltas.push(d);
                }
                i += 1;
            }
            assert(all.take(i as int) =~= all);
            let result = match broken {
                Some(e) => Err(e),
                None => check_completion(model, reader.finish()),
            };
            Streamed { deltas, result }
        },
    }
}

/// A conversational reply for the chat window, fragment by fragment and as a
/// whole.
pub fn chat_streaming(model: &str, reply: Reply) -> (r: Streamed)
    ensures
        text::texts(r.deltas@) == reply_fragments(reply),
        text::result_text(r.result) == completed(model@, reply),
{
    complete_streaming(model, reply)
}

// ---------------------------------------------------------------------------
// JSON parsing helpers (tolerant of stray prose / code fences)
// ---------------------------------------------------------------------------
/// What stands between the first `open` and the last `close`, both included.
pub open spec fn slice_of(s: Seq<char>, open: char, close: char) -> Option<Seq<char>> {
    let start = words::first_index(s, open);
    let end = words::last_index(s, close);
    if end > start {
        Some(s.subrange(start, end + 1))
    } else {
        None
    }
}

/// The members of the object that a reply holds.
pub open spec fn replied_object(reply: Seq<char>) -> Result<
    Seq<(Seq<char>, json::JsonTree)>,
    Seq<char>,
> {
    match slice_of(reply, '{', '}') {
        Some(s) => match json::parsed_json(s) {
            Some(json::JsonTree::Object(m)) => Ok(m),
            _ => Err("model output was not a valid JSON object"@),
        },
        None => Err("model did not return a JSON object"@),
    }
}

/// The elements of the array that a reply holds.
pub open spec fn replied_array(reply: Seq<char>) -> Result<Seq<json::JsonTree>, Seq<char>> {
    match slice_of(reply, '[', ']') {
        Some(s) => match json::parsed_json(s) {
            Some(json::JsonTree::Array(a)) => Ok(a),
            _ => Err("model output was not a valid JSON array"@),
        },
        None => Err("model did not return a JSON array"@),
    }
}

/// Extracts the substring from the first `open` to the last matching `close`.
pub fn json_slice(s: &str, open: char, close: char) -> (r: Option<String>)
    ensures
        text::opt_text(r) == slice_of(s@, open, close),
{
    let v = text::chars_of(s);
    let start = words::find_char(&v, open);
    match words::rfind_char(&v, close) {
        Some(end) => if end > start {
            Some(text::string_between(&v, start, end + 1))
        } else {
            None
        },
        None => None,
    }
}

/// The members of the object that a reply holds.
pub fn parse_json_object(reply: &str) -> (r: Result<Vec<json::Member>, String>)
    ensures
        match r {
            Ok(m) => replied_object(reply@) is Ok && json::models(m@) == json::with_rendering(
                replied_object(reply@)->Ok_0,
            ),
            Err(e) => replied_object(reply@) == Err::<Seq<(Seq<char>, json::JsonTree)>, Seq<char>>(
                e@,
            ),
        },
{
    let slice = match json_slice(reply, '{', '}') {
        Some(s) => s,
        None => return Err(text::owned("model did not return a JSON object")),
    };
    match json::parse_value(slice.as_str()) {
        Some(v) => match json::open_value(v) {
            json::Node::Object(items) => Ok(json::open_members(items)),
            _ => Err(text::owned("model output was not a valid JSON object")),
        },
        None => Err(text::owned("model output was not a valid JSON object")),
    }
}

/// The elements of the array that a reply holds.
pub fn parse_json_array(reply: &str) -> (r: Result<Vec<Json>, String>)
    ensures
        match r {
            Ok(a) => replied_array(reply@) == Ok::<Seq<json::JsonTree>, Seq<char>>(
                json::views(a@),
            ),
            Err(e) => replied_array(reply@) == Err::<Seq<json::JsonTree>, Seq<char>>(e@),
        },
{
    let slice = match json_slice(reply, '[', ']') {
        Some(s) => s,
        None => return Err(text::owned("model did not return a JSON array")),
    };
    match json::parse_json(slice.as_str()) {
        Some(Json::Array(a)) => {
            proof {
                json::lemma_array_view(a);
            }
            Ok(a)
        },
        _ => Err(text::owned("model output was not a valid JSON array")),
    }
}

// ---------------------------------------------------------------------------
// Laws
// ---------------------------------------------------------------------------
/// What texts make up, one behind the other.
pub open spec fn concatenated(s: Seq<Seq<char>>) -> Seq<char>
    decreases s.len(),
{
    if s.len() == 0 {
        Seq::empty()
    } else {
        concatenated(s.drop_last()) + s.last()
    }
}

/// The fragments that were handed on make up the text of the fragments.
pub proof fn fragments_make_up_the_deltas(lines: Seq<Seq<char>>)
    ensures
        read_lines(lines).deltas == concatenated(fragments(lines)),
    decreases lines.len(),
{
    if lines.len() > 0 {
        fragments_make_up_the_deltas(lines.drop_last());
        if let Some(d) = line_fragment(lines.last()) {
            assert(fragments(lines).drop_last() =~= fragments(lines.drop_last()));
        }
    }
}

/// What was shown of a streamed reply is what the reply comes to, wherever
/// anything was shown.
pub proof fn shown_text_is_the_reply(model: Seq<char>, reply: Reply)
    requires
        completed(model, reply) is Ok,
        concatenated(reply_fragments(reply)).len() > 0,
    ensures
        completed(model, reply) == Ok::<Seq<char>, Seq<char>>(
            concatenated(reply_fragments(reply)),
        ),
{
    if let Reply::Stream { lines, broken } = reply {
        fragments_make_up_the_deltas(text::texts(lines@));
    }
}

/// A completion is never blank.
pub proof fn completions_are_not_blank(model: Seq<char>, reply: Reply)
    ensures
        completed(model, reply) matches Ok(t) ==> !text::is_blank(t),
{
}

/// Every planned action has a selector.
pub proof fn planned_actions_have_a_selector(items: Seq<json::JsonTree>)
    ensures
        forall|k: int|
            0 <= k < planned(items).len() ==> !text::is_blank(
                (#[trigger] planned(items)[k]).selector,
            ),
        planned(items).len() <= items.len(),
    decreases items.len(),
{
    if items.len() > 0 {
        planned_actions_have_a_selector(items.drop_last());
    }
}

/// Prose before the first and after the last bracket is passed over.
pub proof fn stray_prose_is_ignored(
    before: Seq<char>,
    s: Seq<char>,
    after: Seq<char>,
    open: char,
    close: char,
)
    requires
        s.len() > 1,
        s[0] == open,
        s.last() == close,
        !before.contains(open),
        !after.contains(close),
    ensures
        slice_of(before + s + after, open, close) == Some(s),
{
    let all = before + s + after;
    let end = before.len() + s.len() - 1;
    assert forall|k: int| 0 <= k < before.len() implies #[trigger] all[k] != open by {
        assert(before[k] == all[k]);
    }
    words::lemma_first_index_is(all, open, before.len() as int);
    assert forall|k: int| end < k < all.len() implies #[trigger] all[k] != close by {
        assert(after[k - end - 1] == all[k]);
    }
    words::lemma_last_index_is(all, close, end);
    assert(all.subrange(before.len() as int, end + 1) =~= s);
}

// ---------------------------------------------------------------------------
// Laws of the stream
// ---------------------------------------------------------------------------
/// Whether an event carries the fragment `d`.
pub open spec fn carries(v: json::JsonTree, d: Seq<char>) -> bool {
    &&& v.get("type"@) matches Some(json::JsonTree::Text(ty)) && words::occurs(
        ty,
        "output_text"@,
    ) && words::ends(ty, "delta"@)
    &&& v.get("delta"@) == Some(json::JsonTree::Text(d))
}

/// A fragment is taken as it comes, character for character: it is handed on, and
/// put behind what came before.
pub proof fn fragments_are_taken_whole(m: SseModel, v: json::JsonTree, d: Seq<char>)
    requires
        carries(v, d),
    ensures
        fragment_of(v) == Some(d),
        m.after_event(v).deltas == m.deltas + d,
        m.after_event(v).completed == m.completed,
{
}

/// Two fragments in a row are read as one text.
pub proof fn fragments_follow_each_other(
    v: json::JsonTree,
    w: json::JsonTree,
    first: Seq<char>,
    second: Seq<char>,
)
    requires
        carries(v, first),
        carries(w, second),
        first.len() + second.len() > 0,
    ensures
        SseModel::empty().after_event(v).after_event(w).text() == first + second,
{
    assert(Seq::<char>::empty() + first + second =~= first + second);
}

/// A line of the stream carries the event of the JSON text behind `data:`,
/// whatever white space stands around it.
pub proof fn data_lines_carry_events(data: Seq<char>, after: Seq<char>)
    requires
        data.len() > 0,
        !text::is_white(data[0]),
        !text::is_white(data.last()),
        text::is_blank(after),
        data != "[DONE]"@,
    ensures
        event_of("data: "@ + data + after) == json::parsed_json(data),
{
    reveal_strlit("data:");
    reveal_strlit("data: ");
    let none = Seq::<char>::empty();
    let said = "data: "@ + data;
    assert(said[0] == 'd');
    assert(said.last() == data.last());
    text::trimming_takes_the_white_ends(none, said, after);
    assert(none + said + after =~= "data: "@ + data + after);
    assert(said.subrange(0, 5) =~= "data:"@);
    assert(seq![' '] + data =~= said.skip(5));
    assert(text::is_blank(seq![' ']));
    text::trimming_takes_the_white_ends(seq![' '], data, none);
    assert(seq![' '] + data + none =~= seq![' '] + data);
}

/// The end mark of the stream, and lines without `data:`, carry nothing.
pub proof fn other_lines_carry_nothing(m: SseModel, line: Seq<char>)
    requires
        !words::begins(text::trimmed(line), "data:"@) || text::trimmed(
            text::trimmed(line).skip(5),
        ) == "[DONE]"@,
    ensures
        m.after_line(line) == m,
        line_fragment(line) is None,
{
    reveal_strlit("data:");
}

/// A stream whose lines each carry a fragment says these fragments, one behind
/// the other, and hands them on in their order.
pub proof fn a_stream_says_its_fragments(
    lines: Seq<Seq<char>>,
    events: Seq<json::JsonTree>,
    said: Seq<Seq<char>>,
)
    requires
        lines.len() == events.len() == said.len(),
        forall|i: int|
            0 <= i < lines.len() ==> event_of(#[trigger] lines[i]) == Some(events[i]),
        forall|i: int| 0 <= i < lines.len() ==> carries(#[trigger] events[i], said[i]),
    ensures
        fragments(lines) == said,
        read_lines(lines).deltas == concatenated(said),
        read_lines(lines).completed.len() == 0,
    decreases lines.len(),
{
    if lines.len() > 0 {
        let n = lines.len() - 1;
        let l = lines.drop_last();
        let e = events.drop_last();
        let s = said.drop_last();
        assert forall|i: int| 0 <= i < l.len() implies event_of(#[trigger] l[i]) == Some(e[i]) by {
            assert(l[i] == lines[i] && e[i] == events[i]);
        }
        assert forall|i: int| 0 <= i < l.len() implies carries(#[trigger] e[i], s[i]) by {
            assert(e[i] == events[i] && s[i] == said[i]);
        }
        a_stream_says_its_fragments(l, e, s);
        assert(event_of(lines[n]) == Some(events[n]));
        assert(carries(events[n], said[n]));
        assert(fragments(lines) =~= said);
    } else {
        assert(fragments(lines) =~= said);
    }
}

/// The text of a closing event counts where no fragment came, and only there.
pub proof fn the_closing_text_stands_in(
    m: SseModel,
    v: json::JsonTree,
    response: json::JsonTree,
)
    requires
        v.get("type"@) == Some(json::JsonTree::Text("response.completed"@)) || v.get("type"@)
            == Some(json::JsonTree::Text("response.incomplete"@)),
        v.get("response"@) == Some(response),
        output_text(response).len() > 0,
    ensures
        m.after_event(v).text() == if m.deltas.len() == 0 {
            output_text(response)
        } else {
            m.deltas
        },
{
    reveal_strlit("response.completed");
    reveal_strlit("response.incomplete");
    reveal_strlit("delta");
    let ty = text_or_none(v, "type"@);
    assert(!words::ends(ty, "delta"@)) by {
        if words::ends(ty, "delta"@) {
            assert(ty.subrange(ty.len() - 5, ty.len() as int)[4] == 'a');
            assert(ty[ty.len() - 1] == 'a');
        }
    }
}

/// The texts of the parts of a message are read one behind the other, and other
/// parts are passed over.
pub proof fn parts_are_read_in_order(parts: Seq<json::JsonTree>, part: json::JsonTree, t: Seq<char>)
    requires
        part.get("text"@) == Some(json::JsonTree::Text(t)),
    ensures
        part.get("type"@) == Some(json::JsonTree::Text("output_text"@)) || part.get("type"@)
            == Some(json::JsonTree::Text("text"@)) ==> contents_text(parts.push(part))
            == contents_text(parts) + t,
        !(part.get("type"@) is Some) ==> contents_text(parts.push(part)) == contents_text(parts),
{
    reveal_strlit("output_text");
    reveal_strlit("text");
    assert(parts.push(part).drop_last() =~= parts);
    assert("output_text"@.len() != 0 && "text"@.len() != 0);
    assert(contents_text(parts) + Seq::<char>::empty() =~= contents_text(parts));
}

/// The text of a payload is that of its messages, one behind the other; where
/// there is a convenience field with text, it is that instead.
pub proof fn payloads_say_their_messages(
    v: json::JsonTree,
    items: Seq<json::JsonTree>,
    item: json::JsonTree,
    parts: Seq<json::JsonTree>,
    short: Seq<char>,
)
    ensures
        v.get("output_text"@) == Some(json::JsonTree::Text(short)) && short.len() > 0
            ==> output_text(v) == short,
        v.get("output_text"@) is None && v.get("output"@) == Some(json::JsonTree::Array(items))
            && items_text(items).len() > 0 ==> output_text(v) == items_text(items),
        item.get("type"@) == Some(json::JsonTree::Text("message"@)) && item.get("content"@) == Some(
            json::JsonTree::Array(parts),
        ) ==> items_text(items.push(item)) == items_text(items) + contents_text(parts),
        item.get("type"@) is None ==> items_text(items.push(item)) == items_text(items),
{
    assert(items.push(item).drop_last() =~= items);
    assert(items_text(items) + Seq::<char>::empty() =~= items_text(items));
}

/// Where a payload has neither, it is the content of the first choice's message.
pub proof fn choices_stand_in(
    v: json::JsonTree,
    choices: Seq<json::JsonTree>,
    message: json::JsonTree,
    said: Seq<char>,
)
    requires
        v.get("output_text"@) is None,
        v.get("output"@) is None,
        v.get("choices"@) == Some(json::JsonTree::Array(choices)),
        choices.len() > 0,
        choices[0].get("message"@) == Some(message),
        message.get("content"@) == Some(json::JsonTree::Text(said)),
    ensures
        output_text(v) == said,
{
}

/// A reply that was read to its end is what was said, unless that is blank; then
/// the error names the model where it may have been rejected without a word.
pub proof fn replies_are_what_was_said(model: Seq<char>, out: Seq<char>)
    ensures
        !text::is_blank(out) ==> completion(model, out) == Ok::<Seq<char>, Seq<char>>(out),
        text::is_blank(out) ==> (completion(model, out) matches Err(e) && words::begins(
            e,
            "empty completion from backend"@,
        ) && (words::occurs(model, "gpt-5.5"@) ==> words::occurs(e, model) && words::occurs(
            e,
            "gpt-5.4"@,
        ) && words::occurs(e, "gpt-5.3-codex"@)) && (!words::occurs(model, "gpt-5.5"@) ==> e
            == "empty completion from backend"@)),
{
    let start = "empty completion from backend"@;
    let lead = " — the ChatGPT Codex backend may be silently rejecting '"@;
    let advice = "' on this account. Try KLAWPLY_MODEL=gpt-5.4 or gpt-5.3-codex."@;
    let e = start + model_hint(model);
    words::texts_are_found_where_they_stand(Seq::empty(), start, model_hint(model));
    if words::occurs(model, "gpt-5.5"@) {
        words::texts_are_found_where_they_stand(start + lead, model, advice);
        assert(e =~= start + lead + model + advice);
        reveal_strlit("' on this account. Try KLAWPLY_MODEL=gpt-5.4 or gpt-5.3-codex.");
        reveal_strlit("gpt-5.4");
        reveal_strlit("gpt-5.3-codex");
        let base = (start + lead + model).len() as int;
        assert(e.subrange(base + 37, base + 44) =~= "gpt-5.4"@);
        assert(words::occurs_at(e, "gpt-5.4"@, base + 37));
        assert(e.subrange(base + 48, base + 61) =~= "gpt-5.3-codex"@);
        assert(words::occurs_at(e, "gpt-5.3-codex"@, base + 48));
    } else {
        assert(e =~= start);
    }
}

/// What came back is passed on: why a request could not be sent, why reading
/// broke off, and the status and the text of an answer that refuses.
pub proof fn failures_are_passed_on(
    model: Seq<char>,
    reply: Reply,
    status: Seq<char>,
    body: Seq<char>,
)
    ensures
        reply matches Reply::Unsent(e) ==> completed(model, reply) == Err::<Seq<char>, Seq<char>>(
            e@,
        ),
        reply matches Reply::Stream { broken: Some(e), .. } ==> completed(model, reply) == Err::<
            Seq<char>,
            Seq<char>,
        >(e@),
        reply is Refused ==> completed(model, reply) is Err,
        utf8::byte_len(body) <= 500 ==> refusal(status, body) == "ChatGPT backend returned "@
            + status + ": "@ + body,
        words::begins(refusal(status, body), "ChatGPT backend returned "@ + status + ": "@),
{
    let head = "ChatGPT backend returned "@ + status + ": "@;
    words::texts_are_found_where_they_stand(Seq::empty(), head, utf8::truncated(body, 500));
    assert(refusal(status, body) =~= head + utf8::truncated(body, 500));
}

// ---------------------------------------------------------------------------
// Laws of the prompts
// ---------------------------------------------------------------------------
/// The JSON text of a field map.
pub open spec fn json_of(m: Map<Seq<char>, Seq<char>>) -> Seq<char> {
    json::rendered_json(json::object_of(field_map::sorted_pairs(m)))
}

/// The prompt to plan a form holds the page and the applicant's data: the page as
/// it is where it fits, and the data as JSON.
pub proof fn the_page_is_in_the_prompt(
    html: Seq<char>,
    fields: Map<Seq<char>, Seq<char>>,
)
    requires
        utf8::byte_len(html) <= 120_000,
    ensures
        plan_model(html, fields).user == "Applicant data (JSON):\n"@ + json_of(fields)
            + "\n\nPage HTML:\n\"\"\"\n"@ + html + "\n\"\"\""@,
        plan_model(html, fields).system == PLAN_SYSTEM@,
{
}

/// Of a page that is too long, as much is sent as fits.
pub proof fn a_long_page_is_cut(
    html: Seq<char>,
    fields: Map<Seq<char>, Seq<char>>,
    k: int,
    missing: nat,
)
    requires
        0 <= k < html.len(),
        utf8::byte_len(html.take(k)) <= 120_000,
        utf8::byte_len(html.take(k + 1)) > 120_000,
        utf8::byte_len(html.take(k)) + missing == utf8::byte_len(html),
        utf8::byte_len(html) > 120_000,
    ensures
        plan_model(html, fields).user == "Applicant data (JSON):\n"@ + json_of(fields)
            + "\n\nPage HTML:\n\"\"\"\n"@ + (html.take(k) + "…[truncated "@ + crate::decimal::decimal(
            missing,
        ) + " bytes]"@) + "\n\"\"\""@,
{
    utf8::long_text_is_cut(html, 120_000, k, missing);
}

/// The prompt to read a resume holds the resume, as it is where it fits, and what
/// is known already.
pub proof fn the_resume_is_in_the_prompt(
    resume: Seq<char>,
    existing: Map<Seq<char>, Seq<char>>,
)
    requires
        utf8::byte_len(resume) <= 24_000,
    ensures
        extract_model(resume, existing).user == "Existing fields (JSON):\n"@ + json_of(existing)
            + "\n\nResume text:\n\"\"\"\n"@ + resume + "\n\"\"\""@,
        extract_model(resume, existing).system == EXTRACT_SYSTEM@,
{
}

/// Of a resume that is too long, as much is sent as fits.
pub proof fn a_long_resume_is_cut(
    resume: Seq<char>,
    existing: Map<Seq<char>, Seq<char>>,
    k: int,
    missing: nat,
)
    requires
        0 <= k < resume.len(),
        utf8::byte_len(resume.take(k)) <= 24_000,
        utf8::byte_len(resume.take(k + 1)) > 24_000,
        utf8::byte_len(resume.take(k)) + missing == utf8::byte_len(resume),
        utf8::byte_len(resume) > 24_000,
    ensures
        extract_model(resume, existing).user == "Existing fields (JSON):\n"@ + json_of(existing)
            + "\n\nResume text:\n\"\"\"\n"@ + (resume.take(k) + "…[truncated "@ + crate::decimal::decimal(
            missing,
        ) + " bytes]"@) + "\n\"\"\""@,
{
    utf8::long_text_is_cut(resume, 24_000, k, missing);
}

/// The prompt of a chat ends with what the user said, behind what was said before.
pub proof fn the_message_is_in_the_prompt(history: Seq<char>, message: Seq<char>)
    ensures
        chat_model(history, message).user == history + "\nUser: "@ + message,
        words::ends(chat_model(history, message).user, message),
        words::begins(chat_model(history, message).user, history),
        chat_model(history, message).system == CHAT_SYSTEM@,
{
    let rest = "\nUser: "@ + message;
    words::texts_are_found_where_they_stand(history + "\nUser: "@, message, Seq::empty());
    words::texts_are_found_where_they_stand(Seq::empty(), history, rest);
    assert(history + rest =~= history + "\nUser: "@ + message);
}

/// The prompt to name form values holds the values that were observed, as JSON,
/// and the names that are known already.
pub proof fn the_entries_are_in_the_prompt(
    observed: Map<Seq<char>, Seq<char>>,
    p: Seq<field_map::Pair>,
)
    requires
        field_map::ascending(p),
    ensures
        map_model(observed, field_map::pairs_map(p)).user == "Existing profile keys: "@
            + words::joined(Seq::new(p.len(), |i: int| p[i].0), ", "@)
            + "\n\nObserved form values (JSON):\n"@ + json_of(observed),
        map_model(observed, field_map::pairs_map(p)).system == MAP_SYSTEM@,
{
    field_map::lemma_sorted_pairs(p);
    assert(field_map::sorted_names(field_map::pairs_map(p)) =~= Seq::new(
        p.len(),
        |i: int| p[i].0,
    ));
}

// ---------------------------------------------------------------------------
// Laws of the request
// ---------------------------------------------------------------------------
proof fn lemma_body_names()
    ensures
        "input"@ != "instructions"@,
        "input"@ != "model"@,
        "input"@ != "stream"@,
        "input"@ != "store"@,
        "input"@ != "tool_choice"@,
        "input"@ != "parallel_tool_calls"@,
        "instructions"@ != "model"@,
        "instructions"@ != "stream"@,
        "instructions"@ != "store"@,
        "instructions"@ != "tool_choice"@,
        "instructions"@ != "parallel_tool_calls"@,
        "model"@ != "stream"@,
        "model"@ != "store"@,
        "model"@ != "tool_choice"@,
        "model"@ != "parallel_tool_calls"@,
        "parallel_tool_calls"@ != "stream"@,
        "parallel_tool_calls"@ != "store"@,
        "parallel_tool_calls"@ != "tool_choice"@,
        "store"@ != "stream"@,
        "store"@ != "tool_choice"@,
        "stream"@ != "tool_choice"@,
        "content"@ != "role"@,
        "content"@ != "type"@,
        "role"@ != "type"@,
        "text"@ != "type"@,
{
    reveal_strlit("input");
    reveal_strlit("instructions");
    reveal_strlit("model");
    reveal_strlit("stream");
    reveal_strlit("store");
    reveal_strlit("tool_choice");
    reveal_strlit("parallel_tool_calls");
    reveal_strlit("content");
    reveal_strlit("role");
    reveal_strlit("type");
    reveal_strlit("text");
    assert("input"@.len() == 5 && "model"@.len() == 5 && "store"@.len() == 5);
    assert("input"@[0] == 'i' && "model"@[0] == 'm' && "store"@[0] == 's');
    assert("content"@.len() == 7 && "role"@.len() == 4 && "type"@.len() == 4 && "text"@.len() == 4);
    assert("role"@[0] == 'r' && "type"@[1] == 'y' && "text"@[1] == 'e' && "type"@[0] == 't');
    assert("instructions"@.len() == 12 && "stream"@.len() == 6 && "tool_choice"@.len() == 11
        && "parallel_tool_calls"@.len() == 19);
}

/// A request asks the chosen model, with the prompt's instructions and the user's
/// text in one message of the user, for a stream; nothing is stored and no tool
/// is called.
pub proof fn requests_carry_the_prompt(model: Seq<char>, prompt: PromptModel)
    ensures
        ({
            let body = body_tree(model, prompt);
            &&& body.get("model"@) == Some(json::JsonTree::Text(model))
            &&& body.get("instructions"@) == Some(json::JsonTree::Text(prompt.system))
            &&& body.get("stream"@) == Some(json::JsonTree::Bool(true))
            &&& body.get("store"@) == Some(json::JsonTree::Bool(false))
            &&& body.get("parallel_tool_calls"@) == Some(json::JsonTree::Bool(false))
            &&& body.get("tool_choice"@) == Some(json::JsonTree::Text("none"@))
            &&& body.get("input"@) matches Some(json::JsonTree::Array(messages)) && messages.len()
                == 1 && messages[0].get("role"@) == Some(json::JsonTree::Text("user"@))
                && messages[0].get("type"@) == Some(json::JsonTree::Text("message"@)) && (
            messages[0].get("content"@) matches Some(json::JsonTree::Array(parts)) && parts.len()
                == 1 && parts[0].get("type"@) == Some(json::JsonTree::Text("input_text"@))
                && parts[0].get("text"@) == Some(json::JsonTree::Text(prompt.user)))
        }),
{
    lemma_body_names();
    let body = body_tree(model, prompt);
    let m = body->Object_0;
    json::members_are_found_by_name(m, 0, Seq::empty());
    json::members_are_found_by_name(m, 1, Seq::empty());
    json::members_are_found_by_name(m, 2, Seq::empty());
    json::members_are_found_by_name(m, 3, Seq::empty());
    json::members_are_found_by_name(m, 4, Seq::empty());
    json::members_are_found_by_name(m, 5, Seq::empty());
    json::members_are_found_by_name(m, 6, Seq::empty());
    let message = (m[0].1->Array_0)[0]->Object_0;
    json::members_are_found_by_name(message, 0, Seq::empty());
    json::members_are_found_by_name(message, 1, Seq::empty());
    json::members_are_found_by_name(message, 2, Seq::empty());
    let part = (message[0].1->Array_0)[0]->Object_0;
    json::members_are_found_by_name(part, 0, Seq::empty());
    json::members_are_found_by_name(part, 1, Seq::empty());
}

/// A request names the account exactly where one is known, and always says what
/// it sends and what it takes.
pub proof fn requests_name_the_account(account_id: Seq<char>)
    ensures
        wire_headers(account_id).contains(("OpenAI-Beta"@, "responses=experimental"@)),
        wire_headers(account_id).contains(("originator"@, "codex_cli_rs"@)),
        wire_headers(account_id).contains(("Accept"@, "text/event-stream"@)),
        wire_headers(account_id).contains(("Content-Type"@, "application/json"@)),
        account_id.len() > 0 ==> wire_headers(account_id).len() == 5 && wire_headers(
            account_id,
        ).contains(("ChatGPT-Account-Id"@, account_id)),
        account_id.len() == 0 ==> wire_headers(account_id).len() == 4,
{
    let h = wire_headers(account_id);
    assert(h[0] == ("OpenAI-Beta"@, "responses=experimental"@));
    assert(h[1] == ("originator"@, "codex_cli_rs"@));
    assert(h[2] == ("Accept"@, "text/event-stream"@));
    assert(h[3] == ("Content-Type"@, "application/json"@));
    if account_id.len() > 0 {
        assert(h[4] == ("ChatGPT-Account-Id"@, account_id));
    }
}

// ---------------------------------------------------------------------------
// Laws of the answers
// ---------------------------------------------------------------------------
/// An action is read from the members of an object by their names.
pub proof fn actions_are_read_by_name(
    v: json::JsonTree,
    selector: Seq<char>,
    kind: Seq<char>,
    value: Seq<char>,
    label: Seq<char>,
)
    requires
        v is Object,
        v.get("selector"@) == Some(json::JsonTree::Text(selector)),
        v.get("action"@) == Some(json::JsonTree::Text(kind)),
        v.get("value"@) == Some(json::JsonTree::Text(value)),
        v.get("label"@) == Some(json::JsonTree::Text(label)),
    ensures
        read_action(v) == Some(ActionModel { selector, action: kind, value, label }),
{
}

/// What an action leaves out is filled in: it fills, with nothing, and has no
/// label. Without a selector there is no action.
pub proof fn actions_have_defaults(v: json::JsonTree, selector: Seq<char>)
    requires
        v is Object,
        v.get("action"@) is None,
        v.get("value"@) is None,
        v.get("label"@) is None,
    ensures
        v.get("selector"@) == Some(json::JsonTree::Text(selector)) ==> read_action(v) == Some(
            ActionModel {
                selector,
                action: "fill"@,
                value: Seq::empty(),
                label: Seq::empty(),
            },
        ),
        v.get("selector"@) is None ==> read_action(v) is None,
{
}

/// An action that is written as an array has its parts in this order.
pub proof fn actions_are_read_by_place(
    selector: Seq<char>,
    kind: Seq<char>,
    value: Seq<char>,
    label: Seq<char>,
)
    ensures
        read_action(
            json::JsonTree::Array(
                seq![
                    json::JsonTree::Text(selector),
                    json::JsonTree::Text(kind),
                    json::JsonTree::Text(value),
                    json::JsonTree::Text(label),
                ],
            ),
        ) == Some(ActionModel { selector, action: kind, value, label }),
{
}

/// The plan is read in its order: one item more is one action more, if it stands
/// for one that has a selector, and changes nothing before it.
pub proof fn plans_are_read_in_order(items: Seq<json::JsonTree>, item: json::JsonTree)
    ensures
        match read_action(item) {
            Some(a) => planned(items.push(item)) == if text::is_blank(a.selector) {
                planned(items)
            } else {
                planned(items).push(a)
            },
            None => planned(items.push(item)) == planned(items),
        },
        planned(Seq::empty()).len() == 0,
{
    assert(items.push(item).drop_last() =~= items);
}

/// The fields that a reply holds are those of the JSON object in it, whatever
/// prose stands around that.
pub proof fn replied_fields_are_those_of_the_object(
    before: Seq<char>,
    s: Seq<char>,
    after: Seq<char>,
    p: Seq<field_map::Pair>,
)
    requires
        s.len() > 1,
        s[0] == '{',
        s.last() == '}',
        !before.contains('{'),
        !after.contains('}'),
        field_map::ascending(p),
        json::parsed_json(s) == Some(json::object_of(p)),
    ensures
        replied_fields(before + s + after) == Ok::<Map<Seq<char>, Seq<char>>, Seq<char>>(
            field_map::pairs_map(p),
        ),
{
    stray_prose_is_ignored(before, s, after, '{', '}');
    json::plain_object_collects_to_itself(p);
}

/// The actions that a reply plans are those of the JSON array in it, whatever
/// prose stands around that.
pub proof fn replied_actions_are_those_of_the_array(
    before: Seq<char>,
    s: Seq<char>,
    after: Seq<char>,
    items: Seq<json::JsonTree>,
)
    requires
        s.len() > 1,
        s[0] == '[',
        s.last() == ']',
        !before.contains('['),
        !after.contains(']'),
        json::parsed_json(s) == Some(json::JsonTree::Array(items)),
    ensures
        replied_actions(before + s + after) == Ok::<Seq<ActionModel>, Seq<char>>(planned(items)),
{
    stray_prose_is_ignored(before, s, after, '[', ']');
}

/// A reply without brackets, or with something else between them, is an error
/// that says so.
pub proof fn other_replies_are_errors(reply: Seq<char>)
    ensures
        !reply.contains('}') ==> replied_fields(reply) == Err::<
            Map<Seq<char>, Seq<char>>,
            Seq<char>,
        >("model did not return a JSON object"@),
        !reply.contains(']') ==> replied_actions(reply) == Err::<Seq<ActionModel>, Seq<char>>(
            "model did not return a JSON array"@,
        ),
        slice_of(reply, '{', '}') is Some && !(json::parsed_json(slice_of(reply, '{', '}')->0)
            matches Some(json::JsonTree::Object(_))) ==> replied_fields(reply) == Err::<
            Map<Seq<char>, Seq<char>>,
            Seq<char>,
        >("model output was not a valid JSON object"@),
        slice_of(reply, '[', ']') is Some && !(json::parsed_json(slice_of(reply, '[', ']')->0)
            matches Some(json::JsonTree::Array(_))) ==> replied_actions(reply) == Err::<
            Seq<ActionModel>,
            Seq<char>,
        >("model output was not a valid JSON array"@),
{
    words::lemma_first_index(reply, '{');
    words::lemma_first_index(reply, '[');
    if !reply.contains('}') {
        assert forall|k: int| 0 <= k < reply.len() implies #[trigger] reply[k] != '}' by {
            assert(reply.contains(reply[k]));
        }
        words::lemma_last_index_is(reply, '}', -1);
    }
    if !reply.contains(']') {
        assert forall|k: int| 0 <= k < reply.len() implies #[trigger] reply[k] != ']' by {
            assert(reply.contains(reply[k]));
        }
        words::lemma_last_index_is(reply, ']', -1);
    }
}

/// An action and a prompt stand for the texts that they hold.
pub proof fn models_hold_the_texts(a: Action, p: Prompt)
    ensures
        a@.selector == a.selector@,
        a@.action == a.action@,
        a@.value == a.value@,
        a@.label == a.label@,
        p@.system == p.system@,
        p@.user == p.user@,
{
}

/// Of an answer that refuses with a long text, as much is passed on as fits.
pub proof fn long_refusals_are_cut(status: Seq<char>, body: Seq<char>, k: int, missing: nat)
    requires
        0 <= k < body.len(),
        utf8::byte_len(body.take(k)) <= 500,
        utf8::byte_len(body.take(k + 1)) > 500,
        utf8::byte_len(body.take(k)) + missing == utf8::byte_len(body),
        utf8::byte_len(body) > 500,
    ensures
        refusal(status, body) == "ChatGPT backend returned "@ + status + ": "@ + (body.take(k)
            + "…[truncated "@ + crate::decimal::decimal(missing) + " bytes]"@),
{
    utf8::long_text_is_cut(body, 500, k, missing);
}

} // verus!
