//! Codex-style ChatGPT OAuth (PKCE, loopback redirect).
//!
//! The system browser is sent to `auth.openai.com`, the user logs in with the
//! ChatGPT subscription, and the redirect is caught on a fixed loopback port.
//! The resulting access and refresh tokens drive the ChatGPT backend. Tokens
//! are stored (and imported) at `~/.codex/auth.json`, the same file that the
//! Codex CLI uses, so the two stay interchangeable.
use crate::b64;
use crate::codec;
use crate::config;
use crate::decimal;
use crate::field_map;
use crate::field_map::FieldMap;
use crate::json;
use crate::json::Json;
use crate::text;
use crate::utf8;
use crate::words;
use vstd::prelude::*;
use vstd::utf8::*;

verus! {

// ---------------------------------------------------------------------------
// Tokens
// ---------------------------------------------------------------------------
/// The credentials that matter: a subset of what the token endpoint returns.
#[derive(Debug)]
pub struct Tokens {
    /// The bearer of requests.
    pub access_token: String,
    /// What a new access token is asked for with.
    pub refresh_token: String,
    /// Who logged in, as a JWT.
    pub id_token: String,
    /// `chatgpt_account_id` claim, sent as the `ChatGPT-Account-Id` header.
    pub account_id: String,
    /// Best-effort, for display only ("plus", "pro", ...).
    pub plan: String,
    /// Best-effort, for display only.
    pub email: String,
}

/// What [`Tokens`] stand for.
#[verifier::ext_equal]
pub struct TokensModel {
    /// The bearer of requests.
    pub access_token: Seq<char>,
    /// What a new access token is asked for with.
    pub refresh_token: Seq<char>,
    /// Who logged in, as a JWT.
    pub id_token: Seq<char>,
    /// The account.
    pub account_id: Seq<char>,
    /// The plan.
    pub plan: Seq<char>,
    /// The email address.
    pub email: Seq<char>,
}

impl View for Tokens {
    type V = TokensModel;

    open spec fn view(&self) -> TokensModel {
        TokensModel {
            access_token: self.access_token@,
            refresh_token: self.refresh_token@,
            id_token: self.id_token@,
            account_id: self.account_id@,
            plan: self.plan@,
            email: self.email@,
        }
    }
}

/// Optional tokens, as models.
pub open spec fn opt_tokens(t: Option<Tokens>) -> Option<TokensModel> {
    match t {
        Some(t) => Some(t@),
        None => None,
    }
}

/// Tokens or an error message, as models.
pub open spec fn tokens_result(r: Result<Tokens, String>) -> Result<TokensModel, Seq<char>> {
    match r {
        Ok(t) => Ok(t@),
        Err(e) => Err(e@),
    }
}

impl TokensModel {
    /// Whether there is both an access and a refresh token.
    pub open spec fn usable(self) -> bool {
        self.access_token.len() > 0 && self.refresh_token.len() > 0
    }

    /// Tokens of which nothing is known beside the tokens themselves.
    pub open spec fn bare(
        access_token: Seq<char>,
        refresh_token: Seq<char>,
        id_token: Seq<char>,
        account_id: Seq<char>,
    ) -> TokensModel {
        TokensModel {
            access_token,
            refresh_token,
            id_token,
            account_id,
            plan: Seq::empty(),
            email: Seq::empty(),
        }
    }
}

impl Clone for Tokens {
    fn clone(&self) -> (r: Self)
        ensures
            r@ == self@,
    {
        Tokens {
            access_token: self.access_token.clone(),
            refresh_token: self.refresh_token.clone(),
            id_token: self.id_token.clone(),
            account_id: self.account_id.clone(),
            plan: self.plan.clone(),
            email: self.email.clone(),
        }
    }
}

impl Default for Tokens {
    fn default() -> (r: Self)
        ensures
            r@ == TokensModel::bare(Seq::empty(), Seq::empty(), Seq::empty(), Seq::empty()),
    {
        Tokens {
            access_token: String::new(),
            refresh_token: String::new(),
            id_token: String::new(),
            account_id: String::new(),
            plan: String::new(),
            email: String::new(),
        }
    }
}

impl Tokens {
    /// Whether there is both an access and a refresh token.
    pub fn is_usable(&self) -> (r: bool)
        ensures
            r == self@.usable(),
    {
        !self.access_token.as_str().is_empty() && !self.refresh_token.as_str().is_empty()
    }
}

/// The tokens as `~/.codex/auth.json` holds them.
#[derive(Debug)]
pub struct StoredTokens {
    /// The bearer of requests.
    pub access_token: String,
    /// What a new access token is asked for with.
    pub refresh_token: String,
    /// Who logged in, as a JWT.
    pub id_token: String,
    /// The account.
    pub account_id: String,
}

/// What `~/.codex/auth.json` holds, compatible with the Codex CLI.
#[derive(Debug)]
pub struct AuthFile {
    /// An API key, which a login with a subscription has none of.
    pub openai_api_key: Option<String>,
    /// The tokens.
    pub tokens: StoredTokens,
    /// When the tokens were last renewed.
    pub last_refresh: Option<String>,
}

/// What the token endpoint answers.
#[derive(Debug)]
pub struct TokenResponse {
    /// The new access token.
    pub access_token: String,
    /// The new refresh token; empty if the old one stays valid.
    pub refresh_token: String,
    /// The new id token; empty if it was left out.
    pub id_token: String,
}

// ---------------------------------------------------------------------------
// Claims
// ---------------------------------------------------------------------------
/// The claims of a JWT: the JSON behind its second part, if it can be read.
pub open spec fn claims_of(jwt: Seq<char>) -> Option<json::JsonTree> {
    let parts = words::pieces(jwt, '.');
    if parts.len() < 2 {
        None
    } else {
        match b64::base64url_decoded(parts[1]) {
            Some(bytes) => json::parsed_json_bytes(bytes),
            None => None,
        }
    }
}

/// The claims of a JWT.
pub fn decode_jwt_payload(jwt: &str) -> (r: Option<Json>)
    ensures
        json::opt_view(r) == claims_of(jwt@),
{
    let parts = words::split(jwt, '.');
    let ghost all = text::texts(parts@);
    if parts.len() < 2 {
        return None;
    }
    assert(all[1] == parts@[1]@);
    match codec::decode_base64url(parts[1].as_str()) {
        Some(bytes) => json::parse_json_bytes(bytes.as_slice()),
        None => None,
    }
}

/// The claim that holds the account and the plan.
pub const AUTH_CLAIM: &'static str = "https://api.openai.com/auth";

/// `t` with the account, plan and email that `claims` tell of. An account that
/// is known already stays.
pub open spec fn enriched(t: TokensModel, claims: Option<json::JsonTree>) -> TokensModel {
    match claims {
        None => t,
        Some(c) => {
            let email = match c.text_at("email"@) {
                Some(e) => e,
                None => t.email,
            };
            let auth = c.get(AUTH_CLAIM@);
            let account_id = match auth {
                Some(a) => match a.text_at("chatgpt_account_id"@) {
                    Some(id) if t.account_id.len() == 0 => id,
                    _ => t.account_id,
                },
                None => t.account_id,
            };
            let plan = match auth {
                Some(a) => match a.text_at("chatgpt_plan_type"@) {
                    Some(p) => p,
                    None => t.plan,
                },
                None => t.plan,
            };
            TokensModel { email, account_id, plan, ..t }
        },
    }
}

/// Fills in the account, plan and email that `claims` tell of.
pub fn enrich_from_claims(tokens: &mut Tokens, claims: &Option<Json>)
    ensures
        final(tokens)@ == enriched(old(tokens)@, json::opt_view(*claims)),
{
    let claims = match claims {
        Some(c) => c,
        None => return,
    };
    if let Some(email) = claims.text_at("email") {
        tokens.email = text::owned(email);
    }
    if let Some(auth) = claims.get(AUTH_CLAIM) {
        if tokens.account_id.as_str().is_empty() {
            if let Some(id) = auth.text_at("chatgpt_account_id") {
                tokens.account_id = text::owned(id);
            }
        }
        if let Some(plan) = auth.text_at("chatgpt_plan_type") {
            tokens.plan = text::owned(plan);
        }
    }
}

/// Pulls `chatgpt_account_id`, plan and email out of the id token. The account
/// id is required for the `ChatGPT-Account-Id` header.
pub fn enrich_from_id_token(tokens: &mut Tokens)
    ensures
        final(tokens)@ == enriched(old(tokens)@, claims_of(old(tokens).id_token@)),
{
    let claims = decode_jwt_payload(tokens.id_token.as_str());
    enrich_from_claims(tokens, &claims);
}

// ---------------------------------------------------------------------------
// Import / persist
// ---------------------------------------------------------------------------
/// The tokens that the stored ones stand for, if both tokens are there.
pub open spec fn imported(stored: Option<StoredTokens>) -> Option<TokensModel> {
    match stored {
        Some(s) if s.access_token@.len() > 0 && s.refresh_token@.len() > 0 => Some(
            enriched(
                TokensModel::bare(
                    s.access_token@,
                    s.refresh_token@,
                    s.id_token@,
                    s.account_id@,
                ),
                claims_of(s.id_token@),
            ),
        ),
        _ => None,
    }
}

/// Already-valid tokens from what could be read of `~/.codex/auth.json`, written
/// by an earlier login or by the Codex CLI itself.
pub fn load_existing(stored: Option<StoredTokens>) -> (r: Option<Tokens>)
    ensures
        opt_tokens(r) == imported(stored),
{
    match stored {
        Some(s) => {
            if s.access_token.as_str().is_empty() || s.refresh_token.as_str().is_empty() {
                return None;
            }
            let mut tokens = Tokens {
                access_token: s.access_token,
                refresh_token: s.refresh_token,
                id_token: s.id_token,
                account_id: s.account_id,
                plan: String::new(),
                email: String::new(),
            };
            enrich_from_id_token(&mut tokens);
            Some(tokens)
        },
        None => None,
    }
}

/// The decimal notation of `i`.
pub open spec fn signed_decimal(i: int) -> Seq<char> {
    if i < 0 {
        seq!['-'] + decimal::decimal((-i) as nat)
    } else {
        decimal::decimal(i as nat)
    }
}

/// Seconds-precision UTC timestamp.
pub fn now_iso(now: i64) -> (r: String)
    ensures
        r@ == signed_decimal(now as int),
{
    let mut r = String::new();
    if now < 0 {
        r.push('-');
        let magnitude: u64 = (-(now as i128)) as u64;
        decimal::push_decimal(&mut r, magnitude);
        assert(r@ =~= signed_decimal(now as int));
    } else {
        decimal::push_decimal(&mut r, now as u64);
        assert(r@ =~= signed_decimal(now as int));
    }
    r
}

/// What to persist to `~/.codex/auth.json` for `tokens` at the time `now`.
pub fn save(tokens: &Tokens, now: i64) -> (r: AuthFile)
    ensures
        r.openai_api_key is None,
        r.tokens.access_token@ == tokens@.access_token,
        r.tokens.refresh_token@ == tokens@.refresh_token,
        r.tokens.id_token@ == tokens@.id_token,
        r.tokens.account_id@ == tokens@.account_id,
        r.last_refresh matches Some(t) && t@ == signed_decimal(now as int),
{
    AuthFile {
        openai_api_key: None,
        tokens: StoredTokens {
            access_token: tokens.access_token.clone(),
            refresh_token: tokens.refresh_token.clone(),
            id_token: tokens.id_token.clone(),
            account_id: tokens.account_id.clone(),
        },
        last_refresh: Some(now_iso(now)),
    }
}

// ---------------------------------------------------------------------------
// Login (PKCE + loopback)
// ---------------------------------------------------------------------------
/// The address to send the user to.
pub open spec fn authorize_url(challenge: Seq<char>, state: Seq<char>) -> Seq<char> {
    config::OAUTH_AUTHORIZE_URL@ + "?response_type=code&client_id="@ + codec::url_encoded(
        config::OAUTH_CLIENT_ID@,
    ) + "&redirect_uri="@ + codec::url_encoded(config::redirect_uri()) + "&scope="@
        + codec::url_encoded(config::OAUTH_SCOPE@) + "&code_challenge="@ + codec::url_encoded(
        challenge,
    )
        + "&code_challenge_method=S256&id_token_add_organizations=true&codex_cli_simplified_flow=true&state="@
        + codec::url_encoded(state)
}

/// The address to send the user to.
pub fn build_authorize_url(challenge: &str, state: &str) -> (r: String)
    ensures
        r@ == authorize_url(challenge@, state@),
{
    let mut r = text::owned(config::OAUTH_AUTHORIZE_URL);
    r.append("?response_type=code&client_id=");
    r.append(codec::url_encode(config::OAUTH_CLIENT_ID).as_str());
    r.append("&redirect_uri=");
    r.append(codec::url_encode(config::oauth_redirect_uri().as_str()).as_str());
    r.append("&scope=");
    r.append(codec::url_encode(config::OAUTH_SCOPE).as_str());
    r.append("&code_challenge=");
    r.append(codec::url_encode(challenge).as_str());
    r.append(
        "&code_challenge_method=S256&id_token_add_organizations=true&codex_cli_simplified_flow=true&state=",
    );
    r.append(codec::url_encode(state).as_str());
    r
}

/// A login that was begun.
#[derive(Debug)]
pub struct Login {
    /// The secret that proves who began the login.
    pub verifier: String,
    /// What ties the redirect to this login.
    pub state: String,
    /// The address to send the user to.
    pub authorize_url: String,
}

/// The PKCE challenge of a verifier: its SHA-256 digest in URL-safe base64.
pub open spec fn challenge_of(verifier: Seq<char>) -> Seq<char> {
    b64::base64url(codec::sha256(encode_utf8(verifier)))
}

/// The PKCE challenge of a verifier.
pub fn challenge(verifier: &str) -> (r: String)
    ensures
        r@ == challenge_of(verifier@),
{
    codec::base64url_encode(codec::sha256_digest(verifier.as_bytes()).as_slice())
}

/// The login of a given verifier and state.
pub fn login_with(verifier: String, state: String) -> (r: Login)
    ensures
        r.verifier@ == verifier@,
        r.state@ == state@,
        r.authorize_url@ == authorize_url(challenge_of(verifier@), state@),
{
    let challenge = challenge(verifier.as_str());
    let authorize_url = build_authorize_url(challenge.as_str(), state.as_str());
    Login { verifier, state, authorize_url }
}

/// Begins an interactive login, with a verifier of 64 and a state of 32 random
/// bytes.
pub fn login() -> (r: Login)
    ensures
        exists|b: Seq<u8>| b.len() == 64 && #[trigger] b64::base64url(b) == r.verifier@,
        exists|b: Seq<u8>| b.len() == 32 && #[trigger] b64::base64url(b) == r.state@,
        r.authorize_url@ == authorize_url(challenge_of(r.verifier@), r.state@),
{
    let verifier = codec::random_b64url(64);
    let state = codec::random_b64url(32);
    login_with(verifier, state)
}

/// How long a login waits for the browser to redirect back, in milliseconds.
pub const LOGIN_TIMEOUT: u64 = 300000;

/// Whether a login that has waited for `elapsed` milliseconds waits on: how many
/// milliseconds it has left, or that it has failed.
pub open spec fn login_wait(elapsed: int) -> Result<int, Seq<char>> {
    if elapsed < LOGIN_TIMEOUT {
        Ok(LOGIN_TIMEOUT - elapsed)
    } else {
        Err("login timed out"@)
    }
}

/// Whether a login that has waited for `elapsed` milliseconds waits on for the
/// redirect: how many milliseconds it has left, which is never none, or that it
/// has failed.
pub fn wait_on(elapsed: u64) -> (r: Result<u64, String>)
    ensures
        match r {
            Ok(left) => login_wait(elapsed as int) == Ok::<int, Seq<char>>(left as int),
            Err(e) => login_wait(elapsed as int) == Err::<int, Seq<char>>(e@),
        },
{
    if elapsed < LOGIN_TIMEOUT {
        Ok(LOGIN_TIMEOUT - elapsed)
    } else {
        Err(text::owned("login timed out"))
    }
}

/// The parameters of a query string. Where a name occurs twice, the last counts;
/// what has no `=` is left out; a value that does not decode is kept.
pub open spec fn query_params(parts: Seq<Seq<char>>) -> Map<Seq<char>, Seq<char>>
    decreases parts.len(),
{
    if parts.len() == 0 {
        Map::empty()
    } else {
        let before = query_params(parts.drop_last());
        match words::around_first(parts.last(), '=') {
            Some((k, v)) => before.insert(
                k,
                match codec::url_decoded(v) {
                    Some(d) => d,
                    None => v,
                },
            ),
            None => before,
        }
    }
}

/// The parameters of a query string.
pub fn parse_query(query: &str) -> (r: FieldMap)
    ensures
        r@ == query_params(words::pieces(query@, '&')),
{
    let parts = words::split(query, '&');
    let ghost all = text::texts(parts@);
    let mut out = FieldMap::new();
    let mut i: usize = 0;
    while i < parts.len()
        invariant
            all == text::texts(parts@),
            0 <= i <= parts@.len(),
            out@ == query_params(all.take(i as int)),
        decreases parts@.len() - i,
    {
        proof {
            assert(all.take(i + 1).drop_last() =~= all.take(i as int));
            assert(all.take(i + 1).last() == parts@[i as int]@);
        }
        if let Some((k, v)) = words::split_once(parts[i].as_str(), '=') {
            match codec::url_decode(v.as_str()) {
                Some(d) => out.insert(k, d),
                None => out.insert(k, v),
            }
        }
        i += 1;
    }
    assert(all.take(i as int) =~= all);
    out
}

/// What a request on the loopback listener comes to.
#[derive(Debug)]
pub enum Redirect {
    /// It is not the callback yet: answer with the page and wait for another.
    Wait {
        /// What to tell the browser.
        page: String,
    },
    /// The login failed.
    Failed {
        /// What to tell the browser.
        page: String,
        /// Why.
        error: String,
    },
    /// The login went through.
    Done {
        /// What to tell the browser.
        page: String,
        /// The code to exchange for tokens.
        code: String,
    },
}

/// What a [`Redirect`] stands for.
pub enum RedirectModel {
    /// Not the callback yet.
    Wait {
        /// What to tell the browser.
        page: Seq<char>,
    },
    /// The login failed.
    Failed {
        /// What to tell the browser.
        page: Seq<char>,
        /// Why.
        error: Seq<char>,
    },
    /// The login went through.
    Done {
        /// What to tell the browser.
        page: Seq<char>,
        /// The code.
        code: Seq<char>,
    },
}

impl View for Redirect {
    type V = RedirectModel;

    open spec fn view(&self) -> RedirectModel {
        match self {
            Redirect::Wait { page } => RedirectModel::Wait { page: page@ },
            Redirect::Failed { page, error } => RedirectModel::Failed {
                page: page@,
                error: error@,
            },
            Redirect::Done { page, code } => RedirectModel::Done { page: page@, code: code@ },
        }
    }
}

/// The request target of an HTTP request: the second word of its first line.
pub open spec fn request_target(request: Seq<char>) -> Option<Seq<char>> {
    words::second_word(request.take(words::first_index(request, '\n')))
}

/// The query of a request target: what follows the first `?`.
pub open spec fn target_query(target: Seq<char>) -> Seq<char> {
    match words::around_first(target, '?') {
        Some((_, q)) => q,
        None => Seq::empty(),
    }
}

/// The parameters of a request target.
pub open spec fn target_params(target: Seq<char>) -> Map<Seq<char>, Seq<char>> {
    query_params(words::pieces(target_query(target), '&'))
}

/// What the parameters of the callback come to.
pub open spec fn judged_params(
    params: Map<Seq<char>, Seq<char>>,
    expected_state: Seq<char>,
) -> RedirectModel {
    if params.contains_key("error"@) {
        RedirectModel::Failed {
            page: "Login failed. You can close this tab."@,
            error: "OpenAI returned error: "@ + params["error"@],
        }
    } else if !params.contains_key("code"@) || !params.contains_key("state"@) {
        RedirectModel::Wait { page: "Waiting for OpenAI…"@ }
    } else if params["state"@] == expected_state {
        RedirectModel::Done {
            page: "klawply is connected. You can close this tab and return to the terminal."@,
            code: params["code"@],
        }
    } else {
        RedirectModel::Failed {
            page: "State mismatch. You can close this tab."@,
            error: "OAuth state mismatch — possible CSRF, aborting."@,
        }
    }
}

/// What a request comes to. Only one to the redirect path is looked at.
pub open spec fn judged(request: Seq<char>, expected_state: Seq<char>) -> RedirectModel {
    match request_target(request) {
        Some(target) if words::begins(target, config::OAUTH_REDIRECT_PATH@) => judged_params(
            target_params(target),
            expected_state,
        ),
        _ => RedirectModel::Wait { page: "Waiting for OpenAI…"@ },
    }
}

fn waiting() -> (r: Redirect)
    ensures
        r@ == (RedirectModel::Wait { page: "Waiting for OpenAI…"@ }),
{
    Redirect::Wait { page: text::owned("Waiting for OpenAI…") }
}

fn judge_params(params: &FieldMap, expected_state: &str) -> (r: Redirect)
    ensures
        r@ == judged_params(params@, expected_state@),
{
    if let Some(err) = params.get("error") {
        return Redirect::Failed {
            page: text::owned("Login failed. You can close this tab."),
            error: text::chained("OpenAI returned error: ", err.as_str()),
        };
    }
    match (params.get("code"), params.get("state")) {
        (Some(code), Some(state)) => if text::same(state.as_str(), expected_state) {
            Redirect::Done {
                page: text::owned(
                    "klawply is connected. You can close this tab and return to the terminal.",
                ),
                code: code.clone(),
            }
        } else {
            Redirect::Failed {
                page: text::owned("State mismatch. You can close this tab."),
                error: text::owned("OAuth state mismatch — possible CSRF, aborting."),
            }
        },
        _ => waiting(),
    }
}

/// What an HTTP request on the loopback listener comes to. The browser may make
/// a favicon or preflight request first; only the callback with a `code` and
/// the `state` of this login ends the wait well.
pub fn judge_request(request: &str, expected_state: &str) -> (r: Redirect)
    ensures
        r@ == judged(request@, expected_state@),
{
    let v = text::chars_of(request);
    let line = text::string_between(&v, 0, words::find_char(&v, '\n'));
    assert(line@ =~= request@.take(words::first_index(request@, '\n')));
    let target = match words::word_two(line.as_str()) {
        Some(t) => t,
        None => return waiting(),
    };
    if !words::starts_with(target.as_str(), config::OAUTH_REDIRECT_PATH) {
        return waiting();
    }
    let query = match words::split_once(target.as_str(), '?') {
        Some((_, q)) => q,
        None => String::new(),
    };
    assert(query@ =~= target_query(target@));
    let params = parse_query(query.as_str());
    judge_params(&params, expected_state)
}

/// What the bytes of a request come to; bytes that are not UTF-8 are replaced.
pub fn judge_bytes(request: &[u8], expected_state: &str) -> (r: Redirect)
    ensures
        r@ == judged(text::lossy(request@), expected_state@),
        valid_utf8(request@) ==> r@ == judged(decode_utf8(request@), expected_state@),
{
    judge_request(text::lossy_text(request).as_str(), expected_state)
}

/// The page that shows `message`.
pub open spec fn page(message: Seq<char>) -> Seq<char> {
    "<!doctype html><html><body style='background:#000;color:#0f6;font-family:monospace;text-align:center;padding-top:20vh'><h1 style='color:#0f6'>klawply</h1><p>"@
        + message + "</p></body></html>"@
}

/// The HTTP response that carries `body`.
pub open spec fn http_ok(body: Seq<char>) -> Seq<char> {
    "HTTP/1.1 200 OK\r\nContent-Type: text/html\r\nContent-Length: "@ + decimal::decimal(
        utf8::byte_len(body),
    ) + "\r\nConnection: close\r\n\r\n"@ + body
}

/// The HTTP response that shows `message`.
pub fn respond(message: &str) -> (r: String)
    ensures
        r@ == http_ok(page(message@)),
{
    let mut body = text::owned(
        "<!doctype html><html><body style='background:#000;color:#0f6;font-family:monospace;text-align:center;padding-top:20vh'><h1 style='color:#0f6'>klawply</h1><p>",
    );
    body.append(message);
    body.append("</p></body></html>");
    let mut r = text::owned(
        "HTTP/1.1 200 OK\r\nContent-Type: text/html\r\nContent-Length: ",
    );
    r.append(decimal::size_decimal(utf8::len_bytes(body.as_str())).as_str());
    r.append("\r\nConnection: close\r\n\r\n");
    r.append(body.as_str());
    r
}

// ---------------------------------------------------------------------------
// Token exchange / refresh
// ---------------------------------------------------------------------------
fn pair(name: &str, value: &str) -> (r: (String, String))
    ensures
        r.0@ == name@,
        r.1@ == value@,
{
    (text::owned(name), text::owned(value))
}

/// The form that exchanges a code for tokens.
pub open spec fn exchange_fields(code: Seq<char>, verifier: Seq<char>) -> Seq<field_map::Pair> {
    seq![
        ("grant_type"@, "authorization_code"@),
        ("code"@, code),
        ("redirect_uri"@, config::redirect_uri()),
        ("client_id"@, config::OAUTH_CLIENT_ID@),
        ("code_verifier"@, verifier),
    ]
}

/// The form that exchanges a code for tokens.
pub fn exchange_form(code: &str, verifier: &str) -> (r: Vec<(String, String)>)
    ensures
        field_map::pair_texts(r@) == exchange_fields(code@, verifier@),
{
    let mut r: Vec<(String, String)> = Vec::new();
    r.push(pair("grant_type", "authorization_code"));
    r.push(pair("code", code));
    r.push((text::owned("redirect_uri"), config::oauth_redirect_uri()));
    r.push(pair("client_id", config::OAUTH_CLIENT_ID));
    r.push(pair("code_verifier", verifier));
    assert(field_map::pair_texts(r@) =~= exchange_fields(code@, verifier@));
    r
}

/// The tokens that the answer to a code stands for.
pub fn exchange_code(resp: TokenResponse) -> (r: Tokens)
    ensures
        r@ == enriched(
            TokensModel::bare(
                resp.access_token@,
                resp.refresh_token@,
                resp.id_token@,
                Seq::empty(),
            ),
            claims_of(resp.id_token@),
        ),
{
    let mut tokens = Tokens {
        access_token: resp.access_token,
        refresh_token: resp.refresh_token,
        id_token: resp.id_token,
        account_id: String::new(),
        plan: String::new(),
        email: String::new(),
    };
    enrich_from_id_token(&mut tokens);
    tokens
}

/// What is wrong with tokens that cannot be refreshed.
pub open spec fn no_refresh_token() -> Seq<char> {
    "no refresh token; please reconnect"@
}

/// The form that asks for a new access token.
pub open spec fn refresh_fields(refresh_token: Seq<char>) -> Seq<field_map::Pair> {
    seq![
        ("grant_type"@, "refresh_token"@),
        ("refresh_token"@, refresh_token),
        ("client_id"@, config::OAUTH_CLIENT_ID@),
    ]
}

/// The form that asks for a new access token; an error if there is no refresh
/// token to ask with.
pub fn refresh_form(existing: &Tokens) -> (r: Result<Vec<(String, String)>, String>)
    ensures
        match r {
            Ok(f) => existing.refresh_token@.len() > 0 && field_map::pair_texts(f@)
                == refresh_fields(existing.refresh_token@),
            Err(e) => existing.refresh_token@.len() == 0 && e@ == no_refresh_token(),
        },
{
    if existing.refresh_token.as_str().is_empty() {
        return Err(text::owned("no refresh token; please reconnect"));
    }
    let mut r: Vec<(String, String)> = Vec::new();
    r.push(pair("grant_type", "refresh_token"));
    r.push(pair("refresh_token", existing.refresh_token.as_str()));
    r.push(pair("client_id", config::OAUTH_CLIENT_ID));
    assert(field_map::pair_texts(r@) =~= refresh_fields(existing.refresh_token@));
    Ok(r)
}

/// `new`, or `old` if that is empty.
pub open spec fn or_old(new: Seq<char>, old_text: Seq<char>) -> Seq<char> {
    if new.len() == 0 {
        old_text
    } else {
        new
    }
}

/// The tokens after a refresh was answered with `resp`. What the answer leaves
/// out is kept.
pub open spec fn refreshed(existing: TokensModel, resp: TokenResponse) -> TokensModel {
    let id_token = or_old(resp.id_token@, existing.id_token);
    enriched(
        TokensModel::bare(
            resp.access_token@,
            or_old(resp.refresh_token@, existing.refresh_token),
            id_token,
            Seq::empty(),
        ),
        claims_of(id_token),
    )
}

/// What comes of a refresh, given what the token endpoint answered. Keeps the
/// old refresh token if the answer does not rotate it (some answers omit it).
pub fn refresh(existing: &Tokens, answer: Result<TokenResponse, String>) -> (r: Result<
    Tokens,
    String,
>)
    ensures
        tokens_result(r) == (if existing.refresh_token@.len() == 0 {
            Err::<TokensModel, Seq<char>>(no_refresh_token())
        } else {
            match answer {
                Ok(resp) => Ok(refreshed(existing@, resp)),
                Err(e) => Err(e@),
            }
        }),
{
    if existing.refresh_token.as_str().is_empty() {
        return Err(text::owned("no refresh token; please reconnect"));
    }
    let resp = match answer {
        Ok(resp) => resp,
        Err(e) => return Err(e),
    };
    let mut tokens = Tokens {
        access_token: resp.access_token,
        refresh_token: if resp.refresh_token.as_str().is_empty() {
            existing.refresh_token.clone()
        } else {
            resp.refresh_token
        },
        id_token: if resp.id_token.as_str().is_empty() {
            existing.id_token.clone()
        } else {
            resp.id_token
        },
        account_id: String::new(),
        plan: String::new(),
        email: String::new(),
    };
    enrich_from_id_token(&mut tokens);
    Ok(tokens)
}

/// What the answer of the token endpoint comes to: its HTTP status, its text,
/// and what could be read from that.
pub fn token_answer(
    success: bool,
    status: &str,
    body: &str,
    parsed: Result<TokenResponse, String>,
) -> (r: Result<TokenResponse, String>)
    ensures
        match r {
            Ok(t) => success && parsed == Ok::<TokenResponse, String>(t),
            Err(e) => if !success {
                e@ == "token endpoint returned "@ + status@ + ": "@ + body@
            } else {
                parsed is Err && e@ == "bad token response: "@ + parsed->Err_0@ + " — "@ + body@
            },
        },
{
    if !success {
        let mut e = text::owned("token endpoint returned ");
        e.append(status);
        e.append(": ");
        e.append(body);
        return Err(e);
    }
    match parsed {
        Ok(t) => Ok(t),
        Err(why) => {
            let mut e = text::owned("bad token response: ");
            e.append(why.as_str());
            e.append(" — ");
            e.append(body);
            Err(e)
        },
    }
}

// ---------------------------------------------------------------------------
// Expiry / freshness
// ---------------------------------------------------------------------------
/// Refresh this many seconds before the access token's `exp` to avoid using a
/// token that expires mid-request.
pub const EXPIRY_SKEW_SECS: i64 = 120;

/// Whether claims tell that the token expires within the skew of `now`. Without
/// a readable `exp` it does not.
pub open spec fn expired(claims: Option<json::JsonTree>, now: int) -> bool {
    match claims {
        Some(c) => match c.get("exp"@) {
            Some(v) => match v.as_i64() {
                Some(exp) => now + EXPIRY_SKEW_SECS >= exp,
                None => false,
            },
            None => false,
        },
        None => false,
    }
}

/// Whether claims tell that the token expires within the skew of `now`.
pub fn claims_expired(claims: &Option<Json>, now: i64) -> (r: bool)
    ensures
        r == expired(json::opt_view(*claims), now as int),
{
    match claims {
        Some(c) => match c.get("exp") {
            Some(v) => match v.as_i64() {
                Some(exp) => now as i128 + EXPIRY_SKEW_SECS as i128 >= exp as i128,
                None => false,
            },
            None => false,
        },
        None => false,
    }
}

/// True when the access token's `exp` claim is in the past (within skew). If the
/// claim cannot be read the token is taken to be fine, and a 401 drives a
/// refresh.
pub fn access_is_expired(tokens: &Tokens, now: i64) -> (r: bool)
    ensures
        r == expired(claims_of(tokens.access_token@), now as int),
{
    claims_expired(&decode_jwt_payload(tokens.access_token.as_str()), now)
}

/// Tokens, with what has to be done before they are used.
#[derive(Debug)]
pub enum Freshness {
    /// They can be used as they are.
    Fresh(Tokens),
    /// They have to be refreshed first.
    Stale(Tokens),
}

/// Sorts out usable tokens: if the access token is still valid, they are used
/// as they are; otherwise they have to be refreshed.
pub fn ensure_fresh(tokens: Tokens, now: i64) -> (r: Freshness)
    ensures
        if expired(claims_of(tokens.access_token@), now as int) {
            r == Freshness::Stale(tokens)
        } else {
            r == Freshness::Fresh(tokens)
        },
{
    if access_is_expired(&tokens, now) {
        Freshness::Stale(tokens)
    } else {
        Freshness::Fresh(tokens)
    }
}

/// Whether an error text in lower case means that the stored refresh token is
/// dead.
pub open spec fn tells_of_dead_login(e: Seq<char>) -> bool {
    ||| words::occurs(e, "refresh_token_reused"@)
    ||| words::occurs(e, "invalid_grant"@)
    ||| words::occurs(e, "already been used"@)
    ||| words::occurs(e, "sign in again"@)
    ||| words::occurs(e, "signing in again"@)
    ||| words::occurs(e, "missing refresh token"@)
    ||| words::occurs(e, "no refresh token"@)
}

/// Whether an error text in lower case means that the stored refresh token is
/// dead.
pub fn names_dead_login(e: &str) -> (r: bool)
    ensures
        r == tells_of_dead_login(e@),
{
    words::contains(e, "refresh_token_reused") || words::contains(e, "invalid_grant")
        || words::contains(e, "already been used") || words::contains(e, "sign in again")
        || words::contains(e, "signing in again") || words::contains(e, "missing refresh token")
        || words::contains(e, "no refresh token")
}

/// Whether an error means the stored refresh token is dead and the user must
/// sign in again (rotated or reused token, revoked grant, etc.).
pub fn is_relogin_error(e: &str) -> (r: bool)
    ensures
        r == tells_of_dead_login(text::lowercase(e@)),
{
    names_dead_login(e.to_lowercase().as_str())
}

// ---------------------------------------------------------------------------
// Laws
// ---------------------------------------------------------------------------
/// Claims never touch the tokens themselves, nor an account that is known.
pub proof fn claims_keep_the_tokens(t: TokensModel, claims: Option<json::JsonTree>)
    ensures
        enriched(t, claims).access_token == t.access_token,
        enriched(t, claims).refresh_token == t.refresh_token,
        enriched(t, claims).id_token == t.id_token,
        t.account_id.len() > 0 ==> enriched(t, claims).account_id == t.account_id,
{
}

/// Without claims nothing is added.
pub proof fn no_claims_add_nothing(t: TokensModel)
    ensures
        enriched(t, None) == t,
{
}

/// Usable tokens that were saved are loaded again, and keep their account.
pub proof fn saved_tokens_load_again(t: TokensModel, stored: StoredTokens)
    requires
        t.usable(),
        stored.access_token@ == t.access_token,
        stored.refresh_token@ == t.refresh_token,
        stored.id_token@ == t.id_token,
        stored.account_id@ == t.account_id,
    ensures
        imported(Some(stored)) matches Some(l) && l.usable() && l.access_token == t.access_token
            && l.refresh_token == t.refresh_token && l.id_token == t.id_token && (
        t.account_id.len() > 0 ==> l.account_id == t.account_id),
{
}

/// Tokens that lack one of the pair are never imported.
pub proof fn incomplete_tokens_are_not_imported(stored: StoredTokens)
    requires
        stored.access_token@.len() == 0 || stored.refresh_token@.len() == 0,
    ensures
        imported(Some(stored)) is None,
{
}

/// A refresh keeps the refresh token and the id token that it is not given
/// anew, and takes those that it is.
pub proof fn refresh_keeps_what_is_left_out(existing: TokensModel, resp: TokenResponse)
    ensures
        refreshed(existing, resp).access_token == resp.access_token@,
        resp.refresh_token@.len() == 0 ==> refreshed(existing, resp).refresh_token
            == existing.refresh_token,
        resp.refresh_token@.len() > 0 ==> refreshed(existing, resp).refresh_token
            == resp.refresh_token@,
        resp.id_token@.len() == 0 ==> refreshed(existing, resp).id_token == existing.id_token,
        resp.id_token@.len() > 0 ==> refreshed(existing, resp).id_token == resp.id_token@,
{
}

/// Tokens that could be refreshed once can be refreshed again.
pub proof fn refreshed_tokens_stay_refreshable(existing: TokensModel, resp: TokenResponse)
    requires
        existing.refresh_token.len() > 0,
    ensures
        refreshed(existing, resp).refresh_token.len() > 0,
{
}

/// A code is taken only from the redirect path, with the state of this login
/// and without an error.
pub proof fn code_needs_the_state(request: Seq<char>, expected_state: Seq<char>)
    ensures
        judged(request, expected_state) is Done ==> ({
            let target = request_target(request);
            &&& target is Some
            &&& words::begins(target->0, config::OAUTH_REDIRECT_PATH@)
            &&& target_params(target->0).contains_key("state"@)
            &&& target_params(target->0)["state"@] == expected_state
            &&& !target_params(target->0).contains_key("error"@)
        }),
{
}

/// A request for anything but the redirect path keeps the listener waiting.
pub proof fn other_paths_are_not_judged(request: Seq<char>, expected_state: Seq<char>)
    requires
        request_target(request) matches Some(t) ==> !words::begins(
            t,
            config::OAUTH_REDIRECT_PATH@,
        ),
    ensures
        judged(request, expected_state) is Wait,
{
}

/// A login waits until its time is up, and for as long as it said before; from
/// then on it has failed for good.
pub proof fn a_login_ends_in_time(elapsed: int, later: int)
    requires
        0 <= elapsed <= later,
    ensures
        login_wait(elapsed) matches Ok(left) ==> (login_wait(later) is Ok <==> later < elapsed
            + left),
        login_wait(elapsed) is Err ==> login_wait(later) == login_wait(elapsed),
        login_wait(LOGIN_TIMEOUT as int) == Err::<int, Seq<char>>("login timed out"@),
{
}

/// A token that is expired stays so.
pub proof fn expiry_is_final(claims: Option<json::JsonTree>, now: int, later: int)
    requires
        now <= later,
        expired(claims, now),
    ensures
        expired(claims, later),
{
}

/// The request target of a callback that carries a code and a state.
pub open spec fn callback_target(code: Seq<char>, state: Seq<char>) -> Seq<char> {
    config::OAUTH_REDIRECT_PATH@ + "?code="@ + codec::url_encoded(code) + "&state="@
        + codec::url_encoded(state)
}

proof fn lemma_callback_params(code: Seq<char>, state: Seq<char>)
    ensures
        target_params(callback_target(code, state)) == Map::<Seq<char>, Seq<char>>::empty().insert(
            "code"@,
            code,
        ).insert("state"@, state),
{
    reveal_strlit("/auth/callback");
    reveal_strlit("?code=");
    reveal_strlit("&state=");
    reveal_strlit("code");
    reveal_strlit("state");
    let c = codec::url_encoded(code);
    let s = codec::url_encoded(state);
    let path = config::OAUTH_REDIRECT_PATH@;
    let target = callback_target(code, state);
    assert forall|i: int| 0 <= i < c.len() implies codec::url_safe(#[trigger] c[i]) by {
        codec::encoded_text_is_url_safe(code, i);
    }
    assert forall|i: int| 0 <= i < s.len() implies codec::url_safe(#[trigger] s[i]) by {
        codec::encoded_text_is_url_safe(state, i);
    }
    let first = "code"@ + seq!['='] + c;
    let second = "state"@ + seq!['='] + s;
    let query = first + seq!['&'] + second;
    // The query.
    assert forall|k: int| 0 <= k < path.len() implies #[trigger] target[k] != '?' by {
        assert(target[k] == path[k]);
    }
    words::lemma_first_index_is(target, '?', path.len() as int);
    assert(target.skip(path.len() as int + 1) =~= query);
    assert(target_query(target) == query);
    // Its pieces.
    assert forall|k: int| 0 <= k < first.len() implies #[trigger] first[k] != '&' by {
        if k >= 5 {
            assert(first[k] == c[k - 5]);
        }
    }
    assert forall|k: int| 0 <= k < second.len() implies #[trigger] second[k] != '&' by {
        if k >= 6 {
            assert(second[k] == s[k - 6]);
        }
    }
    words::lemma_one_piece(first, '&');
    words::lemma_piece_added(first, second, '&');
    let parts = seq![first, second];
    assert(words::pieces(query, '&') =~= parts);
    // The names and values.
    words::lemma_first_index_is(first, '=', 4);
    words::lemma_first_index_is(second, '=', 5);
    assert(first.take(4) =~= "code"@ && first.skip(5) =~= c);
    assert(second.take(5) =~= "state"@ && second.skip(6) =~= s);
    codec::url_round_trip(code);
    codec::url_round_trip(state);
    assert(parts.drop_last() =~= seq![first]);
    assert(seq![first].drop_last() =~= Seq::<Seq<char>>::empty());
    reveal_with_fuel(query_params, 3);
    assert(query_params(seq![first]) == Map::<Seq<char>, Seq<char>>::empty().insert(
        "code"@,
        code,
    ));
}

proof fn lemma_no_white_in_literals()
    ensures
        forall|k: int| 0 <= k < 14 ==> !text::is_white(#[trigger] config::OAUTH_REDIRECT_PATH@[k]),
        forall|k: int| 0 <= k < 6 ==> !text::is_white(#[trigger] "?code="@[k]),
        forall|k: int| 0 <= k < 7 ==> !text::is_white(#[trigger] "&state="@[k]),
{
    reveal_strlit("/auth/callback");
    reveal_strlit("?code=");
    reveal_strlit("&state=");
    assert("/auth/callback"@ =~= seq![
        '/', 'a', 'u', 't', 'h', '/', 'c', 'a', 'l', 'l', 'b', 'a', 'c', 'k',
    ]);
    assert("?code="@ =~= seq!['?', 'c', 'o', 'd', 'e', '=']);
    assert("&state="@ =~= seq!['&', 's', 't', 'a', 't', 'e', '=']);
}

proof fn lemma_callback_word(code: Seq<char>, state: Seq<char>, rest: Seq<char>)
    ensures
        request_target("GET "@ + callback_target(code, state) + " "@ + rest) == Some(
            callback_target(code, state),
        ),
{
    reveal_strlit("/auth/callback");
    reveal_strlit("?code=");
    reveal_strlit("&state=");
    reveal_strlit("GET ");
    reveal_strlit(" ");
    let c = codec::url_encoded(code);
    let s = codec::url_encoded(state);
    let target = callback_target(code, state);
    let n = target.len() as int;
    let request = "GET "@ + target + " "@ + rest;
    lemma_no_white_in_literals();
    assert forall|i: int| 0 <= i < n implies !text::is_white(#[trigger] target[i]) by {
        if i < 14 {
            assert(target[i] == config::OAUTH_REDIRECT_PATH@[i]);
        } else if i < 20 {
            assert(target[i] == "?code="@[i - 14]);
        } else if 20 + c.len() <= i < 27 + c.len() {
            assert(target[i] == "&state="@[i - 20 - c.len()]);
        } else if i < 20 + c.len() {
            codec::encoded_text_is_url_safe(code, i - 20);
            assert(target[i] == c[i - 20]);
        } else {
            codec::encoded_text_is_url_safe(state, i - 27 - c.len());
            assert(target[i] == s[i - 27 - c.len()]);
        }
    }
    // The first line holds the target and the space behind it.
    let end = words::first_index(request, '\n');
    words::lemma_first_index(request, '\n');
    assert(end >= n + 5) by {
        if end < n + 5 {
            assert(request[end] == '\n');
            if 4 <= end < n + 4 {
                assert(request[end] == target[end - 4]);
                assert(!text::is_white('\n'));
            }
        }
    }
    let line = request.take(end);
    assert(line[0] == 'G' && line[1] == 'E' && line[2] == 'T' && line[3] == ' ');
    assert(text::trim_start(line) == line);
    assert forall|k: int| 0 <= k < 3 implies !text::is_white(#[trigger] line[k]) by {}
    words::lemma_word_len_is(line, 3);
    let behind = line.skip(3);
    let from_target = line.skip(4);
    assert(behind[0] == ' ');
    assert(behind.drop_first() =~= from_target);
    assert forall|k: int| 0 <= k < n implies #[trigger] from_target[k] == target[k] by {
        assert(from_target[k] == request[k + 4]);
    }
    assert(from_target[n] == ' ');
    assert(!text::is_white(target[0]));
    assert(text::trim_start(from_target) == from_target);
    assert(text::trim_start(behind) == from_target);
    words::lemma_word_len_is(from_target, n);
    assert(from_target.take(n) =~= target);
}

/// A callback that carries the state of this login ends it with the code that it
/// carries, whatever the two hold and whatever follows the request line.
pub proof fn callback_hands_over_the_code(code: Seq<char>, state: Seq<char>, rest: Seq<char>)
    ensures
        judged("GET "@ + callback_target(code, state) + " "@ + rest, state)
            == (RedirectModel::Done {
            page: "klawply is connected. You can close this tab and return to the terminal."@,
            code,
        }),
{
    reveal_strlit("code");
    reveal_strlit("state");
    reveal_strlit("error");
    let target = callback_target(code, state);
    lemma_callback_params(code, state);
    lemma_callback_word(code, state, rest);
    assert(target.subrange(0, config::OAUTH_REDIRECT_PATH@.len() as int)
        =~= config::OAUTH_REDIRECT_PATH@);
    assert("code"@.len() == 4 && "state"@.len() == 5 && "error"@.len() == 5);
    assert("state"@[0] == 's' && "error"@[0] == 'e');
    assert("code"@ != "state"@);
    assert("error"@ != "state"@);
    assert("error"@ != "code"@);
}

/// A callback with another state is refused.
pub proof fn callback_with_another_state_is_refused(
    code: Seq<char>,
    state: Seq<char>,
    expected_state: Seq<char>,
    rest: Seq<char>,
)
    requires
        state != expected_state,
    ensures
        judged("GET "@ + callback_target(code, state) + " "@ + rest, expected_state) is Failed,
{
    reveal_strlit("code");
    reveal_strlit("state");
    reveal_strlit("error");
    let target = callback_target(code, state);
    lemma_callback_params(code, state);
    lemma_callback_word(code, state, rest);
    assert(target.subrange(0, config::OAUTH_REDIRECT_PATH@.len() as int)
        =~= config::OAUTH_REDIRECT_PATH@);
    assert("code"@.len() == 4 && "state"@.len() == 5 && "error"@.len() == 5);
    assert("state"@[0] == 's' && "error"@[0] == 'e');
    assert("code"@ != "state"@);
}

/// The claims of a JWT are the JSON of the bytes that its payload encodes,
/// whatever the header and the signature hold.
pub proof fn claims_are_read_from_the_payload(
    header: Seq<char>,
    payload: Seq<u8>,
    signature: Seq<char>,
)
    requires
        !header.contains('.'),
        !signature.contains('.'),
    ensures
        claims_of(header + seq!['.'] + b64::base64url(payload) + seq!['.'] + signature)
            == json::parsed_json_bytes(payload),
{
    let middle = b64::base64url(payload);
    assert forall|k: int| 0 <= k < middle.len() implies #[trigger] middle[k] != '.' by {
        b64::base64url_is_url_safe(payload, k);
    }
    words::lemma_one_piece(header, '.');
    words::lemma_piece_added(header, middle, '.');
    words::lemma_piece_added(header + seq!['.'] + middle, signature, '.');
    b64::base64url_round_trip(payload);
}

/// The account that claims tell of, if they tell of one.
pub open spec fn claimed_account(c: json::JsonTree) -> Option<Seq<char>> {
    match c.get("https://api.openai.com/auth"@) {
        Some(a) => a.text_at("chatgpt_account_id"@),
        None => None,
    }
}

/// The plan that claims tell of, if they tell of one.
pub open spec fn claimed_plan(c: json::JsonTree) -> Option<Seq<char>> {
    match c.get("https://api.openai.com/auth"@) {
        Some(a) => a.text_at("chatgpt_plan_type"@),
        None => None,
    }
}

/// What claims tell of is taken over: the email and the plan always, the account
/// where none is known. What they do not tell of stays.
pub proof fn claims_are_taken_over(t: TokensModel, c: json::JsonTree)
    ensures
        match c.get("email"@) {
            Some(json::JsonTree::Text(e)) => enriched(t, Some(c)).email == e,
            _ => enriched(t, Some(c)).email == t.email,
        },
        match claimed_plan(c) {
            Some(p) => enriched(t, Some(c)).plan == p,
            None => enriched(t, Some(c)).plan == t.plan,
        },
        match claimed_account(c) {
            Some(id) => enriched(t, Some(c)).account_id == if t.account_id.len() == 0 {
                id
            } else {
                t.account_id
            },
            None => enriched(t, Some(c)).account_id == t.account_id,
        },
{
}

/// After a refresh the account, the plan and the email are those of the id token
/// that is kept: the new one, or the old one where the answer brings none.
pub proof fn a_refresh_keeps_the_account(
    existing: TokensModel,
    resp: TokenResponse,
    id_token: Seq<char>,
    c: json::JsonTree,
)
    requires
        resp.id_token@.len() > 0 ==> id_token == resp.id_token@,
        resp.id_token@.len() == 0 ==> id_token == existing.id_token,
        claims_of(id_token) == Some(c),
    ensures
        claimed_account(c) matches Some(id) ==> refreshed(existing, resp).account_id == id,
        claimed_account(c) is None ==> refreshed(existing, resp).account_id.len() == 0,
        claimed_plan(c) matches Some(p) ==> refreshed(existing, resp).plan == p,
        claimed_plan(c) is None ==> refreshed(existing, resp).plan.len() == 0,
        c.get("email"@) matches Some(json::JsonTree::Text(e)) ==> refreshed(existing, resp).email
            == e,
        c.get("email"@) is None ==> refreshed(existing, resp).email.len() == 0,
{
}

/// Imported tokens tell of the stored account, or else of the one that the id
/// token claims; the plan and the email are those that it claims.
pub proof fn imported_tokens_tell_of_the_account(stored: StoredTokens, c: json::JsonTree)
    requires
        stored.access_token@.len() > 0,
        stored.refresh_token@.len() > 0,
        claims_of(stored.id_token@) == Some(c),
    ensures
        imported(Some(stored)) matches Some(t) && (stored.account_id@.len() > 0 ==> t.account_id
            == stored.account_id@) && (stored.account_id@.len() == 0 && claimed_account(c) is Some
            ==> t.account_id == claimed_account(c)->0) && (claimed_plan(c) is Some ==> t.plan
            == claimed_plan(c)->0) && (c.text_at("email"@) is Some ==> t.email == c.text_at(
            "email"@,
        )->0),
{
}

proof fn lemma_link_begins(challenge: Seq<char>, state: Seq<char>)
    ensures
        words::begins(
            authorize_url(challenge, state),
            config::OAUTH_AUTHORIZE_URL@ + "?response_type=code&client_id="@ + codec::url_encoded(
                config::OAUTH_CLIENT_ID@,
            ) + "&redirect_uri="@,
        ),
{
    let base = config::OAUTH_AUTHORIZE_URL@;
    let ask = "?response_type=code&client_id="@;
    let client = codec::url_encoded(config::OAUTH_CLIENT_ID@);
    let uri = codec::url_encoded(config::redirect_uri());
    let scope = codec::url_encoded(config::OAUTH_SCOPE@);
    let chal = codec::url_encoded(challenge);
    let st = codec::url_encoded(state);
    let options =
        "&code_challenge_method=S256&id_token_add_organizations=true&codex_cli_simplified_flow=true&state="@;
    let url = authorize_url(challenge, state);
    let start = base + ask + client + "&redirect_uri="@;
    let rest = uri + "&scope="@ + scope + "&code_challenge="@ + chal + options + st;
    assert(url =~= start + rest);
    words::texts_are_found_where_they_stand(Seq::empty(), start, rest);
}

proof fn lemma_link_redirects(challenge: Seq<char>, state: Seq<char>)
    ensures
        words::occurs(
            authorize_url(challenge, state),
            "&redirect_uri="@ + codec::url_encoded(config::redirect_uri()) + "&scope="@,
        ),
{
    let base = config::OAUTH_AUTHORIZE_URL@;
    let ask = "?response_type=code&client_id="@;
    let client = codec::url_encoded(config::OAUTH_CLIENT_ID@);
    let uri = codec::url_encoded(config::redirect_uri());
    let scope = codec::url_encoded(config::OAUTH_SCOPE@);
    let chal = codec::url_encoded(challenge);
    let st = codec::url_encoded(state);
    let options =
        "&code_challenge_method=S256&id_token_add_organizations=true&codex_cli_simplified_flow=true&state="@;
    let url = authorize_url(challenge, state);
    let middle = "&redirect_uri="@ + uri + "&scope="@;
    let start = base + ask + client;
    let rest = scope + "&code_challenge="@ + chal + options + st;
    assert(url =~= start + middle + rest);
    words::texts_are_found_where_they_stand(start, middle, rest);
}

proof fn lemma_link_asks(challenge: Seq<char>, state: Seq<char>)
    ensures
        words::occurs(
            authorize_url(challenge, state),
            "&scope="@ + codec::url_encoded(config::OAUTH_SCOPE@) + "&code_challenge="@,
        ),
{
    let base = config::OAUTH_AUTHORIZE_URL@;
    let ask = "?response_type=code&client_id="@;
    let client = codec::url_encoded(config::OAUTH_CLIENT_ID@);
    let uri = codec::url_encoded(config::redirect_uri());
    let scope = codec::url_encoded(config::OAUTH_SCOPE@);
    let chal = codec::url_encoded(challenge);
    let st = codec::url_encoded(state);
    let options =
        "&code_challenge_method=S256&id_token_add_organizations=true&codex_cli_simplified_flow=true&state="@;
    let url = authorize_url(challenge, state);
    let middle = "&scope="@ + scope + "&code_challenge="@;
    let start = base + ask + client + "&redirect_uri="@ + uri;
    let rest = chal + options + st;
    assert(url =~= start + middle + rest);
    words::texts_are_found_where_they_stand(start, middle, rest);
}

proof fn lemma_link_challenges(challenge: Seq<char>, state: Seq<char>)
    ensures
        words::occurs(
            authorize_url(challenge, state),
            "&code_challenge="@ + codec::url_encoded(challenge)
                + "&code_challenge_method=S256&id_token_add_organizations=true&codex_cli_simplified_flow=true&state="@,
        ),
{
    let base = config::OAUTH_AUTHORIZE_URL@;
    let ask = "?response_type=code&client_id="@;
    let client = codec::url_encoded(config::OAUTH_CLIENT_ID@);
    let uri = codec::url_encoded(config::redirect_uri());
    let scope = codec::url_encoded(config::OAUTH_SCOPE@);
    let chal = codec::url_encoded(challenge);
    let st = codec::url_encoded(state);
    let options =
        "&code_challenge_method=S256&id_token_add_organizations=true&codex_cli_simplified_flow=true&state="@;
    let url = authorize_url(challenge, state);
    let middle = "&code_challenge="@ + chal + options;
    let start = base + ask + client + "&redirect_uri="@ + uri + "&scope="@ + scope;
    assert(url =~= start + middle + st);
    words::texts_are_found_where_they_stand(start, middle, st);
}

proof fn lemma_link_ends(challenge: Seq<char>, state: Seq<char>)
    ensures
        words::ends(
            authorize_url(challenge, state),
            "&code_challenge_method=S256&id_token_add_organizations=true&codex_cli_simplified_flow=true&state="@
                + codec::url_encoded(state),
        ),
{
    let base = config::OAUTH_AUTHORIZE_URL@;
    let ask = "?response_type=code&client_id="@;
    let client = codec::url_encoded(config::OAUTH_CLIENT_ID@);
    let uri = codec::url_encoded(config::redirect_uri());
    let scope = codec::url_encoded(config::OAUTH_SCOPE@);
    let chal = codec::url_encoded(challenge);
    let st = codec::url_encoded(state);
    let options =
        "&code_challenge_method=S256&id_token_add_organizations=true&codex_cli_simplified_flow=true&state="@;
    let url = authorize_url(challenge, state);
    let start = base + ask + client + "&redirect_uri="@ + uri + "&scope="@ + scope
        + "&code_challenge="@ + chal;
    let end = options + st;
    assert(url =~= start + end);
    words::texts_are_found_where_they_stand(start, end, Seq::empty());
}

/// The link of a login leads to the authorize page and carries, each as it has to
/// be written in a link, the client, the redirect address, the scope, the
/// challenge and the state.
pub proof fn the_link_carries_the_login(challenge: Seq<char>, state: Seq<char>)
    ensures
        words::begins(
            authorize_url(challenge, state),
            config::OAUTH_AUTHORIZE_URL@ + "?response_type=code&client_id="@ + codec::url_encoded(
                config::OAUTH_CLIENT_ID@,
            ) + "&redirect_uri="@,
        ),
        words::occurs(
            authorize_url(challenge, state),
            "&redirect_uri="@ + codec::url_encoded(config::redirect_uri()) + "&scope="@,
        ),
        words::occurs(
            authorize_url(challenge, state),
            "&scope="@ + codec::url_encoded(config::OAUTH_SCOPE@) + "&code_challenge="@,
        ),
        words::occurs(
            authorize_url(challenge, state),
            "&code_challenge="@ + codec::url_encoded(challenge)
                + "&code_challenge_method=S256&id_token_add_organizations=true&codex_cli_simplified_flow=true&state="@,
        ),
        words::ends(
            authorize_url(challenge, state),
            "&code_challenge_method=S256&id_token_add_organizations=true&codex_cli_simplified_flow=true&state="@
                + codec::url_encoded(state),
        ),
{
    lemma_link_begins(challenge, state);
    lemma_link_redirects(challenge, state);
    lemma_link_asks(challenge, state);
    lemma_link_challenges(challenge, state);
    lemma_link_ends(challenge, state);
}

/// A parameter is read by its name, and its value as it was before it was written
/// for a link. A later one of the same name wins, and what has no `=` is no
/// parameter.
pub proof fn parameters_are_read_by_name(
    parts: Seq<Seq<char>>,
    name: Seq<char>,
    value: Seq<char>,
    stray: Seq<char>,
)
    requires
        !name.contains('='),
        !stray.contains('='),
    ensures
        query_params(parts.push(name + seq!['='] + codec::url_encoded(value))) == query_params(
            parts,
        ).insert(name, value),
        query_params(parts.push(stray)) == query_params(parts),
        query_params(Seq::empty()) == Map::<Seq<char>, Seq<char>>::empty(),
{
    let part = name + seq!['='] + codec::url_encoded(value);
    words::a_text_is_cut_at_the_first(name, '=', codec::url_encoded(value));
    words::a_text_is_cut_at_the_first(stray, '=', Seq::empty());
    codec::url_round_trip(value);
    assert(parts.push(part).drop_last() =~= parts);
    assert(parts.push(stray).drop_last() =~= parts);
}

/// What the callback's parameters come to: an error ends the login with that
/// error, a code with the right state ends it well, one with another state ends
/// it, and anything less is waited on.
pub proof fn the_callback_decides(
    params: Map<Seq<char>, Seq<char>>,
    expected_state: Seq<char>,
)
    ensures
        params.contains_key("error"@) ==> (judged_params(params, expected_state)
            matches RedirectModel::Failed { error, .. } && error == "OpenAI returned error: "@
            + params["error"@]),
        !params.contains_key("error"@) && params.contains_key("code"@) && params.contains_key(
            "state"@,
        ) && params["state"@] == expected_state ==> (judged_params(params, expected_state)
            matches RedirectModel::Done { code, .. } && code == params["code"@]),
        !params.contains_key("error"@) && params.contains_key("code"@) && params.contains_key(
            "state"@,
        ) && params["state"@] != expected_state ==> (judged_params(params, expected_state)
            matches RedirectModel::Failed { error, .. } && error
            == "OAuth state mismatch — possible CSRF, aborting."@),
        !params.contains_key("error"@) && !(params.contains_key("code"@) && params.contains_key(
            "state"@,
        )) ==> judged_params(params, expected_state) is Wait,
{
}

/// The form that exchanges a code holds the code and the verifier of this login,
/// the address that the browser was sent back to, and the client.
pub proof fn the_exchange_proves_the_login(code: Seq<char>, verifier: Seq<char>)
    ensures
        exchange_fields(code, verifier).len() == 5,
        exchange_fields(code, verifier).contains(("grant_type"@, "authorization_code"@)),
        exchange_fields(code, verifier).contains(("code"@, code)),
        exchange_fields(code, verifier).contains(("code_verifier"@, verifier)),
        exchange_fields(code, verifier).contains(("redirect_uri"@, config::redirect_uri())),
        exchange_fields(code, verifier).contains(("client_id"@, config::OAUTH_CLIENT_ID@)),
{
    let f = exchange_fields(code, verifier);
    assert(f[0] == ("grant_type"@, "authorization_code"@));
    assert(f[1] == ("code"@, code));
    assert(f[2] == ("redirect_uri"@, config::redirect_uri()));
    assert(f[3] == ("client_id"@, config::OAUTH_CLIENT_ID@));
    assert(f[4] == ("code_verifier"@, verifier));
}

/// The form that refreshes tokens holds the refresh token and the client.
pub proof fn the_refresh_shows_its_token(refresh_token: Seq<char>)
    ensures
        refresh_fields(refresh_token).len() == 3,
        refresh_fields(refresh_token).contains(("grant_type"@, "refresh_token"@)),
        refresh_fields(refresh_token).contains(("refresh_token"@, refresh_token)),
        refresh_fields(refresh_token).contains(("client_id"@, config::OAUTH_CLIENT_ID@)),
{
    let f = refresh_fields(refresh_token);
    assert(f[0] == ("grant_type"@, "refresh_token"@));
    assert(f[1] == ("refresh_token"@, refresh_token));
    assert(f[2] == ("client_id"@, config::OAUTH_CLIENT_ID@));
}

/// A token counts as expired from two minutes before its time on, and never where
/// it does not tell its time.
pub proof fn tokens_expire_two_minutes_early(c: json::JsonTree, exp: i64, shown: Seq<char>, now: int)
    ensures
        c.get("exp"@) == Some(json::JsonTree::Number(shown, Some(exp))) ==> (expired(Some(c), now)
            <==> exp - now <= 120),
        c.get("exp"@) is None ==> !expired(Some(c), now),
        !expired(None, now),
{
}

/// The page that answers the browser shows the message, and its length is told in
/// bytes.
pub proof fn the_answer_shows_the_message(message: Seq<char>)
    ensures
        words::occurs(page(message), "<p>"@ + message + "</p>"@),
        words::begins(
            http_ok(page(message)),
            "HTTP/1.1 200 OK\r\nContent-Type: text/html\r\nContent-Length: "@
                + decimal::decimal(utf8::byte_len(page(message))) + "\r\n"@,
        ),
        words::ends(http_ok(page(message)), "\r\n\r\n"@ + page(message)),
{
    let head =
        "<!doctype html><html><body style='background:#000;color:#0f6;font-family:monospace;text-align:center;padding-top:20vh'><h1 style='color:#0f6'>klawply</h1><p>"@;
    let foot = "</p></body></html>"@;
    reveal_strlit(
        "<!doctype html><html><body style='background:#000;color:#0f6;font-family:monospace;text-align:center;padding-top:20vh'><h1 style='color:#0f6'>klawply</h1><p>",
    );
    reveal_strlit("</p></body></html>");
    reveal_strlit("<p>");
    reveal_strlit("</p>");
    let n = head.len() - 3;
    assert(head =~= head.take(n) + "<p>"@);
    assert(foot =~= "</p>"@ + foot.skip(4));
    words::texts_are_found_where_they_stand(
        head.take(n),
        "<p>"@ + message + "</p>"@,
        foot.skip(4),
    );
    assert(page(message) =~= head.take(n) + ("<p>"@ + message + "</p>"@) + foot.skip(4));
    let body = page(message);
    let start = "HTTP/1.1 200 OK\r\nContent-Type: text/html\r\nContent-Length: "@
        + decimal::decimal(utf8::byte_len(body));
    let close = "\r\nConnection: close\r\n\r\n"@;
    reveal_strlit("\r\nConnection: close\r\n\r\n");
    reveal_strlit("\r\n\r\n");
    reveal_strlit("\r\n");
    assert(close =~= "\r\n"@ + close.skip(2));
    assert(close =~= close.take(close.len() - 4) + "\r\n\r\n"@);
    words::texts_are_found_where_they_stand(
        Seq::empty(),
        start + "\r\n"@,
        close.skip(2) + body,
    );
    assert(http_ok(body) =~= (start + "\r\n"@) + (close.skip(2) + body));
    words::texts_are_found_where_they_stand(
        start + close.take(close.len() - 4),
        "\r\n\r\n"@ + body,
        Seq::empty(),
    );
    assert(http_ok(body) =~= (start + close.take(close.len() - 4)) + ("\r\n\r\n"@ + body));
}

/// The challenge of a verifier is the URL-safe base64 of a digest of 32 bytes: it
/// decodes to the SHA-256 digest of the verifier.
pub proof fn the_challenge_is_a_digest(verifier: Seq<char>)
    ensures
        b64::base64url_decoded(challenge_of(verifier)) == Some(
            codec::sha256(encode_utf8(verifier)),
        ),
{
    b64::base64url_round_trip(codec::sha256(encode_utf8(verifier)));
}

/// Every phrase that tells of a dead login is noticed, whatever stands around it.
pub proof fn dead_logins_are_noticed(before: Seq<char>, after: Seq<char>)
    ensures
        tells_of_dead_login(before + "refresh_token_reused"@ + after),
        tells_of_dead_login(before + "invalid_grant"@ + after),
        tells_of_dead_login(before + "already been used"@ + after),
        tells_of_dead_login(before + "sign in again"@ + after),
        tells_of_dead_login(before + "signing in again"@ + after),
        tells_of_dead_login(before + "missing refresh token"@ + after),
        tells_of_dead_login(before + "no refresh token"@ + after),
{
    words::texts_are_found_where_they_stand(before, "refresh_token_reused"@, after);
    words::texts_are_found_where_they_stand(before, "invalid_grant"@, after);
    words::texts_are_found_where_they_stand(before, "already been used"@, after);
    words::texts_are_found_where_they_stand(before, "sign in again"@, after);
    words::texts_are_found_where_they_stand(before, "signing in again"@, after);
    words::texts_are_found_where_they_stand(before, "missing refresh token"@, after);
    words::texts_are_found_where_they_stand(before, "no refresh token"@, after);
}

/// The time is written in seconds, with a sign where it is before the epoch.
pub proof fn times_are_written_in_seconds(now: int)
    ensures
        now >= 0 ==> decimal::number_of(signed_decimal(now)) == now,
        now < 0 ==> signed_decimal(now)[0] == '-' && decimal::number_of(signed_decimal(now).skip(1))
            == -now,
{
    if now >= 0 {
        decimal::the_notation_stands_for_the_number(now as nat);
    } else {
        decimal::the_notation_stands_for_the_number((-now) as nat);
        assert(signed_decimal(now).skip(1) =~= decimal::decimal((-now) as nat));
    }
}

/// Tokens stand for the texts that they hold.
pub proof fn tokens_hold_the_texts(t: Tokens)
    ensures
        t@.access_token == t.access_token@,
        t@.refresh_token == t.refresh_token@,
        t@.id_token == t.id_token@,
        t@.account_id == t.account_id@,
        t@.plan == t.plan@,
        t@.email == t.email@,
        t@.usable() <==> t.access_token@.len() > 0 && t.refresh_token@.len() > 0,
{
}

} // verus!
