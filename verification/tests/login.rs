use base64::Engine;
use klawply::auth::{
    access_is_expired, build_authorize_url, challenge, claims_expired, decode_jwt_payload,
    enrich_from_claims, ensure_fresh, exchange_code, exchange_form, is_relogin_error, judge_bytes,
    judge_request, load_existing, login, login_with, names_dead_login, now_iso, parse_query,
    refresh, refresh_form, respond, save, token_answer, wait_on, Freshness, Redirect, StoredTokens,
    TokenResponse, Tokens, LOGIN_TIMEOUT,
};
use klawply::json::parse_json;

fn jwt(payload: &str) -> String {
    let middle = base64::engine::general_purpose::URL_SAFE_NO_PAD.encode(payload);
    format!("header.{middle}.signature")
}

fn tokens(access: &str, refresh: &str, id: &str) -> Tokens {
    Tokens {
        access_token: access.to_string(),
        refresh_token: refresh.to_string(),
        id_token: id.to_string(),
        ..Tokens::default()
    }
}

const CLAIMS: &str = r#"{"email": "ada@example.org", "https://api.openai.com/auth": {"chatgpt_account_id": "acc-1", "chatgpt_plan_type": "plus"}}"#;

#[test]
fn tokens_are_usable_as_a_pair() {
    assert!(tokens("a", "r", "").is_usable());
    assert!(!tokens("a", "", "").is_usable());
    assert!(!tokens("", "r", "").is_usable());
    assert!(!Tokens::default().is_usable());
}

#[test]
fn claims_are_read_from_a_jwt() {
    let claims = decode_jwt_payload(&jwt(r#"{"exp": 5}"#)).unwrap();
    assert_eq!(claims.get("exp").and_then(|v| v.as_i64()), Some(5));
    assert!(decode_jwt_payload("no dots").is_none());
    assert!(decode_jwt_payload("a.!!.c").is_none());
    assert!(decode_jwt_payload("a.Zg.c").is_none());
    assert!(decode_jwt_payload("").is_none());
}

#[test]
fn claims_fill_in_account_plan_and_email() {
    let mut t = tokens("a", "r", "");
    enrich_from_claims(&mut t, &parse_json(CLAIMS));
    assert_eq!(t.email, "ada@example.org");
    assert_eq!(t.account_id, "acc-1");
    assert_eq!(t.plan, "plus");
    assert_eq!(t.access_token, "a");
}

#[test]
fn known_account_is_kept() {
    let mut t = tokens("a", "r", "");
    t.account_id = "known".to_string();
    enrich_from_claims(&mut t, &parse_json(CLAIMS));
    assert_eq!(t.account_id, "known");
    let mut u = tokens("a", "r", "");
    enrich_from_claims(&mut u, &None);
    assert_eq!(u.email, "");
    enrich_from_claims(&mut u, &parse_json(r#"{"email": 5, "https://api.openai.com/auth": []}"#));
    assert_eq!(u.email, "");
    assert_eq!(u.plan, "");
}

#[test]
fn saved_login_is_loaded_again() {
    let mut t = tokens("a", "r", &jwt(CLAIMS));
    t.account_id = "acc-9".to_string();
    let file = save(&t, 1_700_000_000);
    assert_eq!(file.openai_api_key, None);
    assert_eq!(file.last_refresh.as_deref(), Some("1700000000"));
    let back = load_existing(Some(file.tokens)).unwrap();
    assert_eq!(back.access_token, "a");
    assert_eq!(back.refresh_token, "r");
    assert_eq!(back.account_id, "acc-9");
    assert_eq!(back.plan, "plus");
    assert_eq!(back.email, "ada@example.org");
}

#[test]
fn incomplete_login_is_not_loaded() {
    let stored = |a: &str, r: &str| StoredTokens {
        access_token: a.to_string(),
        refresh_token: r.to_string(),
        id_token: String::new(),
        account_id: String::new(),
    };
    assert!(load_existing(Some(stored("a", ""))).is_none());
    assert!(load_existing(Some(stored("", "r"))).is_none());
    assert!(load_existing(None).is_none());
    assert!(load_existing(Some(stored("a", "r"))).is_some());
}

#[test]
fn timestamps_are_decimal_seconds() {
    assert_eq!(now_iso(0), "0");
    assert_eq!(now_iso(-12), "-12");
    assert_eq!(now_iso(i64::MIN), "-9223372036854775808");
}

#[test]
fn challenge_is_the_sha256_of_the_verifier() {
    assert_eq!(
        challenge("dBjftJeZ4CVP-mB92K27uhbUJU1p1r_wW1gFWFOEjXk"),
        "E9Melhoa2OwvFrEMTJguCHaoeK1t8URWbuGJSstw-cM"
    );
}

#[test]
fn authorize_url_is_encoded() {
    assert_eq!(
        build_authorize_url("chal", "a b&c"),
        "https://auth.openai.com/oauth/authorize?response_type=code\
         &client_id=app_EMoamEEZ73f0CkXaXp7hrann\
         &redirect_uri=http%3A%2F%2Flocalhost%3A1455%2Fauth%2Fcallback\
         &scope=openid%20profile%20email%20offline_access\
         &code_challenge=chal&code_challenge_method=S256&id_token_add_organizations=true\
         &codex_cli_simplified_flow=true&state=a%20b%26c"
    );
}

#[test]
fn every_login_has_its_own_secrets() {
    let a = login();
    let b = login();
    assert_eq!(a.verifier.len(), 86);
    assert_eq!(a.state.len(), 43);
    assert_ne!(a.verifier, b.verifier);
    assert_ne!(a.state, b.state);
    assert_eq!(a.authorize_url, build_authorize_url(&challenge(&a.verifier), &a.state));
    let c = login_with("v".to_string(), "s".to_string());
    assert_eq!(c.authorize_url, build_authorize_url(&challenge("v"), "s"));
}

#[test]
fn query_parameters_are_decoded() {
    let p = parse_query("a=1&b=x%20y&a=2&novalue&c=%zz&d=%ff&e==&=f");
    assert_eq!(p.get("a"), Some(&"2".to_string()));
    assert_eq!(p.get("b"), Some(&"x y".to_string()));
    assert_eq!(p.get("novalue"), None);
    assert_eq!(p.get("c"), Some(&"%zz".to_string()));
    assert_eq!(p.get("d"), Some(&"%ff".to_string()));
    assert_eq!(p.get("e"), Some(&"=".to_string()));
    assert_eq!(p.get(""), Some(&"f".to_string()));
}

#[test]
fn callback_with_the_state_hands_over_the_code() {
    let request = "GET /auth/callback?code=ab%2Bc&state=s1 HTTP/1.1\r\nHost: localhost\r\n\r\n";
    match judge_request(request, "s1") {
        Redirect::Done { code, page } => {
            assert_eq!(code, "ab+c");
            assert!(page.starts_with("klawply is connected."));
        }
        other => panic!("{other:?}"),
    }
    assert!(matches!(judge_bytes(request.as_bytes(), "s1"), Redirect::Done { .. }));
}

#[test]
fn callback_with_another_state_is_refused() {
    match judge_request("GET /auth/callback?code=x&state=s2 HTTP/1.1\r\n", "s1") {
        Redirect::Failed { error, page } => {
            assert_eq!(error, "OAuth state mismatch — possible CSRF, aborting.");
            assert_eq!(page, "State mismatch. You can close this tab.");
        }
        other => panic!("{other:?}"),
    }
}

#[test]
fn callback_with_an_error_is_refused() {
    match judge_request("GET /auth/callback?error=access_denied&code=x&state=s1 HTTP/1.1", "s1") {
        Redirect::Failed { error, .. } => {
            assert_eq!(error, "OpenAI returned error: access_denied")
        }
        other => panic!("{other:?}"),
    }
}

#[test]
fn other_requests_keep_the_listener_waiting() {
    for request in [
        "GET /favicon.ico HTTP/1.1\r\n",
        "GET /auth/callback HTTP/1.1",
        "GET /auth/callback?code=x HTTP/1.1",
        "GET /auth/callback?state=s1 HTTP/1.1",
        "GET",
        "",
        "\r\nGET /auth/callback?code=x&state=s1",
    ] {
        match judge_request(request, "s1") {
            Redirect::Wait { page } => assert_eq!(page, "Waiting for OpenAI…"),
            other => panic!("{request:?}: {other:?}"),
        }
    }
}

#[test]
fn requests_that_are_not_utf8_are_replaced() {
    let mut bytes = b"GET /auth/callback?code=".to_vec();
    bytes.push(0xff);
    bytes.extend_from_slice(b"&state=s1 HTTP/1.1");
    match judge_bytes(&bytes, "s1") {
        Redirect::Done { code, .. } => assert_eq!(code, "\u{fffd}"),
        other => panic!("{other:?}"),
    }
}

#[test]
fn response_counts_its_bytes() {
    let r = respond("Waiting for OpenAI…");
    let (head, body) = r.split_once("\r\n\r\n").unwrap();
    assert!(head.starts_with("HTTP/1.1 200 OK\r\nContent-Type: text/html\r\n"));
    assert!(head.contains(&format!("Content-Length: {}\r\n", body.len())));
    assert!(head.ends_with("Connection: close"));
    assert!(body.ends_with("<p>Waiting for OpenAI…</p></body></html>"));
}

#[test]
fn exchange_form_proves_the_verifier() {
    let form = exchange_form("c", "v");
    let form: Vec<(&str, &str)> = form.iter().map(|(k, v)| (k.as_str(), v.as_str())).collect();
    assert_eq!(
        form,
        [
            ("grant_type", "authorization_code"),
            ("code", "c"),
            ("redirect_uri", "http://localhost:1455/auth/callback"),
            ("client_id", "app_EMoamEEZ73f0CkXaXp7hrann"),
            ("code_verifier", "v"),
        ]
    );
}

fn response(access: &str, refresh: &str, id: &str) -> TokenResponse {
    TokenResponse {
        access_token: access.to_string(),
        refresh_token: refresh.to_string(),
        id_token: id.to_string(),
    }
}

#[test]
fn exchanged_code_gives_tokens() {
    let t = exchange_code(response("a", "r", &jwt(CLAIMS)));
    assert_eq!((t.access_token.as_str(), t.refresh_token.as_str()), ("a", "r"));
    assert_eq!(t.account_id, "acc-1");
}

#[test]
fn refresh_asks_with_the_refresh_token() {
    let form = refresh_form(&tokens("a", "r", "")).unwrap();
    let form: Vec<(&str, &str)> = form.iter().map(|(k, v)| (k.as_str(), v.as_str())).collect();
    assert_eq!(
        form,
        [
            ("grant_type", "refresh_token"),
            ("refresh_token", "r"),
            ("client_id", "app_EMoamEEZ73f0CkXaXp7hrann"),
        ]
    );
    assert_eq!(
        refresh_form(&tokens("a", "", "")).unwrap_err(),
        "no refresh token; please reconnect"
    );
}

#[test]
fn refresh_keeps_what_the_answer_leaves_out() {
    let old = tokens("a", "r", &jwt(CLAIMS));
    let t = refresh(&old, Ok(response("a2", "", ""))).unwrap();
    assert_eq!(t.access_token, "a2");
    assert_eq!(t.refresh_token, "r");
    assert_eq!(t.id_token, old.id_token);
    assert_eq!(t.plan, "plus");
    let t = refresh(&old, Ok(response("a2", "r2", "i2"))).unwrap();
    assert_eq!(t.refresh_token, "r2");
    assert_eq!(t.id_token, "i2");
    assert_eq!(t.plan, "");
}

#[test]
fn refresh_reports_what_went_wrong() {
    let bad = refresh(&tokens("a", "r", ""), Err("boom".to_string()));
    assert_eq!(bad.unwrap_err(), "boom");
    let none = refresh(&tokens("a", "", ""), Ok(response("a2", "r2", "")));
    assert_eq!(none.unwrap_err(), "no refresh token; please reconnect");
}

#[test]
fn token_endpoint_answers() {
    let ok = token_answer(true, "200 OK", "{}", Ok(response("a", "", ""))).unwrap();
    assert_eq!(ok.access_token, "a");
    assert_eq!(
        token_answer(false, "400 Bad Request", "nope", Ok(response("a", "", ""))).unwrap_err(),
        "token endpoint returned 400 Bad Request: nope"
    );
    assert_eq!(
        token_answer(true, "200 OK", "x", Err("expected value".to_string())).unwrap_err(),
        "bad token response: expected value — x"
    );
}

#[test]
fn expiry_has_a_skew_of_two_minutes() {
    let claims = parse_json(r#"{"exp": 1000}"#);
    assert!(!claims_expired(&claims, 879));
    assert!(claims_expired(&claims, 880));
    assert!(claims_expired(&claims, i64::MAX));
    assert!(!claims_expired(&parse_json(r#"{"exp": "1000"}"#), 5000));
    assert!(!claims_expired(&parse_json("{}"), 5000));
    assert!(!claims_expired(&None, 5000));
    let t = tokens(&jwt(r#"{"exp": 1000}"#), "r", "");
    assert!(access_is_expired(&t, 1000));
    assert!(!access_is_expired(&t, 100));
    assert!(!access_is_expired(&tokens("opaque", "r", ""), 1000));
}

#[test]
fn stale_tokens_have_to_be_refreshed() {
    let t = || tokens(&jwt(r#"{"exp": 1000}"#), "r", "");
    assert!(matches!(ensure_fresh(t(), 100), Freshness::Fresh(_)));
    assert!(matches!(ensure_fresh(t(), 900), Freshness::Stale(_)));
}

#[test]
fn dead_logins_are_recognised() {
    for e in [
        "REFRESH_TOKEN_REUSED",
        "Invalid_Grant",
        "it has Already Been Used",
        "please sign in again",
        "try signing in again",
        "missing refresh token",
        "no refresh token; please reconnect",
    ] {
        assert!(is_relogin_error(e), "{e}");
    }
    assert!(!is_relogin_error("timeout"));
    assert!(names_dead_login("invalid_grant"));
    assert!(!names_dead_login("INVALID_GRANT"));
}

#[test]
fn login_times_out() {
    assert_eq!(LOGIN_TIMEOUT, 300_000);
    assert_eq!(wait_on(0), Ok(300_000));
    assert_eq!(wait_on(299_999), Ok(1));
    for elapsed in [300_000, 300_001, u64::MAX] {
        assert_eq!(wait_on(elapsed).unwrap_err(), "login timed out");
    }
}
