use klawply::auth::Tokens;
use klawply::field_map::FieldMap;
use klawply::json::{parse_json, Json};
use klawply::llm::{
    actions_of, chat_prompt, chat_streaming, check_completion, complete, complete_streaming,
    default_action, extract_fields, extract_output_text, extract_prompt, json_slice,
    map_form_values, map_prompt, parse_json_array, parse_json_object, plan_form_fill, plan_prompt,
    refused, request_body, stream_request, Action, Prompt, Reply, SseReader, CHAT_SYSTEM,
    EXTRACT_SYSTEM, MAP_SYSTEM, PLAN_SYSTEM,
};

fn map(pairs: &[(&str, &str)]) -> FieldMap {
    let mut m = FieldMap::new();
    for (k, v) in pairs {
        m.insert(k.to_string(), v.to_string());
    }
    m
}

fn action(json: &str) -> Option<Action> {
    Action::from_json(&parse_json(json).unwrap())
}

fn stream(lines: &[&str]) -> Reply {
    Reply::Stream { lines: lines.iter().map(|l| l.to_string()).collect(), broken: None }
}

#[test]
fn actions_have_defaults() {
    let a = action(r##"{"selector": "#a"}"##).unwrap();
    assert_eq!((a.selector.as_str(), a.action.as_str()), ("#a", "fill"));
    assert_eq!((a.value.as_str(), a.label.as_str()), ("", ""));
    assert_eq!(default_action(), "fill");
    let a = action(r##"{"label": "L", "value": "v", "action": "click", "selector": "#a", "x": 1}"##);
    let a = a.unwrap();
    assert_eq!((a.action.as_str(), a.value.as_str(), a.label.as_str()), ("click", "v", "L"));
}

#[test]
fn actions_need_a_selector_and_strings() {
    assert!(action("{}").is_none());
    assert!(action(r#"{"selector": 5}"#).is_none());
    assert!(action(r#"{"selector": "a", "value": 5}"#).is_none());
    assert!(action(r#"{"selector": "a", "label": null}"#).is_none());
    assert!(action("\"a\"").is_none());
    assert!(action("null").is_none());
}

#[test]
fn actions_may_be_arrays() {
    let a = action(r#"["s", "check"]"#).unwrap();
    assert_eq!((a.selector.as_str(), a.action.as_str(), a.value.as_str()), ("s", "check", ""));
    assert!(action(r#"["s", "a", "v", "l"]"#).is_some());
    assert!(action(r#"["s", "a", "v", "l", "x"]"#).is_none());
    assert!(action("[]").is_none());
    assert!(action(r#"["s", 1]"#).is_none());
}

#[test]
fn resume_prompt_holds_fields_and_resume() {
    let p = extract_prompt("my cv", &map(&[("email", "a@b")]));
    assert_eq!(p.system, EXTRACT_SYSTEM);
    assert_eq!(
        p.user,
        "Existing fields (JSON):\n{\"email\":\"a@b\"}\n\nResume text:\n\"\"\"\nmy cv\n\"\"\""
    );
    assert!(EXTRACT_SYSTEM.starts_with(
        "You extract structured job-application data from a resume. Respond with ONE JSON object"
    ));
    let long = extract_prompt(&"x".repeat(24_001), &map(&[]));
    assert!(long.user.ends_with("x…[truncated 1 bytes]\n\"\"\""));
}

#[test]
fn plan_prompt_holds_fields_and_page() {
    let p = plan_prompt("<form>", &map(&[("a", "1")]));
    assert_eq!(p.system, PLAN_SYSTEM);
    assert_eq!(
        p.user,
        "Applicant data (JSON):\n{\"a\":\"1\"}\n\nPage HTML:\n\"\"\"\n<form>\n\"\"\""
    );
    assert!(PLAN_SYSTEM.contains("Do NOT click the final submit button. Respond with the JSON"));
    let long = plan_prompt(&"y".repeat(120_002), &map(&[]));
    assert!(long.user.ends_with("y…[truncated 2 bytes]\n\"\"\""));
}

#[test]
fn chat_prompt_follows_the_history() {
    let p = chat_prompt("", "hi");
    assert_eq!(p.system, CHAT_SYSTEM);
    assert_eq!(p.user, "\nUser: hi");
    assert_eq!(chat_prompt("before", "hi").user, "before\nUser: hi");
}

#[test]
fn map_prompt_holds_names_and_values() {
    let p = map_prompt(&map(&[("Sex", "F")]), &map(&[("email", "x"), ("city", "y")])).unwrap();
    assert_eq!(p.system, MAP_SYSTEM);
    assert_eq!(
        p.user,
        "Existing profile keys: city, email\n\nObserved form values (JSON):\n{\"Sex\":\"F\"}"
    );
    assert!(map_prompt(&map(&[]), &map(&[("email", "x")])).is_none());
}

#[test]
fn fields_are_read_from_a_reply() {
    let reply = "Sure!\n```json\n{\"name\": \"Ada\", \"years\": 7, \"skip\": null}\n```".to_string();
    let m = extract_fields(Ok(reply.clone())).unwrap();
    assert_eq!(m.get("name"), Some(&"Ada".to_string()));
    assert_eq!(m.get("years"), Some(&"7".to_string()));
    assert_eq!(m.len(), 2);
    assert_eq!(map_form_values(&map(&[("a", "b")]), Ok(reply.clone())).unwrap().len(), 2);
    assert!(map_form_values(&map(&[]), Ok(reply)).unwrap().is_empty());
}

#[test]
fn replies_without_an_object_are_errors() {
    let fail = |s: &str| extract_fields(Ok(s.to_string())).unwrap_err();
    assert_eq!(fail("nothing"), "model did not return a JSON object");
    assert_eq!(fail("} {"), "model did not return a JSON object");
    assert_eq!(fail("{oops}"), "model output was not a valid JSON object");
    assert_eq!(extract_fields(Err("e".to_string())).unwrap_err(), "e");
    assert!(parse_json_object("{}").unwrap().is_empty());
}

#[test]
fn actions_are_read_from_a_reply() {
    let reply = r##"Plan: [{"selector": "#a"}, {"selector": "  "}, 5, {"selector": "#b", "action": "upload"}]"##;
    let actions = plan_form_fill(Ok(reply.to_string())).unwrap();
    let found: Vec<(&str, &str)> =
        actions.iter().map(|a| (a.selector.as_str(), a.action.as_str())).collect();
    assert_eq!(found, [("#a", "fill"), ("#b", "upload")]);
    assert!(actions_of(&vec![Json::Null]).is_empty());
}

#[test]
fn replies_without_an_array_are_errors() {
    let fail = |s: &str| plan_form_fill(Ok(s.to_string())).unwrap_err();
    assert_eq!(fail("{}"), "model did not return a JSON array");
    assert_eq!(fail("[oops]"), "model output was not a valid JSON array");
    assert_eq!(plan_form_fill(Err("e".to_string())).unwrap_err(), "e");
    assert_eq!(parse_json_array("[1, 2]").unwrap().len(), 2);
}

#[test]
fn slices_go_from_the_first_to_the_last_bracket() {
    assert_eq!(json_slice("a{b}c{d}e", '{', '}'), Some("{b}c{d}".to_string()));
    assert_eq!(json_slice("}{", '{', '}'), None);
    assert_eq!(json_slice("{", '{', '}'), None);
    assert_eq!(json_slice("é[…]", '[', ']'), Some("[…]".to_string()));
}

#[test]
fn request_is_posted_to_the_responses_endpoint() {
    let mut tokens = Tokens { access_token: "tok".to_string(), ..Tokens::default() };
    let prompt = Prompt { system: "S".to_string(), user: "U".to_string() };
    let r = stream_request(&tokens, "gpt-5.5", &prompt);
    assert_eq!(r.url, "https://chatgpt.com/backend-api/codex/responses");
    assert_eq!(r.user_agent, "codex-cli");
    assert_eq!(r.timeout_secs, 180);
    assert_eq!(r.bearer, "tok");
    assert_eq!(r.headers.len(), 4);
    assert_eq!(r.headers[1], ("originator".to_string(), "codex_cli_rs".to_string()));
    tokens.account_id = "acc".to_string();
    let r = stream_request(&tokens, "gpt-5.5", &prompt);
    assert_eq!(r.headers[4], ("ChatGPT-Account-Id".to_string(), "acc".to_string()));
}

#[test]
fn request_body_always_streams() {
    let prompt = Prompt { system: "S".to_string(), user: "U".to_string() };
    let b = request_body("m", &prompt);
    assert_eq!(b.text_at("model"), Some("m"));
    assert_eq!(b.text_at("instructions"), Some("S"));
    assert_eq!(b.get("stream").and_then(|v| v.as_bool()), Some(true));
    assert_eq!(b.get("store").and_then(|v| v.as_bool()), Some(false));
    assert_eq!(b.get("parallel_tool_calls").and_then(|v| v.as_bool()), Some(false));
    assert_eq!(b.text_at("tool_choice"), Some("none"));
    let message = &b.get("input").and_then(|v| v.as_array()).unwrap()[0];
    assert_eq!(message.text_at("type"), Some("message"));
    assert_eq!(message.text_at("role"), Some("user"));
    let part = &message.get("content").and_then(|v| v.as_array()).unwrap()[0];
    assert_eq!(part.text_at("type"), Some("input_text"));
    assert_eq!(part.text_at("text"), Some("U"));
}

#[test]
fn deltas_are_reassembled() {
    let r = complete_streaming(
        "gpt-5.4",
        stream(&[
            "event: response.output_text.delta\n",
            "data: {\"type\": \"response.output_text.delta\", \"delta\": \"Hel\"}\r\n",
            "\n",
            "data:{\"type\": \"response.output_text.delta\", \"delta\": \"lo\"}\n",
            "data: not json\n",
            "data: {\"type\": \"response.output_text.delta\"}\n",
            "data: {\"type\": \"other\", \"delta\": \"x\"}\n",
            "data: [DONE]\n",
        ]),
    );
    assert_eq!(r.deltas, ["Hel", "lo"]);
    assert_eq!(r.result, Ok("Hello".to_string()));
}

#[test]
fn closing_event_stands_in_for_missing_deltas() {
    let closing = r#"data: {"type": "response.completed", "response": {"output_text": "all"}}"#;
    assert_eq!(complete("m", stream(&[closing])), Ok("all".to_string()));
    let incomplete = r#"data: {"type": "response.incomplete", "response": {"output_text": "some"}}"#;
    assert_eq!(complete("m", stream(&[incomplete])), Ok("some".to_string()));
    let delta = r#"data: {"type": "output_text_delta", "delta": "d"}"#;
    assert_eq!(complete("m", stream(&[delta, closing])), Ok("d".to_string()));
    let empty = r#"data: {"type": "response.completed", "response": {}}"#;
    assert_eq!(complete("m", stream(&[closing, empty])), Ok("all".to_string()));
}

#[test]
fn shown_fragments_make_up_the_reply() {
    let lines: Vec<String> = ["a", " ", "b"]
        .iter()
        .map(|d| format!("data: {{\"type\": \"x.output_text.delta\", \"delta\": \"{d}\"}}"))
        .collect();
    let r = chat_streaming("m", Reply::Stream { lines, broken: None });
    assert_eq!(r.deltas.join(""), r.result.unwrap());
}

#[test]
fn events_can_be_applied_one_by_one() {
    let mut reader = SseReader::new();
    let event = parse_json(r#"{"type": "response.output_text.delta", "delta": "hi"}"#).unwrap();
    assert_eq!(reader.apply_event(&event), Some("hi".to_string()));
    assert_eq!(reader.feed_line(": comment"), None);
    assert_eq!(reader.feed_line("data:   "), None);
    assert_eq!(reader.finish(), "hi");
}

#[test]
fn empty_replies_are_errors() {
    assert_eq!(complete("gpt-5.4", stream(&[])).unwrap_err(), "empty completion from backend");
    assert_eq!(
        complete("gpt-5.5-x", stream(&[])).unwrap_err(),
        "empty completion from backend — the ChatGPT Codex backend may be silently rejecting \
         'gpt-5.5-x' on this account. Try KLAWPLY_MODEL=gpt-5.4 or gpt-5.3-codex."
    );
    assert!(check_completion("m", " \n".to_string()).is_err());
    assert_eq!(check_completion("m", " x ".to_string()), Ok(" x ".to_string()));
}

#[test]
fn failures_of_the_backend_are_reported() {
    assert_eq!(complete("m", Reply::Unsent("down".to_string())).unwrap_err(), "down");
    let refusal = Reply::Refused { status: "401 Unauthorized".to_string(), body: "no".to_string() };
    assert_eq!(
        complete("m", refusal).unwrap_err(),
        "ChatGPT backend returned 401 Unauthorized: no"
    );
    assert_eq!(
        refused("500", &"z".repeat(501)),
        format!("ChatGPT backend returned 500: {}…[truncated 1 bytes]", "z".repeat(500))
    );
    let broken = Reply::Stream {
        lines: vec!["data: {\"type\": \"output_text delta\", \"delta\": \"d\"}".to_string()],
        broken: Some("reset".to_string()),
    };
    let r = complete_streaming("m", broken);
    assert_eq!(r.deltas, ["d"]);
    assert_eq!(r.result.unwrap_err(), "reset");
}

#[test]
fn output_text_of_every_shape() {
    let text = |s: &str| extract_output_text(&parse_json(s).unwrap());
    assert_eq!(text(r#"{"output_text": "short", "output": []}"#), "short");
    assert_eq!(
        text(
            r#"{"output_text": "", "output": [
                {"type": "reasoning", "content": [{"type": "text", "text": "no"}]},
                {"type": "message", "content": [
                    {"type": "output_text", "text": "a"}, {"type": "text", "text": "b"},
                    {"type": "image", "text": "no"}, {"type": "text"}]},
                {"type": "message", "content": "no"},
                {"type": "message", "content": [{"type": "text", "text": "c"}]}]}"#
        ),
        "abc"
    );
    assert_eq!(text(r#"{"choices": [{"message": {"content": "chat"}}]}"#), "chat");
    assert_eq!(text(r#"{"choices": {"0": {"message": {"content": "odd"}}}}"#), "odd");
    assert_eq!(text(r#"{"choices": []}"#), "");
    assert_eq!(text("{}"), "");
    assert_eq!(text("[]"), "");
}
