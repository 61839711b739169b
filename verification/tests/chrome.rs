use klawply::browser::{
    check_ok, chrome_args, chrome_candidates, connect, fetch_ws_url, launch_chrome, launch_enabled, profile_path,
    safe_query, snapshot_values, wait_for_ws, Connect, Launch, Poll, Progress, Spawn, Task,
    SNAPSHOT_JS, SUBMITS_JS,
};
use klawply::config::Dir;
use klawply::json::{parse_json, Json};
use klawply::llm::Action;

fn action(kind: &str) -> Action {
    Action {
        selector: "#a".to_string(),
        action: kind.to_string(),
        value: "v\"</script>".to_string(),
        label: String::new(),
    }
}

#[test]
fn debugger_url_is_read_from_the_version() {
    let version = parse_json(r#"{"webSocketDebuggerUrl": "ws://x"}"#).unwrap();
    assert_eq!(fetch_ws_url(&version), Ok("ws://x".to_string()));
    assert_eq!(
        fetch_ws_url(&parse_json("{}").unwrap()).unwrap_err(),
        "no webSocketDebuggerUrl in /json/version"
    );
}

#[test]
fn chrome_is_attached_to_or_launched() {
    assert!(matches!(connect(Ok("ws://x".into()), &None), Connect::Attach(ws) if ws == "ws://x"));
    assert!(matches!(connect(Err("no".into()), &None), Connect::Launch));
    match connect(Err("refused".into()), &Some("1".into())) {
        Connect::Failed(e) => assert_eq!(
            e,
            "cannot reach Chrome debug port 9222 (refused). Start Chrome with: \
             google-chrome --remote-debugging-port=9222"
        ),
        other => panic!("{other:?}"),
    }
    assert!(launch_enabled(&None));
    assert!(launch_enabled(&Some("0".into())));
    assert!(!launch_enabled(&Some("true".into())));
}

#[test]
fn chrome_arguments() {
    assert_eq!(
        chrome_args("/k/chrome-profile", &None),
        [
            "--remote-debugging-port=9222",
            "--user-data-dir=/k/chrome-profile",
            "--remote-allow-origins=*",
            "--no-first-run",
            "--no-default-browser-check",
        ]
    );
    let headless = chrome_args("/k", &Some("1".into()));
    assert_eq!(headless.last().map(String::as_str), Some("--headless=new"));
    let profile = profile_path(Dir::At("/k"));
    assert_eq!(profile.parts, ["chrome-profile"]);
}

#[test]
fn named_binary_is_tried_first() {
    let names = chrome_candidates(Some("/opt/chrome".into()));
    assert_eq!(names[0], "/opt/chrome");
    assert_eq!(names[1], "google-chrome");
    assert_eq!(names.len(), 9);
    assert_eq!(chrome_candidates(Some("  ".into())).len(), 8);
    assert_eq!(chrome_candidates(None)[7], "/snap/bin/chromium");
}

#[test]
fn missing_binaries_make_way_for_the_next() {
    let names = vec!["one".to_string(), "two".to_string()];
    assert!(matches!(launch_chrome(&names, 0, Spawn::NotFound), Launch::Try(1)));
    assert!(matches!(launch_chrome(&names, 0, Spawn::Started), Launch::Launched));
    match launch_chrome(&names, 1, Spawn::NotFound) {
        Launch::Failed(e) => assert!(e.starts_with("could not find Chrome/Chromium to launch.")),
        other => panic!("{other:?}"),
    }
    match launch_chrome(&names, 1, Spawn::Failed("denied".into())) {
        Launch::Failed(e) => assert_eq!(e, "failed to launch two: denied"),
        other => panic!("{other:?}"),
    }
}

#[test]
fn debug_port_is_polled_75_times() {
    assert!(matches!(wait_for_ws(0, Err("no".into())), Poll::Again));
    assert!(matches!(wait_for_ws(73, Err("no".into())), Poll::Again));
    match wait_for_ws(74, Err("no".into())) {
        Poll::Failed(e) => {
            assert_eq!(e, "Chrome was launched but its debug port never became ready")
        }
        other => panic!("{other:?}"),
    }
    assert!(matches!(wait_for_ws(74, Ok("ws".into())), Poll::Ready(_)));
}

#[test]
fn selectors_fall_back_to_ids() {
    assert_eq!(
        safe_query("sel"),
        "(function(){ try { return document.querySelector(sel); } \
         catch (e) { return (sel && sel[0] === '#') \
         ? document.getElementById(sel.slice(1)) : null; } })()"
    );
}

fn click_on(selector: &str) -> Action {
    Action { selector: selector.to_string(), ..action("click") }
}

/// Whether a script asks what a click does.
fn asks(script: &str) -> bool {
    script.contains("return {submits: submits(")
}

fn next(progress: Progress) -> (Task, String, u64) {
    match progress {
        Progress::Next { task, script, millis } => (task, script, millis),
        other => panic!("{other:?}"),
    }
}

fn failure(progress: Progress) -> String {
    match progress {
        Progress::End(Err(e)) => e,
        other => panic!("{other:?}"),
    }
}

fn answer(said: &str) -> Result<Option<Json>, String> {
    Ok(parse_json(said))
}

#[test]
fn action_script_escapes_its_values() {
    let head = "(function(){\n            var sel = \"#a\", action = \"click\", value = \"v\\\"</script>\";\n            var el = (function(){ try";
    let (task, probe) = Task::apply(&action("CLICK"));
    assert!(probe.starts_with(head));
    let (_, script, _) = next(task.resume(answer(r#"{"submits": false}"#)));
    assert!(script.starts_with(head));
    assert!(script.ends_with("            return {ok:true};\n        })()"));
    assert!(script.contains("if (!el) return {ok:false, err:\"element not found\"};"));
    assert!(script.contains(
        "final submit\"};\n            el.scrollIntoView({block:\"center\"});\n            if (action === \"click\") { el.click(); return {ok:true}; }"
    ));
    assert!(!script.contains("{{"));
}

#[test]
fn dropdown_scripts_escape_their_values() {
    let (task, probe) = Task::select_custom("#\"t", "Fe\"male");
    let (task, open, _) = next(task.resume(answer(r#"{"submits": false}"#)));
    let head = "(function(){\n                var sel = \"#\\\"t\";\n";
    assert!(probe.starts_with(head) && open.starts_with(head));
    assert!(open.contains("dropdown not found"));
    let (task, probe, _) = next(task.resume(answer(r#"{"ok": true}"#)));
    let (_, pick, _) = next(task.resume(answer(r#"{"submits": false}"#)));
    let head = "(function(){\n                var want = \"Fe\\\"male\".trim().toLowerCase();\n";
    assert!(probe.starts_with(head) && pick.starts_with(head));
    assert!(pick.contains("replace(/\\s+/g,\" \")"));
    assert!(SNAPSHOT_JS.starts_with("(function(){\n    var out = {};"));
    assert!(SNAPSHOT_JS.ends_with("return out;\n})()"));
}

#[test]
fn shim_results_are_interpreted() {
    let check = |s: &str| check_ok(&parse_json(s).unwrap(), "#a");
    assert_eq!(check(r#"{"ok": true}"#), Ok(()));
    assert_eq!(check("{}"), Ok(()));
    assert_eq!(check(r#"{"ok": "false"}"#), Ok(()));
    assert_eq!(check("null"), Ok(()));
    assert_eq!(check(r#"{"ok": false, "err": "gone"}"#).unwrap_err(), "#a: gone");
    assert_eq!(check(r#"{"ok": false}"#).unwrap_err(), "#a: unknown");
}

#[test]
fn ordinary_actions_take_one_script() {
    for kind in ["fill", "select", "check", "uncheck", "", "clicks"] {
        let (task, script) = Task::apply(&action(kind));
        assert!(!asks(&script));
        assert!(script.contains(&format!("action = \"{kind}\"")));
        assert!(matches!(task.resume(Ok(None)), Progress::End(Ok(()))));
    }
    let (task, _) = Task::apply(&action("fill"));
    assert_eq!(failure(task.resume(Err("closed".into()))), "#a: eval failed: closed");
}

#[test]
fn clicks_are_made_where_they_submit_nothing() {
    for kind in ["click", "CLICK", "clic\u{212a}"] {
        let (task, probe) = Task::apply(&action(kind));
        assert!(asks(&probe) && !probe.contains(".click()"));
        let (task, script, millis) = next(task.resume(answer(r#"{"submits": false}"#)));
        assert!(!asks(&script) && script.contains("el.click()"));
        assert_eq!(millis, 0);
        // Both scripts find their target in the same way, and test it alike.
        let found = probe.split("\n            return {submits:").next().unwrap_or_default();
        assert!(script.starts_with(found));
        assert!(found.contains("if (inner) { el = inner;") && found.contains(SUBMITS_JS));
        assert!(matches!(task.resume(answer(r#"{"ok": true}"#)), Progress::End(Ok(()))));
    }
}

#[test]
fn clicks_are_made_where_no_answer_can_be_read() {
    let unread = [Ok(None), answer("null"), answer("{}"), answer(r#"{"submits": "true"}"#)];
    for outcome in unread {
        let (task, _) = Task::apply(&action("click"));
        let (task, script, _) = next(task.resume(outcome));
        assert!(script.contains("if (submits(el)) return {ok:false,"));
        assert!(script.contains("el.click()"));
        assert!(matches!(task.resume(Ok(None)), Progress::End(Ok(()))));
    }
}

#[test]
fn submit_is_not_clicked() {
    let refused = "button[type=submit]: not clicked, as it is the final submit";
    let mut click = action("click");
    click.selector = "button[type=submit]".to_string();
    let (task, probe) = Task::apply(&click);
    assert!(asks(&probe));
    assert_eq!(failure(task.resume(answer(r#"{"submits": true}"#))), refused);
    let (task, probe) = Task::select_custom("button[type=submit]", "x");
    assert!(asks(&probe));
    assert_eq!(failure(task.resume(answer(r#"{"submits": true}"#))), refused);

    let (task, _) = Task::select_custom("#t", "x");
    let (task, open, _) = next(task.resume(answer(r#"{"submits": false}"#)));
    assert!(open.contains("if (submits(el)) return {ok:false,"));
    let (task, probe, _) = next(task.resume(answer(r#"{"ok": true}"#)));
    assert!(asks(&probe));
    assert_eq!(
        failure(task.resume(answer(r#"{"submits": true}"#))),
        "#t: not clicked, as it is the final submit"
    );
}

#[test]
fn clicks_that_the_page_refuses_fail() {
    let (task, _) = Task::apply(&click_on("#s"));
    let (task, _, _) = next(task.resume(answer(r#"{"submits": false}"#)));
    let said = answer(r#"{"ok": false, "err": "not clicked, as it is the final submit"}"#);
    assert_eq!(failure(task.resume(said)), "#s: not clicked, as it is the final submit");
    let (task, _) = Task::apply(&click_on("#s"));
    assert_eq!(
        failure(task.resume(answer(r#"{"ok": false, "err": "element not found"}"#))),
        "#s: element not found"
    );
}

#[test]
fn custom_dropdowns_are_opened_and_picked_from() {
    let (task, probe) = Task::apply(&action("Select_Custom"));
    assert!(asks(&probe) && !probe.contains("dispatchEvent"));
    let (task, open, millis) = next(task.resume(answer(r#"{"submits": false}"#)));
    assert!(!asks(&open) && open.contains("el.dispatchEvent(new MouseEvent"));
    assert_eq!(millis, 0);
    let (task, probe, millis) = next(task.resume(answer(r#"{"ok": true}"#)));
    assert!(asks(&probe) && !probe.contains("dispatchEvent"));
    assert_eq!(millis, 450);
    let (task, pick, millis) = next(task.resume(answer(r#"{"submits": false}"#)));
    assert!(!asks(&pick) && pick.contains("target.dispatchEvent(new MouseEvent"));
    assert_eq!(millis, 0);
    assert!(matches!(task.resume(answer(r#"{"ok": true}"#)), Progress::End(Ok(()))));
}

#[test]
fn options_that_are_not_there_are_not_picked() {
    let (task, _) = Task::select_custom("#a", "x");
    let (task, _, _) = next(task.resume(answer(r#"{"submits": false}"#)));
    let (task, _, _) = next(task.resume(Ok(None)));
    let said = answer(r#"{"ok": false, "err": "no option matching 'x'"}"#);
    assert_eq!(failure(task.resume(said)), "#a: no option matching 'x'");
}

#[test]
fn failures_begin_with_the_selector() {
    let (task, _) = Task::select_custom("#t", "x");
    assert_eq!(
        failure(task.resume(Err("gone".into()))),
        "#t: could not open dropdown: gone"
    );
    let (task, _) = Task::select_custom("#t", "x");
    let (task, _, _) = next(task.resume(answer(r#"{"submits": false}"#)));
    let (task, _, _) = next(task.resume(Ok(None)));
    assert_eq!(failure(task.resume(Err("gone".into()))), "#t: could not pick option: gone");
}

#[test]
fn snapshots_leave_out_blanks() {
    let m = snapshot_values(&vec![
        ("a".to_string(), "1".to_string()),
        ("b".to_string(), " ".to_string()),
        ("c".to_string(), "3".to_string()),
    ]);
    assert_eq!(m.keys(), ["a", "c"]);
}
