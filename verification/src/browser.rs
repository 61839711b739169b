//! What to do with a debug-mode Chrome over the DevTools Protocol, and what its
//! answers come to.
//!
//! If nothing is listening on the debug port Chrome is launched (headed, with a
//! persistent profile under the data dir so that job-site logins survive across
//! runs); otherwise the running instance is attached to. The planned
//! fill/click/select actions are carried out by scripts. Values are set via a
//! small JS shim that also dispatches `input`/`change` events, which is what
//! React/Angular job forms need. The final submit of a form is not clicked:
//! submitting is left to the user. Talking to Chrome is left to the caller.
use crate::config;
use crate::config::{Dir, FilePath};
use crate::decimal;
use crate::field_map;
use crate::field_map::FieldMap;
use crate::json;
use crate::json::Json;
use crate::llm;
use crate::llm::Action;
use crate::text;
use crate::words;
use vstd::prelude::*;

verus! {

// ---------------------------------------------------------------------------
// Connecting
// ---------------------------------------------------------------------------
/// Chrome's websocket debugger URL, from the answer of its HTTP `/json/version`
/// endpoint.
pub fn fetch_ws_url(version: &Json) -> (r: Result<String, String>)
    ensures
        text::result_text(r) == match version@.text_at("webSocketDebuggerUrl"@) {
            Some(url) => Ok::<Seq<char>, Seq<char>>(url),
            None => Err("no webSocketDebuggerUrl in /json/version"@),
        },
{
    match version.text_at("webSocketDebuggerUrl") {
        Some(url) => Ok(text::owned(url)),
        None => Err(text::owned("no webSocketDebuggerUrl in /json/version")),
    }
}

/// Whether klawply may launch Chrome itself, given the value of
/// `KLAWPLY_NO_LAUNCH` (default yes; `1` opts out for users who manage Chrome
/// themselves).
pub fn launch_enabled(no_launch: &Option<String>) -> (r: bool)
    ensures
        r == !config::is_switch(text::opt_text(*no_launch)),
{
    !config::switched_on(no_launch)
}

/// How to get at a debug Chrome.
#[derive(Debug)]
pub enum Connect {
    /// Attach to the one at this URL.
    Attach(String),
    /// Launch one, then poll for it.
    Launch,
    /// Give up.
    Failed(String),
}

/// What is wrong where no debug Chrome is reached and none may be launched.
pub open spec fn unreachable_text(e: Seq<char>) -> Seq<char> {
    "cannot reach Chrome debug port "@ + decimal::decimal(config::CDP_PORT as nat) + " ("@ + e
        + "). Start Chrome with: google-chrome --remote-debugging-port="@ + decimal::decimal(
        config::CDP_PORT as nat,
    )
}

/// How to get at a debug Chrome, given what came of asking the debug port for
/// its URL: attach to it; if nothing is listening there, launch Chrome first
/// (unless `KLAWPLY_NO_LAUNCH` is set).
pub fn connect(fetched: Result<String, String>, no_launch: &Option<String>) -> (r: Connect)
    ensures
        match fetched {
            Ok(ws) => r == Connect::Attach(ws),
            Err(e) => if config::is_switch(text::opt_text(*no_launch)) {
                r matches Connect::Failed(why) && why@ == unreachable_text(e@)
            } else {
                r is Launch
            },
        },
{
    match fetched {
        Ok(ws) => Connect::Attach(ws),
        Err(e) => {
            if launch_enabled(no_launch) {
                return Connect::Launch;
            }
            let port = decimal::to_decimal(config::CDP_PORT as u64);
            let mut why = text::owned("cannot reach Chrome debug port ");
            why.append(port.as_str());
            why.append(" (");
            why.append(e.as_str());
            why.append("). Start Chrome with: google-chrome --remote-debugging-port=");
            why.append(port.as_str());
            Connect::Failed(why)
        },
    }
}

/// Where the Chrome profile is kept, so that job-site logins survive across
/// runs.
pub fn profile_path<P>(data_dir: Dir<P>) -> (r: FilePath<P>)
    ensures
        r@ == (config::FilePathModel { base: data_dir, parts: seq!["chrome-profile"@] }),
{
    config::file_in(data_dir, "chrome-profile")
}

/// The arguments that Chrome is launched with.
pub open spec fn launch_args(profile: Seq<char>, headless: bool) -> Seq<Seq<char>> {
    let always = seq![
        "--remote-debugging-port="@ + decimal::decimal(config::CDP_PORT as nat),
        "--user-data-dir="@ + profile,
        "--remote-allow-origins=*"@,
        "--no-first-run"@,
        "--no-default-browser-check"@,
    ];
    if headless {
        always.push("--headless=new"@)
    } else {
        always
    }
}

/// The arguments that Chrome is launched with: debug mode and a persistent
/// klawply profile; headless if `KLAWPLY_CHROME_HEADLESS` says so.
pub fn chrome_args(profile: &str, headless: &Option<String>) -> (r: Vec<String>)
    ensures
        text::texts(r@) == launch_args(profile@, config::is_switch(text::opt_text(*headless))),
{
    let mut args: Vec<String> = Vec::new();
    let port = decimal::to_decimal(config::CDP_PORT as u64);
    args.push(text::chained("--remote-debugging-port=", port.as_str()));
    args.push(text::chained("--user-data-dir=", profile));
    // Chrome 111+ rejects CDP websockets unless the origin is allow-listed.
    args.push(text::owned("--remote-allow-origins=*"));
    args.push(text::owned("--no-first-run"));
    args.push(text::owned("--no-default-browser-check"));
    if config::switched_on(headless) {
        args.push(text::owned("--headless=new"));
    }
    assert(text::texts(args@) =~= launch_args(
        profile@,
        config::is_switch(text::opt_text(*headless)),
    ));
    args
}

/// The names that Chrome goes by.
pub open spec fn known_binaries() -> Seq<Seq<char>> {
    seq![
        "google-chrome"@,
        "google-chrome-stable"@,
        "chromium"@,
        "chromium-browser"@,
        "chrome"@,
        "/usr/bin/google-chrome"@,
        "/usr/bin/chromium"@,
        "/snap/bin/chromium"@,
    ]
}

/// The binaries to try, in their order.
pub open spec fn candidates(explicit: Option<Seq<char>>) -> Seq<Seq<char>> {
    match explicit {
        Some(e) => if text::is_blank(e) {
            known_binaries()
        } else {
            seq![e] + known_binaries()
        },
        None => known_binaries(),
    }
}

/// Candidate Chrome/Chromium binaries, honouring `KLAWPLY_CHROME` first.
pub fn chrome_candidates(explicit: Option<String>) -> (r: Vec<String>)
    ensures
        text::texts(r@) == candidates(text::opt_text(explicit)),
        r@.len() > 0,
{
    let mut names: Vec<String> = Vec::new();
    if let Some(e) = &explicit {
        if !text::blank(e.as_str()) {
            names.push(e.clone());
        }
    }
    names.push(text::owned("google-chrome"));
    names.push(text::owned("google-chrome-stable"));
    names.push(text::owned("chromium"));
    names.push(text::owned("chromium-browser"));
    names.push(text::owned("chrome"));
    names.push(text::owned("/usr/bin/google-chrome"));
    names.push(text::owned("/usr/bin/chromium"));
    names.push(text::owned("/snap/bin/chromium"));
    assert(text::texts(names@) =~= candidates(text::opt_text(explicit)));
    names
}

/// What came of starting a binary.
#[derive(Debug)]
pub enum Spawn {
    /// It runs.
    Started,
    /// There is none of that name.
    NotFound,
    /// It could not be started.
    Failed(String),
}

/// How launching Chrome goes on.
#[derive(Debug)]
pub enum Launch {
    /// Try the candidate at this place.
    Try(usize),
    /// Chrome was launched.
    Launched,
    /// Give up.
    Failed(String),
}

/// What is wrong where no candidate was found.
pub open spec fn no_chrome_text() -> Seq<char> {
    "could not find Chrome/Chromium to launch. Install it, set KLAWPLY_CHROME=/path/to/chrome, or start it yourself with --remote-debugging-port=9222"@
}

/// How launching Chrome goes on after the candidate at `tried`: a binary that
/// is not there makes way for the next.
pub fn launch_chrome(names: &Vec<String>, tried: usize, outcome: Spawn) -> (r: Launch)
    requires
        tried < names@.len(),
    ensures
        match outcome {
            Spawn::Started => r is Launched,
            Spawn::NotFound => if tried + 1 < names@.len() {
                r matches Launch::Try(next) && next == tried + 1
            } else {
                r matches Launch::Failed(why) && why@ == no_chrome_text()
            },
            Spawn::Failed(e) => r matches Launch::Failed(why) && why@ == "failed to launch "@
                + names@[tried as int]@ + ": "@ + e@,
        },
{
    match outcome {
        Spawn::Started => Launch::Launched,
        Spawn::NotFound => if names.len() - tried > 1 {
            Launch::Try(tried + 1)
        } else {
            Launch::Failed(
                text::owned(
                    "could not find Chrome/Chromium to launch. Install it, set KLAWPLY_CHROME=/path/to/chrome, or start it yourself with --remote-debugging-port=9222",
                ),
            )
        },
        Spawn::Failed(e) => {
            let mut why = text::owned("failed to launch ");
            why.append(names[tried].as_str());
            why.append(": ");
            why.append(e.as_str());
            Launch::Failed(why)
        },
    }
}

/// How often the debug port is polled after a launch (for about 15 s).
pub const POLLS: u32 = 75;

/// The time between two polls, in milliseconds.
pub const POLL_MILLIS: u64 = 200;

/// How waiting for a launched Chrome goes on.
#[derive(Debug)]
pub enum Poll {
    /// It is ready, at this URL.
    Ready(String),
    /// Ask again after [`POLL_MILLIS`].
    Again,
    /// Give up.
    Failed(String),
}

/// How waiting goes on, given how often the port was polled before and what
/// came of polling it now.
pub fn wait_for_ws(polled_before: u32, fetched: Result<String, String>) -> (r: Poll)
    ensures
        match fetched {
            Ok(ws) => r == Poll::Ready(ws),
            Err(_) => if polled_before + 1 < POLLS {
                r is Again
            } else {
                r matches Poll::Failed(why) && why@
                    == "Chrome was launched but its debug port never became ready"@
            },
        },
{
    match fetched {
        Ok(ws) => Poll::Ready(ws),
        Err(_) => if polled_before < POLLS - 1 {
            Poll::Again
        } else {
            Poll::Failed(text::owned("Chrome was launched but its debug port never became ready"))
        },
    }
}

// ---------------------------------------------------------------------------
// Scripts
// ---------------------------------------------------------------------------
/// What stands before the trigger in the script that opens a dropdown.
pub const OPEN_HEAD: &'static str = r#"(function(){
                var sel = "#;

/// What stands between the trigger and its query.
pub const OPEN_QUERY: &'static str = r#";
                var el = "#;

/// What stands behind the query: a trigger that is not there.
pub const OPEN_FOUND: &'static str = r#";
                if (!el) return {ok:false, err:"dropdown not found"};"#;

/// The click on the trigger.
pub const OPEN_TAIL: &'static str = r#"
                el.scrollIntoView({block:"center"});
                ["pointerdown","mousedown","mouseup","click"].forEach(function(t){
                    el.dispatchEvent(new MouseEvent(t, {bubbles:true}));
                });
                return {ok:true};
            })()"#;

/// What stands before the value in the script that picks an option.
pub const PICK_HEAD: &'static str = r#"(function(){
                var want = "#;

/// What stands behind the value: the option that is meant.
pub const PICK_FOUND: &'static str = r#".trim().toLowerCase();
                if (!want) return {ok:false, err:"no value to match"};
                var sel = '[role=option],[role=menuitem],[role=menuitemradio],li,' +
                          '[class*=option],[class*=Option],[class*=item],[class*=result]';
                var nodes = Array.prototype.slice.call(document.querySelectorAll(sel));
                var visible = nodes.filter(function(n){
                    var r = n.getBoundingClientRect();
                    return r.width > 0 && r.height > 0;
                });
                function txt(n){ return (n.textContent||"").replace(/\s+/g," ").trim().toLowerCase(); }
                var exact = visible.find(function(n){ return txt(n) === want; });
                var target = exact || visible.find(function(n){ return txt(n).indexOf(want) >= 0; });
                if (!target) return {ok:false, err:"no option matching '"+want+"'"};"#;

/// The click on the option.
pub const PICK_TAIL: &'static str = r#"
                target.scrollIntoView({block:"center"});
                ["pointerdown","mousedown","mouseup","click"].forEach(function(t){
                    target.dispatchEvent(new MouseEvent(t, {bubbles:true}));
                });
                return {ok:true};
            })()"#;

/// What stands before the selector in the script of an action.
pub const ACTION_HEAD: &'static str = r#"(function(){
            var sel = "#;

/// What stands between the selector and the action.
pub const ACTION_KIND: &'static str = r#", action = "#;

/// What stands between the action and the value.
pub const ACTION_VALUE: &'static str = r#", value = "#;

/// What stands between the value and the query.
pub const ACTION_QUERY: &'static str = r#";
            var el = "#;

/// What stands behind the query: the control that is meant.
pub const ACTION_FOUND: &'static str = r#";
            if (!el) return {ok:false, err:"element not found"};
            // The model sometimes targets a wrapper (a custom element like
            // <spl-form-element> or a label/div) rather than the control itself.
            // Drill into the real input/textarea/select so value-setting works.
            var TAG = (el.tagName || "").toUpperCase();
            if (TAG !== "INPUT" && TAG !== "TEXTAREA" && TAG !== "SELECT"
                && !el.isContentEditable && el.querySelector) {
                var inner = el.querySelector(
                    "input, textarea, select, [contenteditable=true],[contenteditable='']");
                if (inner) { el = inner; TAG = (el.tagName || "").toUpperCase(); }
            }"#;

/// What is done to the control.
pub const ACTION_TAIL: &'static str = r#"
            el.scrollIntoView({block:"center"});
            if (action === "click") { el.click(); return {ok:true}; }
            if (action === "check" || action === "uncheck") {
                el.checked = (action === "check");
                el.dispatchEvent(new Event("input", {bubbles:true}));
                el.dispatchEvent(new Event("change", {bubbles:true}));
                return {ok:true};
            }
            if (action === "select" && el.options) {
                var opts = Array.prototype.slice.call(el.options);
                var match = opts.find(function(o){
                    return o.value === value || (o.text || "").trim() === value;
                });
                if (!match) return {ok:false, err:"no matching option"};
                el.value = match.value;
                el.dispatchEvent(new Event("change", {bubbles:true}));
                return {ok:true};
            }
            // default: fill. Contenteditable rich-text fields have no value.
            if (el.isContentEditable) {
                el.focus();
                el.textContent = value;
                el.dispatchEvent(new Event("input", {bubbles:true}));
                el.dispatchEvent(new Event("change", {bubbles:true}));
                return {ok:true};
            }
            // Find the native `value` setter on el's OWN prototype chain. Picking
            // it by tag name (HTMLInputElement.prototype) throws "Illegal
            // invocation" when el is a subclass/custom element; walking el's real
            // chain also intentionally skips React's own-property override.
            function nativeSetter(node){
                for (var p = Object.getPrototypeOf(node); p; p = Object.getPrototypeOf(p)) {
                    var d = Object.getOwnPropertyDescriptor(p, "value");
                    if (d && typeof d.set === "function") return d.set;
                }
                return null;
            }
            el.focus();
            var setter = nativeSetter(el);
            try {
                if (setter) setter.call(el, value); else el.value = value;
            } catch (e) {
                try { el.value = value; }
                catch (e2) { return {ok:false, err:"cannot set value: " + e2}; }
            }
            el.dispatchEvent(new Event("input", {bubbles:true}));
            el.dispatchEvent(new Event("change", {bubbles:true}));
            return {ok:true};
        })()"#;

/// The test whether a click is on the final submit of a form. It is on anything
/// in a button that says "submit" and does not lead on to another page, on a
/// link that begins so, on a submit button of a form that says that it applies
/// or sends the application or (as an `<input>`) says nothing, and on the label
/// of one of these. A submit button that says something else, such as "Next", is
/// not the final one.
pub const SUBMITS_JS: &'static str = r#"
            function submits(n){
                var is = Element.prototype.matches, up = Element.prototype.closest;
                function last(p){
                    if (!is.call(p, "button, input, a, [role=button], [type=submit]")
                        && !/button/i.test(p.tagName)) return false;
                    var input = p.tagName === "INPUT";
                    var type = (p.type || p.getAttribute("type") || "").toLowerCase();
                    if (input && !/^(submit|image|button)$/.test(type)) return false;
                    var sends = (type === "submit" || type === "image") && p.form !== null;
                    var said = [input ? p.value : p.textContent, p.getAttribute("aria-label")]
                        .map(function(s){ return (s || "").replace(/\s+/g, " ").trim(); })
                        .filter(function(s){ return s; });
                    if (!said.length) return input && type === "submit" && sends;
                    return said.some(function(s){
                        if (/\b(next|continue)\b/i.test(s)) return false;
                        if (p.tagName === "A") return /^submit\b/i.test(s);
                        if (/\bsubmit\b/i.test(s)) return true;
                        return sends && (/^apply( now)?$/i.test(s)
                            || /^(send|finish|complete)( (my|your|the))? application$/i.test(s));
                    });
                }
                function within(p){
                    for (; p; p = p.parentElement) { if (last(p)) return true; }
                    return false;
                }
                var label = up.call(n, "label");
                return within(n) || within(label && label.control);
            }"#;

/// What stands between the test and the JS variable of the target in a script
/// that asks.
pub const PROBE_HEAD: &'static str = r#"
            return {submits: submits("#;

/// What stands behind the JS variable of the target.
pub const PROBE_TAIL: &'static str = r#")};
        })()"#;

/// What stands between the test and the JS variable of the target in a script
/// that clicks.
pub const GUARD_HEAD: &'static str = r#"
            if (submits("#;

/// What stands behind the JS variable of the target.
pub const GUARD_TAIL: &'static str = r#")) return {ok:false, err:"not clicked, as it is the final submit"};"#;

/// Collects current values keyed by the best identifier there is.
pub const SNAPSHOT_JS: &'static str = r#"(function(){
    var out = {};
    var nodes = document.querySelectorAll("input, textarea, select");
    for (var i = 0; i < nodes.length; i++) {
        var el = nodes[i];
        var type = (el.type || "").toLowerCase();
        if (type === "password" || type === "hidden" || type === "file") continue;
        var key = el.name || el.id || el.getAttribute("aria-label") || el.placeholder;
        if (!key) continue;
        var val = (type === "checkbox" || type === "radio")
            ? (el.checked ? "true" : "")
            : (el.value || "");
        if (val) out[key] = val;
    }
    return out;
})()"#;

/// The JSON literal of a text, which is also a JS string literal.
pub open spec fn literal(s: Seq<char>) -> Seq<char> {
    json::rendered_json(json::JsonTree::Text(s))
}

/// The expression that resolves the selector held in the JS variable `v`.
pub open spec fn query_script(v: Seq<char>) -> Seq<char> {
    "(function(){ try { return document.querySelector("@ + v + "); } catch (e) { return ("@ + v
        + " && "@ + v + "[0] === '#') ? document.getElementById("@ + v
        + ".slice(1)) : null; } })()"@
}

/// A JS expression that resolves the selector held in the JS variable named
/// `var_name`. Falls back to `getElementById` when `querySelector` throws: real
/// job forms use ids that aren't valid CSS selectors (e.g. ones starting with a
/// digit like `#280cb238-…`), which would otherwise throw a `SyntaxError`.
pub fn safe_query(var_name: &str) -> (r: String)
    ensures
        r@ == query_script(var_name@),
{
    let mut r = text::owned("(function(){ try { return document.querySelector(");
    r.append(var_name);
    r.append("); } catch (e) { return (");
    r.append(var_name);
    r.append(" && ");
    r.append(var_name);
    r.append("[0] === '#') ? document.getElementById(");
    r.append(var_name);
    r.append(".slice(1)) : null; } })()");
    r
}

/// The end of a script that asks whether a click on the target held in the JS
/// variable `v` is on the final submit.
pub open spec fn probe(v: Seq<char>) -> Seq<char> {
    SUBMITS_JS@ + PROBE_HEAD@ + v + PROBE_TAIL@
}

/// What stands before a click on the target held in the JS variable `v`: a
/// target that is the final submit is not clicked.
pub open spec fn guard(v: Seq<char>) -> Seq<char> {
    SUBMITS_JS@ + GUARD_HEAD@ + v + GUARD_TAIL@
}

fn append_probe(script: &mut String, var_name: &str)
    ensures
        final(script)@ == old(script)@ + probe(var_name@),
{
    let ghost before = script@;
    script.append(SUBMITS_JS);
    script.append(PROBE_HEAD);
    script.append(var_name);
    script.append(PROBE_TAIL);
    assert(script@ =~= before + probe(var_name@));
}

fn append_guard(script: &mut String, var_name: &str)
    ensures
        final(script)@ == old(script)@ + guard(var_name@),
{
    let ghost before = script@;
    script.append(SUBMITS_JS);
    script.append(GUARD_HEAD);
    script.append(var_name);
    script.append(GUARD_TAIL);
    assert(script@ =~= before + guard(var_name@));
}

/// The start of the script of an action, which finds its control.
pub open spec fn action_target(a: llm::ActionModel) -> Seq<char> {
    ACTION_HEAD@ + literal(a.selector) + ACTION_KIND@ + literal(text::lowercase(a.action))
        + ACTION_VALUE@ + literal(a.value) + ACTION_QUERY@ + query_script("sel"@) + ACTION_FOUND@
}

/// The script of one action that does not click.
pub open spec fn action_script(a: llm::ActionModel) -> Seq<char> {
    action_target(a) + ACTION_TAIL@
}

/// The script of one action that clicks.
pub open spec fn click_script(a: llm::ActionModel) -> Seq<char> {
    action_target(a) + guard("el"@) + ACTION_TAIL@
}

/// The script that asks whether a click on the control of an action is on the
/// final submit.
pub open spec fn action_probe(a: llm::ActionModel) -> Seq<char> {
    action_target(a) + probe("el"@)
}

fn begin_action_script(action: &Action) -> (r: String)
    ensures
        r@ == action_target(action@),
        json::parsed_json(literal(action@.selector)) == Some(
            json::JsonTree::Text(action@.selector),
        ),
        json::parsed_json(literal(action@.value)) == Some(json::JsonTree::Text(action@.value)),
{
    let mut r = text::owned(ACTION_HEAD);
    r.append(json::json_string(action.selector.as_str()).as_str());
    r.append(ACTION_KIND);
    let kind = action.action.as_str().to_lowercase();
    r.append(json::json_string(kind.as_str()).as_str());
    r.append(ACTION_VALUE);
    r.append(json::json_string(action.value.as_str()).as_str());
    r.append(ACTION_QUERY);
    r.append(safe_query("sel").as_str());
    r.append(ACTION_FOUND);
    r
}

/// Builds a self-contained JS expression for one action, with all user values
/// JSON-escaped so they can't break out of the string: each literal reads back
/// as the text that it stands for.
fn build_action_script(action: &Action) -> (r: String)
    ensures
        r@ == action_script(action@),
        json::parsed_json(literal(action@.selector)) == Some(
            json::JsonTree::Text(action@.selector),
        ),
        json::parsed_json(literal(action@.value)) == Some(json::JsonTree::Text(action@.value)),
{
    let mut r = begin_action_script(action);
    r.append(ACTION_TAIL);
    r
}

/// Builds the script of an action that clicks.
fn build_click_script(action: &Action) -> (r: String)
    ensures
        r@ == click_script(action@),
{
    let mut r = begin_action_script(action);
    append_guard(&mut r, "el");
    r.append(ACTION_TAIL);
    r
}

/// Builds the script that asks whether a click on the control of an action is
/// on the final submit. The control is found as [`build_click_script`] finds it.
fn build_action_probe(action: &Action) -> (r: String)
    ensures
        r@ == action_probe(action@),
{
    let mut r = begin_action_script(action);
    append_probe(&mut r, "el");
    r
}

/// The start of a script on the trigger of a custom dropdown, which finds it.
pub open spec fn open_target(trigger: Seq<char>) -> Seq<char> {
    OPEN_HEAD@ + literal(trigger) + OPEN_QUERY@ + query_script("sel"@) + OPEN_FOUND@
}

/// The script that opens a custom dropdown.
pub open spec fn open_script(trigger: Seq<char>) -> Seq<char> {
    open_target(trigger) + guard("el"@) + OPEN_TAIL@
}

/// The script that asks whether a click on the trigger is on the final
/// submit.
pub open spec fn open_probe(trigger: Seq<char>) -> Seq<char> {
    open_target(trigger) + probe("el"@)
}

fn begin_open_script(trigger: &str) -> (r: String)
    ensures
        r@ == open_target(trigger@),
        json::parsed_json(literal(trigger@)) == Some(json::JsonTree::Text(trigger@)),
{
    let mut r = text::owned(OPEN_HEAD);
    r.append(json::json_string(trigger).as_str());
    r.append(OPEN_QUERY);
    r.append(safe_query("sel").as_str());
    r.append(OPEN_FOUND);
    r
}

/// Builds the script that clicks the trigger of a custom dropdown.
fn build_open_script(trigger: &str) -> (r: String)
    ensures
        r@ == open_script(trigger@),
        json::parsed_json(literal(trigger@)) == Some(json::JsonTree::Text(trigger@)),
{
    let mut r = begin_open_script(trigger);
    append_guard(&mut r, "el");
    r.append(OPEN_TAIL);
    r
}

/// Builds the script that asks whether a click on the trigger is on the final
/// submit.
fn build_open_probe(trigger: &str) -> (r: String)
    ensures
        r@ == open_probe(trigger@),
{
    let mut r = begin_open_script(trigger);
    append_probe(&mut r, "el");
    r
}

/// The start of a script on an option of a custom dropdown, which finds it.
pub open spec fn pick_target(value: Seq<char>) -> Seq<char> {
    PICK_HEAD@ + literal(value) + PICK_FOUND@
}

/// The script that picks an option of a custom dropdown.
pub open spec fn pick_script(value: Seq<char>) -> Seq<char> {
    pick_target(value) + guard("target"@) + PICK_TAIL@
}

/// The script that asks whether a click on the option is on the final
/// submit.
pub open spec fn pick_probe(value: Seq<char>) -> Seq<char> {
    pick_target(value) + probe("target"@)
}

fn begin_pick_script(value: &str) -> (r: String)
    ensures
        r@ == pick_target(value@),
        json::parsed_json(literal(value@)) == Some(json::JsonTree::Text(value@)),
{
    let mut r = text::owned(PICK_HEAD);
    r.append(json::json_string(value).as_str());
    r.append(PICK_FOUND);
    r
}

/// Builds the script that clicks the option whose visible text matches `value`.
fn build_pick_script(value: &str) -> (r: String)
    ensures
        r@ == pick_script(value@),
        json::parsed_json(literal(value@)) == Some(json::JsonTree::Text(value@)),
{
    let mut r = begin_pick_script(value);
    append_guard(&mut r, "target");
    r.append(PICK_TAIL);
    r
}

/// Builds the script that asks whether a click on the option is on the final
/// submit.
fn build_pick_probe(value: &str) -> (r: String)
    ensures
        r@ == pick_probe(value@),
{
    let mut r = begin_pick_script(value);
    append_probe(&mut r, "target");
    r
}

// ---------------------------------------------------------------------------
// Outcomes
// ---------------------------------------------------------------------------
/// What the `{ok, err}` object that the JS shims return comes to. An object
/// that says nothing of `ok` counts as success.
pub open spec fn shim_outcome(value: json::JsonTree, ctx: Seq<char>) -> Result<(), Seq<char>> {
    let ok = match value.get("ok"@) {
        Some(v) => v.as_bool() != Some(false),
        None => true,
    };
    let err = match value.text_at("err"@) {
        Some(e) => e,
        None => "unknown"@,
    };
    if ok {
        Ok(())
    } else {
        Err(ctx + ": "@ + err)
    }
}

/// Interprets the `{ok, err}` object returned by the JS shims.
pub fn check_ok(value: &Json, ctx: &str) -> (r: Result<(), String>)
    ensures
        text::unit_result_text(r) == shim_outcome(value@, ctx@),
{
    let ok = match value.get("ok") {
        Some(v) => match v.as_bool() {
            Some(b) => b,
            None => true,
        },
        None => true,
    };
    if ok {
        return Ok(());
    }
    let mut e = text::owned(ctx);
    e.append(": ");
    match value.text_at("err") {
        Some(err) => e.append(err),
        None => e.append("unknown"),
    }
    Err(e)
}

/// Where the carrying out of an action stands: which script is being evaluated.
#[derive(Debug, Clone, Copy, PartialEq, Eq, Structural)]
pub enum Stage {
    /// The script that asks what a planned click does.
    ProbeClick,
    /// The script of that click.
    Click,
    /// The script of an action that does not click.
    Fill,
    /// The script that asks what a click on the trigger of a dropdown does.
    ProbeOpen,
    /// The script that opens a custom dropdown.
    Open,
    /// The script that asks what a click on an option of it does.
    ProbePick,
    /// The script that picks the option.
    Pick,
}

/// An action that is being carried out. It is made by [`Task::apply`] and
/// [`Task::select_custom`] alone, and goes on by [`Task::resume`] alone.
#[derive(Debug)]
pub struct Task {
    /// Which script is being evaluated.
    stage: Stage,
    /// The selector of the target.
    selector: String,
    /// What to do.
    kind: String,
    /// The value to set or pick.
    value: String,
}

/// The time that an option list is given to render, in milliseconds.
pub const MENU_MILLIS: u64 = 450;

/// How carrying out an action goes on.
#[derive(Debug)]
pub enum Progress {
    /// Wait, then evaluate this script.
    Next {
        /// The action.
        task: Task,
        /// The script.
        script: String,
        /// How long to wait, in milliseconds.
        millis: u64,
    },
    /// The action is done.
    End(Result<(), String>),
}

/// What came of evaluating a script: an error, or the value that it returned if
/// that could be read.
pub type Outcome = Result<Option<json::JsonTree>, Seq<char>>;

/// An outcome, as texts and trees.
pub open spec fn outcome_of(outcome: Result<Option<Json>, String>) -> Outcome {
    match outcome {
        Ok(Some(v)) => Ok(Some(v@)),
        Ok(None) => Ok(None),
        Err(e) => Err(e@),
    }
}

/// What a failed evaluation is called, by the script.
pub open spec fn stage_failure(stage: Stage) -> Seq<char> {
    match stage {
        Stage::ProbeClick | Stage::Click | Stage::Fill => ": eval failed: "@,
        Stage::ProbeOpen | Stage::Open => ": could not open dropdown: "@,
        Stage::ProbePick | Stage::Pick => ": could not pick option: "@,
    }
}

/// What an evaluation comes to: an error of its own, or what the shim returned.
/// A script that returned nothing readable counts as success.
pub open spec fn evaluated(stage: Stage, selector: Seq<char>, outcome: Outcome) -> Result<
    (),
    Seq<char>,
> {
    match outcome {
        Ok(Some(v)) => shim_outcome(v, selector),
        Ok(None) => Ok(()),
        Err(e) => Err(selector + stage_failure(stage) + e),
    }
}

/// Whether a script that asked what a click does was told that it is on the final
/// submit.
pub open spec fn told_submit(outcome: Outcome) -> bool {
    outcome matches Ok(Some(v)) && v.get("submits"@) == Some(json::JsonTree::Bool(true))
}

/// What is wrong with a click on the final submit.
pub open spec fn refusal(selector: Seq<char>) -> Seq<char> {
    selector + ": not clicked, as it is the final submit"@
}

/// What a [`Task`] stands for.
#[verifier::ext_equal]
pub struct TaskModel {
    /// Which script is being evaluated.
    pub stage: Stage,
    /// The selector of the target.
    pub selector: Seq<char>,
    /// What to do.
    pub kind: Seq<char>,
    /// The value to set or pick.
    pub value: Seq<char>,
}

/// What a [`Progress`] stands for.
pub enum ProgressModel {
    /// The next script, after a wait.
    Next {
        /// The action.
        task: TaskModel,
        /// The script.
        script: Seq<char>,
        /// How long to wait, in milliseconds.
        millis: int,
    },
    /// The action is done.
    End(Result<(), Seq<char>>),
}

impl View for Task {
    type V = TaskModel;

    closed spec fn view(&self) -> TaskModel {
        TaskModel {
            stage: self.stage,
            selector: self.selector@,
            kind: self.kind@,
            value: self.value@,
        }
    }
}

impl View for Progress {
    type V = ProgressModel;

    open spec fn view(&self) -> ProgressModel {
        match self {
            Progress::Next { task, script, millis } => ProgressModel::Next {
                task: task@,
                script: script@,
                millis: *millis as int,
            },
            Progress::End(end) => ProgressModel::End(text::unit_result_text(*end)),
        }
    }
}

impl TaskModel {
    /// A dropdown that is to be opened.
    pub open spec fn dropdown(trigger: Seq<char>, value: Seq<char>) -> TaskModel {
        TaskModel {
            stage: Stage::ProbeOpen,
            selector: trigger,
            kind: "select_custom"@,
            value,
        }
    }

    /// A planned action that is begun. One that clicks is begun by asking what
    /// the click does.
    pub open spec fn begun(a: llm::ActionModel) -> TaskModel {
        if text::ascii_lowered(a.action) == text::ascii_lowered("select_custom"@) {
            TaskModel::dropdown(a.selector, a.value)
        } else {
            TaskModel {
                stage: if text::lowercase(a.action) == "click"@ {
                    Stage::ProbeClick
                } else {
                    Stage::Fill
                },
                selector: a.selector,
                kind: a.action,
                value: a.value,
            }
        }
    }

    /// The same action with another script.
    pub open spec fn at(self, stage: Stage) -> TaskModel {
        TaskModel { stage, ..self }
    }

    /// The action, without a label.
    pub open spec fn action(self) -> llm::ActionModel {
        llm::ActionModel {
            selector: self.selector,
            action: self.kind,
            value: self.value,
            label: Seq::empty(),
        }
    }

    /// The script that is evaluated.
    pub open spec fn script(self) -> Seq<char> {
        match self.stage {
            Stage::ProbeClick => action_probe(self.action()),
            Stage::Click => click_script(self.action()),
            Stage::Fill => action_script(self.action()),
            Stage::ProbeOpen => open_probe(self.selector),
            Stage::Open => open_script(self.selector),
            Stage::ProbePick => pick_probe(self.value),
            Stage::Pick => pick_script(self.value),
        }
    }

    /// Whether the script asks what a click does.
    pub open spec fn asks(self) -> bool {
        self.stage is ProbeClick || self.stage is ProbeOpen || self.stage is ProbePick
    }

    /// Whether the script clicks.
    pub open spec fn clicks(self) -> bool {
        match self.stage {
            Stage::Click | Stage::Open | Stage::Pick => true,
            Stage::Fill => text::lowercase(self.kind) == "click"@,
            _ => false,
        }
    }

    /// The start of the script, which finds the target of a click.
    pub open spec fn target(self) -> Seq<char> {
        match self.stage {
            Stage::ProbeOpen | Stage::Open => open_target(self.selector),
            Stage::ProbePick | Stage::Pick => pick_target(self.value),
            _ => action_target(self.action()),
        }
    }

    /// The JS variable that holds the target of a click.
    pub open spec fn target_variable(self) -> Seq<char> {
        match self.stage {
            Stage::ProbePick | Stage::Pick => "target"@,
            _ => "el"@,
        }
    }

    /// The next script, after a wait.
    pub open spec fn goes_on(self, stage: Stage, millis: int) -> ProgressModel {
        ProgressModel::Next { task: self.at(stage), script: self.at(stage).script(), millis }
    }

    /// How the action goes on, given what came of its script. A click follows
    /// unless it was found to be on the final submit.
    pub open spec fn resumed(self, outcome: Outcome) -> ProgressModel {
        match evaluated(self.stage, self.selector, outcome) {
            Err(e) => ProgressModel::End(Err(e)),
            Ok(_) => match self.stage {
                Stage::Click | Stage::Fill | Stage::Pick => ProgressModel::End(Ok(())),
                Stage::Open => self.goes_on(Stage::ProbePick, MENU_MILLIS as int),
                _ => if told_submit(outcome) {
                    ProgressModel::End(Err(refusal(self.selector)))
                } else {
                    self.goes_on(
                        match self.stage {
                            Stage::ProbeOpen => Stage::Open,
                            Stage::ProbePick => Stage::Pick,
                            _ => Stage::Click,
                        },
                        0,
                    )
                },
            },
        }
    }

    /// Where the action stands after some outcomes, if it has not ended.
    pub open spec fn after(self, outcomes: Seq<Outcome>) -> Option<TaskModel>
        decreases outcomes.len(),
    {
        if outcomes.len() == 0 {
            Some(self)
        } else {
            match self.after(outcomes.drop_last()) {
                Some(t) => match t.resumed(outcomes.last()) {
                    ProgressModel::Next { task, .. } => Some(task),
                    ProgressModel::End(_) => None,
                },
                None => None,
            }
        }
    }
}

/// Whether the answer of a script says that a click is on the final submit.
fn says_submit(answer: &Json) -> (r: bool)
    ensures
        r == told_submit(Ok(Some(answer@))),
{
    match answer.get("submits") {
        Some(v) => match v.as_bool() {
            Some(submits) => submits,
            None => false,
        },
        None => false,
    }
}

impl Task {
    /// Begins one planned action: the action, and the first script to evaluate.
    /// Custom (non-native) dropdowns need a click-open then click-option
    /// sequence with a wait in between, so they can't be a single evaluation.
    /// Every click is preceded by a script that asks whether it is on the final
    /// submit.
    pub fn apply(action: &Action) -> (r: (Task, String))
        ensures
            r.0@ == TaskModel::begun(action@),
            r.1@ == TaskModel::begun(action@).script(),
            text::ascii_lowered(action@.action) == "click"@ ==> r.0@.stage == Stage::ProbeClick,
    {
        proof {
            reveal_strlit("click");
            reveal_strlit("select_custom");
            if text::ascii_lowered(action@.action) == "click"@ {
                text::lemma_lowered_ascii(action@.action);
                assert(text::ascii_lowered("select_custom"@).len() != "click"@.len());
            }
        }
        if text::same_ignoring_case(action.action.as_str(), "select_custom") {
            return Task::select_custom(action.selector.as_str(), action.value.as_str());
        }
        let lowered = action.action.as_str().to_lowercase();
        let clicks = text::same(lowered.as_str(), "click");
        let task = Task {
            stage: if clicks {
                Stage::ProbeClick
            } else {
                Stage::Fill
            },
            selector: action.selector.clone(),
            kind: action.action.clone(),
            value: action.value.clone(),
        };
        let script = if clicks {
            build_action_probe(action)
        } else {
            build_action_script(action)
        };
        (task, script)
    }

    /// Begins to fill a custom dropdown built from `<div>`/`<li>` elements (an
    /// ARIA combobox/listbox, not a native `<select>`): click the trigger to
    /// open the menu, wait for options to render, then click the option whose
    /// visible text matches `value`.
    pub fn select_custom(trigger: &str, value: &str) -> (r: (Task, String))
        ensures
            r.0@ == TaskModel::dropdown(trigger@, value@),
            r.1@ == TaskModel::dropdown(trigger@, value@).script(),
    {
        let task = Task {
            stage: Stage::ProbeOpen,
            selector: text::owned(trigger),
            kind: text::owned("select_custom"),
            value: text::owned(value),
        };
        (task, build_open_probe(trigger))
    }

    /// The script of a stage.
    fn script_at(&self, stage: Stage) -> (r: String)
        ensures
            r@ == self@.at(stage).script(),
    {
        match stage {
            Stage::ProbeOpen => build_open_probe(self.selector.as_str()),
            Stage::Open => build_open_script(self.selector.as_str()),
            Stage::ProbePick => build_pick_probe(self.value.as_str()),
            Stage::Pick => build_pick_script(self.value.as_str()),
            Stage::ProbeClick | Stage::Click | Stage::Fill => {
                let action = Action {
                    selector: self.selector.clone(),
                    action: self.kind.clone(),
                    value: self.value.clone(),
                    label: String::new(),
                };
                match stage {
                    Stage::Fill => build_action_script(&action),
                    Stage::Click => build_click_script(&action),
                    _ => build_action_probe(&action),
                }
            },
        }
    }

    fn goes_on(self, stage: Stage, millis: u64) -> (r: Progress)
        ensures
            r@ == self@.goes_on(stage, millis as int),
    {
        let script = self.script_at(stage);
        Progress::Next { task: Task { stage, ..self }, script, millis }
    }

    /// How the action goes on, given what came of evaluating its script: an
    /// error, or the value that the script returned if that could be read.
    pub fn resume(self, outcome: Result<Option<Json>, String>) -> (r: Progress)
        ensures
            r@ == self@.resumed(outcome_of(outcome)),
    {
        let answer = match outcome {
            Ok(answer) => answer,
            Err(e) => {
                let mut why = self.selector.clone();
                match self.stage {
                    Stage::ProbeClick | Stage::Click | Stage::Fill => why.append(": eval failed: "),
                    Stage::ProbeOpen | Stage::Open => why.append(": could not open dropdown: "),
                    Stage::ProbePick | Stage::Pick => why.append(": could not pick option: "),
                }
                why.append(e.as_str());
                return Progress::End(Err(why));
            },
        };
        let mut submits = false;
        if let Some(v) = &answer {
            match check_ok(v, self.selector.as_str()) {
                Ok(_) => {},
                Err(e) => return Progress::End(Err(e)),
            }
            submits = says_submit(v);
        }
        let next = match self.stage {
            Stage::Click | Stage::Fill | Stage::Pick => return Progress::End(Ok(())),
            Stage::Open => return self.goes_on(Stage::ProbePick, MENU_MILLIS),
            Stage::ProbeClick => Stage::Click,
            Stage::ProbeOpen => Stage::Open,
            Stage::ProbePick => Stage::Pick,
        };
        if submits {
            let mut why = self.selector.clone();
            why.append(": not clicked, as it is the final submit");
            return Progress::End(Err(why));
        }
        self.goes_on(next, 0)
    }
}

/// The values among `pairs` that are not blank.
pub open spec fn filled_values(pairs: Seq<field_map::Pair>) -> Map<Seq<char>, Seq<char>>
    decreases pairs.len(),
{
    if pairs.len() == 0 {
        Map::empty()
    } else {
        let before = filled_values(pairs.drop_last());
        if text::is_blank(pairs.last().1) {
            before
        } else {
            before.insert(pairs.last().0, pairs.last().1)
        }
    }
}

/// The values that are not blank, of those that the snapshot script collected.
/// Used to learn values the *user* typed by hand so that they can be folded
/// back into `fields.json`.
pub fn snapshot_values(pairs: &Vec<(String, String)>) -> (r: FieldMap)
    ensures
        r@ == filled_values(field_map::pair_texts(pairs@)),
{
    let ghost all = field_map::pair_texts(pairs@);
    let mut out = FieldMap::new();
    let mut i: usize = 0;
    while i < pairs.len()
        invariant
            all == field_map::pair_texts(pairs@),
            0 <= i <= pairs@.len(),
            out@ == filled_values(all.take(i as int)),
        decreases pairs@.len() - i,
    {
        proof {
            assert(all.take(i + 1).drop_last() =~= all.take(i as int));
            assert(all.take(i + 1).last() == all[i as int]);
        }
        if !text::blank(pairs[i].1.as_str()) {
            out.insert(pairs[i].0.clone(), pairs[i].1.clone());
        }
        i += 1;
    }
    assert(all.take(i as int) =~= all);
    out
}

// ---------------------------------------------------------------------------
// Laws
// ---------------------------------------------------------------------------
/// Nothing is clicked unasked: in whatever way an action is carried out, a
/// script that clicks comes only right behind one that asked, of the same
/// target, whether the click is on the final submit, and was not told so. Both
/// find the target in the same way, and the one that clicks tests it once more
/// before the click.
pub proof fn no_click_is_unasked(a: llm::ActionModel, outcomes: Seq<Outcome>)
    ensures
        match TaskModel::begun(a).after(outcomes) {
            Some(t) => t.clicks() ==> outcomes.len() > 0 && !told_submit(outcomes.last()) && (
            TaskModel::begun(a).after(outcomes.drop_last()) matches Some(asked) && asked.asks()
                && asked.at(t.stage) == t && asked.script() == t.target() + probe(
                t.target_variable(),
            ) && words::begins(t.script(), t.target() + guard(t.target_variable()))),
            None => true,
        },
{
    if let Some(t) = TaskModel::begun(a).after(outcomes) {
        if t.clicks() {
            let start = t.target() + guard(t.target_variable());
            assert(t.script().subrange(0, start.len() as int) =~= start);
        }
    }
}

/// A click that is on the final submit is not made: the action ends with an error
/// that names its selector.
pub proof fn submit_is_not_clicked(t: TaskModel, outcome: Outcome)
    requires
        t.asks(),
        told_submit(outcome),
    ensures
        t.resumed(outcome) matches ProgressModel::End(Err(e)) && words::begins(e, t.selector),
{
    failures_name_the_selector(t, outcome);
}

/// Any other click is made, also where nothing could be read of the answer.
pub proof fn other_clicks_are_made(a: llm::ActionModel, outcome: Outcome)
    requires
        TaskModel::begun(a).asks(),
        !told_submit(outcome),
        evaluated(TaskModel::begun(a).stage, a.selector, outcome) is Ok,
    ensures
        TaskModel::begun(a).resumed(outcome) matches ProgressModel::Next { task, script, .. }
            && task.clicks() && script == task.script(),
{
}

/// Whatever goes wrong with an action, the error begins with its selector.
pub proof fn failures_name_the_selector(t: TaskModel, outcome: Outcome)
    ensures
        t.resumed(outcome) matches ProgressModel::End(Err(e)) ==> words::begins(e, t.selector),
{
    if let ProgressModel::End(Err(e)) = t.resumed(outcome) {
        assert(e.take(t.selector.len() as int) =~= t.selector);
        assert(e.subrange(0, t.selector.len() as int) =~= t.selector);
    }
}

/// A snapshot holds no blank value.
pub proof fn snapshots_hold_no_blanks(pairs: Seq<field_map::Pair>, name: Seq<char>)
    requires
        filled_values(pairs).contains_key(name),
    ensures
        !text::is_blank(filled_values(pairs)[name]),
    decreases pairs.len(),
{
    let before = pairs.drop_last();
    if filled_values(before).contains_key(name) {
        snapshots_hold_no_blanks(before, name);
    }
}

/// `KLAWPLY_CHROME` is tried first, and the known binaries always are.
pub proof fn explicit_binary_comes_first(explicit: Seq<char>, i: int)
    requires
        !text::is_blank(explicit),
        0 <= i < known_binaries().len(),
    ensures
        candidates(Some(explicit))[0] == explicit,
        candidates(Some(explicit))[i + 1] == known_binaries()[i],
{
}

/// What stands between the selector and the value in a script on a control: the
/// selector and the kind of the action, each as a JSON literal.
pub open spec fn script_up_to_the_value(selector: Seq<char>, kind: Seq<char>) -> Seq<char> {
    ACTION_HEAD@ + json::rendered_json(json::JsonTree::Text(selector)) + ACTION_KIND@
        + json::rendered_json(json::JsonTree::Text(kind)) + ACTION_VALUE@
}

/// What stands behind the value in a script on a control.
pub open spec fn script_behind_the_value() -> Seq<char> {
    ACTION_QUERY@
        + "(function(){ try { return document.querySelector(sel); } catch (e) { return (sel && sel[0] === '#') ? document.getElementById(sel.slice(1)) : null; } })()"@
        + ACTION_FOUND@
}

proof fn lemma_query_of_the_selector()
    ensures
        query_script("sel"@)
            == "(function(){ try { return document.querySelector(sel); } catch (e) { return (sel && sel[0] === '#') ? document.getElementById(sel.slice(1)) : null; } })()"@,
{
    reveal_strlit("(function(){ try { return document.querySelector(");
    reveal_strlit("sel");
    reveal_strlit("); } catch (e) { return (");
    reveal_strlit(" && ");
    reveal_strlit("[0] === '#') ? document.getElementById(");
    reveal_strlit(".slice(1)) : null; } })()");
    reveal_strlit(
        "(function(){ try { return document.querySelector(sel); } catch (e) { return (sel && sel[0] === '#') ? document.getElementById(sel.slice(1)) : null; } })()",
    );
    assert(query_script("sel"@)
        =~= "(function(){ try { return document.querySelector(sel); } catch (e) { return (sel && sel[0] === '#') ? document.getElementById(sel.slice(1)) : null; } })()"@);
}

/// A control is filled with the value that was planned for it: the script of an
/// action that neither clicks nor picks from a custom dropdown sets the JS
/// variables of the selector, the kind and the value to the planned ones.
pub proof fn controls_get_their_own_value(a: llm::ActionModel)
    requires
        text::ascii_lowered(a.action) != text::ascii_lowered("select_custom"@),
        text::lowercase(a.action) != "click"@,
    ensures
        TaskModel::begun(a).script() == script_up_to_the_value(
            a.selector,
            text::lowercase(a.action),
        ) + json::rendered_json(json::JsonTree::Text(a.value)) + script_behind_the_value()
            + ACTION_TAIL@,
        !TaskModel::begun(a).asks(),
        !TaskModel::begun(a).clicks(),
{
    lemma_query_of_the_selector();
    assert(TaskModel::begun(a).script() =~= script_up_to_the_value(
        a.selector,
        text::lowercase(a.action),
    ) + json::rendered_json(json::JsonTree::Text(a.value)) + script_behind_the_value()
        + ACTION_TAIL@);
}

/// Two values give two scripts: actions on the same control that differ in how
/// their value is written are carried out by different scripts.
pub proof fn other_values_give_other_scripts(a: llm::ActionModel, b: llm::ActionModel)
    requires
        text::ascii_lowered(a.action) != text::ascii_lowered("select_custom"@),
        text::lowercase(a.action) != "click"@,
        a.selector == b.selector,
        a.action == b.action,
        json::rendered_json(json::JsonTree::Text(a.value)) != json::rendered_json(
            json::JsonTree::Text(b.value),
        ),
    ensures
        TaskModel::begun(a).script() != TaskModel::begun(b).script(),
{
    controls_get_their_own_value(a);
    controls_get_their_own_value(b);
    let head = script_up_to_the_value(a.selector, text::lowercase(a.action));
    let end = script_behind_the_value() + ACTION_TAIL@;
    let x = json::rendered_json(json::JsonTree::Text(a.value));
    let y = json::rendered_json(json::JsonTree::Text(b.value));
    if TaskModel::begun(a).script() == TaskModel::begun(b).script() {
        assert(TaskModel::begun(a).script() =~= head + x + end);
        assert(TaskModel::begun(b).script() =~= head + y + end);
        assert(x.len() == y.len());
        assert((head + x + end).subrange(head.len() as int, (head.len() + x.len()) as int) =~= x);
        assert((head + y + end).subrange(head.len() as int, (head.len() + y.len()) as int) =~= y);
    }
}

/// A planned click looks for the control of its own selector, first to ask and
/// then to click.
pub proof fn clicks_are_on_their_own_control(a: llm::ActionModel)
    requires
        text::ascii_lowered(a.action) != text::ascii_lowered("select_custom"@),
        text::lowercase(a.action) == "click"@,
    ensures
        ({
            let found = script_up_to_the_value(a.selector, "click"@) + json::rendered_json(
                json::JsonTree::Text(a.value),
            ) + script_behind_the_value();
            &&& TaskModel::begun(a).script() == found + SUBMITS_JS@ + PROBE_HEAD@ + "el"@
                + PROBE_TAIL@
            &&& TaskModel::begun(a).resumed(Ok(None)) == (ProgressModel::Next {
                task: TaskModel { stage: Stage::Click, ..TaskModel::begun(a) },
                script: found + SUBMITS_JS@ + GUARD_HEAD@ + "el"@ + GUARD_TAIL@ + ACTION_TAIL@,
                millis: 0,
            })
            &&& TaskModel { stage: Stage::Click, ..TaskModel::begun(a) }.resumed(Ok(None))
                == ProgressModel::End(Ok(()))
        }),
{
    lemma_query_of_the_selector();
    let found = script_up_to_the_value(a.selector, "click"@) + json::rendered_json(
        json::JsonTree::Text(a.value),
    ) + script_behind_the_value();
    let t = TaskModel::begun(a);
    assert(t.script() =~= found + SUBMITS_JS@ + PROBE_HEAD@ + "el"@ + PROBE_TAIL@);
    assert(t.at(Stage::Click).script() =~= found + SUBMITS_JS@ + GUARD_HEAD@ + "el"@ + GUARD_TAIL@
        + ACTION_TAIL@);
}

/// A custom dropdown is opened by its own trigger, given time to render, and the
/// option of the planned value is picked; each click is asked for before.
pub proof fn dropdowns_are_opened_and_picked_from(a: llm::ActionModel)
    requires
        text::ascii_lowered(a.action) == text::ascii_lowered("select_custom"@),
    ensures
        ({
            let trigger = OPEN_HEAD@ + json::rendered_json(json::JsonTree::Text(a.selector))
                + OPEN_QUERY@
                + "(function(){ try { return document.querySelector(sel); } catch (e) { return (sel && sel[0] === '#') ? document.getElementById(sel.slice(1)) : null; } })()"@
                + OPEN_FOUND@;
            let option = PICK_HEAD@ + json::rendered_json(json::JsonTree::Text(a.value))
                + PICK_FOUND@;
            let t = TaskModel::begun(a);
            let opening = TaskModel { stage: Stage::Open, ..t };
            let asking = TaskModel { stage: Stage::ProbePick, ..t };
            let picking = TaskModel { stage: Stage::Pick, ..t };
            &&& t.script() == trigger + SUBMITS_JS@ + PROBE_HEAD@ + "el"@ + PROBE_TAIL@
            &&& t.resumed(Ok(None)) == (ProgressModel::Next {
                task: opening,
                script: trigger + SUBMITS_JS@ + GUARD_HEAD@ + "el"@ + GUARD_TAIL@ + OPEN_TAIL@,
                millis: 0,
            })
            &&& opening.resumed(Ok(None)) == (ProgressModel::Next {
                task: asking,
                script: option + SUBMITS_JS@ + PROBE_HEAD@ + "target"@ + PROBE_TAIL@,
                millis: 450,
            })
            &&& asking.resumed(Ok(None)) == (ProgressModel::Next {
                task: picking,
                script: option + SUBMITS_JS@ + GUARD_HEAD@ + "target"@ + GUARD_TAIL@ + PICK_TAIL@,
                millis: 0,
            })
            &&& picking.resumed(Ok(None)) == ProgressModel::End(Ok(()))
        }),
{
    lemma_query_of_the_selector();
    let trigger = OPEN_HEAD@ + json::rendered_json(json::JsonTree::Text(a.selector)) + OPEN_QUERY@
        + "(function(){ try { return document.querySelector(sel); } catch (e) { return (sel && sel[0] === '#') ? document.getElementById(sel.slice(1)) : null; } })()"@
        + OPEN_FOUND@;
    let option = PICK_HEAD@ + json::rendered_json(json::JsonTree::Text(a.value)) + PICK_FOUND@;
    let t = TaskModel::begun(a);
    assert(t.script() =~= trigger + SUBMITS_JS@ + PROBE_HEAD@ + "el"@ + PROBE_TAIL@);
    assert(t.at(Stage::Open).script() =~= trigger + SUBMITS_JS@ + GUARD_HEAD@ + "el"@ + GUARD_TAIL@
        + OPEN_TAIL@);
    assert(t.at(Stage::ProbePick).script() =~= option + SUBMITS_JS@ + PROBE_HEAD@ + "target"@
        + PROBE_TAIL@);
    assert(t.at(Stage::Pick).script() =~= option + SUBMITS_JS@ + GUARD_HEAD@ + "target"@
        + GUARD_TAIL@ + PICK_TAIL@);
}

/// What the page reports as failed has failed, for the reason that it gives; what
/// it does not report as failed has gone well.
pub proof fn the_page_tells_what_failed(
    t: TaskModel,
    v: json::JsonTree,
    why: Seq<char>,
)
    requires
        v.get("err"@) == Some(json::JsonTree::Text(why)),
    ensures
        v.get("ok"@) == Some(json::JsonTree::Bool(false)) ==> t.resumed(Ok(Some(v)))
            == ProgressModel::End(Err(t.selector + ": "@ + why)),
        v.get("ok"@) == Some(json::JsonTree::Bool(true)) && (t.stage is Fill || t.stage is Click
            || t.stage is Pick) ==> t.resumed(Ok(Some(v))) == ProgressModel::End(Ok(())),
{
}

/// A script that could not be evaluated fails the action, with the selector, what
/// was being done and the reason.
pub proof fn failed_evaluations_fail_the_action(t: TaskModel, why: Seq<char>)
    ensures
        t.resumed(Err(why)) == ProgressModel::End(
            Err(
                t.selector + (match t.stage {
                    Stage::ProbeClick | Stage::Click | Stage::Fill => ": eval failed: "@,
                    Stage::ProbeOpen | Stage::Open => ": could not open dropdown: "@,
                    Stage::ProbePick | Stage::Pick => ": could not pick option: "@,
                }) + why,
            ),
        ),
{
}

/// A snapshot learns what was typed: each control's own value, wherever that is
/// not blank.
pub proof fn snapshots_learn_what_was_typed(pairs: Seq<field_map::Pair>, i: int)
    requires
        0 <= i < pairs.len(),
        forall|j: int, k: int|
            0 <= j < k < pairs.len() ==> (#[trigger] pairs[j]).0 != (#[trigger] pairs[k]).0,
        !text::is_blank(pairs[i].1),
    ensures
        filled_values(pairs).contains_key(pairs[i].0),
        filled_values(pairs)[pairs[i].0] == pairs[i].1,
    decreases pairs.len(),
{
    let before = pairs.drop_last();
    if i < before.len() {
        assert forall|j: int, k: int| 0 <= j < k < before.len() implies (#[trigger] before[j]).0
            != (#[trigger] before[k]).0 by {
            assert(before[j] == pairs[j] && before[k] == pairs[k]);
        }
        assert(before[i] == pairs[i]);
        snapshots_learn_what_was_typed(before, i);
        assert(pairs[i].0 != pairs[pairs.len() - 1].0);
    }
}

/// A snapshot learns nothing else: whatever it holds was typed into the control
/// of that name.
pub proof fn snapshots_learn_nothing_else(pairs: Seq<field_map::Pair>, name: Seq<char>)
    requires
        filled_values(pairs).contains_key(name),
    ensures
        exists|i: int|
            0 <= i < pairs.len() && (#[trigger] pairs[i]).0 == name && pairs[i].1
                == filled_values(pairs)[name] && !text::is_blank(pairs[i].1),
    decreases pairs.len(),
{
    let n = pairs.len() - 1;
    let before = pairs.drop_last();
    if !text::is_blank(pairs.last().1) && pairs.last().0 == name {
        assert(pairs[n].0 == name);
    } else {
        snapshots_learn_nothing_else(before, name);
        let i = choose|i: int|
            0 <= i < before.len() && (#[trigger] before[i]).0 == name && before[i].1
                == filled_values(before)[name] && !text::is_blank(before[i].1);
        assert(pairs[i] == before[i]);
    }
}

} // verus!
