use klawply::config::{
    cdp_version_url, codex_auth_path, data_dir, fields_path, home, model, oauth_redirect_uri,
    resume_document_names, resume_document_path, resume_path, switched_on, Dir, FilePath,
};
use klawply::log::{
    debug, error, info, init, level, log_path, must_rotate, redact, timestamp, warn, Clock,
    DEBUG, ERROR, INFO, OFF, WARN,
};
use klawply::theme::{accent, base, bright, dim, error as error_style, Color};

fn shown(f: FilePath<&str>) -> String {
    let mut s = match f.base {
        Dir::At(p) => p.to_string(),
        Dir::Here => ".".to_string(),
    };
    for part in &f.parts {
        s.push('/');
        s.push_str(part);
    }
    s
}

#[test]
fn addresses() {
    assert_eq!(oauth_redirect_uri(), "http://localhost:1455/auth/callback");
    assert_eq!(cdp_version_url(), "http://localhost:9222/json/version");
}

#[test]
fn model_defaults() {
    assert_eq!(model(None), "gpt-5.5");
    assert_eq!(model(Some("gpt-5.4".to_string())), "gpt-5.4");
}

#[test]
fn data_lives_where_it_is_asked_to() {
    assert_eq!(shown(fields_path(data_dir(Some("/k"), Some("/cwd")))), "/k/fields.json");
    assert_eq!(shown(resume_path(data_dir(None, Some("/cwd")))), "/cwd/resume.txt");
    assert_eq!(shown(resume_path(data_dir(None, None))), "./resume.txt");
    assert_eq!(shown(log_path(Dir::At("/k"))), "/k/klawply.log");
    assert!(matches!(home::<&str>(None), Dir::Here));
}

#[test]
fn tokens_are_shared_with_the_codex_cli() {
    assert_eq!(shown(codex_auth_path(None, Some("/home/ada"))), "/home/ada/.codex/auth.json");
    assert_eq!(shown(codex_auth_path(Some("/c"), Some("/home/ada"))), "/c/auth.json");
    assert_eq!(shown(codex_auth_path(None, None)), "./.codex/auth.json");
}

#[test]
fn resume_document_is_found_in_order() {
    assert_eq!(
        resume_document_names(),
        ["resume.pdf", "resume.docx", "resume.doc", "resume.rtf", "cv.pdf", "cv.docx"]
    );
    let present = vec![false, true, false, false, true, false];
    let at = |named| resume_document_path(named, Dir::At("/k"), &present).map(shown);
    assert_eq!(at(None), Some("/k/resume.docx".to_string()));
    assert_eq!(at(Some(("/x/my.pdf", true))), Some("/x/my.pdf".to_string()));
    assert_eq!(at(Some(("/x/gone.pdf", false))), Some("/k/resume.docx".to_string()));
    assert!(resume_document_path(None, Dir::At("/k"), &vec![false; 6]).is_none());
}

#[test]
fn switches_are_one_or_true() {
    assert!(switched_on(&Some("1".to_string())));
    assert!(switched_on(&Some("true".to_string())));
    assert!(!switched_on(&Some("TRUE".to_string())));
    assert!(!switched_on(&Some("0".to_string())));
    assert!(!switched_on(&None));
}

#[test]
fn log_levels_have_names() {
    let of = |v: &str| level(Some(v.to_string()));
    assert_eq!(of("off"), OFF);
    assert_eq!(of("NONE"), OFF);
    assert_eq!(of("Error"), ERROR);
    assert_eq!(of("warning"), WARN);
    assert_eq!(of("info"), INFO);
    assert_eq!(of("trace"), DEBUG);
    assert_eq!(of("loud"), INFO);
    assert_eq!(level(None), INFO);
}

#[test]
fn time_of_day_is_logged() {
    let now = Clock { secs: 1_700_000_000, millis: 7 };
    assert_eq!(timestamp(now), "22:13:20.007");
    let now = Clock { secs: 86_399, millis: 999 };
    assert_eq!(timestamp(now), "23:59:59.999");
}

#[test]
fn lines_are_logged_up_to_the_level() {
    let now = || Clock { secs: 3_661, millis: 5 };
    assert_eq!(error(ERROR, now(), "x"), Some("01:01:01.005 [ERROR] x\n".to_string()));
    assert_eq!(warn(ERROR, now(), "x"), None);
    assert_eq!(warn(WARN, now(), "x"), Some("01:01:01.005 [WARN ] x\n".to_string()));
    assert_eq!(info(INFO, now(), "x"), Some("01:01:01.005 [INFO ] x\n".to_string()));
    assert_eq!(debug(INFO, now(), "x"), None);
    assert_eq!(debug(DEBUG, now(), "x"), Some("01:01:01.005 [DEBUG] x\n".to_string()));
    assert_eq!(error(OFF, now(), "x"), None);
}

#[test]
fn a_higher_level_logs_the_same_line() {
    let now = || Clock { secs: 0, millis: 0 };
    assert_eq!(error(DEBUG, now(), "x"), error(ERROR, now(), "x"));
}

#[test]
fn session_banner_and_rotation() {
    assert_eq!(
        init(42, None),
        "──── klawply session start (pid 42, log level info) ────"
    );
    assert_eq!(
        init(7, Some("debug".to_string())),
        "──── klawply session start (pid 7, log level debug) ────"
    );
    assert!(!must_rotate(4 * 1024 * 1024));
    assert!(must_rotate(4 * 1024 * 1024 + 1));
}

#[test]
fn secrets_are_redacted() {
    assert_eq!(redact(""), "<empty>");
    assert_eq!(redact("abc"), "abc…<3 chars>");
    assert_eq!(redact("ghp_0123456789"), "ghp_…<14 chars>");
    assert_eq!(redact("ghp_0123456789"), redact("ghp_abcdefghij"));
}

#[test]
fn colors_and_styles() {
    assert_eq!(Color::Green.rgb(), (0, 255, 102));
    assert_eq!(Color::Amber.rgb(), (255, 176, 0));
    assert_eq!(base().fg, Color::Green);
    assert!(!base().bold);
    assert_eq!(dim().fg, Color::GreenDim);
    assert!(bright().bold);
    assert_eq!(accent().fg, Color::Amber);
    assert_eq!(error_style().fg, Color::Red);
    assert_eq!(error_style().bg, Color::Black);
}
