use klawply::app::{App, Line, LineKind, Rect, Screen};
use klawply::theme::{accent, base, bright, dim, error, Style};
use klawply::ui::layout::centered;
use klawply::ui::loader::{dot_cell, loader_lines, loader_step, square_border, tick_millis};
use klawply::ui::span::{Content, Panel, StyledLine};
use klawply::ui::transcript::{highlight_line, subscription_label, tail_lines, wrap_transcript};
use klawply::ui::wrap::wrap_line;
use klawply::ui::{
    draw, draw_chat, draw_resume, seven_segment_title, show_chat, show_connect, show_resume,
    show_transcript,
};

fn area(x: u16, y: u16, width: u16, height: u16) -> Rect {
    Rect { x, y, width, height }
}

fn text(line: &StyledLine) -> String {
    line.spans.iter().map(|s| s.text.as_str()).collect()
}

fn texts(lines: &[StyledLine]) -> Vec<String> {
    lines.iter().map(text).collect()
}

fn lines(panel: &Panel) -> &Vec<StyledLine> {
    match &panel.content {
        Content::Lines(l) => l,
        Content::Plain(t) => panic!("plain text {t}"),
    }
}

fn entry(kind: LineKind, said: &str) -> Line {
    Line { kind, text: said.to_string() }
}

fn app_on(screen: Screen) -> App {
    let mut app = App::new(0);
    app.screen = screen;
    app
}

fn reversed(style: Style) -> Style {
    Style { reversed: true, ..style }
}

#[test]
fn words_are_wrapped_greedily() {
    assert_eq!(wrap_line("the quick brown fox", 9), ["the quick", "brown fox"]);
    assert_eq!(wrap_line("abcdefgh ij", 3), ["abc", "def", "gh", "ij"]);
    assert_eq!(wrap_line("ab cdefgh", 3), ["ab", "cde", "fgh"]);
    assert_eq!(wrap_line("", 5), [""]);
    assert_eq!(wrap_line("a b", 0), ["a b"]);
    assert_eq!(wrap_line("  x", 5), ["x"]);
    assert_eq!(wrap_line("a  b", 5), ["a  b"]);
}

#[test]
fn wrapped_lines_fit_and_keep_the_ink() {
    let said = "klawply opens the page, captures it and fills whatever it can";
    for width in 1..20usize {
        let wrapped = wrap_line(said, width);
        assert!(wrapped.iter().all(|l| l.chars().count() <= width));
        let ink: String = wrapped.concat().chars().filter(|c| *c != ' ').collect();
        assert_eq!(ink, said.replace(' ', ""));
    }
}

#[test]
fn dot_orbits_the_square() {
    let cells: Vec<(usize, usize)> = (0..12).map(dot_cell).collect();
    assert_eq!(
        cells,
        [
            (0, 0), (0, 1), (0, 2), (0, 3), (0, 4), (1, 4), (2, 4), (2, 3), (2, 2), (2, 1), (2, 0),
            (1, 0),
        ]
    );
    assert_eq!(dot_cell(12), (0, 0));
    assert_eq!(loader_step(0), 0);
    assert_eq!(loader_step(89), 0);
    assert_eq!(loader_step(1_080), 12);
}

#[test]
fn square_has_a_border() {
    let drawn: Vec<String> =
        (0..3).map(|r| (0..5).map(|c| square_border(r, c)).collect()).collect();
    assert_eq!(drawn, ["┌───┐", "│   │", "└───┘"]);
}

#[test]
fn loader_shows_dot_and_label() {
    let l = loader_lines("working", 5);
    assert_eq!(texts(&l), ["┌───┐", "│   ●  working", "└───┘"]);
    assert_eq!(l[1].spans[4].style, bright());
    assert_eq!(l[1].spans[0].style, dim());
    assert_eq!(l[1].spans[5].style, accent());
    assert_eq!(texts(&loader_lines("", 0)), ["●───┐", "│   │", "└───┘"]);
}

#[test]
fn plans_have_labels() {
    assert_eq!(subscription_label(" plus "), Some("ChatGPT Plus subscription".to_string()));
    assert_eq!(subscription_label("ßx"), Some("ChatGPT SSx subscription".to_string()));
    assert_eq!(subscription_label("  "), None);
}

#[test]
fn tail_of_the_transcript() {
    let t = vec![
        entry(LineKind::User, "one"),
        entry(LineKind::System, "two\nlines"),
        entry(LineKind::Error, "three"),
    ];
    let tail = tail_lines(&t, 2);
    assert_eq!(texts(&tail), ["two", "lines", "three"]);
    assert_eq!(tail[0].spans[0].style, base());
    assert_eq!(tail[2].spans[0].style, error());
    assert_eq!(tail_lines(&t, 9).len(), 4);
    assert_eq!(tail_lines(&t, 9)[0].spans[0].style, dim());
    assert!(tail_lines(&Vec::new(), 4).is_empty());
}

#[test]
fn transcript_is_marked_and_wrapped() {
    let t = vec![
        entry(LineKind::User, "hi"),
        entry(LineKind::Assistant, "hello there\nfriend"),
        entry(LineKind::System, "note"),
        entry(LineKind::Error, ""),
    ];
    let wrapped = wrap_transcript(&t, 12);
    let shown: Vec<&str> = wrapped.iter().map(|(s, _)| s.as_str()).collect();
    assert_eq!(shown, ["you › hi", "gpt › hello", "there", "friend", "· note", "✗ "]);
    assert_eq!(wrapped[0].1, bright());
    assert_eq!(wrapped[1].1, base());
    assert_eq!(wrapped[4].1, dim());
    assert_eq!(wrapped[5].1, error());
}

#[test]
fn selected_columns_are_reversed() {
    let l = highlight_line(3, "hello world", base(), Some(((3, 2), (3, 5))));
    assert_eq!(texts(&[l]), ["hello world"]);
    let l = highlight_line(3, "hello world", base(), Some(((3, 2), (3, 5))));
    let parts: Vec<(&str, Style)> = l.spans.iter().map(|s| (s.text.as_str(), s.style)).collect();
    assert_eq!(parts, [("he", base()), ("llo", reversed(base())), (" world", base())]);
    let l = highlight_line(4, "x", dim(), Some(((3, 2), (5, 1))));
    assert_eq!(l.spans.len(), 1);
    assert_eq!(l.spans[0].style, reversed(dim()));
    let l = highlight_line(9, "x", dim(), Some(((3, 2), (5, 1))));
    assert_eq!(l.spans[0].style, dim());
    let l = highlight_line(3, "", dim(), Some(((3, 2), (5, 1))));
    assert_eq!(l.spans.len(), 1);
    assert_eq!(l.spans[0].text, "");
    let l = highlight_line(0, "ab", dim(), None);
    assert_eq!(l.spans.len(), 1);
}

#[test]
fn what_is_highlighted_is_what_is_copied() {
    let mut sel = klawply::selection::Selection::new((0, 4));
    sel.drag((2, 2));
    let all: Vec<String> = vec!["one line".into(), "another".into(), "last".into()];
    let mut seen: Vec<String> = Vec::new();
    for (i, l) in all.iter().enumerate() {
        let shown = highlight_line(i, l, base(), sel.range());
        assert_eq!(text(&shown), *l);
        seen.push(
            shown.spans.iter().filter(|s| s.style.reversed).map(|s| s.text.as_str()).collect(),
        );
    }
    assert_eq!(seen.join("\n"), sel.extract(&all));
}

#[test]
fn title_is_drawn_in_segments() {
    let p = seven_segment_title("1", area(0, 0, 9, 6));
    assert!(p.centered && !p.wrap);
    assert_eq!(texts(lines(&p)), ["   ", "  |", "  |"]);
    assert_eq!(lines(&p)[0].spans[0].style, bright());
}

#[test]
fn connect_screen_invites_to_log_in() {
    let app = app_on(Screen::Connect);
    let panels = show_connect(&app, area(0, 0, 80, 6), area(8, 6, 64, 18), 0);
    assert_eq!(panels.len(), 2);
    assert!(panels[1].centered && panels[1].wrap);
    assert_eq!(
        texts(lines(&panels[1])),
        [
            "CONNECT CHATGPT SUBSCRIPTION",
            "",
            "Log in with your ChatGPT subscription to power klawply.",
            "",
            "",
            "Enter: connect   ·   q: quit",
        ]
    );
}

#[test]
fn connect_screen_shows_the_link() {
    let mut app = app_on(Screen::Connect);
    app.connect_url = Some("http://l".to_string());
    app.busy = true;
    app.status = "waiting".to_string();
    let panels = show_connect(&app, area(0, 0, 80, 6), area(8, 6, 64, 18), 0);
    assert_eq!(
        texts(lines(&panels[1])),
        [
            "CONNECT CHATGPT SUBSCRIPTION",
            "",
            "Your browser was opened to authorize klawply.",
            "If it didn't open, copy this link (press c) and log in with your ChatGPT account:",
            "",
            "http://l",
            "",
            "[ press  c  to copy this link to your clipboard ]",
            "",
            "●───┐",
            "│   │",
            "└───┘",
            "",
            "waiting",
            "",
            "c: copy link   ·   Enter: retry   ·   q: quit",
        ]
    );
}

#[test]
fn connect_screen_shows_who_is_connected() {
    let mut app = app_on(Screen::Connect);
    app.email = "ada@example.org".to_string();
    app.plan = "pro".to_string();
    let panels = show_connect(&app, area(0, 0, 80, 6), area(8, 6, 64, 18), 0);
    assert_eq!(
        text(&lines(&panels[1])[2]),
        "Connected as ada@example.org · ChatGPT Pro subscription"
    );
    app.plan = String::new();
    let panels = show_connect(&app, area(0, 0, 80, 6), area(8, 6, 64, 18), 0);
    assert_eq!(text(&lines(&panels[1])[2]), "Connected as ada@example.org");
}

fn stack(n: u16) -> Vec<Rect> {
    (0..n).map(|i| area(0, i * 10, 30, 10)).collect()
}

#[test]
fn resume_screen_has_an_editor() {
    let mut app = app_on(Screen::Resume);
    let panels = show_resume(&app, &stack(5), 0);
    assert_eq!(panels.len(), 4);
    assert_eq!(text(&lines(&panels[0])[0]), "KLAWPLY · paste your resume");
    assert_eq!(texts(lines(&panels[1])), ["Paste your full resume text here…"]);
    let border = panels[1].border.as_ref().unwrap();
    assert_eq!(border.style, base());
    assert_eq!(border.title.as_ref().unwrap().text, " resume.txt ");
    assert_eq!(
        texts(lines(&panels[2])),
        ["Paste your resume above, then press Enter (or Ctrl+D) to save."]
    );
    assert_eq!(
        texts(lines(&panels[3])),
        ["Enter / Ctrl+D: save & continue   ·   Ctrl+C: quit"]
    );
    app.input = "my cv".to_string();
    app.busy = true;
    app.status = "reading".to_string();
    app.transcript = vec![entry(LineKind::System, "note")];
    let panels = show_resume(&app, &stack(5), 0);
    assert_eq!(panels.len(), 5);
    assert_eq!(text(&lines(&panels[1])[1]), "│   │  reading");
    assert!(matches!(&panels[2].content, Content::Plain(t) if t == "my cv█"));
    assert_eq!(panels[2].border.as_ref().unwrap().style, dim());
    assert_eq!(texts(lines(&panels[3])), ["note"]);
}

#[test]
fn chat_screen_has_header_transcript_and_input() {
    let mut app = app_on(Screen::Chat);
    app.email = "ada@example.org".to_string();
    app.plan = "plus".to_string();
    app.transcript = vec![entry(LineKind::User, "hi")];
    let panels = show_chat(&mut app, &stack(4), 0);
    assert_eq!(panels.len(), 3);
    assert_eq!(
        text(&lines(&panels[0])[0]),
        "KLAWPLY   ada@example.org   ChatGPT Plus subscription"
    );
    assert_eq!(texts(lines(&panels[1])), ["you › hi"]);
    assert_eq!(
        text(&lines(&panels[2])[0]),
        "› Paste a job link to apply, or ask a question…"
    );
    app.input = "text".to_string();
    let panels = show_chat(&mut app, &stack(4), 0);
    assert_eq!(text(&lines(&panels[2])[0]), "› text█");
    app.busy = true;
    let panels = show_chat(&mut app, &stack(4), 0);
    assert_eq!(panels.len(), 4);
    assert_eq!(text(&lines(&panels[3])[0]), "› text");
}

fn chat_of(n: usize) -> App {
    let mut app = app_on(Screen::Chat);
    app.transcript = (0..n).map(|i| entry(LineKind::System, &format!("line {i}"))).collect();
    app
}

#[test]
fn pinned_view_shows_the_end() {
    let mut app = chat_of(10);
    let shown = show_transcript(&mut app, area(3, 2, 20, 4));
    assert_eq!(texts(&shown), ["· line 6", "· line 7", "· line 8", "· line 9"]);
    assert_eq!(app.chat_top, 6);
    assert_eq!(app.chat_lines.len(), 10);
    assert_eq!(app.chat_area, area(3, 2, 20, 4));
}

#[test]
fn scrolling_is_clamped_when_drawn() {
    let mut app = chat_of(10);
    app.scroll = 32_767;
    let shown = show_transcript(&mut app, area(3, 2, 20, 4));
    assert_eq!(app.scroll, 6);
    assert_eq!(text(&shown[0]), "· line 0");
    app.scroll = 2;
    let shown = show_transcript(&mut app, area(3, 2, 20, 4));
    assert_eq!(text(&shown[0]), "· line 4");
    let again = show_transcript(&mut app, area(3, 2, 20, 4));
    assert_eq!(texts(&again), texts(&shown));
    let mut short = chat_of(2);
    short.scroll = 9;
    assert_eq!(show_transcript(&mut short, area(0, 0, 20, 4)).len(), 2);
    assert_eq!(short.scroll, 0);
}

#[test]
fn clicks_land_in_the_line_that_shows() {
    let mut app = chat_of(10);
    let shown = show_transcript(&mut app, area(3, 2, 20, 4));
    let (line, column) = app.content_pos(5, 4, false).unwrap();
    assert_eq!(app.chat_lines[line], text(&shown[2]));
    assert_eq!(column, 2);
}

#[test]
fn layout_is_divided_by_ratatui() {
    let mut app = chat_of(3);
    let panels = draw_chat(&mut app, area(0, 0, 40, 20), 0);
    assert_eq!(panels[0].area, area(0, 0, 40, 2));
    assert_eq!(panels[1].area, area(0, 2, 40, 15));
    assert_eq!(panels[2].area, area(0, 17, 40, 3));
    app.busy = true;
    let panels = draw_chat(&mut app, area(0, 0, 40, 20), 0);
    assert_eq!(panels[1].area, area(0, 2, 40, 3));
    assert_eq!(panels[2].area, area(0, 5, 40, 12));
    let panels = draw_resume(&app_on(Screen::Resume), area(0, 0, 40, 20), 0);
    assert_eq!(panels[1].area, area(0, 2, 40, 11));
    assert_eq!(panels[2].area, area(0, 13, 40, 6));
    assert_eq!(panels[3].area, area(0, 19, 40, 1));
    assert_eq!(centered(area(0, 6, 100, 14), 80), area(10, 6, 80, 14));
}

#[test]
fn every_screen_is_painted_on_the_background() {
    for (screen, n) in [(Screen::Connect, 3), (Screen::Resume, 5), (Screen::Chat, 4)] {
        let mut app = app_on(screen);
        let panels = draw(&mut app, area(0, 0, 100, 30), 1_000);
        assert_eq!(panels.len(), n);
        assert_eq!(panels[0].area, area(0, 0, 100, 30));
        assert!(lines(&panels[0]).is_empty());
        assert_eq!(panels[0].style, base());
    }
    let mut app = app_on(Screen::Connect);
    app.busy = true;
    let panels = draw(&mut app, area(0, 0, 100, 30), 95);
    assert_eq!(panels[1].area, area(0, 0, 100, 6));
    assert_eq!(panels[2].area, area(10, 6, 80, 24));
    assert_eq!(text(&lines(&panels[2])[4]), "┌●──┐");
}

#[test]
fn short_lines_are_kept() {
    for s in ["a", "a b", "you › hi"] {
        assert_eq!(wrap_line(s, 8), [s]);
    }
}

#[test]
fn drawn_transcript_fits_the_width() {
    let t = vec![
        entry(LineKind::Assistant, "a verylongwordthatdoesnotfit and more\n\nand an empty line"),
        entry(LineKind::User, ""),
    ];
    for width in 1..30usize {
        assert!(wrap_transcript(&t, width).iter().all(|(s, _)| s.chars().count() <= width));
    }
}

#[test]
fn panels_lie_on_the_screen() {
    for (w, h) in [(0, 0), (1, 1), (10, 4), (80, 24), (300, 100)] {
        for screen in [Screen::Connect, Screen::Resume, Screen::Chat] {
            for busy in [false, true] {
                let mut app = app_on(screen);
                app.busy = busy;
                for p in draw(&mut app, area(3, 5, w, h), 0) {
                    assert!(p.area.x >= 3 && p.area.x + p.area.width <= 3 + w);
                    assert!(p.area.y >= 5 && p.area.y + p.area.height <= 5 + h);
                }
            }
        }
    }
}

#[test]
fn screen_is_woken_only_while_the_agent_works() {
    assert_eq!(tick_millis(true), Some(90));
    assert_eq!(tick_millis(false), None);
}
