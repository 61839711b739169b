use klawply::ui::seven_segment::{glyph, render};

#[test]
fn rows_are_equal_length() {
    let rows = render("KLAWPLY");
    assert_eq!(rows[0].chars().count(), rows[1].chars().count());
    assert_eq!(rows[1].chars().count(), rows[2].chars().count());
}

#[test]
fn print_banner() {
    for row in render("KLAWPLY") {
        println!("{row}");
    }
    for row in render("CONNECT") {
        println!("{row}");
    }
}

#[test]
fn digits_are_drawn_in_three_rows() {
    let rows = render("18");
    assert_eq!(rows[0], "     _ ");
    assert_eq!(rows[1], "  | |_|");
    assert_eq!(rows[2], "  | |_|");
}

#[test]
fn letters_are_drawn_in_three_rows() {
    let rows = render("LA-");
    assert_eq!(rows[0], "     _     ");
    assert_eq!(rows[1], "|   |_|  _ ");
    assert_eq!(rows[2], "|_  | |    ");
}

#[test]
fn case_of_a_letter_does_not_show() {
    assert_eq!(render("klawply"), render("KLAWPLY"));
    assert_eq!(glyph('b'), glyph('B'));
}

#[test]
fn unknown_characters_are_blank() {
    assert_eq!(glyph('é'), [false; 7]);
    assert_eq!(glyph('_'), [false, false, false, true, false, false, false]);
}

#[test]
fn nothing_is_drawn_of_nothing() {
    assert_eq!(render(""), ["", "", ""].map(String::from));
}
