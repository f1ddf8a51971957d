use serial_term::ansi::ansi_to_spans;
use serial_term::style::{TermColor, TextStyle};

#[test]
fn strips_ansi_and_keeps_text() {
    let text = "\x1b[0;32mI (71264) NimBLE: att_handle=25\x1b[0m";
    let spans = ansi_to_spans(text, TextStyle::new().fg(TermColor::White));
    let joined: String = spans.iter().map(|s| s.content.clone()).collect();
    assert_eq!(joined, "I (71264) NimBLE: att_handle=25");
}

#[test]
fn applies_green_color() {
    let text = "\x1b[0;32mHELLO\x1b[0m";
    let spans = ansi_to_spans(text, TextStyle::new());
    assert_eq!(spans.len(), 1);
    assert_eq!(spans[0].style.fg, Some(TermColor::Green));
    assert_eq!(spans[0].content, "HELLO");
}

#[test]
fn handles_plain_text() {
    let text = "no ansi here";
    let spans = ansi_to_spans(text, TextStyle::new());
    assert_eq!(spans.len(), 1);
    assert_eq!(spans[0].content, "no ansi here");
}

#[test]
fn strips_cursor_moves() {
    let text = "A\x1b[2KB";
    let spans = ansi_to_spans(text, TextStyle::new());
    let joined: String = spans.iter().map(|s| s.content.clone()).collect();
    assert_eq!(joined, "AB");
}

#[test]
fn handles_multibyte_around_ansi() {
    let text = "你\x1b[0m好";
    let spans = ansi_to_spans(text, TextStyle::new());
    let joined: String = spans.iter().map(|s| s.content.clone()).collect();
    assert_eq!(joined, "你好");
}

#[test]
fn bold_and_bright_colours() {
    let spans = ansi_to_spans("\x1b[1;91mX\x1b[22mY", TextStyle::new());
    assert_eq!(spans.len(), 2);
    assert_eq!(spans[0].style.fg, Some(TermColor::LightRed));
    assert_eq!(spans[0].style.add_modifier & serial_term::style::BOLD, serial_term::style::BOLD);
    assert_eq!(spans[1].content, "Y");
    assert_eq!(spans[1].style.add_modifier & serial_term::style::BOLD, 0);
}

#[test]
fn reset_returns_to_the_default_style() {
    let d = TextStyle::new().fg(TermColor::White);
    let spans = ansi_to_spans("\x1b[31mR\x1b[0mW", d);
    assert_eq!(spans[0].style.fg, Some(TermColor::Red));
    assert_eq!(spans[1].style, d);
}

#[test]
fn default_foreground_keeps_background_and_bold() {
    let spans = ansi_to_spans("\x1b[31;44;1mA\x1b[39mB", TextStyle::new());
    assert_eq!(spans.len(), 2);
    assert_eq!(spans[1].content, "B");
    assert_eq!(spans[1].style.fg, None);
    assert_eq!(spans[1].style.bg, Some(TermColor::Blue));
    assert_eq!(spans[1].style.add_modifier & serial_term::style::BOLD, serial_term::style::BOLD);
}
