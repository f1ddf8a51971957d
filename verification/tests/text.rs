use serial_term::complete::{complete_with, completion_candidates, CompletionEnv};
use serial_term::escape::{parse_hex, trim_quotes_str, unescape_str};
use serial_term::replay::replay_record;
use serial_term::logline::Dir;
use serial_term::style::{StyledSpan, TextStyle, TermColor};
use serial_term::wrap::{highlight_keyword, wrap_spans};

fn span(t: &str) -> StyledSpan {
    StyledSpan { content: t.into(), style: TextStyle::new() }
}

#[test]
fn unescape_replaces_escapes_left_to_right() {
    assert_eq!(unescape_str(r"a\r\nb\tc"), "a\r\nb\tc");
    assert_eq!(unescape_str(r"\\n"), "\\\n");
    assert_eq!(unescape_str(r"\x"), r"\x");
    assert_eq!(unescape_str("plain"), "plain");
}

#[test]
fn trim_quotes_strips_both_ends() {
    assert_eq!(trim_quotes_str("\"\"hi\""), "hi");
    assert_eq!(trim_quotes_str("\"\""), "");
    assert_eq!(trim_quotes_str("a\"b"), "a\"b");
}

#[test]
fn parse_hex_accepts_all_forms() {
    assert_eq!(parse_hex("41 42 43"), Some(vec![0x41, 0x42, 0x43]));
    assert_eq!(parse_hex("0x41 0x42"), Some(vec![0x41, 0x42]));
    assert_eq!(parse_hex("414243"), Some(vec![0x41, 0x42, 0x43]));
    assert_eq!(parse_hex("[0A][ff]"), Some(vec![0x0A, 0xFF]));
    assert_eq!(parse_hex("4"), None);
    assert_eq!(parse_hex("zz"), None);
}

#[test]
fn wrap_folds_by_display_width() {
    let rows = wrap_spans(&vec![span("ab你c")], 3);
    let texts: Vec<String> = rows.iter().map(|r| r.iter().map(|s| s.content.clone()).collect()).collect();
    assert_eq!(texts, vec!["ab".to_string(), "你c".to_string()]);
    let none = wrap_spans(&vec![span("abc")], 0);
    assert_eq!(none.len(), 1);
    assert!(none[0].is_empty());
}

#[test]
fn wrap_keeps_every_character() {
    let rows = wrap_spans(&vec![span("hello "), span("world")], 4);
    let joined: String = rows.iter().flat_map(|r| r.iter().map(|s| s.content.clone())).collect();
    assert_eq!(joined, "hello world");
    assert!(rows.len() >= 3);
}

#[test]
fn highlight_marks_keyword_case_insensitively() {
    let hl = TextStyle::new().bg(TermColor::Yellow);
    let out = highlight_keyword(vec![span("xAbx")], "ab", hl);
    let styles: Vec<bool> = out.iter().map(|s| s.style == hl).collect();
    assert_eq!(styles, vec![false, true, true, false]);
    let text: String = out.iter().map(|s| s.content.clone()).collect();
    assert_eq!(text, "xAbx");
    let same = highlight_keyword(vec![span("xyz")], "", hl);
    assert_eq!(same.len(), 1);
}

#[test]
fn replay_records_by_tag() {
    let r = replay_record("[12:00:00.000] [TX ] AT\\r\\n");
    assert_eq!(r.echo, Some((Dir::Tx, "AT\\r\\n".to_string())));
    assert_eq!(r.send, b"AT\r\n".to_vec());
    let h = replay_record("[12:00:00.000] [TX ] (HEX) 41 42");
    assert_eq!(h.send, vec![0x41, 0x42]);
    let s = replay_record("[t] [SYS] hello");
    assert_eq!(s.echo, Some((Dir::Sys, "(回放) hello".to_string())));
    assert!(s.send.is_empty());
    let e = replay_record("[t] [ERR] bad");
    assert_eq!(e.echo, Some((Dir::Error, "bad".to_string())));
    let n = replay_record("garbage");
    assert!(n.echo.is_none());
}

#[test]
fn completion_offers_commands_params_ports_and_files() {
    let env = CompletionEnv {
        files: vec!["b.log".into(), "a.log".into(), "notes.txt".into()],
        ports: vec!["COM1".into(), "COM12".into(), "/dev/ttyUSB0".into()],
    };
    let c: Vec<String> = completion_candidates(":rec", &env).into_iter().map(|p| p.0).collect();
    assert_eq!(c, vec![":recent".to_string(), ":reconnect".to_string()]);
    let c = completion_candidates(":replay ", &env);
    assert_eq!(c, vec![("a.log".to_string(), "日志文件".to_string()), ("b.log".to_string(), "日志文件".to_string())]);
    let c: Vec<String> = completion_candidates(":port COM1", &env).into_iter().map(|p| p.0).collect();
    assert_eq!(c, vec!["COM1".to_string(), "COM12".to_string()]);
    let c: Vec<String> = completion_candidates(":mode d", &env).into_iter().map(|p| p.0).collect();
    assert_eq!(c, vec!["direct".to_string()]);
    assert!(completion_candidates(":send x", &env).is_empty());
    assert!(completion_candidates("hello", &env).is_empty());
}

#[test]
fn completing_replaces_name_or_argument() {
    assert_eq!(complete_with(":ba", ":baud"), ":baud ");
    assert_eq!(complete_with(":mode x", "line"), ":mode line");
    assert_eq!(complete_with(":sta now", ":status"), ":status now");
}

#[test]
fn highlight_stays_on_the_matching_characters() {
    let hl = TextStyle::new().bg(TermColor::Yellow);
    let out = highlight_keyword(vec![span("AİBIst")], "ist", hl);
    let styles: Vec<bool> = out.iter().map(|s| s.style == hl).collect();
    assert_eq!(styles, vec![false, false, false, true, true, true]);
}
