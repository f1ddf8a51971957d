use serial_term::logline::LineAssembler;
use std::time::{Duration, Instant};

fn now() -> Instant {
    Instant::now()
}

#[test]
fn single_complete_line() {
    let mut a = LineAssembler::new();
    let out = a.push("hello\n", now());
    assert_eq!(out, vec!["hello".to_string()]);
}

#[test]
fn multiple_lines_in_one_chunk() {
    let mut a = LineAssembler::new();
    let out = a.push("a\nb\nc\n", now());
    assert_eq!(out, vec!["a".to_string(), "b".to_string(), "c".to_string()]);
}

#[test]
fn partial_line_held_until_newline() {
    let mut a = LineAssembler::new();
    assert!(a.push("hello", now()).is_empty());
    assert_eq!(a.push(" world\n", now()), vec!["hello world".to_string()]);
}

#[test]
fn multiple_chunks_within_one_line() {
    let mut a = LineAssembler::new();
    assert!(a.push("你", now()).is_empty());
    assert!(a.push("好", now()).is_empty());
    assert_eq!(a.push("\n", now()), vec!["你好".to_string()]);
}

#[test]
fn strips_cr_and_lf() {
    let mut a = LineAssembler::new();
    let out = a.push("line\r\n", now());
    assert_eq!(out, vec!["line".to_string()]);
}

#[test]
fn stale_pending_flushed() {
    let mut a = LineAssembler::new();
    let t0 = Instant::now();
    a.push("half", t0);
    assert!(a.take_pending_if_stale(200, t0).is_none());
    assert_eq!(
        a.take_pending_if_stale(200, t0 + Duration::from_millis(250)),
        Some("half".to_string())
    );
}

#[test]
fn no_pending_returns_none() {
    let mut a = LineAssembler::new();
    assert!(a.take_pending_if_stale(200, now()).is_none());
}

#[test]
fn pending_cleared_after_flush() {
    let mut a = LineAssembler::new();
    let t0 = Instant::now();
    a.push("data", t0);
    let flushed = a.take_pending_if_stale(200, t0 + Duration::from_millis(300));
    assert_eq!(flushed, Some("data".to_string()));
    assert!(a.take_pending_if_stale(200, t0 + Duration::from_millis(500)).is_none());
}

#[test]
fn continuous_stream_flushed_periodically() {
    let mut a = LineAssembler::new();
    let t0 = Instant::now();
    for i in 0..6 {
        let t = t0 + Duration::from_millis(i * 50);
        a.push("stream", t);
    }
    let flushed = a.take_pending_if_stale(200, t0 + Duration::from_millis(300));
    assert!(flushed.is_some(), "持续数据流应周期性刷出");
    assert_eq!(flushed.unwrap(), "streamstreamstreamstreamstreamstream");
    assert!(a.take_pending_if_stale(200, t0 + Duration::from_millis(500)).is_none());
}

#[test]
fn overlong_pending_force_flushed() {
    let mut a = LineAssembler::new();
    let t0 = Instant::now();
    let big = "x".repeat(16 * 1024 + 100);
    a.push(&big, t0);
    let flushed = a.take_pending_if_stale(200, t0 + Duration::from_millis(50));
    assert_eq!(flushed, Some(big));
}

#[test]
fn take_pending_after_flushes_only_when_idle_long_enough() {
    let mut a = LineAssembler::new();
    let t0 = Instant::now();
    a.push("abc", t0);
    assert!(a.take_pending_after(200, 199, t0).is_none());
    assert_eq!(a.take_pending_after(200, 200, t0), Some("abc".to_string()));
    assert!(a.take_pending_after(200, 1000, t0).is_none());
}

#[test]
fn chunked_input_gives_the_same_lines() {
    let mut whole = LineAssembler::new();
    let mut parts = LineAssembler::new();
    let t = Instant::now();
    let all = whole.push("ab\ncd\r\nef", t);
    let mut split = parts.push("ab\nc", t);
    split.extend(parts.push("d\r\nef", t));
    assert_eq!(all, split);
    assert_eq!(all, vec!["ab".to_string(), "cd".to_string()]);
}

#[test]
fn lines_never_hold_a_newline() {
    let mut a = LineAssembler::new();
    let out = a.push("\n\n x \n", Instant::now());
    assert_eq!(out, vec!["".to_string(), "".to_string(), " x ".to_string()]);
    assert!(out.iter().all(|l| !l.contains('\n')));
}
