use serial_term::codec::Encoding;
use serial_term::complete::CompletionEnv;
use serial_term::config::{Cli, ConfigManager, PersistConfig, RecentDevice};
use serial_term::events::{SerialEvent, WriteResult};
use serial_term::logline::Dir;
use serial_term::port::PortDevice;
use serial_term::session::keys::{InputAction, Key, KeyCode, MouseKind};
use serial_term::session::{Effect, OpenPurpose, Session, Stamp};
use std::time::Instant;

fn cli() -> Cli {
    Cli {
        port: None,
        baud: 115200,
        databits: 8,
        stopbits: "1".into(),
        parity: "none".into(),
        flow: "none".into(),
        encoding: "utf8".into(),
        mode: "line".into(),
        ts: "off".into(),
        no_tags: false,
        flush_ms: 200,
        tx_on_enter: "CRLF".into(),
        keep_input: false,
        theme: "github-dark".into(),
        auto_connect: false,
        no_config: true,
        config: None,
        list_ports: false,
        install_profile: false,
        verbose: false,
    }
}

fn stamp() -> Stamp {
    Stamp { now: Instant::now(), short: "12:00:00.000".into(), iso: "2024-01-01T12:00:00+08:00".into() }
}

fn port(name: &str) -> PortDevice {
    PortDevice {
        name: name.into(),
        kind: "USB",
        chip: None,
        manufacturer: None,
        product: None,
        serial: None,
        vid: None,
        pid: None,
    }
}

fn fresh() -> Session {
    let cfg = ConfigManager { path: None, cfg: PersistConfig::default() };
    Session::new(&cli(), cfg, vec![port("COM1"), port("COM2")], &stamp())
}

fn connected(name: &str) -> Session {
    let mut s = fresh();
    s.take_effects();
    s.port_opened(name.into(), 115200, OpenPurpose::Plain, &stamp());
    s
}

fn last_line(s: &Session) -> (Dir, String) {
    let l = s.out.lines.back().unwrap();
    (l.dir, l.body.clone())
}

fn env() -> CompletionEnv {
    CompletionEnv { files: vec![], ports: vec![] }
}

fn key(code: KeyCode) -> Key {
    Key { code, ctrl: false, alt: false }
}

#[test]
fn start_opens_settings_panel_without_port() {
    let s = fresh();
    assert!(s.panels.settings_open);
    assert_eq!(s.panels.settings_sel, 0);
    assert_eq!(s.panels.port_candidates.len(), 2);
    assert_eq!(last_line(&s).1, "请在弹出的设置面板中选择端口与参数（输入 :settings 可再次打开）");
    assert!(s.effects.is_empty());
}

#[test]
fn start_with_port_opens_it() {
    let mut c = cli();
    c.port = Some("COM7".into());
    let cfg = ConfigManager { path: None, cfg: PersistConfig::default() };
    let mut s = Session::new(&c, cfg, vec![], &stamp());
    let eff = s.take_effects();
    assert_eq!(eff.len(), 1);
    match &eff[0] {
        Effect::Open { params, purpose } => {
            assert_eq!(params.name, "COM7");
            assert_eq!(params.baud, 115200);
            assert_eq!(*purpose, OpenPurpose::Plain);
        }
        _ => panic!("expected an open request"),
    }
}

#[test]
fn start_selects_last_used_port_and_connect_button() {
    let mut cfg = PersistConfig::default();
    cfg.port = Some("COM2".into());
    let s = Session::new(&cli(), ConfigManager { path: None, cfg }, vec![port("COM1"), port("COM2")], &stamp());
    assert_eq!(s.panels.port_idx, 1);
    assert_eq!(s.panels.settings_sel, 8);
}

#[test]
fn baud_command_sets_rate_and_reconnects_when_connected() {
    let mut s = connected("COM3");
    s.execute_command(":baud 9600", &stamp());
    assert_eq!(s.params.baud, 9600);
    let eff = s.take_effects();
    match eff.last().unwrap() {
        Effect::Open { params, .. } => {
            assert_eq!(params.name, "COM3");
            assert_eq!(params.baud, 9600);
        }
        _ => panic!("expected a reopen"),
    }
    assert!(s.out.lines.iter().any(|l| l.body == "波特率: 9600"));
}

#[test]
fn invalid_baud_is_reported() {
    let mut s = fresh();
    s.execute_command(":baud fast", &stamp());
    assert_eq!(last_line(&s), (Dir::Error, "波特率无效: fast".to_string()));
}

#[test]
fn databits_out_of_range_is_rejected() {
    let mut s = fresh();
    s.execute_command(":databits 9", &stamp());
    assert_eq!(last_line(&s), (Dir::Error, "数据位需为 5-8".to_string()));
    assert_eq!(s.params.databits, 8);
}

#[test]
fn port_number_means_com_port() {
    let mut s = fresh();
    s.take_effects();
    s.execute_command("  :port 3  ", &stamp());
    match &s.take_effects()[0] {
        Effect::Open { params, .. } => assert_eq!(params.name, "COM3"),
        _ => panic!("expected an open request"),
    }
}

#[test]
fn send_when_disconnected_reports_error() {
    let mut s = fresh();
    s.execute_command(":send hi", &stamp());
    assert_eq!(last_line(&s), (Dir::Error, "未连接串口，发送失败".to_string()));
}

#[test]
fn send_unescapes_and_strips_quotes() {
    let mut s = connected("COM3");
    s.take_effects();
    s.execute_command(r#":send "a\r\n""#, &stamp());
    let eff = s.take_effects();
    match &eff[0] {
        Effect::Send { bytes, echo, closed_msg } => {
            assert_eq!(bytes, &vec![b'a', b'\r', b'\n']);
            assert_eq!(echo, "a\r\n");
            assert_eq!(closed_msg, "发送通道已关闭（串口未连接）");
        }
        _ => panic!("expected a send"),
    }
    s.sent("a\r\n".into(), &stamp());
    assert_eq!(last_line(&s), (Dir::Tx, "a\r\n".to_string()));
}

#[test]
fn hex_send_parses_pairs() {
    let mut s = connected("COM3");
    s.take_effects();
    s.execute_command(":hex 0x41 42 4a", &stamp());
    match &s.take_effects()[0] {
        Effect::Send { bytes, echo, .. } => {
            assert_eq!(bytes, &vec![0x41, 0x42, 0x4A]);
            assert_eq!(echo, "(HEX) 0x41 42 4a");
        }
        _ => panic!("expected a send"),
    }
}

#[test]
fn hex_send_rejects_odd_digits() {
    let mut s = connected("COM3");
    s.execute_command(":hex 414", &stamp());
    assert_eq!(last_line(&s), (Dir::Error, "十六进制格式无效，如 :hex 41 42 43".to_string()));
}

#[test]
fn hex_toggle_remembers_encoding() {
    let mut s = fresh();
    s.execute_command(":encoding gbk", &stamp());
    s.execute_command(":hex", &stamp());
    assert_eq!(s.params.enc, Encoding::Raw);
    s.execute_command(":hex", &stamp());
    assert_eq!(s.params.enc, Encoding::Gbk);
    assert_eq!(last_line(&s).1, "显示模式: GBK");
}

#[test]
fn unknown_command_is_reported() {
    let mut s = fresh();
    s.execute_command(":frobnicate now", &stamp());
    assert_eq!(last_line(&s), (Dir::Sys, "未知命令: :frobnicate（:help 查看）".to_string()));
}

#[test]
fn status_reports_parameters() {
    let mut s = connected("COM3");
    s.execute_command(":status", &stamp());
    assert_eq!(
        last_line(&s).1,
        "状态:已连接 COM3 @ 115200 baud 8-1-none 编码:UTF-8 模式:行缓冲 RX:0 TX:0"
    );
}

#[test]
fn commands_return_to_newest_output() {
    let mut s = fresh();
    s.out.follow = false;
    s.out.view_top = 5;
    s.execute_command(":status", &stamp());
    assert!(s.out.follow);
    assert_eq!(s.out.view_top, 0);
}

#[test]
fn search_finds_lines_case_insensitively_and_jumps() {
    let mut s = fresh();
    s.execute_command(":clear", &stamp());
    s.on_serial_event(SerialEvent::Replay(Dir::Rx, "Hello one".into()), &stamp());
    s.on_serial_event(SerialEvent::Replay(Dir::Rx, "nothing".into()), &stamp());
    s.on_serial_event(SerialEvent::Replay(Dir::Rx, "HELLO two".into()), &stamp());
    s.execute_command(":search hello", &stamp());
    assert_eq!(s.search.matches, vec![1, 3]);
    assert_eq!(s.search.pos, 0);
    assert!(!s.out.follow);
    assert_eq!(last_line(&s).1, "找到 2 条包含 \"hello\"，已定位到第 1 / 2 条（↑↓ 切换）");
    s.search_jump(true, &stamp());
    assert_eq!(s.search.pos, 1);
    assert_eq!(last_line(&s).1, "已定位到第 2 / 2 条");
    s.search_jump(true, &stamp());
    assert_eq!(s.search.pos, 0);
}

#[test]
fn search_with_index_out_of_range() {
    let mut s = fresh();
    s.on_serial_event(SerialEvent::Replay(Dir::Rx, "abc".into()), &stamp());
    s.execute_command(":find abc 5", &stamp());
    assert_eq!(last_line(&s), (Dir::Error, "序号 5 超出范围（共 1 条匹配）".to_string()));
}

#[test]
fn search_off_clears_highlight() {
    let mut s = fresh();
    s.on_serial_event(SerialEvent::Replay(Dir::Rx, "abc".into()), &stamp());
    s.execute_command(":search abc", &stamp());
    s.execute_command(":search off", &stamp());
    assert!(s.search.kw.is_none());
    assert_eq!(last_line(&s).1, "已清除搜索高亮");
}

#[test]
fn history_skips_repeats_and_keeps_newest() {
    let mut s = fresh();
    s.history_add("a".into());
    s.history_add("a".into());
    s.history_add("b".into());
    assert_eq!(s.input.history, vec!["a".to_string(), "b".to_string()]);
    for i in 0..300 {
        s.history_add(format!("x{}", i));
    }
    assert_eq!(s.input.history.len(), 200);
    assert_eq!(s.input.history.last().unwrap(), "x299");
}

#[test]
fn up_key_browses_history() {
    let mut s = fresh();
    s.panels.settings_open = false;
    s.history_add("first".into());
    s.history_add("second".into());
    match s.handle_key(key(KeyCode::Up), String::new(), &env(), &stamp()) {
        InputAction::SetText(t) => assert_eq!(t, "second"),
        _ => panic!("expected history text"),
    }
    match s.handle_key(key(KeyCode::Up), String::new(), &env(), &stamp()) {
        InputAction::SetText(t) => assert_eq!(t, "first"),
        _ => panic!("expected history text"),
    }
    match s.handle_key(key(KeyCode::Down), "first".into(), &env(), &stamp()) {
        InputAction::SetText(t) => assert_eq!(t, "second"),
        _ => panic!("expected history text"),
    }
}

#[test]
fn enter_on_command_runs_it_and_clears_input() {
    let mut s = fresh();
    s.panels.settings_open = false;
    let act = s.handle_key(key(KeyCode::Enter), ":ts iso".into(), &env(), &stamp());
    assert!(matches!(act, InputAction::Clear));
    assert_eq!(last_line(&s).1, "时间戳: ISO");
    assert_eq!(s.input.history.last().unwrap(), ":ts iso");
}

#[test]
fn enter_completes_partial_command() {
    let mut s = fresh();
    s.panels.settings_open = false;
    s.handle_key(key(KeyCode::Enter), ":stat".into(), &env(), &stamp());
    assert!(last_line(&s).1.starts_with("状态:"));
}

#[test]
fn tab_completes_parameter_values() {
    let mut s = fresh();
    s.panels.settings_open = false;
    match s.handle_key(key(KeyCode::Tab), ":parity o".into(), &env(), &stamp()) {
        InputAction::SetText(t) => assert_eq!(t, ":parity odd"),
        _ => panic!("expected completion"),
    }
}

#[test]
fn direct_mode_sends_each_key() {
    let mut s = connected("COM1");
    s.panels.settings_open = false;
    s.params.mode = serial_term::config::SendMode::Direct;
    s.take_effects();
    let act = s.handle_key(key(KeyCode::Char('x')), String::new(), &env(), &stamp());
    assert!(matches!(act, InputAction::Keep));
    match &s.take_effects()[0] {
        Effect::Send { bytes, .. } => assert_eq!(bytes, &vec![b'x']),
        _ => panic!("expected a send"),
    }
    let act = s.handle_key(key(KeyCode::Char(':')), String::new(), &env(), &stamp());
    assert!(matches!(act, InputAction::Insert(ref t) if t == ":"));
}

#[test]
fn line_mode_enter_sends_with_line_ending() {
    let mut s = connected("COM1");
    s.panels.settings_open = false;
    s.take_effects();
    let act = s.handle_key(key(KeyCode::Enter), "AT".into(), &env(), &stamp());
    assert!(matches!(act, InputAction::Clear));
    match &s.take_effects()[0] {
        Effect::Send { bytes, .. } => assert_eq!(bytes, &b"AT\r\n".to_vec()),
        _ => panic!("expected a send"),
    }
}

#[test]
fn settings_panel_cycles_and_applies() {
    let mut s = fresh();
    s.take_effects();
    s.handle_key(key(KeyCode::Down), String::new(), &env(), &stamp());
    assert_eq!(s.panels.settings_sel, 1);
    s.handle_key(key(KeyCode::Right), String::new(), &env(), &stamp());
    assert_eq!(s.params.baud, 230400);
    s.handle_key(key(KeyCode::Left), String::new(), &env(), &stamp());
    s.handle_key(key(KeyCode::Left), String::new(), &env(), &stamp());
    assert_eq!(s.params.baud, 57600);
    s.panels.settings_sel = 8;
    s.handle_key(key(KeyCode::Enter), String::new(), &env(), &stamp());
    assert!(!s.panels.settings_open);
    match &s.take_effects()[0] {
        Effect::Open { params, purpose } => {
            assert_eq!(params.name, "COM1");
            assert_eq!(params.baud, 57600);
            assert_eq!(*purpose, OpenPurpose::Apply);
        }
        _ => panic!("expected an open request"),
    }
    s.port_opened("COM1".into(), 57600, OpenPurpose::Apply, &stamp());
    assert_eq!(
        last_line(&s).1,
        "已应用: COM1 @ 57600 baud 8-1-none 编码:UTF-8 模式:行缓冲"
    );
}

#[test]
fn opening_records_recent_device_first() {
    let mut s = fresh();
    s.cfg.cfg.recent.push(RecentDevice {
        port: "COM9".into(),
        baud: 9600,
        databits: 8,
        stopbits: "1".into(),
        parity: "none".into(),
        flow: "none".into(),
        encoding: "utf8".into(),
        last_used: "2023-01-01T00:00:00+08:00".into(),
        conn_count: 4,
    });
    s.port_opened("COM3".into(), 115200, OpenPurpose::Plain, &stamp());
    assert_eq!(s.cfg.cfg.recent[0].port, "COM3");
    assert_eq!(s.cfg.cfg.recent[0].conn_count, 1);
    assert_eq!(s.cfg.cfg.recent[1].port, "COM9");
    assert!(s.link.connected);
    assert_eq!(s.link.reconnect_port.as_deref(), Some("COM3"));
    assert_eq!(last_line(&s).1, "已连接 COM3 @ 115200 baud");
}

#[test]
fn recent_pick_restores_parameters_and_opens() {
    let mut s = fresh();
    s.cfg.cfg.recent.push(RecentDevice {
        port: "COM9".into(),
        baud: 9600,
        databits: 7,
        stopbits: "2".into(),
        parity: "even".into(),
        flow: "none".into(),
        encoding: "gbk".into(),
        last_used: "2023-01-01T00:00:00+08:00".into(),
        conn_count: 4,
    });
    s.take_effects();
    s.execute_command(":recent 0", &stamp());
    assert_eq!(s.params.databits, 7);
    assert_eq!(s.params.enc, Encoding::Gbk);
    assert_eq!(last_line(&s).1, "连接历史设备 COM9 @ 9600 (7-2-even)");
    match &s.take_effects()[0] {
        Effect::Open { params, .. } => {
            assert_eq!(params.name, "COM9");
            assert_eq!(params.baud, 9600);
        }
        _ => panic!("expected an open request"),
    }
    s.execute_command(":recent 3", &stamp());
    assert_eq!(last_line(&s), (Dir::Error, "序号 3 超出范围".to_string()));
}

#[test]
fn drop_arms_reconnection_and_tick_retries() {
    let mut s = connected("COM3");
    s.take_effects();
    s.on_serial_event(SerialEvent::Error("gone".into()), &stamp());
    assert_eq!(last_line(&s), (Dir::Error, "gone（已断开）".to_string()));
    assert!(!s.link.connected);
    assert!(s.link.next_reconnect.is_some());
    s.reconnect_tick(true, &stamp());
    assert_eq!(last_line(&s).1, "尝试重连 COM3（第 1 次）");
    match &s.take_effects()[0] {
        Effect::Open { params, purpose } => {
            assert_eq!(params.name, "COM3");
            assert_eq!(*purpose, OpenPurpose::Reconnect);
        }
        _ => panic!("expected an open request"),
    }
    s.port_open_failed("COM3".into(), "busy".into(), OpenPurpose::Reconnect, &stamp());
    assert_eq!(last_line(&s), (Dir::Error, "打开 COM3 失败: busy".to_string()));
    assert!(s.link.next_reconnect.is_some());
    s.port_opened("COM3".into(), 115200, OpenPurpose::Reconnect, &stamp());
    assert!(s.link.reconnect_port.is_none());
}

#[test]
fn write_results_count_bytes_and_report_failures() {
    let mut s = connected("COM3");
    s.on_write_result(WriteResult::Written(5), &stamp());
    assert_eq!(s.link.tx_bytes, 5);
    s.on_write_result(WriteResult::Failed("timeout".into()), &stamp());
    assert_eq!(
        last_line(&s).1,
        "发送失败: timeout（设备可能繁忙未及时读取串口，请稍后重试）"
    );
}

#[test]
fn received_data_becomes_lines() {
    let mut s = connected("COM3");
    s.on_serial_event(SerialEvent::Data(b"ok\r\npart".to_vec()), &stamp());
    assert_eq!(last_line(&s), (Dir::Rx, "ok".to_string()));
    assert_eq!(s.link.rx_bytes, 8);
}

#[test]
fn logging_queues_formatted_lines() {
    let mut s = fresh();
    s.execute_command(":log on", &stamp());
    assert!(matches!(s.take_effects().last(), Some(Effect::StartLog)));
    s.log_opened("serial.log".into(), &stamp());
    s.on_serial_event(SerialEvent::Replay(Dir::Tx, "hi".into()), &stamp());
    match s.take_effects().last() {
        Some(Effect::WriteLog(t)) => assert_eq!(t, "[] [TX ] hi"),
        _ => panic!("expected a log line"),
    }
}

#[test]
fn persisted_configuration_keeps_theme_and_port() {
    let mut s = connected("COM3");
    s.execute_command(":theme nord", &stamp());
    let c = s.to_persist();
    assert_eq!(c.theme, "nord");
    assert_eq!(c.port.as_deref(), Some("COM3"));
    assert_eq!(c.encoding, "utf8");
}

#[test]
fn mouse_wheel_scrolls_and_drag_stops_following() {
    let mut s = fresh();
    s.handle_mouse(MouseKind::Drag);
    assert!(!s.out.follow);
}

#[test]
fn export_lines_are_formatted() {
    let mut s = fresh();
    s.execute_command(":clear", &stamp());
    let lines = s.export_lines();
    assert_eq!(lines, vec!["[] [SYS] 已清屏".to_string()]);
}

#[test]
fn replay_start_and_stop() {
    let mut s = fresh();
    s.execute_command(":replay session.log 2", &stamp());
    match s.take_effects().last() {
        Some(Effect::StartReplay { file, speed }) => {
            assert_eq!(file, "session.log");
            assert_eq!(speed, "2");
        }
        _ => panic!("expected a replay request"),
    }
    s.replay_started("/x/session.log".into(), " @ 2x".into(), &stamp());
    assert!(s.link.replaying);
    s.execute_command(":replay other.log", &stamp());
    assert_eq!(last_line(&s), (Dir::Error, "已有回放在运行，输入 :replay stop 停止".to_string()));
    s.execute_command(":replay stop", &stamp());
    assert!(!s.link.replaying);
    assert_eq!(last_line(&s).1, "回放已停止");
}

#[test]
fn status_line_and_title() {
    let s = connected("COM3");
    assert_eq!(s.status_text(), " ● COM3 │ 115200 8-N-1 │ 编码:UTF-8 │ 行缓冲 │ RX 0 │ TX 0 │ :help");
    assert_eq!(s.input_title(), "> 输入(:命令)  [行发送·UTF-8]");
}

#[test]
fn settings_step_forward_then_back_restores_each_field() {
    let mut s = fresh();
    s.take_effects();
    for sel in 0..8 {
        s.panels.settings_sel = sel;
        let (idx, baud, bits, stop, parity, flow, enc, mode) = (
            s.panels.port_idx,
            s.params.baud,
            s.params.databits,
            s.params.stopbits.clone(),
            s.params.parity.clone(),
            s.params.flow.clone(),
            s.params.enc,
            s.params.mode,
        );
        s.handle_key(key(KeyCode::Right), String::new(), &env(), &stamp());
        s.handle_key(key(KeyCode::Left), String::new(), &env(), &stamp());
        assert_eq!(s.panels.port_idx, idx);
        assert_eq!(s.params.baud, baud);
        assert_eq!(s.params.databits, bits);
        assert_eq!(s.params.stopbits, stop);
        assert_eq!(s.params.parity, parity);
        assert_eq!(s.params.flow, flow);
        assert_eq!(s.params.enc, enc);
        assert_eq!(s.params.mode, mode);
    }
}

#[test]
fn recent_pick_returns_to_newest_output() {
    let mut s = fresh();
    s.cfg.cfg.recent.push(RecentDevice {
        port: "COM9".into(),
        baud: 9600,
        databits: 8,
        stopbits: "1".into(),
        parity: "none".into(),
        flow: "none".into(),
        encoding: "utf8".into(),
        last_used: "2023-01-01T00:00:00+08:00".into(),
        conn_count: 1,
    });
    s.take_effects();
    s.handle_mouse(MouseKind::Drag);
    assert!(!s.out.follow);
    s.execute_command(":recent 0", &stamp());
    assert!(s.out.follow);
    assert_eq!(s.out.view_top, 0);
}
