//! The serial link: reconnection, replay, logging and export commands, the
//! reports the caller hands back, serial events and the timer tick.
use std::time::{Duration, Instant};
use vstd::prelude::*;
use super::{Codecs, Effect, Link, OpenPurpose, OutputArea, Params, Session, Stamp, format_line, formatted, line_view, one_more};
use super::command::fresh_codecs;
use crate::codec::{Encoding, hex_view, pushed};
use crate::config::{ConfigManager, Connection, PersistConfig, record_recent, recent_after};
use crate::events::{SerialEvent, WriteResult};
use crate::logline::{Dir, LineAssembler, lines_after, rest_after, utf8_len};
use crate::text::{concat, dec, dec_string, owned, parse_dec, parse_dec_str, push_str, split_words, str_eq, trim, trim_string, words};

verus! {

broadcast use vstd::string::group_string_axioms;

/// A port argument: a bare number `n` (after trimming) means `COM<n>`.
pub open spec fn normalized_port(s: Seq<char>) -> Seq<char> {
    match parse_dec(trim(s), u32::MAX as nat) {
        Some(n) => "COM"@ + dec(n),
        None => trim(s),
    }
}

/// Normalizes a port argument (see `normalized_port`).
pub fn normalize_port(s: &str) -> (r: String)
    ensures
        r@ == normalized_port(s@),
{
    let t = trim_string(s);
    match parse_dec_str(t.as_str(), u32::MAX as u64) {
        Some(n) => concat("COM", dec_string(n).as_str()),
        None => t,
    }
}

/// The outcome of `:reconnect [port|off]` / `:auto`.
pub open spec fn reconnect_done(s0: Session, s1: Session, arg: Seq<char>, stamp: Stamp) -> bool {
    if arg == "off"@ {
        (Session { link: Link { reconnect_port: None, next_reconnect: None, ..s0.link }, ..s0 })
            .said(s1, stamp, Dir::Sys, "已关闭断线自动重连"@)
    } else if arg.len() == 0 {
        s0.said(s1, stamp, Dir::Sys, "断线自动重连: "@ + match s0.link.reconnect_port {
            Some(p) => p@,
            None => "关闭"@,
        })
    } else {
        let port = normalized_port(arg);
        exists|m1: Session, m2: Session, m3: Session|
            m1 == (Session {
                link: Link { reconnect_port: m1.link.reconnect_port, next_reconnect: None, reconnect_attempts: 0, ..s0.link },
                ..s0
            })
            && (m1.link.reconnect_port matches Some(p) && p@ == port)
            && m1.with_lines(m2, stamp, seq![(Dir::Sys, "已启用断线自动重连 -> "@ + port)])
            && (if s0.link.connected { m3 == m2 } else { m2.with_open(m3, port, s0.params.baud, OpenPurpose::RetryOnFailure) })
            && s1 == m3.with_view(true, 0)
    }
}

/// The outcome of `:replay stop`.
pub open spec fn replay_stop_done(s0: Session, s1: Session, stamp: Stamp) -> bool {
    if !s0.link.replaying {
        s0.said(s1, stamp, Dir::Sys, "当前没有回放在运行"@)
    } else {
        exists|m: Session|
            m == (Session { link: Link { replaying: false, ..s0.link }, effects: m.effects, ..s0 })
            && one_more(s0.effects@, m.effects@) && m.effects@.last() is StopReplay
            && m.said(s1, stamp, Dir::Sys, "回放已停止"@)
    }
}

/// The outcome of `:replay <file> [speed]`: the first word names the file
/// and the second, if any, the speed.
pub open spec fn replay_start_done(s0: Session, s1: Session, arg: Seq<char>, stamp: Stamp) -> bool {
    let ws = words(arg);
    let file = if ws.len() > 0 { ws[0] } else { Seq::empty() };
    let speed = if ws.len() > 1 { ws[1] } else { Seq::empty() };
    if file.len() == 0 {
        s0.said(s1, stamp, Dir::Error, "用法: :replay <日志文件> [倍率]"@)
    } else if s0.link.replaying {
        s0.said(s1, stamp, Dir::Error, "已有回放在运行，输入 :replay stop 停止"@)
    } else {
        &&& s1 == (Session { effects: s1.effects, ..s0 }).with_view(true, 0)
        &&& one_more(s0.effects@, s1.effects@)
        &&& (s1.effects@.last() matches Effect::StartReplay { file: f, speed: v } && f@ == file && v@ == speed)
    }
}

/// The outcome of `:replay <arg>`.
pub open spec fn replay_done(s0: Session, s1: Session, arg: Seq<char>, stamp: Stamp) -> bool {
    if arg == "stop"@ { replay_stop_done(s0, s1, stamp) } else { replay_start_done(s0, s1, arg, stamp) }
}

impl Session {
    /// `:reconnect [port|off]`: shows, sets or clears the port reconnected
    /// to after the link drops; setting it tries at once when disconnected.
    pub fn cmd_reconnect(&mut self, arg: &str, stamp: &Stamp)
        requires
            old(self).wf(),
        ensures
            final(self).wf(),
            reconnect_done(*old(self), *final(self), arg@, *stamp),
    {
        if str_eq(arg, "off") {
            self.link.reconnect_port = None;
            self.link.next_reconnect = None;
            self.say(Dir::Sys, owned("已关闭断线自动重连"), stamp);
            return;
        }
        if arg.is_empty() {
            let msg = match &self.link.reconnect_port {
                Some(p) => concat("断线自动重连: ", p.as_str()),
                None => concat("断线自动重连: ", "关闭"),
            };
            self.say(Dir::Sys, msg, stamp);
            return;
        }
        let port = normalize_port(arg);
        self.link.reconnect_port = Some(port.clone());
        self.link.next_reconnect = None;
        self.link.reconnect_attempts = 0;
        let ghost m1 = *self;
        self.push_line(Dir::Sys, concat("已启用断线自动重连 -> ", port.as_str()), stamp);
        let ghost m2 = *self;
        if !self.link.connected {
            let baud = self.params.baud;
            self.open_port(port, baud, OpenPurpose::RetryOnFailure);
        }
        let ghost m3 = *self;
        self.goto_bottom();
        assert(m1.with_lines(m2, *stamp, seq![(Dir::Sys, "已启用断线自动重连 -> "@ + normalized_port(arg@))]));
        assert(*self == m3.with_view(true, 0));
    }

    /// `:replay <file> [speed]` / `:replay stop` (see `replay_done`).
    pub fn cmd_replay(&mut self, arg: &str, stamp: &Stamp)
        requires
            old(self).wf(),
        ensures
            final(self).wf(),
            replay_done(*old(self), *final(self), arg@, *stamp),
    {
        if str_eq(arg, "stop") {
            if !self.link.replaying {
                self.say(Dir::Sys, owned("当前没有回放在运行"), stamp);
                return;
            }
            self.queue(Effect::StopReplay);
            self.link.replaying = false;
            let ghost m = *self;
            self.say(Dir::Sys, owned("回放已停止"), stamp);
            assert(old(self).effects@ =~= m.effects@.drop_last());
            return;
        }
        let ws = split_words(arg);
        let ghost wv = ws@.map_values(|w: String| w@);
        let file = if ws.len() > 0 { ws[0].clone() } else { String::new() };
        let speed = if ws.len() > 1 { ws[1].clone() } else { String::new() };
        proof {
            if ws@.len() > 0 {
                assert(wv[0] == ws@[0]@);
            }
            if ws@.len() > 1 {
                assert(wv[1] == ws@[1]@);
            }
        }
        if file.as_str().is_empty() {
            self.say(Dir::Error, owned("用法: :replay <日志文件> [倍率]"), stamp);
            return;
        }
        if self.link.replaying {
            self.say(Dir::Error, owned("已有回放在运行，输入 :replay stop 停止"), stamp);
            return;
        }
        self.queue(Effect::StartReplay { file, speed });
        self.goto_bottom();
        assert(old(self).effects@ =~= self.effects@.drop_last());
    }

    /// An unknown command name is reported.
    pub fn cmd_unknown(&mut self, name: &str, stamp: &Stamp)
        requires
            old(self).wf(),
        ensures
            final(self).wf(),
            old(self).said(*final(self), *stamp, Dir::Sys, "未知命令: "@ + name@ + "（:help 查看）"@),
    {
        let mut msg = concat("未知命令: ", name);
        push_str(&mut msg, "（:help 查看）");
        self.say(Dir::Sys, msg, stamp);
    }

    /// The log file was created: output lines from now on go to it.
    pub fn log_opened(&mut self, path: String, stamp: &Stamp)
        requires
            old(self).wf(),
        ensures
            final(self).wf(),
            exists|m: Session| old(self).with_lines(m, *stamp, seq![(Dir::Sys, "日志已开启 -> "@ + path@)])
                && *final(self) == (Session { link: Link { logging: true, ..m.link }, ..m }),
    {
        self.push_line(Dir::Sys, concat("日志已开启 -> ", path.as_str()), stamp);
        let ghost m = *self;
        self.link.logging = true;
        assert(*self == (Session { link: Link { logging: true, ..m.link }, ..m }));
    }

    /// Creating the log file failed.
    pub fn log_failed(&mut self, err: String, stamp: &Stamp)
        requires
            old(self).wf(),
        ensures
            final(self).wf(),
            old(self).with_lines(*final(self), *stamp, seq![(Dir::Error, "创建日志失败: "@ + err@)]),
    {
        self.push_line(Dir::Error, concat("创建日志失败: ", err.as_str()), stamp);
    }

    /// Writing to the log file failed: logging stops.
    pub fn log_write_failed(&mut self)
        ensures
            *final(self) == (Session { link: Link { logging: false, ..old(self).link }, ..*old(self) }),
    {
        self.link.logging = false;
    }

    /// The output lines as written to an export file, oldest first.
    pub fn export_lines(&self) -> (r: Vec<String>)
        ensures
            r@.len() == self.out.lines@.len(),
            forall|i: int| 0 <= i < r@.len() ==> #[trigger] r@[i]@ == formatted(
                self.out.lines@[i].ts, self.out.lines@[i].dir, self.out.lines@[i].body@),
    {
        let mut r: Vec<String> = Vec::new();
        let mut i: usize = 0;
        while i < self.out.lines.len()
            invariant
                0 <= i <= self.out.lines@.len(),
                r@.len() == i,
                forall|k: int| 0 <= k < i ==> #[trigger] r@[k]@ == formatted(
                    self.out.lines@[k].ts, self.out.lines@[k].dir, self.out.lines@[k].body@),
            decreases self.out.lines@.len() - i,
        {
            r.push(format_line(&self.out.lines[i]));
            i += 1;
        }
        r
    }

    /// The output was exported to `path`.
    pub fn export_done(&mut self, path: String, stamp: &Stamp)
        requires
            old(self).wf(),
        ensures
            final(self).wf(),
            old(self).with_lines(*final(self), *stamp, seq![(Dir::Sys, "日志已导出 -> "@ + path@)]),
    {
        self.push_line(Dir::Sys, concat("日志已导出 -> ", path.as_str()), stamp);
    }

    /// Exporting failed.
    pub fn export_failed(&mut self, err: String, stamp: &Stamp)
        requires
            old(self).wf(),
        ensures
            final(self).wf(),
            old(self).with_lines(*final(self), *stamp, seq![(Dir::Error, "导出失败: "@ + err@)]),
    {
        self.push_line(Dir::Error, concat("导出失败: ", err.as_str()), stamp);
    }

    /// The replay of `path` started (`speed_label` is empty at normal speed).
    pub fn replay_started(&mut self, path: String, speed_label: String, stamp: &Stamp)
        requires
            old(self).wf(),
        ensures
            final(self).wf(),
            exists|m: Session| old(self).with_lines(m, *stamp, seq![(Dir::Sys, "开始回放 "@ + path@ + speed_label@ + "（请勿手动发送）"@)])
                && *final(self) == (Session { link: Link { replaying: true, ..m.link }, ..m }),
    {
        let mut msg = concat("开始回放 ", path.as_str());
        push_str(&mut msg, speed_label.as_str());
        push_str(&mut msg, "（请勿手动发送）");
        self.push_line(Dir::Sys, msg, stamp);
        let ghost m = *self;
        self.link.replaying = true;
        assert(*self == (Session { link: Link { replaying: true, ..m.link }, ..m }));
    }

    /// The replay file does not exist.
    pub fn replay_missing(&mut self, path: String, stamp: &Stamp)
        requires
            old(self).wf(),
        ensures
            final(self).wf(),
            old(self).with_lines(*final(self), *stamp, seq![(Dir::Error, "回放文件不存在: "@ + path@)]),
    {
        self.push_line(Dir::Error, concat("回放文件不存在: ", path.as_str()), stamp);
    }

    /// The replay ran to its end.
    pub fn replay_finished(&mut self)
        ensures
            *final(self) == (Session { link: Link { replaying: false, ..old(self).link }, ..*old(self) }),
    {
        self.link.replaying = false;
    }
}

} // verus!

verus! {

/// Seconds between automatic reconnection attempts.
pub const RECONNECT_INTERVAL_SECS: u64 = 1;

/// A span of `secs` whole seconds (std's `Duration::from_secs`). Durations
/// are opaque here, so nothing is stated of it.
#[verifier::external_body]
fn seconds(secs: u64) -> Duration {
    Duration::from_secs(secs)
}

/// `t` plus `d`, or `None` when the clock cannot represent it (std's
/// `Instant::checked_add`). Instants are opaque here, so nothing more is
/// stated of the result.
#[verifier::external_body]
fn checked_add_instant(t: Instant, d: Duration) -> Option<Instant> {
    t.checked_add(d)
}

/// Whether `now` is at or after `deadline` (std's `Instant` ordering).
/// Instants are opaque here, so nothing is stated of the answer.
#[verifier::external_body]
fn reached(now: Instant, deadline: Instant) -> bool {
    now >= deadline
}

/// The outcome of the port `name` opening at `baud`: connected with fresh
/// codecs and zeroed counters, the device recorded among the recent ones
/// at the stamp's time, the port remembered for reconnection, and the
/// connection reported. A successful automatic reconnection then stops
/// reconnecting.
pub open spec fn opened(s0: Session, s1: Session, name: String, baud: u32, purpose: OpenPurpose, stamp: Stamp) -> bool {
    exists|m1: Session, m2: Session, c: Connection|
        m1 == (Session {
            link: Link {
                port_name: Some(name),
                connected: true,
                rx_bytes: 0,
                tx_bytes: 0,
                reconnect_port: m1.link.reconnect_port,
                next_reconnect: None,
                reconnect_attempts: 0,
                ..s0.link
            },
            params: Params { baud, ..s0.params },
            codecs: m1.codecs,
            cfg: ConfigManager { cfg: PersistConfig { recent: m1.cfg.cfg.recent, ..s0.cfg.cfg }, ..s0.cfg },
            ..s0
        })
        && fresh_codecs(m1.codecs, s0.params.enc)
        && c.port == name && c.baud == baud && c.databits == s0.params.databits
        && c.stopbits == s0.params.stopbits && c.parity == s0.params.parity && c.flow == s0.params.flow
        && c.encoding@ == s0.params.enc.spec_name()
        && m1.cfg.cfg.recent@ == recent_after(s0.cfg.cfg.recent@, c, stamp.iso)
        && (m1.link.reconnect_port matches Some(p) && p@ == name@)
        && m1.with_lines(m2, stamp, seq![(Dir::Sys, "已连接 "@ + name@ + " @ "@ + dec(baud as nat) + " baud"@)])
        && if purpose == OpenPurpose::Reconnect {
            s1 == Session { link: Link { reconnect_port: None, next_reconnect: None, reconnect_attempts: 0, ..m2.link }, ..m2 }
        } else if purpose == OpenPurpose::Apply {
            m2.with_lines(s1, stamp, seq![(Dir::Sys, applied_msg(m2, name@))])
        } else {
            s1 == m2
        }
}

/// The report after applying the settings for `port`.
pub open spec fn applied_msg(s: Session, port: Seq<char>) -> Seq<char> {
    "已应用: "@ + port + " @ "@ + dec(s.params.baud as nat) + " baud "@ + dec(s.params.databits as nat) + "-"@
        + s.params.stopbits@ + "-"@ + s.params.parity@ + " 编码:"@ + s.params.enc.spec_label()
        + " 模式:"@ + super::mode_label_of(s.params.mode)
}

/// The outcome of opening `name` failing with `err`: disconnected, the
/// failure reported; after an automatic attempt, or on setting the
/// reconnection target, another attempt is scheduled.
pub open spec fn open_failed(s0: Session, s1: Session, name: String, err: Seq<char>, purpose: OpenPurpose, stamp: Stamp) -> bool {
    exists|m: Session|
        (Session { link: Link { connected: false, port_name: Some(name), ..s0.link }, ..s0 })
            .with_lines(m, stamp, seq![(Dir::Error, "打开 "@ + name@ + " 失败: "@ + err)])
        && if purpose == OpenPurpose::Plain {
            s1 == m
        } else if purpose == OpenPurpose::Apply {
            m.with_lines(s1, stamp, seq![(Dir::Sys, applied_msg(m, name@))])
        } else {
            s1 == (Session { link: Link { next_reconnect: s1.link.next_reconnect, ..m.link }, ..m })
                && s1.link.next_reconnect is Some
        }
}

impl Session {
    /// Reports the applied settings for `port`.
    fn push_applied(&mut self, port: &str, stamp: &Stamp)
        requires
            old(self).wf(),
        ensures
            final(self).wf(),
            old(self).with_lines(*final(self), *stamp, seq![(Dir::Sys, applied_msg(*old(self), port@))]),
    {
        let mut msg = concat("已应用: ", port);
        push_str(&mut msg, " @ ");
        push_str(&mut msg, dec_string(self.params.baud as u64).as_str());
        push_str(&mut msg, " baud ");
        push_str(&mut msg, dec_string(self.params.databits as u64).as_str());
        push_str(&mut msg, "-");
        push_str(&mut msg, self.params.stopbits.as_str());
        push_str(&mut msg, "-");
        push_str(&mut msg, self.params.parity.as_str());
        push_str(&mut msg, " 编码:");
        push_str(&mut msg, self.params.enc.label());
        push_str(&mut msg, " 模式:");
        push_str(&mut msg, self.mode_label());
        self.push_line(Dir::Sys, msg, stamp);
    }

    /// The caller opened `name` at `baud` (see `opened`).
    pub fn port_opened(&mut self, name: String, baud: u32, purpose: OpenPurpose, stamp: &Stamp)
        requires
            old(self).wf(),
        ensures
            final(self).wf(),
            opened(*old(self), *final(self), name, baud, purpose, *stamp),
    {
        self.link.port_name = Some(name.clone());
        self.params.baud = baud;
        self.link.connected = true;
        self.reset_codecs();
        self.link.rx_bytes = 0;
        self.link.tx_bytes = 0;
        let c = Connection {
            port: name.clone(),
            baud,
            databits: self.params.databits,
            stopbits: self.params.stopbits.clone(),
            parity: self.params.parity.clone(),
            flow: self.params.flow.clone(),
            encoding: owned(self.params.enc.as_str_name()),
        };
        let ghost cg = c;
        record_recent(&mut self.cfg.cfg.recent, c, stamp.iso.clone());
        let same = match &self.link.reconnect_port {
            Some(p) => str_eq(p.as_str(), name.as_str()),
            None => false,
        };
        if !same {
            self.link.reconnect_port = Some(name.clone());
        }
        self.link.next_reconnect = None;
        self.link.reconnect_attempts = 0;
        let ghost m1 = *self;
        let mut msg = concat("已连接 ", name.as_str());
        push_str(&mut msg, " @ ");
        push_str(&mut msg, dec_string(baud as u64).as_str());
        push_str(&mut msg, " baud");
        self.push_line(Dir::Sys, msg, stamp);
        let ghost m2 = *self;
        if purpose == OpenPurpose::Reconnect {
            self.link.reconnect_port = None;
            self.link.next_reconnect = None;
            self.link.reconnect_attempts = 0;
        } else if purpose == OpenPurpose::Apply {
            self.push_applied(name.as_str(), stamp);
        }
        assert(m1.cfg.cfg.recent@ == recent_after(old(self).cfg.cfg.recent@, cg, stamp.iso));
        assert(m1.with_lines(m2, *stamp, seq![(Dir::Sys, "已连接 "@ + name@ + " @ "@ + dec(baud as nat) + " baud"@)]));
    }

    /// The caller failed to open `name` (see `open_failed`).
    pub fn port_open_failed(&mut self, name: String, err: String, purpose: OpenPurpose, stamp: &Stamp)
        requires
            old(self).wf(),
        ensures
            final(self).wf(),
            open_failed(*old(self), *final(self), name, err@, purpose, *stamp),
    {
        self.link.connected = false;
        self.link.port_name = Some(name.clone());
        let mut msg = concat("打开 ", name.as_str());
        push_str(&mut msg, " 失败: ");
        push_str(&mut msg, err.as_str());
        self.push_line(Dir::Error, msg, stamp);
        let ghost m = *self;
        if purpose == OpenPurpose::Apply {
            self.push_applied(name.as_str(), stamp);
        } else if purpose != OpenPurpose::Plain {
            let next = match checked_add_instant(stamp.now, seconds(RECONNECT_INTERVAL_SECS)) {
                Some(t) => t,
                None => stamp.now,
            };
            self.link.next_reconnect = Some(next);
            assert(*self == (Session { link: Link { next_reconnect: self.link.next_reconnect, ..m.link }, ..m }));
        }
    }
}

/// `x + y` wrapped to 64 bits, as a release build's `+=` on `u64` does.
pub open spec fn wrap_add(x: u64, y: u64) -> u64 {
    if x + y <= u64::MAX { (x + y) as u64 } else { (x + y - 0x1_0000_0000_0000_0000) as u64 }
}

fn wrapping_add_u64(x: u64, y: u64) -> (r: u64)
    ensures
        r == wrap_add(x, y),
{
    if x <= u64::MAX - y { x + y } else { y - (u64::MAX - x) - 1 }
}

/// The assembler `a1` is `a0` after feeding `text` at `now`.
pub open spec fn assembled(a0: LineAssembler, a1: LineAssembler, text: Seq<char>, now: Instant) -> bool {
    &&& a1.pending() == rest_after(a0.pending(), text)
    &&& a1.max_pending() == a0.max_pending()
    &&& a1.last_flushed() == if text.contains('\n') { now } else { a0.last_flushed() }
}

/// The output entries for received lines.
pub open spec fn rx_entries(lines: Seq<Seq<char>>) -> Seq<(Dir, Seq<char>)> {
    lines.map_values(|l: Seq<char>| (Dir::Rx, l))
}

/// The outcome of decoded text `text` arriving: nothing when it is empty;
/// otherwise the assembler takes it and each completed line is added.
pub open spec fn decoded_done(s0: Session, s1: Session, text: Seq<char>, stamp: Stamp) -> bool {
    if text.len() == 0 {
        s1 == s0
    } else {
        exists|m: Session|
            m == (Session { codecs: Codecs { assembler: m.codecs.assembler, ..s0.codecs }, ..s0 })
            && assembled(s0.codecs.assembler, m.codecs.assembler, text, stamp.now)
            && m.with_lines(s1, stamp, rx_entries(lines_after(s0.codecs.assembler.pending(), text)))
    }
}

/// The outcome of received bytes: counted, the screen marked for redrawing,
/// decoded by the stream decoder (in the hex view, to their hex rendering)
/// and handed on as `decoded_done` says.
pub open spec fn data_done(s0: Session, s1: Session, bytes: Seq<u8>, stamp: Stamp) -> bool {
    exists|m: Session, text: Seq<char>|
        m == (Session {
            link: Link { rx_bytes: wrap_add(s0.link.rx_bytes, bytes.len() as u64), ..s0.link },
            out: OutputArea { dirty: true, ..s0.out },
            codecs: Codecs { decoder: m.codecs.decoder, ..s0.codecs },
            ..s0
        })
        && m.codecs.decoder.wf()
        && pushed(s0.codecs.decoder, m.codecs.decoder, bytes, text)
        && decoded_done(m, s1, text, stamp)
}

/// The outcome of a serial event.
pub open spec fn event_done(s0: Session, s1: Session, ev: SerialEvent, stamp: Stamp) -> bool {
    match ev {
        SerialEvent::Data(b) => data_done(s0, s1, b@, stamp),
        SerialEvent::Error(e) => exists|m: Session|
            s0.with_lines(m, stamp, seq![(Dir::Error, e@ + "（已断开）"@)])
            && if m.link.reconnect_port is Some && m.link.connected {
                s1 == (Session { link: Link { connected: false, next_reconnect: Some(stamp.now), ..m.link }, ..m })
            } else {
                s1 == m
            },
        SerialEvent::Replay(d, body) => s0.with_lines(s1, stamp, seq![(d, body@)]),
        SerialEvent::Overflow(n) => s0.with_lines(s1, stamp,
            seq![(Dir::Error, "数据积压，已丢弃 "@ + dec(n as nat) + " 块 RX 数据（设备输出过快或 UI 繁忙）"@)]),
    }
}

impl Session {
    /// Hands decoded text to the line assembler and adds the completed lines.
    pub fn take_decoded(&mut self, text: String, stamp: &Stamp)
        requires
            old(self).wf(),
        ensures
            final(self).wf(),
            decoded_done(*old(self), *final(self), text@, *stamp),
    {
        if text.as_str().is_empty() {
            return;
        }
        let lines = self.codecs.assembler.push(text.as_str(), stamp.now);
        let ghost s0 = *self;
        let ghost all = rx_entries(crate::logline::views(lines@));
        proof {
            super::lemma_appended_none(s0.out, s0.effects@, s0.link.logging, s0.params.ts_mode, *stamp);
            assert(all.take(0) =~= Seq::<(Dir, Seq<char>)>::empty());
        }
        let mut i: usize = 0;
        while i < lines.len()
            invariant
                0 <= i <= lines@.len(),
                s0.wf(),
                self.wf(),
                all == rx_entries(crate::logline::views(lines@)),
                s0.with_lines(*self, *stamp, all.take(i as int)),
            decreases lines@.len() - i,
        {
            let line = lines[i].clone();
            let ghost before = *self;
            self.push_line(Dir::Rx, line, stamp);
            proof {
                Session::lemma_with_lines_push(s0, before, *self, *stamp, all.take(i as int), (Dir::Rx, line@));
                assert(all.take(i as int).push((Dir::Rx, line@)) =~= all.take(i + 1));
            }
            i += 1;
        }
        proof {
            assert(all.take(lines@.len() as int) =~= all);
        }
    }

    /// Handles an event from the reader or replay thread (see `event_done`).
    pub fn on_serial_event(&mut self, ev: SerialEvent, stamp: &Stamp)
        requires
            old(self).wf(),
        ensures
            final(self).wf(),
            event_done(*old(self), *final(self), ev, *stamp),
    {
        match ev {
            SerialEvent::Data(bytes) => {
                self.link.rx_bytes = wrapping_add_u64(self.link.rx_bytes, bytes.len() as u64);
                self.out.dirty = true;
                let text = self.codecs.decoder.push(bytes.as_slice());
                let ghost m = *self;
                self.take_decoded(text, stamp);
                assert(m == (Session {
                    link: Link { rx_bytes: wrap_add(old(self).link.rx_bytes, bytes@.len() as u64), ..old(self).link },
                    out: OutputArea { dirty: true, ..old(self).out },
                    codecs: Codecs { decoder: m.codecs.decoder, ..old(self).codecs },
                    ..*old(self)
                }));
                assert(decoded_done(m, *self, text@, *stamp));
            },
            SerialEvent::Error(e) => {
                let msg = concat(e.as_str(), "（已断开）");
                self.push_line(Dir::Error, msg, stamp);
                if self.link.reconnect_port.is_some() && self.link.connected {
                    self.link.connected = false;
                    self.link.next_reconnect = Some(stamp.now);
                }
            },
            SerialEvent::Replay(d, body) => {
                self.push_line(d, body, stamp);
            },
            SerialEvent::Overflow(n) => {
                let mut msg = concat("数据积压，已丢弃 ", dec_string(n as u64).as_str());
                push_str(&mut msg, " 块 RX 数据（设备输出过快或 UI 繁忙）");
                self.push_line(Dir::Error, msg, stamp);
            },
        }
    }

    /// Handles the writer's report: bytes written are counted; a failure is shown.
    pub fn on_write_result(&mut self, r: WriteResult, stamp: &Stamp)
        requires
            old(self).wf(),
        ensures
            final(self).wf(),
            match r {
                WriteResult::Written(n) => *final(self) == (Session {
                    link: Link { tx_bytes: wrap_add(old(self).link.tx_bytes, n as u64), ..old(self).link },
                    ..*old(self)
                }),
                WriteResult::Failed(e) => old(self).with_lines(*final(self), *stamp,
                    seq![(Dir::Error, "发送失败: "@ + e@ + "（设备可能繁忙未及时读取串口，请稍后重试）"@)]),
            },
    {
        match r {
            WriteResult::Written(n) => {
                self.link.tx_bytes = wrapping_add_u64(self.link.tx_bytes, n as u64);
            },
            WriteResult::Failed(e) => {
                let mut msg = concat("发送失败: ", e.as_str());
                push_str(&mut msg, "（设备可能繁忙未及时读取串口，请稍后重试）");
                self.push_line(Dir::Error, msg, stamp);
            },
        }
    }
}

/// Whether an automatic reconnection attempt is waiting for its time.
pub open spec fn reconnect_armed(s: Session) -> bool {
    s.link.reconnect_port is Some && !s.link.connected && s.link.next_reconnect is Some
}

/// The outcome of the reconnection check: when armed and `due`, the
/// attempt is counted (wrapping), reported and the port opened for an
/// automatic reconnection; otherwise nothing changes.
pub open spec fn reconnect_ticked(s0: Session, s1: Session, due: bool, stamp: Stamp) -> bool {
    if reconnect_armed(s0) && due {
        let port = s0.link.reconnect_port->0;
        let n = if s0.link.reconnect_attempts < u32::MAX { (s0.link.reconnect_attempts + 1) as u32 } else { 0u32 };
        exists|m: Session|
            (Session { link: Link { reconnect_attempts: n, ..s0.link }, ..s0 })
                .with_lines(m, stamp, seq![(Dir::Sys, "尝试重连 "@ + port@ + "（第 "@ + dec(n as nat) + " 次）"@)])
            && m.with_open(s1, port@, s0.params.baud, OpenPurpose::Reconnect)
    } else {
        s1 == s0
    }
}

/// The outcome of flushing a stale half line: nothing, or the pending text
/// added as a received line with the assembler emptied at `now`. Which of
/// the two depends on the clock; a half line at the byte limit is always
/// flushed.
pub open spec fn flushed(s0: Session, s1: Session, now: Instant, stamp: Stamp) -> bool {
    let a0 = s0.codecs.assembler;
    let taken = exists|m: Session|
        m == (Session { codecs: Codecs { assembler: m.codecs.assembler, ..s0.codecs }, ..s0 })
        && m.codecs.assembler.pending() == Seq::<char>::empty()
        && m.codecs.assembler.last_flushed() == now
        && m.codecs.assembler.max_pending() == a0.max_pending()
        && m.with_lines(s1, stamp, seq![(Dir::Rx, a0.pending())]);
    &&& a0.pending().len() == 0 ==> s1 == s0
    &&& a0.pending().len() > 0 ==> (s1 == s0 || taken)
    &&& a0.pending().len() > 0 && utf8_len(a0.pending()) >= a0.max_pending() ==> taken
}

impl Session {
    /// Attempts an automatic reconnection when one is armed and `due`.
    pub fn reconnect_tick(&mut self, due: bool, stamp: &Stamp)
        requires
            old(self).wf(),
        ensures
            final(self).wf(),
            reconnect_ticked(*old(self), *final(self), due, *stamp),
    {
        if !due || self.link.connected || self.link.next_reconnect.is_none() {
            return;
        }
        let port = match &self.link.reconnect_port {
            Some(p) => p.clone(),
            None => {
                return;
            },
        };
        let n = if self.link.reconnect_attempts < u32::MAX { self.link.reconnect_attempts + 1 } else { 0 };
        self.link.reconnect_attempts = n;
        let mut msg = concat("尝试重连 ", port.as_str());
        push_str(&mut msg, "（第 ");
        push_str(&mut msg, dec_string(n as u64).as_str());
        push_str(&mut msg, " 次）");
        self.push_line(Dir::Sys, msg, stamp);
        let baud = self.params.baud;
        self.open_port(port, baud, OpenPurpose::Reconnect);
    }

    /// Flushes the pending half line when it is stale at `now`.
    pub fn flush_stale(&mut self, now: Instant, stamp: &Stamp)
        requires
            old(self).wf(),
        ensures
            final(self).wf(),
            flushed(*old(self), *final(self), now, *stamp),
    {
        let flush_ms = self.params.flush_ms;
        match self.codecs.assembler.take_pending_if_stale(flush_ms, now) {
            Some(line) => {
                let ghost m = *self;
                self.push_line(Dir::Rx, line, stamp);
                assert(m == (Session { codecs: Codecs { assembler: m.codecs.assembler, ..old(self).codecs }, ..*old(self) }));
            },
            None => {},
        }
    }

    /// The periodic tick: flushes a stale half line, then attempts an armed
    /// reconnection whose time has come.
    pub fn tick(&mut self, now: Instant, stamp: &Stamp)
        requires
            old(self).wf(),
        ensures
            final(self).wf(),
            exists|m: Session, due: bool| flushed(*old(self), m, now, *stamp) && reconnect_ticked(m, *final(self), due, *stamp),
    {
        self.flush_stale(now, stamp);
        let ghost m = *self;
        let due = match self.link.next_reconnect {
            Some(t) => reached(now, t),
            None => false,
        };
        self.reconnect_tick(due, stamp);
        assert(flushed(*old(self), m, now, *stamp) && reconnect_ticked(m, *self, due, *stamp));
    }
}

} // verus!

verus! {

/// Losing the link while a reconnection target is set marks the link
/// disconnected and arms a reconnection attempt at once.
pub proof fn law_drop_arms_reconnect(s0: Session, s1: Session, e: String, stamp: Stamp)
    requires
        event_done(s0, s1, SerialEvent::Error(e), stamp),
        s0.link.reconnect_port is Some,
        s0.link.connected,
    ensures
        reconnect_armed(s1),
        s1.link.next_reconnect == Some(stamp.now),
{
}

} // verus!
