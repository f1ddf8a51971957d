//! Starting a session and saving what it leaves behind.
use std::collections::VecDeque;
use vstd::prelude::*;
use super::{Codecs, InputState, Link, OpenPurpose, OutputArea, Panels, Params, SearchState, Session, Stamp};
use super::command::fresh_codecs;
use crate::codec::{Encoding, StreamDecoder, StreamEncoder, encoding_named};
use crate::config::{Cli, ConfigManager, PersistConfig, SendMode, Settings, merged_databits, prefer, ts_mode_named};
use crate::logline::{Dir, LineAssembler};
use crate::port::PortDevice;
use crate::text::{owned, str_eq};
use crate::theme::{Theme, theme_named, theme_name_of};

verus! {

broadcast use vstd::string::group_string_axioms;

/// The parameters a session starts with: the command line merged with the
/// configuration file (see `Settings::merge`), the hex view remembering
/// the starting encoding.
pub open spec fn start_params(p: Params, cli: Cli, cfg: PersistConfig) -> bool {
    &&& p.baud == if cli.baud != 115200 { cli.baud } else { cfg.baud }
    &&& p.databits == merged_databits(cli.databits, cfg.databits)
    &&& p.stopbits@ == prefer(cli.stopbits@, "1"@, cfg.stopbits@)
    &&& p.parity@ == prefer(cli.parity@, "none"@, cfg.parity@)
    &&& p.flow@ == prefer(cli.flow@, "none"@, cfg.flow@)
    &&& p.enc == encoding_named(prefer(cli.encoding@, "utf8"@, cfg.encoding@))
    &&& p.pre_hex_enc == p.enc
    &&& p.mode == if cli.mode@ == "direct"@ || cfg.mode@ == "direct"@ { SendMode::Direct } else { SendMode::Line }
    &&& p.ts_mode == ts_mode_named(cli.ts@)
    &&& p.no_tags == cli.no_tags
    &&& p.flush_ms == cli.flush_ms
    &&& p.tx_on_enter@ == cli.tx_on_enter@
    &&& p.keep_input == cli.keep_input
    &&& p.theme == theme_named(prefer(cli.theme@, "github-dark"@, cfg.theme@))
}

/// A freshly made session for `cli` and `cfg`: disconnected, nothing shown,
/// no panel open, the history taken from the configuration.
pub open spec fn initial(s: Session, cli: Cli, cfg: ConfigManager) -> bool {
    &&& s.cfg == cfg
    &&& s.link == (Link {
        port_name: None, connected: false, rx_bytes: 0, tx_bytes: 0, logging: false, reconnect_port: None,
        next_reconnect: None, reconnect_attempts: 0, replaying: false, quit: false,
    })
    &&& start_params(s.params, cli, cfg.cfg)
    &&& fresh_codecs(s.codecs, s.params.enc)
    &&& s.out.lines@.len() == 0 && s.out.render_rows@.len() == 0 && s.out.render_w == 0 && s.out.dirty
    &&& s.out.follow && s.out.out_height == 0 && s.out.view_top == 0
    &&& s.input.history@ == cfg.cfg.history@ && s.input.hist_pos == 0 && s.input.completion_idx == 0
    &&& s.input.last_cmd_prefix@.len() == 0
    &&& !s.panels.help_open && s.panels.help_scroll == 0 && !s.panels.settings_open && s.panels.settings_sel == 0
    &&& s.panels.port_candidates@.len() == 0 && s.panels.port_idx == 0
    &&& s.search.kw is None && s.search.matches@.len() == 0 && s.search.pos == 0
    &&& s.effects@.len() == 0
}

/// The position of the first port called `name`, or the count when none is.
pub open spec fn port_position(ports: Seq<PortDevice>, name: Seq<char>) -> nat
    decreases ports.len(),
{
    if ports.len() == 0 {
        0
    } else if ports[0].name@ == name {
        0
    } else {
        1 + port_position(ports.drop_first(), name)
    }
}

/// The session after start-up. With a port on the command line, or with
/// automatic connection asked for, the port given (else the one last used,
/// else the first present) is opened, or the lack of ports reported.
/// Otherwise the settings panel opens with a hint. The present ports become
/// the panel's choices with the last used one selected; an open panel then
/// starts on the connect button when that port is present, else on the
/// port field.
pub open spec fn started(cli: Cli, cfg: ConfigManager, ports: Seq<PortDevice>, stamp: Stamp, s: Session) -> bool {
    let last = cfg.cfg.port;
    let has_last = last matches Some(p) && port_position(ports, p@) < ports.len();
    exists|s0: Session, m: Session|
        initial(s0, cli, cfg)
        && (if cli.port is Some || cli.auto_connect {
            let target = if cli.port is Some { cli.port } else { last };
            match target {
                Some(p) => s0.with_open(m, p@, s0.params.baud, OpenPurpose::Plain),
                None => if ports.len() > 0 {
                    s0.with_open(m, ports[0].name@, s0.params.baud, OpenPurpose::Plain)
                } else {
                    s0.with_lines(m, stamp, seq![(Dir::Error, "未检测到可用串口，请打开设置面板选择端口"@)])
                },
            }
        } else {
            exists|m0: Session|
                s0.with_lines(m0, stamp, seq![(Dir::Sys, "请在弹出的设置面板中选择端口与参数（输入 :settings 可再次打开）"@)])
                && m == (Session { panels: Panels { settings_open: true, ..m0.panels }, ..m0 })
        })
        && s == (Session {
            panels: Panels {
                port_candidates: s.panels.port_candidates,
                port_idx: if has_last { port_position(ports, last->0@) as usize } else { m.panels.port_idx },
                settings_sel: if m.panels.settings_open { if has_last { 8 } else { 0 } } else { m.panels.settings_sel },
                ..m.panels
            },
            ..m
        })
        && s.panels.port_candidates@ == ports
}

impl Session {
    /// Starts a session (see `started`); `ports` are the serial ports
    /// present.
    pub fn new(cli: &Cli, cfg: ConfigManager, ports: Vec<PortDevice>, stamp: &Stamp) -> (s: Session)
        ensures
            s.wf(),
            started(*cli, cfg, ports@, *stamp, s),
    {
        let ghost cfg0 = cfg;
        let st = Settings::merge(cli, &cfg.cfg);
        let enc = st.enc;
        let mut s = Session {
            cfg,
            link: Link {
                port_name: None,
                connected: false,
                rx_bytes: 0,
                tx_bytes: 0,
                logging: false,
                reconnect_port: None,
                next_reconnect: None,
                reconnect_attempts: 0,
                replaying: false,
                quit: false,
            },
            params: Params {
                baud: st.baud,
                databits: st.databits,
                stopbits: st.stopbits,
                parity: st.parity,
                flow: st.flow,
                enc,
                pre_hex_enc: enc,
                mode: st.mode,
                ts_mode: st.ts_mode,
                no_tags: st.no_tags,
                flush_ms: st.flush_ms,
                tx_on_enter: st.tx_on_enter,
                keep_input: st.keep_input,
                theme: st.theme,
            },
            codecs: Codecs {
                decoder: StreamDecoder::new(enc),
                encoder: StreamEncoder::new(enc),
                assembler: LineAssembler::new(),
            },
            out: OutputArea {
                lines: VecDeque::new(),
                render_rows: VecDeque::new(),
                render_w: 0,
                dirty: true,
                follow: true,
                out_height: 0,
                view_top: 0,
            },
            input: InputState { history: st.history, hist_pos: 0, completion_idx: 0, last_cmd_prefix: String::new() },
            panels: Panels {
                help_open: false,
                help_scroll: 0,
                settings_open: false,
                settings_sel: 0,
                port_candidates: Vec::new(),
                port_idx: 0,
            },
            search: SearchState { kw: None, matches: Vec::new(), pos: 0 },
            effects: Vec::new(),
        };
        let ghost s0 = s;
        assert(initial(s0, *cli, cfg0));
        if cli.port.is_some() || cli.auto_connect {
            let target = match &cli.port {
                Some(p) => Some(p.clone()),
                None => match &s.cfg.cfg.port {
                    Some(p) => Some(p.clone()),
                    None => None,
                },
            };
            match target {
                Some(p) => {
                    let baud = s.params.baud;
                    s.open_port(p, baud, OpenPurpose::Plain);
                },
                None => {
                    if ports.len() > 0 {
                        let name = ports[0].name.clone();
                        let baud = s.params.baud;
                        s.open_port(name, baud, OpenPurpose::Plain);
                    } else {
                        s.push_line(Dir::Error, owned("未检测到可用串口，请打开设置面板选择端口"), stamp);
                    }
                },
            }
        } else {
            s.push_line(Dir::Sys, owned("请在弹出的设置面板中选择端口与参数（输入 :settings 可再次打开）"), stamp);
            s.panels.settings_open = true;
        }
        let ghost m = s;
        let mut has_last = false;
        let mut idx: usize = 0;
        match &s.cfg.cfg.port {
            Some(last) => {
                let n = ports.len();
                let mut i: usize = 0;
                assert(ports@.skip(0) =~= ports@);
                while i < n && !str_eq(ports[i].name.as_str(), last.as_str())
                    invariant
                        n == ports@.len(),
                        0 <= i <= n,
                        port_position(ports@, last@) == i + port_position(ports@.skip(i as int), last@),
                    decreases n - i,
                {
                    assert(ports@.skip(i as int).drop_first() =~= ports@.skip(i + 1));
                    i += 1;
                }
                if i < n {
                    assert(ports@.skip(i as int)[0] == ports@[i as int]);
                    has_last = true;
                    idx = i;
                } else {
                    assert(ports@.skip(i as int).len() == 0);
                }
            },
            None => {},
        }
        s.panels.port_candidates = ports;
        if has_last {
            s.panels.port_idx = idx;
        }
        if s.panels.settings_open {
            s.panels.settings_sel = if has_last { 8 } else { 0 };
        }
        s
    }

    /// The first line of a running session.
    pub fn welcome(&mut self, stamp: &Stamp)
        requires
            old(self).wf(),
        ensures
            final(self).wf(),
            old(self).with_lines(*final(self), *stamp, seq![(Dir::Sys, "输入 :help 查看全部命令"@)]),
    {
        self.push_line(Dir::Sys, owned("输入 :help 查看全部命令"), stamp);
    }

    /// The configuration to save when the session ends: the current port,
    /// parameters, theme and history; the recent devices as recorded.
    pub fn to_persist(&self) -> (c: PersistConfig)
        ensures
            c.port == self.link.port_name,
            c.baud == self.params.baud,
            c.databits == self.params.databits,
            c.stopbits == self.params.stopbits,
            c.parity == self.params.parity,
            c.flow == self.params.flow,
            c.encoding@ == self.params.enc.spec_name(),
            c.mode@ == if self.params.mode == SendMode::Direct { "direct"@ } else { "line"@ },
            c.theme@ == theme_name_of(self.params.theme),
            c.history@ == self.input.history@,
            c.recent@ == self.cfg.cfg.recent@,
    {
        PersistConfig {
            port: super::clone_opt(&self.link.port_name),
            baud: self.params.baud,
            databits: self.params.databits,
            stopbits: self.params.stopbits.clone(),
            parity: self.params.parity.clone(),
            flow: self.params.flow.clone(),
            encoding: owned(self.params.enc.as_str_name()),
            mode: owned(if self.params.mode == SendMode::Direct { "direct" } else { "line" }),
            theme: owned(self.params.theme.name_of()),
            history: crate::config::clone_strings(&self.input.history),
            recent: crate::config::clone_recent(&self.cfg.cfg.recent),
        }
    }
}

} // verus!

verus! {

/// The theme survives a restart: a session whose theme was chosen by name
/// saves it so that a session started from that configuration, with no
/// theme on the command line, has the same theme.
pub proof fn law_theme_survives_restart(s: Session, chosen: Seq<char>, saved: PersistConfig, cli: Cli, p: Params)
    requires
        s.params.theme == theme_named(chosen),
        saved.theme@ == theme_name_of(s.params.theme),
        cli.theme@ == "github-dark"@,
        start_params(p, cli, saved),
    ensures
        p.theme == s.params.theme,
{
    crate::theme::law_theme_saved_name_round_trip(theme_named(chosen));
}

} // verus!
