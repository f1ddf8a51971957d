//! Commands for panels, scrolling, recent devices, reconnection and replay,
//! and the reports the caller hands back after doing the work they ask for.
use vstd::prelude::*;
use super::{Effect, Link, OpenPurpose, Panels, Params, Session, Stamp, one_more};
use super::command::fresh_codecs;
use crate::codec::{Encoding, encoding_named};
use crate::config::RecentDevice;
use crate::logline::Dir;
use crate::port::{PortDevice, join, summary_sep};
use crate::text::{concat, dec, dec_string, owned, parse_dec, parse_dec_str, push_str, split_words, str_eq, trim, trim_string, words};

verus! {

broadcast use vstd::string::group_string_axioms;

/// The outcome of `:help` / `?`.
pub open spec fn help_done(s0: Session, s1: Session) -> bool {
    s1 == (Session { panels: Panels { help_scroll: 0, help_open: true, ..s0.panels }, ..s0 }).with_view(true, 0)
}

/// The outcome of `:quit` / `:exit`.
pub open spec fn quit_done(s0: Session, s1: Session) -> bool {
    s1 == (Session { link: Link { quit: true, ..s0.link }, ..s0 }).with_view(true, 0)
}

/// The outcome of `:settings` / `:config`: the panel opens on its first
/// field and the port list is refreshed.
pub open spec fn settings_done(s0: Session, s1: Session) -> bool {
    &&& s1 == (Session { panels: Panels { settings_open: true, settings_sel: 0, ..s0.panels }, effects: s1.effects, ..s0 }).with_view(true, 0)
    &&& one_more(s0.effects@, s1.effects@)
    &&& s1.effects@.last() is RefreshPorts
}

/// The outcome of `:list`: the ports are listed once the caller has them.
pub open spec fn list_done(s0: Session, s1: Session) -> bool {
    &&& s1 == (Session { effects: s1.effects, ..s0 }).with_view(true, 0)
    &&& one_more(s0.effects@, s1.effects@)
    &&& s1.effects@.last() is ListPorts
}

impl Session {
    /// `:help`: opens the help panel at its top.
    pub fn cmd_help(&mut self)
        ensures
            help_done(*old(self), *final(self)),
    {
        self.panels.help_scroll = 0;
        self.panels.help_open = true;
        self.goto_bottom();
    }

    /// `:quit`: ends the session.
    pub fn cmd_quit(&mut self)
        ensures
            quit_done(*old(self), *final(self)),
    {
        self.link.quit = true;
        self.goto_bottom();
    }

    /// `:settings`: opens the settings panel.
    pub fn cmd_settings(&mut self)
        ensures
            settings_done(*old(self), *final(self)),
    {
        self.queue(Effect::RefreshPorts);
        self.panels.settings_open = true;
        self.panels.settings_sel = 0;
        self.goto_bottom();
        assert(old(self).effects@ =~= self.effects@.drop_last());
    }

    /// `:list`: asks for the serial ports to be listed.
    pub fn cmd_list(&mut self)
        ensures
            list_done(*old(self), *final(self)),
    {
        self.queue(Effect::ListPorts);
        self.goto_bottom();
        assert(old(self).effects@ =~= self.effects@.drop_last());
    }

    /// The refreshed port list for the settings panel; the selection goes
    /// back to the first port when it no longer points at one.
    pub fn set_port_candidates(&mut self, ports: Vec<PortDevice>)
        ensures
            *final(self) == (Session {
                panels: Panels {
                    port_candidates: ports,
                    port_idx: if old(self).panels.port_idx >= ports@.len() && ports@.len() > 0 { 0 } else { old(self).panels.port_idx },
                    ..old(self).panels
                },
                ..*old(self)
            }),
    {
        let n = ports.len();
        self.panels.port_candidates = ports;
        if self.panels.port_idx >= n && n > 0 {
            self.panels.port_idx = 0;
        }
    }
}

/// A listed port: its name and, when known, its summary in brackets.
pub open spec fn port_line(p: PortDevice) -> Seq<char> {
    p.name@ + if p.summary_parts().len() > 0 { "  ["@ + join(p.summary_parts(), summary_sep()) + "]"@ } else { Seq::empty() }
}

/// The output lines listing `ports`: one per port, then the count.
pub open spec fn port_list_entries(ports: Seq<PortDevice>) -> Seq<(Dir, Seq<char>)> {
    if ports.len() == 0 {
        seq![(Dir::Error, "未检测到可用串口"@)]
    } else {
        ports.map_values(|p: PortDevice| (Dir::Sys, port_line(p))).push((Dir::Sys, "共 "@ + dec(ports.len()) + " 个串口"@))
    }
}

impl Session {
    /// Lists the ports the caller found for `:list`.
    pub fn show_port_list(&mut self, ports: &Vec<PortDevice>, stamp: &Stamp)
        requires
            old(self).wf(),
        ensures
            final(self).wf(),
            old(self).with_lines(*final(self), *stamp, port_list_entries(ports@)),
    {
        if ports.len() == 0 {
            self.push_line(Dir::Error, owned("未检测到可用串口"), stamp);
            return;
        }
        let ghost s0 = *self;
        let ghost all = ports@.map_values(|p: PortDevice| (Dir::Sys, port_line(p)));
        proof {
            super::lemma_appended_none(s0.out, s0.effects@, s0.link.logging, s0.params.ts_mode, *stamp);
            assert(all.take(0) =~= Seq::<(Dir, Seq<char>)>::empty());
        }
        let mut i: usize = 0;
        while i < ports.len()
            invariant
                0 <= i <= ports@.len(),
                s0.wf(),
                self.wf(),
                all == ports@.map_values(|p: PortDevice| (Dir::Sys, port_line(p))),
                s0.with_lines(*self, *stamp, all.take(i as int)),
            decreases ports@.len() - i,
        {
            let p = &ports[i];
            let mut line = owned(p.name());
            match p.summary() {
                Some(s) => {
                    push_str(&mut line, "  [");
                    push_str(&mut line, s.as_str());
                    push_str(&mut line, "]");
                },
                None => {},
            }
            assert(line@ == port_line(ports@[i as int]));
            let ghost before = *self;
            self.push_line(Dir::Sys, line, stamp);
            proof {
                Session::lemma_with_lines_push(s0, before, *self, *stamp, all.take(i as int), (Dir::Sys, port_line(ports@[i as int])));
                assert(all.take(i as int).push((Dir::Sys, port_line(ports@[i as int]))) =~= all.take(i + 1));
            }
            i += 1;
        }
        let msg = {
            let mut m = concat("共 ", dec_string(ports.len() as u64).as_str());
            push_str(&mut m, " 个串口");
            m
        };
        let ghost before = *self;
        self.push_line(Dir::Sys, msg, stamp);
        proof {
            assert(all.take(ports@.len() as int) =~= all);
            Session::lemma_with_lines_push(s0, before, *self, *stamp, all, (Dir::Sys, "共 "@ + dec(ports@.len()) + " 个串口"@));
        }
    }
}

/// The outcome of `:tail` / `:live` / `:follow`.
pub open spec fn tail_done(s0: Session, s1: Session, stamp: Stamp) -> bool {
    s0.with_view(true, 0).with_lines(s1, stamp, seq![(Dir::Sys, "已回到最新输出"@)])
}

/// The outcome of `:top`.
pub open spec fn top_done(s0: Session, s1: Session, stamp: Stamp) -> bool {
    s0.with_view(false, 0).with_lines(s1, stamp, seq![(Dir::Sys, "已回到输出顶部"@)])
}

/// The outcome of `:scroll <arg>`.
pub open spec fn scroll_done(s0: Session, s1: Session, arg: Seq<char>, stamp: Stamp) -> bool {
    if arg == "up"@ || arg == "u"@ {
        s1 == s0.scrolled_up(10)
    } else if arg == "down"@ || arg == "d"@ {
        s1 == s0.scrolled_down(10)
    } else {
        match parse_dec(arg, usize::MAX as nat) {
            Some(n) => s1 == s0.scrolled_up(n as usize),
            None => s0.with_lines(s1, stamp, seq![(Dir::Error, "用法: :scroll up|down|<行数>"@)]),
        }
    }
}

impl Session {
    /// `:tail`: back to following the newest output.
    pub fn cmd_tail(&mut self, stamp: &Stamp)
        requires
            old(self).wf(),
        ensures
            final(self).wf(),
            tail_done(*old(self), *final(self), *stamp),
    {
        self.goto_bottom();
        self.push_line(Dir::Sys, owned("已回到最新输出"), stamp);
    }

    /// `:top`: shows the oldest output.
    pub fn cmd_top(&mut self, stamp: &Stamp)
        requires
            old(self).wf(),
        ensures
            final(self).wf(),
            top_done(*old(self), *final(self), *stamp),
    {
        self.out.follow = false;
        self.out.view_top = 0;
        self.push_line(Dir::Sys, owned("已回到输出顶部"), stamp);
    }

    /// `:scroll up|down|<rows>`.
    pub fn cmd_scroll(&mut self, arg: &str, stamp: &Stamp)
        requires
            old(self).wf(),
        ensures
            final(self).wf(),
            scroll_done(*old(self), *final(self), arg@, *stamp),
    {
        if str_eq(arg, "up") || str_eq(arg, "u") {
            self.scroll_up(10);
        } else if str_eq(arg, "down") || str_eq(arg, "d") {
            self.scroll_down(10);
        } else {
            match parse_dec_str(arg, usize::MAX as u64) {
                Some(n) => self.scroll_up(n as usize),
                None => self.push_line(Dir::Error, owned("用法: :scroll up|down|<行数>"), stamp),
            }
        }
    }
}

} // verus!

verus! {

/// A listed recent device.
pub open spec fn recent_line(i: int, r: RecentDevice, current: Option<String>) -> Seq<char> {
    "["@ + dec(i as nat) + "] "@ + r.port@ + " @ "@ + dec(r.baud as nat) + " "@ + dec(r.databits as nat)
        + "-"@ + r.stopbits@ + "-"@ + r.parity@ + " 编码:"@ + r.encoding@ + " 连接"@ + dec(r.conn_count as nat) + "次"@
        + if current matches Some(c) && c@ == r.port@ { " ●当前"@ } else { Seq::empty() }
}

/// The output lines listing the recent devices, then how to pick one.
pub open spec fn recent_entries(rs: Seq<RecentDevice>, current: Option<String>) -> Seq<(Dir, Seq<char>)> {
    Seq::new(rs.len(), |i: int| (Dir::Sys, recent_line(i, rs[i], current))).push((Dir::Sys, "用法: :recent <序号> 连接对应设备"@))
}

/// The outcome of `:recent` with an index: the device's parameters are
/// restored (the codecs are remade when its encoding differs), the choice
/// is reported and its port opened; then back to the newest output.
pub open spec fn recent_pick_done(s0: Session, s1: Session, idx: int, stamp: Stamp) -> bool {
    let r = s0.cfg.cfg.recent@[idx];
    let enc = encoding_named(r.encoding@);
    exists|m1: Session, m2: Session, m3: Session|
        m1 == (Session {
            params: Params { databits: r.databits, stopbits: r.stopbits, parity: r.parity, flow: r.flow, enc, ..s0.params },
            codecs: m1.codecs,
            ..s0
        })
        && (enc == s0.params.enc ==> m1.codecs == s0.codecs)
        && (enc != s0.params.enc ==> fresh_codecs(m1.codecs, enc))
        && m1.with_lines(m2, stamp, seq![(Dir::Sys, "连接历史设备 "@ + r.port@ + " @ "@ + dec(r.baud as nat)
            + " ("@ + dec(r.databits as nat) + "-"@ + r.stopbits@ + "-"@ + r.parity@ + ")"@)])
        && m2.with_open(m3, r.port@, r.baud, OpenPurpose::Plain)
        && s1 == m3.with_view(true, 0)
}

/// The outcome of `:recent [index]`.
pub open spec fn recent_done(s0: Session, s1: Session, arg: Seq<char>, stamp: Stamp) -> bool {
    let rs = s0.cfg.cfg.recent@;
    match parse_dec(arg, usize::MAX as nat) {
        Some(idx) => if idx < rs.len() {
            recent_pick_done(s0, s1, idx as int, stamp)
        } else {
            s0.said(s1, stamp, Dir::Error, "序号 "@ + dec(idx) + " 超出范围"@)
        },
        None => if rs.len() == 0 {
            s0.said(s1, stamp, Dir::Sys, "暂无历史设备记录"@)
        } else {
            exists|m: Session| s0.with_lines(m, stamp, recent_entries(rs, s0.link.port_name)) && s1 == m.with_view(true, 0)
        },
    }
}

impl Session {
    /// The line listing recent device `i`.
    fn recent_line_of(&self, i: usize) -> (s: String)
        requires
            i < self.cfg.cfg.recent@.len(),
        ensures
            s@ == recent_line(i as int, self.cfg.cfg.recent@[i as int], self.link.port_name),
    {
        let r = &self.cfg.cfg.recent[i];
        let mut s = concat("[", dec_string(i as u64).as_str());
        push_str(&mut s, "] ");
        push_str(&mut s, r.port.as_str());
        push_str(&mut s, " @ ");
        push_str(&mut s, dec_string(r.baud as u64).as_str());
        push_str(&mut s, " ");
        push_str(&mut s, dec_string(r.databits as u64).as_str());
        push_str(&mut s, "-");
        push_str(&mut s, r.stopbits.as_str());
        push_str(&mut s, "-");
        push_str(&mut s, r.parity.as_str());
        push_str(&mut s, " 编码:");
        push_str(&mut s, r.encoding.as_str());
        push_str(&mut s, " 连接");
        push_str(&mut s, dec_string(r.conn_count).as_str());
        push_str(&mut s, "次");
        let cur = match &self.link.port_name {
            Some(p) => str_eq(p.as_str(), r.port.as_str()),
            None => false,
        };
        if cur {
            push_str(&mut s, " ●当前");
        }
        s
    }

    /// `:recent [index]`: lists the recent devices, or connects to one with
    /// its parameters (see `recent_done`).
    pub fn cmd_recent(&mut self, arg: &str, stamp: &Stamp)
        requires
            old(self).wf(),
        ensures
            final(self).wf(),
            recent_done(*old(self), *final(self), arg@, *stamp),
    {
        match parse_dec_str(arg, usize::MAX as u64) {
            Some(v) => {
                let idx = v as usize;
                if idx >= self.cfg.cfg.recent.len() {
                    let mut msg = concat("序号 ", dec_string(v).as_str());
                    push_str(&mut msg, " 超出范围");
                    self.say(Dir::Error, msg, stamp);
                    return;
                }
                let port = self.cfg.cfg.recent[idx].port.clone();
                let baud = self.cfg.cfg.recent[idx].baud;
                let databits = self.cfg.cfg.recent[idx].databits;
                let stopbits = self.cfg.cfg.recent[idx].stopbits.clone();
                let parity = self.cfg.cfg.recent[idx].parity.clone();
                let flow = self.cfg.cfg.recent[idx].flow.clone();
                let enc = Encoding::from_str_name(self.cfg.cfg.recent[idx].encoding.as_str());
                self.params.databits = databits;
                self.params.stopbits = stopbits;
                self.params.parity = parity;
                self.params.flow = flow;
                if enc != self.params.enc {
                    self.params.enc = enc;
                    self.reset_codecs();
                } else {
                    self.params.enc = enc;
                }
                let ghost m1 = *self;
                let mut msg = concat("连接历史设备 ", port.as_str());
                push_str(&mut msg, " @ ");
                push_str(&mut msg, dec_string(baud as u64).as_str());
                push_str(&mut msg, " (");
                push_str(&mut msg, dec_string(self.params.databits as u64).as_str());
                push_str(&mut msg, "-");
                push_str(&mut msg, self.params.stopbits.as_str());
                push_str(&mut msg, "-");
                push_str(&mut msg, self.params.parity.as_str());
                push_str(&mut msg, ")");
                self.push_line(Dir::Sys, msg, stamp);
                let ghost m2 = *self;
                self.open_port(port, baud, OpenPurpose::Plain);
                assert(m1.with_lines(m2, *stamp, seq![(Dir::Sys, "连接历史设备 "@ + old(self).cfg.cfg.recent@[idx as int].port@
                    + " @ "@ + dec(baud as nat) + " ("@ + dec(databits as nat) + "-"@ + m1.params.stopbits@ + "-"@
                    + m1.params.parity@ + ")"@)]));
                assert(m2.with_open(*self, old(self).cfg.cfg.recent@[idx as int].port@, baud, OpenPurpose::Plain));
                let ghost m3 = *self;
                self.goto_bottom();
                assert(*self == m3.with_view(true, 0));
                return;
            },
            None => {},
        }
        if self.cfg.cfg.recent.len() == 0 {
            self.say(Dir::Sys, owned("暂无历史设备记录"), stamp);
            return;
        }
        let ghost s0 = *self;
        let ghost rs = s0.cfg.cfg.recent@;
        let ghost all = recent_entries(rs, s0.link.port_name);
        proof {
            super::lemma_appended_none(s0.out, s0.effects@, s0.link.logging, s0.params.ts_mode, *stamp);
            assert(all.take(0) =~= Seq::<(Dir, Seq<char>)>::empty());
        }
        let n = self.cfg.cfg.recent.len();
        let mut i: usize = 0;
        while i < n
            invariant
                n == rs.len(),
                0 <= i <= n,
                s0.wf(),
                self.wf(),
                self.cfg == s0.cfg,
                self.link == s0.link,
                rs == s0.cfg.cfg.recent@,
                all == recent_entries(rs, s0.link.port_name),
                s0.with_lines(*self, *stamp, all.take(i as int)),
            decreases n - i,
        {
            let line = self.recent_line_of(i);
            let ghost before = *self;
            self.push_line(Dir::Sys, line, stamp);
            proof {
                Session::lemma_with_lines_push(s0, before, *self, *stamp, all.take(i as int), (Dir::Sys, line@));
                assert(all.take(i as int).push((Dir::Sys, line@)) =~= all.take(i + 1));
            }
            i += 1;
        }
        let ghost before = *self;
        self.push_line(Dir::Sys, owned("用法: :recent <序号> 连接对应设备"), stamp);
        proof {
            Session::lemma_with_lines_push(s0, before, *self, *stamp, all.take(n as int), (Dir::Sys, "用法: :recent <序号> 连接对应设备"@));
            assert(all.take(n as int).push((Dir::Sys, "用法: :recent <序号> 连接对应设备"@)) =~= all);
        }
        let ghost m = *self;
        self.goto_bottom();
        assert(s0.with_lines(m, *stamp, all) && *self == m.with_view(true, 0));
    }
}

} // verus!
