//! Parameter and display commands typed after `:`.
use vstd::prelude::*;
use super::{Codecs, Effect, Link, OpenPurpose, OutputArea, Params, SearchState, Session, Stamp, one_more};
use crate::codec::{Encoding, StreamDecoder, StreamEncoder, encoding_named};
use crate::config::{SendMode, TsMode};
use crate::logline::{Dir, LineAssembler, MAX_PENDING};
use crate::text::{concat, dec, dec_string, owned, parse_dec, parse_dec_str, push_str, str_eq};
use crate::theme::{Theme, theme_named};

verus! {

broadcast use vstd::string::group_string_axioms;

/// Codecs freshly made for `enc`.
pub open spec fn fresh_codecs(c: Codecs, enc: Encoding) -> bool {
    &&& c.decoder.wf() && c.decoder.encoding() == enc
    &&& c.decoder.undetected().len() == 0 && c.decoder.detected() is None
    &&& c.decoder.stream() == crate::codec::fresh_stream(enc)
    &&& c.encoder.encoding() == enc
    &&& c.assembler.pending().len() == 0 && c.assembler.max_pending() == MAX_PENDING
}

impl Session {
    /// `next` is this session with the connection re-opened when connected.
    pub open spec fn reconnected(self, next: Session) -> bool {
        if self.link.connected && self.link.port_name is Some {
            self.with_open(next, self.link.port_name->0@, self.params.baud, OpenPurpose::Plain)
        } else {
            next == self
        }
    }

    /// `next` is this session after `push_line` of one entry and going back
    /// to the newest output.
    pub open spec fn said(self, next: Session, stamp: Stamp, dir: Dir, msg: Seq<char>) -> bool {
        exists|m: Session| self.with_lines(m, stamp, seq![(dir, msg)]) && next == m.with_view(true, 0)
    }

    /// Re-creates the decoder, encoder and line assembler for the encoding.
    pub fn reset_codecs(&mut self)
        ensures
            *final(self) == (Session { codecs: final(self).codecs, ..*old(self) }),
            fresh_codecs(final(self).codecs, old(self).params.enc),
    {
        self.codecs = Codecs {
            decoder: StreamDecoder::new(self.params.enc),
            encoder: StreamEncoder::new(self.params.enc),
            assembler: LineAssembler::new(),
        };
    }

    /// Re-opens the current port after a parameter change, when connected.
    pub fn reconnect_current(&mut self)
        ensures
            old(self).reconnected(*final(self)),
    {
        if self.link.connected {
            match &self.link.port_name {
                Some(p) => {
                    let name = p.clone();
                    let baud = self.params.baud;
                    self.open_port(name, baud, OpenPurpose::Plain);
                },
                None => {},
            }
        }
    }

    /// Adds a line and goes back to the newest output.
    pub fn say(&mut self, dir: Dir, msg: String, stamp: &Stamp)
        requires
            old(self).wf(),
        ensures
            final(self).wf(),
            old(self).said(*final(self), *stamp, dir, msg@),
    {
        self.push_line(dir, msg, stamp);
        let ghost m = *self;
        self.goto_bottom();
        assert(old(self).with_lines(m, *stamp, seq![(dir, msg@)]) && *self == m.with_view(true, 0));
    }
}

/// The outcome of `:baud <arg>`.
pub open spec fn baud_done(s0: Session, s1: Session, arg: Seq<char>, stamp: Stamp) -> bool {
    match parse_dec(arg, u32::MAX as nat) {
        Some(n) => exists|m1: Session, m2: Session|
            m1 == (Session { params: Params { baud: n as u32, ..s0.params }, ..s0 })
            && m1.with_lines(m2, stamp, seq![(Dir::Sys, "波特率: "@ + dec(n))])
            && exists|m3: Session| m2.reconnected(m3) && s1 == m3.with_view(true, 0),
        None => s0.said(s1, stamp, Dir::Error, "波特率无效: "@ + arg),
    }
}

/// The outcome of `:databits <arg>`.
pub open spec fn databits_done(s0: Session, s1: Session, arg: Seq<char>, stamp: Stamp) -> bool {
    match parse_dec(arg, u8::MAX as nat) {
        Some(n) if 5 <= n <= 8 => exists|m1: Session, m2: Session|
            m1 == (Session { params: Params { databits: n as u8, ..s0.params }, ..s0 })
            && m1.with_lines(m2, stamp, seq![(Dir::Sys, "数据位: "@ + dec(n))])
            && exists|m3: Session| m2.reconnected(m3) && s1 == m3.with_view(true, 0),
        _ => s0.said(s1, stamp, Dir::Error, "数据位需为 5-8"@),
    }
}

/// The outcome of setting a string line parameter: `field_ok` says whether
/// the argument is allowed; `set` whether `m1` is `s0` with the field set to it.
pub open spec fn string_param_done(
    s0: Session, s1: Session, ok: bool, set: spec_fn(Session) -> bool, stamp: Stamp, ok_msg: Seq<char>, err_msg: Seq<char>,
) -> bool {
    if ok {
        exists|m1: Session, m2: Session|
            set(m1) && m1.with_lines(m2, stamp, seq![(Dir::Sys, ok_msg)])
            && exists|m3: Session| m2.reconnected(m3) && s1 == m3.with_view(true, 0)
    } else {
        s0.said(s1, stamp, Dir::Error, err_msg)
    }
}

/// The outcome of `:stopbits <arg>`.
pub open spec fn stopbits_done(s0: Session, s1: Session, arg: Seq<char>, stamp: Stamp) -> bool {
    string_param_done(s0, s1, arg == "1"@ || arg == "2"@,
        |m: Session| m.params.stopbits@ == arg && m == (Session { params: Params { stopbits: m.params.stopbits, ..s0.params }, ..s0 }),
        stamp, "停止位: "@ + arg, "停止位需为 1 或 2"@)
}

/// The outcome of `:parity <arg>`.
pub open spec fn parity_done(s0: Session, s1: Session, arg: Seq<char>, stamp: Stamp) -> bool {
    string_param_done(s0, s1, arg == "none"@ || arg == "odd"@ || arg == "even"@,
        |m: Session| m.params.parity@ == arg && m == (Session { params: Params { parity: m.params.parity, ..s0.params }, ..s0 }),
        stamp, "校验位: "@ + arg, "校验位需为 none/odd/even"@)
}

/// The outcome of `:flow <arg>`.
pub open spec fn flow_done(s0: Session, s1: Session, arg: Seq<char>, stamp: Stamp) -> bool {
    string_param_done(s0, s1, arg == "none"@ || arg == "software"@ || arg == "hardware"@,
        |m: Session| m.params.flow@ == arg && m == (Session { params: Params { flow: m.params.flow, ..s0.params }, ..s0 }),
        stamp, "流控: "@ + arg, "流控需为 none/software/hardware"@)
}

impl Session {
    /// `:baud <n>`: sets the baud rate and re-opens the port when connected.
    pub fn cmd_baud(&mut self, arg: &str, stamp: &Stamp)
        requires
            old(self).wf(),
        ensures
            final(self).wf(),
            baud_done(*old(self), *final(self), arg@, *stamp),
    {
        match parse_dec_str(arg, u32::MAX as u64) {
            Some(n) => {
                let n = n as u32;
                self.params.baud = n;
                let ghost m1 = *self;
                let msg = concat("波特率: ", dec_string(n as u64).as_str());
                self.push_line(Dir::Sys, msg, stamp);
                let ghost m2 = *self;
                self.reconnect_current();
                let ghost m3 = *self;
                self.goto_bottom();
                assert(m1.with_lines(m2, *stamp, seq![(Dir::Sys, "波特率: "@ + dec(n as nat))]));
                assert(m2.reconnected(m3) && *self == m3.with_view(true, 0));
            },
            None => {
                let msg = concat("波特率无效: ", arg);
                self.say(Dir::Error, msg, stamp);
            },
        }
    }

    /// `:databits <5-8>`: sets the data bits and re-opens the port when connected.
    pub fn cmd_databits(&mut self, arg: &str, stamp: &Stamp)
        requires
            old(self).wf(),
        ensures
            final(self).wf(),
            databits_done(*old(self), *final(self), arg@, *stamp),
    {
        match parse_dec_str(arg, u8::MAX as u64) {
            Some(n) => {
                if 5 <= n && n <= 8 {
                    let n = n as u8;
                    self.params.databits = n;
                    let ghost m1 = *self;
                    let msg = concat("数据位: ", dec_string(n as u64).as_str());
                    self.push_line(Dir::Sys, msg, stamp);
                    let ghost m2 = *self;
                    self.reconnect_current();
                    let ghost m3 = *self;
                    self.goto_bottom();
                    assert(m1.with_lines(m2, *stamp, seq![(Dir::Sys, "数据位: "@ + dec(n as nat))]));
                    assert(m2.reconnected(m3) && *self == m3.with_view(true, 0));
                } else {
                    self.say(Dir::Error, owned("数据位需为 5-8"), stamp);
                }
            },
            None => {
                self.say(Dir::Error, owned("数据位需为 5-8"), stamp);
            },
        }
    }

    /// `:stopbits <1|2>`.
    pub fn cmd_stopbits(&mut self, arg: &str, stamp: &Stamp)
        requires
            old(self).wf(),
        ensures
            final(self).wf(),
            stopbits_done(*old(self), *final(self), arg@, *stamp),
    {
        if str_eq(arg, "1") || str_eq(arg, "2") {
            self.params.stopbits = owned(arg);
            let ghost m1 = *self;
            self.push_line(Dir::Sys, concat("停止位: ", arg), stamp);
            let ghost m2 = *self;
            self.reconnect_current();
            let ghost m3 = *self;
            self.goto_bottom();
            assert(m1.with_lines(m2, *stamp, seq![(Dir::Sys, "停止位: "@ + arg@)]));
            assert(m2.reconnected(m3) && *self == m3.with_view(true, 0));
        } else {
            self.say(Dir::Error, owned("停止位需为 1 或 2"), stamp);
        }
    }

    /// `:parity <none|odd|even>`.
    pub fn cmd_parity(&mut self, arg: &str, stamp: &Stamp)
        requires
            old(self).wf(),
        ensures
            final(self).wf(),
            parity_done(*old(self), *final(self), arg@, *stamp),
    {
        if str_eq(arg, "none") || str_eq(arg, "odd") || str_eq(arg, "even") {
            self.params.parity = owned(arg);
            let ghost m1 = *self;
            self.push_line(Dir::Sys, concat("校验位: ", arg), stamp);
            let ghost m2 = *self;
            self.reconnect_current();
            let ghost m3 = *self;
            self.goto_bottom();
            assert(m1.with_lines(m2, *stamp, seq![(Dir::Sys, "校验位: "@ + arg@)]));
            assert(m2.reconnected(m3) && *self == m3.with_view(true, 0));
        } else {
            self.say(Dir::Error, owned("校验位需为 none/odd/even"), stamp);
        }
    }

    /// `:flow <none|software|hardware>`.
    pub fn cmd_flow(&mut self, arg: &str, stamp: &Stamp)
        requires
            old(self).wf(),
        ensures
            final(self).wf(),
            flow_done(*old(self), *final(self), arg@, *stamp),
    {
        if str_eq(arg, "none") || str_eq(arg, "software") || str_eq(arg, "hardware") {
            self.params.flow = owned(arg);
            let ghost m1 = *self;
            self.push_line(Dir::Sys, concat("流控: ", arg), stamp);
            let ghost m2 = *self;
            self.reconnect_current();
            let ghost m3 = *self;
            self.goto_bottom();
            assert(m1.with_lines(m2, *stamp, seq![(Dir::Sys, "流控: "@ + arg@)]));
            assert(m2.reconnected(m3) && *self == m3.with_view(true, 0));
        } else {
            self.say(Dir::Error, owned("流控需为 none/software/hardware"), stamp);
        }
    }
}

} // verus!

verus! {

/// The outcome of `:encoding <arg>`.
pub open spec fn encoding_done(s0: Session, s1: Session, arg: Seq<char>, stamp: Stamp) -> bool {
    if arg.len() == 0 {
        s0.said(s1, stamp, Dir::Error, "用法: :encoding utf8|gbk|auto|raw"@)
    } else {
        exists|m1: Session|
            m1 == (Session { params: Params { enc: encoding_named(arg), ..s0.params }, codecs: m1.codecs, ..s0 })
            && fresh_codecs(m1.codecs, encoding_named(arg))
            && m1.said(s1, stamp, Dir::Sys, "编码: "@ + encoding_named(arg).spec_label())
    }
}

/// The outcome of `:mode <arg>`.
pub open spec fn mode_done(s0: Session, s1: Session, arg: Seq<char>, stamp: Stamp) -> bool {
    if arg == "line"@ {
        (Session { params: Params { mode: SendMode::Line, ..s0.params }, ..s0 }).said(s1, stamp, Dir::Sys, "发送模式: 行缓冲"@)
    } else if arg == "direct"@ {
        (Session { params: Params { mode: SendMode::Direct, ..s0.params }, ..s0 }).said(s1, stamp, Dir::Sys, "发送模式: 即时"@)
    } else {
        s0.said(s1, stamp, Dir::Error, "用法: :mode line|direct"@)
    }
}

/// The outcome of `:ts <arg>`.
pub open spec fn ts_done(s0: Session, s1: Session, arg: Seq<char>, stamp: Stamp) -> bool {
    if arg == "on"@ || arg == "short"@ {
        (Session { params: Params { ts_mode: TsMode::Short, ..s0.params }, ..s0 }).said(s1, stamp, Dir::Sys, "时间戳: 开启"@)
    } else if arg == "off"@ {
        (Session { params: Params { ts_mode: TsMode::Off, ..s0.params }, ..s0 }).said(s1, stamp, Dir::Sys, "时间戳: 关闭"@)
    } else if arg == "iso"@ {
        (Session { params: Params { ts_mode: TsMode::Iso, ..s0.params }, ..s0 }).said(s1, stamp, Dir::Sys, "时间戳: ISO"@)
    } else {
        s0.said(s1, stamp, Dir::Error, "用法: :ts on|off|iso"@)
    }
}

/// The theme names as listed in messages.
pub open spec fn theme_list() -> Seq<char> {
    crate::port::join(crate::theme::theme_names(), ", "@)
}

/// The outcome of `:theme <arg>`.
pub open spec fn theme_done(s0: Session, s1: Session, arg: Seq<char>, stamp: Stamp) -> bool {
    if arg.len() == 0 {
        s0.said(s1, stamp, Dir::Sys, "当前主题: "@ + crate::theme::theme_name_of(s0.params.theme) + "（可用: "@ + theme_list() + "）"@)
    } else if crate::theme::theme_names().contains(arg) {
        (Session { params: Params { theme: theme_named(arg), ..s0.params }, ..s0 }).said(s1, stamp, Dir::Sys, "已切换主题: "@ + arg)
    } else {
        s0.said(s1, stamp, Dir::Error, "未知主题: "@ + arg + "（可用: "@ + theme_list() + "）"@)
    }
}

/// The outcome of toggling the hex view (`:hex` without argument).
pub open spec fn hex_toggled(s0: Session, s1: Session, stamp: Stamp) -> bool {
    exists|m1: Session|
        m1 == (Session { params: hex_params(s0.params), codecs: m1.codecs, ..s0 })
        && fresh_codecs(m1.codecs, hex_params(s0.params).enc)
        && m1.said(s1, stamp, Dir::Sys, "显示模式: "@ + hex_params(s0.params).enc.spec_label())
}

/// The parameters after toggling the hex view: leaving it restores the
/// encoding from before; entering it remembers the current one.
pub open spec fn hex_params(p: Params) -> Params {
    if p.enc == Encoding::Raw {
        Params { enc: p.pre_hex_enc, ..p }
    } else {
        Params { pre_hex_enc: p.enc, enc: Encoding::Raw, ..p }
    }
}

/// Leaving the hex view restores the text encoding that was in force before
/// entering it, with fresh codecs for it.
pub proof fn law_hex_view_round_trip(s0: Session, s1: Session, s2: Session, stamp1: Stamp, stamp2: Stamp)
    requires
        s0.params.enc != Encoding::Raw,
        hex_toggled(s0, s1, stamp1),
        hex_toggled(s1, s2, stamp2),
    ensures
        s1.params.enc == Encoding::Raw,
        s2.params.enc == s0.params.enc,
        fresh_codecs(s2.codecs, s0.params.enc),
{
    let m1 = choose|m1: Session|
        m1 == (Session { params: hex_params(s0.params), codecs: m1.codecs, ..s0 })
        && fresh_codecs(m1.codecs, hex_params(s0.params).enc)
        && m1.said(s1, stamp1, Dir::Sys, "显示模式: "@ + hex_params(s0.params).enc.spec_label());
    let w1 = choose|m: Session| m1.with_lines(m, stamp1, seq![(Dir::Sys, "显示模式: "@ + hex_params(s0.params).enc.spec_label())])
        && s1 == m.with_view(true, 0);
    assert(s1.params == m1.params);
    let m2 = choose|m2: Session|
        m2 == (Session { params: hex_params(s1.params), codecs: m2.codecs, ..s1 })
        && fresh_codecs(m2.codecs, hex_params(s1.params).enc)
        && m2.said(s2, stamp2, Dir::Sys, "显示模式: "@ + hex_params(s1.params).enc.spec_label());
    let w2 = choose|m: Session| m2.with_lines(m, stamp2, seq![(Dir::Sys, "显示模式: "@ + hex_params(s1.params).enc.spec_label())])
        && s2 == m.with_view(true, 0);
    assert(s2.params == m2.params);
    assert(s2.codecs == m2.codecs);
}

/// The outcome of `:text`.
pub open spec fn text_done(s0: Session, s1: Session, stamp: Stamp) -> bool {
    exists|m1: Session|
        m1 == (Session { params: Params { enc: Encoding::Utf8, ..s0.params }, codecs: m1.codecs, ..s0 })
        && fresh_codecs(m1.codecs, Encoding::Utf8)
        && m1.said(s1, stamp, Dir::Sys, "显示模式: 文本"@)
}

impl Session {
    /// `:encoding <name>`: switches the decoding and encoding of serial data.
    pub fn cmd_encoding(&mut self, arg: &str, stamp: &Stamp)
        requires
            old(self).wf(),
        ensures
            final(self).wf(),
            encoding_done(*old(self), *final(self), arg@, *stamp),
    {
        if arg.is_empty() {
            self.say(Dir::Error, owned("用法: :encoding utf8|gbk|auto|raw"), stamp);
        } else {
            self.params.enc = Encoding::from_str_name(arg);
            self.reset_codecs();
            let ghost m1 = *self;
            let msg = concat("编码: ", self.params.enc.label());
            self.say(Dir::Sys, msg, stamp);
            assert(m1.said(*self, *stamp, Dir::Sys, "编码: "@ + encoding_named(arg@).spec_label()));
        }
    }

    /// `:mode <line|direct>`.
    pub fn cmd_mode(&mut self, arg: &str, stamp: &Stamp)
        requires
            old(self).wf(),
        ensures
            final(self).wf(),
            mode_done(*old(self), *final(self), arg@, *stamp),
    {
        if str_eq(arg, "line") {
            self.params.mode = SendMode::Line;
            self.say(Dir::Sys, owned("发送模式: 行缓冲"), stamp);
        } else if str_eq(arg, "direct") {
            self.params.mode = SendMode::Direct;
            self.say(Dir::Sys, owned("发送模式: 即时"), stamp);
        } else {
            self.say(Dir::Error, owned("用法: :mode line|direct"), stamp);
        }
    }

    /// `:ts <on|off|iso>`.
    pub fn cmd_ts(&mut self, arg: &str, stamp: &Stamp)
        requires
            old(self).wf(),
        ensures
            final(self).wf(),
            ts_done(*old(self), *final(self), arg@, *stamp),
    {
        if str_eq(arg, "on") || str_eq(arg, "short") {
            self.params.ts_mode = TsMode::Short;
            self.say(Dir::Sys, owned("时间戳: 开启"), stamp);
        } else if str_eq(arg, "off") {
            self.params.ts_mode = TsMode::Off;
            self.say(Dir::Sys, owned("时间戳: 关闭"), stamp);
        } else if str_eq(arg, "iso") {
            self.params.ts_mode = TsMode::Iso;
            self.say(Dir::Sys, owned("时间戳: ISO"), stamp);
        } else {
            self.say(Dir::Error, owned("用法: :ts on|off|iso"), stamp);
        }
    }

    /// `:theme [name]`: shows or switches the theme.
    pub fn cmd_theme(&mut self, arg: &str, stamp: &Stamp)
        requires
            old(self).wf(),
        ensures
            final(self).wf(),
            theme_done(*old(self), *final(self), arg@, *stamp),
    {
        let names = Theme::names();
        let list = join_static(&names, ", ");
        if arg.is_empty() {
            let mut msg = concat("当前主题: ", self.params.theme.name_of());
            push_str(&mut msg, "（可用: ");
            push_str(&mut msg, list.as_str());
            push_str(&mut msg, "）");
            self.say(Dir::Sys, msg, stamp);
        } else if contains_name(&names, arg) {
            self.params.theme = Theme::from_name(arg);
            self.say(Dir::Sys, concat("已切换主题: ", arg), stamp);
        } else {
            let mut msg = concat("未知主题: ", arg);
            push_str(&mut msg, "（可用: ");
            push_str(&mut msg, list.as_str());
            push_str(&mut msg, "）");
            self.say(Dir::Error, msg, stamp);
        }
    }

    /// Switches between the hex view and the text encoding in force before it.
    pub fn toggle_hex(&mut self, stamp: &Stamp)
        requires
            old(self).wf(),
        ensures
            final(self).wf(),
            hex_toggled(*old(self), *final(self), *stamp),
    {
        if self.params.enc == Encoding::Raw {
            self.params.enc = self.params.pre_hex_enc;
        } else {
            self.params.pre_hex_enc = self.params.enc;
            self.params.enc = Encoding::Raw;
        }
        self.reset_codecs();
        let ghost m1 = *self;
        let ghost p = hex_params(old(self).params);
        assert(m1.params == p);
        assert(m1 == (Session { params: p, codecs: m1.codecs, ..*old(self) }));
        let msg = concat("显示模式: ", self.params.enc.label());
        self.say(Dir::Sys, msg, stamp);
        assert(m1 == (Session { params: p, codecs: m1.codecs, ..*old(self) })
            && fresh_codecs(m1.codecs, p.enc)
            && m1.said(*self, *stamp, Dir::Sys, "显示模式: "@ + p.enc.spec_label()));
    }

    /// `:text`: back to UTF-8 text.
    pub fn cmd_text(&mut self, stamp: &Stamp)
        requires
            old(self).wf(),
        ensures
            final(self).wf(),
            text_done(*old(self), *final(self), *stamp),
    {
        self.params.enc = Encoding::Utf8;
        self.reset_codecs();
        let ghost m1 = *self;
        self.say(Dir::Sys, owned("显示模式: 文本"), stamp);
        assert(m1.said(*self, *stamp, Dir::Sys, "显示模式: 文本"@));
    }
}

/// `names` joined with `sep`.
pub fn join_static(names: &Vec<&'static str>, sep: &str) -> (r: String)
    ensures
        r@ == crate::port::join(names@.map_values(|s: &'static str| s@), sep@),
{
    let ghost vs = names@.map_values(|s: &'static str| s@);
    if names.len() == 0 {
        return String::new();
    }
    let mut r = owned(names[0]);
    let mut i: usize = 1;
    proof {
        assert(vs.take(1) =~= seq![vs[0]]);
    }
    while i < names.len()
        invariant
            1 <= i <= names@.len(),
            vs == names@.map_values(|s: &'static str| s@),
            r@ == crate::port::join(vs.take(i as int), sep@),
        decreases names@.len() - i,
    {
        push_str(&mut r, sep);
        push_str(&mut r, names[i]);
        proof {
            assert(vs.take(i + 1).drop_last() =~= vs.take(i as int));
            assert(vs.take(i + 1).last() == names@[i as int]@);
        }
        i += 1;
    }
    proof {
        assert(vs.take(names@.len() as int) =~= vs);
    }
    r
}

/// Whether one of `names` is `s`.
pub fn contains_name(names: &Vec<&'static str>, s: &str) -> (r: bool)
    ensures
        r == names@.map_values(|x: &'static str| x@).contains(s@),
{
    let ghost vs = names@.map_values(|x: &'static str| x@);
    let mut i: usize = 0;
    while i < names.len()
        invariant
            0 <= i <= names@.len(),
            vs == names@.map_values(|x: &'static str| x@),
            forall|k: int| 0 <= k < i ==> vs[k] != s@,
        decreases names@.len() - i,
    {
        if str_eq(names[i], s) {
            proof {
                assert(vs[i as int] == s@);
            }
            return true;
        }
        i += 1;
    }
    false
}

} // verus!

verus! {

/// The port a `:port` argument names: a bare number `n` means `COM<n>`.
pub open spec fn port_arg_name(arg: Seq<char>) -> Seq<char> {
    match parse_dec(arg, u32::MAX as nat) {
        Some(n) => "COM"@ + dec(n),
        None => arg,
    }
}

/// The outcome of `:port <arg>` / `:connect <arg>`.
pub open spec fn port_done(s0: Session, s1: Session, arg: Seq<char>, stamp: Stamp) -> bool {
    if port_arg_name(arg).len() == 0 {
        s0.said(s1, stamp, Dir::Error, "用法: :port COM4 或 :port 3"@)
    } else {
        exists|m: Session| s0.with_open(m, port_arg_name(arg), s0.params.baud, OpenPurpose::Plain) && s1 == m.with_view(true, 0)
    }
}

/// The status line.
pub open spec fn status_msg(s: Session) -> Seq<char> {
    "状态:"@ + (if s.link.connected { "已连接"@ } else { "未连接"@ }) + " "@
        + (match s.link.port_name { Some(p) => p@, None => "--"@ })
        + " @ "@ + dec(s.params.baud as nat) + " baud "@ + dec(s.params.databits as nat)
        + "-"@ + s.params.stopbits@ + "-"@ + s.params.parity@
        + " 编码:"@ + s.params.enc.spec_label() + " 模式:"@ + super::mode_label_of(s.params.mode)
        + " RX:"@ + dec(s.link.rx_bytes as nat) + " TX:"@ + dec(s.link.tx_bytes as nat)
}

/// The outcome of `:close` / `:disconnect`.
pub open spec fn close_done(s0: Session, s1: Session, stamp: Stamp) -> bool {
    exists|m: Session|
        m == (Session {
            link: Link { connected: false, port_name: None, reconnect_port: None, next_reconnect: None, ..s0.link },
            effects: m.effects,
            ..s0
        })
        && one_more(s0.effects@, m.effects@) && m.effects@.last() is Close
        && m.said(s1, stamp, Dir::Sys, "串口已关闭"@)
}

/// The outcome of `:clear`.
pub open spec fn clear_done(s0: Session, s1: Session, stamp: Stamp) -> bool {
    exists|m: Session|
        m == (Session {
            out: OutputArea { lines: m.out.lines, render_rows: m.out.render_rows, follow: true, view_top: 0, ..s0.out },
            search: SearchState { kw: None, matches: m.search.matches, ..s0.search },
            ..s0
        })
        && m.out.lines@.len() == 0 && m.out.render_rows@.len() == 0 && m.search.matches@.len() == 0
        && m.said(s1, stamp, Dir::Sys, "已清屏"@)
}

/// The outcome of `:log <arg>`.
pub open spec fn log_done(s0: Session, s1: Session, arg: Seq<char>, stamp: Stamp) -> bool {
    if arg == "on"@ {
        s1 == (Session { effects: s1.effects, ..s0.with_view(true, 0) }) && one_more(s0.effects@, s1.effects@) && s1.effects@.last() is StartLog
    } else if arg == "off"@ {
        exists|m: Session|
            m == (Session { link: Link { logging: false, ..s0.link }, effects: m.effects, ..s0 })
            && one_more(s0.effects@, m.effects@) && m.effects@.last() is StopLog
            && m.said(s1, stamp, Dir::Sys, "日志已关闭"@)
    } else {
        s0.said(s1, stamp, Dir::Error, "用法: :log on|off"@)
    }
}

/// The outcome of `:export <arg>`.
pub open spec fn export_done(s0: Session, s1: Session, arg: Seq<char>, stamp: Stamp) -> bool {
    if s0.out.lines@.len() == 0 {
        s0.said(s1, stamp, Dir::Error, "当前没有可导出的日志"@)
    } else {
        s1 == (Session { effects: s1.effects, ..s0.with_view(true, 0) })
            && one_more(s0.effects@, s1.effects@) && (s1.effects@.last() matches Effect::Export(p) && p@ == arg)
    }
}

impl Session {
    /// `:port <name|number>`: connects to a port.
    pub fn cmd_port(&mut self, arg: &str, stamp: &Stamp)
        requires
            old(self).wf(),
        ensures
            final(self).wf(),
            port_done(*old(self), *final(self), arg@, *stamp),
    {
        let name = match parse_dec_str(arg, u32::MAX as u64) {
            Some(n) => concat("COM", dec_string(n).as_str()),
            None => owned(arg),
        };
        if name.as_str().is_empty() {
            self.say(Dir::Error, owned("用法: :port COM4 或 :port 3"), stamp);
        } else {
            let baud = self.params.baud;
            self.open_port(name, baud, OpenPurpose::Plain);
            let ghost m = *self;
            self.goto_bottom();
            assert(old(self).with_open(m, port_arg_name(arg@), old(self).params.baud, OpenPurpose::Plain) && *self == m.with_view(true, 0));
        }
    }

    /// `:status`: reports the connection and its parameters.
    pub fn cmd_status(&mut self, stamp: &Stamp)
        requires
            old(self).wf(),
        ensures
            final(self).wf(),
            old(self).said(*final(self), *stamp, Dir::Sys, status_msg(*old(self))),
    {
        let mut m = owned("状态:");
        push_str(&mut m, if self.link.connected { "已连接" } else { "未连接" });
        push_str(&mut m, " ");
        match &self.link.port_name {
            Some(p) => push_str(&mut m, p.as_str()),
            None => push_str(&mut m, "--"),
        }
        push_str(&mut m, " @ ");
        push_str(&mut m, dec_string(self.params.baud as u64).as_str());
        push_str(&mut m, " baud ");
        push_str(&mut m, dec_string(self.params.databits as u64).as_str());
        push_str(&mut m, "-");
        push_str(&mut m, self.params.stopbits.as_str());
        push_str(&mut m, "-");
        push_str(&mut m, self.params.parity.as_str());
        push_str(&mut m, " 编码:");
        push_str(&mut m, self.params.enc.label());
        push_str(&mut m, " 模式:");
        push_str(&mut m, self.mode_label());
        push_str(&mut m, " RX:");
        push_str(&mut m, dec_string(self.link.rx_bytes).as_str());
        push_str(&mut m, " TX:");
        push_str(&mut m, dec_string(self.link.tx_bytes).as_str());
        assert(m@ =~= status_msg(*old(self)));
        self.say(Dir::Sys, m, stamp);
    }

    /// `:close`: closes the port and stops automatic reconnection.
    pub fn cmd_close(&mut self, stamp: &Stamp)
        requires
            old(self).wf(),
        ensures
            final(self).wf(),
            close_done(*old(self), *final(self), *stamp),
    {
        self.queue(Effect::Close);
        self.link.connected = false;
        self.link.port_name = None;
        self.link.reconnect_port = None;
        self.link.next_reconnect = None;
        let ghost m = *self;
        self.say(Dir::Sys, owned("串口已关闭"), stamp);
        assert(old(self).effects@ =~= m.effects@.drop_last());
    }

    /// `:clear`: empties the output and the search.
    pub fn cmd_clear(&mut self, stamp: &Stamp)
        requires
            old(self).wf(),
        ensures
            final(self).wf(),
            clear_done(*old(self), *final(self), *stamp),
    {
        self.out.lines.clear();
        self.out.render_rows.clear();
        self.out.follow = true;
        self.out.view_top = 0;
        self.search.kw = None;
        self.search.matches.clear();
        self.say(Dir::Sys, owned("已清屏"), stamp);
    }

    /// `:log on|off`: starts a new log file or closes it.
    pub fn cmd_log(&mut self, arg: &str, stamp: &Stamp)
        requires
            old(self).wf(),
        ensures
            final(self).wf(),
            log_done(*old(self), *final(self), arg@, *stamp),
    {
        if str_eq(arg, "on") {
            self.queue(Effect::StartLog);
            self.goto_bottom();
            assert(old(self).effects@ =~= self.effects@.drop_last());
        } else if str_eq(arg, "off") {
            self.link.logging = false;
            self.queue(Effect::StopLog);
            let ghost m = *self;
            self.say(Dir::Sys, owned("日志已关闭"), stamp);
            assert(old(self).effects@ =~= m.effects@.drop_last());
        } else {
            self.say(Dir::Error, owned("用法: :log on|off"), stamp);
        }
    }

    /// `:export [file]`: asks for the output to be written to a file.
    pub fn cmd_export(&mut self, arg: &str, stamp: &Stamp)
        requires
            old(self).wf(),
        ensures
            final(self).wf(),
            export_done(*old(self), *final(self), arg@, *stamp),
    {
        if self.out.lines.len() == 0 {
            self.say(Dir::Error, owned("当前没有可导出的日志"), stamp);
        } else {
            let p = owned(arg);
            self.queue(Effect::Export(p));
            self.goto_bottom();
            assert(old(self).effects@ =~= self.effects@.drop_last());
        }
    }
}

} // verus!
