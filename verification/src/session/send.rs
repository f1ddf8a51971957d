//! Sending typed text and hexadecimal bytes.
use vstd::prelude::*;
use super::{Effect, Session, Stamp, one_more};
use crate::codec::{Encoding, MAX_ENCODE_BYTES, gbk_encoded};
use crate::escape::{hex_parsed, parse_hex, trim_quotes, trim_quotes_str, unescape, unescape_str};
use crate::logline::Dir;
use crate::text::{concat, owned};

verus! {

broadcast use vstd::string::group_string_axioms;

/// The bytes `text` is sent as in encoding `enc`: GBK for GBK, UTF-8 otherwise.
pub open spec fn encoded(enc: Encoding, text: Seq<char>) -> Seq<u8> {
    if enc == Encoding::Gbk { gbk_encoded(text) } else { vstd::utf8::encode_utf8(text) }
}

/// `e` queues `bytes` for the writer with the echo shown once they are
/// taken and the message shown when the writer is gone.
pub open spec fn is_send(e: Effect, bytes: Seq<u8>, echo: Seq<char>, closed: Seq<char>) -> bool {
    e matches Effect::Send { bytes: b, echo: m, closed_msg: c } && b@ == bytes && m@ == echo && c@ == closed
}

/// Whether `text` is too long for the GBK encoder in encoding `enc`.
pub open spec fn too_long_for(enc: Encoding, text: Seq<char>) -> bool {
    enc == Encoding::Gbk && vstd::utf8::encode_utf8(text).len() > MAX_ENCODE_BYTES
}

/// The outcome of sending `text`: nothing for empty text; an error line
/// when not connected, or when the text is too long to encode as GBK;
/// otherwise its encoded bytes are queued.
pub open spec fn send_done(s0: Session, s1: Session, text: Seq<char>, stamp: Stamp) -> bool {
    if text.len() == 0 {
        s1 == s0
    } else if !s0.link.connected {
        s0.with_lines(s1, stamp, seq![(Dir::Error, "未连接串口，发送失败"@)])
    } else if too_long_for(s0.codecs.encoder.encoding(), text) {
        s0.with_lines(s1, stamp, seq![(Dir::Error, "发送内容过长（超出 GBK 编码上限）"@)])
    } else {
        &&& s1.same_but_effects(s0)
        &&& one_more(s0.effects@, s1.effects@)
        &&& is_send(s1.effects@.last(), encoded(s0.codecs.encoder.encoding(), text), text, "发送通道已关闭（串口未连接）"@)
    }
}

/// The outcome of `:send <arg>`: the argument without surrounding double
/// quotes and with `\r`, `\n`, `\t` unescaped is sent; then back to the
/// newest output.
pub open spec fn cmd_send_done(s0: Session, s1: Session, arg: Seq<char>, stamp: Stamp) -> bool {
    exists|m: Session| send_done(s0, m, unescape(trim_quotes(arg)), stamp) && s1 == m.with_view(true, 0)
}

/// The outcome of `:hex <bytes>` with a non-empty argument.
pub open spec fn hex_send_done(s0: Session, s1: Session, arg: Seq<char>, stamp: Stamp) -> bool {
    exists|m: Session| s1 == m.with_view(true, 0) && match hex_parsed(arg) {
        Some(b) => if !s0.link.connected {
            s0.with_lines(m, stamp, seq![(Dir::Error, "未连接串口，发送失败"@)])
        } else {
            &&& m.same_but_effects(s0)
            &&& one_more(s0.effects@, m.effects@)
            &&& is_send(m.effects@.last(), b, "(HEX) "@ + arg, "发送通道已关闭"@)
        },
        None => s0.with_lines(m, stamp, seq![(Dir::Error, "十六进制格式无效，如 :hex 41 42 43"@)]),
    }
}

impl Session {
    /// Sends text as typed (see `send_done`).
    pub fn send_text(&mut self, text: String, stamp: &Stamp)
        requires
            old(self).wf(),
        ensures
            final(self).wf(),
            send_done(*old(self), *final(self), text@, *stamp),
    {
        if text.as_str().is_empty() {
            return;
        }
        if !self.link.connected {
            self.push_line(Dir::Error, owned("未连接串口，发送失败"), stamp);
            return;
        }
        if self.codecs.encoder.is_gbk() && text.as_str().as_bytes().len() > MAX_ENCODE_BYTES {
            self.push_line(Dir::Error, owned("发送内容过长（超出 GBK 编码上限）"), stamp);
            return;
        }
        let bytes = self.codecs.encoder.encode(text.as_str());
        let closed_msg = owned("发送通道已关闭（串口未连接）");
        let ghost e0 = self.effects@;
        self.queue(Effect::Send { bytes, echo: text, closed_msg });
        assert(self.effects@.drop_last() =~= e0);
    }

    /// The writer took the bytes: their echo is shown and the view returns
    /// to the newest output.
    pub fn sent(&mut self, echo: String, stamp: &Stamp)
        requires
            old(self).wf(),
        ensures
            final(self).wf(),
            old(self).said(*final(self), *stamp, Dir::Tx, echo@),
    {
        self.say(Dir::Tx, echo, stamp);
    }

    /// The writer is gone: the message is shown.
    pub fn send_failed(&mut self, msg: String, stamp: &Stamp)
        requires
            old(self).wf(),
        ensures
            final(self).wf(),
            old(self).with_lines(*final(self), *stamp, seq![(Dir::Error, msg@)]),
    {
        self.push_line(Dir::Error, msg, stamp);
    }

    /// `:send <text>` (see `cmd_send_done`).
    pub fn cmd_send(&mut self, arg: &str, stamp: &Stamp)
        requires
            old(self).wf(),
        ensures
            final(self).wf(),
            cmd_send_done(*old(self), *final(self), arg@, *stamp),
    {
        let q = trim_quotes_str(arg);
        let text = unescape_str(q.as_str());
        self.send_text(text, stamp);
        let ghost m = *self;
        self.goto_bottom();
        assert(send_done(*old(self), m, unescape(trim_quotes(arg@)), *stamp) && *self == m.with_view(true, 0));
    }

    /// `:hex <bytes>`: sends the bytes written in hexadecimal.
    pub fn cmd_hex_send(&mut self, arg: &str, stamp: &Stamp)
        requires
            old(self).wf(),
        ensures
            final(self).wf(),
            hex_send_done(*old(self), *final(self), arg@, *stamp),
    {
        match parse_hex(arg) {
            Some(bytes) => {
                if !self.link.connected {
                    self.push_line(Dir::Error, owned("未连接串口，发送失败"), stamp);
                } else {
                    let echo = concat("(HEX) ", arg);
                    let closed_msg = owned("发送通道已关闭");
                    let ghost e0 = self.effects@;
                    self.queue(Effect::Send { bytes, echo, closed_msg });
                    assert(self.effects@.drop_last() =~= e0);
                }
            },
            None => {
                self.push_line(Dir::Error, owned("十六进制格式无效，如 :hex 41 42 43"), stamp);
            },
        }
        let ghost m = *self;
        self.goto_bottom();
        assert(*self == m.with_view(true, 0));
    }
}

} // verus!
