//! Running a typed `:` command.
use vstd::prelude::*;
use super::{Session, Stamp};
use super::command::{
    baud_done, clear_done, close_done, databits_done, encoding_done, export_done, flow_done, hex_toggled,
    log_done, mode_done, parity_done, port_done, status_msg, stopbits_done, text_done, theme_done, ts_done,
};
use super::control::{help_done, list_done, quit_done, recent_done, scroll_done, settings_done, tail_done, top_done};
use super::link::{reconnect_done, replay_done};
use super::search::search_done;
use super::send::{cmd_send_done, hex_send_done};
use crate::logline::Dir;
use crate::text::{chars_of, str_eq, string_of_range, trim, trim_range};

verus! {

broadcast use vstd::string::group_string_axioms;

/// The position of the first space in `c`, or its length when there is none.
pub open spec fn first_space(c: Seq<char>) -> nat
    decreases c.len(),
{
    if c.len() == 0 {
        0
    } else if c[0] == ' ' {
        0
    } else {
        1 + first_space(c.drop_first())
    }
}

/// A command line cut into its name and argument: the trimmed line is cut
/// at its first space and the rest is trimmed; with no space the whole
/// line is the name and the argument is empty.
pub open spec fn command_parts(cmd: Seq<char>) -> (Seq<char>, Seq<char>) {
    let c = trim(cmd);
    let k = first_space(c);
    if k < c.len() { (c.take(k as int), trim(c.skip(k as int + 1))) } else { (c, Seq::empty()) }
}

/// Commands that leave the view where they put it; every other command
/// returns to the newest output.
pub open spec fn is_scroll_command(name: Seq<char>) -> bool {
    ||| name == ":scroll"@ || name == ":up"@ || name == ":pgup"@ || name == ":down"@ || name == ":pgdn"@
    ||| name == ":top"@ || name == ":tail"@ || name == ":live"@ || name == ":follow"@
    ||| name == ":search"@ || name == ":find"@
}

/// The outcome of command `name` with argument `arg`.
pub open spec fn command_done(s0: Session, s1: Session, name: Seq<char>, arg: Seq<char>, stamp: Stamp) -> bool {
    if name == ":help"@ || name == "?"@ {
        help_done(s0, s1)
    } else if name == ":quit"@ || name == ":exit"@ {
        quit_done(s0, s1)
    } else if name == ":clear"@ {
        clear_done(s0, s1, stamp)
    } else if name == ":settings"@ || name == ":config"@ {
        settings_done(s0, s1)
    } else if name == ":list"@ {
        list_done(s0, s1)
    } else if name == ":status"@ {
        s0.said(s1, stamp, Dir::Sys, status_msg(s0))
    } else if name == ":port"@ || name == ":connect"@ {
        port_done(s0, s1, arg, stamp)
    } else if name == ":close"@ || name == ":disconnect"@ {
        close_done(s0, s1, stamp)
    } else if name == ":baud"@ {
        baud_done(s0, s1, arg, stamp)
    } else if name == ":databits"@ {
        databits_done(s0, s1, arg, stamp)
    } else if name == ":stopbits"@ {
        stopbits_done(s0, s1, arg, stamp)
    } else if name == ":parity"@ {
        parity_done(s0, s1, arg, stamp)
    } else if name == ":flow"@ {
        flow_done(s0, s1, arg, stamp)
    } else if name == ":encoding"@ {
        encoding_done(s0, s1, arg, stamp)
    } else if name == ":mode"@ {
        mode_done(s0, s1, arg, stamp)
    } else if name == ":theme"@ {
        theme_done(s0, s1, arg, stamp)
    } else if name == ":hex"@ {
        if arg.len() == 0 { hex_toggled(s0, s1, stamp) } else { hex_send_done(s0, s1, arg, stamp) }
    } else if name == ":text"@ {
        text_done(s0, s1, stamp)
    } else if name == ":ts"@ {
        ts_done(s0, s1, arg, stamp)
    } else if name == ":tail"@ || name == ":live"@ || name == ":follow"@ {
        tail_done(s0, s1, stamp)
    } else if name == ":top"@ {
        top_done(s0, s1, stamp)
    } else if name == ":search"@ || name == ":find"@ {
        search_done(s0, s1, arg, stamp)
    } else if name == ":up"@ || name == ":pgup"@ {
        s1 == s0.scrolled_up(10)
    } else if name == ":down"@ || name == ":pgdn"@ {
        s1 == s0.scrolled_down(10)
    } else if name == ":scroll"@ {
        scroll_done(s0, s1, arg, stamp)
    } else if name == ":send"@ {
        cmd_send_done(s0, s1, arg, stamp)
    } else if name == ":log"@ {
        log_done(s0, s1, arg, stamp)
    } else if name == ":recent"@ {
        recent_done(s0, s1, arg, stamp)
    } else if name == ":reconnect"@ || name == ":auto"@ {
        reconnect_done(s0, s1, arg, stamp)
    } else if name == ":export"@ {
        export_done(s0, s1, arg, stamp)
    } else if name == ":replay"@ {
        replay_done(s0, s1, arg, stamp)
    } else if name.len() == 0 {
        s1 == s0.with_view(true, 0)
    } else {
        s0.said(s1, stamp, Dir::Sys, "未知命令: "@ + name + "（:help 查看）"@)
    }
}

/// The name and argument of a command line (see `command_parts`).
pub fn split_command(cmd: &str) -> (r: (String, String))
    ensures
        r.0@ == command_parts(cmd@).0,
        r.1@ == command_parts(cmd@).1,
        r.1@.len() <= cmd@.len(),
{
    let t = chars_of(cmd);
    let (a, b) = trim_range(&t, 0, t.len());
    let ghost c = t@.subrange(a as int, b as int);
    proof {
        assert(t@.subrange(0, t@.len() as int) =~= t@);
    }
    let mut k = a;
    while k < b && t[k] != ' '
        invariant
            a <= k <= b <= t@.len(),
            c == t@.subrange(a as int, b as int),
            first_space(c) == (k - a) + first_space(t@.subrange(k as int, b as int)),
        decreases b - k,
    {
        proof {
            assert(t@.subrange(k as int, b as int).drop_first() =~= t@.subrange(k + 1, b as int));
        }
        k += 1;
    }
    if k < b {
        let name = string_of_range(&t, a, k);
        let (x, y) = trim_range(&t, k + 1, b);
        let arg = string_of_range(&t, x, y);
        proof {
            assert(first_space(c) == k - a);
            assert(c.take((k - a) as int) =~= t@.subrange(a as int, k as int));
            assert(c.skip(k - a + 1) =~= t@.subrange(k + 1, b as int));
        }
        (name, arg)
    } else {
        proof {
            assert(first_space(c) == c.len());
        }
        (string_of_range(&t, a, b), String::new())
    }
}

impl Session {
    /// Runs a typed command line (see `command_parts` and `command_done`).
    #[verifier::rlimit(50)]
    pub fn execute_command(&mut self, cmd: &str, stamp: &Stamp)
        requires
            old(self).wf(),
        ensures
            final(self).wf(),
            command_done(*old(self), *final(self), command_parts(cmd@).0, command_parts(cmd@).1, *stamp),
    {
        let (name, arg) = split_command(cmd);
        let n = name.as_str();
        let a = arg.as_str();
        if str_eq(n, ":help") || str_eq(n, "?") {
            self.cmd_help();
        } else if str_eq(n, ":quit") || str_eq(n, ":exit") {
            self.cmd_quit();
        } else if str_eq(n, ":clear") {
            self.cmd_clear(stamp);
        } else if str_eq(n, ":settings") || str_eq(n, ":config") {
            self.cmd_settings();
        } else if str_eq(n, ":list") {
            self.cmd_list();
        } else if str_eq(n, ":status") {
            self.cmd_status(stamp);
        } else if str_eq(n, ":port") || str_eq(n, ":connect") {
            self.cmd_port(a, stamp);
        } else if str_eq(n, ":close") || str_eq(n, ":disconnect") {
            self.cmd_close(stamp);
        } else if str_eq(n, ":baud") {
            self.cmd_baud(a, stamp);
        } else if str_eq(n, ":databits") {
            self.cmd_databits(a, stamp);
        } else if str_eq(n, ":stopbits") {
            self.cmd_stopbits(a, stamp);
        } else if str_eq(n, ":parity") {
            self.cmd_parity(a, stamp);
        } else if str_eq(n, ":flow") {
            self.cmd_flow(a, stamp);
        } else if str_eq(n, ":encoding") {
            self.cmd_encoding(a, stamp);
        } else if str_eq(n, ":mode") {
            self.cmd_mode(a, stamp);
        } else if str_eq(n, ":theme") {
            self.cmd_theme(a, stamp);
        } else if str_eq(n, ":hex") {
            if a.is_empty() {
                self.toggle_hex(stamp);
            } else {
                self.cmd_hex_send(a, stamp);
            }
        } else if str_eq(n, ":text") {
            self.cmd_text(stamp);
        } else if str_eq(n, ":ts") {
            self.cmd_ts(a, stamp);
        } else if str_eq(n, ":tail") || str_eq(n, ":live") || str_eq(n, ":follow") {
            self.cmd_tail(stamp);
        } else if str_eq(n, ":top") {
            self.cmd_top(stamp);
        } else if str_eq(n, ":search") || str_eq(n, ":find") {
            self.search_output(a, stamp);
        } else if str_eq(n, ":up") || str_eq(n, ":pgup") {
            self.scroll_up(10);
        } else if str_eq(n, ":down") || str_eq(n, ":pgdn") {
            self.scroll_down(10);
        } else if str_eq(n, ":scroll") {
            self.cmd_scroll(a, stamp);
        } else if str_eq(n, ":send") {
            self.cmd_send(a, stamp);
        } else if str_eq(n, ":log") {
            self.cmd_log(a, stamp);
        } else if str_eq(n, ":recent") {
            self.cmd_recent(a, stamp);
        } else if str_eq(n, ":reconnect") || str_eq(n, ":auto") {
            self.cmd_reconnect(a, stamp);
        } else if str_eq(n, ":export") {
            self.cmd_export(a, stamp);
        } else if str_eq(n, ":replay") {
            self.cmd_replay(a, stamp);
        } else if n.is_empty() {
            self.goto_bottom();
        } else {
            self.cmd_unknown(n, stamp);
        }
    }
}

} // verus!

verus! {

/// Every command but the scrolling ones returns the view to the newest
/// output.
#[verifier::rlimit(50)]
pub proof fn law_commands_return_to_newest(s0: Session, s1: Session, name: Seq<char>, arg: Seq<char>, stamp: Stamp)
    requires
        command_done(s0, s1, name, arg, stamp),
        !is_scroll_command(name),
    ensures
        s1.out.follow,
        s1.out.view_top == 0,
{
}

} // verus!
