//! The terminal session: every decision the interactive engine takes, from
//! state and event to next state and the actions the caller performs
//! (opening ports, sending bytes, writing files).
use std::collections::VecDeque;
use std::time::Instant;
use vstd::prelude::*;
use crate::codec::{Encoding, StreamDecoder, StreamEncoder};
use crate::config::{ConfigManager, SendMode, TsMode};
use crate::logline::{Dir, LineAssembler, LogLine};
use crate::port::{PortDevice, PortParams};
use crate::style::StyledSpan;
use crate::text::{dec, dec_string, owned, push_str};
use crate::theme::Theme;

pub mod command;
pub mod control;
pub mod dispatch;
pub mod keys;
pub mod link;
pub mod render;
pub mod search;
pub mod startup;
pub mod send;
pub mod view;

verus! {

broadcast use vstd::string::group_string_axioms;

/// Output lines kept; older lines are dropped.
pub const MAX_LINES: usize = 10000;

/// Sent-input history entries kept.
pub const MAX_HISTORY: usize = 200;

/// The current time as the caller reads it: the monotonic clock and the two
/// timestamp renderings (`HH:MM:SS.mmm` and RFC 3339).
pub struct Stamp {
    pub now: Instant,
    pub short: String,
    pub iso: String,
}

/// Why a port is being opened; decides what happens when opening fails.
#[derive(Debug, Clone, Copy, PartialEq, Eq, Structural)]
pub enum OpenPurpose {
    /// A user request: a failure is only reported.
    Plain,
    /// An automatic reconnection attempt: on success automatic reconnection
    /// ends; on failure the next attempt is scheduled.
    Reconnect,
    /// A reconnection target just set: on failure attempts are scheduled.
    RetryOnFailure,
    /// Settings applied from the panel: either way the applied parameters
    /// are reported afterwards.
    Apply,
}

/// Work the caller performs for the session, in order.
pub enum Effect {
    /// Stop the reader and writer, then open the port; report back with
    /// `port_opened` or `port_open_failed`.
    Open { params: PortParams, purpose: OpenPurpose },
    /// Stop the reader and writer.
    Close,
    /// Queue bytes for the writer; report back with `sent` (passing `echo`)
    /// or, when the writer is gone, with `send_failed` (passing `closed_msg`).
    Send { bytes: Vec<u8>, echo: String, closed_msg: String },
    /// List the serial ports; report back with `show_port_list`.
    ListPorts,
    /// List the serial ports; report back with `set_port_candidates`.
    RefreshPorts,
    /// Open a new timestamped log file; report back with `log_opened` or `log_failed`.
    StartLog,
    /// Close the log file.
    StopLog,
    /// Append a formatted line to the log file.
    WriteLog(String),
    /// Write all formatted output lines to a file (default name when empty);
    /// report back with `export_done` or `export_failed`.
    Export(String),
    /// Start replaying a log file at the given speed text; report back with
    /// `replay_started` or `replay_missing`.
    StartReplay { file: String, speed: String },
    /// Stop the replay thread.
    StopReplay,
}

/// One output line as drawn: rows of styled spans.
pub type Rows = Vec<Vec<StyledSpan>>;

/// Connection, logging, reconnection and replay state.
pub struct Link {
    pub port_name: Option<String>,
    pub connected: bool,
    pub rx_bytes: u64,
    pub tx_bytes: u64,
    /// Whether output lines go to a log file.
    pub logging: bool,
    /// Port to reconnect to after losing the connection.
    pub reconnect_port: Option<String>,
    pub next_reconnect: Option<Instant>,
    pub reconnect_attempts: u32,
    pub replaying: bool,
    pub quit: bool,
}

/// Line and display parameters.
pub struct Params {
    pub baud: u32,
    pub databits: u8,
    pub stopbits: String,
    pub parity: String,
    pub flow: String,
    pub enc: Encoding,
    /// Encoding in force before the hex view, restored when it ends.
    pub pre_hex_enc: Encoding,
    pub mode: SendMode,
    pub ts_mode: TsMode,
    pub no_tags: bool,
    pub flush_ms: u64,
    pub tx_on_enter: String,
    pub keep_input: bool,
    pub theme: Theme,
}

/// Decoding, encoding and line assembly of serial data.
pub struct Codecs {
    pub decoder: StreamDecoder,
    pub encoder: StreamEncoder,
    pub assembler: LineAssembler,
}

/// The output area: lines, their wrapped rows and the viewport.
pub struct OutputArea {
    pub lines: VecDeque<LogLine>,
    /// Wrapped rows of each output line, kept in step by `sync_rows`.
    pub render_rows: VecDeque<Rows>,
    /// Width the rows were wrapped for.
    pub render_w: usize,
    /// Whether the screen needs redrawing.
    pub dirty: bool,
    /// Follow the newest output; off while browsing history.
    pub follow: bool,
    /// Visible output rows.
    pub out_height: usize,
    /// First visible row while not following.
    pub view_top: usize,
}

/// Input history and completion.
pub struct InputState {
    pub history: Vec<String>,
    /// Position while browsing history: 0 is the current input, 1 the newest entry.
    pub hist_pos: usize,
    pub completion_idx: usize,
    pub last_cmd_prefix: String,
}

/// The help and settings panels.
pub struct Panels {
    pub help_open: bool,
    pub help_scroll: usize,
    pub settings_open: bool,
    pub settings_sel: usize,
    pub port_candidates: Vec<PortDevice>,
    pub port_idx: usize,
}

/// The current search.
pub struct SearchState {
    /// Lower-cased keyword being highlighted.
    pub kw: Option<String>,
    /// Indices of matching output lines.
    pub matches: Vec<usize>,
    pub pos: usize,
}

/// The session state.
pub struct Session {
    pub cfg: ConfigManager,
    pub link: Link,
    pub params: Params,
    pub codecs: Codecs,
    pub out: OutputArea,
    pub input: InputState,
    pub panels: Panels,
    pub search: SearchState,
    /// Work for the caller, oldest first.
    pub effects: Vec<Effect>,
}

/// The tag padded to three columns.
pub open spec fn dir_tag3(d: Dir) -> Seq<char> {
    match d {
        Dir::Rx => "RX "@,
        Dir::Tx => "TX "@,
        Dir::Sys => "SYS"@,
        Dir::Error => "ERR"@,
    }
}

/// The view of an optional string.
pub open spec fn opt_view(o: Option<String>) -> Option<Seq<char>> {
    match o {
        Some(s) => Some(s@),
        None => None,
    }
}

/// A line as written to log files: `[ts] [TAG] body`.
pub open spec fn formatted(ts: Option<String>, dir: Dir, body: Seq<char>) -> Seq<char> {
    "["@ + match ts {
        Some(t) => t@,
        None => Seq::empty(),
    } + "] ["@ + dir_tag3(dir) + "] "@ + body
}

/// A copy of an optional string.
pub fn clone_opt(o: &Option<String>) -> (r: Option<String>)
    ensures
        r == *o,
{
    match o {
        Some(s) => Some(s.clone()),
        None => None,
    }
}

/// A line formatted for log files and export.
pub fn format_line(l: &LogLine) -> (s: String)
    ensures
        s@ == formatted(l.ts, l.dir, l.body@),
{
    let mut s = owned("[");
    match &l.ts {
        Some(t) => push_str(&mut s, t.as_str()),
        None => {},
    }
    push_str(&mut s, "] [");
    let tag = match l.dir {
        Dir::Rx => "RX ",
        Dir::Tx => "TX ",
        Dir::Sys => "SYS",
        Dir::Error => "ERR",
    };
    push_str(&mut s, tag);
    push_str(&mut s, "] ");
    push_str(&mut s, l.body.as_str());
    s
}

/// The timestamp a new line gets in mode `m`.
pub open spec fn stamp_for(m: TsMode, stamp: Stamp) -> Option<String> {
    match m {
        TsMode::Off => None,
        TsMode::Short => Some(stamp.short),
        TsMode::Iso => Some(stamp.iso),
    }
}

/// The view of an output line.
pub open spec fn line_view(l: LogLine) -> (Option<Seq<char>>, Dir, Seq<char>) {
    (opt_view(l.ts), l.dir, l.body@)
}

/// The views of output lines.
pub open spec fn line_views(s: Seq<LogLine>) -> Seq<(Option<Seq<char>>, Dir, Seq<char>)> {
    s.map_values(|l: LogLine| line_view(l))
}

/// Lines dropped when `n` lines are added to `len` lines kept within the bound.
pub open spec fn overflow(len: nat, n: nat) -> nat {
    if len + n > MAX_LINES { (len + n - MAX_LINES) as nat } else { 0 }
}

/// The new output line views for `entries` stamped at `ts`.
pub open spec fn entry_views(entries: Seq<(Dir, Seq<char>)>, ts: Option<String>) -> Seq<(Option<Seq<char>>, Dir, Seq<char>)> {
    entries.map_values(|e: (Dir, Seq<char>)| (opt_view(ts), e.0, e.1))
}

/// The output area `o1` and effects `e1` are `o0` and `e0` after the
/// entries were added in order at `stamp`: the oldest lines beyond the
/// bound are dropped with their rows; while logging each formatted line is
/// queued for the log file; the viewport stays.
pub open spec fn appended(
    o0: OutputArea, e0: Seq<Effect>, o1: OutputArea, e1: Seq<Effect>,
    logging: bool, ts: TsMode, stamp: Stamp, entries: Seq<(Dir, Seq<char>)>,
) -> bool {
    let k = overflow(o0.lines@.len(), entries.len());
    let t = stamp_for(ts, stamp);
    &&& line_views(o1.lines@) == (line_views(o0.lines@) + entry_views(entries, t)).skip(k as int)
    &&& o1.render_rows@ == o0.render_rows@.skip(if k < o0.render_rows@.len() { k as int } else { o0.render_rows@.len() as int })
    &&& o1.render_w == o0.render_w && o1.follow == o0.follow
    &&& o1.out_height == o0.out_height && o1.view_top == o0.view_top
    &&& (entries.len() > 0 ==> o1.dirty) && (entries.len() == 0 ==> o1.dirty == o0.dirty)
    &&& e1.len() == e0.len() + if logging { entries.len() } else { 0 }
    &&& e1.take(e0.len() as int) == e0
    &&& logging ==> forall|i: int| 0 <= i < entries.len() ==> (#[trigger] e1[e0.len() + i] matches Effect::WriteLog(s)
        && s@ == formatted(t, entries[i].0, entries[i].1))
}

impl Session {
    /// Output stays within its bound and the codecs are in shape.
    pub open spec fn wf(self) -> bool {
        &&& self.out.lines@.len() <= MAX_LINES
        &&& self.out.render_rows@.len() <= self.out.lines@.len()
        &&& self.codecs.decoder.wf()
        &&& self.input.hist_pos <= self.input.history@.len()
    }

    /// Only the output area and the effects may differ.
    pub open spec fn same_but_output(self, other: Session) -> bool {
        &&& self.cfg == other.cfg && self.link == other.link && self.params == other.params
        &&& self.codecs == other.codecs && self.input == other.input
        &&& self.panels == other.panels && self.search == other.search
    }

    /// `next` is this session with `entries` added to the output.
    pub open spec fn with_lines(self, next: Session, stamp: Stamp, entries: Seq<(Dir, Seq<char>)>) -> bool {
        &&& next.same_but_output(self)
        &&& appended(self.out, self.effects@, next.out, next.effects@, self.link.logging, self.params.ts_mode, stamp, entries)
    }

    /// Adds an output line stamped per the timestamp mode; while logging, the
    /// formatted line is also queued for the log file. The oldest line goes
    /// when there are more than `MAX_LINES`, and its rows with it.
    pub fn push_line(&mut self, dir: Dir, body: String, stamp: &Stamp)
        requires
            old(self).wf(),
        ensures
            final(self).wf(),
            old(self).with_lines(*final(self), *stamp, seq![(dir, body@)]),
    {
        let ghost o0 = self.out;
        let ghost e0 = self.effects@;
        let ts = match self.params.ts_mode {
            TsMode::Off => None,
            TsMode::Short => Some(stamp.short.clone()),
            TsMode::Iso => Some(stamp.iso.clone()),
        };
        let ghost t = ts;
        let line = LogLine { ts, dir, body };
        if self.link.logging {
            let f = format_line(&line);
            self.effects.push(Effect::WriteLog(f));
            assert(self.effects@.take(e0.len() as int) =~= e0);
        }
        self.out.lines.push_back(line);
        if self.out.lines.len() > MAX_LINES {
            let _ = self.out.lines.pop_front();
            if self.out.render_rows.len() > 0 {
                let _ = self.out.render_rows.pop_front();
            }
        }
        self.out.dirty = true;
        proof {
            assert(self.effects@.take(e0.len() as int) =~= e0);
            let ev = entry_views(seq![(dir, body@)], t);
            assert(ev =~= seq![line_view(line)]);
            let k = overflow(o0.lines@.len(), 1);
            if o0.lines@.len() + 1 > MAX_LINES {
                assert(line_views(self.out.lines@) =~= (line_views(o0.lines@) + ev).skip(k as int));
            } else {
                assert(line_views(self.out.lines@) =~= (line_views(o0.lines@) + ev).skip(k as int));
            }
            assert(self.out.render_rows@ =~= o0.render_rows@.skip(if k < o0.render_rows@.len() { k as int } else { o0.render_rows@.len() as int }));
        }
    }

    /// The line ending Enter sends in line mode: CR, LF, otherwise CRLF.
    pub fn eol(&self) -> (s: String)
        ensures
            s@ == eol_for(self.params.tx_on_enter@),
            s@.len() <= 2,
    {
        proof {
            reveal_strlit("\r");
            reveal_strlit("\n");
            reveal_strlit("\r\n");
        }
        if crate::text::str_eq(self.params.tx_on_enter.as_str(), "CR") {
            owned("\r")
        } else if crate::text::str_eq(self.params.tx_on_enter.as_str(), "LF") {
            owned("\n")
        } else {
            owned("\r\n")
        }
    }

    /// The send mode's label.
    pub fn mode_label(&self) -> (s: &'static str)
        ensures
            s@ == mode_label_of(self.params.mode),
    {
        match self.params.mode {
            SendMode::Line => "\u{884c}\u{7f13}\u{51b2}",
            SendMode::Direct => "\u{5373}\u{65f6}",
        }
    }
}

/// The line ending named by `t`.
pub open spec fn eol_for(t: Seq<char>) -> Seq<char> {
    if t == "CR"@ {
        "\r"@
    } else if t == "LF"@ {
        "\n"@
    } else {
        "\r\n"@
    }
}

/// The label of a send mode (line buffered / immediate).
pub open spec fn mode_label_of(m: SendMode) -> Seq<char> {
    match m {
        SendMode::Line => "\u{884c}\u{7f13}\u{51b2}"@,
        SendMode::Direct => "\u{5373}\u{65f6}"@,
    }
}

} // verus!

verus! {

/// Adding entries and then one more is adding them all at once.
pub proof fn lemma_appended_push(
    o0: OutputArea, e0: Seq<Effect>, o1: OutputArea, e1: Seq<Effect>, o2: OutputArea, e2: Seq<Effect>,
    logging: bool, ts: TsMode, stamp: Stamp, entries: Seq<(Dir, Seq<char>)>, x: (Dir, Seq<char>),
)
    requires
        o0.lines@.len() <= MAX_LINES,
        appended(o0, e0, o1, e1, logging, ts, stamp, entries),
        appended(o1, e1, o2, e2, logging, ts, stamp, seq![x]),
    ensures
        appended(o0, e0, o2, e2, logging, ts, stamp, entries.push(x)),
{
    let t = stamp_for(ts, stamp);
    let n = entries.len();
    let l0 = o0.lines@.len();
    let k1 = overflow(l0, n);
    let l1 = o1.lines@.len();
    let v0 = line_views(o0.lines@);
    let ev = entry_views(entries, t);
    assert(line_views(o1.lines@).len() == l1);
    assert(l1 == l0 + n - k1);
    let k2 = overflow(l1, 1);
    let k = overflow(l0, n + 1);
    assert(k == k1 + k2);
    let ex = entry_views(seq![x], t);
    assert(entry_views(entries.push(x), t) =~= ev + ex);
    assert(line_views(o2.lines@) =~= (v0 + entry_views(entries.push(x), t)).skip(k as int)) by {
        assert(((v0 + ev).skip(k1 as int) + ex).skip(k2 as int) =~= (v0 + (ev + ex)).skip(k as int));
    }
    let r0 = o0.render_rows@;
    let r1 = o1.render_rows@;
    assert(o2.render_rows@ =~= r0.skip(if k < r0.len() { k as int } else { r0.len() as int }));
    assert(e2.take(e0.len() as int) =~= e0) by {
        assert(e2.take(e1.len() as int) == e1);
        assert(e1.take(e0.len() as int) == e0);
    }
    if logging {
        assert forall|i: int| 0 <= i < n + 1 implies (#[trigger] e2[e0.len() + i] matches Effect::WriteLog(s)
            && s@ == formatted(t, entries.push(x)[i].0, entries.push(x)[i].1)) by {
            if i < n {
                assert(e2[e0.len() + i] == e2.take(e1.len() as int)[e0.len() + i]);
                assert(e1[e0.len() + i] matches Effect::WriteLog(s) && s@ == formatted(t, entries[i].0, entries[i].1));
            } else {
                assert(e2[e0.len() + i] == e2[e1.len() + 0int]);
                assert(e2[e1.len() + 0int] matches Effect::WriteLog(s) && s@ == formatted(t, seq![x][0].0, seq![x][0].1));
            }
        }
    }
}

/// Nothing added is nothing changed.
pub proof fn lemma_appended_none(o: OutputArea, e: Seq<Effect>, logging: bool, ts: TsMode, stamp: Stamp)
    requires
        o.lines@.len() <= MAX_LINES,
    ensures
        appended(o, e, o, e, logging, ts, stamp, Seq::empty()),
{
    assert(line_views(o.lines@) =~= (line_views(o.lines@) + entry_views(Seq::empty(), stamp_for(ts, stamp))).skip(0));
    assert(o.render_rows@ =~= o.render_rows@.skip(0));
    assert(e.take(e.len() as int) =~= e);
}

impl Session {
    /// Adding entries and then one more is adding them all at once.
    pub proof fn lemma_with_lines_push(s0: Session, s1: Session, s2: Session, stamp: Stamp, entries: Seq<(Dir, Seq<char>)>, x: (Dir, Seq<char>))
        requires
            s0.wf(),
            s0.with_lines(s1, stamp, entries),
            s1.with_lines(s2, stamp, seq![x]),
        ensures
            s0.with_lines(s2, stamp, entries.push(x)),
    {
        lemma_appended_push(s0.out, s0.effects@, s1.out, s1.effects@, s2.out, s2.effects@,
            s0.link.logging, s0.params.ts_mode, stamp, entries, x);
    }
}

} // verus!

verus! {

/// `e` asks to open `name` at `baud` with the session's other line
/// parameters, for `purpose`.
pub open spec fn is_open_effect(e: Effect, s: Session, name: Seq<char>, baud: u32, purpose: OpenPurpose) -> bool {
    e matches Effect::Open { params, purpose: p } && p == purpose && params.name@ == name && params.baud == baud
        && params.databits == s.params.databits && params.stopbits == s.params.stopbits
        && params.parity == s.params.parity && params.flow == s.params.flow
}

/// `next` is `prev` with one more effect `pred` holds of.
pub open spec fn one_more(prev: Seq<Effect>, next: Seq<Effect>) -> bool {
    next.len() == prev.len() + 1 && next.drop_last() == prev
}

impl Session {
    /// Only the effects may differ.
    pub open spec fn same_but_effects(self, other: Session) -> bool {
        &&& self.same_but_output(other) && self.out == other.out
    }

    /// `next` is this session with a request to open `name` at `baud` queued.
    pub open spec fn with_open(self, next: Session, name: Seq<char>, baud: u32, purpose: OpenPurpose) -> bool {
        &&& next.same_but_effects(self)
        &&& one_more(self.effects@, next.effects@)
        &&& is_open_effect(next.effects@.last(), self, name, baud, purpose)
    }

    /// Queues opening `name` at `baud` with the current line parameters (the
    /// caller stops the reader and writer first).
    pub fn open_port(&mut self, name: String, baud: u32, purpose: OpenPurpose)
        ensures
            old(self).with_open(*final(self), name@, baud, purpose),
    {
        let params = PortParams {
            name,
            baud,
            databits: self.params.databits,
            stopbits: self.params.stopbits.clone(),
            parity: self.params.parity.clone(),
            flow: self.params.flow.clone(),
        };
        let ghost e0 = self.effects@;
        self.effects.push(Effect::Open { params, purpose });
        assert(self.effects@.drop_last() =~= e0);
    }

    /// Queues an effect.
    pub fn queue(&mut self, e: Effect)
        ensures
            final(self).same_but_effects(*old(self)),
            final(self).effects@ == old(self).effects@.push(e),
    {
        self.effects.push(e);
    }

    /// Hands the queued effects to the caller, oldest first.
    pub fn take_effects(&mut self) -> (r: Vec<Effect>)
        ensures
            r@ == old(self).effects@,
            final(self).same_but_effects(*old(self)),
            final(self).effects@.len() == 0,
    {
        let mut r: Vec<Effect> = Vec::new();
        std::mem::swap(&mut r, &mut self.effects);
        r
    }
}

} // verus!
