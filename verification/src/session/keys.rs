//! Keys, the mouse, the settings panel, input history and completion.
use vstd::prelude::*;
use super::{Effect, InputState, OpenPurpose, OutputArea, Panels, Params, Session, Stamp, eol_for};
use super::command::fresh_codecs;
use super::dispatch::{command_done, command_parts};
use super::search::{jump_pos, jumped};
use super::send::send_done;
use super::view::sat_sub;
use crate::codec::Encoding;
use crate::complete::{
    CompletionEnv, candidates, complete_with, completed_text, completion_candidates,
    string_views,
};
use crate::config::SendMode;
use crate::logline::Dir;
use crate::text::{concat, owned, push_char, starts_with, str_eq, str_starts_with};

verus! {

broadcast use vstd::string::group_string_axioms;

/// A key as the session sees it.
#[derive(Debug, Clone, Copy, PartialEq, Eq, Structural)]
pub enum KeyCode {
    Esc,
    Tab,
    BackTab,
    Enter,
    Up,
    Down,
    Left,
    Right,
    PageUp,
    PageDown,
    Char(char),
    Other,
}

/// A key press with its modifiers.
#[derive(Debug, Clone, Copy, PartialEq, Eq, Structural)]
pub struct Key {
    pub code: KeyCode,
    pub ctrl: bool,
    pub alt: bool,
}

/// What the caller does to the input editor after a key.
pub enum InputAction {
    /// Leave it as it is.
    Keep,
    /// Empty it.
    Clear,
    /// Replace its text, cursor at the end.
    SetText(String),
    /// Insert text at the cursor.
    Insert(String),
    /// Let the editor handle the key itself.
    Forward,
}

/// A mouse event as the session sees it.
#[derive(Debug, Clone, Copy, PartialEq, Eq, Structural)]
pub enum MouseKind {
    ScrollUp,
    ScrollDown,
    /// A button pressed.
    Down,
    /// Dragging with a button held.
    Drag,
    Other,
}

/// Baud rates offered in the settings panel.
pub open spec fn bauds() -> Seq<u32> {
    seq![300, 600, 1200, 2400, 4800, 9600, 19200, 38400, 57600, 115200, 230400, 460800, 921600, 1000000, 2000000]
}

/// Data bits offered in the settings panel.
pub open spec fn data_bits() -> Seq<u8> {
    seq![5, 6, 7, 8]
}

/// Stop bits offered in the settings panel.
pub open spec fn stop_bits() -> Seq<Seq<char>> {
    seq!["1"@, "2"@]
}

/// Parities offered in the settings panel.
pub open spec fn parities() -> Seq<Seq<char>> {
    seq!["none"@, "odd"@, "even"@]
}

/// Flow controls offered in the settings panel.
pub open spec fn flows() -> Seq<Seq<char>> {
    seq!["none"@, "software"@, "hardware"@]
}

/// Encodings offered in the settings panel.
pub open spec fn encodings() -> Seq<Encoding> {
    seq![Encoding::Utf8, Encoding::Gbk, Encoding::Auto, Encoding::Raw]
}

/// The first position of `x` in `s`, or the length when it is absent.
pub open spec fn first_index<T>(s: Seq<T>, x: T) -> nat
    decreases s.len(),
{
    if s.len() == 0 {
        0
    } else if s[0] == x {
        0
    } else {
        1 + first_index(s.drop_first(), x)
    }
}

/// The value after `x` (or before it, going back) in `s`, cyclically; a
/// value not in `s` counts as its first.
pub open spec fn cycled<T>(s: Seq<T>, x: T, forward: bool) -> T {
    let i = first_index(s, x);
    let p = if i < s.len() { i } else { 0 };
    s[jump_pos(p as usize, s.len() as usize, forward) as int]
}

/// Fields of the settings panel before its two buttons.
pub const SETTINGS_FIELDS: usize = 8;

/// Rows of the settings panel: the fields and the connect and cancel buttons.
pub const SETTINGS_ROWS: usize = 10;

/// The outcome of changing the selected settings field one step.
pub open spec fn cycle_done(s0: Session, s1: Session, forward: bool, stamp: Stamp) -> bool {
    let p = s0.params;
    let sel = s0.panels.settings_sel;
    if sel == 0 {
        let n = s0.panels.port_candidates@.len();
        if n == 0 {
            s0.with_lines(s1, stamp, seq![(Dir::Error, "无可用端口，请连接设备后输入 :settings 刷新"@)])
        } else {
            s1 == (Session { panels: Panels { port_idx: jump_pos(s0.panels.port_idx, n as usize, forward), ..s0.panels }, ..s0 })
        }
    } else if sel == 1 {
        s1 == (Session { params: Params { baud: cycled(bauds(), p.baud, forward), ..p }, ..s0 })
    } else if sel == 2 {
        s1 == (Session { params: Params { databits: cycled(data_bits(), p.databits, forward), ..p }, ..s0 })
    } else if sel == 3 {
        s1 == (Session { params: Params { stopbits: s1.params.stopbits, ..p }, ..s0 })
            && s1.params.stopbits@ == cycled(stop_bits(), p.stopbits@, forward)
    } else if sel == 4 {
        s1 == (Session { params: Params { parity: s1.params.parity, ..p }, ..s0 })
            && s1.params.parity@ == cycled(parities(), p.parity@, forward)
    } else if sel == 5 {
        s1 == (Session { params: Params { flow: s1.params.flow, ..p }, ..s0 })
            && s1.params.flow@ == cycled(flows(), p.flow@, forward)
    } else if sel == 6 {
        s1 == (Session { params: Params { enc: cycled(encodings(), p.enc, forward), ..p }, ..s0 })
    } else if sel == 7 {
        s1 == (Session {
            params: Params { mode: if p.mode == SendMode::Line { SendMode::Direct } else { SendMode::Line }, ..p },
            ..s0
        })
    } else {
        s1 == s0
    }
}

/// The port selected in the settings panel, or nothing.
pub open spec fn selected_port(s: Session) -> Seq<char> {
    if s.panels.port_idx < s.panels.port_candidates@.len() {
        s.panels.port_candidates@[s.panels.port_idx as int].name@
    } else {
        Seq::empty()
    }
}

/// The outcome of applying the settings: with no port selected an error is
/// shown; otherwise the codecs are remade and the port is opened with the
/// parameters shown in the panel.
pub open spec fn apply_done(s0: Session, s1: Session, stamp: Stamp) -> bool {
    let port = selected_port(s0);
    if port.len() == 0 {
        s0.with_lines(s1, stamp, seq![(Dir::Error, "未选择端口"@)])
    } else {
        exists|m: Session|
            m == (Session { codecs: m.codecs, ..s0 }) && fresh_codecs(m.codecs, s0.params.enc)
            && m.with_open(s1, port, s0.params.baud, OpenPurpose::Apply)
    }
}

/// `s` with the settings panel closed.
pub open spec fn settings_closed(s: Session) -> Session {
    Session { panels: Panels { settings_open: false, ..s.panels }, ..s }
}

/// `s` with the settings selection at `sel`.
pub open spec fn with_sel(s: Session, sel: usize) -> Session {
    Session { panels: Panels { settings_sel: sel, ..s.panels }, ..s }
}

/// The outcome of a key while the settings panel is open.
pub open spec fn settings_key_done(s0: Session, s1: Session, k: Key, stamp: Stamp) -> bool {
    let sel = s0.panels.settings_sel;
    match k.code {
        KeyCode::Up => s1 == with_sel(s0, sat_sub(sel, 1)),
        KeyCode::Down => s1 == if sel + 1 < SETTINGS_ROWS { with_sel(s0, (sel + 1) as usize) } else { s0 },
        KeyCode::Tab => s1 == with_sel(s0, ((sel + 1) % (SETTINGS_ROWS as int)) as usize),
        KeyCode::BackTab => s1 == with_sel(s0, ((sel + SETTINGS_ROWS - 1) % (SETTINGS_ROWS as int)) as usize),
        KeyCode::Left => cycle_done(s0, s1, false, stamp),
        KeyCode::Right => cycle_done(s0, s1, true, stamp),
        KeyCode::Char(c) => if c == ' ' { cycle_done(s0, s1, true, stamp) } else { s1 == s0 },
        KeyCode::Enter => if sel == SETTINGS_FIELDS {
            exists|m: Session| apply_done(s0, m, stamp) && s1 == settings_closed(m)
        } else if sel == SETTINGS_FIELDS + 1 {
            s1 == settings_closed(s0)
        } else {
            cycle_done(s0, s1, true, stamp)
        },
        KeyCode::Esc => s1 == settings_closed(s0),
        _ => s1 == s0,
    }
}

/// The outcome of a mouse event: the wheel scrolls three rows; pressing a
/// button while following anchors the view; dragging stops following.
pub open spec fn mouse_done(s0: Session, s1: Session, m: MouseKind) -> bool {
    match m {
        MouseKind::ScrollUp => s1 == s0.scrolled_up(3),
        MouseKind::ScrollDown => s1 == s0.scrolled_down(3),
        MouseKind::Down => s1 == if s0.out.follow { s0.scrolled_up(0) } else { s0 },
        MouseKind::Drag => s1 == (Session { out: OutputArea { follow: false, ..s0.out }, ..s0 }),
        MouseKind::Other => s1 == s0,
    }
}

/// The outcome of adding `text` to the input history: a repeat of the
/// newest entry is not added; otherwise it is appended and the oldest
/// entry dropped beyond the bound. Either way browsing starts again.
pub open spec fn history_added(s0: Session, s1: Session, text: String) -> bool {
    let h = s0.input.history@;
    if h.len() > 0 && h.last()@ == text@ {
        s1 == (Session { input: InputState { hist_pos: 0, ..s0.input }, ..s0 })
    } else {
        &&& s1 == (Session { input: InputState { history: s1.input.history, hist_pos: 0, ..s0.input }, ..s0 })
        &&& s1.input.history@ == if h.len() + 1 > super::MAX_HISTORY {
            h.push(text).skip(h.len() + 1 - super::MAX_HISTORY)
        } else {
            h.push(text)
        }
    }
}

/// `s` with the completion state synchronised to the input `text`: a
/// changed input starts again at the first candidate.
pub open spec fn prefix_synced(s0: Session, s1: Session, text: Seq<char>) -> bool {
    if s0.input.last_cmd_prefix@ != text {
        s1 == (Session { input: InputState { last_cmd_prefix: s1.input.last_cmd_prefix, completion_idx: 0, ..s0.input }, ..s0 })
            && s1.input.last_cmd_prefix@ == text
    } else {
        s1 == s0
    }
}

/// The highlighted candidate among `n`: the first when the index is out of range.
pub open spec fn sel_idx(s: Session, n: nat) -> usize {
    if s.input.completion_idx >= n { 0 } else { s.input.completion_idx }
}

/// `s` with the completion index `i`.
pub open spec fn with_idx(s: Session, i: usize) -> Session {
    Session { input: InputState { completion_idx: i, ..s.input }, ..s }
}

/// The outcome of Tab: the highlighted candidate is applied and the next
/// one highlighted.
pub open spec fn tab_done(s0: Session, s1: Session, text: Seq<char>, c: Seq<(Seq<char>, Seq<char>)>, r: Option<Seq<char>>) -> bool {
    if !starts_with(text, ":"@) || c.len() == 0 {
        s1 == s0 && r is None
    } else {
        exists|m: Session| prefix_synced(s0, m, text) && {
            let i = sel_idx(m, c.len());
            &&& s1 == with_idx(m, if i + 1 == c.len() { 0 } else { (i + 1) as usize })
            &&& r == Some(completed_text(text, c[i as int].0))
        }
    }
}

/// The outcome of moving the highlight among the candidates.
pub open spec fn move_done(s0: Session, s1: Session, text: Seq<char>, c: Seq<(Seq<char>, Seq<char>)>, forward: bool) -> bool {
    if !starts_with(text, ":"@) || c.len() == 0 {
        s1 == s0
    } else {
        exists|m: Session| prefix_synced(s0, m, text)
            && s1 == with_idx(m, jump_pos(m.input.completion_idx, c.len() as usize, forward))
    }
}

/// The history entry shown at browsing position `pos` (1 is the newest).
pub open spec fn history_at(s: Session, pos: usize) -> Seq<char> {
    s.input.history@[s.input.history@.len() - pos]@
}

/// The text sent for a non-command Enter in line mode.
pub open spec fn line_text(s: Session, input: Seq<char>) -> Seq<char> {
    input + eol_for(s.params.tx_on_enter@)
}

/// The outcome of a key with no panel open; `act` is what the input editor
/// does. Page Up and Page Down page the output ten rows at a time.
pub open spec fn input_key_done(
    s0: Session, s1: Session, k: Key, input: String, files: Seq<Seq<char>>, ports: Seq<Seq<char>>, stamp: Stamp, act: InputAction,
) -> bool {
    let c = candidates(input@, files, ports);
    let hlen = s0.input.history@.len();
    match k.code {
        KeyCode::Esc => s1 == s0 && if input@.len() > 0 { act is Clear } else { act is Keep },
        KeyCode::Tab => exists|r: Option<Seq<char>>| tab_done(s0, s1, input@, c, r) && match r {
            Some(t) => act matches InputAction::SetText(x) && x@ == t,
            None => act is Keep,
        },
        KeyCode::Enter => if k.alt {
            s1 == s0 && (act matches InputAction::Insert(x) && x@ == "\n"@)
        } else if starts_with(input@, ":"@) {
            &&& act is Clear
            &&& exists|m1: Session, m2: Session, cmd: String|
                (if c.len() > 0 {
                    m1 == with_idx(s0, sel_idx(s0, c.len())) && cmd@ == completed_text(input@, c[sel_idx(s0, c.len()) as int].0)
                } else {
                    m1 == s0 && cmd@ == input@
                })
                && history_added(m1, m2, cmd)
                && command_done(m2, s1, command_parts(cmd@).0, command_parts(cmd@).1, stamp)
        } else if s0.params.mode == SendMode::Direct {
            if input@.len() == 0 {
                act is Keep && send_done(s0, s1, eol_for(s0.params.tx_on_enter@), stamp)
            } else {
                &&& exists|m: Session| send_done(s0, m, input@, stamp) && history_added(m, s1, input)
                &&& if s0.params.keep_input { act is Keep } else { act is Clear }
            }
        } else {
            if input@.len() == 0 {
                s1 == s0 && act is Keep
            } else {
                &&& exists|m: Session| send_done(s0, m, line_text(s0, input@), stamp) && history_added(m, s1, input)
                &&& if s0.params.keep_input { act is Keep } else { act is Clear }
            }
        },
        KeyCode::Up => if c.len() > 0 {
            act is Keep && move_done(s0, s1, input@, c, false)
        } else if input@.len() == 0 && s0.search.matches@.len() > 0 {
            act is Keep && jumped(s0, s1, false, stamp)
        } else if input@.len() == 0 && hlen > 0 {
            let hp = if s0.input.hist_pos == 0 { 1usize } else if s0.input.hist_pos + 1 <= hlen { (s0.input.hist_pos + 1) as usize } else { hlen as usize };
            &&& s1 == (Session { input: InputState { hist_pos: hp, ..s0.input }, ..s0 })
            &&& act matches InputAction::SetText(x) && x@ == history_at(s0, hp)
        } else {
            s1 == s0 && act is Forward
        },
        KeyCode::Down => if c.len() > 0 {
            act is Keep && move_done(s0, s1, input@, c, true)
        } else if input@.len() == 0 && s0.search.matches@.len() > 0 {
            act is Keep && jumped(s0, s1, true, stamp)
        } else if s0.input.hist_pos > 0 {
            let hp = (s0.input.hist_pos - 1) as usize;
            &&& s1 == (Session { input: InputState { hist_pos: hp, ..s0.input }, ..s0 })
            &&& if hp == 0 { act is Clear } else { act matches InputAction::SetText(x) && x@ == history_at(s0, hp) }
        } else if input@.len() == 0 {
            s1 == s0 && act is Clear
        } else {
            s1 == s0 && act is Forward
        },
        KeyCode::PageUp => act is Keep && s1 == s0.scrolled_up(10),
        KeyCode::PageDown => act is Keep && s1 == s0.scrolled_down(10),
        _ => if s0.params.mode == SendMode::Direct && input@.len() == 0 && !k.ctrl && !k.alt && k.code is Char {
            let ch = k.code->Char_0;
            if ch == ':' {
                s1 == s0 && (act matches InputAction::Insert(x) && x@ == ":"@)
            } else {
                act is Keep && send_done(s0, s1, seq![ch], stamp)
            }
        } else {
            s1 == s0 && act is Forward
        },
    }
}

/// `x + 5` wrapped to `usize`, as a release build's `+=` does.
pub open spec fn wrap_add5(x: usize) -> usize {
    if x + 5 <= usize::MAX { (x + 5) as usize } else { (x + 5 - usize::MAX - 1) as usize }
}

/// The outcome of a key: the help panel, when open, takes the keys that
/// close and scroll it; the settings panel, when open, takes every key;
/// otherwise `input_key_done` says what happens.
pub open spec fn key_done(
    s0: Session, s1: Session, k: Key, input: String, files: Seq<Seq<char>>, ports: Seq<Seq<char>>, stamp: Stamp, act: InputAction,
) -> bool {
    if s0.panels.help_open {
        &&& act is Keep
        &&& s1 == match k.code {
            KeyCode::Esc => Session { panels: Panels { help_open: false, ..s0.panels }, ..s0 },
            KeyCode::Up | KeyCode::PageUp => Session { panels: Panels { help_scroll: sat_sub(s0.panels.help_scroll, 5), ..s0.panels }, ..s0 },
            KeyCode::Down | KeyCode::PageDown => Session { panels: Panels { help_scroll: wrap_add5(s0.panels.help_scroll), ..s0.panels }, ..s0 },
            _ => s0,
        }
    } else if s0.panels.settings_open {
        act is Keep && settings_key_done(s0, s1, k, stamp)
    } else {
        input_key_done(s0, s1, k, input, files, ports, stamp, act)
    }
}

} // verus!

verus! {

/// The position of `x` in `v`, or 0 when it is absent.
fn index_u32(v: &Vec<u32>, x: u32) -> (i: usize)
    requires
        v@.len() > 0,
    ensures
        i == (if first_index(v@, x) < v@.len() { first_index(v@, x) } else { 0 }),
        i < v@.len(),
{
    let mut i: usize = 0;
    assert(v@.skip(0) =~= v@);
    while i < v.len() && v[i] != x
        invariant
            0 <= i <= v@.len(),
            first_index(v@, x) == i + first_index(v@.skip(i as int), x),
        decreases v@.len() - i,
    {
        assert(v@.skip(i as int).drop_first() =~= v@.skip(i + 1));
        i += 1;
    }
    if i == v.len() {
        assert(v@.skip(i as int).len() == 0);
        0
    } else {
        i
    }
}

/// The position of `x` in `v`, or 0 when it is absent.
fn index_u8(v: &Vec<u8>, x: u8) -> (i: usize)
    requires
        v@.len() > 0,
    ensures
        i == (if first_index(v@, x) < v@.len() { first_index(v@, x) } else { 0 }),
        i < v@.len(),
{
    let mut i: usize = 0;
    assert(v@.skip(0) =~= v@);
    while i < v.len() && v[i] != x
        invariant
            0 <= i <= v@.len(),
            first_index(v@, x) == i + first_index(v@.skip(i as int), x),
        decreases v@.len() - i,
    {
        assert(v@.skip(i as int).drop_first() =~= v@.skip(i + 1));
        i += 1;
    }
    if i == v.len() {
        assert(v@.skip(i as int).len() == 0);
        0
    } else {
        i
    }
}

/// The position of `x` in `v`, or 0 when it is absent.
fn index_enc(v: &Vec<Encoding>, x: Encoding) -> (i: usize)
    requires
        v@.len() > 0,
    ensures
        i == (if first_index(v@, x) < v@.len() { first_index(v@, x) } else { 0 }),
        i < v@.len(),
{
    let mut i: usize = 0;
    assert(v@.skip(0) =~= v@);
    while i < v.len() && v[i] != x
        invariant
            0 <= i <= v@.len(),
            first_index(v@, x) == i + first_index(v@.skip(i as int), x),
        decreases v@.len() - i,
    {
        assert(v@.skip(i as int).drop_first() =~= v@.skip(i + 1));
        i += 1;
    }
    if i == v.len() {
        assert(v@.skip(i as int).len() == 0);
        0
    } else {
        i
    }
}

/// The position of `x` among the strings of `v`, or 0 when it is absent.
fn index_str(v: &Vec<&'static str>, x: &str) -> (i: usize)
    requires
        v@.len() > 0,
    ensures
        i == (if first_index(crate::complete::static_views(v@), x@) < v@.len() {
            first_index(crate::complete::static_views(v@), x@)
        } else {
            0
        }),
        i < v@.len(),
{
    let ghost vs = crate::complete::static_views(v@);
    let mut i: usize = 0;
    assert(vs.skip(0) =~= vs);
    while i < v.len() && !str_eq(v[i], x)
        invariant
            0 <= i <= v@.len(),
            vs == crate::complete::static_views(v@),
            first_index(vs, x@) == i + first_index(vs.skip(i as int), x@),
        decreases v@.len() - i,
    {
        assert(vs.skip(i as int).drop_first() =~= vs.skip(i + 1));
        i += 1;
    }
    if i == v.len() {
        assert(vs.skip(i as int).len() == 0);
        0
    } else {
        assert(vs.skip(i as int)[0] == vs[i as int]);
        i
    }
}

/// One step forwards or backwards from position `p` among `n`, cyclically.
fn step(p: usize, n: usize, forward: bool) -> (r: usize)
    requires
        n > 0,
    ensures
        r == jump_pos(p, n, forward),
        r < n,
{
    let q = p % n;
    if forward {
        if q + 1 == n { 0 } else { q + 1 }
    } else {
        if q == 0 { n - 1 } else { q - 1 }
    }
}

impl Session {
    /// Changes the selected settings field one step (see `cycle_done`).
    pub fn cycle_setting(&mut self, forward: bool, stamp: &Stamp)
        requires
            old(self).wf(),
        ensures
            final(self).wf(),
            cycle_done(*old(self), *final(self), forward, *stamp),
    {
        let sel = self.panels.settings_sel;
        if sel == 0 {
            let n = self.panels.port_candidates.len();
            if n == 0 {
                self.push_line(Dir::Error, owned("无可用端口，请连接设备后输入 :settings 刷新"), stamp);
                return;
            }
            self.panels.port_idx = step(self.panels.port_idx, n, forward);
        } else if sel == 1 {
            let v: Vec<u32> = vec![300, 600, 1200, 2400, 4800, 9600, 19200, 38400, 57600, 115200, 230400, 460800, 921600, 1000000, 2000000];
            assert(v@ =~= bauds());
            let i = index_u32(&v, self.params.baud);
            self.params.baud = v[step(i, v.len(), forward)];
        } else if sel == 2 {
            let v: Vec<u8> = vec![5, 6, 7, 8];
            assert(v@ =~= data_bits());
            let i = index_u8(&v, self.params.databits);
            self.params.databits = v[step(i, v.len(), forward)];
        } else if sel == 3 {
            let v: Vec<&'static str> = vec!["1", "2"];
            assert(crate::complete::static_views(v@) =~= stop_bits());
            let i = index_str(&v, self.params.stopbits.as_str());
            self.params.stopbits = owned(v[step(i, v.len(), forward)]);
        } else if sel == 4 {
            let v: Vec<&'static str> = vec!["none", "odd", "even"];
            assert(crate::complete::static_views(v@) =~= parities());
            let i = index_str(&v, self.params.parity.as_str());
            self.params.parity = owned(v[step(i, v.len(), forward)]);
        } else if sel == 5 {
            let v: Vec<&'static str> = vec!["none", "software", "hardware"];
            assert(crate::complete::static_views(v@) =~= flows());
            let i = index_str(&v, self.params.flow.as_str());
            self.params.flow = owned(v[step(i, v.len(), forward)]);
        } else if sel == 6 {
            let v: Vec<Encoding> = vec![Encoding::Utf8, Encoding::Gbk, Encoding::Auto, Encoding::Raw];
            assert(v@ =~= encodings());
            let i = index_enc(&v, self.params.enc);
            self.params.enc = v[step(i, v.len(), forward)];
        } else if sel == 7 {
            self.params.mode = if self.params.mode == SendMode::Line { SendMode::Direct } else { SendMode::Line };
        }
    }

    /// Applies the settings and connects (see `apply_done`).
    pub fn apply_settings(&mut self, stamp: &Stamp)
        requires
            old(self).wf(),
        ensures
            final(self).wf(),
            apply_done(*old(self), *final(self), *stamp),
    {
        let idx = self.panels.port_idx;
        let port = if idx < self.panels.port_candidates.len() {
            self.panels.port_candidates[idx].name.clone()
        } else {
            String::new()
        };
        if port.as_str().is_empty() {
            self.push_line(Dir::Error, owned("未选择端口"), stamp);
            return;
        }
        self.reset_codecs();
        let ghost m = *self;
        let baud = self.params.baud;
        self.open_port(port, baud, OpenPurpose::Apply);
        assert(m.with_open(*self, selected_port(*old(self)), old(self).params.baud, OpenPurpose::Apply));
    }

    /// A key while the settings panel is open (see `settings_key_done`).
    pub fn handle_settings_key(&mut self, k: Key, stamp: &Stamp)
        requires
            old(self).wf(),
        ensures
            final(self).wf(),
            settings_key_done(*old(self), *final(self), k, *stamp),
    {
        let sel = self.panels.settings_sel;
        match k.code {
            KeyCode::Up => {
                self.panels.settings_sel = if sel >= 1 { sel - 1 } else { 0 };
            },
            KeyCode::Down => {
                if sel < SETTINGS_ROWS - 1 {
                    self.panels.settings_sel = sel + 1;
                }
            },
            KeyCode::Tab => {
                self.panels.settings_sel = (sel % SETTINGS_ROWS + 1) % SETTINGS_ROWS;
            },
            KeyCode::BackTab => {
                self.panels.settings_sel = (sel % SETTINGS_ROWS + SETTINGS_ROWS - 1) % SETTINGS_ROWS;
            },
            KeyCode::Left => self.cycle_setting(false, stamp),
            KeyCode::Right => self.cycle_setting(true, stamp),
            KeyCode::Char(c) => {
                if c == ' ' {
                    self.cycle_setting(true, stamp);
                }
            },
            KeyCode::Enter => {
                if sel == SETTINGS_FIELDS {
                    self.apply_settings(stamp);
                    let ghost m = *self;
                    self.panels.settings_open = false;
                    assert(apply_done(*old(self), m, *stamp) && *self == settings_closed(m));
                } else if sel == SETTINGS_FIELDS + 1 {
                    self.panels.settings_open = false;
                } else {
                    self.cycle_setting(true, stamp);
                }
            },
            KeyCode::Esc => {
                self.panels.settings_open = false;
            },
            _ => {},
        }
    }

    /// A mouse event (see `mouse_done`).
    pub fn handle_mouse(&mut self, m: MouseKind)
        ensures
            mouse_done(*old(self), *final(self), m),
    {
        match m {
            MouseKind::ScrollUp => self.scroll_up(3),
            MouseKind::ScrollDown => self.scroll_down(3),
            MouseKind::Down => {
                if self.out.follow {
                    self.scroll_up(0);
                }
            },
            MouseKind::Drag => {
                self.out.follow = false;
            },
            MouseKind::Other => {},
        }
    }

    /// Adds `text` to the input history (see `history_added`).
    pub fn history_add(&mut self, text: String)
        requires
            old(self).wf(),
        ensures
            final(self).wf(),
            history_added(*old(self), *final(self), text),
    {
        let n = self.input.history.len();
        if n > 0 && str_eq(self.input.history[n - 1].as_str(), text.as_str()) {
            self.input.hist_pos = 0;
            return;
        }
        let ghost h2 = self.input.history@.push(text);
        self.input.history.push(text);
        let ghost mut dropped: int = 0;
        let ghost s1 = *self;
        while self.input.history.len() > super::MAX_HISTORY
            invariant
                *self == (Session { input: InputState { history: self.input.history, ..s1.input }, ..s1 }),
                0 <= dropped <= h2.len(),
                self.input.history@ == h2.skip(dropped),
                h2.len() > super::MAX_HISTORY ==> dropped <= h2.len() - super::MAX_HISTORY,
                h2.len() <= super::MAX_HISTORY ==> dropped == 0,
            decreases self.input.history@.len(),
        {
            self.input.history.remove(0);
            proof {
                assert(h2.skip(dropped).drop_first() =~= h2.skip(dropped + 1));
                dropped = dropped + 1;
            }
        }
        proof {
            if h2.len() <= super::MAX_HISTORY {
                assert(h2.skip(0) =~= h2);
            }
        }
        self.input.hist_pos = 0;
    }

    /// Synchronises the completion state to the input (see `prefix_synced`).
    fn sync_prefix(&mut self, text: &str)
        ensures
            prefix_synced(*old(self), *final(self), text@),
    {
        if !str_eq(self.input.last_cmd_prefix.as_str(), text) {
            self.input.last_cmd_prefix = owned(text);
            self.input.completion_idx = 0;
        }
    }

    /// Tab: applies the highlighted candidate and highlights the next one
    /// (see `tab_done`); returns the new input, if any.
    pub fn tab_complete(&mut self, text: &str, c: &Vec<(String, String)>) -> (r: Option<String>)
        ensures
            tab_done(*old(self), *final(self), text@, c@.map_values(|p: (String, String)| (p.0@, p.1@)),
                match r { Some(t) => Some(t@), None => None }),
    {
        let ghost cv = c@.map_values(|p: (String, String)| (p.0@, p.1@));
        if !str_starts_with(text, ":") || c.len() == 0 {
            return None;
        }
        self.sync_prefix(text);
        let ghost m = *self;
        let n = c.len();
        let i = if self.input.completion_idx >= n { 0 } else { self.input.completion_idx };
        self.input.completion_idx = if i + 1 == n { 0 } else { i + 1 };
        let t = complete_with(text, c[i].0.as_str());
        assert(cv[i as int].0 == c@[i as int].0@);
        Some(t)
    }

    /// Moves the highlight among the candidates (see `move_done`).
    pub fn complete_move(&mut self, text: &str, c: &Vec<(String, String)>, forward: bool)
        ensures
            move_done(*old(self), *final(self), text@, c@.map_values(|p: (String, String)| (p.0@, p.1@)), forward),
    {
        if !str_starts_with(text, ":") || c.len() == 0 {
            return;
        }
        self.sync_prefix(text);
        self.input.completion_idx = step(self.input.completion_idx, c.len(), forward);
    }
}

} // verus!

verus! {

impl Session {
    /// The Enter key on a non-empty input that is not a command, and on an
    /// empty input in direct mode.
    fn enter_text(&mut self, k: Key, input: String, stamp: &Stamp) -> (act: InputAction)
        requires
            old(self).wf(),
            !starts_with(input@, ":"@),
            k.code == KeyCode::Enter,
            !k.alt,
        ensures
            final(self).wf(),
            forall|files: Seq<Seq<char>>, ports: Seq<Seq<char>>|
                input_key_done(*old(self), *final(self), k, input, files, ports, *stamp, act),
    {
        if self.params.mode == SendMode::Direct {
            if input.as_str().is_empty() {
                let e = self.eol();
                self.send_text(e, stamp);
                return InputAction::Keep;
            }
            let keep = self.params.keep_input;
            let ghost s0 = *self;
            self.send_text(input.clone(), stamp);
            let ghost m = *self;
            self.history_add(input);
            assert(send_done(s0, m, input@, *stamp));
            if keep { InputAction::Keep } else { InputAction::Clear }
        } else {
            if input.as_str().is_empty() {
                return InputAction::Keep;
            }
            let keep = self.params.keep_input;
            let e = self.eol();
            let text = concat(input.as_str(), e.as_str());
            let ghost s0 = *self;
            self.send_text(text, stamp);
            let ghost m = *self;
            self.history_add(input);
            assert(send_done(s0, m, line_text(s0, input@), *stamp));
            if keep { InputAction::Keep } else { InputAction::Clear }
        }
    }

    /// Handles a key; `input` is the editor's text and `env` what completion
    /// may offer beyond the fixed tables (see `key_done`).
    #[verifier::rlimit(60)]
    pub fn handle_key(&mut self, k: Key, input: String, env: &CompletionEnv, stamp: &Stamp) -> (act: InputAction)
        requires
            old(self).wf(),
        ensures
            final(self).wf(),
            key_done(*old(self), *final(self), k, input, string_views(env.files@), string_views(env.ports@), *stamp, act),
    {
        let ghost files = string_views(env.files@);
        let ghost ports = string_views(env.ports@);
        if self.panels.help_open {
            match k.code {
                KeyCode::Esc => {
                    self.panels.help_open = false;
                },
                KeyCode::Up | KeyCode::PageUp => {
                    let h = self.panels.help_scroll;
                    self.panels.help_scroll = if h >= 5 { h - 5 } else { 0 };
                },
                KeyCode::Down | KeyCode::PageDown => {
                    let h = self.panels.help_scroll;
                    self.panels.help_scroll = if h <= usize::MAX - 5 { h + 5 } else { h - (usize::MAX - 4) };
                },
                _ => {},
            }
            return InputAction::Keep;
        }
        if self.panels.settings_open {
            self.handle_settings_key(k, stamp);
            return InputAction::Keep;
        }
        let c = completion_candidates(input.as_str(), env);
        let ghost cv = c@.map_values(|p: (String, String)| (p.0@, p.1@));
        assert(cv == candidates(input@, files, ports));
        match k.code {
            KeyCode::Esc => {
                if input.as_str().is_empty() { InputAction::Keep } else { InputAction::Clear }
            },
            KeyCode::Tab => {
                match self.tab_complete(input.as_str(), &c) {
                    Some(t) => InputAction::SetText(t),
                    None => InputAction::Keep,
                }
            },
            KeyCode::Enter => {
                if k.alt {
                    return InputAction::Insert(owned("\n"));
                }
                if str_starts_with(input.as_str(), ":") {
                    let ghost s0 = *self;
                    let cmd = if c.len() > 0 {
                        let n = c.len();
                        if self.input.completion_idx >= n {
                            self.input.completion_idx = 0;
                        }
                        let i = self.input.completion_idx;
                        proof {
                            assert(cv[i as int].0 == c@[i as int].0@);
                        }
                        complete_with(input.as_str(), c[i].0.as_str())
                    } else {
                        input.clone()
                    };
                    let ghost m1 = *self;
                    self.history_add(cmd.clone());
                    let ghost m2 = *self;
                    self.execute_command(cmd.as_str(), stamp);
                    assert(history_added(m1, m2, cmd));
                    assert(if cv.len() > 0 {
                        m1 == with_idx(s0, sel_idx(s0, cv.len())) && cmd@ == completed_text(input@, cv[sel_idx(s0, cv.len()) as int].0)
                    } else {
                        m1 == s0 && cmd@ == input@
                    });
                    assert(command_done(m2, *self, command_parts(cmd@).0, command_parts(cmd@).1, *stamp));
                    return InputAction::Clear;
                }
                self.enter_text(k, input, stamp)
            },
            KeyCode::Up => {
                if c.len() > 0 {
                    self.complete_move(input.as_str(), &c, false);
                    return InputAction::Keep;
                }
                if input.as_str().is_empty() && self.search.matches.len() > 0 {
                    self.search_jump(false, stamp);
                    return InputAction::Keep;
                }
                let n = self.input.history.len();
                if input.as_str().is_empty() && n > 0 {
                    let hp = if self.input.hist_pos == 0 {
                        1
                    } else if self.input.hist_pos < n {
                        self.input.hist_pos + 1
                    } else {
                        n
                    };
                    self.input.hist_pos = hp;
                    let t = self.input.history[n - hp].clone();
                    return InputAction::SetText(t);
                }
                InputAction::Forward
            },
            KeyCode::Down => {
                if c.len() > 0 {
                    self.complete_move(input.as_str(), &c, true);
                    return InputAction::Keep;
                }
                if input.as_str().is_empty() && self.search.matches.len() > 0 {
                    self.search_jump(true, stamp);
                    return InputAction::Keep;
                }
                if self.input.hist_pos > 0 {
                    let hp = self.input.hist_pos - 1;
                    self.input.hist_pos = hp;
                    if hp == 0 {
                        return InputAction::Clear;
                    }
                    let n = self.input.history.len();
                    let t = self.input.history[n - hp].clone();
                    return InputAction::SetText(t);
                }
                if input.as_str().is_empty() { InputAction::Clear } else { InputAction::Forward }
            },
            KeyCode::PageUp => {
                self.scroll_up(10);
                InputAction::Keep
            },
            KeyCode::PageDown => {
                self.scroll_down(10);
                InputAction::Keep
            },
            _ => {
                if self.params.mode == SendMode::Direct && input.as_str().is_empty() && !k.ctrl && !k.alt {
                    match k.code {
                        KeyCode::Char(ch) => {
                            if ch == ':' {
                                return InputAction::Insert(owned(":"));
                            }
                            let mut t = String::new();
                            push_char(&mut t, ch);
                            self.send_text(t, stamp);
                            return InputAction::Keep;
                        },
                        _ => {},
                    }
                }
                InputAction::Forward
            },
        }
    }
}

} // verus!

verus! {

/// After adding to the history its newest entry is the text added, it
/// holds no more than the bound (or than before), and browsing starts over.
pub proof fn law_history_newest_and_bounded(s0: Session, s1: Session, text: String)
    requires
        history_added(s0, s1, text),
    ensures
        s1.input.history@.len() > 0,
        s1.input.history@.last()@ == text@,
        s1.input.history@.len() <= super::MAX_HISTORY || s1.input.history@.len() <= s0.input.history@.len(),
        s1.input.hist_pos == 0,
{
    let h = s0.input.history@;
    if !(h.len() > 0 && h.last()@ == text@) {
        let h2 = h.push(text);
        if h.len() + 1 > super::MAX_HISTORY {
            assert(h2.skip(h.len() + 1 - super::MAX_HISTORY).last() == h2.last());
        }
    }
}

} // verus!

verus! {

/// With no repeated values, the first position of the value at `j` is `j`.
proof fn lemma_first_index_of<T>(s: Seq<T>, j: int)
    requires
        s.no_duplicates(),
        0 <= j < s.len(),
    ensures
        first_index(s, s[j]) == j,
    decreases s.len(),
{
    if j > 0 {
        let t = s.drop_first();
        assert(s[0] != s[j]);
        assert(t[j - 1] == s[j]);
        assert(t.no_duplicates()) by {
            assert forall|a: int, b: int| 0 <= a < t.len() && 0 <= b < t.len() && a != b implies t[a] != t[b] by {
                assert(t[a] == s[a + 1] && t[b] == s[b + 1]);
            }
        }
        lemma_first_index_of(t, j - 1);
    }
}

/// Among values offered without repeats, one step forward and one step
/// back return to the value one started from.
proof fn lemma_cycled_back<T>(s: Seq<T>, x: T)
    requires
        s.no_duplicates(),
        s.contains(x),
        s.len() <= usize::MAX,
    ensures
        cycled(s, cycled(s, x, true), false) == x,
{
    let j = choose|j: int| 0 <= j < s.len() && s[j] == x;
    let n = s.len() as usize;
    lemma_first_index_of(s, j);
    let q = jump_pos(j as usize, n, true);
    assert(q < n);
    lemma_first_index_of(s, q as int);
    super::search::law_jump_forth_and_back(j as usize, n);
    assert((j as usize) % n == j) by (nonlinear_arith)
        requires 0 <= j < n;
}

proof fn lemma_offered_lists_distinct()
    ensures
        bauds().no_duplicates(),
        data_bits().no_duplicates(),
        stop_bits().no_duplicates(),
        parities().no_duplicates(),
        flows().no_duplicates(),
        encodings().no_duplicates(),
{
    reveal_strlit("1");
    reveal_strlit("2");
    reveal_strlit("none");
    reveal_strlit("odd");
    reveal_strlit("even");
    reveal_strlit("software");
    reveal_strlit("hardware");
    assert("1"@[0] != "2"@[0]);
    assert("none"@.len() != "odd"@.len());
    assert("odd"@.len() != "even"@.len());
    assert("none"@[0] != "even"@[0]);
    assert("none"@.len() != "software"@.len());
    assert("none"@.len() != "hardware"@.len());
    assert("software"@[0] != "hardware"@[0]);
    let p = parities();
    assert forall|a: int, b: int| 0 <= a < p.len() && 0 <= b < p.len() && a != b implies p[a] != p[b] by {
        if (a == 0 && b == 2) || (a == 2 && b == 0) {
            assert(p[0][0] != p[2][0]);
        }
    }
    let t = stop_bits();
    assert forall|a: int, b: int| 0 <= a < t.len() && 0 <= b < t.len() && a != b implies t[a] != t[b] by {
        assert(t[0][0] != t[1][0]);
    }
    let f = flows();
    assert forall|a: int, b: int| 0 <= a < f.len() && 0 <= b < f.len() && a != b implies f[a] != f[b] by {
        if (a == 1 && b == 2) || (a == 2 && b == 1) {
            assert(f[1][0] != f[2][0]);
        }
    }
}


/// Whether the selected settings field holds a value that the panel offers
/// (for the port field: a port is selected).
pub open spec fn value_offered(s: Session) -> bool {
    let p = s.params;
    let sel = s.panels.settings_sel;
    if sel == 0 {
        s.panels.port_idx < s.panels.port_candidates@.len()
    } else if sel == 1 {
        bauds().contains(p.baud)
    } else if sel == 2 {
        data_bits().contains(p.databits)
    } else if sel == 3 {
        stop_bits().contains(p.stopbits@)
    } else if sel == 4 {
        parities().contains(p.parity@)
    } else if sel == 5 {
        flows().contains(p.flow@)
    } else {
        sel < SETTINGS_FIELDS
    }
}

/// In the settings panel, changing a field one step forward and then one
/// step back restores it, when it holds a value that the panel offers.
pub proof fn law_settings_step_undone(s0: Session, s1: Session, s2: Session, stamp1: Stamp, stamp2: Stamp)
    requires
        value_offered(s0),
        cycle_done(s0, s1, true, stamp1),
        cycle_done(s1, s2, false, stamp2),
    ensures
        s2 == (Session {
            params: Params { stopbits: s2.params.stopbits, parity: s2.params.parity, flow: s2.params.flow, ..s0.params },
            ..s0
        }),
        s2.params.stopbits@ == s0.params.stopbits@,
        s2.params.parity@ == s0.params.parity@,
        s2.params.flow@ == s0.params.flow@,
{
    lemma_offered_lists_distinct();
    let p = s0.params;
    let sel = s0.panels.settings_sel;
    if sel == 0 {
        let n = s0.panels.port_candidates.len();
        super::search::law_jump_forth_and_back(s0.panels.port_idx, n);
        assert(s0.panels.port_idx % n == s0.panels.port_idx) by (nonlinear_arith)
            requires s0.panels.port_idx < n;
    } else if sel == 1 {
        lemma_cycled_back(bauds(), p.baud);
    } else if sel == 2 {
        lemma_cycled_back(data_bits(), p.databits);
    } else if sel == 3 {
        lemma_cycled_back(stop_bits(), p.stopbits@);
    } else if sel == 4 {
        lemma_cycled_back(parities(), p.parity@);
    } else if sel == 5 {
        lemma_cycled_back(flows(), p.flow@);
    } else if sel == 6 {
        let e = encodings();
        let i: int = match p.enc {
            Encoding::Utf8 => 0,
            Encoding::Gbk => 1,
            Encoding::Auto => 2,
            Encoding::Raw => 3,
        };
        assert(e[i] == p.enc);
        lemma_cycled_back(e, p.enc);
    }
}

} // verus!

verus! {

/// The UTF-8 bytes of two texts one after the other are the bytes of each.
proof fn lemma_utf8_concat(a: Seq<char>, b: Seq<char>)
    ensures
        vstd::utf8::encode_utf8(a + b) == vstd::utf8::encode_utf8(a) + vstd::utf8::encode_utf8(b),
    decreases a.len(),
{
    if a.len() > 0 {
        assert((a + b).drop_first() =~= a.drop_first() + b);
        assert((a + b)[0] == a[0]);
        lemma_utf8_concat(a.drop_first(), b);
        assert(vstd::utf8::encode_utf8(a + b) =~= vstd::utf8::encode_utf8(a) + vstd::utf8::encode_utf8(b));
    }
}

/// The bytes Enter appends for the line ending setting `t`.
proof fn lemma_line_ending_bytes(t: Seq<char>)
    ensures
        vstd::utf8::encode_utf8(eol_for(t)) == if t == "CR"@ {
            seq![0x0Du8]
        } else if t == "LF"@ {
            seq![0x0Au8]
        } else {
            seq![0x0Du8, 0x0Au8]
        },
{
    reveal_strlit("\r");
    reveal_strlit("\n");
    reveal_strlit("\r\n");
    assert(('\r' as u32) == 13);
    assert(('\n' as u32) == 10);
    assert((13u32 & 0x7F) as u8 == 0x0Du8) by (bit_vector);
    assert((10u32 & 0x7F) as u8 == 0x0Au8) by (bit_vector);
    let cr: Seq<char> = seq!['\r'];
    let lf: Seq<char> = seq!['\n'];
    let crlf: Seq<char> = seq!['\r', '\n'];
    assert("\r"@ =~= cr);
    assert("\n"@ =~= lf);
    assert("\r\n"@ =~= crlf);
    assert(cr.drop_first() =~= Seq::<char>::empty());
    assert(lf.drop_first() =~= Seq::<char>::empty());
    assert(crlf.drop_first() =~= lf);
    assert(vstd::utf8::encode_scalar(13u32) =~= seq![0x0Du8]);
    assert(vstd::utf8::encode_scalar(10u32) =~= seq![0x0Au8]);
    assert(vstd::utf8::encode_utf8(Seq::<char>::empty()) =~= Seq::<u8>::empty());
    assert(cr[0] as u32 == 13u32);
    assert(lf[0] as u32 == 10u32);
    assert(crlf[0] as u32 == 13u32);
    assert(vstd::utf8::encode_utf8(lf) == vstd::utf8::encode_scalar(10u32) + vstd::utf8::encode_utf8(Seq::<char>::empty()));
    assert(vstd::utf8::encode_utf8(cr) == vstd::utf8::encode_scalar(13u32) + vstd::utf8::encode_utf8(Seq::<char>::empty()));
    assert(vstd::utf8::encode_utf8(crlf) == vstd::utf8::encode_scalar(13u32) + vstd::utf8::encode_utf8(lf));
    assert(vstd::utf8::encode_utf8(cr) =~= seq![0x0Du8]);
    assert(vstd::utf8::encode_utf8(lf) =~= seq![0x0Au8]);
    assert(vstd::utf8::encode_utf8(crlf) =~= seq![0x0Du8, 0x0Au8]);
}

/// Enter on typed text in line mode, while connected and encoding as UTF-8,
/// sends the text's bytes followed by the line ending its setting names:
/// 0x0D for "CR", 0x0A for "LF", 0x0D 0x0A otherwise.
pub proof fn law_enter_sends_line_ending(
    s0: Session, s1: Session, input: String, files: Seq<Seq<char>>, ports: Seq<Seq<char>>, stamp: Stamp, act: InputAction,
)
    requires
        key_done(s0, s1, Key { code: KeyCode::Enter, ctrl: false, alt: false }, input, files, ports, stamp, act),
        !s0.panels.help_open,
        !s0.panels.settings_open,
        s0.params.mode == SendMode::Line,
        s0.link.connected,
        input@.len() > 0,
        !starts_with(input@, ":"@),
        s0.codecs.encoder.encoding() != Encoding::Gbk,
    ensures
        s1.effects@.len() > 0,
        s1.effects@.last() matches Effect::Send { bytes, .. } && bytes@ == vstd::utf8::encode_utf8(input@) + if s0.params.tx_on_enter@ == "CR"@ {
            seq![0x0Du8]
        } else if s0.params.tx_on_enter@ == "LF"@ {
            seq![0x0Au8]
        } else {
            seq![0x0Du8, 0x0Au8]
        },
{
    let text = line_text(s0, input@);
    let m = choose|m: Session| send_done(s0, m, text, stamp) && history_added(m, s1, input);
    assert(text.len() > 0);
    assert(!super::send::too_long_for(s0.codecs.encoder.encoding(), text));
    assert(s1.effects == m.effects);
    lemma_utf8_concat(input@, eol_for(s0.params.tx_on_enter@));
    lemma_line_ending_bytes(s0.params.tx_on_enter@);
}

/// Enter on an empty input in direct mode, while connected and encoding as
/// UTF-8, sends just the line ending its setting names: 0x0D for "CR",
/// 0x0A for "LF", 0x0D 0x0A otherwise.
pub proof fn law_direct_enter_sends_line_ending(
    s0: Session, s1: Session, input: String, files: Seq<Seq<char>>, ports: Seq<Seq<char>>, stamp: Stamp, act: InputAction,
)
    requires
        key_done(s0, s1, Key { code: KeyCode::Enter, ctrl: false, alt: false }, input, files, ports, stamp, act),
        !s0.panels.help_open,
        !s0.panels.settings_open,
        s0.params.mode == SendMode::Direct,
        s0.link.connected,
        input@.len() == 0,
        s0.codecs.encoder.encoding() != Encoding::Gbk,
    ensures
        s1.effects@.len() > 0,
        s1.effects@.last() matches Effect::Send { bytes, .. } && bytes@ == if s0.params.tx_on_enter@ == "CR"@ {
            seq![0x0Du8]
        } else if s0.params.tx_on_enter@ == "LF"@ {
            seq![0x0Au8]
        } else {
            seq![0x0Du8, 0x0Au8]
        },
{
    reveal_strlit(":");
    assert(!starts_with(input@, ":"@));
    let e = eol_for(s0.params.tx_on_enter@);
    reveal_strlit("\r");
    reveal_strlit("\n");
    reveal_strlit("\r\n");
    assert(e.len() > 0);
    assert(!super::send::too_long_for(s0.codecs.encoder.encoding(), e));
    lemma_line_ending_bytes(s0.params.tx_on_enter@);
}

} // verus!
