//! What the screen shows: the wrapped output rows, the viewport, the status
//! line and the texts of the panels.
use vstd::prelude::*;
use super::{OutputArea, Rows, Session, dir_tag3, mode_label_of};
use super::view::{rows_before, sat, sat_sub};
use crate::ansi::{ansi_spans, ansi_to_spans};
use crate::codec::Encoding;
use crate::config::SendMode;
use crate::logline::{Dir, LogLine};
use crate::style::{StyledSpan, TermColor, TextStyle, span_views};
use crate::text::{chars_of, chars_contain, concat, contains_seq, dec, dec_string, lowercase, lowercased, owned, push_char, push_str, str_eq};
use crate::wrap::{folded, highlight_keyword, highlighted, plain_of, rows_view, str_width, styled_chars, text_cols, unit_spans, wrap_spans};

verus! {

broadcast use vstd::string::group_string_axioms;

/// `a + b` wrapped to `usize`, as a release build's addition does.
pub open spec fn wsum(a: usize, b: usize) -> usize {
    if a + b <= usize::MAX { (a + b) as usize } else { (a + b - usize::MAX - 1) as usize }
}

fn wrapping_add_usize(a: usize, b: usize) -> (r: usize)
    ensures
        r == wsum(a, b),
{
    if a <= usize::MAX - b { a + b } else { b - (usize::MAX - a) - 1 }
}

/// `n` spaces.
pub open spec fn spaces(n: nat) -> Seq<char> {
    Seq::new(n, |i: int| ' ')
}

/// `n` spaces.
pub fn spaces_string(n: usize) -> (s: String)
    ensures
        s@ == spaces(n as nat),
{
    let mut s = String::new();
    let mut i: usize = 0;
    while i < n
        invariant
            0 <= i <= n,
            s@ == spaces(i as nat),
        decreases n - i,
    {
        push_char(&mut s, ' ');
        assert(s@ =~= spaces((i + 1) as nat));
        i += 1;
    }
    s
}

/// `s` padded with spaces to `n` characters (as `{:<n}` formats it).
pub open spec fn pad_right(s: Seq<char>, n: nat) -> Seq<char> {
    if s.len() >= n { s } else { s + spaces((n - s.len()) as nat) }
}

/// `s` padded with spaces to `n` characters.
pub fn pad_right_string(s: &str, n: usize) -> (r: String)
    ensures
        r@ == pad_right(s@, n as nat),
{
    let k = chars_of(s).len();
    if k >= n {
        owned(s)
    } else {
        concat(s, spaces_string(n - k).as_str())
    }
}

/// The colour of a direction's tag.
pub open spec fn tag_color(s: Session, d: Dir) -> TermColor {
    match d {
        Dir::Rx => s.params.theme.rx,
        Dir::Tx => s.params.theme.tx,
        Dir::Sys => s.params.theme.sys,
        Dir::Error => s.params.theme.err,
    }
}

/// The runs before a line's body: its time stamp in dark grey, then its
/// tag column in the direction's colour unless tags are hidden.
pub open spec fn prefix_spans(s: Session, l: LogLine) -> Seq<(Seq<char>, TextStyle)> {
    let ts: Seq<(Seq<char>, TextStyle)> = match l.ts {
        Some(t) => seq![("["@ + t@ + "] "@, TextStyle::spec_new().with_fg(TermColor::DarkGray))],
        None => Seq::empty(),
    };
    if s.params.no_tags {
        ts
    } else {
        ts.push(("["@ + dir_tag3(l.dir) + "] "@, TextStyle::spec_new().with_fg(tag_color(s, l.dir))))
    }
}

/// The display width of runs: the sum of their widths.
pub open spec fn spans_width(v: Seq<(Seq<char>, TextStyle)>) -> usize
    decreases v.len(),
{
    if v.len() == 0 { 0 } else { wsum(spans_width(v.drop_last()), text_cols(v.last().0)) }
}

/// The highlight style for search matches.
pub open spec fn hl_style(s: Session) -> TextStyle {
    TextStyle::spec_new().with_bg(s.params.theme.accent).with_fg(TermColor::Black)
}

/// A line's body as runs: its ANSI colours over the theme's text colour,
/// with the search keyword highlighted when the body contains it.
pub open spec fn body_spans(s: Session, l: LogLine) -> Seq<(Seq<char>, TextStyle)> {
    let base = ansi_spans(l.body@, TextStyle::spec_new().with_fg(s.params.theme.fg));
    match s.search.kw {
        Some(kw) => if contains_seq(lowercased(plain_of(base)), kw@) { highlighted(base, kw@, hl_style(s)) } else { base },
        None => base,
    }
}

/// The rows a line is drawn as at `width` columns: the body folded to the
/// width left after the prefix; the first row starts with the prefix, the
/// others with as many spaces.
pub open spec fn line_rows(s: Session, l: LogLine, width: usize) -> Seq<Seq<(Seq<char>, TextStyle)>> {
    let pre = prefix_spans(s, l);
    let pw = spans_width(pre);
    let chunks = folded(styled_chars(body_spans(s, l)), sat_sub(width, pw) as nat);
    Seq::new(chunks.len(), |i: int|
        if i == 0 {
            pre + unit_spans(chunks[i])
        } else {
            seq![(spaces(pw as nat), TextStyle::spec_new())] + unit_spans(chunks[i])
        })
}

/// A copy of a run.
pub fn clone_span(s: &StyledSpan) -> (r: StyledSpan)
    ensures
        r.content@ == s.content@,
        r.style == s.style,
{
    StyledSpan { content: s.content.clone(), style: s.style }
}

impl Session {
    /// The prefix runs of a line and their width.
    pub fn log_prefix(&self, l: &LogLine) -> (r: (Vec<StyledSpan>, usize))
        ensures
            span_views(r.0@) == prefix_spans(*self, *l),
            r.1 == spans_width(prefix_spans(*self, *l)),
    {
        let mut spans: Vec<StyledSpan> = Vec::new();
        let mut w: usize = 0;
        match &l.ts {
            Some(t) => {
                let mut c = concat("[", t.as_str());
                push_str(&mut c, "] ");
                w = wrapping_add_usize(w, str_width(c.as_str()));
                let ghost cv = c@;
                spans.push(StyledSpan { content: c, style: TextStyle::new().fg(TermColor::DarkGray) });
                proof {
                    let v = span_views(spans@);
                    assert(v.drop_last() =~= Seq::<(Seq<char>, TextStyle)>::empty());
                    assert(spans_width(Seq::<(Seq<char>, TextStyle)>::empty()) == 0);
                    assert(v.last().0 == cv);
                    assert(spans_width(v) == w);
                }
            },
            None => {
                assert(span_views(spans@) =~= Seq::<(Seq<char>, TextStyle)>::empty());
            },
        }
        let ghost ts_part = span_views(spans@);
        assert(spans_width(ts_part) == w);
        if !self.params.no_tags {
            let (tag, color) = match l.dir {
                Dir::Rx => ("RX ", self.params.theme.rx),
                Dir::Tx => ("TX ", self.params.theme.tx),
                Dir::Sys => ("SYS", self.params.theme.sys),
                Dir::Error => ("ERR", self.params.theme.err),
            };
            let mut c = concat("[", tag);
            push_str(&mut c, "] ");
            let ghost w0 = w;
            w = wrapping_add_usize(w, str_width(c.as_str()));
            let ghost cv = c@;
            spans.push(StyledSpan { content: c, style: TextStyle::new().fg(color) });
            proof {
                let v = span_views(spans@);
                assert(v.drop_last() =~= ts_part);
                assert(v.last().0 == cv);
                assert(spans_width(ts_part) == w0);
                assert(spans_width(v) == w);
            }
        }
        proof {
            assert(span_views(spans@) =~= prefix_spans(*self, *l));
        }
        (spans, w)
    }

    /// The body runs of a line (see `body_spans`).
    pub fn body_of(&self, l: &LogLine) -> (r: Vec<StyledSpan>)
        ensures
            span_views(r@) == body_spans(*self, *l),
    {
        let base = ansi_to_spans(l.body.as_str(), TextStyle::new().fg(self.params.theme.fg));
        match &self.search.kw {
            Some(kw) => {
                let mut plain = String::new();
                let mut i: usize = 0;
                let ghost bv = span_views(base@);
                while i < base.len()
                    invariant
                        0 <= i <= base@.len(),
                        bv == span_views(base@),
                        plain@ == plain_of(bv.take(i as int)),
                    decreases base@.len() - i,
                {
                    push_str(&mut plain, base[i].content.as_str());
                    proof {
                        let t = bv.take(i + 1);
                        assert(t.drop_last() =~= bv.take(i as int));
                        assert(t.last() == bv[i as int]);
                        assert(plain_of(t) =~= plain_of(bv.take(i as int)) + bv[i as int].0) by {
                            assert(crate::wrap::styled_chars(t) == crate::wrap::styled_chars(bv.take(i as int))
                                + bv[i as int].0.map_values(|c: char| (c, bv[i as int].1)));
                        }
                    }
                    i += 1;
                }
                proof {
                    assert(bv.take(base@.len() as int) =~= bv);
                }
                let low = chars_of(lowercase(plain.as_str()).as_str());
                let k = chars_of(kw.as_str());
                if chars_contain(&low, &k) {
                    let hl = TextStyle::new().bg(self.params.theme.accent).fg(TermColor::Black);
                    highlight_keyword(base, kw.as_str(), hl)
                } else {
                    base
                }
            },
            None => base,
        }
    }

    /// The rows a line is drawn as (see `line_rows`).
    pub fn wrap_log_line(&self, l: &LogLine, width: usize) -> (r: Rows)
        ensures
            rows_view(r@) == line_rows(*self, *l, width),
    {
        let (prefix, pw) = self.log_prefix(l);
        let body = self.body_of(l);
        let body_w = if width >= pw { width - pw } else { 0 };
        let chunks = wrap_spans(&body, body_w);
        let ghost cv = folded(styled_chars(body_spans(*self, *l)), body_w as nat).map_values(
            |r: Seq<(char, TextStyle)>| unit_spans(r));
        let ghost want = line_rows(*self, *l, width);
        let indent = spaces_string(pw);
        let mut rows: Rows = Vec::new();
        let mut i: usize = 0;
        while i < chunks.len()
            invariant
                0 <= i <= chunks@.len(),
                rows_view(chunks@) == cv,
                want.len() == cv.len(),
                span_views(prefix@) == prefix_spans(*self, *l),
                indent@ == spaces(pw as nat),
                pw == spans_width(prefix_spans(*self, *l)),
                body_w == sat_sub(width, pw),
                forall|j: int| 0 <= j < cv.len() ==> #[trigger] want[j] == (if j == 0 {
                    prefix_spans(*self, *l) + cv[j]
                } else {
                    seq![(spaces(pw as nat), TextStyle::spec_new())] + cv[j]
                }),
                rows_view(rows@) == want.take(i as int),
            decreases chunks@.len() - i,
        {
            let mut row: Vec<StyledSpan> = Vec::new();
            if i == 0 {
                let mut k: usize = 0;
                while k < prefix.len()
                    invariant
                        0 <= k <= prefix@.len(),
                        span_views(row@) == span_views(prefix@).take(k as int),
                    decreases prefix@.len() - k,
                {
                    let ghost before = span_views(row@);
                    let x = clone_span(&prefix[k]);
                    assert((x.content@, x.style) == span_views(prefix@)[k as int]);
                    row.push(x);
                    assert(span_views(row@) =~= before.push(span_views(prefix@)[k as int]));
                    assert(span_views(row@) =~= span_views(prefix@).take(k + 1));
                    k += 1;
                }
                assert(span_views(prefix@).take(prefix@.len() as int) =~= span_views(prefix@));
            } else {
                row.push(StyledSpan { content: indent.clone(), style: TextStyle::new() });
                assert(span_views(row@) =~= seq![(spaces(pw as nat), TextStyle::spec_new())]);
            }
            let ghost head = span_views(row@);
            let chunk = &chunks[i];
            let mut k: usize = 0;
            while k < chunk.len()
                invariant
                    0 <= k <= chunk@.len(),
                    span_views(row@) == head + span_views(chunk@).take(k as int),
                decreases chunk@.len() - k,
            {
                let ghost before = span_views(row@);
                let x = clone_span(&chunk[k]);
                assert((x.content@, x.style) == span_views(chunk@)[k as int]);
                row.push(x);
                assert(span_views(row@) =~= before.push(span_views(chunk@)[k as int]));
                assert(span_views(row@) =~= head + span_views(chunk@).take(k + 1));
                k += 1;
            }
            proof {
                assert(span_views(chunk@).take(chunk@.len() as int) =~= span_views(chunk@));
                assert(cv[i as int] == span_views(chunks@[i as int]@));
                assert(span_views(row@) == want[i as int]);
            }
            let ghost before = rows_view(rows@);
            rows.push(row);
            proof {
                assert(rows_view(rows@) =~= before.push(want[i as int]));
                assert(want.take(i + 1) =~= want.take(i as int).push(want[i as int]));
            }
            i += 1;
        }
        proof {
            assert(want.take(chunks@.len() as int) =~= want);
        }
        rows
    }
}

} // verus!

verus! {

/// The output area after bringing the rows in step with the lines for
/// `width` columns: a new width redraws every line; otherwise the rows
/// already drawn stay and the lines without rows get theirs.
pub open spec fn synced(s0: Session, s1: Session, width: usize) -> bool {
    let n = s0.out.lines@.len();
    let r0 = s0.out.render_rows@;
    &&& s1 == (Session { out: OutputArea { render_rows: s1.out.render_rows, render_w: width, ..s0.out }, ..s0 })
    &&& s1.out.render_rows@.len() == n
    &&& forall|i: int| 0 <= i < n ==> #[trigger] rows_view(s1.out.render_rows@[i]@) == if s0.out.render_w != width || i >= r0.len() {
        line_rows(s0, s0.out.lines@[i], width)
    } else {
        rows_view(r0[i]@)
    }
}

/// All drawn rows, line after line.
pub open spec fn flat_rows(rr: Seq<Rows>) -> Seq<Seq<(Seq<char>, TextStyle)>>
    decreases rr.len(),
{
    if rr.len() == 0 { Seq::empty() } else { flat_rows(rr.drop_last()) + rows_view(rr.last()@) }
}

/// The rows shown: `vis` rows ending at the newest while following;
/// otherwise from the anchored row, kept within the output.
pub open spec fn view_range(s: Session) -> (usize, usize) {
    let total = s.total_rows();
    let vis = s.out.out_height;
    let max_start = sat_sub(total, vis);
    let start = if s.out.follow { max_start } else if s.out.view_top <= max_start { s.out.view_top } else { max_start };
    let end = if start + vis <= total { (start + vis) as usize } else { total };
    (start, end)
}

impl Session {
    /// Brings the drawn rows in step with the lines (see `synced`).
    pub fn sync_rows(&mut self, width: usize)
        requires
            old(self).wf(),
        ensures
            final(self).wf(),
            synced(*old(self), *final(self), width),
    {
        let ghost s0 = *self;
        let redraw = self.out.render_w != width;
        if redraw {
            self.out.render_w = width;
            self.out.render_rows.clear();
        }
        self.out.render_w = width;
        let ghost keep: int = if redraw { 0 } else { s0.out.render_rows@.len() as int };
        while self.out.render_rows.len() < self.out.lines.len()
            invariant
                *self == (Session { out: OutputArea { render_rows: self.out.render_rows, render_w: width, ..s0.out }, ..s0 }),
                s0.wf(),
                0 <= keep <= self.out.render_rows@.len() <= s0.out.lines@.len(),
                keep == if redraw { 0 } else { s0.out.render_rows@.len() as int },
                redraw == (s0.out.render_w != width),
                forall|i: int| 0 <= i < keep ==> #[trigger] self.out.render_rows@[i] == s0.out.render_rows@[i],
                forall|i: int| keep <= i < self.out.render_rows@.len() ==> #[trigger] rows_view(self.out.render_rows@[i]@)
                    == line_rows(s0, s0.out.lines@[i], width),
            decreases s0.out.lines@.len() - self.out.render_rows@.len(),
        {
            let k = self.out.render_rows.len();
            let r = self.wrap_log_line(&self.out.lines[k], width);
            self.out.render_rows.push_back(r);
        }
        proof {
            assert forall|i: int| 0 <= i < s0.out.lines@.len() implies #[trigger] rows_view(self.out.render_rows@[i]@) == if s0.out.render_w != width || i >= s0.out.render_rows@.len() {
                line_rows(s0, s0.out.lines@[i], width)
            } else {
                rows_view(s0.out.render_rows@[i]@)
            } by {
                if i < keep {
                    assert(self.out.render_rows@[i] == s0.out.render_rows@[i]);
                }
            }
        }
    }

    /// Sets the rows the output area has room for.
    pub fn set_out_height(&mut self, h: usize)
        ensures
            *final(self) == (Session { out: OutputArea { out_height: h, ..old(self).out }, ..*old(self) }),
    {
        self.out.out_height = h;
    }

    /// The first and the end of the rows shown (see `view_range`).
    pub fn viewport(&self) -> (r: (usize, usize))
        ensures
            r == view_range(*self),
    {
        let total = self.render_total();
        let vis = self.out.out_height;
        let max_start = if total >= vis { total - vis } else { 0 };
        let start = if self.out.follow {
            max_start
        } else if self.out.view_top <= max_start {
            self.out.view_top
        } else {
            max_start
        };
        let end = if vis <= total - start { start + vis } else { total };
        (start, end)
    }

    /// Copies of the drawn rows from `start` up to `end` (as far as there are rows).
    pub fn visible_rows(&self, start: usize, end: usize) -> (r: Vec<Vec<StyledSpan>>)
        ensures
            rows_view(r@) == shown_rows(flat_rows(self.out.render_rows@), start as int, end as int),
    {
        let ghost rr = self.out.render_rows@;
        let ghost f = flat_rows(rr);
        let n = self.out.render_rows.len();
        let mut out: Vec<Vec<StyledSpan>> = Vec::new();
        let mut idx: usize = 0;
        let mut k: usize = 0;
        proof {
            assert(rr.take(0) =~= Seq::<Rows>::empty());
            assert(rr.take(n as int) =~= rr);
            lemma_flat_prefix(rr, 0);
        }
        while k < n && idx < end
            invariant_except_break
                idx as int == flat_rows(rr.take(k as int)).len(),
            invariant
                rr == self.out.render_rows@,
                rr.take(n as int) == rr,
                f == flat_rows(rr),
                n == rr.len(),
                0 <= k <= n,
                idx <= end,
                idx <= f.len(),
                rows_view(out@) == f.subrange(if (start as int) < idx { start as int } else { idx as int }, idx as int),
            ensures
                idx <= end,
                idx <= f.len(),
                rows_view(out@) == f.subrange(if (start as int) < idx { start as int } else { idx as int }, idx as int),
                idx < end ==> idx == f.len(),
            decreases n - k,
        {
            let rows = &self.out.render_rows[k];
            let ghost base = idx as int;
            proof {
                lemma_flat_prefix(rr, k as int);
                lemma_flat_prefix(rr, k + 1);
                assert(rr.take(k + 1).drop_last() =~= rr.take(k as int));
                assert(rr.take(k + 1).last() == rr[k as int]);
            }
            let mut j: usize = 0;
            while j < rows.len() && idx < end
                invariant
                    rr == self.out.render_rows@,
                    f == flat_rows(rr),
                    0 <= k < n,
                    n == rr.len(),
                    rows == &rr[k as int],
                    0 <= j <= rows@.len(),
                    idx <= end,
                    idx as int == base + j,
                    base == flat_rows(rr.take(k as int)).len(),
                    flat_rows(rr.take(k + 1)) == flat_rows(rr.take(k as int)) + rows_view(rows@),
                    f.take(flat_rows(rr.take(k + 1)).len() as int) == flat_rows(rr.take(k + 1)),
                    flat_rows(rr.take(k + 1)).len() <= f.len(),
                    rows_view(out@) == f.subrange(if (start as int) < idx { start as int } else { idx as int }, idx as int),
                decreases rows@.len() - j,
            {
                proof {
                    assert(f[idx as int] == rows_view(rows@)[j as int]) by {
                        assert(f.take(flat_rows(rr.take(k + 1)).len() as int)[idx as int] == flat_rows(rr.take(k + 1))[idx as int]);
                    }
                }
                if idx >= start {
                    let ghost before = rows_view(out@);
                    out.push(clone_row(&rows[j]));
                    proof {
                        assert(rows_view(out@) =~= before.push(rows_view(rows@)[j as int]));
                        assert(f.subrange(start as int, idx + 1) =~= f.subrange(start as int, idx as int).push(f[idx as int]));
                    }
                }
                idx += 1;
                j += 1;
            }
            if j < rows.len() {
                proof {
                    assert(idx == end);
                }
                break;
            }
            k += 1;
        }
        out
    }
}

/// The rows from `start` up to `end`, as far as there are any.
pub open spec fn shown_rows(f: Seq<Seq<(Seq<char>, TextStyle)>>, start: int, end: int) -> Seq<Seq<(Seq<char>, TextStyle)>> {
    let lim = if end <= f.len() { end } else { f.len() as int };
    if start >= lim { Seq::empty() } else { f.subrange(start, lim) }
}

/// A copy of a drawn row.
pub fn clone_row(r: &Vec<StyledSpan>) -> (c: Vec<StyledSpan>)
    ensures
        span_views(c@) == span_views(r@),
{
    let mut c: Vec<StyledSpan> = Vec::new();
    let mut i: usize = 0;
    while i < r.len()
        invariant
            0 <= i <= r@.len(),
            span_views(c@) == span_views(r@).take(i as int),
        decreases r@.len() - i,
    {
        let ghost before = span_views(c@);
        let x = clone_span(&r[i]);
        c.push(x);
        assert(span_views(c@) =~= before.push(span_views(r@)[i as int]));
        assert(span_views(r@).take(i + 1) =~= span_views(r@).take(i as int).push(span_views(r@)[i as int]));
        i += 1;
    }
    assert(span_views(r@).take(r@.len() as int) =~= span_views(r@));
    c
}

proof fn lemma_flat_concat(a: Seq<Rows>, b: Seq<Rows>)
    ensures
        flat_rows(a + b) == flat_rows(a) + flat_rows(b),
    decreases b.len(),
{
    if b.len() == 0 {
        assert(a + b =~= a);
        assert(flat_rows(a) + flat_rows(b) =~= flat_rows(a));
    } else {
        assert((a + b).drop_last() =~= a + b.drop_last());
        assert((a + b).last() == b.last());
        lemma_flat_concat(a, b.drop_last());
        assert(flat_rows(a + b) =~= flat_rows(a) + flat_rows(b));
    }
}

/// The rows of the first `k` lines begin the rows of all lines.
proof fn lemma_flat_prefix(rr: Seq<Rows>, k: int)
    requires
        0 <= k <= rr.len(),
    ensures
        flat_rows(rr).take(flat_rows(rr.take(k)).len() as int) == flat_rows(rr.take(k)),
        flat_rows(rr.take(k)).len() <= flat_rows(rr).len(),
{
    assert(rr =~= rr.take(k) + rr.skip(k));
    lemma_flat_concat(rr.take(k), rr.skip(k));
    assert(flat_rows(rr).take(flat_rows(rr.take(k)).len() as int) =~= flat_rows(rr.take(k)));
}

} // verus!

verus! {

/// The parity letter shown in the status line.
pub open spec fn parity_letter(p: Seq<char>) -> Seq<char> {
    if p == "odd"@ {
        "O"@
    } else if p == "even"@ {
        "E"@
    } else if p == "mark"@ {
        "M"@
    } else if p == "space"@ {
        "S"@
    } else {
        "N"@
    }
}

/// The status line: connection, line parameters, encoding, send mode and
/// byte counts.
pub open spec fn status_line(s: Session) -> Seq<char> {
    " "@ + (if s.link.connected { "●"@ } else { "○"@ }) + " "@
        + (match s.link.port_name { Some(p) => p@, None => "--"@ })
        + " │ "@ + dec(s.params.baud as nat) + " "@ + dec(s.params.databits as nat) + "-"@
        + parity_letter(s.params.parity@) + "-"@ + s.params.stopbits@
        + " │ 编码:"@ + s.params.enc.spec_label() + " │ "@ + mode_label_of(s.params.mode)
        + " │ RX "@ + dec(s.link.rx_bytes as nat) + " │ TX "@ + dec(s.link.tx_bytes as nat) + " │ :help"@
}

/// The title of the input box: the send mode and the encoding.
pub open spec fn input_title_of(s: Session) -> Seq<char> {
    "> 输入(:命令)  ["@ + (if s.params.mode == SendMode::Line { "行发送"@ } else { "即时"@ }) + "·"@
        + s.params.enc.spec_label() + "]"@
}

impl Session {
    /// The status line (see `status_line`).
    pub fn status_text(&self) -> (r: String)
        ensures
            r@ == status_line(*self),
    {
        let mut m = concat(" ", if self.link.connected { "●" } else { "○" });
        push_str(&mut m, " ");
        match &self.link.port_name {
            Some(p) => push_str(&mut m, p.as_str()),
            None => push_str(&mut m, "--"),
        }
        push_str(&mut m, " │ ");
        push_str(&mut m, dec_string(self.params.baud as u64).as_str());
        push_str(&mut m, " ");
        push_str(&mut m, dec_string(self.params.databits as u64).as_str());
        push_str(&mut m, "-");
        let p = self.params.parity.as_str();
        let letter = if str_eq(p, "odd") {
            "O"
        } else if str_eq(p, "even") {
            "E"
        } else if str_eq(p, "mark") {
            "M"
        } else if str_eq(p, "space") {
            "S"
        } else {
            "N"
        };
        push_str(&mut m, letter);
        push_str(&mut m, "-");
        push_str(&mut m, self.params.stopbits.as_str());
        push_str(&mut m, " │ 编码:");
        push_str(&mut m, self.params.enc.label());
        push_str(&mut m, " │ ");
        push_str(&mut m, self.mode_label());
        push_str(&mut m, " │ RX ");
        push_str(&mut m, dec_string(self.link.rx_bytes).as_str());
        push_str(&mut m, " │ TX ");
        push_str(&mut m, dec_string(self.link.tx_bytes).as_str());
        push_str(&mut m, " │ :help");
        m
    }

    /// The title of the input box (see `input_title_of`).
    pub fn input_title(&self) -> (r: String)
        ensures
            r@ == input_title_of(*self),
    {
        let mut m = concat("> 输入(:命令)  [", if self.params.mode == SendMode::Line { "行发送" } else { "即时" });
        push_str(&mut m, "·");
        push_str(&mut m, self.params.enc.label());
        push_str(&mut m, "]");
        m
    }
}

/// A row of the settings panel as drawn: whether it is selected, its
/// marker and its text padded to the panel's width.
pub struct SettingsRow {
    pub selected: bool,
    pub arrow: String,
    pub text: String,
}

/// The text of a settings row: the label padded to six characters, two
/// spaces and the value, then spaces up to `width` display columns (the
/// marker before it takes two).
pub open spec fn settings_row_text(label: Seq<char>, value: Seq<char>, width: usize) -> Seq<char> {
    let lbl = pad_right(label, 6);
    let text_w = wsum(wsum(wsum(2, text_cols(lbl)), 2), text_cols(value));
    lbl + "  "@ + value + spaces(sat_sub(width, text_w) as nat)
}

/// What the panel shows for the port field.
pub open spec fn port_display(s: Session) -> Seq<char> {
    let n = s.panels.port_candidates@.len();
    if s.panels.port_idx < n && n > 0 {
        s.panels.port_candidates@[s.panels.port_idx as int].name@ + "（共"@ + dec(n) + "）"@
    } else {
        "无可用端口"@
    }
}

/// The labels and values of the settings fields, in order.
pub open spec fn settings_fields(s: Session) -> Seq<(Seq<char>, Seq<char>)> {
    seq![
        ("端口"@, port_display(s)),
        ("波特率"@, dec(s.params.baud as nat)),
        ("数据位"@, dec(s.params.databits as nat)),
        ("停止位"@, s.params.stopbits@),
        ("校验位"@, s.params.parity@),
        ("流控"@, s.params.flow@),
        ("编码"@, s.params.enc.spec_label()),
        ("发送模式"@, mode_label_of(s.params.mode)),
    ]
}

/// A settings row (see `settings_row_text`).
pub fn settings_row(idx: usize, sel: usize, label: &str, value: &str, width: usize) -> (r: SettingsRow)
    ensures
        r.selected == (idx == sel),
        r.arrow@ == if idx == sel { "▸ "@ } else { "  "@ },
        r.text@ == settings_row_text(label@, value@, width),
{
    let lbl = pad_right_string(label, 6);
    let text_w = wrapping_add_usize(wrapping_add_usize(wrapping_add_usize(2, str_width(lbl.as_str())), 2), str_width(value));
    let pad = if width >= text_w { width - text_w } else { 0 };
    let mut text = concat(lbl.as_str(), "  ");
    push_str(&mut text, value);
    push_str(&mut text, spaces_string(pad).as_str());
    SettingsRow { selected: idx == sel, arrow: owned(if idx == sel { "▸ " } else { "  " }), text }
}

impl Session {
    /// The rows of the settings panel's fields for `width` columns.
    pub fn settings_rows(&self, width: usize) -> (r: Vec<SettingsRow>)
        ensures
            r@.len() == 8,
            forall|i: int| 0 <= i < 8 ==> {
                &&& (#[trigger] r@[i]).selected == (i == self.panels.settings_sel)
                &&& r@[i].arrow@ == if i == self.panels.settings_sel { "▸ "@ } else { "  "@ }
                &&& r@[i].text@ == settings_row_text(settings_fields(*self)[i].0, settings_fields(*self)[i].1, width)
            },
    {
        let n = self.panels.port_candidates.len();
        let idx = self.panels.port_idx;
        let port = if idx < n && n > 0 {
            let mut p = concat(self.panels.port_candidates[idx].name.as_str(), "（共");
            push_str(&mut p, dec_string(n as u64).as_str());
            push_str(&mut p, "）");
            p
        } else {
            owned("无可用端口")
        };
        let sel = self.panels.settings_sel;
        let baud = dec_string(self.params.baud as u64);
        let db = dec_string(self.params.databits as u64);
        let mut r: Vec<SettingsRow> = Vec::new();
        r.push(settings_row(0, sel, "端口", port.as_str(), width));
        r.push(settings_row(1, sel, "波特率", baud.as_str(), width));
        r.push(settings_row(2, sel, "数据位", db.as_str(), width));
        r.push(settings_row(3, sel, "停止位", self.params.stopbits.as_str(), width));
        r.push(settings_row(4, sel, "校验位", self.params.parity.as_str(), width));
        r.push(settings_row(5, sel, "流控", self.params.flow.as_str(), width));
        r.push(settings_row(6, sel, "编码", self.params.enc.label(), width));
        r.push(settings_row(7, sel, "发送模式", self.mode_label(), width));
        r
    }
}

/// `v` padded with spaces to four characters (as `{:04}` formats text).
pub open spec fn pad4(v: Seq<char>) -> Seq<char> {
    pad_right(v, 4)
}

/// The device facts shown for a port: its type, then chip, manufacturer,
/// product, VID/PID (when both are known) and serial number when known.
pub open spec fn device_facts(d: PortDevice) -> Seq<(Seq<char>, Seq<char>)> {
    seq![("类型: "@, d.kind@)]
        + (match d.chip { Some(c) => seq![("芯片: "@, c@)], None => Seq::empty() })
        + (match d.manufacturer { Some(m) => seq![("厂商: "@, m@)], None => Seq::empty() })
        + (match d.product { Some(p) => seq![("设备: "@, p@)], None => Seq::empty() })
        + (match (d.vid, d.pid) { (Some(v), Some(p)) => seq![("VID/PID: "@, pad4(v@) + " : "@ + pad4(p@))], _ => Seq::empty() })
        + (match d.serial { Some(s) => seq![("序列号: "@, s@)], None => Seq::empty() })
}

/// The views of label and value pairs.
pub open spec fn pair_views(v: Seq<(&'static str, String)>) -> Seq<(Seq<char>, Seq<char>)> {
    v.map_values(|p: (&'static str, String)| (p.0@, p.1@))
}

use crate::port::PortDevice;

fn push_fact(v: &mut Vec<(&'static str, String)>, label: &'static str, value: String)
    ensures
        pair_views(final(v)@) == pair_views(old(v)@).push((label@, value@)),
{
    let ghost before = pair_views(v@);
    v.push((label, value));
    assert(pair_views(v@) =~= before.push((label@, value@)));
}

impl Session {
    /// The facts about the selected port, or nothing when no port is
    /// selected (see `device_facts`).
    pub fn device_info(&self) -> (r: Option<Vec<(&'static str, String)>>)
        ensures
            self.panels.port_idx < self.panels.port_candidates@.len() ==> (r matches Some(v)
                && pair_views(v@) == device_facts(self.panels.port_candidates@[self.panels.port_idx as int])),
            self.panels.port_idx >= self.panels.port_candidates@.len() ==> r is None,
    {
        if self.panels.port_idx >= self.panels.port_candidates.len() {
            return None;
        }
        let d = &self.panels.port_candidates[self.panels.port_idx];
        let mut v: Vec<(&'static str, String)> = Vec::new();
        push_fact(&mut v, "类型: ", owned(d.kind));
        let ghost a = pair_views(v@);
        match &d.chip {
            Some(c) => push_fact(&mut v, "芯片: ", c.clone()),
            None => {},
        }
        let ghost b = pair_views(v@);
        match &d.manufacturer {
            Some(m) => push_fact(&mut v, "厂商: ", m.clone()),
            None => {},
        }
        let ghost c2 = pair_views(v@);
        match &d.product {
            Some(p) => push_fact(&mut v, "设备: ", p.clone()),
            None => {},
        }
        let ghost d2 = pair_views(v@);
        match (&d.vid, &d.pid) {
            (Some(vid), Some(pid)) => {
                let mut t = pad_right_string(vid.as_str(), 4);
                push_str(&mut t, " : ");
                push_str(&mut t, pad_right_string(pid.as_str(), 4).as_str());
                push_fact(&mut v, "VID/PID: ", t);
            },
            _ => {},
        }
        let ghost e2 = pair_views(v@);
        match &d.serial {
            Some(s) => push_fact(&mut v, "序列号: ", s.clone()),
            None => {},
        }
        proof {
            let dd = *d;
            assert(a =~= seq![("类型: "@, dd.kind@)]);
            assert(b =~= a + (match dd.chip { Some(c) => seq![("芯片: "@, c@)], None => Seq::empty() }));
            assert(c2 =~= b + (match dd.manufacturer { Some(m) => seq![("厂商: "@, m@)], None => Seq::empty() }));
            assert(d2 =~= c2 + (match dd.product { Some(p) => seq![("设备: "@, p@)], None => Seq::empty() }));
            assert(e2 =~= d2 + (match (dd.vid, dd.pid) { (Some(x), Some(y)) => seq![("VID/PID: "@, pad4(x@) + " : "@ + pad4(y@))], _ => Seq::empty() }));
            assert(pair_views(v@) =~= e2 + (match dd.serial { Some(s) => seq![("序列号: "@, s@)], None => Seq::empty() }));
        }
        Some(v)
    }
}

} // verus!

verus! {

/// The groups of the help panel and their commands.
pub open spec fn help_groups() -> Seq<(&'static str, Seq<&'static str>)> {
    seq![
        ("连接管理", seq![":port", ":connect", ":close", ":disconnect", ":list", ":settings", ":config", ":status",
            ":baud", ":databits", ":stopbits", ":parity", ":flow"]),
        ("显示控制", seq![":tail", ":top", ":live", ":follow", ":scroll", ":up", ":down", ":clear", ":search", ":find",
            ":hex", ":text", ":ts", ":encoding", ":mode", ":theme"]),
        ("发送", seq![":send"]),
        ("日志", seq![":log", ":export", ":replay"]),
        ("其他", seq![":recent", ":reconnect", ":help", ":quit", ":exit"]),
    ]
}

/// The groups of the help panel and their commands.
pub fn help_group_table() -> (t: Vec<(&'static str, Vec<&'static str>)>)
    ensures
        t@.len() == help_groups().len(),
        forall|i: int| 0 <= i < t@.len() ==> (#[trigger] t@[i]).0 == help_groups()[i].0 && t@[i].1@ == help_groups()[i].1,
{
    let t = vec![
        ("连接管理", vec![":port", ":connect", ":close", ":disconnect", ":list", ":settings", ":config", ":status",
            ":baud", ":databits", ":stopbits", ":parity", ":flow"]),
        ("显示控制", vec![":tail", ":top", ":live", ":follow", ":scroll", ":up", ":down", ":clear", ":search", ":find",
            ":hex", ":text", ":ts", ":encoding", ":mode", ":theme"]),
        ("发送", vec![":send"]),
        ("日志", vec![":log", ":export", ":replay"]),
        ("其他", vec![":recent", ":reconnect", ":help", ":quit", ":exit"]),
    ];
    assert(t@[0].1@ =~= help_groups()[0].1);
    assert(t@[1].1@ =~= help_groups()[1].1);
    assert(t@[2].1@ =~= help_groups()[2].1);
    assert(t@[3].1@ =~= help_groups()[3].1);
    assert(t@[4].1@ =~= help_groups()[4].1);
    t
}

/// The description of a command in the command table (the first entry
/// with that name), or nothing.
pub open spec fn description_in(t: Seq<(&'static str, &'static str)>, c: Seq<char>) -> Seq<char>
    decreases t.len(),
{
    if t.len() == 0 {
        Seq::empty()
    } else if t[0].0@ == c {
        t[0].1@
    } else {
        description_in(t.drop_first(), c)
    }
}

/// The description of a command.
pub fn description_of(c: &str) -> (d: &'static str)
    ensures
        d@ == description_in(crate::complete::commands(), c@),
{
    let t = crate::complete::command_table();
    let mut i: usize = 0;
    assert(t@.skip(0) =~= t@);
    while i < t.len()
        invariant
            0 <= i <= t@.len(),
            t@ == crate::complete::commands(),
            description_in(t@, c@) == description_in(t@.skip(i as int), c@),
        decreases t@.len() - i,
    {
        assert(t@.skip(i as int).drop_first() =~= t@.skip(i + 1));
        assert(t@.skip(i as int)[0] == t@[i as int]);
        if str_eq(t[i].0, c) {
            return t[i].1;
        }
        i += 1;
    }
    assert(t@.skip(i as int).len() == 0);
    proof {
        reveal_strlit("");
    }
    ""
}

/// A line of the help panel.
pub enum HelpLine {
    /// A group heading.
    Group(String),
    /// A command (padded) and its description.
    Command(String, String),
    /// The gap after a group.
    Blank,
    /// The closing hint.
    Hint(String),
}

/// The view of a help line.
pub open spec fn help_line_view(l: HelpLine) -> (int, Seq<char>, Seq<char>) {
    match l {
        HelpLine::Group(g) => (0, g@, Seq::empty()),
        HelpLine::Command(c, d) => (1, c@, d@),
        HelpLine::Blank => (2, Seq::empty(), Seq::empty()),
        HelpLine::Hint(h) => (3, h@, Seq::empty()),
    }
}

/// The lines of one help group.
pub open spec fn group_lines(g: (&'static str, Seq<&'static str>)) -> Seq<(int, Seq<char>, Seq<char>)> {
    seq![(0int, "▍"@ + g.0@, Seq::<char>::empty())]
        + g.1.map_values(|c: &'static str| (1int, "  "@ + pad_right(c@, 13), description_in(crate::complete::commands(), c@)))
        + seq![(2int, Seq::<char>::empty(), Seq::<char>::empty())]
}

/// The lines of the first `n` help groups.
pub open spec fn groups_lines(gs: Seq<(&'static str, Seq<&'static str>)>, n: int) -> Seq<(int, Seq<char>, Seq<char>)>
    decreases n,
{
    if n <= 0 { Seq::empty() } else { groups_lines(gs, n - 1) + group_lines(gs[n - 1]) }
}

/// The hint closing the help panel.
pub open spec fn help_hint() -> Seq<char> {
    "  普通输入按 Enter 直接发送；Tab 补全；↑↓选择候选；滚轮/PageUp 浏览历史；Shift+拖选复制文本"@
}

/// The lines of the help panel: each group's heading, its commands with
/// their descriptions and a gap, then the hint.
pub open spec fn help_lines_view() -> Seq<(int, Seq<char>, Seq<char>)> {
    groups_lines(help_groups(), help_groups().len() as int).push((3int, help_hint(), Seq::<char>::empty()))
}

/// The lines of the help panel (see `help_lines_view`).
pub fn help_lines() -> (r: Vec<HelpLine>)
    ensures
        r@.map_values(|l: HelpLine| help_line_view(l)) == help_lines_view(),
{
    let gs = help_group_table();
    let mut r: Vec<HelpLine> = Vec::new();
    let mut i: usize = 0;
    while i < gs.len()
        invariant
            0 <= i <= gs@.len(),
            gs@.len() == help_groups().len(),
            forall|k: int| 0 <= k < gs@.len() ==> (#[trigger] gs@[k]).0 == help_groups()[k].0 && gs@[k].1@ == help_groups()[k].1,
            r@.map_values(|l: HelpLine| help_line_view(l)) == groups_lines(help_groups(), i as int),
        decreases gs@.len() - i,
    {
        let ghost before = r@.map_values(|l: HelpLine| help_line_view(l));
        let ghost g = help_groups()[i as int];
        r.push(HelpLine::Group(concat("▍", gs[i].0)));
        let cmds = &gs[i].1;
        let mut j: usize = 0;
        while j < cmds.len()
            invariant
                0 <= j <= cmds@.len(),
                cmds@ == g.1,
                r@.map_values(|l: HelpLine| help_line_view(l)) == before + seq![(0int, "▍"@ + g.0@, Seq::<char>::empty())]
                    + g.1.take(j as int).map_values(|c: &'static str| (1int, "  "@ + pad_right(c@, 13), description_in(crate::complete::commands(), c@))),
            decreases cmds@.len() - j,
        {
            let ghost b2 = r@.map_values(|l: HelpLine| help_line_view(l));
            let c = cmds[j];
            let name = concat("  ", pad_right_string(c, 13).as_str());
            let desc = owned(description_of(c));
            r.push(HelpLine::Command(name, desc));
            proof {
                assert(r@.map_values(|l: HelpLine| help_line_view(l)) =~= b2.push((1int, "  "@ + pad_right(c@, 13), description_in(crate::complete::commands(), c@))));
                assert(g.1.take(j + 1) =~= g.1.take(j as int).push(c));
            }
            j += 1;
        }
        let ghost b3 = r@.map_values(|l: HelpLine| help_line_view(l));
        r.push(HelpLine::Blank);
        proof {
            assert(g.1.take(cmds@.len() as int) =~= g.1);
            assert(r@.map_values(|l: HelpLine| help_line_view(l)) =~= b3.push((2int, Seq::<char>::empty(), Seq::<char>::empty())));
            assert(r@.map_values(|l: HelpLine| help_line_view(l)) =~= groups_lines(help_groups(), i + 1));
        }
        i += 1;
    }
    let ghost b4 = r@.map_values(|l: HelpLine| help_line_view(l));
    r.push(HelpLine::Hint(owned("  普通输入按 Enter 直接发送；Tab 补全；↑↓选择候选；滚轮/PageUp 浏览历史；Shift+拖选复制文本")));
    assert(r@.map_values(|l: HelpLine| help_line_view(l)) =~= b4.push((3int, help_hint(), Seq::<char>::empty())));
    r
}

impl Session {
    /// Keeps the help panel's scroll within its `total` lines when only
    /// `inner_h` fit.
    pub fn clamp_help_scroll(&mut self, total: usize, inner_h: usize)
        ensures
            *final(self) == (Session {
                panels: Panels {
                    help_scroll: if total > inner_h && old(self).panels.help_scroll > total - inner_h {
                        (total - inner_h) as usize
                    } else {
                        old(self).panels.help_scroll
                    },
                    ..old(self).panels
                },
                ..*old(self)
            }),
    {
        if total > inner_h && self.panels.help_scroll > total - inner_h {
            self.panels.help_scroll = total - inner_h;
        }
    }
}

use super::Panels;

/// A completion menu line: whether it is highlighted, and its text.
pub open spec fn menu_line(c: (Seq<char>, Seq<char>), selected: bool) -> Seq<char> {
    (if selected { "▸ "@ } else { "  "@ }) + pad_right(c.0, 13) + " "@ + c.1
}

/// The first candidate shown when at most six fit: enough to keep the
/// highlighted one in view.
pub open spec fn menu_start(n: nat, idx: usize) -> nat {
    let vis = if n < 6 { n } else { 6 };
    let sel = if idx as nat + 1 <= n { idx as nat } else { if n > 0 { (n - 1) as nat } else { 0 } };
    if sel >= vis { (sel + 1 - vis) as nat } else { 0 }
}

impl Session {
    /// The completion menu for `cands`: at most six lines from the first
    /// shown, the highlighted one marked.
    pub fn completion_menu(&self, cands: &Vec<(String, String)>) -> (r: Vec<(bool, String)>)
        ensures
            ({
                let n = cands@.len();
                let vis = if n < 6 { n } else { 6 };
                let st = menu_start(n, self.input.completion_idx);
                let m = if st + vis <= n { vis } else if st <= n { (n - st) as nat } else { 0 };
                &&& r@.len() == m
                &&& forall|i: int| 0 <= i < m ==> {
                    &&& (#[trigger] r@[i]).0 == (st + i == self.input.completion_idx)
                    &&& r@[i].1@ == menu_line((cands@[st + i].0@, cands@[st + i].1@), st + i == self.input.completion_idx)
                }
            }),
    {
        let n = cands.len();
        if n == 0 {
            return Vec::new();
        }
        let vis = if n < 6 { n } else { 6 };
        let idx = self.input.completion_idx;
        let sel = if idx < n { idx } else if n > 0 { n - 1 } else { 0 };
        let st = if sel >= vis { sel + 1 - vis } else { 0 };
        let mut r: Vec<(bool, String)> = Vec::new();
        let mut i: usize = 0;
        while i < vis && st + i < n
            invariant
                vis <= 6,
                vis <= n,
                n == cands@.len(),
                st as nat == menu_start(n as nat, idx),
                idx == self.input.completion_idx,
                st <= n,
                0 <= i <= vis,
                r@.len() == i,
                forall|k: int| 0 <= k < i ==> {
                    &&& (#[trigger] r@[k]).0 == (st + k == idx)
                    &&& r@[k].1@ == menu_line((cands@[st + k].0@, cands@[st + k].1@), st + k == idx)
                },
            decreases vis - i,
        {
            let k = st + i;
            let selected = k == idx;
            let mut t = owned(if selected { "▸ " } else { "  " });
            push_str(&mut t, pad_right_string(cands[k].0.as_str(), 13).as_str());
            push_str(&mut t, " ");
            push_str(&mut t, cands[k].1.as_str());
            r.push((selected, t));
            i += 1;
        }
        r
    }
}

} // verus!

verus! {

/// The rows above output line `n` are the rows drawn for the lines before it.
pub proof fn lemma_rows_before_drawn(rr: Seq<Rows>, n: int)
    requires
        0 <= n <= rr.len(),
    ensures
        rows_before(rr, n) == flat_rows(rr.take(n)).len(),
    decreases n,
{
    if n == 0 {
        assert(rr.take(0) =~= Seq::<Rows>::empty());
    } else {
        lemma_rows_before_drawn(rr, n - 1);
        assert(rr.take(n).drop_last() =~= rr.take(n - 1));
        assert(rr.take(n).last() == rr[n - 1]);
    }
}

/// The anchor of an output line, where a search or a jump puts the top of
/// the view, is the line's own first row: the rows above it are exactly the
/// rows drawn for the lines before it, and the row drawn there is the first
/// row of the line.
pub proof fn law_line_anchor_is_its_first_row(rr: Seq<Rows>, i: int)
    requires
        0 <= i < rr.len(),
        rr[i]@.len() > 0,
    ensures
        rows_before(rr, i) == flat_rows(rr.take(i)).len(),
        rows_before(rr, i) < flat_rows(rr).len(),
        flat_rows(rr)[rows_before(rr, i) as int] == span_views(rr[i]@[0]@),
{
    lemma_rows_before_drawn(rr, i);
    let a = rr.take(i);
    let b = rr.skip(i);
    assert(rr =~= a + b);
    lemma_flat_concat(a, b);
    let c = b.drop_first();
    assert(b =~= seq![rr[i]] + c);
    lemma_flat_concat(seq![rr[i]], c);
    let one: Seq<Rows> = seq![rr[i]];
    assert(one.drop_last() =~= Seq::<Rows>::empty());
    assert(one.last() == rr[i]);
    assert(flat_rows(Seq::<Rows>::empty()) =~= Seq::empty());
    assert(flat_rows(one) == flat_rows(one.drop_last()) + rows_view(one.last()@));
    assert(flat_rows(one) =~= rows_view(rr[i]@));
    let k = flat_rows(a).len() as int;
    assert(flat_rows(rr)[k] == flat_rows(b)[0]);
    assert(flat_rows(b)[0] == rows_view(rr[i]@)[0]);
}

} // verus!
