//! ANSI escape sequences in device output: SGR colour codes become styles,
//! every other control sequence (cursor moves and the like) is stripped, so
//! escape codes never leak into the visible text.
use vstd::prelude::*;
use crate::style::{StyledSpan, TermColor, TextStyle, BOLD, REVERSED, span_views};
use crate::text::{chars_of, push_char};

verus! {

broadcast use vstd::string::group_string_axioms;

/// The escape character that starts a control sequence.
pub open spec fn is_esc(c: char) -> bool {
    c == '\x1b'
}

/// A character that ends a CSI sequence (`@` through `~`).
pub open spec fn is_csi_final(c: char) -> bool {
    0x40 <= (c as u32) <= 0x7e
}

/// Index of the first CSI final character at or after `j`, or `t.len()`.
pub open spec fn csi_end(t: Seq<char>, j: int) -> int
    decreases t.len() - j,
{
    if j >= t.len() {
        t.len() as int
    } else if is_csi_final(t[j]) {
        j
    } else {
        csi_end(t, j + 1)
    }
}

/// A CSI sequence ends at or after where the search starts, within the text.
pub proof fn lemma_csi_end_bounds(t: Seq<char>, j: int)
    requires
        0 <= j <= t.len(),
    ensures
        j <= csi_end(t, j) <= t.len(),
        csi_end(t, j) < t.len() ==> is_csi_final(t[csi_end(t, j)]),
    decreases t.len() - j,
{
    if j < t.len() && !is_csi_final(t[j]) {
        lemma_csi_end_bounds(t, j + 1);
    }
}

/// A decimal digit character.
pub open spec fn is_digit(c: char) -> bool {
    '0' <= c <= '9'
}

/// Value of a string of decimal digits.
pub open spec fn dec_value(d: Seq<char>) -> nat
    decreases d.len(),
{
    if d.len() == 0 {
        0
    } else {
        dec_value(d.drop_last()) * 10 + ((d.last() as u32) - ('0' as u32)) as nat
    }
}

/// The digits of a number with an optional leading `+`.
pub open spec fn unsigned_digits(s: Seq<char>) -> Seq<char> {
    if s.len() > 0 && s[0] == '+' {
        s.drop_first()
    } else {
        s
    }
}

/// What std's `u16::from_str` accepts: an optional `+`, then one or more
/// decimal digits whose value fits in 16 bits.
pub open spec fn parse_u16(s: Seq<char>) -> Option<u16> {
    let d = unsigned_digits(s);
    if d.len() == 0 || exists|k: int| 0 <= k < d.len() && !is_digit(d[k]) {
        None
    } else if dec_value(d) > 0xffff {
        None
    } else {
        Some(dec_value(d) as u16)
    }
}

/// Colour of the standard SGR colour codes (30-37; black for any other).
pub open spec fn sgr_color(n: u16) -> TermColor {
    if n == 31 {
        TermColor::Red
    } else if n == 32 {
        TermColor::Green
    } else if n == 33 {
        TermColor::Yellow
    } else if n == 34 {
        TermColor::Blue
    } else if n == 35 {
        TermColor::Magenta
    } else if n == 36 {
        TermColor::Cyan
    } else if n == 37 {
        TermColor::White
    } else {
        TermColor::Black
    }
}

/// Colour of the bright SGR colour codes (90-97; dark grey for any other).
pub open spec fn sgr_bright_color(n: u16) -> TermColor {
    if n == 91 {
        TermColor::LightRed
    } else if n == 92 {
        TermColor::LightGreen
    } else if n == 93 {
        TermColor::LightYellow
    } else if n == 94 {
        TermColor::LightBlue
    } else if n == 95 {
        TermColor::LightMagenta
    } else if n == 96 {
        TermColor::LightCyan
    } else if n == 97 {
        TermColor::Gray
    } else {
        TermColor::DarkGray
    }
}

/// The effect of one SGR code on a style: 0 resets it to the default, 39
/// restores only the default foreground, the others set or clear one part.
pub open spec fn sgr_code(style: TextStyle, n: u16, default: TextStyle) -> TextStyle {
    if n == 0 {
        default
    } else if n == 39 {
        TextStyle { fg: default.fg, ..style }
    } else if n == 1 {
        style.with_modifier(BOLD)
    } else if n == 22 {
        style.without_modifier(BOLD)
    } else if n == 7 {
        style.with_modifier(REVERSED)
    } else if n == 27 {
        style.without_modifier(REVERSED)
    } else if 30 <= n <= 37 {
        style.with_fg(sgr_color(n))
    } else if 90 <= n <= 97 {
        style.with_fg(sgr_bright_color(n))
    } else if 40 <= n <= 47 {
        style.with_bg(sgr_color((n - 10) as u16))
    } else if 100 <= n <= 107 {
        style.with_bg(sgr_bright_color((n - 10) as u16))
    } else {
        style
    }
}

/// Cutting `t` at `;`: the pieces closed so far and the open piece.
pub open spec fn split_scan(t: Seq<char>) -> (Seq<Seq<char>>, Seq<char>)
    decreases t.len(),
{
    if t.len() == 0 {
        (Seq::empty(), Seq::empty())
    } else {
        let p = split_scan(t.drop_last());
        if t.last() == ';' {
            (p.0.push(p.1), Seq::empty())
        } else {
            (p.0, p.1.push(t.last()))
        }
    }
}

/// The `;`-separated pieces of `t` (std's `str::split(';')`).
pub open spec fn split_semicolons(t: Seq<char>) -> Seq<Seq<char>> {
    split_scan(t).0.push(split_scan(t).1)
}

/// Applying the SGR parameters `pieces` in order; pieces that are not
/// numbers are skipped.
pub open spec fn sgr_pieces(style: TextStyle, pieces: Seq<Seq<char>>, default: TextStyle) -> TextStyle
    decreases pieces.len(),
{
    if pieces.len() == 0 {
        style
    } else {
        let s = sgr_pieces(style, pieces.drop_last(), default);
        match parse_u16(pieces.last()) {
            Some(n) => sgr_code(s, n, default),
            None => s,
        }
    }
}

/// The style after an SGR sequence with parameter text `params`; an empty
/// parameter list resets to the default.
pub open spec fn sgr_apply(style: TextStyle, params: Seq<char>, default: TextStyle) -> TextStyle {
    if params.len() == 0 {
        default
    } else {
        sgr_pieces(style, split_semicolons(params), default)
    }
}

/// The run collected so far as a span list: nothing when it is empty.
pub open spec fn flush(buf: Seq<char>, style: TextStyle) -> Seq<(Seq<char>, TextStyle)> {
    if buf.len() == 0 {
        Seq::empty()
    } else {
        seq![(buf, style)]
    }
}

/// Spans for `t` from position `i` on, with the plain text `buf` collected
/// in the current `style`: plain characters extend the run; an escape ends
/// it; `ESC [ params final` is a CSI sequence (applied when the final is `m`,
/// dropped otherwise); an unterminated CSI drops the rest of the text; a lone
/// escape is dropped.
pub open spec fn ansi_run(t: Seq<char>, i: int, buf: Seq<char>, style: TextStyle, default: TextStyle) -> Seq<(Seq<char>, TextStyle)>
    decreases t.len() - i,
{
    if i < 0 || i >= t.len() {
        flush(buf, style)
    } else if is_esc(t[i]) {
        if i + 1 < t.len() && t[i + 1] == '[' {
            let j = csi_end(t, i + 2);
            if j < t.len() {
                proof {
                    lemma_csi_end_bounds(t, i + 2);
                }
                let next = if t[j] == 'm' { sgr_apply(style, t.subrange(i + 2, j), default) } else { style };
                flush(buf, style) + ansi_run(t, j + 1, Seq::empty(), next, default)
            } else {
                flush(buf, style)
            }
        } else {
            flush(buf, style) + ansi_run(t, i + 1, Seq::empty(), style, default)
        }
    } else {
        ansi_run(t, i + 1, buf.push(t[i]), style, default)
    }
}

/// The styled spans of `t`.
pub open spec fn ansi_spans(t: Seq<char>, default: TextStyle) -> Seq<(Seq<char>, TextStyle)> {
    ansi_run(t, 0, Seq::empty(), default, default)
}

fn sgr_fg(n: u16) -> (c: TermColor)
    ensures
        c == sgr_color(n),
{
    if n == 31 {
        TermColor::Red
    } else if n == 32 {
        TermColor::Green
    } else if n == 33 {
        TermColor::Yellow
    } else if n == 34 {
        TermColor::Blue
    } else if n == 35 {
        TermColor::Magenta
    } else if n == 36 {
        TermColor::Cyan
    } else if n == 37 {
        TermColor::White
    } else {
        TermColor::Black
    }
}

fn sgr_bright_fg(n: u16) -> (c: TermColor)
    ensures
        c == sgr_bright_color(n),
{
    if n == 91 {
        TermColor::LightRed
    } else if n == 92 {
        TermColor::LightGreen
    } else if n == 93 {
        TermColor::LightYellow
    } else if n == 94 {
        TermColor::LightBlue
    } else if n == 95 {
        TermColor::LightMagenta
    } else if n == 96 {
        TermColor::LightCyan
    } else if n == 97 {
        TermColor::Gray
    } else {
        TermColor::DarkGray
    }
}

fn apply_code(style: TextStyle, n: u16, default: TextStyle) -> (s: TextStyle)
    ensures
        s == sgr_code(style, n, default),
{
    if n == 0 {
        default
    } else if n == 39 {
        TextStyle { fg: default.fg, ..style }
    } else if n == 1 {
        style.add_modifier(BOLD)
    } else if n == 22 {
        style.remove_modifier(BOLD)
    } else if n == 7 {
        style.add_modifier(REVERSED)
    } else if n == 27 {
        style.remove_modifier(REVERSED)
    } else if 30 <= n && n <= 37 {
        style.fg(sgr_fg(n))
    } else if 90 <= n && n <= 97 {
        style.fg(sgr_bright_fg(n))
    } else if 40 <= n && n <= 47 {
        style.bg(sgr_fg(n - 10))
    } else if 100 <= n && n <= 107 {
        style.bg(sgr_bright_fg(n - 10))
    } else {
        style
    }
}

proof fn lemma_dec_value_grows(d: Seq<char>, k: int)
    requires
        0 <= k <= d.len(),
        forall|m: int| 0 <= m < d.len() ==> is_digit(d[m]),
    ensures
        dec_value(d.take(k)) <= dec_value(d),
    decreases d.len() - k,
{
    if k < d.len() {
        lemma_dec_value_grows(d, k + 1);
        assert(d.take(k + 1).drop_last() =~= d.take(k));
    } else {
        assert(d.take(k) =~= d);
    }
}

/// Parses `t[start..end]` as std's `u16::from_str` does.
pub fn parse_u16_at(t: &Vec<char>, start: usize, end: usize) -> (r: Option<u16>)
    requires
        start <= end <= t@.len(),
    ensures
        r == parse_u16(t@.subrange(start as int, end as int)),
{
    let ghost s = t@.subrange(start as int, end as int);
    let ghost d = unsigned_digits(s);
    let mut i = start;
    if i < end && t[i] == '+' {
        i += 1;
    }
    proof {
        assert(d =~= t@.subrange(i as int, end as int));
    }
    if i == end {
        return None;
    }
    let first = i;
    let mut v: u32 = 0;
    while i < end
        invariant
            start <= first <= i <= end <= t@.len(),
            d =~= t@.subrange(first as int, end as int),
            s == t@.subrange(start as int, end as int),
            d == unsigned_digits(s),
            d.len() > 0,
            forall|m: int| first <= m < i ==> is_digit(t@[m]),
            v as nat == dec_value(t@.subrange(first as int, i as int)),
            v <= 0xffff,
        decreases end - i,
    {
        let c = t[i];
        if !('0' <= c && c <= '9') {
            proof {
                assert(d[i - first] == c);
                assert(!is_digit(d[i - first]));
                assert(exists|k: int| 0 <= k < d.len() && !is_digit(d[k]));
                assert(parse_u16(s) is None);
            }
            return None;
        }
        let digit = (c as u32) - ('0' as u32);
        proof {
            let pre = t@.subrange(first as int, i + 1);
            assert(pre.drop_last() =~= t@.subrange(first as int, i as int));
            assert(pre.last() == c);
            assert(dec_value(pre) == dec_value(t@.subrange(first as int, i as int)) * 10 + digit);
        }
        v = v * 10 + digit;
        i += 1;
        if v > 0xffff {
            proof {
                let pre = t@.subrange(first as int, i as int);
                assert(v as nat == dec_value(pre));
                if forall|m: int| 0 <= m < d.len() ==> is_digit(d[m]) {
                    lemma_dec_value_grows(d, (i - first) as int);
                    assert(d.take((i - first) as int) =~= pre);
                    assert(dec_value(d) > 0xffff);
                }
                assert(parse_u16(s) is None);
            }
            return None;
        }
    }
    proof {
        assert(t@.subrange(first as int, end as int) =~= d);
    }
    Some(v as u16)
}

/// The style after applying the SGR parameters `t[start..end]` to `style`.
pub fn apply_sgr(style: TextStyle, t: &Vec<char>, start: usize, end: usize, default: TextStyle) -> (s: TextStyle)
    requires
        start <= end <= t@.len(),
    ensures
        s == sgr_apply(style, t@.subrange(start as int, end as int), default),
{
    let ghost params = t@.subrange(start as int, end as int);
    if start == end {
        return default;
    }
    let mut cur = style;
    let mut piece_start = start;
    let mut i = start;
    while i < end
        invariant
            start <= piece_start <= i <= end <= t@.len(),
            params == t@.subrange(start as int, end as int),
            split_scan(params.take(i - start)).1 == t@.subrange(piece_start as int, i as int),
            cur == sgr_pieces(style, split_scan(params.take(i - start)).0, default),
        decreases end - i,
    {
        proof {
            assert(params.take(i + 1 - start).drop_last() =~= params.take(i - start));
            assert(params.take(i + 1 - start).last() == t@[i as int]);
        }
        if t[i] == ';' {
            proof {
                let sc = split_scan(params.take(i - start));
                assert(split_scan(params.take(i + 1 - start)).0 == sc.0.push(sc.1));
                assert(sc.0.push(sc.1).drop_last() =~= sc.0);
                assert(sc.0.push(sc.1).last() == sc.1);
            }
            let n = parse_u16_at(t, piece_start, i);
            match n {
                Some(code) => {
                    cur = apply_code(cur, code, default);
                },
                None => {},
            }
            i += 1;
            piece_start = i;
            proof {
                assert(t@.subrange(piece_start as int, i as int) =~= Seq::<char>::empty());
            }
        } else {
            proof {
                assert(t@.subrange(piece_start as int, i + 1) =~= t@.subrange(piece_start as int, i as int).push(t@[i as int]));
            }
            i += 1;
        }
    }
    proof {
        assert(params.take(end - start) =~= params);
        let sc = split_scan(params);
        assert(split_semicolons(params) == sc.0.push(sc.1));
        assert(sc.0.push(sc.1).drop_last() =~= sc.0);
        assert(sc.0.push(sc.1).last() == sc.1);
    }
    let n = parse_u16_at(t, piece_start, end);
    match n {
        Some(code) => apply_code(cur, code, default),
        None => cur,
    }
}

} // verus!

verus! {

/// Parses the ANSI escape sequences in `text` into styled spans; `default`
/// is the style of text before any SGR code and after a reset.
pub fn ansi_to_spans(text: &str, default: TextStyle) -> (spans: Vec<StyledSpan>)
    ensures
        span_views(spans@) == ansi_spans(text@, default),
{
    let t = chars_of(text);
    let n = t.len();
    let mut spans: Vec<StyledSpan> = Vec::new();
    let mut buf = String::new();
    let mut style = default;
    let mut i: usize = 0;
    proof {
        assert(span_views(spans@) =~= Seq::<(Seq<char>, TextStyle)>::empty());
        assert(span_views(spans@) + ansi_run(t@, 0, buf@, style, default) =~= ansi_spans(text@, default));
    }
    while i < n
        invariant
            n == t@.len(),
            t@ == text@,
            0 <= i <= n,
            span_views(spans@) + ansi_run(t@, i as int, buf@, style, default) == ansi_spans(text@, default),
        decreases n - i,
    {
        let c = t[i];
        if c == '\x1b' {
            let ghost before = span_views(spans@);
            let ghost fl = flush(buf@, style);
            let ghost buf0 = buf@;
            if !buf.as_str().is_empty() {
                let mut content = String::new();
                std::mem::swap(&mut content, &mut buf);
                spans.push(StyledSpan { content, style });
                proof {
                    assert(span_views(spans@) =~= before + fl);
                }
            } else {
                proof {
                    assert(span_views(spans@) =~= before + fl);
                }
            }
            assert(buf@ == Seq::<char>::empty());
            if i + 1 < n && t[i + 1] == '[' {
                let mut j = i + 2;
                proof {
                    lemma_csi_end_bounds(t@, j as int);
                }
                while j < n && !(0x40 <= (t[j] as u32) && (t[j] as u32) <= 0x7e)
                    invariant
                        n == t@.len(),
                        i + 2 <= j <= n,
                        csi_end(t@, i + 2) == csi_end(t@, j as int),
                    decreases n - j,
                {
                    j += 1;
                }
                proof {
                    lemma_csi_end_bounds(t@, i + 2);
                    assert(csi_end(t@, j as int) == j);
                }
                if j < n {
                    let ghost old_style = style;
                    if t[j] == 'm' {
                        style = apply_sgr(style, &t, i + 2, j, default);
                    }
                    proof {
                        assert(ansi_run(t@, i as int, buf0, old_style, default)
                            == fl + ansi_run(t@, j + 1, Seq::empty(), style, default));
                        assert(span_views(spans@) + ansi_run(t@, j + 1, buf@, style, default) =~=
                            before + (fl + ansi_run(t@, j + 1, Seq::empty(), style, default)));
                    }
                    i = j + 1;
                } else {
                    proof {
                        assert(span_views(spans@) + ansi_run(t@, n as int, buf@, style, default) =~= before + fl);
                    }
                    i = n;
                }
            } else {
                proof {
                    assert(ansi_run(t@, i as int, buf0, style, default)
                        == fl + ansi_run(t@, i + 1, Seq::empty(), style, default));
                    assert(span_views(spans@) + ansi_run(t@, i + 1, buf@, style, default) =~=
                        before + (fl + ansi_run(t@, i + 1, Seq::empty(), style, default)));
                }
                i += 1;
            }
        } else {
            push_char(&mut buf, c);
            i += 1;
        }
    }
    let ghost before = span_views(spans@);
    if !buf.as_str().is_empty() {
        spans.push(StyledSpan { content: buf, style });
        proof {
            assert(span_views(spans@) =~= before + seq![(buf@, style)]);
        }
    } else {
        proof {
            assert(span_views(spans@) =~= before + Seq::<(Seq<char>, TextStyle)>::empty());
        }
    }
    spans
}

/// Lemma form of the law below, from any point of the scan.
proof fn lemma_run_has_no_escape(t: Seq<char>, i: int, buf: Seq<char>, style: TextStyle, default: TextStyle)
    requires
        !buf.contains('\x1b'),
    ensures
        forall|k: int| 0 <= k < ansi_run(t, i, buf, style, default).len()
            ==> !(#[trigger] ansi_run(t, i, buf, style, default)[k]).0.contains('\x1b'),
    decreases t.len() - i,
{
    let r = ansi_run(t, i, buf, style, default);
    let fl = flush(buf, style);
    assert(forall|k: int| 0 <= k < fl.len() ==> (#[trigger] fl[k]).0 == buf);
    if i < 0 || i >= t.len() {
        assert(r == fl);
    } else if is_esc(t[i]) {
        assert(!Seq::<char>::empty().contains('\x1b'));
        if i + 1 < t.len() && t[i + 1] == '[' {
            let j = csi_end(t, i + 2);
            lemma_csi_end_bounds(t, i + 2);
            if j < t.len() {
                let next = if t[j] == 'm' { sgr_apply(style, t.subrange(i + 2, j), default) } else { style };
                lemma_run_has_no_escape(t, j + 1, Seq::empty(), next, default);
                let rest = ansi_run(t, j + 1, Seq::empty(), next, default);
                assert(r == fl + rest);
                assert forall|k: int| 0 <= k < r.len() implies !(#[trigger] r[k]).0.contains('\x1b') by {
                    if k >= fl.len() {
                        assert(r[k] == rest[k - fl.len()]);
                    } else {
                        assert(r[k] == fl[k]);
                    }
                }
            } else {
                assert(r == fl);
            }
        } else {
            lemma_run_has_no_escape(t, i + 1, Seq::empty(), style, default);
            let rest = ansi_run(t, i + 1, Seq::empty(), style, default);
            assert(r == fl + rest);
            assert forall|k: int| 0 <= k < r.len() implies !(#[trigger] r[k]).0.contains('\x1b') by {
                if k >= fl.len() {
                    assert(r[k] == rest[k - fl.len()]);
                } else {
                    assert(r[k] == fl[k]);
                }
            }
        }
    } else {
        assert(!buf.push(t[i]).contains('\x1b')) by {
            if buf.push(t[i]).contains('\x1b') {
                let m = choose|m: int| 0 <= m < buf.push(t[i]).len() && buf.push(t[i])[m] == '\x1b';
                if m < buf.len() {
                    assert(buf[m] == '\x1b');
                }
            }
        }
        lemma_run_has_no_escape(t, i + 1, buf.push(t[i]), style, default);
        assert(r == ansi_run(t, i + 1, buf.push(t[i]), style, default));
    }
}

/// Escape codes never leak into the visible text: no span holds an escape
/// character.
pub proof fn law_no_escape_in_spans(t: Seq<char>, default: TextStyle)
    ensures
        forall|k: int| 0 <= k < ansi_spans(t, default).len()
            ==> !(#[trigger] ansi_spans(t, default)[k]).0.contains('\x1b'),
{
    lemma_run_has_no_escape(t, 0, Seq::empty(), default, default);
}

/// Lemma form of the law below, from any point of the scan.
proof fn lemma_plain_run(t: Seq<char>, i: int, buf: Seq<char>, style: TextStyle, default: TextStyle)
    requires
        0 <= i <= t.len(),
        forall|k: int| i <= k < t.len() ==> t[k] != '\x1b',
    ensures
        ansi_run(t, i, buf, style, default) == flush(buf + t.subrange(i, t.len() as int), style),
    decreases t.len() - i,
{
    if i < t.len() {
        lemma_plain_run(t, i + 1, buf.push(t[i]), style, default);
        assert(buf.push(t[i]) + t.subrange(i + 1, t.len() as int) =~= buf + t.subrange(i, t.len() as int));
    } else {
        assert(buf + t.subrange(i, t.len() as int) =~= buf);
    }
}

/// Text without escape sequences comes out as one span in the default style
/// (none when the text is empty).
pub proof fn law_plain_text_is_one_span(t: Seq<char>, default: TextStyle)
    requires
        !t.contains('\x1b'),
    ensures
        ansi_spans(t, default) == flush(t, default),
{
    assert forall|k: int| 0 <= k < t.len() implies t[k] != '\x1b' by {
        if t[k] == '\x1b' {
            assert(t.contains('\x1b'));
        }
    }
    lemma_plain_run(t, 0, Seq::empty(), default, default);
    assert(Seq::<char>::empty() + t.subrange(0, t.len() as int) =~= t);
}

} // verus!

verus! {

/// `t` after the SGR sequence `ESC [ code m`.
pub open spec fn after_sgr(code: Seq<char>, t: Seq<char>) -> Seq<char> {
    seq!['\x1b', '['] + code + seq!['m'] + t
}

proof fn lemma_csi_end_at(u: Seq<char>, k: int, e: int)
    requires
        0 <= k <= e < u.len(),
        forall|x: int| k <= x < e ==> !is_csi_final(#[trigger] u[x]),
        is_csi_final(u[e]),
    ensures
        csi_end(u, k) == e,
    decreases e - k,
{
    if k < e {
        lemma_csi_end_at(u, k + 1, e);
    }
}

/// An SGR sequence of digits at position `i` changes the style by its code
/// and the scan goes on after it with nothing collected.
proof fn lemma_sgr_at(u: Seq<char>, i: int, code: Seq<char>, st: TextStyle, d: TextStyle)
    requires
        0 <= i,
        i + code.len() + 3 <= u.len(),
        u[i] == '\x1b',
        u[i + 1] == '[',
        u[i + code.len() + 2] == 'm',
        forall|x: int| 0 <= x < code.len() ==> is_digit(#[trigger] code[x]),
        u.subrange(i + 2, i + code.len() + 2) == code,
    ensures
        ansi_run(u, i, Seq::empty(), st, d) == ansi_run(u, i + code.len() + 3, Seq::empty(), sgr_apply(st, code, d), d),
{
    let e = i + code.len() + 2;
    assert forall|x: int| i + 2 <= x < e implies !is_csi_final(#[trigger] u[x]) by {
        assert(u[x] == u.subrange(i + 2, e)[x - i - 2]);
        assert(is_digit(code[x - i - 2]));
    }
    lemma_csi_end_at(u, i + 2, e);
    assert(flush(Seq::<char>::empty(), st) =~= Seq::<(Seq<char>, TextStyle)>::empty());
    assert(ansi_run(u, i, Seq::empty(), st, d)
        == flush(Seq::<char>::empty(), st) + ansi_run(u, e + 1, Seq::empty(), sgr_apply(st, code, d), d));
    assert(ansi_run(u, i, Seq::empty(), st, d) =~= ansi_run(u, e + 1, Seq::empty(), sgr_apply(st, code, d), d));
}

/// Text without escapes from position `i` on is one span in the style in force.
proof fn lemma_plain_tail(u: Seq<char>, i: int, st: TextStyle, d: TextStyle)
    requires
        0 <= i < u.len(),
        forall|k: int| i <= k < u.len() ==> u[k] != '\x1b',
    ensures
        ansi_run(u, i, Seq::empty(), st, d) == seq![(u.subrange(i, u.len() as int), st)],
{
    lemma_plain_run(u, i, Seq::empty(), st, d);
    assert(Seq::<char>::empty() + u.subrange(i, u.len() as int) =~= u.subrange(i, u.len() as int));
}

/// Text without escapes after one SGR sequence of digits is one span in the
/// style that sequence gives.
proof fn lemma_one_sgr(code: Seq<char>, t: Seq<char>, d: TextStyle)
    requires
        forall|x: int| 0 <= x < code.len() ==> is_digit(#[trigger] code[x]),
        t.len() > 0,
        !t.contains('\x1b'),
    ensures
        ansi_spans(after_sgr(code, t), d) == seq![(t, sgr_apply(d, code, d))],
{
    let u = after_sgr(code, t);
    let e = (code.len() + 3) as int;
    assert(u.subrange(2, (code.len() + 2) as int) =~= code);
    lemma_sgr_at(u, 0, code, d, d);
    assert forall|k: int| e <= k < u.len() implies u[k] != '\x1b' by {
        assert(u[k] == t[k - e]);
        if t[k - e] == '\x1b' {
            assert(t.contains('\x1b'));
        }
    }
    lemma_plain_tail(u, e, sgr_apply(d, code, d), d);
    assert(u.subrange(e, u.len() as int) =~= t);
}

/// Digits without a `;` are one SGR parameter.
proof fn lemma_split_digits(p: Seq<char>)
    requires
        forall|x: int| 0 <= x < p.len() ==> is_digit(#[trigger] p[x]),
    ensures
        split_scan(p) == (Seq::<Seq<char>>::empty(), p),
    decreases p.len(),
{
    if p.len() > 0 {
        let q = p.drop_last();
        assert forall|x: int| 0 <= x < q.len() implies is_digit(#[trigger] q[x]) by {
            assert(q[x] == p[x]);
        }
        lemma_split_digits(q);
        assert(p.last() == p[p.len() - 1]);
        assert(q.push(p.last()) =~= p);
    }
}

/// An SGR parameter of digits applies the code its digits spell.
proof fn lemma_sgr_digits(st: TextStyle, p: Seq<char>, d: TextStyle)
    requires
        p.len() > 0,
        forall|x: int| 0 <= x < p.len() ==> is_digit(#[trigger] p[x]),
        dec_value(p) <= 0xffff,
    ensures
        sgr_apply(st, p, d) == sgr_code(st, dec_value(p) as u16, d),
{
    lemma_split_digits(p);
    let pieces = split_semicolons(p);
    assert(pieces =~= seq![p]);
    assert(pieces.drop_last() =~= Seq::<Seq<char>>::empty());
    assert(pieces.last() == p);
    assert(p[0] != '+') by {
        assert(is_digit(p[0]));
    }
    assert(unsigned_digits(p) == p);
    assert(!(exists|k: int| 0 <= k < p.len() && !is_digit(p[k])));
    assert(parse_u16(p) == Some(dec_value(p) as u16));
    assert(sgr_pieces(st, Seq::<Seq<char>>::empty(), d) == st);
    assert(sgr_pieces(st, pieces, d) == sgr_code(st, dec_value(p) as u16, d));
}

proof fn lemma_dec2(a: char, b: char)
    requires
        is_digit(a),
        is_digit(b),
    ensures
        dec_value(seq![a, b]) == ((a as u32) - 48) * 10 + ((b as u32) - 48),
{
    let p: Seq<char> = seq![a, b];
    let q: Seq<char> = seq![a];
    assert(('0' as u32) == 48);
    assert(p.drop_last() =~= q);
    assert(p.last() == b);
    assert(q.drop_last() =~= Seq::<char>::empty());
    assert(q.last() == a);
    assert(dec_value(Seq::<char>::empty()) == 0);
    assert(dec_value(q) == ((a as u32) - 48) as nat);
    assert(dec_value(p) == dec_value(q) * 10 + ((b as u32) - 48) as nat);
}

proof fn lemma_dec3(a: char, b: char, c: char)
    requires
        is_digit(a),
        is_digit(b),
        is_digit(c),
    ensures
        dec_value(seq![a, b, c]) == ((a as u32) - 48) * 100 + ((b as u32) - 48) * 10 + ((c as u32) - 48),
{
    let p: Seq<char> = seq![a, b, c];
    assert(('0' as u32) == 48);
    assert(p.drop_last() =~= seq![a, b]);
    assert(p.last() == c);
    lemma_dec2(a, b);
    assert(dec_value(p) == dec_value(seq![a, b]) * 10 + ((c as u32) - 48) as nat);
}

/// `t` after `ESC [ 3 c m` (a two-digit code) is one span in the style `code` gives.
proof fn lemma_code2(a: char, b: char, t: Seq<char>, d: TextStyle)
    requires
        is_digit(a),
        is_digit(b),
        t.len() > 0,
        !t.contains('\x1b'),
    ensures
        ansi_spans(after_sgr(seq![a, b], t), d)
            == seq![(t, sgr_code(d, (((a as u32) - 48) * 10 + ((b as u32) - 48)) as u16, d))],
{
    let p: Seq<char> = seq![a, b];
    assert forall|x: int| 0 <= x < p.len() implies is_digit(#[trigger] p[x]) by {}
    lemma_one_sgr(p, t, d);
    lemma_dec2(a, b);
    lemma_sgr_digits(d, p, d);
}

proof fn lemma_code3(a: char, b: char, c: char, t: Seq<char>, d: TextStyle)
    requires
        is_digit(a),
        is_digit(b),
        is_digit(c),
        t.len() > 0,
        !t.contains('\x1b'),
    ensures
        ansi_spans(after_sgr(seq![a, b, c], t), d)
            == seq![(t, sgr_code(d, (((a as u32) - 48) * 100 + ((b as u32) - 48) * 10 + ((c as u32) - 48)) as u16, d))],
{
    let p: Seq<char> = seq![a, b, c];
    assert forall|x: int| 0 <= x < p.len() implies is_digit(#[trigger] p[x]) by {}
    lemma_one_sgr(p, t, d);
    lemma_dec3(a, b, c);
    lemma_sgr_digits(d, p, d);
}

/// Each standard foreground code colours the text after it with its ANSI
/// colour, keeping the rest of the style: 30 black, 31 red, 32 green,
/// 33 yellow, 34 blue, 35 magenta, 36 cyan, 37 white.
pub proof fn law_sgr_foreground_colours(t: Seq<char>, d: TextStyle)
    requires
        t.len() > 0,
        !t.contains('\x1b'),
    ensures
        ansi_spans(after_sgr(seq!['3', '0'], t), d) == seq![(t, TextStyle { fg: Some(TermColor::Black), ..d })],
        ansi_spans(after_sgr(seq!['3', '1'], t), d) == seq![(t, TextStyle { fg: Some(TermColor::Red), ..d })],
        ansi_spans(after_sgr(seq!['3', '2'], t), d) == seq![(t, TextStyle { fg: Some(TermColor::Green), ..d })],
        ansi_spans(after_sgr(seq!['3', '3'], t), d) == seq![(t, TextStyle { fg: Some(TermColor::Yellow), ..d })],
        ansi_spans(after_sgr(seq!['3', '4'], t), d) == seq![(t, TextStyle { fg: Some(TermColor::Blue), ..d })],
        ansi_spans(after_sgr(seq!['3', '5'], t), d) == seq![(t, TextStyle { fg: Some(TermColor::Magenta), ..d })],
        ansi_spans(after_sgr(seq!['3', '6'], t), d) == seq![(t, TextStyle { fg: Some(TermColor::Cyan), ..d })],
        ansi_spans(after_sgr(seq!['3', '7'], t), d) == seq![(t, TextStyle { fg: Some(TermColor::White), ..d })],
{
    lemma_code2('3', '0', t, d);
    lemma_code2('3', '1', t, d);
    lemma_code2('3', '2', t, d);
    lemma_code2('3', '3', t, d);
    lemma_code2('3', '4', t, d);
    lemma_code2('3', '5', t, d);
    lemma_code2('3', '6', t, d);
    lemma_code2('3', '7', t, d);
}

/// Each bright foreground code colours the text after it with its bright
/// colour: 90 dark grey, 91 light red, 92 light green, 93 light yellow,
/// 94 light blue, 95 light magenta, 96 light cyan, 97 grey.
pub proof fn law_sgr_bright_foreground_colours(t: Seq<char>, d: TextStyle)
    requires
        t.len() > 0,
        !t.contains('\x1b'),
    ensures
        ansi_spans(after_sgr(seq!['9', '0'], t), d) == seq![(t, TextStyle { fg: Some(TermColor::DarkGray), ..d })],
        ansi_spans(after_sgr(seq!['9', '1'], t), d) == seq![(t, TextStyle { fg: Some(TermColor::LightRed), ..d })],
        ansi_spans(after_sgr(seq!['9', '2'], t), d) == seq![(t, TextStyle { fg: Some(TermColor::LightGreen), ..d })],
        ansi_spans(after_sgr(seq!['9', '3'], t), d) == seq![(t, TextStyle { fg: Some(TermColor::LightYellow), ..d })],
        ansi_spans(after_sgr(seq!['9', '4'], t), d) == seq![(t, TextStyle { fg: Some(TermColor::LightBlue), ..d })],
        ansi_spans(after_sgr(seq!['9', '5'], t), d) == seq![(t, TextStyle { fg: Some(TermColor::LightMagenta), ..d })],
        ansi_spans(after_sgr(seq!['9', '6'], t), d) == seq![(t, TextStyle { fg: Some(TermColor::LightCyan), ..d })],
        ansi_spans(after_sgr(seq!['9', '7'], t), d) == seq![(t, TextStyle { fg: Some(TermColor::Gray), ..d })],
{
    lemma_code2('9', '0', t, d);
    lemma_code2('9', '1', t, d);
    lemma_code2('9', '2', t, d);
    lemma_code2('9', '3', t, d);
    lemma_code2('9', '4', t, d);
    lemma_code2('9', '5', t, d);
    lemma_code2('9', '6', t, d);
    lemma_code2('9', '7', t, d);
}

/// Each standard background code sets the background to its ANSI colour,
/// keeping the rest of the style: 40 black through 47 white.
pub proof fn law_sgr_background_colours(t: Seq<char>, d: TextStyle)
    requires
        t.len() > 0,
        !t.contains('\x1b'),
    ensures
        ansi_spans(after_sgr(seq!['4', '0'], t), d) == seq![(t, TextStyle { bg: Some(TermColor::Black), ..d })],
        ansi_spans(after_sgr(seq!['4', '1'], t), d) == seq![(t, TextStyle { bg: Some(TermColor::Red), ..d })],
        ansi_spans(after_sgr(seq!['4', '2'], t), d) == seq![(t, TextStyle { bg: Some(TermColor::Green), ..d })],
        ansi_spans(after_sgr(seq!['4', '3'], t), d) == seq![(t, TextStyle { bg: Some(TermColor::Yellow), ..d })],
        ansi_spans(after_sgr(seq!['4', '4'], t), d) == seq![(t, TextStyle { bg: Some(TermColor::Blue), ..d })],
        ansi_spans(after_sgr(seq!['4', '5'], t), d) == seq![(t, TextStyle { bg: Some(TermColor::Magenta), ..d })],
        ansi_spans(after_sgr(seq!['4', '6'], t), d) == seq![(t, TextStyle { bg: Some(TermColor::Cyan), ..d })],
        ansi_spans(after_sgr(seq!['4', '7'], t), d) == seq![(t, TextStyle { bg: Some(TermColor::White), ..d })],
{
    lemma_code2('4', '0', t, d);
    lemma_code2('4', '1', t, d);
    lemma_code2('4', '2', t, d);
    lemma_code2('4', '3', t, d);
    lemma_code2('4', '4', t, d);
    lemma_code2('4', '5', t, d);
    lemma_code2('4', '6', t, d);
    lemma_code2('4', '7', t, d);
}

/// Each bright background code sets the background to its bright colour:
/// 100 dark grey, 101 light red through 106 light cyan, 107 grey.
pub proof fn law_sgr_bright_background_colours(t: Seq<char>, d: TextStyle)
    requires
        t.len() > 0,
        !t.contains('\x1b'),
    ensures
        ansi_spans(after_sgr(seq!['1', '0', '0'], t), d) == seq![(t, TextStyle { bg: Some(TermColor::DarkGray), ..d })],
        ansi_spans(after_sgr(seq!['1', '0', '1'], t), d) == seq![(t, TextStyle { bg: Some(TermColor::LightRed), ..d })],
        ansi_spans(after_sgr(seq!['1', '0', '2'], t), d) == seq![(t, TextStyle { bg: Some(TermColor::LightGreen), ..d })],
        ansi_spans(after_sgr(seq!['1', '0', '3'], t), d) == seq![(t, TextStyle { bg: Some(TermColor::LightYellow), ..d })],
        ansi_spans(after_sgr(seq!['1', '0', '4'], t), d) == seq![(t, TextStyle { bg: Some(TermColor::LightBlue), ..d })],
        ansi_spans(after_sgr(seq!['1', '0', '5'], t), d) == seq![(t, TextStyle { bg: Some(TermColor::LightMagenta), ..d })],
        ansi_spans(after_sgr(seq!['1', '0', '6'], t), d) == seq![(t, TextStyle { bg: Some(TermColor::LightCyan), ..d })],
        ansi_spans(after_sgr(seq!['1', '0', '7'], t), d) == seq![(t, TextStyle { bg: Some(TermColor::Gray), ..d })],
{
    lemma_code3('1', '0', '0', t, d);
    lemma_code3('1', '0', '1', t, d);
    lemma_code3('1', '0', '2', t, d);
    lemma_code3('1', '0', '3', t, d);
    lemma_code3('1', '0', '4', t, d);
    lemma_code3('1', '0', '5', t, d);
    lemma_code3('1', '0', '6', t, d);
    lemma_code3('1', '0', '7', t, d);
}


/// One SGR sequence of digits where the rest of `u` from `i` is `ESC [ code m`
/// then `rest`: the scan moves past it with the style changed by its code.
proof fn lemma_sgr_step(u: Seq<char>, i: int, code: Seq<char>, rest: Seq<char>, st: TextStyle, d: TextStyle)
    requires
        0 <= i <= u.len(),
        u.skip(i) == after_sgr(code, rest),
        forall|x: int| 0 <= x < code.len() ==> is_digit(#[trigger] code[x]),
    ensures
        ansi_run(u, i, Seq::empty(), st, d) == ansi_run(u, i + code.len() + 3, Seq::empty(), sgr_apply(st, code, d), d),
        u.skip(i + code.len() + 3) == rest,
{
    let a = after_sgr(code, rest);
    assert(a.len() == code.len() + 3 + rest.len());
    assert(u.skip(i).len() == u.len() - i);
    assert(u.skip(i)[0] == u[i]);
    assert(u.skip(i)[1] == u[i + 1]);
    assert(u.skip(i)[(code.len() + 2) as int] == u[i + code.len() + 2]);
    assert(u[i] == a[0]);
    assert(u[i + 1] == a[1]);
    assert(u[i + code.len() + 2] == a[(code.len() + 2) as int]);
    assert(u.subrange(i + 2, i + code.len() + 2) =~= code) by {
        assert forall|x: int| 0 <= x < code.len() implies u.subrange(i + 2, i + code.len() + 2)[x] == code[x] by {
            assert(u[i + 2 + x] == a[2 + x]);
        }
    }
    lemma_sgr_at(u, i, code, st, d);
    assert(u.skip(i + code.len() + 3) =~= rest) by {
        assert forall|x: int| 0 <= x < rest.len() implies u.skip(i + code.len() + 3)[x] == rest[x] by {
            assert(u[i + code.len() + 3 + x] == a[(code.len() + 3 + x) as int]);
        }
    }
}

/// Text without escapes that makes up the rest of `u` from `i` is one span.
proof fn lemma_rest_plain(u: Seq<char>, i: int, t: Seq<char>, st: TextStyle, d: TextStyle)
    requires
        0 <= i <= u.len(),
        u.skip(i) == t,
        t.len() > 0,
        !t.contains('\x1b'),
    ensures
        ansi_run(u, i, Seq::empty(), st, d) == seq![(t, st)],
{
    assert forall|k: int| i <= k < u.len() implies u[k] != '\x1b' by {
        assert(u[k] == t[k - i]);
        if t[k - i] == '\x1b' {
            assert(t.contains('\x1b'));
        }
    }
    lemma_plain_tail(u, i, st, d);
    assert(u.subrange(i, u.len() as int) =~= t);
}

proof fn lemma_dec1(a: char)
    requires
        is_digit(a),
    ensures
        dec_value(seq![a]) == (a as u32) - 48,
{
    let q: Seq<char> = seq![a];
    assert(('0' as u32) == 48);
    assert(q.drop_last() =~= Seq::<char>::empty());
    assert(q.last() == a);
    assert(dec_value(Seq::<char>::empty()) == 0);
    assert(dec_value(q) == dec_value(q.drop_last()) * 10 + ((q.last() as u32) - ('0' as u32)) as nat);
}

/// The effect of the one-digit SGR parameter `a`.
proof fn lemma_apply1(st: TextStyle, a: char, d: TextStyle)
    requires
        is_digit(a),
    ensures
        sgr_apply(st, seq![a], d) == sgr_code(st, ((a as u32) - 48) as u16, d),
{
    let p: Seq<char> = seq![a];
    assert forall|x: int| 0 <= x < p.len() implies is_digit(#[trigger] p[x]) by {}
    lemma_dec1(a);
    lemma_sgr_digits(st, p, d);
}

/// The effect of the two-digit SGR parameter `a b`.
proof fn lemma_apply2(st: TextStyle, a: char, b: char, d: TextStyle)
    requires
        is_digit(a),
        is_digit(b),
    ensures
        sgr_apply(st, seq![a, b], d) == sgr_code(st, (((a as u32) - 48) * 10 + ((b as u32) - 48)) as u16, d),
{
    let p: Seq<char> = seq![a, b];
    assert forall|x: int| 0 <= x < p.len() implies is_digit(#[trigger] p[x]) by {}
    lemma_dec2(a, b);
    lemma_sgr_digits(st, p, d);
}

/// Bold (1) and reverse video (7) are switched on, and off again by 22 and
/// 27, keeping the rest of the style; 0 returns to the default style.
pub proof fn law_sgr_attributes(t: Seq<char>, d: TextStyle)
    requires
        t.len() > 0,
        !t.contains('\x1b'),
    ensures
        ansi_spans(after_sgr(seq!['1'], t), d)
            == seq![(t, TextStyle { add_modifier: d.add_modifier | 0x0001u16, sub_modifier: d.sub_modifier & !0x0001u16, ..d })],
        ansi_spans(after_sgr(seq!['7'], t), d)
            == seq![(t, TextStyle { add_modifier: d.add_modifier | 0x0040u16, sub_modifier: d.sub_modifier & !0x0040u16, ..d })],
        ansi_spans(after_sgr(seq!['2', '2'], t), d)
            == seq![(t, TextStyle { add_modifier: d.add_modifier & !0x0001u16, sub_modifier: d.sub_modifier | 0x0001u16, ..d })],
        ansi_spans(after_sgr(seq!['2', '7'], t), d)
            == seq![(t, TextStyle { add_modifier: d.add_modifier & !0x0040u16, sub_modifier: d.sub_modifier | 0x0040u16, ..d })],
        ansi_spans(after_sgr(seq!['3', '1'], after_sgr(seq!['0'], t)), d) == seq![(t, d)],
{
    let one1: Seq<char> = seq!['1'];
    let one7: Seq<char> = seq!['7'];
    let one0: Seq<char> = seq!['0'];
    assert forall|x: int| 0 <= x < one1.len() implies is_digit(#[trigger] one1[x]) by {}
    assert forall|x: int| 0 <= x < one7.len() implies is_digit(#[trigger] one7[x]) by {}
    lemma_one_sgr(one1, t, d);
    lemma_apply1(d, '1', d);
    lemma_one_sgr(one7, t, d);
    lemma_apply1(d, '7', d);
    lemma_code2('2', '2', t, d);
    lemma_code2('2', '7', t, d);
    let u = after_sgr(seq!['3', '1'], after_sgr(one0, t));
    let c31: Seq<char> = seq!['3', '1'];
    assert forall|x: int| 0 <= x < c31.len() implies is_digit(#[trigger] c31[x]) by {}
    assert forall|x: int| 0 <= x < one0.len() implies is_digit(#[trigger] one0[x]) by {}
    assert(u.skip(0) =~= u);
    lemma_sgr_step(u, 0, c31, after_sgr(one0, t), d, d);
    let s1 = sgr_apply(d, c31, d);
    lemma_sgr_step(u, 5, one0, t, s1, d);
    lemma_apply1(s1, '0', d);
    lemma_rest_plain(u, 9, t, d, d);
}

/// 39 restores only the default foreground: after a background, bold and a
/// foreground colour, the text keeps the background and bold and takes the
/// default style's foreground.
pub proof fn law_sgr_default_foreground(t: Seq<char>, d: TextStyle)
    requires
        t.len() > 0,
        !t.contains('\x1b'),
    ensures
        ansi_spans(after_sgr(seq!['4', '4'], after_sgr(seq!['1'], after_sgr(seq!['3', '1'], after_sgr(seq!['3', '9'], t)))), d)
            == seq![(t, TextStyle {
                fg: d.fg,
                bg: Some(TermColor::Blue),
                add_modifier: d.add_modifier | 0x0001u16,
                sub_modifier: d.sub_modifier & !0x0001u16,
            })],
{
    let c44: Seq<char> = seq!['4', '4'];
    let c1: Seq<char> = seq!['1'];
    let c31: Seq<char> = seq!['3', '1'];
    let c39: Seq<char> = seq!['3', '9'];
    assert forall|x: int| 0 <= x < c44.len() implies is_digit(#[trigger] c44[x]) by {}
    assert forall|x: int| 0 <= x < c1.len() implies is_digit(#[trigger] c1[x]) by {}
    assert forall|x: int| 0 <= x < c31.len() implies is_digit(#[trigger] c31[x]) by {}
    assert forall|x: int| 0 <= x < c39.len() implies is_digit(#[trigger] c39[x]) by {}
    let r3 = after_sgr(c39, t);
    let r2 = after_sgr(c31, r3);
    let r1 = after_sgr(c1, r2);
    let u = after_sgr(c44, r1);
    assert(u.skip(0) =~= u);
    lemma_sgr_step(u, 0, c44, r1, d, d);
    let s1 = sgr_apply(d, c44, d);
    lemma_apply2(d, '4', '4', d);
    lemma_sgr_step(u, 5, c1, r2, s1, d);
    let s2 = sgr_apply(s1, c1, d);
    lemma_apply1(s1, '1', d);
    lemma_sgr_step(u, 9, c31, r3, s2, d);
    let s3 = sgr_apply(s2, c31, d);
    lemma_apply2(s2, '3', '1', d);
    lemma_sgr_step(u, 14, c39, t, s3, d);
    let s4 = sgr_apply(s3, c39, d);
    lemma_apply2(s3, '3', '9', d);
    lemma_rest_plain(u, 19, t, s4, d);
}

} // verus!
