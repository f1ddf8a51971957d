//! Display widths, highlighting a keyword in styled text and folding styled
//! text into rows of a given width.
use vstd::prelude::*;
use crate::style::{StyledSpan, TextStyle, span_views};
use crate::logline::views;
use crate::text::{chars_of, lowercased, lowercase, push_char};

verus! {

broadcast use vstd::string::group_string_axioms;

/// The display width unicode-width gives a character (`None` for control
/// characters); a function of the character alone.
pub uninterp spec fn char_cols(c: char) -> Option<usize>;

/// The display width unicode-width gives a string; a function of its
/// characters alone.
pub uninterp spec fn text_cols(s: Seq<char>) -> usize;

/// The display width of a character (unicode-width's
/// `UnicodeWidthChar::width`). Its source gives printable ASCII one column
/// and no character more than three.
#[verifier::external_body]
pub(crate) fn char_width(c: char) -> (r: Option<usize>)
    ensures
        r == char_cols(c),
        ' ' <= c <= '~' ==> r == Some(1usize),
        r matches Some(w) ==> w <= 3,
{
    unicode_width::UnicodeWidthChar::width(c)
}

/// The display width of a string (unicode-width's `UnicodeWidthStr::width`).
#[verifier::external_body]
pub(crate) fn str_width(s: &str) -> (r: usize)
    ensures
        r == text_cols(s@),
{
    unicode_width::UnicodeWidthStr::width(s)
}

/// The columns a character takes when folding: control characters take none.
pub open spec fn cols_or_zero(c: char) -> nat {
    match char_cols(c) {
        Some(w) => w as nat,
        None => 0,
    }
}

/// The characters of styled runs, each with its style.
pub open spec fn styled_chars(v: Seq<(Seq<char>, TextStyle)>) -> Seq<(char, TextStyle)>
    decreases v.len(),
{
    if v.len() == 0 {
        Seq::empty()
    } else {
        styled_chars(v.drop_last()) + v.last().0.map_values(|c: char| (c, v.last().1))
    }
}

/// The text of styled runs.
pub open spec fn plain_of(v: Seq<(Seq<char>, TextStyle)>) -> Seq<char> {
    styled_chars(v).map_values(|p: (char, TextStyle)| p.0)
}

/// Single-character runs for styled characters.
pub open spec fn unit_spans(cs: Seq<(char, TextStyle)>) -> Seq<(Seq<char>, TextStyle)> {
    cs.map_values(|p: (char, TextStyle)| (seq![p.0], p.1))
}

/// Folding styled characters into rows `max_w` columns wide: the rows so
/// far (the last one open) and the columns used in the last. A character
/// that does not fit starts a new row unless the row is empty.
pub open spec fn fold_scan(cs: Seq<(char, TextStyle)>, max_w: nat) -> (Seq<Seq<(char, TextStyle)>>, nat)
    decreases cs.len(),
{
    if cs.len() == 0 {
        (seq![Seq::empty()], 0)
    } else {
        let p = fold_scan(cs.drop_last(), max_w);
        let x = cs.last();
        let w = cols_or_zero(x.0);
        let q = if p.1 + w > max_w && p.1 > 0 { (p.0.push(Seq::empty()), 0nat) } else { p };
        (q.0.update(q.0.len() - 1, q.0.last().push(x)), q.1 + w)
    }
}

/// Styled characters folded into rows at most `max_w` columns wide (a
/// single character wider than that gets a row of its own); no columns
/// give one empty row.
pub open spec fn folded(cs: Seq<(char, TextStyle)>, max_w: nat) -> Seq<Seq<(char, TextStyle)>> {
    if max_w == 0 { seq![Seq::empty()] } else { fold_scan(cs, max_w).0 }
}

/// The rows of a folding, as single-character runs.
pub open spec fn rows_view(rows: Seq<Vec<StyledSpan>>) -> Seq<Seq<(Seq<char>, TextStyle)>> {
    rows.map_values(|r: Vec<StyledSpan>| span_views(r@))
}

/// The styled characters of runs.
pub fn flatten(spans: &Vec<StyledSpan>) -> (r: Vec<(char, TextStyle)>)
    ensures
        r@ == styled_chars(span_views(spans@)),
{
    let ghost sv = span_views(spans@);
    let mut r: Vec<(char, TextStyle)> = Vec::new();
    let mut i: usize = 0;
    while i < spans.len()
        invariant
            0 <= i <= spans@.len(),
            sv == span_views(spans@),
            r@ == styled_chars(sv.take(i as int)),
        decreases spans@.len() - i,
    {
        let cs = chars_of(spans[i].content.as_str());
        let st = spans[i].style;
        let ghost before = r@;
        let mut j: usize = 0;
        while j < cs.len()
            invariant
                0 <= j <= cs@.len(),
                r@ == before + cs@.take(j as int).map_values(|c: char| (c, st)),
            decreases cs@.len() - j,
        {
            r.push((cs[j], st));
            proof {
                assert(cs@.take(j + 1).map_values(|c: char| (c, st)) =~= cs@.take(j as int).map_values(|c: char| (c, st)).push((cs@[j as int], st)));
            }
            j += 1;
        }
        proof {
            assert(cs@.take(cs@.len() as int) =~= cs@);
            assert(sv.take(i + 1).drop_last() =~= sv.take(i as int));
            assert(sv.take(i + 1).last() == sv[i as int]);
            assert(sv[i as int] == (spans@[i as int].content@, st));
        }
        i += 1;
    }
    proof {
        assert(sv.take(spans@.len() as int) =~= sv);
    }
    r
}

/// A single-character run.
fn unit_span(c: char, st: TextStyle) -> (s: StyledSpan)
    ensures
        s.content@ == seq![c],
        s.style == st,
{
    let mut t = String::new();
    push_char(&mut t, c);
    StyledSpan { content: t, style: st }
}

proof fn lemma_fold_scan_rows(cs: Seq<(char, TextStyle)>, max_w: nat)
    ensures
        fold_scan(cs, max_w).0.len() >= 1,
    decreases cs.len(),
{
    if cs.len() > 0 {
        lemma_fold_scan_rows(cs.drop_last(), max_w);
    }
}

/// Folds styled runs into rows `max_w` columns wide, one run per character
/// (see `folded`).
pub fn wrap_spans(spans: &Vec<StyledSpan>, max_w: usize) -> (rows: Vec<Vec<StyledSpan>>)
    ensures
        rows_view(rows@) == folded(styled_chars(span_views(spans@)), max_w as nat).map_values(
            |r: Seq<(char, TextStyle)>| unit_spans(r)),
        rows@.len() >= 1,
{
    let ghost cs0 = styled_chars(span_views(spans@));
    proof {
        assert(span_views(Seq::<StyledSpan>::empty()) =~= Seq::empty());
        assert(unit_spans(Seq::empty()) =~= Seq::empty());
    }
    if max_w == 0 {
        let e: Vec<StyledSpan> = Vec::new();
        let mut rows: Vec<Vec<StyledSpan>> = Vec::new();
        rows.push(e);
        assert(rows_view(rows@) =~= folded(cs0, 0).map_values(|r: Seq<(char, TextStyle)>| unit_spans(r)));
        return rows;
    }
    let cs = flatten(spans);
    let mut done: Vec<Vec<StyledSpan>> = Vec::new();
    let mut cur: Vec<StyledSpan> = Vec::new();
    let mut cur_w: usize = 0;
    let mut i: usize = 0;
    proof {
        assert(cs@.take(0) =~= Seq::<(char, TextStyle)>::empty());
        assert(rows_view(done@.push(cur)) =~= fold_scan(cs@.take(0), max_w as nat).0.map_values(
            |r: Seq<(char, TextStyle)>| unit_spans(r)));
    }
    while i < cs.len()
        invariant
            0 <= i <= cs@.len(),
            cs@ == cs0,
            max_w > 0,
            rows_view(done@.push(cur)) == fold_scan(cs@.take(i as int), max_w as nat).0.map_values(
                |r: Seq<(char, TextStyle)>| unit_spans(r)),
            cur_w as nat == fold_scan(cs@.take(i as int), max_w as nat).1,
            cur_w <= max_w || cur_w <= 3,
        decreases cs@.len() - i,
    {
        let (c, st) = cs[i];
        let w = match char_width(c) {
            Some(w) => w,
            None => 0,
        };
        let ghost p = fold_scan(cs@.take(i as int), max_w as nat);
        proof {
            assert(cs@.take(i + 1).drop_last() =~= cs@.take(i as int));
            assert(cs@.take(i + 1).last() == (c, st));
        }
        proof {
            lemma_fold_scan_rows(cs@.take(i as int), max_w as nat);
        }
        let over = if cur_w > max_w { true } else { w > max_w - cur_w };
        if over && cur_w > 0 {
            let ghost old_rows = rows_view(done@.push(cur));
            let mut fresh: Vec<StyledSpan> = Vec::new();
            std::mem::swap(&mut fresh, &mut cur);
            done.push(fresh);
            cur_w = 0;
            proof {
                assert(span_views(cur@) =~= Seq::empty());
                assert(unit_spans(Seq::empty()) =~= Seq::empty());
                assert(rows_view(done@.push(cur)) =~= old_rows.push(Seq::empty()));
                assert(p.0.push(Seq::empty()).map_values(|r: Seq<(char, TextStyle)>| unit_spans(r))
                    =~= p.0.map_values(|r: Seq<(char, TextStyle)>| unit_spans(r)).push(Seq::empty()));
            }
        }
        let ghost before = rows_view(done@.push(cur));
        let ghost q0 = if p.1 + cols_or_zero(c) > max_w && p.1 > 0 { p.0.push(Seq::empty()) } else { p.0 };
        let ghost cur0 = cur@;
        cur.push(unit_span(c, st));
        cur_w = cur_w + w;
        proof {
            assert(before == q0.map_values(|r: Seq<(char, TextStyle)>| unit_spans(r)));
            let last = q0.len() - 1;
            assert(before.len() == q0.len());
            assert(before[last] == span_views(cur0));
            assert(before[last] == unit_spans(q0[last]));
            let q1 = q0.update(last, q0[last].push((c, st)));
            assert(span_views(cur@) =~= span_views(cur0).push((seq![c], st)));
            assert(unit_spans(q0[last].push((c, st))) =~= unit_spans(q0[last]).push((seq![c], st)));
            assert(rows_view(done@.push(cur)) =~= before.update(last, span_views(cur@)));
            assert(q1.map_values(|r: Seq<(char, TextStyle)>| unit_spans(r))
                =~= before.update(last, unit_spans(q0[last].push((c, st)))));
            assert(q0.last() == q0[last]);
        }
        i += 1;
    }
    proof {
        assert(cs@.take(cs@.len() as int) =~= cs@);
    }
    done.push(cur);
    done
}

} // verus!

verus! {

/// How a character compares when case is ignored: its lower-case form
/// (std's `to_lowercase` of the character alone, one or more characters).
pub open spec fn fold_of(c: char) -> Seq<char> {
    lowercased(seq![c])
}

/// The case-folded form of each character of `t`, one entry per character.
pub open spec fn folds(t: Seq<char>) -> Seq<Seq<char>> {
    t.map_values(|c: char| fold_of(c))
}

/// Marks of the items of `t` covered by the non-overlapping occurrences of
/// `k` found scanning from position `i` (left to right).
pub open spec fn hit_scan<T>(t: Seq<T>, k: Seq<T>, i: int) -> Seq<bool>
    decreases t.len() - i,
{
    if i >= t.len() || k.len() == 0 {
        Seq::new((if t.len() >= i { t.len() - i } else { 0 }) as nat, |j: int| false)
    } else if i + k.len() <= t.len() && t.subrange(i, i + k.len()) == k {
        Seq::new(k.len(), |j: int| true) + hit_scan(t, k, i + k.len())
    } else {
        seq![false] + hit_scan(t, k, i + 1)
    }
}

/// Marks of the items of `t` covered by the occurrences of `k`.
pub open spec fn hits<T>(t: Seq<T>, k: Seq<T>) -> Seq<bool> {
    hit_scan(t, k, 0)
}

/// Styled runs with the keyword highlighted: when there is text and a
/// keyword, every character becomes a run of its own, drawn in `hl` where
/// it lies in an occurrence of the keyword found ignoring case (characters
/// compared by their lower-case forms, leftmost occurrences first, without
/// overlap) and in its own style elsewhere; otherwise the runs are returned
/// unchanged.
pub open spec fn highlighted(v: Seq<(Seq<char>, TextStyle)>, kw: Seq<char>, hl: TextStyle) -> Seq<(Seq<char>, TextStyle)> {
    let cs = styled_chars(v);
    let plain = plain_of(v);
    if plain.len() == 0 || kw.len() == 0 {
        v
    } else {
        let h = hits(folds(plain), folds(kw));
        Seq::new(cs.len(), |i: int| (seq![cs[i].0], if i < h.len() && h[i] { hl } else { cs[i].1 }))
    }
}

proof fn lemma_hit_scan_len<T>(t: Seq<T>, k: Seq<T>, i: int)
    requires
        0 <= i <= t.len(),
    ensures
        hit_scan(t, k, i).len() == t.len() - i,
    decreases t.len() - i,
{
    if i >= t.len() || k.len() == 0 {
    } else if i + k.len() <= t.len() && t.subrange(i, i + k.len()) == k {
        lemma_hit_scan_len(t, k, i + k.len());
    } else {
        lemma_hit_scan_len(t, k, i + 1);
    }
}

/// The lower-case form of a character.
fn fold_char(c: char) -> (s: String)
    ensures
        s@ == fold_of(c),
{
    let mut one = String::new();
    push_char(&mut one, c);
    assert(one@ =~= seq![c]);
    lowercase(one.as_str())
}

/// The lower-case forms of the characters, one per character.
pub fn fold_all(cs: &Vec<char>) -> (r: Vec<String>)
    ensures
        views(r@) == folds(cs@),
{
    let mut r: Vec<String> = Vec::new();
    let mut i: usize = 0;
    while i < cs.len()
        invariant
            0 <= i <= cs@.len(),
            views(r@) == folds(cs@.take(i as int)),
        decreases cs@.len() - i,
    {
        let f = fold_char(cs[i]);
        let ghost before = r@;
        r.push(f);
        proof {
            assert(views(r@) =~= views(before).push(f@));
            assert(folds(cs@.take(i + 1)) =~= folds(cs@.take(i as int)).push(fold_of(cs@[i as int])));
        }
        i += 1;
    }
    proof {
        assert(cs@.take(cs@.len() as int) =~= cs@);
    }
    r
}

/// Whether the strings `p` occur in `t` at `at`.
fn strings_match_at(t: &Vec<String>, at: usize, p: &Vec<String>) -> (r: bool)
    requires
        at <= t@.len(),
    ensures
        r == (p@.len() <= t@.len() - at && views(t@).subrange(at as int, at + p@.len()) == views(p@)),
{
    if p.len() > t.len() - at {
        return false;
    }
    let mut i: usize = 0;
    while i < p.len()
        invariant
            0 <= i <= p@.len(),
            at + p@.len() <= t@.len(),
            p.len() <= t.len() - at,
            forall|k: int| 0 <= k < i ==> t@[at + k]@ == p@[k]@,
        decreases p@.len() - i,
    {
        if !crate::text::str_eq(t[at + i].as_str(), p[i].as_str()) {
            proof {
                assert(views(t@).subrange(at as int, at + p@.len())[i as int] != views(p@)[i as int]);
            }
            return false;
        }
        i += 1;
    }
    proof {
        assert(views(t@).subrange(at as int, at + p@.len()) =~= views(p@));
    }
    true
}

/// The hit marks of `k` in `t`, compared by their strings (see `hits`).
pub fn hit_marks(t: &Vec<String>, k: &Vec<String>) -> (r: Vec<bool>)
    requires
        k@.len() > 0,
    ensures
        r@ == hits(views(t@), views(k@)),
{
    let ghost tv = views(t@);
    let ghost kv = views(k@);
    let n = t.len();
    let m = k.len();
    let mut r: Vec<bool> = Vec::new();
    let mut i: usize = 0;
    proof {
        lemma_hit_scan_len(tv, kv, 0);
    }
    while i < n
        invariant
            n == t@.len(),
            m == k@.len(),
            tv == views(t@),
            kv == views(k@),
            tv.len() == n,
            kv.len() == m,
            m > 0,
            0 <= i <= n,
            r@ + hit_scan(tv, kv, i as int) == hits(tv, kv),
        decreases n - i,
    {
        let ghost before = r@;
        if strings_match_at(t, i, k) {
            let mut j: usize = 0;
            while j < m
                invariant
                    0 <= j <= m,
                    r@ == before + Seq::new(j as nat, |x: int| true),
                decreases m - j,
            {
                r.push(true);
                proof {
                    assert(before + Seq::new((j + 1) as nat, |x: int| true) =~= (before + Seq::new(j as nat, |x: int| true)).push(true));
                }
                j += 1;
            }
            proof {
                assert(hit_scan(tv, kv, i as int) == Seq::new(kv.len(), |x: int| true) + hit_scan(tv, kv, i + m));
                assert(r@ + hit_scan(tv, kv, i + m) =~= before + hit_scan(tv, kv, i as int));
            }
            i = i + m;
        } else {
            r.push(false);
            proof {
                assert(hit_scan(tv, kv, i as int) == seq![false] + hit_scan(tv, kv, i + 1));
                assert(r@ + hit_scan(tv, kv, i + 1) =~= before + hit_scan(tv, kv, i as int));
            }
            i = i + 1;
        }
    }
    proof {
        assert(hit_scan(tv, kv, n as int) =~= Seq::<bool>::empty());
        assert(r@ + Seq::<bool>::empty() =~= r@);
    }
    r
}

/// Highlights the keyword in styled runs (see `highlighted`).
pub fn highlight_keyword(spans: Vec<StyledSpan>, kw: &str, hl: TextStyle) -> (r: Vec<StyledSpan>)
    ensures
        span_views(r@) == highlighted(span_views(spans@), kw@, hl),
{
    let cs = flatten(&spans);
    let ghost plain = plain_of(span_views(spans@));
    let mut p: Vec<char> = Vec::new();
    let mut i: usize = 0;
    while i < cs.len()
        invariant
            0 <= i <= cs@.len(),
            p@ == cs@.take(i as int).map_values(|x: (char, TextStyle)| x.0),
        decreases cs@.len() - i,
    {
        p.push(cs[i].0);
        proof {
            assert(cs@.take(i + 1).map_values(|x: (char, TextStyle)| x.0) =~= cs@.take(i as int).map_values(|x: (char, TextStyle)| x.0).push(cs@[i as int].0));
        }
        i += 1;
    }
    proof {
        assert(cs@.take(cs@.len() as int) =~= cs@);
        assert(p@ == plain);
    }
    if p.len() == 0 || kw.is_empty() {
        return spans;
    }
    let kc = chars_of(kw);
    let pf = fold_all(&p);
    let kf = fold_all(&kc);
    proof {
        assert(views(kf@).len() == kf@.len());
        assert(folds(kc@).len() == kc@.len());
    }
    let h = hit_marks(&pf, &kf);
    let ghost hs = hits(folds(plain), folds(kw@));
    let mut out: Vec<StyledSpan> = Vec::new();
    let mut j: usize = 0;
    while j < cs.len()
        invariant
            0 <= j <= cs@.len(),
            h@ == hs,
            span_views(out@) == Seq::new(j as nat, |x: int| (seq![cs@[x].0], if x < hs.len() && hs[x] { hl } else { cs@[x].1 })),
        decreases cs@.len() - j,
    {
        let (c, st) = cs[j];
        let style = if j < h.len() && h[j] { hl } else { st };
        let ghost before = span_views(out@);
        out.push(unit_span(c, style));
        proof {
            assert(span_views(out@) =~= before.push((seq![c], style)));
            assert(style == (if (j as int) < hs.len() && hs[j as int] { hl } else { cs@[j as int].1 }));
            assert(before.push((seq![c], style)) =~= Seq::new((j + 1) as nat, |x: int| (seq![cs@[x].0], if x < hs.len() && hs[x] { hl } else { cs@[x].1 })));
        }
        j += 1;
    }
    out
}

} // verus!

verus! {

/// Rows put back together.
pub open spec fn joined<T>(rows: Seq<Seq<T>>) -> Seq<T>
    decreases rows.len(),
{
    if rows.len() == 0 { Seq::empty() } else { joined(rows.drop_last()) + rows.last() }
}

proof fn lemma_joined_push_last<T>(rows: Seq<Seq<T>>, x: T)
    requires
        rows.len() > 0,
    ensures
        joined(rows.update(rows.len() - 1, rows.last().push(x))) == joined(rows).push(x),
{
    let r2 = rows.update(rows.len() - 1, rows.last().push(x));
    assert(r2.drop_last() =~= rows.drop_last());
}

proof fn lemma_fold_scan_joined(cs: Seq<(char, TextStyle)>, max_w: nat)
    ensures
        joined(fold_scan(cs, max_w).0) == cs,
    decreases cs.len(),
{
    if cs.len() == 0 {
        let r = fold_scan(cs, max_w).0;
        assert(r.drop_last() =~= Seq::<Seq<(char, TextStyle)>>::empty());
        assert(joined(Seq::<Seq<(char, TextStyle)>>::empty()) =~= Seq::empty());
        assert(r.last() =~= Seq::<(char, TextStyle)>::empty());
        assert(joined(r) =~= cs);
    } else {
        lemma_fold_scan_joined(cs.drop_last(), max_w);
        lemma_fold_scan_rows(cs.drop_last(), max_w);
        let p = fold_scan(cs.drop_last(), max_w);
        let x = cs.last();
        let w = cols_or_zero(x.0);
        let q0 = if p.1 + w > max_w && p.1 > 0 { p.0.push(Seq::empty()) } else { p.0 };
        if p.1 + w > max_w && p.1 > 0 {
            assert(p.0.push(Seq::empty()).drop_last() =~= p.0);
            assert(joined(q0) =~= joined(p.0));
        }
        lemma_joined_push_last(q0, x);
        assert(cs.drop_last().push(x) =~= cs);
    }
}

/// Folding styled text into rows loses nothing: the rows, put back
/// together, are the text, character by character with its styles.
pub proof fn law_wrap_keeps_text(cs: Seq<(char, TextStyle)>, max_w: nat)
    requires
        max_w > 0,
    ensures
        joined(folded(cs, max_w)) == cs,
{
    lemma_fold_scan_joined(cs, max_w);
}

proof fn lemma_units_chars(u: Seq<(Seq<char>, TextStyle)>)
    requires
        forall|i: int| 0 <= i < u.len() ==> (#[trigger] u[i]).0.len() == 1,
    ensures
        styled_chars(u) == Seq::new(u.len(), |i: int| (u[i].0[0], u[i].1)),
    decreases u.len(),
{
    if u.len() > 0 {
        let d = u.drop_last();
        assert forall|i: int| 0 <= i < d.len() implies (#[trigger] d[i]).0.len() == 1 by {
            assert(d[i] == u[i]);
        }
        lemma_units_chars(d);
        assert(u.last() == u[u.len() - 1]);
        assert(u.last().0 =~= seq![u.last().0[0]]);
        assert(styled_chars(u) =~= Seq::new(u.len(), |i: int| (u[i].0[0], u[i].1)));
    }
}

/// Highlighting changes only styles: the text of the runs stays the same.
pub proof fn law_highlight_keeps_text(v: Seq<(Seq<char>, TextStyle)>, kw: Seq<char>, hl: TextStyle)
    ensures
        plain_of(highlighted(v, kw, hl)) == plain_of(v),
{
    let cs = styled_chars(v);
    let plain = plain_of(v);
    if !(plain.len() == 0 || kw.len() == 0) {
        let h = hits(folds(plain), folds(kw));
        let u = highlighted(v, kw, hl);
        assert forall|i: int| 0 <= i < u.len() implies (#[trigger] u[i]).0.len() == 1 by {}
        lemma_units_chars(u);
        assert(plain_of(u) =~= plain_of(v));
    }
}

} // verus!
