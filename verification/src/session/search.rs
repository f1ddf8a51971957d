//! Searching the output and stepping through the matches.
use vstd::prelude::*;
use super::{OutputArea, SearchState, Session, Stamp};
use super::view::{rows_before, sat};
use crate::logline::{Dir, LogLine};
use crate::port::{join, join_strings};
use crate::text::{
    chars_contain, chars_of, concat, contains_seq, dec, dec_string, lowercase, lowercased, owned,
    parse_dec, parse_dec_str, push_str, split_words, str_eq, trim, trim_string, words,
};

verus! {

broadcast use vstd::string::group_string_axioms;

/// The indices, ascending, of the first `n` lines whose lower-cased body
/// contains `kw`.
pub open spec fn matches_upto(lines: Seq<LogLine>, kw: Seq<char>, n: int) -> Seq<usize>
    decreases n,
{
    if n <= 0 {
        Seq::empty()
    } else {
        let p = matches_upto(lines, kw, n - 1);
        if contains_seq(lowercased(lines[n - 1].body@), kw) { p.push((n - 1) as usize) } else { p }
    }
}

/// The indices of the lines whose lower-cased body contains `kw`.
pub open spec fn matching_lines(lines: Seq<LogLine>, kw: Seq<char>) -> Seq<usize> {
    matches_upto(lines, kw, lines.len() as int)
}

/// Whether a search argument asks to clear the search.
pub open spec fn is_search_off(arg: Seq<char>) -> bool {
    let t = trim(arg);
    t.len() == 0 || t == "off"@ || t == "clear"@ || t == "none"@
}

/// The keyword and the match (counted from 0) a search argument asks for:
/// a last word that is a number picks the n-th match (from 1) and the words
/// before it, joined by spaces, are the keyword; otherwise the trimmed
/// argument is the keyword and the first match is wanted.
pub open spec fn search_target(arg: Seq<char>) -> (Seq<char>, nat) {
    let parts = words(arg);
    if parts.len() >= 2 && parse_dec(parts.last(), usize::MAX as nat) is Some {
        let n = parse_dec(parts.last(), usize::MAX as nat)->0;
        (join(parts.drop_last(), " "@), if n >= 1 { (n - 1) as nat } else { 0 })
    } else {
        (trim(arg), 0)
    }
}

/// The message naming how many lines matched and which one is shown.
pub open spec fn found_msg(n: nat, kw: Seq<char>, target: nat) -> Seq<char> {
    "找到 "@ + dec(n) + " 条包含 \""@ + kw + "\"，已定位到第 "@ + dec(target + 1) + " / "@ + dec(n) + " 条（↑↓ 切换）"@
}

/// The outcome of `:search <arg>` / `:find <arg>`.
pub open spec fn search_done(s0: Session, s1: Session, arg: Seq<char>, stamp: Stamp) -> bool {
    if is_search_off(arg) {
        let had = s0.search.kw is Some;
        exists|m: Session|
            m == (Session {
                search: SearchState { kw: None, matches: m.search.matches, pos: 0 },
                out: OutputArea { render_w: if had { usize::MAX } else { s0.out.render_w }, ..s0.out },
                ..s0
            })
            && m.search.matches@.len() == 0
            && m.said(s1, stamp, Dir::Sys, if had { "已清除搜索高亮"@ } else { "当前没有搜索高亮"@ })
    } else if s0.out.lines@.len() == 0 {
        s0.said(s1, stamp, Dir::Sys, "当前没有可搜索的日志"@)
    } else {
        let kw0 = search_target(arg).0;
        let target = search_target(arg).1;
        let ms = matching_lines(s0.out.lines@, lowercased(kw0));
        if ms.len() == 0 {
            exists|m: Session, m2: Session|
                s0.with_lines(m, stamp, seq![(Dir::Sys, "未找到包含 \""@ + kw0 + "\" 的内容"@)])
                && m2 == (Session {
                    search: SearchState { kw: None, matches: m2.search.matches, ..m.search },
                    out: OutputArea { render_w: usize::MAX, ..m.out },
                    ..m
                })
                && m2.search.matches@.len() == 0
                && s1 == m2.with_view(true, 0)
        } else if target >= ms.len() {
            s0.said(s1, stamp, Dir::Error,
                "序号 "@ + dec(target + 1) + " 超出范围（共 "@ + dec(ms.len()) + " 条匹配）"@)
        } else {
            exists|m: Session|
                m == (Session {
                    search: SearchState { kw: m.search.kw, matches: m.search.matches, pos: target as usize },
                    out: OutputArea {
                        render_w: usize::MAX,
                        follow: false,
                        view_top: sat(rows_before(s0.out.render_rows@, ms[target as int] as int)),
                        ..s0.out
                    },
                    ..s0
                })
                && (m.search.kw matches Some(k) && k@ == lowercased(kw0))
                && m.search.matches@ == ms
                && m.with_lines(s1, stamp, seq![(Dir::Sys, found_msg(ms.len(), kw0, target))])
        }
    }
}

/// The keyword and match a search argument asks for (see `search_target`).
pub fn search_target_of(arg: &str) -> (r: (String, usize))
    ensures
        r.0@ == search_target(arg@).0,
        r.1 as nat == search_target(arg@).1,
{
    let parts = split_words(arg);
    let ghost ws = parts@.map_values(|w: String| w@);
    let n = parts.len();
    if n >= 2 {
        proof {
            assert(ws.last() == parts@[n - 1]@);
        }
        match parse_dec_str(parts[n - 1].as_str(), usize::MAX as u64) {
            Some(v) => {
                let mut head: Vec<String> = Vec::new();
                let mut i: usize = 0;
                while i < n - 1
                    invariant
                        n == parts@.len(),
                        n >= 2,
                        0 <= i <= n - 1,
                        head@.map_values(|w: String| w@) == ws.take(i as int),
                        ws == parts@.map_values(|w: String| w@),
                    decreases n - 1 - i,
                {
                    let ghost before = head@.map_values(|w: String| w@);
                    head.push(parts[i].clone());
                    proof {
                        assert(head@.map_values(|w: String| w@) =~= before.push(parts@[i as int]@));
                        assert(ws.take(i + 1) =~= ws.take(i as int).push(ws[i as int]));
                    }
                    i += 1;
                }
                proof {
                    assert(ws.take((n - 1) as int) =~= ws.drop_last());
                }
                let kw = join_strings(&head, " ");
                let t = if v >= 1 { (v - 1) as usize } else { 0 };
                return (kw, t);
            },
            None => {},
        }
    }
    (trim_string(arg), 0)
}

impl Session {
    /// The indices of the lines whose lower-cased body contains `kw`.
    pub fn matching(&self, kw: &String) -> (r: Vec<usize>)
        ensures
            r@ == matching_lines(self.out.lines@, kw@),
    {
        let k = chars_of(kw.as_str());
        let mut r: Vec<usize> = Vec::new();
        let mut i: usize = 0;
        while i < self.out.lines.len()
            invariant
                0 <= i <= self.out.lines@.len(),
                k@ == kw@,
                r@ == matches_upto(self.out.lines@, kw@, i as int),
            decreases self.out.lines@.len() - i,
        {
            let low = lowercase(self.out.lines[i].body.as_str());
            let lc = chars_of(low.as_str());
            if chars_contain(&lc, &k) {
                r.push(i);
            }
            i += 1;
        }
        r
    }

    /// `:search <keyword> [n]`: highlights the keyword and shows its n-th
    /// matching line; `off`, `clear`, `none` or nothing clears the search
    /// (see `search_done`).
    pub fn search_output(&mut self, arg: &str, stamp: &Stamp)
        requires
            old(self).wf(),
        ensures
            final(self).wf(),
            search_done(*old(self), *final(self), arg@, *stamp),
    {
        let t = trim_string(arg);
        if t.as_str().is_empty() || str_eq(t.as_str(), "off") || str_eq(t.as_str(), "clear") || str_eq(t.as_str(), "none") {
            let had = self.search.kw.is_some();
            self.search.kw = None;
            self.search.matches.clear();
            self.search.pos = 0;
            if had {
                self.out.render_w = usize::MAX;
            }
            let ghost m = *self;
            assert(m == (Session {
                search: SearchState { kw: None, matches: m.search.matches, pos: 0 },
                out: OutputArea { render_w: if had { usize::MAX } else { old(self).out.render_w }, ..old(self).out },
                ..*old(self)
            }));
            if had {
                self.say(Dir::Sys, owned("已清除搜索高亮"), stamp);
            } else {
                self.say(Dir::Sys, owned("当前没有搜索高亮"), stamp);
            }
            assert(m.said(*self, *stamp, Dir::Sys, if had { "已清除搜索高亮"@ } else { "当前没有搜索高亮"@ }));
            return;
        }
        if self.out.lines.len() == 0 {
            self.say(Dir::Sys, owned("当前没有可搜索的日志"), stamp);
            return;
        }
        let (keyword, target) = search_target_of(arg);
        let kw = lowercase(keyword.as_str());
        let ms = self.matching(&kw);
        if ms.len() == 0 {
            let mut msg = concat("未找到包含 \"", keyword.as_str());
            push_str(&mut msg, "\" 的内容");
            self.push_line(Dir::Sys, msg, stamp);
            let ghost m = *self;
            self.search.kw = None;
            self.search.matches.clear();
            self.out.render_w = usize::MAX;
            let ghost m2 = *self;
            self.goto_bottom();
            assert(old(self).with_lines(m, *stamp, seq![(Dir::Sys, "未找到包含 \""@ + keyword@ + "\" 的内容"@)]));
            assert(m2 == (Session {
                search: SearchState { kw: None, matches: m2.search.matches, ..m.search },
                out: OutputArea { render_w: usize::MAX, ..m.out },
                ..m
            }));
            assert(*self == m2.with_view(true, 0));
            return;
        }
        if target >= ms.len() {
            let mut msg = concat("序号 ", dec_string(target as u64 + 1).as_str());
            push_str(&mut msg, " 超出范围（共 ");
            push_str(&mut msg, dec_string(ms.len() as u64).as_str());
            push_str(&mut msg, " 条匹配）");
            self.say(Dir::Error, msg, stamp);
            return;
        }
        let line = ms[target];
        let top = self.render_top_of(line);
        let n = ms.len();
        self.search.kw = Some(kw);
        self.search.matches = ms;
        self.search.pos = target;
        self.out.render_w = usize::MAX;
        self.out.follow = false;
        self.out.view_top = top;
        let mut msg = concat("找到 ", dec_string(n as u64).as_str());
        push_str(&mut msg, " 条包含 \"");
        push_str(&mut msg, keyword.as_str());
        push_str(&mut msg, "\"，已定位到第 ");
        push_str(&mut msg, dec_string(target as u64 + 1).as_str());
        push_str(&mut msg, " / ");
        push_str(&mut msg, dec_string(n as u64).as_str());
        push_str(&mut msg, " 条（↑↓ 切换）");
        self.push_line(Dir::Sys, msg, stamp);
    }
}

/// The match position after one step forwards or backwards, cyclically.
pub open spec fn jump_pos(pos: usize, len: usize, forward: bool) -> usize
    recommends
        len > 0,
{
    let p = pos % len;
    if forward {
        if p + 1 == len { 0 } else { (p + 1) as usize }
    } else {
        if p == 0 { (len - 1) as usize } else { (p - 1) as usize }
    }
}

/// The outcome of stepping to the next (`forward`) or previous match.
pub open spec fn jumped(s0: Session, s1: Session, forward: bool, stamp: Stamp) -> bool {
    let len = s0.search.matches@.len();
    if len == 0 {
        s1 == s0
    } else {
        let p = jump_pos(s0.search.pos, len as usize, forward);
        let m = Session {
            search: SearchState { pos: p, ..s0.search },
            out: OutputArea {
                follow: false,
                view_top: sat(rows_before(s0.out.render_rows@, s0.search.matches@[p as int] as int)),
                ..s0.out
            },
            ..s0
        };
        m.with_lines(s1, stamp, seq![(Dir::Sys, "已定位到第 "@ + dec(p as nat + 1) + " / "@ + dec(len) + " 条"@)])
    }
}

impl Session {
    /// Steps to the next or previous match, cyclically, and shows its line.
    pub fn search_jump(&mut self, forward: bool, stamp: &Stamp)
        requires
            old(self).wf(),
        ensures
            final(self).wf(),
            jumped(*old(self), *final(self), forward, *stamp),
    {
        let len = self.search.matches.len();
        if len == 0 {
            return;
        }
        let p = self.search.pos % len;
        let np = if forward {
            if p + 1 == len { 0 } else { p + 1 }
        } else {
            if p == 0 { len - 1 } else { p - 1 }
        };
        self.search.pos = np;
        let line = self.search.matches[np];
        let top = self.render_top_of(line);
        self.out.follow = false;
        self.out.view_top = top;
        let mut msg = concat("已定位到第 ", dec_string(np as u64 + 1).as_str());
        push_str(&mut msg, " / ");
        push_str(&mut msg, dec_string(len as u64).as_str());
        push_str(&mut msg, " 条");
        self.push_line(Dir::Sys, msg, stamp);
    }
}

} // verus!

verus! {

/// Stepping to the next match and back returns to the match one started
/// from.
pub proof fn law_jump_forth_and_back(p: usize, n: usize)
    requires
        n > 0,
    ensures
        jump_pos(jump_pos(p, n, true), n, false) == p % n,
{
    let q = jump_pos(p, n, true);
    assert(q < n);
    assert(q % n == q) by (nonlinear_arith)
        requires q < n, n > 0;
}

/// The matches are exactly the lines whose lower-cased body contains the
/// keyword, in ascending order.
pub proof fn law_search_finds_exactly(lines: Seq<LogLine>, kw: Seq<char>)
    requires
        lines.len() <= usize::MAX,
    ensures
        forall|j: int| 0 <= j < matching_lines(lines, kw).len() ==> {
            let i = #[trigger] matching_lines(lines, kw)[j];
            i < lines.len() && contains_seq(lowercased(lines[i as int].body@), kw)
        },
        forall|i: int| 0 <= i < lines.len() && contains_seq(lowercased(lines[i].body@), kw)
            ==> #[trigger] matching_lines(lines, kw).contains(i as usize),
        forall|a: int, b: int| 0 <= a < b < matching_lines(lines, kw).len()
            ==> matching_lines(lines, kw)[a] < matching_lines(lines, kw)[b],
{
    lemma_matches_upto(lines, kw, lines.len() as int);
}

proof fn lemma_matches_upto(lines: Seq<LogLine>, kw: Seq<char>, n: int)
    requires
        0 <= n <= lines.len(),
        lines.len() <= usize::MAX,
    ensures
        forall|j: int| 0 <= j < matches_upto(lines, kw, n).len() ==> {
            let i = #[trigger] matches_upto(lines, kw, n)[j];
            i < n && contains_seq(lowercased(lines[i as int].body@), kw)
        },
        forall|i: int| 0 <= i < n && contains_seq(lowercased(lines[i].body@), kw)
            ==> #[trigger] matches_upto(lines, kw, n).contains(i as usize),
        forall|a: int, b: int| 0 <= a < b < matches_upto(lines, kw, n).len()
            ==> matches_upto(lines, kw, n)[a] < matches_upto(lines, kw, n)[b],
    decreases n,
{
    if n > 0 {
        lemma_matches_upto(lines, kw, n - 1);
        let p = matches_upto(lines, kw, n - 1);
        let q = matches_upto(lines, kw, n);
        let hit = contains_seq(lowercased(lines[n - 1].body@), kw);
        assert(q == if hit { p.push((n - 1) as usize) } else { p });
        assert forall|i: int| 0 <= i < n && contains_seq(lowercased(lines[i].body@), kw)
            implies #[trigger] q.contains(i as usize) by {
            if i < n - 1 {
                assert(p.contains(i as usize));
                let j = choose|j: int| 0 <= j < p.len() && p[j] == i as usize;
                assert(q[j] == p[j]);
            } else {
                assert(q[q.len() - 1] == (n - 1) as usize);
            }
        }
        assert forall|j: int| 0 <= j < q.len() implies {
            let i = #[trigger] q[j];
            i < n && contains_seq(lowercased(lines[i as int].body@), kw)
        } by {
            if j < p.len() {
                assert(q[j] == p[j]);
            }
        }
        assert forall|a: int, b: int| 0 <= a < b < q.len() implies q[a] < q[b] by {
            if b < p.len() {
                assert(q[a] == p[a] && q[b] == p[b]);
            } else {
                assert(q[a] == p[a]);
                assert(p[a] < n - 1);
            }
        }
    }
}

} // verus!

verus! {

/// Stepping to a match anchors the view at the first row drawn for the
/// matching line: the rows above the anchor are exactly the rows drawn for
/// the lines before it.
pub proof fn law_jump_anchors_match_line(s0: Session, s1: Session, forward: bool, stamp: Stamp)
    requires
        jumped(s0, s1, forward, stamp),
        s0.search.matches@.len() > 0,
        forall|k: int| 0 <= k < s0.search.matches@.len()
            ==> #[trigger] s0.search.matches@[k] <= s0.out.render_rows@.len(),
    ensures
        ({
            let p = jump_pos(s0.search.pos, s0.search.matches@.len() as usize, forward);
            let i = s0.search.matches@[p as int] as int;
            s1.out.view_top == sat(crate::session::render::flat_rows(s0.out.render_rows@.take(i)).len())
        }),
{
    let len = s0.search.matches@.len();
    let p = jump_pos(s0.search.pos, len as usize, forward);
    assert(p < len);
    let i = s0.search.matches@[p as int] as int;
    crate::session::render::lemma_rows_before_drawn(s0.out.render_rows@, i);
}

/// A search that finds its target match anchors the view at the first row
/// drawn for the matching line: the rows above the anchor are exactly the
/// rows drawn for the lines before it, and the view stops following.
pub proof fn law_search_anchors_match_line(s0: Session, s1: Session, arg: Seq<char>, stamp: Stamp)
    requires
        search_done(s0, s1, arg, stamp),
        !is_search_off(arg),
        s0.out.lines@.len() > 0,
        search_target(arg).1 < matching_lines(s0.out.lines@, lowercased(search_target(arg).0)).len(),
        matching_lines(s0.out.lines@, lowercased(search_target(arg).0))[search_target(arg).1 as int]
            <= s0.out.render_rows@.len(),
    ensures
        ({
            let ms = matching_lines(s0.out.lines@, lowercased(search_target(arg).0));
            let i = ms[search_target(arg).1 as int] as int;
            &&& s1.out.view_top == sat(crate::session::render::flat_rows(s0.out.render_rows@.take(i)).len())
            &&& !s1.out.follow
        }),
{
    let ms = matching_lines(s0.out.lines@, lowercased(search_target(arg).0));
    let i = ms[search_target(arg).1 as int] as int;
    crate::session::render::lemma_rows_before_drawn(s0.out.render_rows@, i);
}

} // verus!
