//! Splitting the decoded serial stream into log lines.
use std::time::{Duration, Instant};
use vstd::prelude::*;
use crate::text::{chars_of, pop_char, push_char};

verus! {

#[verifier::external_type_specification]
#[verifier::external_body]
pub struct ExInstant(Instant);

/// Reads the monotonic clock (std's `Instant::now`). Nothing is stated of the
/// value: it depends on when the call is made.
#[verifier::external_body]
fn instant_now() -> Instant {
    Instant::now()
}

/// The time from `earlier` to `later`, zero when `later` is earlier (std's
/// `Instant::saturating_duration_since`). Instants and durations are opaque
/// here, so nothing is stated of the result.
#[verifier::external_body]
fn saturating_duration_since(later: Instant, earlier: Instant) -> Duration {
    later.saturating_duration_since(earlier)
}

/// Whole milliseconds in a duration (std's `Duration::as_millis`). The duration
/// is opaque here, so nothing is stated of the count.
#[verifier::external_body]
fn duration_millis(d: Duration) -> u128 {
    d.as_millis()
}

/// Direction / origin of a log line.
#[derive(Debug, Clone, Copy, PartialEq, Eq, Structural)]
pub enum Dir {
    Rx,
    Tx,
    Sys,
    Error,
}

/// One formatted output line.
#[derive(Debug, Clone)]
pub struct LogLine {
    pub ts: Option<String>,
    pub dir: Dir,
    pub body: String,
}

/// A pending half line is flushed once it reaches this many UTF-8 bytes.
pub const MAX_PENDING: usize = 16384;

/// `line` without one trailing carriage return.
pub open spec fn strip_cr(line: Seq<char>) -> Seq<char> {
    if line.len() > 0 && line.last() == '\r' {
        line.drop_last()
    } else {
        line
    }
}

/// Feeding the characters `t` to a splitter that has already emitted `lines`
/// and holds the unfinished line `cur`: every `'\n'` closes the current line
/// (dropping one trailing `'\r'`), every other character extends it.
pub open spec fn feed(lines: Seq<Seq<char>>, cur: Seq<char>, t: Seq<char>) -> (Seq<Seq<char>>, Seq<char>)
    decreases t.len(),
{
    if t.len() == 0 {
        (lines, cur)
    } else {
        let prev = feed(lines, cur, t.drop_last());
        if t.last() == '\n' {
            (prev.0.push(strip_cr(prev.1)), Seq::empty())
        } else {
            (prev.0, prev.1.push(t.last()))
        }
    }
}

/// The complete lines produced when `t` arrives after the unfinished line `cur`.
pub open spec fn lines_after(cur: Seq<char>, t: Seq<char>) -> Seq<Seq<char>> {
    feed(Seq::empty(), cur, t).0
}

/// The unfinished line left over when `t` arrives after the unfinished line `cur`.
pub open spec fn rest_after(cur: Seq<char>, t: Seq<char>) -> Seq<char> {
    feed(Seq::empty(), cur, t).1
}

/// Number of UTF-8 bytes that encode `s`, as std's `str::len` reports it.
pub open spec fn utf8_len(s: Seq<char>) -> usize {
    vstd::utf8::encode_utf8(s).len() as usize
}

/// The string views of a vector of strings.
pub open spec fn views(v: Seq<String>) -> Seq<Seq<char>> {
    v.map_values(|s: String| s@)
}

/// Line assembler: cuts the serial character stream at line feeds into log
/// lines, holds the unfinished line as `pending` and flushes it when stale.
pub struct LineAssembler {
    pending: String,
    /// When output was last produced (a complete line cut or pending flushed).
    last_flushed: Instant,
    /// Pending is flushed once it reaches this many bytes, even when not stale.
    max_pending: usize,
}

impl LineAssembler {
    #[verifier::type_invariant]
    spec fn inv(self) -> bool {
        !self.pending@.contains('\n')
    }

    /// The unfinished line held back.
    pub closed spec fn pending(self) -> Seq<char> {
        self.pending@
    }

    /// When output was last produced.
    pub closed spec fn last_flushed(self) -> Instant {
        self.last_flushed
    }

    /// The byte length at which pending is flushed regardless of age.
    pub closed spec fn max_pending(self) -> nat {
        self.max_pending as nat
    }

    pub fn new() -> (a: Self)
        ensures
            a.pending() == Seq::<char>::empty(),
            a.max_pending() == MAX_PENDING,
    {
        LineAssembler { pending: String::new(), last_flushed: instant_now(), max_pending: MAX_PENDING }
    }

    /// Feeds decoded text; returns the lines completed by it (without line ends).
    pub fn push(&mut self, text: &str, now: Instant) -> (out: Vec<String>)
        ensures
            views(out@) == lines_after(old(self).pending(), text@),
            final(self).pending() == rest_after(old(self).pending(), text@),
            final(self).max_pending() == old(self).max_pending(),
            !final(self).pending().contains('\n'),
            final(self).last_flushed() == if text@.contains('\n') {
                now
            } else {
                old(self).last_flushed()
            },
    {
        proof {
            use_type_invariant(&*self);
        }
        let ghost p0 = self.pending@;
        let chars = chars_of(text);
        let mut cur = String::new();
        std::mem::swap(&mut cur, &mut self.pending);
        let mut out: Vec<String> = Vec::new();
        let mut saw_newline = false;
        let mut i: usize = 0;
        proof {
            assert(chars@.take(0) =~= Seq::<char>::empty());
            assert(views(out@) =~= Seq::<Seq<char>>::empty());
        }
        while i < chars.len()
            invariant
                0 <= i <= chars@.len(),
                chars@ == text@,
                (views(out@), cur@) == feed(Seq::empty(), p0, chars@.take(i as int)),
                saw_newline == chars@.take(i as int).contains('\n'),
            decreases chars@.len() - i,
        {
            let c = chars[i];
            let ghost t = chars@.take(i + 1);
            proof {
                assert(t.drop_last() =~= chars@.take(i as int));
                assert(t.last() == c);
            }
            if c == '\n' {
                let ghost cv = cur@;
                let mut line = String::new();
                std::mem::swap(&mut line, &mut cur);
                let last = pop_char(&mut line);
                match last {
                    Some(l) => {
                        if l != '\r' {
                            push_char(&mut line, l);
                        }
                    },
                    None => {},
                }
                assert(line@ =~= strip_cr(cv));
                out.push(line);
                saw_newline = true;
                proof {
                    assert(views(out@) =~= feed(Seq::empty(), p0, chars@.take(i as int)).0.push(line@));
                    assert(t.contains('\n')) by {
                        assert(t[i as int] == '\n');
                    }
                }
            } else {
                push_char(&mut cur, c);
                proof {
                    assert(t =~= chars@.take(i as int).push(c));
                    if t.contains('\n') {
                        let k = choose|k: int| 0 <= k < t.len() && t[k] == '\n';
                        assert(chars@.take(i as int)[k] == '\n');
                    }
                }
            }
            i += 1;
        }
        proof {
            assert(chars@.take(chars@.len() as int) =~= chars@);
            lemma_feed_rest_has_no_newline(p0, text@);
        }
        self.pending = cur;
        if saw_newline {
            self.last_flushed = now;
        }
        out
    }

    /// Hands out the pending half line when it is stale: `elapsed_ms`
    /// milliseconds have passed since output was last produced and that is at
    /// least `flush_ms`, or it has reached the byte limit. Otherwise nothing.
    pub fn take_pending_after(&mut self, flush_ms: u64, elapsed_ms: u64, now: Instant) -> (r: Option<String>)
        ensures
            old(self).pending().len() == 0 ==> r is None && *final(self) == *old(self),
            old(self).pending().len() > 0 && (elapsed_ms >= flush_ms || utf8_len(old(self).pending()) >= old(self).max_pending())
                ==> (r matches Some(s) && s@ == old(self).pending()
                    && final(self).pending() == Seq::<char>::empty()
                    && final(self).last_flushed() == now
                    && final(self).max_pending() == old(self).max_pending()),
            old(self).pending().len() > 0 && !(elapsed_ms >= flush_ms || utf8_len(old(self).pending()) >= old(self).max_pending())
                ==> r is None && *final(self) == *old(self),
    {
        proof {
            use_type_invariant(&*self);
        }
        if self.pending.as_str().is_empty() {
            return None;
        }
        let idle = elapsed_ms >= flush_ms;
        let overlong = self.pending.as_str().len() >= self.max_pending;
        if idle || overlong {
            self.last_flushed = now;
            let mut taken = String::new();
            std::mem::swap(&mut taken, &mut self.pending);
            Some(taken)
        } else {
            None
        }
    }

    /// Flushes pending data when output has not been produced for `flush_ms`
    /// milliseconds before `now`, or when pending has reached the byte limit.
    pub fn take_pending_if_stale(&mut self, flush_ms: u64, now: Instant) -> (r: Option<String>)
        ensures
            old(self).pending().len() == 0 ==> r is None && *final(self) == *old(self),
            old(self).pending().len() > 0 && utf8_len(old(self).pending()) >= old(self).max_pending()
                ==> (r matches Some(s) && s@ == old(self).pending()
                    && final(self).pending() == Seq::<char>::empty()
                    && final(self).last_flushed() == now),
            r matches Some(s) ==> s@ == old(self).pending() && old(self).pending().len() > 0
                && final(self).pending() == Seq::<char>::empty()
                && final(self).last_flushed() == now
                && final(self).max_pending() == old(self).max_pending(),
            r is None ==> *final(self) == *old(self),
    {
        let elapsed = duration_millis(saturating_duration_since(now, self.last_flushed));
        let elapsed_ms = elapsed as u64;
        self.take_pending_after(flush_ms, elapsed_ms, now)
    }
}

impl Default for LineAssembler {
    fn default() -> (a: Self)
        ensures
            a.pending() == Seq::<char>::empty(),
            a.max_pending() == MAX_PENDING,
    {
        Self::new()
    }
}

/// Feeding from a state with earlier lines only appends to them.
proof fn lemma_feed_prefix(lines: Seq<Seq<char>>, cur: Seq<char>, t: Seq<char>)
    ensures
        feed(lines, cur, t).0 == lines + feed(Seq::empty(), cur, t).0,
        feed(lines, cur, t).1 == feed(Seq::empty(), cur, t).1,
    decreases t.len(),
{
    if t.len() > 0 {
        lemma_feed_prefix(lines, cur, t.drop_last());
        let a = feed(lines, cur, t.drop_last());
        let b = feed(Seq::empty(), cur, t.drop_last());
        if t.last() == '\n' {
            assert(a.0.push(strip_cr(a.1)) =~= lines + b.0.push(strip_cr(b.1)));
        }
    }
}

/// Feeding `a + b` is feeding `a` and then `b`.
proof fn lemma_feed_append(lines: Seq<Seq<char>>, cur: Seq<char>, a: Seq<char>, b: Seq<char>)
    ensures
        feed(lines, cur, a + b) == feed(feed(lines, cur, a).0, feed(lines, cur, a).1, b),
    decreases b.len(),
{
    if b.len() == 0 {
        assert(a + b =~= a);
    } else {
        assert((a + b).drop_last() =~= a + b.drop_last());
        assert((a + b).last() == b.last());
        lemma_feed_append(lines, cur, a, b.drop_last());
    }
}

/// Chunking does not matter: pushing `a` and then `b` yields the same lines,
/// in the same order, and leaves the same half line as pushing `a + b` at once.
/// A line split across serial chunks comes out whole.
pub proof fn law_chunking_is_invisible(pending: Seq<char>, a: Seq<char>, b: Seq<char>)
    ensures
        lines_after(pending, a + b) == lines_after(pending, a) + lines_after(rest_after(pending, a), b),
        rest_after(pending, a + b) == rest_after(rest_after(pending, a), b),
{
    lemma_feed_append(Seq::empty(), pending, a, b);
    let m = feed(Seq::empty(), pending, a);
    lemma_feed_prefix(m.0, m.1, b);
}

/// No emitted line holds a line feed.
pub proof fn law_lines_have_no_newline(pending: Seq<char>, t: Seq<char>)
    requires
        !pending.contains('\n'),
    ensures
        forall|i: int| 0 <= i < lines_after(pending, t).len() ==> !(#[trigger] lines_after(pending, t)[i]).contains('\n'),
    decreases t.len(),
{
    if t.len() > 0 {
        law_lines_have_no_newline(pending, t.drop_last());
        lemma_feed_rest_has_no_newline(pending, t.drop_last());
        let prev = feed(Seq::empty(), pending, t.drop_last());
        if t.last() == '\n' {
            assert(lines_after(pending, t) == prev.0.push(strip_cr(prev.1)));
            assert forall|i: int| 0 <= i < lines_after(pending, t).len() implies !(#[trigger] lines_after(pending, t)[i]).contains('\n') by {
                if i == prev.0.len() {
                    assert(lines_after(pending, t)[i] == strip_cr(prev.1));
                    if strip_cr(prev.1).contains('\n') {
                        let k = choose|k: int| 0 <= k < strip_cr(prev.1).len() && strip_cr(prev.1)[k] == '\n';
                        assert(prev.1[k] == '\n');
                    }
                } else {
                    assert(lines_after(pending, t)[i] == prev.0[i]);
                    assert(prev.0[i] == lines_after(pending, t.drop_last())[i]);
                }
            }
        } else {
            assert(lines_after(pending, t) == prev.0);
            assert(prev.0 == lines_after(pending, t.drop_last()));
        }
    } else {
        assert(lines_after(pending, t).len() == 0);
    }
}

/// Number of line feeds in `t`.
pub open spec fn newline_count(t: Seq<char>) -> nat
    decreases t.len(),
{
    if t.len() == 0 {
        0
    } else {
        newline_count(t.drop_last()) + if t.last() == '\n' { 1nat } else { 0nat }
    }
}

/// Every line feed closes exactly one line.
pub proof fn law_one_line_per_newline(pending: Seq<char>, t: Seq<char>)
    ensures
        lines_after(pending, t).len() == newline_count(t),
    decreases t.len(),
{
    if t.len() > 0 {
        law_one_line_per_newline(pending, t.drop_last());
    }
}

/// The unfinished line after feeding never holds a line feed when it did not before.
proof fn lemma_feed_rest_has_no_newline(cur: Seq<char>, t: Seq<char>)
    requires
        !cur.contains('\n'),
    ensures
        !rest_after(cur, t).contains('\n'),
    decreases t.len(),
{
    if t.len() > 0 {
        lemma_feed_rest_has_no_newline(cur, t.drop_last());
        let prev = feed(Seq::empty(), cur, t.drop_last());
        if t.last() != '\n' {
            assert(!prev.1.push(t.last()).contains('\n')) by {
                if prev.1.push(t.last()).contains('\n') {
                    let k = choose|k: int| 0 <= k < prev.1.push(t.last()).len() && prev.1.push(t.last())[k] == '\n';
                    assert(prev.1[k] == '\n');
                }
            }
        } else {
            assert(!Seq::<char>::empty().contains('\n'));
        }
    }
}

} // verus!
