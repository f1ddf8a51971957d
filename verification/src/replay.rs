//! Reading back log files: what each recorded line replays as.
use vstd::prelude::*;
use crate::escape::{hex_parsed, parse_hex, unescape, unescape_str};
use crate::logline::Dir;
use crate::text::{bytes_of, chars_of, chars_contain, concat, contains_seq, matches_at, starts_with, str_starts_with, string_of_range};

verus! {

broadcast use vstd::string::group_string_axioms;

/// The first position where `p` occurs in `t`, scanning from `i`.
pub open spec fn find_from(t: Seq<char>, p: Seq<char>, i: int) -> Option<int>
    decreases t.len() + 1 - i,
{
    if i < 0 || i + p.len() > t.len() {
        None
    } else if t.subrange(i, i + p.len()) == p {
        Some(i)
    } else {
        find_from(t, p, i + 1)
    }
}

/// What follows the first `"] "` in `t`, if it occurs.
pub open spec fn after_bracket(t: Seq<char>) -> Option<Seq<char>> {
    match find_from(t, "] "@, 0) {
        Some(k) => Some(t.skip(k + 2)),
        None => None,
    }
}

/// The body of a log line `[time] [TAG] body`: what follows the second
/// `"] "`, if there is one.
pub open spec fn line_body(t: Seq<char>) -> Option<Seq<char>> {
    match after_bracket(t) {
        Some(a) => after_bracket(a),
        None => None,
    }
}

/// The direction recorded in a log line, by the first tag column found in
/// the order TX, RX, SYS, ERR.
pub open spec fn line_tag(t: Seq<char>) -> Option<Dir> {
    if contains_seq(t, "[TX ]"@) {
        Some(Dir::Tx)
    } else if contains_seq(t, "[RX ]"@) {
        Some(Dir::Rx)
    } else if contains_seq(t, "[SYS]"@) {
        Some(Dir::Sys)
    } else if contains_seq(t, "[ERR]"@) {
        Some(Dir::Error)
    } else {
        None
    }
}

/// What replaying one log line does: the line echoed to the output, if
/// any, and the bytes sent to the port (none when empty).
pub struct ReplayRecord {
    pub echo: Option<(Dir, String)>,
    pub send: Vec<u8>,
}

/// The bytes a replayed TX body sends: the bytes of a `(HEX) ` body (none
/// when they do not parse), otherwise the UTF-8 of the body with its
/// escape sequences undone.
pub open spec fn tx_bytes(body: Seq<char>) -> Seq<u8> {
    if starts_with(body, "(HEX) "@) {
        match hex_parsed(body.skip(6)) {
            Some(b) => b,
            None => Seq::empty(),
        }
    } else {
        vstd::utf8::encode_utf8(unescape(body))
    }
}

/// What replaying a log line does: TX lines are echoed and their bytes
/// sent, RX and ERR lines are echoed, SYS lines are echoed marked as
/// replayed; other lines do nothing. A line without a body has an empty one.
pub open spec fn replayed(t: Seq<char>, r: ReplayRecord) -> bool {
    let body = match line_body(t) {
        Some(b) => b,
        None => Seq::empty(),
    };
    match line_tag(t) {
        Some(Dir::Tx) => (r.echo matches Some(e) && e.0 == Dir::Tx && e.1@ == body) && r.send@ == tx_bytes(body),
        Some(Dir::Rx) => (r.echo matches Some(e) && e.0 == Dir::Rx && e.1@ == body) && r.send@.len() == 0,
        Some(Dir::Sys) => (r.echo matches Some(e) && e.0 == Dir::Sys && e.1@ == "(回放) "@ + body) && r.send@.len() == 0,
        Some(Dir::Error) => (r.echo matches Some(e) && e.0 == Dir::Error && e.1@ == body) && r.send@.len() == 0,
        None => r.echo is None && r.send@.len() == 0,
    }
}

proof fn lemma_find_from_bounds(t: Seq<char>, p: Seq<char>, i: int)
    ensures
        find_from(t, p, i) matches Some(k) ==> i <= k && k + p.len() <= t.len(),
    decreases t.len() + 1 - i,
{
    if i < 0 || i + p.len() > t.len() {
    } else if t.subrange(i, i + p.len()) == p {
    } else {
        lemma_find_from_bounds(t, p, i + 1);
    }
}

/// The position of the first `p` in `t` (see `find_from`).
fn find(t: &Vec<char>, p: &Vec<char>) -> (r: Option<usize>)
    ensures
        match find_from(t@, p@, 0) {
            Some(k) => r == Some(k as usize),
            None => r is None,
        },
{
    let n = t.len();
    let m = p.len();
    if m > n {
        return None;
    }
    let limit = n - m;
    let mut i: usize = 0;
    loop
        invariant
            n == t@.len(),
            m == p@.len(),
            m <= n,
            limit == n - m,
            0 <= i <= limit,
            find_from(t@, p@, 0) == find_from(t@, p@, i as int),
        decreases limit - i,
    {
        if matches_at(t, i, p) {
            return Some(i);
        }
        if i == limit {
            proof {
                assert(find_from(t@, p@, i + 1) is None);
                assert(find_from(t@, p@, i as int) == find_from(t@, p@, i + 1));
            }
            return None;
        }
        i += 1;
    }
}

/// What follows the first `"] "` in `t[from..]`, as a start position.
fn after_bracket_at(t: &Vec<char>, from: usize) -> (r: Option<usize>)
    requires
        from <= t@.len(),
    ensures
        match after_bracket(t@.skip(from as int)) {
            Some(a) => r matches Some(k) && from <= k <= t@.len() && t@.skip(k as int) == a,
            None => r is None,
        },
{
    let rest = {
        let mut v: Vec<char> = Vec::new();
        let mut i = from;
        while i < t.len()
            invariant
                from <= i <= t@.len(),
                v@ == t@.subrange(from as int, i as int),
            decreases t@.len() - i,
        {
            v.push(t[i]);
            assert(v@ =~= t@.subrange(from as int, i + 1));
            i += 1;
        }
        assert(v@ =~= t@.skip(from as int));
        v
    };
    let pat = chars_of("] ");
    proof {
        reveal_strlit("] ");
    }
    proof {
        lemma_find_from_bounds(rest@, pat@, 0);
    }
    match find(&rest, &pat) {
        Some(k) => {
            proof {
                assert(rest@.skip(k + 2) =~= t@.skip(from + k + 2));
            }
            Some(from + k + 2)
        },
        None => None,
    }
}

/// What replaying a log line does (see `replayed`).
pub fn replay_record(line: &str) -> (r: ReplayRecord)
    ensures
        replayed(line@, r),
{
    let t = chars_of(line);
    let body = match after_bracket_at(&t, 0) {
        Some(a) => {
            proof {
                assert(t@.skip(0) =~= t@);
            }
            match after_bracket_at(&t, a) {
                Some(b) => string_of_range(&t, b, t.len()),
                None => String::new(),
            }
        },
        None => {
            proof {
                assert(t@.skip(0) =~= t@);
            }
            String::new()
        },
    };
    proof {
        assert(t@.subrange(0, t@.len() as int) =~= t@);
    }
    let ghost bv = match line_body(line@) {
        Some(b) => b,
        None => Seq::<char>::empty(),
    };
    assert(body@ =~= bv);
    let tx = chars_of("[TX ]");
    let rx = chars_of("[RX ]");
    let sy = chars_of("[SYS]");
    let er = chars_of("[ERR]");
    if chars_contain(&t, &tx) {
        let send = if str_starts_with(body.as_str(), "(HEX) ") {
            let bc = chars_of(body.as_str());
            proof {
                reveal_strlit("(HEX) ");
            }
            let h = string_of_range(&bc, 6, bc.len());
            assert(h@ =~= body@.skip(6));
            match parse_hex(h.as_str()) {
                Some(b) => b,
                None => Vec::new(),
            }
        } else {
            bytes_of(unescape_str(body.as_str()).as_str())
        };
        ReplayRecord { echo: Some((Dir::Tx, body)), send }
    } else if chars_contain(&t, &rx) {
        ReplayRecord { echo: Some((Dir::Rx, body)), send: Vec::new() }
    } else if chars_contain(&t, &sy) {
        ReplayRecord { echo: Some((Dir::Sys, concat("(回放) ", body.as_str()))), send: Vec::new() }
    } else if chars_contain(&t, &er) {
        ReplayRecord { echo: Some((Dir::Error, body)), send: Vec::new() }
    } else {
        ReplayRecord { echo: None, send: Vec::new() }
    }
}

} // verus!
