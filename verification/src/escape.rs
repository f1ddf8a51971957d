//! Text typed for sending: quoting, escape sequences and hexadecimal bytes.
use vstd::prelude::*;
use crate::text::{chars_of, push_char};

verus! {

broadcast use vstd::string::group_string_axioms;

/// The control character an escape letter stands for: `\r`, `\n`, `\t`.
pub open spec fn escaped(c: char) -> Option<char> {
    if c == 'r' {
        Some('\r')
    } else if c == 'n' {
        Some('\n')
    } else if c == 't' {
        Some('\t')
    } else {
        None
    }
}

/// `s` with each `\r`, `\n` and `\t` (backslash and letter) replaced by the
/// control character, left to right.
pub open spec fn unescape(s: Seq<char>) -> Seq<char>
    decreases s.len(),
{
    if s.len() == 0 {
        s
    } else if s.len() >= 2 && s[0] == '\\' && escaped(s[1]) is Some {
        seq![escaped(s[1])->0] + unescape(s.skip(2))
    } else {
        seq![s[0]] + unescape(s.drop_first())
    }
}

/// Replaces the escape sequences `\r`, `\n`, `\t` in `s`.
pub fn unescape_str(s: &str) -> (r: String)
    ensures
        r@ == unescape(s@),
{
    let t = chars_of(s);
    let n = t.len();
    let mut out = String::new();
    let mut i: usize = 0;
    proof {
        assert(t@.skip(0) =~= t@);
    }
    while i < n
        invariant
            n == t@.len(),
            t@ == s@,
            0 <= i <= n,
            out@ + unescape(t@.skip(i as int)) == unescape(s@),
        decreases n - i,
    {
        let ghost rest = t@.skip(i as int);
        let c = t[i];
        if c == '\\' && i + 1 < n && (t[i + 1] == 'r' || t[i + 1] == 'n' || t[i + 1] == 't') {
            let d = t[i + 1];
            let ctrl = if d == 'r' { '\r' } else if d == 'n' { '\n' } else { '\t' };
            proof {
                assert(rest[0] == c && rest[1] == d);
                assert(rest.skip(2) =~= t@.skip(i + 2));
                assert(unescape(rest) == seq![ctrl] + unescape(t@.skip(i + 2)));
            }
            let ghost o = out@;
            push_char(&mut out, ctrl);
            i += 2;
            proof {
                assert(out@ + unescape(t@.skip(i as int)) =~= o + (seq![ctrl] + unescape(t@.skip(i as int))));
            }
        } else {
            proof {
                assert(rest[0] == c);
                assert(rest.drop_first() =~= t@.skip(i + 1));
                if rest.len() >= 2 && rest[0] == '\\' && escaped(rest[1]) is Some {
                    assert(rest[1] == t@[i + 1]);
                }
                assert(unescape(rest) == seq![c] + unescape(t@.skip(i + 1)));
            }
            let ghost o = out@;
            push_char(&mut out, c);
            i += 1;
            proof {
                assert(out@ + unescape(t@.skip(i as int)) =~= o + (seq![c] + unescape(t@.skip(i as int))));
            }
        }
    }
    proof {
        assert(t@.skip(n as int) =~= Seq::<char>::empty());
        assert(out@ + Seq::<char>::empty() =~= out@);
    }
    out
}

/// `s` without leading double quotes.
pub open spec fn drop_quotes_front(s: Seq<char>) -> Seq<char>
    decreases s.len(),
{
    if s.len() > 0 && s[0] == '"' { drop_quotes_front(s.drop_first()) } else { s }
}

/// `s` without trailing double quotes.
pub open spec fn drop_quotes_back(s: Seq<char>) -> Seq<char>
    decreases s.len(),
{
    if s.len() > 0 && s.last() == '"' { drop_quotes_back(s.drop_last()) } else { s }
}

/// `s` without the double quotes at either end (std's `trim_matches('"')`).
pub open spec fn trim_quotes(s: Seq<char>) -> Seq<char> {
    drop_quotes_back(drop_quotes_front(s))
}

/// The bounds of `t` without the double quotes at either end.
pub fn quote_range(t: &Vec<char>) -> (r: (usize, usize))
    ensures
        r.0 <= r.1 <= t@.len(),
        t@.subrange(r.0 as int, r.1 as int) == trim_quotes(t@),
{
    let n = t.len();
    let mut i: usize = 0;
    proof {
        assert(t@.subrange(0, n as int) =~= t@);
    }
    while i < n && t[i] == '"'
        invariant
            n == t@.len(),
            0 <= i <= n,
            drop_quotes_front(t@) == drop_quotes_front(t@.subrange(i as int, n as int)),
        decreases n - i,
    {
        proof {
            assert(t@.subrange(i as int, n as int).drop_first() =~= t@.subrange(i + 1, n as int));
        }
        i += 1;
    }
    proof {
        assert(drop_quotes_front(t@.subrange(i as int, n as int)) == t@.subrange(i as int, n as int));
    }
    let mut j = n;
    while j > i && t[j - 1] == '"'
        invariant
            n == t@.len(),
            0 <= i <= j <= n,
            drop_quotes_front(t@) == t@.subrange(i as int, n as int),
            drop_quotes_back(t@.subrange(i as int, n as int)) == drop_quotes_back(t@.subrange(i as int, j as int)),
        decreases j - i,
    {
        proof {
            assert(t@.subrange(i as int, j as int).drop_last() =~= t@.subrange(i as int, j - 1));
        }
        j -= 1;
    }
    proof {
        assert(drop_quotes_back(t@.subrange(i as int, j as int)) == t@.subrange(i as int, j as int));
    }
    (i, j)
}

/// `s` without the double quotes at either end.
pub fn trim_quotes_str(s: &str) -> (r: String)
    ensures
        r@ == trim_quotes(s@),
        r@.len() <= s@.len(),
{
    let t = chars_of(s);
    let (a, b) = quote_range(&t);
    crate::text::string_of_range(&t, a, b)
}

/// An ASCII hexadecimal digit.
pub open spec fn is_hex_char(c: char) -> bool {
    ('0' <= c <= '9') || ('a' <= c <= 'f') || ('A' <= c <= 'F')
}

/// The value of a hexadecimal digit.
pub open spec fn hex_val(c: char) -> int {
    if '0' <= c <= '9' {
        c as int - '0' as int
    } else if 'a' <= c <= 'f' {
        c as int - 'a' as int + 10
    } else {
        c as int - 'A' as int + 10
    }
}

/// Whether a `0x` (or `0X`) prefix starts at `i`: a zero followed by an
/// x, not directly after another digit.
pub open spec fn hex_prefix_at(s: Seq<char>, i: int) -> bool {
    &&& 0 <= i && i + 1 < s.len()
    &&& s[i] == '0' && (s[i + 1] == 'x' || s[i + 1] == 'X')
    &&& (i == 0 || !is_hex_char(s[i - 1]))
}

/// The hexadecimal digits of `s` from position `i`, in order: `0x`
/// prefixes and every other character are skipped.
pub open spec fn hex_scan(s: Seq<char>, i: int) -> Seq<char>
    decreases s.len() - i,
{
    if i < 0 || i >= s.len() {
        Seq::empty()
    } else if hex_prefix_at(s, i) {
        hex_scan(s, i + 2)
    } else if is_hex_char(s[i]) {
        seq![s[i]] + hex_scan(s, i + 1)
    } else {
        hex_scan(s, i + 1)
    }
}

/// The hexadecimal digits of `s`.
pub open spec fn hex_chars(s: Seq<char>) -> Seq<char> {
    hex_scan(s, 0)
}

/// Bytes from consecutive pairs of hexadecimal digits.
pub open spec fn hex_pairs(d: Seq<char>) -> Seq<u8> {
    Seq::new(d.len() / 2, |i: int| (hex_val(d[2 * i]) * 16 + hex_val(d[2 * i + 1])) as u8)
}

/// The bytes a hexadecimal send string stands for ("41 42 43", "0x41 0x42"
/// and "414243" alike): the digits taken in pairs, skipping `0x` prefixes
/// and every other character; none when there are no digits or an odd
/// number of them.
pub open spec fn hex_parsed(s: Seq<char>) -> Option<Seq<u8>> {
    let d = hex_chars(s);
    if d.len() == 0 || d.len() % 2 != 0 { None } else { Some(hex_pairs(d)) }
}

/// The value of a hexadecimal digit.
fn hex_value(c: char) -> (v: u8)
    requires
        is_hex_char(c),
    ensures
        v as int == hex_val(c),
        v < 16,
{
    if '0' <= c && c <= '9' {
        ((c as u32) - ('0' as u32)) as u8
    } else if 'a' <= c && c <= 'f' {
        ((c as u32) - ('a' as u32) + 10) as u8
    } else {
        ((c as u32) - ('A' as u32) + 10) as u8
    }
}

/// Parses a hexadecimal send string (see `hex_parsed`).
pub fn parse_hex(s: &str) -> (r: Option<Vec<u8>>)
    ensures
        match hex_parsed(s@) {
            Some(b) => r is Some && r->0@ == b,
            None => r is None,
        },
{
    let t = chars_of(s);
    let n0 = t.len();
    let mut d: Vec<char> = Vec::new();
    let mut i: usize = 0;
    while i < n0
        invariant
            0 <= i <= n0 + 1,
            n0 == t@.len(),
            t@ == s@,
            d@ + hex_scan(t@, i as int) == hex_chars(s@),
            forall|k: int| 0 <= k < d@.len() ==> is_hex_char(#[trigger] d@[k]),
        decreases n0 + 1 - i,
    {
        let c = t[i];
        let is_hex = ('0' <= c && c <= '9') || ('a' <= c && c <= 'f') || ('A' <= c && c <= 'F');
        let prev_hex = i > 0 && {
            let p = t[i - 1];
            ('0' <= p && p <= '9') || ('a' <= p && p <= 'f') || ('A' <= p && p <= 'F')
        };
        if c == '0' && i + 1 < n0 && (t[i + 1] == 'x' || t[i + 1] == 'X') && !prev_hex {
            proof {
                assert(hex_prefix_at(t@, i as int));
            }
            i += 2;
        } else {
            proof {
                assert(!hex_prefix_at(t@, i as int));
            }
            if is_hex {
                let ghost before = d@;
                d.push(c);
                proof {
                    assert(d@ + hex_scan(t@, i + 1) =~= before + (seq![c] + hex_scan(t@, i + 1)));
                }
            }
            i += 1;
        }
    }
    proof {
        assert(hex_scan(t@, i as int) =~= Seq::<char>::empty());
        assert(d@ + Seq::<char>::empty() =~= d@);
    }
    let n = d.len();
    if n == 0 || n % 2 != 0 {
        return None;
    }
    let mut out: Vec<u8> = Vec::new();
    let mut k: usize = 0;
    while k < n / 2
        invariant
            n == d@.len(),
            n % 2 == 0,
            0 <= k <= n / 2,
            forall|m: int| 0 <= m < d@.len() ==> is_hex_char(#[trigger] d@[m]),
            out@ == hex_pairs(d@).take(k as int),
        decreases n / 2 - k,
    {
        assert(2 * k + 1 < n);
        let hi = hex_value(d[2 * k]);
        let lo = hex_value(d[2 * k + 1]);
        let b = hi * 16 + lo;
        out.push(b);
        proof {
            assert(out@ =~= hex_pairs(d@).take(k + 1));
        }
        k += 1;
    }
    proof {
        assert(hex_pairs(d@).take((n / 2) as int) =~= hex_pairs(d@));
    }
    Some(out)
}

} // verus!

verus! {

/// Text without backslashes is sent as it is.
pub proof fn law_unescape_plain(s: Seq<char>)
    requires
        !s.contains('\\'),
    ensures
        unescape(s) == s,
    decreases s.len(),
{
    if s.len() > 0 {
        assert(s[0] != '\\');
        let t = s.drop_first();
        assert(!t.contains('\\')) by {
            if t.contains('\\') {
                let k = choose|k: int| 0 <= k < t.len() && t[k] == '\\';
                assert(s[k + 1] == '\\');
            }
        }
        law_unescape_plain(t);
        assert(seq![s[0]] + t =~= s);
    }
}

} // verus!
