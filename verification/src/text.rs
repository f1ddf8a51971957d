//! Character-level helpers shared by the parsers and formatters.
use vstd::prelude::*;

verus! {

broadcast use vstd::string::group_string_axioms;

/// Appends one character to a string (std's `String::push`).
#[verifier::external_body]
pub(crate) fn push_char(s: &mut String, c: char)
    ensures
        final(s)@ == old(s)@.push(c),
{
    s.push(c);
}

/// Removes and returns the last character of a string (std's `String::pop`).
#[verifier::external_body]
pub(crate) fn pop_char(s: &mut String) -> (r: Option<char>)
    ensures
        old(s)@.len() == 0 ==> r is None && final(s)@ == old(s)@,
        old(s)@.len() > 0 ==> r == Some(old(s)@.last()) && final(s)@ == old(s)@.drop_last(),
{
    s.pop()
}

/// The characters of `s`, in order.
pub fn chars_of(s: &str) -> (out: Vec<char>)
    ensures
        out@ == s@,
{
    let mut out: Vec<char> = Vec::new();
    for c in it: s.chars()
        invariant
            out@ == it.seq().take(it.index() as int),
    {
        out.push(c);
    }
    out
}

/// Appends the characters of `s` to `dst`.
pub fn push_str(dst: &mut String, s: &str)
    ensures
        final(dst)@ == old(dst)@ + s@,
{
    let cs = chars_of(s);
    let mut i: usize = 0;
    while i < cs.len()
        invariant
            0 <= i <= cs@.len(),
            cs@ == s@,
            dst@ == old(dst)@ + cs@.take(i as int),
        decreases cs@.len() - i,
    {
        push_char(dst, cs[i]);
        proof {
            assert(cs@.take(i + 1) =~= cs@.take(i as int).push(cs@[i as int]));
        }
        i += 1;
    }
    proof {
        assert(cs@.take(cs@.len() as int) =~= cs@);
    }
}

/// A string holding exactly the given characters.
pub fn string_from_chars(cs: &[char]) -> (out: String)
    ensures
        out@ == cs@,
{
    let mut out = String::new();
    let mut i: usize = 0;
    while i < cs.len()
        invariant
            0 <= i <= cs@.len(),
            out@ == cs@.take(i as int),
        decreases cs@.len() - i,
    {
        push_char(&mut out, cs[i]);
        proof {
            assert(cs@.take(i + 1) =~= cs@.take(i as int).push(cs@[i as int]));
        }
        i += 1;
    }
    proof {
        assert(cs@.take(cs@.len() as int) =~= cs@);
    }
    out
}

/// Whether two strings hold the same characters.
pub fn str_eq(a: &str, b: &str) -> (r: bool)
    ensures
        r == (a@ == b@),
{
    let x = chars_of(a);
    let y = chars_of(b);
    if x.len() != y.len() {
        return false;
    }
    let mut i: usize = 0;
    while i < x.len()
        invariant
            0 <= i <= x@.len(),
            x@.len() == y@.len(),
            x@ == a@,
            y@ == b@,
            forall|k: int| 0 <= k < i ==> x@[k] == y@[k],
        decreases x@.len() - i,
    {
        if x[i] != y[i] {
            return false;
        }
        i += 1;
    }
    proof {
        assert(x@ =~= y@);
    }
    true
}

/// A copy of a string literal or slice as an owned `String`.
pub fn owned(s: &str) -> (out: String)
    ensures
        out@ == s@,
{
    s.to_owned()
}

} // verus!

verus! {

/// The upper-case hexadecimal digit for `n` (0 to 15).
pub open spec fn hex_digit(n: int) -> char {
    if n == 0 { '0' } else if n == 1 { '1' } else if n == 2 { '2' } else if n == 3 { '3' }
    else if n == 4 { '4' } else if n == 5 { '5' } else if n == 6 { '6' } else if n == 7 { '7' }
    else if n == 8 { '8' } else if n == 9 { '9' } else if n == 10 { 'A' } else if n == 11 { 'B' }
    else if n == 12 { 'C' } else if n == 13 { 'D' } else if n == 14 { 'E' } else { 'F' }
}

/// The upper-case hexadecimal digit for the low four bits of `n`.
pub fn hex_digit_of(n: u8) -> (c: char)
    requires
        n < 16,
    ensures
        c == hex_digit(n as int),
{
    if n == 0 { '0' } else if n == 1 { '1' } else if n == 2 { '2' } else if n == 3 { '3' }
    else if n == 4 { '4' } else if n == 5 { '5' } else if n == 6 { '6' } else if n == 7 { '7' }
    else if n == 8 { '8' } else if n == 9 { '9' } else if n == 10 { 'A' } else if n == 11 { 'B' }
    else if n == 12 { 'C' } else if n == 13 { 'D' } else if n == 14 { 'E' } else { 'F' }
}

/// Two upper-case hexadecimal digits for a byte.
pub open spec fn hex2(b: u8) -> Seq<char> {
    seq![hex_digit(b as int / 16), hex_digit(b as int % 16)]
}

/// Appends the two upper-case hexadecimal digits of `b`.
pub fn push_hex2(dst: &mut String, b: u8)
    ensures
        final(dst)@ == old(dst)@ + hex2(b),
{
    push_char(dst, hex_digit_of(b / 16));
    push_char(dst, hex_digit_of(b % 16));
    assert(final(dst)@ =~= old(dst)@ + hex2(b));
}

/// Four upper-case hexadecimal digits for a 16-bit value, zero padded.
pub open spec fn hex4(v: u16) -> Seq<char> {
    seq![
        hex_digit(v as int / 4096),
        hex_digit((v as int / 256) % 16),
        hex_digit((v as int / 16) % 16),
        hex_digit(v as int % 16),
    ]
}

/// `v` as four upper-case hexadecimal digits, zero padded.
pub fn hex4_string(v: u16) -> (s: String)
    ensures
        s@ == hex4(v),
{
    let mut s = String::new();
    push_char(&mut s, hex_digit_of((v / 4096) as u8));
    push_char(&mut s, hex_digit_of(((v / 256) % 16) as u8));
    push_char(&mut s, hex_digit_of(((v / 16) % 16) as u8));
    push_char(&mut s, hex_digit_of((v % 16) as u8));
    assert(s@ =~= hex4(v));
    s
}

} // verus!

verus! {

/// The UTF-8 bytes of `s`.
pub fn bytes_of(s: &str) -> (out: Vec<u8>)
    ensures
        out@ == vstd::utf8::encode_utf8(s@),
{
    let b = s.as_bytes();
    let mut out: Vec<u8> = Vec::new();
    let mut i: usize = 0;
    while i < b.len()
        invariant
            0 <= i <= b@.len(),
            out@ == b@.take(i as int),
        decreases b@.len() - i,
    {
        out.push(b[i]);
        proof {
            assert(b@.take(i + 1) =~= b@.take(i as int).push(b@[i as int]));
        }
        i += 1;
    }
    proof {
        assert(b@.take(b@.len() as int) =~= b@);
    }
    out
}

} // verus!

verus! {

/// Decimal digits of `n`, most significant first, without leading zeros.
pub open spec fn dec(n: nat) -> Seq<char>
    decreases n,
{
    if n < 10 {
        seq![hex_digit(n as int)]
    } else {
        dec(n / 10).push(hex_digit((n % 10) as int))
    }
}

/// `n` in decimal.
pub fn dec_string(n: u64) -> (s: String)
    ensures
        s@ == dec(n as nat),
{
    let mut digits: Vec<char> = Vec::new();
    let mut m = n;
    let ghost mut acc: Seq<char> = Seq::empty();
    // collect digits least significant first
    while m >= 10
        invariant
            dec(n as nat) == dec(m as nat) + digits@.reverse(),
        decreases m,
    {
        let d = (m % 10) as u8;
        proof {
            assert(dec(m as nat) == dec((m / 10) as nat).push(hex_digit((m % 10) as int)));
            assert(digits@.push(hex_digit(d as int)).reverse() =~= seq![hex_digit(d as int)] + digits@.reverse());
            assert(dec((m / 10) as nat).push(hex_digit((m % 10) as int)) + digits@.reverse()
                =~= dec((m / 10) as nat) + digits@.push(hex_digit(d as int)).reverse());
        }
        digits.push(hex_digit_of(d));
        m = m / 10;
    }
    let mut s = String::new();
    push_char(&mut s, hex_digit_of(m as u8));
    let mut i = digits.len();
    proof {
        assert(dec(m as nat) =~= seq![hex_digit(m as int)]);
        assert(digits@.reverse().take(0) =~= Seq::<char>::empty());
    }
    while i > 0
        invariant
            i <= digits@.len(),
            dec(n as nat) == dec(m as nat) + digits@.reverse(),
            s@ == dec(m as nat) + digits@.reverse().take((digits@.len() - i) as int),
        decreases i,
    {
        i -= 1;
        push_char(&mut s, digits[i]);
        proof {
            let r = digits@.reverse();
            let k = (digits@.len() - i) as int;
            assert(r[k - 1] == digits@[i as int]);
            assert(r.take(k) =~= r.take(k - 1).push(r[k - 1]));
        }
    }
    proof {
        assert(digits@.reverse().take(digits@.len() as int) =~= digits@.reverse());
    }
    s
}

/// `a` followed by `b`.
pub fn concat(a: &str, b: &str) -> (s: String)
    ensures
        s@ == a@ + b@,
{
    let mut s = owned(a);
    push_str(&mut s, b);
    s
}

/// Whether `t` starts with `p`.
pub open spec fn starts_with(t: Seq<char>, p: Seq<char>) -> bool {
    p.len() <= t.len() && t.subrange(0, p.len() as int) == p
}

/// Whether `p` occurs in `t`.
pub open spec fn contains_seq(t: Seq<char>, p: Seq<char>) -> bool {
    exists|k: int| 0 <= k <= t.len() - p.len() && #[trigger] t.subrange(k, k + p.len()) == p
}

/// Whether the characters `t[at..]` start with `p`.
pub fn matches_at(t: &Vec<char>, at: usize, p: &Vec<char>) -> (r: bool)
    requires
        at <= t@.len(),
    ensures
        r == (p@.len() <= t@.len() - at && t@.subrange(at as int, at + p@.len()) == p@),
{
    let tn = t.len();
    if p.len() > tn - at {
        return false;
    }
    let mut i: usize = 0;
    while i < p.len()
        invariant
            0 <= i <= p@.len(),
            tn == t@.len(),
            at <= t@.len(),
            p@.len() <= t@.len() - at,
            at + p@.len() <= t@.len(),
            forall|k: int| 0 <= k < i ==> t@[at + k] == p@[k],
        decreases p@.len() - i,
    {
        if t[at + i] != p[i] {
            proof {
                assert(t@.subrange(at as int, at + p@.len())[i as int] != p@[i as int]);
            }
            return false;
        }
        i += 1;
    }
    proof {
        assert(t@.subrange(at as int, at + p@.len()) =~= p@);
    }
    true
}

/// Whether `t` starts with `p`.
pub fn str_starts_with(t: &str, p: &str) -> (r: bool)
    ensures
        r == starts_with(t@, p@),
{
    let tc = chars_of(t);
    let pc = chars_of(p);
    matches_at(&tc, 0, &pc)
}

/// Whether `p` occurs in `t`.
pub fn chars_contain(t: &Vec<char>, p: &Vec<char>) -> (r: bool)
    ensures
        r == contains_seq(t@, p@),
{
    if p.len() > t.len() {
        proof {
            if contains_seq(t@, p@) {
                let k = choose|k: int| 0 <= k <= t@.len() - p@.len() && #[trigger] t@.subrange(k, k + p@.len()) == p@;
            }
        }
        return false;
    }
    let limit = t.len() - p.len();
    let mut k: usize = 0;
    loop
        invariant
            p@.len() <= t@.len(),
            limit == t@.len() - p@.len(),
            0 <= k <= limit,
            forall|m: int| 0 <= m < k ==> #[trigger] t@.subrange(m, m + p@.len()) != p@,
        decreases limit - k,
    {
        if matches_at(t, k, p) {
            return true;
        }
        if k == limit {
            return false;
        }
        k += 1;
    }
}

} // verus!

verus! {

/// The Unicode White_Space characters (what std's `char::is_whitespace` tests).
pub open spec fn is_ws(c: char) -> bool {
    ||| '\t' <= c <= '\r'
    ||| c == ' ' || c == '\u{85}' || c == '\u{a0}' || c == '\u{1680}'
    ||| '\u{2000}' <= c <= '\u{200a}'
    ||| c == '\u{2028}' || c == '\u{2029}' || c == '\u{202f}' || c == '\u{205f}' || c == '\u{3000}'
}

/// Whether `c` is white space.
pub fn char_is_ws(c: char) -> (r: bool)
    ensures
        r == is_ws(c),
{
    ('\t' <= c && c <= '\r') || c == ' ' || c == '\u{85}' || c == '\u{a0}' || c == '\u{1680}'
        || ('\u{2000}' <= c && c <= '\u{200a}') || c == '\u{2028}' || c == '\u{2029}'
        || c == '\u{202f}' || c == '\u{205f}' || c == '\u{3000}'
}

/// `s` without leading white space.
pub open spec fn trim_start(s: Seq<char>) -> Seq<char>
    decreases s.len(),
{
    if s.len() > 0 && is_ws(s[0]) { trim_start(s.drop_first()) } else { s }
}

/// `s` without trailing white space.
pub open spec fn trim_end(s: Seq<char>) -> Seq<char>
    decreases s.len(),
{
    if s.len() > 0 && is_ws(s.last()) { trim_end(s.drop_last()) } else { s }
}

/// `s` without leading and trailing white space (std's `str::trim`).
pub open spec fn trim(s: Seq<char>) -> Seq<char> {
    trim_end(trim_start(s))
}

/// The trimmed part of `t[a..b]`.
pub fn trim_range(t: &Vec<char>, a: usize, b: usize) -> (r: (usize, usize))
    requires
        a <= b <= t@.len(),
    ensures
        a <= r.0 <= r.1 <= b,
        t@.subrange(r.0 as int, r.1 as int) == trim(t@.subrange(a as int, b as int)),
{
    let mut i = a;
    while i < b && char_is_ws(t[i])
        invariant
            a <= i <= b <= t@.len(),
            trim_start(t@.subrange(a as int, b as int)) == trim_start(t@.subrange(i as int, b as int)),
        decreases b - i,
    {
        proof {
            assert(t@.subrange(i as int, b as int).drop_first() =~= t@.subrange(i + 1, b as int));
        }
        i += 1;
    }
    let mut j = b;
    proof {
        assert(trim_start(t@.subrange(i as int, b as int)) == t@.subrange(i as int, b as int));
    }
    while j > i && char_is_ws(t[j - 1])
        invariant
            a <= i <= j <= b <= t@.len(),
            trim_start(t@.subrange(a as int, b as int)) == t@.subrange(i as int, b as int),
            trim_end(t@.subrange(i as int, b as int)) == trim_end(t@.subrange(i as int, j as int)),
        decreases j - i,
    {
        proof {
            assert(t@.subrange(i as int, j as int).drop_last() =~= t@.subrange(i as int, j - 1));
        }
        j -= 1;
    }
    proof {
        assert(trim_end(t@.subrange(i as int, j as int)) == t@.subrange(i as int, j as int));
    }
    (i, j)
}

/// A string holding `t[a..b]`.
pub fn string_of_range(t: &Vec<char>, a: usize, b: usize) -> (s: String)
    requires
        a <= b <= t@.len(),
    ensures
        s@ == t@.subrange(a as int, b as int),
{
    let mut s = String::new();
    let mut i = a;
    while i < b
        invariant
            a <= i <= b <= t@.len(),
            s@ == t@.subrange(a as int, i as int),
        decreases b - i,
    {
        push_char(&mut s, t[i]);
        proof {
            assert(t@.subrange(a as int, i + 1) =~= t@.subrange(a as int, i as int).push(t@[i as int]));
        }
        i += 1;
    }
    s
}

/// `s` without leading and trailing white space.
pub fn trim_string(s: &str) -> (r: String)
    ensures
        r@ == trim(s@),
{
    let t = chars_of(s);
    let (a, b) = trim_range(&t, 0, t.len());
    proof {
        assert(t@.subrange(0, t@.len() as int) =~= t@);
    }
    string_of_range(&t, a, b)
}

/// Cutting `t` into white-space separated words: the words closed so far
/// and the word being read.
pub open spec fn words_scan(t: Seq<char>) -> (Seq<Seq<char>>, Seq<char>)
    decreases t.len(),
{
    if t.len() == 0 {
        (Seq::empty(), Seq::empty())
    } else {
        let p = words_scan(t.drop_last());
        if is_ws(t.last()) {
            if p.1.len() > 0 { (p.0.push(p.1), Seq::empty()) } else { p }
        } else {
            (p.0, p.1.push(t.last()))
        }
    }
}

/// The white-space separated words of `t` (std's `str::split_whitespace`).
pub open spec fn words(t: Seq<char>) -> Seq<Seq<char>> {
    let p = words_scan(t);
    if p.1.len() > 0 { p.0.push(p.1) } else { p.0 }
}

/// The white-space separated words of `s`.
pub fn split_words(s: &str) -> (r: Vec<String>)
    ensures
        r@.map_values(|w: String| w@) == words(s@),
{
    let t = chars_of(s);
    let mut out: Vec<String> = Vec::new();
    let mut cur = String::new();
    let mut i: usize = 0;
    while i < t.len()
        invariant
            0 <= i <= t@.len(),
            t@ == s@,
            (out@.map_values(|w: String| w@), cur@) == words_scan(t@.take(i as int)),
        decreases t@.len() - i,
    {
        let c = t[i];
        proof {
            assert(t@.take(i + 1).drop_last() =~= t@.take(i as int));
            assert(t@.take(i + 1).last() == c);
        }
        if char_is_ws(c) {
            if !cur.as_str().is_empty() {
                let mut w = String::new();
                std::mem::swap(&mut w, &mut cur);
                let ghost before = out@.map_values(|w: String| w@);
                out.push(w);
                proof {
                    assert(out@.map_values(|w: String| w@) =~= before.push(w@));
                }
            }
        } else {
            push_char(&mut cur, c);
        }
        i += 1;
    }
    proof {
        assert(t@.take(t@.len() as int) =~= t@);
    }
    if !cur.as_str().is_empty() {
        let ghost before = out@.map_values(|w: String| w@);
        out.push(cur);
        proof {
            assert(out@.map_values(|w: String| w@) =~= before.push(cur@));
        }
    }
    out
}

/// Value of a string of decimal digits.
pub open spec fn digits_value(d: Seq<char>) -> nat
    decreases d.len(),
{
    if d.len() == 0 {
        0
    } else {
        digits_value(d.drop_last()) * 10 + ((d.last() as u32) - ('0' as u32)) as nat
    }
}

/// A decimal digit character.
pub open spec fn is_dec_digit(c: char) -> bool {
    '0' <= c <= '9'
}

/// The digits of a number with an optional leading `+`.
pub open spec fn unsigned_part(s: Seq<char>) -> Seq<char> {
    if s.len() > 0 && s[0] == '+' { s.drop_first() } else { s }
}

/// What std's `str::parse` accepts for an unsigned integer type whose
/// largest value is `max`: an optional `+`, then one or more decimal digits
/// with a value of at most `max`.
pub open spec fn parse_dec(s: Seq<char>, max: nat) -> Option<nat> {
    let d = unsigned_part(s);
    if d.len() == 0 || exists|k: int| 0 <= k < d.len() && !is_dec_digit(d[k]) {
        None
    } else if digits_value(d) > max {
        None
    } else {
        Some(digits_value(d))
    }
}

proof fn lemma_digits_value_grows(d: Seq<char>, k: int)
    requires
        0 <= k <= d.len(),
        forall|m: int| 0 <= m < d.len() ==> is_dec_digit(d[m]),
    ensures
        digits_value(d.take(k)) <= digits_value(d),
    decreases d.len() - k,
{
    if k < d.len() {
        lemma_digits_value_grows(d, k + 1);
        assert(d.take(k + 1).drop_last() =~= d.take(k));
    } else {
        assert(d.take(k) =~= d);
    }
}

/// Parses `s` as std's `str::parse` does for an unsigned type with largest value `max`.
pub fn parse_dec_str(s: &str, max: u64) -> (r: Option<u64>)
    ensures
        match parse_dec(s@, max as nat) {
            Some(v) => r == Some(v as u64),
            None => r is None,
        },
{
    let t = chars_of(s);
    let n = t.len();
    let ghost d = unsigned_part(s@);
    let mut i: usize = 0;
    if i < n && t[i] == '+' {
        i = 1;
    }
    proof {
        assert(d =~= t@.subrange(i as int, n as int));
    }
    if i == n {
        return None;
    }
    let first = i;
    let mut v: u64 = 0;
    while i < n
        invariant
            n == t@.len(),
            t@ == s@,
            0 <= first <= i <= n,
            d =~= t@.subrange(first as int, n as int),
            d == unsigned_part(s@),
            d.len() > 0,
            forall|m: int| first <= m < i ==> is_dec_digit(t@[m]),
            v as nat == digits_value(t@.subrange(first as int, i as int)),
            v <= max,
        decreases n - i,
    {
        let c = t[i];
        if !('0' <= c && c <= '9') {
            proof {
                assert(d[i - first] == c);
                assert(!is_dec_digit(d[i - first]));
                assert(exists|k: int| 0 <= k < d.len() && !is_dec_digit(d[k]));
                assert(parse_dec(s@, max as nat) is None);
            }
            return None;
        }
        let digit = ((c as u32) - ('0' as u32)) as u64;
        proof {
            let pre = t@.subrange(first as int, i + 1);
            assert(pre.drop_last() =~= t@.subrange(first as int, i as int));
            assert(pre.last() == c);
        }
        if digit > max || v > (max - digit) / 10 {
            proof {
                let pre = t@.subrange(first as int, i + 1);
                assert(digits_value(pre) == v * 10 + digit);
                if digit <= max {
                    assert(v * 10 + digit > max) by (nonlinear_arith)
                        requires v > (max - digit) / 10, digit <= max;
                }
                if forall|m: int| 0 <= m < d.len() ==> is_dec_digit(d[m]) {
                    lemma_digits_value_grows(d, (i + 1 - first) as int);
                    assert(d.take((i + 1 - first) as int) =~= pre);
                }
                assert(parse_dec(s@, max as nat) is None);
            }
            return None;
        }
        proof {
            assert(v * 10 + digit <= max) by (nonlinear_arith)
                requires v <= (max - digit) / 10, digit <= max;
        }
        v = v * 10 + digit;
        i += 1;
    }
    proof {
        assert(t@.subrange(first as int, n as int) =~= d);
    }
    Some(v)
}

} // verus!

verus! {

/// What std's `str::to_lowercase` returns for `s` (lower case as the
/// Unicode Lowercase property defines it, with its context rules); a
/// function of the characters alone.
pub uninterp spec fn lowercased(s: Seq<char>) -> Seq<char>;

/// `s` in lower case (std's `str::to_lowercase`, which maps every
/// character to one or more characters, so text stays non-empty).
#[verifier::external_body]
pub(crate) fn lowercase(s: &str) -> (r: String)
    ensures
        r@ == lowercased(s@),
        s@.len() > 0 ==> r@.len() > 0,
{
    s.to_lowercase()
}

} // verus!
