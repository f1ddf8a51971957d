//! Command-line options, the persisted configuration and how they combine.
use std::path::PathBuf;
use vstd::prelude::*;
use crate::codec::{Encoding, encoding_named};
use crate::text::{chars_of, owned, str_eq};
use crate::theme::{Theme, theme_named, theme_name_of};

verus! {

broadcast use vstd::string::group_string_axioms;

#[verifier::external_type_specification]
#[verifier::external_body]
pub struct ExPathBuf(PathBuf);

/// Command-line options.
#[derive(Debug)]
pub struct Cli {
    /// Serial port, such as COM4 or /dev/ttyUSB0.
    pub port: Option<String>,
    pub baud: u32,
    /// Data bits (5 to 8).
    pub databits: u8,
    /// Stop bits: 1 / 2.
    pub stopbits: String,
    /// Parity: none / odd / even.
    pub parity: String,
    /// Flow control: none / software / hardware.
    pub flow: String,
    /// Encoding: utf8 / gbk / auto / raw.
    pub encoding: String,
    /// Send mode: line / direct.
    pub mode: String,
    /// Timestamps: off / short / iso.
    pub ts: String,
    /// Hide the RX/TX tag column.
    pub no_tags: bool,
    /// Half-line flush timeout in milliseconds.
    pub flush_ms: u64,
    /// Line ending sent on Enter in line mode: CR / LF / CRLF.
    pub tx_on_enter: String,
    /// Keep the input after sending.
    pub keep_input: bool,
    pub theme: String,
    /// Connect on start-up.
    pub auto_connect: bool,
    /// Run without a configuration file.
    pub no_config: bool,
    /// Configuration file path.
    pub config: Option<PathBuf>,
    /// List serial ports and exit.
    pub list_ports: bool,
    /// Print a Windows Terminal profile snippet.
    pub install_profile: bool,
    /// Debug logging.
    pub verbose: bool,
}

/// A recently used device and the parameters it was connected with.
#[derive(Debug)]
pub struct RecentDevice {
    pub port: String,
    pub baud: u32,
    pub databits: u8,
    pub stopbits: String,
    pub parity: String,
    pub flow: String,
    pub encoding: String,
    /// RFC 3339 time of the last connection.
    pub last_used: String,
    pub conn_count: u64,
}

/// Persisted configuration.
#[derive(Debug)]
pub struct PersistConfig {
    pub port: Option<String>,
    pub baud: u32,
    pub databits: u8,
    pub stopbits: String,
    pub parity: String,
    pub flow: String,
    pub encoding: String,
    pub mode: String,
    pub theme: String,
    pub history: Vec<String>,
    /// Recently used devices, most recent first.
    pub recent: Vec<RecentDevice>,
}

impl Default for PersistConfig {
    fn default() -> (c: Self)
        ensures
            c.port is None,
            c.baud == 115200,
            c.databits == 8,
            c.stopbits@ == "1"@,
            c.parity@ == "none"@,
            c.flow@ == "none"@,
            c.encoding@ == "utf8"@,
            c.mode@ == "line"@,
            c.theme@ == "github-dark"@,
            c.history@.len() == 0,
            c.recent@.len() == 0,
    {
        PersistConfig {
            port: None,
            baud: 115200,
            databits: 8,
            stopbits: owned("1"),
            parity: owned("none"),
            flow: owned("none"),
            encoding: owned("utf8"),
            mode: owned("line"),
            theme: owned("github-dark"),
            history: Vec::new(),
            recent: Vec::new(),
        }
    }
}

/// Where the configuration lives and what it holds.
pub struct ConfigManager {
    pub path: Option<PathBuf>,
    pub cfg: PersistConfig,
}

/// How typed input is sent.
#[derive(Debug, Clone, Copy, PartialEq, Eq, Structural)]
pub enum SendMode {
    /// Line buffered: Enter sends the line.
    Line,
    /// Each key is sent as typed.
    Direct,
}

/// Timestamps on output lines.
#[derive(Debug, Clone, Copy, PartialEq, Eq, Structural)]
pub enum TsMode {
    Off,
    Short,
    Iso,
}

/// The settings a session starts with.
pub struct Settings {
    pub baud: u32,
    pub databits: u8,
    pub stopbits: String,
    pub parity: String,
    pub flow: String,
    pub enc: Encoding,
    pub mode: SendMode,
    pub ts_mode: TsMode,
    pub no_tags: bool,
    pub flush_ms: u64,
    pub tx_on_enter: String,
    pub keep_input: bool,
    pub theme: Theme,
    pub history: Vec<String>,
}

/// The timestamp mode named by `s`: off, iso, otherwise short.
pub open spec fn ts_mode_named(s: Seq<char>) -> TsMode {
    if s == "off"@ {
        TsMode::Off
    } else if s == "iso"@ {
        TsMode::Iso
    } else {
        TsMode::Short
    }
}

/// Data bits from the command line, else from the file; out of 5..=8 gives 8.
pub open spec fn merged_databits(cli: u8, file: u8) -> u8 {
    let d = if cli != 8 { cli } else { file };
    if 5 <= d <= 8 { d } else { 8 }
}

/// A command-line string that differs from its default wins over the file.
pub open spec fn prefer(cli: Seq<char>, default: Seq<char>, file: Seq<char>) -> Seq<char> {
    if cli != default { cli } else { file }
}

/// A copy of `a` when it differs from `default`, otherwise a copy of `b`.
fn pick(a: &String, default: &str, b: &String) -> (s: String)
    ensures
        s@ == prefer(a@, default@, b@),
{
    if !str_eq(a.as_str(), default) {
        a.clone()
    } else {
        b.clone()
    }
}

/// Copies of all strings in a vector.
pub fn clone_strings(v: &Vec<String>) -> (out: Vec<String>)
    ensures
        out@ == v@,
{
    let mut out: Vec<String> = Vec::new();
    let mut i: usize = 0;
    while i < v.len()
        invariant
            0 <= i <= v@.len(),
            out@ == v@.take(i as int),
        decreases v@.len() - i,
    {
        out.push(v[i].clone());
        proof {
            assert(v@.take(i + 1) =~= v@.take(i as int).push(v@[i as int]));
        }
        i += 1;
    }
    proof {
        assert(v@.take(v@.len() as int) =~= v@);
    }
    out
}

impl Settings {
    /// Combines the command line with the configuration file. A command-line
    /// value equal to its default counts as not given (clap cannot tell the
    /// two apart), so the file's value is used; options the file does not
    /// hold come from the command line.
    pub fn merge(cli: &Cli, cfg: &PersistConfig) -> (s: Settings)
        ensures
            s.baud == if cli.baud != 115200 { cli.baud } else { cfg.baud },
            s.databits == merged_databits(cli.databits, cfg.databits),
            s.stopbits@ == prefer(cli.stopbits@, "1"@, cfg.stopbits@),
            s.parity@ == prefer(cli.parity@, "none"@, cfg.parity@),
            s.flow@ == prefer(cli.flow@, "none"@, cfg.flow@),
            s.enc == encoding_named(prefer(cli.encoding@, "utf8"@, cfg.encoding@)),
            s.mode == if cli.mode@ == "direct"@ || cfg.mode@ == "direct"@ { SendMode::Direct } else { SendMode::Line },
            s.ts_mode == ts_mode_named(cli.ts@),
            s.no_tags == cli.no_tags,
            s.flush_ms == cli.flush_ms,
            s.tx_on_enter@ == cli.tx_on_enter@,
            s.keep_input == cli.keep_input,
            s.theme == theme_named(prefer(cli.theme@, "github-dark"@, cfg.theme@)),
            s.history@ == cfg.history@,
    {
        let baud = if cli.baud != 115200 { cli.baud } else { cfg.baud };
        let enc_name = pick(&cli.encoding, "utf8", &cfg.encoding);
        let enc = Encoding::from_str_name(enc_name.as_str());
        let mode = if str_eq(cli.mode.as_str(), "direct") || str_eq(cfg.mode.as_str(), "direct") {
            SendMode::Direct
        } else {
            SendMode::Line
        };
        let ts_mode = if str_eq(cli.ts.as_str(), "off") {
            TsMode::Off
        } else if str_eq(cli.ts.as_str(), "iso") {
            TsMode::Iso
        } else {
            TsMode::Short
        };
        let d = if cli.databits != 8 { cli.databits } else { cfg.databits };
        let databits = if 5 <= d && d <= 8 { d } else { 8 };
        let theme_name = pick(&cli.theme, "github-dark", &cfg.theme);
        Settings {
            baud,
            databits,
            stopbits: pick(&cli.stopbits, "1", &cfg.stopbits),
            parity: pick(&cli.parity, "none", &cfg.parity),
            flow: pick(&cli.flow, "none", &cfg.flow),
            enc,
            mode,
            ts_mode,
            no_tags: cli.no_tags,
            flush_ms: cli.flush_ms,
            tx_on_enter: cli.tx_on_enter.clone(),
            keep_input: cli.keep_input,
            theme: Theme::from_name(theme_name.as_str()),
            history: clone_strings(&cfg.history),
        }
    }
}

/// `a` sorts before `b` character by character (shorter prefix first).
pub open spec fn lex_lt(a: Seq<char>, b: Seq<char>) -> bool
    decreases a.len(),
{
    if b.len() == 0 {
        false
    } else if a.len() == 0 {
        true
    } else if a[0] != b[0] {
        (a[0] as u32) < (b[0] as u32)
    } else {
        lex_lt(a.drop_first(), b.drop_first())
    }
}

/// Whether `a` sorts before `b`.
pub fn str_lt(a: &str, b: &str) -> (r: bool)
    ensures
        r == lex_lt(a@, b@),
{
    let x = chars_of(a);
    let y = chars_of(b);
    let mut i: usize = 0;
    assert(x@.skip(0) =~= x@ && y@.skip(0) =~= y@);
    while i < x.len() && i < y.len()
        invariant
            0 <= i <= x@.len(),
            i <= y@.len(),
            x@ == a@,
            y@ == b@,
            lex_lt(a@, b@) == lex_lt(x@.skip(i as int), y@.skip(i as int)),
        decreases x@.len() - i,
    {
        proof {
            assert(x@.skip(i as int)[0] == x@[i as int]);
            assert(y@.skip(i as int)[0] == y@[i as int]);
            assert(x@.skip(i as int).drop_first() =~= x@.skip(i + 1));
            assert(y@.skip(i as int).drop_first() =~= y@.skip(i + 1));
        }
        if x[i] != y[i] {
            return (x[i] as u32) < (y[i] as u32);
        }
        i += 1;
    }
    proof {
        if i == y@.len() {
            assert(y@.skip(i as int).len() == 0);
        } else {
            assert(x@.skip(i as int).len() == 0);
        }
    }
    i < y.len()
}

} // verus!

verus! {

/// Most recent devices kept.
pub const MAX_RECENT: usize = 10;

/// Inserting `e` into a list kept newest first: before the first entry used
/// strictly earlier, after all entries used at the same time or later.
pub open spec fn ins_recent(s: Seq<RecentDevice>, e: RecentDevice) -> Seq<RecentDevice>
    decreases s.len(),
{
    if s.len() == 0 {
        seq![e]
    } else if lex_lt(s[0].last_used@, e.last_used@) {
        seq![e] + s
    } else {
        seq![s[0]] + ins_recent(s.drop_first(), e)
    }
}

/// `s` stably sorted by last use, newest first.
pub open spec fn sort_recent(s: Seq<RecentDevice>) -> Seq<RecentDevice>
    decreases s.len(),
{
    if s.len() == 0 {
        Seq::empty()
    } else {
        ins_recent(sort_recent(s.drop_last()), s.last())
    }
}

/// The index of the first entry for `port`, when there is one.
pub open spec fn first_for_port(s: Seq<RecentDevice>, port: Seq<char>) -> int {
    choose|k: int| 0 <= k < s.len() && s[k].port@ == port && forall|j: int| 0 <= j < k ==> s[j].port@ != port
}

/// Bumps a connection count, staying at the maximum.
pub open spec fn bump(n: u64) -> u64 {
    if n < u64::MAX { (n + 1) as u64 } else { n }
}

/// The parameters a device was connected with.
pub struct Connection {
    pub port: String,
    pub baud: u32,
    pub databits: u8,
    pub stopbits: String,
    pub parity: String,
    pub flow: String,
    pub encoding: String,
}

/// The recent list after connecting with `c` at time `now`: the first entry
/// for the port takes the new parameters, time and one more connection; a
/// new port goes in front with one connection. Then newest first, at most
/// ten entries.
pub open spec fn recent_after(s: Seq<RecentDevice>, c: Connection, now: String) -> Seq<RecentDevice> {
    let updated = if exists|k: int| 0 <= k < s.len() && s[k].port@ == c.port@ {
        let k = first_for_port(s, c.port@);
        s.update(k, RecentDevice {
            port: s[k].port,
            baud: c.baud,
            databits: c.databits,
            stopbits: c.stopbits,
            parity: c.parity,
            flow: c.flow,
            encoding: c.encoding,
            last_used: now,
            conn_count: bump(s[k].conn_count),
        })
    } else {
        seq![RecentDevice {
            port: c.port,
            baud: c.baud,
            databits: c.databits,
            stopbits: c.stopbits,
            parity: c.parity,
            flow: c.flow,
            encoding: c.encoding,
            last_used: now,
            conn_count: 1,
        }] + s
    };
    let sorted = sort_recent(updated);
    if sorted.len() > MAX_RECENT { sorted.take(MAX_RECENT as int) } else { sorted }
}

proof fn lemma_ins_is_insert(s: Seq<RecentDevice>, e: RecentDevice, k: int)
    requires
        0 <= k <= s.len(),
        forall|j: int| 0 <= j < k ==> !lex_lt(#[trigger] s[j].last_used@, e.last_used@),
        k < s.len() ==> lex_lt(s[k].last_used@, e.last_used@),
    ensures
        ins_recent(s, e) == s.insert(k, e),
    decreases s.len(),
{
    if s.len() == 0 {
        assert(s.insert(k, e) =~= seq![e]);
    } else if k == 0 {
        assert(s.insert(0, e) =~= seq![e] + s);
    } else {
        let t = s.drop_first();
        assert forall|j: int| 0 <= j < k - 1 implies !lex_lt(#[trigger] t[j].last_used@, e.last_used@) by {
            assert(t[j] == s[j + 1]);
        }
        lemma_ins_is_insert(t, e, k - 1);
        assert(seq![s[0]] + t.insert(k - 1, e) =~= s.insert(k, e));
    }
}

/// Places `e` in a list kept newest first, after entries at least as new.
fn insert_by_last_used(v: &mut Vec<RecentDevice>, e: RecentDevice)
    ensures
        final(v)@ == ins_recent(old(v)@, e),
{
    let n = v.len();
    let mut k: usize = 0;
    while k < n && !str_lt(v[k].last_used.as_str(), e.last_used.as_str())
        invariant
            n == v@.len(),
            0 <= k <= n,
            forall|j: int| 0 <= j < k ==> !lex_lt(#[trigger] v@[j].last_used@, e.last_used@),
        decreases n - k,
    {
        k += 1;
    }
    proof {
        lemma_ins_is_insert(v@, e, k as int);
    }
    v.insert(k, e);
}

/// Stable sort by last use, newest first.
pub fn sort_by_last_used(v: Vec<RecentDevice>) -> (r: Vec<RecentDevice>)
    ensures
        r@ == sort_recent(v@),
{
    let ghost orig = v@;
    let mut rest = v;
    let mut r: Vec<RecentDevice> = Vec::new();
    let ghost mut i: int = 0;
    proof {
        assert(orig.take(0) =~= Seq::<RecentDevice>::empty());
        assert(orig.skip(0) =~= orig);
    }
    while rest.len() > 0
        invariant
            0 <= i <= orig.len(),
            rest@ == orig.skip(i),
            r@ == sort_recent(orig.take(i)),
        decreases rest@.len(),
    {
        let e = rest.remove(0);
        proof {
            assert(orig.take(i + 1).drop_last() =~= orig.take(i));
            assert(orig.take(i + 1).last() == e);
            assert(orig.skip(i + 1) =~= orig.skip(i).drop_first());
        }
        insert_by_last_used(&mut r, e);
        proof {
            i = i + 1;
        }
    }
    proof {
        assert(orig.take(i) =~= orig);
    }
    r
}

/// Records a connection in the recent-device list (see `recent_after`).
pub fn record_recent(recent: &mut Vec<RecentDevice>, c: Connection, now: String)
    ensures
        final(recent)@ == recent_after(old(recent)@, c, now),
        final(recent)@.len() <= MAX_RECENT,
{
    let ghost s = old(recent)@;
    let ghost cg = c;
    let mut list: Vec<RecentDevice> = Vec::new();
    std::mem::swap(&mut list, recent);
    let n = list.len();
    let mut k: usize = 0;
    while k < n && list[k].port != c.port
        invariant
            n == list@.len(),
            list@ == s,
            0 <= k <= n,
            forall|j: int| 0 <= j < k ==> s[j].port@ != c.port@,
        decreases n - k,
    {
        k += 1;
    }
    if k < n {
        proof {
            assert(s[k as int].port@ == c.port@);
            assert(first_for_port(s, c.port@) == k) by {
                let f = first_for_port(s, c.port@);
                assert(0 <= f < s.len() && s[f].port@ == c.port@ && forall|j: int| 0 <= j < f ==> s[j].port@ != c.port@);
                if f < k {
                } else if f > k {
                    assert(s[k as int].port@ != c.port@);
                }
            }
        }
        let old_entry = list.remove(k);
        let count = if old_entry.conn_count < u64::MAX { old_entry.conn_count + 1 } else { old_entry.conn_count };
        let entry = RecentDevice {
            port: old_entry.port,
            baud: c.baud,
            databits: c.databits,
            stopbits: c.stopbits,
            parity: c.parity,
            flow: c.flow,
            encoding: c.encoding,
            last_used: now,
            conn_count: count,
        };
        list.insert(k, entry);
        proof {
            assert(list@ =~= s.update(k as int, entry));
        }
    } else {
        let entry = RecentDevice {
            port: c.port,
            baud: c.baud,
            databits: c.databits,
            stopbits: c.stopbits,
            parity: c.parity,
            flow: c.flow,
            encoding: c.encoding,
            last_used: now,
            conn_count: 1,
        };
        list.insert(0, entry);
        proof {
            assert(list@ =~= seq![entry] + s);
        }
    }
    let mut sorted = sort_by_last_used(list);
    if sorted.len() > MAX_RECENT {
        sorted.truncate(MAX_RECENT);
    }
    *recent = sorted;
}

} // verus!

verus! {

/// A copy of a recent-device record.
pub fn clone_device(r: &RecentDevice) -> (c: RecentDevice)
    ensures
        c == *r,
{
    RecentDevice {
        port: r.port.clone(),
        baud: r.baud,
        databits: r.databits,
        stopbits: r.stopbits.clone(),
        parity: r.parity.clone(),
        flow: r.flow.clone(),
        encoding: r.encoding.clone(),
        last_used: r.last_used.clone(),
        conn_count: r.conn_count,
    }
}

/// Copies of all recent-device records.
pub fn clone_recent(v: &Vec<RecentDevice>) -> (out: Vec<RecentDevice>)
    ensures
        out@ == v@,
{
    let mut out: Vec<RecentDevice> = Vec::new();
    let mut i: usize = 0;
    while i < v.len()
        invariant
            0 <= i <= v@.len(),
            out@ == v@.take(i as int),
        decreases v@.len() - i,
    {
        out.push(clone_device(&v[i]));
        proof {
            assert(v@.take(i + 1) =~= v@.take(i as int).push(v@[i as int]));
        }
        i += 1;
    }
    proof {
        assert(v@.take(v@.len() as int) =~= v@);
    }
    out
}

} // verus!

verus! {

/// One string sorting before another excludes the reverse.
pub proof fn lemma_lex_lt_asymmetric(a: Seq<char>, b: Seq<char>)
    ensures
        lex_lt(a, b) ==> !lex_lt(b, a),
    decreases a.len(),
{
    if a.len() > 0 && b.len() > 0 && a[0] == b[0] {
        lemma_lex_lt_asymmetric(a.drop_first(), b.drop_first());
    }
}

/// Every entry was used before `now`.
pub open spec fn all_before(s: Seq<RecentDevice>, now: Seq<char>) -> bool {
    forall|i: int| 0 <= i < s.len() ==> lex_lt((#[trigger] s[i]).last_used@, now)
}

proof fn lemma_ins_keeps_before(s: Seq<RecentDevice>, e: RecentDevice, now: Seq<char>)
    requires
        all_before(s, now),
        lex_lt(e.last_used@, now),
    ensures
        all_before(ins_recent(s, e), now),
    decreases s.len(),
{
    if s.len() > 0 && !lex_lt(s[0].last_used@, e.last_used@) {
        let t = s.drop_first();
        assert(all_before(t, now)) by {
            assert forall|i: int| 0 <= i < t.len() implies lex_lt((#[trigger] t[i]).last_used@, now) by {
                assert(t[i] == s[i + 1]);
            }
        }
        lemma_ins_keeps_before(t, e, now);
        let r = ins_recent(t, e);
        assert forall|i: int| 0 <= i < 1 + r.len() implies lex_lt((#[trigger] (seq![s[0]] + r)[i]).last_used@, now) by {
            if i > 0 {
                assert((seq![s[0]] + r)[i] == r[i - 1]);
            }
        }
    } else if s.len() > 0 {
        assert forall|i: int| 0 <= i < 1 + s.len() implies lex_lt((#[trigger] (seq![e] + s)[i]).last_used@, now) by {
            if i > 0 {
                assert((seq![e] + s)[i] == s[i - 1]);
            }
        }
    }
}

proof fn lemma_sort_keeps_before(s: Seq<RecentDevice>, now: Seq<char>)
    requires
        all_before(s, now),
    ensures
        all_before(sort_recent(s), now),
    decreases s.len(),
{
    if s.len() > 0 {
        let d = s.drop_last();
        assert(all_before(d, now)) by {
            assert forall|i: int| 0 <= i < d.len() implies lex_lt((#[trigger] d[i]).last_used@, now) by {
                assert(d[i] == s[i]);
            }
        }
        lemma_sort_keeps_before(d, now);
        assert(s.last() == s[s.len() - 1]);
        lemma_ins_keeps_before(sort_recent(d), s.last(), now);
    }
}

/// A list in which one entry `x` is used at `now` and all others before
/// sorts with `x` first.
proof fn lemma_newest_sorts_first(u: Seq<RecentDevice>, k: int, now: Seq<char>)
    requires
        0 <= k < u.len(),
        u[k].last_used@ == now,
        forall|j: int| 0 <= j < u.len() && j != k ==> lex_lt((#[trigger] u[j]).last_used@, now),
    ensures
        sort_recent(u).len() > 0,
        sort_recent(u)[0] == u[k],
    decreases u.len(),
{
    let d = u.drop_last();
    let e = u.last();
    assert(e == u[u.len() - 1]);
    if k == u.len() - 1 {
        assert(all_before(d, now)) by {
            assert forall|i: int| 0 <= i < d.len() implies lex_lt((#[trigger] d[i]).last_used@, now) by {
                assert(d[i] == u[i]);
            }
        }
        lemma_sort_keeps_before(d, now);
        let sd = sort_recent(d);
        if sd.len() > 0 {
            assert(lex_lt(sd[0].last_used@, now));
        }
    } else {
        assert forall|j: int| 0 <= j < d.len() && j != k implies lex_lt((#[trigger] d[j]).last_used@, now) by {
            assert(d[j] == u[j]);
        }
        assert(d[k] == u[k]);
        lemma_newest_sorts_first(d, k, now);
        let sd = sort_recent(d);
        assert(lex_lt(e.last_used@, now));
        lemma_lex_lt_asymmetric(e.last_used@, now);
        assert(!lex_lt(sd[0].last_used@, e.last_used@));
        assert(ins_recent(sd, e) == seq![sd[0]] + ins_recent(sd.drop_first(), e));
    }
}

/// When some entry is for `port`, there is a first one.
proof fn lemma_first_for_port(s: Seq<RecentDevice>, port: Seq<char>)
    requires
        exists|k: int| 0 <= k < s.len() && s[k].port@ == port,
    ensures
        exists|k: int| 0 <= k < s.len() && s[k].port@ == port && forall|j: int| 0 <= j < k ==> s[j].port@ != port,
    decreases s.len(),
{
    if s[0].port@ == port {
        assert(0 <= 0 < s.len() && s[0].port@ == port && forall|j: int| 0 <= j < 0 ==> s[j].port@ != port);
    } else {
        let t = s.drop_first();
        let k0 = choose|k: int| 0 <= k < s.len() && s[k].port@ == port;
        assert(t[k0 - 1] == s[k0]);
        lemma_first_for_port(t, port);
        let k = choose|k: int| 0 <= k < t.len() && t[k].port@ == port && forall|j: int| 0 <= j < k ==> t[j].port@ != port;
        assert(s[k + 1] == t[k]);
        assert forall|j: int| 0 <= j < k + 1 implies s[j].port@ != port by {
            if j > 0 {
                assert(s[j] == t[j - 1]);
            }
        }
    }
}

/// Connecting records the device first in the recent list, with the
/// parameters it was connected with, whenever the time of the connection
/// is later than every recorded use.
pub proof fn law_connected_device_first(s: Seq<RecentDevice>, c: Connection, now: String)
    requires
        all_before(s, now@),
    ensures
        recent_after(s, c, now).len() > 0,
        recent_after(s, c, now)[0].port@ == c.port@,
        recent_after(s, c, now)[0].baud == c.baud,
        recent_after(s, c, now)[0].databits == c.databits,
        recent_after(s, c, now)[0].stopbits == c.stopbits,
        recent_after(s, c, now)[0].parity == c.parity,
        recent_after(s, c, now)[0].flow == c.flow,
        recent_after(s, c, now)[0].encoding == c.encoding,
        recent_after(s, c, now)[0].last_used == now,
{
    if exists|k: int| 0 <= k < s.len() && s[k].port@ == c.port@ {
        lemma_first_for_port(s, c.port@);
        let k = first_for_port(s, c.port@);
        assert(0 <= k < s.len());
        let u = s.update(k, RecentDevice {
            port: s[k].port,
            baud: c.baud,
            databits: c.databits,
            stopbits: c.stopbits,
            parity: c.parity,
            flow: c.flow,
            encoding: c.encoding,
            last_used: now,
            conn_count: bump(s[k].conn_count),
        });
        assert forall|j: int| 0 <= j < u.len() && j != k implies lex_lt((#[trigger] u[j]).last_used@, now@) by {
            assert(u[j] == s[j]);
        }
        lemma_newest_sorts_first(u, k, now@);
    } else {
        let x = RecentDevice {
            port: c.port,
            baud: c.baud,
            databits: c.databits,
            stopbits: c.stopbits,
            parity: c.parity,
            flow: c.flow,
            encoding: c.encoding,
            last_used: now,
            conn_count: 1,
        };
        let u = seq![x] + s;
        assert forall|j: int| 0 <= j < u.len() && j != 0 implies lex_lt((#[trigger] u[j]).last_used@, now@) by {
            assert(u[j] == s[j - 1]);
        }
        lemma_newest_sorts_first(u, 0, now@);
    }
}

} // verus!
