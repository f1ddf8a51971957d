//! The command table and completion candidates for the input line.
use vstd::prelude::*;
use crate::config::{lex_lt, str_lt};
use crate::text::{chars_of, is_ws, starts_with, str_eq, str_starts_with, string_of_range, trim_end, trim_start};
use crate::theme::{Theme, theme_names};

verus! {

broadcast use vstd::string::group_string_axioms;

/// Every command with its description (shared by completion and help).
pub open spec fn commands() -> Seq<(&'static str, &'static str)> {
    seq![
        (":port", "<p> 连接串口"),
        (":connect", "<p> 同 :port"),
        (":close", "关闭串口"),
        (":disconnect", "同 :close"),
        (":list", "列出可用串口"),
        (":settings", "打开设置面板"),
        (":config", "同 :settings"),
        (":status", "显示连接状态"),
        (":baud", "<n> 切换波特率"),
        (":databits", "<5-8> 数据位"),
        (":stopbits", "<1|2> 停止位"),
        (":parity", "<none|odd|even> 校验位"),
        (":flow", "<none|soft|hard> 流控"),
        (":encoding", "<utf8|gbk|auto|raw> 编码"),
        (":mode", "<line|direct> 发送模式"),
        (":theme", "[主题] 切换主题"),
        (":hex", "[41 42 43] Hex视图/发送"),
        (":text", "文本视图"),
        (":ts", "<on|off|iso> 时间戳"),
        (":tail", "回到最新输出"),
        (":top", "回到输出顶部"),
        (":live", "同 :tail"),
        (":follow", "同 :tail"),
        (":up", "上滑历史"),
        (":down", "下滑"),
        (":scroll", "<up|down|行数> 滚动"),
        (":clear", "清屏"),
        (":search", "<关键词|off> 搜索/清除高亮"),
        (":find", "同 :search"),
        (":send", "<文本> 发送"),
        (":log", "<on|off> 日志"),
        (":recent", "[序号] 最近设备"),
        (":reconnect", "[端口|off] 断线自动重连"),
        (":auto", "同 :reconnect"),
        (":export", "[文件] 导出日志"),
        (":replay", "<文件 [倍率]|stop> 回放/停止"),
        (":help", "帮助"),
        (":quit", "退出"),
        (":exit", "同 :quit"),
    ]
}

/// Every command with its description, in the order they are offered.
pub fn command_table() -> (t: Vec<(&'static str, &'static str)>)
    ensures
        t@ == commands(),
{
    vec![
        (":port", "<p> 连接串口"),
        (":connect", "<p> 同 :port"),
        (":close", "关闭串口"),
        (":disconnect", "同 :close"),
        (":list", "列出可用串口"),
        (":settings", "打开设置面板"),
        (":config", "同 :settings"),
        (":status", "显示连接状态"),
        (":baud", "<n> 切换波特率"),
        (":databits", "<5-8> 数据位"),
        (":stopbits", "<1|2> 停止位"),
        (":parity", "<none|odd|even> 校验位"),
        (":flow", "<none|soft|hard> 流控"),
        (":encoding", "<utf8|gbk|auto|raw> 编码"),
        (":mode", "<line|direct> 发送模式"),
        (":theme", "[主题] 切换主题"),
        (":hex", "[41 42 43] Hex视图/发送"),
        (":text", "文本视图"),
        (":ts", "<on|off|iso> 时间戳"),
        (":tail", "回到最新输出"),
        (":top", "回到输出顶部"),
        (":live", "同 :tail"),
        (":follow", "同 :tail"),
        (":up", "上滑历史"),
        (":down", "下滑"),
        (":scroll", "<up|down|行数> 滚动"),
        (":clear", "清屏"),
        (":search", "<关键词|off> 搜索/清除高亮"),
        (":find", "同 :search"),
        (":send", "<文本> 发送"),
        (":log", "<on|off> 日志"),
        (":recent", "[序号] 最近设备"),
        (":reconnect", "[端口|off] 断线自动重连"),
        (":auto", "同 :reconnect"),
        (":export", "[文件] 导出日志"),
        (":replay", "<文件 [倍率]|stop> 回放/停止"),
        (":help", "帮助"),
        (":quit", "退出"),
        (":exit", "同 :quit"),
    ]
}

/// The values offered for a command's argument.
pub open spec fn param_values(cmd: Seq<char>) -> Seq<Seq<char>> {
    if cmd == ":baud"@ {
        seq!["300"@, "600"@, "1200"@, "2400"@, "4800"@, "9600"@, "19200"@, "38400"@, "57600"@, "115200"@,
            "230400"@, "460800"@, "921600"@, "1000000"@, "2000000"@]
    } else if cmd == ":encoding"@ {
        seq!["utf8"@, "gbk"@, "auto"@, "raw"@]
    } else if cmd == ":mode"@ {
        seq!["line"@, "direct"@]
    } else if cmd == ":parity"@ {
        seq!["none"@, "odd"@, "even"@]
    } else if cmd == ":stopbits"@ {
        seq!["1"@, "2"@]
    } else if cmd == ":databits"@ {
        seq!["5"@, "6"@, "7"@, "8"@]
    } else if cmd == ":flow"@ {
        seq!["none"@, "software"@, "hardware"@]
    } else if cmd == ":ts"@ {
        seq!["on"@, "off"@, "iso"@]
    } else if cmd == ":scroll"@ {
        seq!["up"@, "down"@]
    } else if cmd == ":log"@ {
        seq!["on"@, "off"@]
    } else if cmd == ":theme"@ {
        theme_names()
    } else {
        Seq::empty()
    }
}

/// The views of static strings.
pub open spec fn static_views(v: Seq<&'static str>) -> Seq<Seq<char>> {
    v.map_values(|s: &'static str| s@)
}

/// The values offered for a command's argument (see `param_values`).
pub fn param_values_of(cmd: &str) -> (v: Vec<&'static str>)
    ensures
        static_views(v@) == param_values(cmd@),
{
    let v: Vec<&'static str> = if str_eq(cmd, ":baud") {
        vec!["300", "600", "1200", "2400", "4800", "9600", "19200", "38400", "57600", "115200",
            "230400", "460800", "921600", "1000000", "2000000"]
    } else if str_eq(cmd, ":encoding") {
        vec!["utf8", "gbk", "auto", "raw"]
    } else if str_eq(cmd, ":mode") {
        vec!["line", "direct"]
    } else if str_eq(cmd, ":parity") {
        vec!["none", "odd", "even"]
    } else if str_eq(cmd, ":stopbits") {
        vec!["1", "2"]
    } else if str_eq(cmd, ":databits") {
        vec!["5", "6", "7", "8"]
    } else if str_eq(cmd, ":flow") {
        vec!["none", "software", "hardware"]
    } else if str_eq(cmd, ":ts") {
        vec!["on", "off", "iso"]
    } else if str_eq(cmd, ":scroll") {
        vec!["up", "down"]
    } else if str_eq(cmd, ":log") {
        vec!["on", "off"]
    } else if str_eq(cmd, ":theme") {
        Theme::names()
    } else {
        Vec::new()
    };
    assert(static_views(v@) =~= param_values(cmd@));
    v
}

/// The entries of `t` whose name, after its leading `:`, starts with `prefix`.
pub open spec fn commands_matching(t: Seq<(&'static str, &'static str)>, prefix: Seq<char>) -> Seq<(Seq<char>, Seq<char>)>
    decreases t.len(),
{
    if t.len() == 0 {
        Seq::empty()
    } else {
        let p = commands_matching(t.drop_last(), prefix);
        let e = t.last();
        if e.0@.len() > 0 && starts_with(e.0@.skip(1), prefix) { p.push((e.0@, e.1@)) } else { p }
    }
}

/// The values of `vs` that start with `prefix`, in order.
pub open spec fn with_prefix(vs: Seq<Seq<char>>, prefix: Seq<char>) -> Seq<Seq<char>>
    decreases vs.len(),
{
    if vs.len() == 0 {
        Seq::empty()
    } else {
        let p = with_prefix(vs.drop_last(), prefix);
        if starts_with(vs.last(), prefix) { p.push(vs.last()) } else { p }
    }
}

/// Inserting `e` into a sorted list after the entries not greater than it.
pub open spec fn ins_sorted(s: Seq<Seq<char>>, e: Seq<char>) -> Seq<Seq<char>>
    decreases s.len(),
{
    if s.len() == 0 {
        seq![e]
    } else if lex_lt(e, s[0]) {
        seq![e] + s
    } else {
        seq![s[0]] + ins_sorted(s.drop_first(), e)
    }
}

/// `s` sorted in character order.
pub open spec fn sorted(s: Seq<Seq<char>>) -> Seq<Seq<char>>
    decreases s.len(),
{
    if s.len() == 0 { Seq::empty() } else { ins_sorted(sorted(s.drop_last()), s.last()) }
}

/// Whether `t` ends with `p`.
pub open spec fn ends_with(t: Seq<char>, p: Seq<char>) -> bool {
    p.len() <= t.len() && t.skip(t.len() - p.len()) == p
}

/// The log files (names ending in `.log`) of `names` that start with
/// `prefix`, sorted.
pub open spec fn log_files_matching(names: Seq<Seq<char>>, prefix: Seq<char>) -> Seq<Seq<char>> {
    sorted(with_prefix(log_names(names), prefix))
}

/// The names ending in `.log`, in order.
pub open spec fn log_names(names: Seq<Seq<char>>) -> Seq<Seq<char>>
    decreases names.len(),
{
    if names.len() == 0 {
        Seq::empty()
    } else {
        let p = log_names(names.drop_last());
        if ends_with(names.last(), ".log"@) { p.push(names.last()) } else { p }
    }
}

/// The position of the first space in `c`, or its length when there is none.
pub open spec fn space_at(c: Seq<char>) -> nat
    decreases c.len(),
{
    if c.len() == 0 {
        0
    } else if c[0] == ' ' {
        0
    } else {
        1 + space_at(c.drop_first())
    }
}

/// Commands whose argument is a serial port.
pub open spec fn is_port_command(cmd: Seq<char>) -> bool {
    cmd == ":port"@ || cmd == ":connect"@ || cmd == ":reconnect"@
}

/// What the surroundings offer for completion: the names of the files in
/// the application directory and the serial ports present.
pub struct CompletionEnv {
    pub files: Vec<String>,
    pub ports: Vec<String>,
}

/// The views of a vector of strings.
pub open spec fn string_views(v: Seq<String>) -> Seq<Seq<char>> {
    v.map_values(|s: String| s@)
}

/// Pairs each value with the same description.
pub open spec fn described(vs: Seq<Seq<char>>, d: Seq<char>) -> Seq<(Seq<char>, Seq<char>)> {
    vs.map_values(|v: Seq<char>| (v, d))
}

/// The completion candidates for the input `text`, each with its
/// description. Only input starting with `:` is completed. Before the first
/// space the command names matching what follows the `:` are offered.
/// After it the argument (without leading white space) is completed: log
/// files for `:replay`, present ports for the port commands, otherwise the
/// command's parameter values; a command with nothing to offer gets nothing.
pub open spec fn candidates(text: Seq<char>, env_files: Seq<Seq<char>>, env_ports: Seq<Seq<char>>) -> Seq<(Seq<char>, Seq<char>)> {
    if !starts_with(text, ":"@) {
        Seq::empty()
    } else {
        let k = space_at(text);
        if k < text.len() {
            let cmd = trim_end(text.take(k as int));
            let pre = trim_start(text.skip(k as int + 1));
            let files = log_files_matching(env_files, pre);
            if cmd == ":replay"@ && files.len() > 0 {
                described(files, "日志文件"@)
            } else if is_port_command(cmd) && env_ports.len() > 0 {
                described(with_prefix(env_ports, pre), "串口"@)
            } else if param_values(cmd).len() > 0 {
                described(with_prefix(param_values(cmd), pre), "参数"@)
            } else {
                Seq::empty()
            }
        } else {
            commands_matching(commands(), text.skip(1))
        }
    }
}

/// The input after completing it with `chosen`: an argument replaces what
/// follows the command name (for commands that complete arguments);
/// otherwise `chosen` replaces the command name, keeping any argument, or
/// is followed by a space.
pub open spec fn completed_text(text: Seq<char>, chosen: Seq<char>) -> Seq<char> {
    let k = space_at(text);
    if k < text.len() {
        let cmd = text.take(k as int);
        if param_values(cmd).len() > 0 || is_port_command(cmd) || cmd == ":replay"@ {
            cmd + " "@ + chosen
        } else {
            chosen + text.skip(k as int)
        }
    } else {
        chosen + " "@
    }
}

} // verus!

verus! {

/// The position of the first space in `t`, or its length.
pub fn find_space(t: &Vec<char>) -> (k: usize)
    ensures
        k == space_at(t@),
        k <= t@.len(),
{
    let mut k: usize = 0;
    assert(t@.skip(0) =~= t@);
    while k < t.len() && t[k] != ' '
        invariant
            0 <= k <= t@.len(),
            space_at(t@) == k + space_at(t@.skip(k as int)),
        decreases t@.len() - k,
    {
        proof {
            assert(t@.skip(k as int).drop_first() =~= t@.skip(k + 1));
        }
        k += 1;
    }
    proof {
        if k == t@.len() {
            assert(t@.skip(k as int).len() == 0);
        }
    }
    k
}

/// The entries whose name, after its `:`, starts with `prefix`.
pub fn matching_commands(prefix: &str) -> (r: Vec<(String, String)>)
    ensures
        r@.map_values(|p: (String, String)| (p.0@, p.1@)) == commands_matching(commands(), prefix@),
{
    let t = command_table();
    let mut r: Vec<(String, String)> = Vec::new();
    let mut i: usize = 0;
    while i < t.len()
        invariant
            0 <= i <= t@.len(),
            t@ == commands(),
            r@.map_values(|p: (String, String)| (p.0@, p.1@)) == commands_matching(t@.take(i as int), prefix@),
        decreases t@.len() - i,
    {
        let (name, desc) = t[i];
        let nc = chars_of(name);
        let pc = chars_of(prefix);
        let ghost before = r@.map_values(|p: (String, String)| (p.0@, p.1@));
        proof {
            assert(t@.take(i + 1).drop_last() =~= t@.take(i as int));
            assert(t@.take(i + 1).last() == t@[i as int]);
        }
        if nc.len() > 0 && crate::text::matches_at(&nc, 1, &pc) {
            proof {
                assert(nc@.skip(1).subrange(0, pc@.len() as int) =~= nc@.subrange(1, 1 + pc@.len() as int));
            }
            r.push((crate::text::owned(name), crate::text::owned(desc)));
            proof {
                assert(r@.map_values(|p: (String, String)| (p.0@, p.1@)) =~= before.push((name@, desc@)));
            }
        } else {
            proof {
                if nc@.len() > 0 && starts_with(nc@.skip(1), pc@) {
                    assert(nc@.skip(1).subrange(0, pc@.len() as int) =~= nc@.subrange(1, 1 + pc@.len() as int));
                }
            }
        }
        i += 1;
    }
    proof {
        assert(t@.take(t@.len() as int) =~= t@);
    }
    r
}

proof fn lemma_ins_sorted_is_insert(s: Seq<Seq<char>>, e: Seq<char>, k: int)
    requires
        0 <= k <= s.len(),
        forall|j: int| 0 <= j < k ==> !lex_lt(e, #[trigger] s[j]),
        k < s.len() ==> lex_lt(e, s[k]),
    ensures
        ins_sorted(s, e) == s.insert(k, e),
    decreases s.len(),
{
    if s.len() == 0 {
        assert(s.insert(k, e) =~= seq![e]);
    } else if k == 0 {
        assert(s.insert(0, e) =~= seq![e] + s);
    } else {
        let t = s.drop_first();
        assert forall|j: int| 0 <= j < k - 1 implies !lex_lt(e, #[trigger] t[j]) by {
            assert(t[j] == s[j + 1]);
        }
        lemma_ins_sorted_is_insert(t, e, k - 1);
        assert(seq![s[0]] + t.insert(k - 1, e) =~= s.insert(k, e));
    }
}

/// Inserts `e` into a sorted list after the entries not greater than it.
fn insert_sorted(v: &mut Vec<String>, e: String)
    ensures
        string_views(final(v)@) == ins_sorted(string_views(old(v)@), e@),
{
    let ghost s = string_views(v@);
    let n = v.len();
    let mut k: usize = 0;
    while k < n && !str_lt(e.as_str(), v[k].as_str())
        invariant
            n == v@.len(),
            0 <= k <= n,
            s == string_views(v@),
            forall|j: int| 0 <= j < k ==> !lex_lt(e@, #[trigger] s[j]),
        decreases n - k,
    {
        k += 1;
    }
    proof {
        lemma_ins_sorted_is_insert(s, e@, k as int);
    }
    v.insert(k, e);
    assert(string_views(v@) =~= s.insert(k as int, e@));
}

/// Sorts strings in character order.
pub fn sort_strings(v: Vec<String>) -> (r: Vec<String>)
    ensures
        string_views(r@) == sorted(string_views(v@)),
{
    let ghost orig = string_views(v@);
    let mut r: Vec<String> = Vec::new();
    let mut i: usize = 0;
    while i < v.len()
        invariant
            0 <= i <= v@.len(),
            orig == string_views(v@),
            string_views(r@) == sorted(orig.take(i as int)),
        decreases v@.len() - i,
    {
        proof {
            assert(orig.take(i + 1).drop_last() =~= orig.take(i as int));
            assert(orig.take(i + 1).last() == v@[i as int]@);
        }
        insert_sorted(&mut r, v[i].clone());
        i += 1;
    }
    proof {
        assert(orig.take(v@.len() as int) =~= orig);
    }
    r
}

/// Whether `t` ends with `p`.
pub fn str_ends_with(t: &str, p: &str) -> (r: bool)
    ensures
        r == ends_with(t@, p@),
{
    let tc = chars_of(t);
    let pc = chars_of(p);
    if pc.len() > tc.len() {
        return false;
    }
    let at = tc.len() - pc.len();
    let r = crate::text::matches_at(&tc, at, &pc);
    proof {
        assert(tc@.skip(at as int) =~= tc@.subrange(at as int, at + pc@.len()));
    }
    r
}

/// The strings of `vs` that start with `prefix`.
pub fn strings_with_prefix(vs: &Vec<String>, prefix: &str) -> (r: Vec<String>)
    ensures
        string_views(r@) == with_prefix(string_views(vs@), prefix@),
{
    let ghost all = string_views(vs@);
    let mut r: Vec<String> = Vec::new();
    let mut i: usize = 0;
    while i < vs.len()
        invariant
            0 <= i <= vs@.len(),
            all == string_views(vs@),
            string_views(r@) == with_prefix(all.take(i as int), prefix@),
        decreases vs@.len() - i,
    {
        proof {
            assert(all.take(i + 1).drop_last() =~= all.take(i as int));
            assert(all.take(i + 1).last() == vs@[i as int]@);
        }
        if str_starts_with(vs[i].as_str(), prefix) {
            let ghost before = string_views(r@);
            r.push(vs[i].clone());
            assert(string_views(r@) =~= before.push(vs@[i as int]@));
        }
        i += 1;
    }
    proof {
        assert(all.take(vs@.len() as int) =~= all);
    }
    r
}

/// The names ending in `.log`.
fn log_names_of(names: &Vec<String>) -> (r: Vec<String>)
    ensures
        string_views(r@) == log_names(string_views(names@)),
{
    let ghost all = string_views(names@);
    let mut r: Vec<String> = Vec::new();
    let mut i: usize = 0;
    while i < names.len()
        invariant
            0 <= i <= names@.len(),
            all == string_views(names@),
            string_views(r@) == log_names(all.take(i as int)),
        decreases names@.len() - i,
    {
        proof {
            assert(all.take(i + 1).drop_last() =~= all.take(i as int));
            assert(all.take(i + 1).last() == names@[i as int]@);
        }
        if str_ends_with(names[i].as_str(), ".log") {
            let ghost before = string_views(r@);
            r.push(names[i].clone());
            assert(string_views(r@) =~= before.push(names@[i as int]@));
        }
        i += 1;
    }
    proof {
        assert(all.take(names@.len() as int) =~= all);
    }
    r
}

/// Each string paired with the description `d`.
fn describe(vs: Vec<String>, d: &str) -> (r: Vec<(String, String)>)
    ensures
        r@.map_values(|p: (String, String)| (p.0@, p.1@)) == described(string_views(vs@), d@),
{
    let mut r: Vec<(String, String)> = Vec::new();
    let mut i: usize = 0;
    while i < vs.len()
        invariant
            0 <= i <= vs@.len(),
            r@.map_values(|p: (String, String)| (p.0@, p.1@)) == described(string_views(vs@).take(i as int), d@),
        decreases vs@.len() - i,
    {
        let ghost before = r@.map_values(|p: (String, String)| (p.0@, p.1@));
        r.push((vs[i].clone(), crate::text::owned(d)));
        proof {
            assert(r@.map_values(|p: (String, String)| (p.0@, p.1@)) =~= before.push((vs@[i as int]@, d@)));
            assert(described(string_views(vs@).take(i + 1), d@) =~= described(string_views(vs@).take(i as int), d@).push((vs@[i as int]@, d@)));
        }
        i += 1;
    }
    proof {
        assert(string_views(vs@).take(vs@.len() as int) =~= string_views(vs@));
    }
    r
}

/// Static strings as owned strings.
fn owned_all(v: &Vec<&'static str>) -> (r: Vec<String>)
    ensures
        string_views(r@) == static_views(v@),
{
    let mut r: Vec<String> = Vec::new();
    let mut i: usize = 0;
    while i < v.len()
        invariant
            0 <= i <= v@.len(),
            string_views(r@) == static_views(v@).take(i as int),
        decreases v@.len() - i,
    {
        let ghost before = string_views(r@);
        r.push(crate::text::owned(v[i]));
        assert(string_views(r@) =~= before.push(v@[i as int]@));
        assert(static_views(v@).take(i + 1) =~= static_views(v@).take(i as int).push(v@[i as int]@));
        i += 1;
    }
    assert(static_views(v@).take(v@.len() as int) =~= static_views(v@));
    r
}

/// The trimmed-at-the-end `t[a..b]`.
fn trim_end_range(t: &Vec<char>, a: usize, b: usize) -> (r: usize)
    requires
        a <= b <= t@.len(),
    ensures
        a <= r <= b,
        t@.subrange(a as int, r as int) == trim_end(t@.subrange(a as int, b as int)),
{
    let mut j = b;
    while j > a && crate::text::char_is_ws(t[j - 1])
        invariant
            a <= j <= b <= t@.len(),
            trim_end(t@.subrange(a as int, b as int)) == trim_end(t@.subrange(a as int, j as int)),
        decreases j - a,
    {
        proof {
            assert(t@.subrange(a as int, j as int).drop_last() =~= t@.subrange(a as int, j - 1));
        }
        j -= 1;
    }
    j
}

/// The trimmed-at-the-start `t[a..b]`.
fn trim_start_range(t: &Vec<char>, a: usize, b: usize) -> (r: usize)
    requires
        a <= b <= t@.len(),
    ensures
        a <= r <= b,
        t@.subrange(r as int, b as int) == trim_start(t@.subrange(a as int, b as int)),
{
    let mut i = a;
    while i < b && crate::text::char_is_ws(t[i])
        invariant
            a <= i <= b <= t@.len(),
            trim_start(t@.subrange(a as int, b as int)) == trim_start(t@.subrange(i as int, b as int)),
        decreases b - i,
    {
        proof {
            assert(t@.subrange(i as int, b as int).drop_first() =~= t@.subrange(i + 1, b as int));
        }
        i += 1;
    }
    i
}

/// The completion candidates for `text` (see `candidates`).
pub fn completion_candidates(text: &str, env: &CompletionEnv) -> (r: Vec<(String, String)>)
    ensures
        r@.map_values(|p: (String, String)| (p.0@, p.1@))
            == candidates(text@, string_views(env.files@), string_views(env.ports@)),
{
    if !str_starts_with(text, ":") {
        return Vec::new();
    }
    let t = chars_of(text);
    proof {
        reveal_strlit(":");
        assert(t@.len() >= 1);
    }
    let k = find_space(&t);
    if k < t.len() {
        let ce = trim_end_range(&t, 0, k);
        let ps = trim_start_range(&t, k + 1, t.len());
        let cmd = string_of_range(&t, 0, ce);
        let pre = string_of_range(&t, ps, t.len());
        proof {
            assert(t@.subrange(0, k as int) =~= t@.take(k as int));
            assert(t@.subrange(k + 1, t@.len() as int) =~= t@.skip(k + 1));
        }
        let logs = log_names_of(&env.files);
        let files = sort_strings(strings_with_prefix(&logs, pre.as_str()));
        if str_eq(cmd.as_str(), ":replay") && files.len() > 0 {
            return describe(files, "日志文件");
        }
        if (str_eq(cmd.as_str(), ":port") || str_eq(cmd.as_str(), ":connect") || str_eq(cmd.as_str(), ":reconnect"))
            && env.ports.len() > 0 {
            return describe(strings_with_prefix(&env.ports, pre.as_str()), "串口");
        }
        let vals = param_values_of(cmd.as_str());
        if vals.len() > 0 {
            let owned_vals = owned_all(&vals);
            return describe(strings_with_prefix(&owned_vals, pre.as_str()), "参数");
        }
        return Vec::new();
    }
    let rest = string_of_range(&t, 1, t.len());
    proof {
        assert(t@.subrange(1, t@.len() as int) =~= t@.skip(1));
    }
    matching_commands(rest.as_str())
}

/// The input after completing it with `chosen` (see `completed_text`).
pub fn complete_with(text: &str, chosen: &str) -> (r: String)
    ensures
        r@ == completed_text(text@, chosen@),
{
    let t = chars_of(text);
    let k = find_space(&t);
    if k < t.len() {
        let cmd = string_of_range(&t, 0, k);
        proof {
            assert(t@.subrange(0, k as int) =~= t@.take(k as int));
        }
        let c = cmd.as_str();
        if param_values_of(c).len() > 0 || str_eq(c, ":port") || str_eq(c, ":connect") || str_eq(c, ":reconnect")
            || str_eq(c, ":replay") {
            let mut r = crate::text::concat(c, " ");
            crate::text::push_str(&mut r, chosen);
            r
        } else {
            let rest = string_of_range(&t, k, t.len());
            proof {
                assert(t@.subrange(k as int, t@.len() as int) =~= t@.skip(k as int));
            }
            crate::text::concat(chosen, rest.as_str())
        }
    } else {
        crate::text::concat(chosen, " ")
    }
}

} // verus!

verus! {

/// In a text whose first part has no space, the first space is the one that
/// follows that part.
proof fn lemma_space_after(cmd: Seq<char>, rest: Seq<char>)
    requires
        !cmd.contains(' '),
    ensures
        space_at(cmd + seq![' '] + rest) == cmd.len(),
    decreases cmd.len(),
{
    let t = cmd + seq![' '] + rest;
    if cmd.len() == 0 {
        assert(t[0] == ' ');
    } else {
        assert(cmd[0] != ' ');
        assert(t[0] == cmd[0]);
        let c2 = cmd.drop_first();
        assert(!c2.contains(' ')) by {
            if c2.contains(' ') {
                let j = choose|j: int| 0 <= j < c2.len() && c2[j] == ' ';
                assert(cmd[j + 1] == ' ');
            }
        }
        assert(t.drop_first() =~= c2 + seq![' '] + rest);
        lemma_space_after(c2, rest);
    }
}

/// A text without spaces has its "first space" at its end.
proof fn lemma_no_space(t: Seq<char>)
    requires
        !t.contains(' '),
    ensures
        space_at(t) == t.len(),
    decreases t.len(),
{
    if t.len() > 0 {
        assert(t[0] != ' ');
        let t2 = t.drop_first();
        assert(!t2.contains(' ')) by {
            if t2.contains(' ') {
                let j = choose|j: int| 0 <= j < t2.len() && t2[j] == ' ';
                assert(t[j + 1] == ' ');
            }
        }
        lemma_no_space(t2);
    }
}

/// Completing the argument of a command that takes one (a serial port, a
/// log file or one of its listed values) keeps the command: the completed
/// input is the command, one space and the chosen value, whatever argument
/// was typed.
pub proof fn law_argument_completion_keeps_command(cmd: Seq<char>, arg: Seq<char>, v: Seq<char>)
    requires
        cmd == ":port"@ || cmd == ":connect"@ || cmd == ":reconnect"@ || cmd == ":replay"@
            || cmd == ":baud"@ || cmd == ":encoding"@ || cmd == ":mode"@ || cmd == ":parity"@
            || cmd == ":stopbits"@ || cmd == ":databits"@ || cmd == ":flow"@ || cmd == ":ts"@
            || cmd == ":scroll"@ || cmd == ":log"@ || cmd == ":theme"@,
    ensures
        completed_text(cmd + " "@ + arg, v) == cmd + " "@ + v,
{
    reveal_strlit(" ");
    reveal_strlit(":port");
    reveal_strlit(":connect");
    reveal_strlit(":reconnect");
    reveal_strlit(":replay");
    reveal_strlit(":baud");
    reveal_strlit(":encoding");
    reveal_strlit(":mode");
    reveal_strlit(":parity");
    reveal_strlit(":stopbits");
    reveal_strlit(":databits");
    reveal_strlit(":flow");
    reveal_strlit(":ts");
    reveal_strlit(":scroll");
    reveal_strlit(":log");
    reveal_strlit(":theme");
    assert(!cmd.contains(' '));
    let t = cmd + " "@ + arg;
    assert(t =~= cmd + seq![' '] + arg);
    lemma_space_after(cmd, arg);
    assert(t.take(cmd.len() as int) =~= cmd);
    assert(theme_names().len() > 0);
}

/// Completing a command name with no argument typed yet gives the chosen
/// name followed by one space.
pub proof fn law_name_completion_adds_space(text: Seq<char>, v: Seq<char>)
    requires
        !text.contains(' '),
    ensures
        completed_text(text, v) == v + " "@,
{
    lemma_no_space(text);
}

/// Completing the name of a command whose argument is not completed keeps
/// the typed argument after the chosen name.
pub proof fn law_name_completion_keeps_argument(cmd: Seq<char>, arg: Seq<char>, v: Seq<char>)
    requires
        !cmd.contains(' '),
        param_values(cmd).len() == 0,
        !is_port_command(cmd),
        cmd != ":replay"@,
    ensures
        completed_text(cmd + " "@ + arg, v) == v + " "@ + arg,
{
    reveal_strlit(" ");
    let t = cmd + " "@ + arg;
    assert(t =~= cmd + seq![' '] + arg);
    lemma_space_after(cmd, arg);
    assert(t.take(cmd.len() as int) =~= cmd);
    assert(t.skip(cmd.len() as int) =~= " "@ + arg);
}

} // verus!
