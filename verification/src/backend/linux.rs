//! The Linux backend's parsing of kernel tables: process states, and the
//! socket tables under `/proc/<pid>/net`.
use vstd::prelude::*;

use crate::models::{NetworkConnection, ProcessState};
use crate::text::{chars_of, nat_dec, push_str, push_u64, string_of};

verus! {

/// The process state of a `stat` state letter.
pub open spec fn state_of_letter(c: char) -> ProcessState {
    if c == 'R' {
        ProcessState::Running
    } else if c == 'S' || c == 'D' {
        ProcessState::Sleeping
    } else if c == 'T' || c == 't' {
        ProcessState::Stopped
    } else if c == 'Z' || c == 'X' {
        ProcessState::Zombie
    } else if c == 'I' {
        ProcessState::Idle
    } else {
        ProcessState::Unknown
    }
}

/// The process state of a `stat` state letter.
pub fn linux_state(c: char) -> (r: ProcessState)
    ensures
        r == state_of_letter(c),
{
    match c {
        'R' => ProcessState::Running,
        'S' | 'D' => ProcessState::Sleeping,
        'T' | 't' => ProcessState::Stopped,
        'Z' | 'X' => ProcessState::Zombie,
        'I' => ProcessState::Idle,
        _ => ProcessState::Unknown,
    }
}

/// The name of a TCP state number of the kernel's socket tables.
pub open spec fn tcp_label(state: u32) -> Seq<char> {
    if state == 0x01 { "ESTABLISHED"@ }
    else if state == 0x02 { "SYN_SENT"@ }
    else if state == 0x03 { "SYN_RECV"@ }
    else if state == 0x04 { "FIN_WAIT1"@ }
    else if state == 0x05 { "FIN_WAIT2"@ }
    else if state == 0x06 { "TIME_WAIT"@ }
    else if state == 0x07 { "CLOSE"@ }
    else if state == 0x08 { "CLOSE_WAIT"@ }
    else if state == 0x09 { "LAST_ACK"@ }
    else if state == 0x0A { "LISTEN"@ }
    else if state == 0x0B { "CLOSING"@ }
    else { "UNKNOWN"@ }
}

/// The name of a TCP state number of the kernel's socket tables.
pub fn tcp_state(state: u32) -> (r: &'static str)
    ensures
        r@ == tcp_label(state),
{
    match state {
        0x01 => "ESTABLISHED",
        0x02 => "SYN_SENT",
        0x03 => "SYN_RECV",
        0x04 => "FIN_WAIT1",
        0x05 => "FIN_WAIT2",
        0x06 => "TIME_WAIT",
        0x07 => "CLOSE",
        0x08 => "CLOSE_WAIT",
        0x09 => "LAST_ACK",
        0x0A => "LISTEN",
        0x0B => "CLOSING",
        _ => "UNKNOWN",
    }
}

/// White space as Unicode's White_Space property defines it (the
/// characters `char::is_whitespace` accepts).
pub open spec fn is_space(c: char) -> bool {
    let n = c as u32;
    ||| (0x09 <= n && n <= 0x0d)
    ||| n == 0x20
    ||| n == 0x85
    ||| n == 0xa0
    ||| n == 0x1680
    ||| (0x2000 <= n && n <= 0x200a)
    ||| n == 0x2028
    ||| n == 0x2029
    ||| n == 0x202f
    ||| n == 0x205f
    ||| n == 0x3000
}

/// Whether `c` is white space.
pub fn space_char(c: char) -> (b: bool)
    ensures
        b == is_space(c),
{
    let n = c as u32;
    (0x09 <= n && n <= 0x0d) || n == 0x20 || n == 0x85 || n == 0xa0 || n == 0x1680
        || (0x2000 <= n && n <= 0x200a) || n == 0x2028 || n == 0x2029 || n == 0x202f
        || n == 0x205f || n == 0x3000
}

/// The maximal runs of non-space characters of `s`, in order.
pub open spec fn words(s: Seq<char>) -> Seq<Seq<char>>
    decreases s.len(),
{
    if s.len() == 0 {
        Seq::empty()
    } else {
        let w = words(s.drop_last());
        let c = s.last();
        if is_space(c) {
            w
        } else if s.len() >= 2 && !is_space(s[s.len() - 2]) {
            w.update(w.len() - 1, w.last().push(c))
        } else {
            w.push(seq![c])
        }
    }
}

/// The words of `s`, split at white space.
pub fn split_words(s: &Vec<char>) -> (r: Vec<Vec<char>>)
    ensures
        r@.len() == words(s@).len(),
        forall|k: int| 0 <= k < r@.len() ==> #[trigger] r@[k]@ == words(s@)[k],
{
    let mut done: Vec<Vec<char>> = Vec::new();
    let mut cur: Vec<char> = Vec::new();
    let mut i: usize = 0;
    while i < s.len()
        invariant
            i <= s@.len(),
            cur@.len() > 0 ==> i > 0 && !is_space(s@[i - 1]),
            i > 0 && !is_space(s@[i - 1]) ==> cur@.len() > 0,
            cur@.len() == 0 ==> done@.len() == words(s@.take(i as int)).len()
                && forall|k: int| 0 <= k < done@.len() ==> #[trigger] done@[k]@ == words(s@.take(i as int))[k],
            cur@.len() > 0 ==> done@.len() + 1 == words(s@.take(i as int)).len()
                && (forall|k: int| 0 <= k < done@.len() ==> #[trigger] done@[k]@ == words(s@.take(i as int))[k])
                && cur@ == words(s@.take(i as int)).last(),
        decreases s@.len() - i,
    {
        let c = s[i];
        let ghost t = s@.take(i + 1);
        assert(t.drop_last() =~= s@.take(i as int));
        assert(t.last() == c);
        if space_char(c) {
            if cur.len() > 0 {
                let w = cur;
                done.push(w);
                cur = Vec::new();
            }
        } else {
            if i > 0 {
                assert(t[t.len() - 2] == s@[i - 1]);
            }
            cur.push(c);
        }
        i = i + 1;
    }
    assert(s@.take(i as int) =~= s@);
    if cur.len() > 0 {
        done.push(cur);
    }
    done
}

/// The value of a hexadecimal digit.
pub open spec fn hex_digit(c: char) -> Option<nat> {
    let n = c as u32;
    if 0x30 <= n && n <= 0x39 {
        Some((n - 0x30) as nat)
    } else if 0x61 <= n && n <= 0x66 {
        Some((n - 0x61 + 10) as nat)
    } else if 0x41 <= n && n <= 0x46 {
        Some((n - 0x41 + 10) as nat)
    } else {
        None
    }
}

/// The value of a string of hexadecimal digits (zero for no digits).
pub open spec fn hex_digits_value(d: Seq<char>) -> Option<nat>
    decreases d.len(),
{
    if d.len() == 0 {
        Some(0)
    } else {
        match (hex_digits_value(d.drop_last()), hex_digit(d.last())) {
            (Some(v), Some(x)) => Some(v * 16 + x),
            _ => None,
        }
    }
}

/// The unsigned number that `from_str_radix(s, 16)` reads from `s` for a
/// type whose largest value is `max`: hexadecimal digits after an optional
/// `+`, at least one of them, and no more than `max`.
pub open spec fn parse_hex(s: Seq<char>, max: nat) -> Option<nat> {
    if s.len() == 0 {
        None
    } else {
        let d = if s[0] == '+' { s.drop_first() } else { s };
        if d.len() == 0 {
            None
        } else {
            match hex_digits_value(d) {
                Some(v) => if v <= max { Some(v) } else { None },
                None => None,
            }
        }
    }
}

/// A valid string of digits has a value at least that of any prefix.
proof fn lemma_hex_prefix(d: Seq<char>, n: int)
    requires
        0 <= n <= d.len(),
        hex_digits_value(d) is Some,
    ensures
        hex_digits_value(d.take(n)) is Some,
        hex_digits_value(d.take(n))->0 <= hex_digits_value(d)->0,
    decreases d.len() - n,
{
    if n == d.len() {
        assert(d.take(n) =~= d);
    } else {
        assert(d.take(n + 1).drop_last() =~= d.take(n));
        lemma_hex_prefix(d, n + 1);
    }
}

/// The value of one hexadecimal digit.
fn hex_digit_exec(c: char) -> (r: Option<u32>)
    ensures
        match hex_digit(c) {
            Some(v) => r == Some(v as u32),
            None => r is None,
        },
{
    let n = c as u32;
    if 0x30 <= n && n <= 0x39 {
        Some(n - 0x30)
    } else if 0x61 <= n && n <= 0x66 {
        Some(n - 0x61 + 10)
    } else if 0x41 <= n && n <= 0x46 {
        Some(n - 0x41 + 10)
    } else {
        None
    }
}

/// Reads a hexadecimal number no larger than `max`, as `from_str_radix`
/// does for an unsigned type.
pub fn read_hex(s: &Vec<char>, max: u64) -> (r: Option<u64>)
    ensures
        match parse_hex(s@, max as nat) {
            Some(v) => r == Some(v as u64),
            None => r is None,
        },
{
    if s.len() == 0 {
        return None;
    }
    let start: usize = if s[0] == '+' { 1 } else { 0 };
    let ghost d = if s@[0] == '+' { s@.drop_first() } else { s@ };
    assert(d =~= s@.skip(start as int));
    if start == s.len() {
        return None;
    }
    let mut v: u64 = 0;
    let mut i: usize = start;
    while i < s.len()
        invariant
            start <= i <= s@.len(),
            s@.len() > 0,
            start < s@.len(),
            d == s@.skip(start as int),
            d == (if s@[0] == '+' { s@.drop_first() } else { s@ }),
            hex_digits_value(d.take(i - start)) == Some(v as nat),
            v <= max,
        decreases s@.len() - i,
    {
        let ghost k = i - start;
        assert(d.take(k + 1).drop_last() =~= d.take(k));
        assert(d.take(k + 1).last() == s@[i as int]);
        match hex_digit_exec(s[i]) {
            None => {
                proof {
                    assert(hex_digits_value(d.take(k + 1)) is None);
                    if hex_digits_value(d) is Some {
                        lemma_hex_prefix(d, k + 1);
                    }
                    assert(hex_digits_value(d) is None);
                    assert(d.len() > 0);
                    assert(parse_hex(s@, max as nat) is None);
                }
                return None;
            },
            Some(x) => {
                if x as u64 > max || v > (max - x as u64) / 16 {
                    proof {
                        assert(v * 16 + x > max) by (nonlinear_arith)
                            requires x > max || v > (max - x) / 16, v >= 0;
                        assert(hex_digits_value(d.take(k + 1)) == Some((v * 16 + x) as nat));
                        if hex_digits_value(d) is Some {
                            lemma_hex_prefix(d, k + 1);
                        }
                    }
                    return None;
                }
                assert(v * 16 + x <= max) by (nonlinear_arith)
                    requires v <= (max - x) / 16, x <= max;
                v = v * 16 + x as u64;
            },
        }
        i = i + 1;
    }
    assert(d.take(i - start) =~= d);
    Some(v)
}

/// The pieces of `s` between the separators `sep` (one piece when `sep`
/// does not occur).
pub open spec fn split_at_char(s: Seq<char>, sep: char) -> Seq<Seq<char>>
    decreases s.len(),
{
    if s.len() == 0 {
        seq![Seq::empty()]
    } else {
        let p = split_at_char(s.drop_last(), sep);
        if s.last() == sep {
            p.push(Seq::empty())
        } else {
            p.update(p.len() - 1, p.last().push(s.last()))
        }
    }
}

/// There is always at least one piece.
proof fn lemma_split_nonempty(s: Seq<char>, sep: char)
    ensures
        split_at_char(s, sep).len() >= 1,
    decreases s.len(),
{
    if s.len() > 0 {
        lemma_split_nonempty(s.drop_last(), sep);
    }
}

/// The pieces of `s` between the separators `sep`.
pub fn split_chars(s: &Vec<char>, sep: char) -> (r: Vec<Vec<char>>)
    ensures
        r@.len() == split_at_char(s@, sep).len(),
        forall|k: int| 0 <= k < r@.len() ==> #[trigger] r@[k]@ == split_at_char(s@, sep)[k],
{
    let mut done: Vec<Vec<char>> = Vec::new();
    let mut cur: Vec<char> = Vec::new();
    let mut i: usize = 0;
    assert(s@.take(0) =~= Seq::<char>::empty());
    while i < s.len()
        invariant
            i <= s@.len(),
            done@.len() + 1 == split_at_char(s@.take(i as int), sep).len(),
            forall|k: int| 0 <= k < done@.len() ==> #[trigger] done@[k]@ == split_at_char(s@.take(i as int), sep)[k],
            cur@ == split_at_char(s@.take(i as int), sep).last(),
        decreases s@.len() - i,
    {
        let c = s[i];
        assert(s@.take(i + 1).drop_last() =~= s@.take(i as int));
        proof { lemma_split_nonempty(s@.take(i as int), sep); }
        if c == sep {
            let w = cur;
            done.push(w);
            cur = Vec::new();
        } else {
            cur.push(c);
        }
        i = i + 1;
    }
    assert(s@.take(i as int) =~= s@);
    done.push(cur);
    done
}

/// The number of bytes of `c` in UTF-8.
pub open spec fn utf8_width(c: char) -> nat {
    let n = c as u32;
    if n < 0x80 { 1 } else if n < 0x800 { 2 } else if n < 0x10000 { 3 } else { 4 }
}

/// The number of bytes of `s` in UTF-8 (what `str::len` counts).
pub open spec fn utf8_len(s: Seq<char>) -> nat
    decreases s.len(),
{
    if s.len() == 0 { 0 } else { utf8_len(s.drop_last()) + utf8_width(s.last()) }
}

/// The number of bytes of `s` in UTF-8.
pub fn utf8_size(s: &Vec<char>) -> (r: u128)
    ensures
        r == utf8_len(s@),
{
    let mut n: u128 = 0;
    let mut i: usize = 0;
    while i < s.len()
        invariant
            i <= s@.len(),
            n == utf8_len(s@.take(i as int)),
            n <= 4 * i,
        decreases s@.len() - i,
    {
        assert(s@.take(i + 1).drop_last() =~= s@.take(i as int));
        let c = s[i] as u32;
        let w: u128 = if c < 0x80 { 1 } else if c < 0x800 { 2 } else if c < 0x10000 { 3 } else { 4 };
        n = n + w;
        i = i + 1;
    }
    assert(s@.take(i as int) =~= s@);
    n
}

/// An IPv4 address of the kernel's tables (a little-endian word) in dotted
/// form.
pub open spec fn dotted(b: nat) -> Seq<char> {
    nat_dec(b % 256) + "."@ + nat_dec((b / 256) % 256) + "."@ + nat_dec((b / 65536) % 256) + "."@
        + nat_dec(b / 16777216)
}

/// An address `ADDR:PORT` of the kernel's socket tables, in hexadecimal,
/// as `a.b.c.d:port` (IPv4) or `[::ipv6]:port` (IPv6, not spelled out).
pub open spec fn addr_text(s: Seq<char>) -> Option<Seq<char>> {
    let parts = split_at_char(s, ':');
    if parts.len() != 2 {
        None
    } else {
        match parse_hex(parts[1], 0xffff) {
            None => None,
            Some(port) => if utf8_len(parts[0]) == 8 {
                match parse_hex(parts[0], 0xffff_ffff) {
                    None => None,
                    Some(b) => Some(dotted(b) + ":"@ + nat_dec(port)),
                }
            } else if utf8_len(parts[0]) == 32 {
                Some("[::ipv6]:"@ + nat_dec(port))
            } else {
                None
            },
        }
    }
}

/// Reads an address `ADDR:PORT` of the kernel's socket tables.
pub fn parse_addr(hex_addr: &str) -> (r: Option<String>)
    ensures
        match addr_text(hex_addr@) {
            Some(t) => r is Some && r->0@ == t,
            None => r is None,
        },
{
    let chars = chars_of(hex_addr);
    let parts = split_chars(&chars, ':');
    if parts.len() != 2 {
        return None;
    }
    let port = match read_hex(&parts[1], 0xffff) {
        Some(p) => p,
        None => return None,
    };
    let width = utf8_size(&parts[0]);
    if width == 8 {
        let b = match read_hex(&parts[0], 0xffff_ffff) {
            Some(b) => b,
            None => return None,
        };
        let mut out = String::new();
        push_u64(&mut out, b % 256);
        push_str(&mut out, ".");
        push_u64(&mut out, (b / 256) % 256);
        push_str(&mut out, ".");
        push_u64(&mut out, (b / 65536) % 256);
        push_str(&mut out, ".");
        push_u64(&mut out, b / 16777216);
        push_str(&mut out, ":");
        push_u64(&mut out, port);
        Some(out)
    } else if width == 32 {
        let mut out = String::new();
        push_str(&mut out, "[::ipv6]:");
        push_u64(&mut out, port);
        Some(out)
    } else {
        None
    }
}

/// Whether `a` and `b` hold the same characters.
fn same_chars(a: &Vec<char>, b: &Vec<char>) -> (r: bool)
    ensures
        r == (a@ == b@),
{
    if a.len() != b.len() {
        return false;
    }
    let mut i: usize = 0;
    while i < a.len()
        invariant
            a@.len() == b@.len(),
            i <= a@.len(),
            forall|k: int| 0 <= k < i ==> a@[k] == b@[k],
        decreases a@.len() - i,
    {
        if a[i] != b[i] {
            return false;
        }
        i = i + 1;
    }
    assert(a@ =~= b@);
    true
}

/// What a line of a socket table gives for protocol `proto`: the local
/// address, the remote address unless it is the unspecified one, and for
/// TCP the state; none for a line with fewer than four fields or a field
/// that does not read.
pub open spec fn net_line(line: Seq<char>, proto: Seq<char>) -> Option<(Seq<char>, Option<Seq<char>>, Option<Seq<char>>)> {
    let f = words(line);
    if f.len() < 4 {
        None
    } else {
        match (addr_text(f[1]), addr_text(f[2]), parse_hex(f[3], 0xffff_ffff)) {
            (Some(local), Some(remote), Some(st)) => {
                let state = if proto.len() >= 3 && proto.take(3) == "tcp"@ { Some(tcp_label(st as u32)) } else { None };
                let remote_addr = if remote == "0.0.0.0:0"@ || remote == "[::]:0"@ { None } else { Some(remote) };
                Some((local, remote_addr, state))
            },
            _ => None,
        }
    }
}

/// The text of an optional string.
pub open spec fn opt_chars(o: Option<String>) -> Option<Seq<char>> {
    match o {
        Some(s) => Some(s@),
        None => None,
    }
}

/// Reads one line of `/proc/<pid>/net/{tcp,tcp6,udp,udp6}`.
pub fn parse_net_line(line: &str, proto: &str) -> (r: Option<NetworkConnection>)
    ensures
        match net_line(line@, proto@) {
            Some((local, remote, state)) => r is Some && r->0.proto@ == proto@ && r->0.local_addr@ == local
                && opt_chars(r->0.remote_addr) == remote && opt_chars(r->0.state) == state,
            None => r is None,
        },
{
    let chars = chars_of(line);
    let fields = split_words(&chars);
    if fields.len() < 4 {
        return None;
    }
    let f1 = string_of(&fields[1]);
    let f2 = string_of(&fields[2]);
    let local = match parse_addr(f1.as_str()) {
        Some(a) => a,
        None => return None,
    };
    let remote = match parse_addr(f2.as_str()) {
        Some(a) => a,
        None => return None,
    };
    let state_num = match read_hex(&fields[3], 0xffff_ffff) {
        Some(v) => v as u32,
        None => return None,
    };
    let p = chars_of(proto);
    let tcp = chars_of("tcp");
    proof { reveal_strlit("tcp"); }
    let is_tcp = p.len() >= 3 && p[0] == tcp[0] && p[1] == tcp[1] && p[2] == tcp[2];
    assert(is_tcp == (proto@.len() >= 3 && proto@.take(3) == "tcp"@)) by {
        if proto@.len() >= 3 {
            if is_tcp {
                assert(proto@.take(3) =~= "tcp"@);
            }
        }
    }
    let state = if is_tcp { Some(tcp_state(state_num).to_string()) } else { None };
    let rc = chars_of(remote.as_str());
    let zero4 = chars_of("0.0.0.0:0");
    let zero6 = chars_of("[::]:0");
    let remote_addr = if same_chars(&rc, &zero4) || same_chars(&rc, &zero6) { None } else { Some(remote) };
    Some(NetworkConnection { proto: proto.to_string(), local_addr: local, remote_addr, state })
}

/// The fields of `/proc/<pid>/stat` that the explorer uses.
#[derive(Debug, Clone)]
pub struct ProcStat {
    pub comm: String,
    pub state: char,
    pub ppid: i32,
    pub minflt: u64,
    pub majflt: u64,
    pub utime: u64,
    pub stime: u64,
    pub nice: i64,
    pub num_threads: i64,
    pub starttime: u64,
    pub vsize: u64,
    pub rss: u64,
}

/// What a descriptor of `/proc/<pid>/fd` points to.
#[derive(Debug, Clone)]
pub enum FdTarget {
    Path(String),
    Socket,
    Pipe,
    Other,
}

/// CPU time in nanoseconds from user and system ticks; zero when the tick
/// rate is unknown.
pub open spec fn cpu_ns_of(utime: u64, stime: u64, ticks_per_sec: u64) -> u64 {
    if ticks_per_sec > 0 {
        ((utime + stime) * 1_000_000_000 / (ticks_per_sec as int)) as u64
    } else {
        0
    }
}

/// Whether the CPU time of `utime` and `stime` ticks fits in nanoseconds
/// (there is nothing to compute when the tick rate is unknown).
pub open spec fn cpu_ns_fits(utime: u64, stime: u64, ticks_per_sec: u64) -> bool {
    ticks_per_sec > 0 ==> (utime + stime) * 1_000_000_000 <= u64::MAX
}

/// CPU time in nanoseconds from user and system ticks.
pub fn cpu_time_ns(utime: u64, stime: u64, ticks_per_sec: u64) -> (r: u64)
    requires
        cpu_ns_fits(utime, stime, ticks_per_sec),
    ensures
        r == cpu_ns_of(utime, stime, ticks_per_sec),
{
    if ticks_per_sec > 0 {
        (utime + stime) * 1_000_000_000 / ticks_per_sec
    } else {
        0
    }
}

/// Resident memory in bytes from resident pages.
pub fn rss_bytes(rss_pages: u64, page_size: u64) -> (r: u64)
    requires
        rss_pages * page_size <= u64::MAX,
    ensures
        r == rss_pages * page_size,
{
    rss_pages * page_size
}

/// A counter kept as an `i32`, truncated as a cast does.
pub open spec fn as_counter(v: int) -> i32 {
    v as i32
}

/// The page faults (minor and major) of a process, as an `i32` counter.
pub fn fault_count(minflt: u64, majflt: u64) -> (r: i32)
    requires
        minflt + majflt <= u64::MAX,
    ensures
        r == as_counter(minflt + majflt),
{
    (minflt + majflt) as i32
}

/// The context switches counted in a status (voluntary and not, a missing
/// count as zero).
pub open spec fn switches_of(voluntary: Option<u64>, nonvoluntary: Option<u64>) -> int {
    (match voluntary { Some(v) => v as int, None => 0 }) + (match nonvoluntary { Some(v) => v as int, None => 0 })
}

/// The context switches (voluntary and not) of a process, as an `i32`
/// counter; zero when the status could not be read.
pub fn switch_count(voluntary: Option<u64>, nonvoluntary: Option<u64>, have_status: bool) -> (r: i32)
    requires
        have_status ==> switches_of(voluntary, nonvoluntary) <= u64::MAX,
    ensures
        !have_status ==> r == 0,
        have_status ==> r == as_counter(switches_of(voluntary, nonvoluntary)),
{
    if !have_status {
        return 0;
    }
    let v: u64 = match voluntary { Some(v) => v, None => 0 };
    let n: u64 = match nonvoluntary { Some(n) => n, None => 0 };
    (v + n) as i32
}

/// The start time of a process in seconds since the epoch; zero when the
/// tick rate is unknown.
pub fn started_secs(boot_time: u64, starttime: u64, ticks_per_sec: u64) -> (r: u64)
    requires
        ticks_per_sec > 0 ==> boot_time + starttime / ticks_per_sec <= u64::MAX,
    ensures
        ticks_per_sec > 0 ==> r == boot_time + starttime / ticks_per_sec,
        ticks_per_sec == 0 ==> r == 0,
{
    if ticks_per_sec > 0 {
        boot_time + starttime / ticks_per_sec
    } else {
        0
    }
}

/// The kind and path of an open descriptor: a path under `/dev/` is a
/// device, any other path a file.
pub open spec fn target_resource(t: FdTarget) -> (crate::models::ResourceKind, Option<Seq<char>>) {
    match t {
        FdTarget::Path(p) => (
            if p@.len() >= 5 && p@.take(5) == "/dev/"@ { crate::models::ResourceKind::Device } else { crate::models::ResourceKind::File },
            Some(p@),
        ),
        FdTarget::Socket => (crate::models::ResourceKind::Socket, None),
        FdTarget::Pipe => (crate::models::ResourceKind::Pipe, None),
        FdTarget::Other => (crate::models::ResourceKind::Unknown, None),
    }
}

/// The resource of descriptor `fd` pointing to `target`.
pub fn fd_resource(fd: i32, target: FdTarget) -> (r: crate::models::OpenResource)
    ensures
        r.descriptor == fd,
        r.kind == target_resource(target).0,
        opt_chars(r.path) == target_resource(target).1,
{
    match target {
        FdTarget::Path(p) => {
            let c = chars_of(p.as_str());
            let dev = chars_of("/dev/");
            proof { reveal_strlit("/dev/"); }
            let is_dev = c.len() >= 5 && c[0] == dev[0] && c[1] == dev[1] && c[2] == dev[2] && c[3] == dev[3]
                && c[4] == dev[4];
            assert(is_dev == (p@.len() >= 5 && p@.take(5) == "/dev/"@)) by {
                if p@.len() >= 5 && is_dev {
                    assert(p@.take(5) =~= "/dev/"@);
                }
            }
            let kind = if is_dev { crate::models::ResourceKind::Device } else { crate::models::ResourceKind::File };
            crate::models::OpenResource { descriptor: fd, kind, path: Some(p) }
        },
        FdTarget::Socket => crate::models::OpenResource { descriptor: fd, kind: crate::models::ResourceKind::Socket, path: None },
        FdTarget::Pipe => crate::models::OpenResource { descriptor: fd, kind: crate::models::ResourceKind::Pipe, path: None },
        FdTarget::Other => crate::models::OpenResource { descriptor: fd, kind: crate::models::ResourceKind::Unknown, path: None },
    }
}

/// How many of the targets are paths, sockets, pipes and others.
pub open spec fn target_tally(ts: Seq<FdTarget>) -> (nat, nat, nat, nat)
    decreases ts.len(),
{
    if ts.len() == 0 {
        (0, 0, 0, 0)
    } else {
        let (f, s, p, o) = target_tally(ts.drop_last());
        match ts.last() {
            FdTarget::Path(_) => (f + 1, s, p, o),
            FdTarget::Socket => (f, s + 1, p, o),
            FdTarget::Pipe => (f, s, p + 1, o),
            FdTarget::Other => (f, s, p, o + 1),
        }
    }
}

/// The tally counts each kind of target: the paths, the sockets, the pipes
/// and the others among them.
pub proof fn lemma_tally_counts(ts: Seq<FdTarget>)
    ensures
        target_tally(ts).0 == ts.filter(|t: FdTarget| t is Path).len(),
        target_tally(ts).1 == ts.filter(|t: FdTarget| t is Socket).len(),
        target_tally(ts).2 == ts.filter(|t: FdTarget| t is Pipe).len(),
        target_tally(ts).3 == ts.filter(|t: FdTarget| t is Other).len(),
    decreases ts.len(),
{
    reveal(Seq::filter);
    if ts.len() > 0 {
        lemma_tally_counts(ts.drop_last());
    }
}

/// The numbers of files, sockets, pipes, others and all descriptors.
pub fn count_targets(ts: &Vec<FdTarget>) -> (r: (usize, usize, usize, usize, usize))
    ensures
        (r.0 as nat, r.1 as nat, r.2 as nat, r.3 as nat) == target_tally(ts@),
        r.4 == ts@.len(),
        r.0 + r.1 + r.2 + r.3 == r.4,
{
    let mut f: usize = 0;
    let mut s: usize = 0;
    let mut p: usize = 0;
    let mut o: usize = 0;
    let mut i: usize = 0;
    while i < ts.len()
        invariant
            i <= ts@.len(),
            (f as nat, s as nat, p as nat, o as nat) == target_tally(ts@.take(i as int)),
            f + s + p + o == i,
        decreases ts@.len() - i,
    {
        assert(ts@.take(i + 1).drop_last() =~= ts@.take(i as int));
        match &ts[i] {
            FdTarget::Path(_) => f = f + 1,
            FdTarget::Socket => s = s + 1,
            FdTarget::Pipe => p = p + 1,
            FdTarget::Other => o = o + 1,
        }
        i = i + 1;
    }
    assert(ts@.take(i as int) =~= ts@);
    (f, s, p, o, i)
}

/// System memory from `/proc/meminfo`: what is available (or free, when
/// the kernel does not say) counts as free, the rest as used.
pub fn memory_from_meminfo(total: u64, available: Option<u64>, free: u64) -> (r: crate::system::MemoryInfo)
    ensures
        r == (crate::system::MemoryInfo {
            total,
            used: crate::tui::app::refresh::sat_sub(total, match available { Some(a) => a, None => free }),
            free: match available { Some(a) => a, None => free },
            wired: 0,
            compressed: 0,
        }),
{
    let avail = match available {
        Some(a) => a,
        None => free,
    };
    let used = if total >= avail { total - avail } else { 0 };
    crate::system::MemoryInfo { total, used, free: avail, wired: 0, compressed: 0 }
}

/// The snapshot of a process whose descriptors could not be read: its
/// name, parent and state from `stat` when that could be read, else
/// `pid:<pid>`, no parent and an unknown state.
pub fn partial_snapshot(pid: i32, stat: Option<&ProcStat>) -> (r: crate::models::ProcessSnapshot)
    ensures
        r.pid == pid,
        !r.accessible,
        r.resources@.len() == 0,
        r.memory == (crate::models::ProcessMemory { rss: 0, phys: 0 }),
        r.activity == (crate::models::ProcessActivity {
            cpu_time_ns: 0, thread_count: 0, faults: 0, context_switches: 0, syscalls_mach: 0, syscalls_unix: 0,
        }),
        r.disk_io == (crate::models::DiskIo { bytes_read: 0, bytes_written: 0 }),
        match stat {
            Some(st) => r.name@ == st.comm@ && r.ppid == st.ppid && r.state == state_of_letter(st.state),
            None => r.name@ == "pid:"@ + crate::text::int_dec(pid as int) && r.ppid == 0
                && r.state == ProcessState::Unknown,
        },
{
    let (name, ppid, state) = match stat {
        Some(st) => (st.comm.clone(), st.ppid, linux_state(st.state)),
        None => {
            let mut n = String::new();
            push_str(&mut n, "pid:");
            crate::text::push_i64(&mut n, pid as i64);
            (n, 0, ProcessState::Unknown)
        },
    };
    crate::models::ProcessSnapshot {
        pid,
        ppid,
        name,
        state,
        accessible: false,
        memory: crate::models::ProcessMemory { rss: 0, phys: 0 },
        activity: crate::models::ProcessActivity {
            cpu_time_ns: 0,
            thread_count: 0,
            faults: 0,
            context_switches: 0,
            syscalls_mach: 0,
            syscalls_unix: 0,
        },
        disk_io: crate::models::DiskIo { bytes_read: 0, bytes_written: 0 },
        resources: Vec::new(),
    }
}

/// What listing all processes does after trying to snapshot one.
#[derive(Debug, Clone, Copy, PartialEq, Eq, Structural)]
pub enum SnapshotStep {
    /// Keep the snapshot.
    Keep,
    /// The process is gone: leave it out.
    Skip,
    /// The descriptors could not be read: list a partial snapshot.
    Partial,
    /// Give up with the error.
    Fail,
}

/// What listing all processes does after trying to snapshot one.
pub open spec fn step_of(r: Result<crate::models::ProcessSnapshot, crate::error::PrexpError>) -> SnapshotStep {
    match r {
        Ok(_) => SnapshotStep::Keep,
        Err(crate::error::PrexpError::ProcessNotFound { .. }) => SnapshotStep::Skip,
        Err(crate::error::PrexpError::PermissionDenied { .. }) => SnapshotStep::Partial,
        Err(crate::error::PrexpError::Backend(_)) => SnapshotStep::Partial,
        Err(_) => SnapshotStep::Fail,
    }
}

/// What listing all processes does after trying to snapshot one.
pub fn snapshot_step(r: &Result<crate::models::ProcessSnapshot, crate::error::PrexpError>) -> (s: SnapshotStep)
    ensures
        s == step_of(*r),
{
    match r {
        Ok(_) => SnapshotStep::Keep,
        Err(crate::error::PrexpError::ProcessNotFound { .. }) => SnapshotStep::Skip,
        Err(crate::error::PrexpError::PermissionDenied { .. }) => SnapshotStep::Partial,
        Err(crate::error::PrexpError::Backend(_)) => SnapshotStep::Partial,
        Err(_) => SnapshotStep::Fail,
    }
}

/// Whether one of the snapshot's resources has exactly the path `path`.
pub open spec fn holds_path(s: crate::models::ProcessSnapshot, path: Seq<char>) -> bool {
    exists|k: int| 0 <= k < s.resources@.len() && opt_chars(#[trigger] s.resources@[k].path) == Some(path)
}

/// Whether one of the snapshot's resources has exactly the path `path`.
pub fn has_open_path(s: &crate::models::ProcessSnapshot, path: &str) -> (b: bool)
    ensures
        b == holds_path(*s, path@),
{
    let want = chars_of(path);
    let mut i: usize = 0;
    while i < s.resources.len()
        invariant
            i <= s.resources@.len(),
            want@ == path@,
            forall|k: int| 0 <= k < i ==> opt_chars(#[trigger] s.resources@[k].path) != Some(path@),
        decreases s.resources@.len() - i,
    {
        match &s.resources[i].path {
            Some(p) => {
                let have = chars_of(p.as_str());
                if same_chars(&have, &want) {
                    assert(opt_chars(s.resources@[i as int].path) == Some(path@));
                    return true;
                }
            },
            None => {},
        }
        i = i + 1;
    }
    false
}

/// The snapshot of a readable process from its `stat`, its context-switch
/// count, its I/O counters (zero when unreadable) and its descriptors.
pub fn snapshot_from_stat(
    pid: i32,
    stat: &ProcStat,
    ticks_per_sec: u64,
    page_size: u64,
    context_switches: i32,
    io: Option<(u64, u64)>,
    resources: Vec<crate::models::OpenResource>,
) -> (r: crate::models::ProcessSnapshot)
    requires
        cpu_ns_fits(stat.utime, stat.stime, ticks_per_sec),
        stat.rss * page_size <= u64::MAX,
        stat.minflt + stat.majflt <= u64::MAX,
    ensures
        r.pid == pid,
        r.ppid == stat.ppid,
        r.name@ == stat.comm@,
        r.state == state_of_letter(stat.state),
        r.accessible,
        r.memory.rss == stat.rss * page_size,
        r.memory.phys == r.memory.rss,
        r.activity == (crate::models::ProcessActivity {
            cpu_time_ns: cpu_ns_of(stat.utime, stat.stime, ticks_per_sec),
            thread_count: stat.num_threads as i32,
            faults: as_counter(stat.minflt + stat.majflt),
            context_switches,
            syscalls_mach: 0,
            syscalls_unix: 0,
        }),
        r.disk_io == (match io {
            Some((rd, wr)) => crate::models::DiskIo { bytes_read: rd, bytes_written: wr },
            None => crate::models::DiskIo { bytes_read: 0, bytes_written: 0 },
        }),
        r.resources@ == resources@,
{
    let rss = rss_bytes(stat.rss, page_size);
    let (rd, wr) = match io {
        Some(v) => v,
        None => (0, 0),
    };
    crate::models::ProcessSnapshot {
        pid,
        ppid: stat.ppid,
        name: stat.comm.clone(),
        state: linux_state(stat.state),
        accessible: true,
        memory: crate::models::ProcessMemory { rss, phys: rss },
        activity: crate::models::ProcessActivity {
            cpu_time_ns: cpu_time_ns(stat.utime, stat.stime, ticks_per_sec),
            thread_count: stat.num_threads as i32,
            faults: fault_count(stat.minflt, stat.majflt),
            context_switches,
            syscalls_mach: 0,
            syscalls_unix: 0,
        },
        disk_io: crate::models::DiskIo { bytes_read: rd, bytes_written: wr },
        resources,
    }
}

/// The detail of a readable process from its `stat`, its status (user,
/// uid, context switches), its executable and working directory, the
/// targets of its descriptors, its I/O counters (zero when unreadable), its
/// connections and its environment.
pub fn detail_from_stat(
    pid: i32,
    stat: &ProcStat,
    parent_name: &str,
    path: String,
    cwd: String,
    user: String,
    uid: u32,
    ticks_per_sec: u64,
    page_size: u64,
    boot_time: u64,
    targets: &Vec<FdTarget>,
    context_switches: i32,
    io: Option<(u64, u64)>,
    network: Vec<NetworkConnection>,
    environment: Vec<(String, String)>,
) -> (r: crate::models::ProcessDetail)
    requires
        cpu_ns_fits(stat.utime, stat.stime, ticks_per_sec),
        stat.rss * page_size <= u64::MAX,
        stat.minflt + stat.majflt <= u64::MAX,
        ticks_per_sec > 0 ==> boot_time + stat.starttime / ticks_per_sec <= u64::MAX,
    ensures
        r.pid == pid,
        r.ppid == stat.ppid,
        r.parent_name@ == parent_name@,
        r.name@ == stat.comm@,
        r.path@ == path@,
        r.cwd@ == cwd@,
        r.user@ == user@,
        r.uid == uid,
        r.state == state_of_letter(stat.state),
        r.nice == stat.nice as i32,
        r.started_secs == (if ticks_per_sec > 0 { (boot_time + stat.starttime / ticks_per_sec) as u64 } else { 0 }),
        r.thread_count == stat.num_threads as i32,
        r.virtual_size == stat.vsize,
        r.memory_rss == stat.rss * page_size,
        r.memory_phys == r.memory_rss,
        r.cpu_time_ns == cpu_ns_of(stat.utime, stat.stime, ticks_per_sec),
        (r.fd_files as nat, r.fd_sockets as nat, r.fd_pipes as nat, r.fd_other as nat) == target_tally(targets@),
        r.fd_total == targets@.len(),
        r.fd_total == r.fd_files + r.fd_sockets + r.fd_pipes + r.fd_other,
        r.faults == as_counter(stat.minflt + stat.majflt),
        r.context_switches == context_switches,
        r.syscalls_mach == 0,
        r.syscalls_unix == 0,
        (r.disk_bytes_read, r.disk_bytes_written) == (match io { Some(v) => v, None => (0u64, 0u64) }),
        r.network@ == network@,
        r.environment@ == environment@,
{
    let memory_rss = rss_bytes(stat.rss, page_size);
    let (fd_files, fd_sockets, fd_pipes, fd_other, fd_total) = count_targets(targets);
    let (disk_bytes_read, disk_bytes_written) = match io {
        Some(v) => v,
        None => (0, 0),
    };
    crate::models::ProcessDetail {
        pid,
        ppid: stat.ppid,
        parent_name: parent_name.to_string(),
        name: stat.comm.clone(),
        path,
        cwd,
        user,
        uid,
        state: linux_state(stat.state),
        nice: stat.nice as i32,
        started_secs: started_secs(boot_time, stat.starttime, ticks_per_sec),
        thread_count: stat.num_threads as i32,
        virtual_size: stat.vsize,
        memory_rss,
        memory_phys: memory_rss,
        cpu_time_ns: cpu_time_ns(stat.utime, stat.stime, ticks_per_sec),
        fd_files,
        fd_sockets,
        fd_pipes,
        fd_other,
        fd_total,
        faults: fault_count(stat.minflt, stat.majflt),
        context_switches,
        syscalls_mach: 0,
        syscalls_unix: 0,
        disk_bytes_read,
        disk_bytes_written,
        network,
        environment,
    }
}

} // verus!
