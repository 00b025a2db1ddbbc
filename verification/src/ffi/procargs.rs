//! The environment of a process in a `KERN_PROCARGS2` buffer: the argument
//! count, the executable path, NUL padding, the arguments, then the
//! environment, each string NUL-terminated.
use vstd::prelude::*;
use vstd::utf8::{decode_utf8, valid_utf8};

use crate::text::{chars_of, string_of};

verus! {

/// The first position at or after `pos` that holds a NUL, or `pos` when it
/// is past the end.
pub open spec fn next_nul(b: Seq<u8>, pos: int) -> int
    decreases b.len() - pos,
{
    if pos >= b.len() || b[pos] == 0 { pos } else { next_nul(b, pos + 1) }
}

/// The first position at or after `pos` that holds no NUL, or `pos` when
/// it is past the end.
pub open spec fn next_non_nul(b: Seq<u8>, pos: int) -> int
    decreases b.len() - pos,
{
    if pos >= b.len() || b[pos] != 0 { pos } else { next_non_nul(b, pos + 1) }
}

/// `next_nul` never goes back, and stays within the buffer when it
/// starts there.
pub proof fn lemma_next_nul(b: Seq<u8>, pos: int)
    ensures
        next_nul(b, pos) >= pos,
        pos <= b.len() ==> next_nul(b, pos) <= b.len(),
        next_nul(b, pos) < b.len() ==> b[next_nul(b, pos)] == 0,
    decreases b.len() - pos,
{
    if !(pos >= b.len() || b[pos] == 0) {
        lemma_next_nul(b, pos + 1);
    }
}

/// `next_non_nul` never goes back, and stays within the buffer when it
/// starts there.
pub proof fn lemma_next_non_nul(b: Seq<u8>, pos: int)
    ensures
        next_non_nul(b, pos) >= pos,
        pos <= b.len() ==> next_non_nul(b, pos) <= b.len(),
    decreases b.len() - pos,
{
    if !(pos >= b.len() || b[pos] != 0) {
        lemma_next_non_nul(b, pos + 1);
    }
}

/// The position after `n` NUL-terminated strings starting at `pos`.
pub open spec fn skip_strings(b: Seq<u8>, pos: int, n: nat) -> int
    decreases n,
{
    if n == 0 { pos } else { skip_strings(b, next_nul(b, pos) + 1, (n - 1) as nat) }
}

/// Skipping strings never goes back.
pub proof fn lemma_skip_strings(b: Seq<u8>, pos: int, n: nat)
    ensures
        skip_strings(b, pos, n) >= pos,
    decreases n,
{
    if n > 0 {
        lemma_next_nul(b, pos);
        lemma_skip_strings(b, next_nul(b, pos) + 1, (n - 1) as nat);
    }
}

/// Where the environment starts in a buffer whose argument count is
/// `argc`: after the executable path and its NUL, the NUL padding, and
/// `argc` arguments.
pub open spec fn env_start(b: Seq<u8>, argc: nat) -> int {
    skip_strings(b, next_non_nul(b, next_nul(b, 4) + 1), argc)
}

/// `s` split at its first `sep`, if it holds one.
pub open spec fn split_first(s: Seq<char>, sep: char) -> Option<(Seq<char>, Seq<char>)> {
    if exists|i: int| 0 <= i < s.len() && s[i] == sep {
        let i = choose|i: int| 0 <= i < s.len() && s[i] == sep && forall|j: int| 0 <= j < i ==> s[j] != sep;
        Some((s.take(i), s.skip(i + 1)))
    } else {
        None
    }
}

/// The variable written in the bytes `t`: when they are UTF-8 text holding
/// an `=`, its name and value split at the first `=`.
pub open spec fn env_entry(t: Seq<u8>) -> Option<(Seq<char>, Seq<char>)> {
    if valid_utf8(t) { split_first(decode_utf8(t), '=') } else { None }
}

/// The variables in the NUL-terminated strings from `pos` on, up to the
/// first empty string or the end of the buffer.
pub open spec fn env_from(b: Seq<u8>, pos: int) -> Seq<(Seq<char>, Seq<char>)>
    decreases b.len() + 1 - pos,
{
    if pos < 0 || pos >= b.len() {
        seq![]
    } else {
        let end = next_nul(b, pos);
        if end <= pos {
            seq![]
        } else {
            proof { lemma_next_nul(b, pos); }
            let rest = env_from(b, end + 1);
            match env_entry(b.subrange(pos, end)) {
                Some(e) => seq![e] + rest,
                None => rest,
            }
        }
    }
}

/// The name and value of each variable.
pub open spec fn env_view(v: Seq<(String, String)>) -> Seq<(Seq<char>, Seq<char>)> {
    v.map_values(|p: (String, String)| (p.0@, p.1@))
}

/// `s` split at its first `sep`, if it holds one.
pub fn split_first_char(s: &Vec<char>, sep: char) -> (r: Option<(Vec<char>, Vec<char>)>)
    ensures
        match r {
            Some((k, v)) => split_first(s@, sep) == Some((k@, v@)),
            None => split_first(s@, sep) is None,
        },
{
    let mut i: usize = 0;
    while i < s.len() && s[i] != sep
        invariant
            i <= s@.len(),
            forall|j: int| 0 <= j < i ==> s@[j] != sep,
        decreases s@.len() - i,
    {
        i = i + 1;
    }
    if i == s.len() {
        assert(!exists|k: int| 0 <= k < s@.len() && s@[k] == sep);
        return None;
    }
    let ghost c = choose|k: int| 0 <= k < s@.len() && s@[k] == sep && forall|j: int| 0 <= j < k ==> s@[j] != sep;
    assert(0 <= i < s@.len() && s@[i as int] == sep && forall|j: int| 0 <= j < i ==> s@[j] != sep);
    assert(c == i) by {
        if c < i {
            assert(s@[c] != sep);
        } else if c > i {
            assert(s@[i as int] != sep);
        }
    }
    let mut key: Vec<char> = Vec::new();
    let mut j: usize = 0;
    while j < i
        invariant
            j <= i < s@.len(),
            key@ == s@.take(j as int),
        decreases i - j,
    {
        key.push(s[j]);
        j = j + 1;
        assert(key@ =~= s@.take(j as int));
    }
    let mut val: Vec<char> = Vec::new();
    let mut m: usize = i + 1;
    while m < s.len()
        invariant
            i < m <= s@.len(),
            val@ == s@.subrange(i + 1, m as int),
        decreases s@.len() - m,
    {
        val.push(s[m]);
        m = m + 1;
        assert(val@ =~= s@.subrange(i + 1, m as int));
    }
    assert(val@ =~= s@.skip(i + 1));
    Some((key, val))
}

/// UTF-8 text (`std::str::from_utf8`): the text the bytes encode when they
/// are valid UTF-8, nothing otherwise.
#[verifier::external_body]
fn utf8_text(bytes: &[u8]) -> (r: Option<String>)
    ensures
        r is Some <==> valid_utf8(bytes@),
        r is Some ==> r->0@ == decode_utf8(bytes@),
{
    match std::str::from_utf8(bytes) {
        Ok(s) => Some(s.to_string()),
        Err(_) => None,
    }
}

/// The `i32` of four bytes, least significant first.
pub open spec fn le_i32(b: Seq<u8>) -> i32 {
    (b[0] + 256 * b[1] + 65536 * b[2] + 16777216 * b[3]) as i32
}

/// The `i32` of four bytes, most significant first.
pub open spec fn be_i32(b: Seq<u8>) -> i32 {
    (b[3] + 256 * b[2] + 65536 * b[1] + 16777216 * b[0]) as i32
}

/// `i32::from_ne_bytes`: the four bytes read in the machine's byte order,
/// which is little- or big-endian; which one is left open.
#[verifier::external_body]
fn ne_i32(b: [u8; 4]) -> (r: i32)
    ensures
        r == le_i32(b@) || r == be_i32(b@),
{
    i32::from_ne_bytes(b)
}

/// Moves `pos` to the next NUL (or the end).
fn to_nul(buf: &[u8], pos: usize) -> (r: usize)
    requires
        pos <= buf@.len(),
    ensures
        r == next_nul(buf@, pos as int),
        pos <= r <= buf@.len(),
{
    let mut p = pos;
    while p < buf.len() && buf[p] != 0
        invariant
            pos <= p <= buf@.len(),
            next_nul(buf@, p as int) == next_nul(buf@, pos as int),
        decreases buf@.len() - p,
    {
        p = p + 1;
    }
    p
}

/// The name and value of an optional variable.
pub open spec fn entry_view(e: Option<(String, String)>) -> Option<(Seq<char>, Seq<char>)> {
    match e {
        Some(p) => Some((p.0@, p.1@)),
        None => None,
    }
}

/// The variable written in the string that starts at `first`, if any,
/// and the position of the NUL that ends the string (or the end).
fn entry_at(buf: &[u8], first: usize) -> (r: (Option<(String, String)>, usize))
    requires
        first < buf@.len() < usize::MAX,
    ensures
        r.1 == next_nul(buf@, first as int),
        first <= r.1 <= buf@.len(),
        r.1 > first ==> entry_view(r.0) == env_entry(buf@.subrange(first as int, r.1 as int)),
{
    let end = to_nul(buf, first);
    if end == first {
        return (None, end);
    }
    let piece = &buf[first..end];
    assert(piece@ == buf@.subrange(first as int, end as int));
    match utf8_text(piece) {
        Some(text) => {
            let cs = chars_of(text.as_str());
            match split_first_char(&cs, '=') {
                Some((k, v)) => (Some((string_of(&k), string_of(&v))), end),
                None => (None, end),
            }
        },
        None => (None, end),
    }
}

/// The variables of a `KERN_PROCARGS2` buffer whose argument count is
/// `argc` (the count's own four bytes included at the start).
pub fn env_after_args(buf: &[u8], argc: usize) -> (r: Vec<(String, String)>)
    requires
        4 <= buf@.len() < usize::MAX,
    ensures
        env_view(r@) == env_from(buf@, env_start(buf@, argc as nat)),
{
    let ghost b = buf@;
    let n = buf.len();
    let mut pos: usize = to_nul(buf, 4) + 1;
    proof { lemma_next_nul(b, 4); }
    assert(pos == next_nul(b, 4) + 1);
    while pos < n && buf[pos] == 0
        invariant
            b == buf@,
            n == b.len() < usize::MAX,
            pos <= n + 1,
            next_non_nul(b, pos as int) == next_non_nul(b, next_nul(b, 4) + 1),
        decreases n + 1 - pos,
    {
        pos = pos + 1;
    }
    let ghost start = env_start(b, argc as nat);
    let mut i: usize = 0;
    while i < argc
        invariant
            b == buf@,
            n == b.len() < usize::MAX,
            i <= argc,
            pos <= n + 1,
            skip_strings(b, pos as int, (argc - i) as nat) == start,
        ensures
            i == argc || pos >= n,
            pos <= n + 1,
            skip_strings(b, pos as int, (argc - i) as nat) == start,
        decreases argc - i,
    {
        if pos >= n {
            break;
        }
        pos = to_nul(buf, pos) + 1;
        i = i + 1;
    }
    proof {
        lemma_skip_strings(b, pos as int, (argc - i) as nat);
    }
    assert(env_from(b, start) == env_from(b, pos as int)) by {
        if pos >= n {
            assert(start >= n);
        }
    }
    let mut env: Vec<(String, String)> = Vec::new();
    while pos < n
        invariant
            b == buf@,
            n == b.len() < usize::MAX,
            pos <= n + 1,
            env_from(b, start) == env_view(env@) + env_from(b, pos as int),
        ensures
            env_from(b, start) == env_view(env@) + env_from(b, pos as int),
            env_from(b, pos as int) == Seq::<(Seq<char>, Seq<char>)>::empty(),
        decreases n + 1 - pos,
    {
        let (entry, end) = entry_at(buf, pos);
        if end == pos {
            break;
        }
        let ghost before = env_view(env@);
        let ghost rest = env_from(b, end + 1);
        assert(env_from(b, pos as int) == match env_entry(b.subrange(pos as int, end as int)) {
            Some(e) => seq![e] + rest,
            None => rest,
        });
        match entry {
            Some(pair) => {
                env.push(pair);
                assert(env_view(env@) =~= before + seq![(pair.0@, pair.1@)]);
                assert(before + (seq![(pair.0@, pair.1@)] + rest) =~= (before + seq![(pair.0@, pair.1@)]) + rest);
            },
            None => {},
        }
        pos = end + 1;
    }
    assert(env_view(env@) =~= env_view(env@) + Seq::<(Seq<char>, Seq<char>)>::empty());
    env
}

/// The environment in a `KERN_PROCARGS2` buffer: nothing when the buffer
/// is too short to hold the argument count; otherwise the variables after
/// the arguments, the count read in the machine's byte order.
pub fn procargs_env(buf: &[u8]) -> (r: Vec<(String, String)>)
    requires
        buf@.len() < usize::MAX,
    ensures
        buf@.len() < 4 ==> r@.len() == 0,
        buf@.len() >= 4 ==> {
            ||| env_view(r@) == env_from(buf@, env_start(buf@, le_i32(buf@) as usize as nat))
            ||| env_view(r@) == env_from(buf@, env_start(buf@, be_i32(buf@) as usize as nat))
        },
{
    if buf.len() < 4 {
        return Vec::new();
    }
    let count = ne_i32([buf[0], buf[1], buf[2], buf[3]]);
    env_after_args(buf, count as usize)
}

} // verus!
