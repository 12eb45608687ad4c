//! Event-store logic: event kinds, `/proc/net/tcp` parsing, and the per-tick
//! diffing that turns process and listener snapshots into discrete events.
//!
//! The SQLite persistence itself lives with the application; everything that
//! decides what gets recorded is here.

use std::collections::HashMap;

use vstd::prelude::*;
use crate::clock::system_time_ms;
use crate::text::{
    chars_eq,
    byte_len, byte_len_eq, char_index_at, char_index_at_byte, chars_of, eq_str, i64_to_dec,
    int_to_dec, is_boundary, lemma_byte_len_take_mono, nat_to_dec, parse_hex, parse_hex_u64,
    push_all, push_str, spec_contains, spec_find, spec_starts_with, starts_with_str, string_of,
    sub_chars, u64_to_dec, find_chars, spec_words, split_words, parse_dec, parse_dec_u64,
};

verus! {

// ── Event kinds ───────────────────────────────────────────────────

/// Discrete event kinds tracked by the store.
#[derive(Debug, Clone, Copy, PartialEq, Eq, Hash, Structural)]
pub enum EventKind {
    ProcessStart,
    ProcessExit,
    PortBind,
    PortRelease,
    Alert,
    CpuSpike,
    MemorySpike,
    OomKill,
}

/// The stored name of each kind.
pub open spec fn kind_name(k: EventKind) -> Seq<char> {
    match k {
        EventKind::ProcessStart => "process_start"@,
        EventKind::ProcessExit => "process_exit"@,
        EventKind::PortBind => "port_bind"@,
        EventKind::PortRelease => "port_release"@,
        EventKind::Alert => "alert"@,
        EventKind::CpuSpike => "cpu_spike"@,
        EventKind::MemorySpike => "memory_spike"@,
        EventKind::OomKill => "oom_kill"@,
    }
}

/// The kind whose stored name is `s`, if any.
pub open spec fn kind_from_name(s: Seq<char>) -> Option<EventKind> {
    if s == kind_name(EventKind::ProcessStart) {
        Some(EventKind::ProcessStart)
    } else if s == kind_name(EventKind::ProcessExit) {
        Some(EventKind::ProcessExit)
    } else if s == kind_name(EventKind::PortBind) {
        Some(EventKind::PortBind)
    } else if s == kind_name(EventKind::PortRelease) {
        Some(EventKind::PortRelease)
    } else if s == kind_name(EventKind::Alert) {
        Some(EventKind::Alert)
    } else if s == kind_name(EventKind::CpuSpike) {
        Some(EventKind::CpuSpike)
    } else if s == kind_name(EventKind::MemorySpike) {
        Some(EventKind::MemorySpike)
    } else if s == kind_name(EventKind::OomKill) {
        Some(EventKind::OomKill)
    } else {
        None
    }
}

impl EventKind {
    /// The stored name of this kind.
    pub fn as_str(&self) -> (r: &'static str)
        ensures
            r@ == kind_name(*self),
    {
        match self {
            EventKind::ProcessStart => "process_start",
            EventKind::ProcessExit => "process_exit",
            EventKind::PortBind => "port_bind",
            EventKind::PortRelease => "port_release",
            EventKind::Alert => "alert",
            EventKind::CpuSpike => "cpu_spike",
            EventKind::MemorySpike => "memory_spike",
            EventKind::OomKill => "oom_kill",
        }
    }

    /// The stored name of this kind as an owned string (its display form).
    pub fn to_string(&self) -> (r: String)
        ensures
            r@ == kind_name(*self),
    {
        let s = self.as_str();
        let cs = chars_of(s);
        string_of(cs.as_slice())
    }

    /// Parses a stored name back into a kind.
    pub fn from_str(s: &str) -> (r: Option<EventKind>)
        ensures
            r == kind_from_name(s@),
    {
        let cs = chars_of(s);
        let c = cs.as_slice();
        if eq_str(c, "process_start") {
            Some(EventKind::ProcessStart)
        } else if eq_str(c, "process_exit") {
            Some(EventKind::ProcessExit)
        } else if eq_str(c, "port_bind") {
            Some(EventKind::PortBind)
        } else if eq_str(c, "port_release") {
            Some(EventKind::PortRelease)
        } else if eq_str(c, "alert") {
            Some(EventKind::Alert)
        } else if eq_str(c, "cpu_spike") {
            Some(EventKind::CpuSpike)
        } else if eq_str(c, "memory_spike") {
            Some(EventKind::MemorySpike)
        } else if eq_str(c, "oom_kill") {
            Some(EventKind::OomKill)
        } else {
            None
        }
    }
}

/// Stored names of different kinds differ.
proof fn lemma_kind_names_distinct()
    ensures
        forall|a: EventKind, b: EventKind| a != b ==> kind_name(a) != kind_name(b),
{
    reveal_strlit("process_start");
    reveal_strlit("process_exit");
    reveal_strlit("port_bind");
    reveal_strlit("port_release");
    reveal_strlit("alert");
    reveal_strlit("cpu_spike");
    reveal_strlit("memory_spike");
    reveal_strlit("oom_kill");
    assert(kind_name(EventKind::ProcessStart).len() == 13);
    assert(kind_name(EventKind::ProcessStart)[0] == 'p');
    assert(kind_name(EventKind::ProcessStart)[1] == 'r');
    assert(kind_name(EventKind::ProcessExit).len() == 12);
    assert(kind_name(EventKind::ProcessExit)[0] == 'p');
    assert(kind_name(EventKind::ProcessExit)[1] == 'r');
    assert(kind_name(EventKind::PortBind).len() == 9);
    assert(kind_name(EventKind::PortBind)[0] == 'p');
    assert(kind_name(EventKind::PortBind)[1] == 'o');
    assert(kind_name(EventKind::PortRelease).len() == 12);
    assert(kind_name(EventKind::PortRelease)[0] == 'p');
    assert(kind_name(EventKind::PortRelease)[1] == 'o');
    assert(kind_name(EventKind::Alert).len() == 5);
    assert(kind_name(EventKind::Alert)[0] == 'a');
    assert(kind_name(EventKind::Alert)[1] == 'l');
    assert(kind_name(EventKind::CpuSpike).len() == 9);
    assert(kind_name(EventKind::CpuSpike)[0] == 'c');
    assert(kind_name(EventKind::CpuSpike)[1] == 'p');
    assert(kind_name(EventKind::MemorySpike).len() == 12);
    assert(kind_name(EventKind::MemorySpike)[0] == 'm');
    assert(kind_name(EventKind::MemorySpike)[1] == 'e');
    assert(kind_name(EventKind::OomKill).len() == 8);
    assert(kind_name(EventKind::OomKill)[0] == 'o');
    assert(kind_name(EventKind::OomKill)[1] == 'o');
    assert forall|a: EventKind, b: EventKind| a != b implies kind_name(a) != kind_name(b) by {
        if kind_name(a) == kind_name(b) {
            assert(kind_name(a).len() == kind_name(b).len());
            assert(kind_name(a)[0] == kind_name(b)[0]);
            assert(kind_name(a)[1] == kind_name(b)[1]);
        }
    }
}

/// Parsing the stored name of any kind gives that kind back, and no other
/// name parses to it.
pub proof fn lemma_event_kind_roundtrip(k: EventKind, s: Seq<char>)
    ensures
        kind_from_name(kind_name(k)) == Some(k),
        kind_from_name(s) == Some(k) ==> s == kind_name(k),
{
    lemma_kind_names_distinct();
}

// ── Ages and TCP states ───────────────────────────────────────────

/// Integer division rounding toward zero, as Rust's `/` does.
pub open spec fn trunc_div(a: int, b: int) -> int {
    if a >= 0 {
        a / b
    } else {
        -((-a) / b)
    }
}

/// `format_age_ms`: whole seconds below a minute, whole minutes below an hour,
/// whole hours above.
pub open spec fn spec_format_age_ms(ms: int) -> Seq<char> {
    let secs = trunc_div(ms, 1000);
    if secs < 60 {
        int_to_dec(secs) + "s ago"@
    } else if secs < 3600 {
        int_to_dec(secs / 60) + "m ago"@
    } else {
        int_to_dec(secs / 3600) + "h ago"@
    }
}

fn quot_toward_zero(a: i64, b: i64) -> (q: i64)
    requires
        b >= 2,
    ensures
        q == trunc_div(a as int, b as int),
{
    if a >= 0 {
        a / b
    } else {
        let m: u64 = ((-(a + 1)) as u64) + 1;
        let d = m / (b as u64);
        assert(d <= 4611686018427387904) by (nonlinear_arith)
            requires
                d == m / (b as u64),
                m <= 9223372036854775808u64,
                b >= 2,
        ;
        -(d as i64)
    }
}

/// Format a duration in milliseconds as a human-readable age string.
pub fn format_age_ms(ms: i64) -> (r: String)
    ensures
        r@ == spec_format_age_ms(ms as int),
{
    let secs = quot_toward_zero(ms, 1000);
    let mut v: Vec<char>;
    if secs < 60 {
        v = i64_to_dec(secs);
        push_str(&mut v, "s ago");
    } else if secs < 3600 {
        v = i64_to_dec(secs / 60);
        push_str(&mut v, "m ago");
    } else {
        v = i64_to_dec(secs / 3600);
        push_str(&mut v, "h ago");
    }
    string_of(v.as_slice())
}

/// Name of a TCP state number from `/proc/net/tcp`.
pub open spec fn tcp_state(state: u8) -> Seq<char> {
    if state == 0x01 {
        "ESTABLISHED"@
    } else if state == 0x02 {
        "SYN_SENT"@
    } else if state == 0x03 {
        "SYN_RECV"@
    } else if state == 0x04 {
        "FIN_WAIT1"@
    } else if state == 0x05 {
        "FIN_WAIT2"@
    } else if state == 0x06 {
        "TIME_WAIT"@
    } else if state == 0x07 {
        "CLOSE"@
    } else if state == 0x08 {
        "CLOSE_WAIT"@
    } else if state == 0x09 {
        "LAST_ACK"@
    } else if state == 0x0A {
        "LISTEN"@
    } else if state == 0x0B {
        "CLOSING"@
    } else {
        "UNKNOWN"@
    }
}

/// The state names of `/proc/net/tcp`, as the kernel numbers them; the eleven known state numbers 0x01..=0x0B have eleven different
/// names, none of them "UNKNOWN", and every other number is "UNKNOWN".
pub proof fn lemma_tcp_state_names(a: u8, b: u8)
    ensures
        tcp_state(0x01) == "ESTABLISHED"@,
        tcp_state(0x02) == "SYN_SENT"@,
        tcp_state(0x03) == "SYN_RECV"@,
        tcp_state(0x04) == "FIN_WAIT1"@,
        tcp_state(0x05) == "FIN_WAIT2"@,
        tcp_state(0x06) == "TIME_WAIT"@,
        tcp_state(0x07) == "CLOSE"@,
        tcp_state(0x08) == "CLOSE_WAIT"@,
        tcp_state(0x09) == "LAST_ACK"@,
        tcp_state(0x0A) == "LISTEN"@,
        tcp_state(0x0B) == "CLOSING"@,
        1 <= a <= 11 && 1 <= b <= 11 && a != b ==> tcp_state(a) != tcp_state(b),
        1 <= a <= 11 ==> tcp_state(a) != "UNKNOWN"@,
        (a == 0 || a > 11) ==> tcp_state(a) == "UNKNOWN"@,
{
    reveal_strlit("CLOSE");
    assert("CLOSE"@.len() == 5);
    reveal_strlit("CLOSE_WAIT");
    assert("CLOSE_WAIT"@.len() == 10);
    reveal_strlit("CLOSING");
    assert("CLOSING"@.len() == 7);
    reveal_strlit("ESTABLISHED");
    assert("ESTABLISHED"@.len() == 11);
    reveal_strlit("FIN_WAIT1");
    assert("FIN_WAIT1"@.len() == 9);
    reveal_strlit("FIN_WAIT2");
    assert("FIN_WAIT2"@.len() == 9);
    reveal_strlit("LAST_ACK");
    assert("LAST_ACK"@.len() == 8);
    reveal_strlit("LISTEN");
    assert("LISTEN"@.len() == 6);
    reveal_strlit("SYN_RECV");
    assert("SYN_RECV"@.len() == 8);
    reveal_strlit("SYN_SENT");
    assert("SYN_SENT"@.len() == 8);
    reveal_strlit("TIME_WAIT");
    assert("TIME_WAIT"@.len() == 9);
    reveal_strlit("UNKNOWN");
    assert("UNKNOWN"@.len() == 7);
    assert("CLOSING"@[0] != "UNKNOWN"@[0]);
    assert("FIN_WAIT1"@[8] != "FIN_WAIT2"@[8]);
    assert("FIN_WAIT1"@[0] != "TIME_WAIT"@[0]);
    assert("FIN_WAIT2"@[0] != "TIME_WAIT"@[0]);
    assert("LAST_ACK"@[0] != "SYN_RECV"@[0]);
    assert("LAST_ACK"@[0] != "SYN_SENT"@[0]);
    assert("SYN_RECV"@[4] != "SYN_SENT"@[4]);
}

fn tcp_state_str(state: u8) -> (r: &'static str)
    ensures
        r@ == tcp_state(state),
{
    match state {
        0x01 => "ESTABLISHED",
        0x02 => "SYN_SENT",
        0x03 => "SYN_RECV",
        0x04 => "FIN_WAIT1",
        0x05 => "FIN_WAIT2",
        0x06 => "TIME_WAIT",
        0x07 => "CLOSE",
        0x08 => "CLOSE_WAIT",
        0x09 => "LAST_ACK",
        0x0A => "LISTEN",
        0x0B => "CLOSING",
        _ => "UNKNOWN",
    }
}

/// Map a TCP state number to its name.
pub fn tcp_state_name(state: u8) -> (r: String)
    ensures
        r@ == tcp_state(state),
{
    let cs = chars_of(tcp_state_str(state));
    string_of(cs.as_slice())
}


// ── /proc/net/tcp addresses ───────────────────────────────────────

/// `s.split(c)` yields exactly two pieces: the text before and after the single `c`.
pub open spec fn split_once_exact(s: Seq<char>, c: char) -> Option<(Seq<char>, Seq<char>)> {
    match spec_find(s, seq![c]) {
        None => None,
        Some(k) => if spec_contains(s.skip(k + 1), seq![c]) {
            None
        } else {
            Some((s.take(k), s.skip(k + 1)))
        },
    }
}

/// Splits `s` at its single occurrence of `c`; `None` unless `split(c)` gives two pieces.
pub fn split_once_exact_exec(s: &[char], c: char) -> (r: Option<(Vec<char>, Vec<char>)>)
    ensures
        match r {
            Some((a, b)) => split_once_exact(s@, c) == Some((a@, b@)),
            None => split_once_exact(s@, c) is None,
        },
{
    let mut pat: Vec<char> = Vec::new();
    pat.push(c);
    proof {
        assert(pat@ =~= seq![c]);
    }
    match find_chars(s, pat.as_slice()) {
        None => None,
        Some(k) => {
            let a = sub_chars(s, 0, k);
            assert(k + 1 <= s@.len());
            assert(k + 1 <= s.len());
            let b = sub_chars(s, k + 1, s.len());
            proof {
                assert(a@ =~= s@.take(k as int));
                assert(b@ =~= s@.skip(k + 1));
            }
            if find_chars(b.as_slice(), pat.as_slice()).is_some() {
                None
            } else {
                Some((a, b))
            }
        },
    }
}

/// The four bytes of a little-endian IPv4 word in dotted-quad form.
pub open spec fn dotted_quad(n: nat) -> Seq<char> {
    nat_to_dec(n % 256) + "."@ + nat_to_dec((n / 256) % 256) + "."@ + nat_to_dec(
        (n / 65536) % 256,
    ) + "."@ + nat_to_dec((n / 16777216) % 256)
}

/// The `i`-th four-byte group of a 32-byte IPv6 hex string.
pub open spec fn v6_group(a: Seq<char>, i: int) -> Seq<char> {
    a.subrange(char_index_at(a, 4 * i), char_index_at(a, 4 * i + 4))
}

/// The eight groups of a 32-byte IPv6 hex string joined with `:`.
pub open spec fn v6_groups(a: Seq<char>) -> Seq<char> {
    v6_group(a, 0) + ":"@ + v6_group(a, 1) + ":"@ + v6_group(a, 2) + ":"@ + v6_group(a, 3) + ":"@
        + v6_group(a, 4) + ":"@ + v6_group(a, 5) + ":"@ + v6_group(a, 6) + ":"@ + v6_group(a, 7)
}

pub open spec fn v6_zero() -> Seq<char> {
    "00000000000000000000000000000000"@
}

pub open spec fn v4_mapped_prefix() -> Seq<char> {
    "0000000000000000FFFF0000"@
}

/// The address part is rendered by hex groups (a full IPv6 address).
pub open spec fn is_full_v6(a: Seq<char>) -> bool {
    byte_len(a) == 32 && a != v6_zero() && !spec_starts_with(a, v4_mapped_prefix())
}

/// What `parse_hex_addr` slices out of a full IPv6 address lies on character boundaries.
pub open spec fn v6_groups_ok(a: Seq<char>) -> bool {
    &&& is_boundary(a, 0)
    &&& is_boundary(a, 4)
    &&& is_boundary(a, 8)
    &&& is_boundary(a, 12)
    &&& is_boundary(a, 16)
    &&& is_boundary(a, 20)
    &&& is_boundary(a, 24)
    &&& is_boundary(a, 28)
    &&& is_boundary(a, 32)
}

/// Inputs on which `parse_hex_addr` does not panic.
pub open spec fn hex_addr_ok(s: Seq<char>) -> bool {
    match split_once_exact(s, ':') {
        Some((a, p)) => parse_hex(p, 65535) is Some && is_full_v6(a) ==> v6_groups_ok(a),
        None => true,
    }
}

/// The rendered address of the hex part `a`, or `None` when its digits do not parse.
pub open spec fn hex_addr_text(a: Seq<char>) -> Option<Seq<char>> {
    if byte_len(a) == 8 {
        match parse_hex(a, 4294967295) {
            Some(n) => Some(dotted_quad(n)),
            None => None,
        }
    } else if byte_len(a) == 32 {
        if a == v6_zero() {
            Some("::"@)
        } else if spec_starts_with(a, v4_mapped_prefix()) {
            match parse_hex(a.skip(24), 4294967295) {
                Some(n) => Some("::ffff:"@ + dotted_quad(n)),
                None => None,
            }
        } else {
            Some(v6_groups(a))
        }
    } else {
        Some(a)
    }
}

/// `parse_hex_addr`: a `HEXADDR:HEXPORT` pair from `/proc/net/tcp`.
pub open spec fn spec_parse_hex_addr(s: Seq<char>) -> Option<(Seq<char>, u16)> {
    match split_once_exact(s, ':') {
        None => None,
        Some((a, p)) => match parse_hex(p, 65535) {
            None => None,
            Some(port) => match hex_addr_text(a) {
                Some(addr) => Some((addr, port as u16)),
                None => None,
            },
        },
    }
}

fn dotted_quad_exec(n: u64) -> (r: Vec<char>)
    ensures
        r@ == dotted_quad(n as nat),
{
    let mut v = u64_to_dec(n % 256);
    push_str(&mut v, ".");
    let b = u64_to_dec((n / 256) % 256);
    push_all(&mut v, b.as_slice());
    push_str(&mut v, ".");
    let c = u64_to_dec((n / 65536) % 256);
    push_all(&mut v, c.as_slice());
    push_str(&mut v, ".");
    let d = u64_to_dec((n / 16777216) % 256);
    push_all(&mut v, d.as_slice());
    v
}

fn v6_groups_exec(a: &[char]) -> (r: Vec<char>)
    requires
        v6_groups_ok(a@),
    ensures
        r@ == v6_groups(a@),
{
    let mut v: Vec<char> = Vec::new();
    let mut i: usize = 0;
    let ghost mut acc: Seq<char> = Seq::empty();
    let mut start = match char_index_at_byte(a, 0) {
        Some(k) => k,
        None => {
            proof {
                assert(is_boundary(a@, 0));
            }
            0
        },
    };
    while i < 8
        invariant
            i <= 8,
            v6_groups_ok(a@),
            start == char_index_at(a@, 4 * i),
            start <= a@.len(),
            i == 0 ==> v@ == Seq::<char>::empty(),
            i >= 1 ==> v@ == (if i == 1 {
                v6_group(a@, 0)
            } else if i == 2 {
                v6_group(a@, 0) + ":"@ + v6_group(a@, 1)
            } else if i == 3 {
                v6_group(a@, 0) + ":"@ + v6_group(a@, 1) + ":"@ + v6_group(a@, 2)
            } else if i == 4 {
                v6_group(a@, 0) + ":"@ + v6_group(a@, 1) + ":"@ + v6_group(a@, 2) + ":"@ + v6_group(
                    a@,
                    3,
                )
            } else if i == 5 {
                v6_group(a@, 0) + ":"@ + v6_group(a@, 1) + ":"@ + v6_group(a@, 2) + ":"@ + v6_group(
                    a@,
                    3,
                ) + ":"@ + v6_group(a@, 4)
            } else if i == 6 {
                v6_group(a@, 0) + ":"@ + v6_group(a@, 1) + ":"@ + v6_group(a@, 2) + ":"@ + v6_group(
                    a@,
                    3,
                ) + ":"@ + v6_group(a@, 4) + ":"@ + v6_group(a@, 5)
            } else if i == 7 {
                v6_group(a@, 0) + ":"@ + v6_group(a@, 1) + ":"@ + v6_group(a@, 2) + ":"@ + v6_group(
                    a@,
                    3,
                ) + ":"@ + v6_group(a@, 4) + ":"@ + v6_group(a@, 5) + ":"@ + v6_group(a@, 6)
            } else {
                v6_groups(a@)
            }),
        decreases 8 - i,
    {
        assert(is_boundary(a@, 4 * (i + 1)));
        let end = match char_index_at_byte(a, 4 * i + 4) {
            Some(k) => k,
            None => {
                assert(false);
                0
            },
        };
        assert(start <= end) by {
            let k1 = char_index_at(a@, 4 * i);
            let k2 = char_index_at(a@, 4 * i + 4);
            if k2 < k1 {
                lemma_byte_len_take_mono(a@, k2, k1);
            }
        }
        if i > 0 {
            push_str(&mut v, ":");
        }
        let g = sub_chars(a, start, end);
        push_all(&mut v, g.as_slice());
        start = end;
        i += 1;
    }
    v
}

/// Parse a hex-encoded `address:port` pair from `/proc/net/tcp` (e.g. `0100007F:1F90`).
pub fn parse_hex_addr(s: &str) -> (r: Option<(String, u16)>)
    requires
        hex_addr_ok(s@),
    ensures
        match r {
            Some((addr, port)) => spec_parse_hex_addr(s@) == Some((addr@, port)),
            None => spec_parse_hex_addr(s@) is None,
        },
{
    let cs = chars_of(s);
    let (a, p) = match split_once_exact_exec(cs.as_slice(), ':') {
        Some(parts) => parts,
        None => return None,
    };
    let port = match parse_hex_u64(p.as_slice(), 65535) {
        Some(v) => v as u16,
        None => return None,
    };
    let ghost av = a@;
    let addr: Vec<char> = if byte_len_eq(a.as_slice(), 8) {
        match parse_hex_u64(a.as_slice(), 4294967295) {
            Some(n) => dotted_quad_exec(n),
            None => return None,
        }
    } else if byte_len_eq(a.as_slice(), 32) {
        if eq_str(a.as_slice(), "00000000000000000000000000000000") {
            chars_of("::")
        } else if starts_with_str(a.as_slice(), "0000000000000000FFFF0000") {
            proof {
                reveal_strlit("0000000000000000FFFF0000");
            }
            let tail = sub_chars(a.as_slice(), 24, a.len());
            proof {
                assert(tail@ =~= av.skip(24));
            }
            match parse_hex_u64(tail.as_slice(), 4294967295) {
                Some(n) => {
                    let mut v = chars_of("::ffff:");
                    let q = dotted_quad_exec(n);
                    push_all(&mut v, q.as_slice());
                    v
                },
                None => return None,
            }
        } else {
            v6_groups_exec(a.as_slice())
        }
    } else {
        a
    };
    Some((string_of(addr.as_slice()), port))
}


// ── /proc/net/tcp lines ───────────────────────────────────────────

/// A parsed network socket from `/proc/net/tcp`.
#[derive(Debug)]
pub struct ParsedSocket {
    pub pid: Option<u32>,
    pub name: Option<String>,
    pub protocol: String,
    pub local_addr: String,
    pub local_port: u16,
    pub remote_addr: Option<String>,
    pub remote_port: Option<u16>,
    pub state: String,
}

/// Inputs on which `parse_proc_net_line` does not panic: the address fields it
/// slices are well-formed where it needs them to be.
pub open spec fn proc_line_ok(line: Seq<char>) -> bool {
    let w = spec_words(line);
    w.len() >= 10 ==> hex_addr_ok(w[1]) && (spec_parse_hex_addr(w[1]) is Some ==> hex_addr_ok(
        w[2],
    ))
}

/// The fields of a `/proc/net/tcp` line parse: addresses, state and inode.
pub open spec fn proc_line_parses(line: Seq<char>) -> bool {
    let w = spec_words(line);
    &&& w.len() >= 10
    &&& spec_parse_hex_addr(w[1]) is Some
    &&& spec_parse_hex_addr(w[2]) is Some
    &&& parse_hex(w[3], 255) is Some
    &&& parse_dec(w[9], 18446744073709551615) is Some
}

/// What `parse_proc_net_line` returns for a line whose fields parse.
pub open spec fn proc_line_socket(
    ps: ParsedSocket,
    line: Seq<char>,
    protocol: Seq<char>,
    inodes: Map<u64, (u32, String)>,
) -> bool {
    let w = spec_words(line);
    let (la, lp) = spec_parse_hex_addr(w[1])->0;
    let (ra, rp) = spec_parse_hex_addr(w[2])->0;
    let st = parse_hex(w[3], 255)->0;
    let inode = parse_dec(w[9], 18446744073709551615)->0;
    let owned = inode > 0 && inodes.contains_key(inode as u64);
    &&& ps.protocol@ == protocol
    &&& ps.local_addr@ == la
    &&& ps.local_port == lp
    &&& ps.state@ == tcp_state(st as u8)
    &&& ps.pid == (if owned {
        Some(inodes[inode as u64].0)
    } else {
        None::<u32>
    })
    &&& (owned ==> ps.name is Some && ps.name->0@ == inodes[inode as u64].1@)
    &&& (!owned ==> ps.name is None)
    &&& ps.remote_port == (if rp == 0 {
        None::<u16>
    } else {
        Some(rp)
    })
    &&& (rp == 0 && ra == "0.0.0.0"@ ==> ps.remote_addr is None)
    &&& (!(rp == 0 && ra == "0.0.0.0"@) ==> ps.remote_addr is Some && ps.remote_addr->0@ == ra)
}

/// Parse a single line from `/proc/net/tcp`.
///
/// Format: `sl local_address rem_address st tx_queue:rx_queue tr:tm->when retrnsmt uid timeout inode`
pub fn parse_proc_net_line(
    line: &str,
    protocol: &str,
    inode_to_pid: &HashMap<u64, (u32, String)>,
) -> (r: Option<ParsedSocket>)
    requires
        proc_line_ok(line@),
    ensures
        r is Some <==> proc_line_parses(line@),
        r matches Some(ps) ==> proc_line_socket(ps, line@, protocol@, inode_to_pid@),
{
    broadcast use vstd::std_specs::hash::group_hash_axioms;

    let cs = chars_of(line);
    let fields = split_words(cs.as_slice());
    if fields.len() < 10 {
        return None;
    }
    let f1 = string_of(fields[1].as_slice());
    let (local_addr, local_port) = match parse_hex_addr(f1.as_str()) {
        Some(v) => v,
        None => return None,
    };
    let f2 = string_of(fields[2].as_slice());
    let (remote_addr, remote_port) = match parse_hex_addr(f2.as_str()) {
        Some(v) => v,
        None => return None,
    };
    let state_hex = match parse_hex_u64(fields[3].as_slice(), 255) {
        Some(v) => v as u8,
        None => return None,
    };
    let state = tcp_state_name(state_hex);
    let inode = match parse_dec_u64(fields[9].as_slice(), 18446744073709551615) {
        Some(v) => v,
        None => return None,
    };
    let (pid, name) = if inode > 0 {
        match inode_to_pid.get(&inode) {
            Some(entry) => (Some(entry.0), Some(entry.1.clone())),
            None => (None, None),
        }
    } else {
        (None, None)
    };
    let ra_chars = chars_of(remote_addr.as_str());
    let unspecified = remote_port == 0 && eq_str(ra_chars.as_slice(), "0.0.0.0");
    let pcs = chars_of(protocol);
    Some(
        ParsedSocket {
            pid,
            name,
            protocol: string_of(pcs.as_slice()),
            local_addr,
            local_port,
            remote_addr: if unspecified {
                None
            } else {
                Some(remote_addr)
            },
            remote_port: if remote_port == 0 {
                None
            } else {
                Some(remote_port)
            },
            state,
        },
    )
}


// ── Process lifecycle detection ───────────────────────────────────

/// A process start or exit found by diffing two ticks.
#[derive(Debug)]
pub struct LifecycleEvent {
    pub kind: EventKind,
    pub pid: u32,
    pub name: String,
}

/// PID → name for a list of `(pid, name)` pairs; a later pair for the same PID wins,
/// as when collecting into a `HashMap`.
pub open spec fn assoc_map(s: Seq<(u32, Seq<char>)>) -> Map<u32, Seq<char>>
    decreases s.len(),
{
    if s.len() == 0 {
        Map::empty()
    } else {
        assoc_map(s.drop_last()).insert(s.last().0, s.last().1)
    }
}

/// The `(pid, name)` view of a process list.
pub open spec fn pid_name_pairs(procs: Seq<(u32, String)>) -> Seq<(u32, Seq<char>)> {
    procs.map_values(|p: (u32, String)| (p.0, p.1@))
}

/// Position of `p` in a list of distinct PIDs.
pub open spec fn pid_pos(pids: Seq<u32>, p: u32) -> int {
    choose|i: int| 0 <= i < pids.len() && pids[i] == p
}

pub open spec fn distinct_pids(pids: Seq<u32>) -> bool {
    forall|i: int, j: int| 0 <= i < pids.len() && 0 <= j < pids.len() && i != j ==> pids[i] != pids[j]
}

/// The PID → name map held by two parallel lists.
pub open spec fn pid_table(pids: Seq<u32>, names: Seq<String>) -> Map<u32, Seq<char>> {
    Map::new(|p: u32| pids.contains(p), |p: u32| names[pid_pos(pids, p)]@)
}

proof fn lemma_pid_pos(pids: Seq<u32>, i: int)
    requires
        distinct_pids(pids),
        0 <= i < pids.len(),
    ensures
        pid_pos(pids, pids[i]) == i,
{
    let j = pid_pos(pids, pids[i]);
    assert(0 <= j < pids.len() && pids[j] == pids[i]);
}

/// Remembers the PIDs and names seen on the previous tick.
pub struct ProcessTracker {
    prev_pids: Vec<u32>,
    prev_names: Vec<String>,
}

impl ProcessTracker {
    #[verifier::type_invariant]
    spec fn inv(self) -> bool {
        &&& self.prev_pids@.len() == self.prev_names@.len()
        &&& distinct_pids(self.prev_pids@)
    }

    /// PID → name of the previous tick.
    pub closed spec fn view(&self) -> Map<u32, Seq<char>> {
        pid_table(self.prev_pids@, self.prev_names@)
    }

    /// A tracker that has seen no tick yet.
    pub fn new() -> (t: ProcessTracker)
        ensures
            t@ == Map::<u32, Seq<char>>::empty(),
    {
        let t = ProcessTracker { prev_pids: Vec::new(), prev_names: Vec::new() };
        proof {
            assert(t@ =~= Map::<u32, Seq<char>>::empty());
        }
        t
    }

    /// Diff the current processes against the previous tick.
    ///
    /// Returns a `ProcessStart` event for each PID that appeared and a
    /// `ProcessExit` event for each PID that disappeared, and remembers the
    /// current processes for the next tick. On the first tick (no previous
    /// PIDs) nothing is reported.
    pub fn detect(&mut self, procs: &[(u32, String)]) -> (events: Vec<LifecycleEvent>)
        ensures
            final(self)@ == assoc_map(pid_name_pairs(procs@)),
            old(self)@.dom().is_empty() ==> events@.len() == 0,
            !old(self)@.dom().is_empty() ==> lifecycle_diff(
                old(self)@,
                assoc_map(pid_name_pairs(procs@)),
                events@,
            ),
    {
        proof {
            use_type_invariant(&*self);
        }
        let ghost old_map = self@;
        let ghost cur_spec = assoc_map(pid_name_pairs(procs@));
        // Current PID → name table, later entries overwriting earlier ones.
        let mut cur_pids: Vec<u32> = Vec::new();
        let mut cur_names: Vec<String> = Vec::new();
        let mut k: usize = 0;
        proof {
            assert(pid_name_pairs(procs@).take(0) =~= Seq::<(u32, Seq<char>)>::empty());
            assert(pid_table(cur_pids@, cur_names@) =~= Map::<u32, Seq<char>>::empty());
        }
        while k < procs.len()
            invariant
                k <= procs@.len(),
                cur_pids@.len() == cur_names@.len(),
                distinct_pids(cur_pids@),
                pid_table(cur_pids@, cur_names@) == assoc_map(pid_name_pairs(procs@).take(k as int)),
            decreases procs@.len() - k,
        {
            let pid = procs[k].0;
            let name = procs[k].1.clone();
            let ghost before = pid_table(cur_pids@, cur_names@);
            proof {
                assert(pid_name_pairs(procs@).take(k + 1).drop_last() =~= pid_name_pairs(procs@).take(
                    k as int,
                ));
                assert(pid_name_pairs(procs@)[k as int] == (pid, procs@[k as int].1@));
            }
            match position(&cur_pids, pid) {
                Some(j) => {
                    cur_names.set(j, name);
                    proof {
                        assert forall|q: int| 0 <= q < cur_pids@.len() implies pid_pos(cur_pids@, cur_pids@[q]) == q by {
                            lemma_pid_pos(cur_pids@, q);
                        }
                        assert(pid_table(cur_pids@, cur_names@) =~= before.insert(pid, name@));
                    }
                },
                None => {
                    let ghost old_pids = cur_pids@;
                    cur_pids.push(pid);
                    cur_names.push(name);
                    proof {
                        assert forall|q: int| 0 <= q < cur_pids@.len() implies pid_pos(cur_pids@, cur_pids@[q]) == q by {
                            lemma_pid_pos(cur_pids@, q);
                        }
                        assert forall|q: int| 0 <= q < old_pids.len() implies pid_pos(old_pids, old_pids[q]) == q by {
                            lemma_pid_pos(old_pids, q);
                        }
                        assert forall|p: u32| #[trigger] cur_pids@.contains(p) <==> (old_pids.contains(p) || p == pid) by {
                            if cur_pids@.contains(p) {
                                let q = choose|q: int| 0 <= q < cur_pids@.len() && cur_pids@[q] == p;
                                if q < old_pids.len() {
                                    assert(old_pids[q] == p);
                                }
                            }
                            if old_pids.contains(p) {
                                let q = choose|q: int| 0 <= q < old_pids.len() && old_pids[q] == p;
                                assert(cur_pids@[q] == p);
                            }
                            if p == pid {
                                assert(cur_pids@[old_pids.len() as int] == p);
                            }
                        }
                        assert(pid_table(cur_pids@, cur_names@) =~= before.insert(pid, name@));
                    }
                },
            }
            k += 1;
        }
        proof {
            assert(pid_name_pairs(procs@).take(k as int) =~= pid_name_pairs(procs@));
        }
        let ghost cur_map = pid_table(cur_pids@, cur_names@);
        let mut events: Vec<LifecycleEvent> = Vec::new();
        if self.prev_pids.len() > 0 {
            proof {
                assert(old_map.dom().contains(self.prev_pids@[0]));
            }
            // New PIDs: started processes.
            let mut i: usize = 0;
            while i < cur_pids.len()
                invariant
                    i <= cur_pids@.len(),
                    cur_pids@.len() == cur_names@.len(),
                    distinct_pids(cur_pids@),
                    cur_map == pid_table(cur_pids@, cur_names@),
                    old_map == pid_table(self.prev_pids@, self.prev_names@),
                    self.prev_pids@.len() == self.prev_names@.len(),
                    distinct_pids(self.prev_pids@),
                    forall|e: int| 0 <= e < events@.len() ==> {
                        let ev = #[trigger] events@[e];
                        &&& ev.kind == EventKind::ProcessStart
                        &&& cur_map.dom().contains(ev.pid)
                        &&& !old_map.dom().contains(ev.pid)
                        &&& ev.name@ == cur_map[ev.pid]
                        &&& exists|q: int| 0 <= q < i && cur_pids@[q] == ev.pid
                    },
                    forall|a: int, b: int| 0 <= a < b < events@.len() ==> events@[a].pid != events@[b].pid,
                    forall|q: int| 0 <= q < i && !self.prev_pids@.contains(#[trigger] cur_pids@[q]) ==> exists|e: int| 0 <= e < events@.len() && events@[e].pid == cur_pids@[q],
                decreases cur_pids@.len() - i,
            {
                let pid = cur_pids[i];
                let ghost before0 = events@;
                if position(&self.prev_pids, pid).is_none() {
                    let ghost before = events@;
                    proof {
                        lemma_pid_pos(cur_pids@, i as int);
                        assert(cur_pids@.contains(pid));
                        assert forall|e: int| 0 <= e < before.len() implies before[e].pid != pid by {
                            let q = choose|q: int| 0 <= q < i && cur_pids@[q] == before[e].pid;
                        }
                    }
                    events.push(LifecycleEvent { kind: EventKind::ProcessStart, pid, name: cur_names[i].clone() });
                    proof {
                        assert(events@[events@.len() - 1].pid == pid);
                    }
                }
                proof {
                    assert forall|q: int| 0 <= q < i + 1 && !self.prev_pids@.contains(#[trigger] cur_pids@[q]) implies exists|e: int| 0 <= e < events@.len() && events@[e].pid == cur_pids@[q] by {
                        if q == i {
                            assert(events@[events@.len() - 1].pid == cur_pids@[q]);
                        } else {
                            let e = choose|e: int| 0 <= e < before0.len() && before0[e].pid == cur_pids@[q];
                            assert(events@[e] == before0[e]);
                        }
                    }
                }
                i += 1;
            }
            let ghost n_starts = events@.len();
            // Disappeared PIDs: exited processes.
            let mut i: usize = 0;
            while i < self.prev_pids.len()
                invariant
                    i <= self.prev_pids@.len(),
                    n_starts <= events@.len(),
                    cur_pids@.len() == cur_names@.len(),
                    distinct_pids(cur_pids@),
                    cur_map == pid_table(cur_pids@, cur_names@),
                    old_map == pid_table(self.prev_pids@, self.prev_names@),
                    self.prev_pids@.len() == self.prev_names@.len(),
                    distinct_pids(self.prev_pids@),
                    forall|e: int| 0 <= e < n_starts ==> {
                        let ev = #[trigger] events@[e];
                        &&& ev.kind == EventKind::ProcessStart
                        &&& cur_map.dom().contains(ev.pid)
                        &&& !old_map.dom().contains(ev.pid)
                        &&& ev.name@ == cur_map[ev.pid]
                    },
                    forall|e: int| n_starts <= e < events@.len() ==> {
                        let ev = #[trigger] events@[e];
                        &&& ev.kind == EventKind::ProcessExit
                        &&& old_map.dom().contains(ev.pid)
                        &&& !cur_map.dom().contains(ev.pid)
                        &&& ev.name@ == old_map[ev.pid]
                        &&& exists|q: int| 0 <= q < i && self.prev_pids@[q] == ev.pid
                    },
                    forall|a: int, b: int| 0 <= a < b < n_starts ==> events@[a].pid != events@[b].pid,
                    forall|a: int, b: int| n_starts <= a < b < events@.len() ==> events@[a].pid != events@[b].pid,
                    forall|p: u32| cur_map.dom().contains(p) && !old_map.dom().contains(p) ==> exists|e: int| 0 <= e < n_starts && #[trigger] events@[e].pid == p,
                    forall|q: int| 0 <= q < i && !cur_pids@.contains(#[trigger] self.prev_pids@[q]) ==> exists|e: int| n_starts <= e < events@.len() && events@[e].pid == self.prev_pids@[q],
                decreases self.prev_pids@.len() - i,
            {
                let pid = self.prev_pids[i];
                let ghost before0 = events@;
                if position(&cur_pids, pid).is_none() {
                    let ghost before = events@;
                    proof {
                        lemma_pid_pos(self.prev_pids@, i as int);
                        assert(self.prev_pids@.contains(pid));
                        assert forall|e: int| n_starts <= e < before.len() implies before[e].pid != pid by {
                            let q = choose|q: int| 0 <= q < i && self.prev_pids@[q] == before[e].pid;
                        }
                    }
                    events.push(LifecycleEvent { kind: EventKind::ProcessExit, pid, name: self.prev_names[i].clone() });
                    proof {
                        assert(events@[events@.len() - 1].pid == pid);
                    }
                }
                proof {
                    assert forall|q: int| 0 <= q < i + 1 && !cur_pids@.contains(#[trigger] self.prev_pids@[q]) implies exists|e: int| n_starts <= e < events@.len() && events@[e].pid == self.prev_pids@[q] by {
                        if q == i {
                            assert(events@[events@.len() - 1].pid == self.prev_pids@[q]);
                        } else {
                            let e = choose|e: int| n_starts <= e < before0.len() && before0[e].pid == self.prev_pids@[q];
                            assert(events@[e] == before0[e]);
                        }
                    }
                    assert forall|p: u32| cur_map.dom().contains(p) && !old_map.dom().contains(p) implies exists|e: int| 0 <= e < n_starts && #[trigger] events@[e].pid == p by {
                        let e = choose|e: int| 0 <= e < n_starts && #[trigger] before0[e].pid == p;
                        assert(events@[e] == before0[e]);
                    }
                }
                i += 1;
            }
            proof {
                assert forall|p: u32| #[trigger] old_map.dom().contains(p) && !cur_map.dom().contains(p) implies exists|e: int| n_starts <= e < events@.len() && events@[e].pid == p by {
                    let q = choose|q: int| 0 <= q < self.prev_pids@.len() && self.prev_pids@[q] == p;
                    assert(!cur_pids@.contains(self.prev_pids@[q]));
                }
                assert(lifecycle_split(old_map, cur_map, events@, n_starts as int));
            }
        }
        *self = ProcessTracker { prev_pids: cur_pids, prev_names: cur_names };
        events
    }
}

/// `events` lists first the processes that started (in `cur` but not in `prev`) and
/// then those that exited (in `prev` but not in `cur`), each PID once, with its name.
pub open spec fn lifecycle_split(
    prev: Map<u32, Seq<char>>,
    cur: Map<u32, Seq<char>>,
    events: Seq<LifecycleEvent>,
    n_starts: int,
) -> bool {
    &&& 0 <= n_starts <= events.len()
    &&& forall|e: int| 0 <= e < n_starts ==> {
        let ev = #[trigger] events[e];
        &&& ev.kind == EventKind::ProcessStart
        &&& cur.dom().contains(ev.pid)
        &&& !prev.dom().contains(ev.pid)
        &&& ev.name@ == cur[ev.pid]
    }
    &&& forall|e: int| n_starts <= e < events.len() ==> {
        let ev = #[trigger] events[e];
        &&& ev.kind == EventKind::ProcessExit
        &&& prev.dom().contains(ev.pid)
        &&& !cur.dom().contains(ev.pid)
        &&& ev.name@ == prev[ev.pid]
    }
    &&& forall|a: int, b: int| 0 <= a < b < n_starts ==> events[a].pid != events[b].pid
    &&& forall|a: int, b: int| n_starts <= a < b < events.len() ==> events[a].pid != events[b].pid
    &&& forall|p: u32| cur.dom().contains(p) && !prev.dom().contains(p) ==> exists|e: int| 0 <= e < n_starts && #[trigger] events[e].pid == p
    &&& forall|p: u32| prev.dom().contains(p) && !cur.dom().contains(p) ==> exists|e: int| n_starts <= e < events.len() && #[trigger] events[e].pid == p
}

/// The lifecycle events are exactly the symmetric difference of the two ticks.
pub open spec fn lifecycle_diff(
    prev: Map<u32, Seq<char>>,
    cur: Map<u32, Seq<char>>,
    events: Seq<LifecycleEvent>,
) -> bool {
    exists|n: int| lifecycle_split(prev, cur, events, n)
}

/// Position of `x` in `v`, if present.
pub fn position(v: &Vec<u32>, x: u32) -> (r: Option<usize>)
    ensures
        match r {
            Some(i) => i < v@.len() && v@[i as int] == x,
            None => !v@.contains(x),
        },
{
    let mut i: usize = 0;
    while i < v.len()
        invariant
            i <= v@.len(),
            forall|j: int| 0 <= j < i ==> v@[j] != x,
        decreases v@.len() - i,
    {
        if v[i] == x {
            return Some(i);
        }
        i += 1;
    }
    None
}

// ── Rows read back from the store ─────────────────────────────────

/// An event row.
#[derive(Debug, Clone)]
pub struct EventRow {
    /// Unix epoch milliseconds.
    pub ts: i64,
    pub kind: String,
    pub pid: Option<u32>,
    pub name: Option<String>,
    pub detail: Option<String>,
    pub severity: Option<String>,
}

/// A network socket row.
#[derive(Debug, Clone)]
pub struct SocketRow {
    /// Unix epoch milliseconds.
    pub ts: i64,
    pub pid: Option<u32>,
    pub name: Option<String>,
    pub protocol: String,
    pub local_addr: String,
    pub local_port: u16,
    pub remote_addr: Option<String>,
    pub remote_port: Option<u16>,
    pub state: String,
}

// ── Clock ─────────────────────────────────────────────────────────

/// Current time as Unix epoch milliseconds.
pub fn now_epoch_ms() -> i64 {
    system_time_ms()
}

/// Current time as Unix epoch milliseconds (public for diagnostics).
pub fn now_epoch_ms_pub() -> i64 {
    now_epoch_ms()
}

// ── Retention ─────────────────────────────────────────────────────

/// Default data retention window: 24 hours.
pub const DEFAULT_RETENTION_SECS: u64 = 86400;

/// Old rows are purged once every this many inserts.
pub const CLEANUP_INTERVAL: u64 = 300;

/// The oldest timestamp kept when the clock reads `now_ms` and rows are kept for
/// `retention_secs`.
pub fn retention_cutoff(now_ms: i64, retention_secs: u64) -> (cutoff: i64)
    requires
        retention_secs * 1000 <= i64::MAX,
        now_ms - retention_secs * 1000 >= i64::MIN,
    ensures
        cutoff == now_ms - retention_secs * 1000,
{
    now_ms - (retention_secs as i64) * 1000
}

/// Counts inserts and says when it is time to purge old rows.
pub struct CleanupCounter {
    pub insert_count: u64,
}

impl CleanupCounter {
    /// A counter at zero.
    pub fn new() -> (c: CleanupCounter)
        ensures
            c.insert_count == 0,
    {
        CleanupCounter { insert_count: 0 }
    }

    /// Counts one insert; true when the count reaches a multiple of `CLEANUP_INTERVAL`.
    pub fn record_insert(&mut self) -> (due: bool)
        requires
            old(self).insert_count < u64::MAX,
        ensures
            final(self).insert_count == old(self).insert_count + 1,
            due == (final(self).insert_count % CLEANUP_INTERVAL == 0),
    {
        self.insert_count = self.insert_count + 1;
        self.insert_count % CLEANUP_INTERVAL == 0
    }
}

// ── Port bind / release detection ─────────────────────────────────

/// A listening socket as tracked between ticks: protocol, port, pid.
pub type ListenerKey = (Seq<char>, u16, u32);

/// The listeners of a snapshot: every row with a known pid.
pub open spec fn listener_set(rows: Seq<SocketRow>) -> Set<ListenerKey> {
    Set::new(
        |k: ListenerKey|
            exists|i: int|
                0 <= i < rows.len() && (#[trigger] rows[i]).pid == Some(k.2) && rows[i].protocol@ == k.0
                    && rows[i].local_port == k.1,
    )
}

/// A listener that appeared or went away.
#[derive(Debug, Clone)]
pub struct PortEvent {
    /// `PortBind` or `PortRelease`.
    pub kind: EventKind,
    pub protocol: String,
    pub port: u16,
    pub pid: u32,
}

pub open spec fn port_event_key(e: PortEvent) -> ListenerKey {
    (e.protocol@, e.port, e.pid)
}

/// The detail text stored with a port event: "proto:port".
pub open spec fn port_detail(protocol: Seq<char>, port: u16) -> Seq<char> {
    protocol + ":"@ + nat_to_dec(port as nat)
}

impl PortEvent {
    /// The detail text stored with the event.
    pub fn detail(&self) -> (r: String)
        ensures
            r@ == port_detail(self.protocol@, self.port),
    {
        let mut v = chars_of(self.protocol.as_str());
        push_str(&mut v, ":");
        let d = u64_to_dec(self.port as u64);
        push_all(&mut v, d.as_slice());
        string_of(v.as_slice())
    }
}

/// `events` lists first a bind for each listener in `cur` but not in `prev`, then
/// a release for each listener in `prev` but not in `cur`, each listener once.
pub open spec fn port_split(prev: Set<ListenerKey>, cur: Set<ListenerKey>, events: Seq<PortEvent>, n: int) -> bool {
    &&& 0 <= n <= events.len()
    &&& forall|e: int| 0 <= e < n ==> (#[trigger] events[e]).kind == EventKind::PortBind
        && cur.contains(port_event_key(events[e])) && !prev.contains(port_event_key(events[e]))
    &&& forall|e: int| n <= e < events.len() ==> (#[trigger] events[e]).kind == EventKind::PortRelease
        && prev.contains(port_event_key(events[e])) && !cur.contains(port_event_key(events[e]))
    &&& forall|a: int, b: int| 0 <= a < b < events.len() ==> port_event_key(#[trigger] events[a])
        != port_event_key(#[trigger] events[b])
    &&& forall|k: ListenerKey| cur.contains(k) && !prev.contains(k) ==> exists|e: int| 0 <= e < n && port_event_key(#[trigger] events[e]) == k
    &&& forall|k: ListenerKey| prev.contains(k) && !cur.contains(k) ==> exists|e: int| n <= e < events.len() && port_event_key(#[trigger] events[e]) == k
}

/// The port events are exactly the symmetric difference of the two snapshots.
pub open spec fn port_diff(prev: Set<ListenerKey>, cur: Set<ListenerKey>, events: Seq<PortEvent>) -> bool {
    exists|n: int| port_split(prev, cur, events, n)
}

type Listener = (String, u16, u32);

pub open spec fn lkey(l: (String, u16, u32)) -> ListenerKey {
    (l.0@, l.1, l.2)
}

pub open spec fn lkeys_distinct(s: Seq<(String, u16, u32)>) -> bool {
    forall|a: int, b: int| 0 <= a < b < s.len() ==> lkey(#[trigger] s[a]) != lkey(#[trigger] s[b])
}

pub open spec fn lkey_set(s: Seq<(String, u16, u32)>) -> Set<ListenerKey> {
    Set::new(|k: ListenerKey| exists|i: int| 0 <= i < s.len() && lkey(#[trigger] s[i]) == k)
}

fn find_listener(v: &Vec<Listener>, proto: &[char], port: u16, pid: u32) -> (r: Option<usize>)
    ensures
        match r {
            Some(i) => i < v@.len() && lkey(v@[i as int]) == (proto@, port, pid),
            None => !lkey_set(v@).contains((proto@, port, pid)),
        },
{
    let mut i: usize = 0;
    while i < v.len()
        invariant
            i <= v@.len(),
            forall|j: int| 0 <= j < i ==> lkey(#[trigger] v@[j]) != (proto@, port, pid),
        decreases v@.len() - i,
    {
        if v[i].1 == port && v[i].2 == pid {
            let pc = chars_of(v[i].0.as_str());
            if chars_eq(pc.as_slice(), proto) {
                return Some(i);
            }
        }
        i = i + 1;
    }
    None
}

/// Remembers the listeners seen on the previous tick.
pub struct ListenerTracker {
    prev: Vec<(String, u16, u32)>,
}

impl ListenerTracker {
    #[verifier::type_invariant]
    spec fn inv(self) -> bool {
        lkeys_distinct(self.prev@)
    }

    /// The listeners of the previous tick.
    pub closed spec fn view(&self) -> Set<ListenerKey> {
        lkey_set(self.prev@)
    }

    /// A tracker that has seen no tick yet.
    pub fn new() -> (t: ListenerTracker)
        ensures
            t@ == Set::<ListenerKey>::empty(),
    {
        let t = ListenerTracker { prev: Vec::new() };
        proof {
            assert(t@ =~= Set::<ListenerKey>::empty());
        }
        t
    }

    /// Diff the current listeners (rows with a known pid) against the previous
    /// tick: a bind for each new one, a release for each one gone. The first
    /// tick only records. The current listeners are kept for the next tick.
    pub fn detect(&mut self, rows: &[SocketRow]) -> (events: Vec<PortEvent>)
        ensures
            final(self)@ == listener_set(rows@),
            old(self)@.is_empty() ==> events@.len() == 0,
            !old(self)@.is_empty() ==> port_diff(old(self)@, listener_set(rows@), events@),
    {
        proof {
            use_type_invariant(&*self);
        }
        let ghost prev_set = self@;
        let ghost cur_set = listener_set(rows@);
        let mut cur: Vec<Listener> = Vec::new();
        let mut k: usize = 0;
        while k < rows.len()
            invariant
                k <= rows@.len(),
                lkeys_distinct(cur@),
                cur_set == listener_set(rows@),
                forall|key: ListenerKey| #[trigger] lkey_set(cur@).contains(key) <==> exists|i: int|
                    0 <= i < k && rows@[i].pid == Some(key.2) && rows@[i].protocol@ == key.0
                        && rows@[i].local_port == key.1,
            decreases rows@.len() - k,
        {
            if let Some(pid) = rows[k].pid {
                let pc = chars_of(rows[k].protocol.as_str());
                let port = rows[k].local_port;
                match find_listener(&cur, pc.as_slice(), port, pid) {
                    Some(_) => {
                        proof {
                            assert forall|key: ListenerKey| #[trigger] lkey_set(cur@).contains(key) <==> exists|i: int|
                                0 <= i < k + 1 && rows@[i].pid == Some(key.2) && rows@[i].protocol@ == key.0
                                    && rows@[i].local_port == key.1 by {
                                if exists|i: int| 0 <= i < k + 1 && rows@[i].pid == Some(key.2) && rows@[i].protocol@ == key.0 && rows@[i].local_port == key.1 {
                                    let i = choose|i: int| 0 <= i < k + 1 && rows@[i].pid == Some(key.2) && rows@[i].protocol@ == key.0 && rows@[i].local_port == key.1;
                                    if i == k {
                                        assert(lkey_set(cur@).contains((pc@, port, pid)));
                                    }
                                }
                            }
                        }
                    },
                    None => {
                        let ghost before = cur@;
                        cur.push((rows[k].protocol.clone(), port, pid));
                        proof {
                            assert(lkey(cur@[cur@.len() - 1]) == (pc@, port, pid));
                            assert forall|a: int, b: int| 0 <= a < b < cur@.len() implies lkey(#[trigger] cur@[a]) != lkey(#[trigger] cur@[b]) by {
                                if b == cur@.len() - 1 {
                                    assert(cur@[a] == before[a]);
                                    assert(lkey_set(before).contains(lkey(before[a])));
                                } else {
                                    assert(cur@[a] == before[a]);
                                    assert(cur@[b] == before[b]);
                                }
                            }
                            assert forall|key: ListenerKey| #[trigger] lkey_set(cur@).contains(key) <==> (lkey_set(before).contains(key) || key == (pc@, port, pid)) by {
                                if lkey_set(cur@).contains(key) {
                                    let i = choose|i: int| 0 <= i < cur@.len() && lkey(#[trigger] cur@[i]) == key;
                                    if i < before.len() {
                                        assert(cur@[i] == before[i]);
                                    }
                                }
                                if lkey_set(before).contains(key) {
                                    let i = choose|i: int| 0 <= i < before.len() && lkey(#[trigger] before[i]) == key;
                                    assert(cur@[i] == before[i]);
                                }
                                if key == (pc@, port, pid) {
                                    assert(lkey(cur@[before.len() as int]) == key);
                                }
                            }
                            assert forall|key: ListenerKey| #[trigger] lkey_set(cur@).contains(key) <==> exists|i: int|
                                0 <= i < k + 1 && rows@[i].pid == Some(key.2) && rows@[i].protocol@ == key.0
                                    && rows@[i].local_port == key.1 by {
                                if exists|i: int| 0 <= i < k + 1 && rows@[i].pid == Some(key.2) && rows@[i].protocol@ == key.0 && rows@[i].local_port == key.1 {
                                    let i = choose|i: int| 0 <= i < k + 1 && rows@[i].pid == Some(key.2) && rows@[i].protocol@ == key.0 && rows@[i].local_port == key.1;
                                    if i < k {
                                        assert(lkey_set(before).contains(key));
                                    }
                                }
                                if lkey_set(before).contains(key) {
                                    let i = choose|i: int| 0 <= i < k && rows@[i].pid == Some(key.2) && rows@[i].protocol@ == key.0 && rows@[i].local_port == key.1;
                                }
                            }
                        }
                    },
                }
            }
            k = k + 1;
        }
        proof {
            assert(lkey_set(cur@) =~= cur_set);
        }
        let mut events: Vec<PortEvent> = Vec::new();
        if self.prev.len() > 0 {
            proof {
                assert(prev_set.contains(lkey(self.prev@[0])));
            }
            let mut i: usize = 0;
            while i < cur.len()
                invariant
                    i <= cur@.len(),
                    lkeys_distinct(cur@),
                    lkeys_distinct(self.prev@),
                    lkey_set(cur@) == cur_set,
                    lkey_set(self.prev@) == prev_set,
                    forall|e: int| 0 <= e < events@.len() ==> (#[trigger] events@[e]).kind == EventKind::PortBind
                        && cur_set.contains(port_event_key(events@[e])) && !prev_set.contains(port_event_key(events@[e]))
                        && exists|q: int| 0 <= q < i && lkey(cur@[q]) == port_event_key(events@[e]),
                    forall|a: int, b: int| 0 <= a < b < events@.len() ==> port_event_key(#[trigger] events@[a])
                        != port_event_key(#[trigger] events@[b]),
                    forall|q: int| 0 <= q < i && !prev_set.contains(lkey(#[trigger] cur@[q])) ==> exists|e: int|
                        0 <= e < events@.len() && port_event_key(events@[e]) == lkey(cur@[q]),
                decreases cur@.len() - i,
            {
                let pc = chars_of(cur[i].0.as_str());
                let ghost before = events@;
                if find_listener(&self.prev, pc.as_slice(), cur[i].1, cur[i].2).is_none() {
                    proof {
                        assert(cur_set.contains(lkey(cur@[i as int])));
                        assert forall|e: int| 0 <= e < before.len() implies port_event_key(before[e]) != lkey(cur@[i as int]) by {
                            let q = choose|q: int| 0 <= q < i && lkey(cur@[q]) == port_event_key(before[e]);
                        }
                    }
                    events.push(PortEvent { kind: EventKind::PortBind, protocol: cur[i].0.clone(), port: cur[i].1, pid: cur[i].2 });
                    proof {
                        assert(port_event_key(events@[events@.len() - 1]) == lkey(cur@[i as int]));
                    }
                }
                proof {
                    assert forall|q: int| 0 <= q < i + 1 && !prev_set.contains(lkey(#[trigger] cur@[q])) implies exists|e: int|
                        0 <= e < events@.len() && port_event_key(events@[e]) == lkey(cur@[q]) by {
                        if q == i {
                            assert(port_event_key(events@[events@.len() - 1]) == lkey(cur@[q]));
                        } else {
                            let e = choose|e: int| 0 <= e < before.len() && port_event_key(before[e]) == lkey(cur@[q]);
                            assert(events@[e] == before[e]);
                        }
                    }
                }
                i = i + 1;
            }
            let ghost n_binds = events@.len();
            let mut i: usize = 0;
            while i < self.prev.len()
                invariant
                    i <= self.prev@.len(),
                    n_binds <= events@.len(),
                    lkeys_distinct(cur@),
                    lkeys_distinct(self.prev@),
                    lkey_set(cur@) == cur_set,
                    lkey_set(self.prev@) == prev_set,
                    forall|e: int| 0 <= e < n_binds ==> (#[trigger] events@[e]).kind == EventKind::PortBind
                        && cur_set.contains(port_event_key(events@[e])) && !prev_set.contains(port_event_key(events@[e])),
                    forall|e: int| n_binds <= e < events@.len() ==> (#[trigger] events@[e]).kind == EventKind::PortRelease
                        && prev_set.contains(port_event_key(events@[e])) && !cur_set.contains(port_event_key(events@[e]))
                        && exists|q: int| 0 <= q < i && lkey(self.prev@[q]) == port_event_key(events@[e]),
                    forall|a: int, b: int| 0 <= a < b < events@.len() ==> port_event_key(#[trigger] events@[a])
                        != port_event_key(#[trigger] events@[b]),
                    forall|key: ListenerKey| cur_set.contains(key) && !prev_set.contains(key) ==> exists|e: int|
                        0 <= e < n_binds && port_event_key(#[trigger] events@[e]) == key,
                    forall|q: int| 0 <= q < i && !cur_set.contains(lkey(#[trigger] self.prev@[q])) ==> exists|e: int|
                        n_binds <= e < events@.len() && port_event_key(events@[e]) == lkey(self.prev@[q]),
                decreases self.prev@.len() - i,
            {
                let pc = chars_of(self.prev[i].0.as_str());
                let ghost before = events@;
                if find_listener(&cur, pc.as_slice(), self.prev[i].1, self.prev[i].2).is_none() {
                    proof {
                        assert(prev_set.contains(lkey(self.prev@[i as int])));
                        assert forall|e: int| 0 <= e < before.len() implies port_event_key(before[e]) != lkey(self.prev@[i as int]) by {
                            if e >= n_binds {
                                let q = choose|q: int| 0 <= q < i && lkey(self.prev@[q]) == port_event_key(before[e]);
                            }
                        }
                    }
                    events.push(PortEvent {
                        kind: EventKind::PortRelease,
                        protocol: self.prev[i].0.clone(),
                        port: self.prev[i].1,
                        pid: self.prev[i].2,
                    });
                    proof {
                        assert(port_event_key(events@[events@.len() - 1]) == lkey(self.prev@[i as int]));
                    }
                }
                proof {
                    assert forall|q: int| 0 <= q < i + 1 && !cur_set.contains(lkey(#[trigger] self.prev@[q])) implies exists|e: int|
                        n_binds <= e < events@.len() && port_event_key(events@[e]) == lkey(self.prev@[q]) by {
                        if q == i {
                            assert(port_event_key(events@[events@.len() - 1]) == lkey(self.prev@[q]));
                        } else {
                            let e = choose|e: int| n_binds <= e < before.len() && port_event_key(before[e]) == lkey(self.prev@[q]);
                            assert(events@[e] == before[e]);
                        }
                    }
                    assert forall|key: ListenerKey| cur_set.contains(key) && !prev_set.contains(key) implies exists|e: int|
                        0 <= e < n_binds && port_event_key(#[trigger] events@[e]) == key by {
                        let e = choose|e: int| 0 <= e < n_binds && port_event_key(#[trigger] before[e]) == key;
                        assert(events@[e] == before[e]);
                    }
                }
                i = i + 1;
            }
            proof {
                assert forall|key: ListenerKey| prev_set.contains(key) && !cur_set.contains(key) implies exists|e: int|
                    n_binds <= e < events@.len() && port_event_key(#[trigger] events@[e]) == key by {
                    let q = choose|q: int| 0 <= q < self.prev@.len() && lkey(#[trigger] self.prev@[q]) == key;
                    assert(!cur_set.contains(lkey(self.prev@[q])));
                }
                assert(port_split(prev_set, cur_set, events@, n_binds as int));
            }
        } else {
            proof {
                assert(prev_set =~= Set::<ListenerKey>::empty());
            }
        }
        *self = ListenerTracker { prev: cur };
        events
    }
}

// ── Event summary for AI context ──────────────────────────────────

/// One line of the recent-events summary: "[age] kind PID p (name)".
pub open spec fn spec_summary_line(now_ms: int, e: EventRow) -> Seq<char> {
    "["@ + spec_format_age_ms(now_ms - e.ts) + "] "@ + e.kind@ + match e.pid {
        Some(p) => " PID "@ + nat_to_dec(p as nat),
        None => Seq::empty(),
    } + match e.name {
        Some(n) => " ("@ + n@ + ")"@,
        None => Seq::empty(),
    }
}

/// The summary line of an event when the clock reads `now_ms`.
pub fn summary_line(now_ms: i64, e: &EventRow) -> (r: String)
    requires
        i64::MIN <= now_ms - e.ts <= i64::MAX,
    ensures
        r@ == spec_summary_line(now_ms as int, *e),
{
    let age = format_age_ms(now_ms - e.ts);
    let mut v = chars_of("[");
    push_str(&mut v, age.as_str());
    push_str(&mut v, "] ");
    push_str(&mut v, e.kind.as_str());
    if let Some(p) = e.pid {
        push_str(&mut v, " PID ");
        let d = u64_to_dec(p as u64);
        push_all(&mut v, d.as_slice());
    }
    if let Some(n) = &e.name {
        push_str(&mut v, " (");
        push_str(&mut v, n.as_str());
        push_str(&mut v, ")");
    }
    string_of(v.as_slice())
}

/// The summary lines of `events`, one per line.
pub open spec fn summary_lines(now_ms: int, events: Seq<EventRow>) -> Seq<char>
    decreases events.len(),
{
    if events.len() == 0 {
        Seq::empty()
    } else if events.len() == 1 {
        spec_summary_line(now_ms, events[0])
    } else {
        summary_lines(now_ms, events.drop_last()) + "\n"@ + spec_summary_line(now_ms, events.last())
    }
}

/// The summary of the first `limit` events.
pub open spec fn spec_events_summary(now_ms: int, events: Seq<EventRow>, limit: int) -> Seq<char> {
    summary_lines(now_ms, if events.len() <= limit { events } else { events.take(limit) })
}

/// Text summary of recent events: a line for each of the first `limit` events.
pub fn events_summary(now_ms: i64, events: &[EventRow], limit: usize) -> (r: String)
    requires
        forall|i: int| 0 <= i < events@.len() && i < limit ==> i64::MIN <= now_ms - (#[trigger] events@[i]).ts <= i64::MAX,
    ensures
        r@ == spec_events_summary(now_ms as int, events@, limit as int),
{
    let n: usize = if events.len() < limit {
        events.len()
    } else {
        limit
    };
    let mut v: Vec<char> = Vec::new();
    let mut i: usize = 0;
    while i < n
        invariant
            n <= events@.len(),
            n <= limit,
            i <= n,
            forall|j: int| 0 <= j < events@.len() && j < limit ==> i64::MIN <= now_ms - (#[trigger] events@[j]).ts <= i64::MAX,
            v@ == summary_lines(now_ms as int, events@.take(i as int)),
        decreases n - i,
    {
        let line = summary_line(now_ms, &events[i]);
        proof {
            assert(events@.take(i + 1).drop_last() =~= events@.take(i as int));
            assert(events@.take(i + 1)[i as int] == events@[i as int]);
        }
        if i > 0 {
            push_str(&mut v, "\n");
        }
        push_str(&mut v, line.as_str());
        i = i + 1;
    }
    proof {
        if events@.len() <= limit {
            assert(events@.take(n as int) =~= events@);
        }
    }
    string_of(v.as_slice())
}

// ── /proc scanning helpers ────────────────────────────────────────

/// The inode named by a `/proc/<pid>/fd` link of the form `socket:[<inode>]`.
pub open spec fn spec_socket_inode(link: Seq<char>) -> Option<nat> {
    if link.len() >= 9 && spec_starts_with(link, "socket:["@) && link.last() == ']' {
        parse_dec(link.subrange(8, link.len() - 1), u64::MAX as nat)
    } else {
        None
    }
}

/// The socket inode a file-descriptor link points at, if it is a socket link.
pub fn socket_inode_of_link(link: &str) -> (r: Option<u64>)
    ensures
        match r {
            Some(n) => spec_socket_inode(link@) == Some(n as nat),
            None => spec_socket_inode(link@) is None,
        },
{
    let cs = chars_of(link);
    proof {
        reveal_strlit("socket:[");
    }
    if cs.len() < 9 || !starts_with_str(cs.as_slice(), "socket:[") || cs[cs.len() - 1] != ']' {
        return None;
    }
    let mid = sub_chars(cs.as_slice(), 8, cs.len() - 1);
    parse_dec_u64(mid.as_slice(), u64::MAX)
}

/// The pid named by a `/proc` entry, if the name is a number.
pub fn proc_entry_pid(name: &str) -> (r: Option<u32>)
    ensures
        match r {
            Some(n) => parse_dec(name@, u32::MAX as nat) == Some(n as nat),
            None => parse_dec(name@, u32::MAX as nat) is None,
        },
{
    let cs = chars_of(name);
    match parse_dec_u64(cs.as_slice(), u32::MAX as u64) {
        Some(n) => Some(n as u32),
        None => None,
    }
}

} // verus!
