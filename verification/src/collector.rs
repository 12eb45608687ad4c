//! Security data collection: what the dashboard makes of the auth log, the
//! crontabs, the timer listing, `who`, `dpkg --verify` and the socket rows.
//!
//! Reading files and running commands is the application's part; each function
//! here takes the text or rows that were read.

use vstd::prelude::*;
use crate::clock::{EARLIEST_LOCAL_MS, LATEST_LOCAL_MS};
use crate::security::{
    classify_port_risk, cron_line_ok, extract_auth_detail, extract_failed_ssh_info,
    extract_sudo_detail, parse_cron_line, parse_system_cron_line, spec_auth_detail,
    spec_failed_ssh_info, spec_parse_cron_line, spec_parse_system_cron_line, spec_port_risk,
    spec_sudo_detail, AlertSeverity, ConnectionInfo, CronEntry, ListenerInfo, PortRisk,
    SecurityEvent, SecurityEventKind, SshBruteForceEntry, SystemdTimer,
};
use crate::security::{
    analyze_suspicious_outbound, compute_security_score, flagged_connections, outbound_reports,
    score_inputs_fit, state_score, AlertCategory, SecurityState, MAX_SUSPICIOUS_OUTBOUND,
};
use crate::store::{EventRow, SocketRow};
use crate::text::{
    byte_len, chars_eq, chars_of, contains_str, eq_str, is_ws, lemma_word_end_from, lowercase_of,
    push_all, push_str, skip_ws_from, spec_contains, spec_starts_with, spec_trim, spec_trim_end,
    spec_trim_start, spec_words, split_words, starts_with_str, string_of, trim, word_end_from,
};

verus! {

// ── Auth log ──────────────────────────────────────────────────────

/// Timeline events kept from one scan of the auth log (the most recent ones).
pub const MAX_AUTH_EVENTS: usize = 50;

/// Failed SSH logins from one address at or above which it is reported.
pub const SSH_BRUTE_FORCE_THRESHOLD: usize = 5;

/// Result of a single-pass scan of the auth log.
pub struct AuthLogScanResult {
    /// Whether the file was readable at all.
    pub readable: bool,
    /// Count of meaningful auth events (sessions, failures, sudo).
    pub event_count: usize,
    /// Auth events for the timeline, oldest first, at most `MAX_AUTH_EVENTS`.
    pub events: Vec<SecurityEvent>,
    /// Addresses with at least `SSH_BRUTE_FORCE_THRESHOLD` failed logins.
    pub brute_force_entries: Vec<SshBruteForceEntry>,
}

/// Lines that count as authentication events.
pub open spec fn is_auth_event_line(l: Seq<char>) -> bool {
    spec_contains(l, "session opened"@) || spec_contains(l, "session closed"@) || spec_contains(
        l,
        "authentication failure"@,
    ) || spec_contains(l, "Failed password"@) || spec_contains(l, "Accepted password"@)
        || spec_contains(l, "sudo:"@) || spec_contains(l, "su:"@)
}

/// The timeline entry a line makes, if any: severity and message.
pub open spec fn auth_timeline_entry(l: Seq<char>) -> Option<(AlertSeverity, Seq<char>)> {
    if spec_contains(l, "Failed password"@) {
        Some((AlertSeverity::Warning, "Failed login: "@ + spec_auth_detail(l, "Failed password"@)))
    } else if spec_contains(l, "authentication failure"@) {
        Some((AlertSeverity::Warning, "Auth failure: "@ + spec_auth_detail(l, "authentication failure"@)))
    } else if spec_contains(l, "Accepted password"@) || spec_contains(l, "Accepted publickey"@) {
        Some((AlertSeverity::Info, "Login accepted: "@ + spec_auth_detail(l, "Accepted"@)))
    } else if spec_contains(l, "sudo:"@) {
        Some((AlertSeverity::Info, "sudo: "@ + spec_sudo_detail(l)))
    } else {
        None
    }
}

/// Failed-login tally per source address: address, attempts, users tried (each once).
pub type Tally = Seq<(Seq<char>, nat, Seq<Seq<char>>)>;

/// Position of `ip` in the tally, from `i` on.
pub open spec fn tally_pos(t: Tally, ip: Seq<char>, i: int) -> Option<int>
    decreases t.len() - i,
{
    if i < 0 || i >= t.len() {
        None
    } else if t[i].0 == ip {
        Some(i)
    } else {
        tally_pos(t, ip, i + 1)
    }
}

/// The tally after one more failed login of `user` from `ip`.
pub open spec fn tally_add(t: Tally, ip: Seq<char>, user: Seq<char>) -> Tally {
    match tally_pos(t, ip, 0) {
        Some(i) => t.update(
            i,
            (ip, t[i].1 + 1, if t[i].2.contains(user) {
                t[i].2
            } else {
                t[i].2.push(user)
            }),
        ),
        None => t.push((ip, 1nat, seq![user])),
    }
}

/// Auth-event count, timeline entries and failed-login tally of `lines`, in order.
pub open spec fn auth_scan(lines: Seq<Seq<char>>) -> (nat, Seq<(AlertSeverity, Seq<char>)>, Tally)
    decreases lines.len(),
{
    if lines.len() == 0 {
        (0, Seq::empty(), Seq::empty())
    } else {
        let (n, ev, t) = auth_scan(lines.drop_last());
        let l = lines.last();
        let n2 = if is_auth_event_line(l) {
            n + 1
        } else {
            n
        };
        let t2 = if spec_contains(l, "Failed password"@) {
            match spec_failed_ssh_info(l) {
                Some((ip, user)) => tally_add(t, ip, user),
                None => t,
            }
        } else {
            t
        };
        let ev2 = match auth_timeline_entry(l) {
            Some(e) => ev.push(e),
            None => ev,
        };
        (n2, ev2, t2)
    }
}

/// The last `MAX_AUTH_EVENTS` entries of `s`.
pub open spec fn keep_last_auth(s: Seq<(AlertSeverity, Seq<char>)>) -> Seq<(AlertSeverity, Seq<char>)> {
    if s.len() > MAX_AUTH_EVENTS {
        s.skip(s.len() - MAX_AUTH_EVENTS)
    } else {
        s
    }
}

/// The tally entries at or above the brute-force threshold, in first-seen order.
pub open spec fn brute_force_of(t: Tally) -> Tally
    decreases t.len(),
{
    if t.len() == 0 {
        Seq::empty()
    } else if t.last().1 >= SSH_BRUTE_FORCE_THRESHOLD {
        brute_force_of(t.drop_last()).push(t.last())
    } else {
        brute_force_of(t.drop_last())
    }
}

pub open spec fn str_views(v: Seq<String>) -> Seq<Seq<char>> {
    v.map_values(|s: String| s@)
}

/// The text of each line.
pub open spec fn line_views(lines: Seq<String>) -> Seq<Seq<char>> {
    str_views(lines)
}

type ExecTally = Vec<(String, usize, Vec<String>)>;

pub open spec fn tally_view(t: Seq<(String, usize, Vec<String>)>) -> Tally {
    t.map_values(|e: (String, usize, Vec<String>)| (e.0@, e.1 as nat, str_views(e.2@)))
}

fn find_ip(t: &ExecTally, ip: &[char]) -> (r: Option<usize>)
    ensures
        match r {
            Some(i) => tally_pos(tally_view(t@), ip@, 0) == Some(i as int),
            None => tally_pos(tally_view(t@), ip@, 0) is None,
        },
{
    let ghost tv = tally_view(t@);
    let mut i: usize = 0;
    while i < t.len()
        invariant
            i <= t@.len(),
            tv == tally_view(t@),
            tally_pos(tv, ip@, 0) == tally_pos(tv, ip@, i as int),
        decreases t@.len() - i,
    {
        let e = chars_of(t[i].0.as_str());
        if chars_eq(e.as_slice(), ip) {
            return Some(i);
        }
        i = i + 1;
    }
    None
}

fn contains_string(v: &Vec<String>, x: &[char]) -> (r: bool)
    ensures
        r == str_views(v@).contains(x@),
{
    let mut i: usize = 0;
    while i < v.len()
        invariant
            i <= v@.len(),
            forall|j: int| 0 <= j < i ==> str_views(v@)[j] != x@,
        decreases v@.len() - i,
    {
        let e = chars_of(v[i].as_str());
        if chars_eq(e.as_slice(), x) {
            proof {
                assert(str_views(v@)[i as int] == x@);
            }
            return true;
        }
        i = i + 1;
    }
    false
}

fn copy_strings(v: &Vec<String>) -> (r: Vec<String>)
    ensures
        r@ == v@,
{
    let mut r: Vec<String> = Vec::new();
    let mut i: usize = 0;
    while i < v.len()
        invariant
            i <= v@.len(),
            r@ == v@.take(i as int),
        decreases v@.len() - i,
    {
        r.push(v[i].clone());
        proof {
            assert(r@ =~= v@.take(i + 1));
        }
        i = i + 1;
    }
    proof {
        assert(v@.take(v@.len() as int) =~= v@);
    }
    r
}

fn tally_record(t: &mut ExecTally, ip: String, user: String, bound: Ghost<nat>)
    requires
        forall|j: int| 0 <= j < old(t)@.len() ==> (#[trigger] old(t)@[j]).1 < bound@,
        1 <= bound@ <= usize::MAX,
    ensures
        tally_view(final(t)@) == tally_add(tally_view(old(t)@), ip@, user@),
        forall|j: int| 0 <= j < final(t)@.len() ==> (#[trigger] final(t)@[j]).1 <= bound@,
{
    let ghost before = tally_view(t@);
    let ic = chars_of(ip.as_str());
    let uc = chars_of(user.as_str());
    match find_ip(t, ic.as_slice()) {
        Some(i) => {
            proof {
                lemma_tally_pos_found(before, ic@, 0);
            }
            let count = t[i].1 + 1;
            let mut users = copy_strings(&t[i].2);
            let had = contains_string(&users, uc.as_slice());
            if !had {
                users.push(user);
                proof {
                    assert(str_views(users@) =~= str_views(t@[i as int].2@).push(uc@));
                }
            }
            let name = t[i].0.clone();
            proof {
                assert(name@ == ip@) by {
                    lemma_tally_pos_found(before, ip@, 0);
                }
            }
            let ghost old_t = t@;
            t.set(i, (name, count, users));
            proof {
                assert(tally_view(t@) =~= tally_add(before, ip@, user@));
                assert forall|j: int| 0 <= j < t@.len() implies (#[trigger] t@[j]).1 <= bound@ by {
                    if j != i {
                        assert(t@[j] == old_t[j]);
                    }
                }
            }
        },
        None => {
            let mut users: Vec<String> = Vec::new();
            users.push(user);
            let ghost old_t = t@;
            t.push((ip, 1, users));
            proof {
                assert(str_views(users@) =~= seq![uc@]);
                assert(tally_view(t@) =~= before.push((ic@, 1nat, seq![uc@])));
                assert forall|j: int| 0 <= j < t@.len() implies (#[trigger] t@[j]).1 <= bound@ by {
                    if j < old_t.len() {
                        assert(t@[j] == old_t[j]);
                    }
                }
            }
        },
    }
}

proof fn lemma_tally_pos_found(t: Tally, ip: Seq<char>, i: int)
    requires
        0 <= i,
    ensures
        match tally_pos(t, ip, i) {
            Some(k) => i <= k < t.len() && t[k].0 == ip,
            None => true,
        },
    decreases t.len() - i,
{
    if i < t.len() && t[i].0 != ip {
        lemma_tally_pos_found(t, ip, i + 1);
    }
}

fn message_with(prefix: &str, detail: String) -> (r: String)
    ensures
        r@ == prefix@ + detail@,
{
    let mut v = chars_of(prefix);
    push_str(&mut v, detail.as_str());
    string_of(v.as_slice())
}

/// The timeline entry `line` makes, if any.
fn timeline_entry(line: &str, cs: &[char]) -> (r: Option<(AlertSeverity, String)>)
    requires
        cs@ == line@,
    ensures
        match r {
            Some((sev, msg)) => auth_timeline_entry(line@) == Some((sev, msg@)),
            None => auth_timeline_entry(line@) is None,
        },
{
    if contains_str(cs, "Failed password") {
        Some((AlertSeverity::Warning, message_with("Failed login: ", extract_auth_detail(line, "Failed password"))))
    } else if contains_str(cs, "authentication failure") {
        Some((
            AlertSeverity::Warning,
            message_with("Auth failure: ", extract_auth_detail(line, "authentication failure")),
        ))
    } else if contains_str(cs, "Accepted password") || contains_str(cs, "Accepted publickey") {
        Some((AlertSeverity::Info, message_with("Login accepted: ", extract_auth_detail(line, "Accepted"))))
    } else if contains_str(cs, "sudo:") {
        Some((AlertSeverity::Info, message_with("sudo: ", extract_sudo_detail(line))))
    } else {
        None
    }
}

/// What a readable auth log gives: counted events, the timeline (the last
/// `MAX_AUTH_EVENTS` entries, stamped `now_ms`), and the addresses with enough
/// failed logins (in first-seen order, stamped `now_ms`).
pub open spec fn auth_result_ok(lines: Seq<Seq<char>>, now_ms: i64, r: AuthLogScanResult) -> bool {
    let (n, ev, t) = auth_scan(lines);
    let kept = keep_last_auth(ev);
    let bf = brute_force_of(t);
    &&& r.readable
    &&& r.event_count == n
    &&& r.events@.len() == kept.len()
    &&& forall|i: int| 0 <= i < kept.len() ==> {
        let e = #[trigger] r.events@[i];
        &&& e.timestamp_ms == now_ms
        &&& e.kind == SecurityEventKind::AuthEvent
        &&& e.severity == kept[i].0
        &&& e.message@ == kept[i].1
        &&& e.pid is None
    }
    &&& r.brute_force_entries@.len() == bf.len()
    &&& forall|i: int| 0 <= i < bf.len() ==> {
        let b = #[trigger] r.brute_force_entries@[i];
        &&& b.source_ip@ == bf[i].0
        &&& b.attempt_count == bf[i].1
        &&& b.last_seen_ms == now_ms
        &&& str_views(b.target_users@) == bf[i].2
    }
}

proof fn lemma_brute_force_threshold(t: Tally)
    ensures
        forall|i: int| 0 <= i < brute_force_of(t).len() ==> (#[trigger] brute_force_of(t)[i]).1
            >= SSH_BRUTE_FORCE_THRESHOLD,
    decreases t.len(),
{
    if t.len() > 0 {
        lemma_brute_force_threshold(t.drop_last());
        let b = brute_force_of(t.drop_last());
        if t.last().1 >= SSH_BRUTE_FORCE_THRESHOLD {
            assert forall|i: int| 0 <= i < brute_force_of(t).len() implies (
            #[trigger] brute_force_of(t)[i]).1 >= SSH_BRUTE_FORCE_THRESHOLD by {
                if i < b.len() {
                    assert(brute_force_of(t)[i] == b[i]);
                }
            }
        }
    }
}

/// An auth-log scan reports at most `MAX_AUTH_EVENTS` timeline events, all of
/// them auth events, and flags only addresses with at least
/// `SSH_BRUTE_FORCE_THRESHOLD` failed logins.
pub proof fn lemma_auth_scan_bounds(lines: Seq<Seq<char>>, now_ms: i64, r: AuthLogScanResult)
    requires
        auth_result_ok(lines, now_ms, r),
    ensures
        r.events@.len() <= MAX_AUTH_EVENTS,
        forall|i: int| 0 <= i < r.events@.len() ==> (#[trigger] r.events@[i]).kind == SecurityEventKind::AuthEvent,
        forall|i: int|
            0 <= i < r.brute_force_entries@.len() ==> (#[trigger] r.brute_force_entries@[i]).attempt_count
                >= SSH_BRUTE_FORCE_THRESHOLD,
{
    let (n, ev, t) = auth_scan(lines);
    lemma_brute_force_threshold(t);
    assert forall|i: int| 0 <= i < r.brute_force_entries@.len() implies (
    #[trigger] r.brute_force_entries@[i]).attempt_count >= SSH_BRUTE_FORCE_THRESHOLD by {
        assert(r.brute_force_entries@[i].attempt_count == brute_force_of(t)[i].1);
    }
}

impl AuthLogScanResult {
    /// The result for an auth log that could not be read.
    pub fn unreadable() -> (r: AuthLogScanResult)
        ensures
            !r.readable,
            r.event_count == 0,
            r.events@.len() == 0,
            r.brute_force_entries@.len() == 0,
    {
        AuthLogScanResult { readable: false, event_count: 0, events: Vec::new(), brute_force_entries: Vec::new() }
    }
}

/// Single pass over the lines of the auth log, read at `now_ms`.
pub fn scan_auth_lines(lines: &[String], now_ms: i64) -> (r: AuthLogScanResult)
    ensures
        auth_result_ok(line_views(lines@), now_ms, r),
{
    let ghost lv = line_views(lines@);
    let mut count: usize = 0;
    let mut entries: Vec<(AlertSeverity, String)> = Vec::new();
    let mut tally: ExecTally = Vec::new();
    let mut i: usize = 0;
    while i < lines.len()
        invariant
            i <= lines@.len(),
            lv == line_views(lines@),
            count as nat == auth_scan(lv.take(i as int)).0,
            count <= i,
            entries@.map_values(|e: (AlertSeverity, String)| (e.0, e.1@)) == auth_scan(lv.take(i as int)).1,
            tally_view(tally@) == auth_scan(lv.take(i as int)).2,
            forall|j: int| 0 <= j < tally@.len() ==> (#[trigger] tally@[j]).1 <= i,
        decreases lines@.len() - i,
    {
        let line = lines[i].as_str();
        let cs = chars_of(line);
        proof {
            assert(lv.take(i + 1).drop_last() =~= lv.take(i as int));
            assert(lv.take(i + 1).last() == line@);
        }
        if contains_str(cs.as_slice(), "session opened") || contains_str(cs.as_slice(), "session closed")
            || contains_str(cs.as_slice(), "authentication failure") || contains_str(
            cs.as_slice(),
            "Failed password",
        ) || contains_str(cs.as_slice(), "Accepted password") || contains_str(cs.as_slice(), "sudo:")
            || contains_str(cs.as_slice(), "su:") {
            count = count + 1;
        }
        if contains_str(cs.as_slice(), "Failed password") {
            if let Some((ip, user)) = extract_failed_ssh_info(line) {
                tally_record(&mut tally, ip, user, Ghost((i + 1) as nat));
            }
        }
        let ghost before = entries@;
        if let Some(e) = timeline_entry(line, cs.as_slice()) {
            entries.push(e);
            proof {
                assert(entries@.map_values(|e: (AlertSeverity, String)| (e.0, e.1@)) =~= before.map_values(
                    |e: (AlertSeverity, String)| (e.0, e.1@),
                ).push((e.0, e.1@)));
            }
        }
        i = i + 1;
    }
    proof {
        assert(lv.take(lines@.len() as int) =~= lv);
    }
    let ghost ev = auth_scan(lv).1;
    // Keep the most recent timeline entries.
    let start: usize = if entries.len() > MAX_AUTH_EVENTS {
        entries.len() - MAX_AUTH_EVENTS
    } else {
        0
    };
    let mut events: Vec<SecurityEvent> = Vec::new();
    let mut k: usize = start;
    while k < entries.len()
        invariant
            start <= k <= entries@.len(),
            entries@.map_values(|e: (AlertSeverity, String)| (e.0, e.1@)) == ev,
            start == if ev.len() > MAX_AUTH_EVENTS { ev.len() - MAX_AUTH_EVENTS } else { 0 },
            events@.len() == k - start,
            forall|j: int| 0 <= j < events@.len() ==> {
                let e = #[trigger] events@[j];
                &&& e.timestamp_ms == now_ms
                &&& e.kind == SecurityEventKind::AuthEvent
                &&& e.severity == ev[start + j].0
                &&& e.message@ == ev[start + j].1
                &&& e.pid is None
            },
        decreases entries@.len() - k,
    {
        proof {
            assert(ev[k as int] == (entries@[k as int].0, entries@[k as int].1@));
        }
        events.push(SecurityEvent {
            timestamp_ms: now_ms,
            kind: SecurityEventKind::AuthEvent,
            severity: entries[k].0,
            message: entries[k].1.clone(),
            pid: None,
        });
        k = k + 1;
    }
    let ghost t = auth_scan(lv).2;
    let mut brute: Vec<SshBruteForceEntry> = Vec::new();
    let mut j: usize = 0;
    while j < tally.len()
        invariant
            j <= tally@.len(),
            tally_view(tally@) == t,
            brute@.len() == brute_force_of(t.take(j as int)).len(),
            forall|q: int| 0 <= q < brute@.len() ==> {
                let b = #[trigger] brute@[q];
                &&& b.source_ip@ == brute_force_of(t.take(j as int))[q].0
                &&& b.attempt_count == brute_force_of(t.take(j as int))[q].1
                &&& b.last_seen_ms == now_ms
                &&& str_views(b.target_users@) == brute_force_of(t.take(j as int))[q].2
            },
        decreases tally@.len() - j,
    {
        proof {
            assert(t.take(j + 1).drop_last() =~= t.take(j as int));
            assert(t.take(j + 1).last() == t[j as int]);
        }
        if tally[j].1 >= SSH_BRUTE_FORCE_THRESHOLD {
            brute.push(SshBruteForceEntry {
                source_ip: tally[j].0.clone(),
                attempt_count: tally[j].1,
                last_seen_ms: now_ms,
                target_users: copy_strings(&tally[j].2),
            });
        }
        j = j + 1;
    }
    proof {
        assert(t.take(tally@.len() as int) =~= t);
        let kept = keep_last_auth(ev);
        assert forall|q: int| 0 <= q < kept.len() implies kept[q] == ev[start + q] by {
        }
    }
    AuthLogScanResult { readable: true, event_count: count, events, brute_force_entries: brute }
}

// ── Crontabs ──────────────────────────────────────────────────────

/// At most this many cron entries are collected.
pub const MAX_CRON_ENTRIES: usize = 100;

/// One crontab that was read: its lines, the user its entries run as, where it
/// came from, and whether it is a system crontab (with a user field).
pub struct CronSource {
    pub user: String,
    pub source: String,
    pub system: bool,
    pub lines: Vec<String>,
}

/// The plain values of a cron entry: user, schedule, command, source.
pub type CronView = (Seq<char>, Seq<char>, Seq<char>, Seq<char>);

/// The schedule and command a crontab line gives, if any: blank lines and
/// comments give none.
pub open spec fn cron_line_entry(system: bool, line: Seq<char>) -> Option<(Seq<char>, Seq<char>)> {
    let t = spec_trim(line);
    if t.len() == 0 || t[0] == '#' {
        None
    } else if system {
        spec_parse_system_cron_line(t)
    } else {
        spec_parse_cron_line(t)
    }
}

/// The entries of the lines of one source, in order.
pub open spec fn source_entries(user: Seq<char>, source: Seq<char>, system: bool, lines: Seq<Seq<char>>) -> Seq<CronView>
    decreases lines.len(),
{
    if lines.len() == 0 {
        Seq::empty()
    } else {
        let prev = source_entries(user, source, system, lines.drop_last());
        match cron_line_entry(system, lines.last()) {
            Some((sched, cmd)) => prev.push((user, sched, cmd, source)),
            None => prev,
        }
    }
}

pub open spec fn source_all(src: CronSource) -> Seq<CronView> {
    source_entries(src.user@, src.source@, src.system, str_views(src.lines@))
}

/// All entries of all sources, in order.
pub open spec fn cron_all(sources: Seq<CronSource>) -> Seq<CronView>
    decreases sources.len(),
{
    if sources.len() == 0 {
        Seq::empty()
    } else {
        cron_all(sources.drop_last()) + source_all(sources.last())
    }
}

pub open spec fn cron_view(e: CronEntry) -> CronView {
    (e.user@, e.schedule@, e.command@, e.source@)
}

proof fn lemma_source_prefix(user: Seq<char>, source: Seq<char>, system: bool, lines: Seq<Seq<char>>, b: int)
    requires
        0 <= b <= lines.len(),
    ensures
        source_entries(user, source, system, lines.take(b)).is_prefix_of(source_entries(user, source, system, lines)),
    decreases lines.len(),
{
    if b < lines.len() {
        assert(lines.drop_last().take(b) =~= lines.take(b));
        lemma_source_prefix(user, source, system, lines.drop_last(), b);
    } else {
        assert(lines.take(b) =~= lines);
    }
}

proof fn lemma_cron_prefix(sources: Seq<CronSource>, a: int)
    requires
        0 <= a <= sources.len(),
    ensures
        cron_all(sources.take(a)).is_prefix_of(cron_all(sources)),
    decreases sources.len(),
{
    if a < sources.len() {
        assert(sources.drop_last().take(a) =~= sources.take(a));
        lemma_cron_prefix(sources.drop_last(), a);
    } else {
        assert(sources.take(a) =~= sources);
    }
}

proof fn lemma_trim_start_head(s: Seq<char>)
    ensures
        spec_trim_start(s).len() > 0 ==> !is_ws(spec_trim_start(s)[0]),
    decreases s.len(),
{
    if s.len() > 0 && is_ws(s[0]) {
        lemma_trim_start_head(s.drop_first());
    }
}

proof fn lemma_trim_end_prefix(s: Seq<char>)
    ensures
        spec_trim_end(s).len() <= s.len(),
        spec_trim_end(s) == s.take(spec_trim_end(s).len() as int),
    decreases s.len(),
{
    if s.len() > 0 && is_ws(s.last()) {
        lemma_trim_end_prefix(s.drop_last());
        assert(s.drop_last().take(spec_trim_end(s).len() as int) =~= s.take(spec_trim_end(s).len() as int));
    } else {
        assert(s.take(s.len() as int) =~= s);
    }
}

/// A trimmed line never starts with whitespace, so `parse_cron_line` can cut
/// after its first word.
proof fn lemma_trimmed_cron_ok(line: Seq<char>)
    ensures
        cron_line_ok(spec_trim(line)),
{
    let t = spec_trim(line);
    lemma_trim_start_head(line);
    lemma_trim_end_prefix(spec_trim_start(line));
    if t.len() > 0 {
        assert(t[0] == spec_trim_start(line)[0]);
        assert(!is_ws(t[0]));
        assert(skip_ws_from(t, 0) == 0);
        lemma_word_end_from(t, 0);
        reveal_with_fuel(word_end_from, 2);
        let e = word_end_from(t, 0);
        assert(e >= 1);
        let w = spec_words(t);
        assert(w[0] == t.subrange(0, e));
        assert(t.take(e) =~= w[0]);
        assert(byte_len(t.take(e)) == byte_len(w[0]));
    }
}

/// The entry for one line, if the line gives one.
fn entry_of_line(src: &CronSource, line: &str) -> (r: Option<CronEntry>)
    ensures
        match r {
            Some(e) => cron_line_entry(src.system, line@) matches Some((sched, cmd)) && cron_view(e) == (
                src.user@,
                sched,
                cmd,
                src.source@,
            ),
            None => cron_line_entry(src.system, line@) is None,
        },
{
    let cs = chars_of(line);
    let t = trim(cs.as_slice());
    if t.len() == 0 || t[0] == '#' {
        return None;
    }
    let ts = string_of(t.as_slice());
    let parsed = if src.system {
        parse_system_cron_line(ts.as_str())
    } else {
        proof {
            lemma_trimmed_cron_ok(line@);
        }
        parse_cron_line(ts.as_str())
    };
    match parsed {
        Some((schedule, command)) => Some(CronEntry {
            user: src.user.clone(),
            schedule,
            command,
            source: src.source.clone(),
        }),
        None => None,
    }
}

/// The cron entries of the sources, in order, stopping at `MAX_CRON_ENTRIES`.
pub fn collect_cron_entries_from(sources: &[CronSource]) -> (r: Vec<CronEntry>)
    ensures
        r@.map_values(|e: CronEntry| cron_view(e)) == if cron_all(sources@).len() <= MAX_CRON_ENTRIES {
            cron_all(sources@)
        } else {
            cron_all(sources@).take(MAX_CRON_ENTRIES as int)
        },
        r@.len() <= MAX_CRON_ENTRIES,
{
    let mut r: Vec<CronEntry> = Vec::new();
    let mut si: usize = 0;
    while si < sources.len()
        invariant
            si <= sources@.len(),
            r@.map_values(|e: CronEntry| cron_view(e)) == cron_all(sources@.take(si as int)),
            r@.len() < MAX_CRON_ENTRIES,
        decreases sources@.len() - si,
    {
        let src = &sources[si];
        let ghost base = cron_all(sources@.take(si as int));
        let ghost lv = str_views(src.lines@);
        proof {
            assert(sources@.take(si + 1).drop_last() =~= sources@.take(si as int));
            assert(sources@.take(si + 1).last() == *src);
        }
        let mut li: usize = 0;
        while li < src.lines.len()
            invariant
                li <= src.lines@.len(),
                lv == str_views(src.lines@),
                *src == sources@[si as int],
                si < sources@.len(),
                base == cron_all(sources@.take(si as int)),
                r@.map_values(|e: CronEntry| cron_view(e)) == base + source_entries(src.user@, src.source@, src.system, lv.take(li as int)),
                r@.len() < MAX_CRON_ENTRIES,
            decreases src.lines@.len() - li,
        {
            let ghost before = r@;
            proof {
                assert(lv.take(li + 1).drop_last() =~= lv.take(li as int));
                assert(lv.take(li + 1).last() == src.lines@[li as int]@);
            }
            match entry_of_line(src, src.lines[li].as_str()) {
                Some(e) => {
                    r.push(e);
                    proof {
                        assert(r@.map_values(|e: CronEntry| cron_view(e)) =~= before.map_values(|e: CronEntry| cron_view(e)).push(cron_view(e)));
                    }
                    if r.len() >= MAX_CRON_ENTRIES {
                        proof {
                            let pre = base + source_entries(src.user@, src.source@, src.system, lv.take(li + 1));
                            lemma_source_prefix(src.user@, src.source@, src.system, lv, li + 1);
                            assert(lv.take(lv.len() as int) =~= lv);
                            lemma_cron_prefix(sources@, si + 1);
                            assert(sources@.take(si + 1).drop_last() =~= sources@.take(si as int));
                            assert(sources@.take(si + 1).last() == *src);
                            assert(cron_all(sources@.take(si + 1)) == base + source_all(*src));
                            assert(pre.is_prefix_of(cron_all(sources@.take(si + 1))));
                            assert(pre.is_prefix_of(cron_all(sources@)));
                            assert(r@.map_values(|e: CronEntry| cron_view(e)) =~= cron_all(sources@).take(MAX_CRON_ENTRIES as int));
                        }
                        return r;
                    }
                },
                None => {},
            }
            li = li + 1;
        }
        proof {
            assert(lv.take(src.lines@.len() as int) =~= lv);
        }
        si = si + 1;
    }
    proof {
        assert(sources@.take(sources@.len() as int) =~= sources@);
    }
    r
}

// ── Timers ────────────────────────────────────────────────────────

/// At most this many timers are collected.
pub const MAX_SYSTEMD_TIMERS: usize = 50;

/// Words joined with single spaces.
pub open spec fn join_words(ws: Seq<Seq<char>>) -> Seq<char>
    decreases ws.len(),
{
    if ws.len() == 0 {
        Seq::empty()
    } else if ws.len() == 1 {
        ws[0]
    } else {
        join_words(ws.drop_last()) + " "@ + ws.last()
    }
}

/// A timer listing line as (unit, activates, next trigger); header, footer and
/// blank lines give none.
pub open spec fn timer_of_line(l: Seq<char>) -> Option<(Seq<char>, Seq<char>, Option<Seq<char>>)> {
    let t = spec_trim(l);
    if t.len() == 0 || spec_starts_with(t, "NEXT"@) || spec_contains(t, "timers listed"@) {
        None
    } else {
        let p = spec_words(t);
        if p.len() < 2 {
            None
        } else {
            let next = if p[0] == "n/a"@ || p.len() == 2 {
                None
            } else {
                Some(join_words(p.take(p.len() - 2)))
            };
            Some((p[p.len() - 2], p[p.len() - 1], next))
        }
    }
}

/// The timers of a listing's lines, in order.
pub open spec fn timers_of(lines: Seq<Seq<char>>) -> Seq<(Seq<char>, Seq<char>, Option<Seq<char>>)>
    decreases lines.len(),
{
    if lines.len() == 0 {
        Seq::empty()
    } else {
        match timer_of_line(lines.last()) {
            Some(t) => timers_of(lines.drop_last()).push(t),
            None => timers_of(lines.drop_last()),
        }
    }
}

pub open spec fn timer_view(t: SystemdTimer) -> (Seq<char>, Seq<char>, Option<Seq<char>>) {
    (t.unit@, t.activates@, match t.next_trigger {
        Some(n) => Some(n@),
        None => None,
    })
}

proof fn lemma_timers_prefix(lines: Seq<Seq<char>>, b: int)
    requires
        0 <= b <= lines.len(),
    ensures
        timers_of(lines.take(b)).is_prefix_of(timers_of(lines)),
    decreases lines.len(),
{
    if b < lines.len() {
        assert(lines.drop_last().take(b) =~= lines.take(b));
        lemma_timers_prefix(lines.drop_last(), b);
    } else {
        assert(lines.take(b) =~= lines);
    }
}

fn join_words_exec(ws: &Vec<Vec<char>>, n: usize) -> (r: Vec<char>)
    requires
        n <= ws@.len(),
    ensures
        r@ == join_words(ws@.take(n as int).map_values(|w: Vec<char>| w@)),
{
    let mut v: Vec<char> = Vec::new();
    let mut i: usize = 0;
    while i < n
        invariant
            i <= n,
            n <= ws@.len(),
            v@ == join_words(ws@.take(i as int).map_values(|w: Vec<char>| w@)),
        decreases n - i,
    {
        proof {
            assert(ws@.take(i + 1).map_values(|w: Vec<char>| w@).drop_last() =~= ws@.take(i as int).map_values(|w: Vec<char>| w@));
        }
        if i > 0 {
            push_str(&mut v, " ");
        }
        push_all(&mut v, ws[i].as_slice());
        i = i + 1;
    }
    v
}

/// The timer a listing line describes, if any.
fn timer_of_line_exec(line: &str) -> (r: Option<SystemdTimer>)
    ensures
        match r {
            Some(t) => timer_of_line(line@) == Some(timer_view(t)) && t.active,
            None => timer_of_line(line@) is None,
        },
{
    let cs = chars_of(line);
    let t = trim(cs.as_slice());
    if t.len() == 0 || starts_with_str(t.as_slice(), "NEXT") || contains_str(t.as_slice(), "timers listed") {
        return None;
    }
    let parts = split_words(t.as_slice());
    let n = parts.len();
    if n < 2 {
        return None;
    }
    let ghost p = spec_words(t@);
    proof {
        assert(parts@.map_values(|w: Vec<char>| w@) =~= p);
    }
    let activates = string_of(parts[n - 1].as_slice());
    let unit = string_of(parts[n - 2].as_slice());
    let next_trigger = if eq_str(parts[0].as_slice(), "n/a") || n == 2 {
        None
    } else {
        let j = join_words_exec(&parts, n - 2);
        proof {
            assert(parts@.take(n - 2).map_values(|w: Vec<char>| w@) =~= p.take(n - 2));
        }
        Some(string_of(j.as_slice()))
    };
    Some(SystemdTimer { unit, activates, active: true, next_trigger })
}

/// The lines after the first (the header).
pub open spec fn after_header(s: Seq<Seq<char>>) -> Seq<Seq<char>> {
    if s.len() == 0 {
        s
    } else {
        s.skip(1)
    }
}

/// The timers listed after the header line, stopping at `MAX_SYSTEMD_TIMERS`.
pub fn parse_timer_listing(lines: &[String]) -> (r: Vec<SystemdTimer>)
    ensures
        ({
            let all = timers_of(after_header(str_views(lines@)));
            r@.map_values(|t: SystemdTimer| timer_view(t)) == if all.len() <= MAX_SYSTEMD_TIMERS {
                all
            } else {
                all.take(MAX_SYSTEMD_TIMERS as int)
            }
        }),
        forall|i: int| 0 <= i < r@.len() ==> (#[trigger] r@[i]).active,
        r@.len() <= MAX_SYSTEMD_TIMERS,
{
    let ghost lv = after_header(str_views(lines@));
    let mut r: Vec<SystemdTimer> = Vec::new();
    if lines.len() == 0 {
        return r;
    }
    let mut i: usize = 1;
    while i < lines.len()
        invariant
            1 <= i <= lines@.len(),
            lv == str_views(lines@).skip(1),
            r@.map_values(|t: SystemdTimer| timer_view(t)) == timers_of(lv.take(i - 1)),
            r@.len() < MAX_SYSTEMD_TIMERS,
            forall|k: int| 0 <= k < r@.len() ==> (#[trigger] r@[k]).active,
        decreases lines@.len() - i,
    {
        proof {
            assert(lv.take(i as int).drop_last() =~= lv.take(i - 1));
            assert(lv.take(i as int).last() == lines@[i as int]@);
        }
        let ghost before = r@;
        match timer_of_line_exec(lines[i].as_str()) {
            Some(t) => {
                r.push(t);
                proof {
                    assert(r@.map_values(|t: SystemdTimer| timer_view(t)) =~= before.map_values(|t: SystemdTimer| timer_view(t)).push(timer_view(t)));
                }
                if r.len() >= MAX_SYSTEMD_TIMERS {
                    proof {
                        lemma_timers_prefix(lv, i as int);
                        assert(r@.map_values(|t: SystemdTimer| timer_view(t)) =~= timers_of(lv).take(MAX_SYSTEMD_TIMERS as int));
                    }
                    return r;
                }
            },
            None => {},
        }
        i = i + 1;
    }
    proof {
        assert(lv.take(lines@.len() - 1) =~= lv);
    }
    r
}

// ── Package integrity ─────────────────────────────────────────────

/// At most this many modified files are listed.
pub const MAX_MODIFIED_PACKAGES: usize = 50;

/// The non-empty lines of `s`, in order.
pub open spec fn non_empty_lines(s: Seq<Seq<char>>) -> Seq<Seq<char>>
    decreases s.len(),
{
    if s.len() == 0 {
        Seq::empty()
    } else if s.last().len() > 0 {
        non_empty_lines(s.drop_last()).push(s.last())
    } else {
        non_empty_lines(s.drop_last())
    }
}

proof fn lemma_non_empty_prefix(s: Seq<Seq<char>>, b: int)
    requires
        0 <= b <= s.len(),
    ensures
        non_empty_lines(s.take(b)).is_prefix_of(non_empty_lines(s)),
    decreases s.len(),
{
    if b < s.len() {
        assert(s.drop_last().take(b) =~= s.take(b));
        lemma_non_empty_prefix(s.drop_last(), b);
    } else {
        assert(s.take(b) =~= s);
    }
}

/// The modified files that a `dpkg --verify` report lists: its first
/// `MAX_MODIFIED_PACKAGES` non-empty lines.
pub fn modified_packages_from(lines: &[String]) -> (r: Vec<String>)
    ensures
        str_views(r@) == if non_empty_lines(str_views(lines@)).len() <= MAX_MODIFIED_PACKAGES {
            non_empty_lines(str_views(lines@))
        } else {
            non_empty_lines(str_views(lines@)).take(MAX_MODIFIED_PACKAGES as int)
        },
        r@.len() <= MAX_MODIFIED_PACKAGES,
{
    let ghost lv = str_views(lines@);
    let mut r: Vec<String> = Vec::new();
    let mut i: usize = 0;
    while i < lines.len()
        invariant
            i <= lines@.len(),
            lv == str_views(lines@),
            str_views(r@) == non_empty_lines(lv.take(i as int)),
            r@.len() < MAX_MODIFIED_PACKAGES,
        decreases lines@.len() - i,
    {
        proof {
            assert(lv.take(i + 1).drop_last() =~= lv.take(i as int));
            assert(lv.take(i + 1).last() == lines@[i as int]@);
        }
        let ghost before = r@;
        let lc = chars_of(lines[i].as_str());
        if lc.len() > 0 {
            r.push(lines[i].clone());
            proof {
                assert(str_views(r@) =~= str_views(before).push(lines@[i as int]@));
            }
            if r.len() >= MAX_MODIFIED_PACKAGES {
                proof {
                    lemma_non_empty_prefix(lv, i + 1);
                    assert(str_views(r@) =~= non_empty_lines(lv).take(MAX_MODIFIED_PACKAGES as int));
                }
                return r;
            }
        }
        i = i + 1;
    }
    proof {
        assert(lv.take(lines@.len() as int) =~= lv);
    }
    r
}

// ── Socket rows ───────────────────────────────────────────────────

/// The listener shown for a socket row: risk classified by port, process name
/// (empty when unknown) and pid; an unknown name shown as "???".
pub open spec fn listener_of_row(row: SocketRow, l: ListenerInfo) -> bool {
    let name = match row.name {
        Some(n) => n@,
        None => Seq::empty(),
    };
    &&& l.port == row.local_port
    &&& l.protocol@ == row.protocol@
    &&& l.pid == row.pid
    &&& l.process_name@ == if name.len() == 0 { "???"@ } else { name }
    &&& l.bind_addr@ == row.local_addr@
    &&& l.risk == spec_port_risk(row.local_port, lowercase_of(name), row.pid)
}

/// The listeners of the current snapshot's rows, one per row, in order.
pub fn collect_listeners_from(rows: &[SocketRow]) -> (r: Vec<ListenerInfo>)
    ensures
        r@.len() == rows@.len(),
        forall|i: int| 0 <= i < rows@.len() ==> listener_of_row(rows@[i], #[trigger] r@[i]),
{
    let mut r: Vec<ListenerInfo> = Vec::new();
    let mut i: usize = 0;
    while i < rows.len()
        invariant
            i <= rows@.len(),
            r@.len() == i,
            forall|k: int| 0 <= k < i ==> listener_of_row(rows@[k], #[trigger] r@[k]),
        decreases rows@.len() - i,
    {
        let row = &rows[i];
        let name: String = match &row.name {
            Some(n) => n.clone(),
            None => String::new(),
        };
        let risk = classify_port_risk(row.local_port, name.as_str(), row.pid);
        let shown = if chars_of(name.as_str()).len() == 0 {
            string_of(chars_of("???").as_slice())
        } else {
            name
        };
        r.push(ListenerInfo {
            port: row.local_port,
            protocol: row.protocol.clone(),
            pid: row.pid,
            process_name: shown,
            bind_addr: row.local_addr.clone(),
            risk,
        });
        i = i + 1;
    }
    r
}

/// The connection shown for a socket row; unknown remote address "?", unknown
/// remote port 0, unknown process "???".
pub open spec fn connection_of_row(row: SocketRow, c: ConnectionInfo) -> bool {
    &&& c.local_addr@ == row.local_addr@
    &&& c.local_port == row.local_port
    &&& c.remote_addr@ == match row.remote_addr {
        Some(a) => a@,
        None => "?"@,
    }
    &&& c.remote_port == match row.remote_port {
        Some(p) => p,
        None => 0u16,
    }
    &&& c.pid == row.pid
    &&& c.process_name@ == match row.name {
        Some(n) => n@,
        None => "???"@,
    }
    &&& c.state@ == row.state@
}

/// The connections of the established-socket rows, one per row, in order.
pub fn collect_connections_from(rows: &[SocketRow]) -> (r: Vec<ConnectionInfo>)
    ensures
        r@.len() == rows@.len(),
        forall|i: int| 0 <= i < rows@.len() ==> connection_of_row(rows@[i], #[trigger] r@[i]),
{
    let mut r: Vec<ConnectionInfo> = Vec::new();
    let mut i: usize = 0;
    while i < rows.len()
        invariant
            i <= rows@.len(),
            r@.len() == i,
            forall|k: int| 0 <= k < i ==> connection_of_row(rows@[k], #[trigger] r@[k]),
        decreases rows@.len() - i,
    {
        let row = &rows[i];
        r.push(ConnectionInfo {
            local_addr: row.local_addr.clone(),
            local_port: row.local_port,
            remote_addr: match &row.remote_addr {
                Some(a) => a.clone(),
                None => string_of(chars_of("?").as_slice()),
            },
            remote_port: match row.remote_port {
                Some(p) => p,
                None => 0,
            },
            pid: row.pid,
            process_name: match &row.name {
                Some(n) => n.clone(),
                None => string_of(chars_of("???").as_slice()),
            },
            state: row.state.clone(),
        });
        i = i + 1;
    }
    r
}

// ── Logged-in users ───────────────────────────────────────────────

/// Lexicographic order on texts by character code, the order `String`'s `Ord`
/// gives (UTF-8 preserves code point order).
pub open spec fn text_lt(a: Seq<char>, b: Seq<char>) -> bool
    decreases a.len(),
{
    if a.len() == 0 {
        b.len() > 0
    } else if b.len() == 0 {
        false
    } else if a[0] != b[0] {
        a[0] < b[0]
    } else {
        text_lt(a.drop_first(), b.drop_first())
    }
}

proof fn lemma_text_lt_irreflexive(a: Seq<char>)
    ensures
        !text_lt(a, a),
    decreases a.len(),
{
    if a.len() > 0 {
        lemma_text_lt_irreflexive(a.drop_first());
    }
}

proof fn lemma_text_lt_total(a: Seq<char>, b: Seq<char>)
    ensures
        a == b || text_lt(a, b) || text_lt(b, a),
    decreases a.len(),
{
    if a.len() > 0 && b.len() > 0 && a[0] == b[0] {
        lemma_text_lt_total(a.drop_first(), b.drop_first());
        if a.drop_first() == b.drop_first() {
            assert(a =~= seq![a[0]] + a.drop_first());
            assert(b =~= seq![b[0]] + b.drop_first());
        }
    } else if a.len() == 0 && b.len() == 0 {
        assert(a =~= b);
    }
}

proof fn lemma_text_lt_transitive(a: Seq<char>, b: Seq<char>, c: Seq<char>)
    requires
        text_lt(a, b),
        text_lt(b, c),
    ensures
        text_lt(a, c),
    decreases a.len(),
{
    if a.len() > 0 && b.len() > 0 && c.len() > 0 && a[0] == b[0] && b[0] == c[0] {
        lemma_text_lt_transitive(a.drop_first(), b.drop_first(), c.drop_first());
    }
}

/// Strictly increasing.
pub open spec fn strictly_sorted(s: Seq<Seq<char>>) -> bool {
    forall|i: int, j: int| 0 <= i < j < s.len() ==> text_lt(#[trigger] s[i], #[trigger] s[j])
}

/// The first word of each line that has one, in order.
pub open spec fn first_words(lines: Seq<Seq<char>>) -> Seq<Seq<char>>
    decreases lines.len(),
{
    if lines.len() == 0 {
        Seq::empty()
    } else if spec_words(lines.last()).len() > 0 {
        first_words(lines.drop_last()).push(spec_words(lines.last())[0])
    } else {
        first_words(lines.drop_last())
    }
}

fn text_lt_exec(a: &[char], b: &[char]) -> (r: bool)
    ensures
        r == text_lt(a@, b@),
{
    let mut i: usize = 0;
    proof {
        assert(a@.skip(0) =~= a@);
        assert(b@.skip(0) =~= b@);
    }
    while i < a.len() && i < b.len()
        invariant
            i <= a@.len(),
            i <= b@.len(),
            text_lt(a@, b@) == text_lt(a@.skip(i as int), b@.skip(i as int)),
        decreases a@.len() - i,
    {
        proof {
            assert(a@.skip(i as int).drop_first() =~= a@.skip(i + 1));
            assert(b@.skip(i as int).drop_first() =~= b@.skip(i + 1));
        }
        if a[i] != b[i] {
            return a[i] < b[i];
        }
        i = i + 1;
    }
    i == a.len() && i < b.len()
}

/// The users named by `who` output: the first word of each line, sorted and
/// each once.
pub fn logged_in_users_from(lines: &[String]) -> (r: Vec<String>)
    ensures
        strictly_sorted(str_views(r@)),
        forall|u: Seq<char>| #[trigger] str_views(r@).contains(u) <==> first_words(str_views(lines@)).contains(u),
{
    let ghost lv = str_views(lines@);
    let mut r: Vec<String> = Vec::new();
    let mut i: usize = 0;
    while i < lines.len()
        invariant
            i <= lines@.len(),
            lv == str_views(lines@),
            strictly_sorted(str_views(r@)),
            forall|u: Seq<char>| #[trigger] str_views(r@).contains(u) <==> first_words(lv.take(i as int)).contains(u),
        decreases lines@.len() - i,
    {
        proof {
            assert(lv.take(i + 1).drop_last() =~= lv.take(i as int));
            assert(lv.take(i + 1).last() == lines@[i as int]@);
        }
        let cs = chars_of(lines[i].as_str());
        let words = split_words(cs.as_slice());
        let ghost prev_words = first_words(lv.take(i as int));
        if words.len() > 0 {
            let w = &words[0];
            let ghost wv = w@;
            // First position whose user is not before `w`.
            let mut p: usize = 0;
            while p < r.len() && text_lt_exec(chars_of(r[p].as_str()).as_slice(), w.as_slice())
                invariant
                    p <= r@.len(),
                    forall|q: int| 0 <= q < p ==> text_lt(#[trigger] str_views(r@)[q], wv),
                    wv == w@,
                decreases r@.len() - p,
            {
                p = p + 1;
            }
            let ghost rv = str_views(r@);
            let same = p < r.len() && chars_eq(chars_of(r[p].as_str()).as_slice(), w.as_slice());
            if !same {
                proof {
                    assert forall|q: int| 0 <= q < rv.len() implies rv[q] != wv by {
                        if q < p {
                            lemma_text_lt_irreflexive(wv);
                        } else {
                            lemma_text_lt_total(rv[p as int], wv);
                            if q > p {
                                lemma_text_lt_transitive(wv, rv[p as int], rv[q]);
                                lemma_text_lt_irreflexive(wv);
                            }
                        }
                    }
                }
                r.insert(p, string_of(w.as_slice()));
                proof {
                    let nv = str_views(r@);
                    assert(nv =~= rv.insert(p as int, wv));
                    assert forall|a: int, b: int| 0 <= a < b < nv.len() implies text_lt(#[trigger] nv[a], #[trigger] nv[b]) by {
                        if a < p && b == p {
                        } else if a == p && b > p {
                            lemma_text_lt_total(rv[p as int], wv);
                            if b > p + 1 {
                                lemma_text_lt_transitive(wv, rv[p as int], rv[b - 1]);
                            }
                        } else if a < p && b > p {
                            if p < rv.len() {
                                lemma_text_lt_total(rv[p as int], wv);
                                lemma_text_lt_transitive(nv[a], wv, rv[p as int]);
                                if b - 1 > p {
                                    lemma_text_lt_transitive(nv[a], rv[p as int], rv[b - 1]);
                                }
                            }
                        }
                    }
                    assert forall|u: Seq<char>| #[trigger] nv.contains(u) <==> (rv.contains(u) || u == wv) by {
                        if nv.contains(u) {
                            let k = choose|k: int| 0 <= k < nv.len() && nv[k] == u;
                            if k < p {
                                assert(rv[k] == u);
                            } else if k > p {
                                assert(rv[k - 1] == u);
                            }
                        }
                        if rv.contains(u) {
                            let k = choose|k: int| 0 <= k < rv.len() && rv[k] == u;
                            if k < p {
                                assert(nv[k] == u);
                            } else {
                                assert(nv[k + 1] == u);
                            }
                        }
                        if u == wv {
                            assert(nv[p as int] == u);
                        }
                    }
                }
            } else {
                proof {
                    assert(rv[p as int] == wv);
                }
            }
            proof {
                assert(first_words(lv.take(i + 1)) == prev_words.push(wv)) by {
                    assert(spec_words(lv.take(i + 1).last()) == spec_words(cs@));
                }
                assert forall|u: Seq<char>| #[trigger] str_views(r@).contains(u) <==> first_words(lv.take(i + 1)).contains(u) by {
                    if prev_words.push(wv).contains(u) && u != wv {
                        let k = choose|k: int| 0 <= k < prev_words.push(wv).len() && prev_words.push(wv)[k] == u;
                        assert(prev_words[k] == u);
                    }
                    if prev_words.contains(u) {
                        let k = choose|k: int| 0 <= k < prev_words.len() && prev_words[k] == u;
                        assert(prev_words.push(wv)[k] == u);
                    }
                    if u == wv {
                        assert(prev_words.push(wv)[prev_words.len() as int] == u);
                    }
                }
            }
        } else {
            proof {
                assert(first_words(lv.take(i + 1)) == prev_words);
            }
        }
        i = i + 1;
    }
    proof {
        assert(lv.take(lines@.len() as int) =~= lv);
    }
    r
}

// ── Security event timeline ───────────────────────────────────────

/// Events kept on the security timeline.
pub const MAX_SECURITY_EVENTS: usize = 100;

/// Alerts looked at when building the timeline.
pub const MAX_TIMELINE_ALERTS: usize = 50;

/// An alert as the timeline sees it. `category_text` is how the category is
/// displayed.
#[derive(Debug, Clone)]
pub struct AlertRecord {
    pub timestamp_ms: i64,
    pub category: AlertCategory,
    pub category_text: String,
    pub severity: AlertSeverity,
    pub message: String,
    pub pid: u32,
}

/// The plain values of a timeline event.
pub type EventView = (i64, SecurityEventKind, AlertSeverity, Seq<char>, Option<u32>);

pub open spec fn event_view(e: SecurityEvent) -> EventView {
    (e.timestamp_ms, e.kind, e.severity, e.message@, e.pid)
}

/// The timeline event for an alert: threats, suspicious processes and score
/// alerts only, the message prefixed with the category.
pub open spec fn alert_event(a: AlertRecord) -> Option<EventView> {
    if a.category == AlertCategory::SecurityThreat || a.category == AlertCategory::Suspicious
        || a.category == AlertCategory::SecurityScore {
        Some((a.timestamp_ms, SecurityEventKind::Threat, a.severity, a.category_text@ + ": "@ + a.message@, Some(a.pid)))
    } else {
        None
    }
}

/// The severity a stored alert row names.
pub open spec fn row_severity(s: Option<String>) -> AlertSeverity {
    match s {
        Some(t) => if t@ == "danger"@ {
            AlertSeverity::Danger
        } else if t@ == "critical"@ {
            AlertSeverity::Critical
        } else if t@ == "warning"@ || t@ == "warn"@ {
            AlertSeverity::Warning
        } else {
            AlertSeverity::Info
        },
        None => AlertSeverity::Info,
    }
}

/// Kind, severity and message of the timeline event a stored row makes, if any.
pub open spec fn row_entry(ev: EventRow) -> Option<(SecurityEventKind, AlertSeverity, Seq<char>)> {
    let name = match ev.name {
        Some(n) => n@,
        None => "unknown"@,
    };
    if ev.kind@ == "port_bind"@ {
        Some((SecurityEventKind::PortChange, AlertSeverity::Info, "Port opened by "@ + name))
    } else if ev.kind@ == "port_release"@ {
        Some((SecurityEventKind::PortChange, AlertSeverity::Info, "Port closed (was "@ + name + ")"@))
    } else if ev.kind@ == "process_start"@ {
        Some((SecurityEventKind::ProcessChange, AlertSeverity::Info, "New process: "@ + name))
    } else if ev.kind@ == "process_exit"@ {
        Some((SecurityEventKind::ProcessChange, AlertSeverity::Info, "Process exited: "@ + name))
    } else if ev.kind@ == "alert"@ {
        match ev.detail {
            Some(d) => if spec_contains(d@, "SECURITY"@) || spec_contains(d@, "SUSPECT"@) {
                Some((SecurityEventKind::Threat, row_severity(ev.severity), d@))
            } else {
                None
            },
            None => None,
        }
    } else {
        None
    }
}

/// The time an event is shown at: its stored time, or `now_ms` when the stored
/// time lies outside what a date-time can hold.
pub open spec fn event_time(ts: i64, now_ms: i64) -> i64 {
    if EARLIEST_LOCAL_MS <= ts <= LATEST_LOCAL_MS {
        ts
    } else {
        now_ms
    }
}

/// The timeline event of a row has the row's time (the current time `now_ms`
/// when the row's cannot be held as a date-time) and its pid.
pub open spec fn row_event_ok(ev: EventRow, e: SecurityEvent, now_ms: i64) -> bool {
    row_entry(ev) matches Some((kind, sev, msg)) && e.timestamp_ms == event_time(ev.ts, now_ms) && e.kind
        == kind && e.severity == sev && e.message@ == msg && e.pid == ev.pid
}

/// `sorted` with `e` placed after every event at least as new (newest first,
/// equal times in arrival order).
pub open spec fn insert_newest_first(sorted: Seq<SecurityEvent>, e: SecurityEvent) -> Seq<SecurityEvent> {
    sorted.insert(first_older(sorted, e.timestamp_ms, 0), e)
}

/// First position from `i` on holding an event older than `ts` (or the length).
pub open spec fn first_older(s: Seq<SecurityEvent>, ts: i64, i: int) -> int
    decreases s.len() - i,
{
    if i < 0 || i >= s.len() {
        if i < 0 { 0 } else { s.len() as int }
    } else if s[i].timestamp_ms < ts {
        i
    } else {
        first_older(s, ts, i + 1)
    }
}

/// `s` sorted newest first, stably.
pub open spec fn sort_newest_first(s: Seq<SecurityEvent>) -> Seq<SecurityEvent>
    decreases s.len(),
{
    if s.len() == 0 {
        s
    } else {
        insert_newest_first(sort_newest_first(s.drop_last()), s.last())
    }
}

/// The newest `MAX_SECURITY_EVENTS` of `s`.
pub open spec fn timeline_of(s: Seq<SecurityEvent>) -> Seq<SecurityEvent> {
    let t = sort_newest_first(s);
    if t.len() <= MAX_SECURITY_EVENTS {
        t
    } else {
        t.take(MAX_SECURITY_EVENTS as int)
    }
}

proof fn lemma_first_older_bounds(s: Seq<SecurityEvent>, ts: i64, i: int)
    requires
        0 <= i <= s.len(),
    ensures
        i <= first_older(s, ts, i) <= s.len(),
    decreases s.len() - i,
{
    if i < s.len() && s[i].timestamp_ms >= ts {
        lemma_first_older_bounds(s, ts, i + 1);
    }
}

proof fn lemma_sort_len(s: Seq<SecurityEvent>)
    ensures
        sort_newest_first(s).len() == s.len(),
    decreases s.len(),
{
    if s.len() > 0 {
        lemma_sort_len(s.drop_last());
        lemma_first_older_bounds(sort_newest_first(s.drop_last()), s.last().timestamp_ms, 0);
    }
}

/// Events in `s` are ordered newest first.
pub open spec fn newest_first(s: Seq<SecurityEvent>) -> bool {
    forall|i: int, j: int| 0 <= i < j < s.len() ==> s[i].timestamp_ms >= s[j].timestamp_ms
}

proof fn lemma_first_older_split(s: Seq<SecurityEvent>, ts: i64, i: int)
    requires
        0 <= i <= s.len(),
    ensures
        forall|k: int| i <= k < first_older(s, ts, i) ==> s[k].timestamp_ms >= ts,
        first_older(s, ts, i) < s.len() ==> s[first_older(s, ts, i)].timestamp_ms < ts,
    decreases s.len() - i,
{
    if i < s.len() && s[i].timestamp_ms >= ts {
        lemma_first_older_split(s, ts, i + 1);
    }
}

proof fn lemma_insert_newest_first(t: Seq<SecurityEvent>, e: SecurityEvent)
    requires
        newest_first(t),
    ensures
        newest_first(insert_newest_first(t, e)),
        insert_newest_first(t, e).to_multiset() == t.to_multiset().insert(e),
{
    let p = first_older(t, e.timestamp_ms, 0);
    lemma_first_older_bounds(t, e.timestamp_ms, 0);
    lemma_first_older_split(t, e.timestamp_ms, 0);
    let r = t.insert(p, e);
    t.insert_ensures(p, e);
    vstd::seq_lib::to_multiset_insert(t, p, e);
    assert forall|i: int, j: int| 0 <= i < j < r.len() implies r[i].timestamp_ms >= r[j].timestamp_ms by {
        if j < p {
            assert(r[i] == t[i] && r[j] == t[j]);
        } else if j == p {
            assert(r[i] == t[i]);
        } else if i < p {
            assert(r[i] == t[i] && r[j] == t[j - 1]);
        } else if i == p {
            assert(r[j] == t[j - 1]);
            assert(t[p].timestamp_ms >= t[j - 1].timestamp_ms || p == j - 1);
        } else {
            assert(r[i] == t[i - 1] && r[j] == t[j - 1]);
        }
    }
}

proof fn lemma_sort_newest_first(s: Seq<SecurityEvent>)
    ensures
        newest_first(sort_newest_first(s)),
        sort_newest_first(s).to_multiset() == s.to_multiset(),
    decreases s.len(),
{
    if s.len() > 0 {
        lemma_sort_newest_first(s.drop_last());
        lemma_insert_newest_first(sort_newest_first(s.drop_last()), s.last());
        assert(s =~= s.drop_last().push(s.last()));
        vstd::seq_lib::to_multiset_build(s.drop_last(), s.last());
    }
}

/// The timeline of `s` holds its newest events, newest first: `s` reordered
/// newest first (equal times keep their order), cut to at most
/// `MAX_SECURITY_EVENTS` events.
pub proof fn lemma_timeline_newest_first(s: Seq<SecurityEvent>)
    ensures
        sort_newest_first(s).to_multiset() == s.to_multiset(),
        newest_first(sort_newest_first(s)),
        newest_first(timeline_of(s)),
        timeline_of(s).len() == (if s.len() <= MAX_SECURITY_EVENTS {
            s.len()
        } else {
            MAX_SECURITY_EVENTS as nat
        }),
        timeline_of(s) == sort_newest_first(s).take(timeline_of(s).len() as int),
{
    lemma_sort_newest_first(s);
    lemma_sort_len(s);
    let t = sort_newest_first(s);
    if t.len() <= MAX_SECURITY_EVENTS {
        assert(t.take(t.len() as int) =~= t);
    } else {
        assert forall|i: int, j: int| 0 <= i < j < timeline_of(s).len() implies timeline_of(s)[i].timestamp_ms
            >= timeline_of(s)[j].timestamp_ms by {
            assert(timeline_of(s)[i] == t[i] && timeline_of(s)[j] == t[j]);
        }
    }
}

fn copy_event(e: &SecurityEvent) -> (r: SecurityEvent)
    ensures
        r == *e,
{
    SecurityEvent {
        timestamp_ms: e.timestamp_ms,
        kind: e.kind,
        severity: e.severity,
        message: e.message.clone(),
        pid: e.pid,
    }
}

/// The newest `MAX_SECURITY_EVENTS` of `events`, newest first (equal times
/// keep their order).
pub fn newest_events(events: &[SecurityEvent]) -> (r: Vec<SecurityEvent>)
    ensures
        r@ == timeline_of(events@),
{
    let mut sorted: Vec<SecurityEvent> = Vec::new();
    let mut i: usize = 0;
    while i < events.len()
        invariant
            i <= events@.len(),
            sorted@ == sort_newest_first(events@.take(i as int)),
        decreases events@.len() - i,
    {
        let e = copy_event(&events[i]);
        let ts = e.timestamp_ms;
        proof {
            assert(events@.take(i + 1).drop_last() =~= events@.take(i as int));
            lemma_sort_len(events@.take(i as int));
        }
        let mut p: usize = 0;
        while p < sorted.len() && sorted[p].timestamp_ms >= ts
            invariant
                p <= sorted@.len(),
                first_older(sorted@, ts, 0) == first_older(sorted@, ts, p as int),
            decreases sorted@.len() - p,
        {
            p = p + 1;
        }
        proof {
            lemma_first_older_bounds(sorted@, ts, p as int);
        }
        sorted.insert(p, e);
        i = i + 1;
    }
    proof {
        assert(events@.take(events@.len() as int) =~= events@);
        lemma_sort_len(events@);
    }
    if sorted.len() > MAX_SECURITY_EVENTS {
        sorted.truncate(MAX_SECURITY_EVENTS);
    }
    sorted
}

fn text2(a: &str, b: &str) -> (r: String)
    ensures
        r@ == a@ + b@,
{
    let mut v = chars_of(a);
    push_str(&mut v, b);
    string_of(v.as_slice())
}

fn row_event(ev: &EventRow, now_ms: i64) -> (r: Option<SecurityEvent>)
    ensures
        match r {
            Some(e) => row_event_ok(*ev, e, now_ms),
            None => row_entry(*ev) is None,
        },
{
    let kind = chars_of(ev.kind.as_str());
    let unknown = string_of(chars_of("unknown").as_slice());
    let name: &str = match &ev.name {
        Some(n) => n.as_str(),
        None => unknown.as_str(),
    };
    let entry: Option<(SecurityEventKind, AlertSeverity, String)> = if eq_str(kind.as_slice(), "port_bind") {
        Some((SecurityEventKind::PortChange, AlertSeverity::Info, text2("Port opened by ", name)))
    } else if eq_str(kind.as_slice(), "port_release") {
        let mut v = chars_of("Port closed (was ");
        push_str(&mut v, name);
        push_str(&mut v, ")");
        Some((SecurityEventKind::PortChange, AlertSeverity::Info, string_of(v.as_slice())))
    } else if eq_str(kind.as_slice(), "process_start") {
        Some((SecurityEventKind::ProcessChange, AlertSeverity::Info, text2("New process: ", name)))
    } else if eq_str(kind.as_slice(), "process_exit") {
        Some((SecurityEventKind::ProcessChange, AlertSeverity::Info, text2("Process exited: ", name)))
    } else if eq_str(kind.as_slice(), "alert") {
        match &ev.detail {
            Some(d) => {
                let dc = chars_of(d.as_str());
                if contains_str(dc.as_slice(), "SECURITY") || contains_str(dc.as_slice(), "SUSPECT") {
                    let sev = match &ev.severity {
                        Some(t) => {
                            let tc = chars_of(t.as_str());
                            if eq_str(tc.as_slice(), "danger") {
                                AlertSeverity::Danger
                            } else if eq_str(tc.as_slice(), "critical") {
                                AlertSeverity::Critical
                            } else if eq_str(tc.as_slice(), "warning") || eq_str(tc.as_slice(), "warn") {
                                AlertSeverity::Warning
                            } else {
                                AlertSeverity::Info
                            }
                        },
                        None => AlertSeverity::Info,
                    };
                    Some((SecurityEventKind::Threat, sev, d.clone()))
                } else {
                    None
                }
            },
            None => None,
        }
    } else {
        None
    };
    match entry {
        Some((k, sev, msg)) => {
            let ts = if EARLIEST_LOCAL_MS <= ev.ts && ev.ts <= LATEST_LOCAL_MS {
                ev.ts
            } else {
                now_ms
            };
            Some(SecurityEvent { timestamp_ms: ts, kind: k, severity: sev, message: msg, pid: ev.pid })
        },
        None => None,
    }
}

/// The timeline events of the first `MAX_TIMELINE_ALERTS` alerts and of the
/// stored rows, in that order, before sorting.
pub open spec fn raw_timeline(alerts: Seq<AlertRecord>, rows: Seq<EventRow>, events: Seq<SecurityEvent>, now_ms: i64) -> bool {
    exists|n: int| {
        &&& 0 <= n <= events.len()
        &&& events.take(n).map_values(|e: SecurityEvent| event_view(e)) == alert_events(if alerts.len() <= MAX_TIMELINE_ALERTS { alerts } else { alerts.take(MAX_TIMELINE_ALERTS as int) })
        &&& row_events_ok(rows, events.skip(n), now_ms)
    }
}

/// The events of the alerts that make one, in order.
pub open spec fn alert_events(alerts: Seq<AlertRecord>) -> Seq<EventView>
    decreases alerts.len(),
{
    if alerts.len() == 0 {
        Seq::empty()
    } else {
        match alert_event(alerts.last()) {
            Some(e) => alert_events(alerts.drop_last()).push(e),
            None => alert_events(alerts.drop_last()),
        }
    }
}

/// `evs` are the events of the rows that make one, in order.
pub open spec fn row_events_ok(rows: Seq<EventRow>, evs: Seq<SecurityEvent>, now_ms: i64) -> bool
    decreases rows.len(),
{
    if rows.len() == 0 {
        evs.len() == 0
    } else if row_entry(rows.last()) is Some {
        evs.len() > 0 && row_event_ok(rows.last(), evs.last(), now_ms) && row_events_ok(
            rows.drop_last(),
            evs.drop_last(),
            now_ms,
        )
    } else {
        row_events_ok(rows.drop_last(), evs, now_ms)
    }
}

/// The security timeline from the current alerts and the stored events of the
/// last half hour: the newest `MAX_SECURITY_EVENTS`, newest first. A stored
/// event whose time a date-time cannot hold is shown at `now_ms`, the current
/// time.
pub fn collect_security_events_from(alerts: &[AlertRecord], rows: &[EventRow], now_ms: i64) -> (r: Vec<SecurityEvent>)
    ensures
        exists|raw: Seq<SecurityEvent>| raw_timeline(alerts@, rows@, raw, now_ms) && r@ == timeline_of(raw),
{
    let mut raw: Vec<SecurityEvent> = Vec::new();
    let na: usize = if alerts.len() < MAX_TIMELINE_ALERTS {
        alerts.len()
    } else {
        MAX_TIMELINE_ALERTS
    };
    let ghost al = if alerts@.len() <= MAX_TIMELINE_ALERTS { alerts@ } else { alerts@.take(MAX_TIMELINE_ALERTS as int) };
    let mut i: usize = 0;
    while i < na
        invariant
            i <= na,
            na as int == al.len(),
            al == if alerts@.len() <= MAX_TIMELINE_ALERTS { alerts@ } else { alerts@.take(MAX_TIMELINE_ALERTS as int) },
            raw@.map_values(|e: SecurityEvent| event_view(e)) == alert_events(al.take(i as int)),
        decreases na - i,
    {
        proof {
            assert(al.take(i + 1).drop_last() =~= al.take(i as int));
            assert(al[i as int] == alerts@[i as int]);
        }
        let a = &alerts[i];
        if a.category == AlertCategory::SecurityThreat || a.category == AlertCategory::Suspicious
            || a.category == AlertCategory::SecurityScore {
            let mut v = chars_of(a.category_text.as_str());
            push_str(&mut v, ": ");
            push_str(&mut v, a.message.as_str());
            let e = SecurityEvent {
                timestamp_ms: a.timestamp_ms,
                kind: SecurityEventKind::Threat,
                severity: a.severity,
                message: string_of(v.as_slice()),
                pid: Some(a.pid),
            };
            let ghost before = raw@;
            raw.push(e);
            proof {
                assert(raw@.map_values(|e: SecurityEvent| event_view(e)) =~= before.map_values(|e: SecurityEvent| event_view(e)).push(event_view(e)));
            }
        }
        i = i + 1;
    }
    proof {
        assert(al.take(na as int) =~= al);
        assert(raw@.take(raw@.len() as int) =~= raw@);
        assert(raw@.skip(raw@.len() as int) =~= Seq::<SecurityEvent>::empty());
        assert(rows@.take(0) =~= Seq::<EventRow>::empty());
    }
    let ghost n_alerts = raw@.len();
    let mut j: usize = 0;
    while j < rows.len()
        invariant
            j <= rows@.len(),
            n_alerts <= raw@.len(),
            raw@.take(n_alerts as int).map_values(|e: SecurityEvent| event_view(e)) == alert_events(al),
            row_events_ok(rows@.take(j as int), raw@.skip(n_alerts as int), now_ms),
        decreases rows@.len() - j,
    {
        let ghost before = raw@;
        proof {
            assert(rows@.take(j + 1).drop_last() =~= rows@.take(j as int));
            assert(rows@.take(j + 1).last() == rows@[j as int]);
        }
        match row_event(&rows[j], now_ms) {
            Some(e) => {
                raw.push(e);
                proof {
                    assert(raw@.take(n_alerts as int) =~= before.take(n_alerts as int));
                    assert(raw@.skip(n_alerts as int).drop_last() =~= before.skip(n_alerts as int));
                    assert(raw@.skip(n_alerts as int).last() == e);
                }
            },
            None => {},
        }
        j = j + 1;
    }
    proof {
        assert(rows@.take(rows@.len() as int) =~= rows@);
        assert(raw_timeline(alerts@, rows@, raw@, now_ms));
    }
    newest_events(raw.as_slice())
}

/// The merged timeline: the newest `MAX_SECURITY_EVENTS` of both lists, newest first.
pub fn merge_timeline(events: &[SecurityEvent], more: &[SecurityEvent]) -> (r: Vec<SecurityEvent>)
    ensures
        r@ == timeline_of(events@ + more@),
{
    let mut all: Vec<SecurityEvent> = Vec::new();
    let mut i: usize = 0;
    while i < events.len()
        invariant
            i <= events@.len(),
            all@ == events@.take(i as int),
        decreases events@.len() - i,
    {
        all.push(copy_event(&events[i]));
        proof {
            assert(all@ =~= events@.take(i + 1));
        }
        i = i + 1;
    }
    let mut j: usize = 0;
    while j < more.len()
        invariant
            i == events@.len(),
            j <= more@.len(),
            all@ == events@ + more@.take(j as int),
        decreases more@.len() - j,
    {
        proof {
            assert(events@.take(i as int) =~= events@);
        }
        all.push(copy_event(&more[j]));
        proof {
            assert(all@ =~= events@ + more@.take(j + 1));
        }
        j = j + 1;
    }
    proof {
        assert(more@.take(more@.len() as int) =~= more@);
        assert(events@.take(events@.len() as int) =~= events@);
    }
    newest_events(all.as_slice())
}

// ── Derived counters and score ────────────────────────────────────

/// How many of `cats` equal `c`.
pub open spec fn count_category(cats: Seq<AlertCategory>, c: AlertCategory) -> nat
    decreases cats.len(),
{
    if cats.len() == 0 {
        0
    } else {
        count_category(cats.drop_last(), c) + if cats.last() == c {
            1nat
        } else {
            0nat
        }
    }
}

/// The ports of the listeners classified `Suspicious`, in order.
pub open spec fn risky_ports_of(ls: Seq<ListenerInfo>) -> Seq<u16>
    decreases ls.len(),
{
    if ls.len() == 0 {
        Seq::empty()
    } else if ls.last().risk == PortRisk::Suspicious {
        risky_ports_of(ls.drop_last()).push(ls.last().port)
    } else {
        risky_ports_of(ls.drop_last())
    }
}

/// How many listeners are classified `Unowned`.
pub open spec fn unowned_count(ls: Seq<ListenerInfo>) -> nat
    decreases ls.len(),
{
    if ls.len() == 0 {
        0
    } else {
        unowned_count(ls.drop_last()) + if ls.last().risk == PortRisk::Unowned {
            1nat
        } else {
            0nat
        }
    }
}

proof fn lemma_counts_bounded(cats: Seq<AlertCategory>, c: AlertCategory, ls: Seq<ListenerInfo>)
    ensures
        count_category(cats, c) <= cats.len(),
        risky_ports_of(ls).len() <= ls.len(),
        unowned_count(ls) <= ls.len(),
    decreases cats.len() + ls.len(),
{
    if cats.len() > 0 {
        lemma_counts_bounded(cats.drop_last(), c, ls);
    } else if ls.len() > 0 {
        lemma_counts_bounded(cats, c, ls.drop_last());
    }
}

/// The counters the score is computed from stay within the score's 32-bit
/// arithmetic once refreshed from `cats` and the state's listeners.
pub open spec fn refresh_fits(st: SecurityState, cats: Seq<AlertCategory>) -> bool {
    count_category(cats, AlertCategory::SecurityThreat) * 20 + count_category(cats, AlertCategory::Suspicious)
        * 10 + unowned_count(st.listeners@) * 5 + risky_ports_of(st.listeners@).len() * 5
        + st.modified_packages@.len() * 2 + st.ssh_brute_force@.len() * 15 + MAX_SUSPICIOUS_OUTBOUND * 5
        <= 2147483647
}

/// Recomputes what the dashboard derives from the collected data: the threat
/// and suspicious counts from the current alert categories, the suspicious
/// outbound connections, the risky and unowned listeners, and the score (the
/// previous score is kept beside it).
pub fn refresh_derived(state: &mut SecurityState, alert_categories: &[AlertCategory])
    requires
        refresh_fits(*old(state), alert_categories@),
    ensures
        final(state).active_threats == count_category(alert_categories@, AlertCategory::SecurityThreat),
        final(state).suspicious_count == count_category(alert_categories@, AlertCategory::Suspicious),
        final(state).risky_ports@ == risky_ports_of(old(state).listeners@),
        final(state).unowned_listeners == unowned_count(old(state).listeners@),
        final(state).suspicious_outbound@.len() == (if flagged_connections(old(state).connections@).len()
            < MAX_SUSPICIOUS_OUTBOUND {
            flagged_connections(old(state).connections@).len()
        } else {
            MAX_SUSPICIOUS_OUTBOUND as nat
        }),
        forall|i: int| 0 <= i < final(state).suspicious_outbound@.len() ==> outbound_reports(
            #[trigger] final(state).suspicious_outbound@[i],
            flagged_connections(old(state).connections@)[i],
        ),
        final(state).prev_score == old(state).score,
        final(state).score as int == state_score(*final(state)),
        final(state).listeners == old(state).listeners,
        final(state).connections == old(state).connections,
        final(state).events == old(state).events,
        final(state).ssh_brute_force == old(state).ssh_brute_force,
        final(state).modified_packages == old(state).modified_packages,
        final(state).auth_log_readable == old(state).auth_log_readable,
{
    let mut threats: usize = 0;
    let mut suspicious: usize = 0;
    let mut i: usize = 0;
    while i < alert_categories.len()
        invariant
            i <= alert_categories@.len(),
            threats == count_category(alert_categories@.take(i as int), AlertCategory::SecurityThreat),
            suspicious == count_category(alert_categories@.take(i as int), AlertCategory::Suspicious),
            threats <= i,
            suspicious <= i,
        decreases alert_categories@.len() - i,
    {
        proof {
            assert(alert_categories@.take(i + 1).drop_last() =~= alert_categories@.take(i as int));
        }
        if alert_categories[i] == AlertCategory::SecurityThreat {
            threats = threats + 1;
        }
        if alert_categories[i] == AlertCategory::Suspicious {
            suspicious = suspicious + 1;
        }
        i = i + 1;
    }
    proof {
        assert(alert_categories@.take(alert_categories@.len() as int) =~= alert_categories@);
    }
    let mut risky: Vec<u16> = Vec::new();
    let mut unowned: usize = 0;
    let mut k: usize = 0;
    while k < state.listeners.len()
        invariant
            k <= state.listeners@.len(),
            risky@ == risky_ports_of(state.listeners@.take(k as int)),
            unowned == unowned_count(state.listeners@.take(k as int)),
            unowned <= k,
        decreases state.listeners@.len() - k,
    {
        proof {
            assert(state.listeners@.take(k + 1).drop_last() =~= state.listeners@.take(k as int));
        }
        if state.listeners[k].risk == PortRisk::Suspicious {
            risky.push(state.listeners[k].port);
        }
        if state.listeners[k].risk == PortRisk::Unowned {
            unowned = unowned + 1;
        }
        k = k + 1;
    }
    proof {
        assert(state.listeners@.take(state.listeners@.len() as int) =~= state.listeners@);
    }
    let outbound = analyze_suspicious_outbound(state.connections.as_slice());
    state.active_threats = threats;
    state.suspicious_count = suspicious;
    state.risky_ports = risky;
    state.unowned_listeners = unowned;
    state.suspicious_outbound = outbound;
    state.prev_score = state.score;
    state.score = compute_security_score(state);
}

} // verus!
