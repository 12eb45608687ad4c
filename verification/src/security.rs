//! Security dashboard: data model, port-risk classification, scoring, and the
//! parsers for auth.log, crontab and timer listings.

use vstd::prelude::*;
use crate::clock::{instant_now, system_time_ms};
use crate::text::{
    chars_of, contains_str, lowercase_of, spec_contains, string_of, to_lowercase, eq_str,
    i64_to_dec, int_to_dec, push_str, push_all, spec_starts_with, starts_with_str, find_str,
    spec_find, spec_words, first_word, sub_chars, prefix_chars, take_chars, trim, spec_trim,
    spec_splitn_ws, splitn_ws, is_digit, byte_len, is_boundary, char_index_at, char_index_at_byte,
    copy_chars, str_byte_len,
};

verus! {

// ── Severity ──────────────────────────────────────────────────────

/// Alert severity levels, lowest first.
#[derive(Debug, Clone, Copy, PartialEq, Eq, Structural)]
pub enum AlertSeverity {
    Info,
    Warning,
    Critical,
    Danger,
}

/// What an alert is about.
#[derive(Debug, Clone, Copy, PartialEq, Eq, Hash, Structural)]
pub enum AlertCategory {
    SecurityScore,
    SecurityThreat,
    Suspicious,
    ThermalWarning,
    ThermalCritical,
    ThermalEmergency,
    WindowsFirewall,
    WindowsDefender,
    WindowsUpdates,
}

// ── Panel focus ───────────────────────────────────────────────────

/// Which panel is currently focused for keyboard interaction.
#[derive(Debug, Clone, Copy, PartialEq, Eq, Structural)]
pub enum SecurityPanel {
    Listeners,
    Connections,
    Timeline,
    ThreatSummary,
    Integrity,
}

pub open spec fn panel_next(p: SecurityPanel) -> SecurityPanel {
    match p {
        SecurityPanel::Listeners => SecurityPanel::Connections,
        SecurityPanel::Connections => SecurityPanel::Timeline,
        SecurityPanel::Timeline => SecurityPanel::ThreatSummary,
        SecurityPanel::ThreatSummary => SecurityPanel::Integrity,
        SecurityPanel::Integrity => SecurityPanel::Listeners,
    }
}

pub open spec fn panel_prev(p: SecurityPanel) -> SecurityPanel {
    match p {
        SecurityPanel::Listeners => SecurityPanel::Integrity,
        SecurityPanel::Connections => SecurityPanel::Listeners,
        SecurityPanel::Timeline => SecurityPanel::Connections,
        SecurityPanel::ThreatSummary => SecurityPanel::Timeline,
        SecurityPanel::Integrity => SecurityPanel::ThreatSummary,
    }
}

pub open spec fn panel_label(p: SecurityPanel) -> Seq<char> {
    match p {
        SecurityPanel::Listeners => "Active Listeners"@,
        SecurityPanel::Connections => "Connections"@,
        SecurityPanel::Timeline => "Security Events"@,
        SecurityPanel::ThreatSummary => "Threat Summary"@,
        SecurityPanel::Integrity => "System Integrity"@,
    }
}

impl SecurityPanel {
    /// Cycle to the next panel.
    pub fn next(self) -> (r: SecurityPanel)
        ensures
            r == panel_next(self),
    {
        match self {
            SecurityPanel::Listeners => SecurityPanel::Connections,
            SecurityPanel::Connections => SecurityPanel::Timeline,
            SecurityPanel::Timeline => SecurityPanel::ThreatSummary,
            SecurityPanel::ThreatSummary => SecurityPanel::Integrity,
            SecurityPanel::Integrity => SecurityPanel::Listeners,
        }
    }

    /// Cycle to the previous panel.
    pub fn prev(self) -> (r: SecurityPanel)
        ensures
            r == panel_prev(self),
    {
        match self {
            SecurityPanel::Listeners => SecurityPanel::Integrity,
            SecurityPanel::Connections => SecurityPanel::Listeners,
            SecurityPanel::Timeline => SecurityPanel::Connections,
            SecurityPanel::ThreatSummary => SecurityPanel::Timeline,
            SecurityPanel::Integrity => SecurityPanel::ThreatSummary,
        }
    }

    /// Display label for the panel.
    pub fn label(&self) -> (r: &'static str)
        ensures
            r@ == panel_label(*self),
    {
        match self {
            SecurityPanel::Listeners => "Active Listeners",
            SecurityPanel::Connections => "Connections",
            SecurityPanel::Timeline => "Security Events",
            SecurityPanel::ThreatSummary => "Threat Summary",
            SecurityPanel::Integrity => "System Integrity",
        }
    }
}

/// `prev` undoes `next` and `next` undoes `prev`.
pub proof fn lemma_panel_prev_inverts_next(p: SecurityPanel)
    ensures
        panel_prev(panel_next(p)) == p,
        panel_next(panel_prev(p)) == p,
{
}

/// Position of a panel in the cycle.
pub open spec fn panel_index(p: SecurityPanel) -> int {
    match p {
        SecurityPanel::Listeners => 0,
        SecurityPanel::Connections => 1,
        SecurityPanel::Timeline => 2,
        SecurityPanel::ThreatSummary => 3,
        SecurityPanel::Integrity => 4,
    }
}

/// `next` steps once around a cycle of all five panels, so five steps return to
/// the start and every panel is visited on the way.
pub proof fn lemma_panel_cycle(p: SecurityPanel)
    ensures
        panel_index(panel_next(p)) == (panel_index(p) + 1) % 5,
        panel_next(panel_next(panel_next(panel_next(panel_next(p))))) == p,
        forall|q: SecurityPanel| panel_index(q) == panel_index(p) ==> q == p,
{
}

// ── Port risk ─────────────────────────────────────────────────────

/// Risk level for a listening port, in increasing order of concern.
#[derive(Debug, Clone, Copy, PartialEq, Eq, PartialOrd, Ord, Structural)]
pub enum PortRisk {
    /// Standard port with known process.
    Known,
    /// Unexpected service or unusual port.
    Suspicious,
    /// Listening but PID=0 or process unknown.
    Unowned,
}

pub open spec fn port_risk_label(r: PortRisk) -> Seq<char> {
    match r {
        PortRisk::Known => "OK"@,
        PortRisk::Suspicious => "SUSPECT"@,
        PortRisk::Unowned => "UNOWNED"@,
    }
}

impl PortRisk {
    /// Display text of the risk level.
    pub fn label(&self) -> (r: &'static str)
        ensures
            r@ == port_risk_label(*self),
    {
        match self {
            PortRisk::Known => "OK",
            PortRisk::Suspicious => "SUSPECT",
            PortRisk::Unowned => "UNOWNED",
        }
    }

    /// Display text of the risk level as an owned string.
    pub fn to_string(&self) -> (r: String)
        ensures
            r@ == port_risk_label(*self),
    {
        let cs = chars_of(self.label());
        string_of(cs.as_slice())
    }
}

/// Well-known listening ports and the process expected on them (empty: any process).
pub open spec fn known_port_process(port: u16) -> Option<Seq<char>> {
    if port == 22 {
        Some("ssh"@)
    } else if port == 53 {
        Some(""@)
    } else if port == 80 {
        Some(""@)
    } else if port == 443 {
        Some(""@)
    } else if port == 631 {
        Some("cups"@)
    } else if port == 3306 {
        Some("mysql"@)
    } else if port == 5432 {
        Some("postgres"@)
    } else if port == 6379 {
        Some("redis"@)
    } else if port == 8080 {
        Some(""@)
    } else if port == 27017 {
        Some("mongo"@)
    } else {
        None
    }
}

fn known_port_process_exec(port: u16) -> (r: Option<&'static str>)
    ensures
        match r {
            Some(s) => known_port_process(port) == Some(s@),
            None => known_port_process(port) is None,
        },
{
    match port {
        22 => Some("ssh"),
        53 => Some(""),
        80 => Some(""),
        443 => Some(""),
        631 => Some("cups"),
        3306 => Some("mysql"),
        5432 => Some("postgres"),
        6379 => Some("redis"),
        8080 => Some(""),
        27017 => Some("mongo"),
        _ => None,
    }
}

/// `classify_port_risk`: the risk of a listener from its port, owner name and PID.
pub open spec fn spec_port_risk(port: u16, name_lower: Seq<char>, pid: Option<u32>) -> PortRisk {
    if pid.unwrap_or(0) == 0 || name_lower.len() == 0 || name_lower == "???"@ {
        PortRisk::Unowned
    } else {
        match known_port_process(port) {
            Some(expected) => if expected.len() == 0 || spec_contains(name_lower, expected) {
                PortRisk::Known
            } else {
                PortRisk::Suspicious
            },
            None => PortRisk::Known,
        }
    }
}

/// Classify the risk level of a listening port.
///
/// No PID (or PID 0) or no process name → `Unowned`; a well-known port held by the
/// expected process (or by any process where none is expected) → `Known`; a
/// well-known port held by another process → `Suspicious`; any other port with a
/// live owner → `Known`.
pub fn classify_port_risk(port: u16, process_name: &str, pid: Option<u32>) -> (r: PortRisk)
    ensures
        r == spec_port_risk(port, lowercase_of(process_name@), pid),
        r == PortRisk::Unowned <==> (pid.unwrap_or(0) == 0 || process_name@.len() == 0 || lowercase_of(
            process_name@,
        ) == "???"@),
{
    let lower = to_lowercase(process_name);
    let name_lower = chars_of(lower.as_str());
    let p = match pid {
        Some(v) => v,
        None => 0,
    };
    if p == 0 || name_lower.len() == 0 || eq_str(name_lower.as_slice(), "???") {
        return PortRisk::Unowned;
    }
    match known_port_process_exec(port) {
        Some(expected) => {
            let ecs = chars_of(expected);
            if ecs.len() == 0 || contains_str(name_lower.as_slice(), expected) {
                PortRisk::Known
            } else {
                PortRisk::Suspicious
            }
        },
        None => PortRisk::Known,
    }
}


// ── Records shown on the dashboard ────────────────────────────────

/// A source IP flagged for repeated SSH authentication failures.
#[derive(Debug, Clone)]
pub struct SshBruteForceEntry {
    /// Source IP address.
    pub source_ip: String,
    /// Number of failed attempts from this IP.
    pub attempt_count: usize,
    /// When the entry was built, in Unix epoch milliseconds.
    pub last_seen_ms: i64,
    /// Username(s) targeted, each once.
    pub target_users: Vec<String>,
}

/// A cron job discovered on the system.
#[derive(Debug, Clone)]
pub struct CronEntry {
    pub user: String,
    pub schedule: String,
    pub command: String,
    pub source: String,
}

/// A systemd timer unit discovered on the system.
#[derive(Debug, Clone)]
pub struct SystemdTimer {
    pub unit: String,
    pub activates: String,
    pub active: bool,
    pub next_trigger: Option<String>,
}

/// An outbound connection to a non-standard destination port.
#[derive(Debug, Clone)]
pub struct SuspiciousOutbound {
    pub process_name: String,
    pub pid: Option<u32>,
    pub remote_addr: String,
    pub remote_port: u16,
    pub local_port: u16,
}

/// A TCP/UDP listener detected on the system.
#[derive(Debug, Clone)]
pub struct ListenerInfo {
    pub port: u16,
    pub protocol: String,
    pub pid: Option<u32>,
    pub process_name: String,
    pub bind_addr: String,
    pub risk: PortRisk,
}

/// An established TCP connection.
#[derive(Debug, Clone)]
pub struct ConnectionInfo {
    pub local_addr: String,
    pub local_port: u16,
    pub remote_addr: String,
    pub remote_port: u16,
    pub pid: Option<u32>,
    pub process_name: String,
    pub state: String,
}

// ── Security events ───────────────────────────────────────────────

/// Category of security event for the timeline.
#[derive(Debug, Clone, Copy, PartialEq, Eq, Structural)]
pub enum SecurityEventKind {
    Threat,
    PortChange,
    ProcessChange,
    AuthEvent,
    ScoreChange,
    SshBruteForce,
    SuspiciousOutbound,
    ScheduledTask,
}

pub open spec fn event_kind_label(k: SecurityEventKind) -> Seq<char> {
    match k {
        SecurityEventKind::Threat => "THREAT"@,
        SecurityEventKind::PortChange => "PORT"@,
        SecurityEventKind::ProcessChange => "PROC"@,
        SecurityEventKind::AuthEvent => "AUTH"@,
        SecurityEventKind::ScoreChange => "SCORE"@,
        SecurityEventKind::SshBruteForce => "SSH"@,
        SecurityEventKind::SuspiciousOutbound => "OUTBD"@,
        SecurityEventKind::ScheduledTask => "SCHED"@,
    }
}

pub open spec fn event_kind_icon(k: SecurityEventKind) -> Seq<char> {
    match k {
        SecurityEventKind::Threat => "!"@,
        SecurityEventKind::PortChange => ">"@,
        SecurityEventKind::ProcessChange => "+"@,
        SecurityEventKind::AuthEvent => "@"@,
        SecurityEventKind::ScoreChange => "#"@,
        SecurityEventKind::SshBruteForce => "*"@,
        SecurityEventKind::SuspiciousOutbound => "~"@,
        SecurityEventKind::ScheduledTask => "&"@,
    }
}

impl SecurityEventKind {
    /// Display text of the kind.
    pub fn label(&self) -> (r: &'static str)
        ensures
            r@ == event_kind_label(*self),
    {
        match self {
            SecurityEventKind::Threat => "THREAT",
            SecurityEventKind::PortChange => "PORT",
            SecurityEventKind::ProcessChange => "PROC",
            SecurityEventKind::AuthEvent => "AUTH",
            SecurityEventKind::ScoreChange => "SCORE",
            SecurityEventKind::SshBruteForce => "SSH",
            SecurityEventKind::SuspiciousOutbound => "OUTBD",
            SecurityEventKind::ScheduledTask => "SCHED",
        }
    }

    /// Display text of the kind as an owned string.
    pub fn to_string(&self) -> (r: String)
        ensures
            r@ == event_kind_label(*self),
    {
        let cs = chars_of(self.label());
        string_of(cs.as_slice())
    }
}

/// A single event in the security timeline.
#[derive(Debug, Clone)]
pub struct SecurityEvent {
    /// When the event happened, in Unix epoch milliseconds.
    pub timestamp_ms: i64,
    pub kind: SecurityEventKind,
    pub severity: AlertSeverity,
    pub message: String,
    pub pid: Option<u32>,
}

/// `age_display` for an event `elapsed` whole seconds old.
pub open spec fn spec_age_label(elapsed: int) -> Seq<char> {
    if elapsed < 60 {
        int_to_dec(elapsed) + "s"@
    } else if elapsed < 3600 {
        int_to_dec(elapsed / 60) + "m"@
    } else if elapsed < 86400 {
        int_to_dec(elapsed / 3600) + "h"@
    } else {
        int_to_dec(elapsed / 86400) + "d"@
    }
}

/// Human-readable age for an event `elapsed_secs` old.
pub fn age_label(elapsed_secs: i64) -> (r: String)
    ensures
        r@ == spec_age_label(elapsed_secs as int),
{
    let mut v: Vec<char>;
    if elapsed_secs < 60 {
        v = i64_to_dec(elapsed_secs);
        push_str(&mut v, "s");
    } else if elapsed_secs < 3600 {
        v = i64_to_dec(elapsed_secs / 60);
        push_str(&mut v, "m");
    } else if elapsed_secs < 86400 {
        v = i64_to_dec(elapsed_secs / 3600);
        push_str(&mut v, "h");
    } else {
        v = i64_to_dec(elapsed_secs / 86400);
        push_str(&mut v, "d");
    }
    string_of(v.as_slice())
}

/// Whole seconds from `then_ms` to `now_ms`, rounded toward zero.
pub open spec fn elapsed_whole_secs(now_ms: int, then_ms: int) -> int {
    let d = now_ms - then_ms;
    if d >= 0 {
        d / 1000
    } else {
        -((-d) / 1000)
    }
}

impl SecurityEvent {
    /// Icon character for the event kind.
    pub fn icon(&self) -> (r: &'static str)
        ensures
            r@ == event_kind_icon(self.kind),
    {
        match self.kind {
            SecurityEventKind::Threat => "!",
            SecurityEventKind::PortChange => ">",
            SecurityEventKind::ProcessChange => "+",
            SecurityEventKind::AuthEvent => "@",
            SecurityEventKind::ScoreChange => "#",
            SecurityEventKind::SshBruteForce => "*",
            SecurityEventKind::SuspiciousOutbound => "~",
            SecurityEventKind::ScheduledTask => "&",
        }
    }

    /// Age of the event when the clock reads `now_ms`.
    pub fn age_display_at(&self, now_ms: i64) -> (r: String)
        requires
            i64::MIN <= now_ms - self.timestamp_ms <= i64::MAX,
        ensures
            r@ == spec_age_label(elapsed_whole_secs(now_ms as int, self.timestamp_ms as int)),
    {
        let d: i64 = now_ms - self.timestamp_ms;
        let secs: i64 = if d >= 0 {
            d / 1000
        } else {
            let m: u64 = ((-(d + 1)) as u64) + 1;
            -((m / 1000) as i64)
        };
        age_label(secs)
    }

    /// Human-readable age of the event now.
    pub fn age_display(&self) -> (r: String)
        ensures
            exists|now_ms: i64|
                i64::MIN <= now_ms - self.timestamp_ms <= i64::MAX && r@ == spec_age_label(
                    elapsed_whole_secs(now_ms as int, self.timestamp_ms as int),
                ),
    {
        let now = system_time_ms();
        let t = self.timestamp_ms;
        let now_c = if t < 0 && now > i64::MAX + t {
            i64::MAX + t
        } else if t > 0 && now < i64::MIN + t {
            i64::MIN + t
        } else {
            now
        };
        self.age_display_at(now_c)
    }
}

// ── Score ─────────────────────────────────────────────────────────

pub open spec fn spec_score_label(score: u8) -> Seq<char> {
    if score >= 80 {
        "GOOD"@
    } else if score >= 60 {
        "FAIR"@
    } else if score >= 40 {
        "POOR"@
    } else {
        "CRITICAL"@
    }
}

/// Compute the score label from a numeric score.
pub fn score_label(score: u8) -> (r: &'static str)
    ensures
        r@ == spec_score_label(score),
{
    if score >= 80 {
        "GOOD"
    } else if score >= 60 {
        "FAIR"
    } else if score >= 40 {
        "POOR"
    } else {
        "CRITICAL"
    }
}

pub const SCORE_PENALTY_THREAT: u64 = 20;
pub const SCORE_PENALTY_SUSPICIOUS: u64 = 10;
pub const SCORE_PENALTY_UNOWNED_LISTENER: u64 = 5;
pub const SCORE_PENALTY_RISKY_PORT: u64 = 5;
pub const SCORE_PENALTY_NO_AUTH_LOG: u64 = 3;
pub const SCORE_PENALTY_MODIFIED_PKG: u64 = 2;
pub const SCORE_PENALTY_SSH_BRUTE_FORCE: u64 = 15;
pub const SCORE_PENALTY_SUSPICIOUS_OUTBOUND: u64 = 5;
pub const SCORE_SUSPICIOUS_OUTBOUND_CAP: u64 = 20;

/// The security score: 100 minus the weighted penalties, clamped to 0..=100.
pub open spec fn spec_security_score(
    threats: nat,
    suspicious: nat,
    unowned: nat,
    risky: nat,
    auth_log_readable: bool,
    modified_pkgs: nat,
    ssh_brute_force: nat,
    outbound: nat,
) -> int {
    let out = if outbound * 5 < 20 {
        outbound * 5
    } else {
        20
    };
    let s = 100 - threats * 20 - suspicious * 10 - unowned * 5 - risky * 5 - (if auth_log_readable {
        0int
    } else {
        3
    }) - modified_pkgs * 2 - ssh_brute_force * 15 - out;
    if s < 0 {
        0
    } else if s > 100 {
        100
    } else {
        s
    }
}

/// The score stays within 0..=100, is 100 with no findings, and more findings
/// never raise it: with every count at least as large and the auth log readable
/// only if it was, the score is at most what it was.
pub proof fn lemma_score_bounded_and_monotone(
    threats: nat,
    suspicious: nat,
    unowned: nat,
    risky: nat,
    auth_log_readable: bool,
    modified_pkgs: nat,
    ssh_brute_force: nat,
    outbound: nat,
    threats2: nat,
    suspicious2: nat,
    unowned2: nat,
    risky2: nat,
    auth_log_readable2: bool,
    modified_pkgs2: nat,
    ssh_brute_force2: nat,
    outbound2: nat,
)
    requires
        threats <= threats2,
        suspicious <= suspicious2,
        unowned <= unowned2,
        risky <= risky2,
        auth_log_readable2 ==> auth_log_readable,
        modified_pkgs <= modified_pkgs2,
        ssh_brute_force <= ssh_brute_force2,
        outbound <= outbound2,
    ensures
        0 <= spec_security_score(threats, suspicious, unowned, risky, auth_log_readable, modified_pkgs, ssh_brute_force, outbound) <= 100,
        spec_security_score(threats2, suspicious2, unowned2, risky2, auth_log_readable2, modified_pkgs2, ssh_brute_force2, outbound2)
            <= spec_security_score(threats, suspicious, unowned, risky, auth_log_readable, modified_pkgs, ssh_brute_force, outbound),
        spec_security_score(0, 0, 0, 0, true, 0, 0, 0) == 100,
{
}


// ── Dashboard state ───────────────────────────────────────────────

/// Full security dashboard state, refreshed periodically.
#[derive(Debug, Clone)]
pub struct SecurityState {
    pub listeners: Vec<ListenerInfo>,
    pub connections: Vec<ConnectionInfo>,
    /// Security event timeline (newest first).
    pub events: Vec<SecurityEvent>,
    pub active_threats: usize,
    pub suspicious_count: usize,
    pub risky_ports: Vec<u16>,
    pub unowned_listeners: usize,
    pub ssh_brute_force: Vec<SshBruteForceEntry>,
    pub cron_entries: Vec<CronEntry>,
    pub systemd_timers: Vec<SystemdTimer>,
    pub suspicious_outbound: Vec<SuspiciousOutbound>,
    pub logged_in_users: Vec<String>,
    pub auth_event_count_24h: usize,
    pub modified_packages: Vec<String>,
    pub auth_log_readable: bool,
    pub score: u8,
    pub prev_score: u8,
    pub focused_panel: SecurityPanel,
    pub listener_scroll: usize,
    pub connection_scroll: usize,
    pub event_scroll: usize,
    /// Selected item index within the focused panel.
    pub selected_index: usize,
    /// Whether the detail popup is visible.
    pub detail_popup: bool,
    pub last_refresh: Option<std::time::Instant>,
    /// Slow-refresh counter for expensive operations.
    pub slow_refresh_count: u64,
}

impl Default for SecurityState {
    fn default() -> (s: SecurityState)
        ensures
            s.listeners@.len() == 0,
            s.connections@.len() == 0,
            s.events@.len() == 0,
            s.active_threats == 0,
            s.suspicious_count == 0,
            s.risky_ports@.len() == 0,
            s.unowned_listeners == 0,
            s.ssh_brute_force@.len() == 0,
            s.cron_entries@.len() == 0,
            s.systemd_timers@.len() == 0,
            s.suspicious_outbound@.len() == 0,
            s.logged_in_users@.len() == 0,
            s.auth_event_count_24h == 0,
            s.modified_packages@.len() == 0,
            !s.auth_log_readable,
            s.score == 100,
            s.prev_score == 100,
            s.focused_panel == SecurityPanel::Listeners,
            s.listener_scroll == 0,
            s.connection_scroll == 0,
            s.event_scroll == 0,
            s.selected_index == 0,
            !s.detail_popup,
            s.last_refresh is None,
            s.slow_refresh_count == 0,
    {
        SecurityState {
            listeners: Vec::new(),
            connections: Vec::new(),
            events: Vec::new(),
            active_threats: 0,
            suspicious_count: 0,
            risky_ports: Vec::new(),
            unowned_listeners: 0,
            ssh_brute_force: Vec::new(),
            cron_entries: Vec::new(),
            systemd_timers: Vec::new(),
            suspicious_outbound: Vec::new(),
            logged_in_users: Vec::new(),
            auth_event_count_24h: 0,
            modified_packages: Vec::new(),
            auth_log_readable: false,
            score: 100,
            prev_score: 100,
            focused_panel: SecurityPanel::Listeners,
            listener_scroll: 0,
            connection_scroll: 0,
            event_scroll: 0,
            selected_index: 0,
            detail_popup: false,
            last_refresh: None,
            slow_refresh_count: 0,
        }
    }
}

/// The score the state's findings earn.
pub open spec fn state_score(st: SecurityState) -> int {
    spec_security_score(
        st.active_threats as nat,
        st.suspicious_count as nat,
        st.unowned_listeners as nat,
        st.risky_ports@.len(),
        st.auth_log_readable,
        st.modified_packages@.len(),
        st.ssh_brute_force@.len(),
        st.suspicious_outbound@.len(),
    )
}

/// The penalty sum fits the 32-bit arithmetic the score is computed in.
pub open spec fn score_inputs_fit(st: SecurityState) -> bool {
    st.active_threats * 20 + st.suspicious_count * 10 + st.unowned_listeners * 5
        + st.risky_ports@.len() * 5 + st.modified_packages@.len() * 2 + st.ssh_brute_force@.len() * 15
        + st.suspicious_outbound@.len() * 5 <= 2147483647
}

/// Number of items the focused panel lists.
pub open spec fn spec_focused_item_count(st: SecurityState) -> nat {
    match st.focused_panel {
        SecurityPanel::Listeners => st.listeners@.len(),
        SecurityPanel::Connections => st.connections@.len(),
        SecurityPanel::Timeline => st.events@.len(),
        _ => 0,
    }
}

/// Scroll offset of the focused panel (panels without a list have none).
pub open spec fn spec_focused_scroll(st: SecurityState) -> usize {
    match st.focused_panel {
        SecurityPanel::Listeners => st.listener_scroll,
        SecurityPanel::Connections => st.connection_scroll,
        SecurityPanel::Timeline => st.event_scroll,
        _ => 0,
    }
}

impl SecurityState {
    /// Focus a panel and reset the selection.
    pub fn focus_panel(&mut self, panel: SecurityPanel)
        ensures
            *final(self) == (SecurityState { focused_panel: panel, selected_index: 0, ..*old(self) }),
    {
        self.focused_panel = panel;
        self.selected_index = 0;
    }

    /// Number of items in the currently focused panel.
    pub fn focused_item_count(&self) -> (n: usize)
        ensures
            n == spec_focused_item_count(*self),
    {
        match self.focused_panel {
            SecurityPanel::Listeners => self.listeners.len(),
            SecurityPanel::Connections => self.connections.len(),
            SecurityPanel::Timeline => self.events.len(),
            SecurityPanel::ThreatSummary => 0,
            SecurityPanel::Integrity => 0,
        }
    }

    /// Scroll offset for the currently focused panel.
    pub fn focused_scroll(&self) -> (n: usize)
        ensures
            n == spec_focused_scroll(*self),
    {
        match self.focused_panel {
            SecurityPanel::Listeners => self.listener_scroll,
            SecurityPanel::Connections => self.connection_scroll,
            SecurityPanel::Timeline => self.event_scroll,
            _ => 0,
        }
    }

    /// Set the scroll offset of the focused panel; panels without a list keep none.
    pub fn set_focused_scroll(&mut self, offset: usize)
        ensures
            *final(self) == (match old(self).focused_panel {
                SecurityPanel::Listeners => SecurityState { listener_scroll: offset, ..*old(self) },
                SecurityPanel::Connections => SecurityState { connection_scroll: offset, ..*old(self) },
                SecurityPanel::Timeline => SecurityState { event_scroll: offset, ..*old(self) },
                _ => *old(self),
            }),
    {
        match self.focused_panel {
            SecurityPanel::Listeners => self.listener_scroll = offset,
            SecurityPanel::Connections => self.connection_scroll = offset,
            SecurityPanel::Timeline => self.event_scroll = offset,
            _ => {},
        }
    }

    /// Score display label.
    pub fn score_label(&self) -> (r: &'static str)
        ensures
            r@ == spec_score_label(self.score),
    {
        score_label(self.score)
    }
}

/// Compute the security score (0-100) from the current state.
///
/// Starts at 100 and applies weighted penalties: active threats −20 each,
/// suspicious processes −10, unowned listeners −5, risky ports −5, an unreadable
/// auth log −3, modified packages −2 each, SSH brute-force sources −15
/// each, and suspicious outbound connections −5 each for at most −20.
pub fn compute_security_score(state: &SecurityState) -> (r: u8)
    requires
        score_inputs_fit(*state),
    ensures
        r as int == state_score(*state),
{
    let threats = state.active_threats as i64;
    let suspicious = state.suspicious_count as i64;
    let unowned = state.unowned_listeners as i64;
    let risky = state.risky_ports.len() as i64;
    let ssh = state.ssh_brute_force.len() as i64;
    let outbound = state.suspicious_outbound.len() as i64;
    let mut score: i64 = 100;
    score = score - threats * (SCORE_PENALTY_THREAT as i64);
    score = score - suspicious * (SCORE_PENALTY_SUSPICIOUS as i64);
    score = score - unowned * (SCORE_PENALTY_UNOWNED_LISTENER as i64);
    score = score - risky * (SCORE_PENALTY_RISKY_PORT as i64);
    if !state.auth_log_readable {
        score = score - SCORE_PENALTY_NO_AUTH_LOG as i64;
    }
    let pkgs = state.modified_packages.len() as i64;
    score = score - pkgs * (SCORE_PENALTY_MODIFIED_PKG as i64);
    score = score - ssh * (SCORE_PENALTY_SSH_BRUTE_FORCE as i64);
    let outbound_penalty = outbound * (SCORE_PENALTY_SUSPICIOUS_OUTBOUND as i64);
    score = score - if outbound_penalty < SCORE_SUSPICIOUS_OUTBOUND_CAP as i64 {
        outbound_penalty
    } else {
        SCORE_SUSPICIOUS_OUTBOUND_CAP as i64
    };
    if score < 0 {
        0
    } else if score > 100 {
        100
    } else {
        score as u8
    }
}


// ── Suspicious outbound connections ───────────────────────────────

/// Most outbound connections reported at once.
pub const MAX_SUSPICIOUS_OUTBOUND: usize = 20;

/// Destination ports expected for ordinary outbound traffic.
pub open spec fn is_standard_outbound_port(port: u16) -> bool {
    port == 22 || port == 53 || port == 80 || port == 123 || port == 443 || port == 465 || port
        == 587 || port == 853 || port == 993 || port == 995 || port == 8443
}

fn standard_outbound_port(port: u16) -> (r: bool)
    ensures
        r == is_standard_outbound_port(port),
{
    port == 22 || port == 53 || port == 80 || port == 123 || port == 443 || port == 465 || port
        == 587 || port == 853 || port == 993 || port == 995 || port == 8443
}

/// Loopback or unspecified remote addresses, which are never flagged.
pub open spec fn is_local_remote(addr: Seq<char>) -> bool {
    spec_starts_with(addr, "127."@) || addr == "::1"@ || addr == "0.0.0.0"@
}

pub open spec fn outbound_flagged(c: ConnectionInfo) -> bool {
    !is_local_remote(c.remote_addr@) && !is_standard_outbound_port(c.remote_port)
}

/// The flagged connections of `s`, in order.
pub open spec fn flagged_connections(s: Seq<ConnectionInfo>) -> Seq<ConnectionInfo>
    decreases s.len(),
{
    if s.len() == 0 {
        Seq::empty()
    } else if outbound_flagged(s.last()) {
        flagged_connections(s.drop_last()).push(s.last())
    } else {
        flagged_connections(s.drop_last())
    }
}

/// `o` reports connection `c`.
pub open spec fn outbound_reports(o: SuspiciousOutbound, c: ConnectionInfo) -> bool {
    &&& o.process_name@ == c.process_name@
    &&& o.pid == c.pid
    &&& o.remote_addr@ == c.remote_addr@
    &&& o.remote_port == c.remote_port
    &&& o.local_port == c.local_port
}

/// Analyze established connections for suspicious outbound traffic.
///
/// Flags connections to remote ports outside the standard set, skipping loopback
/// and unspecified remotes, and reports at most `MAX_SUSPICIOUS_OUTBOUND` of them.
pub fn analyze_suspicious_outbound(connections: &[ConnectionInfo]) -> (r: Vec<SuspiciousOutbound>)
    ensures
        r@.len() == (if flagged_connections(connections@).len() < MAX_SUSPICIOUS_OUTBOUND {
            flagged_connections(connections@).len()
        } else {
            MAX_SUSPICIOUS_OUTBOUND as nat
        }),
        forall|i: int|
            0 <= i < r@.len() ==> outbound_reports(#[trigger] r@[i], flagged_connections(connections@)[i]),
{
    let mut out: Vec<SuspiciousOutbound> = Vec::new();
    let mut i: usize = 0;
    proof {
        assert(connections@.take(0) =~= Seq::<ConnectionInfo>::empty());
    }
    while i < connections.len() && out.len() < MAX_SUSPICIOUS_OUTBOUND
        invariant
            i <= connections@.len(),
            out@.len() <= MAX_SUSPICIOUS_OUTBOUND,
            out@.len() == flagged_connections(connections@.take(i as int)).len(),
            forall|j: int|
                0 <= j < out@.len() ==> outbound_reports(#[trigger] out@[j], flagged_connections(connections@.take(i as int))[j]),
        decreases connections@.len() - i,
    {
        let c = &connections[i];
        let addr = chars_of(c.remote_addr.as_str());
        let local = starts_with_str(addr.as_slice(), "127.") || eq_str(addr.as_slice(), "::1")
            || eq_str(addr.as_slice(), "0.0.0.0");
        proof {
            assert(connections@.take(i + 1).drop_last() =~= connections@.take(i as int));
            assert(connections@.take(i + 1).last() == connections@[i as int]);
        }
        if !local && !standard_outbound_port(c.remote_port) {
            out.push(
                SuspiciousOutbound {
                    process_name: c.process_name.clone(),
                    pid: c.pid,
                    remote_addr: c.remote_addr.clone(),
                    remote_port: c.remote_port,
                    local_port: c.local_port,
                },
            );
        }
        i += 1;
    }
    proof {
        lemma_flagged_prefix_grows(connections@, i as int);
        if i == connections@.len() {
            assert(connections@.take(i as int) =~= connections@);
        }
    }
    out
}

/// Flagged connections of a prefix are a prefix of the flagged connections.
proof fn lemma_flagged_prefix_grows(s: Seq<ConnectionInfo>, i: int)
    requires
        0 <= i <= s.len(),
    ensures
        flagged_connections(s.take(i)).len() <= flagged_connections(s).len(),
        forall|j: int|
            0 <= j < flagged_connections(s.take(i)).len() ==> #[trigger] flagged_connections(s.take(i))[j]
                == flagged_connections(s)[j],
    decreases s.len() - i,
{
    if i < s.len() {
        lemma_flagged_prefix_grows(s, i + 1);
        assert(s.take(i + 1).drop_last() =~= s.take(i));
        let a = flagged_connections(s.take(i));
        let b = flagged_connections(s.take(i + 1));
        assert(b == a || b == a.push(s.take(i + 1).last()));
        assert forall|j: int| 0 <= j < a.len() implies #[trigger] a[j] == flagged_connections(s)[j] by {
            assert(a[j] == b[j]);
        }
    } else {
        assert(s.take(i) =~= s);
    }
}

// ── auth.log lines ────────────────────────────────────────────────

/// Source IP and target user of a "Failed password" line.
pub open spec fn spec_failed_ssh_info(line: Seq<char>) -> Option<(Seq<char>, Seq<char>)> {
    match spec_find(line, "from "@) {
        None => None,
        Some(fp) => {
            let after = line.skip(fp + 5);
            if spec_words(after).len() == 0 {
                None
            } else {
                let ip = spec_words(after)[0];
                let user = match spec_find(line, "for invalid user "@) {
                    Some(p) => first_word_or_unknown(line.skip(p + 17)),
                    None => match spec_find(line, "for "@) {
                        Some(p) => first_word_or_unknown(line.skip(p + 4)),
                        None => "?"@,
                    },
                };
                Some((ip, user))
            }
        },
    }
}

/// The first word of `s`, or `?` when it has none.
pub open spec fn first_word_or_unknown(s: Seq<char>) -> Seq<char> {
    if spec_words(s).len() == 0 {
        "?"@
    } else {
        spec_words(s)[0]
    }
}

fn first_word_or_question(s: &[char]) -> (r: Vec<char>)
    ensures
        r@ == first_word_or_unknown(s@),
{
    match first_word(s) {
        Some(w) => w,
        None => chars_of("?"),
    }
}

/// Extract source IP and target username from a "Failed password" auth.log line:
/// `... Failed password for [invalid user] <user> from <ip> port ...`.
pub fn extract_failed_ssh_info(line: &str) -> (r: Option<(String, String)>)
    ensures
        match r {
            Some((ip, user)) => spec_failed_ssh_info(line@) == Some((ip@, user@)),
            None => spec_failed_ssh_info(line@) is None,
        },
{
    let cs = chars_of(line);
    let l = cs.as_slice();
    let from_pos = match find_str(l, "from ") {
        Some(p) => p,
        None => return None,
    };
    proof {
        reveal_strlit("from ");
        reveal_strlit("for invalid user ");
        reveal_strlit("for ");
    }
    assert(from_pos + 5 <= cs.len()) by {
        reveal_strlit("from ");
    }
    let after = sub_chars(l, from_pos + 5, l.len());
    proof {
        assert(after@ =~= l@.skip(from_pos + 5));
    }
    let ip = match first_word(after.as_slice()) {
        Some(w) => w,
        None => return None,
    };
    let user = match find_str(l, "for invalid user ") {
        Some(p) => {
            let rest = sub_chars(l, p + 17, l.len());
            proof {
                assert(rest@ =~= l@.skip(p + 17));
            }
            first_word_or_question(rest.as_slice())
        },
        None => match find_str(l, "for ") {
            Some(p) => {
                let rest = sub_chars(l, p + 4, l.len());
                proof {
                    assert(rest@ =~= l@.skip(p + 4));
                }
                first_word_or_question(rest.as_slice())
            },
            None => chars_of("?"),
        },
    };
    Some((string_of(ip.as_slice()), string_of(user.as_slice())))
}

/// `extract_auth_detail`: up to 80 characters starting at `keyword`, or of the whole line.
pub open spec fn spec_auth_detail(line: Seq<char>, keyword: Seq<char>) -> Seq<char> {
    match spec_find(line, keyword) {
        Some(pos) => take_chars(line.skip(pos), 80),
        None => take_chars(line, 80),
    }
}

/// Extract meaningful detail from a "Failed password" or "Accepted" auth.log line.
pub fn extract_auth_detail(line: &str, keyword: &str) -> (r: String)
    ensures
        r@ == spec_auth_detail(line@, keyword@),
{
    let cs = chars_of(line);
    let l = cs.as_slice();
    let v = match find_str(l, keyword) {
        Some(pos) => {
            let rest = sub_chars(l, pos, l.len());
            proof {
                assert(rest@ =~= l@.skip(pos as int));
            }
            prefix_chars(rest.as_slice(), 80)
        },
        None => prefix_chars(l, 80),
    };
    string_of(v.as_slice())
}

/// `extract_sudo_detail`: up to 80 characters of the trimmed text after `sudo:`, or of the line.
pub open spec fn spec_sudo_detail(line: Seq<char>) -> Seq<char> {
    match spec_find(line, "sudo:"@) {
        Some(pos) => take_chars(spec_trim(line.skip(pos + 5)), 80),
        None => take_chars(line, 80),
    }
}

/// Extract meaningful detail from a sudo line.
pub fn extract_sudo_detail(line: &str) -> (r: String)
    ensures
        r@ == spec_sudo_detail(line@),
{
    let cs = chars_of(line);
    let l = cs.as_slice();
    proof {
        reveal_strlit("sudo:");
    }
    let v = match find_str(l, "sudo:") {
        Some(pos) => {
            assert(pos + 5 <= cs.len());
            let rest = sub_chars(l, pos + 5, l.len());
            proof {
                assert(rest@ =~= l@.skip(pos + 5));
            }
            let t = trim(rest.as_slice());
            prefix_chars(t.as_slice(), 80)
        },
        None => prefix_chars(l, 80),
    };
    string_of(v.as_slice())
}


// ── Cron entries ──────────────────────────────────────────────────

/// Lines whose first field starts with a digit, `*` or `@` look like cron entries.
pub open spec fn cron_lead_ok(c: char) -> bool {
    is_digit(c) || c == '*' || c == '@'
}

/// The first five pieces joined with single spaces (the schedule).
pub open spec fn join_schedule(p: Seq<Seq<char>>) -> Seq<char> {
    p[0] + " "@ + p[1] + " "@ + p[2] + " "@ + p[3] + " "@ + p[4]
}

/// Inputs on which `parse_cron_line` does not panic: for an `@` shorthand the
/// byte length of the first word falls on a character boundary of the line.
pub open spec fn cron_line_ok(line: Seq<char>) -> bool {
    let w = spec_words(line);
    w.len() > 0 && w[0].len() > 0 && w[0][0] == '@' ==> is_boundary(line, byte_len(w[0]) as int)
}

/// `parse_cron_line`: `(schedule, command)` of a user crontab line.
pub open spec fn spec_parse_cron_line(line: Seq<char>) -> Option<(Seq<char>, Seq<char>)> {
    let w = spec_words(line);
    if w.len() == 0 || w[0].len() == 0 || !cron_lead_ok(w[0][0]) {
        None
    } else if w[0][0] == '@' {
        let cmd = spec_trim(line.skip(char_index_at(line, byte_len(w[0]) as int)));
        if cmd.len() == 0 {
            None
        } else {
            Some((w[0], cmd))
        }
    } else {
        let parts = spec_splitn_ws(line, 6);
        if parts.len() < 6 {
            None
        } else {
            Some((join_schedule(parts), parts[5]))
        }
    }
}

fn join_schedule_exec(parts: &Vec<Vec<char>>) -> (r: Vec<char>)
    requires
        parts@.len() >= 5,
    ensures
        r@ == parts@[0]@ + " "@ + parts@[1]@ + " "@ + parts@[2]@ + " "@ + parts@[3]@ + " "@
            + parts@[4]@,
{
    let mut v = copy_chars(parts[0].as_slice());
    push_str(&mut v, " ");
    push_all(&mut v, parts[1].as_slice());
    push_str(&mut v, " ");
    push_all(&mut v, parts[2].as_slice());
    push_str(&mut v, " ");
    push_all(&mut v, parts[3].as_slice());
    push_str(&mut v, " ");
    push_all(&mut v, parts[4].as_slice());
    v
}

/// Parse a user crontab line into `(schedule, command)`.
///
/// Format: `min hour dom mon dow command...`, or a shorthand such as
/// `@reboot command...`. Returns `None` for lines that don't look like cron entries.
pub fn parse_cron_line(line: &str) -> (r: Option<(String, String)>)
    requires
        cron_line_ok(line@),
    ensures
        match r {
            Some((sched, cmd)) => spec_parse_cron_line(line@) == Some((sched@, cmd@)),
            None => spec_parse_cron_line(line@) is None,
        },
{
    let cs = chars_of(line);
    let l = cs.as_slice();
    let first = match first_word(l) {
        Some(w) => w,
        None => return None,
    };
    let c = first[0];
    if !(('0' <= c && c <= '9') || c == '*' || c == '@') {
        return None;
    }
    if c == '@' {
        let first_str = string_of(first.as_slice());
        let n = str_byte_len(first_str.as_str());
        let k = match char_index_at_byte(l, n) {
            Some(k) => k,
            None => return None,
        };
        let rest = sub_chars(l, k, l.len());
        proof {
            assert(rest@ =~= l@.skip(k as int));
        }
        let cmd = trim(rest.as_slice());
        if cmd.len() == 0 {
            return None;
        }
        return Some((first_str, string_of(cmd.as_slice())));
    }
    let parts = splitn_ws(l, 6);
    if parts.len() < 6 {
        return None;
    }
    let sched = join_schedule_exec(&parts);
    Some((string_of(sched.as_slice()), string_of(parts[5].as_slice())))
}

/// `parse_system_cron_line`: `(schedule, command)` of a system crontab line, whose
/// sixth field names the user.
pub open spec fn spec_parse_system_cron_line(line: Seq<char>) -> Option<(Seq<char>, Seq<char>)> {
    let parts = spec_splitn_ws(line, 7);
    if parts.len() < 7 || parts[0].len() == 0 || !cron_lead_ok(parts[0][0]) {
        None
    } else {
        Some((join_schedule(parts), parts[6]))
    }
}

/// Parse a system crontab line (`min hour dom mon dow user command...`).
pub fn parse_system_cron_line(line: &str) -> (r: Option<(String, String)>)
    ensures
        match r {
            Some((sched, cmd)) => spec_parse_system_cron_line(line@) == Some((sched@, cmd@)),
            None => spec_parse_system_cron_line(line@) is None,
        },
{
    let cs = chars_of(line);
    let parts = splitn_ws(cs.as_slice(), 7);
    if parts.len() < 7 {
        return None;
    }
    if parts[0].len() == 0 {
        return None;
    }
    let c = parts[0][0];
    if !(('0' <= c && c <= '9') || c == '*' || c == '@') {
        return None;
    }
    let sched = join_schedule_exec(&parts);
    Some((string_of(sched.as_slice()), string_of(parts[6].as_slice())))
}

} // verus!
