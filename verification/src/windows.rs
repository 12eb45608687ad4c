//! Windows host tab: the agent's data model (its integer and text parts), the
//! tab's sort/panel state, display helpers, and the security alerts raised
//! from the host's security status.
//!
//! CPU, GPU and memory percentages are floating point and stay with the
//! application.

use vstd::prelude::*;
use vstd::utf8::encode_utf8;
use crate::market::{spec_truncate, truncate, truncate_ok};
use crate::security::{AlertCategory, AlertSeverity};
use crate::text::{chars_of, digit_char, eq_str, nat_to_dec, push_all, push_str, string_of, u64_to_dec};

verus! {

// ── Agent data model ──────────────────────────────────────────────

/// Disk drive information.
#[derive(Debug, Clone)]
pub struct WindowsDiskInfo {
    /// Drive letter or mount point (e.g. "C:").
    pub mount: String,
    pub total_bytes: u64,
    pub used_bytes: u64,
    /// Filesystem type (e.g. "NTFS").
    pub fs_type: String,
}

/// Network interface traffic counters.
#[derive(Debug, Clone)]
pub struct WindowsNetworkInfo {
    pub name: String,
    pub rx_bytes: u64,
    pub tx_bytes: u64,
}

/// Active TCP connection.
#[derive(Debug, Clone)]
pub struct WindowsTcpConnection {
    pub local_addr: String,
    pub local_port: u16,
    pub remote_addr: String,
    pub remote_port: u16,
    /// Connection state (ESTABLISHED, TIME_WAIT, ...).
    pub state: String,
    pub pid: u32,
    pub process_name: String,
}

/// A port in LISTENING state.
#[derive(Debug, Clone)]
pub struct WindowsListeningPort {
    pub port: u16,
    pub pid: u32,
    pub process_name: String,
    /// TCP or UDP.
    pub protocol: String,
}

/// Firewall status of one network profile.
#[derive(Debug, Clone)]
pub struct WindowsFirewallProfile {
    /// Domain, Private or Public.
    pub name: String,
    pub enabled: bool,
}

/// Windows security status summary.
#[derive(Debug, Clone)]
pub struct WindowsSecurityStatus {
    pub firewall_profiles: Vec<WindowsFirewallProfile>,
    /// Whether the antimalware service is enabled, when known.
    pub defender_enabled: Option<bool>,
    /// Whether real-time protection is enabled, when known.
    pub defender_realtime: Option<bool>,
    /// Days since the last update was installed, when known.
    pub last_update_days: Option<u64>,
}

/// A program configured to run at startup.
#[derive(Debug, Clone)]
pub struct WindowsStartupEntry {
    pub name: String,
    pub command: String,
    /// Registry location or source.
    pub location: String,
}

/// A logged-in user session.
#[derive(Debug, Clone)]
pub struct WindowsUserSession {
    pub username: String,
    /// Console, RDP, ...
    pub session_type: String,
    /// Active, Disconnected, ...
    pub state: String,
}

/// Agent health response.
#[derive(Debug, Clone)]
pub struct AgentStatus {
    pub version: String,
    pub uptime_secs: u64,
    pub collecting: bool,
}

// ── Sort field and panels ─────────────────────────────────────────

/// Column the process list is sorted by.
#[derive(Debug, Clone, Copy, PartialEq, Eq, Structural)]
pub enum WindowsSortField {
    Cpu,
    Memory,
    Pid,
    Name,
}

/// The field after `f` in the sort cycle.
pub open spec fn field_next(f: WindowsSortField) -> WindowsSortField {
    match f {
        WindowsSortField::Cpu => WindowsSortField::Memory,
        WindowsSortField::Memory => WindowsSortField::Pid,
        WindowsSortField::Pid => WindowsSortField::Name,
        WindowsSortField::Name => WindowsSortField::Cpu,
    }
}

/// Column header text of each field.
pub open spec fn field_label(f: WindowsSortField) -> Seq<char> {
    match f {
        WindowsSortField::Cpu => "CPU %"@,
        WindowsSortField::Memory => "Memory"@,
        WindowsSortField::Pid => "PID"@,
        WindowsSortField::Name => "Name"@,
    }
}

impl WindowsSortField {
    /// Rotate to the next sort field.
    pub fn next(self) -> (r: WindowsSortField)
        ensures
            r == field_next(self),
    {
        match self {
            WindowsSortField::Cpu => WindowsSortField::Memory,
            WindowsSortField::Memory => WindowsSortField::Pid,
            WindowsSortField::Pid => WindowsSortField::Name,
            WindowsSortField::Name => WindowsSortField::Cpu,
        }
    }

    /// Column header label.
    pub fn label(self) -> (r: &'static str)
        ensures
            r@ == field_label(self),
    {
        match self {
            WindowsSortField::Cpu => "CPU %",
            WindowsSortField::Memory => "Memory",
            WindowsSortField::Pid => "PID",
            WindowsSortField::Name => "Name",
        }
    }
}

/// Which panel is focused in the Windows tab.
#[derive(Debug, Clone, Copy, PartialEq, Eq, Structural)]
pub enum WindowsPanel {
    SystemOverview,
    ProcessList,
    Security,
    Connections,
    Disks,
    Network,
    StartupPrograms,
    AiAnalysis,
}

/// The panel after `p` in the focus cycle.
pub open spec fn panel_after(p: WindowsPanel) -> WindowsPanel {
    match p {
        WindowsPanel::SystemOverview => WindowsPanel::ProcessList,
        WindowsPanel::ProcessList => WindowsPanel::Security,
        WindowsPanel::Security => WindowsPanel::Connections,
        WindowsPanel::Connections => WindowsPanel::Disks,
        WindowsPanel::Disks => WindowsPanel::Network,
        WindowsPanel::Network => WindowsPanel::StartupPrograms,
        WindowsPanel::StartupPrograms => WindowsPanel::AiAnalysis,
        WindowsPanel::AiAnalysis => WindowsPanel::SystemOverview,
    }
}

impl WindowsPanel {
    /// Cycle to the next panel.
    pub fn next(self) -> (r: WindowsPanel)
        ensures
            r == panel_after(self),
    {
        match self {
            WindowsPanel::SystemOverview => WindowsPanel::ProcessList,
            WindowsPanel::ProcessList => WindowsPanel::Security,
            WindowsPanel::Security => WindowsPanel::Connections,
            WindowsPanel::Connections => WindowsPanel::Disks,
            WindowsPanel::Disks => WindowsPanel::Network,
            WindowsPanel::Network => WindowsPanel::StartupPrograms,
            WindowsPanel::StartupPrograms => WindowsPanel::AiAnalysis,
            WindowsPanel::AiAnalysis => WindowsPanel::SystemOverview,
        }
    }
}

/// `n` steps of the sort-field cycle.
pub open spec fn field_next_n(f: WindowsSortField, n: nat) -> WindowsSortField
    decreases n,
{
    if n == 0 {
        f
    } else {
        field_next(field_next_n(f, (n - 1) as nat))
    }
}

/// `n` steps of the panel cycle.
pub open spec fn panel_after_n(p: WindowsPanel, n: nat) -> WindowsPanel
    decreases n,
{
    if n == 0 {
        p
    } else {
        panel_after(panel_after_n(p, (n - 1) as nat))
    }
}

/// The sort field cycles through all four fields and the panel focus through
/// all eight panels before coming back to where it started.
pub proof fn lemma_windows_cycles(f: WindowsSortField, p: WindowsPanel)
    ensures
        field_next_n(f, 4) == f,
        forall|i: nat, j: nat| i < j < 4 ==> field_next_n(f, i) != field_next_n(f, j),
        panel_after_n(p, 8) == p,
        forall|i: nat, j: nat| i < j < 8 ==> panel_after_n(p, i) != panel_after_n(p, j),
{
    reveal_with_fuel(field_next_n, 5);
    reveal_with_fuel(panel_after_n, 9);
}

// ── Tab state ─────────────────────────────────────────────────────

/// State of the Windows tab. The latest snapshot carries percentages and is
/// kept beside it by the application, which passes in how many processes it
/// lists where that matters.
pub struct WindowsState {
    /// Whether data is loading.
    pub loading: bool,
    /// Connection error message.
    pub error: Option<String>,
    /// Selected row of the process list.
    pub selected_process: usize,
    /// Scroll offset of the process list.
    pub scroll_offset: usize,
    /// Whether the agent answered last time.
    pub agent_connected: bool,
    pub sort_field: WindowsSortField,
    /// Ascending when true, descending when false.
    pub sort_ascending: bool,
    /// The focused panel, if any.
    pub focused_panel: Option<WindowsPanel>,
    /// AI security analysis text.
    pub ai_analysis: Option<String>,
    /// Whether an AI analysis is streaming.
    pub ai_loading: bool,
    pub ai_scroll: usize,
}

/// The last index of a process list of `count` entries; zero when there is no
/// snapshot or it lists none.
pub open spec fn last_process(count: Option<usize>) -> int {
    match count {
        Some(n) => if n > 0 {
            n - 1
        } else {
            0
        },
        None => 0,
    }
}

/// `s` is the state of a tab that has not heard from the agent yet.
pub open spec fn fresh_windows_state(s: WindowsState) -> bool {
    &&& s.loading
    &&& s.error is None
    &&& s.selected_process == 0
    &&& s.scroll_offset == 0
    &&& !s.agent_connected
    &&& s.sort_field == WindowsSortField::Cpu
    &&& !s.sort_ascending
    &&& s.focused_panel is None
    &&& s.ai_analysis is None
    &&& !s.ai_loading
    &&& s.ai_scroll == 0
}

impl WindowsState {
    /// State of a tab that has not heard from the agent yet.
    pub fn new() -> (s: WindowsState)
        ensures
            fresh_windows_state(s),
    {
        WindowsState {
            loading: true,
            error: None,
            selected_process: 0,
            scroll_offset: 0,
            agent_connected: false,
            sort_field: WindowsSortField::Cpu,
            sort_ascending: false,
            focused_panel: None,
            ai_analysis: None,
            ai_loading: false,
            ai_scroll: 0,
        }
    }

    /// Move the process selection up, scrolling up with it.
    pub fn move_selection_up(&mut self)
        ensures
            final(self).selected_index_up(*old(self)),
            *final(self) == (WindowsState {
                selected_process: final(self).selected_process,
                scroll_offset: final(self).scroll_offset,
                ..*old(self)
            }),
    {
        if self.selected_process > 0 {
            self.selected_process = self.selected_process - 1;
            if self.selected_process < self.scroll_offset {
                self.scroll_offset = self.selected_process;
            }
        }
    }

    /// What moving up does to the selection and scroll offset.
    pub open spec fn selected_index_up(self, before: WindowsState) -> bool {
        if before.selected_process > 0 {
            &&& self.selected_process == before.selected_process - 1
            &&& self.scroll_offset == if self.selected_process < before.scroll_offset {
                self.selected_process
            } else {
                before.scroll_offset
            }
        } else {
            self.selected_process == before.selected_process && self.scroll_offset
                == before.scroll_offset
        }
    }

    /// Move the process selection down within a list of `process_count` rows
    /// (`None` when there is no snapshot).
    pub fn move_selection_down(&mut self, process_count: Option<usize>)
        ensures
            final(self).selected_process == if old(self).selected_process < last_process(process_count) {
                old(self).selected_process + 1
            } else {
                old(self).selected_process as int
            },
            *final(self) == (WindowsState { selected_process: final(self).selected_process, ..*old(self) }),
    {
        let max: usize = match process_count {
            Some(n) => if n > 0 {
                n - 1
            } else {
                0
            },
            None => 0,
        };
        if self.selected_process < max {
            self.selected_process = self.selected_process + 1;
        }
    }

    /// Next sort field, selection back at the top.
    pub fn cycle_sort(&mut self)
        ensures
            *final(self) == (WindowsState {
                sort_field: field_next(old(self).sort_field),
                selected_process: 0,
                scroll_offset: 0,
                ..*old(self)
            }),
    {
        self.sort_field = self.sort_field.next();
        self.selected_process = 0;
        self.scroll_offset = 0;
    }

    /// Flip the sort direction, selection back at the top.
    pub fn toggle_sort_direction(&mut self)
        ensures
            *final(self) == (WindowsState {
                sort_ascending: !old(self).sort_ascending,
                selected_process: 0,
                scroll_offset: 0,
                ..*old(self)
            }),
    {
        self.sort_ascending = !self.sort_ascending;
        self.selected_process = 0;
        self.scroll_offset = 0;
    }

    /// Enter focus mode on the process list, or leave focus mode.
    pub fn toggle_panel_focus(&mut self)
        ensures
            *final(self) == (WindowsState {
                focused_panel: if old(self).focused_panel is Some {
                    None
                } else {
                    Some(WindowsPanel::ProcessList)
                },
                ..*old(self)
            }),
    {
        if self.focused_panel.is_some() {
            self.focused_panel = None;
        } else {
            self.focused_panel = Some(WindowsPanel::ProcessList);
        }
    }

    /// In focus mode, move the focus to the next panel.
    pub fn cycle_panel_forward(&mut self)
        ensures
            *final(self) == (WindowsState {
                focused_panel: match old(self).focused_panel {
                    Some(p) => Some(panel_after(p)),
                    None => None,
                },
                ..*old(self)
            }),
    {
        if let Some(panel) = self.focused_panel {
            self.focused_panel = Some(panel.next());
        }
    }
}

// ── Display helpers ───────────────────────────────────────────────

/// "Xd Yh Zm", "Yh Zm" or "Zm" for an uptime of `secs` seconds.
pub open spec fn spec_uptime(secs: nat) -> Seq<char> {
    let days = secs / 86400;
    let hours = (secs % 86400) / 3600;
    let mins = (secs % 3600) / 60;
    if days > 0 {
        nat_to_dec(days) + "d "@ + nat_to_dec(hours) + "h "@ + nat_to_dec(mins) + "m"@
    } else if hours > 0 {
        nat_to_dec(hours) + "h "@ + nat_to_dec(mins) + "m"@
    } else {
        nat_to_dec(mins) + "m"@
    }
}

/// Human-readable uptime.
pub fn format_uptime(secs: u64) -> (r: String)
    ensures
        r@ == spec_uptime(secs as nat),
{
    let days = secs / 86400;
    let hours = (secs % 86400) / 3600;
    let mins = (secs % 3600) / 60;
    let mut v: Vec<char>;
    if days > 0 {
        v = u64_to_dec(days);
        push_str(&mut v, "d ");
        let h = u64_to_dec(hours);
        push_all(&mut v, h.as_slice());
        push_str(&mut v, "h ");
        let m = u64_to_dec(mins);
        push_all(&mut v, m.as_slice());
        push_str(&mut v, "m");
    } else if hours > 0 {
        v = u64_to_dec(hours);
        push_str(&mut v, "h ");
        let m = u64_to_dec(mins);
        push_all(&mut v, m.as_slice());
        push_str(&mut v, "m");
    } else {
        v = u64_to_dec(mins);
        push_str(&mut v, "m");
    }
    string_of(v.as_slice())
}

/// Number of binary digits of `n`.
pub open spec fn bit_len(n: nat) -> nat
    decreases n,
{
    if n == 0 {
        0
    } else {
        1 + bit_len(n / 2)
    }
}

/// `2^e`.
pub open spec fn pow2n(e: nat) -> nat
    decreases e,
{
    if e == 0 {
        1
    } else {
        2 * pow2n((e - 1) as nat)
    }
}

/// `q` or `q + 1`: the nearer of the two to `q + r / d`, the even one on a tie.
pub open spec fn round_half_even(q: nat, r: nat, d: nat) -> nat {
    if 2 * r > d || (2 * r == d && q % 2 == 1) {
        q + 1
    } else {
        q
    }
}

/// The value `n as f64` holds: `n` rounded to 53 significant bits, ties to even.
pub open spec fn f64_value(n: nat) -> nat {
    if bit_len(n) <= 53 {
        n
    } else {
        let u = pow2n((bit_len(n) - 53) as nat);
        round_half_even(n / u, n % u, u) * u
    }
}

/// Tenths of `x / d`, rounded to nearest with ties to even: the digits `{:.1}`
/// prints for that exact value.
pub open spec fn round_tenths(x: nat, d: nat) -> nat {
    round_half_even((10 * x) / d, (10 * x) % d, d)
}

/// `t` tenths written with one decimal place.
pub open spec fn tenths_text(t: nat) -> Seq<char> {
    nat_to_dec(t / 10) + "."@ + seq![digit_char(t % 10)]
}

/// A byte count with one decimal in the largest unit that fits (GB, MB, KB),
/// or plain bytes.
pub open spec fn spec_format_bytes(b: nat) -> Seq<char> {
    if b >= 1073741824 {
        tenths_text(round_tenths(f64_value(b), 1073741824)) + " GB"@
    } else if b >= 1048576 {
        tenths_text(round_tenths(b, 1048576)) + " MB"@
    } else if b >= 1024 {
        tenths_text(round_tenths(b, 1024)) + " KB"@
    } else {
        nat_to_dec(b) + " B"@
    }
}

proof fn lemma_bit_len_bound(n: nat, k: nat)
    requires
        n < pow2n(k),
    ensures
        bit_len(n) <= k,
    decreases k,
{
    if n > 0 && k > 0 {
        lemma_bit_len_bound(n / 2, (k - 1) as nat);
    }
}

fn bits_of(n: u64) -> (bl: u64)
    ensures
        bl == bit_len(n as nat),
        bl <= 64,
{
    proof {
        reveal_with_fuel(pow2n, 65);
        assert(pow2n(64) == 0x1_0000_0000_0000_0000);
        lemma_bit_len_bound(n as nat, 64);
    }
    let mut m: u64 = n;
    let mut bl: u64 = 0;
    while m > 0
        invariant
            bit_len(n as nat) == bl + bit_len(m as nat),
            bit_len(n as nat) <= 64,
        decreases m,
    {
        m = m / 2;
        bl = bl + 1;
    }
    bl
}

fn pow2_exec(e: u64) -> (r: u128)
    requires
        e <= 64,
    ensures
        r == pow2n(e as nat),
        r <= 0x1_0000_0000_0000_0000,
{
    proof {
        reveal_with_fuel(pow2n, 65);
        assert(pow2n(64) == 0x1_0000_0000_0000_0000);
    }
    let mut r: u128 = 1;
    let mut i: u64 = 0;
    while i < e
        invariant
            i <= e <= 64,
            r == pow2n(i as nat),
            pow2n(64) == 0x1_0000_0000_0000_0000,
        decreases e - i,
    {
        proof {
            lemma_pow2n_mono((i + 1) as nat, 64);
            assert(pow2n((i + 1) as nat) == 2 * pow2n(i as nat));
        }
        r = r * 2;
        i = i + 1;
    }
    proof {
        lemma_pow2n_mono(e as nat, 64);
    }
    r
}

proof fn lemma_pow2n_mono(a: nat, b: nat)
    requires
        a <= b,
    ensures
        1 <= pow2n(a) <= pow2n(b),
    decreases b,
{
    if a < b {
        lemma_pow2n_mono(a, (b - 1) as nat);
    } else if a > 0 {
        lemma_pow2n_mono((a - 1) as nat, (a - 1) as nat);
    }
}

fn f64_value_exec(n: u64) -> (r: u128)
    ensures
        r == f64_value(n as nat),
        r <= 0x1_0000_0000_0000_0800,
{
    let bl = bits_of(n);
    if bl <= 53 {
        return n as u128;
    }
    let u = pow2_exec(bl - 53);
    proof {
        lemma_pow2n_mono(0, (bl - 53) as nat);
        lemma_pow2n_mono((bl - 53) as nat, 11);
        reveal_with_fuel(pow2n, 12);
    }
    let nn = n as u128;
    let q = nn / u;
    let r = nn % u;
    let q2 = if 2 * r > u || (2 * r == u && q % 2 == 1) {
        q + 1
    } else {
        q
    };
    assert(q * u + r == nn && q2 <= q + 1 && u <= 2048) by (nonlinear_arith)
        requires
            q == nn / u,
            r == nn % u,
            u >= 1,
            u <= 2048,
            q2 <= q + 1,
    ;
    assert(q2 * u <= nn + u) by (nonlinear_arith)
        requires
            q * u + r == nn,
            q2 <= q + 1,
            r >= 0,
    ;
    q2 * u
}

fn round_tenths_exec(x: u128, d: u128) -> (t: u64)
    requires
        1024 <= d <= 1073741824,
        x <= 0x1_0000_0000_0000_0800,
        x < d * 1024 || d == 1073741824,
    ensures
        t == round_tenths(x as nat, d as nat),
{
    let y = 10 * x;
    let q = y / d;
    let r = y % d;
    assert(r < d) by (nonlinear_arith)
        requires
            r == y % d,
            d >= 1024,
    ;
    if x < d * 1024 {
        assert(q <= 10240) by (nonlinear_arith)
            requires
                q == y / d,
                y == 10 * x,
                x < d * 1024,
                d >= 1024,
        ;
    } else {
        assert(q <= 0x100_0000_0000) by (nonlinear_arith)
            requires
                q == y / d,
                y == 10 * x,
                x <= 0x1_0000_0000_0000_0800,
                d == 1073741824,
        ;
    }
    let t = if 2 * r > d || (2 * r == d && q % 2 == 1) {
        q + 1
    } else {
        q
    };
    t as u64
}

fn tenths_text_exec(t: u64, unit: &str) -> (r: String)
    ensures
        r@ == tenths_text(t as nat) + unit@,
{
    let mut v = u64_to_dec(t / 10);
    push_str(&mut v, ".");
    v.push(digit_of(t % 10));
    push_str(&mut v, unit);
    proof {
        assert(v@ =~= tenths_text(t as nat) + unit@);
    }
    string_of(v.as_slice())
}

fn digit_of(d: u64) -> (c: char)
    requires
        d < 10,
    ensures
        c == digit_char(d as nat),
{
    let b: u8 = (d as u8) + 48;
    b as char
}

/// A byte count in GB, MB or KB with one decimal, or in bytes.
pub fn format_bytes(bytes: u64) -> (r: String)
    ensures
        r@ == spec_format_bytes(bytes as nat),
{
    if bytes >= 1073741824 {
        let f = f64_value_exec(bytes);
        let t = round_tenths_exec(f, 1073741824);
        tenths_text_exec(t, " GB")
    } else if bytes >= 1048576 {
        let t = round_tenths_exec(bytes as u128, 1048576);
        tenths_text_exec(t, " MB")
    } else if bytes >= 1024 {
        let t = round_tenths_exec(bytes as u128, 1024);
        tenths_text_exec(t, " KB")
    } else {
        let mut v = u64_to_dec(bytes);
        push_str(&mut v, " B");
        string_of(v.as_slice())
    }
}

/// Shortens `s` to at most `max` bytes, marking the cut with "...".
pub fn truncate_str(s: &str, max: usize) -> (r: String)
    requires
        truncate_ok(s@, max as int),
    ensures
        r@ == spec_truncate(s@, max as int),
{
    truncate(s, max)
}

/// Sort indicator arrow.
pub open spec fn spec_sort_arrow(ascending: bool) -> Seq<char> {
    if ascending {
        "▲"@
    } else {
        "▼"@
    }
}

/// Sort indicator arrow for column headers.
pub fn sort_arrow(ascending: bool) -> (r: &'static str)
    ensures
        r@ == spec_sort_arrow(ascending),
{
    if ascending {
        "▲"
    } else {
        "▼"
    }
}

/// A column header, with the sort arrow when `field` is the active one.
pub fn column_label(label: &str, field: WindowsSortField, active: WindowsSortField, ascending: bool) -> (r: String)
    ensures
        r@ == if field == active {
            label@ + spec_sort_arrow(ascending)
        } else {
            label@
        },
{
    let mut v = chars_of(label);
    if field == active {
        push_str(&mut v, sort_arrow(ascending));
    }
    string_of(v.as_slice())
}

/// Remote ports considered ordinary for outgoing traffic.
pub open spec fn is_standard_port(port: u16) -> bool {
    port == 20 || port == 21 || port == 22 || port == 25 || port == 53 || port == 80 || port == 110
        || port == 123 || port == 143 || port == 443 || port == 465 || port == 587 || port == 993
        || port == 995 || port == 3389 || port == 8080 || port == 8443
}

/// Whether a connection to `port` looks suspicious: the port is not a standard one.
pub fn is_suspicious_port(port: u16) -> (r: bool)
    ensures
        r == !is_standard_port(port),
{
    !(port == 20 || port == 21 || port == 22 || port == 25 || port == 53 || port == 80 || port
        == 110 || port == 123 || port == 143 || port == 443 || port == 465 || port == 587 || port
        == 993 || port == 995 || port == 3389 || port == 8080 || port == 8443)
}

/// An established connection to a non-standard remote port.
pub open spec fn connection_suspicious(c: WindowsTcpConnection) -> bool {
    c.state@ == "ESTABLISHED"@ && !is_standard_port(c.remote_port)
}

/// Whether `c` is an established connection to a non-standard remote port.
pub fn is_suspicious_connection(c: &WindowsTcpConnection) -> (r: bool)
    ensures
        r == connection_suspicious(*c),
{
    let st = chars_of(c.state.as_str());
    eq_str(st.as_slice(), "ESTABLISHED") && is_suspicious_port(c.remote_port)
}

/// How many of `conns` satisfy `connection_suspicious`.
pub open spec fn count_suspicious(conns: Seq<WindowsTcpConnection>) -> nat
    decreases conns.len(),
{
    if conns.len() == 0 {
        0
    } else {
        count_suspicious(conns.drop_last()) + if connection_suspicious(conns.last()) {
            1nat
        } else {
            0nat
        }
    }
}

/// Number of suspicious connections.
pub fn suspicious_connection_count(conns: &[WindowsTcpConnection]) -> (n: usize)
    ensures
        n == count_suspicious(conns@),
{
    let mut n: usize = 0;
    let mut i: usize = 0;
    while i < conns.len()
        invariant
            i <= conns@.len(),
            n == count_suspicious(conns@.take(i as int)),
            n <= i,
        decreases conns@.len() - i,
    {
        proof {
            assert(conns@.take(i + 1).drop_last() =~= conns@.take(i as int));
        }
        if is_suspicious_connection(&conns[i]) {
            n = n + 1;
        }
        i = i + 1;
    }
    proof {
        assert(conns@.take(conns@.len() as int) =~= conns@);
    }
    n
}

// ── Security alerts ───────────────────────────────────────────────

/// Updates older than this many days raise an alert.
pub const WINDOWS_UPDATE_STALE_DAYS: u64 = 30;

/// An alert about to be raised, before cooldown filtering. `value` and
/// `threshold` are the measured and limiting quantities (whole numbers here).
#[derive(Debug, Clone)]
pub struct AlertCandidate {
    pub severity: AlertSeverity,
    pub category: AlertCategory,
    /// Name of the process or host the alert is about.
    pub process_name: String,
    /// Identifier used for cooldown: a process id, or a fixed pseudo id.
    pub pid: u32,
    pub message: String,
    pub value: u64,
    pub threshold: u64,
}

/// The plain values of an alert candidate.
pub type AlertView = (AlertSeverity, AlertCategory, Seq<char>, u32, Seq<char>, u64, u64);

pub open spec fn alert_view(a: AlertCandidate) -> AlertView {
    (a.severity, a.category, a.process_name@, a.pid, a.message@, a.value, a.threshold)
}

pub open spec fn alert_views(s: Seq<AlertCandidate>) -> Seq<AlertView> {
    s.map_values(|a: AlertCandidate| alert_view(a))
}

/// Pseudo process id of a firewall profile: 10000 plus the bytes of its name,
/// wrapping at 2^32.
pub open spec fn pseudo_pid(bytes: Seq<u8>) -> u32
    decreases bytes.len(),
{
    if bytes.len() == 0 {
        10000
    } else {
        ((pseudo_pid(bytes.drop_last()) as int + bytes.last() as int) % 0x1_0000_0000) as u32
    }
}

/// The alert for a firewall profile that is off.
pub open spec fn firewall_alert(host: Seq<char>, p: WindowsFirewallProfile) -> AlertView {
    (
        AlertSeverity::Warning,
        AlertCategory::WindowsFirewall,
        host,
        pseudo_pid(encode_utf8(p.name@)),
        "Windows Firewall is OFF on "@ + p.name@ + " profile ("@ + host + ")"@,
        0,
        1,
    )
}

/// One alert per disabled firewall profile, in profile order.
pub open spec fn firewall_alerts(host: Seq<char>, ps: Seq<WindowsFirewallProfile>) -> Seq<AlertView>
    decreases ps.len(),
{
    if ps.len() == 0 {
        Seq::empty()
    } else if !ps.last().enabled {
        firewall_alerts(host, ps.drop_last()).push(firewall_alert(host, ps.last()))
    } else {
        firewall_alerts(host, ps.drop_last())
    }
}

/// The alert when the antimalware service is disabled.
pub open spec fn defender_off_alert(host: Seq<char>) -> AlertView {
    (AlertSeverity::Danger, AlertCategory::WindowsDefender, host, 20000, "Windows Defender is disabled ("@
        + host + ")"@, 0, 1)
}

/// The alert when real-time protection is off.
pub open spec fn realtime_off_alert(host: Seq<char>) -> AlertView {
    (
        AlertSeverity::Warning,
        AlertCategory::WindowsDefender,
        host,
        20001,
        "Windows Defender real-time protection is OFF ("@ + host + ")"@,
        0,
        1,
    )
}

/// The alert when the last update is `days` old.
pub open spec fn stale_update_alert(host: Seq<char>, days: u64) -> AlertView {
    (
        AlertSeverity::Warning,
        AlertCategory::WindowsUpdates,
        host,
        30000,
        "Windows not updated in "@ + nat_to_dec(days as nat) + " days ("@ + host + ")"@,
        days,
        WINDOWS_UPDATE_STALE_DAYS,
    )
}

/// Every alert the security status calls for, in the order they are raised:
/// disabled firewall profiles, Defender off, real-time protection off (only
/// while Defender is not known to be off), stale updates.
pub open spec fn spec_windows_alerts(host: Seq<char>, sec: WindowsSecurityStatus) -> Seq<AlertView> {
    let fw = firewall_alerts(host, sec.firewall_profiles@);
    let d = if sec.defender_enabled == Some(false) {
        seq![defender_off_alert(host)]
    } else {
        Seq::empty()
    };
    let rt = if sec.defender_realtime == Some(false) && sec.defender_enabled != Some(false) {
        seq![realtime_off_alert(host)]
    } else {
        Seq::empty()
    };
    let up = match sec.last_update_days {
        Some(days) => if days > WINDOWS_UPDATE_STALE_DAYS {
            seq![stale_update_alert(host, days)]
        } else {
            Seq::empty()
        },
        None => Seq::empty(),
    };
    fw + d + rt + up
}

fn profile_pseudo_pid(name: &str) -> (r: u32)
    ensures
        r == pseudo_pid(encode_utf8(name@)),
{
    let bytes = name.as_bytes();
    let mut acc: u32 = 10000;
    let mut i: usize = 0;
    while i < bytes.len()
        invariant
            bytes@ == encode_utf8(name@),
            i <= bytes@.len(),
            acc == pseudo_pid(bytes@.take(i as int)),
        decreases bytes@.len() - i,
    {
        proof {
            assert(bytes@.take(i + 1).drop_last() =~= bytes@.take(i as int));
        }
        acc = acc.wrapping_add(bytes[i] as u32);
        i = i + 1;
    }
    proof {
        assert(bytes@.take(bytes@.len() as int) =~= bytes@);
    }
    acc
}

fn candidate(
    severity: AlertSeverity,
    category: AlertCategory,
    host: &str,
    pid: u32,
    message: String,
    value: u64,
    threshold: u64,
) -> (a: AlertCandidate)
    ensures
        alert_view(a) == (severity, category, host@, pid, message@, value, threshold),
{
    AlertCandidate {
        severity,
        category,
        process_name: string_of(chars_of(host).as_slice()),
        pid,
        message,
        value,
        threshold,
    }
}

/// A copy of an alert candidate.
pub fn copy_candidate(a: &AlertCandidate) -> (r: AlertCandidate)
    ensures
        r == *a,
{
    AlertCandidate {
        severity: a.severity,
        category: a.category,
        process_name: a.process_name.clone(),
        pid: a.pid,
        message: a.message.clone(),
        value: a.value,
        threshold: a.threshold,
    }
}

fn message3(a: &str, b: &str, c: &str) -> (r: String)
    ensures
        r@ == a@ + b@ + c@,
{
    let mut v = chars_of(a);
    push_str(&mut v, b);
    push_str(&mut v, c);
    string_of(v.as_slice())
}

/// The alerts that the host's security status calls for, before cooldown.
pub fn windows_alert_candidates(hostname: &str, sec: &WindowsSecurityStatus) -> (r: Vec<AlertCandidate>)
    ensures
        alert_views(r@) == spec_windows_alerts(hostname@, *sec),
{
    let mut r: Vec<AlertCandidate> = Vec::new();
    let ps = &sec.firewall_profiles;
    let mut i: usize = 0;
    while i < ps.len()
        invariant
            ps@ == sec.firewall_profiles@,
            i <= ps@.len(),
            alert_views(r@) == firewall_alerts(hostname@, ps@.take(i as int)),
        decreases ps@.len() - i,
    {
        proof {
            assert(ps@.take(i + 1).drop_last() =~= ps@.take(i as int));
            assert(ps@.take(i + 1).last() == ps@[i as int]);
        }
        if !ps[i].enabled {
            let name = ps[i].name.as_str();
            let pid = profile_pseudo_pid(name);
            let mut v = chars_of("Windows Firewall is OFF on ");
            push_str(&mut v, name);
            push_str(&mut v, " profile (");
            push_str(&mut v, hostname);
            push_str(&mut v, ")");
            let msg = string_of(v.as_slice());
            let a = candidate(AlertSeverity::Warning, AlertCategory::WindowsFirewall, hostname, pid, msg, 0, 1);
            let ghost before = r@;
            r.push(a);
            proof {
                assert(alert_views(r@) =~= alert_views(before).push(alert_view(a)));
            }
        }
        i = i + 1;
    }
    proof {
        assert(ps@.take(ps@.len() as int) =~= ps@);
    }
    let ghost fw = alert_views(r@);
    if sec.defender_enabled == Some(false) {
        let msg = message3("Windows Defender is disabled (", hostname, ")");
        let a = candidate(AlertSeverity::Danger, AlertCategory::WindowsDefender, hostname, 20000, msg, 0, 1);
        r.push(a);
    }
    let ghost d = alert_views(r@);
    if sec.defender_realtime == Some(false) && sec.defender_enabled != Some(false) {
        let msg = message3("Windows Defender real-time protection is OFF (", hostname, ")");
        let a = candidate(AlertSeverity::Warning, AlertCategory::WindowsDefender, hostname, 20001, msg, 0, 1);
        r.push(a);
    }
    let ghost rt = alert_views(r@);
    if let Some(days) = sec.last_update_days {
        if days > WINDOWS_UPDATE_STALE_DAYS {
            let mut v = chars_of("Windows not updated in ");
            let dd = u64_to_dec(days);
            push_all(&mut v, dd.as_slice());
            push_str(&mut v, " days (");
            push_str(&mut v, hostname);
            push_str(&mut v, ")");
            let msg = string_of(v.as_slice());
            let a = candidate(
                AlertSeverity::Warning,
                AlertCategory::WindowsUpdates,
                hostname,
                30000,
                msg,
                days,
                WINDOWS_UPDATE_STALE_DAYS,
            );
            r.push(a);
        }
    }
    proof {
        assert(alert_views(r@) =~= spec_windows_alerts(hostname@, *sec));
    }
    r
}

// ── Laws of the alerts ────────────────────────────────────────────

/// How many of `ps` are disabled.
pub open spec fn disabled_profile_count(ps: Seq<WindowsFirewallProfile>) -> nat
    decreases ps.len(),
{
    if ps.len() == 0 {
        0
    } else {
        disabled_profile_count(ps.drop_last()) + if ps.last().enabled {
            0nat
        } else {
            1nat
        }
    }
}

/// How many of `alerts` are firewall alerts.
pub open spec fn firewall_alert_count(alerts: Seq<AlertView>) -> nat
    decreases alerts.len(),
{
    if alerts.len() == 0 {
        0
    } else {
        firewall_alert_count(alerts.drop_last()) + if alerts.last().1 == AlertCategory::WindowsFirewall {
            1nat
        } else {
            0nat
        }
    }
}

proof fn lemma_firewall_count_concat(a: Seq<AlertView>, b: Seq<AlertView>)
    ensures
        firewall_alert_count(a + b) == firewall_alert_count(a) + firewall_alert_count(b),
    decreases b.len(),
{
    if b.len() > 0 {
        assert((a + b).drop_last() =~= a + b.drop_last());
        lemma_firewall_count_concat(a, b.drop_last());
    } else {
        assert(a + b =~= a);
    }
}

proof fn lemma_firewall_alerts_each(host: Seq<char>, ps: Seq<WindowsFirewallProfile>)
    ensures
        firewall_alert_count(firewall_alerts(host, ps)) == disabled_profile_count(ps),
        firewall_alerts(host, ps).len() == disabled_profile_count(ps),
        forall|k: int|
            0 <= k < ps.len() && !ps[k].enabled ==> exists|j: int|
                0 <= j < firewall_alerts(host, ps).len() && #[trigger] firewall_alerts(host, ps)[j] == firewall_alert(host, ps[k]),
    decreases ps.len(),
{
    if ps.len() > 0 {
        let rest = ps.drop_last();
        lemma_firewall_alerts_each(host, rest);
        let fr = firewall_alerts(host, rest);
        let f = firewall_alerts(host, ps);
        assert forall|k: int| 0 <= k < ps.len() && !ps[k].enabled implies exists|j: int|
            0 <= j < f.len() && #[trigger] f[j] == firewall_alert(host, ps[k]) by {
            if k < ps.len() - 1 {
                assert(rest[k] == ps[k]);
                let j = choose|j: int| 0 <= j < fr.len() && #[trigger] fr[j] == firewall_alert(host, rest[k]);
                if !ps.last().enabled {
                    assert(f[j] == fr[j]);
                } else {
                    assert(f == fr);
                }
            } else {
                assert(f[fr.len() as int] == firewall_alert(host, ps.last()));
            }
        }
        if !ps.last().enabled {
            assert(f.drop_last() =~= fr);
        }
    }
}

/// Each disabled firewall profile raises exactly one firewall alert: the
/// alerts of a security status hold as many firewall alerts as there are
/// disabled profiles, and for every disabled profile one of them says
/// "Windows Firewall is OFF on <profile> profile (<host>)".
pub proof fn lemma_firewall_alert_per_disabled_profile(host: Seq<char>, sec: WindowsSecurityStatus)
    ensures
        firewall_alert_count(spec_windows_alerts(host, sec)) == disabled_profile_count(sec.firewall_profiles@),
        forall|k: int|
            0 <= k < sec.firewall_profiles@.len() && !(#[trigger] sec.firewall_profiles@[k]).enabled ==> exists|j: int|
                0 <= j < spec_windows_alerts(host, sec).len() && spec_windows_alerts(host, sec)[j].1
                    == AlertCategory::WindowsFirewall && spec_windows_alerts(host, sec)[j].4 == "Windows Firewall is OFF on "@
                    + sec.firewall_profiles@[k].name@ + " profile ("@ + host + ")"@,
{
    let ps = sec.firewall_profiles@;
    let fw = firewall_alerts(host, ps);
    lemma_firewall_alerts_each(host, ps);
    let all = spec_windows_alerts(host, sec);
    let d = if sec.defender_enabled == Some(false) {
        seq![defender_off_alert(host)]
    } else {
        Seq::empty()
    };
    let rt = if sec.defender_realtime == Some(false) && sec.defender_enabled != Some(false) {
        seq![realtime_off_alert(host)]
    } else {
        Seq::empty()
    };
    let up = match sec.last_update_days {
        Some(days) => if days > WINDOWS_UPDATE_STALE_DAYS {
            seq![stale_update_alert(host, days)]
        } else {
            Seq::empty()
        },
        None => Seq::empty(),
    };
    assert(all == fw + d + rt + up);
    lemma_firewall_count_concat(fw, d);
    lemma_firewall_count_concat(fw + d, rt);
    lemma_firewall_count_concat(fw + d + rt, up);
    assert(firewall_alert_count(d) == 0) by {
        if d.len() > 0 {
            assert(d.drop_last() =~= Seq::<AlertView>::empty());
        }
    }
    assert(firewall_alert_count(rt) == 0) by {
        if rt.len() > 0 {
            assert(rt.drop_last() =~= Seq::<AlertView>::empty());
        }
    }
    assert(firewall_alert_count(up) == 0) by {
        if up.len() > 0 {
            assert(up.drop_last() =~= Seq::<AlertView>::empty());
        }
    }
    assert forall|k: int|
        0 <= k < ps.len() && !(#[trigger] ps[k]).enabled implies exists|j: int|
            0 <= j < all.len() && all[j].1 == AlertCategory::WindowsFirewall && all[j].4 == "Windows Firewall is OFF on "@
                + ps[k].name@ + " profile ("@ + host + ")"@ by {
        let j = choose|j: int| 0 <= j < fw.len() && #[trigger] fw[j] == firewall_alert(host, ps[k]);
        assert(all[j] == fw[j]);
    }
}

/// How many of `alerts` are of category `c`.
pub open spec fn alerts_of_category(alerts: Seq<AlertView>, c: AlertCategory) -> nat
    decreases alerts.len(),
{
    if alerts.len() == 0 {
        0
    } else {
        alerts_of_category(alerts.drop_last(), c) + if alerts.last().1 == c {
            1nat
        } else {
            0nat
        }
    }
}

proof fn lemma_category_count_concat(a: Seq<AlertView>, b: Seq<AlertView>, c: AlertCategory)
    ensures
        alerts_of_category(a + b, c) == alerts_of_category(a, c) + alerts_of_category(b, c),
    decreases b.len(),
{
    if b.len() > 0 {
        assert((a + b).drop_last() =~= a + b.drop_last());
        lemma_category_count_concat(a, b.drop_last(), c);
    } else {
        assert(a + b =~= a);
    }
}

proof fn lemma_firewall_alerts_category(host: Seq<char>, ps: Seq<WindowsFirewallProfile>, c: AlertCategory)
    requires
        c != AlertCategory::WindowsFirewall,
    ensures
        alerts_of_category(firewall_alerts(host, ps), c) == 0,
    decreases ps.len(),
{
    if ps.len() > 0 {
        lemma_firewall_alerts_category(host, ps.drop_last(), c);
        if !ps.last().enabled {
            assert(firewall_alerts(host, ps).drop_last() =~= firewall_alerts(host, ps.drop_last()));
        }
    }
}

/// The Defender and update alerts of a security status: one Defender alert
/// when Defender is known to be off or, failing that, real-time protection is
/// known to be off, none otherwise; and one update alert exactly when the last
/// update is known to be more than `WINDOWS_UPDATE_STALE_DAYS` days old.
pub proof fn lemma_defender_and_update_alerts(host: Seq<char>, sec: WindowsSecurityStatus)
    ensures
        alerts_of_category(spec_windows_alerts(host, sec), AlertCategory::WindowsDefender) == if sec.defender_enabled
            == Some(false) || sec.defender_realtime == Some(false) {
            1nat
        } else {
            0nat
        },
        alerts_of_category(spec_windows_alerts(host, sec), AlertCategory::WindowsUpdates) == if sec.last_update_days
            matches Some(d) && d > WINDOWS_UPDATE_STALE_DAYS {
            1nat
        } else {
            0nat
        },
{
    let ps = sec.firewall_profiles@;
    let fw = firewall_alerts(host, ps);
    let d = if sec.defender_enabled == Some(false) {
        seq![defender_off_alert(host)]
    } else {
        Seq::empty()
    };
    let rt = if sec.defender_realtime == Some(false) && sec.defender_enabled != Some(false) {
        seq![realtime_off_alert(host)]
    } else {
        Seq::empty()
    };
    let up = match sec.last_update_days {
        Some(days) => if days > WINDOWS_UPDATE_STALE_DAYS {
            seq![stale_update_alert(host, days)]
        } else {
            Seq::empty()
        },
        None => Seq::empty(),
    };
    assert(spec_windows_alerts(host, sec) == fw + d + rt + up);
    let cs = seq![AlertCategory::WindowsDefender, AlertCategory::WindowsUpdates];
    assert forall|k: int| 0 <= k < 2 implies #[trigger] alerts_of_category(fw + d + rt + up, cs[k])
        == alerts_of_category(d, cs[k]) + alerts_of_category(rt, cs[k]) + alerts_of_category(up, cs[k]) by {
        lemma_firewall_alerts_category(host, ps, cs[k]);
        lemma_category_count_concat(fw, d, cs[k]);
        lemma_category_count_concat(fw + d, rt, cs[k]);
        lemma_category_count_concat(fw + d + rt, up, cs[k]);
    }
    assert(alerts_of_category(fw + d + rt + up, cs[0]) == alerts_of_category(d, cs[0]) + alerts_of_category(rt, cs[0])
        + alerts_of_category(up, cs[0]));
    assert(alerts_of_category(fw + d + rt + up, cs[1]) == alerts_of_category(d, cs[1]) + alerts_of_category(rt, cs[1])
        + alerts_of_category(up, cs[1]));
    if d.len() > 0 {
        assert(d.drop_last() =~= Seq::<AlertView>::empty());
    }
    if rt.len() > 0 {
        assert(rt.drop_last() =~= Seq::<AlertView>::empty());
    }
    if up.len() > 0 {
        assert(up.drop_last() =~= Seq::<AlertView>::empty());
    }
}

} // verus!
