//! Thermal monitoring: hardware classification of sensor readings and the
//! auto-shutdown state machine for thermal emergencies.
//!
//! Shutdown state flow: Normal → Counting → GracePeriod → Shutdown, returning to
//! Normal whenever the temperature drops below the critical threshold, the
//! feature is disabled, or the current hour is outside the active schedule.

use vstd::prelude::*;
use crate::clock::{elapsed_secs, instant_now, local_hour};
use crate::text::{
    chars_of, contains_str, spec_contains, string_of, to_lowercase, lowercase_of, eq_str, push_str,
    push_all, copy_chars, sub_chars, is_digit, parse_dec, parse_dec_u64, char_width,
};

verus! {

// ── Shutdown state machine ────────────────────────────────────────

/// Auto-shutdown state machine states.
#[derive(Debug, Clone)]
pub enum ShutdownState {
    /// Normal operation — no thermal emergency.
    Normal,
    /// Temperature exceeded the emergency threshold; counting sustained seconds.
    Counting { since: std::time::Instant, required_secs: u64 },
    /// Sustained emergency confirmed; grace period before shutdown.
    GracePeriod { since: std::time::Instant, grace_secs: u64 },
    /// Shutdown command issued.
    Shutdown,
}

impl Default for ShutdownState {
    fn default() -> (s: ShutdownState)
        ensures
            s is Normal,
    {
        ShutdownState::Normal
    }
}

pub open spec fn shutdown_label(s: ShutdownState) -> Seq<char> {
    match s {
        ShutdownState::Normal => "Normal"@,
        ShutdownState::Counting { .. } => "Thermal Warning - Counting"@,
        ShutdownState::GracePeriod { .. } => "SHUTDOWN IMMINENT"@,
        ShutdownState::Shutdown => "SHUTTING DOWN"@,
    }
}

/// Seconds left before the next escalation, `elapsed` seconds into the current state.
pub open spec fn spec_seconds_remaining(s: ShutdownState, elapsed: u64) -> Option<u64> {
    match s {
        ShutdownState::Counting { required_secs, .. } => Some(
            if elapsed < required_secs {
                (required_secs - elapsed) as u64
            } else {
                0
            },
        ),
        ShutdownState::GracePeriod { grace_secs, .. } => Some(
            if elapsed < grace_secs {
                (grace_secs - elapsed) as u64
            } else {
                0
            },
        ),
        _ => None,
    }
}

impl ShutdownState {
    /// Human-readable label for the current state.
    pub fn label(&self) -> (r: &'static str)
        ensures
            r@ == shutdown_label(*self),
    {
        match self {
            ShutdownState::Normal => "Normal",
            ShutdownState::Counting { .. } => "Thermal Warning - Counting",
            ShutdownState::GracePeriod { .. } => "SHUTDOWN IMMINENT",
            ShutdownState::Shutdown => "SHUTTING DOWN",
        }
    }

    /// Whether the state is anything other than Normal.
    pub fn is_active(&self) -> (r: bool)
        ensures
            r == !(*self is Normal),
    {
        match self {
            ShutdownState::Normal => false,
            _ => true,
        }
    }

    /// Seconds remaining before the next escalation when `elapsed` seconds have
    /// passed in the current state.
    pub fn seconds_remaining_after(&self, elapsed: u64) -> (r: Option<u64>)
        ensures
            r == spec_seconds_remaining(*self, elapsed),
    {
        match self {
            ShutdownState::Counting { required_secs, .. } => Some(
                required_secs.saturating_sub(elapsed),
            ),
            ShutdownState::GracePeriod { grace_secs, .. } => Some(grace_secs.saturating_sub(elapsed)),
            _ => None,
        }
    }

    /// Seconds remaining before the next escalation, if applicable.
    pub fn seconds_remaining(&self) -> (r: Option<u64>)
        ensures
            exists|elapsed: u64| r == spec_seconds_remaining(*self, elapsed),
    {
        match self {
            ShutdownState::Counting { since, .. } => {
                let e = elapsed_secs(since);
                self.seconds_remaining_after(e)
            },
            ShutdownState::GracePeriod { since, .. } => {
                let e = elapsed_secs(since);
                self.seconds_remaining_after(e)
            },
            _ => self.seconds_remaining_after(0),
        }
    }
}

/// Events emitted by the shutdown state machine per tick.
#[derive(Debug, Clone, PartialEq, Eq, Structural)]
pub enum ShutdownEvent {
    /// Nothing noteworthy.
    Nothing,
    /// Temperature crossed the emergency threshold — counting started.
    EmergencyStarted,
    /// Still counting sustained seconds.
    Counting { elapsed_secs: u64, required_secs: u64 },
    /// Sustained emergency confirmed — grace period started.
    GracePeriodStarted,
    /// Grace period countdown.
    GracePeriodCountdown { remaining_secs: u64 },
    /// Execute shutdown now.
    ShutdownNow,
    /// Temperature dropped below critical — recovered.
    Recovered,
}

/// What the temperature readings say this tick, decided against the configured
/// thresholds: at or above the emergency threshold, and below the critical one.
#[derive(Debug, Clone, Copy, PartialEq, Eq, Structural)]
pub struct ThermalReading {
    pub at_emergency: bool,
    pub below_critical: bool,
}

/// Manages the auto-shutdown state machine.
pub struct ShutdownManager {
    /// Current state.
    pub state: ShutdownState,
    /// Whether auto-shutdown is enabled (config and environment double gate).
    pub enabled: bool,
    /// Required sustained seconds at emergency before escalation.
    pub sustained_secs: u64,
    /// Grace period seconds before the actual shutdown.
    pub grace_secs: u64,
    /// Schedule start hour (0-23).
    pub schedule_start: u8,
    /// Schedule end hour (0-24).
    pub schedule_end: u8,
}

/// Whether `hour` falls in the active window `[start, end)`, which wraps past
/// midnight when `start > end`.
pub open spec fn spec_in_schedule(start: u8, end: u8, hour: u8) -> bool {
    if start <= end {
        start <= hour && hour < end
    } else {
        hour >= start || hour < end
    }
}

/// Whether a tick at `hour` runs the state machine: the manager is enabled
/// and the hour lies in its schedule.
pub open spec fn schedule_open(enabled: bool, start: u8, end: u8, hour: u8) -> bool {
    enabled && spec_in_schedule(start, end, hour)
}

/// Escalation level of a state.
pub open spec fn shutdown_rank(s: ShutdownState) -> int {
    match s {
        ShutdownState::Normal => 0,
        ShutdownState::Counting { .. } => 1,
        ShutdownState::GracePeriod { .. } => 2,
        ShutdownState::Shutdown => 3,
    }
}

/// One tick of the state machine: the next state and the event reported.
///
/// `elapsed` is the number of whole seconds spent in the current state (read only in
/// Counting and GracePeriod), and `now` the instant recorded when a timed state begins.
pub open spec fn shutdown_step(
    st: ShutdownState,
    enabled: bool,
    in_schedule: bool,
    sustained_secs: u64,
    grace_secs: u64,
    reading: ThermalReading,
    elapsed: u64,
    now: std::time::Instant,
) -> (ShutdownState, ShutdownEvent) {
    if !enabled || !in_schedule {
        if !(st is Normal) {
            (ShutdownState::Normal, ShutdownEvent::Recovered)
        } else {
            (st, ShutdownEvent::Nothing)
        }
    } else {
        match st {
            ShutdownState::Normal => if reading.at_emergency {
                (
                    ShutdownState::Counting { since: now, required_secs: sustained_secs },
                    ShutdownEvent::EmergencyStarted,
                )
            } else {
                (st, ShutdownEvent::Nothing)
            },
            ShutdownState::Counting { since, required_secs } => if reading.below_critical {
                (ShutdownState::Normal, ShutdownEvent::Recovered)
            } else if elapsed >= required_secs {
                (
                    ShutdownState::GracePeriod { since: now, grace_secs: grace_secs },
                    ShutdownEvent::GracePeriodStarted,
                )
            } else {
                (st, ShutdownEvent::Counting { elapsed_secs: elapsed, required_secs })
            },
            ShutdownState::GracePeriod { since, grace_secs: g } => if reading.below_critical {
                (ShutdownState::Normal, ShutdownEvent::Recovered)
            } else if elapsed >= g {
                (ShutdownState::Shutdown, ShutdownEvent::ShutdownNow)
            } else {
                (st, ShutdownEvent::GracePeriodCountdown { remaining_secs: (g - elapsed) as u64 })
            },
            ShutdownState::Shutdown => (st, ShutdownEvent::ShutdownNow),
        }
    }
}

impl ShutdownManager {
    /// Create a shutdown manager. It is enabled only when both the configuration
    /// and the environment flag enable it.
    pub fn new(
        config_enabled: bool,
        env_enabled: bool,
        sustained_secs: u64,
        grace_secs: u64,
        schedule_start: u8,
        schedule_end: u8,
    ) -> (m: ShutdownManager)
        ensures
            m.state is Normal,
            m.enabled == (config_enabled && env_enabled),
            m.sustained_secs == sustained_secs,
            m.grace_secs == grace_secs,
            m.schedule_start == schedule_start,
            m.schedule_end == schedule_end,
    {
        ShutdownManager {
            state: ShutdownState::Normal,
            enabled: config_enabled && env_enabled,
            sustained_secs,
            grace_secs,
            schedule_start,
            schedule_end,
        }
    }

    /// Whether the shutdown manager is actively enabled.
    pub fn is_enabled(&self) -> (r: bool)
        ensures
            r == self.enabled,
    {
        self.enabled
    }

    /// Whether `hour` is within the active schedule window.
    pub fn in_schedule_at(&self, hour: u8) -> (r: bool)
        ensures
            r == spec_in_schedule(self.schedule_start, self.schedule_end, hour),
    {
        if self.schedule_start <= self.schedule_end {
            hour >= self.schedule_start && hour < self.schedule_end
        } else {
            hour >= self.schedule_start || hour < self.schedule_end
        }
    }

    /// Whether the local hour is within the active schedule window.
    pub fn in_schedule(&self) -> (r: bool)
        ensures
            exists|hour: u8| hour < 24 && r == spec_in_schedule(self.schedule_start, self.schedule_end, hour),
    {
        let hour = local_hour() as u8;
        self.in_schedule_at(hour)
    }

    /// One transition of the state machine on explicit inputs.
    pub fn step(
        &mut self,
        reading: ThermalReading,
        in_schedule: bool,
        elapsed: u64,
        now: std::time::Instant,
    ) -> (ev: ShutdownEvent)
        ensures
            (final(self).state, ev) == shutdown_step(
                old(self).state,
                old(self).enabled,
                in_schedule,
                old(self).sustained_secs,
                old(self).grace_secs,
                reading,
                elapsed,
                now,
            ),
            final(self).enabled == old(self).enabled,
            final(self).sustained_secs == old(self).sustained_secs,
            final(self).grace_secs == old(self).grace_secs,
            final(self).schedule_start == old(self).schedule_start,
            final(self).schedule_end == old(self).schedule_end,
    {
        if !self.enabled || !in_schedule {
            if self.state.is_active() {
                self.state = ShutdownState::Normal;
                return ShutdownEvent::Recovered;
            }
            return ShutdownEvent::Nothing;
        }
        match &self.state {
            ShutdownState::Normal => {
                if reading.at_emergency {
                    self.state = ShutdownState::Counting { since: now, required_secs: self.sustained_secs };
                    ShutdownEvent::EmergencyStarted
                } else {
                    ShutdownEvent::Nothing
                }
            },
            ShutdownState::Counting { required_secs, .. } => {
                let required = *required_secs;
                if reading.below_critical {
                    self.state = ShutdownState::Normal;
                    return ShutdownEvent::Recovered;
                }
                if elapsed >= required {
                    self.state = ShutdownState::GracePeriod { since: now, grace_secs: self.grace_secs };
                    ShutdownEvent::GracePeriodStarted
                } else {
                    ShutdownEvent::Counting { elapsed_secs: elapsed, required_secs: required }
                }
            },
            ShutdownState::GracePeriod { grace_secs, .. } => {
                let g = *grace_secs;
                if reading.below_critical {
                    self.state = ShutdownState::Normal;
                    return ShutdownEvent::Recovered;
                }
                if elapsed >= g {
                    self.state = ShutdownState::Shutdown;
                    ShutdownEvent::ShutdownNow
                } else {
                    ShutdownEvent::GracePeriodCountdown { remaining_secs: g - elapsed }
                }
            },
            ShutdownState::Shutdown => ShutdownEvent::ShutdownNow,
        }
    }

    /// Tick the state machine with this tick's temperature reading, reading the
    /// local hour and the time spent in the current state from the clocks: the
    /// step is taken with the schedule check of some hour of the day (the one
    /// read), and only when the manager is enabled.
    pub fn tick(&mut self, reading: ThermalReading) -> (ev: ShutdownEvent)
        ensures
            exists|hour: u8, elapsed: u64, now: std::time::Instant|
                hour < 24 && (final(self).state, ev) == #[trigger] shutdown_step(
                    old(self).state,
                    old(self).enabled,
                    schedule_open(old(self).enabled, old(self).schedule_start, old(self).schedule_end, hour),
                    old(self).sustained_secs,
                    old(self).grace_secs,
                    reading,
                    elapsed,
                    now,
                ),
            final(self).enabled == old(self).enabled,
            final(self).sustained_secs == old(self).sustained_secs,
            final(self).grace_secs == old(self).grace_secs,
            final(self).schedule_start == old(self).schedule_start,
            final(self).schedule_end == old(self).schedule_end,
    {
        let in_sched = if self.enabled {
            self.in_schedule()
        } else {
            false
        };
        let ghost hour: u8 = if self.enabled {
            choose|h: u8| h < 24 && in_sched == spec_in_schedule(self.schedule_start, self.schedule_end, h)
        } else {
            0
        };
        let elapsed = match &self.state {
            ShutdownState::Counting { since, .. } => elapsed_secs(since),
            ShutdownState::GracePeriod { since, .. } => elapsed_secs(since),
            _ => 0,
        };
        let now = instant_now();
        let ghost before = *self;
        let ev = self.step(reading, in_sched, elapsed, now);
        proof {
            assert(in_sched == schedule_open(before.enabled, before.schedule_start, before.schedule_end, hour));
            assert(hour < 24);
            assert((self.state, ev) == shutdown_step(
                before.state,
                before.enabled,
                schedule_open(before.enabled, before.schedule_start, before.schedule_end, hour),
                before.sustained_secs,
                before.grace_secs,
                reading,
                elapsed,
                now,
            ));
        }
        ev
    }

    /// Force abort — reset to Normal from any state. Returns whether anything was aborted.
    pub fn abort(&mut self) -> (r: bool)
        ensures
            r == !(old(self).state is Normal),
            final(self).state is Normal,
            final(self).enabled == old(self).enabled,
            final(self).sustained_secs == old(self).sustained_secs,
            final(self).grace_secs == old(self).grace_secs,
            final(self).schedule_start == old(self).schedule_start,
            final(self).schedule_end == old(self).schedule_end,
    {
        if self.state.is_active() {
            self.state = ShutdownState::Normal;
            true
        } else {
            false
        }
    }
}

/// Laws of one tick:
/// when disabled or outside the schedule the machine rests in Normal (reporting a
/// recovery only if it was active); it never skips a level on the way up; a shutdown
/// is ordered exactly when the machine is (or stays) in Shutdown; and a recovery is
/// reported exactly when an active machine falls back to Normal.
pub proof fn lemma_shutdown_step_laws(
    st: ShutdownState,
    enabled: bool,
    in_schedule: bool,
    sustained_secs: u64,
    grace_secs: u64,
    reading: ThermalReading,
    elapsed: u64,
    now: std::time::Instant,
)
    ensures
        ({
            let (next, ev) = shutdown_step(st, enabled, in_schedule, sustained_secs, grace_secs, reading, elapsed, now);
            &&& (!enabled || !in_schedule) ==> next is Normal && (ev == ShutdownEvent::Recovered <==> !(st is Normal))
                && (ev == ShutdownEvent::Nothing <==> st is Normal)
            &&& shutdown_rank(next) <= shutdown_rank(st) + 1
            &&& (ev == ShutdownEvent::ShutdownNow <==> next is Shutdown)
            &&& (ev == ShutdownEvent::Recovered <==> (!(st is Normal) && next is Normal))
            &&& (enabled && in_schedule && reading.below_critical && (st is Counting || st is GracePeriod)) ==> next is Normal
            &&& (enabled && in_schedule && st is Shutdown) ==> next is Shutdown
        }),
{
}

/// An all-day schedule (0 to 24) is open at every hour while the manager is
/// enabled, so a tick on an emergency reading from Normal starts the countdown
/// (of the sustained seconds); a disabled manager's schedule is never open.
pub proof fn lemma_all_day_schedule(hour: u8, sustained_secs: u64, grace_secs: u64, reading: ThermalReading, elapsed: u64, now: std::time::Instant)
    requires
        hour < 24,
    ensures
        schedule_open(true, 0, 24, hour),
        forall|start: u8, end: u8| !schedule_open(false, start, end, hour),
        reading.at_emergency ==> shutdown_step(
            ShutdownState::Normal,
            true,
            schedule_open(true, 0, 24, hour),
            sustained_secs,
            grace_secs,
            reading,
            elapsed,
            now,
        ) == (ShutdownState::Counting { since: now, required_secs: sustained_secs }, ShutdownEvent::EmergencyStarted),
{
}

// ── Hardware classification ───────────────────────────────────────

pub open spec fn spec_is_cpu_hardware(path: Seq<char>) -> bool {
    spec_contains(path, "cpu"@) || spec_contains(path, "intel core"@) || spec_contains(
        path,
        "amd ryzen"@,
    ) || spec_contains(path, "processor"@)
}

pub open spec fn spec_is_gpu_hardware(path: Seq<char>) -> bool {
    spec_contains(path, "gpu"@) || spec_contains(path, "nvidia"@) || spec_contains(path, "geforce"@)
        || spec_contains(path, "radeon"@) || spec_contains(path, "amd rx"@) || spec_contains(
        path,
        "intel arc"@,
    )
}

pub open spec fn spec_is_storage_hardware(path: Seq<char>) -> bool {
    spec_contains(path, "ssd"@) || spec_contains(path, "nvme"@) || spec_contains(path, "samsung"@)
        || spec_contains(path, "wd "@) || spec_contains(path, "western digital"@) || spec_contains(
        path,
        "crucial"@,
    ) || spec_contains(path, "kingston"@) || spec_contains(path, "hynix"@)
}

/// A hardware path that names a drive vendor or drive kind (ssd, nvme,
/// samsung, "wd ", western digital, crucial, kingston, hynix) is storage
/// hardware, and one naming none of them is not.
pub proof fn lemma_storage_vendors(path: Seq<char>)
    ensures
        spec_contains(path, "kingston"@) ==> spec_is_storage_hardware(path),
        spec_contains(path, "ssd"@) ==> spec_is_storage_hardware(path),
        spec_contains(path, "nvme"@) ==> spec_is_storage_hardware(path),
        spec_contains(path, "samsung"@) ==> spec_is_storage_hardware(path),
        spec_contains(path, "wd "@) ==> spec_is_storage_hardware(path),
        spec_contains(path, "western digital"@) ==> spec_is_storage_hardware(path),
        spec_contains(path, "crucial"@) ==> spec_is_storage_hardware(path),
        spec_contains(path, "hynix"@) ==> spec_is_storage_hardware(path),
        !spec_contains(path, "kingston"@) && !spec_contains(path, "ssd"@) && !spec_contains(path, "nvme"@)
            && !spec_contains(path, "samsung"@) && !spec_contains(path, "wd "@) && !spec_contains(
            path,
            "western digital"@,
        ) && !spec_contains(path, "crucial"@) && !spec_contains(path, "hynix"@) ==> !spec_is_storage_hardware(path),
{
}

/// Whether a (lowercased) hardware path names a CPU.
pub fn is_cpu_hardware(path: &str) -> (r: bool)
    ensures
        r == spec_is_cpu_hardware(path@),
{
    let p = chars_of(path);
    let p = p.as_slice();
    contains_str(p, "cpu") || contains_str(p, "intel core") || contains_str(p, "amd ryzen")
        || contains_str(p, "processor")
}

/// Whether a (lowercased) hardware path names a GPU.
pub fn is_gpu_hardware(path: &str) -> (r: bool)
    ensures
        r == spec_is_gpu_hardware(path@),
{
    let p = chars_of(path);
    let p = p.as_slice();
    contains_str(p, "gpu") || contains_str(p, "nvidia") || contains_str(p, "geforce")
        || contains_str(p, "radeon") || contains_str(p, "amd rx") || contains_str(p, "intel arc")
}

/// Whether a (lowercased) hardware path names a storage drive.
pub fn is_storage_hardware(path: &str) -> (r: bool)
    ensures
        r == spec_is_storage_hardware(path@),
{
    let p = chars_of(path);
    let p = p.as_slice();
    contains_str(p, "ssd") || contains_str(p, "nvme") || contains_str(p, "samsung") || contains_str(
        p,
        "wd ",
    ) || contains_str(p, "western digital") || contains_str(p, "crucial") || contains_str(
        p,
        "kingston",
    ) || contains_str(p, "hynix")
}

/// `format_storage_name`: the drive (last path element) before the sensor name,
/// unless the path is empty or ends in the category node itself.
pub open spec fn spec_storage_name(path: Seq<Seq<char>>, sensor_name: Seq<char>) -> Seq<char> {
    if path.len() > 0 && lowercase_of(path.last()) != "temperatures"@ {
        path.last() + ": "@ + sensor_name
    } else {
        sensor_name
    }
}

/// Format a storage sensor name to include the drive identifier.
pub fn format_storage_name(path: &[String], sensor_name: &str) -> (r: String)
    ensures
        r@ == spec_storage_name(path@.map_values(|p: String| p@), sensor_name@),
{
    let ghost pv = path@.map_values(|p: String| p@);
    if path.len() > 0 {
        let dev = &path[path.len() - 1];
        proof {
            assert(pv.last() == dev@);
        }
        let lower = to_lowercase(dev.as_str());
        let lc = chars_of(lower.as_str());
        if !eq_str(lc.as_slice(), "temperatures") {
            let mut v = chars_of(dev.as_str());
            push_str(&mut v, ": ");
            push_str(&mut v, sensor_name);
            return string_of(v.as_slice());
        }
    }
    let v = chars_of(sensor_name);
    string_of(v.as_slice())
}

// ── Natural sort keys ─────────────────────────────────────────────

/// Index of the last ASCII digit among the first `i` characters of `s`.
pub open spec fn last_digit_before(s: Seq<char>, i: int) -> Option<int>
    decreases i,
{
    if i <= 0 || i > s.len() {
        None
    } else if is_digit(s[i - 1]) {
        Some(i - 1)
    } else {
        last_digit_before(s, i - 1)
    }
}

/// Start of the run of digits that ends just before index `i`.
pub open spec fn digit_run_start(s: Seq<char>, i: int) -> int
    decreases i,
{
    if i > 0 && i <= s.len() && is_digit(s[i - 1]) {
        digit_run_start(s, i - 1)
    } else {
        i
    }
}

/// Inputs on which `natural_sort_key` does not panic: the character just before the
/// last run of digits takes a single byte, so the byte after it starts a character.
pub open spec fn sort_key_ok(s: Seq<char>) -> bool {
    match last_digit_before(s, s.len() as int) {
        Some(d) => {
            let k = digit_run_start(s, d + 1);
            k > 0 ==> char_width(s[k - 1]) == 1
        },
        None => true,
    }
}

/// `natural_sort_key`: the text before the last run of digits and that run's value
/// (0 when it overflows `u32`), or the whole text and 0 when there is no digit.
pub open spec fn spec_natural_sort_key(s: Seq<char>) -> (Seq<char>, u32) {
    match last_digit_before(s, s.len() as int) {
        Some(d) => {
            let k = digit_run_start(s, d + 1);
            let n = match parse_dec(s.subrange(k, d + 1), 4294967295) {
                Some(v) => v as u32,
                None => 0u32,
            };
            (s.take(k), n)
        },
        None => (s, 0u32),
    }
}

proof fn lemma_digit_run_start(s: Seq<char>, i: int)
    requires
        0 <= i <= s.len(),
    ensures
        0 <= digit_run_start(s, i) <= i,
        forall|j: int| digit_run_start(s, i) <= j < i ==> is_digit(#[trigger] s[j]),
        digit_run_start(s, i) > 0 ==> !is_digit(s[digit_run_start(s, i) - 1]),
    decreases i,
{
    if i > 0 && is_digit(s[i - 1]) {
        lemma_digit_run_start(s, i - 1);
    }
}

/// Natural sort key: the numeric suffix of names like "Core #1", "Core #10".
pub fn natural_sort_key(s: &str) -> (r: (String, u32))
    requires
        sort_key_ok(s@),
    ensures
        (r.0@, r.1) == spec_natural_sort_key(s@),
{
    let cs = chars_of(s);
    let c = cs.as_slice();
    let mut i = c.len();
    while i > 0 && !('0' <= c[i - 1] && c[i - 1] <= '9')
        invariant
            i <= c@.len(),
            last_digit_before(c@, c@.len() as int) == last_digit_before(c@, i as int),
        decreases i,
    {
        i -= 1;
    }
    if i == 0 {
        return (string_of(c), 0);
    }
    let d = i - 1;
    let mut k = d + 1;
    while k > 0 && '0' <= c[k - 1] && c[k - 1] <= '9'
        invariant
            k <= d + 1,
            d < c@.len(),
            digit_run_start(c@, d + 1) == digit_run_start(c@, k as int),
        decreases k,
    {
        k -= 1;
    }
    let prefix = sub_chars(c, 0, k);
    let digits = sub_chars(c, k, d + 1);
    proof {
        assert(prefix@ =~= c@.take(k as int));
    }
    let n = match parse_dec_u64(digits.as_slice(), 4294967295) {
        Some(v) => v as u32,
        None => 0,
    };
    (string_of(prefix.as_slice()), n)
}

} // verus!
