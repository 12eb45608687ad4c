//! The settings list built from the configuration, and the writer that stores
//! an edited value back into it.
//!
//! The configuration is held as plain values. Its floating-point thresholds are
//! held as the text the list shows, and a value typed for one of them is handed
//! back to the application, which parses and clamps it.

use vstd::prelude::*;
use crate::market::opt_view;
use crate::settings::{cycles_nonempty, option_texts, SettingItem, SettingKind, SettingsCategory};
use crate::text::{chars_of, eq_str, lemma_parse_dec_of_dec, nat_to_dec, parse_dec, parse_dec_u64, push_str, string_of, u64_to_dec};

verus! {

/// The configuration values the settings tab shows and edits.
pub struct ConfigValues {
    pub refresh_interval_ms: u64,
    pub theme: String,
    /// The built-in theme names the theme setting cycles through.
    pub theme_names: Vec<String>,
    pub lang: String,
    pub auto_analysis_interval_secs: u64,
    pub unicode_mode: String,
    pub market_enabled: bool,
    pub market_poll_interval_secs: u64,
    /// How many tickers the watchlist holds.
    pub market_ticker_count: usize,
    pub market_default_chart_range: String,
    pub lhm_url: String,
    pub lhm_username: Option<String>,
    pub lhm_password: Option<String>,
    pub thermal_poll_interval_secs: u64,
    /// The thermal warning threshold, as shown (whole degrees).
    pub warning_threshold_text: String,
    /// The thermal critical threshold, as shown (whole degrees).
    pub critical_threshold_text: String,
    /// The thermal emergency threshold, as shown (whole degrees).
    pub emergency_threshold_text: String,
    pub auto_shutdown_enabled: bool,
    pub sustained_seconds: u64,
    pub shutdown_schedule_start: u8,
    pub shutdown_schedule_end: u8,
    /// The CPU warning threshold, as shown (whole percent).
    pub cpu_warning_text: String,
    /// The CPU critical threshold, as shown (whole percent).
    pub cpu_critical_text: String,
    pub mem_warning_threshold_bytes: u64,
    pub mem_critical_threshold_bytes: u64,
    /// The system memory warning threshold, as shown (whole percent).
    pub sys_mem_warning_text: String,
    /// The system memory critical threshold, as shown (whole percent).
    pub sys_mem_critical_text: String,
    pub max_alerts: usize,
    pub ssh_brute_force_threshold: usize,
    pub score_alert_threshold: u8,
    pub max_suspicious_outbound: usize,
    /// How many suspicious-process patterns are configured.
    pub suspicious_pattern_count: usize,
    /// How many threat patterns are configured.
    pub threat_pattern_count: usize,
    pub email_enabled: bool,
    pub telegram_enabled: bool,
    pub telegram_bot_token: Option<String>,
    pub telegram_chat_id: Option<String>,
    pub telegram_min_severity: String,
}

/// The plain value of a `ConfigValues`.
pub struct ConfigView {
    pub refresh_interval_ms: u64,
    pub theme: Seq<char>,
    pub theme_names: Seq<Seq<char>>,
    pub lang: Seq<char>,
    pub auto_analysis_interval_secs: u64,
    pub unicode_mode: Seq<char>,
    pub market_enabled: bool,
    pub market_poll_interval_secs: u64,
    pub market_ticker_count: usize,
    pub market_default_chart_range: Seq<char>,
    pub lhm_url: Seq<char>,
    pub lhm_username: Option<Seq<char>>,
    pub lhm_password: Option<Seq<char>>,
    pub thermal_poll_interval_secs: u64,
    pub warning_threshold_text: Seq<char>,
    pub critical_threshold_text: Seq<char>,
    pub emergency_threshold_text: Seq<char>,
    pub auto_shutdown_enabled: bool,
    pub sustained_seconds: u64,
    pub shutdown_schedule_start: u8,
    pub shutdown_schedule_end: u8,
    pub cpu_warning_text: Seq<char>,
    pub cpu_critical_text: Seq<char>,
    pub mem_warning_threshold_bytes: u64,
    pub mem_critical_threshold_bytes: u64,
    pub sys_mem_warning_text: Seq<char>,
    pub sys_mem_critical_text: Seq<char>,
    pub max_alerts: usize,
    pub ssh_brute_force_threshold: usize,
    pub score_alert_threshold: u8,
    pub max_suspicious_outbound: usize,
    pub suspicious_pattern_count: usize,
    pub threat_pattern_count: usize,
    pub email_enabled: bool,
    pub telegram_enabled: bool,
    pub telegram_bot_token: Option<Seq<char>>,
    pub telegram_chat_id: Option<Seq<char>>,
    pub telegram_min_severity: Seq<char>,
}

impl ConfigValues {
    pub open spec fn view(&self) -> ConfigView {
        ConfigView {
            refresh_interval_ms: self.refresh_interval_ms,
            theme: self.theme@,
            theme_names: option_texts(self.theme_names@),
            lang: self.lang@,
            auto_analysis_interval_secs: self.auto_analysis_interval_secs,
            unicode_mode: self.unicode_mode@,
            market_enabled: self.market_enabled,
            market_poll_interval_secs: self.market_poll_interval_secs,
            market_ticker_count: self.market_ticker_count,
            market_default_chart_range: self.market_default_chart_range@,
            lhm_url: self.lhm_url@,
            lhm_username: opt_view(self.lhm_username),
            lhm_password: opt_view(self.lhm_password),
            thermal_poll_interval_secs: self.thermal_poll_interval_secs,
            warning_threshold_text: self.warning_threshold_text@,
            critical_threshold_text: self.critical_threshold_text@,
            emergency_threshold_text: self.emergency_threshold_text@,
            auto_shutdown_enabled: self.auto_shutdown_enabled,
            sustained_seconds: self.sustained_seconds,
            shutdown_schedule_start: self.shutdown_schedule_start,
            shutdown_schedule_end: self.shutdown_schedule_end,
            cpu_warning_text: self.cpu_warning_text@,
            cpu_critical_text: self.cpu_critical_text@,
            mem_warning_threshold_bytes: self.mem_warning_threshold_bytes,
            mem_critical_threshold_bytes: self.mem_critical_threshold_bytes,
            sys_mem_warning_text: self.sys_mem_warning_text@,
            sys_mem_critical_text: self.sys_mem_critical_text@,
            max_alerts: self.max_alerts,
            ssh_brute_force_threshold: self.ssh_brute_force_threshold,
            score_alert_threshold: self.score_alert_threshold,
            max_suspicious_outbound: self.max_suspicious_outbound,
            suspicious_pattern_count: self.suspicious_pattern_count,
            threat_pattern_count: self.threat_pattern_count,
            email_enabled: self.email_enabled,
            telegram_enabled: self.telegram_enabled,
            telegram_bot_token: opt_view(self.telegram_bot_token),
            telegram_chat_id: opt_view(self.telegram_chat_id),
            telegram_min_severity: self.telegram_min_severity@,
        }
    }
}

/// How a setting is edited, as plain values.
pub enum KindView {
    Toggle,
    Cycle(Seq<Seq<char>>),
    Number { min: u64, max: u64, suffix: Seq<char>, integer: bool },
    Text { max_length: usize, masked: bool },
    ReadOnly,
}

/// A setting, as plain values.
pub struct ItemView {
    pub key: Seq<char>,
    pub label: Seq<char>,
    pub value: Seq<char>,
    pub description: Seq<char>,
    pub kind: KindView,
}

pub open spec fn kind_view(k: SettingKind) -> KindView {
    match k {
        SettingKind::Toggle => KindView::Toggle,
        SettingKind::Cycle(opts) => KindView::Cycle(option_texts(opts@)),
        SettingKind::Number { min, max, suffix, integer } => KindView::Number { min, max, suffix: suffix@, integer },
        SettingKind::Text { max_length, masked } => KindView::Text { max_length, masked },
        SettingKind::ReadOnly => KindView::ReadOnly,
    }
}

pub open spec fn item_view(it: SettingItem) -> ItemView {
    ItemView {
        key: it.key@,
        label: it.label@,
        value: it.value@,
        description: it.description@,
        kind: kind_view(it.kind),
    }
}

pub open spec fn items_view(s: Seq<SettingItem>) -> Seq<ItemView> {
    s.map_values(|it: SettingItem| item_view(it))
}

/// The settings list, as plain values.
pub open spec fn list_view(s: Seq<(SettingsCategory, Vec<SettingItem>)>) -> Seq<(SettingsCategory, Seq<ItemView>)> {
    s.map_values(|p: (SettingsCategory, Vec<SettingItem>)| (p.0, items_view(p.1@)))
}

/// How a flag is shown.
pub open spec fn bool_text(b: bool) -> Seq<char> {
    if b {
        "true"@
    } else {
        "false"@
    }
}

/// An optional text, empty when absent.
pub open spec fn or_empty(o: Option<Seq<char>>) -> Seq<char> {
    match o {
        Some(s) => s,
        None => Seq::empty(),
    }
}

pub open spec fn item_spec(key: Seq<char>, label: Seq<char>, value: Seq<char>, description: Seq<char>, kind: KindView) -> ItemView {
    ItemView { key, label, value, description, kind }
}

/// The General settings shown for the configuration `c`.
pub open spec fn spec_general_items(c: ConfigView) -> Seq<ItemView> {
    seq![
        item_spec("refresh_interval_ms"@, "Refresh Interval"@, nat_to_dec(c.refresh_interval_ms as nat), "How often to refresh system data (ms)"@, KindView::Number { min: 200, max: 10000, suffix: " ms"@, integer: true }),
        item_spec("theme"@, "Theme"@, c.theme, "Color theme (cycles through built-in themes)"@, KindView::Cycle(c.theme_names)),
        item_spec("lang"@, "Language"@, c.lang, "UI language (en, ja, es, de, zh)"@, KindView::Cycle(seq!["en"@, "ja"@, "es"@, "de"@, "zh"@])),
        item_spec("auto_analysis_interval_secs"@, "Auto-Analysis"@, nat_to_dec(c.auto_analysis_interval_secs as nat), "AI insight refresh interval in seconds (0 = disabled)"@, KindView::Number { min: 0, max: 3600, suffix: " sec"@, integer: true }),
        item_spec("unicode_mode"@, "Glyph Mode"@, c.unicode_mode, "Character rendering: auto, unicode, or ascii (#17)"@, KindView::Cycle(seq!["auto"@, "unicode"@, "ascii"@])),
    ]
}

/// The Market settings shown for the configuration `c`.
pub open spec fn spec_market_items(c: ConfigView) -> Seq<ItemView> {
    seq![
        item_spec("market.enabled"@, "Enabled"@, bool_text(c.market_enabled), "Enable market data plugin"@, KindView::Toggle),
        item_spec("market.poll_interval_secs"@, "Poll Interval"@, nat_to_dec(c.market_poll_interval_secs as nat), "How often to refresh market data (seconds)"@, KindView::Number { min: 10, max: 600, suffix: " sec"@, integer: true }),
        item_spec("market.tickers"@, "Watchlist"@, nat_to_dec(c.market_ticker_count as nat) + " tickers"@, "Edit in Market tab (+/d) or config.toml"@, KindView::ReadOnly),
        item_spec("market.default_chart_range"@, "Default Chart"@, c.market_default_chart_range, "Default chart time range"@, KindView::Cycle(seq!["1h"@, "4h"@, "1d"@, "7d"@, "30d"@])),
    ]
}

/// The Thermal settings shown for the configuration `c`.
pub open spec fn spec_thermal_items(c: ConfigView) -> Seq<ItemView> {
    seq![
        item_spec("thermal.lhm_url"@, "LHM URL"@, c.lhm_url, "LibreHardwareMonitor HTTP JSON endpoint"@, KindView::Text { max_length: 200, masked: false }),
        item_spec("thermal.lhm_username"@, "LHM Username"@, or_empty(c.lhm_username), "HTTP Basic Auth username (empty = no auth)"@, KindView::Text { max_length: 100, masked: false }),
        item_spec("thermal.lhm_password"@, "LHM Password"@, or_empty(c.lhm_password), "HTTP Basic Auth password"@, KindView::Text { max_length: 100, masked: true }),
        item_spec("thermal.poll_interval_secs"@, "Poll Interval"@, nat_to_dec(c.thermal_poll_interval_secs as nat), "Temperature polling interval (seconds)"@, KindView::Number { min: 1, max: 300, suffix: " sec"@, integer: true }),
        item_spec("thermal.warning_threshold"@, "Warning Temp"@, c.warning_threshold_text, "Warning temperature threshold (Celsius)"@, KindView::Number { min: 30, max: 150, suffix: " C"@, integer: false }),
        item_spec("thermal.critical_threshold"@, "Critical Temp"@, c.critical_threshold_text, "Critical temperature threshold (Celsius)"@, KindView::Number { min: 30, max: 150, suffix: " C"@, integer: false }),
        item_spec("thermal.emergency_threshold"@, "Emergency Temp"@, c.emergency_threshold_text, "Emergency shutdown threshold (Celsius)"@, KindView::Number { min: 30, max: 150, suffix: " C"@, integer: false }),
        item_spec("thermal.auto_shutdown_enabled"@, "Auto-Shutdown"@, bool_text(c.auto_shutdown_enabled), "Enable thermal auto-shutdown"@, KindView::Toggle),
        item_spec("thermal.sustained_seconds"@, "Sustained Secs"@, nat_to_dec(c.sustained_seconds as nat), "Seconds at emergency temp before shutdown (#18)"@, KindView::Number { min: 5, max: 300, suffix: " sec"@, integer: true }),
        item_spec("thermal.shutdown_schedule_start"@, "Schedule Start"@, nat_to_dec(c.shutdown_schedule_start as nat), "Hour (0-23) when shutdown protection begins (#18)"@, KindView::Number { min: 0, max: 23, suffix: "h"@, integer: true }),
        item_spec("thermal.shutdown_schedule_end"@, "Schedule End"@, nat_to_dec(c.shutdown_schedule_end as nat), "Hour (0-24) when shutdown protection ends (#18)"@, KindView::Number { min: 0, max: 24, suffix: "h"@, integer: true }),
    ]
}

/// The Alerts settings shown for the configuration `c`.
pub open spec fn spec_alerts_items(c: ConfigView) -> Seq<ItemView> {
    seq![
        item_spec("cpu_warning_threshold"@, "CPU Warning"@, c.cpu_warning_text, "CPU usage warning threshold (%)"@, KindView::Number { min: 1, max: 100, suffix: "%"@, integer: false }),
        item_spec("cpu_critical_threshold"@, "CPU Critical"@, c.cpu_critical_text, "CPU usage critical threshold (%)"@, KindView::Number { min: 1, max: 100, suffix: "%"@, integer: false }),
        item_spec("mem_warning_threshold_mib"@, "Mem Warning"@, nat_to_dec((c.mem_warning_threshold_bytes / 1048576) as nat), "Per-process memory warning (MiB)"@, KindView::Number { min: 64, max: 65536, suffix: " MiB"@, integer: true }),
        item_spec("mem_critical_threshold_mib"@, "Mem Critical"@, nat_to_dec((c.mem_critical_threshold_bytes / 1048576) as nat), "Per-process memory critical threshold (MiB) (#19)"@, KindView::Number { min: 64, max: 65536, suffix: " MiB"@, integer: true }),
        item_spec("sys_mem_warning_percent"@, "Sys Mem Warn"@, c.sys_mem_warning_text, "System memory warning threshold (%) (#19)"@, KindView::Number { min: 1, max: 100, suffix: "%"@, integer: false }),
        item_spec("sys_mem_critical_percent"@, "Sys Mem Crit"@, c.sys_mem_critical_text, "System memory critical threshold (%) (#19)"@, KindView::Number { min: 1, max: 100, suffix: "%"@, integer: false }),
        item_spec("max_alerts"@, "Max Alerts"@, nat_to_dec(c.max_alerts as nat), "Maximum alerts in history"@, KindView::Number { min: 10, max: 10000, suffix: ""@, integer: true }),
    ]
}

/// The Security settings shown for the configuration `c`.
pub open spec fn spec_security_items(c: ConfigView) -> Seq<ItemView> {
    seq![
        item_spec("security.ssh_brute_force_threshold"@, "SSH Threshold"@, nat_to_dec(c.ssh_brute_force_threshold as nat), "Failed SSH attempts to flag as brute-force (#16)"@, KindView::Number { min: 1, max: 100, suffix: ""@, integer: true }),
        item_spec("security.score_alert_threshold"@, "Score Alert"@, nat_to_dec(c.score_alert_threshold as nat), "Alert when security score drops below this (#16)"@, KindView::Number { min: 0, max: 100, suffix: ""@, integer: true }),
        item_spec("security.max_suspicious_outbound"@, "Max Outbound"@, nat_to_dec(c.max_suspicious_outbound as nat), "Max suspicious outbound connections to track (#16)"@, KindView::Number { min: 1, max: 500, suffix: ""@, integer: true }),
        item_spec("suspicious_patterns"@, "Suspicious Procs"@, nat_to_dec(c.suspicious_pattern_count as nat) + " patterns"@, "Edit process patterns in config.toml"@, KindView::ReadOnly),
        item_spec("security_threat_patterns"@, "Threat Patterns"@, nat_to_dec(c.threat_pattern_count as nat) + " patterns"@, "Edit threat patterns in config.toml"@, KindView::ReadOnly),
    ]
}

/// The Notifications settings shown for the configuration `c`.
pub open spec fn spec_notifications_items(c: ConfigView) -> Seq<ItemView> {
    seq![
        item_spec("notifications.email_enabled"@, "Email Enabled"@, bool_text(c.email_enabled), "Enable email notifications (requires .env credentials)"@, KindView::Toggle),
        item_spec("notifications.telegram_enabled"@, "Telegram Enabled"@, bool_text(c.telegram_enabled), "Enable Telegram alert notifications"@, KindView::Toggle),
        item_spec("notifications.telegram_bot_token"@, "Bot Token"@, or_empty(c.telegram_bot_token), "Telegram bot token from @BotFather"@, KindView::Text { max_length: 100, masked: true }),
        item_spec("notifications.telegram_chat_id"@, "Chat ID"@, or_empty(c.telegram_chat_id), "Telegram chat ID to send alerts to"@, KindView::Text { max_length: 50, masked: false }),
        item_spec("notifications.telegram_min_severity"@, "Min Severity"@, c.telegram_min_severity, "Minimum alert severity to send via Telegram"@, KindView::Cycle(seq!["warning"@, "critical"@, "danger"@])),
    ]
}

/// The settings list for the configuration `c`: six categories, in order, with
/// fixed keys, labels, descriptions and edit kinds, and values taken from `c`.
pub open spec fn spec_settings_list(c: ConfigView) -> Seq<(SettingsCategory, Seq<ItemView>)> {
    seq![
        (SettingsCategory::General, spec_general_items(c)),
        (SettingsCategory::Market, spec_market_items(c)),
        (SettingsCategory::Thermal, spec_thermal_items(c)),
        (SettingsCategory::Alerts, spec_alerts_items(c)),
        (SettingsCategory::Security, spec_security_items(c)),
        (SettingsCategory::Notifications, spec_notifications_items(c)),
    ]
}

fn lit(s: &str) -> (r: String)
    ensures
        r@ == s@,
{
    string_of(chars_of(s).as_slice())
}

fn bool_chars(b: bool) -> (r: Vec<char>)
    ensures
        r@ == bool_text(b),
{
    if b {
        chars_of("true")
    } else {
        chars_of("false")
    }
}

fn opt_chars(o: &Option<String>) -> (r: Vec<char>)
    ensures
        r@ == or_empty(opt_view(*o)),
{
    match o {
        Some(s) => chars_of(s.as_str()),
        None => Vec::new(),
    }
}

fn count_text(n: usize, unit: &str) -> (r: Vec<char>)
    ensures
        r@ == nat_to_dec(n as nat) + unit@,
{
    let mut v = u64_to_dec(n as u64);
    push_str(&mut v, unit);
    v
}

fn number_kind(min: u64, max: u64, suffix: &str, integer: bool) -> (k: SettingKind)
    ensures
        kind_view(k) == (KindView::Number { min, max, suffix: suffix@, integer }),
{
    SettingKind::Number { min, max, suffix: lit(suffix), integer }
}

fn copy_strings(v: &Vec<String>) -> (r: Vec<String>)
    ensures
        option_texts(r@) == option_texts(v@),
{
    let mut r: Vec<String> = Vec::new();
    let mut i: usize = 0;
    while i < v.len()
        invariant
            i <= v@.len(),
            r@.len() == i,
            forall|k: int| 0 <= k < i ==> #[trigger] r@[k]@ == v@[k]@,
        decreases v@.len() - i,
    {
        r.push(v[i].clone());
        i = i + 1;
    }
    proof {
        assert(option_texts(r@) =~= option_texts(v@));
    }
    r
}

fn item(key: &str, label: &str, value: Vec<char>, description: &str, kind: SettingKind) -> (r: SettingItem)
    ensures
        item_view(r) == item_spec(key@, label@, value@, description@, kind_view(kind)),
{
    SettingItem {
        key: lit(key),
        label: lit(label),
        value: string_of(value.as_slice()),
        description: lit(description),
        kind,
    }
}

fn lang_options() -> (r: Vec<String>)
    ensures
        option_texts(r@) == seq!["en"@, "ja"@, "es"@, "de"@, "zh"@],
{
    let r = vec![lit("en"), lit("ja"), lit("es"), lit("de"), lit("zh")];
    proof {
        assert(option_texts(r@) =~= seq!["en"@, "ja"@, "es"@, "de"@, "zh"@]);
    }
    r
}

fn glyph_modes() -> (r: Vec<String>)
    ensures
        option_texts(r@) == seq!["auto"@, "unicode"@, "ascii"@],
{
    let r = vec![lit("auto"), lit("unicode"), lit("ascii")];
    proof {
        assert(option_texts(r@) =~= seq!["auto"@, "unicode"@, "ascii"@]);
    }
    r
}

fn chart_ranges() -> (r: Vec<String>)
    ensures
        option_texts(r@) == seq!["1h"@, "4h"@, "1d"@, "7d"@, "30d"@],
{
    let r = vec![lit("1h"), lit("4h"), lit("1d"), lit("7d"), lit("30d")];
    proof {
        assert(option_texts(r@) =~= seq!["1h"@, "4h"@, "1d"@, "7d"@, "30d"@]);
    }
    r
}

fn severities() -> (r: Vec<String>)
    ensures
        option_texts(r@) == seq!["warning"@, "critical"@, "danger"@],
{
    let r = vec![lit("warning"), lit("critical"), lit("danger")];
    proof {
        assert(option_texts(r@) =~= seq!["warning"@, "critical"@, "danger"@]);
    }
    r
}

fn general_items(cfg: &ConfigValues) -> (r: Vec<SettingItem>)
    ensures
        items_view(r@) == spec_general_items(cfg@),
{
    let i0 = item("refresh_interval_ms", "Refresh Interval", u64_to_dec(cfg.refresh_interval_ms as u64), "How often to refresh system data (ms)", number_kind(200, 10000, " ms", true));
    let i1 = item("theme", "Theme", chars_of(cfg.theme.as_str()), "Color theme (cycles through built-in themes)", SettingKind::Cycle(copy_strings(&cfg.theme_names)));
    let i2 = item("lang", "Language", chars_of(cfg.lang.as_str()), "UI language (en, ja, es, de, zh)", SettingKind::Cycle(lang_options()));
    let i3 = item("auto_analysis_interval_secs", "Auto-Analysis", u64_to_dec(cfg.auto_analysis_interval_secs as u64), "AI insight refresh interval in seconds (0 = disabled)", number_kind(0, 3600, " sec", true));
    let i4 = item("unicode_mode", "Glyph Mode", chars_of(cfg.unicode_mode.as_str()), "Character rendering: auto, unicode, or ascii (#17)", SettingKind::Cycle(glyph_modes()));
    let r = vec![i0, i1, i2, i3, i4];
    proof {
        assert(items_view(r@) =~= spec_general_items(cfg@));
    }
    r
}

fn market_items(cfg: &ConfigValues) -> (r: Vec<SettingItem>)
    ensures
        items_view(r@) == spec_market_items(cfg@),
{
    let i0 = item("market.enabled", "Enabled", bool_chars(cfg.market_enabled), "Enable market data plugin", SettingKind::Toggle);
    let i1 = item("market.poll_interval_secs", "Poll Interval", u64_to_dec(cfg.market_poll_interval_secs as u64), "How often to refresh market data (seconds)", number_kind(10, 600, " sec", true));
    let i2 = item("market.tickers", "Watchlist", count_text(cfg.market_ticker_count, " tickers"), "Edit in Market tab (+/d) or config.toml", SettingKind::ReadOnly);
    let i3 = item("market.default_chart_range", "Default Chart", chars_of(cfg.market_default_chart_range.as_str()), "Default chart time range", SettingKind::Cycle(chart_ranges()));
    let r = vec![i0, i1, i2, i3];
    proof {
        assert(items_view(r@) =~= spec_market_items(cfg@));
    }
    r
}

fn thermal_items(cfg: &ConfigValues) -> (r: Vec<SettingItem>)
    ensures
        items_view(r@) == spec_thermal_items(cfg@),
{
    let i0 = item("thermal.lhm_url", "LHM URL", chars_of(cfg.lhm_url.as_str()), "LibreHardwareMonitor HTTP JSON endpoint", SettingKind::Text { max_length: 200, masked: false });
    let i1 = item("thermal.lhm_username", "LHM Username", opt_chars(&cfg.lhm_username), "HTTP Basic Auth username (empty = no auth)", SettingKind::Text { max_length: 100, masked: false });
    let i2 = item("thermal.lhm_password", "LHM Password", opt_chars(&cfg.lhm_password), "HTTP Basic Auth password", SettingKind::Text { max_length: 100, masked: true });
    let i3 = item("thermal.poll_interval_secs", "Poll Interval", u64_to_dec(cfg.thermal_poll_interval_secs as u64), "Temperature polling interval (seconds)", number_kind(1, 300, " sec", true));
    let i4 = item("thermal.warning_threshold", "Warning Temp", chars_of(cfg.warning_threshold_text.as_str()), "Warning temperature threshold (Celsius)", number_kind(30, 150, " C", false));
    let i5 = item("thermal.critical_threshold", "Critical Temp", chars_of(cfg.critical_threshold_text.as_str()), "Critical temperature threshold (Celsius)", number_kind(30, 150, " C", false));
    let i6 = item("thermal.emergency_threshold", "Emergency Temp", chars_of(cfg.emergency_threshold_text.as_str()), "Emergency shutdown threshold (Celsius)", number_kind(30, 150, " C", false));
    let i7 = item("thermal.auto_shutdown_enabled", "Auto-Shutdown", bool_chars(cfg.auto_shutdown_enabled), "Enable thermal auto-shutdown", SettingKind::Toggle);
    let i8 = item("thermal.sustained_seconds", "Sustained Secs", u64_to_dec(cfg.sustained_seconds as u64), "Seconds at emergency temp before shutdown (#18)", number_kind(5, 300, " sec", true));
    let i9 = item("thermal.shutdown_schedule_start", "Schedule Start", u64_to_dec(cfg.shutdown_schedule_start as u64), "Hour (0-23) when shutdown protection begins (#18)", number_kind(0, 23, "h", true));
    let i10 = item("thermal.shutdown_schedule_end", "Schedule End", u64_to_dec(cfg.shutdown_schedule_end as u64), "Hour (0-24) when shutdown protection ends (#18)", number_kind(0, 24, "h", true));
    let r = vec![i0, i1, i2, i3, i4, i5, i6, i7, i8, i9, i10];
    proof {
        assert(items_view(r@) =~= spec_thermal_items(cfg@));
    }
    r
}

fn alerts_items(cfg: &ConfigValues) -> (r: Vec<SettingItem>)
    ensures
        items_view(r@) == spec_alerts_items(cfg@),
{
    let i0 = item("cpu_warning_threshold", "CPU Warning", chars_of(cfg.cpu_warning_text.as_str()), "CPU usage warning threshold (%)", number_kind(1, 100, "%", false));
    let i1 = item("cpu_critical_threshold", "CPU Critical", chars_of(cfg.cpu_critical_text.as_str()), "CPU usage critical threshold (%)", number_kind(1, 100, "%", false));
    let i2 = item("mem_warning_threshold_mib", "Mem Warning", u64_to_dec(cfg.mem_warning_threshold_bytes / 1048576), "Per-process memory warning (MiB)", number_kind(64, 65536, " MiB", true));
    let i3 = item("mem_critical_threshold_mib", "Mem Critical", u64_to_dec(cfg.mem_critical_threshold_bytes / 1048576), "Per-process memory critical threshold (MiB) (#19)", number_kind(64, 65536, " MiB", true));
    let i4 = item("sys_mem_warning_percent", "Sys Mem Warn", chars_of(cfg.sys_mem_warning_text.as_str()), "System memory warning threshold (%) (#19)", number_kind(1, 100, "%", false));
    let i5 = item("sys_mem_critical_percent", "Sys Mem Crit", chars_of(cfg.sys_mem_critical_text.as_str()), "System memory critical threshold (%) (#19)", number_kind(1, 100, "%", false));
    let i6 = item("max_alerts", "Max Alerts", u64_to_dec(cfg.max_alerts as u64), "Maximum alerts in history", number_kind(10, 10000, "", true));
    let r = vec![i0, i1, i2, i3, i4, i5, i6];
    proof {
        assert(items_view(r@) =~= spec_alerts_items(cfg@));
    }
    r
}

fn security_items(cfg: &ConfigValues) -> (r: Vec<SettingItem>)
    ensures
        items_view(r@) == spec_security_items(cfg@),
{
    let i0 = item("security.ssh_brute_force_threshold", "SSH Threshold", u64_to_dec(cfg.ssh_brute_force_threshold as u64), "Failed SSH attempts to flag as brute-force (#16)", number_kind(1, 100, "", true));
    let i1 = item("security.score_alert_threshold", "Score Alert", u64_to_dec(cfg.score_alert_threshold as u64), "Alert when security score drops below this (#16)", number_kind(0, 100, "", true));
    let i2 = item("security.max_suspicious_outbound", "Max Outbound", u64_to_dec(cfg.max_suspicious_outbound as u64), "Max suspicious outbound connections to track (#16)", number_kind(1, 500, "", true));
    let i3 = item("suspicious_patterns", "Suspicious Procs", count_text(cfg.suspicious_pattern_count, " patterns"), "Edit process patterns in config.toml", SettingKind::ReadOnly);
    let i4 = item("security_threat_patterns", "Threat Patterns", count_text(cfg.threat_pattern_count, " patterns"), "Edit threat patterns in config.toml", SettingKind::ReadOnly);
    let r = vec![i0, i1, i2, i3, i4];
    proof {
        assert(items_view(r@) =~= spec_security_items(cfg@));
    }
    r
}

fn notifications_items(cfg: &ConfigValues) -> (r: Vec<SettingItem>)
    ensures
        items_view(r@) == spec_notifications_items(cfg@),
{
    let i0 = item("notifications.email_enabled", "Email Enabled", bool_chars(cfg.email_enabled), "Enable email notifications (requires .env credentials)", SettingKind::Toggle);
    let i1 = item("notifications.telegram_enabled", "Telegram Enabled", bool_chars(cfg.telegram_enabled), "Enable Telegram alert notifications", SettingKind::Toggle);
    let i2 = item("notifications.telegram_bot_token", "Bot Token", opt_chars(&cfg.telegram_bot_token), "Telegram bot token from @BotFather", SettingKind::Text { max_length: 100, masked: true });
    let i3 = item("notifications.telegram_chat_id", "Chat ID", opt_chars(&cfg.telegram_chat_id), "Telegram chat ID to send alerts to", SettingKind::Text { max_length: 50, masked: false });
    let i4 = item("notifications.telegram_min_severity", "Min Severity", chars_of(cfg.telegram_min_severity.as_str()), "Minimum alert severity to send via Telegram", SettingKind::Cycle(severities()));
    let r = vec![i0, i1, i2, i3, i4];
    proof {
        assert(items_view(r@) =~= spec_notifications_items(cfg@));
    }
    r
}

/// Every cycling setting in `items` offers at least one value.
pub open spec fn view_cycles_nonempty(items: Seq<ItemView>) -> bool {
    forall|i: int| 0 <= i < items.len() ==> match #[trigger] items[i].kind {
        KindView::Cycle(o) => o.len() > 0,
        _ => true,
    }
}

proof fn lemma_spec_cycles_nonempty(c: ConfigView)
    requires
        c.theme_names.len() > 0,
    ensures
        forall|k: int| 0 <= k < spec_settings_list(c).len() ==> view_cycles_nonempty(
            #[trigger] spec_settings_list(c)[k].1,
        ),
{
    let l = spec_settings_list(c);
    assert(view_cycles_nonempty(spec_general_items(c)));
    assert(view_cycles_nonempty(spec_market_items(c)));
    assert(view_cycles_nonempty(spec_thermal_items(c)));
    assert(view_cycles_nonempty(spec_alerts_items(c)));
    assert(view_cycles_nonempty(spec_security_items(c)));
    assert(view_cycles_nonempty(spec_notifications_items(c)));
    assert forall|k: int| 0 <= k < l.len() implies view_cycles_nonempty(#[trigger] l[k].1) by {
        if k == 0 {
        } else if k == 1 {
        } else if k == 2 {
        } else if k == 3 {
        } else if k == 4 {
        } else {
        }
    }
}

/// The settings list for `cfg`.
pub fn settings_list(cfg: &ConfigValues) -> (s: Vec<(SettingsCategory, Vec<SettingItem>)>)
    ensures
        list_view(s@) == spec_settings_list(cfg@),
        cfg.theme_names@.len() > 0 ==> cycles_nonempty(s@),
{
    let general = general_items(cfg);
    let market = market_items(cfg);
    let thermal = thermal_items(cfg);
    let alerts = alerts_items(cfg);
    let security = security_items(cfg);
    let notifications = notifications_items(cfg);
    let s = vec![(SettingsCategory::General, general), (SettingsCategory::Market, market), (SettingsCategory::Thermal, thermal), (SettingsCategory::Alerts, alerts), (SettingsCategory::Security, security), (SettingsCategory::Notifications, notifications)];
    proof {
        assert(list_view(s@) =~= spec_settings_list(cfg@));
        if cfg.theme_names@.len() > 0 {
            assert forall|c: int, i: int| 0 <= c < s@.len() && 0 <= i < s@[c].1@.len() implies match #[trigger] s@[c].1@[i].kind {
                SettingKind::Cycle(opts) => opts@.len() > 0,
                _ => true,
            } by {
                lemma_spec_cycles_nonempty(cfg@);
                assert(list_view(s@)[c].1 == items_view(s@[c].1@));
                assert(items_view(s@[c].1@)[i] == item_view(s@[c].1@[i]));
                assert(spec_settings_list(cfg@)[c].1[i] == item_view(s@[c].1@[i]));
                if let SettingKind::Cycle(opts) = s@[c].1@[i].kind {
                    assert(option_texts(opts@).len() == opts@.len());
                }
            }
        }
    }
    s
}

/// What storing an edited value came to.
#[derive(Debug, Clone, Copy, PartialEq, Eq, Structural)]
pub enum ApplyResult {
    /// The value was stored.
    Stored,
    /// The key is unknown or the value does not parse.
    Refused,
    /// The key names a floating-point threshold, which the application parses
    /// and clamps; nothing was stored here.
    FloatSetting,
}

pub open spec fn max_of(a: nat, b: nat) -> nat {
    if a < b {
        b
    } else {
        a
    }
}

pub open spec fn min_of(a: nat, b: nat) -> nat {
    if a < b {
        a
    } else {
        b
    }
}

/// A memory threshold typed in MiB fits in bytes (`u64`) once raised to the
/// 64 MiB minimum; the configuration writer overflows otherwise.
pub open spec fn apply_fits(key: Seq<char>, v: Seq<char>) -> bool {
    (key == "mem_warning_threshold_mib"@ || key == "mem_critical_threshold_mib"@) ==> match parse_dec(
        v,
        u64::MAX as nat,
    ) {
        Some(n) => max_of(n, 64) * 1048576 <= u64::MAX,
        None => true,
    }
}


/// `spec_apply` on the general settings; `None` for any other key.
pub open spec fn spec_apply_general(c: ConfigView, key: Seq<char>, v: Seq<char>) -> Option<(ApplyResult, ConfigView)> {
    if key == "refresh_interval_ms"@ {
        Some(match parse_dec(v, u64::MAX as nat) {
            Some(n) => (ApplyResult::Stored, ConfigView { refresh_interval_ms: max_of(n, 200) as u64, ..c }),
            None => (ApplyResult::Refused, c),
        })
    } else if key == "theme"@ {
        Some((ApplyResult::Stored, ConfigView { theme: v, ..c }))
    } else if key == "lang"@ {
        Some((ApplyResult::Stored, ConfigView { lang: v, ..c }))
    } else if key == "auto_analysis_interval_secs"@ {
        Some(match parse_dec(v, u64::MAX as nat) {
            Some(n) => (ApplyResult::Stored, ConfigView { auto_analysis_interval_secs: n as u64, ..c }),
            None => (ApplyResult::Refused, c),
        })
    } else if key == "unicode_mode"@ {
        Some((ApplyResult::Stored, ConfigView { unicode_mode: v, ..c }))
    } else {
        None
    }
}

/// `spec_apply` on the market settings; `None` for any other key.
pub open spec fn spec_apply_market(c: ConfigView, key: Seq<char>, v: Seq<char>) -> Option<(ApplyResult, ConfigView)> {
    if key == "market.enabled"@ {
        Some((ApplyResult::Stored, ConfigView { market_enabled: v == "true"@, ..c }))
    } else if key == "market.poll_interval_secs"@ {
        Some(match parse_dec(v, u64::MAX as nat) {
            Some(n) => (ApplyResult::Stored, ConfigView { market_poll_interval_secs: max_of(n, 10) as u64, ..c }),
            None => (ApplyResult::Refused, c),
        })
    } else if key == "market.default_chart_range"@ {
        Some((ApplyResult::Stored, ConfigView { market_default_chart_range: v, ..c }))
    } else {
        None
    }
}

/// `spec_apply` on the thermal link settings; `None` for any other key.
pub open spec fn spec_apply_thermal_link(c: ConfigView, key: Seq<char>, v: Seq<char>) -> Option<(ApplyResult, ConfigView)> {
    if key == "thermal.lhm_url"@ {
        Some((ApplyResult::Stored, if v.len() > 0 { ConfigView { lhm_url: v, ..c } } else { c }))
    } else if key == "thermal.lhm_username"@ {
        Some((ApplyResult::Stored, ConfigView { lhm_username: if v.len() == 0 { None } else { Some(v) }, ..c }))
    } else if key == "thermal.lhm_password"@ {
        Some((ApplyResult::Stored, ConfigView { lhm_password: if v.len() == 0 { None } else { Some(v) }, ..c }))
    } else if key == "thermal.poll_interval_secs"@ {
        Some(match parse_dec(v, u64::MAX as nat) {
            Some(n) => (ApplyResult::Stored, ConfigView { thermal_poll_interval_secs: max_of(n, 1) as u64, ..c }),
            None => (ApplyResult::Refused, c),
        })
    } else {
        None
    }
}

/// `spec_apply` on the thermal limits settings; `None` for any other key.
pub open spec fn spec_apply_thermal_limits(c: ConfigView, key: Seq<char>, v: Seq<char>) -> Option<(ApplyResult, ConfigView)> {
    if key == "thermal.warning_threshold"@ {
        Some((ApplyResult::FloatSetting, c))
    } else if key == "thermal.critical_threshold"@ {
        Some((ApplyResult::FloatSetting, c))
    } else if key == "thermal.emergency_threshold"@ {
        Some((ApplyResult::FloatSetting, c))
    } else if key == "thermal.auto_shutdown_enabled"@ {
        Some((ApplyResult::Stored, ConfigView { auto_shutdown_enabled: v == "true"@, ..c }))
    } else if key == "thermal.sustained_seconds"@ {
        Some(match parse_dec(v, u64::MAX as nat) {
            Some(n) => (ApplyResult::Stored, ConfigView { sustained_seconds: max_of(n, 5) as u64, ..c }),
            None => (ApplyResult::Refused, c),
        })
    } else if key == "thermal.shutdown_schedule_start"@ {
        Some(match parse_dec(v, 255) {
            Some(n) => (ApplyResult::Stored, ConfigView { shutdown_schedule_start: min_of(n, 23) as u8, ..c }),
            None => (ApplyResult::Refused, c),
        })
    } else if key == "thermal.shutdown_schedule_end"@ {
        Some(match parse_dec(v, 255) {
            Some(n) => (ApplyResult::Stored, ConfigView { shutdown_schedule_end: min_of(n, 24) as u8, ..c }),
            None => (ApplyResult::Refused, c),
        })
    } else {
        None
    }
}

/// `spec_apply` on the alerts settings; `None` for any other key.
pub open spec fn spec_apply_alerts(c: ConfigView, key: Seq<char>, v: Seq<char>) -> Option<(ApplyResult, ConfigView)> {
    if key == "cpu_warning_threshold"@ {
        Some((ApplyResult::FloatSetting, c))
    } else if key == "cpu_critical_threshold"@ {
        Some((ApplyResult::FloatSetting, c))
    } else if key == "mem_warning_threshold_mib"@ {
        Some(match parse_dec(v, u64::MAX as nat) {
            Some(n) => (ApplyResult::Stored, ConfigView { mem_warning_threshold_bytes: (max_of(n, 64) * 1048576) as u64, ..c }),
            None => (ApplyResult::Refused, c),
        })
    } else if key == "mem_critical_threshold_mib"@ {
        Some(match parse_dec(v, u64::MAX as nat) {
            Some(n) => (ApplyResult::Stored, ConfigView { mem_critical_threshold_bytes: (max_of(n, 64) * 1048576) as u64, ..c }),
            None => (ApplyResult::Refused, c),
        })
    } else if key == "sys_mem_warning_percent"@ {
        Some((ApplyResult::FloatSetting, c))
    } else if key == "sys_mem_critical_percent"@ {
        Some((ApplyResult::FloatSetting, c))
    } else if key == "max_alerts"@ {
        Some(match parse_dec(v, usize::MAX as nat) {
            Some(n) => (ApplyResult::Stored, ConfigView { max_alerts: max_of(n, 10) as usize, ..c }),
            None => (ApplyResult::Refused, c),
        })
    } else {
        None
    }
}

/// `spec_apply` on the security settings; `None` for any other key.
pub open spec fn spec_apply_security(c: ConfigView, key: Seq<char>, v: Seq<char>) -> Option<(ApplyResult, ConfigView)> {
    if key == "security.ssh_brute_force_threshold"@ {
        Some(match parse_dec(v, usize::MAX as nat) {
            Some(n) => (ApplyResult::Stored, ConfigView { ssh_brute_force_threshold: max_of(n, 1) as usize, ..c }),
            None => (ApplyResult::Refused, c),
        })
    } else if key == "security.score_alert_threshold"@ {
        Some(match parse_dec(v, 255) {
            Some(n) => (ApplyResult::Stored, ConfigView { score_alert_threshold: min_of(n, 100) as u8, ..c }),
            None => (ApplyResult::Refused, c),
        })
    } else if key == "security.max_suspicious_outbound"@ {
        Some(match parse_dec(v, usize::MAX as nat) {
            Some(n) => (ApplyResult::Stored, ConfigView { max_suspicious_outbound: max_of(n, 1) as usize, ..c }),
            None => (ApplyResult::Refused, c),
        })
    } else {
        None
    }
}

/// `spec_apply` on the notifications settings; `None` for any other key.
pub open spec fn spec_apply_notifications(c: ConfigView, key: Seq<char>, v: Seq<char>) -> Option<(ApplyResult, ConfigView)> {
    if key == "notifications.email_enabled"@ {
        Some((ApplyResult::Stored, ConfigView { email_enabled: v == "true"@, ..c }))
    } else if key == "notifications.telegram_enabled"@ {
        Some((ApplyResult::Stored, ConfigView { telegram_enabled: v == "true"@, ..c }))
    } else if key == "notifications.telegram_bot_token"@ {
        Some((ApplyResult::Stored, ConfigView { telegram_bot_token: if v.len() == 0 { None } else { Some(v) }, ..c }))
    } else if key == "notifications.telegram_chat_id"@ {
        Some((ApplyResult::Stored, ConfigView { telegram_chat_id: if v.len() == 0 { None } else { Some(v) }, ..c }))
    } else if key == "notifications.telegram_min_severity"@ {
        Some((ApplyResult::Stored, ConfigView { telegram_min_severity: v, ..c }))
    } else {
        None
    }
}

/// Storing `v` under the setting `key` in the configuration `c`: numbers are
/// parsed (and raised to their minimum or cut to their maximum), flags are set
/// when the text is "true", texts are stored as typed (an empty optional text
/// clears it, an empty LHM URL is ignored), floating-point thresholds are left
/// to the application, and unknown keys are refused.
pub open spec fn spec_apply(c: ConfigView, key: Seq<char>, v: Seq<char>) -> (ApplyResult, ConfigView) {
    if let Some(r) = spec_apply_general(c, key, v) {
        r
    } else if let Some(r) = spec_apply_market(c, key, v) {
        r
    } else if let Some(r) = spec_apply_thermal_link(c, key, v) {
        r
    } else if let Some(r) = spec_apply_thermal_limits(c, key, v) {
        r
    } else if let Some(r) = spec_apply_alerts(c, key, v) {
        r
    } else if let Some(r) = spec_apply_security(c, key, v) {
        r
    } else if let Some(r) = spec_apply_notifications(c, key, v) {
        r
    } else {
        (ApplyResult::Refused, c)
    }
}

fn apply_general(cfg: &mut ConfigValues, k: &[char], v: &[char]) -> (r: Option<ApplyResult>)
    requires
        apply_fits(k@, v@),
    ensures
        match spec_apply_general(old(cfg)@, k@, v@) {
            Some((res, c)) => r == Some(res) && final(cfg)@ == c,
            None => r is None && final(cfg)@ == old(cfg)@,
        },
{
    if eq_str(k, "refresh_interval_ms") {
        match parse_dec_u64(v, u64::MAX) {
            Some(n) => {
                cfg.refresh_interval_ms = if n < 200 { 200 } else { n };
                Some(ApplyResult::Stored)
            },
            None => Some(ApplyResult::Refused),
        }
    } else if eq_str(k, "theme") {
        cfg.theme = string_of(v);
        Some(ApplyResult::Stored)
    } else if eq_str(k, "lang") {
        cfg.lang = string_of(v);
        Some(ApplyResult::Stored)
    } else if eq_str(k, "auto_analysis_interval_secs") {
        match parse_dec_u64(v, u64::MAX) {
            Some(n) => {
                cfg.auto_analysis_interval_secs = n;
                Some(ApplyResult::Stored)
            },
            None => Some(ApplyResult::Refused),
        }
    } else if eq_str(k, "unicode_mode") {
        cfg.unicode_mode = string_of(v);
        Some(ApplyResult::Stored)
    } else {
        None
    }
}

fn apply_market(cfg: &mut ConfigValues, k: &[char], v: &[char]) -> (r: Option<ApplyResult>)
    requires
        apply_fits(k@, v@),
    ensures
        match spec_apply_market(old(cfg)@, k@, v@) {
            Some((res, c)) => r == Some(res) && final(cfg)@ == c,
            None => r is None && final(cfg)@ == old(cfg)@,
        },
{
    if eq_str(k, "market.enabled") {
        cfg.market_enabled = eq_str(v, "true");
        Some(ApplyResult::Stored)
    } else if eq_str(k, "market.poll_interval_secs") {
        match parse_dec_u64(v, u64::MAX) {
            Some(n) => {
                cfg.market_poll_interval_secs = if n < 10 { 10 } else { n };
                Some(ApplyResult::Stored)
            },
            None => Some(ApplyResult::Refused),
        }
    } else if eq_str(k, "market.default_chart_range") {
        cfg.market_default_chart_range = string_of(v);
        Some(ApplyResult::Stored)
    } else {
        None
    }
}

fn apply_thermal_link(cfg: &mut ConfigValues, k: &[char], v: &[char]) -> (r: Option<ApplyResult>)
    requires
        apply_fits(k@, v@),
    ensures
        match spec_apply_thermal_link(old(cfg)@, k@, v@) {
            Some((res, c)) => r == Some(res) && final(cfg)@ == c,
            None => r is None && final(cfg)@ == old(cfg)@,
        },
{
    if eq_str(k, "thermal.lhm_url") {
        if v.len() > 0 {
            cfg.lhm_url = string_of(v);
        }
        Some(ApplyResult::Stored)
    } else if eq_str(k, "thermal.lhm_username") {
        cfg.lhm_username = if v.len() == 0 { None } else { Some(string_of(v)) };
        Some(ApplyResult::Stored)
    } else if eq_str(k, "thermal.lhm_password") {
        cfg.lhm_password = if v.len() == 0 { None } else { Some(string_of(v)) };
        Some(ApplyResult::Stored)
    } else if eq_str(k, "thermal.poll_interval_secs") {
        match parse_dec_u64(v, u64::MAX) {
            Some(n) => {
                cfg.thermal_poll_interval_secs = if n < 1 { 1 } else { n };
                Some(ApplyResult::Stored)
            },
            None => Some(ApplyResult::Refused),
        }
    } else {
        None
    }
}

fn apply_thermal_limits(cfg: &mut ConfigValues, k: &[char], v: &[char]) -> (r: Option<ApplyResult>)
    requires
        apply_fits(k@, v@),
    ensures
        match spec_apply_thermal_limits(old(cfg)@, k@, v@) {
            Some((res, c)) => r == Some(res) && final(cfg)@ == c,
            None => r is None && final(cfg)@ == old(cfg)@,
        },
{
    if eq_str(k, "thermal.warning_threshold") {
        Some(ApplyResult::FloatSetting)
    } else if eq_str(k, "thermal.critical_threshold") {
        Some(ApplyResult::FloatSetting)
    } else if eq_str(k, "thermal.emergency_threshold") {
        Some(ApplyResult::FloatSetting)
    } else if eq_str(k, "thermal.auto_shutdown_enabled") {
        cfg.auto_shutdown_enabled = eq_str(v, "true");
        Some(ApplyResult::Stored)
    } else if eq_str(k, "thermal.sustained_seconds") {
        match parse_dec_u64(v, u64::MAX) {
            Some(n) => {
                cfg.sustained_seconds = if n < 5 { 5 } else { n };
                Some(ApplyResult::Stored)
            },
            None => Some(ApplyResult::Refused),
        }
    } else if eq_str(k, "thermal.shutdown_schedule_start") {
        match parse_dec_u64(v, 255) {
            Some(n) => {
                cfg.shutdown_schedule_start = if n < 23 { n as u8 } else { 23 };
                Some(ApplyResult::Stored)
            },
            None => Some(ApplyResult::Refused),
        }
    } else if eq_str(k, "thermal.shutdown_schedule_end") {
        match parse_dec_u64(v, 255) {
            Some(n) => {
                cfg.shutdown_schedule_end = if n < 24 { n as u8 } else { 24 };
                Some(ApplyResult::Stored)
            },
            None => Some(ApplyResult::Refused),
        }
    } else {
        None
    }
}

fn apply_alerts(cfg: &mut ConfigValues, k: &[char], v: &[char]) -> (r: Option<ApplyResult>)
    requires
        apply_fits(k@, v@),
    ensures
        match spec_apply_alerts(old(cfg)@, k@, v@) {
            Some((res, c)) => r == Some(res) && final(cfg)@ == c,
            None => r is None && final(cfg)@ == old(cfg)@,
        },
{
    if eq_str(k, "cpu_warning_threshold") {
        Some(ApplyResult::FloatSetting)
    } else if eq_str(k, "cpu_critical_threshold") {
        Some(ApplyResult::FloatSetting)
    } else if eq_str(k, "mem_warning_threshold_mib") {
        match parse_dec_u64(v, u64::MAX) {
            Some(n) => {
                cfg.mem_warning_threshold_bytes = (if n < 64 { 64 } else { n }) * 1048576;
                Some(ApplyResult::Stored)
            },
            None => Some(ApplyResult::Refused),
        }
    } else if eq_str(k, "mem_critical_threshold_mib") {
        match parse_dec_u64(v, u64::MAX) {
            Some(n) => {
                cfg.mem_critical_threshold_bytes = (if n < 64 { 64 } else { n }) * 1048576;
                Some(ApplyResult::Stored)
            },
            None => Some(ApplyResult::Refused),
        }
    } else if eq_str(k, "sys_mem_warning_percent") {
        Some(ApplyResult::FloatSetting)
    } else if eq_str(k, "sys_mem_critical_percent") {
        Some(ApplyResult::FloatSetting)
    } else if eq_str(k, "max_alerts") {
        match parse_dec_u64(v, usize::MAX as u64) {
            Some(n) => {
                cfg.max_alerts = if n < 10 { 10 } else { n as usize };
                Some(ApplyResult::Stored)
            },
            None => Some(ApplyResult::Refused),
        }
    } else {
        None
    }
}

fn apply_security(cfg: &mut ConfigValues, k: &[char], v: &[char]) -> (r: Option<ApplyResult>)
    requires
        apply_fits(k@, v@),
    ensures
        match spec_apply_security(old(cfg)@, k@, v@) {
            Some((res, c)) => r == Some(res) && final(cfg)@ == c,
            None => r is None && final(cfg)@ == old(cfg)@,
        },
{
    if eq_str(k, "security.ssh_brute_force_threshold") {
        match parse_dec_u64(v, usize::MAX as u64) {
            Some(n) => {
                cfg.ssh_brute_force_threshold = if n < 1 { 1 } else { n as usize };
                Some(ApplyResult::Stored)
            },
            None => Some(ApplyResult::Refused),
        }
    } else if eq_str(k, "security.score_alert_threshold") {
        match parse_dec_u64(v, 255) {
            Some(n) => {
                cfg.score_alert_threshold = if n < 100 { n as u8 } else { 100 };
                Some(ApplyResult::Stored)
            },
            None => Some(ApplyResult::Refused),
        }
    } else if eq_str(k, "security.max_suspicious_outbound") {
        match parse_dec_u64(v, usize::MAX as u64) {
            Some(n) => {
                cfg.max_suspicious_outbound = if n < 1 { 1 } else { n as usize };
                Some(ApplyResult::Stored)
            },
            None => Some(ApplyResult::Refused),
        }
    } else {
        None
    }
}

fn apply_notifications(cfg: &mut ConfigValues, k: &[char], v: &[char]) -> (r: Option<ApplyResult>)
    requires
        apply_fits(k@, v@),
    ensures
        match spec_apply_notifications(old(cfg)@, k@, v@) {
            Some((res, c)) => r == Some(res) && final(cfg)@ == c,
            None => r is None && final(cfg)@ == old(cfg)@,
        },
{
    if eq_str(k, "notifications.email_enabled") {
        cfg.email_enabled = eq_str(v, "true");
        Some(ApplyResult::Stored)
    } else if eq_str(k, "notifications.telegram_enabled") {
        cfg.telegram_enabled = eq_str(v, "true");
        Some(ApplyResult::Stored)
    } else if eq_str(k, "notifications.telegram_bot_token") {
        cfg.telegram_bot_token = if v.len() == 0 { None } else { Some(string_of(v)) };
        Some(ApplyResult::Stored)
    } else if eq_str(k, "notifications.telegram_chat_id") {
        cfg.telegram_chat_id = if v.len() == 0 { None } else { Some(string_of(v)) };
        Some(ApplyResult::Stored)
    } else if eq_str(k, "notifications.telegram_min_severity") {
        cfg.telegram_min_severity = string_of(v);
        Some(ApplyResult::Stored)
    } else {
        None
    }
}

/// Stores `value` under the setting `key` in `cfg`.
pub fn apply_setting(cfg: &mut ConfigValues, key: &str, value: &str) -> (r: ApplyResult)
    requires
        apply_fits(key@, value@),
    ensures
        (r, final(cfg)@) == spec_apply(old(cfg)@, key@, value@),
{
    let kc = chars_of(key);
    let vc = chars_of(value);
    let k = kc.as_slice();
    let v = vc.as_slice();
    if let Some(r) = apply_general(cfg, k, v) {
        return r;
    } else if let Some(r) = apply_market(cfg, k, v) {
        return r;
    } else if let Some(r) = apply_thermal_link(cfg, k, v) {
        return r;
    } else if let Some(r) = apply_thermal_limits(cfg, k, v) {
        return r;
    } else if let Some(r) = apply_alerts(cfg, k, v) {
        return r;
    } else if let Some(r) = apply_security(cfg, k, v) {
        return r;
    } else if let Some(r) = apply_notifications(cfg, k, v) {
        return r;
    }
    ApplyResult::Refused
}

/// Every setting the list lets you edit takes back the value it shows: storing
/// the shown value under its key is not refused (it is stored, or handed to the
/// application when it is a floating-point threshold), whatever configuration
/// it is stored into.
pub proof fn lemma_shown_values_accepted(c: ConfigView, d: ConfigView, k: int, i: int)
    requires
        0 <= k < spec_settings_list(c).len(),
        0 <= i < spec_settings_list(c)[k].1.len(),
        !(spec_settings_list(c)[k].1[i].kind is ReadOnly),
    ensures
        apply_fits(spec_settings_list(c)[k].1[i].key, spec_settings_list(c)[k].1[i].value),
        spec_apply(d, spec_settings_list(c)[k].1[i].key, spec_settings_list(c)[k].1[i].value).0
            != ApplyResult::Refused,
{
    reveal_strlit("refresh_interval_ms");
    assert("refresh_interval_ms"@.len() == 19);
    reveal_strlit("theme");
    assert("theme"@.len() == 5);
    reveal_strlit("lang");
    assert("lang"@.len() == 4);
    reveal_strlit("auto_analysis_interval_secs");
    assert("auto_analysis_interval_secs"@.len() == 27);
    reveal_strlit("unicode_mode");
    assert("unicode_mode"@.len() == 12);
    reveal_strlit("market.enabled");
    assert("market.enabled"@.len() == 14);
    reveal_strlit("market.poll_interval_secs");
    assert("market.poll_interval_secs"@.len() == 25);
    reveal_strlit("market.default_chart_range");
    assert("market.default_chart_range"@.len() == 26);
    reveal_strlit("thermal.lhm_url");
    assert("thermal.lhm_url"@.len() == 15);
    reveal_strlit("thermal.lhm_username");
    assert("thermal.lhm_username"@.len() == 20);
    reveal_strlit("thermal.lhm_password");
    assert("thermal.lhm_password"@.len() == 20);
    reveal_strlit("thermal.poll_interval_secs");
    assert("thermal.poll_interval_secs"@.len() == 26);
    reveal_strlit("thermal.warning_threshold");
    assert("thermal.warning_threshold"@.len() == 25);
    reveal_strlit("thermal.critical_threshold");
    assert("thermal.critical_threshold"@.len() == 26);
    reveal_strlit("thermal.emergency_threshold");
    assert("thermal.emergency_threshold"@.len() == 27);
    reveal_strlit("thermal.auto_shutdown_enabled");
    assert("thermal.auto_shutdown_enabled"@.len() == 29);
    reveal_strlit("thermal.sustained_seconds");
    assert("thermal.sustained_seconds"@.len() == 25);
    reveal_strlit("thermal.shutdown_schedule_start");
    assert("thermal.shutdown_schedule_start"@.len() == 31);
    reveal_strlit("thermal.shutdown_schedule_end");
    assert("thermal.shutdown_schedule_end"@.len() == 29);
    reveal_strlit("cpu_warning_threshold");
    assert("cpu_warning_threshold"@.len() == 21);
    reveal_strlit("cpu_critical_threshold");
    assert("cpu_critical_threshold"@.len() == 22);
    reveal_strlit("mem_warning_threshold_mib");
    assert("mem_warning_threshold_mib"@.len() == 25);
    reveal_strlit("mem_critical_threshold_mib");
    assert("mem_critical_threshold_mib"@.len() == 26);
    reveal_strlit("sys_mem_warning_percent");
    assert("sys_mem_warning_percent"@.len() == 23);
    reveal_strlit("sys_mem_critical_percent");
    assert("sys_mem_critical_percent"@.len() == 24);
    reveal_strlit("max_alerts");
    assert("max_alerts"@.len() == 10);
    reveal_strlit("security.ssh_brute_force_threshold");
    assert("security.ssh_brute_force_threshold"@.len() == 34);
    reveal_strlit("security.score_alert_threshold");
    assert("security.score_alert_threshold"@.len() == 30);
    reveal_strlit("security.max_suspicious_outbound");
    assert("security.max_suspicious_outbound"@.len() == 32);
    reveal_strlit("notifications.email_enabled");
    assert("notifications.email_enabled"@.len() == 27);
    reveal_strlit("notifications.telegram_enabled");
    assert("notifications.telegram_enabled"@.len() == 30);
    reveal_strlit("notifications.telegram_bot_token");
    assert("notifications.telegram_bot_token"@.len() == 32);
    reveal_strlit("notifications.telegram_chat_id");
    assert("notifications.telegram_chat_id"@.len() == 30);
    reveal_strlit("notifications.telegram_min_severity");
    assert("notifications.telegram_min_severity"@.len() == 35);
    lemma_parse_dec_of_dec(c.refresh_interval_ms as nat, u64::MAX as nat);
    lemma_parse_dec_of_dec(c.auto_analysis_interval_secs as nat, u64::MAX as nat);
    lemma_parse_dec_of_dec(c.market_poll_interval_secs as nat, u64::MAX as nat);
    lemma_parse_dec_of_dec(c.thermal_poll_interval_secs as nat, u64::MAX as nat);
    lemma_parse_dec_of_dec(c.sustained_seconds as nat, u64::MAX as nat);
    lemma_parse_dec_of_dec(c.shutdown_schedule_start as nat, 255);
    lemma_parse_dec_of_dec(c.shutdown_schedule_end as nat, 255);
    lemma_parse_dec_of_dec(c.max_alerts as nat, usize::MAX as nat);
    lemma_parse_dec_of_dec(c.ssh_brute_force_threshold as nat, usize::MAX as nat);
    lemma_parse_dec_of_dec(c.score_alert_threshold as nat, 255);
    lemma_parse_dec_of_dec(c.max_suspicious_outbound as nat, usize::MAX as nat);
    lemma_parse_dec_of_dec((c.mem_warning_threshold_bytes / 1048576) as nat, u64::MAX as nat);
    assert(((c.mem_warning_threshold_bytes / 1048576) as nat) * 1048576 <= c.mem_warning_threshold_bytes) by (nonlinear_arith);
    assert(64 * 1048576 <= u64::MAX);
    lemma_parse_dec_of_dec((c.mem_critical_threshold_bytes / 1048576) as nat, u64::MAX as nat);
    assert(((c.mem_critical_threshold_bytes / 1048576) as nat) * 1048576 <= c.mem_critical_threshold_bytes) by (nonlinear_arith);
    assert(64 * 1048576 <= u64::MAX);
    // Keys of the same length differ at these characters.
    assert("auto_analysis_interval_secs"@[0] != "thermal.emergency_threshold"@[0]);
    assert("auto_analysis_interval_secs"@[0] != "notifications.email_enabled"@[0]);
    assert("market.poll_interval_secs"@[0] != "thermal.warning_threshold"@[0]);
    assert("market.poll_interval_secs"@[0] != "thermal.sustained_seconds"@[0]);
    assert("market.poll_interval_secs"@[1] != "mem_warning_threshold_mib"@[1]);
    assert("market.default_chart_range"@[0] != "thermal.poll_interval_secs"@[0]);
    assert("market.default_chart_range"@[0] != "thermal.critical_threshold"@[0]);
    assert("market.default_chart_range"@[1] != "mem_critical_threshold_mib"@[1]);
    assert("thermal.lhm_username"@[12] != "thermal.lhm_password"@[12]);
    assert("thermal.poll_interval_secs"@[8] != "thermal.critical_threshold"@[8]);
    assert("thermal.poll_interval_secs"@[0] != "mem_critical_threshold_mib"@[0]);
    assert("thermal.warning_threshold"@[8] != "thermal.sustained_seconds"@[8]);
    assert("thermal.warning_threshold"@[0] != "mem_warning_threshold_mib"@[0]);
    assert("thermal.critical_threshold"@[0] != "mem_critical_threshold_mib"@[0]);
    assert("thermal.emergency_threshold"@[0] != "notifications.email_enabled"@[0]);
    assert("thermal.auto_shutdown_enabled"@[8] != "thermal.shutdown_schedule_end"@[8]);
    assert("thermal.sustained_seconds"@[0] != "mem_warning_threshold_mib"@[0]);
    assert("security.score_alert_threshold"@[0] != "notifications.telegram_enabled"@[0]);
    assert("security.score_alert_threshold"@[0] != "notifications.telegram_chat_id"@[0]);
    assert("security.max_suspicious_outbound"@[0] != "notifications.telegram_bot_token"@[0]);
    assert("notifications.telegram_enabled"@[23] != "notifications.telegram_chat_id"@[23]);
    let l = spec_settings_list(c);
    if k == 0 && i == 0 {
        assert(l[k].1 == spec_general_items(c));
        assert(l[k].1[i].key == "refresh_interval_ms"@);
        assert(spec_apply(d, l[k].1[i].key, l[k].1[i].value).0 == ApplyResult::Stored);
    } else if k == 0 && i == 1 {
        assert(l[k].1 == spec_general_items(c));
        assert(l[k].1[i].key == "theme"@);
        assert(spec_apply(d, l[k].1[i].key, l[k].1[i].value).0 == ApplyResult::Stored);
    } else if k == 0 && i == 2 {
        assert(l[k].1 == spec_general_items(c));
        assert(l[k].1[i].key == "lang"@);
        assert(spec_apply(d, l[k].1[i].key, l[k].1[i].value).0 == ApplyResult::Stored);
    } else if k == 0 && i == 3 {
        assert(l[k].1 == spec_general_items(c));
        assert(l[k].1[i].key == "auto_analysis_interval_secs"@);
        assert(spec_apply(d, l[k].1[i].key, l[k].1[i].value).0 == ApplyResult::Stored);
    } else if k == 0 && i == 4 {
        assert(l[k].1 == spec_general_items(c));
        assert(l[k].1[i].key == "unicode_mode"@);
        assert(spec_apply(d, l[k].1[i].key, l[k].1[i].value).0 == ApplyResult::Stored);
    } else if k == 1 && i == 0 {
        assert(l[k].1 == spec_market_items(c));
        assert(l[k].1[i].key == "market.enabled"@);
        assert(spec_apply(d, l[k].1[i].key, l[k].1[i].value).0 == ApplyResult::Stored);
    } else if k == 1 && i == 1 {
        assert(l[k].1 == spec_market_items(c));
        assert(l[k].1[i].key == "market.poll_interval_secs"@);
        assert(spec_apply(d, l[k].1[i].key, l[k].1[i].value).0 == ApplyResult::Stored);
    } else if k == 1 && i == 3 {
        assert(l[k].1 == spec_market_items(c));
        assert(l[k].1[i].key == "market.default_chart_range"@);
        assert(spec_apply(d, l[k].1[i].key, l[k].1[i].value).0 == ApplyResult::Stored);
    } else if k == 2 && i == 0 {
        assert(l[k].1 == spec_thermal_items(c));
        assert(l[k].1[i].key == "thermal.lhm_url"@);
        assert(spec_apply(d, l[k].1[i].key, l[k].1[i].value).0 == ApplyResult::Stored);
    } else if k == 2 && i == 1 {
        assert(l[k].1 == spec_thermal_items(c));
        assert(l[k].1[i].key == "thermal.lhm_username"@);
        assert(spec_apply(d, l[k].1[i].key, l[k].1[i].value).0 == ApplyResult::Stored);
    } else if k == 2 && i == 2 {
        assert(l[k].1 == spec_thermal_items(c));
        assert(l[k].1[i].key == "thermal.lhm_password"@);
        assert(spec_apply(d, l[k].1[i].key, l[k].1[i].value).0 == ApplyResult::Stored);
    } else if k == 2 && i == 3 {
        assert(l[k].1 == spec_thermal_items(c));
        assert(l[k].1[i].key == "thermal.poll_interval_secs"@);
        assert(spec_apply(d, l[k].1[i].key, l[k].1[i].value).0 == ApplyResult::Stored);
    } else if k == 2 && i == 4 {
        assert(l[k].1 == spec_thermal_items(c));
        assert(l[k].1[i].key == "thermal.warning_threshold"@);
        assert(spec_apply(d, l[k].1[i].key, l[k].1[i].value).0 == ApplyResult::FloatSetting);
    } else if k == 2 && i == 5 {
        assert(l[k].1 == spec_thermal_items(c));
        assert(l[k].1[i].key == "thermal.critical_threshold"@);
        assert(spec_apply(d, l[k].1[i].key, l[k].1[i].value).0 == ApplyResult::FloatSetting);
    } else if k == 2 && i == 6 {
        assert(l[k].1 == spec_thermal_items(c));
        assert(l[k].1[i].key == "thermal.emergency_threshold"@);
        assert(spec_apply(d, l[k].1[i].key, l[k].1[i].value).0 == ApplyResult::FloatSetting);
    } else if k == 2 && i == 7 {
        assert(l[k].1 == spec_thermal_items(c));
        assert(l[k].1[i].key == "thermal.auto_shutdown_enabled"@);
        assert(spec_apply(d, l[k].1[i].key, l[k].1[i].value).0 == ApplyResult::Stored);
    } else if k == 2 && i == 8 {
        assert(l[k].1 == spec_thermal_items(c));
        assert(l[k].1[i].key == "thermal.sustained_seconds"@);
        assert(spec_apply(d, l[k].1[i].key, l[k].1[i].value).0 == ApplyResult::Stored);
    } else if k == 2 && i == 9 {
        assert(l[k].1 == spec_thermal_items(c));
        assert(l[k].1[i].key == "thermal.shutdown_schedule_start"@);
        assert(spec_apply(d, l[k].1[i].key, l[k].1[i].value).0 == ApplyResult::Stored);
    } else if k == 2 && i == 10 {
        assert(l[k].1 == spec_thermal_items(c));
        assert(l[k].1[i].key == "thermal.shutdown_schedule_end"@);
        assert(spec_apply(d, l[k].1[i].key, l[k].1[i].value).0 == ApplyResult::Stored);
    } else if k == 3 && i == 0 {
        assert(l[k].1 == spec_alerts_items(c));
        assert(l[k].1[i].key == "cpu_warning_threshold"@);
        assert(spec_apply(d, l[k].1[i].key, l[k].1[i].value).0 == ApplyResult::FloatSetting);
    } else if k == 3 && i == 1 {
        assert(l[k].1 == spec_alerts_items(c));
        assert(l[k].1[i].key == "cpu_critical_threshold"@);
        assert(spec_apply(d, l[k].1[i].key, l[k].1[i].value).0 == ApplyResult::FloatSetting);
    } else if k == 3 && i == 2 {
        assert(l[k].1 == spec_alerts_items(c));
        assert(l[k].1[i].key == "mem_warning_threshold_mib"@);
        assert(spec_apply(d, l[k].1[i].key, l[k].1[i].value).0 == ApplyResult::Stored);
    } else if k == 3 && i == 3 {
        assert(l[k].1 == spec_alerts_items(c));
        assert(l[k].1[i].key == "mem_critical_threshold_mib"@);
        assert(spec_apply(d, l[k].1[i].key, l[k].1[i].value).0 == ApplyResult::Stored);
    } else if k == 3 && i == 4 {
        assert(l[k].1 == spec_alerts_items(c));
        assert(l[k].1[i].key == "sys_mem_warning_percent"@);
        assert(spec_apply(d, l[k].1[i].key, l[k].1[i].value).0 == ApplyResult::FloatSetting);
    } else if k == 3 && i == 5 {
        assert(l[k].1 == spec_alerts_items(c));
        assert(l[k].1[i].key == "sys_mem_critical_percent"@);
        assert(spec_apply(d, l[k].1[i].key, l[k].1[i].value).0 == ApplyResult::FloatSetting);
    } else if k == 3 && i == 6 {
        assert(l[k].1 == spec_alerts_items(c));
        assert(l[k].1[i].key == "max_alerts"@);
        assert(spec_apply(d, l[k].1[i].key, l[k].1[i].value).0 == ApplyResult::Stored);
    } else if k == 4 && i == 0 {
        assert(l[k].1 == spec_security_items(c));
        assert(l[k].1[i].key == "security.ssh_brute_force_threshold"@);
        assert(spec_apply(d, l[k].1[i].key, l[k].1[i].value).0 == ApplyResult::Stored);
    } else if k == 4 && i == 1 {
        assert(l[k].1 == spec_security_items(c));
        assert(l[k].1[i].key == "security.score_alert_threshold"@);
        assert(spec_apply(d, l[k].1[i].key, l[k].1[i].value).0 == ApplyResult::Stored);
    } else if k == 4 && i == 2 {
        assert(l[k].1 == spec_security_items(c));
        assert(l[k].1[i].key == "security.max_suspicious_outbound"@);
        assert(spec_apply(d, l[k].1[i].key, l[k].1[i].value).0 == ApplyResult::Stored);
    } else if k == 5 && i == 0 {
        assert(l[k].1 == spec_notifications_items(c));
        assert(l[k].1[i].key == "notifications.email_enabled"@);
        assert(spec_apply(d, l[k].1[i].key, l[k].1[i].value).0 == ApplyResult::Stored);
    } else if k == 5 && i == 1 {
        assert(l[k].1 == spec_notifications_items(c));
        assert(l[k].1[i].key == "notifications.telegram_enabled"@);
        assert(spec_apply(d, l[k].1[i].key, l[k].1[i].value).0 == ApplyResult::Stored);
    } else if k == 5 && i == 2 {
        assert(l[k].1 == spec_notifications_items(c));
        assert(l[k].1[i].key == "notifications.telegram_bot_token"@);
        assert(spec_apply(d, l[k].1[i].key, l[k].1[i].value).0 == ApplyResult::Stored);
    } else if k == 5 && i == 3 {
        assert(l[k].1 == spec_notifications_items(c));
        assert(l[k].1[i].key == "notifications.telegram_chat_id"@);
        assert(spec_apply(d, l[k].1[i].key, l[k].1[i].value).0 == ApplyResult::Stored);
    } else if k == 5 && i == 4 {
        assert(l[k].1 == spec_notifications_items(c));
        assert(l[k].1[i].key == "notifications.telegram_min_severity"@);
        assert(spec_apply(d, l[k].1[i].key, l[k].1[i].value).0 == ApplyResult::Stored);
    } else {
        assert(l[k].1[i].kind is ReadOnly) by {
            if k == 0 {
                assert(l[k].1 == spec_general_items(c));
            } else if k == 1 {
                assert(l[k].1 == spec_market_items(c));
            } else if k == 2 {
                assert(l[k].1 == spec_thermal_items(c));
            } else if k == 3 {
                assert(l[k].1 == spec_alerts_items(c));
            } else if k == 4 {
                assert(l[k].1 == spec_security_items(c));
            } else if k == 5 {
                assert(l[k].1 == spec_notifications_items(c));
            }
        }
    }
}

} // verus!
