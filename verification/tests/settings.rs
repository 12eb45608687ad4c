use sentinel::cooldown::{AlertCooldowns, ALERT_COOLDOWN_SECS};
use sentinel::security::{AlertCategory, AlertSeverity};
use sentinel::registry::{Key, Plugin};
use sentinel::settings::{
    format_value_for_kind, SettingItem, SettingKind, SettingsCategory, SettingsPlugin, SettingsRequest,
};
use sentinel::windows::AlertCandidate;

#[test]
fn settings_categories_in_order() {
    let labels: Vec<&str> = SettingsCategory::all().iter().map(|c| c.label()).collect();
    assert_eq!(labels, vec!["General", "Market", "Thermal", "Alerts", "Security", "Notifications"]);
}

fn alert(pid: u32, category: AlertCategory) -> AlertCandidate {
    AlertCandidate {
        severity: AlertSeverity::Warning,
        category,
        process_name: "host".to_string(),
        pid,
        message: format!("alert {pid}"),
        value: 0,
        threshold: 1,
    }
}

const SEC: u128 = 1_000_000_000;

#[test]
fn cooldown_suppresses_repeat_within_window() {
    let mut c = AlertCooldowns::new();
    let first = c.filter_at(vec![alert(1, AlertCategory::WindowsFirewall)], 10 * SEC);
    assert_eq!(first.len(), 1);
    let again = c.filter_at(vec![alert(1, AlertCategory::WindowsFirewall)], 20 * SEC);
    assert!(again.is_empty());
    // Another category or pid is not held back.
    let other = c.filter_at(
        vec![alert(1, AlertCategory::WindowsDefender), alert(2, AlertCategory::WindowsFirewall)],
        20 * SEC,
    );
    assert_eq!(other.len(), 2);
}

#[test]
fn cooldown_releases_after_window() {
    let mut c = AlertCooldowns::new();
    assert_eq!(c.filter_at(vec![alert(7, AlertCategory::WindowsUpdates)], 0).len(), 1);
    let window = ALERT_COOLDOWN_SECS as u128 * SEC;
    assert!(c.filter_at(vec![alert(7, AlertCategory::WindowsUpdates)], window - 1).is_empty());
    let released = c.filter_at(vec![alert(7, AlertCategory::WindowsUpdates)], window);
    assert_eq!(released.len(), 1);
    assert_eq!(released[0].message, "alert 7");
}

#[test]
fn cooldown_dedups_within_one_batch() {
    let mut c = AlertCooldowns::new();
    let kept = c.filter_at(
        vec![alert(3, AlertCategory::WindowsFirewall), alert(3, AlertCategory::WindowsFirewall)],
        5 * SEC,
    );
    assert_eq!(kept.len(), 1);
}

fn item(key: &str, value: &str, kind: SettingKind) -> SettingItem {
    SettingItem {
        key: key.to_string(),
        label: key.to_string(),
        value: value.to_string(),
        description: String::new(),
        kind,
    }
}

fn number(min: u64, max: u64, integer: bool) -> SettingKind {
    SettingKind::Number { min, max, suffix: String::new(), integer }
}

fn text(max_length: usize, masked: bool) -> SettingKind {
    SettingKind::Text { max_length, masked }
}

fn cycle(options: &[&str]) -> SettingKind {
    SettingKind::Cycle(options.iter().map(|o| o.to_string()).collect())
}

/// The settings list laid out as the application builds it, with the given
/// theme and LHM username.
fn settings_with(theme: &str, lhm_username: &str) -> Vec<(SettingsCategory, Vec<SettingItem>)> {
    vec![
        (
            SettingsCategory::General,
            vec![
                item("refresh_interval_ms", "1000", number(200, 10000, true)),
                item("theme", theme, cycle(&["dracula", "nord", "gruvbox", "solarized"])),
                item("lang", "en", cycle(&["en", "ja", "es", "de", "zh"])),
            ],
        ),
        (
            SettingsCategory::Market,
            vec![
                item("market.enabled", "true", SettingKind::Toggle),
                item("market.poll_interval_secs", "60", number(10, 600, true)),
                item("market.tickers", "5 tickers", SettingKind::ReadOnly),
            ],
        ),
        (
            SettingsCategory::Thermal,
            vec![
                item("thermal.lhm_url", "http://localhost:8085/data.json", text(200, false)),
                item("thermal.lhm_username", lhm_username, text(100, false)),
                item("thermal.lhm_password", "", text(100, true)),
            ],
        ),
        (
            SettingsCategory::Alerts,
            vec![item("cpu_warning_threshold", "80", number(1, 100, false))],
        ),
        (
            SettingsCategory::Security,
            vec![item("security.ssh_brute_force_threshold", "5", number(1, 100, true))],
        ),
        (
            SettingsCategory::Notifications,
            vec![item("notifications.email_enabled", "false", SettingKind::Toggle)],
        ),
    ]
}

fn default_plugin() -> SettingsPlugin {
    SettingsPlugin::new(true, settings_with("dracula", ""))
}

fn buffer(plugin: &SettingsPlugin) -> String {
    plugin.edit_text()
}

fn set_buffer(plugin: &mut SettingsPlugin, s: &str) {
    plugin.edit_buffer = s.chars().collect();
}

fn applied(request: SettingsRequest) -> (String, String) {
    match request {
        SettingsRequest::Apply { key, value } => (key, value),
        other => panic!("Expected Apply, got {:?}", other),
    }
}

#[test]
fn settings_plugin_id_and_label() {
    let plugin = default_plugin();
    assert_eq!(plugin.id(), "settings");
    assert_eq!(plugin.tab_label(), "Settings");
    assert!(plugin.is_enabled());
    assert!(!SettingsPlugin::new(false, Vec::new()).is_enabled());
}

#[test]
fn toggle_produces_config_changed() {
    let mut plugin = default_plugin();
    plugin.selected_category = 1;
    plugin.selected_item = 0;
    let (key, value) = applied(plugin.handle_key(Key::Enter));
    assert_eq!(key, "market.enabled");
    assert_eq!(value, "false");
}

#[test]
fn toggle_notification_produces_config_changed() {
    let mut plugin = default_plugin();
    plugin.selected_category = 5;
    plugin.selected_item = 0;
    let (key, value) = applied(plugin.handle_key(Key::Enter));
    assert_eq!(key, "notifications.email_enabled");
    assert_eq!(value, "true");
}

#[test]
fn cycle_advances_theme() {
    let mut plugin = SettingsPlugin::new(true, settings_with("dracula", ""));
    plugin.selected_category = 0;
    plugin.selected_item = 1;
    let (key, value) = applied(plugin.handle_key(Key::Enter));
    assert_eq!(key, "theme");
    assert_ne!(value, "dracula");
    assert_eq!(value, "nord");
}

#[test]
fn cycle_wraps_around() {
    let mut plugin = SettingsPlugin::new(true, settings_with("solarized", ""));
    plugin.selected_category = 0;
    plugin.selected_item = 1;
    let (_, value) = applied(plugin.handle_key(Key::Enter));
    assert_eq!(value, "dracula");
}

#[test]
fn cycle_from_unknown_value_starts_after_first() {
    let mut plugin = SettingsPlugin::new(true, settings_with("custom", ""));
    plugin.selected_category = 0;
    plugin.selected_item = 1;
    let (_, value) = applied(plugin.handle_key(Key::Char(' ')));
    assert_eq!(value, "nord");
}

#[test]
fn number_enter_activates_edit_mode() {
    let mut plugin = default_plugin();
    plugin.selected_category = 0;
    plugin.selected_item = 0;
    let action = plugin.handle_key(Key::Enter);
    assert!(matches!(action, SettingsRequest::Consumed));
    assert!(plugin.editing);
    assert_eq!(buffer(&plugin), "1000");
}

#[test]
fn number_edit_confirm_hands_over_typed_value() {
    let mut plugin = default_plugin();
    plugin.selected_category = 0;
    plugin.selected_item = 0;
    plugin.handle_key(Key::Enter);
    set_buffer(&mut plugin, "750");
    match plugin.handle_key(Key::Enter) {
        SettingsRequest::ApplyNumber { key, raw, min, max, integer } => {
            assert_eq!(key, "refresh_interval_ms");
            assert_eq!(raw, "750");
            assert_eq!((min, max, integer), (200, 10000, true));
        }
        other => panic!("Expected ApplyNumber, got {:?}", other),
    }
    assert!(!plugin.editing);
    assert!(plugin.edit_buffer.is_empty());
}

#[test]
fn number_edit_esc_cancels() {
    let mut plugin = default_plugin();
    plugin.selected_category = 0;
    plugin.selected_item = 0;
    plugin.handle_key(Key::Enter);
    set_buffer(&mut plugin, "9999");
    let action = plugin.handle_key(Key::Esc);
    assert!(matches!(action, SettingsRequest::Consumed));
    assert!(!plugin.editing);
    assert!(plugin.edit_buffer.is_empty());
}

#[test]
fn number_edit_only_accepts_digits_and_dot() {
    let mut plugin = default_plugin();
    plugin.selected_category = 0;
    plugin.selected_item = 0;
    plugin.handle_key(Key::Enter);
    plugin.edit_buffer.clear();
    plugin.handle_key(Key::Char('1'));
    plugin.handle_key(Key::Char('0'));
    plugin.handle_key(Key::Char('0'));
    assert_eq!(buffer(&plugin), "100");
    plugin.handle_key(Key::Char('a'));
    assert_eq!(buffer(&plugin), "100");
}

#[test]
fn number_edit_rejects_double_dot() {
    let mut plugin = default_plugin();
    plugin.selected_category = 0;
    plugin.selected_item = 0;
    plugin.handle_key(Key::Enter);
    set_buffer(&mut plugin, "1.5");
    plugin.handle_key(Key::Char('.'));
    assert_eq!(buffer(&plugin), "1.5");
}

#[test]
fn readonly_shows_status() {
    let mut plugin = default_plugin();
    plugin.selected_category = 1;
    plugin.selected_item = 2;
    match plugin.handle_key(Key::Enter) {
        SettingsRequest::SetStatus(msg) => assert!(msg.contains("config.toml"), "got: {}", msg),
        other => panic!("Expected SetStatus, got {:?}", other),
    }
}

#[test]
fn navigation_does_not_overflow() {
    let mut plugin = default_plugin();
    plugin.selected_category = SettingsCategory::all().len() - 1;
    plugin.handle_key(Key::Right);
    assert_eq!(plugin.selected_category, SettingsCategory::all().len() - 1);
    plugin.selected_category = 0;
    plugin.handle_key(Key::Left);
    assert_eq!(plugin.selected_category, 0);
}

#[test]
fn item_navigation_stays_in_category() {
    let mut plugin = default_plugin();
    plugin.handle_key(Key::Up);
    assert_eq!(plugin.selected_item, 0);
    for _ in 0..10 {
        plugin.handle_key(Key::Char('j'));
    }
    assert_eq!(plugin.selected_item, 2);
    plugin.handle_key(Key::Char('k'));
    assert_eq!(plugin.selected_item, 1);
    assert!(matches!(plugin.handle_key(Key::Char('x')), SettingsRequest::Ignored));
    assert!(matches!(plugin.handle_key(Key::Tab), SettingsRequest::Ignored));
}

#[test]
fn category_change_resets_item_selection() {
    let mut plugin = default_plugin();
    plugin.selected_category = 0;
    plugin.selected_item = 2;
    plugin.handle_key(Key::Right);
    assert_eq!(plugin.selected_item, 0);
    assert_eq!(plugin.selected_category, 1);
    plugin.selected_item = 2;
    plugin.handle_key(Key::Char('h'));
    assert_eq!((plugin.selected_category, plugin.selected_item), (0, 0));
}

#[test]
fn edit_mode_blocks_navigation() {
    let mut plugin = default_plugin();
    plugin.selected_category = 0;
    plugin.selected_item = 0;
    plugin.handle_key(Key::Enter);
    assert!(plugin.editing);
    plugin.handle_key(Key::Down);
    assert!(plugin.editing);
    assert_eq!(plugin.selected_item, 0);
}

#[test]
fn text_enter_activates_edit_mode() {
    let mut plugin = default_plugin();
    plugin.selected_category = 2;
    plugin.selected_item = 0;
    let action = plugin.handle_key(Key::Enter);
    assert!(matches!(action, SettingsRequest::Consumed));
    assert!(plugin.editing);
    assert!(!plugin.edit_buffer.is_empty());
}

#[test]
fn text_edit_accepts_printable_chars() {
    let mut plugin = default_plugin();
    plugin.selected_category = 2;
    plugin.selected_item = 1;
    plugin.handle_key(Key::Enter);
    plugin.edit_buffer.clear();
    plugin.handle_key(Key::Char('H'));
    plugin.handle_key(Key::Char('i'));
    plugin.handle_key(Key::Char('!'));
    plugin.handle_key(Key::Char('3'));
    assert_eq!(buffer(&plugin), "Hi!3");
    plugin.handle_key(Key::Char('\u{7}'));
    assert_eq!(buffer(&plugin), "Hi!3");
}

#[test]
fn text_edit_respects_max_length() {
    let mut plugin = SettingsPlugin::new(true, settings_with("dracula", &"x".repeat(99)));
    plugin.selected_category = 2;
    plugin.selected_item = 1;
    plugin.handle_key(Key::Enter);
    plugin.handle_key(Key::Char('Y'));
    assert_eq!(buffer(&plugin).len(), 100);
    plugin.handle_key(Key::Char('Z'));
    assert_eq!(buffer(&plugin).len(), 100);
}

#[test]
fn text_edit_limit_counts_bytes() {
    let mut plugin = SettingsPlugin::new(true, settings_with("dracula", &"x".repeat(99)));
    plugin.selected_category = 2;
    plugin.selected_item = 1;
    plugin.handle_key(Key::Enter);
    plugin.handle_key(Key::Char('\u{e9}'));
    assert_eq!(buffer(&plugin).len(), 101);
    plugin.handle_key(Key::Char('a'));
    assert_eq!(buffer(&plugin).len(), 101);
}

#[test]
fn text_edit_confirm_applies_value() {
    let mut plugin = default_plugin();
    plugin.selected_category = 2;
    plugin.selected_item = 1;
    plugin.handle_key(Key::Enter);
    set_buffer(&mut plugin, "  NewUser ");
    let (key, value) = applied(plugin.handle_key(Key::Enter));
    assert_eq!(key, "thermal.lhm_username");
    assert_eq!(value, "NewUser");
    assert!(!plugin.editing);
}

#[test]
fn text_edit_backspace_removes_char() {
    let mut plugin = default_plugin();
    plugin.selected_category = 2;
    plugin.selected_item = 1;
    plugin.handle_key(Key::Enter);
    set_buffer(&mut plugin, "abc");
    plugin.handle_key(Key::Backspace);
    assert_eq!(buffer(&plugin), "ab");
    plugin.edit_buffer.clear();
    plugin.handle_key(Key::Backspace);
    assert_eq!(buffer(&plugin), "");
}

#[test]
fn apply_result_rebuilds_or_reports() {
    let mut plugin = default_plugin();
    plugin.selected_category = 1;
    assert_eq!(plugin.apply_result("theme", None), Some("Invalid value for theme".to_string()));
    assert_eq!(plugin.settings.len(), 6);
    assert_eq!(plugin.apply_result("theme", Some(settings_with("nord", ""))), None);
    assert_eq!(plugin.settings[0].1[1].value, "nord");
    assert_eq!(plugin.selected_category, 1);
}

#[test]
fn settings_hints_follow_edit_mode() {
    let mut plugin = default_plugin();
    assert_eq!(plugin.status_bar_hints().len(), 3);
    plugin.handle_key(Key::Enter);
    assert_eq!(plugin.status_bar_hints(), vec![("Enter", "Confirm"), ("Esc", "Cancel")]);
    assert_eq!(plugin.help_entries().len(), 4);
}

#[test]
fn values_display_by_kind() {
    assert_eq!(format_value_for_kind("true", &SettingKind::Toggle), "[ON]");
    assert_eq!(format_value_for_kind("false", &SettingKind::Toggle), "[OFF]");
    assert_eq!(format_value_for_kind("nord", &cycle(&["nord"])), "[< nord >]");
    let ms = SettingKind::Number { min: 200, max: 10000, suffix: " ms".to_string(), integer: true };
    assert_eq!(format_value_for_kind("1000", &ms), "[1000 ms]");
    assert_eq!(format_value_for_kind("secret", &text(100, true)), "[******]");
    assert_eq!(format_value_for_kind(&"p".repeat(40), &text(100, true)), "[****************]");
    assert_eq!(format_value_for_kind("", &text(100, true)), "[<empty>]");
    assert_eq!(format_value_for_kind("", &text(100, false)), "[<empty>]");
    assert_eq!(format_value_for_kind("admin", &text(100, false)), "[admin]");
    assert_eq!(format_value_for_kind("5 tickers", &SettingKind::ReadOnly), "[5 tickers]");
}
