use sentinel::settings::{SettingKind, SettingsCategory, SettingsPlugin};
use sentinel::settings_config::{apply_setting, settings_list, ApplyResult, ConfigValues};

fn default_config() -> ConfigValues {
    ConfigValues {
        refresh_interval_ms: 1000,
        theme: "dracula".to_string(),
        theme_names: vec!["dracula".to_string(), "nord".to_string(), "solarized".to_string()],
        lang: "en".to_string(),
        auto_analysis_interval_secs: 300,
        unicode_mode: "auto".to_string(),
        market_enabled: true,
        market_poll_interval_secs: 60,
        market_ticker_count: 5,
        market_default_chart_range: "1d".to_string(),
        lhm_url: "http://localhost:8085/data.json".to_string(),
        lhm_username: None,
        lhm_password: None,
        thermal_poll_interval_secs: 5,
        warning_threshold_text: "85".to_string(),
        critical_threshold_text: "95".to_string(),
        emergency_threshold_text: "105".to_string(),
        auto_shutdown_enabled: false,
        sustained_seconds: 30,
        shutdown_schedule_start: 0,
        shutdown_schedule_end: 24,
        cpu_warning_text: "80".to_string(),
        cpu_critical_text: "95".to_string(),
        mem_warning_threshold_bytes: 1024 * 1024 * 1024,
        mem_critical_threshold_bytes: 2048 * 1024 * 1024,
        sys_mem_warning_text: "85".to_string(),
        sys_mem_critical_text: "95".to_string(),
        max_alerts: 500,
        ssh_brute_force_threshold: 5,
        score_alert_threshold: 50,
        max_suspicious_outbound: 20,
        suspicious_pattern_count: 4,
        threat_pattern_count: 6,
        email_enabled: false,
        telegram_enabled: false,
        telegram_bot_token: None,
        telegram_chat_id: None,
        telegram_min_severity: "warning".to_string(),
    }
}

fn default_plugin() -> SettingsPlugin {
    SettingsPlugin::new(true, settings_list(&default_config()))
}

#[test]
fn apply_unknown_key_returns_false() {
    let mut config = default_config();
    assert_eq!(apply_setting(&mut config, "nonexistent", "42"), ApplyResult::Refused);
}

#[test]
fn apply_invalid_number_returns_false() {
    let mut config = default_config();
    assert_eq!(apply_setting(&mut config, "refresh_interval_ms", "not_a_number"), ApplyResult::Refused);
    assert_eq!(config.refresh_interval_ms, 1000);
}

#[test]
fn apply_theme_sets_value() {
    let mut config = default_config();
    assert_eq!(apply_setting(&mut config, "theme", "nord"), ApplyResult::Stored);
    assert_eq!(config.theme, "nord");
}

#[test]
fn apply_toggle_flips_boolean() {
    let mut config = default_config();
    let original = config.market_enabled;
    apply_setting(&mut config, "market.enabled", &(!original).to_string());
    assert_eq!(config.market_enabled, !original);
}

#[test]
fn apply_float_thresholds_are_left_to_the_application() {
    let mut config = default_config();
    assert_eq!(apply_setting(&mut config, "cpu_warning_threshold", "200"), ApplyResult::FloatSetting);
    assert_eq!(apply_setting(&mut config, "thermal.warning_threshold", "10"), ApplyResult::FloatSetting);
    assert_eq!(config.cpu_warning_text, "80");
}

#[test]
fn apply_mem_warning_converts_mib_to_bytes() {
    let mut config = default_config();
    apply_setting(&mut config, "mem_warning_threshold_mib", "512");
    assert_eq!(config.mem_warning_threshold_bytes, 512 * 1024 * 1024);
    apply_setting(&mut config, "mem_warning_threshold_mib", "1");
    assert_eq!(config.mem_warning_threshold_bytes, 64 * 1024 * 1024);
}

#[test]
fn apply_refresh_interval_enforces_minimum() {
    let mut config = default_config();
    apply_setting(&mut config, "refresh_interval_ms", "50");
    assert_eq!(config.refresh_interval_ms, 200);
}

#[test]
fn apply_max_alerts_enforces_minimum() {
    let mut config = default_config();
    apply_setting(&mut config, "max_alerts", "1");
    assert_eq!(config.max_alerts, 10);
}

#[test]
fn apply_market_poll_enforces_minimum() {
    let mut config = default_config();
    apply_setting(&mut config, "market.poll_interval_secs", "3");
    assert_eq!(config.market_poll_interval_secs, 10);
}

#[test]
fn apply_all_editable_keys_are_handled() {
    let settings = settings_list(&default_config());
    for (_cat, items) in &settings {
        for item in items {
            if matches!(item.kind, SettingKind::ReadOnly) {
                continue;
            }
            let mut test_config = default_config();
            let applied = apply_setting(&mut test_config, &item.key, &item.value);
            assert_ne!(applied, ApplyResult::Refused, "key '{}' was refused", item.key);
        }
    }
}

#[test]
fn apply_lhm_username_sets_some() {
    let mut config = default_config();
    assert_eq!(apply_setting(&mut config, "thermal.lhm_username", "MyUser"), ApplyResult::Stored);
    assert_eq!(config.lhm_username, Some("MyUser".into()));
}

#[test]
fn apply_lhm_username_empty_clears_to_none() {
    let mut config = default_config();
    config.lhm_username = Some("OldUser".into());
    assert_eq!(apply_setting(&mut config, "thermal.lhm_username", ""), ApplyResult::Stored);
    assert_eq!(config.lhm_username, None);
}

#[test]
fn apply_lhm_password_sets_some() {
    let mut config = default_config();
    assert_eq!(apply_setting(&mut config, "thermal.lhm_password", "Secret123"), ApplyResult::Stored);
    assert_eq!(config.lhm_password, Some("Secret123".into()));
}

#[test]
fn apply_lhm_password_empty_clears_to_none() {
    let mut config = default_config();
    config.lhm_password = Some("OldPass".into());
    assert_eq!(apply_setting(&mut config, "thermal.lhm_password", ""), ApplyResult::Stored);
    assert_eq!(config.lhm_password, None);
}

#[test]
fn apply_lhm_url_rejects_empty() {
    let mut config = default_config();
    let original_url = config.lhm_url.clone();
    assert_eq!(apply_setting(&mut config, "thermal.lhm_url", ""), ApplyResult::Stored);
    assert_eq!(config.lhm_url, original_url);
}

#[test]
fn apply_lhm_url_sets_value() {
    let mut config = default_config();
    assert_eq!(
        apply_setting(&mut config, "thermal.lhm_url", "http://192.168.1.100:8085/data.json"),
        ApplyResult::Stored
    );
    assert_eq!(config.lhm_url, "http://192.168.1.100:8085/data.json");
}

#[test]
fn apply_ssh_brute_force_threshold() {
    let mut config = default_config();
    assert_eq!(apply_setting(&mut config, "security.ssh_brute_force_threshold", "10"), ApplyResult::Stored);
    assert_eq!(config.ssh_brute_force_threshold, 10);
}

#[test]
fn apply_ssh_threshold_enforces_minimum() {
    let mut config = default_config();
    assert_eq!(apply_setting(&mut config, "security.ssh_brute_force_threshold", "0"), ApplyResult::Stored);
    assert_eq!(config.ssh_brute_force_threshold, 1);
}

#[test]
fn apply_score_alert_threshold() {
    let mut config = default_config();
    assert_eq!(apply_setting(&mut config, "security.score_alert_threshold", "50"), ApplyResult::Stored);
    assert_eq!(config.score_alert_threshold, 50);
}

#[test]
fn apply_score_alert_threshold_clamps_max() {
    let mut config = default_config();
    assert_eq!(apply_setting(&mut config, "security.score_alert_threshold", "200"), ApplyResult::Stored);
    assert_eq!(config.score_alert_threshold, 100);
    assert_eq!(apply_setting(&mut config, "security.score_alert_threshold", "300"), ApplyResult::Refused);
}

#[test]
fn apply_max_suspicious_outbound() {
    let mut config = default_config();
    assert_eq!(apply_setting(&mut config, "security.max_suspicious_outbound", "100"), ApplyResult::Stored);
    assert_eq!(config.max_suspicious_outbound, 100);
}

#[test]
fn security_category_exists_in_settings_list() {
    let plugin = default_plugin();
    let security_cat = plugin.settings.iter().find(|(cat, _)| *cat == SettingsCategory::Security);
    assert!(security_cat.is_some());
    let (_, items) = security_cat.unwrap();
    assert!(items.len() >= 3);
}

#[test]
fn apply_unicode_mode() {
    let mut config = default_config();
    assert_eq!(apply_setting(&mut config, "unicode_mode", "ascii"), ApplyResult::Stored);
    assert_eq!(config.unicode_mode, "ascii");
}

#[test]
fn glyph_mode_in_general_category() {
    let plugin = default_plugin();
    let general_items = &plugin.settings[0].1;
    let glyph_item = general_items.iter().find(|i| i.key == "unicode_mode");
    assert!(glyph_item.is_some());
    assert_eq!(glyph_item.unwrap().value, "auto");
}

#[test]
fn apply_sustained_seconds() {
    let mut config = default_config();
    assert_eq!(apply_setting(&mut config, "thermal.sustained_seconds", "60"), ApplyResult::Stored);
    assert_eq!(config.sustained_seconds, 60);
}

#[test]
fn apply_sustained_seconds_enforces_minimum() {
    let mut config = default_config();
    assert_eq!(apply_setting(&mut config, "thermal.sustained_seconds", "2"), ApplyResult::Stored);
    assert_eq!(config.sustained_seconds, 5);
}

#[test]
fn apply_shutdown_schedule_start() {
    let mut config = default_config();
    assert_eq!(apply_setting(&mut config, "thermal.shutdown_schedule_start", "8"), ApplyResult::Stored);
    assert_eq!(config.shutdown_schedule_start, 8);
}

#[test]
fn apply_shutdown_schedule_start_clamps() {
    let mut config = default_config();
    assert_eq!(apply_setting(&mut config, "thermal.shutdown_schedule_start", "25"), ApplyResult::Stored);
    assert_eq!(config.shutdown_schedule_start, 23);
}

#[test]
fn apply_shutdown_schedule_end() {
    let mut config = default_config();
    assert_eq!(apply_setting(&mut config, "thermal.shutdown_schedule_end", "18"), ApplyResult::Stored);
    assert_eq!(config.shutdown_schedule_end, 18);
}

#[test]
fn thermal_schedule_items_exist() {
    let plugin = default_plugin();
    let thermal_items = &plugin.settings[2].1;
    assert!(thermal_items.iter().any(|i| i.key == "thermal.sustained_seconds"));
    assert!(thermal_items.iter().any(|i| i.key == "thermal.shutdown_schedule_start"));
    assert!(thermal_items.iter().any(|i| i.key == "thermal.shutdown_schedule_end"));
}

#[test]
fn apply_mem_critical_threshold() {
    let mut config = default_config();
    assert_eq!(apply_setting(&mut config, "mem_critical_threshold_mib", "4096"), ApplyResult::Stored);
    assert_eq!(config.mem_critical_threshold_bytes, 4096 * 1024 * 1024);
}

#[test]
fn alert_thresholds_all_present() {
    let plugin = default_plugin();
    let alerts_items = &plugin.settings[3].1;
    let keys: Vec<&str> = alerts_items.iter().map(|i| i.key.as_str()).collect();
    assert!(keys.contains(&"mem_critical_threshold_mib"));
    assert!(keys.contains(&"sys_mem_warning_percent"));
    assert!(keys.contains(&"sys_mem_critical_percent"));
}

#[test]
fn settings_list_reflects_config_values() {
    let mut config = default_config();
    config.theme = "nord".to_string();
    config.cpu_warning_text = "42".to_string();
    let plugin = SettingsPlugin::new(true, settings_list(&config));
    let theme_item = plugin.settings[0].1.iter().find(|i| i.key == "theme").unwrap();
    assert_eq!(theme_item.value, "nord");
    let cpu_item = plugin.settings[3].1.iter().find(|i| i.key == "cpu_warning_threshold").unwrap();
    assert_eq!(cpu_item.value, "42");
}

#[test]
fn settings_list_shapes() {
    let settings = settings_list(&default_config());
    let sizes: Vec<usize> = settings.iter().map(|(_, items)| items.len()).collect();
    assert_eq!(sizes, vec![5, 4, 11, 7, 5, 5]);
    let mem = &settings[3].1[2];
    assert_eq!(mem.value, "1024");
    assert_eq!(settings[1].1[2].value, "5 tickers");
    assert_eq!(settings[4].1[3].value, "4 patterns");
    assert_eq!(settings[1].1[0].value, "true");
}
