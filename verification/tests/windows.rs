use sentinel::cooldown::{windows_security_alerts, AlertCooldowns};
use sentinel::security::{AlertCategory, AlertSeverity};
use sentinel::windows::{
    column_label, format_bytes, format_uptime, is_suspicious_connection, is_suspicious_port,
    sort_arrow, suspicious_connection_count, truncate_str, windows_alert_candidates,
    WindowsFirewallProfile, WindowsPanel, WindowsSecurityStatus, WindowsSortField, WindowsState,
    WindowsTcpConnection,
};

#[test]
fn format_uptime_days() {
    assert_eq!(format_uptime(90061), "1d 1h 1m");
}

#[test]
fn format_uptime_hours() {
    assert_eq!(format_uptime(3660), "1h 1m");
}

#[test]
fn format_uptime_minutes() {
    assert_eq!(format_uptime(120), "2m");
}

#[test]
fn format_uptime_zero_and_whole_days() {
    assert_eq!(format_uptime(0), "0m");
    assert_eq!(format_uptime(86400), "1d 0h 0m");
}

#[test]
fn format_bytes_gb() {
    assert_eq!(format_bytes(2 * 1024 * 1024 * 1024), "2.0 GB");
}

#[test]
fn format_bytes_mb() {
    assert_eq!(format_bytes(512 * 1024 * 1024), "512.0 MB");
}

#[test]
fn format_bytes_matches_float_formatting() {
    let samples: [u64; 12] = [
        0,
        1023,
        1024,
        1536,
        1_048_575,
        1_342_177_280,
        1_073_741_823,
        123_456_789_012,
        (1u64 << 53) + 1,
        (1u64 << 60) + 12345,
        u64::MAX - 1,
        u64::MAX,
    ];
    for &b in samples.iter() {
        let expected = if b >= 1024 * 1024 * 1024 {
            format!("{:.1} GB", b as f64 / (1024.0 * 1024.0 * 1024.0))
        } else if b >= 1024 * 1024 {
            format!("{:.1} MB", b as f64 / (1024.0 * 1024.0))
        } else if b >= 1024 {
            format!("{:.1} KB", b as f64 / 1024.0)
        } else {
            format!("{} B", b)
        };
        assert_eq!(format_bytes(b), expected, "bytes = {}", b);
    }
    assert_eq!(format_bytes(1536), "1.5 KB");
    assert_eq!(format_bytes(1023), "1023 B");
}

#[test]
fn truncate_str_short() {
    assert_eq!(truncate_str("hello", 10), "hello");
}

#[test]
fn truncate_str_long() {
    let result = truncate_str("very long process name here", 15);
    assert!(result.len() <= 15);
    assert!(result.ends_with("..."));
}

#[test]
fn sort_field_labels() {
    assert_eq!(WindowsSortField::Cpu.label(), "CPU %");
    assert_eq!(WindowsSortField::Memory.label(), "Memory");
    assert_eq!(WindowsSortField::Pid.label(), "PID");
    assert_eq!(WindowsSortField::Name.label(), "Name");
}

#[test]
fn column_labels_mark_active_field() {
    assert_eq!(sort_arrow(true), "▲");
    assert_eq!(sort_arrow(false), "▼");
    assert_eq!(column_label("PID", WindowsSortField::Pid, WindowsSortField::Pid, false), "PID▼");
    assert_eq!(column_label("PID", WindowsSortField::Pid, WindowsSortField::Cpu, false), "PID");
}

#[test]
fn new_state_defaults() {
    let state = WindowsState::new();
    assert!(state.loading);
    assert!(state.error.is_none());
    assert!(!state.agent_connected);
    assert_eq!(state.selected_process, 0);
    assert_eq!(state.sort_field, WindowsSortField::Cpu);
    assert!(!state.sort_ascending);
    assert!(state.focused_panel.is_none());
}

#[test]
fn selection_does_not_underflow() {
    let mut state = WindowsState::new();
    state.selected_process = 0;
    state.move_selection_up();
    assert_eq!(state.selected_process, 0);
}

#[test]
fn selection_down_stops_at_last_process() {
    let mut state = WindowsState::new();
    state.move_selection_down(Some(3));
    state.move_selection_down(Some(3));
    state.move_selection_down(Some(3));
    assert_eq!(state.selected_process, 2);
    state.move_selection_down(None);
    assert_eq!(state.selected_process, 2);
    let mut empty = WindowsState::new();
    empty.move_selection_down(None);
    assert_eq!(empty.selected_process, 0);
}

#[test]
fn cycle_sort_rotates_all_fields() {
    let mut state = WindowsState::new();
    assert_eq!(state.sort_field, WindowsSortField::Cpu);
    state.cycle_sort();
    assert_eq!(state.sort_field, WindowsSortField::Memory);
    state.cycle_sort();
    assert_eq!(state.sort_field, WindowsSortField::Pid);
    state.cycle_sort();
    assert_eq!(state.sort_field, WindowsSortField::Name);
    state.cycle_sort();
    assert_eq!(state.sort_field, WindowsSortField::Cpu);
}

#[test]
fn cycle_sort_resets_selection() {
    let mut state = WindowsState::new();
    state.selected_process = 5;
    state.scroll_offset = 3;
    state.cycle_sort();
    assert_eq!(state.selected_process, 0);
    assert_eq!(state.scroll_offset, 0);
}

#[test]
fn toggle_sort_direction() {
    let mut state = WindowsState::new();
    assert!(!state.sort_ascending);
    state.toggle_sort_direction();
    assert!(state.sort_ascending);
    state.toggle_sort_direction();
    assert!(!state.sort_ascending);
}

#[test]
fn toggle_sort_direction_resets_selection() {
    let mut state = WindowsState::new();
    state.selected_process = 3;
    state.scroll_offset = 2;
    state.toggle_sort_direction();
    assert_eq!(state.selected_process, 0);
    assert_eq!(state.scroll_offset, 0);
}

#[test]
fn panel_focus_toggle() {
    let mut state = WindowsState::new();
    assert!(state.focused_panel.is_none());
    state.toggle_panel_focus();
    assert_eq!(state.focused_panel, Some(WindowsPanel::ProcessList));
    state.toggle_panel_focus();
    assert!(state.focused_panel.is_none());
}

#[test]
fn panel_cycle_forward_wraps() {
    let mut state = WindowsState::new();
    state.focused_panel = Some(WindowsPanel::SystemOverview);
    state.cycle_panel_forward();
    assert_eq!(state.focused_panel, Some(WindowsPanel::ProcessList));
    state.cycle_panel_forward();
    state.cycle_panel_forward();
    state.cycle_panel_forward();
    state.cycle_panel_forward();
    state.cycle_panel_forward();
    state.cycle_panel_forward();
    state.cycle_panel_forward();
    assert_eq!(state.focused_panel, Some(WindowsPanel::SystemOverview));
}

#[test]
fn panel_cycle_noop_when_not_focused() {
    let mut state = WindowsState::new();
    assert!(state.focused_panel.is_none());
    state.cycle_panel_forward();
    assert!(state.focused_panel.is_none());
}

fn status(profiles: Vec<(&str, bool)>, defender: Option<bool>, realtime: Option<bool>, days: Option<u64>) -> WindowsSecurityStatus {
    WindowsSecurityStatus {
        firewall_profiles: profiles
            .into_iter()
            .map(|(n, e)| WindowsFirewallProfile { name: n.to_string(), enabled: e })
            .collect(),
        defender_enabled: defender,
        defender_realtime: realtime,
        last_update_days: days,
    }
}

#[test]
fn security_alerts_firewall_off() {
    let mut cooldowns = AlertCooldowns::new();
    let sec = status(vec![("Domain", true), ("Public", false)], Some(true), Some(true), Some(5));
    let alerts = windows_security_alerts(&mut cooldowns, "DESKTOP-TEST", Some(&sec));
    assert_eq!(alerts.len(), 1);
    assert_eq!(alerts[0].category, AlertCategory::WindowsFirewall);
    assert!(alerts[0].message.contains("Public"));
}

#[test]
fn security_alerts_defender_off() {
    let mut cooldowns = AlertCooldowns::new();
    let sec = status(vec![], Some(false), Some(false), None);
    let alerts = windows_security_alerts(&mut cooldowns, "DESKTOP-TEST", Some(&sec));
    assert_eq!(alerts.len(), 1);
    assert_eq!(alerts[0].category, AlertCategory::WindowsDefender);
    assert_eq!(alerts[0].severity, AlertSeverity::Danger);
}

#[test]
fn security_alerts_stale_updates() {
    let mut cooldowns = AlertCooldowns::new();
    let sec = status(vec![], Some(true), Some(true), Some(45));
    let alerts = windows_security_alerts(&mut cooldowns, "DESKTOP-TEST", Some(&sec));
    assert_eq!(alerts.len(), 1);
    assert_eq!(alerts[0].category, AlertCategory::WindowsUpdates);
    assert!(alerts[0].message.contains("45 days"));
}

#[test]
fn security_alerts_all_healthy_no_alerts() {
    let mut cooldowns = AlertCooldowns::new();
    let sec = status(vec![("Domain", true), ("Private", true), ("Public", true)], Some(true), Some(true), Some(5));
    let alerts = windows_security_alerts(&mut cooldowns, "DESKTOP-TEST", Some(&sec));
    assert!(alerts.is_empty());
}

#[test]
fn security_alerts_cooldown_dedup() {
    let mut cooldowns = AlertCooldowns::new();
    let sec = status(vec![("Public", false)], Some(true), Some(true), None);
    let alerts1 = windows_security_alerts(&mut cooldowns, "DESKTOP-TEST", Some(&sec));
    assert_eq!(alerts1.len(), 1);
    let alerts2 = windows_security_alerts(&mut cooldowns, "DESKTOP-TEST", Some(&sec));
    assert!(alerts2.is_empty());
}

#[test]
fn security_alerts_without_status() {
    let mut cooldowns = AlertCooldowns::new();
    assert!(windows_security_alerts(&mut cooldowns, "HOST", None).is_empty());
}

#[test]
fn alert_candidates_exact_messages() {
    let sec = status(vec![("Public", false)], Some(true), Some(false), Some(31));
    let alerts = windows_alert_candidates("HOST", &sec);
    assert_eq!(alerts.len(), 3);
    assert_eq!(alerts[0].message, "Windows Firewall is OFF on Public profile (HOST)");
    // 10000 + the bytes of "Public".
    assert_eq!(alerts[0].pid, 10000 + "Public".bytes().map(|b| b as u32).sum::<u32>());
    assert_eq!(alerts[0].process_name, "HOST");
    assert_eq!(alerts[1].message, "Windows Defender real-time protection is OFF (HOST)");
    assert_eq!(alerts[1].pid, 20001);
    assert_eq!(alerts[2].message, "Windows not updated in 31 days (HOST)");
    assert_eq!(alerts[2].value, 31);
    assert_eq!(alerts[2].threshold, 30);
    let fresh = status(vec![], None, None, Some(30));
    assert!(windows_alert_candidates("HOST", &fresh).is_empty());
}

fn conn(state: &str, port: u16) -> WindowsTcpConnection {
    WindowsTcpConnection {
        local_addr: "10.0.0.2".to_string(),
        local_port: 50000,
        remote_addr: "203.0.113.9".to_string(),
        remote_port: port,
        state: state.to_string(),
        pid: 4,
        process_name: "svc.exe".to_string(),
    }
}

#[test]
fn suspicious_connections_are_established_non_standard() {
    assert!(is_suspicious_port(4444));
    assert!(!is_suspicious_port(443));
    assert!(is_suspicious_connection(&conn("ESTABLISHED", 4444)));
    assert!(!is_suspicious_connection(&conn("TIME_WAIT", 4444)));
    assert!(!is_suspicious_connection(&conn("ESTABLISHED", 443)));
    let conns = vec![conn("ESTABLISHED", 4444), conn("ESTABLISHED", 80), conn("LISTEN", 1), conn("ESTABLISHED", 6667)];
    assert_eq!(suspicious_connection_count(&conns), 2);
}
