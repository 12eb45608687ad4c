use sentinel::security::{
    age_label, analyze_suspicious_outbound, classify_port_risk, compute_security_score,
    extract_auth_detail, extract_failed_ssh_info, extract_sudo_detail, parse_cron_line,
    parse_system_cron_line, score_label, AlertSeverity, ConnectionInfo, ListenerInfo, PortRisk,
    SecurityEvent, SecurityEventKind, SecurityPanel, SecurityState, SshBruteForceEntry,
    SuspiciousOutbound, MAX_SUSPICIOUS_OUTBOUND,
};

fn now_ms() -> i64 {
    std::time::SystemTime::now()
        .duration_since(std::time::UNIX_EPOCH)
        .unwrap()
        .as_millis() as i64
}

#[test]
fn classify_known_port_matching_process() {
    assert_eq!(classify_port_risk(5432, "postgres", Some(123)), PortRisk::Known);
    assert_eq!(classify_port_risk(53, "systemd-resolve", Some(1)), PortRisk::Known);
}

#[test]
fn classify_known_port_wrong_process() {
    assert_eq!(classify_port_risk(22, "xmrig", Some(999)), PortRisk::Suspicious);
    assert_eq!(classify_port_risk(5432, "cryptominer", Some(100)), PortRisk::Suspicious);
}

#[test]
fn classify_unknown_port_with_valid_process() {
    assert_eq!(classify_port_risk(9999, "my-custom-app", Some(500)), PortRisk::Known);
}

#[test]
fn classify_no_pid_is_unowned() {
    assert_eq!(classify_port_risk(8080, "???", None), PortRisk::Unowned);
    assert_eq!(classify_port_risk(8080, "something", Some(0)), PortRisk::Unowned);
}

#[test]
fn classify_generic_known_port_any_process() {
    assert_eq!(classify_port_risk(8080, "nginx", Some(10)), PortRisk::Known);
    assert_eq!(classify_port_risk(8080, "java", Some(20)), PortRisk::Known);
}

#[test]
fn classify_matches_case_insensitively() {
    assert_eq!(classify_port_risk(5432, "PostgreSQL", Some(7)), PortRisk::Known);
    assert_eq!(classify_port_risk(22, "", Some(7)), PortRisk::Unowned);
}

fn clean_state() -> SecurityState {
    let mut s = SecurityState::default();
    s.auth_log_readable = true;
    s
}

#[test]
fn score_starts_at_100_when_clean() {
    let state = clean_state();
    assert_eq!(compute_security_score(&state), 100);
}

#[test]
fn score_deducts_for_threats() {
    let mut state = clean_state();
    state.active_threats = 2;
    assert_eq!(compute_security_score(&state), 60);
}

#[test]
fn score_deducts_for_suspicious_and_unowned() {
    let mut state = clean_state();
    state.suspicious_count = 1;
    state.unowned_listeners = 2;
    assert_eq!(compute_security_score(&state), 80);
}

#[test]
fn score_clamps_at_zero() {
    let mut state = SecurityState::default();
    state.active_threats = 10;
    assert_eq!(compute_security_score(&state), 0);
}

#[test]
fn score_deducts_for_no_auth_log() {
    let mut state = SecurityState::default();
    state.auth_log_readable = false;
    assert_eq!(compute_security_score(&state), 97);
}

#[test]
fn score_deducts_for_modified_packages() {
    let mut state = clean_state();
    state.modified_packages = vec!["a".into(), "b".into(), "c".into()];
    assert_eq!(compute_security_score(&state), 94);
}

#[test]
fn score_deducts_two_per_modified_package() {
    let mut state = clean_state();
    state.modified_packages = (0..11).map(|i| format!("p{}", i)).collect();
    assert_eq!(compute_security_score(&state), 78);
    state.modified_packages = (0..25).map(|i| format!("p{}", i)).collect();
    assert_eq!(compute_security_score(&state), 50);
    state.risky_ports = vec![22, 5432];
    assert_eq!(compute_security_score(&state), 40);
}

#[test]
fn score_deducts_for_ssh_brute_force() {
    let mut state = clean_state();
    state.ssh_brute_force = vec![SshBruteForceEntry {
        source_ip: "10.0.0.1".into(),
        attempt_count: 10,
        last_seen_ms: now_ms(),
        target_users: vec!["root".into()],
    }];
    assert_eq!(compute_security_score(&state), 85);
}

#[test]
fn score_deducts_for_suspicious_outbound_capped() {
    let mut state = clean_state();
    state.suspicious_outbound = (0..10)
        .map(|i| SuspiciousOutbound {
            process_name: "test".into(),
            pid: Some(i as u32),
            remote_addr: "1.2.3.4".into(),
            remote_port: 4444,
            local_port: 40000 + i,
        })
        .collect();
    assert_eq!(compute_security_score(&state), 80);
}

#[test]
fn score_combined_new_penalties() {
    let mut state = clean_state();
    state.ssh_brute_force = vec![SshBruteForceEntry {
        source_ip: "10.0.0.1".into(),
        attempt_count: 20,
        last_seen_ms: now_ms(),
        target_users: vec!["root".into(), "admin".into()],
    }];
    state.suspicious_outbound = vec![SuspiciousOutbound {
        process_name: "nc".into(),
        pid: Some(999),
        remote_addr: "evil.example.com".into(),
        remote_port: 1337,
        local_port: 55555,
    }];
    assert_eq!(compute_security_score(&state), 80);
}

#[test]
fn extract_auth_detail_truncates() {
    let line = "Jan  1 00:00:00 host sshd[123]: Failed password for root from 10.0.0.1 port 22 ssh2";
    let detail = extract_auth_detail(line, "Failed password");
    assert!(detail.starts_with("Failed password"));
    assert!(detail.len() <= 80);
}

#[test]
fn extract_auth_detail_without_keyword_keeps_start() {
    let line = "x".repeat(100);
    assert_eq!(extract_auth_detail(&line, "Accepted"), "x".repeat(80));
    assert_eq!(
        extract_auth_detail("a Accepted publickey for bob", "Accepted"),
        "Accepted publickey for bob"
    );
}

#[test]
fn extract_sudo_detail_extracts_command() {
    let line = "Jan  1 00:00:00 host sudo: user : TTY=pts/0 ; PWD=/home ; COMMAND=/usr/bin/apt";
    let detail = extract_sudo_detail(line);
    assert!(detail.contains("user"));
}

#[test]
fn extract_sudo_detail_exact() {
    assert_eq!(extract_sudo_detail("host sudo:   alice : COMMAND=/bin/ls  "), "alice : COMMAND=/bin/ls");
}

#[test]
fn extract_failed_ssh_info_standard_line() {
    let line = "Jan  1 00:00:00 host sshd[123]: Failed password for root from 192.168.1.100 port 54321 ssh2";
    let result = extract_failed_ssh_info(line);
    assert_eq!(result, Some(("192.168.1.100".into(), "root".into())));
}

#[test]
fn extract_failed_ssh_info_invalid_user() {
    let line = "Jan  1 00:00:00 host sshd[123]: Failed password for invalid user admin from 10.0.0.5 port 12345 ssh2";
    let result = extract_failed_ssh_info(line);
    assert_eq!(result, Some(("10.0.0.5".into(), "admin".into())));
}

#[test]
fn extract_failed_ssh_info_no_from_keyword() {
    let line = "Jan  1 00:00:00 host sshd[123]: Some other message";
    let result = extract_failed_ssh_info(line);
    assert_eq!(result, None);
}

#[test]
fn extract_failed_ssh_info_without_user() {
    assert_eq!(extract_failed_ssh_info("connection from 1.2.3.4"), Some(("1.2.3.4".into(), "?".into())));
    assert_eq!(extract_failed_ssh_info("closed from   "), None);
}

#[test]
fn parse_cron_line_standard() {
    let result = parse_cron_line("*/5 * * * * /usr/bin/backup.sh");
    assert!(result.is_some());
    let (schedule, command) = result.unwrap();
    assert_eq!(schedule, "*/5 * * * *");
    assert_eq!(command, "/usr/bin/backup.sh");
}

#[test]
fn parse_cron_line_at_reboot() {
    let result = parse_cron_line("@reboot /usr/local/bin/startup.sh");
    assert!(result.is_some());
    let (schedule, command) = result.unwrap();
    assert_eq!(schedule, "@reboot");
    assert!(command.contains("/usr/local/bin/startup.sh"));
}

#[test]
fn parse_cron_line_rejects_non_cron() {
    assert!(parse_cron_line("SHELL=/bin/bash").is_none());
    assert!(parse_cron_line("PATH=/usr/bin:/bin").is_none());
}

#[test]
fn parse_cron_line_too_few_fields() {
    assert!(parse_cron_line("* * *").is_none());
}

#[test]
fn parse_cron_line_shorthand_needs_command() {
    assert!(parse_cron_line("@daily   ").is_none());
    assert!(parse_cron_line("").is_none());
}

#[test]
fn parse_system_cron_line_standard() {
    let result = parse_system_cron_line("0 3 * * * root /usr/bin/certbot renew");
    assert!(result.is_some());
    let (schedule, command) = result.unwrap();
    assert_eq!(schedule, "0 3 * * *");
    assert_eq!(command, "/usr/bin/certbot renew");
}

#[test]
fn parse_system_cron_line_rejects() {
    assert!(parse_system_cron_line("0 3 * * * root").is_none());
    assert!(parse_system_cron_line("MAILTO=root a b c d e f").is_none());
}

fn connection(remote_addr: &str, remote_port: u16, local_port: u16) -> ConnectionInfo {
    ConnectionInfo {
        local_addr: "192.168.1.10".into(),
        local_port,
        remote_addr: remote_addr.into(),
        remote_port,
        pid: Some(789),
        process_name: "suspicious".into(),
        state: "ESTABLISHED".into(),
    }
}

#[test]
fn analyze_suspicious_outbound_flags_nonstandard_port() {
    let connections = vec![connection("203.0.113.50", 4444, 49001)];
    let result = analyze_suspicious_outbound(&connections);
    assert_eq!(result.len(), 1);
    assert_eq!(result[0].remote_port, 4444);
    assert_eq!(result[0].process_name, "suspicious");
}

#[test]
fn analyze_suspicious_outbound_allows_standard_port() {
    let connections = vec![ConnectionInfo {
        local_addr: "192.168.1.10".into(),
        local_port: 49002,
        remote_addr: "8.8.8.8".into(),
        remote_port: 443,
        pid: Some(100),
        process_name: "curl".into(),
        state: "ESTABLISHED".into(),
    }];
    let result = analyze_suspicious_outbound(&connections);
    assert!(result.is_empty());
}

#[test]
fn analyze_suspicious_outbound_skips_loopback() {
    let connections = vec![ConnectionInfo {
        local_addr: "127.0.0.1".into(),
        local_port: 49003,
        remote_addr: "127.0.0.1".into(),
        remote_port: 9999,
        pid: Some(200),
        process_name: "local-svc".into(),
        state: "ESTABLISHED".into(),
    }];
    let result = analyze_suspicious_outbound(&connections);
    assert!(result.is_empty());
}

#[test]
fn analyze_suspicious_outbound_capped() {
    let connections: Vec<ConnectionInfo> = (0..100)
        .map(|i| ConnectionInfo {
            local_addr: "10.0.0.1".into(),
            local_port: 40000 + i,
            remote_addr: format!("203.0.113.{}", i % 256),
            remote_port: 5555,
            pid: Some(300),
            process_name: "bulk".into(),
            state: "ESTABLISHED".into(),
        })
        .collect();
    let result = analyze_suspicious_outbound(&connections);
    assert_eq!(result.len(), MAX_SUSPICIOUS_OUTBOUND);
}

#[test]
fn analyze_suspicious_outbound_keeps_order_and_skips_unspecified() {
    let connections = vec![
        connection("0.0.0.0", 7000, 1),
        connection("::1", 7000, 2),
        connection("198.51.100.7", 7001, 3),
        connection("198.51.100.8", 53, 4),
        connection("198.51.100.9", 7002, 5),
    ];
    let result = analyze_suspicious_outbound(&connections);
    let ports: Vec<u16> = result.iter().map(|o| o.local_port).collect();
    assert_eq!(ports, vec![3, 5]);
}

#[test]
fn panel_next_cycles_all() {
    let mut p = SecurityPanel::Listeners;
    let start = p;
    let mut visited = vec![p];
    for _ in 0..5 {
        p = p.next();
        visited.push(p);
    }
    assert_eq!(visited.last(), Some(&start));
    assert_eq!(visited.len(), 6);
}

#[test]
fn panel_prev_is_inverse_of_next() {
    let p = SecurityPanel::Connections;
    assert_eq!(p.next().prev(), p);
    let p2 = SecurityPanel::Integrity;
    assert_eq!(p2.prev().next(), p2);
}

#[test]
fn score_label_thresholds() {
    assert_eq!(score_label(100), "GOOD");
    assert_eq!(score_label(80), "GOOD");
    assert_eq!(score_label(79), "FAIR");
    assert_eq!(score_label(60), "FAIR");
    assert_eq!(score_label(59), "POOR");
    assert_eq!(score_label(40), "POOR");
    assert_eq!(score_label(39), "CRITICAL");
    assert_eq!(score_label(0), "CRITICAL");
}

#[test]
fn default_state_is_clean() {
    let state = SecurityState::default();
    assert_eq!(state.score, 100);
    assert_eq!(state.focused_panel, SecurityPanel::Listeners);
    assert!(state.listeners.is_empty());
    assert!(state.events.is_empty());
    assert!(!state.detail_popup);
}

#[test]
fn focus_panel_resets_selection() {
    let mut state = SecurityState::default();
    state.selected_index = 5;
    state.focus_panel(SecurityPanel::Timeline);
    assert_eq!(state.focused_panel, SecurityPanel::Timeline);
    assert_eq!(state.selected_index, 0);
}

#[test]
fn focused_item_count_per_panel() {
    let mut state = SecurityState::default();
    state.listeners = vec![ListenerInfo {
        port: 8080,
        protocol: "tcp".into(),
        pid: Some(123),
        process_name: "nginx".into(),
        bind_addr: "0.0.0.0".into(),
        risk: PortRisk::Known,
    }];
    state.connections = vec![ConnectionInfo {
        local_addr: "127.0.0.1".into(),
        local_port: 5432,
        remote_addr: "127.0.0.1".into(),
        remote_port: 49001,
        pid: Some(456),
        process_name: "psql".into(),
        state: "ESTABLISHED".into(),
    }];

    state.focused_panel = SecurityPanel::Listeners;
    assert_eq!(state.focused_item_count(), 1);

    state.focused_panel = SecurityPanel::Connections;
    assert_eq!(state.focused_item_count(), 1);

    state.focused_panel = SecurityPanel::ThreatSummary;
    assert_eq!(state.focused_item_count(), 0);
}

#[test]
fn focused_scroll_follows_panel() {
    let mut state = SecurityState::default();
    state.focused_panel = SecurityPanel::Timeline;
    state.set_focused_scroll(7);
    assert_eq!(state.event_scroll, 7);
    assert_eq!(state.focused_scroll(), 7);
    state.focused_panel = SecurityPanel::Integrity;
    state.set_focused_scroll(3);
    assert_eq!(state.focused_scroll(), 0);
    assert_eq!(state.score_label(), "GOOD");
}

#[test]
fn security_event_age_display() {
    let event = SecurityEvent {
        timestamp_ms: now_ms(),
        kind: SecurityEventKind::Threat,
        severity: AlertSeverity::Warning,
        message: "test".into(),
        pid: None,
    };
    let age = event.age_display();
    assert!(age.ends_with('s'), "Fresh event should show seconds, got: {}", age);
}

#[test]
fn security_event_age_at_fixed_times() {
    let event = SecurityEvent {
        timestamp_ms: 1_000_000,
        kind: SecurityEventKind::AuthEvent,
        severity: AlertSeverity::Info,
        message: "m".into(),
        pid: Some(1),
    };
    assert_eq!(event.age_display_at(1_059_999), "59s");
    assert_eq!(event.age_display_at(1_060_000), "1m");
    assert_eq!(event.age_display_at(1_000_000 + 7_200_000), "2h");
    assert_eq!(event.age_display_at(1_000_000 + 3 * 86_400_000), "3d");
    assert_eq!(event.icon(), "@");
    assert_eq!(age_label(-5), "-5s");
}

#[test]
fn port_risk_ordering() {
    assert!(PortRisk::Known < PortRisk::Suspicious);
    assert!(PortRisk::Suspicious < PortRisk::Unowned);
}
