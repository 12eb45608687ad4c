use sentinel::collector::{
    collect_connections_from, collect_cron_entries_from, collect_listeners_from,
    collect_security_events_from, logged_in_users_from, merge_timeline, modified_packages_from,
    newest_events, parse_timer_listing, refresh_derived, scan_auth_lines, AlertRecord,
    AuthLogScanResult, CronSource, MAX_AUTH_EVENTS, MAX_CRON_ENTRIES, MAX_MODIFIED_PACKAGES,
    MAX_SECURITY_EVENTS, SSH_BRUTE_FORCE_THRESHOLD,
};
use sentinel::security::{
    AlertCategory, AlertSeverity, ConnectionInfo, ListenerInfo, PortRisk, SecurityEvent,
    SecurityEventKind, SecurityState,
};
use sentinel::store::{EventRow, SocketRow};

fn lines(v: &[&str]) -> Vec<String> {
    v.iter().map(|s| s.to_string()).collect()
}

#[test]
fn auth_scan_counts_and_builds_timeline() {
    let log = lines(&[
        "Jan  1 00:00:01 host sshd[1]: Failed password for root from 10.0.0.1 port 22 ssh2",
        "Jan  1 00:00:02 host sshd[1]: Accepted password for bob from 10.0.0.2 port 22 ssh2",
        "Jan  1 00:00:03 host sudo: alice : COMMAND=/bin/ls",
        "Jan  1 00:00:04 host CRON[2]: pam_unix(cron:session): session opened for user root",
        "Jan  1 00:00:05 host kernel: nothing to see",
    ]);
    let r = scan_auth_lines(&log, 1234);
    assert!(r.readable);
    assert_eq!(r.event_count, 4);
    assert_eq!(r.events.len(), 3);
    assert_eq!(r.events[0].severity, AlertSeverity::Warning);
    assert!(r.events[0].message.starts_with("Failed login: Failed password for root"));
    assert_eq!(r.events[1].message, "Login accepted: Accepted password for bob from 10.0.0.2 port 22 ssh2");
    assert_eq!(r.events[2].message, "sudo: alice : COMMAND=/bin/ls");
    for e in &r.events {
        assert_eq!(e.kind, SecurityEventKind::AuthEvent);
        assert_eq!(e.timestamp_ms, 1234);
        assert!(e.pid.is_none());
    }
    assert!(r.brute_force_entries.is_empty());
}

#[test]
fn auth_scan_detects_brute_force() {
    let mut log = Vec::new();
    for i in 0..SSH_BRUTE_FORCE_THRESHOLD {
        let user = if i % 2 == 0 { "root" } else { "admin" };
        log.push(format!("sshd[1]: Failed password for {} from 203.0.113.5 port 22 ssh2", user));
    }
    log.push("sshd[1]: Failed password for root from 198.51.100.1 port 22 ssh2".to_string());
    let r = scan_auth_lines(&log, 0);
    assert_eq!(r.brute_force_entries.len(), 1);
    let b = &r.brute_force_entries[0];
    assert_eq!(b.source_ip, "203.0.113.5");
    assert_eq!(b.attempt_count, SSH_BRUTE_FORCE_THRESHOLD);
    assert_eq!(b.target_users, vec!["root".to_string(), "admin".to_string()]);
    assert!(r.events.len() <= MAX_AUTH_EVENTS);
}

#[test]
fn auth_scan_keeps_latest_events() {
    let log: Vec<String> = (0..MAX_AUTH_EVENTS + 7).map(|i| format!("sudo: user{}", i)).collect();
    let r = scan_auth_lines(&log, 0);
    assert_eq!(r.events.len(), MAX_AUTH_EVENTS);
    assert_eq!(r.events[0].message, "sudo: user7");
    assert_eq!(r.event_count, MAX_AUTH_EVENTS + 7);
    let none = AuthLogScanResult::unreadable();
    assert!(!none.readable);
    assert_eq!(none.event_count, 0);
}

#[test]
fn cron_sources_are_collected_in_order() {
    let sources = vec![
        CronSource {
            user: "alice".into(),
            source: "user crontab".into(),
            system: false,
            lines: lines(&["# comment", "", "*/5 * * * * /usr/bin/backup.sh", "@reboot   /bin/start", "SHELL=/bin/sh"]),
        },
        CronSource {
            user: "system".into(),
            source: "/etc/crontab".into(),
            system: true,
            lines: lines(&["  0 3 * * * root /usr/bin/certbot renew  "]),
        },
    ];
    let entries = collect_cron_entries_from(&sources);
    assert_eq!(entries.len(), 3);
    assert_eq!(entries[0].user, "alice");
    assert_eq!(entries[0].schedule, "*/5 * * * *");
    assert_eq!(entries[0].command, "/usr/bin/backup.sh");
    assert_eq!(entries[1].schedule, "@reboot");
    assert_eq!(entries[1].command, "/bin/start");
    assert_eq!(entries[2].source, "/etc/crontab");
    assert_eq!(entries[2].command, "/usr/bin/certbot renew");
}

#[test]
fn cron_collection_stops_at_limit() {
    let many: Vec<String> = (0..MAX_CRON_ENTRIES + 10).map(|i| format!("{} * * * * job{}", i % 60, i)).collect();
    let sources = vec![CronSource { user: "u".into(), source: "s".into(), system: false, lines: many }];
    let entries = collect_cron_entries_from(&sources);
    assert_eq!(entries.len(), MAX_CRON_ENTRIES);
    assert_eq!(entries[MAX_CRON_ENTRIES - 1].command, format!("job{}", MAX_CRON_ENTRIES - 1));
}

#[test]
fn timer_listing_is_parsed() {
    let out = lines(&[
        "NEXT                        LEFT     LAST                        PASSED  UNIT                         ACTIVATES",
        "Wed 2026-03-11 06:00:00 UTC 5h left  Tue 2026-03-10 06:00:00 UTC 18h ago apt-daily.timer              apt-daily.service",
        "n/a                         n/a      n/a                         n/a     snapd.snap-repair.timer      snapd.snap-repair.service",
        "",
        "2 timers listed.",
    ]);
    let timers = parse_timer_listing(&out);
    assert_eq!(timers.len(), 2);
    assert_eq!(timers[0].unit, "apt-daily.timer");
    assert_eq!(timers[0].activates, "apt-daily.service");
    assert!(timers[0].active);
    assert_eq!(
        timers[0].next_trigger,
        Some("Wed 2026-03-11 06:00:00 UTC 5h left Tue 2026-03-10 06:00:00 UTC 18h ago".to_string())
    );
    assert_eq!(timers[1].next_trigger, None);
    assert!(parse_timer_listing(&[]).is_empty());
}

#[test]
fn modified_packages_are_non_empty_lines() {
    let out = lines(&["??5?????? c /etc/foo.conf", "", "??5??????   /usr/bin/bar"]);
    assert_eq!(modified_packages_from(&out), lines(&["??5?????? c /etc/foo.conf", "??5??????   /usr/bin/bar"]));
    let many: Vec<String> = (0..MAX_MODIFIED_PACKAGES + 5).map(|i| format!("f{}", i)).collect();
    assert_eq!(modified_packages_from(&many).len(), MAX_MODIFIED_PACKAGES);
}

#[test]
fn logged_in_users_sorted_unique() {
    let out = lines(&["zed pts/0 2026-01-01", "alice tty1 2026-01-01", "", "zed pts/1 2026-01-01", "bob :0"]);
    assert_eq!(logged_in_users_from(&out), lines(&["alice", "bob", "zed"]));
    assert!(logged_in_users_from(&[]).is_empty());
}

fn socket(pid: Option<u32>, name: Option<&str>, port: u16, remote: Option<(&str, u16)>) -> SocketRow {
    SocketRow {
        ts: 0,
        pid,
        name: name.map(|n| n.to_string()),
        protocol: "tcp".into(),
        local_addr: "0.0.0.0".into(),
        local_port: port,
        remote_addr: remote.map(|r| r.0.to_string()),
        remote_port: remote.map(|r| r.1),
        state: "ESTABLISHED".into(),
    }
}

#[test]
fn listeners_and_connections_from_rows() {
    let rows = vec![
        socket(Some(10), Some("sshd"), 22, None),
        socket(None, None, 8080, None),
        socket(Some(11), Some("xmrig"), 22, Some(("1.2.3.4", 4444))),
    ];
    let ls = collect_listeners_from(&rows);
    assert_eq!(ls[0].risk, PortRisk::Known);
    assert_eq!(ls[1].process_name, "???");
    assert_eq!(ls[1].risk, PortRisk::Unowned);
    assert_eq!(ls[2].risk, PortRisk::Suspicious);
    let cs = collect_connections_from(&rows);
    assert_eq!(cs[0].remote_addr, "?");
    assert_eq!(cs[0].remote_port, 0);
    assert_eq!(cs[1].process_name, "???");
    assert_eq!(cs[2].remote_addr, "1.2.3.4");
    assert_eq!(cs[2].remote_port, 4444);
}

fn row(ts: i64, kind: &str, name: Option<&str>, detail: Option<&str>, severity: Option<&str>) -> EventRow {
    EventRow {
        ts,
        kind: kind.into(),
        pid: Some(7),
        name: name.map(|s| s.to_string()),
        detail: detail.map(|s| s.to_string()),
        severity: severity.map(|s| s.to_string()),
    }
}

#[test]
fn security_timeline_from_alerts_and_rows() {
    let alerts = vec![
        AlertRecord {
            timestamp_ms: 500,
            category: AlertCategory::SecurityThreat,
            category_text: "SECURITY".into(),
            severity: AlertSeverity::Critical,
            message: "miner found".into(),
            pid: 99,
        },
        AlertRecord {
            timestamp_ms: 900,
            category: AlertCategory::ThermalWarning,
            category_text: "THERMAL".into(),
            severity: AlertSeverity::Warning,
            message: "hot".into(),
            pid: 1,
        },
    ];
    let rows = vec![
        row(100, "port_bind", Some("nginx"), None, None),
        row(700, "process_exit", None, None, None),
        row(300, "alert", None, Some("SUSPECT process"), Some("warn")),
        row(800, "alert", None, Some("cpu high"), Some("danger")),
        row(600, "cpu_spike", None, None, None),
    ];
    let t = collect_security_events_from(&alerts, &rows, 1000);
    let msgs: Vec<&str> = t.iter().map(|e| e.message.as_str()).collect();
    assert_eq!(msgs, vec!["Process exited: unknown", "SECURITY: miner found", "SUSPECT process", "Port opened by nginx"]);
    assert_eq!(t[1].pid, Some(99));
    assert_eq!(t[2].severity, AlertSeverity::Warning);
    assert_eq!(t[2].kind, SecurityEventKind::Threat);
    assert_eq!(t[3].kind, SecurityEventKind::PortChange);
}

fn ev(ts: i64, msg: &str) -> SecurityEvent {
    SecurityEvent { timestamp_ms: ts, kind: SecurityEventKind::AuthEvent, severity: AlertSeverity::Info, message: msg.into(), pid: None }
}

#[test]
fn timeline_is_newest_first_and_stable() {
    let a = vec![ev(5, "a"), ev(9, "b"), ev(5, "c")];
    let b = vec![ev(9, "d"), ev(1, "e")];
    let merged = merge_timeline(&a, &b);
    let msgs: Vec<&str> = merged.iter().map(|e| e.message.as_str()).collect();
    assert_eq!(msgs, vec!["b", "d", "a", "c", "e"]);
    let many: Vec<SecurityEvent> = (0..(MAX_SECURITY_EVENTS as i64 + 5)).map(|i| ev(i, "x")).collect();
    let newest = newest_events(&many);
    assert_eq!(newest.len(), MAX_SECURITY_EVENTS);
    assert_eq!(newest[0].timestamp_ms, MAX_SECURITY_EVENTS as i64 + 4);
}

#[test]
fn refresh_recomputes_counters_and_score() {
    let mut state = SecurityState::default();
    state.auth_log_readable = true;
    state.score = 90;
    state.listeners = vec![
        ListenerInfo { port: 22, protocol: "tcp".into(), pid: Some(1), process_name: "xmrig".into(), bind_addr: "0.0.0.0".into(), risk: PortRisk::Suspicious },
        ListenerInfo { port: 9000, protocol: "tcp".into(), pid: None, process_name: "???".into(), bind_addr: "0.0.0.0".into(), risk: PortRisk::Unowned },
    ];
    state.connections = vec![ConnectionInfo {
        local_addr: "10.0.0.1".into(),
        local_port: 40000,
        remote_addr: "203.0.113.1".into(),
        remote_port: 4444,
        pid: Some(3),
        process_name: "nc".into(),
        state: "ESTABLISHED".into(),
    }];
    let cats = vec![AlertCategory::SecurityThreat, AlertCategory::Suspicious, AlertCategory::ThermalWarning, AlertCategory::SecurityThreat];
    refresh_derived(&mut state, &cats);
    assert_eq!(state.active_threats, 2);
    assert_eq!(state.suspicious_count, 1);
    assert_eq!(state.risky_ports, vec![22]);
    assert_eq!(state.unowned_listeners, 1);
    assert_eq!(state.suspicious_outbound.len(), 1);
    assert_eq!(state.prev_score, 90);
    // 100 - 40 - 10 - 5 - 5 - 5
    assert_eq!(state.score, 35);
}

#[test]
fn stored_event_outside_date_range_is_shown_now() {
    let rows = vec![row(i64::MAX, "port_bind", Some("nginx"), None, None), row(5, "port_bind", Some("sshd"), None, None)];
    let t = collect_security_events_from(&[], &rows, 777);
    assert_eq!(t[0].timestamp_ms, 777);
    assert_eq!(t[0].message, "Port opened by nginx");
    assert_eq!(t[1].timestamp_ms, 5);
}
