use std::collections::HashMap;

use sentinel::store::{
    events_summary, format_age_ms, now_epoch_ms, now_epoch_ms_pub, parse_hex_addr,
    parse_proc_net_line, proc_entry_pid, retention_cutoff, socket_inode_of_link, summary_line,
    tcp_state_name, CleanupCounter, EventKind, EventRow, ListenerTracker, ProcessTracker,
    SocketRow, CLEANUP_INTERVAL,
};

#[test]
fn event_kind_roundtrip() {
    let kinds = [
        EventKind::ProcessStart,
        EventKind::ProcessExit,
        EventKind::PortBind,
        EventKind::PortRelease,
        EventKind::Alert,
        EventKind::CpuSpike,
        EventKind::MemorySpike,
        EventKind::OomKill,
    ];
    for kind in &kinds {
        let s = kind.to_string();
        let parsed = EventKind::from_str(&s);
        assert_eq!(parsed, Some(*kind), "Roundtrip failed for {:?}", kind);
    }
}

#[test]
fn event_kind_from_str_unknown() {
    assert_eq!(EventKind::from_str("bogus"), None);
}

#[test]
fn event_kind_names() {
    assert_eq!(EventKind::PortBind.as_str(), "port_bind");
    assert_eq!(EventKind::OomKill.to_string(), "oom_kill");
    assert_eq!(EventKind::from_str("Process_Start"), None);
}

#[test]
fn parse_hex_addr_ipv4() {
    let (addr, port) = parse_hex_addr("0100007F:1F90").unwrap();
    assert_eq!(addr, "127.0.0.1");
    assert_eq!(port, 8080);
}

#[test]
fn parse_hex_addr_ipv4_any() {
    let (addr, port) = parse_hex_addr("00000000:0050").unwrap();
    assert_eq!(addr, "0.0.0.0");
    assert_eq!(port, 80);
}

#[test]
fn parse_hex_addr_rejects_malformed() {
    assert!(parse_hex_addr("0100007F").is_none());
    assert!(parse_hex_addr("0100007F:1F90:00").is_none());
    assert!(parse_hex_addr("0100007F:XYZ").is_none());
    assert!(parse_hex_addr("0100007F:10000").is_none());
}

#[test]
fn tcp_state_names() {
    assert_eq!(tcp_state_name(0x0A), "LISTEN");
    assert_eq!(tcp_state_name(0x01), "ESTABLISHED");
    assert_eq!(tcp_state_name(0x06), "TIME_WAIT");
    assert_eq!(tcp_state_name(0xFF), "UNKNOWN");
}

#[test]
fn format_age_seconds() {
    assert_eq!(format_age_ms(5000), "5s ago");
    assert_eq!(format_age_ms(59000), "59s ago");
}

#[test]
fn format_age_minutes() {
    assert_eq!(format_age_ms(60000), "1m ago");
    assert_eq!(format_age_ms(3599000), "59m ago");
}

#[test]
fn format_age_hours() {
    assert_eq!(format_age_ms(3600000), "1h ago");
    assert_eq!(format_age_ms(7200000), "2h ago");
}

#[test]
fn format_age_truncates_toward_zero() {
    assert_eq!(format_age_ms(-1500), "-1s ago");
    assert_eq!(format_age_ms(999), "0s ago");
}

#[test]
fn proc_net_line_parses_listener() {
    let mut map: HashMap<u64, (u32, String)> = HashMap::new();
    map.insert(12345, (42, "nginx".to_string()));
    let line = "   0: 0100007F:1F90 00000000:0000 0A 00000000:00000000 00:00000000 00000000  1000        0 12345 1 0000000000000000 100 0 0 10 0";
    let s = parse_proc_net_line(line, "tcp", &map).unwrap();
    assert_eq!(s.pid, Some(42));
    assert_eq!(s.name, Some("nginx".to_string()));
    assert_eq!(s.protocol, "tcp");
    assert_eq!(s.local_addr, "127.0.0.1");
    assert_eq!(s.local_port, 8080);
    assert_eq!(s.remote_addr, None);
    assert_eq!(s.remote_port, None);
    assert_eq!(s.state, "LISTEN");
    assert!(parse_proc_net_line("too few fields", "tcp", &map).is_none());
}

fn procs(list: &[(u32, &str)]) -> Vec<(u32, String)> {
    list.iter().map(|(p, n)| (*p, n.to_string())).collect()
}

#[test]
fn process_tracker_reports_starts_and_exits() {
    let mut t = ProcessTracker::new();
    assert!(t.detect(&procs(&[(1, "init"), (2, "sshd")])).is_empty());
    let events = t.detect(&procs(&[(1, "init"), (3, "bash")]));
    assert_eq!(events.len(), 2);
    assert_eq!(events[0].kind, EventKind::ProcessStart);
    assert_eq!(events[0].pid, 3);
    assert_eq!(events[0].name, "bash");
    assert_eq!(events[1].kind, EventKind::ProcessExit);
    assert_eq!(events[1].pid, 2);
    assert_eq!(events[1].name, "sshd");
    assert!(t.detect(&procs(&[(1, "init"), (3, "bash")])).is_empty());
}

fn listener(proto: &str, port: u16, pid: Option<u32>) -> SocketRow {
    SocketRow {
        ts: 0,
        pid,
        name: None,
        protocol: proto.to_string(),
        local_addr: "0.0.0.0".to_string(),
        local_port: port,
        remote_addr: None,
        remote_port: None,
        state: "LISTEN".to_string(),
    }
}

#[test]
fn listener_tracker_reports_binds_and_releases() {
    let mut t = ListenerTracker::new();
    assert!(t.detect(&[listener("tcp", 22, Some(1)), listener("tcp", 80, None)]).is_empty());
    let events = t.detect(&[listener("tcp", 22, Some(1)), listener("tcp6", 443, Some(9)), listener("tcp6", 443, Some(9))]);
    assert_eq!(events.len(), 1);
    assert_eq!(events[0].kind, EventKind::PortBind);
    assert_eq!(events[0].detail(), "tcp6:443");
    assert_eq!(events[0].pid, 9);
    let events = t.detect(&[listener("tcp6", 443, Some(9))]);
    assert_eq!(events.len(), 1);
    assert_eq!(events[0].kind, EventKind::PortRelease);
    assert_eq!(events[0].detail(), "tcp:22");
}

#[test]
fn cleanup_counter_fires_every_interval() {
    let mut c = CleanupCounter::new();
    let mut fired = 0;
    for _ in 0..(2 * CLEANUP_INTERVAL) {
        if c.record_insert() {
            fired += 1;
        }
    }
    assert_eq!(fired, 2);
    assert_eq!(c.insert_count, 2 * CLEANUP_INTERVAL);
    assert_eq!(retention_cutoff(100_000_000, 3600), 100_000_000 - 3_600_000);
}

#[test]
fn summary_lines_format_events() {
    let rows = vec![
        EventRow { ts: 10_000, kind: "process_start".into(), pid: Some(42), name: Some("nginx".into()), detail: None, severity: Some("info".into()) },
        EventRow { ts: 0, kind: "port_bind".into(), pid: None, name: None, detail: Some("tcp:80".into()), severity: None },
    ];
    assert_eq!(summary_line(70_000, &rows[0]), "[1m ago] process_start PID 42 (nginx)");
    assert_eq!(events_summary(70_000, &rows, 10), "[1m ago] process_start PID 42 (nginx)\n[1m ago] port_bind");
    assert_eq!(events_summary(70_000, &rows, 1), "[1m ago] process_start PID 42 (nginx)");
    assert_eq!(events_summary(70_000, &rows, 0), "");
}

#[test]
fn proc_scan_helpers() {
    assert_eq!(socket_inode_of_link("socket:[12345]"), Some(12345));
    assert_eq!(socket_inode_of_link("socket:[]"), None);
    assert_eq!(socket_inode_of_link("pipe:[12345]"), None);
    assert_eq!(socket_inode_of_link("socket:[12x]"), None);
    assert_eq!(proc_entry_pid("1234"), Some(1234));
    assert_eq!(proc_entry_pid("self"), None);
    assert_eq!(proc_entry_pid("4294967296"), None);
}

#[test]
fn clock_reads_after_2020() {
    assert!(now_epoch_ms() > 1_577_836_800_000);
    assert!(now_epoch_ms_pub() > 1_577_836_800_000);
}
