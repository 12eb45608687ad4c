use sentinel::windows::{
    WindowsFirewallProfile, WindowsListeningPort, WindowsSecurityStatus, WindowsStartupEntry,
    WindowsTcpConnection, WindowsUserSession,
};
use sentinel::windows_context::{security_ai_context, WindowsHostFacts};

fn conn(local_port: u16, remote_port: u16, state: &str, name: &str) -> WindowsTcpConnection {
    WindowsTcpConnection {
        local_addr: "10.0.0.2".into(),
        local_port,
        remote_addr: "1.2.3.4".into(),
        remote_port,
        state: state.into(),
        pid: 7,
        process_name: name.into(),
    }
}

fn facts() -> WindowsHostFacts {
    WindowsHostFacts {
        hostname: "DESKTOP-TEST".into(),
        os_version: "Windows 11".into(),
        uptime_secs: 7300,
        cpu_cores: 8,
        security: Some(WindowsSecurityStatus {
            firewall_profiles: vec![
                WindowsFirewallProfile { name: "Domain".into(), enabled: true },
                WindowsFirewallProfile { name: "Public".into(), enabled: false },
            ],
            defender_enabled: Some(true),
            defender_realtime: None,
            last_update_days: Some(12),
        }),
        tcp_connections: vec![
            conn(50000, 443, "ESTABLISHED", "chrome.exe"),
            conn(50001, 4444, "ESTABLISHED", "nc.exe"),
            conn(50002, 4444, "TIME_WAIT", "old.exe"),
        ],
        listening_ports: vec![WindowsListeningPort { port: 3389, pid: 4, process_name: "svchost.exe".into(), protocol: "TCP".into() }],
        startup_programs: vec![WindowsStartupEntry {
            name: "Updater".into(),
            command: "upd.exe /quiet".into(),
            location: "HKLM Run".into(),
        }],
        logged_in_users: vec![WindowsUserSession {
            username: "alice".into(),
            session_type: "Console".into(),
            state: "Active".into(),
        }],
    }
}

#[test]
fn ai_context_exact_text() {
    let text = security_ai_context(&facts(), "25.0", "50");
    let expected = [
        "Analyze this Windows host security posture:\n",
        "\n",
        "=== SYSTEM ===\n",
        "Hostname: DESKTOP-TEST\n",
        "OS: Windows 11\n",
        "Uptime: 2h\n",
        "CPU: 25.0% | RAM: 50% (8 cores)\n",
        "\n=== SECURITY STATUS ===\n",
        "Firewall Domain: ON\n",
        "Firewall Public: OFF\n",
        "Defender: ON\n",
        "Last Windows Update: 12 days ago\n",
        "\n=== CONNECTIONS (3 total, 2 established, 1 suspicious) ===\n",
        "  10.0.0.2:50001 -> 1.2.3.4:4444 [ESTABLISHED] nc.exe\n",
        "  10.0.0.2:50000 -> 1.2.3.4:443 [ESTABLISHED] chrome.exe\n",
        "  10.0.0.2:50002 -> 1.2.3.4:4444 [TIME_WAIT] old.exe\n",
        "\n=== LISTENING PORTS (1) ===\n",
        "  3389 TCP svchost.exe (PID:4)\n",
        "\n=== STARTUP PROGRAMS (1) ===\n",
        "  Updater -> upd.exe /quiet [HKLM Run]\n",
        "\n=== LOGGED-IN USERS (1) ===\n",
        "  alice (Console, Active)\n",
        "\nProvide a security assessment covering:\n",
        "1. Overall security posture (good/moderate/poor)\n",
        "2. Immediate risks or concerns\n",
        "3. Suspicious connections or processes\n",
        "4. Specific recommendations\n",
        "Keep it concise and actionable (under 300 words).\n",
    ]
    .concat();
    assert_eq!(text, expected);
}

#[test]
fn ai_context_caps_lists_and_skips_empty_sections() {
    let mut f = facts();
    f.security = None;
    f.tcp_connections = (0..12).map(|i| conn(40000 + i, 80, "ESTABLISHED", "web.exe")).collect();
    f.listening_ports = (0..20)
        .map(|i| WindowsListeningPort { port: 1000 + i, pid: 1, process_name: "p".into(), protocol: "TCP".into() })
        .collect();
    f.startup_programs.clear();
    f.logged_in_users.clear();
    let text = security_ai_context(&f, "1.0", "2");
    assert!(!text.contains("SECURITY STATUS"));
    assert!(!text.contains("STARTUP PROGRAMS"));
    assert!(!text.contains("LOGGED-IN USERS"));
    assert!(text.contains("=== CONNECTIONS (12 total, 12 established, 0 suspicious) ===\n"));
    assert_eq!(text.matches(" [ESTABLISHED] web.exe\n").count(), 10);
    assert!(text.contains("=== LISTENING PORTS (20) ===\n"));
    assert_eq!(text.matches(" TCP p (PID:1)\n").count(), 15);
    assert!(text.contains("  1014 TCP p (PID:1)\n"));
    assert!(!text.contains("  1015 TCP p (PID:1)\n"));
}
