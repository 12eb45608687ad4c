use sentinel::registry::{Key, Plugin, PluginAction};
use sentinel::windows::WindowsSortField;
use sentinel::windows_tab::WindowsPlugin;

fn make_plugin() -> WindowsPlugin {
    WindowsPlugin::new(true, "http://localhost:8085/api/snapshot".into(), 5)
}

/// The test snapshot lists three processes.
const PROCESSES: Option<usize> = Some(3);

fn context() -> Option<String> {
    Some("Analyze this Windows host security posture:".to_string())
}

/// A key press with the test snapshot loaded.
fn press(plugin: &mut WindowsPlugin, key: Key) -> PluginAction {
    plugin.handle_key(key, PROCESSES, context())
}

/// A key press without a snapshot.
fn press_without_snapshot(plugin: &mut WindowsPlugin, key: Key) -> PluginAction {
    plugin.handle_key(key, None, None)
}

#[test]
fn plugin_id_and_label() {
    let plugin = make_plugin();
    assert_eq!(plugin.id(), "windows");
    assert_eq!(plugin.tab_label(), "Windows");
}

#[test]
fn is_enabled_respects_config() {
    let enabled = WindowsPlugin::new(true, String::new(), 5);
    assert!(enabled.is_enabled());
    let disabled = WindowsPlugin::new(false, String::new(), 5);
    assert!(!disabled.is_enabled());
}

#[test]
fn key_navigation_up_down() {
    let mut plugin = make_plugin();
    let action = press(&mut plugin, Key::Down);
    assert!(matches!(action, PluginAction::Consumed));
    assert_eq!(plugin.state.selected_process, 1);
    let action = press(&mut plugin, Key::Down);
    assert!(matches!(action, PluginAction::Consumed));
    assert_eq!(plugin.state.selected_process, 2);
    let action = press(&mut plugin, Key::Up);
    assert!(matches!(action, PluginAction::Consumed));
    assert_eq!(plugin.state.selected_process, 1);
}

#[test]
fn key_up_does_not_underflow() {
    let mut plugin = make_plugin();
    plugin.state.selected_process = 0;
    press(&mut plugin, Key::Up);
    assert_eq!(plugin.state.selected_process, 0);
}

#[test]
fn key_down_does_not_overflow() {
    let mut plugin = make_plugin();
    plugin.state.selected_process = 2;
    press(&mut plugin, Key::Down);
    assert_eq!(plugin.state.selected_process, 2);
}

#[test]
fn home_end_keys() {
    let mut plugin = make_plugin();
    plugin.state.selected_process = 1;
    press(&mut plugin, Key::End);
    assert_eq!(plugin.state.selected_process, 2);
    press(&mut plugin, Key::Home);
    assert_eq!(plugin.state.selected_process, 0);
}

#[test]
fn unhandled_key_returns_ignored() {
    let mut plugin = make_plugin();
    let action = press_without_snapshot(&mut plugin, Key::Char('z'));
    assert!(matches!(action, PluginAction::Ignored));
}

#[test]
fn status_bar_hints_not_empty() {
    assert!(!make_plugin().status_bar_hints().is_empty());
}

#[test]
fn help_entries_not_empty() {
    assert!(!make_plugin().help_entries().is_empty());
}

#[test]
fn sort_key_cycles_field() {
    let mut plugin = make_plugin();
    assert_eq!(plugin.state.sort_field, WindowsSortField::Cpu);
    let action = press(&mut plugin, Key::Char('s'));
    assert!(matches!(action, PluginAction::Consumed));
    assert_eq!(plugin.state.sort_field, WindowsSortField::Memory);
    press(&mut plugin, Key::Char('s'));
    assert_eq!(plugin.state.sort_field, WindowsSortField::Pid);
}

#[test]
fn sort_direction_key_toggles() {
    let mut plugin = make_plugin();
    assert!(!plugin.state.sort_ascending);
    let action = press_without_snapshot(&mut plugin, Key::Char('S'));
    assert!(matches!(action, PluginAction::Consumed));
    assert!(plugin.state.sort_ascending);
}

#[test]
fn focus_key_toggles_panel() {
    let mut plugin = make_plugin();
    assert!(plugin.state.focused_panel.is_none());
    let action = press_without_snapshot(&mut plugin, Key::Char('f'));
    assert!(matches!(action, PluginAction::Consumed));
    assert!(plugin.state.focused_panel.is_some());
    press_without_snapshot(&mut plugin, Key::Char('f'));
    assert!(plugin.state.focused_panel.is_none());
}

#[test]
fn ai_key_emits_request_with_snapshot() {
    let mut plugin = make_plugin();
    let action = press(&mut plugin, Key::Char('a'));
    assert!(matches!(action, PluginAction::RequestAiAnalysis(_)));
    assert!(plugin.state.ai_loading);
    assert!(plugin.state.ai_analysis.is_none());
}

#[test]
fn ai_key_sets_status_without_snapshot() {
    let mut plugin = make_plugin();
    let action = press_without_snapshot(&mut plugin, Key::Char('a'));
    assert!(matches!(action, PluginAction::SetStatus(_)));
    assert!(!plugin.state.ai_loading);
}

#[test]
fn ai_receive_chunk_and_done() {
    let mut plugin = make_plugin();
    plugin.state.ai_loading = true;
    plugin.receive_ai_chunk("Hello ");
    assert_eq!(plugin.state.ai_analysis, Some("Hello ".to_string()));
    plugin.receive_ai_chunk("World");
    assert_eq!(plugin.state.ai_analysis, Some("Hello World".to_string()));
    plugin.ai_analysis_done();
    assert!(!plugin.state.ai_loading);
}

#[test]
fn ai_error_sets_message() {
    let mut plugin = make_plugin();
    plugin.state.ai_loading = true;
    plugin.ai_analysis_error("API key invalid");
    assert!(!plugin.state.ai_loading);
    assert!(plugin.state.ai_analysis.as_ref().unwrap().contains("Error:"));
}

#[test]
fn focus_cycle_key_only_when_focused() {
    let mut plugin = make_plugin();
    let action = press_without_snapshot(&mut plugin, Key::Char('F'));
    assert!(matches!(action, PluginAction::Ignored));
    press_without_snapshot(&mut plugin, Key::Char('f'));
    assert!(plugin.state.focused_panel.is_some());
    let action = press_without_snapshot(&mut plugin, Key::Char('F'));
    assert!(matches!(action, PluginAction::Consumed));
}

#[test]
fn ai_request_carries_context_and_busy_key_is_consumed() {
    let mut plugin = make_plugin();
    match press(&mut plugin, Key::Char('A')) {
        PluginAction::RequestAiAnalysis(ctx) => assert_eq!(Some(ctx), context()),
        other => panic!("expected an AI request, got {:?}", other),
    }
    // While an analysis streams, the key starts nothing new.
    assert!(matches!(press(&mut plugin, Key::Char('a')), PluginAction::Consumed));
    match press_without_snapshot(&mut make_plugin(), Key::Char('a')) {
        PluginAction::SetStatus(msg) => assert_eq!(msg, "No snapshot available for AI analysis"),
        other => panic!("expected a status message, got {:?}", other),
    }
}

#[test]
fn page_keys_move_twenty_rows_within_the_list() {
    let mut plugin = make_plugin();
    plugin.handle_key(Key::PageDown, Some(50), None);
    assert_eq!(plugin.state.selected_process, 20);
    plugin.handle_key(Key::PageDown, Some(50), None);
    plugin.handle_key(Key::PageDown, Some(50), None);
    assert_eq!(plugin.state.selected_process, 49);
    plugin.state.scroll_offset = 40;
    plugin.handle_key(Key::PageUp, Some(50), None);
    assert_eq!(plugin.state.selected_process, 29);
    assert_eq!(plugin.state.scroll_offset, 29);
    plugin.handle_key(Key::PageUp, Some(50), None);
    plugin.handle_key(Key::PageUp, Some(50), None);
    assert_eq!(plugin.state.selected_process, 0);
    assert_eq!(plugin.state.scroll_offset, 0);
    // Without a snapshot End leaves the selection alone.
    plugin.state.selected_process = 4;
    plugin.handle_key(Key::End, None, None);
    assert_eq!(plugin.state.selected_process, 4);
}

/// The summary the application writes for the test snapshot.
fn snapshot_summary() -> Option<String> {
    Some("# DESKTOP-TEST (Windows 11)\nCPU: 25.0% | RAM: 50% | Cores: 8\nProcesses: 3\nDisks: 1".to_string())
}

#[test]
fn execute_command_no_snapshot() {
    let mut plugin = make_plugin();
    let result = plugin.execute_command("windows", "", None);
    assert!(result.is_some());
    assert!(result.unwrap().contains("not connected"));
}

#[test]
fn execute_command_with_snapshot() {
    let mut plugin = make_plugin();
    plugin.state.agent_connected = true;
    let result = plugin.execute_command("windows", "", snapshot_summary());
    assert!(result.is_some());
    let text = result.unwrap();
    assert!(text.contains("DESKTOP-TEST"));
    assert!(text.contains("CPU:"));
}

#[test]
fn execute_command_unknown() {
    let mut plugin = make_plugin();
    let result = plugin.execute_command("unknown", "", snapshot_summary());
    assert!(result.is_none());
}

#[test]
fn execute_command_connected_without_snapshot() {
    let mut plugin = make_plugin();
    plugin.state.agent_connected = true;
    assert_eq!(
        plugin.execute_command("windows", "", None).as_deref(),
        Some("Windows agent connected, waiting for data...")
    );
    plugin.state.agent_connected = false;
    assert_eq!(
        plugin.execute_command("windows", "", None).as_deref(),
        Some("Windows agent not connected. URL: http://localhost:8085/api/snapshot")
    );
}

#[test]
fn resolve_agent_url_points_local_urls_at_wsl_host() {
    let plugin = make_plugin();
    assert_eq!(
        plugin.resolve_agent_url(Some("172.20.0.1".to_string())),
        "http://172.20.0.1:8085/api/snapshot"
    );
    assert_eq!(plugin.resolve_agent_url(None), "http://localhost:8085/api/snapshot");
    let loopback = WindowsPlugin::new(true, "http://127.0.0.1:8085/a?b=localhost".into(), 5);
    assert_eq!(
        loopback.resolve_agent_url(Some("10.0.0.2".to_string())),
        "http://10.0.0.2:8085/a?b=10.0.0.2"
    );
    let remote = WindowsPlugin::new(true, "http://192.168.1.5:8085/api".into(), 5);
    assert_eq!(remote.resolve_agent_url(Some("10.0.0.2".to_string())), "http://192.168.1.5:8085/api");
}
