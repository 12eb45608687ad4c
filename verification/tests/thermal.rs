use std::time::Instant;

use sentinel::thermal::{
    format_storage_name, is_cpu_hardware, is_gpu_hardware, is_storage_hardware, natural_sort_key,
    ShutdownEvent, ShutdownManager, ShutdownState, ThermalReading,
};

/// Readings as the thresholds of the test manager (emergency 100°C, critical 95°C) classify them.
fn reading(temp: f32) -> ThermalReading {
    ThermalReading { at_emergency: temp >= 100.0, below_critical: temp < 95.0 }
}

fn make_manager(enabled: bool) -> ShutdownManager {
    ShutdownManager::new(enabled, true, 2, 2, 0, 24)
}

#[test]
fn disabled_manager_does_nothing() {
    let mut mgr = make_manager(false);
    assert_eq!(mgr.tick(reading(110.0)), ShutdownEvent::Nothing);
    assert!(!mgr.state.is_active());
}

#[test]
fn normal_stays_normal_below_emergency() {
    let mut mgr = make_manager(true);
    assert_eq!(mgr.tick(reading(90.0)), ShutdownEvent::Nothing);
    assert!(!mgr.state.is_active());
}

#[test]
fn normal_to_counting_at_emergency() {
    let mut mgr = make_manager(true);
    assert_eq!(mgr.tick(reading(100.0)), ShutdownEvent::EmergencyStarted);
    assert!(mgr.state.is_active());
}

#[test]
fn counting_recovers_below_critical() {
    let mut mgr = make_manager(true);
    mgr.tick(reading(100.0));
    assert_eq!(mgr.tick(reading(90.0)), ShutdownEvent::Recovered);
    assert!(!mgr.state.is_active());
}

#[test]
fn abort_resets_state() {
    let mut mgr = make_manager(true);
    mgr.tick(reading(100.0));
    assert!(mgr.abort());
    assert!(!mgr.state.is_active());
}

#[test]
fn abort_on_normal_returns_false() {
    let mut mgr = make_manager(true);
    assert!(!mgr.abort());
}

#[test]
fn env_flag_gates_the_manager() {
    let mgr = ShutdownManager::new(true, false, 30, 30, 0, 24);
    assert!(!mgr.is_enabled());
    assert!(ShutdownManager::new(true, true, 30, 30, 0, 24).is_enabled());
}

#[test]
fn stepping_escalates_through_every_level() {
    let mut mgr = make_manager(true);
    let now = Instant::now();
    let hot = reading(101.0);
    assert_eq!(mgr.step(hot, true, 0, now), ShutdownEvent::EmergencyStarted);
    assert_eq!(mgr.step(hot, true, 1, now), ShutdownEvent::Counting { elapsed_secs: 1, required_secs: 2 });
    assert_eq!(mgr.step(hot, true, 2, now), ShutdownEvent::GracePeriodStarted);
    assert_eq!(mgr.state.label(), "SHUTDOWN IMMINENT");
    assert_eq!(mgr.step(hot, true, 1, now), ShutdownEvent::GracePeriodCountdown { remaining_secs: 1 });
    assert_eq!(mgr.step(hot, true, 2, now), ShutdownEvent::ShutdownNow);
    assert_eq!(mgr.step(reading(20.0), true, 0, now), ShutdownEvent::ShutdownNow);
    assert_eq!(mgr.step(hot, false, 0, now), ShutdownEvent::Recovered);
    assert_eq!(mgr.state.label(), "Normal");
    // Between critical and emergency nothing changes.
    assert_eq!(mgr.step(reading(97.0), true, 0, now), ShutdownEvent::Nothing);
}

#[test]
fn schedule_window_wraps_midnight() {
    let mgr = ShutdownManager::new(true, true, 30, 30, 22, 6);
    assert!(mgr.in_schedule_at(23));
    assert!(mgr.in_schedule_at(0));
    assert!(mgr.in_schedule_at(5));
    assert!(!mgr.in_schedule_at(6));
    assert!(!mgr.in_schedule_at(12));
    let day = ShutdownManager::new(true, true, 30, 30, 8, 18);
    assert!(day.in_schedule_at(8));
    assert!(!day.in_schedule_at(18));
}

#[test]
fn state_labels() {
    assert_eq!(ShutdownState::Normal.label(), "Normal");
    assert_eq!(
        ShutdownState::Counting {
            since: Instant::now(),
            required_secs: 30,
        }
        .label(),
        "Thermal Warning - Counting"
    );
    assert_eq!(
        ShutdownState::GracePeriod {
            since: Instant::now(),
            grace_secs: 30,
        }
        .label(),
        "SHUTDOWN IMMINENT"
    );
    assert_eq!(ShutdownState::Shutdown.label(), "SHUTTING DOWN");
}

#[test]
fn seconds_remaining_counting() {
    let state = ShutdownState::Counting {
        since: Instant::now(),
        required_secs: 30,
    };
    let remaining = state.seconds_remaining().unwrap();
    assert!(remaining <= 30);
}

#[test]
fn seconds_remaining_normal_is_none() {
    assert!(ShutdownState::Normal.seconds_remaining().is_none());
}

#[test]
fn seconds_remaining_after_elapsed() {
    let state = ShutdownState::GracePeriod { since: Instant::now(), grace_secs: 30 };
    assert_eq!(state.seconds_remaining_after(12), Some(18));
    assert_eq!(state.seconds_remaining_after(45), Some(0));
    assert_eq!(ShutdownState::Shutdown.seconds_remaining_after(3), None);
}

#[test]
fn natural_sort_key_cores() {
    let mut names = vec!["Core #10", "Core #2", "Core #1", "Core #9"];
    names.sort_by(|a, b| natural_sort_key(a).cmp(&natural_sort_key(b)));
    assert_eq!(names, vec!["Core #1", "Core #2", "Core #9", "Core #10"]);
}

#[test]
fn natural_sort_key_no_number() {
    let key = natural_sort_key("Package");
    assert_eq!(key, ("Package".to_string(), 0));
}

#[test]
fn natural_sort_key_last_digit_run() {
    assert_eq!(natural_sort_key("CCD1 Tdie 7x"), ("CCD1 Tdie ".to_string(), 7));
    assert_eq!(natural_sort_key("42"), ("".to_string(), 42));
    assert_eq!(natural_sort_key("Core 99999999999"), ("Core ".to_string(), 0));
}

#[test]
fn is_cpu_hardware_detects_intel_amd() {
    assert!(is_cpu_hardware("intel core i7-10700k"));
    assert!(is_cpu_hardware("amd ryzen 9 5900x"));
    assert!(is_cpu_hardware("some cpu thing"));
    assert!(!is_gpu_hardware("intel core i7-10700k"));
}

#[test]
fn is_gpu_hardware_detects_nvidia_amd() {
    assert!(is_gpu_hardware("nvidia geforce rtx 3080"));
    assert!(is_gpu_hardware("amd radeon rx 6800"));
    assert!(!is_cpu_hardware("nvidia geforce rtx 3080"));
}

#[test]
fn is_storage_hardware_detects_drives() {
    assert!(is_storage_hardware("samsung ssd 970 evo plus"));
    assert!(is_storage_hardware("nvme drive"));
    assert!(is_storage_hardware("wd black sn750"));
    assert!(!is_storage_hardware("chipset"));
}

#[test]
fn storage_names_include_the_drive() {
    let path = vec!["Samsung SSD 970 EVO Plus".to_string()];
    assert_eq!(format_storage_name(&path, "Temperature"), "Samsung SSD 970 EVO Plus: Temperature");
    let cat = vec!["Drive".to_string(), "TEMPERATURES".to_string()];
    assert_eq!(format_storage_name(&cat, "Temperature"), "Temperature");
    assert_eq!(format_storage_name(&[], "Temp"), "Temp");
}
