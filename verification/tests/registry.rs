use sentinel::registry::{Plugin, PluginRegistry};

struct FakePlugin {
    name: &'static str,
    enabled: bool,
}

impl Plugin for FakePlugin {
    fn id(&self) -> &str {
        self.name
    }
    fn tab_label(&self) -> &str {
        self.name
    }
    fn is_enabled(&self) -> bool {
        self.enabled
    }
    fn tick(&mut self) {}
}

struct Counter {
    ticks: u32,
}

impl Plugin for Counter {
    fn id(&self) -> &str {
        "counter"
    }
    fn tab_label(&self) -> &str {
        "Counter"
    }
    fn is_enabled(&self) -> bool {
        self.ticks % 2 == 0
    }
    fn tick(&mut self) {
        self.ticks += 1;
    }
}

#[test]
fn register_and_lookup() {
    let mut reg = PluginRegistry::new();
    reg.register(Box::new(FakePlugin {
        name: "alpha",
        enabled: true,
    }));
    reg.register(Box::new(FakePlugin {
        name: "beta",
        enabled: false,
    }));
    assert_eq!(reg.len(), 2);
    assert_eq!(reg.enabled_count(), 1);
}

#[test]
fn find_by_id_works() {
    let mut reg = PluginRegistry::new();
    reg.register(Box::new(FakePlugin {
        name: "market",
        enabled: true,
    }));
    assert!(reg.find_by_id("market").is_some());
    assert!(reg.find_by_id("unknown").is_none());
}

#[test]
fn enabled_plugins_filters_correctly() {
    let mut reg = PluginRegistry::new();
    reg.register(Box::new(FakePlugin {
        name: "a",
        enabled: true,
    }));
    reg.register(Box::new(FakePlugin {
        name: "b",
        enabled: false,
    }));
    reg.register(Box::new(FakePlugin {
        name: "c",
        enabled: true,
    }));
    let enabled: Vec<_> = reg.enabled_plugins();
    assert_eq!(enabled.len(), 2);
    assert_eq!(enabled[0].1.id(), "a");
    assert_eq!(enabled[1].1.id(), "c");
    assert_eq!(enabled[0].0, 0);
    assert_eq!(enabled[1].0, 2);
}

#[test]
fn find_by_id_returns_first_match_and_position() {
    let mut reg = PluginRegistry::new();
    reg.register(Box::new(FakePlugin { name: "a", enabled: false }));
    reg.register(Box::new(FakePlugin { name: "b", enabled: true }));
    reg.register(Box::new(FakePlugin { name: "b", enabled: false }));
    let (i, p) = reg.find_by_id("b").unwrap();
    assert_eq!(i, 1);
    assert!(p.is_enabled());
    let (j, q) = reg.find_by_id_mut("a").unwrap();
    assert_eq!(j, 0);
    assert_eq!(q.tab_label(), "a");
    assert!(reg.find_by_id_mut("z").is_none());
}

#[test]
fn get_and_tick_all() {
    let mut reg = PluginRegistry::new();
    reg.register(Box::new(Counter { ticks: 0 }));
    assert!(reg.get(0).is_some());
    assert!(reg.get(1).is_none());
    assert!(reg.get_mut(1).is_none());
    assert_eq!(reg.enabled_count(), 1);
    reg.tick_all();
    assert_eq!(reg.enabled_count(), 0);
    reg.get_mut(0).unwrap().tick();
    assert_eq!(reg.enabled_count(), 1);
    assert_eq!(reg.plugins().len(), 1);
    assert_eq!(reg.plugins_mut().len(), 1);
}
