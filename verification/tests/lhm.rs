use sentinel::lhm::{classify_sensor, collect_sensors, sensor_number_text, LhmNode, ParsedSensor, SensorSlot};

fn value_of(s: &str) -> Option<f32> {
    sensor_number_text(s).map(|t| t.parse::<f32>().expect("numeric text parses"))
}

#[test]
fn parse_sensor_value_celsius() {
    assert!((value_of("65.2 °C").unwrap() - 65.2).abs() < 0.01);
}

#[test]
fn parse_sensor_value_rpm() {
    assert!((value_of("1200 RPM").unwrap() - 1200.0).abs() < 0.01);
}

#[test]
fn parse_sensor_value_empty() {
    assert!(value_of("").is_none());
    assert!(value_of("-").is_none());
    assert!(value_of("N/A").is_none());
}

#[test]
fn parse_sensor_value_comma_decimal() {
    assert!((value_of("65,3 °C").unwrap() - 65.3).abs() < 0.01);
}

#[test]
fn sensor_number_text_exact() {
    assert_eq!(sensor_number_text("  72.0 °C ").as_deref(), Some("72.0"));
    assert_eq!(sensor_number_text("-5,5 V").as_deref(), Some("-5.5"));
    assert_eq!(sensor_number_text("1.2.3 W"), None);
    assert_eq!(sensor_number_text("abc"), None);
    assert_eq!(sensor_number_text("."), None);
}

fn node(text: &str, value: &str, children: Vec<LhmNode>) -> LhmNode {
    LhmNode {
        text: text.to_string(),
        children,
        min: String::new(),
        max: String::new(),
        value: value.to_string(),
        image_url: String::new(),
    }
}

fn sample_tree() -> LhmNode {
    node(
        "Sensor",
        "",
        vec![
            node(
                "Intel Core i7-10700K",
                "",
                vec![node(
                    "Temperatures",
                    "",
                    vec![
                        node("CPU Package: 72.0 °C", "72.0 °C", vec![]),
                        node("CPU Core #1: 70.0 °C", "70.0 °C", vec![]),
                        node("CPU Core #2: 68.5 °C", "68.5 °C", vec![]),
                    ],
                )],
            ),
            node(
                "NVIDIA GeForce RTX 3080",
                "",
                vec![
                    node(
                        "Temperatures",
                        "",
                        vec![
                            node("GPU Core: 65.0 °C", "65.0 °C", vec![]),
                            node("GPU Hot Spot: 78.0 °C", "78.0 °C", vec![]),
                        ],
                    ),
                    node("Fans", "", vec![node("GPU Fan: 1500 RPM", "1500 RPM", vec![])]),
                ],
            ),
            node(
                "Samsung SSD 970 EVO Plus",
                "",
                vec![node("Temperatures", "", vec![node("Temperature: 42.0 °C", "42.0 °C", vec![])])],
            ),
        ],
    )
}

#[test]
fn collect_sensors_flattens_sample_tree() {
    let sensors = collect_sensors(&sample_tree());
    let names: Vec<&str> = sensors.iter().map(|s| s.name.as_str()).collect();
    assert_eq!(
        names,
        vec!["CPU Package", "CPU Core #1", "CPU Core #2", "GPU Core", "GPU Hot Spot", "GPU Fan", "Temperature"]
    );
    let values: Vec<&str> = sensors.iter().map(|s| s.value_text.as_str()).collect();
    assert_eq!(values, vec!["72.0", "70.0", "68.5", "65.0", "78.0", "1500", "42.0"]);
    let cats: Vec<&str> = sensors.iter().map(|s| s.category.as_str()).collect();
    assert_eq!(
        cats,
        vec!["Temperatures", "Temperatures", "Temperatures", "Temperatures", "Temperatures", "Fans", "Temperatures"]
    );
    assert_eq!(sensors[0].hardware_path, vec!["Sensor".to_string(), "Intel Core i7-10700K".to_string()]);
    assert_eq!(sensors[6].hardware_path, vec!["Sensor".to_string(), "Samsung SSD 970 EVO Plus".to_string()]);
}

#[test]
fn collect_sensors_sample_tree_slots() {
    let sensors = collect_sensors(&sample_tree());
    let slots: Vec<SensorSlot> = sensors.iter().map(classify_sensor).collect();
    assert_eq!(
        slots,
        vec![
            SensorSlot::CpuPackage,
            SensorSlot::CpuCore,
            SensorSlot::CpuCore,
            SensorSlot::GpuTemp,
            SensorSlot::GpuHotspot,
            SensorSlot::Fan,
            SensorSlot::Storage,
        ]
    );
}

#[test]
fn collect_sensors_empty_tree() {
    assert!(collect_sensors(&node("", "", vec![])).is_empty());
    // A sensor outside any category is not collected.
    assert!(collect_sensors(&node("Board", "", vec![node("Fan: 1 RPM", "1 RPM", vec![])])).is_empty());
}

fn sensor(path: &[&str], name: &str, category: &str) -> ParsedSensor {
    ParsedSensor {
        hardware_path: path.iter().map(|p| p.to_string()).collect(),
        name: name.to_string(),
        value_text: "1".to_string(),
        category: category.to_string(),
    }
}

#[test]
fn classify_other_slots() {
    assert_eq!(classify_sensor(&sensor(&["AMD Ryzen 9"], "Tctl", "Temperatures")), SensorSlot::CpuOther);
    assert_eq!(classify_sensor(&sensor(&["AMD Radeon RX 6800"], "Memory", "Temperatures")), SensorSlot::GpuOther);
    assert_eq!(classify_sensor(&sensor(&["ASUS Z590"], "Chipset", "Temperatures")), SensorSlot::Motherboard);
    assert_eq!(classify_sensor(&sensor(&["Intel Core i7"], "CPU Total", "Load")), SensorSlot::Ignored);
    assert_eq!(classify_sensor(&sensor(&["Intel Core i7"], "CPU Total", "Temperatures")), SensorSlot::CpuPackage);
}
