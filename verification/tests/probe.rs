use layoutswap::config::layouts::summarise;
use layoutswap::config::steps::step_labeller;
use layoutswap::hardware::{
    inventory_from_report, ArrangementBlob, DdcCi, Inventory, Monitor, MonitorState, Point,
    ProbeReport, ReportMonitor, Size, OUTPUT_INTERNAL,
};

/// One report entry, Active with a mode, as the probe prints it.
fn active(path: &str, name: &str, technology: u32, instance: u32, x: i32, y: i32) -> ReportMonitor {
    ReportMonitor {
        device_path: path.into(),
        friendly_name: name.into(),
        gdi_name: String::new(),
        adapter_device_path: r"\\?\PCI#VEN_10DE&DEV_2D18".into(),
        gpu_name: "NVIDIA GeForce RTX 5070 Laptop GPU".into(),
        output_technology: technology,
        connector_instance: instance,
        active: true,
        available: true,
        has_mode: true,
        x,
        y,
        width: 1920,
        height: 1080,
        refresh_num: 60000,
        refresh_den: 1000,
        rotation: 1,
        dpi: 96,
        input_source: None,
        power_mode: None,
        ddc_ci: "answered".into(),
    }
}

/// Five monitors on the reference machine: four on, the ultrawide off, and two MSI
/// panels that report the same name.
fn five_monitors() -> ProbeReport {
    let mut acer = active(r"\\?\DISPLAY#ACR0EC4#5&1a2b3c&0&UID4353", "KG241Y X1", 5, 0, 0, 0);
    acer.gdi_name = r"\\.\DISPLAY2".into();
    acer.input_source = Some(17);
    acer.power_mode = Some(1);
    let mut built_in = active(r"\\?\DISPLAY#EDO4245#4&2b3c4d&0&UID8388688", "", OUTPUT_INTERNAL, 0, 1920, 0);
    built_in.width = 2560;
    built_in.height = 1600;
    built_in.dpi = 144;
    built_in.ddc_ci = "notAnswering".into();
    let mut msi_a = active(r"\\?\DISPLAY#MSI30E5#5&3c4d5e&0&UID4357", "MSI MP165 E6", 18, 1, 0, -1080);
    msi_a.input_source = Some(27);
    msi_a.power_mode = Some(1);
    let mut msi_b = active(r"\\?\DISPLAY#MSI30E5#5&3c4d5e&1&UID4358", "MSI MP165 E6", 18, 2, 1920, -1080);
    msi_b.input_source = Some(27);
    msi_b.power_mode = Some(4);
    let mut ultrawide = active(r"\\?\DISPLAY#AUS343F#5&4d5e6f&0&UID4359", "VG34VQEL1A", 10, 0, 0, 0);
    ultrawide.active = false;
    ultrawide.has_mode = false;
    ultrawide.ddc_ci = "notRead".into();
    ProbeReport {
        probed_at: "2026-09-09T14:32:05.1234567-05:00".into(),
        monitors: vec![acer, built_in, ultrawide, msi_a, msi_b],
        arrangement: ArrangementBlob {
            paths: "AAAA".into(),
            modes: "BBBB".into(),
            source_adapters: vec!["a".into(), "b".into(), "c".into(), "d".into()],
            target_adapters: vec!["a".into(), "b".into(), "c".into(), "d".into()],
            mode_adapters: vec![],
        },
    }
}

fn by_path<'a>(inventory: &'a Inventory, fragment: &str) -> &'a Monitor {
    inventory
        .monitors
        .iter()
        .find(|m| m.device_path.contains(fragment))
        .unwrap_or_else(|| panic!("no monitor with {fragment}"))
}

fn entry<'a>(report: &'a mut ProbeReport, fragment: &str) -> &'a mut ReportMonitor {
    report.monitors.iter_mut().find(|m| m.device_path.contains(fragment)).unwrap()
}

#[test]
fn parses_the_five_monitor_fixture() {
    let inventory = inventory_from_report(five_monitors());
    assert_eq!(inventory.monitors.len(), 5);
    assert_eq!(inventory.probed_at, "2026-09-09T14:32:05.1234567-05:00");
    let active = inventory.monitors.iter().filter(|m| m.state == MonitorState::Active).count();
    assert_eq!(active, 4);
    assert_eq!(inventory.arrangement.source_adapters.len(), 4);
}

#[test]
fn the_off_monitor_is_available_with_no_arrangement_details() {
    let inventory = inventory_from_report(five_monitors());
    let ultrawide = by_path(&inventory, "AUS343F");
    assert_eq!(ultrawide.state, MonitorState::Available);
    assert_eq!(ultrawide.reported_name, "VG34VQEL1A");
    assert_eq!(ultrawide.position, None);
    assert_eq!(ultrawide.size, None);
    assert_eq!(ultrawide.refresh_mhz, None);
    assert_eq!(ultrawide.gdi_name, None);
    assert!(!ultrawide.primary);
}

#[test]
fn two_identical_panels_read_apart_by_device_path_and_connector() {
    let inventory = inventory_from_report(five_monitors());
    let panels: Vec<&Monitor> = inventory.monitors.iter().filter(|m| m.reported_name == "MSI MP165 E6").collect();
    assert_eq!(panels.len(), 2);
    assert_ne!(panels[0].device_path, panels[1].device_path);
    assert_ne!(panels[0].connector, panels[1].connector);
    assert!(panels.iter().all(|p| p.connector.starts_with("USB-C DisplayPort")));
}

#[test]
fn derives_position_size_refresh_rotation_scale_and_primary() {
    let inventory = inventory_from_report(five_monitors());
    let acer = by_path(&inventory, "ACR0EC4");
    assert_eq!(acer.state, MonitorState::Active);
    assert_eq!(acer.position, Some(Point { x: 0, y: 0 }));
    assert_eq!(acer.size, Some(Size { width: 1920, height: 1080 }));
    assert_eq!(acer.refresh_mhz, Some(60000));
    assert_eq!(acer.rotation, Some(0));
    assert_eq!(acer.scale_percent, Some(100));
    assert!(acer.primary);
    assert_eq!(acer.gdi_name.as_deref(), Some(r"\\.\DISPLAY2"));
    assert_eq!(acer.connector, "HDMI");
    assert_eq!(acer.gpu, "NVIDIA GeForce RTX 5070 Laptop GPU");

    let built_in = by_path(&inventory, "EDO4245");
    assert_eq!(built_in.reported_name, "Built-in display");
    assert_eq!(built_in.connector, "Built-in");
    assert_eq!(built_in.scale_percent, Some(150));
    assert_eq!(built_in.rotation, Some(0));
    assert!(!built_in.primary);
}

#[test]
fn reads_the_input_source_only_where_ddc_ci_answered() {
    let inventory = inventory_from_report(five_monitors());
    let acer = by_path(&inventory, "ACR0EC4");
    assert_eq!(acer.ddc_ci, DdcCi::Answered);
    assert_eq!(acer.input_source, Some(0x11));
    assert_eq!(acer.input_source_name.as_deref(), Some("HDMI 1"));
    let built_in = by_path(&inventory, "EDO4245");
    assert_eq!(built_in.ddc_ci, DdcCi::NotAnswering);
    assert_eq!(built_in.input_source, None);
    let ultrawide = by_path(&inventory, "AUS343F");
    assert_eq!(ultrawide.ddc_ci, DdcCi::NotRead);
    assert_eq!(ultrawide.input_source, None);

    // An older probe without the fields reads as not read.
    let mut older = five_monitors();
    for m in &mut older.monitors {
        m.input_source = None;
        m.power_mode = None;
        m.ddc_ci = String::new();
    }
    let inventory = inventory_from_report(older);
    assert!(inventory.monitors.iter().all(|m| m.ddc_ci == DdcCi::NotRead));

    // A word this version does not know reads as not read; an inactive monitor
    // reads as not read whatever the probe said.
    let mut odd = five_monitors();
    entry(&mut odd, "ACR0EC4").ddc_ci = "maybe".into();
    entry(&mut odd, "AUS343F").ddc_ci = "answered".into();
    let inventory = inventory_from_report(odd);
    assert_eq!(by_path(&inventory, "ACR0EC4").ddc_ci, DdcCi::NotRead);
    assert_eq!(by_path(&inventory, "AUS343F").ddc_ci, DdcCi::NotRead);
}

#[test]
fn reads_the_power_mode_only_where_ddc_ci_answered_and_derives_asleep() {
    let inventory = inventory_from_report(five_monitors());
    let acer = by_path(&inventory, "ACR0EC4");
    assert_eq!(acer.power_mode, Some(1));
    assert!(!acer.asleep);
    let mut panels: Vec<(Option<u32>, bool)> = inventory
        .monitors
        .iter()
        .filter(|m| m.reported_name == "MSI MP165 E6")
        .map(|m| (m.power_mode, m.asleep))
        .collect();
    panels.sort();
    assert_eq!(panels, vec![(Some(1), false), (Some(4), true)]);
    assert_eq!(by_path(&inventory, "EDO4245").power_mode, None);
    assert_eq!(by_path(&inventory, "AUS343F").power_mode, None);

    // A power mode from a monitor whose DDC-CI did not answer is dropped, and it
    // is not asleep: the status decides, not the number.
    let mut contradictory = five_monitors();
    entry(&mut contradictory, "EDO4245").power_mode = Some(4);
    let inventory = inventory_from_report(contradictory);
    let built_in = by_path(&inventory, "EDO4245");
    assert_eq!(built_in.power_mode, None);
    assert!(!built_in.asleep);

    // A monitor that answered the input read but not the power-mode read stays
    // answered, with no power mode and not asleep; an older probe without the
    // field reads the same.
    let mut partial = five_monitors();
    entry(&mut partial, "ACR0EC4").power_mode = None;
    let inventory = inventory_from_report(partial);
    let acer = by_path(&inventory, "ACR0EC4");
    assert_eq!(acer.ddc_ci, DdcCi::Answered);
    assert_eq!(acer.power_mode, None);
    assert!(!acer.asleep);
    let mut older = five_monitors();
    for m in &mut older.monitors {
        m.power_mode = None;
    }
    let inventory = inventory_from_report(older);
    assert!(inventory.monitors.iter().all(|m| m.power_mode.is_none() && !m.asleep));
}

#[test]
fn an_absent_monitor_has_no_live_details() {
    let mut report = five_monitors();
    entry(&mut report, "AUS343F").available = false;
    let inventory = inventory_from_report(report);
    let ultrawide = by_path(&inventory, "AUS343F");
    assert_eq!(ultrawide.state, MonitorState::Absent);
}

#[test]
fn active_monitors_come_first_in_reading_order() {
    let inventory = inventory_from_report(five_monitors());
    let names: Vec<&str> = inventory.monitors.iter().map(|m| m.reported_name.as_str()).collect();
    assert_eq!(names, ["MSI MP165 E6", "MSI MP165 E6", "KG241Y X1", "Built-in display", "VG34VQEL1A"]);
}

#[test]
fn the_step_labeller_names_known_monitors_and_calls_the_rest_unknown() {
    let inventory = inventory_from_report(five_monitors());
    let summary = summarise(&inventory);
    let acer = summary.monitors.iter().find(|m| m.reported_name == "KG241Y X1").unwrap();
    let aliases = vec![(acer.device_path.clone(), "Side".to_string())];
    let labeller = step_labeller(&aliases, &summary.monitors);
    assert_eq!(labeller.label(&acer.device_path), "Side");
    assert_eq!(labeller.label("nope"), "unknown monitor");
}
