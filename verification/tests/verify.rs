use layoutswap::config::layouts::{summarise, Summary, SummaryMonitor};
use layoutswap::config::verify::verify;
use layoutswap::hardware::{ArrangementBlob, DdcCi, Inventory, Monitor, MonitorState, Point, Size};

fn monitor(path: &str, name: &str, state: MonitorState, x: i32) -> Monitor {
    let on = state == MonitorState::Active;
    Monitor {
        device_path: path.into(),
        reported_name: name.into(),
        gpu: String::new(),
        gpu_device_path: String::new(),
        connector: "HDMI".into(),
        gdi_name: None,
        state,
        position: if on { Some(Point { x, y: 0 }) } else { None },
        size: if on { Some(Size { width: 2560, height: 1600 }) } else { None },
        refresh_mhz: if on { Some(60000) } else { None },
        rotation: if on { Some(0) } else { None },
        scale_percent: if on { Some(150) } else { None },
        primary: on && x == 0,
        input_source: None,
        input_source_name: None,
        power_mode: None,
        asleep: false,
        ddc_ci: DdcCi::NotRead,
    }
}

fn fixture() -> (Summary, Inventory) {
    let inventory = Inventory {
        probed_at: "t".into(),
        monitors: vec![
            monitor("ACR0EC4", "KG241Y X1", MonitorState::Active, 0),
            monitor("EDO4245", "Built-in display", MonitorState::Active, -2560),
            monitor("AUS343F", "VG34VQEL1A", MonitorState::Available, 0),
        ],
        arrangement: ArrangementBlob {
            paths: String::new(),
            modes: String::new(),
            source_adapters: vec![],
            target_adapters: vec![],
            mode_adapters: vec![],
        },
    };
    (summarise(&inventory), inventory)
}

fn name(m: &SummaryMonitor) -> String {
    m.reported_name.clone()
}

#[test]
fn an_arrangement_that_landed_as_captured_passes_with_no_warnings() {
    let (summary, inventory) = fixture();
    let outcome = verify(&summary, &inventory, name);
    assert!(outcome.passed(), "{outcome:?}");
    assert!(outcome.warnings.is_empty());
}

#[test]
fn position_and_size_drift_fail_and_state_both_values() {
    let (summary, mut inventory) = fixture();
    inventory.monitors[0].position = Some(Point { x: 1920, y: 0 });
    inventory.monitors[1].size = Some(Size { width: 1920, height: 1200 });
    let outcome = verify(&summary, &inventory, name);
    assert_eq!(
        outcome.failures,
        vec![
            "KG241Y X1 landed at 1920,0 instead of 0,0",
            "Built-in display is 1920x1200 instead of 2560x1600"
        ]
    );
}

#[test]
fn on_and_off_mismatches_and_extra_monitors_fail() {
    let (summary, mut inventory) = fixture();
    inventory.monitors[2].state = MonitorState::Active;
    inventory.monitors[0].state = MonitorState::Available;
    let mut extra = monitor("NEW0001", "TV", MonitorState::Active, 5000);
    extra.device_path = "new0001-path".into();
    inventory.monitors.push(extra);
    let outcome = verify(&summary, &inventory, name);
    assert_eq!(
        outcome.failures,
        vec![
            "KG241Y X1 is not on",
            "VG34VQEL1A is on but should be off",
            "an extra monitor is on: TV"
        ]
    );
}

#[test]
fn refresh_rotation_and_scale_differences_only_warn() {
    let (summary, mut inventory) = fixture();
    inventory.monitors[0].refresh_mhz = Some(59940);
    inventory.monitors[1].rotation = Some(90);
    inventory.monitors[1].scale_percent = Some(100);
    let outcome = verify(&summary, &inventory, name);
    assert!(outcome.passed(), "{outcome:?}");
    assert_eq!(
        outcome.warnings,
        vec![
            "KG241Y X1 runs at 59.94 Hz instead of 60 Hz",
            "Built-in display is rotated 90 instead of 0",
            "Built-in display is scaled 100% instead of 150%"
        ]
    );
    inventory.monitors[0].refresh_mhz = Some(59995);
    assert_eq!(verify(&summary, &inventory, name).warnings.len(), 2, "within 0.01 Hz is the same rate");
}

#[test]
fn messages_use_the_label_the_caller_supplies() {
    let (summary, mut inventory) = fixture();
    inventory.monitors[0].position = Some(Point { x: 1, y: 1 });
    let outcome = verify(&summary, &inventory, |m: &SummaryMonitor| format!("<{}>", m.connector));
    assert_eq!(outcome.failures, vec!["<HDMI> landed at 1,1 instead of 0,0"]);
}

#[test]
fn device_paths_match_without_regard_to_case() {
    let (summary, mut inventory) = fixture();
    inventory.monitors[0].device_path = "acr0ec4".into();
    assert!(verify(&summary, &inventory, name).passed());
}

#[test]
fn a_hundredth_of_a_hertz_below_is_still_the_same_rate() {
    let (summary, mut inventory) = fixture();
    inventory.monitors[0].refresh_mhz = Some(59990);
    assert!(verify(&summary, &inventory, name).warnings.is_empty());
    inventory.monitors[0].refresh_mhz = Some(59989);
    assert_eq!(
        verify(&summary, &inventory, name).warnings,
        vec!["KG241Y X1 runs at 59.989 Hz instead of 60 Hz"]
    );
}
