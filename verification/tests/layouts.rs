use layoutswap::config::layouts::{
    folder_name, is_before, monitor_labels, same_name, script_state, short_id, slug, summarise,
    validate_name, Layout, ScriptRecord, ScriptState, Summary, SummaryMonitor,
};
use layoutswap::config::steps::{
    ApplyFailure, DEFAULT_AVAILABLE_WAIT_SECONDS, DEFAULT_DROP_WAIT_SECONDS,
};
use layoutswap::hardware::{
    ArrangementBlob, DdcCi, Inventory, Monitor, MonitorState, Point, Size,
};

#[test]
fn layouts_names_are_trimmed_and_bounded() {
    assert_eq!(validate_name("  Desk ").unwrap(), "Desk");
    assert!(validate_name("   ").is_err());
    assert!(validate_name(&"x".repeat(40)).is_ok());
    let error = validate_name(&"x".repeat(41)).unwrap_err();
    assert!(error.message().contains("40 characters"));
}

#[test]
fn layouts_names_compare_without_case() {
    assert!(same_name("Desk", "desk "));
    assert!(!same_name("Desk", "Desk 2"));
}

#[test]
fn layouts_slugs_are_lowercase_ascii_with_single_dashes() {
    assert_eq!(slug("Desk"), "desk");
    assert_eq!(slug("  Film & TV night!  "), "film-tv-night");
    assert_eq!(slug("Café"), "caf");
    assert_eq!(slug("日本語"), "layout");
    assert_eq!(slug("--a--b--"), "a-b");
}

#[test]
fn layouts_a_colliding_slug_gets_the_short_id_appended() {
    assert_eq!(folder_name("Desk", "0123456789abcdef", &[]), "desk");
    assert_eq!(
        folder_name("Desk!", "0123456789abcdef", &["desk"]),
        "desk-01234567"
    );
    assert_eq!(folder_name("Desk", "id", &["DESK"]), "desk-id");
}

#[test]
fn mod_names_are_trimmed_and_bounded() {
    assert_eq!(validate_name("  Desk ").unwrap(), "Desk");
    assert!(validate_name("   ").is_err());
    assert!(validate_name(&"x".repeat(40)).is_ok());
    let error = validate_name(&"x".repeat(41)).unwrap_err();
    assert!(error.message().contains("40 characters"));
}

#[test]
fn mod_names_compare_without_case() {
    assert!(same_name("Desk", "desk "));
    assert!(!same_name("Desk", "Desk 2"));
}

#[test]
fn mod_slugs_are_lowercase_ascii_with_single_dashes() {
    assert_eq!(slug("Desk"), "desk");
    assert_eq!(slug("  Film & TV night!  "), "film-tv-night");
    assert_eq!(slug("Café"), "caf");
    assert_eq!(slug("日本語"), "layout");
    assert_eq!(slug("--a--b--"), "a-b");
}

#[test]
fn mod_a_colliding_slug_gets_the_short_id_appended() {
    assert_eq!(folder_name("Desk", "0123456789abcdef", &[]), "desk");
    assert_eq!(
        folder_name("Desk!", "0123456789abcdef", &["desk"]),
        "desk-01234567"
    );
    assert_eq!(folder_name("Desk", "id", &["DESK"]), "desk-id");
}

fn empty_blob() -> ArrangementBlob {
    ArrangementBlob {
        paths: String::new(),
        modes: String::new(),
        source_adapters: vec![],
        target_adapters: vec![],
        mode_adapters: vec![],
    }
}

fn layout_with(script: Option<ScriptRecord>) -> Layout {
    Layout {
        id: "id".into(),
        name: "Desk".into(),
        folder: "desk".into(),
        captured_at: "2026-09-09T14:33:00-05:00".into(),
        updated_at: "2026-09-09T14:33:00-05:00".into(),
        arrangement: empty_blob(),
        summary: Summary { monitors: vec![] },
        steps: vec![],
        drop_wait_seconds: DEFAULT_DROP_WAIT_SECONDS,
        available_wait_seconds: DEFAULT_AVAILABLE_WAIT_SECONDS,
        on_apply_failure: ApplyFailure::Stop,
        script,
    }
}

#[test]
fn a_script_is_current_only_when_this_template_wrote_it_after_the_capture() {
    let current = Some(ScriptRecord {
        template_version: 3,
        rendered_at: "2026-09-09T14:34:00-05:00".into(),
    });
    assert_eq!(
        script_state(&layout_with(current.clone()), 3, true),
        ScriptState::Current
    );
    assert_eq!(
        script_state(&layout_with(current.clone()), 4, true),
        ScriptState::Stale
    );
    assert_eq!(
        script_state(&layout_with(current), 3, false),
        ScriptState::Missing
    );
    assert_eq!(script_state(&layout_with(None), 3, true), ScriptState::Stale);
    let before_capture = Some(ScriptRecord {
        template_version: 3,
        rendered_at: "2026-09-09T14:00:00-05:00".into(),
    });
    assert_eq!(
        script_state(&layout_with(before_capture), 3, true),
        ScriptState::Stale
    );
}

#[test]
fn the_stale_rule_compares_instants_not_text() {
    // 14:40 UTC is before 14:33 at UTC-5 (19:33 UTC), although the text sorts after it.
    let mut layout = layout_with(Some(ScriptRecord {
        template_version: 3,
        rendered_at: "2026-09-09T14:40:00+00:00".into(),
    }));
    layout.captured_at = "2026-09-09T14:33:00-05:00".into();
    assert_eq!(script_state(&layout, 3, true), ScriptState::Stale);
    layout.script.as_mut().unwrap().rendered_at = "2026-09-09T19:34:00+00:00".into();
    assert_eq!(script_state(&layout, 3, true), ScriptState::Current);
}

#[test]
fn timestamps_that_do_not_parse_compare_as_text() {
    assert!(is_before("a", "b"));
    assert!(!is_before("b", "a"));
    assert!(!is_before("same", "same"));
    assert!(is_before("2026-09-09T14:00:00-05:00", "2026-09-09T14:00:01-05:00"));
}

#[test]
fn the_short_id_is_the_first_eight_bytes() {
    assert_eq!(short_id("0123456789abcdef"), "01234567");
    assert_eq!(short_id("id"), "id");
}

fn monitor(path: &str, name: &str, connector: &str, state: MonitorState, x: i32) -> Monitor {
    let on = state == MonitorState::Active;
    Monitor {
        device_path: path.into(),
        reported_name: name.into(),
        gpu: String::new(),
        gpu_device_path: String::new(),
        connector: connector.into(),
        gdi_name: None,
        state,
        position: if on { Some(Point { x, y: 0 }) } else { None },
        size: if on { Some(Size { width: 1920, height: 1080 }) } else { None },
        refresh_mhz: if on { Some(60000) } else { None },
        rotation: if on { Some(0) } else { None },
        scale_percent: if on { Some(100) } else { None },
        primary: on && x == 0,
        input_source: None,
        input_source_name: None,
        power_mode: None,
        asleep: false,
        ddc_ci: DdcCi::NotRead,
    }
}

fn inventory() -> Inventory {
    Inventory {
        probed_at: "2026-09-09T14:32:05-05:00".into(),
        monitors: vec![
            monitor("path-acer", "KG241Y X1", "HDMI", MonitorState::Active, 0),
            monitor("path-msi-1", "MSI MP165 E6", "USB-C DisplayPort 1", MonitorState::Active, 1920),
            monitor("path-msi-2", "MSI MP165 E6", "USB-C DisplayPort 2", MonitorState::Active, 3840),
            monitor("path-ultra", "VG34VQEL1A", "DisplayPort", MonitorState::Available, 0),
            monitor("path-gone", "Old TV", "HDMI 2", MonitorState::Absent, 0),
        ],
        arrangement: empty_blob(),
    }
}

#[test]
fn the_summary_keeps_connected_monitors_with_details_only_for_on_ones() {
    let summary = summarise(&inventory());
    assert_eq!(summary.monitors.len(), 4);
    let on: Vec<&SummaryMonitor> = summary.monitors.iter().filter(|m| m.on).collect();
    let off: Vec<&SummaryMonitor> = summary.monitors.iter().filter(|m| !m.on).collect();
    assert_eq!(on.len(), 3);
    assert_eq!(off.len(), 1);
    assert_eq!(off[0].reported_name, "VG34VQEL1A");
    assert_eq!(off[0].position, None);
    assert_eq!(off[0].refresh_mhz, None);
    assert_eq!(on.iter().filter(|m| m.primary).count(), 1);
    assert!(on.iter().all(|m| m.size.is_some() && m.refresh_mhz == Some(60000)));
}

#[test]
fn monitors_read_by_alias_or_name_and_apart_when_they_read_the_same() {
    let summary = summarise(&inventory());
    let mut aliases: Vec<(String, String)> = vec![];
    let labels = monitor_labels(&aliases, &summary.monitors);
    assert_eq!(
        labels,
        vec![
            "KG241Y X1",
            "MSI MP165 E6 \u{b7} USB-C DisplayPort 1",
            "MSI MP165 E6 \u{b7} USB-C DisplayPort 2",
            "VG34VQEL1A"
        ]
    );
    aliases.push(("path-acer".into(), "Side".into()));
    let labels = monitor_labels(&aliases, &summary.monitors);
    assert_eq!(labels[0], "Side");
    assert!(!labels.iter().any(|l| l.starts_with("KG241Y")));
    // Two aliases that read the same are told apart by the reported name.
    aliases.push(("path-msi-1".into(), "Portrait".into()));
    aliases.push(("path-msi-2".into(), " Portrait ".into()));
    let labels = monitor_labels(&aliases, &summary.monitors);
    assert_eq!(
        labels.iter().filter(|l| l.as_str() == "Portrait \u{b7} MSI MP165 E6").count(),
        2
    );
    // A blank alias is no alias.
    let blank = vec![("path-ultra".to_string(), "   ".to_string())];
    assert_eq!(monitor_labels(&blank, &summary.monitors)[3], "VG34VQEL1A");
}
