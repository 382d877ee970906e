use layoutswap::catalog::{
    capture_plan, capture_plan_with, diagnostics_file_name, diagnostics_member_names,
    export_file_name, find_layout, imported_config, member_content, replaced_folders,
    script_statuses, stale_layouts, store_layout, Capture,
};
use layoutswap::config::layouts::{short_id, Layout, ScriptRecord, ScriptState};
use layoutswap::config::steps::{Step, StepKind, StepSide};
use layoutswap::config::{Config, WindowSize};
use layoutswap::error::AppError;
use layoutswap::hardware::{ArrangementBlob, DdcCi, Inventory, Monitor, MonitorState, Point, Size};
use layoutswap::script::render::TEMPLATE_VERSION;

fn monitor(path: &str, name: &str, state: MonitorState, x: i32) -> Monitor {
    let on = state == MonitorState::Active;
    Monitor {
        device_path: path.into(),
        reported_name: name.into(),
        gpu: String::new(),
        gpu_device_path: String::new(),
        connector: "HDMI".into(),
        gdi_name: None,
        state,
        position: if on { Some(Point { x, y: 0 }) } else { None },
        size: if on { Some(Size { width: 1920, height: 1080 }) } else { None },
        refresh_mhz: if on { Some(60000) } else { None },
        rotation: if on { Some(0) } else { None },
        scale_percent: if on { Some(100) } else { None },
        primary: on && x == 0,
        input_source: None,
        input_source_name: None,
        power_mode: None,
        asleep: false,
        ddc_ci: DdcCi::NotRead,
    }
}

fn probe() -> Inventory {
    Inventory {
        probed_at: "2026-09-09T14:32:05-05:00".into(),
        monitors: vec![
            monitor("a", "KG241Y X1", MonitorState::Active, 0),
            monitor("b", "MSI MP165 E6", MonitorState::Active, 1920),
            monitor("c", "VG34VQEL1A", MonitorState::Available, 0),
            monitor("d", "Old TV", MonitorState::Absent, 0),
        ],
        arrangement: ArrangementBlob {
            paths: "AAAA".into(),
            modes: "BBBB".into(),
            source_adapters: vec!["gpu".into(), "gpu".into()],
            target_adapters: vec!["gpu".into(), "gpu".into()],
            mode_adapters: vec![],
        },
    }
}

const NOW: &str = "2026-09-09T14:33:00-05:00";

fn saved(config: &mut Config, name: &str, id: &str) -> Layout {
    let inventory = probe();
    match capture_plan_with(config, name, None, Some(&inventory), NOW, id).unwrap() {
        Capture::Ready { layout, replaces } => {
            store_layout(config, layout.clone(), replaces);
            layout
        }
        other => panic!("expected Ready, got {other:?}"),
    }
}

#[test]
fn capture_before_a_probe_says_to_wait() {
    let config = Config::default();
    let error = capture_plan(&config, "Desk", None, None, NOW).unwrap_err();
    assert_eq!(error, AppError::NoProbeYet);
}

#[test]
fn capture_makes_a_layout_with_its_summary_and_a_fresh_id() {
    let config = Config::default();
    let inventory = probe();
    let layout = match capture_plan(&config, "  Desk ", None, Some(&inventory), NOW).unwrap() {
        Capture::Ready { layout, replaces: None } => layout,
        other => panic!("expected a new layout, got {other:?}"),
    };
    assert_eq!(layout.name, "Desk");
    assert_eq!(layout.folder, "desk");
    assert_eq!(layout.id.len(), 32);
    assert!(layout.id.chars().all(|c| c.is_ascii_hexdigit() && !c.is_ascii_uppercase()));
    assert_eq!(layout.captured_at, NOW);
    assert_eq!(layout.summary.monitors.len(), 3);
    assert_eq!(layout.summary.monitors.iter().filter(|m| m.on).count(), 2);
    assert_eq!(layout.arrangement.source_adapters.len(), 2);
    assert!(layout.steps.is_empty());
    assert_eq!(layout.script, None);
}

#[test]
fn capture_with_an_existing_name_reports_the_conflict_and_stores_nothing() {
    let mut config = Config::default();
    let first = saved(&mut config, "Desk", "0123456789abcdef0123456789abcdef");
    let outcome = capture_plan(&config, "desk", None, Some(&probe()), NOW).unwrap();
    assert_eq!(outcome, Capture::NameTaken { id: first.id.clone(), name: "Desk".into() });
    assert_eq!(config.layouts.len(), 1);
}

#[test]
fn replace_keeps_the_id_folder_and_steps() {
    let mut config = Config::default();
    let first = saved(&mut config, "Desk", "0123456789abcdef0123456789abcdef");
    config.layouts[0].steps.push(Step { id: "w".into(), side: StepSide::Before, kind: StepKind::Wait { seconds: 3 } });
    let replaced = match capture_plan(&config, "desk", Some(&first.id), Some(&probe()), "later").unwrap() {
        Capture::Ready { layout, replaces } => {
            assert_eq!(replaces, Some(0));
            layout
        }
        other => panic!("expected Ready, got {other:?}"),
    };
    assert_eq!(replaced.id, first.id);
    assert_eq!(replaced.folder, "desk");
    assert_eq!(replaced.name, "desk");
    assert_eq!(replaced.captured_at, "later");
    assert_eq!(replaced.steps.len(), 1);
    store_layout(&mut config, replaced, Some(0));
    assert_eq!(config.layouts.len(), 1);
    assert_eq!(config.layouts[0].captured_at, "later");
}

#[test]
fn replace_with_an_unknown_id_is_an_error() {
    let config = Config::default();
    let error = capture_plan(&config, "Desk", Some("nope"), Some(&probe()), NOW).unwrap_err();
    assert_eq!(error, AppError::LayoutNotFound { id: "nope".into() });
}

#[test]
fn two_layouts_whose_names_share_a_slug_get_distinct_folders() {
    let mut config = Config::default();
    let a = saved(&mut config, "Desk!", "0123456789abcdef0123456789abcdef");
    let b = saved(&mut config, "Desk?", "fedcba9876543210fedcba9876543210");
    assert_eq!(a.folder, "desk");
    assert_eq!(b.folder, format!("desk-{}", short_id(&b.id)));
    assert_eq!(b.folder, "desk-fedcba98");
}

#[test]
fn an_invalid_name_is_refused_before_anything_else() {
    let config = Config::default();
    let error = capture_plan(&config, "   ", None, None, NOW).unwrap_err();
    assert!(matches!(error, AppError::InvalidLayoutName { .. }));
}

#[test]
fn layouts_are_found_by_id() {
    let mut config = Config::default();
    saved(&mut config, "Desk", "0123456789abcdef0123456789abcdef");
    saved(&mut config, "Film", "fedcba9876543210fedcba9876543210");
    assert_eq!(find_layout(&config.layouts, "fedcba9876543210fedcba9876543210"), Ok(1));
    assert_eq!(find_layout(&config.layouts, "nope"), Err(AppError::LayoutNotFound { id: "nope".into() }));
}

#[test]
fn scripts_from_an_older_template_or_missing_ones_are_rendered_again() {
    let mut config = Config::default();
    saved(&mut config, "Desk", "0123456789abcdef0123456789abcdef");
    saved(&mut config, "Film", "fedcba9876543210fedcba9876543210");
    saved(&mut config, "Game", "00000000000000000000000000000000");
    config.layouts[0].script = Some(ScriptRecord { template_version: TEMPLATE_VERSION - 1, rendered_at: NOW.into() });
    config.layouts[1].script = Some(ScriptRecord { template_version: TEMPLATE_VERSION, rendered_at: NOW.into() });
    config.layouts[2].script = Some(ScriptRecord { template_version: TEMPLATE_VERSION, rendered_at: NOW.into() });
    assert_eq!(stale_layouts(&config.layouts, &vec![true, true, false]), vec![0, 2]);
    let states = script_statuses(
        &config.layouts,
        &vec!["a".into(), "b".into(), "c".into()],
        &vec![true, true, false],
    );
    assert_eq!(
        states.iter().map(|s| s.state).collect::<Vec<_>>(),
        vec![ScriptState::Stale, ScriptState::Current, ScriptState::Missing]
    );
    assert_eq!(states[1].path, "b");
    assert_eq!(states[1].layout_id, "fedcba9876543210fedcba9876543210");
}

#[test]
fn an_import_removes_only_the_folders_of_layouts_it_does_not_bring_back() {
    let mut current = Config::default();
    saved(&mut current, "Desk", "0123456789abcdef0123456789abcdef");
    saved(&mut current, "Film", "fedcba9876543210fedcba9876543210");
    let mut imported = Config::default();
    saved(&mut imported, "Film", "fedcba9876543210fedcba9876543210");
    assert_eq!(replaced_folders(&current.layouts, &imported.layouts), vec!["desk"]);
}

#[test]
fn the_window_size_stays_this_machines_unless_it_never_saved() {
    let mut file = Config::default();
    file.window = WindowSize { width: 1000, height: 700 };
    let mine = WindowSize { width: 1111, height: 777 };
    assert_eq!(imported_config(mine, true, file.clone()).window, mine);
    assert_eq!(imported_config(mine, false, file).window, WindowSize { width: 1000, height: 700 });
}

#[test]
fn export_and_diagnostics_names_carry_their_date_and_layout_folder() {
    assert_eq!(export_file_name("2026-09-10"), "layoutswap-config-2026-09-10.json");
    let mut config = Config::default();
    let desk = saved(&mut config, "Desk", "0123456789abcdef0123456789abcdef");
    assert_eq!(
        diagnostics_file_name(&desk, "20260910-183012"),
        "layoutswap-diagnostics-desk-20260910-183012.zip"
    );
    assert_eq!(
        diagnostics_member_names(),
        vec!["layoutswap.log", "switch.log", "last-probe.json", "switch.ps1", "config.json"]
    );
}

#[test]
fn a_missing_file_becomes_a_note_under_the_same_name() {
    let note = member_content("switch.log", r"C:\x\switch.log", None);
    assert_eq!(String::from_utf8(note).unwrap(), "layoutswap: switch.log was not present at C:\\x\\switch.log\n");
    assert_eq!(member_content("a", "b", Some(vec![1, 2, 3])), vec![1, 2, 3]);
}

#[test]
fn the_file_name_carries_the_layout_folder_and_the_stamp() {
    let mut config = Config::default();
    let layout = saved(&mut config, "Film & TV", "0123456789abcdef0123456789abcdef");
    assert_eq!(
        diagnostics_file_name(&layout, "20260910-183012"),
        "layoutswap-diagnostics-film-tv-20260910-183012.zip"
    );
    assert!(matches!(find_layout(&config.layouts, "nope"), Err(AppError::LayoutNotFound { .. })));
}

#[test]
fn a_fresh_install_takes_the_window_size_from_the_file() {
    let mut file = Config::default();
    file.window = WindowSize { width: 1500, height: 900 };
    let current = Config::default();
    let imported = imported_config(current.window, false, file);
    assert_eq!(imported.window.width, 1500);
}
