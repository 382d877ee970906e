use layoutswap::catalog::{capture_plan_with, replaced_folders, store_layout, Capture};
use layoutswap::config::layouts::{
    record_render, same_name, script_state, slug, validate_name, Layout, ScriptState, Summary,
    SummaryMonitor,
};
use layoutswap::config::steps::{
    ApplyFailure, Step, StepKind, StepSide, DEFAULT_AVAILABLE_WAIT_SECONDS,
    DEFAULT_DROP_WAIT_SECONDS,
};
use layoutswap::config::Config;
use layoutswap::config::layouts::monitor_labels;
use layoutswap::config::steps::step_labeller;
use layoutswap::hardware::{ArrangementBlob, Inventory};
use layoutswap::script::render::{timeline, TEMPLATE_VERSION};

fn blob() -> ArrangementBlob {
    ArrangementBlob {
        paths: String::new(),
        modes: String::new(),
        source_adapters: vec![],
        target_adapters: vec![],
        mode_adapters: vec![],
    }
}

fn layout(steps: Vec<Step>) -> Layout {
    Layout {
        id: "id".into(),
        name: "Desk".into(),
        folder: "desk".into(),
        captured_at: "2026-09-09T14:33:00-05:00".into(),
        updated_at: "2026-09-09T14:33:00-05:00".into(),
        arrangement: blob(),
        summary: Summary { monitors: vec![] },
        steps,
        drop_wait_seconds: DEFAULT_DROP_WAIT_SECONDS,
        available_wait_seconds: DEFAULT_AVAILABLE_WAIT_SECONDS,
        on_apply_failure: ApplyFailure::Stop,
        script: None,
    }
}

#[test]
fn a_valid_name_passes_the_rules_again_unchanged() {
    for raw in ["  Desk ", "Film & TV", "\u{3000}x\u{3000}", "a"] {
        let name = validate_name(raw).unwrap();
        assert_eq!(validate_name(&name).unwrap(), name);
    }
}

#[test]
fn every_slug_is_small_ascii_words_joined_by_single_dashes() {
    for name in ["Desk", "  Film & TV night!  ", "Café", "日本語", "--a--b--", "A__B", "9 to 5"] {
        let s = slug(name);
        assert!(!s.is_empty());
        assert!(s.chars().all(|c| c.is_ascii_lowercase() || c.is_ascii_digit() || c == '-'), "{s}");
        assert!(!s.starts_with('-') && !s.ends_with('-') && !s.contains("--"), "{s}");
    }
}

#[test]
fn a_script_rendered_at_capture_time_with_this_template_is_current() {
    let mut l = layout(vec![]);
    let at = l.captured_at.clone();
    record_render(&mut l, at);
    assert_eq!(script_state(&l, TEMPLATE_VERSION, true), ScriptState::Current);
}

#[test]
fn the_timeline_has_check_first_apply_after_the_before_steps_and_verify_last() {
    let wait = |id: &str, side| Step { id: id.into(), side, kind: StepKind::Wait { seconds: 2 } };
    for steps in [
        vec![],
        vec![wait("a", StepSide::After), wait("b", StepSide::Before), wait("c", StepSide::After)],
        vec![wait("a", StepSide::Before), wait("b", StepSide::Before)],
    ] {
        let before = steps.iter().filter(|s| s.side == StepSide::Before).count();
        let l = layout(steps.clone());
        let t = timeline(&l, &vec![]);
        assert_eq!(t.rows.len(), steps.len() + 3);
        assert_eq!(t.rows[0], "Check monitors");
        assert_eq!(t.rows[before + 1], "Apply arrangement");
        assert_eq!(t.rows.last().unwrap(), "Verify");
        assert_eq!(t.apply as usize, before + 2);
    }
}

#[test]
fn capturing_never_gives_two_layouts_one_name() {
    let inventory = Inventory { probed_at: "t".into(), monitors: vec![], arrangement: blob() };
    let mut config = Config::default();
    let ids = ["00000000000000000000000000000001", "00000000000000000000000000000002"];
    for (name, id) in ["Desk", "Film"].iter().zip(ids) {
        match capture_plan_with(&config, name, None, Some(&inventory), "t", id).unwrap() {
            Capture::Ready { layout, replaces } => store_layout(&mut config, layout, replaces),
            other => panic!("{other:?}"),
        }
    }
    for name in ["desk", " FILM "] {
        assert!(matches!(
            capture_plan_with(&config, name, None, Some(&inventory), "t", "ffffffffffffffff").unwrap(),
            Capture::NameTaken { .. }
        ));
    }
    // Replacing a layout under its own name is no conflict.
    assert!(matches!(
        capture_plan_with(&config, "desk", Some(ids[0]), Some(&inventory), "t", "x").unwrap(),
        Capture::Ready { replaces: Some(0), .. }
    ));
    for (i, a) in config.layouts.iter().enumerate() {
        for (j, b) in config.layouts.iter().enumerate() {
            assert!(i == j || !same_name(&a.name, &b.name));
        }
    }
}

#[test]
fn monitors_that_read_the_same_get_different_labels() {
    let m = |path: &str, connector: &str| SummaryMonitor {
        device_path: path.into(),
        reported_name: "MSI MP165 E6".into(),
        connector: connector.into(),
        on: true,
        position: None,
        size: None,
        refresh_mhz: None,
        rotation: None,
        scale_percent: None,
        primary: false,
    };
    let labels = monitor_labels(&vec![], &vec![m("a", "USB-C DisplayPort 1"), m("b", "USB-C DisplayPort 2")]);
    assert_ne!(labels[0], labels[1]);
}

#[test]
fn a_slug_is_its_own_slug() {
    for name in ["Desk", "  Film & TV night!  ", "Café", "日本語", "--a--b--", "A__B", "9 to 5"] {
        let s = slug(name);
        assert_eq!(slug(&s), s);
    }
}

fn shown(path: &str, name: &str) -> SummaryMonitor {
    SummaryMonitor {
        device_path: path.into(),
        reported_name: name.into(),
        connector: "HDMI".into(),
        on: true,
        position: None,
        size: None,
        refresh_mhz: None,
        rotation: None,
        scale_percent: None,
        primary: false,
    }
}

#[test]
fn a_step_names_the_first_monitor_with_its_path() {
    let monitors = vec![shown("A", "Left"), shown("B", "Right"), shown("B", "Again")];
    let labeller = step_labeller(&vec![], &monitors);
    assert_eq!(labeller.label("B"), "Right");
    assert_eq!(labeller.label("A"), "Left");
    assert_eq!(labeller.label("C"), "unknown monitor");
}

#[test]
fn each_path_finds_its_own_alias() {
    let monitors = vec![shown("A", "Left"), shown("B", "Right")];
    let aliases = vec![("A".to_string(), "Main".to_string()), ("B".to_string(), "Side".to_string())];
    assert_eq!(monitor_labels(&aliases, &monitors), vec!["Main".to_string(), "Side".to_string()]);
}

#[test]
fn a_capture_is_appended_and_a_replace_keeps_its_place_id_and_folder() {
    let inventory = Inventory { probed_at: "t".into(), monitors: vec![], arrangement: blob() };
    let mut config = Config::default();
    let ids = ["00000000000000000000000000000001", "00000000000000000000000000000002"];
    for (name, id) in ["Desk", "Film"].iter().zip(ids) {
        match capture_plan_with(&config, name, None, Some(&inventory), "t", id).unwrap() {
            Capture::Ready { layout, replaces } => {
                assert_eq!(replaces, None);
                let before = config.layouts.len();
                store_layout(&mut config, layout.clone(), replaces);
                assert_eq!(config.layouts.len(), before + 1);
                assert_eq!(config.layouts.last(), Some(&layout));
                assert_eq!(layout.id, id);
            }
            other => panic!("{other:?}"),
        }
    }
    let old = config.layouts[0].clone();
    match capture_plan_with(&config, "Desk at night", Some(ids[0]), Some(&inventory), "u", "x").unwrap() {
        Capture::Ready { layout, replaces } => {
            assert_eq!(replaces, Some(0));
            assert_eq!((layout.id.as_str(), layout.folder.as_str()), (old.id.as_str(), old.folder.as_str()));
            store_layout(&mut config, layout.clone(), replaces);
            assert_eq!(config.layouts.len(), 2);
            assert_eq!(config.layouts[0], layout);
            assert_eq!(config.layouts[1].name, "Film");
        }
        other => panic!("{other:?}"),
    }
    assert!(capture_plan_with(&config, "Other", Some("nope"), Some(&inventory), "u", "x").is_err());
}

#[test]
fn an_import_removes_the_folders_of_the_layouts_it_drops_and_no_other() {
    let with = |id: &str, folder: &str| Layout { id: id.into(), folder: folder.into(), ..layout(vec![]) };
    let current = vec![with("1", "desk"), with("2", "film"), with("3", "game")];
    let imported = vec![with("2", "film"), with("4", "new")];
    assert_eq!(replaced_folders(&current, &imported), vec!["desk".to_string(), "game".to_string()]);
    assert!(replaced_folders(&current, &current).is_empty());
}

#[test]
fn a_slug_without_its_dashes_is_the_names_letters_and_digits() {
    for (name, words) in [("  Film & TV night!  ", "filmtvnight"), ("Café 9", "caf9"), ("A__B", "ab")] {
        assert_eq!(slug(name).replace('-', ""), words);
    }
    assert_eq!(slug("日本語 !"), "layout");
}

#[test]
fn the_first_alias_for_a_path_wins() {
    let monitors = vec![shown("A", "Left")];
    let aliases = vec![("A".to_string(), "First".to_string()), ("A".to_string(), "Second".to_string())];
    assert_eq!(monitor_labels(&aliases, &monitors), vec!["First".to_string()]);
}
