use layoutswap::error::AppError;
use layoutswap::script::lock::LockHolder;
use layoutswap::script::progress::StepStatus;
use layoutswap::config::layouts::SummaryMonitor;
use layoutswap::hardware::{ArrangementBlob, DdcCi, Inventory, Monitor, MonitorState};
use layoutswap::session::{
    absent_monitors, cancel_switch, refusal, FailureExplanation, SwitchEvent, SwitchResult, SwitchRun,
};

const APPLIED: &[&str] = &[
    "",
    "=== Switch to Desk ===",
    "[1/3] running Check monitors",
    "  Side: Available",
    "[1/3] done Check monitors",
    "[2/3] running Apply arrangement",
    "  validated",
    "  applied",
    "[2/3] done Apply arrangement",
    "[3/3] running Verify",
    "[3/3] done Verify",
    "Switched to Desk.",
    "Exit code 0",
];

const ABSENT: &[&str] = &[
    "=== Switch to Desk ===",
    "[1/3] running Check monitors",
    "  Ultrawide: Absent",
    "[1/3] failed Check monitors: press the input button on Ultrawide, or plug it in, then switch again; 1 Absent",
    "Exit code 2",
];

fn feed(run: &mut SwitchRun, lines: &[&str]) -> Vec<SwitchEvent> {
    lines.iter().map(|l| run.observe(l.to_string())).collect()
}

#[test]
fn an_applied_switch_reports_progress_and_log_lines_in_order() {
    let mut run = SwitchRun::new("Desk".into(), 2);
    let events = feed(&mut run, APPLIED);
    let progress: Vec<String> = events
        .iter()
        .filter_map(|e| match e {
            SwitchEvent::Progress { line } => Some(format!("{}/{} {:?} {}", line.step, line.of, line.status, line.text)),
            _ => None,
        })
        .collect();
    assert_eq!(
        progress,
        vec![
            "1/3 Running Check monitors",
            "1/3 Done Check monitors",
            "2/3 Running Apply arrangement",
            "2/3 Done Apply arrangement",
            "3/3 Running Verify",
            "3/3 Done Verify",
        ]
    );
    let logs = events.iter().filter(|e| matches!(e, SwitchEvent::Log { .. })).count();
    assert_eq!(logs, APPLIED.len() - 6);
    assert!(run.apply_started);
    assert_eq!(run.finish(0, 1234, "desk/switch.log", vec![]), SwitchResult::Applied { duration_ms: 1234 });
}

#[test]
fn a_failed_step_ends_with_the_step_and_the_next_action() {
    let mut run = SwitchRun::new("Desk".into(), 2);
    feed(&mut run, ABSENT);
    assert!(!run.apply_started);
    match run.finish(2, 10, r"C:\x\layouts\desk\switch.log", vec![]) {
        SwitchResult::Failed { step, step_name, next_action, reason, exit_code, log_path, explanation } => {
            assert_eq!(step, Some(1));
            assert_eq!(step_name, "Check monitors");
            assert_eq!(next_action, "press the input button on Ultrawide, or plug it in, then switch again");
            assert_eq!(reason, "1 Absent");
            assert_eq!(exit_code, 2);
            assert!(log_path.ends_with("switch.log"));
            assert_eq!(explanation, FailureExplanation::ReasonOnly);
        }
        other => panic!("expected Failed, got {other:?}"),
    }
}

#[test]
fn a_script_that_stops_outside_a_step_explains_itself_from_its_last_line() {
    let refused = &[
        "=== Switch to Desk ===",
        "Wait for the switch to Film to finish, then try again. If process 7 is no longer running, delete C:\\x\\switch.lock first.",
        "Exit code 2",
    ];
    let mut run = SwitchRun::new("Desk".into(), 2);
    feed(&mut run, refused);
    match run.finish(2, 10, "switch.log", vec![]) {
        SwitchResult::Failed { step, next_action, reason, .. } => {
            assert_eq!(step, None);
            assert!(next_action.starts_with("Wait for the switch to Film"));
            assert_eq!(reason, "the script exited with exit code 2");
        }
        other => panic!("expected Failed, got {other:?}"),
    }
    let silent = SwitchRun::new("Desk".into(), 2);
    match silent.finish(-1, 0, "switch.log", vec![]) {
        SwitchResult::Failed { next_action, reason, .. } => {
            assert_eq!(next_action, "Open the log, then try the switch again");
            assert_eq!(reason, "the script exited with exit code -1");
        }
        other => panic!("expected Failed, got {other:?}"),
    }
}

#[test]
fn cancel_before_the_apply_is_taken_and_ends_cancelled() {
    let mut active = Some(SwitchRun::new("Desk".into(), 2));
    feed(active.as_mut().unwrap(), &APPLIED[..5]);
    assert!(cancel_switch(&mut active).is_ok());
    let run = active.take().unwrap();
    assert!(run.cancelled);
    assert_eq!(run.finish(1, 5, "switch.log", vec![]), SwitchResult::Cancelled);
    assert_eq!(cancel_switch(&mut active), Err(AppError::NoSwitchRunning));
}

#[test]
fn cancel_after_the_apply_reported_is_refused() {
    let mut run = SwitchRun::new("Desk".into(), 2);
    feed(&mut run, &APPLIED[..6]);
    let error = run.request_cancel().unwrap_err();
    assert_eq!(error, AppError::CancelTooLate { layout: "Desk".into() });
    assert_eq!(
        error.message(),
        "Wait for the switch to Desk to finish: the arrangement is already being applied and cannot be stopped."
    );
    assert!(!run.cancelled);
}

#[test]
fn a_kill_after_a_clean_exit_still_reads_as_applied() {
    let mut run = SwitchRun::new("Desk".into(), 2);
    run.request_cancel().unwrap();
    assert_eq!(run.finish(0, 7, "switch.log", vec![]), SwitchResult::Applied { duration_ms: 7 });
}

#[test]
fn a_switch_is_refused_while_another_runs_or_holds_the_lock() {
    let running = Some(SwitchRun::new("Film".into(), 2));
    assert_eq!(
        refusal(&running, &None, "lock"),
        Some(AppError::SwitchRunning { layout: "Film".into() })
    );
    let holder = LockHolder::from_text("pid=4242\r\nlayout=Film\r\n");
    let error = refusal(&None, &Some(holder), r"C:\x\switch.lock").unwrap();
    assert_eq!(error, AppError::SwitchLocked { layout: "Film".into(), path: r"C:\x\switch.lock".into() });
    assert_eq!(
        error.message(),
        r"Wait for the switch to Film to finish, then try again. If no switch is running, delete C:\x\switch.lock first."
    );
    let odd = LockHolder::from_text("");
    assert_eq!(
        refusal(&None, &Some(odd), "l"),
        Some(AppError::SwitchLocked { layout: "another layout".into(), path: "l".into() })
    );
    assert_eq!(refusal(&None, &None, "l"), None);
}

#[test]
fn the_last_failed_line_is_the_one_kept() {
    let mut run = SwitchRun::new("Desk".into(), 5);
    run.observe("[1/6] failed One: a; b".into());
    run.observe("[2/6] failed Two: c; d".into());
    let kept = run.last_failed.clone().unwrap();
    assert_eq!((kept.step, kept.status), (2, StepStatus::Failed));
    assert!(!run.apply_started);
    run.observe("[5/6] running Apply arrangement".into());
    assert!(run.apply_started);
}

fn shown(path: &str, name: &str, on: bool) -> SummaryMonitor {
    SummaryMonitor {
        device_path: path.into(),
        reported_name: name.into(),
        connector: "HDMI".into(),
        on,
        position: None,
        size: None,
        refresh_mhz: None,
        rotation: None,
        scale_percent: None,
        primary: false,
    }
}

fn probed(paths: &[(&str, MonitorState)]) -> Inventory {
    Inventory {
        probed_at: "t".into(),
        monitors: paths
            .iter()
            .map(|(path, state)| Monitor {
                device_path: path.to_string(),
                reported_name: "x".into(),
                gpu: String::new(),
                gpu_device_path: String::new(),
                connector: "HDMI".into(),
                gdi_name: None,
                state: *state,
                position: None,
                size: None,
                refresh_mhz: None,
                rotation: None,
                scale_percent: None,
                primary: false,
                input_source: None,
                input_source_name: None,
                power_mode: None,
                asleep: false,
                ddc_ci: DdcCi::NotRead,
            })
            .collect(),
        arrangement: ArrangementBlob {
            paths: String::new(),
            modes: String::new(),
            source_adapters: vec![],
            target_adapters: vec![],
            mode_adapters: vec![],
        },
    }
}

const FOREIGN: &[&str] = &[
    "[1/3] running Check monitors",
    "[1/3] failed Check monitors: press the input button on KG241Y X1, or plug it in, then switch again; Absent: KG241Y X1",
    "Exit code 2",
];

#[test]
fn a_layout_from_another_machine_opens_with_every_monitor_absent_and_switch_names_them() {
    let monitors = vec![
        shown(r"\\?\DISPLAY#FOREIGN-ACR0EC4", "KG241Y X1", true),
        shown(r"\\?\DISPLAY#FOREIGN-EDO4245", "Built-in display", true),
        shown(r"\\?\DISPLAY#FOREIGN-AUS343F", "VG34VQEL1A", true),
        shown(r"\\?\DISPLAY#FOREIGN-GSM5B7F", "LG TV", true),
    ];
    let probe = probed(&[(r"\\?\DISPLAY#ACR0EC4", MonitorState::Active)]);
    let absent = absent_monitors(&vec![], &monitors, Some(&probe));
    let mut run = SwitchRun::new("Desk".into(), 2);
    feed(&mut run, FOREIGN);
    match run.finish(2, 10, "switch.log", absent) {
        SwitchResult::Failed { step, explanation, .. } => {
            assert_eq!(step, Some(1));
            let FailureExplanation::Absent { monitors } = explanation else {
                panic!("expected the Absent list");
            };
            // The probe lists none of them, so every on monitor is Absent.
            assert_eq!(monitors.len(), 4);
            assert!(monitors.contains(&"KG241Y X1".to_string()));
            assert!(monitors.contains(&"Built-in display".to_string()));
        }
        other => panic!("expected Failed, got {other:?}"),
    }
}

#[test]
fn only_on_monitors_the_probe_lacks_are_absent() {
    let monitors = vec![
        shown("PATH-A", "Left", true),
        shown("PATH-B", "Middle", true),
        shown("PATH-C", "Right", false),
        shown("PATH-D", "Top", true),
    ];
    let probe = probed(&[
        ("path-a", MonitorState::Active),
        ("PATH-B", MonitorState::Absent),
        ("PATH-D", MonitorState::Available),
    ]);
    let aliases = vec![("PATH-B".to_string(), "Centre".to_string())];
    assert_eq!(absent_monitors(&aliases, &monitors, Some(&probe)), vec!["Centre".to_string()]);
    assert!(absent_monitors(&aliases, &monitors, None).is_empty());
}

#[test]
fn the_absent_list_explains_only_a_failed_check_row() {
    let mut late = SwitchRun::new("Desk".into(), 2);
    feed(&mut late, &["[2/3] failed Apply arrangement: open the log; Windows error", "Exit code 1"]);
    match late.finish(1, 10, "switch.log", vec!["Left".to_string()]) {
        SwitchResult::Failed { step, explanation, .. } => {
            assert_eq!(step, Some(2));
            assert_eq!(explanation, FailureExplanation::ReasonOnly);
        }
        other => panic!("expected Failed, got {other:?}"),
    }
    let mut early = SwitchRun::new("Desk".into(), 2);
    feed(&mut early, ABSENT);
    match early.finish(2, 10, "switch.log", vec!["Ultrawide".to_string()]) {
        SwitchResult::Failed { explanation, .. } => {
            assert_eq!(explanation, FailureExplanation::Absent { monitors: vec!["Ultrawide".to_string()] });
        }
        other => panic!("expected Failed, got {other:?}"),
    }
}

#[test]
fn a_cancel_taken_before_the_apply_ends_cancelled_unless_the_script_succeeded() {
    let mut run = SwitchRun::new("Desk".into(), 2);
    feed(&mut run, &APPLIED[..4]);
    assert!(run.request_cancel().is_ok());
    feed(&mut run, &["  still checking", "Exit code 1"]);
    assert!(!run.apply_started);
    assert_eq!(run.finish(1, 5, "switch.log", vec![]), SwitchResult::Cancelled);
    assert_eq!(run.finish(0, 5, "switch.log", vec![]), SwitchResult::Applied { duration_ms: 5 });
    let mut late = SwitchRun::new("Desk".into(), 2);
    feed(&mut late, &APPLIED[..6]);
    assert!(late.apply_started);
    assert!(matches!(late.request_cancel(), Err(AppError::CancelTooLate { .. })));
}

#[test]
fn without_a_probe_the_check_row_names_what_the_script_found_absent() {
    let mut run = SwitchRun::new("Desk".into(), 2);
    feed(&mut run, &[
        "[1/3] failed Check monitors: press the input button on KG241Y X1, Built-in display, or plug it in, then switch again; Absent: KG241Y X1, Built-in display",
        "Exit code 2",
    ]);
    match run.finish(2, 10, "switch.log", vec![]) {
        SwitchResult::Failed { explanation, .. } => assert_eq!(
            explanation,
            FailureExplanation::Absent { monitors: vec!["KG241Y X1".to_string(), "Built-in display".to_string()] }
        ),
        other => panic!("expected Failed, got {other:?}"),
    }
}

#[test]
fn a_landed_extend_fallback_says_so() {
    let mut run = SwitchRun::new("Desk".into(), 2);
    feed(&mut run, &[
        "[2/3] failed Apply arrangement: Arrange the monitors in Settings > Display, then Save current layout again.; Windows Extend was applied instead: bad configuration (Windows error 1610)",
        "Exit code 1",
    ]);
    match run.finish(1, 10, "switch.log", vec!["Left".to_string()]) {
        SwitchResult::Failed { step, reason, explanation, .. } => {
            assert_eq!(step, Some(2));
            assert!(reason.starts_with("Windows Extend was applied instead"));
            assert_eq!(explanation, FailureExplanation::ExtendApplied);
        }
        other => panic!("expected Failed, got {other:?}"),
    }
}
