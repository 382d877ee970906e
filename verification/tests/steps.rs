use layoutswap::config::steps::{
    step_labeller, step_sentence, validate_edits, ApplyFailure, LayoutEdits, Step, StepKind,
    StepSide, WaitRule, DEFAULT_AVAILABLE_WAIT_SECONDS, DEFAULT_DROP_WAIT_SECONDS,
    UNKNOWN_MONITOR,
};
use layoutswap::config::layouts::SummaryMonitor;

fn edits(steps: Vec<Step>) -> LayoutEdits {
    LayoutEdits {
        steps,
        drop_wait_seconds: DEFAULT_DROP_WAIT_SECONDS,
        available_wait_seconds: DEFAULT_AVAILABLE_WAIT_SECONDS,
        on_apply_failure: ApplyFailure::Stop,
    }
}

fn wait(id: &str, side: StepSide, seconds: u32) -> Step {
    Step {
        id: id.into(),
        side,
        kind: StepKind::Wait { seconds },
    }
}

fn send(id: &str, side: StepSide, path: &str, code: u32, wait: WaitRule) -> Step {
    Step {
        id: id.into(),
        side,
        kind: StepKind::SendInput {
            device_path: path.into(),
            input_source: code,
            wait,
        },
    }
}

fn label(path: &str) -> String {
    if path == "ultra" {
        "Ultrawide".into()
    } else {
        UNKNOWN_MONITOR.into()
    }
}

#[test]
fn edits_keep_waits_and_timings_within_bounds_and_ids_unique() {
    assert!(validate_edits(&edits(vec![
        wait("a", StepSide::Before, 3),
        wait("b", StepSide::After, 600)
    ]))
    .is_ok());
    let zero = validate_edits(&edits(vec![wait("a", StepSide::Before, 0)])).unwrap_err();
    assert!(zero.message().contains("between 1 and 600"), "{zero:?}");
    assert!(validate_edits(&edits(vec![wait("a", StepSide::Before, 601)])).is_err());
    let twice = validate_edits(&edits(vec![
        wait("a", StepSide::Before, 1),
        wait("a", StepSide::After, 1)
    ]))
    .unwrap_err();
    assert!(twice.message().contains("own id"), "{twice:?}");
    let mut drop = edits(vec![]);
    drop.drop_wait_seconds = 61;
    assert!(validate_edits(&drop).is_err());
    let mut available = edits(vec![]);
    available.available_wait_seconds = 0;
    assert!(validate_edits(&available).is_err());
}

#[test]
fn a_step_reads_as_one_sentence() {
    assert_eq!(step_sentence(&wait("a", StepSide::Before, 3), &label), "Wait 3 seconds");
    assert_eq!(step_sentence(&wait("a", StepSide::Before, 1), &label), "Wait 1 second");
    assert_eq!(
        step_sentence(&send("s", StepSide::Before, "ultra", 0x11, WaitRule::Drop), &label),
        "Send HDMI 1 to Ultrawide, then wait until Ultrawide shows HDMI 1 or drops"
    );
    assert_eq!(
        step_sentence(&send("s", StepSide::After, "ultra", 0x0F, WaitRule::Available), &label),
        "Send DisplayPort 1 to Ultrawide, then wait until Ultrawide is Available"
    );
    assert_eq!(
        step_sentence(&send("s", StepSide::After, "gone", 0x1E, WaitRule::NoWait), &label),
        "Send Input 0x1E to unknown monitor"
    );
}

#[test]
fn a_send_step_needs_a_monitor_and_a_code_a_monitor_can_hold() {
    assert!(validate_edits(&edits(vec![send("s", StepSide::Before, "ultra", 0x11, WaitRule::NoWait)])).is_ok());
    assert!(validate_edits(&edits(vec![send("s", StepSide::Before, "ultra", 0xFF, WaitRule::NoWait)])).is_ok());
    let no_monitor = validate_edits(&edits(vec![send("s", StepSide::Before, " ", 0x11, WaitRule::NoWait)])).unwrap_err();
    assert!(no_monitor.message().contains("Pick a monitor"), "{no_monitor:?}");
    let zero = validate_edits(&edits(vec![send("s", StepSide::Before, "ultra", 0, WaitRule::NoWait)])).unwrap_err();
    assert!(zero.message().contains("between 0x01 and 0xFF"), "{zero:?}");
    assert!(validate_edits(&edits(vec![send("s", StepSide::Before, "ultra", 0x100, WaitRule::NoWait)])).is_err());
}

fn summary_monitor(path: &str, name: &str) -> SummaryMonitor {
    SummaryMonitor {
        device_path: path.into(),
        reported_name: name.into(),
        connector: "HDMI".into(),
        on: true,
        position: None,
        size: None,
        refresh_mhz: None,
        rotation: None,
        scale_percent: None,
        primary: false,
    }
}

#[test]
fn the_labeller_names_known_monitors_and_calls_the_rest_unknown() {
    let monitors = vec![summary_monitor("path-acer", "KG241Y X1"), summary_monitor("path-tv", "TV")];
    let aliases = vec![("path-acer".to_string(), "Side".to_string())];
    let label = step_labeller(&aliases, &monitors);
    assert_eq!(label.label("path-acer"), "Side");
    assert_eq!(label.label("path-tv"), "TV");
    assert_eq!(label.label("nope"), "unknown monitor");
}

#[test]
fn a_blank_step_id_is_refused() {
    let blank = validate_edits(&edits(vec![wait(" ", StepSide::Before, 3)]));
    assert!(blank.is_err());
}
