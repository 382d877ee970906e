use layoutswap::config::layouts::{Layout, ScriptRecord, Summary, SummaryMonitor};
use layoutswap::config::steps::{
    ApplyFailure, Step, StepKind, StepSide, WaitRule, DEFAULT_AVAILABLE_WAIT_SECONDS,
    DEFAULT_DROP_WAIT_SECONDS,
};
use layoutswap::hardware::{ArrangementBlob, Point, Size};
use layoutswap::script::progress::{parse_progress_line, StepStatus};
use layoutswap::script::render::{
    embedded_summary, ps_escape, render_probe, render_switch, timeline, ABSENT_REASON_PREFIX,
    EXTENDED_REASON_PREFIX, TEMPLATE_VERSION,
};

const RENDERED_AT: &str = "2026-09-09T14:32:05-05:00";
const APP_ROOT: &str = r"C:\Users\example\AppData\Local\layoutswap";

#[test]
fn the_probe_starts_with_the_requires_line_and_header() {
    let text = render_probe(RENDERED_AT).text;
    let mut lines = text.lines();
    assert_eq!(lines.next(), Some("#Requires -Version 5.1"));
    assert_eq!(lines.next(), Some("# generated by layoutswap: probe"));
    assert_eq!(lines.next(), Some("# rendered 2026-09-09T14:32:05-05:00"));
    assert!(!text.contains("{{"), "every placeholder is filled");
}

fn monitor(path: &str, name: &str, connector: &str, on: bool, x: i32) -> SummaryMonitor {
    SummaryMonitor {
        device_path: path.into(),
        reported_name: name.into(),
        connector: connector.into(),
        on,
        position: if on { Some(Point { x, y: 0 }) } else { None },
        size: if on { Some(Size { width: 1920, height: 1080 }) } else { None },
        refresh_mhz: if on { Some(60000) } else { None },
        rotation: if on { Some(0) } else { None },
        scale_percent: if on { Some(100) } else { None },
        primary: on && x == 0,
    }
}

fn layout(name: &str, steps: Vec<Step>) -> Layout {
    Layout {
        id: "0123456789abcdef0123456789abcdef".into(),
        name: name.into(),
        folder: "desk".into(),
        captured_at: "2026-09-09T14:33:00-05:00".into(),
        updated_at: "2026-09-09T14:33:00-05:00".into(),
        arrangement: ArrangementBlob {
            paths: "AAAA".into(),
            modes: "BBBB".into(),
            source_adapters: vec!["gpu".into()],
            target_adapters: vec!["gpu".into()],
            mode_adapters: vec![],
        },
        summary: Summary {
            monitors: vec![
                monitor(r"\\?\DISPLAY#ACR0EC4#1", "KG241Y X1", "HDMI", true, 0),
                monitor(r"\\?\DISPLAY#MSI30E5#1", "MSI MP165 E6", "USB-C DisplayPort 1", true, 1920),
                monitor(r"\\?\DISPLAY#MSI30E5#2", "MSI MP165 E6", "USB-C DisplayPort 2", true, 3840),
                monitor(r"\\?\DISPLAY#AUS343F#1", "VG34VQEL1A", "DisplayPort", false, 0),
            ],
        },
        steps,
        drop_wait_seconds: DEFAULT_DROP_WAIT_SECONDS,
        available_wait_seconds: DEFAULT_AVAILABLE_WAIT_SECONDS,
        on_apply_failure: ApplyFailure::Stop,
        script: None::<ScriptRecord>,
    }
}

fn wait(id: &str, side: StepSide, seconds: u32) -> Step {
    Step { id: id.into(), side, kind: StepKind::Wait { seconds } }
}

fn send(id: &str, side: StepSide, path: &str, code: u32, wait: WaitRule) -> Step {
    Step {
        id: id.into(),
        side,
        kind: StepKind::SendInput { device_path: path.into(), input_source: code, wait },
    }
}

fn render(layout: &Layout, aliases: &Vec<(String, String)>) -> String {
    render_switch(layout, aliases, APP_ROOT, RENDERED_AT, "{\n  \"paths\": \"AAAA\"\n}", "{\n  \"monitors\": []\n}").text
}

fn steps_layout() -> Layout {
    layout(
        "Steps",
        vec![
            wait("w1", StepSide::Before, 3),
            wait("w2", StepSide::After, 1),
            wait("w3", StepSide::After, 10),
        ],
    )
}

#[test]
fn the_timeline_numbers_the_steps_around_the_fixed_rows() {
    let l = steps_layout();
    let t = timeline(&l, &vec![]);
    assert_eq!(
        t.rows,
        vec![
            "Check monitors",
            "Wait 3 seconds",
            "Apply arrangement",
            "Wait 1 second",
            "Wait 10 seconds",
            "Verify"
        ]
    );
    assert_eq!(t.apply, 3);
    assert_eq!(t.verify(), 6);
    assert!(t.sends.is_empty());
    let text = render(&l, &vec![]);
    assert!(text.contains("# Steps: [1/6] Check monitors  [2/6] Wait 3 seconds  [3/6] Apply arrangement  [4/6] Wait 1 second  [5/6] Wait 10 seconds  [6/6] Verify"), "{text}");
    assert!(text.contains("    Write-Step 2 'running' 'Wait 3 seconds'\n    Start-Sleep -Seconds 3\n    Write-Step 2 'done'"), "{text}");
    let wait_at = text.find("Write-Step 2 'running'").unwrap();
    let apply_at = text.find("Write-Step $ApplyStep 'running'").unwrap();
    let after_at = text.find("Write-Step 4 'running'").unwrap();
    let verify_at = text.find("Write-Step $VerifyStep 'running'").unwrap();
    assert!(wait_at < apply_at && apply_at < after_at && after_at < verify_at);
    assert_eq!(timeline(&layout("Desk", vec![]), &vec![]).apply, 2);
}

#[test]
fn a_send_step_is_one_call_with_its_label_code_and_wait() {
    let mut console = layout(
        "Console",
        vec![send("send-hdmi", StepSide::Before, r"\\?\DISPLAY#AUS343F#1", 0x11, WaitRule::Drop)],
    );
    console.drop_wait_seconds = 8;
    let aliases = vec![(r"\\?\DISPLAY#AUS343F#1".to_string(), "Ultrawide".to_string())];
    let t = timeline(&console, &aliases);
    assert_eq!(t.rows[1], "Send HDMI 1 to Ultrawide, then wait until Ultrawide shows HDMI 1 or drops");
    assert_eq!(t.sends, vec![2]);
    let text = render(&console, &aliases);
    let call = text.lines().find(|l| l.starts_with("Send-InputSource -Row 2 ")).expect("the send call");
    assert!(call.contains("-Label 'Ultrawide' -Code 17 -InputName 'HDMI 1' -Wait 'drop' -Side 'before'"), "{call}");
    assert!(call.contains("AUS343F"), "{call}");
    assert!(text.contains("$DropWaitSeconds      = 8"), "{text}");
    assert!(text.contains("$AvailableWaitSeconds = 120"));
    assert!(text.contains("$OnApplyFailure       = 'stop'"));

    let mut back = layout(
        "Desk return",
        vec![
            send("send-back", StepSide::After, r"\\?\DISPLAY#ACR0EC4#1", 0x11, WaitRule::NoWait),
            send("send-gone", StepSide::After, "gone", 0x1E, WaitRule::Available),
        ],
    );
    back.on_apply_failure = ApplyFailure::Extend;
    let t = timeline(&back, &vec![]);
    assert_eq!(t.rows[2], "Send HDMI 1 to KG241Y X1");
    assert_eq!(t.rows[3], "Send Input 0x1E to unknown monitor, then wait until unknown monitor is Available");
    assert_eq!(t.sends, vec![3, 4]);
    let text = render(&back, &vec![]);
    assert!(text.contains("-Label 'unknown monitor' -Code 30 -InputName 'Input 0x1E' -Wait 'available' -Side 'after'"), "{text}");
    assert!(text.contains("$OnApplyFailure       = 'extend'"), "{text}");
    assert!(text.contains(&format!("\"{EXTENDED_REASON_PREFIX}: {{0}} (Windows error {{1}})\" -f $reason, $rc")), "{text}");
    let send_at = text.find("Send-InputSource -Row 3 ").unwrap();
    let apply_at = text.find("Write-Step $ApplyStep 'done'").unwrap();
    let verify_at = text.find("Write-Step $VerifyStep 'running'").unwrap();
    assert!(apply_at < send_at && send_at < verify_at);
}

#[test]
fn a_switch_script_follows_the_documented_shape() {
    let text = render(&layout("Desk", vec![]), &vec![]);
    let mut lines = text.lines();
    assert_eq!(lines.next(), Some("#Requires -Version 5.1"));
    assert_eq!(lines.next(), Some("# generated by layoutswap: switch to Desk"));
    assert_eq!(
        lines.next().map(str::to_string),
        Some(format!("# rendered 2026-09-09T14:32:05-05:00 with template version {TEMPLATE_VERSION}"))
    );
    assert!(!text.contains("{{"), "every placeholder is filled");
    let settings = text.find("# USER SETTINGS").unwrap();
    let data = text.find("# Embedded layout data").unwrap();
    let steps = text.find("Write-Step 1 'running'").unwrap();
    assert!(settings < data && data < steps);
    assert!(text.contains(&format!("$AppRoot       = '{APP_ROOT}'")));
    assert!(text.contains("switch.lock"));
    assert!(text.contains("switch.log"));
    assert!(text.contains("[switch]$Pause"));
    assert!(text.contains("[switch]$ValidateOnly"));
    assert!(text.contains("# Exit codes: 0 applied, 1 could not apply, 2 needed a user action."));
    assert!(text.contains("{\n  \"paths\": \"AAAA\"\n}"));
}

#[test]
fn every_write_step_line_reads_back_as_progress() {
    let l = steps_layout();
    let t = timeline(&l, &vec![]);
    let of = t.rows.len() as u32;
    let raw = render(&l, &vec![]);
    assert!(raw.contains("$ApplyStep     = 3"));
    assert!(raw.contains("$VerifyStep    = 6"));
    assert!(raw.contains("$StepCount     = 6"));
    let text = raw
        .replace("$ApplyStep", &t.apply.to_string())
        .replace("$VerifyStep", &t.verify().to_string());
    assert!(text.contains(&format!("(\"{ABSENT_REASON_PREFIX}{{0}}\" -f $names)")), "{text}");
    let mut seen = 0;
    for line in text.lines() {
        let Some(rest) = line.trim_start().strip_prefix("Write-Step ") else {
            continue;
        };
        let Some(step) = rest.chars().next().filter(char::is_ascii_digit) else {
            continue;
        };
        let parts: Vec<&str> = rest.split('\'').collect();
        let (status, step_text) = (parts[1], parts[3]);
        let printed = format!("[{step}/{of}] {status} {step_text}");
        let parsed = parse_progress_line(&printed).unwrap_or_else(|| panic!("{printed:?} does not parse"));
        assert_eq!(parsed.step, step.to_digit(10).unwrap());
        assert_eq!(parsed.of, of);
        assert_eq!(parsed.text, step_text);
        assert!(matches!(
            (status, parsed.status),
            ("running", StepStatus::Running) | ("done", StepStatus::Done) | ("skipped", StepStatus::Skipped)
        ));
        seen += 1;
    }
    assert!(seen >= 15, "found only {seen} Write-Step calls");
}

#[test]
fn the_script_lists_on_and_off_monitors_and_tells_identical_panels_apart() {
    let text = render(&layout("Desk", vec![]), &vec![]);
    let on_block = &text[text.find("$MonitorsOn").unwrap()..text.find("$MonitorsOff").unwrap()];
    assert_eq!(on_block.matches("    '").count(), 3);
    let off_block = &text[text.find("$MonitorsOff").unwrap()..text.find("# Embedded layout data").unwrap()];
    assert_eq!(off_block.matches("    '").count(), 1);
    assert!(off_block.contains("VG34VQEL1A"));
    assert!(text.contains("    'MSI MP165 E6 \u{b7} USB-C DisplayPort 1'"));
    assert!(text.contains("    'MSI MP165 E6 \u{b7} USB-C DisplayPort 2'"));
    assert!(!text.contains("    'MSI MP165 E6'   #"));
}

#[test]
fn quotes_in_a_layout_name_are_doubled_in_the_script() {
    let text = render(&layout("Meeting's twins", vec![]), &vec![]);
    assert!(text.contains("$LayoutName    = 'Meeting''s twins'"));
    assert!(text.contains("# generated by layoutswap: switch to Meeting's twins"));
    assert_eq!(ps_escape("it's 'x'"), "it''s ''x''");
}

#[test]
fn an_empty_summary_still_renders() {
    let mut empty = layout("Empty", vec![]);
    empty.summary = Summary { monitors: vec![] };
    let text = render(&empty, &vec![]);
    assert!(text.contains("$MonitorsOn    = @(\n\n)"));
}

#[test]
fn the_embedded_summary_names_monitors_by_label() {
    let l = layout("Desk", vec![]);
    let aliases = vec![(r"\\?\DISPLAY#ACR0EC4#1".to_string(), "Side".to_string())];
    let e = embedded_summary(&l, &aliases);
    assert_eq!(e.len(), 4);
    assert_eq!(e[0].label, "Side");
    assert_eq!(e[1].label, "MSI MP165 E6 \u{b7} USB-C DisplayPort 1");
    assert_eq!((e[2].x, e[2].width, e[2].refresh_mhz), (3840, 1920, Some(60000)));
    assert_eq!((e[3].on, e[3].x, e[3].width), (false, 0, 0));
}
