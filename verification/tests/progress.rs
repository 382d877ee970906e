use layoutswap::script::progress::{parse_progress_line, FailureParts, ProgressLine, StepStatus};

#[test]
fn parses_each_status() {
    assert_eq!(
        parse_progress_line("[1/3] running Check monitors"),
        Some(ProgressLine {
            step: 1,
            of: 3,
            status: StepStatus::Running,
            text: "Check monitors".into()
        })
    );
    assert_eq!(
        parse_progress_line("[3/3] done Verify\r\n").unwrap().status,
        StepStatus::Done
    );
    assert_eq!(
        parse_progress_line("[2/3] skipped Apply arrangement")
            .unwrap()
            .status,
        StepStatus::Skipped
    );
}

#[test]
fn keeps_the_reason_of_a_failure() {
    let line = parse_progress_line(
        "[2/3] failed Apply arrangement: Windows could not apply the arrangement, bad configuration (Windows error 1610)",
    )
    .unwrap();
    assert_eq!(line.status, StepStatus::Failed);
    assert!(line.text.starts_with("Apply arrangement: "));
    assert!(line.text.ends_with("(Windows error 1610)"));
}

#[test]
fn a_failed_line_splits_into_step_action_and_reason() {
    let line = parse_progress_line(
        "[1/3] failed Check monitors: press the input button on Ultrawide, or plug it in, then switch again; 1 Absent",
    )
    .unwrap();
    assert_eq!(
        line.failure_parts(),
        FailureParts {
            step_name: "Check monitors".into(),
            next_action: "press the input button on Ultrawide, or plug it in, then switch again".into(),
            reason: "1 Absent".into(),
        }
    );
    let bare = parse_progress_line("[2/3] failed Apply arrangement").unwrap();
    assert_eq!(bare.failure_parts().step_name, "");
    assert_eq!(bare.failure_parts().next_action, "Apply arrangement");
    let done = parse_progress_line("[3/3] done Verify").unwrap();
    assert_eq!(done.failure_parts().step_name, "Verify");
    assert_eq!(done.failure_parts().next_action, "");
}

#[test]
fn everything_else_is_log() {
    for line in [
        "",
        "  Ultrawide: Available",
        "2026-09-10 08:00:00  [1/3] done Check monitors",
        "[1/3]",
        "[1/3] waiting Check monitors",
        "[0/3] running x",
        "[4/3] running x",
        "[a/3] running x",
        "=== Switch to Desk ===",
    ] {
        assert_eq!(parse_progress_line(line), None, "{line:?}");
    }
}

#[test]
fn a_printed_line_reads_back_with_its_parts() {
    for (step, of, word, status, text) in [
        (1u32, 6u32, "running", StepStatus::Running, "Check monitors"),
        (6, 6, "done", StepStatus::Done, "Verify"),
        (3, 6, "skipped", StepStatus::Skipped, "Apply arrangement: validated only"),
        (2, 3, "failed", StepStatus::Failed, "Apply arrangement: try again; no"),
        (12, 40, "running", StepStatus::Running, ""),
    ] {
        let printed = format!("[{step}/{of}] {word} {text}");
        let parsed = parse_progress_line(&printed).unwrap();
        assert_eq!((parsed.step, parsed.of, parsed.status, parsed.text.as_str()), (step, of, status, text));
    }
}

#[test]
fn a_failure_text_splits_back_into_what_was_printed() {
    let line = parse_progress_line("[4/5] failed Send HDMI 1 to TV: check the cable; TV did not answer").unwrap();
    let parts = line.failure_parts();
    assert_eq!(parts.step_name, "Send HDMI 1 to TV");
    assert_eq!(parts.next_action, "check the cable");
    assert_eq!(parts.reason, "TV did not answer");
}

#[test]
fn a_colon_or_semicolon_not_followed_by_a_space_stays_in_its_part() {
    let line = parse_progress_line("[2/4] failed Wait 0:05: wait;then retry; timed out; twice").unwrap();
    let parts = line.failure_parts();
    assert_eq!(parts.step_name, "Wait 0:05");
    assert_eq!(parts.next_action, "wait;then retry");
    assert_eq!(parts.reason, "timed out; twice");
}
