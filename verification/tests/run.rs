use layoutswap::script::run::{FakeScriptRunner, ScriptOutput, KILLED_EXIT_CODE};

#[test]
fn the_fake_streams_its_lines_then_reports_the_exit_code() {
    let mut fake = FakeScriptRunner::new().streaming(&["one", "two"], 2);
    let mut script = fake.start("s.ps1", &[]);
    assert_eq!(script.next_line().as_deref(), Some("one"));
    assert_eq!(script.next_line().as_deref(), Some("two"));
    assert_eq!(script.next_line(), None);
    assert_eq!(script.wait(), 2);
}

#[test]
fn without_a_stream_the_fake_streams_its_stdout() {
    let mut fake = FakeScriptRunner::with_stdout("a\nb\n");
    let mut script = fake.start("s.ps1", &[]);
    assert_eq!(script.next_line().as_deref(), Some("a"));
    assert_eq!(script.next_line().as_deref(), Some("b"));
    assert_eq!(script.next_line(), None);
    assert_eq!(script.wait(), 0);
}

#[test]
fn the_fake_returns_its_canned_output_and_records_the_call() {
    let mut runner = FakeScriptRunner::with_stdout("{}");
    let output = runner.run(r"C:\probe.ps1", &["-Pause".to_string()]);
    assert!(output.succeeded());
    assert_eq!(output.stdout, "{}");
}

#[test]
fn the_fake_records_every_call_in_order() {
    let mut fake = FakeScriptRunner::new();
    fake.run("a.ps1", &[]);
    fake.start("b.ps1", &["x".to_string()]);
    assert_eq!(fake.calls.len(), 2);
    assert_eq!(fake.calls[1].0, "b.ps1");
    assert_eq!(fake.calls[1].1, vec!["x".to_string()]);
}

#[test]
fn a_paused_fake_goes_on_once_released_and_a_killed_one_stops_short() {
    let mut fake = FakeScriptRunner::new()
        .streaming(&["one", "two", "three"], 0)
        .pausing_after(1);
    let mut script = fake.start("s.ps1", &[]);
    assert_eq!(script.next_line().as_deref(), Some("one"));
    script.release();
    assert_eq!(script.next_line().as_deref(), Some("two"));

    let mut fake = FakeScriptRunner::new().streaming(&["one", "two"], 0).pausing_after(1);
    let mut script = fake.start("s.ps1", &[]);
    assert_eq!(script.next_line().as_deref(), Some("one"));
    script.cancel();
    assert_eq!(script.next_line(), None);
    assert_eq!(script.wait(), KILLED_EXIT_CODE);
}

#[test]
fn a_failed_run_keeps_its_exit_code_and_stderr() {
    let mut runner = FakeScriptRunner::returning(ScriptOutput {
        exit_code: 3,
        stdout: String::new(),
        stderr: "boom".into(),
    });
    let output = runner.run("x.ps1", &[]);
    assert!(!output.succeeded());
    assert_eq!(output.exit_code, 3);
    assert_eq!(output.stderr, "boom");
    runner.set_stdout("fine");
    assert_eq!(runner.run("x.ps1", &[]).stdout, "fine");
}
