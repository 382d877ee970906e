use layoutswap::config::capabilities::{Capabilities, Mode};
use layoutswap::hardware::capabilities::vcp_group;
use layoutswap::hardware::input_source::{input_sources, name};
use layoutswap::hardware::{connector_name, probe_failure, strip_boms, OUTPUT_INTERNAL};
use layoutswap::script::run::ScriptOutput;

fn entry(answered: bool, power_modes: &[u32]) -> Capabilities {
    Capabilities {
        read_at: "2026-09-11T11:52:00.0000000-05:00".into(),
        answered,
        input_codes: vec![0x11, 0x12, 0x0F],
        power_modes: power_modes.to_vec(),
        modes: Vec::<Mode>::new(),
        raw: String::new(),
    }
}

#[test]
fn can_wake_only_when_the_awake_mode_is_declared_writable() {
    assert!(entry(true, &[1, 2, 4, 5]).can_wake(), "the Acer");
    assert!(entry(true, &[1, 5]).can_wake(), "the ultrawide");
    assert!(!entry(true, &[5]).can_wake(), "an MSI panel");
    assert!(!entry(true, &[]).can_wake(), "no D6 group");
    assert!(!entry(false, &[1]).can_wake(), "a silent monitor carries nothing");
}

#[test]
fn vcp_groups_are_read_from_real_strings_off_the_reference_machine() {
    // Fragments as the monitors sent them on 2026-09-11.
    let acer = "(prot(monitor)type(LCD)model(ACER)cmds(01 02 03 07 0C E3 F3)vcp(04 10 12 14(05 06 08 0B) 16 18 1A 59 5A 5B 5C 5D 5E 60(11 12 0F)   6C 6E 70   9B 9C 9D 9E 9F A0 CC(01 02 03 04 05 06 07 08 09 0A 0C 0D 0E 14 16 1E 24) D6(01 02 04 05) E0(00 04 05)) mswhql(1)asset_eep(40)mccs_ver(2.2))";
    assert_eq!(vcp_group(acer, "60"), vec![0x11, 0x12, 0x0F], "runs of spaces between codes");
    assert_eq!(vcp_group(acer, "D6"), vec![1, 2, 4, 5]);
    let ultrawide = "vcp(02 04 05 08 10 12 14(01 05 06 08 0B) 16 18 1A 52 60(11 12 0F) 62 86(01 02 0B) 87(00 0A 14 1E 28 32) 8D(01 02) AC AE B6 C0 C6 C8 C9 CA CC(01 02) D6(01 05) DF DC(01 02 03 04 05 06 07 08 09 0A 0B))";
    assert_eq!(vcp_group(ultrawide, "60"), vec![0x11, 0x12, 0x0F]);
    assert_eq!(vcp_group(ultrawide, "D6"), vec![1, 5]);
    let msi = "vcp(02 04 60(11 0F 10) 62 CC(00 01 02 03 04 05 06 07 08 09 0A 0B 0C 0D 0E 0F 10 11 12 13 14 15 16 17 18 19 1A 1B 1C 1D 1E 1F 20 21 22 23 24 25) D6(05)) mswhql(1)asset_eep(40)mccs_ver(2.2))";
    assert_eq!(vcp_group(msi, "60"), vec![0x11, 0x0F, 0x10]);
    assert_eq!(vcp_group(msi, "D6"), vec![5]);
    // Codes are matched whole and case-insensitively; a code without values is none.
    assert_eq!(vcp_group("vcp(160(01 02) 60 d6(01))", "60"), Vec::<u32>::new());
    assert_eq!(vcp_group("vcp(160(01 02) 60 d6(01))", "D6"), vec![1]);
    assert_eq!(vcp_group("(prot(monitor)cmds(01 02))", "60"), Vec::<u32>::new());
}

#[test]
fn names_every_code_in_the_table() {
    for source in input_sources() {
        assert_eq!(name(source.code), source.name);
    }
    assert_eq!(name(0x11), "HDMI 1");
    assert_eq!(name(0x1B), "USB-C");
}

#[test]
fn an_unknown_code_reads_as_hex() {
    assert_eq!(name(0x1E), "Input 0x1E");
    assert_eq!(name(5), "Input 0x05");
    assert_eq!(name(0x100), "Input 0x100");
}

#[test]
fn connectors_read_as_words() {
    assert_eq!(connector_name(10, 0), "DisplayPort");
    assert_eq!(connector_name(10, 2), "DisplayPort 2");
    assert_eq!(connector_name(5, 1), "HDMI 1");
    assert_eq!(connector_name(OUTPUT_INTERNAL, 3), "Built-in");
    assert_eq!(connector_name(99, 0), "Other");
}

#[test]
fn a_failed_probe_run_names_the_exit_code_and_what_to_do() {
    let output = ScriptOutput {
        exit_code: 1,
        stdout: String::new(),
        stderr: "probe failed: QueryDisplayConfig failed with error 87\r\n".into(),
    };
    let message = probe_failure(&output).unwrap().message();
    assert!(message.contains("exit code 1"), "{message}");
    assert!(message.contains("error 87"), "{message}");
    assert!(message.starts_with("Check that"), "{message}");
    let fine = ScriptOutput { exit_code: 0, stdout: "{}".into(), stderr: String::new() };
    assert!(probe_failure(&fine).is_none());
}

#[test]
fn byte_order_marks_before_the_probe_json_are_dropped() {
    assert_eq!(strip_boms("\u{feff}\u{feff}{\"a\":1}"), "{\"a\":1}");
    assert_eq!(strip_boms("{}"), "{}");
    assert_eq!(strip_boms("x\u{feff}"), "x\u{feff}");
}

use layoutswap::hardware::capabilities::{capabilities_from_report, CapabilitiesReport, ReportEntry};

fn mode(width: u32, height: u32, hz: u32) -> Mode {
    Mode { width, height, hz }
}

const ACER_RAW: &str = "(prot(monitor)type(LCD)model(ACER)cmds(01 02 03 07 0C E3 F3)vcp(04 10 12 14(05 06 08 0B) 16 18 1A 59 5A 5B 5C 5D 5E 60(11 12 0F)   6C 6E 70   9B 9C 9D 9E 9F A0 CC(01 02 03 04 05 06 07 08 09 0A 0C 0D 0E 14 16 1E 24) D6(01 02 04 05) E0(00 04 05)) mswhql(1)asset_eep(40)mccs_ver(2.2))";
const ULTRAWIDE_RAW: &str = "(prot(monitor)type(LCD)model(VG34VQEL1A) vcp(02 04 05 08 10 12 14(01 05 06 08 0B) 16 18 1A 52 60(11 12 0F) 62 86(01 02 0B) 87(00 0A 14 1E 28 32) 8D(01 02) AC AE B6 C0 C6 C8 C9 CA CC(01 02) D6(01 05) DF DC(01 02 03 04 05 06 07 08 09 0A 0B)))";
const MSI_RAW: &str = "(prot(monitor)type(LCD)model(MP165)vcp(02 04 60(11 0F 10) 62 CC(00 01 02 03 04 05 06 07 08 09 0A 0B 0C 0D 0E 0F 10 11 12 13 14 15 16 17 18 19 1A 1B 1C 1D 1E 1F 20 21 22 23 24 25) D6(05)) mswhql(1)asset_eep(40)mccs_ver(2.2))";

/// The reference machine as the capabilities script reported it on 2026-09-11, modes
/// cut to a handful each, keyed by device path in path order.
fn capabilities_report() -> CapabilitiesReport {
    let e = |answered: bool, raw: &str, modes: Vec<Mode>| ReportEntry { answered, raw: raw.into(), modes };
    CapabilitiesReport {
        read_at: "2026-09-11T19:39:48.0888655-05:00".into(),
        monitors: vec![
            (
                r"\\?\DISPLAY#ACR0EC4#5&1a2b3c&0&UID4353".into(),
                e(true, ACER_RAW, vec![
                    mode(1920, 1080, 60),
                    mode(1920, 1080, 120),
                    mode(1920, 1080, 50),
                    mode(1920, 1080, 60),
                    mode(1920, 1080, 119),
                    mode(1920, 1080, 59),
                ]),
            ),
            (
                r"\\?\DISPLAY#AUS343F#5&4d5e6f&0&UID4359".into(),
                e(true, ULTRAWIDE_RAW, vec![mode(1920, 1080, 60), mode(3440, 1440, 100), mode(3440, 1440, 60), mode(3440, 1440, 75)]),
            ),
            (
                r"\\?\DISPLAY#EDO4245#4&2b3c4d&0&UID8388688".into(),
                e(false, "", vec![
                    mode(640, 480, 165),
                    mode(800, 600, 60),
                    mode(1024, 768, 60),
                    mode(640, 480, 60),
                    mode(800, 600, 165),
                ]),
            ),
            (r"\\?\DISPLAY#MSI30E5#5&3c4d5e&0&UID4357".into(), e(true, MSI_RAW, vec![mode(1920, 1080, 60)])),
            (r"\\?\DISPLAY#MSI30E5#5&3c4d5e&1&UID4358".into(), e(true, MSI_RAW, vec![mode(1920, 1080, 60)])),
        ],
    }
}

fn by_path<'a>(entries: &'a [(String, Capabilities)], fragment: &str) -> &'a Capabilities {
    entries
        .iter()
        .find(|(path, _)| path.contains(fragment))
        .map(|(_, entry)| entry)
        .unwrap_or_else(|| panic!("no entry with {fragment}"))
}

#[test]
fn parses_the_input_codes_power_modes_and_modes_of_a_monitor_that_answered() {
    let entries = capabilities_from_report(&capabilities_report());
    assert_eq!(entries.len(), 5);
    let acer = by_path(&entries, "ACR0EC4");
    assert!(acer.answered);
    assert_eq!(acer.read_at, "2026-09-11T19:39:48.0888655-05:00");
    assert_eq!(acer.input_codes, vec![0x11, 0x12, 0x0F]);
    assert_eq!(acer.power_modes, vec![1, 2, 4, 5]);
    assert!(acer.can_wake());
    assert!(acer.raw.starts_with("(prot(monitor)type(LCD)model(ACER)"));
    assert_eq!(
        acer.modes,
        vec![mode(1920, 1080, 50), mode(1920, 1080, 59), mode(1920, 1080, 60), mode(1920, 1080, 119), mode(1920, 1080, 120)],
        "rate ascending within a resolution, the duplicate 60 Hz gone"
    );
    let ultrawide = by_path(&entries, "AUS343F");
    assert_eq!(ultrawide.input_codes, vec![0x11, 0x12, 0x0F]);
    assert_eq!(ultrawide.power_modes, vec![1, 5]);
    assert!(ultrawide.can_wake());
    assert_eq!(
        ultrawide.modes[..3],
        [mode(3440, 1440, 60), mode(3440, 1440, 75), mode(3440, 1440, 100)],
        "largest resolution first"
    );
}

#[test]
fn a_silent_monitor_is_not_answered_and_carries_only_its_modes() {
    let entries = capabilities_from_report(&capabilities_report());
    let built_in = by_path(&entries, "EDO4245");
    assert!(!built_in.answered);
    assert!(built_in.input_codes.is_empty());
    assert!(built_in.power_modes.is_empty());
    assert!(!built_in.can_wake());
    assert_eq!(built_in.raw, "");
    assert_eq!(
        built_in.modes,
        vec![mode(1024, 768, 60), mode(800, 600, 60), mode(800, 600, 165), mode(640, 480, 60), mode(640, 480, 165)]
    );

    // A monitor that claims to have answered with an empty string is silent too.
    let empty = CapabilitiesReport {
        read_at: "2026-09-11T12:00:00-05:00".into(),
        monitors: vec![("path-x".into(), ReportEntry { answered: true, raw: "   ".into(), modes: vec![] })],
    };
    let entries = capabilities_from_report(&empty);
    let x = by_path(&entries, "path-x");
    assert!(!x.answered);
    assert_eq!(x.raw, "   ", "kept as sent, for diagnostics");
}

#[test]
fn a_monitor_that_declares_power_off_only_cannot_be_woken() {
    let entries = capabilities_from_report(&capabilities_report());
    let msi = by_path(&entries, "MSI30E5");
    assert!(msi.answered);
    assert_eq!(msi.input_codes, vec![0x11, 0x0F, 0x10]);
    assert_eq!(msi.power_modes, vec![5]);
    assert!(!msi.can_wake());

    // A string with no power-mode group at all reads the same way.
    let none = CapabilitiesReport {
        read_at: "2026-09-11T12:00:00-05:00".into(),
        monitors: vec![(
            "path-y".into(),
            ReportEntry { answered: true, raw: "(prot(monitor)vcp(02 60(11 0F) 62))".into(), modes: vec![] },
        )],
    };
    let entries = capabilities_from_report(&none);
    let y = by_path(&entries, "path-y");
    assert!(y.answered);
    assert_eq!(y.input_codes, vec![0x11, 0x0F]);
    assert_eq!(y.power_modes, Vec::<u32>::new());
    assert!(!y.can_wake());
}
