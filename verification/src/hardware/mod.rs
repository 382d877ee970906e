//! Hardware facts: what a device path is, which output technology is which connector,
//! how a DPI becomes a scale, what a DDC-CI input source code is. The probe script's raw
//! report becomes an [`Inventory`] here; nothing else in the library reads raw facts.

pub mod capabilities;
pub mod input_source;

use vstd::prelude::*;
use vstd::string::StrSliceExecFns;
use crate::text::{
    append_str, chars_of, dec, lemma_seq_lt_irreflexive, lemma_seq_lt_total,
    lemma_seq_lt_transitive, push_dec, seq_lt, seq_lt_exec, slice_of, string_of, trim, trim_str,
};
use crate::error::AppError;
use crate::script::run::ScriptOutput;

verus! {

/// What the probe found: every monitor Windows knows about and the arrangement of the
/// active ones, as the raw display-config arrays needed to apply it again.
#[derive(Debug, Clone, PartialEq, Eq)]
pub struct Inventory {
    /// When the probe ran, as the script's local ISO 8601 timestamp.
    pub probed_at: String,
    pub monitors: Vec<Monitor>,
    pub arrangement: ArrangementBlob,
}

/// One physical monitor, identified by its device path.
#[derive(Debug, Clone, PartialEq, Eq)]
pub struct Monitor {
    pub device_path: String,
    /// The name the monitor reports, or a stand-in when it reports none.
    pub reported_name: String,
    /// The GPU's friendly name, empty when Windows did not say.
    pub gpu: String,
    pub gpu_device_path: String,
    /// The physical connector, such as "DisplayPort 2" or "Built-in".
    pub connector: String,
    /// The GDI name while the monitor is Active.
    pub gdi_name: Option<String>,
    pub state: MonitorState,
    pub position: Option<Point>,
    pub size: Option<Size>,
    /// The refresh rate in thousandths of a hertz, rounded to the nearest.
    pub refresh_mhz: Option<u64>,
    /// Rotation in degrees clockwise: 0, 90, 180 or 270.
    pub rotation: Option<u32>,
    /// Windows scale, 100 for 100%.
    pub scale_percent: Option<u32>,
    pub primary: bool,
    /// The current input source as a VCP code 0x60 value, when DDC-CI answered.
    pub input_source: Option<u32>,
    /// The input source's name from the fixed table, "Input 0x1E" for an unknown code.
    pub input_source_name: Option<String>,
    /// The power mode as a VCP code 0xD6 value (1 awake, 2 standby, 4 off, 5 power off),
    /// when DDC-CI answered that read.
    pub power_mode: Option<u32>,
    /// Asleep: the monitor answered the power-mode read with anything but awake.
    pub asleep: bool,
    pub ddc_ci: DdcCi,
}

/// Whether the probe could ask the monitor over DDC-CI. Only an Active monitor is asked.
#[derive(Debug, Clone, Copy, PartialEq, Eq, Structural)]
pub enum DdcCi {
    Answered,
    /// Asked and silent within the probe's timeout, no physical monitor handle, or
    /// several handles under one GDI name (clone mode).
    NotAnswering,
    /// Not asked: the monitor is not Active, or the probe predates the read.
    NotRead,
}

impl Default for DdcCi {
    fn default() -> (r: DdcCi)
        ensures
            r == DdcCi::NotRead,
    {
        DdcCi::NotRead
    }
}

/// The three monitor states.
#[derive(Debug, Clone, Copy, PartialEq, Eq, Structural)]
pub enum MonitorState {
    /// Windows is drawing to it.
    Active,
    /// Plugged in and showing the PC, but Windows is not drawing to it.
    Available,
    /// Unplugged, off, or showing another device's input.
    Absent,
}

#[derive(Debug, Clone, Copy, PartialEq, Eq, Structural)]
pub struct Point {
    pub x: i32,
    pub y: i32,
}

#[derive(Debug, Clone, Copy, PartialEq, Eq, Structural)]
pub struct Size {
    pub width: u32,
    pub height: u32,
}

/// The SetDisplayConfig path and mode arrays exactly as Windows returned them for the
/// active monitors, base64-encoded, with the GPU device paths needed to remap the
/// per-boot adapter identifiers at apply time.
#[derive(Debug, Clone, PartialEq, Eq)]
pub struct ArrangementBlob {
    pub paths: String,
    pub modes: String,
    pub source_adapters: Vec<String>,
    pub target_adapters: Vec<String>,
    pub mode_adapters: Vec<String>,
}

/// The raw document the probe script prints, as facts only.
#[derive(Debug, Clone, PartialEq, Eq)]
pub struct ProbeReport {
    pub probed_at: String,
    pub monitors: Vec<ReportMonitor>,
    pub arrangement: ArrangementBlob,
}

/// One monitor as the probe reports it; a field the probe left out reads as empty,
/// zero or false.
#[derive(Debug, Clone, PartialEq, Eq)]
pub struct ReportMonitor {
    pub device_path: String,
    pub friendly_name: String,
    pub gdi_name: String,
    pub adapter_device_path: String,
    pub gpu_name: String,
    /// DISPLAYCONFIG_VIDEO_OUTPUT_TECHNOLOGY as an unsigned value.
    pub output_technology: u32,
    pub connector_instance: u32,
    pub active: bool,
    pub available: bool,
    pub has_mode: bool,
    pub x: i32,
    pub y: i32,
    pub width: u32,
    pub height: u32,
    pub refresh_num: u32,
    pub refresh_den: u32,
    /// DISPLAYCONFIG_ROTATION: 1 identity, 2 rotate 90, 3 rotate 180, 4 rotate 270.
    pub rotation: u32,
    /// Effective DPI of the monitor, 0 when unknown.
    pub dpi: u32,
    /// The current input source as VCP code 0x60 reports it, when read.
    pub input_source: Option<u32>,
    /// The power mode as VCP code 0xD6 reports it, when read.
    pub power_mode: Option<u32>,
    /// `answered`, `notAnswering` or `notRead`; anything else reads as not read.
    pub ddc_ci: String,
}

/// VCP code 0xD6 reads 1 for a monitor that is awake; 2, 4 and 5 are its sleep states.
pub const POWER_AWAKE: u32 = 1;

pub const OUTPUT_INTERNAL: u32 = 0x8000_0000;

/// Output technologies that are the machine's own panel.
pub open spec fn internal(ot: u32) -> bool {
    ot == 6 || ot == 11 || ot == 13 || ot == OUTPUT_INTERNAL
}

pub fn is_internal(output_technology: u32) -> (r: bool)
    ensures
        r == internal(output_technology),
{
    output_technology == 6 || output_technology == 11 || output_technology == 13
        || output_technology == OUTPUT_INTERNAL
}

/// The word for a connector type, for the types that are not the built-in panel.
pub open spec fn connector_base(ot: u32) -> Seq<char> {
    if ot == 0 {
        "VGA"@
    } else if ot == 1 {
        "S-Video"@
    } else if ot == 2 {
        "Composite"@
    } else if ot == 3 {
        "Component"@
    } else if ot == 4 {
        "DVI"@
    } else if ot == 5 {
        "HDMI"@
    } else if ot == 9 {
        "SDI"@
    } else if ot == 10 {
        "DisplayPort"@
    } else if ot == 12 {
        "UDI"@
    } else if ot == 15 {
        "Miracast"@
    } else if ot == 16 || ot == 17 {
        "Virtual"@
    } else if ot == 18 {
        "USB-C DisplayPort"@
    } else {
        "Other"@
    }
}

/// The words a user sees for a connector: "Built-in" for the machine's panel; else the
/// type, followed by the instance number when Windows numbered it (a lone connector of
/// its type reports zero).
pub open spec fn connector_words(ot: u32, instance: u32) -> Seq<char> {
    if internal(ot) {
        "Built-in"@
    } else if instance == 0 {
        connector_base(ot)
    } else {
        connector_base(ot) + " "@ + dec(instance as int)
    }
}

/// DISPLAYCONFIG_VIDEO_OUTPUT_TECHNOLOGY to the words a user sees.
pub fn connector_name(output_technology: u32, instance: u32) -> (r: String)
    ensures
        r@ == connector_words(output_technology, instance),
{
    let ot = output_technology;
    let mut o: Vec<char> = Vec::new();
    if is_internal(ot) {
        append_str(&mut o, "Built-in");
        return string_of(&o);
    }
    if ot == 0 {
        append_str(&mut o, "VGA");
    } else if ot == 1 {
        append_str(&mut o, "S-Video");
    } else if ot == 2 {
        append_str(&mut o, "Composite");
    } else if ot == 3 {
        append_str(&mut o, "Component");
    } else if ot == 4 {
        append_str(&mut o, "DVI");
    } else if ot == 5 {
        append_str(&mut o, "HDMI");
    } else if ot == 9 {
        append_str(&mut o, "SDI");
    } else if ot == 10 {
        append_str(&mut o, "DisplayPort");
    } else if ot == 12 {
        append_str(&mut o, "UDI");
    } else if ot == 15 {
        append_str(&mut o, "Miracast");
    } else if ot == 16 || ot == 17 {
        append_str(&mut o, "Virtual");
    } else if ot == 18 {
        append_str(&mut o, "USB-C DisplayPort");
    } else {
        append_str(&mut o, "Other");
    }
    assert(o@ == Seq::<char>::empty() + connector_base(ot));
    if instance != 0 {
        append_str(&mut o, " ");
        push_dec(&mut o, instance as u64);
    }
    string_of(&o)
}

/// The probe's word for a DDC-CI status; anything else reads as not read.
pub open spec fn ddc_ci_of(word: Seq<char>) -> DdcCi {
    if word == "answered"@ {
        DdcCi::Answered
    } else if word == "notAnswering"@ {
        DdcCi::NotAnswering
    } else {
        DdcCi::NotRead
    }
}

impl DdcCi {
    /// The probe's word for the status; anything else reads as not read.
    pub fn from_probe(word: &str) -> (r: DdcCi)
        ensures
            r == ddc_ci_of(word@),
    {
        let w = chars_of(word);
        if crate::text::same_chars(&w, &chars_of("answered")) {
            DdcCi::Answered
        } else if crate::text::same_chars(&w, &chars_of("notAnswering")) {
            DdcCi::NotAnswering
        } else {
            DdcCi::NotRead
        }
    }
}


/// The glossary state a report's two flags read as.
pub open spec fn state_of(active: bool, available: bool) -> MonitorState {
    if active {
        MonitorState::Active
    } else if available {
        MonitorState::Available
    } else {
        MonitorState::Absent
    }
}

/// DISPLAYCONFIG_ROTATION in degrees clockwise.
pub open spec fn rotation_degrees(r: u32) -> u32 {
    if r == 2 {
        90
    } else if r == 3 {
        180
    } else if r == 4 {
        270
    } else {
        0
    }
}

/// `num / den` hertz in thousandths of a hertz, rounded to the nearest.
pub open spec fn refresh_millihertz(num: u32, den: u32) -> int {
    (num * 1000 + den / 2) / (den as int)
}

/// The Windows scale for an effective DPI: 96 DPI is 100%, rounded to the nearest.
pub open spec fn scale_of_dpi(dpi: u32) -> int {
    (dpi * 100 + 48) / 96
}

/// The name a report gives a monitor: its own, trimmed, else a stand-in.
pub open spec fn reported_name_of(r: ReportMonitor) -> Seq<char> {
    if trim(r.friendly_name@).len() == 0 {
        if internal(r.output_technology) {
            "Built-in display"@
        } else {
            "Unnamed monitor"@
        }
    } else {
        trim(r.friendly_name@)
    }
}

/// The DDC-CI status a report reads as: only an Active monitor is asked.
pub open spec fn ddc_of(r: ReportMonitor) -> DdcCi {
    if r.active {
        ddc_ci_of(r.ddc_ci@)
    } else {
        DdcCi::NotRead
    }
}

/// A report is within what the derivations can compute: the scale of an Active monitor
/// with a known DPI fits in 32 bits on the way.
pub open spec fn report_monitor_fits(r: ReportMonitor) -> bool {
    r.active && r.dpi > 0 ==> r.dpi * 100 + 48 <= u32::MAX
}

/// `m` is what the report `r` says about one monitor.
pub open spec fn monitor_of_report(r: ReportMonitor, m: Monitor) -> bool {
    let has_mode = r.active && r.has_mode;
    let ddc = ddc_of(r);
    &&& m.device_path@ == r.device_path@
    &&& m.reported_name@ == reported_name_of(r)
    &&& m.gpu@ == trim(r.gpu_name@)
    &&& m.gpu_device_path@ == r.adapter_device_path@
    &&& m.connector@ == connector_words(r.output_technology, r.connector_instance)
    &&& (if r.active && r.gdi_name@.len() > 0 {
        m.gdi_name is Some && m.gdi_name->0@ == r.gdi_name@
    } else {
        m.gdi_name is None
    })
    &&& m.state == state_of(r.active, r.available)
    &&& m.position == (if has_mode {
        Some(Point { x: r.x, y: r.y })
    } else {
        None
    })
    &&& m.size == (if has_mode {
        Some(Size { width: r.width, height: r.height })
    } else {
        None
    })
    &&& (if r.active && r.refresh_den > 0 {
        m.refresh_mhz is Some && m.refresh_mhz->0 == refresh_millihertz(r.refresh_num, r.refresh_den)
    } else {
        m.refresh_mhz is None
    })
    &&& m.rotation == (if r.active {
        Some(rotation_degrees(r.rotation))
    } else {
        None
    })
    &&& (if r.active && r.dpi > 0 {
        m.scale_percent is Some && m.scale_percent->0 == scale_of_dpi(r.dpi)
    } else {
        m.scale_percent is None
    })
    &&& m.primary == (has_mode && r.x == 0 && r.y == 0)
    &&& m.ddc_ci == ddc
    &&& m.input_source == (if ddc == DdcCi::Answered {
        r.input_source
    } else {
        None
    })
    &&& (match m.input_source {
        Some(code) => m.input_source_name is Some && m.input_source_name->0@
            == input_source::input_name(code),
        None => m.input_source_name is None,
    })
    &&& m.power_mode == (if ddc == DdcCi::Answered {
        r.power_mode
    } else {
        None
    })
    &&& m.asleep == (m.power_mode is Some && m.power_mode->0 != POWER_AWAKE)
}

/// The four DISPLAYCONFIG rotations read as four different angles, a quarter turn
/// apart: identity (1) is 0 degrees, then 90, 180 and 270 clockwise, so two Active
/// monitors turned differently never read as turned the same. Any other value reads as
/// unrotated, and a monitor that is not Active has no rotation.
pub proof fn lemma_rotation_quarter_turns(r1: ReportMonitor, m1: Monitor, r2: ReportMonitor, m2: Monitor)
    requires
        monitor_of_report(r1, m1),
        monitor_of_report(r2, m2),
    ensures
        !r1.active ==> m1.rotation is None,
        r1.active && 1 <= r1.rotation <= 4 ==> m1.rotation == Some(((r1.rotation - 1) * 90) as u32),
        r1.active && !(1 <= r1.rotation <= 4) ==> m1.rotation == Some(0u32),
        r1.active && r2.active && 1 <= r1.rotation <= 4 && 1 <= r2.rotation <= 4 && r1.rotation
            != r2.rotation ==> m1.rotation != m2.rotation,
{
}

fn string_from_trim(s: &String) -> (r: String)
    ensures
        r@ == trim(s@),
{
    string_of(&trim_str(s.as_str()))
}

/// One monitor as the report states it, with every derived field worked out.
pub fn monitor_from(r: &ReportMonitor) -> (m: Monitor)
    requires
        report_monitor_fits(*r),
    ensures
        monitor_of_report(*r, m),
{
    let state = if r.active {
        MonitorState::Active
    } else if r.available {
        MonitorState::Available
    } else {
        MonitorState::Absent
    };
    let connector = connector_name(r.output_technology, r.connector_instance);
    let friendly = trim_str(r.friendly_name.as_str());
    let reported_name = if friendly.len() == 0 {
        let mut o: Vec<char> = Vec::new();
        if is_internal(r.output_technology) {
            append_str(&mut o, "Built-in display");
        } else {
            append_str(&mut o, "Unnamed monitor");
        }
        string_of(&o)
    } else {
        string_of(&friendly)
    };
    let has_mode = r.active && r.has_mode;
    let position = if has_mode {
        Some(Point { x: r.x, y: r.y })
    } else {
        None
    };
    let size = if has_mode {
        Some(Size { width: r.width, height: r.height })
    } else {
        None
    };
    let refresh_mhz = if r.active && r.refresh_den > 0 {
        let num = r.refresh_num as u64;
        let den = r.refresh_den as u64;
        assert(num * 1000 <= 4294967295000) by (nonlinear_arith)
            requires
                num <= 4294967295,
        ;
        Some((num * 1000 + den / 2) / den)
    } else {
        None
    };
    let rotation = if r.active {
        Some(
            if r.rotation == 2 {
                90
            } else if r.rotation == 3 {
                180
            } else if r.rotation == 4 {
                270
            } else {
                0
            },
        )
    } else {
        None
    };
    let scale_percent = if r.active && r.dpi > 0 {
        Some((r.dpi * 100 + 48) / 96)
    } else {
        None
    };
    let ddc_ci = if r.active {
        DdcCi::from_probe(r.ddc_ci.as_str())
    } else {
        DdcCi::NotRead
    };
    let input_source = if ddc_ci == DdcCi::Answered {
        r.input_source
    } else {
        None
    };
    let input_source_name = match input_source {
        Some(code) => Some(input_source::name(code)),
        None => None,
    };
    let power_mode = if ddc_ci == DdcCi::Answered {
        r.power_mode
    } else {
        None
    };
    let asleep = match power_mode {
        Some(mode) => mode != POWER_AWAKE,
        None => false,
    };
    let gdi_name = if r.active && r.gdi_name.as_str().unicode_len() > 0 {
        Some(r.gdi_name.clone())
    } else {
        None
    };
    Monitor {
        device_path: r.device_path.clone(),
        reported_name,
        gpu: string_from_trim(&r.gpu_name),
        gpu_device_path: r.adapter_device_path.clone(),
        connector,
        gdi_name,
        state,
        position,
        size,
        refresh_mhz,
        rotation,
        scale_percent,
        primary: has_mode && r.x == 0 && r.y == 0,
        input_source,
        input_source_name,
        power_mode,
        asleep,
        ddc_ci,
    }
}


// ---------------------------------------------------------------------------------
// Reading order
// ---------------------------------------------------------------------------------

/// Active monitors first, then Available, then Absent.
pub open spec fn state_rank(s: MonitorState) -> int {
    match s {
        MonitorState::Active => 0,
        MonitorState::Available => 1,
        MonitorState::Absent => 2,
    }
}

pub open spec fn pos_x(m: Monitor) -> int {
    match m.position {
        Some(p) => p.x as int,
        None => 0,
    }
}

pub open spec fn pos_y(m: Monitor) -> int {
    match m.position {
        Some(p) => p.y as int,
        None => 0,
    }
}

/// `a` comes before `b` in reading order: by state, then top to bottom, then left to
/// right (a monitor without a position counts as the origin), then by name.
pub open spec fn reads_before(a: Monitor, b: Monitor) -> bool {
    if state_rank(a.state) != state_rank(b.state) {
        state_rank(a.state) < state_rank(b.state)
    } else if pos_y(a) != pos_y(b) {
        pos_y(a) < pos_y(b)
    } else if pos_x(a) != pos_x(b) {
        pos_x(a) < pos_x(b)
    } else {
        seq_lt(a.reported_name@, b.reported_name@)
    }
}

/// `a` and `b` tie in reading order.
pub open spec fn reads_level(a: Monitor, b: Monitor) -> bool {
    state_rank(a.state) == state_rank(b.state) && pos_y(a) == pos_y(b) && pos_x(a) == pos_x(b)
        && a.reported_name@ == b.reported_name@
}

/// `a`, which came from report entry `pa`, belongs before `b` from entry `pb`: earlier in
/// reading order, or tied and earlier in the report (the order is stable).
pub open spec fn placed_before(a: Monitor, pa: int, b: Monitor, pb: int) -> bool {
    reads_before(a, b) || (reads_level(a, b) && pa < pb)
}

/// `out` is the monitors of `reps`, one for each, in stable reading order: `p[k]` is the
/// report entry `out[k]` came from.
pub open spec fn stable_order(out: Seq<Monitor>, reps: Seq<ReportMonitor>, p: Seq<int>) -> bool {
    &&& out.len() == reps.len()
    &&& p.len() == reps.len()
    &&& forall|k: int|
        0 <= k < out.len() ==> 0 <= #[trigger] p[k] < reps.len() && monitor_of_report(
            reps[p[k]],
            out[k],
        )
    &&& forall|a: int, b: int| 0 <= a < b < out.len() ==> p[a] != p[b]
    &&& forall|a: int, b: int|
        0 <= a < b < out.len() ==> placed_before(out[a], p[a], out[b], p[b])
}

/// The monitors of `reps`, in stable reading order.
pub open spec fn in_reading_order(out: Seq<Monitor>, reps: Seq<ReportMonitor>) -> bool {
    exists|p: Seq<int>| stable_order(out, reps, p)
}

proof fn lemma_reads_total(a: Monitor, b: Monitor)
    ensures
        reads_before(a, b) || reads_before(b, a) || reads_level(a, b),
{
    lemma_seq_lt_total(a.reported_name@, b.reported_name@);
}

proof fn lemma_reads_before_or_level_trans(a: Monitor, b: Monitor, c: Monitor)
    requires
        reads_before(a, b) || reads_level(a, b),
        reads_before(b, c) || reads_level(b, c),
    ensures
        reads_before(a, c) || reads_level(a, c),
        reads_before(a, b) ==> reads_before(a, c),
        reads_before(b, c) ==> reads_before(a, c),
{
    if seq_lt(a.reported_name@, b.reported_name@) && seq_lt(
        b.reported_name@,
        c.reported_name@,
    ) {
        lemma_seq_lt_transitive(a.reported_name@, b.reported_name@, c.reported_name@);
    }
}

fn reads_before_exec(a: &Monitor, b: &Monitor) -> (r: bool)
    ensures
        r == reads_before(*a, *b),
{
    let ra: u8 = match a.state {
        MonitorState::Active => 0,
        MonitorState::Available => 1,
        MonitorState::Absent => 2,
    };
    let rb: u8 = match b.state {
        MonitorState::Active => 0,
        MonitorState::Available => 1,
        MonitorState::Absent => 2,
    };
    if ra != rb {
        return ra < rb;
    }
    let (ax, ay) = match a.position {
        Some(p) => (p.x, p.y),
        None => (0, 0),
    };
    let (bx, by) = match b.position {
        Some(p) => (p.x, p.y),
        None => (0, 0),
    };
    if ay != by {
        return ay < by;
    }
    if ax != bx {
        return ax < bx;
    }
    seq_lt_exec(&chars_of(a.reported_name.as_str()), &chars_of(b.reported_name.as_str()))
}

/// Every report entry as a monitor, in stable reading order.
pub fn monitors_in_reading_order(reps: &Vec<ReportMonitor>) -> (out: Vec<Monitor>)
    requires
        forall|k: int| 0 <= k < reps.len() ==> report_monitor_fits(#[trigger] reps[k]),
    ensures
        in_reading_order(out@, reps@),
{
    let mut out: Vec<Monitor> = Vec::new();
    let ghost mut p: Seq<int> = Seq::empty();
    let mut i: usize = 0;
    while i < reps.len()
        invariant
            i <= reps.len(),
            forall|k: int| 0 <= k < reps.len() ==> report_monitor_fits(#[trigger] reps[k]),
            out.len() == i,
            p.len() == i,
            forall|k: int|
                0 <= k < i ==> 0 <= #[trigger] p[k] < i && monitor_of_report(reps@[p[k]], out@[k]),
            forall|a: int, b: int| 0 <= a < b < i ==> p[a] != p[b],
            forall|a: int, b: int|
                0 <= a < b < i ==> placed_before(out@[a], p[a], out@[b], p[b]),
        decreases reps.len() - i,
    {
        let m = monitor_from(&reps[i]);
        let mut j = out.len();
        while j > 0 && reads_before_exec(&m, &out[j - 1])
            invariant
                j <= out.len(),
                forall|b: int| j <= b < out.len() ==> reads_before(m, #[trigger] out@[b]),
            decreases j,
        {
            j = j - 1;
        }
        let ghost old_out = out@;
        let ghost old_p = p;
        proof {
            if j > 0 {
                lemma_reads_total(m, old_out[j - 1]);
            }
        }
        out.insert(j, m);
        proof {
            p = old_p.insert(j as int, i as int);
            assert forall|k: int| 0 <= k < i + 1 implies 0 <= #[trigger] p[k] < i + 1
                && monitor_of_report(reps@[p[k]], out@[k]) by {
                if k < j {
                    assert(p[k] == old_p[k]);
                } else if k > j {
                    assert(p[k] == old_p[k - 1]);
                }
            }
            assert forall|a: int, b: int| 0 <= a < b < i + 1 implies p[a] != p[b] by {
                if b < j {
                } else if a > j {
                } else if a == j {
                    assert(old_p[b - 1] < i);
                } else if b == j {
                    assert(old_p[a] < i);
                } else {
                }
            }
            assert forall|a: int, b: int| 0 <= a < b < i + 1 implies placed_before(
                out@[a],
                p[a],
                out@[b],
                p[b],
            ) by {
                if b < j {
                    assert(out@[a] == old_out[a] && out@[b] == old_out[b]);
                } else if a > j {
                    assert(out@[a] == old_out[a - 1] && out@[b] == old_out[b - 1]);
                    assert(placed_before(old_out[a - 1], old_p[a - 1], old_out[b - 1], old_p[b - 1]));
                } else if a == j {
                    assert(out@[b] == old_out[b - 1]);
                    assert(reads_before(m, old_out[b - 1]));
                } else if b == j {
                    assert(out@[a] == old_out[a]);
                    assert(old_p[a] < i);
                    // `m` does not read before `old_out[j - 1]`, so it follows or ties it.
                    assert(reads_before(old_out[j - 1], m) || reads_level(old_out[j - 1], m));
                    if a < j - 1 {
                        assert(placed_before(old_out[a], old_p[a], old_out[j - 1], old_p[j - 1]));
                        lemma_reads_before_or_level_trans(old_out[a], old_out[j - 1], m);
                    }
                } else {
                    assert(out@[a] == old_out[a] && out@[b] == old_out[b - 1]);
                    assert(placed_before(old_out[a], old_p[a], old_out[b - 1], old_p[b - 1]));
                }
            }
        }
        i = i + 1;
    }
    assert(stable_order(out@, reps@, p));
    out
}

/// Turns the probe's report into an [`Inventory`]: every entry as a monitor with its
/// derived fields, Active ones first in reading order.
pub fn inventory_from_report(report: ProbeReport) -> (inv: Inventory)
    requires
        forall|k: int|
            0 <= k < report.monitors.len() ==> report_monitor_fits(#[trigger] report.monitors[k]),
    ensures
        inv.probed_at == report.probed_at,
        inv.arrangement == report.arrangement,
        in_reading_order(inv.monitors@, report.monitors@),
{
    let monitors = monitors_in_reading_order(&report.monitors);
    Inventory { probed_at: report.probed_at, monitors, arrangement: report.arrangement }
}

/// `s` without every byte-order mark at its start.
pub open spec fn without_boms(s: Seq<char>) -> Seq<char>
    decreases s.len(),
{
    if s.len() > 0 && s[0] == '\u{feff}' {
        without_boms(s.drop_first())
    } else {
        s
    }
}

/// The probe's JSON text without the byte-order marks an editor or a console may have
/// put before it.
pub fn strip_boms(json: &str) -> (r: String)
    ensures
        r@ == without_boms(json@),
{
    let v = chars_of(json);
    let mut i: usize = 0;
    assert(v@.skip(0) == v@);
    while i < v.len() && v[i] == '\u{feff}'
        invariant
            i <= v.len(),
            without_boms(json@) == without_boms(v@.skip(i as int)),
            v@ == json@,
        decreases v.len() - i,
    {
        assert(v@.skip(i as int).drop_first() == v@.skip(i + 1));
        i = i + 1;
    }
    assert(v@.skip(i as int) == v@.subrange(i as int, v.len() as int));
    string_of(&slice_of(&v, i, v.len()))
}

/// A probe run that did not exit with 0 is `ProbeFailed`, with its exit code and its
/// standard error trimmed; the caller adds the log it wrote.
pub fn probe_failure(output: &ScriptOutput) -> (r: Option<AppError>)
    ensures
        output.exit_code == 0 ==> r is None,
        output.exit_code != 0 ==> (r matches Some(AppError::ProbeFailed { exit_code, stderr, log_path })
            && exit_code == output.exit_code && stderr@ == trim(output.stderr@) && log_path is None),
{
    if output.succeeded() {
        return None;
    }
    Some(
        AppError::ProbeFailed {
            exit_code: output.exit_code,
            stderr: string_of(&trim_str(output.stderr.as_str())),
            log_path: None,
        },
    )
}

} // verus!
