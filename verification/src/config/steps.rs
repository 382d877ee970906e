//! Steps: what a layout runs around Apply arrangement, their bounds, and the one
//! sentence each reads as.

use vstd::prelude::*;
use crate::config::layouts::{label_of, monitor_labels, SummaryMonitor};
use crate::error::AppError;
use crate::hardware::input_source::{input_name, name};
use crate::text::{append_str, chars_of, dec, hex_padded, push_dec, push_hex_padded, same_chars, string_of, trim, trim_str};

verus! {

/// One ordered action inside a switch.
#[derive(Debug, Clone, PartialEq, Eq)]
pub struct Step {
    /// Stable for the life of the step, so the editor can track rows.
    pub id: String,
    pub side: StepSide,
    pub kind: StepKind,
}

/// Which side of Apply arrangement a step runs on.
#[derive(Debug, Clone, Copy, PartialEq, Eq, Structural)]
pub enum StepSide {
    Before,
    After,
}

/// What a step does.
#[derive(Debug, Clone, PartialEq, Eq)]
pub enum StepKind {
    /// Wait a number of seconds, for a dock or a monitor to settle.
    Wait { seconds: u32 },
    /// Send a monitor to an input source over DDC-CI, then follow the wait rule.
    SendInput {
        /// The monitor, by device path; any monitor the layout knows.
        device_path: String,
        /// The VCP code 0x60 value, from the fixed table or typed as another code.
        input_source: u32,
        wait: WaitRule,
    },
}

/// What a send step waits for after sending.
#[derive(Debug, Clone, Copy, PartialEq, Eq, Structural)]
pub enum WaitRule {
    NoWait,
    /// Until the monitor reports the new input over DDC-CI or stops being Available, up
    /// to the layout's drop wait.
    Drop,
    /// Until the monitor is Available again, up to the layout's Available wait.
    Available,
}

/// What a switch does when the arrangement apply fails.
#[derive(Debug, Clone, Copy, PartialEq, Eq, Structural)]
pub enum ApplyFailure {
    Stop,
    Extend,
}


pub const DEFAULT_DROP_WAIT_SECONDS: u32 = 5;

pub const DEFAULT_AVAILABLE_WAIT_SECONDS: u32 = 120;

pub const WAIT_SECONDS_MAX: u32 = 600;

pub const DROP_WAIT_SECONDS_MAX: u32 = 60;

pub const AVAILABLE_WAIT_SECONDS_MAX: u32 = 600;

/// The largest VCP code 0x60 value a monitor can hold.
pub const INPUT_SOURCE_MAX: u32 = 0xFF;

/// What a save from the layout editor changes: the steps, the timings and the fallback.
#[derive(Debug, Clone, PartialEq, Eq)]
pub struct LayoutEdits {
    pub steps: Vec<Step>,
    pub drop_wait_seconds: u32,
    pub available_wait_seconds: u32,
    pub on_apply_failure: ApplyFailure,
}

// ---------------------------------------------------------------------------------
// Bounds
// ---------------------------------------------------------------------------------

/// Why step `k` cannot be saved, given the steps before it: a blank or repeated id, a
/// wait outside 1 to 600 s, a send without a monitor, or a code a monitor cannot hold.
pub open spec fn step_problem(steps: Seq<Step>, k: int) -> Option<Seq<char>> {
    let step = steps[k];
    if trim(step.id@).len() == 0 || exists|j: int| 0 <= j < k && (#[trigger] steps[j]).id@ == step.id@ {
        Some("Every step needs its own id."@)
    } else {
        match step.kind {
            StepKind::Wait { seconds } => if seconds == 0 || seconds > WAIT_SECONDS_MAX {
                Some(
                    "Keep a wait step between 1 and "@ + dec(WAIT_SECONDS_MAX as int)
                        + " seconds."@,
                )
            } else {
                None
            },
            StepKind::SendInput { device_path, input_source, .. } => if trim(device_path@).len()
                == 0 {
                Some("Pick a monitor for the send step."@)
            } else if input_source == 0 || input_source > INPUT_SOURCE_MAX {
                Some(
                    "Keep the input source code between 0x01 and 0x"@ + hex_padded(
                        INPUT_SOURCE_MAX as nat,
                        2,
                    ) + "."@,
                )
            } else {
                None
            },
        }
    }
}

/// The first problem among the first `n` steps.
pub open spec fn steps_problem(steps: Seq<Step>, n: int) -> Option<Seq<char>>
    decreases n,
{
    if n <= 0 {
        None
    } else {
        match steps_problem(steps, n - 1) {
            Some(p) => Some(p),
            None => step_problem(steps, n - 1),
        }
    }
}

/// Why a save is refused: the first step's problem, else a drop wait over 60 s, else an
/// Available wait outside 1 to 600 s; nothing when the edits are within bounds.
pub open spec fn edits_problem(edits: LayoutEdits) -> Option<Seq<char>> {
    match steps_problem(edits.steps@, edits.steps@.len() as int) {
        Some(p) => Some(p),
        None => if edits.drop_wait_seconds > DROP_WAIT_SECONDS_MAX {
            Some(
                "Keep the drop wait between 0 and "@ + dec(DROP_WAIT_SECONDS_MAX as int)
                    + " seconds."@,
            )
        } else if edits.available_wait_seconds == 0 || edits.available_wait_seconds
            > AVAILABLE_WAIT_SECONDS_MAX {
            Some(
                "Keep the Available wait between 1 and "@ + dec(AVAILABLE_WAIT_SECONDS_MAX as int)
                    + " seconds."@,
            )
        } else {
            None
        },
    }
}

fn step_problem_exec(steps: &Vec<Step>, k: usize) -> (r: Option<Vec<char>>)
    requires
        k < steps.len(),
    ensures
        match r {
            Some(p) => step_problem(steps@, k as int) == Some(p@),
            None => step_problem(steps@, k as int) is None,
        },
{
    let step = &steps[k];
    let id = chars_of(step.id.as_str());
    let mut repeated = false;
    let mut j: usize = 0;
    while j < k
        invariant
            j <= k < steps.len(),
            id@ == steps@[k as int].id@,
            repeated == exists|q: int| 0 <= q < j && (#[trigger] steps@[q]).id@ == steps@[k as int].id@,
        decreases k - j,
    {
        if same_chars(&chars_of(steps[j].id.as_str()), &id) {
            repeated = true;
        }
        j = j + 1;
    }
    let mut o: Vec<char> = Vec::new();
    if trim_str(step.id.as_str()).len() == 0 || repeated {
        append_str(&mut o, "Every step needs its own id.");
        return Some(o);
    }
    match &step.kind {
        StepKind::Wait { seconds } => {
            if *seconds == 0 || *seconds > WAIT_SECONDS_MAX {
                append_str(&mut o, "Keep a wait step between 1 and ");
                push_dec(&mut o, WAIT_SECONDS_MAX as u64);
                append_str(&mut o, " seconds.");
                return Some(o);
            }
            None
        },
        StepKind::SendInput { device_path, input_source, .. } => {
            if trim_str(device_path.as_str()).len() == 0 {
                append_str(&mut o, "Pick a monitor for the send step.");
                return Some(o);
            }
            if *input_source == 0 || *input_source > INPUT_SOURCE_MAX {
                append_str(&mut o, "Keep the input source code between 0x01 and 0x");
                push_hex_padded(&mut o, INPUT_SOURCE_MAX as u64, 2);
                append_str(&mut o, ".");
                return Some(o);
            }
            None
        },
    }
}

/// The bounds a save must respect: a wait step is 1 to 600 s, the drop wait 0 to 60 s,
/// the Available wait 1 to 600 s, step ids are unique and not blank, and a send step
/// names a monitor and a code from 0x01 to 0xFF.
pub fn validate_edits(edits: &LayoutEdits) -> (r: Result<(), AppError>)
    ensures
        match (r, edits_problem(*edits)) {
            (Ok(()), None) => true,
            (Err(AppError::InvalidLayoutEdit { reason }), Some(p)) => reason@ == p,
            _ => false,
        },
{
    let mut i: usize = 0;
    while i < edits.steps.len()
        invariant
            i <= edits.steps.len(),
            steps_problem(edits.steps@, i as int) is None,
        decreases edits.steps.len() - i,
    {
        match step_problem_exec(&edits.steps, i) {
            Some(p) => {
                proof {
                    lemma_steps_problem_stays(edits.steps@, (i + 1) as int, edits.steps@.len() as int);
                }
                return Err(AppError::InvalidLayoutEdit { reason: string_of(&p) });
            },
            None => {},
        }
        i = i + 1;
    }
    let mut o: Vec<char> = Vec::new();
    if edits.drop_wait_seconds > DROP_WAIT_SECONDS_MAX {
        append_str(&mut o, "Keep the drop wait between 0 and ");
        push_dec(&mut o, DROP_WAIT_SECONDS_MAX as u64);
        append_str(&mut o, " seconds.");
        return Err(AppError::InvalidLayoutEdit { reason: string_of(&o) });
    }
    if edits.available_wait_seconds == 0 || edits.available_wait_seconds > AVAILABLE_WAIT_SECONDS_MAX {
        append_str(&mut o, "Keep the Available wait between 1 and ");
        push_dec(&mut o, AVAILABLE_WAIT_SECONDS_MAX as u64);
        append_str(&mut o, " seconds.");
        return Err(AppError::InvalidLayoutEdit { reason: string_of(&o) });
    }
    Ok(())
}

/// Once a problem is found among the first `a` steps, it stays the first problem.
proof fn lemma_steps_problem_stays(steps: Seq<Step>, a: int, b: int)
    requires
        0 <= a <= b,
        steps_problem(steps, a) is Some,
    ensures
        steps_problem(steps, b) == steps_problem(steps, a),
    decreases b - a,
{
    if a < b {
        lemma_steps_problem_stays(steps, a, b - 1);
    }
}

// ---------------------------------------------------------------------------------
// Sentences
// ---------------------------------------------------------------------------------

/// The label for a step's monitor the layout does not know.
pub const UNKNOWN_MONITOR: &'static str = "unknown monitor";

/// "Wait 3 seconds", "Wait 1 second".
pub open spec fn wait_sentence(seconds: u32) -> Seq<char> {
    "Wait "@ + dec(seconds as int) + " "@ + (if seconds == 1 {
        "second"@
    } else {
        "seconds"@
    })
}

/// "Send HDMI 1 to Ultrawide", with the wait rule after a comma.
pub open spec fn send_sentence(monitor: Seq<char>, code: u32, wait: WaitRule) -> Seq<char> {
    let input = input_name(code);
    "Send "@ + input + " to "@ + monitor + match wait {
        WaitRule::NoWait => Seq::empty(),
        WaitRule::Drop => ", then wait until "@ + monitor + " shows "@ + input + " or drops"@,
        WaitRule::Available => ", then wait until "@ + monitor + " is Available"@,
    }
}

/// The step as one sentence, the same one the editor row and the script print. `label`
/// names a monitor by device path; a send step's sentence uses the label `label` gives
/// for its monitor.
pub fn step_sentence<F: Fn(&str) -> String>(step: &Step, label: &F) -> (r: String)
    requires
        forall|p: &str| label.requires((p,)),
    ensures
        match step.kind {
            StepKind::Wait { seconds } => r@ == wait_sentence(seconds),
            StepKind::SendInput { device_path, input_source, wait } => exists|p: &str, l: String|
                p@ == device_path@ && label.ensures((p,), l) && r@ == send_sentence(
                    l@,
                    input_source,
                    wait,
                ),
        },
{
    let mut o: Vec<char> = Vec::new();
    match &step.kind {
        StepKind::Wait { seconds } => {
            append_str(&mut o, "Wait ");
            push_dec(&mut o, *seconds as u64);
            append_str(&mut o, " ");
            if *seconds == 1 {
                append_str(&mut o, "second");
            } else {
                append_str(&mut o, "seconds");
            }
        },
        StepKind::SendInput { device_path, input_source, wait } => {
            let p = device_path.as_str();
            let monitor = label(p);
            let input = name(*input_source);
            append_str(&mut o, "Send ");
            append_str(&mut o, input.as_str());
            append_str(&mut o, " to ");
            append_str(&mut o, monitor.as_str());
            let ghost head = o@;
            match wait {
                WaitRule::NoWait => {
                    assert(o@ == head + Seq::<char>::empty());
                },
                WaitRule::Drop => {
                    append_str(&mut o, ", then wait until ");
                    append_str(&mut o, monitor.as_str());
                    append_str(&mut o, " shows ");
                    append_str(&mut o, input.as_str());
                    append_str(&mut o, " or drops");
                    assert(o@ =~= head + (", then wait until "@ + monitor@ + " shows "@ + input@
                        + " or drops"@));
                },
                WaitRule::Available => {
                    append_str(&mut o, ", then wait until ");
                    append_str(&mut o, monitor.as_str());
                    append_str(&mut o, " is Available");
                    assert(o@ =~= head + (", then wait until "@ + monitor@ + " is Available"@));
                },
            }
            assert(o@ == send_sentence(monitor@, *input_source, *wait));
        },
    }
    string_of(&o)
}

/// The label rule for a step's monitor: the layout's label for a monitor it knows, by
/// device path.
#[derive(Debug, Clone, PartialEq, Eq)]
pub struct StepLabeller {
    /// Each known monitor's device path with its label, in summary order.
    pub labels: Vec<(String, String)>,
}

/// The label the labeller gives `path`: the first entry with that device path, else
/// "unknown monitor".
pub open spec fn labeller_label(labels: Seq<(String, String)>, path: Seq<char>) -> Seq<char>
    decreases labels.len(),
{
    if labels.len() == 0 {
        UNKNOWN_MONITOR@
    } else if labels[0].0@ == path {
        labels[0].1@
    } else {
        labeller_label(labels.drop_first(), path)
    }
}

/// The labeller for a layout: each monitor of its summary under the one label rule.
pub fn step_labeller(aliases: &Vec<(String, String)>, monitors: &Vec<SummaryMonitor>) -> (r: StepLabeller)
    ensures
        r.labels.len() == monitors.len(),
        forall|k: int|
            0 <= k < monitors.len() ==> (#[trigger] r.labels[k]).0@ == monitors[k].device_path@
                && r.labels[k].1@ == label_of(aliases@, monitors@, k),
{
    let names = monitor_labels(aliases, monitors);
    let mut labels: Vec<(String, String)> = Vec::new();
    let mut i: usize = 0;
    while i < monitors.len()
        invariant
            i <= monitors.len(),
            names.len() == monitors.len(),
            forall|k: int| 0 <= k < names.len() ==> (#[trigger] names[k])@ == label_of(aliases@, monitors@, k),
            labels.len() == i,
            forall|k: int|
                0 <= k < i ==> (#[trigger] labels[k]).0@ == monitors[k].device_path@
                    && labels[k].1@ == label_of(aliases@, monitors@, k),
        decreases monitors.len() - i,
    {
        labels.push((monitors[i].device_path.clone(), names[i].clone()));
        i = i + 1;
    }
    StepLabeller { labels }
}

impl StepLabeller {
    /// The label for a monitor by device path: the layout's label, or "unknown monitor".
    pub fn label(&self, device_path: &str) -> (r: String)
        ensures
            r@ == labeller_label(self.labels@, device_path@),
    {
        let p = chars_of(device_path);
        let mut i: usize = 0;
        assert(self.labels@.skip(0) == self.labels@);
        while i < self.labels.len()
            invariant
                i <= self.labels.len(),
                p@ == device_path@,
                labeller_label(self.labels@, device_path@) == labeller_label(
                    self.labels@.skip(i as int),
                    device_path@,
                ),
            decreases self.labels.len() - i,
        {
            assert(self.labels@.skip(i as int).drop_first() == self.labels@.skip(i + 1));
            assert(self.labels@.skip(i as int)[0] == self.labels@[i as int]);
            if same_chars(&chars_of(self.labels[i].0.as_str()), &p) {
                return self.labels[i].1.clone();
            }
            i = i + 1;
        }
        UNKNOWN_MONITOR.to_string()
    }
}

} // verus!
