//! A switch from the app, as decisions: whether one may start, what each line the
//! script prints becomes, whether a cancel is still allowed, and how the switch ended.
//! The caller runs the script and hands each line in; one switch runs at a time.
//! Cancel kills the script until the Apply arrangement step reports; after that the
//! arrangement is changing under Windows and the switch has to finish.

use vstd::prelude::*;
use crate::config::layouts::{label_of, monitor_labels, SummaryMonitor};
use crate::config::verify::{live_exec, live_of, views};
use crate::error::AppError;
use crate::hardware::{Inventory, Monitor, MonitorState};
use crate::script::lock::LockHolder;
use crate::script::progress::{
    failure_parts_of, parse_progress_line, progress_of, FailureParts, ProgressLine, StepStatus,
};
use crate::script::render::{row_views, Timeline, ABSENT_REASON_PREFIX, EXTENDED_REASON_PREFIX};
use crate::text::{
    append_str, chars_of, dec, eq_ignore_ascii_case, slice_of, split_all, split_all_exec, push_dec_i64, starts_with, string_of, trim, trim_vec,
};

verus! {

/// What the app tells the window while a switch runs.
#[derive(Debug, Clone, PartialEq, Eq)]
pub enum SwitchEvent {
    /// The script is running: the checks passed and the progress screen can open.
    Started {
        layout_id: String,
        /// The rows in order, so the screen lists them before any reports.
        steps: Vec<String>,
        /// The one-based row from which Cancel is disabled.
        apply_step: u32,
    },
    Progress { line: ProgressLine },
    Log { text: String },
}

/// How a switch ended.
#[derive(Debug, Clone, PartialEq, Eq)]
pub enum SwitchResult {
    /// Verify passed. `duration_ms` is the time from launch to exit.
    Applied { duration_ms: u32 },
    /// The script stopped short. The next action comes first, as the script printed it.
    Failed {
        /// The one-based row that failed, or nothing when the script stopped before or
        /// outside a row.
        step: Option<u32>,
        step_name: String,
        next_action: String,
        reason: String,
        exit_code: i32,
        /// The switch log in the layout folder.
        log_path: String,
        /// What the app adds from its own probe.
        explanation: FailureExplanation,
    },
    Cancelled,
}

/// What the app can say of a failed switch beyond the script's reason.
#[derive(Debug, Clone, PartialEq, Eq)]
pub enum FailureExplanation {
    /// The check row failed with monitors not connected, each by label: those the layout
    /// turns on and the latest probe lacks, in summary order, or, where the probe names
    /// none, those the script's own check named.
    Absent { monitors: Vec<String> },
    /// The apply failed and the fallback landed: Windows Extend was applied instead, so
    /// every monitor shows the desktop but not in this layout's arrangement.
    ExtendApplied,
    /// The reason is all there is to say.
    ReasonOnly,
}

/// The switch the app is running right now, and what its lines have said so far.
#[derive(Debug, Clone, PartialEq, Eq)]
pub struct SwitchRun {
    pub layout_name: String,
    /// The row of Apply arrangement.
    pub apply_step: u32,
    /// Set once a row at or after Apply arrangement reports, after which Cancel is refused.
    pub apply_started: bool,
    pub cancelled: bool,
    /// The last failed progress line.
    pub last_failed: Option<ProgressLine>,
    /// The last log line that says something: not blank and not the exit code line.
    pub last_log: String,
}

/// The prefix of the line a script prints as it exits.
pub const EXIT_CODE_PREFIX: &'static str = "Exit code ";

/// The next action when a script stopped outside a row and printed nothing to explain.
pub const OPEN_THE_LOG: &'static str = "Open the log, then try the switch again";

fn copy_line(line: &ProgressLine) -> (r: ProgressLine)
    ensures
        r == *line,
{
    ProgressLine { step: line.step, of: line.of, status: line.status, text: line.text.clone() }
}

/// Refuses a start while a switch runs: `SwitchRunning` naming the app's own switch
/// first, else `SwitchLocked` naming the lock's holder and the lock file.
pub fn refusal(running: &Option<SwitchRun>, lock: &Option<LockHolder>, lock_path: &str) -> (r: Option<AppError>)
    ensures
        match (running, lock) {
            (Some(run), _) => r matches Some(AppError::SwitchRunning { layout }) && layout@
                == run.layout_name@,
            (None, Some(holder)) => r matches Some(AppError::SwitchLocked { layout, path })
                && layout@ == (match holder.layout {
                Some(l) => l@,
                None => "another layout"@,
            }) && path@ == lock_path@,
            (None, None) => r is None,
        },
{
    match running {
        Some(run) => Some(AppError::SwitchRunning { layout: run.layout_name.clone() }),
        None => match lock {
            Some(holder) => Some(
                AppError::SwitchLocked {
                    layout: holder.layout_name(),
                    path: string_of(&chars_of(lock_path)),
                },
            ),
            None => None,
        },
    }
}

/// Whether a log line says something worth quoting: not blank, and not the exit code
/// line the script ends with.
pub open spec fn telling(text: Seq<char>) -> bool {
    trim(text).len() > 0 && !(EXIT_CODE_PREFIX@.len() <= text.len() && text.take(
        EXIT_CODE_PREFIX@.len() as int,
    ) == EXIT_CODE_PREFIX@)
}

/// A progress line at or after the apply row: from it on the arrangement is changing.
pub open spec fn reaches_apply(text: Seq<char>, apply_step: u32) -> bool {
    match progress_of(text) {
        Some((step, of, status, t)) => step >= apply_step,
        None => false,
    }
}

/// `after` is the switch `before` once it observed the line `text`: the same layout and
/// apply row, the same cancel, and the apply started once a line reaches the apply row.
pub open spec fn observed(before: SwitchRun, text: Seq<char>, after: SwitchRun) -> bool {
    &&& after.layout_name == before.layout_name
    &&& after.apply_step == before.apply_step
    &&& after.cancelled == before.cancelled
    &&& after.apply_started == (before.apply_started || reaches_apply(text, before.apply_step))
}

/// The window for a cancel: after a switch that had not reached the apply observed the
/// lines in order, the apply has started (and a cancel is refused) exactly when one of
/// the lines reached the apply row; a cancel recorded before stays recorded, so a
/// script that then exits with anything but 0 ends cancelled.
pub proof fn lemma_cancel_window(runs: Seq<SwitchRun>, lines: Seq<Seq<char>>)
    requires
        runs.len() == lines.len() + 1,
        !runs[0].apply_started,
        forall|i: int| 0 <= i < lines.len() ==> observed(#[trigger] runs[i], lines[i], runs[i + 1]),
    ensures
        runs.last().apply_started == exists|i: int|
            0 <= i < lines.len() && reaches_apply(#[trigger] lines[i], runs[0].apply_step),
        runs.last().cancelled == runs[0].cancelled,
        runs.last().layout_name == runs[0].layout_name,
        runs.last().apply_step == runs[0].apply_step,
    decreases lines.len(),
{
    if lines.len() > 0 {
        let n = lines.len() - 1;
        let front = runs.drop_last();
        let first = lines.drop_last();
        assert forall|i: int| 0 <= i < first.len() implies observed(#[trigger] front[i], first[i], front[i + 1]) by {
            assert(observed(runs[i], lines[i], runs[i + 1]));
        }
        lemma_cancel_window(front, first);
        assert(observed(runs[n], lines[n], runs[n + 1]));
        assert(front.last() == runs[n]);
        if exists|i: int| 0 <= i < lines.len() && reaches_apply(#[trigger] lines[i], runs[0].apply_step) {
            let i = choose|i: int| 0 <= i < lines.len() && reaches_apply(#[trigger] lines[i], runs[0].apply_step);
            if i < n {
                assert(first[i] == lines[i]);
            }
        }
        if exists|i: int| 0 <= i < first.len() && reaches_apply(#[trigger] first[i], runs[0].apply_step) {
            let i = choose|i: int| 0 <= i < first.len() && reaches_apply(#[trigger] first[i], runs[0].apply_step);
            assert(lines[i] == first[i]);
        }
    }
}

impl SwitchRun {
    /// A switch that has just started, before any line.
    pub fn new(layout_name: String, apply_step: u32) -> (r: SwitchRun)
        ensures
            r.layout_name == layout_name,
            r.apply_step == apply_step,
            !r.apply_started,
            !r.cancelled,
            r.last_failed is None,
            r.last_log@ == Seq::<char>::empty(),
    {
        SwitchRun {
            layout_name,
            apply_step,
            apply_started: false,
            cancelled: false,
            last_failed: None,
            last_log: String::new(),
        }
    }

    /// One line the script printed, and the event it becomes: a progress line is a
    /// progress event, and one at or after the apply row disables Cancel from then on;
    /// every other line is a log event.
    pub fn observe(&mut self, text: String) -> (e: SwitchEvent)
        ensures
            observed(*old(self), text@, *final(self)),
            final(self).layout_name == old(self).layout_name,
            final(self).apply_step == old(self).apply_step,
            final(self).cancelled == old(self).cancelled,
            match progress_of(text@) {
                Some((step, of, status, t)) => {
                    &&& e matches SwitchEvent::Progress { line } && line.step == step && line.of
                        == of && line.status == status && line.text@ == t
                    &&& final(self).apply_started == (old(self).apply_started || step
                        >= old(self).apply_step)
                    &&& final(self).last_failed == (if status == StepStatus::Failed {
                        Some(e->line)
                    } else {
                        old(self).last_failed
                    })
                    &&& final(self).last_log == old(self).last_log
                },
                None => {
                    &&& e == (SwitchEvent::Log { text })
                    &&& final(self).apply_started == old(self).apply_started
                    &&& final(self).last_failed == old(self).last_failed
                    &&& final(self).last_log@ == (if telling(text@) {
                        text@
                    } else {
                        old(self).last_log@
                    })
                },
            },
    {
        match parse_progress_line(text.as_str()) {
            Some(line) => {
                if line.step >= self.apply_step {
                    self.apply_started = true;
                }
                if line.status == StepStatus::Failed {
                    self.last_failed = Some(copy_line(&line));
                }
                SwitchEvent::Progress { line }
            },
            None => {
                let t = chars_of(text.as_str());
                if trim_vec(&t).len() > 0 && !starts_with(&t, &chars_of(EXIT_CODE_PREFIX)) {
                    self.last_log = string_of(&t);
                }
                SwitchEvent::Log { text }
            },
        }
    }

    /// A cancel: refused once the apply row has reported, else recorded so the ending
    /// reads as cancelled. The caller kills the script when this returns `Ok`.
    pub fn request_cancel(&mut self) -> (r: Result<(), AppError>)
        ensures
            final(self).layout_name == old(self).layout_name,
            final(self).apply_step == old(self).apply_step,
            final(self).apply_started == old(self).apply_started,
            final(self).last_failed == old(self).last_failed,
            final(self).last_log == old(self).last_log,
            old(self).apply_started ==> (r matches Err(AppError::CancelTooLate { layout }) && layout
                == old(self).layout_name && final(self).cancelled == old(self).cancelled),
            !old(self).apply_started ==> (r is Ok && final(self).cancelled),
    {
        if self.apply_started {
            return Err(AppError::CancelTooLate { layout: self.layout_name.clone() });
        }
        self.cancelled = true;
        Ok(())
    }

    /// How the switch ended once the script exited with `exit_code`. A kill that lands
    /// after the script exited with 0 changed nothing: the arrangement applied and
    /// verified, and the result says so.
    /// `absent` is what [`absent_monitors`] found for the layout.
    pub fn finish(&self, exit_code: i32, duration_ms: u32, log_path: &str, absent: Vec<String>) -> (r: SwitchResult)
        ensures
            exit_code == 0 ==> r == (SwitchResult::Applied { duration_ms }),
            exit_code != 0 && self.cancelled ==> r == SwitchResult::Cancelled,
            exit_code != 0 && !self.cancelled ==> failed_as(
                r,
                exit_code,
                self.last_failed,
                self.last_log@,
                log_path@,
                views(absent@),
            ),
    {
        if exit_code == 0 {
            return SwitchResult::Applied { duration_ms };
        }
        if self.cancelled {
            return SwitchResult::Cancelled;
        }
        failure(exit_code, &self.last_failed, self.last_log.as_str(), log_path, absent)
    }
}

/// The probe does not show the monitor connected: it lists no monitor with the path,
/// compared without regard to ASCII case, or lists it Absent.
pub open spec fn missing_from(inventory: Inventory, path: Seq<char>) -> bool {
    match live_of(inventory.monitors@, path) {
        Some(m) => m.state == MonitorState::Absent,
        None => true,
    }
}

/// The labels, in order, of those among the first `n` monitors that the layout turns on
/// and the probe lacks.
pub open spec fn absent_labels(
    aliases: Seq<(String, String)>,
    monitors: Seq<SummaryMonitor>,
    inventory: Inventory,
    n: int,
) -> Seq<Seq<char>>
    decreases n,
{
    if n <= 0 {
        Seq::empty()
    } else {
        let before = absent_labels(aliases, monitors, inventory, n - 1);
        if monitors[n - 1].on && missing_from(inventory, monitors[n - 1].device_path@) {
            before.push(label_of(aliases, monitors, n - 1))
        } else {
            before
        }
    }
}

/// The on monitors of a layout that the latest probe lacks, by label; none without a probe.
pub open spec fn absent_on_monitors(
    aliases: Seq<(String, String)>,
    monitors: Seq<SummaryMonitor>,
    probe: Option<Inventory>,
) -> Seq<Seq<char>> {
    match probe {
        Some(inventory) => absent_labels(aliases, monitors, inventory, monitors.len() as int),
        None => Seq::empty(),
    }
}

/// The label of every monitor of the layout that is on and that the latest probe does
/// not show connected, in summary order; empty when there is no probe.
pub fn absent_monitors(
    aliases: &Vec<(String, String)>,
    monitors: &Vec<SummaryMonitor>,
    probe: Option<&Inventory>,
) -> (r: Vec<String>)
    ensures
        views(r@) == absent_on_monitors(
            aliases@,
            monitors@,
            match probe {
                Some(i) => Some(*i),
                None => None,
            },
        ),
{
    let mut r: Vec<String> = Vec::new();
    let inventory = match probe {
        Some(i) => i,
        None => {
            assert(views(r@) =~= Seq::<Seq<char>>::empty());
            return r;
        },
    };
    let labels = monitor_labels(aliases, monitors);
    let mut i: usize = 0;
    while i < monitors.len()
        invariant
            i <= monitors.len(),
            labels.len() == monitors.len(),
            forall|k: int| 0 <= k < labels.len() ==> (#[trigger] labels[k])@ == label_of(aliases@, monitors@, k),
            views(r@) == absent_labels(aliases@, monitors@, *inventory, i as int),
        decreases monitors.len() - i,
    {
        let m = &monitors[i];
        let missing = match live_exec(&inventory.monitors, &m.device_path) {
            Some(k) => inventory.monitors[k].state == MonitorState::Absent,
            None => true,
        };
        let ghost before = views(r@);
        if m.on && missing {
            r.push(labels[i].clone());
            assert(views(r@) =~= before.push(label_of(aliases@, monitors@, i as int)));
        }
        i = i + 1;
    }
    r
}

proof fn lemma_no_live_match(ms: Seq<Monitor>, path: Seq<char>)
    requires
        forall|j: int| 0 <= j < ms.len() ==> !eq_ignore_ascii_case(#[trigger] ms[j].device_path@, path),
    ensures
        live_of(ms, path) is None,
    decreases ms.len(),
{
    if ms.len() > 0 {
        let rest = ms.drop_first();
        assert forall|j: int| 0 <= j < rest.len() implies !eq_ignore_ascii_case(#[trigger] rest[j].device_path@, path) by {
            assert(rest[j] == ms[j + 1]);
        }
        assert(!eq_ignore_ascii_case(ms[0].device_path@, path));
        lemma_no_live_match(rest, path);
    }
}

proof fn lemma_foreign_prefix(
    aliases: Seq<(String, String)>,
    monitors: Seq<SummaryMonitor>,
    inventory: Inventory,
    k: int,
)
    requires
        0 <= k <= monitors.len(),
        forall|i: int, j: int|
            0 <= i < monitors.len() && 0 <= j < inventory.monitors.len() ==> !eq_ignore_ascii_case(
                #[trigger] inventory.monitors@[j].device_path@,
                #[trigger] monitors[i].device_path@,
            ),
    ensures
        absent_labels(aliases, monitors, inventory, k) == Seq::new(k as nat, |i: int| i).filter(
            |i: int| monitors[i].on,
        ).map_values(|i: int| label_of(aliases, monitors, i)),
    decreases k,
{
    reveal(Seq::filter);
    let s = Seq::new(k as nat, |i: int| i);
    let on = |i: int| monitors[i].on;
    let label = |i: int| label_of(aliases, monitors, i);
    if k > 0 {
        lemma_foreign_prefix(aliases, monitors, inventory, k - 1);
        let t = Seq::new((k - 1) as nat, |i: int| i);
        assert(s.drop_last() =~= t);
        assert(s.last() == k - 1);
        let path = monitors[k - 1].device_path@;
        assert forall|j: int| 0 <= j < inventory.monitors@.len() implies !eq_ignore_ascii_case(
            #[trigger] inventory.monitors@[j].device_path@,
            path,
        ) by {
            assert(!eq_ignore_ascii_case(inventory.monitors@[j].device_path@, monitors[k - 1].device_path@));
        }
        lemma_no_live_match(inventory.monitors@, path);
        if monitors[k - 1].on {
            assert(s.filter(on) == t.filter(on).push(k - 1));
            assert(t.filter(on).push(k - 1).map_values(label) =~= t.filter(on).map_values(label).push(label(k - 1)));
        } else {
            assert(s.filter(on) == t.filter(on));
        }
    } else {
        assert(s.filter(on).map_values(label) =~= Seq::<Seq<char>>::empty());
    }
}

/// A layout from another machine: when the probe lists none of the layout's device
/// paths, every monitor the layout turns on is absent, each under its label, in summary
/// order.
pub proof fn lemma_foreign_layout_all_absent(
    aliases: Seq<(String, String)>,
    monitors: Seq<SummaryMonitor>,
    inventory: Inventory,
)
    requires
        forall|i: int, j: int|
            0 <= i < monitors.len() && 0 <= j < inventory.monitors.len() ==> !eq_ignore_ascii_case(
                #[trigger] inventory.monitors@[j].device_path@,
                #[trigger] monitors[i].device_path@,
            ),
    ensures
        absent_on_monitors(aliases, monitors, Some(inventory)) == Seq::new(
            monitors.len(),
            |i: int| i,
        ).filter(|i: int| monitors[i].on).map_values(|i: int| label_of(aliases, monitors, i)),
{
    lemma_foreign_prefix(aliases, monitors, inventory, monitors.len() as int);
}

/// `s` starts with `prefix`.
pub open spec fn has_prefix(s: Seq<char>, prefix: Seq<char>) -> bool {
    prefix.len() <= s.len() && s.take(prefix.len() as int) == prefix
}

/// The explanation a failed switch carries. When the check row, always the first,
/// failed: the on monitors the probe lacks, or, where the probe names none and the
/// reason starts with "Absent: ", the labels the script named after it, split at each
/// ", ". When the reason says the Extend fallback landed: that. Else the reason alone.
pub open spec fn explained(
    e: FailureExplanation,
    step: Option<u32>,
    reason: Seq<char>,
    absent: Seq<Seq<char>>,
) -> bool {
    if step == Some(1u32) && absent.len() > 0 {
        e matches FailureExplanation::Absent { monitors } && views(monitors@) == absent
    } else if step == Some(1u32) && has_prefix(reason, ABSENT_REASON_PREFIX@) {
        e matches FailureExplanation::Absent { monitors } && views(monitors@) == split_all(
            reason.skip(ABSENT_REASON_PREFIX@.len() as int),
            ", "@,
        )
    } else if has_prefix(reason, EXTENDED_REASON_PREFIX@) {
        e is ExtendApplied
    } else {
        e is ReasonOnly
    }
}

fn strings_of(pieces: &Vec<Vec<char>>) -> (r: Vec<String>)
    ensures
        views(r@) == pieces@.map_values(|v: Vec<char>| v@),
{
    let mut r: Vec<String> = Vec::new();
    let mut i: usize = 0;
    while i < pieces.len()
        invariant
            i <= pieces.len(),
            views(r@) == pieces@.map_values(|v: Vec<char>| v@).take(i as int),
        decreases pieces.len() - i,
    {
        let ghost before = views(r@);
        r.push(string_of(&pieces[i]));
        assert(views(r@) =~= before.push(pieces@[i as int]@));
        assert(pieces@.map_values(|v: Vec<char>| v@).take(i + 1) =~= pieces@.map_values(
            |v: Vec<char>| v@,
        ).take(i as int).push(pieces@[i as int]@));
        i = i + 1;
    }
    assert(pieces@.map_values(|v: Vec<char>| v@).take(pieces.len() as int) =~= pieces@.map_values(
        |v: Vec<char>| v@,
    ));
    r
}

fn explanation_for(step: Option<u32>, reason: &String, absent: Vec<String>) -> (e: FailureExplanation)
    ensures
        explained(e, step, reason@, views(absent@)),
{
    let first = match step {
        Some(s) => s == 1,
        None => false,
    };
    if first && absent.len() > 0 {
        return FailureExplanation::Absent { monitors: absent };
    }
    let r = chars_of(reason.as_str());
    let absent_prefix = chars_of(ABSENT_REASON_PREFIX);
    if first && starts_with(&r, &absent_prefix) {
        let rest = slice_of(&r, absent_prefix.len(), r.len());
        assert(rest@ =~= reason@.skip(ABSENT_REASON_PREFIX@.len() as int));
        let mut sep: Vec<char> = Vec::new();
        append_str(&mut sep, ", ");
        proof {
            reveal_strlit(", ");
        }
        assert(sep@ =~= ", "@);
        let pieces = split_all_exec(&rest, &sep);
        return FailureExplanation::Absent { monitors: strings_of(&pieces) };
    }
    if starts_with(&r, &chars_of(EXTENDED_REASON_PREFIX)) {
        FailureExplanation::ExtendApplied
    } else {
        FailureExplanation::ReasonOnly
    }
}

/// The failed result: from the failed progress line when the script printed one, else
/// from the last log line, which is where the script explains a refusal.
pub open spec fn failed_as(
    r: SwitchResult,
    exit_code: i32,
    last_failed: Option<ProgressLine>,
    last_log: Seq<char>,
    log_path: Seq<char>,
    absent: Seq<Seq<char>>,
) -> bool {
    match r {
        SwitchResult::Failed {
            step,
            step_name,
            next_action,
            reason,
            exit_code: code,
            log_path: path,
            explanation,
        } => {
            &&& code == exit_code
            &&& path@ == log_path
            &&& explained(explanation, step, reason@, absent)
            &&& match last_failed {
                Some(line) => {
                    let (n, a, why) = failure_parts_of(line.status, line.text@);
                    &&& step == Some(line.step)
                    &&& step_name@ == n
                    &&& next_action@ == a
                    &&& reason@ == why
                },
                None => {
                    &&& step is None
                    &&& step_name@ == Seq::<char>::empty()
                    &&& next_action@ == (if last_log.len() == 0 {
                        OPEN_THE_LOG@
                    } else {
                        last_log
                    })
                    &&& reason@ == "the script exited with exit code "@ + dec(exit_code as int)
                },
            }
        },
        _ => false,
    }
}

/// The failed result for a script that exited with `exit_code`.
/// `absent` is what [`absent_monitors`] found for the layout.
pub fn failure(
    exit_code: i32,
    last_failed: &Option<ProgressLine>,
    last_log: &str,
    log_path: &str,
    absent: Vec<String>,
) -> (r: SwitchResult)
    ensures
        failed_as(r, exit_code, *last_failed, last_log@, log_path@, views(absent@)),
{
    let log_path = string_of(&chars_of(log_path));
    match last_failed {
        Some(line) => {
            let parts: FailureParts = line.failure_parts();
            let explanation = explanation_for(Some(line.step), &parts.reason, absent);
            SwitchResult::Failed {
                step: Some(line.step),
                step_name: parts.step_name,
                next_action: parts.next_action,
                reason: parts.reason,
                exit_code,
                log_path,
                explanation,
            }
        },
        None => {
            let l = chars_of(last_log);
            let next_action = if l.len() == 0 {
                string_of(&chars_of(OPEN_THE_LOG))
            } else {
                string_of(&l)
            };
            let mut why: Vec<char> = Vec::new();
            append_str(&mut why, "the script exited with exit code ");
            push_dec_i64(&mut why, exit_code as i64);
            let reason = string_of(&why);
            let explanation = explanation_for(None, &reason, absent);
            SwitchResult::Failed {
                step: None,
                step_name: String::new(),
                next_action,
                reason,
                exit_code,
                log_path,
                explanation,
            }
        },
    }
}

/// The event that opens the progress screen: the timeline's rows and its apply row.
pub fn started_event(layout_id: &str, timeline: &Timeline) -> (e: SwitchEvent)
    ensures
        e matches SwitchEvent::Started { layout_id: id, steps, apply_step } && id@ == layout_id@
            && row_views(steps@) == row_views(timeline.rows@) && apply_step == timeline.apply,
{
    let mut steps: Vec<String> = Vec::new();
    let mut i: usize = 0;
    while i < timeline.rows.len()
        invariant
            i <= timeline.rows.len(),
            steps.len() == i,
            forall|k: int| 0 <= k < i ==> (#[trigger] steps@[k])@ == timeline.rows@[k]@,
        decreases timeline.rows.len() - i,
    {
        steps.push(string_of(&chars_of(timeline.rows[i].as_str())));
        i = i + 1;
    }
    assert(row_views(steps@) =~= row_views(timeline.rows@));
    SwitchEvent::Started { layout_id: string_of(&chars_of(layout_id)), steps, apply_step: timeline.apply }
}

/// Cancel from the app: `NoSwitchRunning` when none runs, else the running switch's
/// answer.
pub fn cancel_switch(active: &mut Option<SwitchRun>) -> (r: Result<(), AppError>)
    ensures
        match (*old(active), *final(active)) {
            (None, None) => r == Err::<(), AppError>(AppError::NoSwitchRunning),
            (Some(before), Some(after)) => {
                &&& after.layout_name == before.layout_name
                &&& after.apply_started == before.apply_started
                &&& before.apply_started ==> (r matches Err(AppError::CancelTooLate { layout })
                    && layout == before.layout_name && after.cancelled == before.cancelled)
                &&& !before.apply_started ==> (r is Ok && after.cancelled)
            },
            _ => false,
        },
{
    match active {
        Some(run) => run.request_cancel(),
        None => Err(AppError::NoSwitchRunning),
    }
}

} // verus!
