//! The script renderer: templates to script text. Every Windows PowerShell 5.1 quirk,
//! escaping rule, step ordering and logging convention lives here.
//!
//! A switch script prints one line per step status change, `[step/of] status text`;
//! the rows are the layout's [`timeline`]: Check monitors, the steps before the apply,
//! Apply arrangement, the steps after it, Verify, numbered over the whole switch.
//! Exit codes: 0 applied, 1 could not apply, 2 needed a user action.

use vstd::prelude::*;
use crate::config::layouts::{label_of, monitor_labels, Layout, SummaryMonitor};
use crate::script::templates::{switch_template, switch_template_chars, PROBE_TEMPLATE};
use crate::script::slots::{
    all_slots, brace_free, holds, is_slot, lemma_fill_line, no_open_brace, outside_slots,
    slot_name_char,
};
use crate::script::templates::{
    SWITCH_APPLY_LINE, SWITCH_BODY, SWITCH_COUNT_LINE, SWITCH_HEADER_LINE, SWITCH_OFF_LIST,
    SWITCH_ON_LIST, SWITCH_OPENING, SWITCH_ROOT_LINE, SWITCH_SETTINGS, SWITCH_VERIFY_LINE,
};
use crate::config::steps::{
    labeller_label, send_sentence, step_labeller, step_sentence, wait_sentence, Step, StepKind,
    ApplyFailure, StepLabeller, StepSide, WaitRule, UNKNOWN_MONITOR,
};
use crate::hardware::input_source::{input_name, name};
use crate::text::{
    append, append_str, chars_of, dec, digits, lemma_decimal_digits, push_dec, replace, replace_exec, string_of,
};

verus! {

/// Bump on every change to a template's behaviour.
pub const TEMPLATE_VERSION: u32 = 7;

/// The fixed rows of every switch, by name.
pub const CHECK_ROW: &'static str = "Check monitors";

pub const APPLY_ROW: &'static str = "Apply arrangement";

pub const VERIFY_ROW: &'static str = "Verify";

/// Check monitors is always the first row.
pub const CHECK_STEP: u32 = 1;

/// The prefix of the check step's failure reason, followed by the labels joined by a
/// comma and a space.
pub const ABSENT_REASON_PREFIX: &'static str = "Absent: ";

/// The prefix of the apply step's failure reason when the Extend fallback landed.
pub const EXTENDED_REASON_PREFIX: &'static str = "Windows Extend was applied instead";

/// The rows a layout's switch runs through, numbered from one, and where the fixed ones
/// sit.
#[derive(Debug, Clone, PartialEq, Eq)]
pub struct Timeline {
    pub rows: Vec<String>,
    /// The one-based row of Apply arrangement, from which a cancel is refused.
    pub apply: u32,
    /// The rows that send an input source, so a cancel can say which already ran.
    pub sends: Vec<u32>,
}

impl Timeline {
    /// Verify is always the last row.
    pub fn verify(&self) -> (r: u32)
        ensures
            r == self.rows.len() as u32,
    {
        self.rows.len() as u32
    }
}

/// The steps on one side of the apply, in their order.
pub open spec fn side_steps(steps: Seq<Step>, side: StepSide) -> Seq<Step> {
    steps.filter(|s: Step| s.side == side)
}

/// The label a step's monitor reads as: the label of the first monitor of the summary
/// with that device path, from index `k` on; "unknown monitor" when none has it.
pub open spec fn summary_label_from(
    aliases: Seq<(String, String)>,
    monitors: Seq<SummaryMonitor>,
    path: Seq<char>,
    k: int,
) -> Seq<char>
    decreases monitors.len() - k,
{
    if k < 0 || k >= monitors.len() {
        UNKNOWN_MONITOR@
    } else if monitors[k].device_path@ == path {
        label_of(aliases, monitors, k)
    } else {
        summary_label_from(aliases, monitors, path, k + 1)
    }
}

/// The sentence a step reads as, with the summary's labels for its monitor.
pub open spec fn sentence_of(
    step: Step,
    aliases: Seq<(String, String)>,
    monitors: Seq<SummaryMonitor>,
) -> Seq<char> {
    match step.kind {
        StepKind::Wait { seconds } => wait_sentence(seconds),
        StepKind::SendInput { device_path, input_source, wait } => send_sentence(
            summary_label_from(aliases, monitors, device_path@, 0),
            input_source,
            wait,
        ),
    }
}

/// The rows of a switch: Check monitors, the before steps, Apply arrangement, the after
/// steps, Verify.
pub open spec fn rows_of(
    steps: Seq<Step>,
    aliases: Seq<(String, String)>,
    monitors: Seq<SummaryMonitor>,
) -> Seq<Seq<char>> {
    seq![CHECK_ROW@] + side_steps(steps, StepSide::Before).map_values(
        |s: Step| sentence_of(s, aliases, monitors),
    ) + seq![APPLY_ROW@] + side_steps(steps, StepSide::After).map_values(
        |s: Step| sentence_of(s, aliases, monitors),
    ) + seq![VERIFY_ROW@]
}

/// A labeller built for a summary labels each path as the summary does.
proof fn lemma_labeller_label(
    labels: Seq<(String, String)>,
    aliases: Seq<(String, String)>,
    monitors: Seq<SummaryMonitor>,
    path: Seq<char>,
    k: int,
)
    requires
        0 <= k <= labels.len(),
        labels.len() == monitors.len(),
        forall|q: int|
            0 <= q < monitors.len() ==> (#[trigger] labels[q]).0@ == monitors[q].device_path@
                && labels[q].1@ == label_of(aliases, monitors, q),
    ensures
        labeller_label(labels.skip(k), path) == summary_label_from(aliases, monitors, path, k),
    decreases labels.len() - k,
{
    if k < labels.len() {
        assert(labels.skip(k)[0] == labels[k]);
        assert(labels.skip(k).drop_first() == labels.skip(k + 1));
        lemma_labeller_label(labels, aliases, monitors, path, k + 1);
    }
}

proof fn lemma_label_found_from(
    aliases: Seq<(String, String)>,
    monitors: Seq<SummaryMonitor>,
    path: Seq<char>,
    k: int,
    i: int,
)
    requires
        0 <= k <= i < monitors.len(),
        monitors[i].device_path@ == path,
        forall|j: int| k <= j < i ==> (#[trigger] monitors[j]).device_path@ != path,
    ensures
        summary_label_from(aliases, monitors, path, k) == label_of(aliases, monitors, i),
    decreases i - k,
{
    if k < i {
        lemma_label_found_from(aliases, monitors, path, k + 1, i);
    }
}

proof fn lemma_label_missing_from(
    aliases: Seq<(String, String)>,
    monitors: Seq<SummaryMonitor>,
    path: Seq<char>,
    k: int,
)
    requires
        0 <= k <= monitors.len(),
        forall|j: int| k <= j < monitors.len() ==> (#[trigger] monitors[j]).device_path@ != path,
    ensures
        summary_label_from(aliases, monitors, path, k) == UNKNOWN_MONITOR@,
    decreases monitors.len() - k,
{
    if k < monitors.len() {
        lemma_label_missing_from(aliases, monitors, path, k + 1);
    }
}

/// A step names its monitor by the first monitor of the layout's summary with that device
/// path, under that monitor's label; a path the summary lacks reads "unknown monitor".
pub proof fn lemma_step_label_first_match(
    aliases: Seq<(String, String)>,
    monitors: Seq<SummaryMonitor>,
    path: Seq<char>,
)
    ensures
        (forall|j: int| 0 <= j < monitors.len() ==> (#[trigger] monitors[j]).device_path@ != path)
            ==> summary_label_from(aliases, monitors, path, 0) == UNKNOWN_MONITOR@,
        forall|i: int|
            0 <= i < monitors.len() && (#[trigger] monitors[i]).device_path@ == path && (forall|j: int|
                0 <= j < i ==> (#[trigger] monitors[j]).device_path@ != path) ==> summary_label_from(
                aliases,
                monitors,
                path,
                0,
            ) == label_of(aliases, monitors, i),
{
    if forall|j: int| 0 <= j < monitors.len() ==> (#[trigger] monitors[j]).device_path@ != path {
        lemma_label_missing_from(aliases, monitors, path, 0);
    }
    assert forall|i: int|
        0 <= i < monitors.len() && (#[trigger] monitors[i]).device_path@ == path && (forall|j: int|
            0 <= j < i ==> (#[trigger] monitors[j]).device_path@ != path) implies summary_label_from(
        aliases,
        monitors,
        path,
        0,
    ) == label_of(aliases, monitors, i) by {
        lemma_label_found_from(aliases, monitors, path, 0, i);
    }
}

/// The step labeller names a path by the first monitor of the summary with that device
/// path, under that monitor's label, and calls any other path "unknown monitor".
pub proof fn lemma_labeller_first_match(
    labels: Seq<(String, String)>,
    aliases: Seq<(String, String)>,
    monitors: Seq<SummaryMonitor>,
    path: Seq<char>,
)
    requires
        labels.len() == monitors.len(),
        forall|q: int|
            0 <= q < monitors.len() ==> (#[trigger] labels[q]).0@ == monitors[q].device_path@
                && labels[q].1@ == label_of(aliases, monitors, q),
    ensures
        (forall|j: int| 0 <= j < monitors.len() ==> (#[trigger] monitors[j]).device_path@ != path)
            ==> labeller_label(labels, path) == UNKNOWN_MONITOR@,
        forall|i: int|
            0 <= i < monitors.len() && (#[trigger] monitors[i]).device_path@ == path && (forall|j: int|
                0 <= j < i ==> (#[trigger] monitors[j]).device_path@ != path) ==> labeller_label(
                labels,
                path,
            ) == label_of(aliases, monitors, i),
{
    lemma_labeller_label(labels, aliases, monitors, path, 0);
    assert(labels.skip(0) =~= labels);
    lemma_step_label_first_match(aliases, monitors, path);
}

/// The row each step runs at, before steps first: row 2 onwards for the steps before the
/// apply, and the rows after Apply arrangement for the steps after it.
pub open spec fn numbered_of(steps: Seq<Step>) -> Seq<(int, Step)> {
    let before = side_steps(steps, StepSide::Before);
    let after = side_steps(steps, StepSide::After);
    before.map(|i: int, s: Step| (i + 2, s)) + after.map(
        |i: int, s: Step| (i + before.len() + 3, s),
    )
}

/// The rows, in order, of the steps that send an input source.
pub open spec fn send_rows(steps: Seq<Step>) -> Seq<int> {
    numbered_of(steps).filter(|e: (int, Step)| e.1.kind is SendInput).map_values(
        |e: (int, Step)| e.0,
    )
}


/// The indices of the steps on one side, in order.
fn side_indices(steps: &Vec<Step>, side: StepSide) -> (r: Vec<usize>)
    ensures
        r.len() == side_steps(steps@, side).len(),
        forall|k: int|
            0 <= k < r.len() ==> (#[trigger] r[k]) < steps.len() && steps@[r[k] as int]
                == side_steps(steps@, side)[k],
{
    let mut r: Vec<usize> = Vec::new();
    let mut i: usize = 0;
    assert(side_steps(steps@.take(0), side) =~= Seq::<Step>::empty()) by {
        reveal_with_fuel(Seq::<_>::filter, 1);
    }
    while i < steps.len()
        invariant
            i <= steps.len(),
            r.len() == side_steps(steps@.take(i as int), side).len(),
            forall|k: int|
                0 <= k < r.len() ==> (#[trigger] r[k]) < steps.len() && steps@[r[k] as int]
                    == side_steps(steps@.take(i as int), side)[k],
        decreases steps.len() - i,
    {
        assert(steps@.take(i + 1).drop_last() == steps@.take(i as int));
        assert(side_steps(steps@.take(i + 1), side) == (if steps@[i as int].side == side {
            side_steps(steps@.take(i as int), side).push(steps@[i as int])
        } else {
            side_steps(steps@.take(i as int), side)
        })) by {
            reveal_with_fuel(Seq::<_>::filter, 1);
        }
        if steps[i].side == side {
            r.push(i);
        }
        i = i + 1;
    }
    assert(steps@.take(steps.len() as int) == steps@);
    r
}

/// The sentence for step `step` under a labeller built for `monitors`.
fn sentence(
    step: &Step,
    labeller: &StepLabeller,
    Ghost(aliases): Ghost<Seq<(String, String)>>,
    Ghost(monitors): Ghost<Seq<SummaryMonitor>>,
) -> (r: String)
    requires
        labeller.labels.len() == monitors.len(),
        forall|q: int|
            0 <= q < monitors.len() ==> (#[trigger] labeller.labels@[q]).0@ == monitors[q].device_path@
                && labeller.labels@[q].1@ == label_of(aliases, monitors, q),
    ensures
        r@ == sentence_of(*step, aliases, monitors),
{
    proof {
        assert(labeller.labels@.skip(0) == labeller.labels@);
        assert forall|p: Seq<char>|
            labeller_label(labeller.labels@, p) == summary_label_from(aliases, monitors, p, 0) by {
            lemma_labeller_label(labeller.labels@, aliases, monitors, p, 0);
        }
    }
    let label = |p: &str| -> (l: String)
        ensures
            l@ == labeller_label(labeller.labels@, p@),
        { labeller.label(p) };
    step_sentence(step, &label)
}

/// Every step with its row number: the rule that numbers the timeline, in one place.
/// Each entry holds the row and the step's index in the layout.
pub fn numbered_steps(layout: &Layout) -> (r: Vec<(u32, usize)>)
    requires
        layout.steps.len() + 3 <= u32::MAX,
    ensures
        r.len() == numbered_of(layout.steps@).len(),
        forall|k: int|
            0 <= k < r.len() ==> (#[trigger] r[k]).1 < layout.steps.len() && r[k].0
                == numbered_of(layout.steps@)[k].0 && layout.steps@[r[k].1 as int]
                == numbered_of(layout.steps@)[k].1,
{
    let steps = &layout.steps;
    let before = side_indices(steps, StepSide::Before);
    let after = side_indices(steps, StepSide::After);
    let ghost n = numbered_of(steps@);
    let ghost sb = side_steps(steps@, StepSide::Before);
    let ghost sa = side_steps(steps@, StepSide::After);
    proof {
        lemma_sides_fit(steps@);
    }
    let mut r: Vec<(u32, usize)> = Vec::new();
    let mut k: usize = 0;
    while k < before.len()
        invariant
            k <= before.len(),
            before.len() == sb.len(),
            sb.len() + sa.len() <= steps.len(),
            steps.len() + 3 <= u32::MAX,
            n == numbered_of(steps@),
            sb == side_steps(steps@, StepSide::Before),
            sa == side_steps(steps@, StepSide::After),
            forall|q: int|
                0 <= q < before.len() ==> (#[trigger] before[q]) < steps.len() && steps@[before[q] as int]
                    == sb[q],
            r.len() == k,
            forall|q: int|
                0 <= q < k ==> (#[trigger] r[q]).1 < steps.len() && r[q].0 == n[q].0
                    && steps@[r[q].1 as int] == n[q].1,
        decreases before.len() - k,
    {
        r.push(((k + 2) as u32, before[k]));
        k = k + 1;
    }
    let nb = before.len();
    let mut k: usize = 0;
    while k < after.len()
        invariant
            k <= after.len(),
            nb == sb.len(),
            after.len() == sa.len(),
            sb.len() + sa.len() <= steps.len(),
            steps.len() + 3 <= u32::MAX,
            n == numbered_of(steps@),
            sb == side_steps(steps@, StepSide::Before),
            sa == side_steps(steps@, StepSide::After),
            forall|q: int|
                0 <= q < after.len() ==> (#[trigger] after[q]) < steps.len() && steps@[after[q] as int]
                    == sa[q],
            r.len() == nb + k,
            forall|q: int|
                0 <= q < nb + k ==> (#[trigger] r[q]).1 < steps.len() && r[q].0 == n[q].0
                    && steps@[r[q].1 as int] == n[q].1,
        decreases after.len() - k,
    {
        r.push(((k + nb + 3) as u32, after[k]));
        k = k + 1;
    }
    r
}

/// The two sides together hold no more steps than the layout.
proof fn lemma_sides_fit(steps: Seq<Step>)
    ensures
        side_steps(steps, StepSide::Before).len() + side_steps(steps, StepSide::After).len()
            == steps.len(),
    decreases steps.len(),
{
    reveal_with_fuel(Seq::<_>::filter, 1);
    if steps.len() > 0 {
        lemma_sides_fit(steps.drop_last());
    }
}


fn literal(s: &str) -> (r: String)
    ensures
        r@ == s@,
{
    string_of(&chars_of(s))
}

/// The timeline of a layout's switch. `aliases` names the monitors a send step reads, by
/// the one label rule.
pub fn timeline(layout: &Layout, aliases: &Vec<(String, String)>) -> (t: Timeline)
    requires
        layout.steps.len() + 3 <= u32::MAX,
    ensures
        t.rows@.map_values(|r: String| r@) == rows_of(
            layout.steps@,
            aliases@,
            layout.summary.monitors@,
        ),
        t.apply == side_steps(layout.steps@, StepSide::Before).len() + 2,
        t.sends@.map_values(|r: u32| r as int) == send_rows(layout.steps@),
        t.rows.len() == layout.steps.len() + 3,
        t.rows[0]@ == CHECK_ROW@,
        t.rows[t.apply - 1]@ == APPLY_ROW@,
        t.rows[t.rows.len() - 1]@ == VERIFY_ROW@,
{
    let ghost monitors = layout.summary.monitors@;
    let labeller = step_labeller(aliases, &layout.summary.monitors);
    let numbered = numbered_steps(layout);
    let steps = &layout.steps;
    let before = side_indices(steps, StepSide::Before);
    let after = side_indices(steps, StepSide::After);
    let ghost sb = side_steps(steps@, StepSide::Before);
    let ghost sa = side_steps(steps@, StepSide::After);
    let ghost sent = |x: Step| sentence_of(x, aliases@, monitors);
    proof {
        lemma_sides_fit(steps@);
    }
    let mut rows: Vec<String> = Vec::new();
    rows.push(literal(CHECK_ROW));
    let mut k: usize = 0;
    while k < before.len()
        invariant
            k <= before.len(),
            before.len() == sb.len(),
            sb == side_steps(steps@, StepSide::Before),
            sent == (|x: Step| sentence_of(x, aliases@, monitors)),
            monitors == layout.summary.monitors@,
            labeller.labels.len() == monitors.len(),
            forall|q: int|
                0 <= q < monitors.len() ==> (#[trigger] labeller.labels@[q]).0@
                    == monitors[q].device_path@ && labeller.labels@[q].1@ == label_of(
                    aliases@,
                    monitors,
                    q,
                ),
            forall|q: int|
                0 <= q < before.len() ==> (#[trigger] before[q]) < steps.len() && steps@[before[q] as int]
                    == sb[q],
            rows@.map_values(|r: String| r@) == seq![CHECK_ROW@] + sb.take(k as int).map_values(sent),
        decreases before.len() - k,
    {
        let line = sentence(&steps[before[k]], &labeller, Ghost(aliases@), Ghost(monitors));
        let ghost prev = rows@;
        rows.push(line);
        assert(sb.take(k + 1) == sb.take(k as int).push(sb[k as int]));
        assert(rows@.map_values(|r: String| r@) =~= prev.map_values(|r: String| r@).push(line@));
        assert(sb.take(k + 1).map_values(sent) =~= sb.take(k as int).map_values(sent).push(
            sent(sb[k as int]),
        ));
        k = k + 1;
    }
    assert(sb.take(sb.len() as int) == sb);
    let apply = (rows.len() as u32) + 1;
    rows.push(literal(APPLY_ROW));
    let ghost mid = rows@.map_values(|r: String| r@);
    assert(mid =~= seq![CHECK_ROW@] + sb.map_values(sent) + seq![APPLY_ROW@]);
    let mut k: usize = 0;
    while k < after.len()
        invariant
            k <= after.len(),
            after.len() == sa.len(),
            sa == side_steps(steps@, StepSide::After),
            sent == (|x: Step| sentence_of(x, aliases@, monitors)),
            monitors == layout.summary.monitors@,
            labeller.labels.len() == monitors.len(),
            forall|q: int|
                0 <= q < monitors.len() ==> (#[trigger] labeller.labels@[q]).0@
                    == monitors[q].device_path@ && labeller.labels@[q].1@ == label_of(
                    aliases@,
                    monitors,
                    q,
                ),
            forall|q: int|
                0 <= q < after.len() ==> (#[trigger] after[q]) < steps.len() && steps@[after[q] as int]
                    == sa[q],
            rows@.map_values(|r: String| r@) == mid + sa.take(k as int).map_values(sent),
        decreases after.len() - k,
    {
        let line = sentence(&steps[after[k]], &labeller, Ghost(aliases@), Ghost(monitors));
        let ghost prev = rows@;
        rows.push(line);
        assert(sa.take(k + 1) == sa.take(k as int).push(sa[k as int]));
        assert(rows@.map_values(|r: String| r@) =~= prev.map_values(|r: String| r@).push(line@));
        assert(sa.take(k + 1).map_values(sent) =~= sa.take(k as int).map_values(sent).push(
            sent(sa[k as int]),
        ));
        k = k + 1;
    }
    assert(sa.take(sa.len() as int) == sa);
    let ghost prev = rows@;
    rows.push(literal(VERIFY_ROW));
    assert(rows@.map_values(|r: String| r@) =~= rows_of(steps@, aliases@, monitors));
    proof {
        lemma_timeline_shape(steps@, aliases@, monitors);
        let views = rows@.map_values(|r: String| r@);
        assert(views[0] == rows@[0]@);
        assert(views[apply - 1] == rows@[apply - 1]@);
        assert(views[rows.len() - 1] == rows@[rows.len() - 1]@);
    }
    let mut sends: Vec<u32> = Vec::new();
    let ghost n = numbered_of(steps@);
    let ghost is_send = |e: (int, Step)| e.1.kind is SendInput;
    let ghost row_of = |e: (int, Step)| e.0;
    let mut k: usize = 0;
    assert(n.take(0).filter(is_send) =~= Seq::<(int, Step)>::empty()) by {
        reveal_with_fuel(Seq::<_>::filter, 1);
    }
    while k < numbered.len()
        invariant
            k <= numbered.len(),
            numbered.len() == n.len(),
            n == numbered_of(steps@),
            is_send == (|e: (int, Step)| e.1.kind is SendInput),
            row_of == (|e: (int, Step)| e.0),
            forall|q: int|
                0 <= q < numbered.len() ==> (#[trigger] numbered[q]).1 < steps.len() && numbered[q].0
                    == n[q].0 && steps@[numbered[q].1 as int] == n[q].1,
            sends@.map_values(|r: u32| r as int) == n.take(k as int).filter(is_send).map_values(row_of),
        decreases numbered.len() - k,
    {
        let (row, idx) = numbered[k];
        assert(n.take(k + 1).drop_last() == n.take(k as int));
        assert(n.take(k + 1).filter(is_send) == (if is_send(n[k as int]) {
            n.take(k as int).filter(is_send).push(n[k as int])
        } else {
            n.take(k as int).filter(is_send)
        })) by {
            reveal_with_fuel(Seq::<_>::filter, 1);
        }
        let ghost prev = sends@;
        match &steps[idx].kind {
            StepKind::SendInput { .. } => {
                sends.push(row);
                assert(sends@.map_values(|r: u32| r as int) =~= prev.map_values(|r: u32| r as int).push(row as int));
            },
            _ => {},
        }
        k = k + 1;
    }
    assert(n.take(n.len() as int) == n);
    Timeline { rows, apply, sends }
}


// ---------------------------------------------------------------------------------
// Rendering
// ---------------------------------------------------------------------------------

/// Rendered script text, ready to be written to disk.
#[derive(Debug, Clone, PartialEq, Eq)]
pub struct Script {
    pub text: String,
}

/// The rule that frames each step block's heading.
pub const BLOCK_RULE: &'static str = "#-----------------------------------------------------------------------------";

/// Inside a single-quoted PowerShell string only the quote itself needs care: it is
/// doubled.
pub open spec fn ps_escape_of(s: Seq<char>) -> Seq<char> {
    replace(s, seq!['\''], seq!['\'', '\''])
}

fn escape_chars(v: &Vec<char>) -> (r: Vec<char>)
    ensures
        r@ == ps_escape_of(v@),
{
    let mut pat: Vec<char> = Vec::new();
    pat.push('\'');
    let mut rep: Vec<char> = Vec::new();
    rep.push('\'');
    rep.push('\'');
    assert(pat@ =~= seq!['\'']);
    assert(rep@ =~= seq!['\'', '\'']);
    replace_exec(v, &pat, &rep)
}

/// `value` ready to stand inside a single-quoted PowerShell string.
pub fn ps_escape(value: &str) -> (r: String)
    ensures
        r@ == ps_escape_of(value@),
{
    string_of(&escape_chars(&chars_of(value)))
}

/// The items with `sep` between each two.
pub open spec fn joined(items: Seq<Seq<char>>, sep: Seq<char>) -> Seq<char>
    decreases items.len(),
{
    if items.len() == 0 {
        Seq::empty()
    } else if items.len() == 1 {
        items[0]
    } else {
        joined(items.drop_last(), sep) + sep + items.last()
    }
}

pub open spec fn views_of(items: Seq<Vec<char>>) -> Seq<Seq<char>> {
    items.map_values(|v: Vec<char>| v@)
}

/// Appends the items with `sep` between each two.
fn push_joined(out: &mut Vec<char>, items: &Vec<Vec<char>>, sep: &str)
    ensures
        final(out)@ == old(out)@ + joined(views_of(items@), sep@),
{
    let ghost start = out@;
    let ghost all = views_of(items@);
    let mut i: usize = 0;
    assert(all.take(0) =~= Seq::<Seq<char>>::empty());
    assert(out@ =~= start + joined(all.take(0), sep@));
    while i < items.len()
        invariant
            i <= items.len(),
            all == views_of(items@),
            out@ == start + joined(all.take(i as int), sep@),
        decreases items.len() - i,
    {
        let ghost before = out@;
        assert(all.take(i + 1).drop_last() =~= all.take(i as int));
        assert(all.take(i + 1).last() == items@[i as int]@);
        if i > 0 {
            append_str(out, sep);
        }
        append(out, &items[i]);
        proof {
            if i == 0 {
                assert(all.take(1) =~= seq![items@[0]@]);
                assert(out@ =~= start + joined(all.take(1), sep@));
            } else {
                assert(out@ =~= start + (joined(all.take(i as int), sep@) + sep@ + items@[i as int]@));
            }
        }
        i = i + 1;
    }
    assert(all.take(items.len() as int) =~= all);
}

/// The word a send step's wait rule is passed to the script as.
pub open spec fn wait_word(w: WaitRule) -> Seq<char> {
    match w {
        WaitRule::NoWait => "none"@,
        WaitRule::Drop => "drop"@,
        WaitRule::Available => "available"@,
    }
}

/// The word a step's side is passed to the script as.
pub open spec fn side_word(s: StepSide) -> Seq<char> {
    match s {
        StepSide::Before => "before"@,
        StepSide::After => "after"@,
    }
}

proof fn lemma_middle_differs(p: Seq<char>, a: Seq<char>, b: Seq<char>, s: Seq<char>)
    requires
        a != b,
    ensures
        p + a + s != p + b + s,
{
    if a.len() == b.len() {
        if p + a + s == p + b + s {
            assert((p + a + s).subrange(p.len() as int, (p.len() + a.len()) as int) =~= a);
            assert((p + b + s).subrange(p.len() as int, (p.len() + b.len()) as int) =~= b);
        }
    } else {
        assert((p + a + s).len() != (p + b + s).len());
    }
}

/// A send step's call tells its wait rules apart: two sends that differ only in the
/// wait rule read differently, and a send the user asked not to wait on passes
/// `-Wait 'none'`, a drop wait `-Wait 'drop'` and an Available wait `-Wait 'available'`.
pub proof fn lemma_send_wait_words(
    r: Seq<char>,
    s: Seq<char>,
    device_path: Seq<char>,
    label: Seq<char>,
    code: u32,
    side: StepSide,
)
    ensures
        forall|w1: WaitRule, w2: WaitRule|
            w1 != w2 ==> #[trigger] send_body(r, s, device_path, label, code, w1, side) != #[trigger] send_body(
                r,
                s,
                device_path,
                label,
                code,
                w2,
                side,
            ),
        holds(send_body(r, s, device_path, label, code, WaitRule::NoWait, side), "' -Wait '"@ + "none"@ + "' -Side '"@),
        holds(send_body(r, s, device_path, label, code, WaitRule::Drop, side), "' -Wait '"@ + "drop"@ + "' -Side '"@),
        holds(
            send_body(r, s, device_path, label, code, WaitRule::Available, side),
            "' -Wait '"@ + "available"@ + "' -Side '"@,
        ),
{
    let p = "Send-InputSource -Row "@ + r + " -Sentence '"@ + s + "' -DevicePath '"@ + ps_escape_of(
        device_path,
    ) + "' -Label '"@ + ps_escape_of(label) + "' -Code "@ + dec(code as int) + " -InputName '"@
        + ps_escape_of(input_name(code));
    let q = "' -Side '"@ + side_word(side) + "'\n"@;
    reveal_strlit("none");
    reveal_strlit("drop");
    reveal_strlit("available");
    assert forall|w1: WaitRule, w2: WaitRule|
        w1 != w2 implies #[trigger] send_body(r, s, device_path, label, code, w1, side) != #[trigger] send_body(
        r,
        s,
        device_path,
        label,
        code,
        w2,
        side,
    ) by {
        let pw = p + "' -Wait '"@;
        assert(wait_word(w1) != wait_word(w2)) by {
            assert(wait_word(w1).len() != wait_word(w2).len() || wait_word(w1)[0] != wait_word(w2)[0]);
        }
        assert(send_body(r, s, device_path, label, code, w1, side) =~= pw + wait_word(w1) + q);
        assert(send_body(r, s, device_path, label, code, w2, side) =~= pw + wait_word(w2) + q);
        lemma_middle_differs(pw, wait_word(w1), wait_word(w2), q);
    }
    let tail = side_word(side) + "'\n"@;
    assert(send_body(r, s, device_path, label, code, WaitRule::NoWait, side) =~= p + ("' -Wait '"@ + "none"@
        + "' -Side '"@) + tail);
    assert(send_body(r, s, device_path, label, code, WaitRule::Drop, side) =~= p + ("' -Wait '"@ + "drop"@
        + "' -Side '"@) + tail);
    assert(send_body(r, s, device_path, label, code, WaitRule::Available, side) =~= p + ("' -Wait '"@
        + "available"@ + "' -Side '"@) + tail);
}

/// The body of a wait step's block: skipped on a validate-only run, else running, the
/// sleep, done.
pub open spec fn wait_body(r: Seq<char>, s: Seq<char>, seconds: u32) -> Seq<char> {
    "if ($ValidateOnly) {\n    Write-Step "@ + r + " 'skipped' '"@ + s
        + ": validated only'\n} else {\n    Write-Step "@ + r + " 'running' '"@ + s
        + "'\n    Start-Sleep -Seconds "@ + dec(seconds as int) + "\n    Write-Step "@ + r
        + " 'done' '"@ + s + "'\n}\n"@
}

/// The body of a send step's block: one call of the script's send function.
pub open spec fn send_body(
    r: Seq<char>,
    s: Seq<char>,
    device_path: Seq<char>,
    label: Seq<char>,
    code: u32,
    wait: WaitRule,
    side: StepSide,
) -> Seq<char> {
    "Send-InputSource -Row "@ + r + " -Sentence '"@ + s + "' -DevicePath '"@ + ps_escape_of(
        device_path,
    ) + "' -Label '"@ + ps_escape_of(label) + "' -Code "@ + dec(code as int) + " -InputName '"@
        + ps_escape_of(input_name(code)) + "' -Wait '"@ + wait_word(wait) + "' -Side '"@
        + side_word(side) + "'\n"@
}

/// The PowerShell block for one step at its row: a heading between two rules, then the
/// body, then an empty line. A wait sleeps between its running and done lines and is
/// skipped on a validate-only run; a send is one call of the script's send function,
/// which handles the validate-only skip, the skip when its monitor is not Active and
/// the wait rule after the send itself.
pub open spec fn step_block_of(
    row: int,
    step: Step,
    aliases: Seq<(String, String)>,
    monitors: Seq<SummaryMonitor>,
) -> Seq<char> {
    let s = ps_escape_of(sentence_of(step, aliases, monitors));
    let r = dec(row);
    BLOCK_RULE@ + "\n# ["@ + r + "] "@ + s + "\n"@ + BLOCK_RULE@ + "\n"@ + match step.kind {
        StepKind::Wait { seconds } => wait_body(r, s, seconds),
        StepKind::SendInput { device_path, input_source, wait } => send_body(
            r,
            s,
            device_path@,
            summary_label_from(aliases, monitors, device_path@, 0),
            input_source,
            wait,
            step.side,
        ),
    }
}

fn push_wait_word(o: &mut Vec<char>, w: WaitRule)
    ensures
        final(o)@ == old(o)@ + wait_word(w),
{
    match w {
        WaitRule::NoWait => append_str(o, "none"),
        WaitRule::Drop => append_str(o, "drop"),
        WaitRule::Available => append_str(o, "available"),
    }
}

fn push_side_word(o: &mut Vec<char>, s: StepSide)
    ensures
        final(o)@ == old(o)@ + side_word(s),
{
    match s {
        StepSide::Before => append_str(o, "before"),
        StepSide::After => append_str(o, "after"),
    }
}

fn push_wait_body(o: &mut Vec<char>, row: u32, s: &Vec<char>, seconds: u32)
    ensures
        final(o)@ == old(o)@ + wait_body(dec(row as int), s@, seconds),
{
    let ghost start = o@;
    let ghost r = dec(row as int);
    append_str(o, "if ($ValidateOnly) {\n    Write-Step ");
    push_dec(o, row as u64);
    append_str(o, " 'skipped' '");
    append(o, s);
    append_str(o, ": validated only'\n} else {\n    Write-Step ");
    push_dec(o, row as u64);
    append_str(o, " 'running' '");
    append(o, s);
    append_str(o, "'\n    Start-Sleep -Seconds ");
    push_dec(o, seconds as u64);
    append_str(o, "\n    Write-Step ");
    push_dec(o, row as u64);
    append_str(o, " 'done' '");
    append(o, s);
    append_str(o, "'\n}\n");
    assert(o@ =~= start + wait_body(r, s@, seconds));
}

fn push_send_body(
    o: &mut Vec<char>,
    row: u32,
    s: &Vec<char>,
    device_path: &str,
    label: &str,
    code: u32,
    wait: WaitRule,
    side: StepSide,
)
    ensures
        final(o)@ == old(o)@ + send_body(dec(row as int), s@, device_path@, label@, code, wait, side),
{
    let ghost start = o@;
    let input = name(code);
    append_str(o, "Send-InputSource -Row ");
    push_dec(o, row as u64);
    append_str(o, " -Sentence '");
    append(o, s);
    append_str(o, "' -DevicePath '");
    append(o, &escape_chars(&chars_of(device_path)));
    append_str(o, "' -Label '");
    append(o, &escape_chars(&chars_of(label)));
    append_str(o, "' -Code ");
    push_dec(o, code as u64);
    append_str(o, " -InputName '");
    append(o, &escape_chars(&chars_of(input.as_str())));
    append_str(o, "' -Wait '");
    push_wait_word(o, wait);
    append_str(o, "' -Side '");
    push_side_word(o, side);
    append_str(o, "'\n");
    assert(o@ =~= start + send_body(dec(row as int), s@, device_path@, label@, code, wait, side));
}

/// The block for `step` at `row`, with the labels of a labeller built for `monitors`.
fn step_block(
    row: u32,
    step: &Step,
    labeller: &StepLabeller,
    Ghost(aliases): Ghost<Seq<(String, String)>>,
    Ghost(monitors): Ghost<Seq<SummaryMonitor>>,
) -> (r: Vec<char>)
    requires
        labeller.labels.len() == monitors.len(),
        forall|q: int|
            0 <= q < monitors.len() ==> (#[trigger] labeller.labels@[q]).0@ == monitors[q].device_path@
                && labeller.labels@[q].1@ == label_of(aliases, monitors, q),
    ensures
        r@ == step_block_of(row as int, *step, aliases, monitors),
{
    let line = sentence(step, labeller, Ghost(aliases), Ghost(monitors));
    let s = escape_chars(&chars_of(line.as_str()));
    let mut o: Vec<char> = Vec::new();
    append_str(&mut o, BLOCK_RULE);
    append_str(&mut o, "\n# [");
    push_dec(&mut o, row as u64);
    append_str(&mut o, "] ");
    append(&mut o, &s);
    append_str(&mut o, "\n");
    append_str(&mut o, BLOCK_RULE);
    append_str(&mut o, "\n");
    let ghost head = o@;
    match &step.kind {
        StepKind::Wait { seconds } => {
            push_wait_body(&mut o, row, &s, *seconds);
        },
        StepKind::SendInput { device_path, input_source, wait } => {
            let label = labeller.label(device_path.as_str());
            proof {
                assert(labeller.labels@.skip(0) == labeller.labels@);
                lemma_labeller_label(labeller.labels@, aliases, monitors, device_path@, 0);
            }
            push_send_body(&mut o, row, &s, device_path.as_str(), label.as_str(), *input_source, *wait, step.side);
        },
    }
    assert(o@ =~= step_block_of(row as int, *step, aliases, monitors));
    o
}

/// The placeholder the render time fills, in both templates.
pub const RENDERED_AT_SLOT: &'static str = "{{RENDERED_AT}}";

/// The probe script. `rendered_at` lands in the header so a user can tell which app
/// start wrote the file.
pub fn render_probe(rendered_at: &str) -> (r: Script)
    ensures
        r.text@ == replace(PROBE_TEMPLATE@, RENDERED_AT_SLOT@, rendered_at@),
{
    let slot = chars_of(RENDERED_AT_SLOT);
    let text = if slot.len() == 0 {
        chars_of(PROBE_TEMPLATE)
    } else {
        replace_exec(&chars_of(PROBE_TEMPLATE), &slot, &chars_of(rendered_at))
    };
    Script { text: string_of(&text) }
}

/// Each placeholder replaced in turn, first to last, every occurrence of it.
pub open spec fn fill(text: Seq<char>, fills: Seq<(Seq<char>, Seq<char>)>) -> Seq<char>
    decreases fills.len(),
{
    if fills.len() == 0 {
        text
    } else {
        fill(replace(text, fills[0].0, fills[0].1), fills.drop_first())
    }
}

pub open spec fn fill_views(fills: Seq<(Vec<char>, Vec<char>)>) -> Seq<(Seq<char>, Seq<char>)> {
    fills.map_values(|f: (Vec<char>, Vec<char>)| (f.0@, f.1@))
}

fn fill_exec(text: Vec<char>, fills: &Vec<(Vec<char>, Vec<char>)>) -> (r: Vec<char>)
    ensures
        r@ == fill(text@, fill_views(fills@)),
{
    let ghost all = fill_views(fills@);
    let mut out = text;
    let mut i: usize = 0;
    assert(all.skip(0) =~= all);
    while i < fills.len()
        invariant
            i <= fills.len(),
            all == fill_views(fills@),
            fill(text@, all) == fill(out@, all.skip(i as int)),
        decreases fills.len() - i,
    {
        assert(all.skip(i as int).drop_first() =~= all.skip(i + 1));
        assert(all.skip(i as int)[0] == (fills@[i as int].0@, fills@[i as int].1@));
        if fills[i].0.len() > 0 {
            out = replace_exec(&out, &fills[i].0, &fills[i].1);
        }
        i = i + 1;
    }
    assert(all.skip(fills.len() as int) =~= Seq::<(Seq<char>, Seq<char>)>::empty());
    out
}

/// The header entry of each row: `[row/of] name`.
pub open spec fn header_items(rows: Seq<Seq<char>>) -> Seq<Seq<char>> {
    Seq::new(
        rows.len(),
        |i: int| "["@ + dec(i + 1) + "/"@ + dec(rows.len() as int) + "] "@ + rows[i],
    )
}

/// The line a monitor reads as in the script's on or off list: its label, then its
/// device path as a comment.
pub open spec fn monitor_entry(
    aliases: Seq<(String, String)>,
    monitors: Seq<SummaryMonitor>,
    i: int,
) -> Seq<char> {
    "    '"@ + ps_escape_of(label_of(aliases, monitors, i)) + "'   # "@ + ps_escape_of(
        monitors[i].device_path@,
    )
}

/// The entries of the first `k` monitors that are on (or off), in summary order.
pub open spec fn monitor_entries(
    aliases: Seq<(String, String)>,
    monitors: Seq<SummaryMonitor>,
    on: bool,
    k: int,
) -> Seq<Seq<char>>
    decreases k,
{
    if k <= 0 {
        Seq::empty()
    } else {
        let prev = monitor_entries(aliases, monitors, on, k - 1);
        if monitors[k - 1].on == on {
            prev.push(monitor_entry(aliases, monitors, k - 1))
        } else {
            prev
        }
    }
}

/// The word the apply fallback is passed to the script as.
pub open spec fn failure_word(f: ApplyFailure) -> Seq<char> {
    match f {
        ApplyFailure::Stop => "stop"@,
        ApplyFailure::Extend => "extend"@,
    }
}

/// The blocks of the steps before the apply, at rows 2 onwards.
pub open spec fn before_blocks(
    steps: Seq<Step>,
    aliases: Seq<(String, String)>,
    monitors: Seq<SummaryMonitor>,
) -> Seq<Seq<char>> {
    side_steps(steps, StepSide::Before).map(
        |i: int, s: Step| step_block_of(i + 2, s, aliases, monitors),
    )
}

/// The blocks of the steps after the apply, at the rows after Apply arrangement.
pub open spec fn after_blocks(
    steps: Seq<Step>,
    aliases: Seq<(String, String)>,
    monitors: Seq<SummaryMonitor>,
) -> Seq<Seq<char>> {
    let nb = side_steps(steps, StepSide::Before).len();
    side_steps(steps, StepSide::After).map(
        |i: int, s: Step| step_block_of(i + nb + 3, s, aliases, monitors),
    )
}

/// Every placeholder of the switch template with what fills it, in the order they are
/// filled.
pub open spec fn switch_fills(
    layout: Layout,
    aliases: Seq<(String, String)>,
    app_root: Seq<char>,
    rendered_at: Seq<char>,
    arrangement_json: Seq<char>,
    summary_json: Seq<char>,
) -> Seq<(Seq<char>, Seq<char>)> {
    let monitors = layout.summary.monitors@;
    let steps = layout.steps@;
    let rows = rows_of(steps, aliases, monitors);
    let n = rows.len() as int;
    seq![
        ("{{STEPS_HEADER}}"@, joined(header_items(rows), "  "@)),
        ("{{STEP_COUNT}}"@, dec(n)),
        ("{{APPLY_STEP}}"@, dec(side_steps(steps, StepSide::Before).len() + 2int)),
        ("{{VERIFY_STEP}}"@, dec(n)),
        ("{{DROP_WAIT_SECONDS}}"@, dec(layout.drop_wait_seconds as int)),
        ("{{AVAILABLE_WAIT_SECONDS}}"@, dec(layout.available_wait_seconds as int)),
        ("{{ON_APPLY_FAILURE}}"@, failure_word(layout.on_apply_failure)),
        ("{{STEPS_BEFORE_PS}}"@, joined(before_blocks(steps, aliases, monitors), "\n"@)),
        ("{{STEPS_AFTER_PS}}"@, joined(after_blocks(steps, aliases, monitors), "\n"@)),
        ("{{LAYOUT_NAME}}"@, layout.name@),
        ("{{LAYOUT_NAME_PS}}"@, ps_escape_of(layout.name@)),
        ("{{LAYOUT_ID}}"@, ps_escape_of(layout.id@)),
        ("{{CAPTURED_AT}}"@, ps_escape_of(layout.captured_at@)),
        ("{{APP_ROOT_PS}}"@, ps_escape_of(app_root)),
        (RENDERED_AT_SLOT@, rendered_at),
        ("{{TEMPLATE_VERSION}}"@, dec(TEMPLATE_VERSION as int)),
        ("{{MONITORS_ON_PS}}"@, joined(monitor_entries(aliases, monitors, true, monitors.len() as int), "\n"@)),
        ("{{MONITORS_OFF_PS}}"@, joined(monitor_entries(aliases, monitors, false, monitors.len() as int), "\n"@)),
        ("{{ARRANGEMENT_JSON}}"@, arrangement_json),
        ("{{SUMMARY_JSON}}"@, summary_json),
    ]
}

fn dec_chars(n: u64) -> (r: Vec<char>)
    ensures
        r@ == dec(n as int),
{
    let mut o: Vec<char> = Vec::new();
    push_dec(&mut o, n);
    assert(o@ =~= dec(n as int));
    o
}

pub open spec fn row_views(rows: Seq<String>) -> Seq<Seq<char>> {
    rows.map_values(|r: String| r@)
}

/// The header line's entries for the rows, joined by two spaces.
fn header_line(rows: &Vec<String>) -> (r: Vec<char>)
    ensures
        r@ == joined(header_items(row_views(rows@)), "  "@),
{
    let ghost want = header_items(row_views(rows@));
    let mut items: Vec<Vec<char>> = Vec::new();
    let mut i: usize = 0;
    while i < rows.len()
        invariant
            i <= rows.len(),
            want == header_items(row_views(rows@)),
            items.len() == i,
            forall|k: int| 0 <= k < i ==> (#[trigger] items@[k])@ == want[k],
        decreases rows.len() - i,
    {
        let mut o: Vec<char> = Vec::new();
        append_str(&mut o, "[");
        push_dec(&mut o, (i as u64) + 1);
        append_str(&mut o, "/");
        push_dec(&mut o, rows.len() as u64);
        append_str(&mut o, "] ");
        append_str(&mut o, rows[i].as_str());
        assert(o@ =~= want[i as int]);
        items.push(o);
        i = i + 1;
    }
    assert(views_of(items@) =~= want);
    let mut out: Vec<char> = Vec::new();
    push_joined(&mut out, &items, "  ");
    assert(out@ =~= joined(want, "  "@));
    out
}

/// The script's on (or off) list: one entry per monitor that is on (or off).
fn monitor_list(
    aliases: &Vec<(String, String)>,
    monitors: &Vec<SummaryMonitor>,
    labels: &Vec<String>,
    on: bool,
) -> (r: Vec<char>)
    requires
        labels.len() == monitors.len(),
        forall|i: int| 0 <= i < labels.len() ==> (#[trigger] labels[i])@ == label_of(aliases@, monitors@, i),
    ensures
        r@ == joined(monitor_entries(aliases@, monitors@, on, monitors.len() as int), "\n"@),
{
    let mut items: Vec<Vec<char>> = Vec::new();
    let mut i: usize = 0;
    while i < monitors.len()
        invariant
            i <= monitors.len(),
            labels.len() == monitors.len(),
            forall|k: int| 0 <= k < labels.len() ==> (#[trigger] labels[k])@ == label_of(aliases@, monitors@, k),
            views_of(items@) == monitor_entries(aliases@, monitors@, on, i as int),
        decreases monitors.len() - i,
    {
        if monitors[i].on == on {
            let mut o: Vec<char> = Vec::new();
            append_str(&mut o, "    '");
            append(&mut o, &escape_chars(&chars_of(labels[i].as_str())));
            append_str(&mut o, "'   # ");
            append(&mut o, &escape_chars(&chars_of(monitors[i].device_path.as_str())));
            assert(o@ =~= monitor_entry(aliases@, monitors@, i as int));
            let ghost prev = items@;
            items.push(o);
            assert(views_of(items@) =~= views_of(prev).push(o@));
        }
        i = i + 1;
    }
    let mut out: Vec<char> = Vec::new();
    push_joined(&mut out, &items, "\n");
    assert(out@ =~= joined(monitor_entries(aliases@, monitors@, on, monitors.len() as int), "\n"@));
    out
}

/// The blocks of the steps on one side, numbered from `first`, joined by a newline.
fn side_blocks(
    layout: &Layout,
    labeller: &StepLabeller,
    side: StepSide,
    first: u32,
    Ghost(aliases): Ghost<Seq<(String, String)>>,
) -> (r: Vec<char>)
    requires
        first as int + side_steps(layout.steps@, side).len() <= u32::MAX,
        labeller.labels.len() == layout.summary.monitors.len(),
        forall|q: int|
            0 <= q < layout.summary.monitors.len() ==> (#[trigger] labeller.labels@[q]).0@
                == layout.summary.monitors@[q].device_path@ && labeller.labels@[q].1@ == label_of(
                aliases,
                layout.summary.monitors@,
                q,
            ),
    ensures
        r@ == joined(
            side_steps(layout.steps@, side).map(
                |i: int, s: Step| step_block_of(i + first, s, aliases, layout.summary.monitors@),
            ),
            "\n"@,
        ),
{
    let ghost monitors = layout.summary.monitors@;
    let steps = &layout.steps;
    let idx = side_indices(steps, side);
    let ghost ss = side_steps(steps@, side);
    let ghost want = ss.map(|i: int, s: Step| step_block_of(i + first, s, aliases, monitors));
    proof {
        lemma_sides_fit(steps@);
    }
    let mut items: Vec<Vec<char>> = Vec::new();
    let mut k: usize = 0;
    while k < idx.len()
        invariant
            k <= idx.len(),
            idx.len() == ss.len(),
            ss == side_steps(steps@, side),
            first as int + ss.len() <= u32::MAX,
            monitors == layout.summary.monitors@,
            want == ss.map(|i: int, s: Step| step_block_of(i + first, s, aliases, monitors)),
            labeller.labels.len() == monitors.len(),
            forall|q: int|
                0 <= q < monitors.len() ==> (#[trigger] labeller.labels@[q]).0@
                    == monitors[q].device_path@ && labeller.labels@[q].1@ == label_of(
                    aliases,
                    monitors,
                    q,
                ),
            forall|q: int|
                0 <= q < idx.len() ==> (#[trigger] idx[q]) < steps.len() && steps@[idx[q] as int]
                    == ss[q],
            items.len() == k,
            forall|q: int| 0 <= q < k ==> (#[trigger] items@[q])@ == want[q],
        decreases idx.len() - k,
    {
        let block = step_block(first + (k as u32), &steps[idx[k]], labeller, Ghost(aliases), Ghost(monitors));
        items.push(block);
        k = k + 1;
    }
    assert(views_of(items@) =~= want);
    let mut out: Vec<char> = Vec::new();
    push_joined(&mut out, &items, "\n");
    assert(out@ =~= joined(want, "\n"@));
    out
}

fn failure_chars(f: ApplyFailure) -> (r: Vec<char>)
    ensures
        r@ == failure_word(f),
{
    match f {
        ApplyFailure::Stop => chars_of("stop"),
        ApplyFailure::Extend => chars_of("extend"),
    }
}

fn slot(p: &str, v: Vec<char>) -> (r: (Vec<char>, Vec<char>))
    ensures
        r.0@ == p@,
        r.1@ == v@,
{
    (chars_of(p), v)
}

/// The switch template's fills for a layout.
#[verifier::spinoff_prover]
#[verifier::rlimit(40)]
fn switch_fill_list(
    layout: &Layout,
    aliases: &Vec<(String, String)>,
    app_root: &str,
    rendered_at: &str,
    arrangement_json: &str,
    summary_json: &str,
) -> (r: Vec<(Vec<char>, Vec<char>)>)
    requires
        layout.steps.len() + 3 <= u32::MAX,
    ensures
        fill_views(r@) == switch_fills(
            *layout,
            aliases@,
            app_root@,
            rendered_at@,
            arrangement_json@,
            summary_json@,
        ),
{
    let ghost monitors = layout.summary.monitors@;
    let t = timeline(layout, aliases);
    let labels = monitor_labels(aliases, &layout.summary.monitors);
    let labeller = step_labeller(aliases, &layout.summary.monitors);
    proof {
        lemma_sides_fit(layout.steps@);
        assert(row_views(t.rows@) == rows_of(layout.steps@, aliases@, monitors));
    }
    let n = t.rows.len() as u64;
    let nb = t.apply - 2;
    let ghost steps = layout.steps@;
    let ghost want = switch_fills(*layout, aliases@, app_root@, rendered_at@, arrangement_json@, summary_json@);
    let before = side_blocks(layout, &labeller, StepSide::Before, 2, Ghost(aliases@));
    let after = side_blocks(layout, &labeller, StepSide::After, nb + 3, Ghost(aliases@));
    assert(side_steps(steps, StepSide::Before).map(
        |i: int, s: Step| step_block_of(i + 2u32, s, aliases@, monitors),
    ) =~= before_blocks(steps, aliases@, monitors));
    assert(side_steps(steps, StepSide::After).map(
        |i: int, s: Step| step_block_of(i + (nb + 3u32), s, aliases@, monitors),
    ) =~= after_blocks(steps, aliases@, monitors));
    let header = header_line(&t.rows);
    let on = monitor_list(aliases, &layout.summary.monitors, &labels, true);
    let off = monitor_list(aliases, &layout.summary.monitors, &labels, false);
    let mut r: Vec<(Vec<char>, Vec<char>)> = Vec::new();
    r.push(slot("{{STEPS_HEADER}}", header));
    r.push(slot("{{STEP_COUNT}}", dec_chars(n)));
    r.push(slot("{{APPLY_STEP}}", dec_chars(t.apply as u64)));
    r.push(slot("{{VERIFY_STEP}}", dec_chars(n)));
    r.push(slot("{{DROP_WAIT_SECONDS}}", dec_chars(layout.drop_wait_seconds as u64)));
    r.push(slot("{{AVAILABLE_WAIT_SECONDS}}", dec_chars(layout.available_wait_seconds as u64)));
    r.push(slot("{{ON_APPLY_FAILURE}}", failure_chars(layout.on_apply_failure)));
    r.push(slot("{{STEPS_BEFORE_PS}}", before));
    r.push(slot("{{STEPS_AFTER_PS}}", after));
    r.push(slot("{{LAYOUT_NAME}}", chars_of(layout.name.as_str())));
    r.push(slot("{{LAYOUT_NAME_PS}}", escape_chars(&chars_of(layout.name.as_str()))));
    r.push(slot("{{LAYOUT_ID}}", escape_chars(&chars_of(layout.id.as_str()))));
    r.push(slot("{{CAPTURED_AT}}", escape_chars(&chars_of(layout.captured_at.as_str()))));
    r.push(slot("{{APP_ROOT_PS}}", escape_chars(&chars_of(app_root))));
    r.push(slot(RENDERED_AT_SLOT, chars_of(rendered_at)));
    r.push(slot("{{TEMPLATE_VERSION}}", dec_chars(TEMPLATE_VERSION as u64)));
    r.push(slot("{{MONITORS_ON_PS}}", on));
    r.push(slot("{{MONITORS_OFF_PS}}", off));
    r.push(slot("{{ARRANGEMENT_JSON}}", chars_of(arrangement_json)));
    r.push(slot("{{SUMMARY_JSON}}", chars_of(summary_json)));
    assert(fill_views(r@).len() == want.len());
    assert forall|k: int| 0 <= k < want.len() implies fill_views(r@)[k] == want[k] by {
        assert(row_views(t.rows@) == rows_of(steps, aliases@, monitors));
    }
    assert(fill_views(r@) =~= want);
    r
}

/// The layout's switch script. `aliases` is the config's alias list, `app_root` is where
/// the lock file lives, `rendered_at` goes in the header, and the two JSON texts are the
/// layout's arrangement and its summary with labels, embedded as they are.
pub fn render_switch(
    layout: &Layout,
    aliases: &Vec<(String, String)>,
    app_root: &str,
    rendered_at: &str,
    arrangement_json: &str,
    summary_json: &str,
) -> (r: Script)
    requires
        layout.steps.len() + 3 <= u32::MAX,
    ensures
        r.text@ == switch_text(*layout, aliases@, app_root@, rendered_at@, arrangement_json@, summary_json@),
        r.text@ == fill(
            switch_template(),
            switch_fills(*layout, aliases@, app_root@, rendered_at@, arrangement_json@, summary_json@),
        ),
{
    let fills = switch_fill_list(layout, aliases, app_root, rendered_at, arrangement_json, summary_json);
    let text = fill_exec(switch_template_chars(), &fills);
    Script { text: string_of(&text) }
}

/// One monitor as the switch script's embedded summary holds it: named by its label,
/// with a missing position or size read as zero.
#[derive(Debug, Clone, PartialEq, Eq)]
pub struct EmbeddedMonitor {
    pub device_path: String,
    pub label: String,
    pub on: bool,
    pub x: i32,
    pub y: i32,
    pub width: u32,
    pub height: u32,
    /// The refresh rate in thousandths of a hertz.
    pub refresh_mhz: Option<u64>,
    pub rotation: Option<u32>,
    pub scale_percent: Option<u32>,
    pub primary: bool,
}

/// Whether `e` is monitor `i` of the summary as the script embeds it.
pub open spec fn embeds(
    e: EmbeddedMonitor,
    aliases: Seq<(String, String)>,
    monitors: Seq<SummaryMonitor>,
    i: int,
) -> bool {
    let m = monitors[i];
    &&& e.device_path@ == m.device_path@
    &&& e.label@ == label_of(aliases, monitors, i)
    &&& e.on == m.on
    &&& e.x == (match m.position { Some(p) => p.x, None => 0 })
    &&& e.y == (match m.position { Some(p) => p.y, None => 0 })
    &&& e.width == (match m.size { Some(z) => z.width, None => 0 })
    &&& e.height == (match m.size { Some(z) => z.height, None => 0 })
    &&& e.refresh_mhz == m.refresh_mhz
    &&& e.rotation == m.rotation
    &&& e.scale_percent == m.scale_percent
    &&& e.primary == m.primary
}

/// The summary a switch script embeds: every monitor of the layout's summary, in order,
/// under its label.
pub fn embedded_summary(layout: &Layout, aliases: &Vec<(String, String)>) -> (r: Vec<EmbeddedMonitor>)
    ensures
        r.len() == layout.summary.monitors.len(),
        forall|i: int|
            0 <= i < r.len() ==> embeds(#[trigger] r[i], aliases@, layout.summary.monitors@, i),
{
    let monitors = &layout.summary.monitors;
    let labels = monitor_labels(aliases, monitors);
    let mut r: Vec<EmbeddedMonitor> = Vec::new();
    let mut i: usize = 0;
    while i < monitors.len()
        invariant
            i <= monitors.len(),
            monitors == &layout.summary.monitors,
            labels.len() == monitors.len(),
            forall|k: int| 0 <= k < labels.len() ==> (#[trigger] labels[k])@ == label_of(aliases@, monitors@, k),
            r.len() == i,
            forall|k: int| 0 <= k < i ==> embeds(#[trigger] r[k], aliases@, monitors@, k),
        decreases monitors.len() - i,
    {
        let m = &monitors[i];
        let (x, y) = match m.position {
            Some(p) => (p.x, p.y),
            None => (0, 0),
        };
        let (width, height) = match m.size {
            Some(z) => (z.width, z.height),
            None => (0, 0),
        };
        r.push(EmbeddedMonitor {
            device_path: string_of(&chars_of(m.device_path.as_str())),
            label: string_of(&chars_of(labels[i].as_str())),
            on: m.on,
            x,
            y,
            width,
            height,
            refresh_mhz: m.refresh_mhz,
            rotation: m.rotation,
            scale_percent: m.scale_percent,
            primary: m.primary,
        });
        i = i + 1;
    }
    r
}

/// The shape of every timeline: three rows more than the layout has steps, Check
/// monitors first, Apply arrangement right after the steps before it, Verify last.
pub proof fn lemma_timeline_shape(
    steps: Seq<Step>,
    aliases: Seq<(String, String)>,
    monitors: Seq<SummaryMonitor>,
)
    ensures
        rows_of(steps, aliases, monitors).len() == steps.len() + 3,
        rows_of(steps, aliases, monitors)[0] == CHECK_ROW@,
        rows_of(steps, aliases, monitors)[side_steps(steps, StepSide::Before).len() + 1int]
            == APPLY_ROW@,
        rows_of(steps, aliases, monitors).last() == VERIFY_ROW@,
{
    lemma_sides_fit(steps);
    let nb = side_steps(steps, StepSide::Before).len();
    let rows = rows_of(steps, aliases, monitors);
    let b = side_steps(steps, StepSide::Before).map_values(|s: Step| sentence_of(s, aliases, monitors));
    let a = side_steps(steps, StepSide::After).map_values(|s: Step| sentence_of(s, aliases, monitors));
    assert(rows =~= seq![CHECK_ROW@] + b + seq![APPLY_ROW@] + a + seq![VERIFY_ROW@]);
    assert(rows[nb + 1int] == APPLY_ROW@);
}

/// The monitors a layout turns on (`on` true) or leaves off, by index in summary order.
pub open spec fn indices_with(monitors: Seq<SummaryMonitor>, on: bool) -> Seq<int> {
    Seq::new(monitors.len(), |i: int| i).filter(|i: int| monitors[i].on == on)
}

proof fn lemma_entries_filtered(
    aliases: Seq<(String, String)>,
    monitors: Seq<SummaryMonitor>,
    on: bool,
    k: int,
)
    requires
        0 <= k <= monitors.len(),
    ensures
        monitor_entries(aliases, monitors, on, k) == Seq::new(k as nat, |i: int| i).filter(
            |i: int| monitors[i].on == on,
        ).map_values(|i: int| monitor_entry(aliases, monitors, i)),
        Seq::new(k as nat, |i: int| i).filter(|i: int| monitors[i].on == on).len() + Seq::new(
            k as nat,
            |i: int| i,
        ).filter(|i: int| monitors[i].on == !on).len() == k,
    decreases k,
{
    reveal(Seq::filter);
    let s = Seq::new(k as nat, |i: int| i);
    let keep = |i: int| monitors[i].on == on;
    let other = |i: int| monitors[i].on == !on;
    let entry = |i: int| monitor_entry(aliases, monitors, i);
    if k > 0 {
        lemma_entries_filtered(aliases, monitors, on, k - 1);
        let t = Seq::new((k - 1) as nat, |i: int| i);
        assert(s.drop_last() =~= t);
        assert(s.last() == k - 1);
        let prev = t.filter(keep);
        if monitors[k - 1].on == on {
            assert(s.filter(keep) == prev.push(k - 1));
            assert(s.filter(other) == t.filter(other));
            assert(prev.push(k - 1).map_values(entry) =~= prev.map_values(entry).push(entry(k - 1)));
        } else {
            assert(s.filter(keep) == prev);
            assert(s.filter(other) == t.filter(other).push(k - 1));
        }
    } else {
        assert(s.len() == 0);
        assert(s.filter(keep).len() == 0);
        assert(s.filter(other).len() == 0);
        assert(s.filter(keep).map_values(entry) =~= Seq::<Seq<char>>::empty());
    }
}

/// The monitor lists of a switch script: the on list holds, in summary order, the entry
/// of each monitor the layout turns on (its label and its device path, both escaped), the
/// off list that of each monitor it leaves off, and every monitor stands in exactly one of
/// them. A layout without monitors gets two empty lists.
pub proof fn lemma_monitor_lists(
    layout: Layout,
    aliases: Seq<(String, String)>,
    app_root: Seq<char>,
    rendered_at: Seq<char>,
    arrangement_json: Seq<char>,
    summary_json: Seq<char>,
)
    ensures
        ({
            let f = switch_fills(layout, aliases, app_root, rendered_at, arrangement_json, summary_json);
            let ms = layout.summary.monitors@;
            &&& f[16] == ("{{MONITORS_ON_PS}}"@, joined(
                indices_with(ms, true).map_values(|i: int| monitor_entry(aliases, ms, i)),
                "\n"@,
            ))
            &&& f[17] == ("{{MONITORS_OFF_PS}}"@, joined(
                indices_with(ms, false).map_values(|i: int| monitor_entry(aliases, ms, i)),
                "\n"@,
            ))
            &&& indices_with(ms, true).len() + indices_with(ms, false).len() == ms.len()
            &&& forall|i: int|
                0 <= i < ms.len() ==> (#[trigger] indices_with(ms, ms[i].on)).contains(i)
                    && !indices_with(ms, !ms[i].on).contains(i)
            &&& ms.len() == 0 ==> f[16].1 == Seq::<char>::empty() && f[17].1 == Seq::<char>::empty()
        }),
{
    let ms = layout.summary.monitors@;
    let n = ms.len() as int;
    lemma_entries_filtered(aliases, ms, true, n);
    lemma_entries_filtered(aliases, ms, false, n);
    assert(monitor_entries(aliases, ms, true, n) == indices_with(ms, true).map_values(
        |i: int| monitor_entry(aliases, ms, i),
    ));
    assert(monitor_entries(aliases, ms, false, n) == indices_with(ms, false).map_values(
        |i: int| monitor_entry(aliases, ms, i),
    ));
    let all = Seq::new(ms.len(), |i: int| i);
    assert forall|i: int| 0 <= i < ms.len() implies (#[trigger] indices_with(ms, ms[i].on)).contains(i)
        && !indices_with(ms, !ms[i].on).contains(i) by {
        let on = ms[i].on;
        let keep = |j: int| ms[j].on == on;
        let other = |j: int| ms[j].on == !on;
        assert(all[i] == i);
        all.lemma_filter_contains(keep, i);
        if all.filter(other).contains(i) {
            let w = choose|w: int| 0 <= w < all.filter(other).len() && all.filter(other)[w] == i;
            all.lemma_filter_pred(other, w);
        }
    }
    if ms.len() == 0 {
        reveal(Seq::filter);
        assert(indices_with(ms, true).len() == 0);
        assert(indices_with(ms, false).len() == 0);
    }
}

/// The header and counts of a switch script: the header lists every row as
/// `[row/of] row`, joined by two spaces; the step count and the verify row are the number
/// of rows, three more than the layout's steps, with Verify the last row; the apply row
/// is the row that reads Apply arrangement; the app root is passed escaped.
pub proof fn lemma_header_and_counts(
    layout: Layout,
    aliases: Seq<(String, String)>,
    app_root: Seq<char>,
    rendered_at: Seq<char>,
    arrangement_json: Seq<char>,
    summary_json: Seq<char>,
)
    ensures
        ({
            let f = switch_fills(layout, aliases, app_root, rendered_at, arrangement_json, summary_json);
            let rows = rows_of(layout.steps@, aliases, layout.summary.monitors@);
            let n = layout.steps.len() + 3;
            let apply = side_steps(layout.steps@, StepSide::Before).len() + 2;
            &&& rows.len() == n
            &&& f[0] == ("{{STEPS_HEADER}}"@, joined(
                Seq::new(
                    n as nat,
                    |i: int| "["@ + dec(i + 1) + "/"@ + dec(n as int) + "] "@ + rows[i],
                ),
                "  "@,
            ))
            &&& f[1] == ("{{STEP_COUNT}}"@, dec(n as int))
            &&& f[2] == ("{{APPLY_STEP}}"@, dec(apply as int))
            &&& rows[apply - 1] == APPLY_ROW@
            &&& f[3] == ("{{VERIFY_STEP}}"@, dec(n as int))
            &&& rows[n - 1] == VERIFY_ROW@
            &&& f[13] == ("{{APP_ROOT_PS}}"@, ps_escape_of(app_root))
        }),
{
    let rows = rows_of(layout.steps@, aliases, layout.summary.monitors@);
    lemma_timeline_shape(layout.steps@, aliases, layout.summary.monitors@);
    assert(header_items(rows) =~= Seq::new(
        rows.len(),
        |i: int| "["@ + dec(i + 1) + "/"@ + dec(rows.len() as int) + "] "@ + rows[i],
    ));
}

proof fn lemma_switch_placeholders(
    layout: Layout,
    aliases: Seq<(String, String)>,
    app_root: Seq<char>,
    rendered_at: Seq<char>,
    arrangement_json: Seq<char>,
    summary_json: Seq<char>,
)
    ensures
        ({
            let f = switch_fills(layout, aliases, app_root, rendered_at, arrangement_json, summary_json);
            &&& f.len() == 20
            &&& all_slots(f)
            &&& forall|a: int, b: int| 0 <= a < b < 20 ==> f[a].0 != f[b].0
        }),
{
    reveal_strlit("{{STEPS_HEADER}}");
    reveal_strlit("{{STEP_COUNT}}");
    reveal_strlit("{{APPLY_STEP}}");
    reveal_strlit("{{VERIFY_STEP}}");
    reveal_strlit("{{DROP_WAIT_SECONDS}}");
    reveal_strlit("{{AVAILABLE_WAIT_SECONDS}}");
    reveal_strlit("{{ON_APPLY_FAILURE}}");
    reveal_strlit("{{STEPS_BEFORE_PS}}");
    reveal_strlit("{{STEPS_AFTER_PS}}");
    reveal_strlit("{{LAYOUT_NAME}}");
    reveal_strlit("{{LAYOUT_NAME_PS}}");
    reveal_strlit("{{LAYOUT_ID}}");
    reveal_strlit("{{CAPTURED_AT}}");
    reveal_strlit("{{APP_ROOT_PS}}");
    reveal_strlit("{{RENDERED_AT}}");
    reveal_strlit("{{TEMPLATE_VERSION}}");
    reveal_strlit("{{MONITORS_ON_PS}}");
    reveal_strlit("{{MONITORS_OFF_PS}}");
    reveal_strlit("{{ARRANGEMENT_JSON}}");
    reveal_strlit("{{SUMMARY_JSON}}");
    let f = switch_fills(layout, aliases, app_root, rendered_at, arrangement_json, summary_json);
    assert forall|k: int| 0 <= k < f.len() implies is_slot(#[trigger] f[k].0) by {
        let q = f[k].0;
        assert forall|i: int| 2 <= i < q.len() - 2 implies slot_name_char(#[trigger] q[i]) by {}
    }
    assert forall|a: int, b: int| 0 <= a < b < 20 implies f[a].0 != f[b].0 by {
        let x = f[a].0;
        let y = f[b].0;
        if x.len() == y.len() {
            assert(x[2] != y[2] || x[3] != y[3]);
        }
    }
}

/// The text of a layout's switch script, as [`render_switch`] renders it.
pub open spec fn switch_text(
    layout: Layout,
    aliases: Seq<(String, String)>,
    app_root: Seq<char>,
    rendered_at: Seq<char>,
    arrangement_json: Seq<char>,
    summary_json: Seq<char>,
) -> Seq<char> {
    fill(switch_template(), switch_fills(layout, aliases, app_root, rendered_at, arrangement_json, summary_json))
}

proof fn lemma_line_filled(
    layout: Layout,
    aliases: Seq<(String, String)>,
    app_root: Seq<char>,
    rendered_at: Seq<char>,
    arrangement_json: Seq<char>,
    summary_json: Seq<char>,
    x: Seq<char>,
    h: Seq<char>,
    p: Seq<char>,
    t: Seq<char>,
    z: Seq<char>,
    j: int,
)
    requires
        switch_template() == x + (h + p + t) + z,
        0 <= j < 20,
        switch_fills(layout, aliases, app_root, rendered_at, arrangement_json, summary_json)[j].0 == p,
        brace_free(switch_fills(layout, aliases, app_root, rendered_at, arrangement_json, summary_json)[j].1),
        no_open_brace(h),
        no_open_brace(t),
        h.len() > 0,
        t.len() > 0,
        outside_slots(h[0]),
        outside_slots(t.last()),
        t[0] != '}',
    ensures
        holds(
            switch_text(layout, aliases, app_root, rendered_at, arrangement_json, summary_json),
            h + switch_fills(layout, aliases, app_root, rendered_at, arrangement_json, summary_json)[j].1 + t,
        ),
{
    let f = switch_fills(layout, aliases, app_root, rendered_at, arrangement_json, summary_json);
    lemma_switch_placeholders(layout, aliases, app_root, rendered_at, arrangement_json, summary_json);
    let parts = lemma_fill_line(x, h, p, t, z, f, j);
    let piece = h + f[j].1 + t;
    assert(switch_text(layout, aliases, app_root, rendered_at, arrangement_json, summary_json) == parts.0 + piece + parts.1);
}

proof fn lemma_dec_brace_free(n: nat)
    ensures
        brace_free(dec(n as int)),
{
    lemma_decimal_digits(n);
    let d = dec(n as int);
    assert forall|i: int| 0 <= i && i + 1 < d.len() implies !(#[trigger] d[i] == '{' && d[i + 1] == '{') by {
        assert('0' <= digits(n, 10)[i] <= '9');
    }
}

#[verifier::spinoff_prover]
proof fn lemma_header_line_filled(
    layout: Layout,
    aliases: Seq<(String, String)>,
    app_root: Seq<char>,
    rendered_at: Seq<char>,
    arrangement_json: Seq<char>,
    summary_json: Seq<char>,
)
    requires
        brace_free(switch_fills(layout, aliases, app_root, rendered_at, arrangement_json, summary_json)[0].1),
    ensures
        holds(switch_text(layout, aliases, app_root, rendered_at, arrangement_json, summary_json), "# Steps: "@ + switch_fills(layout, aliases, app_root, rendered_at, arrangement_json, summary_json)[0].1 + "\n"@),
{
    reveal_strlit("# Steps: {{STEPS_HEADER}}\n");
    reveal_strlit("# Steps: ");
    reveal_strlit("{{STEPS_HEADER}}");
    reveal_strlit("\n");
    let o = SWITCH_OPENING@;
    let hl = SWITCH_HEADER_LINE@;
    let st = SWITCH_SETTINGS@;
    let rl = SWITCH_ROOT_LINE@;
    let cl = SWITCH_COUNT_LINE@;
    let al = SWITCH_APPLY_LINE@;
    let vl = SWITCH_VERIFY_LINE@;
    let on = SWITCH_ON_LIST@;
    let off = SWITCH_OFF_LIST@;
    let body = SWITCH_BODY@;
    let line = "# Steps: "@ + "{{STEPS_HEADER}}"@ + "\n"@;
    assert(hl =~= line);
    assert(switch_template() =~= (o) + line + (st + rl + cl + al + vl + on + off + body));
    lemma_line_filled(layout, aliases, app_root, rendered_at, arrangement_json, summary_json, o, "# Steps: "@, "{{STEPS_HEADER}}"@, "\n"@, st + rl + cl + al + vl + on + off + body, 0);
}

#[verifier::spinoff_prover]
proof fn lemma_root_line_filled(
    layout: Layout,
    aliases: Seq<(String, String)>,
    app_root: Seq<char>,
    rendered_at: Seq<char>,
    arrangement_json: Seq<char>,
    summary_json: Seq<char>,
)
    requires
        brace_free(switch_fills(layout, aliases, app_root, rendered_at, arrangement_json, summary_json)[13].1),
    ensures
        holds(switch_text(layout, aliases, app_root, rendered_at, arrangement_json, summary_json), "$AppRoot       = '"@ + switch_fills(layout, aliases, app_root, rendered_at, arrangement_json, summary_json)[13].1 + "'\n"@),
{
    reveal_strlit("$AppRoot       = '{{APP_ROOT_PS}}'\n");
    reveal_strlit("$AppRoot       = '");
    reveal_strlit("{{APP_ROOT_PS}}");
    reveal_strlit("'\n");
    let o = SWITCH_OPENING@;
    let hl = SWITCH_HEADER_LINE@;
    let st = SWITCH_SETTINGS@;
    let rl = SWITCH_ROOT_LINE@;
    let cl = SWITCH_COUNT_LINE@;
    let al = SWITCH_APPLY_LINE@;
    let vl = SWITCH_VERIFY_LINE@;
    let on = SWITCH_ON_LIST@;
    let off = SWITCH_OFF_LIST@;
    let body = SWITCH_BODY@;
    let line = "$AppRoot       = '"@ + "{{APP_ROOT_PS}}"@ + "'\n"@;
    assert(rl =~= line);
    assert(switch_template() =~= (o + hl + st) + line + (cl + al + vl + on + off + body));
    lemma_line_filled(layout, aliases, app_root, rendered_at, arrangement_json, summary_json, o + hl + st, "$AppRoot       = '"@, "{{APP_ROOT_PS}}"@, "'\n"@, cl + al + vl + on + off + body, 13);
}

#[verifier::spinoff_prover]
proof fn lemma_count_line_filled(
    layout: Layout,
    aliases: Seq<(String, String)>,
    app_root: Seq<char>,
    rendered_at: Seq<char>,
    arrangement_json: Seq<char>,
    summary_json: Seq<char>,
)
    requires
        brace_free(switch_fills(layout, aliases, app_root, rendered_at, arrangement_json, summary_json)[1].1),
    ensures
        holds(switch_text(layout, aliases, app_root, rendered_at, arrangement_json, summary_json), "$StepCount     = "@ + switch_fills(layout, aliases, app_root, rendered_at, arrangement_json, summary_json)[1].1 + "\n"@),
{
    reveal_strlit("$StepCount     = {{STEP_COUNT}}\n");
    reveal_strlit("$StepCount     = ");
    reveal_strlit("{{STEP_COUNT}}");
    reveal_strlit("\n");
    let o = SWITCH_OPENING@;
    let hl = SWITCH_HEADER_LINE@;
    let st = SWITCH_SETTINGS@;
    let rl = SWITCH_ROOT_LINE@;
    let cl = SWITCH_COUNT_LINE@;
    let al = SWITCH_APPLY_LINE@;
    let vl = SWITCH_VERIFY_LINE@;
    let on = SWITCH_ON_LIST@;
    let off = SWITCH_OFF_LIST@;
    let body = SWITCH_BODY@;
    let line = "$StepCount     = "@ + "{{STEP_COUNT}}"@ + "\n"@;
    assert(cl =~= line);
    assert(switch_template() =~= (o + hl + st + rl) + line + (al + vl + on + off + body));
    lemma_line_filled(layout, aliases, app_root, rendered_at, arrangement_json, summary_json, o + hl + st + rl, "$StepCount     = "@, "{{STEP_COUNT}}"@, "\n"@, al + vl + on + off + body, 1);
}

#[verifier::spinoff_prover]
proof fn lemma_apply_line_filled(
    layout: Layout,
    aliases: Seq<(String, String)>,
    app_root: Seq<char>,
    rendered_at: Seq<char>,
    arrangement_json: Seq<char>,
    summary_json: Seq<char>,
)
    requires
        brace_free(switch_fills(layout, aliases, app_root, rendered_at, arrangement_json, summary_json)[2].1),
    ensures
        holds(switch_text(layout, aliases, app_root, rendered_at, arrangement_json, summary_json), "$ApplyStep     = "@ + switch_fills(layout, aliases, app_root, rendered_at, arrangement_json, summary_json)[2].1 + "\n"@),
{
    reveal_strlit("$ApplyStep     = {{APPLY_STEP}}\n");
    reveal_strlit("$ApplyStep     = ");
    reveal_strlit("{{APPLY_STEP}}");
    reveal_strlit("\n");
    let o = SWITCH_OPENING@;
    let hl = SWITCH_HEADER_LINE@;
    let st = SWITCH_SETTINGS@;
    let rl = SWITCH_ROOT_LINE@;
    let cl = SWITCH_COUNT_LINE@;
    let al = SWITCH_APPLY_LINE@;
    let vl = SWITCH_VERIFY_LINE@;
    let on = SWITCH_ON_LIST@;
    let off = SWITCH_OFF_LIST@;
    let body = SWITCH_BODY@;
    let line = "$ApplyStep     = "@ + "{{APPLY_STEP}}"@ + "\n"@;
    assert(al =~= line);
    assert(switch_template() =~= (o + hl + st + rl + cl) + line + (vl + on + off + body));
    lemma_line_filled(layout, aliases, app_root, rendered_at, arrangement_json, summary_json, o + hl + st + rl + cl, "$ApplyStep     = "@, "{{APPLY_STEP}}"@, "\n"@, vl + on + off + body, 2);
}

#[verifier::spinoff_prover]
proof fn lemma_verify_line_filled(
    layout: Layout,
    aliases: Seq<(String, String)>,
    app_root: Seq<char>,
    rendered_at: Seq<char>,
    arrangement_json: Seq<char>,
    summary_json: Seq<char>,
)
    requires
        brace_free(switch_fills(layout, aliases, app_root, rendered_at, arrangement_json, summary_json)[3].1),
    ensures
        holds(switch_text(layout, aliases, app_root, rendered_at, arrangement_json, summary_json), "$VerifyStep    = "@ + switch_fills(layout, aliases, app_root, rendered_at, arrangement_json, summary_json)[3].1 + "\n"@),
{
    reveal_strlit("$VerifyStep    = {{VERIFY_STEP}}\n");
    reveal_strlit("$VerifyStep    = ");
    reveal_strlit("{{VERIFY_STEP}}");
    reveal_strlit("\n");
    let o = SWITCH_OPENING@;
    let hl = SWITCH_HEADER_LINE@;
    let st = SWITCH_SETTINGS@;
    let rl = SWITCH_ROOT_LINE@;
    let cl = SWITCH_COUNT_LINE@;
    let al = SWITCH_APPLY_LINE@;
    let vl = SWITCH_VERIFY_LINE@;
    let on = SWITCH_ON_LIST@;
    let off = SWITCH_OFF_LIST@;
    let body = SWITCH_BODY@;
    let line = "$VerifyStep    = "@ + "{{VERIFY_STEP}}"@ + "\n"@;
    assert(vl =~= line);
    assert(switch_template() =~= (o + hl + st + rl + cl + al) + line + (on + off + body));
    lemma_line_filled(layout, aliases, app_root, rendered_at, arrangement_json, summary_json, o + hl + st + rl + cl + al, "$VerifyStep    = "@, "{{VERIFY_STEP}}"@, "\n"@, on + off + body, 3);
}

#[verifier::spinoff_prover]
proof fn lemma_on_list_filled(
    layout: Layout,
    aliases: Seq<(String, String)>,
    app_root: Seq<char>,
    rendered_at: Seq<char>,
    arrangement_json: Seq<char>,
    summary_json: Seq<char>,
)
    requires
        brace_free(switch_fills(layout, aliases, app_root, rendered_at, arrangement_json, summary_json)[16].1),
    ensures
        holds(switch_text(layout, aliases, app_root, rendered_at, arrangement_json, summary_json), "$MonitorsOn    = @(\n"@ + switch_fills(layout, aliases, app_root, rendered_at, arrangement_json, summary_json)[16].1 + "\n)\n"@),
{
    reveal_strlit("$MonitorsOn    = @(\n{{MONITORS_ON_PS}}\n)\n");
    reveal_strlit("$MonitorsOn    = @(\n");
    reveal_strlit("{{MONITORS_ON_PS}}");
    reveal_strlit("\n)\n");
    let o = SWITCH_OPENING@;
    let hl = SWITCH_HEADER_LINE@;
    let st = SWITCH_SETTINGS@;
    let rl = SWITCH_ROOT_LINE@;
    let cl = SWITCH_COUNT_LINE@;
    let al = SWITCH_APPLY_LINE@;
    let vl = SWITCH_VERIFY_LINE@;
    let on = SWITCH_ON_LIST@;
    let off = SWITCH_OFF_LIST@;
    let body = SWITCH_BODY@;
    let line = "$MonitorsOn    = @(\n"@ + "{{MONITORS_ON_PS}}"@ + "\n)\n"@;
    assert(on =~= line);
    assert(switch_template() =~= (o + hl + st + rl + cl + al + vl) + line + (off + body));
    lemma_line_filled(layout, aliases, app_root, rendered_at, arrangement_json, summary_json, o + hl + st + rl + cl + al + vl, "$MonitorsOn    = @(\n"@, "{{MONITORS_ON_PS}}"@, "\n)\n"@, off + body, 16);
}

#[verifier::spinoff_prover]
proof fn lemma_off_list_filled(
    layout: Layout,
    aliases: Seq<(String, String)>,
    app_root: Seq<char>,
    rendered_at: Seq<char>,
    arrangement_json: Seq<char>,
    summary_json: Seq<char>,
)
    requires
        brace_free(switch_fills(layout, aliases, app_root, rendered_at, arrangement_json, summary_json)[17].1),
    ensures
        holds(switch_text(layout, aliases, app_root, rendered_at, arrangement_json, summary_json), "$MonitorsOff   = @(\n"@ + switch_fills(layout, aliases, app_root, rendered_at, arrangement_json, summary_json)[17].1 + "\n)\n"@),
{
    reveal_strlit("$MonitorsOff   = @(\n{{MONITORS_OFF_PS}}\n)\n");
    reveal_strlit("$MonitorsOff   = @(\n");
    reveal_strlit("{{MONITORS_OFF_PS}}");
    reveal_strlit("\n)\n");
    let o = SWITCH_OPENING@;
    let hl = SWITCH_HEADER_LINE@;
    let st = SWITCH_SETTINGS@;
    let rl = SWITCH_ROOT_LINE@;
    let cl = SWITCH_COUNT_LINE@;
    let al = SWITCH_APPLY_LINE@;
    let vl = SWITCH_VERIFY_LINE@;
    let on = SWITCH_ON_LIST@;
    let off = SWITCH_OFF_LIST@;
    let body = SWITCH_BODY@;
    let line = "$MonitorsOff   = @(\n"@ + "{{MONITORS_OFF_PS}}"@ + "\n)\n"@;
    assert(off =~= line);
    assert(switch_template() =~= (o + hl + st + rl + cl + al + vl + on) + line + (body));
    lemma_line_filled(layout, aliases, app_root, rendered_at, arrangement_json, summary_json, o + hl + st + rl + cl + al + vl + on, "$MonitorsOff   = @(\n"@, "{{MONITORS_OFF_PS}}"@, "\n)\n"@, body, 17);
}

/// The rendered switch script holds its header line and its numbers: "# Steps: " with
/// every row as `[row/of] row`, joined by two spaces; the step count and the verify row,
/// both three more than the layout's steps; the apply row; and the app root, escaped.
/// This holds when neither the header nor the escaped app root has two opening braces
/// in a row, which a later placeholder could otherwise start in.
pub proof fn lemma_script_header_and_counts(
    layout: Layout,
    aliases: Seq<(String, String)>,
    app_root: Seq<char>,
    rendered_at: Seq<char>,
    arrangement_json: Seq<char>,
    summary_json: Seq<char>,
)
    requires
        brace_free(joined(header_items(rows_of(layout.steps@, aliases, layout.summary.monitors@)), "  "@)),
        brace_free(ps_escape_of(app_root)),
    ensures
        ({
            let text = switch_text(layout, aliases, app_root, rendered_at, arrangement_json, summary_json);
            let rows = rows_of(layout.steps@, aliases, layout.summary.monitors@);
            let n = layout.steps.len() + 3;
            let apply = side_steps(layout.steps@, StepSide::Before).len() + 2;
            &&& holds(text, "# Steps: "@ + joined(header_items(rows), "  "@) + "\n"@)
            &&& holds(text, "$StepCount     = "@ + dec(n as int) + "\n"@)
            &&& holds(text, "$ApplyStep     = "@ + dec(apply as int) + "\n"@)
            &&& holds(text, "$VerifyStep    = "@ + dec(n as int) + "\n"@)
            &&& holds(text, "$AppRoot       = '"@ + ps_escape_of(app_root) + "'\n"@)
        }),
{
    lemma_timeline_shape(layout.steps@, aliases, layout.summary.monitors@);
    let n = layout.steps.len() + 3;
    let apply = side_steps(layout.steps@, StepSide::Before).len() + 2;
    lemma_dec_brace_free(n as nat);
    lemma_dec_brace_free(apply as nat);
    lemma_header_line_filled(layout, aliases, app_root, rendered_at, arrangement_json, summary_json);
    lemma_root_line_filled(layout, aliases, app_root, rendered_at, arrangement_json, summary_json);
    lemma_count_line_filled(layout, aliases, app_root, rendered_at, arrangement_json, summary_json);
    lemma_apply_line_filled(layout, aliases, app_root, rendered_at, arrangement_json, summary_json);
    lemma_verify_line_filled(layout, aliases, app_root, rendered_at, arrangement_json, summary_json);
}

/// The rendered switch script holds its two monitor lists: "$MonitorsOn    = @(", then
/// the entry of each monitor the layout turns on, one per line in summary order, then
/// ")"; and the same under "$MonitorsOff   = @(" for the monitors it leaves off. A layout
/// without monitors gets two empty lists. This holds when neither list has two opening
/// braces in a row, which a later placeholder could otherwise start in.
pub proof fn lemma_script_monitor_lists(
    layout: Layout,
    aliases: Seq<(String, String)>,
    app_root: Seq<char>,
    rendered_at: Seq<char>,
    arrangement_json: Seq<char>,
    summary_json: Seq<char>,
)
    requires
        ({
            let ms = layout.summary.monitors@;
            &&& brace_free(joined(indices_with(ms, true).map_values(|i: int| monitor_entry(aliases, ms, i)), "\n"@))
            &&& brace_free(joined(indices_with(ms, false).map_values(|i: int| monitor_entry(aliases, ms, i)), "\n"@))
        }),
    ensures
        ({
            let text = switch_text(layout, aliases, app_root, rendered_at, arrangement_json, summary_json);
            let ms = layout.summary.monitors@;
            &&& holds(text, "$MonitorsOn    = @(\n"@ + joined(
                indices_with(ms, true).map_values(|i: int| monitor_entry(aliases, ms, i)),
                "\n"@,
            ) + "\n)\n"@)
            &&& holds(text, "$MonitorsOff   = @(\n"@ + joined(
                indices_with(ms, false).map_values(|i: int| monitor_entry(aliases, ms, i)),
                "\n"@,
            ) + "\n)\n"@)
        }),
{
    lemma_monitor_lists(layout, aliases, app_root, rendered_at, arrangement_json, summary_json);
    lemma_on_list_filled(layout, aliases, app_root, rendered_at, arrangement_json, summary_json);
    lemma_off_list_filled(layout, aliases, app_root, rendered_at, arrangement_json, summary_json);
}

} // verus!
