//! Verify: comparing what the probe shows after a switch to the layout's summary. The
//! on set and each on monitor's position and size must match; refresh, rotation and
//! scale differences are warnings.

use vstd::prelude::*;
use crate::config::layouts::{connected, summary_monitor_of, Summary, SummaryMonitor};
use crate::hardware::{Inventory, Monitor, MonitorState};
use crate::text::{
    append, append_str, chars_of, dec, digits, eq_ignore_ascii_case, push_dec, push_dec_i64,
    same_ignoring_ascii_case, string_of,
};

verus! {

#[derive(Debug, Clone, PartialEq, Eq, Default)]
pub struct VerifyOutcome {
    /// What makes the switch not applied. Empty when it passed.
    pub failures: Vec<String>,
    /// Differences that do not fail the switch.
    pub warnings: Vec<String>,
}

impl VerifyOutcome {
    pub fn passed(&self) -> (r: bool)
        ensures
            r == (self.failures.len() == 0),
    {
        self.failures.len() == 0
    }
}

/// The live monitor for a device path: the first in the inventory whose path matches
/// without regard to ASCII case.
pub open spec fn live_of(ms: Seq<Monitor>, path: Seq<char>) -> Option<Monitor>
    decreases ms.len(),
{
    if ms.len() == 0 {
        None
    } else if eq_ignore_ascii_case(ms[0].device_path@, path) {
        Some(ms[0])
    } else {
        live_of(ms.drop_first(), path)
    }
}

/// A rate in thousandths of a hertz as a number of hertz: whole hertz, then up to three
/// decimals without trailing zeros. 60000 reads "60", 59940 reads "59.94".
pub open spec fn hz_text(mhz: nat) -> Seq<char> {
    let whole = mhz / 1000;
    let frac = mhz % 1000;
    dec(whole as int) + if frac == 0 {
        Seq::empty()
    } else if frac % 100 == 0 {
        "."@ + digits(frac / 100, 10)
    } else if frac % 10 == 0 {
        "."@ + (if frac < 100 {
            "0"@
        } else {
            Seq::empty()
        }) + digits(frac / 10, 10)
    } else {
        "."@ + (if frac < 10 {
            "00"@
        } else if frac < 100 {
            "0"@
        } else {
            Seq::empty()
        }) + digits(frac, 10)
    }
}

/// What one expected monitor adds to the failures and to the warnings, given the live
/// monitor for its path and its name in the messages.
pub open spec fn monitor_findings(
    expected: SummaryMonitor,
    actual: Option<Monitor>,
    name: Seq<char>,
) -> (Seq<Seq<char>>, Seq<Seq<char>>) {
    let is_active = actual is Some && actual->0.state == MonitorState::Active;
    if expected.on && !is_active {
        (seq![name + " is not on"@], Seq::empty())
    } else if !expected.on && is_active {
        (seq![name + " is on but should be off"@], Seq::empty())
    } else if !expected.on {
        (Seq::empty(), Seq::empty())
    } else {
        let a = actual->0;
        let position: Seq<Seq<char>> = match (expected.position, a.position) {
            (Some(want), Some(got)) => if want != got {
                seq![
                    name + " landed at "@ + dec(got.x as int) + ","@ + dec(got.y as int)
                        + " instead of "@ + dec(want.x as int) + ","@ + dec(want.y as int),
                ]
            } else {
                Seq::empty()
            },
            _ => Seq::empty(),
        };
        let size: Seq<Seq<char>> = match (expected.size, a.size) {
            (Some(want), Some(got)) => if want != got {
                seq![
                    name + " is "@ + dec(got.width as int) + "x"@ + dec(got.height as int)
                        + " instead of "@ + dec(want.width as int) + "x"@ + dec(
                        want.height as int,
                    ),
                ]
            } else {
                Seq::empty()
            },
            _ => Seq::empty(),
        };
        let refresh: Seq<Seq<char>> = match (expected.refresh_mhz, a.refresh_mhz) {
            (Some(want), Some(got)) => if want - got > 10 || got - want > 10 {
                seq![
                    name + " runs at "@ + hz_text(got as nat) + " Hz instead of "@ + hz_text(
                        want as nat,
                    ) + " Hz"@,
                ]
            } else {
                Seq::empty()
            },
            _ => Seq::empty(),
        };
        let rotation: Seq<Seq<char>> = match (expected.rotation, a.rotation) {
            (Some(want), Some(got)) => if want != got {
                seq![name + " is rotated "@ + dec(got as int) + " instead of "@ + dec(want as int)]
            } else {
                Seq::empty()
            },
            _ => Seq::empty(),
        };
        let scale: Seq<Seq<char>> = match (expected.scale_percent, a.scale_percent) {
            (Some(want), Some(got)) => if want != got {
                seq![
                    name + " is scaled "@ + dec(got as int) + "% instead of "@ + dec(want as int)
                        + "%"@,
                ]
            } else {
                Seq::empty()
            },
            _ => Seq::empty(),
        };
        (position + size, refresh + rotation + scale)
    }
}

/// The findings for the first `n` expected monitors, in summary order.
pub open spec fn summary_findings(
    expected: Seq<SummaryMonitor>,
    live: Seq<Monitor>,
    names: Seq<Seq<char>>,
    n: int,
) -> (Seq<Seq<char>>, Seq<Seq<char>>)
    decreases n,
{
    if n <= 0 {
        (Seq::empty(), Seq::empty())
    } else {
        let (f, w) = summary_findings(expected, live, names, n - 1);
        let (f1, w1) = monitor_findings(
            expected[n - 1],
            live_of(live, expected[n - 1].device_path@),
            names[n - 1],
        );
        (f + f1, w + w1)
    }
}

/// The summary lists a monitor with this path, without regard to ASCII case.
pub open spec fn known(expected: Seq<SummaryMonitor>, path: Seq<char>) -> bool {
    exists|k: int| 0 <= k < expected.len() && eq_ignore_ascii_case(expected[k].device_path@, path)
}

/// The failures for Active monitors among the first `n` live ones that the summary
/// never saw.
pub open spec fn extra_findings(expected: Seq<SummaryMonitor>, live: Seq<Monitor>, n: int) -> Seq<
    Seq<char>,
>
    decreases n,
{
    if n <= 0 {
        Seq::empty()
    } else {
        let m = live[n - 1];
        extra_findings(expected, live, n - 1) + if m.state == MonitorState::Active && !known(
            expected,
            m.device_path@,
        ) {
            seq!["an extra monitor is on: "@ + m.reported_name@]
        } else {
            Seq::empty()
        }
    }
}

/// The whole outcome, with `names` naming the summary's monitors in order.
pub open spec fn verify_findings(
    summary: Summary,
    inventory: Inventory,
    names: Seq<Seq<char>>,
) -> (Seq<Seq<char>>, Seq<Seq<char>>) {
    let (f, w) = summary_findings(
        summary.monitors@,
        inventory.monitors@,
        names,
        summary.monitors@.len() as int,
    );
    (f + extra_findings(summary.monitors@, inventory.monitors@, inventory.monitors@.len() as int), w)
}

pub open spec fn views(v: Seq<String>) -> Seq<Seq<char>> {
    v.map_values(|s: String| s@)
}

pub(crate) fn live_exec(ms: &Vec<Monitor>, path: &String) -> (r: Option<usize>)
    ensures
        match r {
            Some(k) => k < ms.len() && live_of(ms@, path@) == Some(ms@[k as int]),
            None => live_of(ms@, path@) is None,
        },
{
    let p = chars_of(path.as_str());
    let mut i: usize = 0;
    assert(ms@.skip(0) == ms@);
    while i < ms.len()
        invariant
            i <= ms.len(),
            p@ == path@,
            live_of(ms@, path@) == live_of(ms@.skip(i as int), path@),
        decreases ms.len() - i,
    {
        assert(ms@.skip(i as int).drop_first() == ms@.skip(i + 1));
        assert(ms@.skip(i as int)[0] == ms@[i as int]);
        if same_ignoring_ascii_case(&chars_of(ms[i].device_path.as_str()), &p) {
            return Some(i);
        }
        i = i + 1;
    }
    None
}

fn push_hz(o: &mut Vec<char>, mhz: u64)
    ensures
        final(o)@ == old(o)@ + hz_text(mhz as nat),
{
    let ghost start = o@;
    let whole = mhz / 1000;
    let frac = mhz % 1000;
    push_dec(o, whole);
    let ghost head = o@;
    if frac == 0 {
        assert(o@ == start + (dec(whole as int) + Seq::<char>::empty()));
    } else if frac % 100 == 0 {
        append_str(o, ".");
        push_dec(o, frac / 100);
        assert(o@ =~= start + (dec(whole as int) + ("."@ + digits((frac / 100) as nat, 10))));
    } else if frac % 10 == 0 {
        append_str(o, ".");
        let ghost dot = o@;
        if frac < 100 {
            append_str(o, "0");
        } else {
            assert(o@ == dot + Seq::<char>::empty());
        }
        push_dec(o, frac / 10);
        assert(o@ =~= start + (dec(whole as int) + ("."@ + (if frac < 100 {
            "0"@
        } else {
            Seq::empty()
        }) + digits((frac / 10) as nat, 10))));
    } else {
        append_str(o, ".");
        let ghost dot = o@;
        if frac < 10 {
            append_str(o, "00");
        } else if frac < 100 {
            append_str(o, "0");
        } else {
            assert(o@ == dot + Seq::<char>::empty());
        }
        push_dec(o, frac);
        assert(o@ =~= start + (dec(whole as int) + ("."@ + (if frac < 10 {
            "00"@
        } else if frac < 100 {
            "0"@
        } else {
            Seq::empty()
        }) + digits(frac as nat, 10))));
    }
}

fn findings_exec(expected: &SummaryMonitor, actual: Option<&Monitor>, name: &Vec<char>) -> (r: (
    Vec<String>,
    Vec<String>,
))
    ensures
        (views(r.0@), views(r.1@)) == monitor_findings(
            *expected,
            match actual {
                Some(a) => Some(*a),
                None => None,
            },
            name@,
        ),
{
    let ghost act = match actual {
        Some(a) => Some(*a),
        None => None,
    };
    let is_active = match actual {
        Some(m) => m.state == MonitorState::Active,
        None => false,
    };
    let mut failures: Vec<String> = Vec::new();
    let mut warnings: Vec<String> = Vec::new();
    if expected.on && !is_active {
        let mut o = name.clone();
        append_str(&mut o, " is not on");
        failures.push(string_of(&o));
        assert(views(failures@) =~= seq![name@ + " is not on"@]);
        assert(views(warnings@) =~= Seq::<Seq<char>>::empty());
        return (failures, warnings);
    }
    if !expected.on && is_active {
        let mut o = name.clone();
        append_str(&mut o, " is on but should be off");
        failures.push(string_of(&o));
        assert(views(failures@) =~= seq![name@ + " is on but should be off"@]);
        assert(views(warnings@) =~= Seq::<Seq<char>>::empty());
        return (failures, warnings);
    }
    if !expected.on {
        assert(views(failures@) =~= Seq::<Seq<char>>::empty());
        assert(views(warnings@) =~= Seq::<Seq<char>>::empty());
        return (failures, warnings);
    }
    let a = match actual {
        Some(a) => a,
        None => {
            assert(false);
            return (failures, warnings);
        },
    };
    let ghost spec_findings = monitor_findings(*expected, act, name@);
    match (expected.position, a.position) {
        (Some(want), Some(got)) => {
            if want != got {
                let mut o = name.clone();
                append_str(&mut o, " landed at ");
                push_dec_i64(&mut o, got.x as i64);
                append_str(&mut o, ",");
                push_dec_i64(&mut o, got.y as i64);
                append_str(&mut o, " instead of ");
                push_dec_i64(&mut o, want.x as i64);
                append_str(&mut o, ",");
                push_dec_i64(&mut o, want.y as i64);
                failures.push(string_of(&o));
            }
        },
        _ => {},
    }
    let ghost after_position = views(failures@);
    match (expected.size, a.size) {
        (Some(want), Some(got)) => {
            if want != got {
                let mut o = name.clone();
                append_str(&mut o, " is ");
                push_dec(&mut o, got.width as u64);
                append_str(&mut o, "x");
                push_dec(&mut o, got.height as u64);
                append_str(&mut o, " instead of ");
                push_dec(&mut o, want.width as u64);
                append_str(&mut o, "x");
                push_dec(&mut o, want.height as u64);
                failures.push(string_of(&o));
            }
        },
        _ => {},
    }
    match (expected.refresh_mhz, a.refresh_mhz) {
        (Some(want), Some(got)) => {
            if (want > got && want - got > 10) || (got > want && got - want > 10) {
                let mut o = name.clone();
                append_str(&mut o, " runs at ");
                push_hz(&mut o, got);
                append_str(&mut o, " Hz instead of ");
                push_hz(&mut o, want);
                append_str(&mut o, " Hz");
                warnings.push(string_of(&o));
            }
        },
        _ => {},
    }
    let ghost after_refresh = views(warnings@);
    match (expected.rotation, a.rotation) {
        (Some(want), Some(got)) => {
            if want != got {
                let mut o = name.clone();
                append_str(&mut o, " is rotated ");
                push_dec(&mut o, got as u64);
                append_str(&mut o, " instead of ");
                push_dec(&mut o, want as u64);
                warnings.push(string_of(&o));
            }
        },
        _ => {},
    }
    let ghost after_rotation = views(warnings@);
    match (expected.scale_percent, a.scale_percent) {
        (Some(want), Some(got)) => {
            if want != got {
                let mut o = name.clone();
                append_str(&mut o, " is scaled ");
                push_dec(&mut o, got as u64);
                append_str(&mut o, "% instead of ");
                push_dec(&mut o, want as u64);
                append_str(&mut o, "%");
                warnings.push(string_of(&o));
            }
        },
        _ => {},
    }
    assert(views(failures@) =~= spec_findings.0);
    assert(views(warnings@) =~= spec_findings.1);
    (failures, warnings)
}


fn known_exec(expected: &Vec<SummaryMonitor>, path: &String) -> (r: bool)
    ensures
        r == known(expected@, path@),
{
    let p = chars_of(path.as_str());
    let mut i: usize = 0;
    while i < expected.len()
        invariant
            i <= expected.len(),
            p@ == path@,
            forall|k: int|
                0 <= k < i ==> !eq_ignore_ascii_case(#[trigger] expected@[k].device_path@, path@),
        decreases expected.len() - i,
    {
        if same_ignoring_ascii_case(&chars_of(expected[i].device_path.as_str()), &p) {
            return true;
        }
        i = i + 1;
    }
    false
}

/// Compares the probe after a switch to the layout's summary. `label` names each
/// monitor of the summary in the messages; the caller supplies the alias fallback.
pub fn verify<F: Fn(&SummaryMonitor) -> String>(summary: &Summary, inventory: &Inventory, label: F) -> (r: VerifyOutcome)
    requires
        forall|m: &SummaryMonitor| label.requires((m,)),
    ensures
        exists|names: Seq<String>|
            names.len() == summary.monitors@.len() && (forall|k: int|
                0 <= k < names.len() ==> label.ensures((&summary.monitors@[k],), #[trigger] names[k]))
                && (views(r.failures@), views(r.warnings@)) == verify_findings(
                *summary,
                *inventory,
                views(names),
            ),
{
    let expected = &summary.monitors;
    let live = &inventory.monitors;
    let mut failures: Vec<String> = Vec::new();
    let mut warnings: Vec<String> = Vec::new();
    let ghost mut names: Seq<String> = Seq::empty();
    let mut i: usize = 0;
    while i < expected.len()
        invariant
            i <= expected.len(),
            forall|m: &SummaryMonitor| label.requires((m,)),
            names.len() == i,
            forall|k: int| 0 <= k < i ==> label.ensures((&expected@[k],), #[trigger] names[k]),
            (views(failures@), views(warnings@)) == summary_findings(
                expected@,
                live@,
                views(names),
                i as int,
            ),
        decreases expected.len() - i,
    {
        let name = label(&expected[i]);
        let actual = match live_exec(live, &expected[i].device_path) {
            Some(k) => Some(&live[k]),
            None => None,
        };
        let (f1, w1) = findings_exec(&expected[i], actual, &chars_of(name.as_str()));
        let ghost old_f = views(failures@);
        let ghost old_w = views(warnings@);
        let ghost old_names = names;
        proof {
            names = names.push(name);
            assert(views(names) =~= views(old_names).push(name@));
            assert(views(names).take(i as int) =~= views(old_names));
        }
        let mut k: usize = 0;
        while k < f1.len()
            invariant
                k <= f1.len(),
                views(failures@) == old_f + views(f1@).take(k as int),
            decreases f1.len() - k,
        {
            let ghost prev = failures@;
            let c = f1[k].clone();
            failures.push(c);
            assert(views(failures@) =~= views(prev).push(f1@[k as int]@));
            assert(views(f1@).take(k + 1) =~= views(f1@).take(k as int).push(f1@[k as int]@));
            assert(views(failures@) =~= old_f + views(f1@).take(k + 1));
            k = k + 1;
        }
        let mut k: usize = 0;
        while k < w1.len()
            invariant
                k <= w1.len(),
                views(warnings@) == old_w + views(w1@).take(k as int),
            decreases w1.len() - k,
        {
            let ghost prev = warnings@;
            let c = w1[k].clone();
            warnings.push(c);
            assert(views(warnings@) =~= views(prev).push(w1@[k as int]@));
            assert(views(w1@).take(k + 1) =~= views(w1@).take(k as int).push(w1@[k as int]@));
            assert(views(warnings@) =~= old_w + views(w1@).take(k + 1));
            k = k + 1;
        }
        assert(views(f1@).take(f1.len() as int) == views(f1@));
        assert(views(w1@).take(w1.len() as int) == views(w1@));
        proof {
            lemma_summary_findings_prefix(expected@, live@, views(old_names), views(names), i as int);
        }
        i = i + 1;
    }
    let ghost before_extras = views(failures@);
    let mut j: usize = 0;
    while j < live.len()
        invariant
            j <= live.len(),
            views(failures@) == before_extras + extra_findings(expected@, live@, j as int),
        decreases live.len() - j,
    {
        let m = &live[j];
        let ghost prev = views(failures@);
        if m.state == MonitorState::Active && !known_exec(expected, &m.device_path) {
            let mut o: Vec<char> = Vec::new();
            append_str(&mut o, "an extra monitor is on: ");
            append_str(&mut o, m.reported_name.as_str());
            failures.push(string_of(&o));
            assert(views(failures@) =~= prev.push(o@));
        }
        assert(views(failures@) =~= before_extras + extra_findings(expected@, live@, j + 1));
        j = j + 1;
    }
    let r = VerifyOutcome { failures, warnings };
    assert(names.len() == summary.monitors@.len() && (forall|k: int|
        0 <= k < names.len() ==> label.ensures((&summary.monitors@[k],), #[trigger] names[k]))
        && (views(r.failures@), views(r.warnings@)) == verify_findings(
        *summary,
        *inventory,
        views(names),
    ));
    r
}

/// The findings for the first `n` monitors depend only on the first `n` names.
proof fn lemma_summary_findings_prefix(
    expected: Seq<SummaryMonitor>,
    live: Seq<Monitor>,
    a: Seq<Seq<char>>,
    b: Seq<Seq<char>>,
    n: int,
)
    requires
        0 <= n <= a.len(),
        n <= b.len(),
        forall|k: int| 0 <= k < n ==> a[k] == b[k],
    ensures
        summary_findings(expected, live, a, n) == summary_findings(expected, live, b, n),
    decreases n,
{
    if n > 0 {
        lemma_summary_findings_prefix(expected, live, a, b, n - 1);
    }
}

/// No two monitors' device paths match without regard to ASCII case.
pub open spec fn distinct_paths(ms: Seq<Monitor>) -> bool {
    forall|i: int, j: int|
        0 <= i < ms.len() && 0 <= j < ms.len() && i != j ==> !eq_ignore_ascii_case(
            #[trigger] ms[i].device_path@,
            #[trigger] ms[j].device_path@,
        )
}

proof fn lemma_live_of_own_path(ms: Seq<Monitor>, m: int)
    requires
        distinct_paths(ms),
        0 <= m < ms.len(),
    ensures
        live_of(ms, ms[m].device_path@) == Some(ms[m]),
    decreases m,
{
    if m > 0 {
        let rest = ms.drop_first();
        assert(!eq_ignore_ascii_case(ms[0].device_path@, ms[m].device_path@));
        assert(rest[m - 1] == ms[m]);
        assert forall|i: int, j: int|
            0 <= i < rest.len() && 0 <= j < rest.len() && i != j implies !eq_ignore_ascii_case(
            #[trigger] rest[i].device_path@,
            #[trigger] rest[j].device_path@,
        ) by {
            assert(rest[i] == ms[i + 1] && rest[j] == ms[j + 1]);
        }
        lemma_live_of_own_path(rest, m - 1);
    }
}

/// The summary is the one made from the probe: its connected monitors, in order.
pub open spec fn summarised_from(summary: Summary, inventory: Inventory) -> bool {
    &&& summary.monitors.len() == connected(inventory.monitors@).len()
    &&& forall|k: int|
        0 <= k < summary.monitors.len() ==> summary_monitor_of(
            connected(inventory.monitors@)[k],
            #[trigger] summary.monitors@[k],
        )
}

proof fn lemma_summary_findings_clean(
    summary: Summary,
    inventory: Inventory,
    names: Seq<Seq<char>>,
    n: int,
)
    requires
        distinct_paths(inventory.monitors@),
        summarised_from(summary, inventory),
        0 <= n <= summary.monitors.len(),
    ensures
        summary_findings(summary.monitors@, inventory.monitors@, names, n).0.len() == 0,
    decreases n,
{
    broadcast use vstd::seq_lib::group_filter_ensures;
    if n > 0 {
        lemma_summary_findings_clean(summary, inventory, names, n - 1);
        let ms = inventory.monitors@;
        let pred = |m: Monitor| m.state != MonitorState::Absent;
        let c = connected(ms);
        assert(c == ms.filter(pred));
        let k = n - 1;
        let a = c[k];
        assert(c.contains(a));
        ms.lemma_filter_contains_rev(pred, a);
        let m = choose|m: int| 0 <= m < ms.len() && ms[m] == a;
        lemma_live_of_own_path(ms, m);
        let e = summary.monitors@[k];
        assert(summary_monitor_of(a, e));
        assert(live_of(ms, e.device_path@) == Some(a));
        assert(pred(a));
        let (f1, w1) = monitor_findings(e, Some(a), names[k]);
        assert(f1.len() == 0);
    }
}

proof fn lemma_extra_findings_clean(summary: Summary, inventory: Inventory, n: int)
    requires
        summarised_from(summary, inventory),
        0 <= n <= inventory.monitors.len(),
    ensures
        extra_findings(summary.monitors@, inventory.monitors@, n).len() == 0,
    decreases n,
{
    broadcast use vstd::seq_lib::group_filter_ensures;
    if n > 0 {
        lemma_extra_findings_clean(summary, inventory, n - 1);
        let ms = inventory.monitors@;
        let m = ms[n - 1];
        if m.state == MonitorState::Active {
            let pred = |x: Monitor| x.state != MonitorState::Absent;
            let c = connected(ms);
            assert(c == ms.filter(pred));
            ms.lemma_filter_contains(pred, n - 1);
            let k = choose|k: int| 0 <= k < c.len() && c[k] == m;
            assert(summary_monitor_of(c[k], summary.monitors@[k]));
            assert(eq_ignore_ascii_case(summary.monitors@[k].device_path@, m.device_path@));
            assert(known(summary.monitors@, m.device_path@));
        }
    }
}

/// A switch that lands exactly as captured verifies: checked against the very probe its
/// summary was made from, with device paths that differ without regard to case, verify
/// finds no failure.
pub proof fn lemma_capture_verifies(summary: Summary, inventory: Inventory, names: Seq<Seq<char>>)
    requires
        distinct_paths(inventory.monitors@),
        summarised_from(summary, inventory),
    ensures
        verify_findings(summary, inventory, names).0.len() == 0,
{
    lemma_summary_findings_clean(summary, inventory, names, summary.monitors@.len() as int);
    lemma_extra_findings_clean(summary, inventory, inventory.monitors@.len() as int);
}

proof fn lemma_live_of_push(live: Seq<Monitor>, m: Monitor, path: Seq<char>)
    requires
        !eq_ignore_ascii_case(m.device_path@, path),
    ensures
        live_of(live.push(m), path) == live_of(live, path),
    decreases live.len(),
{
    if live.len() == 0 {
        assert(live.push(m).drop_first() =~= Seq::<Monitor>::empty());
        assert(live_of(Seq::<Monitor>::empty(), path) is None);
        assert(live.push(m)[0] == m);
    } else {
        assert(live.push(m).drop_first() =~= live.drop_first().push(m));
        assert(live.push(m)[0] == live[0]);
        lemma_live_of_push(live.drop_first(), m, path);
    }
}

proof fn lemma_summary_findings_push(
    expected: Seq<SummaryMonitor>,
    live: Seq<Monitor>,
    names: Seq<Seq<char>>,
    m: Monitor,
    n: int,
)
    requires
        n <= expected.len(),
        !known(expected, m.device_path@),
    ensures
        summary_findings(expected, live.push(m), names, n) == summary_findings(expected, live, names, n),
    decreases n,
{
    if n > 0 {
        lemma_summary_findings_push(expected, live, names, m, n - 1);
        let path = expected[n - 1].device_path@;
        assert(!eq_ignore_ascii_case(m.device_path@, path)) by {
            if eq_ignore_ascii_case(m.device_path@, path) {
                assert(eq_ignore_ascii_case(expected[n - 1].device_path@, m.device_path@));
            }
        }
        lemma_live_of_push(live, m, path);
    }
}

proof fn lemma_extra_findings_prefix(expected: Seq<SummaryMonitor>, live: Seq<Monitor>, m: Monitor, n: int)
    requires
        n <= live.len(),
    ensures
        extra_findings(expected, live.push(m), n) == extra_findings(expected, live, n),
    decreases n,
{
    if n > 0 {
        lemma_extra_findings_prefix(expected, live, m, n - 1);
        assert(live.push(m)[n - 1] == live[n - 1]);
    }
}

/// A monitor plugged in after the layout was captured changes the verdict only when it
/// is lit: one the summary never saw, added to the probe, adds the single failure
/// "an extra monitor is on" when Windows draws to it (Active), and nothing at all when it
/// is merely connected (Available) or absent. Every other finding stays as it was.
pub proof fn lemma_unknown_monitor_fails_only_when_on(
    summary: Summary,
    inventory: Inventory,
    with_it: Inventory,
    names: Seq<Seq<char>>,
    m: Monitor,
)
    requires
        with_it.monitors@ == inventory.monitors@.push(m),
        !known(summary.monitors@, m.device_path@),
    ensures
        verify_findings(summary, with_it, names).1 == verify_findings(summary, inventory, names).1,
        m.state != MonitorState::Active ==> verify_findings(summary, with_it, names) == verify_findings(
            summary,
            inventory,
            names,
        ),
        m.state == MonitorState::Active ==> verify_findings(summary, with_it, names).0 == verify_findings(
            summary,
            inventory,
            names,
        ).0.push("an extra monitor is on: "@ + m.reported_name@),
{
    let expected = summary.monitors@;
    let live = inventory.monitors@;
    lemma_summary_findings_push(expected, live, names, m, expected.len() as int);
    lemma_extra_findings_prefix(expected, live, m, live.len() as int);
    assert(live.push(m)[live.len() as int] == m);
    let f = summary_findings(expected, live, names, expected.len() as int).0;
    let e = extra_findings(expected, live, live.len() as int);
    if m.state == MonitorState::Active {
        assert(f + (e + seq!["an extra monitor is on: "@ + m.reported_name@]) =~= (f + e).push(
            "an extra monitor is on: "@ + m.reported_name@,
        ));
    } else {
        assert(e + Seq::<Seq<char>>::empty() =~= e);
    }
}

proof fn lemma_live_of_insert(live: Seq<Monitor>, k: int, m: Monitor, path: Seq<char>)
    requires
        0 <= k <= live.len(),
        !eq_ignore_ascii_case(m.device_path@, path),
    ensures
        live_of(live.insert(k, m), path) == live_of(live, path),
    decreases live.len(),
{
    if k == 0 {
        assert(live.insert(0, m)[0] == m);
        assert(live.insert(0, m).drop_first() =~= live);
    } else {
        assert(live.insert(k, m)[0] == live[0]);
        assert(live.insert(k, m).drop_first() =~= live.drop_first().insert(k - 1, m));
        lemma_live_of_insert(live.drop_first(), k - 1, m, path);
    }
}

proof fn lemma_summary_findings_insert(
    expected: Seq<SummaryMonitor>,
    live: Seq<Monitor>,
    names: Seq<Seq<char>>,
    k: int,
    m: Monitor,
    n: int,
)
    requires
        n <= expected.len(),
        0 <= k <= live.len(),
        !known(expected, m.device_path@),
    ensures
        summary_findings(expected, live.insert(k, m), names, n) == summary_findings(expected, live, names, n),
    decreases n,
{
    if n > 0 {
        lemma_summary_findings_insert(expected, live, names, k, m, n - 1);
        let path = expected[n - 1].device_path@;
        assert(!eq_ignore_ascii_case(m.device_path@, path)) by {
            if eq_ignore_ascii_case(m.device_path@, path) {
                assert(eq_ignore_ascii_case(expected[n - 1].device_path@, m.device_path@));
            }
        }
        lemma_live_of_insert(live, k, m, path);
    }
}

proof fn lemma_extra_findings_insert_off(
    expected: Seq<SummaryMonitor>,
    live: Seq<Monitor>,
    k: int,
    m: Monitor,
    j: int,
)
    requires
        m.state != MonitorState::Active,
        0 <= k <= live.len(),
        0 <= j <= live.len() + 1,
    ensures
        extra_findings(expected, live.insert(k, m), j) == extra_findings(
            expected,
            live,
            if j <= k {
                j
            } else {
                j - 1
            },
        ),
    decreases j,
{
    if j > 0 {
        lemma_extra_findings_insert_off(expected, live, k, m, j - 1);
        let ins = live.insert(k, m);
        if j - 1 < k {
            assert(ins[j - 1] == live[j - 1]);
        } else if j - 1 == k {
            assert(ins[k] == m);
            assert(extra_findings(expected, live, k) + Seq::<Seq<char>>::empty() =~= extra_findings(
                expected,
                live,
                k,
            ));
        } else {
            assert(ins[j - 1] == live[j - 2]);
        }
    }
}

/// A monitor the summary never saw that is not lit changes nothing, wherever the probe
/// lists it: verify's failures and warnings are those of the probe without it.
pub proof fn lemma_unlit_unknown_monitor_changes_nothing(
    summary: Summary,
    inventory: Inventory,
    with_it: Inventory,
    names: Seq<Seq<char>>,
    k: int,
    m: Monitor,
)
    requires
        0 <= k <= inventory.monitors.len(),
        with_it.monitors@ == inventory.monitors@.insert(k, m),
        m.state != MonitorState::Active,
        !known(summary.monitors@, m.device_path@),
    ensures
        verify_findings(summary, with_it, names) == verify_findings(summary, inventory, names),
{
    let expected = summary.monitors@;
    let live = inventory.monitors@;
    lemma_summary_findings_insert(expected, live, names, k, m, expected.len() as int);
    lemma_extra_findings_insert_off(expected, live, k, m, live.len() + 1int);
    assert(live.insert(k, m).len() == live.len() + 1);
}

} // verus!
