//! The capabilities read: the script prints each Active monitor's raw DDC-CI capabilities
//! string and the modes Windows lists for it; this module turns the string into the
//! codes the app cares about.

use vstd::prelude::*;
use crate::config::capabilities::{Capabilities, Mode};
use crate::config::keys_unique;
use crate::error::AppError;
use crate::script::run::ScriptOutput;
use crate::text::{
    chars_of, eq_ignore_ascii_case, find, find_exec, parse_u32, parse_u32_exec,
    same_ignoring_ascii_case, slice_of, string_of, trim, trim_str, trim_vec,
};

verus! {

/// `values` with the hexadecimal number `token` spells (once trimmed) appended; unchanged
/// when it spells none.
pub open spec fn with_hex(values: Seq<u32>, token: Seq<char>) -> Seq<u32> {
    match parse_u32(trim(token), 16) {
        Some(v) => values.push(v),
        None => values,
    }
}

/// Where a scan of a `vcp(...)` group stands: the parenthesis depth, the token being
/// read, whether the group at depth one belongs to the wanted code, the values read so
/// far, and the answer once the scan has one.
pub type VcpScan = (int, Seq<char>, bool, Seq<u32>, Option<Seq<u32>>);

/// One character of the scan. Tokens are separated by spaces and parentheses; a token
/// followed by `(` names a code whose values sit one level down. The wanted code's
/// values are its space-separated hexadecimal tokens, read when its group closes. The
/// `)` that closes the `vcp(` group itself ends the scan with nothing.
pub open spec fn vcp_scan_step(st: VcpScan, ch: char, code: Seq<char>) -> VcpScan {
    let (depth, token, wanted, values, answer) = st;
    if answer is Some {
        st
    } else if ch == '(' {
        (
            depth + 1,
            Seq::empty(),
            if depth == 0 {
                eq_ignore_ascii_case(token, code)
            } else {
                wanted
            },
            values,
            None,
        )
    } else if ch == ')' {
        if depth == 0 {
            (depth, token, wanted, values, Some(Seq::empty()))
        } else if depth == 1 && wanted {
            (depth, token, wanted, values, Some(with_hex(values, token)))
        } else {
            (depth - 1, Seq::empty(), wanted, values, None)
        }
    } else if ch == ' ' {
        (
            depth,
            Seq::empty(),
            wanted,
            if depth == 1 && wanted {
                with_hex(values, token)
            } else {
                values
            },
            None,
        )
    } else {
        (depth, token.push(ch), wanted, values, None)
    }
}

/// The scan after reading all of `body`.
pub open spec fn vcp_scan(body: Seq<char>, code: Seq<char>) -> VcpScan
    decreases body.len(),
{
    if body.len() == 0 {
        (0, Seq::empty(), false, Seq::empty(), None)
    } else {
        vcp_scan_step(vcp_scan(body.drop_last(), code), body.last(), code)
    }
}

/// The values a capabilities string declares for one VCP code, from its `vcp(...)`
/// group: `60(11 12 0F)` reads as `[0x11, 0x12, 0x0F]`. A code listed without values,
/// not listed, or a string without a complete group reads as none.
pub open spec fn vcp_values(raw: Seq<char>, code: Seq<char>) -> Seq<u32> {
    let vcp = seq!['v', 'c', 'p', '('];
    match find(raw, vcp) {
        Some(start) => match vcp_scan(raw.skip(start + 4), code).4 {
            Some(values) => values,
            None => Seq::empty(),
        },
        None => Seq::empty(),
    }
}

/// Appends the number `token` spells, when it spells one.
pub fn push_hex(token: &Vec<char>, into: &mut Vec<u32>)
    ensures
        final(into)@ == with_hex(old(into)@, token@),
{
    let t = trim_vec(token);
    match parse_u32_exec(&t, 16) {
        Some(value) => {
            if t.len() > 0 {
                into.push(value);
            }
        },
        None => {},
    }
}

/// The values a capabilities string declares for one VCP code, from its `vcp(...)`
/// group. Codes are two hex digits, matched whole and without case.
pub fn vcp_group(raw: &str, code: &str) -> (r: Vec<u32>)
    ensures
        r@ == vcp_values(raw@, code@),
{
    let raw_chars = chars_of(raw);
    let code_chars = chars_of(code);
    let mut vcp: Vec<char> = Vec::new();
    vcp.push('v');
    vcp.push('c');
    vcp.push('p');
    vcp.push('(');
    assert(vcp@ =~= seq!['v', 'c', 'p', '(']);
    let start = match find_exec(&raw_chars, &vcp) {
        Some(s) => s,
        None => return Vec::new(),
    };
    let vlen = vcp.len();
    let rlen = raw_chars.len();
    assert(start + vlen <= rlen);
    let body = slice_of(&raw_chars, start + vlen, rlen);
    assert(body@ == raw@.skip(start + 4));
    let mut depth: usize = 0;
    let mut token: Vec<char> = Vec::new();
    let mut wanted = false;
    let mut values: Vec<u32> = Vec::new();
    let mut i: usize = 0;
    assert(body@.take(0) =~= Seq::<char>::empty());
    while i < body.len()
        invariant
            i <= body.len(),
            vcp_values(raw@, code@) == (match vcp_scan(body@, code@).4 {
                Some(values) => values,
                None => Seq::<u32>::empty(),
            }),
            vcp_scan(body@.take(i as int), code@) == (
                depth as int,
                token@,
                wanted,
                values@,
                None::<Seq<u32>>,
            ),
            depth <= i,
            code_chars@ == code@,
        decreases body.len() - i,
    {
        let ch = body[i];
        assert(body@.take(i + 1).drop_last() == body@.take(i as int));
        assert(body@.take(i + 1).last() == ch);
        if ch == '(' {
            if depth == 0 {
                wanted = same_ignoring_ascii_case(&token, &code_chars);
            }
            depth = depth + 1;
            token = Vec::new();
        } else if ch == ')' {
            if depth == 0 {
                proof {
                    assert(vcp_scan(body@.take(i + 1), code@).4 == Some(Seq::<u32>::empty()));
                    lemma_vcp_scan_done(body@, code@, (i + 1) as int);
                    assert(vcp_scan(body@, code@).4 == Some(Seq::<u32>::empty()));
                }
                return Vec::new();
            }
            if depth == 1 && wanted {
                push_hex(&token, &mut values);
                proof {
                    lemma_vcp_scan_done(body@, code@, (i + 1) as int);
                }
                return values;
            }
            depth = depth - 1;
            token = Vec::new();
        } else if ch == ' ' {
            if depth == 1 && wanted {
                push_hex(&token, &mut values);
            }
            token = Vec::new();
        } else {
            token.push(ch);
        }
        i = i + 1;
    }
    assert(body@.take(body.len() as int) == body@);
    Vec::new()
}

/// Once the scan has an answer, the rest of the body changes nothing.
proof fn lemma_vcp_scan_done(body: Seq<char>, code: Seq<char>, k: int)
    requires
        0 <= k <= body.len(),
        vcp_scan(body.take(k), code).4 is Some,
    ensures
        vcp_scan(body, code) == vcp_scan(body.take(k), code),
    decreases body.len() - k,
{
    if k == body.len() {
        assert(body.take(k) == body);
    } else {
        assert(body.take(k + 1).drop_last() == body.take(k));
        lemma_vcp_scan_done(body, code, k + 1);
    }
}


/// `a` is listed before `b`: the larger resolution first (width, then height), then the
/// lower rate.
pub open spec fn mode_before(a: Mode, b: Mode) -> bool {
    if a.width != b.width {
        a.width > b.width
    } else if a.height != b.height {
        a.height > b.height
    } else {
        a.hz < b.hz
    }
}

/// `out` lists exactly the modes of `input`, each once, in canonical order.
pub open spec fn canonical_of(out: Seq<Mode>, input: Seq<Mode>) -> bool {
    &&& forall|i: int, j: int| 0 <= i < j < out.len() ==> mode_before(out[i], out[j])
    &&& forall|m: Mode| out.contains(m) <==> input.contains(m)
}

fn mode_before_exec(a: &Mode, b: &Mode) -> (r: bool)
    ensures
        r == mode_before(*a, *b),
{
    if a.width != b.width {
        a.width > b.width
    } else if a.height != b.height {
        a.height > b.height
    } else {
        a.hz < b.hz
    }
}

/// Largest resolution first, then rate ascending, each mode once.
pub fn canonical_modes(modes: Vec<Mode>) -> (r: Vec<Mode>)
    ensures
        canonical_of(r@, modes@),
{
    let mut out: Vec<Mode> = Vec::new();
    let mut i: usize = 0;
    while i < modes.len()
        invariant
            i <= modes.len(),
            forall|a: int, b: int| 0 <= a < b < out.len() ==> mode_before(out@[a], out@[b]),
            forall|m: Mode| out@.contains(m) <==> modes@.take(i as int).contains(m),
        decreases modes.len() - i,
    {
        let m = modes[i];
        let mut j = out.len();
        while j > 0 && mode_before_exec(&m, &out[j - 1])
            invariant
                j <= out.len(),
                forall|b: int| j <= b < out.len() ==> mode_before(m, #[trigger] out@[b]),
            decreases j,
        {
            j = j - 1;
        }
        let ghost old_out = out@;
        let ghost prev = modes@.take(i as int);
        let ghost next = modes@.take(i + 1);
        assert(next == prev.push(m));
        if j > 0 && out[j - 1] == m {
            assert(old_out.contains(m));
            assert forall|x: Mode| out@.contains(x) <==> next.contains(x) by {
                lemma_push_contains(prev, m, x);
            }
        } else {
            out.insert(j, m);
            assert forall|a: int, b: int| 0 <= a < b < out.len() implies mode_before(
                out@[a],
                out@[b],
            ) by {
                if b < j {
                    assert(out@[a] == old_out[a] && out@[b] == old_out[b]);
                } else if a > j {
                    assert(out@[a] == old_out[a - 1] && out@[b] == old_out[b - 1]);
                } else if a == j {
                    assert(out@[b] == old_out[b - 1]);
                } else if b == j {
                    assert(out@[a] == old_out[a]);
                    assert(!mode_before(m, old_out[j - 1]));
                    assert(old_out[j - 1] != m);
                    assert(mode_before(old_out[j - 1], m));
                    if a < j - 1 {
                        assert(mode_before(old_out[a], old_out[j - 1]));
                    }
                } else {
                    assert(out@[a] == old_out[a] && out@[b] == old_out[b - 1]);
                }
            }
            assert forall|x: Mode| out@.contains(x) <==> next.contains(x) by {
                lemma_insert_contains(old_out, j as int, m, x);
                lemma_push_contains(prev, m, x);
            }
        }
        i = i + 1;
    }
    assert(modes@.take(modes.len() as int) == modes@);
    out
}


proof fn lemma_push_contains<A>(s: Seq<A>, a: A, x: A)
    ensures
        s.push(a).contains(x) <==> (s.contains(x) || x == a),
{
    if s.contains(x) {
        let k = choose|k: int| 0 <= k < s.len() && s[k] == x;
        assert(s.push(a)[k] == x);
    }
    if x == a {
        assert(s.push(a)[s.len() as int] == x);
    }
    if s.push(a).contains(x) {
        let k = choose|k: int| 0 <= k < s.push(a).len() && s.push(a)[k] == x;
        if k < s.len() {
            assert(s[k] == x);
        }
    }
}

proof fn lemma_insert_contains<A>(s: Seq<A>, j: int, a: A, x: A)
    requires
        0 <= j <= s.len(),
    ensures
        s.insert(j, a).contains(x) <==> (s.contains(x) || x == a),
{
    let t = s.insert(j, a);
    if s.contains(x) {
        let k = choose|k: int| 0 <= k < s.len() && s[k] == x;
        if k < j {
            assert(t[k] == x);
        } else {
            assert(t[k + 1] == x);
        }
    }
    if x == a {
        assert(t[j] == x);
    }
    if t.contains(x) {
        let k = choose|k: int| 0 <= k < t.len() && t[k] == x;
        if k < j {
            assert(s[k] == x);
        } else if k > j {
            assert(s[k - 1] == x);
        }
    }
}


/// The document the capabilities script prints: when it read, and per device path what
/// the monitor sent, in device path order.
#[derive(Debug, Clone, PartialEq, Eq)]
pub struct CapabilitiesReport {
    pub read_at: String,
    pub monitors: Vec<(String, ReportEntry)>,
}

/// One monitor's entry in the report; a field the script left out reads as empty.
#[derive(Debug, Clone, PartialEq, Eq)]
pub struct ReportEntry {
    pub answered: bool,
    pub raw: String,
    pub modes: Vec<Mode>,
}

/// `c` is the stored entry for report entry `e` read at `read_at`. A monitor that sent
/// only whitespace did not answer; the codes are read only from one that did.
pub open spec fn capabilities_of_entry(read_at: Seq<char>, e: ReportEntry, c: Capabilities) -> bool {
    let answered = e.answered && trim(e.raw@).len() > 0;
    &&& c.read_at@ == read_at
    &&& c.answered == answered
    &&& c.input_codes@ == (if answered {
        vcp_values(e.raw@, "60"@)
    } else {
        Seq::empty()
    })
    &&& c.power_modes@ == (if answered {
        vcp_values(e.raw@, "D6"@)
    } else {
        Seq::empty()
    })
    &&& canonical_of(c.modes@, e.modes@)
    &&& c.raw@ == e.raw@
}

/// One stored entry per monitor in the report, in the report's order and under the same
/// device path.
pub fn capabilities_from_report(report: &CapabilitiesReport) -> (r: Vec<(String, Capabilities)>)
    ensures
        r.len() == report.monitors.len(),
        forall|k: int|
            0 <= k < r.len() ==> (#[trigger] r[k]).0@ == report.monitors[k].0@
                && capabilities_of_entry(report.read_at@, report.monitors[k].1, r[k].1),
        keys_unique(report.monitors@) ==> keys_unique(r@),
{
    let mut r: Vec<(String, Capabilities)> = Vec::new();
    let mut i: usize = 0;
    while i < report.monitors.len()
        invariant
            i <= report.monitors.len(),
            r.len() == i,
            forall|k: int|
                0 <= k < i ==> (#[trigger] r[k]).0@ == report.monitors[k].0@
                    && capabilities_of_entry(report.read_at@, report.monitors[k].1, r[k].1),
        decreases report.monitors.len() - i,
    {
        let (path, entry) = (&report.monitors[i].0, &report.monitors[i].1);
        let answered = entry.answered && trim_vec(&chars_of(entry.raw.as_str())).len() > 0;
        let input_codes = if answered {
            vcp_group(entry.raw.as_str(), "60")
        } else {
            Vec::new()
        };
        let power_modes = if answered {
            vcp_group(entry.raw.as_str(), "D6")
        } else {
            Vec::new()
        };
        let modes = canonical_modes(copy_modes(&entry.modes));
        let capabilities = Capabilities {
            read_at: report.read_at.clone(),
            answered,
            input_codes,
            power_modes,
            modes,
            raw: entry.raw.clone(),
        };
        r.push((path.clone(), capabilities));
        i = i + 1;
    }
    assert(keys_unique(report.monitors@) ==> keys_unique(r@)) by {
        if keys_unique(report.monitors@) {
            assert forall|a: int, b: int| 0 <= a < b < r@.len() implies r@[a].0@ != r@[b].0@ by {
                assert(r@[a].0@ == report.monitors@[a].0@);
                assert(r@[b].0@ == report.monitors@[b].0@);
            }
        }
    }
    r
}

fn copy_modes(v: &Vec<Mode>) -> (r: Vec<Mode>)
    ensures
        r@ == v@,
{
    let mut r: Vec<Mode> = Vec::new();
    let mut i: usize = 0;
    while i < v.len()
        invariant
            i <= v.len(),
            r@ == v@.take(i as int),
        decreases v.len() - i,
    {
        r.push(v[i]);
        assert(v@.take(i + 1) == v@.take(i as int).push(v@[i as int]));
        i = i + 1;
    }
    assert(v@.take(v.len() as int) == v@);
    r
}

/// A capabilities run that did not exit with 0 is `CapabilitiesFailed`, with its exit
/// code and its standard error trimmed.
pub fn capabilities_failure(output: &ScriptOutput) -> (r: Option<AppError>)
    ensures
        output.exit_code == 0 ==> r is None,
        output.exit_code != 0 ==> (r matches Some(AppError::CapabilitiesFailed { exit_code, stderr })
            && exit_code == output.exit_code && stderr@ == trim(output.stderr@)),
{
    if output.succeeded() {
        return None;
    }
    Some(
        AppError::CapabilitiesFailed {
            exit_code: output.exit_code,
            stderr: string_of(&trim_str(output.stderr.as_str())),
        },
    )
}

} // verus!
