//! The progress line a generated script prints on every step status change, and its
//! parser. The format is `[step/of] status text`, where `status` is `running`, `done`,
//! `failed` or `skipped`. Every other line the script prints is log.

use vstd::prelude::*;
use crate::text::{
    dec, digits, find, is_ws, lemma_decimal_digits, lemma_find_first, lemma_split_once_free, lemma_split_once_none, lemma_trim_end_last,
    lemma_trim_unchanged, occurs_at, trim_start,
    chars_of, parse_u32, parse_u32_exec, slice_of, split_once, split_once_exec, string_of, trim,
    trim_end, trim_end_vec, trim_vec,
};

verus! {

#[derive(Debug, Clone, Copy, PartialEq, Eq, Structural)]
pub enum StepStatus {
    Running,
    Done,
    Failed,
    Skipped,
}

#[derive(Debug, Clone, PartialEq, Eq)]
pub struct ProgressLine {
    /// One-based.
    pub step: u32,
    pub of: u32,
    pub status: StepStatus,
    /// The step name, with the reason appended after a colon on a failure.
    pub text: String,
}

/// The three pieces of a failed line's text: `<step name>: <next action>; <reason>`.
/// Missing pieces are empty.
#[derive(Debug, Clone, PartialEq, Eq)]
pub struct FailureParts {
    pub step_name: String,
    pub next_action: String,
    pub reason: String,
}

/// The status a word names.
pub open spec fn status_of(word: Seq<char>) -> Option<StepStatus> {
    if word == seq!['r', 'u', 'n', 'n', 'i', 'n', 'g'] {
        Some(StepStatus::Running)
    } else if word == seq!['d', 'o', 'n', 'e'] {
        Some(StepStatus::Done)
    } else if word == seq!['f', 'a', 'i', 'l', 'e', 'd'] {
        Some(StepStatus::Failed)
    } else if word == seq!['s', 'k', 'i', 'p', 'p', 'e', 'd'] {
        Some(StepStatus::Skipped)
    } else {
        None
    }
}

/// The status word and the text after it: the text after the first space, or nothing
/// when there is no space.
pub open spec fn status_and_text(rest: Seq<char>) -> (Seq<char>, Seq<char>) {
    match split_once(rest, seq![' ']) {
        Some((status, text)) => (status, text),
        None => (rest, Seq::empty()),
    }
}

/// What a counter `step/of` reads as, when both are whole numbers and the step is
/// within `1..=of`.
pub open spec fn counter_of(counter: Seq<char>) -> Option<(u32, u32)> {
    match split_once(counter, seq!['/']) {
        Some((step, of)) => match (parse_u32(trim(step), 10), parse_u32(trim(of), 10)) {
            (Some(s), Some(o)) => if s == 0 || o == 0 || s > o {
                None
            } else {
                Some((s, o))
            },
            _ => None,
        },
        None => None,
    }
}

/// What one line of script output reads as: the step, the count, the status and the
/// trimmed text; `None` for a line that is log.
pub open spec fn progress_of(line: Seq<char>) -> Option<(u32, u32, StepStatus, Seq<char>)> {
    let l = trim_end(line);
    if l.len() == 0 || l[0] != '[' {
        None
    } else {
        match split_once(l.drop_first(), seq![']']) {
            Some((counter, rest)) => match counter_of(counter) {
                Some((s, o)) => if rest.len() == 0 || rest[0] != ' ' {
                    None
                } else {
                    let (word, text) = status_and_text(rest.drop_first());
                    match status_of(word) {
                        Some(status) => Some((s, o, status, trim(text))),
                        None => None,
                    }
                },
                None => None,
            },
            None => None,
        }
    }
}

fn one(c: char) -> (v: Vec<char>)
    ensures
        v@ == seq![c],
{
    let mut v = Vec::new();
    v.push(c);
    v
}

fn status_exec(word: &Vec<char>) -> (r: Option<StepStatus>)
    ensures
        r == status_of(word@),
{
    if word.len() == 7 && word[0] == 'r' && word[1] == 'u' && word[2] == 'n' && word[3] == 'n'
        && word[4] == 'i' && word[5] == 'n' && word[6] == 'g' {
        assert(word@ =~= seq!['r', 'u', 'n', 'n', 'i', 'n', 'g']);
        Some(StepStatus::Running)
    } else if word.len() == 4 && word[0] == 'd' && word[1] == 'o' && word[2] == 'n' && word[3]
        == 'e' {
        assert(word@ =~= seq!['d', 'o', 'n', 'e']);
        Some(StepStatus::Done)
    } else if word.len() == 6 && word[0] == 'f' && word[1] == 'a' && word[2] == 'i' && word[3]
        == 'l' && word[4] == 'e' && word[5] == 'd' {
        assert(word@ =~= seq!['f', 'a', 'i', 'l', 'e', 'd']);
        Some(StepStatus::Failed)
    } else if word.len() == 7 && word[0] == 's' && word[1] == 'k' && word[2] == 'i' && word[3]
        == 'p' && word[4] == 'p' && word[5] == 'e' && word[6] == 'd' {
        assert(word@ =~= seq!['s', 'k', 'i', 'p', 'p', 'e', 'd']);
        Some(StepStatus::Skipped)
    } else {
        proof {
            if word@ == seq!['r', 'u', 'n', 'n', 'i', 'n', 'g'] {
                assert(word@[6] == 'g');
            }
            if word@ == seq!['d', 'o', 'n', 'e'] {
                assert(word@[3] == 'e');
            }
            if word@ == seq!['f', 'a', 'i', 'l', 'e', 'd'] {
                assert(word@[5] == 'd');
            }
            if word@ == seq!['s', 'k', 'i', 'p', 'p', 'e', 'd'] {
                assert(word@[6] == 'd');
            }
        }
        None
    }
}

fn counter_exec(counter: &Vec<char>) -> (r: Option<(u32, u32)>)
    ensures
        r == counter_of(counter@),
{
    match split_once_exec(counter, &one('/')) {
        Some((step, of)) => {
            let s = parse_u32_exec(&trim_vec(&step), 10);
            let o = parse_u32_exec(&trim_vec(&of), 10);
            match (s, o) {
                (Some(s), Some(o)) => if s == 0 || o == 0 || s > o {
                    None
                } else {
                    Some((s, o))
                },
                _ => None,
            }
        },
        None => None,
    }
}

/// Parses one line of script output. Anything that is not a progress line is log.
pub fn parse_progress_line(line: &str) -> (r: Option<ProgressLine>)
    ensures
        match r {
            Some(p) => progress_of(line@) == Some((p.step, p.of, p.status, p.text@)),
            None => progress_of(line@) is None,
        },
{
    let l = trim_end_vec(&chars_of(line));
    if l.len() == 0 || l[0] != '[' {
        return None;
    }
    let after = slice_of(&l, 1, l.len());
    assert(after@ == l@.drop_first());
    let (counter, rest) = match split_once_exec(&after, &one(']')) {
        Some(parts) => parts,
        None => return None,
    };
    let (step, of) = match counter_exec(&counter) {
        Some(c) => c,
        None => return None,
    };
    if rest.len() == 0 || rest[0] != ' ' {
        return None;
    }
    let tail = slice_of(&rest, 1, rest.len());
    assert(tail@ == rest@.drop_first());
    let (word, text) = match split_once_exec(&tail, &one(' ')) {
        Some(parts) => parts,
        None => (tail, Vec::new()),
    };
    let status = match status_exec(&word) {
        Some(s) => s,
        None => return None,
    };
    let text = trim_vec(&text);
    Some(ProgressLine { step, of, status, text: string_of(&text) })
}

/// The pieces of a line's text: for a failure, split at the first `": "` and then at
/// the first `"; "`; for any other status, the whole text is the step name.
pub open spec fn failure_parts_of(status: StepStatus, text: Seq<char>) -> (
    Seq<char>,
    Seq<char>,
    Seq<char>,
) {
    if status != StepStatus::Failed {
        (text, Seq::empty(), Seq::empty())
    } else {
        let (step_name, rest) = match split_once(text, seq![':', ' ']) {
            Some((step, rest)) => (step, rest),
            None => (Seq::empty(), text),
        };
        let (next_action, reason) = match split_once(rest, seq![';', ' ']) {
            Some((action, reason)) => (action, reason),
            None => (rest, Seq::empty()),
        };
        (step_name, next_action, reason)
    }
}

fn two(a: char, b: char) -> (v: Vec<char>)
    ensures
        v@ == seq![a, b],
{
    let mut v = Vec::new();
    v.push(a);
    v.push(b);
    assert(v@ =~= seq![a, b]);
    v
}

impl ProgressLine {
    /// Splits a failed line's text into the step name, the next action and the reason.
    /// A line that is not a failure has no next action: the whole text is the step name.
    pub fn failure_parts(&self) -> (r: FailureParts)
        ensures
            failure_parts_of(self.status, self.text@) == (r.step_name@, r.next_action@, r.reason@),
    {
        if self.status != StepStatus::Failed {
            return FailureParts {
                step_name: self.text.clone(),
                next_action: String::new(),
                reason: String::new(),
            };
        }
        let text = chars_of(self.text.as_str());
        let (step_name, rest) = match split_once_exec(&text, &two(':', ' ')) {
            Some(parts) => parts,
            None => (Vec::new(), text),
        };
        let (next_action, reason) = match split_once_exec(&rest, &two(';', ' ')) {
            Some(parts) => parts,
            None => (rest, Vec::new()),
        };
        FailureParts {
            step_name: string_of(&step_name),
            next_action: string_of(&next_action),
            reason: string_of(&reason),
        }
    }
}

/// The word a status is printed as.
pub open spec fn status_word(s: StepStatus) -> Seq<char> {
    match s {
        StepStatus::Running => seq!['r', 'u', 'n', 'n', 'i', 'n', 'g'],
        StepStatus::Done => seq!['d', 'o', 'n', 'e'],
        StepStatus::Failed => seq!['f', 'a', 'i', 'l', 'e', 'd'],
        StepStatus::Skipped => seq!['s', 'k', 'i', 'p', 'p', 'e', 'd'],
    }
}

/// The line a script prints on a step status change: `[step/of] status text`.
pub open spec fn progress_text(step: u32, of: u32, status: StepStatus, text: Seq<char>) -> Seq<char> {
    seq!['['] + dec(step as int) + seq!['/'] + dec(of as int) + seq![']', ' '] + status_word(status)
        + seq![' '] + text
}

proof fn lemma_numeral_counter(n: u32)
    ensures
        dec(n as int).len() > 0,
        forall|i: int| 0 <= i < dec(n as int).len() ==> '0' <= #[trigger] dec(n as int)[i] <= '9',
        trim(dec(n as int)) == dec(n as int),
        parse_u32(dec(n as int), 10) == Some(n),
{
    lemma_decimal_digits(n as nat);
    let d = dec(n as int);
    assert(d == digits(n as nat, 10));
    assert('0' <= d[0] <= '9');
    assert('0' <= d.last() <= '9');
    lemma_trim_unchanged(d);
}

proof fn lemma_line_trim_end(head: Seq<char>, text: Seq<char>)
    requires
        head.len() > 0,
        !is_ws(head.last()),
        trim(text) == text,
    ensures
        trim_end(head + seq![' '] + text) == (if text.len() == 0 {
            head
        } else {
            head + seq![' '] + text
        }),
{
    let line = head + seq![' '] + text;
    if text.len() == 0 {
        assert(line =~= head.push(' '));
        assert(line.drop_last() =~= head);
        assert(trim_end(head) == head);
    } else {
        lemma_trim_end_last(trim_start(text));
        assert(line.last() == text.last());
    }
}

proof fn lemma_counter_reads_back(step: u32, of: u32)
    requires
        1 <= step <= of,
    ensures
        counter_of(dec(step as int) + seq!['/'] + dec(of as int)) == Some((step, of)),
{
    let ds = dec(step as int);
    let dof = dec(of as int);
    lemma_numeral_counter(step);
    lemma_numeral_counter(of);
    assert forall|k: int| 0 <= k < ds.len() implies ds[k] != seq!['/'][0] by {
        assert('0' <= ds[k] <= '9');
    }
    lemma_split_once_free(ds, seq!['/'], dof);
}

proof fn lemma_status_word(status: StepStatus)
    ensures
        status_of(status_word(status)) == Some(status),
        status_word(status).len() > 0,
        forall|k: int| 0 <= k < status_word(status).len() ==> #[trigger] status_word(status)[k] != ' ',
{
    let w = status_word(status);
    match status {
        StepStatus::Running => {},
        StepStatus::Done => {
            assert(w[0] != 'r');
        },
        StepStatus::Failed => {
            assert(w[0] != 'r');
            assert(w[0] != 'd');
        },
        StepStatus::Skipped => {
            assert(w[0] != 'r');
            assert(w[0] != 'd');
            assert(w[0] != 'f');
        },
    }
}

proof fn lemma_status_reads_back(status: StepStatus, text: Seq<char>)
    requires
        trim(text) == text,
    ensures
        status_and_text(if text.len() == 0 {
            status_word(status)
        } else {
            status_word(status) + seq![' '] + text
        }) == (status_word(status), text),
        status_of(status_word(status)) == Some(status),
{
    let w = status_word(status);
    lemma_status_word(status);
    if text.len() == 0 {
        lemma_split_once_none(w, seq![' ']);
        assert(text =~= Seq::<char>::empty());
    } else {
        lemma_split_once_free(w, seq![' '], text);
    }
}

/// Every progress line a script prints reads back as the step, the count, the status
/// and the text it was printed with, for a step within the count and a text without
/// surrounding whitespace.
pub proof fn lemma_progress_line_reads_back(step: u32, of: u32, status: StepStatus, text: Seq<char>)
    requires
        1 <= step <= of,
        trim(text) == text,
    ensures
        progress_of(progress_text(step, of, status, text)) == Some((step, of, status, text)),
{
    let ds = dec(step as int);
    let dof = dec(of as int);
    lemma_numeral_counter(step);
    lemma_numeral_counter(of);
    let w = status_word(status);
    let head = seq!['['] + ds + seq!['/'] + dof + seq![']', ' '] + w;
    let line = progress_text(step, of, status, text);
    assert(line =~= head + seq![' '] + text);
    assert(head.last() == w.last());
    lemma_line_trim_end(head, text);
    let l = trim_end(line);
    let counter = ds + seq!['/'] + dof;
    let tail = if text.len() == 0 {
        w
    } else {
        w + seq![' '] + text
    };
    let rest = seq![' '] + tail;
    assert(l.drop_first() =~= counter + seq![']'] + rest);
    assert forall|k: int| 0 <= k < counter.len() implies counter[k] != seq![']'][0] by {
        if k < ds.len() {
            assert(counter[k] == ds[k]);
            assert('0' <= ds[k] <= '9');
        } else if k > ds.len() {
            assert(counter[k] == dof[k - ds.len() - 1]);
            assert('0' <= dof[k - ds.len() - 1] <= '9');
        }
    }
    lemma_split_once_free(counter, seq![']'], rest);
    lemma_counter_reads_back(step, of);
    assert(rest.drop_first() =~= tail);
    lemma_status_reads_back(status, text);
}

/// The text of a failed line, as a script prints it: `<step name>: <next action>;
/// <reason>`.
pub open spec fn failure_text(step_name: Seq<char>, next_action: Seq<char>, reason: Seq<char>) -> Seq<char> {
    step_name + seq![':', ' '] + next_action + seq![';', ' '] + reason
}

/// Splitting `a + pat + b` at a two-character `pat` whose characters differ gives back
/// `a` and `b` when `pat` does not occur in `a`.
proof fn lemma_split_once_pair(a: Seq<char>, pat: Seq<char>, b: Seq<char>)
    requires
        pat.len() == 2,
        pat[0] != pat[1],
        forall|k: int| 0 <= k && k + 1 < a.len() ==> !(#[trigger] a[k] == pat[0] && a[k + 1] == pat[1]),
    ensures
        split_once(a + pat + b, pat) == Some((a, b)),
{
    let s = a + pat + b;
    assert(s.subrange(a.len() as int, a.len() + 2int) =~= pat);
    assert forall|j: int| 0 <= j < a.len() implies !occurs_at(s, pat, j) by {
        if occurs_at(s, pat, j) {
            assert(s.subrange(j, j + 2)[0] == s[j] && s.subrange(j, j + 2)[1] == s[j + 1]);
            if j + 1 < a.len() {
                assert(s[j] == a[j] && s[j + 1] == a[j + 1]);
            } else {
                assert(s[j + 1] == pat[0]);
            }
        }
    }
    lemma_find_first(s, pat, a.len() as int);
    assert(s.take(a.len() as int) =~= a);
    assert(s.skip(a.len() + 2int) =~= b);
}

/// A failed line's text splits back into the step name, the next action and the
/// reason it was printed with, when the step name holds no ": " and the next action no
/// "; ".
pub proof fn lemma_failure_text_splits_back(step_name: Seq<char>, next_action: Seq<char>, reason: Seq<char>)
    requires
        forall|k: int|
            0 <= k && k + 1 < step_name.len() ==> !(#[trigger] step_name[k] == ':' && step_name[k + 1] == ' '),
        forall|k: int|
            0 <= k && k + 1 < next_action.len() ==> !(#[trigger] next_action[k] == ';' && next_action[k + 1]
                == ' '),
    ensures
        failure_parts_of(StepStatus::Failed, failure_text(step_name, next_action, reason)) == (
            step_name,
            next_action,
            reason,
        ),
{
    let rest = next_action + seq![';', ' '] + reason;
    assert(failure_text(step_name, next_action, reason) =~= step_name + seq![':', ' '] + rest);
    lemma_split_once_pair(step_name, seq![':', ' '], rest);
    lemma_split_once_pair(next_action, seq![';', ' '], reason);
}

} // verus!
