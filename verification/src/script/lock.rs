//! The lock a switch script takes: `switch.lock` in the app root, holding one line
//! `pid=<n>` and one line `layout=<name>`. The script writes it before its first step
//! and removes it on exit, so one switch runs at a time, from the app or from a shortcut.

use vstd::prelude::*;
use crate::text::{append_str, chars_of, slice_of, starts_with, string_of, trim, trim_vec};

verus! {

pub const LOCK_FILE_NAME: &'static str = "switch.lock";

/// Who holds the lock, as far as the file says.
#[derive(Debug, Clone, PartialEq, Eq)]
pub struct LockHolder {
    /// The layout named in the file, or nothing when the file does not say.
    pub layout: Option<String>,
}

/// `s` without one `\r` at its end.
pub open spec fn strip_cr(s: Seq<char>) -> Seq<char> {
    if s.len() > 0 && s.last() == '\r' {
        s.drop_last()
    } else {
        s
    }
}

/// Where the first `\n` of `s` is.
pub open spec fn newline_at(s: Seq<char>) -> Option<int>
    decreases s.len(),
{
    if s.len() == 0 {
        None
    } else if s[0] == '\n' {
        Some(0)
    } else {
        match newline_at(s.drop_first()) {
            Some(i) => Some(i + 1),
            None => None,
        }
    }
}

pub proof fn lemma_newline_at(s: Seq<char>)
    ensures
        match newline_at(s) {
            Some(i) => 0 <= i < s.len() && s[i] == '\n' && forall|j: int| 0 <= j < i ==> s[j] != '\n',
            None => forall|j: int| 0 <= j < s.len() ==> s[j] != '\n',
        },
    decreases s.len(),
{
    if s.len() > 0 && s[0] != '\n' {
        lemma_newline_at(s.drop_first());
        assert forall|j: int| 1 <= j < s.len() implies s[j] == s.drop_first()[j - 1] by {}
    }
}

/// `str::lines`: the text cut at each `\n`, a `\r` before the `\n` dropped; a last line
/// without `\n` kept as it is, and no line after a final `\n`.
pub open spec fn lines_of(s: Seq<char>) -> Seq<Seq<char>>
    decreases s.len(),
{
    if s.len() == 0 {
        Seq::empty()
    } else {
        match newline_at(s) {
            Some(i) => {
                proof {
                    lemma_newline_at(s);
                }
                seq![strip_cr(s.take(i))] + lines_of(s.skip(i + 1))
            },
            None => seq![s],
        }
    }
}

/// The first line of `t` from `start`, and where the next one starts.
pub(crate) fn next_line(t: &Vec<char>, start: usize) -> (r: (Vec<char>, usize))
    requires
        start < t.len(),
    ensures
        start < r.1 <= t.len(),
        lines_of(t@.skip(start as int)) == seq![r.0@] + lines_of(t@.skip(r.1 as int)),
{
    let ghost rest = t@.skip(start as int);
    proof {
        lemma_newline_at(rest);
    }
    let mut end = start;
    while end < t.len() && t[end] != '\n'
        invariant
            start <= end <= t.len(),
            forall|j: int| start <= j < end ==> t@[j] != '\n',
        decreases t.len() - end,
    {
        end = end + 1;
    }
    let line = slice_of(t, start, end);
    if end < t.len() {
        assert(rest[end - start] == '\n');
        assert(newline_at(rest) == Some(end - start)) by {
            let i = newline_at(rest)->0;
            if i < end - start {
                assert(t@[start + i] == '\n');
            }
        }
        assert(rest.take(end - start) == line@);
        assert(rest.skip(end - start + 1) == t@.skip(end + 1));
        if line.len() > 0 && line[line.len() - 1] == '\r' {
            let cut = slice_of(&line, 0, line.len() - 1);
            assert(cut@ == line@.drop_last());
            (cut, end + 1)
        } else {
            (line, end + 1)
        }
    } else {
        assert(rest == line@);
        assert(newline_at(rest) is None) by {
            if newline_at(rest) is Some {
                let i = newline_at(rest)->0;
                assert(t@[start + i] == '\n');
            }
        }
        assert(t@.skip(end as int) =~= Seq::<char>::empty());
        assert(seq![line@] + Seq::<Seq<char>>::empty() =~= seq![line@]);
        (line, end)
    }
}

/// The layout the lines name: the last `layout=` line whose name is not blank, trimmed.
pub open spec fn named_layout(lines: Seq<Seq<char>>) -> Option<Seq<char>>
    decreases lines.len(),
{
    if lines.len() == 0 {
        None
    } else {
        let l = lines.last();
        let prefix = "layout="@;
        if l.len() >= prefix.len() && l.take(prefix.len() as int) == prefix && trim(
            l.skip(prefix.len() as int),
        ).len() > 0 {
            Some(trim(l.skip(prefix.len() as int)))
        } else {
            named_layout(lines.drop_last())
        }
    }
}

impl LockHolder {
    /// The holder a lock file's text names. An empty or odd file still counts as held, by
    /// a layout it does not name.
    pub fn from_text(text: &str) -> (r: LockHolder)
        ensures
            match (r.layout, named_layout(lines_of(text@))) {
                (Some(l), Some(n)) => l@ == n,
                (None, None) => true,
                _ => false,
            },
    {
        let t = chars_of(text);
        let prefix = chars_of("layout=");
        let mut layout: Option<Vec<char>> = None;
        let mut start: usize = 0;
        let ghost mut seen: Seq<Seq<char>> = Seq::empty();
        assert(t@.skip(0) == t@);
        while start < t.len()
            invariant
                start <= t.len(),
                prefix@ == "layout="@,
                lines_of(t@) == seen + lines_of(t@.skip(start as int)),
                match (layout, named_layout(seen)) {
                    (Some(l), Some(n)) => l@ == n,
                    (None, None) => true,
                    _ => false,
                },
            decreases t.len() - start,
        {
            let (line, next) = next_line(&t, start);
            if starts_with(&line, &prefix) {
                let name = trim_vec(&slice_of(&line, prefix.len(), line.len()));
                assert(line@.skip(prefix@.len() as int) == line@.subrange(
                    prefix@.len() as int,
                    line@.len() as int,
                ));
                if name.len() > 0 {
                    layout = Some(name);
                }
            }
            proof {
                let old_seen = seen;
                seen = seen.push(line@);
                assert(seen.drop_last() == old_seen);
                assert(seen.last() == line@);
                assert(old_seen + (seq![line@] + lines_of(t@.skip(next as int))) =~= seen
                    + lines_of(t@.skip(next as int)));
            }
            start = next;
        }
        assert(t@.skip(start as int) =~= Seq::<char>::empty());
        assert(seen + Seq::<Seq<char>>::empty() =~= seen);
        LockHolder {
            layout: match layout {
                Some(l) => Some(string_of(&l)),
                None => None,
            },
        }
    }

    /// The layout name for a message: "another layout" when the file does not say.
    pub fn layout_name(&self) -> (r: String)
        ensures
            r@ == (match self.layout {
                Some(l) => l@,
                None => "another layout"@,
            }),
    {
        match &self.layout {
            Some(l) => l.clone(),
            None => {
                let mut o: Vec<char> = Vec::new();
                append_str(&mut o, "another layout");
                string_of(&o)
            },
        }
    }

    /// Whether this holder is the switch of `layout`, so a lock a killed script left
    /// behind may be removed; a lock held by another layout is left alone.
    pub fn names(&self, layout: &str) -> (r: bool)
        ensures
            r == (self.layout is Some && self.layout->0@ == layout@),
    {
        match &self.layout {
            Some(l) => crate::text::same_str(l.as_str(), layout),
            None => false,
        }
    }
}

/// `str::lines`: the lines of `text`, each without its line ending.
pub fn split_lines(text: &str) -> (r: Vec<String>)
    ensures
        r@.map_values(|l: String| l@) == lines_of(text@),
{
    let t = chars_of(text);
    let mut r: Vec<String> = Vec::new();
    let mut start: usize = 0;
    assert(t@.skip(0) == t@);
    while start < t.len()
        invariant
            start <= t.len(),
            t@ == text@,
            lines_of(t@) == r@.map_values(|l: String| l@) + lines_of(t@.skip(start as int)),
        decreases t.len() - start,
    {
        let (line, next) = next_line(&t, start);
        let ghost prev = r@;
        r.push(string_of(&line));
        assert(r@.map_values(|l: String| l@) =~= prev.map_values(|l: String| l@).push(line@));
        assert(prev.map_values(|l: String| l@) + (seq![line@] + lines_of(t@.skip(next as int))) =~= r@.map_values(
            |l: String| l@,
        ) + lines_of(t@.skip(next as int)));
        start = next;
    }
    assert(t@.skip(start as int) =~= Seq::<char>::empty());
    assert(r@.map_values(|l: String| l@) + Seq::<Seq<char>>::empty() =~= r@.map_values(|l: String| l@));
    r
}

/// The first line break of text that holds none before it.
proof fn lemma_newline_after(x: Seq<char>, y: Seq<char>)
    requires
        forall|k: int| 0 <= k < x.len() ==> x[k] != '\n',
    ensures
        newline_at(x + seq!['\n'] + y) == Some(x.len() as int),
    decreases x.len(),
{
    let s = x + seq!['\n'] + y;
    if x.len() > 0 {
        assert(s.drop_first() =~= x.drop_first() + seq!['\n'] + y);
        lemma_newline_after(x.drop_first(), y);
    }
}

/// The lines of one line ended by a carriage return and a line feed, then the rest.
proof fn lemma_crlf_line(x: Seq<char>, rest: Seq<char>)
    requires
        forall|k: int| 0 <= k < x.len() ==> x[k] != '\n',
    ensures
        lines_of(x + seq!['\r', '\n'] + rest) == seq![x] + lines_of(rest),
{
    let xr = x.push('\r');
    let s = x + seq!['\r', '\n'] + rest;
    assert(s =~= xr + seq!['\n'] + rest);
    assert forall|k: int| 0 <= k < xr.len() implies xr[k] != '\n' by {
        if k < x.len() {
            assert(xr[k] == x[k]);
        }
    }
    lemma_newline_after(xr, rest);
    assert(s.take(xr.len() as int) =~= xr);
    assert(s.skip(xr.len() + 1int) =~= rest);
    assert(strip_cr(xr) =~= x);
}

/// The lock a switch script writes reads back as its layout: a first line, then
/// `layout=` and the layout's name, each ended by a carriage return and a line feed,
/// name that layout when the name has no line break and no surrounding whitespace.
pub proof fn lemma_lock_names_its_layout(first: Seq<char>, name: Seq<char>)
    requires
        forall|k: int| 0 <= k < first.len() ==> first[k] != '\n',
        forall|k: int| 0 <= k < name.len() ==> name[k] != '\n',
        name.len() > 0,
        trim(name) == name,
    ensures
        named_layout(lines_of(first + seq!['\r', '\n'] + "layout="@ + name + seq!['\r', '\n']))
            == Some(name),
{
    reveal_strlit("layout=");
    let prefix = "layout="@;
    let second = prefix + name;
    assert forall|k: int| 0 <= k < second.len() implies second[k] != '\n' by {
        if k >= prefix.len() {
            assert(second[k] == name[k - prefix.len()]);
        }
    }
    let tail = second + seq!['\r', '\n'];
    let text = first + seq!['\r', '\n'] + "layout="@ + name + seq!['\r', '\n'];
    assert(text =~= first + seq!['\r', '\n'] + tail);
    lemma_crlf_line(first, tail);
    assert(tail =~= second + seq!['\r', '\n'] + Seq::<char>::empty());
    lemma_crlf_line(second, Seq::<char>::empty());
    let lines = lines_of(text);
    assert(lines =~= seq![first, second]);
    assert(second.take(prefix.len() as int) =~= prefix);
    assert(second.skip(prefix.len() as int) =~= name);
}

} // verus!
