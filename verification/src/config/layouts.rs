//! Layouts as the config stores them, and the rules around them: the name rules, the
//! folder slug, how a probe becomes a summary, how a monitor is named, and whether a
//! script is stale.

use vstd::prelude::*;
use crate::config::steps::{ApplyFailure, Step};
use crate::config::keys_unique;
use crate::error::AppError;
use crate::hardware::{ArrangementBlob, Inventory, Monitor, MonitorState, Point, Size};
use crate::script::render::TEMPLATE_VERSION;
use crate::text::{
    lemma_seq_lt_irreflexive, lemma_trim_idempotent, lemma_trim_unchanged, is_ws,
    append, append_str, ascii_lower, chars_of, dec, eq_ignore_ascii_case, is_alnum,
    is_ascii_alnum, push_dec, same_chars, same_ignoring_ascii_case, seq_lt, seq_lt_exec,
    string_of, to_ascii_lower, trim, trim_end, trim_start, trim_str, trim_vec,
};

verus! {

/// A named, saved arrangement: the raw blob that gets applied, the derived summary the
/// UI shows, and the steps and timings that run around the apply.
#[derive(Debug, Clone, PartialEq, Eq)]
pub struct Layout {
    /// Stable for the life of the layout; renames and re-captures keep it.
    pub id: String,
    pub name: String,
    /// The folder under the layouts folder holding the generated script and its log.
    pub folder: String,
    pub captured_at: String,
    pub updated_at: String,
    pub arrangement: ArrangementBlob,
    pub summary: Summary,
    pub steps: Vec<Step>,
    pub drop_wait_seconds: u32,
    pub available_wait_seconds: u32,
    pub on_apply_failure: ApplyFailure,
    /// The generated switch script on disk, or nothing when none has been written yet.
    pub script: Option<ScriptRecord>,
}

/// What the app knows about a layout's generated script.
#[derive(Debug, Clone, PartialEq, Eq)]
pub struct ScriptRecord {
    /// The template version it was rendered with.
    pub template_version: u32,
    pub rendered_at: String,
}

/// Whether a layout's script can be trusted.
#[derive(Debug, Clone, Copy, PartialEq, Eq, Structural)]
pub enum ScriptState {
    /// Written by this template version after the last capture, and present on disk.
    Current,
    /// Older than the template or the layout; regenerating clears it.
    Stale,
    /// Not on disk.
    Missing,
}

/// A layout's script state with the path the app would open.
#[derive(Debug, Clone, PartialEq, Eq)]
pub struct ScriptStatus {
    pub layout_id: String,
    pub state: ScriptState,
    pub path: String,
}

/// The readable description of a layout's arrangement, derived at capture.
#[derive(Debug, Clone, PartialEq, Eq)]
pub struct Summary {
    /// Every monitor connected at capture: Active ones on, Available ones off.
    pub monitors: Vec<SummaryMonitor>,
}

#[derive(Debug, Clone, PartialEq, Eq)]
pub struct SummaryMonitor {
    pub device_path: String,
    /// The alias fallback: what to show when the alias map has no entry.
    pub reported_name: String,
    pub connector: String,
    pub on: bool,
    pub position: Option<Point>,
    pub size: Option<Size>,
    /// The refresh rate in thousandths of a hertz.
    pub refresh_mhz: Option<u64>,
    pub rotation: Option<u32>,
    pub scale_percent: Option<u32>,
    pub primary: bool,
}

/// What a capture returns.
#[derive(Debug, Clone, PartialEq, Eq)]
pub enum CaptureOutcome {
    Saved { layout: Box<Layout> },
    /// Another layout already has this name (compared without case). Confirm to replace it.
    NameTaken { id: String, name: String },
}

/// The file name of a layout's switch script inside its folder.
pub const SWITCH_SCRIPT_NAME: &'static str = "switch.ps1";

pub const SWITCH_LOG_NAME: &'static str = "switch.log";

pub const NAME_MAX_CHARS: usize = 40;

// ---------------------------------------------------------------------------------
// Names
// ---------------------------------------------------------------------------------

/// The result of the name rules for `raw`: the trimmed name, or the reason it is refused.
pub open spec fn name_rule(raw: Seq<char>) -> Result<Seq<char>, Seq<char>> {
    let name = trim(raw);
    if name.len() == 0 {
        Err("Give the layout a name."@)
    } else if name.len() > NAME_MAX_CHARS {
        Err("Keep the name to "@ + dec(NAME_MAX_CHARS as int) + " characters or fewer."@)
    } else {
        Ok(name)
    }
}

/// The name rules: trimmed, not empty, at most 40 characters. Returns the trimmed name.
pub fn validate_name(raw: &str) -> (r: Result<String, AppError>)
    ensures
        match (r, name_rule(raw@)) {
            (Ok(name), Ok(expected)) => name@ == expected,
            (Err(AppError::InvalidLayoutName { reason }), Err(expected)) => reason@ == expected,
            _ => false,
        },
{
    let name = trim_str(raw);
    if name.len() == 0 {
        let mut o: Vec<char> = Vec::new();
        append_str(&mut o, "Give the layout a name.");
        return Err(AppError::InvalidLayoutName { reason: string_of(&o) });
    }
    if name.len() > NAME_MAX_CHARS {
        let mut o: Vec<char> = Vec::new();
        append_str(&mut o, "Keep the name to ");
        push_dec(&mut o, NAME_MAX_CHARS as u64);
        append_str(&mut o, " characters or fewer.");
        return Err(AppError::InvalidLayoutName { reason: string_of(&o) });
    }
    Ok(string_of(&name))
}

/// What `str::to_lowercase` makes of a string: the Unicode lowercase mapping.
pub uninterp spec fn unicode_lowercase(s: Seq<char>) -> Seq<char>;

/// `str::to_lowercase`.
#[verifier::external_body]
fn to_lowercase(s: &str) -> (r: String)
    ensures
        r@ == unicode_lowercase(s@),
{
    s.to_lowercase()
}

/// Two names are the same layout name when they match, trimmed, in lowercase.
pub open spec fn names_match(a: Seq<char>, b: Seq<char>) -> bool {
    unicode_lowercase(trim(a)) == unicode_lowercase(trim(b))
}

/// Names are unique regardless of letter case.
pub fn same_name(a: &str, b: &str) -> (r: bool)
    ensures
        r == names_match(a@, b@),
{
    let ta = string_of(&trim_str(a));
    let tb = string_of(&trim_str(b));
    let la = to_lowercase(ta.as_str());
    let lb = to_lowercase(tb.as_str());
    same_chars(&chars_of(la.as_str()), &chars_of(lb.as_str()))
}

// ---------------------------------------------------------------------------------
// Folders
// ---------------------------------------------------------------------------------

/// The slug of `s` so far, and whether a separator is waiting: each run of ASCII letters
/// and digits is kept in lowercase, runs are joined by single dashes, and nothing else
/// survives.
pub open spec fn slug_scan(s: Seq<char>) -> (Seq<char>, bool)
    decreases s.len(),
{
    if s.len() == 0 {
        (Seq::empty(), false)
    } else {
        let (out, pending) = slug_scan(s.drop_last());
        let c = s.last();
        if is_ascii_alnum(c) {
            (
                if pending && out.len() > 0 {
                    out.push('-').push(ascii_lower(c))
                } else {
                    out.push(ascii_lower(c))
                },
                false,
            )
        } else {
            (out, true)
        }
    }
}

/// A character a slug may hold: a small ASCII letter, a digit or a dash.
pub open spec fn slug_char(c: char) -> bool {
    ('a' <= c && c <= 'z') || ('0' <= c && c <= '9') || c == '-'
}

/// A well-formed slug: not empty, small ASCII letters, digits and dashes only, no dash
/// at either end and never two dashes in a row.
pub open spec fn well_slugged(s: Seq<char>) -> bool {
    &&& s.len() > 0
    &&& forall|i: int| 0 <= i < s.len() ==> slug_char(#[trigger] s[i])
    &&& s[0] != '-'
    &&& s.last() != '-'
    &&& forall|i: int, j: int|
        0 <= i && j == i + 1 && j < s.len() ==> !(#[trigger] s[i] == '-' && #[trigger] s[j] == '-')
}

proof fn lemma_slug_scan_shape(s: Seq<char>)
    ensures
        slug_scan(s).0.len() == 0 || well_slugged(slug_scan(s).0),
    decreases s.len(),
{
    if s.len() > 0 {
        lemma_slug_scan_shape(s.drop_last());
        let (out, pending) = slug_scan(s.drop_last());
        let c = s.last();
        if is_ascii_alnum(c) {
            let x = ascii_lower(c);
            assert(slug_char(x) && x != '-');
            let n = out.len() as int;
            if pending && out.len() > 0 {
                let r = out.push('-').push(x);
                assert(r.len() == n + 2);
                assert(r[n] == '-' && r[n + 1] == x);
                assert forall|i: int| 0 <= i < r.len() implies slug_char(#[trigger] r[i]) by {
                    if i < n {
                        assert(r[i] == out[i]);
                    }
                }
                assert forall|i: int, j: int|
                    0 <= i && j == i + 1 && j < r.len() implies !(#[trigger] r[i] == '-' && #[trigger] r[j]
                        == '-') by {
                    if j < n {
                        assert(r[i] == out[i] && r[j] == out[j]);
                    } else if j == n {
                        assert(r[i] == out.last());
                    }
                }
                assert(r[0] == out[0]);
                assert(well_slugged(r));
            } else {
                let r = out.push(x);
                assert forall|i: int| 0 <= i < r.len() implies slug_char(#[trigger] r[i]) by {
                    if i < n {
                        assert(r[i] == out[i]);
                    }
                }
                assert forall|i: int, j: int|
                    0 <= i && j == i + 1 && j < r.len() implies !(#[trigger] r[i] == '-' && #[trigger] r[j]
                        == '-') by {
                    if j < n {
                        assert(r[i] == out[i] && r[j] == out[j]);
                    }
                }
                if n > 0 {
                    assert(r[0] == out[0]);
                }
                assert(well_slugged(r));
            }
        }
    }
}

/// Every folder slug is well formed: small ASCII letters and digits in runs joined by
/// single dashes, never empty.
pub proof fn lemma_slug_well_formed(name: Seq<char>)
    ensures
        well_slugged(slug_of(name)),
{
    lemma_slug_scan_shape(trim(name));
    if slug_scan(trim(name)).0.len() == 0 {
        reveal_strlit("layout");
        let l = "layout"@;
        assert(l.len() == 6);
        assert forall|i: int| 0 <= i < l.len() implies slug_char(#[trigger] l[i]) by {}
    }
}

/// Scanning a piece of a well-formed slug keeps it, a trailing dash becoming the
/// separator it stands for.
proof fn lemma_slug_scan_keeps(t: Seq<char>)
    requires
        forall|i: int| 0 <= i < t.len() ==> slug_char(#[trigger] t[i]),
        t.len() > 0 ==> t[0] != '-',
        forall|i: int, j: int|
            0 <= i && j == i + 1 && j < t.len() ==> !(#[trigger] t[i] == '-' && #[trigger] t[j] == '-'),
    ensures
        slug_scan(t) == (if t.len() > 0 && t.last() == '-' {
            (t.drop_last(), true)
        } else {
            (t, false)
        }),
    decreases t.len(),
{
    if t.len() > 0 {
        let u = t.drop_last();
        assert forall|i: int, j: int|
            0 <= i && j == i + 1 && j < u.len() implies !(#[trigger] u[i] == '-' && #[trigger] u[j] == '-') by {
            assert(u[i] == t[i] && u[j] == t[j]);
        }
        assert forall|i: int| 0 <= i < u.len() implies slug_char(#[trigger] u[i]) by {
            assert(u[i] == t[i]);
        }
        if u.len() > 0 {
            assert(u[0] == t[0]);
        }
        lemma_slug_scan_keeps(u);
        let c = t.last();
        assert(slug_char(c));
        if c != '-' {
            assert(ascii_lower(c) == c);
            if u.len() > 0 && u.last() == '-' {
                assert(u.len() >= 2) by {
                    if u.len() == 1 {
                        assert(u[0] == t[0]);
                    }
                }
                assert(u.drop_last().push('-').push(c) =~= t);
            } else {
                assert(u.push(c) =~= t);
            }
        } else {
            let k = t.len() - 1;
            assert(u.len() > 0);
            assert(t[k] == '-');
            assert(!(t[k - 1] == '-' && t[k] == '-'));
            assert(u.last() == t[k - 1]);
        }
    }
}

/// A slug is its own slug: deriving a folder's slug from a slug changes nothing.
pub proof fn lemma_slug_idempotent(name: Seq<char>)
    ensures
        slug_of(slug_of(name)) == slug_of(name),
{
    let s = slug_of(name);
    lemma_slug_well_formed(name);
    assert(!is_ws(s[0]) && !is_ws(s.last())) by {
        assert(slug_char(s[0]) && slug_char(s[s.len() - 1]));
    }
    lemma_trim_unchanged(s);
    lemma_slug_scan_keeps(s);
}

/// The ASCII letters and digits of `s`, in order, in lowercase.
pub open spec fn ascii_word_chars(s: Seq<char>) -> Seq<char> {
    s.filter(|c: char| is_ascii_alnum(c)).map_values(|c: char| ascii_lower(c))
}

proof fn lemma_word_chars_push(s: Seq<char>, c: char)
    ensures
        ascii_word_chars(s.push(c)) == (if is_ascii_alnum(c) {
            ascii_word_chars(s).push(ascii_lower(c))
        } else {
            ascii_word_chars(s)
        }),
{
    reveal(Seq::filter);
    let p = |x: char| is_ascii_alnum(x);
    assert(s.push(c).drop_last() =~= s);
    assert(s.push(c).last() == c);
    if is_ascii_alnum(c) {
        assert(s.push(c).filter(p) == s.filter(p).push(c));
        assert(s.filter(p).push(c).map_values(|x: char| ascii_lower(x)) =~= s.filter(p).map_values(
            |x: char| ascii_lower(x),
        ).push(ascii_lower(c)));
    } else {
        assert(s.push(c).filter(p) == s.filter(p));
    }
}

proof fn lemma_word_chars_add(a: Seq<char>, b: Seq<char>)
    ensures
        ascii_word_chars(a + b) == ascii_word_chars(a) + ascii_word_chars(b),
{
    let p = |x: char| is_ascii_alnum(x);
    Seq::filter_distributes_over_add(a, b, p);
    assert((a.filter(p) + b.filter(p)).map_values(|x: char| ascii_lower(x)) =~= a.filter(p).map_values(
        |x: char| ascii_lower(x),
    ) + b.filter(p).map_values(|x: char| ascii_lower(x)));
}

proof fn lemma_word_chars_of_space(c: char)
    requires
        is_ws(c),
    ensures
        ascii_word_chars(seq![c]) == Seq::<char>::empty(),
{
    lemma_word_chars_push(Seq::empty(), c);
    assert(Seq::<char>::empty().push(c) =~= seq![c]);
    reveal(Seq::filter);
    assert(ascii_word_chars(Seq::<char>::empty()) =~= Seq::<char>::empty());
}

proof fn lemma_word_chars_trim_start(s: Seq<char>)
    ensures
        ascii_word_chars(trim_start(s)) == ascii_word_chars(s),
    decreases s.len(),
{
    if s.len() > 0 && is_ws(s[0]) {
        lemma_word_chars_trim_start(s.drop_first());
        assert(s =~= seq![s[0]] + s.drop_first());
        lemma_word_chars_add(seq![s[0]], s.drop_first());
        lemma_word_chars_of_space(s[0]);
        assert(Seq::<char>::empty() + ascii_word_chars(s.drop_first()) =~= ascii_word_chars(s.drop_first()));
    }
}

proof fn lemma_word_chars_trim_end(s: Seq<char>)
    ensures
        ascii_word_chars(trim_end(s)) == ascii_word_chars(s),
    decreases s.len(),
{
    if s.len() > 0 && is_ws(s.last()) {
        lemma_word_chars_trim_end(s.drop_last());
        assert(s =~= s.drop_last().push(s.last()));
        lemma_word_chars_push(s.drop_last(), s.last());
    }
}

proof fn lemma_slug_scan_words(t: Seq<char>)
    ensures
        slug_scan(t).0.filter(|c: char| c != '-') == ascii_word_chars(t),
    decreases t.len(),
{
    reveal(Seq::filter);
    let nd = |c: char| c != '-';
    if t.len() == 0 {
        assert(ascii_word_chars(t) =~= Seq::<char>::empty());
    } else {
        let u = t.drop_last();
        let c = t.last();
        lemma_slug_scan_words(u);
        assert(u.push(c) =~= t);
        lemma_word_chars_push(u, c);
        let out = slug_scan(u).0;
        if is_ascii_alnum(c) {
            let x = ascii_lower(c);
            assert(x != '-');
            if slug_scan(u).1 && out.len() > 0 {
                let r = out.push('-').push(x);
                assert(r.drop_last() =~= out.push('-'));
                assert(out.push('-').drop_last() =~= out);
                assert(r.filter(nd) == out.push('-').filter(nd).push(x));
                assert(out.push('-').filter(nd) == out.filter(nd));
            } else {
                let r = out.push(x);
                assert(r.drop_last() =~= out);
                assert(r.filter(nd) == out.filter(nd).push(x));
            }
        }
    }
}

/// A slug keeps exactly the name's words: without its dashes it is the name's ASCII
/// letters and digits, in order, in lowercase; a name with none gets "layout".
pub proof fn lemma_slug_keeps_words(name: Seq<char>)
    ensures
        ascii_word_chars(name).len() == 0 ==> slug_of(name) == "layout"@,
        ascii_word_chars(name).len() > 0 ==> slug_of(name).filter(|c: char| c != '-')
            == ascii_word_chars(name),
{
    let t = trim(name);
    lemma_word_chars_trim_start(name);
    lemma_word_chars_trim_end(trim_start(name));
    lemma_slug_scan_words(t);
    lemma_slug_scan_shape(t);
    let out = slug_scan(t).0;
    if out.len() > 0 {
        assert(out[0] != '-');
        out.lemma_filter_contains(|c: char| c != '-', 0);
        assert(out.filter(|c: char| c != '-').len() > 0);
    } else {
        reveal(Seq::filter);
        assert(out.filter(|c: char| c != '-').len() == 0);
    }
}

/// The lowercase ASCII slug a folder name is derived from; "layout" when the name has
/// no ASCII letter or digit.
pub open spec fn slug_of(name: Seq<char>) -> Seq<char> {
    let out = slug_scan(trim(name)).0;
    if out.len() == 0 {
        "layout"@
    } else {
        out
    }
}

/// The lowercase ASCII slug a folder name is derived from.
pub fn slug(name: &str) -> (r: String)
    ensures
        r@ == slug_of(name@),
{
    let t = trim_str(name);
    let mut out: Vec<char> = Vec::new();
    let mut pending = false;
    let mut i: usize = 0;
    assert(t@.take(0) =~= Seq::<char>::empty());
    while i < t.len()
        invariant
            i <= t.len(),
            slug_scan(t@.take(i as int)) == (out@, pending),
        decreases t.len() - i,
    {
        let c = t[i];
        assert(t@.take(i + 1).drop_last() == t@.take(i as int));
        assert(t@.take(i + 1).last() == c);
        if is_alnum(c) {
            if pending && out.len() > 0 {
                out.push('-');
            }
            pending = false;
            out.push(to_ascii_lower(c));
        } else {
            pending = true;
        }
        i = i + 1;
    }
    assert(t@.take(t.len() as int) == t@);
    if out.len() == 0 {
        let mut o: Vec<char> = Vec::new();
        append_str(&mut o, "layout");
        string_of(&o)
    } else {
        string_of(&out)
    }
}

/// The number of bytes `c` takes in UTF-8.
pub open spec fn utf8_width(c: char) -> nat {
    if (c as u32) < 0x80 {
        1
    } else if (c as u32) < 0x800 {
        2
    } else if (c as u32) < 0x10000 {
        3
    } else {
        4
    }
}

/// The number of bytes `s` takes in UTF-8.
pub open spec fn utf8_len(s: Seq<char>) -> nat
    decreases s.len(),
{
    if s.len() == 0 {
        0
    } else {
        utf8_len(s.drop_last()) + utf8_width(s.last())
    }
}

/// The first eight bytes of `id` fall on a character boundary, as slicing them requires.
pub open spec fn short_id_cut(id: Seq<char>, k: int) -> bool {
    0 <= k <= id.len() && utf8_len(id.take(k)) == (if utf8_len(id) < 8 {
        utf8_len(id)
    } else {
        8
    })
}

/// The id's first eight bytes, or all of it when shorter.
pub fn short_id(id: &str) -> (r: String)
    requires
        exists|k: int| short_id_cut(id@, k),
    ensures
        exists|k: int| short_id_cut(id@, k) && r@ == id@.take(k),
{
    let v = chars_of(id);
    let mut out: Vec<char> = Vec::new();
    let mut bytes: u64 = 0;
    let mut i: usize = 0;
    assert(v@.take(0) =~= Seq::<char>::empty());
    while i < v.len() && bytes < 8
        invariant
            i <= v.len(),
            v@ == id@,
            bytes == utf8_len(v@.take(i as int)),
            bytes <= 11,
            i > 0 ==> utf8_len(v@.take(i - 1)) < 8,
            out@ == v@.take(i as int),
            exists|k: int| short_id_cut(id@, k),
        decreases v.len() - i,
    {
        let c = v[i];
        let w: u64 = if (c as u32) < 0x80 {
            1
        } else if (c as u32) < 0x800 {
            2
        } else if (c as u32) < 0x10000 {
            3
        } else {
            4
        };
        assert(v@.take(i + 1).drop_last() == v@.take(i as int));
        assert(v@.take(i + 1).last() == c);
        out.push(c);
        bytes = bytes + w;
        i = i + 1;
    }
    proof {
        let k = choose|k: int| short_id_cut(id@, k);
        let n = v.len() as int;
        assert(v@.take(n) == v@);
        lemma_utf8_len_prefix_mono(v@, i as int, n);
        if k < i {
            lemma_utf8_len_prefix_mono(v@, k, i - 1);
            lemma_utf8_len_prefix_strict(v@, k, n);
            assert(false);
        } else if k > i {
            lemma_utf8_len_prefix_strict(v@, i as int, k);
            lemma_utf8_len_prefix_mono(v@, k, n);
            assert(false);
        }
        assert(short_id_cut(id@, i as int));
    }
    string_of(&out)
}

proof fn lemma_utf8_len_prefix_mono(s: Seq<char>, a: int, b: int)
    requires
        0 <= a <= b <= s.len(),
    ensures
        utf8_len(s.take(a)) <= utf8_len(s.take(b)),
    decreases b - a,
{
    if a < b {
        assert(s.take(b).drop_last() == s.take(b - 1));
        lemma_utf8_len_prefix_mono(s, a, b - 1);
    }
}

proof fn lemma_utf8_len_prefix_strict(s: Seq<char>, a: int, b: int)
    requires
        0 <= a < b <= s.len(),
    ensures
        utf8_len(s.take(a)) < utf8_len(s.take(b)),
{
    assert(s.take(b).drop_last() == s.take(b - 1));
    lemma_utf8_len_prefix_mono(s, a, b - 1);
}

/// Whether `c` is one of the digits `0`-`9` or the letters `a`-`f`.
pub open spec fn is_lower_hex(c: char) -> bool {
    ('0' <= c && c <= '9') || ('a' <= c && c <= 'f')
}

/// A fresh layout id: a random version 4 UUID in `uuid`'s simple form. The crate's
/// formatter writes the sixteen bytes as 32 lowercase hexadecimal digits; which digits
/// come out is chance, so nothing more is stated.
#[verifier::external_body]
pub fn new_id() -> (r: String)
    ensures
        r@.len() == 32,
        forall|i: int| 0 <= i < 32 ==> is_lower_hex(#[trigger] r@[i]),
{
    uuid::Uuid::new_v4().simple().to_string()
}

/// A string of characters below 0x80 takes one UTF-8 byte per character.
pub proof fn lemma_ascii_utf8_len(s: Seq<char>)
    requires
        forall|i: int| 0 <= i < s.len() ==> (#[trigger] s[i] as u32) < 0x80,
    ensures
        utf8_len(s) == s.len(),
    decreases s.len(),
{
    if s.len() > 0 {
        assert(forall|i: int| 0 <= i < s.drop_last().len() ==> s.drop_last()[i] == s[i]);
        lemma_ascii_utf8_len(s.drop_last());
    }
}

/// An id of at least eight hexadecimal digits is cut after its eighth.
pub proof fn lemma_hex_id_cut(id: Seq<char>)
    requires
        id.len() >= 8,
        forall|i: int| 0 <= i < id.len() ==> is_lower_hex(#[trigger] id[i]),
    ensures
        short_id_cut(id, 8),
{
    assert forall|i: int| 0 <= i < id.len() implies (#[trigger] id[i] as u32) < 0x80 by {
        assert(is_lower_hex(id[i]));
    }
    lemma_ascii_utf8_len(id);
    assert forall|i: int| 0 <= i < id.take(8).len() implies (#[trigger] id.take(8)[i] as u32) < 0x80 by {
        assert(id.take(8)[i] == id[i]);
        assert(is_lower_hex(id[i]));
    }
    lemma_ascii_utf8_len(id.take(8));
}

/// The folder for a layout: its slug, with the short id appended when another layout's
/// folder matches the slug without regard to ASCII case.
pub open spec fn folder_of(name: Seq<char>, short: Seq<char>, taken: Seq<Seq<char>>) -> Seq<char> {
    let base = slug_of(name);
    if exists|k: int| 0 <= k < taken.len() && eq_ignore_ascii_case(taken[k], base) {
        base + "-"@ + short
    } else {
        base
    }
}

/// Two layouts whose names share a slug get distinct folders: the folder a new layout
/// gets matches no folder already taken, without regard to ASCII case, unless one of
/// them is already its slug with its own short id appended.
pub proof fn lemma_folder_is_free(name: Seq<char>, short: Seq<char>, taken: Seq<Seq<char>>)
    requires
        forall|k: int|
            0 <= k < taken.len() ==> !eq_ignore_ascii_case(
                #[trigger] taken[k],
                slug_of(name) + "-"@ + short,
            ),
    ensures
        forall|k: int|
            0 <= k < taken.len() ==> !eq_ignore_ascii_case(
                #[trigger] taken[k],
                folder_of(name, short, taken),
            ),
{
}

/// The folder for a layout: its slug, with the id appended when another layout's folder
/// would collide on the slug alone.
pub fn folder_name(name: &str, id: &str, taken: &[&str]) -> (r: String)
    requires
        exists|k: int| short_id_cut(id@, k),
    ensures
        exists|k: int|
            short_id_cut(id@, k) && r@ == folder_of(
                name@,
                id@.take(k),
                taken@.map_values(|t: &str| t@),
            ),
{
    let base = slug(name);
    let base_chars = chars_of(base.as_str());
    let ghost views = taken@.map_values(|t: &str| t@);
    let mut collides = false;
    let mut i: usize = 0;
    while i < taken.len()
        invariant
            i <= taken.len(),
            views == taken@.map_values(|t: &str| t@),
            base_chars@ == slug_of(name@),
            collides == exists|k: int| 0 <= k < i && eq_ignore_ascii_case(views[k], base_chars@),
        decreases taken.len() - i,
    {
        let t = chars_of(taken[i]);
        assert(views[i as int] == taken@[i as int]@);
        if same_ignoring_ascii_case(&t, &base_chars) {
            collides = true;
        }
        i = i + 1;
    }
    let short = short_id(id);
    let ghost k = choose|k: int| short_id_cut(id@, k) && short@ == id@.take(k);
    if collides {
        let mut o = base_chars;
        append_str(&mut o, "-");
        append_str(&mut o, short.as_str());
        let r = string_of(&o);
        assert(r@ == folder_of(name@, id@.take(k), views));
        r
    } else {
        assert(base@ == folder_of(name@, id@.take(k), views));
        base
    }
}


// ---------------------------------------------------------------------------------
// Stale scripts
// ---------------------------------------------------------------------------------

/// What `DateTime::parse_from_rfc3339` makes of a timestamp, as plain values: the UTC
/// instant in whole seconds since 1970, the nanoseconds past that second, and the
/// offset in seconds east of UTC; nothing when the text is not RFC 3339.
pub uninterp spec fn rfc3339_parse(s: Seq<char>) -> Option<(i64, u32, i32)>;

/// `chrono::DateTime::parse_from_rfc3339`, with the parsed time taken apart into its UTC
/// instant and its offset.
#[verifier::external_body]
fn parse_rfc3339(s: &str) -> (r: Option<(i64, u32, i32)>)
    ensures
        r == rfc3339_parse(s@),
{
    chrono::DateTime::parse_from_rfc3339(s).ok().map(
        |d| (d.timestamp(), d.timestamp_subsec_nanos(), d.offset().local_minus_utc()),
    )
}

/// `a` is an earlier instant than `b`, whatever their offsets.
pub open spec fn instant_lt(a: (i64, u32, i32), b: (i64, u32, i32)) -> bool {
    a.0 < b.0 || (a.0 == b.0 && a.1 < b.1)
}

/// The stale rule's order on two timestamps given how they parse: by instant when both
/// parse, else by text.
pub open spec fn before_given(
    a: Seq<char>,
    b: Seq<char>,
    pa: Option<(i64, u32, i32)>,
    pb: Option<(i64, u32, i32)>,
) -> bool {
    match (pa, pb) {
        (Some(x), Some(y)) => instant_lt(x, y),
        _ => seq_lt(a, b),
    }
}

/// Chronological comparison of two RFC 3339 timestamps, falling back to text order
/// when one does not parse.
pub open spec fn timestamp_before(a: Seq<char>, b: Seq<char>) -> bool {
    before_given(a, b, rfc3339_parse(a), rfc3339_parse(b))
}

/// The stale rule's order on two timestamps, once both have been parsed.
pub fn before_parsed(
    a: &str,
    b: &str,
    pa: Option<(i64, u32, i32)>,
    pb: Option<(i64, u32, i32)>,
) -> (r: bool)
    ensures
        r == before_given(a@, b@, pa, pb),
{
    match (pa, pb) {
        (Some(x), Some(y)) => x.0 < y.0 || (x.0 == y.0 && x.1 < y.1),
        _ => seq_lt_exec(&chars_of(a), &chars_of(b)),
    }
}

/// Chronological comparison of two RFC 3339 timestamps, whatever their offsets. Falls
/// back to text order when one does not parse, so a hand-edited config still loads.
pub fn is_before(a: &str, b: &str) -> (r: bool)
    ensures
        r == timestamp_before(a@, b@),
{
    let pa = parse_rfc3339(a);
    let pb = parse_rfc3339(b);
    before_parsed(a, b, pa, pb)
}

/// The stale rule: missing when not on disk; stale when no render is recorded, or it
/// used an older template, or it happened before the layout was last captured.
pub open spec fn script_state_of(layout: Layout, template_version: u32, file_exists: bool) -> ScriptState {
    if !file_exists {
        ScriptState::Missing
    } else {
        match layout.script {
            None => ScriptState::Stale,
            Some(record) => if record.template_version < template_version || timestamp_before(
                record.rendered_at@,
                layout.captured_at@,
            ) {
                ScriptState::Stale
            } else {
                ScriptState::Current
            },
        }
    }
}

/// A timestamp is never before itself, whether it parses or not.
pub proof fn lemma_timestamp_irreflexive(t: Seq<char>)
    ensures
        !timestamp_before(t, t),
{
    lemma_seq_lt_irreflexive(t);
}

/// Records that the layout's script was just rendered with this template.
pub fn record_render(layout: &mut Layout, rendered_at: String)
    ensures
        final(layout).script == Some(ScriptRecord { template_version: TEMPLATE_VERSION, rendered_at }),
        final(layout).id == old(layout).id,
        final(layout).name == old(layout).name,
        final(layout).folder == old(layout).folder,
        final(layout).captured_at == old(layout).captured_at,
        final(layout).updated_at == old(layout).updated_at,
        final(layout).arrangement == old(layout).arrangement,
        final(layout).summary == old(layout).summary,
        final(layout).steps == old(layout).steps,
        final(layout).drop_wait_seconds == old(layout).drop_wait_seconds,
        final(layout).available_wait_seconds == old(layout).available_wait_seconds,
        final(layout).on_apply_failure == old(layout).on_apply_failure,
{
    layout.script = Some(ScriptRecord { template_version: TEMPLATE_VERSION, rendered_at });
}

/// A script just rendered with this template, no earlier than the layout was captured,
/// and on disk, is current: rendering clears the stale state.
pub proof fn lemma_fresh_render_is_current(layout: Layout)
    requires
        layout.script matches Some(record) && record.template_version == TEMPLATE_VERSION
            && !timestamp_before(record.rendered_at@, layout.captured_at@),
    ensures
        script_state_of(layout, TEMPLATE_VERSION, true) == ScriptState::Current,
{
}

/// A name the rules accept passes them again unchanged.
pub proof fn lemma_valid_name_is_stable(raw: Seq<char>)
    ensures
        match name_rule(raw) {
            Ok(name) => name_rule(name) == Ok::<Seq<char>, Seq<char>>(name),
            Err(_) => true,
        },
{
    lemma_trim_idempotent(raw);
}

/// Whether a layout's script can be trusted, given whether it is on disk.
pub fn script_state(layout: &Layout, template_version: u32, file_exists: bool) -> (r: ScriptState)
    ensures
        r == script_state_of(*layout, template_version, file_exists),
{
    if !file_exists {
        return ScriptState::Missing;
    }
    match &layout.script {
        None => ScriptState::Stale,
        Some(record) => {
            if record.template_version < template_version || is_before(
                record.rendered_at.as_str(),
                layout.captured_at.as_str(),
            ) {
                ScriptState::Stale
            } else {
                ScriptState::Current
            }
        },
    }
}

// ---------------------------------------------------------------------------------
// Monitor labels
// ---------------------------------------------------------------------------------

/// The alias stored for `path`: the first entry whose key is the path.
pub open spec fn alias_lookup(aliases: Seq<(String, String)>, path: Seq<char>) -> Option<Seq<char>>
    decreases aliases.len(),
{
    if aliases.len() == 0 {
        None
    } else if aliases[0].0@ == path {
        Some(aliases[0].1@)
    } else {
        alias_lookup(aliases.drop_first(), path)
    }
}

/// The first alias that matches wins: a path finds the alias of the first entry keyed
/// by it, and none when no entry is.
pub proof fn lemma_alias_first_match(aliases: Seq<(String, String)>, path: Seq<char>)
    ensures
        forall|i: int|
            0 <= i < aliases.len() && (#[trigger] aliases[i]).0@ == path && (forall|j: int|
                0 <= j < i ==> (#[trigger] aliases[j]).0@ != path) ==> alias_lookup(aliases, path)
                == Some(aliases[i].1@),
        (forall|i: int| 0 <= i < aliases.len() ==> (#[trigger] aliases[i]).0@ != path) ==> alias_lookup(
            aliases,
            path,
        ) is None,
    decreases aliases.len(),
{
    if aliases.len() > 0 {
        let rest = aliases.drop_first();
        lemma_alias_first_match(rest, path);
        assert forall|i: int|
            0 <= i < aliases.len() && (#[trigger] aliases[i]).0@ == path && (forall|j: int|
                0 <= j < i ==> (#[trigger] aliases[j]).0@ != path) implies alias_lookup(aliases, path)
                == Some(aliases[i].1@) by {
            if i > 0 {
                assert(aliases[0].0@ != path);
                assert(rest[i - 1] == aliases[i]);
                assert forall|j: int| 0 <= j < i - 1 implies (#[trigger] rest[j]).0@ != path by {
                    assert(rest[j] == aliases[j + 1]);
                }
            }
        }
        if forall|i: int| 0 <= i < aliases.len() ==> (#[trigger] aliases[i]).0@ != path {
            assert forall|i: int| 0 <= i < rest.len() implies (#[trigger] rest[i]).0@ != path by {
                assert(rest[i] == aliases[i + 1]);
            }
            assert(aliases[0].0@ != path);
        }
    }
}

/// With each key once, a path finds the alias of the one entry it keys, and a path no
/// entry keys finds none.
pub proof fn lemma_alias_lookup_keyed(aliases: Seq<(String, String)>, path: Seq<char>)
    requires
        keys_unique(aliases),
    ensures
        forall|i: int|
            0 <= i < aliases.len() && (#[trigger] aliases[i]).0@ == path ==> alias_lookup(aliases, path)
                == Some(aliases[i].1@),
        (forall|i: int| 0 <= i < aliases.len() ==> (#[trigger] aliases[i]).0@ != path) ==> alias_lookup(
            aliases,
            path,
        ) is None,
    decreases aliases.len(),
{
    if aliases.len() > 0 {
        let rest = aliases.drop_first();
        assert forall|i: int, j: int| 0 <= i < j < rest.len() implies rest[i].0@ != rest[j].0@ by {
            assert(rest[i] == aliases[i + 1] && rest[j] == aliases[j + 1]);
        }
        lemma_alias_lookup_keyed(rest, path);
        assert forall|i: int|
            0 <= i < aliases.len() && (#[trigger] aliases[i]).0@ == path implies alias_lookup(aliases, path)
                == Some(aliases[i].1@) by {
            if i > 0 {
                assert(aliases[0].0@ != aliases[i].0@);
                assert(rest[i - 1] == aliases[i]);
            }
        }
        if forall|i: int| 0 <= i < aliases.len() ==> (#[trigger] aliases[i]).0@ != path {
            assert forall|i: int| 0 <= i < rest.len() implies (#[trigger] rest[i]).0@ != path by {
                assert(rest[i] == aliases[i + 1]);
            }
            assert(aliases[0].0@ != path);
        }
    }
}

/// How a monitor reads before it is told apart from others: its trimmed alias and its
/// reported name, or, without a usable alias, its reported name and its connector.
pub open spec fn display_of(aliases: Seq<(String, String)>, m: SummaryMonitor) -> (Seq<char>, Seq<char>) {
    match alias_lookup(aliases, m.device_path@) {
        Some(a) => if trim(a).len() > 0 {
            (trim(a), m.reported_name@)
        } else {
            (m.reported_name@, m.connector@)
        },
        None => (m.reported_name@, m.connector@),
    }
}

/// The label of monitor `i`: how it reads, with the detail after a middle dot when
/// another monitor in the list reads the same.
pub open spec fn label_of(aliases: Seq<(String, String)>, monitors: Seq<SummaryMonitor>, i: int) -> Seq<char> {
    let (label, detail) = display_of(aliases, monitors[i]);
    if exists|j: int|
        0 <= j < monitors.len() && j != i && (#[trigger] display_of(aliases, monitors[j])).0
            == label {
        label + " \u{b7} "@ + detail
    } else {
        label
    }
}

/// Identical panels read apart: two monitors that would read the same each carry their
/// detail after a middle dot, so different details give different labels.
pub proof fn lemma_same_reading_told_apart(
    aliases: Seq<(String, String)>,
    monitors: Seq<SummaryMonitor>,
    i: int,
    j: int,
)
    requires
        0 <= i < monitors.len(),
        0 <= j < monitors.len(),
        i != j,
        display_of(aliases, monitors[i]).0 == display_of(aliases, monitors[j]).0,
        display_of(aliases, monitors[i]).1 != display_of(aliases, monitors[j]).1,
    ensures
        label_of(aliases, monitors, i) != label_of(aliases, monitors, j),
{
    let (li, di) = display_of(aliases, monitors[i]);
    let (lj, dj) = display_of(aliases, monitors[j]);
    assert(display_of(aliases, monitors[j]).0 == li);
    assert(display_of(aliases, monitors[i]).0 == lj);
    let a = label_of(aliases, monitors, i);
    let b = label_of(aliases, monitors, j);
    assert(a == li + " \u{b7} "@ + di);
    assert(b == li + " \u{b7} "@ + dj);
    let k: int = (li.len() + " \u{b7} "@.len()) as int;
    assert(a.skip(k) =~= di);
    assert(b.skip(k) =~= dj);
}

fn alias_for(aliases: &Vec<(String, String)>, path: &String) -> (r: Option<Vec<char>>)
    ensures
        match r {
            Some(a) => alias_lookup(aliases@, path@) == Some(a@),
            None => alias_lookup(aliases@, path@) is None,
        },
{
    let p = chars_of(path.as_str());
    let mut i: usize = 0;
    assert(aliases@.skip(0) == aliases@);
    while i < aliases.len()
        invariant
            i <= aliases.len(),
            p@ == path@,
            alias_lookup(aliases@, path@) == alias_lookup(aliases@.skip(i as int), path@),
        decreases aliases.len() - i,
    {
        assert(aliases@.skip(i as int).drop_first() == aliases@.skip(i + 1));
        assert(aliases@.skip(i as int)[0] == aliases@[i as int]);
        if same_chars(&chars_of(aliases[i].0.as_str()), &p) {
            return Some(chars_of(aliases[i].1.as_str()));
        }
        i = i + 1;
    }
    None
}

fn display_exec(aliases: &Vec<(String, String)>, m: &SummaryMonitor) -> (r: (Vec<char>, Vec<char>))
    ensures
        display_of(aliases@, *m) == (r.0@, r.1@),
{
    match alias_for(aliases, &m.device_path) {
        Some(a) => {
            let t = trim_vec(&a);
            if t.len() > 0 {
                return (t, chars_of(m.reported_name.as_str()));
            }
        },
        None => {},
    }
    (chars_of(m.reported_name.as_str()), chars_of(m.connector.as_str()))
}

/// How each monitor is named wherever it appears: the alias, else the reported name; and
/// when another monitor in the same list would read the same, the reported name under an
/// alias or the connector under a reported name follows after a middle dot.
pub fn monitor_labels(aliases: &Vec<(String, String)>, monitors: &Vec<SummaryMonitor>) -> (r: Vec<String>)
    ensures
        r.len() == monitors.len(),
        forall|i: int| 0 <= i < r.len() ==> (#[trigger] r[i])@ == label_of(aliases@, monitors@, i),
{
    let mut displays: Vec<(Vec<char>, Vec<char>)> = Vec::new();
    let mut i: usize = 0;
    while i < monitors.len()
        invariant
            i <= monitors.len(),
            displays.len() == i,
            forall|k: int|
                0 <= k < i ==> display_of(aliases@, monitors@[k]) == ((#[trigger] displays@[k]).0@,
                displays@[k].1@),
        decreases monitors.len() - i,
    {
        displays.push(display_exec(aliases, &monitors[i]));
        i = i + 1;
    }
    let mut r: Vec<String> = Vec::new();
    let mut i: usize = 0;
    while i < monitors.len()
        invariant
            i <= monitors.len(),
            displays.len() == monitors.len(),
            forall|k: int|
                0 <= k < monitors.len() ==> display_of(aliases@, monitors@[k]) == (
                (#[trigger] displays@[k]).0@,
                displays@[k].1@,
            ),
            r.len() == i,
            forall|k: int| 0 <= k < i ==> (#[trigger] r[k])@ == label_of(aliases@, monitors@, k),
        decreases monitors.len() - i,
    {
        let mut shared = false;
        let mut j: usize = 0;
        while j < displays.len()
            invariant
                j <= displays.len(),
                i < displays.len(),
                displays.len() == monitors.len(),
                forall|k: int|
                    0 <= k < monitors.len() ==> display_of(aliases@, monitors@[k]) == (
                    (#[trigger] displays@[k]).0@,
                    displays@[k].1@,
                ),
                shared == exists|q: int|
                    0 <= q < j && q != i && (#[trigger] display_of(aliases@, monitors@[q])).0
                        == displays@[i as int].0@,
            decreases displays.len() - j,
        {
            if j != i && same_chars(&displays[j].0, &displays[i].0) {
                shared = true;
            }
            j = j + 1;
        }
        let label = if shared {
            let mut o = displays[i].0.clone();
            append_str(&mut o, " \u{b7} ");
            append(&mut o, &displays[i].1);
            string_of(&o)
        } else {
            string_of(&displays[i].0)
        };
        r.push(label);
        i = i + 1;
    }
    r
}

// ---------------------------------------------------------------------------------
// Summaries
// ---------------------------------------------------------------------------------

/// `s` is how the summary records the connected monitor `m`: on when Active, with its
/// arrangement details only when on.
pub open spec fn summary_monitor_of(m: Monitor, s: SummaryMonitor) -> bool {
    let on = m.state == MonitorState::Active;
    &&& s.device_path@ == m.device_path@
    &&& s.reported_name@ == m.reported_name@
    &&& s.connector@ == m.connector@
    &&& s.on == on
    &&& s.position == (if on { m.position } else { None })
    &&& s.size == (if on { m.size } else { None })
    &&& s.refresh_mhz == (if on { m.refresh_mhz } else { None })
    &&& s.rotation == (if on { m.rotation } else { None })
    &&& s.scale_percent == (if on { m.scale_percent } else { None })
    &&& s.primary == (on && m.primary)
}

/// The monitors a summary keeps: every one that is connected.
pub open spec fn connected(monitors: Seq<Monitor>) -> Seq<Monitor> {
    monitors.filter(|m: Monitor| m.state != MonitorState::Absent)
}

/// The summary of what the probe showed: Active monitors on with their details,
/// Available monitors off, Absent monitors left out because they are not connected.
pub fn summarise(inventory: &Inventory) -> (r: Summary)
    ensures
        r.monitors.len() == connected(inventory.monitors@).len(),
        forall|k: int|
            0 <= k < r.monitors.len() ==> summary_monitor_of(
                connected(inventory.monitors@)[k],
                #[trigger] r.monitors@[k],
            ),
{
    let ms = &inventory.monitors;
    let mut out: Vec<SummaryMonitor> = Vec::new();
    let mut i: usize = 0;
    assert(ms@.take(0) =~= Seq::<Monitor>::empty());
    assert(connected(Seq::<Monitor>::empty()) =~= Seq::<Monitor>::empty()) by {
        reveal_with_fuel(Seq::<_>::filter, 1);
    }
    while i < ms.len()
        invariant
            i <= ms.len(),
            out.len() == connected(ms@.take(i as int)).len(),
            forall|k: int|
                0 <= k < out.len() ==> summary_monitor_of(
                    connected(ms@.take(i as int))[k],
                    #[trigger] out@[k],
                ),
        decreases ms.len() - i,
    {
        let m = &ms[i];
        let ghost prev = connected(ms@.take(i as int));
        assert(ms@.take(i + 1).drop_last() == ms@.take(i as int));
        assert(ms@.take(i + 1).last() == *m);
        assert(connected(ms@.take(i + 1)) == (if m.state != MonitorState::Absent {
            prev.push(*m)
        } else {
            prev
        })) by {
            reveal_with_fuel(Seq::<_>::filter, 1);
        }
        if m.state != MonitorState::Absent {
            let on = m.state == MonitorState::Active;
            out.push(
                SummaryMonitor {
                    device_path: m.device_path.clone(),
                    reported_name: m.reported_name.clone(),
                    connector: m.connector.clone(),
                    on,
                    position: if on {
                        m.position
                    } else {
                        None
                    },
                    size: if on {
                        m.size
                    } else {
                        None
                    },
                    refresh_mhz: if on {
                        m.refresh_mhz
                    } else {
                        None
                    },
                    rotation: if on {
                        m.rotation
                    } else {
                        None
                    },
                    scale_percent: if on {
                        m.scale_percent
                    } else {
                        None
                    },
                    primary: on && m.primary,
                },
            );
        }
        i = i + 1;
    }
    assert(ms@.take(ms.len() as int) == ms@);
    Summary { monitors: out }
}

} // verus!
