//! Character-level text rules shared by the whole library: Unicode whitespace and
//! trimming, ASCII case folding, searching and splitting, decimal and hexadecimal
//! numbers. Every function works on `Seq<char>` in its contract; the executable
//! versions work on `Vec<char>` and convert at the edges.

use vstd::prelude::*;

verus! {

pub assume_specification[ String::push ](s: &mut String, ch: char)
    ensures
        final(s)@ == old(s)@.push(ch),
;

// ---------------------------------------------------------------------------------
// Conversions
// ---------------------------------------------------------------------------------

/// The characters of `s`, in order.
pub fn chars_of(s: &str) -> (v: Vec<char>)
    ensures
        v@ == s@,
{
    let mut v: Vec<char> = Vec::new();
    for c in it: s.chars()
        invariant
            v@ == it.seq().take(it.index() as int),
    {
        v.push(c);
    }
    v
}

/// A string holding exactly `v`.
pub fn string_of(v: &Vec<char>) -> (s: String)
    ensures
        s@ == v@,
{
    let mut s = String::new();
    let mut i: usize = 0;
    while i < v.len()
        invariant
            i <= v.len(),
            s@ == v@.take(i as int),
        decreases v.len() - i,
    {
        s.push(v[i]);
        assert(v@.take(i + 1) == v@.take(i as int).push(v@[i as int]));
        i = i + 1;
    }
    assert(v@.take(v.len() as int) == v@);
    s
}

/// The characters `v[from..to]`.
pub fn slice_of(v: &Vec<char>, from: usize, to: usize) -> (r: Vec<char>)
    requires
        from <= to <= v.len(),
    ensures
        r@ == v@.subrange(from as int, to as int),
{
    let mut r: Vec<char> = Vec::new();
    let mut i = from;
    while i < to
        invariant
            from <= i <= to <= v.len(),
            r@ == v@.subrange(from as int, i as int),
        decreases to - i,
    {
        r.push(v[i]);
        assert(v@.subrange(from as int, i + 1) == v@.subrange(from as int, i as int).push(
            v@[i as int],
        ));
        i = i + 1;
    }
    r
}

/// `a` followed by `b`.
pub fn concat(a: &Vec<char>, b: &Vec<char>) -> (r: Vec<char>)
    ensures
        r@ == a@ + b@,
{
    let mut r = a.clone();
    append(&mut r, b);
    r
}

/// Appends `b` to `a`.
pub fn append(a: &mut Vec<char>, b: &Vec<char>)
    ensures
        final(a)@ == old(a)@ + b@,
{
    let ghost start = a@;
    let mut i: usize = 0;
    while i < b.len()
        invariant
            i <= b.len(),
            a@ == start + b@.take(i as int),
        decreases b.len() - i,
    {
        a.push(b[i]);
        assert(b@.take(i + 1) == b@.take(i as int).push(b@[i as int]));
        i = i + 1;
    }
    assert(b@.take(b.len() as int) == b@);
}

/// Appends the characters of `s` to `a`.
pub fn append_str(a: &mut Vec<char>, s: &str)
    ensures
        final(a)@ == old(a)@ + s@,
{
    let v = chars_of(s);
    append(a, &v);
}

/// Whether the two sequences hold the same characters.
pub fn same_chars(a: &Vec<char>, b: &Vec<char>) -> (r: bool)
    ensures
        r == (a@ == b@),
{
    if a.len() != b.len() {
        return false;
    }
    let mut i: usize = 0;
    while i < a.len()
        invariant
            a.len() == b.len(),
            i <= a.len(),
            forall|k: int| 0 <= k < i ==> a@[k] == b@[k],
        decreases a.len() - i,
    {
        if a[i] != b[i] {
            return false;
        }
        i = i + 1;
    }
    assert(a@ =~= b@);
    true
}

/// Whether the two strings hold the same characters.
pub fn same_str(a: &str, b: &str) -> (r: bool)
    ensures
        r == (a@ == b@),
{
    same_chars(&chars_of(a), &chars_of(b))
}

// ---------------------------------------------------------------------------------
// Whitespace and trimming
// ---------------------------------------------------------------------------------

/// Unicode White_Space, the set `char::is_whitespace` answers for.
pub open spec fn is_ws(c: char) -> bool {
    ||| c == '\t'
    ||| c == '\n'
    ||| c == '\x0B'
    ||| c == '\x0C'
    ||| c == '\r'
    ||| c == ' '
    ||| c == '\u{85}'
    ||| c == '\u{A0}'
    ||| c == '\u{1680}'
    ||| ('\u{2000}' <= c && c <= '\u{200A}')
    ||| c == '\u{2028}'
    ||| c == '\u{2029}'
    ||| c == '\u{202F}'
    ||| c == '\u{205F}'
    ||| c == '\u{3000}'
}

pub fn is_whitespace(c: char) -> (r: bool)
    ensures
        r == is_ws(c),
{
    c == '\t' || c == '\n' || c == '\x0B' || c == '\x0C' || c == '\r' || c == ' ' || c == '\u{85}'
        || c == '\u{A0}' || c == '\u{1680}' || ('\u{2000}' <= c && c <= '\u{200A}') || c
        == '\u{2028}' || c == '\u{2029}' || c == '\u{202F}' || c == '\u{205F}' || c == '\u{3000}'
}

/// `s` without its leading whitespace.
pub open spec fn trim_start(s: Seq<char>) -> Seq<char>
    decreases s.len(),
{
    if s.len() > 0 && is_ws(s[0]) {
        trim_start(s.drop_first())
    } else {
        s
    }
}

/// `s` without its trailing whitespace.
pub open spec fn trim_end(s: Seq<char>) -> Seq<char>
    decreases s.len(),
{
    if s.len() > 0 && is_ws(s.last()) {
        trim_end(s.drop_last())
    } else {
        s
    }
}

/// `s` without leading or trailing whitespace.
pub open spec fn trim(s: Seq<char>) -> Seq<char> {
    trim_end(trim_start(s))
}

/// What trimming leaves does not end in whitespace.
pub proof fn lemma_trim_end_last(s: Seq<char>)
    ensures
        trim_end(s).len() > 0 ==> !is_ws(trim_end(s).last()),
        trim_end(s).len() <= s.len(),
    decreases s.len(),
{
    if s.len() > 0 && is_ws(s.last()) {
        lemma_trim_end_last(s.drop_last());
    }
}

/// Trimming the end keeps a prefix; trimming the start keeps a suffix that does not
/// start with whitespace.
pub proof fn lemma_trim_parts(s: Seq<char>)
    ensures
        trim_end(s) == s.take(trim_end(s).len() as int),
        trim_start(s).len() > 0 ==> !is_ws(trim_start(s)[0]),
    decreases s.len(),
{
    if s.len() > 0 && is_ws(s.last()) {
        lemma_trim_parts(s.drop_last());
        lemma_trim_end_last(s.drop_last());
        assert(s.drop_last().take(trim_end(s).len() as int) =~= s.take(trim_end(s).len() as int));
    } else {
        assert(s.take(s.len() as int) =~= s);
    }
    if s.len() > 0 && is_ws(s[0]) {
        lemma_trim_parts(s.drop_first());
    }
}

/// Trimming twice trims once.
pub proof fn lemma_trim_idempotent(s: Seq<char>)
    ensures
        trim(trim(s)) == trim(s),
{
    let t = trim(s);
    let u = trim_start(s);
    lemma_trim_parts(u);
    lemma_trim_parts(s);
    lemma_trim_end_last(u);
    if t.len() > 0 {
        assert(t[0] == u[0]);
        lemma_trim_unchanged(t);
    }
}

/// Text that starts and ends with something other than whitespace is its own trim.
pub proof fn lemma_trim_unchanged(s: Seq<char>)
    requires
        s.len() > 0,
        !is_ws(s[0]),
        !is_ws(s.last()),
    ensures
        trim(s) == s,
{
}

/// The index of the first character of `v` that is not whitespace, or its length.
fn trim_start_index(v: &Vec<char>) -> (i: usize)
    ensures
        i <= v.len(),
        trim_start(v@) == v@.skip(i as int),
{
    let mut i: usize = 0;
    assert(v@.skip(0) == v@);
    while i < v.len() && is_whitespace(v[i])
        invariant
            i <= v.len(),
            trim_start(v@) == trim_start(v@.skip(i as int)),
        decreases v.len() - i,
    {
        assert(v@.skip(i as int).drop_first() == v@.skip(i + 1));
        i = i + 1;
    }
    i
}

/// The length of `v[from..]` without its trailing whitespace, as an end index.
fn trim_end_index(v: &Vec<char>, from: usize) -> (j: usize)
    requires
        from <= v.len(),
    ensures
        from <= j <= v.len(),
        trim_end(v@.subrange(from as int, v.len() as int)) == v@.subrange(from as int, j as int),
{
    let mut j: usize = v.len();
    while j > from && is_whitespace(v[j - 1])
        invariant
            from <= j <= v.len(),
            trim_end(v@.subrange(from as int, v.len() as int)) == trim_end(
                v@.subrange(from as int, j as int),
            ),
        decreases j,
    {
        assert(v@.subrange(from as int, j as int).drop_last() == v@.subrange(
            from as int,
            j - 1,
        ));
        j = j - 1;
    }
    j
}

/// `v` without leading or trailing whitespace.
pub fn trim_vec(v: &Vec<char>) -> (r: Vec<char>)
    ensures
        r@ == trim(v@),
{
    let i = trim_start_index(v);
    assert(v@.skip(i as int) == v@.subrange(i as int, v.len() as int));
    let j = trim_end_index(v, i);
    slice_of(v, i, j)
}

/// `v` without trailing whitespace.
pub fn trim_end_vec(v: &Vec<char>) -> (r: Vec<char>)
    ensures
        r@ == trim_end(v@),
{
    assert(v@.subrange(0, v.len() as int) == v@);
    let j = trim_end_index(v, 0);
    slice_of(v, 0, j)
}

/// `s` without leading or trailing whitespace.
pub fn trim_str(s: &str) -> (r: Vec<char>)
    ensures
        r@ == trim(s@),
{
    trim_vec(&chars_of(s))
}


// ---------------------------------------------------------------------------------
// ASCII classes and case
// ---------------------------------------------------------------------------------

pub open spec fn is_ascii_digit(c: char) -> bool {
    '0' <= c && c <= '9'
}

pub open spec fn is_ascii_upper(c: char) -> bool {
    'A' <= c && c <= 'Z'
}

pub open spec fn is_ascii_lower(c: char) -> bool {
    'a' <= c && c <= 'z'
}

/// `char::is_ascii_alphanumeric`.
pub open spec fn is_ascii_alnum(c: char) -> bool {
    is_ascii_digit(c) || is_ascii_upper(c) || is_ascii_lower(c)
}

/// `char::to_ascii_lowercase`: an ASCII capital becomes its small letter.
pub open spec fn ascii_lower(c: char) -> char {
    if is_ascii_upper(c) {
        ((c as int) + 32) as char
    } else {
        c
    }
}

/// Every character of `s` through [`ascii_lower`].
pub open spec fn ascii_lower_seq(s: Seq<char>) -> Seq<char> {
    s.map_values(|c: char| ascii_lower(c))
}

/// `str::eq_ignore_ascii_case`.
pub open spec fn eq_ignore_ascii_case(a: Seq<char>, b: Seq<char>) -> bool {
    ascii_lower_seq(a) == ascii_lower_seq(b)
}

pub fn is_alnum(c: char) -> (r: bool)
    ensures
        r == is_ascii_alnum(c),
{
    ('0' <= c && c <= '9') || ('A' <= c && c <= 'Z') || ('a' <= c && c <= 'z')
}

pub fn to_ascii_lower(c: char) -> (r: char)
    ensures
        r == ascii_lower(c),
{
    if 'A' <= c && c <= 'Z' {
        let b: u32 = c as u32;
        let l: u8 = (b + 32) as u8;
        assert(l as int == c as int + 32);
        l as char
    } else {
        c
    }
}

/// Whether `a` and `b` match when ASCII letters are compared without case.
pub fn same_ignoring_ascii_case(a: &Vec<char>, b: &Vec<char>) -> (r: bool)
    ensures
        r == eq_ignore_ascii_case(a@, b@),
{
    if a.len() != b.len() {
        assert(ascii_lower_seq(a@).len() != ascii_lower_seq(b@).len());
        return false;
    }
    let mut i: usize = 0;
    while i < a.len()
        invariant
            a.len() == b.len(),
            i <= a.len(),
            forall|k: int| 0 <= k < i ==> ascii_lower(a@[k]) == ascii_lower(b@[k]),
        decreases a.len() - i,
    {
        if to_ascii_lower(a[i]) != to_ascii_lower(b[i]) {
            assert(ascii_lower_seq(a@)[i as int] != ascii_lower_seq(b@)[i as int]);
            return false;
        }
        i = i + 1;
    }
    assert(ascii_lower_seq(a@) =~= ascii_lower_seq(b@));
    true
}

// ---------------------------------------------------------------------------------
// Searching, splitting, replacing
// ---------------------------------------------------------------------------------

/// `pat` occurs in `s` starting at `i`.
pub open spec fn occurs_at(s: Seq<char>, pat: Seq<char>, i: int) -> bool {
    0 <= i && i + pat.len() <= s.len() && s.subrange(i, i + pat.len()) == pat
}

/// The first place `pat` occurs in `s`, as `str::find` reports it.
#[verifier::opaque]
pub open spec fn find(s: Seq<char>, pat: Seq<char>) -> Option<int> {
    if exists|i: int| occurs_at(s, pat, i) {
        Some(choose|i: int| occurs_at(s, pat, i) && forall|j: int| 0 <= j < i ==> !occurs_at(s, pat, j))
    } else {
        None
    }
}

/// `str::split_once`: the text before the first `pat` and the text after it.
pub open spec fn split_once(s: Seq<char>, pat: Seq<char>) -> Option<(Seq<char>, Seq<char>)> {
    match find(s, pat) {
        Some(i) => Some((s.take(i), s.skip(i + pat.len()))),
        None => None,
    }
}

/// The first place `pat` occurs is the one before which it occurs nowhere.
pub proof fn lemma_find_first(s: Seq<char>, pat: Seq<char>, i: int)
    requires
        occurs_at(s, pat, i),
        forall|j: int| 0 <= j < i ==> !occurs_at(s, pat, j),
    ensures
        find(s, pat) == Some(i),
{
    reveal(find);
    let c = choose|k: int| occurs_at(s, pat, k) && forall|j: int| 0 <= j < k ==> !occurs_at(s, pat, j);
    assert(occurs_at(s, pat, c) && forall|j: int| 0 <= j < c ==> !occurs_at(s, pat, j));
    if c < i {
        assert(!occurs_at(s, pat, c));
    } else if c > i {
        assert(!occurs_at(s, pat, i));
    }
}

/// Text that never holds the first character of `pat` does not split at it.
pub proof fn lemma_split_once_none(s: Seq<char>, pat: Seq<char>)
    requires
        pat.len() > 0,
        forall|k: int| 0 <= k < s.len() ==> s[k] != pat[0],
    ensures
        split_once(s, pat) is None,
{
    reveal(find);
    assert forall|i: int| !occurs_at(s, pat, i) by {
        if occurs_at(s, pat, i) {
            assert(s.subrange(i, i + pat.len())[0] == s[i]);
        }
    }
}

/// Splitting `a + pat + b` at `pat` gives back `a` and `b` when `a` never holds the
/// first character of `pat`.
pub proof fn lemma_split_once_free(a: Seq<char>, pat: Seq<char>, b: Seq<char>)
    requires
        pat.len() > 0,
        forall|k: int| 0 <= k < a.len() ==> a[k] != pat[0],
    ensures
        split_once(a + pat + b, pat) == Some((a, b)),
{
    let s = a + pat + b;
    assert(s.subrange(a.len() as int, a.len() + pat.len() as int) =~= pat);
    assert forall|j: int| 0 <= j < a.len() implies !occurs_at(s, pat, j) by {
        if occurs_at(s, pat, j) {
            assert(s.subrange(j, j + pat.len())[0] == s[j]);
        }
    }
    lemma_find_first(s, pat, a.len() as int);
    assert(s.take(a.len() as int) =~= a);
    assert(s.skip(a.len() + pat.len() as int) =~= b);
}

/// Whether `pat` occurs at `i` in `s`.
pub fn occurs_at_exec(s: &Vec<char>, pat: &Vec<char>, i: usize) -> (r: bool)
    ensures
        r == occurs_at(s@, pat@, i as int),
{
    if i > s.len() || pat.len() > s.len() - i {
        return false;
    }
    let mut k: usize = 0;
    while k < pat.len()
        invariant
            i + pat.len() <= s.len(),
            k <= pat.len(),
            forall|m: int| 0 <= m < k ==> s@[i + m] == pat@[m],
        decreases pat.len() - k,
    {
        if s[i + k] != pat[k] {
            assert(s@.subrange(i as int, i + pat.len())[k as int] != pat@[k as int]);
            return false;
        }
        k = k + 1;
    }
    assert(s@.subrange(i as int, i + pat.len()) =~= pat@);
    true
}

/// The first index at or after `from` where `pat` occurs in `s`.
pub fn find_from(s: &Vec<char>, pat: &Vec<char>, from: usize) -> (r: Option<usize>)
    requires
        from <= s.len(),
    ensures
        match r {
            Some(i) => from <= i && occurs_at(s@, pat@, i as int) && forall|j: int|
                from <= j < i ==> !occurs_at(s@, pat@, j),
            None => forall|j: int| from <= j ==> !occurs_at(s@, pat@, j),
        },
{
    if pat.len() > s.len() {
        return None;
    }
    let last = s.len() - pat.len();
    if from > last {
        return None;
    }
    let mut i = from;
    loop
        invariant
            from <= i <= last,
            last + pat.len() == s.len(),
            forall|j: int| from <= j < i ==> !occurs_at(s@, pat@, j),
        decreases last - i,
    {
        if occurs_at_exec(s, pat, i) {
            return Some(i);
        }
        if i == last {
            return None;
        }
        i = i + 1;
    }
}

/// `str::find`.
pub fn find_exec(s: &Vec<char>, pat: &Vec<char>) -> (r: Option<usize>)
    ensures
        match r {
            Some(i) => find(s@, pat@) == Some(i as int) && occurs_at(s@, pat@, i as int),
            None => find(s@, pat@) is None,
        },
{
    reveal(find);
    match find_from(s, pat, 0) {
        Some(i) => {
            assert(occurs_at(s@, pat@, i as int) && forall|j: int|
                0 <= j < i ==> !occurs_at(s@, pat@, j));
            let ghost c = choose|k: int|
                occurs_at(s@, pat@, k) && forall|j: int| 0 <= j < k ==> !occurs_at(s@, pat@, j);
            assert(c == i as int) by {
                if c < i {
                } else if c > i {
                    assert(!occurs_at(s@, pat@, i as int));
                }
            }
            Some(i)
        },
        None => None,
    }
}

/// `str::split_once`.
pub fn split_once_exec(s: &Vec<char>, pat: &Vec<char>) -> (r: Option<(Vec<char>, Vec<char>)>)
    ensures
        match r {
            Some((a, b)) => split_once(s@, pat@) == Some((a@, b@)),
            None => split_once(s@, pat@) is None,
        },
{
    match find_exec(s, pat) {
        Some(i) => {
            let plen = pat.len();
            let slen = s.len();
            assert(i + plen <= slen);
            let a = slice_of(s, 0, i);
            let b = slice_of(s, i + plen, slen);
            assert(a@ == s@.take(i as int));
            assert(b@ == s@.skip(i + pat.len()));
            Some((a, b))
        },
        None => None,
    }
}

/// Whether `s` starts with `pat`.
pub fn starts_with(s: &Vec<char>, pat: &Vec<char>) -> (r: bool)
    ensures
        r == (pat@.len() <= s@.len() && s@.take(pat@.len() as int) == pat@),
{
    let r = occurs_at_exec(s, pat, 0);
    assert(s@.subrange(0, pat@.len() as int) == s@.take(pat@.len() as int));
    r
}

/// `str::split` with a separator that is not empty: the pieces of `s` between the
/// occurrences of `sep`, found left to right.
pub open spec fn split_all(s: Seq<char>, sep: Seq<char>) -> Seq<Seq<char>>
    decreases s.len(),
{
    if sep.len() == 0 || s.len() == 0 {
        seq![s]
    } else if occurs_at(s, sep, 0) {
        seq![Seq::<char>::empty()] + split_all(s.skip(sep.len() as int), sep)
    } else {
        let rest = split_all(s.drop_first(), sep);
        rest.update(0, seq![s[0]] + rest[0])
    }
}

proof fn lemma_split_all_nonempty(s: Seq<char>, sep: Seq<char>)
    ensures
        split_all(s, sep).len() > 0,
    decreases s.len(),
{
    if sep.len() > 0 && s.len() > 0 {
        if occurs_at(s, sep, 0) {
            lemma_split_all_nonempty(s.skip(sep.len() as int), sep);
        } else {
            lemma_split_all_nonempty(s.drop_first(), sep);
        }
    }
}

/// The pieces of `s` between the occurrences of `sep`.
pub fn split_all_exec(s: &Vec<char>, sep: &Vec<char>) -> (r: Vec<Vec<char>>)
    requires
        sep.len() > 0,
    ensures
        r@.map_values(|v: Vec<char>| v@) == split_all(s@, sep@),
{
    let mut done: Vec<Vec<char>> = Vec::new();
    let mut cur: Vec<char> = Vec::new();
    let mut i: usize = 0;
    proof {
        lemma_split_all_nonempty(s@, sep@);
    }
    assert(s@.skip(0) =~= s@);
    assert(split_all(s@, sep@) =~= split_all(s@, sep@).update(0, cur@ + split_all(s@, sep@)[0]));
    while i < s.len()
        invariant
            sep.len() > 0,
            i <= s.len(),
            split_all(s@.skip(i as int), sep@).len() > 0,
            split_all(s@, sep@) == done@.map_values(|v: Vec<char>| v@) + split_all(
                s@.skip(i as int),
                sep@,
            ).update(0, cur@ + split_all(s@.skip(i as int), sep@)[0]),
        decreases s.len() - i,
    {
        let ghost t = s@.skip(i as int);
        if occurs_at_exec(s, sep, i) {
            assert(t.subrange(0, sep@.len() as int) =~= s@.subrange(i as int, i + sep@.len()));
            assert(occurs_at(t, sep@, 0));
            let ghost u = s@.skip(i + sep.len());
            assert(t.skip(sep@.len() as int) =~= u);
            proof {
                lemma_split_all_nonempty(u, sep@);
            }
            let ghost before = done@.map_values(|v: Vec<char>| v@);
            done.push(cur);
            cur = Vec::new();
            assert(done@.map_values(|v: Vec<char>| v@) =~= before.push(
                done@[done@.len() - 1]@,
            ));
            assert(split_all(u, sep@).update(0, cur@ + split_all(u, sep@)[0]) =~= split_all(u, sep@));
            assert(split_all(t, sep@) == seq![Seq::<char>::empty()] + split_all(u, sep@));
            assert(before + split_all(t, sep@).update(0, done@[done@.len() - 1]@ + split_all(t, sep@)[0])
                =~= before.push(done@[done@.len() - 1]@) + split_all(u, sep@));
            i = i + sep.len();
        } else {
            proof {
                if t.len() >= sep@.len() {
                    assert(t.subrange(0, sep@.len() as int) =~= s@.subrange(i as int, i + sep@.len()));
                }
            }
            assert(!occurs_at(t, sep@, 0));
            let ghost u = s@.skip(i + 1);
            assert(t.drop_first() =~= u);
            assert(t[0] == s@[i as int]);
            proof {
                lemma_split_all_nonempty(u, sep@);
            }
            let ghost old_cur = cur@;
            cur.push(s[i]);
            let ghost l = split_all(u, sep@);
            assert(split_all(t, sep@) == l.update(0, seq![s@[i as int]] + l[0]));
            assert(cur@ == old_cur.push(s@[i as int]));
            assert(split_all(t, sep@)[0] == seq![s@[i as int]] + l[0]);
            assert(old_cur + (seq![s@[i as int]] + l[0]) =~= cur@ + l[0]);
            assert(split_all(t, sep@).update(0, old_cur + split_all(t, sep@)[0]) =~= l.update(
                0,
                cur@ + l[0],
            ));
            i = i + 1;
        }
    }
    let ghost e = s@.skip(i as int);
    assert(e =~= Seq::<char>::empty());
    let ghost before = done@.map_values(|v: Vec<char>| v@);
    assert(split_all(e, sep@) == seq![e]);
    done.push(cur);
    assert(done@.map_values(|v: Vec<char>| v@) =~= before + split_all(e, sep@).update(
        0,
        done@[done@.len() - 1]@ + split_all(e, sep@)[0],
    ));
    done
}

/// `str::replace` with a pattern that is not empty.
pub open spec fn replace(s: Seq<char>, pat: Seq<char>, rep: Seq<char>) -> Seq<char>
    decreases s.len(),
{
    if pat.len() == 0 || s.len() < pat.len() {
        s
    } else if s.take(pat.len() as int) == pat {
        rep + replace(s.skip(pat.len() as int), pat, rep)
    } else {
        seq![s[0]] + replace(s.drop_first(), pat, rep)
    }
}

/// Every occurrence of `pat` in `s`, left to right, replaced by `rep`.
pub fn replace_exec(s: &Vec<char>, pat: &Vec<char>, rep: &Vec<char>) -> (r: Vec<char>)
    requires
        pat.len() > 0,
    ensures
        r@ == replace(s@, pat@, rep@),
{
    let mut out: Vec<char> = Vec::new();
    let mut i: usize = 0;
    assert(s@.skip(0) == s@);
    while i < s.len()
        invariant
            pat.len() > 0,
            i <= s.len(),
            replace(s@, pat@, rep@) == out@ + replace(s@.skip(i as int), pat@, rep@),
        decreases s.len() - i,
    {
        let ghost rest = s@.skip(i as int);
        if occurs_at_exec(s, pat, i) {
            assert(rest.take(pat.len() as int) == s@.subrange(i as int, i + pat.len()));
            assert(rest.skip(pat.len() as int) == s@.skip(i + pat.len()));
            append(&mut out, rep);
            i = i + pat.len();
        } else {
            proof {
                if rest.len() >= pat@.len() {
                    assert(rest.take(pat.len() as int) == s@.subrange(i as int, i + pat.len()));
                }
            }
            assert(rest.drop_first() == s@.skip(i + 1));
            assert(rest[0] == s@[i as int]);
            let ghost before = out@;
            out.push(s[i]);
            assert(out@ + replace(s@.skip(i + 1), pat@, rep@) =~= before + (seq![s@[i as int]]
                + replace(s@.skip(i + 1), pat@, rep@)));
            i = i + 1;
        }
    }
    assert(s@.skip(s.len() as int) =~= Seq::<char>::empty());
    assert(out@ + Seq::<char>::empty() =~= out@);
    out
}


// ---------------------------------------------------------------------------------
// Numbers
// ---------------------------------------------------------------------------------

/// The digit character for `d`, `0` to `9` then `A` to `F`.
pub open spec fn digit_char(d: int) -> char {
    if d < 10 {
        (48 + d) as char
    } else {
        (55 + d) as char
    }
}

/// The value of a digit character in base 16 (either letter case), if it is one.
pub open spec fn hex_value(c: char) -> Option<int> {
    if '0' <= c && c <= '9' {
        Some(c as int - 48)
    } else if 'a' <= c && c <= 'f' {
        Some(c as int - 87)
    } else if 'A' <= c && c <= 'F' {
        Some(c as int - 55)
    } else {
        None
    }
}

/// `n` written in base `base` (10 or 16), most significant digit first, capitals for
/// the letters, no leading zeros.
pub open spec fn digits(n: nat, base: nat) -> Seq<char>
    decreases n,
{
    if base < 2 || n < base {
        seq![digit_char(n as int)]
    } else {
        proof {
            assert(n / base < n) by (nonlinear_arith)
                requires
                    base >= 2,
                    n >= base,
            ;
        }
        digits(n / base, base).push(digit_char((n % base) as int))
    }
}

/// `n` in decimal, as `Display` writes it.
pub open spec fn dec(n: int) -> Seq<char> {
    if n < 0 {
        seq!['-'] + digits((-n) as nat, 10)
    } else {
        digits(n as nat, 10)
    }
}

/// A decimal numeral is a non-empty run of the digits `0` to `9` and reads back as the
/// number it spells.
pub proof fn lemma_decimal_digits(n: nat)
    ensures
        digits(n, 10).len() > 0,
        forall|i: int| 0 <= i < digits(n, 10).len() ==> '0' <= #[trigger] digits(n, 10)[i] <= '9',
        digits_value(digits(n, 10), 10) == Some(n),
    decreases n,
{
    if n < 10 {
        let c = digit_char(n as int);
        assert(c as int == 48 + n);
        assert(hex_value(c) == Some(n as int));
        assert(seq![c].drop_last() =~= Seq::<char>::empty());
        assert(seq![c].last() == c);
        assert(digits_value(Seq::<char>::empty(), 10) == Some(0nat));
        assert(digits(n, 10) == seq![c]);
    } else {
        lemma_decimal_digits(n / 10);
        let d = digits(n / 10, 10);
        let k = n % 10;
        let c = digit_char(k as int);
        assert(c as int == 48 + k);
        assert(hex_value(c) == Some(k as int));
        assert(digits(n, 10) == d.push(c));
        assert(d.push(c).drop_last() =~= d);
        assert(n == (n / 10) * 10 + n % 10) by (nonlinear_arith);
        assert(digits_value(d.push(c), 10) == Some((n / 10) * 10 + k));
        assert forall|i: int| 0 <= i < d.push(c).len() implies '0' <= #[trigger] d.push(c)[i] <= '9' by {
            if i < d.len() {
                assert(d.push(c)[i] == d[i]);
            }
        }
    }
}

/// `n` in capital hexadecimal padded with zeros to at least `width` digits, as
/// `{:0width$X}` writes it.
pub open spec fn hex_padded(n: nat, width: nat) -> Seq<char> {
    let h = digits(n, 16);
    if h.len() < width {
        Seq::new((width - h.len()) as nat, |i: int| '0') + h
    } else {
        h
    }
}

fn digit_exec(d: u64) -> (c: char)
    requires
        d < 16,
    ensures
        c == digit_char(d as int),
{
    if d < 10 {
        let b: u8 = (48 + d) as u8;
        b as char
    } else {
        let b: u8 = (55 + d) as u8;
        b as char
    }
}

/// `n` in base `base`, as [`digits`] spells it.
pub fn digits_exec(n: u64, base: u64) -> (r: Vec<char>)
    requires
        base == 10 || base == 16,
    ensures
        r@ == digits(n as nat, base as nat),
    decreases n,
{
    if n < base {
        let mut v: Vec<char> = Vec::new();
        v.push(digit_exec(n));
        assert(v@ =~= seq![digit_char(n as int)]);
        v
    } else {
        let mut v = digits_exec(n / base, base);
        v.push(digit_exec(n % base));
        v
    }
}

/// Appends `n` in decimal.
pub fn push_dec(out: &mut Vec<char>, n: u64)
    ensures
        final(out)@ == old(out)@ + dec(n as int),
{
    let d = digits_exec(n, 10);
    append(out, &d);
}

/// Appends `n` in decimal, with a minus sign when negative.
pub fn push_dec_i64(out: &mut Vec<char>, n: i64)
    ensures
        final(out)@ == old(out)@ + dec(n as int),
{
    if n < 0 {
        let ghost before = out@;
        out.push('-');
        let m: u64 = if n == i64::MIN {
            9223372036854775808u64
        } else {
            (-n) as u64
        };
        let d = digits_exec(m, 10);
        append(out, &d);
        assert(out@ =~= before + (seq!['-'] + digits((-n) as nat, 10)));
    } else {
        push_dec(out, n as u64);
    }
}

/// Appends `n` in capital hexadecimal with at least `width` digits.
pub fn push_hex_padded(out: &mut Vec<char>, n: u64, width: usize)
    ensures
        final(out)@ == old(out)@ + hex_padded(n as nat, width as nat),
{
    let h = digits_exec(n, 16);
    let ghost before = out@;
    if h.len() < width {
        let pad = width - h.len();
        let mut k: usize = 0;
        while k < pad
            invariant
                k <= pad,
                out@ == before + Seq::new(k as nat, |i: int| '0'),
            decreases pad - k,
        {
            out.push('0');
            assert(Seq::new((k + 1) as nat, |i: int| '0') =~= Seq::new(k as nat, |i: int| '0').push(
                '0',
            ));
            k = k + 1;
        }
        append(out, &h);
        assert(out@ =~= before + (Seq::new(pad as nat, |i: int| '0') + h@));
    } else {
        append(out, &h);
    }
}

/// The value of a run of base-`base` digits, most significant first; `None` when a
/// character is not a digit of that base.
pub open spec fn digits_value(s: Seq<char>, base: nat) -> Option<nat>
    decreases s.len(),
{
    if s.len() == 0 {
        Some(0)
    } else {
        match (digits_value(s.drop_last(), base), hex_value(s.last())) {
            (Some(v), Some(d)) => if d < base {
                Some(v * base + d as nat)
            } else {
                None
            },
            _ => None,
        }
    }
}

/// `u32::from_str_radix(s, base)` for base 10 or 16: an optional `+`, then at least one
/// digit, and a value that fits in 32 bits.
pub open spec fn parse_u32(s: Seq<char>, base: nat) -> Option<u32> {
    let body = if s.len() > 0 && s[0] == '+' {
        s.drop_first()
    } else {
        s
    };
    if body.len() == 0 {
        None
    } else {
        fitting_u32(digits_value(body, base))
    }
}

/// A value that fits in 32 bits, else nothing.
pub open spec fn fitting_u32(v: Option<nat>) -> Option<u32> {
    match v {
        Some(v) => if v <= u32::MAX {
            Some(v as u32)
        } else {
            None
        },
        None => None,
    }
}

fn hex_value_exec(c: char) -> (r: Option<u64>)
    ensures
        match r {
            Some(d) => hex_value(c) == Some(d as int) && d < 16,
            None => hex_value(c) is None,
        },
{
    if '0' <= c && c <= '9' {
        Some((c as u32 - 48) as u64)
    } else if 'a' <= c && c <= 'f' {
        Some((c as u32 - 87) as u64)
    } else if 'A' <= c && c <= 'F' {
        Some((c as u32 - 55) as u64)
    } else {
        None
    }
}

/// [`parse_u32`] of `v`.
pub fn parse_u32_exec(v: &Vec<char>, base: u64) -> (r: Option<u32>)
    requires
        base == 10 || base == 16,
    ensures
        r == parse_u32(v@, base as nat),
{
    let mut start: usize = 0;
    if v.len() > 0 && v[0] == '+' {
        start = 1;
    }
    let ghost body = if v@.len() > 0 && v@[0] == '+' {
        v@.drop_first()
    } else {
        v@
    };
    assert(body == v@.skip(start as int));
    if start >= v.len() {
        return None;
    }
    let mut acc: u64 = 0;
    let mut overflow = false;
    let mut i = start;
    assert(v@.subrange(start as int, start as int) =~= Seq::<char>::empty());
    while i < v.len()
        invariant
            base == 10 || base == 16,
            start < v.len(),
            start <= i <= v.len(),
            parse_u32(v@, base as nat) == fitting_u32(digits_value(v@.skip(start as int), base as nat)),
            digits_value(v@.subrange(start as int, i as int), base as nat) is Some,
            !overflow ==> acc == digits_value(v@.subrange(start as int, i as int), base as nat)->0
                && acc <= u32::MAX,
            overflow ==> digits_value(v@.subrange(start as int, i as int), base as nat)->0
                > u32::MAX,
        decreases v.len() - i,
    {
        let ghost prefix = v@.subrange(start as int, i as int);
        let ghost next = v@.subrange(start as int, i + 1);
        assert(next.drop_last() == prefix);
        assert(next.last() == v@[i as int]);
        match hex_value_exec(v[i]) {
            Some(d) => {
                if d >= base {
                    proof {
                        let tail = v@.skip(start as int);
                        assert(tail.take(i - start + 1) == next);
                        lemma_digits_value_prefix_none(tail, (i - start) as int, base as nat);
                    }
                    return None;
                }
                if !overflow {
                    let n = acc * base + d;
                    if n > 4294967295 {
                        overflow = true;
                    } else {
                        acc = n;
                    }
                } else {
                    let ghost pv = digits_value(prefix, base as nat)->0;
                    assert(pv * (base as nat) + d >= pv) by (nonlinear_arith)
                        requires
                            base >= 2,
                    ;
                }
            },
            None => {
                proof {
                    let tail = v@.skip(start as int);
                    assert(tail.take(i - start + 1) == next);
                    lemma_digits_value_prefix_none(tail, (i - start) as int, base as nat);
                }
                return None;
            },
        }
        i = i + 1;
    }
    assert(v@.subrange(start as int, v.len() as int) == body);
    if overflow {
        None
    } else {
        Some(acc as u32)
    }
}

/// A run of characters whose prefix holds a non-digit holds one as a whole.
proof fn lemma_digits_value_prefix_none(s: Seq<char>, k: int, base: nat)
    requires
        0 <= k < s.len(),
        digits_value(s.take(k + 1), base) is None,
    ensures
        digits_value(s, base) is None,
    decreases s.len() - k,
{
    if k + 1 == s.len() {
        assert(s.take(k + 1) == s);
    } else {
        assert(s.take(k + 2).drop_last() == s.take(k + 1));
        lemma_digits_value_prefix_none(s, k + 1, base);
    }
}


// ---------------------------------------------------------------------------------
// Ordering
// ---------------------------------------------------------------------------------

/// `a < b` for strings: character by character by code point, a proper prefix first.
/// UTF-8 keeps code-point order, so this is also the byte order `str` compares by.
pub open spec fn seq_lt(a: Seq<char>, b: Seq<char>) -> bool
    decreases a.len(),
{
    if a.len() == 0 {
        b.len() > 0
    } else if b.len() == 0 {
        false
    } else if a[0] != b[0] {
        a[0] < b[0]
    } else {
        seq_lt(a.drop_first(), b.drop_first())
    }
}

pub proof fn lemma_seq_lt_irreflexive(a: Seq<char>)
    ensures
        !seq_lt(a, a),
    decreases a.len(),
{
    if a.len() > 0 {
        lemma_seq_lt_irreflexive(a.drop_first());
    }
}

pub proof fn lemma_seq_lt_transitive(a: Seq<char>, b: Seq<char>, c: Seq<char>)
    requires
        seq_lt(a, b),
        seq_lt(b, c),
    ensures
        seq_lt(a, c),
    decreases a.len(),
{
    if a.len() > 0 && b.len() > 0 && c.len() > 0 && a[0] == b[0] && b[0] == c[0] {
        lemma_seq_lt_transitive(a.drop_first(), b.drop_first(), c.drop_first());
    }
}

pub proof fn lemma_seq_lt_total(a: Seq<char>, b: Seq<char>)
    ensures
        seq_lt(a, b) || seq_lt(b, a) || a == b,
    decreases a.len(),
{
    if a.len() == 0 && b.len() == 0 {
        assert(a =~= b);
    } else if a.len() > 0 && b.len() > 0 && a[0] == b[0] {
        lemma_seq_lt_total(a.drop_first(), b.drop_first());
        if a.drop_first() == b.drop_first() {
            assert(a =~= seq![a[0]] + a.drop_first());
            assert(b =~= seq![b[0]] + b.drop_first());
        }
    }
}

/// `seq_lt(a, b)`.
pub fn seq_lt_exec(a: &Vec<char>, b: &Vec<char>) -> (r: bool)
    ensures
        r == seq_lt(a@, b@),
{
    let mut i: usize = 0;
    assert(a@.skip(0) == a@);
    assert(b@.skip(0) == b@);
    while i < a.len() && i < b.len() && a[i] == b[i]
        invariant
            i <= a.len(),
            i <= b.len(),
            seq_lt(a@, b@) == seq_lt(a@.skip(i as int), b@.skip(i as int)),
        decreases a.len() - i,
    {
        assert(a@.skip(i as int).drop_first() == a@.skip(i + 1));
        assert(b@.skip(i as int).drop_first() == b@.skip(i + 1));
        i = i + 1;
    }
    if i == a.len() {
        i < b.len()
    } else if i == b.len() {
        false
    } else {
        a[i] < b[i]
    }
}

} // verus!
