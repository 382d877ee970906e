//! Placeholders and what filling them keeps: a template's placeholder is replaced by
//! its value, and a piece of text with no two opening braces in a row, bounded by
//! characters no placeholder holds, comes through every fill unchanged.

use vstd::prelude::*;
use crate::script::render::fill;
use crate::text::{occurs_at, replace};

verus! {

/// A character of a placeholder's name: a capital letter or an underscore.
pub open spec fn slot_name_char(c: char) -> bool {
    ('A' <= c && c <= 'Z') || c == '_'
}

/// A placeholder: two opening braces, a name of capitals and underscores, two closing
/// braces.
pub open spec fn is_slot(q: Seq<char>) -> bool {
    &&& q.len() >= 5
    &&& q[0] == '{'
    &&& q[1] == '{'
    &&& q[q.len() - 2] == '}'
    &&& q[q.len() - 1] == '}'
    &&& forall|k: int| 2 <= k < q.len() - 2 ==> slot_name_char(#[trigger] q[k])
}

/// A character no placeholder holds.
pub open spec fn outside_slots(c: char) -> bool {
    c != '{' && c != '}' && !slot_name_char(c)
}

/// No two opening braces in a row, so no placeholder starts anywhere in `s`.
pub open spec fn brace_free(s: Seq<char>) -> bool {
    forall|i: int| 0 <= i && i + 1 < s.len() ==> !(#[trigger] s[i] == '{' && s[i + 1] == '{')
}

/// `piece` stands somewhere in `text`, whole.
pub open spec fn holds(text: Seq<char>, piece: Seq<char>) -> bool {
    exists|a: Seq<char>, b: Seq<char>| text == a + piece + b
}

/// No opening brace at all.
pub open spec fn no_open_brace(s: Seq<char>) -> bool {
    forall|i: int| 0 <= i < s.len() ==> #[trigger] s[i] != '{'
}

/// Every fill puts a value in place of a placeholder.
pub open spec fn all_slots(fills: Seq<(Seq<char>, Seq<char>)>) -> bool {
    forall|k: int| 0 <= k < fills.len() ==> is_slot(#[trigger] fills[k].0)
}

proof fn lemma_occurs_char(s: Seq<char>, q: Seq<char>, i: int, k: int)
    requires
        occurs_at(s, q, i),
        0 <= k < q.len(),
    ensures
        s[i + k] == q[k],
{
    assert(s.subrange(i, i + q.len())[k] == s[i + k]);
}

proof fn lemma_slot_chars(q: Seq<char>, k: int)
    requires
        is_slot(q),
        0 <= k < q.len(),
    ensures
        !outside_slots(q[k]),
{
    if 2 <= k < q.len() - 2 {
        assert(slot_name_char(q[k]));
    }
}

/// Without an occurrence of `q`, replacing it changes nothing.
proof fn lemma_replace_none(s: Seq<char>, q: Seq<char>, r: Seq<char>)
    requires
        q.len() > 0,
        forall|i: int| !occurs_at(s, q, i),
    ensures
        replace(s, q, r) == s,
    decreases s.len(),
{
    if s.len() >= q.len() {
        if s.take(q.len() as int) == q {
            assert(s.subrange(0, q.len() as int) =~= s.take(q.len() as int));
            assert(occurs_at(s, q, 0));
        }
        let t = s.drop_first();
        assert forall|i: int| !occurs_at(t, q, i) by {
            if occurs_at(t, q, i) {
                assert(s.subrange(i + 1, i + 1 + q.len()) =~= t.subrange(i, i + q.len()));
                assert(occurs_at(s, q, i + 1));
            }
        }
        lemma_replace_none(t, q, r);
        assert(seq![s[0]] + t =~= s);
    }
}

/// Replacing in `a + b` replaces in each when no occurrence crosses from `a` into `b`.
proof fn lemma_replace_split(a: Seq<char>, b: Seq<char>, q: Seq<char>, r: Seq<char>)
    requires
        q.len() > 0,
        forall|i: int| i < a.len() < i + q.len() ==> !occurs_at(a + b, q, i),
    ensures
        replace(a + b, q, r) == replace(a, q, r) + replace(b, q, r),
    decreases a.len(),
{
    let s = a + b;
    let p = q.len() as int;
    if a.len() == 0 {
        assert(s =~= b);
        assert(replace(a, q, r) =~= Seq::<char>::empty());
    } else if s.len() < p {
        assert(replace(a, q, r) == a);
        assert(replace(b, q, r) == b);
    } else if s.take(p) == q {
        if a.len() < p {
            assert(s.subrange(0, p) =~= s.take(p));
            assert(occurs_at(s, q, 0));
        } else {
            assert(a.take(p) =~= s.take(p));
            let a2 = a.skip(p);
            assert(s.skip(p) =~= a2 + b);
            assert forall|i: int| i < a2.len() < i + q.len() implies !occurs_at(a2 + b, q, i) by {
                if occurs_at(a2 + b, q, i) {
                    assert(s.subrange(i + p, i + p + q.len()) =~= (a2 + b).subrange(i, i + q.len()));
                    assert(occurs_at(s, q, i + p));
                }
            }
            lemma_replace_split(a2, b, q, r);
            assert(r + (replace(a2, q, r) + replace(b, q, r)) =~= (r + replace(a2, q, r)) + replace(b, q, r));
        }
    } else {
        let a2 = a.drop_first();
        assert(s.drop_first() =~= a2 + b);
        assert forall|i: int| i < a2.len() < i + q.len() implies !occurs_at(a2 + b, q, i) by {
            if occurs_at(a2 + b, q, i) {
                assert(s.subrange(i + 1, i + 1 + q.len()) =~= (a2 + b).subrange(i, i + q.len()));
                assert(occurs_at(s, q, i + 1));
            }
        }
        lemma_replace_split(a2, b, q, r);
        assert(s[0] == a[0]);
        if a.len() < p {
            assert(replace(a, q, r) == a);
            assert(replace(a2, q, r) == a2);
            assert(seq![a[0]] + a2 =~= a);
        } else {
            assert(a.take(p) =~= s.take(p));
        }
        assert(seq![a[0]] + (replace(a2, q, r) + replace(b, q, r)) =~= (seq![a[0]] + replace(a2, q, r))
            + replace(b, q, r));
    }
}

/// A placeholder occurs only where two opening braces start.
proof fn lemma_slot_needs_braces(s: Seq<char>, q: Seq<char>, i: int)
    requires
        is_slot(q),
        occurs_at(s, q, i),
    ensures
        s[i] == '{' && s[i + 1] == '{',
{
    lemma_occurs_char(s, q, i, 0);
    lemma_occurs_char(s, q, i, 1);
}

/// Text with no two opening braces in a row holds no placeholder.
proof fn lemma_brace_free_no_slot(s: Seq<char>, q: Seq<char>)
    requires
        is_slot(q),
        brace_free(s),
    ensures
        forall|i: int| !occurs_at(s, q, i),
{
    assert forall|i: int| !occurs_at(s, q, i) by {
        if occurs_at(s, q, i) {
            lemma_slot_needs_braces(s, q, i);
            assert(!(s[i] == '{' && s[i + 1] == '{'));
        }
    }
}

/// A piece bounded by characters no placeholder holds splits any replace of a
/// placeholder around it.
proof fn lemma_replace_around(x: Seq<char>, y: Seq<char>, z: Seq<char>, q: Seq<char>, r: Seq<char>)
    requires
        is_slot(q),
        y.len() > 0,
        outside_slots(y[0]),
        outside_slots(y.last()),
    ensures
        replace(x + y + z, q, r) == replace(x, q, r) + replace(y, q, r) + replace(z, q, r),
{
    let s = x + (y + z);
    assert(x + y + z =~= s);
    assert forall|i: int| i < x.len() < i + q.len() implies !occurs_at(s, q, i) by {
        if occurs_at(s, q, i) {
            let k = x.len() - i;
            lemma_occurs_char(s, q, i, k);
            assert(s[i + k] == y[0]);
            lemma_slot_chars(q, k);
        }
    }
    lemma_replace_split(x, y + z, q, r);
    assert forall|i: int| i < y.len() < i + q.len() implies !occurs_at(y + z, q, i) by {
        if occurs_at(y + z, q, i) {
            if i >= 0 {
                let k = y.len() - 1 - i;
                lemma_occurs_char(y + z, q, i, k);
                assert((y + z)[i + k] == y.last());
                lemma_slot_chars(q, k);
            }
        }
    }
    lemma_replace_split(y, z, q, r);
    assert(replace(x, q, r) + (replace(y, q, r) + replace(z, q, r)) =~= replace(x, q, r) + replace(
        y,
        q,
        r,
    ) + replace(z, q, r));
}

/// A line's placeholder `p` between a head and a tail without opening braces: replacing
/// `p` puts the value in its place, and replacing any other placeholder leaves the line.
proof fn lemma_replace_in_line(h: Seq<char>, p: Seq<char>, t: Seq<char>, q: Seq<char>, r: Seq<char>)
    requires
        is_slot(q),
        is_slot(p),
        no_open_brace(h),
        no_open_brace(t),
        t.len() > 0,
        t[0] != '}',
    ensures
        replace(h + p + t, q, r) == (if q == p {
            h + r + t
        } else {
            h + p + t
        }),
{
    let y = h + p + t;
    let n = h.len();
    assert forall|i: int| #![auto] occurs_at(y, q, i) implies i == n && q == p by {
        lemma_slot_needs_braces(y, q, i);
        if i < n {
            assert(y[i] == h[i]);
        } else if i >= n + p.len() {
            assert(y[i] == t[i - n - p.len()]);
        } else if i > n {
            if i == n + 1 {
                assert(y[i + 1] == p[2]);
                assert(slot_name_char(p[2]));
            } else if i < n + p.len() - 2 {
                assert(y[i] == p[i - n]);
                assert(slot_name_char(p[i - n]));
            } else {
                assert(y[i] == p[i - n]);
            }
        } else {
            let lq = q.len() as int;
            let lp = p.len() as int;
            assert forall|k: int| 0 <= k < lq && k < lp implies q[k] == p[k] by {
                lemma_occurs_char(y, q, i, k);
                assert(y[n + k] == p[k]);
            }
            if lq < lp {
                lemma_occurs_char(y, q, i, lq - 2);
                assert(y[n + lq - 2] == p[lq - 2]);
                assert(slot_name_char(p[lq - 2]));
            } else if lq > lp {
                lemma_occurs_char(y, q, i, lp - 1);
                if lp - 1 < lq - 2 {
                    assert(slot_name_char(q[lp - 1]));
                } else {
                    lemma_occurs_char(y, q, i, lq - 1);
                    assert(y[n + lp] == t[0]);
                }
            } else {
                assert(q =~= p);
            }
        }
    }
    if q == p {
        let pt = p + t;
        assert(y =~= h + pt);
        assert forall|i: int| i < h.len() < i + q.len() implies !occurs_at(h + pt, q, i) by {
            if occurs_at(h + pt, q, i) {
                assert(i == n);
            }
        }
        lemma_replace_split(h, pt, q, r);
        assert forall|i: int| !occurs_at(h, q, i) by {
            if occurs_at(h, q, i) {
                lemma_slot_needs_braces(h, q, i);
            }
        }
        lemma_replace_none(h, q, r);
        assert forall|i: int| i < p.len() < i + q.len() implies !occurs_at(p + t, q, i) by {
            if occurs_at(p + t, q, i) {
                assert(y.subrange(i + n, i + n + q.len()) =~= pt.subrange(i, i + q.len()));
                assert(occurs_at(y, q, i + n));
            }
        }
        lemma_replace_split(p, t, q, r);
        assert(p.take(p.len() as int) =~= p);
        assert(p.skip(p.len() as int) =~= Seq::<char>::empty());
        assert(replace(Seq::<char>::empty(), q, r) == Seq::<char>::empty());
        assert(p.take(q.len() as int) == q);
        assert(replace(p, q, r) == r + replace(p.skip(q.len() as int), q, r));
        assert(replace(p, q, r) =~= r);
        assert forall|i: int| !occurs_at(t, q, i) by {
            if occurs_at(t, q, i) {
                lemma_slot_needs_braces(t, q, i);
            }
        }
        lemma_replace_none(t, q, r);
        assert(h + (r + t) =~= h + r + t);
        assert(h + (p + t) =~= h + p + t);
    } else {
        lemma_replace_none(y, q, r);
    }
}

/// A piece of text with no two opening braces in a row, bounded by characters no
/// placeholder holds, comes through every fill of placeholders unchanged: the result is
/// the returned text, the piece, then the returned rest.
pub proof fn lemma_fill_keeps(
    x: Seq<char>,
    y: Seq<char>,
    z: Seq<char>,
    fills: Seq<(Seq<char>, Seq<char>)>,
) -> (parts: (Seq<char>, Seq<char>))
    requires
        all_slots(fills),
        brace_free(y),
        y.len() > 0,
        outside_slots(y[0]),
        outside_slots(y.last()),
    ensures
        fill(x + y + z, fills) == parts.0 + y + parts.1,
    decreases fills.len(),
{
    if fills.len() == 0 {
        (x, z)
    } else {
        let (q, r) = fills[0];
        assert(is_slot(fills[0].0));
        lemma_replace_around(x, y, z, q, r);
        lemma_brace_free_no_slot(y, q);
        lemma_replace_none(y, q, r);
        let rest = fills.drop_first();
        assert forall|k: int| 0 <= k < rest.len() implies is_slot(#[trigger] rest[k].0) by {
            assert(rest[k] == fills[k + 1]);
        }
        lemma_fill_keeps(replace(x, q, r), y, replace(z, q, r), rest)
    }
}

/// A line of the template made of a head, the placeholder `p` and a tail, neither with
/// an opening brace: after every fill the line holds the value of `p`'s fill, when that
/// value has no two opening braces in a row and `p` is filled once.
pub proof fn lemma_fill_line(
    x: Seq<char>,
    h: Seq<char>,
    p: Seq<char>,
    t: Seq<char>,
    z: Seq<char>,
    fills: Seq<(Seq<char>, Seq<char>)>,
    j: int,
) -> (parts: (Seq<char>, Seq<char>))
    requires
        all_slots(fills),
        0 <= j < fills.len(),
        fills[j].0 == p,
        forall|k: int| 0 <= k < j ==> (#[trigger] fills[k]).0 != p,
        brace_free(fills[j].1),
        no_open_brace(h),
        no_open_brace(t),
        h.len() > 0,
        t.len() > 0,
        outside_slots(h[0]),
        outside_slots(t.last()),
        t[0] != '}',
    ensures
        fill(x + (h + p + t) + z, fills) == parts.0 + (h + fills[j].1 + t) + parts.1,
    decreases j,
{
    let (q, r) = fills[0];
    assert(is_slot(fills[0].0));
    assert(is_slot(fills[j].0));
    let y = h + p + t;
    assert(y[0] == h[0]);
    assert(y.last() == t.last());
    lemma_replace_around(x, y, z, q, r);
    lemma_replace_in_line(h, p, t, q, r);
    let rest = fills.drop_first();
    assert forall|k: int| 0 <= k < rest.len() implies is_slot(#[trigger] rest[k].0) by {
        assert(rest[k] == fills[k + 1]);
    }
    if j == 0 {
        let v = fills[0].1;
        let y2 = h + v + t;
        assert(brace_free(y2)) by {
            assert forall|i: int| 0 <= i && i + 1 < y2.len() implies !(#[trigger] y2[i] == '{' && y2[i + 1]
                == '{') by {
                if i < h.len() {
                    assert(y2[i] == h[i]);
                } else if i < h.len() + v.len() {
                    if i + 1 < h.len() + v.len() {
                        assert(y2[i] == v[i - h.len()] && y2[i + 1] == v[i + 1 - h.len()]);
                    } else {
                        assert(y2[i + 1] == t[0]);
                    }
                } else {
                    assert(y2[i] == t[i - h.len() - v.len()]);
                }
            }
        }
        assert(y2[0] == h[0]);
        assert(y2.last() == t.last());
        lemma_fill_keeps(replace(x, q, r), y2, replace(z, q, r), rest)
    } else {
        assert(fills[0].0 != p);
        assert(rest[j - 1] == fills[j]);
        assert forall|k: int| 0 <= k < j - 1 implies (#[trigger] rest[k]).0 != p by {
            assert(rest[k] == fills[k + 1]);
        }
        lemma_fill_line(replace(x, q, r), h, p, t, replace(z, q, r), rest, j - 1)
    }
}

} // verus!
