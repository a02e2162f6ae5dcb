//! Windows paths as text: an optional drive, and names separated by backslashes
//! or slashes.
//!
//! A path is read as a row of parts: its drive, the separator of the root or the
//! dot that it begins with, and its names. Separators that follow one another
//! and dots behind the start are no parts.

use crate::text::{char_is_alpha, char_lower, chars_of, is_alpha, lower_char, slice_of};
use vstd::prelude::*;

verus! {

/// A separator of path names.
pub open spec fn is_sep(c: char) -> bool {
    c == '\\' || c == '/'
}

/// The length of the drive at the start of a path.
pub open spec fn drive_len(s: Seq<char>) -> int {
    if s.len() >= 2 && is_alpha(s[0]) && s[1] == ':' {
        2
    } else {
        0
    }
}

/// Whether a separator follows the drive.
pub open spec fn rooted(s: Seq<char>) -> bool {
    drive_len(s) < s.len() && is_sep(s[drive_len(s)])
}

/// Whether the first name behind the drive is a dot.
pub open spec fn starts_here(s: Seq<char>) -> bool {
    let d = drive_len(s);
    d < s.len() && s[d] == '.' && (d + 1 == s.len() || is_sep(s[d + 1]))
}

/// The end of the name that stands at `i`.
pub open spec fn name_end(s: Seq<char>, i: int) -> int
    decreases s.len() - i,
{
    if i < 0 || i >= s.len() || is_sep(s[i]) {
        i
    } else {
        name_end(s, i + 1)
    }
}

/// Where the names of a path from `i` on begin and end. Dots are left out.
pub open spec fn names_from(s: Seq<char>, i: int) -> Seq<(int, int)>
    decreases s.len() - i,
{
    if i < 0 || i >= s.len() {
        Seq::empty()
    } else if is_sep(s[i]) {
        names_from(s, i + 1)
    } else {
        let e = name_end(s, i);
        if !(i < e <= s.len()) {
            Seq::empty()
        } else if e == i + 1 && s[i] == '.' {
            names_from(s, e)
        } else {
            seq![(i, e)] + names_from(s, e)
        }
    }
}

/// The drive of a path, and its root or the dot at its start, as far as it has
/// them.
pub open spec fn lead_parts(s: Seq<char>) -> Seq<(int, int)> {
    let d = drive_len(s);
    (if d > 0 {
        seq![(0int, d)]
    } else {
        Seq::empty()
    }) + (if rooted(s) || starts_here(s) {
        seq![(d, d + 1)]
    } else {
        Seq::empty()
    })
}

/// Where the parts in front of the names end.
pub open spec fn lead_len(s: Seq<char>) -> int {
    drive_len(s) + if rooted(s) || starts_here(s) {
        1int
    } else {
        0
    }
}

/// Where the parts of a path begin and end.
pub open spec fn parts(s: Seq<char>) -> Seq<(int, int)> {
    lead_parts(s) + names_from(s, lead_len(s))
}

/// The text of a part.
pub open spec fn part_text(s: Seq<char>, p: (int, int)) -> Seq<char> {
    s.subrange(p.0, p.1)
}

/// The last name of a path, if it ends with one. Two dots are no name.
pub open spec fn file_name(s: Seq<char>) -> Option<Seq<char>> {
    let p = parts(s);
    if p.len() == lead_parts(s).len() || part_text(s, p.last()) == ".."@ {
        None
    } else {
        Some(part_text(s, p.last()))
    }
}

/// The path up to its last part but one. A drive and a root have none.
pub open spec fn parent(s: Seq<char>) -> Option<Seq<char>> {
    let p = parts(s);
    if p.len() == lead_parts(s).len() && !starts_here(s) {
        None
    } else if p.len() == 1 {
        Some(Seq::empty())
    } else {
        Some(s.take(p[p.len() - 2].1))
    }
}

/// Whether two parts are the same: drives without regard to case, and roots
/// whatever their separator is.
pub open spec fn same_part(s: Seq<char>, p: (int, int), t: Seq<char>, q: (int, int)) -> bool {
    if p.0 == 0 && drive_len(s) > 0 {
        q.0 == 0 && drive_len(t) > 0 && lower_char(s[0]) == lower_char(t[0])
    } else if is_sep(s[p.0]) {
        is_sep(t[q.0])
    } else {
        part_text(s, p) == part_text(t, q)
    }
}

/// Whether a path lies in a directory, or is that directory.
pub open spec fn lies_in(path: Seq<char>, dir: Seq<char>) -> bool {
    let p = parts(path);
    let d = parts(dir);
    d.len() <= p.len() && forall|k: int|
        0 <= k < d.len() ==> #[trigger] same_part(path, p[k], dir, d[k])
}

/// What a path holds beyond a directory that it lies in: its further parts.
pub open spec fn beyond(path: Seq<char>, dir: Seq<char>) -> Option<Seq<char>> {
    let p = parts(path);
    let n = parts(dir).len() as int;
    if !lies_in(path, dir) {
        None
    } else if p.len() == n {
        Some(Seq::empty())
    } else {
        Some(path.subrange(p[n].0, p.last().1))
    }
}

/// Where parts begin and end.
pub open spec fn spans(v: Seq<(usize, usize)>) -> Seq<(int, int)> {
    Seq::new(v.len(), |i: int| (v[i].0 as int, v[i].1 as int))
}

proof fn lemma_name_end(s: Seq<char>, i: int)
    requires
        0 <= i < s.len(),
        !is_sep(s[i]),
    ensures
        i < name_end(s, i) <= s.len(),
        name_end(s, i) < s.len() ==> is_sep(s[name_end(s, i)]),
        forall|j: int| i <= j < name_end(s, i) ==> !is_sep(#[trigger] s[j]),
    decreases s.len() - i,
{
    reveal_with_fuel(name_end, 2);
    if i + 1 < s.len() && !is_sep(s[i + 1]) {
        lemma_name_end(s, i + 1);
    }
}

/// The names stand in the path from `i` on, with a separator between them.
spec fn in_order(s: Seq<char>, i: int, n: Seq<(int, int)>) -> bool {
    forall|k: int|
        #![trigger n[k]]
        0 <= k < n.len() ==> {
            &&& i <= n[k].0 < n[k].1 <= s.len()
            &&& !is_sep(s[n[k].0])
            &&& k > 0 ==> n[k - 1].1 < n[k].0
        }
}

proof fn lemma_names_from(s: Seq<char>, i: int)
    requires
        0 <= i,
    ensures
        in_order(s, i, names_from(s, i)),
    decreases s.len() - i,
{
    if i < s.len() {
        let n = names_from(s, i);
        if is_sep(s[i]) {
            lemma_names_from(s, i + 1);
            assert(n == names_from(s, i + 1));
        } else {
            lemma_name_end(s, i);
            let e = name_end(s, i);
            lemma_names_from(s, e);
            let r = names_from(s, e);
            if e == i + 1 && s[i] == '.' {
                assert(n == r);
            } else {
                assert(n == seq![(i, e)] + r);
                assert forall|k: int| #![trigger n[k]] 0 <= k < n.len() implies {
                    &&& i <= n[k].0 < n[k].1 <= s.len()
                    &&& !is_sep(s[n[k].0])
                    &&& k > 0 ==> n[k - 1].1 < n[k].0
                } by {
                    if k > 0 {
                        assert(n[k] == r[k - 1]);
                        if k > 1 {
                            assert(n[k - 1] == r[k - 2]);
                        } else {
                            lemma_first_name(s, e);
                        }
                    }
                }
            }
        }
    }
}

proof fn lemma_first_name(s: Seq<char>, e: int)
    requires
        0 <= e <= s.len(),
        e < s.len() ==> is_sep(s[e]),
        names_from(s, e).len() > 0,
    ensures
        e < names_from(s, e)[0].0,
    decreases s.len() - e,
{
    if e < s.len() {
        lemma_names_from(s, e + 1);
        assert(names_from(s, e) == names_from(s, e + 1));
    }
}

/// Where the parts of a path stand: one after the other, each of them in it.
proof fn lemma_parts(s: Seq<char>)
    ensures
        forall|k: int|
            #![trigger parts(s)[k]]
            0 <= k < parts(s).len() ==> 0 <= parts(s)[k].0 < parts(s)[k].1 <= s.len(),
        forall|k: int|
            #![trigger parts(s)[k]]
            0 < k < parts(s).len() ==> parts(s)[k - 1].1 <= parts(s)[k].0,
{
    let l = lead_parts(s);
    let n = names_from(s, lead_len(s));
    let p = parts(s);
    lemma_names_from(s, lead_len(s));
    assert forall|k: int| #![trigger p[k]] 0 <= k < p.len() implies 0 <= p[k].0 < p[k].1
        <= s.len() by {
        if k >= l.len() {
            assert(p[k] == n[k - l.len()]);
        } else {
            assert(p[k] == l[k]);
        }
    }
    assert forall|k: int| #![trigger p[k]] 0 < k < p.len() implies p[k - 1].1 <= p[k].0 by {
        if k >= l.len() {
            assert(p[k] == n[k - l.len()]);
            if k > l.len() {
                assert(p[k - 1] == n[k - l.len() - 1]);
            } else {
                assert(p[k - 1] == l[k - 1]);
            }
        } else {
            assert(p[k] == l[k] && p[k - 1] == l[k - 1]);
        }
    }
}

fn sep(c: char) -> (b: bool)
    ensures
        b == is_sep(c),
{
    c == '\\' || c == '/'
}

fn drive_end(v: &[char]) -> (n: usize)
    ensures
        n == drive_len(v@),
        n <= v.len(),
{
    if v.len() >= 2 && char_is_alpha(v[0]) && v[1] == ':' {
        2
    } else {
        0
    }
}

fn end_of_name(v: &[char], i: usize) -> (e: usize)
    requires
        i <= v.len(),
    ensures
        e == name_end(v@, i as int),
        i <= e <= v.len(),
{
    let mut e: usize = i;
    while e < v.len() && !sep(v[e])
        invariant
            i <= e <= v.len(),
            name_end(v@, i as int) == name_end(v@, e as int),
        decreases v.len() - e,
    {
        e = e + 1;
    }
    e
}

/// The parts of a path, and how many of them stand in front of the names.
fn parts_of(v: &[char]) -> (r: (Vec<(usize, usize)>, usize))
    ensures
        spans(r.0@) == parts(v@),
        r.1 == lead_parts(v@).len(),
        r.1 <= r.0.len(),
{
    let s = Ghost(v@);
    let d: usize = drive_end(v);
    let mut out: Vec<(usize, usize)> = Vec::new();
    let mut i: usize = d;
    if d > 0 {
        out.push((0, d));
    }
    if d < v.len() && (sep(v[d]) || (v[d] == '.' && (d + 1 == v.len() || sep(v[d + 1])))) {
        out.push((d, d + 1));
        i = d + 1;
    }
    let lead: usize = out.len();
    proof {
        assert(spans(out@) =~= lead_parts(s@));
        assert(i == lead_len(s@));
        assert(spans(out@) + names_from(s@, i as int) =~= parts(s@));
    }
    while i < v.len()
        invariant
            i <= v.len(),
            s@ == v@,
            lead <= out.len(),
            lead == lead_parts(s@).len(),
            spans(out@) + names_from(s@, i as int) == parts(s@),
        decreases v.len() - i,
    {
        if sep(v[i]) {
            i = i + 1;
        } else {
            let e: usize = end_of_name(v, i);
            proof {
                lemma_name_end(s@, i as int);
            }
            if !(e == i + 1 && v[i] == '.') {
                let ghost before = out@;
                out.push((i, e));
                proof {
                    let one = seq![(i as int, e as int)];
                    assert(spans(out@) =~= spans(before) + one);
                    assert(spans(before) + (one + names_from(s@, e as int)) =~= spans(out@)
                        + names_from(s@, e as int));
                }
            }
            i = e;
        }
    }
    assert(spans(out@) + names_from(s@, i as int) =~= spans(out@));
    (out, lead)
}

/// The last name of a path, if it ends with one.
pub fn file_name_of(s: &str) -> (r: Option<String>)
    ensures
        match r {
            Some(n) => file_name(s@) == Some(n@),
            None => file_name(s@) is None,
        },
{
    let v = chars_of(s);
    let (p, lead) = parts_of(v.as_slice());
    if p.len() == lead {
        return None;
    }
    let last: (usize, usize) = p[p.len() - 1];
    proof {
        lemma_parts(s@);
        assert(spans(p@)[p@.len() - 1] == (last.0 as int, last.1 as int));
        assert(parts(s@).last() == parts(s@)[p@.len() - 1]);
    }
    let name = slice_of(v.as_slice(), last.0, last.1);
    if crate::text::same(name.as_str(), "..") {
        None
    } else {
        Some(name)
    }
}

/// The path up to its last part but one.
pub fn parent_of(s: &str) -> (r: Option<String>)
    ensures
        match r {
            Some(p) => parent(s@) == Some(p@),
            None => parent(s@) is None,
        },
{
    let v = chars_of(s);
    let (p, lead) = parts_of(v.as_slice());
    let d: usize = drive_end(v.as_slice());
    let here = d < v.len() && v[d] == '.' && (d + 1 == v.len() || sep(v[d + 1]));
    if p.len() == lead && !here {
        return None;
    }
    if p.len() == 1 {
        let e = String::new();
        assert(e@ =~= Seq::<char>::empty());
        return Some(e);
    }
    proof {
        lemma_parts(s@);
        assert(p@.len() == parts(s@).len());
        assert(spans(p@)[p@.len() - 2] == parts(s@)[p@.len() - 2]);
    }
    let end: usize = p[p.len() - 2].1;
    assert(s@.take(end as int) =~= v@.subrange(0, end as int));
    Some(slice_of(v.as_slice(), 0, end))
}

fn same_text(v: &[char], a: (usize, usize), w: &[char], b: (usize, usize)) -> (r: bool)
    requires
        a.0 <= a.1 <= v.len(),
        b.0 <= b.1 <= w.len(),
    ensures
        r == (v@.subrange(a.0 as int, a.1 as int) == w@.subrange(b.0 as int, b.1 as int)),
{
    let ghost x = v@.subrange(a.0 as int, a.1 as int);
    let ghost y = w@.subrange(b.0 as int, b.1 as int);
    if a.1 - a.0 != b.1 - b.0 {
        assert(x.len() != y.len());
        return false;
    }
    let mut i: usize = 0;
    let n: usize = a.1 - a.0;
    while i < n
        invariant
            i <= n,
            n == a.1 - a.0,
            n == b.1 - b.0,
            a.1 <= v.len(),
            b.1 <= w.len(),
            x == v@.subrange(a.0 as int, a.1 as int),
            y == w@.subrange(b.0 as int, b.1 as int),
            forall|j: int| 0 <= j < i ==> x[j] == y[j],
        decreases n - i,
    {
        if v[a.0 + i] != w[b.0 + i] {
            assert(x[i as int] != y[i as int]);
            return false;
        }
        i = i + 1;
    }
    assert(x =~= y);
    true
}

/// What a path holds beyond a directory that it lies in.
pub fn strip_prefix(path: &str, dir: &str) -> (r: Option<String>)
    ensures
        match r {
            Some(t) => beyond(path@, dir@) == Some(t@),
            None => beyond(path@, dir@) is None,
        },
{
    let v = chars_of(path);
    let w = chars_of(dir);
    let (p, _) = parts_of(v.as_slice());
    let (d, _) = parts_of(w.as_slice());
    proof {
        lemma_parts(path@);
        lemma_parts(dir@);
        assert(p@.len() == parts(path@).len() && d@.len() == parts(dir@).len());
    }
    if d.len() > p.len() {
        return None;
    }
    let mut k: usize = 0;
    while k < d.len()
        invariant
            k <= d.len() <= p.len(),
            v@ == path@,
            w@ == dir@,
            spans(p@) == parts(path@),
            spans(d@) == parts(dir@),
            forall|k: int|
                #![trigger parts(path@)[k]]
                0 <= k < parts(path@).len() ==> 0 <= parts(path@)[k].0 < parts(path@)[k].1
                    <= path@.len(),
            forall|k: int|
                #![trigger parts(dir@)[k]]
                0 <= k < parts(dir@).len() ==> 0 <= parts(dir@)[k].0 < parts(dir@)[k].1
                    <= dir@.len(),
            forall|j: int|
                0 <= j < k ==> #[trigger] same_part(
                    path@,
                    parts(path@)[j],
                    dir@,
                    parts(dir@)[j],
                ),
        decreases d.len() - k,
    {
        let a: (usize, usize) = p[k];
        let b: (usize, usize) = d[k];
        proof {
            assert(spans(p@)[k as int] == (a.0 as int, a.1 as int));
            assert(spans(d@)[k as int] == (b.0 as int, b.1 as int));
            assert(parts(path@)[k as int] == (a.0 as int, a.1 as int));
            assert(parts(dir@)[k as int] == (b.0 as int, b.1 as int));
        }
        let equal = if a.0 == 0 && drive_end(v.as_slice()) > 0 {
            b.0 == 0 && drive_end(w.as_slice()) > 0 && char_lower(v[0]) == char_lower(w[0])
        } else if sep(v[a.0]) {
            sep(w[b.0])
        } else {
            same_text(v.as_slice(), a, w.as_slice(), b)
        };
        if !equal {
            assert(!same_part(path@, parts(path@)[k as int], dir@, parts(dir@)[k as int]));
            return None;
        }
        k = k + 1;
    }
    assert(lies_in(path@, dir@));
    if p.len() == d.len() {
        let e = String::new();
        assert(e@ =~= Seq::<char>::empty());
        return Some(e);
    }
    proof {
        let n = d@.len() as int;
        assert(spans(p@)[n] == parts(path@)[n]);
        assert(spans(p@)[p@.len() - 1] == parts(path@)[p@.len() - 1]);
        assert(parts(path@).last() == parts(path@)[p@.len() - 1]);
        lemma_parts_grow(path@, n, p@.len() - 1);
    }
    Some(slice_of(v.as_slice(), p[d.len()].0, p[p.len() - 1].1))
}

/// A name of a path: not empty, not a dot, and without a separator.
pub open spec fn is_name(s: Seq<char>) -> bool {
    &&& s.len() > 0
    &&& s != "."@
    &&& forall|i: int| 0 <= i < s.len() ==> !is_sep(#[trigger] s[i])
}

proof fn lemma_name_end_is(s: Seq<char>, i: int, e: int)
    requires
        0 <= i <= e <= s.len(),
        forall|j: int| i <= j < e ==> !is_sep(#[trigger] s[j]),
        e < s.len() ==> is_sep(s[e]),
    ensures
        name_end(s, i) == e,
    decreases e - i,
{
    if i < e {
        assert(!is_sep(s[i]));
        lemma_name_end_is(s, i + 1, e);
    }
}

proof fn lemma_names_of_child(dir: Seq<char>, name: Seq<char>, i: int)
    requires
        is_name(name),
        0 <= i <= dir.len(),
    ensures
        names_from(dir + "\\"@ + name, i) == names_from(dir, i).push(
            ((dir.len() + 1) as int, (dir.len() + 1 + name.len()) as int),
        ),
    decreases dir.len() - i,
{
    reveal_strlit("\\");
    reveal_strlit(".");
    let s = dir + "\\"@ + name;
    let n = dir.len() as int;
    assert(s[n] == '\\');
    assert forall|j: int| 0 <= j < n implies s[j] == dir[j] by {}
    if i == n {
        let e = s.len() as int;
        assert forall|j: int| n + 1 <= j < e implies !is_sep(#[trigger] s[j]) by {
            assert(s[j] == name[j - n - 1]);
        }
        lemma_name_end_is(s, n + 1, e);
        assert(s[n + 1] == name[0]);
        assert(names_from(s, n) == names_from(s, n + 1));
        assert(names_from(s, e).len() == 0);
        if e == n + 2 && s[n + 1] == '.' {
            assert(name =~= "."@);
        }
        assert(names_from(s, n + 1) == seq![(n + 1, e)] + names_from(s, e));
        assert(names_from(s, n) =~= names_from(dir, n).push((n + 1, e)));
    } else if is_sep(dir[i]) {
        lemma_names_of_child(dir, name, i + 1);
        assert(names_from(s, i) == names_from(s, i + 1));
    } else {
        lemma_name_end(dir, i);
        let e = name_end(dir, i);
        assert forall|j: int| i <= j < e implies !is_sep(#[trigger] s[j]) by {
            assert(s[j] == dir[j]);
        }
        if e < n {
            assert(s[e] == dir[e]);
        }
        lemma_name_end_is(s, i, e);
        lemma_names_of_child(dir, name, e);
        if e == i + 1 && dir[i] == '.' {
            assert(names_from(s, i) == names_from(s, e));
        } else {
            assert(names_from(s, i) == seq![(i, e)] + names_from(s, e));
            assert(names_from(s, i) =~= names_from(dir, i).push((n + 1, n + 1 + name.len())));
        }
    }
}

/// Beyond a directory, a path that a name was joined to it holds that name.
pub proof fn law_beyond_undoes_join(dir: Seq<char>, name: Seq<char>)
    requires
        drive_len(dir) < dir.len(),
        is_name(name),
    ensures
        beyond(dir + "\\"@ + name, dir) == Some(name),
{
    reveal_strlit("\\");
    let s = dir + "\\"@ + name;
    let n = dir.len() as int;
    assert forall|j: int| 0 <= j < n implies s[j] == dir[j] by {}
    assert(s[n] == '\\');
    assert(drive_len(s) == drive_len(dir));
    assert(rooted(s) == rooted(dir));
    assert(starts_here(s) == starts_here(dir));
    lemma_names_of_child(dir, name, lead_len(dir));
    let p = parts(s);
    let d = parts(dir);
    assert(p =~= d.push((n + 1, n + 1 + name.len())));
    lemma_parts(dir);
    assert forall|k: int| 0 <= k < d.len() implies #[trigger] same_part(s, p[k], dir, d[k]) by {
        assert(p[k] == d[k]);
        assert(part_text(s, p[k]) =~= part_text(dir, d[k]));
    }
    assert(lies_in(s, dir));
    assert(s.subrange(n + 1, n + 1 + name.len()) =~= name);
}

/// A later part of a path ends behind the start of an earlier one.
proof fn lemma_parts_grow(s: Seq<char>, i: int, j: int)
    requires
        0 <= i <= j < parts(s).len(),
    ensures
        0 <= parts(s)[i].0 < parts(s)[j].1 <= s.len(),
    decreases j - i,
{
    lemma_parts(s);
    if i < j {
        lemma_parts_grow(s, i, j - 1);
        assert(parts(s)[j - 1].1 <= parts(s)[j].0);
    }
}

/// Of a path that a name was joined to, the last name is that name, and the
/// directory above it is the one that it was joined to.
pub proof fn law_join_has_name_and_parent(dir: Seq<char>, name: Seq<char>)
    requires
        drive_len(dir) < dir.len(),
        is_name(name),
        name != ".."@,
        parts(dir).len() > 0,
        parts(dir).last().1 == dir.len(),
    ensures
        file_name(dir + "\\"@ + name) == Some(name),
        parent(dir + "\\"@ + name) == Some(dir),
{
    reveal_strlit("\\");
    let s = dir + "\\"@ + name;
    let n = dir.len() as int;
    assert forall|j: int| 0 <= j < n implies s[j] == dir[j] by {}
    assert(s[n] == '\\');
    assert(drive_len(s) == drive_len(dir));
    assert(rooted(s) == rooted(dir));
    assert(starts_here(s) == starts_here(dir));
    lemma_names_of_child(dir, name, lead_len(dir));
    let p = parts(s);
    let d = parts(dir);
    assert(p =~= d.push((n + 1, n + 1 + name.len())));
    assert(s.subrange(n + 1, n + 1 + name.len()) =~= name);
    assert(lead_parts(s) =~= lead_parts(dir));
    assert(s.take(n) =~= dir);
}

/// A drive is a letter with a colon, and either slash separates names.
pub proof fn law_drives_and_separators(c: char, s: Seq<char>)
    ensures
        is_sep(c) <==> c == '\\' || c == '/',
        drive_len(s) == 2 <==> s.len() >= 2 && is_alpha(s[0]) && s[1] == ':',
        drive_len(s) == 0 || drive_len(s) == 2,
        rooted(s) <==> exists|i: int| i == drive_len(s) && i < s.len() && is_sep(s[i]),
{
}

} // verus!
