//! Patterns for file names: `*` stands for any characters, `?` for one, and a
//! letter for itself in either case. A pattern is held against the last name of a
//! path; one with `**/` against its names at any depth.

use crate::text::{
    char_lower, chars_of, lemma_split_head, lemma_split_one, lower_char, occurs_at, same, skip, split, split_char, stands_at, texts,
};
use vstd::prelude::*;

verus! {

/// Whether a text matches a pattern.
pub open spec fn glob(p: Seq<char>, t: Seq<char>) -> bool
    decreases p.len(),
{
    if p.len() == 0 {
        t.len() == 0
    } else if p[0] == '*' {
        exists|i: int| 0 <= i <= t.len() && glob(p.skip(1), #[trigger] t.skip(i))
    } else if p[0] == '?' {
        t.len() > 0 && glob(p.skip(1), t.skip(1))
    } else {
        t.len() > 0 && lower_char(t[0]) == lower_char(p[0]) && glob(p.skip(1), t.skip(1))
    }
}

/// Whether a row of names matches a row of patterns: `**` matches any number of
/// names, also none, and any other pattern one name.
pub open spec fn names_match(p: Seq<Seq<char>>, t: Seq<Seq<char>>) -> bool
    decreases p.len(),
{
    if p.len() == 0 {
        t.len() == 0
    } else if p[0] == "**"@ {
        exists|i: int| 0 <= i <= t.len() && names_match(p.skip(1), #[trigger] t.skip(i))
    } else {
        t.len() > 0 && glob(p[0], t[0]) && names_match(p.skip(1), t.skip(1))
    }
}

/// What separates the directories at any depth from the rest of a pattern.
pub open spec fn any_depth() -> Seq<char> {
    "**/"@
}

/// The position of the first `**/`, or -1 where there is none.
pub open spec fn first_any_depth(p: Seq<char>, from: int) -> int
    decreases p.len() - from,
{
    if from < 0 || from >= p.len() {
        -1
    } else if occurs_at(p, any_depth(), from) {
        from
    } else {
        first_any_depth(p, from + 1)
    }
}

/// The position of the last `**/` before `to`, or -1 where there is none.
pub open spec fn last_any_depth(p: Seq<char>, to: int) -> int
    decreases to,
{
    if to <= 0 {
        -1
    } else if occurs_at(p, any_depth(), to - 1) {
        to - 1
    } else {
        last_any_depth(p, to - 1)
    }
}

/// The bytes that a character takes in UTF-8.
pub open spec fn char_bytes(c: char) -> nat {
    let n = c as u32;
    if n < 0x80 {
        1
    } else if n < 0x800 {
        2
    } else if n < 0x10000 {
        3
    } else {
        4
    }
}

/// The bytes that a string takes in UTF-8.
pub open spec fn byte_len(s: Seq<char>) -> nat
    decreases s.len(),
{
    if s.len() == 0 {
        0
    } else {
        char_bytes(s[0]) + byte_len(s.skip(1))
    }
}

/// The end of `s` that takes `n` bytes, if there is one.
pub open spec fn byte_suffix(s: Seq<char>, n: nat) -> Option<Seq<char>>
    decreases s.len(),
{
    if byte_len(s) == n {
        Some(s)
    } else if s.len() == 0 {
        None
    } else {
        byte_suffix(s.skip(1), n)
    }
}

/// Whether some piece of a path matches a pattern.
pub open spec fn some_piece(p: Seq<char>, path: Seq<char>) -> bool {
    exists|i: int| 0 <= i < split(path, '/').len() && glob(p, #[trigger] split(path, '/')[i])
}

/// Whether the end of a path that is as long as the pattern matches it.
pub open spec fn matches_end(p: Seq<char>, path: Seq<char>) -> bool {
    match byte_suffix(path, byte_len(p)) {
        Some(t) => glob(p, t),
        None => false,
    }
}

/// Whether a path, with slashes between its names, matches a pattern. A pattern
/// with `**/` matches where what follows the last one is nothing or matches one
/// of the names, where what follows the first one matches the end of the path,
/// and where the names match name by name. Any other pattern is held against the
/// last name.
pub open spec fn path_matches(p: Seq<char>, path: Seq<char>) -> bool {
    let first = first_any_depth(p, 0);
    if first >= 0 {
        let suffix = p.skip(last_any_depth(p, p.len() as int) + 3);
        ||| suffix.len() == 0
        ||| some_piece(suffix, path)
        ||| matches_end(p.skip(first + 3), path)
        ||| names_match(split(p, '/'), split(path, '/'))
    } else {
        glob(p, split(path, '/').last())
    }
}

/// Whether a path matches one of the patterns.
pub open spec fn any_matches(path: Seq<char>, patterns: Seq<Seq<char>>) -> bool {
    exists|i: int| 0 <= i < patterns.len() && path_matches(#[trigger] patterns[i], path)
}

/// Every pattern matches its own text.
pub proof fn law_pattern_matches_itself(p: Seq<char>)
    ensures
        glob(p, p),
    decreases p.len(),
{
    if p.len() > 0 {
        law_pattern_matches_itself(p.skip(1));
    }
}

/// `*` matches every text.
pub proof fn law_star_matches_all(t: Seq<char>)
    ensures
        glob(seq!['*'], t),
{
    let p = seq!['*'];
    assert(p.skip(1).len() == 0);
    assert(t.skip(t.len() as int).len() == 0);
    assert(glob(p.skip(1), t.skip(t.len() as int)));
}

/// A pattern without `*` and `?` matches a text that differs from it at most in
/// the case of ASCII letters, and no other.
pub proof fn law_plain_pattern(p: Seq<char>, t: Seq<char>)
    requires
        forall|i: int| 0 <= i < p.len() ==> p[i] != '*' && p[i] != '?',
    ensures
        glob(p, t) <==> (p.len() == t.len() && forall|i: int|
            0 <= i < p.len() ==> lower_char(#[trigger] p[i]) == lower_char(t[i])),
    decreases p.len(),
{
    if p.len() > 0 && t.len() > 0 {
        let q = p.skip(1);
        let u = t.skip(1);
        law_plain_pattern(q, u);
        if glob(p, t) {
            assert forall|i: int| 0 <= i < p.len() implies lower_char(#[trigger] p[i])
                == lower_char(t[i]) by {
                if i > 0 {
                    assert(q[i - 1] == p[i] && u[i - 1] == t[i]);
                }
            }
        }
        if p.len() == t.len() && forall|i: int|
            0 <= i < p.len() ==> lower_char(#[trigger] p[i]) == lower_char(t[i]) {
            assert forall|i: int| 0 <= i < q.len() implies lower_char(#[trigger] q[i])
                == lower_char(u[i]) by {
                assert(p[i + 1] == q[i]);
            }
            assert(p[0] == p[0]);
        }
    }
}

fn glob_from(p: &[char], t: &[char], i: usize, j: usize) -> (r: bool)
    requires
        i <= p.len(),
        j <= t.len(),
    ensures
        r == glob(p@.skip(i as int), t@.skip(j as int)),
    decreases p.len() - i,
{
    let ghost ps = p@.skip(i as int);
    let ghost ts = t@.skip(j as int);
    if i == p.len() {
        return j == t.len();
    }
    assert(ps.skip(1) =~= p@.skip(i + 1));
    let c: char = p[i];
    if c == '*' {
        let mut k: usize = j;
        loop
            invariant
                i < p.len(),
                j <= k <= t.len(),
                ps == p@.skip(i as int),
                ps.skip(1) == p@.skip(i + 1),
                ts == t@.skip(j as int),
                c == '*',
                c == p[i as int],
                forall|m: int|
                    0 <= m < k - j ==> !glob(ps.skip(1), #[trigger] ts.skip(m)),
            decreases t.len() - k,
        {
            assert(ts.skip(k - j) =~= t@.skip(k as int));
            if glob_from(p, t, i + 1, k) {
                assert(glob(ps.skip(1), ts.skip(k - j)));
                return true;
            }
            if k == t.len() {
                assert(forall|m: int|
                    0 <= m <= ts.len() ==> !glob(ps.skip(1), #[trigger] ts.skip(m)));
                return false;
            }
            k = k + 1;
        }
    }
    if j == t.len() {
        return false;
    }
    assert(ts.skip(1) =~= t@.skip(j + 1));
    if c == '?' {
        glob_from(p, t, i + 1, j + 1)
    } else if char_lower(t[j]) == char_lower(c) {
        glob_from(p, t, i + 1, j + 1)
    } else {
        false
    }
}

/// Whether a text matches a pattern.
pub fn glob_recursive(pattern: &[char], text: &[char]) -> (r: bool)
    ensures
        r == glob(pattern@, text@),
{
    assert(pattern@.skip(0) =~= pattern@);
    assert(text@.skip(0) =~= text@);
    glob_from(pattern, text, 0, 0)
}

/// Whether a text matches a pattern.
pub fn simple_glob(pattern: &str, text: &str) -> (r: bool)
    ensures
        r == glob(pattern@, text@),
{
    let p = chars_of(pattern);
    let t = chars_of(text);
    glob_recursive(p.as_slice(), t.as_slice())
}

fn names_from(p: &Vec<String>, t: &Vec<String>, i: usize, j: usize) -> (r: bool)
    requires
        i <= p.len(),
        j <= t.len(),
    ensures
        r == names_match(texts(p@).skip(i as int), texts(t@).skip(j as int)),
    decreases p.len() - i,
{
    let ghost ps = texts(p@).skip(i as int);
    let ghost ts = texts(t@).skip(j as int);
    if i == p.len() {
        return j == t.len();
    }
    proof {
        assert(ps.skip(1) =~= texts(p@).skip(i + 1));
        assert(ps[0] == p@[i as int]@);
    }
    if same(p[i].as_str(), "**") {
        let mut k: usize = j;
        loop
            invariant
                i < p.len(),
                j <= k <= t.len(),
                ps.skip(1) == texts(p@).skip(i + 1),
                ps == texts(p@).skip(i as int),
                ps[0] == "**"@,
                ts == texts(t@).skip(j as int),
                forall|m: int|
                    0 <= m < k - j ==> !names_match(ps.skip(1), #[trigger] ts.skip(m)),
            decreases t.len() - k,
        {
            assert(ts.skip(k - j) =~= texts(t@).skip(k as int));
            if names_from(p, t, i + 1, k) {
                assert(names_match(ps.skip(1), ts.skip(k - j)));
                return true;
            }
            if k == t.len() {
                assert(forall|m: int|
                    0 <= m <= ts.len() ==> !names_match(ps.skip(1), #[trigger] ts.skip(m)));
                return false;
            }
            k = k + 1;
        }
    }
    if j == t.len() {
        return false;
    }
    proof {
        assert(ts.skip(1) =~= texts(t@).skip(j + 1));
        assert(ts[0] == t@[j as int]@);
    }
    simple_glob(p[i].as_str(), t[j].as_str()) && names_from(p, t, i + 1, j + 1)
}

fn find_first(p: &[char]) -> (r: Option<usize>)
    ensures
        match r {
            Some(i) => first_any_depth(p@, 0) == i && i + 3 <= p.len(),
            None => first_any_depth(p@, 0) == -1,
        },
{
    let q = chars_of("**/");
    proof {
        reveal_strlit("**/");
    }
    let mut i: usize = 0;
    while i < p.len()
        invariant
            i <= p.len(),
            q@ == any_depth(),
            q@.len() == 3,
            first_any_depth(p@, 0) == first_any_depth(p@, i as int),
        decreases p.len() - i,
    {
        if stands_at(p, q.as_slice(), i) {
            return Some(i);
        }
        i = i + 1;
    }
    None
}

fn find_last(p: &[char]) -> (r: Option<usize>)
    ensures
        match r {
            Some(i) => last_any_depth(p@, p@.len() as int) == i && i + 3 <= p.len(),
            None => last_any_depth(p@, p@.len() as int) == -1,
        },
{
    let q = chars_of("**/");
    proof {
        reveal_strlit("**/");
    }
    let mut i: usize = p.len();
    while i > 0
        invariant
            i <= p.len(),
            q@ == any_depth(),
            q@.len() == 3,
            last_any_depth(p@, p@.len() as int) == last_any_depth(p@, i as int),
        decreases i,
    {
        i = i - 1;
        if stands_at(p, q.as_slice(), i) {
            return Some(i);
        }
    }
    None
}

proof fn lemma_last_exists(p: Seq<char>, from: int)
    requires
        0 <= from,
        first_any_depth(p, from) >= 0,
    ensures
        last_any_depth(p, p.len() as int) >= 0,
    decreases p.len() - from,
{
    if from < p.len() {
        if occurs_at(p, any_depth(), from) {
            lemma_last_reaches(p, from, p.len() as int);
        } else {
            lemma_last_exists(p, from + 1);
        }
    }
}

proof fn lemma_last_reaches(p: Seq<char>, i: int, to: int)
    requires
        0 <= i < to,
        occurs_at(p, any_depth(), i),
    ensures
        last_any_depth(p, to) >= i,
    decreases to,
{
    if !occurs_at(p, any_depth(), to - 1) {
        lemma_last_reaches(p, i, to - 1);
    }
}

/// The bytes that a character takes in UTF-8.
fn bytes_of_char(c: char) -> (n: u64)
    ensures
        n == char_bytes(c),
{
    let n: u32 = c as u32;
    if n < 0x80 {
        1
    } else if n < 0x800 {
        2
    } else if n < 0x10000 {
        3
    } else {
        4
    }
}

fn bytes_in(v: &[char]) -> (n: u128)
    ensures
        n == byte_len(v@),
{
    let mut n: u128 = 0;
    let mut i: usize = v.len();
    assert(v@.skip(v@.len() as int) =~= Seq::<char>::empty());
    while i > 0
        invariant
            i <= v.len(),
            n == byte_len(v@.skip(i as int)),
            n <= 4 * (v.len() - i),
        decreases i,
    {
        proof {
            let t = v@.skip(i - 1);
            assert(t.skip(1) =~= v@.skip(i as int));
            assert(t[0] == v[i - 1]);
        }
        i = i - 1;
        n = n + bytes_of_char(v[i]) as u128;
    }
    assert(v@.skip(0) =~= v@);
    n
}

fn end_matches(p: &[char], t: &[char]) -> (r: bool)
    ensures
        r == matches_end(p@, t@),
{
    let need: u128 = bytes_in(p);
    let mut have: u128 = bytes_in(t);
    let mut i: usize = 0;
    assert(t@.skip(0) =~= t@);
    while i < t.len() && have != need
        invariant
            i <= t.len(),
            need == byte_len(p@),
            have == byte_len(t@.skip(i as int)),
            byte_suffix(t@, need as nat) == byte_suffix(t@.skip(i as int), need as nat),
        decreases t.len() - i,
    {
        proof {
            let u = t@.skip(i as int);
            assert(u.skip(1) =~= t@.skip(i + 1));
            assert(u[0] == t[i as int]);
        }
        have = have - bytes_of_char(t[i]) as u128;
        i = i + 1;
    }
    if have != need {
        return false;
    }
    assert(p@.skip(0) =~= p@);
    glob_from(p, t, 0, i)
}

/// Whether a path, with slashes between its names, matches a pattern.
pub fn glob_match(pattern: &str, path: &str) -> (r: bool)
    ensures
        r == path_matches(pattern@, path@),
{
    let p = chars_of(pattern);
    let t = chars_of(path);
    let pieces = split_char(path, '/');
    let ghost all = texts(pieces@);
    assert(all.len() > 0);
    match find_first(p.as_slice()) {
        Some(first) => {
            proof {
                lemma_last_exists(p@, 0);
            }
            let last: usize = match find_last(p.as_slice()) {
                Some(i) => i,
                None => {
                    return false;
                },
            };
            let suffix = skip(pattern, last + 3);
            if suffix.as_str().is_empty() {
                return true;
            }
            let mut i: usize = 0;
            while i < pieces.len()
                invariant
                    i <= pieces.len(),
                    all == texts(pieces@),
                    all == split(path@, '/'),
                    suffix@ == pattern@.skip(last + 3),
                    first_any_depth(pattern@, 0) == first,
                    last_any_depth(pattern@, pattern@.len() as int) == last,
                    forall|j: int| 0 <= j < i ==> !glob(suffix@, #[trigger] all[j]),
                decreases pieces.len() - i,
            {
                assert(all[i as int] == pieces@[i as int]@);
                if simple_glob(suffix.as_str(), pieces[i].as_str()) {
                    assert(some_piece(suffix@, path@));
                    return true;
                }
                i = i + 1;
            }
            assert(!some_piece(suffix@, path@));
            let after = skip(pattern, first + 3);
            let a = chars_of(after.as_str());
            if end_matches(a.as_slice(), t.as_slice()) {
                return true;
            }
            let names = split_char(pattern, '/');
            proof {
                assert(texts(names@).skip(0) =~= texts(names@));
                assert(all.skip(0) =~= all);
            }
            names_from(&names, &pieces, 0, 0)
        },
        None => {
            assert(all.last() == pieces@[pieces@.len() - 1]@);
            simple_glob(pattern, pieces[pieces.len() - 1].as_str())
        },
    }
}

proof fn lemma_starts_any_depth(rest: Seq<char>)
    ensures
        first_any_depth(any_depth() + rest, 0) == 0,
{
    reveal_strlit("**/");
    let p = any_depth() + rest;
    assert(p.subrange(0, 3) =~= any_depth());
    assert(occurs_at(p, any_depth(), 0));
}

proof fn lemma_only_any_depth(rest: Seq<char>, to: int)
    requires
        !rest.contains('/'),
        0 < to <= rest.len() + 3,
    ensures
        last_any_depth(any_depth() + rest, to) == 0,
    decreases to,
{
    reveal_strlit("**/");
    let p = any_depth() + rest;
    if to == 1 {
        assert(p.subrange(0, 3) =~= any_depth());
        assert(occurs_at(p, any_depth(), 0));
    } else {
        if occurs_at(p, any_depth(), to - 1) {
            assert(p.subrange(to - 1, to + 2)[2] == '/');
            assert(p[to + 1] == rest[to - 2]);
        }
        lemma_only_any_depth(rest, to - 1);
    }
}

/// A path matches `**/` with a pattern of names behind it wherever one of its
/// names, at any depth, matches that pattern.
pub proof fn law_any_name_counts(suffix: Seq<char>, path: Seq<char>, i: int)
    requires
        !suffix.contains('/'),
        0 <= i < split(path, '/').len(),
        glob(suffix, split(path, '/')[i]),
    ensures
        path_matches("**/"@ + suffix, path),
{
    reveal_strlit("**/");
    let p = any_depth() + suffix;
    lemma_starts_any_depth(suffix);
    lemma_only_any_depth(suffix, p.len() as int);
    assert(p.skip(3) =~= suffix);
    assert(some_piece(suffix, path));
}

/// A path below a directory of this name, at any depth, matches the pattern
/// `**/name/**`, and so does the path of the directory itself.
pub proof fn law_directory_is_matched(
    name: Seq<char>,
    path: Seq<char>,
    before: Seq<Seq<char>>,
    after: Seq<Seq<char>>,
)
    requires
        !name.contains('/'),
        split(path, '/') == before.push(name) + after,
    ensures
        path_matches("**/"@ + name + "/**"@, path),
{
    reveal_strlit("**/");
    reveal_strlit("/**");
    reveal_strlit("**");
    let pattern = "**/"@ + name + "/**"@;
    lemma_starts_any_depth(name + "/**"@);
    assert(pattern =~= any_depth() + (name + "/**"@));
    assert(pattern =~= "**"@.push('/') + (name.push('/') + "**"@));
    lemma_split_head("**"@, '/', name.push('/') + "**"@);
    lemma_split_head(name, '/', "**"@);
    lemma_split_one("**"@, '/');
    let p = seq!["**"@, name, "**"@];
    assert(split(pattern, '/') =~= p);
    law_pattern_matches_itself(name);
    let t = before.push(name) + after;
    let q = p.skip(1);
    let u = t.skip(before.len() as int);
    assert(u[0] == name);
    assert(u.skip(1) =~= after);
    assert(q[0] == name);
    assert(q.skip(1)[0] == "**"@);
    assert(q.skip(1).skip(1).len() == 0);
    assert(after.skip(after.len() as int).len() == 0);
    assert(names_match(q.skip(1).skip(1), after.skip(after.len() as int)));
    assert(names_match(q.skip(1), after));
    assert(names_match(q, u));
}

/// Whether a path matches one of the patterns.
pub fn matches_glob(path: &str, patterns: &Vec<String>) -> (r: bool)
    ensures
        r == any_matches(path@, texts(patterns@)),
{
    let mut i: usize = 0;
    while i < patterns.len()
        invariant
            i <= patterns.len(),
            forall|j: int| 0 <= j < i ==> !path_matches(#[trigger] texts(patterns@)[j], path@),
        decreases patterns.len() - i,
    {
        assert(texts(patterns@)[i as int] == patterns@[i as int]@);
        if glob_match(patterns[i].as_str(), path) {
            return true;
        }
        i = i + 1;
    }
    false
}

} // verus!
