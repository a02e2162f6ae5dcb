//! How texts are laid out for a reader: columns, lists, and quoted strings.

use crate::text::{chars_of, concat2, concat3, join, texts};
use vstd::prelude::*;
use vstd::string::*;

verus! {

/// What the `Debug` form of a string is: its characters between quotation
/// marks, those that cannot be shown escaped.
pub uninterp spec fn debug_form(s: Seq<char>) -> Seq<char>;

/// `<str as std::fmt::Debug>::fmt` through `format!`: the quoted form of a
/// string, a function of its characters alone.
#[verifier::external_body]
pub(crate) fn debug_text(s: &str) -> (r: String)
    ensures
        r@ == debug_form(s@),
{
    format!("{:?}", s)
}

/// `n` times the character `c`.
pub open spec fn repeated(c: char, n: nat) -> Seq<char> {
    Seq::new(n, |i: int| c)
}

/// `s` with spaces behind it up to the given width.
pub open spec fn padded(s: Seq<char>, width: nat) -> Seq<char> {
    if s.len() >= width {
        s
    } else {
        s + repeated(' ', (width - s.len()) as nat)
    }
}

/// `n` times the character `c`.
pub fn repeat_char(c: char, n: usize) -> (s: String)
    ensures
        s@ == repeated(c, n as nat),
{
    let mut s = String::new();
    let mut i: usize = 0;
    assert(s@ =~= repeated(c, 0));
    while i < n
        invariant
            i <= n,
            s@ == repeated(c, i as nat),
        decreases n - i,
    {
        s.push(c);
        assert(repeated(c, i as nat).push(c) =~= repeated(c, (i + 1) as nat));
        i = i + 1;
    }
    s
}

/// `s` with spaces behind it up to the given width.
pub fn pad(s: &str, width: usize) -> (r: String)
    ensures
        r@ == padded(s@, width as nat),
{
    let n: usize = chars_of(s).len();
    if n >= width {
        return s.to_owned();
    }
    let fill = repeat_char(' ', width - n);
    concat2(s, fill.as_str())
}

/// The texts one after the other with `sep` between them.
pub fn join_texts(parts: &Vec<String>, sep: &str) -> (s: String)
    ensures
        s@ == join(texts(parts@), sep@),
{
    let ghost all = texts(parts@);
    if parts.len() == 0 {
        return String::new();
    }
    let mut s = parts[0].clone();
    let mut i: usize = 1;
    assert(all.take(1) =~= seq![parts[0]@]);
    while i < parts.len()
        invariant
            1 <= i <= parts.len(),
            all == texts(parts@),
            s@ == join(all.take(i as int), sep@),
        decreases parts.len() - i,
    {
        proof {
            let t = all.take(i + 1);
            assert(t.drop_last() =~= all.take(i as int));
            assert(t.last() == parts[i as int]@);
        }
        s = concat3(s.as_str(), sep, parts[i].as_str());
        i = i + 1;
    }
    assert(all.take(all.len() as int) =~= all);
    s
}

/// The quoted forms of texts.
pub open spec fn debug_forms(v: Seq<Seq<char>>) -> Seq<Seq<char>> {
    Seq::new(v.len(), |i: int| debug_form(v[i]))
}

/// The `Debug` form of a list of strings.
pub open spec fn list_form(v: Seq<Seq<char>>) -> Seq<char> {
    "["@ + join(debug_forms(v), ", "@) + "]"@
}

/// The `Debug` form of a list of strings.
pub fn debug_list(v: &Vec<String>) -> (s: String)
    ensures
        s@ == list_form(texts(v@)),
{
    let mut parts: Vec<String> = Vec::new();
    let mut i: usize = 0;
    while i < v.len()
        invariant
            i <= v.len(),
            texts(parts@) =~= debug_forms(texts(v@)).take(i as int),
        decreases v.len() - i,
    {
        let ghost before = parts@;
        let d = debug_text(v[i].as_str());
        parts.push(d);
        proof {
            let all = debug_forms(texts(v@));
            assert(texts(parts@) =~= texts(before).push(d@));
            assert(all.take(i + 1) =~= all.take(i as int).push(all[i as int]));
        }
        i = i + 1;
    }
    assert(debug_forms(texts(v@)).take(v@.len() as int) =~= debug_forms(texts(v@)));
    let inner = join_texts(&parts, ", ");
    concat3("[", inner.as_str(), "]")
}

/// `true` or `false`.
pub open spec fn bool_form(b: bool) -> Seq<char> {
    if b {
        "true"@
    } else {
        "false"@
    }
}

/// `true` or `false`.
pub fn bool_text(b: bool) -> (s: &'static str)
    ensures
        s@ == bool_form(b),
{
    if b {
        "true"
    } else {
        "false"
    }
}

} // verus!
