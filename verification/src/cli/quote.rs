//! Arguments on a Windows command line.
//!
//! A program splits its command line by these rules: spaces and tabs outside of
//! quotation marks separate arguments; twice `n` backslashes before a quotation
//! mark stand for `n` backslashes, and the mark begins or ends a quoted part;
//! one backslash more makes the mark part of the argument; all other
//! backslashes stand for themselves.

use crate::text::{chars_of, texts};
use vstd::prelude::*;

verus! {

/// `n` backslashes.
pub open spec fn slashes(n: nat) -> Seq<char> {
    Seq::new(n, |i: int| '\\')
}

/// Whether a character separates arguments.
pub open spec fn separates(c: char) -> bool {
    c == ' ' || c == '\t'
}

/// The first argument of `s` and what follows it, where `s` stands inside of
/// quotation marks if `quoted`, and behind `n` backslashes.
pub open spec fn argument(s: Seq<char>, quoted: bool, n: nat) -> (Seq<char>, Seq<char>)
    decreases s.len(),
{
    if s.len() == 0 {
        (slashes(n), s)
    } else {
        let c = s[0];
        let t = s.skip(1);
        if c == '\\' {
            argument(t, quoted, n + 1)
        } else if c == '"' {
            if n % 2 == 0 {
                let (a, rest) = argument(t, !quoted, 0);
                (slashes(n / 2) + a, rest)
            } else {
                let (a, rest) = argument(t, quoted, 0);
                (slashes(n / 2) + seq!['"'] + a, rest)
            }
        } else if separates(c) && !quoted {
            (slashes(n), s)
        } else {
            let (a, rest) = argument(t, quoted, 0);
            (slashes(n) + seq![c] + a, rest)
        }
    }
}

/// The arguments of a command line.
pub open spec fn arguments(s: Seq<char>) -> Seq<Seq<char>>
    decreases s.len(),
{
    if s.len() == 0 {
        seq![]
    } else if separates(s[0]) {
        arguments(s.skip(1))
    } else {
        let (a, rest) = argument(s, false, 0);
        if rest.len() < s.len() {
            seq![a] + arguments(rest)
        } else {
            seq![]
        }
    }
}

/// Whether an argument has to be put in quotation marks.
pub open spec fn must_quote(s: Seq<char>) -> bool {
    s.len() == 0 || exists|i: int|
        0 <= i < s.len() && (#[trigger] s[i] == ' ' || s[i] == '\t' || s[i] == '"' || s[i] == '\n')
}

/// `s` as it stands between quotation marks, where `n` backslashes came before
/// it and were not written yet.
pub open spec fn escaped(s: Seq<char>, n: nat) -> Seq<char>
    decreases s.len(),
{
    if s.len() == 0 {
        slashes(2 * n)
    } else if s[0] == '\\' {
        escaped(s.skip(1), n + 1)
    } else if s[0] == '"' {
        slashes(2 * n + 1) + seq!['"'] + escaped(s.skip(1), 0)
    } else {
        slashes(n) + seq![s[0]] + escaped(s.skip(1), 0)
    }
}

/// An argument as it stands on a command line.
pub open spec fn quoted_argument(s: Seq<char>) -> Seq<char> {
    if must_quote(s) {
        seq!['"'] + escaped(s, 0) + seq!['"']
    } else {
        s
    }
}

fn push_slashes(out: &mut String, n: usize)
    ensures
        final(out)@ == old(out)@ + slashes(n as nat),
{
    let mut i: usize = 0;
    let ghost start = out@;
    assert(start + slashes(0) =~= start);
    while i < n
        invariant
            i <= n,
            out@ == start + slashes(i as nat),
        decreases n - i,
    {
        out.push('\\');
        assert((start + slashes(i as nat)).push('\\') =~= start + slashes((i + 1) as nat));
        i = i + 1;
    }
}

/// An argument as it stands on a command line, so that the program gets it as
/// it is.
pub fn quote_arg_for_cmdline(s: &str) -> (out: String)
    ensures
        out@ == quoted_argument(s@),
{
    let v = chars_of(s);
    let mut needed = v.len() == 0;
    let mut k: usize = 0;
    while k < v.len()
        invariant
            v@ == s@,
            k <= v.len(),
            needed == (v.len() == 0 || exists|i: int|
                0 <= i < k && (#[trigger] s@[i] == ' ' || s@[i] == '\t' || s@[i] == '"' || s@[i]
                    == '\n')),
        decreases v.len() - k,
    {
        let c: char = v[k];
        assert(c == s@[k as int]);
        if c == ' ' || c == '\t' || c == '"' || c == '\n' {
            needed = true;
        }
        k = k + 1;
    }
    if !needed {
        return s.to_owned();
    }
    let mut out = String::new();
    out.push('"');
    let mut n: usize = 0;
    let mut i: usize = 0;
    let ghost whole = seq!['"'] + escaped(s@, 0);
    proof {
        assert(s@.skip(0) =~= s@);
        assert(out@ =~= seq!['"']);
    }
    while i < v.len()
        invariant
            v@ == s@,
            n <= i <= v.len(),
            out@ + escaped(s@.skip(i as int), n as nat) == whole,
        decreases v.len() - i,
    {
        let ghost rest = s@.skip(i as int);
        let ghost before = out@;
        proof {
            assert(rest[0] == v[i as int]);
            assert(rest.skip(1) =~= s@.skip(i + 1));
        }
        let c: char = v[i];
        if c == '\\' {
            n = n + 1;
        } else if c == '"' {
            // One backslash at a time, for twice their number may exceed the
            // range of an index.
            push_slashes(&mut out, n);
            push_slashes(&mut out, n);
            out.push('\\');
            out.push('"');
            proof {
                let e = escaped(s@.skip(i + 1), 0);
                assert(before + slashes(n as nat) + slashes(n as nat) =~= before + slashes(
                    (2 * n) as nat,
                ));
                assert(slashes((2 * n + 1) as nat) =~= slashes((2 * n) as nat).push('\\'));
                assert(out@ + e =~= before + (slashes((2 * n + 1) as nat) + seq!['"'] + e));
            }
            n = 0;
        } else {
            push_slashes(&mut out, n);
            out.push(c);
            proof {
                let e = escaped(s@.skip(i + 1), 0);
                assert(out@ + e =~= before + (slashes(n as nat) + seq![c] + e));
            }
            n = 0;
        }
        i = i + 1;
    }
    let ghost before = out@;
    push_slashes(&mut out, n);
    push_slashes(&mut out, n);
    out.push('"');
    proof {
        assert(s@.skip(i as int) =~= Seq::<char>::empty());
        assert(before + slashes(n as nat) + slashes(n as nat) =~= before + slashes(
            (2 * n) as nat,
        ));
        assert(out@ =~= whole.push('"'));
        assert(out@ =~= quoted_argument(s@));
    }
    out
}

/// A program and its arguments as a command line.
pub open spec fn quoted_line(entry: Seq<char>, args: Seq<Seq<char>>) -> Seq<char>
    decreases args.len(),
{
    if args.len() == 0 {
        quoted_argument(entry)
    } else {
        quoted_line(entry, args.drop_last()) + " "@ + quoted_argument(args.last())
    }
}

/// A program and its arguments as a command line.
pub fn quote_line(entry: &str, args: &Vec<String>) -> (line: String)
    ensures
        line@ == quoted_line(entry@, texts(args@)),
{
    let mut line = quote_arg_for_cmdline(entry);
    let ghost all = texts(args@);
    let mut i: usize = 0;
    assert(all.take(0) =~= Seq::<Seq<char>>::empty());
    while i < args.len()
        invariant
            i <= args.len(),
            all == texts(args@),
            line@ == quoted_line(entry@, all.take(i as int)),
        decreases args.len() - i,
    {
        let q = quote_arg_for_cmdline(args[i].as_str());
        line = crate::text::concat3(line.as_str(), " ", q.as_str());
        proof {
            let t = all.take(i + 1);
            assert(t.drop_last() =~= all.take(i as int));
            assert(t.last() == args[i as int]@);
        }
        i = i + 1;
    }
    assert(all.take(all.len() as int) =~= all);
    line
}

/// Backslashes before a text are counted.
proof fn lemma_argument_slashes(s: Seq<char>, quoted: bool, k: nat, n: nat)
    ensures
        argument(slashes(k) + s, quoted, n) == argument(s, quoted, n + k),
    decreases k,
{
    if k == 0 {
        assert(slashes(0) + s =~= s);
    } else {
        let t = slashes(k) + s;
        assert(t[0] == '\\');
        assert(t.skip(1) =~= slashes((k - 1) as nat) + s);
        lemma_argument_slashes(s, quoted, (k - 1) as nat, n + 1);
    }
}

/// Where an argument may end: at the end of the line or before a separator.
pub open spec fn ends_argument(rest: Seq<char>) -> bool {
    rest.len() == 0 || separates(rest[0])
}

/// What was written between quotation marks is read back.
proof fn lemma_escaped(a: Seq<char>, n: nat, rest: Seq<char>)
    requires
        ends_argument(rest),
    ensures
        argument(escaped(a, n) + seq!['"'] + rest, true, 0) == (slashes(n) + a, rest),
    decreases a.len(),
{
    let tail = seq!['"'] + rest;
    if a.len() == 0 {
        assert(escaped(a, n) + seq!['"'] + rest =~= slashes(2 * n) + tail);
        lemma_argument_slashes(tail, true, 2 * n, 0);
        assert(tail.skip(1) =~= rest);
        assert(argument(rest, false, 0) == (slashes(0), rest));
        assert(slashes(n) + slashes(0) =~= slashes(n) + a);
        assert((2 * n) % 2 == 0 && (2 * n) / 2 == n);
    } else {
        let b = a.skip(1);
        let e = escaped(b, 0) + seq!['"'] + rest;
        if a[0] == '\\' {
            lemma_escaped(b, n + 1, rest);
            assert(slashes(n + 1) + b =~= slashes(n) + a);
        } else if a[0] == '"' {
            lemma_escaped(b, 0, rest);
            let t = seq!['"'] + e;
            assert(escaped(a, n) + seq!['"'] + rest =~= slashes(2 * n + 1) + t);
            lemma_argument_slashes(t, true, 2 * n + 1, 0);
            assert(t.skip(1) =~= e);
            assert((2 * n + 1) % 2 == 1 && (2 * n + 1) / 2 == n as int);
            assert(slashes(n) + seq!['"'] + (slashes(0) + b) =~= slashes(n) + a);
        } else {
            lemma_escaped(b, 0, rest);
            let t = seq![a[0]] + e;
            assert(escaped(a, n) + seq!['"'] + rest =~= slashes(n) + t);
            lemma_argument_slashes(t, true, n, 0);
            assert(t.skip(1) =~= e);
            assert(t[0] == a[0]);
            assert(slashes(n) + seq![a[0]] + (slashes(0) + b) =~= slashes(n) + a);
        }
    }
}

/// What needs no quotation marks is read back.
proof fn lemma_plain(a: Seq<char>, n: nat, rest: Seq<char>)
    requires
        ends_argument(rest),
        forall|i: int| 0 <= i < a.len() ==> !separates(#[trigger] a[i]) && a[i] != '"',
    ensures
        argument(a + rest, false, n) == (slashes(n) + a, rest),
    decreases a.len(),
{
    if a.len() == 0 {
        assert(a + rest =~= rest);
        assert(slashes(n) + a =~= slashes(n));
    } else {
        let b = a.skip(1);
        let t = a + rest;
        assert(t[0] == a[0]);
        assert(t.skip(1) =~= b + rest);
        assert forall|i: int| 0 <= i < b.len() implies !separates(#[trigger] b[i]) && b[i]
            != '"' by {
            assert(b[i] == a[i + 1]);
        }
        assert(!separates(a[0]) && a[0] != '"');
        if a[0] == '\\' {
            lemma_plain(b, n + 1, rest);
            assert(slashes(n + 1) + b =~= slashes(n) + a);
        } else {
            lemma_plain(b, 0, rest);
            assert(slashes(n) + seq![a[0]] + (slashes(0) + b) =~= slashes(n) + a);
        }
    }
}

/// A quoted argument is read back as it was, whatever it holds, and what
/// follows it is left alone.
pub proof fn law_argument_round_trip(a: Seq<char>, rest: Seq<char>)
    requires
        ends_argument(rest),
    ensures
        argument(quoted_argument(a) + rest, false, 0) == (a, rest),
        quoted_argument(a).len() > 0,
        !separates(quoted_argument(a)[0]),
{
    if must_quote(a) {
        let e = escaped(a, 0) + seq!['"'] + rest;
        let t = quoted_argument(a) + rest;
        assert(t =~= seq!['"'] + e);
        assert(t.skip(1) =~= e);
        lemma_escaped(a, 0, rest);
        assert(slashes(0) + (slashes(0) + a) =~= a);
        assert(t[0] == '"');
    } else {
        assert forall|i: int| 0 <= i < a.len() implies !separates(#[trigger] a[i]) && a[i]
            != '"' by {
            assert(!(a[i] == ' ' || a[i] == '\t' || a[i] == '"' || a[i] == '\n'));
        }
        lemma_plain(a, 0, rest);
        assert(slashes(0) + a =~= a);
        assert(!separates(a[0]));
    }
}

/// The arguments with a space before each.
pub open spec fn spaced(args: Seq<Seq<char>>) -> Seq<char>
    decreases args.len(),
{
    if args.len() == 0 {
        seq![]
    } else {
        seq![' '] + quoted_argument(args[0]) + spaced(args.skip(1))
    }
}

proof fn lemma_spaced_read(args: Seq<Seq<char>>)
    ensures
        ends_argument(spaced(args)),
        arguments(spaced(args)) == args,
    decreases args.len(),
{
    if args.len() == 0 {
        assert(arguments(spaced(args)) =~= args);
    } else {
        let rest = spaced(args.skip(1));
        lemma_spaced_read(args.skip(1));
        law_argument_round_trip(args[0], rest);
        let s = spaced(args);
        let t = quoted_argument(args[0]) + rest;
        assert(s =~= seq![' '] + t);
        assert(s.skip(1) =~= t);
        assert(s[0] == ' ');
        assert(t[0] == quoted_argument(args[0])[0]);
        assert(arguments(t) == seq![args[0]] + arguments(rest));
        assert(arguments(s) == arguments(t));
        assert(seq![args[0]] + args.skip(1) =~= args);
    }
}

proof fn lemma_spaced_push(args: Seq<Seq<char>>, last: Seq<char>)
    ensures
        spaced(args.push(last)) == spaced(args) + seq![' '] + quoted_argument(last),
    decreases args.len(),
{
    let p = args.push(last);
    if args.len() == 0 {
        assert(p.skip(1) =~= Seq::<Seq<char>>::empty());
        assert(p[0] == last);
        assert(spaced(p.skip(1)) == Seq::<char>::empty());
        assert(spaced(p) =~= seq![' '] + quoted_argument(last));
        assert(spaced(args) + seq![' '] + quoted_argument(last) =~= seq![' '] + quoted_argument(
            last,
        ));
    } else {
        assert(p.skip(1) =~= args.skip(1).push(last));
        lemma_spaced_push(args.skip(1), last);
        let h = seq![' '] + quoted_argument(args[0]);
        let m = spaced(args.skip(1));
        assert(h + (m + seq![' '] + quoted_argument(last)) =~= h + m + seq![' ']
            + quoted_argument(last));
    }
}

proof fn lemma_quoted_line(entry: Seq<char>, args: Seq<Seq<char>>)
    ensures
        quoted_line(entry, args) == quoted_argument(entry) + spaced(args),
    decreases args.len(),
{
    reveal_strlit(" ");
    assert(" "@ =~= seq![' ']);
    if args.len() == 0 {
        assert(quoted_argument(entry) + spaced(args) =~= quoted_argument(entry));
    } else {
        let init = args.drop_last();
        lemma_quoted_line(entry, init);
        lemma_spaced_push(init, args.last());
        assert(init.push(args.last()) =~= args);
        assert(quoted_argument(entry) + (spaced(init) + seq![' '] + quoted_argument(args.last()))
            =~= quoted_argument(entry) + spaced(init) + " "@ + quoted_argument(args.last()));
    }
}

/// A command line is split into the arguments that it was made of, whatever
/// these hold.
pub proof fn law_line_round_trip(entry: Seq<char>, args: Seq<Seq<char>>)
    ensures
        arguments(quoted_line(entry, args)) == seq![entry] + args,
{
    lemma_quoted_line(entry, args);
    lemma_spaced_read(args);
    law_argument_round_trip(entry, spaced(args));
    let s = quoted_line(entry, args);
    assert(s[0] == quoted_argument(entry)[0]);
}

} // verus!
