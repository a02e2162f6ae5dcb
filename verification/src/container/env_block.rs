//! The environment block that a process is started with: each variable as
//! `NAME=value` in UTF-16 with a terminating 0, and one more 0 at the end.
//! Windows wants the variables in order, without regard to case.

use crate::container::env::{get_var, pairs, value_of};
use crate::text::{chars_of, concat2, concat3, to_lowercase, unicode_lower};
use crate::wide::{push_utf16, utf16};
use vstd::prelude::*;

verus! {

/// Whether `a` stands before `b` or is the same, by code point.
pub open spec fn before_or_same(a: Seq<char>, b: Seq<char>) -> bool
    decreases a.len(),
{
    if a.len() == 0 {
        true
    } else if b.len() == 0 {
        false
    } else if a[0] == b[0] {
        before_or_same(a.skip(1), b.skip(1))
    } else {
        (a[0] as u32) < (b[0] as u32)
    }
}

/// An entry of the block with the key that it is ordered by.
pub type Keyed = (Seq<char>, Seq<char>);

/// The entries with one more, behind those whose keys are not greater.
pub open spec fn insert_sorted(s: Seq<Keyed>, x: Keyed) -> Seq<Keyed>
    decreases s.len(),
{
    if s.len() == 0 {
        seq![x]
    } else if before_or_same(s.last().0, x.0) {
        s.push(x)
    } else {
        insert_sorted(s.drop_last(), x).push(s.last())
    }
}

/// The entries in the order of their keys; those with equal keys stay as they
/// were.
pub open spec fn sorted(s: Seq<Keyed>) -> Seq<Keyed>
    decreases s.len(),
{
    if s.len() == 0 {
        s
    } else {
        insert_sorted(sorted(s.drop_last()), s.last())
    }
}

/// The block of entries, without the 0 at its end.
pub open spec fn entries_block(entries: Seq<Seq<char>>) -> Seq<u16>
    decreases entries.len(),
{
    if entries.len() == 0 {
        Seq::empty()
    } else {
        entries_block(entries.drop_last()) + utf16(entries.last()).push(0)
    }
}

/// A variable as it stands in a block.
pub open spec fn entry_text(name: Seq<char>, value: Seq<char>) -> Seq<char> {
    name + "="@ + value
}

/// The variables as they stand in a block.
pub open spec fn entry_texts(vars: Seq<(Seq<char>, Seq<char>)>) -> Seq<Seq<char>> {
    Seq::new(vars.len(), |i: int| entry_text(vars[i].0, vars[i].1))
}

/// The variables that every process of a container has.
pub open spec fn essentials(root: Seq<char>) -> Seq<(Seq<char>, Seq<char>)> {
    seq![
        ("SystemRoot"@, root + "\\Windows"@),
        ("SystemDrive"@, "C:"@),
        ("TEMP"@, root + "\\Temp"@),
        ("TMP"@, root + "\\Temp"@),
        ("USERPROFILE"@, root + "\\Users\\ContainerUser"@),
        ("PATHEXT"@, ".COM;.EXE;.BAT;.CMD;.PS1"@),
        (
            "PATH"@,
            root + "\\Windows\\System32;"@ + root + "\\bin;"@ + root + "\\nodejs"@,
        ),
    ]
}

/// Those of `vars` that `env` does not have.
pub open spec fn missing_from(
    env: Seq<(Seq<char>, Seq<char>)>,
    vars: Seq<(Seq<char>, Seq<char>)>,
) -> Seq<(Seq<char>, Seq<char>)>
    decreases vars.len(),
{
    if vars.len() == 0 {
        vars
    } else if value_of(env, vars.last().0, false) is None {
        missing_from(env, vars.drop_last()).push(vars.last())
    } else {
        missing_from(env, vars.drop_last())
    }
}

/// The variables of a container's block, before they are ordered: those that
/// were configured, and what is missing of the essential ones.
pub open spec fn block_vars(env: Seq<(Seq<char>, Seq<char>)>, root: Seq<char>) -> Seq<
    (Seq<char>, Seq<char>),
> {
    env + missing_from(env, essentials(root))
}

/// Entries with the keys that they are ordered by.
pub open spec fn keyed(entries: Seq<Seq<char>>) -> Seq<Keyed> {
    Seq::new(entries.len(), |i: int| (unicode_lower(entries[i]), entries[i]))
}

/// The entries alone.
pub open spec fn unkeyed(s: Seq<Keyed>) -> Seq<Seq<char>> {
    Seq::new(s.len(), |i: int| s[i].1)
}

/// The environment block of a container.
pub open spec fn env_block(env: Seq<(Seq<char>, Seq<char>)>, root: Seq<char>) -> Seq<u16> {
    entries_block(unkeyed(sorted(keyed(entry_texts(block_vars(env, root)))))).push(0)
}

proof fn lemma_before_or_same_total(a: Seq<char>, b: Seq<char>)
    ensures
        before_or_same(a, b) || before_or_same(b, a),
    decreases a.len(),
{
    if a.len() > 0 && b.len() > 0 {
        if a[0] == b[0] {
            lemma_before_or_same_total(a.skip(1), b.skip(1));
        } else {
            vstd::utf8::char_u32_cast(a[0], a[0] as u32);
            vstd::utf8::char_u32_cast(b[0], b[0] as u32);
        }
    }
}

/// Whether the keys are in order.
pub open spec fn in_order(s: Seq<Keyed>) -> bool
    decreases s.len(),
{
    s.len() <= 1 || (in_order(s.drop_last()) && before_or_same(s[s.len() - 2].0, s.last().0))
}

proof fn lemma_insert_keeps_order(s: Seq<Keyed>, x: Keyed)
    requires
        in_order(s),
    ensures
        in_order(insert_sorted(s, x)),
        insert_sorted(s, x).len() == s.len() + 1,
        insert_sorted(s, x).last() == x || (s.len() > 0 && insert_sorted(s, x).last() == s.last()),
        s.len() > 0 && !before_or_same(s.last().0, x.0) ==> insert_sorted(s, x).last() == s.last(),
        insert_sorted(s, x).to_multiset() == s.to_multiset().insert(x),
    decreases s.len(),
{
    broadcast use vstd::seq_lib::group_to_multiset_ensures;

    if s.len() == 0 {
        assert(seq![x] =~= s.push(x));
    } else if before_or_same(s.last().0, x.0) {
        assert(s.push(x).drop_last() =~= s);
    } else {
        let init = s.drop_last();
        let i = insert_sorted(init, x);
        lemma_insert_keeps_order(init, x);
        let r = i.push(s.last());
        assert(r.drop_last() =~= i);
        assert(s =~= init.push(s.last()));
        lemma_before_or_same_total(s.last().0, x.0);
        if init.len() > 0 {
            assert(s[s.len() - 2] == init.last());
        }
        assert(r[r.len() - 2] == i.last());
        assert(r.to_multiset() =~= s.to_multiset().insert(x));
    }
}

/// The ordered entries are in order, and they are the same entries.
pub proof fn law_sorted(s: Seq<Keyed>)
    ensures
        in_order(sorted(s)),
        sorted(s).to_multiset() == s.to_multiset(),
        sorted(s).len() == s.len(),
    decreases s.len(),
{
    broadcast use vstd::seq_lib::group_to_multiset_ensures;

    if s.len() > 0 {
        law_sorted(s.drop_last());
        lemma_insert_keeps_order(sorted(s.drop_last()), s.last());
        assert(s =~= s.drop_last().push(s.last()));
    }
}

/// A configured variable stands in the block's variables as it was configured,
/// and an essential one that was not configured with its own value.
pub proof fn law_configured_vars_win(
    env: Seq<(Seq<char>, Seq<char>)>,
    root: Seq<char>,
    name: Seq<char>,
)
    ensures
        value_of(env, name, false) is Some ==> value_of(block_vars(env, root), name, false)
            == value_of(env, name, false),
        value_of(env, name, false) is None ==> value_of(block_vars(env, root), name, false)
            == value_of(essentials(root), name, false),
{
    lemma_missing(env, essentials(root), name);
}

proof fn lemma_missing(
    env: Seq<(Seq<char>, Seq<char>)>,
    vars: Seq<(Seq<char>, Seq<char>)>,
    name: Seq<char>,
)
    ensures
        value_of(env + missing_from(env, vars), name, false) == (match value_of(env, name, false) {
            Some(v) => Some(v),
            None => value_of(vars, name, false),
        }),
    decreases vars.len(),
{
    let m = missing_from(env, vars);
    if vars.len() == 0 {
        assert(env + m =~= env);
    } else {
        lemma_missing(env, vars.drop_last(), name);
        let init = missing_from(env, vars.drop_last());
        if value_of(env, vars.last().0, false) is None {
            assert((env + m).drop_last() =~= env + init);
            assert((env + m).last() == vars.last());
        }
    }
}

fn order_chars(a: &[char], b: &[char]) -> (r: bool)
    ensures
        r == before_or_same(a@, b@),
{
    let mut i: usize = 0;
    proof {
        assert(a@.skip(0) =~= a@);
        assert(b@.skip(0) =~= b@);
    }
    while i < a.len()
        invariant
            i <= a.len(),
            i <= b.len(),
            before_or_same(a@, b@) == before_or_same(a@.skip(i as int), b@.skip(i as int)),
        decreases a.len() - i,
    {
        if i == b.len() {
            return false;
        }
        proof {
            assert(a@.skip(i as int).skip(1) =~= a@.skip(i + 1));
            assert(b@.skip(i as int).skip(1) =~= b@.skip(i + 1));
        }
        if a[i] != b[i] {
            return (a[i] as u32) < (b[i] as u32);
        }
        i = i + 1;
    }
    true
}

/// Whether `a` stands before `b` or is the same, by code point.
pub fn stands_before(a: &str, b: &str) -> (r: bool)
    ensures
        r == before_or_same(a@, b@),
{
    let x = chars_of(a);
    let y = chars_of(b);
    order_chars(x.as_slice(), y.as_slice())
}

/// What a list of keyed entries holds.
pub open spec fn keyed_texts(v: Seq<(String, String)>) -> Seq<Keyed> {
    Seq::new(v.len(), |i: int| (v[i].0@, v[i].1@))
}

proof fn lemma_insert_at(s: Seq<Keyed>, x: Keyed, i: int)
    requires
        0 <= i <= s.len(),
        forall|j: int| i <= j < s.len() ==> !before_or_same((#[trigger] s[j]).0, x.0),
        i > 0 ==> before_or_same(s[i - 1].0, x.0),
    ensures
        insert_sorted(s, x) == s.insert(i, x),
    decreases s.len(),
{
    if i == s.len() {
        assert(s.insert(i, x) =~= s.push(x));
        if s.len() == 0 {
            assert(s.push(x) =~= seq![x]);
        }
    } else {
        let init = s.drop_last();
        assert forall|j: int| i <= j < init.len() implies !before_or_same(
            (#[trigger] init[j]).0,
            x.0,
        ) by {
            assert(s[j] == init[j]);
        }
        assert(s[s.len() - 1] == s.last());
        lemma_insert_at(init, x, i);
        assert(init.insert(i, x).push(s.last()) =~= s.insert(i, x));
    }
}

/// Puts entries in the order of their keys; those with equal keys stay as they
/// were.
pub fn sort_entries(entries: Vec<(String, String)>) -> (out: Vec<(String, String)>)
    ensures
        keyed_texts(out@) == sorted(keyed_texts(entries@)),
{
    let mut out: Vec<(String, String)> = Vec::new();
    let mut i: usize = 0;
    let ghost all = keyed_texts(entries@);
    proof {
        assert(all.take(0) =~= Seq::<Keyed>::empty());
        assert(keyed_texts(out@) =~= Seq::<Keyed>::empty());
    }
    while i < entries.len()
        invariant
            i <= entries.len(),
            all == keyed_texts(entries@),
            keyed_texts(out@) == sorted(all.take(i as int)),
        decreases entries.len() - i,
    {
        let mut at: usize = out.len();
        while at > 0 && !stands_before(out[at - 1].0.as_str(), entries[i].0.as_str())
            invariant
                at <= out.len(),
                i < entries.len(),
                forall|j: int|
                    at <= j < out.len() ==> !before_or_same(
                        (#[trigger] keyed_texts(out@)[j]).0,
                        entries[i as int].0@,
                    ),
            decreases at,
        {
            assert(keyed_texts(out@)[at - 1].0 == out[at - 1].0@);
            at = at - 1;
        }
        let e = (entries[i].0.clone(), entries[i].1.clone());
        let ghost sofar = out@;
        out.insert(at, e);
        proof {
            let x = (e.0@, e.1@);
            let t = all.take(i + 1);
            assert(t.drop_last() =~= all.take(i as int));
            assert(t.last() == x);
            if at > 0 {
                assert(keyed_texts(sofar)[at - 1].0 == sofar[at - 1].0@);
            }
            lemma_insert_at(keyed_texts(sofar), x, at as int);
            assert(keyed_texts(out@) =~= keyed_texts(sofar).insert(at as int, x));
        }
        i = i + 1;
    }
    assert(all.take(all.len() as int) =~= all);
    out
}

fn push_entry(entries: &mut Vec<(String, String)>, name: &str, value: &str)
    ensures
        pairs(final(entries)@) == pairs(old(entries)@).push((name@, value@)),
{
    let ghost before = entries@;
    entries.push((name.to_owned(), value.to_owned()));
    assert(pairs(entries@) =~= pairs(before).push((name@, value@)));
}

fn essential_vars(root: &str) -> (v: Vec<(String, String)>)
    ensures
        pairs(v@) == essentials(root@),
{
    let mut v: Vec<(String, String)> = Vec::new();
    let windows = concat2(root, "\\Windows");
    let temp = concat2(root, "\\Temp");
    let profile = concat2(root, "\\Users\\ContainerUser");
    let system = concat2(root, "\\Windows\\System32;");
    let bin = concat2(root, "\\bin;");
    let node = concat2(root, "\\nodejs");
    let path = concat3(system.as_str(), bin.as_str(), node.as_str());
    push_entry(&mut v, "SystemRoot", windows.as_str());
    push_entry(&mut v, "SystemDrive", "C:");
    push_entry(&mut v, "TEMP", temp.as_str());
    push_entry(&mut v, "TMP", temp.as_str());
    push_entry(&mut v, "USERPROFILE", profile.as_str());
    push_entry(&mut v, "PATHEXT", ".COM;.EXE;.BAT;.CMD;.PS1");
    push_entry(&mut v, "PATH", path.as_str());
    proof {
        assert(path@ =~= root@ + "\\Windows\\System32;"@ + root@ + "\\bin;"@ + root@
            + "\\nodejs"@);
        assert(pairs(v@) =~= essentials(root@));
    }
    v
}

/// The variables of a container's block, before they are ordered.
pub fn block_entries(env: &Vec<(String, String)>, root: &str) -> (out: Vec<(String, String)>)
    ensures
        pairs(out@) == block_vars(pairs(env@), root@),
{
    let mut out: Vec<(String, String)> = Vec::new();
    let ghost conf = pairs(env@);
    let mut i: usize = 0;
    while i < env.len()
        invariant
            i <= env.len(),
            conf == pairs(env@),
            pairs(out@) =~= conf.take(i as int),
        decreases env.len() - i,
    {
        push_entry(&mut out, env[i].0.as_str(), env[i].1.as_str());
        assert(conf.take(i + 1) =~= conf.take(i as int).push(conf[i as int]));
        i = i + 1;
    }
    assert(conf.take(conf.len() as int) =~= conf);
    let base = essential_vars(root);
    let ghost ess = pairs(base@);
    let mut j: usize = 0;
    proof {
        assert(ess.take(0) =~= Seq::<(Seq<char>, Seq<char>)>::empty());
        assert(conf + Seq::<(Seq<char>, Seq<char>)>::empty() =~= conf);
    }
    while j < base.len()
        invariant
            j <= base.len(),
            conf == pairs(env@),
            ess == pairs(base@),
            pairs(out@) == conf + missing_from(conf, ess.take(j as int)),
        decreases base.len() - j,
    {
        proof {
            let t = ess.take(j + 1);
            assert(t.drop_last() =~= ess.take(j as int));
            assert(t.last() == ess[j as int]);
        }
        let configured = get_var(env, base[j].0.as_str(), false);
        if configured.is_none() {
            let ghost m = missing_from(conf, ess.take(j as int));
            push_entry(&mut out, base[j].0.as_str(), base[j].1.as_str());
            assert((conf + m).push(ess[j as int]) =~= conf + m.push(ess[j as int]));
        }
        j = j + 1;
    }
    assert(ess.take(ess.len() as int) =~= ess);
    out
}

/// The block of entries: `out` is each entry with a terminating 0, and a 0 at
/// the end.
pub fn encode_block(entries: &Vec<(String, String)>) -> (block: Vec<u16>)
    ensures
        block@ == entries_block(unkeyed(keyed_texts(entries@))).push(0),
{
    let mut block: Vec<u16> = Vec::new();
    let ghost all = unkeyed(keyed_texts(entries@));
    let mut i: usize = 0;
    assert(all.take(0) =~= Seq::<Seq<char>>::empty());
    while i < entries.len()
        invariant
            i <= entries.len(),
            all == unkeyed(keyed_texts(entries@)),
            block@ == entries_block(all.take(i as int)),
        decreases entries.len() - i,
    {
        let ghost sofar = block@;
        push_utf16(&mut block, entries[i].1.as_str());
        block.push(0);
        proof {
            let t = all.take(i + 1);
            assert(t.drop_last() =~= all.take(i as int));
            assert(t.last() == entries[i as int].1@);
            assert(block@ =~= sofar + utf16(entries[i as int].1@).push(0));
        }
        i = i + 1;
    }
    assert(all.take(all.len() as int) =~= all);
    block.push(0);
    block
}

/// The environment block of a container whose configured variables are `env`
/// and whose root directory is `root`.
pub fn build_env_block(env: &Vec<(String, String)>, root: &str) -> (block: Vec<u16>)
    ensures
        block@ == env_block(pairs(env@), root@),
{
    let vars = block_entries(env, root);
    let mut entries: Vec<(String, String)> = Vec::new();
    let ghost texts = entry_texts(pairs(vars@));
    let mut i: usize = 0;
    while i < vars.len()
        invariant
            i <= vars.len(),
            texts == entry_texts(pairs(vars@)),
            keyed_texts(entries@) =~= keyed(texts.take(i as int)),
        decreases vars.len() - i,
    {
        let text = concat3(vars[i].0.as_str(), "=", vars[i].1.as_str());
        let key = to_lowercase(text.as_str());
        let ghost sofar = entries@;
        entries.push((key, text));
        proof {
            assert(texts[i as int] == text@);
            assert(keyed_texts(entries@) =~= keyed_texts(sofar).push((key@, text@)));
            assert(keyed(texts.take(i + 1)) =~= keyed(texts.take(i as int)).push(
                (unicode_lower(text@), text@),
            ));
        }
        i = i + 1;
    }
    assert(texts.take(texts.len() as int) =~= texts);
    let ordered = sort_entries(entries);
    encode_block(&ordered)
}

/// The environment block of variables in the order that they are given in.
pub fn build_env_block_w(vars: &Vec<(String, String)>) -> (block: Vec<u16>)
    ensures
        block@ == entries_block(entry_texts(pairs(vars@))).push(0),
{
    let mut block: Vec<u16> = Vec::new();
    let ghost all = entry_texts(pairs(vars@));
    let mut i: usize = 0;
    assert(all.take(0) =~= Seq::<Seq<char>>::empty());
    while i < vars.len()
        invariant
            i <= vars.len(),
            all == entry_texts(pairs(vars@)),
            block@ == entries_block(all.take(i as int)),
        decreases vars.len() - i,
    {
        let ghost sofar = block@;
        let text = concat3(vars[i].0.as_str(), "=", vars[i].1.as_str());
        push_utf16(&mut block, text.as_str());
        block.push(0);
        proof {
            let t = all.take(i + 1);
            assert(t.drop_last() =~= all.take(i as int));
            assert(t.last() == text@);
            assert(block@ =~= sofar + utf16(text@).push(0));
        }
        i = i + 1;
    }
    assert(all.take(all.len() as int) =~= all);
    block.push(0);
    block
}

/// What a process with a restricted token finds where its container sets nothing
/// else: its own directories, and programs in the system directory of its root,
/// in `bin` and in `nodejs`.
pub proof fn law_essential_variables(env: Seq<(Seq<char>, Seq<char>)>, root: Seq<char>)
    ensures
        ({
            let b = block_vars(env, root);
            &&& value_of(env, "SystemRoot"@, false) is None ==> value_of(b, "SystemRoot"@, false)
                == Some(root + "\\Windows"@)
            &&& value_of(env, "SystemDrive"@, false) is None ==> value_of(b, "SystemDrive"@, false)
                == Some("C:"@)
            &&& value_of(env, "TEMP"@, false) is None ==> value_of(b, "TEMP"@, false) == Some(
                root + "\\Temp"@,
            )
            &&& value_of(env, "TMP"@, false) is None ==> value_of(b, "TMP"@, false) == Some(
                root + "\\Temp"@,
            )
            &&& value_of(env, "USERPROFILE"@, false) is None ==> value_of(b, "USERPROFILE"@, false)
                == Some(root + "\\Users\\ContainerUser"@)
            &&& value_of(env, "PATHEXT"@, false) is None ==> value_of(b, "PATHEXT"@, false) == Some(
                ".COM;.EXE;.BAT;.CMD;.PS1"@,
            )
            &&& value_of(env, "PATH"@, false) is None ==> value_of(b, "PATH"@, false) == Some(
                root + "\\Windows\\System32;"@ + root + "\\bin;"@ + root + "\\nodejs"@,
            )
        }),
{
    law_configured_vars_win(env, root, "SystemRoot"@);
    law_configured_vars_win(env, root, "SystemDrive"@);
    law_configured_vars_win(env, root, "TEMP"@);
    law_configured_vars_win(env, root, "TMP"@);
    law_configured_vars_win(env, root, "USERPROFILE"@);
    law_configured_vars_win(env, root, "PATHEXT"@);
    law_configured_vars_win(env, root, "PATH"@);
    lemma_essential_values(root);
}

proof fn lemma_essential_values(root: Seq<char>)
    ensures
        value_of(essentials(root), "SystemRoot"@, false) == Some(root + "\\Windows"@),
        value_of(essentials(root), "SystemDrive"@, false) == Some("C:"@),
        value_of(essentials(root), "TEMP"@, false) == Some(root + "\\Temp"@),
        value_of(essentials(root), "TMP"@, false) == Some(root + "\\Temp"@),
        value_of(essentials(root), "USERPROFILE"@, false) == Some(
            root + "\\Users\\ContainerUser"@,
        ),
        value_of(essentials(root), "PATHEXT"@, false) == Some(".COM;.EXE;.BAT;.CMD;.PS1"@),
        value_of(essentials(root), "PATH"@, false) == Some(
            root + "\\Windows\\System32;"@ + root + "\\bin;"@ + root + "\\nodejs"@,
        ),
{
    reveal_with_fuel(value_of, 8);
    reveal_strlit("SystemRoot");
    reveal_strlit("SystemDrive");
    reveal_strlit("TEMP");
    reveal_strlit("TMP");
    reveal_strlit("USERPROFILE");
    reveal_strlit("PATHEXT");
    reveal_strlit("PATH");
    assert("SystemRoot"@.len() == 10 && "SystemDrive"@.len() == 11 && "TEMP"@.len() == 4);
    assert("TMP"@.len() == 3 && "USERPROFILE"@.len() == 11 && "PATHEXT"@.len() == 7);
    assert("PATH"@.len() == 4);
    assert("SystemDrive"@[0] != "USERPROFILE"@[0]);
    assert("TEMP"@[0] != "PATH"@[0]);
    let e = essentials(root);
    assert(e.drop_last().last() == e[5]);
    assert(e.drop_last().drop_last().last() == e[4]);
    assert(e.drop_last().drop_last().drop_last().last() == e[3]);
    assert(e.drop_last().drop_last().drop_last().drop_last().last() == e[2]);
    assert(e.drop_last().drop_last().drop_last().drop_last().drop_last().last() == e[1]);
    assert(e.drop_last().drop_last().drop_last().drop_last().drop_last().drop_last().last()
        == e[0]);
}

/// A block is its entries one after the other, each as `NAME=value` in UTF-16
/// with a 0 behind it, and one more 0 at the end.
pub proof fn law_block_layout(
    entries: Seq<Seq<char>>,
    name: Seq<char>,
    value: Seq<char>,
    env: Seq<(Seq<char>, Seq<char>)>,
    root: Seq<char>,
)
    ensures
        entries_block(Seq::empty()) == Seq::<u16>::empty(),
        entries_block(entries.push(entry_text(name, value))) == entries_block(entries) + utf16(
            name + "="@ + value,
        ) + seq![0u16],
        env_block(env, root).last() == 0,
        env_block(env, root).len() >= 1,
{
    let x = entry_text(name, value);
    assert(entries.push(x).drop_last() =~= entries);
    assert(entries_block(entries) + utf16(x).push(0) =~= entries_block(entries) + utf16(x) + seq![
        0u16,
    ]);
}

} // verus!
