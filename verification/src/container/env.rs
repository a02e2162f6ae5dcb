//! Environment variables.
//!
//! An environment is a list of names and values in which no name occurs twice.
//! Windows does not tell names apart by case: `fold` says whether names are
//! compared that way.

use crate::text::{ascii_lower, lower, same};
use vstd::prelude::*;

verus! {

/// What a list of variables holds.
pub open spec fn pairs(v: Seq<(String, String)>) -> Seq<(Seq<char>, Seq<char>)> {
    Seq::new(v.len(), |i: int| (v[i].0@, v[i].1@))
}

/// Whether two names are of the same variable.
pub open spec fn same_name(a: Seq<char>, b: Seq<char>, fold: bool) -> bool {
    if fold {
        ascii_lower(a) == ascii_lower(b)
    } else {
        a == b
    }
}

/// The value of a variable.
pub open spec fn value_of(env: Seq<(Seq<char>, Seq<char>)>, name: Seq<char>, fold: bool) -> Option<
    Seq<char>,
>
    decreases env.len(),
{
    if env.len() == 0 {
        None
    } else if same_name(env.last().0, name, fold) {
        Some(env.last().1)
    } else {
        value_of(env.drop_last(), name, fold)
    }
}

/// The environment without a variable.
pub open spec fn without(env: Seq<(Seq<char>, Seq<char>)>, name: Seq<char>, fold: bool) -> Seq<
    (Seq<char>, Seq<char>),
>
    decreases env.len(),
{
    if env.len() == 0 {
        env
    } else if same_name(env.last().0, name, fold) {
        without(env.drop_last(), name, fold)
    } else {
        without(env.drop_last(), name, fold).push(env.last())
    }
}

/// The environment in which a variable has a value.
pub open spec fn with_value(
    env: Seq<(Seq<char>, Seq<char>)>,
    name: Seq<char>,
    value: Seq<char>,
    fold: bool,
) -> Seq<(Seq<char>, Seq<char>)> {
    without(env, name, fold).push((name, value))
}

/// The environment after a variable got a value or lost it.
pub open spec fn with_option(
    env: Seq<(Seq<char>, Seq<char>)>,
    name: Seq<char>,
    value: Option<Seq<char>>,
    fold: bool,
) -> Seq<(Seq<char>, Seq<char>)> {
    match value {
        Some(v) => with_value(env, name, v, fold),
        None => without(env, name, fold),
    }
}

/// A variable that was taken out has no value, and every other keeps its own.
pub proof fn law_value_without(
    env: Seq<(Seq<char>, Seq<char>)>,
    name: Seq<char>,
    other: Seq<char>,
    fold: bool,
)
    ensures
        value_of(without(env, name, fold), other, fold) == (if same_name(name, other, fold) {
            None
        } else {
            value_of(env, other, fold)
        }),
    decreases env.len(),
{
    if env.len() > 0 {
        law_value_without(env.drop_last(), name, other, fold);
        let w = without(env.drop_last(), name, fold);
        if !same_name(env.last().0, name, fold) {
            assert(w.push(env.last()).drop_last() =~= w);
        }
    }
}

/// A variable that was set has its new value, and every other keeps its own.
pub proof fn law_value_with(
    env: Seq<(Seq<char>, Seq<char>)>,
    name: Seq<char>,
    value: Seq<char>,
    other: Seq<char>,
    fold: bool,
)
    ensures
        value_of(with_value(env, name, value, fold), other, fold) == (if same_name(
            name,
            other,
            fold,
        ) {
            Some(value)
        } else {
            value_of(env, other, fold)
        }),
{
    law_value_without(env, name, other, fold);
    let w = without(env, name, fold);
    assert(w.push((name, value)).drop_last() =~= w);
}

/// Whether two names are of the same variable.
pub fn names_match(a: &str, b: &str, fold: bool) -> (r: bool)
    ensures
        r == same_name(a@, b@, fold),
{
    if fold {
        let x = lower(a);
        let y = lower(b);
        same(x.as_str(), y.as_str())
    } else {
        same(a, b)
    }
}

/// The value of a variable.
pub fn get_var(env: &Vec<(String, String)>, name: &str, fold: bool) -> (r: Option<String>)
    ensures
        match r {
            Some(v) => value_of(pairs(env@), name@, fold) == Some(v@),
            None => value_of(pairs(env@), name@, fold) is None,
        },
{
    let mut i: usize = env.len();
    assert(pairs(env@).take(i as int) =~= pairs(env@));
    while i > 0
        invariant
            i <= env.len(),
            value_of(pairs(env@), name@, fold) == value_of(
                pairs(env@).take(i as int),
                name@,
                fold,
            ),
        decreases i,
    {
        proof {
            let p = pairs(env@).take(i as int);
            assert(p.drop_last() =~= pairs(env@).take(i - 1));
            assert(p.last() == pairs(env@)[i - 1]);
        }
        i = i - 1;
        if names_match(env[i].0.as_str(), name, fold) {
            return Some(env[i].1.clone());
        }
    }
    None
}

/// The variables of `env` but for one.
pub fn remove_var(env: &Vec<(String, String)>, name: &str, fold: bool) -> (out: Vec<
    (String, String),
>)
    ensures
        pairs(out@) == without(pairs(env@), name@, fold),
{
    let mut out: Vec<(String, String)> = Vec::new();
    let mut i: usize = 0;
    assert(pairs(out@) =~= Seq::<(Seq<char>, Seq<char>)>::empty());
    assert(pairs(env@).take(0) =~= Seq::<(Seq<char>, Seq<char>)>::empty());
    while i < env.len()
        invariant
            i <= env.len(),
            pairs(out@) == without(pairs(env@).take(i as int), name@, fold),
        decreases env.len() - i,
    {
        proof {
            let p = pairs(env@).take(i + 1);
            assert(p.drop_last() =~= pairs(env@).take(i as int));
            assert(p.last() == pairs(env@)[i as int]);
        }
        if !names_match(env[i].0.as_str(), name, fold) {
            let ghost before = out@;
            let e = (env[i].0.clone(), env[i].1.clone());
            out.push(e);
            assert(pairs(out@) =~= pairs(before).push((e.0@, e.1@)));
        }
        i = i + 1;
    }
    assert(pairs(env@).take(env@.len() as int) =~= pairs(env@));
    out
}

/// Gives a variable a value.
pub fn set_var(env: &mut Vec<(String, String)>, name: &str, value: &str, fold: bool)
    ensures
        pairs(final(env)@) == with_value(pairs(old(env)@), name@, value@, fold),
{
    let mut out = remove_var(env, name, fold);
    let ghost before = out@;
    out.push((name.to_owned(), value.to_owned()));
    assert(pairs(out@) =~= pairs(before).push((name@, value@)));
    *env = out;
}

} // verus!
