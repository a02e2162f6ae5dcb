//! The environment of a sandboxed process.
//!
//! A process in an AppContainer inherits the environment of its parent, so the
//! parent hides what would tell the child about the host, sets what the child
//! is to see, starts it, and puts its own environment back. Names are compared
//! without regard to case, as Windows does.

use crate::container::env::{
    get_var, law_value_with, law_value_without, names_match, pairs, remove_var, same_name, set_var,
    value_of, with_option, with_value, without,
};
use crate::text::{
    ascii_lower, concat2, concat3, contains, lemma_split_head, lemma_split_one, literals,
    lower_char, occurs, same, split, to_lowercase, unicode_lower,
};
use vstd::prelude::*;

verus! {

/// An environment: names and values.
pub type Vars = Seq<(Seq<char>, Seq<char>)>;

/// What variables held before they were changed; `None` for no value.
pub type Saved = Seq<(Seq<char>, Option<Seq<char>>)>;

/// The variables that tell about the host.
pub const SANITIZED_VARS: [&'static str; 46] = [
    "PATH",
    "PATHEXT",
    "TEMP",
    "TMP",
    "USERPROFILE",
    "HOMEPATH",
    "HOMEDRIVE",
    "HOMEDIR",
    "APPDATA",
    "LOCALAPPDATA",
    "PROGRAMDATA",
    "USERNAME",
    "USERDOMAIN",
    "USERDOMAIN_ROAMINGPROFILE",
    "SystemRoot",
    "windir",
    "SystemDrive",
    "COMPUTERNAME",
    "LOGONSERVER",
    "PROCESSOR_ARCHITECTURE",
    "PROCESSOR_IDENTIFIER",
    "NUMBER_OF_PROCESSORS",
    "OS",
    "PROMPT",
    "TERM_PROGRAM",
    "TERM_PROGRAM_VERSION",
    "VSCODE_GIT_IPC_HANDLE",
    "VSCODE_GIT_ASKPASS_MAIN",
    "VSCODE_GIT_ASKPASS_NODE",
    "VSCODE_INJECTION",
    "GIT_ASKPASS",
    "ELECTRON_RUN_AS_NODE",
    "CHROME_CRASHPAD_PIPE_NAME",
    "PSModulePath",
    "PSMODULEPATH",
    "CARGO_HOME",
    "RUSTUP_HOME",
    "NVM_HOME",
    "NVM_SYMLINK",
    "GOPATH",
    "GOROOT",
    "JAVA_HOME",
    "PYTHONPATH",
    "PNPM_HOME",
    "npm_config_cache",
    "CONDA_PREFIX",
];

/// The variables that a sandbox sets.
pub const SANDBOX_KEYS: [&'static str; 16] = [
    "PATH",
    "PATHEXT",
    "TEMP",
    "TMP",
    "USERPROFILE",
    "HOMEPATH",
    "HOMEDRIVE",
    "APPDATA",
    "LOCALAPPDATA",
    "SystemRoot",
    "windir",
    "SystemDrive",
    "USERNAME",
    "COMPUTERNAME",
    "OS",
    "PROMPT",
];

/// The directories that a sandboxed process searches for programs.
pub open spec fn sandbox_path(root: Seq<char>, bin: bool, node: bool) -> Seq<char> {
    root + "\\Windows\\System32"@ + (if bin {
        ";"@ + root + "\\bin"@
    } else {
        Seq::empty()
    }) + (if node {
        ";"@ + root + "\\nodejs"@
    } else {
        Seq::empty()
    })
}

/// The variables of a sandbox whose root directory is `root`. `bin` and `node`
/// say whether the directories of those tools are there.
pub open spec fn sandbox_vars(root: Seq<char>, bin: bool, node: bool) -> Vars {
    seq![
        ("PATH"@, sandbox_path(root, bin, node)),
        ("PATHEXT"@, ".COM;.EXE;.BAT;.CMD;.PS1"@),
        ("TEMP"@, root + "\\Temp"@),
        ("TMP"@, root + "\\Temp"@),
        ("USERPROFILE"@, root + "\\Users\\ContainerUser"@),
        ("HOMEPATH"@, "\\Users\\ContainerUser"@),
        ("HOMEDRIVE"@, "C:"@),
        ("APPDATA"@, root + "\\Users\\ContainerUser\\AppData\\Roaming"@),
        ("LOCALAPPDATA"@, root + "\\Users\\ContainerUser\\AppData\\Local"@),
        ("SystemRoot"@, root + "\\Windows"@),
        ("windir"@, root + "\\Windows"@),
        ("SystemDrive"@, "C:"@),
        ("USERNAME"@, "ContainerUser"@),
        ("COMPUTERNAME"@, "PSROOT"@),
        ("OS"@, "Windows_NT"@),
        ("PROMPT"@, "psroot$G "@),
    ]
}

/// The environment without any of the variables.
pub open spec fn without_all(env: Vars, names: Seq<Seq<char>>) -> Vars
    decreases names.len(),
{
    if names.len() == 0 {
        env
    } else {
        without(without_all(env, names.drop_last()), names.last(), true)
    }
}

/// The environment in which each of the variables has its new value.
pub open spec fn with_all(env: Vars, vars: Vars) -> Vars
    decreases vars.len(),
{
    if vars.len() == 0 {
        env
    } else {
        with_value(with_all(env, vars.drop_last()), vars.last().0, vars.last().1, true)
    }
}

/// What the variables held when they were taken out one after the other. A
/// variable that is named twice is saved once.
pub open spec fn taken(env: Vars, names: Seq<Seq<char>>) -> Saved
    decreases names.len(),
{
    if names.len() == 0 {
        Seq::empty()
    } else {
        let init = names.drop_last();
        let rest = taken(env, init);
        if listed(names.last(), init) {
            rest
        } else {
            rest.push((names.last(), value_of(without_all(env, init), names.last(), true)))
        }
    }
}

/// What the variables held when they were set one after the other.
pub open spec fn replaced_values(env: Vars, vars: Vars) -> Saved
    decreases vars.len(),
{
    if vars.len() == 0 {
        Seq::empty()
    } else {
        let init = vars.drop_last();
        replaced_values(env, init).push(
            (vars.last().0, value_of(with_all(env, init), vars.last().0, true)),
        )
    }
}

/// Whether a value, in lower case, tells about the host: it names a user's
/// directory other than the sandbox, application data or installed programs.
pub open spec fn tells_host(lowered: Seq<char>, lowered_root: Seq<char>) -> bool {
    ||| occurs(lowered, "\\users\\"@) && !occurs(lowered, lowered_root)
    ||| occurs(lowered, "\\appdata\\"@)
    ||| occurs(lowered, "program files"@)
}

/// Whether a name is of one of the listed variables.
pub open spec fn listed(name: Seq<char>, names: Seq<Seq<char>>) -> bool {
    exists|i: int| 0 <= i < names.len() && same_name(#[trigger] names[i], name, true)
}

/// The other variables whose values tell about the host.
pub open spec fn telling(env: Vars, root: Seq<char>, names: Seq<Seq<char>>) -> Vars
    decreases env.len(),
{
    if env.len() == 0 {
        Seq::empty()
    } else {
        let rest = telling(env.drop_last(), root, names);
        let (k, v) = env.last();
        if !listed(k, names) && tells_host(unicode_lower(v), unicode_lower(root)) {
            rest.push((k, v))
        } else {
            rest
        }
    }
}

/// The names of variables.
pub open spec fn keys(vars: Vars) -> Seq<Seq<char>> {
    Seq::new(vars.len(), |i: int| vars[i].0)
}

/// Values to be put back.
pub open spec fn as_saved(vars: Vars) -> Saved {
    Seq::new(vars.len(), |i: int| (vars[i].0, Some(vars[i].1)))
}

/// The environment after the variables that tell about the host were hidden.
pub open spec fn hidden(env: Vars, root: Seq<char>) -> Vars {
    let names = literals(SANITIZED_VARS@);
    let first = without_all(env, names);
    without_all(first, keys(telling(first, root, names)))
}

/// What hiding them saved.
pub open spec fn hidden_values(env: Vars, root: Seq<char>) -> Saved {
    let names = literals(SANITIZED_VARS@);
    taken(env, names) + as_saved(telling(without_all(env, names), root, names))
}

/// The environment of a sandboxed process: nothing that tells about the host,
/// the sandbox's own variables, and over them those that the user asked for.
pub open spec fn sandboxed(env: Vars, root: Seq<char>, bin: bool, node: bool, user: Vars) -> Vars {
    with_all(with_all(hidden(env, root), sandbox_vars(root, bin, node)), user)
}

/// What has to be put back after a sandbox.
pub open spec fn sandbox_saved(
    env: Vars,
    root: Seq<char>,
    bin: bool,
    node: bool,
    user: Vars,
) -> Saved {
    hidden_values(env, root) + replaced_values(
        with_all(hidden(env, root), sandbox_vars(root, bin, node)),
        user,
    )
}

/// The environment after the saved values were put back, the newest first, so
/// that a variable ends with the oldest value that was saved of it.
pub open spec fn put_back(env: Vars, saved: Saved) -> Vars
    decreases saved.len(),
{
    if saved.len() == 0 {
        env
    } else {
        put_back(
            with_option(env, saved.last().0, saved.last().1, true),
            saved.drop_last(),
        )
    }
}

/// The environment after a sandbox: its variables are taken out and the saved
/// values put back.
pub open spec fn restored(env: Vars, saved: Saved) -> Vars {
    put_back(without_all(env, literals(SANDBOX_KEYS@)), saved)
}

proof fn lemma_without_all(env: Vars, names: Seq<Seq<char>>, name: Seq<char>)
    ensures
        value_of(without_all(env, names), name, true) == (if listed(name, names) {
            None
        } else {
            value_of(env, name, true)
        }),
    decreases names.len(),
{
    if names.len() > 0 {
        let init = names.drop_last();
        lemma_without_all(env, init, name);
        law_value_without(without_all(env, init), names.last(), name, true);
        assert(names.last() == names[names.len() - 1]);
        if listed(name, init) {
            let i = choose|i: int| 0 <= i < init.len() && same_name(#[trigger] init[i], name, true);
            assert(same_name(names[i], name, true));
        }
        if listed(name, names) && !same_name(names.last(), name, true) {
            let i = choose|i: int|
                0 <= i < names.len() && same_name(#[trigger] names[i], name, true);
            assert(same_name(init[i], name, true));
        }
    }
}

proof fn lemma_with_all(env: Vars, vars: Vars, name: Seq<char>)
    ensures
        !listed(name, keys(vars)) ==> value_of(with_all(env, vars), name, true) == value_of(
            env,
            name,
            true,
        ),
    decreases vars.len(),
{
    if vars.len() > 0 {
        let init = vars.drop_last();
        lemma_with_all(env, init, name);
        law_value_with(with_all(env, init), vars.last().0, vars.last().1, name, true);
        if !listed(name, keys(vars)) {
            assert(keys(vars)[vars.len() - 1] == vars.last().0);
            assert forall|i: int| 0 <= i < keys(init).len() implies !same_name(
                #[trigger] keys(init)[i],
                name,
                true,
            ) by {
                assert(keys(vars)[i] == keys(init)[i]);
            }
        }
    }
}

/// The oldest value that was saved of a variable, if one was.
pub open spec fn saved_value(saved: Saved, name: Seq<char>) -> Option<Option<Seq<char>>>
    decreases saved.len(),
{
    if saved.len() == 0 {
        None
    } else {
        match saved_value(saved.drop_last(), name) {
            Some(v) => Some(v),
            None => if same_name(saved.last().0, name, true) {
                Some(saved.last().1)
            } else {
                None
            },
        }
    }
}

proof fn lemma_put_back(env: Vars, saved: Saved, name: Seq<char>)
    ensures
        value_of(put_back(env, saved), name, true) == match saved_value(saved, name) {
            Some(v) => v,
            None => value_of(env, name, true),
        },
    decreases saved.len(),
{
    if saved.len() > 0 {
        let last = saved.last();
        lemma_put_back(with_option(env, last.0, last.1, true), saved.drop_last(), name);
        law_value_without(env, last.0, name, true);
        if last.1 is Some {
            law_value_with(env, last.0, last.1->0, name, true);
        }
    }
}

proof fn lemma_saved_push(saved: Saved, key: Seq<char>, value: Option<Seq<char>>, name: Seq<char>)
    ensures
        saved_value(saved.push((key, value)), name) == match saved_value(saved, name) {
            Some(v) => Some(v),
            None => if same_name(key, name, true) {
                Some(value)
            } else {
                None
            },
        },
{
    assert(saved.push((key, value)).drop_last() =~= saved);
}

proof fn lemma_saved_add(a: Saved, b: Saved, name: Seq<char>)
    ensures
        saved_value(a + b, name) == match saved_value(a, name) {
            Some(v) => Some(v),
            None => saved_value(b, name),
        },
    decreases b.len(),
{
    if b.len() == 0 {
        assert(a + b =~= a);
    } else {
        lemma_saved_add(a, b.drop_last(), name);
        assert((a + b).drop_last() =~= a + b.drop_last());
        assert((a + b).last() == b.last());
    }
}

/// Of a variable either its value in `before` is saved, or it still has it.
spec fn keeps(before: Vars, env: Vars, saved: Saved, name: Seq<char>) -> bool {
    match saved_value(saved, name) {
        Some(v) => v == value_of(before, name, true),
        None => value_of(env, name, true) == value_of(before, name, true),
    }
}

proof fn lemma_taken(env: Vars, names: Seq<Seq<char>>, name: Seq<char>)
    ensures
        keeps(env, without_all(env, names), taken(env, names), name),
        saved_value(taken(env, names), name) is Some <==> listed(name, names),
    decreases names.len(),
{
    if names.len() > 0 {
        let init = names.drop_last();
        let last = names.last();
        assert(names[names.len() - 1] == last);
        lemma_taken(env, init, name);
        law_value_without(without_all(env, init), last, name, true);
        lemma_saved_push(
            taken(env, init),
            last,
            value_of(without_all(env, init), last, true),
            name,
        );
        if listed(name, init) {
            let i = choose|i: int| 0 <= i < init.len() && same_name(#[trigger] init[i], name, true);
            assert(same_name(names[i], name, true));
        }
        if listed(name, names) && !same_name(last, name, true) {
            let i = choose|i: int|
                0 <= i < names.len() && same_name(#[trigger] names[i], name, true);
            assert(same_name(init[i], name, true));
        }
        if same_name(last, name, true) {
            lemma_same_value(without_all(env, init), last, name);
            if listed(last, init) {
                let i = choose|i: int|
                    0 <= i < init.len() && same_name(#[trigger] init[i], last, true);
                assert(same_name(init[i], name, true));
            }
        }
    }
}

proof fn lemma_saved_telling(t: Vars, name: Seq<char>)
    requires
        distinct_names(t),
    ensures
        match saved_value(as_saved(t), name) {
            Some(v) => v == value_of(t, name, true) && v is Some && listed(name, keys(t)),
            None => !listed(name, keys(t)),
        },
    decreases t.len(),
{
    if t.len() > 0 {
        let init = t.drop_last();
        let last = t.last();
        assert forall|i: int, j: int| 0 <= i < j < init.len() implies !same_name(
            (#[trigger] init[i]).0,
            (#[trigger] init[j]).0,
            true,
        ) by {
            assert(t[i] == init[i] && t[j] == init[j]);
        }
        lemma_saved_telling(init, name);
        assert(as_saved(t).drop_last() =~= as_saved(init));
        assert(as_saved(t).last() == (last.0, Some(last.1)));
        assert(keys(t)[t.len() - 1] == last.0);
        if listed(name, keys(init)) {
            let i = choose|i: int|
                0 <= i < keys(init).len() && same_name(#[trigger] keys(init)[i], name, true);
            assert(keys(t)[i] == keys(init)[i]);
            assert(t[i] == init[i] && t[t.len() - 1] == last);
            assert(!same_name(t[i].0, t[t.len() - 1].0, true));
        }
        if listed(name, keys(t)) && !same_name(last.0, name, true) {
            let i = choose|i: int|
                0 <= i < keys(t).len() && same_name(#[trigger] keys(t)[i], name, true);
            assert(keys(init)[i] == keys(t)[i]);
        }
    }
}

proof fn lemma_hidden_keeps(env: Vars, root: Seq<char>, name: Seq<char>)
    requires
        distinct_names(env),
    ensures
        keeps(env, hidden(env, root), hidden_values(env, root), name),
        listed(name, literals(SANITIZED_VARS@)) ==> saved_value(hidden_values(env, root), name)
            is Some,
{
    let names = literals(SANITIZED_VARS@);
    let first = without_all(env, names);
    let t = telling(first, root, names);
    lemma_taken(env, names, name);
    lemma_distinct_without_all(env, names);
    lemma_distinct_telling(first, root, names);
    lemma_telling(first, root, names);
    lemma_saved_add(taken(env, names), as_saved(t), name);
    lemma_saved_telling(t, name);
    lemma_without_all(env, names, name);
    lemma_without_all(first, keys(t), name);
    if listed(name, keys(t)) {
        let i = choose|i: int|
            0 <= i < keys(t).len() && same_name(#[trigger] keys(t)[i], name, true);
        assert(keys(t)[i] == t[i].0);
        let j = choose|j: int| 0 <= j < first.len() && first[j] == t[i];
        lemma_value_of_entry(first, j, name);
        lemma_value_of_entry(t, i, name);
    }
}

proof fn lemma_replaced_keeps(before: Vars, env: Vars, saved: Saved, vars: Vars, name: Seq<char>)
    requires
        keeps(before, env, saved, name),
    ensures
        keeps(before, with_all(env, vars), saved + replaced_values(env, vars), name),
        saved_value(saved, name) is Some ==> saved_value(
            saved + replaced_values(env, vars),
            name,
        ) is Some,
    decreases vars.len(),
{
    lemma_saved_add(saved, replaced_values(env, vars), name);
    if vars.len() == 0 {
        assert(saved + replaced_values(env, vars) =~= saved);
    } else {
        let init = vars.drop_last();
        let last = vars.last();
        let cur = with_all(env, init);
        lemma_replaced_keeps(before, env, saved, init, name);
        lemma_saved_add(saved, replaced_values(env, init), name);
        lemma_saved_push(replaced_values(env, init), last.0, value_of(cur, last.0, true), name);
        law_value_with(cur, last.0, last.1, name, true);
        if same_name(last.0, name, true) {
            lemma_same_value(cur, last.0, name);
        }
    }
}

/// No two variables of an environment have the same name.
pub open spec fn distinct_names(env: Vars) -> bool {
    forall|i: int, j: int|
        0 <= i < j < env.len() ==> !same_name(
            (#[trigger] env[i]).0,
            (#[trigger] env[j]).0,
            true,
        )
}

proof fn lemma_distinct_without(env: Vars, name: Seq<char>)
    requires
        distinct_names(env),
    ensures
        distinct_names(without(env, name, true)),
        forall|i: int|
            0 <= i < without(env, name, true).len() ==> exists|j: int|
                0 <= j < env.len() && env[j] == #[trigger] without(env, name, true)[i],
    decreases env.len(),
{
    if env.len() > 0 {
        let init = env.drop_last();
        let w = without(init, name, true);
        assert forall|i: int, j: int| 0 <= i < j < init.len() implies !same_name(
            (#[trigger] init[i]).0,
            (#[trigger] init[j]).0,
            true,
        ) by {
            assert(env[i] == init[i] && env[j] == init[j]);
        }
        lemma_distinct_without(init, name);
        let r = without(env, name, true);
        assert forall|i: int| 0 <= i < r.len() implies exists|j: int|
            0 <= j < env.len() && env[j] == #[trigger] r[i] by {
            if i < w.len() {
                assert(r[i] == w[i]);
                let j = choose|j: int| 0 <= j < init.len() && init[j] == w[i];
                assert(env[j] == r[i]);
            } else {
                assert(env[env.len() - 1] == r[i]);
            }
        }
        assert forall|i: int, j: int| 0 <= i < j < r.len() implies !same_name(
            (#[trigger] r[i]).0,
            (#[trigger] r[j]).0,
            true,
        ) by {
            assert(r[i] == w[i]);
            let a = choose|a: int| 0 <= a < init.len() && init[a] == w[i];
            assert(env[a] == w[i]);
            if j < w.len() {
                assert(r[j] == w[j]);
            } else {
                assert(r[j] == env[env.len() - 1]);
            }
        }
    }
}

proof fn lemma_distinct_without_all(env: Vars, names: Seq<Seq<char>>)
    requires
        distinct_names(env),
    ensures
        distinct_names(without_all(env, names)),
    decreases names.len(),
{
    if names.len() > 0 {
        lemma_distinct_without_all(env, names.drop_last());
        lemma_distinct_without(without_all(env, names.drop_last()), names.last());
    }
}

proof fn lemma_telling(env: Vars, root: Seq<char>, names: Seq<Seq<char>>)
    ensures
        forall|i: int|
            0 <= i < telling(env, root, names).len() ==> {
                &&& !listed((#[trigger] telling(env, root, names)[i]).0, names)
                &&& exists|j: int| 0 <= j < env.len() && env[j] == telling(env, root, names)[i]
            },
    decreases env.len(),
{
    if env.len() > 0 {
        let init = env.drop_last();
        lemma_telling(init, root, names);
        let t = telling(env, root, names);
        let u = telling(init, root, names);
        assert forall|i: int| 0 <= i < t.len() implies {
            &&& !listed((#[trigger] t[i]).0, names)
            &&& exists|j: int| 0 <= j < env.len() && env[j] == t[i]
        } by {
            if i < u.len() {
                assert(t[i] == u[i]);
                let j = choose|j: int| 0 <= j < init.len() && init[j] == u[i];
                assert(env[j] == t[i]);
            } else {
                assert(env[env.len() - 1] == t[i]);
            }
        }
    }
}

proof fn lemma_distinct_telling(env: Vars, root: Seq<char>, names: Seq<Seq<char>>)
    requires
        distinct_names(env),
    ensures
        distinct_names(telling(env, root, names)),
    decreases env.len(),
{
    if env.len() > 0 {
        let init = env.drop_last();
        assert forall|i: int, j: int| 0 <= i < j < init.len() implies !same_name(
            (#[trigger] init[i]).0,
            (#[trigger] init[j]).0,
            true,
        ) by {
            assert(env[i] == init[i] && env[j] == init[j]);
        }
        lemma_distinct_telling(init, root, names);
        lemma_telling(init, root, names);
        let t = telling(env, root, names);
        let u = telling(init, root, names);
        assert forall|i: int, j: int| 0 <= i < j < t.len() implies !same_name(
            (#[trigger] t[i]).0,
            (#[trigger] t[j]).0,
            true,
        ) by {
            assert(t[i] == u[i]);
            if j < u.len() {
                assert(t[j] == u[j]);
            } else {
                let a = choose|a: int| 0 <= a < init.len() && init[a] == u[i];
                assert(env[a] == t[i]);
                assert(env[env.len() - 1] == t[j]);
            }
        }
    }
}

proof fn lemma_value_of_entry(env: Vars, i: int, name: Seq<char>)
    requires
        distinct_names(env),
        0 <= i < env.len(),
        same_name(env[i].0, name, true),
    ensures
        value_of(env, name, true) == Some(env[i].1),
    decreases env.len(),
{
    if i < env.len() - 1 {
        let init = env.drop_last();
        assert(env[env.len() - 1] == env.last());
        assert(!same_name(env[i].0, env[env.len() - 1].0, true));
        assert forall|a: int, b: int| 0 <= a < b < init.len() implies !same_name(
            (#[trigger] init[a]).0,
            (#[trigger] init[b]).0,
            true,
        ) by {
            assert(env[a] == init[a] && env[b] == init[b]);
        }
        lemma_value_of_entry(init, i, name);
    }
}

/// Every variable that the sandbox sets is one that it hides first.
pub proof fn lemma_sandbox_vars_sanitized(root: Seq<char>, bin: bool, node: bool, name: Seq<char>)
    ensures
        keys(sandbox_vars(root, bin, node)) == literals(SANDBOX_KEYS@),
        listed(name, literals(SANDBOX_KEYS@)) ==> listed(name, literals(SANITIZED_VARS@)),
{
    let a = literals(SANDBOX_KEYS@);
    let b = literals(SANITIZED_VARS@);
    assert(keys(sandbox_vars(root, bin, node)) =~= a);
    assert(a[0] == b[0] && a[1] == b[1] && a[2] == b[2] && a[3] == b[3] && a[4] == b[4]);
    assert(a[5] == b[5] && a[6] == b[6] && a[7] == b[8] && a[8] == b[9] && a[9] == b[14]);
    assert(a[10] == b[15] && a[11] == b[16] && a[12] == b[11] && a[13] == b[17]);
    assert(a[14] == b[22] && a[15] == b[23]);
    if listed(name, a) {
        let i = choose|i: int| 0 <= i < a.len() && same_name(#[trigger] a[i], name, true);
        let j = if i <= 6 {
            i
        } else if i <= 8 {
            i + 1
        } else if i <= 11 {
            i + 5
        } else if i == 12 {
            11
        } else if i == 13 {
            17
        } else {
            i + 8
        };
        assert(a[i] == b[j]);
        assert(same_name(b[j], name, true));
    }
}

/// A sandboxed process sees no variable of the host that tells about it: each
/// hidden variable has the sandbox's value or none, unless the user set it.
pub proof fn law_host_is_hidden(
    env: Vars,
    root: Seq<char>,
    bin: bool,
    node: bool,
    user: Vars,
    name: Seq<char>,
)
    requires
        listed(name, literals(SANITIZED_VARS@)),
        !listed(name, keys(user)),
        !listed(name, literals(SANDBOX_KEYS@)),
    ensures
        value_of(sandboxed(env, root, bin, node, user), name, true) is None,
{
    let names = literals(SANITIZED_VARS@);
    let first = without_all(env, names);
    let t = telling(first, root, names);
    lemma_without_all(env, names, name);
    lemma_without_all(first, keys(t), name);
    lemma_sandbox_vars_sanitized(root, bin, node, name);
    lemma_with_all(hidden(env, root), sandbox_vars(root, bin, node), name);
    lemma_with_all(
        with_all(hidden(env, root), sandbox_vars(root, bin, node)),
        user,
        name,
    );
}

proof fn lemma_same_value(env: Vars, a: Seq<char>, b: Seq<char>)
    requires
        same_name(a, b, true),
    ensures
        value_of(env, a, true) == value_of(env, b, true),
    decreases env.len(),
{
    if env.len() > 0 {
        lemma_same_value(env.drop_last(), a, b);
    }
}

/// What a list of saved values holds.
pub open spec fn saved_of(v: Seq<(String, Option<String>)>) -> Saved {
    Seq::new(
        v.len(),
        |i: int|
            (
                v[i].0@,
                match v[i].1 {
                    Some(s) => Some(s@),
                    None => None,
                },
            ),
    )
}

fn push_saved(saved: &mut Vec<(String, Option<String>)>, name: &str, value: Option<String>)
    ensures
        saved_of(final(saved)@) == saved_of(old(saved)@).push(
            (
                name@,
                match value {
                    Some(s) => Some(s@),
                    None => None,
                },
            ),
        ),
{
    let ghost before = saved@;
    saved.push((name.to_owned(), value));
    assert(saved_of(saved@) =~= saved_of(before).push(
        (
            name@,
            match value {
                Some(s) => Some(s@),
                None => None,
            },
        ),
    ));
}

/// Whether a name is of one of the first `n` hidden variables.
fn is_sanitized(name: &str, n: usize) -> (r: bool)
    requires
        n <= 46,
    ensures
        r == listed(name@, literals(SANITIZED_VARS@).take(n as int)),
{
    let ghost names = literals(SANITIZED_VARS@);
    let mut i: usize = 0;
    while i < n
        invariant
            i <= n <= 46,
            names == literals(SANITIZED_VARS@),
            forall|j: int|
                0 <= j < i ==> !same_name(#[trigger] names.take(n as int)[j], name@, true),
        decreases n - i,
    {
        let v: &'static str = SANITIZED_VARS[i];
        assert(names.take(n as int)[i as int] == v@);
        if names_match(v, name, true) {
            return true;
        }
        i = i + 1;
    }
    false
}

/// Whether a value in lower case tells about the host.
pub fn value_tells_host(lowered: &str, lowered_root: &str) -> (r: bool)
    ensures
        r == tells_host(lowered@, lowered_root@),
{
    (contains(lowered, "\\users\\") && !contains(lowered, lowered_root)) || contains(
        lowered,
        "\\appdata\\",
    ) || contains(lowered, "program files")
}

/// Takes the variables that tell about the host out of `env`, and returns what
/// they held.
pub fn hide_host_vars(env: &mut Vec<(String, String)>, root: &str) -> (saved: Vec<
    (String, Option<String>),
>)
    ensures
        pairs(final(env)@) == hidden(pairs(old(env)@), root@),
        saved_of(saved@) == hidden_values(pairs(old(env)@), root@),
{
    let ghost before = pairs(env@);
    let ghost names = literals(SANITIZED_VARS@);
    let mut saved: Vec<(String, Option<String>)> = Vec::new();
    let mut i: usize = 0;
    proof {
        assert(names.take(0) =~= Seq::<Seq<char>>::empty());
        assert(saved_of(saved@) =~= Seq::<(Seq<char>, Option<Seq<char>>)>::empty());
    }
    while i < SANITIZED_VARS.len()
        invariant
            i <= 46,
            names == literals(SANITIZED_VARS@),
            pairs(env@) == without_all(before, names.take(i as int)),
            saved_of(saved@) == taken(before, names.take(i as int)),
        decreases 46 - i,
    {
        let v: &'static str = SANITIZED_VARS[i];
        proof {
            let t = names.take(i + 1);
            assert(t.drop_last() =~= names.take(i as int));
            assert(t.last() == v@);
        }
        if !is_sanitized(v, i) {
            let old_value = get_var(env, v, true);
            push_saved(&mut saved, v, old_value);
        }
        let rest = remove_var(env, v, true);
        *env = rest;
        i = i + 1;
    }
    assert(names.take(46) =~= names);
    let lowered_root = to_lowercase(root);
    let ghost first = pairs(env@);
    let ghost first_saved = saved_of(saved@);
    let mut j: usize = 0;
    proof {
        assert(first.take(0) =~= Seq::<(Seq<char>, Seq<char>)>::empty());
        assert(keys(telling(first.take(0), root@, names)) =~= Seq::<Seq<char>>::empty());
        assert(first_saved + as_saved(telling(first.take(0), root@, names)) =~= first_saved);
    }
    let mut k: usize = 0;
    let mut left: Vec<(String, String)> = Vec::new();
    while k < env.len()
        invariant
            k <= env.len(),
            pairs(left@) == first.take(k as int),
            pairs(env@) == first,
        decreases env.len() - k,
    {
        let ghost sofar = left@;
        let e = (env[k].0.clone(), env[k].1.clone());
        left.push(e);
        assert(pairs(left@) =~= pairs(sofar).push((e.0@, e.1@)));
        assert(first.take(k + 1) =~= first.take(k as int).push(first[k as int]));
        k = k + 1;
    }
    assert(first.take(first.len() as int) =~= first);
    while j < env.len()
        invariant
            j <= env.len(),
            pairs(env@) == first,
            names == literals(SANITIZED_VARS@),
            lowered_root@ == unicode_lower(root@),
            pairs(left@) == without_all(
                first,
                keys(telling(first.take(j as int), root@, names)),
            ),
            saved_of(saved@) == first_saved + as_saved(
                telling(first.take(j as int), root@, names),
            ),
        decreases env.len() - j,
    {
        let ghost t0 = telling(first.take(j as int), root@, names);
        let ghost t1 = telling(first.take(j + 1), root@, names);
        proof {
            let t = first.take(j + 1);
            assert(t.drop_last() =~= first.take(j as int));
            assert(t.last() == first[j as int]);
        }
        assert(names.take(46) =~= names);
        if !is_sanitized(env[j].0.as_str(), 46) {
            let lowered = to_lowercase(env[j].1.as_str());
            if value_tells_host(lowered.as_str(), lowered_root.as_str()) {
                push_saved(&mut saved, env[j].0.as_str(), Some(env[j].1.clone()));
                left = remove_var(&left, env[j].0.as_str(), true);
                proof {
                    assert(keys(t1).drop_last() =~= keys(t0));
                    assert(keys(t1).last() == first[j as int].0);
                    assert(as_saved(t1) =~= as_saved(t0).push(
                        (first[j as int].0, Some(first[j as int].1)),
                    ));
                    assert((first_saved + as_saved(t0)).push(
                        (first[j as int].0, Some(first[j as int].1)),
                    ) =~= first_saved + as_saved(t1));
                }
            }
        }
        j = j + 1;
    }
    *env = left;
    saved
}

fn sandbox_path_text(root: &str, bin: bool, node: bool) -> (s: String)
    ensures
        s@ == sandbox_path(root@, bin, node),
{
    let mut s = concat2(root, "\\Windows\\System32");
    if bin {
        let t = concat3(";", root, "\\bin");
        s = concat2(s.as_str(), t.as_str());
    }
    if node {
        let t = concat3(";", root, "\\nodejs");
        s = concat2(s.as_str(), t.as_str());
    }
    assert(s@ =~= sandbox_path(root@, bin, node));
    s
}

/// The value of the `i`-th variable that the sandbox sets.
fn sandbox_value(root: &str, bin: bool, node: bool, i: usize) -> (s: String)
    requires
        i < 16,
    ensures
        s@ == sandbox_vars(root@, bin, node)[i as int].1,
{
    match i {
        0 => sandbox_path_text(root, bin, node),
        1 => ".COM;.EXE;.BAT;.CMD;.PS1".to_owned(),
        2 => concat2(root, "\\Temp"),
        3 => concat2(root, "\\Temp"),
        4 => concat2(root, "\\Users\\ContainerUser"),
        5 => "\\Users\\ContainerUser".to_owned(),
        6 => "C:".to_owned(),
        7 => concat2(root, "\\Users\\ContainerUser\\AppData\\Roaming"),
        8 => concat2(root, "\\Users\\ContainerUser\\AppData\\Local"),
        9 => concat2(root, "\\Windows"),
        10 => concat2(root, "\\Windows"),
        11 => "C:".to_owned(),
        12 => "ContainerUser".to_owned(),
        13 => "PSROOT".to_owned(),
        14 => "Windows_NT".to_owned(),
        _ => "psroot$G ".to_owned(),
    }
}

/// Turns `env` into the environment of a sandboxed process and returns what
/// has to be put back. `bin` and `node` say whether the sandbox has the
/// directories of those tools, `user` holds the variables that the user asked
/// for.
pub fn apply_sandbox_env(
    env: &mut Vec<(String, String)>,
    root: &str,
    bin: bool,
    node: bool,
    user: &Vec<(String, String)>,
) -> (saved: Vec<(String, Option<String>)>)
    ensures
        pairs(final(env)@) == sandboxed(pairs(old(env)@), root@, bin, node, pairs(user@)),
        saved_of(saved@) == sandbox_saved(pairs(old(env)@), root@, bin, node, pairs(user@)),
{
    let ghost start = pairs(env@);
    let mut saved = hide_host_vars(env, root);
    let ghost taken_out = saved_of(saved@);
    let ghost clean = pairs(env@);
    let ghost vars = sandbox_vars(root@, bin, node);
    let mut i: usize = 0;
    proof {
        lemma_sandbox_vars_sanitized(root@, bin, node, Seq::empty());
        assert(vars.take(0) =~= Seq::<(Seq<char>, Seq<char>)>::empty());
    }
    while i < SANDBOX_KEYS.len()
        invariant
            i <= 16,
            vars == sandbox_vars(root@, bin, node),
            keys(vars) == literals(SANDBOX_KEYS@),
            pairs(env@) == with_all(clean, vars.take(i as int)),
        decreases 16 - i,
    {
        let k: &'static str = SANDBOX_KEYS[i];
        let v = sandbox_value(root, bin, node, i);
        set_var(env, k, v.as_str(), true);
        proof {
            let t = vars.take(i + 1);
            assert(t.drop_last() =~= vars.take(i as int));
            assert(keys(vars)[i as int] == k@);
            assert(t.last() == (k@, v@));
        }
        i = i + 1;
    }
    assert(vars.take(16) =~= vars);
    let ghost set = pairs(env@);
    let mut j: usize = 0;
    proof {
        assert(pairs(user@).take(0) =~= Seq::<(Seq<char>, Seq<char>)>::empty());
        assert(taken_out + replaced_values(set, pairs(user@).take(0)) =~= taken_out);
    }
    while j < user.len()
        invariant
            j <= user.len(),
            pairs(env@) == with_all(set, pairs(user@).take(j as int)),
            saved_of(saved@) == taken_out + replaced_values(set, pairs(user@).take(j as int)),
        decreases user.len() - j,
    {
        let ghost before = saved_of(saved@);
        let ghost old_value = value_of(pairs(env@), user[j as int].0@, true);
        let prev = get_var(env, user[j].0.as_str(), true);
        push_saved(&mut saved, user[j].0.as_str(), prev);
        set_var(env, user[j].0.as_str(), user[j].1.as_str(), true);
        proof {
            let t = pairs(user@).take(j + 1);
            assert(t.drop_last() =~= pairs(user@).take(j as int));
            assert(t.last() == pairs(user@)[j as int]);
            assert(before.push((user[j as int].0@, old_value)) =~= taken_out + replaced_values(
                set,
                t,
            ));
        }
        j = j + 1;
    }
    assert(pairs(user@).take(user@.len() as int) =~= pairs(user@));
    saved
}

/// Puts an environment back after a sandbox.
pub fn restore_env(env: &mut Vec<(String, String)>, saved: &Vec<(String, Option<String>)>)
    ensures
        pairs(final(env)@) == restored(pairs(old(env)@), saved_of(saved@)),
{
    let ghost start = pairs(env@);
    let ghost names = literals(SANDBOX_KEYS@);
    let mut i: usize = 0;
    assert(names.take(0) =~= Seq::<Seq<char>>::empty());
    while i < SANDBOX_KEYS.len()
        invariant
            i <= 16,
            names == literals(SANDBOX_KEYS@),
            pairs(env@) == without_all(start, names.take(i as int)),
        decreases 16 - i,
    {
        let k: &'static str = SANDBOX_KEYS[i];
        let rest = remove_var(env, k, true);
        *env = rest;
        proof {
            let t = names.take(i + 1);
            assert(t.drop_last() =~= names.take(i as int));
            assert(t.last() == k@);
        }
        i = i + 1;
    }
    assert(names.take(16) =~= names);
    let ghost base = pairs(env@);
    let ghost all = saved_of(saved@);
    let mut j: usize = saved.len();
    assert(all.take(all.len() as int) =~= all);
    while j > 0
        invariant
            j <= saved.len(),
            all == saved_of(saved@),
            put_back(pairs(env@), all.take(j as int)) == put_back(base, all),
        decreases j,
    {
        proof {
            let t = all.take(j as int);
            assert(t.drop_last() =~= all.take(j - 1));
            assert(t.last() == all[j - 1]);
        }
        j = j - 1;
        match &saved[j].1 {
            Some(v) => {
                set_var(env, saved[j].0.as_str(), v.as_str(), true);
            },
            None => {
                let rest = remove_var(env, saved[j].0.as_str(), true);
                *env = rest;
            },
        }
    }
}

/// An environment with what has to be put back after it.
#[verifier::ext_equal]
pub struct Layered {
    pub env: Vars,
    pub saved: Saved,
}

/// The two lists with a separator between them, unless the first is empty.
pub open spec fn joined(first: Seq<char>, second: Seq<char>) -> Seq<char> {
    if first.len() == 0 {
        second
    } else {
        first + ";"@ + second
    }
}

/// The value of a variable; empty where it has none.
pub open spec fn value_or_empty(env: Vars, name: Seq<char>) -> Seq<char> {
    match value_of(env, name, true) {
        Some(v) => v,
        None => Seq::empty(),
    }
}

/// The environment after one variable of a launch plan. `PATH_PREPEND` stands
/// before the search path that is there, `PATHEXT_APPEND` after the list of
/// extensions; any other variable is set.
pub open spec fn layer_one(l: Layered, name: Seq<char>, value: Seq<char>) -> Layered {
    if name == "PATH_PREPEND"@ {
        let cur = value_or_empty(l.env, "PATH"@);
        let new = if cur.len() == 0 {
            value
        } else {
            value + ";"@ + cur
        };
        Layered {
            env: with_value(l.env, "PATH"@, new, true),
            saved: l.saved.push(("PATH"@, Some(cur))),
        }
    } else if name == "PATHEXT_APPEND"@ {
        let cur = value_or_empty(l.env, "PATHEXT"@);
        Layered {
            env: with_value(l.env, "PATHEXT"@, joined(cur, value), true),
            saved: l.saved.push(("PATHEXT"@, Some(cur))),
        }
    } else {
        Layered {
            env: with_value(l.env, name, value, true),
            saved: l.saved.push((name, value_of(l.env, name, true))),
        }
    }
}

/// The environment after the variables of a launch plan.
pub open spec fn layered(l: Layered, plan: Vars) -> Layered
    decreases plan.len(),
{
    if plan.len() == 0 {
        l
    } else {
        layer_one(layered(l, plan.drop_last()), plan.last().0, plan.last().1)
    }
}

/// The sandbox's environment with the variables of a launch plan on top.
pub fn apply_sandbox_env_with_plan(
    env: &mut Vec<(String, String)>,
    root: &str,
    bin: bool,
    node: bool,
    user: &Vec<(String, String)>,
    plan: &Vec<(String, String)>,
) -> (saved: Vec<(String, Option<String>)>)
    ensures
        (Layered { env: pairs(final(env)@), saved: saved_of(saved@) }) == layered(
            Layered {
                env: sandboxed(pairs(old(env)@), root@, bin, node, pairs(user@)),
                saved: sandbox_saved(pairs(old(env)@), root@, bin, node, pairs(user@)),
            },
            pairs(plan@),
        ),
{
    let mut saved = apply_sandbox_env(env, root, bin, node, user);
    let ghost base = Layered { env: pairs(env@), saved: saved_of(saved@) };
    let mut i: usize = 0;
    assert(pairs(plan@).take(0) =~= Seq::<(Seq<char>, Seq<char>)>::empty());
    while i < plan.len()
        invariant
            i <= plan.len(),
            (Layered { env: pairs(env@), saved: saved_of(saved@) }) == layered(
                base,
                pairs(plan@).take(i as int),
            ),
        decreases plan.len() - i,
    {
        let name = plan[i].0.as_str();
        let value = plan[i].1.as_str();
        proof {
            let t = pairs(plan@).take(i + 1);
            assert(t.drop_last() =~= pairs(plan@).take(i as int));
            assert(t.last() == (name@, value@));
        }
        if same(name, "PATH_PREPEND") {
            let cur = match get_var(env, "PATH", true) {
                Some(v) => v,
                None => String::new(),
            };
            let new = if cur.as_str().is_empty() {
                value.to_owned()
            } else {
                concat3(value, ";", cur.as_str())
            };
            push_saved(&mut saved, "PATH", Some(cur));
            set_var(env, "PATH", new.as_str(), true);
        } else if same(name, "PATHEXT_APPEND") {
            let cur = match get_var(env, "PATHEXT", true) {
                Some(v) => v,
                None => String::new(),
            };
            let new = if cur.as_str().is_empty() {
                value.to_owned()
            } else {
                concat3(cur.as_str(), ";", value)
            };
            push_saved(&mut saved, "PATHEXT", Some(cur));
            set_var(env, "PATHEXT", new.as_str(), true);
        } else {
            let prev = get_var(env, name, true);
            push_saved(&mut saved, name, prev);
            set_var(env, name, value, true);
        }
        i = i + 1;
    }
    assert(pairs(plan@).take(plan@.len() as int) =~= pairs(plan@));
    saved
}

proof fn lemma_layer_keeps(before: Vars, l: Layered, plan: Vars, name: Seq<char>)
    requires
        keeps(before, l.env, l.saved, name),
        saved_value(l.saved, "PATH"@) is Some,
        saved_value(l.saved, "PATHEXT"@) is Some,
    ensures
        ({
            let m = layered(l, plan);
            &&& keeps(before, m.env, m.saved, name)
            &&& saved_value(l.saved, name) is Some ==> saved_value(m.saved, name) is Some
            &&& saved_value(m.saved, "PATH"@) is Some
            &&& saved_value(m.saved, "PATHEXT"@) is Some
        }),
    decreases plan.len(),
{
    if plan.len() > 0 {
        let init = plan.drop_last();
        let m = layered(l, init);
        lemma_layer_keeps(before, l, init, name);
        let (k, v) = plan.last();
        let n = layer_one(m, k, v);
        let key = if k == "PATH_PREPEND"@ {
            "PATH"@
        } else if k == "PATHEXT_APPEND"@ {
            "PATHEXT"@
        } else {
            k
        };
        let old_value = n.saved.last().1;
        let new_value = n.env.last().1;
        assert(n.saved =~= m.saved.push((key, old_value)));
        assert(n.env =~= with_value(m.env, key, new_value, true));
        lemma_saved_push(m.saved, key, old_value, name);
        lemma_saved_push(m.saved, key, old_value, "PATH"@);
        lemma_saved_push(m.saved, key, old_value, "PATHEXT"@);
        law_value_with(m.env, key, new_value, name, true);
        if same_name(key, name, true) {
            lemma_same_value(m.env, key, name);
            lemma_same_saved(m.saved, key, name);
        }
    }
}

proof fn lemma_same_saved(saved: Saved, a: Seq<char>, b: Seq<char>)
    requires
        same_name(a, b, true),
    ensures
        saved_value(saved, a) == saved_value(saved, b),
    decreases saved.len(),
{
    if saved.len() > 0 {
        lemma_same_saved(saved.drop_last(), a, b);
    }
}

/// After a sandbox the environment is what it was before: every variable has
/// the value that it had, whatever the user asked for and whatever a launch plan
/// holds, and one that had none has none.
pub proof fn law_restore_gives_back(
    env: Vars,
    root: Seq<char>,
    bin: bool,
    node: bool,
    user: Vars,
    plan: Vars,
    name: Seq<char>,
)
    requires
        distinct_names(env),
    ensures
        ({
            let l = layered(
                Layered {
                    env: sandboxed(env, root, bin, node, user),
                    saved: sandbox_saved(env, root, bin, node, user),
                },
                plan,
            );
            value_of(restored(l.env, l.saved), name, true) == value_of(env, name, true)
        }),
{
    let b = literals(SANITIZED_VARS@);
    lemma_sandbox_keeps(env, root, bin, node, user, name);
    lemma_sandbox_keeps(env, root, bin, node, user, "PATH"@);
    lemma_sandbox_keeps(env, root, bin, node, user, "PATHEXT"@);
    assert(b[0] == "PATH"@ && b[1] == "PATHEXT"@);
    assert(same_name(b[0], "PATH"@, true) && same_name(b[1], "PATHEXT"@, true));
    let base = Layered {
        env: sandboxed(env, root, bin, node, user),
        saved: sandbox_saved(env, root, bin, node, user),
    };
    let l = layered(base, plan);
    lemma_layer_keeps(env, base, plan, name);
    lemma_put_back(without_all(l.env, literals(SANDBOX_KEYS@)), l.saved, name);
    lemma_without_all(l.env, literals(SANDBOX_KEYS@), name);
    lemma_sandbox_vars_sanitized(root, bin, node, name);
}

proof fn lemma_sandbox_keeps(
    env: Vars,
    root: Seq<char>,
    bin: bool,
    node: bool,
    user: Vars,
    name: Seq<char>,
)
    requires
        distinct_names(env),
    ensures
        keeps(
            env,
            sandboxed(env, root, bin, node, user),
            sandbox_saved(env, root, bin, node, user),
            name,
        ),
        listed(name, literals(SANITIZED_VARS@)) ==> saved_value(
            sandbox_saved(env, root, bin, node, user),
            name,
        ) is Some,
{
    let h = hidden(env, root);
    let v = sandbox_vars(root, bin, node);
    let saved = hidden_values(env, root);
    lemma_hidden_keeps(env, root, name);
    lemma_sandbox_vars_sanitized(root, bin, node, name);
    lemma_with_all(h, v, name);
    assert(keeps(env, with_all(h, v), saved, name));
    lemma_replaced_keeps(env, with_all(h, v), saved, user, name);
}

/// What tells the names of a sandbox's variables apart: how long a name is, and
/// its first letter.
spec fn name_mark(name: Seq<char>) -> (nat, char) {
    (name.len(), lower_char(name[0]))
}

proof fn lemma_name_mark(a: Seq<char>, b: Seq<char>)
    requires
        same_name(a, b, true),
        a.len() > 0,
    ensures
        name_mark(a) == name_mark(b),
{
    assert(ascii_lower(a)[0] == lower_char(a[0]));
    assert(ascii_lower(a).len() == a.len());
    assert(ascii_lower(b).len() == b.len());
    assert(ascii_lower(b)[0] == lower_char(b[0]));
}

proof fn lemma_sandbox_marks(root: Seq<char>, bin: bool, node: bool)
    ensures
        ({
            let k = keys(sandbox_vars(root, bin, node));
            &&& k.len() == 16
            &&& forall|i: int| 0 <= i < 16 ==> (#[trigger] k[i]).len() > 0
            &&& forall|i: int, j: int|
                0 <= i < j < 16 ==> name_mark(#[trigger] k[i]) != name_mark(#[trigger] k[j])
        }),
{
    let k = keys(sandbox_vars(root, bin, node));
    reveal_strlit("PATH");
    reveal_strlit("PATHEXT");
    reveal_strlit("TEMP");
    reveal_strlit("TMP");
    reveal_strlit("USERPROFILE");
    reveal_strlit("HOMEPATH");
    reveal_strlit("HOMEDRIVE");
    reveal_strlit("APPDATA");
    reveal_strlit("LOCALAPPDATA");
    reveal_strlit("SystemRoot");
    reveal_strlit("windir");
    reveal_strlit("SystemDrive");
    reveal_strlit("USERNAME");
    reveal_strlit("COMPUTERNAME");
    reveal_strlit("OS");
    reveal_strlit("PROMPT");
    assert(name_mark(k[0]) == (4nat, 'p'));
    assert(name_mark(k[1]) == (7nat, 'p'));
    assert(name_mark(k[2]) == (4nat, 't'));
    assert(name_mark(k[3]) == (3nat, 't'));
    assert(name_mark(k[4]) == (11nat, 'u'));
    assert(name_mark(k[5]) == (8nat, 'h'));
    assert(name_mark(k[6]) == (9nat, 'h'));
    assert(name_mark(k[7]) == (7nat, 'a'));
    assert(name_mark(k[8]) == (12nat, 'l'));
    assert(name_mark(k[9]) == (10nat, 's'));
    assert(name_mark(k[10]) == (6nat, 'w'));
    assert(name_mark(k[11]) == (11nat, 's'));
    assert(name_mark(k[12]) == (8nat, 'u'));
    assert(name_mark(k[13]) == (12nat, 'c'));
    assert(name_mark(k[14]) == (2nat, 'o'));
    assert(name_mark(k[15]) == (6nat, 'p'));
}

proof fn lemma_with_all_has(env: Vars, vars: Vars, k: int)
    requires
        0 <= k < vars.len(),
        forall|j: int| k < j < vars.len() ==> !same_name((#[trigger] vars[j]).0, vars[k].0, true),
    ensures
        value_of(with_all(env, vars), vars[k].0, true) == Some(vars[k].1),
    decreases vars.len(),
{
    let init = vars.drop_last();
    law_value_with(with_all(env, init), vars.last().0, vars.last().1, vars[k].0, true);
    if k < vars.len() - 1 {
        assert forall|j: int| k < j < init.len() implies !same_name(
            (#[trigger] init[j]).0,
            init[k].0,
            true,
        ) by {
            assert(vars[j] == init[j]);
        }
        lemma_with_all_has(env, init, k);
        assert(!same_name(vars[vars.len() - 1].0, vars[k].0, true));
    }
}

/// A sandboxed process sees the sandbox's own value of each of its variables,
/// whatever the host's was, unless the user asked for another: so its user is
/// `ContainerUser` and its computer `PSROOT`.
pub proof fn law_sandbox_values(
    env: Vars,
    root: Seq<char>,
    bin: bool,
    node: bool,
    user: Vars,
    k: int,
)
    requires
        0 <= k < sandbox_vars(root, bin, node).len(),
        !listed(sandbox_vars(root, bin, node)[k].0, keys(user)),
    ensures
        value_of(
            sandboxed(env, root, bin, node, user),
            sandbox_vars(root, bin, node)[k].0,
            true,
        ) == Some(sandbox_vars(root, bin, node)[k].1),
        sandbox_vars(root, bin, node)[12] == ("USERNAME"@, "ContainerUser"@),
        sandbox_vars(root, bin, node)[13] == ("COMPUTERNAME"@, "PSROOT"@),
{
    let vars = sandbox_vars(root, bin, node);
    let names = keys(vars);
    lemma_sandbox_marks(root, bin, node);
    assert forall|j: int| k < j < vars.len() implies !same_name(
        (#[trigger] vars[j]).0,
        vars[k].0,
        true,
    ) by {
        assert(names[j] == vars[j].0 && names[k] == vars[k].0);
        if same_name(vars[j].0, vars[k].0, true) {
            lemma_name_mark(vars[j].0, vars[k].0);
        }
    }
    lemma_with_all_has(hidden(env, root), vars, k);
    lemma_with_all(with_all(hidden(env, root), vars), user, vars[k].0);
}

/// A sandboxed process searches for programs in the system directory of its
/// root, in `bin` where the root has it, in `nodejs` where it has that, and
/// nowhere else.
pub proof fn law_search_path_directories(root: Seq<char>, bin: bool, node: bool)
    requires
        !root.contains(';'),
    ensures
        ({
            let dirs = split(sandbox_path(root, bin, node), ';');
            &&& dirs[0] == root + "\\Windows\\System32"@
            &&& bin ==> dirs[1] == root + "\\bin"@
            &&& node ==> dirs.last() == root + "\\nodejs"@
            &&& dirs.len() == 1 + (if bin {
                1int
            } else {
                0
            }) + (if node {
                1int
            } else {
                0
            })
        }),
{
    reveal_strlit(";");
    reveal_strlit("\\Windows\\System32");
    reveal_strlit("\\bin");
    reveal_strlit("\\nodejs");
    let a = root + "\\Windows\\System32"@;
    let b = root + "\\bin"@;
    let c = root + "\\nodejs"@;
    lemma_no_semicolon(root, "\\Windows\\System32"@);
    lemma_no_semicolon(root, "\\bin"@);
    lemma_no_semicolon(root, "\\nodejs"@);
    lemma_split_one(a, ';');
    lemma_split_one(b, ';');
    lemma_split_one(c, ';');
    lemma_split_head(b, ';', c);
    lemma_split_head(a, ';', b);
    lemma_split_head(a, ';', c);
    lemma_split_head(a, ';', b.push(';') + c);
    let p = sandbox_path(root, bin, node);
    if bin && node {
        assert(p =~= a.push(';') + (b.push(';') + c));
    } else if bin {
        assert(p =~= a.push(';') + b);
    } else if node {
        assert(p =~= a.push(';') + c);
    } else {
        assert(p =~= a);
    }
}

proof fn lemma_no_semicolon(a: Seq<char>, b: Seq<char>)
    requires
        !a.contains(';'),
        forall|i: int| 0 <= i < b.len() ==> #[trigger] b[i] != ';',
    ensures
        !(a + b).contains(';'),
{
    assert forall|i: int| 0 <= i < (a + b).len() implies (a + b)[i] != ';' by {
        if i < a.len() {
            assert((a + b)[i] == a[i]);
        } else {
            assert((a + b)[i] == b[i - a.len()]);
        }
    }
}

/// What a sandboxed process finds in its environment, whatever the host's was,
/// where the user did not ask for another value: its own directories below its
/// root, its own user and computer, and drive C.
pub proof fn law_sandbox_environment(
    env: Vars,
    root: Seq<char>,
    bin: bool,
    node: bool,
    user: Vars,
    name: Seq<char>,
)
    requires
        !listed(name, keys(user)),
    ensures
        ({
            let value = value_of(sandboxed(env, root, bin, node, user), name, true);
            &&& name == "PATH"@ ==> value == Some(sandbox_path(root, bin, node))
            &&& name == "PATHEXT"@ ==> value == Some(".COM;.EXE;.BAT;.CMD;.PS1"@)
            &&& name == "TEMP"@ ==> value == Some(root + "\\Temp"@)
            &&& name == "TMP"@ ==> value == Some(root + "\\Temp"@)
            &&& name == "USERPROFILE"@ ==> value == Some(root + "\\Users\\ContainerUser"@)
            &&& name == "HOMEPATH"@ ==> value == Some("\\Users\\ContainerUser"@)
            &&& name == "HOMEDRIVE"@ ==> value == Some("C:"@)
            &&& name == "APPDATA"@ ==> value == Some(root + "\\Users\\ContainerUser\\AppData\\Roaming"@)
            &&& name == "LOCALAPPDATA"@ ==> value == Some(root + "\\Users\\ContainerUser\\AppData\\Local"@)
            &&& name == "SystemRoot"@ ==> value == Some(root + "\\Windows"@)
            &&& name == "windir"@ ==> value == Some(root + "\\Windows"@)
            &&& name == "SystemDrive"@ ==> value == Some("C:"@)
            &&& name == "USERNAME"@ ==> value == Some("ContainerUser"@)
            &&& name == "COMPUTERNAME"@ ==> value == Some("PSROOT"@)
            &&& name == "OS"@ ==> value == Some("Windows_NT"@)
            &&& name == "PROMPT"@ ==> value == Some("psroot$G "@)
        }),
{
    let vars = sandbox_vars(root, bin, node);
    if name == "PATH"@ {
        assert(vars[0].0 == name);
        law_sandbox_values(env, root, bin, node, user, 0);
    }
    if name == "PATHEXT"@ {
        assert(vars[1].0 == name);
        law_sandbox_values(env, root, bin, node, user, 1);
    }
    if name == "TEMP"@ {
        assert(vars[2].0 == name);
        law_sandbox_values(env, root, bin, node, user, 2);
    }
    if name == "TMP"@ {
        assert(vars[3].0 == name);
        law_sandbox_values(env, root, bin, node, user, 3);
    }
    if name == "USERPROFILE"@ {
        assert(vars[4].0 == name);
        law_sandbox_values(env, root, bin, node, user, 4);
    }
    if name == "HOMEPATH"@ {
        assert(vars[5].0 == name);
        law_sandbox_values(env, root, bin, node, user, 5);
    }
    if name == "HOMEDRIVE"@ {
        assert(vars[6].0 == name);
        law_sandbox_values(env, root, bin, node, user, 6);
    }
    if name == "APPDATA"@ {
        assert(vars[7].0 == name);
        law_sandbox_values(env, root, bin, node, user, 7);
    }
    if name == "LOCALAPPDATA"@ {
        assert(vars[8].0 == name);
        law_sandbox_values(env, root, bin, node, user, 8);
    }
    if name == "SystemRoot"@ {
        assert(vars[9].0 == name);
        law_sandbox_values(env, root, bin, node, user, 9);
    }
    if name == "windir"@ {
        assert(vars[10].0 == name);
        law_sandbox_values(env, root, bin, node, user, 10);
    }
    if name == "SystemDrive"@ {
        assert(vars[11].0 == name);
        law_sandbox_values(env, root, bin, node, user, 11);
    }
    if name == "USERNAME"@ {
        assert(vars[12].0 == name);
        law_sandbox_values(env, root, bin, node, user, 12);
    }
    if name == "COMPUTERNAME"@ {
        assert(vars[13].0 == name);
        law_sandbox_values(env, root, bin, node, user, 13);
    }
    if name == "OS"@ {
        assert(vars[14].0 == name);
        law_sandbox_values(env, root, bin, node, user, 14);
    }
    if name == "PROMPT"@ {
        assert(vars[15].0 == name);
        law_sandbox_values(env, root, bin, node, user, 15);
    }
}

/// The variables that tell about the host by their names: its paths, its user
/// and computer, its processors, its editors and its development tools.
pub open spec fn host_variable(name: Seq<char>) -> bool {
    ||| name == "PATH"@
    ||| name == "PATHEXT"@
    ||| name == "TEMP"@
    ||| name == "TMP"@
    ||| name == "USERPROFILE"@
    ||| name == "HOMEPATH"@
    ||| name == "HOMEDRIVE"@
    ||| name == "HOMEDIR"@
    ||| name == "APPDATA"@
    ||| name == "LOCALAPPDATA"@
    ||| name == "PROGRAMDATA"@
    ||| name == "USERNAME"@
    ||| name == "USERDOMAIN"@
    ||| name == "USERDOMAIN_ROAMINGPROFILE"@
    ||| name == "SystemRoot"@
    ||| name == "windir"@
    ||| name == "SystemDrive"@
    ||| name == "COMPUTERNAME"@
    ||| name == "LOGONSERVER"@
    ||| name == "PROCESSOR_ARCHITECTURE"@
    ||| name == "PROCESSOR_IDENTIFIER"@
    ||| name == "NUMBER_OF_PROCESSORS"@
    ||| name == "OS"@
    ||| name == "PROMPT"@
    ||| name == "TERM_PROGRAM"@
    ||| name == "TERM_PROGRAM_VERSION"@
    ||| name == "VSCODE_GIT_IPC_HANDLE"@
    ||| name == "VSCODE_GIT_ASKPASS_MAIN"@
    ||| name == "VSCODE_GIT_ASKPASS_NODE"@
    ||| name == "VSCODE_INJECTION"@
    ||| name == "GIT_ASKPASS"@
    ||| name == "ELECTRON_RUN_AS_NODE"@
    ||| name == "CHROME_CRASHPAD_PIPE_NAME"@
    ||| name == "PSModulePath"@
    ||| name == "PSMODULEPATH"@
    ||| name == "CARGO_HOME"@
    ||| name == "RUSTUP_HOME"@
    ||| name == "NVM_HOME"@
    ||| name == "NVM_SYMLINK"@
    ||| name == "GOPATH"@
    ||| name == "GOROOT"@
    ||| name == "JAVA_HOME"@
    ||| name == "PYTHONPATH"@
    ||| name == "PNPM_HOME"@
    ||| name == "npm_config_cache"@
    ||| name == "CONDA_PREFIX"@
}

/// Each of those variables is hidden, however it is spelled.
pub proof fn law_host_variables_are_hidden(name: Seq<char>, spelled: Seq<char>)
    requires
        host_variable(name),
        same_name(name, spelled, true),
    ensures
        listed(spelled, literals(SANITIZED_VARS@)),
{
    let n = literals(SANITIZED_VARS@);
    let k = lemma_host_variable_at(name);
    assert(same_name(n[k], spelled, true));
}

proof fn lemma_host_variable_at(name: Seq<char>) -> (k: int)
    requires
        host_variable(name),
    ensures
        0 <= k < 46,
        literals(SANITIZED_VARS@)[k] == name,
{
    let n = literals(SANITIZED_VARS@);
    assert(n[0] == "PATH"@);
    assert(n[1] == "PATHEXT"@);
    assert(n[2] == "TEMP"@);
    assert(n[3] == "TMP"@);
    assert(n[4] == "USERPROFILE"@);
    assert(n[5] == "HOMEPATH"@);
    assert(n[6] == "HOMEDRIVE"@);
    assert(n[7] == "HOMEDIR"@);
    assert(n[8] == "APPDATA"@);
    assert(n[9] == "LOCALAPPDATA"@);
    assert(n[10] == "PROGRAMDATA"@);
    assert(n[11] == "USERNAME"@);
    assert(n[12] == "USERDOMAIN"@);
    assert(n[13] == "USERDOMAIN_ROAMINGPROFILE"@);
    assert(n[14] == "SystemRoot"@);
    assert(n[15] == "windir"@);
    assert(n[16] == "SystemDrive"@);
    assert(n[17] == "COMPUTERNAME"@);
    assert(n[18] == "LOGONSERVER"@);
    assert(n[19] == "PROCESSOR_ARCHITECTURE"@);
    assert(n[20] == "PROCESSOR_IDENTIFIER"@);
    assert(n[21] == "NUMBER_OF_PROCESSORS"@);
    assert(n[22] == "OS"@);
    assert(n[23] == "PROMPT"@);
    assert(n[24] == "TERM_PROGRAM"@);
    assert(n[25] == "TERM_PROGRAM_VERSION"@);
    assert(n[26] == "VSCODE_GIT_IPC_HANDLE"@);
    assert(n[27] == "VSCODE_GIT_ASKPASS_MAIN"@);
    assert(n[28] == "VSCODE_GIT_ASKPASS_NODE"@);
    assert(n[29] == "VSCODE_INJECTION"@);
    assert(n[30] == "GIT_ASKPASS"@);
    assert(n[31] == "ELECTRON_RUN_AS_NODE"@);
    assert(n[32] == "CHROME_CRASHPAD_PIPE_NAME"@);
    assert(n[33] == "PSModulePath"@);
    assert(n[34] == "PSMODULEPATH"@);
    assert(n[35] == "CARGO_HOME"@);
    assert(n[36] == "RUSTUP_HOME"@);
    assert(n[37] == "NVM_HOME"@);
    assert(n[38] == "NVM_SYMLINK"@);
    assert(n[39] == "GOPATH"@);
    assert(n[40] == "GOROOT"@);
    assert(n[41] == "JAVA_HOME"@);
    assert(n[42] == "PYTHONPATH"@);
    assert(n[43] == "PNPM_HOME"@);
    assert(n[44] == "npm_config_cache"@);
    assert(n[45] == "CONDA_PREFIX"@);
    if name == "PATH"@ {
        0
    } else if name == "PATHEXT"@ {
        1
    } else if name == "TEMP"@ {
        2
    } else if name == "TMP"@ {
        3
    } else if name == "USERPROFILE"@ {
        4
    } else if name == "HOMEPATH"@ {
        5
    } else if name == "HOMEDRIVE"@ {
        6
    } else if name == "HOMEDIR"@ {
        7
    } else if name == "APPDATA"@ {
        8
    } else if name == "LOCALAPPDATA"@ {
        9
    } else if name == "PROGRAMDATA"@ {
        10
    } else if name == "USERNAME"@ {
        11
    } else if name == "USERDOMAIN"@ {
        12
    } else if name == "USERDOMAIN_ROAMINGPROFILE"@ {
        13
    } else if name == "SystemRoot"@ {
        14
    } else if name == "windir"@ {
        15
    } else if name == "SystemDrive"@ {
        16
    } else if name == "COMPUTERNAME"@ {
        17
    } else if name == "LOGONSERVER"@ {
        18
    } else if name == "PROCESSOR_ARCHITECTURE"@ {
        19
    } else if name == "PROCESSOR_IDENTIFIER"@ {
        20
    } else if name == "NUMBER_OF_PROCESSORS"@ {
        21
    } else if name == "OS"@ {
        22
    } else if name == "PROMPT"@ {
        23
    } else if name == "TERM_PROGRAM"@ {
        24
    } else if name == "TERM_PROGRAM_VERSION"@ {
        25
    } else if name == "VSCODE_GIT_IPC_HANDLE"@ {
        26
    } else if name == "VSCODE_GIT_ASKPASS_MAIN"@ {
        27
    } else if name == "VSCODE_GIT_ASKPASS_NODE"@ {
        28
    } else if name == "VSCODE_INJECTION"@ {
        29
    } else if name == "GIT_ASKPASS"@ {
        30
    } else if name == "ELECTRON_RUN_AS_NODE"@ {
        31
    } else if name == "CHROME_CRASHPAD_PIPE_NAME"@ {
        32
    } else if name == "PSModulePath"@ {
        33
    } else if name == "PSMODULEPATH"@ {
        34
    } else if name == "CARGO_HOME"@ {
        35
    } else if name == "RUSTUP_HOME"@ {
        36
    } else if name == "NVM_HOME"@ {
        37
    } else if name == "NVM_SYMLINK"@ {
        38
    } else if name == "GOPATH"@ {
        39
    } else if name == "GOROOT"@ {
        40
    } else if name == "JAVA_HOME"@ {
        41
    } else if name == "PYTHONPATH"@ {
        42
    } else if name == "PNPM_HOME"@ {
        43
    } else if name == "npm_config_cache"@ {
        44
    } else {
        45
    }
}

/// A variable whose value names a user's directory outside the root, application
/// data or installed programs is hidden; any other that is not hidden by its
/// name keeps its value, unless the sandbox or the user sets it.
pub proof fn law_telling_values_are_hidden(
    env: Vars,
    root: Seq<char>,
    bin: bool,
    node: bool,
    user: Vars,
    i: int,
)
    requires
        distinct_names(env),
        0 <= i < env.len(),
        !listed(env[i].0, literals(SANITIZED_VARS@)),
        !listed(env[i].0, keys(user)),
    ensures
        ({
            let value = value_of(sandboxed(env, root, bin, node, user), env[i].0, true);
            let low = unicode_lower(env[i].1);
            if occurs(low, "\\appdata\\"@) || occurs(low, "program files"@) || (occurs(
                low,
                "\\users\\"@,
            ) && !occurs(low, unicode_lower(root))) {
                value is None
            } else {
                value == Some(env[i].1)
            }
        }),
{
    let name = env[i].0;
    let names = literals(SANITIZED_VARS@);
    let first = without_all(env, names);
    let t = telling(first, root, names);
    lemma_sandbox_vars_sanitized(root, bin, node, name);
    lemma_with_all(hidden(env, root), sandbox_vars(root, bin, node), name);
    lemma_with_all(with_all(hidden(env, root), sandbox_vars(root, bin, node)), user, name);
    lemma_without_all(env, names, name);
    lemma_value_of_entry(env, i, name);
    lemma_distinct_without_all(env, names);
    lemma_without_all(first, keys(t), name);
    lemma_telling_holds(first, root, names, name);
}

proof fn lemma_telling_holds(env: Vars, root: Seq<char>, names: Seq<Seq<char>>, name: Seq<char>)
    requires
        distinct_names(env),
        !listed(name, names),
        value_of(env, name, true) is Some,
    ensures
        listed(name, keys(telling(env, root, names))) <==> tells_host(
            unicode_lower(value_of(env, name, true)->0),
            unicode_lower(root),
        ),
{
    let t = telling(env, root, names);
    lemma_telling(env, root, names);
    lemma_telling_tells(env, root, names);
    if listed(name, keys(t)) {
        let i = choose|i: int| 0 <= i < keys(t).len() && same_name(#[trigger] keys(t)[i], name, true);
        assert(t[i].0 == keys(t)[i]);
        let j = choose|j: int| 0 <= j < env.len() && env[j] == t[i];
        lemma_value_of_entry(env, j, name);
    }
    lemma_telling_finds(env, root, names, name);
}

proof fn lemma_telling_tells(env: Vars, root: Seq<char>, names: Seq<Seq<char>>)
    ensures
        forall|i: int|
            0 <= i < telling(env, root, names).len() ==> tells_host(
                unicode_lower((#[trigger] telling(env, root, names)[i]).1),
                unicode_lower(root),
            ),
    decreases env.len(),
{
    if env.len() > 0 {
        lemma_telling_tells(env.drop_last(), root, names);
        let t = telling(env, root, names);
        let u = telling(env.drop_last(), root, names);
        assert forall|i: int| 0 <= i < t.len() implies tells_host(
            unicode_lower((#[trigger] t[i]).1),
            unicode_lower(root),
        ) by {
            if i < u.len() {
                assert(t[i] == u[i]);
            }
        }
    }
}

proof fn lemma_telling_finds(env: Vars, root: Seq<char>, names: Seq<Seq<char>>, name: Seq<char>)
    requires
        !listed(name, names),
    ensures
        value_of(env, name, true) matches Some(v) ==> (tells_host(
            unicode_lower(v),
            unicode_lower(root),
        ) ==> listed(name, keys(telling(env, root, names)))),
    decreases env.len(),
{
    if env.len() > 0 {
        let init = env.drop_last();
        let t = telling(env, root, names);
        let u = telling(init, root, names);
        lemma_telling_finds(init, root, names, name);
        if listed(name, keys(u)) {
            let i = choose|i: int|
                0 <= i < keys(u).len() && same_name(#[trigger] keys(u)[i], name, true);
            assert(keys(t)[i] == keys(u)[i]);
        }
        if same_name(env.last().0, name, true) {
            if listed(env.last().0, names) {
                let i = choose|i: int|
                    0 <= i < names.len() && same_name(#[trigger] names[i], env.last().0, true);
                assert(same_name(names[i], name, true));
            }
            if tells_host(unicode_lower(env.last().1), unicode_lower(root)) {
                assert(keys(t)[t.len() - 1] == env.last().0);
            }
        }
    }
}

/// The variables of a launch plan: `PATH_PREPEND` comes before the search path,
/// `PATHEXT_APPEND` after the extensions, any other variable is set to its
/// value, and no variable but the one it speaks of changes.
pub proof fn law_plan_variables(l: Layered, name: Seq<char>, value: Seq<char>, other: Seq<char>)
    ensures
        ({
            let e = layer_one(l, name, value).env;
            let path = value_of(l.env, "PATH"@, true);
            let ext = value_of(l.env, "PATHEXT"@, true);
            &&& name == "PATH_PREPEND"@ ==> value_of(e, "PATH"@, true) == Some(
                match path {
                    Some(p) => if p.len() == 0 {
                        value
                    } else {
                        value + ";"@ + p
                    },
                    None => value,
                },
            )
            &&& name == "PATHEXT_APPEND"@ ==> value_of(e, "PATHEXT"@, true) == Some(
                match ext {
                    Some(p) => if p.len() == 0 {
                        value
                    } else {
                        p + ";"@ + value
                    },
                    None => value,
                },
            )
            &&& name != "PATH_PREPEND"@ && name != "PATHEXT_APPEND"@ ==> value_of(e, name, true)
                == Some(value)
            &&& !same_name(other, "PATH"@, true) && !same_name(other, "PATHEXT"@, true)
                && !same_name(other, name, true) ==> value_of(e, other, true) == value_of(
                l.env,
                other,
                true,
            )
            &&& name == "PATH_PREPEND"@ && !same_name(other, "PATH"@, true) ==> value_of(
                e,
                other,
                true,
            ) == value_of(l.env, other, true)
            &&& name == "PATHEXT_APPEND"@ && !same_name(other, "PATHEXT"@, true) ==> value_of(
                e,
                other,
                true,
            ) == value_of(l.env, other, true)
        }),
{
    let path = value_or_empty(l.env, "PATH"@);
    let ext = value_or_empty(l.env, "PATHEXT"@);
    let new = if path.len() == 0 {
        value
    } else {
        value + ";"@ + path
    };
    reveal_strlit("PATH_PREPEND");
    reveal_strlit("PATHEXT_APPEND");
    assert("PATH_PREPEND"@.len() != "PATHEXT_APPEND"@.len());
    law_value_with(l.env, "PATH"@, new, "PATH"@, true);
    law_value_with(l.env, "PATH"@, new, other, true);
    law_value_with(l.env, "PATHEXT"@, joined(ext, value), "PATHEXT"@, true);
    law_value_with(l.env, "PATHEXT"@, joined(ext, value), other, true);
    law_value_with(l.env, name, value, name, true);
    law_value_with(l.env, name, value, other, true);
}

} // verus!
