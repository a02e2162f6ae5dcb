//! Programs with windows, run from the command line.

use crate::cli::report::push_line;
use crate::container::env::pairs;
use crate::show::{pad, padded};
use crate::text::{
    chars_of, concat2, concat3, decimal, decimal_text, lemma_rfind_bounds, rfind, rfind_char, same,
    skip, take, texts,
};
use vstd::prelude::*;

verus! {

/// The arguments without the marks `--` that separate them from the options.
pub open spec fn program_args(args: Seq<Seq<char>>) -> Seq<Seq<char>>
    decreases args.len(),
{
    if args.len() == 0 {
        seq![]
    } else {
        let rest = program_args(args.drop_last());
        if args.last() == "--"@ {
            rest
        } else {
            rest.push(args.last())
        }
    }
}

/// The arguments without the marks `--` that separate them from the options.
pub fn filter_args(args: &Vec<String>) -> (v: Vec<String>)
    ensures
        texts(v@) == program_args(texts(args@)),
{
    let ghost all = texts(args@);
    let mut v: Vec<String> = Vec::new();
    let mut i: usize = 0;
    proof {
        assert(all.take(0) =~= Seq::<Seq<char>>::empty());
        assert(texts(v@) =~= Seq::<Seq<char>>::empty());
    }
    while i < args.len()
        invariant
            i <= args.len(),
            all == texts(args@),
            texts(v@) == program_args(all.take(i as int)),
        decreases args.len() - i,
    {
        proof {
            let t = all.take(i + 1);
            assert(t.drop_last() =~= all.take(i as int));
            assert(t.last() == args[i as int]@);
        }
        if !same(args[i].as_str(), "--") {
            push_line(&mut v, args[i].clone());
        }
        i = i + 1;
    }
    assert(all.take(all.len() as int) =~= all);
    v
}

/// What a further directory `HOST_PATH:MOUNT_NAME` stands for: the last colon
/// separates the two.
pub open spec fn extra_dir(s: Seq<char>) -> Option<(Seq<char>, Seq<char>)> {
    let i = rfind(s, ':');
    if i >= 0 {
        Some((s.take(i), s.skip(i + 1)))
    } else {
        None
    }
}

/// What a further directory `HOST_PATH:MOUNT_NAME` stands for.
pub fn parse_extra_dir(s: &str) -> (r: Option<(String, String)>)
    ensures
        match r {
            Some(p) => extra_dir(s@) == Some((p.0@, p.1@)),
            None => extra_dir(s@) is None,
        },
{
    let v = chars_of(s);
    match rfind_char(v.as_slice(), ':') {
        Some(i) => Some((take(s, i), skip(s, i + 1))),
        None => None,
    }
}

/// A host path and a mount name are taken apart where they were put together.
pub proof fn law_extra_dir_round_trip(host: Seq<char>, name: Seq<char>)
    requires
        !name.contains(':'),
    ensures
        extra_dir(host + ":"@ + name) == Some((host, name)),
{
    reveal_strlit(":");
    let s = host + ":"@ + name;
    let n = host.len() as int;
    lemma_rfind_bounds(s, ':');
    let i = rfind(s, ':');
    assert(s[n] == ':');
    if i > n {
        assert(s[i] == name[i - n - 1]);
    }
    assert(i == n);
    assert(s.take(n) =~= host);
    assert(s.skip(n + 1) =~= name);
}

/// The further directories of a list, and what is told of those that are none.
pub open spec fn extra_dirs(list: Seq<Seq<char>>) -> (Seq<(Seq<char>, Seq<char>)>, Seq<Seq<char>>)
    decreases list.len(),
{
    if list.len() == 0 {
        (seq![], seq![])
    } else {
        let (dirs, told) = extra_dirs(list.drop_last());
        match extra_dir(list.last()) {
            Some(p) => (dirs.push(p), told),
            None => (
                dirs,
                told.push(
                    "Warning: invalid --extra-dir format '"@ + list.last()
                        + "', expected HOST_PATH:MOUNT_NAME"@,
                ),
            ),
        }
    }
}

/// The further directories of a list, and what is told of those that are none.
pub fn parse_extra_dirs(list: &Vec<String>) -> (r: (Vec<(String, String)>, Vec<String>))
    ensures
        (pairs(r.0@), texts(r.1@)) == extra_dirs(texts(list@)),
{
    let ghost all = texts(list@);
    let mut dirs: Vec<(String, String)> = Vec::new();
    let mut told: Vec<String> = Vec::new();
    let mut i: usize = 0;
    proof {
        assert(all.take(0) =~= Seq::<Seq<char>>::empty());
        assert(pairs(dirs@) =~= Seq::<(Seq<char>, Seq<char>)>::empty());
        assert(texts(told@) =~= Seq::<Seq<char>>::empty());
    }
    while i < list.len()
        invariant
            i <= list.len(),
            all == texts(list@),
            (pairs(dirs@), texts(told@)) == extra_dirs(all.take(i as int)),
        decreases list.len() - i,
    {
        proof {
            let t = all.take(i + 1);
            assert(t.drop_last() =~= all.take(i as int));
            assert(t.last() == list[i as int]@);
        }
        match parse_extra_dir(list[i].as_str()) {
            Some(p) => {
                let ghost before = dirs@;
                let ghost pv = (p.0@, p.1@);
                dirs.push(p);
                assert(pairs(dirs@) =~= pairs(before).push(pv));
            },
            None => {
                push_line(
                    &mut told,
                    concat3(
                        "Warning: invalid --extra-dir format '",
                        list[i].as_str(),
                        "', expected HOST_PATH:MOUNT_NAME",
                    ),
                );
            },
        }
        i = i + 1;
    }
    assert(all.take(all.len() as int) =~= all);
    (dirs, told)
}

/// What is shown before a program is staged.
pub open spec fn gui_lines(exe: Seq<char>, app_root: Seq<char>, rootfs: Seq<char>, network: bool) -> Seq<
    Seq<char>,
> {
    seq![
        "╔═══════════════════════════════════════════════════════════╗"@,
        "║  psroot gui — Run any app in an isolated container       ║"@,
        "╠═══════════════════════════════════════════════════════════╣"@,
        "║  Exe:      "@ + padded(exe, 46) + "║"@,
        "║  App root: "@ + padded(app_root, 46) + "║"@,
        "║  Rootfs:   "@ + padded(rootfs, 46) + "║"@,
        "║  Network:  "@ + padded(
            if network {
                "enabled"@
            } else {
                "disabled"@
            },
            46,
        ) + "║"@,
        "╚═══════════════════════════════════════════════════════════╝"@,
        ""@,
        "[1/3] Staging app into container..."@,
    ]
}

/// What is shown before a program is staged.
pub fn cmd_gui(exe: &str, app_root: &str, rootfs: &str, network: bool) -> (v: Vec<String>)
    ensures
        texts(v@) == gui_lines(exe@, app_root@, rootfs@, network),
{
    let a = pad(exe, 46);
    let b = pad(app_root, 46);
    let c = pad(rootfs, 46);
    let d = pad(
        if network {
            "enabled"
        } else {
            "disabled"
        },
        46,
    );
    let v = vec![
        "╔═══════════════════════════════════════════════════════════╗".to_owned(),
        "║  psroot gui — Run any app in an isolated container       ║".to_owned(),
        "╠═══════════════════════════════════════════════════════════╣".to_owned(),
        concat3("║  Exe:      ", a.as_str(), "║"),
        concat3("║  App root: ", b.as_str(), "║"),
        concat3("║  Rootfs:   ", c.as_str(), "║"),
        concat3("║  Network:  ", d.as_str(), "║"),
        "╚═══════════════════════════════════════════════════════════╝".to_owned(),
        "".to_owned(),
        "[1/3] Staging app into container...".to_owned(),
    ];
    assert(texts(v@) =~= gui_lines(exe@, app_root@, rootfs@, network));
    v
}

/// What is done with a program that was started.
#[derive(Clone, Copy, Debug, PartialEq, Eq, Structural)]
pub enum GuiWait {
    /// Wait until it ends.
    Forever,
    /// Wait so many seconds, then end it if it still runs.
    Seconds(u64),
}

/// What is done with a program that was started; 0 seconds are no limit.
pub fn gui_wait(timeout: u64) -> (w: GuiWait)
    ensures
        w == wait_of(timeout),
{
    if timeout == 0 {
        GuiWait::Forever
    } else {
        GuiWait::Seconds(timeout)
    }
}

/// What is shown while a program is waited for.
pub fn wait_line(w: GuiWait) -> (s: String)
    ensures
        s@ == match w {
            GuiWait::Forever => "[3/3] Waiting for app to exit (Ctrl+C to terminate)..."@,
            GuiWait::Seconds(n) => "[3/3] Waiting "@ + decimal(n as nat) + " seconds..."@,
        },
{
    match w {
        GuiWait::Forever => "[3/3] Waiting for app to exit (Ctrl+C to terminate)...".to_owned(),
        GuiWait::Seconds(n) => {
            let t = decimal_text(n as u128);
            concat3("[3/3] Waiting ", t.as_str(), " seconds...")
        },
    }
}

/// What is shown at the end: `running` says whether the program was still
/// running when its time was up, so that it was ended.
pub fn end_line(w: GuiWait, running: bool, exit_code: u32) -> (s: String)
    ensures
        s@ == match w {
            GuiWait::Forever => "       Exit code: "@ + decimal(exit_code as nat),
            GuiWait::Seconds(n) => if running {
                "       Terminated after "@ + decimal(n as nat) + " seconds."@
            } else {
                "       Exited with code: "@ + decimal(exit_code as nat)
            },
        },
{
    let c = decimal_text(exit_code as u128);
    match w {
        GuiWait::Forever => concat2("       Exit code: ", c.as_str()),
        GuiWait::Seconds(n) => if running {
            let t = decimal_text(n as u128);
            concat3("       Terminated after ", t.as_str(), " seconds.")
        } else {
            concat2("       Exited with code: ", c.as_str())
        },
    }
}

/// How long a program with windows is waited for.
pub open spec fn wait_of(timeout: u64) -> GuiWait {
    if timeout == 0 {
        GuiWait::Forever
    } else {
        GuiWait::Seconds(timeout)
    }
}

/// Without a time limit a program is waited for until it ends, with one for so
/// many seconds.
pub proof fn law_waiting(timeout: u64)
    ensures
        wait_of(0) == GuiWait::Forever,
        timeout > 0 ==> wait_of(timeout) == GuiWait::Seconds(timeout),
{
}

/// A program gets all arguments in their order, but for the mark between its own
/// and those of the command line.
pub proof fn law_program_arguments(args: Seq<Seq<char>>, last: Seq<char>)
    ensures
        program_args(Seq::empty()) == Seq::<Seq<char>>::empty(),
        last == "--"@ ==> program_args(args.push(last)) == program_args(args),
        last != "--"@ ==> program_args(args.push(last)) == program_args(args).push(last),
{
    assert(args.push(last).drop_last() =~= args);
}

/// Further directories are taken in their order; one that cannot be read is told
/// and passed over.
pub proof fn law_further_directories(list: Seq<Seq<char>>, last: Seq<char>)
    ensures
        extra_dir(last) matches Some(p) ==> extra_dirs(list.push(last)) == (
            extra_dirs(list).0.push(p),
            extra_dirs(list).1,
        ),
        extra_dir(last) is None ==> extra_dirs(list.push(last)) == (
            extra_dirs(list).0,
            extra_dirs(list).1.push(
                "Warning: invalid --extra-dir format '"@ + last
                    + "', expected HOST_PATH:MOUNT_NAME"@,
            ),
        ),
        extra_dir(last) is None <==> !last.contains(':'),
{
    assert(list.push(last).drop_last() =~= list);
    crate::text::lemma_rfind_bounds(last, ':');
    if last.contains(':') {
        let i = choose|i: int| 0 <= i < last.len() && last[i] == ':';
        assert(rfind(last, ':') >= i);
    }
}

} // verus!
