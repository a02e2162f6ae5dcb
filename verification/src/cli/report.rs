//! What the commands show, as lines of text.

use crate::container::config::{publishes, PortMapping, Publish};
use crate::container::detect::Capabilities;
use crate::container::job::ContainerStats;
use crate::container::lifecycle::{listing, ListEntry, Listed};
use crate::container::sandbox::IsolationLevel;
use crate::container::setup::{checks, Check, SetupCheck};
use crate::show::{join_texts, pad, padded, repeat_char, repeated};
use crate::text::{
    chars_of, concat2, concat3, concat4, concat5, decimal, decimal_text, join, same, skip, texts,
};
use vstd::prelude::*;
use vstd::utf8::encode_utf8;

verus! {

pub(crate) fn push_line(v: &mut Vec<String>, s: String)
    ensures
        texts(final(v)@) == texts(old(v)@).push(s@),
{
    let ghost before = v@;
    let ghost t = s@;
    v.push(s);
    assert(texts(v@) =~= texts(before).push(t));
}

/// What the host offers, a line each.
pub open spec fn info_lines(c: Capabilities, l: IsolationLevel) -> Seq<Seq<char>> {
    seq![
        "Psroot System Capabilities"@,
        "─────────────────────────────────────"@,
        "Windows Build:    "@ + decimal(c.build_number as nat),
        "Administrator:    "@ + (if c.is_admin {
            "YES"@
        } else {
            "NO"@
        }),
        "Job Objects:      "@ + (if c.job_objects {
            "✓"@
        } else {
            "✗"@
        }),
        "Process Shim:     ✓ (inline hook, zero leaks)"@,
        "Server Silos:     "@ + (if c.server_silos {
            "✓ (build >= 17763)"@
        } else {
            "✗ (needs admin + build >= 17763)"@
        }),
        "Bind Filter:      "@ + (if c.bind_filter {
            "✓ (build >= 26100)"@
        } else {
            "✗ (needs admin + build >= 26100)"@
        }),
        "VTx Required:     NO (pure kernel primitives)"@,
        ""@,
        "Isolation Level:  "@ + l.tier(),
    ] + l.warnings_text()
}

/// What the host offers, a line each.
pub fn cmd_info(c: &Capabilities, l: &IsolationLevel) -> (v: Vec<String>)
    ensures
        texts(v@) == info_lines(*c, *l),
{
    let build = decimal_text(c.build_number as u128);
    let mut v: Vec<String> = Vec::new();
    v.push("Psroot System Capabilities".to_owned());
    v.push("─────────────────────────────────────".to_owned());
    v.push(concat2("Windows Build:    ", build.as_str()));
    v.push(
        concat2(
            "Administrator:    ",
            if c.is_admin {
                "YES"
            } else {
                "NO"
            },
        ),
    );
    v.push(
        concat2(
            "Job Objects:      ",
            if c.job_objects {
                "✓"
            } else {
                "✗"
            },
        ),
    );
    v.push("Process Shim:     ✓ (inline hook, zero leaks)".to_owned());
    v.push(
        concat2(
            "Server Silos:     ",
            if c.server_silos {
                "✓ (build >= 17763)"
            } else {
                "✗ (needs admin + build >= 17763)"
            },
        ),
    );
    v.push(
        concat2(
            "Bind Filter:      ",
            if c.bind_filter {
                "✓ (build >= 26100)"
            } else {
                "✗ (needs admin + build >= 26100)"
            },
        ),
    );
    v.push("VTx Required:     NO (pure kernel primitives)".to_owned());
    v.push("".to_owned());
    v.push(concat2("Isolation Level:  ", l.tier_name()));
    let mut w = l.print_warnings();
    let ghost head = v@;
    let ghost tail = w@;
    v.append(&mut w);
    assert(texts(v@) =~= texts(head) + texts(tail));
    assert(texts(v@) =~= info_lines(*c, *l));
    v
}

/// A published port as a list shows it.
pub open spec fn port_form(p: Publish) -> Seq<char> {
    p.host_bind + ":"@ + decimal(p.host_port as nat) + "->"@ + decimal(p.container_port as nat)
}

/// The ports of a container as a list shows them.
pub open spec fn ports_form(ports: Seq<Publish>) -> Seq<char> {
    if ports.len() == 0 {
        "—"@
    } else {
        join(Seq::new(ports.len(), |i: int| port_form(ports[i])), ", "@)
    }
}

/// The ports of a container as a list shows them.
pub fn show_ports(ports: &Vec<PortMapping>) -> (s: String)
    ensures
        s@ == ports_form(publishes(ports@)),
{
    if ports.len() == 0 {
        return "—".to_owned();
    }
    let ghost all = Seq::new(ports@.len(), |i: int| port_form(publishes(ports@)[i]));
    let mut parts: Vec<String> = Vec::new();
    let mut i: usize = 0;
    assert(texts(parts@) =~= all.take(0));
    while i < ports.len()
        invariant
            i <= ports.len(),
            all == Seq::new(ports@.len(), |i: int| port_form(publishes(ports@)[i])),
            texts(parts@) == all.take(i as int),
        decreases ports.len() - i,
    {
        let h = decimal_text(ports[i].host_port as u128);
        let c = decimal_text(ports[i].container_port as u128);
        let line = concat5(ports[i].host_bind.as_str(), ":", h.as_str(), "->", c.as_str());
        push_line(&mut parts, line);
        assert(all.take(i + 1) =~= all.take(i as int).push(all[i as int]));
        i = i + 1;
    }
    assert(all.take(all.len() as int) =~= all);
    assert(all =~= Seq::new(publishes(ports@).len(), |i: int| port_form(publishes(ports@)[i])));
    join_texts(&parts, ", ")
}

/// A row of the list of containers.
pub open spec fn row(id: Seq<char>, status: Seq<char>, created: Seq<char>, ports: Seq<char>) -> Seq<
    char,
> {
    padded(id, 24) + " "@ + padded(status, 10) + " "@ + (padded(created, 20) + " "@ + ports)
}

fn make_row(id: &str, status: &str, created: &str, ports: &str) -> (s: String)
    ensures
        s@ == row(id@, status@, created@, ports@),
{
    let a = pad(id, 24);
    let b = pad(status, 10);
    let c = pad(created, 20);
    let tail = concat3(c.as_str(), " ", ports);
    concat5(a.as_str(), " ", b.as_str(), " ", tail.as_str())
}

/// The rows of the containers with the wanted status, or of all.
pub open spec fn rows(l: Seq<Listed>, wanted: Option<Seq<char>>) -> Seq<Seq<char>>
    decreases l.len(),
{
    if l.len() == 0 {
        seq![]
    } else {
        let rest = rows(l.drop_last(), wanted);
        let e = l.last();
        if wanted is None || wanted == Some(e.status.label()) {
            rest.push(row(e.id, e.status.label(), e.created, ports_form(e.ports)))
        } else {
            rest
        }
    }
}

/// The list of containers, a line each.
pub open spec fn list_lines(l: Seq<Listed>, wanted: Option<Seq<char>>) -> Seq<Seq<char>> {
    if l.len() == 0 {
        seq!["No containers"@]
    } else {
        seq![row("ID"@, "STATUS"@, "CREATED"@, "PORTS"@), repeated('─', 80)] + rows(l, wanted)
    }
}

/// The list of containers with the wanted status, or of all.
pub fn cmd_ls(all: &Vec<ListEntry>, wanted: Option<&str>) -> (v: Vec<String>)
    ensures
        texts(v@) == list_lines(
            listing(all@),
            match wanted {
                Some(w) => Some(w@),
                None => None,
            },
        ),
{
    let ghost w = match wanted {
        Some(w) => Some(w@),
        None => None,
    };
    let ghost l = listing(all@);
    let mut v: Vec<String> = Vec::new();
    if all.len() == 0 {
        v.push("No containers".to_owned());
        assert(texts(v@) =~= seq!["No containers"@]);
        return v;
    }
    v.push(make_row("ID", "STATUS", "CREATED", "PORTS"));
    v.push(repeat_char('─', 80));
    let ghost head = texts(v@);
    let mut i: usize = 0;
    proof {
        assert(l.take(0) =~= Seq::<Listed>::empty());
        assert(head + rows(l.take(0), w) =~= head);
    }
    while i < all.len()
        invariant
            i <= all.len(),
            l == listing(all@),
            w == match wanted {
                Some(w) => Some(w@),
                None => None,
            },
            texts(v@) == head + rows(l.take(i as int), w),
        decreases all.len() - i,
    {
        proof {
            let t = l.take(i + 1);
            assert(t.drop_last() =~= l.take(i as int));
            assert(t.last() == all[i as int]@);
        }
        let status = all[i].status.name();
        let shown = match wanted {
            Some(f) => same(status, f),
            None => true,
        };
        if shown {
            let ports = show_ports(&all[i].ports);
            let line = make_row(
                all[i].id.as_str(),
                status,
                all[i].created.as_str(),
                ports.as_str(),
            );
            push_line(&mut v, line);
            assert((head + rows(l.take(i as int), w)).push(line@) =~= head + rows(l.take(i + 1), w));
        }
        i = i + 1;
    }
    proof {
        assert(l.take(l.len() as int) =~= l);
        assert(head =~= seq![row("ID"@, "STATUS"@, "CREATED"@, "PORTS"@), repeated('─', 80)]);
    }
    v
}

/// What a container has used, a line each.
pub open spec fn stats_lines(id: Seq<char>, s: ContainerStats) -> Seq<Seq<char>> {
    seq![
        "Container: "@ + id,
        "Memory Usage:   "@ + decimal((s.memory_usage / 0x10_0000) as nat) + " MB"@,
        "CPU User:       "@ + decimal(s.cpu_user_time as nat) + " ticks"@,
        "CPU Kernel:     "@ + decimal(s.cpu_kernel_time as nat) + " ticks"@,
        "Processes:      "@ + decimal(s.process_count as nat) + "/"@ + decimal(
            s.total_processes as nat,
        ),
        "IO Read:        "@ + decimal(s.io_read_bytes as nat) + " bytes"@,
        "IO Write:       "@ + decimal(s.io_write_bytes as nat) + " bytes"@,
    ]
}

/// What a container has used, a line each.
pub fn cmd_stats(id: &str, s: &ContainerStats) -> (v: Vec<String>)
    ensures
        texts(v@) == stats_lines(id@, *s),
{
    let memory = decimal_text((s.memory_usage / 0x10_0000) as u128);
    let user = decimal_text(s.cpu_user_time as u128);
    let kernel = decimal_text(s.cpu_kernel_time as u128);
    let active = decimal_text(s.process_count as u128);
    let total = decimal_text(s.total_processes as u128);
    let read = decimal_text(s.io_read_bytes as u128);
    let write = decimal_text(s.io_write_bytes as u128);
    let v = vec![
        concat2("Container: ", id),
        concat3("Memory Usage:   ", memory.as_str(), " MB"),
        concat3("CPU User:       ", user.as_str(), " ticks"),
        concat3("CPU Kernel:     ", kernel.as_str(), " ticks"),
        concat4("Processes:      ", active.as_str(), "/", total.as_str()),
        concat3("IO Read:        ", read.as_str(), " bytes"),
        concat3("IO Write:       ", write.as_str(), " bytes"),
    ];
    assert(texts(v@) =~= stats_lines(id@, *s));
    v
}

/// The lines about one place that has to be granted.
pub open spec fn check_lines(c: Check) -> Seq<Seq<char>> {
    if c.ok {
        seq!["  [OK    ] "@ + c.path]
    } else {
        seq!["  [MISSING] "@ + c.path, "           -> "@ + c.note]
    }
}

/// The lines about all places that have to be granted.
pub open spec fn all_check_lines(c: Seq<Check>) -> Seq<Seq<char>>
    decreases c.len(),
{
    if c.len() == 0 {
        seq![]
    } else {
        all_check_lines(c.drop_last()) + check_lines(c.last())
    }
}

/// How many places are not granted yet.
pub open spec fn needed(c: Seq<Check>) -> nat
    decreases c.len(),
{
    if c.len() == 0 {
        0
    } else {
        needed(c.drop_last()) + if c.last().ok {
            0nat
        } else {
            1nat
        }
    }
}

/// What is shown before the host is set up.
pub open spec fn setup_head(cache: Seq<char>, c: Seq<Check>, dry_run: bool) -> Seq<Seq<char>> {
    seq![
        "psroot setup — checking AppContainer prerequisites"@,
        "  cache root: "@ + cache,
        ""@,
    ] + all_check_lines(c) + seq![""@] + (if dry_run {
        if needed(c) == 0 {
            seq![
                "All ACE prerequisites satisfied. (Privilege grants not checked in dry-run.)"@,
            ]
        } else {
            seq![
                "[dry-run] "@ + decimal(needed(c))
                    + " ACE grant(s) would be applied. Re-run without --dry-run."@,
            ]
        }
    } else if needed(c) > 0 {
        seq!["Applying "@ + decimal(needed(c)) + " ACE grant(s) (requires admin)..."@]
    } else {
        seq![]
    })
}

/// What is shown before the host is set up.
pub fn cmd_setup(cache: &str, found: &Vec<SetupCheck>, dry_run: bool) -> (v: Vec<String>)
    ensures
        texts(v@) == setup_head(cache@, checks(found@), dry_run),
{
    let ghost all = checks(found@);
    let mut v: Vec<String> = Vec::new();
    v.push("psroot setup — checking AppContainer prerequisites".to_owned());
    v.push(concat2("  cache root: ", cache));
    v.push("".to_owned());
    let ghost head = texts(v@);
    let mut n: usize = 0;
    let mut i: usize = 0;
    proof {
        assert(all.take(0) =~= Seq::<Check>::empty());
        assert(head + all_check_lines(all.take(0)) =~= head);
    }
    while i < found.len()
        invariant
            n <= i <= found.len(),
            all == checks(found@),
            n == needed(all.take(i as int)),
            texts(v@) == head + all_check_lines(all.take(i as int)),
        decreases found.len() - i,
    {
        let ghost before = texts(v@);
        proof {
            let t = all.take(i + 1);
            assert(t.drop_last() =~= all.take(i as int));
            assert(t.last() == found[i as int]@);
        }
        if found[i].has_all_app_packages {
            push_line(&mut v, concat2("  [OK    ] ", found[i].path.as_str()));
        } else {
            push_line(&mut v, concat2("  [MISSING] ", found[i].path.as_str()));
            push_line(&mut v, concat2("           -> ", found[i].note.as_str()));
            n = n + 1;
        }
        proof {
            let lines = check_lines(found[i as int]@);
            assert(texts(v@) =~= before + lines);
            assert(head + all_check_lines(all.take(i as int)) + lines =~= head + (all_check_lines(
                all.take(i as int),
            ) + lines));
        }
        i = i + 1;
    }
    assert(all.take(all.len() as int) =~= all);
    push_line(&mut v, "".to_owned());
    let ghost before = texts(v@);
    let count = decimal_text(n as u128);
    if dry_run {
        if n == 0 {
            push_line(
                &mut v,
                "All ACE prerequisites satisfied. (Privilege grants not checked in dry-run.)".to_owned(),
            );
        } else {
            push_line(
                &mut v,
                concat3(
                    "[dry-run] ",
                    count.as_str(),
                    " ACE grant(s) would be applied. Re-run without --dry-run.",
                ),
            );
        }
    } else if n > 0 {
        push_line(
            &mut v,
            concat3("Applying ", count.as_str(), " ACE grant(s) (requires admin)..."),
        );
    }
    assert(texts(v@) =~= setup_head(cache@, all, dry_run));
    v
}

/// The lines about one grant that was applied.
pub open spec fn applied_lines(p: Seq<char>) -> Seq<Seq<char>> {
    if p == "SeTcbPrivilege (LSA)"@ {
        seq![
            "  + granted SeTcbPrivilege to current user (LSA)"@,
            "    NOTE: Log out and back in for the new privilege to take effect."@,
        ]
    } else {
        seq!["  + granted ALL APPLICATION PACKAGES on "@ + p]
    }
}

/// The lines about the grants that were applied.
pub open spec fn all_applied_lines(p: Seq<Seq<char>>) -> Seq<Seq<char>>
    decreases p.len(),
{
    if p.len() == 0 {
        seq![]
    } else {
        all_applied_lines(p.drop_last()) + applied_lines(p.last())
    }
}

/// What is shown after the host was set up.
pub open spec fn setup_tail(p: Seq<Seq<char>>) -> Seq<Seq<char>> {
    if p.len() == 0 {
        seq!["All prerequisites satisfied. Nothing to do."@]
    } else {
        all_applied_lines(p) + seq![
            ""@,
            "Setup complete. You can now run:  psroot shell --shell pwsh"@,
        ]
    }
}

/// What is shown after the host was set up; `applied` are the grants that were
/// applied.
pub fn setup_result(applied: &Vec<String>) -> (v: Vec<String>)
    ensures
        texts(v@) == setup_tail(texts(applied@)),
{
    let ghost all = texts(applied@);
    let mut v: Vec<String> = Vec::new();
    if applied.len() == 0 {
        v.push("All prerequisites satisfied. Nothing to do.".to_owned());
        assert(texts(v@) =~= setup_tail(all));
        return v;
    }
    let mut i: usize = 0;
    proof {
        assert(all.take(0) =~= Seq::<Seq<char>>::empty());
        assert(texts(v@) =~= Seq::<Seq<char>>::empty());
    }
    while i < applied.len()
        invariant
            i <= applied.len(),
            all == texts(applied@),
            texts(v@) == all_applied_lines(all.take(i as int)),
        decreases applied.len() - i,
    {
        let ghost before = texts(v@);
        proof {
            let t = all.take(i + 1);
            assert(t.drop_last() =~= all.take(i as int));
            assert(t.last() == applied[i as int]@);
        }
        if same(applied[i].as_str(), "SeTcbPrivilege (LSA)") {
            push_line(&mut v, "  + granted SeTcbPrivilege to current user (LSA)".to_owned());
            push_line(
                &mut v,
                "    NOTE: Log out and back in for the new privilege to take effect.".to_owned(),
            );
        } else {
            push_line(
                &mut v,
                concat2("  + granted ALL APPLICATION PACKAGES on ", applied[i].as_str()),
            );
        }
        assert(texts(v@) =~= before + applied_lines(applied[i as int]@));
        i = i + 1;
    }
    assert(all.take(all.len() as int) =~= all);
    push_line(&mut v, "".to_owned());
    push_line(&mut v, "Setup complete. You can now run:  psroot shell --shell pwsh".to_owned());
    assert(texts(v@) =~= setup_tail(all));
    v
}

/// Whether `t` is what the last `n` bytes of `s` hold, or all of `s` where it
/// has no more.
pub open spec fn is_tail(s: Seq<char>, n: nat, t: Seq<char>) -> bool {
    if encode_utf8(s).len() <= n {
        t == s
    } else {
        exists|k: int| 0 <= k <= s.len() && t == #[trigger] s.skip(k) && encode_utf8(t).len() == n
    }
}

/// What the last `n` bytes of `s` hold, or all of `s` where it has no more;
/// none where a character is cut there.
pub fn tail_bytes(s: &str, n: usize) -> (r: Option<String>)
    ensures
        match r {
            Some(t) => is_tail(s@, n as nat, t@),
            None => encode_utf8(s@).len() > n && forall|k: int|
                0 <= k <= s@.len() ==> encode_utf8(#[trigger] s@.skip(k)).len() != n,
        },
{
    if s.as_bytes().len() <= n {
        return Some(s.to_owned());
    }
    let len: usize = chars_of(s).len();
    let mut k: usize = 0;
    while k < len
        invariant
            k <= len,
            len == s@.len(),
            encode_utf8(s@).len() > n,
            forall|j: int| 0 <= j < k ==> encode_utf8(#[trigger] s@.skip(j)).len() != n,
        decreases len - k,
    {
        let t = skip(s, k);
        if t.as_str().as_bytes().len() == n {
            return Some(t);
        }
        k = k + 1;
    }
    let t = skip(s, len);
    if t.as_str().as_bytes().len() == n {
        return Some(t);
    }
    None
}

/// The frame that is shown before a shell, a line each.
pub open spec fn banner_lines(
    id: Seq<char>,
    root_tail: Seq<char>,
    network: Seq<char>,
    l: IsolationLevel,
) -> Seq<Seq<char>> {
    seq![
        "╔══════════════════════════════════════════════════╗"@,
        "║  Psroot Interactive Shell                        ║"@,
        "║  Container: "@ + padded(id, 37) + "║"@,
        "║  Rootfs   : ..."@ + padded(root_tail, 34) + "║"@,
        "║  Network  : "@ + padded(network, 8) + "  Sandbox: AppContainer       ║"@,
        "║  Isolation: "@ + padded(l.tier(), 37) + "║"@,
        "║  Type 'exit' to leave the sandbox                ║"@,
        "╚══════════════════════════════════════════════════╝"@,
    ] + l.warnings_text() + seq![""@]
}

/// The frame that is shown before a shell; `root_tail` is the end of its root
/// directory.
pub fn print_shell_banner(id: &str, root_tail: &str, network: &str, l: &IsolationLevel) -> (v: Vec<
    String,
>)
    ensures
        texts(v@) == banner_lines(id@, root_tail@, network@, *l),
{
    let a = pad(id, 37);
    let b = pad(root_tail, 34);
    let c = pad(network, 8);
    let d = pad(l.tier_name(), 37);
    let mut v: Vec<String> = Vec::new();
    v.push("╔══════════════════════════════════════════════════╗".to_owned());
    v.push("║  Psroot Interactive Shell                        ║".to_owned());
    v.push(concat3("║  Container: ", a.as_str(), "║"));
    v.push(concat3("║  Rootfs   : ...", b.as_str(), "║"));
    v.push(concat3("║  Network  : ", c.as_str(), "  Sandbox: AppContainer       ║"));
    v.push(concat3("║  Isolation: ", d.as_str(), "║"));
    v.push("║  Type 'exit' to leave the sandbox                ║".to_owned());
    v.push("╚══════════════════════════════════════════════════╝".to_owned());
    let mut w = l.print_warnings();
    let ghost head = v@;
    let ghost tail = w@;
    v.append(&mut w);
    assert(texts(v@) =~= texts(head) + texts(tail));
    push_line(&mut v, "".to_owned());
    assert(texts(v@) =~= banner_lines(id@, root_tail@, network@, *l));
    v
}

/// The lines about the ports of a container that was started, for those that
/// have one to listen on.
pub open spec fn running_ports(ports: Seq<Publish>) -> Seq<Seq<char>>
    decreases ports.len(),
{
    if ports.len() == 0 {
        seq![]
    } else {
        let rest = running_ports(ports.drop_last());
        let p = ports.last();
        match p.ephemeral_port {
            Some(e) => rest.push(
                "  Port: "@ + p.host_bind + ":"@ + decimal(p.host_port as nat) + " -> 127.0.0.1:"@
                    + (decimal(e as nat) + " (container port "@ + decimal(p.container_port as nat)
                    + ")"@),
            ),
            None => rest,
        }
    }
}

/// The lines about the ports of a container that was started.
pub fn show_running_ports(ports: &Vec<PortMapping>) -> (v: Vec<String>)
    ensures
        texts(v@) == running_ports(publishes(ports@)),
{
    let ghost all = publishes(ports@);
    let mut v: Vec<String> = Vec::new();
    let mut i: usize = 0;
    proof {
        assert(all.take(0) =~= Seq::<Publish>::empty());
        assert(texts(v@) =~= Seq::<Seq<char>>::empty());
    }
    while i < ports.len()
        invariant
            i <= ports.len(),
            all == publishes(ports@),
            texts(v@) == running_ports(all.take(i as int)),
        decreases ports.len() - i,
    {
        proof {
            let t = all.take(i + 1);
            assert(t.drop_last() =~= all.take(i as int));
            assert(t.last() == ports[i as int]@);
        }
        if let Some(e) = ports[i].ephemeral_port {
            let h = decimal_text(ports[i].host_port as u128);
            let c = decimal_text(ports[i].container_port as u128);
            let n = decimal_text(e as u128);
            let tail = concat4(n.as_str(), " (container port ", c.as_str(), ")");
            let head = concat5(
                "  Port: ",
                ports[i].host_bind.as_str(),
                ":",
                h.as_str(),
                " -> 127.0.0.1:",
            );
            push_line(&mut v, concat2(head.as_str(), tail.as_str()));
        }
        i = i + 1;
    }
    assert(all.take(all.len() as int) =~= all);
    v
}

/// The list of containers has a row for each that is wanted, in their order, with
/// its own id, state, time and ports.
pub proof fn law_rows(l: Seq<Listed>, e: Listed, w: Seq<char>)
    ensures
        rows(l.push(e), None) == rows(l, None).push(
            row(e.id, e.status.label(), e.created, ports_form(e.ports)),
        ),
        w == e.status.label() ==> rows(l.push(e), Some(w)) == rows(l, Some(w)).push(
            row(e.id, e.status.label(), e.created, ports_form(e.ports)),
        ),
        w != e.status.label() ==> rows(l.push(e), Some(w)) == rows(l, Some(w)),
        rows(l, None).len() >= rows(l, Some(w)).len(),
    decreases l.len(),
{
    assert(l.push(e).drop_last() =~= l);
    if l.len() > 0 {
        law_rows(l.drop_last(), l.last(), w);
        assert(l.drop_last().push(l.last()) =~= l);
    }
}

/// A published port is shown as the host's side and then the container's.
pub proof fn law_port_form(p: Publish)
    ensures
        port_form(p) == p.host_bind + ":"@ + decimal(p.host_port as nat) + "->"@ + decimal(
            p.container_port as nat,
        ),
        ports_form(Seq::empty()) == "—"@,
        ports_form(seq![p]) == port_form(p),
{
    assert(Seq::new(seq![p].len(), |i: int| port_form(seq![p][i])) =~= seq![port_form(p)]);
}

/// A running container tells where each of its published ports leads: to the
/// port that was chosen for it.
pub proof fn law_running_ports(ports: Seq<Publish>, p: Publish)
    ensures
        p.ephemeral_port is None ==> running_ports(ports.push(p)) == running_ports(ports),
        p.ephemeral_port matches Some(e) ==> running_ports(ports.push(p)).drop_last()
            == running_ports(ports) && running_ports(ports.push(p)).last() == "  Port: "@
            + p.host_bind + ":"@ + decimal(p.host_port as nat) + " -> 127.0.0.1:"@ + (decimal(
            e as nat,
        ) + " (container port "@ + decimal(p.container_port as nat) + ")"@),
{
    assert(ports.push(p).drop_last() =~= ports);
    assert(running_ports(ports.push(p)).drop_last() =~= running_ports(ports)
        || p.ephemeral_port is None);
}

/// Setup tells of each check whether it is met, and what it is needed for where
/// it is not; and counts those.
pub proof fn law_setup_report(c: Seq<Check>, x: Check)
    ensures
        x.ok ==> all_check_lines(c.push(x)) == all_check_lines(c) + seq!["  [OK    ] "@ + x.path],
        !x.ok ==> all_check_lines(c.push(x)) == all_check_lines(c) + seq![
            "  [MISSING] "@ + x.path,
            "           -> "@ + x.note,
        ],
        needed(c.push(x)) == needed(c) + (if x.ok {
            0nat
        } else {
            1nat
        }),
{
    assert(c.push(x).drop_last() =~= c);
}

/// What was granted is told path by path, and that a privilege takes effect only
/// after the next login.
pub proof fn law_setup_result(p: Seq<Seq<char>>, x: Seq<char>)
    ensures
        p.len() == 0 ==> setup_tail(p) == seq!["All prerequisites satisfied. Nothing to do."@],
        x != "SeTcbPrivilege (LSA)"@ ==> all_applied_lines(p.push(x)) == all_applied_lines(p)
            + seq!["  + granted ALL APPLICATION PACKAGES on "@ + x],
        x == "SeTcbPrivilege (LSA)"@ ==> all_applied_lines(p.push(x)).last()
            == "    NOTE: Log out and back in for the new privilege to take effect."@,
        p.len() > 0 ==> setup_tail(p).last()
            == "Setup complete. You can now run:  psroot shell --shell pwsh"@,
{
    assert(p.push(x).drop_last() =~= p);
}

/// The usage of a container is shown under its id: memory in mebibytes, times,
/// processes that run out of those that ran, and the bytes read and written.
pub proof fn law_stats_report(id: Seq<char>, s: ContainerStats)
    ensures
        stats_lines(id, s)[0] == "Container: "@ + id,
        stats_lines(id, s)[1] == "Memory Usage:   "@ + decimal(
            (s.memory_usage as nat / (1024 * 1024)) as nat,
        ) + " MB"@,
        stats_lines(id, s)[2] == "CPU User:       "@ + decimal(s.cpu_user_time as nat) + " ticks"@,
        stats_lines(id, s)[3] == "CPU Kernel:     "@ + decimal(s.cpu_kernel_time as nat)
            + " ticks"@,
        stats_lines(id, s)[4] == "Processes:      "@ + decimal(s.process_count as nat) + "/"@
            + decimal(s.total_processes as nat),
        stats_lines(id, s)[5] == "IO Read:        "@ + decimal(s.io_read_bytes as nat) + " bytes"@,
        stats_lines(id, s)[6] == "IO Write:       "@ + decimal(s.io_write_bytes as nat)
            + " bytes"@,
        stats_lines(id, s).len() == 7,
{
}

/// What is offered is told as it is: each line says yes exactly where the host
/// has what it is about.
pub proof fn law_info_report(c: Capabilities, l: IsolationLevel)
    ensures
        info_lines(c, l)[2] == "Windows Build:    "@ + decimal(c.build_number as nat),
        c.is_admin ==> info_lines(c, l)[3] == "Administrator:    "@ + "YES"@,
        !c.is_admin ==> info_lines(c, l)[3] == "Administrator:    "@ + "NO"@,
        c.server_silos ==> info_lines(c, l)[6] == "Server Silos:     "@ + "✓ (build >= 17763)"@,
        !c.server_silos ==> info_lines(c, l)[6] == "Server Silos:     "@
            + "✗ (needs admin + build >= 17763)"@,
        c.bind_filter ==> info_lines(c, l)[7] == "Bind Filter:      "@ + "✓ (build >= 26100)"@,
        !c.bind_filter ==> info_lines(c, l)[7] == "Bind Filter:      "@
            + "✗ (needs admin + build >= 26100)"@,
        info_lines(c, l)[10] == "Isolation Level:  "@ + l.tier(),
        info_lines(c, l).skip(11) == l.warnings_text(),
{
    assert(info_lines(c, l).skip(11) =~= l.warnings_text());
}

/// Setup says how many grants it makes, or would make where it only looks; and
/// says so where none is needed.
pub proof fn law_setup_head(cache: Seq<char>, c: Seq<Check>)
    ensures
        setup_head(cache, c, true)[1] == "  cache root: "@ + cache,
        needed(c) == 0 ==> setup_head(cache, c, true).last()
            == "All ACE prerequisites satisfied. (Privilege grants not checked in dry-run.)"@,
        needed(c) > 0 ==> setup_head(cache, c, true).last() == "[dry-run] "@ + decimal(needed(c))
            + " ACE grant(s) would be applied. Re-run without --dry-run."@,
        needed(c) > 0 ==> setup_head(cache, c, false).last() == "Applying "@ + decimal(needed(c))
            + " ACE grant(s) (requires admin)..."@,
        needed(c) == 0 ==> setup_head(cache, c, false).last() == ""@,
{
}

/// A list of containers has a heading over its columns, and says so where there
/// is none.
pub proof fn law_list_report(l: Seq<Listed>, w: Option<Seq<char>>)
    ensures
        l.len() == 0 ==> list_lines(l, w) == seq!["No containers"@],
        l.len() > 0 ==> list_lines(l, w)[0] == row("ID"@, "STATUS"@, "CREATED"@, "PORTS"@)
            && list_lines(l, w).skip(2) == rows(l, w),
{
    if l.len() > 0 {
        assert(list_lines(l, w).skip(2) =~= rows(l, w));
    }
}

} // verus!
