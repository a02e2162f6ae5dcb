//! What is shown of a resolved shell: how it would be staged and started.

use crate::cli::report::push_line;
use crate::container::env::pairs;
use crate::container::lifecycle::PlanAce;
use crate::show::{
    bool_form, bool_text, debug_list, join_texts, list_form, pad, padded, repeat_char, repeated,
};
use crate::text::{concat2, concat3, concat4, concat5, decimal, decimal_text, join, texts};
use vstd::prelude::*;

verus! {

/// An operation that stages a shell.
#[derive(Clone, Debug)]
pub enum StageOp {
    EnsureDir { dst: String },
    /// `exclude` counts the patterns that are left out.
    HardlinkTree { src: String, dst: String, exclude: usize },
    CopyTree { src: String, dst: String, exclude: usize },
    Junction { src: String, dst: String },
    Symlink { src: String, dst: String },
    /// `bytes` is the length of the text.
    WriteText { dst: String, bytes: usize },
}

/// A shell of the catalog as it was found on the host.
pub struct ResolvedShell {
    pub shell_name: String,
    pub version: String,
    pub cache_dir: String,
    pub stage: Vec<StageOp>,
    pub aces: Vec<PlanAce>,
    pub caps: Vec<String>,
    pub entry: String,
    pub args: Vec<String>,
    pub cwd: String,
    pub env: Vec<(String, String)>,
}

/// The lines about a copied tree.
pub open spec fn tree_lines(
    n: Seq<char>,
    name: Seq<char>,
    src: Seq<char>,
    dst: Seq<char>,
    exclude: nat,
) -> Seq<Seq<char>> {
    seq![
        "  "@ + n + ". "@ + name,
        "       src     : "@ + src,
        "       dst     : "@ + dst,
        "       exclude : "@ + decimal(exclude) + " patterns"@,
    ]
}

/// The lines about the `n`th operation.
pub open spec fn op_lines(n: nat, op: StageOp) -> Seq<Seq<char>> {
    let i = decimal(n);
    match op {
        StageOp::EnsureDir { dst } => seq!["  "@ + i + ". ensure_dir   "@ + dst@],
        StageOp::HardlinkTree { src, dst, exclude } => tree_lines(
            i,
            "hardlink_tree"@,
            src@,
            dst@,
            exclude as nat,
        ),
        StageOp::CopyTree { src, dst, exclude } => tree_lines(
            i,
            "copy_tree"@,
            src@,
            dst@,
            exclude as nat,
        ),
        StageOp::Junction { src, dst } => seq![
            "  "@ + i + ". junction     "@ + (dst@ + " -> "@ + src@),
        ],
        StageOp::Symlink { src, dst } => seq![
            "  "@ + i + ". symlink      "@ + (dst@ + " -> "@ + src@),
        ],
        StageOp::WriteText { dst, bytes } => seq![
            "  "@ + i + ". write_text   "@ + (dst@ + " ("@ + decimal(bytes as nat) + " bytes)"@),
        ],
    }
}

/// The lines about the operations.
pub open spec fn ops_lines(ops: Seq<StageOp>) -> Seq<Seq<char>>
    decreases ops.len(),
{
    if ops.len() == 0 {
        seq![]
    } else {
        ops_lines(ops.drop_last()) + op_lines(ops.len(), ops.last())
    }
}

/// The line about a right.
pub open spec fn ace_line(a: PlanAce) -> Seq<char> {
    "  + AC-SID:RX "@ + (if a.inherit {
        "(inherit)"@
    } else {
        ""@
    }) + " on "@ + a.path@
}

/// All that is shown of a resolved shell.
pub open spec fn explain_lines(p: ResolvedShell) -> Seq<Seq<char>> {
    seq![
        "Resolved shell: "@ + p.shell_name@ + "@"@ + p.version@,
        "  Cache : "@ + p.cache_dir@,
        ""@,
        "Stage operations ("@ + decimal(p.stage@.len()) + "):"@,
    ] + ops_lines(p.stage@) + seq![
        ""@,
        "ACE grants ("@ + decimal(p.aces@.len()) + "):"@,
    ] + Seq::new(p.aces@.len(), |i: int| ace_line(p.aces@[i])) + seq![
        ""@,
        "Capabilities ("@ + decimal(p.caps@.len()) + "):"@,
    ] + Seq::new(p.caps@.len(), |i: int| "  + "@ + p.caps@[i]@) + seq![
        ""@,
        "Launch:"@,
        "  exe : "@ + p.entry@,
        "  args: "@ + list_form(texts(p.args@)),
        "  cwd : "@ + p.cwd@,
        "  env diff:"@,
    ] + Seq::new(p.env@.len(), |i: int| "    "@ + p.env@[i].0@ + " = "@ + p.env@[i].1@)
}

fn push_tree(v: &mut Vec<String>, n: &str, name: &str, src: &str, dst: &str, exclude: usize)
    ensures
        texts(final(v)@) == texts(old(v)@) + tree_lines(n@, name@, src@, dst@, exclude as nat),
{
    let e = decimal_text(exclude as u128);
    push_line(v, concat4("  ", n, ". ", name));
    push_line(v, concat2("       src     : ", src));
    push_line(v, concat2("       dst     : ", dst));
    push_line(v, concat3("       exclude : ", e.as_str(), " patterns"));
    assert(texts(v@) =~= texts(old(v)@) + tree_lines(n@, name@, src@, dst@, exclude as nat));
}

fn push_op(v: &mut Vec<String>, n: usize, op: &StageOp)
    ensures
        texts(final(v)@) == texts(old(v)@) + op_lines(n as nat, *op),
{
    let i = decimal_text(n as u128);
    match op {
        StageOp::EnsureDir { dst } => {
            push_line(v, concat4("  ", i.as_str(), ". ensure_dir   ", dst.as_str()));
        },
        StageOp::HardlinkTree { src, dst, exclude } => {
            push_tree(v, i.as_str(), "hardlink_tree", src.as_str(), dst.as_str(), *exclude);
        },
        StageOp::CopyTree { src, dst, exclude } => {
            push_tree(v, i.as_str(), "copy_tree", src.as_str(), dst.as_str(), *exclude);
        },
        StageOp::Junction { src, dst } => {
            let t = concat3(dst.as_str(), " -> ", src.as_str());
            push_line(v, concat4("  ", i.as_str(), ". junction     ", t.as_str()));
        },
        StageOp::Symlink { src, dst } => {
            let t = concat3(dst.as_str(), " -> ", src.as_str());
            push_line(v, concat4("  ", i.as_str(), ". symlink      ", t.as_str()));
        },
        StageOp::WriteText { dst, bytes } => {
            let b = decimal_text(*bytes as u128);
            let t = concat4(dst.as_str(), " (", b.as_str(), " bytes)");
            push_line(v, concat4("  ", i.as_str(), ". write_text   ", t.as_str()));
        },
    }
    assert(texts(v@) =~= texts(old(v)@) + op_lines(n as nat, *op));
}

fn push_ops(v: &mut Vec<String>, ops: &Vec<StageOp>)
    ensures
        texts(final(v)@) == texts(old(v)@) + ops_lines(ops@),
{
    let ghost start = texts(v@);
    let mut i: usize = 0;
    assert(ops@.take(0) =~= Seq::<StageOp>::empty());
    assert(start + ops_lines(ops@.take(0)) =~= start);
    while i < ops.len()
        invariant
            i <= ops.len(),
            texts(v@) == start + ops_lines(ops@.take(i as int)),
        decreases ops.len() - i,
    {
        let ghost before = texts(v@);
        push_op(v, i + 1, &ops[i]);
        proof {
            let t = ops@.take(i + 1);
            assert(t.drop_last() =~= ops@.take(i as int));
            assert(t.last() == ops[i as int]);
            let lines = op_lines((i + 1) as nat, ops[i as int]);
            assert(start + ops_lines(ops@.take(i as int)) + lines =~= start + (ops_lines(
                ops@.take(i as int),
            ) + lines));
        }
        i = i + 1;
    }
    assert(ops@.take(ops@.len() as int) =~= ops@);
}

fn push_aces(v: &mut Vec<String>, aces: &Vec<PlanAce>)
    ensures
        texts(final(v)@) == texts(old(v)@) + Seq::new(aces@.len(), |i: int| ace_line(aces@[i])),
{
    let ghost start = texts(v@);
    let ghost all = Seq::new(aces@.len(), |i: int| ace_line(aces@[i]));
    let mut i: usize = 0;
    assert(start + all.take(0) =~= start);
    while i < aces.len()
        invariant
            i <= aces.len(),
            all == Seq::new(aces@.len(), |i: int| ace_line(aces@[i])),
            texts(v@) == start + all.take(i as int),
        decreases aces.len() - i,
    {
        let mark = if aces[i].inherit {
            "(inherit)"
        } else {
            ""
        };
        push_line(v, concat4("  + AC-SID:RX ", mark, " on ", aces[i].path.as_str()));
        assert((start + all.take(i as int)).push(all[i as int]) =~= start + all.take(i + 1));
        i = i + 1;
    }
    assert(all.take(all.len() as int) =~= all);
}

fn push_caps(v: &mut Vec<String>, caps: &Vec<String>)
    ensures
        texts(final(v)@) == texts(old(v)@) + Seq::new(caps@.len(), |i: int| "  + "@ + caps@[i]@),
{
    let ghost start = texts(v@);
    let ghost all = Seq::new(caps@.len(), |i: int| "  + "@ + caps@[i]@);
    let mut i: usize = 0;
    assert(start + all.take(0) =~= start);
    while i < caps.len()
        invariant
            i <= caps.len(),
            all == Seq::new(caps@.len(), |i: int| "  + "@ + caps@[i]@),
            texts(v@) == start + all.take(i as int),
        decreases caps.len() - i,
    {
        push_line(v, concat2("  + ", caps[i].as_str()));
        assert((start + all.take(i as int)).push(all[i as int]) =~= start + all.take(i + 1));
        i = i + 1;
    }
    assert(all.take(all.len() as int) =~= all);
}

fn push_env(v: &mut Vec<String>, env: &Vec<(String, String)>)
    ensures
        texts(final(v)@) == texts(old(v)@) + Seq::new(
            env@.len(),
            |i: int| "    "@ + env@[i].0@ + " = "@ + env@[i].1@,
        ),
{
    let ghost start = texts(v@);
    let ghost all = Seq::new(env@.len(), |i: int| "    "@ + env@[i].0@ + " = "@ + env@[i].1@);
    let mut i: usize = 0;
    assert(start + all.take(0) =~= start);
    while i < env.len()
        invariant
            i <= env.len(),
            all == Seq::new(env@.len(), |i: int| "    "@ + env@[i].0@ + " = "@ + env@[i].1@),
            texts(v@) == start + all.take(i as int),
        decreases env.len() - i,
    {
        push_line(v, concat4("    ", env[i].0.as_str(), " = ", env[i].1.as_str()));
        assert((start + all.take(i as int)).push(all[i as int]) =~= start + all.take(i + 1));
        i = i + 1;
    }
    assert(all.take(all.len() as int) =~= all);
}

/// All that is shown of a resolved shell.
pub fn print_explain(p: &ResolvedShell) -> (v: Vec<String>)
    ensures
        texts(v@) == explain_lines(*p),
{
    let stage = decimal_text(p.stage.len() as u128);
    let aces = decimal_text(p.aces.len() as u128);
    let caps = decimal_text(p.caps.len() as u128);
    let args = debug_list(&p.args);
    let mut v: Vec<String> = Vec::new();
    assert(texts(v@) =~= Seq::<Seq<char>>::empty());
    push_line(
        &mut v,
        concat4("Resolved shell: ", p.shell_name.as_str(), "@", p.version.as_str()),
    );
    push_line(&mut v, concat2("  Cache : ", p.cache_dir.as_str()));
    push_line(&mut v, "".to_owned());
    push_line(&mut v, concat3("Stage operations (", stage.as_str(), "):"));
    let ghost s1 = texts(v@);
    push_ops(&mut v, &p.stage);
    push_line(&mut v, "".to_owned());
    push_line(&mut v, concat3("ACE grants (", aces.as_str(), "):"));
    let ghost s2 = texts(v@);
    push_aces(&mut v, &p.aces);
    push_line(&mut v, "".to_owned());
    push_line(&mut v, concat3("Capabilities (", caps.as_str(), "):"));
    let ghost s3 = texts(v@);
    push_caps(&mut v, &p.caps);
    push_line(&mut v, "".to_owned());
    push_line(&mut v, "Launch:".to_owned());
    push_line(&mut v, concat2("  exe : ", p.entry.as_str()));
    push_line(&mut v, concat2("  args: ", args.as_str()));
    push_line(&mut v, concat2("  cwd : ", p.cwd.as_str()));
    push_line(&mut v, "  env diff:".to_owned());
    let ghost s4 = texts(v@);
    push_env(&mut v, &p.env);
    proof {
        let h1 = seq![
            "Resolved shell: "@ + p.shell_name@ + "@"@ + p.version@,
            "  Cache : "@ + p.cache_dir@,
            ""@,
            "Stage operations ("@ + decimal(p.stage@.len()) + "):"@,
        ];
        assert(s1 =~= h1);
        let h2 = seq![""@, "ACE grants ("@ + decimal(p.aces@.len()) + "):"@];
        assert(s2 =~= h1 + ops_lines(p.stage@) + h2);
        let a = Seq::new(p.aces@.len(), |i: int| ace_line(p.aces@[i]));
        let h3 = seq![""@, "Capabilities ("@ + decimal(p.caps@.len()) + "):"@];
        assert(s3 =~= s2 + a + h3);
        let c = Seq::new(p.caps@.len(), |i: int| "  + "@ + p.caps@[i]@);
        let h4 = seq![
            ""@,
            "Launch:"@,
            "  exe : "@ + p.entry@,
            "  args: "@ + list_form(texts(p.args@)),
            "  cwd : "@ + p.cwd@,
            "  env diff:"@,
        ];
        assert(s4 =~= s3 + c + h4);
    }
    v
}

/// What is shown where a shell given by its path is explained.
pub open spec fn legacy_lines(
    exe: Seq<char>,
    args: Seq<Seq<char>>,
    line: Seq<char>,
    root: Seq<char>,
    shares: Seq<Seq<char>>,
    binds: Seq<Seq<char>>,
    env: Seq<Seq<char>>,
    network: Seq<char>,
    ports: Seq<Seq<char>>,
) -> Seq<Seq<char>> {
    seq![
        "--explain (legacy --shell-binary path):"@,
        "  exe       : "@ + exe,
        "  args      : "@ + list_form(args),
        "  cmdline   : "@ + line,
        "  rootfs    : "@ + root,
        "  shares    : "@ + list_form(shares),
        "  binds     : "@ + list_form(binds),
        "  shell-env : "@ + list_form(env),
        "  network   : "@ + network,
        "  ports     : "@ + list_form(ports),
    ]
}

/// What is shown where a shell given by its path is explained.
pub fn explain_legacy(
    exe: &str,
    args: &crate::cli::shell::ShellArgs,
    line: &str,
    root: &str,
) -> (v: Vec<String>)
    ensures
        texts(v@) == legacy_lines(
            exe@,
            texts(args.shell_arg@),
            line@,
            root@,
            texts(args.share@),
            texts(args.bind@),
            texts(args.shell_env@),
            args.network@,
            texts(args.publish@),
        ),
{
    let a = debug_list(&args.shell_arg);
    let b = debug_list(&args.share);
    let c = debug_list(&args.bind);
    let d = debug_list(&args.shell_env);
    let e = debug_list(&args.publish);
    let v = vec![
        "--explain (legacy --shell-binary path):".to_owned(),
        concat2("  exe       : ", exe),
        concat2("  args      : ", a.as_str()),
        concat2("  cmdline   : ", line),
        concat2("  rootfs    : ", root),
        concat2("  shares    : ", b.as_str()),
        concat2("  binds     : ", c.as_str()),
        concat2("  shell-env : ", d.as_str()),
        concat2("  network   : ", args.network.as_str()),
        concat2("  ports     : ", e.as_str()),
    ];
    assert(texts(v@) =~= legacy_lines(
        exe@,
        texts(args.shell_arg@),
        line@,
        root@,
        texts(args.share@),
        texts(args.bind@),
        texts(args.shell_env@),
        args.network@,
        texts(args.publish@),
    ));
    v
}

/// What staging a shell came to.
#[derive(Clone, Debug)]
pub struct StageOutcome {
    pub ops_run: usize,
    pub ops_skipped: usize,
    pub cache_hit: bool,
    pub aces: usize,
    pub cache_dir: String,
}

/// What is shown before a shell is staged, and after.
pub open spec fn stage_lines(name: Seq<char>, version: Seq<char>, cache: Seq<char>, o: StageOutcome) -> Seq<
    Seq<char>,
> {
    seq![
        "Staging "@ + name + " "@ + version + (" to "@ + cache),
        "  ops run     : "@ + decimal(o.ops_run as nat),
        "  ops skipped : "@ + decimal(o.ops_skipped as nat) + " (cache hit: "@ + bool_form(
            o.cache_hit,
        ) + ")"@,
        "  ACEs        : "@ + decimal(o.aces as nat),
        "Done. Cache  : "@ + o.cache_dir@,
    ]
}

/// What is shown of the staging of a shell.
pub fn cmd_stage(name: &str, version: &str, cache: &str, o: &StageOutcome) -> (v: Vec<String>)
    ensures
        texts(v@) == stage_lines(name@, version@, cache@, *o),
{
    let run = decimal_text(o.ops_run as u128);
    let skipped = decimal_text(o.ops_skipped as u128);
    let aces = decimal_text(o.aces as u128);
    let to = concat2(" to ", cache);
    let v = vec![
        concat5("Staging ", name, " ", version, to.as_str()),
        concat2("  ops run     : ", run.as_str()),
        concat5(
            "  ops skipped : ",
            skipped.as_str(),
            " (cache hit: ",
            bool_text(o.cache_hit),
            ")",
        ),
        concat2("  ACEs        : ", aces.as_str()),
        concat2("Done. Cache  : ", o.cache_dir.as_str()),
    ];
    assert(texts(v@) =~= stage_lines(name@, version@, cache@, *o));
    v
}

/// The name of a shell, or its display name where it has one.
pub open spec fn shown_name(name: Seq<char>, display: Seq<char>) -> Seq<char> {
    if display.len() == 0 {
        name
    } else {
        display
    }
}

/// The list of the shells of the catalog.
pub open spec fn shell_lines(entries: Seq<(Seq<char>, Seq<char>)>) -> Seq<Seq<char>> {
    seq![padded("NAME"@, 14) + " "@ + "DISPLAY"@, repeated('─', 60)] + Seq::new(
        entries.len(),
        |i: int| padded(entries[i].0, 14) + " "@ + shown_name(entries[i].0, entries[i].1),
    )
}

/// The list of the shells of the catalog, from their names and display names.
pub fn cmd_shell_list(entries: &Vec<(String, String)>) -> (v: Vec<String>)
    ensures
        texts(v@) == shell_lines(pairs(entries@)),
{
    let ghost p = pairs(entries@);
    let ghost all = Seq::new(
        p.len(),
        |i: int| padded(p[i].0, 14) + " "@ + shown_name(p[i].0, p[i].1),
    );
    let mut v: Vec<String> = Vec::new();
    let head = pad("NAME", 14);
    v.push(concat3(head.as_str(), " ", "DISPLAY"));
    v.push(repeat_char('─', 60));
    let ghost start = texts(v@);
    let mut i: usize = 0;
    assert(start + all.take(0) =~= start);
    while i < entries.len()
        invariant
            i <= entries.len(),
            p == pairs(entries@),
            all == Seq::new(
                p.len(),
                |i: int| padded(p[i].0, 14) + " "@ + shown_name(p[i].0, p[i].1),
            ),
            texts(v@) == start + all.take(i as int),
        decreases entries.len() - i,
    {
        let name = pad(entries[i].0.as_str(), 14);
        let shown = if entries[i].1.as_str().is_empty() {
            entries[i].0.as_str()
        } else {
            entries[i].1.as_str()
        };
        push_line(&mut v, concat3(name.as_str(), " ", shown));
        assert((start + all.take(i as int)).push(all[i as int]) =~= start + all.take(i + 1));
        i = i + 1;
    }
    proof {
        assert(all.take(all.len() as int) =~= all);
        assert(start =~= seq![padded("NAME"@, 14) + " "@ + "DISPLAY"@, repeated('─', 60)]);
    }
    v
}

/// What is known of a shell on this host.
pub enum ShellFound {
    Installed {
        entry: String,
        version: String,
        cache_dir: String,
        cached: bool,
        stage_ops: usize,
        aces: usize,
        /// The capabilities as a list shows them.
        caps: String,
    },
    Missing(String),
}

/// What is shown of a shell of the catalog.
pub open spec fn shell_info_lines(
    name: Seq<char>,
    display: Seq<char>,
    aliases: Seq<Seq<char>>,
    probes: nat,
    found: ShellFound,
) -> Seq<Seq<char>> {
    seq![
        "Catalog entry : "@ + name + " ("@ + (if display.len() == 0 {
            "—"@
        } else {
            display
        }) + ")"@,
        "Aliases       : "@ + join(aliases, ", "@),
        "Probe rules   : "@ + decimal(probes),
    ] + match found {
        ShellFound::Installed { entry, version, cache_dir, cached, stage_ops, aces, caps } => seq![
            "Host install  : "@ + entry@ + " (v"@ + version@ + ")"@,
            "Cache dir     : "@ + cache_dir@ + " (exists: "@ + bool_form(cached) + ")"@,
            "Stage ops     : "@ + decimal(stage_ops as nat),
            "ACE grants    : "@ + decimal(aces as nat),
            "Caps (outbound): "@ + caps@,
        ],
        ShellFound::Missing(e) => seq!["Status        : NOT INSTALLED ("@ + e@ + ")"@],
    }
}

/// What is shown of a shell of the catalog.
pub fn cmd_shell_info(
    name: &str,
    display: &str,
    aliases: &Vec<String>,
    probes: usize,
    found: &ShellFound,
) -> (v: Vec<String>)
    ensures
        texts(v@) == shell_info_lines(name@, display@, texts(aliases@), probes as nat, *found),
{
    let all = join_texts(aliases, ", ");
    let n = decimal_text(probes as u128);
    let shown = if display.is_empty() {
        "—"
    } else {
        display
    };
    let mut v: Vec<String> = Vec::new();
    v.push(concat5("Catalog entry : ", name, " (", shown, ")"));
    v.push(concat2("Aliases       : ", all.as_str()));
    v.push(concat2("Probe rules   : ", n.as_str()));
    match found {
        ShellFound::Installed { entry, version, cache_dir, cached, stage_ops, aces, caps } => {
            let s = decimal_text(*stage_ops as u128);
            let a = decimal_text(*aces as u128);
            v.push(concat5("Host install  : ", entry.as_str(), " (v", version.as_str(), ")"));
            v.push(
                concat5(
                    "Cache dir     : ",
                    cache_dir.as_str(),
                    " (exists: ",
                    bool_text(*cached),
                    ")",
                ),
            );
            v.push(concat2("Stage ops     : ", s.as_str()));
            v.push(concat2("ACE grants    : ", a.as_str()));
            v.push(concat2("Caps (outbound): ", caps.as_str()));
        },
        ShellFound::Missing(e) => {
            v.push(concat3("Status        : NOT INSTALLED (", e.as_str(), ")"));
        },
    }
    assert(texts(v@) =~= shell_info_lines(
        name@,
        display@,
        texts(aliases@),
        probes as nat,
        *found,
    ));
    v
}

/// Staging is explained operation by operation, numbered from 1, each with where
/// it reads from and where it puts what it makes.
pub proof fn law_explained_operations(ops: Seq<StageOp>, op: StageOp)
    ensures
        ops_lines(ops.push(op)) == ops_lines(ops) + op_lines(ops.len() + 1, op),
        op matches StageOp::Junction { src, dst } ==> op_lines(1, op) == seq![
            "  "@ + decimal(1) + ". junction     "@ + (dst@ + " -> "@ + src@),
        ],
        op matches StageOp::Symlink { src, dst } ==> op_lines(1, op) == seq![
            "  "@ + decimal(1) + ". symlink      "@ + (dst@ + " -> "@ + src@),
        ],
        op matches StageOp::HardlinkTree { src, dst, exclude } ==> op_lines(1, op)[1]
            == "       src     : "@ + src@ && op_lines(1, op)[2] == "       dst     : "@ + dst@
            && op_lines(1, op)[0] == "  "@ + decimal(1) + ". "@ + "hardlink_tree"@,
        op matches StageOp::CopyTree { src, dst, exclude } ==> op_lines(1, op)[1]
            == "       src     : "@ + src@ && op_lines(1, op)[2] == "       dst     : "@ + dst@
            && op_lines(1, op)[0] == "  "@ + decimal(1) + ". "@ + "copy_tree"@,
        op matches StageOp::EnsureDir { dst } ==> op_lines(1, op) == seq![
            "  "@ + decimal(1) + ". ensure_dir   "@ + dst@,
        ],
        op matches StageOp::WriteText { dst, bytes } ==> op_lines(1, op) == seq![
            "  "@ + decimal(1) + ". write_text   "@ + (dst@ + " ("@ + decimal(bytes as nat)
                + " bytes)"@),
        ],
{
    assert(ops.push(op).drop_last() =~= ops);
}

/// A right is explained with its path, and as handed on exactly where it is.
pub proof fn law_explained_rights(a: PlanAce)
    ensures
        a.inherit ==> ace_line(a) == "  + AC-SID:RX "@ + "(inherit)"@ + " on "@ + a.path@,
        !a.inherit ==> ace_line(a) == "  + AC-SID:RX "@ + ""@ + " on "@ + a.path@,
{
}

/// A shell is listed under its name, with what it is shown as, or its name again
/// where it is shown as nothing.
pub proof fn law_listed_shells(entries: Seq<(Seq<char>, Seq<char>)>, i: int)
    requires
        0 <= i < entries.len(),
    ensures
        shell_lines(entries).len() == entries.len() + 2,
        entries[i].1.len() > 0 ==> shell_lines(entries)[i + 2] == padded(entries[i].0, 14) + " "@
            + entries[i].1,
        entries[i].1.len() == 0 ==> shell_lines(entries)[i + 2] == padded(entries[i].0, 14) + " "@
            + entries[i].0,
{
}

/// What a shell that is given by its path is started with, under its label.
pub proof fn law_explained_path(
    exe: Seq<char>,
    args: Seq<Seq<char>>,
    line: Seq<char>,
    root: Seq<char>,
    shares: Seq<Seq<char>>,
    binds: Seq<Seq<char>>,
    env: Seq<Seq<char>>,
    network: Seq<char>,
    ports: Seq<Seq<char>>,
)
    ensures
        ({
            let l = legacy_lines(exe, args, line, root, shares, binds, env, network, ports);
            &&& l.len() == 10
            &&& l[1] == "  exe       : "@ + exe
            &&& l[2] == "  args      : "@ + list_form(args)
            &&& l[3] == "  cmdline   : "@ + line
            &&& l[4] == "  rootfs    : "@ + root
            &&& l[5] == "  shares    : "@ + list_form(shares)
            &&& l[6] == "  binds     : "@ + list_form(binds)
            &&& l[7] == "  shell-env : "@ + list_form(env)
            &&& l[8] == "  network   : "@ + network
            &&& l[9] == "  ports     : "@ + list_form(ports)
        }),
{
}

/// What staging did, under its label.
pub proof fn law_staging_report(
    name: Seq<char>,
    version: Seq<char>,
    cache: Seq<char>,
    o: StageOutcome,
)
    ensures
        ({
            let l = stage_lines(name, version, cache, o);
            &&& l[0] == "Staging "@ + name + " "@ + version + (" to "@ + cache)
            &&& l[1] == "  ops run     : "@ + decimal(o.ops_run as nat)
            &&& o.cache_hit ==> l[2] == "  ops skipped : "@ + decimal(o.ops_skipped as nat)
                + " (cache hit: "@ + "true"@ + ")"@
            &&& !o.cache_hit ==> l[2] == "  ops skipped : "@ + decimal(o.ops_skipped as nat)
                + " (cache hit: "@ + "false"@ + ")"@
            &&& l[3] == "  ACEs        : "@ + decimal(o.aces as nat)
            &&& l[4] == "Done. Cache  : "@ + o.cache_dir@
        }),
{
}

/// A shell that is installed is shown with where it is, what is cached of it and
/// what it needs; one that is not, with the reason.
pub proof fn law_shell_report(
    name: Seq<char>,
    display: Seq<char>,
    aliases: Seq<Seq<char>>,
    probes: nat,
    found: ShellFound,
)
    ensures
        ({
            let l = shell_info_lines(name, display, aliases, probes, found);
            &&& l[2] == "Probe rules   : "@ + decimal(probes)
            &&& found matches ShellFound::Missing(e) ==> l[3] == "Status        : NOT INSTALLED ("@
                + e@ + ")"@ && l.len() == 4
            &&& found matches ShellFound::Installed {
                entry,
                version,
                cache_dir,
                cached,
                stage_ops,
                aces,
                caps,
            } ==> l[3] == "Host install  : "@ + entry@ + " (v"@ + version@ + ")"@ && l[4]
                == "Cache dir     : "@ + cache_dir@ + " (exists: "@ + bool_form(cached) + ")"@
                && l[5] == "Stage ops     : "@ + decimal(stage_ops as nat) && l[6]
                == "ACE grants    : "@ + decimal(aces as nat) && l[7] == "Caps (outbound): "@
                + caps@ && l.len() == 8
        }),
{
}

} // verus!
