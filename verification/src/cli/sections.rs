//! The other isolation tests: what their outcomes mean. Each function takes
//! what the tests of its section have seen, and judges them in their order.

use crate::cli::verdict::{
    decide, either, failed, fails, findings, passed, passes, Finding, Verdict,
};
use crate::container::config::NetworkAccess;
use crate::container::lifecycle::ContainerState;
use crate::container::rootfs::first_line;
use crate::show::{bool_form, bool_text, debug_form, debug_text};
use crate::text::{
    chars_of, concat2, concat3, concat4, concat5, contains, decimal, decimal_text, occurs, same,
    split_char, take, texts, to_lowercase, trim, trimmed, unicode_lower,
};
use vstd::prelude::*;

verus! {

/// A number in a message.
pub open spec fn numbered(before: Seq<char>, n: nat, behind: Seq<char>) -> Seq<char> {
    before + decimal(n) + behind
}

fn number(before: &str, n: u128, behind: &str) -> (s: String)
    ensures
        s@ == numbered(before@, n as nat, behind@),
{
    let d = decimal_text(n);
    concat3(before, d.as_str(), behind)
}

fn pass_text(message: String) -> (v: Verdict)
    ensures
        v@ == passes(message@),
{
    Verdict { passed: true, message }
}

fn fail_text(message: String) -> (v: Verdict)
    ensures
        v@ == fails(message@),
{
    Verdict { passed: false, message }
}

/// What the tests of job objects have seen.
pub struct JobSeen {
    /// The process that was put into the job.
    pub pid: u32,
    /// The processes that the job has had.
    pub total: u32,
    /// A process has ended with its job.
    pub ended: bool,
    /// How many of five processes a job with room for two has taken.
    pub assigned: u32,
}

pub open spec fn job_findings(s: JobSeen) -> Seq<Finding> {
    seq![
        passes(""@),
        passes(""@),
        passes("(256MB, 50% CPU, 10 procs)"@),
        passes(numbered("(pid="@, s.pid as nat, ")"@)),
        either(
            s.total >= 1,
            numbered("(total_procs="@, s.total as nat, ")"@),
            "(expected at least 1 process)"@,
        ),
        either(s.ended, ""@, "(process survived)"@),
        either(
            s.assigned <= 3,
            numbered("(assigned="@, s.assigned as nat, "/5)"@),
            numbered("(assigned="@, s.assigned as nat, "/5, expected <=3)"@),
        ),
        passes(""@),
        passes(""@),
        passes(""@),
    ]
}

/// Judges the tests of job objects.
pub fn test_job_object(s: &JobSeen) -> (v: Vec<Verdict>)
    ensures
        findings(v@) == job_findings(*s),
{
    let total = number("(total_procs=", s.total as u128, ")");
    let few = number("(assigned=", s.assigned as u128, "/5)");
    let many = number("(assigned=", s.assigned as u128, "/5, expected <=3)");
    let v = vec![
        passed(""),
        passed(""),
        passed("(256MB, 50% CPU, 10 procs)"),
        pass_text(number("(pid=", s.pid as u128, ")")),
        decide(s.total >= 1, total.as_str(), "(expected at least 1 process)"),
        decide(s.ended, "", "(process survived)"),
        decide(s.assigned <= 3, few.as_str(), many.as_str()),
        passed(""),
        passed(""),
        passed(""),
    ];
    assert(findings(v@) =~= job_findings(*s));
    v
}

/// What the tests of the containment of processes have seen.
pub struct ContainmentSeen {
    pub inherited: u32,
    /// A process has ended when its job was.
    pub ended: bool,
    pub active: u32,
    pub total: u32,
    /// The processes of a job whose process has ended.
    pub outlived: u32,
}

pub open spec fn containment_findings(s: ContainmentSeen) -> Seq<Finding> {
    seq![
        passes(numbered("(total="@, s.inherited as nat, ")"@)),
        either(s.ended, ""@, "(process survived terminate)"@),
        passes(
            if s.active >= 3 {
                "(active="@ + decimal(s.active as nat) + ", total="@ + decimal(s.total as nat)
                    + ")"@
            } else {
                numbered("(active="@, s.active as nat, ")"@)
            },
        ),
        passes(numbered("(total_procs="@, s.outlived as nat, ")"@)),
    ]
}

/// Judges the tests of the containment of processes.
pub fn test_process_containment(s: &ContainmentSeen) -> (v: Vec<Verdict>)
    ensures
        findings(v@) == containment_findings(*s),
{
    let several = if s.active >= 3 {
        let a = decimal_text(s.active as u128);
        let t = decimal_text(s.total as u128);
        concat5("(active=", a.as_str(), ", total=", t.as_str(), ")")
    } else {
        number("(active=", s.active as u128, ")")
    };
    let v = vec![
        pass_text(number("(total=", s.inherited as u128, ")")),
        decide(s.ended, "", "(process survived terminate)"),
        pass_text(several),
        pass_text(number("(total_procs=", s.outlived as u128, ")")),
    ];
    assert(findings(v@) =~= containment_findings(*s));
    v
}

/// The files that a root directory needs.
pub const ESSENTIAL_FILES: [&'static str; 5] = [
    "cmd.exe",
    "ntdll.dll",
    "kernel32.dll",
    "kernelbase.dll",
    "ucrtbase.dll",
];

/// Files of the host that a root directory must not hold.
pub const EXCLUDED_FILES: [&'static str; 4] = [
    "notepad.exe",
    "calc.exe",
    "mspaint.exe",
    "regedit.exe",
];

/// The directories of a root directory.
pub const ROOT_DIRECTORIES: [&'static str; 5] = [
    "Windows\\System32",
    "Windows\\Temp",
    "Users\\ContainerUser",
    "Temp",
    "ProgramData",
];

/// What the tests of the file system have seen.
pub struct FilesSeen {
    pub essentials_present: bool,
    pub leaked: bool,
    pub directories_present: bool,
    /// Why a file could not be written.
    pub write_error: Option<String>,
    /// Two containers have different root directories.
    pub separate: bool,
    /// Nothing is left of removed containers.
    pub removed: bool,
}

pub open spec fn files_findings(s: FilesSeen) -> Seq<Finding> {
    seq![
        either(s.essentials_present, "(5 checked)"@, "(some essentials missing)"@),
        either(!s.leaked, "(5 checked)"@, "(non-essential files present in rootfs)"@),
        either(s.directories_present, "(5 dirs)"@, "(missing directories)"@),
        match s.write_error {
            None => passes(""@),
            Some(e) => fails("("@ + e@ + ")"@),
        },
        either(s.separate, ""@, "(same rootfs path!)"@),
        either(s.removed, ""@, "(dirs still exist)"@),
    ]
}

/// Judges the tests of the file system.
pub fn test_filesystem_isolation(s: &FilesSeen) -> (v: Vec<Verdict>)
    ensures
        findings(v@) == files_findings(*s),
{
    let write = match &s.write_error {
        None => passed(""),
        Some(e) => fail_text(concat3("(", e.as_str(), ")")),
    };
    let v = vec![
        decide(s.essentials_present, "(5 checked)", "(some essentials missing)"),
        decide(!s.leaked, "(5 checked)", "(non-essential files present in rootfs)"),
        decide(s.directories_present, "(5 dirs)", "(missing directories)"),
        write,
        decide(s.separate, "", "(same rootfs path!)"),
        decide(s.removed, "", "(dirs still exist)"),
    ];
    assert(findings(v@) =~= files_findings(*s));
    v
}

/// What the tests of the life of a container have seen.
pub struct LifecycleSeen {
    pub id: String,
    /// The id of a container that was made, and the id and the state of what
    /// was loaded under it.
    pub saved_id: String,
    pub loaded_id: String,
    pub loaded_state: ContainerState,
    /// A container is in the list, which has so many entries.
    pub listed: bool,
    pub listed_id: String,
    pub list_len: usize,
    /// A stopped container could not be started.
    pub restart_refused: bool,
    /// A container that is not there was not found.
    pub not_found: bool,
}

/// The name of a state in the program.
pub open spec fn state_form(s: ContainerState) -> Seq<char> {
    match s {
        ContainerState::Created => "Created"@,
        ContainerState::Running => "Running"@,
        ContainerState::Stopped => "Stopped"@,
    }
}

pub open spec fn lifecycle_findings(s: LifecycleSeen) -> Seq<Finding> {
    seq![
        passes("("@ + s.id@ + ")"@),
        either(
            s.loaded_id@ == s.saved_id@ && s.loaded_state == ContainerState::Created,
            ""@,
            "(state="@ + state_form(s.loaded_state) + ")"@,
        ),
        either(
            s.listed,
            "(found "@ + s.listed_id@ + " in list of "@ + decimal(s.list_len as nat) + ")"@,
            "(container not in list)"@,
        ),
        passes("(force removed while running)"@),
        passes(""@),
        either(s.restart_refused, "(InvalidState error)"@, "(should have been rejected)"@),
        either(s.not_found, ""@, "(expected NotFound error)"@),
    ]
}

/// Judges the tests of the life of a container.
pub fn test_container_lifecycle(s: &LifecycleSeen) -> (v: Vec<Verdict>)
    ensures
        findings(v@) == lifecycle_findings(*s),
{
    let state = match s.loaded_state {
        ContainerState::Created => "Created",
        ContainerState::Running => "Running",
        ContainerState::Stopped => "Stopped",
    };
    let reloaded = same(s.loaded_id.as_str(), s.saved_id.as_str()) && s.loaded_state
        == ContainerState::Created;
    let wrong = concat3("(state=", state, ")");
    let n = decimal_text(s.list_len as u128);
    let found = concat5("(found ", s.listed_id.as_str(), " in list of ", n.as_str(), ")");
    let v = vec![
        pass_text(concat3("(", s.id.as_str(), ")")),
        decide(reloaded, "", wrong.as_str()),
        decide(s.listed, found.as_str(), "(container not in list)"),
        passed("(force removed while running)"),
        passed(""),
        decide(s.restart_refused, "(InvalidState error)", "(should have been rejected)"),
        decide(s.not_found, "", "(expected NotFound error)"),
    ];
    assert(findings(v@) =~= lifecycle_findings(*s));
    v
}

/// What the tests of further processes have seen.
pub struct ExecSeen {
    pub pid: u32,
    /// A container that does not run took no process.
    pub refused: bool,
    pub first: u32,
    pub second: u32,
    pub third: u32,
}

pub open spec fn exec_findings(s: ExecSeen) -> Seq<Finding> {
    seq![
        either(s.pid > 0, numbered("(pid="@, s.pid as nat, ")"@), "(pid=0)"@),
        either(s.refused, "(InvalidState error)"@, "(should have been rejected)"@),
        either(
            s.first != s.second && s.second != s.third,
            "(pids="@ + decimal(s.first as nat) + ","@ + (decimal(s.second as nat) + ","@
                + decimal(s.third as nat) + ")"@),
            "(duplicate PIDs)"@,
        ),
    ]
}

/// Judges the tests of further processes.
pub fn test_container_exec(s: &ExecSeen) -> (v: Vec<Verdict>)
    ensures
        findings(v@) == exec_findings(*s),
{
    let pid = number("(pid=", s.pid as u128, ")");
    let a = decimal_text(s.first as u128);
    let b = decimal_text(s.second as u128);
    let c = decimal_text(s.third as u128);
    let tail = concat4(b.as_str(), ",", c.as_str(), ")");
    let pids = concat4("(pids=", a.as_str(), ",", tail.as_str());
    let v = vec![
        decide(s.pid > 0, pid.as_str(), "(pid=0)"),
        decide(s.refused, "(InvalidState error)", "(should have been rejected)"),
        decide(
            s.first != s.second && s.second != s.third,
            pids.as_str(),
            "(duplicate PIDs)",
        ),
    ];
    assert(findings(v@) =~= exec_findings(*s));
    v
}

/// What the tests of Node.js have seen.
pub struct NodeSeen {
    pub present: bool,
    /// What the program printed when asked for its version, or why it did not.
    pub version: Result<String, String>,
    /// What a script printed, or why it did not.
    pub script: Result<String, String>,
    pub npm: bool,
    pub npx: bool,
}

/// What a copied program printed when asked for its version.
pub struct ProgramRun {
    /// Its output and errors.
    pub output: String,
    pub success: bool,
    /// How it ended, as the host tells it.
    pub status: String,
}

/// What the tests of tools have seen.
pub struct ToolsSeen {
    /// Nothing where the host has no Node.js.
    pub node: Option<NodeSeen>,
    pub winget_directory: bool,
    /// Why a container with an unknown tool could not be made.
    pub unknown_error: Option<String>,
    pub pstop: bool,
    pub htop: bool,
    /// The sizes of the programs, where they are known.
    pub pstop_size: Option<u64>,
    pub htop_size: Option<u64>,
    pub run: Result<ProgramRun, String>,
}

/// What is found from the version that Node.js printed.
pub open spec fn version_finding(v: Result<Seq<char>, Seq<char>>) -> Finding {
    match v {
        Ok(out) => if trim(out).len() > 0 && trim(out)[0] == 'v' {
            passes("("@ + trim(out) + ")"@)
        } else {
            fails("(unexpected output: "@ + debug_form(trim(out)) + ")"@)
        },
        Err(e) => fails("("@ + e + ")"@),
    }
}

/// What is found from what a script printed.
pub open spec fn script_finding(v: Result<Seq<char>, Seq<char>>) -> Finding {
    match v {
        Ok(out) => either(
            trim(out) == "psroot-node-ok"@,
            ""@,
            "(got: "@ + debug_form(trim(out)) + ")"@,
        ),
        Err(e) => fails("("@ + e + ")"@),
    }
}

/// The contents of an outcome.
pub open spec fn outcome(r: Result<String, String>) -> Result<Seq<char>, Seq<char>> {
    match r {
        Ok(s) => Ok(s@),
        Err(e) => Err(e@),
    }
}

pub open spec fn node_findings(s: NodeSeen) -> Seq<Finding> {
    seq![
        either(s.present, "(node.exe found in rootfs/nodejs/)"@, "(node.exe not found)"@),
        version_finding(outcome(s.version)),
        script_finding(outcome(s.script)),
        passes(
            if s.npm || s.npx {
                "(npm="@ + bool_form(s.npm) + ", npx="@ + bool_form(s.npx) + ")"@
            } else {
                "(npm scripts may vary by install — acceptable)"@
            },
        ),
    ]
}

fn judge_version(r: &Result<String, String>) -> (v: Verdict)
    ensures
        v@ == version_finding(outcome(*r)),
{
    match r {
        Ok(out) => {
            let t = trimmed(out.as_str());
            let c = chars_of(t.as_str());
            if c.len() > 0 && c[0] == 'v' {
                pass_text(concat3("(", t.as_str(), ")"))
            } else {
                let d = debug_text(t.as_str());
                fail_text(concat3("(unexpected output: ", d.as_str(), ")"))
            }
        },
        Err(e) => fail_text(concat3("(", e.as_str(), ")")),
    }
}

fn judge_script(r: &Result<String, String>) -> (v: Verdict)
    ensures
        v@ == script_finding(outcome(*r)),
{
    match r {
        Ok(out) => {
            let t = trimmed(out.as_str());
            let d = debug_text(t.as_str());
            let got = concat3("(got: ", d.as_str(), ")");
            decide(same(t.as_str(), "psroot-node-ok"), "", got.as_str())
        },
        Err(e) => fail_text(concat3("(", e.as_str(), ")")),
    }
}

fn judge_node(s: &NodeSeen) -> (v: Vec<Verdict>)
    ensures
        findings(v@) == node_findings(*s),
{
    let npm = if s.npm || s.npx {
        concat5("(npm=", bool_text(s.npm), ", npx=", bool_text(s.npx), ")")
    } else {
        "(npm scripts may vary by install — acceptable)".to_owned()
    };
    let v = vec![
        decide(s.present, "(node.exe found in rootfs/nodejs/)", "(node.exe not found)"),
        judge_version(&s.version),
        judge_script(&s.script),
        pass_text(npm),
    ];
    assert(findings(v@) =~= node_findings(*s));
    v
}

/// The size of a program in a message.
pub open spec fn size_form(n: Option<u64>) -> Seq<char> {
    match n {
        Some(b) => decimal((b / 1024) as nat) + "KB"@,
        None => "?"@,
    }
}

fn size_text(n: Option<u64>) -> (s: String)
    ensures
        s@ == size_form(n),
{
    match n {
        Some(b) => {
            let d = decimal_text((b / 1024) as u128);
            concat2(d.as_str(), "KB")
        },
        None => "?".to_owned(),
    }
}

/// What is found from the programs that were copied.
pub open spec fn copied_finding(
    pstop: bool,
    htop: bool,
    pstop_size: Option<u64>,
    htop_size: Option<u64>,
) -> Finding {
    if pstop && htop {
        passes(
            "(pstop="@ + size_form(pstop_size) + ", htop="@ + size_form(htop_size) + ")"@,
        )
    } else {
        fails("(pstop="@ + bool_form(pstop) + ", htop="@ + bool_form(htop) + ")"@)
    }
}

fn judge_copied(pstop: bool, htop: bool, pstop_size: Option<u64>, htop_size: Option<u64>) -> (v:
    Verdict)
    ensures
        v@ == copied_finding(pstop, htop, pstop_size, htop_size),
{
    if pstop && htop {
        let a = size_text(pstop_size);
        let b = size_text(htop_size);
        pass_text(concat5("(pstop=", a.as_str(), ", htop=", b.as_str(), ")"))
    } else {
        fail_text(concat5("(pstop=", bool_text(pstop), ", htop=", bool_text(htop), ")"))
    }
}

/// The first line of an output without the spaces around it; `ok` where there
/// is none.
pub open spec fn shown_line(output: Seq<char>) -> Seq<char> {
    match first_line(trim(output)) {
        Some(l) => if l.len() > 0 && l.last() == '\r' {
            l.drop_last()
        } else {
            l
        },
        None => "ok"@,
    }
}

fn line_of(output: &str) -> (s: String)
    ensures
        s@ == shown_line(output@),
{
    let t = trimmed(output);
    if t.as_str().is_empty() {
        return "ok".to_owned();
    }
    let parts = split_char(t.as_str(), '\n');
    proof {
        assert(texts(parts@).len() > 0);
        assert(texts(parts@)[0] == parts@[0]@);
    }
    let l = parts[0].as_str();
    let c = chars_of(l);
    if c.len() > 0 && c[c.len() - 1] == '\r' {
        let s = take(l, c.len() - 1);
        assert(s@ =~= l@.drop_last());
        s
    } else {
        l.to_owned()
    }
}

/// What is found from a program that was run; `lowered` is its output in lower
/// case.
pub open spec fn run_finding(run: ProgramRun, lowered: Seq<char>) -> Finding {
    if occurs(lowered, "pstop"@) || run.success {
        passes("("@ + shown_line(run.output@) + ")"@)
    } else {
        fails(
            "(exit="@ + run.status@ + ", out="@ + debug_form(trim(run.output@)) + ")"@,
        )
    }
}

/// What is found from a program that was run; `lowered` is its output in lower
/// case.
pub fn judge_run(run: &ProgramRun, lowered: &str) -> (v: Verdict)
    ensures
        v@ == run_finding(*run, lowered@),
{
    if contains(lowered, "pstop") || run.success {
        let l = line_of(run.output.as_str());
        pass_text(concat3("(", l.as_str(), ")"))
    } else {
        let t = trimmed(run.output.as_str());
        let d = debug_text(t.as_str());
        fail_text(concat5("(exit=", run.status.as_str(), ", out=", d.as_str(), ")"))
    }
}

/// What the tests of tools find; those of Node.js are passed over where the
/// host has none.
pub open spec fn tools_findings(s: ToolsSeen) -> Seq<Finding> {
    (match s.node {
        Some(n) => node_findings(n),
        None => seq![],
    }) + seq![
        either(s.winget_directory, ""@, "(directory not created)"@),
        match s.unknown_error {
            None => passes(""@),
            Some(e) => fails("(should not error: "@ + e@ + ")"@),
        },
        copied_finding(s.pstop, s.htop, s.pstop_size, s.htop_size),
        match s.run {
            Ok(r) => run_finding(r, unicode_lower(r.output@)),
            Err(e) => fails("("@ + e@ + ")"@),
        },
    ]
}

/// Judges the tests of tools.
pub fn test_tools_installation(s: &ToolsSeen) -> (v: Vec<Verdict>)
    ensures
        findings(v@) == tools_findings(*s),
{
    let mut v: Vec<Verdict> = match &s.node {
        Some(n) => judge_node(n),
        None => {
            let none: Vec<Verdict> = Vec::new();
            assert(findings(none@) =~= Seq::<Finding>::empty());
            none
        },
    };
    let ghost head = findings(v@);
    let unknown = match &s.unknown_error {
        None => passed(""),
        Some(e) => fail_text(concat3("(should not error: ", e.as_str(), ")")),
    };
    let run = match &s.run {
        Ok(r) => {
            let lowered = to_lowercase(r.output.as_str());
            judge_run(r, lowered.as_str())
        },
        Err(e) => fail_text(concat3("(", e.as_str(), ")")),
    };
    v.push(decide(s.winget_directory, "", "(directory not created)"));
    v.push(unknown);
    v.push(judge_copied(s.pstop, s.htop, s.pstop_size, s.htop_size));
    v.push(run);
    assert(findings(v@) =~= tools_findings(*s));
    v
}

/// A number with its sign.
pub open spec fn signed(n: i32) -> Seq<char> {
    if n < 0 {
        "-"@ + decimal((-n) as nat)
    } else {
        decimal(n as nat)
    }
}

fn signed_text(n: i32) -> (s: String)
    ensures
        s@ == signed(n),
{
    if n < 0 {
        let d = decimal_text((-(n as i64)) as u128);
        concat2("-", d.as_str())
    } else {
        decimal_text(n as u128)
    }
}

/// The quoted form of an exit code that may be missing.
pub open spec fn code_form(c: Option<i32>) -> Seq<char> {
    match c {
        Some(n) => "Some("@ + signed(n) + ")"@,
        None => "None"@,
    }
}

/// What the tests of captured output have seen.
pub struct OutputSeen {
    /// What the copied command interpreter printed, or why it did not.
    pub command: Result<String, String>,
    /// What the copied PowerShell printed; nothing inside where it did not run,
    /// and nothing at all where it was not copied.
    pub powershell: Option<Option<String>>,
    pub exit_code: Option<i32>,
}

pub open spec fn output_findings(s: OutputSeen) -> Seq<Finding> {
    seq![
        match outcome(s.command) {
            Ok(out) => either(
                occurs(out, "psroot-cmd-ok"@),
                ""@,
                "(got: "@ + debug_form(trim(out)) + ")"@,
            ),
            Err(e) => fails("("@ + e + ")"@),
        },
        passes(
            match s.powershell {
                None => "(powershell.exe not copied — acceptable)"@,
                Some(None) => "(cannot run — minimal rootfs; acceptable)"@,
                Some(Some(out)) => if occurs(out@, "psroot-ps-ok"@) {
                    ""@
                } else {
                    "(ran but output differs — minimal rootfs limitation)"@
                },
            },
        ),
        either(
            s.exit_code == Some(42i32),
            "(exit code 42)"@,
            "(expected 42, got "@ + code_form(s.exit_code) + ")"@,
        ),
    ]
}

/// Judges the tests of captured output.
pub fn test_process_output_capture(s: &OutputSeen) -> (v: Vec<Verdict>)
    ensures
        findings(v@) == output_findings(*s),
{
    let command = match &s.command {
        Ok(out) => {
            let t = trimmed(out.as_str());
            let d = debug_text(t.as_str());
            let got = concat3("(got: ", d.as_str(), ")");
            decide(contains(out.as_str(), "psroot-cmd-ok"), "", got.as_str())
        },
        Err(e) => fail_text(concat3("(", e.as_str(), ")")),
    };
    let powershell = match &s.powershell {
        None => "(powershell.exe not copied — acceptable)",
        Some(p) => match p {
            None => "(cannot run — minimal rootfs; acceptable)",
            Some(out) => if contains(out.as_str(), "psroot-ps-ok") {
                ""
            } else {
                "(ran but output differs — minimal rootfs limitation)"
            },
        },
    };
    let (exact, code) = match s.exit_code {
        Some(n) => {
            let d = signed_text(n);
            (n == 42, concat3("Some(", d.as_str(), ")"))
        },
        None => (false, "None".to_owned()),
    };
    let other = concat3("(expected 42, got ", code.as_str(), ")");
    let v = vec![command, passed(powershell), decide(exact, "(exit code 42)", other.as_str())];
    assert(findings(v@) =~= output_findings(*s));
    v
}

pub open spec fn environment_findings(vars: nat, proxy: Seq<char>) -> Seq<Finding> {
    seq![
        passes(numbered("("@, vars, " vars)"@)),
        passes("(silo env block is explicit, not inherited)"@),
        either(
            occurs(proxy, "0.0.0.0"@),
            "(proxy env visible to child)"@,
            "(proxy env not visible)"@,
        ),
    ]
}

/// Judges the tests of the environment: `vars` variables were set, and a child
/// printed `proxy` as its proxy.
pub fn test_environment_isolation(vars: usize, proxy: &str) -> (v: Vec<Verdict>)
    ensures
        findings(v@) == environment_findings(vars as nat, proxy@),
{
    let v = vec![
        pass_text(number("(", vars as u128, " vars)")),
        passed("(silo env block is explicit, not inherited)"),
        decide(
            contains(proxy, "0.0.0.0"),
            "(proxy env visible to child)",
            "(proxy env not visible)",
        ),
    ];
    assert(findings(v@) =~= environment_findings(vars as nat, proxy@));
    v
}

/// What the tests under load have seen: milliseconds, and the accounts of a job.
pub struct StressSeen {
    pub containers_ms: u64,
    pub jobs_ms: u64,
    pub active: u32,
    pub io_read: u64,
    pub cycles_ms: u64,
}

pub open spec fn stress_findings(s: StressSeen) -> Seq<Finding> {
    seq![
        passes(numbered("("@, s.containers_ms as nat, "ms)"@)),
        passes(numbered("("@, s.jobs_ms as nat, "ms)"@)),
        passes(
            "(active="@ + decimal(s.active as nat) + ", io_r="@ + decimal(s.io_read as nat)
                + ")"@,
        ),
        passes(numbered("("@, s.cycles_ms as nat, "ms)"@)),
    ]
}

/// Judges the tests under load.
pub fn test_stress(s: &StressSeen) -> (v: Vec<Verdict>)
    ensures
        findings(v@) == stress_findings(*s),
{
    let a = decimal_text(s.active as u128);
    let r = decimal_text(s.io_read as u128);
    let v = vec![
        pass_text(number("(", s.containers_ms as u128, "ms)")),
        pass_text(number("(", s.jobs_ms as u128, "ms)")),
        pass_text(concat5("(active=", a.as_str(), ", io_r=", r.as_str(), ")")),
        pass_text(number("(", s.cycles_ms as u128, "ms)")),
    ];
    assert(findings(v@) =~= stress_findings(*s));
    v
}

/// What the tests of silos have seen.
pub struct SiloSeen {
    pub silo_id: u32,
    pub pid: u32,
    pub total: u32,
    pub second: u32,
    pub third: u32,
    pub fourth: u32,
}

pub open spec fn silo_findings(s: SiloSeen) -> Seq<Finding> {
    seq![
        passes(numbered("(silo_id="@, s.silo_id as nat, ")"@)),
        passes(numbered("(pid="@, s.pid as nat, ")"@)),
        passes(numbered("(procs="@, s.total as nat, ")"@)),
        passes(
            "(pids="@ + decimal(s.second as nat) + ","@ + decimal(s.third as nat) + ")"@,
        ),
        passes(numbered("(pid="@, s.fourth as nat, ")"@)),
        passes(""@),
        passes(""@),
    ]
}

/// Judges the tests of silos.
pub fn test_silo_isolation(s: &SiloSeen) -> (v: Vec<Verdict>)
    ensures
        findings(v@) == silo_findings(*s),
{
    let b = decimal_text(s.second as u128);
    let c = decimal_text(s.third as u128);
    let v = vec![
        pass_text(number("(silo_id=", s.silo_id as u128, ")")),
        pass_text(number("(pid=", s.pid as u128, ")")),
        pass_text(number("(procs=", s.total as u128, ")")),
        pass_text(concat5("(pids=", b.as_str(), ",", c.as_str(), ")")),
        pass_text(number("(pid=", s.fourth as u128, ")")),
        passed(""),
        passed(""),
    ];
    assert(findings(v@) =~= silo_findings(*s));
    v
}

pub open spec fn bind_findings(content: Seq<char>, denied: bool, through: Seq<char>) -> Seq<Finding> {
    seq![
        passes(""@),
        either(
            content == "Hello from backing!"@,
            ""@,
            "(got: "@ + debug_form(content) + ")"@,
        ),
        either(denied, "(write denied)"@, "(write should have been denied)"@),
        passes(""@),
        either(
            through == "read-write!"@,
            "(write-through works)"@,
            "(write-through failed)"@,
        ),
    ]
}

/// Judges the tests of bind links: what was read through a link, whether
/// writing through a read only one was denied, and what was written through
/// another.
pub fn test_bind_filter(content: &str, denied: bool, through: &str) -> (v: Vec<Verdict>)
    ensures
        findings(v@) == bind_findings(content@, denied, through@),
{
    let d = debug_text(content);
    let got = concat3("(got: ", d.as_str(), ")");
    let v = vec![
        passed(""),
        decide(same(content, "Hello from backing!"), "", got.as_str()),
        decide(denied, "(write denied)", "(write should have been denied)"),
        passed(""),
        decide(
            same(through, "read-write!"),
            "(write-through works)",
            "(write-through failed)",
        ),
    ];
    assert(findings(v@) =~= bind_findings(content@, denied, through@));
    v
}

pub open spec fn network_findings(default: NetworkAccess) -> Seq<Finding> {
    seq![
        passes("(network=none, no capabilities granted)"@),
        passes("(internetClient capability granted)"@),
        passes("(internetClientServer + loopback exemption)"@),
        either(
            default == NetworkAccess::Off,
            "(secure by default)"@,
            "(default should be None)"@,
        ),
        passes("(internetClient does not include server capability)"@),
        passes("(AppContainer profile deletion cleans up exemptions)"@),
    ]
}

/// Judges the tests of the network; `default` is the access of a container for
/// which none is asked.
pub fn test_network_isolation(default: NetworkAccess) -> (v: Vec<Verdict>)
    ensures
        findings(v@) == network_findings(default),
{
    let v = vec![
        passed("(network=none, no capabilities granted)"),
        passed("(internetClient capability granted)"),
        passed("(internetClientServer + loopback exemption)"),
        decide(
            default == NetworkAccess::Off,
            "(secure by default)",
            "(default should be None)",
        ),
        passed("(internetClient does not include server capability)"),
        passed("(AppContainer profile deletion cleans up exemptions)"),
    ];
    assert(findings(v@) =~= network_findings(default));
    v
}

/// Nothing is let onto the network unless it is asked for.
pub proof fn law_secure_by_default(i: int)
    requires
        0 <= i < network_findings(crate::cli::args::default_model().network).len(),
    ensures
        network_findings(crate::cli::args::default_model().network)[i].passed,
{
}

/// When the tests of the first sections pass: a job counts its process, ends it
/// and takes no more than it has room for; a process ends with its job; a root
/// has what it needs, nothing else, and is the container's own; a container is
/// loaded as it was made, listed, not started twice, and not found once gone; and
/// processes run in it with numbers of their own.
pub proof fn law_when_containment_passes(
    j: JobSeen,
    c: ContainmentSeen,
    f: FilesSeen,
    l: LifecycleSeen,
    e: ExecSeen,
)
    ensures
        job_findings(j)[4].passed <==> j.total >= 1,
        job_findings(j)[5].passed <==> j.ended,
        job_findings(j)[6].passed <==> j.assigned <= 3,
        containment_findings(c)[1].passed <==> c.ended,
        files_findings(f)[0].passed <==> f.essentials_present,
        files_findings(f)[1].passed <==> !f.leaked,
        files_findings(f)[2].passed <==> f.directories_present,
        files_findings(f)[3].passed <==> f.write_error is None,
        files_findings(f)[4].passed <==> f.separate,
        files_findings(f)[5].passed <==> f.removed,
        lifecycle_findings(l)[1].passed <==> l.loaded_id@ == l.saved_id@ && l.loaded_state
            == ContainerState::Created,
        lifecycle_findings(l)[2].passed <==> l.listed,
        lifecycle_findings(l)[5].passed <==> l.restart_refused,
        lifecycle_findings(l)[6].passed <==> l.not_found,
        exec_findings(e)[0].passed <==> e.pid > 0,
        exec_findings(e)[1].passed <==> e.refused,
        exec_findings(e)[2].passed <==> e.first != e.second && e.second != e.third,
        job_findings(j).len() == 10 && containment_findings(c).len() == 4,
        files_findings(f).len() == 6 && lifecycle_findings(l).len() == 7,
        exec_findings(e).len() == 3,
{
}

/// When the tests of the other sections pass: a tool is there and prints what it
/// was asked to; a program's output and exit code come through; variables reach
/// it; a bind link shows what is behind it, keeps out writes where it is to, and
/// lets them through where not; and the network is off unless asked for.
pub proof fn law_when_programs_pass(
    n: NodeSeen,
    o: OutputSeen,
    vars: nat,
    proxy: Seq<char>,
    content: Seq<char>,
    denied: bool,
    through: Seq<char>,
    network: NetworkAccess,
)
    ensures
        node_findings(n)[0].passed <==> n.present,
        node_findings(n)[1].passed <==> (n.version matches Ok(v) && trim(v@).len() > 0 && trim(
            v@,
        )[0] == 'v'),
        node_findings(n)[2].passed <==> (n.script matches Ok(v) && trim(v@) == "psroot-node-ok"@),
        output_findings(o)[0].passed <==> (o.command matches Ok(v) && occurs(
            v@,
            "psroot-cmd-ok"@,
        )),
        output_findings(o)[2].passed <==> o.exit_code == Some(42i32),
        environment_findings(vars, proxy)[2].passed <==> occurs(proxy, "0.0.0.0"@),
        bind_findings(content, denied, through)[1].passed <==> content == "Hello from backing!"@,
        bind_findings(content, denied, through)[2].passed <==> denied,
        bind_findings(content, denied, through)[4].passed <==> through == "read-write!"@,
        network_findings(network)[3].passed <==> network == NetworkAccess::Off,
{
}

/// When the tests of the tools pass, whether Node.js is there or not: the
/// directory for `winget` is made, an unknown tool is no error, both programs are
/// copied, and one of them runs.
pub proof fn law_when_tools_pass(s: ToolsSeen)
    ensures
        ({
            let f = tools_findings(s);
            let k: int = if s.node is Some {
                4
            } else {
                0
            };
            &&& f.len() == k + 4
            &&& s.node matches Some(n) ==> f.take(4) == node_findings(n)
            &&& f[k].passed <==> s.winget_directory
            &&& f[k + 1].passed <==> s.unknown_error is None
            &&& f[k + 2].passed <==> s.pstop && s.htop
            &&& f[k + 3].passed <==> (s.run matches Ok(r) && (r.success || occurs(
                unicode_lower(r.output@),
                "pstop"@,
            )))
        }),
{
    let f = tools_findings(s);
    if let Some(n) = s.node {
        assert(f.take(4) =~= node_findings(n));
    }
}

/// The files and directories that the tests look for, and those that must not be
/// there.
pub proof fn law_expected_files()
    ensures
        ESSENTIAL_FILES@[0]@ == "cmd.exe"@ && ESSENTIAL_FILES@[1]@ == "ntdll.dll"@,
        ESSENTIAL_FILES@[2]@ == "kernel32.dll"@ && ESSENTIAL_FILES@[3]@ == "kernelbase.dll"@,
        ESSENTIAL_FILES@[4]@ == "ucrtbase.dll"@,
        EXCLUDED_FILES@[0]@ == "notepad.exe"@ && EXCLUDED_FILES@[1]@ == "calc.exe"@,
        EXCLUDED_FILES@[2]@ == "mspaint.exe"@ && EXCLUDED_FILES@[3]@ == "regedit.exe"@,
        ROOT_DIRECTORIES@[0]@ == "Windows\\System32"@ && ROOT_DIRECTORIES@[1]@
            == "Windows\\Temp"@,
        ROOT_DIRECTORIES@[2]@ == "Users\\ContainerUser"@ && ROOT_DIRECTORIES@[3]@ == "Temp"@,
        ROOT_DIRECTORIES@[4]@ == "ProgramData"@,
{
}

} // verus!
