//! The tests that try to leave the sandbox: what each of them runs, and what
//! its outcome means.

use crate::cli::verdict::{
    decide, either, failed, fails, passed, passes, Finding, Verdict,
};
use crate::container::sandbox::{inside, join_path, joined_path, law_join_goes_below};
use crate::show::{bool_form, bool_text, debug_form, debug_text};
use crate::text::{
    chars_of, concat2, concat3, concat5, contains, decimal, decimal_text, occurs, take, trim,
    trimmed,
};
use vstd::prelude::*;
use vstd::utf8::encode_utf8;

verus! {

/// The tests, in their order.
#[derive(Clone, Copy, Debug, PartialEq, Eq, Structural)]
pub enum Probe {
    WriteHostTemp,
    WriteDocuments,
    ReadAppData,
    ReadHostTemp,
    WriteProgramData,
    TokenIdentity,
    WorkingDirectory,
    ReadOwnRoot,
    WriteOwnTemp,
    ReadUserFiles,
    ListUsers,
    ListProcesses,
}

/// What the tests have to know of the host and the container.
#[derive(Clone, Debug)]
pub struct Surroundings {
    /// The root directory of the container.
    pub rootfs: String,
    /// The host's directory for temporary files.
    pub temp_dir: String,
    /// The user's directory.
    pub profile: Option<String>,
    pub appdata: Option<String>,
    /// The value of `TEMP`, or nothing.
    pub temp_var: String,
    pub username: String,
}

/// All tests, in their order.
pub open spec fn all_probes() -> Seq<Probe> {
    seq![
        Probe::WriteHostTemp,
        Probe::WriteDocuments,
        Probe::ReadAppData,
        Probe::ReadHostTemp,
        Probe::WriteProgramData,
        Probe::TokenIdentity,
        Probe::WorkingDirectory,
        Probe::ReadOwnRoot,
        Probe::WriteOwnTemp,
        Probe::ReadUserFiles,
        Probe::ListUsers,
        Probe::ListProcesses,
    ]
}

/// All tests, in their order.
pub fn probes() -> (v: Vec<Probe>)
    ensures
        v@ == all_probes(),
{
    let v = vec![
        Probe::WriteHostTemp,
        Probe::WriteDocuments,
        Probe::ReadAppData,
        Probe::ReadHostTemp,
        Probe::WriteProgramData,
        Probe::TokenIdentity,
        Probe::WorkingDirectory,
        Probe::ReadOwnRoot,
        Probe::WriteOwnTemp,
        Probe::ReadUserFiles,
        Probe::ListUsers,
        Probe::ListProcesses,
    ];
    assert(v@ =~= all_probes());
    v
}

/// What is shown before a test.
pub open spec fn label(p: Probe) -> Seq<char> {
    match p {
        Probe::WriteHostTemp => "  [10.1] Cannot write to host temp .......... "@,
        Probe::WriteDocuments => "  [10.2] Cannot write to user Documents ..... "@,
        Probe::ReadAppData => "  [10.3] Cannot read host AppData ........... "@,
        Probe::ReadHostTemp => "  [10.4] Cannot read host temp dir .......... "@,
        Probe::WriteProgramData => "  [10.5] Cannot write outside sandbox ....... "@,
        Probe::TokenIdentity => "  [10.6] Token shows AppContainer identity .. "@,
        Probe::WorkingDirectory => "  [10.7] Working directory inside rootfs .... "@,
        Probe::ReadOwnRoot => "  [10.8] Can read inside own rootfs ......... "@,
        Probe::WriteOwnTemp => "  [10.9] Can write inside own rootfs/Temp ... "@,
        Probe::ReadUserFiles => "  [10.10] Cannot read host user files ...... "@,
        Probe::ListUsers => "  [10.11] Cannot list host C:\\Users ......... "@,
        Probe::ListProcesses => "  [10.12] Cannot see host processes ......... "@,
    }
}

/// What is shown before a test.
pub fn show_probe(p: Probe) -> (s: &'static str)
    ensures
        s@ == label(p),
{
    match p {
        Probe::WriteHostTemp => "  [10.1] Cannot write to host temp .......... ",
        Probe::WriteDocuments => "  [10.2] Cannot write to user Documents ..... ",
        Probe::ReadAppData => "  [10.3] Cannot read host AppData ........... ",
        Probe::ReadHostTemp => "  [10.4] Cannot read host temp dir .......... ",
        Probe::WriteProgramData => "  [10.5] Cannot write outside sandbox ....... ",
        Probe::TokenIdentity => "  [10.6] Token shows AppContainer identity .. ",
        Probe::WorkingDirectory => "  [10.7] Working directory inside rootfs .... ",
        Probe::ReadOwnRoot => "  [10.8] Can read inside own rootfs ......... ",
        Probe::WriteOwnTemp => "  [10.9] Can write inside own rootfs/Temp ... ",
        Probe::ReadUserFiles => "  [10.10] Cannot read host user files ...... ",
        Probe::ListUsers => "  [10.11] Cannot list host C:\\Users ......... ",
        Probe::ListProcesses => "  [10.12] Cannot see host processes ......... ",
    }
}

/// The file in the user's documents that a test tries to write.
pub open spec fn documents_file(profile: Option<Seq<char>>) -> Option<Seq<char>> {
    match profile {
        Some(p) => Some(
            joined_path(joined_path(p, "Documents"@), "psroot-escape-test.txt"@),
        ),
        None => None,
    }
}

/// The file in the user's documents that a test tries to write.
pub fn dirs_host_documents(profile: Option<&str>) -> (r: Option<String>)
    ensures
        match r {
            Some(s) => documents_file(
                match profile {
                    Some(p) => Some(p@),
                    None => None,
                },
            ) == Some(s@),
            None => profile is None,
        },
{
    match profile {
        Some(p) => {
            let d = join_path(p, "Documents");
            Some(join_path(d.as_str(), "psroot-escape-test.txt"))
        },
        None => None,
    }
}

/// The path that a test reads or writes; none where there is no such path.
pub open spec fn target(p: Probe, s: Surroundings) -> Option<Seq<char>> {
    match p {
        Probe::WriteHostTemp => Some(
            joined_path(s.temp_dir@, "psroot-escape-test-write.txt"@),
        ),
        Probe::WriteDocuments => documents_file(
            match s.profile {
                Some(d) => Some(d@),
                None => None,
            },
        ),
        Probe::ReadAppData => Some(
            match s.appdata {
                Some(a) => a@,
                None => "C:\\Users\\Public"@,
            },
        ),
        Probe::ReadHostTemp => Some(joined_path(s.temp_dir@, "psroot-secret-canary.txt"@)),
        Probe::WriteProgramData => Some("C:\\ProgramData\\psroot-escape-test.txt"@),
        Probe::ReadOwnRoot => Some(s.rootfs@ + "\\Temp\\canary.txt"@),
        Probe::WriteOwnTemp => Some(s.rootfs@ + "\\Temp\\write-test-output.txt"@),
        Probe::ReadUserFiles => Some(s.temp_var@ + "\\psroot-host-secret.txt"@),
        Probe::TokenIdentity | Probe::WorkingDirectory | Probe::ListUsers
        | Probe::ListProcesses => None,
    }
}

/// The path that a test reads or writes; none where there is no such path.
pub fn probe_target(p: Probe, s: &Surroundings) -> (r: Option<String>)
    ensures
        match r {
            Some(t) => target(p, *s) == Some(t@),
            None => target(p, *s) is None,
        },
{
    match p {
        Probe::WriteHostTemp => Some(
            join_path(s.temp_dir.as_str(), "psroot-escape-test-write.txt"),
        ),
        Probe::WriteDocuments => match &s.profile {
            Some(d) => dirs_host_documents(Some(d.as_str())),
            None => None,
        },
        Probe::ReadAppData => match &s.appdata {
            Some(a) => Some(a.clone()),
            None => Some("C:\\Users\\Public".to_owned()),
        },
        Probe::ReadHostTemp => Some(join_path(s.temp_dir.as_str(), "psroot-secret-canary.txt")),
        Probe::WriteProgramData => Some("C:\\ProgramData\\psroot-escape-test.txt".to_owned()),
        Probe::ReadOwnRoot => Some(concat2(s.rootfs.as_str(), "\\Temp\\canary.txt")),
        Probe::WriteOwnTemp => Some(
            concat2(s.rootfs.as_str(), "\\Temp\\write-test-output.txt"),
        ),
        Probe::ReadUserFiles => Some(
            concat2(s.temp_var.as_str(), "\\psroot-host-secret.txt"),
        ),
        Probe::TokenIdentity => None,
        Probe::WorkingDirectory => None,
        Probe::ListUsers => None,
        Probe::ListProcesses => None,
    }
}

/// What is put into the target before a test.
pub open spec fn planted(p: Probe) -> Option<Seq<char>> {
    match p {
        Probe::ReadHostTemp => Some("SECRET_CANARY_DATA"@),
        Probe::ReadOwnRoot => Some("rootfs-accessible"@),
        Probe::ReadUserFiles => Some("HOST_SECRET_DATA_12345"@),
        _ => None,
    }
}

/// What is put into the target before a test.
pub fn probe_planted(p: Probe) -> (r: Option<&'static str>)
    ensures
        match r {
            Some(t) => planted(p) == Some(t@),
            None => planted(p) is None,
        },
{
    match p {
        Probe::ReadHostTemp => Some("SECRET_CANARY_DATA"),
        Probe::ReadOwnRoot => Some("rootfs-accessible"),
        Probe::ReadUserFiles => Some("HOST_SECRET_DATA_12345"),
        _ => None,
    }
}

/// The name of the file that a test leaves its output in.
pub open spec fn output_name(p: Probe) -> Option<Seq<char>> {
    match p {
        Probe::ReadAppData => Some("appdata-result.txt"@),
        Probe::ReadHostTemp => Some("temp-read-result.txt"@),
        Probe::TokenIdentity => Some("integrity.txt"@),
        Probe::WorkingDirectory => Some("cwd-result.txt"@),
        Probe::ReadOwnRoot => Some("read-result.txt"@),
        Probe::ReadUserFiles => Some("read-host-result.txt"@),
        Probe::ListUsers => Some("list-users-result.txt"@),
        Probe::ListProcesses => Some("tasklist-result.txt"@),
        Probe::WriteHostTemp | Probe::WriteDocuments | Probe::WriteProgramData
        | Probe::WriteOwnTemp => None,
    }
}

/// The file that a test leaves its output in.
pub open spec fn output_file(p: Probe, root: Seq<char>) -> Option<Seq<char>> {
    match output_name(p) {
        Some(n) => Some(root + "\\Temp\\"@ + n),
        None => None,
    }
}

/// The file that a test leaves its output in.
pub fn probe_output(p: Probe, root: &str) -> (r: Option<String>)
    ensures
        match r {
            Some(t) => output_file(p, root@) == Some(t@),
            None => output_file(p, root@) is None,
        },
{
    let name = match p {
        Probe::ReadAppData => "appdata-result.txt",
        Probe::ReadHostTemp => "temp-read-result.txt",
        Probe::TokenIdentity => "integrity.txt",
        Probe::WorkingDirectory => "cwd-result.txt",
        Probe::ReadOwnRoot => "read-result.txt",
        Probe::ReadUserFiles => "read-host-result.txt",
        Probe::ListUsers => "list-users-result.txt",
        Probe::ListProcesses => "tasklist-result.txt",
        _ => {
            return None;
        },
    };
    Some(concat3(root, "\\Temp\\", name))
}

/// A command whose output and errors go to a file.
pub open spec fn redirected(command: Seq<char>, file: Seq<char>) -> Seq<char> {
    "cmd.exe /c "@ + command + " > \""@ + file + "\" 2>&1"@
}

fn redirect(command: &str, file: &str) -> (s: String)
    ensures
        s@ == redirected(command@, file@),
{
    concat5("cmd.exe /c ", command, " > \"", file, "\" 2>&1")
}

/// The command that a test runs in the sandbox, with its target and the file
/// for its output.
pub open spec fn command(p: Probe, t: Seq<char>, out: Seq<char>) -> Seq<char> {
    match p {
        Probe::WriteHostTemp | Probe::WriteDocuments
        | Probe::WriteProgramData => "cmd.exe /c echo ESCAPED > \""@ + t + "\""@,
        Probe::ReadAppData => redirected("dir \""@ + t + "\""@, out),
        Probe::ReadHostTemp | Probe::ReadOwnRoot | Probe::ReadUserFiles => redirected(
            "type \""@ + t + "\""@,
            out,
        ),
        Probe::TokenIdentity => redirected("whoami /groups"@, out),
        Probe::WorkingDirectory => redirected("cd"@, out),
        Probe::WriteOwnTemp => redirected("echo sandbox-wrote-this"@, t),
        Probe::ListUsers => redirected("dir C:\\Users"@, out),
        Probe::ListProcesses => redirected("tasklist"@, out),
    }
}

/// The text, or nothing where there is none.
pub open spec fn or_nothing(t: Option<Seq<char>>) -> Seq<char> {
    match t {
        Some(s) => s,
        None => seq![],
    }
}

fn or_empty(t: Option<String>) -> (s: String)
    ensures
        s@ == match t {
            Some(x) => x@,
            None => seq![],
        },
{
    match t {
        Some(x) => x,
        None => {
            let e = String::new();
            assert(e@ =~= Seq::<char>::empty());
            e
        },
    }
}

/// The command that a test runs in the sandbox; none where the host has no
/// place for it, so that the test is passed over.
pub fn probe_command(p: Probe, s: &Surroundings) -> (r: Option<String>)
    ensures
        match r {
            Some(c) => !(p == Probe::WriteDocuments && s.profile is None) && c@ == command(
                p,
                or_nothing(target(p, *s)),
                or_nothing(output_file(p, s.rootfs@)),
            ),
            None => p == Probe::WriteDocuments && s.profile is None,
        },
{
    let target = probe_target(p, s);
    if p == Probe::WriteDocuments && target.is_none() {
        return None;
    }
    let t = or_empty(target);
    let out = or_empty(probe_output(p, s.rootfs.as_str()));
    let c = match p {
        Probe::WriteHostTemp => concat3("cmd.exe /c echo ESCAPED > \"", t.as_str(), "\""),
        Probe::WriteDocuments => concat3("cmd.exe /c echo ESCAPED > \"", t.as_str(), "\""),
        Probe::WriteProgramData => concat3("cmd.exe /c echo ESCAPED > \"", t.as_str(), "\""),
        Probe::ReadAppData => {
            let dir = concat3("dir \"", t.as_str(), "\"");
            redirect(dir.as_str(), out.as_str())
        },
        Probe::ReadHostTemp => {
            let read = concat3("type \"", t.as_str(), "\"");
            redirect(read.as_str(), out.as_str())
        },
        Probe::ReadOwnRoot => {
            let read = concat3("type \"", t.as_str(), "\"");
            redirect(read.as_str(), out.as_str())
        },
        Probe::ReadUserFiles => {
            let read = concat3("type \"", t.as_str(), "\"");
            redirect(read.as_str(), out.as_str())
        },
        Probe::TokenIdentity => redirect("whoami /groups", out.as_str()),
        Probe::WorkingDirectory => redirect("cd", out.as_str()),
        Probe::WriteOwnTemp => redirect("echo sandbox-wrote-this", t.as_str()),
        Probe::ListUsers => redirect("dir C:\\Users", out.as_str()),
        Probe::ListProcesses => redirect("tasklist", out.as_str()),
    };
    Some(c)
}

/// What is left of a test: whether its target is there, and what its output or,
/// where it writes to its own directory, its target holds. An output that could
/// not be read counts as empty.
#[derive(Clone, Debug)]
pub struct Remains {
    pub target_exists: bool,
    pub output_exists: bool,
    pub output: String,
}

/// The start of an output, quoted.
pub open spec fn excerpt(prefix: Seq<char>, output: Seq<char>) -> Seq<char> {
    let t = trim(output);
    prefix + debug_form(
        if t.len() > 60 {
            t.take(60)
        } else {
            t
        },
    ) + ")"@
}

fn show_excerpt(prefix: &str, output: &str) -> (s: String)
    ensures
        s@ == excerpt(prefix@, output@),
{
    let t = trimmed(output);
    let n: usize = chars_of(t.as_str()).len();
    let d = if n > 60 {
        let head = take(t.as_str(), 60);
        debug_text(head.as_str())
    } else {
        debug_text(t.as_str())
    };
    concat3(prefix, d.as_str(), ")")
}

/// What is found where a file of the host was to be read that holds `secret`.
pub open spec fn read_finding(
    output: Seq<char>,
    secret: Seq<char>,
    breach: Seq<char>,
    good: Seq<char>,
) -> Finding {
    if occurs(output, secret) {
        fails(breach)
    } else if occurs(output, "Access is denied"@) || output.len() == 0 {
        passes(good)
    } else {
        passes(excerpt("(blocked: "@, output))
    }
}

fn judge_read(output: &str, secret: &str, breach: &str, good: &str) -> (v: Verdict)
    ensures
        v@ == read_finding(output@, secret@, breach@, good@),
{
    if contains(output, secret) {
        failed(breach)
    } else if contains(output, "Access is denied") || output.is_empty() {
        passed(good)
    } else {
        Verdict { passed: true, message: show_excerpt("(blocked: ", output) }
    }
}

/// What is found where the host's application data was to be listed.
pub open spec fn appdata_finding(output: Seq<char>) -> Finding {
    if occurs(output, "Access is denied"@) || occurs(output, "cannot find"@) {
        passes("(AppContainer blocks host AppData)"@)
    } else if output.len() == 0 {
        passes("(no output — access blocked)"@)
    } else if occurs(output, "Directory of"@) {
        fails("(BREACH: can list host AppData!)"@)
    } else {
        passes(excerpt("(blocked: "@, output))
    }
}

fn judge_appdata(output: &str) -> (v: Verdict)
    ensures
        v@ == appdata_finding(output@),
{
    if contains(output, "Access is denied") || contains(output, "cannot find") {
        passed("(AppContainer blocks host AppData)")
    } else if output.is_empty() {
        passed("(no output — access blocked)")
    } else if contains(output, "Directory of") {
        failed("(BREACH: can list host AppData!)")
    } else {
        Verdict { passed: true, message: show_excerpt("(blocked: ", output) }
    }
}

/// What is found from the groups of the process.
pub open spec fn identity_finding(output: Seq<char>) -> Finding {
    if occurs(output, "S-1-15-2-"@) {
        passes("(AppContainer SID present in token)"@)
    } else if occurs(output, "Low Mandatory Level"@) || occurs(output, "S-1-16-4096"@) {
        passes("(Low integrity confirmed)"@)
    } else if output.len() == 0 {
        fails("(whoami produced no output)"@)
    } else {
        passes("(groups: "@ + decimal(encode_utf8(output).len()) + " chars)"@)
    }
}

fn judge_identity(output: &str) -> (v: Verdict)
    ensures
        v@ == identity_finding(output@),
{
    if contains(output, "S-1-15-2-") {
        passed("(AppContainer SID present in token)")
    } else if contains(output, "Low Mandatory Level") || contains(output, "S-1-16-4096") {
        passed("(Low integrity confirmed)")
    } else if output.is_empty() {
        failed("(whoami produced no output)")
    } else {
        let n = decimal_text(output.as_bytes().len() as u128);
        Verdict { passed: true, message: concat3("(groups: ", n.as_str(), " chars)") }
    }
}

/// What is found from the directory that the process is in.
pub open spec fn directory_finding(output: Seq<char>, root: Seq<char>) -> Finding {
    if occurs(output, root) {
        passes("(cwd="@ + trim(output) + ")"@)
    } else if output.len() == 0 {
        fails("(no output)"@)
    } else {
        fails("(cwd outside rootfs: "@ + trim(output) + ")"@)
    }
}

fn judge_directory(output: &str, root: &str) -> (v: Verdict)
    ensures
        v@ == directory_finding(output@, root@),
{
    let t = trimmed(output);
    if contains(output, root) {
        Verdict { passed: true, message: concat3("(cwd=", t.as_str(), ")") }
    } else if output.is_empty() {
        failed("(no output)")
    } else {
        Verdict { passed: false, message: concat3("(cwd outside rootfs: ", t.as_str(), ")") }
    }
}

/// What is found where a file of the container's own was to be read.
pub open spec fn own_read_finding(r: Remains) -> Finding {
    if occurs(r.output@, "rootfs-accessible"@) {
        passes("(can read own files)"@)
    } else {
        fails(
            "(can't read own rootfs: exists="@ + bool_form(r.output_exists) + ", content="@
                + debug_form(trim(r.output@)) + ")"@,
        )
    }
}

fn judge_own_read(r: &Remains) -> (v: Verdict)
    ensures
        v@ == own_read_finding(*r),
{
    if contains(r.output.as_str(), "rootfs-accessible") {
        passed("(can read own files)")
    } else {
        let t = trimmed(r.output.as_str());
        let d = debug_text(t.as_str());
        Verdict {
            passed: false,
            message: concat5(
                "(can't read own rootfs: exists=",
                bool_text(r.output_exists),
                ", content=",
                d.as_str(),
                ")",
            ),
        }
    }
}

/// What is found where a file was to be written to the container's own
/// directory.
pub open spec fn own_write_finding(r: Remains) -> Finding {
    if !r.target_exists {
        fails("(can't write to own rootfs Temp!)"@)
    } else if occurs(r.output@, "sandbox-wrote-this"@) {
        passes("(can write to own Temp)"@)
    } else {
        passes("(file created)"@)
    }
}

fn judge_own_write(r: &Remains) -> (v: Verdict)
    ensures
        v@ == own_write_finding(*r),
{
    if !r.target_exists {
        failed("(can't write to own rootfs Temp!)")
    } else if contains(r.output.as_str(), "sandbox-wrote-this") {
        passed("(can write to own Temp)")
    } else {
        passed("(file created)")
    }
}

/// What is found where the users of the host were to be listed.
pub open spec fn users_finding(output: Seq<char>, user: Seq<char>) -> Finding {
    if occurs(output, user) {
        fails("(BREACH: can list host users — saw '"@ + user + "')"@)
    } else if occurs(output, "Access is denied"@) || output.len() == 0 {
        passes("(denied or invisible)"@)
    } else {
        passes(excerpt("(no host users: "@, output))
    }
}

fn judge_users(output: &str, user: &str) -> (v: Verdict)
    ensures
        v@ == users_finding(output@, user@),
{
    if contains(output, user) {
        Verdict {
            passed: false,
            message: concat3("(BREACH: can list host users — saw '", user, "')"),
        }
    } else if contains(output, "Access is denied") || output.is_empty() {
        passed("(denied or invisible)")
    } else {
        Verdict { passed: true, message: show_excerpt("(no host users: ", output) }
    }
}

/// What is found where the processes of the host were to be listed.
pub open spec fn processes_finding(output: Seq<char>) -> Finding {
    if occurs(output, "explorer.exe"@) || occurs(output, "svchost.exe"@) {
        fails("(BREACH: can see host processes!)"@)
    } else if output.len() == 0 || occurs(output, "not recognized"@) || occurs(
        output,
        "Access is denied"@,
    ) {
        passes("(process list blocked in sandbox)"@)
    } else {
        passes("(limited view: "@ + decimal(encode_utf8(output).len()) + " chars)"@)
    }
}

fn judge_processes(output: &str) -> (v: Verdict)
    ensures
        v@ == processes_finding(output@),
{
    if contains(output, "explorer.exe") || contains(output, "svchost.exe") {
        failed("(BREACH: can see host processes!)")
    } else if output.is_empty() || contains(output, "not recognized") || contains(
        output,
        "Access is denied",
    ) {
        passed("(process list blocked in sandbox)")
    } else {
        let n = decimal_text(output.as_bytes().len() as u128);
        Verdict { passed: true, message: concat3("(limited view: ", n.as_str(), " chars)") }
    }
}

/// What a test finds.
pub open spec fn finding(p: Probe, s: Surroundings, r: Remains) -> Finding {
    match p {
        Probe::WriteHostTemp => either(
            !r.target_exists,
            "(blocked by AppContainer)"@,
            "(BREACH: wrote to host temp!)"@,
        ),
        Probe::WriteDocuments => if s.profile is None {
            passes("(Documents path not available — skipped)"@)
        } else {
            either(
                !r.target_exists,
                "(blocked by AppContainer)"@,
                "(BREACH: wrote to Documents!)"@,
            )
        },
        Probe::ReadAppData => appdata_finding(r.output@),
        Probe::ReadHostTemp => read_finding(
            r.output@,
            "SECRET_CANARY_DATA"@,
            "(BREACH: can read host temp files!)"@,
            "(AppContainer blocks host temp)"@,
        ),
        Probe::WriteProgramData => either(
            !r.target_exists,
            "(AppContainer blocks writes outside sandbox)"@,
            "(BREACH: wrote to C:\\ProgramData!)"@,
        ),
        Probe::TokenIdentity => identity_finding(r.output@),
        Probe::WorkingDirectory => directory_finding(r.output@, s.rootfs@),
        Probe::ReadOwnRoot => own_read_finding(r),
        Probe::WriteOwnTemp => own_write_finding(r),
        Probe::ReadUserFiles => read_finding(
            r.output@,
            "HOST_SECRET_DATA_12345"@,
            "(BREACH: can read host user file!)"@,
            "(AppContainer blocks host file reads)"@,
        ),
        Probe::ListUsers => users_finding(r.output@, s.username@),
        Probe::ListProcesses => processes_finding(r.output@),
    }
}

/// What a test finds, from what is left of it.
pub fn test_sandbox_escape(p: Probe, s: &Surroundings, r: &Remains) -> (v: Verdict)
    ensures
        v@ == finding(p, *s, *r),
{
    let out = r.output.as_str();
    match p {
        Probe::WriteHostTemp => decide(
            !r.target_exists,
            "(blocked by AppContainer)",
            "(BREACH: wrote to host temp!)",
        ),
        Probe::WriteDocuments => if s.profile.is_none() {
            passed("(Documents path not available — skipped)")
        } else {
            decide(
                !r.target_exists,
                "(blocked by AppContainer)",
                "(BREACH: wrote to Documents!)",
            )
        },
        Probe::ReadAppData => judge_appdata(out),
        Probe::ReadHostTemp => judge_read(
            out,
            "SECRET_CANARY_DATA",
            "(BREACH: can read host temp files!)",
            "(AppContainer blocks host temp)",
        ),
        Probe::WriteProgramData => decide(
            !r.target_exists,
            "(AppContainer blocks writes outside sandbox)",
            "(BREACH: wrote to C:\\ProgramData!)",
        ),
        Probe::TokenIdentity => judge_identity(out),
        Probe::WorkingDirectory => judge_directory(out, s.rootfs.as_str()),
        Probe::ReadOwnRoot => judge_own_read(r),
        Probe::WriteOwnTemp => judge_own_write(r),
        Probe::ReadUserFiles => judge_read(
            out,
            "HOST_SECRET_DATA_12345",
            "(BREACH: can read host user file!)",
            "(AppContainer blocks host file reads)",
        ),
        Probe::ListUsers => judge_users(out, s.username.as_str()),
        Probe::ListProcesses => judge_processes(out),
    }
}

/// A test whose planted file turns up in its output fails if that file is the
/// host's, and passes if it is the container's own.
pub proof fn law_planted_text_tells(p: Probe, s: Surroundings, r: Remains)
    requires
        planted(p) is Some,
        occurs(r.output@, planted(p)->0),
    ensures
        finding(p, s, r).passed <==> p == Probe::ReadOwnRoot,
{
}

/// A file of the host that the sandbox has written is a breach, whatever else
/// is left of the test.
pub proof fn law_written_host_file_fails(p: Probe, s: Surroundings, r: Remains)
    requires
        p == Probe::WriteHostTemp || p == Probe::WriteDocuments || p == Probe::WriteProgramData,
        target(p, s) is Some,
        r.target_exists,
    ensures
        !finding(p, s, r).passed,
{
}

/// When a probe passes. What must not be possible has not happened: no file of
/// the host was written, no secret of the host came out, no directory, user or
/// process of the host was listed. And what must be possible has: the token is
/// that of a container, the directory is its own, and its own files are read and
/// written.
pub proof fn law_when_probes_pass(p: Probe, s: Surroundings, r: Remains)
    ensures
        ({
            let ok = finding(p, s, r).passed;
            let out = r.output@;
            &&& p == Probe::WriteHostTemp || p == Probe::WriteProgramData ==> (ok
                <==> !r.target_exists)
            &&& p == Probe::WriteDocuments ==> (ok <==> s.profile is None || !r.target_exists)
            &&& p == Probe::ReadAppData ==> (ok <==> !occurs(out, "Directory of"@) || occurs(
                out,
                "Access is denied"@,
            ) || occurs(out, "cannot find"@) || out.len() == 0)
            &&& p == Probe::ReadHostTemp ==> (ok <==> !occurs(out, "SECRET_CANARY_DATA"@))
            &&& p == Probe::ReadUserFiles ==> (ok <==> !occurs(out, "HOST_SECRET_DATA_12345"@))
            &&& p == Probe::TokenIdentity ==> (ok <==> out.len() > 0 || occurs(out, "S-1-15-2-"@)
                || occurs(out, "Low Mandatory Level"@) || occurs(out, "S-1-16-4096"@))
            &&& p == Probe::WorkingDirectory ==> (ok <==> occurs(out, s.rootfs@))
            &&& p == Probe::ReadOwnRoot ==> (ok <==> occurs(out, "rootfs-accessible"@))
            &&& p == Probe::WriteOwnTemp ==> (ok <==> r.target_exists)
            &&& p == Probe::ListUsers ==> (ok <==> !occurs(out, s.username@))
            &&& p == Probe::ListProcesses ==> (ok <==> !occurs(out, "explorer.exe"@) && !occurs(
                out,
                "svchost.exe"@,
            ))
        }),
{
}

/// What a probe works on. A write goes to a file of the host, a read to a place
/// of the host where a secret lies, and what must be possible stays below the
/// root of the container.
pub proof fn law_probe_targets(p: Probe, s: Surroundings)
    ensures
        p == Probe::WriteHostTemp ==> target(p, s) == Some(
            inside(s.temp_dir@) + "psroot-escape-test-write.txt"@,
        ),
        p == Probe::ReadHostTemp ==> target(p, s) == Some(
            inside(s.temp_dir@) + "psroot-secret-canary.txt"@,
        ),
        p == Probe::WriteDocuments ==> (s.profile matches Some(d) ==> target(p, s) == Some(
            inside(d@) + "Documents\\psroot-escape-test.txt"@,
        )),
        p == Probe::WriteDocuments && s.profile is None ==> target(p, s) is None,
        p == Probe::ReadAppData ==> (s.appdata matches Some(a) ==> target(p, s) == Some(a@)),
        p == Probe::ReadAppData && s.appdata is None ==> target(p, s) == Some(
            "C:\\Users\\Public"@,
        ),
        p == Probe::WriteProgramData ==> target(p, s) == Some(
            "C:\\ProgramData\\psroot-escape-test.txt"@,
        ),
        p == Probe::ReadOwnRoot ==> target(p, s) == Some(s.rootfs@ + "\\Temp\\canary.txt"@),
        p == Probe::WriteOwnTemp ==> target(p, s) == Some(
            s.rootfs@ + "\\Temp\\write-test-output.txt"@,
        ),
        p == Probe::ReadUserFiles ==> target(p, s) == Some(
            s.temp_var@ + "\\psroot-host-secret.txt"@,
        ),
        target(p, s) is None <==> p == Probe::TokenIdentity || p == Probe::WorkingDirectory || p
            == Probe::ListUsers || p == Probe::ListProcesses || (p == Probe::WriteDocuments
            && s.profile is None),
{
    reveal_strlit("psroot-escape-test-write.txt");
    reveal_strlit("psroot-secret-canary.txt");
    reveal_strlit("Documents");
    reveal_strlit("psroot-escape-test.txt");
    reveal_strlit("Documents\\psroot-escape-test.txt");
    law_join_goes_below(s.temp_dir@, "psroot-escape-test-write.txt"@);
    law_join_goes_below(s.temp_dir@, "psroot-secret-canary.txt"@);
    if let Some(d) = s.profile {
        let docs = joined_path(d@, "Documents"@);
        law_join_goes_below(d@, "Documents"@);
        law_join_goes_below(docs, "psroot-escape-test.txt"@);
        assert(docs.last() == 's');
        assert(joined_path(docs, "psroot-escape-test.txt"@) =~= inside(d@)
            + "Documents\\psroot-escape-test.txt"@);
    }
}

/// A probe's command does what the probe is about: it writes to its target, reads
/// or lists it, or asks about itself; and what it prints goes to a file of its
/// own in the temporary files of the root.
pub proof fn law_probe_commands(p: Probe, t: Seq<char>, out: Seq<char>, root: Seq<char>)
    ensures
        p == Probe::WriteHostTemp || p == Probe::WriteDocuments || p == Probe::WriteProgramData
            ==> command(p, t, out) == "cmd.exe /c echo ESCAPED > \""@ + t + "\""@,
        p == Probe::ReadHostTemp || p == Probe::ReadOwnRoot || p == Probe::ReadUserFiles
            ==> command(p, t, out) == "cmd.exe /c "@ + ("type \""@ + t + "\""@) + " > \""@ + out
            + "\" 2>&1"@,
        p == Probe::ReadAppData ==> command(p, t, out) == "cmd.exe /c "@ + ("dir \""@ + t + "\""@)
            + " > \""@ + out + "\" 2>&1"@,
        p == Probe::TokenIdentity ==> command(p, t, out) == "cmd.exe /c "@ + "whoami /groups"@
            + " > \""@ + out + "\" 2>&1"@,
        p == Probe::WorkingDirectory ==> command(p, t, out) == "cmd.exe /c "@ + "cd"@ + " > \""@
            + out + "\" 2>&1"@,
        p == Probe::WriteOwnTemp ==> command(p, t, out) == "cmd.exe /c "@
            + "echo sandbox-wrote-this"@ + " > \""@ + t + "\" 2>&1"@,
        p == Probe::ListUsers ==> command(p, t, out) == "cmd.exe /c "@ + "dir C:\\Users"@ + " > \""@
            + out + "\" 2>&1"@,
        p == Probe::ListProcesses ==> command(p, t, out) == "cmd.exe /c "@ + "tasklist"@ + " > \""@
            + out + "\" 2>&1"@,
        output_file(p, root) matches Some(f) ==> (root + "\\Temp\\"@).is_prefix_of(f),
        output_file(p, root) is None <==> p == Probe::WriteHostTemp || p == Probe::WriteDocuments
            || p == Probe::WriteProgramData || p == Probe::WriteOwnTemp,
{
    if let Some(n) = output_name(p) {
        let dir = root + "\\Temp\\"@;
        assert((dir + n).take(dir.len() as int) =~= dir);
    }
}

/// No two probes print to the same file, and secrets are planted exactly for the
/// probes that look for them.
pub proof fn law_probes_are_apart(p: Probe, q: Probe)
    ensures
        output_name(p) is Some && output_name(p) == output_name(q) ==> p == q,
        planted(p) == Some("SECRET_CANARY_DATA"@) <==> p == Probe::ReadHostTemp,
        planted(p) == Some("rootfs-accessible"@) <==> p == Probe::ReadOwnRoot,
        planted(p) == Some("HOST_SECRET_DATA_12345"@) <==> p == Probe::ReadUserFiles,
        planted(p) is Some <==> p == Probe::ReadHostTemp || p == Probe::ReadOwnRoot || p
            == Probe::ReadUserFiles,
        exists|i: int| 0 <= i < all_probes().len() && #[trigger] all_probes()[i] == p,
        all_probes().len() == 12,
{
    reveal_strlit("SECRET_CANARY_DATA");
    reveal_strlit("rootfs-accessible");
    reveal_strlit("HOST_SECRET_DATA_12345");
    assert("SECRET_CANARY_DATA"@.len() == 18 && "rootfs-accessible"@.len() == 17);
    assert("HOST_SECRET_DATA_12345"@.len() == 22);
    reveal_strlit("appdata-result.txt");
    reveal_strlit("temp-read-result.txt");
    reveal_strlit("integrity.txt");
    reveal_strlit("cwd-result.txt");
    reveal_strlit("read-result.txt");
    reveal_strlit("read-host-result.txt");
    reveal_strlit("list-users-result.txt");
    reveal_strlit("tasklist-result.txt");
    assert("appdata-result.txt"@.len() == 18 && "temp-read-result.txt"@.len() == 20);
    assert("integrity.txt"@.len() == 13 && "cwd-result.txt"@.len() == 14);
    assert("read-result.txt"@.len() == 15 && "read-host-result.txt"@.len() == 20);
    assert("list-users-result.txt"@.len() == 21 && "tasklist-result.txt"@.len() == 19);
    assert("temp-read-result.txt"@[0] != "read-host-result.txt"@[0]);
    let a = all_probes();
    let i: int = match p {
        Probe::WriteHostTemp => 0,
        Probe::WriteDocuments => 1,
        Probe::ReadAppData => 2,
        Probe::ReadHostTemp => 3,
        Probe::WriteProgramData => 4,
        Probe::TokenIdentity => 5,
        Probe::WorkingDirectory => 6,
        Probe::ReadOwnRoot => 7,
        Probe::WriteOwnTemp => 8,
        Probe::ReadUserFiles => 9,
        Probe::ListUsers => 10,
        Probe::ListProcesses => 11,
    };
    assert(a[i] == p);
}

/// A host that was reached is told as a breach: every probe of the host that
/// fails says so first.
pub proof fn law_breaches_are_told(p: Probe, s: Surroundings, r: Remains)
    requires
        !finding(p, s, r).passed,
        p != Probe::TokenIdentity,
        p != Probe::WorkingDirectory,
        p != Probe::ReadOwnRoot,
        p != Probe::WriteOwnTemp,
    ensures
        "(BREACH: "@.is_prefix_of(finding(p, s, r).message),
{
    reveal_strlit("(BREACH: ");
    reveal_strlit("(BREACH: wrote to host temp!)");
    reveal_strlit("(BREACH: wrote to Documents!)");
    reveal_strlit("(BREACH: can list host AppData!)");
    reveal_strlit("(BREACH: can read host temp files!)");
    reveal_strlit("(BREACH: wrote to C:\\ProgramData!)");
    reveal_strlit("(BREACH: can read host user file!)");
    reveal_strlit("(BREACH: can list host users — saw '");
    reveal_strlit("(BREACH: can see host processes!)");
    let m = finding(p, s, r).message;
    assert(m.len() >= 9);
    assert(m.take(9) =~= "(BREACH: "@);
}

} // verus!
