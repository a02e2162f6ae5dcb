//! What a process of a container is started with, for each way of starting one.
//!
//! A launch holds the steps to be taken, and what the step that creates the
//! process needs: its command line, its directory, its flags, and the names of
//! what it runs under.

use crate::container::config::{ContainerConfig, Failure, NetworkAccess, PsrootError};
use crate::container::desktop::{desktop_name, full_name};
use crate::container::env::pairs;
use crate::container::env_block::{
    build_env_block, build_env_block_w, entries_block, entry_texts, env_block,
};
use crate::container::sandbox::{
    bind_drives, bind_junctions, build_command_line, build_network_capabilities, command_line,
    container_id_of, law_replaced, network_capabilities, owner_of, plan_binds, replace_all, replaced,
    seen_in_devicemap, seen_in_silo, start_dir, start_directory, translate_devicemap,
    translate_silo,
};
use crate::container::setup::ALL_APP_PACKAGES_SID;
use crate::container::spawn::{
    creation_flags, failed_call, failed_call_name, in_appcontainer, is_on_desktop,
    loopback_profile, on_desktop, process_flags, profile_name, script, spawn_script, SpawnKind,
    Step,
};
use crate::paths::{parent, parent_of};
use crate::text::{concat2, concat5, decimal, decimal_text, occurs, texts};
use crate::wide::{to_wide, wide};
use vstd::prelude::*;

verus! {

/// A program that was staged into a container, and how it is started.
#[derive(Clone, Debug)]
pub struct LaunchPlan {
    pub entry: String,
    pub args: Vec<String>,
    pub cwd: String,
    /// The directory of the host that the program was staged from.
    pub cache_dir: String,
    pub env: Vec<(String, String)>,
}

/// What a process is started with.
#[derive(Debug)]
pub struct Launch {
    pub kind: SpawnKind,
    pub steps: Vec<Step>,
    pub container_id: String,
    /// The name under which the loopback exemption is kept.
    pub loopback: String,
    pub capabilities: Vec<i32>,
    pub command_line: Vec<u16>,
    pub directory: Vec<u16>,
    pub flags: u32,
    pub inherit_handles: bool,
    /// The desktop with its window station, for programs with windows.
    pub desktop: Option<String>,
    /// Drives besides `C:`, with the directories of the host behind them.
    pub drives: Vec<(String, String)>,
    /// Junctions below the root directory, with the directories behind them.
    pub junctions: Vec<(String, String)>,
}

/// The id of a container whose root directory does not tell it.
pub open spec fn unknown_id(kind: SpawnKind) -> Seq<char> {
    if on_desktop(kind) {
        "gui-unknown"@
    } else {
        "unknown"@
    }
}

impl Launch {
    /// The part of a launch that its kind and the configuration decide.
    pub open spec fn fits(&self, kind: SpawnKind, config: ContainerConfig) -> bool {
        let id = owner_of(config.rootfs_path@, unknown_id(kind));
        &&& self.kind == kind
        &&& self.steps@ == script(kind, config.network)
        &&& self.container_id@ == id
        &&& self.loopback@ == profile_name(kind, id)
        &&& self.capabilities@ == if in_appcontainer(kind) {
            network_capabilities(config.network)
        } else {
            seq![]
        }
        &&& (self.flags, self.inherit_handles) == creation_flags(kind)
        &&& match self.desktop {
            Some(d) => on_desktop(kind) && d@ == full_name(desktop_name(id)),
            None => !on_desktop(kind),
        }
    }

    /// A launch of this command in this directory, without drives or junctions.
    pub open spec fn runs(
        &self,
        kind: SpawnKind,
        config: ContainerConfig,
        command: Seq<char>,
        directory: Seq<char>,
    ) -> bool {
        &&& self.fits(kind, config)
        &&& self.command_line@ == wide(command)
        &&& self.directory@ == wide(directory)
        &&& self.drives@.len() == 0
        &&& self.junctions@.len() == 0
    }
}

fn launch(kind: SpawnKind, config: &ContainerConfig, command: &str, directory: &str) -> (l: Launch)
    ensures
        l.runs(kind, *config, command@, directory@),
{
    let gui = is_on_desktop(kind);
    let id = if gui {
        container_id_of(config.rootfs_path.as_str(), "gui-unknown")
    } else {
        container_id_of(config.rootfs_path.as_str(), "unknown")
    };
    let (flags, inherit_handles) = process_flags(kind);
    let capabilities: Vec<i32> = match kind {
        SpawnKind::Restricted => Vec::new(),
        SpawnKind::Silo => Vec::new(),
        SpawnKind::DeviceMap => Vec::new(),
        _ => build_network_capabilities(config.network),
    };
    assert(!in_appcontainer(kind) ==> capabilities@ =~= Seq::<i32>::empty());
    let desktop = if gui {
        let name = concat2("Psroot-", id.as_str());
        Some(concat2("WinSta0\\", name.as_str()))
    } else {
        None
    };
    Launch {
        kind,
        steps: spawn_script(kind, config.network),
        loopback: loopback_profile(kind, id.as_str()),
        container_id: id,
        capabilities,
        command_line: to_wide(command),
        directory: to_wide(directory),
        flags,
        inherit_handles,
        desktop,
        drives: Vec::new(),
        junctions: Vec::new(),
    }
}

/// The command line of a plan.
pub open spec fn plan_line(plan: LaunchPlan) -> Seq<char> {
    command_line(plan.entry@, texts(plan.args@))
}

/// The directory that holds the cached programs.
pub open spec fn cache_parent(plan: LaunchPlan) -> Seq<char> {
    match parent(plan.cache_dir@) {
        Some(p) => p,
        None => plan.cache_dir@,
    }
}

fn cache_parent_of(plan: &LaunchPlan) -> (s: String)
    ensures
        s@ == cache_parent(*plan),
{
    match parent_of(plan.cache_dir.as_str()) {
        Some(p) => p,
        None => plan.cache_dir.clone(),
    }
}

fn refused(message: &str) -> (e: PsrootError)
    ensures
        e@ == Failure::Other(message@),
{
    PsrootError::Other(message.to_owned())
}

/// A launch of a command: in the background where it was told to start, else in
/// the root directory.
pub open spec fn command_launch(
    l: Launch,
    kind: SpawnKind,
    command: Seq<char>,
    config: ContainerConfig,
) -> bool {
    l.runs(
        kind,
        config,
        command,
        if kind == SpawnKind::Sandboxed || kind == SpawnKind::Restricted {
            start_dir(config.working_directory@, config.rootfs_path@)
        } else {
            config.rootfs_path@
        },
    )
}

/// A launch of a staged program, where its plan says.
pub open spec fn plan_launch(
    l: Launch,
    kind: SpawnKind,
    plan: LaunchPlan,
    config: ContainerConfig,
) -> bool {
    l.runs(kind, config, plan_line(plan), plan.cwd@)
}

/// A process in the background: in an AppContainer, or with a restricted token
/// where the host has none.
pub fn spawn_sandboxed(cmd: &str, config: &ContainerConfig, appcontainer: bool) -> (l: Launch)
    ensures
        command_launch(
            l,
            if appcontainer {
                SpawnKind::Sandboxed
            } else {
                SpawnKind::Restricted
            },
            cmd@,
            *config,
        ),
{
    if appcontainer {
        spawn_with_appcontainer(cmd, config)
    } else {
        spawn_with_restricted_token(cmd, config)
    }
}

/// A process in the background in an AppContainer.
pub fn spawn_with_appcontainer(cmd: &str, config: &ContainerConfig) -> (l: Launch)
    ensures
        command_launch(l, SpawnKind::Sandboxed, cmd@, *config),
{
    let dir = start_directory(config.working_directory.as_str(), config.rootfs_path.as_str());
    launch(SpawnKind::Sandboxed, config, cmd, dir.as_str())
}

/// A process in the background with a restricted token.
pub fn spawn_with_restricted_token(cmd: &str, config: &ContainerConfig) -> (l: Launch)
    ensures
        command_launch(l, SpawnKind::Restricted, cmd@, *config),
{
    let dir = start_directory(config.working_directory.as_str(), config.rootfs_path.as_str());
    launch(SpawnKind::Restricted, config, cmd, dir.as_str())
}

/// A shell on the caller's console, in the root directory.
pub fn spawn_interactive(cmd: &str, config: &ContainerConfig, appcontainer: bool) -> (r: Result<
    Launch,
    PsrootError,
>)
    ensures
        match r {
            Ok(l) => appcontainer && command_launch(l, SpawnKind::Interactive, cmd@, *config),
            Err(e) => !appcontainer && e@ == Failure::Other(
                "Interactive shell requires AppContainer support"@,
            ),
        },
{
    if !appcontainer {
        return Err(refused("Interactive shell requires AppContainer support"));
    }
    Ok(launch(SpawnKind::Interactive, config, cmd, config.rootfs_path.as_str()))
}

/// A program with windows on a desktop of its own, in the root directory; the
/// caller waits for it.
pub fn spawn_gui_isolated(cmd: &str, config: &ContainerConfig, appcontainer: bool) -> (r: Result<
    Launch,
    PsrootError,
>)
    ensures
        match r {
            Ok(l) => appcontainer && command_launch(l, SpawnKind::GuiIsolated, cmd@, *config),
            Err(e) => !appcontainer && e@ == Failure::Other(
                "GUI isolation requires AppContainer support"@,
            ),
        },
{
    if !appcontainer {
        return Err(refused("GUI isolation requires AppContainer support"));
    }
    Ok(launch(SpawnKind::GuiIsolated, config, cmd, config.rootfs_path.as_str()))
}

/// A program with windows on a desktop of its own; the caller does not wait.
pub fn spawn_gui_isolated_async(cmd: &str, config: &ContainerConfig, appcontainer: bool) -> (r:
    Result<Launch, PsrootError>)
    ensures
        match r {
            Ok(l) => appcontainer && command_launch(l, SpawnKind::GuiAsync, cmd@, *config),
            Err(e) => !appcontainer && e@ == Failure::Other(
                "GUI isolation requires AppContainer support"@,
            ),
        },
{
    if !appcontainer {
        return Err(refused("GUI isolation requires AppContainer support"));
    }
    Ok(launch(SpawnKind::GuiAsync, config, cmd, config.rootfs_path.as_str()))
}

/// A staged program with windows on a desktop of its own.
pub fn spawn_gui_plan(plan: &LaunchPlan, config: &ContainerConfig, appcontainer: bool) -> (r:
    Result<Launch, PsrootError>)
    ensures
        match r {
            Ok(l) => appcontainer && plan_launch(l, SpawnKind::GuiPlan, *plan, *config),
            Err(e) => !appcontainer && e@ == Failure::Other(
                "GUI isolation requires AppContainer support"@,
            ),
        },
{
    if !appcontainer {
        return Err(refused("GUI isolation requires AppContainer support"));
    }
    let line = build_command_line(plan.entry.as_str(), &plan.args);
    Ok(launch(SpawnKind::GuiPlan, config, line.as_str(), plan.cwd.as_str()))
}

/// A staged shell on the caller's console.
pub fn spawn_interactive_plan(plan: &LaunchPlan, config: &ContainerConfig, appcontainer: bool) -> (r:
    Result<Launch, PsrootError>)
    ensures
        match r {
            Ok(l) => appcontainer && plan_launch(l, SpawnKind::InteractivePlan, *plan, *config),
            Err(e) => !appcontainer && e@ == Failure::Other(
                "Interactive shell requires AppContainer support"@,
            ),
        },
{
    if !appcontainer {
        return Err(refused("Interactive shell requires AppContainer support"));
    }
    let line = build_command_line(plan.entry.as_str(), &plan.args);
    Ok(launch(SpawnKind::InteractivePlan, config, line.as_str(), plan.cwd.as_str()))
}

/// A launch in which the root directory is drive `C:` of the process alone.
pub open spec fn devicemap_launch(l: Launch, plan: LaunchPlan, config: ContainerConfig) -> bool {
    let root = config.rootfs_path@;
    &&& l.fits(SpawnKind::DeviceMap, config)
    &&& l.command_line@ == wide(
        command_line(seen_in_devicemap(plan.entry@, root), texts(plan.args@)),
    )
    &&& l.directory@ == wide(seen_in_devicemap(plan.cwd@, root))
    &&& pairs(l.drives@) == bind_drives(config.volumes@)
    &&& pairs(l.junctions@) == bind_junctions(root, config.volumes@)
}

/// A launch in a silo, in which the root directory is drive `C:` and the
/// directory of the cached programs drive `P:`.
pub open spec fn silo_launch(l: Launch, plan: LaunchPlan, config: ContainerConfig) -> bool {
    let root = config.rootfs_path@;
    let up = cache_parent(plan);
    &&& l.fits(SpawnKind::Silo, config)
    &&& l.command_line@ == wide(
        command_line(
            seen_in_silo(plan.entry@, root, plan.cache_dir@, up),
            texts(plan.args@),
        ),
    )
    &&& l.directory@ == wide(seen_in_silo(plan.cwd@, root, plan.cache_dir@, up))
    &&& pairs(l.drives@) == seq![("P:"@, up)]
    &&& l.junctions@.len() == 0
}

/// A staged shell with a map of drives of its own.
pub fn spawn_interactive_plan_devicemap(plan: &LaunchPlan, config: &ContainerConfig) -> (l: Launch)
    ensures
        devicemap_launch(l, *plan, *config),
{
    let root = config.rootfs_path.as_str();
    let entry = translate_devicemap(plan.entry.as_str(), root);
    let cwd = translate_devicemap(plan.cwd.as_str(), root);
    let line = build_command_line(entry.as_str(), &plan.args);
    let mut l = launch(SpawnKind::DeviceMap, config, line.as_str(), cwd.as_str());
    let (drives, junctions) = plan_binds(root, &config.volumes);
    l.drives = drives;
    l.junctions = junctions;
    l
}

/// A staged shell in a silo, or in an AppContainer where the host has no silos.
pub fn spawn_interactive_plan_silo(
    plan: &LaunchPlan,
    config: &ContainerConfig,
    silo: bool,
    appcontainer: bool,
) -> (r: Result<Launch, PsrootError>)
    ensures
        match r {
            Ok(l) => if silo {
                silo_launch(l, *plan, *config)
            } else {
                appcontainer && plan_launch(l, SpawnKind::InteractivePlan, *plan, *config)
            },
            Err(e) => !silo && !appcontainer && e@ == Failure::Other(
                "Interactive shell requires AppContainer support"@,
            ),
        },
{
    if !silo {
        return spawn_interactive_plan(plan, config, appcontainer);
    }
    let root = config.rootfs_path.as_str();
    let up = cache_parent_of(plan);
    let cache = plan.cache_dir.as_str();
    let entry = translate_silo(plan.entry.as_str(), root, cache, up.as_str());
    let cwd = translate_silo(plan.cwd.as_str(), root, cache, up.as_str());
    let line = build_command_line(entry.as_str(), &plan.args);
    let mut l = launch(SpawnKind::Silo, config, line.as_str(), cwd.as_str());
    let d = vec![("P:".to_owned(), up)];
    assert(pairs(d@) =~= seq![("P:"@, cache_parent(*plan))]);
    l.drives = d;
    Ok(l)
}

/// The value of a variable as the process sees it.
pub open spec fn seen_value(value: Seq<char>, root: Seq<char>, up: Option<Seq<char>>) -> Seq<char> {
    match up {
        Some(u) => replaced(replaced(value, u, "P:"@), root, "C:"@),
        None => replaced(value, root, "C:"@),
    }
}

/// The variables as the process sees them.
pub open spec fn seen_env(
    env: Seq<(Seq<char>, Seq<char>)>,
    root: Seq<char>,
    up: Option<Seq<char>>,
) -> Seq<(Seq<char>, Seq<char>)> {
    env.map_values(|e: (Seq<char>, Seq<char>)| (e.0, seen_value(e.1, root, up)))
}

/// The variables of a process with drives of its own: the paths of the host in
/// their values are those that the process sees. `up` is the directory behind
/// drive `P:`, if there is one.
pub fn translate_env(env: &Vec<(String, String)>, root: &str, up: Option<&str>) -> (out: Vec<
    (String, String),
>)
    ensures
        pairs(out@) == seen_env(
            pairs(env@),
            root@,
            match up {
                Some(u) => Some(u@),
                None => None,
            },
        ),
{
    let ghost u = match up {
        Some(u) => Some(u@),
        None => None,
    };
    let mut out: Vec<(String, String)> = Vec::new();
    let mut i: usize = 0;
    assert(pairs(out@) =~= seen_env(pairs(env@).take(0), root@, u));
    while i < env.len()
        invariant
            i <= env.len(),
            u == match up {
                Some(u) => Some(u@),
                None => None,
            },
            pairs(out@) == seen_env(pairs(env@).take(i as int), root@, u),
        decreases env.len() - i,
    {
        let value = match up {
            Some(u) => {
                let v = replace_all(env[i].1.as_str(), u, "P:");
                replace_all(v.as_str(), root, "C:")
            },
            None => replace_all(env[i].1.as_str(), root, "C:"),
        };
        let ghost before = out@;
        let e = (env[i].0.clone(), value);
        out.push(e);
        proof {
            assert(pairs(out@) =~= pairs(before).push((e.0@, e.1@)));
            assert(pairs(env@).take(i + 1) =~= pairs(env@).take(i as int).push(
                pairs(env@)[i as int],
            ));
            assert(seen_env(pairs(env@).take(i + 1), root@, u) =~= seen_env(
                pairs(env@).take(i as int),
                root@,
                u,
            ).push((e.0@, e.1@)));
        }
        i = i + 1;
    }
    assert(pairs(env@).take(env@.len() as int) =~= pairs(env@));
    out
}

/// The directory behind drive `P:` of a process of this kind, if it has one.
pub open spec fn cache_drive(kind: SpawnKind, plan: LaunchPlan) -> Option<Seq<char>> {
    if kind == SpawnKind::Silo {
        Some(cache_parent(plan))
    } else {
        None
    }
}

/// The variables of a staged program, from those of the caller, as a process
/// with drives of its own sees them.
pub fn process_env(
    kind: SpawnKind,
    plan: &LaunchPlan,
    config: &ContainerConfig,
    env: &Vec<(String, String)>,
) -> (out: Vec<(String, String)>)
    ensures
        pairs(out@) == seen_env(pairs(env@), config.rootfs_path@, cache_drive(kind, *plan)),
{
    let root = config.rootfs_path.as_str();
    if kind == SpawnKind::Silo {
        let up = cache_parent_of(plan);
        translate_env(env, root, Some(up.as_str()))
    } else {
        translate_env(env, root, None)
    }
}

/// The environment block that a process is created with, if it has one.
pub open spec fn block_of(
    kind: SpawnKind,
    config: ContainerConfig,
    env: Seq<(Seq<char>, Seq<char>)>,
) -> Option<Seq<u16>> {
    match kind {
        SpawnKind::Restricted => Some(env_block(pairs(config.env@), config.rootfs_path@)),
        SpawnKind::DeviceMap => Some(
            entries_block(entry_texts(seen_env(env, config.rootfs_path@, None))).push(0),
        ),
        _ => None,
    }
}

/// The environment block that a process is created with, none where it takes
/// the variables of the caller: a process with a restricted token has those of
/// its container alone, one with drives of its own those of the caller as it
/// sees them.
pub fn environment(
    kind: SpawnKind,
    config: &ContainerConfig,
    env: &Vec<(String, String)>,
) -> (r: Option<Vec<u16>>)
    ensures
        match r {
            Some(block) => block_of(kind, *config, pairs(env@)) == Some(block@),
            None => block_of(kind, *config, pairs(env@)) is None,
        },
{
    match kind {
        SpawnKind::Restricted => Some(
            build_env_block(&config.env, config.rootfs_path.as_str()),
        ),
        SpawnKind::DeviceMap => {
            let seen = translate_env(env, config.rootfs_path.as_str(), None);
            Some(build_env_block_w(&seen))
        },
        _ => None,
    }
}

/// The identity that is granted the files of a plan.
pub open spec fn granted_to(kind: SpawnKind, sid: Seq<char>) -> Seq<char> {
    if in_appcontainer(kind) {
        sid
    } else {
        ALL_APP_PACKAGES_SID@
    }
}

/// The identity that is granted the files of a plan: that of the process in its
/// AppContainer, or all of them where it runs in none.
pub fn stage_identity(kind: SpawnKind, sid: &str) -> (s: String)
    ensures
        s@ == granted_to(kind, sid@),
{
    match kind {
        SpawnKind::Restricted | SpawnKind::Silo
        | SpawnKind::DeviceMap => ALL_APP_PACKAGES_SID.to_owned(),
        _ => sid.to_owned(),
    }
}

/// What a step failed with, where the launch does not hand on the error of the
/// step as it is.
pub open spec fn step_failure(
    kind: SpawnKind,
    step: Step,
    cause: Seq<char>,
    code: u32,
    impersonated: bool,
) -> Option<Failure> {
    match step {
        Step::ApplyPlan => Some(Failure::Other("stager.apply_plan: "@ + cause)),
        Step::MirrorShell => Some(Failure::Other("materialize_psh_via_hardlinks: "@ + cause)),
        Step::BuildDeviceMap => Some(Failure::Other("ProcessDeviceMap::build: "@ + cause)),
        Step::AssignSelf => Some(
            Failure::Other(
                "ProcessDeviceMap::assign_to_current: "@ + cause
                    + " (run psroot elevated; SYSTEM impersonation status: "@ + (if impersonated {
                    "true"@
                } else {
                    "false"@
                }) + ")"@,
            ),
        ),
        Step::AssignChild => Some(
            Failure::Other("ProcessDeviceMap::assign_to_process(child): "@ + cause),
        ),
        Step::CheckCreated => Some(Failure::Win32 { op: failed_call(kind), code }),
        _ => None,
    }
}

/// What a step failed with, where the launch does not hand on the error of the
/// step as it is.
pub fn failure_of(kind: SpawnKind, step: Step, cause: &str, code: u32, impersonated: bool) -> (r:
    Option<PsrootError>)
    ensures
        match r {
            Some(e) => step_failure(kind, step, cause@, code, impersonated) == Some(e@),
            None => step_failure(kind, step, cause@, code, impersonated) is None,
        },
{
    match step {
        Step::ApplyPlan => Some(PsrootError::Other(concat2("stager.apply_plan: ", cause))),
        Step::MirrorShell => Some(
            PsrootError::Other(concat2("materialize_psh_via_hardlinks: ", cause)),
        ),
        Step::BuildDeviceMap => Some(
            PsrootError::Other(concat2("ProcessDeviceMap::build: ", cause)),
        ),
        Step::AssignSelf => {
            let status = if impersonated {
                "true"
            } else {
                "false"
            };
            Some(
                PsrootError::Other(
                    concat5(
                        "ProcessDeviceMap::assign_to_current: ",
                        cause,
                        " (run psroot elevated; SYSTEM impersonation status: ",
                        status,
                        ")",
                    ),
                ),
            )
        },
        Step::AssignChild => Some(
            PsrootError::Other(concat2("ProcessDeviceMap::assign_to_process(child): ", cause)),
        ),
        Step::CheckCreated => Some(PsrootError::win32(failed_call_name(kind), code)),
        _ => None,
    }
}

/// How a finished launch without an AppContainer is named in its result.
pub open spec fn result_name(silo: Option<u32>, process: u32) -> Seq<char> {
    match silo {
        Some(id) => "silo-"@ + decimal(id as nat),
        None => "devicemap-"@ + decimal(process as nat),
    }
}

/// How a finished launch without an AppContainer is named in its result: by the
/// silo, or by the process.
pub fn launch_name(silo: Option<u32>, process: u32) -> (s: String)
    ensures
        s@ == result_name(silo, process),
{
    match silo {
        Some(id) => {
            let n = decimal_text(id as u128);
            concat2("silo-", n.as_str())
        },
        None => {
            let n = decimal_text(process as u128);
            concat2("devicemap-", n.as_str())
        },
    }
}

/// A program of the root directory is started under the path that it has on
/// drive `C:`.
pub proof fn law_program_is_seen_on_drive_c(
    l: Launch,
    plan: LaunchPlan,
    config: ContainerConfig,
    rest: Seq<char>,
)
    requires
        devicemap_launch(l, plan, config),
        plan.entry@ == config.rootfs_path@ + rest,
        rest.len() > 0,
    ensures
        l.command_line@ == wide(command_line("C:"@ + rest, texts(plan.args@))),
{
    crate::container::sandbox::law_root_is_drive_c(config.rootfs_path@, rest);
}

/// A launch is what was asked for: the command as it was given, where a process
/// of its kind starts, in the steps of its kind, under the names of the
/// container whose root it has, and with the rights of its network and no
/// others.
pub proof fn law_launch_is_as_asked(
    l: Launch,
    kind: SpawnKind,
    command: Seq<char>,
    config: ContainerConfig,
)
    requires
        command_launch(l, kind, command, config),
    ensures
        l.command_line@ == wide(command),
        kind != SpawnKind::Sandboxed && kind != SpawnKind::Restricted ==> l.directory@ == wide(
            config.rootfs_path@,
        ),
        kind == SpawnKind::Sandboxed || kind == SpawnKind::Restricted ==> l.directory@ == wide(
            start_dir(config.working_directory@, config.rootfs_path@),
        ),
        l.drives@.len() == 0 && l.junctions@.len() == 0,
        same_frame(l, kind, config),
{
    lemma_frame(l, kind, config);
}

/// A launch of a staged program runs the program of the plan with its arguments,
/// in the directory of the plan.
pub proof fn law_plan_is_launched(
    l: Launch,
    kind: SpawnKind,
    plan: LaunchPlan,
    config: ContainerConfig,
)
    requires
        plan_launch(l, kind, plan, config),
    ensures
        l.command_line@ == wide(command_line(plan.entry@, texts(plan.args@))),
        l.directory@ == wide(plan.cwd@),
        l.drives@.len() == 0 && l.junctions@.len() == 0,
        same_frame(l, kind, config),
{
    lemma_frame(l, kind, config);
}

/// What every launch of a kind has, by the names and numbers that Windows knows.
pub open spec fn same_frame(l: Launch, kind: SpawnKind, config: ContainerConfig) -> bool {
    let windows = kind == SpawnKind::GuiIsolated || kind == SpawnKind::GuiAsync || kind
        == SpawnKind::GuiPlan;
    let bare = kind == SpawnKind::Restricted || kind == SpawnKind::Silo || kind
        == SpawnKind::DeviceMap;
    let id = owner_of(
        config.rootfs_path@,
        if windows {
            "gui-unknown"@
        } else {
            "unknown"@
        },
    );
    &&& l.kind == kind
    &&& l.steps@ == script(kind, config.network)
    &&& l.container_id@ == id
    &&& l.loopback@ == (if windows {
        "psroot.gui."@ + id
    } else {
        "psroot.container."@ + id
    })
    &&& l.desktop is Some <==> windows
    &&& l.desktop matches Some(d) ==> d@ == "WinSta0\\"@ + ("Psroot-"@ + id)
    &&& (l.flags, l.inherit_handles) == creation_flags(kind)
    &&& l.capabilities@ == (if bare || config.network == NetworkAccess::Off {
        Seq::<i32>::empty()
    } else if config.network == NetworkAccess::Full {
        seq![86i32, 87i32, 88i32]
    } else {
        seq![86i32]
    })
}

proof fn lemma_frame(l: Launch, kind: SpawnKind, config: ContainerConfig)
    requires
        l.fits(kind, config),
    ensures
        same_frame(l, kind, config),
{
    crate::container::sandbox::law_network_rights(config.network);
}

/// A process behind a device map of its own runs the program of the plan under
/// the path that it has on drive `C:`, with the mounts of its container.
pub proof fn law_device_map_launch(
    l: Launch,
    plan: LaunchPlan,
    config: ContainerConfig,
    rest: Seq<char>,
)
    requires
        devicemap_launch(l, plan, config),
        plan.cwd@ == config.rootfs_path@ + rest,
        rest.len() > 0,
    ensures
        l.directory@ == wide("C:"@ + rest),
        pairs(l.drives@) == bind_drives(config.volumes@),
        pairs(l.junctions@) == bind_junctions(config.rootfs_path@, config.volumes@),
        same_frame(l, SpawnKind::DeviceMap, config),
{
    crate::container::sandbox::law_root_is_drive_c(config.rootfs_path@, rest);
    lemma_frame(l, SpawnKind::DeviceMap, config);
}

/// A process in a silo runs the cached program under the path that it has on
/// drive `P:`, and has no other drive besides `C:`.
pub proof fn law_silo_launch(
    l: Launch,
    plan: LaunchPlan,
    config: ContainerConfig,
    up: Seq<char>,
    name: Seq<char>,
    rest: Seq<char>,
)
    requires
        silo_launch(l, plan, config),
        parent(plan.cache_dir@) == Some(up),
        plan.cache_dir@ == up + name,
        plan.entry@ == config.rootfs_path@ + "\\PSH"@ + rest,
        rest.len() > 0,
    ensures
        l.command_line@ == wide(command_line("P:"@ + name + rest, texts(plan.args@))),
        pairs(l.drives@) == seq![("P:"@, up)],
        l.junctions@.len() == 0,
        same_frame(l, SpawnKind::Silo, config),
{
    crate::container::sandbox::law_silo_drives(config.rootfs_path@, up, name, rest);
    lemma_frame(l, SpawnKind::Silo, config);
}

/// A process with drives of its own sees every variable of the caller under its
/// name, with the root directory in its value as drive `C:` and, in a silo, the
/// directory of the cached shells as drive `P:`.
pub proof fn law_variables_are_translated(
    env: Seq<(Seq<char>, Seq<char>)>,
    root: Seq<char>,
    up: Seq<char>,
    i: int,
    rest: Seq<char>,
)
    requires
        0 <= i < env.len(),
        root.len() > 0,
        up.len() > 0,
        !occurs(rest, root),
        !occurs(rest, up),
    ensures
        seen_env(env, root, None).len() == env.len(),
        seen_env(env, root, Some(up)).len() == env.len(),
        seen_env(env, root, None)[i].0 == env[i].0,
        seen_env(env, root, Some(up))[i].0 == env[i].0,
        env[i].1 == root + rest ==> seen_env(env, root, None)[i].1 == "C:"@ + rest,
        env[i].1 == rest ==> seen_env(env, root, None)[i].1 == rest,
        env[i].1 == rest ==> seen_env(env, root, Some(up))[i].1 == rest,
        env[i].1 == up + rest && !occurs("P:"@ + rest, root) ==> seen_env(
            env,
            root,
            Some(up),
        )[i].1 == "P:"@ + rest,
        env[i].1 == root + rest && !occurs(root + rest, up) ==> seen_env(
            env,
            root,
            Some(up),
        )[i].1 == "C:"@ + rest,
{
    law_replaced(rest, root, "C:"@);
    law_replaced(rest, up, "P:"@);
    law_replaced("P:"@ + rest, root, "C:"@);
    law_replaced(root + rest, up, "P:"@);
}

/// A process with a restricted token has the variables of its container alone,
/// one behind a device map those of the caller as it sees them, and every other
/// takes the caller's. Only a silo has a drive for the cached shells.
pub proof fn law_environment_by_kind(
    kind: SpawnKind,
    plan: LaunchPlan,
    config: ContainerConfig,
    env: Seq<(Seq<char>, Seq<char>)>,
)
    ensures
        block_of(kind, config, env) is Some <==> kind == SpawnKind::Restricted || kind
            == SpawnKind::DeviceMap,
        block_of(SpawnKind::Restricted, config, env) == Some(
            env_block(pairs(config.env@), config.rootfs_path@),
        ),
        block_of(SpawnKind::DeviceMap, config, env) == Some(
            entries_block(entry_texts(seen_env(env, config.rootfs_path@, None))).push(0),
        ),
        cache_drive(kind, plan) is Some <==> kind == SpawnKind::Silo,
        cache_drive(kind, plan) matches Some(d) ==> d == (match parent(plan.cache_dir@) {
            Some(p) => p,
            None => plan.cache_dir@,
        }),
{
}

/// The files of a plan are granted to the process's own AppContainer where it
/// has one, else to all of them, and a launch without one is named by its silo
/// or its process.
pub proof fn law_identities(kind: SpawnKind, sid: Seq<char>, id: u32, process: u32)
    ensures
        kind == SpawnKind::Restricted || kind == SpawnKind::Silo || kind == SpawnKind::DeviceMap
            ==> granted_to(kind, sid) == "S-1-15-2-1"@,
        kind != SpawnKind::Restricted && kind != SpawnKind::Silo && kind != SpawnKind::DeviceMap
            ==> granted_to(kind, sid) == sid,
        result_name(Some(id), process) == "silo-"@ + decimal(id as nat),
        result_name(None, process) == "devicemap-"@ + decimal(process as nat),
{
}

/// The error of a launch says which step failed and why.
pub proof fn law_failures_tell_the_step(
    kind: SpawnKind,
    step: Step,
    cause: Seq<char>,
    code: u32,
    impersonated: bool,
)
    ensures
        ({
            let e = step_failure(kind, step, cause, code, impersonated);
            &&& step == Step::ApplyPlan ==> e == Some(
                Failure::Other("stager.apply_plan: "@ + cause),
            )
            &&& step == Step::MirrorShell ==> e == Some(
                Failure::Other("materialize_psh_via_hardlinks: "@ + cause),
            )
            &&& step == Step::BuildDeviceMap ==> e == Some(
                Failure::Other("ProcessDeviceMap::build: "@ + cause),
            )
            &&& step == Step::AssignChild ==> e == Some(
                Failure::Other("ProcessDeviceMap::assign_to_process(child): "@ + cause),
            )
            &&& step == Step::CheckCreated ==> (e matches Some(Failure::Win32 { op, code: c }) && c
                == code && op == failed_call(kind))
            &&& step == Step::AssignSelf ==> (e matches Some(Failure::Other(t)) && (
            "ProcessDeviceMap::assign_to_current: "@ + cause).is_prefix_of(t))
            &&& e is Some <==> step == Step::ApplyPlan || step == Step::MirrorShell || step
                == Step::BuildDeviceMap || step == Step::AssignSelf || step == Step::AssignChild
                || step == Step::CheckCreated
        }),
{
    let a = "ProcessDeviceMap::assign_to_current: "@ + cause;
    let t = a + " (run psroot elevated; SYSTEM impersonation status: "@ + (if impersonated {
        "true"@
    } else {
        "false"@
    }) + ")"@;
    assert(t.take(a.len() as int) =~= a);
}

/// The function that failed is named by the way that was taken.
pub proof fn law_failed_calls(kind: SpawnKind)
    ensures
        kind == SpawnKind::Interactive ==> failed_call(kind) == "CreateProcessW(interactive)"@,
        kind == SpawnKind::GuiIsolated ==> failed_call(kind) == "CreateProcessW(gui_isolated)"@,
        kind == SpawnKind::GuiAsync ==> failed_call(kind)
            == "CreateProcessW(gui_isolated_async)"@,
        kind == SpawnKind::GuiPlan ==> failed_call(kind) == "CreateProcessW(gui_plan)"@,
        kind == SpawnKind::InteractivePlan ==> failed_call(kind)
            == "CreateProcessW(interactive_plan)"@,
        kind == SpawnKind::Sandboxed ==> failed_call(kind) == "CreateProcessW(AppContainer)"@,
        kind == SpawnKind::Restricted ==> failed_call(kind) == "CreateProcessAsUserW"@,
        kind == SpawnKind::Silo ==> failed_call(kind) == "Silo::create"@,
        kind == SpawnKind::DeviceMap ==> failed_call(kind) == "CreateProcessW(devicemap)"@,
{
}

} // verus!
