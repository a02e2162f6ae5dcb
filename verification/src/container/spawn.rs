//! How a sandboxed process is started: which steps are taken in which order,
//! and what is undone where one of them fails.
//!
//! The caller takes the steps of `spawn_script` one after the other. Where a
//! step fails it takes those that `on_failure` names, and ends with an error or
//! goes on with another way of starting the process.

use crate::container::config::NetworkAccess;
use vstd::prelude::*;

verus! {

/// The ways of starting a process.
#[derive(Clone, Copy, Debug, PartialEq, Eq, Structural)]
pub enum SpawnKind {
    /// A shell on the caller's console; the caller waits for it.
    Interactive,
    /// A program with windows on a desktop of its own; the caller waits for it.
    GuiIsolated,
    /// The same, without waiting.
    GuiAsync,
    /// A staged program with windows; the caller waits for it.
    GuiPlan,
    /// A staged shell on the caller's console; the caller waits for it.
    InteractivePlan,
    /// A process in the background, in the container's job.
    Sandboxed,
    /// The same with a restricted token in place of an AppContainer.
    Restricted,
    /// A staged shell in a server silo; the caller waits for it.
    Silo,
    /// A staged shell with a private device map; the caller waits for it.
    DeviceMap,
}

/// The steps of starting a process.
#[derive(Clone, Copy, Debug, PartialEq, Eq, Structural)]
pub enum Step {
    CreateProfile,
    ProfileSid,
    GrantRoot,
    GrantVolumes,
    ApplyPlan,
    Capabilities,
    AddLoopback,
    AttributeList,
    CreateDesktop,
    ApplyEnv,
    CreateProcess,
    DeleteAttributes,
    RestoreEnv,
    /// Fails where the process was not created.
    CheckCreated,
    AssignJob,
    Resume,
    Wait,
    ExitCode,
    CloseHandles,
    CloseThread,
    RemoveLoopback,
    DropProfile,
    /// The profile outlives the call; removing the container deletes it.
    KeepProfile,
    DropDesktop,
    Terminate,
    RestrictedToken,
    CloseToken,
    CreateSilo,
    SpawnInSilo,
    OpenInit,
    DropSilo,
    MirrorShell,
    MakeBinds,
    BuildDeviceMap,
    AssignSelf,
    AssignChild,
}

/// What follows a failure.
#[derive(Clone, Copy, Debug, PartialEq, Eq, Structural)]
pub enum After {
    Error,
    TryInstead(SpawnKind),
}

/// Whether the process runs in an AppContainer.
pub open spec fn in_appcontainer(kind: SpawnKind) -> bool {
    match kind {
        SpawnKind::Restricted | SpawnKind::Silo | SpawnKind::DeviceMap => false,
        _ => true,
    }
}

/// Whether the process has a desktop of its own.
pub open spec fn on_desktop(kind: SpawnKind) -> bool {
    kind == SpawnKind::GuiIsolated || kind == SpawnKind::GuiAsync || kind == SpawnKind::GuiPlan
}

/// Whether the program was staged by a launch plan.
pub open spec fn planned(kind: SpawnKind) -> bool {
    kind == SpawnKind::GuiPlan || kind == SpawnKind::InteractivePlan || kind == SpawnKind::Silo
        || kind == SpawnKind::DeviceMap
}

/// The step, where it is taken.
pub open spec fn when(b: bool, s: Step) -> Seq<Step> {
    if b {
        seq![s]
    } else {
        Seq::empty()
    }
}

/// The steps before the environment is changed.
pub open spec fn preparation(kind: SpawnKind, network: NetworkAccess) -> Seq<Step> {
    seq![Step::CreateProfile] + when(planned(kind), Step::ProfileSid) + seq![Step::GrantRoot]
        + when(kind == SpawnKind::Interactive, Step::GrantVolumes) + when(
        planned(kind),
        Step::ApplyPlan,
    ) + seq![Step::Capabilities] + when(network == NetworkAccess::Full, Step::AddLoopback) + seq![
        Step::AttributeList,
    ] + when(on_desktop(kind), Step::CreateDesktop)
}

/// The steps between which the caller's own environment is the sandbox's.
pub open spec fn creation() -> Seq<Step> {
    seq![
        Step::ApplyEnv,
        Step::CreateProcess,
        Step::DeleteAttributes,
        Step::RestoreEnv,
        Step::CheckCreated,
    ]
}

/// The steps after the process was created.
pub open spec fn conclusion(kind: SpawnKind, network: NetworkAccess) -> Seq<Step> {
    if kind == SpawnKind::Sandboxed {
        seq![Step::AssignJob, Step::Resume, Step::CloseHandles, Step::KeepProfile]
    } else if kind == SpawnKind::GuiAsync {
        seq![Step::ProfileSid, Step::CloseThread, Step::KeepProfile]
    } else {
        when(kind == SpawnKind::GuiIsolated, Step::ProfileSid) + seq![
            Step::Wait,
            Step::ExitCode,
            Step::CloseHandles,
        ] + when(network == NetworkAccess::Full, Step::RemoveLoopback) + seq![Step::DropProfile]
            + when(on_desktop(kind), Step::DropDesktop)
    }
}

/// The steps of starting a process.
pub open spec fn script(kind: SpawnKind, network: NetworkAccess) -> Seq<Step> {
    match kind {
        SpawnKind::Restricted => seq![
            Step::RestrictedToken,
            Step::CreateProcess,
            Step::CloseToken,
            Step::CheckCreated,
            Step::AssignJob,
            Step::Resume,
            Step::CloseHandles,
        ],
        SpawnKind::Silo => seq![
            Step::ApplyPlan,
            Step::ApplyEnv,
            Step::CreateSilo,
            Step::SpawnInSilo,
            Step::OpenInit,
            Step::RestoreEnv,
            Step::Wait,
            Step::ExitCode,
            Step::CloseHandles,
            Step::DropSilo,
        ],
        SpawnKind::DeviceMap => seq![
            Step::ApplyPlan,
            Step::MirrorShell,
            Step::ApplyEnv,
            Step::MakeBinds,
            Step::BuildDeviceMap,
            Step::AssignSelf,
            Step::CreateProcess,
            Step::CheckCreated,
            Step::AssignChild,
            Step::Resume,
            Step::RestoreEnv,
            Step::Wait,
            Step::ExitCode,
            Step::CloseHandles,
        ],
        _ => preparation(kind, network) + creation() + conclusion(kind, network),
    }
}

/// Whether a step can fail. The others succeed, or their failure changes
/// nothing.
pub open spec fn can_fail(step: Step) -> bool {
    match step {
        Step::CreateProfile | Step::ProfileSid | Step::GrantRoot | Step::ApplyPlan
        | Step::Capabilities | Step::AttributeList | Step::CreateDesktop | Step::CheckCreated
        | Step::AssignJob | Step::RestrictedToken | Step::CreateSilo | Step::SpawnInSilo
        | Step::OpenInit | Step::MirrorShell | Step::BuildDeviceMap | Step::AssignSelf
        | Step::AssignChild => true,
        _ => false,
    }
}

/// What is undone where a step fails. `code` is the error of the operating
/// system.
pub open spec fn cleanup(
    kind: SpawnKind,
    network: NetworkAccess,
    step: Step,
    code: u32,
) -> Seq<Step> {
    let loopback = when(network == NetworkAccess::Full, Step::RemoveLoopback);
    match kind {
        SpawnKind::Restricted => if step == Step::AssignJob {
            seq![Step::Terminate, Step::CloseHandles]
        } else {
            Seq::empty()
        },
        SpawnKind::Silo => match step {
            Step::CreateSilo => seq![Step::RestoreEnv],
            Step::SpawnInSilo | Step::OpenInit => seq![Step::RestoreEnv, Step::DropSilo],
            _ => Seq::empty(),
        },
        SpawnKind::DeviceMap => match step {
            Step::BuildDeviceMap | Step::AssignSelf | Step::CheckCreated => seq![Step::RestoreEnv],
            Step::AssignChild => seq![Step::Terminate, Step::CloseHandles, Step::RestoreEnv],
            _ => Seq::empty(),
        },
        _ => match step {
            Step::CreateProfile => Seq::empty(),
            Step::CheckCreated => (if kind == SpawnKind::Sandboxed && code == 0 {
                Seq::empty()
            } else {
                loopback
            }) + seq![Step::DropProfile] + when(on_desktop(kind), Step::DropDesktop),
            Step::AssignJob => seq![Step::Terminate, Step::CloseHandles] + loopback + seq![
                Step::DropProfile,
            ],
            Step::ProfileSid => when(on_desktop(kind) && !planned(kind), Step::DropDesktop) + seq![
                Step::DropProfile,
            ],
            _ => seq![Step::DropProfile],
        },
    }
}

/// What follows where a step fails.
pub open spec fn after_failure(kind: SpawnKind, step: Step, code: u32) -> After {
    if kind == SpawnKind::Sandboxed && step == Step::CheckCreated && code != 0 {
        After::TryInstead(SpawnKind::Restricted)
    } else if kind == SpawnKind::Silo && step == Step::CreateSilo {
        After::TryInstead(SpawnKind::InteractivePlan)
    } else {
        After::Error
    }
}

/// What is done in all where the step `k` fails.
pub open spec fn failed_run(
    kind: SpawnKind,
    network: NetworkAccess,
    k: int,
    code: u32,
) -> Seq<Step> {
    script(kind, network).take(k + 1) + cleanup(kind, network, script(kind, network)[k], code)
}

proof fn lemma_script_env(kind: SpawnKind, network: NetworkAccess)
    requires
        in_appcontainer(kind),
    ensures
        ({
            let s = script(kind, network);
            let p = preparation(kind, network).len() as int;
            &&& s.len() == p + 5 + conclusion(kind, network).len()
            &&& forall|i: int| 0 <= i < p ==> s[i] != Step::ApplyEnv
            &&& s[p] == Step::ApplyEnv
            &&& s[p + 1] == Step::CreateProcess
            &&& s[p + 2] == Step::DeleteAttributes
            &&& s[p + 3] == Step::RestoreEnv
            &&& s[p + 4] == Step::CheckCreated
        }),
{
    let s = script(kind, network);
    let pre = preparation(kind, network);
    let p = pre.len() as int;
    assert forall|i: int| 0 <= i < p implies s[i] != Step::ApplyEnv by {
        assert(s[i] == pre[i]);
    }
    assert forall|j: int| 0 <= j < 5 implies #[trigger] s[p + j] == creation()[j] by {}
    assert(s[p + 0] == creation()[0]);
    assert(s[p + 1] == creation()[1]);
    assert(s[p + 2] == creation()[2]);
    assert(s[p + 3] == creation()[3]);
    assert(s[p + 4] == creation()[4]);
}

/// Wherever the caller's environment was changed it is put back: on every run
/// that ends well, and on every one that fails.
pub proof fn law_environment_is_restored(
    kind: SpawnKind,
    network: NetworkAccess,
    k: int,
    code: u32,
)
    requires
        0 <= k < script(kind, network).len(),
        can_fail(script(kind, network)[k]),
    ensures
        script(kind, network).contains(Step::ApplyEnv) ==> script(kind, network).contains(
            Step::RestoreEnv,
        ),
        failed_run(kind, network, k, code).contains(Step::ApplyEnv) ==> failed_run(
            kind,
            network,
            k,
            code,
        ).contains(Step::RestoreEnv),
{
    match kind {
        SpawnKind::Restricted => lemma_restored_restricted(network, k, code),
        SpawnKind::Silo => lemma_restored_silo(network, k, code),
        SpawnKind::DeviceMap => lemma_restored_device_map(network, k, code),
        _ => lemma_restored_appcontainer(kind, network, k, code),
    }
}

/// Where the environment was changed it was put back.
spec fn puts_back(run: Seq<Step>) -> bool {
    run.contains(Step::ApplyEnv) ==> run.contains(Step::RestoreEnv)
}

proof fn lemma_restored_restricted(network: NetworkAccess, k: int, code: u32)
    requires
        0 <= k < script(SpawnKind::Restricted, network).len(),
    ensures
        puts_back(script(SpawnKind::Restricted, network)),
        puts_back(failed_run(SpawnKind::Restricted, network, k, code)),
{
    let s = script(SpawnKind::Restricted, network);
    let r = failed_run(SpawnKind::Restricted, network, k, code);
    assert forall|i: int| 0 <= i < s.len() implies s[i] != Step::ApplyEnv by {}
    assert forall|i: int| 0 <= i < r.len() implies r[i] != Step::ApplyEnv by {
        if i <= k {
            assert(r[i] == s[i]);
        }
    }
}

proof fn lemma_restored_silo(network: NetworkAccess, k: int, code: u32)
    requires
        0 <= k < script(SpawnKind::Silo, network).len(),
        can_fail(script(SpawnKind::Silo, network)[k]),
    ensures
        puts_back(script(SpawnKind::Silo, network)),
        puts_back(failed_run(SpawnKind::Silo, network, k, code)),
{
    let s = script(SpawnKind::Silo, network);
    let r = failed_run(SpawnKind::Silo, network, k, code);
    assert(s[5] == Step::RestoreEnv);
    if k > 0 {
        assert(k == 2 || k == 3 || k == 4);
        assert(r[k + 1] == Step::RestoreEnv);
    } else {
        assert(r.len() == 1 && r[0] == Step::ApplyPlan);
    }
}

proof fn lemma_restored_device_map(network: NetworkAccess, k: int, code: u32)
    requires
        0 <= k < script(SpawnKind::DeviceMap, network).len(),
        can_fail(script(SpawnKind::DeviceMap, network)[k]),
    ensures
        puts_back(script(SpawnKind::DeviceMap, network)),
        puts_back(failed_run(SpawnKind::DeviceMap, network, k, code)),
{
    let s = script(SpawnKind::DeviceMap, network);
    let r = failed_run(SpawnKind::DeviceMap, network, k, code);
    assert(s[10] == Step::RestoreEnv);
    if k == 8 {
        assert(r[k + 3] == Step::RestoreEnv);
    } else if k >= 2 {
        assert(k == 4 || k == 5 || k == 7);
        assert(r[k + 1] == Step::RestoreEnv);
    } else {
        assert(r.len() == k + 1);
        assert forall|i: int| 0 <= i < r.len() implies r[i] != Step::ApplyEnv by {
            assert(r[i] == s[i]);
        }
    }
}

proof fn lemma_restored_appcontainer(
    kind: SpawnKind,
    network: NetworkAccess,
    k: int,
    code: u32,
)
    requires
        in_appcontainer(kind),
        0 <= k < script(kind, network).len(),
        can_fail(script(kind, network)[k]),
    ensures
        puts_back(script(kind, network)),
        puts_back(failed_run(kind, network, k, code)),
{
    let s = script(kind, network);
    let c = cleanup(kind, network, s[k], code);
    let r = failed_run(kind, network, k, code);
    let p = preparation(kind, network).len() as int;
    lemma_script_env(kind, network);
    lemma_cleanup_env(kind, network, s[k], code);
    assert(s[p + 3] == Step::RestoreEnv);
    if r.contains(Step::ApplyEnv) {
        let i = choose|i: int| 0 <= i < r.len() && r[i] == Step::ApplyEnv;
        if i > k {
            assert(r[i] == c[i - k - 1]);
        } else {
            assert(r[i] == s[i]);
            assert(i >= p);
            assert(k >= p + 3);
            assert(r[p + 3] == s[p + 3]);
        }
    }
}

proof fn lemma_cleanup_env(
    kind: SpawnKind,
    network: NetworkAccess,
    step: Step,
    code: u32,
)
    requires
        in_appcontainer(kind),
    ensures
        forall|i: int|
            0 <= i < cleanup(kind, network, step, code).len() ==> cleanup(
                kind,
                network,
                step,
                code,
            )[i] != Step::ApplyEnv,
{
}

/// A caller that waits for its process leaves no loopback exemption behind, and
/// one is made only for full network access.
pub proof fn law_loopback_is_removed(kind: SpawnKind, network: NetworkAccess)
    requires
        in_appcontainer(kind),
    ensures
        script(kind, network).contains(Step::AddLoopback) <==> network == NetworkAccess::Full,
        kind != SpawnKind::Sandboxed && kind != SpawnKind::GuiAsync ==> (script(
            kind,
            network,
        ).contains(Step::RemoveLoopback) <==> network == NetworkAccess::Full),
{
    let s = script(kind, network);
    let pre = preparation(kind, network);
    let con = conclusion(kind, network);
    let p = pre.len() as int;
    assert forall|i: int| 0 <= i < s.len() implies s[i] == (if i < p {
        pre[i]
    } else if i < p + 5 {
        creation()[i - p]
    } else {
        con[i - p - 5]
    }) by {}
    if network == NetworkAccess::Full {
        let a: int = (3 + when(kind == SpawnKind::Interactive, Step::GrantVolumes).len() + 2 * when(
            planned(kind),
            Step::ApplyPlan,
        ).len()) as int;
        assert(pre[a] == Step::AddLoopback);
        assert(s[a] == Step::AddLoopback);
        if kind != SpawnKind::Sandboxed && kind != SpawnKind::GuiAsync {
            let b: int = (3 + when(kind == SpawnKind::GuiIsolated, Step::ProfileSid).len()) as int;
            assert(con[b] == Step::RemoveLoopback);
            assert(s[p + 5 + b] == Step::RemoveLoopback);
        }
    } else {
        assert forall|i: int| 0 <= i < s.len() implies s[i] != Step::AddLoopback && s[i]
            != Step::RemoveLoopback by {
            if i < p {
                assert(s[i] == pre[i]);
            } else if i < p + 5 {
                assert(s[i] == creation()[i - p]);
            } else {
                assert(s[i] == con[i - p - 5]);
            }
        }
    }
}

/// Where starting a process in an AppContainer fails after its profile was
/// made, the profile is released.
pub proof fn law_profile_is_released(
    kind: SpawnKind,
    network: NetworkAccess,
    k: int,
    code: u32,
)
    requires
        in_appcontainer(kind),
        0 < k < script(kind, network).len(),
        can_fail(script(kind, network)[k]),
    ensures
        failed_run(kind, network, k, code).contains(Step::DropProfile),
{
    let s = script(kind, network);
    let r = failed_run(kind, network, k, code);
    let c = cleanup(kind, network, s[k], code);
    assert forall|i: int| 0 <= i < c.len() implies #[trigger] r[k + 1 + i] == c[i] by {}
    let pre = preparation(kind, network);
    let con = conclusion(kind, network);
    let p = pre.len() as int;
    assert(s[k] == (if k < p {
        pre[k]
    } else if k < p + 5 {
        creation()[k - p]
    } else {
        con[k - p - 5]
    }));
    assert(s[k] != Step::CreateProfile);
    let full: int = when(network == NetworkAccess::Full, Step::RemoveLoopback).len() as int;
    let at: int = match s[k] {
        Step::CheckCreated => if kind == SpawnKind::Sandboxed && code == 0 {
            0
        } else {
            full
        },
        Step::AssignJob => 2 + full,
        Step::ProfileSid => when(on_desktop(kind) && !planned(kind), Step::DropDesktop).len() as int,
        _ => 0,
    };
    assert(c[at] == Step::DropProfile);
    assert(r[k + 1 + at] == Step::DropProfile);
}

/// Where a step stands among those of a script.
spec fn rank(kind: SpawnKind, step: Step) -> int {
    match step {
        Step::CreateProfile => 0,
        Step::ProfileSid => if planned(kind) {
            1
        } else {
            24
        },
        Step::RestrictedToken => 2,
        Step::GrantRoot => 3,
        Step::GrantVolumes => 4,
        Step::ApplyPlan => 5,
        Step::MirrorShell => 6,
        Step::Capabilities => 7,
        Step::AddLoopback => 8,
        Step::AttributeList => 9,
        Step::CreateDesktop => 10,
        Step::ApplyEnv => 11,
        Step::CreateSilo => 12,
        Step::SpawnInSilo => 13,
        Step::OpenInit => 14,
        Step::MakeBinds => 15,
        Step::BuildDeviceMap => 16,
        Step::AssignSelf => 17,
        Step::CreateProcess => 18,
        Step::CloseToken => 19,
        Step::DeleteAttributes => 20,
        Step::RestoreEnv => if kind == SpawnKind::DeviceMap {
            28
        } else {
            21
        },
        Step::CheckCreated => 23,
        Step::AssignJob => 25,
        Step::AssignChild => 26,
        Step::Resume => 27,
        Step::Wait => 29,
        Step::ExitCode => 30,
        Step::CloseHandles => 31,
        Step::CloseThread => 32,
        Step::RemoveLoopback => 33,
        Step::DropProfile => 34,
        Step::KeepProfile => 35,
        Step::DropDesktop => 36,
        Step::DropSilo => 37,
        Step::Terminate => 38,
    }
}

spec fn ranked(kind: SpawnKind, s: Seq<Step>) -> bool {
    forall|i: int, j: int|
        0 <= i < j < s.len() ==> rank(kind, #[trigger] s[i]) < rank(kind, #[trigger] s[j])
}

/// Ranked, with ranks from `lo` on and below `hi`.
spec fn within(kind: SpawnKind, s: Seq<Step>, lo: int, hi: int) -> bool {
    &&& ranked(kind, s)
    &&& forall|i: int| 0 <= i < s.len() ==> lo <= rank(kind, #[trigger] s[i]) < hi
}

proof fn lemma_within_concat(kind: SpawnKind, a: Seq<Step>, b: Seq<Step>, lo: int, m: int, hi: int)
    requires
        within(kind, a, lo, m),
        within(kind, b, m, hi),
        lo <= m <= hi,
    ensures
        within(kind, a + b, lo, hi),
{
    let s = a + b;
    assert forall|i: int| 0 <= i < s.len() implies lo <= rank(kind, #[trigger] s[i]) < hi by {
        if i < a.len() {
            assert(s[i] == a[i]);
        } else {
            assert(s[i] == b[i - a.len()]);
        }
    }
    assert forall|i: int, j: int| 0 <= i < j < s.len() implies rank(kind, #[trigger] s[i]) < rank(
        kind,
        #[trigger] s[j],
    ) by {
        if j < a.len() {
            assert(s[i] == a[i] && s[j] == a[j]);
        } else if i < a.len() {
            assert(s[i] == a[i] && s[j] == b[j - a.len()]);
        } else {
            assert(s[i] == b[i - a.len()] && s[j] == b[j - a.len()]);
        }
    }
}

proof fn lemma_ranked_parts(kind: SpawnKind, network: NetworkAccess)
    requires
        in_appcontainer(kind),
    ensures
        within(kind, preparation(kind, network), 0, 11),
        within(kind, conclusion(kind, network), 24, 37),
{
    let full = network == NetworkAccess::Full;
    let a1 = seq![Step::CreateProfile];
    let a2 = a1 + when(planned(kind), Step::ProfileSid);
    let a3 = a2 + seq![Step::GrantRoot];
    let a4 = a3 + when(kind == SpawnKind::Interactive, Step::GrantVolumes);
    let a5 = a4 + when(planned(kind), Step::ApplyPlan);
    let a6 = a5 + seq![Step::Capabilities];
    let a7 = a6 + when(full, Step::AddLoopback);
    let a8 = a7 + seq![Step::AttributeList];
    lemma_within_concat(kind, a1, when(planned(kind), Step::ProfileSid), 0, 1, 2);
    lemma_within_concat(kind, a2, seq![Step::GrantRoot], 0, 2, 4);
    lemma_within_concat(
        kind,
        a3,
        when(kind == SpawnKind::Interactive, Step::GrantVolumes),
        0,
        4,
        5,
    );
    lemma_within_concat(kind, a4, when(planned(kind), Step::ApplyPlan), 0, 5, 6);
    lemma_within_concat(kind, a5, seq![Step::Capabilities], 0, 6, 8);
    lemma_within_concat(kind, a6, when(full, Step::AddLoopback), 0, 8, 9);
    lemma_within_concat(kind, a7, seq![Step::AttributeList], 0, 9, 10);
    lemma_within_concat(kind, a8, when(on_desktop(kind), Step::CreateDesktop), 0, 10, 11);
    if kind != SpawnKind::Sandboxed && kind != SpawnKind::GuiAsync {
        let c0 = when(kind == SpawnKind::GuiIsolated, Step::ProfileSid);
        let w = seq![Step::Wait, Step::ExitCode, Step::CloseHandles];
        let c1 = c0 + w;
        let c2 = c1 + when(full, Step::RemoveLoopback);
        let c3 = c2 + seq![Step::DropProfile];
        lemma_within_concat(kind, c0, w, 24, 25, 33);
        lemma_within_concat(kind, c1, when(full, Step::RemoveLoopback), 24, 33, 34);
        lemma_within_concat(kind, c2, seq![Step::DropProfile], 24, 34, 35);
        lemma_within_concat(kind, c3, when(on_desktop(kind), Step::DropDesktop), 24, 35, 37);
    }
}

proof fn lemma_ranked(kind: SpawnKind, network: NetworkAccess)
    ensures
        ranked(kind, script(kind, network)),
{
    if in_appcontainer(kind) {
        lemma_ranked_parts(kind, network);
        let a = preparation(kind, network);
        assert(within(kind, creation(), 11, 24));
        lemma_within_concat(kind, a, creation(), 0, 11, 24);
        lemma_within_concat(kind, a + creation(), conclusion(kind, network), 0, 24, 37);
    }
}

/// Every `a` stands before every `b`.
pub open spec fn precedes(s: Seq<Step>, a: Step, b: Step) -> bool {
    forall|i: int, j: int|
        0 <= i < s.len() && 0 <= j < s.len() && #[trigger] s[i] == a && #[trigger] s[j] == b ==> i
            < j
}

/// A step is taken at most once.
pub open spec fn at_most_once(s: Seq<Step>) -> bool {
    forall|i: int, j: int| 0 <= i < j < s.len() ==> #[trigger] s[i] != #[trigger] s[j]
}

proof fn lemma_precedes(kind: SpawnKind, network: NetworkAccess, a: Step, b: Step)
    requires
        rank(kind, a) < rank(kind, b),
    ensures
        precedes(script(kind, network), a, b),
{
    lemma_ranked(kind, network);
}

proof fn lemma_has(a: Seq<Step>, b: Seq<Step>, x: Step)
    ensures
        (a + b).contains(x) <==> a.contains(x) || b.contains(x),
{
    let s = a + b;
    if a.contains(x) {
        let i = choose|i: int| 0 <= i < a.len() && a[i] == x;
        assert(s[i] == x);
    }
    if b.contains(x) {
        let i = choose|i: int| 0 <= i < b.len() && b[i] == x;
        assert(s[a.len() + i] == x);
    }
}

proof fn lemma_has_one(b: bool, y: Step, x: Step)
    ensures
        (b && x == y) <==> when(b, y).contains(x),
        seq![y].contains(x) <==> x == y,
{
    assert(seq![y][0] == y);
}

proof fn lemma_preparation_steps(kind: SpawnKind, network: NetworkAccess, x: Step)
    ensures
        preparation(kind, network).contains(x) <==> (x == Step::CreateProfile || x
            == Step::GrantRoot || x == Step::Capabilities || x == Step::AttributeList || (planned(
            kind,
        ) && (x == Step::ProfileSid || x == Step::ApplyPlan)) || (kind == SpawnKind::Interactive
            && x == Step::GrantVolumes) || (network == NetworkAccess::Full && x
            == Step::AddLoopback) || (on_desktop(kind) && x == Step::CreateDesktop)),
{
    let full = network == NetworkAccess::Full;
    let a1 = seq![Step::CreateProfile];
    let a2 = a1 + when(planned(kind), Step::ProfileSid);
    let a3 = a2 + seq![Step::GrantRoot];
    let a4 = a3 + when(kind == SpawnKind::Interactive, Step::GrantVolumes);
    let a5 = a4 + when(planned(kind), Step::ApplyPlan);
    let a6 = a5 + seq![Step::Capabilities];
    let a7 = a6 + when(full, Step::AddLoopback);
    let a8 = a7 + seq![Step::AttributeList];
    lemma_has_one(planned(kind), Step::ProfileSid, x);
    lemma_has_one(true, Step::CreateProfile, x);
    lemma_has_one(true, Step::GrantRoot, x);
    lemma_has_one(kind == SpawnKind::Interactive, Step::GrantVolumes, x);
    lemma_has_one(planned(kind), Step::ApplyPlan, x);
    lemma_has_one(true, Step::Capabilities, x);
    lemma_has_one(full, Step::AddLoopback, x);
    lemma_has_one(true, Step::AttributeList, x);
    lemma_has_one(on_desktop(kind), Step::CreateDesktop, x);
    lemma_has(a1, when(planned(kind), Step::ProfileSid), x);
    lemma_has(a2, seq![Step::GrantRoot], x);
    lemma_has(a3, when(kind == SpawnKind::Interactive, Step::GrantVolumes), x);
    lemma_has(a4, when(planned(kind), Step::ApplyPlan), x);
    lemma_has(a5, seq![Step::Capabilities], x);
    lemma_has(a6, when(full, Step::AddLoopback), x);
    lemma_has(a7, seq![Step::AttributeList], x);
    lemma_has(a8, when(on_desktop(kind), Step::CreateDesktop), x);
}

proof fn lemma_conclusion_steps(kind: SpawnKind, network: NetworkAccess, x: Step)
    ensures
        conclusion(kind, network).contains(x) <==> (if kind == SpawnKind::Sandboxed {
            x == Step::AssignJob || x == Step::Resume || x == Step::CloseHandles || x
                == Step::KeepProfile
        } else if kind == SpawnKind::GuiAsync {
            x == Step::ProfileSid || x == Step::CloseThread || x == Step::KeepProfile
        } else {
            x == Step::Wait || x == Step::ExitCode || x == Step::CloseHandles || x
                == Step::DropProfile || (kind == SpawnKind::GuiIsolated && x == Step::ProfileSid)
                || (network == NetworkAccess::Full && x == Step::RemoveLoopback) || (on_desktop(
                kind,
            ) && x == Step::DropDesktop)
        }),
{
    let full = network == NetworkAccess::Full;
    let c = conclusion(kind, network);
    if kind == SpawnKind::Sandboxed {
        assert(c[0] == Step::AssignJob && c[1] == Step::Resume);
        assert(c[2] == Step::CloseHandles && c[3] == Step::KeepProfile);
    } else if kind == SpawnKind::GuiAsync {
        assert(c[0] == Step::ProfileSid && c[1] == Step::CloseThread && c[2] == Step::KeepProfile);
    } else {
        let c0 = when(kind == SpawnKind::GuiIsolated, Step::ProfileSid);
        let w = seq![Step::Wait, Step::ExitCode, Step::CloseHandles];
        let c1 = c0 + w;
        let c2 = c1 + when(full, Step::RemoveLoopback);
        let c3 = c2 + seq![Step::DropProfile];
        assert(w[0] == Step::Wait && w[1] == Step::ExitCode && w[2] == Step::CloseHandles);
        lemma_has_one(kind == SpawnKind::GuiIsolated, Step::ProfileSid, x);
        lemma_has_one(full, Step::RemoveLoopback, x);
        lemma_has_one(true, Step::DropProfile, x);
        lemma_has_one(on_desktop(kind), Step::DropDesktop, x);
        lemma_has(c0, w, x);
        lemma_has(c1, when(full, Step::RemoveLoopback), x);
        lemma_has(c2, seq![Step::DropProfile], x);
        lemma_has(c3, when(on_desktop(kind), Step::DropDesktop), x);
    }
}

proof fn lemma_restricted_steps(network: NetworkAccess, x: Step)
    ensures
        script(SpawnKind::Restricted, network).contains(x) <==> (x == Step::RestrictedToken || x == Step::CreateProcess || x == Step::CloseToken || x == Step::CheckCreated || x == Step::AssignJob || x == Step::Resume || x == Step::CloseHandles),
{
    let s = script(SpawnKind::Restricted, network);
    assert(s[0] == Step::RestrictedToken);
    assert(s[1] == Step::CreateProcess);
    assert(s[2] == Step::CloseToken);
    assert(s[3] == Step::CheckCreated);
    assert(s[4] == Step::AssignJob);
    assert(s[5] == Step::Resume);
    assert(s[6] == Step::CloseHandles);
}

proof fn lemma_silo_steps(network: NetworkAccess, x: Step)
    ensures
        script(SpawnKind::Silo, network).contains(x) <==> (x == Step::ApplyPlan || x == Step::ApplyEnv || x == Step::CreateSilo || x == Step::SpawnInSilo || x == Step::OpenInit || x == Step::RestoreEnv || x == Step::Wait || x == Step::ExitCode || x == Step::CloseHandles || x == Step::DropSilo),
{
    let s = script(SpawnKind::Silo, network);
    assert(s[0] == Step::ApplyPlan);
    assert(s[1] == Step::ApplyEnv);
    assert(s[2] == Step::CreateSilo);
    assert(s[3] == Step::SpawnInSilo);
    assert(s[4] == Step::OpenInit);
    assert(s[5] == Step::RestoreEnv);
    assert(s[6] == Step::Wait);
    assert(s[7] == Step::ExitCode);
    assert(s[8] == Step::CloseHandles);
    assert(s[9] == Step::DropSilo);
}

proof fn lemma_device_map_steps(network: NetworkAccess, x: Step)
    ensures
        script(SpawnKind::DeviceMap, network).contains(x) <==> (x == Step::ApplyPlan || x == Step::MirrorShell || x == Step::ApplyEnv || x == Step::MakeBinds || x == Step::BuildDeviceMap || x == Step::AssignSelf || x == Step::CreateProcess || x == Step::CheckCreated || x == Step::AssignChild || x == Step::Resume || x == Step::RestoreEnv || x == Step::Wait || x == Step::ExitCode || x == Step::CloseHandles),
{
    let s = script(SpawnKind::DeviceMap, network);
    assert(s[0] == Step::ApplyPlan);
    assert(s[1] == Step::MirrorShell);
    assert(s[2] == Step::ApplyEnv);
    assert(s[3] == Step::MakeBinds);
    assert(s[4] == Step::BuildDeviceMap);
    assert(s[5] == Step::AssignSelf);
    assert(s[6] == Step::CreateProcess);
    assert(s[7] == Step::CheckCreated);
    assert(s[8] == Step::AssignChild);
    assert(s[9] == Step::Resume);
    assert(s[10] == Step::RestoreEnv);
    assert(s[11] == Step::Wait);
    assert(s[12] == Step::ExitCode);
    assert(s[13] == Step::CloseHandles);
}

proof fn lemma_steps(kind: SpawnKind, network: NetworkAccess, x: Step)
    requires
        in_appcontainer(kind),
    ensures
        script(kind, network).contains(x) <==> preparation(kind, network).contains(x) || x
            == Step::ApplyEnv || x == Step::CreateProcess || x == Step::DeleteAttributes || x
            == Step::RestoreEnv || x == Step::CheckCreated || conclusion(kind, network).contains(x),
{
    let a = preparation(kind, network);
    let b = creation();
    lemma_has(a, b, x);
    lemma_has(a + b, conclusion(kind, network), x);
    assert(b[0] == Step::ApplyEnv && b[1] == Step::CreateProcess && b[2] == Step::DeleteAttributes);
    assert(b[3] == Step::RestoreEnv && b[4] == Step::CheckCreated);
}

/// Which steps are taken. Every way of starting creates one process, in a
/// profile, with a token, in a silo or behind a device map of its own; a staged
/// program is put in place first; a program with windows has a desktop; and a
/// loopback exemption is made for full network access alone.
pub proof fn law_steps_taken(kind: SpawnKind, network: NetworkAccess)
    ensures
        ({
            let s = script(kind, network);
            let full = network == NetworkAccess::Full;
            let windows = kind == SpawnKind::GuiIsolated || kind == SpawnKind::GuiAsync || kind
                == SpawnKind::GuiPlan;
            let staged = kind == SpawnKind::GuiPlan || kind == SpawnKind::InteractivePlan || kind
                == SpawnKind::Silo || kind == SpawnKind::DeviceMap;
            let bare = kind == SpawnKind::Restricted || kind == SpawnKind::Silo || kind
                == SpawnKind::DeviceMap;
            let background = kind == SpawnKind::Sandboxed || kind == SpawnKind::Restricted || kind
                == SpawnKind::GuiAsync;
            &&& s.contains(Step::CreateProfile) <==> !bare
            &&& s.contains(Step::GrantRoot) <==> !bare
            &&& s.contains(Step::Capabilities) <==> !bare
            &&& s.contains(Step::AttributeList) <==> !bare
            &&& s.contains(Step::DeleteAttributes) <==> !bare
            &&& s.contains(Step::GrantVolumes) <==> kind == SpawnKind::Interactive
            &&& s.contains(Step::ApplyPlan) <==> staged
            &&& s.contains(Step::AddLoopback) <==> !bare && full
            &&& s.contains(Step::RemoveLoopback) <==> !bare && !background && full
            &&& s.contains(Step::CreateDesktop) <==> windows
            &&& s.contains(Step::DropDesktop) <==> windows && !background
            &&& s.contains(Step::ApplyEnv) <==> kind != SpawnKind::Restricted
            &&& s.contains(Step::RestoreEnv) <==> kind != SpawnKind::Restricted
            &&& s.contains(Step::CreateProcess) <==> kind != SpawnKind::Silo
            &&& s.contains(Step::CheckCreated) <==> kind != SpawnKind::Silo
            &&& s.contains(Step::CreateSilo) <==> kind == SpawnKind::Silo
            &&& s.contains(Step::SpawnInSilo) <==> kind == SpawnKind::Silo
            &&& s.contains(Step::OpenInit) <==> kind == SpawnKind::Silo
            &&& s.contains(Step::DropSilo) <==> kind == SpawnKind::Silo
            &&& s.contains(Step::RestrictedToken) <==> kind == SpawnKind::Restricted
            &&& s.contains(Step::CloseToken) <==> kind == SpawnKind::Restricted
            &&& s.contains(Step::MirrorShell) <==> kind == SpawnKind::DeviceMap
            &&& s.contains(Step::MakeBinds) <==> kind == SpawnKind::DeviceMap
            &&& s.contains(Step::BuildDeviceMap) <==> kind == SpawnKind::DeviceMap
            &&& s.contains(Step::AssignSelf) <==> kind == SpawnKind::DeviceMap
            &&& s.contains(Step::AssignChild) <==> kind == SpawnKind::DeviceMap
            &&& s.contains(Step::AssignJob) <==> kind == SpawnKind::Sandboxed || kind
                == SpawnKind::Restricted
            &&& s.contains(Step::Wait) <==> !background
            &&& s.contains(Step::ExitCode) <==> !background
            &&& s.contains(Step::CloseHandles) <==> kind != SpawnKind::GuiAsync
            &&& s.contains(Step::CloseThread) <==> kind == SpawnKind::GuiAsync
            &&& s.contains(Step::DropProfile) <==> !bare && !background
            &&& s.contains(Step::KeepProfile) <==> !bare && background
            &&& s.contains(Step::ProfileSid) <==> windows || kind == SpawnKind::InteractivePlan
            &&& !s.contains(Step::Terminate)
        }),
{
    lemma_steps_by_step(kind, network);
}

proof fn lemma_steps_by_step(kind: SpawnKind, network: NetworkAccess)
    ensures
        forall|x: Step| #[trigger]
            script(kind, network).contains(x) <==> match kind {
                SpawnKind::Restricted => x == Step::RestrictedToken || x == Step::CreateProcess || x == Step::CloseToken || x == Step::CheckCreated || x == Step::AssignJob || x == Step::Resume || x == Step::CloseHandles,
                SpawnKind::Silo => x == Step::ApplyPlan || x == Step::ApplyEnv || x == Step::CreateSilo || x == Step::SpawnInSilo || x == Step::OpenInit || x == Step::RestoreEnv || x == Step::Wait || x == Step::ExitCode || x == Step::CloseHandles || x == Step::DropSilo,
                SpawnKind::DeviceMap => x == Step::ApplyPlan || x == Step::MirrorShell || x == Step::ApplyEnv || x == Step::MakeBinds || x == Step::BuildDeviceMap || x == Step::AssignSelf || x == Step::CreateProcess || x == Step::CheckCreated || x == Step::AssignChild || x == Step::Resume || x == Step::RestoreEnv || x == Step::Wait || x == Step::ExitCode || x == Step::CloseHandles,
                _ => preparation(kind, network).contains(x) || x == Step::ApplyEnv || x
                    == Step::CreateProcess || x == Step::DeleteAttributes || x == Step::RestoreEnv
                    || x == Step::CheckCreated || conclusion(kind, network).contains(x),
            },
        forall|x: Step| #[trigger]
            preparation(kind, network).contains(x) <==> (x == Step::CreateProfile || x
                == Step::GrantRoot || x == Step::Capabilities || x == Step::AttributeList || (
            planned(kind) && (x == Step::ProfileSid || x == Step::ApplyPlan)) || (kind
                == SpawnKind::Interactive && x == Step::GrantVolumes) || (network
                == NetworkAccess::Full && x == Step::AddLoopback) || (on_desktop(kind) && x
                == Step::CreateDesktop)),
        forall|x: Step| #[trigger]
            conclusion(kind, network).contains(x) <==> (if kind == SpawnKind::Sandboxed {
                x == Step::AssignJob || x == Step::Resume || x == Step::CloseHandles || x
                    == Step::KeepProfile
            } else if kind == SpawnKind::GuiAsync {
                x == Step::ProfileSid || x == Step::CloseThread || x == Step::KeepProfile
            } else {
                x == Step::Wait || x == Step::ExitCode || x == Step::CloseHandles || x
                    == Step::DropProfile || (kind == SpawnKind::GuiIsolated && x
                    == Step::ProfileSid) || (network == NetworkAccess::Full && x
                    == Step::RemoveLoopback) || (on_desktop(kind) && x == Step::DropDesktop)
            }),
{
    assert forall|x: Step| #[trigger]
        preparation(kind, network).contains(x) <==> (x == Step::CreateProfile || x
            == Step::GrantRoot || x == Step::Capabilities || x == Step::AttributeList || (planned(
            kind,
        ) && (x == Step::ProfileSid || x == Step::ApplyPlan)) || (kind == SpawnKind::Interactive
            && x == Step::GrantVolumes) || (network == NetworkAccess::Full && x
            == Step::AddLoopback) || (on_desktop(kind) && x == Step::CreateDesktop)) by {
        lemma_preparation_steps(kind, network, x);
    }
    assert forall|x: Step| #[trigger]
        conclusion(kind, network).contains(x) <==> (if kind == SpawnKind::Sandboxed {
            x == Step::AssignJob || x == Step::Resume || x == Step::CloseHandles || x
                == Step::KeepProfile
        } else if kind == SpawnKind::GuiAsync {
            x == Step::ProfileSid || x == Step::CloseThread || x == Step::KeepProfile
        } else {
            x == Step::Wait || x == Step::ExitCode || x == Step::CloseHandles || x
                == Step::DropProfile || (kind == SpawnKind::GuiIsolated && x == Step::ProfileSid)
                || (network == NetworkAccess::Full && x == Step::RemoveLoopback) || (on_desktop(
                kind,
            ) && x == Step::DropDesktop)
        }) by {
        lemma_conclusion_steps(kind, network, x);
    }
    assert forall|x: Step| #[trigger]
        script(kind, network).contains(x) <==> match kind {
            SpawnKind::Restricted => x == Step::RestrictedToken || x == Step::CreateProcess || x == Step::CloseToken || x == Step::CheckCreated || x == Step::AssignJob || x == Step::Resume || x == Step::CloseHandles,
            SpawnKind::Silo => x == Step::ApplyPlan || x == Step::ApplyEnv || x == Step::CreateSilo || x == Step::SpawnInSilo || x == Step::OpenInit || x == Step::RestoreEnv || x == Step::Wait || x == Step::ExitCode || x == Step::CloseHandles || x == Step::DropSilo,
            SpawnKind::DeviceMap => x == Step::ApplyPlan || x == Step::MirrorShell || x == Step::ApplyEnv || x == Step::MakeBinds || x == Step::BuildDeviceMap || x == Step::AssignSelf || x == Step::CreateProcess || x == Step::CheckCreated || x == Step::AssignChild || x == Step::Resume || x == Step::RestoreEnv || x == Step::Wait || x == Step::ExitCode || x == Step::CloseHandles,
            _ => preparation(kind, network).contains(x) || x == Step::ApplyEnv || x
                == Step::CreateProcess || x == Step::DeleteAttributes || x == Step::RestoreEnv || x
                == Step::CheckCreated || conclusion(kind, network).contains(x),
        } by {
        match kind {
            SpawnKind::Restricted => lemma_restricted_steps(network, x),
            SpawnKind::Silo => lemma_silo_steps(network, x),
            SpawnKind::DeviceMap => lemma_device_map_steps(network, x),
            _ => lemma_steps(kind, network, x),
        }
    }
}

/// The order of the steps, whatever the way and the network: each is taken at
/// most once; the environment is the sandbox's when the process is created and
/// the caller's again before it is waited for; grants, the plan, the network and
/// the desktop come before the process; its exit code is read once it has ended
/// and before its handles are closed; and what belongs to it goes last.
pub proof fn law_steps_in_order(kind: SpawnKind, network: NetworkAccess)
    ensures
        ({
            let s = script(kind, network);
            &&& at_most_once(s)
            &&& precedes(s, Step::CreateProfile, Step::GrantRoot)
            &&& precedes(s, Step::CreateProfile, Step::ProfileSid)
            &&& planned(kind) ==> precedes(s, Step::ProfileSid, Step::GrantRoot)
            &&& !planned(kind) ==> precedes(s, Step::CheckCreated, Step::ProfileSid)
            &&& precedes(s, Step::GrantRoot, Step::GrantVolumes)
            &&& precedes(s, Step::GrantRoot, Step::ApplyPlan)
            &&& precedes(s, Step::GrantVolumes, Step::Capabilities)
            &&& precedes(s, Step::ApplyPlan, Step::Capabilities)
            &&& precedes(s, Step::ApplyPlan, Step::MirrorShell)
            &&& precedes(s, Step::MirrorShell, Step::ApplyEnv)
            &&& precedes(s, Step::ApplyPlan, Step::ApplyEnv)
            &&& precedes(s, Step::Capabilities, Step::AddLoopback)
            &&& precedes(s, Step::Capabilities, Step::AttributeList)
            &&& precedes(s, Step::AddLoopback, Step::AttributeList)
            &&& precedes(s, Step::AttributeList, Step::CreateDesktop)
            &&& precedes(s, Step::AttributeList, Step::ApplyEnv)
            &&& precedes(s, Step::CreateDesktop, Step::ApplyEnv)
            &&& precedes(s, Step::ApplyEnv, Step::CreateProcess)
            &&& precedes(s, Step::ApplyEnv, Step::CreateSilo)
            &&& precedes(s, Step::ApplyEnv, Step::MakeBinds)
            &&& precedes(s, Step::MakeBinds, Step::BuildDeviceMap)
            &&& precedes(s, Step::BuildDeviceMap, Step::AssignSelf)
            &&& precedes(s, Step::AssignSelf, Step::CreateProcess)
            &&& precedes(s, Step::CreateSilo, Step::SpawnInSilo)
            &&& precedes(s, Step::SpawnInSilo, Step::OpenInit)
            &&& precedes(s, Step::OpenInit, Step::RestoreEnv)
            &&& precedes(s, Step::RestrictedToken, Step::CreateProcess)
            &&& precedes(s, Step::CreateProcess, Step::CloseToken)
            &&& precedes(s, Step::CloseToken, Step::CheckCreated)
            &&& precedes(s, Step::CreateProcess, Step::DeleteAttributes)
            &&& precedes(s, Step::DeleteAttributes, Step::RestoreEnv)
            &&& precedes(s, Step::CreateProcess, Step::RestoreEnv)
            &&& precedes(s, Step::CreateProcess, Step::CheckCreated)
            &&& kind != SpawnKind::DeviceMap ==> precedes(s, Step::RestoreEnv, Step::CheckCreated)
            &&& precedes(s, Step::CheckCreated, Step::AssignJob)
            &&& precedes(s, Step::CheckCreated, Step::AssignChild)
            &&& precedes(s, Step::CheckCreated, Step::Wait)
            &&& precedes(s, Step::CheckCreated, Step::CloseThread)
            &&& precedes(s, Step::RestoreEnv, Step::Wait)
            &&& precedes(s, Step::OpenInit, Step::Wait)
            &&& precedes(s, Step::Wait, Step::ExitCode)
            &&& precedes(s, Step::ExitCode, Step::CloseHandles)
            &&& precedes(s, Step::CloseHandles, Step::RemoveLoopback)
            &&& precedes(s, Step::RemoveLoopback, Step::DropProfile)
            &&& precedes(s, Step::CloseHandles, Step::DropProfile)
            &&& precedes(s, Step::CloseHandles, Step::KeepProfile)
            &&& precedes(s, Step::CloseThread, Step::KeepProfile)
            &&& precedes(s, Step::CloseHandles, Step::DropSilo)
            &&& precedes(s, Step::DropProfile, Step::DropDesktop)
        }),
{
    lemma_ranked(kind, network);
    let s = script(kind, network);
    assert forall|i: int, j: int| 0 <= i < j < s.len() implies #[trigger] s[i] != #[trigger] s[j] by {
        assert(rank(kind, s[i]) < rank(kind, s[j]));
    }
    assert forall|a: Step, b: Step| rank(kind, a) < rank(kind, b) implies #[trigger] precedes(
        s,
        a,
        b,
    ) by {
        lemma_precedes(kind, network, a, b);
    }
}

/// A process that is created suspended, and only such a one, is resumed: after
/// it was put into its job, and before its handles are closed or it is waited
/// for. That of a silo is resumed by the silo.
pub proof fn law_suspended_process_is_resumed(kind: SpawnKind, network: NetworkAccess)
    ensures
        creation_flags(kind).0 & 0x4 != 0 <==> kind == SpawnKind::Sandboxed || kind
            == SpawnKind::Restricted || kind == SpawnKind::Silo || kind == SpawnKind::DeviceMap,
        script(kind, network).contains(Step::Resume) <==> creation_flags(kind).0 & 0x4 != 0 && kind
            != SpawnKind::Silo,
        script(kind, network).contains(Step::Resume) ==> script(kind, network).contains(
            Step::AssignJob,
        ) || script(kind, network).contains(Step::AssignChild),
        precedes(script(kind, network), Step::CreateProcess, Step::Resume),
        precedes(script(kind, network), Step::CheckCreated, Step::Resume),
        precedes(script(kind, network), Step::AssignJob, Step::Resume),
        precedes(script(kind, network), Step::AssignChild, Step::Resume),
        precedes(script(kind, network), Step::Resume, Step::CloseHandles),
        precedes(script(kind, network), Step::Resume, Step::Wait),
{
    lemma_steps_by_step(kind, network);
    lemma_precedes(kind, network, Step::CreateProcess, Step::Resume);
    lemma_precedes(kind, network, Step::CheckCreated, Step::Resume);
    lemma_precedes(kind, network, Step::AssignJob, Step::Resume);
    lemma_precedes(kind, network, Step::AssignChild, Step::Resume);
    lemma_precedes(kind, network, Step::Resume, Step::CloseHandles);
    lemma_precedes(kind, network, Step::Resume, Step::Wait);
    assert(0x80000u32 & 0x4 == 0) by (bit_vector);
    assert(0x8080004u32 & 0x4 != 0) by (bit_vector);
    assert(0x8000404u32 & 0x4 != 0) by (bit_vector);
    assert(0x404u32 & 0x4 != 0) by (bit_vector);
}

/// The flags of a process: an AppContainer needs the longer startup information,
/// a process in the background has no window, and only a shell on the caller's
/// console inherits its handles. An environment of its own is handed to those
/// that do not take the caller's.
pub proof fn law_process_flags(kind: SpawnKind)
    ensures
        ({
            let f = creation_flags(kind).0;
            &&& f & 0x80000 != 0 <==> kind != SpawnKind::Restricted && kind != SpawnKind::Silo
                && kind != SpawnKind::DeviceMap
            &&& f & 0x8000000 != 0 <==> kind == SpawnKind::Sandboxed || kind
                == SpawnKind::Restricted
            &&& f & 0x400 != 0 <==> kind == SpawnKind::Restricted || kind == SpawnKind::Silo
                || kind == SpawnKind::DeviceMap
            &&& f & !(0x80000u32 | 0x8000000 | 0x400 | 0x4) == 0
            &&& creation_flags(kind).1 <==> kind == SpawnKind::Interactive || kind
                == SpawnKind::InteractivePlan || kind == SpawnKind::Silo || kind
                == SpawnKind::DeviceMap
        }),
{
    let f = creation_flags(kind).0;
    assert(f == 0x80000 || f == 0x8080004 || f == 0x8000404 || f == 0x404);
    assert(f == 0x80000 || f == 0x8080004 || f == 0x8000404 || f == 0x404 ==> ((f & 0x80000 != 0
        <==> f == 0x80000 || f == 0x8080004) && (f & 0x8000000 != 0 <==> f == 0x8080004 || f
        == 0x8000404) && (f & 0x400 != 0 <==> f == 0x8000404 || f == 0x404) && f & !(0x80000u32
        | 0x8000000 | 0x400 | 0x4) == 0)) by (bit_vector);
}

spec fn undone(kind: SpawnKind, network: NetworkAccess, step: Step, code: u32, x: Step) -> bool {
    let full = network == NetworkAccess::Full;
    match kind {
        SpawnKind::Restricted => step == Step::AssignJob && (x == Step::Terminate || x
            == Step::CloseHandles),
        SpawnKind::Silo => match step {
            Step::CreateSilo => x == Step::RestoreEnv,
            Step::SpawnInSilo | Step::OpenInit => x == Step::RestoreEnv || x == Step::DropSilo,
            _ => false,
        },
        SpawnKind::DeviceMap => match step {
            Step::BuildDeviceMap | Step::AssignSelf | Step::CheckCreated => x == Step::RestoreEnv,
            Step::AssignChild => x == Step::Terminate || x == Step::CloseHandles || x
                == Step::RestoreEnv,
            _ => false,
        },
        _ => match step {
            Step::CreateProfile => false,
            Step::CheckCreated => x == Step::DropProfile || (full && x == Step::RemoveLoopback && !(
            kind == SpawnKind::Sandboxed && code == 0)) || (on_desktop(kind) && x
                == Step::DropDesktop),
            Step::AssignJob => x == Step::Terminate || x == Step::CloseHandles || x
                == Step::DropProfile || (full && x == Step::RemoveLoopback),
            Step::ProfileSid => x == Step::DropProfile || (on_desktop(kind) && !planned(kind) && x
                == Step::DropDesktop),
            _ => x == Step::DropProfile,
        },
    }
}

proof fn lemma_undone(
    kind: SpawnKind,
    network: NetworkAccess,
    step: Step,
    code: u32,
    x: Step,
)
    ensures
        cleanup(kind, network, step, code).contains(x) <==> undone(kind, network, step, code, x),
{
    let full = network == NetworkAccess::Full;
    let loopback = when(full, Step::RemoveLoopback);
    let c = cleanup(kind, network, step, code);
    let end = seq![Step::Terminate, Step::CloseHandles];
    let drop = seq![Step::DropProfile];
    lemma_has_one(full, Step::RemoveLoopback, x);
    lemma_has_one(true, Step::DropProfile, x);
    lemma_has_one(on_desktop(kind), Step::DropDesktop, x);
    lemma_has_one(on_desktop(kind) && !planned(kind), Step::DropDesktop, x);
    assert(end[0] == Step::Terminate && end[1] == Step::CloseHandles);
    match kind {
        SpawnKind::Restricted => {},
        SpawnKind::Silo => {
            if step == Step::SpawnInSilo || step == Step::OpenInit {
                assert(c[0] == Step::RestoreEnv && c[1] == Step::DropSilo);
            } else if step == Step::CreateSilo {
                assert(c[0] == Step::RestoreEnv);
            }
        },
        SpawnKind::DeviceMap => {
            if step == Step::AssignChild {
                assert(c[0] == Step::Terminate && c[1] == Step::CloseHandles && c[2]
                    == Step::RestoreEnv);
            } else if c.len() > 0 {
                assert(c[0] == Step::RestoreEnv);
            }
        },
        _ => {
            if step == Step::CheckCreated {
                let first = if kind == SpawnKind::Sandboxed && code == 0 {
                    Seq::<Step>::empty()
                } else {
                    loopback
                };
                lemma_has(first, drop, x);
                lemma_has(first + drop, when(on_desktop(kind), Step::DropDesktop), x);
            } else if step == Step::AssignJob {
                lemma_has(end, loopback, x);
                lemma_has(end + loopback, drop, x);
            } else if step == Step::ProfileSid {
                lemma_has(when(on_desktop(kind) && !planned(kind), Step::DropDesktop), drop, x);
            }
        },
    }
}

/// What is undone where a step fails. A process that could not be put into its
/// job is ended; the profile, the loopback exemption, the desktop, the silo and
/// the environment are given back where they were taken; and nothing is undone
/// where nothing was done.
pub proof fn law_failure_undoes(kind: SpawnKind, network: NetworkAccess, step: Step, code: u32)
    ensures
        ({
            let c = cleanup(kind, network, step, code);
            let full = network == NetworkAccess::Full;
            let windows = kind == SpawnKind::GuiIsolated || kind == SpawnKind::GuiAsync || kind
                == SpawnKind::GuiPlan;
            let bare = kind == SpawnKind::Restricted || kind == SpawnKind::Silo || kind
                == SpawnKind::DeviceMap;
            &&& c.contains(Step::Terminate) <==> (step == Step::AssignJob && kind
                != SpawnKind::Silo && kind != SpawnKind::DeviceMap) || (step == Step::AssignChild
                && kind == SpawnKind::DeviceMap)
            &&& c.contains(Step::CloseHandles) <==> c.contains(Step::Terminate)
            &&& c.contains(Step::Terminate) ==> c[0] == Step::Terminate && c[1]
                == Step::CloseHandles
            &&& c.contains(Step::DropProfile) <==> !bare && step != Step::CreateProfile
            &&& c.contains(Step::RemoveLoopback) <==> !bare && full && (step == Step::AssignJob || (
            step == Step::CheckCreated && (kind != SpawnKind::Sandboxed || code != 0)))
            &&& c.contains(Step::DropDesktop) <==> windows && (step == Step::CheckCreated || (step
                == Step::ProfileSid && kind != SpawnKind::GuiPlan))
            &&& c.contains(Step::DropSilo) <==> kind == SpawnKind::Silo && (step
                == Step::SpawnInSilo || step == Step::OpenInit)
            &&& c.contains(Step::RestoreEnv) <==> (kind == SpawnKind::Silo && (step
                == Step::CreateSilo || step == Step::SpawnInSilo || step == Step::OpenInit)) || (
            kind == SpawnKind::DeviceMap && (step == Step::BuildDeviceMap || step
                == Step::AssignSelf || step == Step::CheckCreated || step == Step::AssignChild))
            &&& forall|x: Step| #[trigger]
                c.contains(x) ==> x == Step::Terminate || x == Step::CloseHandles || x
                    == Step::DropProfile || x == Step::RemoveLoopback || x == Step::DropDesktop || x
                    == Step::DropSilo || x == Step::RestoreEnv
        }),
{
    let c = cleanup(kind, network, step, code);
    assert forall|x: Step| #[trigger] c.contains(x) <==> undone(kind, network, step, code, x) by {
        lemma_undone(kind, network, step, code, x);
    }
    if c.contains(Step::Terminate) && !(kind == SpawnKind::Restricted || kind
        == SpawnKind::DeviceMap) {
        let end = seq![Step::Terminate, Step::CloseHandles];
        assert(c[0] == end[0] && c[1] == end[1]);
    }
}

/// A process in the background that the AppContainer refuses to create is tried
/// with a restricted token, a silo that cannot be made is replaced by an
/// AppContainer, and every other failure ends with an error.
pub proof fn law_failure_falls_back(kind: SpawnKind, step: Step, code: u32)
    ensures
        after_failure(kind, step, code) == After::TryInstead(SpawnKind::Restricted) <==> kind
            == SpawnKind::Sandboxed && step == Step::CheckCreated && code != 0,
        after_failure(kind, step, code) == After::TryInstead(SpawnKind::InteractivePlan) <==> kind
            == SpawnKind::Silo && step == Step::CreateSilo,
        after_failure(kind, step, code) == After::Error || after_failure(kind, step, code)
            == After::TryInstead(SpawnKind::Restricted) || after_failure(kind, step, code)
            == After::TryInstead(SpawnKind::InteractivePlan),
{
}

/// No process is started with less isolation than was asked for, but for one in
/// the background, which gets a restricted token where AppContainers are missing,
/// and for a silo, for which an AppContainer stands in.
pub proof fn law_kind_is_kept(kind: SpawnKind, appcontainer: bool, silo: bool)
    ensures
        chosen_kind(kind, appcontainer, silo) matches Ok(k) ==> {
            ||| k == kind
            ||| kind == SpawnKind::Sandboxed && !appcontainer && k == SpawnKind::Restricted
            ||| kind == SpawnKind::Silo && !silo && appcontainer && k
                == SpawnKind::InteractivePlan
        },
        chosen_kind(kind, appcontainer, silo) matches Ok(k) ==> {
            ||| appcontainer
            ||| k == SpawnKind::Restricted
            ||| k == SpawnKind::DeviceMap
            ||| k == SpawnKind::Silo && silo
        },
        chosen_kind(kind, true, true) == Ok::<SpawnKind, Seq<char>>(kind),
        chosen_kind(kind, true, silo) is Ok,
        chosen_kind(kind, appcontainer, silo) is Err <==> !appcontainer && !(kind
            == SpawnKind::Sandboxed || kind == SpawnKind::Restricted || kind
            == SpawnKind::DeviceMap || (kind == SpawnKind::Silo && silo)),
        chosen_kind(kind, false, false) matches Err(e) ==> e == (if kind == SpawnKind::GuiIsolated
            || kind == SpawnKind::GuiAsync || kind == SpawnKind::GuiPlan {
            "GUI isolation requires AppContainer support"@
        } else {
            "Interactive shell requires AppContainer support"@
        }),
        chosen_kind(kind, false, true) matches Err(e) ==> chosen_kind(kind, false, false) == Err::<
            SpawnKind,
            Seq<char>,
        >(e),
{
}

/// The loopback exemptions of two containers never meet, nor do those of a
/// program with windows and of another process.
pub proof fn law_profiles_differ(a: SpawnKind, b: SpawnKind, x: Seq<char>, y: Seq<char>)
    ensures
        profile_name(a, x) == (if a == SpawnKind::GuiIsolated || a == SpawnKind::GuiAsync || a
            == SpawnKind::GuiPlan {
            "psroot.gui."@ + x
        } else {
            "psroot.container."@ + x
        }),
        profile_name(a, x) == profile_name(b, y) ==> x == y && on_desktop(a) == on_desktop(b),
{
    reveal_strlit("psroot.gui.");
    reveal_strlit("psroot.container.");
    let g = "psroot.gui."@;
    let c = "psroot.container."@;
    assert((g + x).skip(g.len() as int) =~= x);
    assert((g + y).skip(g.len() as int) =~= y);
    assert((c + x).skip(c.len() as int) =~= x);
    assert((c + y).skip(c.len() as int) =~= y);
    assert((g + x)[7] == 'g' && (g + y)[7] == 'g');
    assert((c + x)[7] == 'c' && (c + y)[7] == 'c');
}

fn push_when(v: &mut Vec<Step>, b: bool, s: Step)
    ensures
        final(v)@ == old(v)@ + when(b, s),
{
    if b {
        v.push(s);
    }
    assert(v@ =~= old(v)@ + when(b, s));
}

pub fn is_on_desktop(kind: SpawnKind) -> (b: bool)
    ensures
        b == on_desktop(kind),
{
    kind == SpawnKind::GuiIsolated || kind == SpawnKind::GuiAsync || kind == SpawnKind::GuiPlan
}

fn is_planned(kind: SpawnKind) -> (b: bool)
    ensures
        b == planned(kind),
{
    kind == SpawnKind::GuiPlan || kind == SpawnKind::InteractivePlan || kind == SpawnKind::Silo
        || kind == SpawnKind::DeviceMap
}

/// The steps of starting a process.
pub fn spawn_script(kind: SpawnKind, network: NetworkAccess) -> (v: Vec<Step>)
    ensures
        v@ == script(kind, network),
{
    match kind {
        SpawnKind::Restricted => {
            let v = vec![
                Step::RestrictedToken,
                Step::CreateProcess,
                Step::CloseToken,
                Step::CheckCreated,
                Step::AssignJob,
                Step::Resume,
                Step::CloseHandles,
            ];
            assert(v@ =~= script(kind, network));
            return v;
        },
        SpawnKind::Silo => {
            let v = vec![
                Step::ApplyPlan,
                Step::ApplyEnv,
                Step::CreateSilo,
                Step::SpawnInSilo,
                Step::OpenInit,
                Step::RestoreEnv,
                Step::Wait,
                Step::ExitCode,
                Step::CloseHandles,
                Step::DropSilo,
            ];
            assert(v@ =~= script(kind, network));
            return v;
        },
        SpawnKind::DeviceMap => {
            let v = vec![
                Step::ApplyPlan,
                Step::MirrorShell,
                Step::ApplyEnv,
                Step::MakeBinds,
                Step::BuildDeviceMap,
                Step::AssignSelf,
                Step::CreateProcess,
                Step::CheckCreated,
                Step::AssignChild,
                Step::Resume,
                Step::RestoreEnv,
                Step::Wait,
                Step::ExitCode,
                Step::CloseHandles,
            ];
            assert(v@ =~= script(kind, network));
            return v;
        },
        _ => {},
    }
    let mut v = preparation_steps(kind, network);
    v.push(Step::ApplyEnv);
    v.push(Step::CreateProcess);
    v.push(Step::DeleteAttributes);
    v.push(Step::RestoreEnv);
    v.push(Step::CheckCreated);
    assert(v@ =~= preparation(kind, network) + creation());
    let mut tail = conclusion_steps(kind, network);
    v.append(&mut tail);
    v
}

fn preparation_steps(kind: SpawnKind, network: NetworkAccess) -> (v: Vec<Step>)
    ensures
        v@ == preparation(kind, network),
{
    let mut v: Vec<Step> = Vec::new();
    v.push(Step::CreateProfile);
    push_when(&mut v, is_planned(kind), Step::ProfileSid);
    v.push(Step::GrantRoot);
    push_when(&mut v, kind == SpawnKind::Interactive, Step::GrantVolumes);
    push_when(&mut v, is_planned(kind), Step::ApplyPlan);
    v.push(Step::Capabilities);
    push_when(&mut v, network == NetworkAccess::Full, Step::AddLoopback);
    v.push(Step::AttributeList);
    push_when(&mut v, is_on_desktop(kind), Step::CreateDesktop);
    assert(v@ =~= preparation(kind, network));
    v
}

fn conclusion_steps(kind: SpawnKind, network: NetworkAccess) -> (v: Vec<Step>)
    ensures
        v@ == conclusion(kind, network),
{
    let mut v: Vec<Step> = Vec::new();
    if kind == SpawnKind::Sandboxed {
        v.push(Step::AssignJob);
        v.push(Step::Resume);
        v.push(Step::CloseHandles);
        v.push(Step::KeepProfile);
    } else if kind == SpawnKind::GuiAsync {
        v.push(Step::ProfileSid);
        v.push(Step::CloseThread);
        v.push(Step::KeepProfile);
    } else {
        push_when(&mut v, kind == SpawnKind::GuiIsolated, Step::ProfileSid);
        v.push(Step::Wait);
        v.push(Step::ExitCode);
        v.push(Step::CloseHandles);
        push_when(&mut v, network == NetworkAccess::Full, Step::RemoveLoopback);
        v.push(Step::DropProfile);
        push_when(&mut v, is_on_desktop(kind), Step::DropDesktop);
    }
    assert(v@ =~= conclusion(kind, network));
    v
}

/// What is undone where a step fails, and what follows. `code` is the error of
/// the operating system.
pub fn on_failure(
    kind: SpawnKind,
    network: NetworkAccess,
    step: Step,
    code: u32,
) -> (r: (Vec<Step>, After))
    ensures
        r.0@ == cleanup(kind, network, step, code),
        r.1 == after_failure(kind, step, code),
{
    let full = network == NetworkAccess::Full;
    let mut v: Vec<Step> = Vec::new();
    match kind {
        SpawnKind::Restricted => {
            if step == Step::AssignJob {
                v.push(Step::Terminate);
                v.push(Step::CloseHandles);
            }
        },
        SpawnKind::Silo => {
            if step == Step::CreateSilo {
                v.push(Step::RestoreEnv);
            } else if step == Step::SpawnInSilo || step == Step::OpenInit {
                v.push(Step::RestoreEnv);
                v.push(Step::DropSilo);
            }
        },
        SpawnKind::DeviceMap => {
            if step == Step::BuildDeviceMap || step == Step::AssignSelf || step
                == Step::CheckCreated {
                v.push(Step::RestoreEnv);
            } else if step == Step::AssignChild {
                v.push(Step::Terminate);
                v.push(Step::CloseHandles);
                v.push(Step::RestoreEnv);
            }
        },
        _ => {
            if step == Step::CreateProfile {
            } else if step == Step::CheckCreated {
                if !(kind == SpawnKind::Sandboxed && code == 0) {
                    push_when(&mut v, full, Step::RemoveLoopback);
                }
                v.push(Step::DropProfile);
                push_when(&mut v, is_on_desktop(kind), Step::DropDesktop);
            } else if step == Step::AssignJob {
                v.push(Step::Terminate);
                v.push(Step::CloseHandles);
                push_when(&mut v, full, Step::RemoveLoopback);
                v.push(Step::DropProfile);
            } else if step == Step::ProfileSid {
                push_when(&mut v, is_on_desktop(kind) && !is_planned(kind), Step::DropDesktop);
                v.push(Step::DropProfile);
            } else {
                v.push(Step::DropProfile);
            }
        },
    }
    assert(v@ =~= cleanup(kind, network, step, code));
    let next = if kind == SpawnKind::Sandboxed && step == Step::CheckCreated && code != 0 {
        After::TryInstead(SpawnKind::Restricted)
    } else if kind == SpawnKind::Silo && step == Step::CreateSilo {
        After::TryInstead(SpawnKind::InteractivePlan)
    } else {
        After::Error
    };
    (v, next)
}

/// The way that is taken for the way that was asked for. Without AppContainers
/// a background process gets a restricted token, and other processes are
/// refused; without silos an AppContainer stands in.
pub open spec fn chosen_kind(kind: SpawnKind, appcontainer: bool, silo: bool) -> Result<
    SpawnKind,
    Seq<char>,
> {
    match kind {
        SpawnKind::Interactive | SpawnKind::InteractivePlan => if appcontainer {
            Ok(kind)
        } else {
            Err("Interactive shell requires AppContainer support"@)
        },
        SpawnKind::GuiIsolated | SpawnKind::GuiAsync | SpawnKind::GuiPlan => if appcontainer {
            Ok(kind)
        } else {
            Err("GUI isolation requires AppContainer support"@)
        },
        SpawnKind::Sandboxed => if appcontainer {
            Ok(kind)
        } else {
            Ok(SpawnKind::Restricted)
        },
        SpawnKind::Silo => if silo {
            Ok(kind)
        } else if appcontainer {
            Ok(SpawnKind::InteractivePlan)
        } else {
            Err("Interactive shell requires AppContainer support"@)
        },
        SpawnKind::Restricted | SpawnKind::DeviceMap => Ok(kind),
    }
}

pub fn choose_kind(kind: SpawnKind, appcontainer: bool, silo: bool) -> (r: Result<
    SpawnKind,
    &'static str,
>)
    ensures
        match (r, chosen_kind(kind, appcontainer, silo)) {
            (Ok(k), Ok(m)) => k == m,
            (Err(e), Err(m)) => e@ == m,
            _ => false,
        },
{
    match kind {
        SpawnKind::Interactive | SpawnKind::InteractivePlan => if appcontainer {
            Ok(kind)
        } else {
            Err("Interactive shell requires AppContainer support")
        },
        SpawnKind::GuiIsolated | SpawnKind::GuiAsync | SpawnKind::GuiPlan => if appcontainer {
            Ok(kind)
        } else {
            Err("GUI isolation requires AppContainer support")
        },
        SpawnKind::Sandboxed => if appcontainer {
            Ok(kind)
        } else {
            Ok(SpawnKind::Restricted)
        },
        SpawnKind::Silo => if silo {
            Ok(kind)
        } else if appcontainer {
            Ok(SpawnKind::InteractivePlan)
        } else {
            Err("Interactive shell requires AppContainer support")
        },
        SpawnKind::Restricted => Ok(kind),
        SpawnKind::DeviceMap => Ok(kind),
    }
}

pub const CREATE_SUSPENDED: u32 = 0x4;

pub const CREATE_UNICODE_ENVIRONMENT: u32 = 0x400;

pub const EXTENDED_STARTUPINFO_PRESENT: u32 = 0x80000;

pub const CREATE_NO_WINDOW: u32 = 0x8000000;

/// The flags that a process is created with, and whether it inherits the
/// caller's handles.
pub open spec fn creation_flags(kind: SpawnKind) -> (u32, bool) {
    match kind {
        SpawnKind::Interactive | SpawnKind::InteractivePlan => (0x80000, true),
        SpawnKind::GuiIsolated | SpawnKind::GuiAsync | SpawnKind::GuiPlan => (0x80000, false),
        SpawnKind::Sandboxed => (0x8080004, false),
        SpawnKind::Restricted => (0x8000404, false),
        SpawnKind::Silo | SpawnKind::DeviceMap => (0x404, true),
    }
}

pub fn process_flags(kind: SpawnKind) -> (r: (u32, bool))
    ensures
        r == creation_flags(kind),
{
    assert(CREATE_SUSPENDED | CREATE_NO_WINDOW | EXTENDED_STARTUPINFO_PRESENT == 0x8080004u32)
        by (bit_vector);
    assert(CREATE_SUSPENDED | CREATE_NO_WINDOW | CREATE_UNICODE_ENVIRONMENT == 0x8000404u32)
        by (bit_vector);
    assert(CREATE_UNICODE_ENVIRONMENT | CREATE_SUSPENDED == 0x404u32) by (bit_vector);
    match kind {
        SpawnKind::Interactive => (EXTENDED_STARTUPINFO_PRESENT, true),
        SpawnKind::InteractivePlan => (EXTENDED_STARTUPINFO_PRESENT, true),
        SpawnKind::GuiIsolated => (EXTENDED_STARTUPINFO_PRESENT, false),
        SpawnKind::GuiAsync => (EXTENDED_STARTUPINFO_PRESENT, false),
        SpawnKind::GuiPlan => (EXTENDED_STARTUPINFO_PRESENT, false),
        SpawnKind::Sandboxed => (
            CREATE_SUSPENDED | CREATE_NO_WINDOW | EXTENDED_STARTUPINFO_PRESENT,
            false,
        ),
        SpawnKind::Restricted => (
            CREATE_SUSPENDED | CREATE_NO_WINDOW | CREATE_UNICODE_ENVIRONMENT,
            false,
        ),
        SpawnKind::Silo => (CREATE_UNICODE_ENVIRONMENT | CREATE_SUSPENDED, true),
        SpawnKind::DeviceMap => (CREATE_UNICODE_ENVIRONMENT | CREATE_SUSPENDED, true),
    }
}

/// The name under which the loopback exemption of a process is kept; programs
/// with windows have one of their own.
pub open spec fn profile_name(kind: SpawnKind, id: Seq<char>) -> Seq<char> {
    if on_desktop(kind) {
        "psroot.gui."@ + id
    } else {
        "psroot.container."@ + id
    }
}

/// The name under which the loopback exemption of a process is kept.
pub fn loopback_profile(kind: SpawnKind, id: &str) -> (s: String)
    ensures
        s@ == profile_name(kind, id@),
{
    if is_on_desktop(kind) {
        crate::text::concat2("psroot.gui.", id)
    } else {
        crate::text::concat2("psroot.container.", id)
    }
}

/// The name of the function in the error of a process that was not created.
pub open spec fn failed_call(kind: SpawnKind) -> Seq<char> {
    match kind {
        SpawnKind::Interactive => "CreateProcessW(interactive)"@,
        SpawnKind::GuiIsolated => "CreateProcessW(gui_isolated)"@,
        SpawnKind::GuiAsync => "CreateProcessW(gui_isolated_async)"@,
        SpawnKind::GuiPlan => "CreateProcessW(gui_plan)"@,
        SpawnKind::InteractivePlan => "CreateProcessW(interactive_plan)"@,
        SpawnKind::Sandboxed => "CreateProcessW(AppContainer)"@,
        SpawnKind::Restricted => "CreateProcessAsUserW"@,
        SpawnKind::Silo => "Silo::create"@,
        SpawnKind::DeviceMap => "CreateProcessW(devicemap)"@,
    }
}

pub fn failed_call_name(kind: SpawnKind) -> (s: &'static str)
    ensures
        s@ == failed_call(kind),
{
    match kind {
        SpawnKind::Interactive => "CreateProcessW(interactive)",
        SpawnKind::GuiIsolated => "CreateProcessW(gui_isolated)",
        SpawnKind::GuiAsync => "CreateProcessW(gui_isolated_async)",
        SpawnKind::GuiPlan => "CreateProcessW(gui_plan)",
        SpawnKind::InteractivePlan => "CreateProcessW(interactive_plan)",
        SpawnKind::Sandboxed => "CreateProcessW(AppContainer)",
        SpawnKind::Restricted => "CreateProcessAsUserW",
        SpawnKind::Silo => "Silo::create",
        SpawnKind::DeviceMap => "CreateProcessW(devicemap)",
    }
}

} // verus!
