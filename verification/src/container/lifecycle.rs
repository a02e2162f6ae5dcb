//! The life of a container: created, running, stopped, and gone.
//!
//! A `Container` here is what decides: which operation its state allows, what
//! the state becomes, and what is written to disk about it. Processes and files
//! are the caller's.

use crate::container::config::{
    publishes, ContainerConfig, Failure, Mount, NetworkAccess, PortMapping, Publish, PsrootError,
    VolumeMount,
};
use crate::container::launch::{
    command_launch, plan_launch, silo_launch, spawn_interactive, spawn_interactive_plan, spawn_interactive_plan_silo,
    Launch, LaunchPlan,
};
use crate::container::sandbox::{inside, join_path, joined_path, law_join_goes_below};
use crate::container::spawn::SpawnKind;
use crate::netstack::runtime::{
    beside, default_procshim_path, stage_into_rootfs, staged_procshim,
};
use crate::text::{concat2, decimal, decimal_text, same, take, texts};
use vstd::prelude::*;

verus! {

/// The states of a container.
#[derive(Clone, Copy, Debug, PartialEq, Eq, Structural)]
pub enum ContainerState {
    Created,
    Running,
    Stopped,
}

impl ContainerState {
    pub open spec fn label(self) -> Seq<char> {
        match self {
            ContainerState::Created => "created"@,
            ContainerState::Running => "running"@,
            ContainerState::Stopped => "stopped"@,
        }
    }

    /// The name of the state.
    pub fn name(&self) -> (s: &'static str)
        ensures
            s@ == self.label(),
    {
        match self {
            ContainerState::Created => "created",
            ContainerState::Running => "running",
            ContainerState::Stopped => "stopped",
        }
    }
}

/// A lower case hexadecimal digit.
pub open spec fn is_hex(c: char) -> bool {
    '0' <= c <= '9' || 'a' <= c <= 'f'
}

/// The text of a UUID: groups of eight, four, four, four and twelve hexadecimal
/// digits with hyphens between them.
pub open spec fn uuid_shaped(s: Seq<char>) -> bool {
    &&& s.len() == 36
    &&& s[8] == '-' && s[13] == '-' && s[18] == '-' && s[23] == '-'
    &&& forall|i: int|
        0 <= i < 36 && i != 8 && i != 13 && i != 18 && i != 23 ==> is_hex(#[trigger] s[i])
}

/// `uuid::Uuid::new_v4` and its text: a random UUID in lower case. Only the
/// shape of the text is claimed; its digits come from the random source of the
/// operating system, without which the call does not return.
#[verifier::external_body]
pub(crate) fn random_uuid() -> (s: String)
    ensures
        uuid_shaped(s@),
        s@[14] == '4',
{
    uuid::Uuid::new_v4().to_string()
}

/// The id of a container, from the text of a UUID.
pub open spec fn id_from(uuid: Seq<char>) -> Seq<char> {
    "psroot-"@ + uuid.take(8)
}

/// The id of a container, from the text of a UUID.
pub fn container_id(uuid: &str) -> (id: String)
    requires
        uuid_shaped(uuid@),
    ensures
        id@ == id_from(uuid@),
{
    let head = take(uuid, 8);
    concat2("psroot-", head.as_str())
}

/// A new id for a container: `psroot-` and eight hexadecimal digits.
pub fn new_container_id() -> (id: String)
    ensures
        id@.len() == 15,
        "psroot-"@.is_prefix_of(id@),
        forall|i: int| 7 <= i < 15 ==> is_hex(#[trigger] id@[i]),
{
    let u = random_uuid();
    let id = container_id(u.as_str());
    proof {
        reveal_strlit("psroot-");
        assert(id@.subrange(0, 7) =~= "psroot-"@);
        assert forall|i: int| 7 <= i < 15 implies is_hex(#[trigger] id@[i]) by {
            assert(id@[i] == u@[i - 7]);
        }
    }
    id
}

/// The directory that holds all data: that of `PSROOT_ROOT`, or `Psroot` in the
/// directory for local application data.
pub open spec fn data_root(configured: Option<Seq<char>>, local: Option<Seq<char>>) -> Seq<char> {
    match configured {
        Some(r) => r,
        None => joined_path(
            match local {
                Some(l) => l,
                None => "C:\\PsrootData"@,
            },
            "Psroot"@,
        ),
    }
}

pub fn psroot_root(configured: Option<String>, local: Option<String>) -> (s: String)
    ensures
        s@ == data_root(
            crate::container::config::text_of(configured),
            crate::container::config::text_of(local),
        ),
{
    match configured {
        Some(r) => r,
        None => match local {
            Some(l) => join_path(l.as_str(), "Psroot"),
            None => join_path("C:\\PsrootData", "Psroot"),
        },
    }
}

/// The directory of a container.
pub open spec fn dir_of(root: Seq<char>, id: Seq<char>) -> Seq<char> {
    joined_path(joined_path(root, "containers"@), id)
}

pub fn container_dir(root: &str, id: &str) -> (s: String)
    ensures
        s@ == dir_of(root@, id@),
{
    let c = join_path(root, "containers");
    join_path(c.as_str(), id)
}

/// A right on a path that was given for a container, and has to be taken back.
#[derive(Clone, Debug)]
pub struct AceGrantRecord {
    pub path: String,
    pub sid: String,
    pub mask: String,
    pub inherit: bool,
}

/// What a record of a right holds.
#[verifier::ext_equal]
pub struct AceGrant {
    pub path: Seq<char>,
    pub sid: Seq<char>,
    pub mask: Seq<char>,
    pub inherit: bool,
}

impl View for AceGrantRecord {
    type V = AceGrant;

    open spec fn view(&self) -> AceGrant {
        AceGrant {
            path: self.path@,
            sid: self.sid@,
            mask: self.mask@,
            inherit: self.inherit,
        }
    }
}

/// What a list of records holds.
pub open spec fn grants(v: Seq<AceGrantRecord>) -> Seq<AceGrant> {
    Seq::new(v.len(), |i: int| v[i]@)
}

/// What is on disk about the state of a container.
#[derive(Clone, Debug)]
pub struct StateFile {
    pub status: ContainerState,
    pub created: String,
    pub pid: Option<u32>,
    pub silo_id: Option<u32>,
    pub ports: Vec<PortMapping>,
    pub ace_grants_applied: Vec<AceGrantRecord>,
    pub cache_refs: Vec<String>,
}

/// How the processes of a running container are held together.
#[derive(Clone, Copy, Debug, PartialEq, Eq, Structural)]
pub enum Runtime {
    Job,
    Silo { silo_id: u32, init_pid: Option<u32> },
}

/// A container.
pub struct Container {
    pub id: String,
    pub dir: String,
    pub config: ContainerConfig,
    pub state: ContainerState,
    pub created: String,
    /// Set while the container runs in this process.
    pub runtime: Option<Runtime>,
}

/// The error of an operation that a state does not allow.
pub open spec fn wrong_state(id: Seq<char>, current: Seq<char>, expected: Seq<char>) -> Failure {
    Failure::InvalidState { id, current, expected }
}

fn invalid_state(id: &str, current: &str, expected: &str) -> (e: PsrootError)
    ensures
        e@ == wrong_state(id@, current@, expected@),
{
    PsrootError::InvalidState {
        id: id.to_owned(),
        current: current.to_owned(),
        expected: expected.to_owned(),
    }
}

/// What a container runs its next process in.
#[derive(Clone, Copy, Debug, PartialEq, Eq, Structural)]
pub enum Host {
    Silo,
    Job,
}

/// What a container is started in, where its state allows it: a silo where one
/// is configured and available, else a job.
pub open spec fn start_host(state: ContainerState, silo: bool, server_silos: bool) -> Option<Host> {
    if state != ContainerState::Created {
        None
    } else if silo && server_silos {
        Some(Host::Silo)
    } else {
        Some(Host::Job)
    }
}

/// What the processes of a running container are in, where that is known.
pub open spec fn running_host(state: ContainerState, runtime: Option<Runtime>) -> Option<Host> {
    if state != ContainerState::Running {
        None
    } else {
        match runtime {
            Some(Runtime::Silo { .. }) => Some(Host::Silo),
            Some(Runtime::Job) => Some(Host::Job),
            None => None,
        }
    }
}

/// Whether a container has to be stopped before it is removed, where it may be
/// removed at all.
pub open spec fn removal(state: ContainerState, force: bool) -> Option<bool> {
    if state != ContainerState::Running {
        Some(false)
    } else if force {
        Some(true)
    } else {
        None
    }
}

/// Whether the network stack is kept after its shim was to be put into a process.
pub open spec fn netstack_kept(opened: bool, injected: bool) -> bool {
    !opened || injected
}

/// Whether a container gets a network stack of its own.
pub open spec fn netstack_wanted(network: NetworkAccess, shim_found: bool) -> bool {
    network == NetworkAccess::Netstack && shim_found
}

/// A container is started once, and in a silo exactly where one is configured
/// and available; what is asked of a running one goes to what it runs in; one
/// that runs is removed only by force, and stopped first; and a network stack is
/// made only where it was asked for, and given up only where its shim could not
/// be put into a process that was open.
pub proof fn law_operations_fit_the_state(
    state: ContainerState,
    silo: bool,
    server_silos: bool,
    force: bool,
    id: u32,
    pid: Option<u32>,
)
    ensures
        start_host(state, silo, server_silos) is Some <==> state == ContainerState::Created,
        start_host(state, silo, server_silos) == Some(Host::Silo) <==> state
            == ContainerState::Created && silo && server_silos,
        running_host(ContainerState::Running, Some(Runtime::Silo { silo_id: id, init_pid: pid }))
            == Some(Host::Silo),
        running_host(ContainerState::Running, Some(Runtime::Job)) == Some(Host::Job),
        running_host(ContainerState::Running, None) is None,
        forall|r: Option<Runtime>| #[trigger]
            running_host(state, r) is Some ==> state == ContainerState::Running,
        removal(state, force) is None <==> state == ContainerState::Running && !force,
        removal(state, force) == Some(true) <==> state == ContainerState::Running && force,
        netstack_kept(true, true) && netstack_kept(false, true) && netstack_kept(false, false),
        !netstack_kept(true, false),
        forall|n: NetworkAccess, found: bool| #[trigger]
            netstack_wanted(n, found) <==> n == NetworkAccess::Netstack && found,
{
}

impl Container {
    /// Nothing but the state and what runs is different.
    pub open spec fn same_identity(self, o: Self) -> bool {
        self.id == o.id && self.dir == o.dir && self.config == o.config && self.created == o.created
    }

    /// Something runs only in a running container.
    pub open spec fn wf(self) -> bool {
        self.runtime is Some ==> self.state == ContainerState::Running
    }

    /// A new container with this id, below the data directory `root`.
    pub open spec fn is_new(
        self,
        id: Seq<char>,
        root: Seq<char>,
        config: ContainerConfig,
        created: Seq<char>,
    ) -> bool {
        &&& self.id@ == id
        &&& self.dir@ == dir_of(root, id)
        &&& self.state == ContainerState::Created
        &&& self.created@ == created
        &&& self.runtime is None
        &&& self.config.rootfs_path@ == (if config.rootfs_path@.len() == 0 {
            joined_path(dir_of(root, id), "rootfs"@)
        } else {
            config.rootfs_path@
        })
        &&& self.config == (ContainerConfig { rootfs_path: self.config.rootfs_path, ..config })
    }

    /// The container with this id, from what is on disk.
    pub open spec fn is_loaded(
        self,
        id: Seq<char>,
        root: Seq<char>,
        config: ContainerConfig,
        file: StateFile,
    ) -> bool {
        &&& self.id@ == id
        &&& self.dir@ == dir_of(root, id)
        &&& self.config == config
        &&& self.created@ == file.created@
        &&& self.runtime is None
        &&& self.state == (if file.status == ContainerState::Running {
            ContainerState::Stopped
        } else {
            file.status
        })
    }

    /// What is written to disk, where `existing` is there.
    pub open spec fn writes(self, existing: Option<StateFile>, f: StateFile) -> bool {
        &&& f.status == self.state
        &&& f.created@ == self.created@
        &&& f.pid == (match self.runtime {
            Some(Runtime::Silo { init_pid, .. }) => init_pid,
            _ => None,
        })
        &&& f.silo_id == (match self.runtime {
            Some(Runtime::Silo { silo_id, .. }) => Some(silo_id),
            _ => None,
        })
        &&& publishes(f.ports@) == publishes(self.config.ports@)
        &&& match existing {
            Some(e) => f.ace_grants_applied == e.ace_grants_applied && f.cache_refs
                == e.cache_refs,
            None => f.ace_grants_applied@.len() == 0 && f.cache_refs@.len() == 0,
        }
    }

    /// A new container with this id, below the data directory `root`. Its root
    /// directory is `rootfs` in its own directory unless one is configured.
    pub fn create(id: &str, root: &str, config: ContainerConfig, created: &str) -> (c: Self)
        ensures
            c.wf(),
            c.is_new(id@, root@, config, created@),
    {
        let dir = container_dir(root, id);
        let mut config = config;
        if config.rootfs_path.as_str().is_empty() {
            config.rootfs_path = join_path(dir.as_str(), "rootfs");
        }
        Container {
            id: id.to_owned(),
            dir,
            config,
            state: ContainerState::Created,
            created: created.to_owned(),
            runtime: None,
        }
    }

    /// A container from what is on disk. Its processes are gone, so one that
    /// was running counts as stopped.
    pub fn load(id: &str, root: &str, config: ContainerConfig, file: StateFile) -> (c: Self)
        ensures
            c.wf(),
            c.is_loaded(id@, root@, config, file),
    {
        Container {
            id: id.to_owned(),
            dir: container_dir(root, id),
            config,
            state: if file.status == ContainerState::Running {
                ContainerState::Stopped
            } else {
                file.status
            },
            created: file.created,
            runtime: None,
        }
    }

    pub fn id(&self) -> (s: &str)
        ensures
            s@ == self.id@,
    {
        self.id.as_str()
    }

    pub fn state(&self) -> (s: ContainerState)
        ensures
            s == self.state,
    {
        self.state
    }

    pub fn config(&self) -> (c: &ContainerConfig)
        ensures
            *c == self.config,
    {
        &self.config
    }

    /// Whether the container may be started, and in what: a silo where one is
    /// configured and available, else a job.
    pub fn start(&self, server_silos: bool) -> (r: Result<Host, PsrootError>)
        ensures
            r is Ok <==> next_state(self.state, true) != self.state,
            match r {
                Ok(h) => start_host(self.state, self.config.silo, server_silos) == Some(h),
                Err(e) => start_host(self.state, self.config.silo, server_silos) is None && e@
                    == wrong_state(
                    self.id@,
                    self.state.label(),
                    "created"@,
                ),
            },
    {
        if self.state != ContainerState::Created {
            return Err(invalid_state(self.id.as_str(), self.state.name(), "created"));
        }
        if self.config.silo && server_silos {
            Ok(Host::Silo)
        } else {
            Ok(Host::Job)
        }
    }

    /// The first process runs.
    pub fn started(&mut self, runtime: Runtime)
        requires
            old(self).state == ContainerState::Created,
        ensures
            final(self).wf(),
            final(self).same_identity(*old(self)),
            final(self).state == next_state(old(self).state, true),
            final(self).runtime == Some(runtime),
    {
        self.state = ContainerState::Running;
        self.runtime = Some(runtime);
    }

    /// What another process is started in.
    pub fn exec(&self) -> (r: Result<Host, PsrootError>)
        ensures
            match r {
                Ok(h) => running_host(self.state, self.runtime) == Some(h),
                Err(e) => if self.state != ContainerState::Running {
                    e@ == wrong_state(self.id@, self.state.label(), "running"@)
                } else {
                    self.runtime is None && e@ == Failure::Other("No runtime available"@)
                },
            },
    {
        if self.state != ContainerState::Running {
            return Err(invalid_state(self.id.as_str(), self.state.name(), "running"));
        }
        match self.runtime {
            Some(Runtime::Silo { .. }) => Ok(Host::Silo),
            Some(Runtime::Job) => Ok(Host::Job),
            None => Err(PsrootError::Other("No runtime available".to_owned())),
        }
    }

    /// Where the container's resource usage is read.
    pub fn stats(&self) -> (r: Result<Host, PsrootError>)
        ensures
            match r {
                Ok(h) => running_host(self.state, self.runtime) == Some(h),
                Err(e) => if self.state != ContainerState::Running {
                    e@ == wrong_state(self.id@, self.state.label(), "running"@)
                } else {
                    self.runtime is None && e@ == Failure::Other("No runtime"@)
                },
            },
    {
        if self.state != ContainerState::Running {
            return Err(invalid_state(self.id.as_str(), self.state.name(), "running"));
        }
        match self.runtime {
            Some(Runtime::Silo { .. }) => Ok(Host::Silo),
            Some(Runtime::Job) => Ok(Host::Job),
            None => Err(PsrootError::Other("No runtime".to_owned())),
        }
    }

    /// Stops the container, if it runs. The result says what has to be torn
    /// down, and whether the new state is to be written.
    pub fn stop(&mut self) -> (r: (Option<Runtime>, bool))
        requires
            old(self).wf(),
        ensures
            final(self).wf(),
            final(self).same_identity(*old(self)),
            final(self).runtime is None,
            r.0 == old(self).runtime,
            r.1 == (old(self).state == ContainerState::Running),
            final(self).state == next_state(old(self).state, false),
    {
        if self.state != ContainerState::Running {
            return (None, false);
        }
        let r = self.runtime;
        self.runtime = None;
        self.state = ContainerState::Stopped;
        (r, true)
    }

    /// Whether the container may be removed; `Ok(true)` asks for stopping it
    /// first.
    pub fn remove(&self, force: bool) -> (r: Result<bool, PsrootError>)
        ensures
            match r {
                Ok(stop) => removal(self.state, force) == Some(stop),
                Err(e) => removal(self.state, force) is None && e@ == wrong_state(
                    self.id@,
                    "running"@,
                    "stopped or created"@,
                ),
            },
    {
        if self.state == ContainerState::Running {
            if force {
                Ok(true)
            } else {
                Err(invalid_state(self.id.as_str(), "running", "stopped or created"))
            }
        } else {
            Ok(false)
        }
    }

    /// What is written to disk. Rights and cache references that are recorded
    /// there already are kept.
    pub fn write_state(&self, existing: Option<StateFile>) -> (f: StateFile)
        ensures
            self.writes(existing, f),
    {
        let (ace_grants_applied, cache_refs) = match existing {
            Some(e) => (e.ace_grants_applied, e.cache_refs),
            None => (Vec::new(), Vec::new()),
        };
        let (pid, silo_id) = match self.runtime {
            Some(Runtime::Silo { silo_id, init_pid }) => (init_pid, Some(silo_id)),
            _ => (None, None),
        };
        StateFile {
            status: self.state,
            created: self.created.clone(),
            pid,
            silo_id,
            ports: copy_ports(&self.config.ports),
            ace_grants_applied,
            cache_refs,
        }
    }

    /// The mounts to be made through the bind filter; none where it is not
    /// available.
    pub fn setup_bind_links(&self, bind_filter: bool) -> (v: Vec<VolumeMount>)
        ensures
            crate::container::config::mounts(v@) == (if bind_filter {
                crate::container::config::mounts(self.config.volumes@)
            } else {
                Seq::empty()
            }),
    {
        if bind_filter {
            copy_mounts(&self.config.volumes)
        } else {
            let v: Vec<VolumeMount> = Vec::new();
            assert(crate::container::config::mounts(v@) =~= Seq::<Mount>::empty());
            v
        }
    }

    /// Whether the container gets a network stack of its own: it is configured,
    /// and the shim for it is there.
    pub fn try_start_netstack(&self, shim_found: bool) -> (b: bool)
        ensures
            b == netstack_wanted(self.config.network, shim_found),
    {
        self.config.network == NetworkAccess::Netstack && shim_found
    }
}

/// What was found in the directory of all containers.
pub struct Found {
    pub name: String,
    pub directory: bool,
    /// The state of the container, where it could be read.
    pub state: Option<StateFile>,
}

/// A container of a list.
#[verifier::ext_equal]
pub struct Listed {
    pub id: Seq<char>,
    pub status: ContainerState,
    pub created: Seq<char>,
    pub ports: Seq<Publish>,
}

/// The containers among the entries, in their order.
pub open spec fn containers_in(found: Seq<Found>) -> Seq<Listed>
    decreases found.len(),
{
    if found.len() == 0 {
        seq![]
    } else {
        let rest = containers_in(found.drop_last());
        let f = found.last();
        match f.state {
            Some(s) => if f.directory {
                rest.push(
                    Listed {
                        id: f.name@,
                        status: s.status,
                        created: s.created@,
                        ports: publishes(s.ports@),
                    },
                )
            } else {
                rest
            },
            None => rest,
        }
    }
}

/// A container of a list, with its ports.
pub struct ListEntry {
    pub id: String,
    pub status: ContainerState,
    pub created: String,
    pub ports: Vec<PortMapping>,
}

impl View for ListEntry {
    type V = Listed;

    open spec fn view(&self) -> Listed {
        Listed {
            id: self.id@,
            status: self.status,
            created: self.created@,
            ports: publishes(self.ports@),
        }
    }
}

/// What a list of containers holds.
pub open spec fn listing(v: Seq<ListEntry>) -> Seq<Listed> {
    Seq::new(v.len(), |i: int| v[i]@)
}

/// A list of containers without their ports.
pub open spec fn summary(v: Seq<(String, ContainerState, String)>) -> Seq<
    (Seq<char>, ContainerState, Seq<char>),
> {
    Seq::new(v.len(), |i: int| (v[i].0@, v[i].1, v[i].2@))
}

/// The rows without the ports.
pub open spec fn without_ports(l: Seq<Listed>) -> Seq<(Seq<char>, ContainerState, Seq<char>)> {
    Seq::new(l.len(), |i: int| (l[i].id, l[i].status, l[i].created))
}

impl Container {
    /// All containers, from what was found in the directory that holds them.
    pub fn list_with_ports(found: &Vec<Found>) -> (v: Vec<ListEntry>)
        ensures
            listing(v@) == containers_in(found@),
    {
        let mut v: Vec<ListEntry> = Vec::new();
        let mut i: usize = 0;
        proof {
            assert(found@.take(0) =~= Seq::<Found>::empty());
            assert(listing(v@) =~= Seq::<Listed>::empty());
        }
        while i < found.len()
            invariant
                i <= found.len(),
                listing(v@) == containers_in(found@.take(i as int)),
            decreases found.len() - i,
        {
            proof {
                let t = found@.take(i + 1);
                assert(t.drop_last() =~= found@.take(i as int));
                assert(t.last() == found@[i as int]);
            }
            if found[i].directory {
                if let Some(s) = &found[i].state {
                    let ghost before = v@;
                    let e = ListEntry {
                        id: found[i].name.clone(),
                        status: s.status,
                        created: s.created.clone(),
                        ports: copy_ports(&s.ports),
                    };
                    let ghost ev = e@;
                    v.push(e);
                    assert(listing(v@) =~= listing(before).push(ev));
                }
            }
            i = i + 1;
        }
        assert(found@.take(found@.len() as int) =~= found@);
        v
    }

    /// All containers without their ports.
    pub fn list(found: &Vec<Found>) -> (v: Vec<(String, ContainerState, String)>)
        ensures
            summary(v@) == without_ports(containers_in(found@)),
    {
        let all = Self::list_with_ports(found);
        let mut v: Vec<(String, ContainerState, String)> = Vec::new();
        let mut i: usize = 0;
        while i < all.len()
            invariant
                i <= all.len(),
                summary(v@) =~= without_ports(listing(all@)).take(i as int),
            decreases all.len() - i,
        {
            let ghost before = v@;
            let e = (all[i].id.clone(), all[i].status, all[i].created.clone());
            v.push(e);
            proof {
                let w = without_ports(listing(all@));
                assert(summary(v@) =~= summary(before).push((e.0@, e.1, e.2@)));
                assert(w.take(i + 1) =~= w.take(i as int).push(w[i as int]));
            }
            i = i + 1;
        }
        assert(without_ports(listing(all@)).take(all@.len() as int) =~= without_ports(
            listing(all@),
        ));
        v
    }

    /// A shell in the container, on the caller's console.
    pub fn shell(&self, cmd: &str, appcontainer: bool) -> (r: Result<Launch, PsrootError>)
        ensures
            match r {
                Ok(l) => appcontainer && command_launch(
                    l,
                    SpawnKind::Interactive,
                    cmd@,
                    self.config,
                ),
                Err(e) => !appcontainer && e@ == Failure::Other(
                    "Interactive shell requires AppContainer support"@,
                ),
            },
    {
        spawn_interactive(cmd, &self.config, appcontainer)
    }

    /// A staged shell in the container. With `use_silo` it runs in a silo, or
    /// in an AppContainer where the host has none.
    pub fn shell_with_plan(
        &self,
        plan: &LaunchPlan,
        use_silo: bool,
        silo: bool,
        appcontainer: bool,
    ) -> (r: Result<Launch, PsrootError>)
        ensures
            match r {
                Ok(l) => if use_silo && silo {
                    silo_launch(l, *plan, self.config)
                } else {
                    appcontainer && plan_launch(l, SpawnKind::InteractivePlan, *plan, self.config)
                },
                Err(e) => !(use_silo && silo) && !appcontainer && e@ == Failure::Other(
                    "Interactive shell requires AppContainer support"@,
                ),
            },
    {
        if use_silo {
            spawn_interactive_plan_silo(plan, &self.config, silo, appcontainer)
        } else {
            spawn_interactive_plan(plan, &self.config, appcontainer)
        }
    }

    /// Whether the network stack is kept after its shim was to be put into the
    /// first process: a process that could not be opened leaves it running, a
    /// failed injection ends it.
    pub fn try_inject_netstack(opened: bool, injected: bool) -> (keep: bool)
        ensures
            keep == netstack_kept(opened, injected),
    {
        !opened || injected
    }

    /// The library that hides the host's processes, as it is put into the first
    /// process: the one that was staged into the container, or the one next to
    /// the program at `exe` where staging failed; none where there is no such
    /// library.
    pub fn try_inject_procshim(&self, exe: &str, found: bool, staged: bool) -> (r: Option<String>)
        ensures
            match r {
                Some(p) => found && p@ == if staged {
                    staged_procshim(self.config.rootfs_path@)
                } else {
                    beside(exe@, "psroot_procshim.dll"@)
                },
                None => !found,
            },
    {
        if !found {
            return None;
        }
        if staged {
            Some(stage_into_rootfs(self.config.rootfs_path.as_str()))
        } else {
            Some(default_procshim_path(exe))
        }
    }
}

fn copy_mounts(v: &Vec<VolumeMount>) -> (w: Vec<VolumeMount>)
    ensures
        crate::container::config::mounts(w@) == crate::container::config::mounts(v@),
{
    let ghost all = crate::container::config::mounts(v@);
    let mut w: Vec<VolumeMount> = Vec::new();
    let mut i: usize = 0;
    assert(crate::container::config::mounts(w@) =~= all.take(0));
    while i < v.len()
        invariant
            i <= v.len(),
            all == crate::container::config::mounts(v@),
            crate::container::config::mounts(w@) == all.take(i as int),
        decreases v.len() - i,
    {
        let ghost before = w@;
        let m = VolumeMount {
            host_path: v[i].host_path.clone(),
            container_path: v[i].container_path.clone(),
            read_only: v[i].read_only,
        };
        w.push(m);
        proof {
            assert(crate::container::config::mounts(w@) =~= crate::container::config::mounts(
                before,
            ).push(m@));
            assert(all.take(i + 1) =~= all.take(i as int).push(all[i as int]));
        }
        i = i + 1;
    }
    assert(all.take(all.len() as int) =~= all);
    w
}

fn copy_port(p: &PortMapping) -> (q: PortMapping)
    ensures
        q@ == p@,
{
    PortMapping {
        host_bind: p.host_bind.clone(),
        host_port: p.host_port,
        container_port: p.container_port,
        ephemeral_port: p.ephemeral_port,
        name: match &p.name {
            Some(n) => Some(n.clone()),
            None => None,
        },
    }
}

/// A copy of a list of port mappings.
pub fn copy_ports(v: &Vec<PortMapping>) -> (w: Vec<PortMapping>)
    ensures
        publishes(w@) == publishes(v@),
{
    let ghost all = publishes(v@);
    let mut w: Vec<PortMapping> = Vec::new();
    let mut i: usize = 0;
    assert(publishes(w@) =~= all.take(0));
    while i < v.len()
        invariant
            i <= v.len(),
            all == publishes(v@),
            publishes(w@) == all.take(i as int),
        decreases v.len() - i,
    {
        let ghost before = w@;
        let p = copy_port(&v[i]);
        w.push(p);
        proof {
            assert(publishes(w@) =~= publishes(before).push(p@));
            assert(all.take(i + 1) =~= all.take(i as int).push(all[i as int]));
        }
        i = i + 1;
    }
    assert(all.take(all.len() as int) =~= all);
    w
}

/// How many ports have yet to be chosen.
pub open spec fn unassigned(ports: Seq<PortMapping>) -> nat
    decreases ports.len(),
{
    if ports.len() == 0 {
        0
    } else {
        unassigned(ports.drop_last()) + if ports.last().ephemeral_port is None {
            1nat
        } else {
            0nat
        }
    }
}

/// The number of ports that have yet to be chosen.
pub fn ports_to_allocate(ports: &Vec<PortMapping>) -> (n: usize)
    ensures
        n == unassigned(ports@),
{
    let mut n: usize = 0;
    let mut i: usize = 0;
    assert(ports@.take(0) =~= Seq::<PortMapping>::empty());
    while i < ports.len()
        invariant
            n <= i <= ports.len(),
            n == unassigned(ports@.take(i as int)),
        decreases ports.len() - i,
    {
        proof {
            let t = ports@.take(i + 1);
            assert(t.drop_last() =~= ports@.take(i as int));
            assert(t.last() == ports[i as int]);
        }
        if ports[i].ephemeral_port.is_none() {
            n = n + 1;
        }
        i = i + 1;
    }
    assert(ports@.take(ports@.len() as int) =~= ports@);
    n
}

/// The mappings with the chosen ports filled in, in order; one that had a port
/// keeps it.
pub open spec fn assigned(ports: Seq<Publish>, chosen: Seq<u16>) -> Seq<Publish>
    decreases ports.len(),
{
    if ports.len() == 0 {
        ports
    } else if ports[0].ephemeral_port is Some || chosen.len() == 0 {
        seq![ports[0]] + assigned(ports.skip(1), chosen)
    } else {
        seq![Publish { ephemeral_port: Some(chosen[0]), ..ports[0] }] + assigned(
            ports.skip(1),
            chosen.skip(1),
        )
    }
}

/// Fills the chosen ports in.
pub fn assign_ports(ports: &Vec<PortMapping>, chosen: &[u16]) -> (out: Vec<PortMapping>)
    ensures
        publishes(out@) == assigned(publishes(ports@), chosen@),
{
    let ghost all = publishes(ports@);
    let mut out: Vec<PortMapping> = Vec::new();
    let mut i: usize = 0;
    let mut k: usize = 0;
    proof {
        assert(all.skip(0) =~= all);
        assert(chosen@.skip(0) =~= chosen@);
        assert(publishes(out@) + assigned(all, chosen@) =~= assigned(all, chosen@));
    }
    while i < ports.len()
        invariant
            i <= ports.len(),
            k <= chosen.len(),
            all == publishes(ports@),
            publishes(out@) + assigned(all.skip(i as int), chosen@.skip(k as int)) == assigned(
                all,
                chosen@,
            ),
        decreases ports.len() - i,
    {
        let ghost before = publishes(out@);
        let ghost rest = all.skip(i as int);
        let ghost left = chosen@.skip(k as int);
        let mut p = copy_port(&ports[i]);
        proof {
            assert(rest[0] == ports[i as int]@);
            assert(rest.skip(1) =~= all.skip(i + 1));
            if left.len() > 0 {
                assert(left.skip(1) =~= chosen@.skip(k + 1));
            }
        }
        if p.ephemeral_port.is_none() && k < chosen.len() {
            p.ephemeral_port = Some(chosen[k]);
            k = k + 1;
        }
        let ghost pv = p@;
        let ghost sofar = out@;
        out.push(p);
        proof {
            assert(publishes(out@) =~= publishes(sofar).push(pv));
            let tail = assigned(all.skip(i + 1), chosen@.skip(k as int));
            assert(before.push(pv) + tail =~= before + (seq![pv] + tail));
        }
        i = i + 1;
    }
    proof {
        assert(all.skip(i as int) =~= Seq::<Publish>::empty());
        assert(publishes(out@) + Seq::<Publish>::empty() =~= publishes(out@));
    }
    out
}

/// Once as many ports were chosen as were missing, every mapping has one.
pub proof fn law_every_port_assigned(ports: Seq<Publish>, chosen: Seq<u16>, i: int)
    requires
        chosen.len() >= missing(ports),
        0 <= i < ports.len(),
    ensures
        assigned(ports, chosen).len() == ports.len(),
        assigned(ports, chosen)[i].ephemeral_port is Some,
        ports[i].ephemeral_port is Some ==> assigned(ports, chosen)[i] == ports[i],
        assigned(ports, chosen)[i].host_port == ports[i].host_port,
        assigned(ports, chosen)[i].container_port == ports[i].container_port,
    decreases ports.len(),
{
    let rest = ports.skip(1);
    let next = if ports[0].ephemeral_port is Some || chosen.len() == 0 {
        chosen
    } else {
        chosen.skip(1)
    };
    if i > 0 {
        law_every_port_assigned(rest, next, i - 1);
        assert(rest[i - 1] == ports[i]);
    } else if rest.len() > 0 {
        law_every_port_assigned(rest, next, 0);
    }
}

/// How many of the mappings have no port.
pub open spec fn missing(ports: Seq<Publish>) -> nat
    decreases ports.len(),
{
    if ports.len() == 0 {
        0
    } else {
        missing(ports.skip(1)) + if ports[0].ephemeral_port is None {
            1nat
        } else {
            0nat
        }
    }
}

/// A right that a launch plan asks for.
pub struct PlanAce {
    pub path: String,
    pub inherit: bool,
}

/// The record of a right that was given to `sid`; the right is to read and to
/// execute.
pub open spec fn grant_of(ace: PlanAce, sid: Seq<char>) -> AceGrant {
    AceGrant { path: ace.path@, sid, mask: "RX"@, inherit: ace.inherit }
}

/// `refs` with `dir`, once.
pub open spec fn with_ref(refs: Seq<Seq<char>>, dir: Seq<char>) -> Seq<Seq<char>> {
    if refs.contains(dir) {
        refs
    } else {
        refs.push(dir)
    }
}

/// Records in the state of a container what a staged shell has left: the rights
/// that were given, and the cache that it uses.
pub fn record_plan(file: &mut StateFile, aces: &Vec<PlanAce>, sid: &str, cache_dir: &str)
    ensures
        grants(final(file).ace_grants_applied@) == grants(old(file).ace_grants_applied@)
            + Seq::new(aces@.len(), |i: int| grant_of(aces@[i], sid@)),
        texts(final(file).cache_refs@) == with_ref(texts(old(file).cache_refs@), cache_dir@),
        final(file).status == old(file).status,
        final(file).created == old(file).created,
        final(file).pid == old(file).pid,
        final(file).silo_id == old(file).silo_id,
        final(file).ports == old(file).ports,
{
    let ghost before = grants(file.ace_grants_applied@);
    let ghost new = Seq::new(aces@.len(), |i: int| grant_of(aces@[i], sid@));
    let mut i: usize = 0;
    assert(before + new.take(0) =~= before);
    while i < aces.len()
        invariant
            i <= aces.len(),
            new == Seq::new(aces@.len(), |i: int| grant_of(aces@[i], sid@)),
            grants(file.ace_grants_applied@) == before + new.take(i as int),
            file.cache_refs == old(file).cache_refs,
            file.status == old(file).status,
            file.created == old(file).created,
            file.pid == old(file).pid,
            file.silo_id == old(file).silo_id,
            file.ports == old(file).ports,
        decreases aces.len() - i,
    {
        let ghost sofar = file.ace_grants_applied@;
        let r = AceGrantRecord {
            path: aces[i].path.clone(),
            sid: sid.to_owned(),
            mask: "RX".to_owned(),
            inherit: aces[i].inherit,
        };
        file.ace_grants_applied.push(r);
        proof {
            assert(grants(file.ace_grants_applied@) =~= grants(sofar).push(r@));
            assert(new.take(i + 1) =~= new.take(i as int).push(new[i as int]));
            assert((before + new.take(i as int)).push(r@) =~= before + new.take(i + 1));
        }
        i = i + 1;
    }
    assert(new.take(new.len() as int) =~= new);
    if !crate::container::rootfs::list_has(&file.cache_refs, cache_dir) {
        let ghost refs = file.cache_refs@;
        file.cache_refs.push(cache_dir.to_owned());
        assert(texts(file.cache_refs@) =~= texts(refs).push(cache_dir@));
    }
}

/// What is done after an attempt to remove a container's files.
#[derive(Clone, Copy, Debug, PartialEq, Eq, Structural)]
pub enum RemovalStep {
    Done,
    Retry,
    GiveUp,
}

/// The number of attempts to remove a container's files.
pub const REMOVAL_ATTEMPTS: u32 = 3;

/// What is done after the attempt with this number, from 0 on.
pub open spec fn after_removal(attempt: u32, removed: bool) -> RemovalStep {
    if removed {
        RemovalStep::Done
    } else if attempt + 1 < REMOVAL_ATTEMPTS {
        RemovalStep::Retry
    } else {
        RemovalStep::GiveUp
    }
}

/// Files that are gone are never removed again, and those that stay are tried
/// three times in all.
pub proof fn law_removal_is_tried_three_times(attempt: u32, removed: bool)
    ensures
        after_removal(attempt, removed) == RemovalStep::Done <==> removed,
        after_removal(attempt, false) == RemovalStep::Retry <==> attempt == 0 || attempt == 1,
        after_removal(attempt, false) == RemovalStep::GiveUp <==> attempt >= 2,
{
}

/// What is done after the attempt with this number, from 0 on: processes may
/// still be letting go of files, so it is made three times.
pub fn removal_step(attempt: u32, removed: bool) -> (s: RemovalStep)
    ensures
        s == after_removal(attempt, removed),
{
    if removed {
        RemovalStep::Done
    } else if attempt < REMOVAL_ATTEMPTS - 1 {
        RemovalStep::Retry
    } else {
        RemovalStep::GiveUp
    }
}

/// The state after a start (`true`) or a stop was asked for: one that was
/// created runs when it is started, one that runs is stopped, and nothing else
/// changes the state.
pub open spec fn next_state(s: ContainerState, start: bool) -> ContainerState {
    if start && s == ContainerState::Created {
        ContainerState::Running
    } else if !start && s == ContainerState::Running {
        ContainerState::Stopped
    } else {
        s
    }
}

/// Once stopped, a container stays so whatever is asked of it.
pub proof fn law_stopped_is_final(s: ContainerState, asked: Seq<bool>)
    requires
        s == ContainerState::Stopped,
    ensures
        states_after(s, asked) == ContainerState::Stopped,
    decreases asked.len(),
{
    if asked.len() > 0 {
        law_stopped_is_final(s, asked.drop_last());
    }
}

/// The state after starts (`true`) and stops were asked for in turn.
pub open spec fn states_after(s: ContainerState, asked: Seq<bool>) -> ContainerState
    decreases asked.len(),
{
    if asked.len() == 0 {
        s
    } else {
        next_state(states_after(s, asked.drop_last()), asked.last())
    }
}

/// What is known of a container that could be meant.
pub struct Known {
    pub id: String,
    pub name: Option<String>,
}

/// Whether a container is meant by `key`.
pub open spec fn goes_by(k: Known, key: Seq<char>) -> bool {
    k.id@ == key || match k.name {
        Some(n) => n@ == key,
        None => false,
    }
}

/// Whether `key` means the container at `i`: the first with that id, or, where
/// no container has it, the first with that name.
pub open spec fn meant(all: Seq<Known>, key: Seq<char>, i: int) -> bool {
    &&& 0 <= i < all.len()
    &&& goes_by(all[i], key)
    &&& all[i].id@ == key || forall|j: int| 0 <= j < all.len() ==> (#[trigger] all[j]).id@ != key
    &&& forall|j: int|
        0 <= j < i ==> if all[i].id@ == key {
            (#[trigger] all[j]).id@ != key
        } else {
            !goes_by(all[j], key)
        }
}

/// The container that `key` means: the one with that id, else the first with
/// that name.
pub fn find_container(all: &Vec<Known>, key: &str) -> (r: Option<usize>)
    ensures
        match r {
            Some(i) => meant(all@, key@, i as int),
            None => forall|j: int| 0 <= j < all.len() ==> !goes_by(#[trigger] all@[j], key@),
        },
{
    let mut i: usize = 0;
    while i < all.len()
        invariant
            i <= all.len(),
            forall|j: int| 0 <= j < i ==> (#[trigger] all@[j]).id@ != key@,
        decreases all.len() - i,
    {
        if same(all[i].id.as_str(), key) {
            return Some(i);
        }
        i = i + 1;
    }
    let mut k: usize = 0;
    while k < all.len()
        invariant
            k <= all.len(),
            forall|j: int| 0 <= j < all.len() ==> (#[trigger] all@[j]).id@ != key@,
            forall|j: int| 0 <= j < k ==> !goes_by(#[trigger] all@[j], key@),
        decreases all.len() - k,
    {
        if let Some(n) = &all[k].name {
            if same(n.as_str(), key) {
                return Some(k);
            }
        }
        k = k + 1;
    }
    None
}

/// The container that `key` means; the error says that there is none.
pub fn locate(all: &Vec<Known>, key: &str) -> (r: Result<usize, PsrootError>)
    ensures
        match r {
            Ok(i) => meant(all@, key@, i as int),
            Err(e) => e@ == (Failure::NotFound { id: key@ }) && forall|j: int|
                0 <= j < all.len() ==> !goes_by(#[trigger] all@[j], key@),
        },
{
    match find_container(all, key) {
        Some(i) => Ok(i),
        None => Err(PsrootError::NotFound { id: key.to_owned() }),
    }
}

/// Loading a container gives back what was saved of it: the configuration that
/// it was made with, and the last state that was written, but for one that was
/// running, which is stopped. `now` is the container when it was saved last.
/// Saving it again keeps what is recorded of rights and of the cache.
pub proof fn law_load_gives_back(
    id: Seq<char>,
    root: Seq<char>,
    config: ContainerConfig,
    created: Seq<char>,
    made: Container,
    now: Container,
    existing: Option<StateFile>,
    file: StateFile,
    loaded: Container,
    again: StateFile,
)
    requires
        made.is_new(id, root, config, created),
        now.same_identity(Container { config: now.config, ..made }),
        now.writes(existing, file),
        loaded.is_loaded(id, root, made.config, file),
        loaded.writes(Some(file), again),
    ensures
        loaded.id@ == id,
        loaded.dir@ == made.dir@,
        loaded.created@ == created,
        loaded.config == made.config,
        loaded.state == (if now.state == ContainerState::Running {
            ContainerState::Stopped
        } else {
            now.state
        }),
        now == made ==> loaded.state == ContainerState::Created,
        again.status == loaded.state,
        again.created@ == file.created@,
        again.ace_grants_applied == file.ace_grants_applied,
        again.cache_refs == file.cache_refs,
{
}

/// The rights that are needed to put a library into a process.
pub const INJECTION_RIGHTS: u32 = 0x43a;

/// The variables that tell a container's server its port: `PORT` for the first
/// mapping, and one with the published port in its name for each.
pub open spec fn port_vars(ports: Seq<Publish>) -> Seq<(Seq<char>, Seq<char>)>
    decreases ports.len(),
{
    if ports.len() == 0 {
        Seq::empty()
    } else {
        let p = ports.last();
        let rest = port_vars(ports.drop_last());
        match p.ephemeral_port {
            Some(e) => rest + (if rest.len() == 0 {
                seq![("PORT"@, decimal(e as nat))]
            } else {
                Seq::empty()
            }) + seq![("PSROOT_PORT_"@ + decimal(p.container_port as nat), decimal(e as nat))],
            None => rest,
        }
    }
}

/// The variables that tell a container's server its port.
pub fn env_for_mappings(ports: &Vec<PortMapping>) -> (v: Vec<(String, String)>)
    ensures
        crate::container::env::pairs(v@) == port_vars(publishes(ports@)),
{
    let ghost all = publishes(ports@);
    let mut v: Vec<(String, String)> = Vec::new();
    let mut i: usize = 0;
    proof {
        assert(all.take(0) =~= Seq::<Publish>::empty());
        assert(crate::container::env::pairs(v@) =~= Seq::<(Seq<char>, Seq<char>)>::empty());
    }
    while i < ports.len()
        invariant
            i <= ports.len(),
            all == publishes(ports@),
            crate::container::env::pairs(v@) == port_vars(all.take(i as int)),
        decreases ports.len() - i,
    {
        proof {
            let t = all.take(i + 1);
            assert(t.drop_last() =~= all.take(i as int));
            assert(t.last() == ports[i as int]@);
        }
        if let Some(e) = ports[i].ephemeral_port {
            let ghost sofar = v@;
            let value = decimal_text(e as u128);
            let number = decimal_text(ports[i].container_port as u128);
            let name = concat2("PSROOT_PORT_", number.as_str());
            if v.len() == 0 {
                v.push(("PORT".to_owned(), value.clone()));
            }
            v.push((name, value));
            proof {
                let old_pairs = crate::container::env::pairs(sofar);
                assert(crate::container::env::pairs(v@) =~= old_pairs + (if old_pairs.len() == 0 {
                    seq![("PORT"@, decimal(e as nat))]
                } else {
                    Seq::empty()
                }) + seq![(name@, decimal(e as nat))]);
            }
        }
        i = i + 1;
    }
    assert(all.take(all.len() as int) =~= all);
    v
}

/// Every mapping with a chosen port tells its server: a variable with its
/// container port in its name, whatever its host port is, holds the chosen port,
/// and so does `PORT` for the first of them.
pub proof fn law_port_variables(ports: Seq<Publish>, i: int)
    requires
        0 <= i < ports.len(),
    ensures
        ports[i].ephemeral_port matches Some(e) ==> port_vars(ports).contains(
            ("PSROOT_PORT_"@ + decimal(ports[i].container_port as nat), decimal(e as nat)),
        ),
        ports[i].ephemeral_port matches Some(e) ==> ((forall|j: int|
            0 <= j < i ==> (#[trigger] ports[j]).ephemeral_port is None) ==> port_vars(ports)[0]
            == ("PORT"@, decimal(e as nat))),
    decreases ports.len(),
{
    let init = ports.drop_last();
    let v = port_vars(ports);
    let u = port_vars(init);
    lemma_port_vars_empty(init);
    if i < init.len() {
        law_port_variables(init, i);
        assert(init[i] == ports[i]);
        if let Some(e) = ports[i].ephemeral_port {
            let x = ("PSROOT_PORT_"@ + decimal(ports[i].container_port as nat), decimal(e as nat));
            let k = choose|k: int| 0 <= k < u.len() && u[k] == x;
            assert(v[k] == x);
            if forall|j: int| 0 <= j < i ==> (#[trigger] ports[j]).ephemeral_port is None {
                assert forall|j: int| 0 <= j < i implies (#[trigger] init[j]).ephemeral_port
                    is None by {
                    assert(init[j] == ports[j]);
                }
                assert(v[0] == u[0]);
            }
        }
    } else if let Some(e) = ports[i].ephemeral_port {
        assert(v.last() == (
            "PSROOT_PORT_"@ + decimal(ports[i].container_port as nat),
            decimal(e as nat),
        ));
        assert(v[v.len() - 1] == v.last());
        if forall|j: int| 0 <= j < i ==> (#[trigger] ports[j]).ephemeral_port is None {
            assert forall|j: int| 0 <= j < init.len() implies (#[trigger] init[j]).ephemeral_port
                is None by {
                assert(init[j] == ports[j]);
            }
            assert(v[0] == ("PORT"@, decimal(e as nat)));
        }
    }
}

proof fn lemma_port_vars_empty(ports: Seq<Publish>)
    ensures
        port_vars(ports).len() == 0 <==> forall|j: int|
            0 <= j < ports.len() ==> (#[trigger] ports[j]).ephemeral_port is None,
    decreases ports.len(),
{
    if ports.len() > 0 {
        let init = ports.drop_last();
        lemma_port_vars_empty(init);
        assert(ports[ports.len() - 1] == ports.last());
        if port_vars(ports).len() == 0 {
            assert forall|j: int| 0 <= j < ports.len() implies (#[trigger] ports[j]).ephemeral_port
                is None by {
                if j < init.len() {
                    assert(init[j] == ports[j]);
                }
            }
        } else if forall|j: int|
            0 <= j < ports.len() ==> (#[trigger] ports[j]).ephemeral_port is None {
            assert forall|j: int| 0 <= j < init.len() implies (#[trigger] init[j]).ephemeral_port
                is None by {
                assert(init[j] == ports[j]);
            }
        }
    }
}

/// No variable speaks of a port that was not chosen: each but `PORT` is that of
/// a mapping, and without a chosen port there is none at all.
pub proof fn law_port_variables_are_chosen(ports: Seq<Publish>, k: int)
    requires
        0 <= k < port_vars(ports).len(),
    ensures
        k == 0 <==> port_vars(ports)[k].0 == "PORT"@,
        exists|i: int|
            0 <= i < ports.len() && (#[trigger] ports[i]).ephemeral_port is Some
                && port_vars(ports)[k].1 == decimal(ports[i].ephemeral_port->0 as nat) && (k == 0
                || port_vars(ports)[k].0 == "PSROOT_PORT_"@ + decimal(
                ports[i].container_port as nat,
            )),
    decreases ports.len(),
{
    reveal_strlit("PORT");
    reveal_strlit("PSROOT_PORT_");
    let init = ports.drop_last();
    let v = port_vars(ports);
    let u = port_vars(init);
    assert("PORT"@.len() == 4 && "PSROOT_PORT_"@.len() == 12);
    assert(ports[ports.len() - 1] == ports.last());
    if k < u.len() {
        law_port_variables_are_chosen(init, k);
        assert(v[k] == u[k]);
        let i = choose|i: int|
            0 <= i < init.len() && (#[trigger] init[i]).ephemeral_port is Some && u[k].1 == decimal(
                init[i].ephemeral_port->0 as nat,
            ) && (k == 0 || u[k].0 == "PSROOT_PORT_"@ + decimal(init[i].container_port as nat));
        assert(ports[i] == init[i]);
    } else {
        assert(v[k].1 == decimal(ports.last().ephemeral_port->0 as nat));
    }
}

/// The ports that were chosen go to the mappings without one, in order, and
/// nothing else of a mapping changes.
pub proof fn law_ports_assigned_in_order(ports: Seq<Publish>, chosen: Seq<u16>, i: int)
    requires
        0 <= i < ports.len(),
    ensures
        assigned(ports, chosen).len() == ports.len(),
        assigned(ports, chosen)[i] == (Publish {
            ephemeral_port: assigned(ports, chosen)[i].ephemeral_port,
            ..ports[i]
        }),
        assigned(ports, chosen)[i].ephemeral_port == (match ports[i].ephemeral_port {
            Some(e) => Some(e),
            None => if missing(ports.take(i)) < chosen.len() {
                Some(chosen[missing(ports.take(i)) as int])
            } else {
                None
            },
        }),
    decreases ports.len(),
{
    let rest = ports.skip(1);
    let next = if ports[0].ephemeral_port is Some || chosen.len() == 0 {
        chosen
    } else {
        chosen.skip(1)
    };
    lemma_assigned_len(rest, next);
    if i > 0 {
        law_ports_assigned_in_order(rest, next, i - 1);
        assert(rest[i - 1] == ports[i]);
        assert(ports.take(i).skip(1) =~= rest.take(i - 1));
        assert(ports.take(i)[0] == ports[0]);
    } else {
        assert(ports.take(0).len() == 0);
    }
}

proof fn lemma_assigned_len(ports: Seq<Publish>, chosen: Seq<u16>)
    ensures
        assigned(ports, chosen).len() == ports.len(),
    decreases ports.len(),
{
    if ports.len() > 0 {
        lemma_assigned_len(ports.skip(1), chosen);
        if chosen.len() > 0 {
            lemma_assigned_len(ports.skip(1), chosen.skip(1));
        }
    }
}

/// Where a container's files are: below the data directory, each container in a
/// directory of its id, and its root there unless another was configured.
pub proof fn law_container_directories(
    root: Seq<char>,
    id: Seq<char>,
    config: ContainerConfig,
    created: Seq<char>,
    made: Container,
)
    requires
        made.is_new(id, root, config, created),
        id.len() > 2,
        id[1] != ':',
        forall|i: int| 0 <= i < id.len() ==> id[i] != '\\' && id[i] != '/',
    ensures
        made.dir@ == inside(root) + "containers\\"@ + id,
        config.rootfs_path@.len() == 0 ==> made.config.rootfs_path@ == made.dir@ + "\\rootfs"@,
        config.rootfs_path@.len() > 0 ==> made.config.rootfs_path@ == config.rootfs_path@,
        made.state == ContainerState::Created,
        made.runtime is None,
{
    reveal_strlit("containers");
    reveal_strlit("containers\\");
    reveal_strlit("rootfs");
    reveal_strlit("\\rootfs");
    let c = joined_path(root, "containers"@);
    law_join_goes_below(root, "containers"@);
    law_join_goes_below(c, id);
    assert(c.last() == 's');
    assert(inside(c) =~= inside(root) + "containers\\"@);
    let d = joined_path(c, id);
    assert(d =~= inside(root) + "containers\\"@ + id);
    law_join_goes_below(d, "rootfs"@);
    assert(d.last() == id.last());
    assert(inside(d) + "rootfs"@ =~= d + "\\rootfs"@);
}

/// The data directory is the configured one; else `Psroot` in the directory for
/// local data, or in a directory of drive C where the host has none.
pub proof fn law_data_directory(
    configured: Seq<char>,
    local: Seq<char>,
    other: Option<Seq<char>>,
)
    ensures
        data_root(Some(configured), other) == configured,
        data_root(None, Some(local)) == inside(local) + "Psroot"@,
        data_root(None, None) == "C:\\PsrootData\\Psroot"@,
{
    reveal_strlit("Psroot");
    reveal_strlit("C:\\PsrootData");
    reveal_strlit("C:\\PsrootData\\Psroot");
    law_join_goes_below(local, "Psroot"@);
    law_join_goes_below("C:\\PsrootData"@, "Psroot"@);
    assert(inside("C:\\PsrootData"@) + "Psroot"@ =~= "C:\\PsrootData\\Psroot"@);
}

/// An id is `psroot-` with the first eight digits of a UUID, so containers whose
/// UUIDs begin differently have different ids.
pub proof fn law_ids(a: Seq<char>, b: Seq<char>)
    requires
        a.len() == 36,
        b.len() == 36,
    ensures
        id_from(a) == "psroot-"@ + a.take(8),
        id_from(a) == id_from(b) ==> a.take(8) == b.take(8),
{
    let n = "psroot-"@.len() as int;
    assert(id_from(a).skip(n) =~= a.take(8));
    assert(id_from(b).skip(n) =~= b.take(8));
}

/// A container is created, runs once it is started, and is stopped once it runs;
/// nothing else moves it. Its state goes by these names.
pub proof fn law_states(s: ContainerState)
    ensures
        next_state(s, true) == ContainerState::Running <==> s != ContainerState::Stopped,
        next_state(s, false) == ContainerState::Stopped <==> s != ContainerState::Created,
        next_state(ContainerState::Created, false) == ContainerState::Created,
        next_state(ContainerState::Stopped, true) == ContainerState::Stopped,
        s == ContainerState::Created ==> s.label() == "created"@,
        s == ContainerState::Running ==> s.label() == "running"@,
        s == ContainerState::Stopped ==> s.label() == "stopped"@,
{
}

/// A staged shell gives its container the right to read and run what the plan
/// names, and no other right, and a cache is referred to once.
pub proof fn law_recorded_rights(ace: PlanAce, sid: Seq<char>, refs: Seq<Seq<char>>, dir: Seq<char>)
    ensures
        grant_of(ace, sid).path == ace.path@,
        grant_of(ace, sid).sid == sid,
        grant_of(ace, sid).mask == "RX"@,
        grant_of(ace, sid).inherit == ace.inherit,
        with_ref(refs, dir).contains(dir),
        refs.is_prefix_of(with_ref(refs, dir)),
        refs.contains(dir) ==> with_ref(refs, dir) == refs,
        with_ref(with_ref(refs, dir), dir) == with_ref(refs, dir),
{
    let w = with_ref(refs, dir);
    if !refs.contains(dir) {
        assert(w[refs.len() as int] == dir);
        assert(w.take(refs.len() as int) =~= refs);
    }
}

/// A directory whose state can be read is listed, under its own name and with
/// what it holds, and nothing else is.
pub proof fn law_containers_are_listed(found: Seq<Found>, i: int, x: Listed)
    requires
        0 <= i < found.len(),
    ensures
        found[i].directory && found[i].state is Some ==> containers_in(found).contains(
            Listed {
                id: found[i].name@,
                status: found[i].state->0.status,
                created: found[i].state->0.created@,
                ports: publishes(found[i].state->0.ports@),
            },
        ),
        containers_in(found).contains(x) ==> exists|j: int|
            0 <= j < found.len() && (#[trigger] found[j]).directory && found[j].state is Some && x.id
                == found[j].name@ && x.status == found[j].state->0.status && x.created
                == found[j].state->0.created@ && x.ports == publishes(found[j].state->0.ports@),
    decreases found.len(),
{
    let init = found.drop_last();
    let v = containers_in(found);
    let u = containers_in(init);
    assert(found[found.len() - 1] == found.last());
    if i < init.len() {
        law_containers_are_listed(init, i, x);
        assert(init[i] == found[i]);
        let y = Listed {
            id: found[i].name@,
            status: found[i].state->0.status,
            created: found[i].state->0.created@,
            ports: publishes(found[i].state->0.ports@),
        };
        if found[i].directory && found[i].state is Some {
            let k = choose|k: int| 0 <= k < u.len() && u[k] == y;
            assert(v[k] == y);
        }
    } else {
        if found[i].directory && found[i].state is Some {
            assert(v[u.len() as int] == v.last());
        }
        if init.len() > 0 {
            law_containers_are_listed(init, 0, x);
        }
    }
    if v.contains(x) {
        let k = choose|k: int| 0 <= k < v.len() && v[k] == x;
        if k < u.len() {
            assert(u[k] == x);
            let j = choose|j: int|
                0 <= j < init.len() && (#[trigger] init[j]).directory && init[j].state is Some
                    && x.id == init[j].name@ && x.status == init[j].state->0.status && x.created
                    == init[j].state->0.created@ && x.ports == publishes(init[j].state->0.ports@);
            assert(found[j] == init[j]);
        }
    }
}

/// A key means one container at most, and an id goes before a name.
pub proof fn law_key_means_one(all: Seq<Known>, key: Seq<char>, i: int, j: int)
    requires
        meant(all, key, i),
    ensures
        meant(all, key, j) ==> i == j,
        0 <= j < all.len() && all[j].id@ == key ==> all[i].id@ == key && i <= j,
        all[i].id@ != key ==> (all[i].name matches Some(n) && n@ == key),
{
}

/// A library is put into a process with the rights to make a thread, to work on
/// its memory, to read and write it, and to ask about it, and with no others.
pub proof fn law_injection_rights()
    ensures
        INJECTION_RIGHTS == 0x2u32 | 0x8 | 0x10 | 0x20 | 0x400,
{
    assert(0x43au32 == 0x2u32 | 0x8 | 0x10 | 0x20 | 0x400) by (bit_vector);
}

/// An operation that the state does not allow fails with the container's id, the
/// state that it is in and the one that it would have to be in.
pub proof fn law_wrong_state(id: Seq<char>, s: ContainerState)
    ensures
        wrong_state(id, s.label(), "running"@) == (Failure::InvalidState {
            id,
            current: s.label(),
            expected: "running"@,
        }),
{
}

/// A container goes by its id, and by its name where it has one.
pub proof fn law_keys(k: Known, key: Seq<char>)
    ensures
        goes_by(k, key) <==> k.id@ == key || (k.name is Some && k.name->0@ == key),
{
}

} // verus!
