//! The configuration of a container.

use vstd::prelude::*;

verus! {

/// How much of the network a container reaches.
#[derive(Clone, Copy, Debug, PartialEq, Eq, Structural)]
pub enum NetworkAccess {
    /// No network at all.
    Off,
    Outbound,
    Full,
    /// A network stack of the container's own.
    Netstack,
}

/// The security profile of a container.
#[derive(Clone, Copy, Debug, PartialEq, Eq, Structural)]
pub enum SecurityProfile {
    Default,
}

/// What a container may use of the host.
#[derive(Clone, Copy, Debug, PartialEq, Eq, Structural)]
pub struct ResourceLimits {
    /// Bytes of memory; 0 for no limit.
    pub memory: u64,
    /// Hundredths of a percent of the processor; 10000 for no limit.
    pub cpu_rate: u32,
    /// Processes; 0 for no limit.
    pub max_processes: u32,
    /// The processors to run on, one per bit; 0 for all.
    pub affinity: u64,
    /// The priority class; 0 for the default.
    pub priority_class: u32,
}

/// A directory of the host that a container sees.
#[derive(Clone, Debug)]
pub struct VolumeMount {
    pub host_path: String,
    pub container_path: String,
    pub read_only: bool,
}

/// What a volume mount holds.
#[verifier::ext_equal]
pub struct Mount {
    pub host_path: Seq<char>,
    pub container_path: Seq<char>,
    pub read_only: bool,
}

impl View for VolumeMount {
    type V = Mount;

    open spec fn view(&self) -> Mount {
        Mount {
            host_path: self.host_path@,
            container_path: self.container_path@,
            read_only: self.read_only,
        }
    }
}

/// The contents of a list of volume mounts.
pub open spec fn mounts(v: Seq<VolumeMount>) -> Seq<Mount> {
    Seq::new(v.len(), |i: int| v[i]@)
}

/// A port of a container that the host publishes.
#[derive(Clone, Debug)]
pub struct PortMapping {
    pub host_bind: String,
    pub host_port: u16,
    pub container_port: u16,
    /// The port that the container's server really listens on, once chosen.
    pub ephemeral_port: Option<u16>,
    pub name: Option<String>,
}

/// What a port mapping holds.
#[verifier::ext_equal]
pub struct Publish {
    pub host_bind: Seq<char>,
    pub host_port: u16,
    pub container_port: u16,
    pub ephemeral_port: Option<u16>,
    pub name: Option<Seq<char>>,
}

/// The contents of an optional string.
pub open spec fn text_of(s: Option<String>) -> Option<Seq<char>> {
    match s {
        Some(t) => Some(t@),
        None => None,
    }
}

impl View for PortMapping {
    type V = Publish;

    open spec fn view(&self) -> Publish {
        Publish {
            host_bind: self.host_bind@,
            host_port: self.host_port,
            container_port: self.container_port,
            ephemeral_port: self.ephemeral_port,
            name: text_of(self.name),
        }
    }
}

/// The contents of a list of port mappings.
pub open spec fn publishes(v: Seq<PortMapping>) -> Seq<Publish> {
    Seq::new(v.len(), |i: int| v[i]@)
}

/// What a container is made from.
#[derive(Clone, Debug)]
pub struct ContainerConfig {
    pub name: Option<String>,
    pub rootfs_path: String,
    pub command: Vec<String>,
    /// Environment variables, each name once.
    pub env: Vec<(String, String)>,
    pub resources: ResourceLimits,
    pub volumes: Vec<VolumeMount>,
    pub hostname: Option<String>,
    pub working_directory: String,
    pub silo: bool,
    pub tools: Vec<String>,
    pub shares: Vec<String>,
    pub security_profile: SecurityProfile,
    pub network: NetworkAccess,
    pub ports: Vec<PortMapping>,
}

/// What a configuration holds.
#[verifier::ext_equal]
pub struct ConfigModel {
    pub name: Option<Seq<char>>,
    pub rootfs_path: Seq<char>,
    pub command: Seq<Seq<char>>,
    pub env: Seq<(Seq<char>, Seq<char>)>,
    pub resources: ResourceLimits,
    pub volumes: Seq<Mount>,
    pub hostname: Option<Seq<char>>,
    pub working_directory: Seq<char>,
    pub silo: bool,
    pub tools: Seq<Seq<char>>,
    pub shares: Seq<Seq<char>>,
    pub security_profile: SecurityProfile,
    pub network: NetworkAccess,
    pub ports: Seq<Publish>,
}

impl View for ContainerConfig {
    type V = ConfigModel;

    open spec fn view(&self) -> ConfigModel {
        ConfigModel {
            name: text_of(self.name),
            rootfs_path: self.rootfs_path@,
            command: crate::text::texts(self.command@),
            env: crate::container::env::pairs(self.env@),
            resources: self.resources,
            volumes: mounts(self.volumes@),
            hostname: text_of(self.hostname),
            working_directory: self.working_directory@,
            silo: self.silo,
            tools: crate::text::texts(self.tools@),
            shares: crate::text::texts(self.shares@),
            security_profile: self.security_profile,
            network: self.network,
            ports: publishes(self.ports@),
        }
    }
}

impl Default for ResourceLimits {
    /// A gibibyte of memory, the whole processor, and a hundred processes.
    fn default() -> (l: Self)
        ensures
            l == usual_limits(),
    {
        ResourceLimits {
            memory: 0x4000_0000,
            cpu_rate: 10_000,
            max_processes: 100,
            affinity: 0,
            priority_class: 0,
        }
    }
}

/// The limits where none are asked for.
pub open spec fn usual_limits() -> ResourceLimits {
    ResourceLimits {
        memory: 0x4000_0000,
        cpu_rate: 10_000,
        max_processes: 100,
        affinity: 0,
        priority_class: 0,
    }
}

/// Where nothing is asked for, a container has a gibibyte of memory, the whole
/// processor and a hundred processes, on any processor and at the usual
/// priority.
pub proof fn law_usual_limits()
    ensures
        usual_limits().memory == 1024 * 1024 * 1024,
        usual_limits().cpu_rate == 100 * 100,
        usual_limits().max_processes == 100,
        usual_limits().affinity == 0,
        usual_limits().priority_class == 0,
{
}

/// Why an operation on a container failed.
#[derive(Clone, Debug)]
pub enum PsrootError {
    Other(String),
    NotFound { id: String },
    InvalidState { id: String, current: String, expected: String },
    /// The host cannot do this.
    Unsupported { detail: String },
    /// A Windows function failed with this error code.
    Win32 { op: String, code: u32 },
    /// A function failed with this HRESULT.
    Hresult { op: String, code: u32 },
    /// A system call failed with this status.
    Nt { op: String, status: u32 },
}

/// What an error holds.
#[verifier::ext_equal]
pub enum Failure {
    Other(Seq<char>),
    NotFound { id: Seq<char> },
    InvalidState { id: Seq<char>, current: Seq<char>, expected: Seq<char> },
    Unsupported { detail: Seq<char> },
    Win32 { op: Seq<char>, code: u32 },
    Hresult { op: Seq<char>, code: u32 },
    Nt { op: Seq<char>, status: u32 },
}

impl View for PsrootError {
    type V = Failure;

    open spec fn view(&self) -> Failure {
        match self {
            PsrootError::Other(s) => Failure::Other(s@),
            PsrootError::NotFound { id } => Failure::NotFound { id: id@ },
            PsrootError::InvalidState { id, current, expected } => Failure::InvalidState {
                id: id@,
                current: current@,
                expected: expected@,
            },
            PsrootError::Unsupported { detail } => Failure::Unsupported { detail: detail@ },
            PsrootError::Win32 { op, code } => Failure::Win32 { op: op@, code: *code },
            PsrootError::Hresult { op, code } => Failure::Hresult { op: op@, code: *code },
            PsrootError::Nt { op, status } => Failure::Nt { op: op@, status: *status },
        }
    }
}

impl PsrootError {
    /// A Windows function failed with this error code.
    pub fn win32(op: &str, code: u32) -> (e: Self)
        ensures
            e@ == (Failure::Win32 { op: op@, code }),
    {
        PsrootError::Win32 { op: op.to_owned(), code }
    }

    /// A function failed with this HRESULT.
    pub fn hr(op: &str, code: u32) -> (e: Self)
        ensures
            e@ == (Failure::Hresult { op: op@, code }),
    {
        PsrootError::Hresult { op: op.to_owned(), code }
    }

    /// A system call failed with this status.
    pub fn nt(op: &str, status: u32) -> (e: Self)
        ensures
            e@ == (Failure::Nt { op: op@, status }),
    {
        PsrootError::Nt { op: op.to_owned(), status }
    }
}

} // verus!
