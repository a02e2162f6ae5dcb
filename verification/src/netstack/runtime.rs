//! The network stack of one container as the host runs it: its address, the
//! shared memory it is reached through, and what its processes are told.

use crate::container::sandbox::{inside, join_path, joined_path, law_join_goes_below};
use crate::netstack::nat_backend::{HostAddr, HostEndpoint};
use crate::paths::{parent, parent_of};
use crate::text::{concat2, concat3, decimal, decimal_text};
use vstd::prelude::*;
use vstd::utf8::encode_utf8;

verus! {

/// The first three octets of every container's address.
pub const DEFAULT_VIRTUAL_SUBNET: [u8; 3] = [10, 88, 0];

/// The number that a container's address is derived from.
pub open spec fn id_hash(bytes: Seq<u8>) -> nat
    decreases bytes.len(),
{
    if bytes.len() == 0 {
        0
    } else {
        (id_hash(bytes.drop_last()) * 31 + bytes.last() as nat) % 0x1_0000_0000
    }
}

/// The last octet of a container's address: from 2 to 251.
pub open spec fn low_octet(id: Seq<char>) -> nat {
    id_hash(encode_utf8(id)) % 250 + 2
}

/// The address of a container.
pub fn virtual_ip_for(container_id: &str) -> (ip: [u8; 4])
    ensures
        ip@ == seq![10u8, 88u8, 0u8, low_octet(container_id@) as u8],
        2 <= ip[3] <= 251,
{
    let bytes = container_id.as_bytes();
    let mut hash: u32 = 0;
    let mut i: usize = 0;
    assert(bytes@.take(0) =~= Seq::<u8>::empty());
    while i < bytes.len()
        invariant
            i <= bytes.len(),
            hash == id_hash(bytes@.take(i as int)),
        decreases bytes.len() - i,
    {
        proof {
            let t = bytes@.take(i + 1);
            assert(t.drop_last() =~= bytes@.take(i as int));
            assert(t.last() == bytes[i as int]);
        }
        let wide: u64 = (hash as u64 * 31 + bytes[i] as u64) % 0x1_0000_0000;
        hash = wide as u32;
        i = i + 1;
    }
    assert(bytes@.take(bytes@.len() as int) =~= bytes@);
    let low: u8 = ((hash % 250) + 2) as u8;
    let ip: [u8; 4] = [
        DEFAULT_VIRTUAL_SUBNET[0],
        DEFAULT_VIRTUAL_SUBNET[1],
        DEFAULT_VIRTUAL_SUBNET[2],
        low,
    ];
    assert(ip@ =~= seq![10u8, 88u8, 0u8, low_octet(container_id@) as u8]);
    ip
}

/// The address on the host's loopback that an address of the container stands
/// for; none for any other address.
pub open spec fn on_loopback(virtual_ip: Seq<u8>, addr: HostEndpoint) -> Option<HostEndpoint> {
    match addr {
        HostEndpoint::V4 { ip, port } => if ip == virtual_ip {
            Some(HostEndpoint::V4 { ip: seq![127u8, 0, 0, 1], port })
        } else {
            None
        },
        HostEndpoint::V6 { .. } => None,
    }
}

pub fn loopback_translator(virtual_ip: [u8; 4], addr: &HostAddr) -> (r: Option<HostAddr>)
    ensures
        match r {
            Some(h) => on_loopback(virtual_ip@, addr@) == Some(h@),
            None => on_loopback(virtual_ip@, addr@) is None,
        },
{
    match addr {
        HostAddr::V4 { ip, port } => {
            if ip[0] == virtual_ip[0] && ip[1] == virtual_ip[1] && ip[2] == virtual_ip[2] && ip[3]
                == virtual_ip[3] {
                let local: [u8; 4] = [127, 0, 0, 1];
                proof {
                    assert(ip@ =~= virtual_ip@);
                    assert(local@ =~= seq![127u8, 0, 0, 1]);
                }
                Some(HostAddr::V4 { ip: local, port: *port })
            } else {
                assert(ip@ != virtual_ip@) by {
                    if ip@ == virtual_ip@ {
                        assert(ip@[0] == virtual_ip@[0] && ip@[1] == virtual_ip@[1]);
                        assert(ip@[2] == virtual_ip@[2] && ip@[3] == virtual_ip@[3]);
                    }
                }
                None
            }
        },
        HostAddr::V6 { .. } => None,
    }
}

/// The name of the shared memory of a container's network stack.
pub open spec fn shm_name(tag: Seq<char>, pid: nat, nanos: nat) -> Seq<char> {
    "Local\\psroot-ns-"@ + tag + "-"@ + decimal(pid) + "-"@ + decimal(nanos)
}

/// The name of the shared memory of a container's network stack: the process
/// and the time make it unlike any other.
pub fn unique_shm_name(tag: &str, pid: u32, nanos: u128) -> (s: String)
    ensures
        s@ == shm_name(tag@, pid as nat, nanos as nat),
{
    let p = decimal_text(pid as u128);
    let n = decimal_text(nanos);
    let head = concat3("Local\\psroot-ns-", tag, "-");
    let head = concat3(head.as_str(), p.as_str(), "-");
    concat2(head.as_str(), n.as_str())
}

/// The variables by which a process of the container finds its network stack.
pub open spec fn child_vars(name: Seq<char>, size: nat) -> Seq<(Seq<char>, Seq<char>)> {
    seq![("PSROOT_NS_NAME"@, name), ("PSROOT_NS_SIZE"@, decimal(size))]
}

fn child_env(name: &str, size: usize) -> (v: Vec<(String, String)>)
    ensures
        crate::container::env::pairs(v@) == child_vars(name@, size as nat),
{
    let v = vec![
        ("PSROOT_NS_NAME".to_owned(), name.to_owned()),
        ("PSROOT_NS_SIZE".to_owned(), decimal_text(size as u128)),
    ];
    assert(crate::container::env::pairs(v@) =~= child_vars(name@, size as nat));
    v
}

/// Whether a process takes part in the network stack that its environment
/// names: both variables are there, and the size is the one it expects.
pub open spec fn attachable(name: Option<Seq<char>>, size: Option<Seq<char>>, expected: nat) -> bool {
    name is Some && match size {
        Some(s) => crate::text::parsed(s, u64::MAX as nat) == Some(expected),
        None => false,
    }
}

pub fn try_init(name: Option<&str>, size: Option<&str>, expected: u64) -> (b: bool)
    ensures
        b == attachable(
            match name {
                Some(s) => Some(s@),
                None => None,
            },
            match size {
                Some(s) => Some(s@),
                None => None,
            },
            expected as nat,
        ),
{
    match (name, size) {
        (Some(_), Some(s)) => match crate::text::parse_number(s, u64::MAX) {
            Some(n) => n == expected,
            None => false,
        },
        _ => false,
    }
}

/// A process finds the network stack of its container by what the host told it.
pub proof fn law_child_attaches(name: Seq<char>, size: u64)
    ensures
        ({
            let v = child_vars(name, size as nat);
            attachable(
                crate::container::env::value_of(v, "PSROOT_NS_NAME"@, false),
                crate::container::env::value_of(v, "PSROOT_NS_SIZE"@, false),
                size as nat,
            )
        }),
{
    let v = child_vars(name, size as nat);
    reveal_strlit("PSROOT_NS_NAME");
    reveal_strlit("PSROOT_NS_SIZE");
    assert("PSROOT_NS_NAME"@ != "PSROOT_NS_SIZE"@) by {
        assert("PSROOT_NS_NAME"@[10] == 'N');
        assert("PSROOT_NS_SIZE"@[10] == 'S');
    }
    reveal_with_fuel(crate::container::env::value_of, 3);
    assert(v.drop_last().last() == v[0]);
    crate::text::law_decimal_round_trip(size as nat);
}

/// Why a container has no network stack of its own.
#[derive(Clone, Debug)]
pub enum NetstackError {
    /// The shared memory could not be made, for this reason.
    Shm(String),
    /// The shim could not be put into the process; the text shows the error.
    Inject(crate::inject::InjectError, String),
    /// There is no shim at this path.
    DllMissing(String),
}

impl NetstackError {
    pub open spec fn text(self) -> Seq<char> {
        match self {
            NetstackError::Shm(e) => "netstack SHM: "@ + e@,
            NetstackError::Inject(_, e) => "netstack inject: "@ + e@,
            NetstackError::DllMissing(p) => "netstack shim DLL not found: "@ + p@,
        }
    }

    pub fn message(&self) -> (s: String)
        ensures
            s@ == self.text(),
    {
        match self {
            NetstackError::Shm(e) => concat2("netstack SHM: ", e.as_str()),
            NetstackError::Inject(_, e) => concat2("netstack inject: ", e.as_str()),
            NetstackError::DllMissing(p) => concat2("netstack shim DLL not found: ", p.as_str()),
        }
    }
}

/// The library `name` next to a program.
pub open spec fn beside(exe: Seq<char>, name: Seq<char>) -> Seq<char> {
    let dir = match parent(exe) {
        Some(d) => d,
        None => exe,
    };
    joined_path(dir, name)
}

fn beside_exe(exe: &str, name: &str) -> (s: String)
    ensures
        s@ == beside(exe@, name@),
{
    match parent_of(exe) {
        Some(d) => join_path(d.as_str(), name),
        None => join_path(exe, name),
    }
}

/// Where the network shim is looked for: next to the program.
pub fn default_dll_path(exe: &str) -> (s: String)
    ensures
        s@ == beside(exe@, "psroot_netshim.dll"@),
{
    beside_exe(exe, "psroot_netshim.dll")
}

/// Where the process shim is looked for: next to the program.
pub fn default_procshim_path(exe: &str) -> (s: String)
    ensures
        s@ == beside(exe@, "psroot_procshim.dll"@),
{
    beside_exe(exe, "psroot_procshim.dll")
}

/// Where the process shim lies in the container, whose processes may load only
/// what lies there.
pub open spec fn staged_procshim(rootfs: Seq<char>) -> Seq<char> {
    joined_path(joined_path(joined_path(rootfs, "Windows"@), "System32"@), "psroot_procshim.dll"@)
}

/// Where the process shim is to be copied.
pub fn stage_into_rootfs(rootfs: &str) -> (s: String)
    ensures
        s@ == staged_procshim(rootfs@),
{
    let a = join_path(rootfs, "Windows");
    let b = join_path(a.as_str(), "System32");
    join_path(b.as_str(), "psroot_procshim.dll")
}

/// The network stack of one container while it runs.
#[derive(Clone, Debug)]
pub struct NetstackRuntime {
    pub shm_name: String,
    pub layout_size: usize,
    pub virtual_ip: [u8; 4],
    pub dll_path: String,
}

impl NetstackRuntime {
    /// A network stack for the container `tag`, whose shared memory of
    /// `layout_size` bytes is to be made under the name it holds; none where
    /// the shim is missing.
    pub fn spawn(
        tag: &str,
        dll_path: &str,
        dll_exists: bool,
        virtual_ip: [u8; 4],
        layout_size: usize,
        pid: u32,
        nanos: u128,
    ) -> (r: Result<Self, NetstackError>)
        ensures
            match r {
                Ok(n) => {
                    &&& dll_exists
                    &&& n.shm_name@ == shm_name(tag@, pid as nat, nanos as nat)
                    &&& n.layout_size == layout_size
                    &&& n.virtual_ip == virtual_ip
                    &&& n.dll_path@ == dll_path@
                },
                Err(e) => !dll_exists && match e {
                    NetstackError::DllMissing(p) => p@ == dll_path@,
                    _ => false,
                },
            },
    {
        if !dll_exists {
            return Err(NetstackError::DllMissing(dll_path.to_owned()));
        }
        Ok(
            NetstackRuntime {
                shm_name: unique_shm_name(tag, pid, nanos),
                layout_size,
                virtual_ip,
                dll_path: dll_path.to_owned(),
            },
        )
    }

    /// The variables that a process of the container gets.
    pub fn child_env(&self) -> (v: Vec<(String, String)>)
        ensures
            crate::container::env::pairs(v@) == child_vars(
                self.shm_name@,
                self.layout_size as nat,
            ),
    {
        child_env(self.shm_name.as_str(), self.layout_size)
    }

    /// The address that the container's processes have.
    pub fn virtual_ip(&self) -> (ip: [u8; 4])
        ensures
            ip == self.virtual_ip,
    {
        self.virtual_ip
    }

    /// The injection that puts the shim into a process.
    pub fn inject_into(&self) -> (i: crate::inject::Injection)
        ensures
            i.stage == crate::inject::Stage::FindKernel,
            i.path@ == crate::wide::wide(self.dll_path@),
    {
        crate::inject::Injection::inject_dll(self.dll_path.as_str())
    }
}

/// A container's address has a host number that is neither the network nor the
/// gateway nor the broadcast address, and follows from its id alone.
pub proof fn law_virtual_addresses(id: Seq<char>, bytes: Seq<u8>, last: u8)
    ensures
        2 <= low_octet(id) <= 251,
        low_octet(id) == id_hash(encode_utf8(id)) % 250 + 2,
        id_hash(Seq::empty()) == 0,
        id_hash(bytes.push(last)) == (id_hash(bytes) * 31 + last as nat) % 0x1_0000_0000,
{
    assert(bytes.push(last).drop_last() =~= bytes);
}

/// What a container sends to its own address goes to the host's loopback, to the
/// same port; nothing else is redirected.
pub proof fn law_own_address_is_loopback(own: Seq<u8>, other: Seq<u8>, port: u16)
    ensures
        on_loopback(own, HostEndpoint::V4 { ip: own, port }) == Some(
            HostEndpoint::V4 { ip: seq![127u8, 0u8, 0u8, 1u8], port },
        ),
        other != own ==> on_loopback(own, HostEndpoint::V4 { ip: other, port }) is None,
        forall|flow: u32, scope: u32| #[trigger]
            on_loopback(own, HostEndpoint::V6 { ip: other, port, flow, scope }) is None,
{
}

/// A container's processes are told the name and the size of the memory that
/// they share with the daemon, under the names that the shim looks for.
pub proof fn law_child_variables(tag: Seq<char>, pid: nat, nanos: nat, size: nat)
    ensures
        shm_name(tag, pid, nanos) == "Local\\psroot-ns-"@ + tag + "-"@ + decimal(pid) + "-"@
            + decimal(nanos),
        child_vars(shm_name(tag, pid, nanos), size) == seq![
            ("PSROOT_NS_NAME"@, shm_name(tag, pid, nanos)),
            ("PSROOT_NS_SIZE"@, decimal(size)),
        ],
{
}

/// The shims lie next to the program, and that for processes is staged into the
/// system directory of the root.
pub proof fn law_shim_paths(dir: Seq<char>, exe: Seq<char>, root: Seq<char>)
    requires
        parent(exe) == Some(dir),
    ensures
        beside(exe, "psroot_netshim.dll"@) == inside(dir) + "psroot_netshim.dll"@,
        beside(exe, "psroot_procshim.dll"@) == inside(dir) + "psroot_procshim.dll"@,
        staged_procshim(root) == inside(root) + "Windows\\System32\\psroot_procshim.dll"@,
        root.is_prefix_of(staged_procshim(root)),
{
    reveal_strlit("psroot_netshim.dll");
    reveal_strlit("psroot_procshim.dll");
    reveal_strlit("Windows");
    reveal_strlit("System32");
    reveal_strlit("Windows\\System32\\psroot_procshim.dll");
    law_join_goes_below(dir, "psroot_netshim.dll"@);
    law_join_goes_below(dir, "psroot_procshim.dll"@);
    let w = joined_path(root, "Windows"@);
    let t = joined_path(w, "System32"@);
    law_join_goes_below(root, "Windows"@);
    law_join_goes_below(w, "System32"@);
    law_join_goes_below(t, "psroot_procshim.dll"@);
    assert(w.last() == 's');
    assert(t.last() == '2');
    let whole = inside(root) + "Windows\\System32\\psroot_procshim.dll"@;
    assert(staged_procshim(root) =~= whole);
    assert(whole.take(root.len() as int) =~= root);
}

/// An error of the network stack says what failed and why.
pub proof fn law_error_texts(e: NetstackError)
    ensures
        e matches NetstackError::Shm(s) ==> e.text() == "netstack SHM: "@ + s@,
        e matches NetstackError::Inject(_, s) ==> e.text() == "netstack inject: "@ + s@,
        e matches NetstackError::DllMissing(p) ==> e.text() == "netstack shim DLL not found: "@
            + p@,
{
}

} // verus!
