//! The object namespace of a container: the directories and the links that give
//! it its own view of drives and devices.
//!
//! A namespace is planned here as a list of objects to open or to make. An
//! object that lies in another names it by its place in the list.

use crate::container::config::{Failure, PsrootError};
use crate::container::env::pairs;
use crate::text::{concat2, concat4, concat5, decimal, decimal_text, hex, hex_text};
use vstd::prelude::*;

verus! {

pub const OBJ_CASE_INSENSITIVE: u32 = 0x40;

pub const OBJ_OPENIF: u32 = 0x80;

pub const DIRECTORY_ALL_ACCESS: u32 = 0x000F_000F;

pub const SYMBOLIC_LINK_ALL_ACCESS: u32 = 0x000F_0001;

/// Asking a directory for names, and passing through it.
pub const DIRECTORY_LOOKUP_ACCESS: u32 = 0x0003;

/// The name exists, and the object was opened.
pub const STATUS_OBJECT_NAME_EXISTS: u32 = 0x4000_0000;

/// A handle to an object of the kernel.
#[derive(Debug)]
pub struct NtHandle(pub isize);

impl NtHandle {
    pub fn raw(&self) -> (h: isize)
        ensures
            h == self.0,
    {
        self.0
    }
}

/// The attributes with which an object is named.
#[derive(Clone, Copy, Debug, PartialEq, Eq, Structural)]
pub struct ObjectAttributes {
    /// The size of the structure.
    pub length: u32,
    /// The directory that the name is looked up in; 0 for the root.
    pub root_directory: isize,
    pub attributes: u32,
}

/// The attributes that an object is looked up with.
pub open spec fn lookup_attributes(open_if: bool) -> u32 {
    if open_if {
        0xC0
    } else {
        0x40
    }
}

/// The attributes of an object in a directory; with `open_if` an object that
/// exists is opened.
pub fn make_object_attributes(root: Option<isize>, open_if: bool) -> (a: ObjectAttributes)
    ensures
        a.length == 48,
        a.root_directory == match root {
            Some(h) => h,
            None => 0isize,
        },
        a.attributes == lookup_attributes(open_if),
{
    let mut attributes: u32 = OBJ_CASE_INSENSITIVE;
    if open_if {
        attributes = attributes | OBJ_OPENIF;
        assert(0x40u32 | 0x80u32 == 0xC0u32) by (bit_vector);
    }
    let root_directory: isize = match root {
        Some(h) => h,
        None => 0,
    };
    ObjectAttributes { length: 48, root_directory, attributes }
}

/// One object of a namespace. `parent` is the place of the directory it lies in.
#[derive(Clone, Debug)]
pub enum NsObject<T> {
    /// A directory that exists.
    Open { name: T },
    /// A directory; one that exists is opened.
    Directory { name: T, parent: Option<usize> },
    Link { name: T, target: T, parent: Option<usize> },
}

pub open spec fn object(o: NsObject<String>) -> NsObject<Seq<char>> {
    match o {
        NsObject::Open { name } => NsObject::Open { name: name@ },
        NsObject::Directory { name, parent } => NsObject::Directory { name: name@, parent },
        NsObject::Link { name, target, parent } => NsObject::Link {
            name: name@,
            target: target@,
            parent,
        },
    }
}

pub open spec fn objects(v: Seq<NsObject<String>>) -> Seq<NsObject<Seq<char>>> {
    v.map_values(|o: NsObject<String>| object(o))
}

/// The place of the directory that an object lies in.
pub open spec fn parent_of(o: NsObject<Seq<char>>) -> Option<usize> {
    match o {
        NsObject::Open { .. } => None,
        NsObject::Directory { parent, .. } => parent,
        NsObject::Link { parent, .. } => parent,
    }
}

pub open spec fn dir_in(name: Seq<char>, parent: usize) -> NsObject<Seq<char>> {
    NsObject::Directory { name, parent: Some(parent) }
}

pub open spec fn link_in(name: Seq<char>, target: Seq<char>, parent: usize) -> NsObject<Seq<char>> {
    NsObject::Link { name, target, parent: Some(parent) }
}

/// A link for each drive, to a directory of the host behind `prefix`.
pub open spec fn drive_links(
    drives: Seq<(Seq<char>, Seq<char>)>,
    prefix: Seq<char>,
    parent: usize,
) -> Seq<NsObject<Seq<char>>> {
    drives.map_values(|d: (Seq<char>, Seq<char>)| link_in(d.0, prefix + d.1, parent))
}

pub open spec fn silo_path(id: nat) -> Seq<char> {
    "\\Silos\\"@ + decimal(id)
}

/// The place of the directory of all silos.
pub const SILOS_AT: usize = 0;

/// The place of the root of the silo.
pub const ROOT_AT: usize = 1;

/// The place of the directory that holds the drives of the silo.
pub const GLOBAL_AT: usize = 7;

pub open spec fn silo_head(id: nat, root: Seq<char>) -> Seq<NsObject<Seq<char>>> {
    seq![
        NsObject::Directory { name: "\\Silos"@, parent: None },
        NsObject::Directory { name: silo_path(id), parent: None },
        dir_in("BaseNamedObjects"@, 1),
        dir_in("Restricted"@, 2),
        dir_in("Sessions"@, 1),
        dir_in("0"@, 4),
        link_in("BaseNamedObjects"@, silo_path(id) + "\\BaseNamedObjects"@, 5),
        dir_in("GLOBAL??"@, 1),
        link_in("C:"@, "\\??\\"@ + root, 7),
    ]
}

pub open spec fn silo_tail(device_at: usize) -> Seq<NsObject<Seq<char>>> {
    seq![
        link_in("NUL"@, "\\Device\\Null"@, 7),
        link_in("CON"@, "\\Device\\ConDrv"@, 7),
        link_in("CONIN$"@, "\\Device\\ConDrv\\CurrentIn"@, 7),
        link_in("CONOUT$"@, "\\Device\\ConDrv\\CurrentOut"@, 7),
        dir_in("Device"@, 1),
        link_in("Null"@, "\\Device\\Null"@, device_at),
        link_in("ConDrv"@, "\\Device\\ConDrv"@, device_at),
        dir_in("KnownDlls"@, 1),
    ]
}

/// The namespace of a silo whose drive C is the directory `root` of the host.
pub open spec fn silo_objects(
    id: nat,
    root: Seq<char>,
    drives: Seq<(Seq<char>, Seq<char>)>,
) -> Seq<NsObject<Seq<char>>> {
    silo_head(id, root) + drive_links(drives, "\\??\\"@, 7) + silo_tail(
        (13 + drives.len()) as usize,
    )
}

fn directory(name: &str, parent: Option<usize>) -> (o: NsObject<String>)
    ensures
        object(o) == (NsObject::Directory { name: name@, parent }),
{
    NsObject::Directory { name: name.to_owned(), parent }
}

fn link(name: &str, target: &str, parent: usize) -> (o: NsObject<String>)
    ensures
        object(o) == link_in(name@, target@, parent),
{
    NsObject::Link { name: name.to_owned(), target: target.to_owned(), parent: Some(parent) }
}

fn push_drive_links(
    v: &mut Vec<NsObject<String>>,
    drives: &Vec<(String, String)>,
    prefix: &str,
    parent: usize,
)
    ensures
        objects(final(v)@) == objects(old(v)@) + drive_links(pairs(drives@), prefix@, parent),
{
    let ghost start = objects(v@);
    let mut i: usize = 0;
    assert(drive_links(pairs(drives@).take(0), prefix@, parent) =~= Seq::<
        NsObject<Seq<char>>,
    >::empty());
    assert(start + Seq::<NsObject<Seq<char>>>::empty() =~= start);
    while i < drives.len()
        invariant
            i <= drives.len(),
            objects(v@) == start + drive_links(pairs(drives@).take(i as int), prefix@, parent),
        decreases drives.len() - i,
    {
        let target = concat2(prefix, drives[i].1.as_str());
        let ghost before = v@;
        v.push(link(drives[i].0.as_str(), target.as_str(), parent));
        proof {
            assert(objects(v@) =~= objects(before).push(object(v@.last())));
            assert(pairs(drives@).take(i + 1) =~= pairs(drives@).take(i as int).push(
                pairs(drives@)[i as int],
            ));
            assert(drive_links(pairs(drives@).take(i + 1), prefix@, parent) =~= drive_links(
                pairs(drives@).take(i as int),
                prefix@,
                parent,
            ).push(object(v@.last())));
        }
        i = i + 1;
    }
    assert(pairs(drives@).take(drives@.len() as int) =~= pairs(drives@));
}

/// The objects of a silo's namespace, once they exist.
#[derive(Debug)]
pub struct SiloNamespace {
    pub silos_parent: NtHandle,
    /// The root directory of the silo.
    pub root: NtHandle,
    pub children: Vec<NtHandle>,
}

impl SiloNamespace {
    /// The namespace of a silo whose drive C is the directory `container_root`
    /// of the host.
    pub fn build(silo_id: u32, container_root: &str) -> (v: Vec<NsObject<String>>)
        ensures
            objects(v@) == silo_objects(silo_id as nat, container_root@, seq![]),
    {
        let drives: Vec<(String, String)> = Vec::new();
        let v = Self::build_with_extra_drives(silo_id, container_root, &drives);
        assert(pairs(drives@) =~= Seq::<(Seq<char>, Seq<char>)>::empty());
        v
    }

    /// The namespace of a silo that has further drives.
    pub fn build_with_extra_drives(
        silo_id: u32,
        container_root: &str,
        extra_drives: &Vec<(String, String)>,
    ) -> (v: Vec<NsObject<String>>)
        requires
            extra_drives.len() <= usize::MAX - 13,
        ensures
            objects(v@) == silo_objects(silo_id as nat, container_root@, pairs(extra_drives@)),
    {
        let id = decimal_text(silo_id as u128);
        let path = concat2("\\Silos\\", id.as_str());
        let bno = concat2(path.as_str(), "\\BaseNamedObjects");
        let c_target = concat2("\\??\\", container_root);
        let device_at: usize = 13 + extra_drives.len();
        let mut v: Vec<NsObject<String>> = Vec::new();
        v.push(directory("\\Silos", None));
        v.push(directory(path.as_str(), None));
        v.push(directory("BaseNamedObjects", Some(1)));
        v.push(directory("Restricted", Some(2)));
        v.push(directory("Sessions", Some(1)));
        v.push(directory("0", Some(4)));
        v.push(link("BaseNamedObjects", bno.as_str(), 5));
        v.push(directory("GLOBAL??", Some(1)));
        v.push(link("C:", c_target.as_str(), 7));
        assert(objects(v@) =~= silo_head(silo_id as nat, container_root@));
        push_drive_links(&mut v, extra_drives, "\\??\\", 7);
        let ghost middle = objects(v@);
        let mut tail: Vec<NsObject<String>> = Vec::new();
        tail.push(link("NUL", "\\Device\\Null", 7));
        tail.push(link("CON", "\\Device\\ConDrv", 7));
        tail.push(link("CONIN$", "\\Device\\ConDrv\\CurrentIn", 7));
        tail.push(link("CONOUT$", "\\Device\\ConDrv\\CurrentOut", 7));
        tail.push(directory("Device", Some(1)));
        tail.push(link("Null", "\\Device\\Null", device_at));
        tail.push(link("ConDrv", "\\Device\\ConDrv", device_at));
        tail.push(directory("KnownDlls", Some(1)));
        assert(objects(tail@) =~= silo_tail(device_at));
        let ghost t = tail@;
        v.append(&mut tail);
        assert(objects(v@) =~= middle + objects(t));
        v
    }

    /// The namespace from the handles of its objects, in the order of the plan;
    /// none where there are fewer than its two roots.
    pub fn from_handles(mut handles: Vec<NtHandle>) -> (r: Option<Self>)
        ensures
            match r {
                Some(n) => handles@ == seq![n.silos_parent, n.root] + n.children@,
                None => handles@.len() < 2,
            },
    {
        if handles.len() < 2 {
            return None;
        }
        let ghost all = handles@;
        let silos_parent = handles.remove(0);
        let root = handles.remove(0);
        assert(all =~= seq![silos_parent, root] + handles@);
        Some(SiloNamespace { silos_parent, root, children: handles })
    }

    pub fn root_handle(&self) -> (h: isize)
        ensures
            h == self.root.0,
    {
        self.root.raw()
    }
}

/// The directory that maps the drives of one process.
#[derive(Debug)]
pub struct ProcessDeviceMap {
    pub global: NtHandle,
    pub directory: NtHandle,
    pub symlinks: Vec<NtHandle>,
}

/// The name of the directory that maps the drives of a process.
pub open spec fn device_map_name(pid: nat, n: nat) -> Seq<char> {
    "\\BaseNamedObjects\\PsrootDevMap-"@ + decimal(pid) + "-"@ + decimal(n)
}

/// The objects of a map of drives whose drive C is the directory `root` of the
/// host.
pub open spec fn device_map_objects(
    pid: nat,
    n: nat,
    root: Seq<char>,
    drives: Seq<(Seq<char>, Seq<char>)>,
) -> Seq<NsObject<Seq<char>>> {
    seq![
        NsObject::Open { name: "\\GLOBAL??"@ },
        NsObject::Directory { name: device_map_name(pid, n), parent: None },
        link_in("C:"@, "\\GLOBAL??\\"@ + root, 1),
    ] + drive_links(drives, "\\GLOBAL??\\"@, 1)
}

impl ProcessDeviceMap {
    /// The objects of the `n`th map of drives that process `pid` makes.
    pub fn build(
        pid: u32,
        n: u32,
        container_root: &str,
        extra_drives: &Vec<(String, String)>,
    ) -> (v: Vec<NsObject<String>>)
        ensures
            objects(v@) == device_map_objects(
                pid as nat,
                n as nat,
                container_root@,
                pairs(extra_drives@),
            ),
    {
        let p = decimal_text(pid as u128);
        let c = decimal_text(n as u128);
        let name = concat4("\\BaseNamedObjects\\PsrootDevMap-", p.as_str(), "-", c.as_str());
        let target = concat2("\\GLOBAL??\\", container_root);
        let mut v: Vec<NsObject<String>> = Vec::new();
        v.push(NsObject::Open { name: "\\GLOBAL??".to_owned() });
        v.push(directory(name.as_str(), None));
        v.push(link("C:", target.as_str(), 1));
        assert(objects(v@) =~= seq![
            NsObject::Open { name: "\\GLOBAL??"@ },
            NsObject::Directory { name: device_map_name(pid as nat, n as nat), parent: None },
            link_in("C:"@, "\\GLOBAL??\\"@ + container_root@, 1),
        ]);
        push_drive_links(&mut v, extra_drives, "\\GLOBAL??\\", 1);
        v
    }

    /// The map from the handles of its objects, in the order of the plan; none
    /// where there are fewer than its two directories.
    pub fn from_handles(mut handles: Vec<NtHandle>) -> (r: Option<Self>)
        ensures
            match r {
                Some(m) => handles@ == seq![m.global, m.directory] + m.symlinks@,
                None => handles@.len() < 2,
            },
    {
        if handles.len() < 2 {
            return None;
        }
        let ghost all = handles@;
        let global = handles.remove(0);
        let directory = handles.remove(0);
        assert(all =~= seq![global, directory] + handles@);
        Some(ProcessDeviceMap { global, directory, symlinks: handles })
    }

    /// The handle of the directory that a process is given.
    pub fn assign_to_process(&self) -> (h: isize)
        ensures
            h == self.directory.0,
    {
        self.directory.raw()
    }
}

/// What comes of making a directory: one that exists was opened.
pub fn create_directory(status: u32, handle: isize) -> (r: Result<NtHandle, PsrootError>)
    ensures
        match r {
            Ok(h) => (status == 0 || status == STATUS_OBJECT_NAME_EXISTS) && h.0 == handle,
            Err(e) => status != 0 && status != STATUS_OBJECT_NAME_EXISTS && e@ == (Failure::Nt {
                op: "NtCreateDirectoryObjectEx"@,
                status,
            }),
        },
{
    if status != 0 && status != STATUS_OBJECT_NAME_EXISTS {
        return Err(PsrootError::nt("NtCreateDirectoryObjectEx", status));
    }
    Ok(NtHandle(handle))
}

/// What comes of making a link.
pub fn create_symlink(status: u32, handle: isize) -> (r: Result<NtHandle, PsrootError>)
    ensures
        match r {
            Ok(h) => status == 0 && h.0 == handle,
            Err(e) => status != 0 && e@ == (Failure::Nt {
                op: "NtCreateSymbolicLinkObject"@,
                status,
            }),
        },
{
    if status != 0 {
        return Err(PsrootError::nt("NtCreateSymbolicLinkObject", status));
    }
    Ok(NtHandle(handle))
}

/// What comes of opening a directory.
pub fn open_directory(status: u32, handle: isize) -> (r: Result<NtHandle, PsrootError>)
    ensures
        match r {
            Ok(h) => status == 0 && h.0 == handle,
            Err(e) => status != 0 && e@ == (Failure::Nt {
                op: "NtOpenDirectoryObject"@,
                status,
            }),
        },
{
    if status != 0 {
        return Err(PsrootError::nt("NtOpenDirectoryObject", status));
    }
    Ok(NtHandle(handle))
}

/// What comes of making a directory without a name that falls back to another.
pub fn create_directory_shadowed(status: u32, handle: isize) -> (r: Result<NtHandle, PsrootError>)
    ensures
        match r {
            Ok(h) => status == 0 && h.0 == handle,
            Err(e) => status != 0 && e@ == (Failure::Nt {
                op: "NtCreateDirectoryObjectEx(shadow)"@,
                status,
            }),
        },
{
    if status != 0 {
        return Err(PsrootError::nt("NtCreateDirectoryObjectEx(shadow)", status));
    }
    Ok(NtHandle(handle))
}

/// What comes of making a named directory that falls back to another: one that
/// exists was opened.
pub fn create_directory_named_shadowed(status: u32, handle: isize) -> (r: Result<
    NtHandle,
    PsrootError,
>)
    ensures
        match r {
            Ok(h) => (status == 0 || status == STATUS_OBJECT_NAME_EXISTS) && h.0 == handle,
            Err(e) => status != 0 && status != STATUS_OBJECT_NAME_EXISTS && e@ == (Failure::Nt {
                op: "NtCreateDirectoryObjectEx(named-shadow)"@,
                status,
            }),
        },
{
    if status != 0 && status != STATUS_OBJECT_NAME_EXISTS {
        return Err(PsrootError::nt("NtCreateDirectoryObjectEx(named-shadow)", status));
    }
    Ok(NtHandle(handle))
}

/// Why a process could not be given a map of drives.
pub open spec fn device_map_failure(first: u32, second: u32) -> Seq<char> {
    "NtSetInformationProcess(DeviceMap) [tried len=40 -> 0x"@ + hex(first as nat, 8)
        + ", len=8 -> 0x"@ + hex(second as nat, 8) + "]"@
}

/// What comes of giving a process a map of drives: `first` is the status of the
/// call with the whole structure, `second` that of the call with the handle
/// alone, which is made only where the first failed.
pub fn set_process_device_map(first: u32, second: Option<u32>) -> (r: Option<
    Result<(), PsrootError>,
>)
    ensures
        match r {
            None => first != 0 && second is None,
            Some(Ok(_)) => first == 0 || second == Some(0u32),
            Some(Err(e)) => first != 0 && match second {
                Some(s) => s != 0 && e@ == Failure::Other(device_map_failure(first, s)),
                None => false,
            },
        },
{
    if first == 0 {
        return Some(Ok(()));
    }
    match second {
        None => None,
        Some(s) => {
            if s == 0 {
                return Some(Ok(()));
            }
            let a = hex_text(first as u64, 8);
            let b = hex_text(s as u64, 8);
            Some(
                Err(
                    PsrootError::Other(
                        concat5(
                            "NtSetInformationProcess(DeviceMap) [tried len=40 -> 0x",
                            a.as_str(),
                            ", len=8 -> 0x",
                            b.as_str(),
                            "]",
                        ),
                    ),
                ),
            )
        },
    }
}

/// A directory of a silo comes before what lies in it, and all that lies in the
/// silo lies below its root.
pub proof fn law_silo_is_closed(id: nat, root: Seq<char>, drives: Seq<(Seq<char>, Seq<char>)>)
    requires
        drives.len() <= usize::MAX - 13,
    ensures
        ({
            let v = silo_objects(id, root, drives);
            &&& v[1] == (NsObject::Directory { name: silo_path(id), parent: None })
            &&& forall|i: int|
                2 <= i < v.len() ==> {
                    &&& parent_of(#[trigger] v[i]) is Some
                    &&& 1 <= parent_of(v[i])->0 < i
                    &&& v[parent_of(v[i])->0 as int] is Directory
                }
        }),
{
    let v = silo_objects(id, root, drives);
    let d = drive_links(drives, "\\??\\"@, 7);
    let device_at = (13 + drives.len()) as usize;
    assert(v[1] == silo_head(id, root)[1]);
    assert(v[2] is Directory && v[4] is Directory && v[5] is Directory && v[7] is Directory);
    assert(v[device_at as int] == silo_tail(device_at)[4]);
    assert forall|i: int| 2 <= i < v.len() implies {
        &&& parent_of(#[trigger] v[i]) is Some
        &&& 1 <= parent_of(v[i])->0 < i
        &&& v[parent_of(v[i])->0 as int] is Directory
    } by {
        if i < 9 {
            assert(v[i] == silo_head(id, root)[i]);
        } else if i < 9 + drives.len() {
            assert(v[i] == d[i - 9]);
        } else {
            assert(v[i] == silo_tail(device_at)[i - 9 - drives.len() as int]);
        }
    }
}

/// The drives of a process lead to directories of the host through the global
/// map, so no drive is looked up in the process's own map again.
pub proof fn law_device_map_is_global(
    pid: nat,
    n: nat,
    root: Seq<char>,
    drives: Seq<(Seq<char>, Seq<char>)>,
)
    ensures
        ({
            let v = device_map_objects(pid, n, root, drives);
            &&& v[2] == link_in("C:"@, "\\GLOBAL??\\"@ + root, 1)
            &&& forall|i: int|
                2 <= i < v.len() ==> (#[trigger] v[i] is Link && parent_of(v[i]) == Some(1usize)
                    && "\\GLOBAL??\\"@.is_prefix_of(v[i]->target))
        }),
{
    let v = device_map_objects(pid, n, root, drives);
    let d = drive_links(drives, "\\GLOBAL??\\"@, 1);
    assert forall|i: int| 2 <= i < v.len() implies (#[trigger] v[i] is Link && parent_of(v[i])
        == Some(1usize) && "\\GLOBAL??\\"@.is_prefix_of(v[i]->target)) by {
        let host = if i == 2 {
            root
        } else {
            drives[i - 3].1
        };
        if i > 2 {
            assert(v[i] == d[i - 3]);
        }
        assert(v[i]->target == "\\GLOBAL??\\"@ + host);
        assert(("\\GLOBAL??\\"@ + host).subrange(0, "\\GLOBAL??\\"@.len() as int)
            =~= "\\GLOBAL??\\"@);
    }
}

/// Names are looked up without regard to case, and an object that exists is
/// opened exactly where that is asked for.
pub proof fn law_lookup_attributes(open_if: bool)
    ensures
        lookup_attributes(open_if) & 0x40 != 0,
        lookup_attributes(open_if) & 0x80 != 0 <==> open_if,
        lookup_attributes(open_if) & !(0x40u32 | 0x80) == 0,
{
    assert(0xC0u32 & 0x40 != 0 && 0xC0u32 & 0x80 != 0 && 0xC0u32 & !(0x40u32 | 0x80) == 0)
        by (bit_vector);
    assert(0x40u32 & 0x40 != 0 && 0x40u32 & 0x80 == 0 && 0x40u32 & !(0x40u32 | 0x80) == 0)
        by (bit_vector);
}

/// What a process in a silo finds: its root directory as drive `C:`, each
/// further drive with the directory of the host behind it, the null device and
/// the console, and directories of its own for the names of its objects.
pub proof fn law_silo_contents(id: nat, root: Seq<char>, drives: Seq<(Seq<char>, Seq<char>)>, i: int)
    requires
        drives.len() <= usize::MAX - 13,
    ensures
        ({
            let v = silo_objects(id, root, drives);
            let n = drives.len() as int;
            let silo = "\\Silos\\"@ + decimal(id);
            let device = (13 + n) as usize;
            &&& v.len() == n + 17
            &&& v[0] == (NsObject::Directory { name: "\\Silos"@, parent: None })
            &&& v[1] == (NsObject::Directory { name: silo, parent: None })
            &&& v[2] == dir_in("BaseNamedObjects"@, 1)
            &&& v[3] == dir_in("Restricted"@, 2)
            &&& v[4] == dir_in("Sessions"@, 1)
            &&& v[5] == dir_in("0"@, 4)
            &&& v[6] == link_in("BaseNamedObjects"@, silo + "\\BaseNamedObjects"@, 5)
            &&& v[7] == dir_in("GLOBAL??"@, 1)
            &&& v[8] == link_in("C:"@, "\\??\\"@ + root, 7)
            &&& 0 <= i < n ==> v[9 + i] == link_in(drives[i].0, "\\??\\"@ + drives[i].1, 7)
            &&& v[n + 9] == link_in("NUL"@, "\\Device\\Null"@, 7)
            &&& v[n + 10] == link_in("CON"@, "\\Device\\ConDrv"@, 7)
            &&& v[n + 11] == link_in("CONIN$"@, "\\Device\\ConDrv\\CurrentIn"@, 7)
            &&& v[n + 12] == link_in("CONOUT$"@, "\\Device\\ConDrv\\CurrentOut"@, 7)
            &&& v[n + 13] == dir_in("Device"@, 1)
            &&& v[n + 14] == link_in("Null"@, "\\Device\\Null"@, device)
            &&& v[n + 15] == link_in("ConDrv"@, "\\Device\\ConDrv"@, device)
            &&& v[n + 16] == dir_in("KnownDlls"@, 1)
        }),
{
    let v = silo_objects(id, root, drives);
    let d = drive_links(drives, "\\??\\"@, 7);
    let n = drives.len() as int;
    let t = silo_tail((13 + n) as usize);
    let h = silo_head(id, root);
    assert forall|k: int| 0 <= k < 9 implies #[trigger] v[k] == h[k] by {}
    assert(v[0] == h[0] && v[1] == h[1] && v[2] == h[2] && v[3] == h[3] && v[4] == h[4]);
    assert(v[5] == h[5] && v[6] == h[6] && v[7] == h[7] && v[8] == h[8]);
    assert(v[n + 9] == t[0] && v[n + 10] == t[1] && v[n + 11] == t[2] && v[n + 12] == t[3]);
    assert(v[n + 13] == t[4] && v[n + 14] == t[5] && v[n + 15] == t[6] && v[n + 16] == t[7]);
    if 0 <= i < n {
        assert(v[9 + i] == d[i]);
    }
}

/// A process with a device map of its own finds its root directory as drive `C:`
/// and each further drive with the directory of the host behind it, in a
/// directory that belongs to this launch alone.
pub proof fn law_device_map_contents(
    pid: nat,
    n: nat,
    root: Seq<char>,
    drives: Seq<(Seq<char>, Seq<char>)>,
    i: int,
)
    ensures
        ({
            let v = device_map_objects(pid, n, root, drives);
            &&& v.len() == drives.len() + 3
            &&& v[0] == (NsObject::Open { name: "\\GLOBAL??"@ })
            &&& v[1] == (NsObject::Directory {
                name: "\\BaseNamedObjects\\PsrootDevMap-"@ + decimal(pid) + "-"@ + decimal(n),
                parent: None,
            })
            &&& v[2] == link_in("C:"@, "\\GLOBAL??\\"@ + root, 1)
            &&& 0 <= i < drives.len() ==> v[3 + i] == link_in(
                drives[i].0,
                "\\GLOBAL??\\"@ + drives[i].1,
                1,
            )
        }),
{
    let v = device_map_objects(pid, n, root, drives);
    let d = drive_links(drives, "\\GLOBAL??\\"@, 1);
    if 0 <= i < drives.len() {
        assert(v[3 + i] == d[i]);
    }
}

/// The rights that objects are opened with.
pub proof fn law_object_rights()
    ensures
        DIRECTORY_ALL_ACCESS == 0xF000F,
        SYMBOLIC_LINK_ALL_ACCESS == 0xF0001,
        DIRECTORY_LOOKUP_ACCESS == 0x1u32 | 0x2,
        STATUS_OBJECT_NAME_EXISTS == 0x40000000,
{
    assert(0x3u32 == 0x1u32 | 0x2) by (bit_vector);
}

} // verus!
