//! Desktops on which programs with windows run unseen.

use crate::container::config::{Failure, PsrootError};
use crate::container::lifecycle::{random_uuid, uuid_shaped};
use crate::text::{concat2, concat3};
use crate::wide::{to_wide, wide};
use vstd::prelude::*;

verus! {

/// All rights on a desktop, and those to make windows and menus, to hook, to
/// read and write its objects and to switch to it.
pub const DESKTOP_ACCESS: u32 = 0x1000_018F;

/// The flag of a process that gets an extended start block.
pub const EXTENDED_STARTUPINFO_PRESENT: u32 = 0x0008_0000;

/// What a wait gives while the process still runs.
pub const WAIT_TIMEOUT: u32 = 258;

/// How an isolated desktop is made.
#[derive(Clone, Debug)]
pub struct DesktopConfig {
    /// The address of the container's identity that gets access, if any.
    pub appcontainer_sid: Option<u64>,
    /// The name behind the prefix; a random one if there is none.
    pub name: Option<String>,
}

impl Default for DesktopConfig {
    fn default() -> (c: Self)
        ensures
            c.appcontainer_sid is None,
            c.name is None,
    {
        DesktopConfig { appcontainer_sid: None, name: None }
    }
}

/// The name of a desktop.
pub open spec fn desktop_name(suffix: Seq<char>) -> Seq<char> {
    "Psroot-"@ + suffix
}

/// The name of a desktop with the window station that it lies in.
pub open spec fn full_name(name: Seq<char>) -> Seq<char> {
    "WinSta0\\"@ + name
}

/// The name of the desktop that `config` asks for; `uuid` is used where it
/// gives none.
pub fn name_for(config: &DesktopConfig, uuid: &str) -> (s: String)
    ensures
        s@ == desktop_name(
            match config.name {
                Some(n) => n@,
                None => uuid@,
            },
        ),
{
    match &config.name {
        Some(n) => concat2("Psroot-", n.as_str()),
        None => concat2("Psroot-", uuid),
    }
}

/// The entry of an access list that gives an identity all access.
pub open spec fn access_entry(identity: Seq<char>) -> Seq<char> {
    "(A;;GA;;;"@ + identity + ")"@
}

/// The access list of a desktop: the system, which draws its windows, the user,
/// who closes it, and the AppContainer that runs on it, if there is one. Nobody
/// else has access.
pub open spec fn access_list(user: Seq<char>, appcontainer: Option<Seq<char>>) -> Seq<char> {
    "D:P"@ + access_entry("SY"@) + access_entry(user) + match appcontainer {
        Some(sid) => access_entry(sid),
        None => ""@,
    }
}

/// The access list of a desktop, in the language of security descriptors.
pub fn build_security_attributes(user: &str, appcontainer: Option<&str>) -> (s: String)
    ensures
        s@ == access_list(
            user@,
            match appcontainer {
                Some(sid) => Some(sid@),
                None => None,
            },
        ),
{
    let system = concat3("(A;;GA;;;", "SY", ")");
    let own = concat3("(A;;GA;;;", user, ")");
    let other = match appcontainer {
        Some(sid) => concat3("(A;;GA;;;", sid, ")"),
        None => "".to_owned(),
    };
    let s = concat3("D:P", system.as_str(), own.as_str());
    concat2(s.as_str(), other.as_str())
}

/// A desktop of the window station `WinSta0` that the user does not see.
#[derive(Debug)]
pub struct IsolatedDesktop {
    pub handle: isize,
    pub name: String,
    pub full_name: String,
}

impl IsolatedDesktop {
    pub open spec fn wf(&self) -> bool {
        self.full_name@ == full_name(self.name@)
    }

    /// The name under which the desktop is to be made.
    pub fn create(config: &DesktopConfig) -> (name: String)
        ensures
            match config.name {
                Some(n) => name@ == desktop_name(n@),
                None => exists|u: Seq<char>|
                    uuid_shaped(u) && name@ == #[trigger] desktop_name(u),
            },
    {
        match &config.name {
            Some(n) => concat2("Psroot-", n.as_str()),
            None => {
                let u = random_uuid();
                name_for(config, u.as_str())
            },
        }
    }

    /// The desktop, from the handle that making it gave; `window_station` is
    /// the handle of the window station, 0 if it could not be had, which
    /// matters only where an identity is to get access.
    pub fn created(
        config: &DesktopConfig,
        name: String,
        handle: isize,
        window_station: isize,
        code: u32,
    ) -> (r: Result<Self, PsrootError>)
        ensures
            match r {
                Ok(d) => {
                    &&& handle != 0 && handle != -1
                    &&& config.appcontainer_sid is Some ==> window_station != 0
                    &&& d.handle == handle
                    &&& d.name == name
                    &&& d.wf()
                },
                Err(e) => if handle == 0 || handle == -1 {
                    e@ == (Failure::Win32 { op: "CreateDesktopW"@, code })
                } else {
                    &&& config.appcontainer_sid is Some && window_station == 0
                    &&& e@ == (Failure::Win32 { op: "GetProcessWindowStation"@, code })
                },
            },
    {
        if handle == 0 || handle == -1 {
            return Err(PsrootError::win32("CreateDesktopW", code));
        }
        if config.appcontainer_sid.is_some() {
            Self::grant_winstation_access(window_station, code)?;
        }
        let full_name = concat2("WinSta0\\", name.as_str());
        Ok(IsolatedDesktop { handle, name, full_name })
    }

    /// What comes of asking for the window station.
    fn grant_winstation_access(window_station: isize, code: u32) -> (r: Result<(), PsrootError>)
        ensures
            match r {
                Ok(_) => window_station != 0,
                Err(e) => window_station == 0 && e@ == (Failure::Win32 {
                    op: "GetProcessWindowStation"@,
                    code,
                }),
            },
    {
        if window_station == 0 {
            return Err(PsrootError::win32("GetProcessWindowStation", code));
        }
        Ok(())
    }

    /// The name with the window station.
    pub fn lpdesktop_name(&self) -> (s: &str)
        requires
            self.wf(),
        ensures
            s@ == full_name(self.name@),
    {
        self.full_name.as_str()
    }

    pub fn name(&self) -> (s: &str)
        ensures
            s@ == self.name@,
    {
        self.name.as_str()
    }

    pub fn handle(&self) -> (h: isize)
        ensures
            h == self.handle,
    {
        self.handle
    }

    /// The name with the window station, as a start block holds it.
    pub fn lpdesktop_wide(&self) -> (v: Vec<u16>)
        requires
            self.wf(),
        ensures
            v@ == wide(full_name(self.name@)),
    {
        to_wide(self.full_name.as_str())
    }

    /// The request that starts a process on this desktop.
    pub fn spawn_process(
        &self,
        command_line: &str,
        working_dir: Option<&str>,
        inherit_handles: bool,
        creation_flags: u32,
        extended: bool,
    ) -> (r: ProcessRequest)
        requires
            self.wf(),
        ensures
            r.command_line@ == wide(command_line@),
            match (working_dir, r.working_dir) {
                (Some(d), Some(w)) => w@ == wide(d@),
                (None, None) => true,
                _ => false,
            },
            r.desktop@ == wide(full_name(self.name@)),
            r.inherit_handles == inherit_handles,
            r.flags == if extended {
                creation_flags | EXTENDED_STARTUPINFO_PRESENT
            } else {
                creation_flags
            },
    {
        let working_dir = match working_dir {
            Some(d) => Some(to_wide(d)),
            None => None,
        };
        let flags: u32 = if extended {
            creation_flags | EXTENDED_STARTUPINFO_PRESENT
        } else {
            creation_flags
        };
        ProcessRequest {
            command_line: to_wide(command_line),
            working_dir,
            desktop: self.lpdesktop_wide(),
            inherit_handles,
            flags,
        }
    }

    /// Whether there is a desktop to close when this one is no longer needed.
    pub fn is_open(&self) -> (b: bool)
        ensures
            b == (self.handle != 0 && self.handle != -1),
    {
        self.handle != 0 && self.handle != -1
    }
}

/// What a process is started with.
#[derive(Debug)]
pub struct ProcessRequest {
    pub command_line: Vec<u16>,
    pub working_dir: Option<Vec<u16>>,
    pub desktop: Vec<u16>,
    pub inherit_handles: bool,
    pub flags: u32,
}

/// A process that was started on a desktop.
#[derive(Clone, Copy, Debug, PartialEq, Eq, Structural)]
pub struct ProcessInfo {
    pub process_handle: isize,
    pub thread_handle: isize,
    pub process_id: u32,
    pub thread_id: u32,
}

impl ProcessInfo {
    /// The process, from what starting it gave.
    pub fn started(ok: bool, info: ProcessInfo, code: u32) -> (r: Result<Self, PsrootError>)
        ensures
            match r {
                Ok(p) => ok && p == info,
                Err(e) => !ok && e@ == (Failure::Win32 {
                    op: "CreateProcessW(isolated_desktop)"@,
                    code,
                }),
            },
    {
        if !ok {
            return Err(PsrootError::win32("CreateProcessW(isolated_desktop)", code));
        }
        Ok(info)
    }

    /// Whether the process still runs, from what a wait of no length gave.
    pub fn is_running(wait_result: u32) -> (b: bool)
        ensures
            b == (wait_result == WAIT_TIMEOUT),
    {
        wait_result == WAIT_TIMEOUT
    }

    /// The code with which a process is ended.
    pub fn terminate() -> (code: u32)
        ensures
            code == 1,
    {
        1
    }
}

/// A desktop is open to the system, to the user and to the container that it is
/// made for, and to no one else.
pub proof fn law_desktop_access(user: Seq<char>, sid: Seq<char>)
    ensures
        access_list(user, None) == "D:P"@ + ("(A;;GA;;;"@ + "SY"@ + ")"@) + ("(A;;GA;;;"@ + user
            + ")"@),
        access_list(user, Some(sid)) == "D:P"@ + ("(A;;GA;;;"@ + "SY"@ + ")"@) + ("(A;;GA;;;"@
            + user + ")"@) + ("(A;;GA;;;"@ + sid + ")"@),
{
    reveal_strlit("");
    assert(access_list(user, None) =~= "D:P"@ + ("(A;;GA;;;"@ + "SY"@ + ")"@) + ("(A;;GA;;;"@
        + user + ")"@));
}

/// The desktops of two containers have different names, and all lie in the
/// user's own window station.
pub proof fn law_desktop_names(a: Seq<char>, b: Seq<char>)
    ensures
        desktop_name(a) == "Psroot-"@ + a,
        full_name(desktop_name(a)) == "WinSta0\\"@ + ("Psroot-"@ + a),
        desktop_name(a) == desktop_name(b) ==> a == b,
{
    let n = "Psroot-"@.len() as int;
    assert(desktop_name(a).skip(n) =~= a);
    assert(desktop_name(b).skip(n) =~= b);
}

/// The numbers that Windows knows the rights on a desktop, the longer startup
/// information and a wait that timed out by.
pub proof fn law_desktop_numbers()
    ensures
        DESKTOP_ACCESS == 0x1000018F,
        EXTENDED_STARTUPINFO_PRESENT == 0x80000,
        WAIT_TIMEOUT == 258,
{
}

} // verus!
