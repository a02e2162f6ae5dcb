//! What the running Windows offers.

use crate::container::sandbox::IsolationLevel;
use vstd::prelude::*;

verus! {

/// The first build with the bind filter.
pub const BIND_FILTER_BUILD: u32 = 26100;

/// The first build with server silos.
pub const SILO_BUILD: u32 = 17763;

/// What the running Windows offers.
#[derive(Clone, Copy, Debug, PartialEq, Eq, Structural)]
pub struct Capabilities {
    pub job_objects: bool,
    pub bind_filter: bool,
    pub server_silos: bool,
    pub is_admin: bool,
    pub build_number: u32,
}

impl Capabilities {
    /// What a build of Windows offers to an administrator or another user.
    pub fn detect(build_number: u32, is_admin: bool) -> (c: Self)
        ensures
            c == offered(build_number, is_admin),
    {
        Capabilities {
            job_objects: true,
            bind_filter: build_number >= BIND_FILTER_BUILD && is_admin,
            server_silos: build_number >= SILO_BUILD && is_admin,
            is_admin,
            build_number,
        }
    }
}

impl IsolationLevel {
    /// The isolation that these capabilities allow.
    pub fn detect(caps: &Capabilities, appcontainer: bool) -> (l: Self)
        ensures
            l == level_of(*caps, appcontainer),
    {
        IsolationLevel {
            appcontainer,
            env_sanitized: true,
            bind_filter: caps.bind_filter,
            server_silo: caps.server_silos,
            is_admin: caps.is_admin,
            build_number: caps.build_number,
        }
    }
}

/// Without administrator rights nothing beyond job objects is offered, and
/// whatever a build offers a later one offers too.
pub proof fn law_capabilities(a: Capabilities, b: Capabilities)
    requires
        a == (Capabilities {
            job_objects: true,
            bind_filter: a.build_number >= BIND_FILTER_BUILD && a.is_admin,
            server_silos: a.build_number >= SILO_BUILD && a.is_admin,
            ..a
        }),
        b == (Capabilities {
            job_objects: true,
            bind_filter: b.build_number >= BIND_FILTER_BUILD && b.is_admin,
            server_silos: b.build_number >= SILO_BUILD && b.is_admin,
            ..b
        }),
        a.is_admin == b.is_admin,
        a.build_number <= b.build_number,
    ensures
        !a.is_admin ==> !a.bind_filter && !a.server_silos,
        a.bind_filter ==> b.bind_filter && a.server_silos,
        a.server_silos ==> b.server_silos,
{
}

/// What a build of Windows offers.
pub open spec fn offered(build_number: u32, is_admin: bool) -> Capabilities {
    Capabilities {
        job_objects: true,
        bind_filter: build_number >= BIND_FILTER_BUILD && is_admin,
        server_silos: build_number >= SILO_BUILD && is_admin,
        is_admin,
        build_number,
    }
}

/// The isolation that capabilities allow.
pub open spec fn level_of(caps: Capabilities, appcontainer: bool) -> IsolationLevel {
    IsolationLevel {
        appcontainer,
        env_sanitized: true,
        bind_filter: caps.bind_filter,
        server_silo: caps.server_silos,
        is_admin: caps.is_admin,
        build_number: caps.build_number,
    }
}

/// What is offered, by the builds from which on it is: jobs always, and to an
/// administrator silos from Windows 10 1809 on and the bind filter from Windows
/// 11 24H2 on. The environment is always sanitized.
pub proof fn law_offered(build: u32, admin: bool, appcontainer: bool)
    ensures
        offered(build, admin).job_objects,
        offered(build, admin).bind_filter <==> build >= 26100 && admin,
        offered(build, admin).server_silos <==> build >= 17763 && admin,
        offered(build, admin).is_admin == admin,
        offered(build, admin).build_number == build,
        level_of(offered(build, admin), appcontainer).bind_filter <==> build >= 26100 && admin,
        level_of(offered(build, admin), appcontainer).server_silo <==> build >= 17763 && admin,
        level_of(offered(build, admin), appcontainer).appcontainer == appcontainer,
        level_of(offered(build, admin), appcontainer).env_sanitized,
        level_of(offered(build, admin), appcontainer).is_admin == admin,
        level_of(offered(build, admin), appcontainer).build_number == build,
{
}

} // verus!
