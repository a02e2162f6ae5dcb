//! AppContainers: the profile that a sandboxed process runs under, what it is
//! granted, and the exemptions by which the host reaches its servers.

use crate::container::config::{Failure, PsrootError};
use crate::text::{concat2, concat3, concat4, texts, trim, trimmed};
use crate::wide::{to_wide, wide};
use vstd::prelude::*;

verus! {

/// An entry of a directory that leads elsewhere.
pub const FILE_ATTRIBUTE_REPARSE_POINT: u32 = 0x0400;

/// How far the making of a profile has come.
#[derive(Clone, Copy, Debug, PartialEq, Eq, Structural)]
pub enum ProfileStage {
    Create,
    Derive,
    Recreate,
    Finished,
}

/// What is to be done next to make a profile.
#[derive(Debug)]
pub enum ProfileAction {
    /// Free what was given, if `free` is set, and ask for the identity of the
    /// profile that exists.
    Derive { free: bool },
    /// Delete the profile and make it again.
    DeleteAndCreate,
    Finish(Result<AppContainerProfile, PsrootError>),
}

/// A profile that is being made.
#[derive(Debug)]
pub struct ProfileRequest {
    pub name: Vec<u16>,
    pub display: Vec<u16>,
    pub description: Vec<u16>,
    pub stage: ProfileStage,
}

/// The profile that a sandboxed process runs under.
#[derive(Debug)]
pub struct AppContainerProfile {
    pub name: Vec<u16>,
    /// The address of its identity.
    pub sid: u64,
}

pub open spec fn container_profile(id: Seq<char>) -> Seq<char> {
    "psroot.container."@ + id
}

impl AppContainerProfile {
    /// The request for the profile of a container.
    pub fn create(container_id: &str) -> (r: ProfileRequest)
        ensures
            r.name@ == wide(container_profile(container_id@)),
            r.display@ == wide("Psroot Container "@ + container_id@),
            r.description@ == wide("Psroot sandboxed container"@),
            r.stage == ProfileStage::Create,
    {
        let name = concat2("psroot.container.", container_id);
        let display = concat2("Psroot Container ", container_id);
        ProfileRequest {
            name: to_wide(name.as_str()),
            display: to_wide(display.as_str()),
            description: to_wide("Psroot sandboxed container"),
            stage: ProfileStage::Create,
        }
    }

    pub fn sid(&self) -> (s: u64)
        ensures
            s == self.sid,
    {
        self.sid
    }

    /// Whether the identity is to be freed before the profile is deleted.
    pub fn frees_sid(&self) -> (b: bool)
        ensures
            b == (self.sid != 0),
    {
        self.sid != 0
    }
}

/// What follows where a call that gives an identity succeeded.
fn finish(name: &Vec<u16>, sid: u64) -> (r: Result<AppContainerProfile, PsrootError>)
    ensures
        match r {
            Ok(p) => sid != 0 && p.sid == sid && p.name@ == name@,
            Err(e) => sid == 0 && e@ == Failure::Other("AppContainer SID is null"@),
        },
{
    if sid == 0 {
        return Err(PsrootError::Other("AppContainer SID is null".to_owned()));
    }
    Ok(AppContainerProfile { name: name.clone(), sid })
}

impl ProfileRequest {
    /// Takes what the last call returned and the identity that it gave (0 for
    /// none). A profile that could not be made may exist; its identity is then
    /// asked for, and where that fails it is deleted and made again.
    pub fn next(&mut self, result: u32, sid: u64) -> (a: ProfileAction)
        requires
            old(self).stage != ProfileStage::Finished,
        ensures
            final(self).name == old(self).name,
            final(self).display == old(self).display,
            final(self).description == old(self).description,
            match a {
                ProfileAction::Derive { free } => {
                    &&& result != 0 && old(self).stage == ProfileStage::Create
                    &&& free == (sid != 0)
                    &&& final(self).stage == ProfileStage::Derive
                },
                ProfileAction::DeleteAndCreate => {
                    &&& result != 0 && old(self).stage == ProfileStage::Derive
                    &&& final(self).stage == ProfileStage::Recreate
                },
                ProfileAction::Finish(Ok(p)) => {
                    &&& result == 0 && sid != 0
                    &&& p.sid == sid && p.name@ == old(self).name@
                    &&& final(self).stage == ProfileStage::Finished
                },
                ProfileAction::Finish(Err(e)) => {
                    &&& final(self).stage == ProfileStage::Finished
                    &&& if result == 0 {
                        sid == 0 && e@ == Failure::Other("AppContainer SID is null"@)
                    } else {
                        old(self).stage == ProfileStage::Recreate && e@ == (Failure::Hresult {
                            op: "CreateAppContainerProfile"@,
                            code: result,
                        })
                    }
                },
            },
    {
        if result == 0 {
            self.stage = ProfileStage::Finished;
            return ProfileAction::Finish(finish(&self.name, sid));
        }
        match self.stage {
            ProfileStage::Create => {
                self.stage = ProfileStage::Derive;
                ProfileAction::Derive { free: sid != 0 }
            },
            ProfileStage::Derive => {
                self.stage = ProfileStage::Recreate;
                ProfileAction::DeleteAndCreate
            },
            _ => {
                self.stage = ProfileStage::Finished;
                ProfileAction::Finish(Err(PsrootError::hr("CreateAppContainerProfile", result)))
            },
        }
    }
}

/// What the program that keeps the exemptions is asked to do.
#[derive(Clone, Copy, Debug, PartialEq, Eq, Structural)]
pub enum LoopbackCall {
    Add,
    /// Keep inbound connections open for as long as it runs.
    Session,
    Delete,
}

pub open spec fn loopback_switch(call: LoopbackCall) -> Seq<char> {
    match call {
        LoopbackCall::Add => "-a"@,
        LoopbackCall::Session => "-is"@,
        LoopbackCall::Delete => "-d"@,
    }
}

pub open spec fn loopback_words(call: LoopbackCall, profile: Seq<char>) -> Seq<Seq<char>> {
    seq!["LoopbackExempt"@, loopback_switch(call), "-n="@ + profile]
}

/// The arguments with which `CheckNetIsolation.exe` is started.
pub fn loopback_args(call: LoopbackCall, profile: &str) -> (v: Vec<String>)
    ensures
        texts(v@) == loopback_words(call, profile@),
{
    let switch = match call {
        LoopbackCall::Add => "-a",
        LoopbackCall::Session => "-is",
        LoopbackCall::Delete => "-d",
    };
    let v = vec!["LoopbackExempt".to_owned(), switch.to_owned(), concat2("-n=", profile)];
    assert(texts(v@) =~= loopback_words(call, profile@));
    v
}

/// Whether a session for inbound connections is started: not where the program
/// could not be started to add the exemption.
pub fn add_loopback_exemption(program_started: bool) -> (session: bool)
    ensures
        session == program_started,
{
    program_started
}

/// The sessions that keep inbound connections open, one at most for a profile.
#[derive(Debug)]
pub struct InboundSessions {
    /// The profile and the process that keeps the session.
    pub sessions: Vec<(String, u32)>,
}

/// The session of a profile.
pub open spec fn session_of(s: Seq<(String, u32)>, profile: Seq<char>) -> Option<u32>
    decreases s.len(),
{
    if s.len() == 0 {
        None
    } else if s.last().0@ == profile {
        Some(s.last().1)
    } else {
        session_of(s.drop_last(), profile)
    }
}

/// The sessions of the other profiles.
pub open spec fn other_sessions(s: Seq<(String, u32)>, profile: Seq<char>) -> Seq<
    (Seq<char>, u32),
>
    decreases s.len(),
{
    if s.len() == 0 {
        seq![]
    } else if s.last().0@ == profile {
        other_sessions(s.drop_last(), profile)
    } else {
        other_sessions(s.drop_last(), profile).push((s.last().0@, s.last().1))
    }
}

/// The contents of the sessions.
pub open spec fn session_pairs(s: Seq<(String, u32)>) -> Seq<(Seq<char>, u32)> {
    s.map_values(|e: (String, u32)| (e.0@, e.1))
}

/// No profile has two sessions.
pub open spec fn distinct(s: Seq<(Seq<char>, u32)>) -> bool {
    forall|i: int, j: int| 0 <= i < j < s.len() ==> (#[trigger] s[i]).0 != (#[trigger] s[j]).0
}

proof fn lemma_other_sessions(s: Seq<(String, u32)>, profile: Seq<char>)
    ensures
        forall|i: int|
            0 <= i < other_sessions(s, profile).len() ==> {
                &&& (#[trigger] other_sessions(s, profile)[i]).0 != profile
                &&& session_pairs(s).contains(other_sessions(s, profile)[i])
            },
        distinct(session_pairs(s)) ==> distinct(other_sessions(s, profile)),
    decreases s.len(),
{
    if s.len() > 0 {
        let t = s.drop_last();
        lemma_other_sessions(t, profile);
        let all = session_pairs(s);
        assert(session_pairs(t) =~= all.drop_last());
        assert forall|i: int| 0 <= i < other_sessions(s, profile).len() implies {
            &&& (#[trigger] other_sessions(s, profile)[i]).0 != profile
            &&& session_pairs(s).contains(other_sessions(s, profile)[i])
        } by {
            let o = other_sessions(t, profile);
            if i < o.len() {
                assert(other_sessions(s, profile)[i] == o[i]);
                let k = choose|k: int| 0 <= k < session_pairs(t).len() && session_pairs(t)[k] == o[i];
                assert(all[k] == o[i]);
            } else {
                assert(all[s.len() - 1] == other_sessions(s, profile)[i]);
            }
        }
        if distinct(all) {
            assert(distinct(session_pairs(t))) by {
                assert forall|i: int, j: int| 0 <= i < j < session_pairs(t).len() implies (
                #[trigger] session_pairs(t)[i]).0 != (#[trigger] session_pairs(t)[j]).0 by {
                    assert(all[i] == session_pairs(t)[i] && all[j] == session_pairs(t)[j]);
                }
            }
            let o = other_sessions(t, profile);
            if s.last().0@ != profile {
                assert forall|i: int, j: int| 0 <= i < j < o.push(
                    (s.last().0@, s.last().1),
                ).len() implies (#[trigger] o.push((s.last().0@, s.last().1))[i]).0 != (
                #[trigger] o.push((s.last().0@, s.last().1))[j]).0 by {
                    if j == o.len() {
                        let k = choose|k: int|
                            0 <= k < session_pairs(t).len() && session_pairs(t)[k] == o[i];
                        assert(all[k].0 != all[s.len() - 1].0);
                    }
                }
            }
        }
    }
}

impl InboundSessions {
    pub open spec fn wf(&self) -> bool {
        distinct(session_pairs(self.sessions@))
    }

    pub fn new() -> (s: Self)
        ensures
            s.wf(),
            s.sessions@.len() == 0,
    {
        InboundSessions { sessions: Vec::new() }
    }

    fn take_out(&mut self, profile: &str) -> (r: Option<u32>)
        requires
            old(self).wf(),
        ensures
            final(self).wf(),
            r == session_of(old(self).sessions@, profile@),
            session_pairs(final(self).sessions@) == other_sessions(old(self).sessions@, profile@),
    {
        let mut rest: Vec<(String, u32)> = Vec::new();
        let mut found: Option<u32> = None;
        let mut i: usize = 0;
        assert(self.sessions@.take(0) =~= Seq::<(String, u32)>::empty());
        assert(session_pairs(rest@) =~= Seq::<(Seq<char>, u32)>::empty());
        while i < self.sessions.len()
            invariant
                i <= self.sessions.len(),
                self.sessions == old(self).sessions,
                found == session_of(self.sessions@.take(i as int), profile@),
                session_pairs(rest@) == other_sessions(self.sessions@.take(i as int), profile@),
            decreases self.sessions.len() - i,
        {
            proof {
                let t = self.sessions@.take(i + 1);
                assert(t.drop_last() =~= self.sessions@.take(i as int));
                assert(t.last() == self.sessions@[i as int]);
            }
            if crate::text::same(self.sessions[i].0.as_str(), profile) {
                found = Some(self.sessions[i].1);
            } else {
                let ghost before = rest@;
                let e = (self.sessions[i].0.clone(), self.sessions[i].1);
                rest.push(e);
                assert(session_pairs(rest@) =~= session_pairs(before).push((e.0@, e.1)));
            }
            i = i + 1;
        }
        proof {
            assert(self.sessions@.take(self.sessions@.len() as int) =~= self.sessions@);
            lemma_other_sessions(self.sessions@, profile@);
        }
        self.sessions = rest;
        found
    }

    /// Takes note of a session; the one that the profile had is to be ended.
    pub fn register_inbound_session(&mut self, profile: &str, process: u32) -> (ended: Option<u32>)
        requires
            old(self).wf(),
        ensures
            final(self).wf(),
            ended == session_of(old(self).sessions@, profile@),
            session_pairs(final(self).sessions@) == other_sessions(
                old(self).sessions@,
                profile@,
            ).push((profile@, process)),
    {
        let ended = self.take_out(profile);
        let ghost before = self.sessions@;
        proof {
            lemma_other_sessions(old(self).sessions@, profile@);
        }
        let e = (profile.to_owned(), process);
        self.sessions.push(e);
        assert(session_pairs(self.sessions@) =~= session_pairs(before).push((profile@, process)));
        ended
    }

    /// Forgets the session of a profile, which is to be ended.
    pub fn kill_inbound_session(&mut self, profile: &str) -> (ended: Option<u32>)
        requires
            old(self).wf(),
        ensures
            final(self).wf(),
            ended == session_of(old(self).sessions@, profile@),
            session_pairs(final(self).sessions@) == other_sessions(old(self).sessions@, profile@),
    {
        self.take_out(profile)
    }
}

/// The text by which an identity is granted all rights, for what will be made in
/// a directory too.
pub open spec fn full_grant(sid: Seq<char>) -> Seq<char> {
    "*"@ + sid + ":(OI)(CI)(F)"@
}

/// The arguments that grant an identity access to the root directory itself.
pub open spec fn root_grant(dir: Seq<char>, sid: Seq<char>) -> Seq<Seq<char>> {
    seq![dir, "/grant"@, full_grant(sid), "/Q"@]
}

/// The arguments that grant an identity access to a directory and all below it.
pub open spec fn tree_grant(dir: Seq<char>, sid: Seq<char>) -> Seq<Seq<char>> {
    seq![dir, "/grant"@, full_grant(sid), "/T"@, "/C"@, "/Q"@]
}

/// The arguments with which `icacls` grants an identity access to the root
/// directory itself, or to a directory in it with all below.
pub fn grant_args(dir: &str, sid: &str, tree: bool) -> (v: Vec<String>)
    ensures
        texts(v@) == if tree {
            tree_grant(dir@, sid@)
        } else {
            root_grant(dir@, sid@)
        },
{
    let grant = concat3("*", sid, ":(OI)(CI)(F)");
    if tree {
        let v = vec![
            dir.to_owned(),
            "/grant".to_owned(),
            grant,
            "/T".to_owned(),
            "/C".to_owned(),
            "/Q".to_owned(),
        ];
        assert(texts(v@) =~= tree_grant(dir@, sid@));
        v
    } else {
        let v = vec![dir.to_owned(), "/grant".to_owned(), grant, "/Q".to_owned()];
        assert(texts(v@) =~= root_grant(dir@, sid@));
        v
    }
}

/// What is known of an entry of the root directory.
#[derive(Clone, Copy, Debug, PartialEq, Eq, Structural)]
pub struct DirEntry {
    pub symlink: bool,
    pub directory: bool,
    pub attributes: u32,
}

/// Whether access is granted to all below an entry of the root directory: only
/// to a directory of its own, not to one that leads elsewhere.
pub open spec fn granted_below(e: DirEntry) -> bool {
    !e.symlink && e.directory && e.attributes & FILE_ATTRIBUTE_REPARSE_POINT == 0
}

/// Whether access is granted to all below an entry of the root directory; an
/// entry of which nothing could be learnt is passed over.
pub fn grant_appcontainer_access(entry: Option<DirEntry>) -> (b: bool)
    ensures
        b == match entry {
            Some(e) => granted_below(e),
            None => false,
        },
{
    match entry {
        None => false,
        Some(e) => {
            if e.symlink {
                return false;
            }
            if e.attributes & FILE_ATTRIBUTE_REPARSE_POINT != 0 {
                return false;
            }
            e.directory
        },
    }
}

/// Why an identity could not be granted access to the root directory.
pub fn grant_refused(dir: &str, output: &str) -> (e: PsrootError)
    ensures
        e@ == Failure::Other(
            "icacls failed to grant AppContainer access to "@ + dir@ + ": "@ + trim(output@),
        ),
{
    let t = trimmed(output);
    PsrootError::Other(
        concat4("icacls failed to grant AppContainer access to ", dir, ": ", t.as_str()),
    )
}

/// What lies behind an entry that leads out of the root directory is never
/// granted.
pub proof fn law_host_is_not_granted(e: DirEntry)
    ensures
        e.symlink ==> !granted_below(e),
        e.attributes & FILE_ATTRIBUTE_REPARSE_POINT != 0 ==> !granted_below(e),
{
}

/// The steps of making a restricted token.
#[derive(Clone, Copy, Debug, PartialEq, Eq, Structural)]
pub enum TokenStep {
    Open,
    Restrict,
    LowLabel,
    SetLevel,
}

/// The token loses all privileges and may write only where it is let.
pub const RESTRICTED_TOKEN_FLAGS: u32 = 0x5;

/// The number of the identity of low integrity.
pub const LOW_LABEL_SID: i32 = 66;

/// What follows where a step of making a restricted token fails.
#[derive(Debug)]
pub struct TokenFailure {
    /// The process's own token is to be closed.
    pub close_token: bool,
    /// The restricted token is to be closed.
    pub close_restricted: bool,
    pub error: PsrootError,
}

pub open spec fn token_call(step: TokenStep) -> Seq<char> {
    match step {
        TokenStep::Open => "OpenProcessToken"@,
        TokenStep::Restrict => "CreateRestrictedToken"@,
        TokenStep::LowLabel => "CreateWellKnownSid(LowLabel)"@,
        TokenStep::SetLevel => "SetTokenInformation(IntegrityLevel)"@,
    }
}

/// What follows where a step of making a restricted token fails. The process's
/// own token is closed after the second step in any case, so each token that
/// was opened is closed.
pub fn create_restricted_token(failed: TokenStep, code: u32) -> (f: TokenFailure)
    ensures
        f.close_token == (failed == TokenStep::Restrict),
        f.close_restricted == (failed == TokenStep::LowLabel || failed == TokenStep::SetLevel),
        f.error@ == (Failure::Win32 { op: token_call(failed), code }),
{
    let name = match failed {
        TokenStep::Open => "OpenProcessToken",
        TokenStep::Restrict => "CreateRestrictedToken",
        TokenStep::LowLabel => "CreateWellKnownSid(LowLabel)",
        TokenStep::SetLevel => "SetTokenInformation(IntegrityLevel)",
    };
    TokenFailure {
        close_token: failed == TokenStep::Restrict,
        close_restricted: failed == TokenStep::LowLabel || failed == TokenStep::SetLevel,
        error: PsrootError::win32(name, code),
    }
}

/// The program that keeps loopback exemptions is asked for the profile that is
/// named, to add one, to keep it open for inbound connections, or to delete it.
pub proof fn law_loopback_words(call: LoopbackCall, profile: Seq<char>)
    ensures
        loopback_words(call, profile).len() == 3,
        loopback_words(call, profile)[0] == "LoopbackExempt"@,
        loopback_words(call, profile)[2] == "-n="@ + profile,
        call == LoopbackCall::Add ==> loopback_words(call, profile)[1] == "-a"@,
        call == LoopbackCall::Session ==> loopback_words(call, profile)[1] == "-is"@,
        call == LoopbackCall::Delete ==> loopback_words(call, profile)[1] == "-d"@,
{
}

/// A container is given full access to a directory and to what is in it, for its
/// own identity and no other; a whole tree is gone through, going on after a
/// failure.
pub proof fn law_full_grants(dir: Seq<char>, sid: Seq<char>)
    ensures
        root_grant(dir, sid) == seq![dir, "/grant"@, "*"@ + sid + ":(OI)(CI)(F)"@, "/Q"@],
        tree_grant(dir, sid) == seq![
            dir,
            "/grant"@,
            "*"@ + sid + ":(OI)(CI)(F)"@,
            "/T"@,
            "/C"@,
            "/Q"@,
        ],
{
}

/// Exactly the real directories below a root are gone through: no link and no
/// junction, behind which the host lies.
pub proof fn law_granted_directories(e: DirEntry)
    ensures
        granted_below(e) <==> e.directory && !e.symlink && e.attributes & 0x400 == 0,
{
}

/// The profile of a container goes by its id, and two containers never share
/// one.
pub proof fn law_profile_names(a: Seq<char>, b: Seq<char>)
    ensures
        container_profile(a) == "psroot.container."@ + a,
        container_profile(a) == container_profile(b) ==> a == b,
{
    let n = "psroot.container."@.len() as int;
    assert(container_profile(a).skip(n) =~= a);
    assert(container_profile(b).skip(n) =~= b);
}

/// A restricted token loses its privileges and is that of a plain user, its
/// level is low, and an error names the function that failed.
pub proof fn law_restricted_token(step: TokenStep)
    ensures
        RESTRICTED_TOKEN_FLAGS == 0x1u32 | 0x4,
        LOW_LABEL_SID == 66,
        step == TokenStep::Open ==> token_call(step) == "OpenProcessToken"@,
        step == TokenStep::Restrict ==> token_call(step) == "CreateRestrictedToken"@,
        step == TokenStep::LowLabel ==> token_call(step) == "CreateWellKnownSid(LowLabel)"@,
        step == TokenStep::SetLevel ==> token_call(step)
            == "SetTokenInformation(IntegrityLevel)"@,
{
    assert(0x5u32 == 0x1u32 | 0x4) by (bit_vector);
}

/// Ending the session of a profile leaves none of it and touches no other.
pub proof fn law_sessions(s: Seq<(String, u32)>, profile: Seq<char>, i: int)
    requires
        0 <= i < s.len(),
    ensures
        session_of(s, profile) is Some <==> exists|j: int|
            0 <= j < s.len() && (#[trigger] s[j]).0@ == profile,
        forall|k: int|
            0 <= k < other_sessions(s, profile).len() ==> (#[trigger] other_sessions(
                s,
                profile,
            )[k]).0 != profile,
        s[i].0@ != profile ==> other_sessions(s, profile).contains((s[i].0@, s[i].1)),
        s[i].0@ == profile && distinct(session_pairs(s)) ==> session_of(s, profile) == Some(s[i].1),
    decreases s.len(),
{
    let init = s.drop_last();
    let o = other_sessions(s, profile);
    let p = other_sessions(init, profile);
    assert(s[s.len() - 1] == s.last());
    if init.len() > 0 {
        if distinct(session_pairs(s)) {
            assert forall|a: int, b: int| 0 <= a < b < session_pairs(init).len() implies (
            #[trigger] session_pairs(init)[a]).0 != (#[trigger] session_pairs(init)[b]).0 by {
                assert(session_pairs(s)[a] == session_pairs(init)[a]);
                assert(session_pairs(s)[b] == session_pairs(init)[b]);
            }
        }
        law_sessions(
            init,
            profile,
            if i < init.len() {
                i
            } else {
                0
            },
        );
        if exists|j: int| 0 <= j < init.len() && (#[trigger] init[j]).0@ == profile {
            let j = choose|j: int| 0 <= j < init.len() && (#[trigger] init[j]).0@ == profile;
            assert(s[j] == init[j]);
        }
        if exists|j: int| 0 <= j < s.len() && (#[trigger] s[j]).0@ == profile {
            let j = choose|j: int| 0 <= j < s.len() && (#[trigger] s[j]).0@ == profile;
            if j < init.len() {
                assert(init[j] == s[j]);
            }
        }
        assert forall|k: int| 0 <= k < o.len() implies (#[trigger] o[k]).0 != profile by {
            if k < p.len() {
                assert(o[k] == p[k]);
            }
        }
        if i < init.len() {
            assert(init[i] == s[i]);
            if s[i].0@ != profile {
                let x = (s[i].0@, s[i].1);
                let k = choose|k: int| 0 <= k < p.len() && p[k] == x;
                assert(o[k] == x);
            } else if distinct(session_pairs(s)) {
                assert(session_pairs(s)[i].0 != session_pairs(s)[s.len() - 1].0);
            }
        } else if s[i].0@ != profile {
            assert(o[p.len() as int] == (s[i].0@, s[i].1));
        }
    } else {
        assert(p.len() == 0);
        if s[i].0@ != profile {
            assert(o[0] == (s[i].0@, s[i].1));
        }
    }
}

} // verus!
