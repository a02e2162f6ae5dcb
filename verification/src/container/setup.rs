//! What a machine needs once before containers run on it: every application
//! package may read the system volume and the cache of staged shells.

use crate::container::config::{Failure, PsrootError};
use crate::text::{
    concat2, concat3, contains, has_char, occurs, same, texts, to_lowercase, trim, trimmed,
    unicode_lower,
};
use vstd::prelude::*;

verus! {

/// The SID of all application packages.
pub const ALL_APP_PACKAGES_SID: &'static str = "S-1-15-2-1";

/// What was found about one path.
#[derive(Clone, Debug)]
pub struct SetupCheck {
    pub path: String,
    pub has_all_app_packages: bool,
    pub note: String,
}

/// What a check holds.
#[verifier::ext_equal]
pub struct Check {
    pub path: Seq<char>,
    pub ok: bool,
    pub note: Seq<char>,
}

impl View for SetupCheck {
    type V = Check;

    open spec fn view(&self) -> Check {
        Check { path: self.path@, ok: self.has_all_app_packages, note: self.note@ }
    }
}

/// What a list of checks holds.
pub open spec fn checks(v: Seq<SetupCheck>) -> Seq<Check> {
    Seq::new(v.len(), |i: int| v[i]@)
}

/// A path with whether all application packages may read it.
pub open spec fn probes(v: Seq<(String, bool)>) -> Seq<(Seq<char>, bool)> {
    Seq::new(v.len(), |i: int| (v[i].0@, v[i].1))
}

/// The check of a path; `reason` says what the right is needed for.
pub open spec fn check_of(path: Seq<char>, ok: bool, reason: Seq<char>) -> Check {
    Check {
        path,
        ok,
        note: if ok {
            "ok"@
        } else {
            reason
        },
    }
}

/// Why a volume has to be readable.
pub open spec fn volume_reason() -> Seq<char> {
    "needed for DriveInfo.IsReady → enables PSDrive C: in pwsh"@
}

/// Why the cache has to be readable.
pub open spec fn cache_reason() -> Seq<char> {
    "needed so cached shells (pwsh, etc.) are readable inside containers"@
}

/// The checks of the volumes.
pub open spec fn volume_checks(drives: Seq<(Seq<char>, bool)>) -> Seq<Check> {
    Seq::new(drives.len(), |i: int| check_of(drives[i].0, drives[i].1, volume_reason()))
}

/// The checks of the volumes and of the cache.
pub open spec fn status(drives: Seq<(Seq<char>, bool)>, cache: Seq<char>, cache_ok: bool) -> Seq<
    Check,
> {
    volume_checks(drives).push(check_of(cache, cache_ok, cache_reason()))
}

fn make_check(path: &str, ok: bool, reason: &str) -> (c: SetupCheck)
    ensures
        c@ == check_of(path@, ok, reason@),
{
    SetupCheck {
        path: path.to_owned(),
        has_all_app_packages: ok,
        note: if ok {
            "ok".to_owned()
        } else {
            reason.to_owned()
        },
    }
}

/// The checks that failed.
pub open spec fn failed_checks(s: Seq<Check>) -> Seq<Check> {
    s.filter(|c: Check| !c.ok)
}

/// The paths that have to be given a right: the checks that failed, in order.
pub fn check_status(drives: &Vec<(String, bool)>, cache: &str, cache_ok: bool) -> (v: Vec<
    SetupCheck,
>)
    ensures
        checks(v@) == failed_checks(status(probes(drives@), cache@, cache_ok)),
        forall|i: int| 0 <= i < v.len() ==> !(#[trigger] v[i]).has_all_app_packages,
{
    let all = all_checks(drives, cache, cache_ok);
    let ghost s = checks(all@);
    let mut v: Vec<SetupCheck> = Vec::new();
    let mut i: usize = 0;
    proof {
        assert(s.take(0) =~= Seq::<Check>::empty());
        reveal(Seq::filter);
        assert(checks(v@) =~= failed_checks(s.take(0)));
    }
    while i < all.len()
        invariant
            i <= all.len(),
            s == checks(all@),
            checks(v@) == failed_checks(s.take(i as int)),
            forall|j: int| 0 <= j < v.len() ==> !(#[trigger] v[j]).has_all_app_packages,
        decreases all.len() - i,
    {
        proof {
            reveal(Seq::filter);
            let t = s.take(i + 1);
            assert(t.drop_last() =~= s.take(i as int));
            assert(t.last() == all[i as int]@);
        }
        if !all[i].has_all_app_packages {
            let ghost before = v@;
            let c = copy_check(&all[i]);
            v.push(c);
            assert(checks(v@) =~= checks(before).push(c@));
        }
        i = i + 1;
    }
    assert(s.take(s.len() as int) =~= s);
    v
}

fn copy_check(c: &SetupCheck) -> (d: SetupCheck)
    ensures
        d@ == c@,
        d.has_all_app_packages == c.has_all_app_packages,
{
    SetupCheck {
        path: c.path.clone(),
        has_all_app_packages: c.has_all_app_packages,
        note: c.note.clone(),
    }
}

/// The checks of the volumes and of the cache, from what was found about them.
pub fn all_checks(drives: &Vec<(String, bool)>, cache: &str, cache_ok: bool) -> (v: Vec<
    SetupCheck,
>)
    ensures
        checks(v@) == status(probes(drives@), cache@, cache_ok),
{
    let ghost d = probes(drives@);
    let ghost all = volume_checks(d);
    let mut v: Vec<SetupCheck> = Vec::new();
    let mut i: usize = 0;
    assert(checks(v@) =~= all.take(0));
    while i < drives.len()
        invariant
            i <= drives.len(),
            d == probes(drives@),
            all == volume_checks(d),
            checks(v@) == all.take(i as int),
        decreases drives.len() - i,
    {
        let ghost before = v@;
        let c = make_check(
            drives[i].0.as_str(),
            drives[i].1,
            "needed for DriveInfo.IsReady → enables PSDrive C: in pwsh",
        );
        v.push(c);
        proof {
            assert(checks(v@) =~= checks(before).push(c@));
            assert(all.take(i + 1) =~= all.take(i as int).push(all[i as int]));
        }
        i = i + 1;
    }
    let ghost before = v@;
    let c = make_check(
        cache,
        cache_ok,
        "needed so cached shells (pwsh, etc.) are readable inside containers",
    );
    v.push(c);
    proof {
        assert(all.take(all.len() as int) =~= all);
        assert(checks(v@) =~= checks(before).push(c@));
    }
    v
}

/// A right that has to be given.
pub struct GrantRequest<T> {
    pub path: T,
    pub perms: T,
    pub recurse: bool,
}

impl View for GrantRequest<String> {
    type V = GrantRequest<Seq<char>>;

    open spec fn view(&self) -> GrantRequest<Seq<char>> {
        GrantRequest { path: self.path@, perms: self.perms@, recurse: self.recurse }
    }
}

/// What a list of rights holds.
pub open spec fn requests(v: Seq<GrantRequest<String>>) -> Seq<GrantRequest<Seq<char>>> {
    Seq::new(v.len(), |i: int| v[i]@)
}

/// The rights on volumes that have to be given.
pub open spec fn drive_grants(drives: Seq<(Seq<char>, bool)>) -> Seq<GrantRequest<Seq<char>>>
    decreases drives.len(),
{
    if drives.len() == 0 {
        Seq::empty()
    } else {
        let rest = drive_grants(drives.drop_last());
        if drives.last().1 {
            rest
        } else {
            rest.push(GrantRequest { path: drives.last().0, perms: "(R)"@, recurse: false })
        }
    }
}

/// The rights that have to be given, in order.
pub open spec fn needed_grants(
    drives: Seq<(Seq<char>, bool)>,
    cache: Seq<char>,
    cache_ok: bool,
) -> Seq<GrantRequest<Seq<char>>> {
    if cache_ok {
        drive_grants(drives)
    } else {
        drive_grants(drives).push(
            GrantRequest { path: cache, perms: "(OI)(CI)(RX)"@, recurse: true },
        )
    }
}

/// The rights that have to be given, in order: to read each volume, and to read
/// and execute all that is in the cache.
pub fn apply(drives: &Vec<(String, bool)>, cache: &str, cache_ok: bool) -> (v: Vec<
    GrantRequest<String>,
>)
    ensures
        requests(v@) == needed_grants(probes(drives@), cache@, cache_ok),
{
    let ghost d = probes(drives@);
    let mut v: Vec<GrantRequest<String>> = Vec::new();
    let mut i: usize = 0;
    proof {
        assert(d.take(0) =~= Seq::<(Seq<char>, bool)>::empty());
        assert(requests(v@) =~= Seq::<GrantRequest<Seq<char>>>::empty());
    }
    while i < drives.len()
        invariant
            i <= drives.len(),
            d == probes(drives@),
            requests(v@) == drive_grants(d.take(i as int)),
        decreases drives.len() - i,
    {
        proof {
            let t = d.take(i + 1);
            assert(t.drop_last() =~= d.take(i as int));
            assert(t.last() == d[i as int]);
        }
        if !drives[i].1 {
            let ghost before = v@;
            let g = GrantRequest {
                path: drives[i].0.clone(),
                perms: "(R)".to_owned(),
                recurse: false,
            };
            v.push(g);
            assert(requests(v@) =~= requests(before).push(g@));
        }
        i = i + 1;
    }
    assert(d.take(d.len() as int) =~= d);
    if !cache_ok {
        let ghost before = v@;
        let g = GrantRequest {
            path: cache.to_owned(),
            perms: "(OI)(CI)(RX)".to_owned(),
            recurse: true,
        };
        v.push(g);
        assert(requests(v@) =~= requests(before).push(g@));
    }
    v
}

/// A machine that is set up needs nothing, and one that needs nothing is set
/// up: a path has to be given a right exactly where its check failed.
pub proof fn law_setup_is_idempotent(
    drives: Seq<(Seq<char>, bool)>,
    cache: Seq<char>,
    cache_ok: bool,
)
    ensures
        needed_grants(drives, cache, cache_ok).len() == 0 <==> all_ok(
            status(drives, cache, cache_ok),
        ),
{
    let s = status(drives, cache, cache_ok);
    lemma_drive_grants(drives);
    assert(s.last() == check_of(cache, cache_ok, cache_reason()));
    assert(s[s.len() - 1] == s.last());
    assert forall|i: int| 0 <= i < drives.len() implies (#[trigger] s[i]).ok == drives[i].1 by {}
    if needed_grants(drives, cache, cache_ok).len() == 0 {
        assert forall|i: int| 0 <= i < s.len() implies (#[trigger] s[i]).ok by {
            if i < drives.len() {
                assert(drives[i].1);
            }
        }
    }
    if all_ok(s) {
        assert forall|i: int| 0 <= i < drives.len() implies (#[trigger] drives[i]).1 by {
            assert(s[i].ok);
        }
    }
}

/// The rights that are given are those on the paths whose checks failed, in
/// order.
pub proof fn law_failed_checks_are_granted(
    drives: Seq<(Seq<char>, bool)>,
    cache: Seq<char>,
    cache_ok: bool,
)
    ensures
        ({
            let g = needed_grants(drives, cache, cache_ok);
            let f = failed_checks(status(drives, cache, cache_ok));
            &&& g.len() == f.len()
            &&& forall|i: int| 0 <= i < g.len() ==> (#[trigger] g[i]).path == f[i].path
        }),
{
    let v = volume_checks(drives);
    let s = status(drives, cache, cache_ok);
    lemma_volume_grants(drives);
    reveal(Seq::filter);
    assert(s.drop_last() =~= v);
    assert(failed_checks(s) == if cache_ok {
        failed_checks(v)
    } else {
        failed_checks(v).push(s.last())
    });
}

proof fn lemma_volume_grants(drives: Seq<(Seq<char>, bool)>)
    ensures
        ({
            let g = drive_grants(drives);
            let f = failed_checks(volume_checks(drives));
            &&& g.len() == f.len()
            &&& forall|i: int| 0 <= i < g.len() ==> (#[trigger] g[i]).path == f[i].path
        }),
    decreases drives.len(),
{
    reveal(Seq::filter);
    if drives.len() > 0 {
        let init = drives.drop_last();
        let v = volume_checks(drives);
        lemma_volume_grants(init);
        assert(v.drop_last() =~= volume_checks(init));
        assert(v.last() == check_of(drives.last().0, drives.last().1, volume_reason()));
    }
}

proof fn lemma_drive_grants(drives: Seq<(Seq<char>, bool)>)
    ensures
        drive_grants(drives).len() == 0 <==> forall|i: int|
            0 <= i < drives.len() ==> (#[trigger] drives[i]).1,
    decreases drives.len(),
{
    if drives.len() > 0 {
        lemma_drive_grants(drives.drop_last());
        if drive_grants(drives).len() == 0 {
            assert forall|i: int| 0 <= i < drives.len() implies (#[trigger] drives[i]).1 by {
                if i < drives.len() - 1 {
                    assert(drives.drop_last()[i] == drives[i]);
                }
            }
        }
        if forall|i: int| 0 <= i < drives.len() ==> (#[trigger] drives[i]).1 {
            assert(drives[drives.len() - 1].1);
            assert forall|i: int| 0 <= i < drives.drop_last().len() implies (
            #[trigger] drives.drop_last()[i]).1 by {
                assert(drives[i].1);
            }
        }
    }
}

/// Whether all checks succeeded.
pub open spec fn all_ok(s: Seq<Check>) -> bool {
    forall|i: int| 0 <= i < s.len() ==> (#[trigger] s[i]).ok
}

/// The lines about the checks that failed.
pub open spec fn missing_lines(s: Seq<Check>) -> Seq<char>
    decreases s.len(),
{
    if s.len() == 0 {
        Seq::empty()
    } else {
        let rest = missing_lines(s.drop_last());
        if s.last().ok {
            rest
        } else {
            rest + "  - "@ + s.last().path + " : "@ + s.last().note + "\n"@
        }
    }
}

/// What the user is told where checks failed.
pub open spec fn setup_hint(s: Seq<Check>) -> Seq<char> {
    "psroot setup required (one-time, needs admin):\n"@ + missing_lines(s)
        + "\nRun (in elevated pwsh):  psroot setup\n"@
}

/// Whether the machine is set up; the error says what is missing.
pub fn require_ready(found: &Vec<SetupCheck>) -> (r: Result<(), PsrootError>)
    ensures
        match r {
            Ok(_) => all_ok(checks(found@)),
            Err(e) => !all_ok(checks(found@)) && e@ == Failure::Other(setup_hint(checks(found@))),
        },
{
    let ghost s = checks(found@);
    let mut lines = String::new();
    let mut ready = true;
    let mut i: usize = 0;
    assert(s.take(0) =~= Seq::<Check>::empty());
    while i < found.len()
        invariant
            i <= found.len(),
            s == checks(found@),
            lines@ == missing_lines(s.take(i as int)),
            ready <==> forall|j: int| 0 <= j < i ==> (#[trigger] s[j]).ok,
        decreases found.len() - i,
    {
        proof {
            let t = s.take(i + 1);
            assert(t.drop_last() =~= s.take(i as int));
            assert(t.last() == s[i as int]);
        }
        if !found[i].has_all_app_packages {
            assert(!s[i as int].ok);
            ready = false;
            let a = concat3(lines.as_str(), "  - ", found[i].path.as_str());
            let b = concat3(a.as_str(), " : ", found[i].note.as_str());
            lines = concat2(b.as_str(), "\n");
        }
        i = i + 1;
    }
    assert(s.take(s.len() as int) =~= s);
    if ready {
        return Ok(());
    }
    Err(
        PsrootError::Other(
            concat3(
                "psroot setup required (one-time, needs admin):\n",
                lines.as_str(),
                "\nRun (in elevated pwsh):  psroot setup\n",
            ),
        ),
    )
}

/// Whether the listing of a path's rights names all application packages.
pub open spec fn names_all_packages(listing: Seq<char>) -> bool {
    occurs(listing, "ALL APPLICATION PACKAGES"@) || occurs(listing, ALL_APP_PACKAGES_SID@)
}

/// Whether all application packages may read a path, from the listing of its
/// rights; `None` where there was none.
pub fn path_grants_all_app_packages(listing: Option<&str>) -> (b: bool)
    ensures
        b == (match listing {
            Some(t) => names_all_packages(t@),
            None => false,
        }),
{
    match listing {
        Some(t) => contains(t, "ALL APPLICATION PACKAGES") || contains(t, ALL_APP_PACKAGES_SID),
        None => false,
    }
}

/// The arguments of the program that gives a right.
pub open spec fn grant_args(path: Seq<char>, sid: Seq<char>, perms: Seq<char>, recurse: bool) -> Seq<
    Seq<char>,
> {
    let base = seq![path, "/grant"@, "*"@ + sid + ":"@ + perms, "/Q"@];
    if recurse {
        base.push("/T"@)
    } else {
        base
    }
}

/// The arguments of the program that gives a right.
pub fn grant_ace(path: &str, sid: &str, perms: &str, recurse: bool) -> (v: Vec<String>)
    ensures
        texts(v@) == grant_args(path@, sid@, perms@, recurse),
{
    let who = concat3("*", sid, ":");
    let mut v = vec![
        path.to_owned(),
        "/grant".to_owned(),
        concat2(who.as_str(), perms),
        "/Q".to_owned(),
    ];
    if recurse {
        v.push("/T".to_owned());
    }
    assert(texts(v@) =~= grant_args(path@, sid@, perms@, recurse));
    v
}

/// The error of the program that gives a right, from what it printed.
pub fn grant_failure(path: &str, stdout: &str, stderr: &str) -> (e: PsrootError)
    ensures
        e@ == Failure::Other(
            "icacls grant failed for "@ + path@ + ": "@ + trim(
                trim(stdout@) + " "@ + trim(stderr@),
            ),
        ),
{
    let a = trimmed(stdout);
    let b = trimmed(stderr);
    let both = concat3(a.as_str(), " ", b.as_str());
    let both = trimmed(both.as_str());
    let head = concat3("icacls grant failed for ", path, ": ");
    PsrootError::Other(concat2(head.as_str(), both.as_str()))
}

/// The root of the system volume, if it is one of the drives that are there.
pub fn enumerate_fixed_drive_roots(letters: &[char]) -> (v: Vec<String>)
    ensures
        texts(v@) == fixed_roots(letters@),
{
    let mut v: Vec<String> = Vec::new();
    if has_char(letters, 'C') {
        v.push("C:\\".to_owned());
        assert(texts(v@) =~= seq!["C:\\"@]);
    } else {
        assert(texts(v@) =~= Seq::<Seq<char>>::empty());
    }
    v
}

/// Whether a privilege is among those of an account, whatever its case.
pub open spec fn holds_privilege(rights: Seq<Seq<char>>, name: Seq<char>) -> bool {
    exists|i: int| 0 <= i < rights.len() && unicode_lower(#[trigger] rights[i]) == unicode_lower(name)
}

/// Whether a privilege is among those of an account, whatever its case.
pub fn check_account_has_privilege(rights: &Vec<String>, name: &str) -> (b: bool)
    ensures
        b == holds_privilege(texts(rights@), name@),
{
    let want = to_lowercase(name);
    let mut i: usize = 0;
    while i < rights.len()
        invariant
            i <= rights.len(),
            want@ == unicode_lower(name@),
            forall|j: int|
                0 <= j < i ==> unicode_lower(#[trigger] texts(rights@)[j]) != unicode_lower(name@),
        decreases rights.len() - i,
    {
        assert(texts(rights@)[i as int] == rights@[i as int]@);
        let r = to_lowercase(rights[i].as_str());
        if same(r.as_str(), want.as_str()) {
            return true;
        }
        i = i + 1;
    }
    false
}

/// The roots of the drives that containers need to read.
pub open spec fn fixed_roots(letters: Seq<char>) -> Seq<Seq<char>> {
    if letters.contains('C') {
        seq!["C:\\"@]
    } else {
        Seq::empty()
    }
}

/// Setup looks at drive C alone, where the host has it. A drive is only made
/// readable, itself and nothing below; the cache is made readable and executable
/// with all that is in it; and what is there already is not asked for again.
pub proof fn law_what_setup_grants(
    drives: Seq<(Seq<char>, bool)>,
    cache: Seq<char>,
    cache_ok: bool,
    i: int,
    letters: Seq<char>,
)
    ensures
        letters.contains('C') ==> fixed_roots(letters) == seq!["C:\\"@],
        !letters.contains('C') ==> fixed_roots(letters).len() == 0,
        ({
            let g = needed_grants(drives, cache, cache_ok);
            &&& !cache_ok ==> g.last() == (GrantRequest {
                path: cache,
                perms: "(OI)(CI)(RX)"@,
                recurse: true,
            })
            &&& 0 <= i < drives.len() && !drives[i].1 ==> g.contains(
                GrantRequest { path: drives[i].0, perms: "(R)"@, recurse: false },
            )
            &&& forall|k: int|
                0 <= k < g.len() ==> (#[trigger] g[k]) == (GrantRequest {
                    path: cache,
                    perms: "(OI)(CI)(RX)"@,
                    recurse: true,
                }) || (g[k].perms == "(R)"@ && !g[k].recurse && exists|j: int|
                    0 <= j < drives.len() && !(#[trigger] drives[j]).1 && drives[j].0 == g[k].path)
        }),
{
    let d = drive_grants(drives);
    let g = needed_grants(drives, cache, cache_ok);
    lemma_drive_rights(drives);
    if 0 <= i < drives.len() && !drives[i].1 {
        let x = GrantRequest { path: drives[i].0, perms: "(R)"@, recurse: false };
        assert(d.contains(x));
        let k = choose|k: int| 0 <= k < d.len() && d[k] == x;
        assert(g[k] == x);
    }
    assert forall|k: int| 0 <= k < g.len() implies (#[trigger] g[k]) == (GrantRequest {
        path: cache,
        perms: "(OI)(CI)(RX)"@,
        recurse: true,
    }) || (g[k].perms == "(R)"@ && !g[k].recurse && exists|j: int|
        0 <= j < drives.len() && !(#[trigger] drives[j]).1 && drives[j].0 == g[k].path) by {
        if k < d.len() {
            assert(g[k] == d[k]);
        }
    }
}

proof fn lemma_drive_rights(drives: Seq<(Seq<char>, bool)>)
    ensures
        forall|i: int|
            0 <= i < drives.len() && !(#[trigger] drives[i]).1 ==> drive_grants(drives).contains(
                GrantRequest { path: drives[i].0, perms: "(R)"@, recurse: false },
            ),
        forall|k: int|
            0 <= k < drive_grants(drives).len() ==> (#[trigger] drive_grants(drives)[k]).perms
                == "(R)"@ && !drive_grants(drives)[k].recurse && exists|j: int|
                0 <= j < drives.len() && !(#[trigger] drives[j]).1 && drives[j].0 == drive_grants(
                    drives,
                )[k].path,
    decreases drives.len(),
{
    if drives.len() > 0 {
        let init = drives.drop_last();
        let d = drive_grants(drives);
        let e = drive_grants(init);
        lemma_drive_rights(init);
        assert(drives[drives.len() - 1] == drives.last());
        assert forall|i: int| 0 <= i < drives.len() && !(#[trigger] drives[i]).1 implies d.contains(
            GrantRequest { path: drives[i].0, perms: "(R)"@, recurse: false },
        ) by {
            let x = GrantRequest { path: drives[i].0, perms: "(R)"@, recurse: false };
            if i < init.len() {
                assert(init[i] == drives[i]);
                let k = choose|k: int| 0 <= k < e.len() && e[k] == x;
                assert(d[k] == x);
            } else {
                assert(d[e.len() as int] == x);
            }
        }
        assert forall|k: int| 0 <= k < d.len() implies (#[trigger] d[k]).perms == "(R)"@
            && !d[k].recurse && exists|j: int|
            0 <= j < drives.len() && !(#[trigger] drives[j]).1 && drives[j].0 == d[k].path by {
            if k < e.len() {
                assert(d[k] == e[k]);
                let j = choose|j: int|
                    0 <= j < init.len() && !(#[trigger] init[j]).1 && init[j].0 == e[k].path;
                assert(drives[j] == init[j]);
            } else {
                assert(!drives[drives.len() - 1].1);
            }
        }
    }
}

/// A right is given to the identity that is named, on the path that is named and,
/// where asked for, on all below it.
pub proof fn law_grant_words(path: Seq<char>, sid: Seq<char>, perms: Seq<char>)
    ensures
        grant_args(path, sid, perms, false) == seq![
            path,
            "/grant"@,
            "*"@ + sid + ":"@ + perms,
            "/Q"@,
        ],
        grant_args(path, sid, perms, true) == seq![
            path,
            "/grant"@,
            "*"@ + sid + ":"@ + perms,
            "/Q"@,
            "/T"@,
        ],
        ALL_APP_PACKAGES_SID@ == "S-1-15-2-1"@,
{
    assert(grant_args(path, sid, perms, true) =~= seq![
        path,
        "/grant"@,
        "*"@ + sid + ":"@ + perms,
        "/Q"@,
        "/T"@,
    ]);
}

/// A path is readable in containers exactly where its rights name all of them,
/// by their name or by their number.
pub proof fn law_listings(listing: Seq<char>)
    ensures
        names_all_packages(listing) <==> occurs(listing, "ALL APPLICATION PACKAGES"@) || occurs(
            listing,
            "S-1-15-2-1"@,
        ),
{
}

/// A check says `ok` or what it is needed for, and the message for a host that
/// is not set up names each path that is missing, with the reason, and what to
/// run.
pub proof fn law_setup_message(s: Seq<Check>, c: Check, path: Seq<char>, reason: Seq<char>)
    ensures
        check_of(path, true, reason).note == "ok"@,
        check_of(path, false, reason).note == reason,
        check_of(path, true, reason).ok && !check_of(path, false, reason).ok,
        check_of(path, true, reason).path == path && check_of(path, false, reason).path == path,
        volume_reason() == "needed for DriveInfo.IsReady → enables PSDrive C: in pwsh"@,
        cache_reason() == "needed so cached shells (pwsh, etc.) are readable inside containers"@,
        c.ok ==> missing_lines(s.push(c)) == missing_lines(s),
        !c.ok ==> missing_lines(s.push(c)) == missing_lines(s) + "  - "@ + c.path + " : "@ + c.note
            + "\n"@,
        setup_hint(s) == "psroot setup required (one-time, needs admin):\n"@ + missing_lines(s)
            + "\nRun (in elevated pwsh):  psroot setup\n"@,
{
    assert(s.push(c).drop_last() =~= s);
}

/// An account holds a privilege exactly where one of its rights is it, whatever
/// the case.
pub proof fn law_privileges(rights: Seq<Seq<char>>, name: Seq<char>, right: Seq<char>)
    ensures
        !holds_privilege(Seq::empty(), name),
        holds_privilege(rights.push(right), name) <==> holds_privilege(rights, name)
            || unicode_lower(right) == unicode_lower(name),
{
    let all = rights.push(right);
    if holds_privilege(rights, name) {
        let i = choose|i: int|
            0 <= i < rights.len() && unicode_lower(#[trigger] rights[i]) == unicode_lower(name);
        assert(all[i] == rights[i]);
    }
    if holds_privilege(all, name) {
        let i = choose|i: int|
            0 <= i < all.len() && unicode_lower(#[trigger] all[i]) == unicode_lower(name);
        if i < rights.len() {
            assert(rights[i] == all[i]);
        }
    }
    if unicode_lower(right) == unicode_lower(name) {
        assert(all[rights.len() as int] == right);
    }
}

} // verus!
