//! Bind links: paths that lead to other paths of the host.

use crate::container::config::{Failure, PsrootError};
use crate::container::env::{pairs, remove_var, without};
use crate::text::{concat5, decimal, decimal_text, parse_number, parsed, split, split_char};
use vstd::prelude::*;

verus! {

pub const FLAG_NONE: i32 = 0;

pub const FLAG_READ_ONLY: i32 = 1;

pub const FLAG_MERGED: i32 = 2;

/// The first build of Windows that has bind links.
pub const FIRST_BUILD: u32 = 26100;

/// How a bind link is made.
#[derive(Clone, Copy, Debug, PartialEq, Eq, Structural)]
pub struct BindLinkOptions {
    pub read_only: bool,
    pub merged: bool,
}

impl Default for BindLinkOptions {
    fn default() -> (o: Self)
        ensures
            !o.read_only,
            !o.merged,
    {
        BindLinkOptions { read_only: false, merged: false }
    }
}

impl BindLinkOptions {
    pub open spec fn spec_flags(self) -> i32 {
        match (self.read_only, self.merged) {
            (false, false) => FLAG_NONE,
            (true, false) => FLAG_READ_ONLY,
            (false, true) => FLAG_MERGED,
            (true, true) => 3,
        }
    }

    /// The flags with which the link is made.
    pub fn flags(&self) -> (f: i32)
        ensures
            f == self.spec_flags(),
    {
        let mut flags: i32 = FLAG_NONE;
        if self.read_only {
            flags = flags + FLAG_READ_ONLY;
        }
        if self.merged {
            flags = flags + FLAG_MERGED;
        }
        flags
    }
}

/// The bind links that were made and not yet removed, oldest first.
#[derive(Debug)]
pub struct BindFilter {
    /// The path and what it leads to.
    pub links: Vec<(String, String)>,
}

/// The paths of links, the newest first.
pub open spec fn newest_first(links: Seq<(Seq<char>, Seq<char>)>) -> Seq<Seq<char>>
    decreases links.len(),
{
    if links.len() == 0 {
        seq![]
    } else {
        seq![links.last().0] + newest_first(links.drop_last())
    }
}

impl BindFilter {
    pub fn new() -> (f: Self)
        ensures
            f.links@.len() == 0,
    {
        BindFilter { links: Vec::new() }
    }

    /// Takes note of what came of making a link from `virtual_path` to
    /// `backing_path`: `result` is what the call returned, none where the host
    /// has no such call.
    pub fn create(&mut self, virtual_path: &str, backing_path: &str, result: Option<u32>) -> (r:
        Result<(), PsrootError>)
        ensures
            match r {
                Ok(_) => link_failure("CreateBindLink"@, result) is None && pairs(
                    final(self).links@,
                ) == pairs(old(self).links@).push((virtual_path@, backing_path@)),
                Err(e) => final(self).links == old(self).links && link_failure(
                    "CreateBindLink"@,
                    result,
                ) == Some(e@),
            },
    {
        match result {
            None => {
                proof {
                    reveal_strlit("CreateBindLink");
                    reveal_strlit(" not available on this system");
                    reveal_strlit("CreateBindLink not available on this system");
                    assert("CreateBindLink not available on this system"@ =~= "CreateBindLink"@
                        + " not available on this system"@);
                }
                Err(
                    PsrootError::Unsupported {
                        detail: "CreateBindLink not available on this system".to_owned(),
                    },
                )
            },
            Some(c) => {
                if c != 0 {
                    return Err(PsrootError::hr("CreateBindLink", c));
                }
                let ghost before = self.links@;
                let link = (virtual_path.to_owned(), backing_path.to_owned());
                self.links.push(link);
                assert(pairs(self.links@) =~= pairs(before).push((virtual_path@, backing_path@)));
                Ok(())
            },
        }
    }

    /// Takes note of what came of removing the link at `virtual_path`.
    pub fn remove(&mut self, virtual_path: &str, result: Option<u32>) -> (r: Result<
        (),
        PsrootError,
    >)
        ensures
            match r {
                Ok(_) => link_failure("RemoveBindLink"@, result) is None && pairs(
                    final(self).links@,
                ) == without(pairs(old(self).links@), virtual_path@, false),
                Err(e) => final(self).links == old(self).links && link_failure(
                    "RemoveBindLink"@,
                    result,
                ) == Some(e@),
            },
    {
        match result {
            None => {
                proof {
                    reveal_strlit("RemoveBindLink");
                    reveal_strlit(" not available on this system");
                    reveal_strlit("RemoveBindLink not available on this system");
                    assert("RemoveBindLink not available on this system"@ =~= "RemoveBindLink"@
                        + " not available on this system"@);
                }
                Err(
                    PsrootError::Unsupported {
                        detail: "RemoveBindLink not available on this system".to_owned(),
                    },
                )
            },
            Some(c) => {
                if c != 0 {
                    return Err(PsrootError::hr("RemoveBindLink", c));
                }
                self.links = remove_var(&self.links, virtual_path, false);
                Ok(())
            },
        }
    }

    /// Forgets all links, and tells which paths are to be removed, in this
    /// order: the newest first; none where the host has no such call.
    pub fn remove_all(&mut self, available: bool) -> (paths: Vec<String>)
        ensures
            final(self).links@.len() == 0,
            crate::text::texts(paths@) == if available {
                newest_first(pairs(old(self).links@))
            } else {
                seq![]
            },
    {
        let mut paths: Vec<String> = Vec::new();
        let ghost all = pairs(self.links@);
        let mut n: usize = self.links.len();
        assert(all.take(n as int) =~= all);
        assert(crate::text::texts(paths@) =~= Seq::<Seq<char>>::empty());
        assert(Seq::<Seq<char>>::empty() + newest_first(all) =~= newest_first(all));
        while available && n > 0
            invariant
                n <= self.links.len(),
                self.links == old(self).links,
                all == pairs(self.links@),
                available ==> crate::text::texts(paths@) + newest_first(all.take(n as int))
                    == newest_first(all),
                !available ==> paths@.len() == 0,
            decreases n,
        {
            n = n - 1;
            let ghost before = paths@;
            let p = self.links[n].0.clone();
            paths.push(p);
            proof {
                let t = all.take(n + 1);
                assert(t.drop_last() =~= all.take(n as int));
                assert(t.last() == all[n as int]);
                assert(crate::text::texts(paths@) =~= crate::text::texts(before).push(p@));
                assert(crate::text::texts(before) + (seq![p@] + newest_first(all.take(n as int)))
                    =~= crate::text::texts(before).push(p@) + newest_first(all.take(n as int)));
            }
        }
        proof {
            if available {
                assert(all.take(0) =~= Seq::<(Seq<char>, Seq<char>)>::empty());
                assert(crate::text::texts(paths@) + Seq::<Seq<char>>::empty()
                    =~= crate::text::texts(paths@));
            } else {
                assert(crate::text::texts(paths@) =~= Seq::<Seq<char>>::empty());
            }
        }
        self.links = Vec::new();
        paths
    }

    /// The number of links.
    pub fn len(&self) -> (n: usize)
        ensures
            n == self.links@.len(),
    {
        self.links.len()
    }

    pub fn is_empty(&self) -> (b: bool)
        ensures
            b == (self.links@.len() == 0),
    {
        self.links.len() == 0
    }

    /// Whether a host of this version has bind links.
    pub fn is_available(version: &str) -> (b: bool)
        ensures
            b == filter_offered(version@),
    {
        os_build_number(version) >= FIRST_BUILD
    }
}

impl Default for BindFilter {
    fn default() -> (f: Self)
        ensures
            f.links@.len() == 0,
    {
        BindFilter::new()
    }
}

/// The build in the text of a version: its third number, or 0.
pub open spec fn build_of(version: Seq<char>) -> nat {
    let parts = split(version, '.');
    if parts.len() > 2 {
        match parsed(parts[2], u32::MAX as nat) {
            Some(n) => n,
            None => 0,
        }
    } else {
        0
    }
}

/// The build in the text of a version.
pub fn os_build_number(version: &str) -> (n: u32)
    ensures
        n == build_of(version@),
{
    let parts = split_char(version, '.');
    if parts.len() > 2 {
        assert(crate::text::texts(parts@)[2] == parts@[2]@);
        match parse_number(parts[2].as_str(), u32::MAX as u64) {
            Some(n) => n as u32,
            None => 0,
        }
    } else {
        0
    }
}

/// The text of a version.
pub open spec fn version_text(major: nat, minor: nat, build: nat) -> Seq<char> {
    decimal(major) + "."@ + decimal(minor) + "."@ + decimal(build)
}

/// The text of a version.
pub fn os_version_string(major: u32, minor: u32, build: u32) -> (s: String)
    ensures
        s@ == version_text(major as nat, minor as nat, build as nat),
{
    let a = decimal_text(major as u128);
    let b = decimal_text(minor as u128);
    let c = decimal_text(build as u128);
    concat5(a.as_str(), ".", b.as_str(), ".", c.as_str())
}

proof fn lemma_no_dot(n: nat)
    ensures
        !decimal(n).contains('.'),
{
    crate::text::law_decimal_round_trip(n);
}

/// The build is read back from the text of a version.
pub proof fn law_build_round_trip(major: nat, minor: nat, build: u32)
    ensures
        build_of(version_text(major, minor, build as nat)) == build,
{
    let a = decimal(major);
    let b = decimal(minor);
    let c = decimal(build as nat);
    lemma_no_dot(major);
    lemma_no_dot(minor);
    lemma_no_dot(build as nat);
    reveal_strlit(".");
    let rest = b.push('.') + c;
    assert(version_text(major, minor, build as nat) =~= a.push('.') + rest);
    crate::text::lemma_split_head(a, '.', rest);
    crate::text::lemma_split_head(b, '.', c);
    crate::text::lemma_split_one(c, '.');
    let parts = split(version_text(major, minor, build as nat), '.');
    assert(parts =~= seq![a, b, c]);
    crate::text::law_decimal_round_trip(build as nat);
}

/// A path that was removed has no link, and the links of other paths stay in
/// their order.
pub proof fn law_removed_link_is_gone(links: Seq<(Seq<char>, Seq<char>)>, path: Seq<char>)
    ensures
        forall|i: int|
            0 <= i < without(links, path, false).len() ==> (#[trigger] without(
                links,
                path,
                false,
            )[i]).0 != path,
        without(links, path, false) == links.filter(|l: (Seq<char>, Seq<char>)| l.0 != path),
    decreases links.len(),
{
    reveal(Seq::filter);
    if links.len() > 0 {
        law_removed_link_is_gone(links.drop_last(), path);
    }
}

/// All links that were made are removed, each once, the newest first.
pub proof fn law_all_links_are_removed(links: Seq<(Seq<char>, Seq<char>)>)
    ensures
        newest_first(links).len() == links.len(),
        forall|i: int|
            0 <= i < links.len() ==> #[trigger] newest_first(links)[i] == links[links.len() - 1
                - i].0,
    decreases links.len(),
{
    if links.len() > 0 {
        law_all_links_are_removed(links.drop_last());
        assert forall|i: int| 0 <= i < links.len() implies #[trigger] newest_first(links)[i]
            == links[links.len() - 1 - i].0 by {
            if i > 0 {
                assert(newest_first(links)[i] == newest_first(links.drop_last())[i - 1]);
            }
        }
    }
}

/// Whether a version of Windows has the bind filter.
pub open spec fn filter_offered(version: Seq<char>) -> bool {
    build_of(version) >= FIRST_BUILD
}

/// A link keeps out writes exactly where it is asked to be read-only, and shows
/// both directories exactly where it is asked to merge them.
pub proof fn law_link_flags(o: BindLinkOptions)
    ensures
        o.spec_flags() == (if o.read_only {
            1int
        } else {
            0
        }) + (if o.merged {
            2int
        } else {
            0
        }),
{
}

/// The bind filter is there from one build of Windows on, whatever the version
/// before it says.
pub proof fn law_filter_builds(major: nat, minor: nat, build: u32)
    ensures
        filter_offered(version_text(major, minor, build as nat)) <==> build >= 26100,
        version_text(major, minor, build as nat) == decimal(major) + "."@ + decimal(minor) + "."@
            + decimal(build as nat),
{
    law_build_round_trip(major, minor, build);
}

/// What a call of the bind filter failed with, if it failed: `result` is what it
/// returned, and nothing where the host does not have it.
pub open spec fn link_failure(op: Seq<char>, result: Option<u32>) -> Option<Failure> {
    match result {
        None => Some(Failure::Unsupported { detail: op + " not available on this system"@ }),
        Some(c) => if c == 0 {
            None
        } else {
            Some(Failure::Hresult { op, code: c })
        },
    }
}

/// A call has succeeded exactly where it returned 0; a host without it and an
/// error are told by the name of the call.
pub proof fn law_link_failures(op: Seq<char>, code: u32)
    ensures
        link_failure(op, Some(0)) is None,
        code != 0 ==> link_failure(op, Some(code)) == Some(Failure::Hresult { op, code }),
        link_failure(op, None) == Some(
            Failure::Unsupported { detail: op + " not available on this system"@ },
        ),
{
}

} // verus!
