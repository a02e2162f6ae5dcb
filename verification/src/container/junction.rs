//! Junctions that name their target by the id of its volume.
//!
//! A junction whose target is written with a drive letter leads elsewhere once
//! a process has drives of its own. Written with the id of the volume it leads
//! to the same place for every process.

use crate::container::sandbox::{replace_all, replaced};
use crate::netstack::wire::{le16, le32, push_le16, push_le32};
use crate::text::{
    char_is_alpha, chars_of, concat2, concat3, is_alpha, skip, starts_with, trim_end_of,
    trim_start_of, trimmed_end_of, trimmed_start_of,
};
use crate::wide::{encode_utf16, lemma_unit_bytes_len, push_unit_bytes, unit_bytes, utf16};
use vstd::prelude::*;

verus! {

/// Marks a reparse point as a junction.
pub const REPARSE_TAG_MOUNT_POINT: u32 = 0xA0000003;

/// The id of a volume without the prefix `\\?\` and the backslashes behind it.
pub open spec fn bare_volume(guid: Seq<char>) -> Seq<char> {
    let prefix = "\\\\?\\"@;
    trim_end_of(
        if prefix.is_prefix_of(guid) {
            guid.skip(prefix.len() as int)
        } else {
            guid
        },
        '\\',
    )
}

/// `s` without the ASCII letters at its start.
pub open spec fn trim_start_alpha(s: Seq<char>) -> Seq<char>
    decreases s.len(),
{
    if s.len() > 0 && is_alpha(s[0]) {
        trim_start_alpha(s.skip(1))
    } else {
        s
    }
}

/// The path of a target from the root of its volume. `canonical` is the full
/// path of the target, `volume_path` that of the volume.
pub open spec fn path_on_volume(canonical: Seq<char>, volume_path: Seq<char>) -> Seq<char> {
    let path = replaced(canonical, "\\\\?\\"@, Seq::empty());
    let rest = if volume_path.is_prefix_of(path) {
        path.skip(volume_path.len() as int)
    } else {
        trim_start_of(trim_start_of(trim_start_alpha(path), ':'), '\\')
    };
    trim_start_of(rest, '\\')
}

/// The name that the kernel follows.
pub open spec fn substitute_name(guid: Seq<char>, rel: Seq<char>) -> Seq<char> {
    "\\??\\"@ + bare_volume(guid) + "\\"@ + rel
}

fn without_prefix(s: &str, prefix: &str) -> (r: Option<String>)
    ensures
        match r {
            Some(t) => prefix@.is_prefix_of(s@) && t@ == s@.skip(prefix@.len() as int),
            None => !prefix@.is_prefix_of(s@),
        },
{
    if starts_with(s, prefix) {
        let n: usize = chars_of(prefix).len();
        Some(skip(s, n))
    } else {
        None
    }
}

proof fn lemma_trim_start_alpha(s: Seq<char>, i: int)
    requires
        0 <= i <= s.len(),
        forall|j: int| 0 <= j < i ==> is_alpha(s[j]),
        i < s.len() ==> !is_alpha(s[i]),
    ensures
        trim_start_alpha(s) == s.skip(i),
    decreases s.len(),
{
    if i > 0 {
        lemma_trim_start_alpha(s.skip(1), i - 1);
        assert(s.skip(1).skip(i - 1) =~= s.skip(i));
    } else {
        assert(s.skip(0) =~= s);
    }
}

fn trimmed_start_alpha(s: &str) -> (r: String)
    ensures
        r@ == trim_start_alpha(s@),
{
    let v = chars_of(s);
    let mut i: usize = 0;
    while i < v.len() && char_is_alpha(v[i])
        invariant
            i <= v.len(),
            forall|j: int| 0 <= j < i ==> is_alpha(v[j]),
        decreases v.len() - i,
    {
        i = i + 1;
    }
    proof {
        lemma_trim_start_alpha(s@, i as int);
    }
    skip(s, i)
}

/// The path of a target from the root of its volume.
pub fn relative_path(canonical: &str, volume_path: &str) -> (rel: String)
    ensures
        rel@ == path_on_volume(canonical@, volume_path@),
{
    let path = replace_all(canonical, "\\\\?\\", "");
    proof {
        reveal_strlit("");
        assert(""@ =~= Seq::<char>::empty());
    }
    let rest = match without_prefix(path.as_str(), volume_path) {
        Some(r) => r,
        None => {
            let a = trimmed_start_alpha(path.as_str());
            let b = trimmed_start_of(a.as_str(), ':');
            trimmed_start_of(b.as_str(), '\\')
        },
    };
    trimmed_start_of(rest.as_str(), '\\')
}

/// The two names of a junction: the one that the kernel follows and the one
/// that is shown.
pub fn junction_names(volume_guid: &str, volume_path: &str, canonical: &str) -> (r: (
    String,
    String,
))
    ensures
        r.0@ == substitute_name(volume_guid@, path_on_volume(canonical@, volume_path@)),
        r.1@ == volume_path@ + path_on_volume(canonical@, volume_path@),
{
    let rel = relative_path(canonical, volume_path);
    let bare = match without_prefix(volume_guid, "\\\\?\\") {
        Some(s) => trimmed_end_of(s.as_str(), '\\'),
        None => trimmed_end_of(volume_guid, '\\'),
    };
    let head = concat3("\\??\\", bare.as_str(), "\\");
    let sub = concat2(head.as_str(), rel.as_str());
    let print = concat2(volume_path, rel.as_str());
    (sub, print)
}

/// The bytes of the names in a junction, terminators included.
pub open spec fn names_size(sub: Seq<char>, print: Seq<char>) -> nat {
    (2 * utf16(sub).len() + 2 + 2 * utf16(print).len() + 2) as nat
}

/// The data of a junction with these names.
pub open spec fn reparse_data(sub: Seq<char>, print: Seq<char>) -> Seq<u8> {
    let a = 2 * utf16(sub).len();
    let b = 2 * utf16(print).len();
    le32(REPARSE_TAG_MOUNT_POINT) + le16((8 + names_size(sub, print)) as u16) + le16(0) + le16(0)
        + le16(a as u16) + le16((a + 2) as u16) + le16(b as u16) + unit_bytes(utf16(sub)) + le16(0)
        + unit_bytes(utf16(print)) + le16(0)
}

/// Whether the data of a junction with these names has a size that its header
/// can hold.
pub open spec fn fits(sub: Seq<char>, print: Seq<char>) -> bool {
    8 + names_size(sub, print) <= 65535
}

pub fn junction_fits(sub: &str, print: &str) -> (b: bool)
    ensures
        b == fits(sub@, print@),
{
    let a: usize = encode_utf16(sub).len();
    let b: usize = encode_utf16(print).len();
    a <= 32767 && b <= 32767 && 8 + 2 * a + 2 + 2 * b + 2 <= 65535
}

/// The data of a junction with these names.
pub fn reparse_buffer(sub: &str, print: &str) -> (buf: Vec<u8>)
    requires
        fits(sub@, print@),
    ensures
        buf@ == reparse_data(sub@, print@),
{
    let s = encode_utf16(sub);
    let p = encode_utf16(print);
    let a: usize = 2 * s.len();
    let b: usize = 2 * p.len();
    let mut buf: Vec<u8> = Vec::new();
    push_le32(&mut buf, REPARSE_TAG_MOUNT_POINT);
    push_le16(&mut buf, (8 + a + 2 + b + 2) as u16);
    push_le16(&mut buf, 0);
    push_le16(&mut buf, 0);
    push_le16(&mut buf, a as u16);
    push_le16(&mut buf, (a + 2) as u16);
    push_le16(&mut buf, b as u16);
    push_unit_bytes(&mut buf, s.as_slice());
    push_le16(&mut buf, 0);
    push_unit_bytes(&mut buf, p.as_slice());
    push_le16(&mut buf, 0);
    assert(buf@ =~= reparse_data(sub@, print@));
    buf
}

/// The names stand where the header says, and the header's size is that of what
/// follows it.
pub proof fn law_reparse_layout(sub: Seq<char>, print: Seq<char>)
    requires
        fits(sub, print),
    ensures
        ({
            let d = reparse_data(sub, print);
            let a: int = 2 * utf16(sub).len() as int;
            let b: int = 2 * utf16(print).len() as int;
            &&& d.len() == 8 + 8 + names_size(sub, print)
            &&& d.subrange(16, 16 + a) == unit_bytes(utf16(sub))
            &&& d.subrange(16 + a + 2, 16 + a + 2 + b) == unit_bytes(utf16(print))
        }),
{
    lemma_unit_bytes_len(utf16(sub));
    lemma_unit_bytes_len(utf16(print));
    let d = reparse_data(sub, print);
    let a: int = 2 * utf16(sub).len() as int;
    let b: int = 2 * utf16(print).len() as int;
    assert(d.subrange(16, 16 + a) =~= unit_bytes(utf16(sub)));
    assert(d.subrange(16 + a + 2, 16 + a + 2 + b) =~= unit_bytes(utf16(print)));
}

/// The data of the junction to a directory of the host: `canonical` is its full
/// path, `volume_guid` and `volume_path` the id and the path of its volume.
/// None where the names are too long for a junction.
pub fn create_volume_guid_junction(volume_guid: &str, volume_path: &str, canonical: &str) -> (r:
    Option<Vec<u8>>)
    ensures
        ({
            let rel = path_on_volume(canonical@, volume_path@);
            let sub = substitute_name(volume_guid@, rel);
            let print = volume_path@ + rel;
            match r {
                Some(b) => fits(sub, print) && b@ == reparse_data(sub, print),
                None => !fits(sub, print),
            }
        }),
{
    let (sub, print) = junction_names(volume_guid, volume_path, canonical);
    if !junction_fits(sub.as_str(), print.as_str()) {
        return None;
    }
    Some(reparse_buffer(sub.as_str(), print.as_str()))
}

/// The steps that find the volume of a directory.
#[derive(Clone, Copy, Debug, PartialEq, Eq, Structural)]
pub enum VolumeStep {
    Path,
    Id,
    Canonical,
}

/// Why the volume of a directory could not be found; `cause` is that of the
/// last step.
pub fn volume_failure(step: VolumeStep, target: &str, cause: &str) -> (s: String)
    ensures
        s@ == match step {
            VolumeStep::Path => "GetVolumePathNameW('"@ + target@ + "') failed"@,
            VolumeStep::Id => "GetVolumeNameForVolumeMountPointW failed"@,
            VolumeStep::Canonical => "canonicalize: "@ + cause@,
        },
{
    match step {
        VolumeStep::Path => concat3("GetVolumePathNameW('", target, "') failed"),
        VolumeStep::Id => "GetVolumeNameForVolumeMountPointW failed".to_owned(),
        VolumeStep::Canonical => concat2("canonicalize: ", cause),
    }
}

/// What does not occur is not replaced.
proof fn lemma_replaced_none(s: Seq<char>, p: Seq<char>, r: Seq<char>)
    requires
        p.len() > 0,
        !crate::text::occurs(s, p),
    ensures
        replaced(s, p, r) == s,
    decreases s.len(),
{
    if s.len() > 0 {
        if p.is_prefix_of(s) {
            assert(crate::text::occurs_at(s, p, 0));
        }
        let t = s.skip(1);
        if crate::text::occurs(t, p) {
            let i = choose|i: int| #[trigger] crate::text::occurs_at(t, p, i);
            assert(t.subrange(i, i + p.len()) =~= s.subrange(i + 1, i + 1 + p.len()));
            assert(crate::text::occurs_at(s, p, i + 1));
        }
        lemma_replaced_none(t, p, r);
        assert(seq![s[0]] + t =~= s);
    }
}

/// A junction to a directory of a volume leads, by the id of the volume, to
/// where the directory is on it: no drive is named on the way.
pub proof fn law_junction_leads_to_volume(
    guid: Seq<char>,
    volume_path: Seq<char>,
    rest: Seq<char>,
)
    requires
        !crate::text::occurs(volume_path + rest, "\\\\?\\"@),
        rest.len() > 0 ==> rest[0] != '\\',
    ensures
        path_on_volume("\\\\?\\"@ + (volume_path + rest), volume_path) == rest,
        substitute_name(
            guid,
            path_on_volume("\\\\?\\"@ + (volume_path + rest), volume_path),
        ) == "\\??\\"@ + bare_volume(guid) + "\\"@ + rest,
{
    let p = "\\\\?\\"@;
    reveal_strlit("\\\\?\\");
    let path = volume_path + rest;
    let c = p + path;
    assert(c.subrange(0, p.len() as int) =~= p);
    assert(p.is_prefix_of(c));
    assert(c.skip(p.len() as int) =~= path);
    lemma_replaced_none(path, p, Seq::empty());
    assert(replaced(c, p, Seq::empty()) =~= path);
    assert(path.subrange(0, volume_path.len() as int) =~= volume_path);
    assert(volume_path.is_prefix_of(path));
    assert(path.skip(volume_path.len() as int) =~= rest);
}

/// A junction is a mount point by its tag, tells the length of what follows, and
/// says where each of its two names stands and how long it is.
pub proof fn law_reparse_header(sub: Seq<char>, print: Seq<char>)
    requires
        fits(sub, print),
    ensures
        ({
            let d = reparse_data(sub, print);
            let a = 2 * utf16(sub).len();
            let b = 2 * utf16(print).len();
            &&& d[0] == 3 && d[1] == 0 && d[2] == 0 && d[3] == 0xA0
            &&& d[4] + 256 * d[5] == 8 + a + 2 + b + 2
            &&& d[6] == 0 && d[7] == 0
            &&& d[8] == 0 && d[9] == 0
            &&& d[10] + 256 * d[11] == a
            &&& d[12] + 256 * d[13] == a + 2
            &&& d[14] + 256 * d[15] == b
            &&& d.len() == 8 + 8 + a + 2 + b + 2
        }),
{
    law_reparse_layout(sub, print);
    let d = reparse_data(sub, print);
    let a = 2 * utf16(sub).len();
    let b = 2 * utf16(print).len();
    let h = le32(REPARSE_TAG_MOUNT_POINT) + le16((8 + names_size(sub, print)) as u16) + le16(0)
        + le16(0) + le16(a as u16) + le16((a + 2) as u16) + le16(b as u16);
    assert(h.len() == 16);
    assert forall|i: int| 0 <= i < 16 implies #[trigger] d[i] == h[i] by {}
    assert(h[0] == le32(REPARSE_TAG_MOUNT_POINT)[0] && h[1] == le32(REPARSE_TAG_MOUNT_POINT)[1]);
    assert(h[2] == le32(REPARSE_TAG_MOUNT_POINT)[2] && h[3] == le32(REPARSE_TAG_MOUNT_POINT)[3]);
}

/// A volume goes by its name without the prefix that Windows puts before it and
/// without the backslash behind it.
pub proof fn law_bare_volume(name: Seq<char>)
    requires
        name.len() > 0,
        name.last() != '\\',
        name[0] != '\\',
    ensures
        bare_volume("\\\\?\\"@ + name.push('\\')) == name,
        bare_volume(name) == name,
{
    reveal_strlit("\\\\?\\");
    let prefix = "\\\\?\\"@;
    let whole = prefix + name.push('\\');
    assert(whole.take(prefix.len() as int) =~= prefix);
    assert(whole.skip(prefix.len() as int) =~= name.push('\\'));
    assert(name.push('\\').drop_last() =~= name);
    reveal_with_fuel(trim_end_of, 3);
    if prefix.is_prefix_of(name) {
        assert(name[0] == prefix[0]);
    }
}

} // verus!
