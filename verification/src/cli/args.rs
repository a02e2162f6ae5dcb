//! What the options of the command line mean.

use crate::cli::publish::{parse_publish, published};
use crate::container::config::{
    mounts, publishes, text_of, ConfigModel, ContainerConfig, Failure, Mount, NetworkAccess,
    PortMapping, Publish, PsrootError, ResourceLimits, SecurityProfile, VolumeMount,
};
use crate::container::env::{pairs, set_var, with_value};
use crate::paths::{drive_len, rooted};
use crate::text::{
    char_is_alpha, chars_of, concat3, concat4, decimal, find, find_char, is_alpha, is_ascii_char,
    is_digit, law_decimal_round_trip, lemma_rfind_bounds, parse_number, parsed, rfind, rfind_char, same, skip,
    take, texts, to_lowercase, to_uppercase, trim, trimmed, unicode_lower, unicode_upper,
};
use vstd::prelude::*;

verus! {

/// The first `=` splits a variable into its name and its value.
pub open spec fn variable(s: Seq<char>) -> Option<(Seq<char>, Seq<char>)> {
    let i = find(s, '=');
    if i < s.len() {
        Some((s.take(i), s.skip(i + 1)))
    } else {
        None
    }
}

/// The name and the value of a variable `NAME=VALUE`.
pub fn parse_variable(s: &str) -> (r: Option<(String, String)>)
    ensures
        match r {
            Some(p) => variable(s@) == Some((p.0@, p.1@)),
            None => variable(s@) is None,
        },
{
    let v = chars_of(s);
    match find_char(v.as_slice(), '=') {
        Some(i) => Some((take(s, i), skip(s, i + 1))),
        None => None,
    }
}

/// The variables of a list, each once, with the value given last; what holds no
/// `=` is passed over.
pub open spec fn variables(list: Seq<Seq<char>>) -> Seq<(Seq<char>, Seq<char>)>
    decreases list.len(),
{
    if list.len() == 0 {
        seq![]
    } else {
        let rest = variables(list.drop_last());
        match variable(list.last()) {
            Some(p) => with_value(rest, p.0, p.1, false),
            None => rest,
        }
    }
}

/// The variables of a list of `NAME=VALUE`.
pub fn parse_variables(list: &Vec<String>) -> (env: Vec<(String, String)>)
    ensures
        pairs(env@) == variables(texts(list@)),
{
    let mut env: Vec<(String, String)> = Vec::new();
    let ghost all = texts(list@);
    let mut i: usize = 0;
    proof {
        assert(all.take(0) =~= Seq::<Seq<char>>::empty());
        assert(pairs(env@) =~= Seq::<(Seq<char>, Seq<char>)>::empty());
    }
    while i < list.len()
        invariant
            i <= list.len(),
            all == texts(list@),
            pairs(env@) == variables(all.take(i as int)),
        decreases list.len() - i,
    {
        proof {
            let t = all.take(i + 1);
            assert(t.drop_last() =~= all.take(i as int));
            assert(t.last() == list[i as int]@);
        }
        if let Some((k, v)) = parse_variable(list[i].as_str()) {
            set_var(&mut env, k.as_str(), v.as_str(), false);
        }
        i = i + 1;
    }
    assert(all.take(all.len() as int) =~= all);
    env
}

/// A variable that is given more than once has the last of its values.
pub proof fn law_last_value_counts(
    list: Seq<Seq<char>>,
    name: Seq<char>,
    value: Seq<char>,
    given: Seq<char>,
)
    requires
        variable(given) == Some((name, value)),
    ensures
        crate::container::env::value_of(variables(list.push(given)), name, false) == Some(value),
{
    assert(list.push(given).drop_last() =~= list);
}

/// The access to the network that a word in lower case stands for.
pub open spec fn network_word(lowered: Seq<char>) -> Option<NetworkAccess> {
    if lowered == "none"@ || lowered.len() == 0 {
        Some(NetworkAccess::Off)
    } else if lowered == "outbound"@ || lowered == "out"@ {
        Some(NetworkAccess::Outbound)
    } else if lowered == "full"@ || lowered == "all"@ {
        Some(NetworkAccess::Full)
    } else if lowered == "netstack"@ || lowered == "ns"@ {
        Some(NetworkAccess::Netstack)
    } else {
        None
    }
}

pub open spec fn network_refused(lowered: Seq<char>) -> Failure {
    Failure::Other(
        "Invalid network mode '"@ + lowered + "': use none, outbound, full, or netstack"@,
    )
}

/// The access to the network that a word in lower case stands for.
pub fn network_of(lowered: &str) -> (r: Result<NetworkAccess, PsrootError>)
    ensures
        match r {
            Ok(n) => network_word(lowered@) == Some(n),
            Err(e) => network_word(lowered@) is None && e@ == network_refused(lowered@),
        },
{
    if same(lowered, "none") || lowered.is_empty() {
        Ok(NetworkAccess::Off)
    } else if same(lowered, "outbound") || same(lowered, "out") {
        Ok(NetworkAccess::Outbound)
    } else if same(lowered, "full") || same(lowered, "all") {
        Ok(NetworkAccess::Full)
    } else if same(lowered, "netstack") || same(lowered, "ns") {
        Ok(NetworkAccess::Netstack)
    } else {
        Err(
            PsrootError::Other(
                concat3(
                    "Invalid network mode '",
                    lowered,
                    "': use none, outbound, full, or netstack",
                ),
            ),
        )
    }
}

/// The access to the network that is asked for, in any case.
pub fn parse_network_mode(s: &str) -> (r: Result<NetworkAccess, PsrootError>)
    ensures
        match r {
            Ok(n) => network_word(unicode_lower(s@)) == Some(n),
            Err(e) => network_word(unicode_lower(s@)) is None && e@ == network_refused(
                unicode_lower(s@),
            ),
        },
{
    let lowered = to_lowercase(s);
    network_of(lowered.as_str())
}

/// What the unit at the end of a size stands for.
pub open spec fn unit(c: char) -> nat {
    if c == 'G' {
        0x4000_0000
    } else if c == 'M' {
        0x10_0000
    } else if c == 'K' {
        0x400
    } else {
        1
    }
}

/// The number of bytes that a size in upper case stands for, where that fits.
pub open spec fn size_word(upper: Seq<char>) -> Option<nat> {
    let u = if upper.len() > 0 {
        unit(upper.last())
    } else {
        1
    };
    let digits = if u > 1 {
        upper.drop_last()
    } else {
        upper
    };
    match parsed(digits, u64::MAX as nat) {
        Some(n) => if n * u <= u64::MAX {
            Some(n * u)
        } else {
            None
        },
        None => None,
    }
}

/// The number of bytes that a size in upper case stands for.
pub fn size_of_word(upper: &str) -> (r: Result<u64, PsrootError>)
    ensures
        match r {
            Ok(n) => size_word(upper@) == Some(n as nat),
            Err(e) => size_word(upper@) is None && e@ == Failure::Other("Invalid memory value"@),
        },
{
    let v = chars_of(upper);
    let u: u64 = if v.len() > 0 {
        let c: char = v[v.len() - 1];
        if c == 'G' {
            0x4000_0000
        } else if c == 'M' {
            0x10_0000
        } else if c == 'K' {
            0x400
        } else {
            1
        }
    } else {
        1
    };
    let digits = if u > 1 {
        let d = take(upper, v.len() - 1);
        assert(d@ =~= upper@.drop_last());
        d
    } else {
        upper.to_owned()
    };
    match parse_number(digits.as_str(), u64::MAX) {
        Some(n) => {
            let product: u128 = n as u128 * u as u128;
            assert(product == n * u) by (nonlinear_arith)
                requires
                    product == n as u128 * u as u128,
            ;
            if product <= u64::MAX as u128 {
                Ok(product as u64)
            } else {
                Err(PsrootError::Other("Invalid memory value".to_owned()))
            }
        },
        None => Err(PsrootError::Other("Invalid memory value".to_owned())),
    }
}

/// The number of bytes that is asked for: digits, with a unit `K`, `M` or `G`
/// in any case, and spaces around them. A size that is too large to be held is
/// refused like one that is no number.
pub fn parse_memory(s: &str) -> (r: Result<u64, PsrootError>)
    ensures
        match r {
            Ok(n) => size_word(unicode_upper(trim(s@))) == Some(n as nat),
            Err(e) => size_word(unicode_upper(trim(s@))) is None && e@ == Failure::Other(
                "Invalid memory value"@,
            ),
        },
{
    let t = trimmed(s);
    let upper = to_uppercase(t.as_str());
    size_of_word(upper.as_str())
}

/// The sides of a volume around its first colon.
pub open spec fn plain_volume(s: Seq<char>) -> Option<Mount> {
    let i = find(s, ':');
    if i >= s.len() {
        None
    } else {
        let (container_path, read_only) = without_mode(s.skip(i + 1));
        Some(Mount { host_path: s.take(i), container_path, read_only })
    }
}

/// What a volume `HOST:CONTAINER[:ro|:rw]` stands for. Where the host side
/// begins with a drive its sides are told apart as those of a mount are; a path
/// of a drive alone is no volume. Elsewhere the first colon stands between them.
pub open spec fn volume(s: Seq<char>) -> Option<Mount> {
    let (body, read_only) = without_mode(s);
    let i = bind_colon(body);
    if drive_len(s) > 0 && i >= 0 {
        Some(Mount { host_path: body.take(i), container_path: body.skip(i + 1), read_only })
    } else if drive_len(s) > 0 && rooted(s) {
        None
    } else {
        plain_volume(s)
    }
}

fn parse_plain_volume(s: &str) -> (r: Option<VolumeMount>)
    ensures
        match r {
            Some(m) => plain_volume(s@) == Some(m@),
            None => plain_volume(s@) is None,
        },
{
    let v = chars_of(s);
    match find_char(v.as_slice(), ':') {
        None => None,
        Some(i) => {
            let rest = skip(s, i + 1);
            let (container_path, read_only) = strip_mode(rest.as_str());
            Some(VolumeMount { host_path: take(s, i), container_path, read_only })
        },
    }
}

/// What a volume `HOST:CONTAINER[:ro|:rw]` stands for.
pub fn parse_volume(s: &str) -> (r: Option<VolumeMount>)
    ensures
        match r {
            Some(m) => volume(s@) == Some(m@),
            None => volume(s@) is None,
        },
{
    let v = chars_of(s);
    if v.len() >= 2 && char_is_alpha(v[0]) && v[1] == ':' {
        let (body, read_only) = strip_mode(s);
        let b = chars_of(body.as_str());
        if let Some(i) = find_bind_colon(&b) {
            return Some(
                VolumeMount {
                    host_path: take(body.as_str(), i),
                    container_path: skip(body.as_str(), i + 1),
                    read_only,
                },
            );
        }
        if v.len() > 2 && (v[2] == '\\' || v[2] == '/') {
            return None;
        }
    }
    parse_plain_volume(s)
}

/// The volumes of a list; what is none is passed over.
pub open spec fn volumes(list: Seq<Seq<char>>) -> Seq<Mount>
    decreases list.len(),
{
    if list.len() == 0 {
        seq![]
    } else {
        let rest = volumes(list.drop_last());
        match volume(list.last()) {
            Some(m) => rest.push(m),
            None => rest,
        }
    }
}

/// The volumes of a list; what is none is passed over.
pub fn parse_volumes(list: &Vec<String>) -> (out: Vec<VolumeMount>)
    ensures
        mounts(out@) == volumes(texts(list@)),
{
    let mut out: Vec<VolumeMount> = Vec::new();
    let ghost all = texts(list@);
    let mut i: usize = 0;
    proof {
        assert(all.take(0) =~= Seq::<Seq<char>>::empty());
        assert(mounts(out@) =~= Seq::<Mount>::empty());
    }
    while i < list.len()
        invariant
            i <= list.len(),
            all == texts(list@),
            mounts(out@) == volumes(all.take(i as int)),
        decreases list.len() - i,
    {
        proof {
            let t = all.take(i + 1);
            assert(t.drop_last() =~= all.take(i as int));
            assert(t.last() == list[i as int]@);
        }
        if let Some(m) = parse_volume(list[i].as_str()) {
            let ghost before = out@;
            let ghost mv = m@;
            out.push(m);
            assert(mounts(out@) =~= mounts(before).push(mv));
        }
        i = i + 1;
    }
    assert(all.take(all.len() as int) =~= all);
    out
}

/// Whether a path inside of a container begins at `j`: with a drive, or with a
/// slash of either kind.
pub open spec fn target_at(s: Seq<char>, j: int) -> bool {
    j < s.len() && (s[j] == '\\' || s[j] == '/' || (is_alpha(s[j]) && j + 1 < s.len() && s[j + 1]
        == ':'))
}

/// The first colon from `i` on behind which a path inside of a container
/// begins, or the length.
pub open spec fn target_colon(s: Seq<char>, i: int) -> int
    decreases s.len() - i,
{
    if i >= s.len() {
        s.len() as int
    } else if s[i] == ':' && target_at(s, i + 1) {
        i
    } else {
        target_colon(s, i + 1)
    }
}

/// The colon between the two sides of a mount whose host side begins with a
/// drive: the first one, behind the drive, that a path inside of a container
/// follows, else the last one; -1 if there is none.
pub open spec fn bind_colon(s: Seq<char>) -> int {
    let i = target_colon(s, 2);
    if i < s.len() {
        i
    } else if rfind(s, ':') >= 2 {
        rfind(s, ':')
    } else {
        -1
    }
}

/// A mount without its suffix, and whether it is read only.
pub open spec fn without_mode(s: Seq<char>) -> (Seq<char>, bool) {
    if s.len() >= 3 && s.skip(s.len() - 3) == ":ro"@ {
        (s.take(s.len() - 3), true)
    } else if s.len() >= 3 && s.skip(s.len() - 3) == ":rw"@ {
        (s.take(s.len() - 3), false)
    } else {
        (s, false)
    }
}

/// What a mount `HOST:CONTAINER[:ro|:rw]` stands for, or why it is none. Both
/// sides may hold the colon of a drive, and the host side has to.
pub open spec fn bind(s: Seq<char>) -> Result<Mount, Seq<char>> {
    let (body, read_only) = without_mode(trim(s));
    let i = bind_colon(body);
    if body.len() < 3 || !is_ascii_char(body[0]) || body[1] != ':' {
        Err("host path must start with a drive letter (got '"@ + body + "')"@)
    } else if i < 0 {
        Err("cannot find HOST:CONTAINER separator in '"@ + body + "'"@)
    } else if i + 1 == body.len() {
        Err("empty host or container path"@)
    } else {
        Ok(Mount { host_path: body.take(i), container_path: body.skip(i + 1), read_only })
    }
}

fn find_bind_colon(v: &Vec<char>) -> (r: Option<usize>)
    ensures
        match r {
            Some(i) => bind_colon(v@) == i && 2 <= i < v.len(),
            None => bind_colon(v@) < 0,
        },
{
    let mut i: usize = 2;
    while i < v.len()
        invariant
            2 <= i,
            target_colon(v@, 2) == target_colon(v@, i as int),
        decreases v.len() - i,
    {
        if v[i] == ':' && i + 1 < v.len() && (v[i + 1] == '\\' || v[i + 1] == '/' || (
        char_is_alpha(v[i + 1]) && i + 2 < v.len() && v[i + 2] == ':')) {
            return Some(i);
        }
        i = i + 1;
    }
    proof {
        lemma_rfind_bounds(v@, ':');
    }
    match rfind_char(v.as_slice(), ':') {
        Some(j) => {
            if j >= 2 {
                Some(j)
            } else {
                None
            }
        },
        None => None,
    }
}

fn strip_mode(s: &str) -> (r: (String, bool))
    ensures
        (r.0@, r.1) == without_mode(s@),
{
    let n: usize = chars_of(s).len();
    proof {
        reveal_strlit(":ro");
        reveal_strlit(":rw");
    }
    if n >= 3 {
        let end = skip(s, n - 3);
        if same(end.as_str(), ":ro") {
            return (take(s, n - 3), true);
        }
        if same(end.as_str(), ":rw") {
            return (take(s, n - 3), false);
        }
    }
    (s.to_owned(), false)
}

/// What a mount `HOST:CONTAINER[:ro|:rw]` stands for, or why it is none.
pub fn parse_bind_spec(s: &str) -> (r: Result<VolumeMount, String>)
    ensures
        match r {
            Ok(m) => bind(s@) == Ok::<Mount, Seq<char>>(m@),
            Err(e) => bind(s@) == Err::<Mount, Seq<char>>(e@),
        },
{
    let raw = trimmed(s);
    let (body, read_only) = strip_mode(raw.as_str());
    let v = chars_of(body.as_str());
    if v.len() < 3 || (v[0] as u32) >= 0x80 || v[1] != ':' {
        return Err(
            concat3("host path must start with a drive letter (got '", body.as_str(), "')"),
        );
    }
    match find_bind_colon(&v) {
        None => Err(
            concat3("cannot find HOST:CONTAINER separator in '", body.as_str(), "'"),
        ),
        Some(i) => {
            if i + 1 == v.len() {
                return Err("empty host or container path".to_owned());
            }
            Ok(
                VolumeMount {
                    host_path: take(body.as_str(), i),
                    container_path: skip(body.as_str(), i + 1),
                    read_only,
                },
            )
        },
    }
}

/// The mounts of a list, or why the first that is none is refused.
pub open spec fn binds(list: Seq<Seq<char>>) -> Result<Seq<Mount>, Failure>
    decreases list.len(),
{
    if list.len() == 0 {
        Ok(seq![])
    } else {
        match binds(list.drop_last()) {
            Err(f) => Err(f),
            Ok(v) => match bind(list.last()) {
                Ok(m) => Ok(v.push(m)),
                Err(e) => Err(Failure::Other("--bind '"@ + list.last() + "': "@ + e)),
            },
        }
    }
}

/// The mounts of a list, or why the first that is none is refused.
pub fn parse_binds(list: &Vec<String>) -> (r: Result<Vec<VolumeMount>, PsrootError>)
    ensures
        match r {
            Ok(v) => binds(texts(list@)) == Ok::<Seq<Mount>, Failure>(mounts(v@)),
            Err(e) => binds(texts(list@)) == Err::<Seq<Mount>, Failure>(e@),
        },
{
    let mut out: Vec<VolumeMount> = Vec::new();
    let ghost all = texts(list@);
    let mut i: usize = 0;
    proof {
        assert(all.take(0) =~= Seq::<Seq<char>>::empty());
        assert(mounts(out@) =~= Seq::<Mount>::empty());
    }
    while i < list.len()
        invariant
            i <= list.len(),
            all == texts(list@),
            binds(all.take(i as int)) == Ok::<Seq<Mount>, Failure>(mounts(out@)),
        decreases list.len() - i,
    {
        proof {
            let t = all.take(i + 1);
            assert(t.drop_last() =~= all.take(i as int));
            assert(t.last() == list[i as int]@);
        }
        match parse_bind_spec(list[i].as_str()) {
            Ok(m) => {
                let ghost before = out@;
                let ghost mv = m@;
                out.push(m);
                assert(mounts(out@) =~= mounts(before).push(mv));
            },
            Err(e) => {
                proof {
                    lemma_binds_error(all, i + 1);
                }
                return Err(
                    PsrootError::Other(
                        concat4("--bind '", list[i].as_str(), "': ", e.as_str()),
                    ),
                );
            },
        }
        i = i + 1;
    }
    assert(all.take(all.len() as int) =~= all);
    Ok(out)
}

proof fn lemma_binds_error(list: Seq<Seq<char>>, k: int)
    requires
        0 <= k <= list.len(),
        binds(list.take(k)) is Err,
    ensures
        binds(list) == binds(list.take(k)),
    decreases list.len() - k,
{
    if k < list.len() {
        assert(list.take(k + 1).drop_last() =~= list.take(k));
        lemma_binds_error(list, k + 1);
    } else {
        assert(list.take(k) =~= list);
    }
}

/// A mount of a directory of a drive is taken apart where its two sides were
/// put together.
pub proof fn law_bind_round_trip(host: Seq<char>, target: Seq<char>)
    requires
        host.len() >= 2,
        is_alpha(host[0]),
        host[1] == ':',
        forall|i: int| 2 <= i < host.len() ==> host[i] != ':',
        target_at(target, 0),
        trim(host + ":"@ + target) == host + ":"@ + target,
        without_mode(host + ":"@ + target) == (host + ":"@ + target, false),
    ensures
        bind(host + ":"@ + target) == Ok::<Mount, Seq<char>>(
            Mount { host_path: host, container_path: target, read_only: false },
        ),
{
    reveal_strlit(":");
    let s = host + ":"@ + target;
    let n = host.len() as int;
    assert forall|i: int| 2 <= i < n implies s[i] != ':' by {
        assert(s[i] == host[i]);
    }
    assert(s[n] == ':');
    assert(s[n + 1] == target[0]);
    if target.len() > 1 {
        assert(s[n + 2] == target[1]);
    }
    assert(target_at(s, n + 1));
    lemma_first_target(s, 2, n);
    assert(s.take(n) =~= host);
    assert(s.skip(n + 1) =~= target);
    assert(s[0] == host[0] && s[1] == host[1]);
}

/// A volume of a directory of a drive is taken apart where its two sides were
/// put together, with `:ro` behind them or not.
pub proof fn law_volume_round_trip(host: Seq<char>, target: Seq<char>)
    requires
        host.len() >= 2,
        is_alpha(host[0]),
        host[1] == ':',
        forall|i: int| 2 <= i < host.len() ==> host[i] != ':',
        target_at(target, 0),
        without_mode(host + ":"@ + target) == (host + ":"@ + target, false),
    ensures
        volume(host + ":"@ + target) == Some(
            Mount { host_path: host, container_path: target, read_only: false },
        ),
        volume(host + ":"@ + target + ":ro"@) == Some(
            Mount { host_path: host, container_path: target, read_only: true },
        ),
{
    reveal_strlit(":");
    reveal_strlit(":ro");
    let s = host + ":"@ + target;
    let n = host.len() as int;
    assert forall|i: int| 2 <= i < n implies s[i] != ':' by {
        assert(s[i] == host[i]);
    }
    assert(s[n] == ':');
    assert(s[n + 1] == target[0]);
    if target.len() > 1 {
        assert(s[n + 2] == target[1]);
    }
    assert(target_at(s, n + 1));
    lemma_first_target(s, 2, n);
    assert(s.take(n) =~= host);
    assert(s.skip(n + 1) =~= target);
    assert(s[0] == host[0] && s[1] == host[1]);
    let r = s + ":ro"@;
    assert(r[0] == host[0] && r[1] == host[1]);
    assert(r.skip(r.len() - 3) =~= ":ro"@);
    assert(r.take(r.len() - 3) =~= s);
    assert(without_mode(r) == (s, true));
}

proof fn lemma_first_target(s: Seq<char>, i: int, n: int)
    requires
        0 <= i <= n < s.len(),
        forall|j: int| i <= j < n ==> s[j] != ':',
        s[n] == ':',
        target_at(s, n + 1),
    ensures
        target_colon(s, i) == n,
    decreases n - i,
{
    if i < n {
        lemma_first_target(s, i + 1, n);
    }
}

/// The ports of a list, or why the first that is none is refused.
pub open spec fn ports(list: Seq<Seq<char>>) -> Result<Seq<Publish>, Failure>
    decreases list.len(),
{
    if list.len() == 0 {
        Ok(seq![])
    } else {
        match ports(list.drop_last()) {
            Err(f) => Err(f),
            Ok(v) => match published(list.last()) {
                Ok(p) => Ok(v.push(p)),
                Err(e) => Err(Failure::Other(e)),
            },
        }
    }
}

proof fn lemma_ports_error(list: Seq<Seq<char>>, k: int)
    requires
        0 <= k <= list.len(),
        ports(list.take(k)) is Err,
    ensures
        ports(list) == ports(list.take(k)),
    decreases list.len() - k,
{
    if k < list.len() {
        assert(list.take(k + 1).drop_last() =~= list.take(k));
        lemma_ports_error(list, k + 1);
    } else {
        assert(list.take(k) =~= list);
    }
}

/// The ports of a list, or why the first that is none is refused.
pub fn parse_ports(list: &Vec<String>) -> (r: Result<Vec<PortMapping>, PsrootError>)
    ensures
        match r {
            Ok(v) => ports(texts(list@)) == Ok::<Seq<Publish>, Failure>(publishes(v@)),
            Err(e) => ports(texts(list@)) == Err::<Seq<Publish>, Failure>(e@),
        },
{
    let mut out: Vec<PortMapping> = Vec::new();
    let ghost all = texts(list@);
    let mut i: usize = 0;
    proof {
        assert(all.take(0) =~= Seq::<Seq<char>>::empty());
        assert(publishes(out@) =~= Seq::<Publish>::empty());
    }
    while i < list.len()
        invariant
            i <= list.len(),
            all == texts(list@),
            ports(all.take(i as int)) == Ok::<Seq<Publish>, Failure>(publishes(out@)),
        decreases list.len() - i,
    {
        proof {
            let t = all.take(i + 1);
            assert(t.drop_last() =~= all.take(i as int));
            assert(t.last() == list[i as int]@);
        }
        match parse_publish(list[i].as_str()) {
            Ok(p) => {
                let ghost before = out@;
                let ghost pv = p@;
                out.push(p);
                assert(publishes(out@) =~= publishes(before).push(pv));
            },
            Err(e) => {
                proof {
                    lemma_ports_error(all, i + 1);
                }
                return Err(PsrootError::Other(e));
            },
        }
        i = i + 1;
    }
    assert(all.take(all.len() as int) =~= all);
    Ok(out)
}

/// The configuration where nothing is asked for.
pub open spec fn default_model() -> ConfigModel {
    ConfigModel {
        name: None,
        rootfs_path: seq![],
        command: seq!["cmd.exe"@],
        env: seq![],
        resources: crate::container::config::usual_limits(),
        volumes: seq![],
        hostname: None,
        working_directory: "C:\\"@,
        silo: false,
        tools: seq![],
        shares: seq![],
        security_profile: SecurityProfile::Default,
        network: NetworkAccess::Off,
        ports: seq![],
    }
}

/// The configuration where nothing is asked for: without any network.
pub fn default_config() -> (c: ContainerConfig)
    ensures
        c@ == default_model(),
{
    let c = ContainerConfig {
        name: None,
        rootfs_path: String::new(),
        command: vec!["cmd.exe".to_owned()],
        env: Vec::new(),
        resources: ResourceLimits::default(),
        volumes: Vec::new(),
        hostname: None,
        working_directory: "C:\\".to_owned(),
        silo: false,
        tools: Vec::new(),
        shares: Vec::new(),
        security_profile: SecurityProfile::Default,
        network: NetworkAccess::Off,
        ports: Vec::new(),
    };
    proof {
        assert(c@.rootfs_path =~= default_model().rootfs_path);
        assert(c@.command =~= default_model().command);
        assert(c@.env =~= default_model().env);
        assert(c@.volumes =~= default_model().volumes);
        assert(c@.tools =~= default_model().tools);
        assert(c@.shares =~= default_model().shares);
        assert(c@.ports =~= default_model().ports);
    }
    c
}

/// The options of a new container.
#[derive(Clone, Debug)]
pub struct CreateArgs {
    pub name: Option<String>,
    pub rootfs: String,
    pub memory: String,
    pub cpu: u32,
    pub max_procs: u32,
    pub silo: bool,
    pub volume: Vec<String>,
    pub env: Vec<String>,
    pub workdir: String,
    pub tool: Vec<String>,
    pub network: String,
    pub publish: Vec<String>,
}

/// Limits with these three, and no others.
pub open spec fn limits(memory: u64, cpu: u32, max_procs: u32) -> ResourceLimits {
    ResourceLimits {
        memory,
        cpu_rate: cpu,
        max_processes: max_procs,
        affinity: 0,
        priority_class: 0,
    }
}

/// The configuration that options ask for, from what their memory, network and
/// ports were read as; the first of these that is refused is what is told.
pub open spec fn config_of(
    a: CreateArgs,
    command: Seq<Seq<char>>,
    memory: Option<nat>,
    network: Result<NetworkAccess, Failure>,
) -> Result<ConfigModel, Failure> {
    match memory {
        None => Err(Failure::Other("Invalid memory value"@)),
        Some(m) => match network {
            Err(f) => Err(f),
            Ok(n) => match ports(texts(a.publish@)) {
                Err(f) => Err(f),
                Ok(p) => Ok(
                    ConfigModel {
                        name: text_of(a.name),
                        rootfs_path: a.rootfs@,
                        command,
                        env: variables(texts(a.env@)),
                        resources: limits(m as u64, a.cpu, a.max_procs),
                        volumes: volumes(texts(a.volume@)),
                        hostname: None,
                        working_directory: a.workdir@,
                        silo: a.silo,
                        tools: texts(a.tool@),
                        shares: seq![],
                        security_profile: SecurityProfile::Default,
                        network: n,
                        ports: p,
                    },
                ),
            },
        },
    }
}

/// What the word for the network was read as.
pub open spec fn network_read(lowered: Seq<char>) -> Result<NetworkAccess, Failure> {
    match network_word(lowered) {
        Some(n) => Ok(n),
        None => Err(network_refused(lowered)),
    }
}

/// The configuration that options ask for, from what their memory and network
/// were read as.
pub fn config_from(
    a: CreateArgs,
    command: Vec<String>,
    memory: Result<u64, PsrootError>,
    network: Result<NetworkAccess, PsrootError>,
) -> (r: Result<ContainerConfig, PsrootError>)
    ensures
        match r {
            Ok(c) => memory is Ok && network is Ok && config_of(
                a,
                texts(command@),
                Some(memory->Ok_0 as nat),
                Ok(network->Ok_0),
            ) == Ok::<ConfigModel, Failure>(c@),
            Err(e) => if memory is Err {
                e == memory->Err_0
            } else if network is Err {
                e == network->Err_0
            } else {
                ports(texts(a.publish@)) == Err::<Seq<Publish>, Failure>(e@)
            },
        },
{
    let memory = match memory {
        Ok(m) => m,
        Err(e) => {
            return Err(e);
        },
    };
    let network = match network {
        Ok(n) => n,
        Err(e) => {
            return Err(e);
        },
    };
    let ports = match parse_ports(&a.publish) {
        Ok(p) => p,
        Err(e) => {
            return Err(e);
        },
    };
    let c = ContainerConfig {
        name: a.name,
        rootfs_path: a.rootfs,
        command,
        env: parse_variables(&a.env),
        resources: ResourceLimits {
            memory,
            cpu_rate: a.cpu,
            max_processes: a.max_procs,
            affinity: 0,
            priority_class: 0,
        },
        volumes: parse_volumes(&a.volume),
        hostname: None,
        working_directory: a.workdir,
        silo: a.silo,
        tools: a.tool,
        shares: Vec::new(),
        security_profile: SecurityProfile::Default,
        network,
        ports,
    };
    assert(c@.shares =~= Seq::<Seq<char>>::empty());
    Ok(c)
}

/// The configuration that options ask for.
pub fn build_config(a: CreateArgs, command: Vec<String>) -> (r: Result<
    ContainerConfig,
    PsrootError,
>)
    ensures
        ({
            let m = config_of(
                a,
                texts(command@),
                size_word(unicode_upper(trim(a.memory@))),
                network_read(unicode_lower(a.network@)),
            );
            match r {
                Ok(c) => m == Ok::<ConfigModel, Failure>(c@),
                Err(e) => m == Err::<ConfigModel, Failure>(e@),
            }
        }),
{
    let memory = parse_memory(a.memory.as_str());
    let network = parse_network_mode(a.network.as_str());
    config_from(a, command, memory, network)
}

/// The command of a run: what was given, or the shell where nothing was.
pub fn run_command(command: Vec<String>) -> (c: Vec<String>)
    ensures
        texts(c@) == command_or_shell(texts(command@)),
{
    if command.len() == 0 {
        let c = vec!["cmd.exe".to_owned()];
        assert(texts(c@) =~= seq!["cmd.exe"@]);
        c
    } else {
        command
    }
}

/// The command that is run where one is given, else the command processor.
pub open spec fn command_or_shell(command: Seq<Seq<char>>) -> Seq<Seq<char>> {
    if command.len() == 0 {
        seq!["cmd.exe"@]
    } else {
        command
    }
}

/// What is run is what was asked for, and the command processor only where
/// nothing was.
pub proof fn law_command_is_kept(command: Seq<Seq<char>>)
    ensures
        command.len() > 0 ==> command_or_shell(command) == command,
        command.len() == 0 ==> command_or_shell(command) == seq!["cmd.exe"@],
{
}

/// A variable is given as its name and its value with an equals sign between
/// them; what has none is no variable.
pub proof fn law_variable_round_trip(name: Seq<char>, value: Seq<char>, other: Seq<char>)
    requires
        !name.contains('='),
        !other.contains('='),
    ensures
        variable(name + "="@ + value) == Some((name, value)),
        variable(other) is None,
{
    reveal_strlit("=");
    let s = name + "="@ + value;
    let n = name.len() as int;
    assert forall|j: int| 0 <= j < n implies s[j] != '=' by {
        assert(s[j] == name[j]);
    }
    assert(s[n] == '=');
    crate::text::lemma_find_is(s, '=', n);
    crate::text::lemma_find_bounds(other, '=');
    assert(s.take(n) =~= name);
    assert(s.skip(n + 1) =~= value);
}

/// The words for the network, and no others.
pub proof fn law_network_words(w: Seq<char>)
    ensures
        network_word(w) == Some(NetworkAccess::Off) <==> w == "none"@ || w.len() == 0,
        network_word(w) == Some(NetworkAccess::Outbound) <==> w == "outbound"@ || w == "out"@,
        network_word(w) == Some(NetworkAccess::Full) <==> w == "full"@ || w == "all"@,
        network_word(w) == Some(NetworkAccess::Netstack) <==> w == "netstack"@ || w == "ns"@,
        network_word(w) is None ==> network_read(w) == Err::<NetworkAccess, Failure>(
            Failure::Other(
                "Invalid network mode '"@ + w + "': use none, outbound, full, or netstack"@,
            ),
        ),
        network_word(w) matches Some(n) ==> network_read(w) == Ok::<NetworkAccess, Failure>(n),
{
    reveal_strlit("none");
    reveal_strlit("outbound");
    reveal_strlit("out");
    reveal_strlit("full");
    reveal_strlit("all");
    reveal_strlit("netstack");
    reveal_strlit("ns");
    assert("none"@.len() == 4 && "outbound"@.len() == 8 && "out"@.len() == 3);
    assert("full"@.len() == 4 && "all"@.len() == 3 && "netstack"@.len() == 8 && "ns"@.len() == 2);
    assert("none"@[0] != "full"@[0]);
    assert("outbound"@[0] != "netstack"@[0]);
    assert("out"@[0] != "all"@[0]);
}

/// A size is a number of bytes, or of kibi-, mebi- or gibibytes with the letter
/// behind it; one that does not fit is refused.
pub proof fn law_sizes(n: nat)
    requires
        n <= u64::MAX,
    ensures
        size_word(decimal(n)) == Some(n),
        size_word(decimal(n).push('K')) == (if n * 1024 <= u64::MAX {
            Some((n * 1024) as nat)
        } else {
            None
        }),
        size_word(decimal(n).push('M')) == (if n * (1024 * 1024) <= u64::MAX {
            Some((n * (1024 * 1024)) as nat)
        } else {
            None
        }),
        size_word(decimal(n).push('G')) == (if n * (1024 * 1024 * 1024) <= u64::MAX {
            Some((n * (1024 * 1024 * 1024)) as nat)
        } else {
            None
        }),
{
    law_decimal_round_trip(n);
    let d = decimal(n);
    assert(is_digit(d[d.len() - 1]));
    assert(d.last() == d[d.len() - 1]);
    assert(unit(d.last()) == 1);
    assert(n * 1 == n);
    assert(d.push('K').drop_last() =~= d);
    assert(d.push('M').drop_last() =~= d);
    assert(d.push('G').drop_last() =~= d);
}

/// A mode behind a mount says whether it may be written to; without one it may.
pub proof fn law_mount_modes(s: Seq<char>)
    ensures
        without_mode(s + ":ro"@) == (s, true),
        without_mode(s + ":rw"@) == (s, false),
        without_mode(s).1 ==> s.len() >= 3 && s.last() == 'o',
{
    reveal_strlit(":ro");
    reveal_strlit(":rw");
    let n = s.len() as int;
    assert((s + ":ro"@).skip(n) =~= ":ro"@);
    assert((s + ":rw"@).skip(n) =~= ":rw"@);
    assert((s + ":ro"@).take(n) =~= s);
    assert((s + ":rw"@).take(n) =~= s);
    assert(":ro"@[2] != ":rw"@[2]);
    if without_mode(s).1 {
        assert(s.skip(s.len() - 3)[2] == s.last());
        assert(":ro"@[2] == 'o');
    }
}

/// The mounts are those that can be read, in their order.
pub proof fn law_mounts_in_order(list: Seq<Seq<char>>, last: Seq<char>)
    ensures
        volumes(Seq::empty()) == Seq::<Mount>::empty(),
        volume(last) matches Some(m) ==> volumes(list.push(last)) == volumes(list).push(m),
        volume(last) is None ==> volumes(list.push(last)) == volumes(list),
{
    assert(list.push(last).drop_last() =~= list);
}

/// The binds are all of those given, in their order, or else the error of the
/// first that cannot be read, with its text.
pub proof fn law_binds_in_order(list: Seq<Seq<char>>, last: Seq<char>)
    ensures
        binds(Seq::empty()) == Ok::<Seq<Mount>, Failure>(seq![]),
        binds(list) is Ok && bind(last) is Ok ==> binds(list.push(last)) == Ok::<
            Seq<Mount>,
            Failure,
        >(binds(list)->Ok_0.push(bind(last)->Ok_0)),
        binds(list) is Err ==> binds(list.push(last)) == binds(list),
        binds(list) is Ok && bind(last) is Err ==> binds(list.push(last)) == Err::<
            Seq<Mount>,
            Failure,
        >(Failure::Other("--bind '"@ + last + "': "@ + bind(last)->Err_0)),
{
    assert(list.push(last).drop_last() =~= list);
}

/// The published ports are all of those given, in their order, or else the error
/// of the first that cannot be read.
pub proof fn law_ports_in_order(list: Seq<Seq<char>>, last: Seq<char>)
    ensures
        ports(Seq::empty()) == Ok::<Seq<Publish>, Failure>(seq![]),
        ports(list) is Ok && published(last) is Ok ==> ports(list.push(last)) == Ok::<
            Seq<Publish>,
            Failure,
        >(ports(list)->Ok_0.push(published(last)->Ok_0)),
        ports(list) is Err ==> ports(list.push(last)) == ports(list),
        ports(list) is Ok && published(last) is Err ==> ports(list.push(last)) == Err::<
            Seq<Publish>,
            Failure,
        >(Failure::Other(published(last)->Err_0)),
{
    assert(list.push(last).drop_last() =~= list);
}

/// A container where nothing is asked for: the command processor in the root of
/// drive C, in a job, without a network, mounts, ports, tools or shares.
pub proof fn law_default_config()
    ensures
        default_model().command == seq!["cmd.exe"@],
        default_model().working_directory == "C:\\"@,
        default_model().network == NetworkAccess::Off,
        !default_model().silo,
        default_model().name is None && default_model().hostname is None,
        default_model().rootfs_path.len() == 0,
        default_model().env.len() == 0 && default_model().volumes.len() == 0,
        default_model().tools.len() == 0 && default_model().shares.len() == 0,
        default_model().ports.len() == 0,
        default_model().resources.memory == 0x4000_0000,
        default_model().resources.cpu_rate == 10_000,
        default_model().resources.max_processes == 100,
{
}

/// Each argument of a new container goes where it belongs, and the first that
/// cannot be read is the error.
pub proof fn law_arguments_are_kept(
    a: CreateArgs,
    command: Seq<Seq<char>>,
    m: nat,
    n: NetworkAccess,
    f: Failure,
    network: Result<NetworkAccess, Failure>,
)
    requires
        m <= u64::MAX,
    ensures
        config_of(a, command, None, network) == Err::<ConfigModel, Failure>(
            Failure::Other("Invalid memory value"@),
        ),
        config_of(a, command, Some(m), Err(f)) == Err::<ConfigModel, Failure>(f),
        ports(texts(a.publish@)) is Err ==> config_of(a, command, Some(m), Ok(n)) == Err::<
            ConfigModel,
            Failure,
        >(ports(texts(a.publish@))->Err_0),
        ports(texts(a.publish@)) is Ok ==> (config_of(a, command, Some(m), Ok(n)) matches Ok(c)
            && c.name == text_of(a.name) && c.rootfs_path == a.rootfs@ && c.command == command
            && c.env == variables(texts(a.env@)) && c.resources.memory == m && c.resources.cpu_rate
            == a.cpu && c.resources.max_processes == a.max_procs && c.resources.affinity == 0
            && c.resources.priority_class == 0 && c.volumes == volumes(texts(a.volume@))
            && c.hostname is None && c.working_directory == a.workdir@ && c.silo == a.silo
            && c.tools == texts(a.tool@) && c.shares.len() == 0 && c.network == n && c.ports
            == ports(texts(a.publish@))->Ok_0),
{
}

} // verus!
