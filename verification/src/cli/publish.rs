//! Ports that are published: `PORT`, `HOST:CONTAINER`, or
//! `BIND:HOST:CONTAINER`.

use crate::container::config::{PortMapping, Publish};
use crate::text::{concat3, decimal, parse_number, parsed, split, split_char};
use vstd::prelude::*;

verus! {

/// The address that ports are published on where none is given.
pub const DEFAULT_BIND: &'static str = "127.0.0.1";

/// The number of a port.
pub open spec fn port(s: Seq<char>) -> Option<nat> {
    parsed(s, u16::MAX as nat)
}

/// A port mapping from these parts.
pub open spec fn mapping(bind: Seq<char>, host: Seq<char>, container: Seq<char>) -> Option<Publish> {
    match (port(host), port(container)) {
        (Some(h), Some(c)) => Some(
            Publish {
                host_bind: bind,
                host_port: h as u16,
                container_port: c as u16,
                ephemeral_port: None,
                name: None,
            },
        ),
        _ => None,
    }
}

/// What is said of a text that publishes no port.
pub open spec fn refusal(s: Seq<char>) -> Seq<char> {
    "invalid publish spec '"@ + s + "': use PORT, HOST:CONTAINER or BIND:HOST:CONTAINER"@
}

/// The port mapping that a text stands for.
pub open spec fn published(s: Seq<char>) -> Result<Publish, Seq<char>> {
    let p = split(s, ':');
    let m = if p.len() == 1 {
        mapping(DEFAULT_BIND@, p[0], p[0])
    } else if p.len() == 2 {
        mapping(DEFAULT_BIND@, p[0], p[1])
    } else if p.len() == 3 {
        mapping(p[0], p[1], p[2])
    } else {
        None
    };
    match m {
        Some(x) => Ok(x),
        None => Err(refusal(s)),
    }
}

fn mapping_of(bind: &str, host: &str, container: &str) -> (r: Option<PortMapping>)
    ensures
        match r {
            Some(m) => mapping(bind@, host@, container@) == Some(m@),
            None => mapping(bind@, host@, container@) is None,
        },
{
    match (parse_number(host, u16::MAX as u64), parse_number(container, u16::MAX as u64)) {
        (Some(h), Some(c)) => Some(
            PortMapping {
                host_bind: bind.to_owned(),
                host_port: h as u16,
                container_port: c as u16,
                ephemeral_port: None,
                name: None,
            },
        ),
        _ => None,
    }
}

/// The port mapping that a text stands for, or why it stands for none.
pub fn parse_publish(s: &str) -> (r: Result<PortMapping, String>)
    ensures
        match r {
            Ok(m) => published(s@) == Ok::<Publish, Seq<char>>(m@),
            Err(e) => published(s@) == Err::<Publish, Seq<char>>(e@),
        },
{
    let parts = split_char(s, ':');
    let ghost p = split(s@, ':');
    proof {
        assert(p.len() == parts@.len());
        assert(forall|i: int| 0 <= i < p.len() ==> p[i] == (#[trigger] parts@[i])@);
    }
    let m = if parts.len() == 1 {
        mapping_of(DEFAULT_BIND, parts[0].as_str(), parts[0].as_str())
    } else if parts.len() == 2 {
        mapping_of(DEFAULT_BIND, parts[0].as_str(), parts[1].as_str())
    } else if parts.len() == 3 {
        mapping_of(parts[0].as_str(), parts[1].as_str(), parts[2].as_str())
    } else {
        None
    };
    match m {
        Some(x) => Ok(x),
        None => Err(
            concat3(
                "invalid publish spec '",
                s,
                "': use PORT, HOST:CONTAINER or BIND:HOST:CONTAINER",
            ),
        ),
    }
}

/// Two numbers of ports publish the one as the other, on the host alone.
pub proof fn law_published_pair(host: u16, container: u16)
    ensures
        published(decimal(host as nat) + ":"@ + decimal(container as nat)) == Ok::<
            Publish,
            Seq<char>,
        >(
            Publish {
                host_bind: DEFAULT_BIND@,
                host_port: host,
                container_port: container,
                ephemeral_port: None,
                name: None,
            },
        ),
{
    let a = decimal(host as nat);
    let b = decimal(container as nat);
    reveal_strlit(":");
    crate::text::law_decimal_round_trip(host as nat);
    crate::text::law_decimal_round_trip(container as nat);
    assert(a + ":"@ + b =~= a.push(':') + b);
    crate::text::lemma_split_head(a, ':', b);
    crate::text::lemma_split_one(b, ':');
    assert(split(a + ":"@ + b, ':') =~= seq![a, b]);
}

/// One number publishes a port as itself, three parts on the address that is
/// named first, and all on the host alone where none is. What is no port is
/// refused with its text.
pub proof fn law_published_forms(bind: Seq<char>, host: u16, container: u16)
    requires
        !bind.contains(':'),
    ensures
        DEFAULT_BIND@ == "127.0.0.1"@,
        published(decimal(host as nat)) == Ok::<Publish, Seq<char>>(
            Publish {
                host_bind: "127.0.0.1"@,
                host_port: host,
                container_port: host,
                ephemeral_port: None,
                name: None,
            },
        ),
        published(bind + ":"@ + decimal(host as nat) + ":"@ + decimal(container as nat)) == Ok::<
            Publish,
            Seq<char>,
        >(
            Publish {
                host_bind: bind,
                host_port: host,
                container_port: container,
                ephemeral_port: None,
                name: None,
            },
        ),
        published(decimal(host as nat) + ":"@ + decimal(container as nat)) == Ok::<
            Publish,
            Seq<char>,
        >(
            Publish {
                host_bind: "127.0.0.1"@,
                host_port: host,
                container_port: container,
                ephemeral_port: None,
                name: None,
            },
        ),
        published(bind) is Err ==> published(bind) == Err::<Publish, Seq<char>>(
            "invalid publish spec '"@ + bind
                + "': use PORT, HOST:CONTAINER or BIND:HOST:CONTAINER"@,
        ),
{
    let a = decimal(host as nat);
    let b = decimal(container as nat);
    reveal_strlit(":");
    law_published_pair(host, container);
    crate::text::law_decimal_round_trip(host as nat);
    crate::text::law_decimal_round_trip(container as nat);
    crate::text::lemma_split_one(a, ':');
    crate::text::lemma_split_one(b, ':');
    crate::text::lemma_split_head(a, ':', b);
    crate::text::lemma_split_head(bind, ':', a.push(':') + b);
    let s = bind + ":"@ + a + ":"@ + b;
    assert(s =~= bind.push(':') + (a.push(':') + b));
    assert(split(s, ':') =~= seq![bind, a, b]);
}

/// Only a number that fits a port is one.
pub proof fn law_ports(n: nat)
    ensures
        n <= 65535 ==> port(decimal(n)) == Some(n),
        n > 65535 ==> port(decimal(n)) is None,
{
    crate::text::law_decimal_round_trip(n);
}

} // verus!
