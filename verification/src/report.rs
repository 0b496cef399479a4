//! Queries over scanned entries: looking up one port, filtering a listing,
//! counting, and the small decisions of the command-line handlers.

use vstd::prelude::*;
use crate::numeric::{decimal, decimal_exec};
use crate::port_info::{PortInfo, PortModel, models};
use crate::scanner::same_text;
use crate::text::{
    chars_of, lowercase, starts_with,
    starts_with_exec, to_lowercase, trim_ws, trim_ws_exec, string_of,
};

verus! {

broadcast use vstd::string::group_string_axioms;

// ---------------------------------------------------------------------------
// Looking up one port
// ---------------------------------------------------------------------------

/// The last position of a port separator (`:` or `.`) in an address.
pub open spec fn last_port_separator(addr: Seq<char>) -> Option<nat>
    decreases addr.len(),
{
    if addr.len() == 0 {
        None
    } else if addr.last() == ':' || addr.last() == '.' {
        Some((addr.len() - 1) as nat)
    } else {
        last_port_separator(addr.drop_last())
    }
}

/// The port text of a local address: what follows its last `:` or `.`
/// (IPv4 and IPv6 addresses use the one, macOS listings the other), or the
/// whole address when it has neither.
pub open spec fn local_port_text(addr: Seq<char>) -> Seq<char> {
    match last_port_separator(addr) {
        Some(k) => addr.skip(k + 1int),
        None => addr,
    }
}

/// Whether a local address is on `port`: its port text is the port in
/// decimal.
pub open spec fn port_text_matches(local: Seq<char>, port: u16) -> bool {
    local_port_text(local) == decimal(port as nat)
}

/// The port text of a local address (see `local_port_text`).
pub fn local_port_text_exec(addr: &[char]) -> (r: Vec<char>)
    ensures
        r@ == local_port_text(addr@),
{
    let n = addr.len();
    let mut i = n;
    assert(addr@.take(i as int) == addr@);
    while i > 0
        invariant
            i <= n == addr@.len(),
            last_port_separator(addr@) == last_port_separator(addr@.take(i as int)),
        decreases i,
    {
        assert(addr@.take(i as int).drop_last() == addr@.take(i - 1));
        if addr[i - 1] == ':' || addr[i - 1] == '.' {
            return crate::text::sub_chars(addr, i, n);
        }
        i -= 1;
    }
    crate::text::sub_chars(addr, 0, n)
}

/// Whether an entry answers a query for `port` over `protocol`: its
/// lower-cased protocol starts with the lower-cased query protocol and its
/// local address is on the port.
pub open spec fn entry_matches(m: PortModel, port: u16, protocol: Seq<char>) -> bool {
    starts_with(lowercase(m.protocol), lowercase(protocol)) && port_text_matches(m.local_addr, port)
}

/// The first entry that answers the query.
pub open spec fn first_match(ms: Seq<PortModel>, port: u16, protocol: Seq<char>) -> Option<PortModel>
    decreases ms.len(),
{
    if ms.len() == 0 {
        None
    } else if entry_matches(ms[0], port, protocol) {
        Some(ms[0])
    } else {
        first_match(ms.drop_first(), port, protocol)
    }
}

/// Whether an entry with (already lower-cased) protocol `lower_protocol`
/// and local address `local_addr` answers a query for `port` with
/// (already lower-cased) protocol `lower_query`.
pub fn entry_matches_lowered(lower_protocol: &str, lower_query: &str, local_addr: &str, port: u16) -> (r: bool)
    ensures
        r == (starts_with(lower_protocol@, lower_query@) && port_text_matches(local_addr@, port)),
{
    let lp = chars_of(lower_protocol);
    let lq = chars_of(lower_query);
    if !starts_with_exec(lp.as_slice(), lq.as_slice()) {
        return false;
    }
    let local = chars_of(local_addr);
    let text = local_port_text_exec(local.as_slice());
    let d = decimal_exec(port as u32);
    crate::text::chars_eq(text.as_slice(), d.as_slice())
}

/// The first of `all_ports` whose protocol starts with `protocol` (both
/// lower-cased) and whose local address is on `port` (see `first_match`).
pub fn scan_specific_port(all_ports: Vec<PortInfo>, port: u16, protocol: &str) -> (r: Option<PortInfo>)
    ensures
        match r {
            Some(p) => first_match(models(all_ports@), port, protocol@) == Some(p@),
            None => first_match(models(all_ports@), port, protocol@) is None,
        },
{
    let query = to_lowercase(protocol);
    let n = all_ports.len();
    let ghost ms = models(all_ports@);
    assert(ms.subrange(0, n as int) == ms);
    let mut i: usize = 0;
    while i < n
        invariant
            n == all_ports@.len() == ms.len(),
            ms == models(all_ports@),
            i <= n,
            query@ == lowercase(protocol@),
            first_match(ms, port, protocol@) == first_match(ms.subrange(i as int, n as int), port, protocol@),
        decreases n - i,
    {
        let ghost rest = ms.subrange(i as int, n as int);
        assert(rest[0] == all_ports@[i as int]@);
        assert(rest.drop_first() == ms.subrange(i + 1, n as int));
        let lp = to_lowercase(all_ports[i].protocol.as_str());
        if entry_matches_lowered(lp.as_str(), query.as_str(), all_ports[i].local_addr.as_str(), port) {
            return Some(all_ports[i].duplicate());
        }
        i += 1;
    }
    None
}

// ---------------------------------------------------------------------------
// Filtering a listing
// ---------------------------------------------------------------------------

/// Whether a listing keeps an entry: its lower-cased protocol starts with
/// the lower-cased filter protocol (when one is given) and, when only
/// listening sockets are asked for, its state is `LISTEN` or `UDP`.
pub open spec fn listing_keeps(m: PortModel, protocol: Option<Seq<char>>, listening: bool) -> bool {
    &&& match protocol {
        None => true,
        Some(p) => starts_with(lowercase(m.protocol), lowercase(p)),
    }
    &&& (!listening || m.state == "LISTEN"@ || m.state == "UDP"@)
}

/// The entries that a listing keeps, in their order.
pub open spec fn listing(ms: Seq<PortModel>, protocol: Option<Seq<char>>, listening: bool) -> Seq<PortModel>
    decreases ms.len(),
{
    if ms.len() == 0 {
        Seq::empty()
    } else {
        let acc = listing(ms.drop_last(), protocol, listening);
        if listing_keeps(ms.last(), protocol, listening) {
            acc.push(ms.last())
        } else {
            acc
        }
    }
}

/// The characters of an optional text.
pub open spec fn opt_str_view(o: Option<&str>) -> Option<Seq<char>> {
    match o {
        Some(s) => Some(s@),
        None => None,
    }
}

/// Keeps the entries of a listing that match the protocol filter and, if
/// asked, only listening sockets (see `listing_keeps`), in their order.
pub fn filter_ports(ports: &mut Vec<PortInfo>, protocol: Option<&str>, listening: bool)
    ensures
        models(final(ports)@) == listing(models(old(ports)@), opt_str_view(protocol), listening),
{
    let query: Option<String> = match protocol {
        Some(p) => Some(to_lowercase(p)),
        None => None,
    };
    let ghost ms = models(ports@);
    let ghost pv = opt_str_view(protocol);
    let mut out: Vec<PortInfo> = Vec::new();
    let n = ports.len();
    assert(ms.take(0) =~= Seq::<PortModel>::empty());
    assert(models(out@) =~= Seq::<PortModel>::empty());
    for i in 0..n
        invariant
            n == ports@.len() == ms.len(),
            ms == models(ports@),
            pv == opt_str_view(protocol),
            match query {
                Some(q) => pv matches Some(p) && q@ == lowercase(p),
                None => pv is None,
            },
            models(out@) == listing(ms.take(i as int), pv, listening),
    {
        assert(ms.take(i + 1).drop_last() == ms.take(i as int));
        assert(ms.take(i + 1).last() == ports@[i as int]@);
        let keep_proto = match &query {
            None => true,
            Some(q) => {
                let lp = to_lowercase(ports[i].protocol.as_str());
                let a = chars_of(lp.as_str());
                let b = chars_of(q.as_str());
                starts_with_exec(a.as_slice(), b.as_slice())
            },
        };
        let keep = keep_proto && (!listening || same_text(ports[i].state.as_str(), "LISTEN") || same_text(ports[i].state.as_str(), "UDP"));
        if keep {
            let ghost prev = out@;
            let e = ports[i].duplicate();
            let ghost m = e@;
            out.push(e);
            assert(models(out@) =~= models(prev).push(m));
        }
    }
    assert(ms.take(n as int) == ms);
    *ports = out;
}

// ---------------------------------------------------------------------------
// Counting
// ---------------------------------------------------------------------------

/// The number of entries of `ms` that satisfy `p`.
pub open spec fn count_where(ms: Seq<PortModel>, p: spec_fn(PortModel) -> bool) -> nat
    decreases ms.len(),
{
    if ms.len() == 0 {
        0
    } else {
        count_where(ms.drop_last(), p) + if p(ms.last()) {
            1nat
        } else {
            0nat
        }
    }
}

/// A TCP entry: its lower-cased protocol starts with `tcp`.
pub open spec fn is_tcp_entry(m: PortModel) -> bool {
    starts_with(lowercase(m.protocol), "tcp"@)
}

/// A UDP entry: not TCP, and its lower-cased protocol starts with `udp`.
pub open spec fn is_udp_entry(m: PortModel) -> bool {
    !is_tcp_entry(m) && starts_with(lowercase(m.protocol), "udp"@)
}

/// A listening TCP entry.
pub open spec fn is_listening_entry(m: PortModel) -> bool {
    is_tcp_entry(m) && m.state == "LISTEN"@
}

/// An established TCP connection.
pub open spec fn is_established_entry(m: PortModel) -> bool {
    is_tcp_entry(m) && m.state == "ESTABLISHED"@
}

/// Counts of a listing by kind.
#[derive(Debug, Clone, Copy, PartialEq, Eq, Structural)]
pub struct PortStats {
    pub total: usize,
    pub tcp: usize,
    pub udp: usize,
    pub listening: usize,
    pub established: usize,
}

/// Counts the entries of a listing: all of them, TCP and UDP ones, listening
/// TCP sockets and established TCP connections.
pub fn compute_stats(ports: &[PortInfo]) -> (r: PortStats)
    ensures
        r.total == ports@.len(),
        r.tcp == count_where(models(ports@), |m: PortModel| is_tcp_entry(m)),
        r.udp == count_where(models(ports@), |m: PortModel| is_udp_entry(m)),
        r.listening == count_where(models(ports@), |m: PortModel| is_listening_entry(m)),
        r.established == count_where(models(ports@), |m: PortModel| is_established_entry(m)),
{
    let ghost ms = models(ports@);
    let mut tcp: usize = 0;
    let mut udp: usize = 0;
    let mut listening: usize = 0;
    let mut established: usize = 0;
    let n = ports.len();
    assert(ms.take(0) =~= Seq::<PortModel>::empty());
    for i in 0..n
        invariant
            n == ports@.len() == ms.len(),
            ms == models(ports@),
            tcp == count_where(ms.take(i as int), |m: PortModel| is_tcp_entry(m)),
            udp == count_where(ms.take(i as int), |m: PortModel| is_udp_entry(m)),
            listening == count_where(ms.take(i as int), |m: PortModel| is_listening_entry(m)),
            established == count_where(ms.take(i as int), |m: PortModel| is_established_entry(m)),
            tcp <= i,
            udp <= i,
            listening <= i,
            established <= i,
    {
        assert(ms.take(i + 1).drop_last() == ms.take(i as int));
        assert(ms.take(i + 1).last() == ports@[i as int]@);
        proof {
            reveal_strlit("LISTEN");
            reveal_strlit("ESTABLISHED");
            assert("LISTEN"@.len() != "ESTABLISHED"@.len());
            assert("LISTEN"@ != "ESTABLISHED"@);
        }
        let lp = to_lowercase(ports[i].protocol.as_str());
        let a = chars_of(lp.as_str());
        let tcp_text = chars_of("tcp");
        let udp_text = chars_of("udp");
        if starts_with_exec(a.as_slice(), tcp_text.as_slice()) {
            tcp += 1;
            if same_text(ports[i].state.as_str(), "LISTEN") {
                listening += 1;
            } else if same_text(ports[i].state.as_str(), "ESTABLISHED") {
                established += 1;
            }
        } else if starts_with_exec(a.as_slice(), udp_text.as_slice()) {
            udp += 1;
        }
    }
    assert(ms.take(n as int) == ms);
    PortStats { total: n, tcp, udp, listening, established }
}

// ---------------------------------------------------------------------------
// Small decisions of the commands
// ---------------------------------------------------------------------------

/// The protocols that `check` looks at: the one given, else `tcp` and `udp`.
pub fn check_protocols(protocol: Option<String>) -> (r: Vec<String>)
    ensures
        match protocol {
            Some(p) => r@.len() == 1 && r@[0]@ == p@,
            None => r@.len() == 2 && r@[0]@ == "tcp"@ && r@[1]@ == "udp"@,
        },
{
    let mut v: Vec<String> = Vec::new();
    match protocol {
        Some(p) => v.push(p),
        None => {
            v.push("tcp".to_owned());
            v.push("udp".to_owned());
        },
    }
    v
}

/// Whether a confirmation answer accepts: trimmed and lower-cased, it
/// starts with `y`.
pub fn answer_is_yes(input: &str) -> (r: bool)
    ensures
        r == starts_with(lowercase(trim_ws(input@)), seq!['y']),
{
    let chars = chars_of(input);
    let trimmed = trim_ws_exec(chars.as_slice());
    let t = string_of(trimmed.as_slice());
    let lower = to_lowercase(t.as_str());
    let l = chars_of(lower.as_str());
    let mut y: Vec<char> = Vec::new();
    y.push('y');
    assert(y@ =~= seq!['y']);
    starts_with_exec(l.as_slice(), y.as_slice())
}

/// The kind of socket that `reserve` binds.
#[derive(Debug, Clone, Copy, PartialEq, Eq, Structural)]
pub enum ReserveProtocol {
    Tcp,
    Udp,
}

/// Which socket `reserve` binds for the protocol (compared lower-cased):
/// a TCP listener for `tcp`, a UDP socket for `udp`, none for anything
/// else.
pub fn reservation_protocol(protocol: &str) -> (r: Option<ReserveProtocol>)
    ensures
        lowercase(protocol@) == "tcp"@ ==> r == Some(ReserveProtocol::Tcp),
        lowercase(protocol@) == "udp"@ ==> r == Some(ReserveProtocol::Udp),
        lowercase(protocol@) != "tcp"@ && lowercase(protocol@) != "udp"@ ==> r is None,
{
    let lower = to_lowercase(protocol);
    proof {
        reveal_strlit("tcp");
        reveal_strlit("udp");
        assert("tcp"@[0] != "udp"@[0]);
    }
    if same_text(lower.as_str(), "tcp") {
        Some(ReserveProtocol::Tcp)
    } else if same_text(lower.as_str(), "udp") {
        Some(ReserveProtocol::Udp)
    } else {
        None
    }
}

/// What `kill` does next.
#[derive(Debug, Clone, Copy, PartialEq, Eq, Structural)]
pub enum KillStep {
    /// No entry is on the port: report it free.
    ReportFree,
    /// The entry on the port has no known process.
    ReportNoProcess,
    /// Ask whether to kill this process.
    Confirm(u32),
    /// Kill this process.
    Kill(u32),
    /// The answer declined: do nothing.
    Cancel,
}

/// The first step of `kill`, given the entry found on the port: report the
/// port free when there is none, or its process unknown; else kill the
/// owning process at once when forced, and ask first otherwise.
pub fn kill_first_step(found: &Option<PortInfo>, force: bool) -> (r: KillStep)
    ensures
        match found {
            None => r == KillStep::ReportFree,
            Some(p) => match p.pid {
                None => r == KillStep::ReportNoProcess,
                Some(pid) => r == (if force {
                    KillStep::Kill(pid)
                } else {
                    KillStep::Confirm(pid)
                }),
            },
        },
{
    match found {
        None => KillStep::ReportFree,
        Some(p) => match p.pid {
            None => KillStep::ReportNoProcess,
            Some(pid) => if force {
                KillStep::Kill(pid)
            } else {
                KillStep::Confirm(pid)
            },
        },
    }
}

/// The step of `kill` after asking about process `pid`: kill it when the
/// answer accepts (see `answer_is_yes`), else cancel.
pub fn kill_after_answer(pid: u32, answer: &str) -> (r: KillStep)
    ensures
        r == (if starts_with(lowercase(trim_ws(answer@)), seq!['y']) {
            KillStep::Kill(pid)
        } else {
            KillStep::Cancel
        }),
{
    if answer_is_yes(answer) {
        KillStep::Kill(pid)
    } else {
        KillStep::Cancel
    }
}

} // verus!
