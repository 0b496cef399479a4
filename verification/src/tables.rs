//! Parsers for the outputs of `netstat`, `lsof` and `tasklist`, and the
//! attribution of sockets to processes that they allow.

use vstd::prelude::*;
use std::collections::HashMap;
use crate::numeric::{parse_u32_radix, parse_unsigned};
use crate::port_info::{PortInfo, PortModel, models};
use crate::scanner::{ParseError, eq_lit, proc_net_table, starts_lit};
use crate::text::{
    occurs_at, chars_eq, chars_of, contains, contains_exec, ends_with, ends_with_exec, find, find_exec, lines,
    lines_exec, rfind_char, rfind_char_exec, split_on, split_on_exec, split_ws, split_ws_exec,
    starts_with, string_of, sub_chars, trim_char, trim_char_exec, trim_ws, trim_ws_exec, views,
};

verus! {

broadcast use {vstd::string::group_string_axioms, vstd::std_specs::hash::group_hash_axioms};

/// The largest `u32`, as a mathematical integer.
pub open spec fn u32_max() -> nat {
    u32::MAX as nat
}

/// A decimal `u32` column, when it is one (`str::parse::<u32>().ok()`).
pub open spec fn decimal_field(s: Seq<char>) -> Option<u32> {
    match parse_unsigned(s, 10, u32_max()) {
        Ok(n) => Some(n as u32),
        Err(_) => None,
    }
}

fn decimal_field_exec(s: &[char]) -> (r: Option<u32>)
    ensures
        r == decimal_field(s@),
{
    match parse_u32_radix(s, 10) {
        Ok(n) => Some(n),
        Err(_) => None,
    }
}

/// An entry with its owning process set.
pub open spec fn with_owner(m: PortModel, pid: Option<u32>, name: Seq<char>) -> PortModel {
    PortModel {
        protocol: m.protocol,
        local_addr: m.local_addr,
        remote_addr: m.remote_addr,
        state: m.state,
        pid: pid,
        process_name: Some(name),
    }
}

/// `m` with its owner set when its local address ends with `suffix`.
pub open spec fn owned_if_ends_with(
    m: PortModel,
    suffix: Seq<char>,
    pid: Option<u32>,
    name: Seq<char>,
) -> PortModel {
    if ends_with(m.local_addr, suffix) {
        with_owner(m, pid, name)
    } else {
        m
    }
}

/// `m` with its owner set when the port of its local address (see
/// `port_suffix`) is `port`. The ports are compared whole, not by
/// containment: process detection names the process using a given port,
/// so the owner of port 22 is not also given to ports 2222 or 8022.
pub open spec fn owned_if_on_port(m: PortModel, port: Seq<char>, pid: u32, name: Seq<char>) -> PortModel {
    if port_suffix(m.local_addr) == port {
        with_owner(m, Some(pid), name)
    } else {
        m
    }
}

fn set_owner(ports: &mut Vec<PortInfo>, j: usize, pid: Option<u32>, name: &[char])
    requires
        j < old(ports)@.len(),
    ensures
        final(ports)@.len() == old(ports)@.len(),
        final(ports)@[j as int]@ == with_owner(old(ports)@[j as int]@, pid, name@),
        forall|k: int| 0 <= k < final(ports)@.len() && k != j ==> final(ports)@[k] == old(ports)@[k],
{
    let mut p = ports[j].duplicate();
    p.pid = pid;
    p.process_name = Some(string_of(name));
    ports.set(j, p);
}

// ---------------------------------------------------------------------------
// Port of an address
// ---------------------------------------------------------------------------

/// The text after the last `:` of an address, or the whole address when it
/// has none.
pub open spec fn port_suffix(addr: Seq<char>) -> Seq<char> {
    match rfind_char(addr, ':') {
        Some(k) => addr.skip(k + 1int),
        None => addr,
    }
}

fn port_suffix_exec(addr: &[char]) -> (r: Vec<char>)
    ensures
        r@ == port_suffix(addr@),
{
    match rfind_char_exec(addr, ':') {
        Some(k) => {
            proof {
                crate::text::lemma_rfind_char(addr@, ':');
            }
            let len = addr.len();
            assert(k < len);
            sub_chars(addr, k + 1, len)
        },
        None => sub_chars(addr, 0, addr.len()),
    }
}

/// The port part of an address: what follows its last `:` (the whole
/// address when it has none).
pub fn extract_port_from_addr(addr: &str) -> (r: String)
    ensures
        r@ == port_suffix(addr@),
{
    let a = chars_of(addr);
    let p = port_suffix_exec(a.as_slice());
    assert(a@.subrange(0, a@.len() as int) == a@);
    string_of(p.as_slice())
}

// ---------------------------------------------------------------------------
// macOS netstat
// ---------------------------------------------------------------------------

/// The number of fields that a macOS `netstat` line needs: five for UDP,
/// whose lines have no state column, six otherwise.
pub open spec fn macos_min_fields(protocol: Seq<char>) -> nat {
    if protocol == "UDP"@ {
        5
    } else {
        6
    }
}

/// What one line of macOS `netstat -an` gives: an entry for a line that
/// starts (after trimming) with `tcp` or `udp` and has enough fields (see
/// `macos_min_fields`); a UDP entry has the state `UDP`.
pub open spec fn macos_entry(line: Seq<char>, protocol: Seq<char>) -> Option<PortModel> {
    let t = trim_ws(line);
    if !starts_with(t, "tcp"@) && !starts_with(t, "udp"@) {
        None
    } else {
        let f = split_ws(t);
        if f.len() < macos_min_fields(protocol) {
            None
        } else {
            Some(
                PortModel {
                    protocol: protocol,
                    local_addr: f[3],
                    remote_addr: if f[4] == "*.*"@ || starts_with(f[4], "0.0.0.0"@) {
                        None
                    } else {
                        Some(f[4])
                    },
                    state: if protocol == "UDP"@ {
                        "UDP"@
                    } else {
                        f[5]
                    },
                    pid: None,
                    process_name: None,
                },
            )
        }
    }
}

/// The entries of a run of macOS `netstat` lines, in order.
pub open spec fn macos_entries(ls: Seq<Seq<char>>, protocol: Seq<char>) -> Seq<PortModel>
    decreases ls.len(),
{
    if ls.len() == 0 {
        Seq::empty()
    } else {
        let acc = macos_entries(ls.drop_last(), protocol);
        match macos_entry(ls.last(), protocol) {
            None => acc,
            Some(m) => acc.push(m),
        }
    }
}

fn macos_entry_exec(line: &[char], protocol: &str) -> (r: Option<PortInfo>)
    ensures
        crate::scanner::opt_model(r) == macos_entry(line@, protocol@),
{
    let t = trim_ws_exec(line);
    if !starts_lit(t.as_slice(), "tcp") && !starts_lit(t.as_slice(), "udp") {
        return None;
    }
    let f = split_ws_exec(t.as_slice());
    let p = chars_of(protocol);
    let udp = eq_lit(p.as_slice(), "UDP");
    let min_fields: usize = if udp {
        5
    } else {
        6
    };
    if f.len() < min_fields {
        return None;
    }
    assert(f@[3]@ == split_ws(t@)[3]);
    assert(f@[4]@ == split_ws(t@)[4]);
    let remote = if eq_lit(f[4].as_slice(), "*.*") || starts_lit(f[4].as_slice(), "0.0.0.0") {
        None
    } else {
        Some(string_of(f[4].as_slice()))
    };
    let state = if udp {
        "UDP".to_owned()
    } else {
        assert(f@[5]@ == split_ws(t@)[5]);
        string_of(f[5].as_slice())
    };
    Some(
        PortInfo {
            protocol: protocol.to_owned(),
            local_addr: string_of(f[3].as_slice()),
            remote_addr: remote,
            state: state,
            pid: None,
            process_name: None,
        },
    )
}

/// Reads the output of macOS `netstat -an -p PROTOCOL` (see `macos_entry`).
pub fn parse_macos_netstat(output: &str, protocol: &str) -> (r: Result<Vec<PortInfo>, ParseError>)
    ensures
        r matches Ok(v) && models(v@) == macos_entries(lines(output@), protocol@),
{
    let chars = chars_of(output);
    let ls = lines_exec(chars.as_slice());
    let mut ports: Vec<PortInfo> = Vec::new();
    let ghost all = views(ls@);
    assert(all.take(0) =~= Seq::<Seq<char>>::empty());
    assert(models(ports@) =~= Seq::<PortModel>::empty());
    for i in 0..ls.len()
        invariant
            all == views(ls@),
            all == lines(output@),
            models(ports@) == macos_entries(all.take(i as int), protocol@),
    {
        assert(all.take(i + 1).drop_last() == all.take(i as int));
        assert(all.take(i + 1).last() == ls@[i as int]@);
        match macos_entry_exec(ls[i].as_slice(), protocol) {
            None => {},
            Some(entry) => {
                let ghost prev = ports@;
                let ghost m = entry@;
                ports.push(entry);
                assert(models(ports@) =~= models(prev).push(m));
            },
        }
    }
    assert(all.take(all.len() as int) == all);
    Ok(ports)
}

// ---------------------------------------------------------------------------
// lsof
// ---------------------------------------------------------------------------

/// The owner that one `lsof` line names: its first two fields, when the
/// second is a decimal process id.
pub open spec fn lsof_owner(line: Seq<char>) -> Option<(u32, Seq<char>)> {
    let f = split_ws(line);
    if f.len() >= 2 {
        match decimal_field(f[1]) {
            Some(pid) => Some((pid, f[0])),
            None => None,
        }
    } else {
        None
    }
}

/// The first owner named by a run of `lsof` lines.
pub open spec fn first_lsof_owner(ls: Seq<Seq<char>>) -> Option<(u32, Seq<char>)>
    decreases ls.len(),
{
    if ls.len() == 0 {
        None
    } else {
        match lsof_owner(ls[0]) {
            Some(o) => Some(o),
            None => first_lsof_owner(ls.drop_first()),
        }
    }
}

/// The owner named by an `lsof -i PROTO:PORT` output: the first line after
/// the header that names one.
pub open spec fn lsof_process(output: Seq<char>) -> Option<(u32, Seq<char>)> {
    let ls = lines(output);
    if ls.len() == 0 {
        None
    } else {
        first_lsof_owner(ls.drop_first())
    }
}

/// The owner named by one `lsof` output (see `lsof_process`).
pub fn parse_lsof_for_port(lsof_output: &str) -> (r: Option<(u32, String)>)
    ensures
        match r {
            Some((pid, name)) => lsof_process(lsof_output@) == Some((pid, name@)),
            None => lsof_process(lsof_output@) is None,
        },
{
    let chars = chars_of(lsof_output);
    let ls = lines_exec(chars.as_slice());
    let n = ls.len();
    if n == 0 {
        return None;
    }
    let ghost all = views(ls@);
    assert(all.drop_first() == all.subrange(1, n as int));
    for i in 1..n
        invariant
            n == ls@.len() == all.len(),
            all == views(ls@),
            lsof_process(lsof_output@) == first_lsof_owner(all.subrange(i as int, n as int)),
    {
        let ghost rest = all.subrange(i as int, n as int);
        assert(rest[0] == ls@[i as int]@);
        assert(rest.drop_first() == all.subrange(i + 1, n as int));
        let f = split_ws_exec(ls[i].as_slice());
        if f.len() >= 2 {
            assert(f@[0]@ == split_ws(ls@[i as int]@)[0]);
            assert(f@[1]@ == split_ws(ls@[i as int]@)[1]);
            match decimal_field_exec(f[1].as_slice()) {
                Some(pid) => {
                    return Some((pid, string_of(f[0].as_slice())));
                },
                None => {},
            }
        }
    }
    None
}

/// The binding that one `lsof` listing line gives: the port text of its
/// local address (ninth field, before any `->`, after the last `:`), its
/// process id (if decimal) and its command name.
pub open spec fn lsof_binding(line: Seq<char>) -> Option<(Seq<char>, Option<u32>, Seq<char>)> {
    if starts_with(line, "COMMAND"@) {
        None
    } else {
        let f = split_ws(line);
        if f.len() < 9 {
            None
        } else {
            let name_field = f[8];
            let local = match find(name_field, "->"@) {
                Some(a) => name_field.take(a as int),
                None => name_field,
            };
            match rfind_char(local, ':') {
                None => None,
                Some(c) => Some((local.skip(c + 1int), decimal_field(f[1]), f[0])),
            }
        }
    }
}

/// The entries after one `lsof` listing line: every entry whose local
/// address ends with `:PORT` takes the line's process id and name.
pub open spec fn apply_lsof_line(ms: Seq<PortModel>, line: Seq<char>) -> Seq<PortModel> {
    match lsof_binding(line) {
        None => ms,
        Some((port, pid, name)) => ms.map_values(
            |m: PortModel| owned_if_ends_with(m, seq![':'] + port, pid, name),
        ),
    }
}

/// The entries after a run of `lsof` listing lines, applied in order.
pub open spec fn apply_lsof_lines(ms: Seq<PortModel>, ls: Seq<Seq<char>>) -> Seq<PortModel>
    decreases ls.len(),
{
    if ls.len() == 0 {
        ms
    } else {
        apply_lsof_line(apply_lsof_lines(ms, ls.drop_last()), ls.last())
    }
}

fn lsof_binding_exec(line: &[char]) -> (r: Option<(Vec<char>, Option<u32>, Vec<char>)>)
    ensures
        match r {
            Some((port, pid, name)) => lsof_binding(line@) == Some((port@, pid, name@)),
            None => lsof_binding(line@) is None,
        },
{
    if starts_lit(line, "COMMAND") {
        return None;
    }
    let f = split_ws_exec(line);
    if f.len() < 9 {
        return None;
    }
    assert(f@[0]@ == split_ws(line@)[0]);
    assert(f@[1]@ == split_ws(line@)[1]);
    assert(f@[8]@ == split_ws(line@)[8]);
    let name_field = f[8].as_slice();
    let arrow = chars_of("->");
    let local = match find_exec(name_field, arrow.as_slice()) {
        Some(a) => {
            proof {
                crate::text::lemma_find_contains(name_field@, arrow@);
            }
            sub_chars(name_field, 0, a)
        },
        None => sub_chars(name_field, 0, name_field.len()),
    };
    assert(name_field@.subrange(0, name_field@.len() as int) == name_field@);
    match rfind_char_exec(local.as_slice(), ':') {
        None => None,
        Some(c) => {
            proof {
                crate::text::lemma_rfind_char(local@, ':');
            }
            let port = sub_chars(local.as_slice(), c + 1, local.len());
            let pid = decimal_field_exec(f[1].as_slice());
            let name = sub_chars(f[0].as_slice(), 0, f[0].len());
            assert(f@[0]@.subrange(0, f@[0]@.len() as int) == f@[0]@);
            Some((port, pid, name))
        },
    }
}

/// Sets the owner of every entry whose local address ends with `suffix`.
fn set_owner_where_suffix(
    ports: &mut Vec<PortInfo>,
    suffix: &[char],
    pid: Option<u32>,
    name: &[char],
)
    ensures
        models(final(ports)@) == models(old(ports)@).map_values(
            |m: PortModel| owned_if_ends_with(m, suffix@, pid, name@),
        ),
{
    let ghost before = models(ports@);
    let n = ports.len();
    for j in 0..n
        invariant
            n == ports@.len(),
            models(ports@).len() == before.len(),
            forall|k: int| 0 <= k < j ==> #[trigger] models(ports@)[k] == owned_if_ends_with(before[k], suffix@, pid, name@),
            forall|k: int| j <= k < before.len() ==> #[trigger] models(ports@)[k] == before[k],
    {
        let ghost prev = ports@;
        assert(models(ports@)[j as int] == before[j as int]);
        assert(models(ports@)[j as int] == ports@[j as int]@);
        let local = chars_of(ports[j].local_addr.as_str());
        assert(local@ == before[j as int].local_addr);
        if ends_with_exec(local.as_slice(), suffix) {
            set_owner(ports, j, pid, name);
            assert(ports@[j as int]@ == owned_if_ends_with(before[j as int], suffix@, pid, name@));
        } else {
            assert(ports@[j as int]@ == owned_if_ends_with(before[j as int], suffix@, pid, name@));
        }
        proof {
            assert forall|k: int| 0 <= k < n && k != j implies #[trigger] models(ports@)[k]
                == models(prev)[k] by {
                assert(ports@[k] == prev[k]);
            }
            assert(models(ports@)[j as int] == ports@[j as int]@);
            assert(prev[j as int]@ == before[j as int]);
            assert(models(ports@)[j as int] == owned_if_ends_with(before[j as int], suffix@, pid, name@));
        }
    }
    assert(models(ports@) =~= before.map_values(|m: PortModel| owned_if_ends_with(m, suffix@, pid, name@)));
}

/// Attributes entries to processes from a full `lsof` listing: for each
/// line in order, the entries whose local address ends with `:PORT` take
/// the line's process id and command name (see `apply_lsof_lines`).
pub fn parse_lsof_output(output: &str, ports: &mut Vec<PortInfo>) -> (r: Result<(), ParseError>)
    ensures
        r is Ok,
        models(final(ports)@) == apply_lsof_lines(models(old(ports)@), lines(output@)),
{
    let chars = chars_of(output);
    let ls = lines_exec(chars.as_slice());
    let ghost all = views(ls@);
    let ghost start = models(ports@);
    assert(all.take(0) =~= Seq::<Seq<char>>::empty());
    for i in 0..ls.len()
        invariant
            all == views(ls@),
            all == lines(output@),
            models(ports@) == apply_lsof_lines(start, all.take(i as int)),
    {
        assert(all.take(i + 1).drop_last() == all.take(i as int));
        assert(all.take(i + 1).last() == ls@[i as int]@);
        match lsof_binding_exec(ls[i].as_slice()) {
            None => {},
            Some((port, pid, name)) => {
                let mut suffix: Vec<char> = Vec::new();
                suffix.push(':');
                crate::scanner::push_all(&mut suffix, port.as_slice());
                assert(suffix@ =~= seq![':'] + port@);
                set_owner_where_suffix(ports, suffix.as_slice(), pid, name.as_slice());
            },
        }
    }
    assert(all.take(all.len() as int) == all);
    Ok(())
}

// ---------------------------------------------------------------------------
// Linux netstat
// ---------------------------------------------------------------------------

/// The binding that one line of Linux `netstat -tlnp` gives: for a `tcp` /
/// `udp` line with at least seven fields whose last column is `PID/NAME`
/// with a decimal pid, the port of its local address, the pid and the name.
pub open spec fn netstat_binding(line: Seq<char>) -> Option<(Seq<char>, u32, Seq<char>)> {
    if !starts_with(line, "tcp"@) && !starts_with(line, "udp"@) {
        None
    } else {
        let f = split_ws(line);
        if f.len() < 7 {
            None
        } else {
            let pid_process = f[6];
            match find(pid_process, seq!['/']) {
                None => None,
                Some(k) => match decimal_field(pid_process.take(k as int)) {
                    None => None,
                    Some(pid) => Some((port_suffix(f[3]), pid, pid_process.skip(k + 1int))),
                },
            }
        }
    }
}

/// The entries after one `netstat` line: every entry whose local address
/// is on the line's port (the text after the last `:` of each) takes the
/// line's pid and name.
pub open spec fn apply_netstat_line(ms: Seq<PortModel>, line: Seq<char>) -> Seq<PortModel> {
    match netstat_binding(line) {
        None => ms,
        Some((port, pid, name)) => ms.map_values(
            |m: PortModel| owned_if_on_port(m, port, pid, name),
        ),
    }
}

/// The entries after a run of `netstat` lines, applied in order.
pub open spec fn apply_netstat_lines(ms: Seq<PortModel>, ls: Seq<Seq<char>>) -> Seq<PortModel>
    decreases ls.len(),
{
    if ls.len() == 0 {
        ms
    } else {
        apply_netstat_line(apply_netstat_lines(ms, ls.drop_last()), ls.last())
    }
}

fn netstat_binding_exec(line: &[char]) -> (r: Option<(Vec<char>, u32, Vec<char>)>)
    ensures
        match r {
            Some((port, pid, name)) => netstat_binding(line@) == Some((port@, pid, name@)),
            None => netstat_binding(line@) is None,
        },
{
    if !starts_lit(line, "tcp") && !starts_lit(line, "udp") {
        return None;
    }
    let f = split_ws_exec(line);
    if f.len() < 7 {
        return None;
    }
    assert(f@[3]@ == split_ws(line@)[3]);
    assert(f@[6]@ == split_ws(line@)[6]);
    let pp = f[6].as_slice();
    let mut slash: Vec<char> = Vec::new();
    slash.push('/');
    assert(slash@ =~= seq!['/']);
    match find_exec(pp, slash.as_slice()) {
        None => None,
        Some(k) => {
            proof {
                crate::text::lemma_find_contains(pp@, slash@);
            }
            assert(occurs_at(pp@, slash@, k as int));
            let len = pp.len();
            assert(k < len);
            let head = sub_chars(pp, 0, k);
            match decimal_field_exec(head.as_slice()) {
                None => None,
                Some(pid) => {
                    let port = port_suffix_exec(f[3].as_slice());
                    let name = sub_chars(pp, k + 1, pp.len());
                    Some((port, pid, name))
                },
            }
        },
    }
}

/// Sets the owner of every entry whose local address is on `port`.
fn set_owner_where_port(ports: &mut Vec<PortInfo>, port: &[char], pid: u32, name: &[char])
    ensures
        models(final(ports)@) == models(old(ports)@).map_values(
            |m: PortModel| owned_if_on_port(m, port@, pid, name@),
        ),
{
    let ghost before = models(ports@);
    let n = ports.len();
    for j in 0..n
        invariant
            n == ports@.len(),
            models(ports@).len() == before.len(),
            forall|k: int| 0 <= k < j ==> #[trigger] models(ports@)[k] == owned_if_on_port(before[k], port@, pid, name@),
            forall|k: int| j <= k < before.len() ==> #[trigger] models(ports@)[k] == before[k],
    {
        let ghost prev = ports@;
        assert(models(ports@)[j as int] == before[j as int]);
        assert(models(ports@)[j as int] == ports@[j as int]@);
        let local = chars_of(ports[j].local_addr.as_str());
        assert(local@ == before[j as int].local_addr);
        let own = port_suffix_exec(local.as_slice());
        if chars_eq(own.as_slice(), port) {
            set_owner(ports, j, Some(pid), name);
            assert(ports@[j as int]@ == owned_if_on_port(before[j as int], port@, pid, name@));
        } else {
            assert(ports@[j as int]@ == owned_if_on_port(before[j as int], port@, pid, name@));
        }
        proof {
            assert forall|k: int| 0 <= k < n && k != j implies #[trigger] models(ports@)[k]
                == models(prev)[k] by {
                assert(ports@[k] == prev[k]);
            }
            assert(models(ports@)[j as int] == ports@[j as int]@);
            assert(prev[j as int]@ == before[j as int]);
            assert(models(ports@)[j as int] == owned_if_on_port(before[j as int], port@, pid, name@));
        }
    }
    assert(models(ports@) =~= before.map_values(|m: PortModel| owned_if_on_port(m, port@, pid, name@)));
}

/// Attributes entries to processes from Linux `netstat -tlnp` output: for
/// each line in order, the entries whose local address is on the line's
/// port take its pid and program name (see `apply_netstat_lines`).
pub fn parse_netstat_output(output: &str, ports: &mut Vec<PortInfo>) -> (r: Result<(), ParseError>)
    ensures
        r is Ok,
        models(final(ports)@) == apply_netstat_lines(models(old(ports)@), lines(output@)),
{
    let chars = chars_of(output);
    let ls = lines_exec(chars.as_slice());
    let ghost all = views(ls@);
    let ghost start = models(ports@);
    assert(all.take(0) =~= Seq::<Seq<char>>::empty());
    for i in 0..ls.len()
        invariant
            all == views(ls@),
            all == lines(output@),
            models(ports@) == apply_netstat_lines(start, all.take(i as int)),
    {
        assert(all.take(i + 1).drop_last() == all.take(i as int));
        assert(all.take(i + 1).last() == ls@[i as int]@);
        match netstat_binding_exec(ls[i].as_slice()) {
            None => {},
            Some((port, pid, name)) => {
                set_owner_where_port(ports, port.as_slice(), pid, name.as_slice());
            },
        }
    }
    assert(all.take(all.len() as int) == all);
    Ok(())
}

// ---------------------------------------------------------------------------
// Windows netstat and tasklist
// ---------------------------------------------------------------------------

/// What one line of Windows `netstat -ano` gives: an entry for a line that
/// starts (after trimming) with `TCP` or `UDP` and has at least four fields.
/// A `UDP` line has state `UDP` and its fourth field as pid; another has
/// its fourth field as state and its fifth (if any) as pid.
pub open spec fn windows_entry(line: Seq<char>) -> Option<PortModel> {
    let t = trim_ws(line);
    if !starts_with(t, "TCP"@) && !starts_with(t, "UDP"@) {
        None
    } else {
        let f = split_ws(t);
        if f.len() < 4 {
            None
        } else {
            let protocol = f[0];
            Some(
                PortModel {
                    protocol: protocol,
                    local_addr: f[1],
                    remote_addr: if f[2] == "*:*"@ || f[2] == "0.0.0.0:0"@ {
                        None
                    } else {
                        Some(f[2])
                    },
                    state: if protocol == "UDP"@ {
                        "UDP"@
                    } else {
                        f[3]
                    },
                    pid: if protocol == "UDP"@ {
                        decimal_field(f[3])
                    } else if f.len() > 4 {
                        decimal_field(f[4])
                    } else {
                        None
                    },
                    process_name: None,
                },
            )
        }
    }
}

/// The entries of a run of Windows `netstat` lines, in order.
pub open spec fn windows_entries(ls: Seq<Seq<char>>) -> Seq<PortModel>
    decreases ls.len(),
{
    if ls.len() == 0 {
        Seq::empty()
    } else {
        let acc = windows_entries(ls.drop_last());
        match windows_entry(ls.last()) {
            None => acc,
            Some(m) => acc.push(m),
        }
    }
}

fn windows_entry_exec(line: &[char]) -> (r: Option<PortInfo>)
    ensures
        crate::scanner::opt_model(r) == windows_entry(line@),
{
    let t = trim_ws_exec(line);
    if !starts_lit(t.as_slice(), "TCP") && !starts_lit(t.as_slice(), "UDP") {
        return None;
    }
    let f = split_ws_exec(t.as_slice());
    if f.len() < 4 {
        return None;
    }
    assert(f@[0]@ == split_ws(t@)[0]);
    assert(f@[1]@ == split_ws(t@)[1]);
    assert(f@[2]@ == split_ws(t@)[2]);
    assert(f@[3]@ == split_ws(t@)[3]);
    let remote = if eq_lit(f[2].as_slice(), "*:*") || eq_lit(f[2].as_slice(), "0.0.0.0:0") {
        None
    } else {
        Some(string_of(f[2].as_slice()))
    };
    let is_udp = eq_lit(f[0].as_slice(), "UDP");
    let (state, pid) = if is_udp {
        ("UDP".to_owned(), decimal_field_exec(f[3].as_slice()))
    } else {
        let pid = if f.len() > 4 {
            assert(f@[4]@ == split_ws(t@)[4]);
            decimal_field_exec(f[4].as_slice())
        } else {
            None
        };
        (string_of(f[3].as_slice()), pid)
    };
    Some(
        PortInfo {
            protocol: string_of(f[0].as_slice()),
            local_addr: string_of(f[1].as_slice()),
            remote_addr: remote,
            state: state,
            pid: pid,
            process_name: None,
        },
    )
}

/// Reads the output of Windows `netstat -ano` (see `windows_entry`); the
/// entries carry no process name yet (see `apply_process_names`).
pub fn parse_windows_netstat(output: &str) -> (r: Result<Vec<PortInfo>, ParseError>)
    ensures
        r matches Ok(v) && models(v@) == windows_entries(lines(output@)),
{
    let chars = chars_of(output);
    let ls = lines_exec(chars.as_slice());
    let mut ports: Vec<PortInfo> = Vec::new();
    let ghost all = views(ls@);
    assert(all.take(0) =~= Seq::<Seq<char>>::empty());
    assert(models(ports@) =~= Seq::<PortModel>::empty());
    for i in 0..ls.len()
        invariant
            all == views(ls@),
            all == lines(output@),
            models(ports@) == windows_entries(all.take(i as int)),
    {
        assert(all.take(i + 1).drop_last() == all.take(i as int));
        assert(all.take(i + 1).last() == ls@[i as int]@);
        match windows_entry_exec(ls[i].as_slice()) {
            None => {},
            Some(entry) => {
                let ghost prev = ports@;
                let ghost m = entry@;
                ports.push(entry);
                assert(models(ports@) =~= models(prev).push(m));
            },
        }
    }
    assert(all.take(all.len() as int) == all);
    Ok(ports)
}

/// The process that one `tasklist /fo csv` line names: its first two
/// comma-separated fields without their quotes, when the second is a
/// decimal pid.
pub open spec fn tasklist_entry(line: Seq<char>) -> Option<(u32, Seq<char>)> {
    let f = split_on(line, ',');
    if f.len() >= 2 {
        match decimal_field(trim_char(f[1], '"')) {
            Some(pid) => Some((pid, trim_char(f[0], '"'))),
            None => None,
        }
    } else {
        None
    }
}

/// The process names that a run of `tasklist` lines gives; a later line
/// for the same pid replaces an earlier one.
pub open spec fn tasklist_names(ls: Seq<Seq<char>>) -> Map<u32, Seq<char>>
    decreases ls.len(),
{
    if ls.len() == 0 {
        Map::empty()
    } else {
        let prev = tasklist_names(ls.drop_last());
        match tasklist_entry(ls.last()) {
            None => prev,
            Some((pid, name)) => prev.insert(pid, name),
        }
    }
}

/// The process names of a whole `tasklist /fo csv` output (its lines after
/// the header).
pub open spec fn tasklist_table(output: Seq<char>) -> Map<u32, Seq<char>> {
    let ls = lines(output);
    if ls.len() == 0 {
        Map::empty()
    } else {
        tasklist_names(ls.drop_first())
    }
}

/// The names held by a map from pids to names.
pub open spec fn name_map_view(m: Map<u32, String>) -> Map<u32, Seq<char>> {
    Map::new(|k: u32| m.dom().contains(k), |k: u32| m[k]@)
}

fn tasklist_entry_exec(line: &[char]) -> (r: Option<(u32, String)>)
    ensures
        match r {
            Some((pid, name)) => tasklist_entry(line@) == Some((pid, name@)),
            None => tasklist_entry(line@) is None,
        },
{
    let f = split_on_exec(line, ',');
    if f.len() >= 2 {
        assert(f@[0]@ == split_on(line@, ',')[0]);
        assert(f@[1]@ == split_on(line@, ',')[1]);
        let name = trim_char_exec(f[0].as_slice(), '"');
        let pid_text = trim_char_exec(f[1].as_slice(), '"');
        match decimal_field_exec(pid_text.as_slice()) {
            Some(pid) => Some((pid, string_of(name.as_slice()))),
            None => None,
        }
    } else {
        None
    }
}

/// Reads the output of `tasklist /fo csv` into a map from pid to process
/// name (see `tasklist_table`).
pub fn parse_tasklist(output: &str) -> (r: HashMap<u32, String>)
    ensures
        name_map_view(r@) == tasklist_table(output@),
{
    let chars = chars_of(output);
    let ls = lines_exec(chars.as_slice());
    let mut names: HashMap<u32, String> = HashMap::new();
    let n = ls.len();
    if n == 0 {
        assert(name_map_view(names@) =~= Map::<u32, Seq<char>>::empty());
        return names;
    }
    let ghost body = views(ls@).drop_first();
    assert(body.take(0) =~= Seq::<Seq<char>>::empty());
    assert(name_map_view(names@) =~= Map::<u32, Seq<char>>::empty());
    for i in 1..n
        invariant
            n == ls@.len(),
            views(ls@) == lines(output@),
            body == views(ls@).drop_first(),
            name_map_view(names@) == tasklist_names(body.take(i - 1)),
    {
        assert(body.take(i as int).drop_last() == body.take(i - 1));
        assert(body.take(i as int).last() == ls@[i as int]@);
        match tasklist_entry_exec(ls[i].as_slice()) {
            None => {},
            Some((pid, name)) => {
                let ghost prev = names@;
                let ghost nv = name@;
                names.insert(pid, name);
                assert(name_map_view(names@) =~= name_map_view(prev).insert(pid, nv));
            },
        }
    }
    assert(body.take(n - 1) == body);
    names
}

/// The entries after attaching process names: every entry with a pid takes
/// the name that `names` holds for it, or none when it holds none.
pub open spec fn with_process_names(ms: Seq<PortModel>, names: Map<u32, Seq<char>>) -> Seq<
    PortModel,
> {
    ms.map_values(
        |m: PortModel|
            match m.pid {
                None => m,
                Some(pid) => PortModel {
                    protocol: m.protocol,
                    local_addr: m.local_addr,
                    remote_addr: m.remote_addr,
                    state: m.state,
                    pid: m.pid,
                    process_name: if names.dom().contains(pid) {
                        Some(names[pid])
                    } else {
                        None
                    },
                },
            },
    )
}

/// Attaches to each entry with a pid the process name that `names` holds
/// for that pid (see `with_process_names`).
pub fn apply_process_names(ports: &mut Vec<PortInfo>, names: &HashMap<u32, String>)
    ensures
        models(final(ports)@) == with_process_names(models(old(ports)@), name_map_view(names@)),
{
    let ghost before = models(ports@);
    let ghost nm = name_map_view(names@);
    let n = ports.len();
    for j in 0..n
        invariant
            n == ports@.len(),
            nm == name_map_view(names@),
            models(ports@).len() == before.len(),
            forall|k: int|
                0 <= k < j ==> #[trigger] models(ports@)[k] == with_process_names(before, nm)[k],
            forall|k: int| j <= k < before.len() ==> #[trigger] models(ports@)[k] == before[k],
    {
        let ghost prev = ports@;
        assert(models(ports@)[j as int] == before[j as int]);
        assert(models(ports@)[j as int] == ports@[j as int]@);
        match ports[j].pid {
            None => {},
            Some(pid) => {
                let name = match names.get(&pid) {
                    Some(s) => Some(s.clone()),
                    None => None,
                };
                let mut p = ports[j].duplicate();
                p.process_name = name;
                ports.set(j, p);
            },
        }
        proof {
            assert forall|k: int| 0 <= k < n && k != j implies #[trigger] models(ports@)[k]
                == models(prev)[k] by {
                assert(ports@[k] == prev[k]);
            }
            assert(models(ports@)[j as int] == with_process_names(before, nm)[j as int]);
        }
    }
    assert(models(ports@) =~= with_process_names(before, nm));
}


// ---------------------------------------------------------------------------
// Whole scans
// ---------------------------------------------------------------------------

/// The listing so far extended by one `/proc/net` table, when it could be
/// read; a table that fails to parse fails the scan.
pub open spec fn add_proc_table(
    acc: Result<Seq<PortModel>, ParseError>,
    content: Option<Seq<char>>,
    protocol: Seq<char>,
) -> Result<Seq<PortModel>, ParseError> {
    match acc {
        Err(e) => Err(e),
        Ok(ms) => match content {
            None => Ok(ms),
            Some(c) => match proc_net_table(c, protocol) {
                Err(e) => Err(e),
                Ok(more) => Ok(ms + more),
            },
        },
    }
}

/// What a Linux scan gives: the entries of the `tcp`, `tcp6`, `udp` and
/// `udp6` tables that could be read, in that order, attributed to processes
/// by the `netstat` output when it ran.
pub open spec fn linux_scan(
    tcp: Option<Seq<char>>,
    tcp6: Option<Seq<char>>,
    udp: Option<Seq<char>>,
    udp6: Option<Seq<char>>,
    netstat: Option<Seq<char>>,
) -> Result<Seq<PortModel>, ParseError> {
    let tables = add_proc_table(
        add_proc_table(
            add_proc_table(add_proc_table(Ok(Seq::empty()), tcp, "TCP"@), tcp6, "TCP6"@),
            udp,
            "UDP"@,
        ),
        udp6,
        "UDP6"@,
    );
    match tables {
        Err(e) => Err(e),
        Ok(ms) => Ok(
            match netstat {
                None => ms,
                Some(o) => apply_netstat_lines(ms, lines(o)),
            },
        ),
    }
}

fn add_proc_table_exec(ports: &mut Vec<PortInfo>, content: Option<&str>, protocol: &str) -> (r: Result<(), ParseError>)
    ensures
        match add_proc_table(Ok(models(old(ports)@)), crate::report::opt_str_view(content), protocol@) {
            Ok(ms) => r is Ok && models(final(ports)@) == ms,
            Err(e) => r == Err::<(), ParseError>(e),
        },
{
    match content {
        None => Ok(()),
        Some(c) => match crate::scanner::parse_proc_net(c, protocol) {
            Err(e) => Err(e),
            Ok(more) => {
                let ghost before = models(ports@);
                let ghost added = models(more@);
                let mut more = more;
                ports.append(&mut more);
                assert(models(ports@) =~= before + added);
                Ok(())
            },
        },
    }
}

/// The Linux scan from the texts that were read: the four `/proc/net`
/// tables (`None` for one that could not be read) and the output of
/// `netstat -tlnp` (`None` when it did not run); see `linux_scan`.
pub fn scan_ports_linux(
    tcp: Option<&str>,
    tcp6: Option<&str>,
    udp: Option<&str>,
    udp6: Option<&str>,
    netstat: Option<&str>,
) -> (r: Result<Vec<PortInfo>, ParseError>)
    ensures
        r matches Ok(v) ==> linux_scan(crate::report::opt_str_view(tcp), crate::report::opt_str_view(tcp6), crate::report::opt_str_view(udp), crate::report::opt_str_view(udp6), crate::report::opt_str_view(netstat)) == Ok::<Seq<PortModel>, ParseError>(models(v@)),
        r matches Err(e) ==> linux_scan(crate::report::opt_str_view(tcp), crate::report::opt_str_view(tcp6), crate::report::opt_str_view(udp), crate::report::opt_str_view(udp6), crate::report::opt_str_view(netstat)) == Err::<Seq<PortModel>, ParseError>(e),
{
    let mut ports: Vec<PortInfo> = Vec::new();
    assert(models(ports@) =~= Seq::<PortModel>::empty());
    add_proc_table_exec(&mut ports, tcp, "TCP")?;
    add_proc_table_exec(&mut ports, tcp6, "TCP6")?;
    add_proc_table_exec(&mut ports, udp, "UDP")?;
    add_proc_table_exec(&mut ports, udp6, "UDP6")?;
    match netstat {
        None => {},
        Some(o) => {
            let _ = parse_netstat_output(o, &mut ports);
        },
    }
    Ok(ports)
}

/// The macOS scan from the outputs of `netstat -an -p tcp` and
/// `netstat -an -p udp`: the TCP entries, then the UDP ones.
pub fn scan_ports_macos(tcp_output: &str, udp_output: &str) -> (r: Vec<PortInfo>)
    ensures
        models(r@) == macos_entries(lines(tcp_output@), "TCP"@) + macos_entries(lines(udp_output@), "UDP"@),
{
    let mut ports = match parse_macos_netstat(tcp_output, "TCP") {
        Ok(v) => v,
        Err(_) => Vec::new(),
    };
    let mut udp = match parse_macos_netstat(udp_output, "UDP") {
        Ok(v) => v,
        Err(_) => Vec::new(),
    };
    let ghost a = models(ports@);
    let ghost b = models(udp@);
    ports.append(&mut udp);
    assert(models(ports@) =~= a + b);
    ports
}

/// The `lsof -i` argument that looks up an entry's owner on macOS: for a
/// local address whose text after its last `.` is a non-zero decimal port,
/// `tcp:PORT` (when the lower-cased protocol contains `tcp`) or `udp:PORT`.
pub open spec fn lsof_query(m: PortModel) -> Option<Seq<char>> {
    match rfind_char(m.local_addr, '.') {
        None => None,
        Some(k) => {
            let port: nat = match parse_unsigned(m.local_addr.skip(k + 1int), 10, u16::MAX as nat) {
                Ok(p) => p,
                Err(_) => 0,
            };
            if port == 0 {
                None
            } else {
                let proto = if contains(crate::text::lowercase(m.protocol), "tcp"@) {
                    "tcp"@
                } else {
                    "udp"@
                };
                Some(proto + seq![':'] + crate::numeric::decimal(port))
            }
        },
    }
}

/// The `lsof -i` argument for an entry (see `lsof_query`); `None` when the
/// entry is not looked up.
pub fn lsof_query_for(info: &PortInfo) -> (r: Option<String>)
    ensures
        match r {
            Some(q) => lsof_query(info@) == Some(q@),
            None => lsof_query(info@) is None,
        },
{
    let local = chars_of(info.local_addr.as_str());
    match rfind_char_exec(local.as_slice(), '.') {
        None => None,
        Some(k) => {
            proof {
                crate::text::lemma_rfind_char(local@, '.');
            }
            let len = local.len();
            assert(k < len);
            let tail = sub_chars(local.as_slice(), k + 1, len);
            let port: u16 = match crate::numeric::parse_u16_radix(tail.as_slice(), 10) {
                Ok(p) => p,
                Err(_) => 0,
            };
            if port == 0 {
                return None;
            }
            let lower = crate::text::to_lowercase(info.protocol.as_str());
            let l = chars_of(lower.as_str());
            let tcp = chars_of("tcp");
            let mut q: Vec<char> = if contains_exec(l.as_slice(), tcp.as_slice()) {
                chars_of("tcp")
            } else {
                chars_of("udp")
            };
            q.push(':');
            crate::scanner::push_all(&mut q, crate::numeric::decimal_exec(port as u32).as_slice());
            Some(string_of(q.as_slice()))
        },
    }
}

/// An entry after the `lsof` lookup of its owner: it takes the owner that
/// the output names, if any.
pub open spec fn with_lsof_answer(m: PortModel, output: Seq<char>) -> PortModel {
    match lsof_process(output) {
        None => m,
        Some((pid, name)) => with_owner(m, Some(pid), name),
    }
}

/// Sets an entry's owner from the output of its `lsof` lookup (see
/// `with_lsof_answer`).
pub fn apply_lsof_answer(info: &mut PortInfo, lsof_output: &str)
    ensures
        final(info)@ == with_lsof_answer(old(info)@, lsof_output@),
{
    match parse_lsof_for_port(lsof_output) {
        None => {},
        Some((pid, name)) => {
            info.pid = Some(pid);
            info.process_name = Some(name);
        },
    }
}

/// The Windows scan from the output of `netstat -ano` and, when it ran,
/// of `tasklist /fo csv`: the netstat entries, named after the tasklist.
pub fn scan_ports_windows(netstat_output: &str, tasklist_output: Option<&str>) -> (r: Result<Vec<PortInfo>, ParseError>)
    ensures
        r matches Ok(v) && models(v@) == match crate::report::opt_str_view(tasklist_output) {
            None => windows_entries(lines(netstat_output@)),
            Some(t) => with_process_names(windows_entries(lines(netstat_output@)), tasklist_table(t)),
        },
{
    let mut ports = match parse_windows_netstat(netstat_output) {
        Ok(v) => v,
        Err(_) => Vec::new(),
    };
    match tasklist_output {
        None => {},
        Some(t) => {
            let names = parse_tasklist(t);
            apply_process_names(&mut ports, &names);
        },
    }
    Ok(ports)
}

} // verus!
