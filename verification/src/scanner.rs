//! Parsers for the socket tables that the system reports (`/proc/net/*`,
//! `netstat`, `lsof`, `tasklist`), and the lookup of one port in them.

use vstd::prelude::*;
use crate::numeric::{
    IntErrorKind, decimal, decimal_exec, parse_u16_radix, parse_u32_radix, parse_u8_radix,
    parse_unsigned,
};
use crate::port_info::{PortInfo, PortModel, models};
use crate::text::{
    views, lines_exec, split_ws_exec, chars_eq, chars_of, lines, split_on, split_on_exec,
    split_ws, starts_with, starts_with_exec, string_of, sub_chars,
};

verus! {

broadcast use vstd::string::group_string_axioms;

/// Why a socket table could not be read.
#[derive(Debug, Clone, Copy, PartialEq, Eq, Structural)]
pub enum ParseError {
    /// An address is not of the form `HEX:HEX`.
    InvalidAddressFormat,
    /// A number in the table is not a number of its type.
    InvalidNumber(IntErrorKind),
}

// ---------------------------------------------------------------------------
// Small helpers
// ---------------------------------------------------------------------------

/// Whether the characters of `v` are those of `lit`.
pub fn eq_lit(v: &[char], lit: &str) -> (r: bool)
    ensures
        r == (v@ == lit@),
{
    let l = chars_of(lit);
    chars_eq(v, l.as_slice())
}

/// Whether two texts have the same characters.
pub fn same_text(s: &str, lit: &str) -> (r: bool)
    ensures
        r == (s@ == lit@),
{
    let a = chars_of(s);
    eq_lit(a.as_slice(), lit)
}

/// Whether `v` begins with the characters of `lit`.
pub fn starts_lit(v: &[char], lit: &str) -> (r: bool)
    ensures
        r == starts_with(v@, lit@),
{
    let l = chars_of(lit);
    starts_with_exec(v, l.as_slice())
}

/// Appends the characters of `s` to `v`.
pub fn push_all(v: &mut Vec<char>, s: &[char])
    ensures
        final(v)@ == old(v)@ + s@,
{
    let ghost start = v@;
    for i in 0..s.len()
        invariant
            v@ == start + s@.take(i as int),
    {
        v.push(s[i]);
        assert(s@.take(i + 1) == s@.take(i as int).push(s@[i as int]));
    }
    assert(s@.take(s@.len() as int) == s@);
}

/// The number of bytes that `c` takes in UTF-8.
pub open spec fn char_utf8_len(c: char) -> nat {
    if (c as u32) < 0x80 {
        1
    } else if (c as u32) < 0x800 {
        2
    } else if (c as u32) < 0x10000 {
        3
    } else {
        4
    }
}

/// The number of bytes that `s` takes in UTF-8 (what `str::len` returns).
pub open spec fn utf8_len(s: Seq<char>) -> nat
    decreases s.len(),
{
    if s.len() == 0 {
        0
    } else {
        utf8_len(s.drop_last()) + char_utf8_len(s.last())
    }
}

proof fn lemma_utf8_len_prefix(s: Seq<char>, i: int)
    requires
        0 <= i <= s.len(),
    ensures
        utf8_len(s.take(i)) <= utf8_len(s),
    decreases s.len(),
{
    if i == s.len() {
        assert(s.take(i) == s);
    } else {
        assert(s.take(i) == s.drop_last().take(i));
        lemma_utf8_len_prefix(s.drop_last(), i);
    }
}

/// The UTF-8 length of `s` when it is at most 32; some number above 32
/// otherwise.
fn utf8_len_upto_32(s: &[char]) -> (r: usize)
    ensures
        r <= 32 ==> r == utf8_len(s@),
        r > 32 ==> utf8_len(s@) > 32,
{
    let mut acc: usize = 0;
    for i in 0..s.len()
        invariant
            acc == utf8_len(s@.take(i as int)),
            acc <= 32,
    {
        assert(s@.take(i + 1).drop_last() == s@.take(i as int));
        let c = s[i];
        let k: usize = if (c as u32) < 0x80 {
            1
        } else if (c as u32) < 0x800 {
            2
        } else if (c as u32) < 0x10000 {
            3
        } else {
            4
        };
        acc = acc + k;
        if acc > 32 {
            proof {
                lemma_utf8_len_prefix(s@, i + 1);
            }
            return acc;
        }
    }
    assert(s@.take(s@.len() as int) == s@);
    acc
}

// ---------------------------------------------------------------------------
// Addresses and states of /proc/net
// ---------------------------------------------------------------------------

/// The dotted IPv4 notation of the number that `/proc/net` prints in
/// little-endian hexadecimal: the lowest byte comes first.
pub open spec fn dotted_quad(n: nat) -> Seq<char> {
    decimal(n % 256) + seq!['.'] + decimal((n / 256) % 256) + seq!['.'] + decimal(
        (n / 65536) % 256,
    ) + seq!['.'] + decimal((n / 16777216) % 256)
}

/// What an address field of `/proc/net` reads as: `HEXADDR:HEXPORT`
/// becomes `ADDR:PORT` with the port in decimal; an 8-byte address is an
/// IPv4 address, a 32-byte one is shown in brackets, any other is kept.
pub open spec fn address_text(a: Seq<char>) -> Result<Seq<char>, ParseError> {
    let parts = split_on(a, ':');
    if parts.len() != 2 {
        Err(ParseError::InvalidAddressFormat)
    } else {
        let addr_hex = parts[0];
        let port_hex = parts[1];
        let addr: Result<Seq<char>, ParseError> = if utf8_len(addr_hex) == 8 {
            match parse_unsigned(addr_hex, 16, u32::MAX as nat) {
                Ok(n) => Ok(dotted_quad(n)),
                Err(e) => Err(ParseError::InvalidNumber(e)),
            }
        } else if utf8_len(addr_hex) == 32 {
            Ok(seq!['['] + addr_hex + seq![']'])
        } else {
            Ok(addr_hex)
        };
        match addr {
            Err(e) => Err(e),
            Ok(addr) => match parse_unsigned(port_hex, 16, u16::MAX as nat) {
                Err(e) => Err(ParseError::InvalidNumber(e)),
                Ok(p) => Ok(addr + seq![':'] + decimal(p)),
            },
        }
    }
}

fn dotted_quad_exec(n: u32) -> (v: Vec<char>)
    ensures
        v@ == dotted_quad(n as nat),
{
    let mut v = decimal_exec(n % 256);
    v.push('.');
    push_all(&mut v, decimal_exec((n / 256) % 256).as_slice());
    v.push('.');
    push_all(&mut v, decimal_exec((n / 65536) % 256).as_slice());
    v.push('.');
    push_all(&mut v, decimal_exec((n / 16777216) % 256).as_slice());
    v
}

/// Reads an address field of `/proc/net` (see `address_text`).
pub fn parse_address(addr_str: &str) -> (r: Result<String, ParseError>)
    ensures
        r matches Ok(s) ==> address_text(addr_str@) == Ok::<Seq<char>, ParseError>(s@),
        r matches Err(e) ==> address_text(addr_str@) == Err::<Seq<char>, ParseError>(e),
{
    let chars = chars_of(addr_str);
    parse_address_chars(chars.as_slice())
}

fn parse_address_chars(a: &[char]) -> (r: Result<String, ParseError>)
    ensures
        r matches Ok(s) ==> address_text(a@) == Ok::<Seq<char>, ParseError>(s@),
        r matches Err(e) ==> address_text(a@) == Err::<Seq<char>, ParseError>(e),
{
    let parts = split_on_exec(a, ':');
    if parts.len() != 2 {
        return Err(ParseError::InvalidAddressFormat);
    }
    let addr_hex = parts[0].as_slice();
    let port_hex = parts[1].as_slice();
    assert(addr_hex@ == split_on(a@, ':')[0]);
    assert(port_hex@ == split_on(a@, ':')[1]);
    let blen = utf8_len_upto_32(addr_hex);
    let ghost addr_spec: Result<Seq<char>, ParseError> = if utf8_len(addr_hex@) == 8 {
        match parse_unsigned(addr_hex@, 16, u32::MAX as nat) {
            Ok(n) => Ok(dotted_quad(n)),
            Err(e) => Err(ParseError::InvalidNumber(e)),
        }
    } else if utf8_len(addr_hex@) == 32 {
        Ok(seq!['['] + addr_hex@ + seq![']'])
    } else {
        Ok(addr_hex@)
    };
    let mut out: Vec<char> = if blen == 8 {
        match parse_u32_radix(addr_hex, 16) {
            Ok(n) => dotted_quad_exec(n),
            Err(e) => {
                return Err(ParseError::InvalidNumber(e));
            },
        }
    } else if blen == 32 {
        let mut v: Vec<char> = Vec::new();
        v.push('[');
        push_all(&mut v, addr_hex);
        v.push(']');
        assert(v@ =~= seq!['['] + addr_hex@ + seq![']']);
        v
    } else {
        let v = sub_chars(addr_hex, 0, addr_hex.len());
        assert(addr_hex@.subrange(0, addr_hex@.len() as int) == addr_hex@);
        v
    };
    assert(addr_spec == Ok::<Seq<char>, ParseError>(out@));
    match parse_u16_radix(port_hex, 16) {
        Err(e) => Err(ParseError::InvalidNumber(e)),
        Ok(p) => {
            let ghost before = out@;
            out.push(':');
            push_all(&mut out, decimal_exec(p as u32).as_slice());
            assert(out@ =~= before + seq![':'] + decimal(p as nat));
            Ok(string_of(out.as_slice()))
        },
    }
}

/// The name of a TCP state number of `/proc/net/tcp`.
pub open spec fn tcp_state_name(n: nat) -> Seq<char> {
    if n == 1 {
        "ESTABLISHED"@
    } else if n == 2 {
        "SYN_SENT"@
    } else if n == 3 {
        "SYN_RECV"@
    } else if n == 4 {
        "FIN_WAIT1"@
    } else if n == 5 {
        "FIN_WAIT2"@
    } else if n == 6 {
        "TIME_WAIT"@
    } else if n == 7 {
        "CLOSE"@
    } else if n == 8 {
        "CLOSE_WAIT"@
    } else if n == 9 {
        "LAST_ACK"@
    } else if n == 10 {
        "LISTEN"@
    } else if n == 11 {
        "CLOSING"@
    } else {
        "UNKNOWN"@
    }
}

/// The state column of `/proc/net`: `"UDP"` for a protocol that starts with
/// `UDP`, else the name of the hexadecimal TCP state number.
pub open spec fn state_text(state_hex: Seq<char>, protocol: Seq<char>) -> Result<
    Seq<char>,
    ParseError,
> {
    if starts_with(protocol, "UDP"@) {
        Ok("UDP"@)
    } else {
        match parse_unsigned(state_hex, 16, u8::MAX as nat) {
            Err(e) => Err(ParseError::InvalidNumber(e)),
            Ok(n) => Ok(tcp_state_name(n)),
        }
    }
}

/// Reads the state column of `/proc/net` (see `state_text`).
pub fn parse_connection_state(state_hex: &str, protocol: &str) -> (r: Result<String, ParseError>)
    ensures
        r matches Ok(s) ==> state_text(state_hex@, protocol@) == Ok::<Seq<char>, ParseError>(s@),
        r matches Err(e) ==> state_text(state_hex@, protocol@) == Err::<Seq<char>, ParseError>(e),
{
    let s = chars_of(state_hex);
    let p = chars_of(protocol);
    parse_state_chars(s.as_slice(), p.as_slice())
}

fn parse_state_chars(state_hex: &[char], protocol: &[char]) -> (r: Result<String, ParseError>)
    ensures
        r matches Ok(s) ==> state_text(state_hex@, protocol@) == Ok::<Seq<char>, ParseError>(s@),
        r matches Err(e) ==> state_text(state_hex@, protocol@) == Err::<Seq<char>, ParseError>(e),
{
    if starts_lit(protocol, "UDP") {
        return Ok("UDP".to_owned());
    }
    match parse_u8_radix(state_hex, 16) {
        Err(e) => Err(ParseError::InvalidNumber(e)),
        Ok(n) => {
            let name = if n == 1 {
                "ESTABLISHED"
            } else if n == 2 {
                "SYN_SENT"
            } else if n == 3 {
                "SYN_RECV"
            } else if n == 4 {
                "FIN_WAIT1"
            } else if n == 5 {
                "FIN_WAIT2"
            } else if n == 6 {
                "TIME_WAIT"
            } else if n == 7 {
                "CLOSE"
            } else if n == 8 {
                "CLOSE_WAIT"
            } else if n == 9 {
                "LAST_ACK"
            } else if n == 10 {
                "LISTEN"
            } else if n == 11 {
                "CLOSING"
            } else {
                "UNKNOWN"
            };
            Ok(name.to_owned())
        },
    }
}


// ---------------------------------------------------------------------------
// /proc/net tables
// ---------------------------------------------------------------------------

/// The model of an optional entry.
pub open spec fn opt_model(o: Option<PortInfo>) -> Option<PortModel> {
    match o {
        Some(p) => Some(p@),
        None => None,
    }
}

/// The two ways `/proc/net` writes a remote address that is not set.
pub open spec fn is_unset_remote(f: Seq<char>) -> bool {
    f == "00000000:0000"@ || f == "00000000000000000000000000000000:0000"@
}

/// What one line of a `/proc/net` table gives: nothing for a line with
/// fewer than ten fields, else the entry read from its local address,
/// remote address and state columns (the first failure wins, in that order).
pub open spec fn proc_net_entry(line: Seq<char>, protocol: Seq<char>) -> Result<
    Option<PortModel>,
    ParseError,
> {
    let f = split_ws(line);
    if f.len() < 10 {
        Ok(None)
    } else {
        match address_text(f[1]) {
            Err(e) => Err(e),
            Ok(local) => {
                let remote: Result<Option<Seq<char>>, ParseError> = if is_unset_remote(f[2]) {
                    Ok(None)
                } else {
                    match address_text(f[2]) {
                        Err(e) => Err(e),
                        Ok(r) => Ok(Some(r)),
                    }
                };
                match remote {
                    Err(e) => Err(e),
                    Ok(remote) => match state_text(f[3], protocol) {
                        Err(e) => Err(e),
                        Ok(state) => Ok(
                            Some(
                                PortModel {
                                    protocol: protocol,
                                    local_addr: local,
                                    remote_addr: remote,
                                    state: state,
                                    pid: None,
                                    process_name: None,
                                },
                            ),
                        ),
                    },
                }
            },
        }
    }
}

/// The entries of a run of `/proc/net` lines, in order; the first failing
/// line decides the error.
pub open spec fn proc_net_entries(ls: Seq<Seq<char>>, protocol: Seq<char>) -> Result<
    Seq<PortModel>,
    ParseError,
>
    decreases ls.len(),
{
    if ls.len() == 0 {
        Ok(Seq::empty())
    } else {
        match proc_net_entries(ls.drop_last(), protocol) {
            Err(e) => Err(e),
            Ok(acc) => match proc_net_entry(ls.last(), protocol) {
                Err(e) => Err(e),
                Ok(None) => Ok(acc),
                Ok(Some(m)) => Ok(acc.push(m)),
            },
        }
    }
}

/// What a whole `/proc/net` table gives: its lines after the header.
pub open spec fn proc_net_table(content: Seq<char>, protocol: Seq<char>) -> Result<
    Seq<PortModel>,
    ParseError,
> {
    let ls = lines(content);
    if ls.len() == 0 {
        Ok(Seq::empty())
    } else {
        proc_net_entries(ls.drop_first(), protocol)
    }
}

proof fn lemma_proc_net_error_extends(ls: Seq<Seq<char>>, k: int, protocol: Seq<char>)
    requires
        0 <= k <= ls.len(),
        proc_net_entries(ls.take(k), protocol) is Err,
    ensures
        proc_net_entries(ls, protocol) == proc_net_entries(ls.take(k), protocol),
    decreases ls.len() - k,
{
    if k < ls.len() {
        assert(ls.take(k + 1).drop_last() == ls.take(k));
        lemma_proc_net_error_extends(ls, k + 1, protocol);
    } else {
        assert(ls.take(k) == ls);
    }
}

fn proc_net_entry_exec(line: &[char], protocol: &str) -> (r: Result<Option<PortInfo>, ParseError>)
    ensures
        r matches Ok(o) ==> proc_net_entry(line@, protocol@) == Ok::<Option<PortModel>, ParseError>(
            opt_model(o),
        ),
        r matches Err(e) ==> proc_net_entry(line@, protocol@) == Err::<Option<PortModel>, ParseError>(
            e,
        ),
{
    let f = split_ws_exec(line);
    if f.len() < 10 {
        return Ok(None);
    }
    assert(f@[1]@ == split_ws(line@)[1]);
    assert(f@[2]@ == split_ws(line@)[2]);
    assert(f@[3]@ == split_ws(line@)[3]);
    let local = match parse_address_chars(f[1].as_slice()) {
        Ok(s) => s,
        Err(e) => {
            return Err(e);
        },
    };
    let remote = if eq_lit(f[2].as_slice(), "00000000:0000") || eq_lit(
        f[2].as_slice(),
        "00000000000000000000000000000000:0000",
    ) {
        None
    } else {
        match parse_address_chars(f[2].as_slice()) {
            Ok(s) => Some(s),
            Err(e) => {
                return Err(e);
            },
        }
    };
    let p = chars_of(protocol);
    let state = match parse_state_chars(f[3].as_slice(), p.as_slice()) {
        Ok(s) => s,
        Err(e) => {
            return Err(e);
        },
    };
    Ok(
        Some(
            PortInfo {
                protocol: protocol.to_owned(),
                local_addr: local,
                remote_addr: remote,
                state: state,
                pid: None,
                process_name: None,
            },
        ),
    )
}

/// Reads a `/proc/net/{tcp,tcp6,udp,udp6}` table: each line after the
/// header with at least ten fields becomes an entry of `protocol` (see
/// `proc_net_table`).
pub fn parse_proc_net(content: &str, protocol: &str) -> (r: Result<Vec<PortInfo>, ParseError>)
    ensures
        r matches Ok(v) ==> proc_net_table(content@, protocol@) == Ok::<Seq<PortModel>, ParseError>(
            models(v@),
        ),
        r matches Err(e) ==> proc_net_table(content@, protocol@) == Err::<Seq<PortModel>, ParseError>(
            e,
        ),
{
    let chars = chars_of(content);
    let ls = lines_exec(chars.as_slice());
    let mut ports: Vec<PortInfo> = Vec::new();
    let n = ls.len();
    if n == 0 {
        assert(models(ports@) =~= Seq::<PortModel>::empty());
        return Ok(ports);
    }
    let ghost body = views(ls@).drop_first();
    assert(body.take(0) =~= Seq::<Seq<char>>::empty());
    assert(models(ports@) =~= Seq::<PortModel>::empty());
    for i in 1..n
        invariant
            n == ls@.len(),
            views(ls@) == lines(content@),
            body == views(ls@).drop_first(),
            proc_net_entries(body.take(i - 1), protocol@) == Ok::<Seq<PortModel>, ParseError>(
                models(ports@),
            ),
    {
        assert(body.take(i as int).drop_last() == body.take(i - 1));
        assert(body.take(i as int).last() == ls@[i as int]@);
        match proc_net_entry_exec(ls[i].as_slice(), protocol) {
            Err(e) => {
                proof {
                    lemma_proc_net_error_extends(body, i as int, protocol@);
                }
                return Err(e);
            },
            Ok(None) => {},
            Ok(Some(entry)) => {
                let ghost prev = ports@;
                let ghost m = entry@;
                ports.push(entry);
                assert(models(ports@) =~= models(prev).push(m));
            },
        }
    }
    assert(body.take(n - 1) == body);
    Ok(ports)
}

} // verus!
