//! Properties that hold of the library as a whole, across its functions.

use vstd::prelude::*;
use crate::numeric::{
    IntErrorKind, decimal, hex_digits, lemma_hex_digits_chars,
    lemma_hex_digits_value, parse_unsigned, pow16,
};
use crate::port_info::PortModel;
use crate::report::{
    count_where, entry_matches, first_match, is_established_entry, is_listening_entry,
    is_tcp_entry, is_udp_entry, listing, listing_keeps,
};
use crate::scanner::{
    ParseError, address_text, dotted_quad, proc_net_entries, proc_net_table, state_text, tcp_state_name, utf8_len,
};
use crate::tables::{
    apply_lsof_lines, apply_netstat_lines,
    with_process_names,
};
use crate::text::{
    starts_with, ascii_lower, ascii_upper, ascii_upper_char, is_ws, line_scan, lines, split_on, split_scan, split_ws,
    ws_scan,
};
use vstd::utf8::is_ascii_chars;

verus! {

// ---------------------------------------------------------------------------
// Decoding /proc/net addresses
// ---------------------------------------------------------------------------

/// Appending text without the separator only extends the piece in
/// progress.
proof fn lemma_split_scan_extend(s: Seq<char>, t: Seq<char>, sep: char)
    requires
        forall|i: int| 0 <= i < t.len() ==> t[i] != sep,
    ensures
        split_scan(s + t, sep) == (split_scan(s, sep).0, split_scan(s, sep).1 + t),
    decreases t.len(),
{
    if t.len() == 0 {
        assert(s + t == s);
        assert(split_scan(s, sep).1 + t == split_scan(s, sep).1);
    } else {
        let t1 = t.drop_last();
        assert((s + t).drop_last() == s + t1);
        assert((s + t).last() == t.last());
        lemma_split_scan_extend(s, t1, sep);
        assert(split_scan(s, sep).1 + t1 + seq![t.last()] == split_scan(s, sep).1 + t);
        assert((split_scan(s, sep).1 + t1).push(t.last()) == split_scan(s, sep).1 + t);
    }
}

/// A text `a:b` where neither part holds `:` splits into `a` and `b`.
proof fn lemma_split_pair(a: Seq<char>, b: Seq<char>)
    requires
        forall|i: int| 0 <= i < a.len() ==> a[i] != ':',
        forall|i: int| 0 <= i < b.len() ==> b[i] != ':',
    ensures
        split_on(a + seq![':'] + b, ':') == seq![a, b],
{
    let e = Seq::<char>::empty();
    lemma_split_scan_extend(e, a, ':');
    assert(e + a == a);
    assert(split_scan(e, ':') == (Seq::<Seq<char>>::empty(), e));
    assert(e + a == a);
    let s1 = a + seq![':'];
    assert(s1.drop_last() == a);
    assert(split_scan(s1, ':') == (seq![a], e));
    lemma_split_scan_extend(s1, b, ':');
    assert(e + b == b);
    assert(seq![a].push(b) == seq![a, b]);
}

/// An ASCII text takes one byte per character.
proof fn lemma_utf8_len_ascii(s: Seq<char>)
    requires
        forall|i: int| 0 <= i < s.len() ==> (s[i] as u32) < 0x80,
    ensures
        utf8_len(s) == s.len(),
    decreases s.len(),
{
    if s.len() > 0 {
        lemma_utf8_len_ascii(s.drop_last());
    }
}

proof fn lemma_pow16_values()
    ensures
        pow16(4) == 65536,
        pow16(8) == 4294967296,
        pow16(32) > 65536,
{
    assert(pow16(0) == 1);
    assert(pow16(1) == 16);
    assert(pow16(2) == 256);
    assert(pow16(3) == 4096);
    assert(pow16(4) == 65536);
    assert(pow16(5) == 1048576);
    assert(pow16(6) == 16777216);
    assert(pow16(7) == 268435456);
    assert(pow16(8) == 4294967296);
    lemma_pow16_grows(8, 32);
}

proof fn lemma_pow16_grows(a: nat, b: nat)
    requires
        a <= b,
    ensures
        pow16(a) <= pow16(b),
    decreases b,
{
    if a < b {
        lemma_pow16_grows(a, (b - 1) as nat);
    }
}

/// Hexadecimal digits read back as their value, with no sign to skip.
proof fn lemma_parse_hex_digits(n: nat, width: nat, max: nat)
    requires
        width >= 2,
        n <= max,
        n < pow16(width),
    ensures
        parse_unsigned(hex_digits(n, width), 16, max) == Ok::<nat, IntErrorKind>(n),
        hex_digits(n, width).len() == width,
        forall|i: int|
            0 <= i < width ==> {
                let c = #[trigger] hex_digits(n, width)[i];
                &&& c != ':'
                &&& (c as u32) < 0x80
            },
{
    lemma_hex_digits_value(n, width, max);
    lemma_hex_digits_chars(n, width);
    let h = hex_digits(n, width);
    assert(('0' <= h[0] <= '9') || ('A' <= h[0] <= 'F'));
}

/// An IPv4 entry of `/proc/net` (eight hexadecimal digits of the address,
/// a colon, four of the port) reads as the dotted address, a colon and the
/// decimal port.
pub proof fn law_ipv4_address_decodes(addr: u32, port: u16)
    ensures
        address_text(hex_digits(addr as nat, 8) + seq![':'] + hex_digits(port as nat, 4)) == Ok::<
            Seq<char>,
            ParseError,
        >(dotted_quad(addr as nat) + seq![':'] + decimal(port as nat)),
{
    lemma_pow16_values();
    let a = hex_digits(addr as nat, 8);
    let p = hex_digits(port as nat, 4);
    lemma_parse_hex_digits(addr as nat, 8, u32::MAX as nat);
    lemma_parse_hex_digits(port as nat, 4, u16::MAX as nat);
    lemma_split_pair(a, p);
    lemma_utf8_len_ascii(a);
}

/// An IPv6 entry of `/proc/net` (thirty-two hexadecimal digits of the
/// address, a colon, four of the port) reads as the address digits in
/// brackets, a colon and the decimal port.
pub proof fn law_ipv6_address_decodes(digits: Seq<char>, port: u16)
    requires
        digits.len() == 32,
        forall|i: int|
            0 <= i < 32 ==> ('0' <= #[trigger] digits[i] <= '9') || ('A' <= digits[i] <= 'F'),
    ensures
        address_text(digits + seq![':'] + hex_digits(port as nat, 4)) == Ok::<Seq<char>, ParseError>(
            seq!['['] + digits + seq![']'] + seq![':'] + decimal(port as nat),
        ),
{
    lemma_pow16_values();
    let p = hex_digits(port as nat, 4);
    lemma_parse_hex_digits(port as nat, 4, u16::MAX as nat);
    assert forall|i: int| 0 <= i < digits.len() implies digits[i] != ':' && (digits[i] as u32)
        < 0x80 by {
        assert(('0' <= digits[i] <= '9') || ('A' <= digits[i] <= 'F'));
    }
    lemma_split_pair(digits, p);
    lemma_utf8_len_ascii(digits);
}

/// The state column reads as `UDP` for a UDP protocol and as one of the
/// TCP state names otherwise.
pub proof fn law_state_names(state_hex: Seq<char>, protocol: Seq<char>)
    ensures
        state_text(state_hex, protocol) matches Ok(s) ==> s == "UDP"@ || exists|n: nat|
            s == tcp_state_name(n),
{
    if let Ok(s) = state_text(state_hex, protocol) {
        if !crate::text::starts_with(protocol, "UDP"@) {
            let n = parse_unsigned(state_hex, 16, u8::MAX as nat)->Ok_0;
            assert(s == tcp_state_name(n));
        }
    }
}

/// Every entry read from a `/proc/net` table carries the table's protocol
/// and no owner yet.
pub proof fn law_proc_net_entries_shape(content: Seq<char>, protocol: Seq<char>)
    ensures
        proc_net_table(content, protocol) matches Ok(ms) ==> forall|i: int|
            0 <= i < ms.len() ==> (#[trigger] ms[i]).protocol == protocol && ms[i].pid is None
                && ms[i].process_name is None,
{
    let ls = lines(content);
    if ls.len() > 0 {
        lemma_proc_net_entries_shape(ls.drop_first(), protocol);
    }
}

proof fn lemma_proc_net_entries_shape(ls: Seq<Seq<char>>, protocol: Seq<char>)
    ensures
        proc_net_entries(ls, protocol) matches Ok(ms) ==> ms.len() <= ls.len() && forall|i: int|
            0 <= i < ms.len() ==> (#[trigger] ms[i]).protocol == protocol && ms[i].pid is None
                && ms[i].process_name is None,
    decreases ls.len(),
{
    if ls.len() > 0 {
        lemma_proc_net_entries_shape(ls.drop_last(), protocol);
    }
}

// ---------------------------------------------------------------------------
// Attributing sockets to processes
// ---------------------------------------------------------------------------

/// Two entries that differ at most in their owner.
pub open spec fn same_socket(a: PortModel, b: PortModel) -> bool {
    &&& a.protocol == b.protocol
    &&& a.local_addr == b.local_addr
    &&& a.remote_addr == b.remote_addr
    &&& a.state == b.state
}

/// Two listings with the same sockets in the same order.
pub open spec fn same_sockets(a: Seq<PortModel>, b: Seq<PortModel>) -> bool {
    a.len() == b.len() && forall|i: int| 0 <= i < a.len() ==> same_socket(#[trigger] a[i], b[i])
}

/// Attributing owners from `netstat` output keeps every socket: no entry
/// is added, dropped, reordered or changed but for its owner.
pub proof fn law_netstat_keeps_sockets(ms: Seq<PortModel>, ls: Seq<Seq<char>>)
    ensures
        same_sockets(apply_netstat_lines(ms, ls), ms),
    decreases ls.len(),
{
    if ls.len() > 0 {
        law_netstat_keeps_sockets(ms, ls.drop_last());
        let prev = apply_netstat_lines(ms, ls.drop_last());
        let next = apply_netstat_lines(ms, ls);
        assert forall|i: int| 0 <= i < next.len() implies same_socket(#[trigger] next[i], ms[i]) by {
            assert(same_socket(prev[i], ms[i]));
        }
    }
}

/// Attributing owners from an `lsof` listing keeps every socket.
pub proof fn law_lsof_keeps_sockets(ms: Seq<PortModel>, ls: Seq<Seq<char>>)
    ensures
        same_sockets(apply_lsof_lines(ms, ls), ms),
    decreases ls.len(),
{
    if ls.len() > 0 {
        law_lsof_keeps_sockets(ms, ls.drop_last());
        let prev = apply_lsof_lines(ms, ls.drop_last());
        let next = apply_lsof_lines(ms, ls);
        assert forall|i: int| 0 <= i < next.len() implies same_socket(#[trigger] next[i], ms[i]) by {
            assert(same_socket(prev[i], ms[i]));
        }
    }
}

/// Naming processes from `tasklist` keeps every socket and every pid.
pub proof fn law_process_names_keep_sockets(ms: Seq<PortModel>, names: Map<u32, Seq<char>>)
    ensures
        same_sockets(with_process_names(ms, names), ms),
        forall|i: int| 0 <= i < ms.len() ==> (#[trigger] with_process_names(ms, names)[i]).pid == ms[i].pid,
{
}

// ---------------------------------------------------------------------------
// Listings and counts
// ---------------------------------------------------------------------------

/// Filtering a listing twice with the same filter changes nothing more.
pub proof fn law_listing_idempotent(ms: Seq<PortModel>, protocol: Option<Seq<char>>, listening: bool)
    ensures
        listing(listing(ms, protocol, listening), protocol, listening) == listing(
            ms,
            protocol,
            listening,
        ),
{
    lemma_listing_all_kept(ms, protocol, listening);
    lemma_listing_of_kept(listing(ms, protocol, listening), protocol, listening);
}

proof fn lemma_listing_all_kept(ms: Seq<PortModel>, protocol: Option<Seq<char>>, listening: bool)
    ensures
        forall|i: int|
            0 <= i < listing(ms, protocol, listening).len() ==> listing_keeps(
                #[trigger] listing(ms, protocol, listening)[i],
                protocol,
                listening,
            ),
        listing(ms, protocol, listening).len() <= ms.len(),
    decreases ms.len(),
{
    if ms.len() > 0 {
        lemma_listing_all_kept(ms.drop_last(), protocol, listening);
    }
}

proof fn lemma_listing_of_kept(ms: Seq<PortModel>, protocol: Option<Seq<char>>, listening: bool)
    requires
        forall|i: int| 0 <= i < ms.len() ==> listing_keeps(#[trigger] ms[i], protocol, listening),
    ensures
        listing(ms, protocol, listening) == ms,
    decreases ms.len(),
{
    if ms.len() > 0 {
        lemma_listing_of_kept(ms.drop_last(), protocol, listening);
        assert(ms.drop_last().push(ms.last()) == ms);
    }
}

/// A listing of listening sockets holds only sockets in state `LISTEN` or
/// `UDP`, and never more entries than it was given.
pub proof fn law_listening_listing(ms: Seq<PortModel>, protocol: Option<Seq<char>>)
    ensures
        forall|i: int|
            0 <= i < listing(ms, protocol, true).len() ==> {
                let s = (#[trigger] listing(ms, protocol, true)[i]).state;
                s == "LISTEN"@ || s == "UDP"@
            },
        listing(ms, protocol, true).len() <= ms.len(),
{
    lemma_listing_all_kept(ms, protocol, true);
}

proof fn lemma_count_disjoint(ms: Seq<PortModel>, p: spec_fn(PortModel) -> bool, q: spec_fn(PortModel) -> bool)
    requires
        forall|m: PortModel| !(#[trigger] p(m) && q(m)),
    ensures
        count_where(ms, p) + count_where(ms, q) <= ms.len(),
    decreases ms.len(),
{
    if ms.len() > 0 {
        lemma_count_disjoint(ms.drop_last(), p, q);
    }
}

proof fn lemma_count_sub(ms: Seq<PortModel>, p: spec_fn(PortModel) -> bool, q: spec_fn(PortModel) -> bool)
    requires
        forall|m: PortModel| #[trigger] p(m) ==> q(m),
    ensures
        count_where(ms, p) <= count_where(ms, q),
    decreases ms.len(),
{
    if ms.len() > 0 {
        lemma_count_sub(ms.drop_last(), p, q);
    }
}

proof fn lemma_count_disjoint_within(
    ms: Seq<PortModel>,
    p: spec_fn(PortModel) -> bool,
    q: spec_fn(PortModel) -> bool,
    r: spec_fn(PortModel) -> bool,
)
    requires
        forall|m: PortModel| !(#[trigger] p(m) && q(m)),
        forall|m: PortModel| #[trigger] p(m) ==> r(m),
        forall|m: PortModel| #[trigger] q(m) ==> r(m),
    ensures
        count_where(ms, p) + count_where(ms, q) <= count_where(ms, r),
    decreases ms.len(),
{
    if ms.len() > 0 {
        lemma_count_disjoint_within(ms.drop_last(), p, q, r);
    }
}

/// The counts of a listing add up: TCP and UDP entries together are at
/// most all entries, and listening sockets and established connections
/// together at most the TCP entries.
pub proof fn law_stats_add_up(ms: Seq<PortModel>)
    ensures
        count_where(ms, |m: PortModel| is_tcp_entry(m)) + count_where(ms, |m: PortModel| is_udp_entry(m))
            <= ms.len(),
        count_where(ms, |m: PortModel| is_listening_entry(m)) + count_where(
            ms,
            |m: PortModel| is_established_entry(m),
        ) <= count_where(ms, |m: PortModel| is_tcp_entry(m)),
{
    reveal_strlit("LISTEN");
    reveal_strlit("ESTABLISHED");
    assert("LISTEN"@.len() != "ESTABLISHED"@.len());
    lemma_count_disjoint(ms, |m: PortModel| is_tcp_entry(m), |m: PortModel| is_udp_entry(m));
    lemma_count_disjoint_within(
        ms,
        |m: PortModel| is_listening_entry(m),
        |m: PortModel| is_established_entry(m),
        |m: PortModel| is_tcp_entry(m),
    );
}

/// The entry that a port lookup finds answers the query and is one of the
/// entries; when it finds none, no entry answers.
pub proof fn law_lookup_sound_and_complete(ms: Seq<PortModel>, port: u16, protocol: Seq<char>)
    ensures
        first_match(ms, port, protocol) matches Some(m) ==> entry_matches(m, port, protocol)
            && ms.contains(m),
        first_match(ms, port, protocol) is None ==> forall|i: int|
            0 <= i < ms.len() ==> !entry_matches(#[trigger] ms[i], port, protocol),
    decreases ms.len(),
{
    if ms.len() > 0 {
        law_lookup_sound_and_complete(ms.drop_first(), port, protocol);
        if !entry_matches(ms[0], port, protocol) {
            if let Some(m) = first_match(ms, port, protocol) {
                let k = choose|k: int| 0 <= k < ms.drop_first().len() && ms.drop_first()[k] == m;
                assert(ms[k + 1] == m);
            } else {
                assert forall|i: int| 0 <= i < ms.len() implies !entry_matches(
                    #[trigger] ms[i],
                    port,
                    protocol,
                ) by {
                    if i > 0 {
                        assert(ms[i] == ms.drop_first()[i - 1]);
                    }
                }
            }
        } else {
            assert(ms[0] == ms[0]);
        }
    }
}


// ---------------------------------------------------------------------------
// Splitting text
// ---------------------------------------------------------------------------

/// A text without whitespace.
pub open spec fn no_ws(w: Seq<char>) -> bool {
    forall|j: int| 0 <= j < w.len() ==> !is_ws(#[trigger] w[j])
}

/// Words that are non-empty and hold no whitespace.
pub open spec fn proper_words(ws: Seq<Seq<char>>) -> bool {
    forall|i: int| 0 <= i < ws.len() ==> (#[trigger] ws[i]).len() > 0 && no_ws(ws[i])
}

proof fn lemma_ws_scan_words(s: Seq<char>)
    ensures
        proper_words(ws_scan(s).0),
        no_ws(ws_scan(s).1),
    decreases s.len(),
{
    if s.len() > 0 {
        lemma_ws_scan_words(s.drop_last());
        let (done, cur) = ws_scan(s.drop_last());
        let c = s.last();
        if is_ws(c) {
            if cur.len() > 0 {
                let d2 = done.push(cur);
                assert forall|i: int| 0 <= i < d2.len() implies (#[trigger] d2[i]).len() > 0
                    && no_ws(d2[i]) by {
                    if i < done.len() {
                        assert(d2[i] == done[i]);
                    }
                }
                assert(no_ws(Seq::<char>::empty()));
            }
        } else {
            let c2 = cur.push(c);
            assert forall|j: int| 0 <= j < c2.len() implies !is_ws(#[trigger] c2[j]) by {
                if j < cur.len() {
                    assert(c2[j] == cur[j]);
                }
            }
        }
    }
}

/// The words that whitespace splitting gives are never empty and hold no
/// whitespace.
pub proof fn law_words_have_no_whitespace(s: Seq<char>)
    ensures
        proper_words(split_ws(s)),
{
    lemma_ws_scan_words(s);
    let (done, cur) = ws_scan(s);
    if cur.len() > 0 {
        let d2 = done.push(cur);
        assert forall|i: int| 0 <= i < d2.len() implies (#[trigger] d2[i]).len() > 0 && no_ws(d2[i]) by {
            if i < done.len() {
                assert(d2[i] == done[i]);
            }
        }
    }
}

/// A text without line feed.
pub open spec fn no_newline(w: Seq<char>) -> bool {
    forall|j: int| 0 <= j < w.len() ==> #[trigger] w[j] != '\n'
}

/// Lines without line feed.
pub open spec fn proper_lines(ls: Seq<Seq<char>>) -> bool {
    forall|i: int| 0 <= i < ls.len() ==> no_newline(#[trigger] ls[i])
}

proof fn lemma_line_scan_lines(s: Seq<char>)
    ensures
        proper_lines(line_scan(s).0),
        no_newline(line_scan(s).1),
    decreases s.len(),
{
    if s.len() > 0 {
        lemma_line_scan_lines(s.drop_last());
        let (done, cur) = line_scan(s.drop_last());
        let c = s.last();
        if c == '\n' {
            let l = crate::text::strip_cr(cur);
            assert forall|j: int| 0 <= j < l.len() implies #[trigger] l[j] != '\n' by {
                assert(l[j] == cur[j]);
            }
            let d2 = done.push(l);
            assert forall|i: int| 0 <= i < d2.len() implies no_newline(#[trigger] d2[i]) by {
                if i < done.len() {
                    assert(d2[i] == done[i]);
                }
            }
            assert(no_newline(Seq::<char>::empty()));
        } else {
            let c2 = cur.push(c);
            assert forall|j: int| 0 <= j < c2.len() implies #[trigger] c2[j] != '\n' by {
                if j < cur.len() {
                    assert(c2[j] == cur[j]);
                }
            }
        }
    }
}

/// The lines of a text hold no line feed.
pub proof fn law_lines_have_no_newline(s: Seq<char>)
    ensures
        proper_lines(lines(s)),
{
    lemma_line_scan_lines(s);
    let (done, cur) = line_scan(s);
    if cur.len() > 0 {
        let d2 = done.push(cur);
        assert forall|i: int| 0 <= i < d2.len() implies no_newline(#[trigger] d2[i]) by {
            if i < done.len() {
                assert(d2[i] == done[i]);
            }
        }
    }
}

/// The port part of an address holds no `:` and ends the address.
pub proof fn law_port_suffix(addr: Seq<char>)
    ensures
        crate::text::ends_with(addr, crate::tables::port_suffix(addr)),
        forall|j: int|
            0 <= j < crate::tables::port_suffix(addr).len() ==> #[trigger] crate::tables::port_suffix(
                addr,
            )[j] != ':',
{
    crate::text::lemma_rfind_char(addr, ':');
    let p = crate::tables::port_suffix(addr);
    match crate::text::rfind_char(addr, ':') {
        Some(k) => {
            assert(addr.subrange(addr.len() - p.len(), addr.len() as int) == p);
            assert forall|j: int| 0 <= j < p.len() implies #[trigger] p[j] != ':' by {
                assert(p[j] == addr[k + 1 + j]);
            }
        },
        None => {
            assert(addr.subrange(0, addr.len() as int) == addr);
        },
    }
}

/// Where `last_port_separator` points: at the last `:` or `.`.
proof fn lemma_last_port_separator(s: Seq<char>)
    ensures
        crate::report::last_port_separator(s) matches Some(k) ==> k < s.len() && (s[k as int]
            == ':' || s[k as int] == '.') && forall|j: int| k < j < s.len() ==> s[j] != ':' && s[j]
            != '.',
        crate::report::last_port_separator(s) is None ==> forall|j: int|
            0 <= j < s.len() ==> s[j] != ':' && s[j] != '.',
    decreases s.len(),
{
    if s.len() > 0 && !(s.last() == ':' || s.last() == '.') {
        lemma_last_port_separator(s.drop_last());
        assert forall|j: int| 0 <= j < s.len() - 1 implies s.drop_last()[j] == s[j] by {}
    }
}

/// The port text that a lookup compares ends the local address and holds
/// no `:` or `.`: it is the last part of the address, whole.
pub proof fn law_local_port_text(addr: Seq<char>)
    ensures
        crate::text::ends_with(addr, crate::report::local_port_text(addr)),
        forall|j: int|
            0 <= j < crate::report::local_port_text(addr).len() ==> #[trigger] crate::report::local_port_text(
                addr,
            )[j] != ':' && crate::report::local_port_text(addr)[j] != '.',
{
    lemma_last_port_separator(addr);
    let p = crate::report::local_port_text(addr);
    match crate::report::last_port_separator(addr) {
        Some(k) => {
            assert(addr.subrange(addr.len() - p.len(), addr.len() as int) == p);
            assert forall|j: int| 0 <= j < p.len() implies #[trigger] p[j] != ':' && p[j] != '.' by {
                assert(p[j] == addr[k + 1 + j]);
            }
        },
        None => {
            assert(addr.subrange(0, addr.len() as int) == addr);
        },
    }
}


// ---------------------------------------------------------------------------
// Renderings and settings
// ---------------------------------------------------------------------------

/// Every row of a listing has as many cells as the header, so a table or a
/// CSV writer always receives records of one length.
pub proof fn law_rows_match_header(ms: Seq<crate::port_info::PortModel>)
    ensures
        forall|i: int|
            0 <= i < crate::formatter::listing_rows(ms).len() ==> (
            #[trigger] crate::formatter::listing_rows(ms)[i]).len()
                == crate::formatter::header_cells().len(),
        crate::formatter::listing_rows(ms).len() == ms.len() + 1,
{
    let rows = crate::formatter::listing_rows(ms);
    assert forall|i: int| 0 <= i < rows.len() implies (#[trigger] rows[i]).len()
        == crate::formatter::header_cells().len() by {
        if i > 0 {
            assert(rows[i] == crate::formatter::entry_cells(ms[i - 1]));
        }
    }
}

/// The name of every output format selects that format again.
pub proof fn law_format_names_select_themselves(f: crate::config::OutputFormat)
    ensures
        crate::config::format_named(crate::config::format_name(f)) == Some(f),
{
    reveal_strlit("table");
    reveal_strlit("json");
    reveal_strlit("yaml");
    reveal_strlit("yml");
    reveal_strlit("csv");
    assert("yaml"@[0] != "json"@[0]);
    assert("csv"@[0] != "yml"@[0]);
    assert("table"@ != "json"@ && "table"@ != "yaml"@ && "table"@ != "yml"@ && "table"@ != "csv"@);
    assert("json"@ != "yaml"@ && "json"@ != "yml"@ && "json"@ != "csv"@);
    assert("yaml"@ != "csv"@ && "yml"@ != "csv"@);
}

/// The name that a format displays as is ASCII text and reads back, in any
/// mix of cases, as that format (see `OutputFormat::to_string` and
/// `OutputFormat::from_str`).
pub proof fn law_format_name_reads_back(f: crate::config::OutputFormat)
    ensures
        is_ascii_chars(crate::config::format_name(f)),
        crate::config::format_named(ascii_lower(crate::config::format_name(f))) == Some(f),
        crate::config::format_named(ascii_lower(ascii_upper(crate::config::format_name(f))))
            == Some(f),
{
    let name = crate::config::format_name(f);
    reveal_strlit("table");
    reveal_strlit("json");
    reveal_strlit("yaml");
    reveal_strlit("csv");
    assert(is_ascii_chars(name));
    assert(ascii_lower(name) =~= name);
    law_ascii_case_is_ignored(name);
    law_format_names_select_themselves(f);
}

/// Reading a format name ignores the case of ASCII letters: an ASCII text
/// and its upper-cased form lower-case alike, so they name the same format
/// (see `OutputFormat::from_str`).
pub proof fn law_ascii_case_is_ignored(s: Seq<char>)
    requires
        is_ascii_chars(s),
    ensures
        is_ascii_chars(ascii_upper(s)),
        ascii_lower(ascii_upper(s)) == ascii_lower(s),
        crate::config::format_named(ascii_lower(ascii_upper(s))) == crate::config::format_named(
            ascii_lower(s),
        ),
{
    let u = ascii_upper(s);
    assert forall|i: int| 0 <= i < u.len() implies '\0' <= #[trigger] u[i] <= '\u{7f}' by {
        assert(u[i] == ascii_upper_char(s[i]));
    }
    assert forall|i: int| 0 <= i < s.len() implies #[trigger] ascii_lower(u)[i] == ascii_lower(s)[i] by {
        assert(u[i] == ascii_upper_char(s[i]));
    }
    assert(ascii_lower(u) =~= ascii_lower(s));
}

// ---------------------------------------------------------------------------
// What scans, lookups, counts and rows show
// ---------------------------------------------------------------------------

/// Each `/proc/net` table of a Linux scan names its entries' protocol: the
/// `tcp`, `tcp6`, `udp` and `udp6` tables read alone give exactly their
/// entries as `TCP`, `TCP6`, `UDP` and `UDP6` sockets.
pub proof fn law_linux_tables_name_their_protocol(c: Seq<char>)
    ensures
        crate::tables::linux_scan(Some(c), None, None, None, None) == proc_net_table(c, "TCP"@),
        crate::tables::linux_scan(None, Some(c), None, None, None) == proc_net_table(c, "TCP6"@),
        crate::tables::linux_scan(None, None, Some(c), None, None) == proc_net_table(c, "UDP"@),
        crate::tables::linux_scan(None, None, None, Some(c), None) == proc_net_table(c, "UDP6"@),
{
    let names = seq!["TCP"@, "TCP6"@, "UDP"@, "UDP6"@];
    assert forall|j: int| 0 <= j < 4 implies (match #[trigger] proc_net_table(c, names[j]) {
        Ok(more) => Seq::<PortModel>::empty() + more == more,
        Err(_) => true,
    }) by {
        match proc_net_table(c, names[j]) {
            Ok(more) => {
                assert(Seq::<PortModel>::empty() + more =~= more);
            },
            Err(_) => {},
        }
    }
    assert(names[0] == "TCP"@ && names[1] == "TCP6"@ && names[2] == "UDP"@ && names[3] == "UDP6"@);
}

/// Every `netstat -tlnp` line that starts with `tcp` (`tcp6` too) or `udp`,
/// has at least seven fields and ends in `PID/NAME` with a decimal pid names
/// the owner of the port of its local address (the text after its last
/// `:`): that pid and the name after the first `/`. Other lines name no
/// owner.
pub proof fn law_netstat_lines_name_owners(line: Seq<char>, k: nat, pid: u32)
    ensures
        (starts_with(line, "tcp"@) || starts_with(line, "udp"@)) && split_ws(line).len() >= 7
            && crate::text::find(split_ws(line)[6], seq!['/']) == Some(k)
            && crate::tables::decimal_field(split_ws(line)[6].take(k as int)) == Some(pid)
            ==> crate::tables::netstat_binding(line) == Some(
            (
                crate::tables::port_suffix(split_ws(line)[3]),
                pid,
                split_ws(line)[6].skip(k + 1int),
            ),
        ),
        !starts_with(line, "tcp"@) && !starts_with(line, "udp"@)
            ==> crate::tables::netstat_binding(line) is None,
        split_ws(line).len() < 7 ==> crate::tables::netstat_binding(line) is None,
{
}

/// Each entry adds to the counts of `stats` by its protocol and state
/// alone: one to the TCP count when its lower-cased protocol starts with
/// `tcp`, and then one to the listening count when its state is exactly
/// `LISTEN`, or to the established count when it is exactly `ESTABLISHED`
/// (other states, such as `CLOSE_WAIT`, add to neither); else one to the
/// UDP count when its lower-cased protocol starts with `udp`.
pub proof fn law_stats_count_each_entry(ms: Seq<PortModel>, m: PortModel)
    ensures
        count_where(ms.push(m), |x: PortModel| is_tcp_entry(x)) == count_where(
            ms,
            |x: PortModel| is_tcp_entry(x),
        ) + if starts_with(crate::text::lowercase(m.protocol), "tcp"@) {
            1nat
        } else {
            0nat
        },
        count_where(ms.push(m), |x: PortModel| is_udp_entry(x)) == count_where(
            ms,
            |x: PortModel| is_udp_entry(x),
        ) + if !starts_with(crate::text::lowercase(m.protocol), "tcp"@) && starts_with(
            crate::text::lowercase(m.protocol),
            "udp"@,
        ) {
            1nat
        } else {
            0nat
        },
        count_where(ms.push(m), |x: PortModel| is_listening_entry(x)) == count_where(
            ms,
            |x: PortModel| is_listening_entry(x),
        ) + if starts_with(crate::text::lowercase(m.protocol), "tcp"@) && m.state == "LISTEN"@ {
            1nat
        } else {
            0nat
        },
        count_where(ms.push(m), |x: PortModel| is_established_entry(x)) == count_where(
            ms,
            |x: PortModel| is_established_entry(x),
        ) + if starts_with(crate::text::lowercase(m.protocol), "tcp"@) && m.state
            == "ESTABLISHED"@ {
            1nat
        } else {
            0nat
        },
{
    assert(ms.push(m).drop_last() == ms);
    assert(ms.push(m).last() == m);
}

/// The row of an entry shows its fields in order: protocol, local address,
/// remote address, state, pid in decimal and process name, each unknown one
/// as `-`.
pub proof fn law_rows_show_entry_fields(m: PortModel)
    ensures
        crate::formatter::entry_cells(m).len() == 6,
        crate::formatter::entry_cells(m)[0] == m.protocol,
        crate::formatter::entry_cells(m)[1] == m.local_addr,
        m.remote_addr matches Some(r) ==> crate::formatter::entry_cells(m)[2] == r,
        m.remote_addr is None ==> crate::formatter::entry_cells(m)[2] == seq!['-'],
        crate::formatter::entry_cells(m)[3] == m.state,
        m.pid matches Some(p) ==> crate::formatter::entry_cells(m)[4] == decimal(p as nat),
        m.pid is None ==> crate::formatter::entry_cells(m)[4] == seq!['-'],
        m.process_name matches Some(n) ==> crate::formatter::entry_cells(m)[5] == n,
        m.process_name is None ==> crate::formatter::entry_cells(m)[5] == seq!['-'],
{
}

/// An entry answers a port query exactly when its lower-cased protocol
/// starts with the lower-cased query protocol (so `TCP6` entries answer a
/// `tcp` query) and its local port text is the port in decimal.
pub proof fn law_lookup_matches_protocol_prefix(m: PortModel, port: u16, protocol: Seq<char>)
    ensures
        entry_matches(m, port, protocol) <==> (starts_with(
            crate::text::lowercase(m.protocol),
            crate::text::lowercase(protocol),
        ) && crate::report::local_port_text(m.local_addr) == decimal(port as nat)),
{
}

/// A lookup finds an entry whenever one of the entries has a protocol that
/// starts with the query's (both lower-cased) and is on the port.
pub proof fn law_lookup_finds_prefix_matches(ms: Seq<PortModel>, port: u16, protocol: Seq<char>, i: int)
    requires
        0 <= i < ms.len(),
        starts_with(crate::text::lowercase(ms[i].protocol), crate::text::lowercase(protocol)),
        crate::report::local_port_text(ms[i].local_addr) == decimal(port as nat),
    ensures
        first_match(ms, port, protocol) is Some,
{
    law_lookup_matches_protocol_prefix(ms[i], port, protocol);
    law_lookup_sound_and_complete(ms, port, protocol);
}

/// A Linux scan lists the `tcp`, `tcp6`, `udp` and `udp6` tables in that
/// order, each under its protocol, and then gives the sockets the owners
/// that `netstat` names; it fails with the first table that cannot be
/// read.
pub proof fn law_linux_scan_order(
    tcp: Seq<char>,
    tcp6: Seq<char>,
    udp: Seq<char>,
    udp6: Seq<char>,
    netstat: Option<Seq<char>>,
    a: Seq<PortModel>,
    b: Seq<PortModel>,
    c: Seq<PortModel>,
    d: Seq<PortModel>,
)
    requires
        proc_net_table(tcp, "TCP"@) == Ok::<Seq<PortModel>, ParseError>(a),
        proc_net_table(tcp6, "TCP6"@) == Ok::<Seq<PortModel>, ParseError>(b),
        proc_net_table(udp, "UDP"@) == Ok::<Seq<PortModel>, ParseError>(c),
        proc_net_table(udp6, "UDP6"@) == Ok::<Seq<PortModel>, ParseError>(d),
    ensures
        crate::tables::linux_scan(Some(tcp), Some(tcp6), Some(udp), Some(udp6), netstat) == Ok::<
            Seq<PortModel>,
            ParseError,
        >(
            match netstat {
                None => a + b + c + d,
                Some(o) => apply_netstat_lines(a + b + c + d, lines(o)),
            },
        ),
{
    assert(Seq::<PortModel>::empty() + a =~= a);
}

/// A Linux scan fails with the error of its `tcp` table when that table
/// cannot be read, whatever the others hold.
pub proof fn law_linux_scan_fails_on_tcp_table(
    tcp: Seq<char>,
    tcp6: Option<Seq<char>>,
    udp: Option<Seq<char>>,
    udp6: Option<Seq<char>>,
    netstat: Option<Seq<char>>,
    e: ParseError,
)
    requires
        proc_net_table(tcp, "TCP"@) == Err::<Seq<PortModel>, ParseError>(e),
    ensures
        crate::tables::linux_scan(Some(tcp), tcp6, udp, udp6, netstat) == Err::<
            Seq<PortModel>,
            ParseError,
        >(e),
{
}

/// A macOS `netstat` line that starts (after trimming) with `tcp` or `udp`
/// and has at least six fields (five for UDP, which has no state column)
/// gives an entry of the scanned protocol on its fourth field, with its
/// sixth field as state (`UDP` for UDP) and no known process.
pub proof fn law_macos_lines_give_entries(line: Seq<char>, protocol: Seq<char>)
    ensures
        ({
            let t = crate::text::trim_ws(line);
            let f = split_ws(t);
            (starts_with(t, "tcp"@) || starts_with(t, "udp"@)) && (f.len() >= 6 || (protocol
                == "UDP"@ && f.len() >= 5)) ==> (crate::tables::macos_entry(line, protocol) matches Some(m)
                && m.protocol == protocol && m.local_addr == f[3] && m.state == (if protocol
                == "UDP"@ {
                "UDP"@
            } else {
                f[5]
            }) && m.pid is None && m.process_name is None)
        }),
        ({
            let t = crate::text::trim_ws(line);
            !starts_with(t, "tcp"@) && !starts_with(t, "udp"@) ==> crate::tables::macos_entry(
                line,
                protocol,
            ) is None
        }),
{
}

/// A Windows `netstat` line that starts (after trimming) with `TCP` or
/// `UDP` and has at least four fields gives an entry with its first field
/// as protocol and its second as local address; a `UDP` line has state
/// `UDP` and its fourth field as pid, another has its fourth field as state
/// and its fifth as pid.
pub proof fn law_windows_lines_give_entries(line: Seq<char>)
    ensures
        ({
            let t = crate::text::trim_ws(line);
            let f = split_ws(t);
            (starts_with(t, "TCP"@) || starts_with(t, "UDP"@)) && f.len() >= 4
                ==> (crate::tables::windows_entry(line) matches Some(m) && m.protocol == f[0]
                && m.local_addr == f[1] && (f[0] == "UDP"@ ==> m.state == "UDP"@ && m.pid
                == crate::tables::decimal_field(f[3])) && (f[0] != "UDP"@ ==> m.state == f[3] && (
            f.len() >= 5 ==> m.pid == crate::tables::decimal_field(f[4]))) && m.process_name is None)
        }),
        ({
            let t = crate::text::trim_ws(line);
            !starts_with(t, "TCP"@) && !starts_with(t, "UDP"@) ==> crate::tables::windows_entry(
                line,
            ) is None
        }),
{
}

/// The state column of `/proc/net` names each TCP state number (written
/// as two hexadecimal digits) as the kernel does, `UNKNOWN` for a number
/// outside the table; a UDP table's state is `UDP`.
pub proof fn law_tcp_state_numbers(n: u8, protocol: Seq<char>)
    ensures
        starts_with(protocol, "UDP"@) ==> state_text(hex_digits(n as nat, 2), protocol) == Ok::<
            Seq<char>,
            ParseError,
        >("UDP"@),
        !starts_with(protocol, "UDP"@) ==> state_text(hex_digits(n as nat, 2), protocol) == Ok::<
            Seq<char>,
            ParseError,
        >(
            if n == 0x01 {
                "ESTABLISHED"@
            } else if n == 0x02 {
                "SYN_SENT"@
            } else if n == 0x03 {
                "SYN_RECV"@
            } else if n == 0x04 {
                "FIN_WAIT1"@
            } else if n == 0x05 {
                "FIN_WAIT2"@
            } else if n == 0x06 {
                "TIME_WAIT"@
            } else if n == 0x07 {
                "CLOSE"@
            } else if n == 0x08 {
                "CLOSE_WAIT"@
            } else if n == 0x09 {
                "LAST_ACK"@
            } else if n == 0x0A {
                "LISTEN"@
            } else if n == 0x0B {
                "CLOSING"@
            } else {
                "UNKNOWN"@
            },
        ),
{
    assert(pow16(0) == 1);
    assert(pow16(1) == 16);
    assert(pow16(2) == 256);
    lemma_parse_hex_digits(n as nat, 2, u8::MAX as nat);
}

/// A `/proc/net` line with at least ten fields gives the entry read from
/// its columns: the table's protocol, the decoded local address, the
/// decoded remote address (none when it is all zeros), the state, and no
/// owner yet. A shorter line gives nothing.
pub proof fn law_proc_net_lines_give_entries(
    line: Seq<char>,
    protocol: Seq<char>,
    local: Seq<char>,
    remote: Option<Seq<char>>,
    state: Seq<char>,
)
    ensures
        split_ws(line).len() < 10 ==> crate::scanner::proc_net_entry(line, protocol) == Ok::<
            Option<PortModel>,
            ParseError,
        >(None),
        ({
            let f = split_ws(line);
            f.len() >= 10 && address_text(f[1]) == Ok::<Seq<char>, ParseError>(local) && match remote {
                None => f[2] == "00000000:0000"@ || f[2] == "00000000000000000000000000000000:0000"@,
                Some(r) => f[2] != "00000000:0000"@ && f[2] != "00000000000000000000000000000000:0000"@
                    && address_text(f[2]) == Ok::<Seq<char>, ParseError>(r),
            } && state_text(f[3], protocol) == Ok::<Seq<char>, ParseError>(state)
                ==> crate::scanner::proc_net_entry(line, protocol) == Ok::<Option<PortModel>, ParseError>(
                Some(
                    PortModel {
                        protocol: protocol,
                        local_addr: local,
                        remote_addr: remote,
                        state: state,
                        pid: None,
                        process_name: None,
                    },
                ),
            )
        }),
{
}

/// Each `netstat -tlnp` line that names an owner gives it to exactly the
/// entries on its port (the text after the last `:` of the local address
/// equals the line's port); every other entry stays as it was.
pub proof fn law_netstat_owner_goes_to_port(ms: Seq<PortModel>, line: Seq<char>, i: int)
    requires
        0 <= i < ms.len(),
    ensures
        crate::tables::apply_netstat_line(ms, line).len() == ms.len(),
        crate::tables::netstat_binding(line) is None ==> crate::tables::apply_netstat_line(ms, line)[i]
            == ms[i],
        crate::tables::netstat_binding(line) matches Some((port, pid, name)) ==> (
        crate::tables::apply_netstat_line(ms, line)[i] == if crate::tables::port_suffix(
            ms[i].local_addr,
        ) == port {
            PortModel { pid: Some(pid), process_name: Some(name), ..ms[i] }
        } else {
            ms[i]
        }),
{
}

/// An `lsof` listing line (not the `COMMAND` header) with at least nine
/// fields names the port of its ninth field (before any `->`, after the
/// last `:`), its second field as pid when decimal, and its first as the
/// command; every entry whose local address ends with `:PORT` takes that
/// owner, every other entry stays.
pub proof fn law_lsof_owner_goes_to_port(ms: Seq<PortModel>, line: Seq<char>, i: int, c: nat)
    requires
        0 <= i < ms.len(),
    ensures
        starts_with(line, "COMMAND"@) || split_ws(line).len() < 9 ==> crate::tables::lsof_binding(
            line,
        ) is None,
        ({
            let f = split_ws(line);
            let local = match crate::text::find(f[8], "->"@) {
                Some(a) => f[8].take(a as int),
                None => f[8],
            };
            !starts_with(line, "COMMAND"@) && f.len() >= 9 && crate::text::rfind_char(local, ':')
                == Some(c) ==> crate::tables::lsof_binding(line) == Some(
                (local.skip(c + 1int), crate::tables::decimal_field(f[1]), f[0]),
            )
        }),
        crate::tables::lsof_binding(line) matches Some((port, pid, name)) ==> (
        crate::tables::apply_lsof_line(ms, line)[i] == if crate::text::ends_with(
            ms[i].local_addr,
            seq![':'] + port,
        ) {
            PortModel { pid: pid, process_name: Some(name), ..ms[i] }
        } else {
            ms[i]
        }),
{
}

/// A listing keeps each entry, in order, exactly when its lower-cased
/// protocol starts with the lower-cased filter (when one is given) and,
/// when only listening sockets are asked for, its state is `LISTEN` or
/// `UDP`.
pub proof fn law_listing_keeps_by_filter(
    ms: Seq<PortModel>,
    m: PortModel,
    protocol: Option<Seq<char>>,
    listening: bool,
)
    ensures
        listing(ms.push(m), protocol, listening) == if (match protocol {
            None => true,
            Some(p) => starts_with(crate::text::lowercase(m.protocol), crate::text::lowercase(p)),
        }) && (!listening || m.state == "LISTEN"@ || m.state == "UDP"@) {
            listing(ms, protocol, listening).push(m)
        } else {
            listing(ms, protocol, listening)
        },
{
    assert(ms.push(m).drop_last() == ms);
    assert(ms.push(m).last() == m);
}

/// Attaching process names gives each entry with a pid the name listed for
/// that pid, or none when no name is listed; an entry without a pid and
/// everything but the name stay as they were.
pub proof fn law_process_names_by_pid(ms: Seq<PortModel>, names: Map<u32, Seq<char>>, i: int)
    requires
        0 <= i < ms.len(),
    ensures
        with_process_names(ms, names).len() == ms.len(),
        ms[i].pid is None ==> with_process_names(ms, names)[i] == ms[i],
        ms[i].pid matches Some(pid) ==> (with_process_names(ms, names)[i] == (PortModel {
            process_name: if names.dom().contains(pid) {
                Some(names[pid])
            } else {
                None
            },
            ..ms[i]
        })),
{
}

/// A `tasklist /fo csv` line names a process by its first two
/// comma-separated fields: the name and a decimal pid, each without its
/// surrounding quotes.
pub proof fn law_tasklist_lines_name_processes(line: Seq<char>, pid: u32)
    ensures
        split_on(line, ',').len() >= 2 && crate::tables::decimal_field(
            crate::text::trim_char(split_on(line, ',')[1], '"'),
        ) == Some(pid) ==> crate::tables::tasklist_entry(line) == Some(
            (pid, crate::text::trim_char(split_on(line, ',')[0], '"')),
        ),
        split_on(line, ',').len() < 2 ==> crate::tables::tasklist_entry(line) is None,
{
}

/// The `lsof -i` argument for an entry on a non-zero port (the decimal
/// text after the last `.` of its local address) is `tcp:PORT` when its
/// lower-cased protocol contains `tcp`, else `udp:PORT`; an entry whose
/// address has no `.` is not looked up.
pub proof fn law_lsof_query_names_protocol_and_port(m: PortModel, k: nat, port: nat)
    ensures
        crate::text::rfind_char(m.local_addr, '.') is None ==> crate::tables::lsof_query(m) is None,
        crate::text::rfind_char(m.local_addr, '.') == Some(k) && parse_unsigned(
            m.local_addr.skip(k + 1int),
            10,
            u16::MAX as nat,
        ) == Ok::<nat, IntErrorKind>(port) && port != 0 ==> crate::tables::lsof_query(m) == Some(
            (if crate::text::contains(crate::text::lowercase(m.protocol), "tcp"@) {
                "tcp"@
            } else {
                "udp"@
            }) + seq![':'] + decimal(port),
        ),
{
}

} // verus!
