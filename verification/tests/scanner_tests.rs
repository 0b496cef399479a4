use port_checker::numeric::IntErrorKind;
use port_checker::port_info::PortInfo;
use port_checker::scanner::{parse_address, parse_connection_state, parse_proc_net, ParseError};
use port_checker::tables::{
    apply_lsof_answer, apply_process_names, extract_port_from_addr, lsof_query_for,
    parse_lsof_for_port, parse_lsof_output, parse_macos_netstat, parse_netstat_output,
    parse_tasklist, parse_windows_netstat, scan_ports_linux, scan_ports_macos, scan_ports_windows,
};

fn entry(protocol: &str, local: &str, state: &str) -> PortInfo {
    PortInfo {
        protocol: protocol.to_string(),
        local_addr: local.to_string(),
        remote_addr: None,
        state: state.to_string(),
        pid: None,
        process_name: None,
    }
}

#[test]
fn address_ipv4_loopback() {
    assert_eq!(parse_address("0100007F:1F90").unwrap(), "127.0.0.1:8080");
}

#[test]
fn address_ipv4_any() {
    assert_eq!(parse_address("00000000:0016").unwrap(), "0.0.0.0:22");
}

#[test]
fn address_ipv4_byte_order() {
    // 0xC0A80102 read little-endian: 2.1.168.192
    assert_eq!(parse_address("C0A80102:01BB").unwrap(), "2.1.168.192:443");
}

#[test]
fn address_ipv6_is_bracketed() {
    assert_eq!(
        parse_address("00000000000000000000000001000000:0035").unwrap(),
        "[00000000000000000000000001000000]:53"
    );
}

#[test]
fn address_other_length_is_kept() {
    assert_eq!(parse_address("abc:0050").unwrap(), "abc:80");
}

#[test]
fn address_without_colon_is_refused() {
    assert_eq!(parse_address("0100007F"), Err(ParseError::InvalidAddressFormat));
}

#[test]
fn address_with_two_colons_is_refused() {
    assert_eq!(parse_address("a:b:c"), Err(ParseError::InvalidAddressFormat));
}

#[test]
fn address_bad_hex_digit() {
    assert_eq!(
        parse_address("0100007G:1F90"),
        Err(ParseError::InvalidNumber(IntErrorKind::InvalidDigit))
    );
}

#[test]
fn address_empty_port() {
    assert_eq!(
        parse_address("0100007F:"),
        Err(ParseError::InvalidNumber(IntErrorKind::Empty))
    );
}

#[test]
fn address_port_too_large() {
    assert_eq!(
        parse_address("0100007F:10000"),
        Err(ParseError::InvalidNumber(IntErrorKind::PosOverflow))
    );
}

#[test]
fn address_length_counts_bytes() {
    // Seven characters but eight bytes: read as an IPv4 number, which fails.
    assert_eq!(
        parse_address("010000\u{e9}:0050"),
        Err(ParseError::InvalidNumber(IntErrorKind::InvalidDigit))
    );
}

#[test]
fn state_listen() {
    assert_eq!(parse_connection_state("0A", "TCP").unwrap(), "LISTEN");
}

#[test]
fn state_established_tcp6() {
    assert_eq!(parse_connection_state("01", "TCP6").unwrap(), "ESTABLISHED");
}

#[test]
fn state_all_names() {
    let names = [
        "ESTABLISHED",
        "SYN_SENT",
        "SYN_RECV",
        "FIN_WAIT1",
        "FIN_WAIT2",
        "TIME_WAIT",
        "CLOSE",
        "CLOSE_WAIT",
        "LAST_ACK",
        "LISTEN",
        "CLOSING",
    ];
    for (i, name) in names.iter().enumerate() {
        let hex = format!("{:02X}", i + 1);
        assert_eq!(parse_connection_state(&hex, "TCP").unwrap(), *name);
    }
    assert_eq!(parse_connection_state("00", "TCP").unwrap(), "UNKNOWN");
    assert_eq!(parse_connection_state("FF", "TCP").unwrap(), "UNKNOWN");
}

#[test]
fn state_udp_ignores_column() {
    assert_eq!(parse_connection_state("07", "UDP").unwrap(), "UDP");
    assert_eq!(parse_connection_state("zz", "UDP6").unwrap(), "UDP");
}

#[test]
fn state_errors() {
    assert_eq!(
        parse_connection_state("ZZ", "TCP"),
        Err(ParseError::InvalidNumber(IntErrorKind::InvalidDigit))
    );
    assert_eq!(
        parse_connection_state("", "TCP"),
        Err(ParseError::InvalidNumber(IntErrorKind::Empty))
    );
    assert_eq!(
        parse_connection_state("100", "TCP"),
        Err(ParseError::InvalidNumber(IntErrorKind::PosOverflow))
    );
    assert_eq!(
        parse_connection_state("+", "TCP"),
        Err(ParseError::InvalidNumber(IntErrorKind::InvalidDigit))
    );
    assert_eq!(parse_connection_state("+0a", "TCP").unwrap(), "LISTEN");
}

const PROC_TCP: &str = "  sl  local_address rem_address   st tx_queue rx_queue tr tm->when retrnsmt   uid  timeout inode\n   0: 0100007F:1F90 00000000:0000 0A 00000000:00000000 00:00000000 00000000  1000        0 12345 1 0000000000000000 100 0 0 10 0\n   1: 0100007F:1F90 0100007F:D2F4 01 00000000:00000000 00:00000000 00000000  1000        0 12346 1 0000000000000000 20 4 30 10 -1\n   2: short line\n";

#[test]
fn proc_net_tcp_table() {
    let ports = parse_proc_net(PROC_TCP, "TCP").unwrap();
    assert_eq!(ports.len(), 2);
    assert_eq!(ports[0].protocol, "TCP");
    assert_eq!(ports[0].local_addr, "127.0.0.1:8080");
    assert_eq!(ports[0].remote_addr, None);
    assert_eq!(ports[0].state, "LISTEN");
    assert_eq!(ports[0].pid, None);
    assert_eq!(ports[1].remote_addr.as_deref(), Some("127.0.0.1:54004"));
    assert_eq!(ports[1].state, "ESTABLISHED");
}

#[test]
fn proc_net_empty_and_header_only() {
    assert_eq!(parse_proc_net("", "TCP").unwrap().len(), 0);
    assert_eq!(parse_proc_net("header only\n", "UDP").unwrap().len(), 0);
}

#[test]
fn proc_net_udp_table() {
    let content = "header\n 0: 00000000:0044 00000000:0000 07 0 0 0 0 0 0 777\n";
    let ports = parse_proc_net(content, "UDP").unwrap();
    assert_eq!(ports.len(), 1);
    assert_eq!(ports[0].local_addr, "0.0.0.0:68");
    assert_eq!(ports[0].state, "UDP");
}

#[test]
fn proc_net_ipv6_unset_remote() {
    let content = "header\n 0: 00000000000000000000000000000000:1F90 00000000000000000000000000000000:0000 0A 0 0 0 0 0 0 1\n";
    let ports = parse_proc_net(content, "TCP6").unwrap();
    assert_eq!(ports.len(), 1);
    assert_eq!(
        ports[0].local_addr,
        "[00000000000000000000000000000000]:8080"
    );
    assert_eq!(ports[0].remote_addr, None);
}

#[test]
fn proc_net_error_stops_the_table() {
    let content = "header\n 0: 0100007F:1F90 00000000:0000 0A 0 0 0 0 0 0 1\n 1: nocolon 00000000:0000 0A 0 0 0 0 0 0 1\n";
    assert_eq!(
        parse_proc_net(content, "TCP").unwrap_err(),
        ParseError::InvalidAddressFormat
    );
}

#[test]
fn port_suffix_of_addresses() {
    assert_eq!(extract_port_from_addr("0.0.0.0:22"), "22");
    assert_eq!(extract_port_from_addr(":::8080"), "8080");
    assert_eq!(extract_port_from_addr("nocolon"), "nocolon");
    assert_eq!(extract_port_from_addr("end:"), "");
}

const NETSTAT_LINUX: &str = "Active Internet connections (only servers)\nProto Recv-Q Send-Q Local Address           Foreign Address         State       PID/Program name\ntcp        0      0 127.0.0.1:8080          0.0.0.0:*               LISTEN      4321/python3\ntcp6       0      0 :::22                   :::*                    LISTEN      -\n";

#[test]
fn linux_netstat_attributes_owner() {
    let mut ports = vec![entry("TCP", "127.0.0.1:8080", "LISTEN"), entry("TCP", "0.0.0.0:22", "LISTEN")];
    parse_netstat_output(NETSTAT_LINUX, &mut ports).unwrap();
    assert_eq!(ports[0].pid, Some(4321));
    assert_eq!(ports[0].process_name.as_deref(), Some("python3"));
    assert_eq!(ports[1].pid, None);
    assert_eq!(ports.len(), 2);
    assert_eq!(ports[1].local_addr, "0.0.0.0:22");
}

#[test]
fn linux_netstat_matches_the_exact_port() {
    let mut ports = vec![
        entry("TCP", "127.0.0.1:8080", "LISTEN"),
        entry("TCP", "0.0.0.0:80", "LISTEN"),
        entry("TCP", "0.0.0.0:2222", "LISTEN"),
        entry("TCP", "0.0.0.0:8022", "LISTEN"),
    ];
    let out = "tcp 0 0 0.0.0.0:80 0.0.0.0:* LISTEN 99/nginx\ntcp 0 0 0.0.0.0:22 0.0.0.0:* LISTEN 7/sshd\n";
    parse_netstat_output(out, &mut ports).unwrap();
    assert_eq!(ports[0].pid, None);
    assert_eq!(ports[1].pid, Some(99));
    assert_eq!(ports[1].process_name.as_deref(), Some("nginx"));
    assert_eq!(ports[2].pid, None);
    assert_eq!(ports[3].pid, None);
}

#[test]
fn linux_scan_assembles_tables() {
    let udp = "header\n 0: 00000000:0044 00000000:0000 07 0 0 0 0 0 0 777\n";
    let ports = scan_ports_linux(Some(PROC_TCP), None, Some(udp), None, Some(NETSTAT_LINUX)).unwrap();
    assert_eq!(ports.len(), 3);
    assert_eq!(ports[0].pid, Some(4321));
    assert_eq!(ports[1].pid, Some(4321));
    assert_eq!(ports[2].protocol, "UDP");
    assert_eq!(ports[2].pid, None);
}

#[test]
fn linux_scan_propagates_errors() {
    let bad = "header\n 0: zz 00000000:0000 0A 0 0 0 0 0 0 1\n";
    assert_eq!(
        scan_ports_linux(None, Some(bad), None, None, None).unwrap_err(),
        ParseError::InvalidAddressFormat
    );
}

const NETSTAT_MAC_TCP: &str = "Active Internet connections (including servers)\nProto Recv-Q Send-Q  Local Address          Foreign Address        (state)\ntcp4       0      0  127.0.0.1.8080         *.*                    LISTEN\ntcp4       0      0  192.168.1.2.50000      17.57.144.10.443       ESTABLISHED\ntcp6  0 0 short\n";

#[test]
fn macos_netstat_tcp() {
    let ports = parse_macos_netstat(NETSTAT_MAC_TCP, "TCP").unwrap();
    assert_eq!(ports.len(), 2);
    assert_eq!(ports[0].local_addr, "127.0.0.1.8080");
    assert_eq!(ports[0].remote_addr, None);
    assert_eq!(ports[0].state, "LISTEN");
    assert_eq!(ports[1].remote_addr.as_deref(), Some("17.57.144.10.443"));
    assert_eq!(ports[1].state, "ESTABLISHED");
}

#[test]
fn macos_netstat_udp() {
    let out = "udp4       0      0  *.5353                 *.*                    x\nudp4 0 0 0.0.0.0.68 0.0.0.0.0 y\n";
    let ports = parse_macos_netstat(out, "UDP").unwrap();
    assert_eq!(ports.len(), 2);
    assert_eq!(ports[0].state, "UDP");
    assert_eq!(ports[1].remote_addr, None);
    let both = scan_ports_macos(NETSTAT_MAC_TCP, out);
    assert_eq!(both.len(), 4);
    assert_eq!(both[2].protocol, "UDP");
}

#[test]
fn macos_netstat_udp_without_state_column() {
    let ports = parse_macos_netstat("udp4  0  0  *.5353  *.*\n", "UDP").unwrap();
    assert_eq!(ports.len(), 1);
    assert_eq!(ports[0].protocol, "UDP");
    assert_eq!(ports[0].local_addr, "*.5353");
    assert_eq!(ports[0].remote_addr, None);
    assert_eq!(ports[0].state, "UDP");
    assert_eq!(ports[0].pid, None);
    assert_eq!(ports[0].process_name, None);
    assert!(parse_macos_netstat("tcp4  0  0  *.80  *.*\n", "TCP").unwrap().is_empty());
}

#[test]
fn lsof_owner_of_port() {
    let out = "COMMAND   PID USER   FD   TYPE DEVICE SIZE/OFF NODE NAME\nnode    12345 user   21u  IPv4 0x1      0t0  TCP 127.0.0.1:8080 (LISTEN)\n";
    assert_eq!(parse_lsof_for_port(out), Some((12345, "node".to_string())));
    assert_eq!(parse_lsof_for_port("COMMAND PID\n"), None);
    assert_eq!(parse_lsof_for_port(""), None);
    assert_eq!(parse_lsof_for_port("header\nx notapid\ny 7\n"), Some((7, "y".to_string())));
}

#[test]
fn lsof_query_and_answer() {
    let mut info = entry("TCP", "127.0.0.1.8080", "LISTEN");
    assert_eq!(lsof_query_for(&info).as_deref(), Some("tcp:8080"));
    let udp = entry("UDP", "*.5353", "UDP");
    assert_eq!(lsof_query_for(&udp).as_deref(), Some("udp:5353"));
    assert_eq!(lsof_query_for(&entry("TCP", "*.*", "LISTEN")), None);
    assert_eq!(lsof_query_for(&entry("TCP", "nodot", "LISTEN")), None);
    assert_eq!(lsof_query_for(&entry("TCP", "host.0", "LISTEN")), None);
    apply_lsof_answer(&mut info, "COMMAND PID\nnode 42 u\n");
    assert_eq!(info.pid, Some(42));
    assert_eq!(info.process_name.as_deref(), Some("node"));
    apply_lsof_answer(&mut info, "COMMAND PID\n");
    assert_eq!(info.pid, Some(42));
}

#[test]
fn lsof_listing_attributes_owners() {
    let mut ports = vec![
        entry("TCP", "127.0.0.1:8080", "LISTEN"),
        entry("TCP", "127.0.0.1:9090", "LISTEN"),
    ];
    let out = "COMMAND PID USER FD TYPE DEVICE SIZE NODE NAME\nnode 100 u 1 IPv4 x 0 TCP 127.0.0.1:8080->127.0.0.1:5000\nsrv notpid u 1 IPv4 x 0 TCP *:9090\n";
    parse_lsof_output(out, &mut ports).unwrap();
    assert_eq!(ports[0].pid, Some(100));
    assert_eq!(ports[0].process_name.as_deref(), Some("node"));
    assert_eq!(ports[1].pid, None);
    assert_eq!(ports[1].process_name.as_deref(), Some("srv"));
}

const NETSTAT_WIN: &str = "\r\nActive Connections\r\n\r\n  Proto  Local Address          Foreign Address        State           PID\r\n  TCP    0.0.0.0:135            0.0.0.0:0              LISTENING       912\r\n  TCP    10.0.0.5:49712         52.1.1.1:443           ESTABLISHED     4410\r\n  UDP    0.0.0.0:5353           *:*                                    2044\r\n";

const TASKLIST: &str = "\"Image Name\",\"PID\",\"Session Name\",\"Session#\",\"Mem Usage\"\r\n\"svchost.exe\",\"912\",\"Services\",\"0\",\"10,000 K\"\r\n\"chrome.exe\",\"4410\",\"Console\",\"1\",\"200,000 K\"\r\n";

#[test]
fn windows_netstat_entries() {
    let ports = parse_windows_netstat(NETSTAT_WIN).unwrap();
    assert_eq!(ports.len(), 3);
    assert_eq!(ports[0].protocol, "TCP");
    assert_eq!(ports[0].remote_addr, None);
    assert_eq!(ports[0].state, "LISTENING");
    assert_eq!(ports[0].pid, Some(912));
    assert_eq!(ports[1].remote_addr.as_deref(), Some("52.1.1.1:443"));
    assert_eq!(ports[2].state, "UDP");
    assert_eq!(ports[2].pid, Some(2044));
}

#[test]
fn tasklist_names_processes() {
    let names = parse_tasklist(TASKLIST);
    assert_eq!(names.len(), 2);
    assert_eq!(names.get(&912).map(|s| s.as_str()), Some("svchost.exe"));
    assert_eq!(names.get(&4410).map(|s| s.as_str()), Some("chrome.exe"));
    let mut ports = parse_windows_netstat(NETSTAT_WIN).unwrap();
    apply_process_names(&mut ports, &names);
    assert_eq!(ports[0].process_name.as_deref(), Some("svchost.exe"));
    assert_eq!(ports[2].process_name, None);
}

#[test]
fn windows_scan() {
    let ports = scan_ports_windows(NETSTAT_WIN, Some(TASKLIST)).unwrap();
    assert_eq!(ports[1].process_name.as_deref(), Some("chrome.exe"));
    let unnamed = scan_ports_windows(NETSTAT_WIN, None).unwrap();
    assert_eq!(unnamed[1].process_name, None);
}
