use port_checker::config::{
    choose_config_path, config_search_paths, default_config_path, expand_path, Config,
    ConfigError, OutputFormat, PortRange,
};
use port_checker::formatter::{
    format_csv, format_port_list, format_ports, format_single_port, format_table, table_row,
    Rendering,
};
use port_checker::numeric::{decimal_exec, parse_u16_radix, parse_u32_radix, parse_u8_radix, IntErrorKind};
use port_checker::port_info::PortInfo;
use port_checker::report::{
    answer_is_yes, check_protocols, compute_stats, entry_matches_lowered, filter_ports,
    kill_after_answer, kill_first_step, local_port_text_exec, reservation_protocol, scan_specific_port, KillStep,
    ReserveProtocol,
};
use port_checker::text::{chars_of, lines_exec, split_on_exec, split_ws_exec, string_of, trim_ws_exec};

fn info(protocol: &str, local: &str, state: &str, pid: Option<u32>, name: Option<&str>) -> PortInfo {
    PortInfo {
        protocol: protocol.to_string(),
        local_addr: local.to_string(),
        remote_addr: None,
        state: state.to_string(),
        pid,
        process_name: name.map(|s| s.to_string()),
    }
}

fn sample() -> Vec<PortInfo> {
    vec![
        info("TCP", "0.0.0.0:22", "LISTEN", Some(1234), Some("sshd")),
        info("TCP", "127.0.0.1:5432", "ESTABLISHED", None, None),
        info("TCP6", "[::]:8080", "LISTEN", None, None),
        info("UDP", "0.0.0.0:53", "UDP", None, None),
        info("UDP6", "[::]:5353", "UDP", None, None),
        info("TCP", "0.0.0.0:443", "TIME_WAIT", None, None),
    ]
}

fn texts(v: &[Vec<char>]) -> Vec<String> {
    v.iter().map(|c| string_of(c)).collect()
}

#[test]
fn lookup_finds_port_in_use() {
    let found = scan_specific_port(sample(), 22, "tcp").unwrap();
    assert_eq!(found.local_addr, "0.0.0.0:22");
    assert_eq!(found.pid, Some(1234));
}

#[test]
fn lookup_free_port_is_none() {
    assert!(scan_specific_port(sample(), 8081, "tcp").is_none());
    assert!(scan_specific_port(Vec::new(), 22, "tcp").is_none());
}

#[test]
fn lookup_respects_protocol_prefix() {
    let found = scan_specific_port(sample(), 53, "udp").unwrap();
    assert_eq!(found.protocol, "UDP");
    assert!(scan_specific_port(sample(), 53, "tcp").is_none());
    let v6 = scan_specific_port(sample(), 8080, "TCP6").unwrap();
    assert_eq!(v6.local_addr, "[::]:8080");
}

#[test]
fn lookup_first_match_wins() {
    let ports = vec![
        info("TCP", "0.0.0.0:80", "LISTEN", Some(1), None),
        info("TCP", "10.0.0.1:80", "LISTEN", Some(2), None),
    ];
    assert_eq!(scan_specific_port(ports, 80, "tcp").unwrap().pid, Some(1));
}

#[test]
fn lookup_matches_the_whole_port() {
    let ports = vec![info("TCP", "0.0.0.0:18080", "LISTEN", None, None)];
    assert!(scan_specific_port(ports, 8080, "tcp").is_none());
    let wider = || vec![info("TCP", "0.0.0.0:8080", "LISTEN", Some(4321), Some("java"))];
    assert!(scan_specific_port(wider(), 80, "tcp").is_none());
    assert_eq!(scan_specific_port(wider(), 8080, "tcp").unwrap().pid, Some(4321));
    let longer = vec![info("TCP", "0.0.0.0:1800", "LISTEN", None, None)];
    assert!(scan_specific_port(longer, 800, "tcp").is_none());
    let mac = vec![info("TCP", "127.0.0.1.3000", "LISTEN", None, None)];
    assert!(scan_specific_port(mac, 3000, "tcp").is_some());
    let mac_any = vec![info("UDP", "*.5353", "UDP", None, None)];
    assert!(scan_specific_port(mac_any, 5353, "udp").is_some());
}

#[test]
fn local_port_text_is_last_part() {
    let text = |a: &str| string_of(&local_port_text_exec(&chars_of(a)));
    assert_eq!(text("0.0.0.0:8080"), "8080");
    assert_eq!(text("[::]:22"), "22");
    assert_eq!(text("127.0.0.1.3000"), "3000");
    assert_eq!(text("*.5353"), "5353");
    assert_eq!(text("localhost"), "localhost");
    assert_eq!(text("0.0.0.0:"), "");
}

#[test]
fn lowered_match_decision() {
    assert!(entry_matches_lowered("tcp6", "tcp", "[::]:22", 22));
    assert!(!entry_matches_lowered("udp", "tcp", "0.0.0.0:22", 22));
    assert!(!entry_matches_lowered("tcp", "tcp", "0.0.0.0:23", 22));
    assert!(!entry_matches_lowered("tcp", "tcp", "0.0.0.0:8080", 80));
    assert!(!entry_matches_lowered("tcp", "tcp", "0.0.0.0:1800", 800));
    assert!(entry_matches_lowered("tcp", "tcp", "*.5353", 5353));
}

#[test]
fn listing_filters_protocol() {
    let mut ports = sample();
    filter_ports(&mut ports, Some("udp"), false);
    assert_eq!(ports.len(), 2);
    assert!(ports.iter().all(|p| p.protocol.starts_with("UDP")));
}

#[test]
fn listing_filters_listening() {
    let mut ports = sample();
    filter_ports(&mut ports, None, true);
    let states: Vec<&str> = ports.iter().map(|p| p.state.as_str()).collect();
    assert_eq!(states, vec!["LISTEN", "LISTEN", "UDP", "UDP"]);
}

#[test]
fn listing_filters_both_and_is_idempotent() {
    let mut ports = sample();
    filter_ports(&mut ports, Some("TCP"), true);
    assert_eq!(ports.len(), 2);
    let before: Vec<String> = ports.iter().map(|p| p.local_addr.clone()).collect();
    filter_ports(&mut ports, Some("TCP"), true);
    let after: Vec<String> = ports.iter().map(|p| p.local_addr.clone()).collect();
    assert_eq!(before, after);
}

#[test]
fn stats_count_kinds() {
    let stats = compute_stats(&sample());
    assert_eq!(stats.total, 6);
    assert_eq!(stats.tcp, 4);
    assert_eq!(stats.udp, 2);
    assert_eq!(stats.listening, 2);
    assert_eq!(stats.established, 1);
    assert!(stats.tcp + stats.udp <= stats.total);
    assert!(stats.listening + stats.established <= stats.tcp);
}

#[test]
fn stats_of_nothing() {
    let stats = compute_stats(&[]);
    assert_eq!((stats.total, stats.tcp, stats.udp, stats.listening, stats.established), (0, 0, 0, 0, 0));
}

#[test]
fn check_default_protocols() {
    assert_eq!(check_protocols(None), vec!["tcp".to_string(), "udp".to_string()]);
    assert_eq!(check_protocols(Some("udp".to_string())), vec!["udp".to_string()]);
}

#[test]
fn confirmation_answers() {
    assert!(answer_is_yes("y\n"));
    assert!(answer_is_yes("  YES \r\n"));
    assert!(!answer_is_yes("n\n"));
    assert!(!answer_is_yes("\n"));
}

#[test]
fn reservation_protocols() {
    assert_eq!(reservation_protocol("tcp"), Some(ReserveProtocol::Tcp));
    assert_eq!(reservation_protocol("TCP"), Some(ReserveProtocol::Tcp));
    assert_eq!(reservation_protocol("udp"), Some(ReserveProtocol::Udp));
    assert_eq!(reservation_protocol("Udp"), Some(ReserveProtocol::Udp));
    assert_eq!(reservation_protocol("tcp6"), None);
    assert_eq!(reservation_protocol(""), None);
}

#[test]
fn kill_steps() {
    let owned = Some(info("TCP", "0.0.0.0:22", "LISTEN", Some(1234), Some("sshd")));
    let unowned = Some(info("TCP", "0.0.0.0:22", "LISTEN", None, None));
    assert_eq!(kill_first_step(&None, false), KillStep::ReportFree);
    assert_eq!(kill_first_step(&None, true), KillStep::ReportFree);
    assert_eq!(kill_first_step(&unowned, true), KillStep::ReportNoProcess);
    assert_eq!(kill_first_step(&owned, true), KillStep::Kill(1234));
    assert_eq!(kill_first_step(&owned, false), KillStep::Confirm(1234));
    assert_eq!(kill_after_answer(1234, "y\n"), KillStep::Kill(1234));
    assert_eq!(kill_after_answer(1234, " Yes "), KillStep::Kill(1234));
    assert_eq!(kill_after_answer(1234, "n\n"), KillStep::Cancel);
    assert_eq!(kill_after_answer(1234, ""), KillStep::Cancel);
}

#[test]
fn single_port_lines() {
    assert_eq!(format_single_port(8080, "FREE", None), "Port 8080: FREE");
    assert_eq!(
        format_single_port(22, "IN USE", Some("sshd")),
        "Port 22: IN USE (sshd)"
    );
}

#[test]
fn port_list_texts() {
    assert_eq!(format_port_list(&[]), "No ports");
    assert_eq!(format_port_list(&[80]), "Port 80");
    assert_eq!(format_port_list(&[80, 443, 8080]), "Ports: 80, 443, 8080");
}

#[test]
fn row_cells() {
    let ports = sample();
    assert_eq!(
        table_row(&ports[0]),
        vec!["TCP", "0.0.0.0:22", "-", "LISTEN", "1234", "sshd"]
    );
    assert_eq!(
        table_row(&ports[1]),
        vec!["TCP", "127.0.0.1:5432", "-", "ESTABLISHED", "-", "-"]
    );
}

#[test]
fn table_rendering() {
    assert_eq!(format_table(&[]), "No ports found.");
    let ports = vec![info("TCP", "0.0.0.0:22", "LISTEN", Some(1234), Some("sshd"))];
    let expected = "+----------+---------------+----------------+--------+------+---------+\n\
| Protocol | Local Address | Remote Address | State  | PID  | Process |\n\
+----------+---------------+----------------+--------+------+---------+\n\
| TCP      | 0.0.0.0:22    | -              | LISTEN | 1234 | sshd    |\n\
+----------+---------------+----------------+--------+------+---------+";
    assert_eq!(format_table(&ports), expected);
}

#[test]
fn csv_rendering() {
    let ports = vec![
        info("TCP", "0.0.0.0:22", "LISTEN", Some(1234), Some("sshd")),
        info("UDP", "0.0.0.0:53", "UDP", None, Some("dns, server")),
    ];
    assert_eq!(
        format_csv(&ports).unwrap(),
        "Protocol,Local Address,Remote Address,State,PID,Process\nTCP,0.0.0.0:22,-,LISTEN,1234,sshd\nUDP,0.0.0.0:53,-,UDP,-,\"dns, server\"\n"
    );
    assert_eq!(
        format_csv(&[]).unwrap(),
        "Protocol,Local Address,Remote Address,State,PID,Process\n"
    );
}

#[test]
fn csv_quotes_and_non_ascii_text() {
    let ports = vec![info("TCP", "[::1]:80", "LISTEN", Some(7), Some("say \"héllo\""))];
    assert_eq!(
        format_csv(&ports).unwrap(),
        "Protocol,Local Address,Remote Address,State,PID,Process\nTCP,[::1]:80,-,LISTEN,7,\"say \"\"héllo\"\"\"\n"
    );
}

#[test]
fn rendering_choice() {
    let ports = sample();
    match format_ports(&ports, &OutputFormat::Csv).unwrap() {
        Rendering::Text(s) => assert!(s.starts_with("Protocol,")),
        _ => panic!("csv is rendered here"),
    }
    match format_ports(&[], &OutputFormat::Table).unwrap() {
        Rendering::Text(s) => assert_eq!(s, "No ports found."),
        _ => panic!("tables are rendered here"),
    }
    assert!(matches!(format_ports(&ports, &OutputFormat::Json).unwrap(), Rendering::Json));
    assert!(matches!(format_ports(&ports, &OutputFormat::Yaml).unwrap(), Rendering::Yaml));
}

#[test]
fn default_settings() {
    let c = Config::default();
    assert_eq!(c.default_format, OutputFormat::Table);
    assert_eq!(c.scan_timeout, 30);
    assert_eq!(c.concurrent_threads, 4);
    assert!(!c.verbose);
    assert!(c.show_process_info);
    assert_eq!(c.port_range, PortRange { start: 8000, end: 9000 });
    assert_eq!(c.default_reserve_duration, 3600);
}

#[test]
fn format_names_roundtrip() {
    for f in [OutputFormat::Table, OutputFormat::Json, OutputFormat::Yaml, OutputFormat::Csv] {
        assert_eq!(OutputFormat::from_str(&f.to_string()), Ok(f));
    }
    assert_eq!(OutputFormat::Yaml.to_string(), "yaml");
}

#[test]
fn format_names_parse() {
    assert_eq!(OutputFormat::from_str("JSON"), Ok(OutputFormat::Json));
    assert_eq!(OutputFormat::from_str("TaBlE"), Ok(OutputFormat::Table));
    assert_eq!(OutputFormat::from_str("YML"), Ok(OutputFormat::Yaml));
    assert_eq!(OutputFormat::from_str("yml"), Ok(OutputFormat::Yaml));
    assert_eq!(OutputFormat::from_str("Csv"), Ok(OutputFormat::Csv));
    assert_eq!(
        OutputFormat::from_str("xml"),
        Err(ConfigError::InvalidOutputFormat("xml".to_string()))
    );
}

#[test]
fn settings_paths() {
    assert_eq!(
        config_search_paths(),
        vec![
            "./port-checker.toml".to_string(),
            "~/.config/port-checker/config.toml".to_string(),
            "~/.port-checker.toml".to_string()
        ]
    );
    assert_eq!(default_config_path(), "~/.config/port-checker/config.toml");
    assert_eq!(choose_config_path(&[false, true, true]), Some(1));
    assert_eq!(choose_config_path(&[false, false, false]), None);
    assert_eq!(choose_config_path(&[]), None);
}

#[test]
fn home_expansion() {
    assert_eq!(
        expand_path("~/.port-checker.toml", Some("/home/me")),
        "/home/me/.port-checker.toml"
    );
    assert_eq!(expand_path("~/x", Some("/root/")), "/root/x");
    assert_eq!(expand_path("~//abs", Some("/home/me")), "/abs");
    assert_eq!(expand_path("~/x", None), "~/x");
    assert_eq!(expand_path("./local.toml", Some("/home/me")), "./local.toml");
    assert_eq!(expand_path("~/", Some("/home/me")), "/home/me/");
}

#[test]
fn radix_parsing() {
    assert_eq!(parse_u32_radix(&chars_of("0100007F"), 16), Ok(0x0100007F));
    assert_eq!(parse_u32_radix(&chars_of("FFFFFFFF"), 16), Ok(u32::MAX));
    assert_eq!(parse_u32_radix(&chars_of("100000000"), 16), Err(IntErrorKind::PosOverflow));
    assert_eq!(parse_u32_radix(&chars_of("-1"), 10), Err(IntErrorKind::InvalidDigit));
    assert_eq!(parse_u32_radix(&chars_of("+7"), 10), Ok(7));
    assert_eq!(parse_u32_radix(&chars_of(""), 10), Err(IntErrorKind::Empty));
    assert_eq!(parse_u16_radix(&chars_of("ffff"), 16), Ok(65535));
    assert_eq!(parse_u8_radix(&chars_of("0a"), 16), Ok(10));
    assert_eq!(parse_u8_radix(&chars_of("256"), 10), Err(IntErrorKind::PosOverflow));
}

#[test]
fn decimal_roundtrip() {
    for n in [0u32, 7, 10, 65535, 4294967295] {
        let text = string_of(&decimal_exec(n));
        assert_eq!(text, n.to_string());
        assert_eq!(parse_u32_radix(&chars_of(&text), 10), Ok(n));
    }
}

#[test]
fn line_splitting() {
    let ls = lines_exec(&chars_of("a\r\nb\n\r\nc\r"));
    assert_eq!(texts(&ls), vec!["a", "b", "", "c\r"]);
    assert_eq!(lines_exec(&chars_of("")).len(), 0);
    assert_eq!(texts(&lines_exec(&chars_of("x\n"))), vec!["x"]);
}

#[test]
fn word_splitting() {
    let ws = split_ws_exec(&chars_of("  tcp\t0 \u{a0}x  "));
    assert_eq!(texts(&ws), vec!["tcp", "0", "x"]);
    let parts = split_on_exec(&chars_of("a::b"), ':');
    assert_eq!(texts(&parts), vec!["a", "", "b"]);
    assert_eq!(string_of(&trim_ws_exec(&chars_of("\t hi \n"))), "hi");
}
