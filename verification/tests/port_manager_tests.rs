use std::time::Duration;

use port_checker::port_manager::{
    parse_command, port_text, CommandError, MockPort, MockPortError, PortAllocator,
    MAX_ATTEMPTS,
};

/// Allocates a port as the command does, with every bind succeeding.
fn allocate(allocator: &mut PortAllocator) -> Option<u16> {
    let mut attempts: u32 = 0;
    let port = allocator.next_candidate(&mut attempts)?;
    allocator.record_bind(port, true, &mut attempts);
    Some(port)
}

#[test]
fn test_port_allocator() {
    let mut allocator = PortAllocator::new(8000, 9000);
    let guard1 = allocate(&mut allocator).unwrap();
    let guard2 = allocate(&mut allocator).unwrap();

    assert_ne!(guard1, guard2);
    assert!(guard1 >= 8000 && guard1 <= 9000);
    assert!(guard2 >= 8000 && guard2 <= 9000);
}

#[test]
fn allocator_exhausts_a_single_port_range() {
    let mut allocator = PortAllocator::new(7000, 7000);
    assert_eq!(allocate(&mut allocator), Some(7000));
    let mut attempts: u32 = 0;
    assert_eq!(allocator.next_candidate(&mut attempts), None);
    assert_eq!(attempts, MAX_ATTEMPTS);
}

#[test]
fn allocator_release_makes_port_available() {
    let mut allocator = PortAllocator::new(7000, 7000);
    assert_eq!(allocate(&mut allocator), Some(7000));
    allocator.release_port(7000);
    assert_eq!(allocate(&mut allocator), Some(7000));
}

#[test]
fn allocator_failed_bind_counts_an_attempt() {
    let mut allocator = PortAllocator::new(7000, 7001);
    let mut attempts: u32 = 5;
    allocator.record_bind(7000, false, &mut attempts);
    assert_eq!(attempts, 6);
    let p = allocator.next_candidate(&mut attempts).unwrap();
    assert!(p == 7000 || p == 7001);
    let mut spent: u32 = MAX_ATTEMPTS;
    assert_eq!(allocator.next_candidate(&mut spent), None);
    assert_eq!(spent, MAX_ATTEMPTS);
}

#[test]
fn random_ports_stay_in_range() {
    let allocator = PortAllocator::new(10, 12);
    for _ in 0..50 {
        let mut attempts: u32 = 0;
        let p = allocator.next_candidate(&mut attempts).unwrap();
        assert!((10..=12).contains(&p));
        assert_eq!(attempts, 0);
    }
}

#[test]
fn command_lines() {
    let c = parse_command("python3 -m http.server").unwrap();
    assert_eq!(c.program, "python3");
    assert_eq!(c.args, vec!["-m".to_string(), "http.server".to_string()]);
    let single = parse_command("  node  ").unwrap();
    assert_eq!(single.program, "node");
    assert!(single.args.is_empty());
    assert_eq!(parse_command("   ").err(), Some(CommandError::EmptyCommand));
    assert_eq!(parse_command("").err(), Some(CommandError::EmptyCommand));
}

#[test]
fn bound_port_text() {
    assert_eq!(port_text(8888), "8888");
    assert_eq!(port_text(0), "0");
}

#[test]
fn test_mock_port_success() {
    let mock = MockPort::new(8080);
    let guard = mock.bind_outcome().unwrap();
    assert_eq!(guard.port(), 8080);
    assert!(guard.is_valid());
}

#[test]
fn test_mock_port_failure() {
    let mock = MockPort::new(8080).should_fail(true);
    assert!(mock.bind_outcome().is_err());
    assert_eq!(
        mock.bind_outcome().err(),
        Some(MockPortError::ConfiguredToFail(8080))
    );
}

#[test]
fn mock_port_settings() {
    let mock = MockPort::new(9000).with_bind_delay(Duration::from_millis(100));
    assert_eq!(mock.bind_delay(), Some(Duration::from_millis(100)));
    assert_eq!(MockPort::new(9000).bind_delay(), None);
    let later = MockPort::new(9000).fail_after(Duration::from_secs(3600));
    assert_eq!(later.fail_after.map(|d| d.after), Some(Duration::from_secs(3600)));
    assert!(later.bind_outcome().unwrap().is_valid());
    let expired = MockPort::new(9000).fail_after(Duration::from_secs(0));
    assert!(!expired.bind_outcome().unwrap().is_valid());
}

#[test]
fn draws_are_judged_by_use() {
    let mut allocator = PortAllocator::new(7000, 7010);
    let mut attempts: u32 = 3;
    assert!(allocator.judge_draw(7005, &mut attempts));
    assert_eq!(attempts, 3);
    allocator.record_bind(7005, true, &mut attempts);
    assert!(!allocator.judge_draw(7005, &mut attempts));
    assert_eq!(attempts, 4);
}

#[test]
fn guard_validity_given_the_clock() {
    let open_ended = MockPort::new(1).bind_outcome().unwrap();
    assert!(open_ended.valid_after(&Duration::from_secs(1_000_000)));
    let timed = MockPort::new(1)
        .fail_after(Duration::from_secs(60))
        .bind_outcome()
        .unwrap();
    assert!(timed.valid_after(&Duration::from_secs(0)));
    assert!(timed.valid_after(&Duration::from_millis(59_999)));
    assert!(!timed.valid_after(&Duration::from_secs(60)));
    assert!(!timed.valid_after(&Duration::from_secs(61)));
    let zero = MockPort::new(1)
        .fail_after(Duration::from_secs(0))
        .bind_outcome()
        .unwrap();
    assert!(!zero.valid_after(&Duration::from_secs(0)));
    assert!(!zero.is_valid());
}

#[test]
fn last_mock_setting_wins() {
    let mock = MockPort::new(7000)
        .should_fail(true)
        .with_bind_delay(Duration::from_millis(5))
        .fail_after(Duration::from_secs(0))
        .with_bind_delay(Duration::from_millis(1))
        .fail_after(Duration::from_secs(3600))
        .should_fail(false);
    assert_eq!(mock.port, 7000);
    assert!(!mock.should_fail);
    assert_eq!(mock.bind_delay(), Some(Duration::from_millis(1)));
    assert_eq!(mock.fail_after.map(|d| d.after), Some(Duration::from_secs(3600)));
    let guard = mock.bind_outcome().unwrap();
    assert_eq!(guard.port(), 7000);
    assert!(guard.is_valid());
    let failing = MockPort::new(7001).should_fail(false).should_fail(true);
    assert_eq!(
        failing.bind_outcome().err(),
        Some(MockPortError::ConfiguredToFail(7001))
    );
}
